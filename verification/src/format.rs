//! The output formats and the compression formats of the data files.

use crate::names::{chosen, same_text, unsupported, NameKind, UnsupportedName};
use std::str::FromStr;
use vstd::prelude::*;

verus! {

/// Names of output formats supported by `dbgen`.
#[derive(Copy, Clone, Debug, PartialEq, Eq, Structural)]
pub enum FormatName {
    /// SQL
    Sql,
    /// Csv
    Csv,
}

/// How rows are written as SQL statements.
#[derive(Copy, Clone, Debug, PartialEq, Eq, Structural)]
pub struct SqlFormat {
    /// Escape backslashes when writing a string.
    pub escape_backslash: bool,
}

/// How rows are written as comma-separated values.
#[derive(Copy, Clone, Debug, PartialEq, Eq, Structural)]
pub struct CsvFormat {
    /// Escape backslashes when writing a string.
    pub escape_backslash: bool,
}

/// How rows are written.
#[derive(Copy, Clone, Debug, PartialEq, Eq, Structural)]
pub enum Format {
    /// As SQL statements.
    Sql(SqlFormat),
    /// As comma-separated values.
    Csv(CsvFormat),
}

impl FormatName {
    /// The format that a name stands for.
    pub open spec fn named(name: Seq<char>) -> Option<FormatName> {
        if name == "sql"@ {
            Some(FormatName::Sql)
        } else if name == "csv"@ {
            Some(FormatName::Csv)
        } else {
            None
        }
    }

    /// The file extension of this format.
    pub open spec fn suffix(self) -> Seq<char> {
        match self {
            FormatName::Sql => "sql"@,
            FormatName::Csv => "csv"@,
        }
    }

    /// How this format writes rows.
    pub open spec fn formatter(self, escape_backslash: bool) -> Format {
        match self {
            FormatName::Sql => Format::Sql(SqlFormat { escape_backslash }),
            FormatName::Csv => Format::Csv(CsvFormat { escape_backslash }),
        }
    }

    /// Obtains the file extension when using this format.
    pub fn extension(self) -> (r: &'static str)
        ensures
            r@ == self.suffix(),
    {
        match self {
            FormatName::Sql => "sql",
            FormatName::Csv => "csv",
        }
    }

    /// Creates a formatter writer given the name.
    pub fn create(self, escape_backslash: bool) -> (r: Format)
        ensures
            r == self.formatter(escape_backslash),
    {
        match self {
            FormatName::Sql => Format::Sql(SqlFormat { escape_backslash }),
            FormatName::Csv => Format::Csv(CsvFormat { escape_backslash }),
        }
    }
}

impl FromStr for FormatName {
    type Err = UnsupportedName;

    /// Chooses a format by its name.
    fn from_str(name: &str) -> (r: Result<FormatName, UnsupportedName>)
        ensures
            chosen(FormatName::named(name@), NameKind::OutputFormat, name@, r),
    {
        if same_text(name, "sql") {
            Ok(FormatName::Sql)
        } else if same_text(name, "csv") {
            Ok(FormatName::Csv)
        } else {
            Err(unsupported(NameKind::OutputFormat, name))
        }
    }
}

/// Names of the compression output formats supported by `dbgen`.
#[derive(Copy, Clone, Debug, PartialEq, Eq, Structural)]
pub enum CompressionName {
    /// Compress as gzip format (`*.gz`).
    Gzip,
    /// Compress as xz format (`*.xz`).
    Xz,
    /// Compress as Zstandard format (`*.zst`).
    Zstd,
}

/// A compression layer, with the level as its encoder takes it.
#[derive(Copy, Clone, Debug, PartialEq, Eq, Structural)]
pub enum Encoder {
    /// A gzip encoder and its level.
    Gzip(u32),
    /// An xz encoder and its level.
    Xz(u32),
    /// A Zstandard encoder and its level.
    Zstd(i32),
}

impl CompressionName {
    /// The compression format that a name stands for.
    pub open spec fn named(name: Seq<char>) -> Option<CompressionName> {
        if name == "gzip"@ || name == "gz"@ {
            Some(CompressionName::Gzip)
        } else if name == "xz"@ {
            Some(CompressionName::Xz)
        } else if name == "zstd"@ || name == "zst"@ {
            Some(CompressionName::Zstd)
        } else {
            None
        }
    }

    /// The file extension of this compression format.
    pub open spec fn suffix(self) -> Seq<char> {
        match self {
            CompressionName::Gzip => "gz"@,
            CompressionName::Xz => "xz"@,
            CompressionName::Zstd => "zst"@,
        }
    }

    /// The compression layer of this format.
    pub open spec fn layer(self, level: u8) -> Encoder {
        match self {
            CompressionName::Gzip => Encoder::Gzip(level as u32),
            CompressionName::Xz => Encoder::Xz(level as u32),
            CompressionName::Zstd => Encoder::Zstd(level as i32),
        }
    }

    /// Obtains the file extension when using this format.
    pub fn extension(self) -> (r: &'static str)
        ensures
            r@ == self.suffix(),
    {
        match self {
            CompressionName::Gzip => "gz",
            CompressionName::Xz => "xz",
            CompressionName::Zstd => "zst",
        }
    }

    /// The compression layer to put on top of a writer.
    pub fn encoder(self, level: u8) -> (r: Encoder)
        ensures
            r == self.layer(level),
    {
        match self {
            CompressionName::Gzip => Encoder::Gzip(level as u32),
            CompressionName::Xz => Encoder::Xz(level as u32),
            CompressionName::Zstd => Encoder::Zstd(level as i32),
        }
    }
}

impl FromStr for CompressionName {
    type Err = UnsupportedName;

    /// Chooses a compression format by its name.
    fn from_str(name: &str) -> (r: Result<CompressionName, UnsupportedName>)
        ensures
            chosen(CompressionName::named(name@), NameKind::CompressionFormat, name@, r),
    {
        if same_text(name, "gzip") || same_text(name, "gz") {
            Ok(CompressionName::Gzip)
        } else if same_text(name, "xz") {
            Ok(CompressionName::Xz)
        } else if same_text(name, "zstd") || same_text(name, "zst") {
            Ok(CompressionName::Zstd)
        } else {
            Err(unsupported(NameKind::CompressionFormat, name))
        }
    }
}

/// A file extension names the format that it belongs to.
pub proof fn format_extension_names_format(format: FormatName)
    ensures
        FormatName::named(format.suffix()) == Some(format),
{
    reveal_strlit("sql");
    reveal_strlit("csv");
    assert("csv"@[0] != "sql"@[0]);
}

/// A file extension names the compression format that it belongs to.
pub proof fn compression_extension_names_compression(compression: CompressionName)
    ensures
        CompressionName::named(compression.suffix()) == Some(compression),
{
    reveal_strlit("gzip");
    reveal_strlit("gz");
    reveal_strlit("xz");
    reveal_strlit("zst");
    assert("xz"@[0] != "gz"@[0]);
    assert("zst"@.len() == 3);
}

/// The names of the output formats: each stands for one of them, and no other text stands for any.
pub proof fn format_is_chosen_by_its_name(name: Seq<char>, r: Result<FormatName, UnsupportedName>)
    requires
        chosen(FormatName::named(name), NameKind::OutputFormat, name, r),
    ensures
        r == Ok::<FormatName, UnsupportedName>(FormatName::Sql) <==> name == "sql"@,
        r == Ok::<FormatName, UnsupportedName>(FormatName::Csv) <==> name == "csv"@,
        r matches Err(e) ==> e.kind == NameKind::OutputFormat && e.name@ == name,
{
    format_extension_names_format(FormatName::Csv);
}

/// The names of the compression formats, of which some have two: each stands for one format, and no
/// other text stands for any.
pub proof fn compression_is_chosen_by_its_name(
    name: Seq<char>,
    r: Result<CompressionName, UnsupportedName>,
)
    requires
        chosen(CompressionName::named(name), NameKind::CompressionFormat, name, r),
    ensures
        r == Ok::<CompressionName, UnsupportedName>(CompressionName::Gzip) <==> (name == "gzip"@
            || name == "gz"@),
        r == Ok::<CompressionName, UnsupportedName>(CompressionName::Xz) <==> name == "xz"@,
        r == Ok::<CompressionName, UnsupportedName>(CompressionName::Zstd) <==> (name == "zstd"@
            || name == "zst"@),
        r matches Err(e) ==> e.kind == NameKind::CompressionFormat && e.name@ == name,
{
    reveal_strlit("gzip");
    reveal_strlit("gz");
    reveal_strlit("xz");
    reveal_strlit("zstd");
    reveal_strlit("zst");
    assert("gz"@[0] == 'g' && "xz"@[0] == 'x' && "gzip"@[0] == 'g' && "zstd"@[0] == 'z');
}

/// A compression layer is of the format asked for and takes the level asked for as it is, whatever
/// that is.
pub proof fn layer_takes_its_level(compression: CompressionName, level: u8)
    ensures
        compression is Gzip <==> compression.layer(level) is Gzip,
        compression is Xz <==> compression.layer(level) is Xz,
        compression is Zstd <==> compression.layer(level) is Zstd,
        compression.layer(level) matches Encoder::Gzip(n) ==> n == level,
        compression.layer(level) matches Encoder::Xz(n) ==> n == level,
        compression.layer(level) matches Encoder::Zstd(n) ==> n == level,
{
}

/// A formatter is of the format asked for and escapes backslashes exactly if asked to.
pub proof fn formatter_keeps_its_flag(format: FormatName, escape_backslash: bool)
    ensures
        format is Sql <==> format.formatter(escape_backslash) is Sql,
        format.formatter(escape_backslash) matches Format::Sql(f) ==> f.escape_backslash
            == escape_backslash,
        format.formatter(escape_backslash) matches Format::Csv(f) ==> f.escape_backslash
            == escape_backslash,
{
}

} // verus!
