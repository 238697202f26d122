use dbgen::cli::{CompressionName, FormatName, RngName};
use dbgen::format::{CsvFormat, Encoder, Format, SqlFormat};
use dbgen::names::{NameKind, UnsupportedName};
use dbgen::schemagen_cli::Dialect;
use std::str::FromStr;

#[test]
fn rng_names() {
    assert_eq!(RngName::from_str("chacha"), Ok(RngName::ChaCha));
    assert_eq!(RngName::from_str("hc128"), Ok(RngName::Hc128));
    assert_eq!(RngName::from_str("isaac"), Ok(RngName::Isaac));
    assert_eq!(RngName::from_str("isaac64"), Ok(RngName::Isaac64));
    assert_eq!(RngName::from_str("xorshift"), Ok(RngName::XorShift));
    assert_eq!(RngName::from_str("pcg32"), Ok(RngName::Pcg32));
    assert_eq!("step".parse::<RngName>(), Ok(RngName::Step));
}

#[test]
fn unsupported_rng_name() {
    let error = RngName::from_str("ChaCha").unwrap_err();
    assert_eq!(
        error,
        UnsupportedName {
            kind: NameKind::Rng,
            name: "ChaCha".to_string(),
        }
    );
    assert_eq!(error.message(), "Unsupported RNG ChaCha");
}

#[test]
fn format_names() {
    assert_eq!(FormatName::from_str("sql"), Ok(FormatName::Sql));
    assert_eq!(FormatName::from_str("csv"), Ok(FormatName::Csv));
    assert_eq!(FormatName::Sql.extension(), "sql");
    assert_eq!(FormatName::Csv.extension(), "csv");
    let error = FormatName::from_str("json").unwrap_err();
    assert_eq!(error.message(), "Unsupported output format json");
}

#[test]
fn format_writers() {
    assert_eq!(
        FormatName::Sql.create(true),
        Format::Sql(SqlFormat {
            escape_backslash: true
        })
    );
    assert_eq!(
        FormatName::Csv.create(false),
        Format::Csv(CsvFormat {
            escape_backslash: false
        })
    );
}

#[test]
fn compression_names() {
    assert_eq!(CompressionName::from_str("gzip"), Ok(CompressionName::Gzip));
    assert_eq!(CompressionName::from_str("gz"), Ok(CompressionName::Gzip));
    assert_eq!(CompressionName::from_str("xz"), Ok(CompressionName::Xz));
    assert_eq!(CompressionName::from_str("zstd"), Ok(CompressionName::Zstd));
    assert_eq!(CompressionName::from_str("zst"), Ok(CompressionName::Zstd));
    let error = CompressionName::from_str("").unwrap_err();
    assert_eq!(error.message(), "Unsupported compression format ");
    assert_eq!(error.kind, NameKind::CompressionFormat);
}

#[test]
fn extensions_name_their_formats() {
    for format in [FormatName::Sql, FormatName::Csv] {
        assert_eq!(FormatName::from_str(format.extension()), Ok(format));
    }
    for compression in [
        CompressionName::Gzip,
        CompressionName::Xz,
        CompressionName::Zstd,
    ] {
        assert_eq!(
            CompressionName::from_str(compression.extension()),
            Ok(compression)
        );
    }
}

#[test]
fn compression_layers() {
    assert_eq!(CompressionName::Gzip.encoder(9), Encoder::Gzip(9));
    assert_eq!(CompressionName::Xz.encoder(0), Encoder::Xz(0));
    assert_eq!(CompressionName::Zstd.encoder(21), Encoder::Zstd(21));
}

#[test]
fn dialect_names() {
    assert_eq!(Dialect::from_str("mysql"), Ok(Dialect::MySQL));
    assert_eq!(Dialect::from_str("postgresql"), Ok(Dialect::PostgreSQL));
    assert_eq!(Dialect::from_str("sqlite"), Ok(Dialect::SQLite));
    let error = Dialect::from_str("oracle").unwrap_err();
    assert_eq!(error.message(), "Unsupported SQL dialect oracle");
    assert_eq!(error.kind, NameKind::SqlDialect);
}
