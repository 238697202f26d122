//! Names that a user may choose among, and the error for any other.

use vstd::prelude::*;

verus! {

/// What a name was to choose.
#[derive(Copy, Clone, Debug, PartialEq, Eq, Structural)]
pub enum NameKind {
    /// A random number generator.
    Rng,
    /// An output format.
    OutputFormat,
    /// A compression format.
    CompressionFormat,
    /// An SQL dialect.
    SqlDialect,
}

/// A name that stands for nothing.
#[derive(Clone, Debug, PartialEq, Eq)]
pub struct UnsupportedName {
    /// What the name was to choose.
    pub kind: NameKind,
    /// The name.
    pub name: String,
}

impl NameKind {
    /// How a message about an unsupported name begins.
    pub open spec fn complaint(self) -> Seq<char> {
        match self {
            NameKind::Rng => "Unsupported RNG "@,
            NameKind::OutputFormat => "Unsupported output format "@,
            NameKind::CompressionFormat => "Unsupported compression format "@,
            NameKind::SqlDialect => "Unsupported SQL dialect "@,
        }
    }
}

impl UnsupportedName {
    /// The message to show.
    pub fn message(&self) -> (r: String)
        ensures
            r@ == self.kind.complaint() + self.name@,
    {
        let complaint = match self.kind {
            NameKind::Rng => "Unsupported RNG ",
            NameKind::OutputFormat => "Unsupported output format ",
            NameKind::CompressionFormat => "Unsupported compression format ",
            NameKind::SqlDialect => "Unsupported SQL dialect ",
        };
        let mut message = complaint.to_owned();
        message.append(self.name.as_str());
        message
    }
}

/// What choosing by a name must give: the choice where there is one, and else the error that
/// repeats the name.
pub open spec fn chosen<T>(
    choice: Option<T>,
    kind: NameKind,
    name: Seq<char>,
    r: Result<T, UnsupportedName>,
) -> bool {
    match choice {
        Some(value) => r == Ok::<T, UnsupportedName>(value),
        None => r matches Err(e) && e.kind == kind && e.name@ == name,
    }
}

/// Whether two texts are equal.
pub(crate) fn same_text(a: &str, b: &str) -> (r: bool)
    ensures
        r == (a@ == b@),
{
    a.to_owned() == b.to_owned()
}

/// The error for a name that stands for nothing.
pub(crate) fn unsupported(kind: NameKind, name: &str) -> (r: UnsupportedName)
    ensures
        r.kind == kind,
        r.name@ == name@,
{
    UnsupportedName { kind, name: name.to_owned() }
}

/// The message about a name that stands for nothing tells what it was to choose.
pub proof fn complaint_tells_kind(kind: NameKind)
    ensures
        kind is Rng ==> kind.complaint() == "Unsupported RNG "@,
        kind is OutputFormat ==> kind.complaint() == "Unsupported output format "@,
        kind is CompressionFormat ==> kind.complaint() == "Unsupported compression format "@,
        kind is SqlDialect ==> kind.complaint() == "Unsupported SQL dialect "@,
{
}

} // verus!
