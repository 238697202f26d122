//! Random columns: their SQL types, and the `dbgen` expressions that fill them.

use crate::decimal::{
    decimal, decimal_is_numeral, numeral, push_decimal, push_repeated, repeated,
    repeated_is_uniform, signed_decimal,
};
use crate::draws::{choose_item, gen_bool, gen_range};
use crate::names::{chosen, same_text, unsupported, NameKind, UnsupportedName};
use rand::rngs::ThreadRng;
use std::str::FromStr;
use vstd::arithmetic::power2::pow2;
use vstd::prelude::*;

verus! {

/// The SQL dialect used when generating the schemas.
#[derive(Copy, Clone, Debug, PartialEq, Eq, Structural)]
pub enum Dialect {
    /// MySQL dialect.
    MySQL,
    /// PostgreSQL dialect.
    PostgreSQL,
    /// SQLite dialect.
    SQLite,
}

impl Dialect {
    /// The dialect that a name stands for.
    pub open spec fn named(name: Seq<char>) -> Option<Dialect> {
        if name == "mysql"@ {
            Some(Dialect::MySQL)
        } else if name == "postgresql"@ {
            Some(Dialect::PostgreSQL)
        } else if name == "sqlite"@ {
            Some(Dialect::SQLite)
        } else {
            None
        }
    }
}

impl FromStr for Dialect {
    type Err = UnsupportedName;

    /// Chooses a dialect by its name.
    fn from_str(dialect: &str) -> (r: Result<Dialect, UnsupportedName>)
        ensures
            chosen(Dialect::named(dialect@), NameKind::SqlDialect, dialect@, r),
    {
        if same_text(dialect, "mysql") {
            Ok(Dialect::MySQL)
        } else if same_text(dialect, "postgresql") {
            Ok(Dialect::PostgreSQL)
        } else if same_text(dialect, "sqlite") {
            Ok(Dialect::SQLite)
        } else {
            Err(unsupported(NameKind::SqlDialect, dialect))
        }
    }
}

/// What the values of a column look like.
#[derive(Copy, Clone, Debug, PartialEq, Eq, Structural)]
pub enum ColumnShape {
    /// An integer of `bytes + 1` bytes.
    Int {
        /// One less than the number of bytes.
        bytes: u32,
        /// Whether the integer has no sign.
        unsigned: bool,
    },
    /// The number of the row.
    Serial,
    /// A decimal number.
    Decimal {
        /// The number of digits before the decimal point.
        before: u32,
        /// The number of digits after the decimal point.
        after: u32,
    },
    /// A text of at most `len` characters.
    Varchar {
        /// The greatest number of characters.
        len: u32,
    },
    /// A text of exactly `len` characters.
    Char {
        /// The number of characters.
        len: u32,
    },
    /// A point in time between 1970 and 2038.
    Timestamp,
    /// A point in time between the years 1000 and 9999.
    Datetime,
    /// A truth value, or nothing.
    NullableBool,
}

/// A column.
pub struct Column {
    /// The column type.
    pub ty: String,
    /// `dbgen` expression to generate a value of this type.
    pub expr: String,
    /// What the values look like.
    pub shape: ColumnShape,
}

/// The integer types of the SQL dialects.
#[derive(Copy, Clone, Debug, PartialEq, Eq, Structural)]
pub enum IntType {
    /// `tinyint`
    TinyInt,
    /// `smallint`
    SmallInt,
    /// `mediumint`
    MediumInt,
    /// `int`
    Int,
    /// `bigint`
    BigInt,
    /// `tinyint unsigned`
    TinyIntUnsigned,
    /// `smallint unsigned`
    SmallIntUnsigned,
    /// `mediumint unsigned`
    MediumIntUnsigned,
    /// `int unsigned`
    IntUnsigned,
    /// `bigint unsigned`
    BigIntUnsigned,
    /// `numeric(20)`
    Numeric20,
    /// `integer`
    Integer,
}

impl IntType {
    /// How the type is spelled.
    pub open spec fn spelled(self) -> Seq<char> {
        match self {
            IntType::TinyInt => "tinyint"@,
            IntType::SmallInt => "smallint"@,
            IntType::MediumInt => "mediumint"@,
            IntType::Int => "int"@,
            IntType::BigInt => "bigint"@,
            IntType::TinyIntUnsigned => "tinyint unsigned"@,
            IntType::SmallIntUnsigned => "smallint unsigned"@,
            IntType::MediumIntUnsigned => "mediumint unsigned"@,
            IntType::IntUnsigned => "int unsigned"@,
            IntType::BigIntUnsigned => "bigint unsigned"@,
            IntType::Numeric20 => "numeric(20)"@,
            IntType::Integer => "integer"@,
        }
    }

    /// The type has room for `n`.
    pub open spec fn holds(self, n: int) -> bool {
        match self {
            IntType::TinyInt => -0x80 <= n < 0x80,
            IntType::SmallInt => -0x8000 <= n < 0x8000,
            IntType::MediumInt => -0x80_0000 <= n < 0x80_0000,
            IntType::Int => -0x8000_0000 <= n < 0x8000_0000,
            IntType::BigInt => -0x8000_0000_0000_0000 <= n < 0x8000_0000_0000_0000,
            IntType::TinyIntUnsigned => 0 <= n < 0x100,
            IntType::SmallIntUnsigned => 0 <= n < 0x1_0000,
            IntType::MediumIntUnsigned => 0 <= n < 0x100_0000,
            IntType::IntUnsigned => 0 <= n < 0x1_0000_0000,
            IntType::BigIntUnsigned => 0 <= n < 0x1_0000_0000_0000_0000,
            IntType::Numeric20 => -100_000_000_000_000_000_000 < n < 100_000_000_000_000_000_000,
            IntType::Integer => -0x8000_0000_0000_0000 <= n < 0x8000_0000_0000_0000,
        }
    }

    /// The type of an integer of `bytes + 1` bytes.
    pub open spec fn suited(dialect: Dialect, unsigned: bool, bytes: int) -> IntType {
        match dialect {
            Dialect::MySQL => if unsigned {
                if bytes == 0 {
                    IntType::TinyIntUnsigned
                } else if bytes == 1 {
                    IntType::SmallIntUnsigned
                } else if bytes == 2 {
                    IntType::MediumIntUnsigned
                } else if bytes == 3 {
                    IntType::IntUnsigned
                } else {
                    IntType::BigIntUnsigned
                }
            } else {
                if bytes == 0 {
                    IntType::TinyInt
                } else if bytes == 1 {
                    IntType::SmallInt
                } else if bytes == 2 {
                    IntType::MediumInt
                } else if bytes == 3 {
                    IntType::Int
                } else {
                    IntType::BigInt
                }
            },
            Dialect::PostgreSQL => if unsigned {
                if bytes == 0 {
                    IntType::SmallInt
                } else if bytes <= 2 {
                    IntType::Int
                } else if bytes <= 6 {
                    IntType::BigInt
                } else {
                    IntType::Numeric20
                }
            } else {
                if bytes <= 1 {
                    IntType::SmallInt
                } else if bytes <= 3 {
                    IntType::Int
                } else {
                    IntType::BigInt
                }
            },
            Dialect::SQLite => IntType::Integer,
        }
    }

    /// Chooses the type of an integer of `bytes + 1` bytes.
    pub fn select(dialect: Dialect, unsigned: bool, bytes: u32) -> (r: IntType)
        ensures
            r == IntType::suited(dialect, unsigned, bytes as int),
    {
        match (dialect, unsigned) {
            (Dialect::MySQL, false) => match bytes {
                0 => IntType::TinyInt,
                1 => IntType::SmallInt,
                2 => IntType::MediumInt,
                3 => IntType::Int,
                _ => IntType::BigInt,
            },
            (Dialect::MySQL, true) => match bytes {
                0 => IntType::TinyIntUnsigned,
                1 => IntType::SmallIntUnsigned,
                2 => IntType::MediumIntUnsigned,
                3 => IntType::IntUnsigned,
                _ => IntType::BigIntUnsigned,
            },
            (Dialect::PostgreSQL, false) => match bytes {
                0..=1 => IntType::SmallInt,
                2..=3 => IntType::Int,
                _ => IntType::BigInt,
            },
            (Dialect::PostgreSQL, true) => match bytes {
                0 => IntType::SmallInt,
                1..=2 => IntType::Int,
                3..=6 => IntType::BigInt,
                _ => IntType::Numeric20,
            },
            (Dialect::SQLite, _) => IntType::Integer,
        }
    }

    /// Spells the type.
    pub fn spelling(self) -> (r: &'static str)
        ensures
            r@ == self.spelled(),
    {
        match self {
            IntType::TinyInt => "tinyint",
            IntType::SmallInt => "smallint",
            IntType::MediumInt => "mediumint",
            IntType::Int => "int",
            IntType::BigInt => "bigint",
            IntType::TinyIntUnsigned => "tinyint unsigned",
            IntType::SmallIntUnsigned => "smallint unsigned",
            IntType::MediumIntUnsigned => "mediumint unsigned",
            IntType::IntUnsigned => "int unsigned",
            IntType::BigIntUnsigned => "bigint unsigned",
            IntType::Numeric20 => "numeric(20)",
            IntType::Integer => "integer",
        }
    }
}

/// The number of values of an integer of `bytes + 1` bytes.
pub open spec fn int_values(bytes: nat) -> int
    decreases bytes,
{
    if bytes == 0 {
        256
    } else {
        256 * int_values((bytes - 1) as nat)
    }
}

/// The least value of an integer of `bytes + 1` bytes.
pub open spec fn int_min(unsigned: bool, bytes: nat) -> int {
    if unsigned {
        0
    } else {
        -(int_values(bytes) / 2)
    }
}

/// The greatest value of an integer of `bytes + 1` bytes.
pub open spec fn int_max(unsigned: bool, bytes: nat) -> int {
    if unsigned {
        int_values(bytes) - 1
    } else {
        int_values(bytes) / 2 - 1
    }
}

/// The SQL type of a column.
pub open spec fn type_text(dialect: Dialect, shape: ColumnShape) -> Seq<char> {
    match shape {
        ColumnShape::Int { bytes, unsigned } => IntType::suited(
            dialect,
            unsigned,
            bytes as int,
        ).spelled() + " not null"@,
        ColumnShape::Serial => match dialect {
            Dialect::MySQL => "bigint unsigned not null"@,
            Dialect::PostgreSQL => "bigserial"@,
            Dialect::SQLite => "integer not null"@,
        },
        ColumnShape::Decimal { before, after } => "decimal("@ + decimal((before + after) as nat)
            + ", "@ + decimal(after as nat) + ") not null"@,
        ColumnShape::Varchar { len } => "varchar("@ + decimal(len as nat) + ") not null"@,
        ColumnShape::Char { len } => "char("@ + decimal(len as nat) + ") not null"@,
        ColumnShape::Timestamp => match dialect {
            Dialect::SQLite => "text not null"@,
            _ => "timestamp not null"@,
        },
        ColumnShape::Datetime => match dialect {
            Dialect::SQLite => "text not null"@,
            Dialect::MySQL => "datetime not null"@,
            Dialect::PostgreSQL => "timestamp not null"@,
        },
        ColumnShape::NullableBool => "boolean"@,
    }
}

/// The `dbgen` expression of a column, where `probability` is the text of the probability that a
/// truth value is there.
pub open spec fn expr_text(shape: ColumnShape, probability: Seq<char>) -> Seq<char> {
    match shape {
        ColumnShape::Int { bytes, unsigned } => "rand.range_inclusive("@ + signed_decimal(
            int_min(unsigned, bytes as nat),
        ) + ", "@ + signed_decimal(int_max(unsigned, bytes as nat)) + ")"@,
        ColumnShape::Serial => "rownum"@,
        ColumnShape::Decimal { before, after } => "rand.range_inclusive(-"@ + repeated(
            '9',
            before as nat,
        ) + ", "@ + repeated('9', before as nat) + ") || rand.regex('\\.[0-9]{"@ + decimal(
            after as nat,
        ) + "}')"@,
        ColumnShape::Varchar { len } => "rand.regex('.{0,"@ + decimal(len as nat) + "}', 's')"@,
        ColumnShape::Char { len } => "rand.regex('.{"@ + decimal(len as nat) + "}', 's')"@,
        ColumnShape::Timestamp =>
            "TIMESTAMP '1970-01-01 00:00:00' + INTERVAL rand.range_inclusive(0, 2147483647) SECOND"@,
        ColumnShape::Datetime =>
            "TIMESTAMP '1000-01-01 00:00:00' + INTERVAL rand.range(0, 284012524800) SECOND"@,
        ColumnShape::NullableBool => "CASE rand.bool("@ + probability
            + ") WHEN TRUE THEN '' || rand.bool(0.5) END"@,
    }
}

impl Column {
    /// The type and the expression are those of the shape.
    pub open spec fn wf(&self, dialect: Dialect) -> bool {
        &&& self.ty@ == type_text(dialect, self.shape)
        &&& !(self.shape is NullableBool) ==> self.expr@ == expr_text(self.shape, Seq::empty())
    }
}

/// Computes the number of values of an integer of `bytes + 1` bytes.
fn count_int_values(bytes: u32) -> (r: u128)
    requires
        bytes < 8,
    ensures
        r == int_values(bytes as nat),
{
    let mut values: u128 = 256;
    let mut i: u32 = 0;
    while i < bytes
        invariant
            bytes < 8,
            i <= bytes,
            values == int_values(i as nat),
        decreases bytes - i,
    {
        proof {
            reveal_with_fuel(int_values, 9);
        }
        values = 256 * values;
        i = i + 1;
    }
    values
}

/// The column of an integer of `bytes + 1` bytes.
pub fn int_column(dialect: Dialect, bytes: u32, unsigned: bool) -> (r: Column)
    requires
        bytes < 8,
    ensures
        r.wf(dialect),
        r.shape == (ColumnShape::Int { bytes, unsigned }),
{
    let mut ty = IntType::select(dialect, unsigned, bytes).spelling().to_owned();
    ty.append(" not null");
    let values: u128 = count_int_values(bytes);
    proof {
        reveal_with_fuel(int_values, 9);
    }
    let mut expr = "rand.range_inclusive(".to_owned();
    if unsigned {
        push_decimal(&mut expr, 0);
        expr.append(", ");
        push_decimal(&mut expr, values - 1);
    } else {
        expr.append("-");
        push_decimal(&mut expr, values / 2);
        expr.append(", ");
        push_decimal(&mut expr, values / 2 - 1);
    }
    expr.append(")");
    let column = Column { ty, expr, shape: ColumnShape::Int { bytes, unsigned } };
    assert(column.expr@ =~= expr_text(column.shape, Seq::empty()));
    column
}

/// The column of the number of the row.
pub fn gen_serial_column(dialect: Dialect) -> (r: Column)
    ensures
        r.wf(dialect),
        r.shape == ColumnShape::Serial,
{
    let ty = match dialect {
        Dialect::MySQL => "bigint unsigned not null",
        Dialect::PostgreSQL => "bigserial",
        Dialect::SQLite => "integer not null",
    };
    Column { ty: ty.to_owned(), expr: "rownum".to_owned(), shape: ColumnShape::Serial }
}

/// The column of a decimal number with these numbers of digits.
pub fn decimal_column(dialect: Dialect, before: u32, after: u32) -> (r: Column)
    ensures
        r.wf(dialect),
        r.shape == (ColumnShape::Decimal { before, after }),
{
    let mut ty = "decimal(".to_owned();
    push_decimal(&mut ty, before as u128 + after as u128);
    ty.append(", ");
    push_decimal(&mut ty, after as u128);
    ty.append(") not null");
    proof {
        reveal_strlit("9");
    }
    let mut expr = "rand.range_inclusive(-".to_owned();
    push_repeated(&mut expr, "9", before as usize);
    expr.append(", ");
    push_repeated(&mut expr, "9", before as usize);
    expr.append(") || rand.regex('\\.[0-9]{");
    push_decimal(&mut expr, after as u128);
    expr.append("}')");
    Column { ty, expr, shape: ColumnShape::Decimal { before, after } }
}

/// The column of a text of at most `len` characters.
pub fn varchar_column(dialect: Dialect, len: u32) -> (r: Column)
    ensures
        r.wf(dialect),
        r.shape == (ColumnShape::Varchar { len }),
{
    let mut ty = "varchar(".to_owned();
    push_decimal(&mut ty, len as u128);
    ty.append(") not null");
    let mut expr = "rand.regex('.{0,".to_owned();
    push_decimal(&mut expr, len as u128);
    expr.append("}', 's')");
    Column { ty, expr, shape: ColumnShape::Varchar { len } }
}

/// The column of a text of exactly `len` characters.
pub fn char_column(dialect: Dialect, len: u32) -> (r: Column)
    ensures
        r.wf(dialect),
        r.shape == (ColumnShape::Char { len }),
{
    let mut ty = "char(".to_owned();
    push_decimal(&mut ty, len as u128);
    ty.append(") not null");
    let mut expr = "rand.regex('.{".to_owned();
    push_decimal(&mut expr, len as u128);
    expr.append("}', 's')");
    Column { ty, expr, shape: ColumnShape::Char { len } }
}

/// The column of a point in time between 1970 and 2038.
pub fn gen_timestamp_column(dialect: Dialect) -> (r: Column)
    ensures
        r.wf(dialect),
        r.shape == ColumnShape::Timestamp,
{
    let ty = match dialect {
        Dialect::SQLite => "text not null",
        Dialect::MySQL | Dialect::PostgreSQL => "timestamp not null",
    };
    let expr =
        "TIMESTAMP '1970-01-01 00:00:00' + INTERVAL rand.range_inclusive(0, 2147483647) SECOND";
    Column { ty: ty.to_owned(), expr: expr.to_owned(), shape: ColumnShape::Timestamp }
}

/// The column of a point in time between the years 1000 and 9999.
pub fn gen_datetime_column(dialect: Dialect) -> (r: Column)
    ensures
        r.wf(dialect),
        r.shape == ColumnShape::Datetime,
{
    let ty = match dialect {
        Dialect::SQLite => "text not null",
        Dialect::MySQL => "datetime not null",
        Dialect::PostgreSQL => "timestamp not null",
    };
    let expr = "TIMESTAMP '1000-01-01 00:00:00' + INTERVAL rand.range(0, 284012524800) SECOND";
    Column { ty: ty.to_owned(), expr: expr.to_owned(), shape: ColumnShape::Datetime }
}

/// The column of a truth value that is there with a probability, of which `probability` is the
/// text.
pub fn nullable_bool_column(dialect: Dialect, probability: &str) -> (r: Column)
    ensures
        r.wf(dialect),
        r.shape == ColumnShape::NullableBool,
        r.expr@ == expr_text(ColumnShape::NullableBool, probability@),
{
    let mut expr = "CASE rand.bool(".to_owned();
    expr.append(probability);
    expr.append(") WHEN TRUE THEN '' || rand.bool(0.5) END");
    Column { ty: "boolean".to_owned(), expr, shape: ColumnShape::NullableBool }
}

/// The numbers that are drawn for a column.
#[derive(Copy, Clone, Debug, PartialEq, Eq, Structural)]
pub enum DrawnNumber {
    /// One less than the number of bytes of an integer.
    IntBytes,
    /// The number of digits before the decimal point.
    DigitsBefore,
    /// The number of digits after the decimal point.
    DigitsAfter,
    /// The number of characters of a text.
    TextLength,
}

impl DrawnNumber {
    /// The range that the number is drawn from: the least number, and the one behind the greatest.
    pub fn range(self) -> (r: (u32, u32))
        ensures
            self is IntBytes ==> r == (0u32, 8u32),
            self is DigitsBefore ==> r == (1u32, 19u32),
            self is DigitsAfter ==> r == (0u32, 31u32),
            self is TextLength ==> r == (1u32, 255u32),
    {
        match self {
            DrawnNumber::IntBytes => (0, 8),
            DrawnNumber::DigitsBefore => (1, 19),
            DrawnNumber::DigitsAfter => (0, 31),
            DrawnNumber::TextLength => (1, 255),
        }
    }

    /// Draws the number out of the whole of its range.
    fn draw(self, rng: &mut ThreadRng) -> (r: u32)
        ensures
            self is IntBytes ==> r < 8,
            self is DigitsBefore ==> 1 <= r < 19,
            self is DigitsAfter ==> r < 31,
            self is TextLength ==> 1 <= r < 255,
    {
        let (low, high) = self.range();
        gen_range(rng, low, high)
    }
}

/// Draws the column of an integer.
pub fn gen_int_column(dialect: Dialect, rng: &mut ThreadRng) -> (r: Column)
    ensures
        r.wf(dialect),
        r.shape matches ColumnShape::Int { bytes, .. } && bytes < 8,
{
    let bytes: u32 = DrawnNumber::IntBytes.draw(rng);
    let unsigned = gen_bool(rng);
    int_column(dialect, bytes, unsigned)
}

/// Draws the column of a decimal number.
pub fn gen_decimal_column(dialect: Dialect, rng: &mut ThreadRng) -> (r: Column)
    ensures
        r.wf(dialect),
        r.shape matches ColumnShape::Decimal { before, after } && 1 <= before < 19 && after < 31,
{
    let before: u32 = DrawnNumber::DigitsBefore.draw(rng);
    let after: u32 = DrawnNumber::DigitsAfter.draw(rng);
    decimal_column(dialect, before, after)
}

/// Draws the column of a text of a bounded length.
pub fn gen_varchar_column(dialect: Dialect, rng: &mut ThreadRng) -> (r: Column)
    ensures
        r.wf(dialect),
        r.shape matches ColumnShape::Varchar { len } && 1 <= len < 255,
{
    let len: u32 = DrawnNumber::TextLength.draw(rng);
    varchar_column(dialect, len)
}

/// Draws the column of a text of a fixed length.
pub fn gen_char_column(dialect: Dialect, rng: &mut ThreadRng) -> (r: Column)
    ensures
        r.wf(dialect),
        r.shape matches ColumnShape::Char { len } && 1 <= len < 255,
{
    let len: u32 = DrawnNumber::TextLength.draw(rng);
    char_column(dialect, len)
}

/// The ways to draw a column.
#[derive(Copy, Clone, Debug, PartialEq, Eq, Structural)]
pub enum ColumnGenerator {
    /// Draws an integer.
    Int,
    /// Draws the number of the row.
    Serial,
    /// Draws a text of a bounded length.
    Varchar,
    /// Draws a text of a fixed length.
    Char,
    /// Draws a point in time between 1970 and 2038.
    Timestamp,
    /// Draws a point in time between the years 1000 and 9999.
    Datetime,
    /// Draws a truth value, or nothing.
    NullableBool,
    /// Draws a decimal number.
    Decimal,
}

/// All ways to draw a column.
pub open spec fn all_generators() -> Seq<ColumnGenerator> {
    seq![
        ColumnGenerator::Int,
        ColumnGenerator::Serial,
        ColumnGenerator::Varchar,
        ColumnGenerator::Char,
        ColumnGenerator::Timestamp,
        ColumnGenerator::Datetime,
        ColumnGenerator::NullableBool,
        ColumnGenerator::Decimal,
    ]
}

/// The shape that a way to draw a column draws.
pub open spec fn draws_shape(generator: ColumnGenerator, shape: ColumnShape) -> bool {
    match generator {
        ColumnGenerator::Int => shape matches ColumnShape::Int { bytes, .. } && bytes < 8,
        ColumnGenerator::Serial => shape is Serial,
        ColumnGenerator::Varchar => shape matches ColumnShape::Varchar { len } && 1 <= len < 255,
        ColumnGenerator::Char => shape matches ColumnShape::Char { len } && 1 <= len < 255,
        ColumnGenerator::Timestamp => shape is Timestamp,
        ColumnGenerator::Datetime => shape is Datetime,
        ColumnGenerator::NullableBool => shape is NullableBool,
        ColumnGenerator::Decimal => shape matches ColumnShape::Decimal { before, after } && 1
            <= before < 19 && after < 31,
    }
}

/// A drawn column, or the need of a probability to make one.
pub enum DrawnColumn {
    /// The column.
    Complete(Column),
    /// The column is one of truth values, and the probability that they are there is to be drawn.
    NeedsProbability,
}

/// Draws a column in the given way.
pub fn draw_column(generator: ColumnGenerator, dialect: Dialect, rng: &mut ThreadRng) -> (r:
    DrawnColumn)
    ensures
        draws_column(generator, dialect, r),
{
    match generator {
        ColumnGenerator::Int => DrawnColumn::Complete(gen_int_column(dialect, rng)),
        ColumnGenerator::Serial => DrawnColumn::Complete(gen_serial_column(dialect)),
        ColumnGenerator::Varchar => DrawnColumn::Complete(gen_varchar_column(dialect, rng)),
        ColumnGenerator::Char => DrawnColumn::Complete(gen_char_column(dialect, rng)),
        ColumnGenerator::Timestamp => DrawnColumn::Complete(gen_timestamp_column(dialect)),
        ColumnGenerator::Datetime => DrawnColumn::Complete(gen_datetime_column(dialect)),
        ColumnGenerator::NullableBool => DrawnColumn::NeedsProbability,
        ColumnGenerator::Decimal => DrawnColumn::Complete(gen_decimal_column(dialect, rng)),
    }
}

/// Lists all ways to draw a column.
pub fn column_generators() -> (r: [ColumnGenerator; 8])
    ensures
        r@ == all_generators(),
{
    let generators: [ColumnGenerator; 8] = [
        ColumnGenerator::Int,
        ColumnGenerator::Serial,
        ColumnGenerator::Varchar,
        ColumnGenerator::Char,
        ColumnGenerator::Timestamp,
        ColumnGenerator::Datetime,
        ColumnGenerator::NullableBool,
        ColumnGenerator::Decimal,
    ];
    assert(generators@ =~= all_generators());
    generators
}

/// What drawing a column in the given way must give.
pub open spec fn draws_column(
    generator: ColumnGenerator,
    dialect: Dialect,
    r: DrawnColumn,
) -> bool {
    match r {
        DrawnColumn::Complete(column) => {
            &&& !(generator is NullableBool)
            &&& column.wf(dialect)
            &&& draws_shape(generator, column.shape)
        },
        DrawnColumn::NeedsProbability => generator is NullableBool,
    }
}

/// Draws a column.
pub fn gen_column(dialect: Dialect, rng: &mut ThreadRng) -> (r: DrawnColumn)
    ensures
        exists|generator: ColumnGenerator|
            all_generators().contains(generator) && #[trigger] draws_column(generator, dialect, r),
{
    let generators = column_generators();
    let generator = choose_item(rng, generators.as_slice()).unwrap();
    draw_column(generator, dialect, rng)
}

/// Every value of an integer column has room in the type of the column, except that SQLite has no
/// integers of eight bytes without a sign.
pub proof fn integers_fit_their_type(dialect: Dialect, bytes: u32, unsigned: bool, n: int)
    requires
        bytes < 8,
        int_min(unsigned, bytes as nat) <= n <= int_max(unsigned, bytes as nat),
        !(dialect == Dialect::SQLite && unsigned && bytes == 7),
    ensures
        IntType::suited(dialect, unsigned, bytes as int).holds(n),
{
    reveal_with_fuel(int_values, 9);
}

/// The bound in the expression of a text column of a bounded length is the length in its type, so
/// that every text that the expression generates has room in the column.
pub proof fn varchar_type_bounds_its_texts(column: Column, dialect: Dialect, len: u32)
    requires
        column.wf(dialect),
        column.shape == (ColumnShape::Varchar { len }),
    ensures
        exists|bound: Seq<char>| #[trigger]
            numeral(bound, len as int) && column.ty@ == "varchar("@ + bound + ") not null"@
                && column.expr@ == "rand.regex('.{0,"@ + bound + "}', 's')"@,
{
    decimal_is_numeral(len as nat);
}

/// The number of characters in the expression of a text column of a fixed length is the length in
/// its type.
pub proof fn char_type_fits_its_texts(column: Column, dialect: Dialect, len: u32)
    requires
        column.wf(dialect),
        column.shape == (ColumnShape::Char { len }),
    ensures
        exists|bound: Seq<char>| #[trigger]
            numeral(bound, len as int) && column.ty@ == "char("@ + bound + ") not null"@
                && column.expr@ == "rand.regex('.{"@ + bound + "}', 's')"@,
{
    decimal_is_numeral(len as nat);
}

/// The expression of a decimal column generates as many digits behind the point as its type has
/// there, and numbers before it whose digits are at most as many as the type has in all less those.
pub proof fn decimal_type_fits_its_numbers(
    column: Column,
    dialect: Dialect,
    before: u32,
    after: u32,
)
    requires
        column.wf(dialect),
        column.shape == (ColumnShape::Decimal { before, after }),
    ensures
        exists|all: Seq<char>, behind: Seq<char>, nines: Seq<char>|
            #![trigger numeral(all, before + after), numeral(behind, after as int), nines.len()]
            numeral(all, before + after) && numeral(behind, after as int) && nines.len() == before
                && (forall|i: int| 0 <= i < nines.len() ==> #[trigger] nines[i] == '9')
                && column.ty@ == "decimal("@ + all + ", "@ + behind + ") not null"@ && column.expr@
                == "rand.range_inclusive(-"@ + nines + ", "@ + nines
                + ") || rand.regex('\\.[0-9]{"@ + behind + "}')"@,
{
    let all = decimal((before + after) as nat);
    let behind = decimal(after as nat);
    let nines = repeated('9', before as nat);
    decimal_is_numeral((before + after) as nat);
    decimal_is_numeral(after as nat);
    repeated_is_uniform('9', before as nat);
    assert(numeral(all, before + after) && numeral(behind, after as int) && nines.len() == before);
}

/// The number of values of an integer is a power of two.
proof fn int_values_is_power(bytes: nat)
    ensures
        int_values(bytes) == pow2(8 * bytes + 8),
        int_values(bytes) == 2 * pow2((8 * bytes + 7) as nat),
    decreases bytes,
{
    vstd::arithmetic::power2::lemma2_to64();
    vstd::arithmetic::power2::lemma_pow2_unfold((8 * bytes + 8) as nat);
    if bytes > 0 {
        int_values_is_power((bytes - 1) as nat);
        vstd::arithmetic::power2::lemma_pow2_adds((8 * (bytes - 1) + 8) as nat, 8);
    }
}

/// The expression of an integer column generates exactly the integers of its number of bytes: from
/// zero to the greatest without a sign, and as many below zero as not with one.
pub proof fn integer_expression_has_all_values(
    column: Column,
    dialect: Dialect,
    bytes: u32,
    unsigned: bool,
)
    requires
        column.wf(dialect),
        column.shape == (ColumnShape::Int { bytes, unsigned }),
    ensures
        unsigned ==> exists|high: Seq<char>| #[trigger]
            numeral(high, pow2(8 * (bytes + 1) as nat) - 1) && column.expr@
                == "rand.range_inclusive(0, "@ + high + ")"@,
        !unsigned ==> exists|low: Seq<char>, high: Seq<char>|
            #![trigger numeral(low, pow2((8 * bytes + 7) as nat) as int), numeral(high, pow2((8 * bytes + 7) as nat) - 1)]
            numeral(low, pow2((8 * bytes + 7) as nat) as int) && numeral(
                high,
                pow2((8 * bytes + 7) as nat) - 1,
            ) && column.expr@ == "rand.range_inclusive(-"@ + low + ", "@ + high + ")"@,
{
    int_values_is_power(bytes as nat);
    vstd::arithmetic::power2::lemma_pow2_pos((8 * bytes + 7) as nat);
    reveal_strlit("rand.range_inclusive(");
    reveal_strlit("rand.range_inclusive(-");
    reveal_strlit("rand.range_inclusive(0, ");
    reveal_strlit("-");
    reveal_strlit(", ");
    if unsigned {
        let high = decimal((pow2(8 * (bytes + 1) as nat) - 1) as nat);
        decimal_is_numeral((pow2(8 * (bytes + 1) as nat) - 1) as nat);
        assert(decimal(0) =~= seq!['0']);
        assert(column.expr@ =~= "rand.range_inclusive(0, "@ + high + ")"@);
    } else {
        let half = pow2((8 * bytes + 7) as nat);
        let low = decimal(half);
        let high = decimal((half - 1) as nat);
        decimal_is_numeral(half);
        decimal_is_numeral((half - 1) as nat);
        assert(numeral(low, half as int) && numeral(high, half - 1));
        assert(column.expr@ =~= "rand.range_inclusive(-"@ + low + ", "@ + high + ")"@);
    }
}

/// The type of an integer column is spelled as the dialect spells the type for its number of bytes.
pub proof fn integer_type_is_spelled(column: Column, dialect: Dialect, bytes: u32, unsigned: bool)
    requires
        column.wf(dialect),
        column.shape == (ColumnShape::Int { bytes, unsigned }),
    ensures
        dialect == Dialect::SQLite ==> column.ty@ == "integer"@ + " not null"@,
        dialect == Dialect::MySQL && !unsigned ==> column.ty@ == (if bytes == 0 {
            "tinyint"@
        } else if bytes == 1 {
            "smallint"@
        } else if bytes == 2 {
            "mediumint"@
        } else if bytes == 3 {
            "int"@
        } else {
            "bigint"@
        }) + " not null"@,
        dialect == Dialect::MySQL && unsigned ==> column.ty@ == (if bytes == 0 {
            "tinyint unsigned"@
        } else if bytes == 1 {
            "smallint unsigned"@
        } else if bytes == 2 {
            "mediumint unsigned"@
        } else if bytes == 3 {
            "int unsigned"@
        } else {
            "bigint unsigned"@
        }) + " not null"@,
        dialect == Dialect::PostgreSQL && !unsigned ==> column.ty@ == (if bytes <= 1 {
            "smallint"@
        } else if bytes <= 3 {
            "int"@
        } else {
            "bigint"@
        }) + " not null"@,
        dialect == Dialect::PostgreSQL && unsigned ==> column.ty@ == (if bytes == 0 {
            "smallint"@
        } else if bytes <= 2 {
            "int"@
        } else if bytes <= 6 {
            "bigint"@
        } else {
            "numeric(20)"@
        }) + " not null"@,
{
}

/// The columns of points in time hold them as text where the dialect has no type for them, and their
/// expressions count the seconds of their range.
pub proof fn time_columns_hold_their_range(column: Column, dialect: Dialect)
    requires
        column.wf(dialect),
    ensures
        column.shape is Timestamp ==> column.ty@ == (if dialect == Dialect::SQLite {
            "text not null"@
        } else {
            "timestamp not null"@
        }) && column.expr@
            == "TIMESTAMP '1970-01-01 00:00:00' + INTERVAL rand.range_inclusive(0, 2147483647) SECOND"@,
        column.shape is Datetime ==> column.ty@ == (if dialect == Dialect::SQLite {
            "text not null"@
        } else if dialect == Dialect::MySQL {
            "datetime not null"@
        } else {
            "timestamp not null"@
        }) && column.expr@
            == "TIMESTAMP '1000-01-01 00:00:00' + INTERVAL rand.range(0, 284012524800) SECOND"@,
        column.shape is Serial ==> column.ty@ == (if dialect == Dialect::MySQL {
            "bigint unsigned not null"@
        } else if dialect == Dialect::PostgreSQL {
            "bigserial"@
        } else {
            "integer not null"@
        }) && column.expr@ == "rownum"@,
{
}

/// The expression of a column of truth values draws whether one is there with just the probability
/// given.
pub proof fn truth_values_have_their_probability(probability: Seq<char>)
    ensures
        expr_text(ColumnShape::NullableBool, probability) == "CASE rand.bool("@ + probability
            + ") WHEN TRUE THEN '' || rand.bool(0.5) END"@,
        forall|dialect: Dialect| #[trigger]
            type_text(dialect, ColumnShape::NullableBool) == "boolean"@,
{
}

/// The names of the dialects: each stands for one of them, and no other text stands for any.
pub proof fn dialect_is_chosen_by_its_name(name: Seq<char>, r: Result<Dialect, UnsupportedName>)
    requires
        chosen(Dialect::named(name), NameKind::SqlDialect, name, r),
    ensures
        r == Ok::<Dialect, UnsupportedName>(Dialect::MySQL) <==> name == "mysql"@,
        r == Ok::<Dialect, UnsupportedName>(Dialect::PostgreSQL) <==> name == "postgresql"@,
        r == Ok::<Dialect, UnsupportedName>(Dialect::SQLite) <==> name == "sqlite"@,
        r matches Err(e) ==> e.kind == NameKind::SqlDialect && e.name@ == name,
{
    reveal_strlit("mysql");
    reveal_strlit("postgresql");
    reveal_strlit("sqlite");
    assert("mysql"@.len() == 5 && "postgresql"@.len() == 10 && "sqlite"@.len() == 6);
}

/// Each way to draw a column draws columns of its own kind, with numbers in their ranges, and only
/// truth values need a probability first.
pub proof fn generator_draws_its_kind(generator: ColumnGenerator, dialect: Dialect, r: DrawnColumn)
    requires
        draws_column(generator, dialect, r),
    ensures
        r is NeedsProbability <==> generator is NullableBool,
        r matches DrawnColumn::Complete(column) ==> {
            &&& column.wf(dialect)
            &&& generator is Int <==> column.shape is Int
            &&& generator is Serial <==> column.shape is Serial
            &&& generator is Varchar <==> column.shape is Varchar
            &&& generator is Char <==> column.shape is Char
            &&& generator is Timestamp <==> column.shape is Timestamp
            &&& generator is Datetime <==> column.shape is Datetime
            &&& generator is Decimal <==> column.shape is Decimal
            &&& column.shape matches ColumnShape::Int { bytes, unsigned } ==> bytes < 8
            &&& column.shape matches ColumnShape::Varchar { len } ==> 1 <= len < 255
            &&& column.shape matches ColumnShape::Char { len } ==> 1 <= len < 255
            &&& column.shape matches ColumnShape::Decimal { before, after } ==> 1 <= before < 19
                && after < 31
        },
{
}

/// Every way to draw a column is listed, and only once, so that all are drawn alike.
pub proof fn every_generator_is_listed_once(generator: ColumnGenerator)
    ensures
        all_generators().contains(generator),
        forall|i: int, j: int|
            0 <= i < all_generators().len() && 0 <= j < all_generators().len() && all_generators()[i]
                == generator && all_generators()[j] == generator ==> i == j,
{
    let all = all_generators();
    assert(all[0] is Int && all[1] is Serial && all[2] is Varchar && all[3] is Char);
    assert(all[4] is Timestamp && all[5] is Datetime && all[6] is NullableBool && all[7] is Decimal);
}

} // verus!
