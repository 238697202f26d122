use dbgen::columns::{
    char_column, column_generators, decimal_column, draw_column, gen_char_column, gen_column,
    gen_datetime_column, gen_decimal_column, gen_int_column, gen_serial_column,
    gen_timestamp_column, gen_varchar_column, int_column, nullable_bool_column, varchar_column,
    ColumnGenerator, ColumnShape, Dialect, DrawnColumn, DrawnNumber,
};
use rand::thread_rng;

#[test]
fn signed_integer_columns() {
    let column = int_column(Dialect::MySQL, 0, false);
    assert_eq!(column.ty, "tinyint not null");
    assert_eq!(column.expr, "rand.range_inclusive(-128, 127)");
    let column = int_column(Dialect::PostgreSQL, 2, false);
    assert_eq!(column.ty, "int not null");
    assert_eq!(column.expr, "rand.range_inclusive(-8388608, 8388607)");
    let column = int_column(Dialect::SQLite, 7, false);
    assert_eq!(column.ty, "integer not null");
    assert_eq!(
        column.expr,
        "rand.range_inclusive(-9223372036854775808, 9223372036854775807)"
    );
}

#[test]
fn unsigned_integer_columns() {
    let column = int_column(Dialect::MySQL, 3, true);
    assert_eq!(column.ty, "int unsigned not null");
    assert_eq!(column.expr, "rand.range_inclusive(0, 4294967295)");
    let column = int_column(Dialect::PostgreSQL, 7, true);
    assert_eq!(column.ty, "numeric(20) not null");
    assert_eq!(column.expr, "rand.range_inclusive(0, 18446744073709551615)");
    assert_eq!(
        column.shape,
        ColumnShape::Int {
            bytes: 7,
            unsigned: true
        }
    );
}

#[test]
fn integer_types() {
    let mysql = [
        "tinyint", "smallint", "mediumint", "int", "bigint", "bigint", "bigint", "bigint",
    ];
    let postgres_signed = [
        "smallint", "smallint", "int", "int", "bigint", "bigint", "bigint", "bigint",
    ];
    let postgres_unsigned = [
        "smallint",
        "int",
        "int",
        "bigint",
        "bigint",
        "bigint",
        "bigint",
        "numeric(20)",
    ];
    for bytes in 0..8usize {
        let ty = |dialect, unsigned| int_column(dialect, bytes as u32, unsigned).ty;
        assert_eq!(
            ty(Dialect::MySQL, false),
            format!("{} not null", mysql[bytes])
        );
        assert_eq!(
            ty(Dialect::MySQL, true),
            format!("{} unsigned not null", mysql[bytes])
        );
        assert_eq!(
            ty(Dialect::PostgreSQL, false),
            format!("{} not null", postgres_signed[bytes])
        );
        assert_eq!(
            ty(Dialect::PostgreSQL, true),
            format!("{} not null", postgres_unsigned[bytes])
        );
        assert_eq!(ty(Dialect::SQLite, false), "integer not null");
        assert_eq!(ty(Dialect::SQLite, true), "integer not null");
    }
}

#[test]
fn serial_columns() {
    assert_eq!(
        gen_serial_column(Dialect::MySQL).ty,
        "bigint unsigned not null"
    );
    assert_eq!(gen_serial_column(Dialect::PostgreSQL).ty, "bigserial");
    assert_eq!(gen_serial_column(Dialect::SQLite).ty, "integer not null");
    assert_eq!(gen_serial_column(Dialect::SQLite).expr, "rownum");
}

#[test]
fn decimal_columns() {
    let column = decimal_column(Dialect::MySQL, 3, 20);
    assert_eq!(column.ty, "decimal(23, 20) not null");
    assert_eq!(
        column.expr,
        "rand.range_inclusive(-999, 999) || rand.regex('\\.[0-9]{20}')"
    );
    let column = decimal_column(Dialect::SQLite, 1, 0);
    assert_eq!(column.ty, "decimal(1, 0) not null");
    assert_eq!(
        column.expr,
        "rand.range_inclusive(-9, 9) || rand.regex('\\.[0-9]{0}')"
    );
}

#[test]
fn text_columns() {
    let column = varchar_column(Dialect::MySQL, 254);
    assert_eq!(column.ty, "varchar(254) not null");
    assert_eq!(column.expr, "rand.regex('.{0,254}', 's')");
    let column = char_column(Dialect::PostgreSQL, 7);
    assert_eq!(column.ty, "char(7) not null");
    assert_eq!(column.expr, "rand.regex('.{7}', 's')");
}

#[test]
fn time_columns() {
    assert_eq!(gen_timestamp_column(Dialect::SQLite).ty, "text not null");
    assert_eq!(gen_timestamp_column(Dialect::MySQL).ty, "timestamp not null");
    assert_eq!(
        gen_timestamp_column(Dialect::PostgreSQL).expr,
        "TIMESTAMP '1970-01-01 00:00:00' + INTERVAL rand.range_inclusive(0, 2147483647) SECOND"
    );
    assert_eq!(gen_datetime_column(Dialect::SQLite).ty, "text not null");
    assert_eq!(gen_datetime_column(Dialect::MySQL).ty, "datetime not null");
    assert_eq!(
        gen_datetime_column(Dialect::PostgreSQL).ty,
        "timestamp not null"
    );
    assert_eq!(
        gen_datetime_column(Dialect::MySQL).expr,
        "TIMESTAMP '1000-01-01 00:00:00' + INTERVAL rand.range(0, 284012524800) SECOND"
    );
}

#[test]
fn truth_value_columns() {
    let column = nullable_bool_column(Dialect::MySQL, "0.25");
    assert_eq!(column.ty, "boolean");
    assert_eq!(
        column.expr,
        "CASE rand.bool(0.25) WHEN TRUE THEN '' || rand.bool(0.5) END"
    );
    assert_eq!(column.shape, ColumnShape::NullableBool);
}

#[test]
fn drawn_columns_stay_in_range() {
    let mut rng = thread_rng();
    let mut seen = [[false; 8]; 2];
    for _ in 0..2000 {
        match gen_int_column(Dialect::MySQL, &mut rng).shape {
            ColumnShape::Int { bytes, unsigned } => seen[unsigned as usize][bytes as usize] = true,
            _ => unreachable!(),
        }
        match gen_decimal_column(Dialect::MySQL, &mut rng).shape {
            ColumnShape::Decimal { before, after } => {
                assert!(1 <= before && before < 19 && after < 31)
            }
            _ => unreachable!(),
        }
        match gen_varchar_column(Dialect::MySQL, &mut rng).shape {
            ColumnShape::Varchar { len } => assert!(1 <= len && len < 255),
            _ => unreachable!(),
        }
        match gen_char_column(Dialect::MySQL, &mut rng).shape {
            ColumnShape::Char { len } => assert!(1 <= len && len < 255),
            _ => unreachable!(),
        }
    }
    for unsigned in 0..2 {
        for bytes in 0..8 {
            assert!(seen[unsigned][bytes]);
        }
    }
}

#[test]
fn all_ways_to_draw_a_column_are_drawn() {
    let mut rng = thread_rng();
    assert_eq!(column_generators().len(), 8);
    let mut probability_needed = false;
    let mut complete = false;
    for _ in 0..1000 {
        match gen_column(Dialect::PostgreSQL, &mut rng) {
            DrawnColumn::Complete(column) => {
                assert_ne!(column.shape, ColumnShape::NullableBool);
                complete = true;
            }
            DrawnColumn::NeedsProbability => probability_needed = true,
        }
    }
    assert!(probability_needed && complete);
    assert!(matches!(
        draw_column(ColumnGenerator::NullableBool, Dialect::SQLite, &mut rng),
        DrawnColumn::NeedsProbability
    ));
    assert!(matches!(
        draw_column(ColumnGenerator::Serial, Dialect::SQLite, &mut rng),
        DrawnColumn::Complete(column) if column.shape == ColumnShape::Serial
    ));
}

#[test]
fn ranges_of_the_drawn_numbers() {
    assert_eq!(DrawnNumber::IntBytes.range(), (0, 8));
    assert_eq!(DrawnNumber::DigitsBefore.range(), (1, 19));
    assert_eq!(DrawnNumber::DigitsAfter.range(), (0, 31));
    assert_eq!(DrawnNumber::TextLength.range(), (1, 255));
}
