use dbgen::cli::{CompressionName, FormatName};
use dbgen::format::{Encoder, Format, SqlFormat};
use dbgen::output::{Action, DataFileWriter, Env, FileInfo, Sink};

fn env() -> Env {
    Env {
        file_num_digits: 3,
        unique_name: "db.t".to_string(),
        qualified_name: "\"db\".t".to_string(),
        rows_count: 2,
        escape_backslash: true,
        format: FormatName::Sql,
        compression: None,
        no_data: false,
    }
}

fn info(file_index: u32, inserts_count: u32, last_insert_rows_count: u32) -> FileInfo {
    FileInfo {
        file_index,
        inserts_count,
        last_insert_rows_count,
    }
}

/// Takes the steps of a file whose rows have these numbers of values.
fn steps(rows_count: u32, info: FileInfo, widths: &[usize]) -> Vec<Action> {
    let mut writer = DataFileWriter::new(rows_count, info);
    let mut widths = widths.iter();
    let mut actions = Vec::new();
    loop {
        let action = writer.next();
        if action == Action::Finished {
            assert_eq!(writer.next(), Action::Finished);
            assert!(widths.next().is_none());
            return actions;
        }
        if action == Action::EvaluateRow {
            writer.row_evaluated(*widths.next().unwrap());
        }
        actions.push(action);
    }
}

#[test]
fn schema_file() {
    assert_eq!(env().schema_file_name(), "db.t-schema.sql");
    assert_eq!(
        env().schema_statement("(\n  a int\n)"),
        "CREATE TABLE \"db\".t (\n  a int\n)"
    );
}

#[test]
fn plain_data_file() {
    let file = env().data_file(&info(7, 1, 1));
    assert_eq!(file.name, "db.t.007.sql");
    assert_eq!(file.sink, Sink::Plain);
    assert_eq!(
        env().row_format(),
        Format::Sql(SqlFormat {
            escape_backslash: true
        })
    );
}

#[test]
fn compressed_data_file() {
    let mut e = env();
    e.format = FormatName::Csv;
    e.compression = Some((CompressionName::Zstd, 19));
    let file = e.data_file(&info(123, 1, 1));
    assert_eq!(file.name, "db.t.123.csv.zst");
    assert_eq!(file.sink, Sink::Compressed(Encoder::Zstd(19)));
    e.compression = Some((CompressionName::Gzip, 1));
    assert_eq!(e.data_file(&info(1, 1, 1)).name, "db.t.001.csv.gz");
    e.compression = Some((CompressionName::Xz, 0));
    assert_eq!(e.data_file(&info(1, 1, 1)).name, "db.t.001.csv.xz");
    assert_eq!(
        e.data_file(&info(1, 1, 1)).sink,
        Sink::Compressed(Encoder::Xz(0))
    );
}

#[test]
fn discarded_data_file_has_no_compression_extension() {
    let mut e = env();
    e.no_data = true;
    e.compression = Some((CompressionName::Gzip, 6));
    let file = e.data_file(&info(4, 1, 1));
    assert_eq!(file.name, "db.t.004.sql");
    assert_eq!(file.sink, Sink::Discard);
}

#[test]
fn file_number_may_exceed_its_width() {
    let mut e = env();
    e.file_num_digits = 1;
    assert_eq!(e.data_file(&info(1234, 1, 1)).name, "db.t.1234.sql");
    assert_eq!(
        e.data_file(&info(u32::MAX, 1, 1)).name,
        "db.t.4294967295.sql"
    );
}

#[test]
fn data_file_names_differ_and_sort() {
    let mut names = Vec::new();
    for i in 1..=120 {
        names.push(env().data_file(&info(i, 1, 1)).name);
    }
    for i in 1..names.len() {
        assert!(names[i - 1] < names[i]);
        assert_eq!(names[i].len(), names[0].len());
    }
    assert!(!names.contains(&env().schema_file_name()));
}

#[test]
fn file_without_statements_has_no_steps() {
    assert_eq!(steps(5, info(1, 0, 9), &[]), vec![]);
}

#[test]
fn statement_without_rows() {
    assert_eq!(
        steps(5, info(1, 1, 0), &[]),
        vec![Action::WriteHeader, Action::WriteTrailer, Action::Commit(0)]
    );
}

#[test]
fn steps_of_a_file() {
    assert_eq!(
        steps(2, info(1, 2, 1), &[2, 0, 3]),
        vec![
            Action::WriteHeader,
            Action::EvaluateRow,
            Action::WriteValue(0),
            Action::WriteValueSeparator,
            Action::WriteValue(1),
            Action::WriteRowSeparator,
            Action::EvaluateRow,
            Action::WriteTrailer,
            Action::Commit(2),
            Action::WriteHeader,
            Action::EvaluateRow,
            Action::WriteValue(0),
            Action::WriteValueSeparator,
            Action::WriteValue(1),
            Action::WriteValueSeparator,
            Action::WriteValue(2),
            Action::WriteTrailer,
            Action::Commit(1),
        ]
    );
}

#[test]
fn file_generates_and_reports_all_its_rows() {
    for inserts in 0..5u32 {
        for last in 0..4u32 {
            let rows = if inserts == 0 { 0 } else { (inserts - 1) * 3 + last };
            let widths = vec![1; rows as usize];
            let actions = steps(3, info(1, inserts, last), &widths);
            let mut evaluated = 0;
            let mut committed = 0;
            let mut headers = 0;
            let mut trailers = 0;
            for action in &actions {
                match action {
                    Action::EvaluateRow => evaluated += 1,
                    Action::Commit(n) => committed += *n,
                    Action::WriteHeader => headers += 1,
                    Action::WriteTrailer => trailers += 1,
                    _ => {}
                }
            }
            assert_eq!(evaluated, rows);
            assert_eq!(committed, rows);
            assert_eq!(headers, inserts);
            assert_eq!(trailers, inserts);
            if inserts != 0 {
                assert_eq!(actions.last(), Some(&Action::Commit(last)));
            }
        }
    }
}

#[test]
fn interrupted_file_has_reported_whole_statements() {
    let actions = steps(3, info(1, 4, 2), &[2; 11]);
    let mut begun = 0;
    let mut reported = 0;
    for action in &actions {
        match action {
            Action::WriteHeader => {
                assert_eq!(reported, begun * 3);
                begun += 1;
            }
            Action::Commit(rows) => reported += *rows,
            _ => assert_eq!(reported, (begun - 1) * 3),
        }
    }
    assert_eq!((begun, reported), (4, 11));
}

#[test]
fn writer_that_stops_has_begun_the_file() {
    let widths = [2, 1, 0, 3];
    let all = steps(2, info(1, 2, 2), &widths);
    for n in 0..all.len() {
        let mut writer = DataFileWriter::new(2, info(1, 2, 2));
        let mut rows = widths.iter();
        for expected in &all[..n] {
            let action = writer.next();
            assert_eq!(&action, expected);
            if action == Action::EvaluateRow {
                writer.row_evaluated(*rows.next().unwrap());
            }
        }
    }
}
