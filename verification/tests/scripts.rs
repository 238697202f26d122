use dbgen::schemagen_cli::{print_head, print_script, print_table, Args, Dialect, Spread, Table};

fn args(inserts_count: u64, rows_count: u64, words: &[&str]) -> Args {
    Args {
        schema_name: "my db".to_string(),
        tables_count: 2,
        dialect: Dialect::MySQL,
        inserts_count,
        rows_count,
        args: words.iter().map(|w| w.to_string()).collect(),
    }
}

fn spread(files: u64, last_inserts: u64, last_rows: u64) -> Spread {
    Spread {
        files,
        last_inserts,
        last_rows,
    }
}

#[test]
fn rows_are_spread() {
    let a = args(3, 10, &[]);
    assert_eq!(a.spread_rows(65), spread(3, 1, 5));
    assert_eq!(a.spread_rows(60), spread(2, 3, 10));
    assert_eq!(a.spread_rows(50), spread(2, 2, 10));
    assert_eq!(a.spread_rows(51), spread(2, 3, 1));
    assert_eq!(a.spread_rows(1), spread(1, 1, 1));
    assert_eq!(a.spread_rows(0), spread(0, 3, 10));
}

#[test]
fn spread_adds_up_to_the_rows() {
    for inserts in 1..5u64 {
        for rows in 1..5u64 {
            let a = args(inserts, rows, &[]);
            for total in 1..100u64 {
                let s = a.spread_rows(total);
                assert!(s.files >= 1);
                assert!(1 <= s.last_inserts && s.last_inserts <= inserts);
                assert!(1 <= s.last_rows && s.last_rows <= rows);
                assert_eq!(
                    (s.files - 1) * inserts * rows + (s.last_inserts - 1) * rows + s.last_rows,
                    total
                );
            }
        }
    }
}

#[test]
fn some_rows_cannot_be_spread() {
    assert!(!args(0, 10, &[]).is_spreadable(5));
    assert!(!args(10, 0, &[]).is_spreadable(5));
    assert!(!args(u64::MAX, 2, &[]).is_spreadable(5));
    assert!(!args(1, 1, &[]).is_spreadable(u64::MAX));
    assert!(args(1, 1, &[]).is_spreadable(u64::MAX - 1));
    assert!(args(1, 2, &[]).is_spreadable(u64::MAX));
}

#[test]
fn script_without_tables() {
    assert_eq!(
        print_script(&args(3, 10, &[]), "my%20db", &Vec::new()),
        "#!/bin/sh\nset -eu\necho 'CREATE SCHEMA '\"my db\"';' > my%20db-schema-create.sql\n\n"
    );
}

#[test]
fn script_with_tables() {
    let tables = vec![
        Table {
            schema: "CREATE TABLE _ (\nc0 int {{1}}\n)".to_string(),
            rows_count: 65,
        },
        Table {
            schema: "CREATE TABLE _ (\nc0 int {{2}}\n)".to_string(),
            rows_count: 30,
        },
    ];
    let script = print_script(&args(3, 10, &["--rng", "a b", "$x", ""]), "u", &tables);
    let expected = "#!/bin/sh\nset -eu\necho 'CREATE SCHEMA '\"my db\"';' > u-schema-create.sql\n\n\
        dbgen -i /dev/stdin -o . -t \"my db\".s0 -n 3 -r 10 -k 3 \
        --last-file-inserts-count 1 --last-insert-rows-count 5 \
        --rng \"a b\" \"\\$x\" \"\" <<SCHEMAEOF\nCREATE TABLE _ (\nc0 int {{1}}\n)\nSCHEMAEOF\n\n\
        dbgen -i /dev/stdin -o . -t \"my db\".s1 -n 3 -r 10 -k 1 \
        --last-file-inserts-count 3 --last-insert-rows-count 10 \
        --rng \"a b\" \"\\$x\" \"\" <<SCHEMAEOF\nCREATE TABLE _ (\nc0 int {{2}}\n)\nSCHEMAEOF\n\n";
    assert_eq!(script, expected);
}

#[test]
fn script_without_additional_arguments() {
    let tables = vec![Table {
        schema: "S".to_string(),
        rows_count: 1,
    }];
    let mut a = args(1000, 100, &[]);
    a.schema_name = "plain".to_string();
    assert_eq!(
        print_script(&a, "plain", &tables),
        "#!/bin/sh\nset -eu\necho 'CREATE SCHEMA 'plain';' > plain-schema-create.sql\n\n\
         dbgen -i /dev/stdin -o . -t plain.s0 -n 1000 -r 100 -k 1 \
         --last-file-inserts-count 1 --last-insert-rows-count 1  <<SCHEMAEOF\nS\nSCHEMAEOF\n\n"
    );
}

#[test]
fn quoted_words_read_back() {
    let words = [
        "", "a", "a b", "$HOME", "`x`", "\"", "\\", "it's", "é ü", "~", "a=b", "100%", "\t", "\\\"",
        "\n",
    ];
    for word in words {
        let mut a = args(1, 1, &[]);
        a.schema_name = word.to_string();
        let script = print_script(&a, "u", &Vec::new());
        let start = "#!/bin/sh\nset -eu\necho 'CREATE SCHEMA '".len();
        let end = script.len() - "';' > u-schema-create.sql\n\n".len();
        let quoted = &script[start..end];
        assert_eq!(shlex::split(quoted), Some(vec![word.to_string()]));
    }
}

#[test]
fn special_characters_are_quoted() {
    for c in "|&;<>()'\t\r\n*?[#~=% ".chars() {
        let mut a = args(1, 1, &[]);
        a.schema_name = format!("x{}y", c);
        let script = print_script(&a, "u", &Vec::new());
        assert!(script.contains(&format!("'\"x{}y\"'", c)));
    }
    for c in "$`\"\\".chars() {
        let mut a = args(1, 1, &[]);
        a.schema_name = format!("x{}y", c);
        let script = print_script(&a, "u", &Vec::new());
        assert!(script.contains(&format!("'\"x\\{}y\"'", c)));
    }
    for c in "abcXYZ019_-.,:/@+!]{}^é€".chars() {
        let mut a = args(1, 1, &[]);
        a.schema_name = format!("x{}y", c);
        let script = print_script(&a, "u", &Vec::new());
        assert!(script.contains(&format!("'x{}y'", c)));
    }
}

#[test]
fn script_is_its_head_and_its_tables() {
    let a = args(3, 10, &["x y"]);
    let tables: Vec<Table> = (1..4)
        .map(|n| Table {
            schema: format!("T{}", n),
            rows_count: n * 17,
        })
        .collect();
    let mut text = print_head(&a, "u");
    for (i, table) in tables.iter().enumerate() {
        text.push_str(&print_table(&a, i, table));
    }
    assert_eq!(print_script(&a, "u", &tables), text);
}

#[test]
fn additional_arguments_read_back() {
    let words = ["--seed", "", "a b", "\"q\" $x `y` \\", "tab\there", "~", "", "end"];
    let tables = vec![Table {
        schema: "S".to_string(),
        rows_count: 1,
    }];
    let script = print_table(&args(1, 1, &words), 0, &tables[0]);
    let start = script.find("--last-insert-rows-count 1 ").unwrap() + 27;
    let end = script.find(" <<SCHEMAEOF").unwrap();
    let read = shlex::split(&script[start..end]).unwrap();
    assert_eq!(read, words);
}
