use dbgen::columns::{gen_serial_column, int_column, Column, Dialect};
use dbgen::indexes::{collect_columns, column_odds, draw_index_set, TableDraft};
use rand::thread_rng;
use std::collections::BTreeSet;

fn columns(dialect: Dialect, n: usize) -> Vec<Column> {
    let mut columns = Vec::new();
    for i in 0..n {
        if i % 2 == 0 {
            columns.push(gen_serial_column(dialect));
        } else {
            columns.push(int_column(dialect, 0, true));
        }
    }
    columns
}

fn set(items: &[usize]) -> BTreeSet<usize> {
    items.iter().cloned().collect()
}

const HEAD: &str = "CREATE TABLE _ (\nc0 bigint unsigned not null {{rownum}},\nc1 tinyint unsigned not null {{rand.range_inclusive(0, 255)}},\nc2 bigint unsigned not null {{rownum}}";

#[test]
fn columns_are_defined() {
    let draft = TableDraft::new(Dialect::MySQL, &columns(Dialect::MySQL, 3));
    assert_eq!(draft.schema, HEAD);
    assert_eq!(draft.columns_count, 3);
    assert!(draft.index_sets.is_empty());
    let table = draft.finish(17);
    assert_eq!(table.schema, format!("{}\n)", HEAD));
    assert_eq!(table.rows_count, 17);
}

#[test]
fn table_has_at_least_one_row() {
    let draft = TableDraft::new(Dialect::MySQL, &columns(Dialect::MySQL, 1));
    assert_eq!(draft.finish(0).rows_count, 1);
}

#[test]
fn table_without_columns() {
    let draft = TableDraft::new(Dialect::SQLite, &Vec::new());
    assert_eq!(draft.finish(5).schema, "CREATE TABLE _ (\n\n)");
}

#[test]
fn indexes_are_defined_by_their_kind() {
    let mut draft = TableDraft::new(Dialect::MySQL, &columns(Dialect::MySQL, 3));
    draft.append_index(&set(&[2, 0]), true, true);
    draft.append_index(&set(&[1]), true, false);
    draft.append_index(&set(&[2, 1, 0]), false, false);
    assert_eq!(
        draft.finish(1).schema,
        format!(
            "{},\nPRIMARY KEY (c0, c2),\nUNIQUE (c1),\nKEY (c0, c1, c2)\n)",
            HEAD
        )
    );
}

#[test]
fn primary_key_has_to_be_unique() {
    let mut draft = TableDraft::new(Dialect::MySQL, &columns(Dialect::MySQL, 3));
    draft.append_index(&set(&[1]), false, true);
    assert_eq!(draft.schema, HEAD);
    assert!(draft.index_sets.is_empty());
}

#[test]
fn empty_and_repeated_indexes_are_left_out() {
    let mut draft = TableDraft::new(Dialect::MySQL, &columns(Dialect::MySQL, 3));
    draft.append_index(&set(&[]), true, true);
    assert_eq!(draft.schema, HEAD);
    draft.append_index(&set(&[1, 2]), true, false);
    let once = draft.schema.clone();
    draft.append_index(&set(&[2, 1]), false, false);
    draft.append_index(&set(&[1, 2]), true, true);
    assert_eq!(draft.schema, once);
    assert_eq!(draft.index_sets, vec![vec![1, 2]]);
}

#[test]
fn only_mysql_has_plain_keys() {
    for dialect in [Dialect::PostgreSQL, Dialect::SQLite] {
        let mut draft = TableDraft::new(dialect, &columns(dialect, 3));
        let before = draft.schema.clone();
        draft.append_index(&set(&[1]), false, false);
        assert_eq!(draft.schema, before);
        assert_eq!(draft.index_sets, vec![vec![1]]);
        draft.append_index(&set(&[1]), true, false);
        assert_eq!(draft.schema, before);
    }
}

#[test]
fn first_considered_index_is_the_primary_key() {
    let mut draft = TableDraft::new(Dialect::MySQL, &columns(Dialect::MySQL, 3));
    draft.consider(&set(&[0]), true);
    draft.consider(&set(&[1]), true);
    assert_eq!(
        draft.schema,
        format!("{},\nPRIMARY KEY (c0),\nUNIQUE (c1)", HEAD)
    );
    let mut draft = TableDraft::new(Dialect::MySQL, &columns(Dialect::MySQL, 3));
    draft.consider(&set(&[0]), false);
    draft.consider(&set(&[0]), true);
    assert_eq!(draft.schema, format!("{},\nUNIQUE (c0)", HEAD));
}

#[test]
fn finished_table_lists_columns_and_accepted_indexes() {
    let mut draft = TableDraft::new(Dialect::MySQL, &columns(Dialect::MySQL, 3));
    draft.consider(&set(&[0]), true);
    draft.consider(&set(&[]), true);
    draft.consider(&set(&[0]), false);
    draft.consider(&set(&[2]), false);
    draft.consider(&set(&[0, 1]), true);
    let table = draft.finish(9);
    assert_eq!(
        table.schema,
        format!(
            "{},\nPRIMARY KEY (c0),\nKEY (c2),\nUNIQUE (c0, c1)\n)",
            HEAD
        )
    );
    assert_eq!(table.rows_count, 9);
}

#[test]
fn drawn_indexes_are_on_columns_and_end() {
    let mut rng = thread_rng();
    let mut some_columns = false;
    for _ in 0..200 {
        let index_set = draw_index_set(&mut rng, 4);
        assert!(index_set.iter().all(|c| *c < 4));
        some_columns = some_columns || !index_set.is_empty();
    }
    assert!(some_columns);
    let mut draft = TableDraft::new(Dialect::MySQL, &columns(Dialect::MySQL, 3));
    let mut considered = 0;
    while let Some(index_set) = draft.next_index(&mut rng) {
        draft.consider(&index_set, true);
        considered += 1;
    }
    assert!(considered >= 1);
    assert!(!draft.index_sets.is_empty());
    for i in 0..draft.index_sets.len() {
        for j in 0..i {
            assert_ne!(draft.index_sets[i], draft.index_sets[j]);
        }
    }
}

#[test]
fn an_index_is_wanted_while_there_is_none() {
    let mut rng = thread_rng();
    let draft = TableDraft::new(Dialect::SQLite, &columns(Dialect::SQLite, 2));
    for _ in 0..100 {
        assert!(draft.wants_index(&mut rng));
        assert!(draft.next_index(&mut rng).is_some());
    }
}

#[test]
fn drawn_columns_are_collected() {
    assert_eq!(collect_columns(&Vec::new()), set(&[]));
    assert_eq!(collect_columns(&vec![None, None]), set(&[]));
    assert_eq!(
        collect_columns(&vec![Some(5), None, Some(2), Some(5), Some(0)]),
        set(&[0, 2, 5])
    );
}

#[test]
fn odds_fall_with_the_indexes() {
    let mut draft = TableDraft::new(Dialect::MySQL, &columns(Dialect::MySQL, 3));
    assert_eq!(draft.index_odds(), (3, 3));
    assert!(draft.considers_more(false) && draft.considers_more(true));
    draft.consider(&set(&[0]), true);
    assert_eq!(draft.index_odds(), (3, 4));
    assert!(!draft.considers_more(false) && draft.considers_more(true));
    draft.consider(&set(&[0]), true);
    assert_eq!(draft.index_odds(), (3, 4));
    draft.consider(&set(&[1]), true);
    assert_eq!(draft.index_odds(), (3, 5));
}

#[test]
fn odds_fall_with_the_draws() {
    assert_eq!(column_odds(0), (1, 2));
    assert_eq!(column_odds(1), (1, 3));
    assert_eq!(column_odds(48), (1, 50));
    assert_eq!(column_odds(u32::MAX - 2), (1, u32::MAX));
}
