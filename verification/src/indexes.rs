//! The `CREATE TABLE` statement of a random table, with its columns and indexes.

use crate::columns::{Column, Dialect};
use crate::decimal::{decimal, decimal_is_numeral, numeral, push_decimal};
use crate::draws::{gen_ratio, ratio_allows, sample_below};
use rand::rngs::ThreadRng;
use std::collections::BTreeSet;
use vstd::prelude::*;
use vstd::std_specs::cmp::OrdSpec;
use vstd::std_specs::iter::IteratorSpec;

verus! {

broadcast use vstd::std_specs::btree::group_btree_axioms;

/// A table to be generated.
pub struct Table {
    /// The `CREATE TABLE` statement.
    pub schema: String,
    /// The number of rows.
    pub rows_count: u64,
}

/// Each item is greater than those before it.
pub open spec fn ascending(list: Seq<usize>) -> bool {
    forall|i: int, j: int| 0 <= i < j < list.len() ==> list[i] < list[j]
}

/// `list` holds the members of `set` in ascending order.
pub open spec fn lists(list: Seq<usize>, set: Set<usize>) -> bool {
    ascending(list) && list.to_set() == set
}

/// The members of a finite set in ascending order.
pub open spec fn listing(set: Set<usize>) -> Seq<usize> {
    choose|list: Seq<usize>| lists(list, set)
}

/// Ascending lists of the same members are equal.
pub proof fn lists_once(a: Seq<usize>, b: Seq<usize>)
    requires
        ascending(a),
        ascending(b),
        a.to_set() =~= b.to_set(),
    ensures
        a == b,
    decreases a.len(),
{
    if a.len() == 0 {
        if b.len() > 0 {
            assert(b.to_set().contains(b[0]));
            assert(a.to_set().contains(b[0]));
        }
        assert(a =~= b);
    } else {
        let x = a.last();
        assert(a.contains(x));
        assert(a.to_set().contains(x));
        assert(b.to_set().contains(x));
        let y = b.last();
        assert(b.contains(y));
        assert(b.to_set().contains(y));
        assert(a.to_set().contains(y));
        let k = choose|k: int| 0 <= k < b.len() && b[k] == x;
        let l = choose|l: int| 0 <= l < a.len() && a[l] == y;
        assert(x == y) by {
            if k < b.len() - 1 {
                assert(b[k] < b[b.len() - 1]);
            }
            if l < a.len() - 1 {
                assert(a[l] < a[a.len() - 1]);
            }
        }
        assert forall|z: usize| a.drop_last().to_set().contains(z) <==> b.drop_last().to_set().contains(
            z,
        ) by {
            if a.drop_last().contains(z) {
                let i = choose|i: int| 0 <= i < a.drop_last().len() && a.drop_last()[i] == z;
                assert(a[i] == z && z < x);
                assert(a.contains(z));
                assert(a.to_set().contains(z));
                assert(b.to_set().contains(z));
                let j = choose|j: int| 0 <= j < b.len() && b[j] == z;
                assert(b.drop_last()[j] == z);
            }
            if b.drop_last().contains(z) {
                let i = choose|i: int| 0 <= i < b.drop_last().len() && b.drop_last()[i] == z;
                assert(b[i] == z && z < y);
                assert(b.contains(z));
                assert(b.to_set().contains(z));
                assert(a.to_set().contains(z));
                let j = choose|j: int| 0 <= j < a.len() && a[j] == z;
                assert(a.drop_last()[j] == z);
            }
        }
        lists_once(a.drop_last(), b.drop_last());
        assert(a =~= a.drop_last().push(x));
        assert(b =~= b.drop_last().push(y));
    }
}

/// Lists the members of a set in ascending order.
fn ordered(set: &BTreeSet<usize>) -> (r: Vec<usize>)
    ensures
        lists(r@, set@),
        r@ == listing(set@),
{
    let mut list: Vec<usize> = Vec::new();
    for x in iter: set.iter()
        invariant
            list@.len() == iter.index(),
            forall|i: int| 0 <= i < list@.len() ==> list@[i] == *iter.seq()[i],
    {
        list.push(*x);
    }
    let ghost items = vstd::std_specs::btree::spec_btree_keys_iter(set).remaining();
    assert(list@ =~= items.unref());
    proof {
        assert(vstd::std_specs::btree::increasing_seq(items));
        assert(vstd::laws_cmp::obeys_cmp::<&usize>());
        assert forall|i: int, j: int| 0 <= i < j < list@.len() implies list@[i] < list@[j] by {
            assert(OrdSpec::cmp_spec(&items[i], &items[j]) is Less);
            assert(list@[i] == *items[i] && list@[j] == *items[j]);
        }
        assert(lists(list@, set@));
        lists_once(list@, listing(set@));
    }
    list
}

/// The name of the column at position `i`.
pub open spec fn column_name(i: nat) -> Seq<char> {
    "c"@ + decimal(i)
}

/// The definition of the column at position `i`.
pub open spec fn column_line(i: nat, column: Column) -> Seq<char> {
    column_name(i) + " "@ + column.ty@ + " {{"@ + column.expr@ + "}}"@
}

/// The definitions of all columns.
pub open spec fn column_lines(columns: Seq<Column>) -> Seq<char>
    decreases columns.len(),
{
    if columns.len() == 0 {
        Seq::empty()
    } else {
        let line = column_line((columns.len() - 1) as nat, columns.last());
        if columns.len() == 1 {
            line
        } else {
            column_lines(columns.drop_last()) + ",\n"@ + line
        }
    }
}

/// The names of the columns at some positions.
pub open spec fn column_names(list: Seq<usize>) -> Seq<char>
    decreases list.len(),
{
    if list.len() == 0 {
        Seq::empty()
    } else {
        let name = column_name(list.last() as nat);
        if list.len() == 1 {
            name
        } else {
            column_names(list.drop_last()) + ", "@ + name
        }
    }
}

/// How the definition of an index begins, if the dialect has such an index.
pub open spec fn index_keyword(dialect: Dialect, is_unique: bool, is_primary_key: bool) -> Option<
    Seq<char>,
> {
    if is_primary_key {
        Some(",\nPRIMARY KEY ("@)
    } else if is_unique {
        Some(",\nUNIQUE ("@)
    } else if dialect == Dialect::MySQL {
        Some(",\nKEY ("@)
    } else {
        None
    }
}

/// The definition of an index, which is empty if the dialect has no such index.
pub open spec fn index_clause(
    dialect: Dialect,
    list: Seq<usize>,
    is_unique: bool,
    is_primary_key: bool,
) -> Seq<char> {
    match index_keyword(dialect, is_unique, is_primary_key) {
        Some(keyword) => keyword + column_names(list) + ")"@,
        None => Seq::empty(),
    }
}

/// A `CREATE TABLE` statement that is being put together.
pub struct TableDraft {
    /// The SQL dialect.
    pub dialect: Dialect,
    /// The number of columns.
    pub columns_count: usize,
    /// The statement so far.
    pub schema: String,
    /// The columns of each index considered so far, in ascending order.
    pub index_sets: Vec<Vec<usize>>,
    /// Whether no index was considered for the primary key yet.
    pub primary_pending: bool,
}

impl TableDraft {
    /// The columns of each index considered so far, in ascending order.
    pub open spec fn indexes(&self) -> Seq<Seq<usize>> {
        self.index_sets@.map_values(|list: Vec<usize>| list@)
    }

    /// Each index has columns, all of which exist, and no two indexes have the same ones.
    pub open spec fn wf(&self) -> bool {
        &&& forall|i: int|
            #![trigger self.indexes()[i]]
            0 <= i < self.indexes().len() ==> {
                &&& self.indexes()[i].len() > 0
                &&& ascending(self.indexes()[i])
                &&& forall|j: int|
                    0 <= j < self.indexes()[i].len() ==> #[trigger] self.indexes()[i][j]
                        < self.columns_count
            }
        &&& self.indexes().no_duplicates()
    }

    /// Starts the statement with the definitions of its columns.
    pub fn new(dialect: Dialect, columns: &Vec<Column>) -> (r: TableDraft)
        ensures
            r.wf(),
            r.dialect == dialect,
            r.columns_count == columns@.len(),
            r.schema@ == "CREATE TABLE _ (\n"@ + column_lines(columns@),
            r.indexes() == Seq::<Seq<usize>>::empty(),
            r.primary_pending,
    {
        let mut schema = "CREATE TABLE _ (\n".to_owned();
        let ghost head = schema@;
        assert(columns@.take(0) =~= Seq::<Column>::empty());
        assert(schema@ =~= head + column_lines(columns@.take(0)));
        let mut i: usize = 0;
        while i < columns.len()
            invariant
                i <= columns@.len(),
                schema@ == head + column_lines(columns@.take(i as int)),
            decreases columns@.len() - i,
        {
            if i > 0 {
                schema.append(",\n");
            }
            schema.append("c");
            push_decimal(&mut schema, i as u128);
            schema.append(" ");
            schema.append(columns[i].ty.as_str());
            schema.append(" {{");
            schema.append(columns[i].expr.as_str());
            schema.append("}}");
            proof {
                let taken = columns@.take(i + 1);
                assert(taken.drop_last() =~= columns@.take(i as int));
                assert(taken.last() == columns@[i as int]);
                assert(schema@ =~= head + column_lines(taken));
            }
            i = i + 1;
        }
        assert(columns@.take(i as int) =~= columns@);
        let draft = TableDraft {
            dialect,
            columns_count: columns.len(),
            schema,
            index_sets: Vec::new(),
            primary_pending: true,
        };
        assert(draft.indexes() =~= Seq::<Seq<usize>>::empty());
        draft
    }

    /// Whether an index with these columns was considered before.
    fn knows(&self, list: &Vec<usize>) -> (r: bool)
        ensures
            r == self.indexes().contains(list@),
    {
        let mut i: usize = 0;
        while i < self.index_sets.len()
            invariant
                i <= self.index_sets@.len(),
                forall|j: int| 0 <= j < i ==> #[trigger] self.index_sets@[j]@ != list@,
            decreases self.index_sets@.len() - i,
        {
            if same_list(&self.index_sets[i], list) {
                assert(self.indexes()[i as int] == list@);
                return true;
            }
            i = i + 1;
        }
        proof {
            if self.indexes().contains(list@) {
                let j = choose|j: int|
                    0 <= j < self.indexes().len() && self.indexes()[j] == list@;
                assert(self.index_sets@[j]@ == list@);
            }
        }
        false
    }

    /// What considering an index must do.
    pub open spec fn considers(
        before: TableDraft,
        list: Seq<usize>,
        is_unique: bool,
        is_primary_key: bool,
        after: TableDraft,
    ) -> bool {
        &&& after.dialect == before.dialect
        &&& after.columns_count == before.columns_count
        &&& if (is_primary_key && !is_unique) || list.len() == 0 || before.indexes().contains(
            list,
        ) {
            &&& after.schema@ == before.schema@
            &&& after.indexes() == before.indexes()
        } else {
            &&& after.schema@ == before.schema@ + index_clause(
                before.dialect,
                list,
                is_unique,
                is_primary_key,
            )
            &&& after.indexes() == before.indexes().push(list)
        }
    }

    /// Considers an index with the given columns, and defines it if there is none with the same
    /// columns yet and if the dialect has such an index. A primary key has to be unique.
    pub fn append_index(
        &mut self,
        index_set: &BTreeSet<usize>,
        is_unique: bool,
        is_primary_key: bool,
    )
        requires
            old(self).wf(),
            forall|c: usize| #[trigger] index_set@.contains(c) ==> c < old(self).columns_count,
        ensures
            final(self).wf(),
            final(self).primary_pending == old(self).primary_pending,
            forall|i: int, j: int|
                0 <= i < j < listing(index_set@).len() ==> listing(index_set@)[i] < listing(
                    index_set@,
                )[j],
            forall|c: usize| #[trigger]
                index_set@.contains(c) <==> listing(index_set@).contains(c),
            TableDraft::considers(
                *old(self),
                listing(index_set@),
                is_unique,
                is_primary_key,
                *final(self),
            ),
    {
        let list = ordered(index_set);
        if is_primary_key && !is_unique {
            return;
        }
        if list.len() == 0 || self.knows(&list) {
            return;
        }
        if is_primary_key {
            self.schema.append(",\nPRIMARY KEY (");
            push_column_names(&mut self.schema, &list);
            self.schema.append(")");
        } else if is_unique {
            self.schema.append(",\nUNIQUE (");
            push_column_names(&mut self.schema, &list);
            self.schema.append(")");
        } else if self.dialect == Dialect::MySQL {
            self.schema.append(",\nKEY (");
            push_column_names(&mut self.schema, &list);
            self.schema.append(")");
        }
        assert(self.schema@ =~= old(self).schema@ + index_clause(
            self.dialect,
            list@,
            is_unique,
            is_primary_key,
        ));
        let ghost before = self.indexes();
        let ghost q = list@;
        self.index_sets.push(list);
        proof {
            assert(self.indexes() =~= before.push(q));
            assert forall|j: int| 0 <= j < q.len() implies #[trigger] q[j] < self.columns_count by {
                assert(q.to_set().contains(q[j]));
            }
            assert forall|i: int, j: int|
                0 <= i < self.indexes().len() && 0 <= j < self.indexes().len() && i
                    != j implies self.indexes()[i] != self.indexes()[j] by {
                if i < before.len() && j < before.len() {
                    assert(before[i] != before[j]);
                } else if i < before.len() {
                    assert(before.contains(before[i]));
                } else {
                    assert(before.contains(before[j]));
                }
            }
            assert forall|i: int|
                #![trigger self.indexes()[i]]
                0 <= i < self.indexes().len() implies {
                &&& self.indexes()[i].len() > 0
                &&& ascending(self.indexes()[i])
                &&& forall|j: int|
                    0 <= j < self.indexes()[i].len() ==> #[trigger] self.indexes()[i][j]
                        < self.columns_count
            } by {
                if i < before.len() {
                    assert(self.indexes()[i] == before[i]);
                }
            }
        }
    }

    /// Considers a drawn index: the first one as the primary key, and any other as a plain one.
    pub fn consider(&mut self, index_set: &BTreeSet<usize>, is_unique: bool)
        requires
            old(self).wf(),
            forall|c: usize| #[trigger] index_set@.contains(c) ==> c < old(self).columns_count,
        ensures
            final(self).wf(),
            !final(self).primary_pending,
            forall|i: int, j: int|
                0 <= i < j < listing(index_set@).len() ==> listing(index_set@)[i] < listing(
                    index_set@,
                )[j],
            forall|c: usize| #[trigger]
                index_set@.contains(c) <==> listing(index_set@).contains(c),
            TableDraft::considers(
                *old(self),
                listing(index_set@),
                is_unique,
                old(self).primary_pending,
                *final(self),
            ),
    {
        let is_primary_key = self.primary_pending;
        self.append_index(index_set, is_unique, is_primary_key);
        self.primary_pending = false;
    }

    /// Draws the columns of the next index to consider, or the end of the indexes. There is always
    /// an index to consider for the primary key, and one more while no index was accepted.
    pub fn next_index(&self, rng: &mut ThreadRng) -> (r: Option<BTreeSet<usize>>)
        requires
            self.columns_count != 0,
            self.columns_count < u32::MAX,
            self.columns_count + self.index_sets@.len() <= u32::MAX,
        ensures
            self.primary_pending || self.indexes().len() == 0 ==> r is Some,
            r matches Some(index_set) ==> forall|c: usize| #[trigger]
                index_set@.contains(c) ==> c < self.columns_count,
            r matches Some(index_set) ==> exists|draws: Seq<Option<usize>>| #[trigger]
                draws_from(draws, self.columns_count) && index_set@ == drawn_columns(draws),
    {
        let wanted = !self.primary_pending && self.wants_index(rng);
        if self.considers_more(wanted) {
            Some(draw_index_set(rng, self.columns_count))
        } else {
            None
        }
    }

    /// Whether one more index is to be considered, where `wanted` tells whether one more than the
    /// primary key was drawn to be.
    pub fn considers_more(&self, wanted: bool) -> (r: bool)
        ensures
            r == (self.primary_pending || wanted),
    {
        self.primary_pending || wanted
    }

    /// The odds of considering one more index, as a number of chances and that of all chances: the
    /// number of columns against that of the columns and the indexes accepted so far.
    pub fn index_odds(&self) -> (r: (u32, u32))
        requires
            self.columns_count + self.index_sets@.len() <= u32::MAX,
        ensures
            r.0 == self.columns_count,
            r.1 == self.columns_count + self.indexes().len(),
    {
        (self.columns_count as u32, (self.columns_count + self.index_sets.len()) as u32)
    }

    /// Draws whether to consider one more index, which is the less likely the more there are, and
    /// certain while there is none. Otherwise either may come back.
    pub fn wants_index(&self, rng: &mut ThreadRng) -> (r: bool)
        requires
            self.columns_count != 0,
            self.columns_count + self.index_sets@.len() <= u32::MAX,
        ensures
            ratio_allows(
                self.columns_count as u32,
                (self.columns_count + self.indexes().len()) as u32,
                r,
            ),
    {
        let (chances, all) = self.index_odds();
        gen_ratio(rng, chances, all)
    }

    /// Ends the statement of a table of `rows` rows, and at least one.
    pub fn finish(self, rows: u64) -> (r: Table)
        ensures
            r.schema@ == self.schema@ + "\n)"@,
            r.rows_count == if rows == 0 {
                1
            } else {
                rows
            },
    {
        let mut schema = self.schema;
        schema.append("\n)");
        Table {
            schema,
            rows_count: if rows == 0 {
                1
            } else {
                rows
            },
        }
    }
}

/// Whether two lists are equal.
fn same_list(a: &Vec<usize>, b: &Vec<usize>) -> (r: bool)
    ensures
        r == (a@ == b@),
{
    if a.len() != b.len() {
        return false;
    }
    let mut i: usize = 0;
    while i < a.len()
        invariant
            i <= a@.len(),
            a@.len() == b@.len(),
            forall|j: int| 0 <= j < i ==> a@[j] == b@[j],
        decreases a@.len() - i,
    {
        if a[i] != b[i] {
            return false;
        }
        i = i + 1;
    }
    assert(a@ =~= b@);
    true
}

/// Appends the names of the columns at some positions.
fn push_column_names(out: &mut String, list: &Vec<usize>)
    ensures
        final(out)@ == old(out)@ + column_names(list@),
{
    let mut i: usize = 0;
    assert(list@.take(0) =~= Seq::<usize>::empty());
    assert(out@ =~= old(out)@ + column_names(list@.take(0)));
    while i < list.len()
        invariant
            i <= list@.len(),
            out@ == old(out)@ + column_names(list@.take(i as int)),
        decreases list@.len() - i,
    {
        if i > 0 {
            out.append(", ");
        }
        out.append("c");
        push_decimal(out, list[i] as u128);
        proof {
            let taken = list@.take(i + 1);
            assert(taken.drop_last() =~= list@.take(i as int));
            assert(taken.last() == list@[i as int]);
            assert(out@ =~= old(out)@ + column_names(taken));
        }
        i = i + 1;
    }
    assert(list@.take(i as int) =~= list@);
}

/// The columns among some draws, each of which is a column or nothing.
pub open spec fn drawn_columns(draws: Seq<Option<usize>>) -> Set<usize> {
    Set::new(|c: usize| draws.contains(Some(c)))
}

/// There is one draw for each column, and what was drawn are columns.
pub open spec fn draws_from(draws: Seq<Option<usize>>, columns_count: usize) -> bool {
    &&& draws.len() == columns_count
    &&& forall|i: int|
        0 <= i < draws.len() ==> (#[trigger] draws[i] matches Some(c) ==> c < columns_count)
}

/// Collects the columns among some draws.
pub fn collect_columns(draws: &Vec<Option<usize>>) -> (r: BTreeSet<usize>)
    ensures
        r@ == drawn_columns(draws@),
{
    let mut columns: BTreeSet<usize> = BTreeSet::new();
    let mut i: usize = 0;
    assert(columns@ =~= drawn_columns(draws@.take(0)));
    while i < draws.len()
        invariant
            i <= draws@.len(),
            columns@ == drawn_columns(draws@.take(i as int)),
        decreases draws@.len() - i,
    {
        let ghost before = draws@.take(i as int);
        let ghost taken = draws@.take(i + 1);
        match draws[i] {
            Some(column) => {
                columns.insert(column);
            },
            None => {},
        }
        proof {
            assert(taken =~= before.push(draws@[i as int]));
            assert forall|c: usize| taken.contains(Some(c)) <==> (before.contains(Some(c))
                || draws@[i as int] == Some(c)) by {
                if before.contains(Some(c)) {
                    let k = choose|k: int| 0 <= k < before.len() && before[k] == Some(c);
                    assert(taken[k] == Some(c));
                }
                if draws@[i as int] == Some(c) {
                    assert(taken[i as int] == Some(c));
                }
            }
            assert(columns@ =~= drawn_columns(taken));
        }
        i = i + 1;
    }
    assert(draws@.take(i as int) =~= draws@);
    columns
}

/// The odds of drawing a column behind `i` other draws, as a number of chances and that of all
/// chances.
pub fn column_odds(i: u32) -> (r: (u32, u32))
    requires
        i + 2 <= u32::MAX,
    ensures
        r.0 == 1,
        r.1 == 2 + i,
{
    (1, 2 + i)
}

/// Draws a column or nothing once for each column, where a column is the less likely the more draws
/// there were before.
fn draw_columns(rng: &mut ThreadRng, columns_count: usize) -> (r: Vec<Option<usize>>)
    requires
        0 < columns_count < u32::MAX,
    ensures
        draws_from(r@, columns_count),
{
    let mut draws: Vec<Option<usize>> = Vec::new();
    let mut i: u32 = 0;
    while i < columns_count as u32
        invariant
            0 < columns_count < u32::MAX,
            i <= columns_count,
            draws@.len() == i,
            forall|k: int|
                0 <= k < draws@.len() ==> (#[trigger] draws@[k] matches Some(c) ==> c
                    < columns_count),
        decreases columns_count - i,
    {
        let (chances, all) = column_odds(i);
        if gen_ratio(rng, chances, all) {
            draws.push(Some(sample_below(rng, columns_count)));
        } else {
            draws.push(None);
        }
        i = i + 1;
    }
    draws
}

/// Draws the columns of an index out of a number of columns.
pub fn draw_index_set(rng: &mut ThreadRng, columns_count: usize) -> (r: BTreeSet<usize>)
    requires
        0 < columns_count < u32::MAX,
    ensures
        forall|c: usize| #[trigger] r@.contains(c) ==> c < columns_count,
        exists|draws: Seq<Option<usize>>| #[trigger]
            draws_from(draws, columns_count) && r@ == drawn_columns(draws),
{
    let draws = draw_columns(rng, columns_count);
    collect_columns(&draws)
}

/// In every dialect, the primary key and a unique index are defined as such, with the names of their
/// columns. Only an index that is neither is left out, and only of dialects other than MySQL.
pub proof fn index_is_defined_as_its_kind(
    dialect: Dialect,
    list: Seq<usize>,
    is_unique: bool,
    is_primary_key: bool,
)
    ensures
        is_primary_key ==> index_clause(dialect, list, is_unique, is_primary_key)
            == ",\nPRIMARY KEY ("@ + column_names(list) + ")"@,
        !is_primary_key && is_unique ==> index_clause(dialect, list, is_unique, is_primary_key)
            == ",\nUNIQUE ("@ + column_names(list) + ")"@,
        !is_primary_key && !is_unique && dialect == Dialect::MySQL ==> index_clause(
            dialect,
            list,
            is_unique,
            is_primary_key,
        ) == ",\nKEY ("@ + column_names(list) + ")"@,
        index_clause(dialect, list, is_unique, is_primary_key).len() == 0 <==> !is_primary_key
            && !is_unique && dialect != Dialect::MySQL,
{
    reveal_strlit(")");
}

/// An index is accepted exactly if it has columns, no index before has the same, and it is not a
/// primary key that may collide. What is accepted is remembered and, in every dialect, defined as the
/// primary key or as unique if it is that; what is refused changes nothing.
pub proof fn index_is_accepted_once(
    before: TableDraft,
    list: Seq<usize>,
    is_unique: bool,
    is_primary_key: bool,
    after: TableDraft,
)
    requires
        TableDraft::considers(before, list, is_unique, is_primary_key, after),
    ensures
        after.dialect == before.dialect,
        after.columns_count == before.columns_count,
        list.len() == 0 || before.indexes().contains(list) || (is_primary_key && !is_unique) ==> {
            &&& after.schema@ == before.schema@
            &&& after.indexes() == before.indexes()
        },
        list.len() > 0 && !before.indexes().contains(list) && (is_primary_key ==> is_unique) ==> {
            &&& after.indexes() == before.indexes().push(list)
            &&& is_primary_key ==> after.schema@ == before.schema@ + (",\nPRIMARY KEY ("@
                + column_names(list) + ")"@)
            &&& !is_primary_key && is_unique ==> after.schema@ == before.schema@ + (",\nUNIQUE ("@
                + column_names(list) + ")"@)
            &&& !is_primary_key && !is_unique && before.dialect == Dialect::MySQL
                ==> after.schema@ == before.schema@ + (",\nKEY ("@ + column_names(list) + ")"@)
            &&& !is_primary_key && !is_unique && before.dialect != Dialect::MySQL ==> after.schema@
                == before.schema@
        },
{
    if list.len() > 0 && !before.indexes().contains(list) && (is_primary_key ==> is_unique) {
        index_is_defined_as_its_kind(before.dialect, list, is_unique, is_primary_key);
        assert(before.schema@ + Seq::<char>::empty() =~= before.schema@);
    }
}

/// The names of the columns of an index are those of all its columns, in order and with commas in
/// between, each of them a letter and the position of the column.
pub proof fn column_names_are_joined(list: Seq<usize>, column: usize)
    ensures
        column_names(Seq::empty()) == Seq::<char>::empty(),
        exists|digits: Seq<char>| #[trigger]
            numeral(digits, column as int) && column_names(list.push(column)) == column_names(list)
                + (if list.len() == 0 {
                Seq::empty()
            } else {
                ", "@
            }) + "c"@ + digits,
{
    let all = list.push(column);
    let digits = decimal(column as nat);
    decimal_is_numeral(column as nat);
    assert(all.drop_last() =~= list);
    let comma = if list.len() == 0 {
        Seq::empty()
    } else {
        ", "@
    };
    assert(column_names(all) =~= column_names(list) + comma + "c"@ + digits);
}

/// Each column is defined on a line of its own, behind those of the columns before it: its name, made
/// of a letter and its position, its type, and its expression between double braces.
pub proof fn column_lines_are_joined(columns: Seq<Column>, column: Column)
    ensures
        column_lines(Seq::empty()) == Seq::<char>::empty(),
        exists|digits: Seq<char>| #[trigger]
            numeral(digits, columns.len() as int) && column_lines(columns.push(column))
                == column_lines(columns) + (if columns.len() == 0 {
                Seq::empty()
            } else {
                ",\n"@
            }) + "c"@ + digits + " "@ + column.ty@ + " {{"@ + column.expr@ + "}}"@,
{
    let all = columns.push(column);
    let digits = decimal(columns.len());
    decimal_is_numeral(columns.len());
    assert(all.drop_last() =~= columns);
    let comma = if columns.len() == 0 {
        Seq::empty()
    } else {
        ",\n"@
    };
    assert(column_lines(all) =~= column_lines(columns) + comma + "c"@ + digits + " "@ + column.ty@
        + " {{"@ + column.expr@ + "}}"@);
}

/// The columns of an index are listed once each and in ascending order, if they can be listed at all,
/// as those of a finite set can.
pub proof fn listing_is_ascending(set: Set<usize>, list: Seq<usize>)
    requires
        forall|i: int, j: int| 0 <= i < j < list.len() ==> list[i] < list[j],
        forall|c: usize| set.contains(c) <==> #[trigger] list.contains(c),
    ensures
        listing(set) == list,
{
    assert(list.to_set() =~= set);
    assert(lists(list, set));
    lists_once(list, listing(set));
}

/// What is collected out of some draws are the columns that were drawn, and no others.
pub proof fn drawn_columns_were_drawn(draws: Seq<Option<usize>>, column: usize)
    ensures
        drawn_columns(draws).contains(column) <==> exists|i: int|
            0 <= i < draws.len() && #[trigger] draws[i] == Some(column),
{
}

/// The definitions that considering some indexes adds, where `known` are the columns of those
/// considered before. Only the first index is considered for the primary key, if that is pending.
pub open spec fn index_clauses(
    dialect: Dialect,
    known: Seq<Seq<usize>>,
    index_lists: Seq<Seq<usize>>,
    uniques: Seq<bool>,
    primary_pending: bool,
) -> Seq<char>
    decreases index_lists.len(),
{
    if index_lists.len() == 0 {
        Seq::empty()
    } else {
        let list = index_lists[0];
        let is_unique = uniques[0];
        let rest = index_lists.skip(1);
        let rest_uniques = uniques.skip(1);
        if (primary_pending && !is_unique) || list.len() == 0 || known.contains(list) {
            index_clauses(dialect, known, rest, rest_uniques, false)
        } else {
            index_clause(dialect, list, is_unique, primary_pending) + index_clauses(
                dialect,
                known.push(list),
                rest,
                rest_uniques,
                false,
            )
        }
    }
}

/// The statement of a table with these columns for which these indexes were considered.
pub open spec fn table_text(
    dialect: Dialect,
    columns: Seq<Column>,
    index_lists: Seq<Seq<usize>>,
    uniques: Seq<bool>,
) -> Seq<char> {
    "CREATE TABLE _ (\n"@ + column_lines(columns) + index_clauses(
        dialect,
        Seq::empty(),
        index_lists,
        uniques,
        true,
    ) + "\n)"@
}

/// What considering one index after the other does to the statement.
proof fn considerations_add_up(
    points: Seq<TableDraft>,
    index_lists: Seq<Seq<usize>>,
    uniques: Seq<bool>,
)
    requires
        points.len() == index_lists.len() + 1,
        uniques.len() == index_lists.len(),
        forall|i: int|
            0 <= i < index_lists.len() ==> TableDraft::considers(
                points[i],
                #[trigger] index_lists[i],
                uniques[i],
                points[i].primary_pending,
                points[i + 1],
            ) && !points[i + 1].primary_pending,
    ensures
        points.last().schema@ == points[0].schema@ + index_clauses(
            points[0].dialect,
            points[0].indexes(),
            index_lists,
            uniques,
            points[0].primary_pending,
        ),
    decreases index_lists.len(),
{
    if index_lists.len() == 0 {
        assert(points[0].schema@ + Seq::<char>::empty() =~= points[0].schema@);
    } else {
        let later = points.skip(1);
        let rest = index_lists.skip(1);
        let rest_uniques = uniques.skip(1);
        assert forall|i: int| 0 <= i < rest.len() implies TableDraft::considers(
            later[i],
            #[trigger] rest[i],
            rest_uniques[i],
            later[i].primary_pending,
            later[i + 1],
        ) && !later[i + 1].primary_pending by {
            assert(rest[i] == index_lists[i + 1]);
        }
        considerations_add_up(later, rest, rest_uniques);
        assert(TableDraft::considers(
            points[0],
            index_lists[0],
            uniques[0],
            points[0].primary_pending,
            points[1],
        ));
        assert(points.last().schema@ =~= points[0].schema@ + index_clauses(
            points[0].dialect,
            points[0].indexes(),
            index_lists,
            uniques,
            points[0].primary_pending,
        ));
    }
}

/// Whoever considers one index after the other for a new draft and then ends it gets a statement
/// that defines the columns and, behind them, each index that was accepted, once and in order; and
/// no index but the first is ever made the primary key.
pub proof fn whole_table_is_defined(
    dialect: Dialect,
    columns: Seq<Column>,
    points: Seq<TableDraft>,
    index_lists: Seq<Seq<usize>>,
    uniques: Seq<bool>,
    table: Table,
)
    requires
        points.len() == index_lists.len() + 1,
        uniques.len() == index_lists.len(),
        points[0].dialect == dialect,
        points[0].schema@ == "CREATE TABLE _ (\n"@ + column_lines(columns),
        points[0].indexes() == Seq::<Seq<usize>>::empty(),
        points[0].primary_pending,
        forall|i: int|
            0 <= i < index_lists.len() ==> TableDraft::considers(
                points[i],
                #[trigger] index_lists[i],
                uniques[i],
                points[i].primary_pending,
                points[i + 1],
            ) && !points[i + 1].primary_pending,
        table.schema@ == points.last().schema@ + "\n)"@,
    ensures
        table.schema@ == table_text(dialect, columns, index_lists, uniques),
{
    considerations_add_up(points, index_lists, uniques);
}

/// Indexes of a table at different positions are on different sets of columns.
pub proof fn indexes_differ(draft: TableDraft, i: int, j: int)
    requires
        draft.wf(),
        0 <= i < draft.indexes().len(),
        0 <= j < draft.indexes().len(),
        i != j,
    ensures
        draft.indexes()[i].to_set() != draft.indexes()[j].to_set(),
{
    let a = draft.indexes()[i];
    let b = draft.indexes()[j];
    if a.to_set() == b.to_set() {
        lists_once(a, b);
    }
}

} // verus!
