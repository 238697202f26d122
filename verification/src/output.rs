//! The files of a run: their names, and what is written into them in which order.

use crate::decimal::{
    all_digits, decimal, decimal_is_numeral, decimal_len_monotone, digits_value, numeral, padded, padded_reads_back, padded_sorts, push_padded, smaller_at,
    sorts_before,
};
use crate::format::{CompressionName, Encoder, Format, FormatName};
use vstd::prelude::*;

verus! {

/// The environmental data shared by all data writers.
pub struct Env {
    /// The number of digits of a file number.
    pub file_num_digits: usize,
    /// The name of the table for use in file names.
    pub unique_name: String,
    /// The name of the table for use in statements.
    pub qualified_name: String,
    /// The number of rows of an INSERT statement that is not the last of its file.
    pub rows_count: u32,
    /// Escape backslashes when writing a string.
    pub escape_backslash: bool,
    /// The output format.
    pub format: FormatName,
    /// The compression format and its level.
    pub compression: Option<(CompressionName, u8)>,
    /// Do not generate data files.
    pub no_data: bool,
}

/// Information specific to a data file.
#[derive(Copy, Clone, Debug, PartialEq, Eq, Structural)]
pub struct FileInfo {
    /// The number of the file, counted from one.
    pub file_index: u32,
    /// The number of INSERT statements.
    pub inserts_count: u32,
    /// The number of rows of the last INSERT statement.
    pub last_insert_rows_count: u32,
}

/// Where the bytes of a data file go.
#[derive(Copy, Clone, Debug, PartialEq, Eq, Structural)]
pub enum Sink {
    /// Nowhere: no file is made.
    Discard,
    /// Into the file as they are.
    Plain,
    /// Into the file through a compression layer.
    Compressed(Encoder),
}

/// A data file to be written.
pub struct DataFile {
    /// The name of the file inside the output directory.
    pub name: String,
    /// Where its bytes go.
    pub sink: Sink,
}

impl Env {
    /// The name of the schema file.
    pub open spec fn schema_name(&self) -> Seq<char> {
        self.unique_name@ + "-schema.sql"@
    }

    /// The content of the schema file, where `content` follows the name of the table.
    pub open spec fn schema_text(&self, content: Seq<char>) -> Seq<char> {
        "CREATE TABLE "@ + self.qualified_name@ + " "@ + content
    }

    /// The name of the data file with the number `index`.
    pub open spec fn data_name(&self, index: nat) -> Seq<char> {
        let plain = self.unique_name@ + "."@ + padded(index, self.file_num_digits as nat) + "."@
            + self.format.suffix();
        match self.compression {
            Some((compression, _)) if !self.no_data => plain + "."@ + compression.suffix(),
            _ => plain,
        }
    }

    /// Where the bytes of the data files go.
    pub open spec fn data_sink(&self) -> Sink {
        if self.no_data {
            Sink::Discard
        } else {
            match self.compression {
                Some((compression, level)) => Sink::Compressed(compression.layer(level)),
                None => Sink::Plain,
            }
        }
    }

    /// The name of the `CREATE TABLE` schema file inside the output directory.
    pub fn schema_file_name(&self) -> (r: String)
        ensures
            r@ == self.schema_name(),
    {
        let mut name = self.unique_name.clone();
        name.append("-schema.sql");
        name
    }

    /// The content of the `CREATE TABLE` schema file.
    pub fn schema_statement(&self, content: &str) -> (r: String)
        ensures
            r@ == self.schema_text(content@),
    {
        let mut text = "CREATE TABLE ".to_owned();
        text.append(self.qualified_name.as_str());
        text.append(" ");
        text.append(content);
        text
    }

    /// The name of a single data file, and where its bytes go.
    pub fn data_file(&self, info: &FileInfo) -> (r: DataFile)
        ensures
            r.name@ == self.data_name(info.file_index as nat),
            r.sink == self.data_sink(),
    {
        let mut name = self.unique_name.clone();
        name.append(".");
        push_padded(&mut name, info.file_index as u128, self.file_num_digits);
        name.append(".");
        name.append(self.format.extension());
        if self.no_data {
            return DataFile { name, sink: Sink::Discard };
        }
        match self.compression {
            Some((compression, level)) => {
                name.append(".");
                name.append(compression.extension());
                DataFile { name, sink: Sink::Compressed(compression.encoder(level)) }
            },
            None => DataFile { name, sink: Sink::Plain },
        }
    }

    /// How the rows of the data files are written.
    pub fn row_format(&self) -> (r: Format)
        ensures
            r == self.format.formatter(self.escape_backslash),
    {
        self.format.create(self.escape_backslash)
    }
}

/// A step of writing a data file.
#[derive(Copy, Clone, Debug, PartialEq, Eq, Structural)]
pub enum Action {
    /// Write what precedes the rows of a statement.
    WriteHeader,
    /// Write what stands between two rows.
    WriteRowSeparator,
    /// Generate the values of the next row.
    EvaluateRow,
    /// Write what stands between two values of a row.
    WriteValueSeparator,
    /// Write the value of the row at this position.
    WriteValue(usize),
    /// Write what follows the rows of a statement.
    WriteTrailer,
    /// Report the bytes written since the last report, and this number of rows.
    Commit(u32),
    /// The file is complete.
    Finished,
}

/// The number of rows of the INSERT statement at position `insert` of a file.
pub open spec fn insert_rows(rows_count: u32, info: FileInfo, insert: int) -> u32 {
    if insert == info.inserts_count - 1 {
        info.last_insert_rows_count
    } else {
        rows_count
    }
}

/// The number of rows of a file.
pub open spec fn file_rows(rows_count: u32, info: FileInfo) -> int {
    if info.inserts_count == 0 {
        0
    } else {
        (info.inserts_count - 1) * rows_count + info.last_insert_rows_count
    }
}

/// The steps that write the values of a row from position `from` on.
pub open spec fn value_actions(from: int, width: usize) -> Seq<Action>
    decreases width - from,
{
    if from >= width {
        Seq::empty()
    } else {
        let value = seq![Action::WriteValue(from as usize)] + value_actions(from + 1, width);
        if from == 0 {
            value
        } else {
            seq![Action::WriteValueSeparator] + value
        }
    }
}

/// The steps that write row `row` and all that follows of the statement at position `insert` and
/// of the statements after it, where `widths` are the numbers of values of the rows to come.
pub open spec fn row_actions(
    rows_count: u32,
    info: FileInfo,
    insert: int,
    row: int,
    widths: Seq<usize>,
) -> Seq<Action>
    decreases info.inserts_count - insert, 1nat, insert_rows(rows_count, info, insert) - row,
{
    let rows = insert_rows(rows_count, info, insert);
    if insert >= info.inserts_count {
        Seq::empty()
    } else if row >= rows {
        seq![Action::WriteTrailer, Action::Commit(rows)] + insert_actions(
            rows_count,
            info,
            insert + 1,
            widths,
        )
    } else {
        let values = seq![Action::EvaluateRow] + value_actions(0, widths[0]);
        let rest = row_actions(rows_count, info, insert, row + 1, widths.skip(1));
        if row == 0 {
            values + rest
        } else {
            seq![Action::WriteRowSeparator] + values + rest
        }
    }
}

/// The steps that write the statement at position `insert` and those after it, where `widths` are
/// the numbers of values of the rows to come.
pub open spec fn insert_actions(
    rows_count: u32,
    info: FileInfo,
    insert: int,
    widths: Seq<usize>,
) -> Seq<Action>
    decreases info.inserts_count - insert, 2nat, 0int,
{
    if insert >= info.inserts_count {
        Seq::empty()
    } else {
        seq![Action::WriteHeader] + row_actions(rows_count, info, insert, 0, widths)
    }
}

/// The steps that write a file, where `widths` are the numbers of values of its rows.
pub open spec fn file_actions(rows_count: u32, info: FileInfo, widths: Seq<usize>) -> Seq<Action> {
    insert_actions(rows_count, info, 0, widths)
}

/// How far the writing of a file has come.
#[derive(Copy, Clone, Debug, PartialEq, Eq, Structural)]
pub enum Phase {
    /// In front of a statement.
    Insert,
    /// In front of a row, and of what separates it from the row before.
    Row {
        /// The position of the row in its statement.
        row: u32,
    },
    /// In front of a row that the separator was already written for.
    Evaluate {
        /// The position of the row in its statement.
        row: u32,
    },
    /// The values of a row are being generated.
    Awaiting {
        /// The position of the row in its statement.
        row: u32,
    },
    /// In front of a value, and of what separates it from the value before.
    Values {
        /// The position of the row in its statement.
        row: u32,
        /// The position of the value in its row.
        column: usize,
        /// The number of values of the row.
        width: usize,
    },
    /// In front of a value that the separator was already written for.
    Value {
        /// The position of the row in its statement.
        row: u32,
        /// The position of the value in its row.
        column: usize,
        /// The number of values of the row.
        width: usize,
    },
    /// Behind a statement that was not reported yet.
    Commit,
}

/// Decides which step of writing a data file comes next.
pub struct DataFileWriter {
    /// The number of rows of an INSERT statement that is not the last of the file.
    pub rows_count: u32,
    /// What is to be written.
    pub info: FileInfo,
    /// The position of the current statement.
    pub insert: u32,
    /// How far the current statement has come.
    pub phase: Phase,
}

/// Something that happens while a data file is written.
pub enum WriterEvent {
    /// A step is taken.
    Step(Action),
    /// The values of a row were generated, and there are this many.
    Row(usize),
}

impl DataFileWriter {
    /// An event brings the writing of a file from one point to another: a step is the first of
    /// those still to come, and a row is the first of those that were not generated yet.
    pub open spec fn moves(
        before: DataFileWriter,
        event: WriterEvent,
        after: DataFileWriter,
    ) -> bool {
        match event {
            WriterEvent::Step(action) => forall|widths: Seq<usize>|
                before.remaining(widths) == seq![action] + #[trigger] after.remaining(widths),
            WriterEvent::Row(width) => forall|widths: Seq<usize>| #[trigger]
                after.remaining(widths) == before.remaining(seq![width] + widths),
        }
    }

    /// No step is still to come.
    pub open spec fn finished(&self) -> bool {
        forall|widths: Seq<usize>| #[trigger] self.remaining(widths) == Seq::<Action>::empty()
    }

    /// The positions lie inside the file.
    pub open spec fn wf(&self) -> bool {
        let rows = insert_rows(self.rows_count, self.info, self.insert as int);
        &&& self.phase is Insert ==> self.insert <= self.info.inserts_count
        &&& !(self.phase is Insert) ==> self.insert < self.info.inserts_count
        &&& match self.phase {
            Phase::Insert | Phase::Commit => true,
            Phase::Row { row } => row <= rows,
            Phase::Evaluate { row } => row < rows,
            Phase::Awaiting { row } => row < rows,
            Phase::Values { row, column, width } => row < rows && column <= width,
            Phase::Value { row, column, width } => row < rows && column < width,
        }
    }

    /// The number of values of a row is awaited.
    pub open spec fn awaiting(&self) -> bool {
        self.phase is Awaiting
    }

    /// The steps still to come, where `widths` are the numbers of values of the rows that were not
    /// generated yet.
    pub open spec fn remaining(&self, widths: Seq<usize>) -> Seq<Action> {
        let insert = self.insert as int;
        match self.phase {
            Phase::Insert => insert_actions(self.rows_count, self.info, insert, widths),
            Phase::Row { row } => row_actions(
                self.rows_count,
                self.info,
                insert,
                row as int,
                widths,
            ),
            Phase::Evaluate { row } => seq![Action::EvaluateRow] + value_actions(0, widths[0])
                + row_actions(self.rows_count, self.info, insert, row + 1, widths.skip(1)),
            Phase::Awaiting { row } => value_actions(0, widths[0]) + row_actions(
                self.rows_count,
                self.info,
                insert,
                row + 1,
                widths.skip(1),
            ),
            Phase::Values { row, column, width } => value_actions(column as int, width)
                + row_actions(self.rows_count, self.info, insert, row + 1, widths),
            Phase::Value { row, column, width } => seq![Action::WriteValue(column)]
                + value_actions(column + 1, width) + row_actions(
                self.rows_count,
                self.info,
                insert,
                row + 1,
                widths,
            ),
            Phase::Commit => seq![
                Action::Commit(insert_rows(self.rows_count, self.info, insert)),
            ] + insert_actions(self.rows_count, self.info, insert + 1, widths),
        }
    }

    /// Starts to write a file.
    pub fn new(rows_count: u32, info: FileInfo) -> (r: DataFileWriter)
        ensures
            r.wf(),
            !r.awaiting(),
            forall|widths: Seq<usize>| #[trigger]
                r.remaining(widths) == file_actions(rows_count, info, widths),
    {
        DataFileWriter { rows_count, info, insert: 0, phase: Phase::Insert }
    }

    /// The next step: the first of those still to come.
    pub fn next(&mut self) -> (r: Action)
        requires
            old(self).wf(),
            !old(self).awaiting(),
        ensures
            final(self).wf(),
            final(self).awaiting() <==> r == Action::EvaluateRow,
            r != Action::Finished ==> DataFileWriter::moves(
                *old(self),
                WriterEvent::Step(r),
                *final(self),
            ),
            r == Action::Finished ==> *final(self) == *old(self) && final(self).finished(),
    {
        let rows: u32 = if self.insert < self.info.inserts_count && self.insert
            == self.info.inserts_count - 1 {
            self.info.last_insert_rows_count
        } else {
            self.rows_count
        };
        let ghost start = *self;
        match self.phase {
            Phase::Values { row, column, width } => {
                if column >= width {
                    self.phase = Phase::Row { row: row + 1 };
                    proof {
                        assert forall|widths: Seq<usize>|
                            start.remaining(widths) == #[trigger] self.remaining(widths) by {
                            assert(start.remaining(widths) =~= self.remaining(widths));
                        }
                    }
                }
            },
            _ => {},
        }
        let ghost middle = *self;
        let action = match self.phase {
            Phase::Insert => {
                if self.insert >= self.info.inserts_count {
                    Action::Finished
                } else {
                    self.phase = Phase::Row { row: 0 };
                    Action::WriteHeader
                }
            },
            Phase::Row { row } => {
                if row >= rows {
                    self.phase = Phase::Commit;
                    Action::WriteTrailer
                } else if row != 0 {
                    self.phase = Phase::Evaluate { row };
                    Action::WriteRowSeparator
                } else {
                    self.phase = Phase::Awaiting { row };
                    Action::EvaluateRow
                }
            },
            Phase::Evaluate { row } => {
                self.phase = Phase::Awaiting { row };
                Action::EvaluateRow
            },
            Phase::Awaiting { row } => Action::Finished,
            Phase::Values { row, column, width } => {
                if column != 0 {
                    self.phase = Phase::Value { row, column, width };
                    Action::WriteValueSeparator
                } else {
                    self.phase = Phase::Values { row, column: 1, width };
                    Action::WriteValue(0)
                }
            },
            Phase::Value { row, column, width } => {
                self.phase = Phase::Values { row, column: column + 1, width };
                Action::WriteValue(column)
            },
            Phase::Commit => {
                self.insert = self.insert + 1;
                self.phase = Phase::Insert;
                Action::Commit(rows)
            },
        };
        proof {
            if action != Action::Finished {
                assert forall|widths: Seq<usize>|
                    start.remaining(widths) == seq![action] + #[trigger] self.remaining(widths) by {
                    assert(start.remaining(widths) == middle.remaining(widths));
                    assert(middle.remaining(widths) =~= seq![action] + self.remaining(widths));
                }
            }
        }
        action
    }

    /// Takes note of how many values were generated for the row.
    pub fn row_evaluated(&mut self, width: usize)
        requires
            old(self).wf(),
            old(self).awaiting(),
        ensures
            final(self).wf(),
            !final(self).awaiting(),
            DataFileWriter::moves(*old(self), WriterEvent::Row(width), *final(self)),
    {
        let ghost start = *self;
        match self.phase {
            Phase::Awaiting { row } => {
                self.phase = Phase::Values { row, column: 0, width };
            },
            _ => {},
        }
        proof {
            assert forall|widths: Seq<usize>| #[trigger]
                self.remaining(widths) == start.remaining(seq![width] + widths) by {
                assert((seq![width] + widths).skip(1) =~= widths);
            }
        }
    }
}

/// The steps that are taken in some events.
pub open spec fn steps_taken(events: Seq<WriterEvent>) -> Seq<Action>
    decreases events.len(),
{
    if events.len() == 0 {
        Seq::empty()
    } else {
        match events[0] {
            WriterEvent::Step(action) => seq![action] + steps_taken(events.skip(1)),
            WriterEvent::Row(_) => steps_taken(events.skip(1)),
        }
    }
}

/// The numbers of values of the rows that are generated in some events.
pub open spec fn rows_generated(events: Seq<WriterEvent>) -> Seq<usize>
    decreases events.len(),
{
    if events.len() == 0 {
        Seq::empty()
    } else {
        match events[0] {
            WriterEvent::Step(_) => rows_generated(events.skip(1)),
            WriterEvent::Row(width) => seq![width] + rows_generated(events.skip(1)),
        }
    }
}

/// What was still to come is what happened and what is still to come now.
proof fn events_are_taken_from_remaining(
    points: Seq<DataFileWriter>,
    events: Seq<WriterEvent>,
    widths: Seq<usize>,
)
    requires
        points.len() == events.len() + 1,
        forall|i: int|
            0 <= i < events.len() ==> DataFileWriter::moves(
                points[i],
                #[trigger] events[i],
                points[i + 1],
            ),
    ensures
        points[0].remaining(rows_generated(events) + widths) == steps_taken(events)
            + points.last().remaining(widths),
    decreases events.len(),
{
    if events.len() == 0 {
        assert(rows_generated(events) + widths =~= widths);
        assert(steps_taken(events) + points.last().remaining(widths) =~= points.last().remaining(
            widths,
        ));
    } else {
        let rest = events.skip(1);
        let later = points.skip(1);
        assert forall|i: int| 0 <= i < rest.len() implies DataFileWriter::moves(
            later[i],
            #[trigger] rest[i],
            later[i + 1],
        ) by {
            assert(rest[i] == events[i + 1]);
        }
        events_are_taken_from_remaining(later, rest, widths);
        assert(DataFileWriter::moves(points[0], events[0], points[1]));
        let all = rows_generated(rest) + widths;
        let left = points[1].remaining(all);
        assert(left == steps_taken(rest) + points.last().remaining(widths));
        match events[0] {
            WriterEvent::Step(action) => {
                assert(rows_generated(events) + widths =~= all);
                assert(points[0].remaining(all) == seq![action] + left);
                assert(seq![action] + left =~= steps_taken(events) + points.last().remaining(
                    widths,
                ));
            },
            WriterEvent::Row(width) => {
                assert(rows_generated(events) + widths =~= seq![width] + all);
            },
        }
    }
}

/// Whoever takes steps of a file and stops anywhere has taken a beginning of the steps that write
/// the file, for the rows as they were generated and whatever rows would have followed.
pub proof fn steps_taken_begin_the_file(
    rows_count: u32,
    info: FileInfo,
    points: Seq<DataFileWriter>,
    events: Seq<WriterEvent>,
    widths: Seq<usize>,
)
    requires
        points.len() == events.len() + 1,
        forall|widths: Seq<usize>| #[trigger]
            points[0].remaining(widths) == file_actions(rows_count, info, widths),
        forall|i: int|
            0 <= i < events.len() ==> DataFileWriter::moves(
                points[i],
                #[trigger] events[i],
                points[i + 1],
            ),
    ensures
        file_actions(rows_count, info, rows_generated(events) + widths) == steps_taken(events)
            + points.last().remaining(widths),
        steps_taken(events) == file_actions(
            rows_count,
            info,
            rows_generated(events) + widths,
        ).take(steps_taken(events).len() as int),
{
    events_are_taken_from_remaining(points, events, widths);
    assert(points[0].remaining(rows_generated(events) + widths) == file_actions(
        rows_count,
        info,
        rows_generated(events) + widths,
    ));
    assert((steps_taken(events) + points.last().remaining(widths)).take(
        steps_taken(events).len() as int,
    ) =~= steps_taken(events));
}

/// Whoever takes the steps of a file until none is left takes exactly the steps that write the
/// file, in their order, for the rows as they were generated.
pub proof fn whole_file_is_written(
    rows_count: u32,
    info: FileInfo,
    points: Seq<DataFileWriter>,
    events: Seq<WriterEvent>,
)
    requires
        points.len() == events.len() + 1,
        forall|widths: Seq<usize>| #[trigger]
            points[0].remaining(widths) == file_actions(rows_count, info, widths),
        forall|i: int|
            0 <= i < events.len() ==> DataFileWriter::moves(
                points[i],
                #[trigger] events[i],
                points[i + 1],
            ),
        points.last().finished(),
    ensures
        steps_taken(events) == file_actions(rows_count, info, rows_generated(events)),
{
    let none = Seq::<usize>::empty();
    events_are_taken_from_remaining(points, events, none);
    assert(rows_generated(events) + none =~= rows_generated(events));
    assert(points.last().remaining(none) =~= Seq::<Action>::empty());
    assert(steps_taken(events) + points.last().remaining(none) =~= steps_taken(events));
}

/// The sum of the weights of some steps.
pub open spec fn tally(actions: Seq<Action>, weight: spec_fn(Action) -> int) -> int
    decreases actions.len(),
{
    if actions.len() == 0 {
        0
    } else {
        weight(actions[0]) + tally(actions.skip(1), weight)
    }
}

/// The number of rows that some steps generate.
pub open spec fn rows_evaluated(actions: Seq<Action>) -> int {
    tally(
        actions,
        |a: Action|
            if a == Action::EvaluateRow {
                1
            } else {
                0
            },
    )
}

/// The number of rows that some steps report.
pub open spec fn rows_committed(actions: Seq<Action>) -> int {
    tally(
        actions,
        |a: Action|
            match a {
                Action::Commit(rows) => rows as int,
                _ => 0,
            },
    )
}

/// The number of statements that some steps begin.
pub open spec fn statements_begun(actions: Seq<Action>) -> int {
    tally(
        actions,
        |a: Action|
            if a == Action::WriteHeader {
                1
            } else {
                0
            },
    )
}

/// The number of statements that some steps end.
pub open spec fn statements_ended(actions: Seq<Action>) -> int {
    tally(
        actions,
        |a: Action|
            if a == Action::WriteTrailer {
                1
            } else {
                0
            },
    )
}

/// The tally of steps that follow each other is the sum of their tallies.
proof fn tally_concat(a: Seq<Action>, b: Seq<Action>, weight: spec_fn(Action) -> int)
    ensures
        tally(a + b, weight) == tally(a, weight) + tally(b, weight),
    decreases a.len(),
{
    if a.len() == 0 {
        assert(a + b =~= b);
    } else {
        assert((a + b).skip(1) =~= a.skip(1) + b);
        tally_concat(a.skip(1), b, weight);
    }
}

/// The tally of a single step is its weight.
proof fn tally_single(a: Action, weight: spec_fn(Action) -> int)
    ensures
        tally(seq![a], weight) == weight(a),
{
    assert(seq![a].skip(1) =~= Seq::<Action>::empty());
    assert(tally(Seq::<Action>::empty(), weight) == 0);
}

/// Writing values adds nothing to a tally that gives no weight to them.
proof fn tally_values(from: int, width: usize, weight: spec_fn(Action) -> int)
    requires
        0 <= from,
        weight(Action::WriteValueSeparator) == 0,
        forall|i: usize| #[trigger] weight(Action::WriteValue(i)) == 0,
    ensures
        tally(value_actions(from, width), weight) == 0,
    decreases width - from,
{
    if from < width {
        let value = seq![Action::WriteValue(from as usize)];
        let rest = value_actions(from + 1, width);
        tally_values(from + 1, width, weight);
        tally_single(Action::WriteValue(from as usize), weight);
        tally_concat(value, rest, weight);
        tally_single(Action::WriteValueSeparator, weight);
        tally_concat(seq![Action::WriteValueSeparator], value + rest, weight);
    }
}

/// The tally of a file from a row on, for a weight that ignores separators and values.
spec fn expected_tally(
    rows_count: u32,
    info: FileInfo,
    insert: int,
    weight: spec_fn(Action) -> int,
) -> int
    decreases info.inserts_count - insert,
{
    if insert >= info.inserts_count {
        0
    } else {
        let rows = insert_rows(rows_count, info, insert);
        weight(Action::WriteHeader) + rows * weight(Action::EvaluateRow) + weight(
            Action::WriteTrailer,
        ) + weight(Action::Commit(rows)) + expected_tally(rows_count, info, insert + 1, weight)
    }
}

proof fn tally_rows(
    rows_count: u32,
    info: FileInfo,
    insert: int,
    row: int,
    widths: Seq<usize>,
    weight: spec_fn(Action) -> int,
)
    requires
        0 <= insert < info.inserts_count,
        0 <= row <= insert_rows(rows_count, info, insert),
        weight(Action::WriteRowSeparator) == 0,
        weight(Action::WriteValueSeparator) == 0,
        forall|i: usize| #[trigger] weight(Action::WriteValue(i)) == 0,
    ensures
        tally(row_actions(rows_count, info, insert, row, widths), weight) == (insert_rows(
            rows_count,
            info,
            insert,
        ) - row) * weight(Action::EvaluateRow) + weight(Action::WriteTrailer) + weight(
            Action::Commit(insert_rows(rows_count, info, insert)),
        ) + expected_tally(rows_count, info, insert + 1, weight),
    decreases info.inserts_count - insert, 1nat, insert_rows(rows_count, info, insert) - row,
{
    let rows = insert_rows(rows_count, info, insert);
    if row >= rows {
        let rest = insert_actions(rows_count, info, insert + 1, widths);
        tally_inserts(rows_count, info, insert + 1, widths, weight);
        let end = seq![Action::WriteTrailer, Action::Commit(rows)];
        tally_concat(end, rest, weight);
        tally_concat(seq![Action::WriteTrailer], seq![Action::Commit(rows)], weight);
        assert(end =~= seq![Action::WriteTrailer] + seq![Action::Commit(rows)]);
        tally_single(Action::WriteTrailer, weight);
        tally_single(Action::Commit(rows), weight);
        assert((rows - row) * weight(Action::EvaluateRow) == 0) by (nonlinear_arith)
            requires
                rows == row,
        ;
    } else {
        let separator = seq![Action::WriteRowSeparator];
        let evaluate = seq![Action::EvaluateRow];
        let values = value_actions(0, widths[0]);
        let rest = row_actions(rows_count, info, insert, row + 1, widths.skip(1));
        tally_rows(rows_count, info, insert, row + 1, widths.skip(1), weight);
        tally_values(0, widths[0], weight);
        tally_single(Action::EvaluateRow, weight);
        tally_single(Action::WriteRowSeparator, weight);
        tally_concat(evaluate, values, weight);
        tally_concat(separator, evaluate + values, weight);
        tally_concat(evaluate + values, rest, weight);
        tally_concat(separator + (evaluate + values), rest, weight);
        let e = weight(Action::EvaluateRow);
        assert((rows - row) * e == (rows - (row + 1)) * e + e) by (nonlinear_arith);
    }
}

proof fn tally_inserts(
    rows_count: u32,
    info: FileInfo,
    insert: int,
    widths: Seq<usize>,
    weight: spec_fn(Action) -> int,
)
    requires
        0 <= insert,
        weight(Action::WriteRowSeparator) == 0,
        weight(Action::WriteValueSeparator) == 0,
        forall|i: usize| #[trigger] weight(Action::WriteValue(i)) == 0,
    ensures
        tally(insert_actions(rows_count, info, insert, widths), weight) == expected_tally(
            rows_count,
            info,
            insert,
            weight,
        ),
    decreases info.inserts_count - insert, 2nat, 0int,
{
    if insert < info.inserts_count {
        tally_rows(rows_count, info, insert, 0, widths, weight);
        tally_single(Action::WriteHeader, weight);
        tally_concat(
            seq![Action::WriteHeader],
            row_actions(rows_count, info, insert, 0, widths),
            weight,
        );
    }
}

/// The tally of the rest of a file, where a statement weighs `base` and each of its rows `each`.
proof fn expected_tally_closed(
    rows_count: u32,
    info: FileInfo,
    insert: int,
    weight: spec_fn(Action) -> int,
    base: int,
    each: int,
)
    requires
        0 <= insert <= info.inserts_count,
        forall|rows: u32|
            weight(Action::WriteHeader) + rows * weight(Action::EvaluateRow) + weight(
                Action::WriteTrailer,
            ) + #[trigger] weight(Action::Commit(rows)) == base + rows * each,
    ensures
        expected_tally(rows_count, info, insert, weight) == (info.inserts_count - insert) * base
            + (if insert == info.inserts_count {
            0
        } else {
            ((info.inserts_count - 1 - insert) * rows_count + info.last_insert_rows_count) * each
        }),
    decreases info.inserts_count - insert,
{
    let n = info.inserts_count as int;
    if insert < n {
        expected_tally_closed(rows_count, info, insert + 1, weight, base, each);
        let rows = insert_rows(rows_count, info, insert);
        assert(weight(Action::Commit(rows)) == weight(Action::Commit(rows)));
        let last = info.last_insert_rows_count as int;
        let k = rows_count as int;
        if insert == n - 1 {
            assert((n - insert) * base == base) by (nonlinear_arith)
                requires
                    insert == n - 1,
            ;
            assert((n - (insert + 1)) * base == 0) by (nonlinear_arith)
                requires
                    insert == n - 1,
            ;
            assert((n - 1 - insert) * k == 0) by (nonlinear_arith)
                requires
                    insert == n - 1,
            ;
        } else {
            assert((n - insert) * base == base + (n - (insert + 1)) * base) by (nonlinear_arith);
            assert(((n - 1 - insert) * k + last) * each == k * each + ((n - 1 - (insert + 1)) * k
                + last) * each) by (nonlinear_arith);
        }
    } else {
        assert((n - insert) * base == 0) by (nonlinear_arith)
            requires
                insert == n,
        ;
    }
}

/// Writing a file generates exactly the rows of the file, reports each of them once, and begins
/// and ends each of its statements once, whatever the rows hold.
pub proof fn file_is_complete(rows_count: u32, info: FileInfo, widths: Seq<usize>)
    ensures
        rows_evaluated(file_actions(rows_count, info, widths)) == file_rows(rows_count, info),
        rows_committed(file_actions(rows_count, info, widths)) == file_rows(rows_count, info),
        statements_begun(file_actions(rows_count, info, widths)) == info.inserts_count,
        statements_ended(file_actions(rows_count, info, widths)) == info.inserts_count,
{
    let evaluated = |a: Action|
        if a == Action::EvaluateRow {
            1int
        } else {
            0
        };
    let committed = |a: Action|
        match a {
            Action::Commit(rows) => rows as int,
            _ => 0,
        };
    let begun = |a: Action|
        if a == Action::WriteHeader {
            1int
        } else {
            0
        };
    let ended = |a: Action|
        if a == Action::WriteTrailer {
            1int
        } else {
            0
        };
    tally_inserts(rows_count, info, 0, widths, evaluated);
    tally_inserts(rows_count, info, 0, widths, committed);
    tally_inserts(rows_count, info, 0, widths, begun);
    tally_inserts(rows_count, info, 0, widths, ended);
    expected_tally_closed(rows_count, info, 0, evaluated, 0, 1);
    expected_tally_closed(rows_count, info, 0, committed, 0, 1);
    expected_tally_closed(rows_count, info, 0, begun, 1, 0);
    expected_tally_closed(rows_count, info, 0, ended, 1, 0);
}

proof fn rows_end_committed(
    rows_count: u32,
    info: FileInfo,
    insert: int,
    row: int,
    widths: Seq<usize>,
)
    requires
        0 <= insert < info.inserts_count,
    ensures
        row_actions(rows_count, info, insert, row, widths).len() > 0,
        row_actions(rows_count, info, insert, row, widths).last() is Commit,
    decreases info.inserts_count - insert, insert_rows(rows_count, info, insert) - row,
{
    if row >= insert_rows(rows_count, info, insert) {
        let rest = insert_actions(rows_count, info, insert + 1, widths);
        if insert + 1 < info.inserts_count {
            let later = row_actions(rows_count, info, insert + 1, 0, widths);
            rows_end_committed(rows_count, info, insert + 1, 0, widths);
            assert(rest.last() == later.last());
        } else {
            assert(rest =~= Seq::<Action>::empty());
        }
    } else {
        let rest = row_actions(rows_count, info, insert, row + 1, widths.skip(1));
        rows_end_committed(rows_count, info, insert, row + 1, widths.skip(1));
        assert(row_actions(rows_count, info, insert, row, widths).last() == rest.last());
    }
}

/// The last step of writing a file reports what was written, so that nothing is left unreported.
pub proof fn file_ends_committed(rows_count: u32, info: FileInfo, widths: Seq<usize>)
    requires
        info.inserts_count != 0,
    ensures
        file_actions(rows_count, info, widths).len() > 0,
        file_actions(rows_count, info, widths).last() is Commit,
{
    rows_end_committed(rows_count, info, 0, 0, widths);
}

/// The steps that write the rows of a statement from row `row` on, where `widths` are the numbers of
/// values of the rows to come.
pub open spec fn statement_rows(rows: int, row: int, widths: Seq<usize>) -> Seq<Action>
    decreases rows - row,
{
    if row >= rows {
        Seq::empty()
    } else {
        let values = seq![Action::EvaluateRow] + value_actions(0, widths[0]);
        let rest = statement_rows(rows, row + 1, widths.skip(1));
        if row == 0 {
            values + rest
        } else {
            seq![Action::WriteRowSeparator] + values + rest
        }
    }
}

/// The steps that write a statement of `rows` rows, up to its report.
pub open spec fn statement_writes(rows: u32, widths: Seq<usize>) -> Seq<Action> {
    seq![Action::WriteHeader] + statement_rows(rows as int, 0, widths) + seq![Action::WriteTrailer]
}

/// What is left of `widths` behind the first `n` rows.
pub open spec fn widths_behind(widths: Seq<usize>, n: int) -> Seq<usize>
    decreases n,
{
    if n <= 0 {
        widths
    } else {
        widths_behind(widths.skip(1), n - 1)
    }
}

/// The steps that write and report the statements from position `insert` on and before position
/// `end`, where `widths` are the numbers of values of the rows to come.
pub open spec fn actions_between(
    rows_count: u32,
    info: FileInfo,
    insert: int,
    end: int,
    widths: Seq<usize>,
) -> Seq<Action>
    decreases end - insert,
{
    if insert >= end {
        Seq::empty()
    } else {
        let rows = insert_rows(rows_count, info, insert);
        statement_writes(rows, widths) + seq![Action::Commit(rows)] + actions_between(
            rows_count,
            info,
            insert + 1,
            end,
            widths_behind(widths, rows as int),
        )
    }
}

/// What is left of `widths` behind the statements from position `insert` on and before position
/// `end`.
pub open spec fn widths_after(
    rows_count: u32,
    info: FileInfo,
    insert: int,
    end: int,
    widths: Seq<usize>,
) -> Seq<usize>
    decreases end - insert,
{
    if insert >= end {
        widths
    } else {
        widths_after(
            rows_count,
            info,
            insert + 1,
            end,
            widths_behind(widths, insert_rows(rows_count, info, insert) as int),
        )
    }
}

/// None of the steps is a report.
pub open spec fn reports_nothing(actions: Seq<Action>) -> bool {
    forall|i: int| 0 <= i < actions.len() ==> !(#[trigger] actions[i] is Commit)
}

/// The steps from a row on are those of the rest of its statement and those of what follows.
proof fn rows_divide(rows_count: u32, info: FileInfo, insert: int, row: int, widths: Seq<usize>)
    requires
        0 <= insert < info.inserts_count,
        0 <= row <= insert_rows(rows_count, info, insert),
    ensures
        row_actions(rows_count, info, insert, row, widths) == statement_rows(
            insert_rows(rows_count, info, insert) as int,
            row,
            widths,
        ) + seq![
            Action::WriteTrailer,
            Action::Commit(insert_rows(rows_count, info, insert)),
        ] + insert_actions(
            rows_count,
            info,
            insert + 1,
            widths_behind(widths, insert_rows(rows_count, info, insert) - row),
        ),
    decreases insert_rows(rows_count, info, insert) - row,
{
    let rows = insert_rows(rows_count, info, insert);
    let end = seq![Action::WriteTrailer, Action::Commit(rows)];
    let all = row_actions(rows_count, info, insert, row, widths);
    let next = insert_actions(rows_count, info, insert + 1, widths_behind(widths, rows - row));
    if row < rows {
        rows_divide(rows_count, info, insert, row + 1, widths.skip(1));
        let rest = statement_rows(rows as int, row + 1, widths.skip(1));
        assert(row_actions(rows_count, info, insert, row + 1, widths.skip(1)) == rest + end + next);
    }
    assert(all =~= statement_rows(rows as int, row, widths) + end + next);
}

/// The steps from a statement on are those of the statements before position `end` and those from
/// there on.
proof fn inserts_divide(rows_count: u32, info: FileInfo, insert: int, end: int, widths: Seq<usize>)
    requires
        0 <= insert <= end <= info.inserts_count,
    ensures
        insert_actions(rows_count, info, insert, widths) == actions_between(
            rows_count,
            info,
            insert,
            end,
            widths,
        ) + insert_actions(
            rows_count,
            info,
            end,
            widths_after(rows_count, info, insert, end, widths),
        ),
    decreases end - insert,
{
    let before = actions_between(rows_count, info, insert, end, widths);
    let left = widths_after(rows_count, info, insert, end, widths);
    let next = insert_actions(rows_count, info, end, left);
    if insert < end {
        let rows = insert_rows(rows_count, info, insert);
        let later = widths_behind(widths, rows as int);
        rows_divide(rows_count, info, insert, 0, widths);
        inserts_divide(rows_count, info, insert + 1, end, later);
        assert(insert_actions(rows_count, info, insert, widths) =~= statement_writes(rows, widths)
            + seq![Action::Commit(rows)] + insert_actions(rows_count, info, insert + 1, later));
    }
    assert(insert_actions(rows_count, info, insert, widths) =~= before + next);
}

/// Writing values reports nothing.
proof fn values_report_nothing(from: int, width: usize)
    ensures
        reports_nothing(value_actions(from, width)),
    decreases width - from,
{
    if from < width {
        values_report_nothing(from + 1, width);
    }
}

/// Writing rows reports nothing.
proof fn rows_report_nothing(rows: int, row: int, widths: Seq<usize>)
    ensures
        reports_nothing(statement_rows(rows, row, widths)),
    decreases rows - row,
{
    if row < rows {
        values_report_nothing(0, widths[0]);
        rows_report_nothing(rows, row + 1, widths.skip(1));
    }
}

/// Steps that report nothing report no rows.
proof fn no_report_no_rows(actions: Seq<Action>)
    requires
        reports_nothing(actions),
    ensures
        rows_committed(actions) == 0,
    decreases actions.len(),
{
    if actions.len() > 0 {
        let rest = actions.skip(1);
        assert(!(actions[0] is Commit));
        assert forall|i: int| 0 <= i < rest.len() implies !(#[trigger] rest[i] is Commit) by {
            assert(rest[i] == actions[i + 1]);
        }
        no_report_no_rows(rest);
    }
}

/// The rows that steps report one after the other add up.
proof fn committed_concat(a: Seq<Action>, b: Seq<Action>)
    ensures
        rows_committed(a + b) == rows_committed(a) + rows_committed(b),
{
    let committed = |a: Action|
        match a {
            Action::Commit(rows) => rows as int,
            _ => 0,
        };
    tally_concat(a, b, committed);
}

/// Whole statements that are not the last of a file report the same number of rows each.
proof fn whole_statements_are_reported(
    rows_count: u32,
    info: FileInfo,
    insert: int,
    end: int,
    widths: Seq<usize>,
)
    requires
        0 <= insert <= end < info.inserts_count,
    ensures
        rows_committed(actions_between(rows_count, info, insert, end, widths)) == (end - insert)
            * rows_count,
    decreases end - insert,
{
    if insert < end {
        let later = widths_behind(widths, rows_count as int);
        let writes = statement_writes(rows_count, widths);
        let report = seq![Action::Commit(rows_count)];
        let rest = actions_between(rows_count, info, insert + 1, end, later);
        whole_statements_are_reported(rows_count, info, insert + 1, end, later);
        rows_report_nothing(rows_count as int, 0, widths);
        no_report_no_rows(writes);
        committed_concat(writes, report);
        committed_concat(writes + report, rest);
        assert(rows_committed(report) == rows_count) by {
            let none = Seq::<Action>::empty();
            no_report_no_rows(none);
            assert(report.skip(1) =~= none);
        }
        let n = end - insert;
        assert(n * rows_count == rows_count + (n - 1) * rows_count) by (nonlinear_arith);
    } else {
        no_report_no_rows(actions_between(rows_count, info, insert, end, widths));
        assert((end - insert) * rows_count == 0) by (nonlinear_arith)
            requires
                end == insert,
        ;
    }
}

/// The steps of a file fall into those of the statements before position `j`, which report exactly
/// the rows of `j` full statements, those that write the statement at position `j`, which report
/// nothing, the report of that statement, and those of the statements behind it.
pub proof fn file_divides_at_statement(rows_count: u32, info: FileInfo, j: int, widths: Seq<usize>)
    requires
        0 <= j < info.inserts_count,
    ensures
        ({
            let rows = insert_rows(rows_count, info, j);
            let before = actions_between(rows_count, info, 0, j, widths);
            let left = widths_after(rows_count, info, 0, j, widths);
            let writes = statement_writes(rows, left);
            &&& file_actions(rows_count, info, widths) == before + writes + seq![
                Action::Commit(rows),
            ] + insert_actions(rows_count, info, j + 1, widths_behind(left, rows as int))
            &&& rows_committed(before) == j * rows_count
            &&& reports_nothing(writes)
        }),
{
    let rows = insert_rows(rows_count, info, j);
    let before = actions_between(rows_count, info, 0, j, widths);
    let left = widths_after(rows_count, info, 0, j, widths);
    let writes = statement_writes(rows, left);
    let rest = insert_actions(rows_count, info, j + 1, widths_behind(left, rows as int));
    inserts_divide(rows_count, info, 0, j, widths);
    rows_divide(rows_count, info, j, 0, left);
    whole_statements_are_reported(rows_count, info, 0, j, widths);
    rows_report_nothing(rows as int, 0, left);
    assert(file_actions(rows_count, info, widths) =~= before + writes + seq![Action::Commit(rows)]
        + rest);
}

/// A file that is given up while the statement at position `j` is being written, from in front of
/// its header to behind its trailer, has reported the rows of `j` full statements and nothing more.
/// Here `n` is the number of steps taken.
pub proof fn interrupted_file_reports_whole_statements(
    rows_count: u32,
    info: FileInfo,
    j: int,
    widths: Seq<usize>,
    n: int,
)
    requires
        0 <= j < info.inserts_count,
        actions_between(rows_count, info, 0, j, widths).len() <= n <= actions_between(
            rows_count,
            info,
            0,
            j,
            widths,
        ).len() + statement_writes(
            insert_rows(rows_count, info, j),
            widths_after(rows_count, info, 0, j, widths),
        ).len(),
    ensures
        rows_committed(file_actions(rows_count, info, widths).take(n)) == j * rows_count,
{
    let before = actions_between(rows_count, info, 0, j, widths);
    let left = widths_after(rows_count, info, 0, j, widths);
    let writes = statement_writes(insert_rows(rows_count, info, j), left);
    file_divides_at_statement(rows_count, info, j, widths);
    let begun = writes.take(n - before.len());
    assert(file_actions(rows_count, info, widths).take(n) =~= before + begun);
    assert forall|i: int| 0 <= i < begun.len() implies !(#[trigger] begun[i] is Commit) by {
        assert(begun[i] == writes[i]);
    }
    no_report_no_rows(begun);
    committed_concat(before, begun);
}

/// The steps that may come directly behind a step: a header is followed by a row or the trailer, a
/// row by its first value, a value by a separator, and what has ended by what separates it from the
/// next of its kind or by what ends the whole.
pub open spec fn follows(a: Action, b: Action) -> bool {
    match a {
        Action::WriteHeader => b == Action::EvaluateRow || b == Action::WriteTrailer,
        Action::EvaluateRow => b == Action::WriteValue(0) || b == Action::WriteRowSeparator || b
            == Action::WriteTrailer,
        Action::WriteValue(_) => b == Action::WriteValueSeparator || b == Action::WriteRowSeparator
            || b == Action::WriteTrailer,
        Action::WriteValueSeparator => b is WriteValue,
        Action::WriteRowSeparator => b == Action::EvaluateRow,
        Action::WriteTrailer => b is Commit,
        Action::Commit(_) => b == Action::WriteHeader,
        Action::Finished => false,
    }
}

/// Each step may come directly behind the one before it.
pub open spec fn in_order(s: Seq<Action>) -> bool {
    forall|k: int| 0 <= k < s.len() - 1 ==> follows(#[trigger] s[k], s[k + 1])
}

/// The number of steps that write the values of a row: one for each value, and one between each two.
pub open spec fn values_len(width: usize) -> int {
    if width == 0 {
        0
    } else {
        2 * width - 1
    }
}

/// Behind position `k`, a row of `width` values is written: each value once and in order, with a
/// single separator between each two, and then what separates the row from the next or ends the
/// statement.
pub open spec fn row_stands_behind(s: Seq<Action>, k: int, width: usize) -> bool {
    let next = k + 1 + values_len(width);
    &&& 0 <= k && next < s.len()
    &&& forall|c: int|
        #![trigger s[k + 1 + 2 * c]]
        0 <= c < width ==> s[k + 1 + 2 * c] == Action::WriteValue(c as usize)
    &&& forall|c: int|
        #![trigger s[k + 2 + 2 * c]]
        0 <= c < width - 1 ==> s[k + 2 + 2 * c] == Action::WriteValueSeparator
    &&& s[next] == Action::WriteRowSeparator || s[next] == Action::WriteTrailer
}

/// Behind each step that generates a row, that row is written, where `widths` are the numbers of
/// values of the rows.
pub open spec fn rows_stand(s: Seq<Action>, widths: Seq<usize>) -> bool {
    forall|k: int|
        0 <= k < s.len() && #[trigger] s[k] == Action::EvaluateRow && rows_evaluated(s.take(k))
            < widths.len() ==> row_stands_behind(s, k, widths[rows_evaluated(s.take(k))])
}

/// Each report is on the rows generated since the report before, and these are as many as the
/// statement is to have, where `rows` rows and `statements` statements were begun before.
pub open spec fn reports_stand(
    s: Seq<Action>,
    rows_count: u32,
    info: FileInfo,
    rows: int,
    statements: int,
) -> bool {
    forall|k: int|
        0 <= k < s.len() ==> (#[trigger] s[k] matches Action::Commit(n) ==> {
            &&& rows + rows_evaluated(s.take(k)) == rows_committed(s.take(k + 1))
            &&& n == if statements + statements_begun(s.take(k)) == info.inserts_count {
                info.last_insert_rows_count
            } else {
                rows_count
            }
        })
}

/// The steps that write the values of a row from a later position on.
proof fn later_values_alternate(from: int, width: usize)
    requires
        0 < from <= width,
    ensures
        value_actions(from, width).len() == 2 * (width - from),
        forall|c: int|
            #![trigger value_actions(from, width)[2 * c]]
            0 <= c < width - from ==> value_actions(from, width)[2 * c]
                == Action::WriteValueSeparator,
        forall|c: int|
            #![trigger value_actions(from, width)[2 * c + 1]]
            0 <= c < width - from ==> value_actions(from, width)[2 * c + 1] == Action::WriteValue(
                (from + c) as usize,
            ),
    decreases width - from,
{
    let s = value_actions(from, width);
    if from < width {
        let rest = value_actions(from + 1, width);
        later_values_alternate(from + 1, width);
        assert(s =~= seq![Action::WriteValueSeparator, Action::WriteValue(from as usize)] + rest);
        assert forall|c: int|
            #![trigger s[2 * c]]
            0 <= c < width - from implies s[2 * c] == Action::WriteValueSeparator by {
            if c > 0 {
                assert(s[2 * c] == rest[2 * (c - 1)]);
            }
        }
        assert forall|c: int|
            #![trigger s[2 * c + 1]]
            0 <= c < width - from implies s[2 * c + 1] == Action::WriteValue(
            (from + c) as usize,
        ) by {
            if c > 0 {
                assert(s[2 * c + 1] == rest[2 * (c - 1) + 1]);
            }
        }
    }
}

/// The steps that write a row of any number of values write each value once and in order, with
/// exactly one separator between each two that follow each other and none anywhere else.
pub proof fn values_alternate_with_separators(width: usize)
    ensures
        width == 0 ==> value_actions(0, width).len() == 0,
        width > 0 ==> value_actions(0, width).len() == 2 * width - 1,
        forall|c: int|
            #![trigger value_actions(0, width)[2 * c]]
            0 <= c < width ==> value_actions(0, width)[2 * c] == Action::WriteValue(c as usize),
        forall|c: int|
            #![trigger value_actions(0, width)[2 * c + 1]]
            0 <= c < width - 1 ==> value_actions(0, width)[2 * c + 1]
                == Action::WriteValueSeparator,
{
    if width > 0 {
        let s = value_actions(0, width);
        let rest = value_actions(1, width);
        later_values_alternate(1, width);
        assert(s =~= seq![Action::WriteValue(0)] + rest);
        assert forall|c: int|
            #![trigger s[2 * c]]
            0 <= c < width implies s[2 * c] == Action::WriteValue(c as usize) by {
            if c > 0 {
                assert(s[2 * c] == rest[2 * (c - 1) + 1]);
            }
        }
        assert forall|c: int|
            #![trigger s[2 * c + 1]]
            0 <= c < width - 1 implies s[2 * c + 1] == Action::WriteValueSeparator by {
            assert(s[2 * c + 1] == rest[2 * c]);
        }
    }
}

/// All steps write values or what separates them.
spec fn only_values(s: Seq<Action>) -> bool {
    forall|k: int|
        0 <= k < s.len() ==> #[trigger] s[k] is WriteValue || s[k] == Action::WriteValueSeparator
}

/// The steps that write the values of a row are in order, and write nothing but values.
proof fn values_in_order(width: usize)
    ensures
        only_values(value_actions(0, width)),
        in_order(value_actions(0, width)),
        width > 0 ==> value_actions(0, width)[0] == Action::WriteValue(0)
            && value_actions(0, width).last() is WriteValue,
{
    values_alternate_with_separators(width);
    let s = value_actions(0, width);
    assert forall|k: int| 0 <= k < s.len() implies (if k % 2 == 0 {
        #[trigger] s[k] is WriteValue
    } else {
        s[k] == Action::WriteValueSeparator
    }) by {
        let c = k / 2;
        if k % 2 == 0 {
            assert(s[2 * c] is WriteValue);
        } else {
            assert(s[2 * c + 1] == Action::WriteValueSeparator);
        }
    }
    assert forall|k: int| 0 <= k < s.len() - 1 implies follows(#[trigger] s[k], s[k + 1]) by {
        assert(s[k + 1] is WriteValue || s[k + 1] == Action::WriteValueSeparator);
        assert((k + 1) % 2 != k % 2);
    }
    if width > 0 {
        assert(s[2 * 0int] == Action::WriteValue(0));
        assert(s[2 * (width - 1)] is WriteValue);
    }
}

/// What a first step adds to the tallies.
proof fn tallies_with_first(x: Action, s: Seq<Action>)
    ensures
        rows_evaluated(seq![x] + s) == rows_evaluated(s) + (if x == Action::EvaluateRow {
            1int
        } else {
            0
        }),
        statements_begun(seq![x] + s) == statements_begun(s) + (if x == Action::WriteHeader {
            1int
        } else {
            0
        }),
        rows_committed(seq![x] + s) == rows_committed(s) + (match x {
            Action::Commit(rows) => rows as int,
            _ => 0,
        }),
{
    assert((seq![x] + s).skip(1) =~= s);
}

/// The tallies of no steps.
proof fn tallies_of_none(s: Seq<Action>)
    requires
        s.len() == 0,
    ensures
        rows_evaluated(s) == 0,
        statements_begun(s) == 0,
        rows_committed(s) == 0,
{
}

/// A first step in front of steps in order.
proof fn first_in_order(x: Action, s: Seq<Action>)
    requires
        in_order(s),
        s.len() > 0 ==> follows(x, s[0]),
    ensures
        in_order(seq![x] + s),
{
    let t = seq![x] + s;
    assert forall|k: int| 0 <= k < t.len() - 1 implies follows(#[trigger] t[k], t[k + 1]) by {
        if k > 0 {
            assert(t[k] == s[k - 1] && t[k + 1] == s[k]);
        }
    }
}

/// A first step that generates no row.
proof fn first_keeps_rows(x: Action, s: Seq<Action>, widths: Seq<usize>)
    requires
        rows_stand(s, widths),
        x != Action::EvaluateRow,
    ensures
        rows_stand(seq![x] + s, widths),
{
    let t = seq![x] + s;
    assert forall|k: int|
        0 <= k < t.len() && #[trigger] t[k] == Action::EvaluateRow && rows_evaluated(t.take(k))
            < widths.len() implies row_stands_behind(
        t,
        k,
        widths[rows_evaluated(t.take(k))],
    ) by {
        assert(t.take(k) =~= seq![x] + s.take(k - 1));
        tallies_with_first(x, s.take(k - 1));
        assert(s[k - 1] == Action::EvaluateRow);
        let width = widths[rows_evaluated(t.take(k))];
        assert(row_stands_behind(s, k - 1, width));
        shifted_row(seq![x], s, k - 1, width);
    }
}

/// A row that stands in steps stands in them behind other steps, too.
proof fn shifted_row(a: Seq<Action>, s: Seq<Action>, k: int, width: usize)
    requires
        row_stands_behind(s, k, width),
    ensures
        row_stands_behind(a + s, a.len() + k, width),
{
    let t = a + s;
    let at = a.len() + k;
    assert forall|c: int|
        #![trigger t[at + 1 + 2 * c]]
        0 <= c < width implies t[at + 1 + 2 * c] == Action::WriteValue(c as usize) by {
        assert(t[at + 1 + 2 * c] == s[k + 1 + 2 * c]);
    }
    assert forall|c: int|
        #![trigger t[at + 2 + 2 * c]]
        0 <= c < width - 1 implies t[at + 2 + 2 * c] == Action::WriteValueSeparator by {
        assert(t[at + 2 + 2 * c] == s[k + 2 + 2 * c]);
    }
}

/// A first step and the reports behind it.
proof fn first_keeps_reports(
    x: Action,
    s: Seq<Action>,
    rows_count: u32,
    info: FileInfo,
    rows: int,
    statements: int,
)
    requires
        match x {
            Action::EvaluateRow => reports_stand(s, rows_count, info, rows + 1, statements),
            Action::WriteHeader => reports_stand(s, rows_count, info, rows, statements + 1),
            Action::Commit(n) => {
                &&& rows == n
                &&& n == if statements == info.inserts_count {
                    info.last_insert_rows_count
                } else {
                    rows_count
                }
                &&& reports_stand(s, rows_count, info, 0, statements)
            },
            _ => reports_stand(s, rows_count, info, rows, statements),
        },
    ensures
        reports_stand(seq![x] + s, rows_count, info, rows, statements),
{
    let t = seq![x] + s;
    assert forall|k: int| 0 <= k < t.len() implies (#[trigger] t[k] matches Action::Commit(n) ==> {
        &&& rows + rows_evaluated(t.take(k)) == rows_committed(t.take(k + 1))
        &&& n == if statements + statements_begun(t.take(k)) == info.inserts_count {
            info.last_insert_rows_count
        } else {
            rows_count
        }
    }) by {
        if k == 0 {
            tallies_of_none(t.take(0));
            tallies_of_none(s.take(0));
            tallies_with_first(x, s.take(0));
            assert(t.take(1) =~= seq![x] + s.take(0));
        } else {
            assert(t[k] == s[k - 1]);
            assert(t.take(k) =~= seq![x] + s.take(k - 1));
            assert(t.take(k + 1) =~= seq![x] + s.take(k));
            tallies_with_first(x, s.take(k - 1));
            tallies_with_first(x, s.take(k));
        }
    }
}

/// Values in front of other steps.
proof fn values_keep_reports(
    values: Seq<Action>,
    s: Seq<Action>,
    rows_count: u32,
    info: FileInfo,
    rows: int,
    statements: int,
)
    requires
        only_values(values),
        reports_stand(s, rows_count, info, rows, statements),
    ensures
        reports_stand(values + s, rows_count, info, rows, statements),
    decreases values.len(),
{
    if values.len() == 0 {
        assert(values + s =~= s);
    } else {
        let x = values[0];
        let rest = values.skip(1);
        assert forall|k: int| 0 <= k < rest.len() implies #[trigger] rest[k] is WriteValue
            || rest[k] == Action::WriteValueSeparator by {
            assert(rest[k] == values[k + 1]);
        }
        values_keep_reports(rest, s, rows_count, info, rows, statements);
        assert(x is WriteValue || x == Action::WriteValueSeparator);
        first_keeps_reports(x, rest + s, rows_count, info, rows, statements);
        assert(values + s =~= seq![x] + (rest + s));
    }
}

/// Values in front of other steps.
proof fn values_keep_rows(values: Seq<Action>, s: Seq<Action>, widths: Seq<usize>)
    requires
        only_values(values),
        rows_stand(s, widths),
    ensures
        rows_stand(values + s, widths),
    decreases values.len(),
{
    if values.len() == 0 {
        assert(values + s =~= s);
    } else {
        let x = values[0];
        let rest = values.skip(1);
        assert forall|k: int| 0 <= k < rest.len() implies #[trigger] rest[k] is WriteValue
            || rest[k] == Action::WriteValueSeparator by {
            assert(rest[k] == values[k + 1]);
        }
        values_keep_rows(rest, s, widths);
        assert(x is WriteValue || x == Action::WriteValueSeparator);
        first_keeps_rows(x, rest + s, widths);
        assert(values + s =~= seq![x] + (rest + s));
    }
}

/// A row in front of other rows.
proof fn row_keeps_rows(s: Seq<Action>, widths: Seq<usize>)
    requires
        widths.len() > 0 ==> rows_stand(s, widths.skip(1)),
        s.len() > 0,
        s[0] == Action::WriteRowSeparator || s[0] == Action::WriteTrailer,
    ensures
        rows_stand(seq![Action::EvaluateRow] + value_actions(0, widths[0]) + s, widths),
{
    let width = widths[0];
    let values = value_actions(0, width);
    let t = seq![Action::EvaluateRow] + values + s;
    let rest = values + s;
    assert(t =~= seq![Action::EvaluateRow] + rest);
    values_alternate_with_separators(width);
    values_in_order(width);
    if widths.len() > 0 {
        values_keep_rows(values, s, widths.skip(1));
    }
    assert forall|k: int|
        0 <= k < t.len() && #[trigger] t[k] == Action::EvaluateRow && rows_evaluated(t.take(k))
            < widths.len() implies row_stands_behind(
        t,
        k,
        widths[rows_evaluated(t.take(k))],
    ) by {
        if k == 0 {
            tallies_of_none(t.take(0));
            assert forall|c: int|
                #![trigger t[0 + 1 + 2 * c]]
                0 <= c < width implies t[0 + 1 + 2 * c] == Action::WriteValue(c as usize) by {
                assert(t[1 + 2 * c] == values[2 * c]);
            }
            assert forall|c: int|
                #![trigger t[0 + 2 + 2 * c]]
                0 <= c < width - 1 implies t[0 + 2 + 2 * c] == Action::WriteValueSeparator by {
                assert(t[2 + 2 * c] == values[2 * c + 1]);
            }
            assert(t[1 + values_len(width)] == s[0]);
        } else {
            assert(t.take(k) =~= seq![Action::EvaluateRow] + rest.take(k - 1));
            tallies_with_first(Action::EvaluateRow, rest.take(k - 1));
            assert(rest[k - 1] == Action::EvaluateRow);
            tallies_not_negative(rest.take(k - 1));
            let e = rows_evaluated(rest.take(k - 1));
            assert(widths.skip(1)[e] == widths[e + 1]);
            shifted_row(seq![Action::EvaluateRow], rest, k - 1, widths[e + 1]);
        }
    }
}

/// Some steps generate no less than no rows.
proof fn tallies_not_negative(s: Seq<Action>)
    ensures
        rows_evaluated(s) >= 0,
    decreases s.len(),
{
    if s.len() > 0 {
        tallies_not_negative(s.skip(1));
        assert(s =~= seq![s[0]] + s.skip(1));
        tallies_with_first(s[0], s.skip(1));
    }
}

/// A row in front of other steps in order.
proof fn row_in_order(s: Seq<Action>, width: usize)
    requires
        in_order(s),
        s.len() > 0,
        s[0] == Action::WriteRowSeparator || s[0] == Action::WriteTrailer,
    ensures
        in_order(seq![Action::EvaluateRow] + value_actions(0, width) + s),
{
    let values = value_actions(0, width);
    let written = values + s;
    values_in_order(width);
    values_alternate_with_separators(width);
    assert forall|k: int| 0 <= k < written.len() - 1 implies follows(
        #[trigger] written[k],
        written[k + 1],
    ) by {
        if k + 1 < values.len() {
            assert(written[k] == values[k] && written[k + 1] == values[k + 1]);
        } else if k >= values.len() {
            assert(written[k] == s[k - values.len()]);
            assert(written[k + 1] == s[k - values.len() + 1]);
        } else {
            assert(written[k] == values.last() && written[k + 1] == s[0]);
        }
    }
    if width > 0 {
        assert(written[0] == values[0]);
    } else {
        assert(written =~= s);
    }
    first_in_order(Action::EvaluateRow, written);
    assert(seq![Action::EvaluateRow] + values + s =~= seq![Action::EvaluateRow] + written);
}

/// A row in front of other steps, and the reports behind it.
proof fn row_keeps_reports(
    s: Seq<Action>,
    width: usize,
    rows_count: u32,
    info: FileInfo,
    rows: int,
    statements: int,
)
    requires
        reports_stand(s, rows_count, info, rows + 1, statements),
    ensures
        reports_stand(
            seq![Action::EvaluateRow] + value_actions(0, width) + s,
            rows_count,
            info,
            rows,
            statements,
        ),
{
    let values = value_actions(0, width);
    values_in_order(width);
    values_keep_reports(values, s, rows_count, info, rows + 1, statements);
    first_keeps_reports(Action::EvaluateRow, values + s, rows_count, info, rows, statements);
    assert(seq![Action::EvaluateRow] + values + s =~= seq![Action::EvaluateRow] + (values + s));
}

/// The steps of a file from a row on keep to the order.
#[verifier::spinoff_prover]
proof fn rows_keep_to_order(
    rows_count: u32,
    info: FileInfo,
    insert: int,
    row: int,
    widths: Seq<usize>,
)
    requires
        0 <= insert < info.inserts_count,
        0 <= row <= insert_rows(rows_count, info, insert),
    ensures
        ({
            let s = row_actions(rows_count, info, insert, row, widths);
            &&& s.len() > 0
            &&& in_order(s)
            &&& s[0] == if row >= insert_rows(rows_count, info, insert) {
                Action::WriteTrailer
            } else if row == 0 {
                Action::EvaluateRow
            } else {
                Action::WriteRowSeparator
            }
            &&& rows_stand(s, widths)
            &&& reports_stand(s, rows_count, info, row, insert + 1)
        }),
    decreases info.inserts_count - insert, 1nat, insert_rows(rows_count, info, insert) - row,
{
    let rows = insert_rows(rows_count, info, insert);
    let s = row_actions(rows_count, info, insert, row, widths);
    if row >= rows {
        let rest = insert_actions(rows_count, info, insert + 1, widths);
        inserts_keep_to_order(rows_count, info, insert + 1, widths);
        let report = seq![Action::Commit(rows)] + rest;
        first_in_order(Action::Commit(rows), rest);
        first_keeps_rows(Action::Commit(rows), rest, widths);
        first_keeps_reports(Action::Commit(rows), rest, rows_count, info, row, insert + 1);
        first_in_order(Action::WriteTrailer, report);
        first_keeps_rows(Action::WriteTrailer, report, widths);
        first_keeps_reports(Action::WriteTrailer, report, rows_count, info, row, insert + 1);
        assert(s =~= seq![Action::WriteTrailer] + report);
    } else {
        let values = value_actions(0, widths[0]);
        let rest = row_actions(rows_count, info, insert, row + 1, widths.skip(1));
        rows_keep_to_order(rows_count, info, insert, row + 1, widths.skip(1));
        let full = seq![Action::EvaluateRow] + values + rest;
        row_in_order(rest, widths[0]);
        row_keeps_reports(rest, widths[0], rows_count, info, row, insert + 1);
        row_keeps_rows(rest, widths);
        if row == 0 {
            assert(s =~= full);
        } else {
            first_in_order(Action::WriteRowSeparator, full);
            first_keeps_rows(Action::WriteRowSeparator, full, widths);
            first_keeps_reports(Action::WriteRowSeparator, full, rows_count, info, row, insert + 1);
            assert(s =~= seq![Action::WriteRowSeparator] + full);
        }
    }
}

/// The steps of a file from a statement on keep to the order.
proof fn inserts_keep_to_order(rows_count: u32, info: FileInfo, insert: int, widths: Seq<usize>)
    requires
        0 <= insert <= info.inserts_count,
    ensures
        ({
            let s = insert_actions(rows_count, info, insert, widths);
            &&& in_order(s)
            &&& insert == info.inserts_count ==> s.len() == 0
            &&& insert < info.inserts_count ==> s.len() > 0 && s[0] == Action::WriteHeader
            &&& rows_stand(s, widths)
            &&& reports_stand(s, rows_count, info, 0, insert)
        }),
    decreases info.inserts_count - insert, 2nat, 0int,
{
    if insert < info.inserts_count {
        let rest = row_actions(rows_count, info, insert, 0, widths);
        rows_keep_to_order(rows_count, info, insert, 0, widths);
        first_in_order(Action::WriteHeader, rest);
        first_keeps_rows(Action::WriteHeader, rest, widths);
        first_keeps_reports(Action::WriteHeader, rest, rows_count, info, 0, insert);
    }
}

/// The steps that write a file, from the first to the last: they begin with a header and end with a
/// report, each of them may come behind the one before it, so that rows are separated and statements
/// are ended and reported, each row is written value by value behind the step that generates it, each
/// report is on the rows generated since the report before, and a statement has the number of rows
/// asked for, the last of the file being the only exception.
pub proof fn file_is_written_in_order(rows_count: u32, info: FileInfo, widths: Seq<usize>)
    ensures
        ({
            let s = file_actions(rows_count, info, widths);
            &&& info.inserts_count == 0 ==> s.len() == 0
            &&& info.inserts_count > 0 ==> s.len() > 0 && s[0] == Action::WriteHeader
                && s.last() is Commit
            &&& in_order(s)
            &&& rows_stand(s, widths)
            &&& reports_stand(s, rows_count, info, 0, 0)
            &&& statements_begun(s) == info.inserts_count
            &&& info.inserts_count > 0 ==> rows_evaluated(s) == (info.inserts_count - 1)
                * rows_count + info.last_insert_rows_count
        }),
{
    inserts_keep_to_order(rows_count, info, 0, widths);
    file_is_complete(rows_count, info, widths);
    if info.inserts_count > 0 {
        file_ends_committed(rows_count, info, widths);
    }
}

/// What follows the number in the name of a data file.
spec fn data_name_end(env: Env) -> Seq<char> {
    match env.compression {
        Some((compression, _)) if !env.no_data => "."@ + env.format.suffix() + "."@
            + compression.suffix(),
        _ => "."@ + env.format.suffix(),
    }
}

/// The name of a data file is its number between two texts that all data files share.
proof fn data_name_parts(env: Env, i: nat)
    ensures
        env.data_name(i) == env.unique_name@ + "."@ + padded(i, env.file_num_digits as nat)
            + data_name_end(env),
{
    assert(env.data_name(i) =~= env.unique_name@ + "."@ + padded(i, env.file_num_digits as nat)
        + data_name_end(env));
}

/// Data files with different numbers have different names.
pub proof fn data_names_differ(env: Env, i: nat, j: nat)
    requires
        env.data_name(i) == env.data_name(j),
    ensures
        i == j,
{
    let width = env.file_num_digits as nat;
    let prefix = env.unique_name@ + "."@;
    let suffix = data_name_end(env);
    data_name_parts(env, i);
    data_name_parts(env, j);
    let from = prefix.len() as int;
    let to = env.data_name(i).len() - suffix.len();
    assert(padded(i, width) =~= env.data_name(i).subrange(from, to));
    assert(padded(j, width) =~= env.data_name(j).subrange(from, to));
    padded_reads_back(i, width);
    padded_reads_back(j, width);
}

/// The names of all data files have the same length.
pub proof fn data_names_have_one_length(env: Env, files_count: nat, i: nat, j: nat)
    requires
        env.file_num_digits == decimal(files_count).len(),
        i <= files_count,
        j <= files_count,
    ensures
        env.data_name(i).len() == env.data_name(j).len(),
{
    decimal_len_monotone(i, files_count);
    decimal_len_monotone(j, files_count);
}

/// The names of the data files sort by the numbers of the files.
pub proof fn data_names_sort_by_number(env: Env, files_count: nat, i: nat, j: nat)
    requires
        env.file_num_digits == decimal(files_count).len(),
        i < j <= files_count,
    ensures
        sorts_before(env.data_name(i), env.data_name(j)),
{
    let width = env.file_num_digits as nat;
    let prefix = env.unique_name@ + "."@;
    decimal_len_monotone(j, files_count);
    padded_sorts(i, j, width);
    data_name_parts(env, i);
    data_name_parts(env, j);
    let a = padded(i, width);
    let b = padded(j, width);
    let k = choose|k: int| smaller_at(a, b, k);
    let at = prefix.len() + k;
    assert(env.data_name(i)[at] == a[k]);
    assert(env.data_name(j)[at] == b[k]);
    assert forall|n: int| 0 <= n < at implies env.data_name(i)[n] == env.data_name(j)[n] by {
        if n >= prefix.len() {
            assert(a[n - prefix.len()] == b[n - prefix.len()]);
        }
    }
    assert(smaller_at(env.data_name(i), env.data_name(j), at));
}

/// No data file has the name of the schema file.
pub proof fn data_name_is_not_schema_name(env: Env, i: nat)
    ensures
        env.data_name(i) != env.schema_name(),
{
    reveal_strlit(".");
    reveal_strlit("-schema.sql");
    let k = env.unique_name@.len() as int;
    assert(env.data_name(i)[k] == '.');
    assert(env.schema_name()[k] == '-');
}

/// `s` ends with `t`.
pub open spec fn ends_with(s: Seq<char>, t: Seq<char>) -> bool {
    s.len() >= t.len() && s.skip(s.len() - t.len()) == t
}

/// Whatever the output format: where no data is to be written the bytes go nowhere, where a
/// compression is asked for they go through its encoder at the level asked for, and only where none
/// is asked for they go into the file as they are.
pub proof fn compression_is_applied(env: Env)
    ensures
        env.no_data <==> env.data_sink() is Discard,
        env.data_sink() is Plain <==> !env.no_data && env.compression is None,
        !env.no_data ==> (env.compression matches Some((compression, level)) ==> {
            &&& compression is Gzip ==> (env.data_sink() matches Sink::Compressed(
                Encoder::Gzip(n),
            ) && n == level)
            &&& compression is Xz ==> (env.data_sink() matches Sink::Compressed(Encoder::Xz(n))
                && n == level)
            &&& compression is Zstd ==> (env.data_sink() matches Sink::Compressed(
                Encoder::Zstd(n),
            ) && n == level)
        }),
{
}

/// The name of a data file ends in a compression extension exactly if its bytes go through the
/// encoder that the extension names.
pub proof fn extension_tells_encoder(env: Env, index: nat)
    ensures
        ends_with(env.data_name(index), ".gz"@) <==> env.data_sink() matches Sink::Compressed(
            Encoder::Gzip(_),
        ),
        ends_with(env.data_name(index), ".xz"@) <==> env.data_sink() matches Sink::Compressed(
            Encoder::Xz(_),
        ),
        ends_with(env.data_name(index), ".zst"@) <==> env.data_sink() matches Sink::Compressed(
            Encoder::Zstd(_),
        ),
{
    reveal_strlit(".");
    reveal_strlit("sql");
    reveal_strlit("csv");
    reveal_strlit("gz");
    reveal_strlit("xz");
    reveal_strlit("zst");
    reveal_strlit(".gz");
    reveal_strlit(".xz");
    reveal_strlit(".zst");
    let name = env.data_name(index);
    let n = name.len();
    ends_with_chars(name, ".gz"@);
    ends_with_chars(name, ".xz"@);
    ends_with_chars(name, ".zst"@);
    assert(n >= 4);
    assert(ends_with(name, ".gz"@) <==> name[n - 3] == '.' && name[n - 2] == 'g' && name[n - 1]
        == 'z') by {
        assert(ends_with(name, ".gz"@) ==> name[n - 3 + 0] == ".gz"@[0] && name[n - 3 + 1]
            == ".gz"@[1] && name[n - 3 + 2] == ".gz"@[2]);
    }
    assert(ends_with(name, ".xz"@) <==> name[n - 3] == '.' && name[n - 2] == 'x' && name[n - 1]
        == 'z') by {
        assert(ends_with(name, ".xz"@) ==> name[n - 3 + 0] == ".xz"@[0] && name[n - 3 + 1]
            == ".xz"@[1] && name[n - 3 + 2] == ".xz"@[2]);
    }
    assert(ends_with(name, ".zst"@) <==> name[n - 4] == '.' && name[n - 3] == 'z' && name[n - 2]
        == 's' && name[n - 1] == 't') by {
        assert(ends_with(name, ".zst"@) ==> name[n - 4 + 0] == ".zst"@[0] && name[n - 4 + 1]
            == ".zst"@[1] && name[n - 4 + 2] == ".zst"@[2] && name[n - 4 + 3] == ".zst"@[3]);
    }
}

/// A text ends with another exactly if its last characters are those of the other.
proof fn ends_with_chars(s: Seq<char>, t: Seq<char>)
    ensures
        s.len() >= t.len() ==> (ends_with(s, t) <==> forall|i: int|
            0 <= i < t.len() ==> s[s.len() - t.len() + i] == #[trigger] t[i]),
{
    if s.len() >= t.len() {
        let end = s.skip(s.len() - t.len());
        if forall|i: int| 0 <= i < t.len() ==> s[s.len() - t.len() + i] == #[trigger] t[i] {
            assert(end =~= t);
        }
        if ends_with(s, t) {
            assert forall|i: int| 0 <= i < t.len() implies s[s.len() - t.len() + i]
                == #[trigger] t[i] by {
                assert(end[i] == t[i]);
            }
        }
    }
}

/// The name of a data file is that of the table, the number of the file and the extensions of the
/// formats, with dots in between. The number is in digits that stand for it, with zeros in front only
/// up to the width asked for.
pub proof fn data_name_reads_back(env: Env, index: nat)
    ensures
        exists|digits: Seq<char>| #[trigger]
            all_digits(digits) && digits_value(digits) == index && digits.len()
                >= env.file_num_digits && (digits.len() > env.file_num_digits ==> numeral(
                digits,
                index as int,
            )) && env.data_name(index) == env.unique_name@ + "."@ + digits + (match env.format {
                FormatName::Sql => ".sql"@,
                FormatName::Csv => ".csv"@,
            }) + (match env.compression {
                Some((CompressionName::Gzip, _)) if !env.no_data => ".gz"@,
                Some((CompressionName::Xz, _)) if !env.no_data => ".xz"@,
                Some((CompressionName::Zstd, _)) if !env.no_data => ".zst"@,
                _ => Seq::empty(),
            }),
{
    reveal_strlit(".");
    reveal_strlit("sql");
    reveal_strlit("csv");
    reveal_strlit(".sql");
    reveal_strlit(".csv");
    reveal_strlit("gz");
    reveal_strlit("xz");
    reveal_strlit("zst");
    reveal_strlit(".gz");
    reveal_strlit(".xz");
    reveal_strlit(".zst");
    let width = env.file_num_digits as nat;
    let digits = padded(index, width);
    padded_reads_back(index, width);
    decimal_is_numeral(index);
    assert forall|i: int| 0 <= i < digits.len() implies crate::decimal::is_digit(
        #[trigger] digits[i],
    ) by {
        let numeral = decimal(index);
        if i >= digits.len() - numeral.len() {
            assert(digits[i] == numeral[i - (digits.len() - numeral.len())]);
        }
    }
    assert(all_digits(digits));
    let format = match env.format {
        FormatName::Sql => ".sql"@,
        FormatName::Csv => ".csv"@,
    };
    let compression = match env.compression {
        Some((CompressionName::Gzip, _)) if !env.no_data => ".gz"@,
        Some((CompressionName::Xz, _)) if !env.no_data => ".xz"@,
        Some((CompressionName::Zstd, _)) if !env.no_data => ".zst"@,
        _ => Seq::empty(),
    };
    assert(env.data_name(index) =~= env.unique_name@ + "."@ + digits + format + compression);
}

/// The schema file is named after the table and creates it, for whatever names and content.
pub proof fn schema_file_creates_table(env: Env, content: Seq<char>)
    ensures
        env.schema_name() == env.unique_name@ + "-schema.sql"@,
        env.schema_text(content) == "CREATE TABLE "@ + env.qualified_name@ + " "@ + content,
{
}

} // verus!
