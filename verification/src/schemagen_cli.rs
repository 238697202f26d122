//! The shell script that `dbschemagen` prints.

use crate::cli;
use crate::decimal::{decimal, decimal_is_numeral, is_digit, push_decimal};
use crate::shell::{
    blank_ends_word, is_plain, is_special, plain_text_continues_word, plain_word_begins,
    plain_word_reads_back, quote, quoted, quoted_text_reads_back, shell_words, words_from,
};
use vstd::prelude::*;

pub use crate::columns::Dialect;
pub use crate::indexes::Table;

verus! {

/// Arguments to the `dbschemagen` CLI program, apart from the estimated total size of the dump,
/// which is no integer.
pub struct Args {
    /// Schema name.
    pub schema_name: String,
    /// Number of tables to generate
    pub tables_count: u32,
    /// SQL dialect.
    pub dialect: Dialect,
    /// Number of INSERT statements per file.
    pub inserts_count: u64,
    /// Number of rows per INSERT statement.
    pub rows_count: u64,
    /// Additional arguments passed to every `dbgen` invocation
    pub args: Vec<String>,
}

/// How the rows of a table are spread over files and statements.
#[derive(Copy, Clone, Debug, PartialEq, Eq, Structural)]
pub struct Spread {
    /// The number of files.
    pub files: u64,
    /// The number of INSERT statements in the last file.
    pub last_inserts: u64,
    /// The number of rows of the last INSERT statement of the last file.
    pub last_rows: u64,
}

/// `a / b`, rounded up.
pub open spec fn quotient_up(a: int, b: int) -> int {
    if a % b == 0 {
        a / b
    } else {
        a / b + 1
    }
}

/// What is left of `a` for the last of the parts of size `b` that it is cut into: a part itself
/// where there is no remainder.
pub open spec fn last_part(a: int, b: int) -> int {
    if a % b == 0 {
        b
    } else {
        a % b
    }
}

impl Args {
    /// The number of rows of a file that is not the last.
    pub open spec fn rows_per_file(&self) -> int {
        self.rows_count * self.inserts_count
    }

    /// How `rows` rows are spread: all files are full but the last, which holds the rest, and all
    /// statements of that are full but the last.
    pub open spec fn spread(&self, rows: int) -> Spread {
        let in_last_file = last_part(rows, self.rows_per_file());
        Spread {
            files: quotient_up(rows, self.rows_per_file()) as u64,
            last_inserts: quotient_up(in_last_file, self.rows_count as int) as u64,
            last_rows: last_part(in_last_file, self.rows_count as int) as u64,
        }
    }

    /// The rows of a table can be spread, and the numbers on the way are numbers of 64 bits.
    pub open spec fn spreadable(&self, rows: int) -> bool {
        &&& 0 < self.rows_per_file() <= u64::MAX
        &&& rows / self.rows_per_file() + 1 <= u64::MAX
    }

    /// Whether the rows of a table can be spread, and the numbers on the way are numbers of 64
    /// bits.
    pub fn is_spreadable(&self, rows: u64) -> (r: bool)
        ensures
            r == self.spreadable(rows as int),
    {
        match self.rows_count.checked_mul(self.inserts_count) {
            Some(per_file) => per_file != 0 && rows / per_file != u64::MAX,
            None => false,
        }
    }

    /// Spreads the rows of a table over files and statements.
    pub fn spread_rows(&self, rows: u64) -> (r: Spread)
        requires
            self.spreadable(rows as int),
        ensures
            r == self.spread(rows as int),
    {
        proof {
            positive_factors(self.rows_count as int, self.inserts_count as int);
        }
        let per_file: u64 = self.rows_count * self.inserts_count;
        let mut files: u64 = rows / per_file + 1;
        let residue: u64 = rows % per_file;
        if residue == 0 {
            files = files - 1;
            proof {
                whole_parts(self.rows_count as int, self.inserts_count as int);
            }
            Spread { files, last_inserts: self.inserts_count, last_rows: self.rows_count }
        } else {
            let inserts: u64 = residue / self.rows_count;
            let rows_residue: u64 = residue % self.rows_count;
            if rows_residue == 0 {
                Spread { files, last_inserts: inserts, last_rows: self.rows_count }
            } else {
                proof {
                    quotient_below(
                        residue as int,
                        self.rows_count as int,
                        self.inserts_count as int,
                    );
                }
                Spread { files, last_inserts: inserts + 1, last_rows: rows_residue }
            }
        }
    }
}

/// Factors of a positive product of natural numbers are positive.
proof fn positive_factors(a: int, b: int)
    requires
        a >= 0,
        b >= 0,
        a * b > 0,
    ensures
        a > 0,
        b > 0,
{
    assert(a > 0 && b > 0) by (nonlinear_arith)
        requires
            a >= 0,
            b >= 0,
            a * b > 0,
    ;
}

/// A multiple of a number holds it a whole number of times.
proof fn whole_parts(a: int, b: int)
    requires
        a > 0,
    ensures
        (a * b) % a == 0,
        (a * b) / a == b,
{
    vstd::arithmetic::div_mod::lemma_div_multiples_vanish(b, a);
    vstd::arithmetic::div_mod::lemma_mod_multiples_basic(b, a);
    vstd::arithmetic::mul::lemma_mul_is_commutative(a, b);
}

/// Less than `b` times `a` holds `a` less than `b` times.
proof fn quotient_below(r: int, a: int, b: int)
    requires
        0 <= r < a * b,
        a > 0,
    ensures
        0 <= r / a < b,
{
    assert(0 <= r / a < b) by (nonlinear_arith)
        requires
            0 <= r < a * b,
            a > 0,
    ;
}

/// The words that some texts are quoted as, with spaces in between.
pub open spec fn quoted_words(args: Seq<String>) -> Seq<char>
    decreases args.len(),
{
    if args.len() == 0 {
        Seq::empty()
    } else if args.len() == 1 {
        quoted(args.last()@)
    } else {
        quoted_words(args.drop_last()) + " "@ + quoted(args.last()@)
    }
}

/// The beginning of the script.
pub open spec fn script_head(args: Args, unique_name: Seq<char>) -> Seq<char> {
    "#!/bin/sh\nset -eu\necho 'CREATE SCHEMA '"@ + quoted(args.schema_name@) + "';' > "@
        + unique_name + "-schema-create.sql\n\n"@
}

/// The `dbgen` invocation for the table at position `i`.
pub open spec fn script_table(args: Args, i: nat, table: Table) -> Seq<char> {
    let spread = args.spread(table.rows_count as int);
    "dbgen -i /dev/stdin -o . -t "@ + quoted(args.schema_name@) + ".s"@ + decimal(i) + " -n "@
        + decimal(args.inserts_count as nat) + " -r "@ + decimal(args.rows_count as nat) + " -k "@
        + decimal(spread.files as nat) + " --last-file-inserts-count "@ + decimal(
        spread.last_inserts as nat,
    ) + " --last-insert-rows-count "@ + decimal(spread.last_rows as nat) + " "@ + quoted_words(
        args.args@,
    ) + " <<SCHEMAEOF\n"@ + table.schema@ + "\nSCHEMAEOF\n\n"@
}

/// The `dbgen` invocations for some tables.
pub open spec fn script_tables(args: Args, tables: Seq<Table>) -> Seq<char>
    decreases tables.len(),
{
    if tables.len() == 0 {
        Seq::empty()
    } else {
        script_tables(args, tables.drop_last()) + script_table(
            args,
            (tables.len() - 1) as nat,
            tables.last(),
        )
    }
}

/// Joins the quoted words of some texts.
fn quote_words(args: &Vec<String>) -> (r: String)
    ensures
        r@ == quoted_words(args@),
{
    let mut words = String::new();
    let mut i: usize = 0;
    assert(args@.take(0) =~= Seq::<String>::empty());
    while i < args.len()
        invariant
            i <= args@.len(),
            words@ == quoted_words(args@.take(i as int)),
        decreases args@.len() - i,
    {
        if i > 0 {
            words.append(" ");
        }
        words.append(quote(args[i].as_str()).as_str());
        proof {
            let taken = args@.take(i + 1);
            assert(taken.drop_last() =~= args@.take(i as int));
            assert(taken.last() == args@[i as int]);
            assert(words@ =~= quoted_words(taken));
        }
        i = i + 1;
    }
    assert(args@.take(i as int) =~= args@);
    words
}

/// The `dbgen` invocation for the table at position `i`, where the name of the schema and the
/// additional arguments are quoted.
fn table_invocation(
    args: &Args,
    quoted_schema_name: &str,
    extra_args: &str,
    i: usize,
    table: &Table,
) -> (r: String)
    requires
        args.spreadable(table.rows_count as int),
        quoted_schema_name@ == quoted(args.schema_name@),
        extra_args@ == quoted_words(args.args@),
    ensures
        r@ == script_table(*args, i as nat, *table),
{
    let spread = args.spread_rows(table.rows_count);
    let mut line = "dbgen -i /dev/stdin -o . -t ".to_owned();
    line.append(quoted_schema_name);
    line.append(".s");
    push_decimal(&mut line, i as u128);
    line.append(" -n ");
    push_decimal(&mut line, args.inserts_count as u128);
    line.append(" -r ");
    push_decimal(&mut line, args.rows_count as u128);
    line.append(" -k ");
    push_decimal(&mut line, spread.files as u128);
    line.append(" --last-file-inserts-count ");
    push_decimal(&mut line, spread.last_inserts as u128);
    line.append(" --last-insert-rows-count ");
    push_decimal(&mut line, spread.last_rows as u128);
    line.append(" ");
    line.append(extra_args);
    line.append(" <<SCHEMAEOF\n");
    line.append(table.schema.as_str());
    line.append("\nSCHEMAEOF\n\n");
    line
}

/// Generates the beginning of the script, where `unique_name` is the name of the schema for use in
/// file names.
pub fn print_head(args: &Args, unique_name: &str) -> (r: String)
    ensures
        r@ == script_head(*args, unique_name@),
{
    let mut head = "#!/bin/sh\nset -eu\necho 'CREATE SCHEMA '".to_owned();
    head.append(quote(args.schema_name.as_str()).as_str());
    head.append("';' > ");
    head.append(unique_name);
    head.append("-schema-create.sql\n\n");
    head
}

/// Generates the `dbgen` invocation for the table at position `i`.
pub fn print_table(args: &Args, i: usize, table: &Table) -> (r: String)
    requires
        args.spreadable(table.rows_count as int),
    ensures
        r@ == script_table(*args, i as nat, *table),
{
    let quoted_schema_name = quote(args.schema_name.as_str());
    let extra_args = quote_words(&args.args);
    table_invocation(args, quoted_schema_name.as_str(), extra_args.as_str(), i, table)
}

/// Generates a shell script for invoking `dbgen`, where `unique_name` is the name of the schema for
/// use in file names.
pub fn print_script(args: &Args, unique_name: &str, tables: &Vec<Table>) -> (r: String)
    requires
        forall|i: int|
            0 <= i < tables@.len() ==> args.spreadable(#[trigger] tables@[i].rows_count as int),
    ensures
        r@ == script_head(*args, unique_name@) + script_tables(*args, tables@),
{
    let mut script = print_head(args, unique_name);
    let quoted_schema_name = quote(args.schema_name.as_str());
    let extra_args = quote_words(&args.args);

    let ghost head = script@;
    assert(tables@.take(0) =~= Seq::<Table>::empty());
    assert(script@ =~= head + script_tables(*args, tables@.take(0)));
    let mut i: usize = 0;
    while i < tables.len()
        invariant
            i <= tables@.len(),
            forall|j: int|
                0 <= j < tables@.len() ==> args.spreadable(#[trigger] tables@[j].rows_count as int),
            quoted_schema_name@ == quoted(args.schema_name@),
            extra_args@ == quoted_words(args.args@),
            script@ == head + script_tables(*args, tables@.take(i as int)),
        decreases tables@.len() - i,
    {
        let invocation = table_invocation(
            args,
            quoted_schema_name.as_str(),
            extra_args.as_str(),
            i,
            &tables[i],
        );
        script.append(invocation.as_str());
        proof {
            let taken = tables@.take(i + 1);
            assert(taken.drop_last() =~= tables@.take(i as int));
            assert(taken.last() == tables@[i as int]);
            assert(script@ =~= head + script_tables(*args, taken));
        }
        i = i + 1;
    }
    assert(tables@.take(i as int) =~= tables@);
    script
}

/// The texts themselves.
pub open spec fn texts(args: Seq<String>) -> Seq<Seq<char>> {
    args.map_values(|s: String| s@)
}

/// Quoted words in front of another text are read as all words but the last, and the beginning of
/// the last.
proof fn words_before_read_back(args: Seq<String>, rest: Seq<char>)
    requires
        args.len() > 0,
    ensures
        words_from(quoted_words(args) + rest, None, false) == texts(args.drop_last()) + words_from(
            rest,
            Some(args.last()@),
            false,
        ),
    decreases args.len(),
{
    let last = args.last()@;
    let before = args.drop_last();
    quoted_text_reads_back(last, rest);
    if args.len() == 1 {
        assert(texts(before) + words_from(rest, Some(last), false) =~= words_from(
            rest,
            Some(last),
            false,
        ));
    } else {
        reveal_strlit(" ");
        let later = " "@ + quoted(last) + rest;
        words_before_read_back(before, later);
        assert(quoted_words(args) + rest =~= quoted_words(before) + later);
        assert(later.skip(1) =~= quoted(last) + rest);
        assert(words_from(later, Some(before.last()@), false) == seq![before.last()@] + words_from(
            rest,
            Some(last),
            false,
        ));
        assert(texts(before) =~= texts(before.drop_last()) + seq![before.last()@]);
        assert(texts(before.drop_last()) + (seq![before.last()@] + words_from(
            rest,
            Some(last),
            false,
        )) =~= texts(before) + words_from(rest, Some(last), false));
    }
}

/// The shell reads the additional arguments out of their joined words: all of them, in order and
/// unchanged.
pub proof fn quoted_words_read_back(args: Seq<String>)
    ensures
        shell_words(quoted_words(args)) == texts(args),
{
    if args.len() == 0 {
        assert(texts(args) =~= Seq::<Seq<char>>::empty());
    } else {
        let none = Seq::<char>::empty();
        words_before_read_back(args, none);
        assert(quoted_words(args) + none =~= quoted_words(args));
        assert(texts(args) =~= texts(args.drop_last()) + seq![args.last()@]);
    }
}

/// `whole` cut into parts of size `part` is all parts but the last, and the last.
proof fn parts_add_up(whole: int, part: int)
    requires
        whole > 0,
        part > 0,
    ensures
        quotient_up(whole, part) >= 1,
        1 <= last_part(whole, part) <= part,
        (quotient_up(whole, part) - 1) * part + last_part(whole, part) == whole,
{
    let q = whole / part;
    let m = whole % part;
    vstd::arithmetic::div_mod::lemma_fundamental_div_mod(whole, part);
    assert(q * part + m == whole) by (nonlinear_arith)
        requires
            whole == part * q + m,
    ;
    assert((q - 1) * part + part == q * part) by (nonlinear_arith);
    assert(0 <= m < part) by (nonlinear_arith)
        requires
            m == whole % part,
            part > 0,
    ;
    assert(q >= 0) by (nonlinear_arith)
        requires
            q == whole / part,
            whole > 0,
            part > 0,
    ;
    if m == 0 {
        assert(q >= 1) by (nonlinear_arith)
            requires
                q * part == whole,
                whole > 0,
                part > 0,
        ;
    }
}

/// The rows of a table are spread without a loss: the full files, the full statements of the last
/// file and the last statement hold exactly the rows of the table, and none of them is empty.
pub proof fn spread_holds_all_rows(args: Args, rows: u64)
    requires
        args.spreadable(rows as int),
        rows > 0,
    ensures
        args.spread(rows as int).files >= 1,
        1 <= args.spread(rows as int).last_inserts <= args.inserts_count,
        1 <= args.spread(rows as int).last_rows <= args.rows_count,
        (args.spread(rows as int).files - 1) * args.rows_per_file() + (args.spread(
            rows as int,
        ).last_inserts - 1) * args.rows_count + args.spread(rows as int).last_rows == rows,
{
    let n = args.rows_count as int;
    let k = args.inserts_count as int;
    positive_factors(n, k);
    let per_file = args.rows_per_file();
    parts_add_up(rows as int, per_file);
    let in_last_file = last_part(rows as int, per_file);
    parts_add_up(in_last_file, n);
    let inserts = quotient_up(in_last_file, n);
    assert(inserts <= k) by (nonlinear_arith)
        requires
            (inserts - 1) * n + last_part(in_last_file, n) == in_last_file,
            1 <= last_part(in_last_file, n),
            in_last_file <= n * k,
            n > 0,
    ;
    assert(quotient_up(rows as int, per_file) <= rows as int / per_file + 1);
    assert(args.spread(rows as int).files == quotient_up(rows as int, per_file));
    assert(args.spread(rows as int).last_inserts == inserts);
    assert(args.spread(rows as int).last_rows == last_part(in_last_file, n));
}

/// `dbgen`, when it is given the numbers of the script, generates exactly the rows of the table.
pub proof fn script_generates_all_rows(args: Args, rows: u64, run: cli::Args)
    requires
        args.spreadable(rows as int),
        rows > 0,
        run.inserts_count == args.inserts_count,
        run.rows_count == args.rows_count,
        run.files_count == args.spread(rows as int).files,
        run.last_file_inserts_count matches Some(n) && n == args.spread(rows as int).last_inserts,
        run.last_insert_rows_count matches Some(n) && n == args.spread(rows as int).last_rows,
    ensures
        cli::rows_of_files(run, run.files_count as int) == rows,
{
    spread_holds_all_rows(args, rows);
    vstd::arithmetic::mul::lemma_mul_is_commutative(
        args.rows_count as int,
        args.inserts_count as int,
    );
    cli::progress_bar_counts_all_rows(run);
}

/// A number is a plain word.
proof fn number_is_plain(n: nat)
    ensures
        is_plain(decimal(n)),
{
    decimal_is_numeral(n);
    assert forall|i: int| 0 <= i < decimal(n).len() implies !is_special(
        #[trigger] decimal(n)[i],
    ) by {
        assert(is_digit(decimal(n)[i]));
    }
}

/// A number and an option behind it are read as two words.
proof fn number_and_option_read_back(n: nat, text: Seq<char>, option: Seq<char>, rest: Seq<char>)
    requires
        is_plain(option),
        text == " "@ + option + " "@,
    ensures
        words_from(decimal(n) + (text + rest), None, false) == seq![decimal(n), option]
            + words_from(rest, None, false),
{
    number_is_plain(n);
    plain_word_begins(decimal(n), text + rest);
    option_reads_back(decimal(n), text, option, rest);
}

/// An option ends the word before it, and is read as the next.
proof fn option_reads_back(
    word: Seq<char>,
    text: Seq<char>,
    option: Seq<char>,
    rest: Seq<char>,
)
    requires
        is_plain(option),
        text == " "@ + option + " "@,
    ensures
        words_from(text + rest, Some(word), false) == seq![word, option] + words_from(
            rest,
            None,
            false,
        ),
{
    let later = option + " "@ + rest;
    assert(text + rest =~= " "@ + later);
    blank_ends_word(word, later);
    plain_word_reads_back(option, rest);
    assert(seq![word] + (seq![option] + words_from(rest, None, false)) =~= seq![word, option]
        + words_from(rest, None, false));
}

/// The words of the options of the script are plain.
proof fn options_are_plain()
    ensures
        is_plain("dbgen"@),
        is_plain("-i"@),
        is_plain("/dev/stdin"@),
        is_plain("-o"@),
        is_plain("."@),
        is_plain("-t"@),
        is_plain(".s"@),
        is_plain("-n"@),
        is_plain("-r"@),
        is_plain("-k"@),
        is_plain("--last-file-inserts-count"@),
        is_plain("--last-insert-rows-count"@),
        " -n "@ == " "@ + "-n"@ + " "@,
        " -r "@ == " "@ + "-r"@ + " "@,
        " -k "@ == " "@ + "-k"@ + " "@,
        " --last-file-inserts-count "@ == " "@ + "--last-file-inserts-count"@ + " "@,
        " --last-insert-rows-count "@ == " "@ + "--last-insert-rows-count"@ + " "@,
{
    reveal_strlit(" ");
    reveal_strlit("dbgen");
    reveal_strlit("-i");
    reveal_strlit("/dev/stdin");
    reveal_strlit("-o");
    reveal_strlit(".");
    reveal_strlit("-t");
    reveal_strlit(".s");
    reveal_strlit("-n");
    reveal_strlit("-r");
    reveal_strlit("-k");
    reveal_strlit("--last-file-inserts-count");
    reveal_strlit("--last-insert-rows-count");
    reveal_strlit(" -n ");
    reveal_strlit(" -r ");
    reveal_strlit(" -k ");
    reveal_strlit(" --last-file-inserts-count ");
    reveal_strlit(" --last-insert-rows-count ");
    assert(" -n "@ =~= " "@ + "-n"@ + " "@);
    assert(" -r "@ =~= " "@ + "-r"@ + " "@);
    assert(" -k "@ =~= " "@ + "-k"@ + " "@);
    assert(" --last-file-inserts-count "@ =~= " "@ + "--last-file-inserts-count"@ + " "@);
    assert(" --last-insert-rows-count "@ =~= " "@ + "--last-insert-rows-count"@ + " "@);
}

/// The words of the line that the shell runs for the table at position `i`.
pub open spec fn invocation_words(args: Args, i: nat, spread: Spread) -> Seq<Seq<char>> {
    seq![
        "dbgen"@,
        "-i"@,
        "/dev/stdin"@,
        "-o"@,
        "."@,
        "-t"@,
        args.schema_name@ + ".s"@ + decimal(i),
        "-n"@,
        decimal(args.inserts_count as nat),
        "-r"@,
        decimal(args.rows_count as nat),
        "-k"@,
        decimal(spread.files as nat),
        "--last-file-inserts-count"@,
        decimal(spread.last_inserts as nat),
        "--last-insert-rows-count"@,
        decimal(spread.last_rows as nat),
    ] + texts(args.args@)
}

/// The numbers of a line and the additional arguments behind them.
proof fn numbers_read_back(args: Args, spread: Spread, word: Seq<char>)
    ensures
        words_from(
            " -n "@ + (decimal(args.inserts_count as nat) + (" -r "@ + (decimal(
                args.rows_count as nat,
            ) + (" -k "@ + (decimal(spread.files as nat) + (" --last-file-inserts-count "@ + (
            decimal(spread.last_inserts as nat) + (" --last-insert-rows-count "@ + (decimal(
                spread.last_rows as nat,
            ) + (" "@ + quoted_words(args.args@))))))))))),
            Some(word),
            false,
        ) == seq![
            word,
            "-n"@,
            decimal(args.inserts_count as nat),
            "-r"@,
            decimal(args.rows_count as nat),
            "-k"@,
            decimal(spread.files as nat),
            "--last-file-inserts-count"@,
            decimal(spread.last_inserts as nat),
            "--last-insert-rows-count"@,
            decimal(spread.last_rows as nat),
        ] + texts(args.args@),
{
    let extra = quoted_words(args.args@);
    let n = args.inserts_count as nat;
    let r = args.rows_count as nat;
    let k = spread.files as nat;
    let i = spread.last_inserts as nat;
    let l = spread.last_rows as nat;
    let end = texts(args.args@);
    options_are_plain();
    quoted_words_read_back(args.args@);
    let at_l = decimal(l) + (" "@ + extra);
    number_is_plain(l);
    plain_word_begins(decimal(l), " "@ + extra);
    blank_ends_word(decimal(l), extra);
    assert(words_from(at_l, None, false) == seq![decimal(l)] + end);
    let at_i = decimal(i) + (" --last-insert-rows-count "@ + at_l);
    number_and_option_read_back(
        i,
        " --last-insert-rows-count "@,
        "--last-insert-rows-count"@,
        at_l,
    );
    let at_k = decimal(k) + (" --last-file-inserts-count "@ + at_i);
    number_and_option_read_back(
        k,
        " --last-file-inserts-count "@,
        "--last-file-inserts-count"@,
        at_i,
    );
    let at_r = decimal(r) + (" -k "@ + at_k);
    number_and_option_read_back(r, " -k "@, "-k"@, at_k);
    let at_n = decimal(n) + (" -r "@ + at_r);
    number_and_option_read_back(n, " -r "@, "-r"@, at_r);
    option_reads_back(word, " -n "@, "-n"@, at_n);
    assert(words_from(" -n "@ + at_n, Some(word), false) =~= seq![
        word,
        "-n"@,
        decimal(n),
        "-r"@,
        decimal(r),
        "-k"@,
        decimal(k),
        "--last-file-inserts-count"@,
        decimal(i),
        "--last-insert-rows-count"@,
        decimal(l),
    ] + end);
}

/// The first words of a line.
proof fn head_reads_back(rest: Seq<char>)
    ensures
        words_from("dbgen -i /dev/stdin -o . -t "@ + rest, None, false) == seq![
            "dbgen"@,
            "-i"@,
            "/dev/stdin"@,
            "-o"@,
            "."@,
            "-t"@,
        ] + words_from(rest, None, false),
{
    options_are_plain();
    let at_t = "-t"@ + " "@ + rest;
    let at_dot = "."@ + " "@ + at_t;
    let at_o = "-o"@ + " "@ + at_dot;
    let at_stdin = "/dev/stdin"@ + " "@ + at_o;
    let at_i = "-i"@ + " "@ + at_stdin;
    plain_word_reads_back("-t"@, rest);
    plain_word_reads_back("."@, at_t);
    plain_word_reads_back("-o"@, at_dot);
    plain_word_reads_back("/dev/stdin"@, at_o);
    plain_word_reads_back("-i"@, at_stdin);
    plain_word_reads_back("dbgen"@, at_i);
    reveal_strlit(" ");
    reveal_strlit("dbgen");
    reveal_strlit("-i");
    reveal_strlit("/dev/stdin");
    reveal_strlit("-o");
    reveal_strlit(".");
    reveal_strlit("-t");
    reveal_strlit("dbgen -i /dev/stdin -o . -t ");
    assert("dbgen -i /dev/stdin -o . -t "@ + rest =~= "dbgen"@ + " "@ + at_i);
    assert(words_from("dbgen"@ + " "@ + at_i, None, false) =~= seq![
        "dbgen"@,
        "-i"@,
        "/dev/stdin"@,
        "-o"@,
        "."@,
        "-t"@,
    ] + words_from(rest, None, false));
}

/// Texts one behind the other can be put together in any order.
proof fn concat_is_associative(a: Seq<char>, b: Seq<char>, c: Seq<char>)
    ensures
        (a + b) + c == a + (b + c),
{
    assert((a + b) + c =~= a + (b + c));
}

/// For each table, the shell runs `dbgen` with exactly the words that name the table, the numbers of
/// its spread, and all additional arguments, and feeds it the statement of the table.
pub proof fn invocation_reads_back(args: Args, i: nat, table: Table)
    ensures
        exists|line: Seq<char>| #[trigger]
            shell_words(line) == invocation_words(args, i, args.spread(table.rows_count as int))
                && script_table(args, i, table) == line + " <<SCHEMAEOF\n"@ + table.schema@
                + "\nSCHEMAEOF\n\n"@,
{
    let spread = args.spread(table.rows_count as int);
    let head = "dbgen -i /dev/stdin -o . -t "@;
    let schema = quoted(args.schema_name@);
    let n = decimal(args.inserts_count as nat);
    let r = decimal(args.rows_count as nat);
    let k = decimal(spread.files as nat);
    let li = decimal(spread.last_inserts as nat);
    let lr = decimal(spread.last_rows as nat);
    let extra = quoted_words(args.args@);
    let line = head + schema + ".s"@ + decimal(i) + " -n "@ + n + " -r "@ + r + " -k "@ + k
        + " --last-file-inserts-count "@ + li + " --last-insert-rows-count "@ + lr + " "@ + extra;

    let r1 = " "@ + extra;
    let r2 = lr + r1;
    let r3 = " --last-insert-rows-count "@ + r2;
    let r4 = li + r3;
    let r5 = " --last-file-inserts-count "@ + r4;
    let r6 = k + r5;
    let r7 = " -k "@ + r6;
    let r8 = r + r7;
    let r9 = " -r "@ + r8;
    let r10 = n + r9;
    let r11 = " -n "@ + r10;
    let r12 = decimal(i) + r11;
    let r13 = ".s"@ + r12;
    let l0 = head + schema;
    let l1 = l0 + ".s"@;
    let l2 = l1 + decimal(i);
    let l3 = l2 + " -n "@;
    let l4 = l3 + n;
    let l5 = l4 + " -r "@;
    let l6 = l5 + r;
    let l7 = l6 + " -k "@;
    let l8 = l7 + k;
    let l9 = l8 + " --last-file-inserts-count "@;
    let l10 = l9 + li;
    let l11 = l10 + " --last-insert-rows-count "@;
    let l12 = l11 + lr;
    concat_is_associative(l12, " "@, extra);
    concat_is_associative(l11, lr, r1);
    concat_is_associative(l10, " --last-insert-rows-count "@, r2);
    concat_is_associative(l9, li, r3);
    concat_is_associative(l8, " --last-file-inserts-count "@, r4);
    concat_is_associative(l7, k, r5);
    concat_is_associative(l6, " -k "@, r6);
    concat_is_associative(l5, r, r7);
    concat_is_associative(l4, " -r "@, r8);
    concat_is_associative(l3, n, r9);
    concat_is_associative(l2, " -n "@, r10);
    concat_is_associative(l1, decimal(i), r11);
    concat_is_associative(l0, ".s"@, r12);
    concat_is_associative(head, schema, r13);
    assert(line == head + (schema + r13));

    head_reads_back(schema + r13);
    quoted_text_reads_back(args.schema_name@, r13);
    options_are_plain();
    plain_text_continues_word(args.schema_name@, ".s"@, r12);
    number_is_plain(i);
    plain_text_continues_word(args.schema_name@ + ".s"@, decimal(i), r11);
    numbers_read_back(args, spread, args.schema_name@ + ".s"@ + decimal(i));
    assert(shell_words(line) =~= invocation_words(args, i, spread));
    assert(script_table(args, i, table) == line + " <<SCHEMAEOF\n"@ + table.schema@
        + "\nSCHEMAEOF\n\n"@);
}

/// The script is its head and one invocation for each table, in the order of the tables and numbered
/// from zero.
pub proof fn script_has_an_invocation_for_each_table(args: Args, tables: Seq<Table>, table: Table)
    ensures
        script_tables(args, Seq::empty()) == Seq::<char>::empty(),
        script_tables(args, tables.push(table)) == script_tables(args, tables) + script_table(
            args,
            tables.len(),
            table,
        ),
{
    assert(tables.push(table).drop_last() =~= tables);
}

/// The script begins by writing the statement that creates the schema into a file named after it.
pub proof fn script_creates_schema(args: Args, unique_name: Seq<char>)
    ensures
        script_head(args, unique_name) == "#!/bin/sh\nset -eu\necho 'CREATE SCHEMA '"@ + quoted(
            args.schema_name@,
        ) + "';' > "@ + unique_name + "-schema-create.sql\n\n"@,
{
}

/// A table of no rows needs no files, and its last file and statement would be full ones. Rows can be
/// spread wherever a file holds any and the numbers on the way are numbers of 64 bits.
pub proof fn no_rows_need_no_files(args: Args, rows: int)
    ensures
        args.spreadable(rows) <==> 0 < args.inserts_count * args.rows_count <= u64::MAX && rows / (
        args.inserts_count * args.rows_count) < u64::MAX,
        args.spreadable(0) ==> args.spread(0).files == 0 && args.spread(0).last_inserts
            == args.inserts_count && args.spread(0).last_rows == args.rows_count,
{
    let n = args.rows_count as int;
    let k = args.inserts_count as int;
    vstd::arithmetic::mul::lemma_mul_is_commutative(n, k);
    if args.spreadable(0) {
        positive_factors(n, k);
        whole_parts(n, k);
        let per_file = args.rows_per_file();
        assert(0int % per_file == 0 && 0int / per_file == 0) by (nonlinear_arith)
            requires
                per_file > 0,
        ;
    }
}

} // verus!
