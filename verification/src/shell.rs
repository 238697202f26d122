//! Words of a shell script.

use vstd::prelude::*;

verus! {

/// The shell gives a meaning of its own to the character `c`.
pub open spec fn is_special(c: char) -> bool {
    ||| c == '|' || c == '&' || c == ';' || c == '<' || c == '>' || c == '(' || c == ')'
    ||| c == '$' || c == '`' || c == '\\' || c == '"' || c == '\'' || c == ' ' || c == '\t'
    ||| c == '\r' || c == '\n' || c == '*' || c == '?' || c == '[' || c == '#' || c == '~'
    ||| c == '=' || c == '%'
}

/// The shell gives a meaning of its own to the character `c` even between double quotes.
pub open spec fn needs_escape(c: char) -> bool {
    c == '$' || c == '`' || c == '"' || c == '\\'
}

/// `s` with a backslash in front of each character that needs one between double quotes.
pub open spec fn escaped(s: Seq<char>) -> Seq<char>
    decreases s.len(),
{
    if s.len() == 0 {
        Seq::empty()
    } else if needs_escape(s.last()) {
        escaped(s.drop_last()).push('\\').push(s.last())
    } else {
        escaped(s.drop_last()).push(s.last())
    }
}

/// `s` as a single word of a shell script.
pub open spec fn quoted(s: Seq<char>) -> Seq<char> {
    if s.len() == 0 {
        seq!['"', '"']
    } else if exists|i: int| 0 <= i < s.len() && is_special(#[trigger] s[i]) {
        seq!['"'] + escaped(s) + seq!['"']
    } else {
        s
    }
}

/// Calls `quote` of `shlex`: a word without a special character stays as it is, and any other is
/// put between double quotes and escaped.
#[verifier::external_body]
pub(crate) fn quote(s: &str) -> (r: String)
    ensures
        r@ == quoted(s@),
{
    shlex::quote(s).into_owned()
}

/// The word so far, with the character `c` behind it.
pub open spec fn extended(word: Option<Seq<char>>, c: char) -> Option<Seq<char>> {
    match word {
        Some(w) => Some(w.push(c)),
        None => Some(seq![c]),
    }
}

/// The words that the shell reads out of a text, where `word` is the word so far, if one has begun,
/// and `inside` tells whether double quotes are open. Blanks end a word, except between double
/// quotes, where a backslash takes away the meaning of the character behind it, if that has one
/// there. This is for texts in which all other special characters stand between double quotes, those
/// with a meaning there behind a backslash.
pub open spec fn words_from(text: Seq<char>, word: Option<Seq<char>>, inside: bool) -> Seq<
    Seq<char>,
>
    decreases text.len(),
{
    if text.len() == 0 {
        match word {
            Some(w) => seq![w],
            None => Seq::empty(),
        }
    } else if inside {
        if text[0] == '"' {
            words_from(text.skip(1), word, false)
        } else if text[0] == '\\' && text.len() > 1 && needs_escape(text[1]) {
            words_from(text.skip(2), extended(word, text[1]), true)
        } else {
            words_from(text.skip(1), extended(word, text[0]), true)
        }
    } else if text[0] == '"' {
        let begun = match word {
            Some(w) => w,
            None => Seq::empty(),
        };
        words_from(text.skip(1), Some(begun), true)
    } else if text[0] == ' ' || text[0] == '\t' {
        match word {
            Some(w) => seq![w] + words_from(text.skip(1), None, false),
            None => words_from(text.skip(1), None, false),
        }
    } else {
        words_from(text.skip(1), extended(word, text[0]), false)
    }
}

/// The words that the shell reads out of a text.
pub open spec fn shell_words(text: Seq<char>) -> Seq<Seq<char>> {
    words_from(text, None, false)
}

/// Escaping texts one after the other is escaping them together.
proof fn escaped_concat(a: Seq<char>, b: Seq<char>)
    ensures
        escaped(a + b) == escaped(a) + escaped(b),
    decreases b.len(),
{
    if b.len() == 0 {
        assert(a + b =~= a);
        assert(escaped(a) + escaped(b) =~= escaped(a));
    } else {
        escaped_concat(a, b.drop_last());
        assert((a + b).drop_last() =~= a + b.drop_last());
        assert(escaped(a + b) =~= escaped(a) + escaped(b));
    }
}

/// Between double quotes an escaped text is read as that text.
proof fn escaped_text_reads_back(s: Seq<char>, word: Seq<char>, rest: Seq<char>)
    ensures
        words_from(escaped(s) + seq!['"'] + rest, Some(word), true) == words_from(
            rest,
            Some(word + s),
            false,
        ),
    decreases s.len(),
{
    let text = escaped(s) + seq!['"'] + rest;
    if s.len() == 0 {
        assert(escaped(s) =~= Seq::<char>::empty());
        assert(text.skip(1) =~= rest);
        assert(word + s =~= word);
    } else {
        let first = seq![s[0]];
        let later = s.skip(1);
        assert(s =~= first + later);
        escaped_concat(first, later);
        assert(first.drop_last() =~= Seq::<char>::empty());
        assert(escaped(Seq::<char>::empty()) =~= Seq::<char>::empty());
        escaped_text_reads_back(later, word.push(s[0]), rest);
        let later_text = escaped(later) + seq!['"'] + rest;
        if needs_escape(s[0]) {
            assert(escaped(first) =~= seq!['\\', s[0]]);
            assert(text.skip(2) =~= later_text);
        } else {
            assert(escaped(first) =~= first);
            assert(text.skip(1) =~= later_text);
        }
        assert(word.push(s[0]) + later =~= word + s);
    }
}

/// A text without a special character is read as it is.
proof fn plain_text_reads_back(s: Seq<char>, word: Option<Seq<char>>, rest: Seq<char>)
    requires
        s.len() > 0,
        forall|i: int| 0 <= i < s.len() ==> !is_special(#[trigger] s[i]),
    ensures
        words_from(s + rest, word, false) == words_from(
            rest,
            Some(
                match word {
                    Some(w) => w + s,
                    None => s,
                },
            ),
            false,
        ),
    decreases s.len(),
{
    let text = s + rest;
    let later = s.skip(1);
    let begun = extended(word, s[0]);
    assert(!is_special(s[0]));
    assert(text.skip(1) =~= later + rest);
    let whole = match word {
        Some(w) => w + s,
        None => s,
    };
    if later.len() == 0 {
        assert(later + rest =~= rest);
        assert(begun->0 =~= whole);
    } else {
        assert forall|i: int| 0 <= i < later.len() implies !is_special(#[trigger] later[i]) by {
            assert(later[i] == s[i + 1]);
        }
        plain_text_reads_back(later, begun, rest);
        assert(begun->0 + later =~= whole);
    }
}

/// A text that the shell reads as a word as it is.
pub open spec fn is_plain(s: Seq<char>) -> bool {
    s.len() > 0 && forall|i: int| 0 <= i < s.len() ==> !is_special(#[trigger] s[i])
}

/// A blank ends the word in front of it.
pub proof fn blank_ends_word(word: Seq<char>, rest: Seq<char>)
    ensures
        words_from(" "@ + rest, Some(word), false) == seq![word] + words_from(rest, None, false),
{
    reveal_strlit(" ");
    assert((" "@ + rest).skip(1) =~= rest);
}

/// A plain text is read as a word, which what follows may end.
pub proof fn plain_word_begins(s: Seq<char>, rest: Seq<char>)
    requires
        is_plain(s),
    ensures
        words_from(s + rest, None, false) == words_from(rest, Some(s), false),
{
    plain_text_reads_back(s, None, rest);
}

/// A plain text and a blank are read as a word.
pub proof fn plain_word_reads_back(s: Seq<char>, rest: Seq<char>)
    requires
        is_plain(s),
    ensures
        words_from(s + " "@ + rest, None, false) == seq![s] + words_from(rest, None, false),
{
    assert(s + " "@ + rest =~= s + (" "@ + rest));
    plain_word_begins(s, " "@ + rest);
    blank_ends_word(s, rest);
}

/// A plain text behind a word that has begun is read as more of that word.
pub proof fn plain_text_continues_word(word: Seq<char>, s: Seq<char>, rest: Seq<char>)
    requires
        is_plain(s),
    ensures
        words_from(s + rest, Some(word), false) == words_from(rest, Some(word + s), false),
{
    plain_text_reads_back(s, Some(word), rest);
}

/// A quoted text in front of another text is read as the beginning of a word, which is that text.
pub proof fn quoted_text_reads_back(s: Seq<char>, rest: Seq<char>)
    ensures
        words_from(quoted(s) + rest, None, false) == words_from(rest, Some(s), false),
{
    let text = quoted(s) + rest;
    let none = Seq::<char>::empty();
    if s.len() == 0 {
        assert(text.skip(1).skip(1) =~= rest);
        assert(s =~= none);
        assert(words_from(text.skip(1), Some(none), true) == words_from(rest, Some(none), false));
    } else if exists|i: int| 0 <= i < s.len() && is_special(#[trigger] s[i]) {
        assert(text.skip(1) =~= escaped(s) + seq!['"'] + rest);
        escaped_text_reads_back(s, none, rest);
        assert(none + s =~= s);
    } else {
        plain_text_reads_back(s, None, rest);
    }
}

/// The shell reads the word that stands for a text as a single word, which is that text.
pub proof fn quoted_word_reads_back(s: Seq<char>)
    ensures
        shell_words(quoted(s)) == seq![s],
{
    let none = Seq::<char>::empty();
    quoted_text_reads_back(s, none);
    assert(quoted(s) + none =~= quoted(s));
}

} // verus!
