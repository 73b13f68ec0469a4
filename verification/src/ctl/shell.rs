//! Shell quoting for bash commands that the control side renders as strings:
//! the server launch command, the interactive shell, and the export script.

use vstd::prelude::*;

use crate::text::{self, replaced_char};

verus! {

/// `value` with each `'` written as `'\''`.
pub open spec fn escaped(value: Seq<char>) -> Seq<char> {
    replaced_char(value, '\'', "'\\''"@)
}

/// Single-quote-escape a value so it is safe inside single-quoted bash text:
/// each `'` becomes `'\''`, closing and reopening the quotes around it.
pub fn shell_escape(value: &str) -> (out: String)
    ensures
        out@ == escaped(value@),
{
    text::replace_char(value, '\'', "'\\''")
}

/// A bash reader of one word made of quoted and escaped parts: its state and
/// what it read so far.
pub struct Reading {
    /// Between single quotes.
    pub quoted: bool,
    /// Right after a backslash outside quotes.
    pub escape: bool,
    /// A blank or other character that would end the word came up.
    pub broken: bool,
    /// The word so far.
    pub word: Seq<char>,
}

/// One more character of the word: between single quotes everything but the
/// closing quote stands for itself, outside them only a quote or a
/// backslashed character continues the word.
pub open spec fn read_char(r: Reading, c: char) -> Reading {
    if r.broken {
        r
    } else if r.quoted {
        if c == '\'' {
            Reading { quoted: false, ..r }
        } else {
            Reading { word: r.word.push(c), ..r }
        }
    } else if r.escape {
        Reading { escape: false, word: r.word.push(c), ..r }
    } else if c == '\'' {
        Reading { quoted: true, ..r }
    } else if c == '\\' {
        Reading { escape: true, ..r }
    } else {
        Reading { broken: true, ..r }
    }
}

/// All of `s`, character by character.
pub open spec fn read_all(r: Reading, s: Seq<char>) -> Reading
    decreases s.len(),
{
    if s.len() == 0 {
        r
    } else {
        read_char(read_all(r, s.drop_last()), s.last())
    }
}

/// The reader at the start of a word.
pub open spec fn start() -> Reading {
    Reading { quoted: false, escape: false, broken: false, word: Seq::empty() }
}

proof fn lemma_read_all_concat(r: Reading, a: Seq<char>, b: Seq<char>)
    ensures
        read_all(r, a + b) == read_all(read_all(r, a), b),
    decreases b.len(),
{
    if b.len() == 0 {
        assert(a + b =~= a);
    } else {
        lemma_read_all_concat(r, a, b.drop_last());
        assert((a + b).drop_last() =~= a + b.drop_last());
        assert((a + b).last() == b.last());
    }
}

/// Inside single quotes, escaped text reads as the text.
proof fn lemma_reads_escaped(value: Seq<char>, word: Seq<char>)
    ensures
        read_all(
            Reading { quoted: true, escape: false, broken: false, word },
            escaped(value),
        ) == (Reading { quoted: true, escape: false, broken: false, word: word + value }),
    decreases value.len(),
{
    let r = Reading { quoted: true, escape: false, broken: false, word };
    if value.len() == 0 {
        assert(word + value =~= word);
    } else {
        let before = value.drop_last();
        lemma_reads_escaped(before, word);
        if value.last() == '\'' {
            reveal_strlit("'\\''");
            let q = "'\\''"@;
            assert(q =~= seq!['\'', '\\', '\'', '\'']);
            lemma_read_all_concat(r, escaped(before), q);
            let mid = read_all(r, escaped(before));
            assert(q.drop_last() =~= seq!['\'', '\\', '\'']);
            assert(q.drop_last().drop_last() =~= seq!['\'', '\\']);
            assert(q.drop_last().drop_last().drop_last() =~= seq!['\'']);
            assert(q.drop_last().drop_last().drop_last().drop_last() =~= Seq::<char>::empty());
            reveal_with_fuel(read_all, 5);
            assert(read_all(mid, q).word =~= word + value);
        } else {
            assert(escaped(value).drop_last() =~= escaped(before));
            assert((word + before).push(value.last()) =~= word + value);
        }
    }
}

/// Bash reads an escaped value between single quotes as one word: the value
/// itself, whatever characters it holds.
pub proof fn law_quoted_value_reads_back(value: Seq<char>)
    ensures
        read_all(start(), "'"@ + escaped(value) + "'"@) == (Reading {
            quoted: false,
            escape: false,
            broken: false,
            word: value,
        }),
{
    reveal_strlit("'");
    let quote = "'"@;
    assert(quote =~= seq!['\'']);
    assert(quote.drop_last() =~= Seq::<char>::empty());
    lemma_read_all_concat(start(), quote + escaped(value), quote);
    lemma_read_all_concat(start(), quote, escaped(value));
    reveal_with_fuel(read_all, 2);
    lemma_reads_escaped(value, Seq::empty());
    assert(Seq::<char>::empty() + value =~= value);
}

/// Escaping goes character by character: a quote is closed, written with a
/// backslash and opened again, and any other character stays.
pub proof fn law_only_quotes_are_escaped(value: Seq<char>, c: char)
    ensures
        escaped(Seq::empty()) == Seq::<char>::empty(),
        c == '\'' ==> escaped(value.push(c)) == escaped(value) + seq!['\'', '\\', '\'', '\''],
        c != '\'' ==> escaped(value.push(c)) == escaped(value).push(c),
{
    reveal_strlit("'\\''");
    assert("'\\''"@ =~= seq!['\'', '\\', '\'', '\'']);
    assert(value.push(c).drop_last() =~= value);
}

} // verus!
