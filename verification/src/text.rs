//! Text as sequences of characters: the few string operations the rest of
//! the crate is built from, each with its exact meaning.

use vstd::prelude::*;

verus! {

/// `String::push` appends the given character to the end of the string.
pub assume_specification[ String::push ](s: &mut String, ch: char)
    ensures
        final(s)@ == old(s)@.push(ch),
;

/// The characters of `s`, in order.
pub fn chars_of(s: &str) -> (out: Vec<char>)
    ensures
        out@ == s@,
{
    let mut out: Vec<char> = Vec::new();
    for c in iter: s.chars()
        invariant
            iter.seq() == s@,
            out@ == s@.take(iter.index() as int),
    {
        out.push(c);
        proof {
            let i = iter.index() as int;
            assert(s@.take(i + 1) =~= s@.take(i).push(s@[i]));
        }
    }
    proof {
        assert(s@.take(s@.len() as int) =~= s@);
    }
    out
}

/// The string made of the characters `chars[from..to]`.
pub fn substring(chars: &Vec<char>, from: usize, to: usize) -> (out: String)
    requires
        from <= to <= chars@.len(),
    ensures
        out@ == chars@.subrange(from as int, to as int),
{
    let mut out: String = String::new();
    let mut i: usize = from;
    while i < to
        invariant
            from <= i <= to <= chars@.len(),
            out@ == chars@.subrange(from as int, i as int),
        decreases to - i,
    {
        out.push(chars[i]);
        i = i + 1;
        proof {
            assert(chars@.subrange(from as int, i as int) =~= chars@.subrange(
                from as int,
                i - 1,
            ).push(chars@[i - 1]));
        }
    }
    out
}

/// The string made of all of `chars`.
pub fn string_of(chars: &Vec<char>) -> (out: String)
    ensures
        out@ == chars@,
{
    let out = substring(chars, 0, chars.len());
    proof {
        assert(chars@.subrange(0, chars@.len() as int) =~= chars@);
    }
    out
}

/// Whether `a` and `b` hold the same characters.
pub fn same(a: &str, b: &str) -> (r: bool)
    ensures
        r == (a@ == b@),
{
    a.to_owned() == b.to_owned()
}

// ---------------------------------------------------------------------------
// Character classes
// ---------------------------------------------------------------------------

/// `A` to `Z` and `a` to `z`.
pub open spec fn is_alphabetic(c: char) -> bool {
    ('A' <= c && c <= 'Z') || ('a' <= c && c <= 'z')
}

/// `0` to `9`.
pub open spec fn is_digit(c: char) -> bool {
    '0' <= c && c <= '9'
}

/// ASCII letters and digits.
pub open spec fn is_alphanumeric(c: char) -> bool {
    is_alphabetic(c) || is_digit(c)
}

/// The characters with the Unicode `White_Space` property.
pub open spec fn is_space(c: char) -> bool {
    ||| ('\u{9}' <= c && c <= '\u{d}')
    ||| c == ' '
    ||| c == '\u{85}'
    ||| c == '\u{a0}'
    ||| c == '\u{1680}'
    ||| ('\u{2000}' <= c && c <= '\u{200a}')
    ||| c == '\u{2028}'
    ||| c == '\u{2029}'
    ||| c == '\u{202f}'
    ||| c == '\u{205f}'
    ||| c == '\u{3000}'
}

/// Whether `c` is an ASCII letter.
pub fn alphabetic(c: char) -> (r: bool)
    ensures
        r == is_alphabetic(c),
{
    ('A' <= c && c <= 'Z') || ('a' <= c && c <= 'z')
}

/// Whether `c` is an ASCII digit.
pub fn digit(c: char) -> (r: bool)
    ensures
        r == is_digit(c),
{
    '0' <= c && c <= '9'
}

/// Whether `c` is an ASCII letter or digit.
pub fn alphanumeric(c: char) -> (r: bool)
    ensures
        r == is_alphanumeric(c),
{
    alphabetic(c) || digit(c)
}

/// Whether `c` is white space.
pub fn space(c: char) -> (r: bool)
    ensures
        r == is_space(c),
{
    ('\u{9}' <= c && c <= '\u{d}') || c == ' ' || c == '\u{85}' || c == '\u{a0}' || c == '\u{1680}'
        || ('\u{2000}' <= c && c <= '\u{200a}') || c == '\u{2028}' || c == '\u{2029}' || c
        == '\u{202f}' || c == '\u{205f}' || c == '\u{3000}'
}

// ---------------------------------------------------------------------------
// Prefixes, suffixes, searching
// ---------------------------------------------------------------------------

/// `s` begins with `p`.
pub open spec fn has_prefix(s: Seq<char>, p: Seq<char>) -> bool {
    p.len() <= s.len() && s.subrange(0, p.len() as int) == p
}

/// `s` ends with `p`.
pub open spec fn has_suffix(s: Seq<char>, p: Seq<char>) -> bool {
    p.len() <= s.len() && s.subrange(s.len() - p.len(), s.len() as int) == p
}

/// `needle` stands in `s` at position `at`.
pub open spec fn occurs_at(s: Seq<char>, needle: Seq<char>, at: int) -> bool {
    0 <= at && at + needle.len() <= s.len() && s.subrange(at, at + needle.len()) == needle
}

/// `needle` stands somewhere in `s`.
pub open spec fn occurs(s: Seq<char>, needle: Seq<char>) -> bool {
    exists|at: int| #[trigger] occurs_at(s, needle, at)
}

/// Whether `needle` stands in `chars` at position `at`.
pub fn stands_at(chars: &Vec<char>, needle: &Vec<char>, at: usize) -> (r: bool)
    ensures
        r == occurs_at(chars@, needle@, at as int),
{
    if needle.len() > chars.len() || at > chars.len() - needle.len() {
        return false;
    }
    let mut i: usize = 0;
    while i < needle.len()
        invariant
            i <= needle.len(),
            at + needle.len() <= chars.len(),
            forall|j: int| 0 <= j < i ==> chars@[at + j] == #[trigger] needle@[j],
        decreases needle@.len() - i,
    {
        if chars[at + i] != needle[i] {
            proof {
                assert(chars@.subrange(at as int, at + needle@.len())[i as int] != needle@[i as int]);
            }
            return false;
        }
        i = i + 1;
    }
    proof {
        assert(chars@.subrange(at as int, at + needle@.len()) =~= needle@);
    }
    true
}

/// Whether `chars` begins with `p`.
pub fn starts_with(chars: &Vec<char>, p: &Vec<char>) -> (r: bool)
    ensures
        r == has_prefix(chars@, p@),
{
    stands_at(chars, p, 0)
}

/// Whether `needle` stands somewhere in `chars`.
pub fn contains(chars: &Vec<char>, needle: &Vec<char>) -> (r: bool)
    ensures
        r == occurs(chars@, needle@),
{
    if needle.len() > chars.len() {
        return false;
    }
    let last: usize = chars.len() - needle.len();
    let mut i: usize = 0;
    while i < last
        invariant
            i <= last,
            last == chars@.len() - needle@.len(),
            forall|j: int| 0 <= j < i ==> !(#[trigger] occurs_at(chars@, needle@, j)),
        decreases last - i,
    {
        if stands_at(chars, needle, i) {
            return true;
        }
        i = i + 1;
    }
    stands_at(chars, needle, last)
}

/// Position of the first `c` in `s`, the length of `s` when there is none.
pub open spec fn first_index(s: Seq<char>, c: char) -> int
    decreases s.len(),
{
    if s.len() == 0 || s[0] == c {
        0
    } else {
        1 + first_index(s.drop_first(), c)
    }
}

/// `first_index` is within bounds, finds `c`, and nothing before it is `c`.
pub proof fn lemma_first_index(s: Seq<char>, c: char)
    ensures
        0 <= first_index(s, c) <= s.len(),
        first_index(s, c) < s.len() ==> s[first_index(s, c)] == c,
        forall|j: int| 0 <= j < first_index(s, c) ==> s[j] != c,
    decreases s.len(),
{
    if s.len() > 0 && s[0] != c {
        lemma_first_index(s.drop_first(), c);
        assert forall|j: int| 0 <= j < first_index(s, c) implies s[j] != c by {
            if j > 0 {
                assert(s[j] == s.drop_first()[j - 1]);
            }
        }
    }
}

/// A position that holds `c` with no `c` before it is the first one.
pub proof fn lemma_first_index_is(s: Seq<char>, c: char, i: int)
    requires
        0 <= i <= s.len(),
        i < s.len() ==> s[i] == c,
        forall|j: int| 0 <= j < i ==> s[j] != c,
    ensures
        first_index(s, c) == i,
{
    lemma_first_index(s, c);
}

/// Position of the first `c` in `chars`, its length when there is none.
pub fn find(chars: &Vec<char>, c: char) -> (at: usize)
    ensures
        at as int == first_index(chars@, c),
{
    let mut i: usize = 0;
    while i < chars.len() && chars[i] != c
        invariant
            i <= chars@.len(),
            forall|j: int| 0 <= j < i ==> chars@[j] != c,
        decreases chars@.len() - i,
    {
        i = i + 1;
    }
    proof {
        lemma_first_index_is(chars@, c, i as int);
    }
    i
}

// ---------------------------------------------------------------------------
// Trimming and splitting
// ---------------------------------------------------------------------------

/// `s` without its leading white space.
pub open spec fn trim_start(s: Seq<char>) -> Seq<char>
    decreases s.len(),
{
    if s.len() > 0 && is_space(s[0]) {
        trim_start(s.drop_first())
    } else {
        s
    }
}

/// `s` without its trailing white space.
pub open spec fn trim_end(s: Seq<char>) -> Seq<char>
    decreases s.len(),
{
    if s.len() > 0 && is_space(s.last()) {
        trim_end(s.drop_last())
    } else {
        s
    }
}

/// `s` without leading and trailing white space.
pub open spec fn trimmed(s: Seq<char>) -> Seq<char> {
    trim_end(trim_start(s))
}

/// `s` without its trailing line feeds and carriage returns.
pub open spec fn trim_newlines(s: Seq<char>) -> Seq<char>
    decreases s.len(),
{
    if s.len() > 0 && (s.last() == '\n' || s.last() == '\r') {
        trim_newlines(s.drop_last())
    } else {
        s
    }
}

/// `text` without leading and trailing white space.
pub fn trim(text: &str) -> (out: String)
    ensures
        out@ == trimmed(text@),
{
    let chars = chars_of(text);
    let mut from: usize = 0;
    proof {
        assert(chars@.subrange(0, chars@.len() as int) =~= chars@);
    }
    while from < chars.len() && space(chars[from])
        invariant
            from <= chars@.len(),
            trim_start(chars@) == trim_start(chars@.subrange(from as int, chars@.len() as int)),
        decreases chars@.len() - from,
    {
        proof {
            assert(chars@.subrange(from as int, chars@.len() as int).drop_first()
                =~= chars@.subrange(from + 1, chars@.len() as int));
        }
        from = from + 1;
    }
    let ghost rest = chars@.subrange(from as int, chars@.len() as int);
    proof {
        assert(trim_start(chars@) == rest);
    }
    let mut to: usize = chars.len();
    while to > from && space(chars[to - 1])
        invariant
            from <= to <= chars@.len(),
            rest == chars@.subrange(from as int, chars@.len() as int),
            trim_end(rest) == trim_end(chars@.subrange(from as int, to as int)),
        decreases to,
    {
        proof {
            assert(chars@.subrange(from as int, to as int).drop_last() =~= chars@.subrange(
                from as int,
                to - 1,
            ));
        }
        to = to - 1;
    }
    substring(&chars, from, to)
}

/// `text` without its trailing line feeds and carriage returns.
pub fn strip_newlines(text: &str) -> (out: String)
    ensures
        out@ == trim_newlines(text@),
{
    let chars = chars_of(text);
    let mut to: usize = chars.len();
    proof {
        assert(chars@.subrange(0, chars@.len() as int) =~= chars@);
    }
    while to > 0 && (chars[to - 1] == '\n' || chars[to - 1] == '\r')
        invariant
            to <= chars@.len(),
            trim_newlines(chars@) == trim_newlines(chars@.subrange(0, to as int)),
        decreases to,
    {
        proof {
            assert(chars@.subrange(0, to as int).drop_last() =~= chars@.subrange(0, to - 1));
        }
        to = to - 1;
    }
    substring(&chars, 0, to)
}

/// The maximal runs of `s` that hold no white space, in order.
pub open spec fn words(s: Seq<char>) -> Seq<Seq<char>>
    decreases s.len(),
{
    if s.len() == 0 {
        Seq::empty()
    } else if is_space(s.last()) {
        words(s.drop_last())
    } else {
        let before = words(s.drop_last());
        if s.len() == 1 || is_space(s[s.len() - 2]) {
            before.push(seq![s.last()])
        } else {
            before.drop_last().push(before.last().push(s.last()))
        }
    }
}

/// The characters of each of `texts`.
pub open spec fn views(texts: Seq<String>) -> Seq<Seq<char>> {
    texts.map_values(|t: String| t@)
}

/// Append a copy of `item`.
pub fn push_text(list: &mut Vec<String>, item: &str)
    ensures
        views(final(list)@) == views(old(list)@).push(item@),
{
    let ghost before = list@;
    list.push(item.to_owned());
    proof {
        assert(views(list@) =~= views(before).push(item@));
    }
}

/// The same texts in the same order.
pub fn copy_texts(texts: &Vec<String>) -> (copy: Vec<String>)
    ensures
        views(copy@) == views(texts@),
{
    let mut copy: Vec<String> = Vec::new();
    let mut i: usize = 0;
    while i < texts.len()
        invariant
            i <= texts@.len(),
            copy@.len() == i,
            forall|j: int| 0 <= j < i ==> (#[trigger] copy@[j])@ == texts@[j]@,
        decreases texts@.len() - i,
    {
        copy.push(texts[i].clone());
        i = i + 1;
    }
    proof {
        assert(views(copy@) =~= views(texts@));
    }
    copy
}

/// The words of `text`.
pub fn split_words(text: &str) -> (out: Vec<String>)
    ensures
        views(out@) == words(text@),
{
    let chars = chars_of(text);
    let mut out: Vec<String> = Vec::new();
    let mut word: String = String::new();
    let mut open: bool = false;
    let mut i: usize = 0;
    proof {
        assert(views(out@) =~= words(chars@.take(0)));
    }
    while i < chars.len()
        invariant
            i <= chars@.len(),
            open ==> i > 0 && !is_space(chars@[i - 1]),
            !open ==> i == 0 || is_space(chars@[i - 1]),
            !open ==> views(out@) == words(chars@.take(i as int)),
            open ==> views(out@).push(word@) == words(chars@.take(i as int)),
        decreases chars@.len() - i,
    {
        let c = chars[i];
        proof {
            let t = chars@.take(i + 1);
            assert(t.drop_last() =~= chars@.take(i as int));
            assert(t.last() == c);
            if i > 0 {
                assert(t[t.len() - 2] == chars@[i - 1]);
            }
        }
        if space(c) {
            if open {
                let ghost before = out@;
                out.push(word);
                proof {
                    assert(views(out@) =~= views(before).push(word@));
                }
                word = String::new();
                open = false;
            }
        } else {
            if !open {
                word = String::new();
                open = true;
                word.push(c);
                proof {
                    assert(word@ =~= seq![c]);
                }
            } else {
                let ghost before = word@;
                word.push(c);
                proof {
                    let w = words(chars@.take(i as int));
                    assert(w == views(out@).push(before));
                    assert(w.drop_last() =~= views(out@));
                }
            }
        }
        i = i + 1;
    }
    proof {
        assert(chars@.take(chars@.len() as int) =~= chars@);
    }
    if open {
        let ghost before = out@;
        out.push(word);
        proof {
            assert(views(out@) =~= views(before).push(word@));
        }
    }
    out
}

// ---------------------------------------------------------------------------
// Mapping and replacing
// ---------------------------------------------------------------------------

/// ASCII upper case letters become lower case, everything else stays.
pub open spec fn lower(c: char) -> char {
    if 'A' <= c && c <= 'Z' {
        (c as u32 + 32) as char
    } else {
        c
    }
}

/// `s` with every character in ASCII lower case.
pub open spec fn lowered(s: Seq<char>) -> Seq<char> {
    s.map_values(|c: char| lower(c))
}

/// `text` in ASCII lower case.
pub fn to_lower(text: &str) -> (out: Vec<char>)
    ensures
        out@ == lowered(text@),
{
    let chars = chars_of(text);
    let mut out: Vec<char> = Vec::new();
    let mut i: usize = 0;
    while i < chars.len()
        invariant
            i <= chars@.len(),
            out@ == lowered(chars@.take(i as int)),
        decreases chars@.len() - i,
    {
        let c = chars[i];
        if 'A' <= c && c <= 'Z' {
            out.push((c as u8 + 32) as char);
        } else {
            out.push(c);
        }
        i = i + 1;
        proof {
            assert(out@ =~= lowered(chars@.take(i as int)));
        }
    }
    proof {
        assert(chars@.take(chars@.len() as int) =~= chars@);
    }
    out
}

/// `s` with every `c` written as `with`.
pub open spec fn replaced_char(s: Seq<char>, c: char, with: Seq<char>) -> Seq<char>
    decreases s.len(),
{
    if s.len() == 0 {
        Seq::empty()
    } else if s.last() == c {
        replaced_char(s.drop_last(), c, with) + with
    } else {
        replaced_char(s.drop_last(), c, with).push(s.last())
    }
}

/// `text` with every `c` written as `with`.
pub fn replace_char(text: &str, c: char, with: &str) -> (out: String)
    ensures
        out@ == replaced_char(text@, c, with@),
{
    let chars = chars_of(text);
    let mut out: String = String::new();
    let mut i: usize = 0;
    while i < chars.len()
        invariant
            i <= chars@.len(),
            out@ == replaced_char(chars@.take(i as int), c, with@),
        decreases chars@.len() - i,
    {
        proof {
            let t = chars@.take(i + 1);
            assert(t.drop_last() =~= chars@.take(i as int));
        }
        if chars[i] == c {
            out.append(with);
        } else {
            out.push(chars[i]);
        }
        i = i + 1;
    }
    proof {
        assert(chars@.take(chars@.len() as int) =~= chars@);
    }
    out
}

/// `s` with the occurrences of `needle` written as `with`, found from the
/// left and not overlapping.
pub open spec fn replaced(s: Seq<char>, needle: Seq<char>, with: Seq<char>) -> Seq<char>
    decreases s.len(),
{
    if s.len() == 0 || needle.len() == 0 {
        s
    } else if has_prefix(s, needle) {
        with + replaced(s.subrange(needle.len() as int, s.len() as int), needle, with)
    } else {
        seq![s[0]] + replaced(s.drop_first(), needle, with)
    }
}

/// `text` with the occurrences of `needle` written as `with`.
pub fn replace(text: &str, needle: &str, with: &str) -> (out: String)
    requires
        needle@.len() > 0,
    ensures
        out@ == replaced(text@, needle@, with@),
{
    let chars = chars_of(text);
    let pattern = chars_of(needle);
    let mut out: String = String::new();
    let mut i: usize = 0;
    proof {
        assert(chars@.subrange(0, chars@.len() as int) =~= chars@);
    }
    while i < chars.len()
        invariant
            i <= chars@.len(),
            pattern@ == needle@,
            pattern.len() > 0,
            out@ + replaced(
                chars@.subrange(i as int, chars@.len() as int),
                needle@,
                with@,
            ) == replaced(chars@, needle@, with@),
        decreases chars@.len() - i,
    {
        let ghost rest = chars@.subrange(i as int, chars@.len() as int);
        let ghost before = out@;
        if stands_at(&chars, &pattern, i) {
            proof {
                assert(rest.subrange(0, needle@.len() as int) =~= chars@.subrange(
                    i as int,
                    i + needle@.len(),
                ));
                assert(rest.subrange(needle@.len() as int, rest.len() as int) =~= chars@.subrange(
                    i + needle@.len(),
                    chars@.len() as int,
                ));
            }
            out.append(with);
            i = i + pattern.len();
        } else {
            proof {
                if has_prefix(rest, needle@) {
                    assert(rest.subrange(0, needle@.len() as int) =~= chars@.subrange(
                        i as int,
                        i + needle@.len(),
                    ));
                }
                assert(rest.drop_first() =~= chars@.subrange(i + 1, chars@.len() as int));
            }
            out.push(chars[i]);
            i = i + 1;
        }
        proof {
            let tail = replaced(
                chars@.subrange(i as int, chars@.len() as int),
                needle@,
                with@,
            );
            assert(out@ + tail =~= before + replaced(rest, needle@, with@));
        }
    }
    proof {
        assert(out@ + Seq::<char>::empty() =~= out@);
    }
    out
}

// ---------------------------------------------------------------------------
// What the operations mean
// ---------------------------------------------------------------------------

/// The character classes by code point.
pub proof fn law_classes_by_code_point(c: char)
    ensures
        is_alphabetic(c) <==> 0x41 <= c as u32 <= 0x5a || 0x61 <= c as u32 <= 0x7a,
        is_digit(c) <==> 0x30 <= c as u32 <= 0x39,
        is_alphanumeric(c) <==> 0x30 <= c as u32 <= 0x39 || 0x41 <= c as u32 <= 0x5a || 0x61
            <= c as u32 <= 0x7a,
        is_space(c) <==> seq![
            0x9u32,
            0xau32,
            0xbu32,
            0xcu32,
            0xdu32,
            0x20u32,
            0x85u32,
            0xa0u32,
            0x1680u32,
            0x2000u32,
            0x2001u32,
            0x2002u32,
            0x2003u32,
            0x2004u32,
            0x2005u32,
            0x2006u32,
            0x2007u32,
            0x2008u32,
            0x2009u32,
            0x200au32,
            0x2028u32,
            0x2029u32,
            0x202fu32,
            0x205fu32,
            0x3000u32,
        ].contains(c as u32),
{
    let all = seq![
        0x9u32,
        0xau32,
        0xbu32,
        0xcu32,
        0xdu32,
        0x20u32,
        0x85u32,
        0xa0u32,
        0x1680u32,
        0x2000u32,
        0x2001u32,
        0x2002u32,
        0x2003u32,
        0x2004u32,
        0x2005u32,
        0x2006u32,
        0x2007u32,
        0x2008u32,
        0x2009u32,
        0x200au32,
        0x2028u32,
        0x2029u32,
        0x202fu32,
        0x205fu32,
        0x3000u32,
    ];
    assert(all[0] == 0x9 && all[1] == 0xa && all[2] == 0xb && all[3] == 0xc && all[4] == 0xd);
    assert(all[5] == 0x20 && all[6] == 0x85 && all[7] == 0xa0 && all[8] == 0x1680);
    assert(all[9] == 0x2000 && all[10] == 0x2001 && all[11] == 0x2002 && all[12] == 0x2003);
    assert(all[13] == 0x2004 && all[14] == 0x2005 && all[15] == 0x2006 && all[16] == 0x2007);
    assert(all[17] == 0x2008 && all[18] == 0x2009 && all[19] == 0x200a && all[20] == 0x2028);
    assert(all[21] == 0x2029 && all[22] == 0x202f && all[23] == 0x205f && all[24] == 0x3000);
}

/// A prefix is what some text can be put behind, a suffix what some text can
/// be put before, and an occurrence stands between two texts.
pub proof fn law_occurrence_splits_the_text(a: Seq<char>, needle: Seq<char>, b: Seq<char>)
    ensures
        has_prefix(needle + b, needle),
        has_suffix(a + needle, needle),
        occurs(a + needle + b, needle),
        has_prefix(a, needle) ==> a == needle + a.skip(needle.len() as int),
        has_suffix(a, needle) ==> a == a.take(a.len() - needle.len()) + needle,
        occurs(a, needle) ==> exists|i: int|
            0 <= i <= a.len() - needle.len() && a == #[trigger] a.take(i) + needle + a.skip(
                i + needle.len(),
            ),
{
    assert((needle + b).subrange(0, needle.len() as int) =~= needle);
    assert((a + needle).subrange(a.len() as int, (a + needle).len() as int) =~= needle);
    let whole = a + needle + b;
    assert(whole.subrange(a.len() as int, a.len() as int + needle.len()) =~= needle);
    assert(occurs_at(whole, needle, a.len() as int));
    if has_prefix(a, needle) {
        assert(a =~= needle + a.skip(needle.len() as int));
    }
    if has_suffix(a, needle) {
        assert(a =~= a.take(a.len() - needle.len()) + needle);
    }
    if occurs(a, needle) {
        let i = choose|i: int| #[trigger] occurs_at(a, needle, i);
        assert(a =~= a.take(i) + needle + a.skip(i + needle.len()));
    }
}

proof fn lemma_trim_start(front: Seq<char>, rest: Seq<char>)
    requires
        forall|i: int| 0 <= i < front.len() ==> is_space(#[trigger] front[i]),
        rest.len() > 0 ==> !is_space(rest[0]),
    ensures
        trim_start(front + rest) == rest,
    decreases front.len(),
{
    let s = front + rest;
    if front.len() > 0 {
        assert(is_space(front[0]));
        assert(s.drop_first() =~= front.drop_first() + rest);
        assert forall|i: int| 0 <= i < front.drop_first().len() implies is_space(
            #[trigger] front.drop_first()[i],
        ) by {
            assert(is_space(front[i + 1]));
        }
        lemma_trim_start(front.drop_first(), rest);
    } else {
        assert(s =~= rest);
    }
}

proof fn lemma_trim_end(rest: Seq<char>, back: Seq<char>)
    requires
        forall|i: int| 0 <= i < back.len() ==> is_space(#[trigger] back[i]),
        rest.len() > 0 ==> !is_space(rest.last()),
    ensures
        trim_end(rest + back) == rest,
    decreases back.len(),
{
    let s = rest + back;
    if back.len() > 0 {
        assert(is_space(back[back.len() - 1]));
        assert(s.drop_last() =~= rest + back.drop_last());
        assert forall|i: int| 0 <= i < back.drop_last().len() implies is_space(
            #[trigger] back.drop_last()[i],
        ) by {
            assert(is_space(back[i]));
        }
        lemma_trim_end(rest, back.drop_last());
    } else {
        assert(s =~= rest);
    }
}

/// Trimming takes the white space at both ends and nothing else: what stands
/// between a first and a last character that are none stays as it is.
pub proof fn law_trim_keeps_the_middle(front: Seq<char>, middle: Seq<char>, back: Seq<char>)
    requires
        forall|i: int| 0 <= i < front.len() ==> is_space(#[trigger] front[i]),
        forall|i: int| 0 <= i < back.len() ==> is_space(#[trigger] back[i]),
        middle.len() > 0 ==> !is_space(middle[0]) && !is_space(middle.last()),
    ensures
        trimmed(front + middle + back) == middle,
{
    if middle.len() > 0 {
        assert((middle + back)[0] == middle[0]);
        lemma_trim_start(front, middle + back);
        assert(front + (middle + back) =~= front + middle + back);
        lemma_trim_end(middle, back);
    } else {
        let all = front + back;
        assert(front + middle + back =~= all + middle);
        lemma_trim_start(all, middle);
        assert(trim_end(middle) =~= middle);
    }
}

/// Only the line ends behind the last other character are taken.
pub proof fn law_only_trailing_line_ends_go(body: Seq<char>, ends: Seq<char>)
    requires
        body.len() > 0 ==> body.last() != '\n' && body.last() != '\r',
        forall|i: int| 0 <= i < ends.len() ==> (#[trigger] ends[i]) == '\n' || ends[i] == '\r',
    ensures
        trim_newlines(body + ends) == body,
    decreases ends.len(),
{
    let s = body + ends;
    if ends.len() > 0 {
        assert(s.last() == ends[ends.len() - 1]);
        assert(s.drop_last() =~= body + ends.drop_last());
        assert forall|i: int| 0 <= i < ends.drop_last().len() implies (
        #[trigger] ends.drop_last()[i]) == '\n' || ends.drop_last()[i] == '\r' by {
            assert(ends[i] == '\n' || ends[i] == '\r');
        }
        law_only_trailing_line_ends_go(body, ends.drop_last());
    } else {
        assert(s =~= body);
    }
}

/// A text without white space is one word, an empty one none.
pub proof fn law_unbroken_text_is_one_word(word: Seq<char>)
    requires
        forall|i: int| 0 <= i < word.len() ==> !is_space(#[trigger] word[i]),
    ensures
        word.len() > 0 ==> words(word) == seq![word],
        word.len() == 0 ==> words(word) == Seq::<Seq<char>>::empty(),
    decreases word.len(),
{
    if word.len() > 0 {
        let front = word.drop_last();
        assert(!is_space(word[word.len() - 1]));
        assert forall|i: int| 0 <= i < front.len() implies !is_space(#[trigger] front[i]) by {
            assert(!is_space(word[i]));
        }
        law_unbroken_text_is_one_word(front);
        if word.len() == 1 {
            assert(words(front) =~= Seq::empty());
            assert(words(word) =~= seq![word]) by {
                assert(seq![word.last()] =~= word);
            }
        } else {
            assert(!is_space(word[word.len() - 2]));
            assert(words(front).drop_last() =~= Seq::empty());
            assert(words(front).last() == front);
            assert(front.push(word.last()) =~= word);
            assert(words(word) =~= seq![word]);
        }
    }
}

/// White space parts words and holds none: the words of a text are those
/// before a white space, then those behind it.
pub proof fn law_white_space_parts_words(a: Seq<char>, c: char, b: Seq<char>)
    requires
        is_space(c),
    ensures
        words(a + seq![c] + b) == words(a) + words(b),
    decreases b.len(),
{
    let front = a + seq![c];
    let s = front + b;
    if b.len() == 0 {
        assert(s =~= front);
        assert(front.last() == c);
        assert(front.drop_last() =~= a);
        assert(words(b) =~= Seq::empty());
        assert(words(s) =~= words(a) + words(b));
    } else {
        let less = b.drop_last();
        assert(s.drop_last() =~= front + less);
        assert(s.last() == b.last());
        law_white_space_parts_words(a, c, less);
        if is_space(b.last()) {
        } else if b.len() == 1 {
            assert(s[s.len() - 2] == c);
            assert(words(less) =~= Seq::empty());
            assert(words(s) =~= words(a) + words(b));
        } else {
            assert(s[s.len() - 2] == b[b.len() - 2]);
            if !is_space(b[b.len() - 2]) {
                lemma_open_word(less);
                assert((words(a) + words(less)).drop_last() =~= words(a) + words(
                    less,
                ).drop_last());
            }
            assert(words(s) =~= words(a) + words(b));
        }
    }
}

/// A text that does not end in white space ends in a word.
proof fn lemma_open_word(s: Seq<char>)
    requires
        s.len() > 0,
        !is_space(s.last()),
    ensures
        words(s).len() > 0,
{
}

/// Lower case moves the letters `A` to `Z` to `a` to `z`, in order, and
/// leaves every other character where it is.
pub proof fn law_lower_case_by_position(s: Seq<char>)
    ensures
        lowered(s).len() == s.len(),
        forall|i: int|
            0 <= i < s.len() ==> (#[trigger] lowered(s)[i]) as u32 == if 'A' <= s[i] && s[i]
                <= 'Z' {
                s[i] as u32 - 'A' as u32 + 'a' as u32
            } else {
                s[i] as int
            },
{
}

/// Replacing a character works piece by piece: a lone one gives what is put
/// in, any other stays, and two texts joined give their results joined.
pub proof fn law_character_is_replaced_everywhere(
    a: Seq<char>,
    b: Seq<char>,
    c: char,
    other: char,
    with: Seq<char>,
)
    requires
        other != c,
    ensures
        replaced_char(a + b, c, with) == replaced_char(a, c, with) + replaced_char(b, c, with),
        replaced_char(seq![c], c, with) == with,
        replaced_char(seq![other], c, with) == seq![other],
    decreases b.len(),
{
    let none = Seq::<char>::empty();
    assert(seq![c].drop_last() =~= none);
    assert(seq![other].drop_last() =~= none);
    assert(none + with =~= with);
    assert(none.push(other) =~= seq![other]);
    assert(replaced_char(none, c, with) =~= none);
    assert(seq![c].last() == c && seq![other].last() == other);
    assert(replaced_char(seq![c], c, with) == replaced_char(none, c, with) + with);
    assert(replaced_char(seq![other], c, with) == replaced_char(none, c, with).push(other));
    if b.len() == 0 {
        assert(a + b =~= a);
        assert(replaced_char(b, c, with) =~= none);
        assert(replaced_char(a, c, with) + none =~= replaced_char(a, c, with));
    } else {
        law_character_is_replaced_everywhere(a, b.drop_last(), c, other, with);
        assert((a + b).drop_last() =~= a + b.drop_last());
        assert(replaced_char(a + b, c, with) =~= replaced_char(a, c, with) + replaced_char(
            b,
            c,
            with,
        ));
    }
}

/// Replacing a text leaves what does not hold it, and puts `with` in the
/// place of the first occurrence, with what stands before it kept and what
/// stands behind it treated the same way.
pub proof fn law_first_occurrence_is_replaced(
    before: Seq<char>,
    needle: Seq<char>,
    after: Seq<char>,
    with: Seq<char>,
)
    requires
        needle.len() > 0,
    ensures
        (forall|i: int|
            0 <= i <= before.len() - needle.len() ==> #[trigger] before.subrange(
                i,
                i + needle.len(),
            ) != needle) ==> replaced(before, needle, with) == before,
        (forall|i: int|
            0 <= i < before.len() ==> #[trigger] (before + needle).subrange(i, i + needle.len())
                != needle) ==> replaced(before + needle + after, needle, with) == before + with
            + replaced(after, needle, with),
    decreases before.len(),
{
    let n = needle.len() as int;
    let whole = before + needle + after;
    if before.len() == 0 {
        assert(whole =~= needle + after);
        assert(whole.subrange(0, n) =~= needle);
        assert(whole.subrange(n, whole.len() as int) =~= after);
        assert(before + with =~= with);
    } else {
        let rest = before.drop_first();
        law_first_occurrence_is_replaced(rest, needle, after, with);
        if forall|i: int|
            0 <= i <= before.len() - n ==> #[trigger] before.subrange(i, i + n) != needle {
            assert forall|i: int| 0 <= i <= rest.len() - n implies #[trigger] rest.subrange(
                i,
                i + n,
            ) != needle by {
                assert(rest.subrange(i, i + n) =~= before.subrange(i + 1, i + 1 + n));
            }
            if n <= before.len() {
                assert(before.subrange(0, 0 + n) != needle);
            }
            assert(seq![before[0]] + rest =~= before);
        }
        if forall|i: int|
            0 <= i < before.len() ==> #[trigger] (before + needle).subrange(i, i + n) != needle {
            assert forall|i: int| 0 <= i < rest.len() implies #[trigger] (rest
                + needle).subrange(i, i + n) != needle by {
                assert((rest + needle).subrange(i, i + n) =~= (before + needle).subrange(
                    i + 1,
                    i + 1 + n,
                ));
            }
            assert((before + needle).subrange(0, 0 + n) != needle);
            assert(whole.subrange(0, n) =~= (before + needle).subrange(0, 0 + n));
            assert(whole.drop_first() =~= rest + needle + after);
            assert(seq![before[0]] + (rest + with + replaced(after, needle, with)) =~= before
                + with + replaced(after, needle, with));
        }
    }
}

/// The characters of a list of texts are those of each, in order.
pub proof fn law_views_keep_every_text(texts: Seq<String>)
    ensures
        views(texts).len() == texts.len(),
        forall|i: int| 0 <= i < texts.len() ==> #[trigger] views(texts)[i] == texts[i]@,
{
}

} // verus!
