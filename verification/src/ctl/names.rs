//! Project-name derivation from the project root's basename.

use vstd::prelude::*;

use crate::text::{self, is_alphanumeric};

verus! {

/// The ASCII letters and digits of `s`, a single `-` between two that were
/// not next to each other.
pub open spec fn slug(s: Seq<char>) -> Seq<char>
    decreases s.len(),
{
    if s.len() == 0 {
        Seq::empty()
    } else {
        let before = slug(s.drop_last());
        if !is_alphanumeric(s.last()) {
            before
        } else if before.len() > 0 && !is_alphanumeric(s[s.len() - 2]) {
            before.push('-').push(s.last())
        } else {
            before.push(s.last())
        }
    }
}

/// The slug of `basename`, empty where no character survives.
pub fn make_slug(basename: &str) -> (name: Vec<char>)
    ensures
        name@ == slug(basename@),
{
    let chars = text::chars_of(basename);
    let mut name: Vec<char> = Vec::new();
    let mut run: bool = false;
    let mut i: usize = 0;
    while i < chars.len()
        invariant
            i <= chars@.len(),
            name@ == slug(chars@.take(i as int)),
            run == (i > 0 && !is_alphanumeric(chars@[i - 1])),
        decreases chars@.len() - i,
    {
        let c = chars[i];
        proof {
            let t = chars@.take(i + 1);
            assert(t.drop_last() =~= chars@.take(i as int));
            assert(t.last() == c);
            if i > 0 {
                assert(t[t.len() - 2] == chars@[i - 1]);
            }
        }
        if text::alphanumeric(c) {
            if run && name.len() > 0 {
                name.push('-');
            }
            name.push(c);
            run = false;
        } else {
            run = true;
        }
        i = i + 1;
    }
    proof {
        assert(chars@.take(chars@.len() as int) =~= chars@);
    }
    name
}

/// Sanitize a basename into a project name: every non-ASCII-alphanumeric
/// character joins the surrounding run into a single `-`, leading and
/// trailing `-` are stripped. `None` when nothing survives.
pub fn sanitize(basename: &str) -> (r: Option<String>)
    ensures
        match r {
            Some(name) => name@ == slug(basename@) && name@.len() > 0,
            None => slug(basename@).len() == 0,
        },
{
    let name = make_slug(basename);
    if name.len() == 0 {
        None
    } else {
        Some(text::string_of(&name))
    }
}

/// A name of letters and digits, with single dashes inside.
pub open spec fn is_clean(s: Seq<char>) -> bool {
    &&& forall|i: int| 0 <= i < s.len() ==> is_alphanumeric(#[trigger] s[i]) || s[i] == '-'
    &&& s.len() > 0 ==> is_alphanumeric(s[0]) && is_alphanumeric(s.last())
    &&& forall|i: int|
        0 < i < s.len() && #[trigger] s[i] == '-' ==> is_alphanumeric(s[i - 1])
}

/// A project name holds ASCII letters and digits, with single dashes inside
/// and none at the edges.
pub proof fn law_project_name_is_clean(basename: Seq<char>)
    ensures
        is_clean(slug(basename)),
    decreases basename.len(),
{
    if basename.len() > 0 {
        let s = basename;
        law_project_name_is_clean(s.drop_last());
        let before = slug(s.drop_last());
        let name = slug(s);
        assert forall|i: int| 0 <= i < name.len() implies is_alphanumeric(#[trigger] name[i])
            || name[i] == '-' by {
            if i < before.len() {
                assert(name[i] == before[i]);
            }
        }
        assert forall|i: int|
            0 < i < name.len() && #[trigger] name[i] == '-' implies is_alphanumeric(
            name[i - 1],
        ) by {
            if i < before.len() {
                assert(name[i] == before[i]);
                assert(name[i - 1] == before[i - 1]);
            } else if i == before.len() {
                assert(name[i - 1] == before.last());
            }
        }
        if before.len() > 0 {
            assert(name[0] == before[0]);
        }
    }
}

/// The slug of the first `n` characters of a clean name.
proof fn lemma_clean_prefix(s: Seq<char>, n: int)
    requires
        is_clean(s),
        0 <= n <= s.len(),
    ensures
        slug(s.take(n)) == if n > 0 && s[n - 1] == '-' {
            s.take(n - 1)
        } else {
            s.take(n)
        },
    decreases n,
{
    if n > 0 {
        lemma_clean_prefix(s, n - 1);
        let t = s.take(n);
        assert(t.drop_last() =~= s.take(n - 1));
        assert(is_alphanumeric(s[n - 1]) || s[n - 1] == '-');
        if s[n - 1] != '-' && n > 1 && s[n - 2] == '-' {
            assert(n - 2 > 0);
            assert(s.take(n - 2).push('-').push(s[n - 1]) =~= s.take(n));
        } else if s[n - 1] != '-' {
            assert(s.take(n - 1).push(s[n - 1]) =~= s.take(n));
        } else {
            assert(is_alphanumeric(s[n - 2]));
        }
    } else {
        assert(s.take(0) =~= Seq::<char>::empty());
    }
}

/// A clean name passes through unchanged, so that deriving a name twice
/// gives the same as deriving it once.
pub proof fn law_clean_name_passes_through(name: Seq<char>, basename: Seq<char>)
    ensures
        is_clean(name) ==> slug(name) == name,
        slug(slug(basename)) == slug(basename),
{
    if is_clean(name) {
        lemma_clean_prefix(name, name.len() as int);
        assert(name.take(name.len() as int) =~= name);
    }
    let s = slug(basename);
    law_project_name_is_clean(basename);
    lemma_clean_prefix(s, s.len() as int);
    assert(s.take(s.len() as int) =~= s);
}

/// Letters and digits alone are the name as they are.
pub proof fn law_letters_and_digits_stay(word: Seq<char>)
    requires
        forall|i: int| 0 <= i < word.len() ==> is_alphanumeric(#[trigger] word[i]),
    ensures
        slug(word) == word,
    decreases word.len(),
{
    if word.len() > 0 {
        let front = word.drop_last();
        assert forall|i: int| 0 <= i < front.len() implies is_alphanumeric(
            #[trigger] front[i],
        ) by {
            assert(is_alphanumeric(word[i]));
        }
        law_letters_and_digits_stay(front);
        assert(is_alphanumeric(word[word.len() - 1]));
        if word.len() > 1 {
            assert(is_alphanumeric(word[word.len() - 2]));
        }
        assert(front.push(word.last()) =~= word);
    } else {
        assert(slug(word) =~= word);
    }
}

/// A run of other characters becomes one dash between the names of what it
/// parts, and nothing where there is nothing on one side.
pub proof fn law_other_characters_become_one_dash(a: Seq<char>, other: Seq<char>, b: Seq<char>)
    requires
        other.len() > 0,
        forall|i: int| 0 <= i < other.len() ==> !is_alphanumeric(#[trigger] other[i]),
    ensures
        slug(a + other + b) == if slug(a).len() == 0 {
            slug(b)
        } else if slug(b).len() == 0 {
            slug(a)
        } else {
            slug(a) + seq!['-'] + slug(b)
        },
    decreases b.len(), other.len(),
{
    let s = a + other + b;
    let none = Seq::<char>::empty();
    if b.len() == 0 {
        assert(s =~= a + other);
        assert(s.last() == other[other.len() - 1]);
        assert(slug(b) =~= none);
        if other.len() == 1 {
            assert(s.drop_last() =~= a);
        } else {
            let less = other.drop_last();
            assert forall|i: int| 0 <= i < less.len() implies !is_alphanumeric(
                #[trigger] less[i],
            ) by {
                assert(!is_alphanumeric(other[i]));
            }
            law_other_characters_become_one_dash(a, less, b);
            assert(s.drop_last() =~= a + less + b);
        }
        if slug(a).len() == 0 {
            assert(slug(a) =~= none);
        }
    } else {
        let less = b.drop_last();
        law_other_characters_become_one_dash(a, other, less);
        assert(s.drop_last() =~= a + other + less);
        assert(s.last() == b.last());
        if is_alphanumeric(b.last()) {
            if b.len() > 1 {
                assert(s[s.len() - 2] == b[b.len() - 2]);
                assert(less.last() == b[b.len() - 2]);
            } else {
                assert(s[s.len() - 2] == other[other.len() - 1]);
                assert(slug(less) =~= none);
            }
            if slug(less).len() == 0 {
                assert(slug(less) =~= none);
                assert(!is_alphanumeric(s[s.len() - 2]));
                assert(slug(b) =~= seq![b.last()]);
            }
            assert(slug(s) =~= if slug(a).len() == 0 {
                slug(b)
            } else {
                slug(a) + seq!['-'] + slug(b)
            });
        }
    }
}

} // verus!
