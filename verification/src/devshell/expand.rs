//! Variable references in the run options, where an unset variable stays as
//! it is written.

use vstd::prelude::*;

use crate::ctl::expand::{
    find_brace, find_name_end, lemma_name_len, name_len, push_range, starts_name,
};
use crate::environment::Environment;
use crate::text::{self, first_index};

verus! {

/// The value of `name`, or `written` where it has none.
pub open spec fn value_or(
    vars: Map<Seq<char>, Seq<char>>,
    name: Seq<char>,
    written: Seq<char>,
) -> Seq<char> {
    if vars.contains_key(name) {
        vars[name]
    } else {
        written
    }
}

/// `s` with its references replaced: `$NAME`, and `${..}` with any text up to
/// the brace, or up to the end where there is no brace, as the name. A
/// reference to what is not set stays, a missing brace put in.
pub open spec fn substituted(s: Seq<char>, vars: Map<Seq<char>, Seq<char>>) -> Seq<char>
    decreases s.len(),
{
    if s.len() == 0 {
        s
    } else if s[0] != '$' || s.len() == 1 {
        s.take(1) + substituted(s.skip(1), vars)
    } else if s[1] == '{' {
        let body = s.skip(2);
        let end = first_index(body, '}');
        let name = body.take(end);
        let rest = if 0 <= end < body.len() {
            body.skip(end + 1)
        } else {
            Seq::empty()
        };
        value_or(vars, name, "${"@ + name + "}"@) + substituted(rest, vars)
    } else if starts_name(s[1]) {
        let end = 1 + name_len(s.skip(1));
        let name = s.subrange(1, end);
        let rest = if 1 < end <= s.len() {
            s.skip(end)
        } else {
            Seq::empty()
        };
        value_or(vars, name, "$"@ + name) + substituted(rest, vars)
    } else {
        s.take(1) + substituted(s.skip(1), vars)
    }
}

fn push_value(out: &mut String, env: &Environment, name: &str, written: &str)
    ensures
        final(out)@ == old(out)@ + value_or(env@, name@, written@),
{
    match env.get(name) {
        Some(value) => out.append(value.as_str()),
        None => out.append(written),
    }
}

/// `s` with its variable references replaced by the values in `env`. A
/// reference to an unset variable stays as it is written.
pub fn expand_env(s: &str, env: &Environment) -> (out: String)
    ensures
        out@ == substituted(s@, env@),
{
    let chars = text::chars_of(s);
    let mut out: String = String::new();
    let mut i: usize = 0;
    proof {
        assert(chars@.skip(0) =~= chars@);
        assert(Seq::<char>::empty() + substituted(s@, env@) =~= substituted(s@, env@));
    }
    while i < chars.len()
        invariant
            i <= chars@.len(),
            chars@ == s@,
            out@ + substituted(chars@.skip(i as int), env@) == substituted(s@, env@),
        decreases chars@.len() - i,
    {
        let ghost t = chars@.skip(i as int);
        let ghost before = out@;
        let ghost start = i as int;
        let ghost mut piece: Seq<char> = Seq::empty();
        if chars[i] == '$' && i + 1 < chars.len() && chars[i + 1] == '{' {
            let end: usize = find_brace(&chars, i + 2);
            let name = text::substring(&chars, i + 2, end);
            let mut written = "${".to_owned();
            written.append(name.as_str());
            written.append("}");
            push_value(&mut out, env, name.as_str(), written.as_str());
            proof {
                assert(t.skip(2) =~= chars@.skip(i + 2));
                assert(name@ =~= t.skip(2).take(end - (start + 2)));
                piece = value_or(env@, name@, written@);
            }
            if end < chars.len() {
                proof {
                    assert(t.skip(2).skip(end - start - 1) =~= chars@.skip(end + 1));
                }
                i = end + 1;
            } else {
                proof {
                    assert(chars@.skip(end as int) =~= Seq::<char>::empty());
                }
                i = end;
            }
        } else if chars[i] == '$' && i + 1 < chars.len() && (text::alphabetic(chars[i + 1])
            || chars[i + 1] == '_') {
            let end: usize = find_name_end(&chars, i + 1);
            let name = text::substring(&chars, i + 1, end);
            let mut written = "$".to_owned();
            written.append(name.as_str());
            push_value(&mut out, env, name.as_str(), written.as_str());
            proof {
                assert(t.skip(1) =~= chars@.skip(i + 1));
                assert(t.skip(1)[0] == chars@[i + 1]);
                lemma_name_len(t.skip(1));
                assert(name@ =~= t.subrange(1, end - start));
                assert(t.skip(end - start) =~= chars@.skip(end as int));
                piece = value_or(env@, name@, written@);
            }
            i = end;
        } else {
            push_range(&mut out, &chars, i, i + 1);
            proof {
                assert(chars@.subrange(start, start + 1) =~= t.take(1));
                assert(t.skip(1) =~= chars@.skip(start + 1));
                piece = t.take(1);
            }
            i = i + 1;
        }
        proof {
            let rest = substituted(chars@.skip(i as int), env@);
            assert(substituted(t, env@) == piece + rest);
            assert((before + piece) + rest =~= before + (piece + rest));
        }
    }
    proof {
        assert(chars@.skip(i as int) =~= Seq::<char>::empty());
        assert(out@ + Seq::<char>::empty() =~= out@);
    }
    out
}

/// Text without a `$` is left as it is.
pub proof fn law_option_without_reference_is_unchanged(
    s: Seq<char>,
    vars: Map<Seq<char>, Seq<char>>,
)
    requires
        forall|i: int| 0 <= i < s.len() ==> s[i] != '$',
    ensures
        substituted(s, vars) == s,
    decreases s.len(),
{
    if s.len() > 0 {
        let rest = s.skip(1);
        assert forall|i: int| 0 <= i < rest.len() implies rest[i] != '$' by {
            assert(rest[i] == s[i + 1]);
        }
        law_option_without_reference_is_unchanged(rest, vars);
        assert(s.take(1) + rest =~= s);
    }
}

/// Every brace opened by a reference is closed.
pub open spec fn braces_close(s: Seq<char>) -> bool
    decreases s.len(),
{
    if s.len() == 0 {
        true
    } else if s.len() > 1 && s[0] == '$' && s[1] == '{' {
        let body = s.skip(2);
        let end = first_index(body, '}');
        0 <= end < body.len() && braces_close(body.skip(end + 1))
    } else {
        braces_close(s.skip(1))
    }
}

/// Dropping letters that are no `$` from the front keeps the braces.
proof fn lemma_braces_after_name(s: Seq<char>, n: int)
    requires
        braces_close(s),
        0 <= n <= s.len(),
        forall|i: int| 0 <= i < n ==> s[i] != '$',
    ensures
        braces_close(s.skip(n)),
    decreases n,
{
    if n == 0 {
        assert(s.skip(0) =~= s);
    } else {
        let rest = s.skip(1);
        assert forall|i: int| 0 <= i < n - 1 implies rest[i] != '$' by {
            assert(rest[i] == s[i + 1]);
        }
        assert(s[0] != '$');
        lemma_braces_after_name(rest, n - 1);
        assert(rest.skip(n - 1) =~= s.skip(n));
    }
}

/// `s` holds a reference to `name`.
pub open spec fn refers_to(s: Seq<char>, name: Seq<char>) -> bool
    decreases s.len(),
{
    if s.len() < 2 {
        false
    } else if s[0] == '$' && s[1] == '{' {
        let body = s.skip(2);
        let end = first_index(body, '}');
        name == body.take(end) || (0 <= end < body.len() && refers_to(body.skip(end + 1), name))
    } else if s[0] == '$' && starts_name(s[1]) {
        let end = 1 + name_len(s.skip(1));
        name == s.subrange(1, end) || (1 < end <= s.len() && refers_to(s.skip(end), name))
    } else {
        refers_to(s.skip(1), name)
    }
}

/// Where no name that is referred to is set, every reference stays as it is
/// written.
pub proof fn law_unset_references_stay(s: Seq<char>, vars: Map<Seq<char>, Seq<char>>)
    requires
        braces_close(s),
        forall|name: Seq<char>| #[trigger] refers_to(s, name) ==> !vars.contains_key(name),
    ensures
        substituted(s, vars) == s,
    decreases s.len(),
{
    if s.len() > 0 {
        if s[0] != '$' || s.len() == 1 {
            assert forall|name: Seq<char>| #[trigger] refers_to(s.skip(1), name) implies
                !vars.contains_key(name) by {
                assert(refers_to(s, name));
            }
            law_unset_references_stay(s.skip(1), vars);
            assert(s.take(1) + s.skip(1) =~= s);
        } else if s[1] == '{' {
            let body = s.skip(2);
            let end = first_index(body, '}');
            text::lemma_first_index(body, '}');
            assert forall|name: Seq<char>| #[trigger]
                refers_to(body.skip(end + 1), name) implies !vars.contains_key(name) by {
                assert(refers_to(s, name));
            }
            assert(refers_to(s, body.take(end)));
            law_unset_references_stay(body.skip(end + 1), vars);
            let name = body.take(end);
            reveal_strlit("${");
            reveal_strlit("}");
            assert("${"@ + name + "}"@ + body.skip(end + 1) =~= s);
        } else if starts_name(s[1]) {
            let tail = s.skip(1);
            lemma_name_len(tail);
            let end = 1 + name_len(tail);
            assert(tail[0] == s[1]);
            assert(end > 1);
            assert(braces_close(tail));
            assert forall|i: int| 0 <= i < end - 1 implies tail[i] != '$' by {
                assert(crate::ctl::expand::continues_name(tail[i]));
            }
            lemma_braces_after_name(tail, end - 1);
            assert(tail.skip(end - 1) =~= s.skip(end));
            assert forall|name: Seq<char>| #[trigger] refers_to(s.skip(end), name) implies
                !vars.contains_key(name) by {
                assert(refers_to(s, name));
            }
            assert(refers_to(s, s.subrange(1, end)));
            law_unset_references_stay(s.skip(end), vars);
            reveal_strlit("$");
            assert("$"@ + s.subrange(1, end) + s.skip(end) =~= s);
        } else {
            assert forall|name: Seq<char>| #[trigger] refers_to(s.skip(1), name) implies
                !vars.contains_key(name) by {
                assert(refers_to(s, name));
            }
            law_unset_references_stay(s.skip(1), vars);
            assert(s.take(1) + s.skip(1) =~= s);
        }
    }
}

/// Text before the first `$` is kept, and what follows is replaced for
/// itself.
pub proof fn law_plain_front_is_kept(
    front: Seq<char>,
    rest: Seq<char>,
    vars: Map<Seq<char>, Seq<char>>,
)
    requires
        forall|i: int| 0 <= i < front.len() ==> front[i] != '$',
    ensures
        substituted(front + rest, vars) == front + substituted(rest, vars),
    decreases front.len(),
{
    let s = front + rest;
    if front.len() == 0 {
        assert(s =~= rest);
        assert(front + substituted(rest, vars) =~= substituted(rest, vars));
    } else {
        let less = front.skip(1);
        assert forall|i: int| 0 <= i < less.len() implies less[i] != '$' by {
            assert(less[i] == front[i + 1]);
        }
        law_plain_front_is_kept(less, rest, vars);
        assert(s.skip(1) =~= less + rest);
        assert(s[0] == front[0]);
        assert(s.take(1) + (less + substituted(rest, vars)) =~= front + substituted(rest, vars));
    }
}

/// A reference to a variable that is set is replaced by its value, one to a
/// variable that is not stays as it is written, and what follows is replaced
/// for itself: `${..}` with any text in the braces, `$NAME` before what
/// cannot go on with the name.
pub proof fn law_reference_is_replaced(
    name: Seq<char>,
    rest: Seq<char>,
    vars: Map<Seq<char>, Seq<char>>,
)
    requires
        forall|i: int| 0 <= i < name.len() ==> name[i] != '}',
    ensures
        substituted("${"@ + name + "}"@ + rest, vars) == (if vars.contains_key(name) {
            vars[name]
        } else {
            "${"@ + name + "}"@
        }) + substituted(rest, vars),
        substituted("${"@ + name, vars) == if vars.contains_key(name) {
            vars[name]
        } else {
            "${"@ + name + "}"@
        },
        crate::ctl::expand::is_name(name) && (rest.len() == 0
            || !crate::ctl::expand::continues_name(rest[0])) ==> substituted(
            "$"@ + name + rest,
            vars,
        ) == (if vars.contains_key(name) {
            vars[name]
        } else {
            "$"@ + name
        }) + substituted(rest, vars),
{
    reveal_strlit("$");
    reveal_strlit("${");
    reveal_strlit("}");
    let n = name.len() as int;
    let none = Seq::<char>::empty();
    let braced = "${"@ + name + "}"@ + rest;
    let body = braced.skip(2);
    assert(body =~= name + "}"@ + rest);
    assert forall|j: int| 0 <= j < n implies body[j] != '}' by {
        assert(body[j] == name[j]);
    }
    text::lemma_first_index_is(body, '}', n);
    assert(body.take(n) =~= name);
    assert(body.skip(n + 1) =~= rest);
    let open = "${"@ + name;
    assert(open.skip(2) =~= name);
    text::lemma_first_index_is(name, '}', n);
    assert(name.take(n) =~= name);
    assert(substituted(none, vars) =~= none);
    let value = value_or(vars, name, "${"@ + name + "}"@);
    assert(value + none =~= value);
    if crate::ctl::expand::is_name(name) && (rest.len() == 0
        || !crate::ctl::expand::continues_name(rest[0])) {
        let bare = "$"@ + name + rest;
        let tail = bare.skip(1);
        assert(tail =~= name + rest);
        assert forall|i: int| 0 <= i < n implies crate::ctl::expand::continues_name(
            #[trigger] tail[i],
        ) by {
            assert(crate::ctl::expand::continues_name(name[i]));
        }
        crate::ctl::expand::lemma_name_len_is(tail, n);
        assert(bare.subrange(1, n + 1) =~= name);
        assert(bare.skip(n + 1) =~= rest);
        assert(bare[1] == name[0]);
        assert(starts_name(name[0]));
        assert(bare[1] != '{');
    }
}

/// A `$` at the end, or before what starts neither a name nor a brace,
/// stands for itself.
pub proof fn law_lone_dollar_stands_for_itself(rest: Seq<char>, vars: Map<Seq<char>, Seq<char>>)
    requires
        rest.len() > 0 ==> rest[0] != '{' && !starts_name(rest[0]),
    ensures
        substituted("$"@ + rest, vars) == "$"@ + substituted(rest, vars),
{
    reveal_strlit("$");
    let s = "$"@ + rest;
    assert(s.skip(1) =~= rest);
    assert(s.take(1) =~= "$"@);
}

} // verus!
