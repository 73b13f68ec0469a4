//! Variable references in runtime options: `$NAME` and `${NAME}`.

use vstd::prelude::*;

use crate::environment::Environment;
use crate::text::{self, first_index, is_alphabetic, is_alphanumeric};

verus! {

/// A character that can start a variable name.
pub open spec fn starts_name(c: char) -> bool {
    is_alphabetic(c) || c == '_'
}

/// A character that can continue a variable name.
pub open spec fn continues_name(c: char) -> bool {
    is_alphanumeric(c) || c == '_'
}

/// A letter or underscore, then letters, digits and underscores.
pub open spec fn is_name(s: Seq<char>) -> bool {
    &&& s.len() > 0
    &&& starts_name(s[0])
    &&& forall|i: int| 0 <= i < s.len() ==> continues_name(#[trigger] s[i])
}

/// How many characters at the front of `s` can stand in a name.
pub open spec fn name_len(s: Seq<char>) -> int
    decreases s.len(),
{
    if s.len() > 0 && continues_name(s[0]) {
        1 + name_len(s.drop_first())
    } else {
        0
    }
}

/// `front` before what `rest` comes to.
pub open spec fn prepend(front: Seq<char>, rest: Result<Seq<char>, Seq<char>>) -> Result<
    Seq<char>,
    Seq<char>,
> {
    match rest {
        Ok(tail) => Ok(front + tail),
        Err(name) => Err(name),
    }
}

/// `s` with its variable references replaced, or the first name that is not
/// set. A `$` that starts no name and a braced text that is no name stand for
/// themselves, and so does a brace that is never closed.
pub open spec fn expanded(s: Seq<char>, vars: Map<Seq<char>, Seq<char>>) -> Result<
    Seq<char>,
    Seq<char>,
>
    decreases s.len(),
{
    if s.len() == 0 {
        Ok(s)
    } else if s[0] != '$' || s.len() == 1 {
        prepend(s.take(1), expanded(s.skip(1), vars))
    } else if s[1] == '{' {
        let body = s.skip(2);
        let end = first_index(body, '}');
        let name = body.take(end);
        if end < 0 || end >= body.len() {
            Ok(s)
        } else if !is_name(name) {
            prepend(s.take(end + 3), expanded(s.skip(end + 3), vars))
        } else if vars.contains_key(name) {
            prepend(vars[name], expanded(s.skip(end + 3), vars))
        } else {
            Err(name)
        }
    } else if starts_name(s[1]) {
        let end = 1 + name_len(s.skip(1));
        let name = s.subrange(1, end);
        if end <= 1 || end > s.len() {
            Ok(s)
        } else if vars.contains_key(name) {
            prepend(vars[name], expanded(s.skip(end), vars))
        } else {
            Err(name)
        }
    } else {
        prepend(s.take(1), expanded(s.skip(1), vars))
    }
}

/// `name_len` stays within bounds and ends where the name does.
pub(crate) proof fn lemma_name_len(s: Seq<char>)
    ensures
        0 <= name_len(s) <= s.len(),
        forall|i: int| 0 <= i < name_len(s) ==> continues_name(#[trigger] s[i]),
        name_len(s) < s.len() ==> !continues_name(s[name_len(s)]),
    decreases s.len(),
{
    if s.len() > 0 && continues_name(s[0]) {
        lemma_name_len(s.drop_first());
        assert forall|i: int| 0 <= i < name_len(s) implies continues_name(#[trigger] s[i]) by {
            if i > 0 {
                assert(s[i] == s.drop_first()[i - 1]);
            }
        }
    }
}

pub(crate) proof fn lemma_name_len_is(s: Seq<char>, n: int)
    requires
        0 <= n <= s.len(),
        forall|i: int| 0 <= i < n ==> continues_name(#[trigger] s[i]),
        n < s.len() ==> !continues_name(s[n]),
    ensures
        name_len(s) == n,
{
    lemma_name_len(s);
    if name_len(s) < n {
        assert(continues_name(s[name_len(s)]));
    } else if n < name_len(s) {
        assert(continues_name(s[n]));
    }
}

fn can_continue(c: char) -> (r: bool)
    ensures
        r == continues_name(c),
{
    text::alphanumeric(c) || c == '_'
}

/// Whether `name` is a letter or underscore, then letters, digits and
/// underscores.
pub fn is_env_name(name: &str) -> (r: bool)
    ensures
        r == is_name(name@),
{
    let chars = text::chars_of(name);
    if chars.len() == 0 || !(text::alphabetic(chars[0]) || chars[0] == '_') {
        return false;
    }
    let mut i: usize = 0;
    while i < chars.len()
        invariant
            i <= chars@.len(),
            chars@ == name@,
            forall|j: int| 0 <= j < i ==> continues_name(#[trigger] chars@[j]),
        decreases chars@.len() - i,
    {
        if !can_continue(chars[i]) {
            return false;
        }
        i = i + 1;
    }
    true
}

/// Position of the first `}` at or after `from`, the length when there is
/// none.
pub(crate) fn find_brace(chars: &Vec<char>, from: usize) -> (at: usize)
    requires
        from <= chars@.len(),
    ensures
        from <= at <= chars@.len(),
        at - from == first_index(chars@.skip(from as int), '}'),
{
    let mut i: usize = from;
    while i < chars.len() && chars[i] != '}'
        invariant
            from <= i <= chars@.len(),
            forall|j: int| from <= j < i ==> chars@[j] != '}',
        decreases chars@.len() - i,
    {
        i = i + 1;
    }
    proof {
        text::lemma_first_index_is(chars@.skip(from as int), '}', i - from);
    }
    i
}

/// End of the name that starts at `from`.
pub(crate) fn find_name_end(chars: &Vec<char>, from: usize) -> (end: usize)
    requires
        from <= chars@.len(),
    ensures
        from <= end <= chars@.len(),
        end - from == name_len(chars@.skip(from as int)),
{
    let mut i: usize = from;
    while i < chars.len() && can_continue(chars[i])
        invariant
            from <= i <= chars@.len(),
            forall|j: int| from <= j < i ==> continues_name(#[trigger] chars@[j]),
        decreases chars@.len() - i,
    {
        i = i + 1;
    }
    proof {
        lemma_name_len_is(chars@.skip(from as int), i - from);
    }
    i
}

/// Append `chars[from..to]` to `out`.
pub(crate) fn push_range(out: &mut String, chars: &Vec<char>, from: usize, to: usize)
    requires
        from <= to <= chars@.len(),
    ensures
        final(out)@ == old(out)@ + chars@.subrange(from as int, to as int),
{
    let part = text::substring(chars, from, to);
    out.append(part.as_str());
}

/// `input` with its variable references replaced by the values in `env`. An
/// unset variable is an error that names it.
pub fn expand_with(input: &str, env: &Environment) -> (r: Result<String, String>)
    ensures
        match expanded(input@, env@) {
            Ok(out) => r is Ok && r->Ok_0@ == out,
            Err(name) => r is Err && r->Err_0@ == name,
        },
{
    let chars = text::chars_of(input);
    let mut out: String = String::new();
    let mut i: usize = 0;
    proof {
        assert(chars@.skip(0) =~= chars@);
        if let Ok(t) = expanded(chars@, env@) {
            assert(Seq::<char>::empty() + t =~= t);
        }
    }
    while i < chars.len()
        invariant
            i <= chars@.len(),
            chars@ == input@,
            prepend(out@, expanded(chars@.skip(i as int), env@)) == expanded(input@, env@),
        decreases chars@.len() - i,
    {
        let ghost s = chars@.skip(i as int);
        let ghost before = out@;
        let ghost start = i as int;
        let ghost mut piece: Seq<char> = Seq::empty();
        if chars[i] == '$' && i + 1 < chars.len() && chars[i + 1] == '{' {
            let end: usize = find_brace(&chars, i + 2);
            proof {
                assert(s.skip(2) =~= chars@.skip(i + 2));
            }
            if end == chars.len() {
                push_range(&mut out, &chars, i, end);
                proof {
                    assert(out@ =~= before + s);
                }
                return Ok(out);
            }
            let name = text::substring(&chars, i + 2, end);
            proof {
                assert(name@ =~= s.skip(2).take(end - (start + 2)));
                assert(s.skip(end - start + 1) =~= chars@.skip(end + 1));
            }
            if is_env_name(name.as_str()) {
                match env.get(name.as_str()) {
                    Some(value) => {
                        out.append(value.as_str());
                        proof {
                            piece = value@;
                        }
                    },
                    None => return Err(name),
                }
            } else {
                push_range(&mut out, &chars, i, end + 1);
                proof {
                    assert(chars@.subrange(start, end + 1) =~= s.take(end - start + 1));
                    piece = s.take(end - start + 1);
                }
            }
            i = end + 1;
        } else if chars[i] == '$' && i + 1 < chars.len() && (text::alphabetic(chars[i + 1])
            || chars[i + 1] == '_') {
            let end: usize = find_name_end(&chars, i + 1);
            let name = text::substring(&chars, i + 1, end);
            proof {
                assert(s.skip(1) =~= chars@.skip(i + 1));
                assert(s.skip(1)[0] == chars@[i + 1]);
                assert(name@ =~= s.subrange(1, end - start));
                assert(s.skip(end - start) =~= chars@.skip(end as int));
                lemma_name_len(s.skip(1));
            }
            match env.get(name.as_str()) {
                Some(value) => {
                    out.append(value.as_str());
                    proof {
                        piece = value@;
                    }
                },
                None => return Err(name),
            }
            i = end;
        } else {
            push_range(&mut out, &chars, i, i + 1);
            proof {
                assert(chars@.subrange(start, start + 1) =~= s.take(1));
                assert(s.skip(1) =~= chars@.skip(start + 1));
                piece = s.take(1);
            }
            i = i + 1;
        }
        proof {
            let rest = expanded(chars@.skip(i as int), env@);
            assert(expanded(s, env@) == prepend(piece, rest));
            if let Ok(t) = rest {
                assert((before + piece) + t =~= before + (piece + t));
            }
        }
    }
    proof {
        assert(chars@.skip(i as int) =~= Seq::<char>::empty());
        assert(out@ + Seq::<char>::empty() =~= out@);
    }
    Ok(out)
}

/// Text without a `$` is left as it is.
pub proof fn law_plain_text_is_unchanged(s: Seq<char>, vars: Map<Seq<char>, Seq<char>>)
    requires
        forall|i: int| 0 <= i < s.len() ==> s[i] != '$',
    ensures
        expanded(s, vars) == Ok::<Seq<char>, Seq<char>>(s),
    decreases s.len(),
{
    if s.len() > 0 {
        let rest = s.skip(1);
        assert forall|i: int| 0 <= i < rest.len() implies rest[i] != '$' by {
            assert(rest[i] == s[i + 1]);
        }
        law_plain_text_is_unchanged(rest, vars);
        assert(s.take(1) + rest =~= s);
    }
}

/// Expansion fails only over a variable that is not set, and names it: the
/// name has the form of a variable name and no value.
pub proof fn law_failure_names_an_unset_variable(
    s: Seq<char>,
    vars: Map<Seq<char>, Seq<char>>,
)
    ensures
        expanded(s, vars) matches Err(name) ==> is_name(name) && !vars.contains_key(name),
    decreases s.len(),
{
    if s.len() > 0 {
        if s[0] != '$' || s.len() == 1 {
            law_failure_names_an_unset_variable(s.skip(1), vars);
        } else if s[1] == '{' {
            let end = first_index(s.skip(2), '}');
            text::lemma_first_index(s.skip(2), '}');
            if end < s.skip(2).len() {
                law_failure_names_an_unset_variable(s.skip(end + 3), vars);
            }
        } else if starts_name(s[1]) {
            lemma_name_len(s.skip(1));
            let end = 1 + name_len(s.skip(1));
            let name = s.subrange(1, end);
            assert(s.skip(1)[0] == s[1]);
            assert forall|i: int| 0 <= i < name.len() implies continues_name(
                #[trigger] name[i],
            ) by {
                assert(name[i] == s.skip(1)[i]);
            }
            if end > 1 {
                law_failure_names_an_unset_variable(s.skip(end), vars);
            }
        } else {
            law_failure_names_an_unset_variable(s.skip(1), vars);
        }
    }
}

/// A variable name is a letter or underscore, then letters, digits and
/// underscores, all of them ASCII.
pub proof fn law_names_by_character(name: Seq<char>)
    ensures
        forall|c: char| #[trigger]
            starts_name(c) <==> 'A' <= c <= 'Z' || 'a' <= c <= 'z' || c == '_',
        forall|c: char| #[trigger]
            continues_name(c) <==> '0' <= c <= '9' || 'A' <= c <= 'Z' || 'a' <= c <= 'z' || c
                == '_',
        is_name(name) <==> name.len() > 0 && !('0' <= name[0] <= '9') && forall|i: int|
            0 <= i < name.len() ==> '0' <= (#[trigger] name[i]) <= '9' || 'A' <= name[i] <= 'Z'
                || 'a' <= name[i] <= 'z' || name[i] == '_',
{
    if is_name(name) {
        assert forall|i: int| 0 <= i < name.len() implies '0' <= (#[trigger] name[i]) <= '9' || 'A'
            <= name[i] <= 'Z' || 'a' <= name[i] <= 'z' || name[i] == '_' by {
            assert(continues_name(name[i]));
        }
    }
}

/// Text before the first `$` is kept, and what follows is expanded for
/// itself.
pub proof fn law_plain_front_is_kept(
    front: Seq<char>,
    rest: Seq<char>,
    vars: Map<Seq<char>, Seq<char>>,
)
    requires
        forall|i: int| 0 <= i < front.len() ==> front[i] != '$',
    ensures
        expanded(front + rest, vars) == match expanded(rest, vars) {
            Ok(out) => Ok::<Seq<char>, Seq<char>>(front + out),
            Err(name) => Err(name),
        },
    decreases front.len(),
{
    let s = front + rest;
    if front.len() == 0 {
        assert(s =~= rest);
        if let Ok(out) = expanded(rest, vars) {
            assert(front + out =~= out);
        }
    } else {
        let less = front.skip(1);
        assert forall|i: int| 0 <= i < less.len() implies less[i] != '$' by {
            assert(less[i] == front[i + 1]);
        }
        law_plain_front_is_kept(less, rest, vars);
        assert(s.skip(1) =~= less + rest);
        assert(s[0] == front[0]);
        if let Ok(out) = expanded(rest, vars) {
            assert(s.take(1) + (less + out) =~= front + out);
        }
    }
}

/// A reference is replaced by its value, and what follows it is expanded for
/// itself: `${NAME}` before anything, `$NAME` before what cannot go on with
/// the name. A name that is not set is the failure.
pub proof fn law_reference_is_replaced(
    name: Seq<char>,
    rest: Seq<char>,
    vars: Map<Seq<char>, Seq<char>>,
)
    requires
        is_name(name),
    ensures
        ({
            let joined = if !vars.contains_key(name) {
                Err::<Seq<char>, Seq<char>>(name)
            } else {
                match expanded(rest, vars) {
                    Ok(out) => Ok(vars[name] + out),
                    Err(other) => Err(other),
                }
            };
            &&& expanded("${"@ + name + "}"@ + rest, vars) == joined
            &&& (rest.len() == 0 || !continues_name(rest[0])) ==> expanded(
                "$"@ + name + rest,
                vars,
            ) == joined
        }),
{
    reveal_strlit("$");
    reveal_strlit("${");
    reveal_strlit("}");
    let n = name.len() as int;
    let braced = "${"@ + name + "}"@ + rest;
    let body = braced.skip(2);
    assert(body =~= name + "}"@ + rest);
    assert forall|j: int| 0 <= j < n implies body[j] != '}' by {
        assert(continues_name(name[j]));
    }
    text::lemma_first_index_is(body, '}', n);
    assert(body.take(n) =~= name);
    assert(braced.skip(n + 3) =~= rest);
    assert(braced[0] == '$' && braced[1] == '{');
    if rest.len() == 0 || !continues_name(rest[0]) {
        let bare = "$"@ + name + rest;
        let tail = bare.skip(1);
        assert(tail =~= name + rest);
        assert forall|i: int| 0 <= i < n implies continues_name(#[trigger] tail[i]) by {
            assert(continues_name(name[i]));
        }
        lemma_name_len_is(tail, n);
        assert(bare.subrange(1, n + 1) =~= name);
        assert(bare.skip(n + 1) =~= rest);
        assert(bare[0] == '$' && bare[1] == name[0]);
        assert(starts_name(name[0]));
        assert(bare[1] != '{');
    }
}

/// Expansion replaces a reference and nothing else: plain text before and
/// after it is kept to the character.
pub proof fn law_expansion_replaces_nothing_else(
    before: Seq<char>,
    name: Seq<char>,
    after: Seq<char>,
    vars: Map<Seq<char>, Seq<char>>,
)
    requires
        is_name(name),
        vars.contains_key(name),
        forall|i: int| 0 <= i < before.len() ==> before[i] != '$',
        forall|i: int| 0 <= i < after.len() ==> after[i] != '$',
    ensures
        expanded(before + "${"@ + name + "}"@ + after, vars) == Ok::<Seq<char>, Seq<char>>(
            before + vars[name] + after,
        ),
        (after.len() == 0 || !continues_name(after[0])) ==> expanded(
            before + "$"@ + name + after,
            vars,
        ) == Ok::<Seq<char>, Seq<char>>(before + vars[name] + after),
{
    law_plain_text_is_unchanged(after, vars);
    law_reference_is_replaced(name, after, vars);
    law_plain_front_is_kept(before, "${"@ + name + "}"@ + after, vars);
    law_plain_front_is_kept(before, "$"@ + name + after, vars);
    assert(before + "${"@ + name + "}"@ + after =~= before + ("${"@ + name + "}"@ + after));
    assert(before + "$"@ + name + after =~= before + ("$"@ + name + after));
    assert(before + (vars[name] + after) =~= before + vars[name] + after);
}

/// What only looks like a reference stands for itself: a `$` at the end or
/// before what starts no name, a braced text that is no name, and a brace
/// that is never closed, with all that follows it.
pub proof fn law_no_reference_stands_for_itself(
    inside: Seq<char>,
    rest: Seq<char>,
    vars: Map<Seq<char>, Seq<char>>,
)
    requires
        forall|i: int| 0 <= i < inside.len() ==> inside[i] != '}',
    ensures
        expanded("$"@, vars) == Ok::<Seq<char>, Seq<char>>("$"@),
        rest.len() > 0 && rest[0] != '{' && !starts_name(rest[0]) ==> expanded("$"@ + rest, vars)
            == match expanded(rest, vars) {
            Ok(out) => Ok::<Seq<char>, Seq<char>>("$"@ + out),
            Err(name) => Err(name),
        },
        !is_name(inside) ==> expanded("${"@ + inside + "}"@ + rest, vars) == match expanded(
            rest,
            vars,
        ) {
            Ok(out) => Ok::<Seq<char>, Seq<char>>("${"@ + inside + "}"@ + out),
            Err(name) => Err(name),
        },
        expanded("${"@ + inside, vars) == Ok::<Seq<char>, Seq<char>>("${"@ + inside),
{
    reveal_strlit("$");
    reveal_strlit("${");
    reveal_strlit("}");
    let lone = "$"@;
    assert(lone.skip(1) =~= Seq::<char>::empty());
    assert(expanded(lone.skip(1), vars) == Ok::<Seq<char>, Seq<char>>(lone.skip(1)));
    assert(lone.take(1) + lone.skip(1) =~= lone);
    let s = "$"@ + rest;
    assert(s.skip(1) =~= rest);
    assert(s.take(1) =~= "$"@);
    let n = inside.len() as int;
    let closed = "${"@ + inside + "}"@ + rest;
    assert(closed.skip(2) =~= inside + "}"@ + rest);
    assert forall|j: int| 0 <= j < n implies closed.skip(2)[j] != '}' by {
        assert(closed.skip(2)[j] == inside[j]);
    }
    text::lemma_first_index_is(closed.skip(2), '}', n);
    assert(closed.skip(2).take(n) =~= inside);
    assert(closed.skip(n + 3) =~= rest);
    assert(closed.take(n + 3) =~= "${"@ + inside + "}"@);
    let open = "${"@ + inside;
    assert(open.skip(2) =~= inside);
    text::lemma_first_index_is(inside, '}', n);
}

} // verus!
