//! Unix paths as text: joining, and taking apart by `/`.

use vstd::prelude::*;

use crate::text;

verus! {

/// `path` starts at the root.
pub open spec fn is_absolute(path: Seq<char>) -> bool {
    path.len() > 0 && path[0] == '/'
}

/// `base` with `path` below it: an absolute `path` stands alone, and a
/// separator is added where `base` does not end in one.
pub open spec fn join_spec(base: Seq<char>, path: Seq<char>) -> Seq<char> {
    if is_absolute(path) {
        path
    } else if base.len() == 0 || base.last() == '/' {
        base + path
    } else {
        base.push('/') + path
    }
}

/// `base` with `path` below it.
pub fn join(base: &str, path: &str) -> (out: String)
    ensures
        out@ == join_spec(base@, path@),
{
    let tail = text::chars_of(path);
    if tail.len() > 0 && tail[0] == '/' {
        return path.to_owned();
    }
    let head = text::chars_of(base);
    let mut out = base.to_owned();
    if head.len() > 0 && head[head.len() - 1] != '/' {
        out.push('/');
    }
    out.append(path);
    out
}

/// How much of `path` stands before its first component that can be dropped:
/// the root, or a leading `.` component.
pub open spec fn lead(path: Seq<char>) -> int {
    if path.len() > 0 && (path[0] == '/' || (path[0] == '.' && (path.len() == 1 || path[1]
        == '/'))) {
        1
    } else {
        0
    }
}

/// The longest prefix of `path`, at most `end` long, that does not end in a
/// separator or in a `.` component. The lead stays.
pub open spec fn settle(path: Seq<char>, end: int) -> int
    decreases end,
{
    if end <= lead(path) {
        lead(path)
    } else if path[end - 1] == '/' {
        settle(path, end - 1)
    } else if path[end - 1] == '.' && (end - 1 == lead(path) || path[end - 2] == '/') {
        settle(path, end - 1)
    } else {
        end
    }
}

/// Where the component that ends at `end` starts.
pub open spec fn component_start(path: Seq<char>, end: int) -> int
    decreases end,
{
    if end <= lead(path) {
        lead(path)
    } else if path[end - 1] == '/' {
        end
    } else {
        component_start(path, end - 1)
    }
}

/// The directory that `path` stands in: `None` for the root and for the
/// empty path.
pub open spec fn parent_spec(path: Seq<char>) -> Option<Seq<char>> {
    let end = settle(path, path.len() as int);
    if end > lead(path) {
        Some(path.take(settle(path, component_start(path, end))))
    } else if path.len() > 0 && path[0] == '.' {
        // A lone `.` component stands in the empty path.
        Some(Seq::empty())
    } else {
        None
    }
}

/// The last component of `path`: `None` where it is the root, `.`, `..` or
/// nothing.
pub open spec fn file_name_spec(path: Seq<char>) -> Option<Seq<char>> {
    let end = settle(path, path.len() as int);
    let start = component_start(path, end);
    if end <= lead(path) || path.subrange(start, end) == ".."@ {
        None
    } else {
        Some(path.subrange(start, end))
    }
}

/// Some component of `path` is `..`.
pub open spec fn has_parent_component(path: Seq<char>) -> bool {
    exists|i: int| #[trigger] parent_component_at(path, i)
}

/// The component of `path` that starts at `i` is `..`.
pub open spec fn parent_component_at(path: Seq<char>, i: int) -> bool {
    &&& 0 <= i
    &&& i + 2 <= path.len()
    &&& path[i] == '.'
    &&& path[i + 1] == '.'
    &&& i == 0 || path[i - 1] == '/'
    &&& i + 2 == path.len() || path[i + 2] == '/'
}

/// `settle` and `component_start` stay within the path.
proof fn lemma_bounds(path: Seq<char>, end: int)
    requires
        0 <= end <= path.len(),
    ensures
        lead(path) <= path.len(),
        lead(path) <= settle(path, end) <= path.len(),
        settle(path, end) <= end || settle(path, end) == lead(path),
        lead(path) <= component_start(path, end) <= path.len(),
        component_start(path, end) <= end || component_start(path, end) == lead(path),
    decreases end,
{
    if end > lead(path) {
        lemma_bounds(path, end - 1);
    }
}

fn lead_of(chars: &Vec<char>) -> (n: usize)
    ensures
        n as int == lead(chars@),
{
    if chars.len() > 0 && (chars[0] == '/' || (chars[0] == '.' && (chars.len() == 1 || chars[1]
        == '/'))) {
        1
    } else {
        0
    }
}

fn settle_at(chars: &Vec<char>, end: usize) -> (n: usize)
    requires
        end <= chars@.len(),
    ensures
        n as int == settle(chars@, end as int),
{
    let first: usize = lead_of(chars);
    let mut n: usize = end;
    while n > first && (chars[n - 1] == '/' || (chars[n - 1] == '.' && (n - 1 == first || chars[n
        - 2] == '/')))
        invariant
            first as int == lead(chars@),
            n <= end <= chars@.len(),
            settle(chars@, n as int) == settle(chars@, end as int),
        decreases n,
    {
        n = n - 1;
    }
    if n < first {
        first
    } else {
        n
    }
}

fn start_of(chars: &Vec<char>, end: usize) -> (n: usize)
    requires
        end <= chars@.len(),
    ensures
        n as int == component_start(chars@, end as int),
{
    let first: usize = lead_of(chars);
    let mut n: usize = end;
    while n > first && chars[n - 1] != '/'
        invariant
            first as int == lead(chars@),
            n <= end <= chars@.len(),
            component_start(chars@, n as int) == component_start(chars@, end as int),
        decreases n,
    {
        n = n - 1;
    }
    if n < first {
        first
    } else {
        n
    }
}

/// The directory that `path` stands in.
pub fn parent(path: &str) -> (r: Option<String>)
    ensures
        match parent_spec(path@) {
            Some(dir) => r is Some && r->0@ == dir,
            None => r is None,
        },
{
    let chars = text::chars_of(path);
    proof {
        lemma_bounds(chars@, chars@.len() as int);
        lemma_bounds(chars@, settle(chars@, chars@.len() as int));
        lemma_bounds(
            chars@,
            component_start(chars@, settle(chars@, chars@.len() as int)),
        );
    }
    let end: usize = settle_at(&chars, chars.len());
    if end > lead_of(&chars) {
        let cut: usize = settle_at(&chars, start_of(&chars, end));
        let dir = text::substring(&chars, 0, cut);
        proof {
            assert(dir@ =~= path@.take(cut as int));
        }
        Some(dir)
    } else if chars.len() > 0 && chars[0] == '.' {
        Some(String::new())
    } else {
        None
    }
}

/// The last component of `path`.
pub fn file_name(path: &str) -> (r: Option<String>)
    ensures
        match file_name_spec(path@) {
            Some(name) => r is Some && r->0@ == name,
            None => r is None,
        },
{
    let chars = text::chars_of(path);
    proof {
        lemma_bounds(chars@, chars@.len() as int);
        lemma_bounds(chars@, settle(chars@, chars@.len() as int));
    }
    let end: usize = settle_at(&chars, chars.len());
    if end <= lead_of(&chars) {
        return None;
    }
    let start: usize = start_of(&chars, end);
    let name = text::substring(&chars, start, end);
    if text::same(name.as_str(), "..") {
        None
    } else {
        Some(name)
    }
}

/// Whether `path` starts at the root.
pub fn absolute(path: &str) -> (r: bool)
    ensures
        r == is_absolute(path@),
{
    let chars = text::chars_of(path);
    chars.len() > 0 && chars[0] == '/'
}

/// Whether some component of `path` is `..`.
pub fn climbs(path: &str) -> (r: bool)
    ensures
        r == has_parent_component(path@),
{
    let chars = text::chars_of(path);
    let mut i: usize = 0;
    while i < chars.len()
        invariant
            i <= chars@.len(),
            chars@ == path@,
            forall|j: int| 0 <= j < i ==> !(#[trigger] parent_component_at(path@, j)),
        decreases chars@.len() - i,
    {
        let rest: usize = chars.len() - i;
        if rest >= 2 && chars[i] == '.' && chars[i + 1] == '.' && (i == 0 || chars[i - 1] == '/')
            && (rest == 2 || chars[i + 2] == '/') {
            proof {
                assert(parent_component_at(path@, i as int));
            }
            return true;
        }
        i = i + 1;
    }
    false
}

/// Joining: an absolute path stands alone, and a relative one comes behind
/// the base with exactly one slash between them, unless the base is empty or
/// brings more of its own.
pub proof fn law_join_puts_one_slash(base: Seq<char>, path: Seq<char>)
    requires
        path.len() > 0 ==> path[0] != '/',
    ensures
        join_spec(base, seq!['/'] + path) == seq!['/'] + path,
        join_spec(Seq::empty(), path) == path,
        join_spec(base + seq!['/'], path) == base + seq!['/'] + path,
        base.len() > 0 && base.last() != '/' ==> join_spec(base, path) == base + seq!['/'] + path,
{
    assert(Seq::<char>::empty() + path =~= path);
    assert((base + seq!['/']).last() == '/');
    assert(base.push('/') =~= base + seq!['/']);
}

/// A component: some text without a slash that is neither `.` nor `..`.
pub open spec fn is_component(name: Seq<char>) -> bool {
    &&& name.len() > 0
    &&& forall|i: int| 0 <= i < name.len() ==> name[i] != '/'
    &&& name != seq!['.']
    &&& name != seq!['.', '.']
}

/// A directory that ends in a component: not in a slash, and not in a `.` of
/// its own.
pub open spec fn ends_in_component(dir: Seq<char>) -> bool {
    &&& dir.len() > 0
    &&& dir.last() != '/'
    &&& !(dir.last() == '.' && (dir.len() == 1 || dir[dir.len() - 2] == '/'))
}

proof fn lemma_start_skips_name(path: Seq<char>, start: int, end: int)
    requires
        lead(path) <= start <= end <= path.len(),
        start > lead(path) ==> path[start - 1] == '/',
        forall|i: int| start <= i < end ==> path[i] != '/',
    ensures
        component_start(path, end) == start,
    decreases end,
{
    if end > start {
        lemma_start_skips_name(path, start, end - 1);
    }
}

/// The last component of a path is the name that was put there, with or
/// without a slash behind it, and the rest is the directory.
pub proof fn law_path_comes_apart_as_it_was_joined(dir: Seq<char>, name: Seq<char>)
    requires
        ends_in_component(dir),
        is_component(name),
    ensures
        file_name_spec(dir + seq!['/'] + name) == Some(name),
        file_name_spec(dir + seq!['/'] + name + seq!['/']) == Some(name),
        parent_spec(dir + seq!['/'] + name) == Some(dir),
        parent_spec(dir + seq!['/'] + name + seq!['/']) == Some(dir),
        file_name_spec(seq!['/'] + name) == Some(name),
        parent_spec(seq!['/'] + name) == Some(seq!['/']),
        file_name_spec(name) == Some(name),
        parent_spec(name) == Some(Seq::<char>::empty()),
        parent_spec(seq!['/']) is None,
        file_name_spec(seq!['/']) is None,
        parent_spec(Seq::empty()) is None,
        file_name_spec(Seq::empty()) is None,
{
    reveal_strlit("..");
    assert(".."@ =~= seq!['.', '.']);
    if name.len() == 1 {
        assert(name =~= seq![name[0]]);
        assert(name[0] != '.');
    }
    if name.len() == 2 {
        assert(name =~= seq![name[0], name[1]]);
    }
    let m = dir.len() as int;
    let n = name.len() as int;
    // Below a directory.
    let path = dir + seq!['/'] + name;
    let slashed = path + seq!['/'];
    let end = m + 1 + n;
    assert forall|i: int| m + 1 <= i < end implies path[i] != '/' && slashed[i] != '/' by {
        assert(path[i] == name[i - m - 1]);
        assert(slashed[i] == name[i - m - 1]);
    }
    assert(path[m] == '/' && slashed[m] == '/');
    assert forall|i: int| 0 <= i < m implies path[i] == dir[i] && slashed[i] == dir[i] by {}
    assert(path.last() == name.last());
    assert(path[end - 1] == name[n - 1]);
    if n > 1 {
        assert(path[end - 2] == name[n - 2]);
        assert(slashed[end - 2] == name[n - 2]);
    }
    assert(lead(path) <= m && lead(slashed) == lead(path));
    assert(settle(path, end) == end);
    assert(slashed[end] == '/');
    assert(slashed[end - 1] == name[n - 1]);
    assert(settle(slashed, end) == end);
    assert(settle(slashed, end + 1) == settle(slashed, end));
    lemma_start_skips_name(path, m + 1, end);
    lemma_start_skips_name(slashed, m + 1, end);
    assert(path.subrange(m + 1, end) =~= name);
    assert(slashed.subrange(m + 1, end) =~= name);
    assert(path.len() == end && slashed.len() == end + 1);
    assert(path[m - 1] == dir[m - 1] && slashed[m - 1] == dir[m - 1]);
    if m > 1 {
        assert(path[m - 2] == dir[m - 2] && slashed[m - 2] == dir[m - 2]);
    }
    assert(settle(path, m) == m);
    assert(settle(slashed, m) == m);
    assert(settle(path, m + 1) == settle(path, m));
    assert(settle(slashed, m + 1) == settle(slashed, m));
    assert(path.take(m) =~= dir);
    assert(slashed.take(m) =~= dir);
    // Below the root.
    let top = seq!['/'] + name;
    assert forall|i: int| 1 <= i < n + 1 implies top[i] != '/' by {
        assert(top[i] == name[i - 1]);
    }
    assert(lead(top) == 1);
    assert(top[n] == name[n - 1]);
    if n > 1 {
        assert(top[n - 1] == name[n - 2]);
    }
    assert(settle(top, n + 1) == n + 1);
    lemma_start_skips_name(top, 1, n + 1);
    assert(top.subrange(1, n + 1) =~= name);
    assert(top.take(1) =~= seq!['/']);
    assert(settle(top, 1) == 1);
    // Alone.
    assert(lead(name) == 0) by {
        if n > 1 {
            assert(name[1] != '/');
        }
    }
    assert(settle(name, n) == n) by {
        if n > 1 {
            assert(name[n - 2] != '/');
        }
        assert(name[n - 1] != '/');
    }
    lemma_start_skips_name(name, 0, n);
    assert(name.subrange(0, n) =~= name);
    assert(name.take(0) =~= Seq::<char>::empty());
    assert(settle(name, 0) == 0);
}

/// A path climbs exactly where `..` stands alone between two slashes, the
/// ends of the path counting as slashes.
pub proof fn law_climbing_is_a_component_of_two_dots(path: Seq<char>)
    ensures
        ({
            let walled = seq!['/'] + path + seq!['/'];
            has_parent_component(path) <==> exists|i: int|
                0 <= i <= walled.len() - 4 && #[trigger] walled.subrange(i, i + 4) == seq![
                    '/',
                    '.',
                    '.',
                    '/',
                ]
        }),
{
    let walled = seq!['/'] + path + seq!['/'];
    let dots = seq!['/', '.', '.', '/'];
    assert forall|j: int| 0 <= j < path.len() implies walled[j + 1] == path[j] by {}
    if has_parent_component(path) {
        let i = choose|i: int| #[trigger] parent_component_at(path, i);
        if i > 0 {
            assert(walled[i] == path[i - 1]);
        }
        if i + 2 < path.len() {
            assert(walled[i + 3] == path[i + 2]);
        }
        assert(walled.subrange(i, i + 4) =~= dots);
    }
    if exists|i: int| 0 <= i <= walled.len() - 4 && #[trigger] walled.subrange(i, i + 4) == dots {
        let i = choose|i: int|
            0 <= i <= walled.len() - 4 && #[trigger] walled.subrange(i, i + 4) == dots;
        let four = walled.subrange(i, i + 4);
        assert(four[0] == '/' && four[1] == '.' && four[2] == '.' && four[3] == '/');
        assert(walled[i] == '/' && walled[i + 1] == '.' && walled[i + 2] == '.' && walled[i + 3]
            == '/');
        assert(path[i] == '.' && path[i + 1] == '.');
        if i > 0 {
            assert(walled[i] == path[i - 1]);
        }
        if i + 2 < path.len() {
            assert(walled[i + 3] == path[i + 2]);
        }
        assert(parent_component_at(path, i));
    }
}

/// A slash or a `.` behind a path changes neither its last component nor its
/// directory.
pub proof fn law_trailing_slash_changes_nothing(path: Seq<char>)
    requires
        path.len() > 0,
    ensures
        file_name_spec(path + seq!['/']) == file_name_spec(path),
        parent_spec(path + seq!['/']) == parent_spec(path),
        file_name_spec(path + seq!['/', '.']) == file_name_spec(path),
        parent_spec(path + seq!['/', '.']) == parent_spec(path),
{
    let n = path.len() as int;
    let slashed = path + seq!['/'];
    let dotted = path + seq!['/', '.'];
    lemma_bounds(path, n);
    assert(slashed.take(n) =~= path);
    assert(dotted.take(n) =~= path);
    lemma_prefix_settles(path, slashed, n);
    lemma_prefix_settles(path, dotted, n);
    assert(slashed[n] == '/');
    assert(dotted[n] == '/' && dotted[n + 1] == '.');
    assert(settle(slashed, n + 1) == settle(slashed, n));
    assert(settle(dotted, n + 2) == settle(dotted, n + 1));
    assert(settle(dotted, n + 1) == settle(dotted, n));
    let end = settle(path, n);
    lemma_bounds(path, end);
    lemma_prefix_settles(path, slashed, end);
    lemma_prefix_settles(path, dotted, end);
    let start = component_start(path, end);
    lemma_bounds(path, start);
    lemma_prefix_settles(path, slashed, start);
    lemma_prefix_settles(path, dotted, start);
    let cut = settle(path, start);
    assert(slashed.subrange(start, end) =~= path.subrange(start, end));
    assert(dotted.subrange(start, end) =~= path.subrange(start, end));
    assert(slashed.take(cut) =~= path.take(cut));
    assert(dotted.take(cut) =~= path.take(cut));
}

/// Within a path that another one goes on from, behind a slash, the two are
/// taken apart alike.
proof fn lemma_prefix_settles(path: Seq<char>, longer: Seq<char>, end: int)
    requires
        path.len() > 0,
        longer.len() > path.len(),
        longer.take(path.len() as int) == path,
        longer[path.len() as int] == '/',
        0 <= end <= path.len(),
    ensures
        lead(longer) == lead(path),
        settle(longer, end) == settle(path, end),
        component_start(longer, end) == component_start(path, end),
    decreases end,
{
    let t = longer.take(path.len() as int);
    assert(forall|i: int| 0 <= i < path.len() ==> longer[i] == t[i]);
    assert(longer[0] == path[0]);
    if path.len() > 1 {
        assert(longer[1] == path[1]);
    }
    if end > lead(path) {
        lemma_prefix_settles(path, longer, end - 1);
        assert(longer[end - 1] == path[end - 1]);
        if end > 1 {
            assert(longer[end - 2] == path[end - 2]);
        }
    }
}

/// However many slashes stand between a directory and a name, the name is the
/// last component and the directory is the rest. A last `..` is no name, but
/// stands in a directory like any other.
pub proof fn law_doubled_slashes_are_one(dir: Seq<char>, slashes: Seq<char>, name: Seq<char>)
    requires
        ends_in_component(dir),
        slashes.len() > 0,
        forall|i: int| 0 <= i < slashes.len() ==> slashes[i] == '/',
        is_component(name) || name == seq!['.', '.'],
    ensures
        file_name_spec(dir + slashes + name) == if name == seq!['.', '.'] {
            None
        } else {
            Some(name)
        },
        parent_spec(dir + slashes + name) == Some(dir),
{
    reveal_strlit("..");
    assert(".."@ =~= seq!['.', '.']);
    if name.len() == 1 {
        assert(name =~= seq![name[0]]);
        assert(name[0] != '.');
    }
    let m = dir.len() as int;
    let k = m + slashes.len();
    let n = name.len() as int;
    let end = k + n;
    let path = dir + slashes + name;
    assert forall|i: int| 0 <= i < m implies path[i] == dir[i] by {}
    assert forall|i: int| m <= i < k implies path[i] == '/' by {
        assert(path[i] == slashes[i - m]);
    }
    assert forall|i: int| k <= i < end implies path[i] == name[i - k] && path[i] != '/' by {
        if name == seq!['.', '.'] {
            assert(name[i - k] == '.');
        }
    }
    assert(path[m] == '/');
    if m > 1 {
        assert(path[1] == dir[1]);
    }
    assert(lead(path) <= m);
    assert(path[end - 1] == name[n - 1]);
    if n > 1 {
        assert(path[end - 2] == name[n - 2]);
    }
    assert(settle(path, end) == end);
    assert(path[k - 1] == '/');
    lemma_start_skips_name(path, k, end);
    assert(path.subrange(k, end) =~= name);
    assert(path[m - 1] == dir[m - 1]);
    if m > 1 {
        assert(path[m - 2] == dir[m - 2]);
    }
    assert(settle(path, m) == m);
    lemma_slashes_settle(path, m, k);
    assert(path.take(m) =~= dir);
}

proof fn lemma_slashes_settle(path: Seq<char>, from: int, to: int)
    requires
        lead(path) <= from <= to <= path.len(),
        settle(path, from) == from,
        forall|i: int| from <= i < to ==> path[i] == '/',
    ensures
        settle(path, to) == from,
    decreases to,
{
    if to > from {
        lemma_slashes_settle(path, from, to - 1);
        assert(path[to - 1] == '/');
    }
}

} // verus!
