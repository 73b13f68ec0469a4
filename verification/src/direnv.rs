//! What direnv watches: whether the modification times are those of the last
//! evaluation, and the script that tells the shell so.

use vstd::prelude::*;

use crate::environment::Environment;
use crate::json::{self, number_object};
use crate::text::{self, push_text, replaced, views};

verus! {

/// One file that direnv watches.
pub struct WatchEntry {
    /// The file is there.
    pub present: bool,
    pub modtime: i64,
    pub path: String,
}

/// Modification times by path, in the order they were noted; a later one of
/// the same path replaces an earlier one.
pub struct Mtimes {
    pub entries: Vec<(String, i64)>,
}

/// No path stands in two entries.
pub open spec fn paths_distinct(entries: Seq<(String, i64)>) -> bool {
    forall|i: int, j: int|
        0 <= i < j < entries.len() ==> (#[trigger] entries[i]).0@ != (#[trigger] entries[j]).0@
}

impl Mtimes {
    /// Every path is noted once.
    pub open spec fn wf(self) -> bool {
        paths_distinct(self.entries@)
    }
}

/// The modification times as a map.
pub open spec fn times(entries: Seq<(String, i64)>) -> Map<Seq<char>, i64>
    decreases entries.len(),
{
    if entries.len() == 0 {
        Map::empty()
    } else {
        times(entries.drop_last()).insert(entries.last().0@, entries.last().1)
    }
}

impl View for Mtimes {
    type V = Map<Seq<char>, i64>;

    open spec fn view(&self) -> Map<Seq<char>, i64> {
        times(self.entries@)
    }
}

/// The times of the files that are there and have one; of two entries for
/// the same path the later one counts.
pub open spec fn watched_times(entries: Seq<WatchEntry>) -> Map<Seq<char>, i64>
    decreases entries.len(),
{
    if entries.len() == 0 {
        Map::empty()
    } else {
        let before = watched_times(entries.drop_last());
        let last = entries.last();
        if last.present && last.modtime > 0 {
            before.insert(last.path@, last.modtime)
        } else {
            before
        }
    }
}

/// Replacing the time of a path in place is the same as noting it anew.
proof fn lemma_replaced_time(entries: Seq<(String, i64)>, i: int, pair: (String, i64))
    requires
        paths_distinct(entries),
        0 <= i < entries.len(),
        entries[i].0@ == pair.0@,
    ensures
        times(entries.update(i, pair)) == times(entries).insert(pair.0@, pair.1),
    decreases entries.len(),
{
    let front = entries.drop_last();
    let after = entries.update(i, pair);
    if i == entries.len() - 1 {
        assert(after.drop_last() =~= front);
        assert(times(after) =~= times(entries).insert(pair.0@, pair.1));
    } else {
        assert(entries[i].0@ != entries[entries.len() - 1].0@);
        lemma_replaced_time(front, i, pair);
        assert(after.drop_last() =~= front.update(i, pair));
        assert(times(after) =~= times(entries).insert(pair.0@, pair.1));
    }
}

/// Note `time` for `path`, in place of an earlier one.
fn note(list: &mut Vec<(String, i64)>, path: &str, time: i64)
    requires
        paths_distinct(old(list)@),
    ensures
        paths_distinct(final(list)@),
        times(final(list)@) == times(old(list)@).insert(path@, time),
{
    let ghost before = list@;
    let mut i: usize = 0;
    while i < list.len()
        invariant
            i <= list@.len(),
            list@ == before,
            before == old(list)@,
            paths_distinct(before),
            forall|j: int| 0 <= j < i ==> (#[trigger] before[j]).0@ != path@,
        decreases list@.len() - i,
    {
        if text::same(list[i].0.as_str(), path) {
            let pair = (path.to_owned(), time);
            proof {
                lemma_replaced_time(before, i as int, pair);
            }
            list.set(i, pair);
            return ;
        }
        i = i + 1;
    }
    list.push((path.to_owned(), time));
    proof {
        assert(list@.drop_last() =~= before);
    }
}

/// The modification times of the watched files.
pub fn current_times(entries: &Vec<WatchEntry>) -> (out: Mtimes)
    ensures
        out.wf(),
        out@ == watched_times(entries@),
{
    let mut list: Vec<(String, i64)> = Vec::new();
    let mut i: usize = 0;
    proof {
        assert(entries@.take(0) =~= Seq::<WatchEntry>::empty());
    }
    while i < entries.len()
        invariant
            i <= entries@.len(),
            paths_distinct(list@),
            times(list@) == watched_times(entries@.take(i as int)),
        decreases entries@.len() - i,
    {
        proof {
            let t = entries@.take(i + 1);
            assert(t.drop_last() =~= entries@.take(i as int));
            assert(t.last() == entries@[i as int]);
        }
        if entries[i].present && entries[i].modtime > 0 {
            note(&mut list, entries[i].path.as_str(), entries[i].modtime);
        }
        i = i + 1;
    }
    proof {
        assert(entries@.take(i as int) =~= entries@);
    }
    Mtimes { entries: list }
}

impl Mtimes {
    /// The time of `path`, `None` where none was noted.
    pub fn get(&self, path: &str) -> (r: Option<i64>)
        ensures
            match r {
                Some(time) => self@.contains_key(path@) && self@[path@] == time,
                None => !self@.contains_key(path@),
            },
    {
        let mut i: usize = self.entries.len();
        proof {
            assert(self.entries@.take(i as int) =~= self.entries@);
        }
        while i > 0
            invariant
                i <= self.entries@.len(),
                self@.contains_key(path@) == times(self.entries@.take(i as int)).contains_key(
                    path@,
                ),
                self@.contains_key(path@) ==> self@[path@] == times(
                    self.entries@.take(i as int),
                )[path@],
            decreases i,
        {
            i = i - 1;
            proof {
                assert(self.entries@.take(i + 1).drop_last() =~= self.entries@.take(i as int));
            }
            if text::same(self.entries[i].0.as_str(), path) {
                return Some(self.entries[i].1);
            }
        }
        None
    }
}

/// A path that has a time is that of some entry, and every entry's path has
/// one.
proof fn lemma_times_come_from_entries(entries: Seq<(String, i64)>, path: Seq<char>)
    ensures
        times(entries).contains_key(path) <==> exists|i: int|
            0 <= i < entries.len() && (#[trigger] entries[i]).0@ == path,
    decreases entries.len(),
{
    if entries.len() > 0 {
        let before = entries.drop_last();
        lemma_times_come_from_entries(before, path);
        if times(before).contains_key(path) {
            let i = choose|i: int| 0 <= i < before.len() && (#[trigger] before[i]).0@ == path;
            assert(entries[i] == before[i]);
        }
        if entries.last().0@ == path {
            assert(entries[entries.len() - 1].0@ == path);
        }
        if exists|i: int| 0 <= i < entries.len() && (#[trigger] entries[i]).0@ == path {
            let i = choose|i: int| 0 <= i < entries.len() && (#[trigger] entries[i]).0@ == path;
            if i < before.len() {
                assert(before[i].0@ == path);
            }
        }
    }
}

/// Every watched file has the time that was stored for it.
pub open spec fn unchanged(stored: Map<Seq<char>, i64>, current: Map<Seq<char>, i64>) -> bool {
    forall|path: Seq<char>| #[trigger]
        current.contains_key(path) ==> stored.contains_key(path) && stored[path] == current[path]
}

/// Whether the cached evaluation still stands: every watched file has the
/// time that was stored for it. Stored files that are no longer watched do
/// not matter.
pub fn is_valid(stored: &Mtimes, current: &Mtimes) -> (r: bool)
    ensures
        r == unchanged(stored@, current@),
{
    let mut i: usize = 0;
    while i < current.entries.len()
        invariant
            i <= current.entries@.len(),
            forall|j: int|
                0 <= j < i ==> stored@.contains_key((#[trigger] current.entries@[j]).0@)
                    && stored@[current.entries@[j].0@] == current@[current.entries@[j].0@],
        decreases current.entries@.len() - i,
    {
        let path = current.entries[i].0.as_str();
        proof {
            lemma_times_come_from_entries(current.entries@, path@);
            assert(current@.contains_key(path@));
        }
        match (stored.get(path), current.get(path)) {
            (Some(then_time), Some(now)) => {
                if then_time != now {
                    return false;
                }
            },
            _ => return false,
        }
        i = i + 1;
    }
    proof {
        assert forall|path: Seq<char>| #[trigger] current@.contains_key(path) implies
            stored@.contains_key(path) && stored@[path] == current@[path] by {
            lemma_times_come_from_entries(current.entries@, path);
        }
    }
    true
}

/// What a state file that does not parse comes to.
pub open spec fn bad_state(path: Seq<char>, cause: Seq<char>) -> Seq<char> {
    "failed to parse `"@ + path + "`: "@ + cause
}

/// The stored times, once the JSON reader made `parsed` of the state file at
/// `path`.
pub fn take_state(path: &str, parsed: Result<Vec<(String, i64)>, String>) -> (r: Result<
    Mtimes,
    String,
>)
    ensures
        match parsed {
            Ok(entries) => r is Ok && r->Ok_0.entries == entries,
            Err(cause) => r is Err && r->Err_0@ == bad_state(path@, cause@),
        },
{
    match parsed {
        Ok(entries) => Ok(Mtimes { entries }),
        Err(cause) => {
            let mut out = "failed to parse `".to_owned();
            out.append(path);
            out.append("`: ");
            out.append(cause.as_str());
            Err(out)
        },
    }
}

/// The stored times from the state file at `path`, which holds `data`; none
/// are stored while there is no such file.
pub fn load_state(path: &str, data: Option<&str>) -> (r: Result<Mtimes, String>)
    ensures
        match data {
            None => r is Ok && r->Ok_0.wf() && r->Ok_0@ == Map::<Seq<char>, i64>::empty(),
            Some(data) => match number_object(data@) {
                Ok(stored) => r is Ok && r->Ok_0.wf() && r->Ok_0@ == stored,
                Err(cause) => r is Err && r->Err_0@ == bad_state(path@, cause),
            },
        },
{
    match data {
        None => Ok(Mtimes { entries: Vec::new() }),
        Some(data) => take_state(path, json::read_number_object(data)),
    }
}

/// What the state file holds for the given times: a text that reads back as
/// them.
pub fn save_state(current: &Mtimes) -> (out: String)
    requires
        current.wf(),
    ensures
        number_object(out@) == Ok::<Map<Seq<char>, i64>, Seq<char>>(current@),
{
    match json::write_number_object(&current.entries) {
        Ok(out) => out,
        Err(_) => vstd::pervasive::unreached(),
    }
}

/// The watch list to ask direnv about; `None` where nothing is watched.
pub fn watch_list(env: &Environment) -> (r: Option<String>)
    ensures
        match r {
            Some(list) => env@.contains_key("DIRENV_WATCHES"@) && list@ == env@["DIRENV_WATCHES"@]
                && list@.len() > 0,
            None => !env@.contains_key("DIRENV_WATCHES"@) || env@["DIRENV_WATCHES"@].len() == 0,
        },
{
    env.get_non_empty("DIRENV_WATCHES")
}

/// `show_dump <list>`: direnv prints the watched files.
pub fn show_dump_args(list: &str) -> (args: Vec<String>)
    ensures
        views(args@) == seq!["show_dump"@, list@],
{
    let mut args: Vec<String> = Vec::new();
    push_text(&mut args, "show_dump");
    push_text(&mut args, list);
    proof {
        assert(views(args@) =~= seq!["show_dump"@, list@]);
    }
    args
}

/// What is said when direnv exits with a failure; nothing is watched then.
pub fn show_dump_failed(status: &str, stderr: &str) -> (out: String)
    ensures
        out@ == "`direnv show_dump` exited with "@ + status@ + ": "@ + text::trimmed(stderr@),
{
    let mut out = "`direnv show_dump` exited with ".to_owned();
    out.append(status);
    out.append(": ");
    out.append(text::trim(stderr).as_str());
    out
}

/// The script of the template: the cache signal is put in first, then the
/// cache dir.
pub open spec fn script_of(template: Seq<char>, valid: bool, cache_dir: Seq<char>) -> Seq<char> {
    let signal = if valid {
        "1"@
    } else {
        "0"@
    };
    replaced(replaced(template, "__NCAP_CACHE__"@, signal), "__CACHE_DIR__"@, cache_dir)
}

/// The script for the shell.
pub fn script(template: &str, valid: bool, cache_dir: &str) -> (out: String)
    ensures
        out@ == script_of(template@, valid, cache_dir@),
{
    proof {
        reveal_strlit("__NCAP_CACHE__");
        reveal_strlit("__CACHE_DIR__");
    }
    let signal = if valid {
        "1"
    } else {
        "0"
    };
    let signalled = text::replace(template, "__NCAP_CACHE__", signal);
    text::replace(signalled.as_str(), "__CACHE_DIR__", cache_dir)
}

/// Nothing changed means that the cache stands: the times just stored are
/// valid for the same watched files, whatever else was stored with them.
pub proof fn law_stored_times_are_valid(current: Map<Seq<char>, i64>, more: Map<Seq<char>, i64>)
    ensures
        unchanged(current, current),
        unchanged(more.union_prefer_right(current), current),
{
}

/// The times that were saved are the times that are loaded, so that the cache
/// stands at the next look unless a watched file changed.
pub proof fn law_saved_times_read_back(
    saved: Seq<char>,
    current: Map<Seq<char>, i64>,
    loaded: Mtimes,
)
    requires
        number_object(saved) == Ok::<Map<Seq<char>, i64>, Seq<char>>(current),
        number_object(saved) == Ok::<Map<Seq<char>, i64>, Seq<char>>(loaded@),
    ensures
        loaded@ == current,
        unchanged(loaded@, current),
{
}

/// A watched file whose time is another, or that had none, ends the cache.
pub proof fn law_changed_file_ends_the_cache(
    stored: Map<Seq<char>, i64>,
    current: Map<Seq<char>, i64>,
    path: Seq<char>,
)
    requires
        current.contains_key(path),
        !stored.contains_key(path) || stored[path] != current[path],
    ensures
        !unchanged(stored, current),
{
}

/// Every watched file that is there and has a time counts, with the time of
/// its last entry, and nothing else does.
pub proof fn law_every_watched_file_counts(entries: Seq<WatchEntry>)
    ensures
        forall|i: int|
            0 <= i < entries.len() && (#[trigger] entries[i]).present && entries[i].modtime > 0
                ==> watched_times(entries).contains_key(entries[i].path@),
        forall|i: int|
            0 <= i < entries.len() && (#[trigger] entries[i]).present && entries[i].modtime > 0 && (
            forall|j: int|
                i < j < entries.len() && (#[trigger] entries[j]).present && entries[j].modtime > 0
                    ==> entries[j].path@ != entries[i].path@) ==> watched_times(
                entries,
            )[entries[i].path@] == entries[i].modtime,
        forall|path: Seq<char>| #[trigger]
            watched_times(entries).contains_key(path) ==> exists|i: int|
                0 <= i < entries.len() && (#[trigger] entries[i]).present && entries[i].modtime > 0
                    && entries[i].path@ == path,
    decreases entries.len(),
{
    if entries.len() > 0 {
        let front = entries.drop_last();
        let n = entries.len() - 1;
        law_every_watched_file_counts(front);
        let all = watched_times(entries);
        let before = watched_times(front);
        assert forall|i: int|
            0 <= i < entries.len() && (#[trigger] entries[i]).present && entries[i].modtime
                > 0 implies all.contains_key(entries[i].path@) by {
            if i < n {
                assert(front[i] == entries[i]);
            }
        }
        assert forall|i: int|
            0 <= i < entries.len() && (#[trigger] entries[i]).present && entries[i].modtime > 0 && (
            forall|j: int|
                i < j < entries.len() && (#[trigger] entries[j]).present && entries[j].modtime > 0
                    ==> entries[j].path@ != entries[i].path@) implies all[entries[i].path@]
            == entries[i].modtime by {
            if i < n {
                assert(front[i] == entries[i]);
                assert forall|j: int|
                    i < j < front.len() && (#[trigger] front[j]).present && front[j].modtime
                        > 0 implies front[j].path@ != front[i].path@ by {
                    assert(front[j] == entries[j]);
                }
                assert(entries[n] == entries.last());
            }
        }
        assert forall|path: Seq<char>| #[trigger] all.contains_key(path) implies exists|i: int|
            0 <= i < entries.len() && (#[trigger] entries[i]).present && entries[i].modtime > 0
                && entries[i].path@ == path by {
            if before.contains_key(path) {
                let i = choose|i: int|
                    0 <= i < front.len() && (#[trigger] front[i]).present && front[i].modtime > 0
                        && front[i].path@ == path;
                assert(entries[i] == front[i]);
            } else {
                assert(entries[n].path@ == path);
            }
        }
    }
}

/// The noted times are those of the entries: each path has the time noted
/// with it, and no other path has one.
pub proof fn law_noted_times_are_the_entries(noted: Mtimes)
    requires
        noted.wf(),
    ensures
        forall|i: int|
            0 <= i < noted.entries@.len() ==> noted@.contains_key(
                (#[trigger] noted.entries@[i]).0@,
            ) && noted@[noted.entries@[i].0@] == noted.entries@[i].1,
        forall|path: Seq<char>| #[trigger]
            noted@.contains_key(path) ==> exists|i: int|
                0 <= i < noted.entries@.len() && (#[trigger] noted.entries@[i]).0@ == path,
{
    let entries = noted.entries@;
    assert forall|i: int| 0 <= i < entries.len() implies noted@.contains_key(
        (#[trigger] entries[i]).0@,
    ) && noted@[entries[i].0@] == entries[i].1 by {
        lemma_replaced_time(entries, i, entries[i]);
        assert(entries.update(i, entries[i]) =~= entries);
        let all = times(entries);
        assert(all.insert(entries[i].0@, entries[i].1).contains_key(entries[i].0@));
        assert(all.insert(entries[i].0@, entries[i].1)[entries[i].0@] == entries[i].1);
    }
    assert forall|path: Seq<char>| #[trigger] noted@.contains_key(path) implies exists|i: int|
        0 <= i < entries.len() && (#[trigger] entries[i]).0@ == path by {
        lemma_times_come_from_entries(entries, path);
    }
}

/// Editing one watched file ends the cache: between two looks, a file whose
/// last entry has a time that no earlier entry had for it makes the stored
/// times invalid. Where both looks show the same times the cache stands.
pub proof fn law_edited_file_ends_the_cache(
    stored: Seq<WatchEntry>,
    current: Seq<WatchEntry>,
    i: int,
)
    requires
        0 <= i < current.len(),
        current[i].present,
        current[i].modtime > 0,
        forall|j: int| i < j < current.len() ==> (#[trigger] current[j]).path@ != current[i].path@,
        forall|j: int|
            0 <= j < stored.len() && (#[trigger] stored[j]).path@ == current[i].path@
                ==> stored[j].modtime != current[i].modtime,
    ensures
        !unchanged(watched_times(stored), watched_times(current)),
        unchanged(watched_times(current), watched_times(current)),
{
    law_every_watched_file_counts(current);
    law_every_watched_file_counts(stored);
    let path = current[i].path@;
    assert(watched_times(current).contains_key(path));
    assert(watched_times(current)[path] == current[i].modtime);
    if watched_times(stored).contains_key(path) {
        lemma_time_is_some_entrys(stored, path);
    }
}

proof fn lemma_time_is_some_entrys(entries: Seq<WatchEntry>, path: Seq<char>)
    requires
        watched_times(entries).contains_key(path),
    ensures
        exists|i: int|
            0 <= i < entries.len() && (#[trigger] entries[i]).path@ == path && entries[i].modtime
                == watched_times(entries)[path],
    decreases entries.len(),
{
    let front = entries.drop_last();
    let last = entries[entries.len() - 1];
    if last.present && last.modtime > 0 && last.path@ == path {
    } else {
        lemma_time_is_some_entrys(front, path);
        let i = choose|i: int|
            0 <= i < front.len() && (#[trigger] front[i]).path@ == path && front[i].modtime
                == watched_times(front)[path];
        assert(entries[i] == front[i]);
    }
}

/// The script is the template with the signal, `1` for a cache that stands
/// and `0` otherwise, in the place of the one placeholder and the cache dir
/// in that of the other; the rest is kept to the character.
pub proof fn law_script_fills_the_placeholders(
    a: Seq<char>,
    b: Seq<char>,
    c: Seq<char>,
    d: Seq<char>,
    valid: bool,
    cache_dir: Seq<char>,
)
    requires
        forall|i: int|
            0 <= i < a.len() ==> #[trigger] (a + "__NCAP_CACHE__"@).subrange(
                i,
                i + "__NCAP_CACHE__"@.len(),
            ) != "__NCAP_CACHE__"@,
        forall|i: int|
            0 <= i <= b.len() - "__NCAP_CACHE__"@.len() ==> #[trigger] b.subrange(
                i,
                i + "__NCAP_CACHE__"@.len(),
            ) != "__NCAP_CACHE__"@,
        forall|i: int|
            0 <= i < c.len() ==> #[trigger] (c + "__CACHE_DIR__"@).subrange(
                i,
                i + "__CACHE_DIR__"@.len(),
            ) != "__CACHE_DIR__"@,
        forall|i: int|
            0 <= i <= d.len() - "__CACHE_DIR__"@.len() ==> #[trigger] d.subrange(
                i,
                i + "__CACHE_DIR__"@.len(),
            ) != "__CACHE_DIR__"@,
        a + (if valid {
            "1"@
        } else {
            "0"@
        }) + b == c + "__CACHE_DIR__"@ + d,
    ensures
        script_of(a + "__NCAP_CACHE__"@ + b, valid, cache_dir) == c + cache_dir + d,
{
    reveal_strlit("__NCAP_CACHE__");
    reveal_strlit("__CACHE_DIR__");
    let none = Seq::<char>::empty();
    let signal = if valid {
        "1"@
    } else {
        "0"@
    };
    text::law_first_occurrence_is_replaced(a, "__NCAP_CACHE__"@, b, signal);
    text::law_first_occurrence_is_replaced(b, "__NCAP_CACHE__"@, none, signal);
    text::law_first_occurrence_is_replaced(c, "__CACHE_DIR__"@, d, cache_dir);
    text::law_first_occurrence_is_replaced(d, "__CACHE_DIR__"@, none, cache_dir);
}

/// A state file that does not parse is named, with the parser's reason.
pub proof fn law_bad_state_is_named(path: Seq<char>, cause: Seq<char>)
    ensures
        bad_state(path, cause) == "failed to parse `"@ + path + "`: "@ + cause,
{
}

} // verus!
