//! The devshell cache under the project root: one directory per devshell, and
//! the names of the server's logs.

use vstd::prelude::*;

use crate::ctl::paths::{self, between};
use crate::number;
use crate::pathname::{self, join_spec};
use crate::text;

verus! {

/// The cache directory below the project root.
pub const CACHE_DIR: &'static str = ".ncap-cache";

/// The file that keeps the modification times of the watched files.
pub const DIRENV_MTIMES_FILE: &'static str = "direnv-mtimes.json";

/// The activation script of a devshell.
pub const ENV_CACHE_FILE: &'static str = "env";

/// The nix profile of a devshell.
pub const NIX_PROFILE_FILE: &'static str = "profile";

/// `<root>/.ncap-cache`.
pub open spec fn cache_root_spec(project_root: Seq<char>) -> Seq<char> {
    join_spec(project_root, ".ncap-cache"@)
}

/// `<root>/.ncap-cache/<devshell>`.
pub open spec fn devshell_dir_spec(project_root: Seq<char>, devshell_name: Seq<char>) -> Seq<char> {
    join_spec(cache_root_spec(project_root), devshell_name)
}

/// `<root>/.ncap-cache/<devshell>/env`.
pub open spec fn env_file_spec(project_root: Seq<char>, devshell_name: Seq<char>) -> Seq<char> {
    join_spec(devshell_dir_spec(project_root, devshell_name), "env"@)
}

/// `<root>/.ncap-cache/<devshell>/profile`.
pub open spec fn nix_profile_spec(project_root: Seq<char>, devshell_name: Seq<char>) -> Seq<char> {
    join_spec(devshell_dir_spec(project_root, devshell_name), "profile"@)
}

/// The cache directory of the project.
pub fn cache_root(project_root: &str) -> (out: String)
    ensures
        out@ == cache_root_spec(project_root@),
{
    pathname::join(project_root, CACHE_DIR)
}

/// The cache directory of one devshell.
pub fn devshell_dir(project_root: &str, devshell_name: &str) -> (out: String)
    ensures
        out@ == devshell_dir_spec(project_root@, devshell_name@),
{
    let root = cache_root(project_root);
    pathname::join(root.as_str(), devshell_name)
}

/// The cached activation script of one devshell.
pub fn env_file(project_root: &str, devshell_name: &str) -> (out: String)
    ensures
        out@ == env_file_spec(project_root@, devshell_name@),
{
    let dir = devshell_dir(project_root, devshell_name);
    pathname::join(dir.as_str(), ENV_CACHE_FILE)
}

/// The nix profile of one devshell.
pub fn nix_profile(project_root: &str, devshell_name: &str) -> (out: String)
    ensures
        out@ == nix_profile_spec(project_root@, devshell_name@),
{
    let dir = devshell_dir(project_root, devshell_name);
    pathname::join(dir.as_str(), NIX_PROFILE_FILE)
}

/// The file that keeps the modification times of the watched files.
pub fn direnv_mtimes_file(project_root: &str) -> (out: String)
    ensures
        out@ == join_spec(cache_root_spec(project_root@), "direnv-mtimes.json"@),
{
    let root = cache_root(project_root);
    pathname::join(root.as_str(), DIRENV_MTIMES_FILE)
}

/// `<root>/.ncap-cache/<devshell>` as plain text: slashes are put in whatever
/// the parts begin or end with.
pub open spec fn devshell_cache_dir_spec(
    project_root: Seq<char>,
    devshell_name: Seq<char>,
) -> Seq<char> {
    project_root + "/"@ + ".ncap-cache"@ + "/"@ + devshell_name
}

/// The cache directory of one devshell as plain text.
pub fn devshell_cache_dir(project_root: &str, devshell_name: &str) -> (out: String)
    ensures
        out@ == devshell_cache_dir_spec(project_root@, devshell_name@),
{
    let mut out = project_root.to_owned();
    out.append("/");
    out.append(CACHE_DIR);
    out.append("/");
    out.append(devshell_name);
    out
}

/// `path` with each run of slashes made one.
pub open spec fn single_slashes(path: Seq<char>) -> Seq<char>
    decreases path.len(),
{
    if path.len() == 0 {
        path
    } else if path.len() > 1 && path.last() == '/' && path[path.len() - 2] == '/' {
        single_slashes(path.drop_last())
    } else {
        single_slashes(path.drop_last()).push(path.last())
    }
}

/// A slash put after one that is there already makes no difference to what
/// follows but for the doubled slash.
proof fn lemma_doubled_slash(base: Seq<char>, tail: Seq<char>)
    requires
        base.len() > 0,
        base.last() == '/',
    ensures
        single_slashes(base.push('/') + tail) == single_slashes(base + tail),
    decreases tail.len(),
{
    let doubled = base.push('/') + tail;
    let single = base + tail;
    if tail.len() == 0 {
        assert(doubled =~= base.push('/'));
        assert(doubled.drop_last() =~= base);
        assert(single =~= base);
    } else {
        lemma_doubled_slash(base, tail.drop_last());
        assert(doubled.drop_last() =~= base.push('/') + tail.drop_last());
        assert(single.drop_last() =~= base + tail.drop_last());
        assert(doubled.last() == single.last());
        assert(doubled[doubled.len() - 2] == single[single.len() - 2]);
    }
}

/// The two forms of a devshell's cache directory are the same text where the
/// root is not empty and does not end in a slash and the name is relative. A
/// root that ends in a slash makes them differ by one doubled slash. An empty
/// root or an absolute name is taken as it is by `devshell_dir` alone.
pub proof fn law_cache_directory_has_one_place(project_root: Seq<char>, devshell_name: Seq<char>)
    ensures
        ({
            let text = devshell_cache_dir_spec(project_root, devshell_name);
            let path = devshell_dir_spec(project_root, devshell_name);
            let below = ".ncap-cache"@ + "/"@ + devshell_name;
            if pathname::is_absolute(devshell_name) {
                path == devshell_name
            } else if project_root.len() == 0 {
                path == below && text == "/"@ + path
            } else if project_root.last() == '/' {
                &&& path == project_root + below
                &&& text == project_root + "/"@ + below
                &&& single_slashes(text) == single_slashes(path)
            } else {
                path == text
            }
        }),
{
    reveal_strlit(".ncap-cache");
    reveal_strlit("/");
    let below = ".ncap-cache"@ + "/"@ + devshell_name;
    let text = devshell_cache_dir_spec(project_root, devshell_name);
    let path = devshell_dir_spec(project_root, devshell_name);
    assert("/"@ =~= seq!['/']);
    assert(text =~= project_root + "/"@ + below);
    if !pathname::is_absolute(devshell_name) {
        if project_root.len() == 0 {
            assert(path =~= below);
            assert(text =~= "/"@ + path);
        } else if project_root.last() == '/' {
            assert(path =~= project_root + below);
            assert(text =~= project_root.push('/') + below);
            lemma_doubled_slash(project_root, below);
        } else {
            assert(path =~= text);
        }
    }
}

/// `ncap-server-<secs>.log`.
pub open spec fn log_filename_spec(secs: nat) -> Seq<char> {
    "ncap-server-"@ + number::decimal(secs) + ".log"@
}

/// The name of the log of a server started at `secs`.
pub fn log_filename(secs: u64) -> (out: String)
    ensures
        out@ == log_filename_spec(secs as nat),
{
    let mut out = "ncap-server-".to_owned();
    out.append(number::format_decimal(secs as u128).as_str());
    out.append(".log");
    out
}

/// The start time in a log's name: any text that reads as a number, a leading
/// `+` included.
pub open spec fn log_secs(name: Seq<char>) -> Option<nat> {
    match between(name, "ncap-server-"@, ".log"@) {
        Some(middle) => match number::number_value(middle) {
            Ok(secs) => Some(secs),
            Err(_) => None,
        },
        None => None,
    }
}

/// The start time in a log's name, `None` where the name is no log's.
pub fn parse_log_filename(name: &str) -> (r: Option<u64>)
    ensures
        match log_secs(name@) {
            Some(secs) => r == Some(secs as u64) && secs <= u64::MAX,
            None => r is None,
        },
{
    match paths::strip(name, "ncap-server-", ".log") {
        Some(middle) => match number::parse_number(middle.as_str()) {
            Ok(secs) => Some(secs),
            Err(_) => None,
        },
        None => None,
    }
}

/// A log's name gives back the time it was made from.
pub proof fn law_log_name_gives_its_time(secs: nat)
    requires
        secs <= u64::MAX,
    ensures
        log_secs(log_filename_spec(secs)) == Some(secs),
{
    number::lemma_decimal_reads_back(secs);
    let front = "ncap-server-"@;
    let back = ".log"@;
    let name = log_filename_spec(secs);
    let n = front.len() as int;
    assert(name.subrange(0, n) =~= front);
    let rest = name.skip(n);
    assert(rest.subrange(rest.len() - back.len(), rest.len() as int) =~= back);
    assert(name.subrange(n, name.len() - back.len()) =~= number::decimal(secs));
}

/// `i` is the latest log of `names`: none has a later time, and of equal ones
/// it is the last.
pub open spec fn is_latest(names: Seq<Seq<char>>, i: int) -> bool {
    &&& 0 <= i < names.len()
    &&& log_secs(names[i]) is Some
    &&& forall|j: int|
        0 <= j < names.len() && log_secs(#[trigger] names[j]) is Some ==> log_secs(names[j])->0
            <= log_secs(names[i])->0 && (j > i ==> log_secs(names[j])->0 < log_secs(names[i])->0)
}

/// The place of the latest log in `names`, `None` where no name is a log's.
pub fn latest_log(names: &Vec<String>) -> (r: Option<usize>)
    ensures
        match r {
            Some(i) => is_latest(text::views(names@), i as int),
            None => forall|j: int|
                0 <= j < names@.len() ==> log_secs(#[trigger] text::views(names@)[j]) is None,
        },
{
    let ghost all = text::views(names@);
    let mut latest: Option<(u64, usize)> = None;
    let mut i: usize = 0;
    while i < names.len()
        invariant
            i <= names@.len(),
            all == text::views(names@),
            match latest {
                Some((secs, k)) => k < i && log_secs(all[k as int]) == Some(secs as nat)
                    && is_latest(all.take(i as int), k as int),
                None => forall|j: int| 0 <= j < i ==> log_secs(#[trigger] all[j]) is None,
            },
        decreases names@.len() - i,
    {
        let ghost before = latest;
        if let Some(secs) = parse_log_filename(names[i].as_str()) {
            let later = match latest {
                Some((most, _)) => secs >= most,
                None => true,
            };
            if later {
                latest = Some((secs, i));
            }
        }
        proof {
            let t = all.take(i as int);
            let u = all.take(i + 1);
            assert(all[i as int] == names@[i as int]@);
            if let Some((secs, k)) = latest {
                assert forall|j: int|
                    0 <= j < u.len() && log_secs(#[trigger] u[j]) is Some implies log_secs(u[j])->0
                    <= secs && (j > k ==> log_secs(u[j])->0 < secs) by {
                    if j < i {
                        assert(u[j] == t[j]);
                        if before is None {
                            assert(log_secs(all[j]) is None);
                        }
                    }
                }
                assert(is_latest(u, k as int));
            }
        }
        i = i + 1;
    }
    proof {
        assert(all.take(i as int) =~= all);
    }
    match latest {
        Some((_, k)) => Some(k),
        None => None,
    }
}

/// The layout of a devshell's cache, written out.
pub proof fn law_cache_layout_written_out(root: Seq<char>, name: Seq<char>)
    requires
        root.len() > 0,
        root.last() != '/',
        name.len() > 0,
        name[0] != '/',
        name.last() != '/',
    ensures
        cache_root_spec(root) == root + "/.ncap-cache"@,
        devshell_dir_spec(root, name) == root + "/.ncap-cache/"@ + name,
        env_file_spec(root, name) == root + "/.ncap-cache/"@ + name + "/env"@,
        nix_profile_spec(root, name) == root + "/.ncap-cache/"@ + name + "/profile"@,
{
    reveal_strlit(".ncap-cache");
    reveal_strlit("/.ncap-cache");
    reveal_strlit("/.ncap-cache/");
    reveal_strlit("env");
    reveal_strlit("/env");
    reveal_strlit("profile");
    reveal_strlit("/profile");
    assert(cache_root_spec(root) =~= root + "/.ncap-cache"@);
    let dir = devshell_dir_spec(root, name);
    assert(dir =~= root + "/.ncap-cache/"@ + name);
    assert(dir.last() == name.last());
    assert(env_file_spec(root, name) =~= root + "/.ncap-cache/"@ + name + "/env"@);
    assert(nix_profile_spec(root, name) =~= root + "/.ncap-cache/"@ + name + "/profile"@);
}

/// A log is named `ncap-server-`, a number, `.log`; the number is the time
/// of its start.
pub proof fn law_log_names(name: Seq<char>, middle: Seq<char>)
    ensures
        log_secs("ncap-server-"@ + middle + ".log"@) == match number::number_value(middle) {
            Ok(secs) => Some(secs),
            Err(_) => None,
        },
        log_secs(name) is Some ==> exists|m: Seq<char>|
            name == #[trigger] ("ncap-server-"@ + m + ".log"@) && number::number_value(m) == Ok::<
                nat,
                number::NumberError,
            >(log_secs(name)->0),
{
    paths::law_strip_undoes_the_wrapping("ncap-server-"@, middle, ".log"@, name);
    if log_secs(name) is Some {
        let m = between(name, "ncap-server-"@, ".log"@)->0;
        assert(name == "ncap-server-"@ + m + ".log"@);
    }
}

/// The latest log is that of the latest start: of the logs of known starts
/// none is later, and none that stands further on is as late.
pub proof fn law_latest_log_is_the_latest_start(
    names: Seq<Seq<char>>,
    i: int,
    j: int,
    secs: nat,
    other: nat,
)
    requires
        is_latest(names, i),
        0 <= j < names.len(),
        secs <= u64::MAX,
        other <= u64::MAX,
        names[i] == log_filename_spec(secs),
        names[j] == log_filename_spec(other),
    ensures
        other <= secs,
        j > i ==> other < secs,
{
    law_log_name_gives_its_time(secs);
    law_log_name_gives_its_time(other);
    assert(log_secs(names[j]) is Some);
}

/// The layout for any root and name: each part below the one before it.
pub proof fn law_cache_layout_part_by_part(root: Seq<char>, name: Seq<char>)
    ensures
        cache_root_spec(root) == join_spec(root, ".ncap-cache"@),
        devshell_dir_spec(root, name) == join_spec(cache_root_spec(root), name),
        env_file_spec(root, name) == join_spec(devshell_dir_spec(root, name), "env"@),
        nix_profile_spec(root, name) == join_spec(devshell_dir_spec(root, name), "profile"@),
{
}

/// Where any name is a log's, one log is the latest, and only one.
pub proof fn law_some_log_is_the_latest(names: Seq<Seq<char>>, j: int)
    requires
        0 <= j < names.len(),
        log_secs(names[j]) is Some,
    ensures
        exists|i: int| #[trigger] is_latest(names, i),
        forall|i: int, k: int| #[trigger]
            is_latest(names, i) && #[trigger] is_latest(names, k) ==> i == k,
    decreases names.len(),
{
    let before = names.drop_last();
    let n = names.len() - 1;
    if exists|m: int| 0 <= m < before.len() && log_secs(#[trigger] before[m]) is Some {
        let m = choose|m: int| 0 <= m < before.len() && log_secs(#[trigger] before[m]) is Some;
        law_some_log_is_the_latest(before, m);
        let i = choose|i: int| #[trigger] is_latest(before, i);
        if log_secs(names[n]) is Some && log_secs(before[i])->0 <= log_secs(names[n])->0 {
            assert forall|m: int|
                0 <= m < names.len() && log_secs(#[trigger] names[m]) is Some implies log_secs(
                names[m],
            )->0 <= log_secs(names[n])->0 by {
                if m < n {
                    assert(before[m] == names[m]);
                }
            }
            assert(is_latest(names, n));
        } else {
            assert forall|m: int|
                0 <= m < names.len() && log_secs(#[trigger] names[m]) is Some implies log_secs(
                names[m],
            )->0 <= log_secs(names[i])->0 && (m > i ==> log_secs(names[m])->0 < log_secs(
                names[i],
            )->0) by {
                if m < n {
                    assert(before[m] == names[m]);
                }
            }
            assert(is_latest(names, i));
        }
    } else {
        assert forall|m: int| 0 <= m < n implies log_secs(#[trigger] names[m]) is None by {
            assert(before[m] == names[m]);
        }
        assert(is_latest(names, n));
    }
    assert forall|i: int, k: int| #[trigger]
        is_latest(names, i) && #[trigger] is_latest(names, k) implies i == k by {
        assert(log_secs(names[i]) is Some);
        assert(log_secs(names[k]) is Some);
    }
}

} // verus!
