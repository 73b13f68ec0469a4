//! XDG layout with the `$TMPDIR` fallback for the runtime dir, and the names
//! of the files in it.

use vstd::prelude::*;

use crate::number;
use crate::pathname::{self, is_absolute, join_spec};
use crate::text::{self, views};

verus! {

/// Error deriving a cache or log dir when neither the XDG var nor `HOME` is
/// set.
#[derive(Debug, Clone, Copy, PartialEq, Eq)]
pub struct NoHome {
    pub what: &'static str,
    pub var: &'static str,
}

impl NoHome {
    /// What `message` says.
    pub open spec fn text(self) -> Seq<char> {
        "cannot derive the "@ + self.what@ + ": neither `"@ + self.var@ + "` nor `HOME` is set"@
    }

    /// One line for people.
    pub fn message(&self) -> (out: String)
        ensures
            out@ == self.text(),
    {
        let mut out = "cannot derive the ".to_owned();
        out.append(self.what);
        out.append(": neither `");
        out.append(self.var);
        out.append("` nor `HOME` is set");
        out
    }
}

// ---------------------------------------------------------------------------
// Base directories
// ---------------------------------------------------------------------------

/// `dirs::runtime_dir`: `$XDG_RUNTIME_DIR` where the platform has it, and
/// only if it is absolute. Which directory it is depends on the environment.
#[verifier::external_body]
pub(crate) fn runtime_base() -> (r: Option<String>)
    ensures
        r is Some ==> is_absolute(r->0@),
{
    dirs::runtime_dir().map(|dir| dir.to_string_lossy().into_owned())
}

/// `dirs::cache_dir`: `$XDG_CACHE_HOME`, else the cache dir of the home
/// directory. It depends on the environment; nothing is said of it.
#[verifier::external_body]
pub(crate) fn cache_base() -> (r: Option<String>) {
    dirs::cache_dir().map(|dir| dir.to_string_lossy().into_owned())
}

/// `dirs::state_dir`: `$XDG_STATE_HOME`, else the state dir of the home
/// directory. It depends on the environment; nothing is said of it.
#[verifier::external_body]
pub(crate) fn state_base() -> (r: Option<String>) {
    dirs::state_dir().map(|dir| dir.to_string_lossy().into_owned())
}

/// The directory of `project` below `base`.
pub open spec fn project_dir(base: Seq<char>, project: Seq<char>) -> Seq<char> {
    join_spec(join_spec(base, "nix-capsule"@), project)
}

/// The base of the socket: the runtime dir, else `$TMPDIR` unless it is
/// empty, else `/tmp`.
pub open spec fn socket_base(runtime: Option<Seq<char>>, tmpdir: Option<Seq<char>>) -> Seq<char> {
    match (runtime, tmpdir) {
        (Some(dir), _) => dir,
        (None, Some(dir)) => if dir.len() > 0 {
            dir
        } else {
            "/tmp"@
        },
        (None, None) => "/tmp"@,
    }
}

/// The socket of `project` below its base.
pub open spec fn socket_spec(base: Seq<char>, project: Seq<char>) -> Seq<char> {
    join_spec(project_dir(base, project), "ncap.sock"@)
}

fn dir_of_project(base: &str, project: &str) -> (out: String)
    ensures
        out@ == project_dir(base@, project@),
{
    pathname::join(pathname::join(base, "nix-capsule").as_str(), project)
}

/// The characters of an optional text.
pub open spec fn opt_view(s: Option<String>) -> Option<Seq<char>> {
    match s {
        Some(s) => Some(s@),
        None => None,
    }
}

/// The characters of an optional text.
pub open spec fn opt_str_view(s: Option<&str>) -> Option<Seq<char>> {
    match s {
        Some(s) => Some(s@),
        None => None,
    }
}

/// The socket of `project` for a given runtime dir and `$TMPDIR`.
pub fn socket_path_in(runtime: Option<String>, tmpdir: Option<&str>, project: &str) -> (out: String)
    ensures
        out@ == socket_spec(socket_base(opt_view(runtime), opt_str_view(tmpdir)), project@),
{
    let base = match runtime {
        Some(dir) => dir,
        None => match tmpdir {
            Some(dir) => if dir.is_empty() {
                "/tmp".to_owned()
            } else {
                dir.to_owned()
            },
            None => "/tmp".to_owned(),
        },
    };
    pathname::join(dir_of_project(base.as_str(), project).as_str(), "ncap.sock")
}

/// The per-project socket: below `$XDG_RUNTIME_DIR` (absolute), else below
/// `$TMPDIR`, which defaults to `/tmp`.
pub fn socket_path(project: &str, tmpdir: Option<&str>) -> (out: String)
    ensures
        exists|runtime: Option<Seq<char>>|
            (runtime is Some ==> is_absolute(runtime->0)) && out@ == #[trigger] socket_spec(
                socket_base(runtime, opt_str_view(tmpdir)),
                project@,
            ),
{
    let runtime = runtime_base();
    let ghost base = opt_view(runtime);
    let out = socket_path_in(runtime, tmpdir, project);
    proof {
        assert(out@ == socket_spec(socket_base(base, opt_str_view(tmpdir)), project@));
    }
    out
}

/// The cache dir of `project` below a given base.
pub fn cache_dir_in(base: Option<String>, project: &str) -> (r: Result<String, NoHome>)
    ensures
        match base {
            Some(dir) => r is Ok && r->Ok_0@ == project_dir(dir@, project@),
            None => r is Err && r->Err_0.what@ == "cache dir"@ && r->Err_0.var@
                == "XDG_CACHE_HOME"@,
        },
{
    match base {
        Some(dir) => Ok(dir_of_project(dir.as_str(), project)),
        None => Err(NoHome { what: "cache dir", var: "XDG_CACHE_HOME" }),
    }
}

/// The per-project cache dir: `$XDG_CACHE_HOME`, else `$HOME/.cache`.
pub fn cache_dir(project: &str) -> (r: Result<String, NoHome>)
    ensures
        r is Ok ==> exists|base: Seq<char>| r->Ok_0@ == #[trigger] project_dir(base, project@),
        r is Err ==> r->Err_0.what@ == "cache dir"@ && r->Err_0.var@ == "XDG_CACHE_HOME"@,
{
    cache_dir_in(cache_base(), project)
}

/// The log dir of `project` below a given base.
pub fn log_dir_in(base: Option<String>, project: &str) -> (r: Result<String, NoHome>)
    ensures
        match base {
            Some(dir) => r is Ok && r->Ok_0@ == join_spec(project_dir(dir@, project@), "logs"@),
            None => r is Err && r->Err_0.what@ == "log dir"@ && r->Err_0.var@ == "XDG_STATE_HOME"@,
        },
{
    match base {
        Some(dir) => Ok(
            pathname::join(dir_of_project(dir.as_str(), project).as_str(), "logs"),
        ),
        None => Err(NoHome { what: "log dir", var: "XDG_STATE_HOME" }),
    }
}

/// The per-project log dir: `$XDG_STATE_HOME`, else `$HOME/.local/state`.
pub fn log_dir(project: &str) -> (r: Result<String, NoHome>)
    ensures
        r is Ok ==> exists|base: Seq<char>|
            r->Ok_0@ == join_spec(#[trigger] project_dir(base, project@), "logs"@),
        r is Err ==> r->Err_0.what@ == "log dir"@ && r->Err_0.var@ == "XDG_STATE_HOME"@,
{
    log_dir_in(state_base(), project)
}

// ---------------------------------------------------------------------------
// Files
// ---------------------------------------------------------------------------

/// The cached env dump the freshness state gates.
pub fn env_file(cache_dir: &str) -> (out: String)
    ensures
        out@ == join_spec(cache_dir@, "env"@),
{
    pathname::join(cache_dir, "env")
}

/// The cached freshness digest, lowercase hex with no trailing newline.
pub fn hash_file(cache_dir: &str) -> (out: String)
    ensures
        out@ == join_spec(cache_dir@, "hash"@),
{
    pathname::join(cache_dir, "hash")
}

/// The nix profile `print-dev-env` writes; history pruned after each eval.
pub fn profile_file(cache_dir: &str) -> (out: String)
    ensures
        out@ == join_spec(cache_dir@, "profile"@),
{
    pathname::join(cache_dir, "profile")
}

/// The stamp file binding a project name to exactly one project root.
pub fn project_stamp_file(cache_dir: &str) -> (out: String)
    ensures
        out@ == join_spec(cache_dir@, "project"@),
{
    pathname::join(cache_dir, "project")
}

/// The name of the server log of one run.
pub open spec fn server_log_name(epoch_millis: nat) -> Seq<char> {
    "ncap-server-"@ + number::decimal(epoch_millis) + ".log"@
}

/// The per-run server log file `<log-dir>/ncap-server-<epoch-millis>.log`.
/// Millisecond epochs keep runs started in the same second apart.
pub fn server_log_path(log_dir: &str, epoch_millis: u128) -> (out: String)
    ensures
        out@ == join_spec(log_dir@, server_log_name(epoch_millis as nat)),
{
    let mut name = "ncap-server-".to_owned();
    name.append(number::format_decimal(epoch_millis).as_str());
    name.append(".log");
    pathname::join(log_dir, name.as_str())
}

/// What stands between a prefix and a suffix of `name`.
pub open spec fn between(name: Seq<char>, prefix: Seq<char>, suffix: Seq<char>) -> Option<
    Seq<char>,
> {
    if text::has_prefix(name, prefix) && text::has_suffix(
        name.skip(prefix.len() as int),
        suffix,
    ) {
        Some(name.subrange(prefix.len() as int, name.len() - suffix.len()))
    } else {
        None
    }
}

/// What stands between `prefix` and `suffix` in `name`.
pub fn strip(name: &str, prefix: &str, suffix: &str) -> (r: Option<String>)
    ensures
        match between(name@, prefix@, suffix@) {
            Some(middle) => r is Some && r->0@ == middle,
            None => r is None,
        },
{
    let chars = text::chars_of(name);
    let front = text::chars_of(prefix);
    let back = text::chars_of(suffix);
    if !text::starts_with(&chars, &front) {
        return None;
    }
    if chars.len() - front.len() < back.len() {
        return None;
    }
    let end: usize = chars.len() - back.len();
    proof {
        let rest = name@.skip(prefix@.len() as int);
        assert(rest.subrange(rest.len() - suffix@.len(), rest.len() as int) =~= name@.subrange(
            end as int,
            name@.len() as int,
        ));
    }
    if !text::stands_at(&chars, &back, end) {
        return None;
    }
    Some(text::substring(&chars, front.len(), end))
}

/// The epoch in a server log's name: decimal digits and nothing else, below
/// 2^64.
pub open spec fn server_log_epoch(name: Seq<char>) -> Option<nat> {
    match between(name, "ncap-server-"@, ".log"@) {
        Some(digits) => if digits.len() == 0 {
            None
        } else {
            match number::digits_value(digits) {
                Ok(epoch) => Some(epoch),
                Err(_) => None,
            }
        },
        None => None,
    }
}

/// Parse the epoch stamp out of a server log filename: `None` for anything
/// that is not `ncap-server-<digits>.log`.
pub fn parse_server_log_epoch(name: &str) -> (r: Option<u64>)
    ensures
        match server_log_epoch(name@) {
            Some(epoch) => r == Some(epoch as u64) && epoch <= u64::MAX,
            None => r is None,
        },
{
    let digits = match strip(name, "ncap-server-", ".log") {
        Some(digits) => digits,
        None => return None,
    };
    let chars = text::chars_of(digits.as_str());
    if chars.len() > 0 && chars[0] == '+' {
        proof {
            lemma_sign_is_no_digit(digits@);
        }
        return None;
    }
    match number::parse_number(digits.as_str()) {
        Ok(epoch) => Some(epoch),
        Err(_) => None,
    }
}

/// Digits do not start with a sign.
proof fn lemma_sign_is_no_digit(s: Seq<char>)
    requires
        s.len() > 0,
        s[0] == '+',
    ensures
        number::digits_value(s) is Err,
    decreases s.len(),
{
    if s.len() == 1 {
        assert(s.drop_last() =~= Seq::<char>::empty());
        assert(number::digits_value(s.drop_last()) == Ok::<nat, number::NumberError>(0));
    } else {
        lemma_sign_is_no_digit(s.drop_last());
    }
}

/// A server log's name gives back the epoch it was made from.
pub proof fn law_log_name_gives_its_epoch(epoch: nat)
    requires
        epoch <= u64::MAX,
    ensures
        server_log_epoch(server_log_name(epoch)) == Some(epoch),
{
    number::lemma_decimal_reads_back(epoch);
    let front = "ncap-server-"@;
    let back = ".log"@;
    let digits = number::decimal(epoch);
    let name = server_log_name(epoch);
    let n = front.len() as int;
    assert(name.subrange(0, n) =~= front);
    let rest = name.skip(n);
    assert(rest.subrange(rest.len() - back.len(), rest.len() as int) =~= back);
    assert(name.subrange(n, name.len() - back.len()) =~= digits);
}

/// `i` is the newest server log of `names`: no other has a later epoch, and
/// of equal ones it is the last.
pub open spec fn is_newest(names: Seq<Seq<char>>, i: int) -> bool {
    &&& 0 <= i < names.len()
    &&& server_log_epoch(names[i]) is Some
    &&& forall|j: int|
        0 <= j < names.len() && server_log_epoch(#[trigger] names[j]) is Some
            ==> server_log_epoch(names[j])->0 <= server_log_epoch(names[i])->0 && (j > i
            ==> server_log_epoch(names[j])->0 < server_log_epoch(names[i])->0)
}

/// There is at most one newest server log.
pub proof fn lemma_newest_is_unique(names: Seq<Seq<char>>, i: int, j: int)
    requires
        is_newest(names, i),
        is_newest(names, j),
    ensures
        i == j,
{
    assert(server_log_epoch(names[i]) is Some);
    assert(server_log_epoch(names[j]) is Some);
}

/// The newest server log in `log_dir`, whose entries are `names`, by epoch
/// stamp; `None` when no entry is a server log.
pub fn newest_server_log_path(log_dir: &str, names: &Vec<String>) -> (r: Option<String>)
    ensures
        match r {
            Some(path) => exists|i: int|
                #[trigger] is_newest(views(names@), i) && path@ == join_spec(
                    log_dir@,
                    views(names@)[i],
                ),
            None => forall|j: int|
                0 <= j < names@.len() ==> server_log_epoch(#[trigger] views(names@)[j]) is None,
        },
{
    let ghost all = views(names@);
    let mut newest: Option<(u64, usize)> = None;
    let mut i: usize = 0;
    while i < names.len()
        invariant
            i <= names@.len(),
            all == views(names@),
            match newest {
                Some((epoch, k)) => k < i && server_log_epoch(all[k as int]) == Some(epoch as nat)
                    && is_newest(all.take(i as int), k as int),
                None => forall|j: int|
                    0 <= j < i ==> server_log_epoch(#[trigger] all[j]) is None,
            },
        decreases names@.len() - i,
    {
        let ghost before = newest;
        if let Some(epoch) = parse_server_log_epoch(names[i].as_str()) {
            let replace = match newest {
                Some((latest, _)) => epoch >= latest,
                None => true,
            };
            if replace {
                newest = Some((epoch, i));
            }
        }
        proof {
            let t = all.take(i as int);
            let u = all.take(i + 1);
            assert(all[i as int] == names@[i as int]@);
            if let Some((epoch, k)) = newest {
                assert forall|j: int|
                    0 <= j < u.len() && server_log_epoch(#[trigger] u[j]) is Some implies
                    server_log_epoch(u[j])->0 <= epoch && (j > k ==> server_log_epoch(u[j])->0
                        < epoch) by {
                    if j < i {
                        assert(u[j] == t[j]);
                        if before is None {
                            assert(server_log_epoch(all[j]) is None);
                        }
                    }
                }
                assert(is_newest(u, k as int));
            }
        }
        i = i + 1;
    }
    proof {
        assert(all.take(i as int) =~= all);
    }
    match newest {
        Some((_, k)) => {
            let path = pathname::join(log_dir, names[k].as_str());
            proof {
                assert(is_newest(all, k as int));
            }
            Some(path)
        },
        None => None,
    }
}

/// The layout below a base directory, written out: the project's directory
/// and its socket.
pub proof fn law_layout_hangs_below_its_base(base: Seq<char>, project: Seq<char>)
    ensures
        project_dir(base, project) == join_spec(join_spec(base, "nix-capsule"@), project),
        socket_spec(base, project) == join_spec(
            join_spec(join_spec(base, "nix-capsule"@), project),
            "ncap.sock"@,
        ),
        base.len() > 0 && base.last() != '/' && project.len() > 0 && project[0] != '/'
            && project.last() != '/' ==> {
            &&& project_dir(base, project) == base + "/nix-capsule/"@ + project
            &&& socket_spec(base, project) == base + "/nix-capsule/"@ + project + "/ncap.sock"@
            &&& join_spec(project_dir(base, project), "logs"@) == base + "/nix-capsule/"@
                + project + "/logs"@
        },
{
    reveal_strlit("/nix-capsule/");
    reveal_strlit("nix-capsule");
    reveal_strlit("/ncap.sock");
    reveal_strlit("ncap.sock");
    reveal_strlit("/logs");
    reveal_strlit("logs");
    if base.len() > 0 && base.last() != '/' && project.len() > 0 && project[0] != '/'
        && project.last() != '/' {
        let dir = project_dir(base, project);
        assert(join_spec(base, "nix-capsule"@) =~= base + "/nix-capsule"@) by {
            reveal_strlit("/nix-capsule");
        }
        assert(dir =~= base + "/nix-capsule/"@ + project);
        assert(dir.last() == project.last());
        assert(socket_spec(base, project) =~= base + "/nix-capsule/"@ + project + "/ncap.sock"@);
        assert(join_spec(dir, "logs"@) =~= base + "/nix-capsule/"@ + project + "/logs"@);
    }
}

/// The socket's base: the runtime dir wherever there is one, else a
/// `$TMPDIR` that is not empty, else `/tmp`.
pub proof fn law_socket_base_falls_back(dir: Seq<char>, tmpdir: Option<Seq<char>>)
    ensures
        socket_base(Some(dir), tmpdir) == dir,
        dir.len() > 0 ==> socket_base(None, Some(dir)) == dir,
        socket_base(None, Some(Seq::empty())) == "/tmp"@,
        socket_base(None, None) == "/tmp"@,
{
}

/// What stands between a prefix and a suffix is what was put there, and a
/// name that does not have both has nothing there.
pub proof fn law_strip_undoes_the_wrapping(
    prefix: Seq<char>,
    middle: Seq<char>,
    suffix: Seq<char>,
    name: Seq<char>,
)
    ensures
        between(prefix + middle + suffix, prefix, suffix) == Some(middle),
        between(name, prefix, suffix) matches Some(m) ==> name == prefix + m + suffix,
{
    let whole = prefix + middle + suffix;
    let n = prefix.len() as int;
    assert(whole.subrange(0, n) =~= prefix);
    assert(whole.skip(n) =~= middle + suffix);
    assert((middle + suffix).subrange(
        middle.len() as int,
        (middle + suffix).len() as int,
    ) =~= suffix);
    assert(whole.subrange(n, whole.len() - suffix.len()) =~= middle);
    if let Some(m) = between(name, prefix, suffix) {
        let rest = name.skip(n);
        assert(name =~= prefix + rest);
        assert(rest =~= rest.take(rest.len() - suffix.len()) + rest.subrange(
            rest.len() - suffix.len(),
            rest.len() as int,
        ));
        assert(m =~= rest.take(rest.len() - suffix.len()));
        assert(name =~= prefix + m + suffix);
    }
}

/// A server log is named `ncap-server-`, at least one decimal digit and no
/// other character, `.log`; the digits are its epoch.
pub proof fn law_server_log_names(name: Seq<char>, digits: Seq<char>)
    ensures
        server_log_epoch("ncap-server-"@ + digits + ".log"@) == if digits.len() == 0 {
            None
        } else {
            match number::digits_value(digits) {
                Ok(epoch) => Some(epoch),
                Err(_) => None,
            }
        },
        server_log_epoch(name) is Some ==> exists|d: Seq<char>|
            d.len() > 0 && name == #[trigger] ("ncap-server-"@ + d + ".log"@)
                && number::digits_value(d) == Ok::<nat, number::NumberError>(
                server_log_epoch(name)->0,
            ),
{
    law_strip_undoes_the_wrapping("ncap-server-"@, digits, ".log"@, name);
    if server_log_epoch(name) is Some {
        let d = between(name, "ncap-server-"@, ".log"@)->0;
        assert(name == "ncap-server-"@ + d + ".log"@);
    }
}

/// The newest log is one of the latest run: of the logs of runs started at
/// known epochs none is later, and none that stands further on is as late.
pub proof fn law_newest_log_is_the_latest_run(
    names: Seq<Seq<char>>,
    i: int,
    j: int,
    epoch: nat,
    other: nat,
)
    requires
        is_newest(names, i),
        0 <= j < names.len(),
        epoch <= u64::MAX,
        other <= u64::MAX,
        names[i] == server_log_name(epoch),
        names[j] == server_log_name(other),
    ensures
        other <= epoch,
        j > i ==> other < epoch,
{
    law_log_name_gives_its_epoch(epoch);
    law_log_name_gives_its_epoch(other);
    assert(server_log_epoch(names[j]) is Some);
}

/// A base directory that cannot be had is named by what it is for and by the
/// variable that would set it.
pub proof fn law_missing_base_is_named(err: NoHome)
    ensures
        err.text() == "cannot derive the "@ + err.what@ + ": neither `"@ + err.var@
            + "` nor `HOME` is set"@,
{
}

/// An optional text is its characters, or nothing.
pub proof fn law_optional_text_is_its_characters(s: String, t: &str)
    ensures
        opt_view(Some(s)) == Some(s@),
        opt_view(None) is None,
        opt_str_view(Some(t)) == Some(t@),
        opt_str_view(None) is None,
{
}

/// Where any name is a server log's, one is the newest, and only one.
pub proof fn law_some_server_log_is_the_newest(names: Seq<Seq<char>>, j: int)
    requires
        0 <= j < names.len(),
        server_log_epoch(names[j]) is Some,
    ensures
        exists|i: int| #[trigger] is_newest(names, i),
        forall|i: int, k: int| #[trigger]
            is_newest(names, i) && #[trigger] is_newest(names, k) ==> i == k,
    decreases names.len(),
{
    let before = names.drop_last();
    let n = names.len() - 1;
    if exists|m: int| 0 <= m < before.len() && server_log_epoch(#[trigger] before[m]) is Some {
        let m = choose|m: int| 0 <= m < before.len() && server_log_epoch(#[trigger] before[m]) is Some;
        law_some_server_log_is_the_newest(before, m);
        let i = choose|i: int| #[trigger] is_newest(before, i);
        if server_log_epoch(names[n]) is Some && server_log_epoch(before[i])->0 <= server_log_epoch(names[n])->0 {
            assert forall|m: int|
                0 <= m < names.len() && server_log_epoch(#[trigger] names[m]) is Some implies server_log_epoch(
                names[m],
            )->0 <= server_log_epoch(names[n])->0 by {
                if m < n {
                    assert(before[m] == names[m]);
                }
            }
            assert(is_newest(names, n));
        } else {
            assert forall|m: int|
                0 <= m < names.len() && server_log_epoch(#[trigger] names[m]) is Some implies server_log_epoch(
                names[m],
            )->0 <= server_log_epoch(names[i])->0 && (m > i ==> server_log_epoch(names[m])->0 < server_log_epoch(
                names[i],
            )->0) by {
                if m < n {
                    assert(before[m] == names[m]);
                }
            }
            assert(is_newest(names, i));
        }
    } else {
        assert forall|m: int| 0 <= m < n implies server_log_epoch(#[trigger] names[m]) is None by {
            assert(before[m] == names[m]);
        }
        assert(is_newest(names, n));
    }
    assert forall|i: int, k: int| #[trigger]
        is_newest(names, i) && #[trigger] is_newest(names, k) implies i == k by {
        assert(server_log_epoch(names[i]) is Some);
        assert(server_log_epoch(names[k]) is Some);
    }
}

} // verus!
