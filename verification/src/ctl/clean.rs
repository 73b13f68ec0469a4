//! Cleaning: stop and remove the container, then delete the project's own
//! files and nothing else. An explicit cache or log dir may be shared, so
//! directories go only when they are empty.

use vstd::prelude::*;

use super::config::Config;
use super::error::CtlError;
use super::fs_error::FsError;
use super::paths::{self, between, server_log_epoch};
use crate::pathname::{self, join_spec, parent_spec};
use crate::text::{self, is_digit, views};

verus! {

// ---------------------------------------------------------------------------
// What belongs to the project
// ---------------------------------------------------------------------------

/// `profile-<digits>-link`: a generation link beside the nix profile.
pub open spec fn is_link_name(name: Seq<char>) -> bool {
    between(name, "profile-"@, "-link"@) matches Some(digits) && digits.len() > 0 && forall|i: int|
        0 <= i < digits.len() ==> is_digit(#[trigger] digits[i])
}

/// Whether `name` is a generation link's.
pub fn is_generation_link(name: &str) -> (r: bool)
    ensures
        r == is_link_name(name@),
{
    let digits = match paths::strip(name, "profile-", "-link") {
        Some(digits) => text::chars_of(digits.as_str()),
        None => return false,
    };
    if digits.len() == 0 {
        return false;
    }
    let ghost middle = between(name@, "profile-"@, "-link"@)->0;
    let mut i: usize = 0;
    while i < digits.len()
        invariant
            i <= digits@.len(),
            digits@ == middle,
            between(name@, "profile-"@, "-link"@) == Some(middle),
            forall|j: int| 0 <= j < i ==> is_digit(#[trigger] digits@[j]),
        decreases digits@.len() - i,
    {
        if !text::digit(digits[i]) {
            proof {
                assert(!is_digit(middle[i as int]));
            }
            return false;
        }
        i = i + 1;
    }
    true
}

/// The four named files of the cache layout.
pub open spec fn cache_files(cache_dir: Seq<char>) -> Seq<Seq<char>> {
    seq![
        join_spec(cache_dir, "env"@),
        join_spec(cache_dir, "hash"@),
        join_spec(cache_dir, "profile"@),
        join_spec(cache_dir, "project"@),
    ]
}

/// The four named files of the cache layout.
pub fn named_cache_files(cache_dir: &str) -> (out: Vec<String>)
    ensures
        views(out@) == cache_files(cache_dir@),
{
    let out: Vec<String> = vec![
        paths::env_file(cache_dir),
        paths::hash_file(cache_dir),
        paths::profile_file(cache_dir),
        paths::project_stamp_file(cache_dir),
    ];
    proof {
        assert(views(out@) =~= cache_files(cache_dir@));
    }
    out
}

/// Which entries of a directory are looked for.
#[derive(Clone, Copy, Debug, PartialEq, Eq, Structural)]
pub enum Owned {
    /// The profile's generation links.
    Links,
    /// The server logs.
    Logs,
}

/// The entry is one of those looked for.
pub open spec fn is_owned(owned: Owned, name: Seq<char>) -> bool {
    match owned {
        Owned::Links => is_link_name(name),
        Owned::Logs => server_log_epoch(name) is Some,
    }
}

/// The paths of the entries looked for, in the order of the listing.
pub open spec fn owned_paths(owned: Owned, dir: Seq<char>, names: Seq<Seq<char>>) -> Seq<Seq<char>>
    decreases names.len(),
{
    if names.len() == 0 {
        Seq::empty()
    } else {
        let before = owned_paths(owned, dir, names.drop_last());
        if is_owned(owned, names.last()) {
            before.push(join_spec(dir, names.last()))
        } else {
            before
        }
    }
}

/// The paths of the entries of `dir` that are looked for.
pub fn select(owned: Owned, dir: &str, names: &Vec<String>) -> (out: Vec<String>)
    ensures
        views(out@) == owned_paths(owned, dir@, views(names@)),
{
    let ghost all = views(names@);
    let mut out: Vec<String> = Vec::new();
    let mut i: usize = 0;
    proof {
        assert(views(out@) =~= owned_paths(owned, dir@, all.take(0)));
    }
    while i < names.len()
        invariant
            i <= names@.len(),
            all == views(names@),
            views(out@) == owned_paths(owned, dir@, all.take(i as int)),
        decreases names@.len() - i,
    {
        proof {
            let t = all.take(i + 1);
            assert(t.drop_last() =~= all.take(i as int));
            assert(t.last() == names@[i as int]@);
        }
        let mine = match owned {
            Owned::Links => is_generation_link(names[i].as_str()),
            Owned::Logs => paths::parse_server_log_epoch(names[i].as_str()).is_some(),
        };
        if mine {
            let path = pathname::join(dir, names[i].as_str());
            text::push_text(&mut out, path.as_str());
        }
        i = i + 1;
    }
    proof {
        assert(all.take(i as int) =~= all);
    }
    out
}

// ---------------------------------------------------------------------------
// The steps
// ---------------------------------------------------------------------------

/// How far the cleaning is: the step whose outcome is awaited.
#[derive(Clone, Copy, Debug, PartialEq, Eq, Structural)]
pub enum CleanStage {
    /// Whether the container runs is asked.
    Running,
    /// The container is stopped.
    Stop,
    /// The container is removed.
    Remove,
    /// A named cache file is removed.
    File,
    /// The cache dir is listed.
    Links,
    /// What a generation link is, is asked.
    LinkKind,
    /// A generation link is removed.
    Link,
    /// The cache dir is removed, if it is empty.
    CacheDir,
    /// The log dir is listed.
    Logs,
    /// A server log is removed.
    Log,
    /// The log dir is removed, if it is empty.
    LogDir,
    /// The socket is removed.
    Socket,
    /// The socket's directory is removed, if it is empty.
    SocketDir,
    /// Over.
    Over,
}

/// What came of a step. Causes come as their text.
pub enum CleanEvent {
    /// It is over, well or not.
    Done,
    /// The answer to a question.
    Answer(bool),
    /// The file is gone now.
    Removed,
    /// There was no such file, and what the system says to that.
    NotFound(String),
    /// It failed for another reason.
    Failed(String),
    /// The names in a directory, and why the listing broke off, if it did.
    Listed { names: Vec<String>, broken: Option<String> },
}

/// The next step.
pub enum CleanAction {
    /// Ask whether the container runs.
    AskRunning,
    /// Stop the container; a failure does not matter.
    StopContainer,
    /// Remove the container; a failure does not matter.
    RemoveContainer,
    /// Remove this file, a link itself and not what it points to.
    RemoveFile(String),
    /// Remove this directory with all that is in it.
    RemoveTree(String),
    /// Ask whether this is a real directory, links not followed.
    AskDir(String),
    /// List this directory.
    ListDir(String),
    /// Remove this directory if it is empty; a failure does not matter.
    RemoveDir(String),
    /// Stop, with the result.
    Finish(Result<(), CtlError>),
}

/// A cleaning on its way.
pub struct CleanRun {
    pub cache_dir: String,
    pub log_dir: String,
    pub socket: String,
    pub stage: CleanStage,
    /// The paths that are removed one by one, and the one that is next.
    pub queue: Vec<String>,
    pub at: usize,
    /// Why the listing that the queue came from broke off.
    pub broken: Option<String>,
}

impl CleanRun {
    /// The path that is next belongs to the project, by the stage.
    pub open spec fn owns(self, path: Seq<char>) -> bool {
        match self.stage {
            CleanStage::File => cache_files(self.cache_dir@).contains(path),
            CleanStage::LinkKind | CleanStage::Link => owned_in(
                Owned::Links,
                self.cache_dir@,
                path,
            ),
            CleanStage::Log => owned_in(Owned::Logs, self.log_dir@, path),
            _ => true,
        }
    }

    /// What the stage relies on is there.
    pub open spec fn wf(self) -> bool {
        match self.stage {
            CleanStage::File | CleanStage::LinkKind | CleanStage::Link | CleanStage::Log => {
                &&& self.at < self.queue.len()
                &&& forall|i: int| 0 <= i < self.queue@.len() ==> self.owns((#[trigger] self.queue@[i])@)
            },
            CleanStage::Socket | CleanStage::SocketDir => parent_spec(self.socket@) is Some,
            _ => true,
        }
    }

    /// The directories and the socket stay the same.
    pub open spec fn same_project(self, before: CleanRun) -> bool {
        &&& self.cache_dir == before.cache_dir
        &&& self.log_dir == before.log_dir
        &&& self.socket == before.socket
    }
}

/// `path` is an entry of `dir` of the given kind.
pub open spec fn owned_in(owned: Owned, dir: Seq<char>, path: Seq<char>) -> bool {
    exists|name: Seq<char>| #[trigger] is_owned(owned, name) && path == join_spec(dir, name)
}

/// The cleaning ends well.
pub open spec fn clean_succeeds(stage: CleanStage, action: CleanAction) -> bool {
    stage == CleanStage::Over && action == CleanAction::Finish(Ok(()))
}

/// The cleaning ends in this failure.
pub open spec fn clean_fails(stage: CleanStage, action: CleanAction, err: FsError) -> bool {
    stage == CleanStage::Over && action == CleanAction::Finish(Err(CtlError::Fs(err)))
}

/// The cleaning ends over a path that could not be removed.
pub open spec fn remove_fails(
    stage: CleanStage,
    action: CleanAction,
    path: Seq<char>,
    source: String,
) -> bool {
    stage == CleanStage::Over && (action matches CleanAction::Finish(Err(CtlError::Fs(
        FsError::Remove { path: p, source: s },
    ))) && p@ == path && s == source)
}

/// The cleaning ends over a directory that could not be listed.
pub open spec fn list_fails(
    stage: CleanStage,
    action: CleanAction,
    dir: Seq<char>,
    source: Seq<char>,
) -> bool {
    stage == CleanStage::Over && (action matches CleanAction::Finish(Err(CtlError::Fs(
        FsError::ReadDir { dir: d, source: s },
    ))) && d@ == dir && s@ == source)
}

/// The next named file, or the listing of the cache dir.
pub open spec fn goes_files(c: CleanRun, action: CleanAction) -> bool {
    if c.at < c.queue@.len() {
        c.stage == CleanStage::File && (action matches CleanAction::RemoveFile(path) && path@
            == c.queue@[c.at as int]@)
    } else {
        c.stage == CleanStage::Links && (action matches CleanAction::ListDir(dir) && dir@
            == c.cache_dir@)
    }
}

/// The next generation link, or the cache dir itself.
pub open spec fn goes_links(c: CleanRun, action: CleanAction) -> bool {
    if c.at < c.queue@.len() {
        c.stage == CleanStage::LinkKind && (action matches CleanAction::AskDir(path) && path@
            == c.queue@[c.at as int]@)
    } else {
        match c.broken {
            Some(source) => list_fails(c.stage, action, c.cache_dir@, source@),
            None => goes_cache_dir(c, action),
        }
    }
}

/// The cache dir itself.
pub open spec fn goes_cache_dir(c: CleanRun, action: CleanAction) -> bool {
    c.stage == CleanStage::CacheDir && (action matches CleanAction::RemoveDir(dir) && dir@
        == c.cache_dir@)
}

/// The next server log, or the log dir itself.
pub open spec fn goes_logs(c: CleanRun, action: CleanAction) -> bool {
    if c.at < c.queue@.len() {
        c.stage == CleanStage::Log && (action matches CleanAction::RemoveFile(path) && path@
            == c.queue@[c.at as int]@)
    } else {
        match c.broken {
            Some(source) => list_fails(c.stage, action, c.log_dir@, source@),
            None => c.stage == CleanStage::LogDir && (action matches CleanAction::RemoveDir(dir)
                && dir@ == c.log_dir@),
        }
    }
}

/// The socket, where it has a directory.
pub open spec fn goes_socket(c: CleanRun, action: CleanAction) -> bool {
    if parent_spec(c.socket@) is Some {
        c.stage == CleanStage::Socket && (action matches CleanAction::RemoveFile(path) && path@
            == c.socket@)
    } else {
        clean_succeeds(c.stage, action)
    }
}

/// The next place in the same queue.
pub open spec fn advanced(before: CleanRun, after: CleanRun) -> bool {
    after.queue == before.queue && after.at == before.at + 1 && after.broken == before.broken
}

/// The event is an outcome that the awaited step can have.
pub open spec fn clean_accepts(stage: CleanStage, event: CleanEvent) -> bool {
    match stage {
        CleanStage::Running => event is Answer,
        CleanStage::Stop | CleanStage::Remove | CleanStage::CacheDir | CleanStage::LogDir
            | CleanStage::SocketDir => event is Done,
        CleanStage::File | CleanStage::Link | CleanStage::Log | CleanStage::Socket => event
            is Removed || event is NotFound || event is Failed,
        CleanStage::Links | CleanStage::Logs => event is Listed || event is NotFound || event
            is Failed,
        CleanStage::LinkKind => event is Answer || event is Failed,
        CleanStage::Over => false,
    }
}

/// What the cleaning does about the outcome of its last step.
pub open spec fn clean_step(
    before: CleanRun,
    event: CleanEvent,
    after: CleanRun,
    action: CleanAction,
) -> bool {
    let path = before.queue@[before.at as int]@;
    &&& after.same_project(before)
    &&& match (before.stage, event) {
        (CleanStage::Running, CleanEvent::Answer(running)) => if running {
            after.stage == CleanStage::Stop && action is StopContainer
        } else {
            after.stage == CleanStage::Remove && action is RemoveContainer
        },
        (CleanStage::Stop, _) => after.stage == CleanStage::Remove && action is RemoveContainer,
        (CleanStage::Remove, _) => after.at == 0 && views(after.queue@) == cache_files(
            before.cache_dir@,
        ) && goes_files(after, action),
        // A file that is not there is fine.
        (CleanStage::File, CleanEvent::Failed(source)) => remove_fails(
            after.stage,
            action,
            path,
            source,
        ),
        (CleanStage::File, _) => advanced(before, after) && goes_files(after, action),
        (CleanStage::Links, CleanEvent::Listed { names, broken }) => after.at == 0 && after.broken
            == broken && views(after.queue@) == owned_paths(
            Owned::Links,
            before.cache_dir@,
            views(names@),
        ) && goes_links(after, action),
        (CleanStage::Links, CleanEvent::Failed(source)) => list_fails(
            after.stage,
            action,
            before.cache_dir@,
            source@,
        ),
        (CleanStage::Links, _) => goes_cache_dir(after, action),
        (CleanStage::LinkKind, CleanEvent::Answer(is_dir)) => after.stage == CleanStage::Link
            && after.queue == before.queue && after.at == before.at && after.broken
            == before.broken && if is_dir {
            action matches CleanAction::RemoveTree(p) && p@ == path
        } else {
            action matches CleanAction::RemoveFile(p) && p@ == path
        },
        (CleanStage::LinkKind, CleanEvent::Failed(source)) => after.stage == CleanStage::Over && (
        action matches CleanAction::Finish(Err(CtlError::Fs(
            FsError::Read { path: p, source: s },
        ))) && p@ == path && s == source),
        (CleanStage::Link, CleanEvent::Removed) => advanced(before, after) && goes_links(
            after,
            action,
        ),
        (CleanStage::Link, CleanEvent::NotFound(source)) => remove_fails(
            after.stage,
            action,
            path,
            source,
        ),
        (CleanStage::Link, CleanEvent::Failed(source)) => remove_fails(
            after.stage,
            action,
            path,
            source,
        ),
        (CleanStage::CacheDir, _) => after.stage == CleanStage::Logs && (action matches
            CleanAction::ListDir(dir) && dir@ == before.log_dir@),
        (CleanStage::Logs, CleanEvent::Listed { names, broken }) => after.at == 0 && after.broken
            == broken && views(after.queue@) == owned_paths(
            Owned::Logs,
            before.log_dir@,
            views(names@),
        ) && goes_logs(after, action),
        (CleanStage::Logs, CleanEvent::Failed(source)) => list_fails(
            after.stage,
            action,
            before.log_dir@,
            source@,
        ),
        (CleanStage::Logs, _) => goes_socket(after, action),
        (CleanStage::Log, CleanEvent::Failed(source)) => remove_fails(
            after.stage,
            action,
            path,
            source,
        ),
        (CleanStage::Log, _) => advanced(before, after) && goes_logs(after, action),
        (CleanStage::LogDir, _) => goes_socket(after, action),
        (CleanStage::Socket, CleanEvent::Failed(source)) => remove_fails(
            after.stage,
            action,
            before.socket@,
            source,
        ),
        (CleanStage::Socket, _) => after.stage == CleanStage::SocketDir && (action matches
            CleanAction::RemoveDir(dir) && Some(dir@) == parent_spec(before.socket@)),
        (CleanStage::SocketDir, _) => clean_succeeds(after.stage, action),
        _ => true,
    }
}

proof fn lemma_owned_paths(owned: Owned, dir: Seq<char>, names: Seq<Seq<char>>)
    ensures
        forall|i: int|
            0 <= i < owned_paths(owned, dir, names).len() ==> owned_in(
                owned,
                dir,
                #[trigger] owned_paths(owned, dir, names)[i],
            ),
    decreases names.len(),
{
    if names.len() > 0 {
        let before = owned_paths(owned, dir, names.drop_last());
        lemma_owned_paths(owned, dir, names.drop_last());
        let all = owned_paths(owned, dir, names);
        assert forall|i: int| 0 <= i < all.len() implies owned_in(
            owned,
            dir,
            #[trigger] all[i],
        ) by {
            if i < before.len() {
                assert(all[i] == before[i]);
            } else {
                assert(is_owned(owned, names.last()));
            }
        }
    }
}

impl CleanRun {
    /// A cleaning at its first step.
    pub fn begin(cfg: &Config) -> (r: (Self, CleanAction))
        ensures
            r.0.wf(),
            r.0.stage == CleanStage::Running,
            r.0.cache_dir@ == cfg.cache_dir@,
            r.0.log_dir@ == cfg.log_dir@,
            r.0.socket@ == cfg.socket@,
            r.1 is AskRunning,
    {
        let queue: Vec<String> = Vec::new();
        let run = CleanRun {
            cache_dir: cfg.cache_dir.clone(),
            log_dir: cfg.log_dir.clone(),
            socket: cfg.socket.clone(),
            stage: CleanStage::Running,
            queue,
            at: 0,
            broken: None,
        };
        (run, CleanAction::AskRunning)
    }

    /// Take in the outcome of the last step and say what to do next.
    pub fn step(&mut self, event: CleanEvent) -> (action: CleanAction)
        requires
            old(self).wf(),
            clean_accepts(old(self).stage, event),
        ensures
            clean_step(*old(self), event, *final(self), action),
            final(self).wf(),
    {
        match (self.stage, event) {
            (CleanStage::Running, CleanEvent::Answer(true)) => {
                self.stage = CleanStage::Stop;
                CleanAction::StopContainer
            },
            (CleanStage::Running, _) | (CleanStage::Stop, _) => {
                self.stage = CleanStage::Remove;
                CleanAction::RemoveContainer
            },
            (CleanStage::Remove, _) => {
                self.queue = named_cache_files(self.cache_dir.as_str());
                self.at = 0;
                proof {
                    let want = cache_files(self.cache_dir@);
                    assert forall|i: int| 0 <= i < self.queue@.len() implies want.contains(
                        (#[trigger] self.queue@[i])@,
                    ) by {
                        assert(views(self.queue@)[i] == want[i]);
                    }
                }
                self.next_file()
            },
            (CleanStage::File, CleanEvent::Failed(source)) => self.remove_failed(source),
            (CleanStage::File, _) => {
                self.at = self.at + 1;
                self.next_file()
            },
            (CleanStage::Links, CleanEvent::Listed { names, broken }) => {
                self.queue = select(Owned::Links, self.cache_dir.as_str(), &names);
                self.at = 0;
                self.broken = broken;
                proof {
                    lemma_owned_paths(Owned::Links, self.cache_dir@, views(names@));
                    assert forall|i: int| 0 <= i < self.queue@.len() implies owned_in(
                        Owned::Links,
                        self.cache_dir@,
                        (#[trigger] self.queue@[i])@,
                    ) by {
                        assert(views(self.queue@)[i] == self.queue@[i]@);
                    }
                }
                self.next_link()
            },
            (CleanStage::Links, CleanEvent::Failed(source)) => {
                let dir = self.cache_dir.clone();
                self.list_failed(dir, source)
            },
            (CleanStage::Links, _) => self.drop_cache_dir(),
            (CleanStage::LinkKind, CleanEvent::Failed(source)) => {
                let path = self.queue[self.at].clone();
                self.fail(FsError::Read { path, source })
            },
            (CleanStage::LinkKind, CleanEvent::Answer(true)) => {
                self.stage = CleanStage::Link;
                CleanAction::RemoveTree(self.queue[self.at].clone())
            },
            (CleanStage::LinkKind, _) => {
                self.stage = CleanStage::Link;
                CleanAction::RemoveFile(self.queue[self.at].clone())
            },
            (CleanStage::Link, CleanEvent::Failed(source)) => self.remove_failed(source),
            (CleanStage::Link, CleanEvent::NotFound(source)) => self.remove_failed(source),
            (CleanStage::Link, _) => {
                self.at = self.at + 1;
                self.next_link()
            },
            (CleanStage::CacheDir, _) => {
                self.stage = CleanStage::Logs;
                CleanAction::ListDir(self.log_dir.clone())
            },
            (CleanStage::Logs, CleanEvent::Listed { names, broken }) => {
                self.queue = select(Owned::Logs, self.log_dir.as_str(), &names);
                self.at = 0;
                self.broken = broken;
                proof {
                    lemma_owned_paths(Owned::Logs, self.log_dir@, views(names@));
                    assert forall|i: int| 0 <= i < self.queue@.len() implies owned_in(
                        Owned::Logs,
                        self.log_dir@,
                        (#[trigger] self.queue@[i])@,
                    ) by {
                        assert(views(self.queue@)[i] == self.queue@[i]@);
                    }
                }
                self.next_log()
            },
            (CleanStage::Logs, CleanEvent::Failed(source)) => {
                let dir = self.log_dir.clone();
                self.list_failed(dir, source)
            },
            (CleanStage::Logs, _) | (CleanStage::LogDir, _) => self.drop_socket(),
            (CleanStage::Log, CleanEvent::Failed(source)) => self.remove_failed(source),
            (CleanStage::Log, _) => {
                self.at = self.at + 1;
                self.next_log()
            },
            (CleanStage::Socket, CleanEvent::Failed(source)) => {
                let path = self.socket.clone();
                self.fail(FsError::Remove { path, source })
            },
            (CleanStage::Socket, _) => match pathname::parent(self.socket.as_str()) {
                Some(dir) => {
                    self.stage = CleanStage::SocketDir;
                    CleanAction::RemoveDir(dir)
                },
                None => self.succeed(),
            },
            _ => self.succeed(),
        }
    }

    /// Nothing but the stage changes.
    pub open spec fn moved(self, before: CleanRun) -> bool {
        &&& self.same_project(before)
        &&& self.queue == before.queue
        &&& self.at == before.at
        &&& self.broken == before.broken
    }

    fn succeed(&mut self) -> (action: CleanAction)
        ensures
            final(self).moved(*old(self)),
            clean_succeeds(final(self).stage, action),
    {
        self.stage = CleanStage::Over;
        CleanAction::Finish(Ok(()))
    }

    fn fail(&mut self, err: FsError) -> (action: CleanAction)
        ensures
            final(self).moved(*old(self)),
            clean_fails(final(self).stage, action, err),
    {
        self.stage = CleanStage::Over;
        CleanAction::Finish(Err(CtlError::Fs(err)))
    }

    fn remove_failed(&mut self, source: String) -> (action: CleanAction)
        requires
            old(self).at < old(self).queue.len(),
        ensures
            final(self).moved(*old(self)),
            remove_fails(
                final(self).stage,
                action,
                old(self).queue@[old(self).at as int]@,
                source,
            ),
    {
        let path = self.queue[self.at].clone();
        self.fail(FsError::Remove { path, source })
    }

    fn list_failed(&mut self, dir: String, source: String) -> (action: CleanAction)
        ensures
            final(self).moved(*old(self)),
            list_fails(final(self).stage, action, dir@, source@),
    {
        self.fail(FsError::ReadDir { dir, source })
    }

    fn next_file(&mut self) -> (action: CleanAction)
        requires
            forall|i: int|
                0 <= i < old(self).queue@.len() ==> cache_files(old(self).cache_dir@).contains(
                    (#[trigger] old(self).queue@[i])@,
                ),
        ensures
            final(self).moved(*old(self)),
            goes_files(*final(self), action),
            final(self).wf(),
    {
        if self.at < self.queue.len() {
            self.stage = CleanStage::File;
            CleanAction::RemoveFile(self.queue[self.at].clone())
        } else {
            self.stage = CleanStage::Links;
            CleanAction::ListDir(self.cache_dir.clone())
        }
    }

    fn next_link(&mut self) -> (action: CleanAction)
        requires
            forall|i: int|
                0 <= i < old(self).queue@.len() ==> owned_in(
                    Owned::Links,
                    old(self).cache_dir@,
                    (#[trigger] old(self).queue@[i])@,
                ),
        ensures
            final(self).moved(*old(self)),
            goes_links(*final(self), action),
            final(self).wf(),
    {
        if self.at < self.queue.len() {
            self.stage = CleanStage::LinkKind;
            return CleanAction::AskDir(self.queue[self.at].clone());
        }
        let dir = self.cache_dir.clone();
        let broken = match &self.broken {
            Some(source) => Some(source.clone()),
            None => None,
        };
        match broken {
            Some(source) => self.list_failed(dir, source),
            None => self.drop_cache_dir(),
        }
    }

    fn drop_cache_dir(&mut self) -> (action: CleanAction)
        ensures
            final(self).moved(*old(self)),
            goes_cache_dir(*final(self), action),
    {
        self.stage = CleanStage::CacheDir;
        CleanAction::RemoveDir(self.cache_dir.clone())
    }

    fn next_log(&mut self) -> (action: CleanAction)
        requires
            forall|i: int|
                0 <= i < old(self).queue@.len() ==> owned_in(
                    Owned::Logs,
                    old(self).log_dir@,
                    (#[trigger] old(self).queue@[i])@,
                ),
        ensures
            final(self).moved(*old(self)),
            goes_logs(*final(self), action),
            final(self).wf(),
    {
        if self.at < self.queue.len() {
            self.stage = CleanStage::Log;
            return CleanAction::RemoveFile(self.queue[self.at].clone());
        }
        let dir = self.log_dir.clone();
        let broken = match &self.broken {
            Some(source) => Some(source.clone()),
            None => None,
        };
        match broken {
            Some(source) => self.list_failed(dir, source),
            None => {
                self.stage = CleanStage::LogDir;
                CleanAction::RemoveDir(dir)
            },
        }
    }

    fn drop_socket(&mut self) -> (action: CleanAction)
        ensures
            final(self).moved(*old(self)),
            goes_socket(*final(self), action),
            final(self).wf(),
    {
        match pathname::parent(self.socket.as_str()) {
            Some(_) => {
                self.stage = CleanStage::Socket;
                CleanAction::RemoveFile(self.socket.clone())
            },
            None => self.succeed(),
        }
    }
}

/// A path that cleaning may delete: a named cache file, a generation link in
/// the cache dir, a server log in the log dir, or the socket.
pub open spec fn is_project_file(c: CleanRun, path: Seq<char>) -> bool {
    ||| cache_files(c.cache_dir@).contains(path)
    ||| owned_in(Owned::Links, c.cache_dir@, path)
    ||| owned_in(Owned::Logs, c.log_dir@, path)
    ||| path == c.socket@
}

/// Cleaning deletes the project's own files and nothing else: no step removes
/// any other file, a tree goes only for a generation link, and no directory is
/// given up but the cache dir, the log dir and the socket's.
pub proof fn law_clean_spares_foreign_files(
    before: CleanRun,
    event: CleanEvent,
    after: CleanRun,
    action: CleanAction,
)
    requires
        before.wf(),
        clean_accepts(before.stage, event),
        clean_step(before, event, after, action),
        after.wf(),
    ensures
        action matches CleanAction::RemoveFile(path) ==> is_project_file(before, path@),
        action matches CleanAction::RemoveTree(path) ==> owned_in(
            Owned::Links,
            before.cache_dir@,
            path@,
        ),
        action matches CleanAction::RemoveDir(dir) ==> dir@ == before.cache_dir@ || dir@
            == before.log_dir@ || Some(dir@) == parent_spec(before.socket@),
{
    if after.at < after.queue@.len() {
        assert(after.owns(after.queue@[after.at as int]@) || !(after.stage is File || after.stage
            is LinkKind || after.stage is Link || after.stage is Log));
    }
}

/// A cleaning ends exactly when it reports a result.
pub proof fn law_clean_ends_with_a_result(
    before: CleanRun,
    event: CleanEvent,
    after: CleanRun,
    action: CleanAction,
)
    requires
        before.wf(),
        clean_accepts(before.stage, event),
        clean_step(before, event, after, action),
    ensures
        action is Finish <==> after.stage == CleanStage::Over,
{
}

// ---------------------------------------------------------------------------
// A whole cleaning
// ---------------------------------------------------------------------------

/// Steps that follow one another from the first: `events[i]` is what
/// `runs[i]` awaited, and `actions[i]` what was asked for then.
pub open spec fn is_clean_course(
    runs: Seq<CleanRun>,
    events: Seq<CleanEvent>,
    actions: Seq<CleanAction>,
) -> bool {
    &&& runs.len() == events.len() + 1
    &&& actions.len() == events.len()
    &&& events.len() > 0
    &&& runs[0].stage == CleanStage::Running
    &&& forall|i: int|
        0 <= i < events.len() ==> clean_accepts(runs[i].stage, #[trigger] events[i]) && clean_step(
            runs[i],
            events[i],
            runs[i + 1],
            actions[i],
        )
}

/// What has come of a cleaning so far.
pub struct Tally {
    /// The paths that were asked to be removed and are gone.
    pub gone: Set<Seq<char>>,
    /// The names that were listed in the cache dir.
    pub cached: Seq<Seq<char>>,
    /// The names that were listed in the log dir.
    pub logged: Seq<Seq<char>>,
}

/// The path that an action removes.
pub open spec fn removed_path(action: CleanAction) -> Option<Seq<char>> {
    match action {
        CleanAction::RemoveFile(path) => Some(path@),
        CleanAction::RemoveTree(path) => Some(path@),
        _ => None,
    }
}

/// What has come of the first `n` outcomes: a path is gone once the step that
/// removes it says so, or says that nothing was there.
pub open spec fn tally(
    runs: Seq<CleanRun>,
    events: Seq<CleanEvent>,
    actions: Seq<CleanAction>,
    n: int,
) -> Tally
    decreases n,
{
    if n <= 0 {
        Tally { gone: Set::empty(), cached: Seq::empty(), logged: Seq::empty() }
    } else {
        let before = tally(runs, events, actions, n - 1);
        match events[n - 1] {
            CleanEvent::Removed | CleanEvent::NotFound(_) => if n >= 2 && removed_path(
                actions[n - 2],
            ) is Some {
                Tally { gone: before.gone.insert(removed_path(actions[n - 2])->0), ..before }
            } else {
                before
            },
            CleanEvent::Listed { names, .. } => if runs[n - 1].stage == CleanStage::Links {
                Tally { cached: views(names@), ..before }
            } else {
                Tally { logged: views(names@), ..before }
            },
            _ => before,
        }
    }
}

/// Every listed name of the given kind is gone.
pub open spec fn owned_gone(
    owned: Owned,
    dir: Seq<char>,
    names: Seq<Seq<char>>,
    gone: Set<Seq<char>>,
) -> bool {
    forall|i: int|
        0 <= i < names.len() && is_owned(owned, #[trigger] names[i]) ==> gone.contains(
            join_spec(dir, names[i]),
        )
}

/// Every named cache file is gone.
pub open spec fn files_gone(cache_dir: Seq<char>, gone: Set<Seq<char>>) -> bool {
    forall|i: int|
        0 <= i < cache_files(cache_dir).len() ==> gone.contains(
            #[trigger] cache_files(cache_dir)[i],
        )
}

/// The stages in their order.
spec fn rank(stage: CleanStage) -> int {
    match stage {
        CleanStage::Running | CleanStage::Stop | CleanStage::Remove => 0,
        CleanStage::File => 1,
        CleanStage::Links => 2,
        CleanStage::LinkKind | CleanStage::Link => 3,
        CleanStage::CacheDir => 4,
        CleanStage::Logs => 5,
        CleanStage::Log => 6,
        CleanStage::LogDir | CleanStage::Socket | CleanStage::SocketDir => 7,
        CleanStage::Over => 8,
    }
}

/// The queue holds `want`, and what stands before its place is gone.
spec fn queue_gone(c: CleanRun, want: Seq<Seq<char>>, gone: Set<Seq<char>>) -> bool {
    &&& views(c.queue@) == want
    &&& c.at < want.len()
    &&& forall|i: int| 0 <= i < c.at ==> gone.contains(#[trigger] want[i])
}

/// What the cleaning at a stage has behind it.
spec fn on_course(c: CleanRun, last: Option<Seq<char>>, t: Tally) -> bool {
    let r = rank(c.stage);
    &&& c.stage == CleanStage::File ==> queue_gone(c, cache_files(c.cache_dir@), t.gone) && last
        == Some(cache_files(c.cache_dir@)[c.at as int])
    &&& r >= 2 ==> files_gone(c.cache_dir@, t.gone)
    &&& r <= 2 ==> t.cached.len() == 0
    &&& r == 3 ==> queue_gone(c, owned_paths(Owned::Links, c.cache_dir@, t.cached), t.gone)
    &&& c.stage == CleanStage::Link ==> last == Some(
        owned_paths(Owned::Links, c.cache_dir@, t.cached)[c.at as int],
    )
    &&& r >= 4 ==> owned_gone(Owned::Links, c.cache_dir@, t.cached, t.gone)
    &&& r <= 5 ==> t.logged.len() == 0
    &&& r == 6 ==> queue_gone(c, owned_paths(Owned::Logs, c.log_dir@, t.logged), t.gone) && last
        == Some(owned_paths(Owned::Logs, c.log_dir@, t.logged)[c.at as int])
    &&& r >= 7 ==> owned_gone(Owned::Logs, c.log_dir@, t.logged, t.gone)
    &&& c.stage == CleanStage::Socket ==> last == Some(c.socket@)
    &&& c.stage == CleanStage::SocketDir ==> t.gone.contains(c.socket@)
}

/// Every listed name of the kind is among the paths looked for.
proof fn lemma_owned_is_queued(owned: Owned, dir: Seq<char>, names: Seq<Seq<char>>, i: int)
    requires
        0 <= i < names.len(),
        is_owned(owned, names[i]),
    ensures
        owned_paths(owned, dir, names).contains(join_spec(dir, names[i])),
    decreases names.len(),
{
    let front = names.drop_last();
    let all = owned_paths(owned, dir, names);
    let before = owned_paths(owned, dir, front);
    if i == names.len() - 1 {
        assert(all[all.len() - 1] == join_spec(dir, names[i]));
    } else {
        assert(front[i] == names[i]);
        lemma_owned_is_queued(owned, dir, front, i);
        let k = choose|k: int| 0 <= k < before.len() && before[k] == join_spec(dir, names[i]);
        assert(all[k] == before[k]);
    }
}

/// Where the whole queue is gone, so is every listed name of the kind.
proof fn lemma_queue_gone(
    owned: Owned,
    dir: Seq<char>,
    names: Seq<Seq<char>>,
    gone: Set<Seq<char>>,
)
    requires
        forall|i: int|
            0 <= i < owned_paths(owned, dir, names).len() ==> gone.contains(
                #[trigger] owned_paths(owned, dir, names)[i],
            ),
    ensures
        owned_gone(owned, dir, names, gone),
{
    assert forall|i: int| 0 <= i < names.len() && is_owned(owned, #[trigger] names[i]) implies
        gone.contains(join_spec(dir, names[i])) by {
        lemma_owned_is_queued(owned, dir, names, i);
        let paths = owned_paths(owned, dir, names);
        let k = choose|k: int| 0 <= k < paths.len() && paths[k] == join_spec(dir, names[i]);
        assert(gone.contains(paths[k]));
    }
}

/// A cleaning that is not over is on course.
proof fn lemma_on_course(
    runs: Seq<CleanRun>,
    events: Seq<CleanEvent>,
    actions: Seq<CleanAction>,
    n: int,
)
    requires
        is_clean_course(runs, events, actions),
        0 <= n < events.len(),
    ensures
        runs[n].same_project(runs[0]),
        runs[n].stage != CleanStage::Over,
        on_course(
            runs[n],
            if n > 0 {
                removed_path(actions[n - 1])
            } else {
                None
            },
            tally(runs, events, actions, n),
        ),
    decreases n,
{
    assert(clean_accepts(runs[n].stage, events[n]));
    if n > 0 {
        lemma_on_course(runs, events, actions, n - 1);
        let c = runs[n - 1];
        let d = runs[n];
        let event = events[n - 1];
        let t = tally(runs, events, actions, n - 1);
        let u = tally(runs, events, actions, n);
        assert(clean_step(c, event, d, actions[n - 1]));
        match (c.stage, event) {
            (CleanStage::Remove, _) => {
                assert(views(d.queue@)[0] == cache_files(d.cache_dir@)[0]);
            },
            (CleanStage::File, _) => {
                let want = cache_files(c.cache_dir@);
                assert(forall|i: int| 0 <= i < d.at ==> u.gone.contains(#[trigger] want[i]));
                if d.at < want.len() {
                    assert(views(d.queue@)[d.at as int] == want[d.at as int]);
                }
            },
            (CleanStage::Links, CleanEvent::Listed { names, .. }) => {
                let want = owned_paths(Owned::Links, c.cache_dir@, views(names@));
                assert(views(d.queue@).len() == d.queue@.len());
                if want.len() == 0 {
                    lemma_queue_gone(Owned::Links, c.cache_dir@, u.cached, u.gone);
                }
            },
            (CleanStage::LinkKind, _) => {
                assert(views(c.queue@)[c.at as int] == c.queue@[c.at as int]@);
            },
            (CleanStage::Link, _) => {
                let want = owned_paths(Owned::Links, c.cache_dir@, t.cached);
                assert(forall|i: int| 0 <= i < d.at ==> u.gone.contains(#[trigger] want[i]));
                assert(views(d.queue@).len() == d.queue@.len());
                if d.at >= want.len() {
                    lemma_queue_gone(Owned::Links, c.cache_dir@, u.cached, u.gone);
                }
            },
            (CleanStage::Logs, CleanEvent::Listed { names, .. }) => {
                let want = owned_paths(Owned::Logs, c.log_dir@, views(names@));
                assert(views(d.queue@).len() == d.queue@.len());
                if want.len() == 0 {
                    lemma_queue_gone(Owned::Logs, c.log_dir@, u.logged, u.gone);
                } else {
                    assert(views(d.queue@)[0] == d.queue@[0]@);
                }
            },
            (CleanStage::Log, _) => {
                let want = owned_paths(Owned::Logs, c.log_dir@, t.logged);
                assert(forall|i: int| 0 <= i < d.at ==> u.gone.contains(#[trigger] want[i]));
                assert(views(d.queue@).len() == d.queue@.len());
                if d.at >= want.len() {
                    lemma_queue_gone(Owned::Logs, c.log_dir@, u.logged, u.gone);
                } else {
                    assert(views(d.queue@)[d.at as int] == d.queue@[d.at as int]@);
                }
            },
            _ => {},
        }
    }
}

/// A cleaning that ends well has removed all that is the project's: every
/// named cache file, every generation link and every server log that was
/// listed, and the socket where it has a directory, are gone.
pub proof fn law_clean_removes_the_project_files(
    runs: Seq<CleanRun>,
    events: Seq<CleanEvent>,
    actions: Seq<CleanAction>,
)
    requires
        is_clean_course(runs, events, actions),
        actions[actions.len() - 1] == CleanAction::Finish(Ok(())),
    ensures
        ({
            let c = runs[0];
            let t = tally(runs, events, actions, events.len() as int);
            &&& files_gone(c.cache_dir@, t.gone)
            &&& owned_gone(Owned::Links, c.cache_dir@, t.cached, t.gone)
            &&& owned_gone(Owned::Logs, c.log_dir@, t.logged, t.gone)
            &&& parent_spec(c.socket@) is Some ==> t.gone.contains(c.socket@)
        }),
{
    let last = events.len() - 1;
    lemma_on_course(runs, events, actions, last);
    assert(clean_step(runs[last], events[last], runs[last + 1], actions[last]));
}

/// What is the project's, by name: four files of the cache, the links
/// `profile-<digits>-link` beside the profile, and the server logs.
pub proof fn law_project_files_by_name(cache_dir: Seq<char>, name: Seq<char>, digits: Seq<char>)
    ensures
        cache_files(cache_dir) == seq![
            join_spec(cache_dir, "env"@),
            join_spec(cache_dir, "hash"@),
            join_spec(cache_dir, "profile"@),
            join_spec(cache_dir, "project"@),
        ],
        is_owned(Owned::Links, "profile-"@ + digits + "-link"@) <==> digits.len() > 0 && forall|
            i: int,
        |
            0 <= i < digits.len() ==> '0' <= #[trigger] digits[i] <= '9',
        is_owned(Owned::Links, name) ==> exists|d: Seq<char>|
            name == #[trigger] ("profile-"@ + d + "-link"@),
        is_owned(Owned::Logs, "ncap-server-"@ + digits + ".log"@) <==> digits.len() > 0
            && crate::number::digits_value(digits) is Ok,
        is_owned(Owned::Logs, name) ==> exists|d: Seq<char>|
            name == #[trigger] ("ncap-server-"@ + d + ".log"@),
{
    paths::law_strip_undoes_the_wrapping("profile-"@, digits, "-link"@, name);
    paths::law_server_log_names(name, digits);
    if is_owned(Owned::Links, "profile-"@ + digits + "-link"@) {
        assert forall|i: int| 0 <= i < digits.len() implies '0' <= #[trigger] digits[i]
            <= '9' by {
            assert(is_digit(digits[i]));
        }
    }
    if digits.len() > 0 && (forall|i: int|
        0 <= i < digits.len() ==> '0' <= #[trigger] digits[i] <= '9') {
        assert forall|i: int| 0 <= i < digits.len() implies is_digit(#[trigger] digits[i]) by {}
    }
    if is_owned(Owned::Links, name) {
        let d = between(name, "profile-"@, "-link"@)->0;
        assert(name == "profile-"@ + d + "-link"@);
    }
}

/// Of a listing, exactly the entries that are the project's are taken, below
/// their directory and in order.
pub proof fn law_listing_is_sifted(
    owned: Owned,
    dir: Seq<char>,
    names: Seq<Seq<char>>,
    name: Seq<char>,
)
    ensures
        owned_paths(owned, dir, Seq::empty()) == Seq::<Seq<char>>::empty(),
        owned_paths(owned, dir, names.push(name)) == if is_owned(owned, name) {
            owned_paths(owned, dir, names) + seq![join_spec(dir, name)]
        } else {
            owned_paths(owned, dir, names)
        },
{
    assert(names.push(name).drop_last() =~= names);
    let before = owned_paths(owned, dir, names);
    assert(before.push(join_spec(dir, name)) =~= before + seq![join_spec(dir, name)]);
}

/// The container goes first: one that runs is stopped, and then, or at once,
/// it is removed; nothing that comes of either matters.
pub proof fn law_container_goes_first(
    before: CleanRun,
    event: CleanEvent,
    after: CleanRun,
    action: CleanAction,
)
    requires
        clean_accepts(before.stage, event),
        clean_step(before, event, after, action),
    ensures
        before.stage == CleanStage::Running && event == CleanEvent::Answer(true) ==> action
            is StopContainer && after.stage == CleanStage::Stop,
        before.stage == CleanStage::Running && event == CleanEvent::Answer(false) ==> action
            is RemoveContainer && after.stage == CleanStage::Remove,
        before.stage == CleanStage::Stop ==> action is RemoveContainer && after.stage
            == CleanStage::Remove,
        before.stage == CleanStage::Remove ==> (action matches CleanAction::RemoveFile(path)
            && path@ == join_spec(before.cache_dir@, "env"@)),
{
    if before.stage == CleanStage::Remove {
        assert(views(after.queue@).len() == after.queue@.len());
        assert(views(after.queue@)[0] == cache_files(before.cache_dir@)[0]);
    }
}

/// A file that is not there is as good as removed, but a removal or listing
/// that fails for another reason ends the cleaning and names its path. A
/// generation link goes by what it is: a directory as a tree, anything else
/// as a file.
pub proof fn law_failed_removal_ends_the_cleaning(
    before: CleanRun,
    event: CleanEvent,
    after: CleanRun,
    action: CleanAction,
)
    requires
        before.wf(),
        clean_accepts(before.stage, event),
        clean_step(before, event, after, action),
    ensures
        ({
            let path = before.queue@[before.at as int]@;
            let in_queue = before.stage == CleanStage::File || before.stage == CleanStage::Link
                || before.stage == CleanStage::Log;
            &&& in_queue && event is Failed ==> (action matches CleanAction::Finish(
                Err(CtlError::Fs(FsError::Remove { path: p, source })),
            ) && p@ == path && source@ == event->Failed_0@)
            &&& before.stage == CleanStage::Socket && event is Failed ==> (action matches
                CleanAction::Finish(Err(CtlError::Fs(FsError::Remove { path: p, source }))) && p@
                == before.socket@ && source@ == event->Failed_0@)
            &&& before.stage == CleanStage::Links && event is Failed ==> (action matches
                CleanAction::Finish(Err(CtlError::Fs(FsError::ReadDir { dir, source }))) && dir@
                == before.cache_dir@ && source@ == event->Failed_0@)
            &&& before.stage == CleanStage::Logs && event is Failed ==> (action matches
                CleanAction::Finish(Err(CtlError::Fs(FsError::ReadDir { dir, source }))) && dir@
                == before.log_dir@ && source@ == event->Failed_0@)
            &&& before.stage == CleanStage::LinkKind && event is Failed ==> (action matches
                CleanAction::Finish(Err(CtlError::Fs(FsError::Read { path: p, source }))) && p@
                == path && source@ == event->Failed_0@)
            &&& (before.stage == CleanStage::File || before.stage == CleanStage::Log) && (event
                is Removed || event is NotFound) ==> after.at == before.at + 1 && after.queue
                == before.queue
            &&& before.stage == CleanStage::LinkKind && event == CleanEvent::Answer(true) ==> (
            action matches CleanAction::RemoveTree(p) && p@ == path)
            &&& before.stage == CleanStage::LinkKind && event == CleanEvent::Answer(false) ==> (
            action matches CleanAction::RemoveFile(p) && p@ == path)
        }),
{
}

/// The directories come last, each once its own files are gone: the cache
/// directory, then the log directory, then the socket and its directory. A
/// directory that is not there is passed over, and a listing that broke off
/// fails once what it named is gone.
pub proof fn law_directories_come_last(
    before: CleanRun,
    event: CleanEvent,
    after: CleanRun,
    action: CleanAction,
)
    requires
        before.wf(),
        clean_accepts(before.stage, event),
        clean_step(before, event, after, action),
    ensures
        before.stage == CleanStage::File && (event is Removed || event is NotFound) && before.at + 1
            == before.queue@.len() ==> (action matches CleanAction::ListDir(dir) && dir@
            == before.cache_dir@),
        before.stage == CleanStage::Links && event is NotFound ==> (action matches
            CleanAction::RemoveDir(dir) && dir@ == before.cache_dir@),
        before.stage == CleanStage::Link && event is Removed && before.at + 1 == before.queue@.len()
            && before.broken is None ==> (action matches CleanAction::RemoveDir(dir) && dir@
            == before.cache_dir@),
        before.stage == CleanStage::Link && event is Removed && before.at + 1 == before.queue@.len()
            && before.broken is Some ==> (action matches CleanAction::Finish(
            Err(CtlError::Fs(FsError::ReadDir { dir, source })),
        ) && dir@ == before.cache_dir@ && source@ == before.broken->0@),
        before.stage == CleanStage::CacheDir ==> (action matches CleanAction::ListDir(dir) && dir@
            == before.log_dir@),
        before.stage == CleanStage::Log && (event is Removed || event is NotFound) && before.at + 1
            == before.queue@.len() && before.broken is None ==> (action matches
            CleanAction::RemoveDir(dir) && dir@ == before.log_dir@),
        before.stage == CleanStage::Log && (event is Removed || event is NotFound) && before.at + 1
            == before.queue@.len() && before.broken is Some ==> (action matches
            CleanAction::Finish(Err(CtlError::Fs(FsError::ReadDir { dir, source }))) && dir@
            == before.log_dir@ && source@ == before.broken->0@),
        (before.stage == CleanStage::LogDir || (before.stage == CleanStage::Logs && event
            is NotFound)) && parent_spec(before.socket@) is Some ==> (action matches
            CleanAction::RemoveFile(path) && path@ == before.socket@),
        before.stage == CleanStage::Socket && (event is Removed || event is NotFound) ==> (action
            matches CleanAction::RemoveDir(dir) && Some(dir@) == parent_spec(before.socket@)),
        before.stage == CleanStage::SocketDir ==> action == CleanAction::Finish(Ok(())),
{
}

} // verus!
