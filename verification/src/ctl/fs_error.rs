//! Filesystem failures: the failed operation and its object as data, the
//! cause as its text.

use vstd::prelude::*;

verus! {

/// Filesystem operation failures with the failed path riding as data.
#[derive(Debug, Clone, PartialEq, Eq)]
pub enum FsError {
    CreateDir { dir: String, source: String },
    Open { path: String, source: String },
    Read { path: String, source: String },
    Write { path: String, source: String },
    ReadDir { dir: String, source: String },
    Remove { path: String, source: String },
}

/// `cannot <verb> <object>: <cause>`.
pub open spec fn cannot(verb: Seq<char>, object: Seq<char>, cause: Seq<char>) -> Seq<char> {
    "cannot "@ + verb + " `"@ + object + "`: "@ + cause
}

fn say_cannot(verb: &str, object: &str, cause: &str) -> (out: String)
    ensures
        out@ == cannot(verb@, object@, cause@),
{
    let mut out = "cannot ".to_owned();
    out.append(verb);
    out.append(" `");
    out.append(object);
    out.append("`: ");
    out.append(cause);
    out
}

impl FsError {
    /// What `message` says.
    pub open spec fn text(self) -> Seq<char> {
        match self {
            FsError::CreateDir { dir, source } => cannot("create"@, dir@, source@),
            FsError::Open { path, source } => cannot("open"@, path@, source@),
            FsError::Read { path, source } => cannot("read"@, path@, source@),
            FsError::Write { path, source } => cannot("write"@, path@, source@),
            FsError::ReadDir { dir, source } => cannot("read"@, dir@, source@),
            FsError::Remove { path, source } => cannot("remove"@, path@, source@),
        }
    }

    /// One line for people.
    pub fn message(&self) -> (out: String)
        ensures
            out@ == self.text(),
    {
        match self {
            FsError::CreateDir { dir, source } => say_cannot(
                "create",
                dir.as_str(),
                source.as_str(),
            ),
            FsError::Open { path, source } => say_cannot("open", path.as_str(), source.as_str()),
            FsError::Read { path, source } => say_cannot("read", path.as_str(), source.as_str()),
            FsError::Write { path, source } => say_cannot("write", path.as_str(), source.as_str()),
            FsError::ReadDir { dir, source } => say_cannot("read", dir.as_str(), source.as_str()),
            FsError::Remove { path, source } => say_cannot(
                "remove",
                path.as_str(),
                source.as_str(),
            ),
        }
    }
}

/// A filesystem failure names what was tried, on what, and why it failed.
pub proof fn law_fs_errors_say_what_failed(dir: String, path: String, source: String)
    ensures
        (FsError::CreateDir { dir, source }).text() == "cannot create `"@ + dir@ + "`: "@ + source@,
        (FsError::Open { path, source }).text() == "cannot open `"@ + path@ + "`: "@ + source@,
        (FsError::Read { path, source }).text() == "cannot read `"@ + path@ + "`: "@ + source@,
        (FsError::Write { path, source }).text() == "cannot write `"@ + path@ + "`: "@ + source@,
        (FsError::ReadDir { dir, source }).text() == "cannot read `"@ + dir@ + "`: "@ + source@,
        (FsError::Remove { path, source }).text() == "cannot remove `"@ + path@ + "`: "@ + source@,
{
    reveal_strlit("cannot ");
    reveal_strlit(" `");
    reveal_strlit("create");
    reveal_strlit("open");
    reveal_strlit("read");
    reveal_strlit("write");
    reveal_strlit("remove");
    reveal_strlit("cannot create `");
    reveal_strlit("cannot open `");
    reveal_strlit("cannot read `");
    reveal_strlit("cannot write `");
    reveal_strlit("cannot remove `");
    assert("cannot "@ + "create"@ + " `"@ =~= "cannot create `"@);
    assert("cannot "@ + "open"@ + " `"@ =~= "cannot open `"@);
    assert("cannot "@ + "read"@ + " `"@ =~= "cannot read `"@);
    assert("cannot "@ + "write"@ + " `"@ =~= "cannot write `"@);
    assert("cannot "@ + "remove"@ + " `"@ =~= "cannot remove `"@);
}

} // verus!
