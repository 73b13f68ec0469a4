//! Binds a project name to exactly one project root.

use vstd::prelude::*;

use super::fs_error::FsError;
use crate::text::{self, trim_newlines};

verus! {

/// Failures of the stamp guard.
#[derive(Debug, Clone, PartialEq, Eq)]
pub enum StampError {
    AlreadyClaimed { project: String, existing: String },
    Fs(FsError),
}

impl StampError {
    /// What `message` says.
    pub open spec fn text(self) -> Seq<char> {
        match self {
            StampError::AlreadyClaimed { project, existing } => "project name `"@ + project@
                + "` is already keyed to root `"@ + existing@ + "`"@,
            StampError::Fs(err) => err.text(),
        }
    }

    /// One line for people.
    pub fn message(&self) -> (out: String)
        ensures
            out@ == self.text(),
    {
        match self {
            StampError::AlreadyClaimed { project, existing } => {
                let mut out = "project name `".to_owned();
                out.append(project.as_str());
                out.append("` is already keyed to root `");
                out.append(existing.as_str());
                out.append("`");
                out
            },
            StampError::Fs(err) => err.message(),
        }
    }
}

/// A stamp that reads `existing` admits `root`.
pub open spec fn admits(existing: Seq<char>, root: Seq<char>) -> bool {
    trim_newlines(existing) == root
}

/// The same root passes silently, a different one is a hard error that names
/// the root the project is keyed to.
pub fn judge(existing: &str, project: &str, root: &str) -> (r: Result<(), StampError>)
    ensures
        admits(existing@, root@) ==> r is Ok,
        !admits(existing@, root@) ==> (r matches Err(
            StampError::AlreadyClaimed { project: p, existing: e },
        ) && p@ == project@ && e@ == trim_newlines(existing@)),
{
    let existing = text::strip_newlines(existing);
    if text::same(existing.as_str(), root) {
        Ok(())
    } else {
        Err(StampError::AlreadyClaimed { project: project.to_owned(), existing })
    }
}

/// A root that was stamped passes again and shuts every other root out, as
/// long as it does not end in a line feed or carriage return.
pub proof fn law_stamp_keeps_its_root(root: Seq<char>, other: Seq<char>)
    requires
        root.len() > 0 ==> root.last() != '\n' && root.last() != '\r',
    ensures
        admits(root, root),
        admits(root, other) ==> other == root,
        admits(root.push('\n'), root),
{
    assert(root.push('\n').drop_last() =~= root);
    reveal_with_fuel(text::trim_newlines, 2);
}

/// A stamp binds its root, with or without line ends behind it, and no
/// other. The failure names the project and the root that it is keyed to.
pub proof fn law_stamp_admits_its_root_alone(
    root: Seq<char>,
    ends: Seq<char>,
    other: Seq<char>,
    claimed: StampError,
)
    requires
        root.len() > 0 ==> root.last() != '\n' && root.last() != '\r',
        forall|i: int| 0 <= i < ends.len() ==> (#[trigger] ends[i]) == '\n' || ends[i] == '\r',
    ensures
        admits(root + ends, other) <==> other == root,
        claimed matches StampError::AlreadyClaimed { project, existing } ==> text::occurs(
            claimed.text(),
            project@,
        ) && text::occurs(claimed.text(), existing@),
{
    text::law_only_trailing_line_ends_go(root, ends);
    if let StampError::AlreadyClaimed { project, existing } = claimed {
        let front = "project name `"@;
        let middle = "` is already keyed to root `"@;
        let back = "`"@;
        let t = claimed.text();
        text::law_occurrence_splits_the_text(front, project@, middle + existing@ + back);
        text::law_occurrence_splits_the_text(front + project@ + middle, existing@, back);
        assert(front + project@ + (middle + existing@ + back) =~= t);
    }
}

} // verus!
