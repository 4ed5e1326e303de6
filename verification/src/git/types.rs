//! Pure domain types shared by the git layer and the UI, with their
//! mathematical views.

use vstd::prelude::*;

use crate::text::strs;

verus! {

/// Which "diff area" a file or hunk belongs to. Commands dispatch on this.
#[derive(Debug, Clone, Copy, PartialEq, Eq, Hash, Structural)]
pub enum DiffArea {
    Untracked,
    Unstaged,
    Staged,
    /// Read-only diffs (revision buffers). Not a target for stage/unstage.
    Committed,
}

pub open spec fn opt_view(o: Option<String>) -> Option<Seq<char>> {
    match o {
        Some(s) => Some(s@),
        None => None,
    }
}

#[derive(Debug, Clone, PartialEq, Eq)]
pub struct Hunk {
    pub old_start: u32,
    pub old_count: u32,
    pub new_start: u32,
    pub new_count: u32,
    /// The full `@@ -a,b +c,d @@ ctx` line as emitted by git.
    pub header: String,
    /// Content lines including their `' '`/`'+'`/`'-'`/`'\\'` prefix.
    pub lines: Vec<String>,
}

#[verifier::ext_equal]
pub struct HunkView {
    pub old_start: u32,
    pub old_count: u32,
    pub new_start: u32,
    pub new_count: u32,
    pub header: Seq<char>,
    pub lines: Seq<Seq<char>>,
}

impl View for Hunk {
    type V = HunkView;

    open spec fn view(&self) -> HunkView {
        HunkView {
            old_start: self.old_start,
            old_count: self.old_count,
            new_start: self.new_start,
            new_count: self.new_count,
            header: self.header@,
            lines: strs(self.lines@),
        }
    }
}

#[derive(Debug, Clone, PartialEq, Eq)]
pub struct FileDiff {
    pub path: String,
    /// Set for renames: the pre-rename path.
    pub old_path: Option<String>,
    pub is_new: bool,
    pub is_deleted: bool,
    pub is_binary: bool,
    pub hunks: Vec<Hunk>,
}

#[verifier::ext_equal]
pub struct FileDiffView {
    pub path: Seq<char>,
    pub old_path: Option<Seq<char>>,
    pub is_new: bool,
    pub is_deleted: bool,
    pub is_binary: bool,
    pub hunks: Seq<HunkView>,
}

impl View for FileDiff {
    type V = FileDiffView;

    open spec fn view(&self) -> FileDiffView {
        FileDiffView {
            path: self.path@,
            old_path: opt_view(self.old_path),
            is_new: self.is_new,
            is_deleted: self.is_deleted,
            is_binary: self.is_binary,
            hunks: self.hunks@.map_values(|h: Hunk| h@),
        }
    }
}

pub open spec fn opt_file_view(o: Option<FileDiff>) -> Option<FileDiffView> {
    match o {
        Some(f) => Some(f@),
        None => None,
    }
}

pub open spec fn opt_hunk_view(o: Option<Hunk>) -> Option<HunkView> {
    match o {
        Some(h) => Some(h@),
        None => None,
    }
}

/// The views of a list of file diffs.
pub open spec fn file_views(v: Seq<FileDiff>) -> Seq<FileDiffView> {
    v.map_values(|f: FileDiff| f@)
}

/// A file diff with no path and no changes.
pub open spec fn empty_file_diff() -> FileDiffView {
    FileDiffView {
        path: Seq::empty(),
        old_path: None,
        is_new: false,
        is_deleted: false,
        is_binary: false,
        hunks: Seq::empty(),
    }
}

impl Default for FileDiff {
    fn default() -> (r: Self)
        ensures
            r@ == empty_file_diff(),
    {
        let r = FileDiff {
            path: String::new(),
            old_path: None,
            is_new: false,
            is_deleted: false,
            is_binary: false,
            hunks: Vec::new(),
        };
        assert(r@.hunks =~= Seq::<HunkView>::empty());
        r
    }
}

pub open spec fn status_word_spec(f: FileDiffView) -> Seq<char> {
    if f.is_new {
        "new file"@
    } else if f.is_deleted {
        "deleted "@
    } else if f.old_path is Some {
        "renamed "@
    } else {
        "modified"@
    }
}

impl FileDiff {
    /// The status column shown before the path in the status buffer.
    pub fn status_word(&self) -> (r: &'static str)
        ensures
            r@ == status_word_spec(self@),
    {
        if self.is_new {
            "new file"
        } else if self.is_deleted {
            "deleted "
        } else if self.old_path.is_some() {
            "renamed "
        } else {
            "modified"
        }
    }
}

/// One row of the log buffer and of the status "Recent commits" list (which
/// leaves `author`/`date` empty).
#[derive(Debug, Clone, PartialEq, Eq)]
pub struct LogEntry {
    /// Abbreviated hash.
    pub hash: String,
    /// Ref decorations (`%D`): branch/tag/HEAD names, empty when undecorated.
    pub refs: String,
    pub subject: String,
    pub author: String,
    /// Relative author date (`%ar`), e.g. "3 days ago".
    pub date: String,
}

#[verifier::ext_equal]
pub struct LogEntryView {
    pub hash: Seq<char>,
    pub refs: Seq<char>,
    pub subject: Seq<char>,
    pub author: Seq<char>,
    pub date: Seq<char>,
}

impl View for LogEntry {
    type V = LogEntryView;

    open spec fn view(&self) -> LogEntryView {
        LogEntryView {
            hash: self.hash@,
            refs: self.refs@,
            subject: self.subject@,
            author: self.author@,
            date: self.date@,
        }
    }
}

/// What kind of ref a `RefEntry` names, deciding its group and color in the
/// references buffer.
#[derive(Debug, Clone, Copy, PartialEq, Eq, Structural)]
pub enum RefKind {
    LocalBranch,
    RemoteBranch,
    Tag,
}

/// One row of the references buffer: a branch, remote-tracking branch or tag
/// with the commit it points at and (for branches) its upstream tracking
/// state.
#[derive(Debug, Clone, PartialEq, Eq)]
pub struct RefEntry {
    pub kind: RefKind,
    /// Short name, e.g. "main", "origin/main", "v1.0".
    pub name: String,
    /// Abbreviated object id.
    pub hash: String,
    /// Commit (or annotated-tag) subject.
    pub subject: String,
    /// `upstream:short` — the tracked branch, empty when none.
    pub upstream: String,
    /// `upstream:track` — e.g. "[ahead 1, behind 2]" or "[gone]", empty when none.
    pub track: String,
    /// The currently checked-out branch (`%(HEAD)` == "*").
    pub is_head: bool,
}

#[derive(Debug, Clone, PartialEq, Eq)]
pub struct StashInfo {
    pub index: usize,
    pub message: String,
}

#[verifier::ext_equal]
pub struct StashInfoView {
    pub index: usize,
    pub message: Seq<char>,
}

impl View for StashInfo {
    type V = StashInfoView;

    open spec fn view(&self) -> StashInfoView {
        StashInfoView { index: self.index, message: self.message@ }
    }
}

#[derive(Debug, Clone, PartialEq, Eq)]
pub struct BranchInfo {
    /// Branch name, `None` when detached.
    pub head: Option<String>,
    pub detached: bool,
    /// HEAD commit id, `None` on an unborn branch.
    pub oid: Option<String>,
    pub upstream: Option<String>,
    pub ahead: i64,
    pub behind: i64,
}

#[verifier::ext_equal]
pub struct BranchInfoView {
    pub head: Option<Seq<char>>,
    pub detached: bool,
    pub oid: Option<Seq<char>>,
    pub upstream: Option<Seq<char>>,
    pub ahead: i64,
    pub behind: i64,
}

impl View for BranchInfo {
    type V = BranchInfoView;

    open spec fn view(&self) -> BranchInfoView {
        BranchInfoView {
            head: opt_view(self.head),
            detached: self.detached,
            oid: opt_view(self.oid),
            upstream: opt_view(self.upstream),
            ahead: self.ahead,
            behind: self.behind,
        }
    }
}

pub open spec fn empty_branch_info() -> BranchInfoView {
    BranchInfoView { head: None, detached: false, oid: None, upstream: None, ahead: 0, behind: 0 }
}

impl Default for BranchInfo {
    fn default() -> (r: Self)
        ensures
            r@ == empty_branch_info(),
    {
        BranchInfo { head: None, detached: false, oid: None, upstream: None, ahead: 0, behind: 0 }
    }
}

/// Everything the status buffer needs, read in one refresh pass.
#[derive(Debug, Clone)]
pub struct StatusSnapshot {
    pub branch: BranchInfo,
    /// `<short-hash> <subject>` of HEAD, if any.
    pub head_summary: Option<String>,
    /// In-progress operation ("merging", "rebasing", ...), if any.
    pub state: Option<String>,
    pub untracked: Vec<String>,
    pub unmerged: Vec<String>,
    pub unstaged: Vec<FileDiff>,
    pub staged: Vec<FileDiff>,
    pub stashes: Vec<StashInfo>,
    pub recent: Vec<LogEntry>,
}

} // verus!
