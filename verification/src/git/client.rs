//! The decisions around shelling out to the `git` CLI: which commands a
//! snapshot read needs, how a failed read is reported, how the in-progress
//! operation is detected, and how the outputs become a `StatusSnapshot`.
//! Spawning the processes is the application's job.

use vstd::prelude::*;

use super::parse::{
    diff_spec, log_entries_spec, parse_diff, parse_log_entries, parse_stash_list,
    parse_status_v2, stash_list_spec, status_v2_spec,
};
use super::types::{
    file_views, BranchInfo, BranchInfoView, FileDiffView, LogEntry, LogEntryView, StashInfo,
    StashInfoView, StatusSnapshot,
};
use crate::text::{chars_of, join_spaced, push_char, push_str, string_of, strs, trim, trim_end, trim_exec};

verus! {

/// SHA-1 of the empty tree; lets `diff --cached` work on an unborn branch.
pub const EMPTY_TREE: &'static str = "4b825dc642cb6eb9a060e54bf8d69288fbee4904";

#[derive(Debug)]
pub enum GitError {
    /// git could not be started; the message of the operating-system error.
    Spawn(String),
    Failed { cmd: String, code: i32, stderr: String },
}

#[derive(Debug, Clone)]
pub struct GitOutput {
    pub status: i32,
    pub stdout: String,
    pub stderr: String,
}

impl GitOutput {
    pub fn ok(&self) -> (r: bool)
        ensures
            r == (self.status == 0),
    {
        self.status == 0
    }
}

/// One executed git command, kept for the `$` process-log buffer.
#[derive(Debug, Clone)]
pub struct ProcessEntry {
    pub cmd: String,
    pub status: i32,
    pub output: String,
}

/// Where the repository lives: its work tree and its git directory.
#[derive(Debug, Clone)]
pub struct GitClient {
    pub repo_root: String,
    pub git_dir: String,
}

pub open spec fn str_views(v: Seq<&str>) -> Seq<Seq<char>> {
    v.map_values(|a: &str| a@)
}

/// What a failed read reports: the command, its exit code and its trimmed
/// standard error.
pub open spec fn read_failure_spec(args: Seq<Seq<char>>, status: i32, stderr: Seq<char>) -> (
    Seq<char>,
    i32,
    Seq<char>,
) {
    (join_spaced(args), status, trim(stderr))
}

pub open spec fn failed_parts(e: GitError) -> Option<(Seq<char>, i32, Seq<char>)> {
    match e {
        GitError::Failed { cmd, code, stderr } => Some((cmd@, code, stderr@)),
        GitError::Spawn(_) => None,
    }
}

fn join_args(args: &[&str]) -> (r: String)
    ensures
        r@ == join_spaced(str_views(args@)),
{
    let mut out = String::new();
    let mut i: usize = 0;
    let ghost v = str_views(args@);
    assert(v.subrange(0, 0) =~= Seq::<Seq<char>>::empty());
    while i < args.len()
        invariant
            i <= args.len(),
            v == str_views(args@),
            out@ == join_spaced(v.subrange(0, i as int)),
        decreases args.len() - i,
    {
        if i > 0 {
            push_char(&mut out, ' ');
        }
        push_str(&mut out, args[i]);
        i += 1;
        assert(v.subrange(0, i as int).drop_last() =~= v.subrange(0, i - 1));
        if i == 1 {
            assert(out@ =~= v.subrange(0, 1)[0]);
        } else {
            assert(out@ =~= join_spaced(v.subrange(0, i - 1)) + seq![' '] + v[i - 1]);
        }
    }
    assert(v.subrange(0, args@.len() as int) =~= v);
    out
}

/// The error a read reports when git exits non-zero.
pub fn read_failure(args: &[&str], out: &GitOutput) -> (e: GitError)
    ensures
        failed_parts(e) == Some(read_failure_spec(str_views(args@), out.status, out.stderr@)),
{
    let cmd = join_args(args);
    let err = chars_of(out.stderr.as_str());
    let trimmed = trim_exec(&err);
    GitError::Failed { cmd, code: out.status, stderr: string_of(&trimmed) }
}

/// Like `run` but turns a non-zero exit into `Err` — for reads that must succeed.
pub fn check_read(args: &[&str], out: GitOutput) -> (r: Result<GitOutput, GitError>)
    ensures
        out.status == 0 ==> r is Ok && r->Ok_0.stdout@ == out.stdout@,
        out.status != 0 ==> r is Err && failed_parts(r->Err_0) == Some(
            read_failure_spec(str_views(args@), out.status, out.stderr@),
        ),
{
    if out.ok() {
        Ok(out)
    } else {
        Err(read_failure(args, &out))
    }
}

/// The work-tree root reported by `git rev-parse --show-toplevel`, or the
/// error that discovery fails with.
pub fn discovered_root(out: &GitOutput) -> (r: Result<String, GitError>)
    ensures
        out.status == 0 ==> r is Ok && r->Ok_0@ == trim_end(out.stdout@),
        out.status != 0 ==> r is Err && failed_parts(r->Err_0) == Some(
            ("rev-parse --show-toplevel"@, out.status, trim(out.stderr@)),
        ),
{
    if !out.ok() {
        let err = chars_of(out.stderr.as_str());
        let trimmed = trim_exec(&err);
        let mut cmd = String::new();
        push_str(&mut cmd, "rev-parse --show-toplevel");
        assert(cmd@ =~= "rev-parse --show-toplevel"@);
        return Err(GitError::Failed { cmd, code: out.status, stderr: string_of(&trimmed) });
    }
    let v = chars_of(out.stdout.as_str());
    Ok(trimmed_end(&v))
}

/// `s` without trailing whitespace, as a string.
pub fn trimmed_end(v: &Vec<char>) -> (r: String)
    ensures
        r@ == trim_end(v@),
{
    let mut e = v.len();
    while e > 0 && crate::text::is_whitespace_char(v[e - 1])
        invariant
            e <= v.len(),
            forall|j: int| e <= j < v.len() ==> crate::text::is_whitespace(#[trigger] v@[j]),
        decreases e,
    {
        e -= 1;
    }
    proof {
        crate::text::lemma_trim_end_at(v@, e as int);
    }
    let t = crate::text::subvec(v, 0, e);
    string_of(&t)
}

impl GitClient {
    /// The client for the repository at `repo_root`, whose git directory is
    /// the trimmed output of `git rev-parse --absolute-git-dir`.
    pub fn new(repo_root: String, git_dir_out: &GitOutput) -> (r: GitClient)
        ensures
            r.repo_root@ == repo_root@,
            r.git_dir@ == trim_end(git_dir_out.stdout@),
    {
        let v = chars_of(git_dir_out.stdout.as_str());
        GitClient { repo_root, git_dir: trimmed_end(&v) }
    }
}

/// Human-readable rendering of one argument: quoted when it holds a space.
pub open spec fn display_arg(a: Seq<char>) -> Seq<char> {
    if crate::text::contains(a, seq![' ']) {
        seq!['\''] + a + seq!['\'']
    } else {
        a
    }
}

pub open spec fn display_cmd_spec(args: Seq<Seq<char>>) -> Seq<char>
    decreases args.len(),
{
    if args.len() == 0 {
        "git"@
    } else {
        display_cmd_spec(args.drop_last()) + seq![' '] + display_arg(args.last())
    }
}

/// Human-readable command line for messages and the process log.
pub fn display_cmd(args: &[String]) -> (r: String)
    ensures
        r@ == display_cmd_spec(strs(args@)),
{
    let mut s = String::new();
    push_str(&mut s, "git");
    let ghost v = strs(args@);
    let sp = vec![' '];
    assert(sp@ =~= seq![' ']);
    let mut i: usize = 0;
    assert(v.subrange(0, 0) =~= Seq::<Seq<char>>::empty());
    assert(s@ =~= "git"@);
    while i < args.len()
        invariant
            i <= args.len(),
            v == strs(args@),
            sp@ == seq![' '],
            s@ == display_cmd_spec(v.subrange(0, i as int)),
        decreases args.len() - i,
    {
        let a = &args[i];
        let av = chars_of(a.as_str());
        push_char(&mut s, ' ');
        if crate::text::find_exec(&av, &sp).is_some() {
            push_char(&mut s, '\'');
            push_str(&mut s, a.as_str());
            push_char(&mut s, '\'');
        } else {
            push_str(&mut s, a.as_str());
        }
        i += 1;
        assert(v.subrange(0, i as int).drop_last() =~= v.subrange(0, i - 1));
        assert(s@ =~= display_cmd_spec(v.subrange(0, i as int)));
    }
    assert(v.subrange(0, args@.len() as int) =~= v);
    s
}

/// Which marker files exist in the git directory.
pub struct RepoMarkers {
    pub rebase_merge: bool,
    pub rebase_apply: bool,
    pub merge_head: bool,
    pub cherry_pick_head: bool,
    pub revert_head: bool,
    pub bisect_log: bool,
}

pub open spec fn repo_state_spec(m: RepoMarkers) -> Option<Seq<char>> {
    if m.rebase_merge || m.rebase_apply {
        Some("rebasing"@)
    } else if m.merge_head {
        Some("merging"@)
    } else if m.cherry_pick_head {
        Some("cherry-picking"@)
    } else if m.revert_head {
        Some("reverting"@)
    } else if m.bisect_log {
        Some("bisecting"@)
    } else {
        None
    }
}

fn owned(s: &str) -> (r: String)
    ensures
        r@ == s@,
{
    let mut out = String::new();
    push_str(&mut out, s);
    assert(out@ =~= s@);
    out
}

/// In-progress operation, detected from marker files in the git dir.
pub fn repo_state(m: &RepoMarkers) -> (r: Option<String>)
    ensures
        crate::git::types::opt_view(r) == repo_state_spec(*m),
{
    if m.rebase_merge || m.rebase_apply {
        Some(owned("rebasing"))
    } else if m.merge_head {
        Some(owned("merging"))
    } else if m.cherry_pick_head {
        Some(owned("cherry-picking"))
    } else if m.revert_head {
        Some(owned("reverting"))
    } else if m.bisect_log {
        Some(owned("bisecting"))
    } else {
        None
    }
}

/// The staged diff compares against HEAD, or against the empty tree on an
/// unborn branch (where `diff --cached` cannot resolve HEAD).
pub open spec fn staged_args_spec(has_head: bool) -> Seq<Seq<char>> {
    if has_head {
        seq!["diff"@, "--no-ext-diff"@, "--cached"@]
    } else {
        seq!["diff"@, "--no-ext-diff"@, "--cached"@, EMPTY_TREE@]
    }
}

/// Arguments of the staged-diff read.
pub fn staged_diff_args(has_head: bool) -> (r: Vec<&'static str>)
    ensures
        str_views(r@) == staged_args_spec(has_head),
{
    let mut v: Vec<&'static str> = Vec::new();
    v.push("diff");
    v.push("--no-ext-diff");
    v.push("--cached");
    if !has_head {
        v.push(EMPTY_TREE);
    }
    assert(str_views(v@) =~= staged_args_spec(has_head));
    v
}

#[verifier::ext_equal]
pub struct StatusSnapshotView {
    pub branch: BranchInfoView,
    pub head_summary: Option<Seq<char>>,
    pub state: Option<Seq<char>>,
    pub untracked: Seq<Seq<char>>,
    pub unmerged: Seq<Seq<char>>,
    pub unstaged: Seq<FileDiffView>,
    pub staged: Seq<FileDiffView>,
    pub stashes: Seq<StashInfoView>,
    pub recent: Seq<LogEntryView>,
}

impl View for StatusSnapshot {
    type V = StatusSnapshotView;

    open spec fn view(&self) -> StatusSnapshotView {
        StatusSnapshotView {
            branch: self.branch@,
            head_summary: crate::git::types::opt_view(self.head_summary),
            state: crate::git::types::opt_view(self.state),
            untracked: strs(self.untracked@),
            unmerged: strs(self.unmerged@),
            unstaged: file_views(self.unstaged@),
            staged: file_views(self.staged@),
            stashes: self.stashes@.map_values(|e: StashInfo| e@),
            recent: self.recent@.map_values(|e: LogEntry| e@),
        }
    }
}

/// Whether the snapshot reads HEAD's summary and recent commits: only when
/// HEAD exists.
pub fn reads_head(status: &super::parse::StatusV2) -> (r: bool)
    ensures
        r == (status@.branch.oid is Some),
{
    status.branch.oid.is_some()
}

/// The snapshot the reads describe: the porcelain status, both diffs, HEAD's
/// summary and recent commits (present exactly when HEAD exists), the stash
/// list and the in-progress operation.
pub open spec fn snapshot_spec(
    status: Seq<char>,
    unstaged: Seq<char>,
    staged: Seq<char>,
    head: Option<(Seq<char>, Seq<char>)>,
    stashes: Seq<char>,
    state: Option<Seq<char>>,
) -> StatusSnapshotView {
    let st = status_v2_spec(status);
    StatusSnapshotView {
        branch: st.branch,
        head_summary: match head {
            Some((summary, _)) => Some(trim_end(summary)),
            None => None,
        },
        state: state,
        untracked: st.untracked,
        unmerged: st.unmerged,
        unstaged: diff_spec(unstaged),
        staged: diff_spec(staged),
        stashes: stash_list_spec(stashes),
        recent: match head {
            Some((_, log)) => log_entries_spec(log),
            None => Seq::empty(),
        },
    }
}

/// Everything the status buffer needs, from the outputs of the reads:
/// `status --porcelain=v2 --branch -z`, `diff`, the staged diff,
/// (`log -1 --format=%h %s`, `log -n 10`) when HEAD exists, `stash list`.
pub fn assemble_snapshot(
    status: &str,
    unstaged: &str,
    staged: &str,
    head: Option<(&str, &str)>,
    stashes: &str,
    state: Option<String>,
) -> (r: StatusSnapshot)
    ensures
        r@ == snapshot_spec(
            status@,
            unstaged@,
            staged@,
            match head {
                Some((a, b)) => Some((a@, b@)),
                None => None,
            },
            stashes@,
            crate::git::types::opt_view(state),
        ),
{
    let st = parse_status_v2(status);
    let (head_summary, recent) = match head {
        Some((summary, log)) => {
            let v = chars_of(summary);
            (Some(trimmed_end(&v)), parse_log_entries(log))
        },
        None => (None, Vec::new()),
    };
    let r = StatusSnapshot {
        branch: st.branch,
        head_summary,
        state,
        untracked: st.untracked,
        unmerged: st.unmerged,
        unstaged: parse_diff(unstaged),
        staged: parse_diff(staged),
        stashes: parse_stash_list(stashes),
        recent,
    };
    assert(r@.recent =~= snapshot_spec(
        status@,
        unstaged@,
        staged@,
        match head {
            Some((a, b)) => Some((a@, b@)),
            None => None,
        },
        stashes@,
        crate::git::types::opt_view(state),
    ).recent);
    r
}


/// A git process to start: where, with which arguments and environment,
/// and what to feed its standard input.
#[derive(Debug, Clone)]
pub struct GitInvocation {
    pub dir: String,
    pub args: Vec<String>,
    pub envs: Vec<(String, String)>,
    pub stdin: Option<String>,
}

pub open spec fn string_views(v: Seq<String>) -> Seq<Seq<char>> {
    v.map_values(|s: String| s@)
}

/// Every git run: no pager, no optional locks (so refreshes never write
/// `.git/index`), no credential prompts, and the C locale for parsing.
pub open spec fn invocation_spec(dir: Seq<char>, args: Seq<Seq<char>>, stdin: Option<Seq<char>>, inv: GitInvocation) -> bool {
    &&& inv.dir@ == dir
    &&& string_views(inv.args@) == seq!["--no-pager"@, "--no-optional-locks"@] + args
    &&& inv.envs@.map_values(|e: (String, String)| (e.0@, e.1@)) == seq![
        ("GIT_TERMINAL_PROMPT"@, "0"@),
        ("LC_ALL"@, "C"@),
    ]
    &&& crate::git::types::opt_view(inv.stdin) == stdin
}

fn invocation_in(dir: &str, args: &[&str], stdin: Option<&str>) -> (r: GitInvocation)
    ensures
        invocation_spec(
            dir@,
            str_views(args@),
            match stdin {
                Some(s) => Some(s@),
                None => None,
            },
            r,
        ),
{
    let mut a: Vec<String> = Vec::new();
    a.push(owned("--no-pager"));
    a.push(owned("--no-optional-locks"));
    let mut i: usize = 0;
    let ghost head = seq!["--no-pager"@, "--no-optional-locks"@];
    assert(string_views(a@) =~= head);
    while i < args.len()
        invariant
            i <= args.len(),
            string_views(a@) == head + str_views(args@).take(i as int),
        decreases args.len() - i,
    {
        let ghost before = string_views(a@);
        a.push(owned(args[i]));
        assert(string_views(a@) =~= before.push(args@[i as int]@));
        assert(str_views(args@).take(i + 1) =~= str_views(args@).take(i as int).push(args@[i as int]@));
        i += 1;
    }
    assert(str_views(args@).take(i as int) =~= str_views(args@));
    let mut envs: Vec<(String, String)> = Vec::new();
    envs.push((owned("GIT_TERMINAL_PROMPT"), owned("0")));
    envs.push((owned("LC_ALL"), owned("C")));
    assert(envs@.map_values(|e: (String, String)| (e.0@, e.1@)) =~= seq![
        ("GIT_TERMINAL_PROMPT"@, "0"@),
        ("LC_ALL"@, "C"@),
    ]);
    let input = match stdin {
        Some(s) => Some(owned(s)),
        None => None,
    };
    GitInvocation { dir: owned(dir), args: a, envs, stdin: input }
}

/// The outputs of the reads a snapshot takes, in the order they run. The
/// HEAD reads are present exactly when the status shows a HEAD.
pub struct SnapshotReads {
    /// `status --porcelain=v2 --branch -z`
    pub status: GitOutput,
    /// `diff --no-ext-diff`
    pub unstaged: GitOutput,
    /// `staged_diff_args`
    pub staged: GitOutput,
    /// `log -1 --format=%h %s` and `log -n 10 --format=%h<US>%s`
    pub head: Option<(GitOutput, GitOutput)>,
    /// `stash list --format=%gd<US>%s` (run, not read: a failure lists no stashes)
    pub stashes: GitOutput,
    pub markers: RepoMarkers,
}

pub open spec fn status_args() -> Seq<Seq<char>> {
    seq!["status"@, "--porcelain=v2"@, "--branch"@, "-z"@]
}

pub open spec fn unstaged_args() -> Seq<Seq<char>> {
    seq!["diff"@, "--no-ext-diff"@]
}

pub open spec fn summary_args() -> Seq<Seq<char>> {
    seq!["log"@, "-1"@, "--format=%h %s"@]
}

pub open spec fn recent_args() -> Seq<Seq<char>> {
    seq!["log"@, "-n"@, "10"@, "--format=%h\u{1f}%s"@]
}

/// What a snapshot read gives for these outputs: the first read that
/// failed, in order, as (command, exit code, trimmed stderr); else the
/// snapshot.
pub open spec fn read_snapshot_spec(o: SnapshotReads) -> Result<StatusSnapshotView, (Seq<char>, i32, Seq<char>)> {
    let has_head = status_v2_spec(o.status.stdout@).branch.oid is Some;
    if o.status.status != 0 {
        Err(read_failure_spec(status_args(), o.status.status, o.status.stderr@))
    } else if o.unstaged.status != 0 {
        Err(read_failure_spec(unstaged_args(), o.unstaged.status, o.unstaged.stderr@))
    } else if o.staged.status != 0 {
        Err(read_failure_spec(staged_args_spec(has_head), o.staged.status, o.staged.stderr@))
    } else {
        match o.head {
            Some((summary, log)) => if summary.status != 0 {
                Err(read_failure_spec(summary_args(), summary.status, summary.stderr@))
            } else if log.status != 0 {
                Err(read_failure_spec(recent_args(), log.status, log.stderr@))
            } else {
                Ok(
                    snapshot_spec(
                        o.status.stdout@,
                        o.unstaged.stdout@,
                        o.staged.stdout@,
                        Some((summary.stdout@, log.stdout@)),
                        o.stashes.stdout@,
                        repo_state_spec(o.markers),
                    ),
                )
            },
            None => Ok(
                snapshot_spec(
                    o.status.stdout@,
                    o.unstaged.stdout@,
                    o.staged.stdout@,
                    None,
                    o.stashes.stdout@,
                    repo_state_spec(o.markers),
                ),
            ),
        }
    }
}

/// Reading a snapshot fails exactly when one of the required reads exits
/// non-zero: status, both diffs, and (on a branch with commits) the two
/// log reads; a failing stash listing never fails it, and its exit status
/// changes nothing in the result.
pub proof fn law_snapshot_failures(o: SnapshotReads, o2: SnapshotReads)
    ensures
        read_snapshot_spec(o) is Err <==> (o.status.status != 0 || o.unstaged.status != 0 || o.staged.status != 0
            || (o.head matches Some((s, l)) && (s.status != 0 || l.status != 0))),
        o2.status == o.status && o2.unstaged == o.unstaged && o2.staged == o.staged && o2.head == o.head
            && o2.stashes.stdout@ == o.stashes.stdout@ && o2.markers == o.markers ==> read_snapshot_spec(o2)
            == read_snapshot_spec(o),
{
}

impl GitClient {
    /// The repository around the directory where
    /// `git rev-parse --show-toplevel` gave `root_out`; `git_dir_out` is
    /// `git rev-parse --absolute-git-dir` run in that root.
    pub fn discover(root_out: &GitOutput, git_dir_out: &GitOutput) -> (r: Result<GitClient, GitError>)
        ensures
            root_out.status == 0 ==> r is Ok && r->Ok_0.repo_root@ == trim_end(root_out.stdout@)
                && r->Ok_0.git_dir@ == trim_end(git_dir_out.stdout@),
            root_out.status != 0 ==> r is Err && failed_parts(r->Err_0) == Some(
                ("rev-parse --show-toplevel"@, root_out.status, trim(root_out.stderr@)),
            ),
    {
        match discovered_root(root_out) {
            Ok(root) => Ok(GitClient::new(root, git_dir_out)),
            Err(e) => Err(e),
        }
    }

    /// Run git in the work tree; a non-zero exit is reported by the
    /// output's status, not as an error.
    pub fn run(&self, args: &[&str]) -> (r: GitInvocation)
        ensures
            invocation_spec(self.repo_root@, str_views(args@), None, r),
    {
        invocation_in(self.repo_root.as_str(), args, None)
    }

    /// Like `run`, feeding `stdin` to the process.
    pub fn run_with_input(&self, args: &[&str], stdin: &str) -> (r: GitInvocation)
        ensures
            invocation_spec(self.repo_root@, str_views(args@), Some(stdin@), r),
    {
        invocation_in(self.repo_root.as_str(), args, Some(stdin))
    }

    /// Everything the status buffer needs, from the outputs of its reads.
    pub fn read_snapshot(&self, o: SnapshotReads) -> (r: Result<StatusSnapshot, GitError>)
        requires
            o.head is Some <==> status_v2_spec(o.status.stdout@).branch.oid is Some,
        ensures
            match read_snapshot_spec(o) {
                Ok(v) => r is Ok && r->Ok_0@ == v,
                Err(f) => r is Err && failed_parts(r->Err_0) == Some(f),
            },
    {
        let sargs = ["status", "--porcelain=v2", "--branch", "-z"];
        assert(str_views(sargs@) =~= status_args());
        if !o.status.ok() {
            return Err(read_failure(&sargs, &o.status));
        }
        let st = parse_status_v2(o.status.stdout.as_str());
        let has_head = reads_head(&st);
        let uargs = ["diff", "--no-ext-diff"];
        assert(str_views(uargs@) =~= unstaged_args());
        if !o.unstaged.ok() {
            return Err(read_failure(&uargs, &o.unstaged));
        }
        if !o.staged.ok() {
            let a = staged_diff_args(has_head);
            return Err(read_failure(a.as_slice(), &o.staged));
        }
        let state = repo_state(&o.markers);
        match &o.head {
            Some((summary, log)) => {
                let hargs = ["log", "-1", "--format=%h %s"];
                assert(str_views(hargs@) =~= summary_args());
                if !summary.ok() {
                    return Err(read_failure(&hargs, summary));
                }
                let largs = ["log", "-n", "10", "--format=%h\u{1f}%s"];
                assert(str_views(largs@) =~= recent_args());
                if !log.ok() {
                    return Err(read_failure(&largs, log));
                }
                Ok(
                    assemble_snapshot(
                        o.status.stdout.as_str(),
                        o.unstaged.stdout.as_str(),
                        o.staged.stdout.as_str(),
                        Some((summary.stdout.as_str(), log.stdout.as_str())),
                        o.stashes.stdout.as_str(),
                        state,
                    ),
                )
            },
            None => Ok(
                assemble_snapshot(
                    o.status.stdout.as_str(),
                    o.unstaged.stdout.as_str(),
                    o.staged.stdout.as_str(),
                    None,
                    o.stashes.stdout.as_str(),
                    state,
                ),
            ),
        }
    }
}

} // verus!
