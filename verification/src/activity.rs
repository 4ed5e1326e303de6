//! Bookkeeping around background git work: the `$` process log (bounded,
//! counting what it dropped), the messages shown when a run finishes, the
//! record of a command sequence that stops at the first failure, and the
//! single-flight status refresh.

use vstd::prelude::*;

use crate::git::client::{display_cmd, display_cmd_spec, GitOutput, ProcessEntry};
use crate::ops::{cat, owned};
use crate::ops::rebase_todo::first_line;
use crate::text::{chars_of, decimal, lines, lines_exec, push_decimal, push_str, seqs, string_of, strs};

verus! {

/// Entries kept in the process log; each keeps its command's full output,
/// so an unbounded log would grow for the whole session.
pub const PROCESS_LOG_MAX: usize = 200;

/// The process log: the latest runs, oldest first, and how many older ones
/// were dropped.
#[derive(Debug)]
pub struct ProcessLog {
    pub entries: Vec<ProcessEntry>,
    pub dropped: usize,
}

impl ProcessLog {
    pub open spec fn wf(&self) -> bool {
        self.entries@.len() <= PROCESS_LOG_MAX
    }

    pub fn new() -> (r: ProcessLog)
        ensures
            r.wf(),
            r.entries@.len() == 0,
            r.dropped == 0,
    {
        ProcessLog { entries: Vec::new(), dropped: 0 }
    }

    /// Records a run; past the limit the oldest entries go.
    pub fn push(&mut self, entry: ProcessEntry)
        requires
            old(self).wf(),
            old(self).dropped < usize::MAX,
        ensures
            final(self).wf(),
            ({
                let all = old(self).entries@.push(entry);
                let excess = if all.len() > PROCESS_LOG_MAX {
                    all.len() - PROCESS_LOG_MAX
                } else {
                    0
                };
                &&& final(self).entries@ == all.skip(excess)
                &&& final(self).dropped == old(self).dropped + excess
            }),
    {
        let ghost all = self.entries@.push(entry);
        self.entries.push(entry);
        if self.entries.len() > PROCESS_LOG_MAX {
            self.entries.remove(0);
            self.dropped = self.dropped + 1;
            assert(self.entries@ =~= all.skip(1));
        } else {
            assert(self.entries@ =~= all.skip(0));
        }
    }
}

/// The log entry of one finished run: the command, its exit status (-1
/// when git could not be started) and everything it printed.
pub open spec fn run_entry_spec(args: Seq<Seq<char>>, result: Result<GitOutput, Seq<char>>) -> (Seq<char>, i32, Seq<char>) {
    match result {
        Ok(out) => (display_cmd_spec(args), out.status, out.stdout@ + out.stderr@),
        Err(e) => (display_cmd_spec(args), -1i32, e),
    }
}

pub open spec fn entry_view(e: ProcessEntry) -> (Seq<char>, i32, Seq<char>) {
    (e.cmd@, e.status, e.output@)
}

pub fn run_entry(args: &Vec<String>, result: &Result<GitOutput, String>) -> (r: ProcessEntry)
    ensures
        entry_view(r) == run_entry_spec(
            strs(args@),
            match result {
                Ok(o) => Ok(*o),
                Err(e) => Err(e@),
            },
        ),
{
    let cmd = display_cmd(args.as_slice());
    match result {
        Ok(out) => {
            let mut output = owned(out.stdout.as_str());
            push_str(&mut output, out.stderr.as_str());
            ProcessEntry { cmd, status: out.status, output }
        },
        Err(e) => ProcessEntry { cmd, status: -1, output: e.clone() },
    }
}

/// The message a finished background run leaves: `<desc> done`, or
/// `<desc> failed: ` and the first line of what it printed.
pub open spec fn done_message_spec(desc: Seq<char>, status: i32, output: Seq<char>) -> Seq<char> {
    if status != 0 {
        desc + " failed: "@ + first_line(output)
    } else {
        desc + " done"@
    }
}

pub fn git_done_message(desc: &str, entry: &ProcessEntry) -> (r: String)
    ensures
        r@ == done_message_spec(desc@, entry.status, entry.output@),
{
    if entry.status != 0 {
        let mut m = cat(desc, " failed: ");
        let cs = chars_of(entry.output.as_str());
        let ls = lines_exec(&cs);
        if ls.len() > 0 {
            assert(seqs(ls@)[0] == ls@[0]@);
            push_str(&mut m, string_of(&ls[0]).as_str());
        }
        m
    } else {
        cat(desc, " done")
    }
}

/// The first line of a string.
pub(crate) fn first_line_pub(s: &str) -> (r: String)
    ensures
        r@ == first_line(s@),
{
    let cs = chars_of(s);
    let ls = lines_exec(&cs);
    if ls.len() > 0 {
        assert(seqs(ls@)[0] == ls@[0]@);
        string_of(&ls[0])
    } else {
        String::new()
    }
}

/// An integer in decimal, with a minus sign when negative.
pub open spec fn signed_decimal(n: int) -> Seq<char> {
    if n < 0 {
        "-"@ + decimal((-n) as nat)
    } else {
        decimal(n as nat)
    }
}

pub(crate) fn push_signed_pub(out: &mut String, n: i32)
    ensures
        final(out)@ == old(out)@ + signed_decimal(n as int),
{
    push_signed(out, n)
}

fn push_signed(out: &mut String, n: i32)
    ensures
        final(out)@ == old(out)@ + signed_decimal(n as int),
{
    if n < 0 {
        push_str(out, "-");
        let m: i64 = -(n as i64);
        push_decimal(out, m as u64);
    } else {
        push_decimal(out, n as u64);
    }
}

/// The message after an $EDITOR run: `<desc> done`, or the exit status.
pub open spec fn editor_message_spec(desc: Seq<char>, status: i32) -> Seq<char> {
    if status == 0 {
        desc + " done"@
    } else {
        desc + " exited with "@ + signed_decimal(status as int)
    }
}

pub fn editor_done_message(desc: &str, status: i32) -> (r: String)
    ensures
        r@ == editor_message_spec(desc@, status),
{
    if status == 0 {
        cat(desc, " done")
    } else {
        let mut m = cat(desc, " exited with ");
        push_signed(&mut m, status);
        m
    }
}

/// The message after deleting untracked paths: the last failure if any,
/// else the one path deleted, else how many were.
pub open spec fn deleted_message_spec(deleted: usize, failure: Option<Seq<char>>, paths: Seq<Seq<char>>) -> Seq<char> {
    match failure {
        Some(e) => "deleted "@ + decimal(deleted as nat) + ", delete failed: "@ + e,
        None => if paths.len() == 1 {
            "deleted "@ + paths[0]
        } else {
            "deleted "@ + decimal(deleted as nat) + " untracked file(s)"@
        },
    }
}

pub fn deleted_message(deleted: usize, failure: Option<&str>, paths: &Vec<String>) -> (r: String)
    ensures
        r@ == deleted_message_spec(
            deleted,
            match failure {
                Some(e) => Some(e@),
                None => None,
            },
            strs(paths@),
        ),
{
    let mut m = owned("deleted ");
    match failure {
        Some(e) => {
            push_decimal(&mut m, deleted as u64);
            push_str(&mut m, ", delete failed: ");
            push_str(&mut m, e);
        },
        None => {
            if paths.len() == 1 {
                push_str(&mut m, paths[0].as_str());
            } else {
                push_decimal(&mut m, deleted as u64);
                push_str(&mut m, " untracked file(s)");
            }
        },
    }
    m
}

/// Several git commands run one after another, stopping at the first
/// failure; they land in the process log as one entry, the commands joined
/// with `&&`.
#[derive(Debug)]
pub struct SeqRun {
    pub ran: Vec<String>,
    pub status: i32,
    pub output: String,
}

/// The commands joined with ` && `.
pub open spec fn joined_cmds(cmds: Seq<Seq<char>>) -> Seq<char>
    decreases cmds.len(),
{
    if cmds.len() == 0 {
        Seq::empty()
    } else if cmds.len() == 1 {
        cmds[0]
    } else {
        joined_cmds(cmds.drop_last()) + " && "@ + cmds.last()
    }
}

impl SeqRun {
    pub fn new() -> (r: SeqRun)
        ensures
            r.ran@.len() == 0,
            r.status == 0,
            r.output@.len() == 0,
    {
        SeqRun { ran: Vec::new(), status: 0, output: String::new() }
    }

    /// Records one command's result; `true` when the sequence goes on.
    pub fn record(&mut self, args: &Vec<String>, result: &Result<GitOutput, String>) -> (r: bool)
        ensures
            strs(final(self).ran@) == strs(old(self).ran@).push(display_cmd_spec(strs(args@))),
            match result {
                Ok(out) => final(self).status == out.status && final(self).output@ == old(self).output@ + out.stdout@
                    + out.stderr@,
                Err(e) => final(self).status == -1 && final(self).output@ == old(self).output@ + e@,
            },
            r == (final(self).status == 0),
    {
        let ghost before = strs(self.ran@);
        self.ran.push(display_cmd(args.as_slice()));
        assert(strs(self.ran@) =~= before.push(display_cmd_spec(strs(args@))));
        match result {
            Ok(out) => {
                push_str(&mut self.output, out.stdout.as_str());
                push_str(&mut self.output, out.stderr.as_str());
                self.status = out.status;
            },
            Err(e) => {
                push_str(&mut self.output, e.as_str());
                self.status = -1;
            },
        }
        self.status == 0
    }

    /// The process-log entry of the whole sequence.
    pub fn entry(self) -> (r: ProcessEntry)
        ensures
            r.cmd@ == joined_cmds(strs(self.ran@)),
            r.status == self.status,
            r.output@ == self.output@,
    {
        let mut cmd = String::new();
        let mut i: usize = 0;
        while i < self.ran.len()
            invariant
                i <= self.ran@.len(),
                cmd@ == joined_cmds(strs(self.ran@).take(i as int)),
            decreases self.ran.len() - i,
        {
            let ghost t = strs(self.ran@).take(i + 1);
            assert(t.drop_last() =~= strs(self.ran@).take(i as int));
            assert(t.last() == self.ran@[i as int]@);
            if i > 0 {
                push_str(&mut cmd, " && ");
            } else {
                assert(strs(self.ran@).take(0) =~= Seq::<Seq<char>>::empty());
                assert(cmd@ =~= Seq::<char>::empty());
            }
            push_str(&mut cmd, self.ran[i].as_str());
            proof {
                if i == 0 {
                    assert(cmd@ =~= t[0]);
                }
            }
            i += 1;
        }
        assert(strs(self.ran@).take(i as int) =~= strs(self.ran@));
        ProcessEntry { cmd, status: self.status, output: self.output }
    }
}

/// The status refresh is single-flight: while a read is in flight, further
/// requests only mark the state dirty, and one follow-up read runs when it
/// completes. Each read carries a generation number.
#[derive(Debug, Clone, Copy)]
pub struct RefreshState {
    pub generation: u64,
    pub inflight: bool,
    pub dirty: bool,
}

/// A refresh request: `Some(generation)` when a read starts now.
pub open spec fn after_request(s: RefreshState) -> (RefreshState, Option<u64>) {
    if s.inflight {
        (RefreshState { dirty: true, ..s }, None)
    } else {
        let g = (s.generation + 1) as u64;
        (RefreshState { generation: g, inflight: true, dirty: s.dirty }, Some(g))
    }
}

/// The read of generation `gen` finished: whether its snapshot is current,
/// and whether a follow-up read is due.
pub open spec fn after_finished(s: RefreshState, gen: u64) -> (RefreshState, (bool, bool)) {
    (RefreshState { inflight: false, dirty: false, ..s }, (gen == s.generation, s.dirty))
}

impl RefreshState {
    pub fn new() -> (r: RefreshState)
        ensures
            r.generation == 0,
            !r.inflight,
            !r.dirty,
    {
        RefreshState { generation: 0, inflight: false, dirty: false }
    }

    pub fn request(&mut self) -> (r: Option<u64>)
        requires
            old(self).generation < u64::MAX,
        ensures
            (*final(self), r) == after_request(*old(self)),
    {
        if self.inflight {
            self.dirty = true;
            return None;
        }
        self.inflight = true;
        self.generation = self.generation + 1;
        Some(self.generation)
    }

    pub fn finished(&mut self, gen: u64) -> (r: (bool, bool))
        ensures
            (*final(self), r) == after_finished(*old(self), gen),
    {
        self.inflight = false;
        let follow = self.dirty;
        self.dirty = false;
        (gen == self.generation, follow)
    }
}

/// The state after `n` requests.
pub open spec fn requests(s: RefreshState, n: nat) -> RefreshState
    decreases n,
{
    if n == 0 {
        s
    } else {
        after_request(requests(s, (n - 1) as nat)).0
    }
}

/// Single flight: however many requests come in while a read is in flight,
/// none starts a read, and when the read finishes its snapshot is accepted
/// and exactly one follow-up is due (none if nothing was requested).
pub proof fn law_single_flight(s: RefreshState, n: nat)
    requires
        s.inflight,
        !s.dirty,
    ensures
        forall|k: nat| k < n ==> (#[trigger] after_request(requests(s, k))).1 is None,
        after_finished(requests(s, n), s.generation).1 == (true, n > 0),
        !after_finished(requests(s, n), s.generation).0.inflight,
    decreases n,
{
    if n > 0 {
        law_single_flight(s, (n - 1) as nat);
        lemma_requests_inflight(s, (n - 1) as nat);
    }
    lemma_requests_inflight(s, n);
    assert forall|k: nat| k < n implies (#[trigger] after_request(requests(s, k))).1 is None by {
        lemma_requests_inflight(s, k);
    }
}

proof fn lemma_requests_inflight(s: RefreshState, n: nat)
    requires
        s.inflight,
    ensures
        requests(s, n).inflight,
        requests(s, n).generation == s.generation,
        requests(s, n).dirty == (s.dirty || n > 0),
    decreases n,
{
    if n > 0 {
        lemma_requests_inflight(s, (n - 1) as nat);
    }
}

} // verus!
