//! The git reads behind the read-only buffers: a log, a revision (its
//! header and its patch) and the preview of a merge, which `merge-tree`
//! computes in the object store without touching the worktree or index.

use vstd::prelude::*;

use crate::git::client::GitOutput;
use crate::ops::rebase_todo::first_line;
use crate::ops::{cat, cat3, owned, push_all, push_arg, words};
use crate::session::{str_views, string_views};
use crate::text::{chars_of, string_of, trim, trim_exec};

verus! {

/// Pretty-format of log rows: hash, decorations, subject, author and
/// relative date, separated by the unit separator.
pub open spec fn log_format() -> Seq<char> {
    "--format=%h%x1f%D%x1f%s%x1f%an%x1f%ar"@
}

/// `git log` for a log buffer: the format, at most 256 commits (Magit's
/// default), then the menu's options and the revision selector.
pub fn log_args(rev_args: &Vec<String>) -> (r: Vec<String>)
    ensures
        string_views(r@) == seq!["log"@, log_format(), "-n"@, "256"@] + string_views(rev_args@),
{
    let mut v = words(&["log", "--format=%h%x1f%D%x1f%s%x1f%an%x1f%ar", "-n", "256"]);
    assert(str_views(["log", "--format=%h%x1f%D%x1f%s%x1f%an%x1f%ar", "-n", "256"]@) =~= seq![
        "log"@,
        log_format(),
        "-n"@,
        "256"@,
    ]);
    push_all(&mut v, rev_args);
    v
}

/// `git show` for a revision buffer: the header (`header == true`) or the
/// patch.
pub fn show_args(rev: &str, header: bool) -> (r: Vec<String>)
    ensures
        string_views(r@) == if header {
            seq!["show"@, "--no-patch"@, "--format=medium"@, rev@]
        } else {
            seq!["show"@, "--format="@, "--patch"@, "--no-ext-diff"@, rev@]
        },
{
    let mut v = if header {
        let w = words(&["show", "--no-patch", "--format=medium"]);
        assert(str_views(["show", "--no-patch", "--format=medium"]@) =~= seq![
            "show"@,
            "--no-patch"@,
            "--format=medium"@,
        ]);
        w
    } else {
        let w = words(&["show", "--format=", "--patch", "--no-ext-diff"]);
        assert(str_views(["show", "--format=", "--patch", "--no-ext-diff"]@) =~= seq![
            "show"@,
            "--format="@,
            "--patch"@,
            "--no-ext-diff"@,
        ]);
        w
    };
    push_arg(&mut v, rev);
    v
}

/// `git merge-tree` for previewing a merge of `rev` into HEAD.
pub fn merge_tree_args(rev: &str) -> (r: Vec<String>)
    ensures
        string_views(r@) == seq!["merge-tree"@, "--write-tree"@, "--no-messages"@, "HEAD"@, rev@],
{
    let mut v = words(&["merge-tree", "--write-tree", "--no-messages", "HEAD"]);
    assert(str_views(["merge-tree", "--write-tree", "--no-messages", "HEAD"]@) =~= seq![
        "merge-tree"@,
        "--write-tree"@,
        "--no-messages"@,
        "HEAD"@,
    ]);
    push_arg(&mut v, rev);
    v
}

/// What the merge-tree run says: the merged tree to diff HEAD against
/// (exit 0 is a clean merge, 1 one with conflicts; both print the tree id
/// first), and the header of the preview buffer. Without a tree id the
/// header explains why.
pub open spec fn merge_preview_spec(rev: Seq<char>, result: Result<GitOutput, Seq<char>>) -> (Option<Seq<char>>, Seq<char>) {
    let (oid, conflicted, err) = match result {
        Ok(out) => (trim(first_line(out.stdout@)), out.status == 1, trim(out.stderr@)),
        Err(e) => (Seq::empty(), false, e),
    };
    if oid.len() == 0 {
        (None, "Cannot preview merging "@ + rev + " into HEAD:\n"@ + err)
    } else {
        (
            Some(oid),
            "Preview of merging "@ + rev + " into HEAD \u{2014} nothing has been committed."@ + if conflicted {
                "\nThis merge would have conflicts (markers shown below)."@
            } else {
                Seq::empty()
            },
        )
    }
}

pub fn merge_preview(rev: &str, result: &Result<GitOutput, String>) -> (r: (Option<String>, String))
    ensures
        (
            match r.0 {
                Some(o) => Some(o@),
                None => None,
            },
            r.1@,
        ) == merge_preview_spec(
            rev@,
            match result {
                Ok(o) => Ok(*o),
                Err(e) => Err(e@),
            },
        ),
{
    let (oid, conflicted, err) = match result {
        Ok(out) => {
            let first = crate::activity::first_line_pub(out.stdout.as_str());
            let oid = trim_exec(&chars_of(first.as_str()));
            let err = trim_exec(&chars_of(out.stderr.as_str()));
            (oid, out.status == 1, string_of(&err))
        },
        Err(e) => (Vec::new(), false, e.clone()),
    };
    if oid.len() == 0 {
        let mut h = cat3("Cannot preview merging ", rev, " into HEAD:\n");
        crate::text::push_str(&mut h, err.as_str());
        (None, h)
    } else {
        let mut h = cat3("Preview of merging ", rev, " into HEAD \u{2014} nothing has been committed.");
        if conflicted {
            crate::text::push_str(&mut h, "\nThis merge would have conflicts (markers shown below).");
        } else {
            assert(h@ =~= h@ + Seq::<char>::empty());
        }
        (Some(string_of(&oid)), h)
    }
}

/// `git diff` of HEAD against the merged tree.
pub fn preview_diff_args(oid: &str) -> (r: Vec<String>)
    ensures
        string_views(r@) == seq!["diff"@, "--no-ext-diff"@, "HEAD"@, oid@],
{
    let mut v = words(&["diff", "--no-ext-diff", "HEAD"]);
    assert(str_views(["diff", "--no-ext-diff", "HEAD"]@) =~= seq!["diff"@, "--no-ext-diff"@, "HEAD"@]);
    push_arg(&mut v, oid);
    v
}

/// The title of a merge preview buffer.
pub fn preview_title(rev: &str) -> (r: String)
    ensures
        r@ == "merge preview: "@ + rev@,
{
    cat("merge preview: ", rev)
}

} // verus!
