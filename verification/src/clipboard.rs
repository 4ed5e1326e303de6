//! Clipboard payloads: standard base64 and the OSC 52 escape sequence that
//! carries it to the terminal (used when no clipboard tool is installed).

use vstd::prelude::*;

use crate::text::{push_char, push_str};

verus! {

/// The base64 alphabet (RFC 4648 §4).
pub open spec fn b64_digit(v: nat) -> char {
    if v < 26 {
        ('A' as int + v) as char
    } else if v < 52 {
        ('a' as int + v - 26) as char
    } else if v < 62 {
        ('0' as int + v - 52) as char
    } else if v == 62 {
        '+'
    } else {
        '/'
    }
}

/// Byte `k` of `s`, zero past the end (the padding input).
pub open spec fn byte_or_zero(s: Seq<u8>, k: int) -> nat {
    if 0 <= k < s.len() {
        s[k] as nat
    } else {
        0
    }
}

/// Output character `r` (0..4) of the group starting at byte `3 * g`.
pub open spec fn b64_char(s: Seq<u8>, g: int, r: int) -> char {
    let b0 = byte_or_zero(s, 3 * g);
    let b1 = byte_or_zero(s, 3 * g + 1);
    let b2 = byte_or_zero(s, 3 * g + 2);
    if r == 0 {
        b64_digit(b0 / 4)
    } else if r == 1 {
        b64_digit((b0 % 4) * 16 + b1 / 16)
    } else if r == 2 {
        if 3 * g + 1 < s.len() {
            b64_digit((b1 % 16) * 4 + b2 / 64)
        } else {
            '='
        }
    } else {
        if 3 * g + 2 < s.len() {
            b64_digit(b2 % 64)
        } else {
            '='
        }
    }
}

/// Standard base64 with padding: four characters per (started) group of
/// three bytes.
pub open spec fn base64_spec(s: Seq<u8>) -> Seq<char> {
    Seq::new(((s.len() + 2) / 3 * 4) as nat, |j: int| b64_char(s, j / 4, j % 4))
}

fn digit(v: u32) -> (c: char)
    requires
        v < 64,
    ensures
        c == b64_digit(v as nat),
{
    if v < 26 {
        (('A' as u32) + v) as u8 as char
    } else if v < 52 {
        (('a' as u32) + v - 26) as u8 as char
    } else if v < 62 {
        (('0' as u32) + v - 52) as u8 as char
    } else if v == 62 {
        '+'
    } else {
        '/'
    }
}

/// Standard base64 (with padding). Small and pure so OSC 52 needs no crate.
pub fn base64_encode(input: &[u8]) -> (r: String)
    ensures
        r@ == base64_spec(input@),
{
    let n = input.len();
    let mut out = String::new();
    let mut i: usize = 0;
    let ghost groups: int = 0;
    while i < n
        invariant
            n == input@.len(),
            i % 3 == 0,
            i <= n + 2,
            out@.len() == i / 3 * 4,
            forall|j: int| 0 <= j < out@.len() ==> #[trigger] out@[j] == b64_char(input@, j / 4, j % 4),
        decreases n + 3 - i,
    {
        let b0 = input[i] as u32;
        let b1 = if i + 1 < n { input[i + 1] as u32 } else { 0 };
        let b2 = if i + 2 < n { input[i + 2] as u32 } else { 0 };
        let ghost g = (i / 3) as int;
        let ghost before = out@;
        assert(3 * g == i);
        push_char(&mut out, digit(b0 / 4));
        push_char(&mut out, digit((b0 % 4) * 16 + b1 / 16));
        if i + 1 < n {
            push_char(&mut out, digit((b1 % 16) * 4 + b2 / 64));
        } else {
            push_char(&mut out, '=');
        }
        if i + 2 < n {
            push_char(&mut out, digit(b2 % 64));
        } else {
            push_char(&mut out, '=');
        }
        assert forall|j: int| 0 <= j < out@.len() implies #[trigger] out@[j] == b64_char(
            input@,
            j / 4,
            j % 4,
        ) by {
            if j >= before.len() {
                assert(j / 4 == g);
            } else {
                assert(out@[j] == before[j]);
            }
        }
        i += 3;
    }
    assert(out@ =~= base64_spec(input@));
    out
}

/// The OSC 52 escape sequence asking the terminal to put `text` on the
/// clipboard.
pub open spec fn osc52_spec(text: Seq<u8>) -> Seq<char> {
    seq!['\x1b'] + "]52;c;"@ + base64_spec(text) + seq!['\x07']
}

/// `ESC ] 52 ; c ; <base64> BEL`.
pub fn osc52_sequence(text: &[u8]) -> (r: String)
    ensures
        r@ == osc52_spec(text@),
{
    let mut out = String::new();
    push_char(&mut out, '\x1b');
    push_str(&mut out, "]52;c;");
    let b = base64_encode(text);
    push_str(&mut out, b.as_str());
    push_char(&mut out, '\x07');
    assert(out@ =~= osc52_spec(text@));
    out
}


/// The clipboard tools, in order of preference: Wayland, X11 (xclip,
/// xsel), macOS. Each is (program, arguments); the text goes to its stdin.
pub open spec fn clipboard_tools() -> Seq<(&'static str, Seq<&'static str>)> {
    seq![
        ("wl-copy", seq![]),
        ("xclip", seq!["-selection", "clipboard"]),
        ("xsel", seq!["--clipboard", "--input"]),
        ("pbcopy", seq![]),
    ]
}

/// How an attempt to run one tool went.
#[derive(Debug, Clone)]
pub enum ToolOutcome {
    /// It ran and exited 0.
    Copied,
    /// It is not installed.
    NotInstalled,
    /// It ran but failed, with this message.
    Failed(String),
}

/// What to do next to copy text to the clipboard.
#[derive(Debug, Clone)]
pub enum ClipboardStep {
    /// Run this tool with these arguments, piping the text in.
    Run(&'static str, Vec<&'static str>),
    /// The text is on the clipboard.
    Done,
    /// A tool was present but failed: report it rather than silently
    /// falling back.
    Fail(String),
    /// No tool is installed: write this OSC 52 sequence to the terminal.
    Osc52(String),
}

/// The tool attempts so far: how many were tried and the last failure.
#[derive(Debug, Clone)]
pub struct ClipboardCopy {
    pub tried: usize,
    pub failure: Option<String>,
}

impl ClipboardCopy {
    pub fn new() -> (r: ClipboardCopy)
        ensures
            r.tried == 0,
            r.failure is None,
    {
        ClipboardCopy { tried: 0, failure: None }
    }

    /// The step after the attempts so far: the next tool, else the last
    /// failure, else OSC 52 for `text`.
    pub fn next_step(&self, text: &[u8]) -> (r: ClipboardStep)
        ensures
            self.tried < clipboard_tools().len() ==> (r matches ClipboardStep::Run(bin, args) && bin
                == clipboard_tools()[self.tried as int].0 && args@ == clipboard_tools()[self.tried as int].1),
            self.tried >= clipboard_tools().len() && self.failure is Some ==> (r matches ClipboardStep::Fail(
                e,
            ) && e@ == self.failure->0@),
            self.tried >= clipboard_tools().len() && self.failure is None ==> (r matches ClipboardStep::Osc52(
                s,
            ) && s@ == osc52_spec(text@)),
    {
        if self.tried < 4 {
            let (bin, args): (&'static str, Vec<&'static str>) = if self.tried == 0 {
                ("wl-copy", Vec::new())
            } else if self.tried == 1 {
                let mut a = Vec::new();
                a.push("-selection");
                a.push("clipboard");
                ("xclip", a)
            } else if self.tried == 2 {
                let mut a = Vec::new();
                a.push("--clipboard");
                a.push("--input");
                ("xsel", a)
            } else {
                ("pbcopy", Vec::new())
            };
            proof {
                assert(args@ =~= clipboard_tools()[self.tried as int].1);
            }
            ClipboardStep::Run(bin, args)
        } else {
            match &self.failure {
                Some(e) => ClipboardStep::Fail(e.clone()),
                None => ClipboardStep::Osc52(osc52_sequence(text)),
            }
        }
    }

    /// Record how the last tool run went. A copied text ends the attempts
    /// (returns true); otherwise the next tool comes, remembering a failure.
    pub fn record(&mut self, outcome: ToolOutcome) -> (done: bool)
        requires
            old(self).tried < clipboard_tools().len(),
        ensures
            done == (outcome is Copied),
            final(self).tried == old(self).tried + 1,
            outcome matches ToolOutcome::Failed(e) ==> final(self).failure == Some(e),
            !(outcome is Failed) ==> final(self).failure == old(self).failure,
    {
        self.tried = self.tried + 1;
        match outcome {
            ToolOutcome::Copied => true,
            ToolOutcome::NotInstalled => false,
            ToolOutcome::Failed(e) => {
                self.failure = Some(e);
                false
            },
        }
    }
}

} // verus!
