//! Character-level text handling shared by the parsers and builders: the
//! mathematical meaning of splitting, trimming, prefix tests and number
//! syntax over `Seq<char>`, with executable counterparts over `Vec<char>`.

use vstd::prelude::*;

verus! {

// ---------------------------------------------------------------------------
// Specifications
// ---------------------------------------------------------------------------

/// `s` split at every occurrence of `c` (like `str::split(c)`): always at
/// least one piece, pieces never contain `c`.
pub open spec fn split_char(s: Seq<char>, c: char) -> Seq<Seq<char>>
    decreases s.len(),
{
    if s.len() == 0 {
        seq![Seq::<char>::empty()]
    } else {
        let r = split_char(s.drop_last(), c);
        if s.last() == c {
            r.push(Seq::<char>::empty())
        } else {
            r.update(r.len() - 1, r.last().push(s.last()))
        }
    }
}

/// A line that was terminated by `\n` loses a trailing `\r` (CRLF endings).
pub open spec fn strip_cr(l: Seq<char>) -> Seq<char> {
    if l.len() > 0 && l.last() == '\r' {
        l.drop_last()
    } else {
        l
    }
}

/// The lines of `s`, as `str::lines` yields them: split at `\n`, a `\r`
/// right before a `\n` is dropped, and a final line ending is optional.
pub open spec fn lines(s: Seq<char>) -> Seq<Seq<char>> {
    let parts = split_char(s, '\n');
    let terminated = parts.drop_last().map_values(|l: Seq<char>| strip_cr(l));
    if parts.last().len() == 0 {
        terminated
    } else {
        terminated.push(parts.last())
    }
}

pub open spec fn starts_with(s: Seq<char>, p: Seq<char>) -> bool {
    p.len() <= s.len() && s.subrange(0, p.len() as int) == p
}

pub open spec fn ends_with(s: Seq<char>, p: Seq<char>) -> bool {
    p.len() <= s.len() && s.subrange(s.len() - p.len(), s.len() as int) == p
}

/// `s` without the prefix `p`, when it has it (`str::strip_prefix`).
pub open spec fn strip_prefix(s: Seq<char>, p: Seq<char>) -> Option<Seq<char>> {
    if starts_with(s, p) {
        Some(s.subrange(p.len() as int, s.len() as int))
    } else {
        None
    }
}

/// `s` without the suffix `p`, when it has it (`str::strip_suffix`).
pub open spec fn strip_suffix(s: Seq<char>, p: Seq<char>) -> Option<Seq<char>> {
    if ends_with(s, p) {
        Some(s.subrange(0, s.len() - p.len()))
    } else {
        None
    }
}

/// Index of the first occurrence of `p` in `s`, or -1.
pub open spec fn find(s: Seq<char>, p: Seq<char>) -> int
    decreases s.len(),
{
    if starts_with(s, p) {
        0
    } else if s.len() == 0 {
        -1
    } else {
        let r = find(s.drop_first(), p);
        if r < 0 {
            -1
        } else {
            r + 1
        }
    }
}

pub open spec fn contains(s: Seq<char>, p: Seq<char>) -> bool {
    find(s, p) >= 0
}

/// Split around the first occurrence of `p` (`str::split_once`).
pub open spec fn split_once(s: Seq<char>, p: Seq<char>) -> Option<(Seq<char>, Seq<char>)> {
    let i = find(s, p);
    if i < 0 {
        None
    } else {
        Some((s.subrange(0, i), s.subrange(i + p.len(), s.len() as int)))
    }
}

/// The Unicode `White_Space` property, as `char::is_whitespace` tests it.
pub open spec fn is_whitespace(c: char) -> bool {
    ||| ('\u{9}' <= c && c <= '\u{d}')
    ||| c == ' '
    ||| c == '\u{85}'
    ||| c == '\u{a0}'
    ||| c == '\u{1680}'
    ||| ('\u{2000}' <= c && c <= '\u{200a}')
    ||| c == '\u{2028}'
    ||| c == '\u{2029}'
    ||| c == '\u{202f}'
    ||| c == '\u{205f}'
    ||| c == '\u{3000}'
}

pub open spec fn trim_end(s: Seq<char>) -> Seq<char>
    decreases s.len(),
{
    if s.len() > 0 && is_whitespace(s.last()) {
        trim_end(s.drop_last())
    } else {
        s
    }
}

pub open spec fn trim_start(s: Seq<char>) -> Seq<char>
    decreases s.len(),
{
    if s.len() > 0 && is_whitespace(s[0]) {
        trim_start(s.drop_first())
    } else {
        s
    }
}

/// `str::trim`: leading and trailing whitespace removed.
pub open spec fn trim(s: Seq<char>) -> Seq<char> {
    trim_start(trim_end(s))
}

/// Completed words and the word in progress, scanning `s` left to right.
pub open spec fn words_acc(s: Seq<char>) -> (Seq<Seq<char>>, Seq<char>)
    decreases s.len(),
{
    if s.len() == 0 {
        (Seq::empty(), Seq::empty())
    } else {
        let (done, cur) = words_acc(s.drop_last());
        if is_whitespace(s.last()) {
            if cur.len() > 0 {
                (done.push(cur), Seq::empty())
            } else {
                (done, cur)
            }
        } else {
            (done, cur.push(s.last()))
        }
    }
}

/// `str::split_whitespace`: the non-empty runs of non-whitespace.
pub open spec fn split_whitespace(s: Seq<char>) -> Seq<Seq<char>> {
    let (done, cur) = words_acc(s);
    if cur.len() > 0 {
        done.push(cur)
    } else {
        done
    }
}

/// A word for `split_whitespace`: non-empty, with no whitespace in it.
pub open spec fn is_word(w: Seq<char>) -> bool {
    w.len() > 0 && forall|i: int| 0 <= i < w.len() ==> !is_whitespace(#[trigger] w[i])
}

/// Appending a word after a completed scan leaves that word in progress.
proof fn lemma_words_acc_word(s: Seq<char>, w: Seq<char>)
    requires
        words_acc(s).1.len() == 0,
        forall|i: int| 0 <= i < w.len() ==> !is_whitespace(#[trigger] w[i]),
    ensures
        words_acc(s + w) == (words_acc(s).0, w),
    decreases w.len(),
{
    if w.len() == 0 {
        assert(s + w =~= s);
    } else {
        lemma_words_acc_word(s, w.drop_last());
        assert((s + w).drop_last() =~= s + w.drop_last());
        assert((s + w).last() == w.last());
        assert(w.drop_last().push(w.last()) =~= w);
    }
}

/// Words joined by single spaces split back into the same words.
pub proof fn lemma_split_join_spaced(toks: Seq<Seq<char>>)
    requires
        forall|i: int| 0 <= i < toks.len() ==> is_word(#[trigger] toks[i]),
    ensures
        split_whitespace(join_spaced(toks)) == toks,
        toks.len() > 0 ==> words_acc(join_spaced(toks)) == (toks.drop_last(), toks.last()),
    decreases toks.len(),
{
    if toks.len() == 1 {
        let w = toks[0];
        assert(words_acc(Seq::<char>::empty()) == (Seq::<Seq<char>>::empty(), Seq::<char>::empty()));
        lemma_words_acc_word(Seq::<char>::empty(), w);
        assert(Seq::<char>::empty() + w =~= w);
        assert(toks.drop_last() =~= Seq::<Seq<char>>::empty());
        assert(seq![w] =~= toks);
    } else if toks.len() > 1 {
        let front = toks.drop_last();
        lemma_split_join_spaced(front);
        let j = join_spaced(front);
        let js = j + seq![' '];
        assert(js.drop_last() =~= j);
        assert(words_acc(js) == (front.drop_last().push(front.last()), Seq::<char>::empty()));
        assert(front.drop_last().push(front.last()) =~= front);
        assert(is_word(toks.last()));
        lemma_words_acc_word(js, toks.last());
        assert(join_spaced(toks) == js + toks.last());
        assert(front.push(toks.last()) =~= toks);
    } else {
        assert(words_acc(Seq::<char>::empty()) == (Seq::<Seq<char>>::empty(), Seq::<char>::empty()));
    }
}

pub open spec fn is_digit(c: char) -> bool {
    '0' <= c && c <= '9'
}

pub open spec fn all_digits(s: Seq<char>) -> bool {
    forall|i: int| 0 <= i < s.len() ==> is_digit(#[trigger] s[i])
}

pub open spec fn digit_value(c: char) -> nat {
    (c as int - '0' as int) as nat
}

pub open spec fn digits_value(s: Seq<char>) -> nat
    decreases s.len(),
{
    if s.len() == 0 {
        0
    } else {
        digits_value(s.drop_last()) * 10 + digit_value(s.last())
    }
}

/// The digits of an unsigned number: one leading `+` is allowed.
pub open spec fn unsigned_digits(s: Seq<char>) -> Seq<char> {
    if s.len() > 1 && s[0] == '+' {
        s.drop_first()
    } else {
        s
    }
}

/// An unsigned decimal number as `str::parse` reads it, unbounded.
pub open spec fn parse_nat(s: Seq<char>) -> Option<nat> {
    let d = unsigned_digits(s);
    if d.len() > 0 && all_digits(d) {
        Some(digits_value(d))
    } else {
        None
    }
}

/// A signed decimal number as `str::parse` reads it, unbounded.
pub open spec fn parse_int(s: Seq<char>) -> Option<int> {
    if s.len() > 1 && s[0] == '-' {
        let d = s.drop_first();
        if all_digits(d) {
            Some(-(digits_value(d) as int))
        } else {
            None
        }
    } else {
        match parse_nat(s) {
            Some(n) => Some(n as int),
            None => None,
        }
    }
}

/// `str::parse::<u32>`.
pub open spec fn parse_u32(s: Seq<char>) -> Option<u32> {
    match parse_nat(s) {
        Some(n) => if n <= u32::MAX {
            Some(n as u32)
        } else {
            None
        },
        None => None,
    }
}

/// `str::parse::<usize>`.
pub open spec fn parse_usize(s: Seq<char>) -> Option<usize> {
    match parse_nat(s) {
        Some(n) => if n <= usize::MAX {
            Some(n as usize)
        } else {
            None
        },
        None => None,
    }
}

/// `str::parse::<i64>`.
pub open spec fn parse_i64(s: Seq<char>) -> Option<i64> {
    match parse_int(s) {
        Some(n) => if i64::MIN <= n <= i64::MAX {
            Some(n as i64)
        } else {
            None
        },
        None => None,
    }
}

/// Words joined by single spaces (`[&str]::join(" ")`).
pub open spec fn join_spaced(args: Seq<Seq<char>>) -> Seq<char>
    decreases args.len(),
{
    if args.len() == 0 {
        Seq::empty()
    } else if args.len() == 1 {
        args[0]
    } else {
        join_spaced(args.drop_last()) + seq![' '] + args.last()
    }
}

pub open spec fn digit_char(d: nat) -> char {
    ('0' as int + d) as char
}

/// Decimal notation of `n`, as `Display` writes it.
pub open spec fn decimal(n: nat) -> Seq<char>
    decreases n,
{
    if n < 10 {
        seq![digit_char(n)]
    } else {
        decimal(n / 10).push(digit_char(n % 10))
    }
}

// ---------------------------------------------------------------------------
// Lemmas
// ---------------------------------------------------------------------------

pub proof fn lemma_split_char_len(s: Seq<char>, c: char)
    ensures
        split_char(s, c).len() >= 1,
    decreases s.len(),
{
    if s.len() > 0 {
        lemma_split_char_len(s.drop_last(), c);
    }
}

/// Splitting `a + l` where `l` holds no separator extends the last piece.
pub proof fn lemma_split_char_append(a: Seq<char>, l: Seq<char>, c: char)
    requires
        forall|i: int| 0 <= i < l.len() ==> l[i] != c,
    ensures
        split_char(a + l, c) == split_char(a, c).update(
            split_char(a, c).len() - 1,
            split_char(a, c).last() + l,
        ),
    decreases l.len(),
{
    lemma_split_char_len(a, c);
    if l.len() == 0 {
        assert(a + l =~= a);
        assert(split_char(a, c).last() + l =~= split_char(a, c).last());
        assert(split_char(a, c).update(split_char(a, c).len() - 1, split_char(a, c).last())
            =~= split_char(a, c));
    } else {
        let l0 = l.drop_last();
        lemma_split_char_append(a, l0, c);
        assert((a + l).drop_last() =~= a + l0);
        assert((a + l).last() == l.last());
        lemma_split_char_len(a + l0, c);
        assert(split_char(a, c).last() + l0 + seq![l.last()] =~= split_char(a, c).last() + l);
        assert((split_char(a, c).last() + l0).push(l.last()) =~= split_char(a, c).last() + l);
    }
}

/// Splitting `a + l + [c]` (with `l` free of `c`) closes the last piece.
pub proof fn lemma_split_char_line(a: Seq<char>, l: Seq<char>, c: char)
    requires
        forall|i: int| 0 <= i < l.len() ==> l[i] != c,
    ensures
        split_char(a + l.push(c), c) == split_char(a, c).update(
            split_char(a, c).len() - 1,
            split_char(a, c).last() + l,
        ).push(Seq::<char>::empty()),
{
    lemma_split_char_append(a, l, c);
    assert((a + l.push(c)).drop_last() =~= a + l);
    assert((a + l.push(c)).last() == c);
}

/// `find` returns the first position where `p` occurs, and -1 when it
/// occurs at no position `0..=s.len()`.
pub proof fn lemma_find_at(s: Seq<char>, p: Seq<char>, i: int)
    requires
        0 <= i <= s.len() + 1,
        forall|j: int|
            0 <= j < i && j <= s.len() ==> !starts_with(#[trigger] s.subrange(j, s.len() as int), p),
        i <= s.len() ==> starts_with(s.subrange(i, s.len() as int), p),
    ensures
        find(s, p) == (if i <= s.len() { i } else { -1 }),
    decreases s.len(),
{
    assert(s.subrange(0, s.len() as int) =~= s);
    if i == 0 {
    } else if s.len() == 0 {
        assert(!starts_with(s.subrange(0, 0), p));
    } else {
        assert(!starts_with(s.subrange(0, s.len() as int), p));
        let t = s.drop_first();
        assert forall|j: int| 0 <= j < i - 1 && j <= t.len() implies !starts_with(
            #[trigger] t.subrange(j, t.len() as int),
            p,
        ) by {
            assert(t.subrange(j, t.len() as int) =~= s.subrange(j + 1, s.len() as int));
        }
        if i <= s.len() {
            assert(t.subrange(i - 1, t.len() as int) =~= s.subrange(i, s.len() as int));
        }
        lemma_find_at(t, p, i - 1);
    }
}

// ---------------------------------------------------------------------------
// Executable counterparts
// ---------------------------------------------------------------------------

/// The views of a sequence of character vectors.
pub open spec fn seqs(v: Seq<Vec<char>>) -> Seq<Seq<char>> {
    v.map_values(|x: Vec<char>| x@)
}

/// The views of a sequence of strings.
pub open spec fn strs(v: Seq<String>) -> Seq<Seq<char>> {
    v.map_values(|x: String| x@)
}

/// `format!("{:?}", s)` for a string slice: the quoted, escaped form.
pub uninterp spec fn str_debug(s: Seq<char>) -> Seq<char>;

/// Trusted: `<str as Debug>::fmt` through `format!("{s:?}")` — the quoted
/// rendering with escapes, which depends on the string alone.
#[verifier::external_body]
pub(crate) fn debug_quoted(s: &str) -> (r: String)
    ensures
        r@ == str_debug(s@),
{
    format!("{s:?}")
}

/// Appends one character to a string.
///
/// Trusted: wraps `String::push`, which appends the character at the end.
#[verifier::external_body]
pub(crate) fn push_char(s: &mut String, c: char)
    ensures
        final(s)@ == old(s)@.push(c),
{
    s.push(c);
}

/// The characters of a string slice, in order.
pub fn chars_of(s: &str) -> (v: Vec<char>)
    ensures
        v@ == s@,
{
    let mut v: Vec<char> = Vec::new();
    for c in it: s.chars()
        invariant
            v@ == it.seq().take(it.index() as int),
    {
        v.push(c);
    }
    v
}

/// Appends the characters of `v` to `out`.
pub fn push_chars(out: &mut String, v: &Vec<char>)
    ensures
        final(out)@ == old(out)@ + v@,
{
    let ghost start = out@;
    let mut i: usize = 0;
    while i < v.len()
        invariant
            i <= v.len(),
            out@ == start + v@.subrange(0, i as int),
        decreases v.len() - i,
    {
        push_char(out, v[i]);
        i += 1;
        assert(v@.subrange(0, i as int) =~= v@.subrange(0, i - 1).push(v@[i - 1]));
    }
    assert(v@.subrange(0, v.len() as int) =~= v@);
}

/// Appends a string slice to `out`.
pub fn push_str(out: &mut String, s: &str)
    ensures
        final(out)@ == old(out)@ + s@,
{
    let v = chars_of(s);
    push_chars(out, &v);
}

/// A string holding exactly the characters of `v`.
pub fn string_of(v: &Vec<char>) -> (s: String)
    ensures
        s@ == v@,
{
    let mut s = String::new();
    push_chars(&mut s, v);
    assert(Seq::<char>::empty() + v@ =~= v@);
    s
}

/// The characters `v[a..b]`.
pub fn subvec(v: &Vec<char>, a: usize, b: usize) -> (r: Vec<char>)
    requires
        a <= b <= v.len(),
    ensures
        r@ == v@.subrange(a as int, b as int),
{
    let mut r: Vec<char> = Vec::new();
    let mut i = a;
    while i < b
        invariant
            a <= i <= b <= v.len(),
            r@ == v@.subrange(a as int, i as int),
        decreases b - i,
    {
        r.push(v[i]);
        i += 1;
        assert(r@ =~= v@.subrange(a as int, i as int));
    }
    r
}

/// Whether two character sequences are equal.
pub fn eq_chars(a: &Vec<char>, b: &Vec<char>) -> (r: bool)
    ensures
        r == (a@ == b@),
{
    if a.len() != b.len() {
        return false;
    }
    let mut i: usize = 0;
    while i < a.len()
        invariant
            a.len() == b.len(),
            i <= a.len(),
            forall|j: int| 0 <= j < i ==> a@[j] == b@[j],
        decreases a.len() - i,
    {
        if a[i] != b[i] {
            return false;
        }
        i += 1;
    }
    assert(a@ =~= b@);
    true
}

/// Whether `s[at..]` starts with `p`.
pub fn starts_with_at(s: &Vec<char>, at: usize, p: &Vec<char>) -> (r: bool)
    requires
        at <= s.len(),
    ensures
        r == starts_with(s@.subrange(at as int, s.len() as int), p@),
{
    let ghost t = s@.subrange(at as int, s.len() as int);
    if p.len() > s.len() - at {
        return false;
    }
    let mut i: usize = 0;
    while i < p.len()
        invariant
            at + p.len() <= s.len(),
            t == s@.subrange(at as int, s.len() as int),
            i <= p.len(),
            forall|j: int| 0 <= j < i ==> s@[at + j] == p@[j],
        decreases p.len() - i,
    {
        if s[at + i] != p[i] {
            assert(t.subrange(0, p.len() as int)[i as int] != p@[i as int]);
            return false;
        }
        i += 1;
    }
    assert(t.subrange(0, p.len() as int) =~= p@);
    true
}

/// Whether `s` starts with `p`.
pub fn has_prefix(s: &Vec<char>, p: &Vec<char>) -> (r: bool)
    ensures
        r == starts_with(s@, p@),
{
    assert(s@.subrange(0, s.len() as int) =~= s@);
    starts_with_at(s, 0, p)
}

/// Whether `s` ends with `p`.
pub fn has_suffix(s: &Vec<char>, p: &Vec<char>) -> (r: bool)
    ensures
        r == ends_with(s@, p@),
{
    if p.len() > s.len() {
        return false;
    }
    let at = s.len() - p.len();
    let r = starts_with_at(s, at, p);
    assert(s@.subrange(at as int, s.len() as int).subrange(0, p.len() as int) =~= s@.subrange(
        at as int,
        s.len() as int,
    ));
    r
}

/// Whether `s` starts with the string slice `p`.
pub fn starts_with_str(s: &Vec<char>, p: &str) -> (r: bool)
    ensures
        r == starts_with(s@, p@),
{
    let pv = chars_of(p);
    has_prefix(s, &pv)
}

/// Position of the first occurrence of `p` in `s`.
pub fn find_exec(s: &Vec<char>, p: &Vec<char>) -> (r: Option<usize>)
    ensures
        match r {
            Some(i) => find(s@, p@) == i as int && i + p@.len() <= s@.len(),
            None => find(s@, p@) == -1,
        },
{
    let mut i: usize = 0;
    while i < s.len()
        invariant
            i <= s.len(),
            forall|j: int|
                0 <= j < i ==> !starts_with(#[trigger] s@.subrange(j, s@.len() as int), p@),
        decreases s.len() - i,
    {
        if starts_with_at(s, i, p) {
            proof {
                lemma_find_at(s@, p@, i as int);
            }
            return Some(i);
        }
        i += 1;
    }
    if starts_with_at(s, i, p) {
        proof {
            lemma_find_at(s@, p@, i as int);
        }
        return Some(i);
    }
    proof {
        lemma_find_at(s@, p@, s@.len() as int + 1);
    }
    None
}

/// Split around the first occurrence of `p`.
pub fn split_once_exec(s: &Vec<char>, p: &Vec<char>) -> (r: Option<(Vec<char>, Vec<char>)>)
    ensures
        match r {
            Some((a, b)) => split_once(s@, p@) == Some((a@, b@)),
            None => split_once(s@, p@) is None,
        },
{
    let found = find_exec(s, p);
    match found {
        Some(i) => {
            assert(i + p@.len() <= s@.len());
            assert(p.len() == p@.len() && s.len() == s@.len());
            let a = subvec(s, 0, i);
            let b = subvec(s, i + p.len(), s.len());
            Some((a, b))
        },
        None => None,
    }
}

/// Split around the first occurrence of the string slice `p`.
pub fn split_once_str(s: &Vec<char>, p: &str) -> (r: Option<(Vec<char>, Vec<char>)>)
    ensures
        match r {
            Some((a, b)) => split_once(s@, p@) == Some((a@, b@)),
            None => split_once(s@, p@) is None,
        },
{
    let pv = chars_of(p);
    split_once_exec(s, &pv)
}

/// `s` without the prefix `p`.
pub fn strip_prefix_str(s: &Vec<char>, p: &str) -> (r: Option<Vec<char>>)
    ensures
        match r {
            Some(a) => strip_prefix(s@, p@) == Some(a@),
            None => strip_prefix(s@, p@) is None,
        },
{
    let pv = chars_of(p);
    if has_prefix(s, &pv) {
        Some(subvec(s, pv.len(), s.len()))
    } else {
        None
    }
}

/// Split at every occurrence of `c`.
pub fn split_char_exec(s: &Vec<char>, c: char) -> (r: Vec<Vec<char>>)
    ensures
        seqs(r@) == split_char(s@, c),
{
    let mut done: Vec<Vec<char>> = Vec::new();
    let mut cur: Vec<char> = Vec::new();
    let mut i: usize = 0;
    assert(s@.subrange(0, 0) =~= Seq::<char>::empty());
    assert(seqs(done@).push(cur@) =~= seq![Seq::<char>::empty()]);
    while i < s.len()
        invariant
            i <= s.len(),
            split_char(s@.subrange(0, i as int), c) == seqs(done@).push(cur@),
        decreases s.len() - i,
    {
        let ghost prev = s@.subrange(0, i as int);
        assert(s@.subrange(0, i + 1).drop_last() =~= prev);
        assert(s@.subrange(0, i + 1).last() == s@[i as int]);
        if s[i] == c {
            let ghost old_done = done@;
            let ghost old_cur = cur@;
            let finished = cur;
            done.push(finished);
            cur = Vec::new();
            assert(seqs(done@).push(cur@) =~= seqs(old_done).push(old_cur).push(
                Seq::<char>::empty(),
            ));
        } else {
            let ghost old_done = done@;
            let ghost old_cur = cur@;
            cur.push(s[i]);
            let ghost k = seqs(old_done).len() as int;
            assert(seqs(old_done).push(old_cur).len() - 1 == k);
            assert(seqs(done@).push(cur@) =~= seqs(old_done).push(old_cur).update(
                k,
                old_cur.push(s@[i as int]),
            ));
        }
        i += 1;
    }
    assert(s@.subrange(0, s.len() as int) =~= s@);
    let ghost before = done@;
    let ghost last = cur@;
    done.push(cur);
    assert(seqs(done@) =~= seqs(before).push(last));
    done
}

/// The lines of `s`, as `str::lines` yields them.
pub fn lines_exec(s: &Vec<char>) -> (r: Vec<Vec<char>>)
    ensures
        seqs(r@) == lines(s@),
{
    let parts = split_char_exec(s, '\n');
    proof {
        lemma_split_char_len(s@, '\n');
    }
    let n = parts.len();
    let mut out: Vec<Vec<char>> = Vec::new();
    let mut i: usize = 0;
    while i + 1 < n
        invariant
            n == parts.len(),
            n >= 1,
            i + 1 <= n,
            seqs(parts@) == split_char(s@, '\n'),
            seqs(out@) == split_char(s@, '\n').subrange(0, i as int).map_values(
                |l: Seq<char>| strip_cr(l),
            ),
        decreases n - i,
    {
        let p = &parts[i];
        let piece = if p.len() > 0 && p[p.len() - 1] == '\r' {
            subvec(p, 0, p.len() - 1)
        } else {
            subvec(p, 0, p.len())
        };
        proof {
            assert(parts@[i as int]@ == split_char(s@, '\n')[i as int]);
            assert(p@.subrange(0, p@.len() as int) =~= p@);
            if p@.len() > 0 && p@.last() == '\r' {
                assert(p@.subrange(0, p@.len() - 1) =~= p@.drop_last());
            }
            assert(piece@ == strip_cr(split_char(s@, '\n')[i as int]));
        }
        let ghost before = out@;
        out.push(piece);
        assert(seqs(out@) =~= seqs(before).push(piece@));
        i += 1;
        assert(seqs(out@) =~= split_char(s@, '\n').subrange(0, i as int).map_values(
            |l: Seq<char>| strip_cr(l),
        ));
    }
    assert(split_char(s@, '\n').subrange(0, n - 1) =~= split_char(s@, '\n').drop_last());
    let last = &parts[n - 1];
    assert(last@ == split_char(s@, '\n').last());
    if last.len() > 0 {
        let l = subvec(last, 0, last.len());
        assert(last@.subrange(0, last@.len() as int) =~= last@);
        let ghost before = out@;
        out.push(l);
        assert(seqs(out@) =~= seqs(before).push(l@));
    }
    out
}

pub fn is_whitespace_char(c: char) -> (r: bool)
    ensures
        r == is_whitespace(c),
{
    ('\u{9}' <= c && c <= '\u{d}') || c == ' ' || c == '\u{85}' || c == '\u{a0}' || c
        == '\u{1680}' || ('\u{2000}' <= c && c <= '\u{200a}') || c == '\u{2028}' || c
        == '\u{2029}' || c == '\u{202f}' || c == '\u{205f}' || c == '\u{3000}'
}

pub proof fn lemma_trim_end_at(s: Seq<char>, e: int)
    requires
        0 <= e <= s.len(),
        forall|j: int| e <= j < s.len() ==> is_whitespace(#[trigger] s[j]),
        e == 0 || !is_whitespace(s[e - 1]),
    ensures
        trim_end(s) == s.subrange(0, e),
    decreases s.len(),
{
    if s.len() > e {
        assert(is_whitespace(s[s.len() - 1]));
        lemma_trim_end_at(s.drop_last(), e);
        assert(s.drop_last().subrange(0, e) =~= s.subrange(0, e));
    } else {
        assert(s.subrange(0, e) =~= s);
    }
}

pub proof fn lemma_trim_start_at(s: Seq<char>, b: int)
    requires
        0 <= b <= s.len(),
        forall|j: int| 0 <= j < b ==> is_whitespace(#[trigger] s[j]),
        b == s.len() || !is_whitespace(s[b]),
    ensures
        trim_start(s) == s.subrange(b, s.len() as int),
    decreases b,
{
    if b > 0 {
        assert(is_whitespace(s[0]));
        let t = s.drop_first();
        assert forall|j: int| 0 <= j < b - 1 implies is_whitespace(#[trigger] t[j]) by {
            assert(t[j] == s[j + 1]);
        }
        lemma_trim_start_at(t, b - 1);
        assert(t.subrange(b - 1, t.len() as int) =~= s.subrange(b, s.len() as int));
    } else {
        assert(s.subrange(0, s.len() as int) =~= s);
    }
}

/// `s` with leading and trailing whitespace removed.
pub fn trim_exec(s: &Vec<char>) -> (r: Vec<char>)
    ensures
        r@ == trim(s@),
{
    let mut e = s.len();
    while e > 0 && is_whitespace_char(s[e - 1])
        invariant
            e <= s.len(),
            forall|j: int| e <= j < s.len() ==> is_whitespace(#[trigger] s@[j]),
        decreases e,
    {
        e -= 1;
    }
    proof {
        lemma_trim_end_at(s@, e as int);
    }
    let mut b: usize = 0;
    while b < e && is_whitespace_char(s[b])
        invariant
            b <= e <= s.len(),
            forall|j: int| 0 <= j < b ==> is_whitespace(#[trigger] s@[j]),
        decreases e - b,
    {
        b += 1;
    }
    proof {
        let t = s@.subrange(0, e as int);
        assert forall|j: int| 0 <= j < b implies is_whitespace(#[trigger] t[j]) by {
            assert(t[j] == s@[j]);
        }
        lemma_trim_start_at(t, b as int);
        assert(t.subrange(b as int, t.len() as int) =~= s@.subrange(b as int, e as int));
    }
    subvec(s, b, e)
}

/// The whitespace-separated words of `s`.
pub fn split_whitespace_exec(s: &Vec<char>) -> (r: Vec<Vec<char>>)
    ensures
        seqs(r@) == split_whitespace(s@),
{
    let mut done: Vec<Vec<char>> = Vec::new();
    let mut cur: Vec<char> = Vec::new();
    let mut i: usize = 0;
    assert(s@.subrange(0, 0) =~= Seq::<char>::empty());
    assert(seqs(done@) =~= Seq::<Seq<char>>::empty());
    while i < s.len()
        invariant
            i <= s.len(),
            words_acc(s@.subrange(0, i as int)) == (seqs(done@), cur@),
        decreases s.len() - i,
    {
        assert(s@.subrange(0, i + 1).drop_last() =~= s@.subrange(0, i as int));
        assert(s@.subrange(0, i + 1).last() == s@[i as int]);
        if is_whitespace_char(s[i]) {
            if cur.len() > 0 {
                let ghost old_done = done@;
                let finished = cur;
                let ghost f = finished@;
                done.push(finished);
                cur = Vec::new();
                assert(seqs(done@) =~= seqs(old_done).push(f));
                assert(cur@ =~= Seq::<char>::empty());
            }
        } else {
            cur.push(s[i]);
        }
        i += 1;
    }
    assert(s@.subrange(0, s.len() as int) =~= s@);
    if cur.len() > 0 {
        let ghost old_done = done@;
        let ghost f = cur@;
        done.push(cur);
        assert(seqs(done@) =~= seqs(old_done).push(f));
    }
    done
}

proof fn lemma_digits_value_bound(s: Seq<char>, k: int)
    requires
        0 <= k <= s.len(),
        all_digits(s),
    ensures
        digits_value(s.subrange(0, k)) <= digits_value(s),
    decreases s.len() - k,
{
    if k < s.len() {
        lemma_digits_value_bound(s, k + 1);
        let t = s.subrange(0, k + 1);
        assert(t.drop_last() =~= s.subrange(0, k));
    } else {
        assert(s.subrange(0, k) =~= s);
    }
}

/// Value of the decimal digits `s[lo..hi]` when they are all digits, there
/// is at least one, and the value is at most `max`.
fn digits_upto(s: &Vec<char>, lo: usize, hi: usize, max: u128) -> (r: Option<u128>)
    requires
        lo <= hi <= s.len(),
        max < u128::MAX / 16,
    ensures
        match r {
            Some(v) => {
                let d = s@.subrange(lo as int, hi as int);
                &&& d.len() > 0
                &&& all_digits(d)
                &&& digits_value(d) == v
                &&& v <= max
            },
            None => {
                let d = s@.subrange(lo as int, hi as int);
                d.len() == 0 || !all_digits(d) || digits_value(d) > max
            },
        },
{
    if lo == hi {
        return None;
    }
    let ghost d = s@.subrange(lo as int, hi as int);
    let mut v: u128 = 0;
    let mut over = false;
    let mut i = lo;
    assert(d.subrange(0, 0) =~= Seq::<char>::empty());
    while i < hi
        invariant
            lo <= i <= hi <= s.len(),
            d == s@.subrange(lo as int, hi as int),
            max < u128::MAX / 16,
            all_digits(d.subrange(0, i - lo)),
            !over ==> v == digits_value(d.subrange(0, i - lo)) && v <= max,
            over ==> digits_value(d.subrange(0, i - lo)) > max,
        decreases hi - i,
    {
        let c = s[i];
        if !('0' <= c && c <= '9') {
            assert(!is_digit(d[i - lo]));
            return None;
        }
        let ghost pre = d.subrange(0, i - lo);
        let ghost nxt = d.subrange(0, i + 1 - lo);
        assert(nxt.drop_last() =~= pre);
        assert(nxt.last() == c);
        assert(all_digits(nxt));
        let dv = (c as u32 - '0' as u32) as u128;
        assert(dv == digit_value(c));
        if !over {
            let nv = v * 10 + dv;
            if nv > max {
                over = true;
            } else {
                v = nv;
            }
        }
        i += 1;
    }
    assert(d.subrange(0, hi - lo) =~= d);
    if over {
        None
    } else {
        Some(v)
    }
}

/// `str::parse::<u32>` over characters.
pub fn parse_u32_exec(s: &Vec<char>) -> (r: Option<u32>)
    ensures
        r == parse_u32(s@),
{
    let lo: usize = if s.len() > 1 && s[0] == '+' { 1 } else { 0 };
    assert(s@.subrange(lo as int, s.len() as int) =~= unsigned_digits(s@));
    match digits_upto(s, lo, s.len(), u32::MAX as u128) {
        Some(v) => Some(v as u32),
        None => None,
    }
}

/// `str::parse::<usize>` over characters.
pub fn parse_usize_exec(s: &Vec<char>) -> (r: Option<usize>)
    ensures
        r == parse_usize(s@),
{
    let lo: usize = if s.len() > 1 && s[0] == '+' { 1 } else { 0 };
    assert(s@.subrange(lo as int, s.len() as int) =~= unsigned_digits(s@));
    match digits_upto(s, lo, s.len(), usize::MAX as u128) {
        Some(v) => Some(v as usize),
        None => None,
    }
}

/// `str::parse::<i64>` over characters.
pub fn parse_i64_exec(s: &Vec<char>) -> (r: Option<i64>)
    ensures
        r == parse_i64(s@),
{
    if s.len() > 1 && s[0] == '-' {
        assert(s@.subrange(1, s.len() as int) =~= s@.drop_first());
        match digits_upto(s, 1, s.len(), 9223372036854775808u128) {
            Some(v) => {
                if v == 9223372036854775808u128 {
                    Some(i64::MIN)
                } else {
                    Some(-(v as i64))
                }
            },
            None => {
                proof {
                    let d = s@.drop_first();
                    if d.len() > 0 && all_digits(d) {
                        assert(digits_value(d) > 9223372036854775808);
                    }
                }
                None
            },
        }
    } else {
        let lo: usize = if s.len() > 1 && s[0] == '+' { 1 } else { 0 };
        assert(s@.subrange(lo as int, s.len() as int) =~= unsigned_digits(s@));
        match digits_upto(s, lo, s.len(), i64::MAX as u128) {
            Some(v) => Some(v as i64),
            None => None,
        }
    }
}

/// Appends the decimal notation of `n`.
pub fn push_decimal(out: &mut String, n: u64)
    ensures
        final(out)@ == old(out)@ + decimal(n as nat),
    decreases n,
{
    if n >= 10 {
        push_decimal(out, n / 10);
    }
    let d = (n % 10) as u32;
    let c = char_from_digit(d);
    push_char(out, c);
    proof {
        if n >= 10 {
            assert(decimal(n as nat) == decimal((n / 10) as nat).push(digit_char((n % 10) as nat)));
        }
    }
    assert(final(out)@ =~= old(out)@ + decimal(n as nat)) by {
        if n < 10 {
            assert(decimal(n as nat) =~= seq![digit_char(n as nat)]);
        }
    }
}

fn char_from_digit(d: u32) -> (c: char)
    requires
        d < 10,
    ensures
        c == digit_char(d as nat),
{
    if d == 0 { '0' } else if d == 1 { '1' } else if d == 2 { '2' } else if d == 3 { '3' }
    else if d == 4 { '4' } else if d == 5 { '5' } else if d == 6 { '6' } else if d == 7 { '7' }
    else if d == 8 { '8' } else { '9' }
}

} // verus!
