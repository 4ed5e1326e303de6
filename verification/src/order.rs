//! The order of strings (`str`'s `Ord`: lexicographic by code point, which
//! is also the order of their UTF-8 bytes) and sorting of text pairs.

use vstd::prelude::*;

use crate::text::chars_of;

verus! {

/// `a < b` in the order of `str`.
pub open spec fn text_lt(a: Seq<char>, b: Seq<char>) -> bool
    decreases a.len(),
{
    if a.len() == 0 {
        b.len() > 0
    } else if b.len() == 0 {
        false
    } else if a[0] != b[0] {
        (a[0] as int) < (b[0] as int)
    } else {
        text_lt(a.drop_first(), b.drop_first())
    }
}

pub open spec fn text_le(a: Seq<char>, b: Seq<char>) -> bool {
    a == b || text_lt(a, b)
}

pub proof fn lemma_text_lt_irreflexive(a: Seq<char>)
    ensures
        !text_lt(a, a),
    decreases a.len(),
{
    if a.len() > 0 {
        lemma_text_lt_irreflexive(a.drop_first());
    }
}

pub proof fn lemma_text_lt_total(a: Seq<char>, b: Seq<char>)
    ensures
        a == b || text_lt(a, b) || text_lt(b, a),
    decreases a.len(),
{
    if a.len() > 0 && b.len() > 0 && a[0] == b[0] {
        lemma_text_lt_total(a.drop_first(), b.drop_first());
        if a.drop_first() == b.drop_first() {
            assert(a =~= seq![a[0]] + a.drop_first());
            assert(b =~= seq![b[0]] + b.drop_first());
        }
    } else if a.len() == 0 && b.len() == 0 {
        assert(a =~= b);
    }
}

pub proof fn lemma_text_lt_asymmetric(a: Seq<char>, b: Seq<char>)
    ensures
        !(text_lt(a, b) && text_lt(b, a)),
    decreases a.len(),
{
    if a.len() > 0 && b.len() > 0 && a[0] == b[0] {
        lemma_text_lt_asymmetric(a.drop_first(), b.drop_first());
    }
}

pub proof fn lemma_text_lt_transitive(a: Seq<char>, b: Seq<char>, c: Seq<char>)
    requires
        text_lt(a, b),
        text_lt(b, c),
    ensures
        text_lt(a, c),
    decreases a.len(),
{
    if a.len() > 0 && b.len() > 0 && c.len() > 0 && a[0] == b[0] && b[0] == c[0] {
        lemma_text_lt_transitive(a.drop_first(), b.drop_first(), c.drop_first());
    }
}

/// Compare two character sequences in the order of `str`: -1, 0 or 1.
pub fn compare_text(a: &Vec<char>, b: &Vec<char>) -> (r: i8)
    ensures
        r == 0 <==> a@ == b@,
        r < 0 <==> text_lt(a@, b@),
        r > 0 <==> text_lt(b@, a@),
        -1 <= r <= 1,
{
    let mut i: usize = 0;
    while i < a.len() && i < b.len() && a[i] == b[i]
        invariant
            i <= a.len(),
            i <= b.len(),
            forall|j: int| 0 <= j < i ==> a@[j] == b@[j],
        decreases a.len() - i,
    {
        i += 1;
    }
    proof {
        lemma_text_lt_common_prefix(a@, b@, i as int);
        lemma_text_lt_asymmetric(a@, b@);
        lemma_text_lt_irreflexive(a@);
    }
    if i < a.len() && i < b.len() {
        if a[i] < b[i] {
            -1
        } else {
            1
        }
    } else if a.len() == b.len() {
        assert(a@ =~= b@);
        0
    } else if i == a.len() {
        -1
    } else {
        1
    }
}

/// Comparing past a common prefix of length `i`.
proof fn lemma_text_lt_common_prefix(a: Seq<char>, b: Seq<char>, i: int)
    requires
        0 <= i <= a.len(),
        i <= b.len(),
        forall|j: int| 0 <= j < i ==> a[j] == b[j],
    ensures
        text_lt(a, b) == text_lt(a.subrange(i, a.len() as int), b.subrange(i, b.len() as int)),
        text_lt(b, a) == text_lt(b.subrange(i, b.len() as int), a.subrange(i, a.len() as int)),
    decreases i,
{
    if i > 0 {
        lemma_text_lt_common_prefix(a.drop_first(), b.drop_first(), i - 1);
        assert(a.drop_first().subrange(i - 1, a.len() - 1) =~= a.subrange(i, a.len() as int));
        assert(b.drop_first().subrange(i - 1, b.len() - 1) =~= b.subrange(i, b.len() as int));
    } else {
        assert(a.subrange(0, a.len() as int) =~= a);
        assert(b.subrange(0, b.len() as int) =~= b);
    }
}

/// Pairs of texts ordered by the first, then the second component.
pub open spec fn pair_le(x: (Seq<char>, Seq<char>), y: (Seq<char>, Seq<char>)) -> bool {
    text_lt(x.0, y.0) || (x.0 == y.0 && text_le(x.1, y.1))
}

pub open spec fn pair_views(v: Seq<(String, String)>) -> Seq<(Seq<char>, Seq<char>)> {
    v.map_values(|p: (String, String)| (p.0@, p.1@))
}

pub open spec fn sorted_pairs(v: Seq<(Seq<char>, Seq<char>)>) -> bool {
    forall|i: int, j: int| 0 <= i < j < v.len() ==> pair_le(#[trigger] v[i], #[trigger] v[j])
}

proof fn lemma_pair_le_total(x: (Seq<char>, Seq<char>), y: (Seq<char>, Seq<char>))
    ensures
        pair_le(x, y) || pair_le(y, x),
{
    lemma_text_lt_total(x.0, y.0);
    lemma_text_lt_total(x.1, y.1);
}

proof fn lemma_pair_le_transitive(
    x: (Seq<char>, Seq<char>),
    y: (Seq<char>, Seq<char>),
    z: (Seq<char>, Seq<char>),
)
    requires
        pair_le(x, y),
        pair_le(y, z),
    ensures
        pair_le(x, z),
{
    if text_lt(x.0, y.0) && text_lt(y.0, z.0) {
        lemma_text_lt_transitive(x.0, y.0, z.0);
    }
    if text_lt(x.1, y.1) && text_lt(y.1, z.1) {
        lemma_text_lt_transitive(x.1, y.1, z.1);
    }
}

fn pair_le_exec(x: &(String, String), y: &(String, String)) -> (r: bool)
    ensures
        r == pair_le((x.0@, x.1@), (y.0@, y.1@)),
{
    let a0 = chars_of(x.0.as_str());
    let b0 = chars_of(y.0.as_str());
    let c = compare_text(&a0, &b0);
    if c < 0 {
        true
    } else if c > 0 {
        proof {
            lemma_text_lt_asymmetric(a0@, b0@);
        }
        false
    } else {
        let a1 = chars_of(x.1.as_str());
        let b1 = chars_of(y.1.as_str());
        let d = compare_text(&a1, &b1);
        proof {
            lemma_text_lt_irreflexive(a0@);
        }
        d <= 0
    }
}

/// The pairs in ascending order (first component, then second), as
/// `Vec::sort` on `(String, String)` leaves them.
pub fn sort_pairs(v: Vec<(String, String)>) -> (r: Vec<(String, String)>)
    ensures
        sorted_pairs(pair_views(r@)),
        pair_views(r@).to_multiset() == pair_views(v@).to_multiset(),
{
    broadcast use vstd::seq_lib::group_to_multiset_ensures;

    let mut out: Vec<(String, String)> = Vec::new();
    let mut i: usize = 0;
    let n = v.len();
    assert(pair_views(v@).subrange(0, 0) =~= Seq::<(Seq<char>, Seq<char>)>::empty());
    assert(pair_views(out@) =~= Seq::<(Seq<char>, Seq<char>)>::empty());
    while i < n
        invariant
            n == v.len(),
            i <= n,
            sorted_pairs(pair_views(out@)),
            pair_views(out@).to_multiset() == pair_views(v@).subrange(0, i as int).to_multiset(),
        decreases n - i,
    {
        let x = (v[i].0.clone(), v[i].1.clone());
        let ghost xv = (x.0@, x.1@);
        // Find the first position whose element is greater than x.
        let mut j: usize = 0;
        while j < out.len() && pair_le_exec(&out[j], &x)
            invariant
                j <= out.len(),
                xv == (x.0@, x.1@),
                forall|k: int| 0 <= k < j ==> pair_le(#[trigger] pair_views(out@)[k], xv),
            decreases out.len() - j,
        {
            assert(pair_views(out@)[j as int] == (out@[j as int].0@, out@[j as int].1@));
            j += 1;
        }
        let ghost before = pair_views(out@);
        proof {
            if j < out.len() {
                lemma_pair_le_total(before[j as int], xv);
            }
            assert forall|k: int| j <= k < before.len() implies pair_le(xv, #[trigger] before[k]) by {
                if k > j {
                    lemma_pair_le_transitive(xv, before[j as int], before[k]);
                }
            }
        }
        out.insert(j, x);
        proof {
            let after = pair_views(out@);
            assert(after =~= before.insert(j as int, xv));
            assert forall|a: int, b: int| 0 <= a < b < after.len() implies pair_le(
                #[trigger] after[a],
                #[trigger] after[b],
            ) by {
                if a < j && b == j {
                } else if a < j && b > j {
                    assert(after[b] == before[b - 1]);
                } else if a == j {
                    assert(after[b] == before[b - 1]);
                } else if a > j {
                    assert(after[a] == before[a - 1] && after[b] == before[b - 1]);
                }
            }
            assert(pair_views(v@).subrange(0, i + 1) =~= pair_views(v@).subrange(0, i as int).push(
                xv,
            ));
            vstd::seq_lib::to_multiset_build(pair_views(v@).subrange(0, i as int), xv);
            vstd::seq_lib::to_multiset_insert(before, j as int, xv);
            assert(xv == pair_views(v@)[i as int]);
        }
        i += 1;
    }
    assert(pair_views(v@).subrange(0, n as int) =~= pair_views(v@));
    out
}


/// Entries keyed by a text, taken by the view of the key.
pub open spec fn keyed_views<V>(v: Seq<(String, V)>) -> Seq<(Seq<char>, V)> {
    v.map_values(|p: (String, V)| (p.0@, p.1))
}

pub open spec fn sorted_by_key<V>(v: Seq<(Seq<char>, V)>) -> bool {
    forall|i: int, j: int| 0 <= i < j < v.len() ==> text_le((#[trigger] v[i]).0, (#[trigger] v[j]).0)
}

/// The entries in ascending order of their keys (the order among entries
/// with equal keys is left open).
pub fn sort_by_key<V>(v: Vec<(String, V)>) -> (r: Vec<(String, V)>)
    ensures
        sorted_by_key(keyed_views(r@)),
        keyed_views(r@).to_multiset() == keyed_views(v@).to_multiset(),
{
    broadcast use vstd::seq_lib::group_to_multiset_ensures;

    let ghost orig = keyed_views(v@);
    let mut rest = v;
    let mut out: Vec<(String, V)> = Vec::new();
    assert(keyed_views(out@) =~= Seq::<(Seq<char>, V)>::empty());
    while rest.len() > 0
        invariant
            sorted_by_key(keyed_views(out@)),
            keyed_views(out@).to_multiset().add(keyed_views(rest@).to_multiset()) == orig.to_multiset(),
        decreases rest.len(),
    {
        let ghost rest_before = keyed_views(rest@);
        let x = rest.pop().unwrap();
        let ghost xv = (x.0@, x.1);
        proof {
            assert(rest_before =~= keyed_views(rest@).push(xv));
            vstd::seq_lib::to_multiset_build(keyed_views(rest@), xv);
        }
        let xk = chars_of(x.0.as_str());
        let mut j: usize = 0;
        while j < out.len()
            invariant
                j <= out.len(),
                xk@ == xv.0,
                forall|k: int| 0 <= k < j ==> text_le((#[trigger] keyed_views(out@)[k]).0, xv.0),
            ensures
                j <= out.len(),
                forall|k: int| 0 <= k < j ==> text_le((#[trigger] keyed_views(out@)[k]).0, xv.0),
                j < out.len() ==> text_lt(xv.0, keyed_views(out@)[j as int].0),
            decreases out.len() - j,
        {
            let ok = chars_of(out[j].0.as_str());
            assert(keyed_views(out@)[j as int].0 == ok@);
            if compare_text(&ok, &xk) > 0 {
                break;
            }
            assert(keyed_views(out@)[j as int].0 == ok@);
            j += 1;
        }
        let ghost before = keyed_views(out@);
        proof {
            if j < out.len() {
                assert(before[j as int].0 == out@[j as int].0@);
            }
            assert forall|k: int| j <= k < before.len() implies text_le(xv.0, (#[trigger] before[k]).0) by {
                if j < before.len() {
                    if k > j {
                        assert(text_le(before[j as int].0, before[k].0));
                        if text_lt(before[j as int].0, before[k].0) {
                            lemma_text_lt_transitive(xv.0, before[j as int].0, before[k].0);
                        }
                    }
                }
            }
        }
        out.insert(j, x);
        proof {
            let after = keyed_views(out@);
            assert(after =~= before.insert(j as int, xv));
            assert forall|a: int, b: int| 0 <= a < b < after.len() implies text_le(
                (#[trigger] after[a]).0,
                (#[trigger] after[b]).0,
            ) by {
                if a < j && b == j {
                } else if a < j && b > j {
                    assert(after[b] == before[b - 1]);
                } else if a == j {
                    assert(after[b] == before[b - 1]);
                } else if a > j {
                    assert(after[a] == before[a - 1] && after[b] == before[b - 1]);
                }
            }
            vstd::seq_lib::to_multiset_insert(before, j as int, xv);
        }
    }
    assert(keyed_views(rest@) =~= Seq::<(Seq<char>, V)>::empty());
    out
}


// ---------------------------------------------------------------------------
// Sorted sets and maps keyed by static text (the shape of a `BTreeSet<&str>`
// and a `BTreeMap<&str, V>`: keys kept in ascending order, each once).
// ---------------------------------------------------------------------------

pub open spec fn str_views(v: Seq<&'static str>) -> Seq<Seq<char>> {
    v.map_values(|s: &'static str| s@)
}

pub open spec fn strictly_sorted(s: Seq<Seq<char>>) -> bool {
    forall|i: int, j: int| 0 <= i < j < s.len() ==> text_lt(#[trigger] s[i], #[trigger] s[j])
}

pub open spec fn entry_keys<V>(v: Seq<(&'static str, V)>) -> Seq<Seq<char>> {
    v.map_values(|p: (&'static str, V)| p.0@)
}

/// The value stored under `k` (the first entry with that key).
pub open spec fn entry_lookup<V>(v: Seq<(&'static str, V)>, k: Seq<char>) -> Option<V>
    decreases v.len(),
{
    if v.len() == 0 {
        None
    } else if v[0].0@ == k {
        Some(v[0].1)
    } else {
        entry_lookup(v.drop_first(), k)
    }
}

/// Compare two texts in the order of `str`: -1, 0 or 1.
pub fn str_compare(a: &str, b: &str) -> (r: i8)
    ensures
        r == 0 <==> a@ == b@,
        r < 0 <==> text_lt(a@, b@),
        r > 0 <==> text_lt(b@, a@),
{
    let x = chars_of(a);
    let y = chars_of(b);
    compare_text(&x, &y)
}

proof fn lemma_lookup_at<V>(v: Seq<(&'static str, V)>, i: int)
    requires
        strictly_sorted(entry_keys(v)),
        0 <= i < v.len(),
    ensures
        entry_lookup(v, v[i].0@) == Some(v[i].1),
    decreases v.len(),
{
    if i > 0 {
        let t = v.drop_first();
        assert(entry_keys(v)[0] == v[0].0@ && entry_keys(v)[i] == v[i].0@);
        lemma_text_lt_irreflexive(v[0].0@);
        assert(v[0].0@ != v[i].0@);
        assert(strictly_sorted(entry_keys(t))) by {
            assert forall|a: int, b: int| 0 <= a < b < entry_keys(t).len() implies text_lt(
                #[trigger] entry_keys(t)[a],
                #[trigger] entry_keys(t)[b],
            ) by {
                assert(entry_keys(t)[a] == entry_keys(v)[a + 1] && entry_keys(t)[b] == entry_keys(v)[b + 1]);
            }
        }
        assert(t[i - 1] == v[i]);
        lemma_lookup_at(t, i - 1);
    }
}

proof fn lemma_lookup_absent<V>(v: Seq<(&'static str, V)>, k: Seq<char>)
    requires
        forall|i: int| 0 <= i < v.len() ==> (#[trigger] v[i]).0@ != k,
    ensures
        entry_lookup(v, k) is None,
    decreases v.len(),
{
    if v.len() > 0 {
        let t = v.drop_first();
        assert forall|i: int| 0 <= i < t.len() implies (#[trigger] t[i]).0@ != k by {
            assert(t[i] == v[i + 1]);
        }
        lemma_lookup_absent(t, k);
    }
}

/// `entry_lookup` finds what is there and nothing else.
proof fn lemma_lookup_exact<V>(v: Seq<(&'static str, V)>, k: Seq<char>)
    requires
        strictly_sorted(entry_keys(v)),
    ensures
        match entry_lookup(v, k) {
            Some(x) => exists|i: int| 0 <= i < v.len() && v[i].0@ == k && #[trigger] v[i].1 == x,
            None => forall|i: int| 0 <= i < v.len() ==> (#[trigger] v[i]).0@ != k,
        },
{
    if exists|i: int| 0 <= i < v.len() && (#[trigger] v[i]).0@ == k {
        let i = choose|i: int| 0 <= i < v.len() && (#[trigger] v[i]).0@ == k;
        lemma_lookup_at(v, i);
        assert(v[i].0@ == k && v[i].1 == v[i].1);
    } else {
        lemma_lookup_absent(v, k);
    }
}

/// Where `k` stands among the sorted keys: `Ok(i)` at `i`, or `Err(i)` for
/// the position it would take.
fn locate_key<V>(v: &Vec<(&'static str, V)>, k: &str) -> (r: Result<usize, usize>)
    requires
        strictly_sorted(entry_keys(v@)),
    ensures
        match r {
            Ok(i) => i < v@.len() && v@[i as int].0@ == k@,
            Err(i) => i <= v@.len() && (forall|j: int| 0 <= j < i ==> text_lt((#[trigger] v@[j]).0@, k@)) && (
            forall|j: int| i <= j < v@.len() ==> text_lt(k@, (#[trigger] v@[j]).0@)),
        },
{
    let mut i: usize = 0;
    while i < v.len()
        invariant
            i <= v@.len(),
            strictly_sorted(entry_keys(v@)),
            forall|j: int| 0 <= j < i ==> text_lt((#[trigger] v@[j]).0@, k@),
        decreases v.len() - i,
    {
        let c = str_compare(v[i].0, k);
        if c == 0 {
            return Ok(i);
        }
        if c > 0 {
            proof {
                assert forall|j: int| i <= j < v@.len() implies text_lt(k@, (#[trigger] v@[j]).0@) by {
                    if j > i {
                        assert(entry_keys(v@)[i as int] == v@[i as int].0@);
                        assert(entry_keys(v@)[j] == v@[j].0@);
                        lemma_text_lt_transitive(k@, v@[i as int].0@, v@[j].0@);
                    }
                }
            }
            return Err(i);
        }
        i += 1;
    }
    Err(i)
}

/// The entry stored under `k`.
pub fn map_get<'a, V>(v: &'a Vec<(&'static str, V)>, k: &str) -> (r: Option<&'a V>)
    requires
        strictly_sorted(entry_keys(v@)),
    ensures
        match r {
            Some(x) => entry_lookup(v@, k@) == Some(*x),
            None => entry_lookup(v@, k@) is None,
        },
{
    match locate_key(v, k) {
        Ok(i) => {
            proof {
                lemma_lookup_at(v@, i as int);
            }
            Some(&v[i].1)
        },
        Err(i) => {
            proof {
                assert forall|j: int| 0 <= j < v@.len() implies (#[trigger] v@[j]).0@ != k@ by {
                    if j < i {
                        lemma_text_lt_irreflexive(k@);
                    } else {
                        lemma_text_lt_irreflexive(k@);
                    }
                }
                lemma_lookup_absent(v@, k@);
            }
            None
        },
    }
}

proof fn lemma_sorted_insert<V>(v: Seq<(&'static str, V)>, i: int, e: (&'static str, V))
    requires
        strictly_sorted(entry_keys(v)),
        0 <= i <= v.len(),
        forall|j: int| 0 <= j < i ==> text_lt((#[trigger] v[j]).0@, e.0@),
        forall|j: int| i <= j < v.len() ==> text_lt(e.0@, (#[trigger] v[j]).0@),
    ensures
        strictly_sorted(entry_keys(v.insert(i, e))),
{
    let n = v.insert(i, e);
    assert forall|a: int, b: int| 0 <= a < b < entry_keys(n).len() implies text_lt(
        #[trigger] entry_keys(n)[a],
        #[trigger] entry_keys(n)[b],
    ) by {
        assert(entry_keys(n)[a] == n[a].0@ && entry_keys(n)[b] == n[b].0@);
        if a < i && b < i {
            assert(entry_keys(v)[a] == v[a].0@ && entry_keys(v)[b] == v[b].0@);
        } else if a < i && b == i {
        } else if a < i {
            assert(n[b] == v[b - 1]);
            lemma_text_lt_transitive(v[a].0@, e.0@, v[b - 1].0@);
        } else if a == i {
            assert(n[b] == v[b - 1]);
        } else {
            assert(n[a] == v[a - 1] && n[b] == v[b - 1]);
            assert(entry_keys(v)[a - 1] == v[a - 1].0@ && entry_keys(v)[b - 1] == v[b - 1].0@);
        }
    }
}

proof fn lemma_sorted_remove<V>(v: Seq<(&'static str, V)>, i: int)
    requires
        strictly_sorted(entry_keys(v)),
        0 <= i < v.len(),
    ensures
        strictly_sorted(entry_keys(v.remove(i))),
{
    let n = v.remove(i);
    assert forall|a: int, b: int| 0 <= a < b < entry_keys(n).len() implies text_lt(
        #[trigger] entry_keys(n)[a],
        #[trigger] entry_keys(n)[b],
    ) by {
        let a2 = if a < i { a } else { a + 1 };
        let b2 = if b < i { b } else { b + 1 };
        assert(n[a] == v[a2] && n[b] == v[b2]);
        assert(entry_keys(v)[a2] == v[a2].0@ && entry_keys(v)[b2] == v[b2].0@);
    }
}

/// Store `val` under `k`, replacing what was there.
pub fn map_insert<V>(v: &mut Vec<(&'static str, V)>, k: &'static str, val: V)
    requires
        strictly_sorted(entry_keys(old(v)@)),
    ensures
        strictly_sorted(entry_keys(final(v)@)),
        entry_lookup(final(v)@, k@) == Some(val),
        forall|k2: Seq<char>| k2 != k@ ==> entry_lookup(final(v)@, k2) == entry_lookup(old(v)@, k2),
{
    let ghost o = v@;
    match locate_key(v, k) {
        Ok(i) => {
            v.set(i, (k, val));
            proof {
                assert(v@ =~= o.update(i as int, (k, val)));
                assert(entry_keys(v@) =~= entry_keys(o));
                lemma_lookup_at(v@, i as int);
                assert forall|k2: Seq<char>| k2 != k@ implies entry_lookup(v@, k2) == entry_lookup(o, k2) by {
                    lemma_lookup_exact(v@, k2);
                    lemma_lookup_exact(o, k2);
                    if let Some(x) = entry_lookup(o, k2) {
                        let j = choose|j: int| 0 <= j < o.len() && o[j].0@ == k2 && #[trigger] o[j].1 == x;
                        assert(v@[j] == o[j]);
                        lemma_lookup_at(v@, j);
                    } else {
                        assert forall|j: int| 0 <= j < v@.len() implies (#[trigger] v@[j]).0@ != k2 by {
                            if j != i {
                                assert(v@[j] == o[j]);
                            }
                        }
                        lemma_lookup_absent(v@, k2);
                    }
                }
            }
        },
        Err(i) => {
            v.insert(i, (k, val));
            proof {
                assert(v@ =~= o.insert(i as int, (k, val)));
                lemma_sorted_insert(o, i as int, (k, val));
                assert(v@[i as int] == (k, val));
                lemma_lookup_at(v@, i as int);
                assert forall|k2: Seq<char>| k2 != k@ implies entry_lookup(v@, k2) == entry_lookup(o, k2) by {
                    lemma_lookup_exact(v@, k2);
                    lemma_lookup_exact(o, k2);
                    if let Some(x) = entry_lookup(o, k2) {
                        let j = choose|j: int| 0 <= j < o.len() && o[j].0@ == k2 && #[trigger] o[j].1 == x;
                        let j2 = if j < i { j } else { j + 1 };
                        assert(v@[j2] == o[j]);
                        lemma_lookup_at(v@, j2);
                    } else {
                        assert forall|j: int| 0 <= j < v@.len() implies (#[trigger] v@[j]).0@ != k2 by {
                            if j < i {
                                assert(v@[j] == o[j]);
                            } else if j > i {
                                assert(v@[j] == o[j - 1]);
                            }
                        }
                        lemma_lookup_absent(v@, k2);
                    }
                }
            }
        },
    }
}

/// Drop the entry under `k`, if any.
pub fn map_remove<V>(v: &mut Vec<(&'static str, V)>, k: &str)
    requires
        strictly_sorted(entry_keys(old(v)@)),
    ensures
        strictly_sorted(entry_keys(final(v)@)),
        entry_lookup(final(v)@, k@) is None,
        forall|k2: Seq<char>| k2 != k@ ==> entry_lookup(final(v)@, k2) == entry_lookup(old(v)@, k2),
{
    let ghost o = v@;
    match locate_key(v, k) {
        Ok(i) => {
            v.remove(i);
            proof {
                assert(v@ =~= o.remove(i as int));
                lemma_sorted_remove(o, i as int);
                assert forall|j: int| 0 <= j < v@.len() implies (#[trigger] v@[j]).0@ != k@ by {
                    let j2 = if j < i { j } else { j + 1 };
                    assert(v@[j] == o[j2]);
                    assert(entry_keys(o)[j2] == o[j2].0@ && entry_keys(o)[i as int] == o[i as int].0@);
                    lemma_text_lt_irreflexive(k@);
                }
                lemma_lookup_absent(v@, k@);
                assert forall|k2: Seq<char>| k2 != k@ implies entry_lookup(v@, k2) == entry_lookup(o, k2) by {
                    lemma_lookup_exact(v@, k2);
                    lemma_lookup_exact(o, k2);
                    if let Some(x) = entry_lookup(o, k2) {
                        let j = choose|j: int| 0 <= j < o.len() && o[j].0@ == k2 && #[trigger] o[j].1 == x;
                        assert(j != i);
                        let j2 = if j < i { j } else { j - 1 };
                        assert(v@[j2] == o[j]);
                        lemma_lookup_at(v@, j2);
                    } else {
                        assert forall|j: int| 0 <= j < v@.len() implies (#[trigger] v@[j]).0@ != k2 by {
                            let j2 = if j < i { j } else { j + 1 };
                            assert(v@[j] == o[j2]);
                        }
                        lemma_lookup_absent(v@, k2);
                    }
                }
            }
        },
        Err(i) => {
            proof {
                assert forall|j: int| 0 <= j < v@.len() implies (#[trigger] v@[j]).0@ != k@ by {
                    lemma_text_lt_irreflexive(k@);
                }
                lemma_lookup_absent(v@, k@);
            }
        },
    }
}


fn locate_str(v: &Vec<&'static str>, k: &str) -> (r: Result<usize, usize>)
    requires
        strictly_sorted(str_views(v@)),
    ensures
        match r {
            Ok(i) => i < v@.len() && v@[i as int]@ == k@,
            Err(i) => i <= v@.len() && (forall|j: int| 0 <= j < i ==> text_lt((#[trigger] v@[j])@, k@)) && (
            forall|j: int| i <= j < v@.len() ==> text_lt(k@, (#[trigger] v@[j])@)),
        },
{
    let mut i: usize = 0;
    while i < v.len()
        invariant
            i <= v@.len(),
            strictly_sorted(str_views(v@)),
            forall|j: int| 0 <= j < i ==> text_lt((#[trigger] v@[j])@, k@),
        decreases v.len() - i,
    {
        let c = str_compare(v[i], k);
        if c == 0 {
            return Ok(i);
        }
        if c > 0 {
            proof {
                assert forall|j: int| i <= j < v@.len() implies text_lt(k@, (#[trigger] v@[j])@) by {
                    if j > i {
                        assert(str_views(v@)[i as int] == v@[i as int]@);
                        assert(str_views(v@)[j] == v@[j]@);
                        lemma_text_lt_transitive(k@, v@[i as int]@, v@[j]@);
                    }
                }
            }
            return Err(i);
        }
        i += 1;
    }
    Err(i)
}

/// Whether the sorted set holds `k`.
pub fn set_contains(v: &Vec<&'static str>, k: &str) -> (r: bool)
    requires
        strictly_sorted(str_views(v@)),
    ensures
        r == str_views(v@).contains(k@),
{
    match locate_str(v, k) {
        Ok(i) => {
            assert(str_views(v@)[i as int] == k@);
            true
        },
        Err(i) => {
            proof {
                lemma_text_lt_irreflexive(k@);
                if str_views(v@).contains(k@) {
                    let j = choose|j: int| 0 <= j < str_views(v@).len() && str_views(v@)[j] == k@;
                    assert(v@[j]@ == k@);
                }
            }
            false
        },
    }
}

/// Add `k` to the sorted set.
pub fn set_insert(v: &mut Vec<&'static str>, k: &'static str)
    requires
        strictly_sorted(str_views(old(v)@)),
    ensures
        strictly_sorted(str_views(final(v)@)),
        forall|y: Seq<char>| #[trigger] str_views(final(v)@).contains(y) <==> (str_views(old(v)@).contains(y) || y == k@),
{
    let ghost o = v@;
    match locate_str(v, k) {
        Ok(i) => {
            assert(str_views(o)[i as int] == k@);
        },
        Err(i) => {
            v.insert(i, k);
            proof {
                let n = v@;
                assert(n =~= o.insert(i as int, k));
                assert forall|a: int, b: int| 0 <= a < b < str_views(n).len() implies text_lt(
                    #[trigger] str_views(n)[a],
                    #[trigger] str_views(n)[b],
                ) by {
                    if a < i && b < i {
                        assert(str_views(o)[a] == o[a]@ && str_views(o)[b] == o[b]@);
                    } else if a < i && b == i {
                    } else if a < i {
                        assert(n[b] == o[b - 1]);
                        lemma_text_lt_transitive(o[a]@, k@, o[b - 1]@);
                    } else if a == i {
                        assert(n[b] == o[b - 1]);
                    } else {
                        assert(n[a] == o[a - 1] && n[b] == o[b - 1]);
                        assert(str_views(o)[a - 1] == o[a - 1]@ && str_views(o)[b - 1] == o[b - 1]@);
                    }
                }
                assert forall|y: Seq<char>| #[trigger] str_views(n).contains(y) <==> (str_views(o).contains(y) || y == k@) by {
                    if str_views(n).contains(y) {
                        let j = choose|j: int| 0 <= j < str_views(n).len() && str_views(n)[j] == y;
                        if j < i {
                            assert(str_views(o)[j] == y);
                        } else if j > i {
                            assert(str_views(o)[j - 1] == y);
                        }
                    }
                    if str_views(o).contains(y) {
                        let j = choose|j: int| 0 <= j < str_views(o).len() && str_views(o)[j] == y;
                        if j < i {
                            assert(str_views(n)[j] == y);
                        } else {
                            assert(str_views(n)[j + 1] == y);
                        }
                    }
                    if y == k@ {
                        assert(str_views(n)[i as int] == y);
                    }
                }
            }
        },
    }
}

/// Drop `k` from the sorted set.
pub fn set_remove(v: &mut Vec<&'static str>, k: &str)
    requires
        strictly_sorted(str_views(old(v)@)),
    ensures
        strictly_sorted(str_views(final(v)@)),
        forall|y: Seq<char>| #[trigger] str_views(final(v)@).contains(y) <==> (str_views(old(v)@).contains(y) && y != k@),
{
    let ghost o = v@;
    match locate_str(v, k) {
        Ok(i) => {
            v.remove(i);
            proof {
                let n = v@;
                assert(n =~= o.remove(i as int));
                assert forall|a: int, b: int| 0 <= a < b < str_views(n).len() implies text_lt(
                    #[trigger] str_views(n)[a],
                    #[trigger] str_views(n)[b],
                ) by {
                    let a2 = if a < i { a } else { a + 1 };
                    let b2 = if b < i { b } else { b + 1 };
                    assert(n[a] == o[a2] && n[b] == o[b2]);
                    assert(str_views(o)[a2] == o[a2]@ && str_views(o)[b2] == o[b2]@);
                }
                assert forall|y: Seq<char>| #[trigger] str_views(n).contains(y) <==> (str_views(o).contains(y) && y != k@) by {
                    if str_views(n).contains(y) {
                        let j = choose|j: int| 0 <= j < str_views(n).len() && str_views(n)[j] == y;
                        let j2 = if j < i { j } else { j + 1 };
                        assert(str_views(o)[j2] == y);
                        assert(str_views(o)[i as int] == k@);
                        lemma_text_lt_irreflexive(k@);
                    }
                    if str_views(o).contains(y) && y != k@ {
                        let j = choose|j: int| 0 <= j < str_views(o).len() && str_views(o)[j] == y;
                        assert(j != i);
                        let j2 = if j < i { j } else { j - 1 };
                        assert(str_views(n)[j2] == y);
                    }
                }
            }
        },
        Err(i) => {
            proof {
                assert forall|y: Seq<char>| #[trigger] str_views(o).contains(y) <==> (str_views(o).contains(y) && y != k@) by {
                    if str_views(o).contains(y) && y == k@ {
                        let j = choose|j: int| 0 <= j < str_views(o).len() && str_views(o)[j] == y;
                        assert(o[j]@ == k@);
                        lemma_text_lt_irreflexive(k@);
                    }
                }
            }
        },
    }
}

} // verus!
