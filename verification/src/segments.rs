//! Skip ranges `(start_ms, end_ms)` and their canonical form: sorted,
//! non-empty, and separated by gaps, so that touching or overlapping ranges
//! are one.

use vstd::prelude::*;

verus! {

/// Whether the half-open range `seg` holds the instant `t`.
pub open spec fn holds(seg: (u64, u64), t: int) -> bool {
    seg.0 <= t < seg.1
}

/// Whether some range of `segs` holds `t`.
pub open spec fn covers(segs: Seq<(u64, u64)>, t: int) -> bool {
    exists|i: int| 0 <= i < segs.len() && holds(#[trigger] segs[i], t)
}

/// Sorted, non-empty ranges with a gap between any two of them.
pub open spec fn canonical(segs: Seq<(u64, u64)>) -> bool {
    &&& forall|i: int| 0 <= i < segs.len() ==> (#[trigger] segs[i]).0 < segs[i].1
    &&& forall|i: int, j: int| 0 <= i < j < segs.len() ==> (#[trigger] segs[i]).1 < (
    #[trigger] segs[j]).0
}

proof fn lemma_covers_push(segs: Seq<(u64, u64)>, x: (u64, u64), t: int)
    ensures
        covers(segs.push(x), t) == (covers(segs, t) || holds(x, t)),
{
    if covers(segs, t) {
        let i = choose|i: int| 0 <= i < segs.len() && holds(#[trigger] segs[i], t);
        assert(segs.push(x)[i] == segs[i]);
    }
    if holds(x, t) {
        assert(segs.push(x)[segs.len() as int] == x);
    }
    if covers(segs.push(x), t) {
        let i = choose|i: int| 0 <= i < segs.push(x).len() && holds(#[trigger] segs.push(x)[i], t);
        if i < segs.len() {
            assert(segs.push(x)[i] == segs[i]);
        }
    }
}

/// The canonical list `acc` with the range `[s, e)` added.
fn insert_range(acc: &Vec<(u64, u64)>, s: u64, e: u64) -> (r: Vec<(u64, u64)>)
    requires
        canonical(acc@),
        s < e,
    ensures
        canonical(r@),
        forall|t: int| covers(r@, t) == (covers(acc@, t) || (s <= t < e)),
{
    let n = acc.len();
    let mut r: Vec<(u64, u64)> = Vec::new();
    let mut i: usize = 0;
    // ranges wholly before [s, e), not touching it
    while i < n && acc[i].1 < s
        invariant
            0 <= i <= n == acc.len(),
            canonical(acc@),
            r@ == acc@.take(i as int),
            forall|j: int| 0 <= j < i ==> (#[trigger] acc@[j]).1 < s,
        decreases n - i,
    {
        r.push(acc[i]);
        assert(r@ =~= acc@.take(i + 1));
        i = i + 1;
    }
    let first = i;
    let mut ns = s;
    let mut ne = e;
    // ranges that overlap or touch the growing merged range
    while i < n && acc[i].0 <= ne
        invariant
            first <= i <= n == acc.len(),
            canonical(acc@),
            r@ == acc@.take(first as int),
            forall|j: int| 0 <= j < first ==> (#[trigger] acc@[j]).1 < s,
            first < n ==> acc@[first as int].1 >= s,
            ns <= s < e <= ne,
            ns == if i > first && acc@[first as int].0 < s {
                acc@[first as int].0
            } else {
                s
            },
            i > first ==> ne >= acc@[i - 1].1,
            forall|t: int|
                #[trigger] holds((ns, ne), t) == (holds((s, e), t) || exists|j: int|
                    first <= j < i && holds(#[trigger] acc@[j], t)),
        decreases n - i,
    {
        let (a, b) = acc[i];
        proof {
            if i > first {
                assert(acc@[i - 1].1 < acc@[i as int].0);
                assert(acc@[first as int].1 < acc@[i as int].0 || first == i - 1);
                assert(acc@[first as int].0 < acc@[i as int].0);
            }
            // the range reaches back to the merged one
            assert(b >= s) by {
                if i == first {
                } else {
                    assert(acc@[first as int].1 < acc@[i as int].0 || first == i);
                }
            }
        }
        let ghost (ons, one) = (ns, ne);
        if a < ns {
            ns = a;
        }
        if b > ne {
            ne = b;
        }
        proof {
            assert forall|t: int|
                #[trigger] holds((ns, ne), t) == (holds((s, e), t) || exists|j: int|
                    first <= j < i + 1 && holds(#[trigger] acc@[j], t)) by {
                if exists|j: int| first <= j < i + 1 && holds(#[trigger] acc@[j], t) {
                    let j = choose|j: int| first <= j < i + 1 && holds(#[trigger] acc@[j], t);
                    if j < i {
                        assert(exists|j: int| first <= j < i && holds(#[trigger] acc@[j], t));
                    }
                }
                if holds((ons, one), t) {
                } else if a <= t < b {
                    assert(holds(acc@[i as int], t));
                }
            }
        }
        i = i + 1;
    }
    let last = i;
    proof {
        assert(ns < ne);
        assert forall|j: int| 0 <= j < first implies (#[trigger] acc@[j]).1 < ns by {
            assert(acc@[j].1 < s);
            if last > first {
                assert(acc@[j].1 < acc@[first as int].0);
            }
        }
        if last < n {
            assert(acc@[last as int].0 > ne);
        }
    }
    let ghost pre = r@;
    r.push((ns, ne));
    let ghost mid = r@;
    while i < n
        invariant
            last <= i <= n == acc.len(),
            canonical(acc@),
            r@ == mid + acc@.subrange(last as int, i as int),
            mid == pre.push((ns, ne)),
            pre == acc@.take(first as int),
            first <= last,
            ns < ne,
            forall|j: int| 0 <= j < first ==> (#[trigger] acc@[j]).1 < ns,
            last < n ==> acc@[last as int].0 > ne,
        decreases n - i,
    {
        r.push(acc[i]);
        assert(r@ =~= mid + acc@.subrange(last as int, i + 1));
        i = i + 1;
    }
    proof {
        let rr = r@;
        assert(rr.len() == first + 1 + (n - last));
        assert forall|k: int| 0 <= k < rr.len() implies rr[k] == if k < first {
            acc@[k]
        } else if k == first {
            (ns, ne)
        } else {
            acc@[k - first - 1 + last]
        } by {
            if k < first {
                assert(rr[k] == pre[k]);
            } else if k == first {
                assert(rr[k] == mid[k]);
            } else {
                assert(rr[k] == acc@.subrange(last as int, n as int)[k - first - 1]);
            }
        }
        assert forall|k: int| 0 <= k < rr.len() implies (#[trigger] rr[k]).0 < rr[k].1 by {
        }
        assert forall|k1: int, k2: int| 0 <= k1 < k2 < rr.len() implies (#[trigger] rr[k1]).1 < (
        #[trigger] rr[k2]).0 by {
            if k2 < first {
            } else if k2 == first {
            } else if k1 < first {
                let j2 = k2 - first - 1 + last;
                assert(acc@[k1].1 < ns);
                assert(acc@[last as int].0 > ne);
                if j2 > last {
                    assert(acc@[last as int].1 < acc@[j2].0);
                }
            } else if k1 == first {
                let j2 = k2 - first - 1 + last;
                if j2 > last {
                    assert(acc@[last as int].1 < acc@[j2].0);
                }
            } else {
            }
        }
        assert forall|t: int| covers(rr, t) == (covers(acc@, t) || (s <= t < e)) by {
            if covers(rr, t) {
                let k = choose|k: int| 0 <= k < rr.len() && holds(#[trigger] rr[k], t);
                if k < first {
                    assert(holds(acc@[k], t));
                } else if k == first {
                    assert(holds((ns, ne), t));
                    if !(s <= t < e) {
                        let j = choose|j: int| first <= j < last && holds(#[trigger] acc@[j], t);
                    }
                } else {
                    assert(holds(acc@[k - first - 1 + last], t));
                }
            }
            if covers(acc@, t) {
                let j = choose|j: int| 0 <= j < acc@.len() && holds(#[trigger] acc@[j], t);
                if j < first {
                    assert(holds(rr[j], t));
                } else if j < last {
                    assert(holds((ns, ne), t));
                    assert(holds(rr[first as int], t));
                } else {
                    assert(holds(rr[j - last + first + 1], t));
                }
            }
            if s <= t < e {
                assert(holds((ns, ne), t));
                assert(holds(rr[first as int], t));
            }
        }
    }
    r
}

/// Merge skip ranges into their canonical form: empty or inverted ranges
/// dropped, overlapping or touching ones joined, sorted by start.
pub fn normalize_segments(segs: Vec<(u64, u64)>) -> (r: Vec<(u64, u64)>)
    ensures
        canonical(r@),
        forall|t: int| covers(r@, t) == covers(segs@, t),
{
    let mut acc: Vec<(u64, u64)> = Vec::new();
    let mut i: usize = 0;
    while i < segs.len()
        invariant
            0 <= i <= segs.len(),
            canonical(acc@),
            forall|t: int| covers(acc@, t) == covers(segs@.take(i as int), t),
        decreases segs.len() - i,
    {
        let (s, e) = segs[i];
        let ghost prev = acc@;
        if s < e {
            acc = insert_range(&acc, s, e);
        }
        proof {
            assert(segs@.take(i + 1) =~= segs@.take(i as int).push(segs@[i as int]));
            assert forall|t: int| covers(acc@, t) == covers(segs@.take(i + 1), t) by {
                lemma_covers_push(segs@.take(i as int), segs@[i as int], t);
            }
        }
        i = i + 1;
    }
    assert(segs@.take(segs.len() as int) =~= segs@);
    acc
}

/// The first range of a canonical list starts at or before every other
/// range's start and ends before every other range starts.
proof fn lemma_first_range(a: Seq<(u64, u64)>, j: int)
    requires
        canonical(a),
        0 < j < a.len(),
    ensures
        a[0].1 < a[j].0,
        a[0].0 < a[j].0,
{
}

/// Without its first range, a canonical list holds exactly the instants it
/// held from the end of that range on.
proof fn lemma_covers_tail(a: Seq<(u64, u64)>, t: int)
    requires
        canonical(a),
        a.len() > 0,
    ensures
        canonical(a.drop_first()),
        covers(a.drop_first(), t) == (covers(a, t) && t >= a[0].1),
{
    let r = a.drop_first();
    assert forall|i: int, j: int| 0 <= i < j < r.len() implies (#[trigger] r[i]).1 < (
    #[trigger] r[j]).0 by {
        assert(r[i] == a[i + 1] && r[j] == a[j + 1]);
    }
    assert forall|i: int| 0 <= i < r.len() implies (#[trigger] r[i]).0 < r[i].1 by {
        assert(r[i] == a[i + 1]);
    }
    if covers(r, t) {
        let i = choose|i: int| 0 <= i < r.len() && holds(#[trigger] r[i], t);
        assert(r[i] == a[i + 1]);
        lemma_first_range(a, i + 1);
    }
    if covers(a, t) && t >= a[0].1 {
        let i = choose|i: int| 0 <= i < a.len() && holds(#[trigger] a[i], t);
        assert(i != 0);
        assert(r[i - 1] == a[i]);
    }
}

/// Two canonical lists of ranges that hold the same instants are equal:
/// the canonical form of a set of instants is unique, so normalizing is
/// idempotent and its result is determined by the instants alone.
pub proof fn law_canonical_form_unique(a: Seq<(u64, u64)>, b: Seq<(u64, u64)>)
    requires
        canonical(a),
        canonical(b),
        forall|t: int| covers(a, t) == covers(b, t),
    ensures
        a == b,
    decreases a.len() + b.len(),
{
    if a.len() == 0 || b.len() == 0 {
        if a.len() > 0 {
            assert(holds(a[0], a[0].0 as int));
            assert(covers(a, a[0].0 as int));
        }
        if b.len() > 0 {
            assert(holds(b[0], b[0].0 as int));
            assert(covers(b, b[0].0 as int));
        }
        assert(a =~= b);
    } else {
        // equal starts
        if a[0].0 < b[0].0 {
            assert(holds(a[0], a[0].0 as int));
            assert(covers(a, a[0].0 as int));
            let j = choose|j: int| 0 <= j < b.len() && holds(#[trigger] b[j], a[0].0 as int);
            if j > 0 {
                lemma_first_range(b, j);
            }
        }
        if b[0].0 < a[0].0 {
            assert(holds(b[0], b[0].0 as int));
            assert(covers(b, b[0].0 as int));
            let j = choose|j: int| 0 <= j < a.len() && holds(#[trigger] a[j], b[0].0 as int);
            if j > 0 {
                lemma_first_range(a, j);
            }
        }
        // equal ends
        if a[0].1 < b[0].1 {
            let t = a[0].1 as int;
            assert(holds(b[0], t));
            assert(covers(b, t));
            let j = choose|j: int| 0 <= j < a.len() && holds(#[trigger] a[j], t);
            if j > 0 {
                lemma_first_range(a, j);
            }
        }
        if b[0].1 < a[0].1 {
            let t = b[0].1 as int;
            assert(holds(a[0], t));
            assert(covers(a, t));
            let j = choose|j: int| 0 <= j < b.len() && holds(#[trigger] b[j], t);
            if j > 0 {
                lemma_first_range(b, j);
            }
        }
        assert(a[0] == b[0]);
        assert forall|t: int| covers(a.drop_first(), t) == covers(b.drop_first(), t) by {
            lemma_covers_tail(a, t);
            lemma_covers_tail(b, t);
        }
        lemma_covers_tail(a, 0);
        lemma_covers_tail(b, 0);
        law_canonical_form_unique(a.drop_first(), b.drop_first());
        assert(a =~= seq![a[0]] + a.drop_first());
        assert(b =~= seq![b[0]] + b.drop_first());
    }
}

} // verus!
