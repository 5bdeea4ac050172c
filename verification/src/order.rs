use crate::archive::Archive;
use crate::format::Format;
use crate::status::{status_order, Status};
use std::cmp::Ordering;
use crate::status::{has_nan_ratio, lemma_status_order_antisymmetric, lemma_status_order_transitive, status_after};
use vstd::prelude::*;
use vstd::seq_lib::lemma_multiset_commutative;

verus! {

/// What a list of archives is sorted by.
#[derive(Debug, Clone, Copy, PartialEq, Eq, Structural)]
pub enum SortKey {
    /// By status, in the listing order of statuses.
    Status,
    /// By file size, smallest first.
    Size,
}

/// `a` belongs strictly after `b` under `key`.
pub open spec fn goes_after(key: SortKey, a: Archive, b: Archive) -> bool {
    match key {
        SortKey::Status => status_after(a.status, b.status),
        SortKey::Size => a.size > b.size,
    }
}

/// Neither of `a`, `b` belongs after the other under `key`.
pub open spec fn level(key: SortKey, a: Archive, b: Archive) -> bool {
    !goes_after(key, a, b) && !goes_after(key, b, a)
}

/// The archives level with `c` under `key`.
pub open spec fn level_with(key: SortKey, c: Archive) -> spec_fn(Archive) -> bool {
    |y: Archive| level(key, y, c)
}

/// `key` orders `a` lawfully with all other such archives: every archive by
/// size, and by status every archive whose progress ratio is not NaN.
pub open spec fn orderable(key: SortKey, a: Archive) -> bool {
    match key {
        SortKey::Status => !has_nan_ratio(a.status),
        SortKey::Size => true,
    }
}

/// Every archive of `s` is orderable under `key`.
pub open spec fn all_orderable(key: SortKey, s: Seq<Archive>) -> bool {
    forall|i: int| 0 <= i < s.len() ==> orderable(key, #[trigger] s[i])
}

/// No archive of `s` belongs after a later one.
pub open spec fn sorted_by(key: SortKey, s: Seq<Archive>) -> bool {
    forall|i: int, j: int| 0 <= i < j < s.len() ==> !goes_after(key, #[trigger] s[i], #[trigger] s[j])
}

/// For each orderable archive `c`, the archives level with `c` come in the
/// same order in `out` as in `input`.
pub open spec fn keeps_ties(key: SortKey, out: Seq<Archive>, input: Seq<Archive>) -> bool {
    forall|c: Archive|
        orderable(key, c) ==> #[trigger] out.filter(level_with(key, c)) == input.filter(
            level_with(key, c),
        )
}

/// `out` is `input` stably sorted by `key`: the same archives, and, where
/// `key` orders them lawfully, sorted with ties in their original order.
pub open spec fn stably_sorted(key: SortKey, out: Seq<Archive>, input: Seq<Archive>) -> bool {
    &&& out.to_multiset() == input.to_multiset()
    &&& all_orderable(key, input) ==> sorted_by(key, out) && keeps_ties(key, out, input)
}

/// "Belongs after" is asymmetric.
pub proof fn lemma_goes_after_asymmetric(key: SortKey, a: Archive, b: Archive)
    ensures
        goes_after(key, a, b) ==> !goes_after(key, b, a),
{
    lemma_status_order_antisymmetric(a.status, b.status);
}

/// On orderable archives, "does not belong after" is transitive.
pub proof fn lemma_not_after_transitive(key: SortKey, a: Archive, b: Archive, c: Archive)
    requires
        orderable(key, a),
        orderable(key, b),
        orderable(key, c),
        !goes_after(key, a, b),
        !goes_after(key, b, c),
    ensures
        !goes_after(key, a, c),
{
    if key == SortKey::Status {
        lemma_status_order_transitive(a.status, b.status, c.status);
    }
}

/// On orderable archives, being level is transitive.
pub proof fn lemma_level_transitive(key: SortKey, a: Archive, b: Archive, c: Archive)
    requires
        orderable(key, a),
        orderable(key, b),
        orderable(key, c),
        level(key, a, b),
        level(key, b, c),
    ensures
        level(key, a, c),
{
    lemma_not_after_transitive(key, a, b, c);
    lemma_not_after_transitive(key, c, b, a);
}

/// Inserting an element adds it to the multiset.
proof fn lemma_insert_multiset(s: Seq<Archive>, j: int, x: Archive)
    requires
        0 <= j <= s.len(),
    ensures
        s.insert(j, x).to_multiset() == s.to_multiset().insert(x),
{
    broadcast use vstd::multiset::group_multiset_axioms;

    let a = s.subrange(0, j);
    let b = s.subrange(j, s.len() as int);
    assert(s =~= a + b);
    assert(s.insert(j, x) =~= a.push(x) + b);
    lemma_multiset_commutative(a, b);
    lemma_multiset_commutative(a.push(x), b);
    broadcast use vstd::seq_lib::group_seq_properties;
    assert(a.push(x).to_multiset() =~= a.to_multiset().insert(x));
    assert(s.to_multiset().insert(x) =~= a.to_multiset().insert(x).add(b.to_multiset()));
}

/// An element of a sequence with the same multiset as `q` is an element of `q`.
proof fn lemma_same_multiset_contains(p: Seq<Archive>, q: Seq<Archive>, k: int)
    requires
        p.to_multiset() == q.to_multiset(),
        0 <= k < p.len(),
    ensures
        q.contains(p[k]),
{
    p.to_multiset_ensures();
    q.to_multiset_ensures();
    assert(p.to_multiset().count(p[k]) > 0);
    assert(q.to_multiset().count(p[k]) > 0);
}

/// One step of insertion sort keeps the sorted prefix a stable sort of the
/// input prefix.
proof fn lemma_insert_step(key: SortKey, p: Seq<Archive>, q: Seq<Archive>, x: Archive, j: int)
    requires
        p.to_multiset() == q.to_multiset(),
        all_orderable(key, q.push(x)) ==> sorted_by(key, p) && keeps_ties(key, p, q),
        0 <= j <= p.len(),
        forall|k: int| j <= k < p.len() ==> goes_after(key, #[trigger] p[k], x),
        j > 0 ==> !goes_after(key, p[j - 1], x),
    ensures
        p.insert(j, x).to_multiset() == q.push(x).to_multiset(),
        all_orderable(key, q.push(x)) ==> sorted_by(key, p.insert(j, x)) && keeps_ties(
            key,
            p.insert(j, x),
            q.push(x),
        ),
{
    let r = p.insert(j, x);
    lemma_insert_multiset(p, j, x);
    q.to_multiset_ensures();
    if all_orderable(key, q.push(x)) {
        assert(orderable(key, x)) by {
            assert(q.push(x)[q.len() as int] == x);
        }
        assert forall|k: int| 0 <= k < p.len() implies orderable(key, #[trigger] p[k]) by {
            lemma_same_multiset_contains(p, q, k);
            let m: int = choose|m: int| 0 <= m < q.len() && q[m] == p[k];
            assert(q.push(x)[m] == q[m]);
        }
        p.insert_ensures(j, x);
        // sorted
        assert forall|a: int, b: int| 0 <= a < b < r.len() implies !goes_after(
            key,
            #[trigger] r[a],
            #[trigger] r[b],
        ) by {
            if b < j {
                assert(r[a] == p[a] && r[b] == p[b]);
            } else if b == j {
                assert(r[b] == x && r[a] == p[a]);
                if a < j - 1 {
                    assert(!goes_after(key, p[a], p[j - 1]));
                    lemma_not_after_transitive(key, p[a], p[j - 1], x);
                }
            } else if a < j {
                assert(r[a] == p[a] && r[b] == p[b - 1]);
            } else if a == j {
                assert(r[a] == x && r[b] == p[b - 1]);
                lemma_goes_after_asymmetric(key, p[b - 1], x);
            } else {
                assert(r[a] == p[a - 1] && r[b] == p[b - 1]);
            }
        }
        // ties keep their order
        let pa = p.subrange(0, j);
        let pb = p.subrange(j, p.len() as int);
        assert(p =~= pa + pb);
        assert(r =~= pa + seq![x] + pb);
        assert forall|c: Archive| orderable(key, c) implies #[trigger] r.filter(level_with(key, c))
            == q.push(x).filter(level_with(key, c)) by {
            let pred = level_with(key, c);
            Seq::filter_distributes_over_add(pa, pb, pred);
            Seq::filter_distributes_over_add(pa + seq![x], pb, pred);
            Seq::filter_distributes_over_add(pa, seq![x], pred);
            q.lemma_filter_push(x, pred);
            Seq::<Archive>::empty().lemma_filter_push(x, pred);
            assert(seq![x] =~= Seq::<Archive>::empty().push(x));
            reveal(Seq::filter);
            assert(Seq::<Archive>::empty().filter(pred) =~= Seq::<Archive>::empty());
            if pred(x) {
                assert forall|k: int| 0 <= k < pb.len() implies !pred(#[trigger] pb[k]) by {
                    assert(pb[k] == p[j + k]);
                    if pred(pb[k]) {
                        lemma_level_transitive(key, pb[k], c, x);
                    }
                }
                assert(pb.all(|y: Archive| !pred(y)));
                pb.lemma_all_neg_filter_empty(pred);
                assert(pb.filter(pred) =~= Seq::<Archive>::empty());
                assert(r.filter(pred) =~= p.filter(pred).push(x));
            } else {
                assert(r.filter(pred) =~= p.filter(pred));
            }
        }
    }
}

/// A stable sort has one outcome: two sequences that both hold the same
/// orderable archives, sorted with ties in the same order, are equal. So any
/// stable sort by `key` (such as `slice::sort_by_key`) gives the result that
/// [`sort_archives`] gives.
pub proof fn lemma_stable_sort_unique(key: SortKey, a: Seq<Archive>, b: Seq<Archive>)
    requires
        all_orderable(key, a),
        a.to_multiset() == b.to_multiset(),
        sorted_by(key, a),
        sorted_by(key, b),
        forall|c: Archive|
            orderable(key, c) ==> #[trigger] a.filter(level_with(key, c)) == b.filter(
                level_with(key, c),
            ),
    ensures
        a == b,
    decreases a.len(),
{
    a.to_multiset_ensures();
    b.to_multiset_ensures();
    if a.len() == 0 {
        assert(a =~= b);
    } else {
        let n = a.len() - 1;
        let x = a[n];
        let y = b[n];
        assert(orderable(key, x));
        // x and y are level: each occurs in the other sequence, before its last element
        lemma_same_multiset_contains(a, b, n);
        let kb: int = choose|k: int| 0 <= k < b.len() && b[k] == x;
        if kb < n {
            assert(!goes_after(key, b[kb], b[n]));
        }
        lemma_same_multiset_contains(b, a, n);
        let ka: int = choose|k: int| 0 <= k < a.len() && a[k] == y;
        if ka < n {
            assert(!goes_after(key, a[ka], a[n]));
        }
        assert(orderable(key, y));
        let pred = level_with(key, x);
        let a1 = a.drop_last();
        let b1 = b.drop_last();
        assert(a =~= a1.push(x));
        assert(b =~= b1.push(y));
        a1.lemma_filter_push(x, pred);
        b1.lemma_filter_push(y, pred);
        assert(a.filter(pred) == b.filter(pred));
        assert(x == y) by {
            assert(a.filter(pred).last() == x);
            assert(b.filter(pred).last() == y);
        }
        assert forall|c: Archive| orderable(key, c) implies #[trigger] a1.filter(level_with(key, c))
            == b1.filter(level_with(key, c)) by {
            let p = level_with(key, c);
            a1.lemma_filter_push(x, p);
            b1.lemma_filter_push(x, p);
            assert(a.filter(p) == b.filter(p));
            if p(x) {
                assert(a1.filter(p) =~= a.filter(p).drop_last());
                assert(b1.filter(p) =~= b.filter(p).drop_last());
            }
        }
        assert(a1.to_multiset() == b1.to_multiset()) by {
            assert(a1 =~= a.remove(n));
            assert(b1 =~= b.remove(n));
        }
        assert forall|k: int| 0 <= k < a1.len() implies orderable(key, #[trigger] a1[k]) by {
            assert(a1[k] == a[k]);
        }
        lemma_stable_sort_unique(key, a1, b1);
    }
}

/// `a` belongs strictly after `b` under `key`.
pub fn goes_after_exec(key: SortKey, a: &Archive, b: &Archive) -> (r: bool)
    ensures
        r == goes_after(key, *a, *b),
{
    match key {
        SortKey::Status => a.status.is_after(&b.status),
        SortKey::Size => a.size > b.size,
    }
}

/// Sorts archives stably by `key` (insertion sort).
pub fn sort_archives(v: &mut Vec<Archive>, key: SortKey)
    ensures
        stably_sorted(key, final(v)@, old(v)@),
{
    let n: usize = v.len();
    let ghost input = v@;
    let mut i: usize = 0;
    while i < n
        invariant
            v.len() == n,
            input.len() == n,
            0 <= i <= n,
            v@.subrange(i as int, n as int) == input.subrange(i as int, n as int),
            v@.subrange(0, i as int).to_multiset() == input.subrange(0, i as int).to_multiset(),
            all_orderable(key, input.subrange(0, i as int)) ==> sorted_by(
                key,
                v@.subrange(0, i as int),
            ) && keeps_ties(key, v@.subrange(0, i as int), input.subrange(0, i as int)),
        decreases n - i,
    {
        let ghost before = v@;
        let x = v.remove(i);
        assert(x == input[i as int]) by {
            assert(before.subrange(i as int, n as int)[0] == before[i as int]);
        }
        let ghost p = before.subrange(0, i as int);
        assert(v@ =~= p + before.subrange(i + 1, n as int));
        let mut j: usize = i;
        while j > 0 && goes_after_exec(key, &v[j - 1], &x)
            invariant
                v@ == p + before.subrange(i + 1, n as int),
                p.len() == i,
                0 <= j <= i,
                i < n,
                v.len() == n - 1,
                forall|k: int| j <= k < i ==> goes_after(key, #[trigger] p[k], x),
            decreases j,
        {
            assert(v@[j - 1] == p[j - 1]);
            j = j - 1;
        }
        proof {
            if j > 0 {
                assert(v@[j - 1] == p[j - 1]);
            }
            let q = input.subrange(0, i as int);
            assert(input.subrange(0, i + 1) =~= q.push(x));
            assert(all_orderable(key, q.push(x)) ==> all_orderable(key, q)) by {
                if all_orderable(key, q.push(x)) {
                    assert forall|k: int| 0 <= k < q.len() implies orderable(key, #[trigger] q[k]) by {
                        assert(q.push(x)[k] == q[k]);
                    }
                }
            }
            lemma_insert_step(key, p, q, x, j as int);
        }
        v.insert(j, x);
        proof {
            let r = p.insert(j as int, x);
            assert(v@ =~= r + before.subrange(i + 1, n as int));
            assert(v@.subrange(0, i + 1) =~= r);
            assert(v@.subrange(i + 1, n as int) =~= before.subrange(i + 1, n as int));
            let s1 = before.subrange(i + 1, n as int);
            let s2 = input.subrange(i + 1, n as int);
            let t1 = before.subrange(i as int, n as int);
            let t2 = input.subrange(i as int, n as int);
            assert forall|k: int| 0 <= k < s1.len() implies #[trigger] s1[k] == s2[k] by {
                assert(t1[k + 1] == t2[k + 1]);
            }
            assert(s1 =~= s2);
        }
        i = i + 1;
    }
    assert(v@.subrange(0, n as int) =~= v@);
    assert(input.subrange(0, n as int) =~= input);
}


/// A list sorted by size is the input list with sizes non-decreasing, and
/// archives of equal size in their input order.
pub proof fn lemma_size_sort_meaning(out: Seq<Archive>, input: Seq<Archive>, n: u64)
    requires
        stably_sorted(SortKey::Size, out, input),
    ensures
        out.to_multiset() == input.to_multiset(),
        out.len() == input.len(),
        forall|i: int, j: int| 0 <= i < j < out.len() ==> (#[trigger] out[i]).size <= (
        #[trigger] out[j]).size,
        out.filter(|a: Archive| a.size == n) == input.filter(|a: Archive| a.size == n),
{
    out.to_multiset_ensures();
    input.to_multiset_ensures();
    assert(all_orderable(SortKey::Size, input));
    let c = Archive { path: arbitrary(), format: Format::Zip, size: n, status: Status::Pending };
    assert(orderable(SortKey::Size, c));
    assert(level_with(SortKey::Size, c) =~= (|a: Archive| a.size == n));
    assert(out.filter(level_with(SortKey::Size, c)) == input.filter(level_with(SortKey::Size, c)));
}

/// A list sorted by status, from archives whose ratios are not NaN, is the
/// input list with no archive listed after a later one in the status order,
/// and archives level in that order in their input order.
pub proof fn lemma_status_sort_meaning(out: Seq<Archive>, input: Seq<Archive>, c: Archive)
    requires
        stably_sorted(SortKey::Status, out, input),
        forall|i: int| 0 <= i < input.len() ==> !has_nan_ratio(#[trigger] input[i].status),
        !has_nan_ratio(c.status),
    ensures
        out.to_multiset() == input.to_multiset(),
        forall|i: int, j: int|
            0 <= i < j < out.len() ==> status_order((#[trigger] out[i]).status, (
            #[trigger] out[j]).status) != Ordering::Greater,
        out.filter(|a: Archive| status_order(a.status, c.status) == Ordering::Equal)
            == input.filter(|a: Archive| status_order(a.status, c.status) == Ordering::Equal),
{
    assert(all_orderable(SortKey::Status, input));
    assert(orderable(SortKey::Status, c));
    assert forall|a: Archive| #[trigger] level_with(SortKey::Status, c)(a) == (status_order(
        a.status,
        c.status,
    ) == Ordering::Equal) by {
        lemma_status_order_antisymmetric(a.status, c.status);
    }
    assert(level_with(SortKey::Status, c) =~= (|a: Archive|
        status_order(a.status, c.status) == Ordering::Equal));
    assert(out.filter(level_with(SortKey::Status, c)) == input.filter(
        level_with(SortKey::Status, c),
    ));
}

} // verus!

