//! Comparing triangle lists as multisets: two lists hold the same triangles,
//! each as often, with its corners in the same order.
use crate::optimizer::triangles_of;
use vstd::prelude::*;
use vstd::relations::{sorted_by, total_ordering};

verus! {

/// A triangle as three vertex indices, corners in drawing order.
pub type Tri = (u32, u32, u32);

/// Lexicographic order on triangles.
pub open spec fn tri_le(a: Tri, b: Tri) -> bool {
    a.0 < b.0 || (a.0 == b.0 && (a.1 < b.1 || (a.1 == b.1 && a.2 <= b.2)))
}

pub open spec fn tri_leq() -> spec_fn(Tri, Tri) -> bool {
    |a: Tri, b: Tri| tri_le(a, b)
}

proof fn lemma_tri_total_ordering()
    ensures
        total_ordering(tri_leq()),
{
    assert forall|a: Tri, b: Tri, c: Tri| #[trigger] tri_leq()(a, b) && #[trigger] tri_leq()(b, c) implies tri_leq()(
        a,
        c,
    ) by {}
}

fn tri_le_exec(a: &Tri, b: &Tri) -> (r: bool)
    ensures
        r == tri_le(*a, *b),
{
    a.0 < b.0 || (a.0 == b.0 && (a.1 < b.1 || (a.1 == b.1 && a.2 <= b.2)))
}

fn merge(l: Vec<Tri>, r: Vec<Tri>) -> (out: Vec<Tri>)
    requires
        sorted_by(l@, tri_leq()),
        sorted_by(r@, tri_leq()),
    ensures
        sorted_by(out@, tri_leq()),
        out@.to_multiset() == l@.to_multiset().add(r@.to_multiset()),
{
    broadcast use vstd::seq_lib::group_to_multiset_ensures;
    broadcast use vstd::multiset::group_multiset_axioms;

    let mut out: Vec<Tri> = Vec::new();
    let mut i: usize = 0;
    let mut j: usize = 0;
    while i < l.len() || j < r.len()
        invariant
            i <= l@.len(),
            j <= r@.len(),
            sorted_by(l@, tri_leq()),
            sorted_by(r@, tri_leq()),
            sorted_by(out@, tri_leq()),
            out@.to_multiset() == l@.take(i as int).to_multiset().add(r@.take(j as int).to_multiset()),
            forall|k: int, ii: int| 0 <= k < out@.len() && i <= ii < l@.len() ==> tri_le(out@[k], l@[ii]),
            forall|k: int, jj: int| 0 <= k < out@.len() && j <= jj < r@.len() ==> tri_le(out@[k], r@[jj]),
        decreases l@.len() + r@.len() - i - j,
    {
        let take_left = j >= r.len() || (i < l.len() && tri_le_exec(&l[i], &r[j]));
        let ghost old_out = out@;
        if take_left {
            let x = l[i];
            proof {
                assert forall|ii: int| i < ii < l@.len() implies tri_le(x, l@[ii]) by {
                    assert(tri_leq()(l@[i as int], l@[ii]));
                }
                assert forall|jj: int| j <= jj < r@.len() implies tri_le(x, r@[jj]) by {
                    if jj > j {
                        assert(tri_leq()(r@[j as int], r@[jj]));
                    }
                }
            }
            out.push(x);
            proof {
                assert(l@.take(i + 1) =~= l@.take(i as int).push(x));
                assert(out@ == old_out.push(x));
                vstd::seq_lib::to_multiset_build(old_out, x);
                vstd::seq_lib::to_multiset_build(l@.take(i as int), x);
                assert(out@.to_multiset() =~= l@.take(i + 1).to_multiset().add(r@.take(j as int).to_multiset()));
                assert forall|a: int, b: int| 0 <= a < b < out@.len() implies #[trigger] tri_leq()(
                    out@[a],
                    out@[b],
                ) by {
                    if b < old_out.len() {
                        assert(tri_leq()(old_out[a], old_out[b]));
                    }
                }
            }
            i += 1;
        } else {
            let x = r[j];
            proof {
                assert forall|jj: int| j < jj < r@.len() implies tri_le(x, r@[jj]) by {
                    assert(tri_leq()(r@[j as int], r@[jj]));
                }
                assert forall|ii: int| i <= ii < l@.len() implies tri_le(x, l@[ii]) by {
                    if ii > i {
                        assert(tri_leq()(l@[i as int], l@[ii]));
                    }
                }
            }
            out.push(x);
            proof {
                assert(r@.take(j + 1) =~= r@.take(j as int).push(x));
                assert(out@ == old_out.push(x));
                vstd::seq_lib::to_multiset_build(old_out, x);
                vstd::seq_lib::to_multiset_build(r@.take(j as int), x);
                assert(out@.to_multiset() =~= l@.take(i as int).to_multiset().add(r@.take(j + 1).to_multiset()));
                assert forall|a: int, b: int| 0 <= a < b < out@.len() implies #[trigger] tri_leq()(
                    out@[a],
                    out@[b],
                ) by {
                    if b < old_out.len() {
                        assert(tri_leq()(old_out[a], old_out[b]));
                    }
                }
            }
            j += 1;
        }
    }
    assert(l@.take(l@.len() as int) =~= l@);
    assert(r@.take(r@.len() as int) =~= r@);
    out
}

fn sort_range(v: &Vec<Tri>, lo: usize, hi: usize) -> (r: Vec<Tri>)
    requires
        lo <= hi <= v@.len(),
    ensures
        sorted_by(r@, tri_leq()),
        r@.to_multiset() == v@.subrange(lo as int, hi as int).to_multiset(),
    decreases hi - lo,
{
    if hi - lo <= 1 {
        let mut out: Vec<Tri> = Vec::new();
        if hi > lo {
            out.push(v[lo]);
        }
        assert(out@ =~= v@.subrange(lo as int, hi as int));
        out
    } else {
        let mid = lo + (hi - lo) / 2;
        let a = sort_range(v, lo, mid);
        let b = sort_range(v, mid, hi);
        proof {
            assert(v@.subrange(lo as int, hi as int) =~= v@.subrange(lo as int, mid as int) + v@.subrange(
                mid as int,
                hi as int,
            ));
            vstd::seq_lib::lemma_multiset_commutative(
                v@.subrange(lo as int, mid as int),
                v@.subrange(mid as int, hi as int),
            );
        }
        merge(a, b)
    }
}

/// Whether two triangle lists hold the same triangles, each as often.
pub fn same_triangles(a: &Vec<Tri>, b: &Vec<Tri>) -> (r: bool)
    ensures
        r == (a@.to_multiset() == b@.to_multiset()),
{
    broadcast use vstd::seq_lib::group_to_multiset_ensures;

    let sa = sort_range(a, 0, a.len());
    let sb = sort_range(b, 0, b.len());
    proof {
        assert(a@.subrange(0, a@.len() as int) =~= a@);
        assert(b@.subrange(0, b@.len() as int) =~= b@);
        lemma_tri_total_ordering();
        if a@.to_multiset() == b@.to_multiset() {
            vstd::seq_lib::lemma_sorted_unique(sa@, sb@, tri_leq());
            assert(sa@ == sb@);
        }
    }
    if sa.len() != sb.len() {
        return false;
    }
    let mut k: usize = 0;
    while k < sa.len()
        invariant
            sa@.len() == sb@.len(),
            k <= sa@.len(),
            a@.to_multiset() == b@.to_multiset() ==> sa@ == sb@,
            sa@.to_multiset() == a@.to_multiset(),
            sb@.to_multiset() == b@.to_multiset(),
            forall|x: int| 0 <= x < k ==> sa@[x] == sb@[x],
        decreases sa@.len() - k,
    {
        let x = sa[k];
        let y = sb[k];
        if x.0 != y.0 || x.1 != y.1 || x.2 != y.2 {
            return false;
        }
        k += 1;
    }
    assert(sa@ =~= sb@);
    true
}

/// The triangles of an index list.
pub fn triangle_list(indices: &Vec<u32>) -> (r: Vec<Tri>)
    ensures
        r@ == triangles_of(indices@),
{
    let mut out: Vec<Tri> = Vec::new();
    let mut k: usize = 0;
    while indices.len() - k >= 3
        invariant
            k % 3 == 0,
            k <= indices@.len(),
            out@ =~= triangles_of(indices@).take(k as int / 3),
        decreases indices@.len() - k,
    {
        out.push((indices[k], indices[k + 1], indices[k + 2]));
        k += 3;
    }
    assert(k as int / 3 == indices@.len() / 3);
    assert(out@ =~= triangles_of(indices@));
    out
}

/// Mapping two sequences that hold the same elements, each as often, gives
/// two sequences that hold the same elements, each as often.
pub proof fn lemma_map_keeps_multiset<A, B>(a: Seq<A>, b: Seq<A>, f: spec_fn(A) -> B)
    requires
        a.to_multiset() == b.to_multiset(),
    ensures
        a.map_values(f).to_multiset() == b.map_values(f).to_multiset(),
    decreases a.len(),
{
    broadcast use vstd::seq_lib::group_to_multiset_ensures;
    broadcast use vstd::multiset::group_multiset_axioms;

    assert(a.to_multiset().len() == a.len());
    assert(b.to_multiset().len() == b.len());
    if a.len() == 0 {
        assert(b.len() == 0);
        assert(a.map_values(f) =~= Seq::<B>::empty());
        assert(b.map_values(f) =~= Seq::<B>::empty());
    } else {
        let x = a.last();
        let a1 = a.drop_last();
        assert(a =~= a1.push(x));
        assert(a.to_multiset().contains(x));
        assert(b.to_multiset().contains(x));
        assert(b.contains(x));
        let i = choose|i: int| 0 <= i < b.len() && b[i] == x;
        let b1 = b.remove(i);
        assert(a1.push(x).to_multiset() == a1.to_multiset().insert(x));
        assert(b1.to_multiset() == b.to_multiset().remove(x));
        assert(a1.to_multiset() =~= b1.to_multiset());
        lemma_map_keeps_multiset(a1, b1, f);
        assert(a.map_values(f) =~= a1.map_values(f).push(f(x)));
        assert(b1.map_values(f) =~= b.map_values(f).remove(i));
        assert(a1.map_values(f).push(f(x)).to_multiset() == a1.map_values(f).to_multiset().insert(f(x)));
        assert(b.map_values(f).remove(i).to_multiset() == b.map_values(f).to_multiset().remove(
            b.map_values(f)[i],
        ));
        assert(b.map_values(f).to_multiset().contains(f(x)));
        assert(a.map_values(f).to_multiset() =~= b.map_values(f).to_multiset());
    }
}

} // verus!
