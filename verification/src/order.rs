//! Stable ordering of records by their time stamp.
use vstd::prelude::*;

verus! {

/// A record that carries a creation time, as a number that orders records by it.
pub trait Timestamped: Sized {
    spec fn stamp(&self) -> i128;

    fn timestamp(&self) -> (t: i128)
        ensures
            t == self.stamp(),
    ;
}

/// `t` with `x` inserted after every element whose stamp is not greater than that of `x`,
/// counted from the back: the step of a stable insertion sort.
pub open spec fn insert_by_stamp<T: Timestamped>(t: Seq<T>, x: T) -> Seq<T>
    decreases t.len(),
{
    if t.len() == 0 {
        seq![x]
    } else if t.last().stamp() <= x.stamp() {
        t.push(x)
    } else {
        insert_by_stamp(t.drop_last(), x).push(t.last())
    }
}

/// The elements of `s` in order of their stamps, equal stamps keeping their order:
/// what a stable sort by stamp (`sort_by_key`) gives.
pub open spec fn sorted_by_stamp<T: Timestamped>(s: Seq<T>) -> Seq<T>
    decreases s.len(),
{
    if s.len() == 0 {
        s
    } else {
        insert_by_stamp(sorted_by_stamp(s.drop_last()), s.last())
    }
}

/// Whether the stamps of `s` never decrease.
pub open spec fn stamps_ascending<T: Timestamped>(s: Seq<T>) -> bool {
    forall|i: int, j: int| 0 <= i <= j < s.len() ==> s[i].stamp() <= s[j].stamp()
}

proof fn lemma_insert_split<T: Timestamped>(t: Seq<T>, x: T, j: int)
    requires
        0 <= j <= t.len(),
        forall|k: int| j <= k < t.len() ==> t[k].stamp() > x.stamp(),
        j == 0 || t[j - 1].stamp() <= x.stamp(),
    ensures
        insert_by_stamp(t, x) == t.take(j).push(x) + t.skip(j),
    decreases t.len(),
{
    if t.len() == 0 {
        assert(t.take(j).push(x) + t.skip(j) =~= seq![x]);
    } else if j == t.len() {
        assert(t.take(j) =~= t);
        assert(t.take(j).push(x) + t.skip(j) =~= t.push(x));
    } else {
        let u = t.drop_last();
        lemma_insert_split(u, x, j);
        assert(u.take(j) =~= t.take(j));
        assert(u.skip(j).push(t.last()) =~= t.skip(j));
        assert(t.take(j).push(x) + t.skip(j) =~= (u.take(j).push(x) + u.skip(j)).push(t.last()));
    }
}

/// Inserts `x` into `v` where a stable insertion sort puts it.
fn insert_stable<T: Timestamped>(v: &mut Vec<T>, x: T)
    ensures
        final(v)@ == insert_by_stamp(old(v)@, x),
{
    let k = x.timestamp();
    let mut j = v.len();
    while j > 0 && v[j - 1].timestamp() > k
        invariant
            j <= v@.len(),
            k == x.stamp(),
            forall|m: int| j <= m < v@.len() ==> v@[m].stamp() > x.stamp(),
        decreases j,
    {
        j = j - 1;
    }
    proof {
        lemma_insert_split(v@, x, j as int);
    }
    let ghost before = v@;
    v.insert(j, x);
    assert(v@ =~= before.take(j as int).push(x) + before.skip(j as int));
}

/// Sorts by stamp, keeping the order of equal stamps (as `sort_by_key` does).
pub fn sort_by_timestamp<T: Timestamped>(v: Vec<T>) -> (r: Vec<T>)
    ensures
        r@ == sorted_by_stamp(v@),
{
    let mut v = v;
    let ghost orig = v@;
    let mut out: Vec<T> = Vec::new();
    let mut rest: Vec<T> = Vec::new();
    // move the elements into `rest` in reverse, so that they can be popped in order
    while v.len() > 0
        invariant
            orig == v@ + rest@.reverse(),
        decreases v@.len(),
    {
        let x = v.pop().unwrap();
        let ghost r0 = rest@;
        rest.push(x);
        assert(rest@.reverse() =~= seq![x] + r0.reverse());
        assert(orig =~= v@ + rest@.reverse());
    }
    assert(orig =~= rest@.reverse());
    while rest.len() > 0
        invariant
            out@ == sorted_by_stamp(orig.take(orig.len() - rest@.len())),
            rest@.reverse() == orig.skip(orig.len() - rest@.len()),
            rest@.len() <= orig.len(),
        decreases rest@.len(),
    {
        let ghost done = orig.len() - rest@.len();
        let ghost r0 = rest@;
        let x = rest.pop().unwrap();
        assert(r0.reverse()[0] == x);
        assert(orig[done] == x) by {
            assert(orig.skip(done)[0] == orig[done]);
        }
        assert(orig.take(done + 1).drop_last() =~= orig.take(done));
        assert(orig.take(done + 1).last() == x);
        insert_stable(&mut out, x);
        assert(rest@.reverse() =~= r0.reverse().drop_first());
        assert(orig.skip(done + 1) =~= orig.skip(done).drop_first());
    }
    assert(orig.take(orig.len() as int) =~= orig);
    out
}

// ---------------------------------------------------------------------------
// What sorting keeps and what it establishes
// ---------------------------------------------------------------------------

proof fn lemma_insert_keeps<T: Timestamped>(t: Seq<T>, x: T)
    ensures
        insert_by_stamp(t, x).to_multiset() == t.to_multiset().insert(x),
        insert_by_stamp(t, x).len() == t.len() + 1,
        stamps_ascending(t) ==> stamps_ascending(insert_by_stamp(t, x)),
    decreases t.len(),
{
    broadcast use vstd::seq_lib::group_to_multiset_ensures;

    if t.len() == 0 {
        assert(seq![x] =~= Seq::<T>::empty().push(x));
    } else if t.last().stamp() <= x.stamp() {
    } else {
        let u = t.drop_last();
        lemma_insert_keeps(u, x);
        assert(t =~= u.push(t.last()));
        assert(insert_by_stamp(t, x).to_multiset() =~= t.to_multiset().insert(x));
        if stamps_ascending(t) {
            let r = insert_by_stamp(u, x);
            assert(stamps_ascending(u));
            assert forall|i: int, j: int|
                0 <= i <= j < r.len() + 1 implies #[trigger] r.push(t.last())[i].stamp()
                <= #[trigger] r.push(t.last())[j].stamp() by {
                if j == r.len() && i < r.len() {
                    // every element of r is x or an element of u, all at most t.last()
                    assert(r.to_multiset().count(r[i]) > 0);
                    assert(u.to_multiset().insert(x).count(r[i]) > 0);
                    if r[i] != x {
                        assert(u.to_multiset().count(r[i]) > 0);
                        assert(u.contains(r[i]));
                        let k = choose|k: int| 0 <= k < u.len() && u[k] == r[i];
                        assert(t[k] == u[k]);
                    }
                }
            }
        }
    }
}

/// A stable sort by stamp keeps every element (the result is a permutation of the input)
/// and puts the stamps in ascending order.
pub proof fn lemma_sorted_by_stamp<T: Timestamped>(s: Seq<T>)
    ensures
        sorted_by_stamp(s).to_multiset() == s.to_multiset(),
        sorted_by_stamp(s).len() == s.len(),
        stamps_ascending(sorted_by_stamp(s)),
    decreases s.len(),
{
    broadcast use vstd::seq_lib::group_to_multiset_ensures;

    if s.len() > 0 {
        lemma_sorted_by_stamp(s.drop_last());
        lemma_insert_keeps(sorted_by_stamp(s.drop_last()), s.last());
        assert(s =~= s.drop_last().push(s.last()));
    }
}

} // verus!
