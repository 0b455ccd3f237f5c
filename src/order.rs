//! Stable ordering of records by block position, `x` first, then `z`,
//! then `y`.
use vstd::prelude::*;
use crate::chunk::{BookWithPos, ChunkLevelTileEntities};

verus! {

/// A record found at a block position.
pub trait Positioned {
    /// The block position `(x, y, z)` of the record.
    spec fn pos(&self) -> (i32, i32, i32);

    /// The block position `(x, y, z)` of the record.
    fn position(&self) -> (r: (i32, i32, i32))
        ensures
            r == self.pos(),
    ;
}

impl Positioned for ChunkLevelTileEntities {
    open spec fn pos(&self) -> (i32, i32, i32) {
        (self.x, self.y, self.z)
    }

    fn position(&self) -> (r: (i32, i32, i32)) {
        (self.x, self.y, self.z)
    }
}

impl Positioned for BookWithPos {
    open spec fn pos(&self) -> (i32, i32, i32) {
        (self.x, self.y, self.z)
    }

    fn position(&self) -> (r: (i32, i32, i32)) {
        (self.x, self.y, self.z)
    }
}

/// Whether position `a` comes no later than `b` when comparing `x`, then
/// `z`, then `y`.
pub open spec fn pos_le(a: (i32, i32, i32), b: (i32, i32, i32)) -> bool {
    ||| a.0 < b.0
    ||| a.0 == b.0 && a.2 < b.2
    ||| a.0 == b.0 && a.2 == b.2 && a.1 <= b.1
}

/// Whether position `a` comes no later than `b`.
pub fn position_le(a: (i32, i32, i32), b: (i32, i32, i32)) -> (r: bool)
    ensures
        r == pos_le(a, b),
{
    a.0 < b.0 || (a.0 == b.0 && a.2 < b.2) || (a.0 == b.0 && a.2 == b.2 && a.1 <= b.1)
}

/// Whether the records of `s` come in order of position.
pub open spec fn ordered<T: Positioned>(s: Seq<T>) -> bool {
    forall|i: int, j: int| 0 <= i < j < s.len() ==> pos_le(#[trigger] s[i].pos(), #[trigger] s[j].pos())
}

/// Where `e` goes in `s`: after the last record that does not come after it.
pub open spec fn insert_at<T: Positioned>(s: Seq<T>, e: T) -> int
    decreases s.len(),
{
    if s.len() == 0 {
        0
    } else if !pos_le(s.last().pos(), e.pos()) {
        insert_at(s.drop_last(), e)
    } else {
        s.len() as int
    }
}

/// `s` sorted by position by insertion; records at equal positions keep
/// their relative order.
pub open spec fn sorted_by_position<T: Positioned>(s: Seq<T>) -> Seq<T>
    decreases s.len(),
{
    if s.len() == 0 {
        Seq::empty()
    } else {
        let r = sorted_by_position(s.drop_last());
        r.insert(insert_at(r, s.last()), s.last())
    }
}

proof fn lemma_insert_at<T: Positioned>(s: Seq<T>, e: T)
    ensures
        0 <= insert_at(s, e) <= s.len(),
        forall|k: int| insert_at(s, e) <= k < s.len() ==> !pos_le(#[trigger] s[k].pos(), e.pos()),
        insert_at(s, e) > 0 ==> pos_le(s[insert_at(s, e) - 1].pos(), e.pos()),
    decreases s.len(),
{
    if s.len() > 0 && !pos_le(s.last().pos(), e.pos()) {
        lemma_insert_at(s.drop_last(), e);
        assert forall|k: int| insert_at(s, e) <= k < s.len() implies !pos_le(
            #[trigger] s[k].pos(),
            e.pos(),
        ) by {
            if k < s.len() - 1 {
                assert(s[k] == s.drop_last()[k]);
            }
        }
    }
}

proof fn lemma_insert_keeps_order<T: Positioned>(s: Seq<T>, e: T)
    requires
        ordered(s),
    ensures
        ordered(s.insert(insert_at(s, e), e)),
{
    lemma_insert_at(s, e);
    let p = insert_at(s, e);
    let t = s.insert(p, e);
    assert forall|i: int, j: int| 0 <= i < j < t.len() implies pos_le(
        #[trigger] t[i].pos(),
        #[trigger] t[j].pos(),
    ) by {
        if i < p && j == p {
            assert(pos_le(s[i].pos(), s[p - 1].pos()) || i == p - 1);
        } else if i == p && j > p {
            assert(t[j] == s[j - 1]);
        } else if i < p && j > p {
            assert(t[j] == s[j - 1]);
        } else if j < p {
        } else {
            assert(t[i] == s[i - 1]);
            assert(t[j] == s[j - 1]);
        }
    }
}

/// Sorting by position gives records in order of position.
pub proof fn lemma_sorted_is_ordered<T: Positioned>(s: Seq<T>)
    ensures
        ordered(sorted_by_position(s)),
    decreases s.len(),
{
    if s.len() > 0 {
        lemma_sorted_is_ordered(s.drop_last());
        lemma_insert_keeps_order(sorted_by_position(s.drop_last()), s.last());
    }
}

/// Sorting by position keeps every record: the result holds the same
/// records, each as often as the input.
pub proof fn lemma_sorted_is_permutation<T: Positioned>(s: Seq<T>)
    ensures
        sorted_by_position(s).to_multiset() == s.to_multiset(),
    decreases s.len(),
{
    if s.len() > 0 {
        let r = sorted_by_position(s.drop_last());
        lemma_sorted_is_permutation(s.drop_last());
        lemma_insert_at(r, s.last());
        vstd::seq_lib::to_multiset_insert(r, insert_at(r, s.last()), s.last());
        assert(s =~= s.drop_last().push(s.last()));
        vstd::seq_lib::to_multiset_build(s.drop_last(), s.last());
        assert(sorted_by_position(s) == r.insert(insert_at(r, s.last()), s.last()));
    } else {
        assert(s =~= Seq::<T>::empty());
    }
}

/// Sorts `v` by position (`x`, then `z`, then `y`), keeping the relative
/// order of records at equal positions.
pub fn sort_by_position<T: Positioned>(v: Vec<T>) -> (r: Vec<T>)
    ensures
        r@ == sorted_by_position(v@),
{
    let ghost all = v@;
    let mut rest = v;
    let n = rest.len();
    let mut out: Vec<T> = Vec::new();
    let mut i: usize = 0;
    while i < n
        invariant
            n == all.len(),
            i <= n,
            rest@ == all.subrange(i as int, n as int),
            out@ == sorted_by_position(all.take(i as int)),
            out@.len() == i,
        decreases n - i,
    {
        let e = rest.remove(0);
        let ghost prefix = all.take(i + 1);
        assert(prefix.drop_last() =~= all.take(i as int));
        assert(e == prefix.last());
        let key = e.position();
        let mut j: usize = out.len();
        assert(out@.take(j as int) =~= out@);
        while j > 0 && !position_le(out[j - 1].position(), key)
            invariant
                j <= out@.len(),
                key == e.pos(),
                insert_at(out@, e) == insert_at(out@.take(j as int), e),
            decreases j,
        {
            assert(out@.take(j as int).drop_last() =~= out@.take(j - 1));
            j = j - 1;
        }
        proof {
            if j > 0 {
                assert(out@.take(j as int).last() == out@[j - 1]);
            }
        }
        out.insert(j, e);
        assert(rest@ =~= all.subrange(i + 1, n as int));
        i = i + 1;
    }
    assert(all.take(n as int) =~= all);
    out
}

/// Sorting records that are already in order of position leaves them as
/// they are, so sorting a sorted sequence again changes nothing.
pub proof fn lemma_sorting_is_repeatable<T: Positioned>(s: Seq<T>)
    ensures
        ordered(s) ==> sorted_by_position(s) == s,
        sorted_by_position(sorted_by_position(s)) == sorted_by_position(s),
    decreases s.len(),
{
    lemma_sorted_is_ordered(s);
    if ordered(sorted_by_position(s)) {
        lemma_sorted_already(sorted_by_position(s));
    }
    lemma_sorted_already(s);
}

proof fn lemma_sorted_already<T: Positioned>(s: Seq<T>)
    ensures
        ordered(s) ==> sorted_by_position(s) == s,
    decreases s.len(),
{
    if s.len() > 0 && ordered(s) {
        let p = s.drop_last();
        assert(ordered(p)) by {
            assert forall|i: int, j: int| 0 <= i < j < p.len() implies pos_le(
                #[trigger] p[i].pos(),
                #[trigger] p[j].pos(),
            ) by {
                assert(p[i] == s[i] && p[j] == s[j]);
            }
        }
        lemma_sorted_already(p);
        if p.len() > 0 {
            assert(pos_le(p.last().pos(), s.last().pos())) by {
                assert(p.last() == s[s.len() - 2]);
            }
        }
        assert(insert_at(p, s.last()) == p.len());
        assert(p.insert(p.len() as int, s.last()) =~= s);
    }
}

} // verus!
