use vstd::prelude::*;
use crate::bits::{bit64, lemma_bits_or, lemma_bits_and, lemma_bits_diff, lemma_bits_not_masked,
    lemma_bits_set, lemma_bits_clear, lemma_bits_zero, lemma_bits_full, lemma_bits_nonzero};
use crate::coords::Coord;

verus! {

/// Mask for the second word: only bits 0..36 (cells 64..100) may be set.
pub const COORD_EXTENT_MASK: u64 = 0x0000_000F_FFFF_FFFF;

/// A set over the 100 board cells, represented by 100 bits in two words.
///
/// Value semantics: copying the two words copies the set.
#[derive(Clone, Copy, Debug)]
pub struct CoordSet {
    pub lo: u64,
    pub hi: u64,
}

impl CoordSet {
    /// The representation invariant: no bit outside the 100-cell universe is set.
    pub open spec fn inv(self) -> bool {
        forall|i: u64| 36 <= i < 64 ==> !#[trigger] bit64(self.hi, i)
    }

    /// Whether the cell with the given linear index is in the set.
    pub open spec fn has(self, v: int) -> bool {
        &&& 0 <= v < 100
        &&& if v < 64 {
            bit64(self.lo, v as u64)
        } else {
            bit64(self.hi, (v - 64) as u64)
        }
    }

    /// Whether a coordinate is in the set.
    pub open spec fn has_coord(self, c: Coord) -> bool {
        c.spec_in_bounds() && self.has(c.spec_lin())
    }

    /// The number of elements with linear index below `n`.
    pub open spec fn card_upto(self, n: int) -> int
        decreases n,
    {
        if n <= 0 {
            0
        } else {
            self.card_upto(n - 1) + if self.has(n - 1) {
                1int
            } else {
                0int
            }
        }
    }

    /// The number of elements in the set.
    pub open spec fn card(self) -> int {
        self.card_upto(100)
    }

    /// The empty set.
    pub fn empty() -> (r: CoordSet)
        ensures
            r.inv(),
            forall|v: int| !#[trigger] r.has(v),
    {
        proof {
            lemma_bits_zero();
        }
        CoordSet { lo: 0, hi: 0 }
    }

    /// Whether the given on-board cell index is in the set.
    pub fn contains_lin(&self, i: usize) -> (r: bool)
        requires
            i < 100,
        ensures
            r == self.has(i as int),
    {
        if i < 64 {
            (self.lo >> (i as u64)) & 1 == 1
        } else {
            (self.hi >> ((i - 64) as u64)) & 1 == 1
        }
    }

    /// Whether the given coordinate is in the set.
    pub fn contains(&self, value: &Coord) -> (r: bool)
        requires
            value.spec_in_bounds(),
        ensures
            r == self.has(value.spec_lin()),
    {
        self.contains_lin(value.lin())
    }

    /// Inserts a coordinate into the set, if it is not already there.
    pub fn insert(&mut self, value: &Coord)
        requires
            old(self).inv(),
            value.spec_in_bounds(),
        ensures
            final(self).inv(),
            forall|v: int|
                #![trigger final(self).has(v)]
                #![trigger old(self).has(v)]
                final(self).has(v) <==> (old(self).has(v) || v == value.spec_lin()),
    {
        let i = value.lin();
        if i < 64 {
            proof {
                lemma_bits_set(self.lo, i as u64);
            }
            self.lo = self.lo | (1u64 << (i as u64));
        } else {
            proof {
                lemma_bits_set(self.hi, (i - 64) as u64);
            }
            self.hi = self.hi | (1u64 << ((i - 64) as u64));
        }
    }

    /// Removes a coordinate from the set, if it is there.
    pub fn remove(&mut self, value: &Coord)
        requires
            old(self).inv(),
            value.spec_in_bounds(),
        ensures
            final(self).inv(),
            forall|v: int|
                #![trigger final(self).has(v)]
                #![trigger old(self).has(v)]
                final(self).has(v) <==> (old(self).has(v) && v != value.spec_lin()),
    {
        let i = value.lin();
        if i < 64 {
            proof {
                lemma_bits_clear(self.lo, i as u64);
            }
            self.lo = self.lo & !(1u64 << (i as u64));
        } else {
            proof {
                lemma_bits_clear(self.hi, (i - 64) as u64);
            }
            self.hi = self.hi & !(1u64 << ((i - 64) as u64));
        }
    }

    /// Replaces the set with its complement within the 100-cell universe.
    pub fn neg_inplace(&mut self)
        ensures
            final(self).inv(),
            forall|v: int|
                #![trigger final(self).has(v)]
                #![trigger old(self).has(v)]
                final(self).has(v) <==> (0 <= v < 100 && !old(self).has(v)),
    {
        proof {
            lemma_bits_full();
            lemma_bits_diff(0xFFFF_FFFF_FFFF_FFFFu64, old(self).lo);
            lemma_bits_not_masked(old(self).hi, 36);
            assert(COORD_EXTENT_MASK == !(0xFFFF_FFFF_FFFF_FFFFu64 << 36u64)) by (bit_vector);
        }
        self.lo = 0xFFFF_FFFF_FFFF_FFFF & !self.lo;
        self.hi = (!self.hi) & COORD_EXTENT_MASK;
    }

    /// Fast check whether the two sets share an element.
    pub fn intersects(&self, other: &Self) -> (r: bool)
        requires
            self.inv(),
            other.inv(),
        ensures
            r == exists|v: int| self.has(v) && #[trigger] other.has(v),
    {
        proof {
            lemma_bits_and(self.lo, other.lo);
            lemma_bits_and(self.hi, other.hi);
            if self.lo & other.lo != 0 {
                lemma_bits_nonzero(self.lo & other.lo);
                let i = choose|i: u64| i < 64 && bit64(self.lo & other.lo, i);
                assert(self.has(i as int) && other.has(i as int));
            } else if self.hi & other.hi != 0 {
                lemma_bits_nonzero(self.hi & other.hi);
                let i = choose|i: u64| i < 64 && bit64(self.hi & other.hi, i);
                assert(self.has(i + 64) && other.has(i + 64));
            } else {
                lemma_bits_zero();
                assert forall|v: int| !(self.has(v) && #[trigger] other.has(v)) by {
                    if 0 <= v < 64 {
                        assert(!bit64(self.lo & other.lo, v as u64));
                    } else if 64 <= v < 100 {
                        assert(!bit64(self.hi & other.hi, (v - 64) as u64));
                    }
                }
            }
        }
        (self.lo & other.lo) != 0 || (self.hi & other.hi) != 0
    }

    /// Fast intersection test that returns whether the intersection would be empty.
    pub fn would_intersect_empty(&self, other: &Self) -> (r: bool)
        requires
            self.inv(),
            other.inv(),
        ensures
            r == !exists|v: int| self.has(v) && #[trigger] other.has(v),
    {
        !self.intersects(other)
    }

    /// The number of elements in the set.
    pub fn len(&self) -> (r: usize)
        ensures
            r == self.card(),
    {
        let mut count: usize = 0;
        let mut i: usize = 0;
        while i < 100
            invariant
                i <= 100,
                count == self.card_upto(i as int),
                count <= i,
            decreases 100 - i,
        {
            if self.contains_lin(i) {
                count = count + 1;
            }
            i = i + 1;
        }
        count
    }

    /// Fast count of elements without allocation.
    pub fn count_fast(&self) -> (r: usize)
        ensures
            r == self.card(),
    {
        self.len()
    }

    /// Whether the set has no elements.
    pub fn is_empty(&self) -> (r: bool)
        requires
            self.inv(),
        ensures
            r == forall|v: int| !#[trigger] self.has(v),
    {
        proof {
            if self.lo != 0 {
                lemma_bits_nonzero(self.lo);
                let i = choose|i: u64| i < 64 && bit64(self.lo, i);
                assert(self.has(i as int));
            } else if self.hi != 0 {
                lemma_bits_nonzero(self.hi);
                let i = choose|i: u64| i < 64 && bit64(self.hi, i);
                assert(self.has(i + 64));
            } else {
                lemma_bits_zero();
            }
        }
        self.lo == 0 && self.hi == 0
    }

    /// Returns a new set consisting of the elements present in either set.
    pub fn union(&self, other: &Self) -> (r: Self)
        requires
            self.inv(),
            other.inv(),
        ensures
            r.inv(),
            forall|v: int|
                #![trigger r.has(v)]
                #![trigger self.has(v)]
                #![trigger other.has(v)]
                r.has(v) <==> (self.has(v) || other.has(v)),
    {
        proof {
            lemma_bits_or(self.lo, other.lo);
            lemma_bits_or(self.hi, other.hi);
        }
        CoordSet { lo: self.lo | other.lo, hi: self.hi | other.hi }
    }

    /// Inserts all elements of the other set into this one.
    pub fn union_inplace(&mut self, other: &Self)
        requires
            old(self).inv(),
            other.inv(),
        ensures
            final(self).inv(),
            forall|v: int|
                #![trigger final(self).has(v)]
                #![trigger old(self).has(v)]
                #![trigger other.has(v)]
                final(self).has(v) <==> (old(self).has(v) || other.has(v)),
    {
        proof {
            lemma_bits_or(self.lo, other.lo);
            lemma_bits_or(self.hi, other.hi);
        }
        self.lo = self.lo | other.lo;
        self.hi = self.hi | other.hi;
    }

    /// Returns a new set consisting of the elements present in both sets.
    pub fn intersect(&self, other: &Self) -> (r: Self)
        requires
            self.inv(),
            other.inv(),
        ensures
            r.inv(),
            forall|v: int|
                #![trigger r.has(v)]
                #![trigger self.has(v)]
                #![trigger other.has(v)]
                r.has(v) <==> (self.has(v) && other.has(v)),
    {
        proof {
            lemma_bits_and(self.lo, other.lo);
            lemma_bits_and(self.hi, other.hi);
        }
        CoordSet { lo: self.lo & other.lo, hi: self.hi & other.hi }
    }

    /// Removes all elements from this set that are not in the other set.
    pub fn intersect_inplace(&mut self, other: &Self)
        requires
            old(self).inv(),
            other.inv(),
        ensures
            final(self).inv(),
            forall|v: int|
                #![trigger final(self).has(v)]
                #![trigger old(self).has(v)]
                #![trigger other.has(v)]
                final(self).has(v) <==> (old(self).has(v) && other.has(v)),
    {
        proof {
            lemma_bits_and(self.lo, other.lo);
            lemma_bits_and(self.hi, other.hi);
        }
        self.lo = self.lo & other.lo;
        self.hi = self.hi & other.hi;
    }

    /// Returns a new set consisting of the elements of this set not in the other.
    pub fn difference(&self, other: &Self) -> (r: Self)
        requires
            self.inv(),
            other.inv(),
        ensures
            r.inv(),
            forall|v: int|
                #![trigger r.has(v)]
                #![trigger self.has(v)]
                #![trigger other.has(v)]
                r.has(v) <==> (self.has(v) && !other.has(v)),
    {
        proof {
            lemma_bits_diff(self.lo, other.lo);
            lemma_bits_diff(self.hi, other.hi);
        }
        CoordSet { lo: self.lo & !other.lo, hi: self.hi & !other.hi }
    }

    /// Removes all elements of the other set from this one.
    pub fn difference_inplace(&mut self, other: &Self)
        requires
            old(self).inv(),
            other.inv(),
        ensures
            final(self).inv(),
            forall|v: int|
                #![trigger final(self).has(v)]
                #![trigger old(self).has(v)]
                #![trigger other.has(v)]
                final(self).has(v) <==> (old(self).has(v) && !other.has(v)),
    {
        proof {
            lemma_bits_diff(self.lo, other.lo);
            lemma_bits_diff(self.hi, other.hi);
        }
        self.lo = self.lo & !other.lo;
        self.hi = self.hi & !other.hi;
    }

    /// The elements of the set as coordinates, in ascending row-major order.
    #[verifier::rlimit(50)]
    pub fn to_vec(&self) -> (r: Vec<Coord>)
        ensures
            r@.len() == self.card(),
            forall|k: int|
                #![trigger r@[k].spec_in_bounds()]
                #![trigger r@[k].spec_lin()]
                0 <= k < r@.len() ==> (r@[k].spec_in_bounds() && self.has(r@[k].spec_lin())),
            forall|k1: int, k2: int|
                0 <= k1 < k2 < r@.len() ==> r@[k1].spec_lin() < r@[k2].spec_lin(),
            forall|v: int| #[trigger]
                self.has(v) ==> exists|k: int| 0 <= k < r@.len() && r@[k].spec_lin() == v,
    {
        let mut r: Vec<Coord> = Vec::new();
        let mut i: usize = 0;
        while i < 100
            invariant
                i <= 100,
                r@.len() == self.card_upto(i as int),
                forall|k: int|
                    #![trigger r@[k].spec_in_bounds()]
                    #![trigger r@[k].spec_lin()]
                    0 <= k < r@.len() ==> (r@[k].spec_in_bounds() && self.has(r@[k].spec_lin())
                        && r@[k].spec_lin() < i),
                forall|k1: int, k2: int|
                    0 <= k1 < k2 < r@.len() ==> r@[k1].spec_lin() < r@[k2].spec_lin(),
                forall|v: int|
                    0 <= v < i && #[trigger] self.has(v) ==> exists|k: int|
                        0 <= k < r@.len() && r@[k].spec_lin() == v,
            decreases 100 - i,
        {
            let ghost prev = r@;
            if self.contains_lin(i) {
                let c = Coord::from_lin(i);
                r.push(c);
                proof {
                    assert(r@ =~= prev.push(c));
                    assert forall|k: int|
                        #![trigger r@[k].spec_in_bounds()]
                        #![trigger r@[k].spec_lin()]
                        0 <= k < r@.len() implies (r@[k].spec_in_bounds() && self.has(
                        r@[k].spec_lin(),
                    ) && r@[k].spec_lin() < i + 1) by {
                        if k < prev.len() {
                            assert(r@[k] == prev[k]);
                            assert(prev[k].spec_in_bounds());
                        } else {
                            assert(r@[k] == c);
                        }
                    }
                    assert forall|k1: int, k2: int| 0 <= k1 < k2 < r@.len() implies r@[k1].spec_lin()
                        < r@[k2].spec_lin() by {
                        assert(r@[k1] == prev[k1]);
                        assert(prev[k1].spec_in_bounds() && prev[k1].spec_lin() < i);
                        if k2 < prev.len() {
                            assert(r@[k2] == prev[k2]);
                            assert(prev[k1].spec_lin() < prev[k2].spec_lin());
                        } else {
                            assert(r@[k2] == c);
                        }
                    }
                    assert forall|v: int| 0 <= v < i + 1 && #[trigger] self.has(v) implies exists|
                        k: int,
                    | 0 <= k < r@.len() && r@[k].spec_lin() == v by {
                        if v == i {
                            assert(r@[r@.len() - 1].spec_lin() == v);
                        } else {
                            let k = choose|k: int| 0 <= k < prev.len() && prev[k].spec_lin() == v;
                            assert(r@[k].spec_lin() == v);
                        }
                    }
                }
            } else {
                proof {
                    assert forall|v: int| 0 <= v < i + 1 && #[trigger] self.has(v) implies exists|
                        k: int,
                    | 0 <= k < r@.len() && r@[k].spec_lin() == v by {
                        let k = choose|k: int| 0 <= k < prev.len() && prev[k].spec_lin() == v;
                        assert(r@[k].spec_lin() == v);
                    }
                }
            }
            i = i + 1;
        }
        r
    }
}

impl Default for CoordSet {
    /// The empty set.
    fn default() -> (r: CoordSet)
        ensures
            r.inv(),
            forall|v: int| !#[trigger] r.has(v),
    {
        CoordSet::empty()
    }
}

impl CoordSet {
    /// The union of three sets.
    pub fn union_3(a: &CoordSet, b: &CoordSet, c: &CoordSet) -> (r: CoordSet)
        requires
            a.inv() && b.inv() && c.inv(),
        ensures
            r.inv(),
            forall|v: int|
                #![trigger r.has(v)]
                #![trigger a.has(v)]
                r.has(v) <==> (a.has(v) || b.has(v) || c.has(v)),
    {
        let r = a.union(b);
        r.union(c)
    }

    /// The union of four sets.
    pub fn union_4(a: &CoordSet, b: &CoordSet, c: &CoordSet, d: &CoordSet) -> (r: CoordSet)
        requires
            a.inv() && b.inv() && c.inv() && d.inv(),
        ensures
            r.inv(),
            forall|v: int|
                #![trigger r.has(v)]
                #![trigger a.has(v)]
                r.has(v) <==> (a.has(v) || b.has(v) || c.has(v) || d.has(v)),
    {
        let r = CoordSet::union_3(a, b, c);
        r.union(d)
    }

    /// The union of five sets.
    pub fn union_5(a: &CoordSet, b: &CoordSet, c: &CoordSet, d: &CoordSet, e: &CoordSet) -> (r:
        CoordSet)
        requires
            a.inv() && b.inv() && c.inv() && d.inv() && e.inv(),
        ensures
            r.inv(),
            forall|v: int|
                #![trigger r.has(v)]
                #![trigger a.has(v)]
                r.has(v) <==> (a.has(v) || b.has(v) || c.has(v) || d.has(v) || e.has(v)),
    {
        let r = CoordSet::union_4(a, b, c, d);
        r.union(e)
    }

    /// The union of six sets.
    pub fn union_6(
        a: &CoordSet,
        b: &CoordSet,
        c: &CoordSet,
        d: &CoordSet,
        e: &CoordSet,
        f: &CoordSet,
    ) -> (r: CoordSet)
        requires
            a.inv() && b.inv() && c.inv() && d.inv() && e.inv() && f.inv(),
        ensures
            r.inv(),
            forall|v: int|
                #![trigger r.has(v)]
                #![trigger a.has(v)]
                r.has(v) <==> (a.has(v) || b.has(v) || c.has(v) || d.has(v) || e.has(v) || f.has(
                    v,
                )),
    {
        let r = CoordSet::union_5(a, b, c, d, e);
        r.union(f)
    }

    /// The union of seven sets.
    pub fn union_7(
        a: &CoordSet,
        b: &CoordSet,
        c: &CoordSet,
        d: &CoordSet,
        e: &CoordSet,
        f: &CoordSet,
        g: &CoordSet,
    ) -> (r: CoordSet)
        requires
            a.inv() && b.inv() && c.inv() && d.inv() && e.inv() && f.inv() && g.inv(),
        ensures
            r.inv(),
            forall|v: int|
                #![trigger r.has(v)]
                #![trigger a.has(v)]
                r.has(v) <==> (a.has(v) || b.has(v) || c.has(v) || d.has(v) || e.has(v) || f.has(v)
                    || g.has(v)),
    {
        let r = CoordSet::union_6(a, b, c, d, e, f);
        r.union(g)
    }

    /// The union of eight sets.
    pub fn union_8(
        a: &CoordSet,
        b: &CoordSet,
        c: &CoordSet,
        d: &CoordSet,
        e: &CoordSet,
        f: &CoordSet,
        g: &CoordSet,
        h: &CoordSet,
    ) -> (r: CoordSet)
        requires
            a.inv() && b.inv() && c.inv() && d.inv() && e.inv() && f.inv() && g.inv() && h.inv(),
        ensures
            r.inv(),
            forall|v: int|
                #![trigger r.has(v)]
                #![trigger a.has(v)]
                r.has(v) <==> (a.has(v) || b.has(v) || c.has(v) || d.has(v) || e.has(v) || f.has(v)
                    || g.has(v) || h.has(v)),
    {
        let r = CoordSet::union_7(a, b, c, d, e, f, g);
        r.union(h)
    }

    /// In-place union of eight sets into an accumulator.
    pub fn union_8_inplace(
        acc: &mut CoordSet,
        a: &CoordSet,
        b: &CoordSet,
        c: &CoordSet,
        d: &CoordSet,
        e: &CoordSet,
        f: &CoordSet,
        g: &CoordSet,
        h: &CoordSet,
    )
        requires
            old(acc).inv(),
            a.inv() && b.inv() && c.inv() && d.inv() && e.inv() && f.inv() && g.inv() && h.inv(),
        ensures
            final(acc).inv(),
            forall|v: int|
                #![trigger final(acc).has(v)]
                #![trigger old(acc).has(v)]
                #![trigger a.has(v)]
                final(acc).has(v) <==> (old(acc).has(v) || a.has(v) || b.has(v) || c.has(v)
                    || d.has(v) || e.has(v) || f.has(v) || g.has(v) || h.has(v)),
    {
        let joined = CoordSet::union_8(a, b, c, d, e, f, g, h);
        acc.union_inplace(&joined);
    }

    /// The union of up to seven sets: the remainder of a block-of-eight scan.
    pub fn union_remainder(sets: &Vec<CoordSet>) -> (r: CoordSet)
        requires
            sets@.len() < 8,
            forall|k: int| 0 <= k < sets@.len() ==> (#[trigger] sets@[k]).inv(),
        ensures
            r.inv(),
            forall|v: int|
                #![trigger r.has(v)]
                r.has(v) <==> exists|k: int| 0 <= k < sets@.len() && (#[trigger] sets@[k]).has(v),
    {
        let mut r = CoordSet::empty();
        CoordSet::union_remainder_inplace(&mut r, sets);
        r
    }

    /// In-place union of a remainder of sets into an accumulator.
    pub fn union_remainder_inplace(acc: &mut CoordSet, sets: &Vec<CoordSet>)
        requires
            old(acc).inv(),
            forall|k: int| 0 <= k < sets@.len() ==> (#[trigger] sets@[k]).inv(),
        ensures
            final(acc).inv(),
            forall|v: int|
                #![trigger final(acc).has(v)]
                #![trigger old(acc).has(v)]
                final(acc).has(v) <==> (old(acc).has(v) || exists|k: int|
                    0 <= k < sets@.len() && (#[trigger] sets@[k]).has(v)),
    {
        let mut idx: usize = 0;
        while idx < sets.len()
            invariant
                idx <= sets@.len(),
                acc.inv(),
                forall|k: int| 0 <= k < sets@.len() ==> (#[trigger] sets@[k]).inv(),
                forall|v: int|
                    #![trigger acc.has(v)]
                    #![trigger old(acc).has(v)]
                    acc.has(v) <==> (old(acc).has(v) || exists|k: int|
                        0 <= k < idx && (#[trigger] sets@[k]).has(v)),
            decreases sets@.len() - idx,
        {
            let ghost prev = *acc;
            acc.union_inplace(&sets[idx]);
            proof {
                assert forall|v: int|
                    #![trigger acc.has(v)]
                    #![trigger old(acc).has(v)]
                    acc.has(v) <==> (old(acc).has(v) || exists|k: int|
                        0 <= k < idx + 1 && (#[trigger] sets@[k]).has(v)) by {
                    assert(acc.has(v) <==> (prev.has(v) || sets@[idx as int].has(v)));
                    if acc.has(v) && !old(acc).has(v) {
                        if sets@[idx as int].has(v) {
                            assert(0 <= idx < idx + 1 && sets@[idx as int].has(v));
                        } else {
                            let k = choose|k: int| 0 <= k < idx && (#[trigger] sets@[k]).has(v);
                            assert(0 <= k < idx + 1 && sets@[k].has(v));
                        }
                    }
                }
            }
            idx = idx + 1;
        }
    }

    /// Union of an arbitrary collection of sets, taken in blocks of eight so
    /// that the block step vectorizes.
    pub fn union_many(sets: &Vec<CoordSet>) -> (r: CoordSet)
        requires
            forall|k: int| 0 <= k < sets@.len() ==> (#[trigger] sets@[k]).inv(),
        ensures
            r.inv(),
            forall|v: int|
                #![trigger r.has(v)]
                r.has(v) <==> exists|k: int| 0 <= k < sets@.len() && (#[trigger] sets@[k]).has(v),
    {
        let mut r = CoordSet::empty();
        let mut idx: usize = 0;
        while sets.len() - idx >= 8
            invariant
                idx <= sets@.len(),
                r.inv(),
                forall|k: int| 0 <= k < sets@.len() ==> (#[trigger] sets@[k]).inv(),
                forall|v: int|
                    #![trigger r.has(v)]
                    r.has(v) <==> exists|k: int| 0 <= k < idx && (#[trigger] sets@[k]).has(v),
            decreases sets@.len() - idx,
        {
            let ghost prev = r;
            CoordSet::union_8_inplace(
                &mut r,
                &sets[idx],
                &sets[idx + 1],
                &sets[idx + 2],
                &sets[idx + 3],
                &sets[idx + 4],
                &sets[idx + 5],
                &sets[idx + 6],
                &sets[idx + 7],
            );
            proof {
                assert forall|v: int| #[trigger]
                    r.has(v) <==> exists|k: int|
                        0 <= k < idx + 8 && (#[trigger] sets@[k]).has(v) by {
                    assert(r.has(v) <==> (prev.has(v) || sets@[idx as int].has(v) || sets@[idx
                        + 1].has(v) || sets@[idx + 2].has(v) || sets@[idx + 3].has(v) || sets@[idx
                        + 4].has(v) || sets@[idx + 5].has(v) || sets@[idx + 6].has(v) || sets@[idx
                        + 7].has(v)));
                    if r.has(v) {
                        if prev.has(v) {
                            let k = choose|k: int| 0 <= k < idx && (#[trigger] sets@[k]).has(v);
                            assert(0 <= k < idx + 8 && sets@[k].has(v));
                        }
                    }
                }
            }
            idx = idx + 8;
        }
        while idx < sets.len()
            invariant
                idx <= sets@.len(),
                r.inv(),
                forall|k: int| 0 <= k < sets@.len() ==> (#[trigger] sets@[k]).inv(),
                forall|v: int|
                    #![trigger r.has(v)]
                    r.has(v) <==> exists|k: int| 0 <= k < idx && (#[trigger] sets@[k]).has(v),
            decreases sets@.len() - idx,
        {
            let ghost prev = r;
            r.union_inplace(&sets[idx]);
            proof {
                assert forall|v: int| #[trigger]
                    r.has(v) <==> exists|k: int|
                        0 <= k < idx + 1 && (#[trigger] sets@[k]).has(v) by {
                    assert(r.has(v) <==> (prev.has(v) || sets@[idx as int].has(v)));
                    if r.has(v) && prev.has(v) {
                        let k = choose|k: int| 0 <= k < idx && (#[trigger] sets@[k]).has(v);
                        assert(0 <= k < idx + 1 && sets@[k].has(v));
                    }
                }
            }
            idx = idx + 1;
        }
        r
    }
}

} // verus!
