use vstd::prelude::*;
use crate::bits::{bit64, lemma_bits_or, lemma_bits_and, lemma_bits_diff, lemma_bits_set,
    lemma_bits_clear, lemma_bits_zero, lemma_bits_full, lemma_bits_mask, lemma_bits_nonzero};
use crate::consts::NUM_PIECES;

verus! {

/// The number of distinct move ids: every piece id plus the swap sentinel.
pub const MOVE_UNIVERSE: usize = 1293;

/// Strictly between two consecutive multiples of `s` no integer is a multiple of `s`.
proof fn lemma_mod_between(v: int, i: int, s: int)
    requires
        s >= 1,
        i % s == 0,
        i < v < i + s,
    ensures
        v % s != 0,
{
    let d = v - i;
    vstd::arithmetic::div_mod::lemma_small_mod(d as nat, s as nat);
    vstd::arithmetic::div_mod::lemma_add_mod_noop(i, d, s);
    assert(v % s == d);
}

/// A set over the move ids `0..=NUM_PIECES`, where the id `NUM_PIECES`
/// is the swap sentinel. Represented by 1293 bits in 21 words.
#[derive(Clone, Copy, Debug)]
pub struct MoveSet {
    pub words: [u64; 21],
}

impl MoveSet {
    /// The representation invariant: no bit outside the id universe is set.
    pub open spec fn inv(self) -> bool {
        forall|i: u64| 13 <= i < 64 ==> !#[trigger] bit64(self.words@[20], i)
    }

    /// Whether the given move id is in the set.
    pub open spec fn has(self, v: int) -> bool {
        &&& 0 <= v < MOVE_UNIVERSE
        &&& bit64(self.words@[v / 64], (v % 64) as u64)
    }

    /// The number of elements with id below `n`.
    pub open spec fn card_upto(self, n: int) -> int
        decreases n,
    {
        if n <= 0 {
            0
        } else {
            self.card_upto(n - 1) + if self.has(n - 1) {
                1int
            } else {
                0int
            }
        }
    }

    /// The number of elements in the set.
    pub open spec fn card(self) -> int {
        self.card_upto(MOVE_UNIVERSE as int)
    }

    /// The empty set.
    pub fn empty() -> (r: MoveSet)
        ensures
            r.inv(),
            forall|v: int| !#[trigger] r.has(v),
    {
        proof {
            lemma_bits_zero();
        }
        MoveSet { words: [0; 21] }
    }

    /// Whether the given move id is in the set.
    pub fn contains(&self, value: usize) -> (r: bool)
        requires
            value < MOVE_UNIVERSE,
        ensures
            r == self.has(value as int),
    {
        (self.words[value / 64] >> ((value % 64) as u64)) & 1 == 1
    }

    /// Inserts a move id into the set, if it is not already there.
    pub fn insert(&mut self, value: usize)
        requires
            old(self).inv(),
            value < MOVE_UNIVERSE,
        ensures
            final(self).inv(),
            forall|v: int|
                #![trigger final(self).has(v)]
                #![trigger old(self).has(v)]
                final(self).has(v) <==> (old(self).has(v) || v == value as int),
    {
        let w = value / 64;
        let b = (value % 64) as u64;
        proof {
            lemma_bits_set(self.words@[w as int], b);
        }
        self.words[w] = self.words[w] | (1u64 << b);
        proof {
            assert forall|v: int|
                #![trigger final(self).has(v)]
                #![trigger old(self).has(v)]
                final(self).has(v) <==> (old(self).has(v) || v == value as int) by {
                if 0 <= v < MOVE_UNIVERSE && v / 64 != w as int {
                    assert(self.words@[v / 64] == old(self).words@[v / 64]);
                } else if 0 <= v < MOVE_UNIVERSE {
                    assert(v % 64 == b as int <==> v == value as int);
                }
            }
        }
    }

    /// Removes a move id from the set, if it is there.
    pub fn remove(&mut self, value: usize)
        requires
            old(self).inv(),
            value < MOVE_UNIVERSE,
        ensures
            final(self).inv(),
            forall|v: int|
                #![trigger final(self).has(v)]
                #![trigger old(self).has(v)]
                final(self).has(v) <==> (old(self).has(v) && v != value as int),
    {
        let w = value / 64;
        let b = (value % 64) as u64;
        proof {
            lemma_bits_clear(self.words@[w as int], b);
        }
        self.words[w] = self.words[w] & !(1u64 << b);
        proof {
            assert forall|v: int|
                #![trigger final(self).has(v)]
                #![trigger old(self).has(v)]
                final(self).has(v) <==> (old(self).has(v) && v != value as int) by {
                if 0 <= v < MOVE_UNIVERSE && v / 64 != w as int {
                    assert(self.words@[v / 64] == old(self).words@[v / 64]);
                } else if 0 <= v < MOVE_UNIVERSE {
                    assert(v % 64 == b as int <==> v == value as int);
                }
            }
        }
    }

    /// Returns a MoveSet containing every piece id `0..NUM_PIECES` (the swap
    /// sentinel is not a piece and is left out) in constant time.
    pub fn all() -> (r: MoveSet)
        ensures
            r.inv(),
            forall|v: int| #[trigger] r.has(v) <==> 0 <= v < NUM_PIECES,
    {
        let mut words: [u64; 21] = [0xFFFF_FFFF_FFFF_FFFF; 21];
        words[20] = 0x0FFF;
        let r = MoveSet { words };
        proof {
            lemma_bits_full();
            lemma_bits_mask(12);
            assert(0x0FFFu64 == !(0xFFFF_FFFF_FFFF_FFFFu64 << 12u64)) by (bit_vector);
            assert forall|v: int| #[trigger] r.has(v) <==> 0 <= v < NUM_PIECES by {
                if 0 <= v < MOVE_UNIVERSE {
                    if v / 64 < 20 {
                        assert(r.words@[v / 64] == 0xFFFF_FFFF_FFFF_FFFFu64);
                        assert(bit64(r.words@[v / 64], (v % 64) as u64));
                        assert(v < 1280);
                    } else {
                        assert(v / 64 == 20);
                        assert(r.words@[20] == 0x0FFFu64);
                        assert(bit64(r.words@[20], (v % 64) as u64) <==> v % 64 < 12);
                    }
                }
            }
        }
        r
    }

    /// Returns a MoveSet containing every `step_by`-th piece id, for
    /// efficient sampling of the move space.
    pub fn sampled(step_by: usize) -> (r: MoveSet)
        requires
            1 <= step_by,
            step_by + 1292 <= usize::MAX,
        ensures
            r.inv(),
            forall|v: int| #[trigger]
                r.has(v) <==> (0 <= v < NUM_PIECES && v % (step_by as int) == 0),
    {
        let mut r = MoveSet::empty();
        let mut i: usize = 0;
        while i < 1292
            invariant
                1 <= step_by,
                step_by + 1292 <= usize::MAX,
                i % step_by == 0,
                r.inv(),
                forall|v: int|
                    #![trigger r.has(v)]
                    r.has(v) <==> (0 <= v < i && v < 1292 && v % (step_by as int) == 0),
            decreases 1292 + step_by - i,
        {
            r.insert(i);
            proof {
                assert forall|v: int| #[trigger]
                    r.has(v) <==> (0 <= v < i + step_by && v < 1292 && v % (step_by as int)
                        == 0) by {
                    if i < v < i + step_by {
                        lemma_mod_between(v, i as int, step_by as int);
                    }
                }
                vstd::arithmetic::div_mod::lemma_mod_add_multiples_vanish(
                    i as int,
                    step_by as int,
                );
                assert((i + step_by) % (step_by as int) == 0);
            }
            i = i + step_by;
        }
        r
    }

    /// Whether the set has no elements.
    pub fn is_empty(&self) -> (r: bool)
        requires
            self.inv(),
        ensures
            r == forall|v: int| !#[trigger] self.has(v),
    {
        let mut i: usize = 0;
        let mut seen: bool = false;
        while i < 21
            invariant
                i <= 21,
                self.inv(),
                seen <==> exists|j: int| 0 <= j < i && self.words@[j] != 0,
            decreases 21 - i,
        {
            if self.words[i] != 0 {
                seen = true;
            }
            i = i + 1;
        }
        proof {
            if seen {
                let j = choose|j: int| 0 <= j < 21 && self.words@[j] != 0;
                lemma_bits_nonzero(self.words@[j]);
                let b = choose|b: u64| b < 64 && bit64(self.words@[j], b);
                if j < 20 {
                    assert(self.has(j * 64 + b));
                } else {
                    assert(b < 13);
                    assert(self.has(j * 64 + b));
                }
            } else {
                lemma_bits_zero();
                assert forall|v: int| !#[trigger] self.has(v) by {
                    if 0 <= v < MOVE_UNIVERSE {
                        assert(self.words@[v / 64] == 0);
                    }
                }
            }
        }
        !seen
    }

    /// The number of elements in the set.
    pub fn len(&self) -> (r: usize)
        ensures
            r == self.card(),
    {
        let mut count: usize = 0;
        let mut i: usize = 0;
        while i < 1293
            invariant
                i <= 1293,
                count == self.card_upto(i as int),
                count <= i,
            decreases 1293 - i,
        {
            if self.contains(i) {
                count = count + 1;
            }
            i = i + 1;
        }
        count
    }

    /// Inserts all elements of the other set into this one.
    pub fn union_inplace(&mut self, other: &Self)
        requires
            old(self).inv(),
            other.inv(),
        ensures
            final(self).inv(),
            forall|v: int|
                #![trigger final(self).has(v)]
                #![trigger old(self).has(v)]
                #![trigger other.has(v)]
                final(self).has(v) <==> (old(self).has(v) || other.has(v)),
    {
        let mut i: usize = 0;
        while i < 21
            invariant
                i <= 21,
                forall|j: int|
                    0 <= j < i ==> #[trigger] self.words@[j] == (old(self).words@[j]
                        | other.words@[j]),
                forall|j: int| i <= j < 21 ==> #[trigger] self.words@[j] == old(self).words@[j],
            decreases 21 - i,
        {
            self.words[i] = self.words[i] | other.words[i];
            i = i + 1;
        }
        proof {
            lemma_bits_or(old(self).words@[20], other.words@[20]);
            assert forall|v: int|
                #![trigger final(self).has(v)]
                #![trigger old(self).has(v)]
                #![trigger other.has(v)]
                final(self).has(v) <==> (old(self).has(v) || other.has(v)) by {
                if 0 <= v < MOVE_UNIVERSE {
                    lemma_bits_or(old(self).words@[v / 64], other.words@[v / 64]);
                }
            }
        }
    }

    /// Returns a new set consisting of the elements present in either set.
    pub fn union(&self, other: &Self) -> (r: Self)
        requires
            self.inv(),
            other.inv(),
        ensures
            r.inv(),
            forall|v: int|
                #![trigger r.has(v)]
                #![trigger self.has(v)]
                #![trigger other.has(v)]
                r.has(v) <==> (self.has(v) || other.has(v)),
    {
        let mut r = *self;
        r.union_inplace(other);
        r
    }

    /// Removes all elements from this set that are not in the other set.
    pub fn intersect_inplace(&mut self, other: &Self)
        requires
            old(self).inv(),
            other.inv(),
        ensures
            final(self).inv(),
            forall|v: int|
                #![trigger final(self).has(v)]
                #![trigger old(self).has(v)]
                #![trigger other.has(v)]
                final(self).has(v) <==> (old(self).has(v) && other.has(v)),
    {
        let mut i: usize = 0;
        while i < 21
            invariant
                i <= 21,
                forall|j: int|
                    0 <= j < i ==> #[trigger] self.words@[j] == (old(self).words@[j]
                        & other.words@[j]),
                forall|j: int| i <= j < 21 ==> #[trigger] self.words@[j] == old(self).words@[j],
            decreases 21 - i,
        {
            self.words[i] = self.words[i] & other.words[i];
            i = i + 1;
        }
        proof {
            lemma_bits_and(old(self).words@[20], other.words@[20]);
            assert forall|v: int|
                #![trigger final(self).has(v)]
                #![trigger old(self).has(v)]
                #![trigger other.has(v)]
                final(self).has(v) <==> (old(self).has(v) && other.has(v)) by {
                if 0 <= v < MOVE_UNIVERSE {
                    lemma_bits_and(old(self).words@[v / 64], other.words@[v / 64]);
                }
            }
        }
    }

    /// Returns a new set consisting of the elements present in both sets.
    pub fn intersect(&self, other: &Self) -> (r: Self)
        requires
            self.inv(),
            other.inv(),
        ensures
            r.inv(),
            forall|v: int|
                #![trigger r.has(v)]
                #![trigger self.has(v)]
                #![trigger other.has(v)]
                r.has(v) <==> (self.has(v) && other.has(v)),
    {
        let mut r = *self;
        r.intersect_inplace(other);
        r
    }

    /// Removes all elements of the other set from this one.
    pub fn difference_inplace(&mut self, other: &Self)
        requires
            old(self).inv(),
            other.inv(),
        ensures
            final(self).inv(),
            forall|v: int|
                #![trigger final(self).has(v)]
                #![trigger old(self).has(v)]
                #![trigger other.has(v)]
                final(self).has(v) <==> (old(self).has(v) && !other.has(v)),
    {
        let mut i: usize = 0;
        while i < 21
            invariant
                i <= 21,
                forall|j: int|
                    0 <= j < i ==> #[trigger] self.words@[j] == (old(self).words@[j]
                        & !other.words@[j]),
                forall|j: int| i <= j < 21 ==> #[trigger] self.words@[j] == old(self).words@[j],
            decreases 21 - i,
        {
            self.words[i] = self.words[i] & !other.words[i];
            i = i + 1;
        }
        proof {
            lemma_bits_diff(old(self).words@[20], other.words@[20]);
            assert forall|v: int|
                #![trigger final(self).has(v)]
                #![trigger old(self).has(v)]
                #![trigger other.has(v)]
                final(self).has(v) <==> (old(self).has(v) && !other.has(v)) by {
                if 0 <= v < MOVE_UNIVERSE {
                    lemma_bits_diff(old(self).words@[v / 64], other.words@[v / 64]);
                }
            }
        }
    }

    /// Returns a new set consisting of the elements of this set not in the other.
    pub fn difference(&self, other: &Self) -> (r: Self)
        requires
            self.inv(),
            other.inv(),
        ensures
            r.inv(),
            forall|v: int|
                #![trigger r.has(v)]
                #![trigger self.has(v)]
                #![trigger other.has(v)]
                r.has(v) <==> (self.has(v) && !other.has(v)),
    {
        let mut r = *self;
        r.difference_inplace(other);
        r
    }

    /// The elements of the set as move ids, in ascending order.
    pub fn to_vec(&self) -> (r: Vec<usize>)
        ensures
            r@.len() == self.card(),
            forall|k: int|
                #![trigger r@[k]]
                0 <= k < r@.len() ==> (r@[k] < MOVE_UNIVERSE && self.has(r@[k] as int)),
            forall|k1: int, k2: int| 0 <= k1 < k2 < r@.len() ==> r@[k1] < r@[k2],
            forall|v: int| #[trigger]
                self.has(v) ==> exists|k: int| 0 <= k < r@.len() && r@[k] == v,
    {
        let mut r: Vec<usize> = Vec::new();
        let mut i: usize = 0;
        while i < 1293
            invariant
                i <= 1293,
                r@.len() == self.card_upto(i as int),
                forall|k: int|
                    #![trigger r@[k]]
                    0 <= k < r@.len() ==> (r@[k] < i && self.has(r@[k] as int)),
                forall|k1: int, k2: int| 0 <= k1 < k2 < r@.len() ==> r@[k1] < r@[k2],
                forall|v: int|
                    0 <= v < i && #[trigger] self.has(v) ==> exists|k: int|
                        0 <= k < r@.len() && r@[k] == v,
            decreases 1293 - i,
        {
            let ghost prev = r@;
            if self.contains(i) {
                r.push(i);
                proof {
                    assert(r@ =~= prev.push(i));
                    assert forall|v: int| 0 <= v < i + 1 && #[trigger] self.has(v) implies exists|
                        k: int,
                    | 0 <= k < r@.len() && r@[k] == v by {
                        if v == i {
                            assert(r@[r@.len() - 1] == v);
                        } else {
                            let k = choose|k: int| 0 <= k < prev.len() && prev[k] == v;
                            assert(r@[k] == v);
                        }
                    }
                }
            } else {
                proof {
                    assert forall|v: int| 0 <= v < i + 1 && #[trigger] self.has(v) implies exists|
                        k: int,
                    | 0 <= k < r@.len() && r@[k] == v by {
                        let k = choose|k: int| 0 <= k < prev.len() && prev[k] == v;
                        assert(r@[k] == v);
                    }
                }
            }
            i = i + 1;
        }
        r
    }
}

impl Default for MoveSet {
    /// The empty set.
    fn default() -> (r: MoveSet)
        ensures
            r.inv(),
            forall|v: int| !#[trigger] r.has(v),
    {
        MoveSet::empty()
    }
}

impl MoveSet {
    /// The union of three sets.
    pub fn union_3(a: &MoveSet, b: &MoveSet, c: &MoveSet) -> (r: MoveSet)
        requires
            a.inv() && b.inv() && c.inv(),
        ensures
            r.inv(),
            forall|v: int|
                #![trigger r.has(v)]
                #![trigger a.has(v)]
                r.has(v) <==> (a.has(v) || b.has(v) || c.has(v)),
    {
        let r = a.union(b);
        r.union(c)
    }

    /// The union of four sets.
    pub fn union_4(a: &MoveSet, b: &MoveSet, c: &MoveSet, d: &MoveSet) -> (r: MoveSet)
        requires
            a.inv() && b.inv() && c.inv() && d.inv(),
        ensures
            r.inv(),
            forall|v: int|
                #![trigger r.has(v)]
                #![trigger a.has(v)]
                r.has(v) <==> (a.has(v) || b.has(v) || c.has(v) || d.has(v)),
    {
        let r = MoveSet::union_3(a, b, c);
        r.union(d)
    }

    /// The union of five sets.
    pub fn union_5(a: &MoveSet, b: &MoveSet, c: &MoveSet, d: &MoveSet, e: &MoveSet) -> (r: MoveSet)
        requires
            a.inv() && b.inv() && c.inv() && d.inv() && e.inv(),
        ensures
            r.inv(),
            forall|v: int|
                #![trigger r.has(v)]
                #![trigger a.has(v)]
                r.has(v) <==> (a.has(v) || b.has(v) || c.has(v) || d.has(v) || e.has(v)),
    {
        let r = MoveSet::union_4(a, b, c, d);
        r.union(e)
    }

    /// The union of six sets.
    pub fn union_6(
        a: &MoveSet,
        b: &MoveSet,
        c: &MoveSet,
        d: &MoveSet,
        e: &MoveSet,
        f: &MoveSet,
    ) -> (r: MoveSet)
        requires
            a.inv() && b.inv() && c.inv() && d.inv() && e.inv() && f.inv(),
        ensures
            r.inv(),
            forall|v: int|
                #![trigger r.has(v)]
                #![trigger a.has(v)]
                r.has(v) <==> (a.has(v) || b.has(v) || c.has(v) || d.has(v) || e.has(v) || f.has(
                    v,
                )),
    {
        let r = MoveSet::union_5(a, b, c, d, e);
        r.union(f)
    }

    /// The union of seven sets.
    pub fn union_7(
        a: &MoveSet,
        b: &MoveSet,
        c: &MoveSet,
        d: &MoveSet,
        e: &MoveSet,
        f: &MoveSet,
        g: &MoveSet,
    ) -> (r: MoveSet)
        requires
            a.inv() && b.inv() && c.inv() && d.inv() && e.inv() && f.inv() && g.inv(),
        ensures
            r.inv(),
            forall|v: int|
                #![trigger r.has(v)]
                #![trigger a.has(v)]
                r.has(v) <==> (a.has(v) || b.has(v) || c.has(v) || d.has(v) || e.has(v) || f.has(v)
                    || g.has(v)),
    {
        let r = MoveSet::union_6(a, b, c, d, e, f);
        r.union(g)
    }

    /// The union of eight sets.
    pub fn union_8(
        a: &MoveSet,
        b: &MoveSet,
        c: &MoveSet,
        d: &MoveSet,
        e: &MoveSet,
        f: &MoveSet,
        g: &MoveSet,
        h: &MoveSet,
    ) -> (r: MoveSet)
        requires
            a.inv() && b.inv() && c.inv() && d.inv() && e.inv() && f.inv() && g.inv() && h.inv(),
        ensures
            r.inv(),
            forall|v: int|
                #![trigger r.has(v)]
                #![trigger a.has(v)]
                r.has(v) <==> (a.has(v) || b.has(v) || c.has(v) || d.has(v) || e.has(v) || f.has(v)
                    || g.has(v) || h.has(v)),
    {
        let r = MoveSet::union_7(a, b, c, d, e, f, g);
        r.union(h)
    }

    /// The union of up to seven sets: the remainder of a block-of-eight scan.
    pub fn union_remainder(sets: &Vec<MoveSet>) -> (r: MoveSet)
        requires
            sets@.len() < 8,
            forall|k: int| 0 <= k < sets@.len() ==> (#[trigger] sets@[k]).inv(),
        ensures
            r.inv(),
            forall|v: int|
                #![trigger r.has(v)]
                r.has(v) <==> exists|k: int| 0 <= k < sets@.len() && (#[trigger] sets@[k]).has(v),
    {
        let mut r = MoveSet::empty();
        let mut idx: usize = 0;
        while idx < sets.len()
            invariant
                idx <= sets@.len(),
                r.inv(),
                forall|k: int| 0 <= k < sets@.len() ==> (#[trigger] sets@[k]).inv(),
                forall|v: int|
                    #![trigger r.has(v)]
                    r.has(v) <==> exists|k: int| 0 <= k < idx && (#[trigger] sets@[k]).has(v),
            decreases sets@.len() - idx,
        {
            let ghost prev = r;
            r.union_inplace(&sets[idx]);
            proof {
                assert forall|v: int| #[trigger]
                    r.has(v) <==> exists|k: int|
                        0 <= k < idx + 1 && (#[trigger] sets@[k]).has(v) by {
                    assert(r.has(v) <==> (prev.has(v) || sets@[idx as int].has(v)));
                    if r.has(v) && prev.has(v) {
                        let k = choose|k: int| 0 <= k < idx && (#[trigger] sets@[k]).has(v);
                        assert(0 <= k < idx + 1 && sets@[k].has(v));
                    }
                }
            }
            idx = idx + 1;
        }
        r
    }

    /// Union of an arbitrary collection of sets, taken in blocks of eight so
    /// that the block step vectorizes.
    pub fn union_many(sets: &Vec<MoveSet>) -> (r: MoveSet)
        requires
            forall|k: int| 0 <= k < sets@.len() ==> (#[trigger] sets@[k]).inv(),
        ensures
            r.inv(),
            forall|v: int|
                #![trigger r.has(v)]
                r.has(v) <==> exists|k: int| 0 <= k < sets@.len() && (#[trigger] sets@[k]).has(v),
    {
        let mut r = MoveSet::empty();
        let mut idx: usize = 0;
        while sets.len() - idx >= 8
            invariant
                idx <= sets@.len(),
                r.inv(),
                forall|k: int| 0 <= k < sets@.len() ==> (#[trigger] sets@[k]).inv(),
                forall|v: int|
                    #![trigger r.has(v)]
                    r.has(v) <==> exists|k: int| 0 <= k < idx && (#[trigger] sets@[k]).has(v),
            decreases sets@.len() - idx,
        {
            let ghost prev = r;
            let joined = MoveSet::union_8(
                &sets[idx],
                &sets[idx + 1],
                &sets[idx + 2],
                &sets[idx + 3],
                &sets[idx + 4],
                &sets[idx + 5],
                &sets[idx + 6],
                &sets[idx + 7],
            );
            r.union_inplace(&joined);
            proof {
                assert forall|v: int| #[trigger]
                    r.has(v) <==> exists|k: int|
                        0 <= k < idx + 8 && (#[trigger] sets@[k]).has(v) by {
                    assert(r.has(v) <==> (prev.has(v) || joined.has(v)));
                    assert(joined.has(v) <==> (sets@[idx as int].has(v) || sets@[idx + 1].has(v)
                        || sets@[idx + 2].has(v) || sets@[idx + 3].has(v) || sets@[idx + 4].has(v)
                        || sets@[idx + 5].has(v) || sets@[idx + 6].has(v) || sets@[idx + 7].has(
                        v,
                    )));
                    if r.has(v) && prev.has(v) {
                        let k = choose|k: int| 0 <= k < idx && (#[trigger] sets@[k]).has(v);
                        assert(0 <= k < idx + 8 && sets@[k].has(v));
                    }
                }
            }
            idx = idx + 8;
        }
        while idx < sets.len()
            invariant
                idx <= sets@.len(),
                r.inv(),
                forall|k: int| 0 <= k < sets@.len() ==> (#[trigger] sets@[k]).inv(),
                forall|v: int|
                    #![trigger r.has(v)]
                    r.has(v) <==> exists|k: int| 0 <= k < idx && (#[trigger] sets@[k]).has(v),
            decreases sets@.len() - idx,
        {
            let ghost prev = r;
            r.union_inplace(&sets[idx]);
            proof {
                assert forall|v: int| #[trigger]
                    r.has(v) <==> exists|k: int|
                        0 <= k < idx + 1 && (#[trigger] sets@[k]).has(v) by {
                    assert(r.has(v) <==> (prev.has(v) || sets@[idx as int].has(v)));
                    if r.has(v) && prev.has(v) {
                        let k = choose|k: int| 0 <= k < idx && (#[trigger] sets@[k]).has(v);
                        assert(0 <= k < idx + 1 && sets@[k].has(v));
                    }
                }
            }
            idx = idx + 1;
        }
        r
    }
}

} // verus!
