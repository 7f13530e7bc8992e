use vstd::prelude::*;
use crate::board::Board;
use crate::moveset::MoveSet;

verus! {

impl<'a> Board<'a> {
    /// Returns the set of legal moves in the current position, the swap
    /// sentinel included when the pie rule is available.
    pub fn valid_moves_set(&self) -> (r: MoveSet)
        requires
            self.wf(),
        ensures
            r.inv(),
            forall|m: int| #[trigger] r.has(m) <==> self.legal_play(m),
    {
        let mut r = MoveSet::empty();
        let mut m: usize = 0;
        while m < 1292
            invariant
                self.wf(),
                m <= 1292,
                r.inv(),
                forall|k: int| #[trigger] r.has(k) <==> (0 <= k < m && self.legal_play(k)),
            decreases 1292 - m,
        {
            if self.is_legal_piece(m) {
                r.insert(m);
            }
            m = m + 1;
        }
        if self.can_swap() {
            r.insert(1292);
        }
        r
    }

    /// Appends all legal moves in the current position, in ascending id
    /// order, the swap sentinel last when the pie rule is available.
    pub fn valid_moves(&self, moves: &mut Vec<usize>)
        requires
            self.wf(),
        ensures
            final(moves)@.len() >= old(moves)@.len(),
            forall|k: int|
                0 <= k < old(moves)@.len() ==> #[trigger] final(moves)@[k] == old(moves)@[k],
            forall|k: int|
                old(moves)@.len() <= k < final(moves)@.len() ==> self.legal_play(
                    #[trigger] final(moves)@[k] as int,
                ),
            forall|m: int|
                #![trigger self.legal_play(m)]
                self.legal_play(m) ==> exists|k: int|
                    old(moves)@.len() <= k < final(moves)@.len() && final(moves)@[k] == m,
            forall|k1: int, k2: int|
                old(moves)@.len() <= k1 < k2 < final(moves)@.len() ==> final(moves)@[k1]
                    < final(moves)@[k2],
            final(moves)@.len() - old(moves)@.len() == self.valid_move_count(),
    {
        let vm = self.valid_moves_set();
        let list = vm.to_vec();
        let ghost base = moves@;
        let mut k: usize = 0;
        while k < list.len()
            invariant
                moves@.len() == base.len() + k,
                k <= list@.len(),
                forall|j: int| 0 <= j < base.len() ==> #[trigger] moves@[j] == base[j],
                forall|j: int| 0 <= j < k ==> #[trigger] moves@[base.len() + j] == list@[j],
            decreases list@.len() - k,
        {
            let mv = list[k];
            moves.push(mv);
            k = k + 1;
        }
        proof {
            assert forall|j: int|
                base.len() <= j < moves@.len() implies self.legal_play(
                #[trigger] moves@[j] as int,
            ) by {
                let jj = j - base.len();
                assert(moves@[base.len() + jj] == list@[jj]);
                assert(vm.has(list@[jj] as int));
            }
            assert forall|m: int| #[trigger] self.legal_play(m) implies exists|k2: int|
                base.len() <= k2 < moves@.len() && moves@[k2] == m by {
                assert(vm.has(m));
                let k2 = choose|k2: int| 0 <= k2 < list@.len() && list@[k2] == m;
                assert(moves@[base.len() + k2] == m);
            }
            assert forall|k1: int, k2: int|
                base.len() <= k1 < k2 < moves@.len() implies moves@[k1] < moves@[k2] by {
                let j1 = k1 - base.len();
                let j2 = k2 - base.len();
                assert(moves@[base.len() + j1] == list@[j1]);
                assert(moves@[base.len() + j2] == list@[j2]);
            }
            assert(self.valid_move_count() == vm.card()) by {
                lemma_count_agrees(*self, vm, 1293);
            }
        }
    }

    /// How many of the move ids below `n` are legal.
    pub open spec fn valid_move_count_upto(self, n: int) -> int
        decreases n,
    {
        if n <= 0 {
            0
        } else {
            self.valid_move_count_upto(n - 1) + if self.legal_play(n - 1) {
                1int
            } else {
                0int
            }
        }
    }

    /// How many moves are legal in the position.
    pub open spec fn valid_move_count(self) -> int {
        self.valid_move_count_upto(1293)
    }

    /// Appends all legal moves; the engine-facing generator.
    pub fn compute_valid_moves(&self, moves: &mut Vec<usize>)
        requires
            self.wf(),
        ensures
            final(moves)@.len() - old(moves)@.len() == self.valid_move_count(),
            forall|k: int|
                0 <= k < old(moves)@.len() ==> #[trigger] final(moves)@[k] == old(moves)@[k],
            forall|k: int|
                old(moves)@.len() <= k < final(moves)@.len() ==> self.legal_play(
                    #[trigger] final(moves)@[k] as int,
                ),
            forall|m: int|
                #![trigger self.legal_play(m)]
                self.legal_play(m) ==> exists|k: int|
                    old(moves)@.len() <= k < final(moves)@.len() && final(moves)@[k] == m,
            forall|k1: int, k2: int|
                old(moves)@.len() <= k1 < k2 < final(moves)@.len() ==> final(moves)@[k1]
                    < final(moves)@[k2],
    {
        let ghost base = moves@;
        self.valid_moves(moves);
        proof {
            assert forall|m: int| #[trigger] self.legal_play(m) implies exists|k: int|
                base.len() <= k < moves@.len() && moves@[k] == m by {
                let k = choose|k: int| base.len() <= k < moves@.len() && moves@[k] == m;
                assert(base.len() <= k < moves@.len() && moves@[k] == m);
            }
        }
    }

    /// Whether any legal move exists in the position.
    pub fn any_valid_move(&self) -> (r: bool)
        requires
            self.wf(),
        ensures
            r == exists|m: int| #[trigger] self.legal_play(m),
    {
        let vm = self.valid_moves_set();
        let empty = vm.is_empty();
        proof {
            if !empty {
                let m = choose|m: int| #[trigger] vm.has(m);
                assert(self.legal_play(m));
            } else {
                assert forall|m: int| !#[trigger] self.legal_play(m) by {
                    assert(!vm.has(m));
                }
            }
        }
        !empty
    }

    /// Determines whether or not the state is terminal: no legal move is
    /// left, the swap included.
    pub fn is_terminal(&self) -> (r: bool)
        requires
            self.wf(),
        ensures
            r == !exists|m: int| #[trigger] self.legal_play(m),
    {
        !self.any_valid_move()
    }
}

/// A legal-move counter agrees with the cardinality of a set holding
/// exactly the legal moves.
proof fn lemma_count_agrees(b: Board, vm: MoveSet, n: int)
    requires
        0 <= n,
        forall|m: int| #[trigger] vm.has(m) <==> b.legal_play(m),
    ensures
        b.valid_move_count_upto(n) == vm.card_upto(n),
    decreases n,
{
    if n > 0 {
        lemma_count_agrees(b, vm, n - 1);
        assert(vm.has(n - 1) <==> b.legal_play(n - 1));
    }
}

} // verus!
