use vstd::prelude::*;

verus! {

/// Whether bit `i` of the word is set. Only meaningful for `i < 64`.
pub open spec fn bit64(w: u64, i: u64) -> bool {
    (w >> i) & 1u64 == 1u64
}

/// Bitwise or unions the bits of two words.
pub proof fn lemma_bits_or(a: u64, b: u64)
    ensures
        forall|i: u64| i < 64 ==> (#[trigger] bit64(a | b, i) <==> (bit64(a, i) || bit64(b, i))),
{
    assert forall|i: u64| i < 64 implies (#[trigger] bit64(a | b, i) <==> (bit64(a, i) || bit64(
        b,
        i,
    ))) by {
        assert((((a | b) >> i) & 1u64 == 1u64) <==> (((a >> i) & 1u64 == 1u64) || ((b >> i) & 1u64
            == 1u64))) by (bit_vector)
            requires
                i < 64,
        ;
    }
}

/// Bitwise and intersects the bits of two words.
pub proof fn lemma_bits_and(a: u64, b: u64)
    ensures
        forall|i: u64| i < 64 ==> (#[trigger] bit64(a & b, i) <==> (bit64(a, i) && bit64(b, i))),
{
    assert forall|i: u64| i < 64 implies (#[trigger] bit64(a & b, i) <==> (bit64(a, i) && bit64(
        b,
        i,
    ))) by {
        assert((((a & b) >> i) & 1u64 == 1u64) <==> (((a >> i) & 1u64 == 1u64) && ((b >> i) & 1u64
            == 1u64))) by (bit_vector)
            requires
                i < 64,
        ;
    }
}

/// And-not subtracts the bits of the second word from the first.
pub proof fn lemma_bits_diff(a: u64, b: u64)
    ensures
        forall|i: u64| i < 64 ==> (#[trigger] bit64(a & !b, i) <==> (bit64(a, i) && !bit64(b, i))),
{
    assert forall|i: u64| i < 64 implies (#[trigger] bit64(a & !b, i) <==> (bit64(a, i) && !bit64(
        b,
        i,
    ))) by {
        assert((((a & !b) >> i) & 1u64 == 1u64) <==> (((a >> i) & 1u64 == 1u64) && !((b >> i) & 1u64
            == 1u64))) by (bit_vector)
            requires
                i < 64,
        ;
    }
}

/// Complementing under a low-bits mask flips exactly the bits under the mask.
pub proof fn lemma_bits_not_masked(a: u64, n: u64)
    requires
        n < 64,
    ensures
        forall|i: u64|
            i < 64 ==> (#[trigger] bit64((!a) & !(0xFFFF_FFFF_FFFF_FFFFu64 << n), i) <==> (i < n
                && !bit64(a, i))),
{
    assert forall|i: u64| i < 64 implies (#[trigger] bit64(
        (!a) & !(0xFFFF_FFFF_FFFF_FFFFu64 << n),
        i,
    ) <==> (i < n && !bit64(a, i))) by {
        assert(((((!a) & !(0xFFFF_FFFF_FFFF_FFFFu64 << n)) >> i) & 1u64 == 1u64) <==> (i < n && !((a
            >> i) & 1u64 == 1u64))) by (bit_vector)
            requires
                i < 64 && n < 64,
        ;
    }
}

/// Setting one bit leaves every other bit as it was.
pub proof fn lemma_bits_set(a: u64, j: u64)
    requires
        j < 64,
    ensures
        forall|i: u64|
            i < 64 ==> (#[trigger] bit64(a | (1u64 << j), i) <==> (i == j || bit64(a, i))),
{
    assert forall|i: u64| i < 64 implies (#[trigger] bit64(a | (1u64 << j), i) <==> (i == j
        || bit64(a, i))) by {
        assert((((a | (1u64 << j)) >> i) & 1u64 == 1u64) <==> (i == j || ((a >> i) & 1u64 == 1u64)))
            by (bit_vector)
            requires
                i < 64 && j < 64,
        ;
    }
}

/// Clearing one bit leaves every other bit as it was.
pub proof fn lemma_bits_clear(a: u64, j: u64)
    requires
        j < 64,
    ensures
        forall|i: u64|
            i < 64 ==> (#[trigger] bit64(a & !(1u64 << j), i) <==> (i != j && bit64(a, i))),
{
    assert forall|i: u64| i < 64 implies (#[trigger] bit64(a & !(1u64 << j), i) <==> (i != j
        && bit64(a, i))) by {
        assert((((a & !(1u64 << j)) >> i) & 1u64 == 1u64) <==> (i != j && ((a >> i) & 1u64
            == 1u64))) by (bit_vector)
            requires
                i < 64 && j < 64,
        ;
    }
}

/// The zero word has no bits set.
pub proof fn lemma_bits_zero()
    ensures
        forall|i: u64| i < 64 ==> !#[trigger] bit64(0u64, i),
{
    assert forall|i: u64| i < 64 implies !#[trigger] bit64(0u64, i) by {
        assert(!((0u64 >> i) & 1u64 == 1u64)) by (bit_vector)
            requires
                i < 64,
        ;
    }
}

/// The all-ones word has every bit set.
pub proof fn lemma_bits_full()
    ensures
        forall|i: u64| i < 64 ==> #[trigger] bit64(0xFFFF_FFFF_FFFF_FFFFu64, i),
{
    assert forall|i: u64| i < 64 implies #[trigger] bit64(0xFFFF_FFFF_FFFF_FFFFu64, i) by {
        assert((0xFFFF_FFFF_FFFF_FFFFu64 >> i) & 1u64 == 1u64) by (bit_vector)
            requires
                i < 64,
        ;
    }
}

/// A low-bits mask has exactly its low bits set.
pub proof fn lemma_bits_mask(n: u64)
    requires
        n < 64,
    ensures
        forall|i: u64|
            i < 64 ==> (#[trigger] bit64(!(0xFFFF_FFFF_FFFF_FFFFu64 << n), i) <==> i < n),
{
    assert forall|i: u64| i < 64 implies (#[trigger] bit64(!(0xFFFF_FFFF_FFFF_FFFFu64 << n), i)
        <==> i < n) by {
        assert((((!(0xFFFF_FFFF_FFFF_FFFFu64 << n)) >> i) & 1u64 == 1u64) <==> i < n)
            by (bit_vector)
            requires
                i < 64 && n < 64,
        ;
    }
}

/// A nonzero word has some bit set.
pub proof fn lemma_bits_nonzero(a: u64)
    requires
        a != 0,
    ensures
        exists|i: u64| i < 64 && #[trigger] bit64(a, i),
{
    let tz = vstd::std_specs::bits::u64_trailing_zeros(a);
    vstd::std_specs::bits::axiom_u64_trailing_zeros(a);
    assert(bit64(a, tz as u64));
}

} // verus!
