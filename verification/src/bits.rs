//! Facts about single bits of a 32-bit storage word.

use vstd::prelude::*;

verus! {

/// Whether bit `pos` of `word` is set. Meaningful for `pos < 32`.
pub open spec fn word_has_bit(word: u32, pos: u32) -> bool {
    (word >> pos) & 1 == 1
}

/// The zero word has no bit set.
pub proof fn lemma_zero_word(pos: u32)
    requires
        pos < 32,
    ensures
        !word_has_bit(0, pos),
{
    assert((0u32 >> pos) & 1 != 1) by (bit_vector)
        requires
            pos < 32,
    ;
}

/// Or-ing a one-bit mask into a word sets that bit and keeps all others.
pub proof fn lemma_or_mask(word: u32, set: u32, pos: u32)
    requires
        set < 32,
        pos < 32,
    ensures
        word_has_bit(word | (1u32 << set), pos) <==> (pos == set || word_has_bit(word, pos)),
{
    assert((((word | (1u32 << set)) >> pos) & 1 == 1) <==> (pos == set || (word >> pos) & 1 == 1))
        by (bit_vector)
        requires
            set < 32,
            pos < 32,
    ;
}

/// Masking a word with a one-bit mask leaves the mask exactly when the bit is set.
pub proof fn lemma_mask_test(word: u32, pos: u32)
    requires
        pos < 32,
    ensures
        (word & (1u32 << pos) == (1u32 << pos)) <==> word_has_bit(word, pos),
{
    assert((word & (1u32 << pos) == (1u32 << pos)) <==> ((word >> pos) & 1 == 1)) by (bit_vector)
        requires
            pos < 32,
    ;
}

/// Words whose bits `0..=top` agree are equal once the higher bits are shifted out.
proof fn lemma_low_bits_agree(a: u32, b: u32, top: u32)
    requires
        top < 32,
        forall|pos: u32| pos <= top ==> word_has_bit(a, pos) == word_has_bit(b, pos),
    ensures
        a << (31 - top) as u32 == b << (31 - top) as u32,
    decreases top,
{
    assert(word_has_bit(a, top) == word_has_bit(b, top));
    if top == 0 {
        assert(a << 31 == b << 31) by (bit_vector)
            requires
                ((a >> 0) & 1 == 1) == ((b >> 0) & 1 == 1),
        ;
    } else {
        let below = (top - 1) as u32;
        lemma_low_bits_agree(a, b, below);
        let up = (31 - top) as u32;
        assert(a << up == b << up) by (bit_vector)
            requires
                0 < top < 32,
                up == 31 - top,
                a << (up + 1) as u32 == b << (up + 1) as u32,
                ((a >> top) & 1 == 1) == ((b >> top) & 1 == 1),
        ;
    }
}

/// Two words with the same bits are the same word.
pub proof fn lemma_word_ext(a: u32, b: u32)
    requires
        forall|pos: u32| pos < 32 ==> word_has_bit(a, pos) == word_has_bit(b, pos),
    ensures
        a == b,
{
    lemma_low_bits_agree(a, b, 31);
    assert(a == b) by (bit_vector)
        requires
            a << 0 == b << 0,
    ;
}

} // verus!
