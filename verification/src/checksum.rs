//! The Internet checksum of RFC 1071 over a byte buffer.

use vstd::prelude::*;

verus! {

/// What the byte at index `i` contributes to its 16-bit big-endian word: the
/// high byte of a word sits at an even index, the low byte at an odd one.
pub open spec fn byte_weight(i: int) -> nat {
    if i % 2 == 0 {
        256
    } else {
        1
    }
}

/// The sum of the 16-bit big-endian words of `data` as a natural number. A
/// last byte without a partner counts as the high byte of a word whose low
/// byte is zero.
pub open spec fn word_sum(data: Seq<u8>) -> nat
    decreases data.len(),
{
    if data.len() == 0 {
        0
    } else {
        word_sum(data.drop_last()) + byte_weight(data.len() - 1) * (data.last() as nat)
    }
}

/// End-around carry: everything above the low 16 bits is added back into
/// them until nothing is left above.
pub open spec fn fold_carries(sum: nat) -> nat
    decreases sum,
{
    if sum < 0x1_0000 {
        sum
    } else {
        fold_carries(sum / 0x1_0000 + sum % 0x1_0000)
    }
}

/// The folded sum in closed form: zero stays zero, and any other sum lands
/// on the member of `1..=0xFFFF` that it is congruent to modulo `0xFFFF`.
pub open spec fn ones_complement(sum: nat) -> nat {
    if sum == 0 {
        0
    } else {
        ((sum - 1) % 0xFFFF + 1) as nat
    }
}

/// The Internet checksum of `data`: the one's complement of the folded sum
/// of its 16-bit words.
pub open spec fn internet_checksum(data: Seq<u8>) -> u16 {
    (0xFFFF - fold_carries(word_sum(data))) as u16
}

/// One round of end-around carry changes neither whether a sum is zero nor
/// its residue modulo `0xFFFF`.
pub proof fn lemma_carry_round_keeps_ones_complement(sum: nat)
    ensures
        ones_complement(sum / 0x1_0000 + sum % 0x1_0000) == ones_complement(sum),
{
    let q = sum / 0x1_0000;
    let r = sum % 0x1_0000;
    assert(sum == 0x1_0000 * q + r);
    assert(sum - 1 == (q + r - 1) + 0xFFFF * q);
    if sum != 0 {
        vstd::arithmetic::div_mod::lemma_mod_multiples_vanish(q as int, q + r - 1, 0xFFFF);
    }
}

/// Folding carries until none is left gives the closed form.
pub proof fn lemma_fold_carries_is_ones_complement(sum: nat)
    ensures
        fold_carries(sum) == ones_complement(sum),
        fold_carries(sum) <= 0xFFFF,
        fold_carries(sum) == 0 <==> sum == 0,
    decreases sum,
{
    if sum >= 0x1_0000 {
        lemma_carry_round_keeps_ones_complement(sum);
        lemma_fold_carries_is_ones_complement(sum / 0x1_0000 + sum % 0x1_0000);
    }
}

/// Two sums that fold to the same value still do after the same amount is
/// added to both.
pub proof fn lemma_ones_complement_add(a: nat, b: nat, extra: nat)
    requires
        ones_complement(a) == ones_complement(b),
    ensures
        ones_complement(a + extra) == ones_complement(b + extra),
{
    if a != 0 {
        assert(b != 0);
        vstd::arithmetic::div_mod::lemma_add_mod_noop(a - 1, extra as int, 0xFFFF);
        vstd::arithmetic::div_mod::lemma_add_mod_noop(b - 1, extra as int, 0xFFFF);
    }
}

/// Appending one byte adds that byte, weighted by its position, to the sum.
pub proof fn lemma_word_sum_push(data: Seq<u8>, byte: u8)
    ensures
        word_sum(data.push(byte)) == word_sum(data) + byte_weight(data.len() as int) * (byte as nat),
{
    assert(data.push(byte).drop_last() =~= data);
}

/// A buffer of odd length is summed as if a zero byte followed it: the
/// last byte is then the high byte of a full word. More generally, a zero
/// byte appended to any buffer leaves the checksum as it is.
pub proof fn lemma_zero_padding_keeps_checksum(data: Seq<u8>)
    ensures
        word_sum(data.push(0u8)) == word_sum(data),
        internet_checksum(data.push(0u8)) == internet_checksum(data),
{
    lemma_word_sum_push(data, 0u8);
}

/// Replacing one byte changes the sum by the difference of the two bytes,
/// weighted by the position.
pub proof fn lemma_word_sum_update(data: Seq<u8>, at: int, byte: u8)
    requires
        0 <= at < data.len(),
    ensures
        word_sum(data.update(at, byte)) + byte_weight(at) * (data[at] as nat) == word_sum(data)
            + byte_weight(at) * (byte as nat),
    decreases data.len(),
{
    let last = data.len() - 1;
    if at == last {
        assert(data.update(at, byte).drop_last() =~= data.drop_last());
    } else {
        lemma_word_sum_update(data.drop_last(), at, byte);
        assert(data.update(at, byte).drop_last() =~= data.drop_last().update(at, byte));
    }
}

/// One round of end-around carry on the 32-bit accumulator.
fn carry_round(sum: u32) -> (folded: u32)
    ensures
        folded == sum / 0x1_0000 + sum % 0x1_0000,
        ones_complement(folded as nat) == ones_complement(sum as nat),
{
    proof {
        assert((sum & 0xFFFF) == sum % 0x1_0000 && (sum >> 16) == sum / 0x1_0000) by (bit_vector);
        lemma_carry_round_keeps_ones_complement(sum as nat);
    }
    (sum & 0xFFFF) + (sum >> 16)
}

/// Computes the Internet checksum of `data`.
///
/// The words are summed in a 32-bit accumulator. Whenever another word
/// might not fit, the carries gathered so far are folded in early, which
/// leaves the result as it is, so buffers of any length are summed exactly.
pub fn compute_checksum(data: &[u8]) -> (result: u16)
    ensures
        result == internet_checksum(data@),
{
    let n = data.len();
    let mut sum: u32 = 0;
    let mut i: usize = 0;
    proof {
        assert(data@.take(0) =~= Seq::<u8>::empty());
    }
    while n - i >= 2
        invariant
            n == data@.len(),
            i <= n,
            i % 2 == 0,
            ones_complement(sum as nat) == ones_complement(word_sum(data@.take(i as int))),
        decreases n - i,
    {
        let high: u32 = data[i] as u32;
        let low: u32 = data[i + 1] as u32;
        let word: u32 = high * 256 + low;
        if sum > 0xFFFF_0000 {
            sum = carry_round(sum);
        }
        proof {
            let prefix = data@.take(i as int);
            lemma_word_sum_push(prefix, data@[i as int]);
            lemma_word_sum_push(prefix.push(data@[i as int]), data@[i + 1]);
            assert(data@.take(i + 2) =~= prefix.push(data@[i as int]).push(data@[i + 1]));
            lemma_ones_complement_add(sum as nat, word_sum(prefix), word as nat);
        }
        sum = sum + word;
        i = i + 2;
    }
    if i < n {
        let last: u32 = data[i] as u32;
        if sum > 0xFFFF_0000 {
            sum = carry_round(sum);
        }
        proof {
            let prefix = data@.take(i as int);
            lemma_word_sum_push(prefix, data@[i as int]);
            assert(data@ =~= prefix.push(data@[i as int]));
            lemma_ones_complement_add(sum as nat, word_sum(prefix), (last * 256) as nat);
        }
        sum = sum + last * 256;
    } else {
        proof {
            assert(data@.take(i as int) =~= data@);
        }
    }
    while (sum >> 16) > 0
        invariant
            ones_complement(sum as nat) == ones_complement(word_sum(data@)),
        decreases sum,
    {
        proof {
            assert((sum >> 16) == sum / 0x1_0000) by (bit_vector);
        }
        sum = carry_round(sum);
    }
    proof {
        assert((sum >> 16) == sum / 0x1_0000) by (bit_vector);
        lemma_fold_carries_is_ones_complement(word_sum(data@));
        lemma_fold_carries_is_ones_complement(sum as nat);
    }
    let folded: u16 = sum as u16;
    proof {
        assert(!folded == 0xFFFF - folded) by (bit_vector);
    }
    !folded
}

/// Tells whether `data`, checksum field included, sums to zero, which is
/// how a receiver accepts a buffer.
pub fn verify_checksum(data: &[u8]) -> (valid: bool)
    ensures
        valid == (internet_checksum(data@) == 0),
{
    compute_checksum(data) == 0
}

} // verus!
