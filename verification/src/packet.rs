//! ICMP echo requests: the header layout, the checksum field, and the
//! builders.

use rand::Rng;
use vstd::prelude::*;

use crate::checksum::{
    compute_checksum, internet_checksum, lemma_fold_carries_is_ones_complement,
    lemma_word_sum_update, ones_complement, word_sum,
};

verus! {

/// The length of the ICMP echo header: type, code, checksum, identifier and
/// sequence number.
pub const HEADER_LEN: usize = 8;

/// The ICMP type of an echo request.
pub const ECHO_REQUEST_V4: u8 = 8;

/// The ICMPv6 type of an echo request.
pub const ECHO_REQUEST_V6: u8 = 128;

/// The address family of the probed host.
#[derive(Clone, Copy, Debug, PartialEq, Eq, Structural)]
pub enum AddressFamily {
    V4,
    V6,
}

impl AddressFamily {
    /// The type byte that an echo request of this family starts with.
    pub open spec fn spec_echo_request_type(self) -> u8 {
        match self {
            AddressFamily::V4 => ECHO_REQUEST_V4,
            AddressFamily::V6 => ECHO_REQUEST_V6,
        }
    }

    /// The type byte that an echo request of this family starts with.
    #[verifier::when_used_as_spec(spec_echo_request_type)]
    pub fn echo_request_type(self) -> (kind: u8)
        ensures
            kind == self.spec_echo_request_type(),
    {
        match self {
            AddressFamily::V4 => ECHO_REQUEST_V4,
            AddressFamily::V6 => ECHO_REQUEST_V6,
        }
    }
}

/// The echo header before its checksum is known: the family's type, code 0,
/// a zero checksum field, identifier 1 and sequence number 1.
pub open spec fn echo_header(family: AddressFamily) -> Seq<u8> {
    seq![family.spec_echo_request_type(), 0u8, 0u8, 0u8, 0u8, 1u8, 0u8, 1u8]
}

/// `data` with the two bytes of the checksum field, at offsets 2 and 3, set
/// to zero.
pub open spec fn checksum_zeroed(data: Seq<u8>) -> Seq<u8>
    recommends
        data.len() >= 4,
{
    data.update(2, 0u8).update(3, 0u8)
}

/// `data` with its checksum field holding, high byte first, the checksum of
/// the buffer taken with that field zeroed.
pub open spec fn checksum_filled(data: Seq<u8>) -> Seq<u8>
    recommends
        data.len() >= 4,
{
    let sum = internet_checksum(checksum_zeroed(data));
    data.update(2, (sum / 256) as u8).update(3, (sum % 256) as u8)
}

/// The echo request of `family` that carries `payload`: header, then
/// payload, with the checksum of the whole in the checksum field.
pub open spec fn echo_request(family: AddressFamily, payload: Seq<u8>) -> Seq<u8> {
    checksum_filled(echo_header(family) + payload)
}

/// What a packet carries behind its header.
pub open spec fn payload_of(packet: Seq<u8>) -> Seq<u8>
    recommends
        packet.len() >= HEADER_LEN,
{
    packet.skip(8)
}

/// A buffer whose checksum field was filled sums to zero: for every buffer
/// long enough to hold the field, the checksum of `checksum_filled(data)`
/// is `0`.
pub proof fn lemma_filled_checksum_is_zero(data: Seq<u8>)
    requires
        data.len() >= 4,
    ensures
        internet_checksum(checksum_filled(data)) == 0,
{
    let zeroed = checksum_zeroed(data);
    let base = word_sum(zeroed);
    let sum = internet_checksum(zeroed);
    let hi = (sum / 256) as u8;
    let lo = (sum % 256) as u8;
    let filled = checksum_filled(data);
    lemma_fold_carries_is_ones_complement(base);
    assert(sum == 0xFFFF - ones_complement(base));
    assert(hi as nat * 256 + lo as nat == sum);

    assert(filled =~= zeroed.update(2, hi).update(3, lo));
    lemma_word_sum_update(zeroed, 2, hi);
    lemma_word_sum_update(zeroed.update(2, hi), 3, lo);
    assert(zeroed[2] == 0 && zeroed[3] == 0);
    assert(word_sum(filled) == base + sum);

    lemma_fold_carries_is_ones_complement(base + sum as nat);
    if base != 0 {
        let k = (base - 1) / 0xFFFF;
        assert(base - 1 == 0xFFFF * k + (base - 1) % 0xFFFF);
        assert(base + sum - 1 == 0xFFFE + 0xFFFF * k);
        vstd::arithmetic::div_mod::lemma_mod_multiples_vanish(k, 0xFFFE, 0xFFFF);
    }
}

/// Filling the checksum field looks at nothing in that field: whatever it
/// held before, the result is the same, so filling a filled buffer again
/// reproduces its two checksum bytes.
pub proof fn lemma_checksum_filled_ignores_field(data: Seq<u8>, hi: u8, lo: u8)
    requires
        data.len() >= 4,
    ensures
        checksum_filled(data.update(2, hi).update(3, lo)) == checksum_filled(data),
        checksum_filled(checksum_filled(data)) == checksum_filled(data),
{
    let other = data.update(2, hi).update(3, lo);
    assert(checksum_zeroed(other) =~= checksum_zeroed(data));
    assert(checksum_filled(other) =~= checksum_filled(data));
    let filled = checksum_filled(data);
    assert(checksum_zeroed(filled) =~= checksum_zeroed(data));
    assert(checksum_filled(filled) =~= filled);
}

/// Recomputes the checksum of `packet` in place: zeroes the checksum field,
/// sums the whole buffer, and writes the sum into the field, high byte
/// first.
pub fn fill_checksum(packet: &mut Vec<u8>)
    requires
        old(packet)@.len() >= 4,
    ensures
        final(packet)@ == checksum_filled(old(packet)@),
        internet_checksum(final(packet)@) == 0,
{
    packet[2] = 0;
    packet[3] = 0;
    let sum = compute_checksum(packet.as_slice());
    proof {
        assert((sum >> 8) == sum / 256 && (sum & 0xFF) == sum % 256) by (bit_vector);
        lemma_filled_checksum_is_zero(old(packet)@);
    }
    packet[2] = (sum >> 8) as u8;
    packet[3] = (sum & 0xFF) as u8;
    assert(packet@ =~= checksum_filled(old(packet)@));
}

/// Builds the echo request of `family` that carries exactly `payload`.
pub fn echo_request_with_payload(family: AddressFamily, payload: &[u8]) -> (packet: Vec<u8>)
    ensures
        packet@ == echo_request(family, payload@),
        packet@.len() == HEADER_LEN + payload@.len(),
        internet_checksum(packet@) == 0,
{
    let mut packet: Vec<u8> = Vec::new();
    packet.push(family.echo_request_type());
    packet.push(0);
    packet.push(0);
    packet.push(0);
    packet.push(0);
    packet.push(1);
    packet.push(0);
    packet.push(1);
    assert(packet@ =~= echo_header(family));
    let mut i: usize = 0;
    while i < payload.len()
        invariant
            i <= payload@.len(),
            packet@ =~= echo_header(family) + payload@.take(i as int),
        decreases payload@.len() - i,
    {
        packet.push(payload[i]);
        i = i + 1;
    }
    assert(payload@.take(i as int) =~= payload@);
    fill_checksum(&mut packet);
    packet
}

/// Overwrites `buffer` from index `start` to its end with random bytes, by
/// `Rng::fill` of the `rand` crate on the generator that `rand::thread_rng`
/// hands out.
///
/// Trusted: the call writes only into the slice it is given, so the length
/// of `buffer` and its bytes before `start` stay as they were. Nothing is
/// claimed of the bytes written.
#[verifier::external_body]
fn fill_random(buffer: &mut Vec<u8>, start: usize)
    requires
        start <= old(buffer)@.len(),
    ensures
        final(buffer)@.len() == old(buffer)@.len(),
        final(buffer)@.take(start as int) == old(buffer)@.take(start as int),
{
    rand::thread_rng().fill(&mut buffer[start..]);
}

/// Builds an echo request of `family` with `payload_size` random bytes of
/// payload.
///
/// The payload is filler: nothing is promised of its bytes. Whatever they
/// are, the packet is the echo request that carries them, so its header is
/// the family's and its checksum field holds the checksum of the packet
/// taken with that field zeroed.
pub fn create_icmp_packet(payload_size: usize, family: AddressFamily) -> (packet: Vec<u8>)
    requires
        HEADER_LEN + payload_size <= usize::MAX,
    ensures
        packet@.len() == HEADER_LEN + payload_size,
        packet@ == echo_request(family, payload_of(packet@)),
        packet@[0] == family.spec_echo_request_type(),
        packet@[1] == 0,
        packet@.subrange(4, 8) == seq![0u8, 1u8, 0u8, 1u8],
        checksum_filled(packet@) == packet@,
        internet_checksum(packet@) == 0,
{
    let mut packet: Vec<u8> = vec![0u8; HEADER_LEN + payload_size];
    packet[0] = family.echo_request_type();
    packet[5] = 1;
    packet[7] = 1;
    assert(packet@.take(8) =~= echo_header(family));
    fill_random(&mut packet, HEADER_LEN);
    let ghost filler = packet@;
    assert(filler =~= echo_header(family) + payload_of(filler)) by {
        assert(filler.take(8) == echo_header(family));
        assert(filler =~= filler.take(8) + filler.skip(8));
    }
    fill_checksum(&mut packet);
    proof {
        assert(payload_of(packet@) =~= payload_of(filler));
        lemma_checksum_filled_ignores_field(filler, 0, 0);
        assert(packet@.subrange(4, 8) =~= seq![0u8, 1u8, 0u8, 1u8]);
    }
    packet
}

} // verus!
