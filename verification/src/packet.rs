//! Framing of raw-socket payloads as IPv4 packets.
//!
//! A raw socket bypasses the stack's own IP layer, so the 20-octet header is
//! written here, field by field, through the stack's packet accessors.

use crate::addr::Ipv4Address;
use smoltcp::wire::Ipv4Packet;
use vstd::prelude::*;

verus! {

/// Length in octets of an IPv4 header without options.
pub const IPV4_HEADER_LEN: usize = 20;

/// Largest payload that fits one IPv4 packet behind a 20-octet header.
pub const IPV4_MAX_PAYLOAD: usize = 65515;

/// The header length in octets that the first octet of `packet` gives.
pub open spec fn header_len(packet: Seq<u8>) -> int {
    (packet[0] & 0x0f) * 4
}

/// The total length that the header of `packet` gives.
pub open spec fn total_len(packet: Seq<u8>) -> int {
    packet[2] * 256 + packet[3]
}

/// The version that the first octet of `packet` gives.
pub open spec fn version(packet: Seq<u8>) -> int {
    (packet[0] >> 4) as int
}

/// The sum of the 16-bit words of `s`, most significant octet first; an odd
/// last octet counts as the upper half of a word.
pub open spec fn word_sum(s: Seq<u8>) -> nat
    decreases s.len(),
{
    if s.len() == 0 {
        0
    } else if s.len() == 1 {
        (s[0] * 256) as nat
    } else {
        (s[0] * 256 + s[1] + word_sum(s.skip(2))) as nat
    }
}

/// A sum with its carries above 16 bits added back in, twice.
pub open spec fn fold_carries(sum: nat) -> nat {
    let once = sum / 0x10000 + sum % 0x10000;
    once / 0x10000 + once % 0x10000
}

/// The one's-complement sum of `s`, without the final complement. A header
/// that holds its own checksum sums to `0xffff`.
pub open spec fn ones_complement_sum(s: Seq<u8>) -> nat {
    fold_carries(word_sum(s))
}

/// `packet` with the version field set.
pub open spec fn with_version(packet: Seq<u8>, value: u8) -> Seq<u8> {
    packet.update(0, (packet[0] & !0xf0u8) | (value << 4))
}

/// `packet` with the header length field set to `value` octets.
pub open spec fn with_header_len(packet: Seq<u8>, value: u8) -> Seq<u8> {
    packet.update(0, (packet[0] & !0x0fu8) | ((value / 4) & 0x0f))
}

/// `packet` with the total length field set.
pub open spec fn with_total_len(packet: Seq<u8>, value: u16) -> Seq<u8> {
    packet.update(2, (value / 256) as u8).update(3, (value % 256) as u8)
}

/// `packet` with the protocol field set.
pub open spec fn with_protocol(packet: Seq<u8>, protocol: u8) -> Seq<u8> {
    packet.update(9, protocol)
}

/// `packet` with the four octets from `at` on set to `addr`.
pub open spec fn with_addr(packet: Seq<u8>, at: int, addr: Ipv4Address) -> Seq<u8> {
    packet.update(at, addr.0[0]).update(at + 1, addr.0[1]).update(at + 2, addr.0[2]).update(
        at + 3,
        addr.0[3],
    )
}

/// `packet` with its payload, the octets from the header length up to the
/// total length, replaced by `data`.
pub open spec fn with_payload(packet: Seq<u8>, data: Seq<u8>) -> Seq<u8> {
    packet.subrange(0, header_len(packet)) + data + packet.subrange(
        total_len(packet),
        packet.len() as int,
    )
}

/// `packet` with the checksum field set to `value`.
pub open spec fn with_checksum_field(packet: Seq<u8>, value: nat) -> Seq<u8> {
    packet.update(10, (value / 256) as u8).update(11, (value % 256) as u8)
}

/// `packet` with the checksum of its 20-octet header computed and filled in:
/// the complement of the header's sum taken with a zero checksum field.
pub open spec fn with_checksum(packet: Seq<u8>) -> Seq<u8> {
    let zeroed = with_checksum_field(packet, 0);
    with_checksum_field(
        zeroed,
        (0xffff - ones_complement_sum(zeroed.subrange(0, 20))) as nat,
    )
}

/// Sets the version field.
///
/// Wraps `Ipv4Packet::set_version`, which writes the upper half of the first
/// octet and panics on an empty buffer. Stated for versions that fit four
/// bits.
#[verifier::external_body]
pub(crate) fn ipv4_set_version(packet: &mut [u8], value: u8)
    requires
        old(packet)@.len() >= 1,
        value < 16,
    ensures
        final(packet)@ == with_version(old(packet)@, value),
{
    Ipv4Packet::new_unchecked(packet).set_version(value)
}

/// Sets the header length field to `value` octets.
///
/// Wraps `Ipv4Packet::set_header_len`, which writes a quarter of `value` to
/// the lower half of the first octet and panics on an empty buffer.
#[verifier::external_body]
pub(crate) fn ipv4_set_header_len(packet: &mut [u8], value: u8)
    requires
        old(packet)@.len() >= 1,
    ensures
        final(packet)@ == with_header_len(old(packet)@, value),
{
    Ipv4Packet::new_unchecked(packet).set_header_len(value)
}

/// Sets the total length field.
///
/// Wraps `Ipv4Packet::set_total_len`, which writes octets 2 and 3, most
/// significant first, and panics on a buffer that ends before them.
#[verifier::external_body]
pub(crate) fn ipv4_set_total_len(packet: &mut [u8], value: u16)
    requires
        old(packet)@.len() >= 4,
    ensures
        final(packet)@ == with_total_len(old(packet)@, value),
{
    Ipv4Packet::new_unchecked(packet).set_total_len(value)
}

/// Sets the protocol field.
///
/// Wraps `Ipv4Packet::set_protocol` on `IpProtocol::from`, which writes octet
/// 9 and panics on a buffer that ends before it.
#[verifier::external_body]
pub(crate) fn ipv4_set_protocol(packet: &mut [u8], protocol: u8)
    requires
        old(packet)@.len() >= 10,
    ensures
        final(packet)@ == with_protocol(old(packet)@, protocol),
{
    Ipv4Packet::new_unchecked(packet).set_protocol(smoltcp::wire::IpProtocol::from(protocol))
}

/// Sets the source address field.
///
/// Wraps `Ipv4Packet::set_src_addr`, which writes octets 12 to 15 and panics
/// on a buffer that ends before them.
#[verifier::external_body]
pub(crate) fn ipv4_set_src_addr(packet: &mut [u8], addr: Ipv4Address)
    requires
        old(packet)@.len() >= 16,
    ensures
        final(packet)@ == with_addr(old(packet)@, 12, addr),
{
    Ipv4Packet::new_unchecked(packet).set_src_addr(smoltcp::wire::Ipv4Address(addr.0))
}

/// Sets the destination address field.
///
/// Wraps `Ipv4Packet::set_dst_addr`, which writes octets 16 to 19 and panics
/// on a buffer that ends before them.
#[verifier::external_body]
pub(crate) fn ipv4_set_dst_addr(packet: &mut [u8], addr: Ipv4Address)
    requires
        old(packet)@.len() >= 20,
    ensures
        final(packet)@ == with_addr(old(packet)@, 16, addr),
{
    Ipv4Packet::new_unchecked(packet).set_dst_addr(smoltcp::wire::Ipv4Address(addr.0))
}

/// The source address field.
///
/// Wraps `Ipv4Packet::src_addr`, which reads octets 12 to 15 and panics on a
/// buffer that ends before them.
#[verifier::external_body]
pub(crate) fn ipv4_src_addr(packet: &[u8]) -> (addr: Ipv4Address)
    requires
        packet@.len() >= 16,
    ensures
        addr.0@ == packet@.subrange(12, 16),
{
    Ipv4Address(Ipv4Packet::new_unchecked(packet).src_addr().0)
}

/// Computes the header checksum and fills it in.
///
/// Wraps `Ipv4Packet::fill_checksum`, which zeroes octets 10 and 11, sums the
/// header as the length field of the first octet bounds it, and writes the
/// complement of the sum to octets 10 and 11. Stated for a header of 20
/// octets.
#[verifier::external_body]
pub(crate) fn ipv4_fill_checksum(packet: &mut [u8])
    requires
        old(packet)@.len() >= 20,
        header_len(old(packet)@) == 20,
    ensures
        final(packet)@ == with_checksum(old(packet)@),
{
    Ipv4Packet::new_unchecked(packet).fill_checksum()
}

/// Fills the payload, the octets from the header length up to the total
/// length, from `data`.
///
/// Wraps `Ipv4Packet::payload_mut` and the copy into the slice it hands out.
/// The first panics unless the header length is at most the total length and
/// the total length at most the buffer's, the second unless `data` is as long
/// as the payload.
#[verifier::external_body]
pub(crate) fn ipv4_set_payload(packet: &mut [u8], data: &[u8])
    requires
        header_len(old(packet)@) <= total_len(old(packet)@) <= old(packet)@.len(),
        data@.len() == total_len(old(packet)@) - header_len(old(packet)@),
    ensures
        final(packet)@ == with_payload(old(packet)@, data@),
{
    Ipv4Packet::new_unchecked(packet).payload_mut().copy_from_slice(data)
}

/// The 20-octet header of a raw-socket packet: version 4, header length 20,
/// total length `20 + payload_len`, no fragmentation fields, hop limit 0, the
/// given protocol, checksum and addresses.
pub open spec fn raw_header(
    src: Ipv4Address,
    dst: Ipv4Address,
    protocol: u8,
    payload_len: nat,
    checksum: nat,
) -> Seq<u8> {
    seq![
        0x45u8,
        0u8,
        ((IPV4_HEADER_LEN + payload_len) / 256) as u8,
        ((IPV4_HEADER_LEN + payload_len) % 256) as u8,
        0u8,
        0u8,
        0u8,
        0u8,
        0u8,
        protocol,
        (checksum / 256) as u8,
        (checksum % 256) as u8,
        src.0[0],
        src.0[1],
        src.0[2],
        src.0[3],
        dst.0[0],
        dst.0[1],
        dst.0[2],
        dst.0[3],
    ]
}

/// The checksum of that header: the complement of its sum taken with a zero
/// checksum field.
pub open spec fn raw_checksum(src: Ipv4Address, dst: Ipv4Address, protocol: u8, payload_len: nat) -> nat {
    (0xffff - ones_complement_sum(raw_header(src, dst, protocol, payload_len, 0))) as nat
}

/// The packet that a raw socket sends for `payload`: the header with its
/// checksum, then the payload.
pub open spec fn raw_packet(src: Ipv4Address, dst: Ipv4Address, protocol: u8, payload: Seq<u8>) -> Seq<u8> {
    raw_header(
        src,
        dst,
        protocol,
        payload.len(),
        raw_checksum(src, dst, protocol, payload.len()),
    ) + payload
}

/// The word sum of 20 octets, written out.
proof fn lemma_word_sum_20(h: Seq<u8>)
    requires
        h.len() == 20,
    ensures
        word_sum(h) == (h[0] + h[2] + h[4] + h[6] + h[8] + h[10] + h[12] + h[14] + h[16] + h[18])
            * 256 + h[1] + h[3] + h[5] + h[7] + h[9] + h[11] + h[13] + h[15] + h[17] + h[19],
{
    let s2 = h.skip(2);
    let s4 = s2.skip(2);
    let s6 = s4.skip(2);
    let s8 = s6.skip(2);
    let s10 = s8.skip(2);
    let s12 = s10.skip(2);
    let s14 = s12.skip(2);
    let s16 = s14.skip(2);
    let s18 = s16.skip(2);
    let s20 = s18.skip(2);
    assert(word_sum(s20) == 0);
    assert(word_sum(s18) == s18[0] * 256 + s18[1] + word_sum(s20));
    assert(word_sum(s16) == s16[0] * 256 + s16[1] + word_sum(s18));
    assert(word_sum(s14) == s14[0] * 256 + s14[1] + word_sum(s16));
    assert(word_sum(s12) == s12[0] * 256 + s12[1] + word_sum(s14));
    assert(word_sum(s10) == s10[0] * 256 + s10[1] + word_sum(s12));
    assert(word_sum(s8) == s8[0] * 256 + s8[1] + word_sum(s10));
    assert(word_sum(s6) == s6[0] * 256 + s6[1] + word_sum(s8));
    assert(word_sum(s4) == s4[0] * 256 + s4[1] + word_sum(s6));
    assert(word_sum(s2) == s2[0] * 256 + s2[1] + word_sum(s4));
    assert(word_sum(h) == h[0] * 256 + h[1] + word_sum(s2));
}

/// Folding keeps a sum below 2^20 within 16 bits, and a sum to which the
/// complement of its own folded value is added folds to `0xffff`.
proof fn lemma_fold_complement(sum: nat)
    requires
        sum <= 0xf_ffff,
    ensures
        fold_carries(sum) <= 0xffff,
        fold_carries((sum + (0xffff - fold_carries(sum))) as nat) == 0xffff,
{
}

/// The header fields written one after the other into zeroed octets give
/// the header with a zero checksum, followed by zeroes.
proof fn lemma_header_written(zero: Seq<u8>, src: Ipv4Address, dst: Ipv4Address, protocol: u8, len: nat)
    requires
        zero.len() == len + 20,
        len <= IPV4_MAX_PAYLOAD,
        forall|i: int| 0 <= i < zero.len() ==> zero[i] == 0u8,
    ensures
        ({
            let framed = with_addr(
                with_addr(
                    with_protocol(
                        with_total_len(
                            with_header_len(with_version(zero, 4), 20),
                            (20 + len) as u16,
                        ),
                        protocol,
                    ),
                    12,
                    src,
                ),
                16,
                dst,
            );
            &&& framed.len() == len + 20
            &&& framed.subrange(0, 20) == raw_header(src, dst, protocol, len, 0)
            &&& header_len(framed) == 20
            &&& total_len(framed) == 20 + len
        }),
{
    let v = with_version(zero, 4);
    let h = with_header_len(v, 20);
    assert(((0u8 & !0xf0u8) | (4u8 << 4)) == 0x40u8) by (bit_vector);
    assert(((0x40u8 & !0x0fu8) | ((20u8 / 4) & 0x0f)) == 0x45u8) by (bit_vector);
    assert((0x45u8 & 0x0f) * 4 == 20) by (bit_vector);
    assert(v[0] == 0x40u8);
    assert(h[0] == 0x45u8);
    let t = with_total_len(h, (20 + len) as u16);
    let p = with_protocol(t, protocol);
    let s = with_addr(p, 12, src);
    let d = with_addr(s, 16, dst);
    assert(d[0] == 0x45u8);
    assert(d[2] == ((20 + len) / 256) as u8);
    assert(d[3] == ((20 + len) % 256) as u8);
    assert(d.subrange(0, 20) =~= raw_header(src, dst, protocol, len, 0));
}

/// The payload written behind a header with a zero checksum, and the checksum
/// filled in, give the packet.
proof fn lemma_packet_written(framed: Seq<u8>, src: Ipv4Address, dst: Ipv4Address, protocol: u8, payload: Seq<u8>)
    requires
        payload.len() <= IPV4_MAX_PAYLOAD,
        framed.len() == payload.len() + 20,
        framed.subrange(0, 20) == raw_header(src, dst, protocol, payload.len(), 0),
        header_len(framed) == 20,
        total_len(framed) == 20 + payload.len(),
    ensures
        with_checksum(with_payload(framed, payload)) == raw_packet(src, dst, protocol, payload),
{
    let unsummed = raw_header(src, dst, protocol, payload.len(), 0);
    let filled = with_payload(framed, payload);
    assert(filled =~= unsummed + payload);
    let zeroed = with_checksum_field(filled, 0);
    assert(zeroed =~= filled);
    assert(zeroed.subrange(0, 20) =~= unsummed);
    lemma_word_sum_20(unsummed);
    lemma_fold_complement(word_sum(unsummed));
    let checksum = raw_checksum(src, dst, protocol, payload.len());
    assert(with_checksum_field(zeroed, checksum) =~= raw_header(
        src,
        dst,
        protocol,
        payload.len(),
        checksum,
    ) + payload);
}

/// Frames `payload` as an IPv4 packet from `src` to `dst`.
///
/// The header is written into a zeroed buffer through the stack's packet
/// accessors: version, header length, total length, protocol, addresses;
/// then the payload is copied in and the checksum filled.
pub fn build_raw_packet(src: Ipv4Address, dst: Ipv4Address, protocol: u8, payload: &[u8]) -> (packet: Vec<u8>)
    requires
        payload@.len() <= IPV4_MAX_PAYLOAD,
    ensures
        packet@ == raw_packet(src, dst, protocol, payload@),
{
    let len = payload.len();
    let mut buffer: Vec<u8> = vec![0u8; len + 20];
    let ghost zero = buffer@;
    assert(forall|i: int| 0 <= i < zero.len() ==> zero[i] == 0u8);
    proof {
        lemma_header_written(zero, src, dst, protocol, len as nat);
    }
    ipv4_set_version(buffer.as_mut_slice(), 4);
    ipv4_set_header_len(buffer.as_mut_slice(), 20);
    ipv4_set_total_len(buffer.as_mut_slice(), (20 + len) as u16);
    ipv4_set_protocol(buffer.as_mut_slice(), protocol);
    ipv4_set_src_addr(buffer.as_mut_slice(), src);
    ipv4_set_dst_addr(buffer.as_mut_slice(), dst);
    let ghost framed = buffer@;
    proof {
        lemma_packet_written(framed, src, dst, protocol, payload@);
    }
    ipv4_set_payload(buffer.as_mut_slice(), payload);
    ipv4_fill_checksum(buffer.as_mut_slice());
    buffer
}

/// What a raw-socket send puts on the wire for a payload of `N` octets: a
/// packet of `20 + N` octets whose header gives version 4, header length 20,
/// total length `20 + N` and the socket's protocol, followed by the payload,
/// and whose header checksum validates.
pub proof fn lemma_raw_packet_valid(src: Ipv4Address, dst: Ipv4Address, protocol: u8, payload: Seq<u8>)
    requires
        payload.len() <= IPV4_MAX_PAYLOAD,
    ensures
        ({
            let packet = raw_packet(src, dst, protocol, payload);
            &&& packet.len() == 20 + payload.len()
            &&& version(packet) == 4
            &&& header_len(packet) == 20
            &&& total_len(packet) == 20 + payload.len()
            &&& packet[9] == protocol
            &&& packet.subrange(12, 16) == src.0@
            &&& packet.subrange(16, 20) == dst.0@
            &&& packet.subrange(20, packet.len() as int) == payload
            &&& ones_complement_sum(packet.subrange(0, header_len(packet))) == 0xffff
        }),
{
    let packet = raw_packet(src, dst, protocol, payload);
    let unsummed = raw_header(src, dst, protocol, payload.len(), 0);
    let checksum = raw_checksum(src, dst, protocol, payload.len());
    let header = raw_header(src, dst, protocol, payload.len(), checksum);
    assert((0x45u8 >> 4) == 4u8) by (bit_vector);
    assert((0x45u8 & 0x0f) * 4 == 20) by (bit_vector);
    assert(packet.subrange(12, 16) =~= src.0@);
    assert(packet.subrange(16, 20) =~= dst.0@);
    assert(packet.subrange(20, packet.len() as int) =~= payload);
    assert(packet.subrange(0, 20) =~= header);
    lemma_word_sum_20(unsummed);
    lemma_word_sum_20(header);
    lemma_fold_complement(word_sum(unsummed));
    assert(word_sum(header) == word_sum(unsummed) + checksum);
}

} // verus!
