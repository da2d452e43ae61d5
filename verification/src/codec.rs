//! Byte-level codec for ICMP echo packets, both address families.
//!
//! Encoding writes the 8-byte ICMP echo header (type, code, checksum,
//! identifier, sequence) into a caller-supplied buffer and installs the
//! standard Internet checksum. Decoding strips the kernel-prepended IPv4
//! header when present (raw ICMPv6 sockets deliver no IP header), checks
//! the echo-reply type and code for the family, and extracts the identifier
//! and sequence number.

use vstd::arithmetic::div_mod::{
    lemma_fundamental_div_mod, lemma_mod_multiples_vanish, lemma_small_mod,
};
use vstd::prelude::*;

verus! {

/// Wire constants of one ICMP family: the echo request and echo reply
/// type/code pairs, and whether raw-socket delivery prepends an IPv4 header.
pub struct ProtoTypeConsts {
    pub is_v4: bool,
    pub echo_request_type: u8,
    pub echo_request_code: u8,
    pub echo_reply_type: u8,
    pub echo_reply_code: u8,
}

/// The ICMPv4 family: echo request type 8, echo reply type 0, both code 0.
pub open spec fn icmpv4_consts() -> ProtoTypeConsts {
    ProtoTypeConsts {
        is_v4: true,
        echo_request_type: 8,
        echo_request_code: 0,
        echo_reply_type: 0,
        echo_reply_code: 0,
    }
}

/// The ICMPv6 family: echo request type 128, echo reply type 129, both
/// code 0; raw delivery carries no IP header.
pub open spec fn icmpv6_consts() -> ProtoTypeConsts {
    ProtoTypeConsts {
        is_v4: false,
        echo_request_type: 128,
        echo_request_code: 0,
        echo_reply_type: 129,
        echo_reply_code: 0,
    }
}

impl ProtoTypeConsts {
    /// Constants for ICMPv4.
    pub fn icmpv4() -> (r: ProtoTypeConsts)
        ensures
            r == icmpv4_consts(),
    {
        ProtoTypeConsts {
            is_v4: true,
            echo_request_type: 8,
            echo_request_code: 0,
            echo_reply_type: 0,
            echo_reply_code: 0,
        }
    }

    /// Constants for ICMPv6.
    pub fn icmpv6() -> (r: ProtoTypeConsts)
        ensures
            r == icmpv6_consts(),
    {
        ProtoTypeConsts {
            is_v4: false,
            echo_request_type: 128,
            echo_request_code: 0,
            echo_reply_type: 129,
            echo_reply_code: 0,
        }
    }
}

/// High byte of a 16-bit value stored big-endian.
pub open spec fn be16_hi(x: u16) -> u8 {
    (x / 256) as u8
}

/// Low byte of a 16-bit value stored big-endian.
pub open spec fn be16_lo(x: u16) -> u8 {
    (x % 256) as u8
}

/// The 16-bit big-endian value held at bytes `i`, `i + 1`.
pub open spec fn be16_at(b: Seq<u8>, i: int) -> u16
    recommends
        0 <= i,
        i + 1 < b.len(),
{
    (b[i] * 256 + b[i + 1]) as u16
}

/// The `i`-th 16-bit big-endian word of the packet; an odd trailing byte is
/// padded with zero.
pub open spec fn word_at(b: Seq<u8>, i: int) -> int
    recommends
        0 <= i,
        2 * i < b.len(),
{
    if 2 * i + 1 < b.len() {
        b[2 * i] * 256 + b[2 * i + 1]
    } else {
        b[2 * i] * 256
    }
}

/// How many 16-bit words a packet of `n` bytes has.
pub open spec fn num_words(n: int) -> int {
    (n + 1) / 2
}

/// Sum of the first `k` 16-bit words.
pub open spec fn words_sum(b: Seq<u8>, k: int) -> int
    decreases k,
{
    if k <= 0 {
        0
    } else {
        words_sum(b, k - 1) + word_at(b, k - 1)
    }
}

/// Sum of every 16-bit word of the packet.
pub open spec fn packet_sum(b: Seq<u8>) -> int {
    words_sum(b, num_words(b.len() as int))
}

/// End-around carry fold: add the carry above 16 bits back in until none is
/// left.
pub open spec fn fold_carries(s: int) -> int
    decreases s,
{
    if s < 0x10000 {
        s
    } else {
        fold_carries(s % 0x10000 + s / 0x10000)
    }
}

/// The packet with its checksum field (bytes 2, 3) cleared.
pub open spec fn zero_checksum_field(b: Seq<u8>) -> Seq<u8> {
    b.update(2, 0u8).update(3, 0u8)
}

/// The Internet checksum of the packet: the one's complement of the folded
/// word sum, computed with the checksum field cleared.
pub open spec fn checksum_of(b: Seq<u8>) -> int
    recommends
        4 <= b.len(),
{
    0xffff - fold_carries(packet_sum(zero_checksum_field(b)))
}

/// The packet with its checksum installed big-endian at bytes 2, 3.
pub open spec fn with_checksum(b: Seq<u8>) -> Seq<u8>
    recommends
        4 <= b.len(),
{
    b.update(2, (checksum_of(b) / 256) as u8).update(3, (checksum_of(b) % 256) as u8)
}

/// The buffer after the echo header fields (all but the checksum) are
/// written: type, code, and big-endian identifier and sequence.
pub open spec fn header_written(proto: ProtoTypeConsts, b: Seq<u8>, ident: u16, seq: u16) -> Seq<
    u8,
> {
    b.update(0, proto.echo_request_type).update(1, proto.echo_request_code).update(
        4,
        be16_hi(ident),
    ).update(5, be16_lo(ident)).update(6, be16_hi(seq)).update(7, be16_lo(seq))
}

/// The fully encoded echo request: header fields written, payload bytes
/// (8 and up) left as they were, checksum installed.
pub open spec fn encode_spec(proto: ProtoTypeConsts, b: Seq<u8>, ident: u16, seq: u16) -> Seq<u8> {
    with_checksum(header_written(proto, b, ident, seq))
}

/// Clear bytes 2, 3 and store the Internet checksum of the result there,
/// big-endian.
pub fn write_checksum(buffer: &mut [u8])
    requires
        4 <= old(buffer)@.len() <= 0xffff,
    ensures
        final(buffer)@ == with_checksum(old(buffer)@),
{
    buffer[2] = 0;
    buffer[3] = 0;
    let ghost z: Seq<u8> = buffer@;
    let n: usize = buffer.len();
    let mut sum: u32 = 0;
    let mut i: usize = 0;
    while i < n
        invariant
            buffer@ == z,
            z == zero_checksum_field(old(buffer)@),
            n == z.len(),
            4 <= n <= 0xffff,
            i % 2 == 0,
            i <= n + 1,
            sum as int == words_sum(z, i as int / 2),
            sum as int <= 0xffff * (i as int / 2),
        decreases n + 1 - i,
    {
        let mut part: u32 = (buffer[i] as u32) * 256;
        if i + 1 < n {
            part = part + (buffer[i + 1] as u32);
        }
        sum = sum + part;
        i = i + 2;
    }
    proof {
        assert(i as int / 2 == num_words(n as int));
        assert(sum as int == packet_sum(z));
    }
    let ghost total: int = sum as int;
    while sum >= 0x10000
        invariant
            fold_carries(sum as int) == fold_carries(total),
        decreases sum,
    {
        sum = sum % 0x10000 + sum / 0x10000;
    }
    let csum: u16 = (0xffffu32 - sum) as u16;
    buffer[2] = (csum / 256) as u8;
    buffer[3] = (csum % 256) as u8;
    proof {
        assert(csum as int == checksum_of(old(buffer)@));
        assert(buffer@ =~= with_checksum(old(buffer)@));
    }
}

/// Write an ICMP echo request for the given family into `buff`: type and
/// code at bytes 0, 1, identifier and sequence big-endian at bytes 4..8,
/// checksum over the whole buffer at bytes 2, 3. Payload bytes (8 and up)
/// are sent as they already stand in the buffer.
pub fn encode(proto: &ProtoTypeConsts, buff: &mut [u8], ident: u16, seq: u16)
    requires
        8 <= old(buff)@.len() <= 0xffff,
    ensures
        final(buff)@ == encode_spec(*proto, old(buff)@, ident, seq),
{
    buff[0] = proto.echo_request_type;
    buff[1] = proto.echo_request_code;
    buff[4] = (ident / 256) as u8;
    buff[5] = (ident % 256) as u8;
    buff[6] = (seq / 256) as u8;
    buff[7] = (seq % 256) as u8;
    proof {
        assert(buff@ =~= header_written(*proto, old(buff)@, ident, seq));
    }
    write_checksum(buff);
}

/// The first `k` words sum to something between 0 and `0xffff` per word.
pub proof fn lemma_words_sum_bounds(b: Seq<u8>, k: int)
    requires
        0 <= k,
        2 * k <= b.len() + 1,
    ensures
        0 <= words_sum(b, k) <= 0xffff * k,
    decreases k,
{
    if k > 0 {
        lemma_words_sum_bounds(b, k - 1);
    }
}

/// Folding carries keeps the value in `[0, 0xffff]` and never increases it.
pub proof fn lemma_fold_carries_bounds(s: int)
    requires
        0 <= s,
    ensures
        0 <= fold_carries(s) <= s,
        fold_carries(s) <= 0xffff,
    decreases s,
{
    if s >= 0x10000 {
        lemma_fold_carries_bounds(s % 0x10000 + s / 0x10000);
    }
}

/// Folding carries preserves the value modulo `0xffff` (one's-complement
/// arithmetic).
pub proof fn lemma_fold_carries_mod(s: int)
    requires
        0 <= s,
    ensures
        fold_carries(s) % 0xffff == s % 0xffff,
    decreases s,
{
    if s >= 0x10000 {
        let q = s / 0x10000;
        let r = s % 0x10000;
        lemma_fundamental_div_mod(s, 0x10000);
        assert(s == 0xffff * q + (q + r));
        lemma_mod_multiples_vanish(q, q + r, 0xffff);
        lemma_fold_carries_mod(r + q);
    }
}

/// Folding carries of a positive value stays positive.
pub proof fn lemma_fold_carries_pos(s: int)
    requires
        0 < s,
    ensures
        0 < fold_carries(s),
    decreases s,
{
    if s >= 0x10000 {
        lemma_fold_carries_pos(s % 0x10000 + s / 0x10000);
    }
}

/// If two equally long packets differ only within word `j`, their word sums
/// differ exactly by that word.
pub proof fn lemma_words_sum_two_changed(b1: Seq<u8>, b2: Seq<u8>, j: int, k: int)
    requires
        b1.len() == b2.len(),
        0 <= j,
        0 <= k <= num_words(b1.len() as int),
        forall|i: int| 0 <= i < b1.len() && i != 2 * j && i != 2 * j + 1 ==> b1[i] == b2[i],
    ensures
        k <= j ==> words_sum(b2, k) == words_sum(b1, k),
        k > j ==> words_sum(b2, k) == words_sum(b1, k) - word_at(b1, j) + word_at(b2, j),
    decreases k,
{
    if k > 0 {
        lemma_words_sum_two_changed(b1, b2, j, k - 1);
        if k - 1 != j {
            assert(b1[2 * (k - 1)] == b2[2 * (k - 1)]);
            if 2 * (k - 1) + 1 < b1.len() {
                assert(b1[2 * (k - 1) + 1] == b2[2 * (k - 1) + 1]);
            }
            assert(word_at(b2, k - 1) == word_at(b1, k - 1));
        }
    }
}

/// LAW (checksum round trip). The checksum field of an encoded packet holds
/// the one's complement of the folded sum of all the other words, and
/// recomputing the folded word sum over the full encoded packet — checksum
/// field included — yields exactly `0xffff`.
pub proof fn lemma_encoded_checksum(proto: ProtoTypeConsts, b: Seq<u8>, ident: u16, seq: u16)
    requires
        8 <= b.len() <= 0xffff,
    ensures
        ({
            let e = encode_spec(proto, b, ident, seq);
            be16_at(e, 2) == 0xffff - fold_carries(packet_sum(zero_checksum_field(e)))
                && fold_carries(packet_sum(e)) == 0xffff
        }),
{
    let h = header_written(proto, b, ident, seq);
    let z = zero_checksum_field(h);
    let e = with_checksum(h);
    let s = packet_sum(z);
    let k = num_words(z.len() as int);
    lemma_words_sum_bounds(z, k);
    let f = fold_carries(s);
    lemma_fold_carries_bounds(s);
    lemma_fold_carries_mod(s);
    let c = checksum_of(h);
    assert(0 <= c <= 0xffff);
    assert(e[2] == (c / 256) as u8 && e[3] == (c % 256) as u8);
    lemma_fundamental_div_mod(c, 256);
    assert(word_at(e, 1) == c);
    assert(word_at(z, 1) == 0);
    assert(zero_checksum_field(e) =~= z);
    assert(forall|i: int| 0 <= i < z.len() && i != 2 && i != 3 ==> z[i] == e[i]);
    lemma_words_sum_two_changed(z, e, 1, k);
    let t = packet_sum(e);
    assert(t == s + c);
    assert(be16_at(e, 2) == c);
    // t is a positive multiple of 0xffff, so its fold is exactly 0xffff.
    lemma_fundamental_div_mod(s, 0xffff);
    lemma_fundamental_div_mod(f, 0xffff);
    let qs = s / 0xffff;
    let qf = f / 0xffff;
    assert(t == 0xffff * (qs - qf + 1));
    lemma_mod_multiples_vanish(qs - qf + 1, 0, 0xffff);
    assert(t % 0xffff == 0);
    lemma_fold_carries_mod(t);
    lemma_fold_carries_bounds(t);
    lemma_fold_carries_pos(t);
    let ft = fold_carries(t);
    if ft < 0xffff {
        lemma_small_mod(ft as nat, 0xffff as nat);
    }
    assert(ft == 0xffff);
}

/// Why a buffer failed to decode at all (as opposed to holding unrelated
/// ICMP traffic, which is a mismatch, not an error).
#[derive(Clone, Copy, Debug, PartialEq, Eq, Structural)]
pub enum DecodeError {
    /// Shorter than the minimum framing: 20 bytes for IPv4 delivery, 8
    /// bytes of ICMP after the skipped header.
    TooShort,
    /// IPv4 delivery whose leading version nibble is not 4.
    BadIpVersion,
}

/// A decoded ICMP echo reply.
#[derive(Clone, Copy, Debug, PartialEq, Eq, Structural)]
pub struct IcmpEchoReply {
    pub type_: u8,
    pub code: u8,
    pub ident: u16,
    pub seq: u16,
}

/// What decoding a received datagram yields: an error for unparseable
/// input, `None` for well-formed but unrelated ICMP traffic, or the reply.
pub open spec fn parse_echo_reply(proto: ProtoTypeConsts, b: Seq<u8>) -> Result<
    Option<IcmpEchoReply>,
    DecodeError,
> {
    if proto.is_v4 && b.len() < 20 {
        Err(DecodeError::TooShort)
    } else if !proto.is_v4 && b.len() < 8 {
        Err(DecodeError::TooShort)
    } else if proto.is_v4 && b[0] / 16 != 4 {
        Err(DecodeError::BadIpVersion)
    } else {
        let h: int = if proto.is_v4 {
            4 * (b[0] % 16)
        } else {
            0
        };
        if b.len() < h + 8 {
            Err(DecodeError::TooShort)
        } else if b[h] == proto.echo_reply_type && b[h + 1] == proto.echo_reply_code {
            Ok(
                Some(
                    IcmpEchoReply {
                        type_: b[h],
                        code: b[h + 1],
                        ident: be16_at(b, h + 4),
                        seq: be16_at(b, h + 6),
                    },
                ),
            )
        } else {
            Ok(None)
        }
    }
}

impl IcmpEchoReply {
    /// Decode a received datagram. For IPv4 the kernel delivers the IP
    /// header first: its length field says how many bytes to skip; ICMPv6
    /// raw sockets deliver the bare ICMP payload.
    pub fn decode(buf: &[u8], proto: &ProtoTypeConsts) -> (r: Result<
        Option<IcmpEchoReply>,
        DecodeError,
    >)
        ensures
            r == parse_echo_reply(*proto, buf@),
    {
        let n: usize = buf.len();
        let mut header_size: usize = 0;
        if proto.is_v4 {
            if n < 20 {
                return Err(DecodeError::TooShort);
            }
            let byte0 = buf[0];
            if byte0 / 16 != 4 {
                return Err(DecodeError::BadIpVersion);
            }
            header_size = 4 * ((byte0 % 16) as usize);
        } else {
            if n < 8 {
                return Err(DecodeError::TooShort);
            }
        }
        if n < header_size + 8 {
            return Err(DecodeError::TooShort);
        }
        let type_ = buf[header_size];
        let code = buf[header_size + 1];
        if !(type_ == proto.echo_reply_type && code == proto.echo_reply_code) {
            return Ok(None);
        }
        let ident = (buf[header_size + 4] as u16) * 256 + (buf[header_size + 5] as u16);
        let seq = (buf[header_size + 6] as u16) * 256 + (buf[header_size + 7] as u16);
        Ok(Some(IcmpEchoReply { type_, code, ident, seq }))
    }
}

/// LAW (encode/decode identity). For any identifier and sequence pair, a
/// packet encoded with a family whose reply type and code coincide with the
/// request's, then decoded without IP-header framing, yields back exactly
/// that identifier and sequence.
pub proof fn lemma_encode_decode_identity(proto: ProtoTypeConsts, b: Seq<u8>, ident: u16, seq: u16)
    requires
        !proto.is_v4,
        proto.echo_reply_type == proto.echo_request_type,
        proto.echo_reply_code == proto.echo_request_code,
        8 <= b.len() <= 0xffff,
    ensures
        parse_echo_reply(proto, encode_spec(proto, b, ident, seq)) == Ok::<
            Option<IcmpEchoReply>,
            DecodeError,
        >(
            Some(
                IcmpEchoReply {
                    type_: proto.echo_request_type,
                    code: proto.echo_request_code,
                    ident,
                    seq,
                },
            ),
        ),
{
    let e = encode_spec(proto, b, ident, seq);
    assert(e[0] == proto.echo_request_type);
    assert(e[1] == proto.echo_request_code);
    assert(e[4] == be16_hi(ident) && e[5] == be16_lo(ident));
    assert(e[6] == be16_hi(seq) && e[7] == be16_lo(seq));
    lemma_fundamental_div_mod(ident as int, 256);
    lemma_fundamental_div_mod(seq as int, 256);
    assert(be16_at(e, 4) == ident);
    assert(be16_at(e, 6) == seq);
}

} // verus!
