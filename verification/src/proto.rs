//! The wire format of WebTransport over HTTP/3: what the library relies on of the
//! `web_transport_proto` crate.

use vstd::prelude::*;
use web_transport_proto::{error_to_http3, Capsule, Frame, StreamUni, VarInt};

verus! {

/// The least integer that a variable-length integer cannot hold.
pub const VARINT_LIMIT: u64 = 0x4000_0000_0000_0000;

/// The last `len` bytes of a number, most significant first.
pub open spec fn big_endian(n: nat, len: nat) -> Seq<u8>
    decreases len,
{
    if len == 0 {
        Seq::empty()
    } else {
        big_endian(n / 256, (len - 1) as nat).push((n % 256) as u8)
    }
}

/// The number that bytes stand for, most significant first.
pub open spec fn from_big_endian(bytes: Seq<u8>) -> nat
    decreases bytes.len(),
{
    if bytes.len() == 0 {
        0
    } else {
        from_big_endian(bytes.drop_last()) * 256 + bytes.last() as nat
    }
}

/// How many bytes a variable-length integer takes.
pub open spec fn varint_len(x: u64) -> nat {
    if x < 0x40 {
        1
    } else if x < 0x4000 {
        2
    } else if x < 0x4000_0000 {
        4
    } else {
        8
    }
}

/// A variable-length integer (RFC 9000, section 16): the number, most significant byte
/// first, with the two top bits of the first byte telling the length.
pub open spec fn varint_bytes(x: u64) -> Seq<u8> {
    let tag: nat = if x < 0x40 {
        0
    } else if x < 0x4000 {
        0x4000
    } else if x < 0x4000_0000 {
        0x8000_0000
    } else {
        0xC000_0000_0000_0000
    };
    big_endian(tag + x as nat, varint_len(x))
}

/// How many bytes the variable-length integer takes that starts with a byte.
pub open spec fn varint_size(first: u8) -> nat {
    if first < 0x40 {
        1
    } else if first < 0x80 {
        2
    } else if first < 0xC0 {
        4
    } else {
        8
    }
}

/// The variable-length integer at the start of some bytes, and how many it takes.
pub open spec fn varint_at(bytes: Seq<u8>) -> Option<(u64, nat)> {
    if bytes.len() == 0 || bytes.len() < varint_size(bytes[0]) {
        None
    } else {
        let size = varint_size(bytes[0]);
        let n = from_big_endian(bytes.take(size as int));
        let limit: nat = if size == 1 {
            0x40
        } else if size == 2 {
            0x4000
        } else if size == 4 {
            0x4000_0000
        } else {
            0x4000_0000_0000_0000
        };
        Some(((n % limit) as u64, size))
    }
}

/// The HTTP/3 error code that stands for a WebTransport error code.
pub open spec fn http3_error(code: u32) -> u64 {
    (0x52e4a40fa8db + code + code / 0x1e) as u64
}

/// The capsule that closes a session, with a code and a reason. Its length takes 32 bits.
pub open spec fn close_capsule(code: u32, reason: Seq<u8>) -> Seq<u8> {
    varint_bytes(0x2843) + varint_bytes(((4 + reason.len()) % 0x1_0000_0000) as u64) + big_endian(
        code as nat,
        4,
    ) + reason
}

/// `error_to_http3` spreads the codes over the range that HTTP/3 reserves, leaving out
/// the values that it reserves in turn.
pub assume_specification[ error_to_http3 ](code: u32) -> (result: u64)
    ensures
        result == http3_error(code),
;

/// `VarInt::encode` appends the variable-length integer.
#[verifier::external_body]
pub(crate) fn put_varint(buf: &mut Vec<u8>, x: u64)
    requires
        x < VARINT_LIMIT,
    ensures
        final(buf)@ == old(buf)@ + varint_bytes(x),
{
    VarInt::from_u64(x).unwrap().encode(buf)
}

/// `VarInt::decode` reads the variable-length integer at the start of the bytes, and
/// fails if they end before it does.
#[verifier::external_body]
pub(crate) fn get_varint(data: &[u8]) -> (result: Option<(u64, usize)>)
    ensures
        result is Some <==> varint_at(data@) is Some,
        result matches Some((x, size)) ==> varint_at(data@) == Some((x, size as nat)),
{
    let mut cursor = std::io::Cursor::new(data);
    match VarInt::decode(&mut cursor) {
        Ok(x) => Some((x.into_inner(), cursor.position() as usize)),
        Err(_) => None,
    }
}

/// `Capsule::encode` of the capsule that closes a session.
#[verifier::external_body]
pub(crate) fn encode_close(code: u32, reason: String) -> (capsule: Vec<u8>)
    ensures
        capsule@ == close_capsule(code, vstd::utf8::encode_utf8(reason@)),
{
    let mut buf = Vec::new();
    Capsule::CloseWebTransportSession { code, reason }.encode(&mut buf);
    buf
}

/// `StreamUni::WEBTRANSPORT` is the type of a unidirectional stream of a session.
#[verifier::external_body]
pub(crate) fn uni_webtransport() -> (typ: u64)
    ensures
        typ == 0x54,
{
    StreamUni::WEBTRANSPORT.0.into_inner()
}

/// `StreamUni::QPACK_ENCODER` is the type of the stream of a QPACK encoder.
#[verifier::external_body]
pub(crate) fn uni_qpack_encoder() -> (typ: u64)
    ensures
        typ == 0x02,
{
    StreamUni::QPACK_ENCODER.0.into_inner()
}

/// `StreamUni::QPACK_DECODER` is the type of the stream of a QPACK decoder.
#[verifier::external_body]
pub(crate) fn uni_qpack_decoder() -> (typ: u64)
    ensures
        typ == 0x03,
{
    StreamUni::QPACK_DECODER.0.into_inner()
}

/// `Frame::WEBTRANSPORT` opens a bidirectional stream of a session.
#[verifier::external_body]
pub(crate) fn frame_webtransport() -> (typ: u64)
    ensures
        typ == 0x41,
{
    Frame::WEBTRANSPORT.0.into_inner()
}

/// `Frame::DATA` is the type of the frame that carries data.
#[verifier::external_body]
pub(crate) fn frame_data() -> (typ: u64)
    ensures
        typ == 0x00,
{
    Frame::DATA.0.into_inner()
}

/// Error codes keep their order when they are shifted, so no two become one, and they stay
/// within the range that is reserved for them.
pub proof fn law_error_codes_stay_apart(a: u32, b: u32)
    ensures
        a < b ==> http3_error(a) < http3_error(b),
        0x52e4a40fa8db <= http3_error(a) <= 0x52e5ac983162,
{
}

/// Reading a variable-length integer gives back what was written, whatever follows it.
pub proof fn law_a_varint_is_read_back(x: u64, rest: Seq<u8>)
    requires
        x < VARINT_LIMIT,
    ensures
        varint_bytes(x).len() == varint_len(x),
        varint_at(varint_bytes(x) + rest) == Some((x, varint_len(x))),
{
    let written = varint_bytes(x);
    let bytes = written + rest;
    let size = varint_len(x);
    let tag: nat = if x < 0x40 {
        0
    } else if x < 0x4000 {
        0x4000
    } else if x < 0x4000_0000 {
        0x8000_0000
    } else {
        0xC000_0000_0000_0000
    };
    let n = tag + x as nat;
    lemma_big_endian(n, size);
    lemma_first_byte(n, size);
    assert(bytes.take(size as int) =~= written);
    assert(bytes[0] == written[0]);
    assert(pow256(0) == 1 && pow256(1) == 0x100 && pow256(2) == 0x1_0000 && pow256(3) == 0x100_0000
        && pow256(4) == 0x1_0000_0000 && pow256(7) == 0x100_0000_0000_0000 && pow256(8)
        == 0x1_0000_0000_0000_0000) by {
        reveal_with_fuel(pow256, 9);
    }
    assert(n < pow256(size));
    assert(n % pow256(size) == n) by {
        vstd::arithmetic::div_mod::lemma_small_mod(n, pow256(size));
    }
    if size == 1 {
        assert(n / 1 == n);
        assert(n % 0x40 == x);
    } else if size == 2 {
        assert(0x40 <= n / 0x100 < 0x80);
        assert(n % 0x4000 == x);
    } else if size == 4 {
        assert(0x80 <= n / 0x100_0000 < 0xC0);
        assert(n % 0x4000_0000 == x);
    } else {
        assert(0xC0 <= n / 0x100_0000_0000_0000 < 0x100);
        assert(n % 0x4000_0000_0000_0000 == x);
    }
    assert(varint_size(bytes[0]) == size);
}

/// A capsule that closes a session says so, says how long it is, and holds the code and
/// the reason that it was made with.
pub proof fn law_a_close_capsule_holds_its_code_and_reason(code: u32, reason: Seq<u8>)
    requires
        4 + reason.len() < 0x1_0000_0000,
    ensures
        ({
            let capsule = close_capsule(code, reason);
            let typ = varint_at(capsule);
            let len = varint_at(capsule.skip(2));
            let start = 2int + varint_len((4 + reason.len()) as u64);
            &&& typ == Some((0x2843u64, 2nat))
            &&& len == Some(((4 + reason.len()) as u64, (start - 2) as nat))
            &&& capsule.len() == start + 4 + reason.len()
            &&& from_big_endian(capsule.subrange(start, start + 4)) == code
            &&& capsule.skip(start + 4) == reason
        }),
{
    let capsule = close_capsule(code, reason);
    let size = (4 + reason.len()) as u64;
    let first = varint_bytes(0x2843);
    let second = varint_bytes(size);
    let third = big_endian(code as nat, 4);
    law_a_varint_is_read_back(0x2843, second + third + reason);
    law_a_varint_is_read_back(size, third + reason);
    lemma_big_endian(code as nat, 4);
    assert(pow256(4) == 0x1_0000_0000) by {
        reveal_with_fuel(pow256, 5);
    }
    assert(capsule =~= first + (second + third + reason));
    assert(capsule.skip(2) =~= second + (third + reason));
    let start = 2int + varint_len(size);
    assert(capsule.subrange(start, start + 4) =~= third);
    assert(capsule.skip(start + 4) =~= reason);
    vstd::arithmetic::div_mod::lemma_small_mod(code as nat, 0x1_0000_0000);
}

/// The first byte of a number holds its most significant bits.
proof fn lemma_first_byte(n: nat, len: nat)
    requires
        len > 0,
    ensures
        big_endian(n, len).len() == len,
        big_endian(n, len)[0] == (n / pow256((len - 1) as nat)) % 256,
    decreases len,
{
    lemma_big_endian(n, len);
    if len == 1 {
        assert(n / 1 == n);
        assert(big_endian(n / 256, 0) =~= Seq::<u8>::empty());
    } else {
        lemma_first_byte(n / 256, (len - 1) as nat);
        lemma_pow256((len - 2) as nat);
        let p = pow256((len - 2) as nat);
        vstd::arithmetic::div_mod::lemma_div_denominator(n as int, 256, p as int);
        assert(256 * p == pow256((len - 1) as nat));
        assert(big_endian(n, len)[0] == big_endian(n / 256, (len - 1) as nat)[0]);
    }
}

/// The last `len` bytes of a number stand for the number, as far as they hold it.
proof fn lemma_big_endian(n: nat, len: nat)
    ensures
        big_endian(n, len).len() == len,
        from_big_endian(big_endian(n, len)) == n % pow256(len),
    decreases len,
{
    if len > 0 {
        let high = n / 256;
        let m = pow256((len - 1) as nat);
        lemma_big_endian(high, (len - 1) as nat);
        lemma_pow256((len - 1) as nat);
        assert(big_endian(n, len).drop_last() =~= big_endian(high, (len - 1) as nat));
        assert((high % m) * 256 + n % 256 == n % (m * 256)) by (nonlinear_arith)
            requires
                high == n / 256,
                m > 0,
        {
            let q = high / m;
            assert(high == q * m + high % m);
            assert(n == high * 256 + n % 256);
            assert(n == q * (m * 256) + ((high % m) * 256 + n % 256));
            assert(0 <= (high % m) * 256 + n % 256 < m * 256);
            vstd::arithmetic::div_mod::lemma_fundamental_div_mod_converse(
                n as int,
                (m * 256) as int,
                q as int,
                ((high % m) * 256 + n % 256) as int,
            );
        }
    } else {
        assert(n % 1 == 0);
    }
}

spec fn pow256(len: nat) -> nat
    decreases len,
{
    if len == 0 {
        1
    } else {
        pow256((len - 1) as nat) * 256
    }
}

proof fn lemma_pow256(len: nat)
    ensures
        pow256(len) > 0,
    decreases len,
{
    if len > 0 {
        lemma_pow256((len - 1) as nat);
    }
}

/// The codes of WebTransport follow each other in the range of HTTP/3, from its beginning,
/// leaving out only the values that HTTP/3 reserves: none of them is used, and between two
/// codes that follow each other there is at most one value, which is reserved.
pub proof fn law_error_codes_leave_out_what_is_reserved(code: u32)
    ensures
        http3_error(0) == 0x52e4a40fa8db,
        (http3_error(code) - 0x21) % 0x1f != 0,
        code < u32::MAX ==> {
            let next = http3_error((code + 1) as u32);
            ||| next == http3_error(code) + 1
            ||| next == http3_error(code) + 2 && (next - 1 - 0x21) % 0x1f == 0
        },
{
    let q = code as int / 30;
    let r = code as int % 30;
    assert(code == 30 * q + r);
    assert(http3_error(code) - 0x21 == 0x52e4a40fa8ba + 31 * q + r);
    assert(0x52e4a40fa8ba == 31 * 2940063177767 + 1);
}

/// A variable-length integer takes the fewest bytes that hold it, and its first byte tells
/// how many.
pub proof fn law_a_varint_is_as_short_as_can_be(x: u64)
    requires
        x < VARINT_LIMIT,
    ensures
        varint_bytes(x).len() == varint_size(varint_bytes(x)[0]),
        varint_bytes(x).len() == 1 <==> x < 64,
        varint_bytes(x).len() <= 2 <==> x < 16384,
        varint_bytes(x).len() <= 4 <==> x < 1073741824,
        varint_bytes(x).len() <= 8,
{
    law_a_varint_is_read_back(x, Seq::empty());
    assert(varint_bytes(x) + Seq::<u8>::empty() =~= varint_bytes(x));
}

} // verus!
