//! The tag bytes of the format and the layout of each fixed-width payload.

use vstd::prelude::*;
use vstd::utf8::encode_utf8;
use byteorder::{ByteOrder, LittleEndian};

verus! {

/// Opens a map or struct container.
pub const BEGIN: u8 = 0x40;
/// Closes a container opened by `BEGIN`.
pub const END: u8 = 0x41;
/// Opens an array container.
pub const BEGIN_ARRAY: u8 = 0x42;
/// Closes a container opened by `BEGIN_ARRAY`.
pub const END_ARRAY: u8 = 0x43;
pub const TRUE: u8 = 0x44;
pub const FALSE: u8 = 0x45;
/// Followed by the 8 little-endian bytes of an IEEE-754 double.
pub const DOUBLE: u8 = 0x46;
pub const INT8: u8 = 0x10;
pub const INT16: u8 = 0x11;
pub const INT32: u8 = 0x12;
pub const INT64: u8 = 0x13;
/// String with a one-byte length.
pub const STRING_LEN: u8 = 0x14;
/// String with a two-byte length.
pub const STRING_LEN_16: u8 = 0x15;
/// String with a four-byte length.
pub const STRING_LEN_32: u8 = 0x16;
/// The unit value, also used for an absent optional.
pub const UNIT: u8 = 0x00;

/// The `width` low-order bytes of `n` in two's complement, least significant first.
pub open spec fn le_bytes(n: int, width: nat) -> Seq<u8>
    decreases width,
{
    if width == 0 {
        Seq::empty()
    } else {
        seq![(n % 256) as u8] + le_bytes(n / 256, (width - 1) as nat)
    }
}

/// Relies on `byteorder::LittleEndian::write_u16`: the two bytes of `n`, low byte first.
#[verifier::external_body]
pub(crate) fn le_u16(n: u16) -> (r: [u8; 2])
    ensures
        r@ == le_bytes(n as int, 2),
{
    let mut buf = [0u8; 2];
    LittleEndian::write_u16(&mut buf, n);
    buf
}

/// A one-byte field is the low byte alone.
pub proof fn lemma_le_bytes_one(n: int)
    ensures
        le_bytes(n, 1) == seq![(n % 256) as u8],
{
    assert(le_bytes(n / 256, 0) == Seq::<u8>::empty());
    assert(le_bytes(n, 1) =~= seq![(n % 256) as u8]);
}

/// The single byte of a boolean.
pub open spec fn bool_bytes(b: bool) -> Seq<u8> {
    seq![if b { TRUE } else { FALSE }]
}

/// A fixed-width integer: its tag, then `width` little-endian bytes of `n`.
pub open spec fn int_bytes(tag: u8, n: int, width: nat) -> Seq<u8> {
    seq![tag] + le_bytes(n, width)
}

/// The tag and length field that precede `len` bytes of UTF-8.
/// The smallest of three tiers that holds the length is chosen; the
/// four-byte field carries the low 32 bits of the length.
pub open spec fn string_header(len: nat) -> Seq<u8> {
    if len <= 127 {
        seq![STRING_LEN, len as u8]
    } else if len <= 32767 {
        seq![STRING_LEN_16] + le_bytes(len as int, 2)
    } else {
        seq![STRING_LEN_32] + le_bytes(len as int % 0x1_0000_0000, 4)
    }
}

/// A string: its header, then its UTF-8 bytes.
pub open spec fn string_bytes(s: Seq<char>) -> Seq<u8> {
    string_header(encode_utf8(s).len()) + encode_utf8(s)
}

/// Relies on `byteorder::LittleEndian::write_i16`: the two bytes of `n` in two's complement, low byte first.
#[verifier::external_body]
pub(crate) fn le_i16(n: i16) -> (r: [u8; 2])
    ensures
        r@ == le_bytes(n as int, 2),
{
    let mut buf = [0u8; 2];
    LittleEndian::write_i16(&mut buf, n);
    buf
}

/// Relies on `byteorder::LittleEndian::write_u32`: the four bytes of `n`, low byte first.
#[verifier::external_body]
pub(crate) fn le_u32(n: u32) -> (r: [u8; 4])
    ensures
        r@ == le_bytes(n as int, 4),
{
    let mut buf = [0u8; 4];
    LittleEndian::write_u32(&mut buf, n);
    buf
}

/// Relies on `byteorder::LittleEndian::write_i32`: the four bytes of `n` in two's complement, low byte first.
#[verifier::external_body]
pub(crate) fn le_i32(n: i32) -> (r: [u8; 4])
    ensures
        r@ == le_bytes(n as int, 4),
{
    let mut buf = [0u8; 4];
    LittleEndian::write_i32(&mut buf, n);
    buf
}

/// Relies on `byteorder::LittleEndian::write_u64`: the eight bytes of `n`, low byte first.
#[verifier::external_body]
pub(crate) fn le_u64(n: u64) -> (r: [u8; 8])
    ensures
        r@ == le_bytes(n as int, 8),
{
    let mut buf = [0u8; 8];
    LittleEndian::write_u64(&mut buf, n);
    buf
}

/// Relies on `byteorder::LittleEndian::write_i64`: the eight bytes of `n` in two's complement, low byte first.
#[verifier::external_body]
pub(crate) fn le_i64(n: i64) -> (r: [u8; 8])
    ensures
        r@ == le_bytes(n as int, 8),
{
    let mut buf = [0u8; 8];
    LittleEndian::write_i64(&mut buf, n);
    buf
}

/// Appends every byte of `b` to `out`, in order.
pub(crate) fn append_bytes(out: &mut Vec<u8>, b: &[u8])
    ensures
        final(out)@ == old(out)@ + b@,
{
    let mut i: usize = 0;
    while i < b.len()
        invariant
            0 <= i <= b@.len(),
            out@ == old(out)@ + b@.subrange(0, i as int),
        decreases b@.len() - i,
    {
        out.push(b[i]);
        i = i + 1;
        assert(out@ =~= old(out)@ + b@.subrange(0, i as int));
    }
    assert(b@.subrange(0, b@.len() as int) =~= b@);
}

/// The tag and length field of a string of `len` UTF-8 bytes.
pub(crate) fn write_string_header(out: &mut Vec<u8>, len: usize)
    ensures
        final(out)@ == old(out)@ + string_header(len as nat),
{
    if len <= 127 {
        out.push(STRING_LEN);
        out.push(len as u8);
        assert(out@ =~= old(out)@ + string_header(len as nat));
    } else if len <= 32767 {
        out.push(STRING_LEN_16);
        let b = le_i16(len as i16);
        append_bytes(out, b.as_slice());
        assert(out@ =~= old(out)@ + string_header(len as nat));
    } else {
        out.push(STRING_LEN_32);
        let low: u32 = (len as u64 % 0x1_0000_0000) as u32;
        let b = le_u32(low);
        append_bytes(out, b.as_slice());
        assert(out@ =~= old(out)@ + string_header(len as nat));
    }
}

/// A string's length tier depends on its UTF-8 length alone: up to 127
/// bytes a one-byte length, up to 32767 a two-byte length, beyond that a
/// four-byte length.
pub proof fn lemma_string_tiers(s: Seq<char>)
    ensures
        encode_utf8(s).len() <= 127 ==> string_bytes(s).subrange(0, 2) == seq![
            STRING_LEN,
            encode_utf8(s).len() as u8,
        ],
        128 <= encode_utf8(s).len() <= 32767 ==> string_bytes(s)[0] == STRING_LEN_16
            && string_bytes(s).subrange(1, 3) == le_bytes(encode_utf8(s).len() as int, 2),
        32767 < encode_utf8(s).len() ==> string_bytes(s)[0] == STRING_LEN_32
            && string_bytes(s).subrange(1, 5) == le_bytes(
            encode_utf8(s).len() as int % 0x1_0000_0000,
            4,
        ),
        string_bytes(s).subrange(string_header(encode_utf8(s).len()).len() as int, string_bytes(s).len() as int)
            == encode_utf8(s),
{
    let n = encode_utf8(s).len();
    let b = string_bytes(s);
    lemma_le_bytes_len(n as int, 2);
    lemma_le_bytes_len(n as int % 0x1_0000_0000, 4);
    if n <= 127 {
        assert(b.subrange(0, 2) =~= seq![STRING_LEN, n as u8]);
    } else if n <= 32767 {
        assert(b.subrange(1, 3) =~= le_bytes(n as int, 2));
    } else {
        assert(b.subrange(1, 5) =~= le_bytes(n as int % 0x1_0000_0000, 4));
    }
    assert(b.subrange(string_header(n).len() as int, b.len() as int) =~= encode_utf8(s));
}

proof fn lemma_le_bytes_len(n: int, width: nat)
    ensures
        le_bytes(n, width).len() == width,
    decreases width,
{
    if width > 0 {
        lemma_le_bytes_len(n / 256, (width - 1) as nat);
    }
}

} // verus!
