//! Integers and byte strings as bincode lays them out in its standard
//! configuration (little endian, variable-length integers, no limit): the layout
//! in mathematical terms, and the calls into the `bincode` crate that produce
//! and read it.

use vstd::prelude::*;

verus! {

/// The value of `s` read as a little-endian number.
pub open spec fn le_value(s: Seq<u8>) -> nat
    decreases s.len(),
{
    if s.len() == 0 {
        0
    } else {
        s[0] as nat + 256 * le_value(s.drop_first())
    }
}

/// The `width` low-order bytes of `v`, least significant first.
pub open spec fn le_bytes(v: nat, width: nat) -> Seq<u8>
    decreases width,
{
    if width == 0 {
        Seq::empty()
    } else {
        seq![(v % 256) as u8] + le_bytes(v / 256, (width - 1) as nat)
    }
}

/// 256 to the power `width`: the number of values that `width` bytes can hold.
pub open spec fn byte_range(width: nat) -> nat
    decreases width,
{
    if width == 0 {
        1
    } else {
        256 * byte_range((width - 1) as nat)
    }
}

/// The variable-length encoding of an unsigned integer below 2^64: a value up to
/// 250 is its own single byte; a larger one is a marker byte (251, 252 or 253)
/// followed by the value in 2, 4 or 8 little-endian bytes, whichever is the
/// narrowest that holds it.
pub open spec fn varint_bytes(v: nat) -> Seq<u8> {
    if v <= 250 {
        seq![v as u8]
    } else if v <= 0xffff {
        seq![251u8] + le_bytes(v, 2)
    } else if v <= 0xffff_ffff {
        seq![252u8] + le_bytes(v, 4)
    } else {
        seq![253u8] + le_bytes(v, 8)
    }
}

/// How many bytes follow a marker byte; 0 for a byte that is no marker of an
/// integer below 2^64.
pub open spec fn marker_width(marker: u8) -> nat {
    if marker == 251 {
        2
    } else if marker == 252 {
        4
    } else if marker == 253 {
        8
    } else {
        0
    }
}

/// Reads one variable-length integer of a type `width` bytes wide from the front
/// of `s`: the value and the number of bytes it took, or `None` where `s` is
/// empty, ends inside the integer, or starts with a marker that is reserved or
/// announces more than `width` bytes. A wider form than the value needs is
/// accepted.
pub open spec fn varint_parse(s: Seq<u8>, width: nat) -> Option<(nat, nat)> {
    if s.len() == 0 {
        None
    } else if s[0] <= 250 {
        Some((s[0] as nat, 1))
    } else {
        let n = marker_width(s[0]);
        if 0 < n <= width && s.len() >= 1 + n {
            Some((le_value(s.subrange(1, 1 + n as int)), 1 + n))
        } else {
            None
        }
    }
}

/// A byte string on the wire: its length as a variable-length integer, then the
/// bytes themselves.
pub open spec fn byte_string_bytes(data: Seq<u8>) -> Seq<u8> {
    varint_bytes(data.len()) + data
}

/// Reads one byte string from the front of `s`: the bytes and the number of bytes
/// taken with the length prefix, or `None` where the length cannot be read or
/// `s` holds fewer bytes than it announces.
pub open spec fn byte_string_parse(s: Seq<u8>) -> Option<(Seq<u8>, nat)> {
    match varint_parse(s, 8) {
        Some((len, used)) => if used + len <= s.len() {
            Some((s.subrange(used as int, (used + len) as int), used + len))
        } else {
            None
        },
        None => None,
    }
}

/// `bincode::encode_to_vec` on a `u64` in the standard configuration: the result
/// is the variable-length encoding of `v`. The call writes into a growing vector
/// and has no error path for an integer.
#[verifier::external_body]
pub(crate) fn encode_varint(v: u64) -> (out: Vec<u8>)
    ensures
        out@ == varint_bytes(v as nat),
{
    bincode::encode_to_vec(v, bincode::config::standard()).unwrap_or_default()
}

/// `bincode::encode_to_vec` on a byte slice in the standard configuration: the
/// length prefix followed by the bytes as they are. The call writes into a
/// growing vector and has no error path for bytes.
#[verifier::external_body]
pub(crate) fn encode_byte_string(data: &[u8]) -> (out: Vec<u8>)
    ensures
        out@ == byte_string_bytes(data@),
{
    bincode::encode_to_vec(data, bincode::config::standard()).unwrap_or_default()
}

/// `bincode::decode_from_slice` for a `u16` in the standard configuration: the
/// integer at the front of `src` and the number of bytes read, or `None` where
/// the crate reports a decode error.
#[verifier::external_body]
pub(crate) fn decode_varint_u16(src: &[u8]) -> (out: Option<(u16, usize)>)
    ensures
        match varint_parse(src@, 2) {
            Some((v, n)) => out == Some((v as u16, n as usize)),
            None => out is None,
        },
{
    match bincode::decode_from_slice::<u16, _>(src, bincode::config::standard()) {
        Ok(pair) => Some(pair),
        Err(_) => None,
    }
}

/// `bincode::decode_from_slice` for a `u32` in the standard configuration: the
/// integer at the front of `src` and the number of bytes read, or `None` where
/// the crate reports a decode error.
#[verifier::external_body]
pub(crate) fn decode_varint_u32(src: &[u8]) -> (out: Option<(u32, usize)>)
    ensures
        match varint_parse(src@, 4) {
            Some((v, n)) => out == Some((v as u32, n as usize)),
            None => out is None,
        },
{
    match bincode::decode_from_slice::<u32, _>(src, bincode::config::standard()) {
        Ok(pair) => Some(pair),
        Err(_) => None,
    }
}

/// `bincode::decode_from_slice` for a `u64` in the standard configuration: the
/// integer at the front of `src` and the number of bytes read, or `None` where
/// the crate reports a decode error.
#[verifier::external_body]
pub(crate) fn decode_varint_u64(src: &[u8]) -> (out: Option<(u64, usize)>)
    ensures
        match varint_parse(src@, 8) {
            Some((v, n)) => out == Some((v as u64, n as usize)),
            None => out is None,
        },
{
    match bincode::decode_from_slice::<u64, _>(src, bincode::config::standard()) {
        Ok(pair) => Some(pair),
        Err(_) => None,
    }
}

/// `bincode::borrow_decode_from_slice` for a byte slice in the standard
/// configuration, copied into a vector: the byte string at the front of `src`
/// and the number of bytes read, or `None` where the crate reports a decode
/// error. The borrowing form checks the announced length against `src` before it
/// hands anything out, so a hostile length allocates nothing.
#[verifier::external_body]
pub(crate) fn decode_byte_string(src: &[u8]) -> (out: Option<(Vec<u8>, usize)>)
    ensures
        match byte_string_parse(src@) {
            Some((data, n)) => out is Some && out.unwrap().0@ == data && out.unwrap().1 == n,
            None => out is None,
        },
{
    match bincode::borrow_decode_from_slice::<&[u8], _>(src, bincode::config::standard()) {
        Ok((data, read)) => Some((data.to_vec(), read)),
        Err(_) => None,
    }
}

/// `width` bytes hold every value below `byte_range(width)` and give it back.
pub proof fn lemma_le_round_trip(v: nat, width: nat)
    requires
        v < byte_range(width),
    ensures
        le_bytes(v, width).len() == width,
        le_value(le_bytes(v, width)) == v,
    decreases width,
{
    if width > 0 {
        let rest = le_bytes(v / 256, (width - 1) as nat);
        lemma_le_round_trip(v / 256, (width - 1) as nat);
        let all = seq![(v % 256) as u8] + rest;
        assert(all.drop_first() =~= rest);
        assert(all[0] == (v % 256) as u8);
    }
}

/// The little-endian value of `s` is below `byte_range(s.len())`.
pub proof fn lemma_le_value_bound(s: Seq<u8>)
    ensures
        le_value(s) < byte_range(s.len()),
    decreases s.len(),
{
    if s.len() > 0 {
        lemma_le_value_bound(s.drop_first());
    }
}

/// What 2, 4 and 8 bytes can hold.
pub proof fn lemma_byte_ranges()
    ensures
        byte_range(2) == 0x1_0000,
        byte_range(4) == 0x1_0000_0000,
        byte_range(8) == 0x1_0000_0000_0000_0000,
{
    reveal_with_fuel(byte_range, 9);
}

/// An encoded integer is one to nine bytes long.
pub proof fn lemma_varint_len(v: nat)
    requires
        v < 0x1_0000_0000_0000_0000,
    ensures
        1 <= varint_bytes(v).len() <= 9,
        v <= 250 ==> varint_bytes(v).len() == 1,
        250 < v <= 0xffff ==> varint_bytes(v).len() == 3,
        0xffff < v <= 0xffff_ffff ==> varint_bytes(v).len() == 5,
        0xffff_ffff < v ==> varint_bytes(v).len() == 9,
{
    lemma_byte_ranges();
    if v <= 250 {
    } else if v <= 0xffff {
        lemma_le_round_trip(v, 2);
    } else if v <= 0xffff_ffff {
        lemma_le_round_trip(v, 4);
    } else {
        lemma_le_round_trip(v, 8);
    }
}

/// Reading back an encoded integer gives the integer and its encoded length,
/// whatever follows it, for every type wide enough to hold it.
pub proof fn lemma_varint_round_trip(v: nat, width: nat, rest: Seq<u8>)
    requires
        width == 2 || width == 4 || width == 8,
        v < byte_range(width),
    ensures
        varint_parse(varint_bytes(v) + rest, width) == Some((v, varint_bytes(v).len())),
{
    lemma_byte_ranges();
    let enc = varint_bytes(v);
    let s = enc + rest;
    lemma_varint_len(v);
    if v > 250 {
        let n: nat = if v <= 0xffff {
            2
        } else if v <= 0xffff_ffff {
            4
        } else {
            8
        };
        lemma_le_round_trip(v, n);
        assert(s.subrange(1, 1 + n as int) =~= le_bytes(v, n));
        assert(s[0] == enc[0]);
    } else {
        assert(s[0] == enc[0]);
    }
}

/// A parsed integer fits the type it was read for, and took between one byte and
/// all of the input.
pub proof fn lemma_varint_parse_bounds(s: Seq<u8>, width: nat)
    requires
        width == 2 || width == 4 || width == 8,
    ensures
        match varint_parse(s, width) {
            Some((v, n)) => v < byte_range(width) && 1 <= n <= s.len() && n <= 9,
            None => true,
        },
{
    lemma_byte_ranges();
    if s.len() > 0 && s[0] > 250 {
        let n = marker_width(s[0]);
        if 0 < n <= width && s.len() >= 1 + n {
            lemma_le_value_bound(s.subrange(1, 1 + n as int));
            if n == 2 && width > 2 {
                assert(byte_range(2) <= byte_range(width));
            }
            if n == 4 && width > 4 {
                assert(byte_range(4) <= byte_range(width));
            }
        }
    }
}

/// Reading back an encoded byte string gives the bytes and the encoded length,
/// whatever follows it.
pub proof fn lemma_byte_string_round_trip(data: Seq<u8>, rest: Seq<u8>)
    requires
        data.len() < 0x1_0000_0000_0000_0000,
    ensures
        byte_string_parse(byte_string_bytes(data) + rest) == Some(
            (data, byte_string_bytes(data).len()),
        ),
{
    lemma_byte_ranges();
    let prefix = varint_bytes(data.len());
    let s = byte_string_bytes(data) + rest;
    assert(s =~= prefix + (data + rest));
    lemma_varint_round_trip(data.len(), 8, data + rest);
    lemma_varint_len(data.len());
    assert(s.subrange(prefix.len() as int, (prefix.len() + data.len()) as int) =~= data);
}

} // verus!
