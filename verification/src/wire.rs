//! Little-endian fixed-width integer fields of the container format.

use vstd::prelude::*;

use crate::error::FormatError;

verus! {

/// The eight little-endian bytes of a `u64`.
pub open spec fn spec_le64(v: u64) -> Seq<u8> {
    seq![
        (v & 0xff) as u8,
        ((v >> 8) & 0xff) as u8,
        ((v >> 16) & 0xff) as u8,
        ((v >> 24) & 0xff) as u8,
        ((v >> 32) & 0xff) as u8,
        ((v >> 40) & 0xff) as u8,
        ((v >> 48) & 0xff) as u8,
        ((v >> 56) & 0xff) as u8,
    ]
}

/// The `u64` read from eight little-endian bytes.
pub open spec fn spec_le64_val(b: Seq<u8>) -> u64
    recommends
        b.len() == 8,
{
    (b[0] as u64)
        | ((b[1] as u64) << 8)
        | ((b[2] as u64) << 16)
        | ((b[3] as u64) << 24)
        | ((b[4] as u64) << 32)
        | ((b[5] as u64) << 40)
        | ((b[6] as u64) << 48)
        | ((b[7] as u64) << 56)
}

/// The four little-endian bytes of a `u32`.
pub open spec fn spec_le32(v: u32) -> Seq<u8> {
    seq![
        (v & 0xff) as u8,
        ((v >> 8) & 0xff) as u8,
        ((v >> 16) & 0xff) as u8,
        ((v >> 24) & 0xff) as u8,
    ]
}

/// The `u32` read from four little-endian bytes.
pub open spec fn spec_le32_val(b: Seq<u8>) -> u32
    recommends
        b.len() == 4,
{
    (b[0] as u32) | ((b[1] as u32) << 8) | ((b[2] as u32) << 16) | ((b[3] as u32) << 24)
}

/// Reading the eight bytes of a `u64` yields the value back.
pub proof fn lemma_le64_roundtrip(v: u64)
    ensures
        spec_le64(v).len() == 8,
        spec_le64_val(spec_le64(v)) == v,
{
    assert(((v & 0xff) as u8) as u64
        | ((((v >> 8) & 0xff) as u8) as u64) << 8
        | ((((v >> 16) & 0xff) as u8) as u64) << 16
        | ((((v >> 24) & 0xff) as u8) as u64) << 24
        | ((((v >> 32) & 0xff) as u8) as u64) << 32
        | ((((v >> 40) & 0xff) as u8) as u64) << 40
        | ((((v >> 48) & 0xff) as u8) as u64) << 48
        | ((((v >> 56) & 0xff) as u8) as u64) << 56 == v) by (bit_vector);
}

/// Reading the four bytes of a `u32` yields the value back.
pub proof fn lemma_le32_roundtrip(v: u32)
    ensures
        spec_le32(v).len() == 4,
        spec_le32_val(spec_le32(v)) == v,
{
    assert(((v & 0xff) as u8) as u32
        | ((((v >> 8) & 0xff) as u8) as u32) << 8
        | ((((v >> 16) & 0xff) as u8) as u32) << 16
        | ((((v >> 24) & 0xff) as u8) as u32) << 24 == v) by (bit_vector);
}

/// Parses a little-endian `u64` from the front of `b`, yielding the value
/// and the remaining bytes.
pub open spec fn sp_u64(b: Seq<u8>) -> Result<(u64, Seq<u8>), FormatError> {
    if b.len() >= 8 {
        Ok((spec_le64_val(b.take(8)), b.skip(8)))
    } else {
        Err(FormatError::Truncated)
    }
}

/// Parses a little-endian `u32` from the front of `b`, yielding the value
/// and the remaining bytes.
pub open spec fn sp_u32(b: Seq<u8>) -> Result<(u32, Seq<u8>), FormatError> {
    if b.len() >= 4 {
        Ok((spec_le32_val(b.take(4)), b.skip(4)))
    } else {
        Err(FormatError::Truncated)
    }
}

/// Parsing the front of an encoded `u64` yields the value and the rest.
pub proof fn lemma_sp_u64(v: u64, rest: Seq<u8>)
    ensures
        sp_u64(spec_le64(v) + rest) == Ok::<_, FormatError>((v, rest)),
{
    lemma_le64_roundtrip(v);
    assert((spec_le64(v) + rest).take(8) =~= spec_le64(v));
    assert((spec_le64(v) + rest).skip(8) =~= rest);
}

/// Parsing the front of an encoded `u32` yields the value and the rest.
pub proof fn lemma_sp_u32(v: u32, rest: Seq<u8>)
    ensures
        sp_u32(spec_le32(v) + rest) == Ok::<_, FormatError>((v, rest)),
{
    lemma_le32_roundtrip(v);
    assert((spec_le32(v) + rest).take(4) =~= spec_le32(v));
    assert((spec_le32(v) + rest).skip(4) =~= rest);
}

/// Reads a little-endian `u64` out of `b` at position `pos`, exactly as
/// `sp_u64` parses the suffix of `b@` that starts there.
pub fn read_u64_at(b: &Vec<u8>, pos: usize) -> (r: Result<(u64, usize), FormatError>)
    requires
        pos <= b@.len(),
    ensures
        match r {
            Ok(t) => sp_u64(b@.skip(pos as int)) == Ok::<_, FormatError>((t.0, b@.skip(t.1 as int)))
                && pos <= t.1 <= b@.len(),
            Err(e) => sp_u64(b@.skip(pos as int)) == Err::<(u64, Seq<u8>), _>(e),
        },
{
    let l: usize = b.len();
    if l - pos >= 8 {
        let v = read_le64(b, pos);
        proof {
            assert(b@.skip(pos as int).take(8) =~= b@.subrange(pos as int, pos as int + 8));
            assert(b@.skip(pos as int).skip(8) =~= b@.skip(pos as int + 8));
        }
        Ok((v, pos + 8))
    } else {
        Err(FormatError::Truncated)
    }
}

/// Reads a little-endian `u32` out of `b` at position `pos`, exactly as
/// `sp_u32` parses the suffix of `b@` that starts there.
pub fn read_u32_at(b: &Vec<u8>, pos: usize) -> (r: Result<(u32, usize), FormatError>)
    requires
        pos <= b@.len(),
    ensures
        match r {
            Ok(t) => sp_u32(b@.skip(pos as int)) == Ok::<_, FormatError>((t.0, b@.skip(t.1 as int)))
                && pos <= t.1 <= b@.len(),
            Err(e) => sp_u32(b@.skip(pos as int)) == Err::<(u32, Seq<u8>), _>(e),
        },
{
    let l: usize = b.len();
    if l - pos >= 4 {
        let v = read_le32(b, pos);
        proof {
            assert(b@.skip(pos as int).take(4) =~= b@.subrange(pos as int, pos as int + 4));
            assert(b@.skip(pos as int).skip(4) =~= b@.skip(pos as int + 4));
        }
        Ok((v, pos + 4))
    } else {
        Err(FormatError::Truncated)
    }
}

/// Appends the little-endian encoding of `v` to `out`.
pub fn push_le64(out: &mut Vec<u8>, v: u64)
    ensures
        final(out)@ == old(out)@ + spec_le64(v),
{
    out.push((v & 0xff) as u8);
    out.push(((v >> 8) & 0xff) as u8);
    out.push(((v >> 16) & 0xff) as u8);
    out.push(((v >> 24) & 0xff) as u8);
    out.push(((v >> 32) & 0xff) as u8);
    out.push(((v >> 40) & 0xff) as u8);
    out.push(((v >> 48) & 0xff) as u8);
    out.push(((v >> 56) & 0xff) as u8);
    assert(out@ =~= old(out)@ + spec_le64(v));
}

/// Appends the little-endian encoding of `v` to `out`.
pub fn push_le32(out: &mut Vec<u8>, v: u32)
    ensures
        final(out)@ == old(out)@ + spec_le32(v),
{
    out.push((v & 0xff) as u8);
    out.push(((v >> 8) & 0xff) as u8);
    out.push(((v >> 16) & 0xff) as u8);
    out.push(((v >> 24) & 0xff) as u8);
    assert(out@ =~= old(out)@ + spec_le32(v));
}

/// Reads the `u64` whose little-endian bytes sit at `pos`.
pub fn read_le64(b: &Vec<u8>, pos: usize) -> (v: u64)
    requires
        pos + 8 <= b@.len(),
    ensures
        v == spec_le64_val(b@.subrange(pos as int, pos as int + 8)),
{
    let end: usize = b.len();
    assert(pos + 8 <= end);
    let v = (b[pos] as u64)
        | ((b[pos + 1] as u64) << 8)
        | ((b[pos + 2] as u64) << 16)
        | ((b[pos + 3] as u64) << 24)
        | ((b[pos + 4] as u64) << 32)
        | ((b[pos + 5] as u64) << 40)
        | ((b[pos + 6] as u64) << 48)
        | ((b[pos + 7] as u64) << 56);
    proof {
        let s = b@.subrange(pos as int, pos as int + 8);
        assert(s[0] == b@[pos as int]);
        assert(s[1] == b@[pos as int + 1]);
        assert(s[2] == b@[pos as int + 2]);
        assert(s[3] == b@[pos as int + 3]);
        assert(s[4] == b@[pos as int + 4]);
        assert(s[5] == b@[pos as int + 5]);
        assert(s[6] == b@[pos as int + 6]);
        assert(s[7] == b@[pos as int + 7]);
    }
    v
}

/// Reads the `u32` whose little-endian bytes sit at `pos`.
pub fn read_le32(b: &Vec<u8>, pos: usize) -> (v: u32)
    requires
        pos + 4 <= b@.len(),
    ensures
        v == spec_le32_val(b@.subrange(pos as int, pos as int + 4)),
{
    let end: usize = b.len();
    assert(pos + 4 <= end);
    let v = (b[pos] as u32)
        | ((b[pos + 1] as u32) << 8)
        | ((b[pos + 2] as u32) << 16)
        | ((b[pos + 3] as u32) << 24);
    proof {
        let s = b@.subrange(pos as int, pos as int + 4);
        assert(s[0] == b@[pos as int]);
        assert(s[1] == b@[pos as int + 1]);
        assert(s[2] == b@[pos as int + 2]);
        assert(s[3] == b@[pos as int + 3]);
    }
    v
}

} // verus!
