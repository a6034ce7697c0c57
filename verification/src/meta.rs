//! Platform-neutral file metadata and its fixed-layout encoding.
//!
//! The metadata block of an entry is a presence bitmap, a readonly byte,
//! and then each present optional field in a fixed width: the permission
//! bits as four bytes, each timestamp as eight bytes of seconds and four
//! bytes of nanoseconds. Fields the source platform does not supply are
//! absent, and absence round-trips as absence.

use vstd::prelude::*;

use crate::error::FormatError;
use crate::wire::{
    push_le32, push_le64, read_u32_at, read_u64_at, sp_u32, sp_u64, spec_le32, spec_le64,
};

verus! {

/// A point in time: whole seconds relative to an epoch (two's complement)
/// and a subsecond count of nanoseconds.
#[derive(Clone, Copy, Debug, PartialEq, Eq)]
pub struct Timestamp {
    pub secs: i64,
    pub nanos: u32,
}

/// Captured permission state of a file. `mode` carries platform permission
/// bits where the platform has them; `readonly` is the one flag every
/// platform can answer.
#[derive(Clone, Copy, Debug, PartialEq, Eq)]
pub struct FilePermissions {
    pub mode: Option<u32>,
    pub readonly: bool,
}

/// Captured metadata of one file. A field whose source platform does not
/// support it is `None`, never fabricated.
#[derive(Clone, Copy, Debug, PartialEq, Eq)]
pub struct FileMetadata {
    pub permissions: FilePermissions,
    pub accessed: Option<Timestamp>,
    pub modified: Option<Timestamp>,
    pub created: Option<Timestamp>,
}

/// The presence bitmap of a metadata block: one bit per optional field.
pub open spec fn spec_flags_byte(m: FileMetadata) -> u8 {
    (if m.permissions.mode is Some { 1u8 } else { 0u8 })
        | (if m.accessed is Some { 2u8 } else { 0u8 })
        | (if m.modified is Some { 4u8 } else { 0u8 })
        | (if m.created is Some { 8u8 } else { 0u8 })
}

/// The twelve bytes of a timestamp.
pub open spec fn spec_encode_ts(t: Timestamp) -> Seq<u8> {
    spec_le64(t.secs as u64) + spec_le32(t.nanos)
}

/// The bytes of an optional permission-bits field: empty when absent.
pub open spec fn spec_encode_opt_u32(o: Option<u32>) -> Seq<u8> {
    match o {
        Some(v) => spec_le32(v),
        None => seq![],
    }
}

/// The bytes of an optional timestamp field: empty when absent.
pub open spec fn spec_encode_opt_ts(o: Option<Timestamp>) -> Seq<u8> {
    match o {
        Some(t) => spec_encode_ts(t),
        None => seq![],
    }
}

/// The full metadata block of `m`.
#[verifier::opaque]
pub open spec fn spec_encode_meta(m: FileMetadata) -> Seq<u8> {
    seq![spec_flags_byte(m), if m.permissions.readonly { 1u8 } else { 0u8 }] + (
    spec_encode_opt_u32(m.permissions.mode) + (spec_encode_opt_ts(m.accessed) + (
    spec_encode_opt_ts(m.modified) + spec_encode_opt_ts(m.created))))
}

/// Parses a timestamp from the front of `b`.
pub open spec fn sp_ts(b: Seq<u8>) -> Result<(Timestamp, Seq<u8>), FormatError> {
    match sp_u64(b) {
        Err(e) => Err(e),
        Ok((s, r1)) => match sp_u32(r1) {
            Err(e) => Err(e),
            Ok((n, r2)) => Ok((Timestamp { secs: s as i64, nanos: n }, r2)),
        },
    }
}

/// Parses an optional permission-bits field, present or not per the bitmap.
pub open spec fn sp_opt_u32(b: Seq<u8>, present: bool) -> Result<
    (Option<u32>, Seq<u8>),
    FormatError,
> {
    if present {
        match sp_u32(b) {
            Err(e) => Err(e),
            Ok((v, r)) => Ok((Some(v), r)),
        }
    } else {
        Ok((None, b))
    }
}

/// Parses an optional timestamp field, present or not per the bitmap.
pub open spec fn sp_opt_ts(b: Seq<u8>, present: bool) -> Result<
    (Option<Timestamp>, Seq<u8>),
    FormatError,
> {
    if present {
        match sp_ts(b) {
            Err(e) => Err(e),
            Ok((t, r)) => Ok((Some(t), r)),
        }
    } else {
        Ok((None, b))
    }
}

/// Parses a whole metadata block from the front of `b`: bitmap, readonly
/// byte, then each present field. A bitmap bit that no field is assigned,
/// or a readonly byte other than 0 or 1, is a format error.
#[verifier::opaque]
pub open spec fn sp_meta(b: Seq<u8>) -> Result<(FileMetadata, Seq<u8>), FormatError> {
    if b.len() < 2 {
        Err(FormatError::Truncated)
    } else if b[0] >= 16 {
        Err(FormatError::BadPresenceFlags)
    } else if b[1] != 0 && b[1] != 1 {
        Err(FormatError::BadBoolean)
    } else {
        let f = b[0];
        let ro = b[1] == 1;
        match sp_opt_u32(b.skip(2), f & 1 == 1) {
            Err(e) => Err(e),
            Ok((mode, r1)) => match sp_opt_ts(r1, f & 2 == 2) {
                Err(e) => Err(e),
                Ok((acc, r2)) => match sp_opt_ts(r2, f & 4 == 4) {
                    Err(e) => Err(e),
                    Ok((md, r3)) => match sp_opt_ts(r3, f & 8 == 8) {
                        Err(e) => Err(e),
                        Ok((cr, r4)) => Ok(
                            (
                                FileMetadata {
                                    permissions: FilePermissions { mode, readonly: ro },
                                    accessed: acc,
                                    modified: md,
                                    created: cr,
                                },
                                r4,
                            ),
                        ),
                    },
                },
            },
        }
    }
}

/// The presence bitmap stays below 16 and each bit test recovers exactly
/// the presence of its field.
pub proof fn lemma_flags_byte(m: FileMetadata)
    ensures
        spec_flags_byte(m) < 16,
        spec_flags_byte(m) & 1 == 1 <==> m.permissions.mode is Some,
        spec_flags_byte(m) & 2 == 2 <==> m.accessed is Some,
        spec_flags_byte(m) & 4 == 4 <==> m.modified is Some,
        spec_flags_byte(m) & 8 == 8 <==> m.created is Some,
{
    let a: u8 = if m.permissions.mode is Some { 1u8 } else { 0u8 };
    let b: u8 = if m.accessed is Some { 2u8 } else { 0u8 };
    let c: u8 = if m.modified is Some { 4u8 } else { 0u8 };
    let d: u8 = if m.created is Some { 8u8 } else { 0u8 };
    assert((a == 0 || a == 1) && (b == 0 || b == 2) && (c == 0 || c == 4) && (d == 0 || d == 8)
        ==> (a | b | c | d) < 16 && ((a | b | c | d) & 1 == 1 <==> a == 1) && ((a | b | c | d) & 2
        == 2 <==> b == 2) && ((a | b | c | d) & 4 == 4 <==> c == 4) && ((a | b | c | d) & 8 == 8
        <==> d == 8)) by (bit_vector);
}

/// Parsing the front of an encoded timestamp yields it back.
pub proof fn lemma_sp_ts(t: Timestamp, rest: Seq<u8>)
    ensures
        sp_ts(spec_encode_ts(t) + rest) == Ok::<_, FormatError>((t, rest)),
{
    assert(spec_le64(t.secs as u64) + spec_le32(t.nanos) + rest =~= spec_le64(t.secs as u64) + (
    spec_le32(t.nanos) + rest));
    crate::wire::lemma_sp_u64(t.secs as u64, spec_le32(t.nanos) + rest);
    crate::wire::lemma_sp_u32(t.nanos, rest);
    let s = t.secs;
    assert(((s as u64) as i64) == s) by (bit_vector);
}

/// Parsing the front of an encoded metadata block yields it back.
pub proof fn lemma_sp_meta(m: FileMetadata, rest: Seq<u8>)
    ensures
        sp_meta(spec_encode_meta(m) + rest) == Ok::<_, FormatError>((m, rest)),
{
    broadcast use vstd::seq_lib::lemma_seq_append_take_skip;

    reveal(spec_encode_meta);
    reveal(sp_meta);
    let f = spec_flags_byte(m);
    let h = seq![f, if m.permissions.readonly { 1u8 } else { 0u8 }];
    let mo = spec_encode_opt_u32(m.permissions.mode);
    let acc = spec_encode_opt_ts(m.accessed);
    let md = spec_encode_opt_ts(m.modified);
    let cre = spec_encode_opt_ts(m.created);
    lemma_flags_byte(m);
    // Reassociate the encoding so that the head and each tail stand alone.
    vstd::seq_lib::lemma_concat_associative(h, mo + (acc + (md + cre)), rest);
    let b = spec_encode_meta(m) + rest;
    assert(b == h + ((mo + (acc + (md + cre))) + rest));
    vstd::seq_lib::lemma_concat_associative(mo, acc + (md + cre), rest);
    vstd::seq_lib::lemma_concat_associative(acc, md + cre, rest);
    vstd::seq_lib::lemma_concat_associative(md, cre, rest);
    let tail0 = cre + rest;
    let tail1 = md + tail0;
    let tail2 = acc + tail1;
    let tail3 = mo + tail2;
    assert(b.skip(2) == tail3);
    assert(b[0] == f);
    assert(b[1] == (if m.permissions.readonly { 1u8 } else { 0u8 }));
    lemma_sp_opt_u32(m.permissions.mode, tail2);
    lemma_sp_opt_ts(m.accessed, tail1);
    lemma_sp_opt_ts(m.modified, tail0);
    lemma_sp_opt_ts(m.created, rest);
}

/// Parsing the front of an encoded optional permission field yields it back.
pub proof fn lemma_sp_opt_u32(o: Option<u32>, rest: Seq<u8>)
    ensures
        sp_opt_u32(spec_encode_opt_u32(o) + rest, o is Some) == Ok::<_, FormatError>((o, rest)),
{
    match o {
        Some(v) => {
            crate::wire::lemma_sp_u32(v, rest);
        },
        None => {
            Seq::add_empty_left(spec_encode_opt_u32(o), rest);
        },
    }
}

/// Parsing the front of an encoded optional timestamp yields it back.
pub proof fn lemma_sp_opt_ts(o: Option<Timestamp>, rest: Seq<u8>)
    ensures
        sp_opt_ts(spec_encode_opt_ts(o) + rest, o is Some) == Ok::<_, FormatError>((o, rest)),
{
    match o {
        Some(t) => {
            lemma_sp_ts(t, rest);
        },
        None => {
            Seq::add_empty_left(spec_encode_opt_ts(o), rest);
        },
    }
}

/// Appends the twelve bytes of a timestamp to `out`.
pub fn push_ts(out: &mut Vec<u8>, t: &Timestamp)
    ensures
        final(out)@ == old(out)@ + spec_encode_ts(*t),
{
    push_le64(out, t.secs as u64);
    push_le32(out, t.nanos);
    proof {
        vstd::seq_lib::lemma_concat_associative(
            old(out)@,
            spec_le64(t.secs as u64),
            spec_le32(t.nanos),
        );
    }
}

/// Appends the metadata block of `m` to `out`.
pub fn push_meta(out: &mut Vec<u8>, m: &FileMetadata)
    ensures
        final(out)@ == old(out)@ + spec_encode_meta(*m),
{
    proof {
        reveal(spec_encode_meta);
    }
    let a: u8 = if m.permissions.mode.is_some() { 1 } else { 0 };
    let b: u8 = if m.accessed.is_some() { 2 } else { 0 };
    let c: u8 = if m.modified.is_some() { 4 } else { 0 };
    let d: u8 = if m.created.is_some() { 8 } else { 0 };
    let ghost h = seq![
        spec_flags_byte(*m),
        if m.permissions.readonly { 1u8 } else { 0u8 },
    ];
    out.push(a | b | c | d);
    out.push(if m.permissions.readonly { 1 } else { 0 });
    assert(out@ =~= old(out)@ + h);
    let ghost s1 = out@;
    if let Some(v) = m.permissions.mode {
        push_le32(out, v);
    }
    proof {
        if m.permissions.mode is None {
            Seq::add_empty_right(s1, spec_encode_opt_u32(m.permissions.mode));
        }
    }
    let ghost s2 = out@;
    if let Some(t) = m.accessed {
        push_ts(out, &t);
    }
    proof {
        if m.accessed is None {
            Seq::add_empty_right(s2, spec_encode_opt_ts(m.accessed));
        }
    }
    let ghost s3 = out@;
    if let Some(t) = m.modified {
        push_ts(out, &t);
    }
    proof {
        if m.modified is None {
            Seq::add_empty_right(s3, spec_encode_opt_ts(m.modified));
        }
    }
    let ghost s4 = out@;
    if let Some(t) = m.created {
        push_ts(out, &t);
    }
    proof {
        if m.created is None {
            Seq::add_empty_right(s4, spec_encode_opt_ts(m.created));
        }
        let mo = spec_encode_opt_u32(m.permissions.mode);
        let acc = spec_encode_opt_ts(m.accessed);
        let md = spec_encode_opt_ts(m.modified);
        let cre = spec_encode_opt_ts(m.created);
        // out@ grew left-associated; the block is stated right-associated.
        vstd::seq_lib::lemma_concat_associative(old(out)@, h, mo + (acc + (md + cre)));
        vstd::seq_lib::lemma_concat_associative(old(out)@ + h, mo, acc + (md + cre));
        vstd::seq_lib::lemma_concat_associative((old(out)@ + h) + mo, acc, md + cre);
        vstd::seq_lib::lemma_concat_associative(((old(out)@ + h) + mo) + acc, md, cre);
        assert(out@ == old(out)@ + spec_encode_meta(*m));
    }
}

/// Reads an optional timestamp out of `b` at `pos`, exactly as `sp_opt_ts`
/// parses the suffix that starts there.
fn read_opt_ts_at(b: &Vec<u8>, pos: usize, present: bool) -> (r: Result<
    (Option<Timestamp>, usize),
    FormatError,
>)
    requires
        pos <= b@.len(),
    ensures
        match r {
            Ok(t) => sp_opt_ts(b@.skip(pos as int), present) == Ok::<_, FormatError>(
                (t.0, b@.skip(t.1 as int)),
            ) && pos <= t.1 <= b@.len(),
            Err(e) => sp_opt_ts(b@.skip(pos as int), present) == Err::<
                (Option<Timestamp>, Seq<u8>),
                _,
            >(e),
        },
{
    if !present {
        return Ok((None, pos));
    }
    let (s, p1) = match read_u64_at(b, pos) {
        Ok(t) => t,
        Err(e) => {
            return Err(e);
        },
    };
    let (n, p2) = match read_u32_at(b, p1) {
        Ok(t) => t,
        Err(e) => {
            return Err(e);
        },
    };
    Ok((Some(Timestamp { secs: s as i64, nanos: n }), p2))
}

/// Reads a metadata block out of `b` at `pos`, exactly as `sp_meta` parses
/// the suffix that starts there.
pub fn read_meta_at(b: &Vec<u8>, pos: usize) -> (r: Result<(FileMetadata, usize), FormatError>)
    requires
        pos <= b@.len(),
    ensures
        match r {
            Ok(t) => sp_meta(b@.skip(pos as int)) == Ok::<_, FormatError>(
                (t.0, b@.skip(t.1 as int)),
            ) && pos <= t.1 <= b@.len(),
            Err(e) => sp_meta(b@.skip(pos as int)) == Err::<(FileMetadata, Seq<u8>), _>(e),
        },
{
    proof {
        reveal(sp_meta);
    }
    let l: usize = b.len();
    if l - pos < 2 {
        return Err(FormatError::Truncated);
    }
    let f = b[pos];
    if f >= 16 {
        return Err(FormatError::BadPresenceFlags);
    }
    let rb = b[pos + 1];
    if rb != 0 && rb != 1 {
        return Err(FormatError::BadBoolean);
    }
    let ro = rb == 1;
    proof {
        assert(b@.skip(pos as int)[0] == f);
        assert(b@.skip(pos as int)[1] == rb);
        assert(b@.skip(pos as int).skip(2) =~= b@.skip(pos as int + 2));
    }
    let (mode, p1) = if f & 1 == 1 {
        match read_u32_at(b, pos + 2) {
            Ok((v, p)) => (Some(v), p),
            Err(e) => {
                return Err(e);
            },
        }
    } else {
        (None, pos + 2)
    };
    let (acc, p2) = match read_opt_ts_at(b, p1, f & 2 == 2) {
        Ok(t) => t,
        Err(e) => {
            return Err(e);
        },
    };
    let (md, p3) = match read_opt_ts_at(b, p2, f & 4 == 4) {
        Ok(t) => t,
        Err(e) => {
            return Err(e);
        },
    };
    let (cr, p4) = match read_opt_ts_at(b, p3, f & 8 == 8) {
        Ok(t) => t,
        Err(e) => {
            return Err(e);
        },
    };
    Ok(
        (
            FileMetadata {
                permissions: FilePermissions { mode, readonly: ro },
                accessed: acc,
                modified: md,
                created: cr,
            },
            p4,
        ),
    )
}

} // verus!
