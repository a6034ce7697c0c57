//! The fixed registry of compression schemes.
//!
//! Each scheme is a codec family with fixed parameters, identified by a
//! stable one-byte id: 0 is the identity scheme, 1 through 4 are the
//! deflate family over {dynamic, static} block sizing and {large, small}
//! block size, and 33 and 34 are the LZMA family at levels 3 and 6. The
//! gap 5 through 32 is reserved for deflate-family growth, so nothing is
//! ever renumbered. The id space is a strict bijection, and an undefined
//! id on read is a format error.

use vstd::prelude::*;
use vstd::slice::slice_to_vec;

use crate::error::FormatError;

verus! {

/// One compression scheme: a codec family together with its fixed
/// parameters.
#[derive(Clone, Copy, Debug, PartialEq, Eq, Structural)]
pub enum CompressionSchema {
    Uncompressed,
    Flate3DynamicBlockLarge,
    Flate3DynamicBlockSmall,
    Flate3StaticBlockLarge,
    Flate3StaticBlockSmall,
    LzmaXz3,
    LzmaXz6,
}

/// The id byte under which a scheme is persisted.
pub open spec fn spec_id_of(s: CompressionSchema) -> u8 {
    match s {
        CompressionSchema::Uncompressed => 0,
        CompressionSchema::Flate3DynamicBlockLarge => 1,
        CompressionSchema::Flate3DynamicBlockSmall => 2,
        CompressionSchema::Flate3StaticBlockLarge => 3,
        CompressionSchema::Flate3StaticBlockSmall => 4,
        CompressionSchema::LzmaXz3 => 33,
        CompressionSchema::LzmaXz6 => 34,
    }
}

/// The scheme a persisted id byte denotes, if any.
pub open spec fn spec_schema_of(id: u8) -> Option<CompressionSchema> {
    if id == 0 {
        Some(CompressionSchema::Uncompressed)
    } else if id == 1 {
        Some(CompressionSchema::Flate3DynamicBlockLarge)
    } else if id == 2 {
        Some(CompressionSchema::Flate3DynamicBlockSmall)
    } else if id == 3 {
        Some(CompressionSchema::Flate3StaticBlockLarge)
    } else if id == 4 {
        Some(CompressionSchema::Flate3StaticBlockSmall)
    } else if id == 33 {
        Some(CompressionSchema::LzmaXz3)
    } else if id == 34 {
        Some(CompressionSchema::LzmaXz6)
    } else {
        None
    }
}

/// Every scheme, in ascending id order: the registry's enumeration order.
pub open spec fn spec_all_schemas() -> Seq<CompressionSchema> {
    seq![
        CompressionSchema::Uncompressed,
        CompressionSchema::Flate3DynamicBlockLarge,
        CompressionSchema::Flate3DynamicBlockSmall,
        CompressionSchema::Flate3StaticBlockLarge,
        CompressionSchema::Flate3StaticBlockSmall,
        CompressionSchema::LzmaXz3,
        CompressionSchema::LzmaXz6,
    ]
}

/// The id table is a strict bijection: every scheme resolves back from its
/// id, only the seven defined ids resolve at all, and no two schemes share
/// an id.
pub proof fn lemma_id_bijection()
    ensures
        forall|s: CompressionSchema| #![auto] spec_schema_of(spec_id_of(s)) == Some(s),
        forall|id: u8| #![auto]
            (spec_schema_of(id) is Some) <==> (id == 0 || id == 1 || id == 2 || id == 3 || id == 4
                || id == 33 || id == 34),
        forall|id: u8, s: CompressionSchema| #![auto]
            spec_schema_of(id) == Some(s) ==> spec_id_of(s) == id,
{
}

/// The identity scheme is exactly that: compressing and decompressing
/// under `Uncompressed` leave every byte sequence unchanged.
pub proof fn lemma_identity_scheme(x: Seq<u8>)
    ensures
        spec_compress(CompressionSchema::Uncompressed, x) == x,
        spec_decompress(CompressionSchema::Uncompressed, x) == x,
{
}

/// What `flate3`'s compressor emits for the given block options and input.
/// The match pipeline is deterministic for fixed options, so this is a
/// function of the arguments alone.
pub uninterp spec fn deflate_of(dynamic: bool, block_size: usize, data: Seq<u8>) -> Seq<u8>;

/// What `flate3::inflate` yields on a stream some deflate run produced.
pub uninterp spec fn inflate_of(data: Seq<u8>) -> Seq<u8>;

/// What `xz2`'s encoder emits at the given preset level.
pub uninterp spec fn xz_encode_of(level: u32, data: Seq<u8>) -> Seq<u8>;

/// What `xz2`'s decoder yields from the given bytes, a read error cutting
/// the output short.
pub uninterp spec fn xz_decode_of(data: Seq<u8>) -> Seq<u8>;

/// Relies on flate3::Compressor::deflate with the given block options:
/// the output depends on the options and input alone, and flate3::inflate
/// recovers the input from it.
#[verifier::external_body]
fn compress_flate3(dynamic: bool, block_size: usize, data: &[u8]) -> (r: Vec<u8>)
    ensures
        r@ == deflate_of(dynamic, block_size, data@),
        inflate_of(r@) == data@,
{
    flate3::Compressor {
        options: flate3::Options {
            dynamic_block_size: dynamic,
            block_size,
            matching: true,
            probe_max: 100,
            lazy_match: true,
            match_channel_size: 100,
        },
    }.deflate(data)
}

/// Relies on flate3::inflate: deterministic in its input bytes. On bytes
/// that no deflate run produced it may panic, so those are excluded.
#[verifier::external_body]
fn inflate_flate3(data: &[u8]) -> (r: Vec<u8>)
    requires
        exists|dy: bool, bs: usize, d: Seq<u8>| data@ == deflate_of(dy, bs, d),
    ensures
        r@ == inflate_of(data@),
{
    flate3::inflate(data)
}

/// Relies on xz2's XzEncoder at the given preset (constructing one with a
/// preset above 9 panics): the output depends on level and input alone,
/// and xz decoding recovers the input from it.
#[verifier::external_body]
fn compress_xz(level: u32, data: &[u8]) -> (r: Vec<u8>)
    requires
        level <= 9,
    ensures
        r@ == xz_encode_of(level, data@),
        xz_decode_of(r@) == data@,
{
    let mut out = Vec::new();
    let _ = std::io::Read::read_to_end(&mut xz2::read::XzEncoder::new(data, level), &mut out);
    out
}

/// Relies on xz2's XzDecoder read to end, a read error leaving the partial
/// output: total, and deterministic in its input bytes.
#[verifier::external_body]
fn decompress_xz(data: &[u8]) -> (r: Vec<u8>)
    ensures
        r@ == xz_decode_of(data@),
{
    let mut out = Vec::new();
    let _ = std::io::Read::read_to_end(&mut xz2::read::XzDecoder::new(data), &mut out);
    out
}

/// The codec output scheme `s` produces from `d`. The identity scheme
/// leaves the bytes untouched.
pub open spec fn spec_compress(s: CompressionSchema, d: Seq<u8>) -> Seq<u8> {
    match s {
        CompressionSchema::Uncompressed => d,
        CompressionSchema::Flate3DynamicBlockLarge => deflate_of(true, 0x8000, d),
        CompressionSchema::Flate3DynamicBlockSmall => deflate_of(true, 0x2000, d),
        CompressionSchema::Flate3StaticBlockLarge => deflate_of(false, 0x8000, d),
        CompressionSchema::Flate3StaticBlockSmall => deflate_of(false, 0x2000, d),
        CompressionSchema::LzmaXz3 => xz_encode_of(3, d),
        CompressionSchema::LzmaXz6 => xz_encode_of(6, d),
    }
}

/// What decompression under scheme `s` yields from `d`. The identity
/// scheme leaves the bytes untouched.
pub open spec fn spec_decompress(s: CompressionSchema, d: Seq<u8>) -> Seq<u8> {
    match s {
        CompressionSchema::Uncompressed => d,
        CompressionSchema::Flate3DynamicBlockLarge
        | CompressionSchema::Flate3DynamicBlockSmall
        | CompressionSchema::Flate3StaticBlockLarge
        | CompressionSchema::Flate3StaticBlockSmall => inflate_of(d),
        CompressionSchema::LzmaXz3 | CompressionSchema::LzmaXz6 => xz_decode_of(d),
    }
}

/// Bytes that scheme `s` decompresses without failing: anything under the
/// identity and LZMA paths, and under a deflate path a stream some deflate
/// run produced.
pub open spec fn spec_decompressible(s: CompressionSchema, d: Seq<u8>) -> bool {
    match s {
        CompressionSchema::Flate3DynamicBlockLarge
        | CompressionSchema::Flate3DynamicBlockSmall
        | CompressionSchema::Flate3StaticBlockLarge
        | CompressionSchema::Flate3StaticBlockSmall => exists|dy: bool, bs: usize, d0: Seq<u8>|
            d == deflate_of(dy, bs, d0),
        _ => true,
    }
}

impl CompressionSchema {
    /// Resolves a persisted id byte. An undefined id is a format error:
    /// it signals stream corruption or a newer format this registry does
    /// not know.
    pub fn from_id(id: u8) -> (r: Result<CompressionSchema, FormatError>)
        ensures
            match r {
                Ok(s) => spec_schema_of(id) == Some(s),
                Err(e) => spec_schema_of(id) is None && e == FormatError::UnknownSchemeId,
            },
    {
        if id == 0 {
            Ok(CompressionSchema::Uncompressed)
        } else if id == 1 {
            Ok(CompressionSchema::Flate3DynamicBlockLarge)
        } else if id == 2 {
            Ok(CompressionSchema::Flate3DynamicBlockSmall)
        } else if id == 3 {
            Ok(CompressionSchema::Flate3StaticBlockLarge)
        } else if id == 4 {
            Ok(CompressionSchema::Flate3StaticBlockSmall)
        } else if id == 33 {
            Ok(CompressionSchema::LzmaXz3)
        } else if id == 34 {
            Ok(CompressionSchema::LzmaXz6)
        } else {
            Err(FormatError::UnknownSchemeId)
        }
    }

    /// The id byte under which this scheme is persisted.
    pub fn id_of(&self) -> (r: u8)
        ensures
            r == spec_id_of(*self),
    {
        match self {
            CompressionSchema::Uncompressed => 0,
            CompressionSchema::Flate3DynamicBlockLarge => 1,
            CompressionSchema::Flate3DynamicBlockSmall => 2,
            CompressionSchema::Flate3StaticBlockLarge => 3,
            CompressionSchema::Flate3StaticBlockSmall => 4,
            CompressionSchema::LzmaXz3 => 33,
            CompressionSchema::LzmaXz6 => 34,
        }
    }

    /// Every registered scheme, in ascending id order.
    pub fn get_all_schemas() -> (r: [CompressionSchema; 7])
        ensures
            r@ == spec_all_schemas(),
    {
        let r = [
            CompressionSchema::Uncompressed,
            CompressionSchema::Flate3DynamicBlockLarge,
            CompressionSchema::Flate3DynamicBlockSmall,
            CompressionSchema::Flate3StaticBlockLarge,
            CompressionSchema::Flate3StaticBlockSmall,
            CompressionSchema::LzmaXz3,
            CompressionSchema::LzmaXz6,
        ];
        proof {
            assert(r@ =~= spec_all_schemas());
        }
        r
    }

    /// A human-readable name for reporting.
    pub fn schema_string(&self) -> (r: &'static str)
        ensures
            *self is Uncompressed ==> r@ == "Uncompressed"@,
            *self is Flate3DynamicBlockLarge ==> r@ == "flate3_DynamicBlockLarge"@,
            *self is Flate3DynamicBlockSmall ==> r@ == "flate3_DynamicBlockSmall"@,
            *self is Flate3StaticBlockLarge ==> r@ == "flate3_StaticBlockLarge"@,
            *self is Flate3StaticBlockSmall ==> r@ == "flate3_StaticBlockSmall"@,
            *self is LzmaXz3 ==> r@ == "lzma/xz_lv3"@,
            *self is LzmaXz6 ==> r@ == "lzma/xz_lv6"@,
    {
        match self {
            CompressionSchema::Uncompressed => "Uncompressed",
            CompressionSchema::Flate3DynamicBlockLarge => "flate3_DynamicBlockLarge",
            CompressionSchema::Flate3DynamicBlockSmall => "flate3_DynamicBlockSmall",
            CompressionSchema::Flate3StaticBlockLarge => "flate3_StaticBlockLarge",
            CompressionSchema::Flate3StaticBlockSmall => "flate3_StaticBlockSmall",
            CompressionSchema::LzmaXz3 => "lzma/xz_lv3",
            CompressionSchema::LzmaXz6 => "lzma/xz_lv6",
        }
    }

    /// Compresses `data` under this scheme. Whatever the codec emitted,
    /// decompressing it under the same scheme yields `data` back, and the
    /// identity scheme returns `data` unchanged.
    pub fn compress(&self, data: &[u8]) -> (r: Vec<u8>)
        ensures
            r@ == spec_compress(*self, data@),
            spec_decompressible(*self, r@),
            spec_decompress(*self, r@) == data@,
    {
        match self {
            CompressionSchema::Uncompressed => slice_to_vec(data),
            CompressionSchema::Flate3DynamicBlockLarge => compress_flate3(true, 0x8000, data),
            CompressionSchema::Flate3DynamicBlockSmall => compress_flate3(true, 0x2000, data),
            CompressionSchema::Flate3StaticBlockLarge => compress_flate3(false, 0x8000, data),
            CompressionSchema::Flate3StaticBlockSmall => compress_flate3(false, 0x2000, data),
            CompressionSchema::LzmaXz3 => compress_xz(3, data),
            CompressionSchema::LzmaXz6 => compress_xz(6, data),
        }
    }

    /// Decompresses `data` under this scheme; the identity scheme returns
    /// it unchanged. The deflate paths ask that the bytes come from some
    /// deflate run, which every output of `compress` satisfies.
    pub fn decompress(&self, data: &[u8]) -> (r: Vec<u8>)
        requires
            spec_decompressible(*self, data@),
        ensures
            r@ == spec_decompress(*self, data@),
    {
        match self {
            CompressionSchema::Uncompressed => slice_to_vec(data),
            CompressionSchema::Flate3DynamicBlockLarge
            | CompressionSchema::Flate3DynamicBlockSmall
            | CompressionSchema::Flate3StaticBlockLarge
            | CompressionSchema::Flate3StaticBlockSmall => inflate_flate3(data),
            CompressionSchema::LzmaXz3 | CompressionSchema::LzmaXz6 => decompress_xz(data),
        }
    }
}

} // verus!
