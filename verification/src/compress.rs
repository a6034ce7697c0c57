//! The persisted archive format and the best-scheme selector.
//!
//! A persisted archive is one leading scheme-id byte followed by the codec
//! output of the encoded container. Packing and unpacking add and remove
//! exactly that byte; no other transformation happens here. The selector
//! packs the same bytes under every registered scheme and keeps the
//! smallest result, lower id winning ties.

use vstd::prelude::*;
use vstd::slice::slice_subrange;

use crate::container::{push_bytes, SerializedArchive};
use crate::error::FormatError;
use crate::schema::{
    spec_all_schemas, spec_compress, spec_decompress, spec_decompressible, spec_id_of,
    spec_schema_of, CompressionSchema,
};

verus! {

/// The persisted bytes of packing `b` under scheme `s`: the id byte, then
/// the codec output.
pub open spec fn spec_pack(b: Seq<u8>, s: CompressionSchema) -> Seq<u8> {
    seq![spec_id_of(s)] + spec_compress(s, b)
}

/// A well-formed persisted archive: a defined leading id byte, and a
/// remainder its scheme can decompress.
pub open spec fn spec_valid_archive(a: Seq<u8>) -> bool {
    a.len() >= 1 && spec_schema_of(a[0]) is Some && spec_decompressible(
        spec_schema_of(a[0])->0,
        a.skip(1),
    )
}

/// The container bytes a persisted archive unpacks to: the remainder after
/// the id byte, decompressed under the scheme that byte selects.
pub open spec fn spec_unpack(a: Seq<u8>) -> Seq<u8>
    recommends
        spec_valid_archive(a),
{
    spec_decompress(spec_schema_of(a[0])->0, a.skip(1))
}

/// A persisted archive, held with its leading scheme-id byte. A value of
/// this type is always well formed: the id byte is defined and the
/// remainder decompresses under its scheme.
pub struct CompressedArchive {
    bytes: Vec<u8>,
}

impl View for CompressedArchive {
    type V = Seq<u8>;

    closed spec fn view(&self) -> Seq<u8> {
        self.bytes@
    }
}

impl CompressedArchive {
    #[verifier::type_invariant]
    spec fn wf(&self) -> bool {
        spec_valid_archive(self.bytes@)
    }

    /// Wraps already-persisted bytes, for example bytes read back from
    /// storage. The caller vouches that they are a persisted archive;
    /// `CompressionSchema::from_id` on the first byte tests the part of
    /// that a caller can test.
    pub fn from_bytes(bytes: Vec<u8>) -> (r: CompressedArchive)
        requires
            spec_valid_archive(bytes@),
        ensures
            r@ == bytes@,
    {
        CompressedArchive { bytes }
    }

    /// Packs an encoded container under `schema`, consuming it: the id
    /// byte, then the codec output. Unpacking the result yields the
    /// container bytes back.
    pub fn new(archive: SerializedArchive, schema: CompressionSchema) -> (r: CompressedArchive)
        ensures
            r@ == spec_pack(archive@, schema),
            spec_unpack(r@) == archive@,
    {
        pack_slice(archive.0.as_slice(), schema)
    }

    /// The persisted bytes, as the write collaborator takes them.
    pub fn as_bytes(&self) -> (r: &Vec<u8>)
        ensures
            r@ == self@,
    {
        &self.bytes
    }

    /// The total persisted size in bytes.
    pub fn len(&self) -> (r: usize)
        ensures
            r == self@.len(),
    {
        self.bytes.len()
    }

    /// The scheme recorded in the leading id byte.
    pub fn get_schema(&self) -> (r: CompressionSchema)
        ensures
            self@.len() >= 1 && spec_schema_of(self@[0]) == Some(r),
    {
        proof {
            use_type_invariant(self);
        }
        match CompressionSchema::from_id(self.bytes[0]) {
            Ok(s) => s,
            Err(_) => vstd::pervasive::unreached(),
        }
    }

    /// Unpacks the archive, consuming it: reads the scheme off the leading
    /// byte and decompresses the remainder under it.
    pub fn decompress(self) -> (r: SerializedArchive)
        ensures
            r@ == spec_unpack(self@),
    {
        proof {
            use_type_invariant(&self);
        }
        let schema = self.get_schema();
        let bytes = self.bytes;
        let rest = slice_subrange(bytes.as_slice(), 1, bytes.len());
        proof {
            assert(rest@ =~= bytes@.skip(1));
        }
        let out = schema.decompress(rest);
        SerializedArchive(out)
    }
}

/// Packs container bytes under `schema` without consuming them: the shared
/// engine behind `CompressedArchive::new` and `select_best`.
fn pack_slice(data: &[u8], schema: CompressionSchema) -> (r: CompressedArchive)
    ensures
        r@ == spec_pack(data@, schema),
        spec_unpack(r@) == data@,
{
    let compressed = schema.compress(data);
    let mut bytes: Vec<u8> = Vec::new();
    bytes.push(schema.id_of());
    push_bytes(&mut bytes, &compressed);
    proof {
        assert(bytes@ =~= seq![spec_id_of(schema)] + compressed@);
        assert(bytes@[0] == spec_id_of(schema));
        assert(bytes@.skip(1) =~= compressed@);
    }
    CompressedArchive::from_bytes(bytes)
}

impl SerializedArchive {
    /// Packs the encoded container under `schema`, consuming it.
    pub fn compress(self, schema: CompressionSchema) -> (r: CompressedArchive)
        ensures
            r@ == spec_pack(self@, schema),
            spec_unpack(r@) == self@,
    {
        CompressedArchive::new(self, schema)
    }
}

/// Packs the container bytes under every registered scheme and keeps the
/// smallest archive. Every scheme is evaluated — compressibility is data
/// dependent — and on equal lengths the scheme earlier in the table (the
/// lower id) wins, whatever the evaluation order. The result is never
/// longer than packing under the identity scheme, and unpacks to the
/// input.
#[verifier::loop_isolation(false)]
pub fn select_best(archive: &SerializedArchive) -> (r: CompressedArchive)
    ensures
        exists|i: int|
            #![auto]
            0 <= i < spec_all_schemas().len() && r@ == spec_pack(archive@, spec_all_schemas()[i])
                && (forall|j: int|
                0 <= j < spec_all_schemas().len() ==> r@.len() <= spec_pack(
                    archive@,
                    spec_all_schemas()[j],
                ).len()) && (forall|j: int|
                0 <= j < i ==> spec_pack(archive@, spec_all_schemas()[j]).len() > r@.len()),
        r@.len() <= 1 + archive@.len(),
        spec_unpack(r@) == archive@,
{
    let schemas = CompressionSchema::get_all_schemas();
    let data = archive.0.as_slice();
    let mut best = pack_slice(data, schemas[0]);
    let mut best_len = best.len();
    let ghost mut gi: int = 0;
    let mut k: usize = 1;
    while k < 7
        invariant
            1 <= k <= 7,
            0 <= gi < k,
            best@ == spec_pack(archive@, spec_all_schemas()[gi]),
            spec_unpack(best@) == archive@,
            best_len == best@.len(),
            forall|j: int|
                0 <= j < k ==> best@.len() <= spec_pack(archive@, spec_all_schemas()[j]).len(),
            forall|j: int| 0 <= j < gi ==> spec_pack(archive@, spec_all_schemas()[j]).len()
                > best@.len(),
        decreases 7 - k,
    {
        let cand = pack_slice(data, schemas[k]);
        let cand_len = cand.len();
        if cand_len < best_len {
            best = cand;
            best_len = cand_len;
            proof {
                gi = k as int;
            }
        }
        k = k + 1;
    }
    proof {
        assert(spec_all_schemas()[0] == CompressionSchema::Uncompressed);
        assert(spec_pack(archive@, CompressionSchema::Uncompressed).len() == 1 + archive@.len());
    }
    best
}

} // verus!
