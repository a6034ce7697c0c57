//! The archive container: an ordered sequence of entries and its
//! deterministic, self-describing binary encoding.
//!
//! The encoding is an entry count, then each entry in order: the
//! length-prefixed path, the length-prefixed content, and the fixed-layout
//! metadata block. Decoding is the exact inverse; malformed bytes fail with
//! a `FormatError` rather than yielding a container.

use vstd::prelude::*;
use vstd::seq_lib::lemma_concat_associative;
use vstd::seq_lib::lemma_seq_append_take_skip;
use vstd::slice::{slice_subrange, slice_to_vec};

use crate::error::FormatError;
use crate::meta::{lemma_sp_meta, push_meta, read_meta_at, sp_meta, spec_encode_meta, FileMetadata};
use crate::wire::{lemma_sp_u64, push_le64, read_u64_at, sp_u64, spec_le64};

verus! {

/// The mathematical value of one archived file: its path bytes, its
/// content bytes, and its captured metadata.
pub ghost struct EntryModel {
    pub name: Seq<u8>,
    pub content: Seq<u8>,
    pub meta: FileMetadata,
}

/// One archived file: the path under which it is restored (held verbatim,
/// as bytes), its content, and its captured metadata.
#[derive(Clone, Debug, PartialEq, Eq)]
pub struct ArchiveEntry {
    pub name: Vec<u8>,
    pub content: Vec<u8>,
    pub meta: FileMetadata,
}

impl View for ArchiveEntry {
    type V = EntryModel;

    open spec fn view(&self) -> EntryModel {
        EntryModel { name: self.name@, content: self.content@, meta: self.meta }
    }
}

impl ArchiveEntry {
    /// Builds the entry for one file from its already-read parts.
    pub fn new(name: Vec<u8>, content: Vec<u8>, meta: FileMetadata) -> (r: ArchiveEntry)
        ensures
            r@ == (EntryModel { name: name@, content: content@, meta }),
    {
        ArchiveEntry { name, content, meta }
    }
}

/// An ordered sequence of entries. Order is preserved end-to-end; duplicate
/// paths are legal input and stay duplicated.
#[derive(Clone, Debug, PartialEq, Eq)]
pub struct Archive(pub Vec<ArchiveEntry>);

/// The models of a sequence of entries, in order.
pub open spec fn views_of(v: Seq<ArchiveEntry>) -> Seq<EntryModel> {
    v.map_values(|e: ArchiveEntry| e@)
}

impl View for Archive {
    type V = Seq<EntryModel>;

    open spec fn view(&self) -> Seq<EntryModel> {
        views_of(self.0@)
    }
}

impl Archive {
    /// Builds a container over already-built entries, keeping their order.
    pub fn new(entries: Vec<ArchiveEntry>) -> (r: Archive)
        ensures
            r@ == views_of(entries@),
    {
        Archive(entries)
    }
}

/// The encoded bytes of a container, the stage between building and
/// compressing. Consuming it by the next stage invalidates it.
#[derive(Clone, Debug, PartialEq, Eq)]
pub struct SerializedArchive(pub Vec<u8>);

impl View for SerializedArchive {
    type V = Seq<u8>;

    open spec fn view(&self) -> Seq<u8> {
        self.0@
    }
}

/// A length-prefixed byte field: eight bytes of length, then the bytes.
pub open spec fn spec_encode_chunk(d: Seq<u8>) -> Seq<u8> {
    spec_le64(d.len() as u64) + d
}

/// The bytes of one encoded entry.
#[verifier::opaque]
pub open spec fn spec_encode_entry(e: EntryModel) -> Seq<u8> {
    spec_encode_chunk(e.name) + (spec_encode_chunk(e.content) + spec_encode_meta(e.meta))
}

/// The bytes of a sequence of encoded entries, in order.
pub open spec fn spec_encode_entries(s: Seq<EntryModel>) -> Seq<u8>
    decreases s.len(),
{
    if s.len() == 0 {
        seq![]
    } else {
        spec_encode_entry(s[0]) + spec_encode_entries(s.skip(1))
    }
}

/// The full container encoding: the entry count, then the entries.
pub open spec fn spec_encode(c: Seq<EntryModel>) -> Seq<u8> {
    spec_le64(c.len() as u64) + spec_encode_entries(c)
}

/// An entry whose path and content lengths fit the length prefix.
pub open spec fn entry_encodable(e: EntryModel) -> bool {
    e.name.len() <= u64::MAX && e.content.len() <= u64::MAX
}

/// A container whose counts and lengths fit the format's fixed-width
/// fields. Every container held in `Archive` satisfies this.
pub open spec fn encodable(c: Seq<EntryModel>) -> bool {
    c.len() <= u64::MAX && forall|i: int| 0 <= i < c.len() ==> entry_encodable(#[trigger] c[i])
}

/// Parses a length-prefixed byte field from the front of `b`.
pub open spec fn sp_chunk(b: Seq<u8>) -> Result<(Seq<u8>, Seq<u8>), FormatError> {
    match sp_u64(b) {
        Err(e) => Err(e),
        Ok((n, r)) => if r.len() >= n {
            Ok((r.take(n as int), r.skip(n as int)))
        } else {
            Err(FormatError::Truncated)
        },
    }
}

/// Parses one entry from the front of `b`.
#[verifier::opaque]
pub open spec fn sp_entry(b: Seq<u8>) -> Result<(EntryModel, Seq<u8>), FormatError> {
    match sp_chunk(b) {
        Err(e) => Err(e),
        Ok((name, r1)) => match sp_chunk(r1) {
            Err(e) => Err(e),
            Ok((content, r2)) => match sp_meta(r2) {
                Err(e) => Err(e),
                Ok((meta, r3)) => Ok((EntryModel { name, content, meta }, r3)),
            },
        },
    }
}

/// Parses `n` entries from the front of `b`, in order.
pub open spec fn sp_entries(b: Seq<u8>, n: nat) -> Result<(Seq<EntryModel>, Seq<u8>), FormatError>
    decreases n,
{
    if n == 0 {
        Ok((seq![], b))
    } else {
        match sp_entry(b) {
            Err(e) => Err(e),
            Ok((e0, r)) => match sp_entries(r, (n - 1) as nat) {
                Err(e) => Err(e),
                Ok((s, r2)) => Ok((seq![e0] + s, r2)),
            },
        }
    }
}

/// The container decoded from `b`, or the format error that `b` exhibits.
/// Bytes past the declared entries are an error: the encoding is
/// self-describing and exact.
pub open spec fn spec_decode(b: Seq<u8>) -> Result<Seq<EntryModel>, FormatError> {
    match sp_u64(b) {
        Err(e) => Err(e),
        Ok((n, r)) => match sp_entries(r, n as nat) {
            Err(e) => Err(e),
            Ok((s, r2)) => if r2.len() == 0 {
                Ok(s)
            } else {
                Err(FormatError::TrailingData)
            },
        },
    }
}

/// Parsing the front of an encoded chunk yields the bytes back.
pub proof fn lemma_sp_chunk(data: Seq<u8>, rest: Seq<u8>)
    requires
        data.len() <= u64::MAX,
    ensures
        sp_chunk(spec_encode_chunk(data) + rest) == Ok::<_, FormatError>((data, rest)),
{
    broadcast use lemma_seq_append_take_skip;

    lemma_concat_associative(spec_le64(data.len() as u64), data, rest);
    lemma_sp_u64(data.len() as u64, data + rest);
}

/// Parsing the front of an encoded entry yields it back.
pub proof fn lemma_sp_entry(e: EntryModel, rest: Seq<u8>)
    requires
        entry_encodable(e),
    ensures
        sp_entry(spec_encode_entry(e) + rest) == Ok::<_, FormatError>((e, rest)),
{
    reveal(spec_encode_entry);
    reveal(sp_entry);
    let c1 = spec_encode_chunk(e.name);
    let c2 = spec_encode_chunk(e.content);
    let m = spec_encode_meta(e.meta);
    lemma_concat_associative(c1, c2 + m, rest);
    lemma_concat_associative(c2, m, rest);
    assert(spec_encode_entry(e) + rest == c1 + (c2 + (m + rest)));
    lemma_sp_chunk(e.name, c2 + (m + rest));
    lemma_sp_chunk(e.content, m + rest);
    lemma_sp_meta(e.meta, rest);
}

/// Parsing the front of a sequence of encoded entries yields them back.
pub proof fn lemma_sp_entries(s: Seq<EntryModel>, rest: Seq<u8>)
    requires
        forall|i: int| 0 <= i < s.len() ==> entry_encodable(#[trigger] s[i]),
    ensures
        sp_entries(spec_encode_entries(s) + rest, s.len() as nat) == Ok::<_, FormatError>(
            (s, rest),
        ),
    decreases s.len(),
{
    if s.len() == 0 {
        Seq::add_empty_left(spec_encode_entries(s), rest);
        assert(s =~= seq![]);
    } else {
        let e0 = s[0];
        let tail = s.skip(1);
        let encs_tail = spec_encode_entries(tail);
        let b = spec_encode_entries(s) + rest;
        lemma_concat_associative(spec_encode_entry(e0), encs_tail, rest);
        assert(b == spec_encode_entry(e0) + (encs_tail + rest));
        lemma_sp_entry(e0, encs_tail + rest);
        assert(sp_entry(b) == Ok::<_, FormatError>((e0, encs_tail + rest)));
        lemma_sp_entries(tail, rest);
        assert(sp_entries(encs_tail + rest, tail.len() as nat) == Ok::<_, FormatError>(
            (tail, rest),
        ));
        assert(seq![e0] + tail =~= s);
        assert(sp_entries(b, s.len() as nat) == Ok::<_, FormatError>((s, rest)));
    }
}

/// Decoding an encoded container yields the container back, exactly.
pub proof fn lemma_decode_encode(c: Seq<EntryModel>)
    requires
        encodable(c),
    ensures
        spec_decode(spec_encode(c)) == Ok::<_, FormatError>(c),
{
    lemma_sp_u64(c.len() as u64, spec_encode_entries(c));
    Seq::add_empty_right(spec_encode_entries(c), seq![]);
    lemma_sp_entries(c, seq![]);
}

/// Every container held in an `Archive` is encodable: its count and its
/// entries' lengths are machine sizes, which the fixed 64-bit length
/// fields accommodate.
pub proof fn lemma_archive_encodable(a: &Archive)
    ensures
        encodable(a@),
{
    vstd::std_specs::vec::axiom_spec_len(&a.0);
    assert forall|i: int| 0 <= i < a@.len() implies entry_encodable(#[trigger] a@[i]) by {
        let e = a.0@[i];
        vstd::std_specs::vec::axiom_spec_len(&e.name);
        vstd::std_specs::vec::axiom_spec_len(&e.content);
        assert(a@[i] == e@);
    };
}

/// Round trip: decoding the encoding of any container yields it back,
/// field for field, the absence of optional metadata fields included.
pub proof fn lemma_archive_round_trip(a: &Archive)
    ensures
        spec_decode(spec_encode(a@)) == Ok::<_, FormatError>(a@),
{
    lemma_archive_encodable(a);
    lemma_decode_encode(a@);
}

/// Appends all of `data` to `out`.
pub fn push_bytes(out: &mut Vec<u8>, data: &Vec<u8>)
    ensures
        final(out)@ == old(out)@ + data@,
{
    let n = data.len();
    assert(out@ =~= old(out)@ + data@.take(0));
    let mut i: usize = 0;
    while i < n
        invariant
            i <= n,
            n == data@.len(),
            out@ == old(out)@ + data@.take(i as int),
        decreases n - i,
    {
        out.push(data[i]);
        proof {
            assert(data@.take(i as int).push(data@[i as int]) =~= data@.take(i as int + 1));
            assert(out@ =~= old(out)@ + data@.take(i as int + 1));
        }
        i = i + 1;
    }
    assert(data@.take(n as int) =~= data@);
}

/// Appends the length-prefixed encoding of `data` to `out`.
pub fn push_chunk(out: &mut Vec<u8>, data: &Vec<u8>)
    ensures
        final(out)@ == old(out)@ + spec_encode_chunk(data@),
{
    push_le64(out, data.len() as u64);
    push_bytes(out, data);
    proof {
        lemma_concat_associative(old(out)@, spec_le64(data@.len() as u64), data@);
    }
}

/// Encoding one entry more encodes it after the others.
pub proof fn lemma_encode_entries_snoc(s: Seq<EntryModel>, e: EntryModel)
    ensures
        spec_encode_entries(s.push(e)) == spec_encode_entries(s) + spec_encode_entry(e),
    decreases s.len(),
{
    let p = s.push(e);
    if s.len() == 0 {
        assert(p[0] == e);
        assert(p.skip(1) =~= Seq::<EntryModel>::empty());
        Seq::add_empty_right(spec_encode_entry(e), spec_encode_entries(p.skip(1)));
        Seq::add_empty_left(spec_encode_entries(s), spec_encode_entry(e));
    } else {
        assert(p[0] == s[0]);
        assert(p.skip(1) =~= s.skip(1).push(e));
        lemma_encode_entries_snoc(s.skip(1), e);
        lemma_concat_associative(
            spec_encode_entry(s[0]),
            spec_encode_entries(s.skip(1)),
            spec_encode_entry(e),
        );
    }
}

/// Appends the encoding of one entry to `out`.
pub fn push_entry(out: &mut Vec<u8>, e: &ArchiveEntry)
    ensures
        final(out)@ == old(out)@ + spec_encode_entry(e@),
{
    push_chunk(out, &e.name);
    push_chunk(out, &e.content);
    push_meta(out, &e.meta);
    proof {
        reveal(spec_encode_entry);
        let c1 = spec_encode_chunk(e.name@);
        let c2 = spec_encode_chunk(e.content@);
        let m = spec_encode_meta(e.meta);
        lemma_concat_associative(old(out)@ + c1, c2, m);
        lemma_concat_associative(old(out)@, c1, c2 + m);
    }
}

impl Archive {
    /// Encodes the container into its deterministic binary form, consuming
    /// it: the next stage works on bytes alone.
    pub fn serialize(self) -> (r: SerializedArchive)
        ensures
            r@ == spec_encode(self@),
    {
        let entries = self.0;
        let ghost t = views_of(entries@);
        let mut out: Vec<u8> = Vec::new();
        let n = entries.len();
        push_le64(&mut out, n as u64);
        proof {
            Seq::add_empty_right(spec_le64(n as u64), spec_encode_entries(t.take(0)));
            assert(t.take(0) =~= Seq::<EntryModel>::empty());
            assert(out@ == spec_le64(n as u64) + spec_encode_entries(t.take(0)));
        }
        let mut i: usize = 0;
        while i < n
            invariant
                i <= n,
                n == entries@.len(),
                t == views_of(entries@),
                out@ == spec_le64(n as u64) + spec_encode_entries(t.take(i as int)),
            decreases n - i,
        {
            push_entry(&mut out, &entries[i]);
            proof {
                assert(t[i as int] == entries@[i as int]@);
                assert(t.take(i as int).push(t[i as int]) =~= t.take(i as int + 1));
                lemma_encode_entries_snoc(t.take(i as int), t[i as int]);
                lemma_concat_associative(
                    spec_le64(n as u64),
                    spec_encode_entries(t.take(i as int)),
                    spec_encode_entry(t[i as int]),
                );
            }
            i = i + 1;
        }
        proof {
            assert(t.take(n as int) =~= t);
        }
        SerializedArchive(out)
    }
}

/// Reads a length-prefixed byte field out of `b` at `pos`, exactly as
/// `sp_chunk` parses the suffix that starts there.
pub fn read_chunk_at(b: &Vec<u8>, pos: usize) -> (r: Result<(Vec<u8>, usize), FormatError>)
    requires
        pos <= b@.len(),
    ensures
        match r {
            Ok(t) => sp_chunk(b@.skip(pos as int)) == Ok::<_, FormatError>(
                (t.0@, b@.skip(t.1 as int)),
            ) && pos <= t.1 <= b@.len(),
            Err(e) => sp_chunk(b@.skip(pos as int)) == Err::<(Seq<u8>, Seq<u8>), _>(e),
        },
{
    let (len64, p1) = match read_u64_at(b, pos) {
        Ok(t) => t,
        Err(e) => {
            return Err(e);
        },
    };
    let l: usize = b.len();
    if len64 <= (l - p1) as u64 {
        let nn = len64 as usize;
        let chunk = slice_to_vec(slice_subrange(b.as_slice(), p1, p1 + nn));
        proof {
            assert(b@.skip(p1 as int).take(len64 as int) =~= b@.subrange(
                p1 as int,
                p1 as int + nn,
            ));
            assert(b@.skip(p1 as int).skip(len64 as int) =~= b@.skip(p1 as int + nn));
        }
        Ok((chunk, p1 + nn))
    } else {
        Err(FormatError::Truncated)
    }
}

/// Reads one entry out of `b` at `pos`, exactly as `sp_entry` parses the
/// suffix that starts there.
pub fn read_entry_at(b: &Vec<u8>, pos: usize) -> (r: Result<(ArchiveEntry, usize), FormatError>)
    requires
        pos <= b@.len(),
    ensures
        match r {
            Ok(t) => sp_entry(b@.skip(pos as int)) == Ok::<_, FormatError>(
                (t.0@, b@.skip(t.1 as int)),
            ) && pos <= t.1 <= b@.len(),
            Err(e) => sp_entry(b@.skip(pos as int)) == Err::<(EntryModel, Seq<u8>), _>(e),
        },
{
    proof {
        reveal(sp_entry);
    }
    let (name, p1) = match read_chunk_at(b, pos) {
        Ok(t) => t,
        Err(e) => {
            return Err(e);
        },
    };
    let (content, p2) = match read_chunk_at(b, p1) {
        Ok(t) => t,
        Err(e) => {
            return Err(e);
        },
    };
    let (meta, p3) = match read_meta_at(b, p2) {
        Ok(t) => t,
        Err(e) => {
            return Err(e);
        },
    };
    Ok((ArchiveEntry { name, content, meta }, p3))
}

impl SerializedArchive {
    /// Decodes the binary form back into a container, consuming the bytes.
    /// Succeeds exactly on well-formed encodings; malformed bytes yield the
    /// format error that `spec_decode` assigns them.
    #[verifier::loop_isolation(false)]
    pub fn deserialize(self) -> (r: Result<Archive, FormatError>)
        ensures
            match r {
                Ok(a) => spec_decode(self@) == Ok::<_, FormatError>(a@),
                Err(e) => spec_decode(self@) == Err::<Seq<EntryModel>, _>(e),
            },
    {
        let b = self.0;
        proof {
            assert(b@.skip(0) =~= b@);
        }
        let (count, p0) = match read_u64_at(&b, 0) {
            Ok(t) => t,
            Err(e) => {
                return Err(e);
            },
        };
        let ghost rest0 = b@.skip(p0 as int);
        let mut entries: Vec<ArchiveEntry> = Vec::new();
        let mut pos: usize = p0;
        let mut i: u64 = 0;
        while i < count
            invariant
                i <= count,
                pos <= b@.len(),
                views_of(entries@).len() == i as int,
                ({
                    let outcome = sp_entries(b@.skip(pos as int), (count - i) as nat);
                    let whole = sp_entries(rest0, count as nat);
                    match outcome {
                        Ok(t) => whole == Ok::<_, FormatError>((views_of(entries@) + t.0, t.1)),
                        Err(e) => whole == Err::<(Seq<EntryModel>, Seq<u8>), _>(e),
                    }
                }),
            decreases count - i,
        {
            let ghost parsed = views_of(entries@);
            let (e, p2) = match read_entry_at(&b, pos) {
                Ok(t) => t,
                Err(err) => {
                    return Err(err);
                },
            };
            entries.push(e);
            proof {
                assert(views_of(entries@) =~= parsed.push(e@));
                let k = (count - i) as nat;
                let step = sp_entries(b@.skip(pos as int), k);
                let after = sp_entries(b@.skip(p2 as int), (k - 1) as nat);
                match after {
                    Ok(t) => {
                        assert(step == Ok::<_, FormatError>((seq![e@] + t.0, t.1)));
                        assert(parsed + (seq![e@] + t.0) =~= parsed.push(e@) + t.0);
                    },
                    Err(err) => {
                        assert(step == Err::<(Seq<EntryModel>, Seq<u8>), _>(err));
                    },
                }
            }
            pos = p2;
            i = i + 1;
        }
        proof {
            Seq::add_empty_right(views_of(entries@), Seq::<EntryModel>::empty());
            assert(sp_entries(rest0, count as nat) == Ok::<_, FormatError>(
                (views_of(entries@), b@.skip(pos as int)),
            ));
        }
        if pos == b.len() {
            proof {
                assert(b@.skip(pos as int).len() == 0);
            }
            Ok(Archive(entries))
        } else {
            proof {
                assert(b@.skip(pos as int).len() > 0);
            }
            Err(FormatError::TrailingData)
        }
    }
}

} // verus!
