//! Decoding of the fixed-width binary splat scene format.
//!
//! A scene file is a flat sequence of 32-byte little-endian records with no
//! header or trailer.  Each record holds, in order: the position (3 x f32),
//! the scale (3 x f32), the colour (4 x u8, RGBA with straight alpha) and
//! the rotation (4 x u8, quantized quaternion components).  The f32 fields
//! are carried as their bit patterns; the rotation bytes stand for the
//! component values `(byte - 128) / 128`.

use rayon::iter::{ParallelBridge, ParallelIterator};
use vstd::prelude::*;
use vstd::set_lib::{lemma_int_range, lemma_subset_equality, set_int_range};

verus! {

/// Error taxonomy for loading a binary splat scene.  Any decode failure
/// aborts the whole load; a partial scene is never returned.
#[derive(Clone, Copy, PartialEq, Eq, Structural, Debug)]
pub enum SplatDecodeError {
    /// The byte buffer's length is not an exact multiple of 32.
    MalformedInput,
    /// A single record was not exactly 32 bytes long.  Given the
    /// multiple-of-32 check on the whole buffer this indicates a caller
    /// bug, not bad input.
    InvalidRecordSize,
}

/// Three `f32` components carried as IEEE 754 single-precision bit
/// patterns, in `x`, `y`, `z` order.
#[derive(Clone, Copy, PartialEq, Eq, Structural, Debug)]
pub struct Vector3Bits {
    pub x: u32,
    pub y: u32,
    pub z: u32,
}

/// An RGBA colour with straight (non-premultiplied) alpha.
#[derive(Clone, Copy, PartialEq, Eq, Structural, Debug)]
pub struct ColorRgba {
    pub r: u8,
    pub g: u8,
    pub b: u8,
    pub a: u8,
}

/// Quantized rotation-quaternion components.  A byte `b` stands for the
/// component value `(b - 128) / 128`, which lies in `[-1, 127/128]`.
#[derive(Clone, Copy, PartialEq, Eq, Structural, Debug)]
pub struct QuaternionBytes {
    pub c0: u8,
    pub c1: u8,
    pub c2: u8,
    pub c3: u8,
}

/// A single renderable point-like primitive.  Immutable after
/// construction.
#[derive(Clone, Copy, PartialEq, Eq, Structural, Debug)]
pub struct Splat {
    /// World-space position (f32 bit patterns).
    pub position: Vector3Bits,
    /// Anisotropic scale (f32 bit patterns); carried but unused by the
    /// billboard compositor.
    pub scale: Vector3Bits,
    /// Straight-alpha RGBA colour.
    pub color: ColorRgba,
    /// Quantized rotation; carried but unused by the billboard compositor.
    pub rotation: QuaternionBytes,
}

impl Splat {
    /// Builds a splat from already-decoded components.
    pub fn new(
        position: Vector3Bits,
        scale: Vector3Bits,
        color: ColorRgba,
        rotation: QuaternionBytes,
    ) -> (s: Splat)
        ensures
            s == (Splat { position, scale, color, rotation }),
    {
        Splat { position, scale, color, rotation }
    }
}

/// The signed numerator of a quantized rotation component: byte `b`
/// stands for the quaternion component `rotation_numerator(b) / 128`.
pub open spec fn rotation_numerator(b: u8) -> int {
    b - 128
}

/// Executable form of [`rotation_numerator`].
pub fn rotation_component_numerator(b: u8) -> (n: i16)
    ensures
        n as int == rotation_numerator(b),
{
    (b as i16) - 128
}

/// The little-endian 32-bit value assembled from four bytes.
pub open spec fn le_u32_spec(b0: u8, b1: u8, b2: u8, b3: u8) -> u32 {
    (b0 as u32) | ((b1 as u32) << 8u32) | ((b2 as u32) << 16u32) | ((b3 as u32) << 24u32)
}

/// The little-endian 32-bit value read at offset `i` of `bytes`.
pub open spec fn le_u32_at(bytes: Seq<u8>, i: int) -> u32
    recommends
        0 <= i,
        i + 4 <= bytes.len(),
{
    le_u32_spec(bytes[i], bytes[i + 1], bytes[i + 2], bytes[i + 3])
}

/// Byte `k` (0 = least significant) of a 32-bit value.
pub open spec fn u32_byte(v: u32, k: u32) -> u8
    recommends
        k < 4,
{
    ((v >> ((8 * k) as u32)) & 0xFFu32) as u8
}

/// The splat encoded by one 32-byte record: bytes 0-11 position,
/// 12-23 scale, 24-27 RGBA colour, 28-31 quantized rotation.
pub open spec fn record_spec(rec: Seq<u8>) -> Splat
    recommends
        rec.len() == 32,
{
    Splat {
        position: Vector3Bits {
            x: le_u32_at(rec, 0),
            y: le_u32_at(rec, 4),
            z: le_u32_at(rec, 8),
        },
        scale: Vector3Bits {
            x: le_u32_at(rec, 12),
            y: le_u32_at(rec, 16),
            z: le_u32_at(rec, 20),
        },
        color: ColorRgba { r: rec[24], g: rec[25], b: rec[26], a: rec[27] },
        rotation: QuaternionBytes { c0: rec[28], c1: rec[29], c2: rec[30], c3: rec[31] },
    }
}

/// The 32-byte record that encodes a splat; the exact inverse of
/// [`record_spec`].
pub open spec fn encode_spec(s: Splat) -> Seq<u8> {
    seq![
        u32_byte(s.position.x, 0), u32_byte(s.position.x, 1),
        u32_byte(s.position.x, 2), u32_byte(s.position.x, 3),
        u32_byte(s.position.y, 0), u32_byte(s.position.y, 1),
        u32_byte(s.position.y, 2), u32_byte(s.position.y, 3),
        u32_byte(s.position.z, 0), u32_byte(s.position.z, 1),
        u32_byte(s.position.z, 2), u32_byte(s.position.z, 3),
        u32_byte(s.scale.x, 0), u32_byte(s.scale.x, 1),
        u32_byte(s.scale.x, 2), u32_byte(s.scale.x, 3),
        u32_byte(s.scale.y, 0), u32_byte(s.scale.y, 1),
        u32_byte(s.scale.y, 2), u32_byte(s.scale.y, 3),
        u32_byte(s.scale.z, 0), u32_byte(s.scale.z, 1),
        u32_byte(s.scale.z, 2), u32_byte(s.scale.z, 3),
        s.color.r, s.color.g, s.color.b, s.color.a,
        s.rotation.c0, s.rotation.c1, s.rotation.c2, s.rotation.c3,
    ]
}

/// Reads the little-endian `u32` at offset `i`.
fn le_u32(bytes: &[u8], i: usize) -> (r: u32)
    requires
        i + 4 <= bytes@.len(),
    ensures
        r == le_u32_at(bytes@, i as int),
{
    (bytes[i] as u32) | ((bytes[i + 1] as u32) << 8u32) | ((bytes[i + 2] as u32) << 16u32) | ((
    bytes[i + 3] as u32) << 24u32)
}

/// Appends the four little-endian bytes of `v`.
fn push_u32_le(out: &mut Vec<u8>, v: u32)
    ensures
        final(out)@ == old(out)@ + seq![
            u32_byte(v, 0), u32_byte(v, 1), u32_byte(v, 2), u32_byte(v, 3),
        ],
{
    out.push((v & 0xFFu32) as u8);
    out.push(((v >> 8u32) & 0xFFu32) as u8);
    out.push(((v >> 16u32) & 0xFFu32) as u8);
    out.push(((v >> 24u32) & 0xFFu32) as u8);
    proof {
        assert(v & 0xFFu32 == (v >> 0u32) & 0xFFu32) by (bit_vector);
        assert(out@ =~= old(out)@ + seq![
            u32_byte(v, 0), u32_byte(v, 1), u32_byte(v, 2), u32_byte(v, 3),
        ]);
    }
}

impl Splat {
    /// Decodes one 32-byte record.  Succeeds exactly on 32-byte input;
    /// a slice of any other length is a programming error and yields
    /// [`SplatDecodeError::InvalidRecordSize`].
    pub fn from_raw_splat_file_data(bytes: &[u8]) -> (r: Result<Splat, SplatDecodeError>)
        ensures
            r is Ok <==> bytes@.len() == 32,
            r is Ok ==> r->Ok_0 == record_spec(bytes@),
            r is Err ==> r->Err_0 == SplatDecodeError::InvalidRecordSize,
    {
        if bytes.len() != 32 {
            return Err(SplatDecodeError::InvalidRecordSize);
        }

        let position = Vector3Bits {
            x: le_u32(bytes, 0),
            y: le_u32(bytes, 4),
            z: le_u32(bytes, 8),
        };
        let scale = Vector3Bits {
            x: le_u32(bytes, 12),
            y: le_u32(bytes, 16),
            z: le_u32(bytes, 20),
        };
        let color = ColorRgba { r: bytes[24], g: bytes[25], b: bytes[26], a: bytes[27] };
        let rotation = QuaternionBytes {
            c0: bytes[28],
            c1: bytes[29],
            c2: bytes[30],
            c3: bytes[31],
        };

        Ok(Splat { position, scale, color, rotation })
    }

    /// Re-encodes a splat as its 32-byte record.
    pub fn encode(&self) -> (r: Vec<u8>)
        ensures
            r@ == encode_spec(*self),
            r@.len() == 32,
    {
        let mut out: Vec<u8> = Vec::new();
        push_u32_le(&mut out, self.position.x);
        push_u32_le(&mut out, self.position.y);
        push_u32_le(&mut out, self.position.z);
        push_u32_le(&mut out, self.scale.x);
        push_u32_le(&mut out, self.scale.y);
        push_u32_le(&mut out, self.scale.z);
        out.push(self.color.r);
        out.push(self.color.g);
        out.push(self.color.b);
        out.push(self.color.a);
        out.push(self.rotation.c0);
        out.push(self.rotation.c1);
        out.push(self.rotation.c2);
        out.push(self.rotation.c3);
        proof {
            assert(out@ =~= encode_spec(*self));
        }
        out
    }
}

/// Extracting the four little-endian bytes of an assembled `u32` gives
/// back the original bytes.
proof fn lemma_le_u32_bytes(b0: u8, b1: u8, b2: u8, b3: u8)
    ensures
        u32_byte(le_u32_spec(b0, b1, b2, b3), 0) == b0,
        u32_byte(le_u32_spec(b0, b1, b2, b3), 1) == b1,
        u32_byte(le_u32_spec(b0, b1, b2, b3), 2) == b2,
        u32_byte(le_u32_spec(b0, b1, b2, b3), 3) == b3,
{
    assert(((((b0 as u32) | ((b1 as u32) << 8u32) | ((b2 as u32) << 16u32) | ((b3 as u32)
        << 24u32)) >> 0u32) & 0xFFu32) == b0 as u32) by (bit_vector);
    assert(((((b0 as u32) | ((b1 as u32) << 8u32) | ((b2 as u32) << 16u32) | ((b3 as u32)
        << 24u32)) >> 8u32) & 0xFFu32) == b1 as u32) by (bit_vector);
    assert(((((b0 as u32) | ((b1 as u32) << 8u32) | ((b2 as u32) << 16u32) | ((b3 as u32)
        << 24u32)) >> 16u32) & 0xFFu32) == b2 as u32) by (bit_vector);
    assert(((((b0 as u32) | ((b1 as u32) << 8u32) | ((b2 as u32) << 16u32) | ((b3 as u32)
        << 24u32)) >> 24u32) & 0xFFu32) == b3 as u32) by (bit_vector);
}

/// Reassembling a `u32` from its four little-endian bytes gives back the
/// original value.
proof fn lemma_u32_bytes_le(v: u32)
    ensures
        le_u32_spec(u32_byte(v, 0), u32_byte(v, 1), u32_byte(v, 2), u32_byte(v, 3)) == v,
{
    assert((((((v >> 0u32) & 0xFFu32) as u8) as u32) | (((((v >> 8u32) & 0xFFu32) as u8)
        as u32) << 8u32) | (((((v >> 16u32) & 0xFFu32) as u8) as u32) << 16u32) | (((((v
        >> 24u32) & 0xFFu32) as u8) as u32) << 24u32)) == v) by (bit_vector);
}

/// Round trip: decoding a 32-byte record and re-encoding it reproduces
/// the record exactly, byte for byte.  Position and scale are preserved
/// as identical bit patterns, the colour as identical bytes, and the
/// quantized rotation as identical bytes.
pub proof fn lemma_record_round_trip(rec: Seq<u8>)
    requires
        rec.len() == 32,
    ensures
        encode_spec(record_spec(rec)) == rec,
{
    lemma_le_u32_bytes(rec[0], rec[1], rec[2], rec[3]);
    lemma_le_u32_bytes(rec[4], rec[5], rec[6], rec[7]);
    lemma_le_u32_bytes(rec[8], rec[9], rec[10], rec[11]);
    lemma_le_u32_bytes(rec[12], rec[13], rec[14], rec[15]);
    lemma_le_u32_bytes(rec[16], rec[17], rec[18], rec[19]);
    lemma_le_u32_bytes(rec[20], rec[21], rec[22], rec[23]);
    assert(encode_spec(record_spec(rec)) =~= rec);
}

/// The other direction of the round trip: encoding any splat and then
/// decoding the record gives back the same splat.
pub proof fn lemma_encode_round_trip(s: Splat)
    ensures
        record_spec(encode_spec(s)) == s,
{
    lemma_u32_bytes_le(s.position.x);
    lemma_u32_bytes_le(s.position.y);
    lemma_u32_bytes_le(s.position.z);
    lemma_u32_bytes_le(s.scale.x);
    lemma_u32_bytes_le(s.scale.y);
    lemma_u32_bytes_le(s.scale.z);
}

/// Decode-ordering policy.  Decoding runs in parallel over 32-byte
/// chunks, so results may complete out of order; the policy chooses
/// whether the scene keeps the completion order or is restored to the
/// source file order.
#[derive(Clone, Copy, PartialEq, Eq, Structural, Debug)]
pub enum DecodeOrdering {
    /// Records are collected in completion order.
    Unordered,
    /// Each record is tagged with its source chunk index and the scene is
    /// restored to file order; deterministic, at extra cost.
    OrderPreserving,
}

/// An ordered sequence of splats.  Built once (decoded or synthetic) and
/// never mutated.
#[derive(Clone, PartialEq, Debug)]
pub struct Splats {
    pub splats: Vec<Splat>,
}

/// The `i`-th 32-byte record of a byte buffer.
pub open spec fn chunk_of(data: Seq<u8>, i: int) -> Seq<u8>
    recommends
        0 <= i,
        32 * i + 32 <= data.len(),
{
    data.subrange(32 * i, 32 * i + 32)
}

/// All records of a byte buffer, decoded in file order.
pub open spec fn decoded_records(data: Seq<u8>) -> Seq<Splat> {
    Seq::new((data.len() / 32) as nat, |i: int| record_spec(chunk_of(data, i)))
}

/// `idx` is a permutation of the positions `0 .. n`.
pub open spec fn is_index_permutation(idx: Seq<int>, n: int) -> bool {
    &&& idx.len() == n
    &&& forall|j: int| 0 <= j < n ==> 0 <= #[trigger] idx[j] < n
    &&& forall|j: int, k: int| 0 <= j < k < n ==> idx[j] != idx[k]
}

/// `s` lists exactly the entries of `t`, in some order.
pub open spec fn is_scene_permutation(s: Seq<Splat>, t: Seq<Splat>) -> bool {
    exists|idx: Seq<int>|
        {
            &&& #[trigger] is_index_permutation(idx, t.len() as int)
            &&& s.len() == t.len()
            &&& forall|j: int| 0 <= j < s.len() ==> s[j] == t[idx[j]]
        }
}

/// Decodes one 32-byte chunk; total because the caller guarantees the
/// chunk length.
fn decode_record_exact(chunk: &[u8]) -> (s: Splat)
    requires
        chunk@.len() == 32,
    ensures
        s == record_spec(chunk@),
{
    Splat::from_raw_splat_file_data(chunk).unwrap()
}

/// Decodes every 32-byte chunk of `data` in parallel, tagging each decoded
/// splat with its source chunk index.
///
/// Relies on rayon's `par_bridge`, `map` and `collect`: every enumerated
/// `(index, chunk)` pair is mapped exactly once and every mapped pair is
/// collected; only the order of the collected pairs is unspecified.
#[verifier::external_body]
fn decode_chunks_parallel(data: &[u8]) -> (r: Vec<(usize, Splat)>)
    requires
        data@.len() % 32 == 0,
    ensures
        r@.len() == data@.len() / 32,
        forall|j: int|
            0 <= j < r@.len() ==> (#[trigger] r@[j]).0 < data@.len() / 32 && r@[j].1
                == record_spec(chunk_of(data@, r@[j].0 as int)),
        forall|j: int, k: int| 0 <= j < k < r@.len() ==> r@[j].0 != r@[k].0,
{
    data.chunks_exact(32)
        .enumerate()
        .par_bridge()
        .map(|(index, chunk)| (index, decode_record_exact(chunk)))
        .collect()
}

/// Every position `0 <= v < n` occurs in a duplicate-free sequence of `n`
/// indices that are all below `n`.
proof fn lemma_distinct_bounded_indices_complete(idx: Seq<int>, n: int, v: int)
    requires
        is_index_permutation(idx, n),
        0 <= v < n,
    ensures
        exists|j: int| 0 <= j < n && #[trigger] idx[j] == v,
{
    assert(idx.no_duplicates());
    idx.unique_seq_to_set();
    lemma_int_range(0, n);
    assert(idx.to_set().subset_of(set_int_range(0, n)));
    lemma_subset_equality(idx.to_set(), set_int_range(0, n));
    assert(set_int_range(0, n).contains(v));
    assert(idx.to_set().contains(v));
    let j = choose|j: int| 0 <= j < idx.len() && idx[j] == v;
    assert(0 <= j < n && idx[j] == v);
}

impl Splats {
    /// Wraps an already-built list of splats.
    pub fn from_entries(splats: Vec<Splat>) -> (s: Splats)
        ensures
            s.splats@ == splats@,
    {
        Splats { splats }
    }

    /// Decodes a whole scene from a flat byte buffer.
    ///
    /// Succeeds exactly when the buffer length is a multiple of 32 and
    /// then yields one splat per 32-byte record; any other length fails
    /// with [`SplatDecodeError::MalformedInput`] and no partial scene.
    /// With [`DecodeOrdering::OrderPreserving`] the `i`-th splat is the
    /// decoding of the `i`-th record; with [`DecodeOrdering::Unordered`]
    /// the scene is some permutation of the decoded records.
    pub fn from_raw_data(data: &[u8], ordering: DecodeOrdering) -> (r: Result<
        Splats,
        SplatDecodeError,
    >)
        ensures
            r is Ok <==> data@.len() % 32 == 0,
            r is Err ==> r->Err_0 == SplatDecodeError::MalformedInput,
            r is Ok ==> (r->Ok_0).splats@.len() == data@.len() / 32,
            r is Ok ==> is_scene_permutation((r->Ok_0).splats@, decoded_records(data@)),
            r is Ok && ordering == DecodeOrdering::OrderPreserving ==> (r->Ok_0).splats@
                == decoded_records(data@),
    {
        if data.len() % 32 != 0 {
            return Err(SplatDecodeError::MalformedInput);
        }
        let n = data.len() / 32;
        let pairs = decode_chunks_parallel(data);
        let ghost records = decoded_records(data@);
        let ghost pair_indices = Seq::new(pairs@.len(), |j: int| pairs@[j].0 as int);

        match ordering {
            DecodeOrdering::OrderPreserving => {
                let mut slots: Vec<Option<Splat>> = Vec::new();
                let mut k: usize = 0;
                while k < n
                    invariant
                        k <= n,
                        slots@.len() == k,
                        forall|m: int| 0 <= m < k ==> slots@[m] is None,
                    decreases n - k,
                {
                    slots.push(None);
                    k = k + 1;
                }

                let mut j: usize = 0;
                while j < pairs.len()
                    invariant
                        n == data@.len() / 32,
                        data@.len() % 32 == 0,
                        pairs@.len() == n,
                        forall|j2: int|
                            0 <= j2 < pairs@.len() ==> (#[trigger] pairs@[j2]).0 < n
                                && pairs@[j2].1 == records[pairs@[j2].0 as int],
                        forall|j2: int, k2: int|
                            0 <= j2 < k2 < pairs@.len() ==> pairs@[j2].0 != pairs@[k2].0,
                        records == decoded_records(data@),
                        j <= n,
                        slots@.len() == n,
                        forall|m: int|
                            0 <= m < n ==> ((#[trigger] slots@[m]) is Some <==> exists|j2: int|
                                0 <= j2 < j && (#[trigger] pairs@[j2]).0 == m),
                        forall|m: int|
                            0 <= m < n && (#[trigger] slots@[m]) is Some ==> slots@[m]->0
                                == records[m],
                    decreases pairs@.len() - j,
                {
                    let (index, splat) = pairs[j];
                    slots[index] = Some(splat);
                    proof {
                        assert forall|m: int|
                            0 <= m < n implies ((#[trigger] slots@[m]) is Some <==> exists|j2: int|
                            0 <= j2 < j + 1 && (#[trigger] pairs@[j2]).0 == m) by {
                            if slots@[m] is Some {
                                if m == index {
                                    assert(pairs@[j as int].0 == m);
                                }
                            }
                        }
                    }
                    j = j + 1;
                }

                proof {
                    lemma_all_slots_filled(slots@, pairs@, records, n as int);
                }

                let mut out: Vec<Splat> = Vec::new();
                let mut k2: usize = 0;
                while k2 < n
                    invariant
                        n == data@.len() / 32,
                        records == decoded_records(data@),
                        records.len() == n,
                        k2 <= n,
                        slots@.len() == n,
                        forall|m: int| 0 <= m < n ==> (#[trigger] slots@[m]) == Some(records[m]),
                        out@.len() == k2,
                        forall|m: int| 0 <= m < k2 ==> out@[m] == records[m],
                    decreases n - k2,
                {
                    let entry = slots[k2];
                    out.push(entry.unwrap());
                    k2 = k2 + 1;
                }

                proof {
                    assert(out@ =~= records);
                    let identity = Seq::new(records.len(), |j: int| j);
                    assert(is_index_permutation(identity, records.len() as int));
                    assert(is_scene_permutation(out@, records));
                }
                Ok(Splats { splats: out })
            },
            DecodeOrdering::Unordered => {
                let mut out: Vec<Splat> = Vec::new();
                let mut j: usize = 0;
                while j < pairs.len()
                    invariant
                        pairs@.len() == n,
                        n == data@.len() / 32,
                        data@.len() % 32 == 0,
                        forall|j2: int|
                            0 <= j2 < pairs@.len() ==> (#[trigger] pairs@[j2]).0 < n
                                && pairs@[j2].1 == records[pairs@[j2].0 as int],
                        records == decoded_records(data@),
                        j <= n,
                        out@.len() == j,
                        forall|m: int| 0 <= m < j ==> out@[m] == pairs@[m].1,
                    decreases pairs@.len() - j,
                {
                    let (_, splat) = pairs[j];
                    out.push(splat);
                    j = j + 1;
                }
                proof {
                    assert(records.len() == n);
                    assert(pair_indices.len() == n);
                    assert(is_index_permutation(pair_indices, records.len() as int));
                    assert forall|m: int| 0 <= m < out@.len() implies out@[m]
                        == records[pair_indices[m]] by {
                        assert(out@[m] == pairs@[m].1);
                    }
                    assert(is_scene_permutation(out@, records));
                }
                Ok(Splats { splats: out })
            },
        }
    }
}

/// Slot completeness: once every tagged pair has been scattered into its
/// slot, every slot is filled.
proof fn lemma_all_slots_filled(
    slots: Seq<Option<Splat>>,
    pairs: Seq<(usize, Splat)>,
    records: Seq<Splat>,
    n: int,
)
    requires
        slots.len() == n,
        pairs.len() == n,
        records.len() == n,
        forall|j2: int| 0 <= j2 < n ==> (#[trigger] pairs[j2]).0 < n,
        forall|j2: int, k2: int| 0 <= j2 < k2 < n ==> pairs[j2].0 != pairs[k2].0,
        forall|m: int|
            0 <= m < n ==> ((#[trigger] slots[m]) is Some <==> exists|j2: int|
                0 <= j2 < n && (#[trigger] pairs[j2]).0 == m),
        forall|m: int| 0 <= m < n && (#[trigger] slots[m]) is Some ==> slots[m]->0 == records[m],
    ensures
        forall|m: int| 0 <= m < n ==> (#[trigger] slots[m]) == Some(records[m]),
{
    let idx = Seq::new(pairs.len(), |j: int| pairs[j].0 as int);
    assert(is_index_permutation(idx, n));
    assert forall|m: int| 0 <= m < n implies (#[trigger] slots[m]) == Some(records[m]) by {
        lemma_distinct_bounded_indices_complete(idx, n, m);
        let j = choose|j: int| 0 <= j < n && #[trigger] idx[j] == m;
        assert(pairs[j].0 == m);
        assert(slots[m] is Some);
    }
}

} // verus!
