//! The binary mesh decoder: an 80-byte free-form header, a 32-bit
//! little-endian triangle count, then one 50-byte record per facet
//! (12 bytes normal, 36 bytes vertices, 2 reserved attribute bytes).
//! A matching encoder makes the layout's round trip a provable law.

use vstd::prelude::*;
use vstd::arithmetic::div_mod::lemma_fundamental_div_mod;
use vstd::bytes::lemma_auto_spec_u16_to_from_le_bytes;
use vstd::bytes::lemma_auto_spec_u32_to_from_le_bytes;
use vstd::bytes::spec_u16_to_le_bytes;
use vstd::bytes::spec_u32_from_le_bytes;
use vstd::bytes::spec_u32_to_le_bytes;
use vstd::bytes::u16_to_le_bytes;
use vstd::bytes::u32_to_le_bytes;
use crate::error::DecodeError;
use crate::mesh::MeshView;
use crate::mesh::STL;
use crate::mesh::Vector3;
use crate::mesh::Vertices;
use crate::reader::ByteReader;
use crate::reader::STLReaderExt;
use crate::reader::spec_vector_at;
use crate::reader::spec_vertices_at;

verus! {

/// The number of facet records a binary stream claims to hold:
/// bytes 80 to 83, little-endian.
pub open spec fn spec_declared_count(b: Seq<u8>) -> u32 {
    spec_u32_from_le_bytes(b.subrange(80, 84))
}

/// Turns a decode result into its mathematical view.
pub open spec fn spec_mesh_result(r: Result<STL, DecodeError>) -> Result<MeshView, DecodeError> {
    match r {
        Ok(m) => Ok(m@),
        Err(e) => Err(e),
    }
}

/// What decoding a binary stream yields.  A stream shorter than the 84
/// bytes of header and count is `TruncatedHeader`.  A stream whose body
/// holds fewer complete 50-byte records than the declared count is
/// `TruncatedBody`, carrying the declared count and the number of complete
/// records present.  Otherwise the result is the declared number of
/// facets, read record by record in stream order; the header bytes and
/// each record's 2 attribute bytes are not interpreted, and bytes beyond
/// the declared records are ignored.
pub open spec fn spec_parse_binary(b: Seq<u8>) -> Result<MeshView, DecodeError> {
    if b.len() < 84 {
        Err(DecodeError::TruncatedHeader)
    } else {
        let n = spec_declared_count(b) as int;
        if b.len() - 84 < 50 * n {
            Err(
                DecodeError::TruncatedBody {
                    expected: spec_declared_count(b) as usize,
                    got: (((b.len() - 84) as int) / 50) as usize,
                },
            )
        } else {
            Ok(
                MeshView {
                    vectors: Seq::new(n as nat, |i: int| spec_vector_at(b, 84 + 50 * i)),
                    vertices: Seq::new(n as nat, |i: int| spec_vertices_at(b, 96 + 50 * i)),
                },
            )
        }
    }
}

impl STL {
    /// Decodes a binary STL stream.  The result is exactly
    /// [`spec_parse_binary`] of the input: in particular a successful
    /// decode holds exactly the declared number of facets, and a failed
    /// one returns no mesh at all.
    pub fn parse_binary(bytes: &[u8]) -> (r: Result<STL, DecodeError>)
        ensures
            spec_mesh_result(r) == spec_parse_binary(bytes@),
            r matches Ok(m) ==> m@.wf() && m.vectors@.len() == spec_declared_count(bytes@) as nat,
    {
        if bytes.len() < 84 {
            return Err(DecodeError::TruncatedHeader);
        }
        let mut rd = ByteReader::new(bytes);
        rd.advance(80);
        let size32 = match rd.read_u32_le() {
            Ok(v) => v,
            Err(e) => return Err(e),
        };
        let size = size32 as usize;
        let avail = (bytes.len() - 84) / 50;
        proof {
            lemma_fundamental_div_mod((bytes@.len() - 84) as int, 50);
        }
        if avail < size {
            return Err(DecodeError::TruncatedBody { expected: size, got: avail });
        }
        let mut vectors: Vec<Vector3> = Vec::with_capacity(size);
        let mut vertices: Vec<Vertices> = Vec::with_capacity(size);
        let mut k: usize = 0;
        while k < size
            invariant
                k <= size,
                size == spec_declared_count(bytes@) as usize,
                bytes@.len() - 84 >= 50 * (size as int),
                rd.wf(),
                rd.input() == bytes@,
                rd.offset() == 84 + 50 * (k as int),
                vectors@.len() == k,
                vertices@.len() == k,
                forall|i: int| 0 <= i < k ==> vectors@[i] == spec_vector_at(bytes@, 84 + 50 * i),
                forall|i: int| 0 <= i < k ==> vertices@[i] == spec_vertices_at(
                    bytes@,
                    96 + 50 * i,
                ),
            decreases size - k,
        {
            let nrm = match rd.read_vector() {
                Ok(v) => v,
                Err(e) => return Err(e),
            };
            let vts = match rd.read_vertices() {
                Ok(v) => v,
                Err(e) => return Err(e),
            };
            match rd.read_u16_le() {
                Ok(_) => (),
                Err(e) => return Err(e),
            };
            vectors.push(nrm);
            vertices.push(vts);
            k = k + 1;
        }
        let r = STL { vectors, vertices };
        proof {
            let sp = spec_parse_binary(bytes@);
            assert(sp is Ok);
            assert(sp->Ok_0.vectors =~= r.vectors@);
            assert(sp->Ok_0.vertices =~= r.vertices@);
            assert(sp->Ok_0 =~= r@);
            assert(sp == Ok::<MeshView, DecodeError>(r@));
        }
        Ok(r)
    }
}

/// What strict decoding yields: as [`spec_parse_binary`], except that a
/// stream holding any byte beyond the declared records fails with
/// `TrailingBytes`.
pub open spec fn spec_parse_binary_strict(b: Seq<u8>) -> Result<MeshView, DecodeError> {
    match spec_parse_binary(b) {
        Ok(m) => {
            if b.len() == 84 + 50 * (spec_declared_count(b) as int) {
                Ok(m)
            } else {
                Err(DecodeError::TrailingBytes)
            }
        },
        Err(e) => Err(e),
    }
}

impl STL {
    /// Decodes as [`Self::parse_binary`], but flags bytes left after the
    /// declared records as `TrailingBytes` instead of ignoring them.
    pub fn parse_binary_strict(bytes: &[u8]) -> (r: Result<STL, DecodeError>)
        ensures
            spec_mesh_result(r) == spec_parse_binary_strict(bytes@),
    {
        match Self::parse_binary(bytes) {
            Ok(m) => {
                let n = m.vectors.len();
                proof {
                    assert(50 * (n as int) <= bytes@.len() - 84);
                }
                if bytes.len() - 84 == n * 50 {
                    Ok(m)
                } else {
                    Err(DecodeError::TrailingBytes)
                }
            },
            Err(e) => Err(e),
        }
    }
}

/// One vector as laid out in a binary stream: three little-endian words.
pub open spec fn spec_encode_vector(v: Vector3) -> Seq<u8> {
    spec_u32_to_le_bytes(v.x) + spec_u32_to_le_bytes(v.y) + spec_u32_to_le_bytes(v.z)
}

/// One facet record as laid out in a binary stream: the normal, the three
/// corners, and a zeroed attribute field — 50 bytes.
pub open spec fn spec_encode_record(nrm: Vector3, vts: Vertices) -> Seq<u8> {
    spec_encode_vector(nrm) + spec_encode_vector(vts.v0) + spec_encode_vector(vts.v1)
        + spec_encode_vector(vts.v2) + spec_u16_to_le_bytes(0u16)
}

/// The first `k` facet records of mesh `m`, concatenated in order.
pub open spec fn spec_encode_body(m: MeshView, k: int) -> Seq<u8>
    decreases k,
{
    if k <= 0 {
        Seq::empty()
    } else {
        spec_encode_body(m, k - 1) + spec_encode_record(m.vectors[k - 1], m.vertices[k - 1])
    }
}

/// A whole binary stream for mesh `m`: an 80-byte zero header, the count,
/// then every record.
pub open spec fn spec_encode_binary(m: MeshView) -> Seq<u8> {
    Seq::new(80, |i: int| 0u8) + spec_u32_to_le_bytes(m.vectors.len() as u32) + spec_encode_body(
        m,
        m.vectors.len() as int,
    )
}

proof fn lemma_encode_vector_len(v: Vector3)
    ensures
        spec_encode_vector(v).len() == 12,
{
    lemma_auto_spec_u32_to_from_le_bytes();
}

proof fn lemma_encode_record_len(nrm: Vector3, vts: Vertices)
    ensures
        spec_encode_record(nrm, vts).len() == 50,
{
    lemma_auto_spec_u32_to_from_le_bytes();
    lemma_auto_spec_u16_to_from_le_bytes();
}

proof fn lemma_encode_body_len(m: MeshView, k: int)
    requires
        0 <= k,
    ensures
        spec_encode_body(m, k).len() == 50 * k,
    decreases k,
{
    if k > 0 {
        lemma_encode_body_len(m, k - 1);
        lemma_encode_record_len(m.vectors[k - 1], m.vertices[k - 1]);
    }
}

proof fn lemma_encode_body_record(m: MeshView, k: int, r: int)
    requires
        0 <= r < k,
    ensures
        spec_encode_body(m, k).subrange(50 * r, 50 * r + 50) == spec_encode_record(
            m.vectors[r],
            m.vertices[r],
        ),
    decreases k,
{
    lemma_encode_body_len(m, k - 1);
    lemma_encode_record_len(m.vectors[k - 1], m.vertices[k - 1]);
    if r == k - 1 {
        assert(spec_encode_body(m, k).subrange(50 * r, 50 * r + 50) =~= spec_encode_record(
            m.vectors[r],
            m.vertices[r],
        ));
    } else {
        lemma_encode_body_record(m, k - 1, r);
        lemma_encode_record_len(m.vectors[r], m.vertices[r]);
        assert(spec_encode_body(m, k).subrange(50 * r, 50 * r + 50) =~= spec_encode_body(
            m,
            k - 1,
        ).subrange(50 * r, 50 * r + 50));
    }
}

proof fn lemma_vector_at_encoded(b: Seq<u8>, off: int, v: Vector3)
    requires
        0 <= off,
        off + 12 <= b.len(),
        b.subrange(off, off + 12) == spec_encode_vector(v),
    ensures
        spec_vector_at(b, off) == v,
{
    lemma_auto_spec_u32_to_from_le_bytes();
    let ev = b.subrange(off, off + 12);
    assert(ev.subrange(0, 4) =~= spec_u32_to_le_bytes(v.x));
    assert(ev.subrange(4, 8) =~= spec_u32_to_le_bytes(v.y));
    assert(ev.subrange(8, 12) =~= spec_u32_to_le_bytes(v.z));
    assert(b.subrange(off, off + 4) =~= ev.subrange(0, 4));
    assert(b.subrange(off + 4, off + 8) =~= ev.subrange(4, 8));
    assert(b.subrange(off + 8, off + 12) =~= ev.subrange(8, 12));
}

proof fn lemma_record_decodes(b: Seq<u8>, off: int, nrm: Vector3, vts: Vertices)
    requires
        0 <= off,
        off + 50 <= b.len(),
        b.subrange(off, off + 50) == spec_encode_record(nrm, vts),
    ensures
        spec_vector_at(b, off) == nrm,
        spec_vertices_at(b, off + 12) == vts,
{
    lemma_encode_vector_len(nrm);
    lemma_encode_vector_len(vts.v0);
    lemma_encode_vector_len(vts.v1);
    lemma_encode_vector_len(vts.v2);
    let rec = b.subrange(off, off + 50);
    assert(rec.subrange(0, 12) =~= spec_encode_vector(nrm));
    assert(rec.subrange(12, 24) =~= spec_encode_vector(vts.v0));
    assert(rec.subrange(24, 36) =~= spec_encode_vector(vts.v1));
    assert(rec.subrange(36, 48) =~= spec_encode_vector(vts.v2));
    assert(b.subrange(off, off + 12) =~= rec.subrange(0, 12));
    assert(b.subrange(off + 12, off + 24) =~= rec.subrange(12, 24));
    assert(b.subrange(off + 24, off + 36) =~= rec.subrange(24, 36));
    assert(b.subrange(off + 36, off + 48) =~= rec.subrange(36, 48));
    lemma_vector_at_encoded(b, off, nrm);
    lemma_vector_at_encoded(b, off + 12, vts.v0);
    lemma_vector_at_encoded(b, off + 24, vts.v1);
    lemma_vector_at_encoded(b, off + 36, vts.v2);
}

/// Round-trip equivalence: encoding any well-formed mesh to a binary
/// stream and decoding that stream yields the mesh back, under sequence
/// equality of normals and vertex triples.
pub proof fn lemma_round_trip(m: MeshView)
    requires
        m.wf(),
        m.vectors.len() <= u32::MAX as nat,
    ensures
        spec_parse_binary(spec_encode_binary(m)) == Ok::<MeshView, DecodeError>(m),
{
    let n = m.vectors.len() as int;
    let b = spec_encode_binary(m);
    lemma_auto_spec_u32_to_from_le_bytes();
    lemma_encode_body_len(m, n);
    assert(b.len() == 84 + 50 * n);
    assert(b.subrange(80, 84) =~= spec_u32_to_le_bytes(m.vectors.len() as u32));
    assert(spec_declared_count(b) as int == n);
    assert forall|i: int| 0 <= i < n implies spec_vector_at(b, 84 + 50 * i) == m.vectors[i]
        && spec_vertices_at(b, 96 + 50 * i) == m.vertices[i] by {
        lemma_encode_body_record(m, n, i);
        lemma_encode_record_len(m.vectors[i], m.vertices[i]);
        assert(b.subrange(84 + 50 * i, 84 + 50 * i + 50) =~= spec_encode_body(m, n).subrange(
            50 * i,
            50 * i + 50,
        ));
        lemma_record_decodes(b, 84 + 50 * i, m.vectors[i], m.vertices[i]);
    }
    let sp = spec_parse_binary(b);
    assert(sp is Ok);
    assert(sp->Ok_0.vectors =~= m.vectors);
    assert(sp->Ok_0.vertices =~= m.vertices);
    assert(sp->Ok_0 =~= m);
}

/// Truncation detection: a binary stream whose body ends before the
/// declared count is satisfied always fails with `TruncatedBody`, carrying
/// the declared count and the number of complete records present — it
/// never yields a partial mesh.
pub proof fn lemma_truncation_detected(b: Seq<u8>)
    requires
        b.len() >= 84,
        b.len() - 84 < 50 * (spec_declared_count(b) as int),
    ensures
        spec_parse_binary(b) == Err::<MeshView, DecodeError>(
            DecodeError::TruncatedBody {
                expected: spec_declared_count(b) as usize,
                got: (((b.len() - 84) as int) / 50) as usize,
            },
        ),
{
}

/// Header-skip correctness: two binary streams of equal size that agree on
/// every byte from offset 80 on — that is, differ at most in the free-form
/// header — decode to the same result.
pub proof fn lemma_header_skip(b1: Seq<u8>, b2: Seq<u8>)
    requires
        b1.len() == b2.len(),
        forall|i: int| 80 <= i < b1.len() ==> b1[i] == b2[i],
    ensures
        spec_parse_binary(b1) == spec_parse_binary(b2),
{
    if b1.len() >= 84 {
        assert(b1.subrange(80, 84) =~= b2.subrange(80, 84));
        let n = spec_declared_count(b1) as int;
        if b1.len() - 84 >= 50 * n {
            assert forall|i: int|
                #![trigger spec_vector_at(b1, 84 + 50 * i)]
                #![trigger spec_vertices_at(b1, 96 + 50 * i)]
                0 <= i < n implies spec_vector_at(b1, 84 + 50 * i) == spec_vector_at(
                b2,
                84 + 50 * i,
            ) && spec_vertices_at(b1, 96 + 50 * i) == spec_vertices_at(b2, 96 + 50 * i) by {
                assert(b1.subrange(84 + 50 * i, 84 + 50 * i + 4) =~= b2.subrange(
                    84 + 50 * i,
                    84 + 50 * i + 4,
                ));
                assert(b1.subrange(84 + 50 * i + 4, 84 + 50 * i + 8) =~= b2.subrange(
                    84 + 50 * i + 4,
                    84 + 50 * i + 8,
                ));
                assert(b1.subrange(84 + 50 * i + 8, 84 + 50 * i + 12) =~= b2.subrange(
                    84 + 50 * i + 8,
                    84 + 50 * i + 12,
                ));
                assert(b1.subrange(96 + 50 * i, 96 + 50 * i + 4) =~= b2.subrange(
                    96 + 50 * i,
                    96 + 50 * i + 4,
                ));
                assert(b1.subrange(96 + 50 * i + 4, 96 + 50 * i + 8) =~= b2.subrange(
                    96 + 50 * i + 4,
                    96 + 50 * i + 8,
                ));
                assert(b1.subrange(96 + 50 * i + 8, 96 + 50 * i + 12) =~= b2.subrange(
                    96 + 50 * i + 8,
                    96 + 50 * i + 12,
                ));
                assert(b1.subrange(96 + 50 * i + 12, 96 + 50 * i + 16) =~= b2.subrange(
                    96 + 50 * i + 12,
                    96 + 50 * i + 16,
                ));
                assert(b1.subrange(96 + 50 * i + 16, 96 + 50 * i + 20) =~= b2.subrange(
                    96 + 50 * i + 16,
                    96 + 50 * i + 20,
                ));
                assert(b1.subrange(96 + 50 * i + 20, 96 + 50 * i + 24) =~= b2.subrange(
                    96 + 50 * i + 20,
                    96 + 50 * i + 24,
                ));
                assert(b1.subrange(96 + 50 * i + 24, 96 + 50 * i + 28) =~= b2.subrange(
                    96 + 50 * i + 24,
                    96 + 50 * i + 28,
                ));
                assert(b1.subrange(96 + 50 * i + 28, 96 + 50 * i + 32) =~= b2.subrange(
                    96 + 50 * i + 28,
                    96 + 50 * i + 32,
                ));
                assert(b1.subrange(96 + 50 * i + 32, 96 + 50 * i + 36) =~= b2.subrange(
                    96 + 50 * i + 32,
                    96 + 50 * i + 36,
                ));
            }
            let sp1 = spec_parse_binary(b1);
            let sp2 = spec_parse_binary(b2);
            assert(sp1 is Ok && sp2 is Ok);
            assert(sp1->Ok_0.vectors =~= sp2->Ok_0.vectors);
            assert(sp1->Ok_0.vertices =~= sp2->Ok_0.vertices);
            assert(sp1->Ok_0 =~= sp2->Ok_0);
        }
    }
}

impl STL {
    /// Encodes this mesh as a binary stream with a zeroed header and
    /// zeroed attribute fields, the exact layout [`spec_parse_binary`]
    /// reads.  Succeeds if and only if the mesh is well-formed and its
    /// facet count fits the 32-bit count field.
    pub fn encode_binary(&self) -> (r: Option<Vec<u8>>)
        ensures
            r matches Some(v) ==> v@ == spec_encode_binary(self@),
            r is Some <==> (self@.wf() && self.vectors@.len() <= u32::MAX as nat),
    {
        let n = self.vectors.len();
        if self.vertices.len() != n {
            return None;
        }
        if n > u32::MAX as usize {
            return None;
        }
        let mut out: Vec<u8> = Vec::new();
        let mut h: usize = 0;
        while h < 80
            invariant
                h <= 80,
                out@.len() == h,
                forall|i: int| 0 <= i < h ==> out@[i] == 0u8,
            decreases 80 - h,
        {
            out.push(0u8);
            h = h + 1;
        }
        let mut cnt = u32_to_le_bytes(n as u32);
        out.append(&mut cnt);
        let ghost hdr_cnt: Seq<u8> = Seq::new(80, |i: int| 0u8) + spec_u32_to_le_bytes(n as u32);
        proof {
            assert(out@ =~= hdr_cnt + spec_encode_body(self@, 0));
        }
        let mut k: usize = 0;
        while k < n
            invariant
                k <= n,
                n == self.vectors@.len(),
                n == self.vertices@.len(),
                n <= u32::MAX as usize,
                hdr_cnt == Seq::new(80, |i: int| 0u8) + spec_u32_to_le_bytes(n as u32),
                out@ == hdr_cnt + spec_encode_body(self@, k as int),
            decreases n - k,
        {
            push_vector(&mut out, self.vectors[k]);
            let vts = self.vertices[k];
            push_vector(&mut out, vts.v0);
            push_vector(&mut out, vts.v1);
            push_vector(&mut out, vts.v2);
            let mut attr = u16_to_le_bytes(0u16);
            out.append(&mut attr);
            proof {
                assert(out@ =~= hdr_cnt + spec_encode_body(self@, k as int + 1));
            }
            k = k + 1;
        }
        proof {
            assert(out@ =~= spec_encode_binary(self@));
        }
        Some(out)
    }
}

/// Appends one vector's 12-byte little-endian layout.
fn push_vector(out: &mut Vec<u8>, v: Vector3)
    ensures
        final(out)@ == old(out)@ + spec_encode_vector(v),
{
    let mut bx = u32_to_le_bytes(v.x);
    out.append(&mut bx);
    let mut by = u32_to_le_bytes(v.y);
    out.append(&mut by);
    let mut bz = u32_to_le_bytes(v.z);
    out.append(&mut bz);
    proof {
        assert(out@ =~= old(out)@ + spec_encode_vector(v));
    }
}

} // verus!
