//! The primitive reader: a cursor over a byte stream that decodes
//! fixed-width little-endian values, and the [`STLReaderExt`] capability
//! for extracting whole vectors and vertex triples from such a stream.

use vstd::prelude::*;
use vstd::bytes::spec_u16_from_le_bytes;
use vstd::bytes::spec_u32_from_le_bytes;
use vstd::bytes::u16_from_le_bytes;
use vstd::bytes::u32_from_le_bytes;
use vstd::slice::slice_subrange;
use crate::error::DecodeError;
use crate::mesh::Vector3;
use crate::mesh::Vertices;

verus! {

/// The vector laid out at byte offset `off`: three consecutive
/// little-endian 32-bit words.
pub open spec fn spec_vector_at(b: Seq<u8>, off: int) -> Vector3 {
    Vector3 {
        x: spec_u32_from_le_bytes(b.subrange(off, off + 4)),
        y: spec_u32_from_le_bytes(b.subrange(off + 4, off + 8)),
        z: spec_u32_from_le_bytes(b.subrange(off + 8, off + 12)),
    }
}

/// The vertex triple laid out at byte offset `off`: three consecutive
/// vectors of three little-endian 32-bit words each.
pub open spec fn spec_vertices_at(b: Seq<u8>, off: int) -> Vertices {
    Vertices {
        v0: spec_vector_at(b, off),
        v1: spec_vector_at(b, off + 12),
        v2: spec_vector_at(b, off + 24),
    }
}

/// The capability both decoders read through: a cursor over an input byte
/// sequence that hands out one vector, or one vertex triple, per call.
/// Reads are sequential and ordered; a read that would pass the end of the
/// input fails without moving the cursor, so no half-populated value can
/// leak into a mesh under construction.
pub trait STLReaderExt {
    /// The whole input the cursor walks over.
    spec fn input(&self) -> Seq<u8>;

    /// How many bytes have been consumed so far.
    spec fn offset(&self) -> int;

    /// The cursor never stands past the end of its input.
    spec fn wf(&self) -> bool;

    /// Reads one vector: three little-endian 32-bit words, 12 bytes.
    fn read_vector(&mut self) -> (r: Result<Vector3, DecodeError>)
        requires
            old(self).wf(),
        ensures
            final(self).wf(),
            final(self).input() == old(self).input(),
            old(self).offset() + 12 <= old(self).input().len() ==> r == Ok::<Vector3, DecodeError>(
                spec_vector_at(old(self).input(), old(self).offset()),
            ) && final(self).offset() == old(self).offset() + 12,
            old(self).offset() + 12 > old(self).input().len() ==> r == Err::<Vector3, DecodeError>(
                DecodeError::UnexpectedEndOfInput,
            ) && final(self).offset() == old(self).offset(),
        ;

    /// Reads three vertices: nine little-endian 32-bit words, 36 bytes.
    fn read_vertices(&mut self) -> (r: Result<Vertices, DecodeError>)
        requires
            old(self).wf(),
        ensures
            final(self).wf(),
            final(self).input() == old(self).input(),
            old(self).offset() + 36 <= old(self).input().len() ==> r == Ok::<Vertices, DecodeError>(
                spec_vertices_at(old(self).input(), old(self).offset()),
            ) && final(self).offset() == old(self).offset() + 36,
            old(self).offset() + 36 > old(self).input().len() ==> r == Err::<Vertices, DecodeError>(
                DecodeError::UnexpectedEndOfInput,
            ) && final(self).offset() == old(self).offset(),
        ;
}

/// A cursor over an in-memory byte slice.
pub struct ByteReader<'a> {
    /// The whole input.
    pub bytes: &'a [u8],
    /// How many bytes have been consumed.
    pub pos: usize,
}

impl<'a> ByteReader<'a> {
    /// A cursor standing at the start of `bytes`.
    pub fn new(bytes: &'a [u8]) -> (r: Self)
        ensures
            r.wf(),
            r.input() == bytes@,
            r.offset() == 0,
    {
        ByteReader { bytes, pos: 0 }
    }

    /// Skips `n` bytes without interpreting them.
    pub fn advance(&mut self, n: usize)
        requires
            old(self).wf(),
            old(self).offset() + n <= old(self).input().len(),
        ensures
            final(self).wf(),
            final(self).input() == old(self).input(),
            final(self).offset() == old(self).offset() + n,
    {
        // The slice's length bounds the new position, so the sum fits.
        let _bound = self.bytes.len();
        self.pos = self.pos + n;
    }

    /// Consumes 4 bytes as a little-endian unsigned 32-bit value, or fails
    /// with `UnexpectedEndOfInput`, unmoved, when fewer than 4 remain.
    pub fn read_u32_le(&mut self) -> (r: Result<u32, DecodeError>)
        requires
            old(self).wf(),
        ensures
            final(self).wf(),
            final(self).input() == old(self).input(),
            old(self).offset() + 4 <= old(self).input().len() ==> r == Ok::<u32, DecodeError>(
                spec_u32_from_le_bytes(
                    old(self).input().subrange(old(self).offset(), old(self).offset() + 4),
                ),
            ) && final(self).offset() == old(self).offset() + 4,
            old(self).offset() + 4 > old(self).input().len() ==> r == Err::<u32, DecodeError>(
                DecodeError::UnexpectedEndOfInput,
            ) && final(self).offset() == old(self).offset(),
    {
        if self.bytes.len() - self.pos >= 4 {
            let s = slice_subrange(self.bytes, self.pos, self.pos + 4);
            let x = u32_from_le_bytes(s);
            self.pos = self.pos + 4;
            Ok(x)
        } else {
            Err(DecodeError::UnexpectedEndOfInput)
        }
    }

    /// Consumes 2 bytes as a little-endian unsigned 16-bit value, or fails
    /// with `UnexpectedEndOfInput`, unmoved, when fewer than 2 remain.
    pub fn read_u16_le(&mut self) -> (r: Result<u16, DecodeError>)
        requires
            old(self).wf(),
        ensures
            final(self).wf(),
            final(self).input() == old(self).input(),
            old(self).offset() + 2 <= old(self).input().len() ==> r == Ok::<u16, DecodeError>(
                spec_u16_from_le_bytes(
                    old(self).input().subrange(old(self).offset(), old(self).offset() + 2),
                ),
            ) && final(self).offset() == old(self).offset() + 2,
            old(self).offset() + 2 > old(self).input().len() ==> r == Err::<u16, DecodeError>(
                DecodeError::UnexpectedEndOfInput,
            ) && final(self).offset() == old(self).offset(),
    {
        if self.bytes.len() - self.pos >= 2 {
            let s = slice_subrange(self.bytes, self.pos, self.pos + 2);
            let x = u16_from_le_bytes(s);
            self.pos = self.pos + 2;
            Ok(x)
        } else {
            Err(DecodeError::UnexpectedEndOfInput)
        }
    }

    /// Consumes 4 bytes as a little-endian IEEE-754 single-precision value,
    /// handed out as its bit pattern, unmodified — decoding performs no
    /// numeric validation.
    pub fn read_f32_bits(&mut self) -> (r: Result<u32, DecodeError>)
        requires
            old(self).wf(),
        ensures
            final(self).wf(),
            final(self).input() == old(self).input(),
            old(self).offset() + 4 <= old(self).input().len() ==> r == Ok::<u32, DecodeError>(
                spec_u32_from_le_bytes(
                    old(self).input().subrange(old(self).offset(), old(self).offset() + 4),
                ),
            ) && final(self).offset() == old(self).offset() + 4,
            old(self).offset() + 4 > old(self).input().len() ==> r == Err::<u32, DecodeError>(
                DecodeError::UnexpectedEndOfInput,
            ) && final(self).offset() == old(self).offset(),
    {
        self.read_u32_le()
    }
}

impl<'a> STLReaderExt for ByteReader<'a> {
    open spec fn input(&self) -> Seq<u8> {
        self.bytes@
    }

    open spec fn offset(&self) -> int {
        self.pos as int
    }

    open spec fn wf(&self) -> bool {
        self.pos <= self.bytes@.len()
    }

    fn read_vector(&mut self) -> (r: Result<Vector3, DecodeError>) {
        if self.bytes.len() - self.pos < 12 {
            return Err(DecodeError::UnexpectedEndOfInput);
        }
        let x = match self.read_f32_bits() {
            Ok(v) => v,
            Err(e) => return Err(e),
        };
        let y = match self.read_f32_bits() {
            Ok(v) => v,
            Err(e) => return Err(e),
        };
        let z = match self.read_f32_bits() {
            Ok(v) => v,
            Err(e) => return Err(e),
        };
        Ok(Vector3 { x, y, z })
    }

    fn read_vertices(&mut self) -> (r: Result<Vertices, DecodeError>) {
        if self.bytes.len() - self.pos < 36 {
            return Err(DecodeError::UnexpectedEndOfInput);
        }
        let v0 = match self.read_vector() {
            Ok(v) => v,
            Err(e) => return Err(e),
        };
        let v1 = match self.read_vector() {
            Ok(v) => v,
            Err(e) => return Err(e),
        };
        let v2 = match self.read_vector() {
            Ok(v) => v,
            Err(e) => return Err(e),
        };
        Ok(Vertices { v0, v1, v2 })
    }
}

} // verus!
