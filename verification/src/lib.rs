//! A decoder for the STL triangle-mesh file format.
//!
//! Both the fixed-layout binary encoding (80-byte header, 32-bit triangle
//! count, 50-byte facet records) and the keyword-delimited ASCII encoding
//! are decoded into one shared mesh model.  Floating-point components are
//! carried as their IEEE-754 single-precision bit patterns, so that the
//! decoders are byte-exact and free of numeric reinterpretation.

use vstd::prelude::*;

mod ascii;
mod binary;
mod error;
mod mesh;
mod num;
mod reader;

pub use ascii::AsciiMesh;
pub use ascii::TokView;
pub use ascii::is_space;
pub use ascii::token_end;
pub use ascii::spec_tokens;
pub use ascii::spec_parse_ascii;
pub use ascii::nums_view;
pub use binary::spec_declared_count;
pub use binary::spec_mesh_result;
pub use binary::spec_parse_binary;
pub use binary::spec_parse_binary_strict;
pub use binary::spec_encode_binary;
pub use binary::spec_encode_body;
pub use binary::spec_encode_record;
pub use binary::spec_encode_vector;
pub use binary::lemma_round_trip;
pub use binary::lemma_truncation_detected;
pub use binary::lemma_header_skip;

pub use error::DecodeError;
pub use error::Expected;
pub use mesh::Vector3;
pub use mesh::Vertices;
pub use mesh::STL;
pub use mesh::MeshView;
pub use mesh::vector_words;
pub use mesh::facet_words;
pub use mesh::words_prefix;
pub use mesh::mesh_words;
pub use mesh::lemma_words_determine_mesh;
pub use num::is_float_token;
pub use reader::ByteReader;
pub use reader::STLReaderExt;
pub use reader::spec_vector_at;
pub use reader::spec_vertices_at;

verus! {

/// The number of bytes of one binary facet record: 12 for the normal,
/// 36 for the three vertices, 2 for the reserved attribute field.
pub const TRIANGLE_SIZE: usize = 50;

} // verus!

