use stl_parser::AsciiMesh;
use stl_parser::ByteReader;
use stl_parser::DecodeError;
use stl_parser::Expected;
use stl_parser::STL;
use stl_parser::STLReaderExt;
use stl_parser::Vector3;
use stl_parser::Vertices;
use stl_parser::TRIANGLE_SIZE;

fn vec3(x: f32, y: f32, z: f32) -> Vector3 {
    Vector3 { x: x.to_bits(), y: y.to_bits(), z: z.to_bits() }
}

fn push_f32(out: &mut Vec<u8>, v: f32) {
    out.extend_from_slice(&v.to_bits().to_le_bytes());
}

/// The one-triangle stream: 80 zero header bytes, count 1, normal (0,0,1),
/// vertices (0,0,0), (1,0,0), (0,1,0), two attribute bytes.
fn one_triangle_stream() -> Vec<u8> {
    let mut v = vec![0u8; 80];
    v.extend_from_slice(&1u32.to_le_bytes());
    for f in [0.0f32, 0.0, 1.0] {
        push_f32(&mut v, f);
    }
    for f in [0.0f32, 0.0, 0.0, 1.0, 0.0, 0.0, 0.0, 1.0, 0.0] {
        push_f32(&mut v, f);
    }
    v.extend_from_slice(&[0u8, 0u8]);
    v
}

fn ascii_to_mesh(text: &str) -> Result<STL, DecodeError> {
    let am: AsciiMesh = STL::parse_ascii(text)?;
    let mut words: Vec<u32> = Vec::new();
    for tok in &am.numbers {
        let s = std::str::from_utf8(tok).expect("numeric tokens are ASCII");
        let f: f32 = s.parse().expect("validated numeric token");
        words.push(f.to_bits());
    }
    Ok(STL::from_words(&words).expect("twelve words per facet"))
}

#[test]
fn one_triangle_decodes() {
    let data = one_triangle_stream();
    assert_eq!(data.len(), 84 + TRIANGLE_SIZE);
    let stl = STL::parse_binary(&data).unwrap();
    assert_eq!(stl.vectors.len(), 1);
    assert_eq!(stl.vertices.len(), 1);
    assert_eq!(stl.vectors[0], vec3(0.0, 0.0, 1.0));
    assert_eq!(
        stl.vertices[0],
        Vertices { v0: vec3(0.0, 0.0, 0.0), v1: vec3(1.0, 0.0, 0.0), v2: vec3(0.0, 1.0, 0.0) }
    );
}

#[test]
fn truncated_one_triangle_fails() {
    let mut data = one_triangle_stream();
    data.truncate(data.len() - 6);
    let r = STL::parse_binary(&data);
    assert_eq!(r, Err(DecodeError::TruncatedBody { expected: 1, got: 0 }));
}

#[test]
fn short_stream_is_truncated_header() {
    assert_eq!(STL::parse_binary(&[]), Err(DecodeError::TruncatedHeader));
    assert_eq!(STL::parse_binary(&[0u8; 83]), Err(DecodeError::TruncatedHeader));
}

#[test]
fn declared_count_is_respected() {
    let mut v = vec![7u8; 80];
    v.extend_from_slice(&2u32.to_le_bytes());
    for k in 0..2 * TRIANGLE_SIZE {
        v.push(k as u8);
    }
    let stl = STL::parse_binary(&v).unwrap();
    assert_eq!(stl.vectors.len(), 2);
    assert_eq!(stl.vertices.len(), 2);
}

#[test]
fn trailing_bytes_are_ignored() {
    let mut data = one_triangle_stream();
    data.extend_from_slice(&[1, 2, 3, 4, 5]);
    let stl = STL::parse_binary(&data).unwrap();
    assert_eq!(stl.vectors.len(), 1);
}

#[test]
fn strict_mode_flags_trailing_bytes() {
    let data = one_triangle_stream();
    let strict = STL::parse_binary_strict(&data).unwrap();
    assert_eq!(strict, STL::parse_binary(&data).unwrap());
    let mut extra = data.clone();
    extra.push(0);
    assert_eq!(STL::parse_binary_strict(&extra), Err(DecodeError::TrailingBytes));
}

#[test]
fn header_content_does_not_matter() {
    let data1 = one_triangle_stream();
    let mut data2 = data1.clone();
    for i in 0..80 {
        data2[i] = (i as u8).wrapping_mul(37).wrapping_add(11);
    }
    let m1 = STL::parse_binary(&data1).unwrap();
    let m2 = STL::parse_binary(&data2).unwrap();
    assert_eq!(m1, m2);
}

#[test]
fn binary_round_trip() {
    let stl = STL {
        vectors: vec![vec3(0.0, 0.0, 1.0), vec3(-1.5, 2.25, 1e20)],
        vertices: vec![
            Vertices { v0: vec3(0.0, 0.0, 0.0), v1: vec3(1.0, 0.0, 0.0), v2: vec3(0.0, 1.0, 0.0) },
            Vertices {
                v0: vec3(-0.5, 0.25, 8.0),
                v1: vec3(3.5, -4.0, 0.125),
                v2: vec3(6.0, 7.0, -8.0),
            },
        ],
    };
    let bytes = stl.encode_binary().unwrap();
    assert_eq!(bytes.len(), 84 + 2 * TRIANGLE_SIZE);
    let back = STL::parse_binary(&bytes).unwrap();
    assert_eq!(back, stl);
}

#[test]
fn encode_rejects_misaligned_mesh() {
    let stl = STL { vectors: vec![vec3(0.0, 0.0, 1.0)], vertices: vec![] };
    assert_eq!(stl.encode_binary(), None);
}

#[test]
fn ascii_one_triangle_matches_binary() {
    let text = "solid t\nfacet normal 0 0 1\nouter loop\nvertex 0 0 0\nvertex 1 0 0\nvertex 0 1 0\nendloop\nendfacet\nendsolid t";
    let from_ascii = ascii_to_mesh(text).unwrap();
    let from_binary = STL::parse_binary(&one_triangle_stream()).unwrap();
    assert_eq!(from_ascii, from_binary);
}

#[test]
fn ascii_empty_solid() {
    let m = ascii_to_mesh("solid endsolid").unwrap();
    assert_eq!(m.vectors.len(), 0);
    let m = ascii_to_mesh("solid name endsolid name").unwrap();
    assert_eq!(m.vectors.len(), 0);
}

#[test]
fn ascii_signed_and_exponent_numbers() {
    let text = "solid s facet normal -0.5 +1.25 2e2 outer loop vertex 1E-2 0 0 vertex 0 12.5e+1 0 vertex 0 0 -3 endloop endfacet endsolid s";
    let m = ascii_to_mesh(text).unwrap();
    assert_eq!(m.vectors[0], vec3(-0.5, 1.25, 200.0));
    assert_eq!(
        m.vertices[0],
        Vertices { v0: vec3(0.01, 0.0, 0.0), v1: vec3(0.0, 125.0, 0.0), v2: vec3(0.0, 0.0, -3.0) }
    );
}

#[test]
fn ascii_missing_solid() {
    let r = STL::parse_ascii("cube t endsolid");
    assert_eq!(
        r.err(),
        Some(DecodeError::GrammarError { position: 0, expected: Expected::KeywordSolid })
    );
}

#[test]
fn ascii_missing_endsolid() {
    let text = "solid t";
    let r = STL::parse_ascii(text);
    assert_eq!(
        r.err(),
        Some(DecodeError::GrammarError {
            position: text.len(),
            expected: Expected::KeywordFacetOrEndsolid
        })
    );
}

#[test]
fn ascii_bad_number() {
    let text = "solid facet normal 1 2 x outer loop endloop endfacet endsolid";
    let r = STL::parse_ascii(text);
    assert_eq!(
        r.err(),
        Some(DecodeError::GrammarError {
            position: text.find('x').unwrap(),
            expected: Expected::Number
        })
    );
}

#[test]
fn ascii_two_vertices_fail() {
    let text = "solid s facet normal 0 0 1 outer loop vertex 0 0 0 vertex 1 0 0 endloop endfacet endsolid s";
    let r = STL::parse_ascii(text);
    assert_eq!(
        r.err(),
        Some(DecodeError::GrammarError {
            position: text.find("endloop").unwrap(),
            expected: Expected::KeywordVertex
        })
    );
}

#[test]
fn ascii_four_vertices_fail() {
    let text = "solid s facet normal 0 0 1 outer loop vertex 0 0 0 vertex 1 0 0 vertex 0 1 0 vertex 1 1 1 endloop endfacet endsolid s";
    let r = STL::parse_ascii(text);
    assert_eq!(
        r.err(),
        Some(DecodeError::GrammarError {
            position: text.rfind("vertex").unwrap(),
            expected: Expected::KeywordEndloop
        })
    );
}

#[test]
fn ascii_missing_normal_keyword() {
    let text = "solid s facet outer loop endloop endfacet endsolid s";
    let r = STL::parse_ascii(text);
    assert_eq!(
        r.err(),
        Some(DecodeError::GrammarError {
            position: text.find("outer").unwrap(),
            expected: Expected::KeywordNormal
        })
    );
}

#[test]
fn ascii_missing_outer_keyword() {
    let text = "solid s facet normal 0 0 1 loop endloop endfacet endsolid s";
    let r = STL::parse_ascii(text);
    assert_eq!(
        r.err(),
        Some(DecodeError::GrammarError {
            position: text.find("loop").unwrap(),
            expected: Expected::KeywordOuter
        })
    );
}

#[test]
fn ascii_missing_loop_keyword() {
    let text = "solid s facet normal 0 0 1 outer vertex 0 0 0 endsolid s";
    let r = STL::parse_ascii(text);
    assert_eq!(
        r.err(),
        Some(DecodeError::GrammarError {
            position: text.find("vertex").unwrap(),
            expected: Expected::KeywordLoop
        })
    );
}

#[test]
fn ascii_missing_endfacet_keyword() {
    let text = "solid s facet normal 0 0 1 outer loop vertex 0 0 0 vertex 1 0 0 vertex 0 1 0 endloop endsolid s";
    let r = STL::parse_ascii(text);
    assert_eq!(
        r.err(),
        Some(DecodeError::GrammarError {
            position: text.find("endsolid").unwrap(),
            expected: Expected::KeywordEndfacet
        })
    );
}

#[test]
fn ascii_trailing_text_fails() {
    let text = "solid t endsolid t extra";
    let r = STL::parse_ascii(text);
    assert_eq!(
        r.err(),
        Some(DecodeError::GrammarError {
            position: text.find("extra").unwrap(),
            expected: Expected::EndOfInput
        })
    );
}

#[test]
fn ascii_two_facets_in_order() {
    let text = "solid s \
        facet normal 0 0 1 outer loop vertex 0 0 0 vertex 1 0 0 vertex 0 1 0 endloop endfacet \
        facet normal 1 0 0 outer loop vertex 2 0 0 vertex 2 1 0 vertex 2 0 1 endloop endfacet \
        endsolid s";
    let m = ascii_to_mesh(text).unwrap();
    assert_eq!(m.vectors, vec![vec3(0.0, 0.0, 1.0), vec3(1.0, 0.0, 0.0)]);
    assert_eq!(m.vertices[1].v0, vec3(2.0, 0.0, 0.0));
}

#[test]
fn reader_reads_little_endian() {
    let bytes = [1u8, 2, 3, 4, 5, 6];
    let mut rd = ByteReader::new(&bytes);
    assert_eq!(rd.read_u32_le(), Ok(0x04030201));
    assert_eq!(rd.read_u16_le(), Ok(0x0605));
    assert_eq!(rd.read_u16_le(), Err(DecodeError::UnexpectedEndOfInput));
}

#[test]
fn reader_vector_needs_twelve_bytes() {
    let bytes = [0u8; 11];
    let mut rd = ByteReader::new(&bytes);
    assert_eq!(rd.read_vector(), Err(DecodeError::UnexpectedEndOfInput));
    let ones = 1.0f32.to_le_bytes();
    let mut full = Vec::new();
    for _ in 0..3 {
        full.extend_from_slice(&ones);
    }
    let mut rd = ByteReader::new(&full);
    assert_eq!(rd.read_vector(), Ok(vec3(1.0, 1.0, 1.0)));
}

#[test]
fn reader_vertices_need_thirty_six_bytes() {
    let bytes = [0u8; 35];
    let mut rd = ByteReader::new(&bytes);
    assert_eq!(rd.read_vertices(), Err(DecodeError::UnexpectedEndOfInput));
    let mut full = Vec::new();
    for k in 0..9 {
        push_f32(&mut full, k as f32);
    }
    let mut rd = ByteReader::new(&full);
    assert_eq!(
        rd.read_vertices(),
        Ok(Vertices {
            v0: vec3(0.0, 1.0, 2.0),
            v1: vec3(3.0, 4.0, 5.0),
            v2: vec3(6.0, 7.0, 8.0),
        })
    );
}

#[test]
fn from_words_needs_multiples_of_twelve() {
    let words: Vec<u32> = (0..13).collect();
    assert!(STL::from_words(&words).is_none());
    let words: Vec<u32> = (0..24).collect();
    let m = STL::from_words(&words).unwrap();
    assert_eq!(m.vectors.len(), 2);
    assert_eq!(m.vectors[1], Vector3 { x: 12, y: 13, z: 14 });
    assert_eq!(m.vertices[1].v2, Vector3 { x: 21, y: 22, z: 23 });
}
