//! The shared mesh model produced by both decoders, and the word-level
//! reading of it: every mesh is determined by its facet count and the flat
//! sequence of 32-bit components in file order, which is what makes the
//! two encodings comparable.

use vstd::prelude::*;
use vstd::arithmetic::div_mod::lemma_fundamental_div_mod;

verus! {

/// One three-component vector.  Each component is the bit pattern of an
/// IEEE-754 single-precision value, exactly as it stands in a binary STL
/// record (little-endian decoded).  Decoding performs no numeric
/// validation: NaN and infinity patterns pass through unmodified.
#[derive(Clone, Copy, Debug, PartialEq, Eq, Structural)]
pub struct Vector3 {
    pub x: u32,
    pub y: u32,
    pub z: u32,
}

/// The three corners of one facet, in source order.  Winding order is
/// semantically meaningful to consumers, so it is preserved exactly.
#[derive(Clone, Copy, Debug, PartialEq, Eq, Structural)]
pub struct Vertices {
    pub v0: Vector3,
    pub v1: Vector3,
    pub v2: Vector3,
}

/// The mesh decoded from an STL source: one facet normal and one vertex
/// triple per facet, index-aligned.  Both sequences grow only during a
/// decode and are returned as a finished value.
#[derive(Clone, Debug, Default, PartialEq)]
pub struct STL {
    pub vectors: Vec<Vector3>,
    pub vertices: Vec<Vertices>,
}

/// The mathematical view of a mesh: the two component sequences.
/// Mesh equality throughout this crate is equality of these sequences.
#[verifier::ext_equal]
pub struct MeshView {
    pub vectors: Seq<Vector3>,
    pub vertices: Seq<Vertices>,
}

impl MeshView {
    /// The mesh invariant: normals and vertex triples are index-aligned.
    pub open spec fn wf(self) -> bool {
        self.vectors.len() == self.vertices.len()
    }
}

impl View for STL {
    type V = MeshView;

    open spec fn view(&self) -> MeshView {
        MeshView { vectors: self.vectors@, vertices: self.vertices@ }
    }
}

/// One vector as a flat word triple.
pub open spec fn vector_words(v: Vector3) -> Seq<u32> {
    seq![v.x, v.y, v.z]
}

/// One facet as its twelve words in file order: the normal's components,
/// then each corner's components.
pub open spec fn facet_words(nrm: Vector3, vts: Vertices) -> Seq<u32> {
    vector_words(nrm) + vector_words(vts.v0) + vector_words(vts.v1) + vector_words(vts.v2)
}

/// The words of the first `k` facets of `m`, concatenated in order.
pub open spec fn words_prefix(m: MeshView, k: int) -> Seq<u32>
    decreases k,
{
    if k <= 0 {
        Seq::empty()
    } else {
        words_prefix(m, k - 1) + facet_words(m.vectors[k - 1], m.vertices[k - 1])
    }
}

/// The whole mesh as its flat sequence of 32-bit components in file order.
/// Two encodings carry the same logical mesh exactly when they carry the
/// same words for the same facet count.
pub open spec fn mesh_words(m: MeshView) -> Seq<u32> {
    words_prefix(m, m.vectors.len() as int)
}

proof fn lemma_words_prefix_len(m: MeshView, k: int)
    requires
        0 <= k,
    ensures
        words_prefix(m, k).len() == 12 * k,
    decreases k,
{
    if k > 0 {
        lemma_words_prefix_len(m, k - 1);
    }
}

proof fn lemma_words_prefix_stable(m1: MeshView, m2: MeshView, k: int)
    requires
        0 <= k,
        forall|i: int| 0 <= i < k ==> m1.vectors[i] == m2.vectors[i],
        forall|i: int| 0 <= i < k ==> m1.vertices[i] == m2.vertices[i],
    ensures
        words_prefix(m1, k) == words_prefix(m2, k),
    decreases k,
{
    if k > 0 {
        lemma_words_prefix_stable(m1, m2, k - 1);
    }
}

proof fn lemma_words_prefix_inj(m1: MeshView, m2: MeshView, k: int)
    requires
        0 <= k <= m1.vectors.len(),
        k <= m2.vectors.len(),
        words_prefix(m1, k) == words_prefix(m2, k),
    ensures
        forall|i: int| 0 <= i < k ==> m1.vectors[i] == m2.vectors[i] && m1.vertices[i]
            == m2.vertices[i],
    decreases k,
{
    if k > 0 {
        lemma_words_prefix_len(m1, k - 1);
        lemma_words_prefix_len(m2, k - 1);
        let w1 = words_prefix(m1, k);
        let w2 = words_prefix(m2, k);
        assert(words_prefix(m1, k - 1) =~= w1.subrange(0, 12 * (k - 1)));
        assert(words_prefix(m2, k - 1) =~= w2.subrange(0, 12 * (k - 1)));
        lemma_words_prefix_inj(m1, m2, k - 1);
        let f1 = facet_words(m1.vectors[k - 1], m1.vertices[k - 1]);
        let f2 = facet_words(m2.vectors[k - 1], m2.vertices[k - 1]);
        assert(f1 =~= w1.subrange(12 * (k - 1), 12 * k));
        assert(f2 =~= w2.subrange(12 * (k - 1), 12 * k));
        assert(m1.vectors[k - 1] == m2.vectors[k - 1]) by {
            assert(f1[0] == f2[0] && f1[1] == f2[1] && f1[2] == f2[2]);
        }
        assert(m1.vertices[k - 1] == m2.vertices[k - 1]) by {
            assert(f1[3] == f2[3] && f1[4] == f2[4] && f1[5] == f2[5]);
            assert(f1[6] == f2[6] && f1[7] == f2[7] && f1[8] == f2[8]);
            assert(f1[9] == f2[9] && f1[10] == f2[10] && f1[11] == f2[11]);
        }
    }
}

/// Cross-format equivalence: two successful decodes that carry the same
/// logical mesh — the same facet count and the same 32-bit component
/// words in file order — are the same mesh, whichever encoding each of
/// them came from.
pub proof fn lemma_words_determine_mesh(m1: MeshView, m2: MeshView)
    requires
        m1.wf(),
        m2.wf(),
        m1.vectors.len() == m2.vectors.len(),
        mesh_words(m1) == mesh_words(m2),
    ensures
        m1 == m2,
{
    let n = m1.vectors.len() as int;
    lemma_words_prefix_inj(m1, m2, n);
    assert(m1.vectors =~= m2.vectors);
    assert(m1.vertices =~= m2.vertices);
    assert(m1 =~= m2);
}

impl STL {
    /// Builds the mesh whose flat word sequence is `words`, twelve words
    /// per facet.  Succeeds if and only if the length is a multiple of
    /// twelve; by [`lemma_words_determine_mesh`] the result is the one
    /// mesh of that size with these words.
    pub fn from_words(words: &Vec<u32>) -> (r: Option<STL>)
        ensures
            r matches Some(m) ==> m@.wf() && mesh_words(m@) == words@ && m.vectors@.len() * 12
                == words@.len(),
            r is Some <==> words@.len() % 12 == 0,
    {
        if words.len() % 12 != 0 {
            return None;
        }
        let n = words.len() / 12;
        proof {
            lemma_fundamental_div_mod(words@.len() as int, 12);
        }
        let mut vectors: Vec<Vector3> = Vec::with_capacity(n);
        let mut vertices: Vec<Vertices> = Vec::with_capacity(n);
        let mut k: usize = 0;
        while k < n
            invariant
                k <= n,
                words@.len() == 12 * n,
                vectors@.len() == k,
                vertices@.len() == k,
                words_prefix(
                    MeshView { vectors: vectors@, vertices: vertices@ },
                    k as int,
                ) == words@.subrange(0, 12 * (k as int)),
            decreases n - k,
        {
            let wl = words.len();
            proof {
                assert(12 * (k as int) + 12 <= wl);
            }
            let base = 12 * k;
            let nrm = Vector3 { x: words[base], y: words[base + 1], z: words[base + 2] };
            let vts = Vertices {
                v0: Vector3 { x: words[base + 3], y: words[base + 4], z: words[base + 5] },
                v1: Vector3 { x: words[base + 6], y: words[base + 7], z: words[base + 8] },
                v2: Vector3 { x: words[base + 9], y: words[base + 10], z: words[base + 11] },
            };
            let ghost mv = MeshView { vectors: vectors@, vertices: vertices@ };
            vectors.push(nrm);
            vertices.push(vts);
            k = k + 1;
            proof {
                let mv2 = MeshView { vectors: vectors@, vertices: vertices@ };
                lemma_words_prefix_stable(mv, mv2, k as int - 1);
                assert(facet_words(nrm, vts) =~= words@.subrange(
                    12 * (k as int - 1),
                    12 * (k as int),
                ));
                assert(words_prefix(mv2, k as int) =~= words@.subrange(0, 12 * (k as int)));
            }
        }
        let r = STL { vectors, vertices };
        proof {
            assert(mesh_words(r@) =~= words@);
        }
        Some(r)
    }
}

} // verus!
