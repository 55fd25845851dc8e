//! The ASCII mesh decoder.
//!
//! ASCII STL is a keyword grammar: `solid` with an optional name, zero or
//! more facet blocks — `facet normal nx ny nz`, `outer loop`, exactly
//! three `vertex x y z` lines, `endloop`, `endfacet` — and `endsolid`
//! with an optional name.  Whitespace, newlines included, is insignificant
//! between tokens.  The decoder validates the whole grammar and hands out
//! each facet's twelve numeric tokens in file order; any syntactic
//! mismatch fails with a `GrammarError` carrying the byte offset of the
//! offending token and the item that was expected there.

use vstd::prelude::*;
use vstd::slice::slice_subrange;
use vstd::slice::slice_to_vec;
use vstd::string::StringSliceAdditionalSpecFns;
use crate::error::DecodeError;
use crate::error::Expected;
use crate::num::is_float_token;
use crate::num::is_float_token_exec;

verus! {

/// Whitespace between tokens: space, tab, carriage return, newline.
pub open spec fn is_space(b: u8) -> bool {
    b == 32 || b == 9 || b == 13 || b == 10
}

/// Where the token starting at `i` ends: the next whitespace byte, or the
/// end of the input.
pub open spec fn token_end(s: Seq<u8>, i: int) -> int
    decreases s.len() - i,
{
    if 0 <= i < s.len() && !is_space(s[i]) {
        token_end(s, i + 1)
    } else {
        i
    }
}

/// A token: the byte offset it starts at (for error positions) and its
/// bytes.
pub struct TokView {
    pub start: int,
    pub text: Seq<u8>,
}

/// The tokens of `s` at or after position `i`: the maximal runs of
/// non-whitespace bytes, in order.
pub open spec fn spec_tokens(s: Seq<u8>, i: int) -> Seq<TokView>
    decreases s.len() - i,
{
    if !(0 <= i < s.len()) {
        Seq::empty()
    } else if is_space(s[i]) {
        spec_tokens(s, i + 1)
    } else if i == 0 || is_space(s[i - 1]) {
        seq![TokView { start: i, text: s.subrange(i, token_end(s, i)) }] + spec_tokens(s, i + 1)
    } else {
        spec_tokens(s, i + 1)
    }
}

proof fn lemma_token_end(s: Seq<u8>, i: int)
    requires
        0 <= i <= s.len(),
    ensures
        i <= token_end(s, i) <= s.len(),
        forall|k: int| i <= k < token_end(s, i) ==> !is_space(s[k]),
        token_end(s, i) < s.len() ==> is_space(s[token_end(s, i)]),
    decreases s.len() - i,
{
    if i < s.len() && !is_space(s[i]) {
        lemma_token_end(s, i + 1);
    }
}

proof fn lemma_tokens_skip(s: Seq<u8>, a: int, b: int)
    requires
        1 <= a <= b <= s.len(),
        forall|k: int| a - 1 <= k < b ==> !is_space(s[k]),
    ensures
        spec_tokens(s, a) == spec_tokens(s, b),
    decreases b - a,
{
    if a < b {
        lemma_tokens_skip(s, a + 1, b);
    }
}

/// A token of the input, as the byte range it occupies.
#[derive(Clone, Copy)]
pub struct Token {
    pub start: usize,
    pub end: usize,
}

/// The mathematical reading of one exec token against input `s`.
pub open spec fn tok_view(s: Seq<u8>, t: Token) -> TokView {
    TokView { start: t.start as int, text: s.subrange(t.start as int, t.end as int) }
}

/// The mathematical reading of an exec token list.
pub open spec fn tok_views(s: Seq<u8>, toks: Seq<Token>) -> Seq<TokView> {
    toks.map_values(|t: Token| tok_view(s, t))
}

/// Every token denotes a non-empty range inside `s`.
pub open spec fn toks_wf(s: Seq<u8>, toks: Seq<Token>) -> bool {
    forall|k: int|
        0 <= k < toks.len() ==> ((#[trigger] toks[k]).start as int) < (toks[k].end as int)
            <= s.len()
}

/// Splits the input into its whitespace-separated tokens.
fn tokenize(s: &[u8]) -> (toks: Vec<Token>)
    ensures
        tok_views(s@, toks@) == spec_tokens(s@, 0),
        toks_wf(s@, toks@),
        toks@.len() <= s@.len(),
{
    let mut toks: Vec<Token> = Vec::new();
    let mut i: usize = 0;
    while i < s.len()
        invariant
            i <= s@.len(),
            toks_wf(s@, toks@),
            toks@.len() <= i,
            tok_views(s@, toks@) + spec_tokens(s@, i as int) == spec_tokens(s@, 0),
            i < s@.len() && !is_space(s@[i as int]) ==> (i == 0 || is_space(s@[i as int - 1])),
        decreases s@.len() - i,
    {
        if s[i] == 32 || s[i] == 9 || s[i] == 13 || s[i] == 10 {
            i = i + 1;
        } else {
            let j = token_end_exec(s, i);
            proof {
                lemma_token_end(s@, i as int);
                lemma_tokens_skip(s@, i as int + 1, j as int);
            }
            let t = Token { start: i, end: j };
            let ghost old_views = tok_views(s@, toks@);
            toks.push(t);
            proof {
                assert(tok_views(s@, toks@) =~= old_views + seq![tok_view(s@, t)]);
                assert((old_views + seq![tok_view(s@, t)]) + spec_tokens(s@, j as int) =~=
                    old_views + (seq![tok_view(s@, t)] + spec_tokens(s@, j as int)));
            }
            i = j;
        }
    }
    proof {
        assert(tok_views(s@, toks@) + spec_tokens(s@, i as int) =~= tok_views(s@, toks@));
    }
    toks
}

/// Scans to the end of the token that starts at `i`.
fn token_end_exec(s: &[u8], i: usize) -> (r: usize)
    requires
        i <= s@.len(),
    ensures
        r == token_end(s@, i as int),
        i <= r <= s@.len(),
{
    let mut k = i;
    loop
        invariant
            i <= k <= s@.len(),
            token_end(s@, i as int) == token_end(s@, k as int),
        decreases s@.len() - k,
    {
        if k < s.len() && !(s[k] == 32 || s[k] == 9 || s[k] == 13 || s[k] == 10) {
            k = k + 1;
        } else {
            return k;
        }
    }
}

/// The `solid` keyword.
pub open spec fn kw_solid() -> Seq<u8> {
    seq![115u8, 111u8, 108u8, 105u8, 100u8]
}

/// The `facet` keyword.
pub open spec fn kw_facet() -> Seq<u8> {
    seq![102u8, 97u8, 99u8, 101u8, 116u8]
}

/// The `normal` keyword.
pub open spec fn kw_normal() -> Seq<u8> {
    seq![110u8, 111u8, 114u8, 109u8, 97u8, 108u8]
}

/// The `outer` keyword.
pub open spec fn kw_outer() -> Seq<u8> {
    seq![111u8, 117u8, 116u8, 101u8, 114u8]
}

/// The `loop` keyword.
pub open spec fn kw_loop() -> Seq<u8> {
    seq![108u8, 111u8, 111u8, 112u8]
}

/// The `vertex` keyword.
pub open spec fn kw_vertex() -> Seq<u8> {
    seq![118u8, 101u8, 114u8, 116u8, 101u8, 120u8]
}

/// The `endloop` keyword.
pub open spec fn kw_endloop() -> Seq<u8> {
    seq![101u8, 110u8, 100u8, 108u8, 111u8, 111u8, 112u8]
}

/// The `endfacet` keyword.
pub open spec fn kw_endfacet() -> Seq<u8> {
    seq![101u8, 110u8, 100u8, 102u8, 97u8, 99u8, 101u8, 116u8]
}

/// The `endsolid` keyword.
pub open spec fn kw_endsolid() -> Seq<u8> {
    seq![101u8, 110u8, 100u8, 115u8, 111u8, 108u8, 105u8, 100u8]
}

/// The byte offset an error at token index `i` reports: that token's
/// start, or the end of the input once the tokens are exhausted.
pub open spec fn spec_err_pos(s: Seq<u8>, toks: Seq<TokView>, i: int) -> int {
    if 0 <= i < toks.len() {
        toks[i].start
    } else {
        s.len() as int
    }
}

/// The grammar error reported at token index `i`.
pub open spec fn grammar_err(s: Seq<u8>, toks: Seq<TokView>, i: int, exp: Expected) -> DecodeError {
    DecodeError::GrammarError { position: spec_err_pos(s, toks, i) as usize, expected: exp }
}

/// Does token `i` exist and hold exactly `kw`?
pub open spec fn tok_is(toks: Seq<TokView>, i: int, kw: Seq<u8>) -> bool {
    0 <= i < toks.len() && toks[i].text == kw
}

/// A keyword expected at token index `i`.
pub open spec fn spec_kw_at(
    s: Seq<u8>,
    toks: Seq<TokView>,
    i: int,
    kw: Seq<u8>,
    exp: Expected,
) -> Result<(), DecodeError> {
    if tok_is(toks, i, kw) {
        Ok(())
    } else {
        Err(grammar_err(s, toks, i, exp))
    }
}

/// A numeric token expected at token index `i`.
pub open spec fn spec_num_at(s: Seq<u8>, toks: Seq<TokView>, i: int) -> Result<
    Seq<u8>,
    DecodeError,
> {
    if 0 <= i < toks.len() && is_float_token(toks[i].text) {
        Ok(toks[i].text)
    } else {
        Err(grammar_err(s, toks, i, Expected::Number))
    }
}

/// One `vertex x y z` line starting at token index `i`: four tokens.
pub open spec fn spec_vertex_at(s: Seq<u8>, toks: Seq<TokView>, i: int) -> Result<
    Seq<Seq<u8>>,
    DecodeError,
> {
    match spec_kw_at(s, toks, i, kw_vertex(), Expected::KeywordVertex) {
        Err(e) => Err(e),
        Ok(_) => match spec_num_at(s, toks, i + 1) {
            Err(e) => Err(e),
            Ok(a) => match spec_num_at(s, toks, i + 2) {
                Err(e) => Err(e),
                Ok(b) => match spec_num_at(s, toks, i + 3) {
                    Err(e) => Err(e),
                    Ok(c) => Ok(seq![a, b, c]),
                },
            },
        },
    }
}

/// One facet block starting at token index `i`: twenty-one tokens —
/// `facet normal` and three numbers, `outer loop`, three vertex lines,
/// `endloop endfacet` — yielding its twelve numeric tokens.
pub open spec fn spec_facet_at(s: Seq<u8>, toks: Seq<TokView>, i: int) -> Result<
    Seq<Seq<u8>>,
    DecodeError,
> {
    match spec_kw_at(s, toks, i, kw_facet(), Expected::KeywordFacetOrEndsolid) {
        Err(e) => Err(e),
        Ok(_) => match spec_kw_at(s, toks, i + 1, kw_normal(), Expected::KeywordNormal) {
            Err(e) => Err(e),
            Ok(_) => match spec_num_at(s, toks, i + 2) {
                Err(e) => Err(e),
                Ok(n1) => match spec_num_at(s, toks, i + 3) {
                    Err(e) => Err(e),
                    Ok(n2) => match spec_num_at(s, toks, i + 4) {
                        Err(e) => Err(e),
                        Ok(n3) => match spec_kw_at(s, toks, i + 5, kw_outer(), Expected::KeywordOuter) {
                            Err(e) => Err(e),
                            Ok(_) => match spec_kw_at(s, toks, i + 6, kw_loop(), Expected::KeywordLoop) {
                                Err(e) => Err(e),
                                Ok(_) => match spec_vertex_at(s, toks, i + 7) {
                                    Err(e) => Err(e),
                                    Ok(va) => match spec_vertex_at(s, toks, i + 11) {
                                        Err(e) => Err(e),
                                        Ok(vb) => match spec_vertex_at(s, toks, i + 15) {
                                            Err(e) => Err(e),
                                            Ok(vc) => match spec_kw_at(
                                                s,
                                                toks,
                                                i + 19,
                                                kw_endloop(),
                                                Expected::KeywordEndloop,
                                            ) {
                                                Err(e) => Err(e),
                                                Ok(_) => match spec_kw_at(
                                                    s,
                                                    toks,
                                                    i + 20,
                                                    kw_endfacet(),
                                                    Expected::KeywordEndfacet,
                                                ) {
                                                    Err(e) => Err(e),
                                                    Ok(_) => Ok(seq![n1, n2, n3] + va + vb + vc),
                                                },
                                            },
                                        },
                                    },
                                },
                            },
                        },
                    },
                },
            },
        },
    }
}

/// Every facet block from token index `i` on: their numeric tokens
/// concatenated, and the index of the first token after the last block.
pub open spec fn spec_facets_from(s: Seq<u8>, toks: Seq<TokView>, i: int) -> Result<
    (Seq<Seq<u8>>, int),
    DecodeError,
>
    decreases toks.len() - i,
{
    if tok_is(toks, i, kw_facet()) {
        match spec_facet_at(s, toks, i) {
            Err(e) => Err(e),
            Ok(f) => {
                let j = if i + 21 <= toks.len() {
                    i + 21
                } else {
                    toks.len() as int
                };
                match spec_facets_from(s, toks, j) {
                    Err(e) => Err(e),
                    Ok((rest, k)) => Ok((f + rest, k)),
                }
            },
        }
    } else {
        Ok((Seq::empty(), i))
    }
}

/// The token index the facet blocks start at: right after `solid`, or one
/// further when a name token stands there (any token other than `facet`
/// and `endsolid`).
pub open spec fn spec_i0(s: Seq<u8>) -> int {
    let toks = spec_tokens(s, 0);
    if 1 < toks.len() && toks[1].text != kw_facet() && toks[1].text != kw_endsolid() {
        2
    } else {
        1
    }
}

/// What decoding ASCII STL text yields: the facets' numeric tokens,
/// twelve per facet, in file order.  The text must open with `solid`,
/// optionally followed by one name token (any token other than `facet`
/// and `endsolid`), hold zero or more facet blocks, and close with
/// `endsolid`, an optional name token, and nothing further.  The first
/// token breaking this shape decides the error: a `GrammarError` at that
/// token's byte offset (or at the end of the input), naming what was
/// expected there.
pub open spec fn spec_parse_ascii(s: Seq<u8>) -> Result<Seq<Seq<u8>>, DecodeError> {
    let toks = spec_tokens(s, 0);
    match spec_kw_at(s, toks, 0, kw_solid(), Expected::KeywordSolid) {
        Err(e) => Err(e),
        Ok(_) => {
            let i0: int = spec_i0(s);
            match spec_facets_from(s, toks, i0) {
                Err(e) => Err(e),
                Ok((nums, j)) => {
                    if tok_is(toks, j, kw_endsolid()) {
                        let a = if j + 1 < toks.len() {
                            j + 2
                        } else {
                            j + 1
                        };
                        if a >= toks.len() {
                            Ok(nums)
                        } else {
                            Err(grammar_err(s, toks, a, Expected::EndOfInput))
                        }
                    } else {
                        Err(grammar_err(s, toks, j, Expected::KeywordFacetOrEndsolid))
                    }
                },
            }
        },
    }
}

/// The mathematical reading of a list of numeric tokens.
pub open spec fn nums_view(ns: Seq<Vec<u8>>) -> Seq<Seq<u8>> {
    ns.map_values(|v: Vec<u8>| v@)
}

/// A mesh as the ASCII grammar carries it: each facet's twelve numeric
/// tokens in file order — the normal's components, then each corner's.
/// Turning a token into its IEEE-754 single-precision word is numeric
/// work left to the caller; the finished words rebuild the mesh through
/// [`crate::STL::from_words`].
pub struct AsciiMesh {
    /// The numeric tokens, twelve per facet.
    pub numbers: Vec<Vec<u8>>,
}

impl View for AsciiMesh {
    type V = Seq<Seq<u8>>;

    open spec fn view(&self) -> Seq<Seq<u8>> {
        nums_view(self.numbers@)
    }
}

fn kwb_solid() -> (r: Vec<u8>)
    ensures
        r@ == kw_solid(),
{
    let mut v: Vec<u8> = Vec::new();
    v.push(115);
    v.push(111);
    v.push(108);
    v.push(105);
    v.push(100);
    proof {
        assert(v@ =~= kw_solid());
    }
    v
}

fn kwb_facet() -> (r: Vec<u8>)
    ensures
        r@ == kw_facet(),
{
    let mut v: Vec<u8> = Vec::new();
    v.push(102);
    v.push(97);
    v.push(99);
    v.push(101);
    v.push(116);
    proof {
        assert(v@ =~= kw_facet());
    }
    v
}

fn kwb_normal() -> (r: Vec<u8>)
    ensures
        r@ == kw_normal(),
{
    let mut v: Vec<u8> = Vec::new();
    v.push(110);
    v.push(111);
    v.push(114);
    v.push(109);
    v.push(97);
    v.push(108);
    proof {
        assert(v@ =~= kw_normal());
    }
    v
}

fn kwb_outer() -> (r: Vec<u8>)
    ensures
        r@ == kw_outer(),
{
    let mut v: Vec<u8> = Vec::new();
    v.push(111);
    v.push(117);
    v.push(116);
    v.push(101);
    v.push(114);
    proof {
        assert(v@ =~= kw_outer());
    }
    v
}

fn kwb_loop() -> (r: Vec<u8>)
    ensures
        r@ == kw_loop(),
{
    let mut v: Vec<u8> = Vec::new();
    v.push(108);
    v.push(111);
    v.push(111);
    v.push(112);
    proof {
        assert(v@ =~= kw_loop());
    }
    v
}

fn kwb_vertex() -> (r: Vec<u8>)
    ensures
        r@ == kw_vertex(),
{
    let mut v: Vec<u8> = Vec::new();
    v.push(118);
    v.push(101);
    v.push(114);
    v.push(116);
    v.push(101);
    v.push(120);
    proof {
        assert(v@ =~= kw_vertex());
    }
    v
}

fn kwb_endloop() -> (r: Vec<u8>)
    ensures
        r@ == kw_endloop(),
{
    let mut v: Vec<u8> = Vec::new();
    v.push(101);
    v.push(110);
    v.push(100);
    v.push(108);
    v.push(111);
    v.push(111);
    v.push(112);
    proof {
        assert(v@ =~= kw_endloop());
    }
    v
}

fn kwb_endfacet() -> (r: Vec<u8>)
    ensures
        r@ == kw_endfacet(),
{
    let mut v: Vec<u8> = Vec::new();
    v.push(101);
    v.push(110);
    v.push(100);
    v.push(102);
    v.push(97);
    v.push(99);
    v.push(101);
    v.push(116);
    proof {
        assert(v@ =~= kw_endfacet());
    }
    v
}

fn kwb_endsolid() -> (r: Vec<u8>)
    ensures
        r@ == kw_endsolid(),
{
    let mut v: Vec<u8> = Vec::new();
    v.push(101);
    v.push(110);
    v.push(100);
    v.push(115);
    v.push(111);
    v.push(108);
    v.push(105);
    v.push(100);
    proof {
        assert(v@ =~= kw_endsolid());
    }
    v
}

/// Builds the error [`grammar_err`] describes at token index `i`.
fn err_at(s: &[u8], toks: &Vec<Token>, i: usize, exp: Expected) -> (e: DecodeError)
    requires
        toks_wf(s@, toks@),
    ensures
        e == grammar_err(s@, tok_views(s@, toks@), i as int, exp),
{
    let position = if i < toks.len() {
        toks[i].start
    } else {
        s.len()
    };
    DecodeError::GrammarError { position, expected: exp }
}

/// Decides whether token `i` holds exactly `kw`.
fn tok_matches(s: &[u8], toks: &Vec<Token>, i: usize, kw: &[u8]) -> (b: bool)
    requires
        toks_wf(s@, toks@),
        i < toks@.len(),
    ensures
        b == tok_is(tok_views(s@, toks@), i as int, kw@),
{
    let t = toks[i];
    if t.end - t.start != kw.len() {
        proof {
            assert(tok_views(s@, toks@)[i as int].text.len() != kw@.len());
        }
        return false;
    }
    let mut j: usize = 0;
    while j < kw.len()
        invariant
            toks_wf(s@, toks@),
            i < toks@.len(),
            t == toks@[i as int],
            t.end - t.start == kw@.len(),
            j <= kw@.len(),
            forall|q: int| 0 <= q < j ==> s@[t.start + q] == kw@[q],
        decreases kw@.len() - j,
    {
        if s[t.start + j] != kw[j] {
            proof {
                assert(tok_views(s@, toks@)[i as int].text[j as int] != kw@[j as int]);
            }
            return false;
        }
        j = j + 1;
    }
    proof {
        assert(tok_views(s@, toks@)[i as int].text =~= kw@);
    }
    true
}

/// Copies one token's bytes out of the input.
fn token_bytes(s: &[u8], t: Token) -> (v: Vec<u8>)
    requires
        (t.start as int) <= (t.end as int) <= s@.len(),
    ensures
        v@ == s@.subrange(t.start as int, t.end as int),
{
    slice_to_vec(slice_subrange(s, t.start, t.end))
}

/// Takes the numeric token expected at index `i`.
fn parse_num_at(s: &[u8], toks: &Vec<Token>, i: usize) -> (r: Result<Vec<u8>, DecodeError>)
    requires
        toks_wf(s@, toks@),
    ensures
        (match r {
            Ok(v) => spec_num_at(s@, tok_views(s@, toks@), i as int) == Ok::<Seq<u8>, DecodeError>(
                v@,
            ) && is_float_token(v@) && i < toks@.len(),
            Err(e) => spec_num_at(s@, tok_views(s@, toks@), i as int) == Err::<
                Seq<u8>,
                DecodeError,
            >(e),
        }),
{
    if i < toks.len() {
        let t = toks[i];
        let v = token_bytes(s, t);
        proof {
            assert(tok_views(s@, toks@)[i as int].text == v@);
        }
        if is_float_token_exec(v.as_slice()) {
            return Ok(v);
        }
        return Err(err_at(s, toks, i, Expected::Number));
    }
    Err(err_at(s, toks, i, Expected::Number))
}

/// Parses one `vertex x y z` line at token index `i`, pushing its three
/// numeric tokens.
fn parse_vertex_at(s: &[u8], toks: &Vec<Token>, i: usize, numbers: &mut Vec<Vec<u8>>) -> (r:
    Result<usize, DecodeError>)
    requires
        toks_wf(s@, toks@),
        i <= toks@.len(),
    ensures
        (match r {
            Ok(p) => {
                &&& spec_vertex_at(s@, tok_views(s@, toks@), i as int) is Ok
                &&& nums_view(final(numbers)@) == nums_view(old(numbers)@) + spec_vertex_at(
                    s@,
                    tok_views(s@, toks@),
                    i as int,
                )->Ok_0
                &&& p as int == i as int + 4
                &&& p <= toks@.len()
            },
            Err(e) => spec_vertex_at(s@, tok_views(s@, toks@), i as int) == Err::<
                Seq<Seq<u8>>,
                DecodeError,
            >(e),
        }),
{
    let kw = kwb_vertex();
    if !(i < toks.len() && tok_matches(s, toks, i, kw.as_slice())) {
        return Err(err_at(s, toks, i, Expected::KeywordVertex));
    }
    let a = match parse_num_at(s, toks, i + 1) {
        Ok(v) => v,
        Err(e) => return Err(e),
    };
    let b = match parse_num_at(s, toks, i + 2) {
        Ok(v) => v,
        Err(e) => return Err(e),
    };
    let c = match parse_num_at(s, toks, i + 3) {
        Ok(v) => v,
        Err(e) => return Err(e),
    };
    let ghost before = nums_view(numbers@);
    let ghost va = spec_vertex_at(s@, tok_views(s@, toks@), i as int)->Ok_0;
    numbers.push(a);
    numbers.push(b);
    numbers.push(c);
    proof {
        assert(nums_view(numbers@) =~= before + va);
    }
    Ok(i + 4)
}

/// Parses one facet block at token index `i`, pushing its twelve numeric
/// tokens, and returns the index of the first token after the block.
fn parse_facet_at(s: &[u8], toks: &Vec<Token>, i: usize, numbers: &mut Vec<Vec<u8>>) -> (r: Result<
    usize,
    DecodeError,
>)
    requires
        toks_wf(s@, toks@),
        i <= toks@.len(),
    ensures
        (match r {
            Ok(p) => {
                &&& spec_facet_at(s@, tok_views(s@, toks@), i as int) is Ok
                &&& nums_view(final(numbers)@) == nums_view(old(numbers)@) + spec_facet_at(
                    s@,
                    tok_views(s@, toks@),
                    i as int,
                )->Ok_0
                &&& p as int == i as int + 21
                &&& p <= toks@.len()
            },
            Err(e) => spec_facet_at(s@, tok_views(s@, toks@), i as int) == Err::<
                Seq<Seq<u8>>,
                DecodeError,
            >(e),
        }),
{
    let kw = kwb_facet();
    if !(i < toks.len() && tok_matches(s, toks, i, kw.as_slice())) {
        return Err(err_at(s, toks, i, Expected::KeywordFacetOrEndsolid));
    }
    let kw = kwb_normal();
    if !(i + 1 < toks.len() && tok_matches(s, toks, i + 1, kw.as_slice())) {
        return Err(err_at(s, toks, i + 1, Expected::KeywordNormal));
    }
    let n1 = match parse_num_at(s, toks, i + 2) {
        Ok(v) => v,
        Err(e) => return Err(e),
    };
    let n2 = match parse_num_at(s, toks, i + 3) {
        Ok(v) => v,
        Err(e) => return Err(e),
    };
    let n3 = match parse_num_at(s, toks, i + 4) {
        Ok(v) => v,
        Err(e) => return Err(e),
    };
    let kw = kwb_outer();
    if !(i + 5 < toks.len() && tok_matches(s, toks, i + 5, kw.as_slice())) {
        return Err(err_at(s, toks, i + 5, Expected::KeywordOuter));
    }
    let kw = kwb_loop();
    if !(i + 6 < toks.len() && tok_matches(s, toks, i + 6, kw.as_slice())) {
        return Err(err_at(s, toks, i + 6, Expected::KeywordLoop));
    }
    let ghost before = nums_view(numbers@);
    numbers.push(n1);
    numbers.push(n2);
    numbers.push(n3);
    let p = match parse_vertex_at(s, toks, i + 7, numbers) {
        Ok(p) => p,
        Err(e) => return Err(e),
    };
    let p = match parse_vertex_at(s, toks, p, numbers) {
        Ok(p) => p,
        Err(e) => return Err(e),
    };
    let p = match parse_vertex_at(s, toks, p, numbers) {
        Ok(p) => p,
        Err(e) => return Err(e),
    };
    let kw = kwb_endloop();
    if !(p < toks.len() && tok_matches(s, toks, p, kw.as_slice())) {
        return Err(err_at(s, toks, p, Expected::KeywordEndloop));
    }
    let kw = kwb_endfacet();
    if !(p + 1 < toks.len() && tok_matches(s, toks, p + 1, kw.as_slice())) {
        return Err(err_at(s, toks, p + 1, Expected::KeywordEndfacet));
    }
    proof {
        let tv = tok_views(s@, toks@);
        let fr = spec_facet_at(s@, tv, i as int);
        assert(fr is Ok);
        assert(nums_view(numbers@) =~= before + fr->Ok_0);
    }
    Ok(p + 2)
}

proof fn lemma_facets_unfold(s: Seq<u8>, tv: Seq<TokView>, i: int, f: Seq<Seq<u8>>, p: int)
    requires
        tok_is(tv, i, kw_facet()),
        spec_facet_at(s, tv, i) == Ok::<Seq<Seq<u8>>, DecodeError>(f),
        p == i + 21,
        p <= tv.len(),
    ensures
        spec_facets_from(s, tv, i) == (match spec_facets_from(s, tv, p) {
            Ok((rest, k)) => Ok::<(Seq<Seq<u8>>, int), DecodeError>((f + rest, k)),
            Err(e) => Err::<(Seq<Seq<u8>>, int), DecodeError>(e),
        }),
{
}

proof fn lemma_facet_floats(s: Seq<u8>, tv: Seq<TokView>, i: int)
    requires
        spec_facet_at(s, tv, i) is Ok,
    ensures
        spec_facet_at(s, tv, i)->Ok_0.len() == 12,
        forall|q: int|
            0 <= q < 12 ==> is_float_token(#[trigger] spec_facet_at(s, tv, i)->Ok_0[q]),
{
    let f = spec_facet_at(s, tv, i)->Ok_0;
    let va = spec_vertex_at(s, tv, i + 7)->Ok_0;
    let vb = spec_vertex_at(s, tv, i + 11)->Ok_0;
    let vc = spec_vertex_at(s, tv, i + 15)->Ok_0;
    assert(f.len() == 12);
    assert forall|q: int| 0 <= q < 12 implies is_float_token(#[trigger] f[q]) by {
        if q < 3 {
            assert(f[q] == toks_text(tv, i + 2 + q));
        } else if q < 6 {
            assert(f[q] == va[q - 3]);
        } else if q < 9 {
            assert(f[q] == vb[q - 6]);
        } else {
            assert(f[q] == vc[q - 9]);
        }
    }
}

/// The text of token `i`.
pub open spec fn toks_text(toks: Seq<TokView>, i: int) -> Seq<u8> {
    toks[i].text
}

impl crate::mesh::STL {
    /// Decodes ASCII STL text to the token layer of the shared mesh model.
    /// The result is exactly [`spec_parse_ascii`] of the text's bytes: on
    /// success the facets' numeric tokens, twelve per facet in file order,
    /// each shaped as [`is_float_token`] demands; on failure the
    /// `GrammarError` for the first offending position.
    #[verifier::rlimit(100)]
    pub fn parse_ascii(text: &str) -> (r: Result<AsciiMesh, DecodeError>)
        ensures
            (match r {
                Ok(am) => spec_parse_ascii(text.spec_bytes()) == Ok::<Seq<Seq<u8>>, DecodeError>(
                    am@,
                ),
                Err(e) => spec_parse_ascii(text.spec_bytes()) == Err::<Seq<Seq<u8>>, DecodeError>(
                    e,
                ),
            }),
            r matches Ok(am) ==> am@.len() % 12 == 0 && (forall|q: int|
                0 <= q < am@.len() ==> is_float_token(am@[q])),
    {
        let bytes: &[u8] = text.as_bytes();
        let toks = tokenize(bytes);
        let ghost tv = tok_views(bytes@, toks@);
        let (numbers, i) = match parse_facets_tokens(bytes, &toks) {
            Ok(pair) => pair,
            Err(e) => return Err(e),
        };
        let kwe = kwb_endsolid();
        if !(i < toks.len() && tok_matches(bytes, &toks, i, kwe.as_slice())) {
            return Err(err_at(bytes, &toks, i, Expected::KeywordFacetOrEndsolid));
        }
        let after = i + 1;
        if after == toks.len() {
            return Ok(AsciiMesh { numbers });
        }
        let fin = after + 1;
        if fin == toks.len() {
            return Ok(AsciiMesh { numbers });
        }
        Err(err_at(bytes, &toks, fin, Expected::EndOfInput))
    }
}

/// Checks the opening `solid` and its optional name, then takes every
/// facet block, yielding the numeric tokens and the index of the first
/// token after the last block.
#[verifier::rlimit(100)]
#[verifier::loop_isolation(false)]
fn parse_facets_tokens(bytes: &[u8], toks: &Vec<Token>) -> (r: Result<
    (Vec<Vec<u8>>, usize),
    DecodeError,
>)
    requires
        toks_wf(bytes@, toks@),
        tok_views(bytes@, toks@) == spec_tokens(bytes@, 0),
    ensures
        (match r {
            Ok(pair) => {
                let tv = spec_tokens(bytes@, 0);
                &&& tok_is(tv, 0, kw_solid())
                &&& spec_facets_from(bytes@, tv, spec_i0(bytes@)) == Ok::<
                    (Seq<Seq<u8>>, int),
                    DecodeError,
                >((nums_view(pair.0@), pair.1 as int))
                &&& pair.1 <= toks@.len()
                &&& pair.0@.len() % 12 == 0
                &&& (forall|q: int|
                    0 <= q < pair.0@.len() ==> is_float_token(nums_view(pair.0@)[q]))
            },
            Err(e) => spec_parse_ascii(bytes@) == Err::<Seq<Seq<u8>>, DecodeError>(e),
        }),
{
    let ghost tv = tok_views(bytes@, toks@);
    let kw = kwb_solid();
    if !(toks.len() > 0 && tok_matches(bytes, toks, 0, kw.as_slice())) {
        return Err(err_at(bytes, toks, 0, Expected::KeywordSolid));
    }
    let kwf = kwb_facet();
    let kwe = kwb_endsolid();
    let i0: usize = if toks.len() > 1 && !tok_matches(bytes, toks, 1, kwf.as_slice())
        && !tok_matches(bytes, toks, 1, kwe.as_slice()) {
        2
    } else {
        1
    };
    let mut numbers: Vec<Vec<u8>> = Vec::new();
    let mut i: usize = i0;
    while i < toks.len() && tok_matches(bytes, toks, i, kwf.as_slice())
        invariant
            i <= toks@.len(),
            numbers@.len() % 12 == 0,
            forall|q: int| 0 <= q < numbers@.len() ==> is_float_token(nums_view(numbers@)[q]),
            ({
                let sp0 = spec_facets_from(bytes@, tv, i0 as int);
                let spi = spec_facets_from(bytes@, tv, i as int);
                &&& (spi is Ok ==> sp0 == Ok::<(Seq<Seq<u8>>, int), DecodeError>(
                    ((nums_view(numbers@) + spi->Ok_0.0), spi->Ok_0.1),
                ))
                &&& (spi is Err ==> sp0 == spi)
            }),
        decreases toks@.len() - i,
    {
        let ghost numbers_before = nums_view(numbers@);
        let p = match parse_facet_at(bytes, toks, i, &mut numbers) {
            Ok(p) => p,
            Err(e) => return Err(e),
        };
        proof {
            let f = spec_facet_at(bytes@, tv, i as int)->Ok_0;
            lemma_facet_floats(bytes@, tv, i as int);
            lemma_facets_unfold(bytes@, tv, i as int, f, p as int);
            let spn = spec_facets_from(bytes@, tv, p as int);
            if spn is Ok {
                assert((numbers_before + f) + spn->Ok_0.0 =~= numbers_before + (f + spn->Ok_0.0));
            }
        }
        i = p;
    }
    proof {
        assert((nums_view(numbers@) + Seq::<Seq<u8>>::empty()) =~= nums_view(numbers@));
    }
    Ok((numbers, i))
}

} // verus!
