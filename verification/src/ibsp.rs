//! Map container decoding.
//!
//! A map file opens with a 4-byte magic and a version, followed by a table
//! of 39 `(length, offset)` lumps.  The decoder reads the material, triangle
//! soup, vertex, triangle and entity lumps (whose indices differ between the
//! two supported versions) and assembles per-soup surfaces with deduplicated
//! vertex buffers and reversed triangle winding.

use vstd::prelude::*;

use crate::binary::{chars_of_bytes, le_u16, le_u32, le_u64, Reader};
use crate::error::{Error, ErrorKind};
use crate::math::{ColorBytes, UvBits, Vec3Bits};
use crate::path::{base_name, stem};

verus! {

/// A decoded map: its name, version, and the lump contents the tool needs.
pub struct Ibsp {
    pub name: String,
    pub version: i32,
    pub materials: Vec<IbspMaterial>,
    pub entities: Vec<IbspEntity>,
    pub surfaces: Vec<IbspSurface>,
}

/// The magic and version a map file opens with.
pub struct IbspHeader {
    magic: [u8; 4],
    version: i32,
}

/// One lump-table entry: a byte length and an absolute offset.
#[derive(Clone, Copy, PartialEq, Eq, Structural)]
pub struct IbspLump {
    pub length: u32,
    pub offset: u32,
}

/// A material record: a 64-byte name region and a flag word.
#[derive(Clone)]
pub struct IbspMaterial {
    name: Vec<u8>,
    flag: u64,
}

/// One triangle soup: a draw batch sharing a material and a contiguous
/// vertex range.
#[derive(Clone, Copy, PartialEq, Eq, Structural)]
pub struct IbspTriangleSoup {
    pub material_idx: u16,
    pub draw_order: u16,
    pub vertices_offset: u32,
    pub vertices_length: u16,
    pub triangles_length: u16,
    pub triangles_offset: u32,
}

/// A map vertex.  Positions, normals and texture coordinates carry IEEE 754
/// bit patterns; the color keeps its four raw channel bytes.  Texture
/// coordinates are stored exactly as on disk: the older map version flips V
/// (`1 - v`), which the embedding application applies.
#[derive(Clone, Copy)]
pub struct IbspVertex {
    pub position: Vec3Bits,
    pub normal: Vec3Bits,
    pub color: ColorBytes,
    pub uv: UvBits,
}

/// The three per-axis number tokens of a transform field.
pub struct TransformTokens {
    pub x: String,
    pub y: String,
    pub z: String,
}

/// A placement entity: the model it places and its transform fields.  Each
/// transform field holds the three whitespace-separated tokens of the source
/// text (one token is broadcast to all axes); `None` means the field was
/// absent or malformed and takes its default (angles 0, origin 0, scale 1).
pub struct IbspEntity {
    pub name: String,
    pub angles: Option<TransformTokens>,
    pub origin: Option<TransformTokens>,
    pub scale: Option<TransformTokens>,
}

/// One assembled surface: a material name, a deduplicated vertex buffer and
/// triangles indexing that buffer.
pub struct IbspSurface {
    pub material: String,
    pub vertices: Vec<IbspVertex>,
    pub triangles: Vec<u32>,
}

/// The supported map versions.
#[derive(Clone, Copy, Debug, PartialEq, Eq, Structural)]
pub enum IbspVersion {
    V59,
    V4,
}

/// The version selected by a version word, if supported.
pub open spec fn ibsp_version_of(v: i32) -> Option<IbspVersion> {
    if v == 0x3B {
        Some(IbspVersion::V59)
    } else if v == 0x4 {
        Some(IbspVersion::V4)
    } else {
        None
    }
}

impl IbspVersion {
    /// Decides the version a version word selects.
    pub fn valid(v: i32) -> (r: Option<IbspVersion>)
        ensures
            r == ibsp_version_of(v),
    {
        if v == 0x3B {
            Some(IbspVersion::V59)
        } else if v == 0x4 {
            Some(IbspVersion::V4)
        } else {
            None
        }
    }
}

/// The lump-table slot holding each lump kind, per version.
pub open spec fn lump_index(version: i32, kind: int) -> int {
    // kind: 0 materials, 1 triangle soups, 2 vertices, 3 triangles, 4 entities
    if version == 0x4 {
        if kind == 0 {
            0
        } else if kind == 1 {
            7
        } else if kind == 2 {
            8
        } else if kind == 3 {
            9
        } else {
            37
        }
    } else {
        if kind == 0 {
            0
        } else if kind == 1 {
            6
        } else if kind == 2 {
            7
        } else if kind == 3 {
            8
        } else {
            29
        }
    }
}

/// The file opens with the bytes `I`, `B`, `S`, `P`.
pub open spec fn ibsp_magic_ok(s: Seq<u8>) -> bool {
    s.len() >= 4 && s[0] == 0x49 && s[1] == 0x42 && s[2] == 0x53 && s[3] == 0x50
}

/// The header accepts: magic and version word both valid.
pub open spec fn ibsp_header_ok(s: Seq<u8>) -> bool {
    s.len() >= 8 && ibsp_magic_ok(s) && ibsp_version_of(le_u32(s, 4) as i32) is Some
}

/// The first-failure kind of the header alone.
pub open spec fn ibsp_header_error(s: Seq<u8>) -> ErrorKind {
    if s.len() < 4 {
        ErrorKind::TruncatedInput
    } else if !ibsp_magic_ok(s) {
        ErrorKind::InvalidFormat
    } else if s.len() < 8 {
        ErrorKind::TruncatedInput
    } else {
        ErrorKind::InvalidFormat
    }
}

/// The lump-table entry `k` as stored on disk.
pub open spec fn lump_at(s: Seq<u8>, k: int) -> IbspLump {
    IbspLump { length: le_u32(s, 8 + 8 * k), offset: le_u32(s, 8 + 8 * k + 4) }
}

/// The material record starting at `base`.
pub open spec fn material_at(s: Seq<u8>, base: int) -> (Seq<u8>, u64) {
    (s.subrange(base, base + 64), le_u64(s, base + 64))
}

/// The triangle-soup record starting at `base`.
pub open spec fn soup_at(s: Seq<u8>, base: int) -> IbspTriangleSoup {
    IbspTriangleSoup {
        material_idx: le_u16(s, base),
        draw_order: le_u16(s, base + 2),
        vertices_offset: le_u32(s, base + 4),
        vertices_length: le_u16(s, base + 8),
        triangles_length: le_u16(s, base + 10),
        triangles_offset: le_u32(s, base + 12),
    }
}

/// The vertex record starting at `base`, in the older (44-byte) layout:
/// position, texture coordinates, an 8-byte gap, normal, color.
pub open spec fn vertex_v59_at(s: Seq<u8>, base: int) -> IbspVertex {
    IbspVertex {
        position: [le_u32(s, base), le_u32(s, base + 4), le_u32(s, base + 8)],
        normal: [le_u32(s, base + 28), le_u32(s, base + 32), le_u32(s, base + 36)],
        color: [s[base + 40], s[base + 41], s[base + 42], s[base + 43]],
        uv: [le_u32(s, base + 12), le_u32(s, base + 16)],
    }
}

/// The vertex record starting at `base`, in the newer (68-byte) layout:
/// position, normal, color, texture coordinates, a 32-byte gap.
pub open spec fn vertex_v4_at(s: Seq<u8>, base: int) -> IbspVertex {
    IbspVertex {
        position: [le_u32(s, base), le_u32(s, base + 4), le_u32(s, base + 8)],
        normal: [le_u32(s, base + 12), le_u32(s, base + 16), le_u32(s, base + 20)],
        color: [s[base + 24], s[base + 25], s[base + 26], s[base + 27]],
        uv: [le_u32(s, base + 28), le_u32(s, base + 32)],
    }
}

/// How many fixed-size records a lump of `length` bytes yields when walked
/// with a step of `size` bytes.
pub open spec fn record_count(length: u32, size: int) -> int {
    (length + size - 1) / size
}

/// The index of the first non-zero byte, or `len` when all are zero.
pub open spec fn first_nonzero(s: Seq<u8>, i: int) -> int
    decreases s.len() - i,
{
    if i < 0 || i >= s.len() {
        s.len() as int
    } else if s[i] != 0 {
        i
    } else {
        first_nonzero(s, i + 1)
    }
}

/// The index one past the last non-zero byte, or `0` when all are zero.
pub open spec fn last_nonzero_end(s: Seq<u8>, i: int) -> int
    decreases i,
{
    if i <= 0 {
        0
    } else if s[i - 1] != 0 {
        i
    } else {
        last_nonzero_end(s, i - 1)
    }
}

/// A byte region with its zero padding stripped from both ends.
pub open spec fn trim_zeros(s: Seq<u8>) -> Seq<u8> {
    let a = first_nonzero(s, 0);
    let b = last_nonzero_end(s, s.len() as int);
    if a < b {
        s.subrange(a, b)
    } else {
        Seq::empty()
    }
}

proof fn lemma_first_nonzero_bounds(s: Seq<u8>, i: int)
    requires
        0 <= i <= s.len(),
    ensures
        i <= first_nonzero(s, i) <= s.len(),
    decreases s.len() - i,
{
    if i < s.len() && s[i] == 0 {
        lemma_first_nonzero_bounds(s, i + 1);
    }
}

proof fn lemma_first_nonzero_zeros(s: Seq<u8>, i: int, j: int)
    requires
        0 <= i <= j,
        j < first_nonzero(s, i),
        j < s.len(),
    ensures
        s[j] == 0,
    decreases j - i,
{
    if i < j {
        lemma_first_nonzero_zeros(s, i + 1, j);
    }
}

proof fn lemma_lnz_zeros(s: Seq<u8>, a: int)
    requires
        0 <= a <= s.len(),
        forall|j: int| 0 <= j < a ==> s[j] == 0,
    ensures
        last_nonzero_end(s, a) == 0,
    decreases a,
{
    if a > 0 {
        lemma_lnz_zeros(s, a - 1);
    }
}

proof fn lemma_last_nonzero_bounds(s: Seq<u8>, i: int)
    requires
        0 <= i <= s.len(),
    ensures
        0 <= last_nonzero_end(s, i) <= i,
    decreases i,
{
    if i > 0 && s[i - 1] == 0 {
        lemma_last_nonzero_bounds(s, i - 1);
    }
}


/// Left-to-right, non-overlapping replacement of `pat` by `rep`.
pub open spec fn replace_bytes(s: Seq<u8>, pat: Seq<u8>, rep: Seq<u8>) -> Seq<u8>
    decreases s.len(),
    when pat.len() >= 1
{
    if s.len() < pat.len() {
        s
    } else if s.take(pat.len() as int) == pat {
        rep + replace_bytes(s.skip(pat.len() as int), pat, rep)
    } else {
        seq![s[0]] + replace_bytes(s.skip(1), pat, rep)
    }
}

/// The entity lump text after structured repair: trimmed of zero padding,
/// wrapped in brackets, record and line separators turned into commas, the
/// key/value space into a colon, and backslashes into forward slashes.
pub open spec fn repair_spec(raw: Seq<u8>) -> Seq<u8> {
    let w = seq![0x5Bu8] + trim_zeros(raw) + seq![0x5Du8];
    let a = replace_bytes(w, seq![0x7Du8, 0x0Au8, 0x7Bu8, 0x0Au8], seq![0x7Du8, 0x2Cu8, 0x0Au8, 0x7Bu8, 0x0Au8]);
    let b = replace_bytes(a, seq![0x22u8, 0x0Au8, 0x22u8], seq![0x22u8, 0x2Cu8, 0x0Au8, 0x22u8]);
    let c = replace_bytes(b, seq![0x22u8, 0x20u8, 0x22u8], seq![0x22u8, 0x3Au8, 0x22u8]);
    replace_bytes(c, seq![0x5Cu8], seq![0x2Fu8])
}

/// Whether `pat` occurs at offset `i` of `s`.
#[verifier::loop_isolation(false)]
fn match_at(s: &Vec<u8>, i: usize, pat: &Vec<u8>) -> (r: bool)
    requires
        i + pat@.len() <= s@.len(),
    ensures
        r == (s@.subrange(i as int, i + pat@.len()) == pat@),
{
    // Bind the length so its usize bound is in scope for index arithmetic.
    let _len = s.len();
    let mut k: usize = 0;
    while k < pat.len()
        invariant
            i + pat@.len() <= s@.len(),
            k <= pat@.len(),
            forall|j: int| 0 <= j < k ==> s@[i + j] == pat@[j],
        decreases pat@.len() - k,
    {
        if s[i + k] != pat[k] {
            proof {
                assert(s@.subrange(i as int, i + pat@.len())[k as int] != pat@[k as int]);
            }
            return false;
        }
        k = k + 1;
    }
    proof {
        assert(s@.subrange(i as int, i + pat@.len()) =~= pat@);
    }
    true
}

/// Replaces every (left-to-right, non-overlapping) occurrence of `pat`.
#[verifier::loop_isolation(false)]
#[verifier::rlimit(50)]
fn replace_all(s: &Vec<u8>, pat: &Vec<u8>, rep: &Vec<u8>) -> (r: Vec<u8>)
    requires
        pat@.len() >= 1,
    ensures
        r@ == replace_bytes(s@, pat@, rep@),
{
    // Bind the length so its usize bound is in scope for index arithmetic.
    let _len = s.len();
    let mut out: Vec<u8> = Vec::new();
    let mut i: usize = 0;
    proof {
        assert(s@.skip(0) =~= s@);
        assert(Seq::<u8>::empty() + replace_bytes(s@, pat@, rep@) =~= replace_bytes(
            s@,
            pat@,
            rep@,
        ));
    }
    while i < s.len()
        invariant
            pat@.len() >= 1,
            i <= s@.len(),
            replace_bytes(s@, pat@, rep@) == out@ + replace_bytes(s@.skip(i as int), pat@, rep@),
        decreases s@.len() - i,
    {
        let ghost pre = out@;
        let ghost tail = s@.skip(i as int);
        if pat.len() <= s.len() - i && match_at(s, i, pat) {
            let mut k: usize = 0;
            while k < rep.len()
                invariant
                    k <= rep@.len(),
                    out@ == pre + rep@.subrange(0, k as int),
                decreases rep@.len() - k,
            {
                out.push(rep[k]);
                k = k + 1;
                proof {
                    assert(pre + rep@.subrange(0, k as int) =~= (pre + rep@.subrange(0, k - 1)).push(
                        rep@[k - 1],
                    ));
                }
            }
            proof {
                assert(rep@.subrange(0, rep@.len() as int) =~= rep@);
                assert(tail.take(pat@.len() as int) =~= s@.subrange(i as int, i + pat@.len()));
                assert(tail.skip(pat@.len() as int) =~= s@.skip(i + pat@.len()));
                assert(replace_bytes(tail, pat@, rep@) == rep@ + replace_bytes(
                    s@.skip(i + pat@.len()),
                    pat@,
                    rep@,
                ));
                assert(pre + rep@ + replace_bytes(s@.skip(i + pat@.len()), pat@, rep@) =~= pre
                    + (rep@ + replace_bytes(s@.skip(i + pat@.len()), pat@, rep@)));
            }
            i = i + pat.len();
        } else {
            out.push(s[i]);
            proof {
                if tail.len() >= pat@.len() {
                    assert(tail.take(pat@.len() as int) =~= s@.subrange(i as int, i + pat@.len()));
                }
                assert(tail.skip(1) =~= s@.skip(i + 1));
                assert(replace_bytes(tail, pat@, rep@) == seq![s@[i as int]] + replace_bytes(
                    s@.skip(i + 1),
                    pat@,
                    rep@,
                ));
                assert(pre.push(s@[i as int]) + replace_bytes(s@.skip(i + 1), pat@, rep@) =~= pre
                    + (seq![s@[i as int]] + replace_bytes(s@.skip(i + 1), pat@, rep@)));
            }
            i = i + 1;
        }
    }
    proof {
        assert(s@.skip(s@.len() as int) =~= Seq::<u8>::empty());
        assert(replace_bytes(Seq::<u8>::empty(), pat@, rep@) == Seq::<u8>::empty());
        assert(out@ + Seq::<u8>::empty() =~= out@);
    }
    out
}

/// Strips zero padding from both ends of a byte region.
fn trim_zero_bytes(v: &Vec<u8>) -> (r: Vec<u8>)
    ensures
        r@ == trim_zeros(v@),
{
    let ghost s = v@;
    let n = v.len();
    let mut a: usize = 0;
    while a < n && v[a] == 0
        invariant
            n == s.len(),
            s == v@,
            0 <= a <= n,
            first_nonzero(s, 0) == first_nonzero(s, a as int),
        decreases n - a,
    {
        a = a + 1;
    }
    let mut b: usize = n;
    while b > a && v[b - 1] == 0
        invariant
            n == s.len(),
            s == v@,
            a <= b <= n,
            last_nonzero_end(s, n as int) == last_nonzero_end(s, b as int),
        decreases b,
    {
        b = b - 1;
    }
    proof {
        lemma_first_nonzero_bounds(s, 0);
        lemma_last_nonzero_bounds(s, n as int);
    }
    let mut out: Vec<u8> = Vec::new();
    let mut i: usize = a;
    while i < b
        invariant
            n == s.len(),
            s == v@,
            a <= i <= b <= n,
            out@ == s.subrange(a as int, i as int),
        decreases b - i,
    {
        out.push(v[i]);
        i = i + 1;
        proof {
            assert(s.subrange(a as int, i as int) =~= s.subrange(a as int, i - 1).push(s[i - 1]));
        }
    }
    proof {
        if a < b {
            assert(out@ =~= trim_zeros(s));
        } else {
            assert(a == first_nonzero(s, 0));
            assert forall|j: int| 0 <= j < a implies s[j] == 0 by {
                lemma_first_nonzero_zeros(s, 0, j);
            }
            lemma_lnz_zeros(s, a as int);
            assert(out@ =~= trim_zeros(s));
        }
    }
    out
}


/// Whether a byte is insignificant whitespace in the repaired document.
pub open spec fn is_ws(b: u8) -> bool {
    b == 0x20 || b == 0x09 || b == 0x0A || b == 0x0D
}

/// Whether a byte may appear inside a quoted string: printable and neither
/// a quote nor a backslash (the repair removed every backslash).
pub open spec fn is_str_byte(b: u8) -> bool {
    b >= 0x20 && b != 0x22 && b != 0x5C
}

/// The index of the closing quote of a string opened just before `i`, if
/// every byte up to it is a valid string byte.
pub open spec fn str_scan(s: Seq<u8>, i: int) -> Option<int>
    decreases s.len() - i,
{
    if i < 0 || i >= s.len() {
        None
    } else if s[i] == 0x22 {
        Some(i)
    } else if is_str_byte(s[i]) {
        str_scan(s, i + 1)
    } else {
        None
    }
}

proof fn lemma_str_scan_range(s: Seq<u8>, i: int)
    requires
        str_scan(s, i) is Some,
    ensures
        i <= str_scan(s, i)->0 < s.len(),
    decreases s.len() - i,
{
    if 0 <= i < s.len() && s[i] != 0x22 && is_str_byte(s[i]) {
        lemma_str_scan_range(s, i + 1);
    }
}

/// One token of the repaired document.  `kind` is 0 `[`, 1 `]`, 2 `{`,
/// 3 `}`, 4 `,`, 5 `:`, 6 a quoted string whose body is `text`.
pub struct STok {
    pub kind: int,
    pub text: Seq<u8>,
}

/// The token list of the document from position `i` on, or `None` when an
/// unexpected byte appears.
pub open spec fn tokens_spec(s: Seq<u8>, i: int) -> Option<Seq<STok>>
    decreases s.len() - i,
    when 0 <= i
    via tokens_spec_dec
{
    if i >= s.len() {
        Some(Seq::empty())
    } else if is_ws(s[i]) {
        tokens_spec(s, i + 1)
    } else if s[i] == 0x5B {
        cons_tok(STok { kind: 0, text: Seq::empty() }, tokens_spec(s, i + 1))
    } else if s[i] == 0x5D {
        cons_tok(STok { kind: 1, text: Seq::empty() }, tokens_spec(s, i + 1))
    } else if s[i] == 0x7B {
        cons_tok(STok { kind: 2, text: Seq::empty() }, tokens_spec(s, i + 1))
    } else if s[i] == 0x7D {
        cons_tok(STok { kind: 3, text: Seq::empty() }, tokens_spec(s, i + 1))
    } else if s[i] == 0x2C {
        cons_tok(STok { kind: 4, text: Seq::empty() }, tokens_spec(s, i + 1))
    } else if s[i] == 0x3A {
        cons_tok(STok { kind: 5, text: Seq::empty() }, tokens_spec(s, i + 1))
    } else if s[i] == 0x22 {
        match str_scan(s, i + 1) {
            Some(j) => cons_tok(
                STok { kind: 6, text: s.subrange(i + 1, j) },
                tokens_spec(s, j + 1),
            ),
            None => None,
        }
    } else {
        None
    }
}

#[via_fn]
proof fn tokens_spec_dec(s: Seq<u8>, i: int) {
    if 0 <= i < s.len() && !is_ws(s[i]) && s[i] == 0x22 {
        if str_scan(s, i + 1) is Some {
            lemma_str_scan_range(s, i + 1);
        }
    }
}

/// Prepends a token to a token list that may have failed.
pub open spec fn cons_tok(t: STok, rest: Option<Seq<STok>>) -> Option<Seq<STok>> {
    match rest {
        Some(r) => Some(seq![t] + r),
        None => None,
    }
}

/// Appends an already-produced token prefix to a pending suffix.
pub open spec fn cat_toks(a: Seq<STok>, rest: Option<Seq<STok>>) -> Option<Seq<STok>> {
    match rest {
        Some(r) => Some(a + r),
        None => None,
    }
}

/// An executable token.
pub enum Tok {
    LBracket,
    RBracket,
    LBrace,
    RBrace,
    Comma,
    Colon,
    Text(Vec<u8>),
}

/// The spec token an executable token stands for.
pub open spec fn tok_view(t: Tok) -> STok {
    match t {
        Tok::LBracket => STok { kind: 0, text: Seq::empty() },
        Tok::RBracket => STok { kind: 1, text: Seq::empty() },
        Tok::LBrace => STok { kind: 2, text: Seq::empty() },
        Tok::RBrace => STok { kind: 3, text: Seq::empty() },
        Tok::Comma => STok { kind: 4, text: Seq::empty() },
        Tok::Colon => STok { kind: 5, text: Seq::empty() },
        Tok::Text(v) => STok { kind: 6, text: v@ },
    }
}

/// The spec tokens of an executable token list.
pub open spec fn toks_view(ts: Seq<Tok>) -> Seq<STok> {
    Seq::new(ts.len(), |k: int| tok_view(ts[k]))
}

/// Copies the byte range `[a, b)` of a vector.
fn vec_slice(v: &Vec<u8>, a: usize, b: usize) -> (r: Vec<u8>)
    requires
        a <= b <= v@.len(),
    ensures
        r@ == v@.subrange(a as int, b as int),
{
    let mut out: Vec<u8> = Vec::new();
    let mut i: usize = a;
    while i < b
        invariant
            a <= i <= b <= v@.len(),
            out@ == v@.subrange(a as int, i as int),
        decreases b - i,
    {
        out.push(v[i]);
        i = i + 1;
        proof {
            assert(v@.subrange(a as int, i as int) =~= v@.subrange(a as int, i - 1).push(
                v@[i - 1],
            ));
        }
    }
    out
}

/// Copies a whole byte vector.
fn vec_copy(v: &Vec<u8>) -> (r: Vec<u8>)
    ensures
        r@ == v@,
{
    let r = vec_slice(v, 0, v.len());
    proof {
        assert(v@.subrange(0, v@.len() as int) =~= v@);
    }
    r
}

/// Scans for the closing quote of a string opened just before `i`.
#[verifier::loop_isolation(false)]
fn scan_string(v: &Vec<u8>, i: usize) -> (r: Option<usize>)
    ensures
        r matches Some(j) ==> Some(j as int) == str_scan(v@, i as int),
        r is None ==> str_scan(v@, i as int) is None,
{
    let mut j: usize = i;
    loop
        invariant
            i <= j,
            str_scan(v@, i as int) == str_scan(v@, j as int),
        decreases v@.len() - j,
    {
        if j >= v.len() {
            return None;
        }
        let b = v[j];
        if b == 0x22 {
            return Some(j);
        }
        if !(b >= 0x20 && b != 0x5C) {
            return None;
        }
        j = j + 1;
    }
}

/// Splits the repaired document into tokens; fails on any byte that fits no
/// token.
#[verifier::loop_isolation(false)]
fn tokenize(v: &Vec<u8>) -> (r: Option<Vec<Tok>>)
    ensures
        r matches Some(ts) ==> Some(toks_view(ts@)) == tokens_spec(v@, 0),
        r is None ==> tokens_spec(v@, 0) is None,
{
    let mut out: Vec<Tok> = Vec::new();
    let mut i: usize = 0;
    proof {
        assert(cat_toks(toks_view(out@), tokens_spec(v@, 0)) == tokens_spec(v@, 0));
    }
    while i < v.len()
        invariant
            i <= v@.len(),
            tokens_spec(v@, 0) == cat_toks(toks_view(out@), tokens_spec(v@, i as int)),
        decreases v@.len() - i,
    {
        let ghost pre = out@;
        let b = v[i];
        if b == 0x20 || b == 0x09 || b == 0x0A || b == 0x0D {
            i = i + 1;
        } else if b == 0x5B || b == 0x5D || b == 0x7B || b == 0x7D || b == 0x2C || b == 0x3A {
            let t = if b == 0x5B {
                Tok::LBracket
            } else if b == 0x5D {
                Tok::RBracket
            } else if b == 0x7B {
                Tok::LBrace
            } else if b == 0x7D {
                Tok::RBrace
            } else if b == 0x2C {
                Tok::Comma
            } else {
                Tok::Colon
            };
            let ghost st = tok_view(t);
            out.push(t);
            proof {
                assert(toks_view(out@) =~= toks_view(pre).push(st));
                assert forall|rest: Seq<STok>| true implies toks_view(pre).push(st) + rest =~=
                    toks_view(pre) + (seq![st] + rest) by {}
                assert(tokens_spec(v@, i as int) == cons_tok(st, tokens_spec(v@, i + 1)));
            }
            i = i + 1;
        } else if b == 0x22 {
            match scan_string(v, i + 1) {
                Some(j) => {
                    proof {
                        lemma_str_scan_range(v@, i + 1);
                    }
                    let text = vec_slice(v, i + 1, j);
                    let ghost st = STok { kind: 6, text: text@ };
                    out.push(Tok::Text(text));
                    proof {
                        assert(toks_view(out@) =~= toks_view(pre).push(st));
                        assert forall|rest: Seq<STok>| true implies toks_view(pre).push(st) + rest
                            =~= toks_view(pre) + (seq![st] + rest) by {}
                        assert(tokens_spec(v@, i as int) == cons_tok(
                            st,
                            tokens_spec(v@, j + 1),
                        ));
                    }
                    i = j + 1;
                },
                None => {
                    return None;
                },
            }
        } else {
            return None;
        }
    }
    proof {
        assert(tokens_spec(v@, v@.len() as int) == Some(Seq::<STok>::empty()));
        assert(toks_view(out@) + Seq::<STok>::empty() =~= toks_view(out@));
    }
    Some(out)
}

/// One key/value pair of an entity record.
pub type SPair = (Seq<u8>, Seq<u8>);

/// The parser state: a mode, the finished records, the open record and the
/// pending key.  Modes: 0 expect `[`; 1 expect a record or `]`; 2 expect a
/// key or `}`; 3 expect `:`; 4 expect a value; 5 expect `,` or `}`; 9
/// expect a key; 6 expect `,` or `]`; 10 expect a record; 7 done; 8 failed.
pub struct PState {
    pub mode: int,
    pub records: Seq<Seq<SPair>>,
    pub cur: Seq<SPair>,
    pub curkey: Seq<u8>,
}

/// The initial parser state.
pub open spec fn p_init() -> PState {
    PState { mode: 0, records: Seq::empty(), cur: Seq::empty(), curkey: Seq::empty() }
}

/// One parser transition.
pub open spec fn pstep(st: PState, t: STok) -> PState {
    if st.mode == 0 {
        if t.kind == 0 {
            PState { mode: 1, ..st }
        } else {
            PState { mode: 8, ..st }
        }
    } else if st.mode == 1 {
        if t.kind == 2 {
            PState { mode: 2, cur: Seq::empty(), ..st }
        } else if t.kind == 1 {
            PState { mode: 7, ..st }
        } else if t.kind == 6 {
            PState { mode: 6, records: st.records.push(Seq::empty()), ..st }
        } else {
            PState { mode: 8, ..st }
        }
    } else if st.mode == 2 {
        if t.kind == 6 {
            PState { mode: 3, curkey: t.text, ..st }
        } else if t.kind == 3 {
            PState { mode: 6, records: st.records.push(st.cur), cur: Seq::empty(), ..st }
        } else {
            PState { mode: 8, ..st }
        }
    } else if st.mode == 3 {
        if t.kind == 5 {
            PState { mode: 4, ..st }
        } else {
            PState { mode: 8, ..st }
        }
    } else if st.mode == 4 {
        if t.kind == 6 {
            PState { mode: 5, cur: st.cur.push((st.curkey, t.text)), ..st }
        } else {
            PState { mode: 8, ..st }
        }
    } else if st.mode == 5 {
        if t.kind == 4 {
            PState { mode: 9, ..st }
        } else if t.kind == 3 {
            PState { mode: 6, records: st.records.push(st.cur), cur: Seq::empty(), ..st }
        } else {
            PState { mode: 8, ..st }
        }
    } else if st.mode == 9 {
        if t.kind == 6 {
            PState { mode: 3, curkey: t.text, ..st }
        } else {
            PState { mode: 8, ..st }
        }
    } else if st.mode == 6 {
        if t.kind == 4 {
            PState { mode: 10, ..st }
        } else if t.kind == 1 {
            PState { mode: 7, ..st }
        } else {
            PState { mode: 8, ..st }
        }
    } else if st.mode == 10 {
        if t.kind == 2 {
            PState { mode: 2, cur: Seq::empty(), ..st }
        } else if t.kind == 6 {
            PState { mode: 6, records: st.records.push(Seq::empty()), ..st }
        } else {
            PState { mode: 8, ..st }
        }
    } else {
        PState { mode: 8, ..st }
    }
}

/// The parser state after the first `k` tokens.
pub open spec fn run_upto(toks: Seq<STok>, k: int) -> PState
    decreases k,
{
    if k <= 0 {
        p_init()
    } else {
        pstep(run_upto(toks, k - 1), toks[k - 1])
    }
}

/// The parser state after the whole token list.
pub open spec fn run_toks(toks: Seq<STok>) -> PState {
    run_upto(toks, toks.len() as int)
}


/// The spec pairs an executable pair list stands for.
pub open spec fn pairs_view(ps: Seq<(Vec<u8>, Vec<u8>)>) -> Seq<SPair> {
    Seq::new(ps.len(), |k: int| (ps[k].0@, ps[k].1@))
}

/// The spec records an executable record list stands for.
pub open spec fn recs_view(rs: Seq<Vec<(Vec<u8>, Vec<u8>)>>) -> Seq<Seq<SPair>> {
    Seq::new(rs.len(), |k: int| pairs_view(rs[k]@))
}

/// Runs the parser over a token list, returning the final mode and the
/// finished records.
#[verifier::loop_isolation(false)]
fn parse_tokens(toks: &Vec<Tok>) -> (r: (u8, Vec<Vec<(Vec<u8>, Vec<u8>)>>))
    ensures
        ({
            let fin = run_toks(toks_view(toks@));
            &&& r.0 as int == fin.mode
            &&& recs_view(r.1@) == fin.records
        }),
{
    let ghost tv = toks_view(toks@);
    let mut mode: u8 = 0;
    let mut records: Vec<Vec<(Vec<u8>, Vec<u8>)>> = Vec::new();
    let mut cur: Vec<(Vec<u8>, Vec<u8>)> = Vec::new();
    let mut curkey: Vec<u8> = Vec::new();
    let mut k: usize = 0;
    proof {
        assert(recs_view(records@) =~= p_init().records);
        assert(pairs_view(cur@) =~= p_init().cur);
        assert(curkey@ =~= p_init().curkey);
    }
    while k < toks.len()
        invariant
            k <= toks@.len(),
            tv == toks_view(toks@),
            mode as int == run_upto(tv, k as int).mode,
            recs_view(records@) == run_upto(tv, k as int).records,
            pairs_view(cur@) == run_upto(tv, k as int).cur,
            curkey@ == run_upto(tv, k as int).curkey,
        decreases toks@.len() - k,
    {
        let ghost st = run_upto(tv, k as int);
        let ghost pre_records = records@;
        let ghost pre_cur = cur@;
        let t = &toks[k];
        proof {
            assert(tv[k as int] == tok_view(toks@[k as int]));
        }
        if mode == 0 {
            match t {
                Tok::LBracket => {
                    mode = 1;
                },
                _ => {
                    mode = 8;
                },
            }
        } else if mode == 1 {
            match t {
                Tok::LBrace => {
                    mode = 2;
                    cur = Vec::new();
                },
                Tok::RBracket => {
                    mode = 7;
                },
                Tok::Text(_) => {
                    mode = 6;
                    records.push(Vec::new());
                },
                _ => {
                    mode = 8;
                },
            }
        } else if mode == 2 {
            match t {
                Tok::Text(text) => {
                    mode = 3;
                    curkey = vec_copy(text);
                },
                Tok::RBrace => {
                    mode = 6;
                    records.push(cur);
                    cur = Vec::new();
                },
                _ => {
                    mode = 8;
                },
            }
        } else if mode == 3 {
            match t {
                Tok::Colon => {
                    mode = 4;
                },
                _ => {
                    mode = 8;
                },
            }
        } else if mode == 4 {
            match t {
                Tok::Text(text) => {
                    mode = 5;
                    let kcopy = vec_copy(&curkey);
                    let vcopy = vec_copy(text);
                    cur.push((kcopy, vcopy));
                },
                _ => {
                    mode = 8;
                },
            }
        } else if mode == 5 {
            match t {
                Tok::Comma => {
                    mode = 9;
                },
                Tok::RBrace => {
                    mode = 6;
                    records.push(cur);
                    cur = Vec::new();
                },
                _ => {
                    mode = 8;
                },
            }
        } else if mode == 9 {
            match t {
                Tok::Text(text) => {
                    mode = 3;
                    curkey = vec_copy(text);
                },
                _ => {
                    mode = 8;
                },
            }
        } else if mode == 6 {
            match t {
                Tok::Comma => {
                    mode = 10;
                },
                Tok::RBracket => {
                    mode = 7;
                },
                _ => {
                    mode = 8;
                },
            }
        } else if mode == 10 {
            match t {
                Tok::LBrace => {
                    mode = 2;
                    cur = Vec::new();
                },
                Tok::Text(_) => {
                    mode = 6;
                    records.push(Vec::new());
                },
                _ => {
                    mode = 8;
                },
            }
        } else {
            mode = 8;
        }
        k = k + 1;
        proof {
            assert(run_upto(tv, k as int) == pstep(st, tv[k - 1]));
            assert(recs_view(records@) =~= run_upto(tv, k as int).records);
            assert(pairs_view(cur@) =~= run_upto(tv, k as int).cur);
        }
    }
    (mode, records)
}

/// The value of the last pair with the given key, if any (later duplicate
/// keys shadow earlier ones, as the structured-document parse does).
pub open spec fn get_last(rec: Seq<SPair>, key: Seq<u8>) -> Option<Seq<u8>>
    decreases rec.len(),
{
    if rec.len() == 0 {
        None
    } else if rec.last().0 == key {
        Some(rec.last().1)
    } else {
        get_last(rec.drop_last(), key)
    }
}

/// Whether `p` is a prefix of `s`.
pub open spec fn starts_with(s: Seq<u8>, p: Seq<u8>) -> bool {
    s.len() >= p.len() && s.take(p.len() as int) == p
}

/// Whether `n` occurs anywhere inside `h`.
pub open spec fn contains_sub(h: Seq<u8>, n: Seq<u8>) -> bool {
    exists|i: int| 0 <= i && i + n.len() <= h.len() && #[trigger] h.subrange(i, i + n.len()) == n
}

/// The bytes of `xmodel/`.
pub open spec fn xmodel_prefix() -> Seq<u8> {
    seq![0x78u8, 0x6Du8, 0x6Fu8, 0x64u8, 0x65u8, 0x6Cu8, 0x2Fu8]
}

/// The bytes of `model`.
pub open spec fn key_model() -> Seq<u8> {
    seq![0x6Du8, 0x6Fu8, 0x64u8, 0x65u8, 0x6Cu8]
}

/// The bytes of `classname`.
pub open spec fn key_classname() -> Seq<u8> {
    seq![0x63u8, 0x6Cu8, 0x61u8, 0x73u8, 0x73u8, 0x6Eu8, 0x61u8, 0x6Du8, 0x65u8]
}

/// The model name a record places: what follows the `xmodel/` prefix of its
/// `model` field.
pub open spec fn model_name_of(rec: Seq<SPair>) -> Option<Seq<u8>> {
    match get_last(rec, key_model()) {
        Some(m) => if starts_with(m, xmodel_prefix()) {
            Some(m.skip(7))
        } else {
            None
        },
        None => None,
    }
}

/// The record's classname, when present, contains neither `spawn` nor
/// `actor`.
pub open spec fn classname_ok(rec: Seq<SPair>) -> bool {
    match get_last(rec, key_classname()) {
        Some(c) => !contains_sub(c, seq![0x73u8, 0x70u8, 0x61u8, 0x77u8, 0x6Eu8]) && !contains_sub(
            c,
            seq![0x61u8, 0x63u8, 0x74u8, 0x6Fu8, 0x72u8],
        ),
        None => true,
    }
}

/// Whether a record survives the placement filter: it names an `xmodel/`
/// model outside the fixed exclusion set, with an acceptable classname.
pub open spec fn entity_kept(rec: Seq<SPair>) -> bool {
    &&& model_name_of(rec) is Some
    &&& model_name_of(rec)->0 != seq![0x66u8, 0x78u8]
    &&& classname_ok(rec)
}

/// The index of the first space at or after `i`, or `len` when none.
pub open spec fn first_space(s: Seq<u8>, i: int) -> int
    decreases s.len() - i,
{
    if i < 0 || i >= s.len() {
        s.len() as int
    } else if s[i] == 0x20 {
        i
    } else {
        first_space(s, i + 1)
    }
}

proof fn lemma_first_space_bounds(s: Seq<u8>, i: int)
    requires
        0 <= i <= s.len(),
    ensures
        i <= first_space(s, i) <= s.len(),
    decreases s.len() - i,
{
    if i < s.len() && s[i] != 0x20 {
        lemma_first_space_bounds(s, i + 1);
    }
}

/// The space-separated tokens of a field value; consecutive spaces produce
/// empty tokens, exactly as splitting the source text on single spaces does.
pub open spec fn split_sp(s: Seq<u8>) -> Seq<Seq<u8>>
    decreases s.len(),
    via split_sp_dec
{
    if first_space(s, 0) >= s.len() {
        seq![s]
    } else {
        seq![s.take(first_space(s, 0))] + split_sp(s.skip(first_space(s, 0) + 1))
    }
}

#[via_fn]
proof fn split_sp_dec(s: Seq<u8>) {
    lemma_first_space_bounds(s, 0);
}

/// The per-axis tokens of a transform field: three tokens stay, one token
/// is broadcast, anything else (or an absent or empty field) is `None`.
pub open spec fn transform_of(field: Option<Seq<u8>>) -> Option<(Seq<u8>, Seq<u8>, Seq<u8>)> {
    match field {
        None => None,
        Some(v) => if v.len() == 0 {
            None
        } else {
            let t = split_sp(v);
            if t.len() == 3 {
                Some((t[0], t[1], t[2]))
            } else if t.len() == 1 {
                Some((t[0], t[0], t[0]))
            } else {
                None
            }
        },
    }
}

/// A retained placement entity, at the byte level.
pub struct EntSpec {
    pub name: Seq<u8>,
    pub angles: Option<(Seq<u8>, Seq<u8>, Seq<u8>)>,
    pub origin: Option<(Seq<u8>, Seq<u8>, Seq<u8>)>,
    pub scale: Option<(Seq<u8>, Seq<u8>, Seq<u8>)>,
}

/// The bytes of `angles`.
pub open spec fn key_angles() -> Seq<u8> {
    seq![0x61u8, 0x6Eu8, 0x67u8, 0x6Cu8, 0x65u8, 0x73u8]
}

/// The bytes of `origin`.
pub open spec fn key_origin() -> Seq<u8> {
    seq![0x6Fu8, 0x72u8, 0x69u8, 0x67u8, 0x69u8, 0x6Eu8]
}

/// The bytes of `modelscale`.
pub open spec fn key_modelscale() -> Seq<u8> {
    seq![0x6Du8, 0x6Fu8, 0x64u8, 0x65u8, 0x6Cu8, 0x73u8, 0x63u8, 0x61u8, 0x6Cu8, 0x65u8]
}

/// The entity a kept record decodes to.
pub open spec fn ent_of(rec: Seq<SPair>) -> EntSpec {
    EntSpec {
        name: model_name_of(rec)->0,
        angles: transform_of(get_last(rec, key_angles())),
        origin: transform_of(get_last(rec, key_origin())),
        scale: transform_of(get_last(rec, key_modelscale())),
    }
}

/// The retained entities of a record list, in order.
pub open spec fn ents_of(records: Seq<Seq<SPair>>) -> Seq<EntSpec>
    decreases records.len(),
{
    if records.len() == 0 {
        Seq::empty()
    } else if entity_kept(records.last()) {
        ents_of(records.drop_last()).push(ent_of(records.last()))
    } else {
        ents_of(records.drop_last())
    }
}

/// Whether an executable transform field stands for a spec one.
pub open spec fn tt_matches(
    o: Option<TransformTokens>,
    g: Option<(Seq<u8>, Seq<u8>, Seq<u8>)>,
) -> bool {
    match o {
        None => g is None,
        Some(t) => match g {
            Some(gt) => t.x@ == chars_of_bytes(gt.0) && t.y@ == chars_of_bytes(gt.1) && t.z@
                == chars_of_bytes(gt.2),
            None => false,
        },
    }
}

/// Whether an executable entity stands for a spec one.
pub open spec fn ent_matches(e: &IbspEntity, g: EntSpec) -> bool {
    &&& e.name@ == chars_of_bytes(g.name)
    &&& tt_matches(e.angles, g.angles)
    &&& tt_matches(e.origin, g.origin)
    &&& tt_matches(e.scale, g.scale)
}

/// Whether two byte vectors hold the same bytes.
fn bytes_eq(a: &Vec<u8>, b: &Vec<u8>) -> (r: bool)
    ensures
        r == (a@ == b@),
{
    if a.len() != b.len() {
        proof {
            assert(a@ != b@);
        }
        return false;
    }
    let mut i: usize = 0;
    while i < a.len()
        invariant
            a@.len() == b@.len(),
            i <= a@.len(),
            forall|j: int| 0 <= j < i ==> a@[j] == b@[j],
        decreases a@.len() - i,
    {
        if a[i] != b[i] {
            return false;
        }
        i = i + 1;
    }
    proof {
        assert(a@ =~= b@);
    }
    true
}

/// The value of the last pair with the given key, copied out.
#[verifier::loop_isolation(false)]
fn get_last_exec(rec: &Vec<(Vec<u8>, Vec<u8>)>, key: &Vec<u8>) -> (r: Option<Vec<u8>>)
    ensures
        r matches Some(v) ==> get_last(pairs_view(rec@), key@) == Some(v@),
        r is None ==> get_last(pairs_view(rec@), key@) is None,
{
    let ghost pv = pairs_view(rec@);
    let mut i: usize = rec.len();
    proof {
        assert(pv.take(i as int) =~= pv);
    }
    while i > 0
        invariant
            i <= rec@.len(),
            get_last(pv, key@) == get_last(pv.take(i as int), key@),
        decreases i,
    {
        i = i - 1;
        if bytes_eq(&rec[i].0, key) {
            proof {
                assert(pv.take(i + 1).last() == pv[i as int]);
                assert(get_last(pv.take(i + 1), key@) == Some(pv[i as int].1));
            }
            return Some(vec_copy(&rec[i].1));
        }
        proof {
            assert(pv.take(i + 1).last() == pv[i as int]);
            assert(pv.take(i + 1).drop_last() =~= pv.take(i as int));
        }
    }
    proof {
        assert(pv.take(0) =~= Seq::<SPair>::empty());
    }
    None
}

/// Whether `n` occurs anywhere inside `h`.
#[verifier::loop_isolation(false)]
fn contains_exec(h: &Vec<u8>, n: &Vec<u8>) -> (r: bool)
    ensures
        r == contains_sub(h@, n@),
{
    let hl = h.len();
    let nl = n.len();
    if nl > hl {
        proof {
            assert(!contains_sub(h@, n@));
        }
        return false;
    }
    if nl == 0 {
        proof {
            assert(h@.subrange(0, 0 + n@.len() as int) =~= n@);
        }
        return true;
    }
    let mut i: usize = 0;
    while i <= hl - nl
        invariant
            1 <= n@.len() <= h@.len(),
            i <= h@.len() - n@.len() + 1,
            forall|j: int| 0 <= j < i ==> #[trigger] h@.subrange(j, j + n@.len()) != n@,
        decreases h@.len() - n@.len() + 1 - i,
    {
        if match_at(h, i, n) {
            proof {
                assert(h@.subrange(i as int, i + n@.len()) == n@);
            }
            return true;
        }
        i = i + 1;
    }
    proof {
        assert(!contains_sub(h@, n@));
    }
    false
}

/// Splits a field value on spaces, keeping empty tokens.
#[verifier::loop_isolation(false)]
fn split_spaces(v: &Vec<u8>) -> (r: Vec<Vec<u8>>)
    ensures
        r@.len() == split_sp(v@).len(),
        forall|k: int| 0 <= k < r@.len() ==> (#[trigger] r@[k])@ == split_sp(v@)[k],
{
    let vl = v.len();
    let mut out: Vec<Vec<u8>> = Vec::new();
    let mut start: usize = 0;
    let mut i: usize = 0;
    proof {
        assert(v@.skip(0) =~= v@);
    }
    loop
        invariant
            start <= i <= v@.len(),
            vl == v@.len(),
            forall|j: int| start <= j < i ==> v@[j] != 0x20,
            out@.len() + split_sp(v@.skip(start as int)).len() == split_sp(v@).len(),
            forall|k: int| 0 <= k < out@.len() ==> (#[trigger] out@[k])@ == split_sp(v@)[k],
            forall|k: int|
                0 <= k < split_sp(v@.skip(start as int)).len() ==> #[trigger] split_sp(
                    v@.skip(start as int),
                )[k] == split_sp(v@)[out@.len() + k],
        decreases v@.len() - i,
    {
        let ghost tail = v@.skip(start as int);
        let ghost outlen = out@.len() as int;
        if i >= vl {
            proof {
                lemma_first_space_scan(v@, start as int, i as int);
                lemma_fs_index_shift(v@, start as int, 0);
                assert(first_space(tail, 0) == v@.len() - start);
                assert(split_sp(tail) =~= seq![tail]);
            }
            let tok = vec_slice(v, start, i);
            proof {
                assert(tok@ =~= tail);
            }
            out.push(tok);
            proof {
                assert(split_sp(tail)[0] == split_sp(v@)[outlen]);
                assert(out@[outlen]@ == split_sp(v@)[outlen]);
            }
            return out;
        }
        let b = v[i];
        if b == 0x20 {
            proof {
                lemma_first_space_scan(v@, start as int, i as int);
                lemma_fs_index_shift(v@, start as int, 0);
                assert(first_space(tail, 0) == i - start);
                assert(split_sp(tail) == seq![tail.take(i - start)] + split_sp(
                    tail.skip(i - start + 1),
                ));
            }
            let tok = vec_slice(v, start, i);
            proof {
                assert(tok@ =~= tail.take(i - start));
                assert(tail.skip(i - start + 1) =~= v@.skip(i + 1));
                assert(split_sp(tail)[0] == tail.take(i - start));
            }
            out.push(tok);
            start = i + 1;
            i = i + 1;
            proof {
                assert forall|k: int|
                    0 <= k < split_sp(v@.skip(start as int)).len() implies #[trigger] split_sp(
                        v@.skip(start as int),
                    )[k] == split_sp(v@)[out@.len() + k] by {
                    assert(split_sp(tail)[k + 1] == split_sp(v@)[outlen + k + 1]);
                }
            }
        } else {
            i = i + 1;
        }
    }
}

/// A scan that saw no space up to a space (or the end) pins `first_space`.
proof fn lemma_first_space_scan(s: Seq<u8>, a: int, i: int)
    requires
        0 <= a <= i <= s.len(),
        forall|j: int| a <= j < i ==> s[j] != 0x20,
        i == s.len() || s[i] == 0x20,
    ensures
        first_space(s, a) == if i == s.len() {
            s.len() as int
        } else {
            i
        },
    decreases i - a,
{
    if a < i {
        lemma_first_space_scan(s, a + 1, i);
    }
}

/// Dropping a prefix shifts `first_space` by the prefix length.
proof fn lemma_fs_index_shift(s: Seq<u8>, a: int, i: int)
    requires
        0 <= a,
        0 <= i,
        a + i <= s.len(),
    ensures
        first_space(s.skip(a), i) == first_space(s, a + i) - a,
    decreases s.len() - a - i,
{
    if i < s.skip(a).len() && s.skip(a)[i] != 0x20 {
        lemma_fs_index_shift(s, a, i + 1);
    }
}

/// The bytes the entity lump read yields: empty for an empty lump.
pub open spec fn ent_lump_bytes(s: Seq<u8>, lump: IbspLump) -> Seq<u8> {
    if lump.length == 0 {
        Seq::empty()
    } else {
        s.subrange(lump.offset as int, lump.offset + lump.length)
    }
}

/// The per-axis tokens of an executable transform field.
fn transform_exec(field: Option<Vec<u8>>) -> (r: Option<TransformTokens>)
    ensures
        tt_matches(
            r,
            transform_of(
                match field {
                    Some(v) => Some(v@),
                    None => None,
                },
            ),
        ),
{
    match field {
        None => None,
        Some(v) => {
            if v.len() == 0 {
                return None;
            }
            let toks = split_spaces(&v);
            if toks.len() == 3 {
                Some(
                    TransformTokens {
                        x: crate::binary::string_of_bytes(&toks[0]),
                        y: crate::binary::string_of_bytes(&toks[1]),
                        z: crate::binary::string_of_bytes(&toks[2]),
                    },
                )
            } else if toks.len() == 1 {
                Some(
                    TransformTokens {
                        x: crate::binary::string_of_bytes(&toks[0]),
                        y: crate::binary::string_of_bytes(&toks[0]),
                        z: crate::binary::string_of_bytes(&toks[0]),
                    },
                )
            } else {
                None
            }
        },
    }
}

fn k_model() -> (r: Vec<u8>)
    ensures
        r@ == key_model(),
{
    let mut v: Vec<u8> = Vec::new();
    v.push(0x6D);
    v.push(0x6F);
    v.push(0x64);
    v.push(0x65);
    v.push(0x6C);
    proof {
        assert(v@ =~= key_model());
    }
    v
}

fn k_classname() -> (r: Vec<u8>)
    ensures
        r@ == key_classname(),
{
    let mut v: Vec<u8> = Vec::new();
    v.push(0x63);
    v.push(0x6C);
    v.push(0x61);
    v.push(0x73);
    v.push(0x73);
    v.push(0x6E);
    v.push(0x61);
    v.push(0x6D);
    v.push(0x65);
    proof {
        assert(v@ =~= key_classname());
    }
    v
}

fn k_angles() -> (r: Vec<u8>)
    ensures
        r@ == key_angles(),
{
    let mut v: Vec<u8> = Vec::new();
    v.push(0x61);
    v.push(0x6E);
    v.push(0x67);
    v.push(0x6C);
    v.push(0x65);
    v.push(0x73);
    proof {
        assert(v@ =~= key_angles());
    }
    v
}

fn k_origin() -> (r: Vec<u8>)
    ensures
        r@ == key_origin(),
{
    let mut v: Vec<u8> = Vec::new();
    v.push(0x6F);
    v.push(0x72);
    v.push(0x69);
    v.push(0x67);
    v.push(0x69);
    v.push(0x6E);
    proof {
        assert(v@ =~= key_origin());
    }
    v
}

fn k_modelscale() -> (r: Vec<u8>)
    ensures
        r@ == key_modelscale(),
{
    let mut v: Vec<u8> = Vec::new();
    v.push(0x6D);
    v.push(0x6F);
    v.push(0x64);
    v.push(0x65);
    v.push(0x6C);
    v.push(0x73);
    v.push(0x63);
    v.push(0x61);
    v.push(0x6C);
    v.push(0x65);
    proof {
        assert(v@ =~= key_modelscale());
    }
    v
}

fn p_xmodel() -> (r: Vec<u8>)
    ensures
        r@ == xmodel_prefix(),
{
    let mut v: Vec<u8> = Vec::new();
    v.push(0x78);
    v.push(0x6D);
    v.push(0x6F);
    v.push(0x64);
    v.push(0x65);
    v.push(0x6C);
    v.push(0x2F);
    proof {
        assert(v@ =~= xmodel_prefix());
    }
    v
}

fn n_spawn() -> (r: Vec<u8>)
    ensures
        r@ == seq![0x73u8, 0x70u8, 0x61u8, 0x77u8, 0x6Eu8],
{
    let mut v: Vec<u8> = Vec::new();
    v.push(0x73);
    v.push(0x70);
    v.push(0x61);
    v.push(0x77);
    v.push(0x6E);
    proof {
        assert(v@ =~= seq![0x73u8, 0x70u8, 0x61u8, 0x77u8, 0x6Eu8]);
    }
    v
}

fn n_actor() -> (r: Vec<u8>)
    ensures
        r@ == seq![0x61u8, 0x63u8, 0x74u8, 0x6Fu8, 0x72u8],
{
    let mut v: Vec<u8> = Vec::new();
    v.push(0x61);
    v.push(0x63);
    v.push(0x74);
    v.push(0x6F);
    v.push(0x72);
    proof {
        assert(v@ =~= seq![0x61u8, 0x63u8, 0x74u8, 0x6Fu8, 0x72u8]);
    }
    v
}

fn n_fx() -> (r: Vec<u8>)
    ensures
        r@ == seq![0x66u8, 0x78u8],
{
    let mut v: Vec<u8> = Vec::new();
    v.push(0x66);
    v.push(0x78);
    proof {
        assert(v@ =~= seq![0x66u8, 0x78u8]);
    }
    v
}

/// Decides whether a record is kept, and builds its entity if so.
#[verifier::loop_isolation(false)]
fn entity_from_record(rec: &Vec<(Vec<u8>, Vec<u8>)>) -> (r: Option<IbspEntity>)
    ensures
        entity_kept(pairs_view(rec@)) ==> (r matches Some(e) && ent_matches(
            &e,
            ent_of(pairs_view(rec@)),
        )),
        !entity_kept(pairs_view(rec@)) ==> r is None,
{
    let ghost pv = pairs_view(rec@);
    let km = k_model();
    let m = match get_last_exec(rec, &km) {
        Some(m) => m,
        None => {
            return None;
        },
    };
    let px = p_xmodel();
    if !(m.len() >= 7) {
        proof {
            assert(!starts_with(m@, xmodel_prefix()));
        }
        return None;
    }
    if !match_at(&m, 0, &px) {
        proof {
            assert(m@.subrange(0, 7) =~= m@.take(7));
            assert(!starts_with(m@, xmodel_prefix()));
        }
        return None;
    }
    proof {
        assert(m@.subrange(0, 7) =~= m@.take(7));
        assert(starts_with(m@, xmodel_prefix()));
    }
    let name_bytes = vec_slice(&m, 7, m.len());
    proof {
        assert(name_bytes@ =~= m@.skip(7));
    }
    let fx = n_fx();
    if bytes_eq(&name_bytes, &fx) {
        return None;
    }
    let kc = k_classname();
    match get_last_exec(rec, &kc) {
        Some(c) => {
            let sp = n_spawn();
            let ac = n_actor();
            if contains_exec(&c, &sp) || contains_exec(&c, &ac) {
                return None;
            }
        },
        None => (),
    }
    proof {
        assert(entity_kept(pv));
    }
    let ka = k_angles();
    let ko = k_origin();
    let ks = k_modelscale();
    let angles = transform_exec(get_last_exec(rec, &ka));
    let origin = transform_exec(get_last_exec(rec, &ko));
    let scale = transform_exec(get_last_exec(rec, &ks));
    let name = crate::binary::string_of_bytes(&name_bytes);
    Some(IbspEntity { name, angles, origin, scale })
}


impl IbspMaterial {
    /// The raw 64-byte name region.
    pub closed spec fn name_bytes(&self) -> Seq<u8> {
        self.name@
    }

    /// The flag word.
    pub closed spec fn flag_value(&self) -> u64 {
        self.flag
    }

    /// The material name: the name region with its zero padding stripped,
    /// one character per byte.
    pub fn get_name(&self) -> (r: String)
        ensures
            r@ == chars_of_bytes(trim_zeros(self.name_bytes())),
    {
        let ghost s = self.name@;
        let n = self.name.len();
        let mut a: usize = 0;
        while a < n && self.name[a] == 0
            invariant
                n == s.len(),
                s == self.name@,
                0 <= a <= n,
                first_nonzero(s, 0) == first_nonzero(s, a as int),
            decreases n - a,
        {
            a = a + 1;
        }
        let mut b: usize = n;
        while b > a && self.name[b - 1] == 0
            invariant
                n == s.len(),
                s == self.name@,
                a <= b <= n,
                a == first_nonzero(s, 0) || (a == n && first_nonzero(s, 0) == n),
                last_nonzero_end(s, n as int) == last_nonzero_end(s, b as int),
            decreases b,
        {
            b = b - 1;
        }
        proof {
            lemma_first_nonzero_bounds(s, 0);
            lemma_last_nonzero_bounds(s, n as int);
        }
        let mut out = String::new();
        let mut i: usize = a;
        while i < b
            invariant
                n == s.len(),
                s == self.name@,
                a <= i <= b <= n,
                out@ == chars_of_bytes(s.subrange(a as int, i as int)),
            decreases b - i,
        {
            crate::binary::push_char(&mut out, self.name[i] as char);
            i = i + 1;
            proof {
                assert(chars_of_bytes(s.subrange(a as int, i as int)) =~= chars_of_bytes(
                    s.subrange(a as int, i - 1),
                ).push(s[i - 1] as char));
            }
        }
        proof {
            if a < b {
                assert(s.subrange(a as int, b as int) =~= trim_zeros(s));
            } else {
                assert(a == first_nonzero(s, 0));
                assert forall|j: int| 0 <= j < a implies s[j] == 0 by {
                    lemma_first_nonzero_zeros(s, 0, j);
                }
                lemma_lnz_zeros(s, a as int);
                assert(last_nonzero_end(s, n as int) == 0);
                assert(chars_of_bytes(s.subrange(a as int, a as int)) =~= chars_of_bytes(
                    trim_zeros(s),
                ));
            }
        }
        out
    }
}

impl Ibsp {
    /// Reads and checks the magic and version word.
    fn read_header(file: &mut Reader) -> (r: Result<IbspHeader, Error>)
        requires
            old(file).wf(),
            old(file).cursor() == 0,
        ensures
            final(file).bytes() == old(file).bytes(),
            final(file).wf(),
            r is Ok <==> ibsp_header_ok(old(file).bytes()),
            r matches Ok(h) ==> (h.version == le_u32(old(file).bytes(), 4) as i32 && final(file).cursor() == 8),
            r matches Err(e) ==> e.kind == ibsp_header_error(old(file).bytes()),
    {
        let magic = match file.read_bytes(4) {
            Ok(m) => m,
            Err(e) => {
                return Err(e);
            },
        };
        if !(magic[0] == 0x49 && magic[1] == 0x42 && magic[2] == 0x53 && magic[3] == 0x50) {
            return Err(
                Error::with_kind(ErrorKind::InvalidFormat, String::from_str("invalid magic")),
            );
        }
        let version = match file.read_i32() {
            Ok(v) => v,
            Err(e) => {
                return Err(e);
            },
        };
        match IbspVersion::valid(version) {
            Some(_) => (),
            None => {
                return Err(
                    Error::with_kind(
                        ErrorKind::InvalidFormat,
                        String::from_str("invalid map version"),
                    ),
                );
            },
        }
        Ok(IbspHeader { magic: [magic[0], magic[1], magic[2], magic[3]], version })
    }

    /// Reads the 39-entry lump table that follows the header.
    fn read_lumps(file: &mut Reader) -> (r: Result<Vec<IbspLump>, Error>)
        requires
            old(file).wf(),
            old(file).cursor() == 8,
        ensures
            final(file).bytes() == old(file).bytes(),
            final(file).wf(),
            r is Ok <==> old(file).bytes().len() >= 8 + 39 * 8,
            r matches Ok(lumps) ==> (lumps@.len() == 39 && (forall|k: int|
                0 <= k < 39 ==> lumps@[k] == lump_at(old(file).bytes(), k)) && final(file).cursor()
                == 8 + 39 * 8),
            r matches Err(e) ==> e.kind == ErrorKind::TruncatedInput,
    {
        let ghost s = old(file).bytes();
        let mut lumps: Vec<IbspLump> = Vec::new();
        let mut k: usize = 0;
        while k < 39
            invariant
                file.wf(),
                s == old(file).bytes(),
                file.bytes() == s,
                k <= 39,
                file.cursor() == 8 + 8 * k,
                lumps@.len() == k,
                forall|j: int| 0 <= j < k ==> lumps@[j] == lump_at(s, j),
            decreases 39 - k,
        {
            let length = match file.read_u32() {
                Ok(v) => v,
                Err(e) => {
                    return Err(e);
                },
            };
            let offset = match file.read_u32() {
                Ok(v) => v,
                Err(e) => {
                    return Err(e);
                },
            };
            lumps.push(IbspLump { length, offset });
            k = k + 1;
        }
        Ok(lumps)
    }

    /// Reads the material lump: `ceil(length / 72)` fixed records.
    fn read_materials(file: &mut Reader, version: i32, lumps: &Vec<IbspLump>) -> (r: Result<
        Vec<IbspMaterial>,
        Error,
    >)
        requires
            old(file).wf(),
            lumps@.len() == 39,
            old(file).bytes().len() <= u32::MAX,
        ensures
            final(file).bytes() == old(file).bytes(),
            final(file).wf(),
            ({
                let s = old(file).bytes();
                let lump = lumps@[lump_index(version, 0)];
                let count = record_count(lump.length, 72);
                &&& (r is Ok <==> (count == 0 || lump.offset + 72 * count <= s.len()))
                &&& (r matches Ok(ms) ==> ms@.len() == count && (forall|j: int|
                    0 <= j < count ==> (#[trigger] ms@[j]).name_bytes() == s.subrange(
                        lump.offset + 72 * j,
                        lump.offset + 72 * j + 64,
                    ) && ms@[j].flag_value() == le_u64(s, lump.offset + 72 * j + 64)))
                &&& (r matches Err(e) ==> e.kind == ErrorKind::TruncatedInput)
            }),
    {
        let ghost s = old(file).bytes();
        // The material lump sits in slot 0 in both versions.
        let idx: usize = 0;
        let lump = lumps[idx];
        let cnt64: u64 = ((lump.length as u64) + 71) / 72;
        let count = cnt64 as usize;
        let mut materials: Vec<IbspMaterial> = Vec::new();
        if count == 0 {
            return Ok(materials);
        }
        if (lump.offset as u64) + 72 * cnt64 > file.len() as u64 {
            return Err(Error::with_kind(ErrorKind::TruncatedInput, String::new()));
        }
        file.seek(lump.offset as usize);
        let mut j: usize = 0;
        while j < count
            invariant
                s == old(file).bytes(),
                file.wf(),
                file.bytes() == s,
                j <= count,
                count == record_count(lump.length, 72),
                lump.offset + 72 * count <= s.len(),
                file.cursor() == lump.offset + 72 * j,
                materials@.len() == j,
                forall|k: int|
                    0 <= k < j ==> (#[trigger] materials@[k]).name_bytes() == s.subrange(
                        lump.offset + 72 * k,
                        lump.offset + 72 * k + 64,
                    ) && materials@[k].flag_value() == le_u64(s, lump.offset + 72 * k + 64),
            decreases count - j,
        {
            let name = match file.read_bytes(64) {
                Ok(n) => n,
                Err(e) => {
                    proof {
                        assert(false);
                    }
                    return Err(e);
                },
            };
            let flag = match file.read_u64() {
                Ok(f) => f,
                Err(e) => {
                    proof {
                        assert(false);
                    }
                    return Err(e);
                },
            };
            materials.push(IbspMaterial { name, flag });
            j = j + 1;
        }
        Ok(materials)
    }

    /// Reads the triangle-soup lump: `ceil(length / 16)` fixed records.
    fn read_trianglesoups(file: &mut Reader, version: i32, lumps: &Vec<IbspLump>) -> (r: Result<
        Vec<IbspTriangleSoup>,
        Error,
    >)
        requires
            old(file).wf(),
            lumps@.len() == 39,
            old(file).bytes().len() <= u32::MAX,
        ensures
            final(file).bytes() == old(file).bytes(),
            final(file).wf(),
            ({
                let s = old(file).bytes();
                let lump = lumps@[lump_index(version, 1)];
                let count = record_count(lump.length, 16);
                &&& (r is Ok <==> (count == 0 || lump.offset + 16 * count <= s.len()))
                &&& (r matches Ok(ts) ==> ts@.len() == count && (forall|j: int|
                    0 <= j < count ==> #[trigger] ts@[j] == soup_at(s, lump.offset + 16 * j)))
                &&& (r matches Err(e) ==> e.kind == ErrorKind::TruncatedInput)
            }),
    {
        let ghost s = old(file).bytes();
        let idx: usize = if version == 0x4 {
            7
        } else {
            6
        };
        let lump = lumps[idx];
        let cnt64: u64 = ((lump.length as u64) + 15) / 16;
        let count = cnt64 as usize;
        let mut soups: Vec<IbspTriangleSoup> = Vec::new();
        if count == 0 {
            return Ok(soups);
        }
        if (lump.offset as u64) + 16 * cnt64 > file.len() as u64 {
            return Err(Error::with_kind(ErrorKind::TruncatedInput, String::new()));
        }
        file.seek(lump.offset as usize);
        let mut j: usize = 0;
        while j < count
            invariant
                s == old(file).bytes(),
                file.wf(),
                file.bytes() == s,
                j <= count,
                count == record_count(lump.length, 16),
                lump.offset + 16 * count <= s.len(),
                file.cursor() == lump.offset + 16 * j,
                soups@.len() == j,
                forall|k: int| 0 <= k < j ==> #[trigger] soups@[k] == soup_at(s, lump.offset + 16 * k),
            decreases count - j,
        {
            let material_idx = match file.read_u16() {
                Ok(v) => v,
                Err(e) => {
                    proof {
                        assert(false);
                    }
                    return Err(e);
                },
            };
            let draw_order = match file.read_u16() {
                Ok(v) => v,
                Err(e) => {
                    proof {
                        assert(false);
                    }
                    return Err(e);
                },
            };
            let vertices_offset = match file.read_u32() {
                Ok(v) => v,
                Err(e) => {
                    proof {
                        assert(false);
                    }
                    return Err(e);
                },
            };
            let vertices_length = match file.read_u16() {
                Ok(v) => v,
                Err(e) => {
                    proof {
                        assert(false);
                    }
                    return Err(e);
                },
            };
            let triangles_length = match file.read_u16() {
                Ok(v) => v,
                Err(e) => {
                    proof {
                        assert(false);
                    }
                    return Err(e);
                },
            };
            let triangles_offset = match file.read_u32() {
                Ok(v) => v,
                Err(e) => {
                    proof {
                        assert(false);
                    }
                    return Err(e);
                },
            };
            soups.push(
                IbspTriangleSoup {
                    material_idx,
                    draw_order,
                    vertices_offset,
                    vertices_length,
                    triangles_length,
                    triangles_offset,
                },
            );
            j = j + 1;
        }
        Ok(soups)
    }

    /// Reads one vertex record in the older 44-byte layout.
    fn read_vertex_v59(file: &mut Reader) -> (r: Result<IbspVertex, Error>)
        requires
            old(file).wf(),
            old(file).can_read(44),
        ensures
            final(file).bytes() == old(file).bytes(),
            final(file).wf(),
            r matches Ok(v) && v == vertex_v59_at(old(file).bytes(), old(file).cursor())
                && final(file).cursor() == old(file).cursor() + 44,
    {
        let px = match file.read_f32_bits() {
            Ok(v) => v,
            Err(e) => {
                proof {
                    assert(false);
                }
                return Err(e);
            },
        };
        let py = match file.read_f32_bits() {
            Ok(v) => v,
            Err(e) => {
                proof {
                    assert(false);
                }
                return Err(e);
            },
        };
        let pz = match file.read_f32_bits() {
            Ok(v) => v,
            Err(e) => {
                proof {
                    assert(false);
                }
                return Err(e);
            },
        };
        let u = match file.read_f32_bits() {
            Ok(v) => v,
            Err(e) => {
                proof {
                    assert(false);
                }
                return Err(e);
            },
        };
        let v = match file.read_f32_bits() {
            Ok(v) => v,
            Err(e) => {
                proof {
                    assert(false);
                }
                return Err(e);
            },
        };
        file.skip(8);
        let nx = match file.read_f32_bits() {
            Ok(v) => v,
            Err(e) => {
                proof {
                    assert(false);
                }
                return Err(e);
            },
        };
        let ny = match file.read_f32_bits() {
            Ok(v) => v,
            Err(e) => {
                proof {
                    assert(false);
                }
                return Err(e);
            },
        };
        let nz = match file.read_f32_bits() {
            Ok(v) => v,
            Err(e) => {
                proof {
                    assert(false);
                }
                return Err(e);
            },
        };
        let color = match file.read_bytes(4) {
            Ok(c) => c,
            Err(e) => {
                proof {
                    assert(false);
                }
                return Err(e);
            },
        };
        Ok(
            IbspVertex {
                position: [px, py, pz],
                normal: [nx, ny, nz],
                color: [color[0], color[1], color[2], color[3]],
                uv: [u, v],
            },
        )
    }

    /// Reads one vertex record in the newer 68-byte layout.
    fn read_vertex_v4(file: &mut Reader) -> (r: Result<IbspVertex, Error>)
        requires
            old(file).wf(),
            old(file).can_read(68),
        ensures
            final(file).bytes() == old(file).bytes(),
            final(file).wf(),
            r matches Ok(v) && v == vertex_v4_at(old(file).bytes(), old(file).cursor())
                && final(file).cursor() == old(file).cursor() + 68,
    {
        let px = match file.read_f32_bits() {
            Ok(v) => v,
            Err(e) => {
                proof {
                    assert(false);
                }
                return Err(e);
            },
        };
        let py = match file.read_f32_bits() {
            Ok(v) => v,
            Err(e) => {
                proof {
                    assert(false);
                }
                return Err(e);
            },
        };
        let pz = match file.read_f32_bits() {
            Ok(v) => v,
            Err(e) => {
                proof {
                    assert(false);
                }
                return Err(e);
            },
        };
        let nx = match file.read_f32_bits() {
            Ok(v) => v,
            Err(e) => {
                proof {
                    assert(false);
                }
                return Err(e);
            },
        };
        let ny = match file.read_f32_bits() {
            Ok(v) => v,
            Err(e) => {
                proof {
                    assert(false);
                }
                return Err(e);
            },
        };
        let nz = match file.read_f32_bits() {
            Ok(v) => v,
            Err(e) => {
                proof {
                    assert(false);
                }
                return Err(e);
            },
        };
        let color = match file.read_bytes(4) {
            Ok(c) => c,
            Err(e) => {
                proof {
                    assert(false);
                }
                return Err(e);
            },
        };
        let u = match file.read_f32_bits() {
            Ok(v) => v,
            Err(e) => {
                proof {
                    assert(false);
                }
                return Err(e);
            },
        };
        let v = match file.read_f32_bits() {
            Ok(v) => v,
            Err(e) => {
                proof {
                    assert(false);
                }
                return Err(e);
            },
        };
        file.skip(32);
        Ok(
            IbspVertex {
                position: [px, py, pz],
                normal: [nx, ny, nz],
                color: [color[0], color[1], color[2], color[3]],
                uv: [u, v],
            },
        )
    }

    /// Reads the vertex lump in the layout its version selects.
    fn read_vertices(file: &mut Reader, version: i32, lumps: &Vec<IbspLump>) -> (r: Result<
        Vec<IbspVertex>,
        Error,
    >)
        requires
            old(file).wf(),
            lumps@.len() == 39,
            old(file).bytes().len() <= u32::MAX,
        ensures
            final(file).bytes() == old(file).bytes(),
            final(file).wf(),
            ({
                let s = old(file).bytes();
                let lump = lumps@[lump_index(version, 2)];
                let vsize: int = if version == 0x4 {
                    68
                } else {
                    44
                };
                let count = record_count(lump.length, vsize);
                &&& (r is Ok <==> (count == 0 || lump.offset + vsize * count <= s.len()))
                &&& (r matches Ok(vs) ==> vs@.len() == count && (forall|j: int|
                    0 <= j < count ==> #[trigger] vs@[j] == (if version == 0x4 {
                        vertex_v4_at(s, lump.offset + 68 * j)
                    } else {
                        vertex_v59_at(s, lump.offset + 44 * j)
                    })))
                &&& (r matches Err(e) ==> e.kind == ErrorKind::TruncatedInput)
            }),
    {
        let ghost s = old(file).bytes();
        let v4 = version == 0x4;
        let idx: usize = if v4 {
            8
        } else {
            7
        };
        let vsize: u64 = if v4 {
            68
        } else {
            44
        };
        let lump = lumps[idx];
        let cnt64: u64 = ((lump.length as u64) + vsize - 1) / vsize;
        let count = cnt64 as usize;
        let mut vertices: Vec<IbspVertex> = Vec::new();
        if count == 0 {
            return Ok(vertices);
        }
        if (lump.offset as u64) + vsize * cnt64 > file.len() as u64 {
            return Err(Error::with_kind(ErrorKind::TruncatedInput, String::new()));
        }
        file.seek(lump.offset as usize);
        let mut j: usize = 0;
        while j < count
            invariant
                s == old(file).bytes(),
                file.wf(),
                file.bytes() == s,
                j <= count,
                v4 == (version == 0x4),
                vsize == if v4 {
                    68int
                } else {
                    44int
                },
                count == record_count(lump.length, vsize as int),
                lump.offset + vsize * count <= s.len(),
                file.cursor() == lump.offset + vsize * j,
                vertices@.len() == j,
                forall|k: int|
                    0 <= k < j ==> #[trigger] vertices@[k] == (if v4 {
                        vertex_v4_at(s, lump.offset + 68 * k)
                    } else {
                        vertex_v59_at(s, lump.offset + 44 * k)
                    }),
            decreases count - j,
        {
            let vert = if v4 {
                match Self::read_vertex_v4(file) {
                    Ok(v) => v,
                    Err(e) => {
                        proof {
                            assert(false);
                        }
                        return Err(e);
                    },
                }
            } else {
                match Self::read_vertex_v59(file) {
                    Ok(v) => v,
                    Err(e) => {
                        proof {
                            assert(false);
                        }
                        return Err(e);
                    },
                }
            };
            vertices.push(vert);
            j = j + 1;
        }
        Ok(vertices)
    }

    /// Reads the triangle lump: a flat list of 16-bit vertex indices.
    fn read_triangles(file: &mut Reader, version: i32, lumps: &Vec<IbspLump>) -> (r: Result<
        Vec<u16>,
        Error,
    >)
        requires
            old(file).wf(),
            lumps@.len() == 39,
            old(file).bytes().len() <= u32::MAX,
        ensures
            final(file).bytes() == old(file).bytes(),
            final(file).wf(),
            ({
                let s = old(file).bytes();
                let lump = lumps@[lump_index(version, 3)];
                let count = lump.length / 2;
                &&& (r is Ok <==> (count == 0 || lump.offset + 2 * count <= s.len()))
                &&& (r matches Ok(ts) ==> ts@.len() == count && (forall|j: int|
                    0 <= j < count ==> #[trigger] ts@[j] == le_u16(s, lump.offset + 2 * j)))
                &&& (r matches Err(e) ==> e.kind == ErrorKind::TruncatedInput)
            }),
    {
        let ghost s = old(file).bytes();
        let idx: usize = if version == 0x4 {
            9
        } else {
            8
        };
        let lump = lumps[idx];
        let count = (lump.length / 2) as usize;
        let mut triangles: Vec<u16> = Vec::new();
        if count == 0 {
            return Ok(triangles);
        }
        if (lump.offset as u64) + 2 * (count as u64) > file.len() as u64 {
            return Err(Error::with_kind(ErrorKind::TruncatedInput, String::new()));
        }
        file.seek(lump.offset as usize);
        let mut j: usize = 0;
        while j < count
            invariant
                s == old(file).bytes(),
                file.wf(),
                file.bytes() == s,
                j <= count,
                count == lump.length / 2,
                lump.offset + 2 * count <= s.len(),
                file.cursor() == lump.offset + 2 * j,
                triangles@.len() == j,
                forall|k: int| 0 <= k < j ==> #[trigger] triangles@[k] == le_u16(s, lump.offset + 2 * k),
            decreases count - j,
        {
            let t = match file.read_u16() {
                Ok(v) => v,
                Err(e) => {
                    proof {
                        assert(false);
                    }
                    return Err(e);
                },
            };
            triangles.push(t);
            j = j + 1;
        }
        Ok(triangles)
    }

    /// Reads the entity lump, repairs its pseudo-text block, parses the
    /// repaired document, and keeps the placements that pass the filter.
    #[verifier::loop_isolation(false)]
    fn read_entities(file: &mut Reader, version: i32, lumps: &Vec<IbspLump>) -> (r: Result<
        Vec<IbspEntity>,
        Error,
    >)
        requires
            old(file).wf(),
            lumps@.len() == 39,
            old(file).bytes().len() <= u32::MAX,
        ensures
            final(file).bytes() == old(file).bytes(),
            final(file).wf(),
            ({
                let s = old(file).bytes();
                let lump = lumps@[lump_index(version, 4)];
                let ok_read = lump.length == 0 || lump.offset + lump.length <= s.len();
                let doc = repair_spec(ent_lump_bytes(s, lump));
                &&& (!ok_read ==> (r matches Err(e) && e.kind == ErrorKind::TruncatedInput))
                &&& ((ok_read && tokens_spec(doc, 0) is None) ==> (r matches Err(e) && e.kind
                    == ErrorKind::MalformedText))
                &&& ((ok_read && tokens_spec(doc, 0) is Some && run_toks(tokens_spec(doc, 0)->0).mode
                    != 7) ==> (r matches Err(e) && e.kind == ErrorKind::MalformedText))
                &&& ((ok_read && tokens_spec(doc, 0) is Some && run_toks(tokens_spec(doc, 0)->0).mode
                    == 7) ==> (r matches Ok(es) && es@.len() == ents_of(
                    run_toks(tokens_spec(doc, 0)->0).records,
                ).len() && (forall|k: int|
                    0 <= k < es@.len() ==> ent_matches(
                        &es@[k],
                        ents_of(run_toks(tokens_spec(doc, 0)->0).records)[k],
                    ))))
            }),
    {
        let ghost s = old(file).bytes();
        let idx: usize = if version == 0x4 {
            37
        } else {
            29
        };
        let lump = lumps[idx];
        file.seek(lump.offset as usize);
        let raw = match file.read_bytes(lump.length as usize) {
            Ok(b) => b,
            Err(e) => {
                return Err(e);
            },
        };
        proof {
            assert(raw@ =~= ent_lump_bytes(s, lumps@[lump_index(version, 4)]));
        }
        let trimmed = trim_zero_bytes(&raw);
        let mut wrapped: Vec<u8> = Vec::new();
        wrapped.push(0x5B);
        let mut q: usize = 0;
        while q < trimmed.len()
            invariant
                q <= trimmed@.len(),
                wrapped@ == seq![0x5Bu8] + trimmed@.subrange(0, q as int),
            decreases trimmed@.len() - q,
        {
            wrapped.push(trimmed[q]);
            q = q + 1;
            proof {
                assert(seq![0x5Bu8] + trimmed@.subrange(0, q as int) =~= (seq![0x5Bu8]
                    + trimmed@.subrange(0, q - 1)).push(trimmed@[q - 1]));
            }
        }
        wrapped.push(0x5D);
        proof {
            assert(trimmed@.subrange(0, trimmed@.len() as int) =~= trimmed@);
            assert(wrapped@ =~= seq![0x5Bu8] + trim_zeros(raw@) + seq![0x5Du8]);
        }

        let mut pat1: Vec<u8> = Vec::new();
        pat1.push(0x7D);
        pat1.push(0x0A);
        pat1.push(0x7B);
        pat1.push(0x0A);
        let mut rep1: Vec<u8> = Vec::new();
        rep1.push(0x7D);
        rep1.push(0x2C);
        rep1.push(0x0A);
        rep1.push(0x7B);
        rep1.push(0x0A);
        let mut pat2: Vec<u8> = Vec::new();
        pat2.push(0x22);
        pat2.push(0x0A);
        pat2.push(0x22);
        let mut rep2: Vec<u8> = Vec::new();
        rep2.push(0x22);
        rep2.push(0x2C);
        rep2.push(0x0A);
        rep2.push(0x22);
        let mut pat3: Vec<u8> = Vec::new();
        pat3.push(0x22);
        pat3.push(0x20);
        pat3.push(0x22);
        let mut rep3: Vec<u8> = Vec::new();
        rep3.push(0x22);
        rep3.push(0x3A);
        rep3.push(0x22);
        let mut pat4: Vec<u8> = Vec::new();
        pat4.push(0x5C);
        let mut rep4: Vec<u8> = Vec::new();
        rep4.push(0x2F);
        proof {
            assert(pat1@ =~= seq![0x7Du8, 0x0Au8, 0x7Bu8, 0x0Au8]);
            assert(rep1@ =~= seq![0x7Du8, 0x2Cu8, 0x0Au8, 0x7Bu8, 0x0Au8]);
            assert(pat2@ =~= seq![0x22u8, 0x0Au8, 0x22u8]);
            assert(rep2@ =~= seq![0x22u8, 0x2Cu8, 0x0Au8, 0x22u8]);
            assert(pat3@ =~= seq![0x22u8, 0x20u8, 0x22u8]);
            assert(rep3@ =~= seq![0x22u8, 0x3Au8, 0x22u8]);
            assert(pat4@ =~= seq![0x5Cu8]);
            assert(rep4@ =~= seq![0x2Fu8]);
        }
        let a = replace_all(&wrapped, &pat1, &rep1);
        let b = replace_all(&a, &pat2, &rep2);
        let c = replace_all(&b, &pat3, &rep3);
        let doc = replace_all(&c, &pat4, &rep4);
        proof {
            assert(doc@ == repair_spec(raw@));
        }

        let toks = match tokenize(&doc) {
            Some(t) => t,
            None => {
                return Err(
                    Error::with_kind(
                        ErrorKind::MalformedText,
                        String::from_str("entity text failed to parse"),
                    ),
                );
            },
        };
        let parsed = parse_tokens(&toks);
        let mode = parsed.0;
        let records = parsed.1;
        if mode != 7 {
            return Err(
                Error::with_kind(
                    ErrorKind::MalformedText,
                    String::from_str("entity text failed to parse"),
                ),
            );
        }
        let ghost grecs = recs_view(records@);
        let mut entities: Vec<IbspEntity> = Vec::new();
        let mut k: usize = 0;
        proof {
            assert(grecs.take(0) =~= Seq::<Seq<SPair>>::empty());
        }
        while k < records.len()
            invariant
                k <= records@.len(),
                grecs == recs_view(records@),
                entities@.len() == ents_of(grecs.take(k as int)).len(),
                forall|j: int|
                    0 <= j < entities@.len() ==> ent_matches(
                        &entities@[j],
                        ents_of(grecs.take(k as int))[j],
                    ),
            decreases records@.len() - k,
        {
            let ghost pre = ents_of(grecs.take(k as int));
            match entity_from_record(&records[k]) {
                Some(e) => {
                    entities.push(e);
                },
                None => (),
            }
            k = k + 1;
            proof {
                assert(grecs.take(k as int).drop_last() =~= grecs.take(k - 1));
                assert(grecs.take(k as int).last() == pairs_view(records@[k - 1]@));
            }
        }
        proof {
            assert(grecs.take(records@.len() as int) =~= grecs);
        }
        Ok(entities)
    }
}

/// The dedup state while one soup's triangle range is walked: for each
/// global vertex index its dense index if already emitted, the dense vertex
/// buffer, and the surface triangle list.
pub struct SoupAcc {
    pub map: Seq<Option<u32>>,
    pub verts: Seq<IbspVertex>,
    pub tris: Seq<u32>,
}

/// The empty dedup state over `n` global vertices.
pub open spec fn soup_init(n: nat) -> SoupAcc {
    SoupAcc { map: Seq::new(n, |k: int| None), verts: Seq::empty(), tris: Seq::empty() }
}

/// Emits the global vertex `v` if it is new, and returns its dense index.
pub open spec fn add_vert(acc: SoupAcc, all: Seq<IbspVertex>, v: int) -> (SoupAcc, u32) {
    match acc.map[v] {
        Some(t) => (acc, t),
        None => (
            SoupAcc {
                map: acc.map.update(v, Some(acc.verts.len() as u32)),
                verts: acc.verts.push(all[v]),
                tris: acc.tris,
            },
            acc.verts.len() as u32,
        ),
    }
}

/// Processes the on-disk triple at triangle-list position `i`: emits its
/// three vertices and appends the dense triple with reversed winding
/// (on-disk `(v0, v1, v2)` is stored as `(d0, d2, d1)`).
pub open spec fn soup_step(
    acc: SoupAcc,
    all: Seq<IbspVertex>,
    triangles: Seq<u16>,
    base: u32,
    i: int,
) -> SoupAcc {
    let r0 = add_vert(acc, all, triangles[i] + base);
    let r1 = add_vert(r0.0, all, triangles[i + 1] + base);
    let r2 = add_vert(r1.0, all, triangles[i + 2] + base);
    SoupAcc { tris: r2.0.tris + seq![r0.1, r2.1, r1.1], ..r2.0 }
}

/// The dedup state after the first `j` triples of a soup.
pub open spec fn soup_run(
    all: Seq<IbspVertex>,
    triangles: Seq<u16>,
    soup: IbspTriangleSoup,
    j: int,
) -> SoupAcc
    decreases j,
{
    if j <= 0 {
        soup_init(all.len())
    } else {
        soup_step(
            soup_run(all, triangles, soup, j - 1),
            all,
            triangles,
            soup.vertices_offset,
            soup.triangles_offset + 3 * (j - 1),
        )
    }
}

/// A soup addresses only existing triangles and vertices.
pub open spec fn soup_ok(
    all: Seq<IbspVertex>,
    triangles: Seq<u16>,
    soup: IbspTriangleSoup,
) -> bool {
    &&& soup.triangles_offset + soup.triangles_length <= triangles.len()
    &&& soup.triangles_length % 3 == 0
    &&& forall|i: int|
        soup.triangles_offset <= i < soup.triangles_offset + soup.triangles_length
            ==> #[trigger] triangles[i] + soup.vertices_offset < all.len()
}

/// The dedup state is well formed: every emitted triangle index and every
/// mapping points inside the dense vertex buffer.
pub open spec fn acc_wf(acc: SoupAcc, n: nat) -> bool {
    &&& acc.map.len() == n
    &&& forall|t: int| 0 <= t < acc.tris.len() ==> (#[trigger] acc.tris[t]) < acc.verts.len()
    &&& forall|v: int|
        0 <= v < acc.map.len() && acc.map[v] is Some ==> (#[trigger] acc.map[v])->0
            < acc.verts.len()
}

proof fn lemma_soup_run_wf(
    all: Seq<IbspVertex>,
    triangles: Seq<u16>,
    soup: IbspTriangleSoup,
    j: int,
)
    requires
        soup_ok(all, triangles, soup),
        0 <= j,
        3 * j <= soup.triangles_length,
        all.len() <= u32::MAX,
    ensures
        acc_wf(soup_run(all, triangles, soup, j), all.len()),
        soup_run(all, triangles, soup, j).tris.len() == 3 * j,
    decreases j,
{
    if j > 0 {
        lemma_soup_run_wf(all, triangles, soup, j - 1);
        let acc = soup_run(all, triangles, soup, j - 1);
        let i = soup.triangles_offset + 3 * (j - 1);
        assert(triangles[i] + soup.vertices_offset < all.len());
        assert(triangles[i + 1] + soup.vertices_offset < all.len());
        assert(triangles[i + 2] + soup.vertices_offset < all.len());
        let r0 = add_vert(acc, all, triangles[i] + soup.vertices_offset);
        assert(acc_wf(r0.0, all.len()) && r0.1 < r0.0.verts.len() && acc.verts.len()
            <= r0.0.verts.len());
        let r1 = add_vert(r0.0, all, triangles[i + 1] + soup.vertices_offset);
        assert(acc_wf(r1.0, all.len()) && r1.1 < r1.0.verts.len() && r0.0.verts.len()
            <= r1.0.verts.len());
        let r2 = add_vert(r1.0, all, triangles[i + 2] + soup.vertices_offset);
        assert(acc_wf(r2.0, all.len()) && r2.1 < r2.0.verts.len() && r1.0.verts.len()
            <= r2.0.verts.len());
        assert(r2.0.tris == acc.tris);
        assert(soup_run(all, triangles, soup, j).tris =~= r2.0.tris + seq![r0.1, r2.1, r1.1]);
        assert(soup_run(all, triangles, soup, j).tris.len() == acc.tris.len() + 3);
    }
}

/// Every surface triangle indexes its own dense vertex buffer: the
/// dense-remap invariant, for any valid soup of any map.
pub proof fn lemma_surface_indices_dense(
    all: Seq<IbspVertex>,
    triangles: Seq<u16>,
    soup: IbspTriangleSoup,
    j: int,
)
    requires
        soup_ok(all, triangles, soup),
        0 <= j,
        3 * j <= soup.triangles_length,
        all.len() <= u32::MAX,
    ensures
        forall|t: int|
            0 <= t < soup_run(all, triangles, soup, j).tris.len() ==> (#[trigger] soup_run(
                all,
                triangles,
                soup,
                j,
            ).tris[t]) < soup_run(all, triangles, soup, j).verts.len(),
{
    lemma_soup_run_wf(all, triangles, soup, j);
}

/// The triple emitted by one step is exactly the reversed winding of the
/// dense indices of the on-disk triple: `(d0, d2, d1)`.
pub proof fn lemma_surface_winding(
    all: Seq<IbspVertex>,
    triangles: Seq<u16>,
    soup: IbspTriangleSoup,
    j: int,
)
    requires
        j >= 1,
    ensures
        ({
            let acc = soup_run(all, triangles, soup, j - 1);
            let i = soup.triangles_offset + 3 * (j - 1);
            let r0 = add_vert(acc, all, triangles[i] + soup.vertices_offset);
            let r1 = add_vert(r0.0, all, triangles[i + 1] + soup.vertices_offset);
            let r2 = add_vert(r1.0, all, triangles[i + 2] + soup.vertices_offset);
            soup_run(all, triangles, soup, j).tris == acc.tris + seq![r0.1, r2.1, r1.1]
        }),
{
}

impl Ibsp {
    /// Checks that every soup stays inside the triangle and vertex arrays
    /// and names an existing material.
    #[verifier::loop_isolation(false)]
    fn check_soups(
        soups: &Vec<IbspTriangleSoup>,
        materials_len: usize,
        vertices_len: usize,
        triangles: &Vec<u16>,
    ) -> (r: bool)
        requires
            vertices_len <= u32::MAX,
        ensures
            r == (forall|k: int|
                0 <= k < soups@.len() ==> (#[trigger] soups@[k]).material_idx < materials_len
                    && soup_ok(
                    Seq::new(vertices_len as nat, |q: int| arbitrary()),
                    triangles@,
                    soups@[k],
                )),
    {
        let mut k: usize = 0;
        let ghost allv: Seq<IbspVertex> = Seq::new(vertices_len as nat, |q: int| arbitrary());
        while k < soups.len()
            invariant
                k <= soups@.len(),
                forall|j: int|
                    0 <= j < k ==> (#[trigger] soups@[j]).material_idx < materials_len && soup_ok(
                        allv,
                        triangles@,
                        soups@[j],
                    ),
        decreases soups@.len() - k,
        {
            let soup = soups[k];
            if !((soup.material_idx as usize) < materials_len) {
                proof {
                    assert(!(soups@[k as int].material_idx < materials_len));
                }
                return false;
            }
            if (soup.triangles_offset as u64) + (soup.triangles_length as u64) > triangles.len()
                as u64 {
                return false;
            }
            if soup.triangles_length % 3 != 0 {
                return false;
            }
            let end = (soup.triangles_offset as usize) + (soup.triangles_length as usize);
            let mut i: usize = soup.triangles_offset as usize;
            while i < end
                invariant
                    soup == soups@[k as int],
                    soup.triangles_offset <= i <= end,
                    end == soup.triangles_offset + soup.triangles_length,
                    end <= triangles@.len(),
                    forall|q: int|
                        soup.triangles_offset <= q < i ==> #[trigger] triangles@[q]
                            + soup.vertices_offset < vertices_len,
                decreases end - i,
            {
                if (triangles[i] as u64) + (soup.vertices_offset as u64) >= vertices_len as u64 {
                    return false;
                }
                i = i + 1;
            }
            proof {
                assert(soup_ok(allv, triangles@, soups@[k as int]));
            }
            k = k + 1;
        }
        true
    }

    /// Assembles one surface per soup: a deduplicated dense vertex buffer
    /// and triangles indexing it with reversed winding.  Every output
    /// triangle index is below its surface's vertex count.
    #[verifier::loop_isolation(false)]
    pub fn load_surfaces(
        triangle_soups: Vec<IbspTriangleSoup>,
        materials: &Vec<IbspMaterial>,
        vertices: Vec<IbspVertex>,
        triangles: Vec<u16>,
    ) -> (r: Vec<IbspSurface>)
        requires
            vertices@.len() <= u32::MAX,
            forall|k: int|
                0 <= k < triangle_soups@.len() ==> (#[trigger] triangle_soups@[k]).material_idx
                    < materials@.len() && soup_ok(vertices@, triangles@, triangle_soups@[k]),
        ensures
            r@.len() == triangle_soups@.len(),
            forall|k: int|
                0 <= k < r@.len() ==> {
                    let soup = triangle_soups@[k];
                    let acc = soup_run(vertices@, triangles@, soup, soup.triangles_length as int
                        / 3);
                    &&& (#[trigger] r@[k]).material@ == chars_of_bytes(
                        trim_zeros(materials@[soup.material_idx as int].name_bytes()),
                    )
                    &&& r@[k].vertices@ == acc.verts
                    &&& r@[k].triangles@ == acc.tris
                },
            forall|k: int, t: int|
                0 <= k < r@.len() && 0 <= t < (#[trigger] r@[k]).triangles@.len()
                    ==> (#[trigger] r@[k].triangles@[t]) < r@[k].vertices@.len(),
    {
        let ghost allv = vertices@;
        let ghost allt = triangles@;
        let mut surfaces: Vec<IbspSurface> = Vec::new();
        let mut k: usize = 0;
        while k < triangle_soups.len()
            invariant
                k <= triangle_soups@.len(),
                surfaces@.len() == k,
                forall|j: int|
                    0 <= j < k ==> {
                        let soup = triangle_soups@[j];
                        let acc = soup_run(allv, allt, soup, soup.triangles_length as int / 3);
                        &&& (#[trigger] surfaces@[j]).material@ == chars_of_bytes(
                            trim_zeros(materials@[soup.material_idx as int].name_bytes()),
                        )
                        &&& surfaces@[j].vertices@ == acc.verts
                        &&& surfaces@[j].triangles@ == acc.tris
                    },
            decreases triangle_soups@.len() - k,
        {
            let soup = triangle_soups[k];
            let surface_material = materials[soup.material_idx as usize].get_name();
            let mut sv: Vec<IbspVertex> = Vec::new();
            let mut st: Vec<u32> = Vec::new();
            let mut map: Vec<Option<u32>> = Vec::new();
            let mut q: usize = 0;
            while q < vertices.len()
                invariant
                    q <= allv.len(),
                    map@.len() == q,
                    forall|x: int| 0 <= x < q ==> (#[trigger] map@[x]) is None,
                decreases allv.len() - q,
            {
                map.push(None);
                q = q + 1;
            }
            proof {
                assert(map@ =~= soup_init(allv.len()).map);
                assert(sv@ =~= soup_init(allv.len()).verts);
                assert(st@ =~= soup_init(allv.len()).tris);
            }
            let tri_count = (soup.triangles_length / 3) as usize;
            let mut m: usize = 0;
            while m < tri_count
                invariant
                    soup == triangle_soups@[k as int],
                    soup_ok(allv, allt, soup),
                    m <= tri_count,
                    tri_count == soup.triangles_length as int / 3,
                    map@ == soup_run(allv, allt, soup, m as int).map,
                    sv@ == soup_run(allv, allt, soup, m as int).verts,
                    st@ == soup_run(allv, allt, soup, m as int).tris,
                decreases tri_count - m,
            {
                proof {
                    lemma_soup_run_wf(allv, allt, soup, m as int);
                    assert(3 * m + 2 < soup.triangles_length) by {
                        assert(soup.triangles_length % 3 == 0);
                    }
                }
                let ghost acc0 = soup_run(allv, allt, soup, m as int);
                let _tl = triangles.len();
                let i = (soup.triangles_offset as usize) + 3 * m;
                proof {
                    assert(allt[i as int] + soup.vertices_offset < allv.len());
                    assert(allt[i + 1] + soup.vertices_offset < allv.len());
                    assert(allt[i + 2] + soup.vertices_offset < allv.len());
                }
                let v0 = (triangles[i] as u32) + soup.vertices_offset;
                let t0 = match map[v0 as usize] {
                    Some(t) => t,
                    None => {
                        let t = sv.len() as u32;
                        map[v0 as usize] = Some(t);
                        sv.push(vertices[v0 as usize]);
                        t
                    },
                };
                let ghost acc1 = add_vert(acc0, allv, allt[i as int] + soup.vertices_offset).0;
                proof {
                    assert(map@ == acc1.map && sv@ == acc1.verts && st@ == acc1.tris);
                }
                let v1 = (triangles[i + 1] as u32) + soup.vertices_offset;
                let t1 = match map[v1 as usize] {
                    Some(t) => t,
                    None => {
                        let t = sv.len() as u32;
                        map[v1 as usize] = Some(t);
                        sv.push(vertices[v1 as usize]);
                        t
                    },
                };
                let ghost acc2 = add_vert(acc1, allv, allt[i + 1] + soup.vertices_offset).0;
                proof {
                    assert(map@ == acc2.map && sv@ == acc2.verts && st@ == acc2.tris);
                }
                let v2 = (triangles[i + 2] as u32) + soup.vertices_offset;
                let t2 = match map[v2 as usize] {
                    Some(t) => t,
                    None => {
                        let t = sv.len() as u32;
                        map[v2 as usize] = Some(t);
                        sv.push(vertices[v2 as usize]);
                        t
                    },
                };
                let ghost acc3 = add_vert(acc2, allv, allt[i + 2] + soup.vertices_offset).0;
                proof {
                    assert(map@ == acc3.map && sv@ == acc3.verts && st@ == acc3.tris);
                }
                st.push(t0);
                st.push(t2);
                st.push(t1);
                m = m + 1;
                proof {
                    assert(st@ =~= soup_run(allv, allt, soup, m as int).tris);
                    assert(map@ == soup_run(allv, allt, soup, m as int).map);
                    assert(sv@ == soup_run(allv, allt, soup, m as int).verts);
                }
            }
            surfaces.push(
                IbspSurface { material: surface_material, vertices: sv, triangles: st },
            );
            k = k + 1;
        }
        proof {
            assert forall|k2: int, t: int|
                0 <= k2 < surfaces@.len() && 0 <= t < (#[trigger] surfaces@[k2]).triangles@.len()
                    implies (#[trigger] surfaces@[k2].triangles@[t])
                < surfaces@[k2].vertices@.len() by {
                let soup = triangle_soups@[k2];
                lemma_soup_run_wf(allv, allt, soup, soup.triangles_length as int / 3);
            }
        }
        surfaces
    }
}


/// The version word of a map file.
pub open spec fn ibsp_version_word(s: Seq<u8>) -> i32 {
    le_u32(s, 4) as i32
}

/// The lump-table entry of the given kind, per the file's own version.
pub open spec fn ibsp_lump(s: Seq<u8>, kind: int) -> IbspLump {
    lump_at(s, lump_index(ibsp_version_word(s), kind))
}

/// Whether a fixed-record lump can be read whole.
pub open spec fn lump_read_ok(s: Seq<u8>, lump: IbspLump, size: int) -> bool {
    record_count(lump.length, size) == 0 || lump.offset + size * record_count(lump.length, size)
        <= s.len()
}

/// The record size of the vertex lump, per version.
pub open spec fn ibsp_vsize(s: Seq<u8>) -> int {
    if ibsp_version_word(s) == 0x4 {
        68
    } else {
        44
    }
}

/// The triangle-soup records of a map file.
pub open spec fn soups_spec(s: Seq<u8>) -> Seq<IbspTriangleSoup> {
    let lump = ibsp_lump(s, 1);
    Seq::new(record_count(lump.length, 16) as nat, |j: int| soup_at(s, lump.offset + 16 * j))
}

/// The vertex records of a map file.
pub open spec fn verts_spec(s: Seq<u8>) -> Seq<IbspVertex> {
    let lump = ibsp_lump(s, 2);
    Seq::new(
        record_count(lump.length, ibsp_vsize(s)) as nat,
        |j: int|
            if ibsp_version_word(s) == 0x4 {
                vertex_v4_at(s, lump.offset + 68 * j)
            } else {
                vertex_v59_at(s, lump.offset + 44 * j)
            },
    )
}

/// The flat triangle indices of a map file.
pub open spec fn tris_spec(s: Seq<u8>) -> Seq<u16> {
    let lump = ibsp_lump(s, 3);
    Seq::new((lump.length / 2) as nat, |j: int| le_u16(s, lump.offset + 2 * j))
}

/// Whether the triangle-index lump can be read whole.
pub open spec fn tris_read_ok(s: Seq<u8>) -> bool {
    let lump = ibsp_lump(s, 3);
    lump.length / 2 == 0 || lump.offset + 2 * (lump.length / 2) <= s.len()
}

/// Whether the entity lump can be read whole.
pub open spec fn ents_read_ok(s: Seq<u8>) -> bool {
    let lump = ibsp_lump(s, 4);
    lump.length == 0 || lump.offset + lump.length <= s.len()
}

/// The repaired entity document of a map file.
pub open spec fn ents_doc(s: Seq<u8>) -> Seq<u8> {
    repair_spec(ent_lump_bytes(s, ibsp_lump(s, 4)))
}

/// Whether the repaired entity document parses.
pub open spec fn ents_parse_ok(s: Seq<u8>) -> bool {
    &&& tokens_spec(ents_doc(s), 0) is Some
    &&& run_toks(tokens_spec(ents_doc(s), 0)->0).mode == 7
}

/// The retained placement entities of a map file.
pub open spec fn ents_spec(s: Seq<u8>) -> Seq<EntSpec> {
    ents_of(run_toks(tokens_spec(ents_doc(s), 0)->0).records)
}

/// Whether every soup addresses existing materials, triangles and vertices.
pub open spec fn ibsp_soups_ok(s: Seq<u8>) -> bool {
    forall|k: int|
        0 <= k < soups_spec(s).len() ==> (#[trigger] soups_spec(s)[k]).material_idx
            < record_count(ibsp_lump(s, 0).length, 72) && soup_ok(
            verts_spec(s),
            tris_spec(s),
            soups_spec(s)[k],
        )
}

/// A map file that decodes successfully end to end.
pub open spec fn ibsp_accepts(s: Seq<u8>) -> bool {
    &&& ibsp_header_ok(s)
    &&& s.len() >= 8 + 39 * 8
    &&& lump_read_ok(s, ibsp_lump(s, 0), 72)
    &&& lump_read_ok(s, ibsp_lump(s, 1), 16)
    &&& lump_read_ok(s, ibsp_lump(s, 2), ibsp_vsize(s))
    &&& tris_read_ok(s)
    &&& ents_read_ok(s)
    &&& ents_parse_ok(s)
    &&& ibsp_soups_ok(s)
}

/// The kind of the first failure the sequential decode runs into.
pub open spec fn ibsp_error(s: Seq<u8>) -> ErrorKind {
    if !ibsp_header_ok(s) {
        ibsp_header_error(s)
    } else if s.len() < 8 + 39 * 8 {
        ErrorKind::TruncatedInput
    } else if !lump_read_ok(s, ibsp_lump(s, 0), 72) {
        ErrorKind::TruncatedInput
    } else if !lump_read_ok(s, ibsp_lump(s, 1), 16) {
        ErrorKind::TruncatedInput
    } else if !lump_read_ok(s, ibsp_lump(s, 2), ibsp_vsize(s)) {
        ErrorKind::TruncatedInput
    } else if !tris_read_ok(s) {
        ErrorKind::TruncatedInput
    } else if !ents_read_ok(s) {
        ErrorKind::TruncatedInput
    } else if !ents_parse_ok(s) {
        ErrorKind::MalformedText
    } else {
        ErrorKind::InvalidFormat
    }
}

impl Ibsp {
    /// Decodes a whole map file.  The result is `Ok` exactly on the inputs
    /// `ibsp_accepts` describes; in particular a bad magic or an unsupported
    /// version fails with `InvalidFormat` and yields no partial structure.
    #[verifier::loop_isolation(false)]
    #[verifier::rlimit(100)]
    pub fn load(file_path: &str, data: Vec<u8>) -> (r: Result<Ibsp, Error>)
        requires
            data@.len() <= u32::MAX,
        ensures
            r is Ok <==> ibsp_accepts(data@),
            r matches Err(e) ==> e.kind == ibsp_error(data@),
            r matches Ok(ibsp) ==> ({
                let s = data@;
                &&& ibsp.name@ == stem(base_name(file_path@))
                &&& ibsp.version == ibsp_version_word(s)
                &&& ibsp.materials@.len() == record_count(ibsp_lump(s, 0).length, 72)
                &&& (forall|j: int|
                    0 <= j < ibsp.materials@.len() ==> (#[trigger] ibsp.materials@[j]).name_bytes()
                        == s.subrange(
                        ibsp_lump(s, 0).offset + 72 * j,
                        ibsp_lump(s, 0).offset + 72 * j + 64,
                    ) && ibsp.materials@[j].flag_value() == le_u64(
                        s,
                        ibsp_lump(s, 0).offset + 72 * j + 64,
                    ))
                &&& ibsp.entities@.len() == ents_spec(s).len()
                &&& (forall|k: int|
                    0 <= k < ibsp.entities@.len() ==> ent_matches(
                        &ibsp.entities@[k],
                        ents_spec(s)[k],
                    ))
                &&& ibsp.surfaces@.len() == soups_spec(s).len()
                &&& (forall|k: int|
                    0 <= k < ibsp.surfaces@.len() ==> {
                        let soup = soups_spec(s)[k];
                        let acc = soup_run(
                            verts_spec(s),
                            tris_spec(s),
                            soup,
                            soup.triangles_length as int / 3,
                        );
                        &&& (#[trigger] ibsp.surfaces@[k]).material@ == chars_of_bytes(
                            trim_zeros(ibsp.materials@[soup.material_idx as int].name_bytes()),
                        )
                        &&& ibsp.surfaces@[k].vertices@ == acc.verts
                        &&& ibsp.surfaces@[k].triangles@ == acc.tris
                    })
                &&& (forall|k: int, t: int|
                    0 <= k < ibsp.surfaces@.len() && 0 <= t
                        < (#[trigger] ibsp.surfaces@[k]).triangles@.len()
                        ==> (#[trigger] ibsp.surfaces@[k].triangles@[t])
                        < ibsp.surfaces@[k].vertices@.len())
            }),
    {
        let ghost s = data@;
        let name = crate::path::file_name_without_ext(file_path);
        let mut file = Reader::new(data);
        let header = match Self::read_header(&mut file) {
            Ok(h) => h,
            Err(e) => {
                return Err(e);
            },
        };
        let lumps = match Self::read_lumps(&mut file) {
            Ok(l) => l,
            Err(e) => {
                return Err(e);
            },
        };
        let materials = match Self::read_materials(&mut file, header.version, &lumps) {
            Ok(m) => m,
            Err(e) => {
                return Err(e);
            },
        };
        let triangle_soups = match Self::read_trianglesoups(&mut file, header.version, &lumps) {
            Ok(t) => t,
            Err(e) => {
                return Err(e);
            },
        };
        let vertices = match Self::read_vertices(&mut file, header.version, &lumps) {
            Ok(v) => v,
            Err(e) => {
                return Err(e);
            },
        };
        let triangles = match Self::read_triangles(&mut file, header.version, &lumps) {
            Ok(t) => t,
            Err(e) => {
                return Err(e);
            },
        };
        let entities = match Self::read_entities(&mut file, header.version, &lumps) {
            Ok(e) => e,
            Err(e) => {
                return Err(e);
            },
        };
        proof {
            assert(lumps@[lump_index(header.version, 0)] == ibsp_lump(s, 0));
            assert(triangle_soups@ =~= soups_spec(s));
            assert(vertices@ =~= verts_spec(s));
            assert(triangles@ =~= tris_spec(s));
        }
        if !Self::check_soups(&triangle_soups, materials.len(), vertices.len(), &triangles) {
            proof {
                assert(!ibsp_soups_ok(s)) by {
                    if ibsp_soups_ok(s) {
                        assert forall|k: int| 0 <= k < soups_spec(s).len() implies (
                        #[trigger] soups_spec(s)[k]).material_idx < record_count(
                            ibsp_lump(s, 0).length,
                            72,
                        ) && soup_ok(verts_spec(s), tris_spec(s), soups_spec(s)[k]) by {}
                        assert forall|k: int| 0 <= k < triangle_soups@.len() implies (
                        #[trigger] triangle_soups@[k]).material_idx < materials@.len() && soup_ok(
                            Seq::new(vertices@.len(), |q: int| arbitrary::<IbspVertex>()),
                            triangles@,
                            triangle_soups@[k],
                        ) by {
                            assert(soup_ok(verts_spec(s), tris_spec(s), soups_spec(s)[k]));
                            assert(soup_ok(
                                Seq::new(vertices@.len(), |q: int| arbitrary::<IbspVertex>()),
                                triangles@,
                                triangle_soups@[k],
                            ));
                        }
                        assert(false);
                    }
                }
            }
            return Err(
                Error::with_kind(
                    ErrorKind::InvalidFormat,
                    String::from_str("invalid triangle soup"),
                ),
            );
        }
        proof {
            assert forall|k: int| 0 <= k < triangle_soups@.len() implies (
            #[trigger] triangle_soups@[k]).material_idx < materials@.len() && soup_ok(
                vertices@,
                triangles@,
                triangle_soups@[k],
            ) by {
                let allv = Seq::new(vertices@.len(), |q: int| arbitrary::<IbspVertex>());
                assert(soup_ok(allv, triangles@, triangle_soups@[k]));
                assert(soup_ok(vertices@, triangles@, triangle_soups@[k]));
            }
        }
        let surfaces = Self::load_surfaces(triangle_soups, &materials, vertices, triangles);
        Ok(
            Ibsp {
                name,
                version: header.version,
                materials,
                entities,
                surfaces,
            },
        )
    }
}


} // verus!

