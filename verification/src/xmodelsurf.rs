//! Mesh decoding.
//!
//! A mesh file holds a version tag and a surface count; each surface holds
//! vertices and triangles in one of three version-specific layouts.  The
//! oldest stores triangles as compressed strips unrolled by a stateful walk
//! that skips degenerate triples; the later two store plain triples.  All
//! three append plain triples with reversed winding.  Per-vertex weighting
//! is keyed by a sentinel default-bone field (the newest generation instead
//! compares two redundant vertex counts).
//!
//! Positions, normals and texture coordinates stay IEEE 754 bit patterns;
//! texture coordinates keep their on-disk value (the oldest generation
//! flips V, which the embedding application applies).  A vertex's implied
//! first weight binds its `bone` at influence `1 - sum(extras)/65535`,
//! deliberately unclamped; this library records the extra weights' raw
//! influence fields and leaves that floating-point sum to the embedding
//! application, which also bakes vertices against a skeleton when one is
//! supplied.

use vstd::prelude::*;

use crate::binary::{le_u16, le_u32, Reader};
use crate::error::{Error, ErrorKind};
use crate::math::{ColorBytes, UvBits, Vec3Bits};
use crate::xmodel::{clamp, xmodel_version_of, XModelVersion};

verus! {

/// One extra vertex weight: a bone index and the raw influence field (a
/// 16-bit integer in the two later generations, an IEEE 754 bit pattern in
/// the oldest; both are divided by 65535 downstream).
#[derive(Clone, Copy, PartialEq, Eq, Structural)]
pub struct XModelSurfWeight {
    pub bone: u16,
    pub influence_raw: u32,
}

/// A mesh vertex as stored, plus its default bone and extra weights.
pub struct XModelSurfVertex {
    pub normal: Vec3Bits,
    pub color: ColorBytes,
    pub uv: UvBits,
    pub bone: u16,
    pub position: Vec3Bits,
    pub weights: Vec<XModelSurfWeight>,
}

/// One decoded surface.
pub struct XModelSurfSurface {
    pub vertices: Vec<XModelSurfVertex>,
    pub triangles: Vec<u16>,
}

/// A decoded mesh.
pub struct XModelSurf {
    pub name: String,
    pub version: u16,
    pub surfaces: Vec<XModelSurfSurface>,
}

/// The spec-level mirror of a vertex.
pub struct SVert {
    pub normal: Vec3Bits,
    pub color: ColorBytes,
    pub uv: UvBits,
    pub bone: u16,
    pub position: Vec3Bits,
    pub weights: Seq<XModelSurfWeight>,
}

/// The spec-level mirror of a surface.
pub struct SSurf {
    pub vertices: Seq<SVert>,
    pub triangles: Seq<u16>,
}

/// Whether an executable vertex stands for its spec mirror.
pub open spec fn vert_matches(v: &XModelSurfVertex, g: SVert) -> bool {
    &&& v.normal == g.normal
    &&& v.color == g.color
    &&& v.uv == g.uv
    &&& v.bone == g.bone
    &&& v.position == g.position
    &&& v.weights@ == g.weights
}

/// Whether an executable surface stands for its spec mirror.
pub open spec fn surf_matches(f: &XModelSurfSurface, g: SSurf) -> bool {
    &&& f.vertices@.len() == g.vertices.len()
    &&& (forall|i: int|
        0 <= i < g.vertices.len() ==> vert_matches(&(#[trigger] f.vertices@[i]), g.vertices[i]))
    &&& f.triangles@ == g.triangles
}

/// The weight-record stride of a version.
pub open spec fn weight_stride(v: XModelVersion) -> int {
    match v {
        XModelVersion::V14 => 18,
        XModelVersion::V20 => 16,
        _ => 4,
    }
}

/// The weight record at `base`: the oldest generation stores the influence
/// as an IEEE 754 field at offset 14, the middle as a 16-bit integer there,
/// the newest as a 16-bit integer at offset 2.
pub open spec fn weight_at(s: Seq<u8>, base: int, v: XModelVersion) -> XModelSurfWeight {
    match v {
        XModelVersion::V14 => XModelSurfWeight {
            bone: le_u16(s, base),
            influence_raw: le_u32(s, base + 14),
        },
        XModelVersion::V20 => XModelSurfWeight {
            bone: le_u16(s, base),
            influence_raw: le_u16(s, base + 14) as u32,
        },
        _ => XModelSurfWeight { bone: le_u16(s, base), influence_raw: le_u16(s, base + 2) as u32 },
    }
}

/// Parses `n` weight records at `pos`.
pub open spec fn weights_parse(s: Seq<u8>, pos: int, n: int, v: XModelVersion) -> Option<
    (Seq<XModelSurfWeight>, int),
>
    decreases n,
{
    if n <= 0 {
        Some((Seq::empty(), pos))
    } else if pos + weight_stride(v) > s.len() {
        None
    } else {
        match weights_parse(s, pos + weight_stride(v), n - 1, v) {
            None => None,
            Some((rest, end)) => Some((seq![weight_at(s, pos, v)] + rest, end)),
        }
    }
}

/// The interior of one strip group: alternating reads that keep the last
/// two indices and emit a triple per step, skipping degenerate ones.
pub open spec fn strip_inner(
    s: Seq<u8>,
    pos: int,
    count: u8,
    i: int,
    idx2: u16,
    idx3: u16,
    acc: Seq<u16>,
) -> Option<(Seq<u16>, int)>
    decreases count - i,
{
    if i >= count {
        Some((acc, pos))
    } else if pos + 2 > s.len() {
        None
    } else {
        let idx4 = idx3;
        let idx5 = le_u16(s, pos);
        let acc1 = if idx4 != idx2 && idx4 != idx5 && idx2 != idx5 {
            acc + seq![idx5, idx2, idx4]
        } else {
            acc
        };
        if i + 1 >= count {
            Some((acc1, pos + 2))
        } else if pos + 4 > s.len() {
            None
        } else {
            let idx2b = idx5;
            let idx3b = le_u16(s, pos + 2);
            let acc2 = if idx4 != idx2b && idx4 != idx3b && idx2b != idx3b {
                acc1 + seq![idx3b, idx2b, idx4]
            } else {
                acc1
            };
            strip_inner(s, pos + 4, count, i + 2, idx2b, idx3b, acc2)
        }
    }
}

proof fn lemma_strip_inner_advances(
    s: Seq<u8>,
    pos: int,
    count: u8,
    i: int,
    idx2: u16,
    idx3: u16,
    acc: Seq<u16>,
)
    requires
        0 <= pos <= s.len(),
        strip_inner(s, pos, count, i, idx2, idx3, acc) is Some,
    ensures
        pos <= (strip_inner(s, pos, count, i, idx2, idx3, acc)->0).1 <= s.len(),
    decreases count - i,
{
    if i < count && pos + 2 <= s.len() {
        let idx4 = idx3;
        let idx5 = le_u16(s, pos);
        let acc1 = if idx4 != idx2 && idx4 != idx5 && idx2 != idx5 {
            acc + seq![idx5, idx2, idx4]
        } else {
            acc
        };
        if !(i + 1 >= count) && pos + 4 <= s.len() {
            let idx2b = idx5;
            let idx3b = le_u16(s, pos + 2);
            let acc2 = if idx4 != idx2b && idx4 != idx3b && idx2b != idx3b {
                acc1 + seq![idx3b, idx2b, idx4]
            } else {
                acc1
            };
            lemma_strip_inner_advances(s, pos + 4, count, i + 2, idx2b, idx3b, acc2);
        }
    }
}

/// One whole strip group: a group length, an initial triple, then the
/// interior walk.
pub open spec fn strip_group(s: Seq<u8>, pos: int, acc: Seq<u16>) -> Option<(Seq<u16>, int)> {
    if pos + 7 > s.len() {
        None
    } else {
        let count = s[pos];
        let idx1 = le_u16(s, pos + 1);
        let idx2 = le_u16(s, pos + 3);
        let idx3 = le_u16(s, pos + 5);
        let acc1 = if idx1 != idx2 && idx1 != idx3 && idx2 != idx3 {
            acc + seq![idx3, idx2, idx1]
        } else {
            acc
        };
        strip_inner(s, pos + 7, count, 3, idx2, idx3, acc1)
    }
}

/// Unrolls strip groups until the declared triangle count is reached; at
/// least one group is always read.
pub open spec fn strip_parse(s: Seq<u8>, pos: int, tc: u16, acc: Seq<u16>) -> Option<
    (Seq<u16>, int),
>
    decreases s.len() - pos,
    when 0 <= pos
    via strip_parse_dec
{
    match strip_group(s, pos, acc) {
        None => None,
        Some((acc1, pos1)) => if acc1.len() / 3 >= tc as int {
            Some((acc1, pos1))
        } else {
            strip_parse(s, pos1, tc, acc1)
        },
    }
}

#[via_fn]
proof fn strip_parse_dec(s: Seq<u8>, pos: int, tc: u16, acc: Seq<u16>) {
    if strip_group(s, pos, acc) is Some {
        if pos + 7 <= s.len() {
            let count = s[pos];
            let idx2 = le_u16(s, pos + 3);
            let idx3 = le_u16(s, pos + 5);
            let idx1 = le_u16(s, pos + 1);
            let acc1 = if idx1 != idx2 && idx1 != idx3 && idx2 != idx3 {
                acc + seq![idx3, idx2, idx1]
            } else {
                acc
            };
            if strip_inner(s, pos + 7, count, 3, idx2, idx3, acc1) is Some {
                lemma_strip_inner_advances(s, pos + 7, count, 3, idx2, idx3, acc1);
            }
        }
    }
}

/// The flat reversed-winding triangle element `k` of a plain triple list at
/// `pos`: on-disk `(a, b, c)` is stored as `(a, c, b)`.
pub open spec fn tris_at(s: Seq<u8>, pos: int, k: int) -> u16 {
    let m = k / 3;
    let r = k % 3;
    if r == 0 {
        le_u16(s, pos + 6 * m)
    } else if r == 1 {
        le_u16(s, pos + 6 * m + 4)
    } else {
        le_u16(s, pos + 6 * m + 2)
    }
}

/// The whole flattened reversed-winding triple list.
pub open spec fn tri_seq(s: Seq<u8>, pos: int, tc: u16) -> Seq<u16> {
    Seq::new((3 * tc) as nat, |k: int| tris_at(s, pos, k))
}

/// One vertex of the middle generation.
pub open spec fn v20_vertex_parse(s: Seq<u8>, pos: int, rigged: bool, default_bone: u16) -> Option<
    (SVert, int),
> {
    if pos + 24 > s.len() {
        None
    } else {
        let normal = [le_u32(s, pos), le_u32(s, pos + 4), le_u32(s, pos + 8)];
        let color = [s[pos + 12], s[pos + 13], s[pos + 14], s[pos + 15]];
        let uv = [le_u32(s, pos + 16), le_u32(s, pos + 20)];
        let p2 = clamp(s, pos + 48);
        if rigged {
            if p2 + 3 > s.len() {
                None
            } else {
                let wc = s[p2];
                let vb = le_u16(s, p2 + 1);
                if p2 + 15 > s.len() {
                    None
                } else {
                    let position = [le_u32(s, p2 + 3), le_u32(s, p2 + 7), le_u32(s, p2 + 11)];
                    if wc > 0 {
                        match weights_parse(s, clamp(s, p2 + 16), wc as int, XModelVersion::V20) {
                            None => None,
                            Some((ws, end)) => Some(
                                (
                                    SVert {
                                        normal,
                                        color,
                                        uv,
                                        bone: vb,
                                        position,
                                        weights: ws,
                                    },
                                    end,
                                ),
                            ),
                        }
                    } else {
                        Some(
                            (
                                SVert {
                                    normal,
                                    color,
                                    uv,
                                    bone: vb,
                                    position,
                                    weights: Seq::empty(),
                                },
                                p2 + 15,
                            ),
                        )
                    }
                }
            }
        } else {
            if p2 + 12 > s.len() {
                None
            } else {
                let position = [le_u32(s, p2), le_u32(s, p2 + 4), le_u32(s, p2 + 8)];
                Some(
                    (
                        SVert {
                            normal,
                            color,
                            uv,
                            bone: default_bone,
                            position,
                            weights: Seq::empty(),
                        },
                        p2 + 12,
                    ),
                )
            }
        }
    }
}

/// One vertex of the newest generation: the same prefix, but weights are
/// bare pairs and follow the position immediately.
pub open spec fn v25_vertex_parse(s: Seq<u8>, pos: int, rigged: bool) -> Option<(SVert, int)> {
    if pos + 24 > s.len() {
        None
    } else {
        let normal = [le_u32(s, pos), le_u32(s, pos + 4), le_u32(s, pos + 8)];
        let color = [s[pos + 12], s[pos + 13], s[pos + 14], s[pos + 15]];
        let uv = [le_u32(s, pos + 16), le_u32(s, pos + 20)];
        let p2 = clamp(s, pos + 48);
        if rigged {
            if p2 + 3 > s.len() {
                None
            } else {
                let wc = s[p2];
                let vb = le_u16(s, p2 + 1);
                if p2 + 15 > s.len() {
                    None
                } else {
                    let position = [le_u32(s, p2 + 3), le_u32(s, p2 + 7), le_u32(s, p2 + 11)];
                    if wc > 0 {
                        match weights_parse(s, p2 + 15, wc as int, XModelVersion::V25) {
                            None => None,
                            Some((ws, end)) => Some(
                                (
                                    SVert {
                                        normal,
                                        color,
                                        uv,
                                        bone: vb,
                                        position,
                                        weights: ws,
                                    },
                                    end,
                                ),
                            ),
                        }
                    } else {
                        Some(
                            (
                                SVert {
                                    normal,
                                    color,
                                    uv,
                                    bone: vb,
                                    position,
                                    weights: Seq::empty(),
                                },
                                p2 + 15,
                            ),
                        )
                    }
                }
            }
        } else {
            if p2 + 12 > s.len() {
                None
            } else {
                let position = [le_u32(s, p2), le_u32(s, p2 + 4), le_u32(s, p2 + 8)];
                Some(
                    (
                        SVert {
                            normal,
                            color,
                            uv,
                            bone: 0,
                            position,
                            weights: Seq::empty(),
                        },
                        p2 + 12,
                    ),
                )
            }
        }
    }
}

/// `n` vertices of the middle or newest generation.
pub open spec fn later_verts_parse(
    s: Seq<u8>,
    pos: int,
    n: int,
    rigged: bool,
    default_bone: u16,
    v25: bool,
) -> Option<(Seq<SVert>, int)>
    decreases n,
{
    if n <= 0 {
        Some((Seq::empty(), pos))
    } else {
        let one = if v25 {
            v25_vertex_parse(s, pos, rigged)
        } else {
            v20_vertex_parse(s, pos, rigged, default_bone)
        };
        match one {
            None => None,
            Some((vert, p2)) => match later_verts_parse(s, p2, n - 1, rigged, default_bone, v25) {
                None => None,
                Some((rest, end)) => Some((seq![vert] + rest, end)),
            },
        }
    }
}

/// One surface of the middle generation.
pub open spec fn v20_surface_parse(s: Seq<u8>, pos: int) -> Option<(SSurf, int)> {
    let p1 = clamp(s, pos + 1);
    if p1 + 6 > s.len() {
        None
    } else {
        let vc = le_u16(s, p1);
        let tc = le_u16(s, p1 + 2);
        let og = le_u16(s, p1 + 4);
        let rigged = og == 65535;
        let vstart = if rigged {
            clamp(s, p1 + 8)
        } else {
            p1 + 6
        };
        let default_bone: u16 = if rigged {
            0
        } else {
            og
        };
        match later_verts_parse(s, vstart, vc as int, rigged, default_bone, false) {
            None => None,
            Some((verts, vend)) => if vend + 6 * tc > s.len() {
                None
            } else {
                Some((SSurf { vertices: verts, triangles: tri_seq(s, vend, tc) }, vend + 6 * tc))
            },
        }
    }
}

/// The position after a zero 16-bit marker scanned from `pos`.
pub open spec fn scan_u16_zero(s: Seq<u8>, pos: int) -> Option<int>
    decreases s.len() - pos,
    when 0 <= pos
{
    if pos + 2 > s.len() {
        None
    } else if le_u16(s, pos) == 0 {
        Some(pos + 2)
    } else {
        scan_u16_zero(s, pos + 2)
    }
}

/// One surface of the newest generation.
pub open spec fn v25_surface_parse(s: Seq<u8>, pos: int) -> Option<(SSurf, int)> {
    let p1 = clamp(s, pos + 3);
    if p1 + 6 > s.len() {
        None
    } else {
        let vc = le_u16(s, p1);
        let tc = le_u16(s, p1 + 2);
        let vc2 = le_u16(s, p1 + 4);
        let rigged = vc != vc2;
        let vstart_opt: Option<int> = if rigged {
            if vc2 != 0 {
                match scan_u16_zero(s, clamp(s, p1 + 8)) {
                    None => None,
                    Some(z) => Some(clamp(s, z + 2)),
                }
            } else {
                Some(clamp(s, p1 + 8))
            }
        } else {
            Some(clamp(s, p1 + 10))
        };
        match vstart_opt {
            None => None,
            Some(vstart) => match later_verts_parse(s, vstart, vc as int, rigged, 0, true) {
                None => None,
                Some((verts, vend)) => if vend + 6 * tc > s.len() {
                    None
                } else {
                    Some(
                        (SSurf { vertices: verts, triangles: tri_seq(s, vend, tc) }, vend + 6 * tc),
                    )
                },
            },
        }
    }
}

/// One first-pass vertex of the oldest generation: no color on disk (it is
/// constant white) and an explicit weight-count slot when the surface is
/// rigged.
pub open spec fn v14_vertex_parse(s: Seq<u8>, pos: int, rigged: bool, default_bone: u16) -> Option<
    ((SVert, u16), int),
> {
    if pos + 20 > s.len() {
        None
    } else {
        let normal = [le_u32(s, pos), le_u32(s, pos + 4), le_u32(s, pos + 8)];
        let uv = [le_u32(s, pos + 12), le_u32(s, pos + 16)];
        if rigged {
            if pos + 24 > s.len() {
                None
            } else {
                let wc = le_u16(s, pos + 20);
                let vb = le_u16(s, pos + 22);
                if pos + 36 > s.len() {
                    None
                } else {
                    let position = [le_u32(s, pos + 24), le_u32(s, pos + 28), le_u32(s, pos + 32)];
                    let end = if wc != 0 {
                        clamp(s, pos + 40)
                    } else {
                        pos + 36
                    };
                    Some(
                        (
                            (
                                SVert {
                                    normal,
                                    color: [255u8, 255u8, 255u8, 255u8],
                                    uv,
                                    bone: vb,
                                    position,
                                    weights: Seq::empty(),
                                },
                                wc,
                            ),
                            end,
                        ),
                    )
                }
            }
        } else {
            if pos + 32 > s.len() {
                None
            } else {
                let position = [le_u32(s, pos + 20), le_u32(s, pos + 24), le_u32(s, pos + 28)];
                Some(
                    (
                        (
                            SVert {
                                normal,
                                color: [255u8, 255u8, 255u8, 255u8],
                                uv,
                                bone: default_bone,
                                position,
                                weights: Seq::empty(),
                            },
                            0u16,
                        ),
                        pos + 32,
                    ),
                )
            }
        }
    }
}

/// `n` first-pass vertices of the oldest generation.
pub open spec fn v14_verts_parse(
    s: Seq<u8>,
    pos: int,
    n: int,
    rigged: bool,
    default_bone: u16,
) -> Option<(Seq<(SVert, u16)>, int)>
    decreases n,
{
    if n <= 0 {
        Some((Seq::empty(), pos))
    } else {
        match v14_vertex_parse(s, pos, rigged, default_bone) {
            None => None,
            Some((vert, p2)) => match v14_verts_parse(s, p2, n - 1, rigged, default_bone) {
                None => None,
                Some((rest, end)) => Some((seq![vert] + rest, end)),
            },
        }
    }
}

/// The second pass of the oldest generation: each vertex's reserved weight
/// slots are filled in index order.
pub open spec fn v14_weights_pass(s: Seq<u8>, pos: int, verts: Seq<(SVert, u16)>, i: int) -> Option<
    (Seq<SVert>, int),
>
    decreases verts.len() - i,
{
    if i >= verts.len() {
        Some((Seq::empty(), pos))
    } else {
        match weights_parse(s, pos, verts[i].1 as int, XModelVersion::V14) {
            None => None,
            Some((ws, p2)) => match v14_weights_pass(s, p2, verts, i + 1) {
                None => None,
                Some((rest, end)) => Some(
                    (seq![SVert { weights: ws, ..verts[i].0 }] + rest, end),
                ),
            },
        }
    }
}

/// One surface of the oldest generation: a strip-unrolled triangle list,
/// then the vertex array, then the weight records.
pub open spec fn v14_surface_parse(s: Seq<u8>, pos: int) -> Option<(SSurf, int)> {
    let p1 = clamp(s, pos + 1);
    if p1 + 4 > s.len() {
        None
    } else {
        let vc = le_u16(s, p1);
        let tc = le_u16(s, p1 + 2);
        let p2 = clamp(s, p1 + 6);
        if p2 + 2 > s.len() {
            None
        } else {
            let og = le_u16(s, p2);
            let rigged = og == 65535;
            let p3 = if rigged {
                clamp(s, p2 + 6)
            } else {
                p2 + 2
            };
            let default_bone: u16 = if rigged {
                0
            } else {
                og
            };
            match strip_parse(s, p3, tc, Seq::empty()) {
                None => None,
                Some((tris, p4)) => match v14_verts_parse(s, p4, vc as int, rigged, default_bone) {
                    None => None,
                    Some((vw, p5)) => match v14_weights_pass(s, p5, vw, 0) {
                        None => None,
                        Some((verts, end)) => Some((SSurf { vertices: verts, triangles: tris }, end)),
                    },
                },
            }
        }
    }
}

/// `n` surfaces of the given version.
pub open spec fn surfs_parse(s: Seq<u8>, pos: int, n: int, v: XModelVersion) -> Option<
    (Seq<SSurf>, int),
>
    decreases n,
{
    if n <= 0 {
        Some((Seq::empty(), pos))
    } else {
        let one = match v {
            XModelVersion::V14 => v14_surface_parse(s, pos),
            XModelVersion::V20 => v20_surface_parse(s, pos),
            _ => v25_surface_parse(s, pos),
        };
        match one {
            None => None,
            Some((surf, p2)) => match surfs_parse(s, p2, n - 1, v) {
                None => None,
                Some((rest, end)) => Some((seq![surf] + rest, end)),
            },
        }
    }
}

/// A mesh file that decodes end to end: a supported pre-newest-generation
/// version tag, a surface count, and that many parsable surfaces.
pub open spec fn surf_accepts(s: Seq<u8>) -> bool {
    &&& s.len() >= 4
    &&& (xmodel_version_of(le_u16(s, 0)) matches Some(v) && v != XModelVersion::V62)
    &&& surfs_parse(s, 4, le_u16(s, 2) as int, xmodel_version_of(le_u16(s, 0))->0) is Some
}

/// The kind of the first failure the sequential decode runs into.
pub open spec fn surf_error(s: Seq<u8>) -> ErrorKind {
    if s.len() < 2 {
        ErrorKind::TruncatedInput
    } else if !(xmodel_version_of(le_u16(s, 0)) matches Some(v) && v != XModelVersion::V62) {
        ErrorKind::InvalidFormat
    } else {
        ErrorKind::TruncatedInput
    }
}

/// The fixed fields of one first-pass vertex of the oldest generation.
#[derive(Clone, Copy)]
struct V14Raw {
    normal: Vec3Bits,
    uv: UvBits,
    bone: u16,
    position: Vec3Bits,
    wc: u16,
}

/// Whether a first-pass raw vertex stands for its spec mirror (whose color
/// is constant white and whose weights are still empty).
spec fn raw_matches(raw: V14Raw, g: SVert) -> bool {
    &&& raw.normal == g.normal
    &&& g.color == [255u8, 255u8, 255u8, 255u8]
    &&& raw.uv == g.uv
    &&& raw.bone == g.bone
    &&& raw.position == g.position
    &&& g.weights == Seq::<XModelSurfWeight>::empty()
}

impl XModelSurf {
    /// Reads `n` weight records in the given version's layout.
    #[verifier::loop_isolation(false)]
    fn read_weights(file: &mut Reader, n: u16, v: XModelVersion) -> (r: Result<
        Vec<XModelSurfWeight>,
        Error,
    >)
        requires
            old(file).wf(),
        ensures
            final(file).bytes() == old(file).bytes(),
            final(file).wf(),
            ({
                let s = old(file).bytes();
                let p = weights_parse(s, old(file).cursor(), n as int, v);
                &&& (r is Ok <==> p is Some)
                &&& (r matches Ok(ws) ==> p matches Some(g) && ws@ == g.0 && final(file).cursor()
                    == g.1)
                &&& (r matches Err(e) ==> e.kind == ErrorKind::TruncatedInput)
            }),
    {
        let ghost s = old(file).bytes();
        let ghost pos0 = old(file).cursor();
        let mut ws: Vec<XModelSurfWeight> = Vec::new();
        let mut i: usize = 0;
        while i < n as usize
            invariant
                file.wf(),
                file.bytes() == s,
                i <= n as int,
                ws@.len() == i,
                ({
                    let p = weights_parse(s, pos0, n as int, v);
                    let q = weights_parse(s, file.cursor(), n - i, v);
                    &&& (q is Some ==> p is Some && (p->0).1 == (q->0).1 && (p->0).0 =~= ws@
                        + (q->0).0)
                    &&& (q is None ==> p is None)
                }),
            decreases n as int - i,
        {
            let ghost qpos = file.cursor();
            let bone = match file.read_u16() {
                Ok(b) => b,
                Err(e) => {
                    proof {
                        assert(weights_parse(s, qpos, (n - i) as int, v) is None);
                    }
                    return Err(e);
                },
            };
            let influence_raw: u32 = match v {
                XModelVersion::V14 => {
                    file.skip(12);
                    match file.read_u32() {
                        Ok(w) => w,
                        Err(e) => {
                            proof {
                                assert(weights_parse(s, qpos, (n - i) as int, v) is None);
                            }
                            return Err(e);
                        },
                    }
                },
                XModelVersion::V20 => {
                    file.skip(12);
                    match file.read_u16() {
                        Ok(w) => w as u32,
                        Err(e) => {
                            proof {
                                assert(weights_parse(s, qpos, (n - i) as int, v) is None);
                            }
                            return Err(e);
                        },
                    }
                },
                _ => {
                    match file.read_u16() {
                        Ok(w) => w as u32,
                        Err(e) => {
                            proof {
                                assert(weights_parse(s, qpos, (n - i) as int, v) is None);
                            }
                            return Err(e);
                        },
                    }
                },
            };
            ws.push(XModelSurfWeight { bone, influence_raw });
            i = i + 1;
            proof {
                let qk = (n - (i - 1)) as int;
                let q_old = weights_parse(s, qpos, qk, v);
                let q_new = weights_parse(s, file.cursor(), qk - 1, v);
                assert(file.cursor() == qpos + weight_stride(v));
                if q_new is Some {
                    assert(q_old is Some);
                    assert((q_old->0).0 =~= seq![weight_at(s, qpos, v)] + (q_new->0).0);
                    assert(ws@.last() == weight_at(s, qpos, v));
                    assert(ws@ + (q_new->0).0 =~= ws@.drop_last() + (q_old->0).0);
                } else {
                    assert(q_old is None);
                }
            }
        }
        proof {
            assert(ws@ + Seq::<XModelSurfWeight>::empty() =~= ws@);
        }
        Ok(ws)
    }

    /// Reads one vertex in the middle or newest generation's layout.
    #[verifier::loop_isolation(false)]
    fn read_vertex_later(file: &mut Reader, rigged: bool, default_bone: u16, v25: bool) -> (r:
        Result<XModelSurfVertex, Error>)
        requires
            old(file).wf(),
        ensures
            final(file).bytes() == old(file).bytes(),
            final(file).wf(),
            ({
                let s = old(file).bytes();
                let p = if v25 {
                    v25_vertex_parse(s, old(file).cursor(), rigged)
                } else {
                    v20_vertex_parse(s, old(file).cursor(), rigged, default_bone)
                };
                &&& (r is Ok <==> p is Some)
                &&& (r matches Ok(vert) ==> p matches Some(g) && vert_matches(&vert, g.0)
                    && final(file).cursor() == g.1)
                &&& (r matches Err(e) ==> e.kind == ErrorKind::TruncatedInput)
            }),
    {
        let ghost s = old(file).bytes();
        let nx = match file.read_f32_bits() {
            Ok(w) => w,
            Err(e) => {
                return Err(e);
            },
        };
        let ny = match file.read_f32_bits() {
            Ok(w) => w,
            Err(e) => {
                return Err(e);
            },
        };
        let nz = match file.read_f32_bits() {
            Ok(w) => w,
            Err(e) => {
                return Err(e);
            },
        };
        let cb = match file.read_bytes(4) {
            Ok(c) => c,
            Err(e) => {
                return Err(e);
            },
        };
        let u = match file.read_f32_bits() {
            Ok(w) => w,
            Err(e) => {
                return Err(e);
            },
        };
        let w = match file.read_f32_bits() {
            Ok(w) => w,
            Err(e) => {
                return Err(e);
            },
        };
        file.skip(24);
        let (weight_count, vertex_bone): (u8, u16) = if rigged {
            let wc = match file.read_u8() {
                Ok(b) => b,
                Err(e) => {
                    return Err(e);
                },
            };
            let vb = match file.read_u16() {
                Ok(b) => b,
                Err(e) => {
                    return Err(e);
                },
            };
            (wc, vb)
        } else {
            (
                0,
                if v25 {
                    0u16
                } else {
                    default_bone
                },
            )
        };
        let px = match file.read_f32_bits() {
            Ok(v) => v,
            Err(e) => {
                return Err(e);
            },
        };
        let py = match file.read_f32_bits() {
            Ok(v) => v,
            Err(e) => {
                return Err(e);
            },
        };
        let pz = match file.read_f32_bits() {
            Ok(v) => v,
            Err(e) => {
                return Err(e);
            },
        };
        let weights: Vec<XModelSurfWeight> = if weight_count > 0 {
            if !v25 {
                file.skip(1);
            }
            match Self::read_weights(
                file,
                weight_count as u16,
                if v25 {
                    XModelVersion::V25
                } else {
                    XModelVersion::V20
                },
            ) {
                Ok(ws) => ws,
                Err(e) => {
                    return Err(e);
                },
            }
        } else {
            Vec::new()
        };
        let vert = XModelSurfVertex {
            normal: [nx, ny, nz],
            color: [cb[0], cb[1], cb[2], cb[3]],
            uv: [u, w],
            bone: vertex_bone,
            position: [px, py, pz],
            weights,
        };
        proof {
            let pos = old(file).cursor();
            let p2 = clamp(s, pos + 48);
            if v25 {
                let g = v25_vertex_parse(s, pos, rigged)->0;
                assert(vert.normal == g.0.normal);
                assert(vert.color == g.0.color);
                assert(vert.uv == g.0.uv);
                assert(vert.bone == g.0.bone);
                assert(vert.position == g.0.position);
                assert(vert.weights@ == g.0.weights);
                assert(file.cursor() == g.1);
            } else {
                let g = v20_vertex_parse(s, pos, rigged, default_bone)->0;
                assert(vert.normal == g.0.normal);
                assert(vert.color == g.0.color);
                assert(vert.uv == g.0.uv);
                assert(vert.bone == g.0.bone);
                assert(vert.position == g.0.position);
                assert(vert.weights@ == g.0.weights);
                assert(file.cursor() == g.1);
            }
        }
        Ok(vert)
    }

    /// Reads a plain triple list of `tc` triangles, reversing each
    /// triple's winding.
    #[verifier::loop_isolation(false)]
    fn read_tris(file: &mut Reader, tc: u16) -> (r: Result<Vec<u16>, Error>)
        requires
            old(file).wf(),
        ensures
            final(file).bytes() == old(file).bytes(),
            final(file).wf(),
            r is Ok <==> old(file).cursor() + 6 * tc <= old(file).bytes().len(),
            r matches Ok(ts) ==> (ts@ == tri_seq(old(file).bytes(), old(file).cursor(), tc)
                && final(file).cursor() == old(file).cursor() + 6 * tc),
            r matches Err(e) ==> e.kind == ErrorKind::TruncatedInput,
    {
        let ghost s = old(file).bytes();
        let ghost pos0 = old(file).cursor();
        if 6 * (tc as u64) > (file.len() as u64) - (file.tell() as u64) {
            return Err(Error::with_kind(ErrorKind::TruncatedInput, String::new()));
        }
        let mut ts: Vec<u16> = Vec::new();
        let mut m: usize = 0;
        while m < tc as usize
            invariant
                file.wf(),
                file.bytes() == s,
                m <= tc as int,
                pos0 + 6 * tc <= s.len(),
                file.cursor() == pos0 + 6 * m,
                ts@.len() == 3 * m,
                forall|k: int| 0 <= k < 3 * m ==> #[trigger] ts@[k] == tris_at(s, pos0, k),
            decreases tc as int - m,
        {
            let a = match file.read_u16() {
                Ok(t) => t,
                Err(e) => {
                    proof {
                        assert(false);
                    }
                    return Err(e);
                },
            };
            let b = match file.read_u16() {
                Ok(t) => t,
                Err(e) => {
                    proof {
                        assert(false);
                    }
                    return Err(e);
                },
            };
            let c = match file.read_u16() {
                Ok(t) => t,
                Err(e) => {
                    proof {
                        assert(false);
                    }
                    return Err(e);
                },
            };
            ts.push(a);
            ts.push(c);
            ts.push(b);
            m = m + 1;
            proof {
                assert((3 * (m - 1)) / 3 == m - 1 && (3 * (m - 1)) % 3 == 0) by (nonlinear_arith);
                assert((3 * (m - 1) + 1) / 3 == m - 1 && (3 * (m - 1) + 1) % 3 == 1)
                    by (nonlinear_arith);
                assert((3 * (m - 1) + 2) / 3 == m - 1 && (3 * (m - 1) + 2) % 3 == 2)
                    by (nonlinear_arith);
                assert(ts@[3 * (m - 1)] == tris_at(s, pos0, 3 * (m - 1)));
                assert(ts@[3 * (m - 1) + 1] == tris_at(s, pos0, 3 * (m - 1) + 1));
                assert(ts@[3 * (m - 1) + 2] == tris_at(s, pos0, 3 * (m - 1) + 2));
            }
        }
        proof {
            assert(ts@ =~= tri_seq(s, pos0, tc));
        }
        Ok(ts)
    }


    /// Reads `vc` vertices of the middle or newest generation.
    #[verifier::loop_isolation(false)]
    #[verifier::rlimit(100)]
    fn read_later_verts(
        file: &mut Reader,
        vc: u16,
        rigged: bool,
        default_bone: u16,
        v25: bool,
    ) -> (r: Result<Vec<XModelSurfVertex>, Error>)
        requires
            old(file).wf(),
        ensures
            final(file).bytes() == old(file).bytes(),
            final(file).wf(),
            ({
                let s = old(file).bytes();
                let p = later_verts_parse(s, old(file).cursor(), vc as int, rigged, default_bone, v25);
                &&& (r is Ok <==> p is Some)
                &&& (r matches Ok(vs) ==> p matches Some(g) && vs@.len() == g.0.len()
                    && final(file).cursor() == g.1 && (forall|j: int|
                    0 <= j < g.0.len() ==> vert_matches(&(#[trigger] vs@[j]), g.0[j])))
                &&& (r matches Err(e) ==> e.kind == ErrorKind::TruncatedInput)
            }),
    {
        let ghost s = old(file).bytes();
        let ghost vpos0 = old(file).cursor();
        let mut vertices: Vec<XModelSurfVertex> = Vec::new();
        let mut i: usize = 0;
        while i < vc as usize
            invariant
                file.wf(),
                file.bytes() == s,
                i <= vc as int,
                vertices@.len() == i,
                ({
                    let p = later_verts_parse(s, vpos0, vc as int, rigged, default_bone, v25);
                    let q = later_verts_parse(s, file.cursor(), vc - i, rigged, default_bone, v25);
                    &&& (q is Some ==> p is Some && (p->0).1 == (q->0).1 && (p->0).0.len() == i
                        + (q->0).0.len() && (forall|j: int|
                        0 <= j < i ==> vert_matches(&(#[trigger] vertices@[j]), (p->0).0[j])) && (
                    forall|j: int|
                        0 <= j < (q->0).0.len() ==> #[trigger] (q->0).0[j] == (p->0).0[i + j]))
                    &&& (q is None ==> p is None)
                }),
            decreases vc as int - i,
        {
            let ghost qpos = file.cursor();
            let vert = match Self::read_vertex_later(file, rigged, default_bone, v25) {
                Ok(v) => v,
                Err(e) => {
                    return Err(e);
                },
            };
            vertices.push(vert);
            i = i + 1;
            proof {
                let qk = (vc - (i - 1)) as int;
                let q_old = later_verts_parse(s, qpos, qk, rigged, default_bone, v25);
                let vp = if v25 {
                    v25_vertex_parse(s, qpos, rigged)
                } else {
                    v20_vertex_parse(s, qpos, rigged, default_bone)
                };
                assert(vp is Some);
                let q_new = later_verts_parse(s, (vp->0).1, qk - 1, rigged, default_bone, v25);
                if q_new is Some {
                    assert(q_old is Some);
                    assert((q_old->0).0 =~= seq![(vp->0).0] + (q_new->0).0);
                    assert((q_old->0).0[0] == (vp->0).0);
                    let p = later_verts_parse(s, vpos0, vc as int, rigged, default_bone, v25);
                    assert(p is Some);
                    assert((q_old->0).0[0] == (p->0).0[i - 1 + 0]);
                    assert(vert_matches(&vertices@[i - 1], (p->0).0[i - 1]));
                    assert forall|j: int| 0 <= j < (q_new->0).0.len() implies #[trigger] (
                    q_new->0).0[j] == (p->0).0[i + j] by {
                        assert((q_old->0).0[j + 1] == (p->0).0[i - 1 + (j + 1)]);
                        assert((q_old->0).0[j + 1] == (q_new->0).0[j]);
                    }
                } else {
                    assert(q_old is None);
                }
            }
        }
        Ok(vertices)
    }

    /// Reads one surface of the middle generation.
    #[verifier::loop_isolation(false)]
    #[verifier::rlimit(100)]
    fn read_surface_v20(file: &mut Reader) -> (r: Result<XModelSurfSurface, Error>)
        requires
            old(file).wf(),
        ensures
            final(file).bytes() == old(file).bytes(),
            final(file).wf(),
            ({
                let s = old(file).bytes();
                let p = v20_surface_parse(s, old(file).cursor());
                &&& (r is Ok <==> p is Some)
                &&& (r matches Ok(surf) ==> p matches Some(g) && surf_matches(&surf, g.0)
                    && final(file).cursor() == g.1)
                &&& (r matches Err(e) ==> e.kind == ErrorKind::TruncatedInput)
            }),
    {
        let ghost s = old(file).bytes();
        file.skip(1);
        let vc = match file.read_u16() {
            Ok(v) => v,
            Err(e) => {
                return Err(e);
            },
        };
        let tc = match file.read_u16() {
            Ok(v) => v,
            Err(e) => {
                return Err(e);
            },
        };
        let og = match file.read_u16() {
            Ok(v) => v,
            Err(e) => {
                return Err(e);
            },
        };
        let rigged = og == 65535;
        let default_bone: u16 = if rigged {
            file.skip(2);
            0
        } else {
            og
        };
        let vertices = match Self::read_later_verts(file, vc, rigged, default_bone, false) {
            Ok(vs) => vs,
            Err(e) => {
                return Err(e);
            },
        };
        let triangles = match Self::read_tris(file, tc) {
            Ok(t) => t,
            Err(e) => {
                return Err(e);
            },
        };
        Ok(XModelSurfSurface { vertices, triangles })
    }

    /// Reads one surface of the newest generation.
    #[verifier::loop_isolation(false)]
    #[verifier::rlimit(100)]
    fn read_surface_v25(file: &mut Reader) -> (r: Result<XModelSurfSurface, Error>)
        requires
            old(file).wf(),
        ensures
            final(file).bytes() == old(file).bytes(),
            final(file).wf(),
            ({
                let s = old(file).bytes();
                let p = v25_surface_parse(s, old(file).cursor());
                &&& (r is Ok <==> p is Some)
                &&& (r matches Ok(surf) ==> p matches Some(g) && surf_matches(&surf, g.0)
                    && final(file).cursor() == g.1)
                &&& (r matches Err(e) ==> e.kind == ErrorKind::TruncatedInput)
            }),
    {
        let ghost s = old(file).bytes();
        file.skip(3);
        let vc = match file.read_u16() {
            Ok(v) => v,
            Err(e) => {
                return Err(e);
            },
        };
        let tc = match file.read_u16() {
            Ok(v) => v,
            Err(e) => {
                return Err(e);
            },
        };
        let vc2 = match file.read_u16() {
            Ok(v) => v,
            Err(e) => {
                return Err(e);
            },
        };
        let rigged = vc != vc2;
        if rigged {
            file.skip(2);
            if vc2 != 0 {
                let ghost scan0 = file.cursor();
                loop
                    invariant
                        file.wf(),
                        file.bytes() == s,
                        scan0 <= file.cursor(),
                        scan_u16_zero(s, scan0) == scan_u16_zero(s, file.cursor()),
                    decreases s.len() - file.cursor(),
                {
                    let zp = match file.read_u16() {
                        Ok(v) => v,
                        Err(e) => {
                            proof {
                                assert(scan_u16_zero(s, file.cursor()) is None);
                            }
                            return Err(e);
                        },
                    };
                    if zp == 0 {
                        break;
                    }
                }
                file.skip(2);
            }
        } else {
            file.skip(4);
        }
        let vertices = match Self::read_later_verts(file, vc, rigged, 0, true) {
            Ok(vs) => vs,
            Err(e) => {
                return Err(e);
            },
        };
        let triangles = match Self::read_tris(file, tc) {
            Ok(t) => t,
            Err(e) => {
                return Err(e);
            },
        };
        Ok(XModelSurfSurface { vertices, triangles })
    }

    /// Reads one first-pass vertex of the oldest generation.
    #[verifier::loop_isolation(false)]
    fn read_vertex_v14(file: &mut Reader, rigged: bool, default_bone: u16) -> (r: Result<
        V14Raw,
        Error,
    >)
        requires
            old(file).wf(),
        ensures
            final(file).bytes() == old(file).bytes(),
            final(file).wf(),
            ({
                let s = old(file).bytes();
                let p = v14_vertex_parse(s, old(file).cursor(), rigged, default_bone);
                &&& (r is Ok <==> p is Some)
                &&& (r matches Ok(raw) ==> p matches Some(g) && raw_matches(raw, (g.0).0)
                    && raw.wc == (g.0).1 && final(file).cursor() == g.1)
                &&& (r matches Err(e) ==> e.kind == ErrorKind::TruncatedInput)
            }),
    {
        let ghost s = old(file).bytes();
        let nx = match file.read_f32_bits() {
            Ok(w) => w,
            Err(e) => {
                return Err(e);
            },
        };
        let ny = match file.read_f32_bits() {
            Ok(w) => w,
            Err(e) => {
                return Err(e);
            },
        };
        let nz = match file.read_f32_bits() {
            Ok(w) => w,
            Err(e) => {
                return Err(e);
            },
        };
        let u = match file.read_f32_bits() {
            Ok(w) => w,
            Err(e) => {
                return Err(e);
            },
        };
        let w = match file.read_f32_bits() {
            Ok(w) => w,
            Err(e) => {
                return Err(e);
            },
        };
        let (wc, vb): (u16, u16) = if rigged {
            let wc = match file.read_u16() {
                Ok(v) => v,
                Err(e) => {
                    return Err(e);
                },
            };
            let vb = match file.read_u16() {
                Ok(v) => v,
                Err(e) => {
                    return Err(e);
                },
            };
            (wc, vb)
        } else {
            (0, default_bone)
        };
        let px = match file.read_f32_bits() {
            Ok(v) => v,
            Err(e) => {
                return Err(e);
            },
        };
        let py = match file.read_f32_bits() {
            Ok(v) => v,
            Err(e) => {
                return Err(e);
            },
        };
        let pz = match file.read_f32_bits() {
            Ok(v) => v,
            Err(e) => {
                return Err(e);
            },
        };
        if wc != 0 {
            file.skip(4);
        }
        Ok(
            V14Raw {
                normal: [nx, ny, nz],
                uv: [u, w],
                bone: vb,
                position: [px, py, pz],
                wc,
            },
        )
    }

    /// Unrolls the strip groups of one surface until its declared triangle
    /// count is reached.
    #[verifier::loop_isolation(false)]
    #[verifier::rlimit(100)]
    fn read_strip(file: &mut Reader, tc: u16) -> (r: Result<Vec<u16>, Error>)
        requires
            old(file).wf(),
        ensures
            final(file).bytes() == old(file).bytes(),
            final(file).wf(),
            ({
                let s = old(file).bytes();
                let p = strip_parse(s, old(file).cursor(), tc, Seq::empty());
                &&& (r is Ok <==> p is Some)
                &&& (r matches Ok(ts) ==> p == Some((ts@, final(file).cursor())))
                &&& (r matches Err(e) ==> e.kind == ErrorKind::TruncatedInput)
            }),
    {
        let ghost s = old(file).bytes();
        let ghost strip0 = file.cursor();
        let mut tris: Vec<u16> = Vec::new();
        proof {
            assert(tris@ =~= Seq::<u16>::empty());
        }
        loop
            invariant
                file.wf(),
                file.bytes() == s,
                strip_parse(s, strip0, tc, Seq::empty()) == strip_parse(
                    s,
                    file.cursor(),
                    tc,
                    tris@,
                ),
            decreases s.len() - file.cursor(),
        {
            let ghost gpos = file.cursor();
            let ghost acc_g = tris@;
            let idx_count = match file.read_u8() {
                Ok(c) => c,
                Err(e) => {
                    proof {
                        assert(strip_group(s, gpos, acc_g) is None);
                    }
                    return Err(e);
                },
            };
            let idx1 = match file.read_u16() {
                Ok(v) => v,
                Err(e) => {
                    proof {
                        assert(strip_group(s, gpos, acc_g) is None);
                    }
                    return Err(e);
                },
            };
            let mut idx2 = match file.read_u16() {
                Ok(v) => v,
                Err(e) => {
                    proof {
                        assert(strip_group(s, gpos, acc_g) is None);
                    }
                    return Err(e);
                },
            };
            let mut idx3 = match file.read_u16() {
                Ok(v) => v,
                Err(e) => {
                    proof {
                        assert(strip_group(s, gpos, acc_g) is None);
                    }
                    return Err(e);
                },
            };
            if idx1 != idx2 && idx1 != idx3 && idx2 != idx3 {
                tris.push(idx3);
                tris.push(idx2);
                tris.push(idx1);
            }
            let ghost acc1 = tris@;
            let ghost inner0 = file.cursor();
            let ghost gi2 = idx2;
            let ghost gi3 = idx3;
            proof {
                if idx1 != idx2 && idx1 != idx3 && idx2 != idx3 {
                    assert(acc1 =~= acc_g + seq![idx3, idx2, idx1]);
                }
            }
            let mut i: u8 = 3;
            while i < idx_count
                invariant
                    file.wf(),
                    file.bytes() == s,
                    inner0 <= file.cursor(),
                    strip_inner(s, inner0, idx_count, 3, gi2, gi3, acc1) == strip_inner(
                        s,
                        file.cursor(),
                        idx_count,
                        i as int,
                        idx2,
                        idx3,
                        tris@,
                    ),
                decreases idx_count as int - i,
            {
                let ghost ipos = file.cursor();
                let ghost iacc = tris@;
                let idx4 = idx3;
                let idx5 = match file.read_u16() {
                    Ok(v) => v,
                    Err(e) => {
                        proof {
                            assert(strip_inner(s, ipos, idx_count, i as int, idx2, idx3, iacc)
                                is None);
                            assert(strip_parse(s, strip0, tc, Seq::empty()) is None);
                        }
                        return Err(e);
                    },
                };
                if idx4 != idx2 && idx4 != idx5 && idx2 != idx5 {
                    tris.push(idx5);
                    tris.push(idx2);
                    tris.push(idx4);
                    proof {
                        assert(tris@ =~= iacc + seq![idx5, idx2, idx4]);
                    }
                }
                let v = i + 1;
                if v >= idx_count {
                    proof {
                        assert(strip_inner(s, ipos, idx_count, i as int, idx2, idx3, iacc)
                            == Some((tris@, file.cursor())));
                    }
                    break;
                }
                let ghost iacc1 = tris@;
                idx2 = idx5;
                idx3 = match file.read_u16() {
                    Ok(v2) => v2,
                    Err(e) => {
                        proof {
                            assert(strip_inner(s, ipos, idx_count, i as int, idx2, idx4, iacc)
                                is None);
                            assert(strip_inner(s, ipos, idx_count, i as int, gi2, idx4, iacc)
                                is None);
                            assert(strip_parse(s, strip0, tc, Seq::empty()) is None);
                        }
                        return Err(e);
                    },
                };
                if idx4 != idx2 && idx4 != idx3 && idx2 != idx3 {
                    tris.push(idx3);
                    tris.push(idx2);
                    tris.push(idx4);
                    proof {
                        assert(tris@ =~= iacc1 + seq![idx3, idx2, idx4]);
                    }
                }
                i = v + 1;
            }
            proof {
                assert(strip_inner(s, inner0, idx_count, 3, gi2, gi3, acc1) == Some(
                    (tris@, file.cursor()),
                ));
                assert(strip_group(s, gpos, acc_g) == Some((tris@, file.cursor())));
            }
            if tris.len() / 3 >= tc as usize {
                proof {
                    assert(strip_parse(s, gpos, tc, acc_g) == Some((tris@, file.cursor())));
                }
                break;
            }
            proof {
                assert(strip_parse(s, gpos, tc, acc_g) == strip_parse(
                    s,
                    file.cursor(),
                    tc,
                    tris@,
                ));
            }
        }

        proof {
            assert(strip_parse(s, strip0, tc, Seq::empty()) == Some((tris@, file.cursor())));
        }
        Ok(tris)
    }

    /// Reads the first-pass vertex records of one oldest-generation surface.
    #[verifier::loop_isolation(false)]
    #[verifier::rlimit(100)]
    fn read_v14_verts(file: &mut Reader, vc: u16, rigged: bool, default_bone: u16) -> (r: Result<
        Vec<V14Raw>,
        Error,
    >)
        requires
            old(file).wf(),
        ensures
            final(file).bytes() == old(file).bytes(),
            final(file).wf(),
            ({
                let s = old(file).bytes();
                let p = v14_verts_parse(s, old(file).cursor(), vc as int, rigged, default_bone);
                &&& (r is Ok <==> p is Some)
                &&& (r matches Ok(rs) ==> p matches Some(g) && rs@.len() == g.0.len()
                    && rs@.len() == vc as int && final(file).cursor() == g.1 && (forall|j: int|
                    0 <= j < g.0.len() ==> raw_matches((#[trigger] rs@[j]), g.0[j].0)
                        && rs@[j].wc == g.0[j].1))
                &&& (r matches Err(e) ==> e.kind == ErrorKind::TruncatedInput)
            }),
    {
        let ghost s = old(file).bytes();
        let ghost vpos0 = old(file).cursor();
        let mut raws: Vec<V14Raw> = Vec::new();
        let mut i: usize = 0;
        while i < vc as usize
            invariant
                file.wf(),
                file.bytes() == s,
                i <= vc as int,
                raws@.len() == i,
                ({
                    let p = v14_verts_parse(s, vpos0, vc as int, rigged, default_bone);
                    let q = v14_verts_parse(s, file.cursor(), vc - i, rigged, default_bone);
                    &&& (q is Some ==> p is Some && (p->0).1 == (q->0).1 && (p->0).0.len() == i
                        + (q->0).0.len() && (forall|j: int|
                        0 <= j < i ==> raw_matches((#[trigger] raws@[j]), (p->0).0[j].0)
                            && raws@[j].wc == (p->0).0[j].1) && (forall|j: int|
                        0 <= j < (q->0).0.len() ==> #[trigger] (q->0).0[j] == (p->0).0[i + j]))
                    &&& (q is None ==> p is None)
                }),
            decreases vc as int - i,
        {
            let ghost qpos = file.cursor();
            let raw = match Self::read_vertex_v14(file, rigged, default_bone) {
                Ok(v) => v,
                Err(e) => {
                    return Err(e);
                },
            };
            raws.push(raw);
            i = i + 1;
            proof {
                let qk = (vc - (i - 1)) as int;
                let q_old = v14_verts_parse(s, qpos, qk, rigged, default_bone);
                let vp = v14_vertex_parse(s, qpos, rigged, default_bone);
                assert(vp is Some);
                let q_new = v14_verts_parse(s, (vp->0).1, qk - 1, rigged, default_bone);
                if q_new is Some {
                    assert(q_old is Some);
                    assert((q_old->0).0 =~= seq![(vp->0).0] + (q_new->0).0);
                    assert((q_old->0).0[0] == (vp->0).0);
                    let p = v14_verts_parse(s, vpos0, vc as int, rigged, default_bone);
                    assert(p is Some);
                    assert((q_old->0).0[0] == (p->0).0[i - 1 + 0]);
                    assert forall|j: int| 0 <= j < (q_new->0).0.len() implies #[trigger] (
                    q_new->0).0[j] == (p->0).0[i + j] by {
                        assert((q_old->0).0[j + 1] == (p->0).0[i - 1 + (j + 1)]);
                        assert((q_old->0).0[j + 1] == (q_new->0).0[j]);
                    }
                } else {
                    assert(q_old is None);
                }
            }
        }

        Ok(raws)
    }

    /// Fills each vertex's reserved weight slots with the records that
    /// follow the vertex array.
    #[verifier::loop_isolation(false)]
    #[verifier::rlimit(100)]
    fn read_v14_weight_pass(
        file: &mut Reader,
        raws: &Vec<V14Raw>,
        vc: u16,
        Ghost(vw): Ghost<Seq<(SVert, u16)>>,
    ) -> (r: Result<Vec<XModelSurfVertex>, Error>)
        requires
            old(file).wf(),
            vc as int == vw.len(),
            raws@.len() == vc as int,
            forall|j: int|
                0 <= j < vc ==> raw_matches((#[trigger] raws@[j]), vw[j].0) && raws@[j].wc
                    == vw[j].1,
        ensures
            final(file).bytes() == old(file).bytes(),
            final(file).wf(),
            ({
                let s = old(file).bytes();
                let p = v14_weights_pass(s, old(file).cursor(), vw, 0);
                &&& (r is Ok <==> p is Some)
                &&& (r matches Ok(vs) ==> p matches Some(g) && vs@.len() == g.0.len()
                    && final(file).cursor() == g.1 && (forall|j: int|
                    0 <= j < g.0.len() ==> vert_matches(&(#[trigger] vs@[j]), g.0[j])))
                &&& (r matches Err(e) ==> e.kind == ErrorKind::TruncatedInput)
            }),
    {
        let ghost s = old(file).bytes();
        let ghost wpos0 = old(file).cursor();
        let mut vertices: Vec<XModelSurfVertex> = Vec::new();
        let mut k: usize = 0;
        while k < vc as usize
            invariant
                file.wf(),
                file.bytes() == s,
                k <= vc as int,
                vertices@.len() == k,
                vc as int == vw.len(),
                raws@.len() == vc as int,
                forall|j: int|
                    0 <= j < vc ==> raw_matches((#[trigger] raws@[j]), vw[j].0) && raws@[j].wc
                        == vw[j].1,
                ({
                    let p = v14_weights_pass(s, wpos0, vw, 0);
                    let q = v14_weights_pass(s, file.cursor(), vw, k as int);
                    &&& (q is Some ==> p is Some && (p->0).1 == (q->0).1 && (p->0).0.len() == k
                        + (q->0).0.len() && (forall|j: int|
                        0 <= j < k ==> vert_matches(&(#[trigger] vertices@[j]), (p->0).0[j])) && (
                    forall|j: int|
                        0 <= j < (q->0).0.len() ==> #[trigger] (q->0).0[j] == (p->0).0[k + j]))
                    &&& (q is None ==> p is None)
                }),
            decreases vc as int - k,
        {
            let ghost qpos = file.cursor();
            let raw = raws[k];
            let ws = match Self::read_weights(file, raw.wc, XModelVersion::V14) {
                Ok(w) => w,
                Err(e) => {
                    proof {
                        assert(weights_parse(s, qpos, vw[k as int].1 as int, XModelVersion::V14)
                            is None);
                        assert(v14_weights_pass(s, qpos, vw, k as int) is None);
                    }
                    return Err(e);
                },
            };
            let vert = XModelSurfVertex {
                normal: raw.normal,
                color: [255u8, 255u8, 255u8, 255u8],
                uv: raw.uv,
                bone: raw.bone,
                position: raw.position,
                weights: ws,
            };
            vertices.push(vert);
            k = k + 1;
            proof {
                let wp = weights_parse(s, qpos, vw[k - 1].1 as int, XModelVersion::V14);
                assert(wp is Some);
                let q_old = v14_weights_pass(s, qpos, vw, k - 1);
                let q_new = v14_weights_pass(s, (wp->0).1, vw, k as int);
                if q_new is Some {
                    assert(q_old is Some);
                    assert((q_old->0).0 =~= seq![SVert { weights: (wp->0).0, ..vw[k - 1].0 }]
                        + (q_new->0).0);
                    assert((q_old->0).0[0] == (SVert { weights: (wp->0).0, ..vw[k - 1].0 }));
                    let p = v14_weights_pass(s, wpos0, vw, 0);
                    assert(p is Some);
                    assert((q_old->0).0[0] == (p->0).0[k - 1 + 0]);
                    assert(vert_matches(&vertices@[k - 1], (p->0).0[k - 1]));
                    assert forall|j: int| 0 <= j < (q_new->0).0.len() implies #[trigger] (
                    q_new->0).0[j] == (p->0).0[k + j] by {
                        assert((q_old->0).0[j + 1] == (p->0).0[k - 1 + (j + 1)]);
                        assert((q_old->0).0[j + 1] == (q_new->0).0[j]);
                    }
                } else {
                    assert(q_old is None);
                }
            }
        }
        proof {
            assert(v14_weights_pass(s, file.cursor(), vw, vc as int) == Some(
                (Seq::<SVert>::empty(), file.cursor()),
            ));
        }
        Ok(vertices)
    }

    /// Reads one surface of the oldest generation: the strip-unrolled
    /// triangles, then the vertices, then the deferred weight records.
    #[verifier::loop_isolation(false)]
    #[verifier::rlimit(100)]
    fn read_surface_v14(file: &mut Reader) -> (r: Result<XModelSurfSurface, Error>)
        requires
            old(file).wf(),
        ensures
            final(file).bytes() == old(file).bytes(),
            final(file).wf(),
            ({
                let s = old(file).bytes();
                let p = v14_surface_parse(s, old(file).cursor());
                &&& (r is Ok <==> p is Some)
                &&& (r matches Ok(surf) ==> p matches Some(g) && surf_matches(&surf, g.0)
                    && final(file).cursor() == g.1)
                &&& (r matches Err(e) ==> e.kind == ErrorKind::TruncatedInput)
            }),
    {
        let ghost s = old(file).bytes();
        file.skip(1);
        let vc = match file.read_u16() {
            Ok(v) => v,
            Err(e) => {
                return Err(e);
            },
        };
        let tc = match file.read_u16() {
            Ok(v) => v,
            Err(e) => {
                return Err(e);
            },
        };
        file.skip(2);
        let og = match file.read_u16() {
            Ok(v) => v,
            Err(e) => {
                return Err(e);
            },
        };
        let rigged = og == 65535;
        let default_bone: u16 = if rigged {
            file.skip(4);
            0
        } else {
            og
        };
        let tris = match Self::read_strip(file, tc) {
            Ok(t) => t,
            Err(e) => {
                return Err(e);
            },
        };
        let ghost vpos0 = file.cursor();
        let raws = match Self::read_v14_verts(file, vc, rigged, default_bone) {
            Ok(r2) => r2,
            Err(e) => {
                return Err(e);
            },
        };
        let ghost vw = (v14_verts_parse(s, vpos0, vc as int, rigged, default_bone)->0).0;
        let vertices = match Self::read_v14_weight_pass(file, &raws, vc, Ghost(vw)) {
            Ok(vs) => vs,
            Err(e) => {
                return Err(e);
            },
        };
        Ok(XModelSurfSurface { vertices, triangles: tris })
    }

    /// Reads `n` surfaces in the given version's layout.
    #[verifier::loop_isolation(false)]
    #[verifier::rlimit(100)]
    fn read_surfaces(file: &mut Reader, n: u16, xv: XModelVersion) -> (r: Result<
        Vec<XModelSurfSurface>,
        Error,
    >)
        requires
            old(file).wf(),
            xv != XModelVersion::V62,
        ensures
            final(file).bytes() == old(file).bytes(),
            final(file).wf(),
            ({
                let s = old(file).bytes();
                let p = surfs_parse(s, old(file).cursor(), n as int, xv);
                &&& (r is Ok <==> p is Some)
                &&& (r matches Ok(ss) ==> p matches Some(g) && ss@.len() == g.0.len()
                    && final(file).cursor() == g.1 && (forall|k: int|
                    0 <= k < g.0.len() ==> surf_matches(&(#[trigger] ss@[k]), g.0[k])))
                &&& (r matches Err(e) ==> e.kind == ErrorKind::TruncatedInput)
            }),
    {
        let ghost s = old(file).bytes();
        let ghost pos0 = old(file).cursor();
        let mut surfaces: Vec<XModelSurfSurface> = Vec::new();
        let mut i: usize = 0;
        while i < n as usize
            invariant
                file.wf(),
                file.bytes() == s,
                i <= n as int,
                surfaces@.len() == i,
                xv != XModelVersion::V62,
                ({
                    let p = surfs_parse(s, pos0, n as int, xv);
                    let q = surfs_parse(s, file.cursor(), n - i, xv);
                    &&& (q is Some ==> p is Some && (p->0).1 == (q->0).1 && (p->0).0.len() == i
                        + (q->0).0.len() && (forall|j: int|
                        0 <= j < i ==> surf_matches(&(#[trigger] surfaces@[j]), (p->0).0[j])) && (
                    forall|j: int|
                        0 <= j < (q->0).0.len() ==> #[trigger] (q->0).0[j] == (p->0).0[i + j]))
                    &&& (q is None ==> p is None)
                }),
            decreases n as int - i,
        {
            let ghost qpos = file.cursor();
            let surf = match xv {
                XModelVersion::V14 => Self::read_surface_v14(file),
                XModelVersion::V20 => Self::read_surface_v20(file),
                _ => Self::read_surface_v25(file),
            };
            let surf = match surf {
                Ok(sf) => sf,
                Err(e) => {
                    return Err(e);
                },
            };
            surfaces.push(surf);
            i = i + 1;
            proof {
                let qk = (n - (i - 1)) as int;
                let q_old = surfs_parse(s, qpos, qk, xv);
                let sp = match xv {
                    XModelVersion::V14 => v14_surface_parse(s, qpos),
                    XModelVersion::V20 => v20_surface_parse(s, qpos),
                    _ => v25_surface_parse(s, qpos),
                };
                assert(sp is Some);
                let q_new = surfs_parse(s, (sp->0).1, qk - 1, xv);
                if q_new is Some {
                    assert(q_old is Some);
                    assert((q_old->0).0 =~= seq![(sp->0).0] + (q_new->0).0);
                    assert((q_old->0).0[0] == (sp->0).0);
                    let p = surfs_parse(s, pos0, n as int, xv);
                    assert(p is Some);
                    assert((q_old->0).0[0] == (p->0).0[i - 1 + 0]);
                    assert(surf_matches(&surfaces@[i - 1], (p->0).0[i - 1]));
                    assert forall|j: int| 0 <= j < (q_new->0).0.len() implies #[trigger] (
                    q_new->0).0[j] == (p->0).0[i + j] by {
                        assert((q_old->0).0[j + 1] == (p->0).0[i - 1 + (j + 1)]);
                        assert((q_old->0).0[j + 1] == (q_new->0).0[j]);
                    }
                } else {
                    assert(q_old is None);
                }
            }
        }
        Ok(surfaces)
    }

    /// Decodes a mesh file.  The result is `Ok` exactly on the inputs
    /// `surf_accepts` describes.  When a skeleton is available, the
    /// embedding application bakes each vertex against its bound bone's
    /// world transform; the surfaces here are the un-transformed mesh.
    #[verifier::loop_isolation(false)]
    #[verifier::rlimit(100)]
    pub fn load(file_path: &str, data: Vec<u8>) -> (r: Result<XModelSurf, Error>)
        ensures
            r is Ok <==> surf_accepts(data@),
            r matches Err(e) ==> e.kind == surf_error(data@),
            r matches Ok(m) ==> ({
                let s = data@;
                let g = surfs_parse(s, 4, le_u16(s, 2) as int, xmodel_version_of(le_u16(s, 0))->0);
                &&& m.name@ == crate::path::stem(crate::path::base_name(file_path@))
                &&& m.version == le_u16(s, 0)
                &&& m.surfaces@.len() == (g->0).0.len()
                &&& (forall|k: int|
                    0 <= k < (g->0).0.len() ==> surf_matches(
                        &(#[trigger] m.surfaces@[k]),
                        (g->0).0[k],
                    ))
            }),
    {
        let ghost s = data@;
        let name = crate::path::file_name_without_ext(file_path);
        let mut file = Reader::new(data);
        let version = match file.read_u16() {
            Ok(v) => v,
            Err(e) => {
                return Err(e);
            },
        };
        let xv = match XModelVersion::valid(version) {
            Some(XModelVersion::V62) => {
                return Err(
                    Error::with_kind(
                        ErrorKind::InvalidFormat,
                        String::from_str("invalid mesh version"),
                    ),
                );
            },
            Some(v) => v,
            None => {
                return Err(
                    Error::with_kind(
                        ErrorKind::InvalidFormat,
                        String::from_str("invalid mesh version"),
                    ),
                );
            },
        };
        let surface_count = match file.read_u16() {
            Ok(c) => c,
            Err(e) => {
                return Err(e);
            },
        };
        let surfaces = match Self::read_surfaces(&mut file, surface_count, xv) {
            Ok(ss) => ss,
            Err(e) => {
                return Err(e);
            },
        };
        Ok(XModelSurf { name, version, surfaces })
    }
}

} // verus!
