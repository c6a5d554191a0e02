//! Material record decoding.
//!
//! A material file is one fixed binary record: a name offset, a
//! version-dependent gap, a texture count, and offsets to the techset name
//! and the texture entry table.  Each texture entry holds absolute offsets
//! to its out-of-line type and name strings, fetched with a
//! seek-read-restore walk.

use vstd::prelude::*;

use crate::binary::{chars_of_bytes, first_zero, le_u16, le_u32, Reader};
use crate::error::{Error, ErrorKind};

verus! {

/// The closed classification of texture type strings.
#[derive(Clone, Copy, Debug, PartialEq, Eq, Structural)]
pub enum TextureType {
    Unused,
    Color,
    Normal,
    Specular,
    Roughness,
    Detail,
}

/// One texture reference of a material.
pub struct MaterialTexture {
    pub texture_type: TextureType,
    pub flags: u32,
    pub name: String,
}

/// A decoded material: its name, techset and texture references.
pub struct Material {
    pub techset: String,
    pub name: String,
    pub textures: Vec<MaterialTexture>,
}

/// The classification a texture type string selects; unrecognized strings
/// classify as `Unused`.
pub open spec fn texture_type_of(t: Seq<char>) -> TextureType {
    if t == "colorMap"@ || t == "Diffuse_MapSampler"@ {
        TextureType::Color
    } else if t == "normalMap"@ || t == "Normal_Map"@ {
        TextureType::Normal
    } else if t == "detailMap"@ || t == "Detail_Map"@ {
        TextureType::Detail
    } else if t == "specularMap"@ || t == "Specular_Map"@ {
        TextureType::Specular
    } else if t == "Roughness_Map"@ {
        TextureType::Roughness
    } else {
        TextureType::Unused
    }
}

/// Whether a string equals a literal.
fn str_eq_lit(t: &String, lit: &str) -> (r: bool)
    ensures
        r == (t@ == lit@),
{
    let l: String = lit.to_owned();
    *t == l
}

/// Classifies a texture type string.
pub fn classify_texture_type(t: &String) -> (r: TextureType)
    ensures
        r == texture_type_of(t@),
{
    if str_eq_lit(t, "colorMap") || str_eq_lit(t, "Diffuse_MapSampler") {
        TextureType::Color
    } else if str_eq_lit(t, "normalMap") || str_eq_lit(t, "Normal_Map") {
        TextureType::Normal
    } else if str_eq_lit(t, "detailMap") || str_eq_lit(t, "Detail_Map") {
        TextureType::Detail
    } else if str_eq_lit(t, "specularMap") || str_eq_lit(t, "Specular_Map") {
        TextureType::Specular
    } else if str_eq_lit(t, "Roughness_Map") {
        TextureType::Roughness
    } else {
        TextureType::Unused
    }
}

/// A seek target clamped to the end of the buffer, as the reader clamps.
pub open spec fn clamp_pos(s: Seq<u8>, off: int) -> int {
    if off <= s.len() {
        off
    } else {
        s.len() as int
    }
}

/// Whether a zero-terminated string can be read at absolute offset `off`.
pub open spec fn str_ok(s: Seq<u8>, off: int) -> bool {
    first_zero(s, clamp_pos(s, off)) is Some
}

/// The characters of the zero-terminated string at absolute offset `off`.
pub open spec fn str_val(s: Seq<u8>, off: int) -> Seq<char> {
    chars_of_bytes(s.subrange(clamp_pos(s, off), first_zero(s, clamp_pos(s, off))->0))
}

/// The gap between a material's name offset and its texture count.
pub open spec fn mat_skip(v20: bool) -> int {
    if v20 {
        48
    } else {
        44
    }
}

/// Where a material's texture-entry table cursor fields sit.
pub open spec fn mat_count_pos(v20: bool) -> int {
    4 + mat_skip(v20)
}

/// The texture count of a material record.
pub open spec fn mat_texture_count(s: Seq<u8>, v20: bool) -> u16 {
    le_u16(s, mat_count_pos(v20))
}

/// The techset-name offset of a material record.
pub open spec fn mat_techset_off(s: Seq<u8>, v20: bool) -> u32 {
    le_u32(s, mat_count_pos(v20) + 4)
}

/// The texture-table offset of a material record.
pub open spec fn mat_textures_off(s: Seq<u8>, v20: bool) -> u32 {
    le_u32(s, mat_count_pos(v20) + 8)
}

/// The three words of texture entry `j`: type-string offset, flags,
/// name-string offset.
pub open spec fn tex_entry(s: Seq<u8>, v20: bool, j: int) -> (u32, u32, u32) {
    let base = mat_textures_off(s, v20) + 12 * j;
    (le_u32(s, base), le_u32(s, base + 4), le_u32(s, base + 8))
}

/// A material record that decodes end to end.
pub open spec fn material_accepts(s: Seq<u8>, v20: bool) -> bool {
    &&& mat_count_pos(v20) + 12 <= s.len()
    &&& str_ok(s, le_u32(s, 0) as int)
    &&& str_ok(s, mat_techset_off(s, v20) as int)
    &&& (forall|j: int|
        0 <= j < mat_texture_count(s, v20) ==> mat_textures_off(s, v20) + 12 * j + 12 <= s.len()
            && str_ok(s, (#[trigger] tex_entry(s, v20, j)).0 as int) && str_ok(
            s,
            tex_entry(s, v20, j).2 as int,
        ))
}

impl Material {
    /// Decodes a material record.  `v20` selects the middle-generation
    /// layout with its longer header gap.
    #[verifier::loop_isolation(false)]
    #[verifier::rlimit(100)]
    pub fn load(data: Vec<u8>, v20: bool) -> (r: Result<Material, Error>)
        requires
            data@.len() <= u32::MAX,
        ensures
            r is Ok <==> material_accepts(data@, v20),
            r matches Ok(m) ==> ({
                let s = data@;
                &&& m.name@ == str_val(s, le_u32(s, 0) as int)
                &&& m.techset@ == str_val(s, mat_techset_off(s, v20) as int)
                &&& m.textures@.len() == mat_texture_count(s, v20)
                &&& (forall|j: int|
                    0 <= j < m.textures@.len() ==> {
                        let e = tex_entry(s, v20, j);
                        &&& (#[trigger] m.textures@[j]).texture_type == texture_type_of(
                            str_val(s, e.0 as int),
                        )
                        &&& m.textures@[j].flags == e.1
                        &&& m.textures@[j].name@ == str_val(s, e.2 as int)
                    })
            }),
            r matches Err(e) ==> e.kind == ErrorKind::TruncatedInput,
    {
        let ghost s = data@;
        let mut file = Reader::new(data);
        let name_offset = match file.read_u32() {
            Ok(v) => v,
            Err(e) => {
                return Err(e);
            },
        };
        if v20 {
            file.skip(48);
        } else {
            file.skip(44);
        }
        // The skip lands past the end on short inputs; the next read then
        // fails exactly when the header does not fit.
        let texture_count = match file.read_u16() {
            Ok(v) => v,
            Err(e) => {
                return Err(e);
            },
        };
        file.skip(2);
        let techset_offset = match file.read_u32() {
            Ok(v) => v,
            Err(e) => {
                return Err(e);
            },
        };
        let textures_offset = match file.read_u32() {
            Ok(v) => v,
            Err(e) => {
                return Err(e);
            },
        };
        proof {
            assert(mat_count_pos(v20) + 12 <= s.len());
        }

        file.seek(name_offset as usize);
        let name = match file.read_nullstr() {
            Ok(n) => n,
            Err(e) => {
                return Err(e);
            },
        };
        file.seek(techset_offset as usize);
        let techset = match file.read_nullstr() {
            Ok(t) => t,
            Err(e) => {
                return Err(e);
            },
        };

        proof {
            assert(str_ok(s, le_u32(s, 0) as int));
            assert(str_ok(s, mat_techset_off(s, v20) as int));
        }
        let mut textures: Vec<MaterialTexture> = Vec::new();
        let mut j: usize = 0;
        while j < texture_count as usize
            invariant
                file.wf(),
                file.bytes() == s,
                j <= texture_count as int,
                textures@.len() == j,
                mat_count_pos(v20) + 12 <= s.len(),
                str_ok(s, le_u32(s, 0) as int),
                str_ok(s, mat_techset_off(s, v20) as int),
                name@ == str_val(s, le_u32(s, 0) as int),
                techset@ == str_val(s, mat_techset_off(s, v20) as int),
                texture_count == mat_texture_count(s, v20),
                textures_offset == mat_textures_off(s, v20),
                forall|q: int|
                    0 <= q < j ==> mat_textures_off(s, v20) + 12 * q + 12 <= s.len() && str_ok(
                        s,
                        (#[trigger] tex_entry(s, v20, q)).0 as int,
                    ) && str_ok(s, tex_entry(s, v20, q).2 as int),
                j as int == mat_texture_count(s, v20) as int ==> material_accepts(s, v20),
                forall|q: int|
                    0 <= q < j ==> {
                        let e = tex_entry(s, v20, q);
                        &&& (#[trigger] textures@[q]).texture_type == texture_type_of(
                            str_val(s, e.0 as int),
                        )
                        &&& textures@[q].flags == e.1
                        &&& textures@[q].name@ == str_val(s, e.2 as int)
                    },
            decreases texture_count as int - j,
        {
            let ghost ej = tex_entry(s, v20, j as int);
            let entry_pos = (textures_offset as u64) + 12 * (j as u64);
            if entry_pos + 12 > file.len() as u64 {
                proof {
                    assert(!material_accepts(s, v20));
                }
                return Err(Error::with_kind(ErrorKind::TruncatedInput, String::new()));
            }
            file.seek(entry_pos as usize);
            let texture_type_offset = match file.read_u32() {
                Ok(v) => v,
                Err(e) => {
                    proof {
                        assert(false);
                    }
                    return Err(e);
                },
            };
            let texture_flags = match file.read_u32() {
                Ok(v) => v,
                Err(e) => {
                    proof {
                        assert(false);
                    }
                    return Err(e);
                },
            };
            let texture_name_offset = match file.read_u32() {
                Ok(v) => v,
                Err(e) => {
                    proof {
                        assert(false);
                    }
                    return Err(e);
                },
            };
            file.seek(texture_type_offset as usize);
            let texture_type = match file.read_nullstr() {
                Ok(t) => t,
                Err(e) => {
                    proof {
                        assert(!str_ok(s, ej.0 as int));
                        assert(!material_accepts(s, v20));
                    }
                    return Err(e);
                },
            };
            file.seek(texture_name_offset as usize);
            let texture_name = match file.read_nullstr() {
                Ok(t) => t,
                Err(e) => {
                    proof {
                        assert(!str_ok(s, ej.2 as int));
                        assert(!material_accepts(s, v20));
                    }
                    return Err(e);
                },
            };
            let tt = classify_texture_type(&texture_type);
            textures.push(
                MaterialTexture { texture_type: tt, flags: texture_flags, name: texture_name },
            );
            j = j + 1;
        }
        Ok(Material { techset, name, textures })
    }
}

} // verus!
