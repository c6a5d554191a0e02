//! Skeleton decoding.
//!
//! A skeleton file holds a version tag, a bone count and a root-bone count.
//! Root bones are synthesized with identity transforms; stored bones carry a
//! signed parent index (always referring to an earlier bone), a position and
//! a compressed rotation.  A second pass reads each bone's name in index
//! order and, for the viewhands rig of the two oldest generations, records
//! the fixed hand-placement override its name selects.
//!
//! Positions stay IEEE 754 bit patterns and rotations stay the signed
//! 16-bit triples stored on disk (dividing by 32768 and deriving the
//! quaternion scalar, composing world transforms, and dividing the override
//! table's centimeter values by 2.54 are floating-point work left to the
//! embedding application; parents always precede children, so one forward
//! pass suffices).

use vstd::prelude::*;

use crate::binary::{chars_of_bytes, first_zero, le_i16, le_u16, le_u32, Reader};
use crate::error::{Error, ErrorKind};
use crate::math::{RotRaw, Vec3Bits};
use crate::xmodel::{clamp, xmodel_type_of, xmodel_version_of, XModelType, XModelVersion};

verus! {

/// One bone: its name, parent slot (`-1` is a root), local transform as
/// stored, and the hand-placement override its name selected, if any.
pub struct XModelPartBone {
    pub name: String,
    pub parent: i8,
    pub position: Vec3Bits,
    pub rotation: RotRaw,
    pub viewhand_override: Option<Vec3Bits>,
}

/// A decoded skeleton.
pub struct XModelPart {
    pub name: String,
    pub version: u16,
    pub model_type: u8,
    pub bones: Vec<XModelPartBone>,
}

/// Whether a string equals a literal.
fn str_eq_lit(t: &String, lit: &str) -> (r: bool)
    ensures
        r == (t@ == lit@),
{
    let l: String = lit.to_owned();
    *t == l
}

/// The hand-placement override table of the oldest generation: bone names
/// of the viewhands rig mapped to fixed positions (every entry the origin),
/// as IEEE 754 bit patterns of centimeter values before the inch division.
pub open spec fn viewhand_pos_cod1(n: Seq<char>) -> Option<Vec3Bits> {
    if n == "tag_view"@ {
        Some([0x0u32, 0x0u32, 0x0u32])
    } else if n == "tag_torso"@ {
        Some([0x0u32, 0x0u32, 0x0u32])
    } else if n == "tag_weapon"@ {
        Some([0x0u32, 0x0u32, 0x0u32])
    } else if n == "bip01 l upperarm"@ {
        Some([0x0u32, 0x0u32, 0x0u32])
    } else if n == "bip01 l forearm"@ {
        Some([0x0u32, 0x0u32, 0x0u32])
    } else if n == "bip01 l hand"@ {
        Some([0x0u32, 0x0u32, 0x0u32])
    } else if n == "bip01 l finger0"@ {
        Some([0x0u32, 0x0u32, 0x0u32])
    } else if n == "bip01 l finger01"@ {
        Some([0x0u32, 0x0u32, 0x0u32])
    } else if n == "bip01 l finger02"@ {
        Some([0x0u32, 0x0u32, 0x0u32])
    } else if n == "bip01 l finger0nub"@ {
        Some([0x0u32, 0x0u32, 0x0u32])
    } else if n == "bip01 l finger1"@ {
        Some([0x0u32, 0x0u32, 0x0u32])
    } else if n == "bip01 l finger11"@ {
        Some([0x0u32, 0x0u32, 0x0u32])
    } else if n == "bip01 l finger12"@ {
        Some([0x0u32, 0x0u32, 0x0u32])
    } else if n == "bip01 l finger1nub"@ {
        Some([0x0u32, 0x0u32, 0x0u32])
    } else if n == "bip01 l finger2"@ {
        Some([0x0u32, 0x0u32, 0x0u32])
    } else if n == "bip01 l finger21"@ {
        Some([0x0u32, 0x0u32, 0x0u32])
    } else if n == "bip01 l finger22"@ {
        Some([0x0u32, 0x0u32, 0x0u32])
    } else if n == "bip01 l finger2nub"@ {
        Some([0x0u32, 0x0u32, 0x0u32])
    } else if n == "bip01 l finger3"@ {
        Some([0x0u32, 0x0u32, 0x0u32])
    } else if n == "bip01 l finger31"@ {
        Some([0x0u32, 0x0u32, 0x0u32])
    } else if n == "bip01 l finger32"@ {
        Some([0x0u32, 0x0u32, 0x0u32])
    } else if n == "bip01 l finger3nub"@ {
        Some([0x0u32, 0x0u32, 0x0u32])
    } else if n == "bip01 l finger4"@ {
        Some([0x0u32, 0x0u32, 0x0u32])
    } else if n == "bip01 l finger41"@ {
        Some([0x0u32, 0x0u32, 0x0u32])
    } else if n == "bip01 l finger42"@ {
        Some([0x0u32, 0x0u32, 0x0u32])
    } else if n == "bip01 l finger4nub"@ {
        Some([0x0u32, 0x0u32, 0x0u32])
    } else if n == "bip01 r upperarm"@ {
        Some([0x0u32, 0x0u32, 0x0u32])
    } else if n == "bip01 r forearm"@ {
        Some([0x0u32, 0x0u32, 0x0u32])
    } else if n == "bip01 r hand"@ {
        Some([0x0u32, 0x0u32, 0x0u32])
    } else if n == "bip01 r finger0"@ {
        Some([0x0u32, 0x0u32, 0x0u32])
    } else if n == "bip01 r finger01"@ {
        Some([0x0u32, 0x0u32, 0x0u32])
    } else if n == "bip01 r finger02"@ {
        Some([0x0u32, 0x0u32, 0x0u32])
    } else if n == "bip01 r finger0nub"@ {
        Some([0x0u32, 0x0u32, 0x0u32])
    } else if n == "bip01 r finger1"@ {
        Some([0x0u32, 0x0u32, 0x0u32])
    } else if n == "bip01 r finger11"@ {
        Some([0x0u32, 0x0u32, 0x0u32])
    } else if n == "bip01 r finger12"@ {
        Some([0x0u32, 0x0u32, 0x0u32])
    } else if n == "bip01 r finger1nub"@ {
        Some([0x0u32, 0x0u32, 0x0u32])
    } else if n == "bip01 r finger2"@ {
        Some([0x0u32, 0x0u32, 0x0u32])
    } else if n == "bip01 r finger21"@ {
        Some([0x0u32, 0x0u32, 0x0u32])
    } else if n == "bip01 r finger22"@ {
        Some([0x0u32, 0x0u32, 0x0u32])
    } else if n == "bip01 r finger2nub"@ {
        Some([0x0u32, 0x0u32, 0x0u32])
    } else if n == "bip01 r finger3"@ {
        Some([0x0u32, 0x0u32, 0x0u32])
    } else if n == "bip01 r finger31"@ {
        Some([0x0u32, 0x0u32, 0x0u32])
    } else if n == "bip01 r finger32"@ {
        Some([0x0u32, 0x0u32, 0x0u32])
    } else if n == "bip01 r finger3nub"@ {
        Some([0x0u32, 0x0u32, 0x0u32])
    } else if n == "bip01 r finger4"@ {
        Some([0x0u32, 0x0u32, 0x0u32])
    } else if n == "bip01 r finger41"@ {
        Some([0x0u32, 0x0u32, 0x0u32])
    } else if n == "bip01 r finger42"@ {
        Some([0x0u32, 0x0u32, 0x0u32])
    } else if n == "bip01 r finger4nub"@ {
        Some([0x0u32, 0x0u32, 0x0u32])
    } else if n == "l hand webbing"@ {
        Some([0x0u32, 0x0u32, 0x0u32])
    } else if n == "r hand webbing"@ {
        Some([0x0u32, 0x0u32, 0x0u32])
    } else if n == "r cuff"@ {
        Some([0x0u32, 0x0u32, 0x0u32])
    } else if n == "r cuff01"@ {
        Some([0x0u32, 0x0u32, 0x0u32])
    } else if n == "r wrist"@ {
        Some([0x0u32, 0x0u32, 0x0u32])
    } else if n == "r wrist01"@ {
        Some([0x0u32, 0x0u32, 0x0u32])
    } else {
        None
    }
}

/// The hand-placement override table of the middle generation, as IEEE 754
/// bit patterns of centimeter values before the inch division.
pub open spec fn viewhand_pos_cod2(n: Seq<char>) -> Option<Vec3Bits> {
    if n == "tag_view"@ {
        Some([0x0u32, 0x0u32, 0x0u32])
    } else if n == "tag_torso"@ {
        Some([0xC13C3CDEu32, 0x0u32, 0xC05FD67Cu32])
    } else if n == "j_shoulder_le"@ {
        Some([0x403702BCu32, 0x41A14928u32, 0xC0931CF8u32])
    } else if n == "j_elbow_le"@ {
        Some([0x41F5BF7Du32, 0xB70637BDu32, 0x3649539Cu32])
    } else if n == "j_wrist_le"@ {
        Some([0x41EB1FF3u32, 0x379F6230u32, 0xB649539Cu32])
    } else if n == "j_thumb_le_0"@ {
        Some([0x4032537Au32, 0x400FB13Au32, 0x3F5A031Du32])
    } else if n == "j_thumb_le_1"@ {
        Some([0x4099CFA2u32, 0xB58637BDu32, 0x3649539Cu32])
    } else if n == "j_thumb_le_2"@ {
        Some([0x401BBEC6u32, 0xB60637BDu32, 0x358637BDu32])
    } else if n == "j_thumb_le_3"@ {
        Some([0x40400000u32, 0xB58637BDu32, 0xB58637BDu32])
    } else if n == "j_flesh_le"@ {
        Some([0x409A5263u32, 0x3F96913Au32, 0xBDE1FA76u32])
    } else if n == "j_index_le_0"@ {
        Some([0x41288CB3u32, 0x403251F0u32, 0xB649539Cu32])
    } else if n == "j_index_le_1"@ {
        Some([0x40920419u32, 0xB649539Cu32, 0x358637BDu32])
    } else if n == "j_index_le_2"@ {
        Some([0x4037B310u32, 0x3649539Cu32, 0xB60637BDu32])
    } else if n == "j_index_le_3"@ {
        Some([0x403FFFFCu32, 0x368637BDu32, 0x358637BDu32])
    } else if n == "j_mid_le_0"@ {
        Some([0x412B7B9Eu32, 0x3EB98A87u32, 0xBEC5DF65u32])
    } else if n == "j_mid_le_1"@ {
        Some([0x409AF6C5u32, 0xB58637BDu32, 0xB58637BDu32])
    } else if n == "j_mid_le_2"@ {
        Some([0x403D4153u32, 0xB58637BDu32, 0xB58637BDu32])
    } else if n == "j_mid_le_3"@ {
        Some([0x40400015u32, 0x368637BDu32, 0x0u32])
    } else if n == "j_ring_le_0"@ {
        Some([0x411D7E6Bu32, 0xBFDFB3AFu32, 0xBECD5F14u32])
    } else if n == "j_ring_le_1"@ {
        Some([0x409AF6BAu32, 0x368637BDu32, 0xB649539Cu32])
    } else if n == "j_ring_le_2"@ {
        Some([0x403056BDu32, 0xB60637BDu32, 0x36A7C5ACu32])
    } else if n == "j_ring_le_3"@ {
        Some([0x403FFFF8u32, 0xB60637BDu32, 0xB68637BDu32])
    } else if n == "j_pinky_le_0"@ {
        Some([0x4109D1FCu32, 0xC06D4749u32, 0x3E2C3761u32])
    } else if n == "j_pinky_le_1"@ {
        Some([0x407C53B5u32, 0x358637BDu32, 0x358637BDu32])
    } else if n == "j_pinky_le_2"@ {
        Some([0x3FE5A5A0u32, 0x3649539Cu32, 0xB649539Cu32])
    } else if n == "j_pinky_le_3"@ {
        Some([0x4035B891u32, 0xB58637BDu32, 0x368637BDu32])
    } else if n == "j_wristtwist_le"@ {
        Some([0x41ACD490u32, 0x3749539Cu32, 0xB649539Cu32])
    } else if n == "j_shoulder_ri"@ {
        Some([0x403702BCu32, 0xC1A14928u32, 0xC0931CF8u32])
    } else if n == "j_elbow_ri"@ {
        Some([0xC1F5BF87u32, 0x368637BDu32, 0xB7C9539Cu32])
    } else if n == "j_wrist_ri"@ {
        Some([0xC1EB2018u32, 0x38388CA4u32, 0x37B88CA4u32])
    } else if n == "j_thumb_ri_0"@ {
        Some([0xC032505Du32, 0xC00FB0CDu32, 0xBF5A04B0u32])
    } else if n == "j_thumb_ri_1"@ {
        Some([0xC099D191u32, 0xB88A697Bu32, 0x3913D966u32])
    } else if n == "j_thumb_ri_2"@ {
        Some([0xC01BBDC7u32, 0xB81F6230u32, 0xB85E4C51u32])
    } else if n == "j_thumb_ri_3"@ {
        Some([0xC0400204u32, 0x3927C5ACu32, 0x37D1B717u32])
    } else if n == "j_flesh_ri"@ {
        Some([0xC09A528Du32, 0xBF96917Du32, 0x3DE1EE67u32])
    } else if n == "j_index_ri_0"@ {
        Some([0xC1288C93u32, 0xC032526Eu32, 0xB6EAE18Bu32])
    } else if n == "j_index_ri_1"@ {
        Some([0xC092037Fu32, 0xB8734507u32, 0x38627E0Fu32])
    } else if n == "j_index_ri_2"@ {
        Some([0xC037B335u32, 0xB888509Cu32, 0x38D1B717u32])
    } else if n == "j_index_ri_3"@ {
        Some([0xC03FFEFCu32, 0x392D03DAu32, 0xB888509Cu32])
    } else if n == "j_mid_ri_0"@ {
        Some([0xC12B7AF6u32, 0xBEB999BBu32, 0x3EC5DE7Au32])
    } else if n == "j_mid_ri_1"@ {
        Some([0xC09AF7A1u32, 0x391E55C1u32, 0x37EAE18Bu32])
    } else if n == "j_mid_ri_2"@ {
        Some([0xC03D41FAu32, 0xB8B673C5u32, 0xB7B88CA4u32])
    } else if n == "j_mid_ri_3"@ {
        Some([0xC04000FCu32, 0xB88E9B39u32, 0xB79F6230u32])
    } else if n == "j_ring_ri_0"@ {
        Some([0xC11D7DA5u32, 0x3FDFB1C8u32, 0x3ECD5E29u32])
    } else if n == "j_ring_ri_1"@ {
        Some([0xC09AF801u32, 0x39388CA4u32, 0xB8841EDEu32])
    } else if n == "j_ring_ri_2"@ {
        Some([0xC0305654u32, 0xB7388CA4u32, 0x391C3CE2u32])
    } else if n == "j_ring_ri_3"@ {
        Some([0xC04000C9u32, 0xB82BF76Au32, 0xB84D8559u32])
    } else if n == "j_pinky_ri_0"@ {
        Some([0xC109D1F2u32, 0x406D46AAu32, 0xBE2C3D25u32])
    } else if n == "j_pinky_ri_1"@ {
        Some([0xC07C5287u32, 0xB8F55DE6u32, 0xB888509Cu32])
    } else if n == "j_pinky_ri_2"@ {
        Some([0xBFE5A30Au32, 0x390C825Au32, 0x3961719Fu32])
    } else if n == "j_pinky_ri_3"@ {
        Some([0xC035B852u32, 0x386AE18Bu32, 0xB8F12C28u32])
    } else if n == "j_wristtwist_ri"@ {
        Some([0xC1ACD4BFu32, 0x38CB6C7Au32, 0x370637BDu32])
    } else if n == "tag_weapon"@ {
        Some([0x421A060Bu32, 0x0u32, 0xC189371Du32])
    } else if n == "tag_cambone"@ {
        Some([0x0u32, 0x0u32, 0x0u32])
    } else if n == "tag_camera"@ {
        Some([0x0u32, 0x0u32, 0x0u32])
    } else {
        None
    }
}

/// The bone record starting at `base`: parent, position, compressed
/// rotation.
pub open spec fn bone_rec(s: Seq<u8>, base: int) -> (i8, Vec3Bits, RotRaw) {
    (
        s[base] as i8,
        [le_u32(s, base + 1), le_u32(s, base + 5), le_u32(s, base + 9)],
        [le_i16(s, base + 13), le_i16(s, base + 15), le_i16(s, base + 17)],
    )
}

/// Parses `n` zero-terminated bone names from `pos`, each followed by a
/// legacy gap of `gap` bytes.
pub open spec fn part_names_parse(s: Seq<u8>, pos: int, n: int, gap: int) -> Option<
    (Seq<Seq<u8>>, int),
>
    decreases n,
{
    if n <= 0 {
        Some((Seq::empty(), pos))
    } else {
        match first_zero(s, pos) {
            None => None,
            Some(z) => {
                let name = s.subrange(pos, z);
                match part_names_parse(s, clamp(s, z + 1 + gap), n - 1, gap) {
                    None => None,
                    Some((rest, end)) => Some((seq![name] + rest, end)),
                }
            },
        }
    }
}

/// The bone count of a skeleton file.
pub open spec fn part_bone_count(s: Seq<u8>) -> u16 {
    le_u16(s, 2)
}

/// The root-bone count of a skeleton file.
pub open spec fn part_root_count(s: Seq<u8>) -> u16 {
    le_u16(s, 4)
}

/// The legacy per-name gap of a skeleton version.
pub open spec fn part_name_gap(v: XModelVersion) -> int {
    match v {
        XModelVersion::V14 => 24,
        _ => 0,
    }
}

/// A skeleton file that decodes end to end.
pub open spec fn part_accepts(s: Seq<u8>) -> bool {
    &&& s.len() >= 2
    &&& xmodel_version_of(le_u16(s, 0)) is Some
    &&& s.len() >= 6
    &&& 6 + 19 * part_bone_count(s) <= s.len()
    &&& part_names_parse(
        s,
        6 + 19 * part_bone_count(s),
        part_root_count(s) + part_bone_count(s),
        part_name_gap(xmodel_version_of(le_u16(s, 0))->0),
    ) is Some
}

/// The kind of the first failure the sequential decode runs into.
pub open spec fn part_error(s: Seq<u8>) -> ErrorKind {
    if s.len() < 2 {
        ErrorKind::TruncatedInput
    } else if xmodel_version_of(le_u16(s, 0)) is None {
        ErrorKind::InvalidFormat
    } else {
        ErrorKind::TruncatedInput
    }
}

/// The parent, position and rotation bone `j` of the skeleton holds before
/// names are read: roots are synthetic identities, stored bones follow.
pub open spec fn part_bone_base(s: Seq<u8>, j: int) -> (i8, Vec3Bits, RotRaw) {
    if j < part_root_count(s) {
        (-1i8, [0u32, 0u32, 0u32], [0i16, 0i16, 0i16])
    } else {
        bone_rec(s, 6 + 19 * (j - part_root_count(s)))
    }
}

/// The hand-placement override bone `j` receives, given the skeleton's
/// version, model type and name table.
pub open spec fn part_override(v: XModelVersion, model_type: u8, name: Seq<u8>) -> Option<
    Vec3Bits,
> {
    if xmodel_type_of(model_type) == Some(XModelType::Viewhands) && v == XModelVersion::V14 {
        viewhand_pos_cod1(chars_of_bytes(name))
    } else if xmodel_type_of(model_type) == Some(XModelType::Viewhands) && v
        == XModelVersion::V20 {
        viewhand_pos_cod2(chars_of_bytes(name))
    } else {
        None
    }
}

impl XModelPart {
    /// The hand-placement override for a bone of the oldest generation's
    /// viewhands rig, if it has one.
    pub fn viewhand_table_cod1(bone_name: &String) -> (r: Option<Vec3Bits>)
        ensures
            r == viewhand_pos_cod1(bone_name@),
    {
        if str_eq_lit(bone_name, "tag_view") {
            Some([0x0u32, 0x0u32, 0x0u32])
        } else if str_eq_lit(bone_name, "tag_torso") {
            Some([0x0u32, 0x0u32, 0x0u32])
        } else if str_eq_lit(bone_name, "tag_weapon") {
            Some([0x0u32, 0x0u32, 0x0u32])
        } else if str_eq_lit(bone_name, "bip01 l upperarm") {
            Some([0x0u32, 0x0u32, 0x0u32])
        } else if str_eq_lit(bone_name, "bip01 l forearm") {
            Some([0x0u32, 0x0u32, 0x0u32])
        } else if str_eq_lit(bone_name, "bip01 l hand") {
            Some([0x0u32, 0x0u32, 0x0u32])
        } else if str_eq_lit(bone_name, "bip01 l finger0") {
            Some([0x0u32, 0x0u32, 0x0u32])
        } else if str_eq_lit(bone_name, "bip01 l finger01") {
            Some([0x0u32, 0x0u32, 0x0u32])
        } else if str_eq_lit(bone_name, "bip01 l finger02") {
            Some([0x0u32, 0x0u32, 0x0u32])
        } else if str_eq_lit(bone_name, "bip01 l finger0nub") {
            Some([0x0u32, 0x0u32, 0x0u32])
        } else if str_eq_lit(bone_name, "bip01 l finger1") {
            Some([0x0u32, 0x0u32, 0x0u32])
        } else if str_eq_lit(bone_name, "bip01 l finger11") {
            Some([0x0u32, 0x0u32, 0x0u32])
        } else if str_eq_lit(bone_name, "bip01 l finger12") {
            Some([0x0u32, 0x0u32, 0x0u32])
        } else if str_eq_lit(bone_name, "bip01 l finger1nub") {
            Some([0x0u32, 0x0u32, 0x0u32])
        } else if str_eq_lit(bone_name, "bip01 l finger2") {
            Some([0x0u32, 0x0u32, 0x0u32])
        } else if str_eq_lit(bone_name, "bip01 l finger21") {
            Some([0x0u32, 0x0u32, 0x0u32])
        } else if str_eq_lit(bone_name, "bip01 l finger22") {
            Some([0x0u32, 0x0u32, 0x0u32])
        } else if str_eq_lit(bone_name, "bip01 l finger2nub") {
            Some([0x0u32, 0x0u32, 0x0u32])
        } else if str_eq_lit(bone_name, "bip01 l finger3") {
            Some([0x0u32, 0x0u32, 0x0u32])
        } else if str_eq_lit(bone_name, "bip01 l finger31") {
            Some([0x0u32, 0x0u32, 0x0u32])
        } else if str_eq_lit(bone_name, "bip01 l finger32") {
            Some([0x0u32, 0x0u32, 0x0u32])
        } else if str_eq_lit(bone_name, "bip01 l finger3nub") {
            Some([0x0u32, 0x0u32, 0x0u32])
        } else if str_eq_lit(bone_name, "bip01 l finger4") {
            Some([0x0u32, 0x0u32, 0x0u32])
        } else if str_eq_lit(bone_name, "bip01 l finger41") {
            Some([0x0u32, 0x0u32, 0x0u32])
        } else if str_eq_lit(bone_name, "bip01 l finger42") {
            Some([0x0u32, 0x0u32, 0x0u32])
        } else if str_eq_lit(bone_name, "bip01 l finger4nub") {
            Some([0x0u32, 0x0u32, 0x0u32])
        } else if str_eq_lit(bone_name, "bip01 r upperarm") {
            Some([0x0u32, 0x0u32, 0x0u32])
        } else if str_eq_lit(bone_name, "bip01 r forearm") {
            Some([0x0u32, 0x0u32, 0x0u32])
        } else if str_eq_lit(bone_name, "bip01 r hand") {
            Some([0x0u32, 0x0u32, 0x0u32])
        } else if str_eq_lit(bone_name, "bip01 r finger0") {
            Some([0x0u32, 0x0u32, 0x0u32])
        } else if str_eq_lit(bone_name, "bip01 r finger01") {
            Some([0x0u32, 0x0u32, 0x0u32])
        } else if str_eq_lit(bone_name, "bip01 r finger02") {
            Some([0x0u32, 0x0u32, 0x0u32])
        } else if str_eq_lit(bone_name, "bip01 r finger0nub") {
            Some([0x0u32, 0x0u32, 0x0u32])
        } else if str_eq_lit(bone_name, "bip01 r finger1") {
            Some([0x0u32, 0x0u32, 0x0u32])
        } else if str_eq_lit(bone_name, "bip01 r finger11") {
            Some([0x0u32, 0x0u32, 0x0u32])
        } else if str_eq_lit(bone_name, "bip01 r finger12") {
            Some([0x0u32, 0x0u32, 0x0u32])
        } else if str_eq_lit(bone_name, "bip01 r finger1nub") {
            Some([0x0u32, 0x0u32, 0x0u32])
        } else if str_eq_lit(bone_name, "bip01 r finger2") {
            Some([0x0u32, 0x0u32, 0x0u32])
        } else if str_eq_lit(bone_name, "bip01 r finger21") {
            Some([0x0u32, 0x0u32, 0x0u32])
        } else if str_eq_lit(bone_name, "bip01 r finger22") {
            Some([0x0u32, 0x0u32, 0x0u32])
        } else if str_eq_lit(bone_name, "bip01 r finger2nub") {
            Some([0x0u32, 0x0u32, 0x0u32])
        } else if str_eq_lit(bone_name, "bip01 r finger3") {
            Some([0x0u32, 0x0u32, 0x0u32])
        } else if str_eq_lit(bone_name, "bip01 r finger31") {
            Some([0x0u32, 0x0u32, 0x0u32])
        } else if str_eq_lit(bone_name, "bip01 r finger32") {
            Some([0x0u32, 0x0u32, 0x0u32])
        } else if str_eq_lit(bone_name, "bip01 r finger3nub") {
            Some([0x0u32, 0x0u32, 0x0u32])
        } else if str_eq_lit(bone_name, "bip01 r finger4") {
            Some([0x0u32, 0x0u32, 0x0u32])
        } else if str_eq_lit(bone_name, "bip01 r finger41") {
            Some([0x0u32, 0x0u32, 0x0u32])
        } else if str_eq_lit(bone_name, "bip01 r finger42") {
            Some([0x0u32, 0x0u32, 0x0u32])
        } else if str_eq_lit(bone_name, "bip01 r finger4nub") {
            Some([0x0u32, 0x0u32, 0x0u32])
        } else if str_eq_lit(bone_name, "l hand webbing") {
            Some([0x0u32, 0x0u32, 0x0u32])
        } else if str_eq_lit(bone_name, "r hand webbing") {
            Some([0x0u32, 0x0u32, 0x0u32])
        } else if str_eq_lit(bone_name, "r cuff") {
            Some([0x0u32, 0x0u32, 0x0u32])
        } else if str_eq_lit(bone_name, "r cuff01") {
            Some([0x0u32, 0x0u32, 0x0u32])
        } else if str_eq_lit(bone_name, "r wrist") {
            Some([0x0u32, 0x0u32, 0x0u32])
        } else if str_eq_lit(bone_name, "r wrist01") {
            Some([0x0u32, 0x0u32, 0x0u32])
        } else {
            None
        }
    }

    /// The hand-placement override for a bone of the middle generation's
    /// viewhands rig, if it has one.
    pub fn viewhand_table_cod2(bone_name: &String) -> (r: Option<Vec3Bits>)
        ensures
            r == viewhand_pos_cod2(bone_name@),
    {
        if str_eq_lit(bone_name, "tag_view") {
            Some([0x0u32, 0x0u32, 0x0u32])
        } else if str_eq_lit(bone_name, "tag_torso") {
            Some([0xC13C3CDEu32, 0x0u32, 0xC05FD67Cu32])
        } else if str_eq_lit(bone_name, "j_shoulder_le") {
            Some([0x403702BCu32, 0x41A14928u32, 0xC0931CF8u32])
        } else if str_eq_lit(bone_name, "j_elbow_le") {
            Some([0x41F5BF7Du32, 0xB70637BDu32, 0x3649539Cu32])
        } else if str_eq_lit(bone_name, "j_wrist_le") {
            Some([0x41EB1FF3u32, 0x379F6230u32, 0xB649539Cu32])
        } else if str_eq_lit(bone_name, "j_thumb_le_0") {
            Some([0x4032537Au32, 0x400FB13Au32, 0x3F5A031Du32])
        } else if str_eq_lit(bone_name, "j_thumb_le_1") {
            Some([0x4099CFA2u32, 0xB58637BDu32, 0x3649539Cu32])
        } else if str_eq_lit(bone_name, "j_thumb_le_2") {
            Some([0x401BBEC6u32, 0xB60637BDu32, 0x358637BDu32])
        } else if str_eq_lit(bone_name, "j_thumb_le_3") {
            Some([0x40400000u32, 0xB58637BDu32, 0xB58637BDu32])
        } else if str_eq_lit(bone_name, "j_flesh_le") {
            Some([0x409A5263u32, 0x3F96913Au32, 0xBDE1FA76u32])
        } else if str_eq_lit(bone_name, "j_index_le_0") {
            Some([0x41288CB3u32, 0x403251F0u32, 0xB649539Cu32])
        } else if str_eq_lit(bone_name, "j_index_le_1") {
            Some([0x40920419u32, 0xB649539Cu32, 0x358637BDu32])
        } else if str_eq_lit(bone_name, "j_index_le_2") {
            Some([0x4037B310u32, 0x3649539Cu32, 0xB60637BDu32])
        } else if str_eq_lit(bone_name, "j_index_le_3") {
            Some([0x403FFFFCu32, 0x368637BDu32, 0x358637BDu32])
        } else if str_eq_lit(bone_name, "j_mid_le_0") {
            Some([0x412B7B9Eu32, 0x3EB98A87u32, 0xBEC5DF65u32])
        } else if str_eq_lit(bone_name, "j_mid_le_1") {
            Some([0x409AF6C5u32, 0xB58637BDu32, 0xB58637BDu32])
        } else if str_eq_lit(bone_name, "j_mid_le_2") {
            Some([0x403D4153u32, 0xB58637BDu32, 0xB58637BDu32])
        } else if str_eq_lit(bone_name, "j_mid_le_3") {
            Some([0x40400015u32, 0x368637BDu32, 0x0u32])
        } else if str_eq_lit(bone_name, "j_ring_le_0") {
            Some([0x411D7E6Bu32, 0xBFDFB3AFu32, 0xBECD5F14u32])
        } else if str_eq_lit(bone_name, "j_ring_le_1") {
            Some([0x409AF6BAu32, 0x368637BDu32, 0xB649539Cu32])
        } else if str_eq_lit(bone_name, "j_ring_le_2") {
            Some([0x403056BDu32, 0xB60637BDu32, 0x36A7C5ACu32])
        } else if str_eq_lit(bone_name, "j_ring_le_3") {
            Some([0x403FFFF8u32, 0xB60637BDu32, 0xB68637BDu32])
        } else if str_eq_lit(bone_name, "j_pinky_le_0") {
            Some([0x4109D1FCu32, 0xC06D4749u32, 0x3E2C3761u32])
        } else if str_eq_lit(bone_name, "j_pinky_le_1") {
            Some([0x407C53B5u32, 0x358637BDu32, 0x358637BDu32])
        } else if str_eq_lit(bone_name, "j_pinky_le_2") {
            Some([0x3FE5A5A0u32, 0x3649539Cu32, 0xB649539Cu32])
        } else if str_eq_lit(bone_name, "j_pinky_le_3") {
            Some([0x4035B891u32, 0xB58637BDu32, 0x368637BDu32])
        } else if str_eq_lit(bone_name, "j_wristtwist_le") {
            Some([0x41ACD490u32, 0x3749539Cu32, 0xB649539Cu32])
        } else if str_eq_lit(bone_name, "j_shoulder_ri") {
            Some([0x403702BCu32, 0xC1A14928u32, 0xC0931CF8u32])
        } else if str_eq_lit(bone_name, "j_elbow_ri") {
            Some([0xC1F5BF87u32, 0x368637BDu32, 0xB7C9539Cu32])
        } else if str_eq_lit(bone_name, "j_wrist_ri") {
            Some([0xC1EB2018u32, 0x38388CA4u32, 0x37B88CA4u32])
        } else if str_eq_lit(bone_name, "j_thumb_ri_0") {
            Some([0xC032505Du32, 0xC00FB0CDu32, 0xBF5A04B0u32])
        } else if str_eq_lit(bone_name, "j_thumb_ri_1") {
            Some([0xC099D191u32, 0xB88A697Bu32, 0x3913D966u32])
        } else if str_eq_lit(bone_name, "j_thumb_ri_2") {
            Some([0xC01BBDC7u32, 0xB81F6230u32, 0xB85E4C51u32])
        } else if str_eq_lit(bone_name, "j_thumb_ri_3") {
            Some([0xC0400204u32, 0x3927C5ACu32, 0x37D1B717u32])
        } else if str_eq_lit(bone_name, "j_flesh_ri") {
            Some([0xC09A528Du32, 0xBF96917Du32, 0x3DE1EE67u32])
        } else if str_eq_lit(bone_name, "j_index_ri_0") {
            Some([0xC1288C93u32, 0xC032526Eu32, 0xB6EAE18Bu32])
        } else if str_eq_lit(bone_name, "j_index_ri_1") {
            Some([0xC092037Fu32, 0xB8734507u32, 0x38627E0Fu32])
        } else if str_eq_lit(bone_name, "j_index_ri_2") {
            Some([0xC037B335u32, 0xB888509Cu32, 0x38D1B717u32])
        } else if str_eq_lit(bone_name, "j_index_ri_3") {
            Some([0xC03FFEFCu32, 0x392D03DAu32, 0xB888509Cu32])
        } else if str_eq_lit(bone_name, "j_mid_ri_0") {
            Some([0xC12B7AF6u32, 0xBEB999BBu32, 0x3EC5DE7Au32])
        } else if str_eq_lit(bone_name, "j_mid_ri_1") {
            Some([0xC09AF7A1u32, 0x391E55C1u32, 0x37EAE18Bu32])
        } else if str_eq_lit(bone_name, "j_mid_ri_2") {
            Some([0xC03D41FAu32, 0xB8B673C5u32, 0xB7B88CA4u32])
        } else if str_eq_lit(bone_name, "j_mid_ri_3") {
            Some([0xC04000FCu32, 0xB88E9B39u32, 0xB79F6230u32])
        } else if str_eq_lit(bone_name, "j_ring_ri_0") {
            Some([0xC11D7DA5u32, 0x3FDFB1C8u32, 0x3ECD5E29u32])
        } else if str_eq_lit(bone_name, "j_ring_ri_1") {
            Some([0xC09AF801u32, 0x39388CA4u32, 0xB8841EDEu32])
        } else if str_eq_lit(bone_name, "j_ring_ri_2") {
            Some([0xC0305654u32, 0xB7388CA4u32, 0x391C3CE2u32])
        } else if str_eq_lit(bone_name, "j_ring_ri_3") {
            Some([0xC04000C9u32, 0xB82BF76Au32, 0xB84D8559u32])
        } else if str_eq_lit(bone_name, "j_pinky_ri_0") {
            Some([0xC109D1F2u32, 0x406D46AAu32, 0xBE2C3D25u32])
        } else if str_eq_lit(bone_name, "j_pinky_ri_1") {
            Some([0xC07C5287u32, 0xB8F55DE6u32, 0xB888509Cu32])
        } else if str_eq_lit(bone_name, "j_pinky_ri_2") {
            Some([0xBFE5A30Au32, 0x390C825Au32, 0x3961719Fu32])
        } else if str_eq_lit(bone_name, "j_pinky_ri_3") {
            Some([0xC035B852u32, 0x386AE18Bu32, 0xB8F12C28u32])
        } else if str_eq_lit(bone_name, "j_wristtwist_ri") {
            Some([0xC1ACD4BFu32, 0x38CB6C7Au32, 0x370637BDu32])
        } else if str_eq_lit(bone_name, "tag_weapon") {
            Some([0x421A060Bu32, 0x0u32, 0xC189371Du32])
        } else if str_eq_lit(bone_name, "tag_cambone") {
            Some([0x0u32, 0x0u32, 0x0u32])
        } else if str_eq_lit(bone_name, "tag_camera") {
            Some([0x0u32, 0x0u32, 0x0u32])
        } else {
            None
        }
    }

    /// Reads `n` bone records at the current cursor.
    #[verifier::loop_isolation(false)]
    fn read_bone_records(file: &mut Reader, n: u16) -> (r: Result<
        Vec<(i8, Vec3Bits, RotRaw)>,
        Error,
    >)
        requires
            old(file).wf(),
        ensures
            final(file).bytes() == old(file).bytes(),
            final(file).wf(),
            r is Ok <==> old(file).cursor() + 19 * n <= old(file).bytes().len(),
            r matches Ok(bs) ==> (bs@.len() == n as int && final(file).cursor() == old(
                file,
            ).cursor() + 19 * n && (forall|j: int|
                0 <= j < n ==> #[trigger] bs@[j] == bone_rec(
                    old(file).bytes(),
                    old(file).cursor() + 19 * j,
                ))),
            r matches Err(e) ==> e.kind == ErrorKind::TruncatedInput,
    {
        let ghost s = old(file).bytes();
        let ghost pos0 = old(file).cursor();
        if 19 * (n as u64) > (file.len() as u64) - (file.tell() as u64) {
            return Err(Error::with_kind(ErrorKind::TruncatedInput, String::new()));
        }
        let mut bones: Vec<(i8, Vec3Bits, RotRaw)> = Vec::new();
        let mut j: usize = 0;
        while j < n as usize
            invariant
                file.wf(),
                file.bytes() == s,
                j <= n as int,
                pos0 + 19 * n <= s.len(),
                file.cursor() == pos0 + 19 * j,
                bones@.len() == j,
                forall|q: int| 0 <= q < j ==> #[trigger] bones@[q] == bone_rec(s, pos0 + 19 * q),
            decreases n as int - j,
        {
            let parent = match file.read_i8() {
                Ok(p) => p,
                Err(e) => {
                    proof {
                        assert(false);
                    }
                    return Err(e);
                },
            };
            let px = match file.read_f32_bits() {
                Ok(v) => v,
                Err(e) => {
                    proof {
                        assert(false);
                    }
                    return Err(e);
                },
            };
            let py = match file.read_f32_bits() {
                Ok(v) => v,
                Err(e) => {
                    proof {
                        assert(false);
                    }
                    return Err(e);
                },
            };
            let pz = match file.read_f32_bits() {
                Ok(v) => v,
                Err(e) => {
                    proof {
                        assert(false);
                    }
                    return Err(e);
                },
            };
            let rx = match file.read_i16() {
                Ok(v) => v,
                Err(e) => {
                    proof {
                        assert(false);
                    }
                    return Err(e);
                },
            };
            let ry = match file.read_i16() {
                Ok(v) => v,
                Err(e) => {
                    proof {
                        assert(false);
                    }
                    return Err(e);
                },
            };
            let rz = match file.read_i16() {
                Ok(v) => v,
                Err(e) => {
                    proof {
                        assert(false);
                    }
                    return Err(e);
                },
            };
            bones.push((parent, [px, py, pz], [rx, ry, rz]));
            j = j + 1;
        }
        Ok(bones)
    }

    /// Decodes a skeleton file.  The result is `Ok` exactly on the inputs
    /// `part_accepts` describes; bones keep their on-disk order, so parents
    /// always precede children.
    #[verifier::loop_isolation(false)]
    #[verifier::rlimit(100)]
    pub fn load(file_path: &str, data: Vec<u8>) -> (r: Result<XModelPart, Error>)
        requires
            crate::path::stem(crate::path::base_name(file_path@)).len() > 0,
        ensures
            r is Ok <==> part_accepts(data@),
            r matches Err(e) ==> e.kind == part_error(data@),
            r matches Ok(part) ==> ({
                let s = data@;
                let v = xmodel_version_of(le_u16(s, 0))->0;
                let names0 = part_names_parse(
                    s,
                    6 + 19 * part_bone_count(s),
                    part_root_count(s) + part_bone_count(s),
                    part_name_gap(v),
                );
                let names = (names0->0).0;
                &&& part.name@ == crate::path::stem(crate::path::base_name(file_path@))
                &&& part.version == le_u16(s, 0)
                &&& part.model_type == part.name@.last() as u8
                &&& part.bones@.len() == part_root_count(s) + part_bone_count(s)
                &&& (forall|j: int|
                    0 <= j < part.bones@.len() ==> {
                        let b = part_bone_base(s, j);
                        &&& (#[trigger] part.bones@[j]).parent == b.0
                        &&& part.bones@[j].position == b.1
                        &&& part.bones@[j].rotation == b.2
                        &&& part.bones@[j].name@ == chars_of_bytes(names[j])
                        &&& part.bones@[j].viewhand_override == part_override(
                            v,
                            part.model_type,
                            names[j],
                        )
                        &&& (b.0 == -1 ==> part.bones@[j].parent == -1)
                    })
            }),
    {
        let ghost s = data@;
        let name = crate::path::file_name_without_ext(file_path);
        let mut file = Reader::new(data);
        let version = match file.read_u16() {
            Ok(v) => v,
            Err(e) => {
                return Err(e);
            },
        };
        let xv = match XModelVersion::valid(version) {
            Some(v) => v,
            None => {
                return Err(
                    Error::with_kind(
                        ErrorKind::InvalidFormat,
                        String::from_str("invalid skeleton version"),
                    ),
                );
            },
        };
        let model_type = name.get_char(name.unicode_len() - 1) as u8;
        let viewhands = model_type == 52;

        let bone_count = match file.read_u16() {
            Ok(c) => c,
            Err(e) => {
                return Err(e);
            },
        };
        let root_bone_count = match file.read_u16() {
            Ok(c) => c,
            Err(e) => {
                return Err(e);
            },
        };
        let recs = match Self::read_bone_records(&mut file, bone_count) {
            Ok(r) => r,
            Err(e) => {
                return Err(e);
            },
        };

        let total = (root_bone_count as usize) + (bone_count as usize);
        let gap: usize = match xv {
            XModelVersion::V14 => 24,
            _ => 0,
        };
        let ghost npos0 = file.cursor();
        let mut bones: Vec<XModelPartBone> = Vec::new();
        let mut j: usize = 0;
        while j < total
            invariant
                file.wf(),
                file.bytes() == s,
                s.len() >= 6,
                j <= total,
                total == part_root_count(s) + part_bone_count(s),
                root_bone_count == part_root_count(s),
                bone_count == part_bone_count(s),
                npos0 == 6 + 19 * part_bone_count(s),
                gap == part_name_gap(xv),
                xmodel_version_of(le_u16(s, 0)) == Some(xv),
                viewhands == (model_type == 52),
                recs@.len() == bone_count as int,
                forall|q: int| 0 <= q < bone_count ==> #[trigger] recs@[q] == bone_rec(s, 6 + 19 * q),
                bones@.len() == j,
                ({
                    let p = part_names_parse(s, npos0, total as int, gap as int);
                    let q = part_names_parse(s, file.cursor(), total - j, gap as int);
                    &&& (q is Some ==> p is Some && (p->0).1 == (q->0).1 && (p->0).0.len() == j
                        + (q->0).0.len() && (forall|x: int|
                        0 <= x < j ==> {
                            let b = part_bone_base(s, x);
                            &&& (#[trigger] bones@[x]).parent == b.0
                            &&& bones@[x].position == b.1
                            &&& bones@[x].rotation == b.2
                            &&& bones@[x].name@ == chars_of_bytes((p->0).0[x])
                            &&& bones@[x].viewhand_override == part_override(
                                xv,
                                model_type,
                                (p->0).0[x],
                            )
                        }) && (forall|x: int|
                        0 <= x < (q->0).0.len() ==> #[trigger] (q->0).0[x] == (p->0).0[j + x]))
                    &&& (q is None ==> p is None)
                }),
            decreases total - j,
        {
            let ghost cur0 = file.cursor();
            let bone_name = match file.read_nullstr() {
                Ok(n) => n,
                Err(e) => {
                    return Err(e);
                },
            };
            let ghost zc = file.cursor();
            if gap > 0 {
                file.skip(gap);
            }
            proof {
                assert(file.cursor() == clamp(s, zc + gap));
            }
            let over: Option<Vec3Bits> = if viewhands {
                match xv {
                    XModelVersion::V14 => Self::viewhand_table_cod1(&bone_name),
                    XModelVersion::V20 => Self::viewhand_table_cod2(&bone_name),
                    _ => None,
                }
            } else {
                None
            };
            let bone = if j < root_bone_count as usize {
                XModelPartBone {
                    name: bone_name,
                    parent: -1,
                    position: [0u32, 0u32, 0u32],
                    rotation: [0i16, 0i16, 0i16],
                    viewhand_override: over,
                }
            } else {
                let rec = recs[j - root_bone_count as usize];
                XModelPartBone {
                    name: bone_name,
                    parent: rec.0,
                    position: rec.1,
                    rotation: rec.2,
                    viewhand_override: over,
                }
            };
            bones.push(bone);
            j = j + 1;
            proof {
                let qk = (total - (j - 1)) as int;
                let z = zc - 1;
                assert(first_zero(s, cur0) == Some(z));
                crate::binary::lemma_first_zero_range(s, cur0);
                let nb = s.subrange(cur0, z);
                assert(bone_name@ == chars_of_bytes(nb));
                let q_old = part_names_parse(s, cur0, qk, gap as int);
                let q_new = part_names_parse(s, clamp(s, z + 1 + gap), qk - 1, gap as int);
                assert(file.cursor() == clamp(s, z + 1 + gap));
                if q_new is Some {
                    assert(q_old is Some && (q_old->0).1 == (q_new->0).1);
                    assert((q_old->0).0 =~= seq![nb] + (q_new->0).0);
                    assert((q_old->0).0[0] == nb);
                    let p = part_names_parse(s, npos0, total as int, gap as int);
                    assert(p is Some);
                    assert((p->0).1 == (q_new->0).1);
                    assert((p->0).0.len() == j + (q_new->0).0.len());
                    assert((q_old->0).0[0] == (p->0).0[j - 1 + 0]);
                    assert(bones@[j - 1].name@ == chars_of_bytes((p->0).0[j - 1]));
                    assert(bones@[j - 1].viewhand_override == part_override(
                        xv,
                        model_type,
                        (p->0).0[j - 1],
                    ));
                    assert forall|x: int| 0 <= x < (q_new->0).0.len() implies #[trigger] (
                    q_new->0).0[x] == (p->0).0[j + x] by {
                        assert((q_old->0).0[x + 1] == (p->0).0[j - 1 + (x + 1)]);
                        assert((q_old->0).0[x + 1] == (q_new->0).0[x]);
                    }
                } else {
                    assert(q_old is None);
                }
            }
        }
        proof {
            assert(model_type == name@.last() as u8);
        }
        Ok(XModelPart { name, version, model_type, bones })
    }
}

} // verus!
