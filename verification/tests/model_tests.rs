//! Model descriptor, skeleton, mesh, material and cache tests.

use cod_asset_importer::error::ErrorKind;
use cod_asset_importer::loader::{CacheState, CachedModel, LoadedModel, ModelCache, RequestAction};
use cod_asset_importer::material::{Material, TextureType};
use cod_asset_importer::path::{file_name, file_name_without_ext};
use cod_asset_importer::xmodel::{GameVersion, XModel, XModelVersion};
use cod_asset_importer::xmodelpart::XModelPart;
use cod_asset_importer::xmodelsurf::XModelSurf;

fn push_str(f: &mut Vec<u8>, s: &str) {
    f.extend_from_slice(s.as_bytes());
    f.push(0);
}

/// A minimal middle-generation descriptor: one retained LOD with one
/// material name.
fn xmodel_v20() -> Vec<u8> {
    let mut f = Vec::new();
    f.extend_from_slice(&0x14u16.to_le_bytes());
    f.extend_from_slice(&[0u8; 25]); // header gap
    // Four LOD slots: one named, three empty.
    f.extend_from_slice(&100.0f32.to_le_bytes());
    push_str(&mut f, "body_lod0");
    for _ in 0..3 {
        f.extend_from_slice(&0.0f32.to_le_bytes());
        f.push(0);
    }
    f.extend_from_slice(&[0u8; 4]); // gap before the opaque section
    f.extend_from_slice(&1u32.to_le_bytes()); // one opaque sub-block
    f.extend_from_slice(&0u32.to_le_bytes()); // its count word: 36 byte body
    f.extend_from_slice(&[0u8; 36]);
    // The retained LOD's material list.
    f.extend_from_slice(&1u16.to_le_bytes());
    push_str(&mut f, "mtl_body");
    f
}

#[test]
fn xmodel_reads_lods_and_materials() {
    let m = XModel::load("xmodel/guard", xmodel_v20(), GameVersion::CoD2).unwrap();
    assert_eq!(m.name, "guard");
    assert_eq!(m.version, XModelVersion::V20);
    assert_eq!(m.lods.len(), 1);
    assert_eq!(m.lods[0].name, "body_lod0");
    assert_eq!(m.lods[0].distance, 100.0f32.to_bits());
    assert_eq!(m.lods[0].materials, vec!["mtl_body".to_string()]);
}

#[test]
fn xmodel_version_mismatch_is_invalid_format() {
    let r = XModel::load("xmodel/guard", xmodel_v20(), GameVersion::CoD4);
    assert_eq!(r.err().unwrap().kind, ErrorKind::InvalidFormat);
}

#[test]
fn xmodel_unknown_tag_is_invalid_format() {
    let mut f = xmodel_v20();
    f[0] = 0x42;
    let r = XModel::load("xmodel/guard", f, GameVersion::CoD2);
    assert_eq!(r.err().unwrap().kind, ErrorKind::InvalidFormat);
}

/// A minimal middle-generation skeleton for the viewhands rig: one root
/// bone and one stored bone named from the override table.
fn part_v20() -> Vec<u8> {
    let mut f = Vec::new();
    f.extend_from_slice(&0x14u16.to_le_bytes());
    f.extend_from_slice(&1u16.to_le_bytes()); // bone_count
    f.extend_from_slice(&1u16.to_le_bytes()); // root_bone_count
    // One stored bone record: parent, position, compressed rotation.
    f.push(0); // parent 0
    f.extend_from_slice(&1.0f32.to_le_bytes());
    f.extend_from_slice(&0.0f32.to_le_bytes());
    f.extend_from_slice(&0.0f32.to_le_bytes());
    f.extend_from_slice(&0i16.to_le_bytes());
    f.extend_from_slice(&0i16.to_le_bytes());
    f.extend_from_slice(&0i16.to_le_bytes());
    // Names, in index order: the root, then the stored bone.
    push_str(&mut f, "tag_view");
    push_str(&mut f, "tag_weapon");
    f
}

#[test]
fn skeleton_reads_bones_in_order() {
    // The trailing `4` of the stem marks the viewhands model type.
    let p = XModelPart::load("xmodelparts/hands4", part_v20()).unwrap();
    assert_eq!(p.name, "hands4");
    assert_eq!(p.model_type, b'4');
    assert_eq!(p.bones.len(), 2);
    assert_eq!(p.bones[0].name, "tag_view");
    assert_eq!(p.bones[0].parent, -1);
    assert_eq!(p.bones[0].position, [0u32; 3]);
    assert_eq!(p.bones[1].name, "tag_weapon");
    assert_eq!(p.bones[1].parent, 0);
    assert_eq!(p.bones[1].position[0], 1.0f32.to_bits());
}

#[test]
fn skeleton_viewhands_override_uses_table_values() {
    let p = XModelPart::load("xmodelparts/hands4", part_v20()).unwrap();
    // tag_view maps to the origin; tag_weapon to its fixed table entry.
    assert_eq!(p.bones[0].viewhand_override, Some([0.0f32.to_bits(); 3]));
    assert_eq!(
        p.bones[1].viewhand_override,
        Some([
            38.5059f32.to_bits(),
            0.0f32.to_bits(),
            (-17.15191f32).to_bits(),
        ])
    );
}

#[test]
fn skeleton_without_viewhands_type_has_no_override() {
    let p = XModelPart::load("xmodelparts/body1", part_v20()).unwrap();
    assert_eq!(p.bones[0].viewhand_override, None);
    assert_eq!(p.bones[1].viewhand_override, None);
}

#[test]
fn skeleton_unknown_tag_is_invalid_format() {
    let mut f = part_v20();
    f[0] = 0x42;
    let r = XModelPart::load("xmodelparts/hands4", f);
    assert_eq!(r.err().unwrap().kind, ErrorKind::InvalidFormat);
}

/// A minimal middle-generation mesh: one surface, two rigid vertices, one
/// triangle.
fn surf_v20() -> Vec<u8> {
    let mut f = Vec::new();
    f.extend_from_slice(&0x14u16.to_le_bytes());
    f.extend_from_slice(&1u16.to_le_bytes()); // surface count
    f.push(0); // surface tag byte
    f.extend_from_slice(&2u16.to_le_bytes()); // vertex count
    f.extend_from_slice(&1u16.to_le_bytes()); // triangle count
    f.extend_from_slice(&7u16.to_le_bytes()); // default bone (not the sentinel)
    for i in 0..2u32 {
        for _ in 0..3 {
            f.extend_from_slice(&1.0f32.to_le_bytes()); // normal
        }
        f.extend_from_slice(&[1, 2, 3, 4]); // color
        f.extend_from_slice(&0.5f32.to_le_bytes()); // u
        f.extend_from_slice(&0.25f32.to_le_bytes()); // v
        f.extend_from_slice(&[0u8; 24]); // gap
        for c in 0..3u32 {
            f.extend_from_slice(&((i * 10 + c) as f32).to_le_bytes()); // position
        }
    }
    for t in [0u16, 1, 1] {
        f.extend_from_slice(&t.to_le_bytes());
    }
    f
}

#[test]
fn mesh_reads_vertices_and_reverses_winding() {
    let m = XModelSurf::load("xmodelsurfs/guard1", surf_v20()).unwrap();
    assert_eq!(m.name, "guard1");
    assert_eq!(m.version, 0x14);
    assert_eq!(m.surfaces.len(), 1);
    let s = &m.surfaces[0];
    assert_eq!(s.vertices.len(), 2);
    assert_eq!(s.vertices[0].bone, 7);
    assert_eq!(s.vertices[0].weights.len(), 0);
    assert_eq!(s.vertices[0].color, [1, 2, 3, 4]);
    assert_eq!(s.vertices[1].position[0], 10.0f32.to_bits());
    // On-disk (0, 1, 1) is stored as (0, 1, 1) reversed: (a, c, b).
    assert_eq!(s.triangles, vec![0, 1, 1]);
}

#[test]
fn mesh_unknown_tag_is_invalid_format() {
    let mut f = surf_v20();
    f[0] = 0x42;
    let r = XModelSurf::load("xmodelsurfs/guard1", f);
    assert_eq!(r.err().unwrap().kind, ErrorKind::InvalidFormat);
}

#[test]
fn mesh_truncated_is_truncated_input() {
    let f = surf_v20();
    let r = XModelSurf::load("xmodelsurfs/guard1", f[..20].to_vec());
    assert_eq!(r.err().unwrap().kind, ErrorKind::TruncatedInput);
}

/// A minimal material record: name, techset and one color texture.
fn material_file() -> Vec<u8> {
    // Layout: 60-byte header, then the three strings and one entry.
    let name_off = 60u32;
    let techset_off = 69u32;
    let textures_off = 77u32;
    let mut f = Vec::new();
    f.extend_from_slice(&name_off.to_le_bytes());
    f.extend_from_slice(&[0u8; 44]);
    f.extend_from_slice(&1u16.to_le_bytes()); // texture count
    f.extend_from_slice(&[0u8; 2]);
    f.extend_from_slice(&techset_off.to_le_bytes());
    f.extend_from_slice(&textures_off.to_le_bytes());
    assert_eq!(f.len(), 60);
    push_str(&mut f, "mtl_wall"); // 60..69
    push_str(&mut f, "ts_lit"); // 69..76
    f.push(0); // padding to 77
    let type_off = 89u32;
    let texname_off = 98u32;
    f.extend_from_slice(&type_off.to_le_bytes());
    f.extend_from_slice(&5u32.to_le_bytes()); // flags
    f.extend_from_slice(&texname_off.to_le_bytes());
    push_str(&mut f, "colorMap"); // 89..98
    push_str(&mut f, "wall_col");
    f
}

#[test]
fn material_reads_strings_and_classifies_textures() {
    let m = Material::load(material_file(), false).unwrap();
    assert_eq!(m.name, "mtl_wall");
    assert_eq!(m.techset, "ts_lit");
    assert_eq!(m.textures.len(), 1);
    assert_eq!(m.textures[0].texture_type, TextureType::Color);
    assert_eq!(m.textures[0].flags, 5);
    assert_eq!(m.textures[0].name, "wall_col");
}

#[test]
fn material_unknown_type_string_is_unused() {
    let mut f = material_file();
    // Overwrite the type string "colorMap" with an unrecognized one.
    f[89..97].copy_from_slice(b"oddMap\0\0");
    let m = Material::load(f, false).unwrap();
    assert_eq!(m.textures[0].texture_type, TextureType::Unused);
}

#[test]
fn material_truncated_is_truncated_input() {
    let r = Material::load(vec![1, 2, 3], false);
    assert_eq!(r.err().unwrap().kind, ErrorKind::TruncatedInput);
}

fn dummy_model() -> LoadedModel {
    LoadedModel {
        model: XModel::load("xmodel/guard", xmodel_v20(), GameVersion::CoD2).unwrap(),
        skeleton: None,
        mesh: XModelSurf::load("xmodelsurfs/guard1", surf_v20()).unwrap(),
        materials: Vec::new(),
    }
}

#[test]
fn cache_deduplicates_requests() {
    let mut cache = ModelCache::new();
    let name = "guard".to_string();
    // The first requester starts the decode; every later one waits.
    assert_eq!(cache.request(&name), RequestAction::StartLoad);
    assert_eq!(cache.request(&name), RequestAction::Wait);
    assert_eq!(cache.request(&name), RequestAction::Wait);
    assert!(cache.get_model(&name).is_none());
    // Completion turns the name Ready; later requesters read the cache.
    cache.set_model(&name, CachedModel::Cached(dummy_model()));
    assert_eq!(cache.request(&name), RequestAction::UseCached);
    assert!(cache.get_model(&name).is_some());
    // A different name starts its own decode exactly once.
    let other = "tank".to_string();
    assert_eq!(cache.request(&other), RequestAction::StartLoad);
    assert_eq!(cache.request(&other), RequestAction::Wait);
}

#[test]
fn cache_probe_reports_states() {
    let mut cache = ModelCache::new();
    let name = "guard".to_string();
    assert_eq!(cache.probe(&name), CacheState::Absent);
    cache.set_model(&name, CachedModel::Loading);
    assert_eq!(cache.probe(&name), CacheState::Loading);
    cache.set_model(&name, CachedModel::Cached(dummy_model()));
    assert_eq!(cache.probe(&name), CacheState::Ready);
}

#[test]
fn path_helpers_split_names() {
    assert_eq!(file_name("maps/mp/toujane.d3dbsp"), "toujane.d3dbsp");
    assert_eq!(file_name_without_ext("maps/mp/toujane.d3dbsp"), "toujane");
    assert_eq!(file_name_without_ext("guard"), "guard");
    assert_eq!(file_name_without_ext("dir\\sub\\a.tar.gz"), "a.tar");
    assert_eq!(file_name_without_ext(".hidden"), ".hidden");
}

/// A minimal oldest-generation mesh: strips, no color on disk, explicit
/// weight slots only when rigged.
fn surf_v14(strip: &[u8]) -> Vec<u8> {
    let mut f = Vec::new();
    f.extend_from_slice(&0x0Eu16.to_le_bytes());
    f.extend_from_slice(&1u16.to_le_bytes()); // surface count
    f.push(0); // tag byte
    f.extend_from_slice(&1u16.to_le_bytes()); // vertex count
    f.extend_from_slice(&1u16.to_le_bytes()); // triangle count
    f.extend_from_slice(&[0u8; 2]);
    f.extend_from_slice(&5u16.to_le_bytes()); // default bone (not the sentinel)
    f.extend_from_slice(strip);
    // One rigid vertex: normal, uv, position.
    for _ in 0..3 {
        f.extend_from_slice(&1.0f32.to_le_bytes());
    }
    f.extend_from_slice(&0.5f32.to_le_bytes());
    f.extend_from_slice(&0.5f32.to_le_bytes());
    for c in 0..3u32 {
        f.extend_from_slice(&(c as f32).to_le_bytes());
    }
    f
}

fn strip_group(count: u8, idxs: &[u16]) -> Vec<u8> {
    let mut g = vec![count];
    for i in idxs {
        g.extend_from_slice(&i.to_le_bytes());
    }
    g
}

#[test]
fn mesh_v14_unrolls_a_strip() {
    // One group of three indices (0, 1, 2): the initial triple is emitted
    // reversed.
    let strip = strip_group(3, &[0, 1, 2]);
    let m = XModelSurf::load("xmodelsurfs/old1", surf_v14(&strip)).unwrap();
    let s = &m.surfaces[0];
    assert_eq!(s.triangles, vec![2, 1, 0]);
    assert_eq!(s.vertices.len(), 1);
    assert_eq!(s.vertices[0].bone, 5);
    assert_eq!(s.vertices[0].color, [255, 255, 255, 255]);
    assert_eq!(s.vertices[0].weights.len(), 0);
}

#[test]
fn mesh_v14_skips_degenerate_triples() {
    // The first group's triple repeats an index and is dropped; the walk
    // reads another group to reach the declared count.
    let mut strip = strip_group(3, &[0, 0, 2]);
    strip.extend_from_slice(&strip_group(3, &[3, 4, 5]));
    let m = XModelSurf::load("xmodelsurfs/old1", surf_v14(&strip)).unwrap();
    assert_eq!(m.surfaces[0].triangles, vec![5, 4, 3]);
}

#[test]
fn mesh_v14_strip_alternates_winding() {
    // One group of five indices: the walk keeps the last two indices and
    // emits (idx5, idx2, idx4) after the initial reversed triple.
    let strip = strip_group(5, &[0, 1, 2, 3, 4]);
    let mut f = Vec::new();
    f.extend_from_slice(&0x0Eu16.to_le_bytes());
    f.extend_from_slice(&1u16.to_le_bytes());
    f.push(0);
    f.extend_from_slice(&1u16.to_le_bytes());
    f.extend_from_slice(&3u16.to_le_bytes()); // three triangles expected
    f.extend_from_slice(&[0u8; 2]);
    f.extend_from_slice(&5u16.to_le_bytes());
    f.extend_from_slice(&strip);
    for _ in 0..3 {
        f.extend_from_slice(&1.0f32.to_le_bytes());
    }
    f.extend_from_slice(&0.5f32.to_le_bytes());
    f.extend_from_slice(&0.5f32.to_le_bytes());
    for c in 0..3u32 {
        f.extend_from_slice(&(c as f32).to_le_bytes());
    }
    let m = XModelSurf::load("xmodelsurfs/old1", f).unwrap();
    assert_eq!(m.surfaces[0].triangles, vec![2, 1, 0, 3, 1, 2, 4, 3, 2]);
}

#[test]
fn mesh_v20_rigged_vertex_records_extra_weights() {
    let mut f = Vec::new();
    f.extend_from_slice(&0x14u16.to_le_bytes());
    f.extend_from_slice(&1u16.to_le_bytes()); // surface count
    f.push(0);
    f.extend_from_slice(&1u16.to_le_bytes()); // vertex count
    f.extend_from_slice(&0u16.to_le_bytes()); // triangle count
    f.extend_from_slice(&65535u16.to_le_bytes()); // the rigged sentinel
    f.extend_from_slice(&[0u8; 2]); // sentinel's extra gap
    for _ in 0..3 {
        f.extend_from_slice(&1.0f32.to_le_bytes()); // normal
    }
    f.extend_from_slice(&[9, 9, 9, 9]); // color
    f.extend_from_slice(&0.5f32.to_le_bytes());
    f.extend_from_slice(&0.5f32.to_le_bytes());
    f.extend_from_slice(&[0u8; 24]);
    f.push(2); // weight count
    f.extend_from_slice(&3u16.to_le_bytes()); // vertex bone
    for c in 0..3u32 {
        f.extend_from_slice(&(c as f32).to_le_bytes()); // position
    }
    f.push(0); // pre-weight gap
    for (bone, raw) in [(4u16, 20000u16), (6u16, 10000u16)] {
        f.extend_from_slice(&bone.to_le_bytes());
        f.extend_from_slice(&[0u8; 12]);
        f.extend_from_slice(&raw.to_le_bytes());
    }
    let m = XModelSurf::load("xmodelsurfs/guard1", f).unwrap();
    let v = &m.surfaces[0].vertices[0];
    assert_eq!(v.bone, 3);
    assert_eq!(v.weights.len(), 2);
    assert_eq!((v.weights[0].bone, v.weights[0].influence_raw), (4, 20000));
    assert_eq!((v.weights[1].bone, v.weights[1].influence_raw), (6, 10000));
    // The implied first weight is 1 - (20000 + 10000) / 65535, unclamped,
    // computed downstream from exactly these raw fields.
}
