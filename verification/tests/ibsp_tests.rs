//! Map container tests.

use cod_asset_importer::error::ErrorKind;
use cod_asset_importer::ibsp::{Ibsp, IbspVersion};

/// Builds a minimal older-generation map: one material, one triangle soup,
/// three vertices, one triangle, and the given entity text.
fn map_v59(entities: &str) -> Vec<u8> {
    let ent = entities.as_bytes();
    let mut f = Vec::new();
    f.extend_from_slice(b"IBSP");
    f.extend_from_slice(&59i32.to_le_bytes());
    // Lump table: 39 (length, offset) pairs, lumps packed from offset 320.
    let materials_off = 320u32;
    let soups_off = materials_off + 72;
    let verts_off = soups_off + 16;
    let tris_off = verts_off + 3 * 44;
    let ents_off = tris_off + 6;
    for k in 0..39u32 {
        let (len, off) = match k {
            0 => (72u32, materials_off),
            6 => (16u32, soups_off),
            7 => (3 * 44u32, verts_off),
            8 => (6u32, tris_off),
            29 => (ent.len() as u32, ents_off),
            _ => (0u32, 0u32),
        };
        f.extend_from_slice(&len.to_le_bytes());
        f.extend_from_slice(&off.to_le_bytes());
    }
    // Material record: 64-byte name + 8-byte flag.
    let mut name = [0u8; 64];
    name[..4].copy_from_slice(b"rock");
    f.extend_from_slice(&name);
    f.extend_from_slice(&0u64.to_le_bytes());
    // Triangle soup.
    f.extend_from_slice(&0u16.to_le_bytes()); // material_idx
    f.extend_from_slice(&0u16.to_le_bytes()); // draw_order
    f.extend_from_slice(&0u32.to_le_bytes()); // vertices_offset
    f.extend_from_slice(&3u16.to_le_bytes()); // vertices_length
    f.extend_from_slice(&3u16.to_le_bytes()); // triangles_length
    f.extend_from_slice(&0u32.to_le_bytes()); // triangles_offset
    // Three vertices, 44 bytes each: position, uv, 8-byte gap, normal, color.
    for i in 0..3u32 {
        for c in 0..3u32 {
            f.extend_from_slice(&((i * 10 + c) as f32).to_le_bytes());
        }
        f.extend_from_slice(&0.25f32.to_le_bytes());
        f.extend_from_slice(&0.75f32.to_le_bytes());
        f.extend_from_slice(&[0u8; 8]);
        for _ in 0..3u32 {
            f.extend_from_slice(&1.0f32.to_le_bytes());
        }
        f.extend_from_slice(&[10, 20, 30, 40]);
    }
    // One on-disk triangle (0, 1, 2).
    for t in [0u16, 1, 2] {
        f.extend_from_slice(&t.to_le_bytes());
    }
    f.extend_from_slice(ent);
    f
}

const ENT_TEXT: &str =
    "{\n\"classname\" \"foo\"\n\"model\" \"xmodel/bar\"\n}\n{\n\"classname\" \"spawn\"\n}";

#[test]
fn map_surface_winding_is_reversed() {
    let ibsp = Ibsp::load("maps/test.bsp", map_v59(ENT_TEXT)).unwrap();
    assert_eq!(ibsp.name, "test");
    assert_eq!(ibsp.version, 59);
    assert_eq!(ibsp.surfaces.len(), 1);
    let s = &ibsp.surfaces[0];
    assert_eq!(s.material, "rock");
    assert_eq!(s.vertices.len(), 3);
    // On-disk (0, 1, 2) becomes dense (0, 2, 1): the winding reversal.
    assert_eq!(s.triangles, vec![0, 2, 1]);
}

#[test]
fn map_surface_indices_are_dense() {
    let ibsp = Ibsp::load("maps/test.bsp", map_v59(ENT_TEXT)).unwrap();
    for s in &ibsp.surfaces {
        for &t in &s.triangles {
            assert!((t as usize) < s.vertices.len());
        }
    }
}

#[test]
fn map_vertex_fields_are_bit_exact() {
    let ibsp = Ibsp::load("maps/test.bsp", map_v59(ENT_TEXT)).unwrap();
    let v = &ibsp.surfaces[0].vertices[0];
    assert_eq!(v.position, [0.0f32.to_bits(), 1.0f32.to_bits(), 2.0f32.to_bits()]);
    assert_eq!(v.normal, [1.0f32.to_bits(); 3]);
    assert_eq!(v.color, [10, 20, 30, 40]);
    // The V flip of this generation is applied downstream; the raw value stays.
    assert_eq!(v.uv, [0.25f32.to_bits(), 0.75f32.to_bits()]);
}

#[test]
fn entity_repair_keeps_one_placement() {
    let ibsp = Ibsp::load("maps/test.bsp", map_v59(ENT_TEXT)).unwrap();
    assert_eq!(ibsp.entities.len(), 1);
    assert_eq!(ibsp.entities[0].name, "bar");
    assert!(ibsp.entities[0].angles.is_none());
    assert!(ibsp.entities[0].scale.is_none());
}

#[test]
fn entity_transform_tokens_split_and_broadcast() {
    let text = "{\n\"model\" \"xmodel/crate\"\n\"origin\" \"1 2 3\"\n\"modelscale\" \"2\"\n}";
    let ibsp = Ibsp::load("maps/test.bsp", map_v59(text)).unwrap();
    assert_eq!(ibsp.entities.len(), 1);
    let e = &ibsp.entities[0];
    let o = e.origin.as_ref().unwrap();
    assert_eq!((o.x.as_str(), o.y.as_str(), o.z.as_str()), ("1", "2", "3"));
    let s = e.scale.as_ref().unwrap();
    assert_eq!((s.x.as_str(), s.y.as_str(), s.z.as_str()), ("2", "2", "2"));
}

#[test]
fn entity_exclusions_drop_fx_and_actor() {
    let text = "{\n\"model\" \"xmodel/fx\"\n}\n{\n\"model\" \"xmodel/man\"\n\"classname\" \"actor_foo\"\n}";
    let ibsp = Ibsp::load("maps/test.bsp", map_v59(text)).unwrap();
    assert_eq!(ibsp.entities.len(), 0);
}

#[test]
fn unbraced_entity_text_is_malformed() {
    // Without its enclosing braces the first record fails the repaired
    // structured-document parse, as it does in the generic parser.
    let text = "\"classname\" \"foo\"\n\"model\" \"xmodel/bar\"\n{\n\"classname\" \"spawn\"\n}";
    let r = Ibsp::load("maps/test.bsp", map_v59(text));
    assert_eq!(r.err().unwrap().kind, ErrorKind::MalformedText);
}

#[test]
fn map_bad_magic_is_invalid_format() {
    let mut f = map_v59(ENT_TEXT);
    f[0] = b'X';
    let r = Ibsp::load("maps/test.bsp", f);
    assert_eq!(r.err().unwrap().kind, ErrorKind::InvalidFormat);
}

#[test]
fn map_unknown_version_is_invalid_format() {
    let mut f = map_v59(ENT_TEXT);
    f[4] = 77;
    let r = Ibsp::load("maps/test.bsp", f);
    assert_eq!(r.err().unwrap().kind, ErrorKind::InvalidFormat);
}

#[test]
fn map_truncated_is_truncated_input() {
    let f = map_v59(ENT_TEXT);
    let r = Ibsp::load("maps/test.bsp", f[..100].to_vec());
    assert_eq!(r.err().unwrap().kind, ErrorKind::TruncatedInput);
}

#[test]
fn map_version_table() {
    assert_eq!(IbspVersion::valid(0x3B), Some(IbspVersion::V59));
    assert_eq!(IbspVersion::valid(0x4), Some(IbspVersion::V4));
    assert_eq!(IbspVersion::valid(2), None);
}

#[test]
fn material_name_trims_zero_padding() {
    let ibsp = Ibsp::load("maps/test.bsp", map_v59(ENT_TEXT)).unwrap();
    assert_eq!(ibsp.materials.len(), 1);
    assert_eq!(ibsp.materials[0].get_name(), "rock");
}
