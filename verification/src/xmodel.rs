//! Model descriptor decoding.
//!
//! A descriptor opens with a version tag that must match the version the
//! caller's selected game pairing expects.  Per version the decoder skips a
//! fixed header, reads the LOD slots (distance plus name, empty names
//! skipped), skips a stream-encoded opaque section, and reads each retained
//! LOD's material-name list.

use vstd::prelude::*;

use crate::binary::{chars_of_bytes, first_zero, le_u16, le_u32, Reader};
use crate::error::{Error, ErrorKind};

verus! {

/// The game/version pairings a caller can select.
#[derive(Clone, Copy, Debug, PartialEq, Eq, Structural)]
pub enum GameVersion {
    CoD1,
    CoD2,
    CoD4,
    CoD5,
    CoD7,
}

/// The supported model file versions.
#[derive(Clone, Copy, Debug, PartialEq, Eq, Structural)]
pub enum XModelVersion {
    V14,
    V20,
    V25,
    V62,
}

/// The asset kinds a model name's final character selects.
#[derive(Clone, Copy, Debug, PartialEq, Eq, Structural)]
pub enum XModelType {
    Rigid,
    Animated,
    Viewmodel,
    Playerbody,
    Viewhands,
}

/// One level-of-detail slot: its name, switch distance (an IEEE 754 bit
/// pattern) and material names.
pub struct XModelLod {
    pub name: String,
    pub distance: u32,
    pub materials: Vec<String>,
}

/// A decoded model descriptor.
pub struct XModel {
    pub name: String,
    pub version: XModelVersion,
    pub lods: Vec<XModelLod>,
}

/// The version selected by a version tag, if supported.
pub open spec fn xmodel_version_of(v: u16) -> Option<XModelVersion> {
    if v == 0x0E {
        Some(XModelVersion::V14)
    } else if v == 0x14 {
        Some(XModelVersion::V20)
    } else if v == 0x19 {
        Some(XModelVersion::V25)
    } else if v == 0x3E {
        Some(XModelVersion::V62)
    } else {
        None
    }
}

impl XModelVersion {
    /// Decides the version a version tag selects.
    pub fn valid(v: u16) -> (r: Option<XModelVersion>)
        ensures
            r == xmodel_version_of(v),
    {
        if v == 0x0E {
            Some(XModelVersion::V14)
        } else if v == 0x14 {
            Some(XModelVersion::V20)
        } else if v == 0x19 {
            Some(XModelVersion::V25)
        } else if v == 0x3E {
            Some(XModelVersion::V62)
        } else {
            None
        }
    }
}

/// The model-type selector of an asset name's final character.
pub open spec fn xmodel_type_of(c: u8) -> Option<XModelType> {
    if c == 48 {
        Some(XModelType::Rigid)
    } else if c == 49 {
        Some(XModelType::Animated)
    } else if c == 50 {
        Some(XModelType::Viewmodel)
    } else if c == 51 {
        Some(XModelType::Playerbody)
    } else {
        if c == 52 {
            Some(XModelType::Viewhands)
        } else {
            None
        }
    }
}

/// The version tag each game pairing expects.
pub open spec fn expected_version(g: GameVersion) -> u16 {
    match g {
        GameVersion::CoD1 => 0x0E,
        GameVersion::CoD2 => 0x14,
        GameVersion::CoD4 => 0x19,
        GameVersion::CoD5 => 0x19,
        GameVersion::CoD7 => 0x3E,
    }
}

/// The header gap between the version tag and the first LOD slot.
pub open spec fn lod_table_pos(g: GameVersion) -> int {
    match g {
        GameVersion::CoD1 => 26int,
        GameVersion::CoD2 => 27int,
        GameVersion::CoD4 => 28int,
        GameVersion::CoD5 => 29int,
        GameVersion::CoD7 => 30int,
    }
}

/// How many LOD slots each game pairing stores.
pub open spec fn lod_slots(g: GameVersion) -> int {
    match g {
        GameVersion::CoD1 => 3,
        _ => 4,
    }
}

/// A cursor clamped to the end of the buffer, as the reader clamps.
pub open spec fn clamp(s: Seq<u8>, pos: int) -> int {
    if pos <= s.len() {
        pos
    } else {
        s.len() as int
    }
}

/// Parses `k` LOD slots from `pos`: each holds a distance word and a
/// zero-terminated name; slots with empty names are dropped.  Returns the
/// retained `(distance, name)` pairs and the cursor after the table.
pub open spec fn lods_parse(s: Seq<u8>, pos: int, k: int) -> Option<(Seq<(u32, Seq<u8>)>, int)>
    decreases k,
{
    if k <= 0 {
        Some((Seq::empty(), pos))
    } else if pos + 4 > s.len() {
        None
    } else {
        let dist = le_u32(s, pos);
        match first_zero(s, pos + 4) {
            None => None,
            Some(z) => {
                let name = s.subrange(pos + 4, z);
                match lods_parse(s, z + 1, k - 1) {
                    None => None,
                    Some((rest, end)) => if name.len() > 0 {
                        Some((seq![(dist, name)] + rest, end))
                    } else {
                        Some((rest, end))
                    },
                }
            },
        }
    }
}

/// Skips `n` stream-encoded opaque sub-blocks from `pos`: each holds a
/// count word and `count * 48 + 36` further bytes.
pub open spec fn padding_parse(s: Seq<u8>, pos: int, n: int) -> Option<int>
    decreases n,
{
    if n <= 0 {
        Some(pos)
    } else if pos + 4 > s.len() {
        None
    } else {
        padding_parse(s, clamp(s, pos + 4 + (le_u32(s, pos) * 48 + 36)), n - 1)
    }
}

/// Parses `n` zero-terminated names from `pos`.
pub open spec fn names_parse(s: Seq<u8>, pos: int, n: int) -> Option<(Seq<Seq<u8>>, int)>
    decreases n,
{
    if n <= 0 {
        Some((Seq::empty(), pos))
    } else {
        match first_zero(s, pos) {
            None => None,
            Some(z) => {
                let name = s.subrange(pos, z);
                match names_parse(s, z + 1, n - 1) {
                    None => None,
                    Some((rest, end)) => Some((seq![name] + rest, end)),
                }
            },
        }
    }
}

/// Parses the material-name list of `k` retained LODs from `pos`: each list
/// opens with its own count word.
pub open spec fn lodmats_parse(s: Seq<u8>, pos: int, k: int) -> Option<(Seq<Seq<Seq<u8>>>, int)>
    decreases k,
{
    if k <= 0 {
        Some((Seq::empty(), pos))
    } else if pos + 2 > s.len() {
        None
    } else {
        let n = le_u16(s, pos);
        match names_parse(s, pos + 2, n as int) {
            None => None,
            Some((names, p2)) => match lodmats_parse(s, p2, k - 1) {
                None => None,
                Some((rest, end)) => Some((seq![names] + rest, end)),
            },
        }
    }
}

proof fn lemma_lodmats_len(s: Seq<u8>, pos: int, k: int)
    requires
        k >= 0,
        lodmats_parse(s, pos, k) is Some,
    ensures
        ((lodmats_parse(s, pos, k)->0).0).len() == k,
    decreases k,
{
    if k > 0 {
        let n = le_u16(s, pos);
        let np = names_parse(s, pos + 2, n as int);
        lemma_lodmats_len(s, (np->0).1, k - 1);
    }
}

/// Where the LOD table of the newest generation starts: its fixed header
/// gap is followed by two zero-terminated names and five more bytes.
pub open spec fn v62_lod_pos(s: Seq<u8>) -> Option<int> {
    match first_zero(s, clamp(s, 30)) {
        None => None,
        Some(z1) => match first_zero(s, z1 + 1) {
            None => None,
            Some(z2) => Some(clamp(s, z2 + 1 + 5)),
        },
    }
}

/// Where the LOD table starts, per game pairing.
pub open spec fn xmodel_lod_pos(s: Seq<u8>, g: GameVersion) -> Option<int> {
    if g == GameVersion::CoD7 {
        v62_lod_pos(s)
    } else {
        Some(clamp(s, lod_table_pos(g)))
    }
}

/// The parsed descriptor body: retained LOD slots and their material
/// names.
pub open spec fn xmodel_parse(s: Seq<u8>, g: GameVersion) -> Option<
    (Seq<(u32, Seq<u8>)>, Seq<Seq<Seq<u8>>>),
> {
    match xmodel_lod_pos(s, g) {
        None => None,
        Some(p0) => match lods_parse(s, p0, lod_slots(g)) {
            None => None,
            Some((lods, p1)) => {
                if clamp(s, p1 + 4) + 4 > s.len() {
                    None
                } else {
                    let pcount = le_u32(s, clamp(s, p1 + 4));
                    match padding_parse(s, clamp(s, p1 + 4) + 4, pcount as int) {
                        None => None,
                        Some(p2) => match lodmats_parse(s, p2, lods.len() as int) {
                            None => None,
                            Some((mats, _)) => Some((lods, mats)),
                        },
                    }
                }
            },
        },
    }
}

/// Whether a descriptor matches its expected version and parses whole.
pub open spec fn xmodel_accepts(s: Seq<u8>, g: GameVersion) -> bool {
    &&& s.len() >= 2
    &&& xmodel_version_of(le_u16(s, 0)) is Some
    &&& le_u16(s, 0) == expected_version(g)
    &&& xmodel_parse(s, g) is Some
}

/// The kind of the first failure the sequential decode runs into.
pub open spec fn xmodel_error(s: Seq<u8>, g: GameVersion) -> ErrorKind {
    if s.len() < 2 {
        ErrorKind::TruncatedInput
    } else if xmodel_version_of(le_u16(s, 0)) is None {
        ErrorKind::InvalidFormat
    } else if le_u16(s, 0) != expected_version(g) {
        ErrorKind::InvalidFormat
    } else {
        ErrorKind::TruncatedInput
    }
}

/// Whether an executable LOD stands for a parsed slot with its materials.
pub open spec fn lod_matches(l: &XModelLod, g: (u32, Seq<u8>), mats: Seq<Seq<u8>>) -> bool {
    &&& l.distance == g.0
    &&& l.name@ == chars_of_bytes(g.1)
    &&& l.materials@.len() == mats.len()
    &&& (forall|m: int|
        0 <= m < mats.len() ==> (#[trigger] l.materials@[m])@ == chars_of_bytes(mats[m]))
}

impl XModel {
    /// Reads one LOD table of `slots` slots at the current cursor,
    /// dropping slots with empty names.
    #[verifier::loop_isolation(false)]
    fn read_lods(file: &mut Reader, slots: usize) -> (r: Result<Vec<(u32, String)>, Error>)
        requires
            old(file).wf(),
        ensures
            final(file).bytes() == old(file).bytes(),
            final(file).wf(),
            ({
                let s = old(file).bytes();
                let p = lods_parse(s, old(file).cursor(), slots as int);
                &&& (r is Ok <==> p is Some)
                &&& (r matches Ok(lods) ==> p matches Some(g) && lods@.len() == g.0.len()
                    && final(file).cursor() == g.1 && (forall|j: int|
                    0 <= j < g.0.len() ==> (#[trigger] lods@[j]).0 == g.0[j].0 && lods@[j].1@
                        == chars_of_bytes(g.0[j].1)))
                &&& (r matches Err(e) ==> e.kind == ErrorKind::TruncatedInput)
            }),
    {
        let ghost s = old(file).bytes();
        let ghost pos0 = old(file).cursor();
        let mut lods: Vec<(u32, String)> = Vec::new();
        let mut i: usize = 0;
        while i < slots
            invariant
                file.wf(),
                file.bytes() == s,
                i <= slots,
                ({
                    let p = lods_parse(s, pos0, slots as int);
                    let q = lods_parse(s, file.cursor(), slots - i);
                    &&& (q is Some ==> p is Some && (p->0).1 == (q->0).1 && (p->0).0.len() == lods@.len()
                        + (q->0).0.len() && (forall|j: int|
                        0 <= j < lods@.len() ==> (#[trigger] lods@[j]).0 == (p->0).0[j].0
                            && lods@[j].1@ == chars_of_bytes((p->0).0[j].1)) && (forall|j: int|
                        0 <= j < (q->0).0.len() ==> #[trigger] (q->0).0[j] == (p->0).0[lods@.len() + j]))
                    &&& (q is None ==> p is None)
                }),
            decreases slots - i,
        {
            let ghost qpos = file.cursor();
            let distance = match file.read_u32() {
                Ok(d) => d,
                Err(e) => {
                    return Err(e);
                },
            };
            let name = match file.read_nullstr() {
                Ok(n) => n,
                Err(e) => {
                    return Err(e);
                },
            };
            if name.unicode_len() > 0 {
                lods.push((distance, name));
            }
            i = i + 1;
            proof {
                let qk = (slots - (i - 1)) as int;
                let z = file.cursor() - 1;
                assert(first_zero(s, qpos + 4) == Some(z));
                crate::binary::lemma_first_zero_range(s, qpos + 4);
                let nb = s.subrange(qpos + 4, z);
                assert(name@ == chars_of_bytes(nb));
                assert(name@.len() == nb.len());
                let q_old = lods_parse(s, qpos, qk);
                let q_new = lods_parse(s, z + 1, qk - 1);
                if q_new is Some {
                    assert(q_old is Some && (q_old->0).1 == (q_new->0).1);
                    let p = lods_parse(s, pos0, slots as int);
                    assert(p is Some);
                    assert((p->0).1 == (q_new->0).1);
                    if nb.len() > 0 {
                        assert((q_old->0).0 =~= seq![(distance, nb)] + (q_new->0).0);
                        assert((q_old->0).0[0] == (distance, nb));
                        assert((p->0).0.len() == lods@.len() + (q_new->0).0.len());
                        assert forall|j: int| 0 <= j < lods@.len() implies (#[trigger] lods@[j]).0
                            == (p->0).0[j].0 && lods@[j].1@ == chars_of_bytes((p->0).0[j].1) by {
                            if j == lods@.len() - 1 {
                                assert((q_old->0).0[0] == (p->0).0[lods@.len() - 1 + 0]);
                            }
                        }
                        assert forall|j: int| 0 <= j < (q_new->0).0.len() implies #[trigger] (
                        q_new->0).0[j] == (p->0).0[lods@.len() + j] by {
                            assert((q_old->0).0[j + 1] == (p->0).0[lods@.len() - 1 + (j + 1)]);
                            assert((q_old->0).0[j + 1] == (q_new->0).0[j]);
                        }
                    } else {
                        assert((q_old->0).0 == (q_new->0).0);
                        assert forall|j: int| 0 <= j < (q_new->0).0.len() implies #[trigger] (
                        q_new->0).0[j] == (p->0).0[lods@.len() + j] by {
                            assert((q_old->0).0[j] == (p->0).0[lods@.len() + j]);
                        }
                    }
                } else {
                    assert(q_old is None);
                }
            }
        }
        Ok(lods)
    }

    /// Reads `n` zero-terminated names at the current cursor.
    #[verifier::loop_isolation(false)]
    fn read_names(file: &mut Reader, n: u16) -> (r: Result<Vec<String>, Error>)
        requires
            old(file).wf(),
        ensures
            final(file).bytes() == old(file).bytes(),
            final(file).wf(),
            ({
                let s = old(file).bytes();
                let p = names_parse(s, old(file).cursor(), n as int);
                &&& (r is Ok <==> p is Some)
                &&& (r matches Ok(names) ==> p matches Some(g) && names@.len() == g.0.len()
                    && final(file).cursor() == g.1 && (forall|j: int|
                    0 <= j < g.0.len() ==> (#[trigger] names@[j])@ == chars_of_bytes(g.0[j])))
                &&& (r matches Err(e) ==> e.kind == ErrorKind::TruncatedInput)
            }),
    {
        let ghost s = old(file).bytes();
        let ghost pos0 = old(file).cursor();
        let mut names: Vec<String> = Vec::new();
        let mut i: usize = 0;
        while i < n as usize
            invariant
                file.wf(),
                file.bytes() == s,
                i <= n as int,
                names@.len() == i,
                ({
                    let p = names_parse(s, pos0, n as int);
                    let q = names_parse(s, file.cursor(), n - i);
                    &&& (q is Some ==> p is Some && (p->0).1 == (q->0).1 && (p->0).0.len() == i
                        + (q->0).0.len() && (forall|j: int|
                        0 <= j < i ==> (#[trigger] names@[j])@ == chars_of_bytes((p->0).0[j])) && (
                    forall|j: int|
                        0 <= j < (q->0).0.len() ==> #[trigger] (q->0).0[j] == (p->0).0[i + j]))
                    &&& (q is None ==> p is None)
                }),
            decreases n as int - i,
        {
            let ghost qpos = file.cursor();
            let name = match file.read_nullstr() {
                Ok(nm) => nm,
                Err(e) => {
                    return Err(e);
                },
            };
            names.push(name);
            i = i + 1;
            proof {
                let qk = (n - (i - 1)) as int;
                let z = file.cursor() - 1;
                assert(first_zero(s, qpos) == Some(z));
                crate::binary::lemma_first_zero_range(s, qpos);
                let nb = s.subrange(qpos, z);
                assert(name@ == chars_of_bytes(nb));
                let q_old = names_parse(s, qpos, qk);
                let q_new = names_parse(s, z + 1, qk - 1);
                if q_new is Some {
                    assert(q_old is Some && (q_old->0).1 == (q_new->0).1);
                    assert((q_old->0).0 =~= seq![nb] + (q_new->0).0);
                    assert((q_old->0).0[0] == nb);
                    let p = names_parse(s, pos0, n as int);
                    assert(p is Some);
                    assert((p->0).1 == (q_new->0).1);
                    assert((p->0).0.len() == i + (q_new->0).0.len());
                    assert forall|j: int| 0 <= j < i implies (#[trigger] names@[j])@
                        == chars_of_bytes((p->0).0[j]) by {
                        if j == i - 1 {
                            assert((q_old->0).0[0] == (p->0).0[i - 1 + 0]);
                        }
                    }
                    assert forall|j: int| 0 <= j < (q_new->0).0.len() implies #[trigger] (
                    q_new->0).0[j] == (p->0).0[i + j] by {
                        assert((q_old->0).0[j + 1] == (p->0).0[i - 1 + (j + 1)]);
                        assert((q_old->0).0[j + 1] == (q_new->0).0[j]);
                    }
                } else {
                    assert(q_old is None);
                }
            }
        }
        Ok(names)
    }

    /// Reads the material-name lists of `k` retained LODs.
    #[verifier::loop_isolation(false)]
    fn read_lod_materials(file: &mut Reader, k: usize) -> (r: Result<Vec<Vec<String>>, Error>)
        requires
            old(file).wf(),
        ensures
            final(file).bytes() == old(file).bytes(),
            final(file).wf(),
            ({
                let s = old(file).bytes();
                let p = lodmats_parse(s, old(file).cursor(), k as int);
                &&& (r is Ok <==> p is Some)
                &&& (r matches Ok(ms) ==> p matches Some(g) && ms@.len() == g.0.len() && (forall|
                    j: int,
                    m: int,
                |
                    0 <= j < g.0.len() && 0 <= m < g.0[j].len() ==> ((#[trigger] ms@[j]@[m])@
                        == chars_of_bytes(g.0[j][m]))) && (forall|j: int|
                    0 <= j < g.0.len() ==> (#[trigger] ms@[j])@.len() == g.0[j].len()))
                &&& (r matches Err(e) ==> e.kind == ErrorKind::TruncatedInput)
            }),
    {
        let ghost s = old(file).bytes();
        let ghost pos0 = old(file).cursor();
        let mut out: Vec<Vec<String>> = Vec::new();
        let mut i: usize = 0;
        while i < k
            invariant
                file.wf(),
                file.bytes() == s,
                i <= k,
                out@.len() == i,
                ({
                    let p = lodmats_parse(s, pos0, k as int);
                    let q = lodmats_parse(s, file.cursor(), k - i);
                    &&& (q is Some ==> p is Some && (p->0).1 == (q->0).1 && (p->0).0.len() == i
                        + (q->0).0.len() && (forall|j: int, m: int|
                        0 <= j < i && 0 <= m < (p->0).0[j].len() ==> ((#[trigger] out@[j]@[m])@
                            == chars_of_bytes((p->0).0[j][m]))) && (forall|j: int|
                        0 <= j < i ==> (#[trigger] out@[j])@.len() == (p->0).0[j].len()) && (forall|
                        j: int,
                    |
                        0 <= j < (q->0).0.len() ==> #[trigger] (q->0).0[j] == (p->0).0[i + j]))
                    &&& (q is None ==> p is None)
                }),
            decreases k - i,
        {
            let ghost qpos = file.cursor();
            let count = match file.read_u16() {
                Ok(c) => c,
                Err(e) => {
                    return Err(e);
                },
            };
            let ghost npos = file.cursor();
            let names = match Self::read_names(file, count) {
                Ok(ns) => ns,
                Err(e) => {
                    return Err(e);
                },
            };
            out.push(names);
            i = i + 1;
            proof {
                let qk = (k - (i - 1)) as int;
                assert(count == le_u16(s, qpos));
                let np = names_parse(s, npos, count as int);
                assert(np is Some);
                let q_old = lodmats_parse(s, qpos, qk);
                let q_new = lodmats_parse(s, (np->0).1, qk - 1);
                if q_new is Some {
                    assert(q_old is Some && (q_old->0).1 == (q_new->0).1);
                    assert((q_old->0).0 =~= seq![(np->0).0] + (q_new->0).0);
                    assert((q_old->0).0[0] == (np->0).0);
                    let p = lodmats_parse(s, pos0, k as int);
                    assert(p is Some);
                    assert((q_old->0).0[0] == (p->0).0[i - 1 + 0]);
                    assert forall|j: int| 0 <= j < (q_new->0).0.len() implies #[trigger] (
                    q_new->0).0[j] == (p->0).0[i + j] by {
                        assert((q_old->0).0[j + 1] == (p->0).0[i - 1 + (j + 1)]);
                        assert((q_old->0).0[j + 1] == (q_new->0).0[j]);
                    }
                } else {
                    assert(q_old is None);
                }
            }
        }
        Ok(out)
    }

    /// Decodes a model descriptor against the caller's selected game
    /// pairing; a tag that does not match the pairing's expected version is
    /// rejected before any field is read.
    #[verifier::loop_isolation(false)]
    #[verifier::rlimit(100)]
    pub fn load(file_path: &str, data: Vec<u8>, selected_version: GameVersion) -> (r: Result<
        XModel,
        Error,
    >)
        ensures
            r is Ok <==> xmodel_accepts(data@, selected_version),
            r matches Err(e) ==> e.kind == xmodel_error(data@, selected_version),
            r matches Ok(m) ==> ({
                let s = data@;
                let g = xmodel_parse(s, selected_version)->0;
                &&& m.name@ == crate::path::stem(crate::path::base_name(file_path@))
                &&& Some(m.version) == xmodel_version_of(le_u16(s, 0))
                &&& m.lods@.len() == g.0.len()
                &&& (forall|j: int|
                    0 <= j < g.0.len() ==> lod_matches(&(#[trigger] m.lods@[j]), g.0[j], g.1[j]))
            }),
    {
        let ghost s = data@;
        let name = crate::path::file_name_without_ext(file_path);
        let mut file = Reader::new(data);
        let version = match file.read_u16() {
            Ok(v) => v,
            Err(e) => {
                return Err(e);
            },
        };
        let xmodel_version = match XModelVersion::valid(version) {
            Some(v) => v,
            None => {
                return Err(
                    Error::with_kind(
                        ErrorKind::InvalidFormat,
                        String::from_str("invalid model version"),
                    ),
                );
            },
        };
        let expected: u16 = match selected_version {
            GameVersion::CoD1 => 0x0E,
            GameVersion::CoD2 => 0x14,
            GameVersion::CoD4 => 0x19,
            GameVersion::CoD5 => 0x19,
            GameVersion::CoD7 => 0x3E,
        };
        if version != expected {
            return Err(
                Error::with_kind(
                    ErrorKind::InvalidFormat,
                    String::from_str("model version does not match the selected game"),
                ),
            );
        }

        let slots: usize = match selected_version {
            GameVersion::CoD1 => 3,
            _ => 4,
        };
        match selected_version {
            GameVersion::CoD1 => file.skip(24),
            GameVersion::CoD2 => file.skip(25),
            GameVersion::CoD4 => file.skip(26),
            GameVersion::CoD5 => file.skip(27),
            GameVersion::CoD7 => file.skip(28),
        }
        if selected_version == GameVersion::CoD7 {
            match file.read_nullstr() {
                Ok(_) => (),
                Err(e) => {
                    return Err(e);
                },
            }
            match file.read_nullstr() {
                Ok(_) => (),
                Err(e) => {
                    return Err(e);
                },
            }
            file.skip(5);
        }
        proof {
            assert(Some(file.cursor()) == xmodel_lod_pos(s, selected_version));
        }

        let ghost lp0 = file.cursor();
        let lods_raw = match Self::read_lods(&mut file, slots) {
            Ok(l) => l,
            Err(e) => {
                proof {
                    assert(lods_parse(s, lp0, lod_slots(selected_version)) is None);
                    assert(xmodel_parse(s, selected_version) is None);
                }
                return Err(e);
            },
        };
        let ghost p1 = file.cursor();
        file.skip(4);
        let padding_count = match file.read_u32() {
            Ok(c) => c,
            Err(e) => {
                proof {
                    assert(clamp(s, p1 + 4) + 4 > s.len());
                    assert(xmodel_parse(s, selected_version) is None);
                }
                return Err(e);
            },
        };
        let ghost ppos0 = file.cursor();
        let mut pb: usize = 0;
        while pb < padding_count as usize
            invariant
                file.wf(),
                file.bytes() == s,
                pb <= padding_count as int,
                ({
                    let p = padding_parse(s, ppos0, padding_count as int);
                    let q = padding_parse(s, file.cursor(), padding_count - pb);
                    &&& (q is Some ==> p == q)
                    &&& (q is None ==> p is None)
                }),
            decreases padding_count as int - pb,
        {
            let sub_padding_count = match file.read_u32() {
                Ok(c) => c,
                Err(e) => {
                    return Err(e);
                },
            };
            let skip_amt: u64 = (sub_padding_count as u64) * 48 + 36;
            if skip_amt > usize::MAX as u64 {
                // Cannot happen: the skip clamps to the buffer end anyway.
                file.seek(file.len());
            } else {
                file.skip(skip_amt as usize);
            }
            pb = pb + 1;
        }

        let ghost p2 = file.cursor();
        let mats = match Self::read_lod_materials(&mut file, lods_raw.len()) {
            Ok(m) => m,
            Err(e) => {
                proof {
                    assert(lodmats_parse(s, p2, lods_raw@.len() as int) is None);
                    assert(xmodel_parse(s, selected_version) is None);
                }
                return Err(e);
            },
        };
        proof {
            let lp = lods_parse(s, lp0, lod_slots(selected_version));
            assert(Some(lp0) == xmodel_lod_pos(s, selected_version));
            assert(lp is Some);
            assert((lp->0).1 == p1);
            assert(padding_count == le_u32(s, clamp(s, p1 + 4)));
            assert(ppos0 == clamp(s, p1 + 4) + 4);
            assert(padding_parse(s, p2, 0) == Some(p2));
            assert(padding_parse(s, ppos0, padding_count as int) == Some(p2));
            let lm = lodmats_parse(s, p2, lods_raw@.len() as int);
            assert(lm is Some);
            lemma_lodmats_len(s, p2, lods_raw@.len() as int);
            assert(lods_raw@.len() == (lp->0).0.len());
            assert(xmodel_parse(s, selected_version) == Some(((lp->0).0, (lm->0).0)));
        }

        let mut lods: Vec<XModelLod> = Vec::new();
        let mut i: usize = 0;
        let ghost g = xmodel_parse(s, selected_version)->0;
        while i < lods_raw.len()
            invariant
                i <= lods_raw@.len(),
                lods_raw@.len() == mats@.len(),
                lods@.len() == i,
                g == xmodel_parse(s, selected_version)->0,
                xmodel_parse(s, selected_version) is Some,
                g.0.len() == lods_raw@.len(),
                g.1.len() == mats@.len(),
                forall|j: int|
                    0 <= j < lods_raw@.len() ==> (#[trigger] lods_raw@[j]).0 == g.0[j].0
                        && lods_raw@[j].1@ == chars_of_bytes(g.0[j].1),
                forall|j: int, m: int|
                    0 <= j < g.1.len() && 0 <= m < g.1[j].len() ==> ((#[trigger] mats@[j]@[m])@
                        == chars_of_bytes(g.1[j][m])),
                forall|j: int| 0 <= j < g.1.len() ==> (#[trigger] mats@[j])@.len() == g.1[j].len(),
                forall|j: int| 0 <= j < i ==> lod_matches(&(#[trigger] lods@[j]), g.0[j], g.1[j]),
            decreases lods_raw@.len() - i,
        {
            let mut materials: Vec<String> = Vec::new();
            let mut w: usize = 0;
            while w < mats[i].len()
                invariant
                    i < mats@.len(),
                    w <= mats@[i as int]@.len(),
                    materials@.len() == w,
                    forall|x: int| 0 <= x < w ==> materials@[x] == mats@[i as int]@[x],
                decreases mats@[i as int]@.len() - w,
            {
                materials.push(mats[i][w].clone());
                w = w + 1;
            }
            let entry = XModelLod {
                name: lods_raw[i].1.clone(),
                distance: lods_raw[i].0,
                materials,
            };
            lods.push(entry);
            i = i + 1;
        }
        Ok(XModel { name, version: xmodel_version, lods })
    }
}

} // verus!
