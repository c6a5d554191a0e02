//! Texture container decoding.
//!
//! A container opens with a 3-byte magic and a version byte choosing among
//! five header generations.  An info block gives format, usage and
//! dimensions; a version-dependent mip-offset table follows, from which the
//! highest-detail resident mip is selected as the largest candidate range.
//! The payload is decompressed by the matching DXT decoder.

use vstd::prelude::*;

use crate::binary::{le_u16, le_u32, Reader};
use crate::decode::{
    blocks_fit, blocks_x, blocks_y, decode_dxt1, decode_dxt3, decode_dxt5, image_texel, texel_ok,
};
use crate::error::{Error, ErrorKind};

verus! {

/// A decoded texture: dimensions plus an RGBA buffer, one byte per channel.
pub struct IWi {
    pub width: u16,
    pub height: u16,
    pub data: Vec<u8>,
}

/// The supported container generations.
#[derive(Clone, Copy, Debug, PartialEq, Eq, Structural)]
pub enum IWiVersion {
    V5,
    V6,
    V8,
    V13,
    V27,
}

/// The pixel formats a container can declare.
#[derive(Clone, Copy, Debug, PartialEq, Eq, Structural)]
pub enum IWiFormat {
    ARGB32,
    RGB24,
    GA16,
    A8,
    DXT1,
    DXT3,
    DXT5,
}

/// One candidate mip range: an absolute payload offset and its size.
#[derive(Clone, Copy, Debug, PartialEq, Eq, Structural)]
pub struct IWiMipMap {
    pub offset: u32,
    pub size: u32,
}

/// The version selected by a version byte, if supported.
pub open spec fn version_of(b: u8) -> Option<IWiVersion> {
    if b == 0x05 {
        Some(IWiVersion::V5)
    } else if b == 0x06 {
        Some(IWiVersion::V6)
    } else if b == 0x08 {
        Some(IWiVersion::V8)
    } else if b == 0x0D {
        Some(IWiVersion::V13)
    } else if b == 0x1B {
        Some(IWiVersion::V27)
    } else {
        None
    }
}

/// The format selected by a format byte, if known.
pub open spec fn format_of(b: u8) -> Option<IWiFormat> {
    if b == 0x01 {
        Some(IWiFormat::ARGB32)
    } else if b == 0x02 {
        Some(IWiFormat::RGB24)
    } else if b == 0x03 {
        Some(IWiFormat::GA16)
    } else if b == 0x04 {
        Some(IWiFormat::A8)
    } else if b == 0x0B {
        Some(IWiFormat::DXT1)
    } else if b == 0x0C {
        Some(IWiFormat::DXT3)
    } else if b == 0x0D {
        Some(IWiFormat::DXT5)
    } else {
        None
    }
}

impl IWiVersion {
    /// Decides the version a byte selects.
    pub fn valid(b: u8) -> (r: Option<IWiVersion>)
        ensures
            r == version_of(b),
    {
        if b == 0x05 {
            Some(IWiVersion::V5)
        } else if b == 0x06 {
            Some(IWiVersion::V6)
        } else if b == 0x08 {
            Some(IWiVersion::V8)
        } else if b == 0x0D {
            Some(IWiVersion::V13)
        } else if b == 0x1B {
            Some(IWiVersion::V27)
        } else {
            None
        }
    }
}

impl IWiFormat {
    /// Decides the format a byte selects.
    pub fn valid(b: u8) -> (r: Option<IWiFormat>)
        ensures
            r == format_of(b),
    {
        if b == 0x01 {
            Some(IWiFormat::ARGB32)
        } else if b == 0x02 {
            Some(IWiFormat::RGB24)
        } else if b == 0x03 {
            Some(IWiFormat::GA16)
        } else if b == 0x04 {
            Some(IWiFormat::A8)
        } else if b == 0x0B {
            Some(IWiFormat::DXT1)
        } else if b == 0x0C {
            Some(IWiFormat::DXT3)
        } else if b == 0x0D {
            Some(IWiFormat::DXT5)
        } else {
            None
        }
    }
}

/// The file opens with the bytes `I`, `W`, `i`.
pub open spec fn magic_ok(s: Seq<u8>) -> bool {
    s.len() >= 3 && s[0] == 0x49 && s[1] == 0x57 && s[2] == 0x69
}

/// Where the info block starts for a given version.
pub open spec fn info_pos(v: IWiVersion) -> int {
    match v {
        IWiVersion::V8 => 8,
        _ => 4,
    }
}

/// Where the mip-offset table starts for a given version.
pub open spec fn table_pos(v: IWiVersion) -> int {
    match v {
        IWiVersion::V13 => 0x10,
        IWiVersion::V27 => 0x20,
        IWiVersion::V8 => 16,
        _ => 12,
    }
}

/// How many mip offsets the table holds for a given version.
pub open spec fn offset_amount(v: IWiVersion) -> int {
    match v {
        IWiVersion::V13 => 8,
        IWiVersion::V27 => 8,
        _ => 4,
    }
}

/// The cursor position just after the mip-offset table.
pub open spec fn table_end(v: IWiVersion) -> int {
    table_pos(v) + 4 * offset_amount(v)
}

/// The mip offsets as stored in the table.
pub open spec fn offsets_seq(s: Seq<u8>, v: IWiVersion) -> Seq<u32> {
    Seq::new(offset_amount(v) as nat, |k: int| le_u32(s, table_pos(v) + 4 * k))
}

/// The candidate ranges never subtract past zero: the first offset fits the
/// file, the last offset covers the post-table cursor, and interior offsets
/// descend.
pub open spec fn mips_valid(offsets: Seq<u32>, first: u32, size: u32) -> bool {
    &&& offsets[0] <= size
    &&& (offsets.len() >= 2 ==> offsets[offsets.len() - 1] >= first)
    &&& (forall|i: int| 1 <= i <= offsets.len() - 2 ==> offsets[i - 1] >= #[trigger] offsets[i])
}

/// The offset of candidate `i`: the first candidate keeps its own offset,
/// the last is anchored at the post-table cursor, interior ones keep theirs.
pub open spec fn cand_off(offsets: Seq<u32>, first: u32, size: u32, i: int) -> u32 {
    if i == 0 {
        offsets[0]
    } else if i == offsets.len() - 1 {
        first
    } else {
        offsets[i]
    }
}

/// The size of candidate `i`: the first is anchored against end-of-file, the
/// last against the post-table cursor, interior ones against their left
/// neighbor.
pub open spec fn cand_size(offsets: Seq<u32>, first: u32, size: u32, i: int) -> u32 {
    if i == 0 {
        (size - offsets[0]) as u32
    } else if i == offsets.len() - 1 {
        (offsets[i] - first) as u32
    } else {
        (offsets[i - 1] - offsets[i]) as u32
    }
}

/// The earliest candidate among the first `n` with the largest size.
pub open spec fn best_mip_upto(offsets: Seq<u32>, first: u32, size: u32, n: int) -> int
    decreases n,
{
    if n <= 1 {
        0
    } else {
        let b = best_mip_upto(offsets, first, size, n - 1);
        if cand_size(offsets, first, size, n - 1) > cand_size(offsets, first, size, b) {
            n - 1
        } else {
            b
        }
    }
}

/// The selected candidate: the earliest with the largest size.
pub open spec fn best_mip(offsets: Seq<u32>, first: u32, size: u32) -> int {
    best_mip_upto(offsets, first, size, offsets.len() as int)
}

proof fn lemma_best_in_range(offsets: Seq<u32>, first: u32, size: u32, n: int)
    requires
        n >= 1,
    ensures
        0 <= best_mip_upto(offsets, first, size, n) < n,
    decreases n,
{
    if n > 1 {
        lemma_best_in_range(offsets, first, size, n - 1);
    }
}

/// Builds the candidate ranges from consecutive offset deltas and selects
/// the largest-size candidate: the highest-detail resident mip.
pub fn calculate_highest_mipmap(offsets: Vec<u32>, first: u64, size: u64) -> (r: IWiMipMap)
    requires
        offsets@.len() >= 1,
        first <= u32::MAX,
        size <= u32::MAX,
        mips_valid(offsets@, first as u32, size as u32),
    ensures
        r.offset == cand_off(
            offsets@,
            first as u32,
            size as u32,
            best_mip(offsets@, first as u32, size as u32),
        ),
        r.size == cand_size(
            offsets@,
            first as u32,
            size as u32,
            best_mip(offsets@, first as u32, size as u32),
        ),
{
    let ghost f32v = first as u32;
    let ghost s32v = size as u32;
    let n = offsets.len();
    let mut mipmaps: Vec<IWiMipMap> = Vec::new();
    let mut i: usize = 0;
    while i < n
        invariant
            n == offsets@.len(),
            1 <= n,
            first <= u32::MAX,
            size <= u32::MAX,
            mips_valid(offsets@, f32v, s32v),
            f32v == first as u32,
            s32v == size as u32,
            i <= n,
            mipmaps@.len() == i,
            forall|k: int|
                0 <= k < i ==> #[trigger] mipmaps@[k] == (IWiMipMap {
                    offset: cand_off(offsets@, f32v, s32v, k),
                    size: cand_size(offsets@, f32v, s32v, k),
                }),
        decreases n - i,
    {
        if i == 0 {
            mipmaps.push(IWiMipMap { offset: offsets[0], size: (size as u32) - offsets[0] });
        } else if i == n - 1 {
            mipmaps.push(IWiMipMap { offset: first as u32, size: offsets[i] - (first as u32) });
        } else {
            mipmaps.push(IWiMipMap { offset: offsets[i], size: offsets[i - 1] - offsets[i] });
        }
        i = i + 1;
    }
    let mut max_idx: usize = 0;
    let mut j: usize = 1;
    while j < n
        invariant
            n == offsets@.len(),
            1 <= n,
            mips_valid(offsets@, f32v, s32v),
            mipmaps@.len() == n,
            forall|k: int|
                0 <= k < n ==> #[trigger] mipmaps@[k] == (IWiMipMap {
                    offset: cand_off(offsets@, f32v, s32v, k),
                    size: cand_size(offsets@, f32v, s32v, k),
                }),
            1 <= j <= n,
            max_idx < j,
            max_idx == best_mip_upto(offsets@, f32v, s32v, j as int),
        decreases n - j,
    {
        if mipmaps[j].size > mipmaps[max_idx].size {
            max_idx = j;
        }
        j = j + 1;
    }
    proof {
        lemma_best_in_range(offsets@, f32v, s32v, n as int);
    }
    mipmaps[max_idx]
}

/// The byte at `info_pos` selects the pixel format.
pub open spec fn iwi_format_byte(s: Seq<u8>, v: IWiVersion) -> u8 {
    s[info_pos(v)]
}

/// The texture width stored in the info block.
pub open spec fn iwi_width(s: Seq<u8>, v: IWiVersion) -> u16 {
    le_u16(s, info_pos(v) + 2)
}

/// The texture height stored in the info block.
pub open spec fn iwi_height(s: Seq<u8>, v: IWiVersion) -> u16 {
    le_u16(s, info_pos(v) + 4)
}

/// The selected mip range of a container.
pub open spec fn iwi_mip(s: Seq<u8>, v: IWiVersion) -> IWiMipMap {
    let offsets = offsets_seq(s, v);
    let first = table_end(v) as u32;
    let size = s.len() as u32;
    IWiMipMap {
        offset: cand_off(offsets, first, size, best_mip(offsets, first, size)),
        size: cand_size(offsets, first, size, best_mip(offsets, first, size)),
    }
}

/// The selected mip payload of a container.
pub open spec fn iwi_payload(s: Seq<u8>, v: IWiVersion) -> Seq<u8> {
    s.subrange(iwi_mip(s, v).offset as int, iwi_mip(s, v).offset + iwi_mip(s, v).size)
}

/// The block size of a supported compressed format.
pub open spec fn bsize_of(f: IWiFormat) -> int {
    match f {
        IWiFormat::DXT1 => 8,
        _ => 16,
    }
}

/// The format tag used by the texel dispatcher for a compressed format.
pub open spec fn dxt_tag(f: IWiFormat) -> int {
    match f {
        IWiFormat::DXT1 => 1,
        IWiFormat::DXT3 => 3,
        _ => 5,
    }
}

/// Whether a format byte names a compression this library decodes.
pub open spec fn format_supported(b: u8) -> bool {
    format_of(b) == Some(IWiFormat::DXT1) || format_of(b) == Some(IWiFormat::DXT3) || format_of(b)
        == Some(IWiFormat::DXT5)
}

/// The payload is large enough for its block grid and the output fits the
/// address space.
pub open spec fn dxt_fits(payload: Seq<u8>, w: u16, h: u16, f: IWiFormat) -> bool {
    &&& 4 * (w as int) * (h as int) <= usize::MAX
    &&& blocks_fit(payload, w as int, h as int, bsize_of(f))
}

/// A container that decodes successfully end to end.
pub open spec fn iwi_accepts(s: Seq<u8>) -> bool {
    &&& s.len() >= 4
    &&& magic_ok(s)
    &&& version_of(s[3]) is Some
    &&& {
        let v = version_of(s[3])->0;
        &&& info_pos(v) + 8 <= s.len()
        &&& table_end(v) <= s.len()
        &&& mips_valid(offsets_seq(s, v), table_end(v) as u32, s.len() as u32)
        &&& iwi_mip(s, v).size > 0
        &&& iwi_mip(s, v).offset + iwi_mip(s, v).size <= s.len()
        &&& format_supported(iwi_format_byte(s, v))
        &&& dxt_fits(
            iwi_payload(s, v),
            iwi_width(s, v),
            iwi_height(s, v),
            format_of(iwi_format_byte(s, v))->0,
        )
    }
}

/// The kind of the first failure the sequential decode runs into.
pub open spec fn iwi_error(s: Seq<u8>) -> ErrorKind {
    if s.len() < 3 {
        ErrorKind::TruncatedInput
    } else if !magic_ok(s) {
        ErrorKind::InvalidFormat
    } else if s.len() < 4 {
        ErrorKind::TruncatedInput
    } else if version_of(s[3]) is None {
        ErrorKind::InvalidFormat
    } else {
        let v = version_of(s[3])->0;
        if info_pos(v) + 8 > s.len() {
            ErrorKind::TruncatedInput
        } else if table_end(v) > s.len() {
            ErrorKind::TruncatedInput
        } else if !mips_valid(offsets_seq(s, v), table_end(v) as u32, s.len() as u32) {
            ErrorKind::InvalidFormat
        } else if iwi_mip(s, v).size == 0 {
            ErrorKind::EmptyData
        } else if iwi_mip(s, v).offset + iwi_mip(s, v).size > s.len() {
            ErrorKind::TruncatedInput
        } else if !format_supported(iwi_format_byte(s, v)) {
            ErrorKind::UnsupportedFormat
        } else {
            ErrorKind::TruncatedInput
        }
    }
}

/// Whether `4 * width * height` RGBA bytes fit the address space and
/// `payload_len` bytes cover the whole block grid.
fn dxt_fit_check(payload_len: usize, width: u16, height: u16, f: IWiFormat) -> (r: bool)
    requires
        f == IWiFormat::DXT1 || f == IWiFormat::DXT3 || f == IWiFormat::DXT5,
    ensures
        r == (4 * (width as int) * (height as int) <= usize::MAX && payload_len >= bsize_of(f)
            * blocks_x(width as int) * blocks_y(height as int)),
{
    proof {
        assert(4 * (width as u64) * (height as u64) < 0x400000000) by (nonlinear_arith)
            requires
                width <= 0xFFFF,
                height <= 0xFFFF,
        ;
    }
    let need: u64 = 4 * (width as u64) * (height as u64);
    proof {
        assert(4 * (width as u64) * (height as u64) == 4 * (width as int) * (height as int))
            by (nonlinear_arith)
            requires
                width <= 0xFFFF,
                height <= 0xFFFF,
        ;
    }
    if need > usize::MAX as u64 {
        return false;
    }
    let bs: u64 = match f {
        IWiFormat::DXT1 => 8,
        _ => 16,
    };
    let bcx: u64 = ((width as u64) + 3) / 4;
    let bcy: u64 = ((height as u64) + 3) / 4;
    proof {
        assert(bs * bcx * bcy <= 0x100000000) by (nonlinear_arith)
            requires
                bs <= 16,
                0 <= bcx <= 0x4000,
                0 <= bcy <= 0x4000,
        ;
    }
    let blocks_bytes: u64 = bs * bcx * bcy;
    proof {
        assert(bs * bcx * bcy == bsize_of(f) * blocks_x(width as int) * blocks_y(height as int))
            by (nonlinear_arith)
            requires
                bs == bsize_of(f),
                bcx == blocks_x(width as int),
                bcy == blocks_y(height as int),
                0 <= bcx <= 0x4000,
                0 <= bcy <= 0x4000,
                bs == 8 || bs == 16,
        ;
    }
    (payload_len as u64) >= blocks_bytes
}

/// The first-failure kind of the header alone.
pub open spec fn header_error(s: Seq<u8>) -> ErrorKind {
    if s.len() < 3 {
        ErrorKind::TruncatedInput
    } else if !magic_ok(s) {
        ErrorKind::InvalidFormat
    } else if s.len() < 4 {
        ErrorKind::TruncatedInput
    } else {
        ErrorKind::InvalidFormat
    }
}

/// The header accepts: magic and version byte both valid.
pub open spec fn header_ok(s: Seq<u8>) -> bool {
    s.len() >= 4 && magic_ok(s) && version_of(s[3]) is Some
}

/// A container header: the raw magic plus the decoded version.
struct IWiHeader {
    magic: [u8; 3],
    version: IWiVersion,
}

/// The info block: format, usage and dimensions.
#[derive(Clone, Copy)]
struct IWiInfo {
    format: u8,
    usage: u8,
    width: u16,
    height: u16,
    depth: u16,
}

impl IWi {
    /// Reads and checks the magic and version byte.
    fn read_header(file: &mut Reader) -> (r: Result<IWiHeader, Error>)
        requires
            old(file).wf(),
            old(file).cursor() == 0,
        ensures
            final(file).bytes() == old(file).bytes(),
            final(file).wf(),
            r is Ok <==> header_ok(old(file).bytes()),
            r matches Ok(h) ==> (h.version == version_of(old(file).bytes()[3])->0 && final(file).cursor() == 4),
            r matches Err(e) ==> e.kind == header_error(old(file).bytes()),
    {
        let magic = match file.read_bytes(3) {
            Ok(m) => m,
            Err(e) => {
                return Err(e);
            },
        };
        if !(magic[0] == 0x49 && magic[1] == 0x57 && magic[2] == 0x69) {
            return Err(
                Error::with_kind(ErrorKind::InvalidFormat, String::from_str("invalid magic")),
            );
        }
        let vb = match file.read_u8() {
            Ok(b) => b,
            Err(e) => {
                return Err(e);
            },
        };
        let version = match IWiVersion::valid(vb) {
            Some(v) => v,
            None => {
                return Err(
                    Error::with_kind(
                        ErrorKind::InvalidFormat,
                        String::from_str("invalid version"),
                    ),
                );
            },
        };
        Ok(IWiHeader { magic: [magic[0], magic[1], magic[2]], version })
    }

    /// Reads the info block at the current cursor.
    fn read_info(file: &mut Reader) -> (r: Result<IWiInfo, Error>)
        requires
            old(file).wf(),
        ensures
            final(file).bytes() == old(file).bytes(),
            final(file).wf(),
            old(file).can_read(8) ==> (r matches Ok(info) && final(file).cursor() == old(file).cursor() + 8 && info.format == old(file).bytes()[old(file).cursor()] && info.usage
                == old(file).bytes()[old(file).cursor() + 1] && info.width == le_u16(
                old(file).bytes(),
                old(file).cursor() + 2,
            ) && info.height == le_u16(old(file).bytes(), old(file).cursor() + 4) && info.depth
                == le_u16(old(file).bytes(), old(file).cursor() + 6)),
            !old(file).can_read(8) ==> (r matches Err(e) && e.kind == ErrorKind::TruncatedInput),
    {
        let format = match file.read_u8() {
            Ok(b) => b,
            Err(e) => {
                return Err(e);
            },
        };
        let usage = match file.read_u8() {
            Ok(b) => b,
            Err(e) => {
                return Err(e);
            },
        };
        let width = match file.read_u16() {
            Ok(w) => w,
            Err(e) => {
                return Err(e);
            },
        };
        let height = match file.read_u16() {
            Ok(h) => h,
            Err(e) => {
                return Err(e);
            },
        };
        let depth = match file.read_u16() {
            Ok(d) => d,
            Err(e) => {
                return Err(e);
            },
        };
        Ok(IWiInfo { format, usage, width, height, depth })
    }

    /// Seeks to the version's mip-offset table and reads it whole.
    fn read_offset_table(file: &mut Reader, version: IWiVersion) -> (r: Result<Vec<u32>, Error>)
        requires
            old(file).wf(),
            old(file).cursor() == info_pos(version) + 8,
        ensures
            final(file).bytes() == old(file).bytes(),
            final(file).wf(),
            table_end(version) <= old(file).bytes().len() ==> (r matches Ok(offs) && offs@
                == offsets_seq(old(file).bytes(), version) && final(file).cursor() == table_end(
                version,
            )),
            table_end(version) > old(file).bytes().len() ==> (r matches Err(e) && e.kind
                == ErrorKind::TruncatedInput),
    {
        let ghost s = old(file).bytes();
        let mut offset_amount: usize = 4;
        match version {
            IWiVersion::V13 => {
                offset_amount = 8;
                file.seek(0x10);
            },
            IWiVersion::V27 => {
                offset_amount = 8;
                file.seek(0x20);
            },
            _ => (),
        }
        let ghost tpos = table_pos(version);
        let tp = file.tell();
        if file.len() - tp < 4 * offset_amount {
            proof {
                assert(table_end(version) > s.len());
            }
            return Err(Error::with_kind(ErrorKind::TruncatedInput, String::new()));
        }
        proof {
            assert(tp == tpos);
        }
        let mut offsets: Vec<u32> = Vec::new();
        let mut k: usize = 0;
        while k < offset_amount
            invariant
                file.wf(),
                file.bytes() == s,
                k <= offset_amount,
                offset_amount == crate::iwi::offset_amount(version),
                tpos == table_pos(version),
                tpos + 4 * offset_amount <= s.len(),
                file.cursor() == tpos + 4 * k,
                offsets@.len() == k,
                forall|j: int| 0 <= j < k ==> offsets@[j] == le_u32(s, tpos + 4 * j),
            decreases offset_amount - k,
        {
            let o = match file.read_u32() {
                Ok(o) => o,
                Err(e) => {
                    proof {
                        assert(false);
                    }
                    return Err(e);
                },
            };
            offsets.push(o);
            k = k + 1;
        }
        proof {
            assert(offsets@ =~= offsets_seq(s, version));
        }
        Ok(offsets)
    }

    /// Checks that the candidate-range subtractions stay non-negative.
    fn check_mips(offsets: &Vec<u32>, first: u32, size: u32) -> (r: bool)
        requires
            offsets@.len() >= 1,
        ensures
            r == mips_valid(offsets@, first, size),
    {
        let n = offsets.len();
        let ok0 = offsets[0] <= size;
        let okl = if n >= 2 {
            offsets[n - 1] >= first
        } else {
            true
        };
        let mut mono = true;
        let mut m: usize = 1;
        while m < n - 1
            invariant
                n == offsets@.len(),
                n >= 1,
                1 <= m,
                m <= n,
                n >= 2 ==> m <= n - 1,
                mono == (forall|i: int| 1 <= i < m ==> offsets@[i - 1] >= #[trigger] offsets@[i]),
            decreases n - m,
        {
            if offsets[m - 1] < offsets[m] {
                mono = false;
            }
            m = m + 1;
        }
        proof {
            if n >= 2 {
                assert(m == n - 1);
            }
        }
        ok0 && okl && mono
    }

    /// Dispatches the mip payload to the decoder its format byte selects.
    fn decode_data(data: Vec<u8>, info: IWiInfo) -> (r: Result<Vec<u8>, Error>)
        ensures
            r is Ok <==> (format_supported(info.format) && dxt_fits(
                data@,
                info.width,
                info.height,
                format_of(info.format)->0,
            )),
            r matches Ok(out) ==> {
                let f = format_of(info.format)->0;
                &&& out@.len() == 4 * (info.width as int) * (info.height as int)
                &&& forall|tx: int, ty: int|
                    0 <= tx < info.width && 0 <= ty < info.height ==> #[trigger] texel_ok(
                        out@,
                        info.width as int,
                        tx,
                        ty,
                        image_texel(dxt_tag(f), data@, info.width as int, tx, ty),
                    )
            },
            r matches Err(e) ==> e.kind == (if !format_supported(info.format) {
                ErrorKind::UnsupportedFormat
            } else {
                ErrorKind::TruncatedInput
            }),
    {
        let fmt = match IWiFormat::valid(info.format) {
            Some(IWiFormat::DXT1) => IWiFormat::DXT1,
            Some(IWiFormat::DXT3) => IWiFormat::DXT3,
            Some(IWiFormat::DXT5) => IWiFormat::DXT5,
            _ => {
                return Err(
                    Error::with_kind(
                        ErrorKind::UnsupportedFormat,
                        String::from_str("unsupported decode format"),
                    ),
                );
            },
        };
        if !dxt_fit_check(data.len(), info.width, info.height, fmt) {
            return Err(
                Error::with_kind(
                    ErrorKind::TruncatedInput,
                    String::from_str("texture data too short for its block grid"),
                ),
            );
        }
        let w = info.width as usize;
        let h = info.height as usize;
        let out = match fmt {
            IWiFormat::DXT1 => decode_dxt1(data, w, h),
            IWiFormat::DXT3 => decode_dxt3(data, w, h),
            _ => decode_dxt5(data, w, h),
        };
        proof {
            assert forall|tx: int, ty: int|
                0 <= tx < info.width && 0 <= ty < info.height implies #[trigger] texel_ok(
                out@,
                info.width as int,
                tx,
                ty,
                image_texel(dxt_tag(format_of(info.format)->0), data@, info.width as int, tx, ty),
            ) by {
                if fmt == IWiFormat::DXT1 {
                    assert(texel_ok(
                        out@,
                        info.width as int,
                        tx,
                        ty,
                        crate::decode::dxt1_image_texel(data@, info.width as int, tx, ty),
                    ));
                } else if fmt == IWiFormat::DXT3 {
                    assert(texel_ok(
                        out@,
                        info.width as int,
                        tx,
                        ty,
                        crate::decode::dxt3_image_texel(data@, info.width as int, tx, ty),
                    ));
                } else {
                    assert(texel_ok(
                        out@,
                        info.width as int,
                        tx,
                        ty,
                        crate::decode::dxt5_image_texel(data@, info.width as int, tx, ty),
                    ));
                }
            }
        }
        Ok(out)
    }

    /// Decodes a texture container.  The result is `Ok` exactly on the
    /// inputs `iwi_accepts` describes; each error carries the kind of the
    /// first failure in decode order.
    #[verifier::rlimit(100)]
    pub fn load(data: Vec<u8>) -> (r: Result<IWi, Error>)
        requires
            data@.len() <= u32::MAX,
        ensures
            r is Ok <==> iwi_accepts(data@),
            r matches Ok(iwi) ==> {
                let v = version_of(data@[3])->0;
                let f = format_of(iwi_format_byte(data@, v))->0;
                &&& iwi.width == iwi_width(data@, v)
                &&& iwi.height == iwi_height(data@, v)
                &&& iwi.data@.len() == 4 * (iwi.width as int) * (iwi.height as int)
                &&& forall|tx: int, ty: int|
                    0 <= tx < iwi.width && 0 <= ty < iwi.height ==> #[trigger] texel_ok(
                        iwi.data@,
                        iwi.width as int,
                        tx,
                        ty,
                        image_texel(dxt_tag(f), iwi_payload(data@, v), iwi.width as int, tx, ty),
                    )
            },
            r matches Err(e) ==> e.kind == iwi_error(data@),
    {
        let ghost s = data@;
        let mut file = Reader::new(data);
        let header = match Self::read_header(&mut file) {
            Ok(h) => h,
            Err(e) => {
                return Err(e);
            },
        };
        let version = header.version;

        if version == IWiVersion::V8 {
            file.seek(0x08);
        }

        let info = match Self::read_info(&mut file) {
            Ok(info) => info,
            Err(e) => {
                return Err(e);
            },
        };

        let offsets = match Self::read_offset_table(&mut file, version) {
            Ok(offs) => offs,
            Err(e) => {
                return Err(e);
            },
        };

        let current = file.tell();
        let file_size = file.len();

        if !Self::check_mips(&offsets, current as u32, file_size as u32) {
            return Err(
                Error::with_kind(ErrorKind::InvalidFormat, String::from_str("invalid mip table")),
            );
        }

        let mipmap = calculate_highest_mipmap(offsets, current as u64, file_size as u64);
        proof {
            assert(mipmap == iwi_mip(s, version));
        }
        if mipmap.size == 0 {
            return Err(
                Error::with_kind(
                    ErrorKind::EmptyData,
                    String::from_str("texture data length is 0"),
                ),
            );
        }
        file.seek(mipmap.offset as usize);
        let raw = match file.read_bytes(mipmap.size as usize) {
            Ok(raw) => raw,
            Err(e) => {
                return Err(e);
            },
        };
        proof {
            assert(raw@ =~= iwi_payload(s, version));
        }

        let out = match Self::decode_data(raw, info) {
            Ok(out) => out,
            Err(e) => {
                return Err(e);
            },
        };
        Ok(IWi { width: info.width, height: info.height, data: out })
    }
}

} // verus!
