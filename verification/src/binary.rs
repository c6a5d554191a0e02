//! Little-endian primitive reads over an in-memory byte buffer.
//!
//! A [`Reader`] owns a byte buffer and a cursor.  Every read is specified
//! exactly against the buffer contents: the little-endian value functions
//! below are the single source of truth for what each multi-byte read
//! returns.  A read past the end of the buffer fails with
//! [`ErrorKind::TruncatedInput`] and leaves the cursor where it was.

use vstd::prelude::*;

use crate::error::{Error, ErrorKind};

verus! {

/// The 16-bit little-endian value stored at offset `i`.
pub open spec fn le_u16(s: Seq<u8>, i: int) -> u16 {
    (s[i] as u16) | ((s[i + 1] as u16) << 8)
}

/// The 32-bit little-endian value stored at offset `i`.
pub open spec fn le_u32(s: Seq<u8>, i: int) -> u32 {
    (s[i] as u32) | ((s[i + 1] as u32) << 8) | ((s[i + 2] as u32) << 16) | ((s[i + 3] as u32)
        << 24)
}

/// The 64-bit little-endian value stored at offset `i`.
pub open spec fn le_u64(s: Seq<u8>, i: int) -> u64 {
    (s[i] as u64) | ((s[i + 1] as u64) << 8) | ((s[i + 2] as u64) << 16) | ((s[i + 3] as u64)
        << 24) | ((s[i + 4] as u64) << 32) | ((s[i + 5] as u64) << 40) | ((s[i + 6] as u64) << 48)
        | ((s[i + 7] as u64) << 56)
}

/// The signed 16-bit little-endian value stored at offset `i`.
pub open spec fn le_i16(s: Seq<u8>, i: int) -> i16 {
    le_u16(s, i) as i16
}

/// The signed 32-bit little-endian value stored at offset `i`.
pub open spec fn le_i32(s: Seq<u8>, i: int) -> i32 {
    le_u32(s, i) as i32
}

/// The bytes of a name region reinterpreted as characters, one per byte.
pub open spec fn chars_of_bytes(s: Seq<u8>) -> Seq<char> {
    s.map_values(|b: u8| b as char)
}

/// The offset of the first zero byte at or after `i`, if any.
pub open spec fn first_zero(s: Seq<u8>, i: int) -> Option<int>
    decreases s.len() - i,
{
    if i < 0 || i >= s.len() {
        None
    } else if s[i] == 0 {
        Some(i)
    } else {
        first_zero(s, i + 1)
    }
}

/// A found zero terminator lies at or after the scan start, inside the
/// buffer.
pub proof fn lemma_first_zero_range(s: Seq<u8>, i: int)
    requires
        first_zero(s, i) is Some,
    ensures
        i <= first_zero(s, i)->0 < s.len(),
    decreases s.len() - i,
{
    if 0 <= i < s.len() && s[i] != 0 {
        lemma_first_zero_range(s, i + 1);
    }
}

/// Relies on `String::push`: appends exactly one character at the end.
#[verifier::external_body]
pub(crate) fn push_char(s: &mut String, c: char)
    ensures
        final(s)@ == old(s)@.push(c),
{
    s.push(c);
}

/// Builds a string holding one character per byte of the input.
pub(crate) fn string_of_bytes(b: &Vec<u8>) -> (r: String)
    ensures
        r@ == chars_of_bytes(b@),
{
    let mut out = String::new();
    let mut i: usize = 0;
    while i < b.len()
        invariant
            i <= b@.len(),
            out@ == chars_of_bytes(b@.subrange(0, i as int)),
        decreases b@.len() - i,
    {
        push_char(&mut out, b[i] as char);
        i = i + 1;
        proof {
            assert(chars_of_bytes(b@.subrange(0, i as int)) =~= chars_of_bytes(
                b@.subrange(0, i - 1),
            ).push(b@[i - 1] as char));
        }
    }
    proof {
        assert(b@.subrange(0, b@.len() as int) =~= b@);
    }
    out
}

/// A cursor over an immutable little-endian byte buffer.
pub struct Reader {
    data: Vec<u8>,
    pos: usize,
}

impl Reader {
    /// The underlying bytes.
    pub closed spec fn bytes(&self) -> Seq<u8> {
        self.data@
    }

    /// The current cursor position.
    pub closed spec fn cursor(&self) -> int {
        self.pos as int
    }

    /// The cursor never runs past the end of the buffer.
    pub open spec fn wf(&self) -> bool {
        0 <= self.cursor() <= self.bytes().len()
    }

    /// Whether `n` more bytes can be read at the current cursor.
    pub open spec fn can_read(&self, n: int) -> bool {
        self.cursor() + n <= self.bytes().len()
    }

    pub fn new(data: Vec<u8>) -> (r: Reader)
        ensures
            r.bytes() == data@,
            r.cursor() == 0,
            r.wf(),
    {
        Reader { data, pos: 0 }
    }

    /// The total length of the buffer.
    pub fn len(&self) -> (r: usize)
        ensures
            r == self.bytes().len(),
    {
        self.data.len()
    }

    /// The current cursor position, as the original exposed through `tell`.
    pub fn tell(&self) -> (r: usize)
        ensures
            r == self.cursor(),
    {
        self.pos
    }

    /// Moves the cursor to an absolute position, clamped to the end of the
    /// buffer (every read at or past the end fails identically).
    pub fn seek(&mut self, pos: usize)
        requires
            old(self).wf(),
        ensures
            final(self).bytes() == old(self).bytes(),
            final(self).wf(),
            final(self).cursor() == if pos <= old(self).bytes().len() {
                pos as int
            } else {
                old(self).bytes().len() as int
            },
    {
        if pos <= self.data.len() {
            self.pos = pos;
        } else {
            self.pos = self.data.len();
        }
    }

    /// Advances the cursor by `n` bytes, clamped to the end of the buffer.
    pub fn skip(&mut self, n: usize)
        requires
            old(self).wf(),
        ensures
            final(self).bytes() == old(self).bytes(),
            final(self).wf(),
            final(self).cursor() == if old(self).cursor() + n <= old(self).bytes().len() {
                old(self).cursor() + n
            } else {
                old(self).bytes().len() as int
            },
    {
        if n <= self.data.len() - self.pos {
            self.pos = self.pos + n;
        } else {
            self.pos = self.data.len();
        }
    }

    fn byte_at(&self, i: usize) -> (r: u8)
        requires
            self.wf(),
            i < self.bytes().len(),
        ensures
            r == self.bytes()[i as int],
    {
        self.data[i]
    }

    pub fn read_u8(&mut self) -> (r: Result<u8, Error>)
        requires
            old(self).wf(),
        ensures
            final(self).bytes() == old(self).bytes(),
            final(self).wf(),
            old(self).can_read(1) ==> ( r matches Ok(v) && v == old(self).bytes()[old(self).cursor()]
                && final(self).cursor() == old(self).cursor() + 1),
            !old(self).can_read(1) ==> ( r matches Err(e) && e.kind == ErrorKind::TruncatedInput
                && final(self).cursor() == old(self).cursor()),
    {
        if self.pos < self.data.len() {
            let b = self.data[self.pos];
            self.pos = self.pos + 1;
            Ok(b)
        } else {
            Err(Error::with_kind(ErrorKind::TruncatedInput, String::new()))
        }
    }

    pub fn read_i8(&mut self) -> (r: Result<i8, Error>)
        requires
            old(self).wf(),
        ensures
            final(self).bytes() == old(self).bytes(),
            final(self).wf(),
            old(self).can_read(1) ==> ( r matches Ok(v) && v == old(self).bytes()[old(self).cursor()] as i8
                && final(self).cursor() == old(self).cursor() + 1),
            !old(self).can_read(1) ==> ( r matches Err(e) && e.kind == ErrorKind::TruncatedInput
                && final(self).cursor() == old(self).cursor()),
    {
        match self.read_u8() {
            Ok(b) => Ok(b as i8),
            Err(e) => Err(e),
        }
    }

    pub fn read_u16(&mut self) -> (r: Result<u16, Error>)
        requires
            old(self).wf(),
        ensures
            final(self).bytes() == old(self).bytes(),
            final(self).wf(),
            old(self).can_read(2) ==> ( r matches Ok(v) && v == le_u16(old(self).bytes(), old(self).cursor())
                && final(self).cursor() == old(self).cursor() + 2),
            !old(self).can_read(2) ==> ( r matches Err(e) && e.kind == ErrorKind::TruncatedInput
                && final(self).cursor() == old(self).cursor()),
    {
        if 2 <= self.data.len() - self.pos {
            let b0 = self.byte_at(self.pos);
            let b1 = self.byte_at(self.pos + 1);
            self.pos = self.pos + 2;
            Ok((b0 as u16) | ((b1 as u16) << 8u16))
        } else {
            Err(Error::with_kind(ErrorKind::TruncatedInput, String::new()))
        }
    }

    pub fn read_i16(&mut self) -> (r: Result<i16, Error>)
        requires
            old(self).wf(),
        ensures
            final(self).bytes() == old(self).bytes(),
            final(self).wf(),
            old(self).can_read(2) ==> ( r matches Ok(v) && v == le_i16(old(self).bytes(), old(self).cursor())
                && final(self).cursor() == old(self).cursor() + 2),
            !old(self).can_read(2) ==> ( r matches Err(e) && e.kind == ErrorKind::TruncatedInput
                && final(self).cursor() == old(self).cursor()),
    {
        match self.read_u16() {
            Ok(v) => Ok(v as i16),
            Err(e) => Err(e),
        }
    }

    pub fn read_u32(&mut self) -> (r: Result<u32, Error>)
        requires
            old(self).wf(),
        ensures
            final(self).bytes() == old(self).bytes(),
            final(self).wf(),
            old(self).can_read(4) ==> ( r matches Ok(v) && v == le_u32(old(self).bytes(), old(self).cursor())
                && final(self).cursor() == old(self).cursor() + 4),
            !old(self).can_read(4) ==> ( r matches Err(e) && e.kind == ErrorKind::TruncatedInput
                && final(self).cursor() == old(self).cursor()),
    {
        if 4 <= self.data.len() - self.pos {
            let b0 = self.byte_at(self.pos);
            let b1 = self.byte_at(self.pos + 1);
            let b2 = self.byte_at(self.pos + 2);
            let b3 = self.byte_at(self.pos + 3);
            self.pos = self.pos + 4;
            Ok((b0 as u32) | ((b1 as u32) << 8u32) | ((b2 as u32) << 16u32) | ((b3 as u32)
                << 24u32))
        } else {
            Err(Error::with_kind(ErrorKind::TruncatedInput, String::new()))
        }
    }

    pub fn read_i32(&mut self) -> (r: Result<i32, Error>)
        requires
            old(self).wf(),
        ensures
            final(self).bytes() == old(self).bytes(),
            final(self).wf(),
            old(self).can_read(4) ==> ( r matches Ok(v) && v == le_i32(old(self).bytes(), old(self).cursor())
                && final(self).cursor() == old(self).cursor() + 4),
            !old(self).can_read(4) ==> ( r matches Err(e) && e.kind == ErrorKind::TruncatedInput
                && final(self).cursor() == old(self).cursor()),
    {
        match self.read_u32() {
            Ok(v) => Ok(v as i32),
            Err(e) => Err(e),
        }
    }

    pub fn read_u64(&mut self) -> (r: Result<u64, Error>)
        requires
            old(self).wf(),
        ensures
            final(self).bytes() == old(self).bytes(),
            final(self).wf(),
            old(self).can_read(8) ==> ( r matches Ok(v) && v == le_u64(old(self).bytes(), old(self).cursor())
                && final(self).cursor() == old(self).cursor() + 8),
            !old(self).can_read(8) ==> ( r matches Err(e) && e.kind == ErrorKind::TruncatedInput
                && final(self).cursor() == old(self).cursor()),
    {
        if 8 <= self.data.len() - self.pos {
            let b0 = self.byte_at(self.pos);
            let b1 = self.byte_at(self.pos + 1);
            let b2 = self.byte_at(self.pos + 2);
            let b3 = self.byte_at(self.pos + 3);
            let b4 = self.byte_at(self.pos + 4);
            let b5 = self.byte_at(self.pos + 5);
            let b6 = self.byte_at(self.pos + 6);
            let b7 = self.byte_at(self.pos + 7);
            self.pos = self.pos + 8;
            Ok((b0 as u64) | ((b1 as u64) << 8u64) | ((b2 as u64) << 16u64) | ((b3 as u64)
                << 24u64) | ((b4 as u64) << 32u64) | ((b5 as u64) << 40u64) | ((b6 as u64)
                << 48u64) | ((b7 as u64) << 56u64))
        } else {
            Err(Error::with_kind(ErrorKind::TruncatedInput, String::new()))
        }
    }

    /// Reads the 32-bit pattern of an IEEE 754 single-precision field.
    pub fn read_f32_bits(&mut self) -> (r: Result<u32, Error>)
        requires
            old(self).wf(),
        ensures
            final(self).bytes() == old(self).bytes(),
            final(self).wf(),
            old(self).can_read(4) ==> ( r matches Ok(v) && v == le_u32(old(self).bytes(), old(self).cursor())
                && final(self).cursor() == old(self).cursor() + 4),
            !old(self).can_read(4) ==> ( r matches Err(e) && e.kind == ErrorKind::TruncatedInput
                && final(self).cursor() == old(self).cursor()),
    {
        self.read_u32()
    }

    /// Reads `n` raw bytes.
    pub fn read_bytes(&mut self, n: usize) -> (r: Result<Vec<u8>, Error>)
        requires
            old(self).wf(),
        ensures
            final(self).bytes() == old(self).bytes(),
            final(self).wf(),
            old(self).can_read(n as int) ==> ( r matches Ok(v)
                && v@ == old(self).bytes().subrange(old(self).cursor(), old(self).cursor() + n)
                && final(self).cursor() == old(self).cursor() + n),
            !old(self).can_read(n as int) ==> ( r matches Err(e) && e.kind
                == ErrorKind::TruncatedInput && final(self).cursor() == old(self).cursor()),
    {
        let l = self.data.len();
        if n <= l - self.pos {
            let mut out: Vec<u8> = Vec::new();
            let mut i: usize = 0;
            while i < n
                invariant
                    self.wf(),
                    i <= n,
                    l == self.bytes().len(),
                    self.cursor() + n <= l,
                    out@ == self.bytes().subrange(self.cursor(), self.cursor() + i),
                decreases n - i,
            {
                let b = self.byte_at(self.pos + i);
                out.push(b);
                i = i + 1;
                proof {
                    assert(out@ =~= self.bytes().subrange(self.cursor(), self.cursor() + i));
                }
            }
            self.pos = self.pos + n;
            Ok(out)
        } else {
            Err(Error::with_kind(ErrorKind::TruncatedInput, String::new()))
        }
    }

    /// Reads bytes up to (and consuming) the next zero byte, returning them as
    /// a string with one character per byte.  Fails with `TruncatedInput` when
    /// no zero byte remains.
    pub fn read_nullstr(&mut self) -> (r: Result<String, Error>)
        requires
            old(self).wf(),
        ensures
            final(self).bytes() == old(self).bytes(),
            final(self).wf(),
            first_zero(old(self).bytes(), old(self).cursor()) matches Some(z) ==> ( r matches Ok(s)
                && s@ == chars_of_bytes(old(self).bytes().subrange(old(self).cursor(), z))
                && final(self).cursor() == z + 1),
            first_zero(old(self).bytes(), old(self).cursor()) is None ==> ( r matches Err(e)
                && e.kind == ErrorKind::TruncatedInput
                && final(self).cursor() == old(self).cursor()),
    {
        let ghost start = self.cursor();
        let mut out = String::new();
        let mut i: usize = self.pos;
        loop
            invariant
                self.wf(),
                self.bytes() == old(self).bytes(),
                self.cursor() == start,
                start == old(self).cursor(),
                start <= i <= self.bytes().len(),
                first_zero(self.bytes(), start) == first_zero(self.bytes(), i as int),
                forall|j: int| start <= j < i ==> self.bytes()[j] != 0,
                out@ == chars_of_bytes(self.bytes().subrange(start, i as int)),
            decreases self.bytes().len() - i,
        {
            if i >= self.data.len() {
                proof {
                    assert(first_zero(self.bytes(), i as int) is None);
                }
                return Err(Error::with_kind(ErrorKind::TruncatedInput, String::new()));
            }
            let b = self.byte_at(i);
            if b == 0 {
                proof {
                    assert(first_zero(self.bytes(), i as int) == Some(i as int));
                }
                self.pos = i + 1;
                return Ok(out);
            }
            push_char(&mut out, b as char);
            i = i + 1;
            proof {
                assert(chars_of_bytes(self.bytes().subrange(start, i as int)) =~= chars_of_bytes(
                    self.bytes().subrange(start, i - 1),
                ).push(self.bytes()[i - 1] as char));
            }
        }
    }
}

} // verus!
