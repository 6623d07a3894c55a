//! Primitive readers over an in-memory byte source.
//!
//! Every parser of the crate walks a [`EofReader`]: a window `pos..end` over
//! one shared byte buffer. A length-prefixed scope narrows the window for its
//! inner parser and can never widen it, so no inner parser observes a byte
//! past its declared budget. Reads past the window fail with
//! [`ReadError::Io`], the unexpected-end-of-input error.

use vstd::prelude::*;
use crate::read::ReadError;

verus! {

/// A bounded read window over a byte buffer. `pos` is the next byte to read,
/// `end` the first byte that may not be read.
#[derive(Debug, Clone, Copy, PartialEq, Eq, Structural)]
pub struct EofReader {
    pub pos: usize,
    pub end: usize,
}

impl EofReader {
    /// The window lies inside the buffer.
    pub open spec fn wf(self, d: Seq<u8>) -> bool {
        self.pos <= self.end <= d.len()
    }

    /// A fresh window over the whole buffer.
    pub fn new(data: &Vec<u8>) -> (r: Self)
        ensures
            r.wf(data@),
            r.pos == 0,
            r.end == data@.len(),
    {
        EofReader { pos: 0, end: data.len() }
    }

    /// Whether the window is exhausted: the next read of any width fails.
    pub fn is_at_eof(&self) -> (r: bool)
        ensures
            r == (self.pos == self.end),
    {
        self.pos == self.end
    }

    /// The four-byte big-endian tag at the front of the window, without
    /// consuming it; `None` when fewer than four bytes remain.
    pub fn peek_tag(&self, data: &Vec<u8>) -> (r: Option<u32>)
        requires
            self.wf(data@),
        ensures
            r == (if self.pos + 4 <= self.end {
                Some(spec_be32_at(data@, self.pos as int))
            } else {
                None::<u32>
            }),
    {
        if self.end - self.pos >= 4 {
            let b0 = data[self.pos] as u32;
            let b1 = data[self.pos + 1] as u32;
            let b2 = data[self.pos + 2] as u32;
            let b3 = data[self.pos + 3] as u32;
            Some(b0 << 24 | b1 << 16 | b2 << 8 | b3)
        } else {
            None
        }
    }
}

/// The byte at `i`.
pub open spec fn spec_u8_at(d: Seq<u8>, i: int) -> u8 {
    d[i]
}

/// The little-endian `u16` at `i`.
pub open spec fn spec_le16_at(d: Seq<u8>, i: int) -> u16 {
    (d[i] as u16) | (d[i + 1] as u16) << 8
}

/// The little-endian `u32` at `i`.
pub open spec fn spec_le32_at(d: Seq<u8>, i: int) -> u32 {
    (d[i] as u32) | (d[i + 1] as u32) << 8 | (d[i + 2] as u32) << 16 | (d[i + 3] as u32) << 24
}

/// The little-endian `u64` at `i`.
pub open spec fn spec_le64_at(d: Seq<u8>, i: int) -> u64 {
    (d[i] as u64) | (d[i + 1] as u64) << 8 | (d[i + 2] as u64) << 16 | (d[i + 3] as u64) << 24 | (
    d[i + 4] as u64) << 32 | (d[i + 5] as u64) << 40 | (d[i + 6] as u64) << 48 | (d[i + 7] as u64)
        << 56
}

/// The big-endian `u32` at `i`: the order of four-character identifier tags.
pub open spec fn spec_be32_at(d: Seq<u8>, i: int) -> u32 {
    (d[i] as u32) << 24 | (d[i + 1] as u32) << 16 | (d[i + 2] as u32) << 8 | (d[i + 3] as u32)
}

/// The `n` little-endian `u16` code units starting at `i`.
pub open spec fn spec_le16_seq(d: Seq<u8>, i: int, n: int) -> Seq<u16> {
    Seq::new(n as nat, |j: int| spec_le16_at(d, i + 2 * j))
}

/// Where a frame of declared length `len` opened at `pos` ends: `len` bytes
/// on, or at the outer end where the declaration overruns it.
pub open spec fn spec_frame_end(pos: int, end: int, len: u32) -> int {
    if pos + len <= end {
        pos + len
    } else {
        end
    }
}

/// Read one byte.
pub fn read_u8(data: &Vec<u8>, c: &mut EofReader) -> (r: Result<u8, ReadError>)
    requires
        old(c).wf(data@),
    ensures
        final(c).wf(data@),
        final(c).end == old(c).end,
        match r {
            Ok(v) => old(c).pos + 1 <= old(c).end && final(c).pos == old(c).pos + 1 && v
                == spec_u8_at(data@, old(c).pos as int),
            Err(e) => e == ReadError::Io && old(c).pos + 1 > old(c).end && *final(c) == *old(c),
        },
{
    if c.pos < c.end {
        let v = data[c.pos];
        c.pos = c.pos + 1;
        Ok(v)
    } else {
        Err(ReadError::Io)
    }
}

/// Read a little-endian `u16`.
pub fn read_le_u16(data: &Vec<u8>, c: &mut EofReader) -> (r: Result<u16, ReadError>)
    requires
        old(c).wf(data@),
    ensures
        final(c).wf(data@),
        final(c).end == old(c).end,
        match r {
            Ok(v) => old(c).pos + 2 <= old(c).end && final(c).pos == old(c).pos + 2 && v
                == spec_le16_at(data@, old(c).pos as int),
            Err(e) => e == ReadError::Io && old(c).pos + 2 > old(c).end && *final(c) == *old(c),
        },
{
    if c.end - c.pos >= 2 {
        let b0 = data[c.pos] as u16;
        let b1 = data[c.pos + 1] as u16;
        c.pos = c.pos + 2;
        Ok(b0 | b1 << 8)
    } else {
        Err(ReadError::Io)
    }
}

/// Read a little-endian `u32`.
pub fn read_le_u32(data: &Vec<u8>, c: &mut EofReader) -> (r: Result<u32, ReadError>)
    requires
        old(c).wf(data@),
    ensures
        final(c).wf(data@),
        final(c).end == old(c).end,
        match r {
            Ok(v) => old(c).pos + 4 <= old(c).end && final(c).pos == old(c).pos + 4 && v
                == spec_le32_at(data@, old(c).pos as int),
            Err(e) => e == ReadError::Io && old(c).pos + 4 > old(c).end && *final(c) == *old(c),
        },
{
    if c.end - c.pos >= 4 {
        let b0 = data[c.pos] as u32;
        let b1 = data[c.pos + 1] as u32;
        let b2 = data[c.pos + 2] as u32;
        let b3 = data[c.pos + 3] as u32;
        c.pos = c.pos + 4;
        Ok(b0 | b1 << 8 | b2 << 16 | b3 << 24)
    } else {
        Err(ReadError::Io)
    }
}

/// Read a little-endian `u64`.
pub fn read_le_u64(data: &Vec<u8>, c: &mut EofReader) -> (r: Result<u64, ReadError>)
    requires
        old(c).wf(data@),
    ensures
        final(c).wf(data@),
        final(c).end == old(c).end,
        match r {
            Ok(v) => old(c).pos + 8 <= old(c).end && final(c).pos == old(c).pos + 8 && v
                == spec_le64_at(data@, old(c).pos as int),
            Err(e) => e == ReadError::Io && old(c).pos + 8 > old(c).end && *final(c) == *old(c),
        },
{
    if c.end - c.pos >= 8 {
        let b0 = data[c.pos] as u64;
        let b1 = data[c.pos + 1] as u64;
        let b2 = data[c.pos + 2] as u64;
        let b3 = data[c.pos + 3] as u64;
        let b4 = data[c.pos + 4] as u64;
        let b5 = data[c.pos + 5] as u64;
        let b6 = data[c.pos + 6] as u64;
        let b7 = data[c.pos + 7] as u64;
        c.pos = c.pos + 8;
        Ok(
            b0 | b1 << 8 | b2 << 16 | b3 << 24 | b4 << 32 | b5 << 40 | b6 << 48 | b7 << 56,
        )
    } else {
        Err(ReadError::Io)
    }
}

/// Read a big-endian `u32` identifier tag.
pub fn read_be_u32(data: &Vec<u8>, c: &mut EofReader) -> (r: Result<u32, ReadError>)
    requires
        old(c).wf(data@),
    ensures
        final(c).wf(data@),
        final(c).end == old(c).end,
        match r {
            Ok(v) => old(c).pos + 4 <= old(c).end && final(c).pos == old(c).pos + 4 && v
                == spec_be32_at(data@, old(c).pos as int),
            Err(e) => e == ReadError::Io && old(c).pos + 4 > old(c).end && *final(c) == *old(c),
        },
{
    if c.end - c.pos >= 4 {
        let b0 = data[c.pos] as u32;
        let b1 = data[c.pos + 1] as u32;
        let b2 = data[c.pos + 2] as u32;
        let b3 = data[c.pos + 3] as u32;
        c.pos = c.pos + 4;
        Ok(b0 << 24 | b1 << 16 | b2 << 8 | b3)
    } else {
        Err(ReadError::Io)
    }
}

/// Copy the next `n` bytes out of the window.
pub fn read_bytes(data: &Vec<u8>, c: &mut EofReader, n: usize) -> (r: Result<Vec<u8>, ReadError>)
    requires
        old(c).wf(data@),
    ensures
        final(c).wf(data@),
        final(c).end == old(c).end,
        match r {
            Ok(v) => old(c).pos + n <= old(c).end && final(c).pos == old(c).pos + n && v@
                == data@.subrange(old(c).pos as int, old(c).pos + n),
            Err(e) => e == ReadError::Io && old(c).pos + n > old(c).end && *final(c) == *old(c),
        },
{
    if n <= c.end - c.pos {
        let mut v: Vec<u8> = Vec::new();
        let mut i: usize = 0;
        while i < n
            invariant
                i <= n,
                c.wf(data@),
                c.pos + n <= c.end,
                v@ == data@.subrange(c.pos as int, c.pos + i),
            decreases n - i,
        {
            v.push(data[c.pos + i]);
            i = i + 1;
            proof {
                assert(v@ =~= data@.subrange(c.pos as int, c.pos + i));
            }
        }
        c.pos = c.pos + n;
        Ok(v)
    } else {
        Err(ReadError::Io)
    }
}

/// Skip the next `n` bytes; they must exist.
pub fn skip_bytes(data: &Vec<u8>, c: &mut EofReader, n: usize) -> (r: Result<(), ReadError>)
    requires
        old(c).wf(data@),
    ensures
        final(c).wf(data@),
        final(c).end == old(c).end,
        match r {
            Ok(v) => old(c).pos + n <= old(c).end && final(c).pos == old(c).pos + n,
            Err(e) => e == ReadError::Io && old(c).pos + n > old(c).end && *final(c) == *old(c),
        },
{
    if n <= c.end - c.pos {
        c.pos = c.pos + n;
        Ok(())
    } else {
        Err(ReadError::Io)
    }
}

/// Read `n` little-endian `u16` code units.
pub fn read_le16_units(data: &Vec<u8>, c: &mut EofReader, n: usize) -> (r: Result<
    Vec<u16>,
    ReadError,
>)
    requires
        old(c).wf(data@),
    ensures
        final(c).wf(data@),
        final(c).end == old(c).end,
        match r {
            Ok(v) => old(c).pos + 2 * n <= old(c).end && final(c).pos == old(c).pos + 2 * n && v@
                == spec_le16_seq(data@, old(c).pos as int, n as int),
            Err(e) => e == ReadError::Io && old(c).pos + 2 * n > old(c).end && *final(c) == *old(
                c,
            ),
        },
{
    if n <= (c.end - c.pos) / 2 {
        let mut v: Vec<u16> = Vec::new();
        let mut i: usize = 0;
        while i < n
            invariant
                i <= n,
                c.wf(data@),
                c.pos + 2 * n <= c.end,
                v@ == spec_le16_seq(data@, c.pos as int, i as int),
            decreases n - i,
        {
            let b0 = data[c.pos + 2 * i] as u16;
            let b1 = data[c.pos + 2 * i + 1] as u16;
            v.push(b0 | b1 << 8);
            i = i + 1;
            proof {
                assert(v@ =~= spec_le16_seq(data@, c.pos as int, i as int));
            }
        }
        c.pos = c.pos + 2 * n;
        Ok(v)
    } else {
        Err(ReadError::Io)
    }
}

/// Narrow the window to a frame of `len` bytes (truncated at the outer end)
/// and hand back the outer end for [`end_frame`].
pub fn begin_frame(c: &mut EofReader, len: u32) -> (saved: usize)
    requires
        old(c).pos <= old(c).end,
    ensures
        saved == old(c).end,
        final(c).pos == old(c).pos,
        final(c).end == spec_frame_end(old(c).pos as int, old(c).end as int, len),
{
    let saved = c.end;
    if (len as usize) <= c.end - c.pos {
        c.end = c.pos + len as usize;
    }
    saved
}

/// Restore the outer end after an inner frame was parsed. The position stays
/// where the inner parser left it.
pub fn end_frame(c: &mut EofReader, saved: usize)
    requires
        old(c).end <= saved,
    ensures
        final(c).pos == old(c).pos,
        final(c).end == saved,
{
    c.end = saved;
}

} // verus!
