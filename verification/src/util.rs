//! Encoded-data chunks and text decoding.
//!
//! An encoded-data chunk opens with a big-endian encoding tag and materializes
//! one inner byte buffer: `UNCO` frames the bytes verbatim, `ZLIB` frames a
//! zlib stream together with the authoritative decompressed length.

use vstd::prelude::*;
use vstd::utf8::{valid_utf8, decode_utf8};
use crate::prim::{EofReader, read_be_u32, read_le_u32, read_bytes, spec_be32_at, spec_le32_at};
use crate::read::{Mystery, ReadError};

verus! {

/// The encoding of an encoded-data chunk.
#[derive(Debug, Clone, Copy, PartialEq, Eq, Structural)]
pub enum EncodingTag {
    /// `UNCO`: the framed bytes are the buffer.
    Unco,
    /// `ZLIB`: the framed bytes are a zlib stream.
    Zlib,
}

impl EncodingTag {
    /// The tag named by a big-endian tag word, if any.
    pub open spec fn spec_from_u32(tag: u32) -> Option<EncodingTag> {
        if tag == 0x554E434F {
            Some(EncodingTag::Unco)
        } else if tag == 0x5A4C4942 {
            Some(EncodingTag::Zlib)
        } else {
            None
        }
    }

    /// The tag named by a big-endian tag word, if any.
    pub fn from_u32(tag: u32) -> (r: Option<EncodingTag>)
        ensures
            r == Self::spec_from_u32(tag),
    {
        if tag == 0x554E434F {
            Some(EncodingTag::Unco)
        } else if tag == 0x5A4C4942 {
            Some(EncodingTag::Zlib)
        } else {
            None
        }
    }

    /// The tag word of this encoding.
    pub fn to_u32(self) -> (r: u32)
        ensures
            Self::spec_from_u32(r) == Some(self),
    {
        match self {
            EncodingTag::Unco => 0x554E434F,
            EncodingTag::Zlib => 0x5A4C4942,
        }
    }
}

/// Opaque byte data carried through without interpretation.
#[derive(Debug, Clone, PartialEq, Eq)]
pub struct Bytes(pub Vec<u8>);

impl View for Bytes {
    type V = Seq<u8>;

    open spec fn view(&self) -> Seq<u8> {
        self.0@
    }
}

/// What the zlib stream held in the bytes inflates to, or `None` where the
/// stream is rejected. Inflation is a function of the bytes alone.
pub uninterp spec fn zlib_inflate(stream: Seq<u8>) -> Option<Seq<u8>>;

/// Relies on `libflate::zlib::Decoder`: constructing it over the slice and
/// reading it to its end inflates the zlib stream at the front of the slice,
/// a function of those bytes alone; any rejected stream yields an error.
#[verifier::external_body]
pub(crate) fn inflate(stream: &Vec<u8>) -> (r: Option<Vec<u8>>)
    ensures
        match r {
            Some(v) => zlib_inflate(stream@) == Some(v@),
            None => zlib_inflate(stream@) is None,
        },
{
    let mut d = match libflate::zlib::Decoder::new(stream.as_slice()) {
        Ok(d) => d,
        Err(_) => return None,
    };
    let mut out = Vec::new();
    match std::io::Read::read_to_end(&mut d, &mut out) {
        Ok(_) => Some(out),
        Err(_) => None,
    }
}

/// Relies on `String::from_utf8`: it succeeds exactly on valid UTF-8 and then
/// yields the decoded characters.
#[verifier::external_body]
pub(crate) fn string_from_utf8(bytes: Vec<u8>) -> (r: Option<String>)
    ensures
        match r {
            Some(s) => valid_utf8(bytes@) && s@ == decode_utf8(bytes@),
            None => !valid_utf8(bytes@),
        },
{
    String::from_utf8(bytes).ok()
}

/// What strict UTF-16 decoding makes of the code units, or `None` on invalid
/// surrogates. The result is a function of the code units alone.
pub uninterp spec fn utf16_decode(units: Seq<u16>) -> Option<Seq<char>>;

/// Relies on `String::from_utf16`: strict UTF-16 decoding of the code units,
/// a function of those units alone; an error exactly on invalid data.
#[verifier::external_body]
pub(crate) fn string_from_utf16(units: &Vec<u16>) -> (r: Option<String>)
    ensures
        match r {
            Some(s) => utf16_decode(units@) == Some(s@),
            None => utf16_decode(units@) is None,
        },
{
    String::from_utf16(units.as_slice()).ok()
}

/// What an encoded-data chunk at `i` materializes: the inner buffer and the
/// position after the chunk.
pub open spec fn spec_read_encoded(d: Seq<u8>, i: int, end: int) -> Result<
    (Seq<u8>, int),
    ReadError,
> {
    if i + 4 > end {
        Err(ReadError::Io)
    } else {
        let tag = spec_be32_at(d, i);
        match EncodingTag::spec_from_u32(tag) {
            Some(EncodingTag::Unco) => {
                if i + 8 > end {
                    Err(ReadError::Io)
                } else {
                    let len = spec_le32_at(d, i + 4);
                    if i + 8 + len <= end {
                        Ok((d.subrange(i + 8, i + 8 + len), i + 8 + len))
                    } else {
                        Err(ReadError::Io)
                    }
                }
            },
            Some(EncodingTag::Zlib) => {
                if i + 12 > end {
                    Err(ReadError::Io)
                } else {
                    let len = spec_le32_at(d, i + 4);
                    let dlen = spec_le32_at(d, i + 8);
                    let slen: int = if len >= 4 {
                        len - 4
                    } else {
                        0
                    };
                    if i + 12 + slen <= end {
                        match zlib_inflate(d.subrange(i + 12, i + 12 + slen)) {
                            Some(out) => {
                                if out.len() == dlen {
                                    Ok((out, i + 12 + slen))
                                } else {
                                    Err(ReadError::UnknownMystery(Mystery::ZlibLength(dlen)))
                                }
                            },
                            None => Err(ReadError::Io),
                        }
                    } else {
                        Err(ReadError::Io)
                    }
                }
            },
            None => Err(ReadError::UnknownEncoding(tag)),
        }
    }
}

/// Read an encoded-data chunk and materialize its inner buffer.
pub fn read_encoded_data(data: &Vec<u8>, c: &mut EofReader) -> (r: Result<Vec<u8>, ReadError>)
    requires
        old(c).wf(data@),
    ensures
        final(c).wf(data@),
        final(c).end == old(c).end,
        match r {
            Ok(v) => spec_read_encoded(data@, old(c).pos as int, old(c).end as int) == Ok::<
                _,
                ReadError,
            >((v@, final(c).pos as int)) && old(c).pos < final(c).pos,
            Err(e) => spec_read_encoded(data@, old(c).pos as int, old(c).end as int) == Err::<
                (Seq<u8>, int),
                _,
            >(e),
        },
{
    let tag = read_be_u32(data, c)?;
    match EncodingTag::from_u32(tag) {
        Some(EncodingTag::Unco) => {
            let len = read_le_u32(data, c)?;
            let v = read_bytes(data, c, len as usize)?;
            Ok(v)
        },
        Some(EncodingTag::Zlib) => {
            let len = read_le_u32(data, c)?;
            let dlen = read_le_u32(data, c)?;
            let slen: u32 = if len >= 4 {
                len - 4
            } else {
                0
            };
            let stream = read_bytes(data, c, slen as usize)?;
            match inflate(&stream) {
                Some(out) => {
                    if out.len() == dlen as usize {
                        Ok(out)
                    } else {
                        Err(ReadError::UnknownMystery(Mystery::ZlibLength(dlen)))
                    }
                },
                None => Err(ReadError::Io),
            }
        },
        None => Err(ReadError::UnknownEncoding(tag)),
    }
}

} // verus!
