//! Error model of the decoder.
//!
//! Every failure of the decoder is one value of [`ReadError`]. Structural
//! violations of otherwise well-framed data are collected in [`Mystery`],
//! which carries the offending value so that a front end can report it.

use vstd::prelude::*;

verus! {

/// Where a text decoding failure happened.
#[derive(Debug, Clone, Copy, PartialEq, Eq)]
pub enum ErrorLocation {
    Certificate,
    TvciDevice,
    TvciSoftwareName,
    PaletteColorName,
    PaletteColorProject,
}

/// A reserved or opaque byte region carried an unexpected value. The payload
/// is the offending value, read in the byte order of the field it came from.
#[derive(Debug, Clone, Copy, PartialEq, Eq)]
pub enum Mystery {
    /// The two `u32` values after the version word were not `2, 1`.
    Prologue(u32, u32),
    /// The `u32` opening a `CERT` payload was not `1`.
    CertHeader(u32),
    /// The `u32` inside a `CREA` payload was not `2`.
    CreaValue(u32),
    /// The `u16` opening a layer buffer named neither an empty nor a vector layer.
    LayerKind(u16),
    /// The `u32` opening a shape was not `2`.
    ShapeMagic(u32),
    /// A shape component did not open with the `TGVS` tag.
    ComponentFrameTag(u32),
    /// The byte after the `TGSD` fill type byte was neither `0` nor `1`.
    TgsdFillFlag(u8),
    /// The continuation byte after a `TGSD` record was neither `0` nor `1`.
    TgsdContinuation(u8),
    /// A run of zero bits of this length, ended by a one bit, names no path
    /// segment kind.
    CurveRun(u32),
    /// A segment opcode asked for more points than the declared budget left.
    CurveOvershoot,
    /// The first byte of a `tGTB` record named neither variant.
    TgtbKind(u8),
    /// The fixed header of a `tGTB` reference record, packed little-endian.
    TgtbUseHeader(u32),
    /// The checked five header bytes of a `tGTB` definition record, packed
    /// little-endian.
    TgtbDefineHeader(u64),
    /// The five trailer bytes of a `tGTB` definition record, packed
    /// little-endian.
    TgtbTrailer(u64),
    /// A non-zero `u64` gap inside the `tGTB` domain trailer.
    TgtbGap(u64),
    /// A vector layer buffer did not end in the thirteen-byte sentinel.
    LayerTrailer,
    /// The `u32` after the palette color count was not `0x79`.
    PaletteStart(u32),
    /// The `u16` opening a palette color was not `0`.
    PaletteColorHeader(u16),
    /// The length of a `TCSC` record was not `4`.
    TcscLen(u32),
    /// A zlib payload did not inflate to the declared length.
    ZlibLength(u32),
    /// Nested main-data records exceeded the supported nesting depth.
    Depth,
}

/// The single error sum of the decoder. No failure is silently recovered.
#[derive(Debug, Clone, Copy, PartialEq, Eq)]
pub enum ReadError {
    /// The byte source ran short: an unexpected end of input in the middle of
    /// a record, or a compressed payload that would not inflate.
    Io,
    /// The first eight bytes were not the `OTVGfull` magic; they are carried
    /// packed little-endian, first byte lowest.
    UnexpectedMagic(u64),
    /// The version word was not the supported version.
    UnexpectedVersion(u32),
    /// Well-formed framing around an unexpected value.
    UnknownMystery(Mystery),
    /// A top-level tag named no known record.
    UnknownFileTag(u32),
    /// The tag opening a shape was not `TGLY`.
    UnknownLayerTag(u32),
    /// A shape carried an unknown type word.
    UnknownShapeType(u16),
    /// A shape component carried an unknown type byte.
    UnknownComponentType(u8),
    /// A tag inside a shape component frame named no known record.
    UnknownComponentTag(u32),
    /// A tag inside a palette color named no known record.
    UnknownPaletteTag(u32),
    /// An encoded-data chunk opened with an unknown encoding tag.
    UnknownEncoding(u32),
    /// A NUL-terminated string was missing its terminator.
    CStringError(ErrorLocation),
    /// A byte region was not valid UTF-8.
    Utf8Error(ErrorLocation),
    /// A code unit region was not valid UTF-16.
    Utf16Error(ErrorLocation),
}

} // verus!

use crate::layer::{LayerData, SpecLayerData, read_layer_data, spec_read_layer};
use crate::palette::{PaletteData, SpecColorData, read_palette_data, spec_read_palette};
use crate::prim::{
    EofReader, begin_frame, end_frame, read_be_u32, read_bytes, read_le_u32, read_le_u64,
    skip_bytes, spec_be32_at, spec_frame_end, spec_le32_at, spec_le64_at,
};
use crate::util::{read_encoded_data, spec_read_encoded, string_from_utf8};
use vstd::utf8::{valid_utf8, decode_utf8};

verus! {

/// How deeply main-data records may nest. Real files nest them once.
pub const MAX_MAIN_DEPTH: u32 = 64;

/// The magic eight bytes `OTVGfull`, packed little-endian, first byte lowest.
pub const MAGIC_WORD: u64 = 0x6C6C_7566_4756_544F;

/// The supported container version.
pub const TVG_VERSION: u32 = 1009;

/// The tags a top-level record may carry.
#[derive(Debug, Clone, Copy, PartialEq, Eq, Structural)]
pub enum FileTag {
    /// `CERT`: a certificate unique to the license.
    Cert,
    /// Four NUL bytes: the main drawing data.
    MainData,
    /// `ENDT`: an end marker without contents.
    Endt,
    /// `TVCI`: the software that created the file.
    Tvci,
    /// `CREA`: purpose unclear; holds the number two.
    Crea,
    /// `tUAA`: the underlay art layer.
    LayerUnderlay,
    /// `tCAA`: the color art layer.
    LayerColor,
    /// `tLAA`: the line art layer.
    LayerLine,
    /// `tOAA`: the overlay art layer.
    LayerOverlay,
    /// `TPAL`: the color palette.
    Palette,
    /// `TTOC`: an index of offsets into the main data.
    Ttoc,
    /// `SIGN`: a seventy-four byte signature blob.
    Sign,
}

impl FileTag {
    /// The record named by a big-endian tag word, if any.
    pub open spec fn spec_from_u32(tag: u32) -> Option<FileTag> {
        if tag == 0x43455254 {
            Some(FileTag::Cert)
        } else if tag == 0x00000000 {
            Some(FileTag::MainData)
        } else if tag == 0x454E4454 {
            Some(FileTag::Endt)
        } else if tag == 0x54564349 {
            Some(FileTag::Tvci)
        } else if tag == 0x43524541 {
            Some(FileTag::Crea)
        } else if tag == 0x74554141 {
            Some(FileTag::LayerUnderlay)
        } else if tag == 0x74434141 {
            Some(FileTag::LayerColor)
        } else if tag == 0x744C4141 {
            Some(FileTag::LayerLine)
        } else if tag == 0x744F4141 {
            Some(FileTag::LayerOverlay)
        } else if tag == 0x5450414C {
            Some(FileTag::Palette)
        } else if tag == 0x54544F43 {
            Some(FileTag::Ttoc)
        } else if tag == 0x5349474E {
            Some(FileTag::Sign)
        } else {
            None
        }
    }

    /// The record named by a big-endian tag word, if any.
    pub fn from_u32(tag: u32) -> (r: Option<FileTag>)
        ensures
            r == Self::spec_from_u32(tag),
    {
        if tag == 0x43455254 {
            Some(FileTag::Cert)
        } else if tag == 0x00000000 {
            Some(FileTag::MainData)
        } else if tag == 0x454E4454 {
            Some(FileTag::Endt)
        } else if tag == 0x54564349 {
            Some(FileTag::Tvci)
        } else if tag == 0x43524541 {
            Some(FileTag::Crea)
        } else if tag == 0x74554141 {
            Some(FileTag::LayerUnderlay)
        } else if tag == 0x74434141 {
            Some(FileTag::LayerColor)
        } else if tag == 0x744C4141 {
            Some(FileTag::LayerLine)
        } else if tag == 0x744F4141 {
            Some(FileTag::LayerOverlay)
        } else if tag == 0x5450414C {
            Some(FileTag::Palette)
        } else if tag == 0x54544F43 {
            Some(FileTag::Ttoc)
        } else if tag == 0x5349474E {
            Some(FileTag::Sign)
        } else {
            None
        }
    }

    /// The tag word of this record.
    pub fn to_u32(self) -> (r: u32)
        ensures
            Self::spec_from_u32(r) == Some(self),
    {
        match self {
            FileTag::Cert => 0x43455254,
            FileTag::MainData => 0x00000000,
            FileTag::Endt => 0x454E4454,
            FileTag::Tvci => 0x54564349,
            FileTag::Crea => 0x43524541,
            FileTag::LayerUnderlay => 0x74554141,
            FileTag::LayerColor => 0x74434141,
            FileTag::LayerLine => 0x744C4141,
            FileTag::LayerOverlay => 0x744F4141,
            FileTag::Palette => 0x5450414C,
            FileTag::Ttoc => 0x54544F43,
            FileTag::Sign => 0x5349474E,
        }
    }
}

/// One decoded top-level record.
#[derive(Debug)]
pub enum FileData {
    Certificate(String),
    Signature(Vec<u8>),
    Crea(u32),
    Endt,
    Main(Vec<FileData>),
    MainOffsets(Vec<(FileTag, u32)>),
    Identity { device: String, software_name: String },
    LayerUnderlay(LayerData),
    LayerColor(LayerData),
    LayerLine(LayerData),
    LayerOverlay(LayerData),
    Palette(PaletteData),
}

/// The mathematical model of a [`FileData`] record.
pub enum SpecFileData {
    Certificate(Seq<char>),
    Signature(Seq<u8>),
    Crea(u32),
    Endt,
    Main(Seq<SpecFileData>),
    MainOffsets(Seq<(FileTag, u32)>),
    Identity { device: Seq<char>, software_name: Seq<char> },
    LayerUnderlay(SpecLayerData),
    LayerColor(SpecLayerData),
    LayerLine(SpecLayerData),
    LayerOverlay(SpecLayerData),
    Palette(Seq<Seq<SpecColorData>>),
}

/// The mathematical model of one record.
pub open spec fn spec_fd_view(fd: FileData) -> SpecFileData
    decreases fd, 0int,
    via spec_fd_view_dec
{
    match fd {
        FileData::Certificate(s) => SpecFileData::Certificate(s@),
        FileData::Signature(b) => SpecFileData::Signature(b@),
        FileData::Crea(v) => SpecFileData::Crea(v),
        FileData::Endt => SpecFileData::Endt,
        FileData::Main(recs) => SpecFileData::Main(spec_fd_list_view(recs@)),
        FileData::MainOffsets(offs) => SpecFileData::MainOffsets(offs@),
        FileData::Identity { device, software_name } => SpecFileData::Identity {
            device: device@,
            software_name: software_name@,
        },
        FileData::LayerUnderlay(l) => SpecFileData::LayerUnderlay(l@),
        FileData::LayerColor(l) => SpecFileData::LayerColor(l@),
        FileData::LayerLine(l) => SpecFileData::LayerLine(l@),
        FileData::LayerOverlay(l) => SpecFileData::LayerOverlay(l@),
        FileData::Palette(p) => SpecFileData::Palette(p@),
    }
}

#[via_fn]
proof fn spec_fd_view_dec(fd: FileData) {
    match fd {
        FileData::Main(recs) => {
            vstd::std_specs::vec::axiom_vec_decreases_to_view(recs);
        },
        _ => {},
    }
}

/// The mathematical models of a record list, in order.
pub open spec fn spec_fd_list_view(v: Seq<FileData>) -> Seq<SpecFileData>
    decreases v, v.len(),
    via spec_fd_list_view_dec
{
    if v.len() == 0 {
        Seq::empty()
    } else {
        seq![spec_fd_view(v[0])] + spec_fd_list_view(v.subrange(1, v.len() as int))
    }
}

#[via_fn]
proof fn spec_fd_list_view_dec(v: Seq<FileData>) {
    broadcast use vstd::seq::group_seq_axioms;

    if v.len() > 0 {
        vstd::seq::axiom_seq_index_decreases::<FileData>(v, 0);
        vstd::seq::axiom_seq_subrange_decreases::<FileData>(v, 1, v.len() as int);
    }
}

impl View for FileData {
    type V = SpecFileData;

    open spec fn view(&self) -> SpecFileData {
        spec_fd_view(*self)
    }
}

/// The models of a record list, in order.
pub open spec fn spec_records_view(v: Seq<FileData>) -> Seq<SpecFileData> {
    Seq::new(v.len(), |k: int| v[k]@)
}

/// The two spellings of a record list's model agree.
pub proof fn lemma_records_view(v: Seq<FileData>)
    ensures
        spec_fd_list_view(v) == spec_records_view(v),
    decreases v.len(),
{
    if v.len() == 0 {
        assert(spec_fd_list_view(v) =~= spec_records_view(v));
    } else {
        lemma_records_view(v.subrange(1, v.len() as int));
        assert(spec_fd_list_view(v) =~= spec_records_view(v));
    }
}

/// The index of the first NUL byte in `[i, end)`, if any.
pub open spec fn spec_find_nul(d: Seq<u8>, i: int, end: int) -> Option<int>
    decreases end - i,
{
    if i < 0 || i >= end || i >= d.len() {
        None
    } else if d[i] == 0 {
        Some(i)
    } else {
        spec_find_nul(d, i + 1, end)
    }
}

/// The NUL-terminated UTF-8 string at `i`: its characters and the position
/// after the terminator. A missing terminator or invalid UTF-8 is fatal.
pub open spec fn spec_cstring(d: Seq<u8>, i: int, end: int, loc: ErrorLocation) -> Result<
    (Seq<char>, int),
    ReadError,
> {
    match spec_find_nul(d, i, end) {
        None => Err(ReadError::CStringError(loc)),
        Some(j) => {
            let bytes = d.subrange(i, j);
            if !valid_utf8(bytes) {
                Err(ReadError::Utf8Error(loc))
            } else {
                Ok((decode_utf8(bytes), j + 1))
            }
        },
    }
}

/// What a materialized `TVCI` buffer decodes to: thirteen discarded bytes,
/// then the device and the software name as NUL-terminated strings. Bytes
/// after the second string carry no value.
pub open spec fn spec_tvci_body(b: Seq<u8>) -> Result<SpecFileData, ReadError> {
    let end = b.len() as int;
    if 13 > end {
        Err(ReadError::Io)
    } else {
        match spec_cstring(b, 13, end, ErrorLocation::TvciDevice) {
            Err(e) => Err(e),
            Ok((device, j)) => match spec_cstring(b, j, end, ErrorLocation::TvciSoftwareName) {
                Err(e) => Err(e),
                Ok((software_name, _)) => Ok(SpecFileData::Identity { device, software_name }),
            },
        }
    }
}

/// A `CERT` payload at `i`: the frame length, a header word that must be one,
/// the certificate length and the UTF-8 certificate text. The position after
/// the record is where the text ended.
#[verifier::opaque]
pub open spec fn spec_cert(d: Seq<u8>, i: int, end: int) -> Result<(SpecFileData, int), ReadError> {
    if i + 4 > end {
        Err(ReadError::Io)
    } else {
        let len = spec_le32_at(d, i);
        let fe = spec_frame_end(i + 4, end, len);
        if i + 8 > fe {
            Err(ReadError::Io)
        } else {
            let one = spec_le32_at(d, i + 4);
            if one != 1 {
                Err(ReadError::UnknownMystery(Mystery::CertHeader(one)))
            } else if i + 12 > fe {
                Err(ReadError::Io)
            } else {
                let cl = spec_le32_at(d, i + 8);
                if i + 12 + cl > fe {
                    Err(ReadError::Io)
                } else {
                    let bytes = d.subrange(i + 12, i + 12 + cl);
                    if !valid_utf8(bytes) {
                        Err(ReadError::Utf8Error(ErrorLocation::Certificate))
                    } else {
                        Ok((SpecFileData::Certificate(decode_utf8(bytes)), i + 12 + cl))
                    }
                }
            }
        }
    }
}

/// `n` offset entries of a `TTOC` record from `i` on: a known tag word and a
/// little-endian offset each.
pub open spec fn spec_offsets(d: Seq<u8>, i: int, end: int, n: nat) -> Result<
    (Seq<(FileTag, u32)>, int),
    ReadError,
>
    decreases n,
{
    if n == 0 {
        Ok((Seq::empty(), i))
    } else if i + 4 > end {
        Err(ReadError::Io)
    } else {
        let tag = spec_be32_at(d, i);
        match FileTag::spec_from_u32(tag) {
            None => Err(ReadError::UnknownFileTag(tag)),
            Some(t) => {
                if i + 8 > end {
                    Err(ReadError::Io)
                } else {
                    match spec_offsets(d, i + 8, end, (n - 1) as nat) {
                        Err(e) => Err(e),
                        Ok((rest, j)) => Ok((seq![(t, spec_le32_at(d, i + 4))] + rest, j)),
                    }
                }
            },
        }
    }
}

/// A `TTOC` payload at `i`: the entry count, the entries, then eight
/// discarded bytes.
#[verifier::opaque]
pub open spec fn spec_ttoc(d: Seq<u8>, i: int, end: int) -> Result<(SpecFileData, int), ReadError> {
    if i + 4 > end {
        Err(ReadError::Io)
    } else {
        let count = spec_le32_at(d, i);
        match spec_offsets(d, i + 4, end, count as nat) {
            Err(e) => Err(e),
            Ok((offs, j)) => {
                if j + 8 > end {
                    Err(ReadError::Io)
                } else {
                    Ok((SpecFileData::MainOffsets(offs), j + 8))
                }
            },
        }
    }
}

/// A `CREA` payload at `i`: an encoded-data chunk whose buffer opens with
/// the word two. Bytes after that word carry no value.
#[verifier::opaque]
pub open spec fn spec_crea(d: Seq<u8>, i: int, end: int) -> Result<(SpecFileData, int), ReadError> {
    match spec_read_encoded(d, i, end) {
        Err(e) => Err(e),
        Ok((buf, j)) => {
            if buf.len() < 4 {
                Err(ReadError::Io)
            } else {
                let v = spec_le32_at(buf, 0);
                if v != 2 {
                    Err(ReadError::UnknownMystery(Mystery::CreaValue(v)))
                } else {
                    Ok((SpecFileData::Crea(v), j))
                }
            }
        },
    }
}

/// A `TVCI` payload at `i`: an encoded-data chunk whose buffer holds the
/// identity of the creating software.
#[verifier::opaque]
pub open spec fn spec_tvci(d: Seq<u8>, i: int, end: int) -> Result<(SpecFileData, int), ReadError> {
    match spec_read_encoded(d, i, end) {
        Err(e) => Err(e),
        Ok((buf, j)) => match spec_tvci_body(buf) {
            Err(e) => Err(e),
            Ok(identity) => Ok((identity, j)),
        },
    }
}

/// One top-level record at `i`, its tag already known to be readable: the
/// record and the position after it. `depth` bounds how deeply main-data
/// records may still nest.
pub open spec fn spec_record(d: Seq<u8>, i: int, end: int, depth: nat) -> Result<
    (SpecFileData, int),
    ReadError,
>
    decreases depth, end - i, 0int,
{
    if i + 4 > end {
        Err(ReadError::Io)
    } else {
        let tag = spec_be32_at(d, i);
        match FileTag::spec_from_u32(tag) {
            None => Err(ReadError::UnknownFileTag(tag)),
            Some(FileTag::Cert) => spec_cert(d, i + 4, end),
            Some(FileTag::MainData) => match spec_read_encoded(d, i + 4, end) {
                Err(e) => Err(e),
                Ok((buf, j)) => {
                    if depth == 0 {
                        Err(ReadError::UnknownMystery(Mystery::Depth))
                    } else {
                        match spec_records(buf, 0, buf.len() as int, (depth - 1) as nat) {
                            Err(e) => Err(e),
                            Ok((recs, _)) => Ok((SpecFileData::Main(recs), j)),
                        }
                    }
                },
            },
            Some(FileTag::Endt) => Ok((SpecFileData::Endt, i + 4)),
            Some(FileTag::Crea) => spec_crea(d, i + 4, end),
            Some(FileTag::Tvci) => spec_tvci(d, i + 4, end),
            Some(FileTag::LayerUnderlay) => match spec_read_layer(d, i + 4, end) {
                Err(e) => Err(e),
                Ok((l, j)) => Ok((SpecFileData::LayerUnderlay(l), j)),
            },
            Some(FileTag::LayerColor) => match spec_read_layer(d, i + 4, end) {
                Err(e) => Err(e),
                Ok((l, j)) => Ok((SpecFileData::LayerColor(l), j)),
            },
            Some(FileTag::LayerLine) => match spec_read_layer(d, i + 4, end) {
                Err(e) => Err(e),
                Ok((l, j)) => Ok((SpecFileData::LayerLine(l), j)),
            },
            Some(FileTag::LayerOverlay) => match spec_read_layer(d, i + 4, end) {
                Err(e) => Err(e),
                Ok((l, j)) => Ok((SpecFileData::LayerOverlay(l), j)),
            },
            Some(FileTag::Palette) => match spec_read_palette(d, i + 4, end) {
                Err(e) => Err(e),
                Ok((p, j)) => Ok((SpecFileData::Palette(p), j)),
            },
            Some(FileTag::Ttoc) => spec_ttoc(d, i + 4, end),
            Some(FileTag::Sign) => {
                if i + 78 > end {
                    Err(ReadError::Io)
                } else {
                    Ok((SpecFileData::Signature(d.subrange(i + 4, i + 78)), i + 78))
                }
            },
        }
    }
}

/// The records from `i` on, up to the clean end of the window. A window
/// holding one to three leftover bytes cannot hold a fresh tag and is fatal.
pub open spec fn spec_records(d: Seq<u8>, i: int, end: int, depth: nat) -> Result<
    (Seq<SpecFileData>, int),
    ReadError,
>
    decreases depth, end - i, 1int,
{
    if i >= end {
        Ok((Seq::empty(), i))
    } else if i + 4 > end {
        Err(ReadError::Io)
    } else {
        match spec_record(d, i, end, depth) {
            Err(e) => Err(e),
            Ok((rec, j)) => {
                if i < j <= end {
                    match spec_records(d, j, end, depth) {
                        Err(e) => Err(e),
                        Ok((rest, k)) => Ok((seq![rec] + rest, k)),
                    }
                } else {
                    // a record always moves forward inside the window
                    Err(ReadError::Io)
                }
            },
        }
    }
}

/// What a whole byte stream decodes to: the `OTVGfull` magic, the version,
/// the two prologue words `2, 1`, then the records until the clean end of
/// the stream.
pub open spec fn spec_read(d: Seq<u8>) -> Result<Seq<SpecFileData>, ReadError> {
    let end = d.len() as int;
    if 8 > end {
        Err(ReadError::Io)
    } else {
        let m = spec_le64_at(d, 0);
        if m != MAGIC_WORD {
            Err(ReadError::UnexpectedMagic(m))
        } else if 12 > end {
            Err(ReadError::Io)
        } else {
            let v = spec_le32_at(d, 8);
            if v != TVG_VERSION {
                Err(ReadError::UnexpectedVersion(v))
            } else if 16 > end {
                Err(ReadError::Io)
            } else {
                let t1 = spec_le32_at(d, 12);
                if 20 > end {
                    Err(ReadError::Io)
                } else {
                    let t2 = spec_le32_at(d, 16);
                    if t1 != 2 || t2 != 1 {
                        Err(ReadError::UnknownMystery(Mystery::Prologue(t1, t2)))
                    } else {
                        match spec_records(d, 20, end, MAX_MAIN_DEPTH as nat) {
                            Err(e) => Err(e),
                            Ok((recs, _)) => Ok(recs),
                        }
                    }
                }
            }
        }
    }
}

/// Read a NUL-terminated UTF-8 string.
fn read_cstring(data: &Vec<u8>, c: &mut EofReader, loc: ErrorLocation) -> (r: Result<
    String,
    ReadError,
>)
    requires
        old(c).wf(data@),
    ensures
        final(c).wf(data@),
        final(c).end == old(c).end,
        match r {
            Ok(s) => old(c).pos < final(c).pos && spec_cstring(
                data@,
                old(c).pos as int,
                old(c).end as int,
                loc,
            ) == Ok::<_, ReadError>((s@, final(c).pos as int)),
            Err(e) => spec_cstring(data@, old(c).pos as int, old(c).end as int, loc) == Err::<
                (Seq<char>, int),
                _,
            >(e),
        },
{
    let ghost end = c.end as int;
    let mut j: usize = c.pos;
    while j < c.end && data[j] != 0
        invariant
            c.pos <= j <= c.end,
            spec_find_nul(data@, c.pos as int, end) == spec_find_nul(data@, j as int, end),
        decreases c.end - j,
    {
        j = j + 1;
    }
    if j == c.end {
        return Err(ReadError::CStringError(loc));
    }
    let n = j - c.pos;
    let bytes = read_bytes(data, c, n)?;
    skip_bytes(data, c, 1)?;
    match string_from_utf8(bytes) {
        None => Err(ReadError::Utf8Error(loc)),
        Some(s) => Ok(s),
    }
}

/// Read a `CERT` payload: the frame length, the header word, the length and
/// text of the certificate.
fn read_cert(data: &Vec<u8>, c: &mut EofReader) -> (r: Result<FileData, ReadError>)
    requires
        old(c).wf(data@),
    ensures
        final(c).wf(data@),
        final(c).end <= old(c).end,
        match r {
            Ok(v) => final(c).end == old(c).end && old(c).pos < final(c).pos && spec_cert(
                data@,
                old(c).pos as int,
                old(c).end as int,
            ) == Ok::<_, ReadError>((v@, final(c).pos as int)),
            Err(e) => spec_cert(data@, old(c).pos as int, old(c).end as int) == Err::<
                (SpecFileData, int),
                _,
            >(e),
        },
{
    proof {
        reveal(spec_cert);
    }
    let len = read_le_u32(data, c)?;
    let saved = begin_frame(c, len);
    let one = read_le_u32(data, c)?;
    if one != 1 {
        return Err(ReadError::UnknownMystery(Mystery::CertHeader(one)));
    }
    let cl = read_le_u32(data, c)?;
    let bytes = read_bytes(data, c, cl as usize)?;
    end_frame(c, saved);
    match string_from_utf8(bytes) {
        None => Err(ReadError::Utf8Error(ErrorLocation::Certificate)),
        Some(s) => Ok(FileData::Certificate(s)),
    }
}

/// Read a `CREA` payload: an encoded-data chunk whose buffer opens with the
/// word two.
fn read_crea(data: &Vec<u8>, c: &mut EofReader) -> (r: Result<FileData, ReadError>)
    requires
        old(c).wf(data@),
    ensures
        final(c).wf(data@),
        final(c).end == old(c).end,
        match r {
            Ok(v) => old(c).pos < final(c).pos && spec_crea(
                data@,
                old(c).pos as int,
                old(c).end as int,
            ) == Ok::<_, ReadError>((v@, final(c).pos as int)),
            Err(e) => spec_crea(data@, old(c).pos as int, old(c).end as int) == Err::<
                (SpecFileData, int),
                _,
            >(e),
        },
{
    proof {
        reveal(spec_crea);
    }
    let buf = read_encoded_data(data, c)?;
    let mut bc = EofReader::new(&buf);
    let v = read_le_u32(&buf, &mut bc)?;
    if v != 2 {
        return Err(ReadError::UnknownMystery(Mystery::CreaValue(v)));
    }
    Ok(FileData::Crea(v))
}

/// Read a `TVCI` payload: an encoded-data chunk holding thirteen discarded
/// bytes, the device name and the software name.
fn read_tvci(data: &Vec<u8>, c: &mut EofReader) -> (r: Result<FileData, ReadError>)
    requires
        old(c).wf(data@),
    ensures
        final(c).wf(data@),
        final(c).end == old(c).end,
        match r {
            Ok(v) => old(c).pos < final(c).pos && spec_tvci(
                data@,
                old(c).pos as int,
                old(c).end as int,
            ) == Ok::<_, ReadError>((v@, final(c).pos as int)),
            Err(e) => spec_tvci(data@, old(c).pos as int, old(c).end as int) == Err::<
                (SpecFileData, int),
                _,
            >(e),
        },
{
    proof {
        reveal(spec_tvci);
    }
    let buf = read_encoded_data(data, c)?;
    let mut bc = EofReader::new(&buf);
    skip_bytes(&buf, &mut bc, 13)?;
    let device = read_cstring(&buf, &mut bc, ErrorLocation::TvciDevice)?;
    let software_name = read_cstring(&buf, &mut bc, ErrorLocation::TvciSoftwareName)?;
    Ok(FileData::Identity { device, software_name })
}

/// Read a `TTOC` payload: the entry count, the entries, then eight discarded
/// bytes.
fn read_ttoc(data: &Vec<u8>, c: &mut EofReader) -> (r: Result<FileData, ReadError>)
    requires
        old(c).wf(data@),
    ensures
        final(c).wf(data@),
        final(c).end == old(c).end,
        match r {
            Ok(v) => old(c).pos < final(c).pos && spec_ttoc(
                data@,
                old(c).pos as int,
                old(c).end as int,
            ) == Ok::<_, ReadError>((v@, final(c).pos as int)),
            Err(e) => spec_ttoc(data@, old(c).pos as int, old(c).end as int) == Err::<
                (SpecFileData, int),
                _,
            >(e),
        },
{
    proof {
        reveal(spec_ttoc);
    }
    let count = read_le_u32(data, c)?;
    let ghost obase = c.pos as int;
    let ghost end = c.end as int;
    let mut offsets: Vec<(FileTag, u32)> = Vec::new();
    let mut k: u32 = 0;
    while k < count
        invariant
            c.wf(data@),
            c.end as int == end,
            old(c).pos < c.pos,
            k <= count,
            spec_offsets(data@, obase, end, count as nat) == (match spec_offsets(
                data@,
                c.pos as int,
                end,
                (count - k) as nat,
            ) {
                Err(e) => Err::<(Seq<(FileTag, u32)>, int), ReadError>(e),
                Ok((rest, j)) => Ok((offsets@ + rest, j)),
            }),
        decreases count - k,
    {
        let ghost offsets_before = offsets@;
        let tw = read_be_u32(data, c)?;
        let t = match FileTag::from_u32(tw) {
            None => {
                return Err(ReadError::UnknownFileTag(tw));
            },
            Some(t) => t,
        };
        let off = read_le_u32(data, c)?;
        offsets.push((t, off));
        k = k + 1;
        proof {
            let a = offsets_before;
            let s1 = seq![offsets@[offsets@.len() - 1]];
            assert(offsets@ =~= a + s1);
            let r2 = spec_offsets(data@, c.pos as int, end, (count - k) as nat);
            if r2 is Ok {
                assert((a + s1) + r2->Ok_0.0 =~= a + (s1 + r2->Ok_0.0));
            }
        }
    }
    proof {
        reveal(spec_ttoc);
        assert(offsets@ + Seq::<(FileTag, u32)>::empty() =~= offsets@);
    }
    skip_bytes(data, c, 8)?;
    Ok(FileData::MainOffsets(offsets))
}

/// Read one top-level record, the tag word first.
#[verifier::rlimit(100)]
#[verifier::spinoff_prover]
fn read_tag(data: &Vec<u8>, c: &mut EofReader, depth: u32) -> (r: Result<FileData, ReadError>)
    requires
        old(c).wf(data@),
    ensures
        final(c).wf(data@),
        final(c).end <= old(c).end,
        match r {
            Ok(v) => final(c).end == old(c).end && old(c).pos < final(c).pos && spec_record(
                data@,
                old(c).pos as int,
                old(c).end as int,
                depth as nat,
            ) == Ok::<_, ReadError>((v@, final(c).pos as int)),
            Err(e) => spec_record(data@, old(c).pos as int, old(c).end as int, depth as nat)
                == Err::<(SpecFileData, int), _>(e),
        },
    decreases depth, 0int,
{
    let tag = read_be_u32(data, c)?;
    match FileTag::from_u32(tag) {
        None => Err(ReadError::UnknownFileTag(tag)),
        Some(FileTag::Cert) => Ok(read_cert(data, c)?),
        Some(FileTag::MainData) => {
            let buf = read_encoded_data(data, c)?;
            if depth == 0 {
                return Err(ReadError::UnknownMystery(Mystery::Depth));
            }
            let mut bc = EofReader::new(&buf);
            let recs = read_records(&buf, &mut bc, depth - 1)?;
            proof {
                lemma_records_view(recs@);
            }
            Ok(FileData::Main(recs))
        },
        Some(FileTag::Endt) => Ok(FileData::Endt),
        Some(FileTag::Crea) => Ok(read_crea(data, c)?),
        Some(FileTag::Tvci) => Ok(read_tvci(data, c)?),
        Some(FileTag::LayerUnderlay) => Ok(FileData::LayerUnderlay(read_layer_data(data, c)?)),
        Some(FileTag::LayerColor) => Ok(FileData::LayerColor(read_layer_data(data, c)?)),
        Some(FileTag::LayerLine) => Ok(FileData::LayerLine(read_layer_data(data, c)?)),
        Some(FileTag::LayerOverlay) => Ok(FileData::LayerOverlay(read_layer_data(data, c)?)),
        Some(FileTag::Palette) => Ok(FileData::Palette(read_palette_data(data, c)?)),
        Some(FileTag::Ttoc) => Ok(read_ttoc(data, c)?),
        Some(FileTag::Sign) => {
            let bytes = read_bytes(data, c, 74)?;
            Ok(FileData::Signature(bytes))
        },
    }
}

/// Read records up to the clean end of the window.
fn read_records(data: &Vec<u8>, c: &mut EofReader, depth: u32) -> (r: Result<
    Vec<FileData>,
    ReadError,
>)
    requires
        old(c).wf(data@),
    ensures
        final(c).wf(data@),
        final(c).end <= old(c).end,
        match r {
            Ok(v) => final(c).end == old(c).end && old(c).pos <= final(c).pos && spec_records(
                data@,
                old(c).pos as int,
                old(c).end as int,
                depth as nat,
            ) == Ok::<_, ReadError>((spec_records_view(v@), final(c).pos as int)),
            Err(e) => spec_records(data@, old(c).pos as int, old(c).end as int, depth as nat)
                == Err::<(Seq<SpecFileData>, int), _>(e),
        },
    decreases depth, 1int,
{
    let ghost base = c.pos as int;
    let ghost end = c.end as int;
    let mut records: Vec<FileData> = Vec::new();
    loop
        invariant
            c.wf(data@),
            c.end as int == end,
            base <= c.pos,
            spec_records(data@, base, end, depth as nat) == (match spec_records(
                data@,
                c.pos as int,
                end,
                depth as nat,
            ) {
                Err(e) => Err::<(Seq<SpecFileData>, int), ReadError>(e),
                Ok((rest, k)) => Ok((spec_records_view(records@) + rest, k)),
            }),
        decreases c.end - c.pos,
    {
        if c.end - c.pos == 0 {
            proof {
                assert(spec_records_view(records@) + Seq::<SpecFileData>::empty()
                    =~= spec_records_view(records@));
            }
            return Ok(records);
        }
        if c.end - c.pos < 4 {
            return Err(ReadError::Io);
        }
        let ghost records_before = records@;
        let rec = read_tag(data, c, depth)?;
        records.push(rec);
        proof {
            let a = spec_records_view(records_before);
            let s1 = seq![records@[records@.len() - 1]@];
            assert(spec_records_view(records@) =~= a + s1);
            let r2 = spec_records(data@, c.pos as int, end, depth as nat);
            if r2 is Ok {
                assert((a + s1) + r2->Ok_0.0 =~= a + (s1 + r2->Ok_0.0));
            }
        }
    }
}

/// Decode a whole byte stream into its top-level records: the prologue, then
/// the records until the clean end of the stream.
pub fn read(data: &Vec<u8>) -> (r: Result<Vec<FileData>, ReadError>)
    ensures
        match r {
            Ok(v) => spec_read(data@) == Ok::<_, ReadError>(spec_records_view(v@)),
            Err(e) => spec_read(data@) == Err::<Seq<SpecFileData>, _>(e),
        },
{
    let mut c = EofReader::new(data);
    let m = read_le_u64(data, &mut c)?;
    if m != MAGIC_WORD {
        return Err(ReadError::UnexpectedMagic(m));
    }
    let version = read_le_u32(data, &mut c)?;
    if version != TVG_VERSION {
        return Err(ReadError::UnexpectedVersion(version));
    }
    let t1 = read_le_u32(data, &mut c)?;
    let t2 = read_le_u32(data, &mut c)?;
    if t1 != 2 || t2 != 1 {
        return Err(ReadError::UnknownMystery(Mystery::Prologue(t1, t2)));
    }
    let records = read_records(data, &mut c, MAX_MAIN_DEPTH)?;
    Ok(records)
}

} // verus!

verus! {

/// The magic eight bytes `OTVGfull`, in stream order.
pub open spec fn spec_magic_bytes() -> Seq<u8> {
    seq![0x4Fu8, 0x54u8, 0x56u8, 0x47u8, 0x66u8, 0x75u8, 0x6Cu8, 0x6Cu8]
}

proof fn lemma_magic_word_bits(b0: u8, b1: u8, b2: u8, b3: u8, b4: u8, b5: u8, b6: u8, b7: u8)
    by (bit_vector)
    ensures
        ((b0 as u64) | (b1 as u64) << 8 | (b2 as u64) << 16 | (b3 as u64) << 24 | (b4 as u64)
            << 32 | (b5 as u64) << 40 | (b6 as u64) << 48 | (b7 as u64) << 56 == 0x6C6C_7566_4756_544F)
            <==> (b0 == 0x4F && b1 == 0x54 && b2 == 0x56 && b3 == 0x47 && b4 == 0x66 && b5 == 0x75
            && b6 == 0x6C && b7 == 0x6C),
{
}

/// The packed magic word equals [`MAGIC_WORD`] exactly when the first eight
/// bytes spell `OTVGfull`.
pub proof fn lemma_magic_word(d: Seq<u8>)
    requires
        d.len() >= 8,
    ensures
        (spec_le64_at(d, 0) == MAGIC_WORD) <==> (d.subrange(0, 8) == spec_magic_bytes()),
{
    lemma_magic_word_bits(d[0], d[1], d[2], d[3], d[4], d[5], d[6], d[7]);
    if d[0] == 0x4F && d[1] == 0x54 && d[2] == 0x56 && d[3] == 0x47 && d[4] == 0x66 && d[5] == 0x75
        && d[6] == 0x6C && d[7] == 0x6C {
        assert(d.subrange(0, 8) =~= spec_magic_bytes());
    }
    if d.subrange(0, 8) == spec_magic_bytes() {
        assert forall|k: int| 0 <= k < 8 implies d[k] == spec_magic_bytes()[k] by {
            assert(d.subrange(0, 8)[k] == d[k]);
        }
    }
}

/// Magic and version gating: any deviation in the prologue is rejected, with
/// the offending value, before any record is interpreted.
pub proof fn lemma_prologue_gating(d: Seq<u8>)
    ensures
        d.len() < 8 ==> spec_read(d) == Err::<Seq<SpecFileData>, ReadError>(ReadError::Io),
        d.len() >= 8 && d.subrange(0, 8) != spec_magic_bytes() ==> spec_read(d) == Err::<
            Seq<SpecFileData>,
            ReadError,
        >(ReadError::UnexpectedMagic(spec_le64_at(d, 0))),
        d.len() >= 12 && d.subrange(0, 8) == spec_magic_bytes() && spec_le32_at(d, 8)
            != TVG_VERSION ==> spec_read(d) == Err::<Seq<SpecFileData>, ReadError>(
            ReadError::UnexpectedVersion(spec_le32_at(d, 8)),
        ),
        d.len() >= 20 && d.subrange(0, 8) == spec_magic_bytes() && spec_le32_at(d, 8)
            == TVG_VERSION && (spec_le32_at(d, 12) != 2 || spec_le32_at(d, 16) != 1) ==> spec_read(
            d,
        ) == Err::<Seq<SpecFileData>, ReadError>(
            ReadError::UnknownMystery(Mystery::Prologue(spec_le32_at(d, 12), spec_le32_at(d, 16))),
        ),
{
    if d.len() >= 8 {
        lemma_magic_word(d);
    }
}

} // verus!
