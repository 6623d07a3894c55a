//! The color palette: a `TPAL` payload.
//!
//! A palette buffer holds a color count and the `0x79` start word, then one
//! record per color: a zero header word, a run of `TCSC` (RGBA value) and
//! `TCID` (id, name, project) records, ended by the `0x79000000` end tag or
//! by the clean end of the buffer.

use vstd::prelude::*;
use crate::prim::{
    EofReader, begin_frame, end_frame, read_be_u32, read_le16_units, read_le_u16, read_le_u32,
    read_le_u64, read_u8, spec_be32_at, spec_frame_end, spec_le16_at, spec_le16_seq, spec_le32_at,
    spec_le64_at, spec_u8_at,
};
use crate::read::{ErrorLocation, Mystery, ReadError};
use crate::util::{spec_read_encoded, read_encoded_data, string_from_utf16, utf16_decode};

verus! {

/// The records a palette color is made of.
#[derive(Debug, Clone, Copy, PartialEq, Eq, Structural)]
pub enum PaletteColorTag {
    /// `TCSC`: the RGBA color value.
    Tcsc,
    /// `TCID`: the color id, name and project name.
    ColorId,
}

impl PaletteColorTag {
    /// The record named by a big-endian tag word, if any.
    pub open spec fn spec_from_u32(tag: u32) -> Option<PaletteColorTag> {
        if tag == 0x54435343 {
            Some(PaletteColorTag::Tcsc)
        } else if tag == 0x54434944 {
            Some(PaletteColorTag::ColorId)
        } else {
            None
        }
    }

    /// The record named by a big-endian tag word, if any.
    pub fn from_u32(tag: u32) -> (r: Option<PaletteColorTag>)
        ensures
            r == Self::spec_from_u32(tag),
    {
        if tag == 0x54435343 {
            Some(PaletteColorTag::Tcsc)
        } else if tag == 0x54434944 {
            Some(PaletteColorTag::ColorId)
        } else {
            None
        }
    }
}

/// One record of a palette color.
#[derive(Debug, Clone, PartialEq, Eq)]
pub enum ColorData {
    /// The color value, in reading order red, green, blue, alpha.
    ColorRgba(u8, u8, u8, u8),
    /// The color identity: a 64-bit id, the color name and the project name.
    ColorId { id: u64, name: String, project: String },
}

/// The mathematical model of a [`ColorData`] record.
pub enum SpecColorData {
    ColorRgba(u8, u8, u8, u8),
    ColorId { id: u64, name: Seq<char>, project: Seq<char> },
}

impl View for ColorData {
    type V = SpecColorData;

    open spec fn view(&self) -> SpecColorData {
        match self {
            ColorData::ColorRgba(r, g, b, a) => SpecColorData::ColorRgba(*r, *g, *b, *a),
            ColorData::ColorId { id, name, project } => SpecColorData::ColorId {
                id: *id,
                name: name@,
                project: project@,
            },
        }
    }
}

/// One color: its records in file order.
#[derive(Debug, Clone, PartialEq, Eq)]
pub struct PaletteColor {
    pub tags: Vec<ColorData>,
}

impl View for PaletteColor {
    type V = Seq<SpecColorData>;

    open spec fn view(&self) -> Seq<SpecColorData> {
        self.tags@.map_values(|t: ColorData| t@)
    }
}

/// The decoded palette: its colors in file order.
#[derive(Debug, Clone, PartialEq, Eq)]
pub struct PaletteData {
    pub colors: Vec<PaletteColor>,
}

impl View for PaletteData {
    type V = Seq<Seq<SpecColorData>>;

    open spec fn view(&self) -> Seq<Seq<SpecColorData>> {
        self.colors@.map_values(|pc: PaletteColor| pc@)
    }
}

/// One record inside a color at `i` (the caller has checked that a tag word
/// is available): the record, or `None` for the end tag, and the position
/// after it.
pub open spec fn spec_color_tag(d: Seq<u8>, i: int, end: int) -> Result<
    (Option<SpecColorData>, int),
    ReadError,
> {
    let tag = spec_be32_at(d, i);
    if tag == 0x79000000 {
        Ok((None, i + 4))
    } else {
        match PaletteColorTag::spec_from_u32(tag) {
            Some(PaletteColorTag::Tcsc) => {
                if i + 8 > end {
                    Err(ReadError::Io)
                } else {
                    let len = spec_le32_at(d, i + 4);
                    if len != 4 {
                        Err(ReadError::UnknownMystery(Mystery::TcscLen(len)))
                    } else if i + 12 > end {
                        Err(ReadError::Io)
                    } else {
                        Ok(
                            (
                                Some(
                                    SpecColorData::ColorRgba(
                                        spec_u8_at(d, i + 8),
                                        spec_u8_at(d, i + 9),
                                        spec_u8_at(d, i + 10),
                                        spec_u8_at(d, i + 11),
                                    ),
                                ),
                                i + 12,
                            ),
                        )
                    }
                }
            },
            Some(PaletteColorTag::ColorId) => {
                if i + 8 > end {
                    Err(ReadError::Io)
                } else {
                    let len = spec_le32_at(d, i + 4);
                    let fe = spec_frame_end(i + 8, end, len);
                    spec_color_id_body(d, i + 8, fe)
                }
            },
            None => Err(ReadError::UnknownPaletteTag(tag)),
        }
    }
}

/// The inner frame of a `TCID` record at `i`: name length and UTF-16LE name,
/// the 64-bit id, project length and UTF-16LE project name.
pub open spec fn spec_color_id_body(d: Seq<u8>, i: int, end: int) -> Result<
    (Option<SpecColorData>, int),
    ReadError,
> {
    if i + 4 > end {
        Err(ReadError::Io)
    } else {
        let nlen = spec_le32_at(d, i);
        if i + 4 + 2 * nlen > end {
            Err(ReadError::Io)
        } else {
            match utf16_decode(spec_le16_seq(d, i + 4, nlen as int)) {
                None => Err(ReadError::Utf16Error(ErrorLocation::PaletteColorName)),
                Some(name) => {
                    let j = i + 4 + 2 * nlen;
                    if j + 8 > end {
                        Err(ReadError::Io)
                    } else {
                        let id = spec_le64_at(d, j);
                        if j + 12 > end {
                            Err(ReadError::Io)
                        } else {
                            let plen = spec_le32_at(d, j + 8);
                            if j + 12 + 2 * plen > end {
                                Err(ReadError::Io)
                            } else {
                                match utf16_decode(spec_le16_seq(d, j + 12, plen as int)) {
                                    None => Err(
                                        ReadError::Utf16Error(ErrorLocation::PaletteColorProject),
                                    ),
                                    Some(project) => Ok(
                                        (
                                            Some(SpecColorData::ColorId { id, name, project }),
                                            j + 12 + 2 * plen,
                                        ),
                                    ),
                                }
                            }
                        }
                    }
                },
            }
        }
    }
}

/// The run of records inside a color from `i` on, up to the end tag or the
/// clean end of the window.
pub open spec fn spec_color_tags(d: Seq<u8>, i: int, end: int) -> Result<
    (Seq<SpecColorData>, int),
    ReadError,
>
    decreases end - i,
{
    if i >= end {
        Ok((Seq::empty(), i))
    } else if i + 4 > end {
        Err(ReadError::Io)
    } else {
        match spec_color_tag(d, i, end) {
            Err(e) => Err(e),
            Ok((None, j)) => Ok((Seq::empty(), j)),
            Ok((Some(t), j)) => {
                if i < j <= end {
                    match spec_color_tags(d, j, end) {
                        Err(e) => Err(e),
                        Ok((rest, k)) => Ok((seq![t] + rest, k)),
                    }
                } else {
                    // a record always moves forward inside the window
                    Err(ReadError::Io)
                }
            },
        }
    }
}

/// One color at `i`: the zero header word, then its records.
pub open spec fn spec_color(d: Seq<u8>, i: int, end: int) -> Result<
    (Seq<SpecColorData>, int),
    ReadError,
> {
    if i + 2 > end {
        Err(ReadError::Io)
    } else {
        let h = spec_le16_at(d, i);
        if h != 0 {
            Err(ReadError::UnknownMystery(Mystery::PaletteColorHeader(h)))
        } else {
            spec_color_tags(d, i + 2, end)
        }
    }
}

/// `n` colors from `i` on.
pub open spec fn spec_colors(d: Seq<u8>, i: int, end: int, n: nat) -> Result<
    (Seq<Seq<SpecColorData>>, int),
    ReadError,
>
    decreases n,
{
    if n == 0 {
        Ok((Seq::empty(), i))
    } else {
        match spec_color(d, i, end) {
            Err(e) => Err(e),
            Ok((col, j)) => match spec_colors(d, j, end, (n - 1) as nat) {
                Err(e) => Err(e),
                Ok((rest, k)) => Ok((seq![col] + rest, k)),
            },
        }
    }
}

/// What a materialized palette buffer decodes to: the color count, the `0x79`
/// start word, then the colors. Bytes after the last color carry no value.
pub open spec fn spec_palette_body(b: Seq<u8>) -> Result<Seq<Seq<SpecColorData>>, ReadError> {
    let end = b.len() as int;
    if 8 > end {
        Err(ReadError::Io)
    } else {
        let count = spec_le32_at(b, 0);
        let first = spec_le32_at(b, 4);
        if first != 0x79 {
            Err(ReadError::UnknownMystery(Mystery::PaletteStart(first)))
        } else {
            match spec_colors(b, 8, end, count as nat) {
                Err(e) => Err(e),
                Ok((cs, _)) => Ok(cs),
            }
        }
    }
}

/// What a `TPAL` payload at `i` decodes to: an encoded-data chunk whose
/// buffer holds the palette body.
#[verifier::opaque]
pub open spec fn spec_read_palette(d: Seq<u8>, i: int, end: int) -> Result<
    (Seq<Seq<SpecColorData>>, int),
    ReadError,
> {
    match spec_read_encoded(d, i, end) {
        Err(e) => Err(e),
        Ok((buf, j)) => match spec_palette_body(buf) {
            Err(e) => Err(e),
            Ok(cs) => Ok((cs, j)),
        },
    }
}

/// Read one color: the zero header word, then records up to the end tag or
/// the clean end of the window.
fn read_color(buf: &Vec<u8>, c: &mut EofReader) -> (r: Result<PaletteColor, ReadError>)
    requires
        old(c).wf(buf@),
    ensures
        final(c).wf(buf@),
        final(c).end <= old(c).end,
        match r {
            Ok(v) => final(c).end == old(c).end && old(c).pos <= final(c).pos && spec_color(
                buf@,
                old(c).pos as int,
                old(c).end as int,
            ) == Ok::<_, ReadError>((v@, final(c).pos as int)),
            Err(e) => spec_color(buf@, old(c).pos as int, old(c).end as int) == Err::<
                (Seq<SpecColorData>, int),
                _,
            >(e),
        },
{
    let h = read_le_u16(buf, c)?;
    if h != 0 {
        return Err(ReadError::UnknownMystery(Mystery::PaletteColorHeader(h)));
    }
    let ghost base = c.pos as int;
    let ghost end = c.end as int;
    let mut tags: Vec<ColorData> = Vec::new();
    loop
        invariant
            c.wf(buf@),
            c.end == old(c).end,
            base <= c.pos,
            spec_color_tags(buf@, base, end) == (match spec_color_tags(
                buf@,
                c.pos as int,
                end,
            ) {
                Err(e) => Err::<(Seq<SpecColorData>, int), ReadError>(e),
                Ok((rest, k)) => Ok((tags@.map_values(|t: ColorData| t@) + rest, k)),
            }),
        decreases c.end - c.pos,
    {
        if c.end - c.pos == 0 {
            proof {
                assert(tags@.map_values(|t: ColorData| t@) + Seq::<SpecColorData>::empty()
                    =~= tags@.map_values(|t: ColorData| t@));
            }
            return Ok(PaletteColor { tags });
        }
        if c.end - c.pos < 4 {
            return Err(ReadError::Io);
        }
        let ghost p = c.pos as int;
        let ghost tags_before = tags@;
        let tag = read_be_u32(buf, c)?;
        if tag == 0x79000000 {
            proof {
                assert(tags@.map_values(|t: ColorData| t@) + Seq::<SpecColorData>::empty()
                    =~= tags@.map_values(|t: ColorData| t@));
            }
            return Ok(PaletteColor { tags });
        }
        match PaletteColorTag::from_u32(tag) {
            Some(PaletteColorTag::Tcsc) => {
                let len = read_le_u32(buf, c)?;
                if len != 4 {
                    return Err(ReadError::UnknownMystery(Mystery::TcscLen(len)));
                }
                let red = read_u8(buf, c)?;
                let green = read_u8(buf, c)?;
                let blue = read_u8(buf, c)?;
                let alpha = read_u8(buf, c)?;
                tags.push(ColorData::ColorRgba(red, green, blue, alpha));
                proof {
                    assert(spec_color_tag(buf@, p, end) == Ok::<_, ReadError>((
                        Some(SpecColorData::ColorRgba(red, green, blue, alpha)),
                        c.pos as int,
                    )));
                    let a = tags_before.map_values(|t: ColorData| t@);
                    let s1 = seq![tags@[tags@.len() - 1]@];
                    assert(tags@.map_values(|t: ColorData| t@) =~= a + s1);
                    let r2 = spec_color_tags(buf@, c.pos as int, end);
                    if r2 is Ok {
                        assert((a + s1) + r2->Ok_0.0 =~= a + (s1 + r2->Ok_0.0));
                    }
                }
            },
            Some(PaletteColorTag::ColorId) => {
                let len = read_le_u32(buf, c)?;
                let saved = begin_frame(c, len);
                let nlen = read_le_u32(buf, c)?;
                let name_units = read_le16_units(buf, c, nlen as usize)?;
                let name = match string_from_utf16(&name_units) {
                    Some(s) => s,
                    None => {
                        return Err(ReadError::Utf16Error(ErrorLocation::PaletteColorName));
                    },
                };
                let id = read_le_u64(buf, c)?;
                let plen = read_le_u32(buf, c)?;
                let proj_units = read_le16_units(buf, c, plen as usize)?;
                let project = match string_from_utf16(&proj_units) {
                    Some(s) => s,
                    None => {
                        return Err(ReadError::Utf16Error(ErrorLocation::PaletteColorProject));
                    },
                };
                end_frame(c, saved);
                tags.push(ColorData::ColorId { id, name, project });
                proof {
                    assert(spec_color_tag(buf@, p, end) == Ok::<_, ReadError>((
                        Some(tags@[tags@.len() - 1]@),
                        c.pos as int,
                    )));
                    let a = tags_before.map_values(|t: ColorData| t@);
                    let s1 = seq![tags@[tags@.len() - 1]@];
                    assert(tags@.map_values(|t: ColorData| t@) =~= a + s1);
                    let r2 = spec_color_tags(buf@, c.pos as int, end);
                    if r2 is Ok {
                        assert((a + s1) + r2->Ok_0.0 =~= a + (s1 + r2->Ok_0.0));
                    }
                }
            },
            None => {
                return Err(ReadError::UnknownPaletteTag(tag));
            },
        }
    }
}

/// Read a `TPAL` payload: an encoded-data chunk holding the palette body.
pub fn read_palette_data(data: &Vec<u8>, c: &mut EofReader) -> (r: Result<PaletteData, ReadError>)
    requires
        old(c).wf(data@),
    ensures
        final(c).wf(data@),
        final(c).end == old(c).end,
        match r {
            Ok(v) => old(c).pos < final(c).pos && spec_read_palette(
                data@,
                old(c).pos as int,
                old(c).end as int,
            ) == Ok::<_, ReadError>((v@, final(c).pos as int)),
            Err(e) => spec_read_palette(data@, old(c).pos as int, old(c).end as int) == Err::<
                (Seq<Seq<SpecColorData>>, int),
                _,
            >(e),
        },
{
    proof {
        reveal(spec_read_palette);
    }
    let buf = read_encoded_data(data, c)?;
    let mut bc = EofReader::new(&buf);
    let count = read_le_u32(&buf, &mut bc)?;
    let first = read_le_u32(&buf, &mut bc)?;
    if first != 0x79 {
        return Err(ReadError::UnknownMystery(Mystery::PaletteStart(first)));
    }
    let ghost bend = buf@.len() as int;
    let mut colors: Vec<PaletteColor> = Vec::new();
    let mut k: u32 = 0;
    while k < count
        invariant
            bc.wf(buf@),
            bc.end == buf@.len(),
            k <= count,
            spec_colors(buf@, 8, bend, count as nat) == (match spec_colors(
                buf@,
                bc.pos as int,
                bend,
                (count - k) as nat,
            ) {
                Err(e) => Err::<(Seq<Seq<SpecColorData>>, int), ReadError>(e),
                Ok((rest, j)) => Ok((colors@.map_values(|pc: PaletteColor| pc@) + rest, j)),
            }),
        decreases count - k,
    {
        let ghost colors_before = colors@;
        let col = read_color(&buf, &mut bc)?;
        colors.push(col);
        k = k + 1;
        proof {
            reveal(spec_read_palette);
            let a = colors_before.map_values(|pc: PaletteColor| pc@);
            let s1 = seq![colors@[colors@.len() - 1]@];
            assert(colors@.map_values(|pc: PaletteColor| pc@) =~= a + s1);
            let r2 = spec_colors(buf@, bc.pos as int, bend, (count - k) as nat);
            if r2 is Ok {
                assert((a + s1) + r2->Ok_0.0 =~= a + (s1 + r2->Ok_0.0));
            }
        }
    }
    proof {
        reveal(spec_read_palette);
        assert(colors@.map_values(|pc: PaletteColor| pc@) + Seq::<Seq<SpecColorData>>::empty()
            =~= colors@.map_values(|pc: PaletteColor| pc@));
    }
    Ok(PaletteData { colors })
}

} // verus!

verus! {

proof fn lemma_color_tags_end(d: Seq<u8>, i: int, end: int)
    requires
        i <= end,
        spec_color_tags(d, i, end) is Ok,
    ensures
        ({
            let j = spec_color_tags(d, i, end)->Ok_0.1;
            &&& i <= j <= end
            &&& (j == end || (i + 4 <= j && spec_be32_at(d, j - 4) == 0x79000000))
        }),
    decreases end - i,
{
    if i >= end {
    } else {
        match spec_color_tag(d, i, end) {
            Err(e) => {},
            Ok((None, j)) => {},
            Ok((Some(t), j)) => {
                if i < j <= end {
                    lemma_color_tags_end(d, j, end);
                }
            },
        }
    }
}

/// Palette color framing: every color that decodes opens with a zero header
/// word, and its record list ends at the end of the window or right after
/// the `0x79000000` end tag.
pub proof fn lemma_color_framing(d: Seq<u8>, i: int, end: int)
    requires
        i <= end,
        spec_color(d, i, end) is Ok,
    ensures
        i + 2 <= end,
        spec_le16_at(d, i) == 0,
        ({
            let j = spec_color(d, i, end)->Ok_0.1;
            &&& i + 2 <= j <= end
            &&& (j == end || (i + 6 <= j && spec_be32_at(d, j - 4) == 0x79000000))
        }),
{
    lemma_color_tags_end(d, i + 2, end);
}

/// Palette framing: every buffer that decodes as a palette opens with the
/// color count and the `0x79` start word, and its first color, where one
/// exists, opens with a zero header word.
pub proof fn lemma_palette_framing(b: Seq<u8>)
    requires
        spec_palette_body(b) is Ok,
    ensures
        b.len() >= 8,
        spec_le32_at(b, 4) == 0x79,
        spec_le32_at(b, 0) > 0 ==> b.len() >= 10 && spec_le16_at(b, 8) == 0,
{
    let end = b.len() as int;
    let count = spec_le32_at(b, 0);
    if count > 0 {
        assert(spec_color(b, 8, end) is Ok);
        lemma_color_framing(b, 8, end);
    }
}

} // verus!
