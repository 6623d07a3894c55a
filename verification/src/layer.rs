//! Vector art layers: shapes, shape components, and Bézier paths.
//!
//! A layer payload is an encoded-data chunk. Its buffer opens with a layer
//! kind word: zero for an empty layer, `0x0100` for a vector layer holding a
//! shape list and a thirteen-byte closing sentinel. Every shape is a `TGLY`
//! frame with a type word and a list of `TGVS` component frames; inside a
//! component, `TGSD` carries metadata, `TGBP` a bit-packed Bézier path,
//! `tGTB` stroke thickness and `tGTI` an opaque blob.

use vstd::prelude::*;
use crate::pencil::{SpecStrokeThickness, StrokeThickness, read_tgtb, spec_read_tgtb};
use crate::prim::{
    EofReader, begin_frame, end_frame, read_be_u32, read_bytes, read_le_u16, read_le_u32,
    read_le_u64, read_u8, skip_bytes, spec_be32_at, spec_frame_end, spec_le16_at, spec_le32_at,
    spec_le64_at, spec_u8_at,
};
use crate::quant::{TbQuant, decode, spec_decode};
use crate::read::{Mystery, ReadError};
use crate::util::{Bytes, read_encoded_data, spec_read_encoded};

verus! {

/// The type word of a vector shape.
#[derive(Debug, Clone, Copy, PartialEq, Eq, Structural)]
pub enum ShapeType {
    Unknown0,
    Unknown1,
    Fill,
    Stroke,
    Line,
    Unknown7,
}

impl ShapeType {
    /// The shape type named by a type word, if any.
    pub open spec fn spec_from_u16(v: u16) -> Option<ShapeType> {
        if v == 0 {
            Some(ShapeType::Unknown0)
        } else if v == 1 {
            Some(ShapeType::Unknown1)
        } else if v == 2 {
            Some(ShapeType::Fill)
        } else if v == 3 {
            Some(ShapeType::Stroke)
        } else if v == 6 {
            Some(ShapeType::Line)
        } else if v == 7 {
            Some(ShapeType::Unknown7)
        } else {
            None
        }
    }

    /// The shape type named by a type word, if any.
    pub fn from_u16(v: u16) -> (r: Option<ShapeType>)
        ensures
            r == Self::spec_from_u16(v),
    {
        if v == 0 {
            Some(ShapeType::Unknown0)
        } else if v == 1 {
            Some(ShapeType::Unknown1)
        } else if v == 2 {
            Some(ShapeType::Fill)
        } else if v == 3 {
            Some(ShapeType::Stroke)
        } else if v == 6 {
            Some(ShapeType::Line)
        } else if v == 7 {
            Some(ShapeType::Unknown7)
        } else {
            None
        }
    }

    /// The type word of this shape type.
    pub fn to_u16(self) -> (r: u16)
        ensures
            Self::spec_from_u16(r) == Some(self),
    {
        match self {
            ShapeType::Unknown0 => 0,
            ShapeType::Unknown1 => 1,
            ShapeType::Fill => 2,
            ShapeType::Stroke => 3,
            ShapeType::Line => 6,
            ShapeType::Unknown7 => 7,
        }
    }
}

/// The records a shape component is made of.
#[derive(Debug, Clone, Copy, PartialEq, Eq, Structural)]
pub enum ShapeComponentTag {
    /// `TGSD`: component metadata.
    Tgsd,
    /// `TGBP`: a Bézier path.
    Tgbp,
    /// `tGTB`: stroke thickness.
    Tgtb,
    /// `tGTI`: opaque pencil metadata.
    Tgti,
}

impl ShapeComponentTag {
    /// The record named by a big-endian tag word, if any.
    pub open spec fn spec_from_u32(tag: u32) -> Option<ShapeComponentTag> {
        if tag == 0x54475344 {
            Some(ShapeComponentTag::Tgsd)
        } else if tag == 0x54474250 {
            Some(ShapeComponentTag::Tgbp)
        } else if tag == 0x74475442 {
            Some(ShapeComponentTag::Tgtb)
        } else if tag == 0x74475449 {
            Some(ShapeComponentTag::Tgti)
        } else {
            None
        }
    }

    /// The record named by a big-endian tag word, if any.
    pub fn from_u32(tag: u32) -> (r: Option<ShapeComponentTag>)
        ensures
            r == Self::spec_from_u32(tag),
    {
        if tag == 0x54475344 {
            Some(ShapeComponentTag::Tgsd)
        } else if tag == 0x54474250 {
            Some(ShapeComponentTag::Tgbp)
        } else if tag == 0x74475442 {
            Some(ShapeComponentTag::Tgtb)
        } else if tag == 0x74475449 {
            Some(ShapeComponentTag::Tgti)
        } else {
            None
        }
    }
}

/// The type byte of a shape component.
#[derive(Debug, Clone, Copy, PartialEq, Eq, Structural)]
pub enum ComponentType {
    Fill,
    Unknown1,
    Stroke,
    Pencil,
}

impl ComponentType {
    /// The component type named by a type byte, if any.
    pub open spec fn spec_from_u8(v: u8) -> Option<ComponentType> {
        if v == 0 {
            Some(ComponentType::Fill)
        } else if v == 1 {
            Some(ComponentType::Unknown1)
        } else if v == 2 {
            Some(ComponentType::Stroke)
        } else if v == 4 {
            Some(ComponentType::Pencil)
        } else {
            None
        }
    }

    /// The component type named by a type byte, if any.
    pub fn from_u8(v: u8) -> (r: Option<ComponentType>)
        ensures
            r == Self::spec_from_u8(v),
    {
        if v == 0 {
            Some(ComponentType::Fill)
        } else if v == 1 {
            Some(ComponentType::Unknown1)
        } else if v == 2 {
            Some(ComponentType::Stroke)
        } else if v == 4 {
            Some(ComponentType::Pencil)
        } else {
            None
        }
    }
}

/// The metadata of a shape component: its type and, for fills with the color
/// flag set and for pencils, the 64-bit palette color id.
#[derive(Debug, Clone, Copy, PartialEq, Eq)]
pub struct ComponentInfo {
    pub ty: ComponentType,
    pub color_id: Option<u64>,
}

/// A path coordinate pair in the fixed-point format.
#[derive(Debug, Clone, Copy, PartialEq, Eq, Structural)]
pub struct Point {
    pub x: TbQuant,
    pub y: TbQuant,
}

/// One path segment: a line consumes one point, a cubic Bézier three.
#[derive(Debug, Clone, Copy, PartialEq, Eq)]
pub enum PathSegment {
    Line(Point),
    Cubic(Point, Point, Point),
}

/// A decoded Bézier path: its segments in stream order.
#[derive(Debug, Clone, PartialEq, Eq)]
pub struct Path {
    pub segments: Vec<PathSegment>,
}

impl View for Path {
    type V = Seq<PathSegment>;

    open spec fn view(&self) -> Seq<PathSegment> {
        self.segments@
    }
}

/// One record of a shape component.
#[derive(Debug, Clone, PartialEq, Eq)]
pub enum ShapeComponentData {
    Info(ComponentInfo),
    Path(Path),
    Thickness(StrokeThickness),
    Tgti(Bytes),
}

/// The mathematical model of a [`ShapeComponentData`] record.
pub enum SpecShapeComponentData {
    Info(ComponentInfo),
    Path(Seq<PathSegment>),
    Thickness(SpecStrokeThickness),
    Tgti(Seq<u8>),
}

impl View for ShapeComponentData {
    type V = SpecShapeComponentData;

    open spec fn view(&self) -> SpecShapeComponentData {
        match self {
            ShapeComponentData::Info(i) => SpecShapeComponentData::Info(*i),
            ShapeComponentData::Path(p) => SpecShapeComponentData::Path(p@),
            ShapeComponentData::Thickness(t) => SpecShapeComponentData::Thickness(t@),
            ShapeComponentData::Tgti(b) => SpecShapeComponentData::Tgti(b@),
        }
    }
}

/// One shape component: its records in file order. A well-formed component
/// opens with an `Info` record.
#[derive(Debug, Clone, PartialEq, Eq)]
pub struct ShapeComponent {
    pub tags: Vec<ShapeComponentData>,
}

impl View for ShapeComponent {
    type V = Seq<SpecShapeComponentData>;

    open spec fn view(&self) -> Seq<SpecShapeComponentData> {
        self.tags@.map_values(|t: ShapeComponentData| t@)
    }
}

/// One vector shape: its type and its components in file order.
#[derive(Debug, Clone, PartialEq, Eq)]
pub struct VectorShape {
    pub ty: ShapeType,
    pub components: Vec<ShapeComponent>,
}

/// The mathematical model of a [`VectorShape`].
pub struct SpecVectorShape {
    pub ty: ShapeType,
    pub components: Seq<Seq<SpecShapeComponentData>>,
}

impl View for VectorShape {
    type V = SpecVectorShape;

    open spec fn view(&self) -> SpecVectorShape {
        SpecVectorShape {
            ty: self.ty,
            components: self.components@.map_values(|sc: ShapeComponent| sc@),
        }
    }
}

/// The contents of one art layer.
#[derive(Debug, Clone, PartialEq, Eq)]
pub enum LayerData {
    Empty,
    Vector(Vec<VectorShape>),
}

/// The mathematical model of a [`LayerData`].
pub enum SpecLayerData {
    Empty,
    Vector(Seq<SpecVectorShape>),
}

impl View for LayerData {
    type V = SpecLayerData;

    open spec fn view(&self) -> SpecLayerData {
        match self {
            LayerData::Empty => SpecLayerData::Empty,
            LayerData::Vector(shapes) => SpecLayerData::Vector(
                shapes@.map_values(|s: VectorShape| s@),
            ),
        }
    }
}

/// The kind of one path segment opcode.
#[derive(Debug, Clone, Copy, PartialEq, Eq, Structural)]
pub enum PathSegmentType {
    Line,
    Cubic,
}

/// How many points a segment of this kind consumes.
pub open spec fn spec_segment_points(k: PathSegmentType) -> int {
    match k {
        PathSegmentType::Line => 1,
        PathSegmentType::Cubic => 3,
    }
}

/// The bit stream held in `d[s..e]`: bits are taken least significant first
/// within each byte, bytes in source order.
pub open spec fn spec_bitstream(d: Seq<u8>, s: int, e: int) -> Seq<bool>
    recommends
        0 <= s <= e <= d.len(),
{
    Seq::new(((e - s) * 8) as nat, |k: int| (spec_u8_at(d, s + k / 8) >> ((k % 8) as u8)) & 1 == 1)
}

/// Decode segment opcodes from bit `i` on, with `zeros` zero bits already
/// seen, until `budget` points are consumed: a one bit after no zeros is a
/// line, after two zeros a cubic; any other run is fatal, as is a cubic
/// where fewer than three points remain. Zero runs count saturating.
pub open spec fn spec_decode_ops(bits: Seq<bool>, i: int, zeros: u32, budget: int) -> Result<
    (Seq<PathSegmentType>, int),
    ReadError,
>
    decreases bits.len() - i,
{
    if budget <= 0 {
        Ok((Seq::empty(), i))
    } else if i < 0 || i >= bits.len() {
        Err(ReadError::Io)
    } else if bits[i] {
        if zeros == 0 {
            match spec_decode_ops(bits, i + 1, 0, budget - 1) {
                Err(e) => Err(e),
                Ok((rest, m)) => Ok((seq![PathSegmentType::Line] + rest, m)),
            }
        } else if zeros == 2 {
            if budget >= 3 {
                match spec_decode_ops(bits, i + 1, 0, budget - 3) {
                    Err(e) => Err(e),
                    Ok((rest, m)) => Ok((seq![PathSegmentType::Cubic] + rest, m)),
                }
            } else {
                Err(ReadError::UnknownMystery(Mystery::CurveOvershoot))
            }
        } else {
            Err(ReadError::UnknownMystery(Mystery::CurveRun(zeros)))
        }
    } else {
        spec_decode_ops(
            bits,
            i + 1,
            if zeros < 0xFFFF_FFFF {
                (zeros + 1) as u32
            } else {
                zeros
            },
            budget,
        )
    }
}

/// The coordinate pair at `i`: two fixed-point words, little-endian.
pub open spec fn spec_point_at(d: Seq<u8>, i: int) -> Point {
    Point { x: spec_decode(spec_le32_at(d, i)), y: spec_decode(spec_le32_at(d, i + 4)) }
}

/// The point data of the given segment kinds from `i` on: one coordinate
/// pair per line, three per cubic.
pub open spec fn spec_read_segments(d: Seq<u8>, i: int, end: int, kinds: Seq<PathSegmentType>)
    -> Result<(Seq<PathSegment>, int), ReadError>
    decreases kinds.len(),
{
    if kinds.len() == 0 {
        Ok((Seq::empty(), i))
    } else {
        match kinds[0] {
            PathSegmentType::Line => {
                if i + 8 > end {
                    Err(ReadError::Io)
                } else {
                    match spec_read_segments(d, i + 8, end, kinds.subrange(1, kinds.len() as int)) {
                        Err(e) => Err(e),
                        Ok((rest, j)) => Ok(
                            (seq![PathSegment::Line(spec_point_at(d, i))] + rest, j),
                        ),
                    }
                }
            },
            PathSegmentType::Cubic => {
                if i + 24 > end {
                    Err(ReadError::Io)
                } else {
                    match spec_read_segments(
                        d,
                        i + 24,
                        end,
                        kinds.subrange(1, kinds.len() as int),
                    ) {
                        Err(e) => Err(e),
                        Ok((rest, j)) => Ok(
                            (
                                seq![
                                    PathSegment::Cubic(
                                        spec_point_at(d, i),
                                        spec_point_at(d, i + 8),
                                        spec_point_at(d, i + 16),
                                    )
                                ] + rest,
                                j,
                            ),
                        ),
                    }
                }
            },
        }
    }
}

/// The body of a `TGBP` frame at `i`: the declared point count, the minimal
/// prefix of bytes whose bit stream encodes that many points of opcodes, then
/// the point data from the next byte boundary on.
pub open spec fn spec_read_path_body(d: Seq<u8>, i: int, end: int) -> Result<
    (Seq<PathSegment>, int),
    ReadError,
> {
    if i + 4 > end {
        Err(ReadError::Io)
    } else {
        let pc = spec_le32_at(d, i);
        match spec_decode_ops(spec_bitstream(d, i + 4, end), 0, 0, pc as int) {
            Err(e) => Err(e),
            Ok((kinds, nbits)) => spec_read_segments(d, i + 4 + (nbits + 7) / 8, end, kinds),
        }
    }
}

/// The inner view of a `TGSD` frame in `[i, fe)` with declared length `len`:
/// the component type byte, then the type's own fields. Remaining bytes of
/// the view carry no value.
pub open spec fn spec_tgsd_inner(d: Seq<u8>, i: int, fe: int, len: u32) -> Result<
    ComponentInfo,
    ReadError,
> {
    if i + 1 > fe {
        Err(ReadError::Io)
    } else {
        let tyb = spec_u8_at(d, i);
        match ComponentType::spec_from_u8(tyb) {
            None => Err(ReadError::UnknownComponentType(tyb)),
            Some(ComponentType::Fill) => {
                if i + 2 > fe {
                    Err(ReadError::Io)
                } else {
                    let flag = spec_u8_at(d, i + 1);
                    if flag == 0 {
                        Ok(ComponentInfo { ty: ComponentType::Fill, color_id: None })
                    } else if flag == 1 {
                        // the color id sits 24 bytes before the end of the
                        // declared length; a shorter declaration skips nothing
                        let skip: int = if len >= 26 {
                            len - 26
                        } else {
                            0
                        };
                        if i + 2 + skip + 8 > fe {
                            Err(ReadError::Io)
                        } else {
                            Ok(
                                ComponentInfo {
                                    ty: ComponentType::Fill,
                                    color_id: Some(spec_le64_at(d, i + 2 + skip)),
                                },
                            )
                        }
                    } else {
                        Err(ReadError::UnknownMystery(Mystery::TgsdFillFlag(flag)))
                    }
                }
            },
            Some(ComponentType::Unknown1) => Ok(
                ComponentInfo { ty: ComponentType::Unknown1, color_id: None },
            ),
            Some(ComponentType::Stroke) => Ok(
                ComponentInfo { ty: ComponentType::Stroke, color_id: None },
            ),
            Some(ComponentType::Pencil) => {
                // a discarded word, then the color id
                if i + 5 > fe {
                    Err(ReadError::Io)
                } else if i + 13 > fe {
                    Err(ReadError::Io)
                } else {
                    Ok(
                        ComponentInfo {
                            ty: ComponentType::Pencil,
                            color_id: Some(spec_le64_at(d, i + 5)),
                        },
                    )
                }
            },
        }
    }
}

/// A whole `TGSD` record at `i`: the frame length, the inner view, then the
/// continuation byte outside the inner view: `1` keeps reading records, `0`
/// consumes an opaque trailer word and ends the component.
pub open spec fn spec_tgsd(d: Seq<u8>, i: int, end: int) -> Result<
    ((ComponentInfo, bool), int),
    ReadError,
> {
    if i + 4 > end {
        Err(ReadError::Io)
    } else {
        let len = spec_le32_at(d, i);
        let fe = spec_frame_end(i + 4, end, len);
        match spec_tgsd_inner(d, i + 4, fe, len) {
            Err(e) => Err(e),
            Ok(info) => {
                if fe + 1 > end {
                    Err(ReadError::Io)
                } else {
                    let cont = spec_u8_at(d, fe);
                    if cont == 1 {
                        Ok(((info, false), fe + 1))
                    } else if cont == 0 {
                        if fe + 5 > end {
                            Err(ReadError::Io)
                        } else {
                            Ok(((info, true), fe + 5))
                        }
                    } else {
                        Err(ReadError::UnknownMystery(Mystery::TgsdContinuation(cont)))
                    }
                }
            },
        }
    }
}

/// The records of one component from `i` on, up to the clean end of the
/// window or a `TGSD` stop.
pub open spec fn spec_component_tags(d: Seq<u8>, i: int, end: int) -> Result<
    (Seq<SpecShapeComponentData>, int),
    ReadError,
>
    decreases end - i,
{
    if i >= end {
        Ok((Seq::empty(), i))
    } else if i + 4 > end {
        Err(ReadError::Io)
    } else {
        let tag = spec_be32_at(d, i);
        match ShapeComponentTag::spec_from_u32(tag) {
            None => Err(ReadError::UnknownComponentTag(tag)),
            Some(ShapeComponentTag::Tgsd) => match spec_tgsd(d, i + 4, end) {
                Err(e) => Err(e),
                Ok(((info, stop), j)) => {
                    if stop {
                        Ok((seq![SpecShapeComponentData::Info(info)], j))
                    } else if i < j <= end {
                        match spec_component_tags(d, j, end) {
                            Err(e) => Err(e),
                            Ok((rest, k)) => Ok(
                                (seq![SpecShapeComponentData::Info(info)] + rest, k),
                            ),
                        }
                    } else {
                        // a record always moves forward inside the window
                        Err(ReadError::Io)
                    }
                },
            },
            Some(ShapeComponentTag::Tgbp) => {
                if i + 8 > end {
                    Err(ReadError::Io)
                } else {
                    let len = spec_le32_at(d, i + 4);
                    match spec_read_path_body(d, i + 8, spec_frame_end(i + 8, end, len)) {
                        Err(e) => Err(e),
                        Ok((segs, j)) => {
                            if i < j <= end {
                                match spec_component_tags(d, j, end) {
                                    Err(e) => Err(e),
                                    Ok((rest, k)) => Ok(
                                        (seq![SpecShapeComponentData::Path(segs)] + rest, k),
                                    ),
                                }
                            } else {
                                Err(ReadError::Io)
                            }
                        },
                    }
                }
            },
            Some(ShapeComponentTag::Tgtb) => match spec_read_tgtb(d, i + 4, end) {
                Err(e) => Err(e),
                Ok((st, j)) => {
                    if i < j <= end {
                        match spec_component_tags(d, j, end) {
                            Err(e) => Err(e),
                            Ok((rest, k)) => Ok(
                                (seq![SpecShapeComponentData::Thickness(st)] + rest, k),
                            ),
                        }
                    } else {
                        Err(ReadError::Io)
                    }
                },
            },
            Some(ShapeComponentTag::Tgti) => {
                if i + 8 > end {
                    Err(ReadError::Io)
                } else {
                    let len = spec_le32_at(d, i + 4);
                    let fe = spec_frame_end(i + 8, end, len);
                    match spec_component_tags(d, fe, end) {
                        Err(e) => Err(e),
                        Ok((rest, k)) => Ok(
                            (seq![SpecShapeComponentData::Tgti(d.subrange(i + 8, fe))] + rest, k),
                        ),
                    }
                }
            },
        }
    }
}

/// One shape component at `i`: a `TGVS` tag and frame length, then the
/// component's records inside that frame. The position after the component is
/// where its records ended.
pub open spec fn spec_component(d: Seq<u8>, i: int, end: int) -> Result<
    (Seq<SpecShapeComponentData>, int),
    ReadError,
> {
    if i + 4 > end {
        Err(ReadError::Io)
    } else {
        let tag = spec_be32_at(d, i);
        if tag != 0x54475653 {
            Err(ReadError::UnknownMystery(Mystery::ComponentFrameTag(tag)))
        } else if i + 8 > end {
            Err(ReadError::Io)
        } else {
            let len = spec_le32_at(d, i + 4);
            spec_component_tags(d, i + 8, spec_frame_end(i + 8, end, len))
        }
    }
}

/// `n` shape components from `i` on.
pub open spec fn spec_components(d: Seq<u8>, i: int, end: int, n: nat) -> Result<
    (Seq<Seq<SpecShapeComponentData>>, int),
    ReadError,
>
    decreases n,
{
    if n == 0 {
        Ok((Seq::empty(), i))
    } else {
        match spec_component(d, i, end) {
            Err(e) => Err(e),
            Ok((comp, j)) => match spec_components(d, j, end, (n - 1) as nat) {
                Err(e) => Err(e),
                Ok((rest, k)) => Ok((seq![comp] + rest, k)),
            },
        }
    }
}

/// One vector shape at `i`: the shape word `2`, the `TGLY` tag, the frame
/// length, and inside the frame the type word, the component count and the
/// components. The position after the shape is where its components ended.
pub open spec fn spec_shape(d: Seq<u8>, i: int, end: int) -> Result<
    (SpecVectorShape, int),
    ReadError,
> {
    if i + 4 > end {
        Err(ReadError::Io)
    } else {
        let magic = spec_le32_at(d, i);
        if magic != 2 {
            Err(ReadError::UnknownMystery(Mystery::ShapeMagic(magic)))
        } else if i + 8 > end {
            Err(ReadError::Io)
        } else {
            let tag = spec_be32_at(d, i + 4);
            if tag != 0x54474C59 {
                Err(ReadError::UnknownLayerTag(tag))
            } else if i + 12 > end {
                Err(ReadError::Io)
            } else {
                let len = spec_le32_at(d, i + 8);
                let fe = spec_frame_end(i + 12, end, len);
                if i + 14 > fe {
                    Err(ReadError::Io)
                } else {
                    let tyw = spec_le16_at(d, i + 12);
                    match ShapeType::spec_from_u16(tyw) {
                        None => Err(ReadError::UnknownShapeType(tyw)),
                        Some(ty) => {
                            if i + 18 > fe {
                                Err(ReadError::Io)
                            } else {
                                let cc = spec_le32_at(d, i + 14);
                                match spec_components(d, i + 18, fe, cc as nat) {
                                    Err(e) => Err(e),
                                    Ok((comps, j)) => Ok(
                                        (SpecVectorShape { ty, components: comps }, j),
                                    ),
                                }
                            }
                        },
                    }
                }
            }
        }
    }
}

/// `n` vector shapes from `i` on.
pub open spec fn spec_shapes(d: Seq<u8>, i: int, end: int, n: nat) -> Result<
    (Seq<SpecVectorShape>, int),
    ReadError,
>
    decreases n,
{
    if n == 0 {
        Ok((Seq::empty(), i))
    } else {
        match spec_shape(d, i, end) {
            Err(e) => Err(e),
            Ok((shape, j)) => match spec_shapes(d, j, end, (n - 1) as nat) {
                Err(e) => Err(e),
                Ok((rest, k)) => Ok((seq![shape] + rest, k)),
            },
        }
    }
}

/// The thirteen-byte sentinel that closes every vector layer buffer, packed
/// little-endian as a word, a half word and a byte.
pub open spec fn spec_trailer_matches(d: Seq<u8>, i: int) -> bool {
    spec_le64_at(d, i) == 0x0000_0856_5247_5400 && spec_le32_at(d, i + 8) == 0x4FDF_3D00
        && spec_u8_at(d, i + 12) == 0x8D
}

/// The thirteen sentinel bytes themselves.
pub open spec fn spec_layer_trailer() -> Seq<u8> {
    seq![0x00u8, 0x54u8, 0x47u8, 0x52u8, 0x56u8, 0x08u8, 0x00u8, 0x00u8, 0x00u8, 0x3Du8, 0xDFu8, 0x4Fu8, 0x8Du8]
}

/// What a materialized layer buffer decodes to: the layer kind word, and for
/// a vector layer the shape count, the shapes, and the closing sentinel,
/// which must end the buffer.
pub open spec fn spec_layer_body(b: Seq<u8>) -> Result<SpecLayerData, ReadError> {
    let end = b.len() as int;
    if 2 > end {
        Err(ReadError::Io)
    } else {
        let kind = spec_le16_at(b, 0);
        if kind == 0 {
            Ok(SpecLayerData::Empty)
        } else if kind == 0x0100 {
            if 6 > end {
                Err(ReadError::Io)
            } else {
                let sc = spec_le32_at(b, 2);
                match spec_shapes(b, 6, end, sc as nat) {
                    Err(e) => Err(e),
                    Ok((shapes, j)) => {
                        if j + 13 > end {
                            Err(ReadError::Io)
                        } else if !spec_trailer_matches(b, j) {
                            Err(ReadError::UnknownMystery(Mystery::LayerTrailer))
                        } else if j + 13 != end {
                            Err(ReadError::UnknownMystery(Mystery::LayerTrailer))
                        } else {
                            Ok(SpecLayerData::Vector(shapes))
                        }
                    },
                }
            }
        } else {
            Err(ReadError::UnknownMystery(Mystery::LayerKind(kind)))
        }
    }
}

/// What a layer payload at `i` decodes to: an encoded-data chunk whose buffer
/// holds the layer body.
#[verifier::opaque]
pub open spec fn spec_read_layer(d: Seq<u8>, i: int, end: int) -> Result<
    (SpecLayerData, int),
    ReadError,
> {
    match spec_read_encoded(d, i, end) {
        Err(e) => Err(e),
        Ok((buf, j)) => match spec_layer_body(buf) {
            Err(e) => Err(e),
            Ok(layer) => Ok((layer, j)),
        },
    }
}

/// Decode segment opcodes from the bit stream at the front of the window
/// until `budget` points are consumed, and advance past the bytes the bits
/// were taken from.
fn read_segment_kinds(data: &Vec<u8>, c: &mut EofReader, budget: u32) -> (r: Result<
    Vec<PathSegmentType>,
    ReadError,
>)
    requires
        old(c).wf(data@),
    ensures
        final(c).wf(data@),
        final(c).end == old(c).end,
        ({
            let res = spec_decode_ops(
                spec_bitstream(data@, old(c).pos as int, old(c).end as int),
                0,
                0,
                budget as int,
            );
            match r {
                Ok(v) => res is Ok && res->Ok_0.0 == v@ && final(c).pos == old(c).pos + (res->Ok_0.1
                    + 7) / 8 && old(c).pos <= final(c).pos,
                Err(e) => res == Err::<(Seq<PathSegmentType>, int), ReadError>(e),
            }
        }),
{
    let ghost bits = spec_bitstream(data@, old(c).pos as int, old(c).end as int);
    let mut kinds: Vec<PathSegmentType> = Vec::new();
    let mut left: u32 = budget;
    let mut zeros: u32 = 0;
    let mut bo: usize = 0;  // whole bytes the bit cursor has passed
    let mut bp: u8 = 0;  // bit position inside the current byte
    while left > 0
        invariant
            c == old(c),
            bp < 8,
            c.pos + bo <= c.end,
            bp > 0 ==> c.pos + bo < c.end,
            left <= budget,
            spec_decode_ops(bits, 0, 0, budget as int) == (match spec_decode_ops(
                bits,
                8 * bo + bp,
                zeros,
                left as int,
            ) {
                Err(e) => Err::<(Seq<PathSegmentType>, int), ReadError>(e),
                Ok((rest, m)) => Ok((kinds@ + rest, m)),
            }),
        decreases left, 8 * (c.end - c.pos) - (8 * bo + bp),
    {
        let ghost biti = 8 * bo + bp;
        proof {
            assert(biti / 8 == bo && biti % 8 == bp as int) by (nonlinear_arith)
                requires
                    biti == 8 * bo + bp,
                    0 <= bp < 8,
                    bo >= 0,
            ;
            assert(bits.len() == (c.end - c.pos) * 8);
        }
        if bo >= c.end - c.pos {
            // the bit cursor has reached the end of the window
            proof {
                assert(biti >= bits.len()) by (nonlinear_arith)
                    requires
                        biti == 8 * bo + bp,
                        bits.len() == (c.end - c.pos) * 8,
                        bo >= c.end - c.pos,
                        bp >= 0,
                ;
            }
            return Err(ReadError::Io);
        }
        proof {
            assert(biti < bits.len()) by (nonlinear_arith)
                requires
                    biti == 8 * bo + bp,
                    bits.len() == (c.end - c.pos) * 8,
                    bo < c.end - c.pos,
                    0 <= bp < 8,
                    bo >= 0,
            ;
        }
        let byte = data[c.pos + bo];
        let bit = (byte >> bp) & 1 == 1;
        proof {
            assert(bit == bits[biti]);
        }
        let ghost kinds_before = kinds@;
        if bit {
            if zeros == 0 {
                kinds.push(PathSegmentType::Line);
                left = left - 1;
            } else if zeros == 2 {
                if left >= 3 {
                    kinds.push(PathSegmentType::Cubic);
                    left = left - 3;
                    zeros = 0;
                } else {
                    return Err(ReadError::UnknownMystery(Mystery::CurveOvershoot));
                }
            } else {
                return Err(ReadError::UnknownMystery(Mystery::CurveRun(zeros)));
            }
            proof {
                let a = kinds_before;
                let s1 = seq![kinds@[kinds@.len() - 1]];
                assert(kinds@ =~= a + s1);
                let r2 = spec_decode_ops(bits, biti + 1, 0, left as int);
                if r2 is Ok {
                    assert((a + s1) + r2->Ok_0.0 =~= a + (s1 + r2->Ok_0.0));
                }
            }
        } else {
            if zeros < 0xFFFF_FFFF {
                zeros = zeros + 1;
            }
        }
        // move the bit cursor one bit on
        if bp == 7 {
            bo = bo + 1;
            bp = 0;
        } else {
            bp = bp + 1;
        }
        proof {
            assert(8 * bo + bp == biti + 1);
        }
    }
    // skip the bytes the bits were taken from; a started byte counts whole
    let consumed: usize = if bp == 0 {
        bo
    } else {
        bo + 1
    };
    proof {
        let biti = 8 * bo + bp;
        assert(consumed == (biti + 7) / 8) by (nonlinear_arith)
            requires
                biti == 8 * bo + bp,
                0 <= bp < 8,
                bo >= 0,
                consumed == (if bp == 0 {
                    bo as int
                } else {
                    bo + 1
                }),
        ;
        assert(kinds@ + Seq::<PathSegmentType>::empty() =~= kinds@);
    }
    c.pos = c.pos + consumed;
    Ok(kinds)
}

/// Read the body of a `TGBP` frame: the declared point count, the opcode bit
/// stream, then the point data.
fn read_path_body(data: &Vec<u8>, c: &mut EofReader) -> (r: Result<Path, ReadError>)
    requires
        old(c).wf(data@),
    ensures
        final(c).wf(data@),
        final(c).end == old(c).end,
        match r {
            Ok(v) => old(c).pos <= final(c).pos && spec_read_path_body(
                data@,
                old(c).pos as int,
                old(c).end as int,
            ) == Ok::<_, ReadError>((v@, final(c).pos as int)),
            Err(e) => spec_read_path_body(data@, old(c).pos as int, old(c).end as int) == Err::<
                (Seq<PathSegment>, int),
                _,
            >(e),
        },
{
    let pc = read_le_u32(data, c)?;
    let kinds = read_segment_kinds(data, c, pc)?;
    let ghost kinds_all = kinds@;
    let ghost sbase = c.pos as int;
    let ghost end = c.end as int;
    proof {
        assert(kinds_all.subrange(0, kinds_all.len() as int) =~= kinds_all);
        let r2 = spec_read_segments(data@, sbase, end, kinds_all);
        if r2 is Ok {
            assert(Seq::<PathSegment>::empty() + r2->Ok_0.0 =~= r2->Ok_0.0);
        }
    }
    let mut segments: Vec<PathSegment> = Vec::new();
    let mut k: usize = 0;
    while k < kinds.len()
        invariant
            c.wf(data@),
            c.end as int == end,
            sbase <= c.pos,
            k <= kinds.len(),
            kinds@ == kinds_all,
            spec_read_segments(data@, sbase, end, kinds_all) == (match spec_read_segments(
                data@,
                c.pos as int,
                end,
                kinds_all.subrange(k as int, kinds_all.len() as int),
            ) {
                Err(e) => Err::<(Seq<PathSegment>, int), ReadError>(e),
                Ok((rest, j)) => Ok((segments@ + rest, j)),
            }),
        decreases kinds.len() - k,
    {
        let ghost segments_before = segments@;
        let ghost sub = kinds_all.subrange(k as int, kinds_all.len() as int);
        proof {
            assert(sub[0] == kinds_all[k as int]);
            assert(sub.subrange(1, sub.len() as int) =~= kinds_all.subrange(
                k as int + 1,
                kinds_all.len() as int,
            ));
        }
        match kinds[k] {
            PathSegmentType::Line => {
                let xw = read_le_u32(data, c)?;
                let yw = read_le_u32(data, c)?;
                segments.push(
                    PathSegment::Line(Point { x: decode(xw), y: decode(yw) }),
                );
            },
            PathSegmentType::Cubic => {
                let x0 = read_le_u32(data, c)?;
                let y0 = read_le_u32(data, c)?;
                let x1 = read_le_u32(data, c)?;
                let y1 = read_le_u32(data, c)?;
                let x2 = read_le_u32(data, c)?;
                let y2 = read_le_u32(data, c)?;
                segments.push(
                    PathSegment::Cubic(
                        Point { x: decode(x0), y: decode(y0) },
                        Point { x: decode(x1), y: decode(y1) },
                        Point { x: decode(x2), y: decode(y2) },
                    ),
                );
            },
        }
        k = k + 1;
        proof {
            let a = segments_before;
            let s1 = seq![segments@[segments@.len() - 1]];
            assert(segments@ =~= a + s1);
            let r2 = spec_read_segments(
                data@,
                c.pos as int,
                end,
                kinds_all.subrange(k as int, kinds_all.len() as int),
            );
            if r2 is Ok {
                assert((a + s1) + r2->Ok_0.0 =~= a + (s1 + r2->Ok_0.0));
            }
        }
    }
    proof {
        assert(kinds_all.subrange(kinds_all.len() as int, kinds_all.len() as int)
            =~= Seq::<PathSegmentType>::empty());
        assert(segments@ + Seq::<PathSegment>::empty() =~= segments@);
    }
    Ok(Path { segments })
}

/// Read a whole `TGSD` record: the frame length, the inner view, then the
/// continuation byte. Returns the metadata and whether the component ends.
fn read_tgsd(data: &Vec<u8>, c: &mut EofReader) -> (r: Result<(ComponentInfo, bool), ReadError>)
    requires
        old(c).wf(data@),
    ensures
        final(c).wf(data@),
        final(c).end <= old(c).end,
        match r {
            Ok(v) => final(c).end == old(c).end && old(c).pos < final(c).pos && spec_tgsd(
                data@,
                old(c).pos as int,
                old(c).end as int,
            ) == Ok::<_, ReadError>((v, final(c).pos as int)),
            Err(e) => spec_tgsd(data@, old(c).pos as int, old(c).end as int) == Err::<
                ((ComponentInfo, bool), int),
                _,
            >(e),
        },
{
    let len = read_le_u32(data, c)?;
    let saved = begin_frame(c, len);
    let ghost fe = c.end as int;
    let tyb = read_u8(data, c)?;
    let info = match ComponentType::from_u8(tyb) {
        None => {
            return Err(ReadError::UnknownComponentType(tyb));
        },
        Some(ComponentType::Fill) => {
            let flag = read_u8(data, c)?;
            if flag == 0 {
                ComponentInfo { ty: ComponentType::Fill, color_id: None }
            } else if flag == 1 {
                let skip: u32 = if len >= 26 {
                    len - 26
                } else {
                    0
                };
                skip_bytes(data, c, skip as usize)?;
                let id = read_le_u64(data, c)?;
                ComponentInfo { ty: ComponentType::Fill, color_id: Some(id) }
            } else {
                return Err(ReadError::UnknownMystery(Mystery::TgsdFillFlag(flag)));
            }
        },
        Some(ComponentType::Unknown1) => ComponentInfo {
            ty: ComponentType::Unknown1,
            color_id: None,
        },
        Some(ComponentType::Stroke) => ComponentInfo { ty: ComponentType::Stroke, color_id: None },
        Some(ComponentType::Pencil) => {
            let _discarded = read_le_u32(data, c)?;
            let id = read_le_u64(data, c)?;
            ComponentInfo { ty: ComponentType::Pencil, color_id: Some(id) }
        },
    };
    // discard the rest of the inner view
    c.pos = c.end;
    end_frame(c, saved);
    let cont = read_u8(data, c)?;
    if cont == 1 {
        Ok((info, false))
    } else if cont == 0 {
        let _trailer = read_le_u32(data, c)?;
        Ok((info, true))
    } else {
        Err(ReadError::UnknownMystery(Mystery::TgsdContinuation(cont)))
    }
}

/// Read one shape component: the `TGVS` tag and frame length, then the
/// component's records inside that frame.
#[verifier::rlimit(60)]
fn read_component(data: &Vec<u8>, c: &mut EofReader) -> (r: Result<ShapeComponent, ReadError>)
    requires
        old(c).wf(data@),
    ensures
        final(c).wf(data@),
        final(c).end <= old(c).end,
        match r {
            Ok(v) => final(c).end == old(c).end && old(c).pos < final(c).pos && spec_component(
                data@,
                old(c).pos as int,
                old(c).end as int,
            ) == Ok::<_, ReadError>((v@, final(c).pos as int)),
            Err(e) => spec_component(data@, old(c).pos as int, old(c).end as int) == Err::<
                (Seq<SpecShapeComponentData>, int),
                _,
            >(e),
        },
{
    let tag = read_be_u32(data, c)?;
    if tag != 0x54475653 {
        return Err(ReadError::UnknownMystery(Mystery::ComponentFrameTag(tag)));
    }
    let len = read_le_u32(data, c)?;
    let saved = begin_frame(c, len);
    let ghost fe = c.end as int;
    let ghost base = c.pos as int;
    let mut tags: Vec<ShapeComponentData> = Vec::new();
    loop
        invariant
            c.wf(data@),
            c.end as int == fe,
            base <= c.pos,
            old(c).pos < c.pos,
            spec_component_tags(data@, base, fe) == (match spec_component_tags(
                data@,
                c.pos as int,
                fe,
            ) {
                Err(e) => Err::<(Seq<SpecShapeComponentData>, int), ReadError>(e),
                Ok((rest, k)) => Ok((tags@.map_values(|t: ShapeComponentData| t@) + rest, k)),
            }),
        decreases c.end - c.pos,
    {
        if c.end - c.pos == 0 {
            proof {
                assert(tags@.map_values(|t: ShapeComponentData| t@)
                    + Seq::<SpecShapeComponentData>::empty() =~= tags@.map_values(
                    |t: ShapeComponentData| t@,
                ));
            }
            end_frame(c, saved);
            return Ok(ShapeComponent { tags });
        }
        if c.end - c.pos < 4 {
            return Err(ReadError::Io);
        }
        let ghost p = c.pos as int;
        let ghost tags_before = tags@;
        let tag = read_be_u32(data, c)?;
        match ShapeComponentTag::from_u32(tag) {
            None => {
                return Err(ReadError::UnknownComponentTag(tag));
            },
            Some(ShapeComponentTag::Tgsd) => {
                let (info, stop) = read_tgsd(data, c)?;
                tags.push(ShapeComponentData::Info(info));
                if stop {
                    proof {
                        assert(spec_component_tags(data@, p, fe) == Ok::<_, ReadError>((
                            seq![SpecShapeComponentData::Info(info)],
                            c.pos as int,
                        )));
                        assert(tags@.map_values(|t: ShapeComponentData| t@) =~= tags_before
                            .map_values(|t: ShapeComponentData| t@) + seq![
                            SpecShapeComponentData::Info(info)]);
                    }
                    end_frame(c, saved);
                    return Ok(ShapeComponent { tags });
                }
            },
            Some(ShapeComponentTag::Tgbp) => {
                let len = read_le_u32(data, c)?;
                let inner_saved = begin_frame(c, len);
                let path = read_path_body(data, c)?;
                end_frame(c, inner_saved);
                tags.push(ShapeComponentData::Path(path));
            },
            Some(ShapeComponentTag::Tgtb) => {
                let st = read_tgtb(data, c)?;
                tags.push(ShapeComponentData::Thickness(st));
            },
            Some(ShapeComponentTag::Tgti) => {
                let len = read_le_u32(data, c)?;
                let n = if (len as usize) <= c.end - c.pos {
                    len as usize
                } else {
                    c.end - c.pos
                };
                let blob = read_bytes(data, c, n)?;
                tags.push(ShapeComponentData::Tgti(Bytes(blob)));
            },
        }
        proof {
            let a = tags_before.map_values(|t: ShapeComponentData| t@);
            let s1 = seq![tags@[tags@.len() - 1]@];
            assert(tags@.map_values(|t: ShapeComponentData| t@) =~= a + s1);
            let r2 = spec_component_tags(data@, c.pos as int, fe);
            if r2 is Ok {
                assert((a + s1) + r2->Ok_0.0 =~= a + (s1 + r2->Ok_0.0));
            }
        }
    }
}

/// Read one vector shape: the shape word, the `TGLY` tag and frame length,
/// then the type word, the component count and the components.
#[verifier::rlimit(60)]
fn read_shape(data: &Vec<u8>, c: &mut EofReader) -> (r: Result<VectorShape, ReadError>)
    requires
        old(c).wf(data@),
    ensures
        final(c).wf(data@),
        final(c).end <= old(c).end,
        match r {
            Ok(v) => final(c).end == old(c).end && old(c).pos < final(c).pos && spec_shape(
                data@,
                old(c).pos as int,
                old(c).end as int,
            ) == Ok::<_, ReadError>((v@, final(c).pos as int)),
            Err(e) => spec_shape(data@, old(c).pos as int, old(c).end as int) == Err::<
                (SpecVectorShape, int),
                _,
            >(e),
        },
{
    let magic = read_le_u32(data, c)?;
    if magic != 2 {
        return Err(ReadError::UnknownMystery(Mystery::ShapeMagic(magic)));
    }
    let tag = read_be_u32(data, c)?;
    if tag != 0x54474C59 {
        return Err(ReadError::UnknownLayerTag(tag));
    }
    let len = read_le_u32(data, c)?;
    let saved = begin_frame(c, len);
    let ghost fe = c.end as int;
    let tyw = read_le_u16(data, c)?;
    let ty = match ShapeType::from_u16(tyw) {
        None => {
            return Err(ReadError::UnknownShapeType(tyw));
        },
        Some(ty) => ty,
    };
    let cc = read_le_u32(data, c)?;
    let ghost base = c.pos as int;
    let mut components: Vec<ShapeComponent> = Vec::new();
    let mut k: u32 = 0;
    while k < cc
        invariant
            c.wf(data@),
            c.end as int == fe,
            base <= c.pos,
            old(c).pos < c.pos,
            k <= cc,
            spec_components(data@, base, fe, cc as nat) == (match spec_components(
                data@,
                c.pos as int,
                fe,
                (cc - k) as nat,
            ) {
                Err(e) => Err::<(Seq<Seq<SpecShapeComponentData>>, int), ReadError>(e),
                Ok((rest, j)) => Ok((components@.map_values(|sc: ShapeComponent| sc@) + rest, j)),
            }),
        decreases cc - k,
    {
        let ghost components_before = components@;
        let comp = read_component(data, c)?;
        components.push(comp);
        k = k + 1;
        proof {
            let a = components_before.map_values(|sc: ShapeComponent| sc@);
            let s1 = seq![components@[components@.len() - 1]@];
            assert(components@.map_values(|sc: ShapeComponent| sc@) =~= a + s1);
            let r2 = spec_components(data@, c.pos as int, fe, (cc - k) as nat);
            if r2 is Ok {
                assert((a + s1) + r2->Ok_0.0 =~= a + (s1 + r2->Ok_0.0));
            }
        }
    }
    proof {
        assert(components@.map_values(|sc: ShapeComponent| sc@)
            + Seq::<Seq<SpecShapeComponentData>>::empty() =~= components@.map_values(
            |sc: ShapeComponent| sc@,
        ));
    }
    end_frame(c, saved);
    Ok(VectorShape { ty, components })
}

/// Read a layer payload: an encoded-data chunk whose buffer holds the layer
/// kind word and, for a vector layer, the shapes and the closing sentinel.
pub fn read_layer_data(data: &Vec<u8>, c: &mut EofReader) -> (r: Result<LayerData, ReadError>)
    requires
        old(c).wf(data@),
    ensures
        final(c).wf(data@),
        final(c).end == old(c).end,
        match r {
            Ok(v) => old(c).pos < final(c).pos && spec_read_layer(
                data@,
                old(c).pos as int,
                old(c).end as int,
            ) == Ok::<_, ReadError>((v@, final(c).pos as int)),
            Err(e) => spec_read_layer(data@, old(c).pos as int, old(c).end as int) == Err::<
                (SpecLayerData, int),
                _,
            >(e),
        },
{
    proof {
        reveal(spec_read_layer);
    }
    let buf = read_encoded_data(data, c)?;
    let mut bc = EofReader::new(&buf);
    let kind = read_le_u16(&buf, &mut bc)?;
    if kind == 0 {
        return Ok(LayerData::Empty);
    }
    if kind != 0x0100 {
        return Err(ReadError::UnknownMystery(Mystery::LayerKind(kind)));
    }
    let sc = read_le_u32(&buf, &mut bc)?;
    let ghost bend = buf@.len() as int;
    let mut shapes: Vec<VectorShape> = Vec::new();
    let mut k: u32 = 0;
    while k < sc
        invariant
            bc.wf(buf@),
            bc.end == buf@.len(),
            k <= sc,
            spec_shapes(buf@, 6, bend, sc as nat) == (match spec_shapes(
                buf@,
                bc.pos as int,
                bend,
                (sc - k) as nat,
            ) {
                Err(e) => Err::<(Seq<SpecVectorShape>, int), ReadError>(e),
                Ok((rest, j)) => Ok((shapes@.map_values(|s: VectorShape| s@) + rest, j)),
            }),
        decreases sc - k,
    {
        let ghost shapes_before = shapes@;
        let shape = read_shape(&buf, &mut bc)?;
        shapes.push(shape);
        k = k + 1;
        proof {
            reveal(spec_read_layer);
            let a = shapes_before.map_values(|s: VectorShape| s@);
            let s1 = seq![shapes@[shapes@.len() - 1]@];
            assert(shapes@.map_values(|s: VectorShape| s@) =~= a + s1);
            let r2 = spec_shapes(buf@, bc.pos as int, bend, (sc - k) as nat);
            if r2 is Ok {
                assert((a + s1) + r2->Ok_0.0 =~= a + (s1 + r2->Ok_0.0));
            }
        }
    }
    proof {
        reveal(spec_read_layer);
        assert(shapes@.map_values(|s: VectorShape| s@) + Seq::<SpecVectorShape>::empty()
            =~= shapes@.map_values(|s: VectorShape| s@));
    }
    let t0 = read_le_u64(&buf, &mut bc)?;
    let t1 = read_le_u32(&buf, &mut bc)?;
    let t2 = read_u8(&buf, &mut bc)?;
    if t0 != 0x0000_0856_5247_5400 || t1 != 0x4FDF_3D00 || t2 != 0x8D {
        return Err(ReadError::UnknownMystery(Mystery::LayerTrailer));
    }
    if !bc.is_at_eof() {
        return Err(ReadError::UnknownMystery(Mystery::LayerTrailer));
    }
    Ok(LayerData::Vector(shapes))
}

} // verus!

verus! {

/// The total point budget a sequence of segment kinds consumes.
pub open spec fn spec_sum_points(kinds: Seq<PathSegmentType>) -> int
    decreases kinds.len(),
{
    if kinds.len() == 0 {
        0
    } else {
        spec_segment_points(kinds[0]) + spec_sum_points(kinds.subrange(1, kinds.len() as int))
    }
}

/// The bit encoding of a sequence of segment kinds: `1` for a line, `001`
/// for a cubic.
pub open spec fn spec_encode_ops(kinds: Seq<PathSegmentType>) -> Seq<bool>
    decreases kinds.len(),
{
    if kinds.len() == 0 {
        Seq::empty()
    } else {
        (match kinds[0] {
            PathSegmentType::Line => seq![true],
            PathSegmentType::Cubic => seq![false, false, true],
        }) + spec_encode_ops(kinds.subrange(1, kinds.len() as int))
    }
}

/// The point budget one segment consumes.
pub open spec fn spec_points_of_segment(s: PathSegment) -> int {
    match s {
        PathSegment::Line(_) => 1,
        PathSegment::Cubic(_, _, _) => 3,
    }
}

/// The total point budget a decoded path consumes.
pub open spec fn spec_path_points(segs: Seq<PathSegment>) -> int
    decreases segs.len(),
{
    if segs.len() == 0 {
        0
    } else {
        spec_points_of_segment(segs[0]) + spec_path_points(segs.subrange(1, segs.len() as int))
    }
}

proof fn lemma_decode_ops_dead(bits: Seq<bool>, i: int, zeros: u32, budget: int)
    requires
        zeros >= 3,
        budget > 0,
    ensures
        !(spec_decode_ops(bits, i, zeros, budget) is Ok),
    decreases bits.len() - i,
{
    if i < 0 || i >= bits.len() {
    } else if bits[i] {
    } else {
        lemma_decode_ops_dead(
            bits,
            i + 1,
            if zeros < 0xFFFF_FFFF {
                (zeros + 1) as u32
            } else {
                zeros
            },
            budget,
        );
    }
}

proof fn lemma_decode_ops_step(bits: Seq<bool>, i: int, budget: int)
    requires
        budget > 0,
        spec_decode_ops(bits, i, 0, budget) is Ok,
    ensures
        0 <= i < bits.len(),
        bits[i] ==> spec_decode_ops(bits, i, 0, budget) == (match spec_decode_ops(
            bits,
            i + 1,
            0,
            budget - 1,
        ) {
            Err(e) => Err::<(Seq<PathSegmentType>, int), ReadError>(e),
            Ok((rest, m)) => Ok((seq![PathSegmentType::Line] + rest, m)),
        }),
        !bits[i] ==> ({
            &&& i + 2 < bits.len()
            &&& !bits[i + 1]
            &&& bits[i + 2]
            &&& budget >= 3
            &&& spec_decode_ops(bits, i, 0, budget) == (match spec_decode_ops(
                bits,
                i + 3,
                0,
                budget - 3,
            ) {
                Err(e) => Err::<(Seq<PathSegmentType>, int), ReadError>(e),
                Ok((rest, m)) => Ok((seq![PathSegmentType::Cubic] + rest, m)),
            })
        }),
{
    reveal_with_fuel(spec_decode_ops, 4);
    if 0 <= i < bits.len() && !bits[i] {
        if i + 1 < bits.len() && !bits[i + 1] && i + 2 < bits.len() && !bits[i + 2] {
            lemma_decode_ops_dead(bits, i + 3, 3, budget);
        }
    }
}

/// Path opcode closure: a successfully decoded opcode stream consumes points
/// exactly to its budget, and re-encoding the decoded segment kinds rebuilds
/// exactly the consumed bits.
pub proof fn lemma_opcode_closure(bits: Seq<bool>, i: int, budget: int)
    requires
        0 <= i <= bits.len(),
        0 <= budget,
        spec_decode_ops(bits, i, 0, budget) is Ok,
    ensures
        ({
            let (kinds, m) = spec_decode_ops(bits, i, 0, budget)->Ok_0;
            &&& i <= m <= bits.len()
            &&& spec_sum_points(kinds) == budget
            &&& bits.subrange(i, m) == spec_encode_ops(kinds)
        }),
    decreases budget,
{
    let (kinds, m) = spec_decode_ops(bits, i, 0, budget)->Ok_0;
    if budget == 0 {
        assert(bits.subrange(i, i) =~= Seq::<bool>::empty());
    } else {
        lemma_decode_ops_step(bits, i, budget);
        if bits[i] {
            let inner = spec_decode_ops(bits, i + 1, 0, budget - 1);
            let (rest, mi) = inner->Ok_0;
            lemma_opcode_closure(bits, i + 1, budget - 1);
            assert(kinds == seq![PathSegmentType::Line] + rest);
            assert(kinds[0] == PathSegmentType::Line);
            assert(kinds.subrange(1, kinds.len() as int) =~= rest);
            assert(bits.subrange(i, m) =~= seq![true] + bits.subrange(i + 1, m));
        } else {
            let inner = spec_decode_ops(bits, i + 3, 0, budget - 3);
            let (rest, mi) = inner->Ok_0;
            lemma_opcode_closure(bits, i + 3, budget - 3);
            assert(kinds == seq![PathSegmentType::Cubic] + rest);
            assert(kinds[0] == PathSegmentType::Cubic);
            assert(kinds.subrange(1, kinds.len() as int) =~= rest);
            assert(bits.subrange(i, m) =~= seq![false, false, true] + bits.subrange(i + 3, m));
        }
    }
}

proof fn lemma_segments_points(d: Seq<u8>, i: int, end: int, kinds: Seq<PathSegmentType>)
    requires
        spec_read_segments(d, i, end, kinds) is Ok,
    ensures
        spec_path_points(spec_read_segments(d, i, end, kinds)->Ok_0.0) == spec_sum_points(kinds),
    decreases kinds.len(),
{
    let (segs, j) = spec_read_segments(d, i, end, kinds)->Ok_0;
    if kinds.len() == 0 {
    } else {
        let rest_kinds = kinds.subrange(1, kinds.len() as int);
        match kinds[0] {
            PathSegmentType::Line => {
                lemma_segments_points(d, i + 8, end, rest_kinds);
                let rest = spec_read_segments(d, i + 8, end, rest_kinds)->Ok_0.0;
                assert(segs == seq![PathSegment::Line(spec_point_at(d, i))] + rest);
                assert(segs.subrange(1, segs.len() as int) =~= rest);
            },
            PathSegmentType::Cubic => {
                lemma_segments_points(d, i + 24, end, rest_kinds);
                let rest = spec_read_segments(d, i + 24, end, rest_kinds)->Ok_0.0;
                assert(segs.subrange(1, segs.len() as int) =~= rest);
            },
        }
    }
}

/// Every decoded path consumes exactly its declared budget: the points of
/// its segments sum to the count its frame declared.
pub proof fn lemma_path_point_count(d: Seq<u8>, i: int, end: int)
    requires
        0 <= i,
        i + 4 <= end <= d.len(),
        spec_read_path_body(d, i, end) is Ok,
    ensures
        spec_path_points(spec_read_path_body(d, i, end)->Ok_0.0) == spec_le32_at(d, i),
{
    let bits = spec_bitstream(d, i + 4, end);
    let pc = spec_le32_at(d, i);
    let (kinds, nbits) = spec_decode_ops(bits, 0, 0, pc as int)->Ok_0;
    lemma_opcode_closure(bits, 0, pc as int);
    lemma_segments_points(d, i + 4 + (nbits + 7) / 8, end, kinds);
}

proof fn lemma_trailer_bytes(
    b0: u8, b1: u8, b2: u8, b3: u8, b4: u8, b5: u8, b6: u8, b7: u8, b8: u8, b9: u8, b10: u8,
    b11: u8, b12: u8,
)
    by (bit_vector)
    requires
        (b0 as u64) | (b1 as u64) << 8 | (b2 as u64) << 16 | (b3 as u64) << 24 | (b4 as u64) << 32
            | (b5 as u64) << 40 | (b6 as u64) << 48 | (b7 as u64) << 56 == 0x0000_0856_5247_5400,
        (b8 as u32) | (b9 as u32) << 8 | (b10 as u32) << 16 | (b11 as u32) << 24 == 0x4FDF_3D00,
        b12 == 0x8D,
    ensures
        b0 == 0x00 && b1 == 0x54 && b2 == 0x47 && b3 == 0x52 && b4 == 0x56 && b5 == 0x08 && b6
            == 0x00 && b7 == 0x00 && b8 == 0x00 && b9 == 0x3D && b10 == 0xDF && b11 == 0x4F && b12
            == 0x8D,
{
}

/// Layer trailer constancy: every buffer that decodes as a vector layer ends
/// with the thirteen-byte sentinel. In the other direction, changing any of
/// the final thirteen bytes away from the sentinel makes every vector-layer
/// decode of the buffer fail.
pub proof fn lemma_layer_trailer(b: Seq<u8>)
    requires
        spec_layer_body(b) matches Ok(SpecLayerData::Vector(_)),
    ensures
        b.len() >= 13,
        b.subrange(b.len() - 13, b.len() as int) == spec_layer_trailer(),
{
    let end = b.len() as int;
    let sc = spec_le32_at(b, 2);
    let r = spec_shapes(b, 6, end, sc as nat);
    let j = r->Ok_0.1;
    assert(spec_trailer_matches(b, j) && j + 13 == end);
    lemma_trailer_bytes(
        b[j], b[j + 1], b[j + 2], b[j + 3], b[j + 4], b[j + 5], b[j + 6], b[j + 7], b[j + 8],
        b[j + 9], b[j + 10], b[j + 11], b[j + 12],
    );
    assert(b.subrange(b.len() - 13, b.len() as int) =~= spec_layer_trailer());
}

} // verus!
