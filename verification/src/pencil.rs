//! Stroke thickness data: a `tGTB` record inside a shape component.
//!
//! A record either references a previously defined thickness path or defines
//! a new one as a list of points, and always ends with the domain interval
//! that applies to the current shape component. All real-valued fields are
//! IEEE-754 single-precision words; the decoder carries them as their raw
//! little-endian bit patterns and makes no numeric claim about them.

use vstd::prelude::*;
use crate::prim::{
    EofReader, begin_frame, end_frame, read_le_u32, read_le_u64, read_u8, spec_frame_end,
    spec_le32_at, spec_le64_at, spec_u8_at,
};
use crate::read::{Mystery, ReadError};

verus! {

/// The domain interval of a thickness path, `start..end` as raw IEEE-754
/// single bits.
#[derive(Debug, Clone, Copy, PartialEq, Eq, Structural)]
pub struct ThicknessDomain {
    pub start: u32,
    pub end: u32,
}

/// A point whose coordinates are raw IEEE-754 single bits.
#[derive(Debug, Clone, Copy, PartialEq, Eq, Structural)]
pub struct RawPoint {
    pub x: u32,
    pub y: u32,
}

/// One side of a stroke thickness point: the offset from the center line and
/// the two Bézier control points, all raw IEEE-754 single bits.
#[derive(Debug, Clone, Copy, PartialEq, Eq, Structural)]
pub struct StrokeThicknessSide {
    /// The offset from the center line.
    pub offset: u32,
    /// The control point in the backwards direction.
    pub ctrl_back: RawPoint,
    /// The control point in the forwards direction.
    pub ctrl_fwd: RawPoint,
}

/// One stroke thickness point: its location on the curve and its two sides.
#[derive(Debug, Clone, Copy, PartialEq, Eq, Structural)]
pub struct StrokeThicknessPoint {
    /// The location on the entire curve, a raw single in the unit interval.
    pub loc: u32,
    /// The left side, in the drawing direction.
    pub left: StrokeThicknessSide,
    /// The right side, in the drawing direction.
    pub right: StrokeThicknessSide,
}

/// A decoded `tGTB` record.
#[derive(Debug, Clone, PartialEq, Eq)]
pub struct StrokeThickness {
    /// The points of a newly defined thickness path, or `None` where the
    /// record references an existing one.
    pub definition: Option<Vec<StrokeThicknessPoint>>,
    /// The domain of the thickness path used by the current shape component.
    pub domain: ThicknessDomain,
}

/// The mathematical model of a [`StrokeThickness`].
pub struct SpecStrokeThickness {
    pub definition: Option<Seq<StrokeThicknessPoint>>,
    pub domain: ThicknessDomain,
}

impl View for StrokeThickness {
    type V = SpecStrokeThickness;

    open spec fn view(&self) -> SpecStrokeThickness {
        SpecStrokeThickness {
            definition: match self.definition {
                Some(ref v) => Some(v@),
                None => None,
            },
            domain: self.domain,
        }
    }
}

/// The five bytes at `i`, packed little-endian into a `u64`.
pub open spec fn spec_le40_at(d: Seq<u8>, i: int) -> u64 {
    (d[i] as u64) | (d[i + 1] as u64) << 8 | (d[i + 2] as u64) << 16 | (d[i + 3] as u64) << 24 | (
    d[i + 4] as u64) << 32
}

/// The domain trailer at `i`: domain start, a zero gap, domain end, a zero
/// gap. A non-zero gap is fatal.
pub open spec fn spec_tgtb_domain(d: Seq<u8>, i: int, end: int) -> Result<
    (ThicknessDomain, int),
    ReadError,
> {
    if i + 4 > end {
        Err(ReadError::Io)
    } else {
        let start = spec_le32_at(d, i);
        if i + 12 > end {
            Err(ReadError::Io)
        } else {
            let gap1 = spec_le64_at(d, i + 4);
            if gap1 != 0 {
                Err(ReadError::UnknownMystery(Mystery::TgtbGap(gap1)))
            } else if i + 16 > end {
                Err(ReadError::Io)
            } else {
                let stop = spec_le32_at(d, i + 12);
                if i + 24 > end {
                    Err(ReadError::Io)
                } else {
                    let gap2 = spec_le64_at(d, i + 16);
                    if gap2 != 0 {
                        Err(ReadError::UnknownMystery(Mystery::TgtbGap(gap2)))
                    } else {
                        Ok((ThicknessDomain { start, end: stop }, i + 24))
                    }
                }
            }
        }
    }
}

/// `n` thickness points from `i` on, eleven raw singles each: the location,
/// then offset, backward and forward control points of the left and of the
/// right side.
pub open spec fn spec_thickness_points(d: Seq<u8>, i: int, end: int, n: nat) -> Result<
    (Seq<StrokeThicknessPoint>, int),
    ReadError,
>
    decreases n,
{
    if n == 0 {
        Ok((Seq::empty(), i))
    } else if i + 44 > end {
        Err(ReadError::Io)
    } else {
        let pt = StrokeThicknessPoint {
            loc: spec_le32_at(d, i),
            left: StrokeThicknessSide {
                offset: spec_le32_at(d, i + 4),
                ctrl_back: RawPoint { x: spec_le32_at(d, i + 8), y: spec_le32_at(d, i + 12) },
                ctrl_fwd: RawPoint { x: spec_le32_at(d, i + 16), y: spec_le32_at(d, i + 20) },
            },
            right: StrokeThicknessSide {
                offset: spec_le32_at(d, i + 24),
                ctrl_back: RawPoint { x: spec_le32_at(d, i + 28), y: spec_le32_at(d, i + 32) },
                ctrl_fwd: RawPoint { x: spec_le32_at(d, i + 36), y: spec_le32_at(d, i + 40) },
            },
        };
        match spec_thickness_points(d, i + 44, end, (n - 1) as nat) {
            Err(e) => Err(e),
            Ok((rest, j)) => Ok((seq![pt] + rest, j)),
        }
    }
}

/// The body of a `tGTB` frame at `i`: the variant byte, its fixed header,
/// for a definition the point list and five zero bytes, then the domain.
pub open spec fn spec_tgtb_body(d: Seq<u8>, i: int, end: int) -> Result<
    (SpecStrokeThickness, int),
    ReadError,
> {
    if i + 1 > end {
        Err(ReadError::Io)
    } else {
        let kind = spec_u8_at(d, i);
        if kind == 0 {
            if i + 5 > end {
                Err(ReadError::Io)
            } else {
                let hdr = spec_le32_at(d, i + 1);
                if hdr != 0xFFFF_FFFF {
                    Err(ReadError::UnknownMystery(Mystery::TgtbUseHeader(hdr)))
                } else {
                    match spec_tgtb_domain(d, i + 5, end) {
                        Err(e) => Err(e),
                        Ok((dom, j)) => Ok(
                            (SpecStrokeThickness { definition: None, domain: dom }, j),
                        ),
                    }
                }
            }
        } else if kind == 1 {
            // one discretionary byte at `i + 1`, then five checked bytes
            if i + 7 > end {
                Err(ReadError::Io)
            } else {
                let hdr = spec_le40_at(d, i + 2);
                if hdr != 0xCFFF_FFFF {
                    Err(ReadError::UnknownMystery(Mystery::TgtbDefineHeader(hdr)))
                } else if i + 11 > end {
                    Err(ReadError::Io)
                } else {
                    let n = spec_le32_at(d, i + 7);
                    match spec_thickness_points(d, i + 11, end, n as nat) {
                        Err(e) => Err(e),
                        Ok((pts, j)) => {
                            if j + 5 > end {
                                Err(ReadError::Io)
                            } else {
                                let tr = spec_le40_at(d, j);
                                if tr != 0 {
                                    Err(ReadError::UnknownMystery(Mystery::TgtbTrailer(tr)))
                                } else {
                                    match spec_tgtb_domain(d, j + 5, end) {
                                        Err(e) => Err(e),
                                        Ok((dom, k)) => Ok(
                                            (
                                                SpecStrokeThickness {
                                                    definition: Some(pts),
                                                    domain: dom,
                                                },
                                                k,
                                            ),
                                        ),
                                    }
                                }
                            }
                        },
                    }
                }
            }
        } else {
            Err(ReadError::UnknownMystery(Mystery::TgtbKind(kind)))
        }
    }
}

/// A whole `tGTB` record at `i`: the frame length, then the body inside that
/// frame. The position after the record is where the body ended.
pub open spec fn spec_read_tgtb(d: Seq<u8>, i: int, end: int) -> Result<
    (SpecStrokeThickness, int),
    ReadError,
> {
    if i + 4 > end {
        Err(ReadError::Io)
    } else {
        let len = spec_le32_at(d, i);
        spec_tgtb_body(d, i + 4, spec_frame_end(i + 4, end, len))
    }
}

/// Read five bytes packed little-endian into a `u64`.
fn read_le40(data: &Vec<u8>, c: &mut EofReader) -> (r: Result<u64, ReadError>)
    requires
        old(c).wf(data@),
    ensures
        final(c).wf(data@),
        final(c).end == old(c).end,
        match r {
            Ok(v) => old(c).pos + 5 <= old(c).end && final(c).pos == old(c).pos + 5 && v
                == spec_le40_at(data@, old(c).pos as int),
            Err(e) => e == ReadError::Io && old(c).pos + 5 > old(c).end && *final(c) == *old(c),
        },
{
    if c.end - c.pos >= 5 {
        let b0 = data[c.pos] as u64;
        let b1 = data[c.pos + 1] as u64;
        let b2 = data[c.pos + 2] as u64;
        let b3 = data[c.pos + 3] as u64;
        let b4 = data[c.pos + 4] as u64;
        c.pos = c.pos + 5;
        Ok(b0 | b1 << 8 | b2 << 16 | b3 << 24 | b4 << 32)
    } else {
        Err(ReadError::Io)
    }
}

/// Read the domain trailer: domain start, a zero gap, domain end, a zero gap.
fn read_tgtb_domain(data: &Vec<u8>, c: &mut EofReader) -> (r: Result<ThicknessDomain, ReadError>)
    requires
        old(c).wf(data@),
    ensures
        final(c).wf(data@),
        final(c).end == old(c).end,
        match r {
            Ok(v) => old(c).pos <= final(c).pos && spec_tgtb_domain(
                data@,
                old(c).pos as int,
                old(c).end as int,
            ) == Ok::<_, ReadError>((v, final(c).pos as int)),
            Err(e) => spec_tgtb_domain(data@, old(c).pos as int, old(c).end as int) == Err::<
                (ThicknessDomain, int),
                _,
            >(e),
        },
{
    let start = read_le_u32(data, c)?;
    let gap1 = read_le_u64(data, c)?;
    if gap1 != 0 {
        return Err(ReadError::UnknownMystery(Mystery::TgtbGap(gap1)));
    }
    let stop = read_le_u32(data, c)?;
    let gap2 = read_le_u64(data, c)?;
    if gap2 != 0 {
        return Err(ReadError::UnknownMystery(Mystery::TgtbGap(gap2)));
    }
    Ok(ThicknessDomain { start, end: stop })
}

/// Read a whole `tGTB` record: the frame length, then inside the frame the
/// variant byte, its header, for a definition the point list and five zero
/// bytes, and the domain.
pub fn read_tgtb(data: &Vec<u8>, c: &mut EofReader) -> (r: Result<StrokeThickness, ReadError>)
    requires
        old(c).wf(data@),
    ensures
        final(c).wf(data@),
        final(c).end <= old(c).end,
        match r {
            Ok(v) => final(c).end == old(c).end && old(c).pos < final(c).pos && spec_read_tgtb(
                data@,
                old(c).pos as int,
                old(c).end as int,
            ) == Ok::<_, ReadError>((v@, final(c).pos as int)),
            Err(e) => spec_read_tgtb(data@, old(c).pos as int, old(c).end as int) == Err::<
                (SpecStrokeThickness, int),
                _,
            >(e),
        },
{
    let len = read_le_u32(data, c)?;
    let saved = begin_frame(c, len);
    let kind = read_u8(data, c)?;
    if kind == 0 {
        let hdr = read_le_u32(data, c)?;
        if hdr != 0xFFFF_FFFF {
            return Err(ReadError::UnknownMystery(Mystery::TgtbUseHeader(hdr)));
        }
        let domain = read_tgtb_domain(data, c)?;
        end_frame(c, saved);
        Ok(StrokeThickness { definition: None, domain })
    } else if kind == 1 {
        let _discretionary = read_u8(data, c)?;
        let hdr = read_le40(data, c)?;
        if hdr != 0xCFFF_FFFF {
            return Err(ReadError::UnknownMystery(Mystery::TgtbDefineHeader(hdr)));
        }
        let n = read_le_u32(data, c)?;
        let ghost fend = c.end as int;
        let mut points: Vec<StrokeThicknessPoint> = Vec::new();
        let mut k: u32 = 0;
        while k < n
            invariant
                c.wf(data@),
                c.end as int == fend,
                k <= n,
                old(c).pos + 15 <= c.pos,
                spec_thickness_points(data@, old(c).pos + 15, fend, n as nat)
                    == (match spec_thickness_points(data@, c.pos as int, fend, (n - k) as nat) {
                    Err(e) => Err::<(Seq<StrokeThicknessPoint>, int), ReadError>(e),
                    Ok((rest, j)) => Ok((points@ + rest, j)),
                }),
            decreases n - k,
        {
            let ghost points_before = points@;
            let ghost p = c.pos as int;
            if c.end - c.pos < 44 {
                return Err(ReadError::Io);
            }
            let loc = read_le_u32(data, c)?;
            let off_l = read_le_u32(data, c)?;
            let lb_x = read_le_u32(data, c)?;
            let lb_y = read_le_u32(data, c)?;
            let lf_x = read_le_u32(data, c)?;
            let lf_y = read_le_u32(data, c)?;
            let off_r = read_le_u32(data, c)?;
            let rb_x = read_le_u32(data, c)?;
            let rb_y = read_le_u32(data, c)?;
            let rf_x = read_le_u32(data, c)?;
            let rf_y = read_le_u32(data, c)?;
            points.push(
                StrokeThicknessPoint {
                    loc,
                    left: StrokeThicknessSide {
                        offset: off_l,
                        ctrl_back: RawPoint { x: lb_x, y: lb_y },
                        ctrl_fwd: RawPoint { x: lf_x, y: lf_y },
                    },
                    right: StrokeThicknessSide {
                        offset: off_r,
                        ctrl_back: RawPoint { x: rb_x, y: rb_y },
                        ctrl_fwd: RawPoint { x: rf_x, y: rf_y },
                    },
                },
            );
            k = k + 1;
            proof {
                let a = points_before;
                let s1 = seq![points@[points@.len() - 1]];
                assert(points@ =~= a + s1);
                let r2 = spec_thickness_points(data@, c.pos as int, fend, (n - k) as nat);
                if r2 is Ok {
                    assert((a + s1) + r2->Ok_0.0 =~= a + (s1 + r2->Ok_0.0));
                }
            }
        }
        proof {
            assert(points@ + Seq::<StrokeThicknessPoint>::empty() =~= points@);
        }
        let tr = read_le40(data, c)?;
        if tr != 0 {
            return Err(ReadError::UnknownMystery(Mystery::TgtbTrailer(tr)));
        }
        let domain = read_tgtb_domain(data, c)?;
        end_frame(c, saved);
        Ok(StrokeThickness { definition: Some(points), domain })
    } else {
        Err(ReadError::UnknownMystery(Mystery::TgtbKind(kind)))
    }
}

} // verus!
