//! The bounded-view property.
//!
//! Every length-prefixed scope hands its inner parser a window `i..end`, and
//! the parser may depend on nothing outside it. The lemmas here state that
//! for the whole grammar: two buffers that agree on a window decode
//! identically over that window, however they differ elsewhere — so no inner
//! parser ever reads beyond its declared length, and truncating or extending
//! the bytes past a window cannot change or break a decode inside it.

use vstd::prelude::*;
use crate::layer::{
    spec_bitstream, spec_component, spec_component_tags, spec_components, spec_read_path_body,
    spec_read_segments, spec_shape, spec_shapes, spec_tgsd, spec_tgsd_inner, PathSegmentType,
};
use crate::palette::{spec_color, spec_color_id_body, spec_color_tag, spec_color_tags, spec_colors};
use crate::pencil::{spec_read_tgtb, spec_tgtb_body, spec_thickness_points};
use crate::read::{
    spec_cert, spec_crea, spec_offsets, spec_record, spec_records, spec_ttoc, spec_tvci,
};
use crate::util::spec_read_encoded;

verus! {

/// Two buffers agree on the window `i..end`.
pub open spec fn spec_window_eq(d1: Seq<u8>, d2: Seq<u8>, i: int, end: int) -> bool {
    &&& 0 <= i
    &&& end <= d1.len()
    &&& end <= d2.len()
    &&& forall|k: int| i <= k < end ==> d1[k] == d2[k]
}

/// An encoded-data chunk depends only on its window.
pub proof fn lemma_encoded_window(d1: Seq<u8>, d2: Seq<u8>, i: int, end: int)
    requires
        spec_window_eq(d1, d2, i, end),
    ensures
        spec_read_encoded(d1, i, end) == spec_read_encoded(d2, i, end),
{
    if i + 8 <= end {
        let len = crate::prim::spec_le32_at(d1, i + 4);
        if i + 8 + len <= end {
            assert(d1.subrange(i + 8, i + 8 + len) =~= d2.subrange(i + 8, i + 8 + len));
        }
        let slen: int = if len >= 4 {
            len - 4
        } else {
            0
        };
        if i + 12 <= end && i + 12 + slen <= end {
            assert(d1.subrange(i + 12, i + 12 + slen) =~= d2.subrange(i + 12, i + 12 + slen));
        }
    }
}

/// The bit stream of a window depends only on that window.
pub proof fn lemma_bitstream_window(d1: Seq<u8>, d2: Seq<u8>, s: int, e: int)
    requires
        spec_window_eq(d1, d2, s, e),
        s <= e,
    ensures
        spec_bitstream(d1, s, e) == spec_bitstream(d2, s, e),
{
    assert forall|k: int| 0 <= k < (e - s) * 8 implies spec_bitstream(d1, s, e)[k]
        == spec_bitstream(d2, s, e)[k] by {
        assert(0 <= k / 8 < e - s) by (nonlinear_arith)
            requires
                0 <= k < (e - s) * 8,
        ;
    }
    assert(spec_bitstream(d1, s, e) =~= spec_bitstream(d2, s, e));
}

proof fn lemma_segments_window(d1: Seq<u8>, d2: Seq<u8>, i: int, end: int, kinds: Seq<
    PathSegmentType,
>)
    requires
        spec_window_eq(d1, d2, 0, end),
        0 <= i,
    ensures
        spec_read_segments(d1, i, end, kinds) == spec_read_segments(d2, i, end, kinds),
    decreases kinds.len(),
{
    if kinds.len() > 0 {
        match kinds[0] {
            PathSegmentType::Line => {
                if i + 8 <= end {
                    lemma_segments_window(d1, d2, i + 8, end, kinds.subrange(1, kinds.len() as int));
                }
            },
            PathSegmentType::Cubic => {
                if i + 24 <= end {
                    lemma_segments_window(
                        d1,
                        d2,
                        i + 24,
                        end,
                        kinds.subrange(1, kinds.len() as int),
                    );
                }
            },
        }
    }
}

proof fn lemma_decode_ops_pos(bits: Seq<bool>, i: int, zeros: u32, budget: int)
    requires
        crate::layer::spec_decode_ops(bits, i, zeros, budget) is Ok,
    ensures
        crate::layer::spec_decode_ops(bits, i, zeros, budget)->Ok_0.1 >= i,
    decreases bits.len() - i,
{
    if budget <= 0 {
    } else if i < 0 || i >= bits.len() {
    } else if bits[i] {
        if zeros == 0 {
            lemma_decode_ops_pos(bits, i + 1, 0, budget - 1);
        } else if zeros == 2 && budget >= 3 {
            lemma_decode_ops_pos(bits, i + 1, 0, budget - 3);
        }
    } else {
        lemma_decode_ops_pos(
            bits,
            i + 1,
            if zeros < 0xFFFF_FFFF {
                (zeros + 1) as u32
            } else {
                zeros
            },
            budget,
        );
    }
}

/// A `TGBP` body depends only on its window.
pub proof fn lemma_path_body_window(d1: Seq<u8>, d2: Seq<u8>, i: int, end: int)
    requires
        spec_window_eq(d1, d2, 0, end),
        0 <= i,
    ensures
        spec_read_path_body(d1, i, end) == spec_read_path_body(d2, i, end),
{
    if i + 4 <= end {
        lemma_bitstream_window(d1, d2, i + 4, end);
        let pc = crate::prim::spec_le32_at(d1, i);
        let bits = spec_bitstream(d1, i + 4, end);
        match crate::layer::spec_decode_ops(bits, 0, 0, pc as int) {
            Err(_) => {},
            Ok((kinds, nbits)) => {
                lemma_decode_ops_pos(bits, 0, 0, pc as int);
                lemma_segments_window(d1, d2, i + 4 + (nbits + 7) / 8, end, kinds);
            },
        }
    }
}

/// A `tGTB` record depends only on its window.
pub proof fn lemma_tgtb_window(d1: Seq<u8>, d2: Seq<u8>, i: int, end: int)
    requires
        spec_window_eq(d1, d2, 0, end),
        0 <= i,
    ensures
        spec_read_tgtb(d1, i, end) == spec_read_tgtb(d2, i, end),
{
    if i + 4 <= end {
        let len = crate::prim::spec_le32_at(d1, i);
        let fe = crate::prim::spec_frame_end(i + 4, end, len);
        lemma_tgtb_body_window(d1, d2, i + 4, fe);
    }
}

proof fn lemma_tgtb_points_window(d1: Seq<u8>, d2: Seq<u8>, i: int, end: int, n: nat)
    requires
        spec_window_eq(d1, d2, 0, end),
        0 <= i,
    ensures
        spec_thickness_points(d1, i, end, n) == spec_thickness_points(d2, i, end, n),
        spec_thickness_points(d1, i, end, n) matches Ok((pts, j)) ==> j >= i,
    decreases n,
{
    if n > 0 && i + 44 <= end {
        lemma_tgtb_points_window(d1, d2, i + 44, end, (n - 1) as nat);
    }
}

proof fn lemma_tgtb_body_window(d1: Seq<u8>, d2: Seq<u8>, i: int, end: int)
    requires
        spec_window_eq(d1, d2, 0, end),
        0 <= i,
    ensures
        spec_tgtb_body(d1, i, end) == spec_tgtb_body(d2, i, end),
{
    if i + 1 <= end && d1[i] == 1 && i + 11 <= end {
        let n = crate::prim::spec_le32_at(d1, i + 7);
        lemma_tgtb_points_window(d1, d2, i + 11, end, n as nat);
    }
}

/// A `TGSD` record depends only on its window.
pub proof fn lemma_tgsd_window(d1: Seq<u8>, d2: Seq<u8>, i: int, end: int)
    requires
        spec_window_eq(d1, d2, 0, end),
        0 <= i,
    ensures
        spec_tgsd(d1, i, end) == spec_tgsd(d2, i, end),
{
    if i + 4 <= end {
        let len = crate::prim::spec_le32_at(d1, i);
        let fe = crate::prim::spec_frame_end(i + 4, end, len);
        assert(spec_tgsd_inner(d1, i + 4, fe, len) == spec_tgsd_inner(d2, i + 4, fe, len));
    }
}

/// The record run of a component depends only on its window.
pub proof fn lemma_component_tags_window(d1: Seq<u8>, d2: Seq<u8>, i: int, end: int)
    requires
        spec_window_eq(d1, d2, 0, end),
        0 <= i,
    ensures
        spec_component_tags(d1, i, end) == spec_component_tags(d2, i, end),
        spec_component_tags(d1, i, end) matches Ok((tags, j)) ==> j >= 0,
    decreases end - i,
{
    if i < end && i + 4 <= end {
        let tag = crate::prim::spec_be32_at(d1, i);
        match crate::layer::ShapeComponentTag::spec_from_u32(tag) {
            None => {},
            Some(crate::layer::ShapeComponentTag::Tgsd) => {
                lemma_tgsd_window(d1, d2, i + 4, end);
                match spec_tgsd(d1, i + 4, end) {
                    Err(_) => {},
                    Ok(((info, stop), j)) => {
                        if !stop && i < j <= end {
                            lemma_component_tags_window(d1, d2, j, end);
                        }
                    },
                }
            },
            Some(crate::layer::ShapeComponentTag::Tgbp) => {
                if i + 8 <= end {
                    let len = crate::prim::spec_le32_at(d1, i + 4);
                    let fe = crate::prim::spec_frame_end(i + 8, end, len);
                    lemma_path_body_window(d1, d2, i + 8, fe);
                    match spec_read_path_body(d1, i + 8, fe) {
                        Err(_) => {},
                        Ok((segs, j)) => {
                            if i < j <= end {
                                lemma_component_tags_window(d1, d2, j, end);
                            }
                        },
                    }
                }
            },
            Some(crate::layer::ShapeComponentTag::Tgtb) => {
                lemma_tgtb_window(d1, d2, i + 4, end);
                match spec_read_tgtb(d1, i + 4, end) {
                    Err(_) => {},
                    Ok((st, j)) => {
                        if i < j <= end {
                            lemma_component_tags_window(d1, d2, j, end);
                        }
                    },
                }
            },
            Some(crate::layer::ShapeComponentTag::Tgti) => {
                if i + 8 <= end {
                    let len = crate::prim::spec_le32_at(d1, i + 4);
                    let fe = crate::prim::spec_frame_end(i + 8, end, len);
                    assert(d1.subrange(i + 8, fe) =~= d2.subrange(i + 8, fe));
                    lemma_component_tags_window(d1, d2, fe, end);
                }
            },
        }
    }
}

/// A shape component depends only on its window.
pub proof fn lemma_component_window(d1: Seq<u8>, d2: Seq<u8>, i: int, end: int)
    requires
        spec_window_eq(d1, d2, 0, end),
        0 <= i,
    ensures
        spec_component(d1, i, end) == spec_component(d2, i, end),
        spec_component(d1, i, end) matches Ok((tags, j)) ==> j >= 0,
{
    if i + 8 <= end {
        let len = crate::prim::spec_le32_at(d1, i + 4);
        lemma_component_tags_window(d1, d2, i + 8, crate::prim::spec_frame_end(i + 8, end, len));
    }
}

proof fn lemma_components_window(d1: Seq<u8>, d2: Seq<u8>, i: int, end: int, n: nat)
    requires
        spec_window_eq(d1, d2, 0, end),
        0 <= i,
    ensures
        spec_components(d1, i, end, n) == spec_components(d2, i, end, n),
        spec_components(d1, i, end, n) matches Ok((comps, j)) ==> j >= 0,
    decreases n,
{
    if n > 0 {
        lemma_component_window(d1, d2, i, end);
        match spec_component(d1, i, end) {
            Err(_) => {},
            Ok((comp, j)) => {
                lemma_components_window(d1, d2, j, end, (n - 1) as nat);
            },
        }
    }
}

/// A vector shape depends only on its window.
pub proof fn lemma_shape_window(d1: Seq<u8>, d2: Seq<u8>, i: int, end: int)
    requires
        spec_window_eq(d1, d2, 0, end),
        0 <= i,
    ensures
        spec_shape(d1, i, end) == spec_shape(d2, i, end),
        spec_shape(d1, i, end) matches Ok((shape, j)) ==> j >= 0,
{
    if i + 12 <= end {
        let len = crate::prim::spec_le32_at(d1, i + 8);
        let fe = crate::prim::spec_frame_end(i + 12, end, len);
        if i + 18 <= fe {
            let cc = crate::prim::spec_le32_at(d1, i + 14);
            lemma_components_window(d1, d2, i + 18, fe, cc as nat);
        }
    }
}

/// A shape list depends only on its window.
pub proof fn lemma_shapes_window(d1: Seq<u8>, d2: Seq<u8>, i: int, end: int, n: nat)
    requires
        spec_window_eq(d1, d2, 0, end),
        0 <= i,
    ensures
        spec_shapes(d1, i, end, n) == spec_shapes(d2, i, end, n),
    decreases n,
{
    if n > 0 {
        lemma_shape_window(d1, d2, i, end);
        match spec_shape(d1, i, end) {
            Err(_) => {},
            Ok((shape, j)) => {
                lemma_shapes_window(d1, d2, j, end, (n - 1) as nat);
            },
        }
    }
}

/// A `TCID` body depends only on its window.
pub proof fn lemma_color_id_window(d1: Seq<u8>, d2: Seq<u8>, i: int, end: int)
    requires
        spec_window_eq(d1, d2, 0, end),
        0 <= i,
    ensures
        spec_color_id_body(d1, i, end) == spec_color_id_body(d2, i, end),
{
    if i + 4 <= end {
        let nlen = crate::prim::spec_le32_at(d1, i);
        if i + 4 + 2 * nlen <= end {
            assert(crate::prim::spec_le16_seq(d1, i + 4, nlen as int) =~= crate::prim::spec_le16_seq(
                d2,
                i + 4,
                nlen as int,
            ));
            let j = i + 4 + 2 * nlen;
            if j + 12 <= end {
                let plen = crate::prim::spec_le32_at(d1, j + 8);
                if j + 12 + 2 * plen <= end {
                    assert(crate::prim::spec_le16_seq(d1, j + 12, plen as int)
                        =~= crate::prim::spec_le16_seq(d2, j + 12, plen as int));
                }
            }
        }
    }
}

/// One palette color record depends only on its window.
pub proof fn lemma_color_tag_window(d1: Seq<u8>, d2: Seq<u8>, i: int, end: int)
    requires
        spec_window_eq(d1, d2, 0, end),
        0 <= i,
        i + 4 <= end,
    ensures
        spec_color_tag(d1, i, end) == spec_color_tag(d2, i, end),
{
    if i + 8 <= end {
        let len = crate::prim::spec_le32_at(d1, i + 4);
        lemma_color_id_window(d1, d2, i + 8, crate::prim::spec_frame_end(i + 8, end, len));
    }
}

proof fn lemma_color_tags_window(d1: Seq<u8>, d2: Seq<u8>, i: int, end: int)
    requires
        spec_window_eq(d1, d2, 0, end),
        0 <= i,
    ensures
        spec_color_tags(d1, i, end) == spec_color_tags(d2, i, end),
        spec_color_tags(d1, i, end) matches Ok((tags, j)) ==> j >= 0,
    decreases end - i,
{
    if i < end && i + 4 <= end {
        lemma_color_tag_window(d1, d2, i, end);
        match spec_color_tag(d1, i, end) {
            Err(_) => {},
            Ok((None, _)) => {},
            Ok((Some(t), j)) => {
                if i < j <= end {
                    lemma_color_tags_window(d1, d2, j, end);
                }
            },
        }
    }
}

/// One palette color depends only on its window.
pub proof fn lemma_color_window(d1: Seq<u8>, d2: Seq<u8>, i: int, end: int)
    requires
        spec_window_eq(d1, d2, 0, end),
        0 <= i,
    ensures
        spec_color(d1, i, end) == spec_color(d2, i, end),
        spec_color(d1, i, end) matches Ok((tags, j)) ==> j >= 0,
{
    if i + 2 <= end {
        lemma_color_tags_window(d1, d2, i + 2, end);
    }
}

/// A color list depends only on its window.
pub proof fn lemma_colors_window(d1: Seq<u8>, d2: Seq<u8>, i: int, end: int, n: nat)
    requires
        spec_window_eq(d1, d2, 0, end),
        0 <= i,
    ensures
        spec_colors(d1, i, end, n) == spec_colors(d2, i, end, n),
    decreases n,
{
    if n > 0 {
        lemma_color_window(d1, d2, i, end);
        match spec_color(d1, i, end) {
            Err(_) => {},
            Ok((col, j)) => {
                lemma_colors_window(d1, d2, j, end, (n - 1) as nat);
            },
        }
    }
}

/// A `CERT` payload depends only on its window.
pub proof fn lemma_cert_window(d1: Seq<u8>, d2: Seq<u8>, i: int, end: int)
    requires
        spec_window_eq(d1, d2, 0, end),
        0 <= i,
    ensures
        spec_cert(d1, i, end) == spec_cert(d2, i, end),
{
    reveal(spec_cert);
    if i + 4 <= end {
        let len = crate::prim::spec_le32_at(d1, i);
        let fe = crate::prim::spec_frame_end(i + 4, end, len);
        if i + 12 <= fe {
            let cl = crate::prim::spec_le32_at(d1, i + 8);
            if i + 12 + cl <= fe {
                assert(d1.subrange(i + 12, i + 12 + cl) =~= d2.subrange(i + 12, i + 12 + cl));
            }
        }
    }
}

proof fn lemma_offsets_window(d1: Seq<u8>, d2: Seq<u8>, i: int, end: int, n: nat)
    requires
        spec_window_eq(d1, d2, 0, end),
        0 <= i,
    ensures
        spec_offsets(d1, i, end, n) == spec_offsets(d2, i, end, n),
    decreases n,
{
    if n > 0 && i + 8 <= end {
        lemma_offsets_window(d1, d2, i + 8, end, (n - 1) as nat);
    }
}

/// One top-level record depends only on its window. Payloads behind an
/// encoded-data chunk are materialized buffers of the chunk and carry the
/// property through it.
pub proof fn lemma_record_window(d1: Seq<u8>, d2: Seq<u8>, i: int, end: int, depth: nat)
    requires
        spec_window_eq(d1, d2, 0, end),
        0 <= i,
    ensures
        spec_record(d1, i, end, depth) == spec_record(d2, i, end, depth),
{
    reveal(spec_crea);
    reveal(spec_tvci);
    reveal(spec_ttoc);
    reveal(crate::layer::spec_read_layer);
    reveal(crate::palette::spec_read_palette);
    if i + 4 <= end {
        lemma_cert_window(d1, d2, i + 4, end);
        lemma_encoded_window(d1, d2, i + 4, end);
        if i + 8 <= end {
            let count = crate::prim::spec_le32_at(d1, i + 4);
            lemma_offsets_window(d1, d2, i + 8, end, count as nat);
        }
        if i + 78 <= end {
            assert(d1.subrange(i + 4, i + 78) =~= d2.subrange(i + 4, i + 78));
        }
    }
}

/// A record list depends only on its window: the top of the bounded-view
/// property.
pub proof fn lemma_records_window(d1: Seq<u8>, d2: Seq<u8>, i: int, end: int, depth: nat)
    requires
        spec_window_eq(d1, d2, 0, end),
        0 <= i,
    ensures
        spec_records(d1, i, end, depth) == spec_records(d2, i, end, depth),
    decreases end - i,
{
    if i < end && i + 4 <= end {
        lemma_record_window(d1, d2, i, end, depth);
        match spec_record(d1, i, end, depth) {
            Err(_) => {},
            Ok((rec, j)) => {
                if i < j <= end {
                    lemma_records_window(d1, d2, j, end, depth);
                }
            },
        }
    }
}

} // verus!
