use tvg::layer::{LayerData, PathSegment, Point, ShapeType};
use tvg::palette::{ColorData, PaletteColor, PaletteData};
use tvg::pencil::{RawPoint, StrokeThickness, StrokeThicknessPoint, StrokeThicknessSide, ThicknessDomain};
use tvg::prim::EofReader;
use tvg::quant::TbQuant;
use tvg::read::{read, FileData, FileTag};

fn le16(v: &mut Vec<u8>, x: u16) {
    v.extend_from_slice(&x.to_le_bytes());
}

fn le32(v: &mut Vec<u8>, x: u32) {
    v.extend_from_slice(&x.to_le_bytes());
}

fn le64(v: &mut Vec<u8>, x: u64) {
    v.extend_from_slice(&x.to_le_bytes());
}

fn tag(v: &mut Vec<u8>, t: &str) {
    v.extend_from_slice(t.as_bytes());
}

fn prologue() -> Vec<u8> {
    let mut v = b"OTVGfull".to_vec();
    le32(&mut v, 1009);
    le32(&mut v, 2);
    le32(&mut v, 1);
    v
}

fn unco(payload: &[u8]) -> Vec<u8> {
    let mut v = Vec::new();
    tag(&mut v, "UNCO");
    le32(&mut v, payload.len() as u32);
    v.extend_from_slice(payload);
    v
}

fn one_color_palette_body() -> Vec<u8> {
    let mut body = Vec::new();
    le32(&mut body, 1); // color count
    le32(&mut body, 0x79); // start word
    le16(&mut body, 0); // color header
    tag(&mut body, "TCSC");
    le32(&mut body, 4);
    body.extend_from_slice(&[0x11, 0x22, 0x33, 0xFF]);
    body.extend_from_slice(&[0x79, 0x00, 0x00, 0x00]); // end tag
    body
}

#[test]
fn empty_color_layer() {
    // S1: a tCAA record whose buffer is the two-byte empty-layer kind
    let mut v = prologue();
    tag(&mut v, "tCAA");
    v.extend_from_slice(&unco(&[0x00, 0x00]));
    let out = read(&v).unwrap();
    assert_eq!(out.len(), 1);
    match &out[0] {
        FileData::LayerColor(l) => assert_eq!(*l, LayerData::Empty),
        other => panic!("unexpected record {other:?}"),
    }
}

#[test]
fn palette_with_one_color() {
    // S2: a TPAL record with one RGBA color
    let mut v = prologue();
    tag(&mut v, "TPAL");
    v.extend_from_slice(&unco(&one_color_palette_body()));
    let out = read(&v).unwrap();
    assert_eq!(out.len(), 1);
    match &out[0] {
        FileData::Palette(p) => {
            let expected = PaletteData {
                colors: vec![PaletteColor { tags: vec![ColorData::ColorRgba(0x11, 0x22, 0x33, 0xFF)] }],
            };
            assert_eq!(*p, expected);
        },
        other => panic!("unexpected record {other:?}"),
    }
}

#[test]
fn table_of_contents() {
    // S3: one offset entry naming CERT at byte sixteen, then eight spare bytes
    let mut v = prologue();
    tag(&mut v, "TTOC");
    le32(&mut v, 1);
    tag(&mut v, "CERT");
    le32(&mut v, 16);
    v.extend_from_slice(&[0u8; 8]);
    let out = read(&v).unwrap();
    match &out[0] {
        FileData::MainOffsets(offs) => assert_eq!(*offs, vec![(FileTag::Cert, 16u32)]),
        other => panic!("unexpected record {other:?}"),
    }
}

#[test]
fn single_line_path() {
    // S4: a vector layer holding one shape with one TGBP of two line segments
    let mut path = Vec::new();
    le32(&mut path, 2); // point count
    path.push(0b0000_0011); // two one-bits: two lines
    le32(&mut path, 0x3F80_0000); // (1, 0)
    le32(&mut path, 0x0000_0000);
    le32(&mut path, 0x0000_0000); // (0, 1)
    le32(&mut path, 0x3F80_0000);

    let mut comp = Vec::new();
    tag(&mut comp, "TGBP");
    le32(&mut comp, path.len() as u32);
    comp.extend_from_slice(&path);

    let mut shape = Vec::new();
    le16(&mut shape, 6); // shape type: line
    le32(&mut shape, 1); // component count
    tag(&mut shape, "TGVS");
    le32(&mut shape, comp.len() as u32);
    shape.extend_from_slice(&comp);

    let mut body = Vec::new();
    le16(&mut body, 0x0100); // vector layer
    le32(&mut body, 1); // shape count
    le32(&mut body, 2); // shape word
    tag(&mut body, "TGLY");
    le32(&mut body, shape.len() as u32);
    body.extend_from_slice(&shape);
    body.extend_from_slice(&[0x00, 0x54, 0x47, 0x52, 0x56, 0x08, 0x00, 0x00, 0x00, 0x3D, 0xDF, 0x4F, 0x8D]);

    let mut v = prologue();
    tag(&mut v, "tLAA");
    v.extend_from_slice(&unco(&body));

    let out = read(&v).unwrap();
    match &out[0] {
        FileData::LayerLine(LayerData::Vector(shapes)) => {
            assert_eq!(shapes.len(), 1);
            assert_eq!(shapes[0].ty, ShapeType::Line);
            assert_eq!(shapes[0].components.len(), 1);
            let tags = &shapes[0].components[0].tags;
            assert_eq!(tags.len(), 1);
            match &tags[0] {
                tvg::layer::ShapeComponentData::Path(p) => {
                    let one = TbQuant { neg: false, exp: 0x7F, frac: 0 };
                    let zero = TbQuant { neg: false, exp: 0, frac: 0 };
                    assert_eq!(
                        p.segments,
                        vec![
                            PathSegment::Line(Point { x: one, y: zero }),
                            PathSegment::Line(Point { x: zero, y: one }),
                        ],
                    );
                },
                other => panic!("unexpected component record {other:?}"),
            }
        },
        other => panic!("unexpected record {other:?}"),
    }
}

#[test]
fn zlib_palette_matches_uncompressed() {
    // S6: a ZLIB chunk inflating to a palette body decodes like the UNCO form
    let body = one_color_palette_body();
    let mut encoder = libflate::zlib::Encoder::new(Vec::new()).unwrap();
    std::io::Write::write_all(&mut encoder, &body).unwrap();
    let stream = encoder.finish().into_result().unwrap();

    let mut compressed_chunk = Vec::new();
    tag(&mut compressed_chunk, "ZLIB");
    le32(&mut compressed_chunk, stream.len() as u32 + 4);
    le32(&mut compressed_chunk, body.len() as u32);
    compressed_chunk.extend_from_slice(&stream);

    let mut v1 = prologue();
    tag(&mut v1, "TPAL");
    v1.extend_from_slice(&compressed_chunk);
    let mut v2 = prologue();
    tag(&mut v2, "TPAL");
    v2.extend_from_slice(&unco(&body));

    let out1 = read(&v1).unwrap();
    let out2 = read(&v2).unwrap();
    match (&out1[0], &out2[0]) {
        (FileData::Palette(p1), FileData::Palette(p2)) => assert_eq!(p1, p2),
        other => panic!("unexpected records {other:?}"),
    }
}

#[test]
fn endt_and_signature() {
    let mut v = prologue();
    tag(&mut v, "ENDT");
    tag(&mut v, "SIGN");
    let sig: Vec<u8> = (0..74u8).collect();
    v.extend_from_slice(&sig);
    let out = read(&v).unwrap();
    assert_eq!(out.len(), 2);
    assert!(matches!(out[0], FileData::Endt));
    match &out[1] {
        FileData::Signature(b) => assert_eq!(*b, sig),
        other => panic!("unexpected record {other:?}"),
    }
}

#[test]
fn crea_record() {
    let mut v = prologue();
    tag(&mut v, "CREA");
    v.extend_from_slice(&unco(&2u32.to_le_bytes()));
    let out = read(&v).unwrap();
    assert!(matches!(out[0], FileData::Crea(2)));
}

#[test]
fn certificate_text() {
    // the certificate is UTF-8: a non-ASCII character decodes as one char
    let text = "cert-é";
    let mut payload = Vec::new();
    le32(&mut payload, 1);
    le32(&mut payload, text.len() as u32);
    payload.extend_from_slice(text.as_bytes());
    let mut v = prologue();
    tag(&mut v, "CERT");
    le32(&mut v, payload.len() as u32);
    v.extend_from_slice(&payload);
    let out = read(&v).unwrap();
    match &out[0] {
        FileData::Certificate(s) => {
            assert_eq!(s, text);
            assert_eq!(s.chars().count(), 6);
        },
        other => panic!("unexpected record {other:?}"),
    }
}

#[test]
fn identity_strings() {
    let mut body = vec![0u8; 13];
    body.extend_from_slice(b"tablet-9\0");
    body.extend_from_slice("Sketchy Päint\0".as_bytes());
    let mut v = prologue();
    tag(&mut v, "TVCI");
    v.extend_from_slice(&unco(&body));
    let out = read(&v).unwrap();
    match &out[0] {
        FileData::Identity { device, software_name } => {
            assert_eq!(device, "tablet-9");
            assert_eq!(software_name, "Sketchy Päint");
        },
        other => panic!("unexpected record {other:?}"),
    }
}

#[test]
fn nested_main_data() {
    let mut inner = Vec::new();
    tag(&mut inner, "ENDT");
    let mut v = prologue();
    tag(&mut v, "\0\0\0\0");
    v.extend_from_slice(&unco(&inner));
    let out = read(&v).unwrap();
    match &out[0] {
        FileData::Main(recs) => {
            assert_eq!(recs.len(), 1);
            assert!(matches!(recs[0], FileData::Endt));
        },
        other => panic!("unexpected record {other:?}"),
    }
}

#[test]
fn utf16_color_name() {
    // a TCID record with a non-ASCII name and project, strict UTF-16LE
    let name = "röd";
    let project = "prøj";
    let mut tcid = Vec::new();
    let name_units: Vec<u16> = name.encode_utf16().collect();
    le32(&mut tcid, name_units.len() as u32);
    for u in &name_units {
        le16(&mut tcid, *u);
    }
    le64(&mut tcid, 0x1122334455667788);
    let proj_units: Vec<u16> = project.encode_utf16().collect();
    le32(&mut tcid, proj_units.len() as u32);
    for u in &proj_units {
        le16(&mut tcid, *u);
    }

    let mut body = Vec::new();
    le32(&mut body, 1);
    le32(&mut body, 0x79);
    le16(&mut body, 0);
    tag(&mut body, "TCID");
    le32(&mut body, tcid.len() as u32);
    body.extend_from_slice(&tcid);
    body.extend_from_slice(&[0x79, 0x00, 0x00, 0x00]);

    let mut v = prologue();
    tag(&mut v, "TPAL");
    v.extend_from_slice(&unco(&body));
    let out = read(&v).unwrap();
    match &out[0] {
        FileData::Palette(p) => {
            assert_eq!(p.colors.len(), 1);
            match &p.colors[0].tags[0] {
                ColorData::ColorId { id, name: n, project: pr } => {
                    assert_eq!(*id, 0x1122334455667788);
                    assert_eq!(n, name);
                    assert_eq!(pr, project);
                },
                other => panic!("unexpected color record {other:?}"),
            }
        },
        other => panic!("unexpected record {other:?}"),
    }
}

#[test]
fn stroke_thickness_reference() {
    // a component holding a tGTB reference record: no definition, a domain
    let mut tgtb = Vec::new();
    tgtb.push(0x00);
    tgtb.extend_from_slice(&[0xFF, 0xFF, 0xFF, 0xFF]);
    le32(&mut tgtb, 0x3F80_0000); // domain start bits
    le64(&mut tgtb, 0);
    le32(&mut tgtb, 0x3F00_0000); // domain end bits
    le64(&mut tgtb, 0);

    let mut comp = Vec::new();
    tag(&mut comp, "tGTB");
    le32(&mut comp, tgtb.len() as u32);
    comp.extend_from_slice(&tgtb);

    let out = decode_single_component_layer(&comp);
    match &out[0] {
        tvg::layer::ShapeComponentData::Thickness(t) => {
            assert_eq!(
                *t,
                StrokeThickness {
                    definition: None,
                    domain: ThicknessDomain { start: 0x3F80_0000, end: 0x3F00_0000 },
                },
            );
        },
        other => panic!("unexpected component record {other:?}"),
    }
}

#[test]
fn stroke_thickness_definition() {
    // a tGTB definition record with one point
    let mut tgtb = Vec::new();
    tgtb.push(0x01);
    tgtb.push(0x00); // discretionary byte
    tgtb.extend_from_slice(&[0xFF, 0xFF, 0xFF, 0xCF, 0x00]);
    le32(&mut tgtb, 1); // point count
    for word in 1..=11u32 {
        le32(&mut tgtb, word);
    }
    tgtb.extend_from_slice(&[0u8; 5]);
    le32(&mut tgtb, 0);
    le64(&mut tgtb, 0);
    le32(&mut tgtb, 0x3F80_0000);
    le64(&mut tgtb, 0);

    let mut comp = Vec::new();
    tag(&mut comp, "tGTB");
    le32(&mut comp, tgtb.len() as u32);
    comp.extend_from_slice(&tgtb);

    let out = decode_single_component_layer(&comp);
    match &out[0] {
        tvg::layer::ShapeComponentData::Thickness(t) => {
            let expected_point = StrokeThicknessPoint {
                loc: 1,
                left: StrokeThicknessSide {
                    offset: 2,
                    ctrl_back: RawPoint { x: 3, y: 4 },
                    ctrl_fwd: RawPoint { x: 5, y: 6 },
                },
                right: StrokeThicknessSide {
                    offset: 7,
                    ctrl_back: RawPoint { x: 8, y: 9 },
                    ctrl_fwd: RawPoint { x: 10, y: 11 },
                },
            };
            assert_eq!(
                *t,
                StrokeThickness {
                    definition: Some(vec![expected_point]),
                    domain: ThicknessDomain { start: 0, end: 0x3F80_0000 },
                },
            );
        },
        other => panic!("unexpected component record {other:?}"),
    }
}

#[test]
fn component_metadata_and_blob() {
    // TGSD fill metadata with a color id, then an opaque tGTI blob
    let mut tgsd_inner = vec![0x00, 0x01]; // fill, color flag set
    tgsd_inner.extend_from_slice(&0xAABB_CCDD_EEFF_0011u64.to_le_bytes());
    tgsd_inner.extend_from_slice(&[0u8; 16]); // discarded tail up to length 26

    let mut comp = Vec::new();
    tag(&mut comp, "TGSD");
    le32(&mut comp, tgsd_inner.len() as u32);
    comp.extend_from_slice(&tgsd_inner);
    comp.push(0x01); // continuation: keep reading
    tag(&mut comp, "tGTI");
    le32(&mut comp, 3);
    comp.extend_from_slice(&[0xAB, 0xCD, 0xEF]);

    let out = decode_single_component_layer(&comp);
    assert_eq!(out.len(), 2);
    match &out[0] {
        tvg::layer::ShapeComponentData::Info(info) => {
            assert_eq!(info.ty, tvg::layer::ComponentType::Fill);
            assert_eq!(info.color_id, Some(0xAABB_CCDD_EEFF_0011));
        },
        other => panic!("unexpected component record {other:?}"),
    }
    match &out[1] {
        tvg::layer::ShapeComponentData::Tgti(b) => assert_eq!(b.0, vec![0xAB, 0xCD, 0xEF]),
        other => panic!("unexpected component record {other:?}"),
    }
}

#[test]
fn component_metadata_stop() {
    // a TGSD whose continuation byte is zero ends the component after an
    // opaque trailer word
    let tgsd_inner = vec![0x02]; // stroke: no color id
    let mut comp = Vec::new();
    tag(&mut comp, "TGSD");
    le32(&mut comp, tgsd_inner.len() as u32);
    comp.extend_from_slice(&tgsd_inner);
    comp.push(0x00); // continuation: stop
    le32(&mut comp, 0xDEAD_BEEF); // opaque trailer

    let out = decode_single_component_layer(&comp);
    assert_eq!(out.len(), 1);
    match &out[0] {
        tvg::layer::ShapeComponentData::Info(info) => {
            assert_eq!(info.ty, tvg::layer::ComponentType::Stroke);
            assert_eq!(info.color_id, None);
        },
        other => panic!("unexpected component record {other:?}"),
    }
}

#[test]
fn pencil_metadata() {
    let mut tgsd_inner = vec![0x04];
    le32(&mut tgsd_inner, 0x4120_0000); // discarded word
    tgsd_inner.extend_from_slice(&7u64.to_le_bytes());
    let mut comp = Vec::new();
    tag(&mut comp, "TGSD");
    le32(&mut comp, tgsd_inner.len() as u32);
    comp.extend_from_slice(&tgsd_inner);
    comp.push(0x01);

    let out = decode_single_component_layer(&comp);
    match &out[0] {
        tvg::layer::ShapeComponentData::Info(info) => {
            assert_eq!(info.ty, tvg::layer::ComponentType::Pencil);
            assert_eq!(info.color_id, Some(7));
        },
        other => panic!("unexpected component record {other:?}"),
    }
}

#[test]
fn eof_reader_window() {
    let data: Vec<u8> = vec![0x54, 0x47, 0x4C, 0x59, 0x01];
    let r = EofReader::new(&data);
    assert!(!r.is_at_eof());
    assert_eq!(r.peek_tag(&data), Some(0x54474C59));
    let short: Vec<u8> = vec![1, 2, 3];
    let r2 = EofReader::new(&short);
    assert_eq!(r2.peek_tag(&short), None);
    let empty: Vec<u8> = Vec::new();
    let r3 = EofReader::new(&empty);
    assert!(r3.is_at_eof());
}

#[test]
fn empty_file_has_no_records() {
    let v = prologue();
    let out = read(&v).unwrap();
    assert!(out.is_empty());
}

// Wraps one component into a full one-shape vector layer file, decodes it,
// and hands back the component's records.
fn decode_single_component_layer(comp: &[u8]) -> Vec<tvg::layer::ShapeComponentData> {
    let mut shape = Vec::new();
    le16(&mut shape, 2); // shape type: fill
    le32(&mut shape, 1);
    tag(&mut shape, "TGVS");
    le32(&mut shape, comp.len() as u32);
    shape.extend_from_slice(comp);

    let mut body = Vec::new();
    le16(&mut body, 0x0100);
    le32(&mut body, 1);
    le32(&mut body, 2);
    tag(&mut body, "TGLY");
    le32(&mut body, shape.len() as u32);
    body.extend_from_slice(&shape);
    body.extend_from_slice(&[0x00, 0x54, 0x47, 0x52, 0x56, 0x08, 0x00, 0x00, 0x00, 0x3D, 0xDF, 0x4F, 0x8D]);

    let mut v = prologue();
    tag(&mut v, "tUAA");
    v.extend_from_slice(&unco(&body));
    let out = read(&v).unwrap();
    match out.into_iter().next().unwrap() {
        FileData::LayerUnderlay(LayerData::Vector(mut shapes)) => {
            shapes.remove(0).components.remove(0).tags
        },
        other => panic!("unexpected record {other:?}"),
    }
}

#[test]
fn color_ends_at_buffer_end() {
    // a palette color may end with the buffer instead of the end tag
    let mut body = Vec::new();
    le32(&mut body, 1);
    le32(&mut body, 0x79);
    le16(&mut body, 0);
    tag(&mut body, "TCSC");
    le32(&mut body, 4);
    body.extend_from_slice(&[1, 2, 3, 4]);
    let mut v = prologue();
    tag(&mut v, "TPAL");
    v.extend_from_slice(&unco(&body));
    let out = read(&v).unwrap();
    match &out[0] {
        FileData::Palette(p) => {
            assert_eq!(p.colors.len(), 1);
            assert_eq!(p.colors[0].tags, vec![ColorData::ColorRgba(1, 2, 3, 4)]);
        },
        other => panic!("unexpected record {other:?}"),
    }
}

#[test]
fn empty_palette() {
    let mut body = Vec::new();
    le32(&mut body, 0);
    le32(&mut body, 0x79);
    let mut v = prologue();
    tag(&mut v, "TPAL");
    v.extend_from_slice(&unco(&body));
    let out = read(&v).unwrap();
    match &out[0] {
        FileData::Palette(p) => assert!(p.colors.is_empty()),
        other => panic!("unexpected record {other:?}"),
    }
}

#[test]
fn record_order_is_preserved() {
    let mut v = prologue();
    tag(&mut v, "ENDT");
    tag(&mut v, "CREA");
    v.extend_from_slice(&unco(&2u32.to_le_bytes()));
    tag(&mut v, "ENDT");
    let out = read(&v).unwrap();
    assert_eq!(out.len(), 3);
    assert!(matches!(out[0], FileData::Endt));
    assert!(matches!(out[1], FileData::Crea(2)));
    assert!(matches!(out[2], FileData::Endt));
}

#[test]
fn fill_without_color_id() {
    let mut comp = Vec::new();
    tag(&mut comp, "TGSD");
    le32(&mut comp, 2);
    comp.push(0x00); // fill
    comp.push(0x00); // no color id
    comp.push(0x01); // continuation
    let out = decode_single_component_layer(&comp);
    match &out[0] {
        tvg::layer::ShapeComponentData::Info(info) => {
            assert_eq!(info.ty, tvg::layer::ComponentType::Fill);
            assert_eq!(info.color_id, None);
        },
        other => panic!("unexpected component record {other:?}"),
    }
}
