use tvg::read::{read, ErrorLocation, Mystery, ReadError};

fn ele16(v: &mut Vec<u8>, x: u16) {
    v.extend_from_slice(&x.to_le_bytes());
}

fn ele32(v: &mut Vec<u8>, x: u32) {
    v.extend_from_slice(&x.to_le_bytes());
}

fn etag(v: &mut Vec<u8>, t: &str) {
    v.extend_from_slice(t.as_bytes());
}

fn eprologue() -> Vec<u8> {
    let mut v = b"OTVGfull".to_vec();
    ele32(&mut v, 1009);
    ele32(&mut v, 2);
    ele32(&mut v, 1);
    v
}

fn eunco(payload: &[u8]) -> Vec<u8> {
    let mut v = Vec::new();
    etag(&mut v, "UNCO");
    ele32(&mut v, payload.len() as u32);
    v.extend_from_slice(payload);
    v
}

fn single_component_file(comp: &[u8]) -> Vec<u8> {
    let mut shape = Vec::new();
    ele16(&mut shape, 2);
    ele32(&mut shape, 1);
    etag(&mut shape, "TGVS");
    ele32(&mut shape, comp.len() as u32);
    shape.extend_from_slice(comp);

    let mut body = Vec::new();
    ele16(&mut body, 0x0100);
    ele32(&mut body, 1);
    ele32(&mut body, 2);
    etag(&mut body, "TGLY");
    ele32(&mut body, shape.len() as u32);
    body.extend_from_slice(&shape);
    body.extend_from_slice(&[0x00, 0x54, 0x47, 0x52, 0x56, 0x08, 0x00, 0x00, 0x00, 0x3D, 0xDF, 0x4F, 0x8D]);

    let mut v = eprologue();
    etag(&mut v, "tCAA");
    v.extend_from_slice(&eunco(&body));
    v
}

#[test]
fn bad_magic() {
    // S5: any other eight-byte prefix is rejected with the offending bytes
    let mut v = b"OTVGfulk".to_vec();
    ele32(&mut v, 1009);
    ele32(&mut v, 2);
    ele32(&mut v, 1);
    let packed = u64::from_le_bytes(*b"OTVGfulk");
    assert_eq!(read(&v).unwrap_err(), (ReadError::UnexpectedMagic(packed)));
}

#[test]
fn truncated_prologue_is_io() {
    let v = b"OTVG".to_vec();
    assert_eq!(read(&v).unwrap_err(), (ReadError::Io));
}

#[test]
fn bad_version() {
    let mut v = b"OTVGfull".to_vec();
    ele32(&mut v, 1008);
    ele32(&mut v, 2);
    ele32(&mut v, 1);
    assert_eq!(read(&v).unwrap_err(), (ReadError::UnexpectedVersion(1008)));
}

#[test]
fn bad_prologue_words() {
    let mut v = b"OTVGfull".to_vec();
    ele32(&mut v, 1009);
    ele32(&mut v, 3);
    ele32(&mut v, 1);
    assert_eq!(read(&v).unwrap_err(), (ReadError::UnknownMystery(Mystery::Prologue(3, 1))));
}

#[test]
fn unknown_file_tag() {
    let mut v = eprologue();
    etag(&mut v, "XXXX");
    assert_eq!(read(&v).unwrap_err(), (ReadError::UnknownFileTag(0x58585858)));
}

#[test]
fn unknown_encoding() {
    let mut v = eprologue();
    etag(&mut v, "tCAA");
    etag(&mut v, "GZIP");
    ele32(&mut v, 0);
    assert_eq!(read(&v).unwrap_err(), (ReadError::UnknownEncoding(0x475A4950)));
}

#[test]
fn unknown_layer_tag() {
    let mut body = Vec::new();
    ele16(&mut body, 0x0100);
    ele32(&mut body, 1);
    ele32(&mut body, 2);
    etag(&mut body, "TGLX");
    let mut v = eprologue();
    etag(&mut v, "tCAA");
    v.extend_from_slice(&eunco(&body));
    assert_eq!(read(&v).unwrap_err(), (ReadError::UnknownLayerTag(0x54474C58)));
}

#[test]
fn bad_shape_magic() {
    let mut body = Vec::new();
    ele16(&mut body, 0x0100);
    ele32(&mut body, 1);
    ele32(&mut body, 3); // shape word must be two
    etag(&mut body, "TGLY");
    let mut v = eprologue();
    etag(&mut v, "tCAA");
    v.extend_from_slice(&eunco(&body));
    assert_eq!(read(&v).unwrap_err(), (ReadError::UnknownMystery(Mystery::ShapeMagic(3))));
}

#[test]
fn unknown_layer_kind() {
    let mut v = eprologue();
    etag(&mut v, "tCAA");
    v.extend_from_slice(&eunco(&[0x02, 0x00]));
    assert_eq!(read(&v).unwrap_err(), (ReadError::UnknownMystery(Mystery::LayerKind(2))));
}

#[test]
fn unknown_shape_type() {
    let mut shape = Vec::new();
    ele16(&mut shape, 5);
    ele32(&mut shape, 0);
    let mut body = Vec::new();
    ele16(&mut body, 0x0100);
    ele32(&mut body, 1);
    ele32(&mut body, 2);
    etag(&mut body, "TGLY");
    ele32(&mut body, shape.len() as u32);
    body.extend_from_slice(&shape);
    let mut v = eprologue();
    etag(&mut v, "tCAA");
    v.extend_from_slice(&eunco(&body));
    assert_eq!(read(&v).unwrap_err(), (ReadError::UnknownShapeType(5)));
}

#[test]
fn bad_component_frame_tag() {
    let mut shape = Vec::new();
    ele16(&mut shape, 2);
    ele32(&mut shape, 1);
    etag(&mut shape, "TGVX");
    ele32(&mut shape, 0);
    let mut body = Vec::new();
    ele16(&mut body, 0x0100);
    ele32(&mut body, 1);
    ele32(&mut body, 2);
    etag(&mut body, "TGLY");
    ele32(&mut body, shape.len() as u32);
    body.extend_from_slice(&shape);
    let mut v = eprologue();
    etag(&mut v, "tCAA");
    v.extend_from_slice(&eunco(&body));
    assert_eq!(read(&v).unwrap_err(), (ReadError::UnknownMystery(Mystery::ComponentFrameTag(0x54475658))));
}

#[test]
fn unknown_component_tag() {
    let mut comp = Vec::new();
    etag(&mut comp, "XGSD");
    assert_eq!(
        read(&single_component_file(&comp)).unwrap_err(),
        (ReadError::UnknownComponentTag(0x58475344)),
    );
}

#[test]
fn unknown_component_type() {
    let mut comp = Vec::new();
    etag(&mut comp, "TGSD");
    ele32(&mut comp, 1);
    comp.push(9);
    comp.push(1);
    assert_eq!(read(&single_component_file(&comp)).unwrap_err(), (ReadError::UnknownComponentType(9)));
}

#[test]
fn bad_fill_flag() {
    let mut comp = Vec::new();
    etag(&mut comp, "TGSD");
    ele32(&mut comp, 2);
    comp.push(0);
    comp.push(2); // neither zero nor one
    comp.push(1);
    assert_eq!(
        read(&single_component_file(&comp)).unwrap_err(),
        (ReadError::UnknownMystery(Mystery::TgsdFillFlag(2))),
    );
}

#[test]
fn bad_continuation_byte() {
    let mut comp = Vec::new();
    etag(&mut comp, "TGSD");
    ele32(&mut comp, 1);
    comp.push(2); // stroke
    comp.push(5); // continuation must be zero or one
    assert_eq!(
        read(&single_component_file(&comp)).unwrap_err(),
        (ReadError::UnknownMystery(Mystery::TgsdContinuation(5))),
    );
}

#[test]
fn bad_curve_run() {
    let mut path = Vec::new();
    ele32(&mut path, 1);
    path.push(0b0000_0010); // one zero, then a one bit: no such opcode
    let mut comp = Vec::new();
    etag(&mut comp, "TGBP");
    ele32(&mut comp, path.len() as u32);
    comp.extend_from_slice(&path);
    assert_eq!(
        read(&single_component_file(&comp)).unwrap_err(),
        (ReadError::UnknownMystery(Mystery::CurveRun(1))),
    );
}

#[test]
fn curve_overshoot() {
    let mut path = Vec::new();
    ele32(&mut path, 2);
    path.push(0b0000_0100); // a cubic opcode, but only two points remain
    let mut comp = Vec::new();
    etag(&mut comp, "TGBP");
    ele32(&mut comp, path.len() as u32);
    comp.extend_from_slice(&path);
    assert_eq!(
        read(&single_component_file(&comp)).unwrap_err(),
        (ReadError::UnknownMystery(Mystery::CurveOvershoot)),
    );
}

#[test]
fn truncated_path_points_are_io() {
    let mut path = Vec::new();
    ele32(&mut path, 1);
    path.push(0b0000_0001); // one line, but no point data follows
    let mut comp = Vec::new();
    etag(&mut comp, "TGBP");
    ele32(&mut comp, path.len() as u32);
    comp.extend_from_slice(&path);
    assert_eq!(read(&single_component_file(&comp)).unwrap_err(), (ReadError::Io));
}

#[test]
fn bad_tgtb_kind() {
    let mut comp = Vec::new();
    etag(&mut comp, "tGTB");
    ele32(&mut comp, 1);
    comp.push(2);
    assert_eq!(
        read(&single_component_file(&comp)).unwrap_err(),
        (ReadError::UnknownMystery(Mystery::TgtbKind(2))),
    );
}

#[test]
fn bad_tgtb_use_header() {
    let mut tgtb = vec![0x00, 0xFF, 0xFF, 0xFF, 0x7F];
    tgtb.extend_from_slice(&[0u8; 24]);
    let mut comp = Vec::new();
    etag(&mut comp, "tGTB");
    ele32(&mut comp, tgtb.len() as u32);
    comp.extend_from_slice(&tgtb);
    assert_eq!(
        read(&single_component_file(&comp)).unwrap_err(),
        (ReadError::UnknownMystery(Mystery::TgtbUseHeader(0x7FFF_FFFF))),
    );
}

#[test]
fn bad_tgtb_gap() {
    let mut tgtb = vec![0x00, 0xFF, 0xFF, 0xFF, 0xFF];
    tgtb.extend_from_slice(&0u32.to_le_bytes());
    tgtb.extend_from_slice(&1u64.to_le_bytes()); // the gap must be zero
    tgtb.extend_from_slice(&0u32.to_le_bytes());
    tgtb.extend_from_slice(&0u64.to_le_bytes());
    let mut comp = Vec::new();
    etag(&mut comp, "tGTB");
    ele32(&mut comp, tgtb.len() as u32);
    comp.extend_from_slice(&tgtb);
    assert_eq!(
        read(&single_component_file(&comp)).unwrap_err(),
        (ReadError::UnknownMystery(Mystery::TgtbGap(1))),
    );
}

#[test]
fn bad_tgtb_trailer() {
    let mut tgtb = vec![0x01, 0x00, 0xFF, 0xFF, 0xFF, 0xCF, 0x00];
    ele32(&mut tgtb, 0); // no points
    tgtb.extend_from_slice(&[0, 0, 0, 0, 1]); // trailer must be five zeros
    tgtb.extend_from_slice(&[0u8; 24]);
    let mut comp = Vec::new();
    etag(&mut comp, "tGTB");
    ele32(&mut comp, tgtb.len() as u32);
    comp.extend_from_slice(&tgtb);
    assert_eq!(
        read(&single_component_file(&comp)).unwrap_err(),
        (ReadError::UnknownMystery(Mystery::TgtbTrailer(0x01_0000_0000))),
    );
}

#[test]
fn bad_tgtb_define_header() {
    let mut tgtb = vec![0x01, 0x00, 0xFF, 0xFF, 0xFF, 0xCE, 0x00];
    tgtb.extend_from_slice(&[0u8; 33]);
    let mut comp = Vec::new();
    etag(&mut comp, "tGTB");
    ele32(&mut comp, tgtb.len() as u32);
    comp.extend_from_slice(&tgtb);
    assert_eq!(
        read(&single_component_file(&comp)).unwrap_err(),
        (ReadError::UnknownMystery(Mystery::TgtbDefineHeader(0xCEFF_FFFF))),
    );
}

#[test]
fn mutated_layer_trailer() {
    // P6: changing one sentinel byte makes the vector layer fatal
    let mut body = Vec::new();
    ele16(&mut body, 0x0100);
    ele32(&mut body, 0); // no shapes
    body.extend_from_slice(&[0x00, 0x54, 0x47, 0x52, 0x56, 0x08, 0x00, 0x00, 0x00, 0x3D, 0xDF, 0x4F, 0x8E]);
    let mut v = eprologue();
    etag(&mut v, "tCAA");
    v.extend_from_slice(&eunco(&body));
    assert_eq!(read(&v).unwrap_err(), (ReadError::UnknownMystery(Mystery::LayerTrailer)));
}

#[test]
fn intact_layer_trailer() {
    let mut body = Vec::new();
    ele16(&mut body, 0x0100);
    ele32(&mut body, 0);
    body.extend_from_slice(&[0x00, 0x54, 0x47, 0x52, 0x56, 0x08, 0x00, 0x00, 0x00, 0x3D, 0xDF, 0x4F, 0x8D]);
    let mut v = eprologue();
    etag(&mut v, "tCAA");
    v.extend_from_slice(&eunco(&body));
    assert!(read(&v).is_ok());
}

#[test]
fn bad_palette_start() {
    let mut body = Vec::new();
    ele32(&mut body, 0);
    ele32(&mut body, 0x78);
    let mut v = eprologue();
    etag(&mut v, "TPAL");
    v.extend_from_slice(&eunco(&body));
    assert_eq!(read(&v).unwrap_err(), (ReadError::UnknownMystery(Mystery::PaletteStart(0x78))));
}

#[test]
fn bad_palette_color_header() {
    let mut body = Vec::new();
    ele32(&mut body, 1);
    ele32(&mut body, 0x79);
    ele16(&mut body, 1);
    let mut v = eprologue();
    etag(&mut v, "TPAL");
    v.extend_from_slice(&eunco(&body));
    assert_eq!(read(&v).unwrap_err(), (ReadError::UnknownMystery(Mystery::PaletteColorHeader(1))));
}

#[test]
fn bad_tcsc_length() {
    let mut body = Vec::new();
    ele32(&mut body, 1);
    ele32(&mut body, 0x79);
    ele16(&mut body, 0);
    etag(&mut body, "TCSC");
    ele32(&mut body, 5);
    let mut v = eprologue();
    etag(&mut v, "TPAL");
    v.extend_from_slice(&eunco(&body));
    assert_eq!(read(&v).unwrap_err(), (ReadError::UnknownMystery(Mystery::TcscLen(5))));
}

#[test]
fn unknown_palette_tag() {
    let mut body = Vec::new();
    ele32(&mut body, 1);
    ele32(&mut body, 0x79);
    ele16(&mut body, 0);
    etag(&mut body, "TCXX");
    let mut v = eprologue();
    etag(&mut v, "TPAL");
    v.extend_from_slice(&eunco(&body));
    assert_eq!(read(&v).unwrap_err(), (ReadError::UnknownPaletteTag(0x54435858)));
}

#[test]
fn invalid_utf16_color_name() {
    let mut tcid = Vec::new();
    ele32(&mut tcid, 1);
    ele16(&mut tcid, 0xD800); // a lone surrogate
    tcid.extend_from_slice(&0u64.to_le_bytes());
    ele32(&mut tcid, 0);
    let mut body = Vec::new();
    ele32(&mut body, 1);
    ele32(&mut body, 0x79);
    ele16(&mut body, 0);
    etag(&mut body, "TCID");
    ele32(&mut body, tcid.len() as u32);
    body.extend_from_slice(&tcid);
    body.extend_from_slice(&[0x79, 0x00, 0x00, 0x00]);
    let mut v = eprologue();
    etag(&mut v, "TPAL");
    v.extend_from_slice(&eunco(&body));
    assert_eq!(
        read(&v).unwrap_err(),
        (ReadError::Utf16Error(ErrorLocation::PaletteColorName)),
    );
}

#[test]
fn missing_nul_terminator() {
    let mut body = vec![0u8; 13];
    body.extend_from_slice(b"device-without-end");
    let mut v = eprologue();
    etag(&mut v, "TVCI");
    v.extend_from_slice(&eunco(&body));
    assert_eq!(read(&v).unwrap_err(), (ReadError::CStringError(ErrorLocation::TvciDevice)));
}

#[test]
fn invalid_utf8_certificate() {
    let mut payload = Vec::new();
    ele32(&mut payload, 1);
    ele32(&mut payload, 2);
    payload.extend_from_slice(&[0xFF, 0xFE]);
    let mut v = eprologue();
    etag(&mut v, "CERT");
    ele32(&mut v, payload.len() as u32);
    v.extend_from_slice(&payload);
    assert_eq!(read(&v).unwrap_err(), (ReadError::Utf8Error(ErrorLocation::Certificate)));
}

#[test]
fn bad_cert_header() {
    let mut payload = Vec::new();
    ele32(&mut payload, 2);
    ele32(&mut payload, 0);
    let mut v = eprologue();
    etag(&mut v, "CERT");
    ele32(&mut v, payload.len() as u32);
    v.extend_from_slice(&payload);
    assert_eq!(read(&v).unwrap_err(), (ReadError::UnknownMystery(Mystery::CertHeader(2))));
}

#[test]
fn bad_crea_value() {
    let mut v = eprologue();
    etag(&mut v, "CREA");
    v.extend_from_slice(&eunco(&3u32.to_le_bytes()));
    assert_eq!(read(&v).unwrap_err(), (ReadError::UnknownMystery(Mystery::CreaValue(3))));
}

#[test]
fn zlib_length_mismatch() {
    let body = [1u8, 2, 3, 4];
    let mut encoder = libflate::zlib::Encoder::new(Vec::new()).unwrap();
    std::io::Write::write_all(&mut encoder, &body).unwrap();
    let stream = encoder.finish().into_result().unwrap();
    let mut v = eprologue();
    etag(&mut v, "tCAA");
    etag(&mut v, "ZLIB");
    ele32(&mut v, stream.len() as u32 + 4);
    ele32(&mut v, 5); // declares one byte more than the stream inflates to
    v.extend_from_slice(&stream);
    assert_eq!(read(&v).unwrap_err(), (ReadError::UnknownMystery(Mystery::ZlibLength(5))));
}

#[test]
fn corrupt_zlib_stream_is_io() {
    let mut v = eprologue();
    etag(&mut v, "tCAA");
    etag(&mut v, "ZLIB");
    ele32(&mut v, 8);
    ele32(&mut v, 2);
    v.extend_from_slice(&[0x00, 0x01, 0x02, 0x03]);
    assert_eq!(read(&v).unwrap_err(), (ReadError::Io));
}

#[test]
fn nesting_depth_is_bounded() {
    // main-data records nested past the supported depth are rejected
    let mut inner: Vec<u8> = Vec::new();
    for _ in 0..65 {
        let mut outer = Vec::new();
        etag(&mut outer, "\0\0\0\0");
        outer.extend_from_slice(&eunco(&inner));
        inner = outer;
    }
    let mut v = eprologue();
    v.extend_from_slice(&inner);
    assert_eq!(read(&v).unwrap_err(), (ReadError::UnknownMystery(Mystery::Depth)));
}

#[test]
fn truncated_frames_never_overread() {
    // P3 exercised: truncating a well-formed file at every length must fail
    // cleanly or succeed on a prefix, never read out of bounds
    let mut body = Vec::new();
    ele16(&mut body, 0x0100);
    ele32(&mut body, 0);
    body.extend_from_slice(&[0x00, 0x54, 0x47, 0x52, 0x56, 0x08, 0x00, 0x00, 0x00, 0x3D, 0xDF, 0x4F, 0x8D]);
    let mut v = eprologue();
    etag(&mut v, "tCAA");
    v.extend_from_slice(&eunco(&body));
    for cut in 0..v.len() {
        let prefix: Vec<u8> = v[..cut].to_vec();
        let _ = read(&prefix);
    }
}

#[test]
fn partial_top_level_tag_is_io() {
    let mut v = eprologue();
    etag(&mut v, "ENDT");
    v.push(0x45); // a lone byte where a fresh tag should start
    assert_eq!(read(&v).unwrap_err(), (ReadError::Io));
}

#[test]
fn truncated_unco_is_io() {
    let mut v = eprologue();
    etag(&mut v, "tCAA");
    etag(&mut v, "UNCO");
    ele32(&mut v, 10);
    v.extend_from_slice(&[0x00, 0x00]); // two of the ten declared bytes
    assert_eq!(read(&v).unwrap_err(), ReadError::Io);
}

#[test]
fn layer_bytes_after_sentinel_are_fatal() {
    // the sentinel must end the vector layer buffer
    let mut body = Vec::new();
    ele16(&mut body, 0x0100);
    ele32(&mut body, 0);
    body.extend_from_slice(&[0x00, 0x54, 0x47, 0x52, 0x56, 0x08, 0x00, 0x00, 0x00, 0x3D, 0xDF, 0x4F, 0x8D]);
    body.push(0x00);
    let mut v = eprologue();
    etag(&mut v, "tCAA");
    v.extend_from_slice(&eunco(&body));
    assert_eq!(read(&v).unwrap_err(), ReadError::UnknownMystery(Mystery::LayerTrailer));
}
