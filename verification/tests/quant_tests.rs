use tvg::quant::{decode, encode, TbQuant};

fn round_trips_exactly(raw: u32) -> bool {
    encode(decode(raw)) == raw
}

#[test]
fn decode_zero_is_canonical() {
    assert_eq!(decode(0), TbQuant { neg: false, exp: 0, frac: 0 });
}

#[test]
fn decode_one() {
    // 1.0: exponent 0x7F, no fraction
    assert_eq!(decode(0x3F80_0000), TbQuant { neg: false, exp: 0x7F, frac: 0 });
}

#[test]
fn decode_negative_corner() {
    // sign bit alone: exponent 0, fraction 0, but not the canonical zero
    assert_eq!(decode(0x8000_0000), TbQuant { neg: true, exp: 0, frac: 0 });
}

#[test]
fn decode_known_word() {
    // -(2^10 + 16344/64): exponent 0x89 gives sixteen fraction bits
    let q = decode(0xC49F_EC00);
    assert_eq!(q, TbQuant { neg: true, exp: 0x89, frac: 0x3FD8 });
}

#[test]
fn encode_known_word() {
    assert_eq!(encode(TbQuant { neg: true, exp: 0x89, frac: 0x3FD8 }), 0xC49F_EC00);
}

#[test]
fn round_trip_representative_raws() {
    // raw words without sub-quantum noise must survive decode/encode exactly
    let raws: Vec<u32> = vec![
        0x0000_0000,
        0x8000_0000,
        0x3F80_0000,
        0xBF80_0000,
        0xC49F_EC00,
        0x4000_0000,
        0x7F80_0000,
        0xFF80_0000,
        0x0080_0000,
        0x4B80_0001, // exponent 0x97: every fraction bit is above the quantum
        0x7FFF_FFFF,
        0xFFFF_FFFF,
    ];
    for raw in raws {
        assert!(round_trips_exactly(raw), "raw {raw:#010x} did not round-trip");
    }
}

#[test]
fn normalization_is_idempotent() {
    // with or without noise, decoding normalizes: a second pass changes nothing
    let raws: Vec<u32> = vec![
        0x0000_0000,
        0x0000_0001, // pure sub-quantum noise collapses to zero exponent form
        0x3F80_0001, // noise below the quantum of exponent 0x7F
        0x3FFF_FFFF,
        0xC49F_EC7F,
        0x8000_0001,
        0xDEAD_BEEF,
        0x1234_5678,
    ];
    for raw in raws {
        let q = decode(raw);
        assert_eq!(decode(encode(q)), q, "raw {raw:#010x} did not normalize");
    }
}

#[test]
fn noise_is_dropped() {
    // 0x3F800001 carries a fraction bit below the quantum: same value as 1.0
    assert_eq!(decode(0x3F80_0001), decode(0x3F80_0000));
    assert_eq!(encode(decode(0x3F80_0001)), 0x3F80_0000);
}
