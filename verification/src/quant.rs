//! The 32-bit fixed-point coordinate format of the authoring tool.
//!
//! A raw word holds a sign bit, an eight-bit exponent `e` biased by `0x7F`,
//! and a 23-bit fractional field left-justified to `e - 0x79` bits. The
//! fractional resolution is the domain quantum `1/64`: a non-zero word stands
//! for `(-1)^neg * (2^(e - 0x7F) + frac / 64)`. Bits of the fractional field
//! below the quantum carry no value and are dropped on decode.

use vstd::prelude::*;

verus! {

/// A decoded fixed-point coordinate: sign, biased exponent and the fractional
/// integer in units of the quantum. The canonical zero is all three at rest.
#[derive(Debug, Clone, Copy, PartialEq, Eq, Structural)]
pub struct TbQuant {
    pub neg: bool,
    pub exp: u8,
    pub frac: u32,
}

/// How many bits of the 23-bit fractional field carry value for exponent
/// `exp`: `e - 0x79`, clamped to `0..=23`.
pub open spec fn spec_frac_width(exp: u8) -> u32 {
    if exp <= 0x79 {
        0
    } else if exp >= 0x90 {
        23
    } else {
        ((exp - 0x79) as u8) as u32
    }
}

/// The mask of the low `k` bits.
pub open spec fn quantum_mask(k: u32) -> u32
    recommends
        k <= 23,
{
    ((1u32 << k) - 1) as u32
}

/// Decode a raw 32-bit word into its fixed-point triple.
pub open spec fn spec_decode(raw: u32) -> TbQuant {
    if raw == 0 {
        TbQuant { neg: false, exp: 0, frac: 0 }
    } else {
        let exp = ((raw >> 23) & 0xFF) as u8;
        let k = spec_frac_width(exp);
        TbQuant {
            neg: raw & 0x8000_0000 != 0,
            exp,
            frac: (raw & 0x007F_FFFF) >> ((23 - k) as u32),
        }
    }
}

/// Encode a fixed-point triple back into a raw 32-bit word. Fractional bits
/// beyond the width of the exponent carry no value and are dropped.
pub open spec fn spec_encode(q: TbQuant) -> u32 {
    if !q.neg && q.exp == 0 && q.frac == 0 {
        0
    } else {
        let k = spec_frac_width(q.exp);
        let sign: u32 = if q.neg {
            0x8000_0000
        } else {
            0
        };
        sign | ((q.exp as u32) << 23) | ((q.frac & quantum_mask(k)) << ((23 - k) as u32))
    }
}

/// A triple is valid when its fractional integer fits the width its exponent
/// allows. Every decoded triple is valid.
pub open spec fn spec_valid(q: TbQuant) -> bool {
    q.frac < (1u32 << spec_frac_width(q.exp))
}

/// A raw word carries no sub-quantum noise: every bit of the fractional field
/// below the quantum is zero.
pub open spec fn spec_canonical(raw: u32) -> bool {
    raw == 0 || raw & quantum_mask(
        (23 - spec_frac_width(((raw >> 23) & 0xFF) as u8)) as u32,
    ) == 0
}

proof fn lemma_encode_bits(n: bool, e: u8, f: u32)
    by (bit_vector)
    requires
        f < (1u32 << spec_frac_width(e)),
        n || e != 0 || f != 0,
    ensures
        ({
            let k = spec_frac_width(e);
            let raw = (if n {
                0x8000_0000u32
            } else {
                0
            }) | ((e as u32) << 23) | ((f & quantum_mask(k)) << ((23 - k) as u32));
            raw != 0 && (raw & 0x8000_0000 != 0) == n && ((raw >> 23) & 0xFF) as u8 == e && (raw
                & 0x007F_FFFF) >> ((23 - spec_frac_width(((raw >> 23) & 0xFF) as u8)) as u32) == f
        }),
{
}

proof fn lemma_decode_bits(raw: u32)
    by (bit_vector)
    requires
        raw != 0,
        raw & quantum_mask((23 - spec_frac_width(((raw >> 23) & 0xFF) as u8)) as u32) == 0,
    ensures
        ({
            let e = ((raw >> 23) & 0xFF) as u8;
            let k = spec_frac_width(e);
            let f = (raw & 0x007F_FFFF) >> ((23 - k) as u32);
            let n = raw & 0x8000_0000 != 0;
            (n || e != 0 || f != 0) && (if n {
                0x8000_0000u32
            } else {
                0
            }) | ((e as u32) << 23) | ((f & quantum_mask(k)) << ((23 - k) as u32)) == raw
        }),
{
}

proof fn lemma_decode_frac_bound(raw: u32)
    by (bit_vector)
    ensures
        (raw & 0x007F_FFFF) >> ((23 - spec_frac_width(((raw >> 23) & 0xFF) as u8)) as u32) < (1u32
            << spec_frac_width(((raw >> 23) & 0xFF) as u8)),
{
}

/// Every decoded triple is valid: its fractional integer fits the width that
/// its exponent allows.
pub proof fn lemma_decode_valid(raw: u32)
    ensures
        spec_valid(spec_decode(raw)),
{
    if raw == 0 {
        assert(0u32 < (1u32 << 0u32)) by (bit_vector);
    } else {
        lemma_decode_frac_bound(raw);
    }
}

/// Decoding inverts encoding on every valid triple.
pub proof fn lemma_tbquant_decode_encode(q: TbQuant)
    requires
        spec_valid(q),
    ensures
        spec_decode(spec_encode(q)) == q,
{
    if !q.neg && q.exp == 0 && q.frac == 0 {
    } else {
        lemma_encode_bits(q.neg, q.exp, q.frac);
    }
}

/// Encoding inverts decoding on every raw word without sub-quantum noise.
pub proof fn lemma_tbquant_encode_decode(raw: u32)
    requires
        spec_canonical(raw),
    ensures
        spec_encode(spec_decode(raw)) == raw,
{
    if raw != 0 {
        lemma_decode_bits(raw);
    }
}

/// Decoding normalizes every raw word: re-encoding a decoded word and
/// decoding again changes nothing, noise or not.
pub proof fn lemma_tbquant_normalize(raw: u32)
    ensures
        spec_decode(spec_encode(spec_decode(raw))) == spec_decode(raw),
{
    lemma_decode_valid(raw);
    lemma_tbquant_decode_encode(spec_decode(raw));
}

/// How many bits of the fractional field carry value for this exponent.
fn frac_width(exp: u8) -> (k: u32)
    ensures
        k == spec_frac_width(exp),
        k <= 23,
{
    if exp <= 0x79 {
        0
    } else if exp >= 0x90 {
        23
    } else {
        (exp - 0x79) as u32
    }
}

/// Decode a raw 32-bit word into its fixed-point triple.
pub fn decode(raw: u32) -> (q: TbQuant)
    ensures
        q == spec_decode(raw),
{
    if raw == 0 {
        TbQuant { neg: false, exp: 0, frac: 0 }
    } else {
        let exp: u8 = ((raw >> 23) & 0xFF) as u8;
        let k: u32 = frac_width(exp);
        TbQuant { neg: raw & 0x8000_0000 != 0, exp, frac: (raw & 0x007F_FFFF) >> (23 - k) }
    }
}

/// Encode a fixed-point triple back into a raw 32-bit word.
pub fn encode(q: TbQuant) -> (raw: u32)
    ensures
        raw == spec_encode(q),
{
    if !q.neg && q.exp == 0 && q.frac == 0 {
        0
    } else {
        let k: u32 = frac_width(q.exp);
        let mask: u32 = mask_exec(k);
        let sign: u32 = if q.neg {
            0x8000_0000
        } else {
            0
        };
        sign | ((q.exp as u32) << 23) | ((q.frac & mask) << (23 - k))
    }
}

fn mask_exec(k: u32) -> (m: u32)
    requires
        k <= 23,
    ensures
        m == quantum_mask(k),
{
    proof {
        assert(k <= 23 ==> (1u32 << k) >= 1) by (bit_vector);
    }
    (1u32 << k) - 1
}

} // verus!
