//! Clock readings as whole milliseconds.
//!
//! A log writes its clock readings as decimal numbers, and the row parser
//! hands each one over as the bit pattern of a binary64 number. A reading
//! counts here only if it is a whole number of milliseconds.

use vstd::prelude::*;

verus! {

/// The biased exponent field of a binary64 bit pattern.
pub open spec fn exponent_field(bits: u64) -> u64 {
    (bits >> 52) & 0x7ff
}

/// The fraction field of a binary64 bit pattern.
pub open spec fn fraction_field(bits: u64) -> u64 {
    bits & 0x000f_ffff_ffff_ffff
}

/// Whether the sign bit of a binary64 bit pattern is set.
pub open spec fn sign_set(bits: u64) -> bool {
    (bits >> 63) == 1
}

/// The significand of a normal binary64 number: the fraction with the
/// implicit leading one.
pub open spec fn significand(bits: u64) -> u64 {
    fraction_field(bits) | 0x0010_0000_0000_0000
}

/// The magnitude of the number that `bits` encodes, where that number is
/// whole and below two to the sixty-third.
///
/// A normal number is its significand times two to the power of its
/// exponent field less 1075. Zero is whole; a subnormal number is not; nor
/// is an infinity or a NaN.
pub open spec fn whole_magnitude(bits: u64) -> Option<u64> {
    let e = exponent_field(bits);
    let m = significand(bits);
    if e == 0 {
        if fraction_field(bits) == 0 {
            Some(0u64)
        } else {
            None
        }
    } else if e == 0x7ff {
        None
    } else if e >= 1075 {
        if e <= 1085 {
            Some(m << ((e - 1075) as u64))
        } else {
            None
        }
    } else if e >= 1023 && m & ((((1u64 << ((1075 - e) as u64))) - 1) as u64) == 0 {
        Some(m >> ((1075 - e) as u64))
    } else {
        None
    }
}

/// The whole number of milliseconds that a binary64 bit pattern encodes,
/// if it encodes one.
pub open spec fn whole_millis(bits: u64) -> Option<i64> {
    match whole_magnitude(bits) {
        Some(magnitude) => if sign_set(bits) {
            Some((-(magnitude as int)) as i64)
        } else {
            Some(magnitude as i64)
        },
        None => None,
    }
}

/// A whole magnitude stays below two to the sixty-third.
pub proof fn lemma_whole_magnitude_bound(bits: u64)
    ensures
        whole_magnitude(bits) matches Some(magnitude) ==> magnitude < 0x8000_0000_0000_0000,
{
    let e = exponent_field(bits);
    let m = significand(bits);
    assert(m < 0x0020_0000_0000_0000) by (bit_vector)
        requires
            m == (bits & 0x000f_ffff_ffff_ffff) | 0x0010_0000_0000_0000,
    ;
    if e >= 1075 && e <= 1085 {
        let s = (e - 1075) as u64;
        assert((m << s) < 0x8000_0000_0000_0000) by (bit_vector)
            requires
                m < 0x0020_0000_0000_0000,
                s <= 10,
        ;
    } else if e >= 1023 && e < 1075 {
        let s = (1075 - e) as u64;
        assert((m >> s) < 0x8000_0000_0000_0000) by (bit_vector)
            requires
                m < 0x0020_0000_0000_0000,
        ;
    }
}

/// Reads a binary64 bit pattern as a whole number of milliseconds.
pub fn millis_from_bits(bits: u64) -> (r: Option<i64>)
    ensures
        r == whole_millis(bits),
{
    let e: u64 = (bits >> 52) & 0x7ff;
    let fraction: u64 = bits & 0x000f_ffff_ffff_ffff;
    let negative: bool = (bits >> 63) == 1;
    let m: u64 = fraction | 0x0010_0000_0000_0000;
    proof {
        lemma_whole_magnitude_bound(bits);
        assert(e <= 0x7ff) by (bit_vector)
            requires
                e == (bits >> 52) & 0x7ff,
        ;
    }
    let magnitude: u64 = if e == 0 {
        if fraction == 0 {
            0
        } else {
            return None;
        }
    } else if e == 0x7ff {
        return None;
    } else if e >= 1075 {
        if e <= 1085 {
            m << (e - 1075)
        } else {
            return None;
        }
    } else if e >= 1023 {
        let shift: u64 = 1075 - e;
        assert((1u64 << shift) >= 1) by (bit_vector)
            requires
                shift <= 52,
        ;
        if m & ((1u64 << shift) - 1) == 0 {
            m >> shift
        } else {
            return None;
        }
    } else {
        return None;
    };
    if negative {
        Some(-(magnitude as i64))
    } else {
        Some(magnitude as i64)
    }
}

} // verus!
