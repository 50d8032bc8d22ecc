//! Reading a custom pixel pattern written `R,G,B[:count[:disabled]];...`.
use vstd::prelude::*;
use crate::models::Pixel;
use crate::text::{chars_of, parse_int, parse_int_spec, pieces_view, split_chars, split_spec, trim_chars, trim_spec};
use crate::utils::{i32_of, I32_MAX, I32_MIN};

verus! {

/// Why a pixel pattern was rejected.
#[derive(Debug, Clone, Copy, PartialEq, Eq, Structural)]
pub enum PixelError {
    /// A colour component, count or flag is not a number of its type.
    InvalidNumber,
    /// A pixel does not have exactly three colour components.
    ComponentCount,
    /// The disabled flag is a number other than 0 or 1.
    DisabledFlag,
}

impl PixelError {
    /// A sentence that describes the error.
    pub fn description(&self) -> (r: String)
        ensures
            *self == PixelError::InvalidNumber ==> r@ == "invalid number in pixel"@,
            *self == PixelError::ComponentCount ==> r@
                == "Each pixel must have exactly 3 values (R,G,B)"@,
            *self == PixelError::DisabledFlag ==> r@ == "Disabled value must be 0 or 1"@,
    {
        match self {
            PixelError::InvalidNumber => "invalid number in pixel".to_string(),
            PixelError::ComponentCount => "Each pixel must have exactly 3 values (R,G,B)".to_string(),
            PixelError::DisabledFlag => "Disabled value must be 0 or 1".to_string(),
        }
    }
}

/// A colour component: a `u8` written in decimal, white space around it
/// allowed.
pub open spec fn byte_of(s: Seq<char>) -> Option<int> {
    parse_int_spec(trim_spec(s), 0, 255)
}

/// What one `;`-separated piece of a pattern gives, as the pixel at `index`.
pub open spec fn pixel_spec(seg: Seq<char>, index: int) -> Result<Pixel, PixelError> {
    let parts = split_spec(seg, ':');
    let comps = split_spec(parts[0], ',');
    if !(forall|k: int| 0 <= k < comps.len() ==> (#[trigger] byte_of(comps[k])) is Some) {
        Err(PixelError::InvalidNumber)
    } else if comps.len() != 3 {
        Err(PixelError::ComponentCount)
    } else {
        let count = if parts.len() > 1 {
            i32_of(trim_spec(parts[1]))
        } else {
            Some(1)
        };
        let flag = if parts.len() > 2 {
            i32_of(trim_spec(parts[2]))
        } else {
            Some(0)
        };
        if count is None || flag is None {
            Err(PixelError::InvalidNumber)
        } else if flag->0 != 0 && flag->0 != 1 {
            Err(PixelError::DisabledFlag)
        } else {
            Ok(
                Pixel {
                    index: index as i32,
                    count: count->0 as i32,
                    color: (byte_of(comps[0])->0 * 65536 + byte_of(comps[1])->0 * 256 + byte_of(
                        comps[2],
                    )->0) as i32,
                    disable: flag->0 == 1,
                },
            )
        }
    }
}

/// The pixels of the first `n` pieces, or the error of the first piece
/// that is rejected.
pub open spec fn pixels_upto(segs: Seq<Seq<char>>, n: int) -> Result<Seq<Pixel>, PixelError>
    decreases n,
{
    if n <= 0 {
        Ok(seq![])
    } else {
        match pixels_upto(segs, n - 1) {
            Err(e) => Err(e),
            Ok(ps) => match pixel_spec(segs[n - 1], n - 1) {
                Err(e) => Err(e),
                Ok(p) => Ok(ps.push(p)),
            },
        }
    }
}

/// The pixels of a whole pattern: one per `;`-separated piece, numbered from 0.
pub open spec fn pixels_spec(s: Seq<char>) -> Result<Seq<Pixel>, PixelError> {
    let segs = split_spec(s, ';');
    pixels_upto(segs, segs.len() as int)
}

proof fn lemma_split_len(s: Seq<char>, d: char)
    ensures
        1 <= split_spec(s, d).len() <= s.len() + 1,
    decreases s.len(),
{
    if s.len() > 0 {
        lemma_split_len(s.drop_last(), d);
    }
}

proof fn lemma_error_persists(segs: Seq<Seq<char>>, n: int, m: int, e: PixelError)
    requires
        0 <= n <= m,
        pixels_upto(segs, n) == Err::<Seq<Pixel>, PixelError>(e),
    ensures
        pixels_upto(segs, m) == Err::<Seq<Pixel>, PixelError>(e),
    decreases m - n,
{
    if n < m {
        lemma_error_persists(segs, n + 1, m, e);
    }
}

/// Reads one piece of a pattern as the pixel at `index`.
fn parse_pixel(seg: &Vec<char>, index: i32) -> (r: Result<Pixel, PixelError>)
    ensures
        r == pixel_spec(seg@, index as int),
{
    let parts = split_chars(seg, ':');
    proof {
        lemma_split_len(seg@, ':');
    }
    assert(parts@[0]@ == split_spec(seg@, ':')[0]);
    let comps = split_chars(&parts[0], ',');
    let ghost cv = pieces_view(comps@);
    assert(cv == split_spec(split_spec(seg@, ':')[0], ','));
    let mut rgb: Vec<i64> = Vec::new();
    let mut k: usize = 0;
    while k < comps.len()
        invariant
            k <= comps@.len(),
            cv == pieces_view(comps@),
            cv == split_spec(split_spec(seg@, ':')[0], ','),
            rgb@.len() == k,
            forall|j: int| 0 <= j < k ==> byte_of(#[trigger] cv[j]) == Some(rgb@[j] as int),
        decreases comps.len() - k,
    {
        assert(comps@[k as int]@ == cv[k as int]);
        match parse_int(&trim_chars(&comps[k]), 0, 255) {
            Some(v) => rgb.push(v),
            None => {
                assert(byte_of(cv[k as int]) is None);
                return Err(PixelError::InvalidNumber);
            },
        }
        k = k + 1;
    }
    assert(forall|j: int| 0 <= j < cv.len() ==> (#[trigger] byte_of(cv[j])) is Some);
    if comps.len() != 3 {
        return Err(PixelError::ComponentCount);
    }
    let count: i64 = if parts.len() > 1 {
        assert(parts@[1]@ == split_spec(seg@, ':')[1]);
        match parse_int(&trim_chars(&parts[1]), I32_MIN, I32_MAX) {
            Some(c) => c,
            None => {
                return Err(PixelError::InvalidNumber);
            },
        }
    } else {
        1
    };
    let flag: i64 = if parts.len() > 2 {
        assert(parts@[2]@ == split_spec(seg@, ':')[2]);
        match parse_int(&trim_chars(&parts[2]), I32_MIN, I32_MAX) {
            Some(f) => f,
            None => {
                return Err(PixelError::InvalidNumber);
            },
        }
    } else {
        0
    };
    if flag != 0 && flag != 1 {
        return Err(PixelError::DisabledFlag);
    }
    assert(byte_of(cv[0]) == Some(rgb@[0] as int));
    assert(byte_of(cv[1]) == Some(rgb@[1] as int));
    assert(byte_of(cv[2]) == Some(rgb@[2] as int));
    let color = rgb[0] * 65536 + rgb[1] * 256 + rgb[2];
    Ok(Pixel { index, count: count as i32, color: color as i32, disable: flag == 1 })
}

/// Reads a pattern of `;`-separated pixels, each `R,G,B` with an optional
/// `:count` (1 when absent) and `:disabled` flag (0 or 1, 0 when absent);
/// pixels are numbered by their place. The first rejected piece decides the
/// error.
pub fn parse_pixels(pixels_str: &str) -> (r: Result<Vec<Pixel>, PixelError>)
    requires
        pixels_str@.len() < 0x7fff_ffff,
    ensures
        match pixels_spec(pixels_str@) {
            Ok(ps) => r matches Ok(v) && v@ == ps,
            Err(e) => r == Err::<Vec<Pixel>, PixelError>(e),
        },
{
    let cs = chars_of(pixels_str);
    let segs = split_chars(&cs, ';');
    let ghost sv = pieces_view(segs@);
    proof {
        lemma_split_len(cs@, ';');
    }
    let mut out: Vec<Pixel> = Vec::new();
    let mut i: usize = 0;
    while i < segs.len()
        invariant
            i <= segs@.len() <= pixels_str@.len() + 1,
            pixels_str@.len() < 0x7fff_ffff,
            sv == pieces_view(segs@),
            sv == split_spec(pixels_str@, ';'),
            pixels_upto(sv, i as int) == Ok::<Seq<Pixel>, PixelError>(out@),
        decreases segs.len() - i,
    {
        assert(segs@[i as int]@ == sv[i as int]);
        match parse_pixel(&segs[i], i as i32) {
            Ok(p) => out.push(p),
            Err(e) => {
                proof {
                    lemma_error_persists(sv, i + 1, sv.len() as int, e);
                }
                return Err(e);
            },
        }
        i = i + 1;
    }
    Ok(out)
}

} // verus!
