//! The choices a command line makes before it calls the client: the switch
//! state, the overlay kind, the effect mode and the effect ids to combine.
use vstd::prelude::*;
use crate::text::{chars_of, parse_int, pieces_view, split_chars, split_spec, trim_chars, trim_spec};
use crate::utils::{i32_of, I32_MAX, I32_MIN};

verus! {

/// The switch state for exactly one of the flags: off 0, manual 1, timer 2;
/// `None` unless exactly one is set.
pub fn switch_state(off: bool, manual: bool, timer: bool) -> (r: Option<i32>)
    ensures
        r == if off && !manual && !timer {
            Some(0i32)
        } else if !off && manual && !timer {
            Some(1i32)
        } else if !off && !manual && timer {
            Some(2i32)
        } else {
            None
        },
{
    if off && !manual && !timer {
        Some(0)
    } else if !off && manual && !timer {
        Some(1)
    } else if !off && !manual && timer {
        Some(2)
    } else {
        None
    }
}

/// The overlay kind for exactly one of the flags: lightning 0, snow 1.
pub fn overlay_type(lightning: bool, snow: bool) -> (r: Option<i32>)
    ensures
        r == if lightning && !snow {
            Some(0i32)
        } else if !lightning && snow {
            Some(1i32)
        } else {
            None
        },
{
    if lightning && !snow {
        Some(0)
    } else if !lightning && snow {
        Some(1)
    } else {
        None
    }
}

/// Why an effect mode was refused.
#[derive(Debug, Clone, Copy, PartialEq, Eq, Structural)]
pub enum ModeError {
    /// Neither or both of a built-in mode and a pattern were given.
    NotExactlyOne,
    /// A built-in mode outside 0 to 179.
    BuiltInOutOfRange,
    /// A pattern outside 0 to 16.
    PatternOutOfRange,
}

/// The mode and category (0 built-in, 1 custom pattern) of an effect given
/// by exactly one of a built-in mode (0 to 179) and a pattern (0 to 16).
pub fn effect_mode(built_in: Option<i32>, pattern: Option<i32>) -> (r: Result<(i32, i32), ModeError>)
    ensures
        r == match (built_in, pattern) {
            (Some(m), None) => if 0 <= m <= 179 {
                Ok::<(i32, i32), ModeError>((m, 0i32))
            } else {
                Err(ModeError::BuiltInOutOfRange)
            },
            (None, Some(p)) => if 0 <= p <= 16 {
                Ok((p, 1i32))
            } else {
                Err(ModeError::PatternOutOfRange)
            },
            _ => Err(ModeError::NotExactlyOne),
        },
{
    match (built_in, pattern) {
        (Some(m), None) => if 0 <= m && m <= 179 {
            Ok((m, 0))
        } else {
            Err(ModeError::BuiltInOutOfRange)
        },
        (None, Some(p)) => if 0 <= p && p <= 16 {
            Ok((p, 1))
        } else {
            Err(ModeError::PatternOutOfRange)
        },
        _ => Err(ModeError::NotExactlyOne),
    }
}

/// Whether every piece reads as an `i32`, white space around it allowed.
pub open spec fn all_ids(pieces: Seq<Seq<char>>) -> bool {
    forall|k: int| 0 <= k < pieces.len() ==> (#[trigger] i32_of(trim_spec(pieces[k]))) is Some
}

/// Reads `1, 2, 3` as effect ids: each comma-separated piece must be an
/// `i32`; `None` if any is not.
pub fn parse_effect_ids(s: &str) -> (r: Option<Vec<i32>>)
    ensures
        ({
            let pieces = split_spec(s@, ',');
            match r {
                None => !all_ids(pieces),
                Some(v) => all_ids(pieces) && v@.len() == pieces.len() && forall|k: int|
                    0 <= k < v@.len() ==> i32_of(trim_spec(pieces[k])) == Some(
                        #[trigger] v@[k] as int,
                    ),
            }
        }),
{
    let cs = chars_of(s);
    let pieces = split_chars(&cs, ',');
    let ghost pv = pieces_view(pieces@);
    let mut ids: Vec<i32> = Vec::new();
    let mut k: usize = 0;
    while k < pieces.len()
        invariant
            k <= pieces@.len(),
            pv == pieces_view(pieces@),
            pv == split_spec(s@, ','),
            ids@.len() == k,
            forall|j: int| 0 <= j < k ==> i32_of(trim_spec(pv[j])) == Some(#[trigger] ids@[j] as int),
        decreases pieces.len() - k,
    {
        assert(pieces@[k as int]@ == pv[k as int]);
        match parse_int(&trim_chars(&pieces[k]), I32_MIN, I32_MAX) {
            Some(v) => ids.push(v as i32),
            None => {
                assert(i32_of(trim_spec(pv[k as int])) is None);
                return None;
            },
        }
        k = k + 1;
    }
    assert forall|j: int| 0 <= j < pv.len() implies (#[trigger] i32_of(trim_spec(pv[j]))) is Some by {
        assert(i32_of(trim_spec(pv[j])) == Some(ids@[j] as int));
    }
    Some(ids)
}

} // verus!
