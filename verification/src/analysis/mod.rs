//! Musical analysis computed from a single session snapshot.
//!
//! These report *facts*: what the notes are, when parts enter, which
//! registers overlap. The parts that work on whole numbers (pitch classes,
//! bars, track indices) are here.
use vstd::prelude::*;

use crate::text::{append_chars, append_str, decimal, string_from, u64_text};

pub mod arrangement;
pub mod chords;
pub mod harmony;
pub mod mix;

verus! {

/// Sharps throughout: Live's own note names, and picking spellings per key
/// would imply a harmonic reading the analysis has not earned.
pub open spec fn pitch_name_spec(pc: nat) -> Seq<char> {
    if pc == 0 {
        "C"@
    } else if pc == 1 {
        "C#"@
    } else if pc == 2 {
        "D"@
    } else if pc == 3 {
        "D#"@
    } else if pc == 4 {
        "E"@
    } else if pc == 5 {
        "F"@
    } else if pc == 6 {
        "F#"@
    } else if pc == 7 {
        "G"@
    } else if pc == 8 {
        "G#"@
    } else if pc == 9 {
        "A"@
    } else if pc == 10 {
        "A#"@
    } else {
        "B"@
    }
}

/// The name of pitch class `pc` (taken modulo 12).
pub fn pitch_name(pc: u8) -> (r: &'static str)
    ensures
        r@ == pitch_name_spec((pc % 12) as nat),
{
    let p = pc % 12;
    if p == 0 {
        "C"
    } else if p == 1 {
        "C#"
    } else if p == 2 {
        "D"
    } else if p == 3 {
        "D#"
    } else if p == 4 {
        "E"
    } else if p == 5 {
        "F"
    } else if p == 6 {
        "F#"
    } else if p == 7 {
        "G"
    } else if p == 8 {
        "G#"
    } else if p == 9 {
        "A"
    } else if p == 10 {
        "A#"
    } else {
        "B"
    }
}

/// A time signature as `numerator/denominator`.
pub fn time_signature(numerator: u32, denominator: u32) -> (r: String)
    ensures
        r@ == decimal(numerator as nat) + "/"@ + decimal(denominator as nat),
{
    let mut v: Vec<char> = Vec::new();
    let n = u64_text(numerator as u64);
    append_chars(&mut v, &n);
    append_str(&mut v, "/");
    let d = u64_text(denominator as u64);
    append_chars(&mut v, &d);
    string_from(&v)
}

} // verus!
