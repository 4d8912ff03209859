//! Mix analysis: the note names that register reports are written in.
use vstd::prelude::*;

use super::{pitch_name, pitch_name_spec};
use crate::text::{append_chars, append_str, i64_text, signed_decimal, string_from};

verus! {

/// How Live writes a MIDI note: its pitch class, then its octave counted so
/// that MIDI 60 is C3.
pub open spec fn note_name_spec(pitch: u8) -> Seq<char> {
    pitch_name_spec((pitch % 12) as nat) + signed_decimal((pitch / 12) as int - 2)
}

pub fn note_name(pitch: u8) -> (r: String)
    ensures
        r@ == note_name_spec(pitch),
{
    let mut v: Vec<char> = Vec::new();
    append_str(&mut v, pitch_name(pitch));
    let octave: i64 = (pitch / 12) as i64 - 2;
    let o = i64_text(octave);
    append_chars(&mut v, &o);
    string_from(&v)
}

} // verus!
