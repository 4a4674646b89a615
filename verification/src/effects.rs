//! The glitch effect: characters of a text are selectively replaced by
//! glyphs from a small set. Which positions glitch, and to which glyph, is
//! decided by the caller (it draws random numbers); the mapping itself is
//! exact: untouched positions keep their character, touched ones carry a
//! glyph from the set.

use vstd::prelude::*;

use crate::strutil::{push_char, str_to_chars};

verus! {

/// The character position `i` ends up with: its own character, or the
/// picked glyph.
pub open spec fn glitched_char(c: char, pick: Option<u8>, glyphs: Seq<char>) -> char {
    match pick {
        Some(k) => if glyphs.len() > 0 {
            glyphs[(k as int) % (glyphs.len() as int)]
        } else {
            c
        },
        None => c,
    }
}

/// Applies the glitch decisions to the text: position `i` is replaced by
/// the glyph `picks[i]` selects (modulo the set size), kept where the pick
/// is absent or the pick list is short.
pub fn glitch_text(text: &str, glyphs: &Vec<char>, picks: &Vec<Option<u8>>) -> (r: String)
    ensures
        r@.len() == text@.len(),
        forall|i: int|
            0 <= i < text@.len() ==> #[trigger] r@[i] == if i < picks@.len() {
                glitched_char(text@[i], picks@[i], glyphs@)
            } else {
                text@[i]
            },
{
    let chars = str_to_chars(text);
    let mut out = String::new();
    let mut i: usize = 0;
    while i < chars.len()
        invariant
            i <= chars@.len(),
            chars@ == text@,
            out@.len() == i,
            forall|k: int|
                0 <= k < i ==> #[trigger] out@[k] == if k < picks@.len() {
                    glitched_char(text@[k], picks@[k], glyphs@)
                } else {
                    text@[k]
                },
        decreases chars@.len() - i,
    {
        let c = chars[i];
        let out_c: char = if i < picks.len() {
            match picks[i] {
                Some(k) => if glyphs.len() > 0 {
                    glyphs[(k as usize) % glyphs.len()]
                } else {
                    c
                },
                None => c,
            }
        } else {
            c
        };
        push_char(&mut out, out_c);
        i = i + 1;
    }
    out
}

} // verus!
