//! Color specifications: a `#RRGGBB` hex string, a bare indexed palette
//! number, or a named color, ASCII-case-insensitively; anything else
//! resolves to white.

use vstd::prelude::*;

use crate::numfmt::spec_parse_u64;
use crate::strutil::{lower_seq, eq_lower, str_to_chars};

verus! {

/// A parsed color, mirroring the palette the renderer offers.
#[derive(Clone, Copy, Debug, PartialEq, Eq, Structural)]
pub enum ColorSpec {
    Rgb(u8, u8, u8),
    Indexed(u8),
    Black,
    Red,
    Green,
    Yellow,
    Blue,
    Magenta,
    Cyan,
    Gray,
    DarkGray,
    LightRed,
    LightGreen,
    LightYellow,
    LightBlue,
    LightMagenta,
    LightCyan,
    White,
}

/// The value of a hex digit, if it is one.
pub open spec fn hex_val(c: char) -> Option<u8> {
    if 48 <= c as int <= 57 {
        Some((c as int - 48) as u8)
    } else if 97 <= c as int <= 102 {
        Some((c as int - 87) as u8)
    } else if 65 <= c as int <= 70 {
        Some((c as int - 55) as u8)
    } else {
        None
    }
}

/// The byte two hex digits denote.
pub open spec fn hex_pair(a: char, b: char) -> Option<u8> {
    match (hex_val(a), hex_val(b)) {
        (Some(hi), Some(lo)) => Some((hi * 16 + lo) as u8),
        _ => None,
    }
}

/// `s` without its leading `#` characters.
pub open spec fn strip_hashes(s: Seq<char>) -> Seq<char>
    decreases s.len(),
{
    if s.len() > 0 && s[0] == '#' {
        strip_hashes(s.drop_first())
    } else {
        s
    }
}

/// What a hex color string denotes: after the leading `#`s, three pairs
/// of hex digits (anything after the sixth digit is ignored).
pub open spec fn spec_hex_to_rgb(s: Seq<char>) -> Option<(u8, u8, u8)> {
    let h = strip_hashes(s);
    if h.len() < 6 {
        None
    } else {
        match (hex_pair(h[0], h[1]), hex_pair(h[2], h[3]), hex_pair(h[4], h[5])) {
            (Some(r), Some(g), Some(b)) => Some((r, g, b)),
            _ => None,
        }
    }
}

fn hex_val_exec(c: char) -> (r: Option<u8>)
    ensures
        r == hex_val(c),
{
    if '0' <= c && c <= '9' {
        Some((c as u8) - 48)
    } else if 'a' <= c && c <= 'f' {
        Some((c as u8) - 87)
    } else if 'A' <= c && c <= 'F' {
        Some((c as u8) - 55)
    } else {
        None
    }
}

/// Reads a `#RRGGBB` string into its three channel bytes.
pub fn hex_to_rgb(hex: &str) -> (r: Option<(u8, u8, u8)>)
    ensures
        r == spec_hex_to_rgb(hex@),
{
    let v = str_to_chars(hex);
    let ghost whole = v@;
    proof {
        assert(whole.skip(0) =~= whole);
    }
    let mut a: usize = 0;
    while a < v.len() && v[a] == '#'
        invariant
            a <= v@.len(),
            v@ == whole,
            strip_hashes(whole) == strip_hashes(whole.skip(a as int)),
        decreases v@.len() - a,
    {
        proof {
            assert(whole.skip(a as int)[0] == whole[a as int]);
            assert(whole.skip(a as int).drop_first() =~= whole.skip(a + 1));
        }
        a = a + 1;
    }
    proof {
        if a < v@.len() {
            assert(whole.skip(a as int)[0] == whole[a as int]);
        }
        assert(strip_hashes(whole) == whole.skip(a as int));
    }
    if v.len() - a < 6 {
        return None;
    }
    let ghost h = strip_hashes(whole);
    proof {
        assert(h[0] == whole[a as int]);
        assert(h[1] == whole[a as int + 1]);
        assert(h[2] == whole[a as int + 2]);
        assert(h[3] == whole[a as int + 3]);
        assert(h[4] == whole[a as int + 4]);
        assert(h[5] == whole[a as int + 5]);
    }
    let p0 = hex_val_exec(v[a]);
    let p1 = hex_val_exec(v[a + 1]);
    let p2 = hex_val_exec(v[a + 2]);
    let p3 = hex_val_exec(v[a + 3]);
    let p4 = hex_val_exec(v[a + 4]);
    let p5 = hex_val_exec(v[a + 5]);
    match (p0, p1, p2, p3, p4, p5) {
        (Some(h0), Some(h1), Some(h2), Some(h3), Some(h4), Some(h5)) => Some(
            (h0 * 16 + h1, h2 * 16 + h3, h4 * 16 + h5),
        ),
        _ => None,
    }
}

/// What a color string resolves to.
pub open spec fn spec_parse_color(s: Seq<char>) -> ColorSpec {
    if s.len() > 0 && s[0] == '#' {
        match spec_hex_to_rgb(s) {
            Some(rgb) => ColorSpec::Rgb(rgb.0, rgb.1, rgb.2),
            None => spec_named_color(lower_seq(s)),
        }
    } else {
        match spec_parse_u64(s) {
            Some(v) => if v <= 255 {
                ColorSpec::Indexed(v as u8)
            } else {
                spec_named_color(lower_seq(s))
            },
            None => spec_named_color(lower_seq(s)),
        }
    }
}

/// The named colors, after ASCII lower-casing; unknown names give white.
pub open spec fn spec_named_color(low: Seq<char>) -> ColorSpec {
    if low == "black"@ {
        ColorSpec::Black
    } else if low == "red"@ {
        ColorSpec::Red
    } else if low == "green"@ {
        ColorSpec::Green
    } else if low == "yellow"@ {
        ColorSpec::Yellow
    } else if low == "blue"@ {
        ColorSpec::Blue
    } else if low == "magenta"@ {
        ColorSpec::Magenta
    } else if low == "cyan"@ {
        ColorSpec::Cyan
    } else if low == "gray"@ {
        ColorSpec::Gray
    } else if low == "dark_gray"@ || low == "darkgray"@ {
        ColorSpec::DarkGray
    } else if low == "light_red"@ || low == "lightred"@ {
        ColorSpec::LightRed
    } else if low == "light_green"@ || low == "lightgreen"@ {
        ColorSpec::LightGreen
    } else if low == "light_yellow"@ || low == "lightyellow"@ {
        ColorSpec::LightYellow
    } else if low == "light_blue"@ || low == "lightblue"@ {
        ColorSpec::LightBlue
    } else if low == "light_magenta"@ || low == "lightmagenta"@ {
        ColorSpec::LightMagenta
    } else if low == "light_cyan"@ || low == "lightcyan"@ {
        ColorSpec::LightCyan
    } else {
        ColorSpec::White
    }
}

fn named_color(s: &str) -> (r: ColorSpec)
    ensures
        r == spec_named_color(lower_seq(s@)),
{
    if eq_lower(s, "black") {
        ColorSpec::Black
    } else if eq_lower(s, "red") {
        ColorSpec::Red
    } else if eq_lower(s, "green") {
        ColorSpec::Green
    } else if eq_lower(s, "yellow") {
        ColorSpec::Yellow
    } else if eq_lower(s, "blue") {
        ColorSpec::Blue
    } else if eq_lower(s, "magenta") {
        ColorSpec::Magenta
    } else if eq_lower(s, "cyan") {
        ColorSpec::Cyan
    } else if eq_lower(s, "gray") {
        ColorSpec::Gray
    } else if eq_lower(s, "dark_gray") || eq_lower(s, "darkgray") {
        ColorSpec::DarkGray
    } else if eq_lower(s, "light_red") || eq_lower(s, "lightred") {
        ColorSpec::LightRed
    } else if eq_lower(s, "light_green") || eq_lower(s, "lightgreen") {
        ColorSpec::LightGreen
    } else if eq_lower(s, "light_yellow") || eq_lower(s, "lightyellow") {
        ColorSpec::LightYellow
    } else if eq_lower(s, "light_blue") || eq_lower(s, "lightblue") {
        ColorSpec::LightBlue
    } else if eq_lower(s, "light_magenta") || eq_lower(s, "lightmagenta") {
        ColorSpec::LightMagenta
    } else if eq_lower(s, "light_cyan") || eq_lower(s, "lightcyan") {
        ColorSpec::LightCyan
    } else {
        ColorSpec::White
    }
}

/// Resolves a color string: a hex triple, an indexed palette number, or a
/// named color; anything unparseable is white.
pub fn parse_color(color_str: &str) -> (r: ColorSpec)
    ensures
        r == spec_parse_color(color_str@),
{
    let n = color_str.unicode_len();
    let starts_hash = n > 0 && color_str.get_char(0) == '#';
    if starts_hash {
        match hex_to_rgb(color_str) {
            Some(rgb) => {
                return ColorSpec::Rgb(rgb.0, rgb.1, rgb.2);
            },
            None => {},
        }
    } else {
        let chars = str_to_chars(color_str);
        proof {
            assert(chars@.subrange(0, chars@.len() as int) =~= color_str@);
        }
        match crate::numfmt::parse_u64_range(&chars, 0, chars.len()) {
            Some(v) => {
                if v <= 255 {
                    return ColorSpec::Indexed(v as u8);
                }
            },
            None => {},
        }
    }
    named_color(color_str)
}

} // verus!
