//! Display-mode detection: the screen-tool output is scanned for the first
//! mode token (`1920x1080@144Hz`), and the X fallback output for a
//! resolution on a connected line. Nothing found resolves to the sentinel
//! outside, command invocation included; only the parsing lives here.

use vstd::prelude::*;

use crate::strutil::{chars_contain, has_sub};
use crate::textparse::{find_ch, split_on, split_range_on, find_in_range, copy_range};

verus! {

pub struct DisplayInfo;

/// A mode token holds both an `x` and an `@`.
pub open spec fn is_mode_token(t: Seq<char>) -> bool {
    t.contains('x') && t.contains('@')
}

/// The first mode token among the blank-separated pieces.
pub open spec fn first_mode_token(parts: Seq<Seq<char>>) -> Option<Seq<char>>
    decreases parts.len(),
{
    if parts.len() == 0 {
        None
    } else if is_mode_token(parts.first()) {
        Some(parts.first())
    } else {
        first_mode_token(parts.drop_first())
    }
}

/// What one screen-tool line yields: its first mode token, if the line
/// reports an enabled, connected output.
pub open spec fn spec_screen_line(line: Seq<char>) -> Option<Seq<char>> {
    if has_sub(line, "enabled"@) && has_sub(line, "connected"@) {
        first_mode_token(split_on(line, ' '))
    } else {
        None
    }
}

/// The first mode the whole output reports.
pub open spec fn spec_parse_screen_modes(lines: Seq<Seq<char>>) -> Option<Seq<char>>
    decreases lines.len(),
{
    if lines.len() == 0 {
        None
    } else {
        match spec_screen_line(lines.first()) {
            Some(m) => Some(m),
            None => spec_parse_screen_modes(lines.drop_first()),
        }
    }
}

fn screen_line_mode(line: &Vec<char>) -> (r: Option<String>)
    ensures
        match r {
            Some(m) => spec_screen_line(line@) == Some(m@),
            None => spec_screen_line(line@) is None,
        },
{
    if !(chars_contain(line, "enabled") && chars_contain(line, "connected")) {
        return None;
    }
    let parts = split_range_on(line, 0, line.len(), ' ');
    let ghost pv = parts@.map_values(|p: Vec<char>| p@);
    proof {
        assert(line@.subrange(0, line@.len() as int) =~= line@);
        assert(pv.skip(0) =~= pv);
    }
    let mut i: usize = 0;
    while i < parts.len()
        invariant
            i <= parts@.len(),
            pv == parts@.map_values(|p: Vec<char>| p@),
            pv == split_on(line@, ' '),
            has_sub(line@, "enabled"@),
            has_sub(line@, "connected"@),
            first_mode_token(pv) == first_mode_token(pv.skip(i as int)),
        decreases parts@.len() - i,
    {
        proof {
            assert(pv[i as int] == parts@[i as int]@);
            assert(pv.skip(i as int).first() == pv[i as int]);
            assert(pv.skip(i as int).drop_first() =~= pv.skip(i + 1));
        }
        let p = &parts[i];
        proof {
            assert(p@.subrange(0, p@.len() as int) =~= p@);
            crate::textparse::lemma_find_ch(p@, 'x');
            crate::textparse::lemma_find_ch(p@, '@');
        }
        let jx = find_in_range(p, 0, p.len(), 'x');
        let ja = find_in_range(p, 0, p.len(), '@');
        proof {
            if jx < p@.len() {
                assert(p@.contains('x'));
            } else if p@.contains('x') {
                let w = choose|w: int| 0 <= w < p@.len() && p@[w] == 'x';
            }
            if ja < p@.len() {
                assert(p@.contains('@'));
            } else if p@.contains('@') {
                let w = choose|w: int| 0 <= w < p@.len() && p@[w] == '@';
            }
        }
        if jx < p.len() && ja < p.len() {
            return Some(crate::strutil::chars_to_string(p));
        }
        i = i + 1;
    }
    proof {
        assert(pv.skip(i as int) =~= Seq::<Seq<char>>::empty());
    }
    None
}

impl DisplayInfo {
    /// Scans the screen tool's output for the first enabled, connected
    /// output's mode token.
    pub fn parse_screen_output(out: &str) -> (r: Option<String>)
        ensures
            match r {
                Some(m) => spec_parse_screen_modes(split_on(out@, '\n')) == Some(m@),
                None => spec_parse_screen_modes(split_on(out@, '\n')) is None,
            },
    {
        let chars = crate::strutil::str_to_chars(out);
        let lines = split_range_on(&chars, 0, chars.len(), '\n');
        let ghost lviews = lines@.map_values(|p: Vec<char>| p@);
        proof {
            assert(chars@.subrange(0, chars@.len() as int) =~= out@);
            assert(lviews.skip(0) =~= lviews);
        }
        let mut i: usize = 0;
        while i < lines.len()
            invariant
                i <= lines@.len(),
                lviews == lines@.map_values(|p: Vec<char>| p@),
                lviews == split_on(out@, '\n'),
                spec_parse_screen_modes(lviews) == spec_parse_screen_modes(lviews.skip(i as int)),
            decreases lines@.len() - i,
        {
            proof {
                assert(lviews[i as int] == lines@[i as int]@);
                assert(lviews.skip(i as int).first() == lviews[i as int]);
                assert(lviews.skip(i as int).drop_first() =~= lviews.skip(i + 1));
            }
            match screen_line_mode(&lines[i]) {
                Some(m) => {
                    return Some(m);
                },
                None => {},
            }
            i = i + 1;
        }
        proof {
            assert(lviews.skip(i as int) =~= Seq::<Seq<char>>::empty());
        }
        None
    }
}

/// Index of the first decimal digit, or the length if there is none.
pub open spec fn find_digit(s: Seq<char>) -> nat
    decreases s.len(),
{
    if s.len() == 0 {
        0
    } else if crate::numfmt::is_digit(s[0]) {
        0
    } else {
        1 + find_digit(s.drop_first())
    }
}

proof fn lemma_find_digit(s: Seq<char>)
    ensures
        find_digit(s) <= s.len(),
        find_digit(s) < s.len() ==> crate::numfmt::is_digit(s[find_digit(s) as int]),
        forall|k: int| 0 <= k < find_digit(s) ==> !crate::numfmt::is_digit(s[k]),
    decreases s.len(),
{
    if s.len() > 0 && !crate::numfmt::is_digit(s[0]) {
        lemma_find_digit(s.drop_first());
        assert forall|k: int| 0 <= k < find_digit(s) implies !crate::numfmt::is_digit(s[k]) by {
            if k > 0 {
                assert(s[k] == s.drop_first()[k - 1]);
            }
        }
    }
}

proof fn lemma_find_digit_unique(s: Seq<char>, j: int)
    requires
        0 <= j <= s.len(),
        forall|k: int| 0 <= k < j ==> !crate::numfmt::is_digit(s[k]),
        j < s.len() ==> crate::numfmt::is_digit(s[j]),
    ensures
        find_digit(s) == j,
{
    lemma_find_digit(s);
    let f = find_digit(s) as int;
    if f < j {
        assert(!crate::numfmt::is_digit(s[f]));
    } else if j < f {
        assert(!crate::numfmt::is_digit(s[j]));
    }
}

/// What one X-tool line yields: on a connected line, the span from the
/// first digit up to the first following `+` — the resolution.
pub open spec fn spec_xrandr_line(line: Seq<char>) -> Option<Seq<char>> {
    if has_sub(line, " connected"@) {
        let d = find_digit(line);
        if d >= line.len() {
            None
        } else {
            let rest = line.subrange(d as int, line.len() as int);
            let p = find_ch(rest, '+');
            if p >= rest.len() {
                None
            } else {
                Some(rest.subrange(0, p as int))
            }
        }
    } else {
        None
    }
}

/// The first resolution the X-tool output reports.
pub open spec fn spec_parse_xrandr(lines: Seq<Seq<char>>) -> Option<Seq<char>>
    decreases lines.len(),
{
    if lines.len() == 0 {
        None
    } else {
        match spec_xrandr_line(lines.first()) {
            Some(m) => Some(m),
            None => spec_parse_xrandr(lines.drop_first()),
        }
    }
}

fn xrandr_line_mode(line: &Vec<char>) -> (r: Option<String>)
    ensures
        match r {
            Some(m) => spec_xrandr_line(line@) == Some(m@),
            None => spec_xrandr_line(line@) is None,
        },
{
    if !chars_contain(line, " connected") {
        return None;
    }
    let n = line.len();
    let mut d: usize = 0;
    while d < n && !(line[d] >= '0' && line[d] <= '9')
        invariant
            d <= n,
            n == line@.len(),
            forall|k: int| 0 <= k < d ==> !crate::numfmt::is_digit(line@[k]),
        decreases n - d,
    {
        d = d + 1;
    }
    proof {
        lemma_find_digit_unique(line@, d as int);
    }
    if d == n {
        return None;
    }
    let ghost rest = line@.subrange(d as int, n as int);
    let p = find_in_range(line, d, n, '+');
    proof {
        assert forall|k: int| 0 <= k < p - d implies rest[k] != '+' by {
            assert(rest[k] == line@[d + k]);
        }
        if p < n {
            assert(rest[p - d] == '+');
        }
        crate::textparse::lemma_find_ch_unique(rest, '+', p - d);
    }
    if p == n {
        return None;
    }
    let span = copy_range(line, d, p);
    proof {
        assert(span@ =~= rest.subrange(0, p - d));
    }
    Some(crate::strutil::chars_to_string(&span))
}

impl DisplayInfo {
    /// Scans the X tool's output for the first connected line's
    /// resolution.
    pub fn parse_xrandr_output(out: &str) -> (r: Option<String>)
        ensures
            match r {
                Some(m) => spec_parse_xrandr(split_on(out@, '\n')) == Some(m@),
                None => spec_parse_xrandr(split_on(out@, '\n')) is None,
            },
    {
        let chars = crate::strutil::str_to_chars(out);
        let lines = split_range_on(&chars, 0, chars.len(), '\n');
        let ghost lviews = lines@.map_values(|p: Vec<char>| p@);
        proof {
            assert(chars@.subrange(0, chars@.len() as int) =~= out@);
            assert(lviews.skip(0) =~= lviews);
        }
        let mut i: usize = 0;
        while i < lines.len()
            invariant
                i <= lines@.len(),
                lviews == lines@.map_values(|p: Vec<char>| p@),
                lviews == split_on(out@, '\n'),
                spec_parse_xrandr(lviews) == spec_parse_xrandr(lviews.skip(i as int)),
            decreases lines@.len() - i,
        {
            proof {
                assert(lviews[i as int] == lines@[i as int]@);
                assert(lviews.skip(i as int).first() == lviews[i as int]);
                assert(lviews.skip(i as int).drop_first() =~= lviews.skip(i + 1));
            }
            match xrandr_line_mode(&lines[i]) {
                Some(m) => {
                    return Some(m);
                },
                None => {},
            }
            i = i + 1;
        }
        proof {
            assert(lviews.skip(i as int) =~= Seq::<Seq<char>>::empty());
        }
        None
    }
}

/// The X-tool half of the fallback chain: its first resolution, else the
/// sentinel.
pub open spec fn spec_xrandr_choice(xrandr_out: Option<String>) -> Seq<char> {
    match xrandr_out {
        Some(o) => match spec_parse_xrandr(split_on(o@, '\n')) {
            Some(m) => m,
            None => "Unknown"@,
        },
        None => "Unknown"@,
    }
}

/// The display the whole fallback chain reports: the screen tool's first
/// mode if its output yields one, else the X tool's first resolution, else
/// the sentinel.
pub open spec fn spec_display_choice(
    screen_out: Option<String>,
    xrandr_out: Option<String>,
) -> Seq<char> {
    match screen_out {
        Some(o) => match spec_parse_screen_modes(split_on(o@, '\n')) {
            Some(m) => m,
            None => spec_xrandr_choice(xrandr_out),
        },
        None => spec_xrandr_choice(xrandr_out),
    }
}

impl DisplayInfo {
    /// Resolves the display mode from the tools' outputs (each absent when
    /// its command was missing or failed): the screen tool first, the X
    /// tool second, the sentinel last. Detection failure is data, never an
    /// error.
    pub fn summarize(screen_out: Option<String>, xrandr_out: Option<String>) -> (r: String)
        ensures
            r@ == spec_display_choice(screen_out, xrandr_out),
    {
        match &screen_out {
            Some(o) => match DisplayInfo::parse_screen_output(o.as_str()) {
                Some(m) => {
                    return m;
                },
                None => {},
            },
            None => {},
        }
        match &xrandr_out {
            Some(o) => match DisplayInfo::parse_xrandr_output(o.as_str()) {
                Some(m) => {
                    return m;
                },
                None => {},
            },
            None => {},
        }
        "Unknown".to_owned()
    }
}

} // verus!
