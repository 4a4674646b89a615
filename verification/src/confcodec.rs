//! The configuration document: a small key-value text (a TOML subset) with
//! a root section and a `[theme]` table. The writer and the reader are both
//! specified here, and reading is proved to invert writing for any
//! well-formed configuration.
//!
//! Grammar read by the parser, line by line after trimming blanks: empty
//! lines and `#` comments are skipped; `[name]` switches the section;
//! `key = value` assigns, where a value is an unsigned decimal integer,
//! `true` or `false`, a `"quoted string"` without escapes, or an array
//! `["a", "b"]` of such strings. Unknown keys and sections are ignored;
//! anything else makes the document malformed and the reader yields
//! nothing.

use vstd::prelude::*;

use crate::config::{Config, ConfigV, Theme, ThemeV, default_module_order, default_module_views};
use crate::numfmt::{dec_seq, spec_parse_u64, push_u64, parse_u64_range, lemma_parse_dec_seq};
use crate::strutil::{push_char, push_chars, chars_to_string, str_to_chars};
use crate::textparse::{
    find_ch, split_on, join_term, sep_join, spec_trim, quote, spec_parse_quoted, is_ws,
    lemma_find_ch, lemma_find_ch_unique, lemma_split_on_head, lemma_split_join_term,
    lemma_split_sep_join, lemma_join_term_push, lemma_sep_join_push, lemma_concat_contains,
    lemma_trim_noop, lemma_lead_ws_unique, lemma_trail_ws_unique, lemma_lead_ws, lemma_trail_ws,
    find_in_range, trim_range, copy_range, range_eq_str, split_range_on,
};

verus! {

// ---------------------------------------------------------------------------
// Writing
// ---------------------------------------------------------------------------
/// The module array: each name quoted, joined with commas.
pub open spec fn enc_modules(ms: Seq<Seq<char>>) -> Seq<char> {
    sep_join(ms.map_values(|m: Seq<char>| quote(m)), ',')
}

/// The lines of the written document, in order.
pub open spec fn enc_lines(c: ConfigV) -> Seq<Seq<char>> {
    seq![
        "refresh_rate = "@ + dec_seq(c.refresh_rate as nat),
        "show_hints = "@ + (if c.show_hints {
            "true"@
        } else {
            "false"@
        }),
        "modules = ["@ + enc_modules(c.modules) + "]"@,
        "[theme]"@,
        "border_color = "@ + quote(c.theme.border_color),
        "title_color = "@ + quote(c.theme.title_color),
        "text_color = "@ + quote(c.theme.text_color),
        "key_color = "@ + quote(c.theme.key_color),
        "value_color = "@ + quote(c.theme.value_color),
        "gauge_cpu_low = "@ + quote(c.theme.gauge_cpu_low),
        "gauge_cpu_high = "@ + quote(c.theme.gauge_cpu_high),
        "gauge_ram = "@ + quote(c.theme.gauge_ram),
    ]
}

/// The whole document: every line closed by a newline.
pub open spec fn spec_encode_config(c: ConfigV) -> Seq<char> {
    join_term(enc_lines(c), '\n')
}

// ---------------------------------------------------------------------------
// Reading: the line machine
// ---------------------------------------------------------------------------
/// What the reader has gathered so far. `section` is 0 in the root table,
/// 1 inside `[theme]`, 2 inside an unknown table.
#[verifier::ext_equal]
pub struct PStateV {
    pub section: int,
    pub refresh_rate: Option<u64>,
    pub show_hints: Option<bool>,
    pub modules: Option<Seq<Seq<char>>>,
    pub border_color: Option<Seq<char>>,
    pub title_color: Option<Seq<char>>,
    pub text_color: Option<Seq<char>>,
    pub key_color: Option<Seq<char>>,
    pub value_color: Option<Seq<char>>,
    pub gauge_cpu_low: Option<Seq<char>>,
    pub gauge_cpu_high: Option<Seq<char>>,
    pub gauge_ram: Option<Seq<char>>,
}

pub open spec fn init_state() -> PStateV {
    PStateV {
        section: 0,
        refresh_rate: None,
        show_hints: None,
        modules: None,
        border_color: None,
        title_color: None,
        text_color: None,
        key_color: None,
        value_color: None,
        gauge_cpu_low: None,
        gauge_cpu_high: None,
        gauge_ram: None,
    }
}

/// A boolean value: exactly `true` or `false`.
pub open spec fn spec_parse_bool(v: Seq<char>) -> Option<bool> {
    if v == "true"@ {
        Some(true)
    } else if v == "false"@ {
        Some(false)
    } else {
        None
    }
}

/// The pieces of an array body: each, trimmed, must be a quoted string.
pub open spec fn spec_parse_elems(parts: Seq<Seq<char>>) -> Option<Seq<Seq<char>>>
    decreases parts.len(),
{
    if parts.len() == 0 {
        Some(seq![])
    } else {
        match spec_parse_quoted(spec_trim(parts.first())) {
            None => None,
            Some(s) => match spec_parse_elems(parts.drop_first()) {
                None => None,
                Some(r) => Some(seq![s] + r),
            },
        }
    }
}

/// An array value: brackets around comma-separated quoted strings.
pub open spec fn spec_parse_array(v: Seq<char>) -> Option<Seq<Seq<char>>> {
    if v.len() >= 2 && v[0] == '[' && v.last() == ']' {
        let inner = v.subrange(1, v.len() - 1);
        if spec_trim(inner).len() == 0 {
            Some(seq![])
        } else {
            spec_parse_elems(split_on(inner, ','))
        }
    } else {
        None
    }
}

/// One `key = value` assignment, dispatched on the current section and key.
/// Unknown keys are ignored; a known key with an ill-formed value spoils the
/// document.
pub open spec fn spec_dispatch(st: PStateV, key: Seq<char>, val: Seq<char>) -> Option<PStateV> {
    if st.section == 0 {
        if key == "refresh_rate"@ {
            match spec_parse_u64(val) {
                Some(n) => Some(PStateV { refresh_rate: Some(n), ..st }),
                None => None,
            }
        } else if key == "show_hints"@ {
            match spec_parse_bool(val) {
                Some(b) => Some(PStateV { show_hints: Some(b), ..st }),
                None => None,
            }
        } else if key == "modules"@ {
            match spec_parse_array(val) {
                Some(ms) => Some(PStateV { modules: Some(ms), ..st }),
                None => None,
            }
        } else {
            Some(st)
        }
    } else if st.section == 1 {
        match spec_parse_quoted(val) {
            Some(s) => {
                if key == "border_color"@ {
                    Some(PStateV { border_color: Some(s), ..st })
                } else if key == "title_color"@ {
                    Some(PStateV { title_color: Some(s), ..st })
                } else if key == "text_color"@ {
                    Some(PStateV { text_color: Some(s), ..st })
                } else if key == "key_color"@ {
                    Some(PStateV { key_color: Some(s), ..st })
                } else if key == "value_color"@ {
                    Some(PStateV { value_color: Some(s), ..st })
                } else if key == "gauge_cpu_low"@ {
                    Some(PStateV { gauge_cpu_low: Some(s), ..st })
                } else if key == "gauge_cpu_high"@ {
                    Some(PStateV { gauge_cpu_high: Some(s), ..st })
                } else if key == "gauge_ram"@ {
                    Some(PStateV { gauge_ram: Some(s), ..st })
                } else {
                    Some(st)
                }
            },
            None => {
                if key == "border_color"@ || key == "title_color"@ || key == "text_color"@ || key
                    == "key_color"@ || key == "value_color"@ || key == "gauge_cpu_low"@ || key
                    == "gauge_cpu_high"@ || key == "gauge_ram"@ {
                    None
                } else {
                    Some(st)
                }
            },
        }
    } else {
        Some(st)
    }
}

/// One line of the document.
pub open spec fn spec_step(st: PStateV, line: Seq<char>) -> Option<PStateV> {
    let t = spec_trim(line);
    if t.len() == 0 {
        Some(st)
    } else if t[0] == '#' {
        Some(st)
    } else if t[0] == '[' {
        if t.len() >= 2 && t.last() == ']' {
            let name = spec_trim(t.subrange(1, t.len() - 1));
            Some(
                PStateV {
                    section: if name == "theme"@ {
                        1int
                    } else {
                        2int
                    },
                    ..st
                },
            )
        } else {
            None
        }
    } else {
        let e = find_ch(t, '=');
        if e >= t.len() {
            None
        } else {
            let key = spec_trim(t.subrange(0, e as int));
            let val = spec_trim(t.subrange(e as int + 1, t.len() as int));
            spec_dispatch(st, key, val)
        }
    }
}

/// The machine run over a sequence of lines.
pub open spec fn spec_run(st: PStateV, lines: Seq<Seq<char>>) -> Option<PStateV>
    decreases lines.len(),
{
    if lines.len() == 0 {
        Some(st)
    } else {
        match spec_step(st, lines.first()) {
            None => None,
            Some(st2) => spec_run(st2, lines.drop_first()),
        }
    }
}

/// The finished configuration: the eight colors and the refresh rate must
/// have been assigned; missing modules or hints take their defaults.
pub open spec fn spec_finish(st: PStateV) -> Option<ConfigV> {
    if st.refresh_rate is Some && st.border_color is Some && st.title_color is Some
        && st.text_color is Some && st.key_color is Some && st.value_color is Some
        && st.gauge_cpu_low is Some && st.gauge_cpu_high is Some && st.gauge_ram is Some {
        Some(
            ConfigV {
                theme: ThemeV {
                    border_color: st.border_color->0,
                    title_color: st.title_color->0,
                    text_color: st.text_color->0,
                    key_color: st.key_color->0,
                    value_color: st.value_color->0,
                    gauge_cpu_low: st.gauge_cpu_low->0,
                    gauge_cpu_high: st.gauge_cpu_high->0,
                    gauge_ram: st.gauge_ram->0,
                },
                refresh_rate: st.refresh_rate->0,
                modules: match st.modules {
                    Some(ms) => ms,
                    None => default_module_views(),
                },
                show_hints: match st.show_hints {
                    Some(b) => b,
                    None => true,
                },
            },
        )
    } else {
        None
    }
}

/// What reading a whole document yields.
pub open spec fn spec_parse_config(s: Seq<char>) -> Option<ConfigV> {
    match spec_run(init_state(), split_on(s, '\n')) {
        None => None,
        Some(st) => spec_finish(st),
    }
}

// ---------------------------------------------------------------------------
// Well-formedness: what the writer can faithfully persist
// ---------------------------------------------------------------------------
/// A string the document can carry: no quote, no backslash, no line break.
pub open spec fn wf_string(s: Seq<char>) -> bool {
    !s.contains('"') && !s.contains('\\') && !s.contains('\n')
}

/// A module name additionally may not hold a comma (the array separator).
pub open spec fn wf_module(s: Seq<char>) -> bool {
    wf_string(s) && !s.contains(',')
}

/// A configuration the writer persists faithfully.
pub open spec fn wf_config(c: ConfigV) -> bool {
    &&& wf_string(c.theme.border_color)
    &&& wf_string(c.theme.title_color)
    &&& wf_string(c.theme.text_color)
    &&& wf_string(c.theme.key_color)
    &&& wf_string(c.theme.value_color)
    &&& wf_string(c.theme.gauge_cpu_low)
    &&& wf_string(c.theme.gauge_cpu_high)
    &&& wf_string(c.theme.gauge_ram)
    &&& forall|i: int| 0 <= i < c.modules.len() ==> wf_module(#[trigger] c.modules[i])
}

// ---------------------------------------------------------------------------
// The executable writer
// ---------------------------------------------------------------------------
fn push_quoted(out: &mut String, s: &String)
    ensures
        final(out)@ == old(out)@ + quote(s@),
{
    push_char(out, '"');
    out.append(s.as_str());
    push_char(out, '"');
    proof {
        assert(old(out)@.push('"') + s@ =~= old(out)@ + (seq!['"'] + s@));
        assert((old(out)@ + (seq!['"'] + s@)).push('"') =~= old(out)@ + quote(s@));
    }
}

/// Writes the document for `c`. A configuration outside `wf_config` (a
/// quote, backslash or line break inside a string value) is written
/// verbatim and may not read back; every value the configuration grammar
/// produces is well-formed, so no escaping is done.
pub fn encode_config(c: &Config) -> (r: String)
    ensures
        r@ == spec_encode_config(c@),
{
    let ghost lines = enc_lines(c@);
    let mut out = String::new();

    out.append("refresh_rate = ");
    push_u64(&mut out, c.refresh_rate);
    push_char(&mut out, '\n');
    proof {
        lemma_join_term_push(Seq::<Seq<char>>::empty(), lines[0], '\n');
        assert(join_term(Seq::<Seq<char>>::empty(), '\n') =~= Seq::<char>::empty());
        assert(out@ =~= join_term(seq![lines[0]], '\n'));
        assert(seq![lines[0]] =~= Seq::<Seq<char>>::empty().push(lines[0]));
    }

    out.append("show_hints = ");
    if c.show_hints {
        out.append("true");
    } else {
        out.append("false");
    }
    push_char(&mut out, '\n');
    proof {
        lemma_join_term_push(seq![lines[0]], lines[1], '\n');
        assert(seq![lines[0], lines[1]] =~= seq![lines[0]].push(lines[1]));
        assert(out@ =~= join_term(seq![lines[0]].push(lines[1]), '\n'));
    }

    out.append("modules = [");
    let ghost mods = c@.modules;
    let mut i: usize = 0;
    while i < c.modules.len()
        invariant
            i <= c.modules@.len(),
            mods == c@.modules,
            mods.len() == c.modules@.len(),
            forall|k: int| 0 <= k < mods.len() ==> mods[k] == c.modules@[k]@,
            out@ == old_with_mods_prefix(c@, i as int),
        decreases c.modules@.len() - i,
    {
        if i > 0 {
            push_char(&mut out, ',');
        }
        push_quoted(&mut out, &c.modules[i]);
        proof {
            let pre = mods.subrange(0, i as int).map_values(|m: Seq<char>| quote(m));
            let cur = mods.subrange(0, i + 1).map_values(|m: Seq<char>| quote(m));
            assert(cur =~= pre.push(quote(mods[i as int])));
            lemma_sep_join_push(pre, quote(mods[i as int]), ',');
            if i == 0 {
                assert(pre =~= Seq::<Seq<char>>::empty());
                assert(out@ =~= old_with_mods_prefix(c@, i + 1));
            } else {
                assert(out@ =~= old_with_mods_prefix(c@, i + 1));
            }
        }
        i = i + 1;
    }
    out.append("]");
    push_char(&mut out, '\n');
    proof {
        assert(mods.subrange(0, mods.len() as int) =~= mods);
        lemma_join_term_push(seq![lines[0], lines[1]], lines[2], '\n');
        assert(seq![lines[0], lines[1], lines[2]] =~= seq![lines[0], lines[1]].push(lines[2]));
        assert(out@ =~= join_term(seq![lines[0], lines[1]].push(lines[2]), '\n'));
    }

    out.append("[theme]");
    push_char(&mut out, '\n');
    proof {
        lemma_join_term_push(seq![lines[0], lines[1], lines[2]], lines[3], '\n');
        assert(lines.subrange(0, 4) =~= seq![lines[0], lines[1], lines[2]].push(lines[3]));
        assert(out@ =~= join_term(seq![lines[0], lines[1], lines[2]].push(lines[3]), '\n'));
    }

    push_theme_line(&mut out, "border_color = ", &c.theme.border_color, Ghost(lines), Ghost(4));
    push_theme_line(&mut out, "title_color = ", &c.theme.title_color, Ghost(lines), Ghost(5));
    push_theme_line(&mut out, "text_color = ", &c.theme.text_color, Ghost(lines), Ghost(6));
    push_theme_line(&mut out, "key_color = ", &c.theme.key_color, Ghost(lines), Ghost(7));
    push_theme_line(&mut out, "value_color = ", &c.theme.value_color, Ghost(lines), Ghost(8));
    push_theme_line(&mut out, "gauge_cpu_low = ", &c.theme.gauge_cpu_low, Ghost(lines), Ghost(9));
    push_theme_line(&mut out, "gauge_cpu_high = ", &c.theme.gauge_cpu_high, Ghost(lines), Ghost(10));
    push_theme_line(&mut out, "gauge_ram = ", &c.theme.gauge_ram, Ghost(lines), Ghost(11));
    proof {
        assert(lines.subrange(0, 12) =~= lines);
    }
    out
}

/// The document text up to and including the opening bracket of the module
/// array, then the first `k` quoted module names.
pub open spec fn old_with_mods_prefix(c: ConfigV, k: int) -> Seq<char> {
    join_term(seq![enc_lines(c)[0], enc_lines(c)[1]], '\n') + "modules = ["@ + sep_join(
        c.modules.subrange(0, k).map_values(|m: Seq<char>| quote(m)),
        ',',
    )
}

/// Writes one `key = "value"` line of the theme table, carrying the ghost
/// proof that the text so far is the join of the first `k` lines.
fn push_theme_line(
    out: &mut String,
    key: &str,
    value: &String,
    Ghost(lines): Ghost<Seq<Seq<char>>>,
    Ghost(k): Ghost<int>,
)
    requires
        0 <= k < lines.len(),
        old(out)@ == join_term(lines.subrange(0, k), '\n'),
        lines[k] == key@ + quote(value@),
    ensures
        final(out)@ == join_term(lines.subrange(0, k + 1), '\n'),
{
    out.append(key);
    push_quoted(out, value);
    push_char(out, '\n');
    proof {
        lemma_join_term_push(lines.subrange(0, k), lines[k], '\n');
        assert(lines.subrange(0, k + 1) =~= lines.subrange(0, k).push(lines[k]));
        assert(out@ =~= join_term(lines.subrange(0, k + 1), '\n'));
    }
}

// ---------------------------------------------------------------------------
// The executable reader
// ---------------------------------------------------------------------------
/// What the reader has gathered so far.
struct Partial {
    section: u8,
    refresh_rate: Option<u64>,
    show_hints: Option<bool>,
    modules: Option<Vec<String>>,
    border_color: Option<String>,
    title_color: Option<String>,
    text_color: Option<String>,
    key_color: Option<String>,
    value_color: Option<String>,
    gauge_cpu_low: Option<String>,
    gauge_cpu_high: Option<String>,
    gauge_ram: Option<String>,
}

pub open spec fn opt_str_view(o: Option<String>) -> Option<Seq<char>> {
    match o {
        Some(s) => Some(s@),
        None => None,
    }
}

impl View for Partial {
    type V = PStateV;

    closed spec fn view(&self) -> PStateV {
        PStateV {
            section: self.section as int,
            refresh_rate: self.refresh_rate,
            show_hints: self.show_hints,
            modules: match self.modules {
                Some(ms) => Some(ms@.map_values(|s: String| s@)),
                None => None,
            },
            border_color: opt_str_view(self.border_color),
            title_color: opt_str_view(self.title_color),
            text_color: opt_str_view(self.text_color),
            key_color: opt_str_view(self.key_color),
            value_color: opt_str_view(self.value_color),
            gauge_cpu_low: opt_str_view(self.gauge_cpu_low),
            gauge_cpu_high: opt_str_view(self.gauge_cpu_high),
            gauge_ram: opt_str_view(self.gauge_ram),
        }
    }
}

/// Reads a quoted string out of `v[a..b]`.
fn parse_quoted_range(v: &Vec<char>, a: usize, b: usize) -> (r: Option<String>)
    requires
        a <= b <= v@.len(),
    ensures
        spec_parse_quoted(v@.subrange(a as int, b as int)) == opt_str_view(r),
{
    let ghost sub = v@.subrange(a as int, b as int);
    if b - a < 2 {
        return None;
    }
    if v[a] != '"' || v[b - 1] != '"' {
        proof {
            assert(sub[0] == v@[a as int]);
            assert(sub.last() == v@[b - 1]);
        }
        return None;
    }
    proof {
        assert(sub[0] == '"');
        assert(sub.last() == '"');
    }
    let ghost inner = sub.subrange(1, sub.len() - 1);
    let q = find_in_range(v, a + 1, b - 1, '"');
    if q < b - 1 {
        proof {
            assert(inner[q - (a + 1)] == v@[q as int]);
        }
        return None;
    }
    let w = find_in_range(v, a + 1, b - 1, '\\');
    if w < b - 1 {
        proof {
            assert(inner[w - (a + 1)] == v@[w as int]);
        }
        return None;
    }
    proof {
        if inner.contains('"') {
            let k = choose|k: int| 0 <= k < inner.len() && inner[k] == '"';
            assert(v@[a + 1 + k] == '"');
        }
        if inner.contains('\\') {
            let k = choose|k: int| 0 <= k < inner.len() && inner[k] == '\\';
            assert(v@[a + 1 + k] == '\\');
        }
    }
    let content = copy_range(v, a + 1, b - 1);
    let s = chars_to_string(&content);
    proof {
        assert(content@ =~= inner);
    }
    Some(s)
}

/// Reads the module array out of `v[a..b]`.
fn parse_array_range(v: &Vec<char>, a: usize, b: usize) -> (r: Option<Vec<String>>)
    requires
        a <= b <= v@.len(),
    ensures
        match r {
            Some(ms) => spec_parse_array(v@.subrange(a as int, b as int)) == Some(
                ms@.map_values(|s: String| s@),
            ),
            None => spec_parse_array(v@.subrange(a as int, b as int)) is None,
        },
{
    let ghost sub = v@.subrange(a as int, b as int);
    if b - a < 2 {
        return None;
    }
    if v[a] != '[' || v[b - 1] != ']' {
        proof {
            assert(sub[0] == v@[a as int]);
            assert(sub.last() == v@[b - 1]);
        }
        return None;
    }
    proof {
        assert(sub[0] == '[');
        assert(sub.last() == ']');
        assert(sub.subrange(1, sub.len() - 1) =~= v@.subrange(a + 1, b - 1));
    }
    let (ta, tb) = trim_range(v, a + 1, b - 1);
    proof {
        assert(v@.subrange(ta as int, tb as int) == spec_trim(v@.subrange(a as int + 1, b as int - 1)));
    }
    if ta == tb {
        let empty: Vec<String> = Vec::new();
        proof {
            assert(empty@.map_values(|s: String| s@) =~= Seq::<Seq<char>>::empty());
        }
        return Some(empty);
    }
    let parts = split_range_on(v, a + 1, b - 1, ',');
    let ghost pviews = parts@.map_values(|p: Vec<char>| p@);
    let mut out: Vec<String> = Vec::new();
    proof {
        assert(pviews.skip(0) =~= pviews);
        if spec_parse_elems(pviews) is Some {
            let whole = spec_parse_elems(pviews)->0;
            assert(out@.map_values(|s: String| s@) + whole =~= whole);
        }
    }
    let mut i: usize = 0;
    while i < parts.len()
        invariant
            i <= parts@.len(),
            a < b <= v@.len(),
            b - a >= 2,
            v@.subrange(a as int, b as int)[0] == '[',
            v@.subrange(a as int, b as int).last() == ']',
            spec_trim(v@.subrange(a as int + 1, b as int - 1)).len() != 0,
            pviews == split_on(v@.subrange(a as int + 1, b as int - 1), ','),
            pviews == parts@.map_values(|p: Vec<char>| p@),
            spec_parse_elems(pviews) == match spec_parse_elems(pviews.skip(i as int)) {
                None => None::<Seq<Seq<char>>>,
                Some(rest) => Some(out@.map_values(|s: String| s@) + rest),
            },
        decreases parts@.len() - i,
    {
        let part = &parts[i];
        let (pa, pb) = trim_range(part, 0, part.len());
        let ghost tail = pviews.skip(i as int);
        proof {
            assert(tail.first() == pviews[i as int]);
            assert(pviews[i as int] == part@);
            assert(tail.drop_first() =~= pviews.skip(i + 1));
            assert(part@.subrange(0, part@.len() as int) =~= part@);
        }
        match parse_quoted_range(part, pa, pb) {
            Some(s) => {
                let ghost old_out = out@;
                out.push(s);
                proof {
                    assert(spec_parse_quoted(spec_trim(part@)) == Some(s@));
                    assert(out@.map_values(|s2: String| s2@) =~= old_out.map_values(
                        |s2: String| s2@,
                    ).push(s@));
                    if spec_parse_elems(pviews.skip(i + 1)) is Some {
                        let rest = spec_parse_elems(pviews.skip(i + 1))->0;
                        assert(old_out.map_values(|s2: String| s2@) + (seq![s@] + rest)
                            =~= out@.map_values(|s2: String| s2@) + rest);
                    }
                }
            },
            None => {
                proof {
                    assert(spec_parse_quoted(spec_trim(part@)) is None);
                    assert(spec_parse_elems(tail) is None);
                    assert(spec_parse_elems(pviews) is None);
                    let sub2 = v@.subrange(a as int, b as int);
                    assert(sub2.subrange(1, sub2.len() - 1) =~= v@.subrange(
                        a as int + 1,
                        b as int - 1,
                    ));
                    assert(spec_parse_array(sub2) is None);
                }
                return None;
            },
        }
        i = i + 1;
    }
    proof {
        assert(pviews.skip(i as int) =~= Seq::<Seq<char>>::empty());
        assert(spec_parse_elems(Seq::<Seq<char>>::empty()) == Some(Seq::<Seq<char>>::empty()));
        assert(out@.map_values(|s: String| s@) + Seq::<Seq<char>>::empty() =~= out@.map_values(
            |s: String| s@,
        ));
    }
    Some(out)
}

/// Feeds one line to the machine; `false` means the document is malformed.
fn step_exec(st: &mut Partial, line: &Vec<char>) -> (ok: bool)
    ensures
        ok ==> spec_step(old(st)@, line@) == Some(final(st)@),
        !ok ==> spec_step(old(st)@, line@) == None::<PStateV>,
{
    let n = line.len();
    let (ta, tb) = trim_range(line, 0, n);
    let ghost t = spec_trim(line@);
    proof {
        assert(line@.subrange(0, n as int) =~= line@);
        assert(t == line@.subrange(ta as int, tb as int));
    }
    if ta == tb {
        return true;
    }
    let c0 = line[ta];
    proof {
        assert(t[0] == line@[ta as int]);
    }
    if c0 == '#' {
        return true;
    }
    if c0 == '[' {
        proof {
            assert(t.last() == line@[tb - 1]);
        }
        if tb - ta >= 2 && line[tb - 1] == ']' {
            let (na, nb) = trim_range(line, ta + 1, tb - 1);
            proof {
                assert(t.subrange(1, t.len() - 1) =~= line@.subrange(ta as int + 1, tb - 1));
            }
            let is_theme = range_eq_str(line, na, nb, "theme");
            if is_theme {
                st.section = 1;
            } else {
                st.section = 2;
            }
            return true;
        } else {
            return false;
        }
    }
    let e = find_in_range(line, ta, tb, '=');
    proof {
        assert(e - ta == find_ch(t, '='));
    }
    if e == tb {
        return false;
    }
    let (ka, kb) = trim_range(line, ta, e);
    let (va, vb) = trim_range(line, e + 1, tb);
    let ghost key = spec_trim(t.subrange(0, e - ta));
    let ghost val = spec_trim(t.subrange(e - ta + 1, t.len() as int));
    proof {
        assert(t.subrange(0, e - ta) =~= line@.subrange(ta as int, e as int));
        assert(t.subrange(e - ta + 1, t.len() as int) =~= line@.subrange(e as int + 1, tb as int));
        assert(key == line@.subrange(ka as int, kb as int));
        assert(val == line@.subrange(va as int, vb as int));
    }
    if st.section == 0 {
        if range_eq_str(line, ka, kb, "refresh_rate") {
            match parse_u64_range(line, va, vb) {
                Some(rr) => {
                    st.refresh_rate = Some(rr);
                    true
                },
                None => false,
            }
        } else if range_eq_str(line, ka, kb, "show_hints") {
            if range_eq_str(line, va, vb, "true") {
                st.show_hints = Some(true);
                true
            } else if range_eq_str(line, va, vb, "false") {
                st.show_hints = Some(false);
                true
            } else {
                false
            }
        } else if range_eq_str(line, ka, kb, "modules") {
            match parse_array_range(line, va, vb) {
                Some(ms) => {
                    st.modules = Some(ms);
                    true
                },
                None => false,
            }
        } else {
            true
        }
    } else if st.section == 1 {
        let k0 = range_eq_str(line, ka, kb, "border_color");
        let k1 = range_eq_str(line, ka, kb, "title_color");
        let k2 = range_eq_str(line, ka, kb, "text_color");
        let k3 = range_eq_str(line, ka, kb, "key_color");
        let k4 = range_eq_str(line, ka, kb, "value_color");
        let k5 = range_eq_str(line, ka, kb, "gauge_cpu_low");
        let k6 = range_eq_str(line, ka, kb, "gauge_cpu_high");
        let k7 = range_eq_str(line, ka, kb, "gauge_ram");
        if k0 || k1 || k2 || k3 || k4 || k5 || k6 || k7 {
            match parse_quoted_range(line, va, vb) {
                Some(s) => {
                    if k0 {
                        st.border_color = Some(s);
                    } else if k1 {
                        st.title_color = Some(s);
                    } else if k2 {
                        st.text_color = Some(s);
                    } else if k3 {
                        st.key_color = Some(s);
                    } else if k4 {
                        st.value_color = Some(s);
                    } else if k5 {
                        st.gauge_cpu_low = Some(s);
                    } else if k6 {
                        st.gauge_cpu_high = Some(s);
                    } else {
                        st.gauge_ram = Some(s);
                    }
                    true
                },
                None => false,
            }
        } else {
            true
        }
    } else {
        true
    }
}

/// Closes the run: the mandatory fields must all have been assigned.
fn finish_exec(st: Partial) -> (r: Option<Config>)
    ensures
        match r {
            Some(c) => spec_finish(st@) == Some(c@),
            None => spec_finish(st@) is None,
        },
{
    let refresh_rate = match st.refresh_rate {
        Some(n) => n,
        None => {
            return None;
        },
    };
    let border_color = match st.border_color {
        Some(s) => s,
        None => {
            return None;
        },
    };
    let title_color = match st.title_color {
        Some(s) => s,
        None => {
            return None;
        },
    };
    let text_color = match st.text_color {
        Some(s) => s,
        None => {
            return None;
        },
    };
    let key_color = match st.key_color {
        Some(s) => s,
        None => {
            return None;
        },
    };
    let value_color = match st.value_color {
        Some(s) => s,
        None => {
            return None;
        },
    };
    let gauge_cpu_low = match st.gauge_cpu_low {
        Some(s) => s,
        None => {
            return None;
        },
    };
    let gauge_cpu_high = match st.gauge_cpu_high {
        Some(s) => s,
        None => {
            return None;
        },
    };
    let gauge_ram = match st.gauge_ram {
        Some(s) => s,
        None => {
            return None;
        },
    };
    let modules = match st.modules {
        Some(ms) => ms,
        None => default_module_order(),
    };
    let show_hints = match st.show_hints {
        Some(b) => b,
        None => true,
    };
    Some(
        Config {
            theme: Theme {
                border_color,
                title_color,
                text_color,
                key_color,
                value_color,
                gauge_cpu_low,
                gauge_cpu_high,
                gauge_ram,
            },
            refresh_rate,
            modules,
            show_hints,
        },
    )
}

/// Reads a configuration document. Yields nothing when the document is
/// malformed; the caller then falls back to the default configuration.
pub fn parse_config(text: &str) -> (r: Option<Config>)
    ensures
        match r {
            Some(c) => spec_parse_config(text@) == Some(c@),
            None => spec_parse_config(text@) is None,
        },
{
    let chars = str_to_chars(text);
    let lines = split_range_on(&chars, 0, chars.len(), '\n');
    let ghost lviews = lines@.map_values(|p: Vec<char>| p@);
    proof {
        assert(chars@.subrange(0, chars@.len() as int) =~= text@);
    }
    let mut st = Partial {
        section: 0,
        refresh_rate: None,
        show_hints: None,
        modules: None,
        border_color: None,
        title_color: None,
        text_color: None,
        key_color: None,
        value_color: None,
        gauge_cpu_low: None,
        gauge_cpu_high: None,
        gauge_ram: None,
    };
    proof {
        assert(st@ == init_state());
        assert(lviews.skip(0) =~= lviews);
    }
    proof {
        assert(lviews == split_on(text@, '\n'));
    }
    let mut i: usize = 0;
    while i < lines.len()
        invariant
            i <= lines@.len(),
            lviews == lines@.map_values(|p: Vec<char>| p@),
            lviews == split_on(text@, '\n'),
            spec_run(init_state(), lviews) == spec_run(st@, lviews.skip(i as int)),
        decreases lines@.len() - i,
    {
        let ghost tail = lviews.skip(i as int);
        proof {
            assert(tail.first() == lviews[i as int]);
            assert(lviews[i as int] == lines@[i as int]@);
            assert(tail.drop_first() =~= lviews.skip(i + 1));
        }
        let ok = step_exec(&mut st, &lines[i]);
        if !ok {
            proof {
                assert(spec_run(init_state(), lviews) is None);
            }
            return None;
        }
        i = i + 1;
    }
    proof {
        assert(lviews.skip(i as int) =~= Seq::<Seq<char>>::empty());
        assert(spec_run(st@, Seq::<Seq<char>>::empty()) == Some(st@));
    }
    finish_exec(st)
}

// ---------------------------------------------------------------------------
// The round trip: reading inverts writing
// ---------------------------------------------------------------------------
/// A numeral is non-empty, all digits, and free of blanks and newlines.
proof fn lemma_dec_text(n: u64)
    ensures
        dec_seq(n as nat).len() > 0,
        !dec_seq(n as nat).contains('\n'),
        !is_ws(dec_seq(n as nat)[0]),
        !is_ws(dec_seq(n as nat).last()),
{
    crate::numfmt::lemma_dec_seq_val(n as nat);
    let d = dec_seq(n as nat);
    assert forall|k: int| 0 <= k < d.len() implies d[k] != '\n' && !is_ws(d[k]) by {
        assert(crate::numfmt::is_digit(d[k]));
        assert('\n' as int == 10);
        assert(' ' as int == 32);
        assert('\t' as int == 9);
        assert('\r' as int == 13);
    }
    if d.contains('\n') {
        let k = choose|k: int| 0 <= k < d.len() && d[k] == '\n';
    }
}

/// A quoted well-formed string starts and ends with a quote and is free of
/// newlines.
proof fn lemma_quote_text(v: Seq<char>)
    requires
        wf_string(v),
    ensures
        quote(v).len() >= 2,
        quote(v)[0] == '"',
        quote(v).last() == '"',
        !quote(v).contains('\n'),
        !is_ws(quote(v)[0]),
        !is_ws(quote(v).last()),
{
    let q = quote(v);
    if q.contains('\n') {
        let k = choose|k: int| 0 <= k < q.len() && q[k] == '\n';
        if 1 <= k < q.len() - 1 {
            assert(v[k - 1] == '\n');
            assert(v.contains('\n'));
        }
    }
}

/// The encoded module array is free of newlines.
proof fn lemma_enc_modules_text(ms: Seq<Seq<char>>)
    requires
        forall|i: int| 0 <= i < ms.len() ==> wf_module(#[trigger] ms[i]),
    ensures
        !enc_modules(ms).contains('\n'),
        ms.len() > 0 ==> enc_modules(ms)[0] == '"',
        ms.len() > 0 ==> enc_modules(ms).len() > 0,
    decreases ms.len(),
{
    let q = ms.map_values(|m: Seq<char>| quote(m));
    if ms.len() == 0 {
        assert(enc_modules(ms).len() == 0);
        if enc_modules(ms).contains('\n') {
            let k = choose|k: int| 0 <= k < enc_modules(ms).len() && enc_modules(ms)[k] == '\n';
        }
    } else if ms.len() == 1 {
        assert(q.len() == 1);
        assert(enc_modules(ms) == q.first());
        assert(q.first() == quote(ms[0]));
        lemma_quote_text(ms[0]);
    } else {
        let mrest = ms.drop_first();
        assert(forall|i: int| 0 <= i < mrest.len() ==> mrest[i] == ms[i + 1]);
        lemma_enc_modules_text(mrest);
        assert(q.first() == quote(ms[0]));
        assert(q.drop_first() =~= mrest.map_values(|m: Seq<char>| quote(m)));
        assert(enc_modules(ms) == q.first() + seq![','] + enc_modules(mrest));
        lemma_quote_text(ms[0]);
        lemma_concat_contains(q.first(), seq![','], '\n');
        lemma_concat_contains(q.first() + seq![','], enc_modules(mrest), '\n');
        assert(!seq![','].contains('\n')) by {
            if seq![','].contains('\n') {
                let k = choose|k: int| 0 <= k < 1 && seq![','][k] == '\n';
            }
        }
        assert((q.first() + seq![','] + enc_modules(mrest))[0] == q.first()[0]);
    }
}

/// Reading the quoted module names gives the names back.
proof fn lemma_elems_quotes(ms: Seq<Seq<char>>)
    requires
        forall|i: int| 0 <= i < ms.len() ==> wf_module(#[trigger] ms[i]),
    ensures
        spec_parse_elems(ms.map_values(|m: Seq<char>| quote(m))) == Some(ms),
    decreases ms.len(),
{
    let q = ms.map_values(|m: Seq<char>| quote(m));
    if ms.len() == 0 {
        assert(spec_parse_elems(q) == Some(Seq::<Seq<char>>::empty()));
        assert(Seq::<Seq<char>>::empty() =~= ms);
    } else {
        let mrest = ms.drop_first();
        assert(forall|i: int| 0 <= i < mrest.len() ==> mrest[i] == ms[i + 1]);
        lemma_elems_quotes(mrest);
        assert(q.first() == quote(ms[0]));
        assert(q.drop_first() =~= mrest.map_values(|m: Seq<char>| quote(m)));
        lemma_quote_text(ms[0]);
        crate::textparse::lemma_trim_noop(quote(ms[0]));
        crate::textparse::lemma_parse_quote(ms[0]);
        assert(spec_parse_elems(q) == Some(seq![ms[0]] + mrest));
        assert(seq![ms[0]] + mrest =~= ms);
    }
}

/// Stepping over a `key = value` line is the key dispatch, for a clean key
/// and a value with no blank at either end.
proof fn lemma_step_kv(st: PStateV, key: Seq<char>, val: Seq<char>)
    requires
        key.len() > 0,
        val.len() > 0,
        !key.contains('='),
        !is_ws(key[0]),
        !is_ws(key.last()),
        !is_ws(val[0]),
        !is_ws(val.last()),
        key[0] != '#',
        key[0] != '[',
    ensures
        spec_step(st, key + " = "@ + val) == spec_dispatch(st, key, val),
{
    reveal_strlit(" = ");
    assert(" = "@ =~= seq![' ', '=', ' ']);
    let line = key + " = "@ + val;
    let kn = key.len() as int;
    assert(line.len() == key.len() + 3 + val.len());
    assert(forall|k: int| 0 <= k < kn ==> line[k] == key[k]);
    assert(line[kn] == ' ');
    assert(line[kn + 1] == '=');
    assert(line[kn + 2] == ' ');
    assert(forall|k: int| 0 <= k < val.len() ==> line[kn + 3 + k] == val[k]);
    assert(line[0] == key[0]);
    assert(line.last() == val.last());
    lemma_trim_noop(line);
    let t = spec_trim(line);
    assert(t == line);
    // The first equals sign stands right after the key and the blank.
    assert forall|k: int| 0 <= k < kn + 1 implies line[k] != '=' by {
        if k < kn {
            if line[k] == '=' {
                assert(key[k] == '=');
                assert(key.contains('='));
            }
        }
    }
    lemma_find_ch_unique(line, '=', kn + 1);
    // The raw key is the key followed by one blank.
    assert(line.subrange(0, kn + 1) =~= key + seq![' ']);
    let kraw = key + seq![' '];
    assert(kraw[0] == key[0]);
    lemma_lead_ws_unique(kraw, 0);
    assert(kraw.last() == ' ');
    assert(kraw[kraw.len() - 2] == key.last());
    lemma_trail_ws_unique(kraw, 1);
    assert(kraw.subrange(0, kraw.len() as int) =~= kraw);
    assert(spec_trim(kraw) =~= key);
    // The raw value is one blank followed by the value.
    assert(line.subrange(kn + 2, line.len() as int) =~= seq![' '] + val);
    let vraw = seq![' '] + val;
    assert(is_ws(vraw[0]));
    assert(vraw[1] == val[0]);
    lemma_lead_ws_unique(vraw, 1);
    assert(vraw.last() == val.last());
    lemma_trail_ws_unique(vraw.subrange(1, vraw.len() as int), 0);
    assert(vraw.subrange(1, vraw.len() as int) =~= val);
    assert(spec_trim(vraw) =~= val);
    assert(t[0] == key[0]);
}

/// Reading a written document gives the configuration back, whole: the
/// round trip that saving and loading relies on.
#[verifier::rlimit(100)]
pub proof fn lemma_config_round_trip(c: ConfigV)
    requires
        wf_config(c),
    ensures
        spec_parse_config(spec_encode_config(c)) == Some(c),
{
    reveal_strlit("refresh_rate = ");
    reveal_strlit("refresh_rate");
    reveal_strlit("show_hints = ");
    reveal_strlit("show_hints");
    reveal_strlit("true");
    reveal_strlit("false");
    reveal_strlit("modules = [");
    reveal_strlit("modules");
    reveal_strlit("[");
    reveal_strlit("]");
    reveal_strlit("[theme]");
    reveal_strlit("theme");
    reveal_strlit("border_color = ");
    reveal_strlit("border_color");
    reveal_strlit("title_color = ");
    reveal_strlit("title_color");
    reveal_strlit("text_color = ");
    reveal_strlit("text_color");
    reveal_strlit("key_color = ");
    reveal_strlit("key_color");
    reveal_strlit("value_color = ");
    reveal_strlit("value_color");
    reveal_strlit("gauge_cpu_low = ");
    reveal_strlit("gauge_cpu_low");
    reveal_strlit("gauge_cpu_high = ");
    reveal_strlit("gauge_cpu_high");
    reveal_strlit("gauge_ram = ");
    reveal_strlit("gauge_ram");
    reveal_strlit(" = ");
    let ls = enc_lines(c);
    lemma_dec_text(c.refresh_rate);
    lemma_quote_text(c.theme.border_color);
    lemma_quote_text(c.theme.title_color);
    lemma_quote_text(c.theme.text_color);
    lemma_quote_text(c.theme.key_color);
    lemma_quote_text(c.theme.value_color);
    lemma_quote_text(c.theme.gauge_cpu_low);
    lemma_quote_text(c.theme.gauge_cpu_high);
    lemma_quote_text(c.theme.gauge_ram);
    lemma_enc_modules_text(c.modules);
    // No line holds a newline.
    assert forall|i: int| 0 <= i < ls.len() implies !(#[trigger] ls[i]).contains('\n') by {
        lemma_line_no_newline(c, i);
    }
    lemma_split_join_term(ls, '\n');
    assert(split_on(spec_encode_config(c), '\n') == ls);
    // Walk the machine through the twelve lines.
    let st0 = init_state();
    assert("refresh_rate = "@ =~= "refresh_rate"@ + " = "@);
    assert(ls[0] =~= "refresh_rate"@ + " = "@ + dec_seq(c.refresh_rate as nat));
    lemma_step_kv(st0, "refresh_rate"@, dec_seq(c.refresh_rate as nat));
    lemma_parse_dec_seq(c.refresh_rate);
    let st1 = PStateV { refresh_rate: Some(c.refresh_rate), ..st0 };
    assert(spec_step(st0, ls[0]) == Some(st1));

    let bval = if c.show_hints { "true"@ } else { "false"@ };
    assert("show_hints = "@ =~= "show_hints"@ + " = "@);
    assert(ls[1] =~= "show_hints"@ + " = "@ + bval);
    lemma_step_kv(st1, "show_hints"@, bval);
    assert(spec_parse_bool(bval) == Some(c.show_hints));
    let st2 = PStateV { show_hints: Some(c.show_hints), ..st1 };
    assert(spec_step(st1, ls[1]) == Some(st2));

    let aval = "["@ + enc_modules(c.modules) + "]"@;
    assert("modules = ["@ + enc_modules(c.modules) + "]"@ =~= "modules"@ + " = "@ + aval);
    assert(ls[2] =~= "modules"@ + " = "@ + aval);
    assert(aval[0] == '[');
    assert(aval.last() == ']');
    lemma_step_kv(st2, "modules"@, aval);
    lemma_parse_array_enc(c.modules);
    let st3 = PStateV { modules: Some(c.modules), ..st2 };
    assert(spec_step(st2, ls[2]) == Some(st3));

    assert(ls[3] == "[theme]"@);
    let hd = "[theme]"@;
    assert(hd =~= seq!['[', 't', 'h', 'e', 'm', 'e', ']']);
    lemma_trim_noop(hd);
    assert(spec_trim(hd)[0] == '[');
    assert(spec_trim(hd).last() == ']');
    assert(hd.subrange(1, hd.len() - 1) =~= "theme"@);
    lemma_trim_noop("theme"@);
    let st4 = PStateV { section: 1, ..st3 };
    assert(spec_step(st3, ls[3]) == Some(st4));

    let st5 = lemma_theme_step(st4, c, 4);
    let st6 = lemma_theme_step(st5, c, 5);
    let st7 = lemma_theme_step(st6, c, 6);
    let st8 = lemma_theme_step(st7, c, 7);
    let st9 = lemma_theme_step(st8, c, 8);
    let st10 = lemma_theme_step(st9, c, 9);
    let st11 = lemma_theme_step(st10, c, 10);
    let st12 = lemma_theme_step(st11, c, 11);

    lemma_run_lines(ls, seq![st0, st1, st2, st3, st4, st5, st6, st7, st8, st9, st10, st11, st12]);
    assert(spec_run(st0, ls) == Some(st12));
    assert(spec_finish(st12) == Some(c)) by {
        let r = spec_finish(st12)->0;
        assert(r.theme =~= c.theme);
        assert(r =~= c);
    }
}

/// One line of the theme table moves the machine one assignment on.
#[verifier::rlimit(100)]
proof fn lemma_theme_step(st: PStateV, c: ConfigV, k: int) -> (r: PStateV)
    requires
        wf_config(c),
        st.section == 1,
        4 <= k < 12,
    ensures
        spec_step(st, enc_lines(c)[k]) == Some(r),
        r == theme_stepped(st, c, k),
{
    reveal_strlit("border_color = ");
    reveal_strlit("border_color");
    reveal_strlit("title_color = ");
    reveal_strlit("title_color");
    reveal_strlit("text_color = ");
    reveal_strlit("text_color");
    reveal_strlit("key_color = ");
    reveal_strlit("key_color");
    reveal_strlit("value_color = ");
    reveal_strlit("value_color");
    reveal_strlit("gauge_cpu_low = ");
    reveal_strlit("gauge_cpu_low");
    reveal_strlit("gauge_cpu_high = ");
    reveal_strlit("gauge_cpu_high");
    reveal_strlit("gauge_ram = ");
    reveal_strlit("gauge_ram");
    reveal_strlit(" = ");
    let (key, val) = theme_line_parts(c, k);
    lemma_quote_text(val_of(c, k));
    crate::textparse::lemma_parse_quote(val_of(c, k));
    if k == 4 {
        assert("border_color = "@ =~= "border_color"@ + " = "@);
        assert(enc_lines(c)[k] =~= key + " = "@ + val);
    } else if k == 5 {
        assert("title_color = "@ =~= "title_color"@ + " = "@);
        assert(enc_lines(c)[k] =~= key + " = "@ + val);
    } else if k == 6 {
        assert("text_color = "@ =~= "text_color"@ + " = "@);
        assert(enc_lines(c)[k] =~= key + " = "@ + val);
    } else if k == 7 {
        assert("key_color = "@ =~= "key_color"@ + " = "@);
        assert(enc_lines(c)[k] =~= key + " = "@ + val);
    } else if k == 8 {
        assert("value_color = "@ =~= "value_color"@ + " = "@);
        assert(enc_lines(c)[k] =~= key + " = "@ + val);
    } else if k == 9 {
        assert("gauge_cpu_low = "@ =~= "gauge_cpu_low"@ + " = "@);
        assert(enc_lines(c)[k] =~= key + " = "@ + val);
    } else if k == 10 {
        assert("gauge_cpu_high = "@ =~= "gauge_cpu_high"@ + " = "@);
        assert(enc_lines(c)[k] =~= key + " = "@ + val);
    } else {
        assert("gauge_ram = "@ =~= "gauge_ram"@ + " = "@);
        assert(enc_lines(c)[k] =~= key + " = "@ + val);
    }
    lemma_step_kv(st, key, val);
    theme_stepped(st, c, k)
}

/// The key and the quoted value of theme line `k`.
spec fn theme_line_parts(c: ConfigV, k: int) -> (Seq<char>, Seq<char>) {
    (
        if k == 4 {
            "border_color"@
        } else if k == 5 {
            "title_color"@
        } else if k == 6 {
            "text_color"@
        } else if k == 7 {
            "key_color"@
        } else if k == 8 {
            "value_color"@
        } else if k == 9 {
            "gauge_cpu_low"@
        } else if k == 10 {
            "gauge_cpu_high"@
        } else {
            "gauge_ram"@
        },
        quote(val_of(c, k)),
    )
}

/// The color carried by theme line `k`.
spec fn val_of(c: ConfigV, k: int) -> Seq<char> {
    if k == 4 {
        c.theme.border_color
    } else if k == 5 {
        c.theme.title_color
    } else if k == 6 {
        c.theme.text_color
    } else if k == 7 {
        c.theme.key_color
    } else if k == 8 {
        c.theme.value_color
    } else if k == 9 {
        c.theme.gauge_cpu_low
    } else if k == 10 {
        c.theme.gauge_cpu_high
    } else {
        c.theme.gauge_ram
    }
}

/// The state after theme line `k`.
spec fn theme_stepped(st: PStateV, c: ConfigV, k: int) -> PStateV {
    if k == 4 {
        PStateV { border_color: Some(c.theme.border_color), ..st }
    } else if k == 5 {
        PStateV { title_color: Some(c.theme.title_color), ..st }
    } else if k == 6 {
        PStateV { text_color: Some(c.theme.text_color), ..st }
    } else if k == 7 {
        PStateV { key_color: Some(c.theme.key_color), ..st }
    } else if k == 8 {
        PStateV { value_color: Some(c.theme.value_color), ..st }
    } else if k == 9 {
        PStateV { gauge_cpu_low: Some(c.theme.gauge_cpu_low), ..st }
    } else if k == 10 {
        PStateV { gauge_cpu_high: Some(c.theme.gauge_cpu_high), ..st }
    } else {
        PStateV { gauge_ram: Some(c.theme.gauge_ram), ..st }
    }
}

/// The written module array reads back as the module list.
proof fn lemma_parse_array_enc(ms: Seq<Seq<char>>)
    requires
        forall|i: int| 0 <= i < ms.len() ==> wf_module(#[trigger] ms[i]),
    ensures
        spec_parse_array("["@ + enc_modules(ms) + "]"@) == Some(ms),
{
    reveal_strlit("[");
    reveal_strlit("]");
    let v = "["@ + enc_modules(ms) + "]"@;
    assert(v[0] == '[');
    assert(v.last() == ']');
    assert(v.len() >= 2);
    let inner = v.subrange(1, v.len() - 1);
    assert(inner =~= enc_modules(ms));
    lemma_enc_modules_text(ms);
    if ms.len() == 0 {
        assert(enc_modules(ms) =~= Seq::<char>::empty());
        assert(spec_trim(inner).len() == 0) by {
            crate::textparse::lemma_lead_ws(inner);
            crate::textparse::lemma_trail_ws(spec_trim(inner));
            crate::textparse::lemma_lead_ws_unique(inner, 0);
        }
        assert(spec_parse_array(v) == Some(Seq::<Seq<char>>::empty()));
        assert(Seq::<Seq<char>>::empty() =~= ms);
    } else {
        assert(inner[0] == '"');
        assert(spec_trim(inner).len() != 0) by {
            crate::textparse::lemma_lead_ws_unique(inner, 0);
            let l = inner.subrange(0, inner.len() as int);
            assert(l =~= inner);
            crate::textparse::lemma_trail_ws(l);
            if trail_ws_full(l) {
                assert(is_ws(l[0]));
            }
        }
        let q = ms.map_values(|m: Seq<char>| quote(m));
        assert forall|i: int| 0 <= i < q.len() implies !(#[trigger] q[i]).contains(',')
            && q[i].len() > 0 by {
            assert(q[i] == quote(ms[i]));
            lemma_quote_not_comma(ms[i]);
        }
        lemma_split_sep_join(q, ',');
        assert(split_on(inner, ',') == q);
        lemma_elems_quotes(ms);
    }
}

/// Whether the whole of `l` is blank.
spec fn trail_ws_full(l: Seq<char>) -> bool {
    crate::textparse::trail_ws(l) == l.len()
}

/// A quoted module name is non-empty and free of commas.
proof fn lemma_quote_not_comma(m: Seq<char>)
    requires
        wf_module(m),
    ensures
        !quote(m).contains(','),
        quote(m).len() > 0,
{
    let q = quote(m);
    if q.contains(',') {
        let k = choose|k: int| 0 <= k < q.len() && q[k] == ',';
        if 1 <= k < q.len() - 1 {
            assert(m[k - 1] == ',');
            assert(m.contains(','));
        }
    }
}

/// No line of the written document holds a newline.
proof fn lemma_line_no_newline(c: ConfigV, i: int)
    requires
        wf_config(c),
        0 <= i < enc_lines(c).len(),
    ensures
        !enc_lines(c)[i].contains('\n'),
{
    reveal_strlit("refresh_rate = ");
    reveal_strlit("show_hints = ");
    reveal_strlit("true");
    reveal_strlit("false");
    reveal_strlit("modules = [");
    reveal_strlit("]");
    reveal_strlit("[theme]");
    reveal_strlit("border_color = ");
    reveal_strlit("title_color = ");
    reveal_strlit("text_color = ");
    reveal_strlit("key_color = ");
    reveal_strlit("value_color = ");
    reveal_strlit("gauge_cpu_low = ");
    reveal_strlit("gauge_cpu_high = ");
    reveal_strlit("gauge_ram = ");
    lemma_dec_text(c.refresh_rate);
    lemma_enc_modules_text(c.modules);
    lemma_quote_text(c.theme.border_color);
    lemma_quote_text(c.theme.title_color);
    lemma_quote_text(c.theme.text_color);
    lemma_quote_text(c.theme.key_color);
    lemma_quote_text(c.theme.value_color);
    lemma_quote_text(c.theme.gauge_cpu_low);
    lemma_quote_text(c.theme.gauge_cpu_high);
    lemma_quote_text(c.theme.gauge_ram);
    let l = enc_lines(c)[i];
    if l.contains('\n') {
        let k = choose|k: int| 0 <= k < l.len() && l[k] == '\n';
        if i == 0 {
            lemma_concat_contains("refresh_rate = "@, dec_seq(c.refresh_rate as nat), '\n');
        } else if i == 1 {
            lemma_concat_contains(
                "show_hints = "@,
                if c.show_hints { "true"@ } else { "false"@ },
                '\n',
            );
        } else if i == 2 {
            lemma_concat_contains("modules = ["@, enc_modules(c.modules), '\n');
            lemma_concat_contains("modules = ["@ + enc_modules(c.modules), "]"@, '\n');
        } else if i == 3 {
        } else if i == 4 {
            lemma_concat_contains("border_color = "@, quote(c.theme.border_color), '\n');
        } else if i == 5 {
            lemma_concat_contains("title_color = "@, quote(c.theme.title_color), '\n');
        } else if i == 6 {
            lemma_concat_contains("text_color = "@, quote(c.theme.text_color), '\n');
        } else if i == 7 {
            lemma_concat_contains("key_color = "@, quote(c.theme.key_color), '\n');
        } else if i == 8 {
            lemma_concat_contains("value_color = "@, quote(c.theme.value_color), '\n');
        } else if i == 9 {
            lemma_concat_contains("gauge_cpu_low = "@, quote(c.theme.gauge_cpu_low), '\n');
        } else if i == 10 {
            lemma_concat_contains("gauge_cpu_high = "@, quote(c.theme.gauge_cpu_high), '\n');
        } else {
            lemma_concat_contains("gauge_ram = "@, quote(c.theme.gauge_ram), '\n');
        }
    }
}

/// A run through lines whose single steps are known.
proof fn lemma_run_lines(ls: Seq<Seq<char>>, sts: Seq<PStateV>)
    requires
        sts.len() == ls.len() + 1,
        forall|k: int| 0 <= k < ls.len() ==> spec_step(#[trigger] sts[k], ls[k]) == Some(sts[k + 1]),
    ensures
        spec_run(sts[0], ls) == Some(sts.last()),
    decreases ls.len(),
{
    if ls.len() == 0 {
    } else {
        let lrest = ls.drop_first();
        let srest = sts.drop_first();
        assert(forall|k: int| 0 <= k < lrest.len() ==> lrest[k] == ls[k + 1]);
        assert(forall|k: int| 0 <= k < srest.len() ==> srest[k] == sts[k + 1]);
        assert(spec_step(sts[0], ls.first()) == Some(sts[1]));
        lemma_run_lines(lrest, srest);
        assert(srest[0] == sts[1]);
        assert(srest.last() == sts.last());
    }
}

} // verus!
