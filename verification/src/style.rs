//! Desktop style detection: theme, icon, font, cursor and window-manager
//! theme names, read out of the desktop's INI-style settings files. The
//! files' contents come in as plain optional strings; a missing file or
//! key resolves to that field's documented default.

use vstd::prelude::*;

use crate::strutil::{chars_contain, has_sub, lower_seq, str_to_chars, to_lower, chars_to_string};
use crate::textparse::{
    find_ch, split_on, spec_trim, find_in_range, trim_range, copy_range, range_eq_str,
    split_range_on,
};

verus! {

pub struct StyleInfo {
    pub theme: String,
    pub icons: String,
    pub font: String,
    pub cursor: String,
    pub wm_theme: String,
}

/// One INI line against the current section: a `[...]` header names the
/// new section; a `key = value` line in the wanted section with the wanted
/// key yields its value.
pub open spec fn ini_run(
    lines: Seq<Seq<char>>,
    cur: Seq<char>,
    section: Seq<char>,
    key: Seq<char>,
) -> Option<Seq<char>>
    decreases lines.len(),
{
    if lines.len() == 0 {
        None
    } else {
        let t = spec_trim(lines.first());
        if t.len() >= 2 && t[0] == '[' && t.last() == ']' {
            ini_run(lines.drop_first(), t.subrange(1, t.len() - 1), section, key)
        } else if cur == section {
            let e = find_ch(t, '=');
            if e < t.len() && spec_trim(t.subrange(0, e as int)) == key {
                Some(spec_trim(t.subrange(e as int + 1, t.len() as int)))
            } else {
                ini_run(lines.drop_first(), cur, section, key)
            }
        } else {
            ini_run(lines.drop_first(), cur, section, key)
        }
    }
}

/// The first value the wanted section assigns to the wanted key.
pub open spec fn spec_ini_lookup(s: Seq<char>, section: Seq<char>, key: Seq<char>) -> Option<
    Seq<char>,
> {
    ini_run(split_on(s, '\n'), Seq::empty(), section, key)
}

/// Looks a key up in INI text.
pub fn ini_lookup(content: &str, section: &str, key: &str) -> (r: Option<String>)
    ensures
        match r {
            Some(v) => spec_ini_lookup(content@, section@, key@) == Some(v@),
            None => spec_ini_lookup(content@, section@, key@) is None,
        },
{
    let chars = str_to_chars(content);
    let lines = split_range_on(&chars, 0, chars.len(), '\n');
    let ghost lviews = lines@.map_values(|p: Vec<char>| p@);
    proof {
        assert(chars@.subrange(0, chars@.len() as int) =~= content@);
        assert(lviews.skip(0) =~= lviews);
    }
    let mut cur: Vec<char> = Vec::new();
    let mut i: usize = 0;
    while i < lines.len()
        invariant
            i <= lines@.len(),
            lviews == lines@.map_values(|p: Vec<char>| p@),
            lviews == split_on(content@, '\n'),
            spec_ini_lookup(content@, section@, key@) == ini_run(
                lviews.skip(i as int),
                cur@,
                section@,
                key@,
            ),
        decreases lines@.len() - i,
    {
        proof {
            assert(lviews.skip(i as int).first() == lviews[i as int]);
            assert(lviews[i as int] == lines@[i as int]@);
            assert(lviews.skip(i as int).drop_first() =~= lviews.skip(i + 1));
        }
        let line = &lines[i];
        let n = line.len();
        let (ta, tb) = trim_range(line, 0, n);
        let ghost t = spec_trim(line@);
        proof {
            assert(line@.subrange(0, n as int) =~= line@);
            assert(t == line@.subrange(ta as int, tb as int));
        }
        if tb - ta >= 2 && line[ta] == '[' && line[tb - 1] == ']' {
            proof {
                assert(t[0] == line@[ta as int]);
                assert(t.last() == line@[tb - 1]);
            }
            cur = copy_range(line, ta + 1, tb - 1);
            proof {
                assert(cur@ =~= t.subrange(1, t.len() - 1));
            }
        } else {
            proof {
                if t.len() >= 2 {
                    assert(t[0] == line@[ta as int]);
                    assert(t.last() == line@[tb - 1]);
                }
            }
            if crate::strutil::chars_eq_str(&cur, section) {
                let e = find_in_range(line, ta, tb, '=');
                proof {
                    assert(e - ta == find_ch(t, '='));
                }
                if e < tb {
                    let (ka, kb) = trim_range(line, ta, e);
                    proof {
                        assert(t.subrange(0, e - ta) =~= line@.subrange(ta as int, e as int));
                    }
                    if range_eq_str(line, ka, kb, key) {
                        let (va, vb) = trim_range(line, e + 1, tb);
                        proof {
                            assert(t.subrange(e - ta + 1, t.len() as int) =~= line@.subrange(
                                e as int + 1,
                                tb as int,
                            ));
                        }
                        let value = copy_range(line, va, vb);
                        return Some(chars_to_string(&value));
                    }
                }
            }
        }
        i = i + 1;
    }
    proof {
        assert(lviews.skip(i as int) =~= Seq::<Seq<char>>::empty());
    }
    None
}

/// A lookup against a file that may be missing.
pub open spec fn spec_opt_lookup(
    content: Option<String>,
    section: Seq<char>,
    key: Seq<char>,
) -> Option<Seq<char>> {
    match content {
        Some(c) => spec_ini_lookup(c@, section, key),
        None => None,
    }
}

fn opt_lookup(content: &Option<String>, section: &str, key: &str) -> (r: Option<String>)
    ensures
        match r {
            Some(v) => spec_opt_lookup(*content, section@, key@) == Some(v@),
            None => spec_opt_lookup(*content, section@, key@) is None,
        },
{
    match content {
        Some(c) => ini_lookup(c.as_str(), section, key),
        None => None,
    }
}

/// The desktop's raw font entry cleaned for display: the part before the
/// first comma, with the following field as a point size.
pub open spec fn spec_clean_font(f: Seq<char>) -> Seq<char> {
    let i = find_ch(f, ',');
    if i >= f.len() {
        f
    } else {
        let rest = f.subrange(i as int + 1, f.len() as int);
        let j = find_ch(rest, ',');
        let size = if j >= rest.len() {
            rest
        } else {
            rest.subrange(0, j as int)
        };
        f.subrange(0, i as int) + " ("@ + size + "pt)"@
    }
}

fn clean_font(f: &String) -> (r: String)
    ensures
        r@ == spec_clean_font(f@),
{
    let v = str_to_chars(f.as_str());
    let n = v.len();
    proof {
        assert(v@.subrange(0, n as int) =~= v@);
    }
    let i = find_in_range(&v, 0, n, ',');
    if i == n {
        return f.clone();
    }
    let ghost rest = f@.subrange(i as int + 1, n as int);
    let j = find_in_range(&v, i + 1, n, ',');
    proof {
        assert(rest =~= v@.subrange(i as int + 1, n as int));
        assert forall|k: int| 0 <= k < j - (i + 1) implies rest[k] != ',' by {
            assert(rest[k] == v@[i + 1 + k]);
        }
        if j < n {
            assert(rest[j - (i + 1)] == ',');
        }
        crate::textparse::lemma_find_ch_unique(rest, ',', j - (i + 1));
    }
    let mut out = String::new();
    let name = copy_range(&v, 0, i);
    crate::strutil::push_chars(&mut out, &name);
    out.append(" (");
    let size = copy_range(&v, i + 1, j);
    proof {
        assert(size@ =~= if j - (i + 1) >= rest.len() {
            rest
        } else {
            rest.subrange(0, j - (i + 1))
        });
    }
    crate::strutil::push_chars(&mut out, &size);
    out.append("pt)");
    proof {
        assert(Seq::<char>::empty() + f@.subrange(0, i as int) + " ("@ + size@ + "pt)"@
            =~= spec_clean_font(f@));
    }
    out
}

/// A looked-up value or its default.
fn lookup_or(content: &Option<String>, section: &str, key: &str, dflt: &str) -> (r: String)
    ensures
        r@ == match spec_opt_lookup(*content, section@, key@) {
            Some(v) => v,
            None => dflt@,
        },
{
    match opt_lookup(content, section, key) {
        Some(v) => v,
        None => dflt.to_owned(),
    }
}

/// The KDE style: settings out of `kdeglobals`, `kcminputrc` and `kwinrc`.
pub open spec fn spec_kde_theme(kdeglobals: Option<String>) -> Seq<char> {
    let raw = match spec_opt_lookup(kdeglobals, "General"@, "ColorScheme"@) {
        Some(v) => v,
        None => match spec_opt_lookup(kdeglobals, "KDE"@, "widgetStyle"@) {
            Some(v) => v,
            None => "Breeze"@,
        },
    };
    raw + " [Qt], Breeze [GTK2/3]"@
}

pub fn get_kde_style(
    kdeglobals: Option<String>,
    kcminputrc: Option<String>,
    kwinrc: Option<String>,
) -> (r: StyleInfo)
    ensures
        r.theme@ == spec_kde_theme(kdeglobals),
        r.icons@ == match spec_opt_lookup(kdeglobals, "Icons"@, "Theme"@) {
            Some(v) => v,
            None => "breeze"@,
        },
        r.font@ == spec_clean_font(
            match spec_opt_lookup(kdeglobals, "General"@, "font"@) {
                Some(v) => v,
                None => "Noto Sans,10,-1,5,50,0,0,0,0,0"@,
            },
        ),
        r.cursor@ == match spec_opt_lookup(kcminputrc, "Mouse"@, "cursorTheme"@) {
            Some(v) => v,
            None => "breeze_cursors"@,
        },
        r.wm_theme@ == match spec_opt_lookup(kwinrc, "org.kde.kdecoration2"@, "theme"@) {
            Some(v) => v,
            None => "Breeze"@,
        },
{
    let raw_theme = match opt_lookup(&kdeglobals, "General", "ColorScheme") {
        Some(v) => v,
        None => lookup_or(&kdeglobals, "KDE", "widgetStyle", "Breeze"),
    };
    let theme = raw_theme.concat(" [Qt], Breeze [GTK2/3]");
    let icons = lookup_or(&kdeglobals, "Icons", "Theme", "breeze");
    let raw_font = lookup_or(&kdeglobals, "General", "font", "Noto Sans,10,-1,5,50,0,0,0,0,0");
    let font = clean_font(&raw_font);
    let cursor = lookup_or(&kcminputrc, "Mouse", "cursorTheme", "breeze_cursors");
    let wm_theme = lookup_or(&kwinrc, "org.kde.kdecoration2", "theme", "Breeze");
    StyleInfo { theme, icons, font, cursor, wm_theme }
}

/// The GTK style: settings out of `settings.ini`.
pub fn get_gtk_style(settings: Option<String>) -> (r: StyleInfo)
    ensures
        r.theme@ == match spec_opt_lookup(settings, "Settings"@, "gtk-theme-name"@) {
            Some(v) => v,
            None => "Adwaita"@,
        },
        r.icons@ == match spec_opt_lookup(settings, "Settings"@, "gtk-icon-theme-name"@) {
            Some(v) => v,
            None => "Adwaita"@,
        },
        r.font@ == match spec_opt_lookup(settings, "Settings"@, "gtk-font-name"@) {
            Some(v) => v,
            None => "Cantarell 11"@,
        },
        r.cursor@ == match spec_opt_lookup(settings, "Settings"@, "gtk-cursor-theme-name"@) {
            Some(v) => v,
            None => "Adwaita"@,
        },
        r.wm_theme@ == "Unknown"@,
{
    let theme = lookup_or(&settings, "Settings", "gtk-theme-name", "Adwaita");
    let icons = lookup_or(&settings, "Settings", "gtk-icon-theme-name", "Adwaita");
    let font = lookup_or(&settings, "Settings", "gtk-font-name", "Cantarell 11");
    let cursor = lookup_or(&settings, "Settings", "gtk-cursor-theme-name", "Adwaita");
    StyleInfo { theme, icons, font, cursor, wm_theme: "Unknown".to_owned() }
}

/// The unknown-desktop fallback: every field the sentinel.
pub fn unknown_style() -> (r: StyleInfo)
    ensures
        r.theme@ == "Unknown"@,
        r.icons@ == "Unknown"@,
        r.font@ == "Unknown"@,
        r.cursor@ == "Unknown"@,
        r.wm_theme@ == "Unknown"@,
{
    StyleInfo {
        theme: "Unknown".to_owned(),
        icons: "Unknown".to_owned(),
        font: "Unknown".to_owned(),
        cursor: "Unknown".to_owned(),
        wm_theme: "Unknown".to_owned(),
    }
}

/// Which family of settings files the desktop name selects.
pub open spec fn spec_style_family(de_low: Seq<char>) -> int {
    if has_sub(de_low, "kde"@) || has_sub(de_low, "plasma"@) {
        0
    } else if has_sub(de_low, "gnome"@) || has_sub(de_low, "gtk"@) {
        1
    } else {
        2
    }
}

impl StyleInfo {
    /// Builds the style facts for the named desktop out of the given file
    /// contents: the KDE files for a KDE desktop, the GTK settings for a
    /// GNOME one, sentinels for anything else.
    pub fn new(
        de: &str,
        kdeglobals: Option<String>,
        kcminputrc: Option<String>,
        kwinrc: Option<String>,
        gtk_settings: Option<String>,
    ) -> (r: StyleInfo)
        ensures
            spec_style_family(lower_seq(de@)) == 2 ==> r.theme@ == "Unknown"@ && r.icons@
                == "Unknown"@ && r.font@ == "Unknown"@ && r.cursor@ == "Unknown"@ && r.wm_theme@
                == "Unknown"@,
            spec_style_family(lower_seq(de@)) == 0 ==> r.theme@ == spec_kde_theme(kdeglobals)
                && r.icons@ == (match spec_opt_lookup(kdeglobals, "Icons"@, "Theme"@) {
                Some(v) => v,
                None => "breeze"@,
            }) && r.font@ == spec_clean_font(
                match spec_opt_lookup(kdeglobals, "General"@, "font"@) {
                    Some(v) => v,
                    None => "Noto Sans,10,-1,5,50,0,0,0,0,0"@,
                },
            ) && r.cursor@ == (match spec_opt_lookup(kcminputrc, "Mouse"@, "cursorTheme"@) {
                Some(v) => v,
                None => "breeze_cursors"@,
            }) && r.wm_theme@ == (match spec_opt_lookup(
                kwinrc,
                "org.kde.kdecoration2"@,
                "theme"@,
            ) {
                Some(v) => v,
                None => "Breeze"@,
            }),
            spec_style_family(lower_seq(de@)) == 1 ==> r.theme@ == (match spec_opt_lookup(
                gtk_settings,
                "Settings"@,
                "gtk-theme-name"@,
            ) {
                Some(v) => v,
                None => "Adwaita"@,
            }) && r.icons@ == (match spec_opt_lookup(
                gtk_settings,
                "Settings"@,
                "gtk-icon-theme-name"@,
            ) {
                Some(v) => v,
                None => "Adwaita"@,
            }) && r.font@ == (match spec_opt_lookup(gtk_settings, "Settings"@, "gtk-font-name"@) {
                Some(v) => v,
                None => "Cantarell 11"@,
            }) && r.cursor@ == (match spec_opt_lookup(
                gtk_settings,
                "Settings"@,
                "gtk-cursor-theme-name"@,
            ) {
                Some(v) => v,
                None => "Adwaita"@,
            }) && r.wm_theme@ == "Unknown"@,
    {
        let low = to_lower(de);
        if chars_contain(&low, "kde") || chars_contain(&low, "plasma") {
            get_kde_style(kdeglobals, kcminputrc, kwinrc)
        } else if chars_contain(&low, "gnome") || chars_contain(&low, "gtk") {
            get_gtk_style(gtk_settings)
        } else {
            unknown_style()
        }
    }
}

} // verus!
