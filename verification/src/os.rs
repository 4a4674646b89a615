//! Host identity: OS name, kernel, hostname, shell, desktop, window
//! manager, terminal and locale. Detection that can fail resolves to a
//! sentinel here, never to an error. Environment values come in as plain
//! optional strings; the OS handle is read through the trusted wrappers.

use vstd::prelude::*;

use crate::strutil::{chars_contain, has_sub, str_to_chars, chars_to_string};
use crate::textparse::copy_range;

verus! {

pub struct OsInfo {
    pub name: String,
    pub kernel: String,
    pub hostname: String,
    pub shell: String,
    pub de_wm: String,
    pub wm: String,
    pub terminal: String,
    pub locale: String,
}

/// The environment facts the identity is derived from, read by the caller.
pub struct EnvInfo {
    pub shell_path: Option<String>,
    pub desktop: Option<String>,
    pub session: Option<String>,
    pub lang: Option<String>,
}

/// A detected value, or the given sentinel where detection failed.
pub fn or_sentinel(o: Option<String>, fallback: &str) -> (r: String)
    ensures
        match o {
            Some(s) => r@ == s@,
            None => r@ == fallback@,
        },
{
    match o {
        Some(s) => s,
        None => fallback.to_owned(),
    }
}

/// What follows the last `/`; the whole text when there is none.
pub open spec fn after_last_slash(s: Seq<char>) -> Seq<char>
    decreases s.len(),
{
    if s.len() == 0 {
        s
    } else if s.last() == '/' {
        Seq::empty()
    } else {
        after_last_slash(s.drop_last()).push(s.last())
    }
}

/// The base name of a path: the component after the last slash.
pub fn basename_of(s: &str) -> (r: String)
    ensures
        r@ == after_last_slash(s@),
{
    let v = str_to_chars(s);
    let n = v.len();
    proof {
        assert(v@.subrange(0, n as int) =~= v@);
        assert(v@.subrange(n as int, n as int) =~= Seq::<char>::empty());
    }
    let mut j: usize = n;
    while j > 0 && v[j - 1] != '/'
        invariant
            j <= n,
            n == v@.len(),
            after_last_slash(v@) == after_last_slash(v@.subrange(0, j as int)) + v@.subrange(
                j as int,
                n as int,
            ),
        decreases j,
    {
        proof {
            let pre = v@.subrange(0, j as int);
            assert(pre.last() == v@[j - 1]);
            assert(pre.drop_last() =~= v@.subrange(0, j - 1));
            assert(after_last_slash(pre) == after_last_slash(v@.subrange(0, j - 1)).push(
                v@[j - 1],
            ));
            assert(after_last_slash(v@.subrange(0, j - 1)).push(v@[j - 1]) + v@.subrange(
                j as int,
                n as int,
            ) =~= after_last_slash(v@.subrange(0, j - 1)) + v@.subrange(j - 1, n as int));
        }
        j = j - 1;
    }
    proof {
        if j == 0 {
            assert(v@.subrange(0, 0).len() == 0);
            assert(after_last_slash(v@.subrange(0, 0)) + v@.subrange(0, n as int) =~= v@.subrange(
                0,
                n as int,
            ));
        } else {
            let pre = v@.subrange(0, j as int);
            assert(pre.last() == v@[j - 1]);
            assert(after_last_slash(pre) =~= Seq::<char>::empty());
            assert(Seq::<char>::empty() + v@.subrange(j as int, n as int) =~= v@.subrange(
                j as int,
                n as int,
            ));
        }
    }
    let tail = copy_range(&v, j, n);
    chars_to_string(&tail)
}

/// The label a process name earns if it is a known window manager.
pub open spec fn wm_label(n: Seq<char>) -> Option<Seq<char>> {
    if has_sub(n, "kwin_wayland"@) || has_sub(n, "kwin_x11"@) {
        Some("KWin"@)
    } else if has_sub(n, "gnome-shell"@) {
        Some("Mutter (GNOME)"@)
    } else if has_sub(n, "mutter"@) {
        Some("mutter"@)
    } else if has_sub(n, "sway"@) {
        Some("sway"@)
    } else if has_sub(n, "hyprland"@) {
        Some("hyprland"@)
    } else if has_sub(n, "openbox"@) {
        Some("openbox"@)
    } else if has_sub(n, "i3"@) {
        Some("i3"@)
    } else if has_sub(n, "bspwm"@) {
        Some("bspwm"@)
    } else if has_sub(n, "xfwm4"@) {
        Some("xfwm4"@)
    } else if has_sub(n, "metacity"@) {
        Some("metacity"@)
    } else if has_sub(n, "weston"@) {
        Some("weston"@)
    } else if has_sub(n, "labwc"@) {
        Some("labwc"@)
    } else if has_sub(n, "wayfire"@) {
        Some("wayfire"@)
    } else {
        None
    }
}

/// The window manager found among the process names: the first name that
/// earns a label; none earns the sentinel.
pub open spec fn spec_detect_wm(names: Seq<Seq<char>>) -> Seq<char>
    decreases names.len(),
{
    if names.len() == 0 {
        "Unknown"@
    } else {
        match wm_label(names.first()) {
            Some(l) => l,
            None => spec_detect_wm(names.drop_first()),
        }
    }
}

fn wm_label_exec(name: &String) -> (r: Option<String>)
    ensures
        match r {
            Some(l) => wm_label(name@) == Some(l@),
            None => wm_label(name@) is None,
        },
{
    let v = str_to_chars(name.as_str());
    if chars_contain(&v, "kwin_wayland") || chars_contain(&v, "kwin_x11") {
        Some("KWin".to_owned())
    } else if chars_contain(&v, "gnome-shell") {
        Some("Mutter (GNOME)".to_owned())
    } else if chars_contain(&v, "mutter") {
        Some("mutter".to_owned())
    } else if chars_contain(&v, "sway") {
        Some("sway".to_owned())
    } else if chars_contain(&v, "hyprland") {
        Some("hyprland".to_owned())
    } else if chars_contain(&v, "openbox") {
        Some("openbox".to_owned())
    } else if chars_contain(&v, "i3") {
        Some("i3".to_owned())
    } else if chars_contain(&v, "bspwm") {
        Some("bspwm".to_owned())
    } else if chars_contain(&v, "xfwm4") {
        Some("xfwm4".to_owned())
    } else if chars_contain(&v, "metacity") {
        Some("metacity".to_owned())
    } else if chars_contain(&v, "weston") {
        Some("weston".to_owned())
    } else if chars_contain(&v, "labwc") {
        Some("labwc".to_owned())
    } else if chars_contain(&v, "wayfire") {
        Some("wayfire".to_owned())
    } else {
        None
    }
}

/// Scans the process names for a known window manager.
pub fn detect_wm(names: &Vec<String>) -> (r: String)
    ensures
        r@ == spec_detect_wm(names@.map_values(|s: String| s@)),
{
    let ghost nv = names@.map_values(|s: String| s@);
    proof {
        assert(nv.skip(0) =~= nv);
    }
    let mut i: usize = 0;
    while i < names.len()
        invariant
            i <= names@.len(),
            nv == names@.map_values(|s: String| s@),
            spec_detect_wm(nv) == spec_detect_wm(nv.skip(i as int)),
        decreases names@.len() - i,
    {
        proof {
            assert(nv[i as int] == names@[i as int]@);
            assert(nv.skip(i as int).first() == nv[i as int]);
            assert(nv.skip(i as int).drop_first() =~= nv.skip(i + 1));
        }
        match wm_label_exec(&names[i]) {
            Some(l) => {
                return l;
            },
            None => {},
        }
        i = i + 1;
    }
    proof {
        assert(nv.skip(i as int) =~= Seq::<Seq<char>>::empty());
    }
    "Unknown".to_owned()
}

/// Walks the process tree two levels up from this process and reports that
/// ancestor's name: the terminal the dashboard runs in, as a rule. Any
/// break in the chain yields the sentinel. What comes back depends on the
/// machine's process table.
pub fn detect_terminal(sys: &mut sysinfo::System) -> String {
    crate::sysapi::refresh_processes_all(sys);
    let name = match crate::sysapi::current_pid() {
        Some(pid) => match crate::sysapi::process_parent(sys, pid) {
            Some(parent) => match crate::sysapi::process_parent(sys, parent) {
                Some(grandparent) => crate::sysapi::process_name_of(sys, grandparent),
                None => None,
            },
            None => None,
        },
        None => None,
    };
    or_sentinel(name, "Unknown")
}

/// The desktop value: the desktop variable, else the session variable,
/// else the sentinel.
pub open spec fn spec_de(desktop: Option<String>, session: Option<String>) -> Seq<char> {
    match desktop {
        Some(d) => d@,
        None => match session {
            Some(s) => s@,
            None => "Unknown"@,
        },
    }
}

impl OsInfo {
    /// Gathers the host identity. OS facts come off the handle (machine
    /// state); everything derived from the given environment values is
    /// pinned down exactly, sentinels included.
    pub fn new(sys: &mut sysinfo::System, env: EnvInfo) -> (r: OsInfo)
        ensures
            r.shell@ == match env.shell_path {
                Some(p) => after_last_slash(p@),
                None => "Unknown"@,
            },
            r.de_wm@ == spec_de(env.desktop, env.session),
            r.locale@ == match env.lang {
                Some(l) => l@,
                None => "Unknown"@,
            },
    {
        let name = or_sentinel(crate::sysapi::os_name(), "Unknown");
        let kernel = or_sentinel(crate::sysapi::kernel_version(), "Unknown");
        let hostname = or_sentinel(crate::sysapi::host_name(), "localhost");
        let shell = match env.shell_path {
            Some(p) => basename_of(p.as_str()),
            None => "Unknown".to_owned(),
        };
        let de_wm = match env.desktop {
            Some(d) => d,
            None => match env.session {
                Some(s) => s,
                None => "Unknown".to_owned(),
            },
        };
        let terminal = detect_terminal(sys);
        let rows = crate::sysapi::process_rows(sys);
        let mut names: Vec<String> = Vec::new();
        let mut i: usize = 0;
        while i < rows.len()
            decreases rows@.len() - i,
        {
            names.push(rows[i].name.clone());
            i = i + 1;
        }
        let wm = detect_wm(&names);
        let locale = match env.lang {
            Some(l) => l,
            None => "Unknown".to_owned(),
        };
        OsInfo { name, kernel, hostname, shell, de_wm, wm, terminal, locale }
    }
}

} // verus!
