//! Persisted configuration: the refresh cadence, the theme palette, the
//! dashboard module order, and the hints flag. Reading and writing the
//! on-disk document is the codec's business (`confcodec`); loading and
//! storing the file itself happens outside the library.

use vstd::prelude::*;

use crate::strutil::{eq_lower, lower_seq};

verus! {

/// The eight named colors of a palette, each a color specification string
/// (`#RRGGBB`, an indexed palette number, or a color name).
#[derive(Debug, Clone)]
pub struct Theme {
    pub border_color: String,
    pub title_color: String,
    pub text_color: String,
    pub key_color: String,
    pub value_color: String,
    pub gauge_cpu_low: String,
    pub gauge_cpu_high: String,
    pub gauge_ram: String,
}

/// The persisted application configuration.
#[derive(Debug, Clone)]
pub struct Config {
    pub theme: Theme,
    pub refresh_rate: u64,
    pub modules: Vec<String>,
    pub show_hints: bool,
}

/// The mathematical value of a palette: its eight color strings.
#[verifier::ext_equal]
pub struct ThemeV {
    pub border_color: Seq<char>,
    pub title_color: Seq<char>,
    pub text_color: Seq<char>,
    pub key_color: Seq<char>,
    pub value_color: Seq<char>,
    pub gauge_cpu_low: Seq<char>,
    pub gauge_cpu_high: Seq<char>,
    pub gauge_ram: Seq<char>,
}

impl View for Theme {
    type V = ThemeV;

    open spec fn view(&self) -> ThemeV {
        ThemeV {
            border_color: self.border_color@,
            title_color: self.title_color@,
            text_color: self.text_color@,
            key_color: self.key_color@,
            value_color: self.value_color@,
            gauge_cpu_low: self.gauge_cpu_low@,
            gauge_cpu_high: self.gauge_cpu_high@,
            gauge_ram: self.gauge_ram@,
        }
    }
}

/// The mathematical value of a configuration.
#[verifier::ext_equal]
pub struct ConfigV {
    pub theme: ThemeV,
    pub refresh_rate: u64,
    pub modules: Seq<Seq<char>>,
    pub show_hints: bool,
}

impl View for Config {
    type V = ConfigV;

    open spec fn view(&self) -> ConfigV {
        ConfigV {
            theme: self.theme@,
            refresh_rate: self.refresh_rate,
            modules: self.modules@.map_values(|s: String| s@),
            show_hints: self.show_hints,
        }
    }
}

/// The default (neon) palette.
pub open spec fn default_theme_view() -> ThemeV {
    ThemeV {
        border_color: "#00ffff"@,
        title_color: "#00ffff"@,
        text_color: "#ffffff"@,
        key_color: "#ff00ff"@,
        value_color: "#00ffff"@,
        gauge_cpu_low: "#00ffff"@,
        gauge_cpu_high: "#ff0000"@,
        gauge_ram: "#ff00ff"@,
    }
}

fn neon_theme() -> (t: Theme)
    ensures
        t@ == default_theme_view(),
{
    Theme {
        border_color: "#00ffff".to_owned(),
        title_color: "#00ffff".to_owned(),
        text_color: "#ffffff".to_owned(),
        key_color: "#ff00ff".to_owned(),
        value_color: "#00ffff".to_owned(),
        gauge_cpu_low: "#00ffff".to_owned(),
        gauge_cpu_high: "#ff0000".to_owned(),
        gauge_ram: "#ff00ff".to_owned(),
    }
}

/// The dashboard rows, in their default order.
pub open spec fn default_module_views() -> Seq<Seq<char>> {
    seq![
        "os"@,
        "host"@,
        "kernel"@,
        "uptime"@,
        "packages"@,
        "shell"@,
        "display"@,
        "de"@,
        "wm"@,
        "wm_theme"@,
        "theme"@,
        "icons"@,
        "font"@,
        "cursor"@,
        "terminal"@,
        "cpu"@,
        "gpu"@,
        "memory"@,
        "disk"@,
        "battery"@,
        "locale"@,
    ]
}

/// The default order of the dashboard's information rows.
pub fn default_module_order() -> (r: Vec<String>)
    ensures
        r@.map_values(|s: String| s@) == default_module_views(),
{
    let r: Vec<String> = vec![
        "os".to_owned(),
        "host".to_owned(),
        "kernel".to_owned(),
        "uptime".to_owned(),
        "packages".to_owned(),
        "shell".to_owned(),
        "display".to_owned(),
        "de".to_owned(),
        "wm".to_owned(),
        "wm_theme".to_owned(),
        "theme".to_owned(),
        "icons".to_owned(),
        "font".to_owned(),
        "cursor".to_owned(),
        "terminal".to_owned(),
        "cpu".to_owned(),
        "gpu".to_owned(),
        "memory".to_owned(),
        "disk".to_owned(),
        "battery".to_owned(),
        "locale".to_owned(),
    ];
    proof {
        assert(r@.map_values(|s: String| s@) =~= default_module_views());
    }
    r
}

/// What a freshly built default configuration holds.
pub open spec fn is_default_config(c: ConfigV) -> bool {
    &&& c.theme == default_theme_view()
    &&& c.refresh_rate == 250
    &&& c.modules == default_module_views()
    &&& c.show_hints == true
}

impl Default for Config {
    /// The configuration used when no file exists or the file is malformed.
    fn default() -> (c: Config)
        ensures
            is_default_config(c@),
    {
        Config {
            theme: neon_theme(),
            refresh_rate: 250,
            modules: default_module_order(),
            show_hints: true,
        }
    }
}

/// The four named palette presets.
pub open spec fn dracula_theme_view() -> ThemeV {
    ThemeV {
        border_color: "#bd93f9"@,
        title_color: "#ff79c6"@,
        text_color: "#f8f8f2"@,
        key_color: "#8be9fd"@,
        value_color: "#f1fa8c"@,
        gauge_cpu_low: "#50fa7b"@,
        gauge_cpu_high: "#ff5555"@,
        gauge_ram: "#ffb86c"@,
    }
}

pub open spec fn github_theme_view() -> ThemeV {
    ThemeV {
        border_color: "#30363d"@,
        title_color: "#58a6ff"@,
        text_color: "#c9d1d9"@,
        key_color: "#d2a8ff"@,
        value_color: "#79c0ff"@,
        gauge_cpu_low: "#3fb950"@,
        gauge_cpu_high: "#ff7b72"@,
        gauge_ram: "#d2a8ff"@,
    }
}

pub open spec fn material_theme_view() -> ThemeV {
    ThemeV {
        border_color: "#89ddff"@,
        title_color: "#c792ea"@,
        text_color: "#eeffff"@,
        key_color: "#f07178"@,
        value_color: "#ffcb6b"@,
        gauge_cpu_low: "#c3e88d"@,
        gauge_cpu_high: "#ff5370"@,
        gauge_ram: "#f78c6c"@,
    }
}

pub open spec fn catppuccin_theme_view() -> ThemeV {
    ThemeV {
        border_color: "#cba6f7"@,
        title_color: "#89b4fa"@,
        text_color: "#cdd6f4"@,
        key_color: "#f9e2af"@,
        value_color: "#a6e3a1"@,
        gauge_cpu_low: "#94e2d5"@,
        gauge_cpu_high: "#f38ba8"@,
        gauge_ram: "#fab387"@,
    }
}

/// Which palette `from_name` resolves a (lower-cased) name to.
pub open spec fn theme_for_name(low: Seq<char>) -> ThemeV {
    if low == "dracula"@ {
        dracula_theme_view()
    } else if low == "github"@ {
        github_theme_view()
    } else if low == "material"@ {
        material_theme_view()
    } else if low == "catppuccin"@ {
        catppuccin_theme_view()
    } else {
        default_theme_view()
    }
}

impl Theme {
    /// Resolves a preset name, ASCII-case-insensitively; unknown names give
    /// the default palette.
    pub fn from_name(name: &str) -> (t: Theme)
        ensures
            t@ == theme_for_name(lower_seq(name@)),
    {
        if eq_lower(name, "dracula") {
            Theme {
                border_color: "#bd93f9".to_owned(),
                title_color: "#ff79c6".to_owned(),
                text_color: "#f8f8f2".to_owned(),
                key_color: "#8be9fd".to_owned(),
                value_color: "#f1fa8c".to_owned(),
                gauge_cpu_low: "#50fa7b".to_owned(),
                gauge_cpu_high: "#ff5555".to_owned(),
                gauge_ram: "#ffb86c".to_owned(),
            }
        } else if eq_lower(name, "github") {
            Theme {
                border_color: "#30363d".to_owned(),
                title_color: "#58a6ff".to_owned(),
                text_color: "#c9d1d9".to_owned(),
                key_color: "#d2a8ff".to_owned(),
                value_color: "#79c0ff".to_owned(),
                gauge_cpu_low: "#3fb950".to_owned(),
                gauge_cpu_high: "#ff7b72".to_owned(),
                gauge_ram: "#d2a8ff".to_owned(),
            }
        } else if eq_lower(name, "material") {
            Theme {
                border_color: "#89ddff".to_owned(),
                title_color: "#c792ea".to_owned(),
                text_color: "#eeffff".to_owned(),
                key_color: "#f07178".to_owned(),
                value_color: "#ffcb6b".to_owned(),
                gauge_cpu_low: "#c3e88d".to_owned(),
                gauge_cpu_high: "#ff5370".to_owned(),
                gauge_ram: "#f78c6c".to_owned(),
            }
        } else if eq_lower(name, "catppuccin") {
            Theme {
                border_color: "#cba6f7".to_owned(),
                title_color: "#89b4fa".to_owned(),
                text_color: "#cdd6f4".to_owned(),
                key_color: "#f9e2af".to_owned(),
                value_color: "#a6e3a1".to_owned(),
                gauge_cpu_low: "#94e2d5".to_owned(),
                gauge_cpu_high: "#f38ba8".to_owned(),
                gauge_ram: "#fab387".to_owned(),
            }
        } else {
            neon_theme()
        }
    }
}

} // verus!
