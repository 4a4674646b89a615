//! The application state machine: the active tab, the process-table scroll
//! offset and sort key, the settings cursor, the help modal, and the
//! refresh cadence. Every mutation keeps the scroll offset clamped against
//! the table and the settings cursor inside its option list.

use vstd::prelude::*;

use crate::config::{Config, ThemeV};
use crate::fetch::SystemInfo;
use crate::process::{ProcessSortMode, clamp_scroll, spec_clamp_scroll};

verus! {

/// The tabs, cycled circularly by `next_tab` / `previous_tab`.
#[derive(Clone, Copy, Debug, PartialEq, Eq, Structural)]
pub enum AppTab {
    Dashboard,
    Processes,
    Network,
    Settings,
}

/// The rows of the settings tab, by cursor position.
#[derive(Clone, Copy, Debug, PartialEq, Eq, Structural)]
pub enum SettingsOption {
    RefreshRate,
    ThemeColor,
    ShowHints,
}

/// The number of settings rows; the cursor stays below it.
pub const SETTINGS_COUNT: usize = 3;

pub open spec fn spec_next_tab(t: AppTab) -> AppTab {
    match t {
        AppTab::Dashboard => AppTab::Processes,
        AppTab::Processes => AppTab::Network,
        AppTab::Network => AppTab::Settings,
        AppTab::Settings => AppTab::Dashboard,
    }
}

pub open spec fn spec_previous_tab(t: AppTab) -> AppTab {
    match t {
        AppTab::Dashboard => AppTab::Settings,
        AppTab::Processes => AppTab::Dashboard,
        AppTab::Network => AppTab::Processes,
        AppTab::Settings => AppTab::Network,
    }
}

/// Four steps forward return to the start, and stepping back undoes
/// stepping forward, in either order: the tab cycle is a 4-cycle and
/// `previous_tab` is the exact inverse of `next_tab`.
pub proof fn lemma_tab_cycle(t: AppTab)
    ensures
        spec_next_tab(spec_next_tab(spec_next_tab(spec_next_tab(t)))) == t,
        spec_previous_tab(spec_next_tab(t)) == t,
        spec_next_tab(spec_previous_tab(t)) == t,
{
}

/// The refresh-rate cycle: 250, 500, 1000, 2000 milliseconds, then 250
/// again; any value outside the cycle falls back to 250.
pub open spec fn spec_next_rate(r: u64) -> u64 {
    if r == 250 {
        500
    } else if r == 500 {
        1000
    } else if r == 1000 {
        2000
    } else {
        250
    }
}

/// Toggling the refresh rate four times visits the whole cycle and comes
/// back to the start, from any of its four values.
pub proof fn lemma_refresh_rate_cycle(r: u64)
    requires
        r == 250 || r == 500 || r == 1000 || r == 2000,
    ensures
        spec_next_rate(spec_next_rate(spec_next_rate(spec_next_rate(r)))) == r,
        spec_next_rate(r) != r,
{
}

/// The palette after the theme toggle: the five themed colors flip to
/// magenta when the border was the cyan value, to cyan otherwise (a third
/// palette always resolves to the cyan branch); the other three colors
/// stay.
pub open spec fn spec_toggled_theme(t: ThemeV) -> ThemeV {
    let c = if t.border_color == "#00ffff"@ {
        "#ff00ff"@
    } else {
        "#00ffff"@
    };
    ThemeV {
        border_color: c,
        key_color: c,
        title_color: c,
        value_color: c,
        gauge_cpu_low: c,
        ..t
    }
}

pub struct App {
    pub should_quit: bool,
    pub current_tab: AppTab,
    pub system_info: SystemInfo,
    pub config: Config,
    pub process_scroll: usize,
    pub show_help: bool,
    pub settings_index: usize,
    pub refresh_rate_ms: u64,
    pub process_sort: ProcessSortMode,
}

impl App {
    /// The state invariant: the scroll offset stays below the table length
    /// (below one for an empty table), and the settings cursor stays on a
    /// row.
    pub open spec fn inv(self) -> bool {
        &&& self.process_scroll < self.system_info.processes@.len() || (
        self.system_info.processes@.len() == 0 && self.process_scroll == 0)
        &&& self.settings_index < SETTINGS_COUNT
        &&& self.system_info.inv()
    }

    /// Builds the state from a loaded configuration and a fresh snapshot.
    pub fn new(config: Config, system_info: SystemInfo) -> (r: App)
        requires
            system_info.inv(),
        ensures
            r.inv(),
            !r.should_quit,
            r.current_tab == AppTab::Dashboard,
            r.process_scroll == 0,
            !r.show_help,
            r.settings_index == 0,
            r.refresh_rate_ms == config.refresh_rate,
            r.process_sort == ProcessSortMode::Cpu,
            r.config == config,
    {
        let refresh_rate_ms = config.refresh_rate;
        App {
            should_quit: false,
            current_tab: AppTab::Dashboard,
            system_info,
            config,
            process_scroll: 0,
            show_help: false,
            settings_index: 0,
            refresh_rate_ms,
            process_sort: ProcessSortMode::Cpu,
        }
    }

    /// One tick: refresh the snapshot (process table included, under the
    /// active sort key) and re-clamp the scroll offset against the new,
    /// possibly shorter, table.
    pub fn on_tick(&mut self)
        requires
            old(self).inv(),
        ensures
            final(self).inv(),
            (*final(self) == App {
                system_info: final(self).system_info,
                process_scroll: final(self).process_scroll,
                ..*old(self)
            }),
            final(self).process_scroll == spec_clamp_scroll(
                old(self).process_scroll,
                final(self).system_info.processes.len(),
            ),
            crate::process::proc_sorted(
                old(self).process_sort,
                final(self).system_info.processes@,
            ),
    {
        self.system_info.refresh(true, self.process_sort);
        self.process_scroll = clamp_scroll(self.process_scroll, self.system_info.processes.len());
    }

    /// Steps to the next tab in the cycle.
    pub fn next_tab(&mut self)
        requires
            old(self).inv(),
        ensures
            final(self).inv(),
            final(self).current_tab == spec_next_tab(old(self).current_tab),
            (*final(self) == App { current_tab: final(self).current_tab, ..*old(self) }),
    {
        self.current_tab = match self.current_tab {
            AppTab::Dashboard => AppTab::Processes,
            AppTab::Processes => AppTab::Network,
            AppTab::Network => AppTab::Settings,
            AppTab::Settings => AppTab::Dashboard,
        };
    }

    /// Steps to the previous tab in the cycle.
    pub fn previous_tab(&mut self)
        requires
            old(self).inv(),
        ensures
            final(self).inv(),
            final(self).current_tab == spec_previous_tab(old(self).current_tab),
            (*final(self) == App { current_tab: final(self).current_tab, ..*old(self) }),
    {
        self.current_tab = match self.current_tab {
            AppTab::Dashboard => AppTab::Settings,
            AppTab::Processes => AppTab::Dashboard,
            AppTab::Network => AppTab::Processes,
            AppTab::Settings => AppTab::Network,
        };
    }

    /// Moves the process scroll one row down, stopping at the last row.
    pub fn scroll_down(&mut self)
        requires
            old(self).inv(),
        ensures
            final(self).inv(),
            old(self).process_scroll + 1 < old(self).system_info.processes@.len() ==> final(self).process_scroll == old(self).process_scroll + 1,
            old(self).process_scroll + 1 >= old(self).system_info.processes@.len() ==> final(self).process_scroll == old(self).process_scroll,
            (*final(self) == App { process_scroll: final(self).process_scroll, ..*old(self) }),
    {
        let len = self.system_info.processes.len();
        if len > 0 && self.process_scroll < len - 1 {
            self.process_scroll = self.process_scroll + 1;
        }
    }

    /// Moves the process scroll one row up, stopping at the first row.
    pub fn scroll_up(&mut self)
        requires
            old(self).inv(),
        ensures
            final(self).inv(),
            old(self).process_scroll > 0 ==> final(self).process_scroll == old(self).process_scroll - 1,
            old(self).process_scroll == 0 ==> final(self).process_scroll == 0,
            (*final(self) == App { process_scroll: final(self).process_scroll, ..*old(self) }),
    {
        if self.process_scroll > 0 {
            self.process_scroll = self.process_scroll - 1;
        }
    }

    /// Moves the settings cursor one row down, stopping at the last row
    /// (no wrap-around).
    pub fn settings_next(&mut self)
        requires
            old(self).inv(),
        ensures
            final(self).inv(),
            old(self).settings_index + 1 < SETTINGS_COUNT ==> final(self).settings_index == old(self).settings_index + 1,
            old(self).settings_index + 1 >= SETTINGS_COUNT ==> final(self).settings_index == old(self).settings_index,
            (*final(self) == App { settings_index: final(self).settings_index, ..*old(self) }),
    {
        if self.settings_index < SETTINGS_COUNT - 1 {
            self.settings_index = self.settings_index + 1;
        }
    }

    /// Moves the settings cursor one row up, stopping at the first row.
    pub fn settings_previous(&mut self)
        requires
            old(self).inv(),
        ensures
            final(self).inv(),
            old(self).settings_index > 0 ==> final(self).settings_index == old(self).settings_index - 1,
            old(self).settings_index == 0 ==> final(self).settings_index == 0,
            (*final(self) == App { settings_index: final(self).settings_index, ..*old(self) }),
    {
        if self.settings_index > 0 {
            self.settings_index = self.settings_index - 1;
        }
    }

    /// Activates the selected setting. Row 0 advances the refresh-rate
    /// cycle, in the state and in the configuration; row 1 toggles the
    /// themed colors between the cyan and magenta palettes, keyed off the
    /// current border color (a palette that is neither resolves to the
    /// cyan branch); row 2 flips the hints flag. The caller persists the
    /// configuration afterwards, fire and forget.
    pub fn settings_toggle(&mut self)
        requires
            old(self).inv(),
        ensures
            final(self).inv(),
            (*final(self) == App {
                refresh_rate_ms: final(self).refresh_rate_ms,
                config: final(self).config,
                ..*old(self)
            }),
            old(self).settings_index == 0 ==> final(self).refresh_rate_ms == spec_next_rate(
                old(self).refresh_rate_ms,
            ) && (final(self).config == Config {
                refresh_rate: final(self).refresh_rate_ms,
                ..old(self).config
            }),
            old(self).settings_index == 1 ==> final(self).refresh_rate_ms == old(self).refresh_rate_ms && final(self).config.refresh_rate == old(self).config.refresh_rate
                && final(self).config.modules == old(self).config.modules && final(self).config.show_hints == old(self).config.show_hints && final(self).config.theme@
                == spec_toggled_theme(old(self).config.theme@),
            old(self).settings_index == 2 ==> final(self).refresh_rate_ms == old(self).refresh_rate_ms && (final(self).config == Config {
                show_hints: !old(self).config.show_hints,
                ..old(self).config
            }),
    {
        if self.settings_index == 0 {
            self.refresh_rate_ms = if self.refresh_rate_ms == 250 {
                500
            } else if self.refresh_rate_ms == 500 {
                1000
            } else if self.refresh_rate_ms == 1000 {
                2000
            } else {
                250
            };
            self.config.refresh_rate = self.refresh_rate_ms;
        } else if self.settings_index == 1 {
            if crate::strutil::str_eq(self.config.theme.border_color.as_str(), "#00ffff") {
                self.config.theme.border_color = "#ff00ff".to_owned();
                self.config.theme.key_color = "#ff00ff".to_owned();
                self.config.theme.title_color = "#ff00ff".to_owned();
                self.config.theme.value_color = "#ff00ff".to_owned();
                self.config.theme.gauge_cpu_low = "#ff00ff".to_owned();
            } else {
                self.config.theme.border_color = "#00ffff".to_owned();
                self.config.theme.key_color = "#00ffff".to_owned();
                self.config.theme.title_color = "#00ffff".to_owned();
                self.config.theme.value_color = "#00ffff".to_owned();
                self.config.theme.gauge_cpu_low = "#00ffff".to_owned();
            }
            proof {
                assert(self.config.theme@ =~= spec_toggled_theme(old(self).config.theme@));
            }
        } else {
            self.config.show_hints = !self.config.show_hints;
        }
    }

    /// Advances the process sort key cyclically; meaningful on the
    /// Processes tab.
    pub fn next_sort(&mut self)
        requires
            old(self).inv(),
        ensures
            final(self).inv(),
            final(self).process_sort == crate::process::spec_next_sort_mode(
                old(self).process_sort,
            ),
            (*final(self) == App { process_sort: final(self).process_sort, ..*old(self) }),
    {
        self.process_sort = self.process_sort.next();
    }

    /// Shows or hides the help modal. While it is shown the caller routes
    /// every key but its dismissal back here.
    pub fn toggle_help(&mut self)
        requires
            old(self).inv(),
        ensures
            final(self).inv(),
            final(self).show_help == !old(self).show_help,
            (*final(self) == App { show_help: final(self).show_help, ..*old(self) }),
    {
        self.show_help = !self.show_help;
    }
}

} // verus!
