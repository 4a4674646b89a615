use mizu::battery::BatteryInfo;
use mizu::color::{ColorSpec, hex_to_rgb, parse_color};
use mizu::config::Theme;
use mizu::cpu::summarize_cpus;
use mizu::display::DisplayInfo;
use mizu::effects::glitch_text;
use mizu::gpu::{GpuInfo, format_gpu, parse_lspci_line};
use mizu::logos::get_logo;
use mizu::numfmt::{parse_u64_range, u64_to_chars};
use mizu::os::{basename_of, detect_wm, or_sentinel};
use mizu::packages::PackageProvider;
use mizu::style::{StyleInfo, ini_lookup};

#[test]
fn decimal_print_and_parse() {
    let digits: String = u64_to_chars(90210).into_iter().collect();
    assert_eq!(digits, "90210");
    let zero: String = u64_to_chars(0).into_iter().collect();
    assert_eq!(zero, "0");
    let chars: Vec<char> = "18446744073709551615".chars().collect();
    assert_eq!(parse_u64_range(&chars, 0, chars.len()), Some(u64::MAX));
    let over: Vec<char> = "18446744073709551616".chars().collect();
    assert_eq!(parse_u64_range(&over, 0, over.len()), None);
    let junk: Vec<char> = "12a".chars().collect();
    assert_eq!(parse_u64_range(&junk, 0, junk.len()), None);
}

#[test]
fn hex_colors_parse() {
    assert_eq!(hex_to_rgb("#00ffff"), Some((0, 255, 255)));
    assert_eq!(hex_to_rgb("#FF8000"), Some((255, 128, 0)));
    assert_eq!(hex_to_rgb("#f00"), None);
    assert_eq!(hex_to_rgb("#zzzzzz"), None);
}

#[test]
fn color_grammar() {
    assert!(matches!(parse_color("#ff0000"), ColorSpec::Rgb(255, 0, 0)));
    assert!(matches!(parse_color("5"), ColorSpec::Indexed(5)));
    assert!(matches!(parse_color("CYAN"), ColorSpec::Cyan));
    assert!(matches!(parse_color("light_blue"), ColorSpec::LightBlue));
    assert!(matches!(parse_color("no-such-color"), ColorSpec::White));
    assert!(matches!(parse_color("#short"), ColorSpec::White));
    assert!(matches!(parse_color("999"), ColorSpec::White));
}

#[test]
fn theme_presets_resolve_case_insensitively() {
    let t = Theme::from_name("DrAcUlA");
    assert_eq!(t.border_color, "#bd93f9");
    let d = Theme::from_name("nothing-known");
    assert_eq!(d.border_color, "#00ffff");
    let g = Theme::from_name("github");
    assert_eq!(g.title_color, "#58a6ff");
}

#[test]
fn cpu_models_dedupe_and_sort() {
    let brands = vec![
        "Zen 4".to_string(),
        "Atom".to_string(),
        "Zen 4".to_string(),
        "Atom".to_string(),
    ];
    let info = summarize_cpus(&brands);
    assert_eq!(info.cores, 4);
    assert_eq!(info.models, vec!["Atom", "Zen 4"]);
}

#[test]
fn cpu_zero_cores_gets_placeholder() {
    let info = summarize_cpus(&Vec::new());
    assert_eq!(info.cores, 0);
    assert_eq!(info.models, vec!["Unknown CPU"]);
}

#[test]
fn battery_entries_format_and_join() {
    let readings = vec![
        (" 85\n".to_string(), "Charging\n".to_string()),
        ("100".to_string(), "Not charging".to_string()),
    ];
    assert_eq!(BatteryInfo::new(&readings), "85% [Charging], 100% [AC Connected]");
}

#[test]
fn battery_sentinel_without_batteries() {
    assert_eq!(BatteryInfo::new(&Vec::new()), "N/A");
}

#[test]
fn battery_unparseable_capacity_counts_zero() {
    let readings = vec![("abc".to_string(), "Full".to_string())];
    assert_eq!(BatteryInfo::new(&readings), "0% [Full]");
}

#[test]
fn package_counts_join_and_skip() {
    let outputs = vec![
        ("1200\n".to_string(), "pacman".to_string()),
        ("0\n".to_string(), "rpm".to_string()),
        ("".to_string(), "dpkg".to_string()),
        ("12".to_string(), "flatpak-user".to_string()),
    ];
    assert_eq!(PackageProvider::summarize(&outputs), "1200 (pacman), 12 (flatpak-user)");
}

#[test]
fn package_sentinel_without_managers() {
    assert_eq!(PackageProvider::summarize(&Vec::new()), "Unknown");
    let all_zero = vec![("0".to_string(), "rpm".to_string())];
    assert_eq!(PackageProvider::summarize(&all_zero), "Unknown");
}

#[test]
fn gpu_vendor_mapping() {
    assert_eq!(format_gpu("8086", "46a6"), "Intel Device 46a6");
    assert_eq!(format_gpu("10de", "2684"), "NVIDIA Device 2684");
    assert_eq!(format_gpu("1002", "744c"), "AMD Device 744c");
    assert_eq!(format_gpu("beef", "0001"), "Unknown Device 0001");
}

#[test]
fn gpu_lspci_fallback_parses_quoted_fields() {
    let line = "00:02.0 \"VGA compatible controller\" \"Intel Corporation\" \"Alder Lake\" -r0c";
    assert_eq!(parse_lspci_line(line), Some("Intel Corporation Alder Lake".to_string()));
    assert_eq!(parse_lspci_line("nothing quoted here"), None);
}

#[test]
fn gpu_sentinel_when_nothing_detected() {
    let info = GpuInfo::new(&Vec::new(), &Vec::new());
    assert_eq!(info.names, vec!["Unknown GPU"]);
    let native = vec![("8086".to_string(), "46a6".to_string())];
    let info = GpuInfo::new(&native, &Vec::new());
    assert_eq!(info.names, vec!["Intel Device 46a6"]);
}

#[test]
fn logos_select_by_substring() {
    assert_eq!(get_logo("Arch Linux").len(), 7);
    assert_eq!(get_logo("Ubuntu 24.04").len(), 8);
    assert_eq!(get_logo("Windows 11").len(), 4);
    let fallback = get_logo("Plan 9");
    assert_eq!(fallback.len(), 5);
    assert!(fallback[2].contains("MIZU"));
}

#[test]
fn shell_basename() {
    assert_eq!(basename_of("/usr/bin/zsh"), "zsh");
    assert_eq!(basename_of("bash"), "bash");
    assert_eq!(basename_of("/ends/with/slash/"), "");
}

#[test]
fn sentinel_mapping_for_missing_values() {
    assert_eq!(or_sentinel(None, "Unknown"), "Unknown");
    assert_eq!(or_sentinel(Some("Linux".to_string()), "Unknown"), "Linux");
}

#[test]
fn window_manager_detection() {
    let names = vec![
        "bash".to_string(),
        "kwin_wayland".to_string(),
        "firefox".to_string(),
    ];
    assert_eq!(detect_wm(&names), "KWin");
    let gnome = vec!["gnome-shell".to_string()];
    assert_eq!(detect_wm(&gnome), "Mutter (GNOME)");
    let none = vec!["bash".to_string()];
    assert_eq!(detect_wm(&none), "Unknown");
}

#[test]
fn ini_lookup_finds_sectioned_keys() {
    let text = "[General]\nColorScheme=BreezeDark\n[Icons]\nTheme = Papirus\n";
    assert_eq!(ini_lookup(text, "General", "ColorScheme"), Some("BreezeDark".to_string()));
    assert_eq!(ini_lookup(text, "Icons", "Theme"), Some("Papirus".to_string()));
    assert_eq!(ini_lookup(text, "Icons", "Missing"), None);
    assert_eq!(ini_lookup(text, "Nope", "Theme"), None);
}

#[test]
fn kde_style_reads_files_and_cleans_font() {
    let kdeglobals =
        "[General]\nColorScheme=BreezeDark\nfont=Noto Sans,11,-1,5,50\n[Icons]\nTheme=Papirus\n";
    let style = StyleInfo::new(
        "KDE",
        Some(kdeglobals.to_string()),
        None,
        None,
        None,
    );
    assert_eq!(style.theme, "BreezeDark [Qt], Breeze [GTK2/3]");
    assert_eq!(style.icons, "Papirus");
    assert_eq!(style.font, "Noto Sans (11pt)");
    assert_eq!(style.cursor, "breeze_cursors");
    assert_eq!(style.wm_theme, "Breeze");
}

#[test]
fn style_sentinel_for_unknown_desktop() {
    let style = StyleInfo::new("ratpoison", None, None, None, None);
    assert_eq!(style.theme, "Unknown");
    assert_eq!(style.icons, "Unknown");
    assert_eq!(style.font, "Unknown");
    assert_eq!(style.cursor, "Unknown");
    assert_eq!(style.wm_theme, "Unknown");
}

#[test]
fn display_screen_tool_output_parses() {
    let out = "Output: 1 eDP-1 enabled connected priority 1 pos 0,0 size 1920x1080@144Hz scale 1\n";
    assert_eq!(DisplayInfo::parse_screen_output(out), Some("1920x1080@144Hz".to_string()));
    assert_eq!(DisplayInfo::parse_screen_output("Output: 2 HDMI-1 disabled\n"), None);
    assert_eq!(DisplayInfo::parse_screen_output(""), None);
}

#[test]
fn display_xrandr_output_parses() {
    let out = "eDP connected primary 1920x1080+0+0 (normal) 344mm x 194mm\n";
    assert_eq!(DisplayInfo::parse_xrandr_output(out), Some("1920x1080".to_string()));
    assert_eq!(DisplayInfo::parse_xrandr_output("HDMI disconnected (normal)\n"), None);
}

#[test]
fn display_fallback_chain() {
    let screen = "Output: 1 eDP enabled connected size 1920x1080@60Hz\n".to_string();
    let xrandr = "eDP connected primary 2560x1440+0+0 (normal)\n".to_string();
    // The screen tool wins when it yields a mode.
    assert_eq!(
        DisplayInfo::summarize(Some(screen), Some(xrandr.clone())),
        "1920x1080@60Hz"
    );
    // Otherwise the X tool's resolution is used.
    assert_eq!(
        DisplayInfo::summarize(Some("no mode here\n".to_string()), Some(xrandr)),
        "2560x1440"
    );
    // Nothing parseable resolves to the sentinel.
    assert_eq!(DisplayInfo::summarize(None, None), "Unknown");
    assert_eq!(
        DisplayInfo::summarize(Some("garbage\n".to_string()), Some("junk\n".to_string())),
        "Unknown"
    );
}

#[test]
fn gpu_fallback_lines_used_when_native_empty() {
    let lines = vec![
        "00:02.0 \"VGA compatible controller\" \"Intel Corporation\" \"Alder Lake\" -r0c"
            .to_string(),
        "unquoted noise".to_string(),
        "01:00.0 \"3D controller\" \"NVIDIA Corporation\" \"AD107M\" -ra1".to_string(),
    ];
    let info = GpuInfo::new(&Vec::new(), &lines);
    assert_eq!(
        info.names,
        vec!["Intel Corporation Alder Lake", "NVIDIA Corporation AD107M"]
    );
}

#[test]
fn glitch_replaces_only_picked_positions() {
    let glyphs: Vec<char> = vec!['#', '@', '%'];
    let picks = vec![None, Some(1), None, Some(5)];
    let out = glitch_text("data", &glyphs, &picks);
    let chars: Vec<char> = out.chars().collect();
    assert_eq!(chars[0], 'd');
    assert_eq!(chars[1], '@');
    assert_eq!(chars[2], 't');
    assert_eq!(chars[3], '%');
    // Shorter pick lists leave the tail untouched.
    let out = glitch_text("data", &glyphs, &vec![Some(0)]);
    assert_eq!(out, "#ata");
}
