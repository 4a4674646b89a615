//! ASCII-art logos: the OS name, lower-cased, selects a fixed logo by
//! substring match, with a generic fallback.

use vstd::prelude::*;

use crate::strutil::{chars_contain, has_sub, lower_seq, to_lower};

verus! {

/// Which logo an OS name (lower-cased) selects.
pub open spec fn logo_kind(low: Seq<char>) -> int {
    if has_sub(low, "arch"@) {
        0
    } else if has_sub(low, "debian"@) {
        1
    } else if has_sub(low, "ubuntu"@) {
        2
    } else if has_sub(low, "fedora"@) {
        3
    } else if has_sub(low, "windows"@) {
        4
    } else {
        5
    }
}

pub open spec fn arch_logo() -> Seq<Seq<char>> {
    seq![
        "       /\\       "@,
        "      /  \\      "@,
        "     /    \\     "@,
        "    /      \\    "@,
        "   /   ,,   \\   "@,
        "  /   |  |   \\  "@,
        " /_-''    ''-_\\ "@,
    ]
}

pub open spec fn debian_logo() -> Seq<Seq<char>> {
    seq![
        "  _____  "@,
        " /  __ \\ "@,
        "|  /    |"@,
        "|  \\___/ "@,
        " \\____   "@,
        "      \\  "@,
        "  ____/  "@,
    ]
}

pub open spec fn ubuntu_logo() -> Seq<Seq<char>> {
    seq![
        "           _  "@,
        "         -   -"@,
        "       -   _   -"@,
        "      -  _| |_  -"@,
        "     -  |_   _|  -"@,
        "      -   |_|   -"@,
        "       -       -"@,
        "         - _ -"@,
    ]
}

pub open spec fn fedora_logo() -> Seq<Seq<char>> {
    seq![
        "      _____"@,
        "     /   __)"@,
        "     |  /  "@,
        "  ___|  |__"@,
        " (___    __)"@,
        "    |   |  "@,
        "    |___|  "@,
    ]
}

pub open spec fn windows_logo() -> Seq<Seq<char>> {
    seq![
        " ,.=:!!t3Z3z.,"@,
        " :tt:::tt333EE3"@,
        " Et:::ztt33EEEL"@,
        " ;3=*^\"\"\"\"\"*4EE"@,
    ]
}

pub open spec fn fallback_logo() -> Seq<Seq<char>> {
    seq![
        "   _______   "@,
        "  |       |  "@,
        "  | MIZU  |  "@,
        "  | FETCH |  "@,
        "  |_______|  "@,
    ]
}

/// The art lines each logo kind holds.
pub open spec fn logo_lines(kind: int) -> Seq<Seq<char>> {
    if kind == 0 {
        arch_logo()
    } else if kind == 1 {
        debian_logo()
    } else if kind == 2 {
        ubuntu_logo()
    } else if kind == 3 {
        fedora_logo()
    } else if kind == 4 {
        windows_logo()
    } else {
        fallback_logo()
    }
}

/// The logo art for the named OS: exactly the lines of the selected logo.
/// Every logo is non-empty; unknown names get the generic fallback art.
pub fn get_logo(os_name: &str) -> (r: Vec<&'static str>)
    ensures
        r@.map_values(|s: &str| s@) == logo_lines(logo_kind(lower_seq(os_name@))),
        r@.len() >= 1,
{
    let low = to_lower(os_name);
    if chars_contain(&low, "arch") {
        let r: Vec<&'static str> = vec![
            "       /\\       ",
            "      /  \\      ",
            "     /    \\     ",
            "    /      \\    ",
            "   /   ,,   \\   ",
            "  /   |  |   \\  ",
            " /_-''    ''-_\\ ",
        ];
        proof {
            assert(r@.map_values(|s: &str| s@) =~= arch_logo());
        }
        r
    } else if chars_contain(&low, "debian") {
        let r: Vec<&'static str> = vec![
            "  _____  ",
            " /  __ \\ ",
            "|  /    |",
            "|  \\___/ ",
            " \\____   ",
            "      \\  ",
            "  ____/  ",
        ];
        proof {
            assert(r@.map_values(|s: &str| s@) =~= debian_logo());
        }
        r
    } else if chars_contain(&low, "ubuntu") {
        let r: Vec<&'static str> = vec![
            "           _  ",
            "         -   -",
            "       -   _   -",
            "      -  _| |_  -",
            "     -  |_   _|  -",
            "      -   |_|   -",
            "       -       -",
            "         - _ -",
        ];
        proof {
            assert(r@.map_values(|s: &str| s@) =~= ubuntu_logo());
        }
        r
    } else if chars_contain(&low, "fedora") {
        let r: Vec<&'static str> = vec![
            "      _____",
            "     /   __)",
            "     |  /  ",
            "  ___|  |__",
            " (___    __)",
            "    |   |  ",
            "    |___|  ",
        ];
        proof {
            assert(r@.map_values(|s: &str| s@) =~= fedora_logo());
        }
        r
    } else if chars_contain(&low, "windows") {
        let r: Vec<&'static str> = vec![
            " ,.=:!!t3Z3z.,",
            " :tt:::tt333EE3",
            " Et:::ztt33EEEL",
            " ;3=*^\"\"\"\"\"*4EE",
        ];
        proof {
            assert(r@.map_values(|s: &str| s@) =~= windows_logo());
        }
        r
    } else {
        let r: Vec<&'static str> = vec![
            "   _______   ",
            "  |       |  ",
            "  | MIZU  |  ",
            "  | FETCH |  ",
            "  |_______|  ",
        ];
        proof {
            assert(r@.map_values(|s: &str| s@) =~= fallback_logo());
        }
        r
    }
}

} // verus!
