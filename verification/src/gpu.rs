//! GPU identity: native PCI vendor and device identifiers are mapped
//! through a small vendor table, a diagnostic command's output is parsed
//! as the fallback, and an empty result yields the `Unknown GPU` sentinel
//! — the provider never fails.

use vstd::prelude::*;

use crate::strutil::push_chars;
use crate::textparse::{split_on, spec_trim, split_range_on, trim_range, copy_range};

verus! {

pub struct GpuInfo {
    pub names: Vec<String>,
}

/// The vendor a PCI vendor identifier names.
pub open spec fn vendor_name(id: Seq<char>) -> Seq<char> {
    if id == "8086"@ {
        "Intel"@
    } else if id == "10de"@ {
        "NVIDIA"@
    } else if id == "1002"@ || id == "1022"@ {
        "AMD"@
    } else {
        "Unknown"@
    }
}

/// One native entry: `Vendor Device id`.
pub open spec fn gpu_entry(vendor_id: Seq<char>, device_id: Seq<char>) -> Seq<char> {
    vendor_name(vendor_id) + " Device "@ + device_id
}

/// Formats one native card reading.
pub fn format_gpu(vendor_id: &str, device_id: &str) -> (r: String)
    ensures
        r@ == gpu_entry(vendor_id@, device_id@),
{
    let mut out = String::new();
    if crate::strutil::str_eq(vendor_id, "8086") {
        out.append("Intel");
    } else if crate::strutil::str_eq(vendor_id, "10de") {
        out.append("NVIDIA");
    } else if crate::strutil::str_eq(vendor_id, "1002") || crate::strutil::str_eq(
        vendor_id,
        "1022",
    ) {
        out.append("AMD");
    } else {
        out.append("Unknown");
    }
    out.append(" Device ");
    out.append(device_id);
    proof {
        assert(Seq::<char>::empty() + vendor_name(vendor_id@) + " Device "@ + device_id@
            =~= gpu_entry(vendor_id@, device_id@));
    }
    out
}

/// What one diagnostic output line yields: the quoted fields at positions
/// three and five, joined with a blank and trimmed — or nothing when the
/// line has too few quoted fields.
pub open spec fn spec_lspci_entry(line: Seq<char>) -> Option<Seq<char>> {
    let parts = split_on(line, '"');
    if parts.len() >= 6 {
        Some(spec_trim(parts[3] + " "@ + parts[5]))
    } else {
        None
    }
}

/// Parses one diagnostic output line.
pub fn parse_lspci_line(line: &str) -> (r: Option<String>)
    ensures
        match r {
            Some(s) => spec_lspci_entry(line@) == Some(s@),
            None => spec_lspci_entry(line@) is None,
        },
{
    let chars = crate::strutil::str_to_chars(line);
    proof {
        assert(chars@.subrange(0, chars@.len() as int) =~= line@);
    }
    let parts = split_range_on(&chars, 0, chars.len(), '"');
    let ghost pv = parts@.map_values(|p: Vec<char>| p@);
    if parts.len() < 6 {
        return None;
    }
    let mut joined: Vec<char> = Vec::new();
    let mut p3 = parts[3].clone();
    joined.append(&mut p3);
    joined.push(' ');
    let mut p5 = parts[5].clone();
    joined.append(&mut p5);
    proof {
        reveal_strlit(" ");
        assert(" "@ =~= seq![' ']);
        assert(pv[3] == parts@[3]@);
        assert(pv[5] == parts@[5]@);
        assert(joined@ =~= pv[3] + " "@ + pv[5]);
        assert(joined@.subrange(0, joined@.len() as int) =~= joined@);
    }
    let (a, b) = trim_range(&joined, 0, joined.len());
    let t = copy_range(&joined, a, b);
    Some(crate::strutil::chars_to_string(&t))
}

/// The entries the fallback output lines yield, in order: one per line the
/// parse accepts.
pub open spec fn lspci_entries(lines: Seq<Seq<char>>) -> Seq<Seq<char>>
    decreases lines.len(),
{
    if lines.len() == 0 {
        seq![]
    } else {
        let rest = lspci_entries(lines.drop_first());
        match spec_lspci_entry(lines.first()) {
            Some(e) => seq![e] + rest,
            None => rest,
        }
    }
}

/// The sentinel rule: what came out of detection, or the placeholder when
/// nothing did. The provider always reports at least one entry.
pub fn gpus_or_placeholder(names: Vec<String>) -> (r: Vec<String>)
    ensures
        r@.len() >= 1,
        names@.len() > 0 ==> r == names,
        names@.len() == 0 ==> r@.len() == 1 && r@[0]@ == "Unknown GPU"@,
{
    if names.len() == 0 {
        let r: Vec<String> = vec!["Unknown GPU".to_owned()];
        r
    } else {
        names
    }
}

impl GpuInfo {
    /// Builds the GPU list from the native card readings (vendor and
    /// device identifier pairs); where none were readable, from the
    /// diagnostic command's output lines; where those give nothing either,
    /// the sentinel entry.
    pub fn new(native: &Vec<(String, String)>, fallback_lines: &Vec<String>) -> (r: GpuInfo)
        ensures
            r.names@.len() >= 1,
            native@.len() > 0 ==> r.names@.len() == native@.len() && forall|i: int|
                0 <= i < native@.len() ==> #[trigger] r.names@[i]@ == gpu_entry(
                    native@[i].0@,
                    native@[i].1@,
                ),
            native@.len() == 0 && lspci_entries(
                fallback_lines@.map_values(|s: String| s@),
            ).len() > 0 ==> r.names@.map_values(|s: String| s@) == lspci_entries(
                fallback_lines@.map_values(|s: String| s@),
            ),
            native@.len() == 0 && lspci_entries(
                fallback_lines@.map_values(|s: String| s@),
            ).len() == 0 ==> r.names@.len() == 1 && r.names@[0]@ == "Unknown GPU"@,
    {
        let ghost lv = fallback_lines@.map_values(|s: String| s@);
        let mut names: Vec<String> = Vec::new();
        let mut i: usize = 0;
        while i < native.len()
            invariant
                i <= native@.len(),
                names@.len() == i,
                forall|k: int|
                    0 <= k < i ==> #[trigger] names@[k]@ == gpu_entry(
                        native@[k].0@,
                        native@[k].1@,
                    ),
            decreases native@.len() - i,
        {
            let e = format_gpu(native[i].0.as_str(), native[i].1.as_str());
            names.push(e);
            i = i + 1;
        }
        if names.len() == 0 {
            proof {
                assert(lv.skip(0) =~= lv);
                assert(names@.map_values(|s: String| s@) + lspci_entries(lv) =~= lspci_entries(
                    lv,
                ));
            }
            let mut j: usize = 0;
            while j < fallback_lines.len()
                invariant
                    j <= fallback_lines@.len(),
                    lv == fallback_lines@.map_values(|s: String| s@),
                    lspci_entries(lv) == names@.map_values(|s: String| s@) + lspci_entries(
                        lv.skip(j as int),
                    ),
                decreases fallback_lines@.len() - j,
            {
                proof {
                    assert(lv[j as int] == fallback_lines@[j as int]@);
                    assert(lv.skip(j as int).first() == lv[j as int]);
                    assert(lv.skip(j as int).drop_first() =~= lv.skip(j + 1));
                }
                match parse_lspci_line(fallback_lines[j].as_str()) {
                    Some(e) => {
                        let ghost old_names = names@;
                        names.push(e);
                        proof {
                            assert(names@.map_values(|s: String| s@) =~= old_names.map_values(
                                |s: String| s@,
                            ).push(e@));
                            assert(old_names.map_values(|s: String| s@) + (seq![e@]
                                + lspci_entries(lv.skip(j + 1))) =~= names@.map_values(
                                |s: String| s@,
                            ) + lspci_entries(lv.skip(j + 1)));
                        }
                    },
                    None => {},
                }
                j = j + 1;
            }
            proof {
                assert(lv.skip(fallback_lines@.len() as int) =~= Seq::<Seq<char>>::empty());
                assert(lspci_entries(Seq::<Seq<char>>::empty()) =~= Seq::<Seq<char>>::empty());
                assert(names@.map_values(|s: String| s@) + Seq::<Seq<char>>::empty()
                    =~= names@.map_values(|s: String| s@));
            }
        }
        let names = gpus_or_placeholder(names);
        GpuInfo { names }
    }
}

} // verus!
