//! Battery summary: each power-supply reading (a capacity text and a
//! status text) becomes `NN% [Status]`; readings are joined with commas
//! and no battery at all yields the `N/A` sentinel.

use vstd::prelude::*;

use crate::numfmt::{dec_seq, spec_parse_u64};
use crate::strutil::{join_with, join_strings};
use crate::textparse::spec_trim;

verus! {

pub struct BatteryInfo;

/// The user-facing form of a status word.
pub open spec fn pretty_status(s: Seq<char>) -> Seq<char> {
    if s == "Not charging"@ {
        "AC Connected"@
    } else {
        s
    }
}

/// The capacity a reading denotes: its trimmed text as a number in byte
/// range (up to 255, as the original sensor field is read), anything
/// unparseable or larger counting as zero.
pub open spec fn capacity_of(cap: Seq<char>) -> u64 {
    match spec_parse_u64(spec_trim(cap)) {
        Some(n) => if n <= 255 {
            n
        } else {
            0
        },
        None => 0,
    }
}

/// One battery entry: `NN% [Status]`.
pub open spec fn battery_entry(cap: Seq<char>, status: Seq<char>) -> Seq<char> {
    dec_seq(capacity_of(cap) as nat) + "% ["@ + pretty_status(spec_trim(status)) + "]"@
}

/// The whole summary: entries joined with commas, or the sentinel.
pub open spec fn spec_battery_summary(readings: Seq<(Seq<char>, Seq<char>)>) -> Seq<char> {
    if readings.len() == 0 {
        "N/A"@
    } else {
        join_with(readings.map_values(|r: (Seq<char>, Seq<char>)| battery_entry(r.0, r.1)), ", "@)
    }
}

fn battery_entry_exec(cap: &String, status: &String) -> (r: String)
    ensures
        r@ == battery_entry(cap@, status@),
{
    let chars = crate::strutil::str_to_chars(cap.as_str());
    proof {
        assert(chars@.subrange(0, chars@.len() as int) =~= cap@);
    }
    let (a, b) = crate::textparse::trim_range(&chars, 0, chars.len());
    let value: u64 = match crate::numfmt::parse_u64_range(&chars, a, b) {
        Some(n) => if n <= 255 {
            n
        } else {
            0
        },
        None => 0,
    };
    let mut out = String::new();
    crate::numfmt::push_u64(&mut out, value);
    out.append("% [");
    let schars = crate::strutil::str_to_chars(status.as_str());
    proof {
        assert(schars@.subrange(0, schars@.len() as int) =~= status@);
    }
    let (sa, sb) = crate::textparse::trim_range(&schars, 0, schars.len());
    if crate::textparse::range_eq_str(&schars, sa, sb, "Not charging") {
        out.append("AC Connected");
    } else {
        let st = crate::textparse::copy_range(&schars, sa, sb);
        crate::strutil::push_chars(&mut out, &st);
    }
    out.append("]");
    proof {
        assert(Seq::<char>::empty() + dec_seq(capacity_of(cap@) as nat) + "% ["@ + pretty_status(
            spec_trim(status@),
        ) + "]"@ =~= battery_entry(cap@, status@));
    }
    out
}

impl BatteryInfo {
    /// Builds the battery summary out of the raw capacity and status file
    /// texts; a machine without batteries reports the sentinel.
    pub fn new(readings: &Vec<(String, String)>) -> (r: String)
        ensures
            r@ == spec_battery_summary(
                readings@.map_values(|p: (String, String)| (p.0@, p.1@)),
            ),
    {
        let ghost rv = readings@.map_values(|p: (String, String)| (p.0@, p.1@));
        let mut entries: Vec<String> = Vec::new();
        let mut i: usize = 0;
        while i < readings.len()
            invariant
                i <= readings@.len(),
                rv == readings@.map_values(|p: (String, String)| (p.0@, p.1@)),
                entries@.len() == i,
                forall|k: int|
                    0 <= k < i ==> #[trigger] entries@[k]@ == battery_entry(rv[k].0, rv[k].1),
            decreases readings@.len() - i,
        {
            proof {
                assert(rv[i as int] == (readings@[i as int].0@, readings@[i as int].1@));
            }
            let e = battery_entry_exec(&readings[i].0, &readings[i].1);
            entries.push(e);
            i = i + 1;
        }
        let r = join_strings(&entries, ", ", "N/A");
        proof {
            if rv.len() > 0 {
                assert(entries@.map_values(|s: String| s@) =~= rv.map_values(
                    |p: (Seq<char>, Seq<char>)| battery_entry(p.0, p.1),
                ));
            }
        }
        r
    }
}

} // verus!
