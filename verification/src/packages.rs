//! Package counts: each package manager's command output (a count text)
//! is trimmed; outputs that are empty or read `0` are skipped, the rest
//! become `N (manager)` entries joined with commas, and no entry at all
//! yields the `Unknown` sentinel.

use vstd::prelude::*;

use crate::strutil::{join_with, join_strings};
use crate::textparse::spec_trim;

verus! {

pub struct PackageProvider;

/// Whether a trimmed count is kept: non-empty and not `0`.
pub open spec fn keeps_count(count: Seq<char>) -> bool {
    count.len() > 0 && count != "0"@
}

/// One kept entry: `N (manager)`.
pub open spec fn pkg_entry(count: Seq<char>, manager: Seq<char>) -> Seq<char> {
    count + " ("@ + manager + ")"@
}

/// The kept entries, in order.
pub open spec fn pkg_entries(outputs: Seq<(Seq<char>, Seq<char>)>) -> Seq<Seq<char>>
    decreases outputs.len(),
{
    if outputs.len() == 0 {
        seq![]
    } else {
        let rest = pkg_entries(outputs.drop_first());
        let c = spec_trim(outputs.first().0);
        if keeps_count(c) {
            seq![pkg_entry(c, outputs.first().1)] + rest
        } else {
            rest
        }
    }
}

/// The whole summary: entries joined with commas, or the sentinel.
pub open spec fn spec_package_summary(outputs: Seq<(Seq<char>, Seq<char>)>) -> Seq<char> {
    if pkg_entries(outputs).len() == 0 {
        "Unknown"@
    } else {
        join_with(pkg_entries(outputs), ", "@)
    }
}

impl PackageProvider {
    /// Builds the summary out of each manager's raw command output paired
    /// with its label. Managers that are absent or report nothing are
    /// skipped; none present at all reports the sentinel.
    pub fn summarize(outputs: &Vec<(String, String)>) -> (r: String)
        ensures
            r@ == spec_package_summary(
                outputs@.map_values(|p: (String, String)| (p.0@, p.1@)),
            ),
    {
        let ghost ov = outputs@.map_values(|p: (String, String)| (p.0@, p.1@));
        let mut entries: Vec<String> = Vec::new();
        proof {
            assert(ov.skip(0) =~= ov);
            assert(entries@.map_values(|s: String| s@) + pkg_entries(ov) =~= pkg_entries(ov));
        }
        let mut i: usize = 0;
        while i < outputs.len()
            invariant
                i <= outputs@.len(),
                ov == outputs@.map_values(|p: (String, String)| (p.0@, p.1@)),
                pkg_entries(ov) == entries@.map_values(|s: String| s@) + pkg_entries(
                    ov.skip(i as int),
                ),
            decreases outputs@.len() - i,
        {
            proof {
                assert(ov[i as int] == (outputs@[i as int].0@, outputs@[i as int].1@));
                assert(ov.skip(i as int).first() == ov[i as int]);
                assert(ov.skip(i as int).drop_first() =~= ov.skip(i + 1));
            }
            let chars = crate::strutil::str_to_chars(outputs[i].0.as_str());
            proof {
                assert(chars@.subrange(0, chars@.len() as int) =~= ov[i as int].0);
            }
            let (a, b) = crate::textparse::trim_range(&chars, 0, chars.len());
            let keep = a != b && !crate::textparse::range_eq_str(&chars, a, b, "0");
            if keep {
                let ghost old_entries = entries@;
                let c = crate::textparse::copy_range(&chars, a, b);
                let mut e = crate::strutil::chars_to_string(&c);
                e.append(" (");
                e.append(outputs[i].1.as_str());
                e.append(")");
                entries.push(e);
                proof {
                    let ct = spec_trim(ov[i as int].0);
                    assert(e@ =~= pkg_entry(ct, ov[i as int].1));
                    assert(entries@.map_values(|s: String| s@) =~= old_entries.map_values(
                        |s: String| s@,
                    ).push(e@));
                    assert(old_entries.map_values(|s: String| s@) + (seq![e@] + pkg_entries(
                        ov.skip(i + 1),
                    )) =~= entries@.map_values(|s: String| s@) + pkg_entries(ov.skip(i + 1)));
                }
            } else {
                proof {
                    assert(!keeps_count(spec_trim(ov[i as int].0)));
                }
            }
            i = i + 1;
        }
        proof {
            assert(ov.skip(i as int) =~= Seq::<(Seq<char>, Seq<char>)>::empty());
            assert(pkg_entries(Seq::<(Seq<char>, Seq<char>)>::empty()) =~= Seq::<Seq<char>>::empty());
            assert(entries@.map_values(|s: String| s@) + Seq::<Seq<char>>::empty()
                =~= entries@.map_values(|s: String| s@));
        }
        join_strings(&entries, ", ", "Unknown")
    }
}

} // verus!
