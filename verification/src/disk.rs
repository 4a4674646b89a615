//! Disk usage summary: the enumerated mounts are filtered down to the root
//! and home targets, each is reported as used / total in binary gigabytes
//! with a percentage, and the entries are joined into one line. No target
//! found gives the `Unknown` sentinel.

use vstd::prelude::*;

use crate::numfmt::{dec_seq, two_digit_seq, push_u64, push_two_digits};
use crate::strutil::push_chars;

verus! {

/// One raw reading from the OS disk handle.
pub struct RawDisk {
    pub mount: String,
    pub fs: String,
    pub total: u64,
    pub available: u64,
}

pub struct RawDiskV {
    pub mount: Seq<char>,
    pub fs: Seq<char>,
    pub total: u64,
    pub available: u64,
}

impl View for RawDisk {
    type V = RawDiskV;

    open spec fn view(&self) -> RawDiskV {
        RawDiskV { mount: self.mount@, fs: self.fs@, total: self.total, available: self.available }
    }
}

/// The label a target mount is reported under; other mounts are skipped.
pub open spec fn target_label(mount: Seq<char>) -> Option<Seq<char>> {
    if mount == "/"@ {
        Some("Root"@)
    } else if mount == "/home"@ {
        Some("Home"@)
    } else {
        None
    }
}

/// Bytes as hundredths of a binary gigabyte, rounded down.
pub open spec fn gib_hundredths(bytes: u64) -> nat {
    ((bytes * 100) / 0x40000000) as nat
}

/// Used bytes out of total and available (a handle reporting more
/// available than total counts as fully free).
pub open spec fn used_bytes(total: u64, available: u64) -> u64 {
    if available <= total {
        (total - available) as u64
    } else {
        0
    }
}

/// The percentage used, rounded to the nearest whole number (half up);
/// an empty disk reports zero.
pub open spec fn pct_used(total: u64, available: u64) -> nat {
    if total == 0 {
        0
    } else {
        ((used_bytes(total, available) * 200 + total) / (2 * total as int)) as nat
    }
}

/// A count of hundredths printed as a two-decimal number.
pub open spec fn fmt_hundredths(h: nat) -> Seq<char> {
    dec_seq(h / 100) + seq!['.'] + two_digit_seq(h % 100)
}

/// One summary entry: `Label: U.UU GiB / T.TT GiB (P%) - fs`.
pub open spec fn disk_entry(label: Seq<char>, d: RawDiskV) -> Seq<char> {
    label + ": "@ + fmt_hundredths(gib_hundredths(used_bytes(d.total, d.available))) + " GiB / "@
        + fmt_hundredths(gib_hundredths(d.total)) + " GiB ("@ + dec_seq(
        pct_used(d.total, d.available),
    ) + "%) - "@ + d.fs
}

/// The entries for the target mounts, in enumeration order.
pub open spec fn disk_entries(ds: Seq<RawDiskV>) -> Seq<Seq<char>>
    decreases ds.len(),
{
    if ds.len() == 0 {
        seq![]
    } else {
        let rest = disk_entries(ds.drop_first());
        match target_label(ds.first().mount) {
            Some(label) => seq![disk_entry(label, ds.first())] + rest,
            None => rest,
        }
    }
}

/// Entries joined with ` | `.
pub open spec fn join_entries(es: Seq<Seq<char>>) -> Seq<char>
    decreases es.len(),
{
    if es.len() == 0 {
        Seq::empty()
    } else if es.len() == 1 {
        es.first()
    } else {
        es.first() + " | "@ + join_entries(es.drop_first())
    }
}

/// The whole summary line; no target found gives the sentinel.
pub open spec fn spec_disk_summary(ds: Seq<RawDiskV>) -> Seq<char> {
    if disk_entries(ds).len() == 0 {
        "Unknown"@
    } else {
        join_entries(disk_entries(ds))
    }
}

/// Prints `h` hundredths as a two-decimal number onto `out`.
fn push_hundredths(out: &mut String, h: u64)
    ensures
        final(out)@ == old(out)@ + fmt_hundredths(h as nat),
{
    push_u64(out, h / 100);
    crate::strutil::push_char(out, '.');
    push_two_digits(out, h % 100);
    proof {
        assert(old(out)@ + dec_seq((h / 100) as nat) + seq!['.'] + two_digit_seq((h % 100) as nat)
            =~= old(out)@ + fmt_hundredths(h as nat));
    }
}

/// Computes hundredths of a binary gigabyte without overflow.
fn gib_hundredths_exec(bytes: u64) -> (r: u64)
    ensures
        r as nat == gib_hundredths(bytes),
{
    let wide: u128 = (bytes as u128) * 100 / 0x40000000;
    proof {
        assert((bytes as nat * 100) / 0x40000000 <= u64::MAX) by (nonlinear_arith)
            requires
                bytes <= u64::MAX,
        ;
    }
    wide as u64
}

fn pct_used_exec(total: u64, available: u64) -> (r: u64)
    ensures
        r as nat == pct_used(total, available),
{
    if total == 0 {
        return 0;
    }
    let used: u64 = if available <= total {
        total - available
    } else {
        0
    };
    let wide: u128 = ((used as u128) * 200 + (total as u128)) / (2 * (total as u128));
    proof {
        assert(used <= total);
        assert((used as int * 200 + total) / (2 * total as int) <= 100) by (nonlinear_arith)
            requires
                used <= total,
                total > 0,
        ;
    }
    wide as u64
}

/// Writes one summary entry for a target mount onto `out`.
fn push_disk_entry(out: &mut String, label: &str, d: &RawDisk)
    requires
        target_label(d@.mount) == Some(label@),
    ensures
        final(out)@ == old(out)@ + disk_entry(label@, d@),
{
    out.append(label);
    out.append(": ");
    let used = if d.available <= d.total {
        d.total - d.available
    } else {
        0
    };
    proof {
        assert(used == used_bytes(d.total, d.available));
    }
    let uh = gib_hundredths_exec(used);
    push_hundredths(out, uh);
    out.append(" GiB / ");
    let th = gib_hundredths_exec(d.total);
    push_hundredths(out, th);
    out.append(" GiB (");
    let pct = pct_used_exec(d.total, d.available);
    push_u64(out, pct);
    out.append("%) - ");
    out.append(d.fs.as_str());
    proof {
        assert(old(out)@ + label@ + ": "@ + fmt_hundredths(uh as nat) + " GiB / "@ + fmt_hundredths(
            th as nat,
        ) + " GiB ("@ + dec_seq(pct as nat) + "%) - "@ + d.fs@ =~= old(out)@ + disk_entry(
            label@,
            d@,
        ));
    }
}

/// Appending one entry extends the joined line at the back.
proof fn lemma_join_entries_push(es: Seq<Seq<char>>, x: Seq<char>)
    ensures
        es.len() == 0 ==> join_entries(es.push(x)) == x,
        es.len() > 0 ==> join_entries(es.push(x)) == join_entries(es) + " | "@ + x,
    decreases es.len(),
{
    if es.len() == 0 {
        assert(es.push(x).first() == x);
    } else if es.len() == 1 {
        assert(es.push(x).first() == es.first());
        assert(es.push(x).drop_first() =~= seq![x]);
        assert(join_entries(seq![x]) == x);
    } else {
        assert(es.push(x).first() == es.first());
        assert(es.push(x).drop_first() =~= es.drop_first().push(x));
        lemma_join_entries_push(es.drop_first(), x);
        assert(join_entries(es.push(x)) == es.first() + " | "@ + join_entries(
            es.drop_first().push(x),
        ));
        assert(es.first() + " | "@ + (join_entries(es.drop_first()) + " | "@ + x) =~= (es.first()
            + " | "@ + join_entries(es.drop_first())) + " | "@ + x);
    }
}

/// Builds the summary line out of one set of raw disk readings.
pub fn disk_summary(ds: &Vec<RawDisk>) -> (r: String)
    ensures
        r@ == spec_disk_summary(ds@.map_values(|d: RawDisk| d@)),
{
    let ghost dv = ds@.map_values(|d: RawDisk| d@);
    let mut out = String::new();
    let mut found: bool = false;
    let ghost mut done: Seq<Seq<char>> = Seq::empty();
    proof {
        assert(dv.skip(0) =~= dv);
        assert(done + disk_entries(dv) =~= disk_entries(dv));
    }
    let mut i: usize = 0;
    while i < ds.len()
        invariant
            i <= ds@.len(),
            dv == ds@.map_values(|d: RawDisk| d@),
            disk_entries(dv) == done + disk_entries(dv.skip(i as int)),
            found <==> done.len() > 0,
            found ==> out@ == join_entries(done),
            !found ==> out@.len() == 0,
        decreases ds@.len() - i,
    {
        proof {
            assert(dv[i as int] == ds@[i as int]@);
            assert(dv.skip(i as int).first() == dv[i as int]);
            assert(dv.skip(i as int).drop_first() =~= dv.skip(i + 1));
        }
        let d = &ds[i];
        let is_root = crate::strutil::str_eq(d.mount.as_str(), "/");
        let is_home = crate::strutil::str_eq(d.mount.as_str(), "/home");
        if is_root || is_home {
            let ghost label = target_label(dv[i as int].mount)->0;
            let ghost entry = disk_entry(label, dv[i as int]);
            proof {
                lemma_join_entries_push(done, entry);
            }
            if found {
                out.append(" | ");
            }
            if is_root {
                push_disk_entry(&mut out, "Root", d);
            } else {
                push_disk_entry(&mut out, "Home", d);
            }
            found = true;
            proof {
                done = done.push(entry);
                assert(disk_entries(dv.skip(i as int)) == seq![entry] + disk_entries(
                    dv.skip(i + 1),
                ));
                assert(done.drop_last() + (seq![entry] + disk_entries(dv.skip(i + 1)))
                    =~= done + disk_entries(dv.skip(i + 1)));
                assert(out@ == join_entries(done));
            }
        } else {
            proof {
                assert(disk_entries(dv.skip(i as int)) == disk_entries(dv.skip(i + 1)));
            }
        }
        i = i + 1;
    }
    proof {
        assert(dv.skip(i as int) =~= Seq::<RawDiskV>::empty());
        assert(disk_entries(Seq::<RawDiskV>::empty()) =~= Seq::<Seq<char>>::empty());
        assert(done + Seq::<Seq<char>>::empty() =~= done);
    }
    if found {
        out
    } else {
        "Unknown".to_owned()
    }
}

} // verus!
