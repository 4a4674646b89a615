//! Network bookkeeping: each refresh reads cumulative per-interface
//! counters from the OS handle and the library computes the per-interval
//! throughput itself, as the difference against the previous snapshot.

use vstd::prelude::*;

verus! {

/// One interface row of the snapshot: per-interval bytes, cumulative
/// counters, and the first IPv4 address (or `N/A`).
pub struct NetworkInfo {
    pub name: String,
    pub rx: u64,
    pub tx: u64,
    pub total_rx: u64,
    pub total_tx: u64,
    pub ip_v4: String,
}

/// The mathematical value of an interface row.
pub struct NetV {
    pub name: Seq<char>,
    pub rx: u64,
    pub tx: u64,
    pub total_rx: u64,
    pub total_tx: u64,
    pub ip_v4: Seq<char>,
}

impl View for NetworkInfo {
    type V = NetV;

    open spec fn view(&self) -> NetV {
        NetV {
            name: self.name@,
            rx: self.rx,
            tx: self.tx,
            total_rx: self.total_rx,
            total_tx: self.total_tx,
            ip_v4: self.ip_v4@,
        }
    }
}

/// One raw reading from the OS handle: the interface name, the cumulative
/// counters, and its addresses, each flagged whether it is IPv4.
pub struct RawNetSample {
    pub name: String,
    pub total_rx: u64,
    pub total_tx: u64,
    pub addrs: Vec<(bool, String)>,
}

pub struct RawNetV {
    pub name: Seq<char>,
    pub total_rx: u64,
    pub total_tx: u64,
    pub addrs: Seq<(bool, Seq<char>)>,
}

impl View for RawNetSample {
    type V = RawNetV;

    open spec fn view(&self) -> RawNetV {
        RawNetV {
            name: self.name@,
            total_rx: self.total_rx,
            total_tx: self.total_tx,
            addrs: self.addrs@.map_values(|a: (bool, String)| (a.0, a.1@)),
        }
    }
}

/// The cumulative counters the previous snapshot holds for `name`: those of
/// the first row with that name, if any.
pub open spec fn prev_totals(prev: Seq<NetV>, name: Seq<char>) -> Option<(u64, u64)>
    decreases prev.len(),
{
    if prev.len() == 0 {
        None
    } else if prev.first().name == name {
        Some((prev.first().total_rx, prev.first().total_tx))
    } else {
        prev_totals(prev.drop_first(), name)
    }
}

/// The per-interval count: how far the cumulative counter moved since the
/// previous reading. A counter that went backwards (the OS reset it) counts
/// from zero again; an interface never seen before reports its whole total.
pub open spec fn spec_delta(old_total: Option<u64>, new_total: u64) -> u64 {
    match old_total {
        None => new_total,
        Some(o) => if new_total >= o {
            (new_total - o) as u64
        } else {
            new_total
        },
    }
}

/// The first IPv4 address among `addrs`, or `N/A`.
pub open spec fn spec_first_v4(addrs: Seq<(bool, Seq<char>)>) -> Seq<char>
    decreases addrs.len(),
{
    if addrs.len() == 0 {
        "N/A"@
    } else if addrs.first().0 {
        addrs.first().1
    } else {
        spec_first_v4(addrs.drop_first())
    }
}

/// The interface row a raw reading becomes, given the previous snapshot.
pub open spec fn spec_net_row(prev: Seq<NetV>, s: RawNetV) -> NetV {
    NetV {
        name: s.name,
        rx: spec_delta(
            match prev_totals(prev, s.name) {
                None => None,
                Some(t) => Some(t.0),
            },
            s.total_rx,
        ),
        tx: spec_delta(
            match prev_totals(prev, s.name) {
                None => None,
                Some(t) => Some(t.1),
            },
            s.total_tx,
        ),
        total_rx: s.total_rx,
        total_tx: s.total_tx,
        ip_v4: spec_first_v4(s.addrs),
    }
}

fn find_prev_totals(prev: &Vec<NetworkInfo>, name: &String) -> (r: Option<(u64, u64)>)
    ensures
        r == prev_totals(prev@.map_values(|n: NetworkInfo| n@), name@),
{
    let ghost pv = prev@.map_values(|n: NetworkInfo| n@);
    proof {
        assert(pv.skip(0) =~= pv);
    }
    let mut i: usize = 0;
    while i < prev.len()
        invariant
            i <= prev@.len(),
            pv == prev@.map_values(|n: NetworkInfo| n@),
            prev_totals(pv, name@) == prev_totals(pv.skip(i as int), name@),
        decreases prev@.len() - i,
    {
        proof {
            assert(pv[i as int] == prev@[i as int]@);
            assert(pv.skip(i as int).first() == pv[i as int]);
            assert(pv.skip(i as int).drop_first() =~= pv.skip(i + 1));
        }
        if prev[i].name == *name {
            return Some((prev[i].total_rx, prev[i].total_tx));
        }
        i = i + 1;
    }
    proof {
        assert(pv.skip(i as int) =~= Seq::<NetV>::empty());
    }
    None
}

fn first_v4(addrs: &Vec<(bool, String)>) -> (r: String)
    ensures
        r@ == spec_first_v4(addrs@.map_values(|a: (bool, String)| (a.0, a.1@))),
{
    let ghost av = addrs@.map_values(|a: (bool, String)| (a.0, a.1@));
    proof {
        assert(av.skip(0) =~= av);
    }
    let mut i: usize = 0;
    while i < addrs.len()
        invariant
            i <= addrs@.len(),
            av == addrs@.map_values(|a: (bool, String)| (a.0, a.1@)),
            spec_first_v4(av) == spec_first_v4(av.skip(i as int)),
        decreases addrs@.len() - i,
    {
        proof {
            assert(av[i as int] == (addrs@[i as int].0, addrs@[i as int].1@));
            assert(av.skip(i as int).first() == av[i as int]);
            assert(av.skip(i as int).drop_first() =~= av.skip(i + 1));
        }
        if addrs[i].0 {
            let s = addrs[i].1.clone();
            proof {
                assert(s@ == av[i as int].1);
            }
            return s;
        }
        i = i + 1;
    }
    proof {
        assert(av.skip(i as int) =~= Seq::<(bool, Seq<char>)>::empty());
    }
    "N/A".to_owned()
}

/// Builds the snapshot's interface rows from one set of raw readings,
/// computing each per-interval count against the previous snapshot.
pub fn compute_networks(prev: &Vec<NetworkInfo>, raw: Vec<RawNetSample>) -> (r: Vec<NetworkInfo>)
    ensures
        r@.len() == raw@.len(),
        forall|i: int|
            0 <= i < raw@.len() ==> #[trigger] r@[i]@ == spec_net_row(
                prev@.map_values(|n: NetworkInfo| n@),
                raw@[i]@,
            ),
{
    let ghost pv = prev@.map_values(|n: NetworkInfo| n@);
    let mut r: Vec<NetworkInfo> = Vec::new();
    let mut i: usize = 0;
    while i < raw.len()
        invariant
            i <= raw@.len(),
            pv == prev@.map_values(|n: NetworkInfo| n@),
            r@.len() == i,
            forall|k: int| 0 <= k < i ==> #[trigger] r@[k]@ == spec_net_row(pv, raw@[k]@),
        decreases raw@.len() - i,
    {
        let s = &raw[i];
        let totals = find_prev_totals(prev, &s.name);
        let rx = match totals {
            None => s.total_rx,
            Some(t) => if s.total_rx >= t.0 {
                s.total_rx - t.0
            } else {
                s.total_rx
            },
        };
        let tx = match totals {
            None => s.total_tx,
            Some(t) => if s.total_tx >= t.1 {
                s.total_tx - t.1
            } else {
                s.total_tx
            },
        };
        let ip_v4 = first_v4(&s.addrs);
        let row = NetworkInfo {
            name: s.name.clone(),
            rx,
            tx,
            total_rx: s.total_rx,
            total_tx: s.total_tx,
            ip_v4,
        };
        proof {
            assert(row@ == spec_net_row(pv, raw@[i as int]@));
        }
        r.push(row);
        i = i + 1;
    }
    r
}

/// The local address: the first IPv4 of the first interface that is not the
/// loopback device and has one, else the loopback address itself. Which
/// interface wins follows the enumeration order of the readings, which the
/// OS handle defines and does not keep stable.
pub open spec fn spec_local_ip(rows: Seq<NetV>) -> Seq<char>
    decreases rows.len(),
{
    if rows.len() == 0 {
        "127.0.0.1"@
    } else if rows.first().name != "lo"@ && rows.first().ip_v4 != "N/A"@ {
        rows.first().ip_v4
    } else {
        spec_local_ip(rows.drop_first())
    }
}

/// Picks the local address out of the snapshot's interface rows.
pub fn local_ip_of(rows: &Vec<NetworkInfo>) -> (r: String)
    ensures
        r@ == spec_local_ip(rows@.map_values(|n: NetworkInfo| n@)),
{
    let ghost rv = rows@.map_values(|n: NetworkInfo| n@);
    proof {
        assert(rv.skip(0) =~= rv);
    }
    let mut i: usize = 0;
    while i < rows.len()
        invariant
            i <= rows@.len(),
            rv == rows@.map_values(|n: NetworkInfo| n@),
            spec_local_ip(rv) == spec_local_ip(rv.skip(i as int)),
        decreases rows@.len() - i,
    {
        proof {
            assert(rv[i as int] == rows@[i as int]@);
            assert(rv.skip(i as int).first() == rv[i as int]);
            assert(rv.skip(i as int).drop_first() =~= rv.skip(i + 1));
        }
        let not_lo = !crate::strutil::str_eq(rows[i].name.as_str(), "lo");
        let has_v4 = !crate::strutil::str_eq(rows[i].ip_v4.as_str(), "N/A");
        if not_lo && has_v4 {
            let s = rows[i].ip_v4.clone();
            proof {
                assert(s@ == rv[i as int].ip_v4);
            }
            return s;
        }
        i = i + 1;
    }
    proof {
        assert(rv.skip(i as int) =~= Seq::<NetV>::empty());
    }
    "127.0.0.1".to_owned()
}

/// Per-interval counts are exact deltas, and the reported cumulative
/// counters never move backwards, whenever the OS counters themselves are
/// monotone: two consecutive readings of one interface, the second not
/// below the first, yield that difference and a total at least the old one.
pub proof fn lemma_network_delta(prev: Seq<NetV>, s: RawNetV, old_rx: u64, old_tx: u64)
    requires
        prev_totals(prev, s.name) == Some((old_rx, old_tx)),
        s.total_rx >= old_rx,
        s.total_tx >= old_tx,
    ensures
        spec_net_row(prev, s).rx == s.total_rx - old_rx,
        spec_net_row(prev, s).tx == s.total_tx - old_tx,
        spec_net_row(prev, s).total_rx >= old_rx,
        spec_net_row(prev, s).total_tx >= old_tx,
{
}

pub struct NetworkProvider;

impl NetworkProvider {
    /// Reads the interface rows off the OS handle, computing per-interval
    /// counts against the given previous rows. Every row is the exact
    /// `spec_net_row` image of one raw reading; which readings come back
    /// is machine state.
    pub fn get_networks(net_handle: &sysinfo::Networks, prev: &Vec<NetworkInfo>) -> (r: Vec<
        NetworkInfo,
    >)
        ensures
            exists|raw: Seq<RawNetV>|
                #![trigger raw.len()]
                r@.len() == raw.len() && forall|i: int|
                    0 <= i < raw.len() ==> #[trigger] r@[i]@ == spec_net_row(
                        prev@.map_values(|n: NetworkInfo| n@),
                        raw[i],
                    ),
    {
        let samples = crate::sysapi::net_samples(net_handle);
        let ghost w = samples@.map_values(|s: RawNetSample| s@);
        let r = compute_networks(prev, samples);
        proof {
            assert(r@.len() == w.len() && forall|i: int|
                0 <= i < w.len() ==> #[trigger] r@[i]@ == spec_net_row(
                    prev@.map_values(|n: NetworkInfo| n@),
                    w[i],
                ));
        }
        r
    }

    /// The local address read off the OS handle: the first IPv4 of a
    /// non-loopback interface, in the handle's enumeration order, else the
    /// loopback address. Which readings come back is machine state; the
    /// result is the address those readings select.
    pub fn get_local_ip(net_handle: &sysinfo::Networks) -> (r: String)
        ensures
            exists|raw: Seq<RawNetV>|
                #![trigger raw.len()]
                r@ == spec_local_ip(
                    raw.map_values(|s: RawNetV| spec_net_row(Seq::<NetV>::empty(), s)),
                ),
    {
        let samples = crate::sysapi::net_samples(net_handle);
        let ghost w = samples@.map_values(|s: RawNetSample| s@);
        let prev: Vec<NetworkInfo> = Vec::new();
        let rows = compute_networks(&prev, samples);
        let r = local_ip_of(&rows);
        proof {
            assert(prev@.map_values(|n: NetworkInfo| n@) =~= Seq::<NetV>::empty());
            assert(rows@.map_values(|n: NetworkInfo| n@) =~= w.map_values(
                |s: RawNetV| spec_net_row(Seq::<NetV>::empty(), s),
            ));
            assert(w.len() == w.len());
        }
        r
    }
}

} // verus!
