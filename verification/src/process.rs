//! Process table maintenance: the snapshot's raw process enumeration is
//! mapped to `ProcessInfo`, sorted by the active sort key, truncated to the
//! top entries under that key, and the scroll offset is re-clamped.

use vstd::prelude::*;

verus! {

/// Upper bound on the number of table rows kept after a refresh.
pub const MAX_PROCESSES: usize = 50;

/// The active sort key of the process table.
#[derive(Clone, Copy, Debug, PartialEq, Eq, Structural)]
pub enum ProcessSortMode {
    Cpu,
    Memory,
    Pid,
}

impl ProcessSortMode {
    /// Advances the sort key cyclically: Cpu, Memory, Pid, then Cpu again.
    pub fn next(self) -> (r: ProcessSortMode)
        ensures
            r == spec_next_sort_mode(self),
    {
        match self {
            ProcessSortMode::Cpu => ProcessSortMode::Memory,
            ProcessSortMode::Memory => ProcessSortMode::Pid,
            ProcessSortMode::Pid => ProcessSortMode::Cpu,
        }
    }
}

pub open spec fn spec_next_sort_mode(m: ProcessSortMode) -> ProcessSortMode {
    match m {
        ProcessSortMode::Cpu => ProcessSortMode::Memory,
        ProcessSortMode::Memory => ProcessSortMode::Pid,
        ProcessSortMode::Pid => ProcessSortMode::Cpu,
    }
}

/// One row of the process table.
///
/// `cpu` holds the bit pattern of the CPU percentage as the OS handle
/// reported it (an IEEE-754 single). For the non-negative values that the
/// handle reports, unsigned order of the bit patterns coincides with numeric
/// order, so the table sorts on the pattern directly.
pub struct ProcessInfo {
    pub pid: u32,
    pub name: String,
    pub cpu: u32,
    pub mem: u64,
}

/// The mathematical value of one process row.
pub struct ProcV {
    pub pid: u32,
    pub name: Seq<char>,
    pub cpu: u32,
    pub mem: u64,
}

impl View for ProcessInfo {
    type V = ProcV;

    open spec fn view(&self) -> ProcV {
        ProcV { pid: self.pid, name: self.name@, cpu: self.cpu, mem: self.mem }
    }
}

/// `a` may stand at or before `b` under sort key `m`: descending CPU,
/// descending memory, or ascending pid. A total preorder in each case.
pub open spec fn proc_le(m: ProcessSortMode, a: ProcV, b: ProcV) -> bool {
    match m {
        ProcessSortMode::Cpu => a.cpu >= b.cpu,
        ProcessSortMode::Memory => a.mem >= b.mem,
        ProcessSortMode::Pid => a.pid <= b.pid,
    }
}

/// The rows of `s` stand in sort order under key `m`.
pub open spec fn proc_sorted(m: ProcessSortMode, s: Seq<ProcessInfo>) -> bool {
    forall|i: int, j: int| 0 <= i <= j < s.len() ==> proc_le(m, #[trigger] s[i]@, #[trigger] s[j]@)
}

fn proc_le_exec(m: ProcessSortMode, a: &ProcessInfo, b: &ProcessInfo) -> (r: bool)
    ensures
        r == proc_le(m, a@, b@),
{
    match m {
        ProcessSortMode::Cpu => a.cpu >= b.cpu,
        ProcessSortMode::Memory => a.mem >= b.mem,
        ProcessSortMode::Pid => a.pid <= b.pid,
    }
}

/// Where stable insertion puts one more row: after every row at or before
/// it, before every row strictly after it — so equal keys keep their
/// encounter order.
pub open spec fn spec_stable_insert(m: ProcessSortMode, s: Seq<ProcessInfo>, x: ProcessInfo) -> Seq<
    ProcessInfo,
>
    decreases s.len(),
{
    if s.len() == 0 {
        seq![x]
    } else if proc_le(m, s.last()@, x@) {
        s.push(x)
    } else {
        spec_stable_insert(m, s.drop_last(), x).push(s.last())
    }
}

/// The canonical stable sort under key `m`: each row inserted, in encounter
/// order, after its equals.
pub open spec fn spec_stable_sort(m: ProcessSortMode, s: Seq<ProcessInfo>) -> Seq<ProcessInfo>
    decreases s.len(),
{
    if s.len() == 0 {
        s
    } else {
        spec_stable_insert(m, spec_stable_sort(m, s.drop_last()), s.last())
    }
}

/// Inserting a row at a position that every later row is strictly after,
/// and whose predecessor (if any) is at or before the row, is exactly the
/// stable insertion.
proof fn lemma_stable_insert_at(m: ProcessSortMode, s: Seq<ProcessInfo>, x: ProcessInfo, p: int)
    requires
        0 <= p <= s.len(),
        forall|k: int| p <= k < s.len() ==> !proc_le(m, #[trigger] s[k]@, x@),
        p > 0 ==> proc_le(m, s[p - 1]@, x@),
    ensures
        spec_stable_insert(m, s, x) == s.insert(p, x),
    decreases s.len() - p,
{
    if p == s.len() {
        if s.len() == 0 {
            assert(spec_stable_insert(m, s, x) =~= s.insert(p, x));
        } else {
            assert(s.last() == s[p - 1]);
            assert(spec_stable_insert(m, s, x) == s.push(x));
            assert(s.push(x) =~= s.insert(p, x));
        }
    } else {
        assert(!proc_le(m, s.last()@, x@));
        let d = s.drop_last();
        assert(forall|k: int| 0 <= k < d.len() ==> d[k] == s[k]);
        lemma_stable_insert_at(m, d, x, p);
        assert(spec_stable_insert(m, s, x) == spec_stable_insert(m, d, x).push(s.last()));
        assert(d.insert(p, x).push(s.last()) =~= s.insert(p, x));
    }
}

/// Stable insertion sort of the table rows under key `m`: the result is
/// exactly the canonical stable sort — a permutation of the input, in sort
/// order, with equal keys in encounter order.
pub fn sort_processes(v: &mut Vec<ProcessInfo>, m: ProcessSortMode)
    ensures
        final(v)@.len() == old(v)@.len(),
        final(v)@.to_multiset() == old(v)@.to_multiset(),
        proc_sorted(m, final(v)@),
        final(v)@ == spec_stable_sort(m, old(v)@),
{
    broadcast use vstd::seq_lib::group_to_multiset_ensures;
    broadcast use vstd::multiset::group_multiset_axioms;

    let n = v.len();
    if n <= 1 {
        proof {
            if n == 1 {
                assert(v@.drop_last() =~= Seq::<ProcessInfo>::empty());
                assert(spec_stable_sort(m, Seq::<ProcessInfo>::empty())
                    == Seq::<ProcessInfo>::empty());
                assert(spec_stable_sort(m, v@) == spec_stable_insert(
                    m,
                    Seq::<ProcessInfo>::empty(),
                    v@.last(),
                ));
                assert(spec_stable_insert(m, Seq::<ProcessInfo>::empty(), v@.last())
                    == seq![v@.last()]);
                assert(seq![v@.last()] =~= v@);
            }
        }
        return ;
    }
    proof {
        let first = v@.subrange(0, 1);
        assert(first.drop_last() =~= Seq::<ProcessInfo>::empty());
        assert(first.last() == v@[0]);
        assert(spec_stable_sort(m, Seq::<ProcessInfo>::empty()) == Seq::<ProcessInfo>::empty());
        assert(spec_stable_sort(m, first) == spec_stable_insert(
            m,
            Seq::<ProcessInfo>::empty(),
            first.last(),
        ));
        assert(spec_stable_insert(m, Seq::<ProcessInfo>::empty(), first.last())
            == seq![first.last()]);
        assert(seq![first.last()] =~= first);
        assert(first + v@.skip(1) =~= v@);
    }
    let mut i: usize = 1;
    while i < n
        invariant
            1 <= i <= n,
            v@.len() == n,
            old(v)@.len() == n,
            v@.to_multiset() == old(v)@.to_multiset(),
            proc_sorted(m, v@.subrange(0, i as int)),
            v@ == spec_stable_sort(m, old(v)@.subrange(0, i as int)) + old(v)@.skip(i as int),
        decreases n - i,
    {
        let ghost s0 = v@;
        let mut p: usize = i;
        while p > 0 && !proc_le_exec(m, &v[p - 1], &v[i])
            invariant
                p <= i,
                i < v@.len(),
                v@ == s0,
                forall|k: int| p <= k < i ==> !proc_le(m, #[trigger] v@[k]@, v@[i as int]@),
            decreases p,
        {
            p = p - 1;
        }
        let x = v.remove(i);
        v.insert(p, x);
        proof {
            broadcast use vstd::multiset::group_multiset_axioms;

            let s1 = v@;
            let y = s0[i as int];
            assert(s1 == s0.remove(i as int).insert(p as int, y));
            assert(s0.contains(y));
            vstd::seq_lib::to_multiset_contains(s0, y);
            vstd::seq_lib::to_multiset_remove(s0, i as int);
            vstd::seq_lib::to_multiset_insert(s0.remove(i as int), p as int, y);
            assert(s1.to_multiset() == s0.to_multiset().remove(y).insert(y));
            assert(s1.to_multiset() =~= s0.to_multiset());
            assert forall|a: int, b: int| 0 <= a <= b < i + 1 implies proc_le(
                m,
                #[trigger] s1[a]@,
                #[trigger] s1[b]@,
            ) by {
                lemma_insert_step(m, s0, i as int, p as int, a, b);
            }
            assert(proc_sorted(m, s1.subrange(0, i + 1))) by {
                assert forall|a: int, b: int|
                    0 <= a <= b < s1.subrange(0, i + 1).len() implies proc_le(
                    m,
                    #[trigger] s1.subrange(0, i + 1)[a]@,
                    #[trigger] s1.subrange(0, i + 1)[b]@,
                ) by {
                    assert(s1.subrange(0, i + 1)[a] == s1[a]);
                    assert(s1.subrange(0, i + 1)[b] == s1[b]);
                }
            }
            // The in-place move is exactly the canonical stable insertion
            // of the next row into the sorted prefix.
            let ss = spec_stable_sort(m, old(v)@.subrange(0, i as int));
            let suffix = old(v)@.skip(i as int);
            assert(s0 == ss + suffix);
            assert(ss.len() == i);
            assert(y == suffix[0]);
            assert(y == old(v)@[i as int]);
            assert(forall|k: int| 0 <= k < i ==> #[trigger] s0[k] == ss[k]);
            assert forall|k: int| p <= k < ss.len() implies !proc_le(m, #[trigger] ss[k]@, y@) by {
                assert(ss[k] == s0[k]);
            }
            if p > 0 {
                assert(ss[p - 1] == s0[p - 1]);
            }
            lemma_stable_insert_at(m, ss, y, p as int);
            assert(s0.remove(i as int) =~= ss + suffix.drop_first());
            assert((ss + suffix.drop_first()).insert(p as int, y) =~= ss.insert(p as int, y)
                + suffix.drop_first());
            assert(s1 == spec_stable_insert(m, ss, y) + suffix.drop_first());
            let pre1 = old(v)@.subrange(0, i + 1);
            assert(pre1.drop_last() =~= old(v)@.subrange(0, i as int));
            assert(pre1.last() == old(v)@[i as int]);
            assert(spec_stable_sort(m, pre1) == spec_stable_insert(m, ss, y));
            assert(suffix.drop_first() =~= old(v)@.skip(i + 1));
        }
        i = i + 1;
    }
    proof {
        assert(v@.subrange(0, n as int) =~= v@);
        assert(old(v)@.subrange(0, n as int) =~= old(v)@);
        assert(old(v)@.skip(n as int) =~= Seq::<ProcessInfo>::empty());
        assert(spec_stable_sort(m, old(v)@) + Seq::<ProcessInfo>::empty() =~= spec_stable_sort(
            m,
            old(v)@,
        ));
    }
}

/// After removing row `i` of `s` and re-inserting it at `p`, the first
/// `i + 1` rows stand in sort order, given that the first `i` rows of `s`
/// did, that everything in `s[p..i]` is strictly after `s[i]`, and that
/// `s[p-1]` (if any) is at or before `s[i]`.
proof fn lemma_insert_step(m: ProcessSortMode, s: Seq<ProcessInfo>, i: int, p: int, a: int, b: int)
    requires
        0 <= p <= i < s.len(),
        proc_sorted(m, s.subrange(0, i)),
        forall|k: int| p <= k < i ==> !proc_le(m, #[trigger] s[k]@, s[i]@),
        p > 0 ==> proc_le(m, s[p - 1]@, s[i]@),
        0 <= a <= b <= i,
    ensures
        proc_le(
            m,
            s.remove(i).insert(p, s[i])[a]@,
            s.remove(i).insert(p, s[i])[b]@,
        ),
{
    let t = s.remove(i).insert(p, s[i]);
    // Rows before the insertion point, the inserted row, and the shifted rows.
    assert(forall|k: int| 0 <= k < p ==> t[k] == s[k]);
    assert(t[p] == s[i]);
    assert(forall|k: int| p < k <= i ==> t[k] == s[k - 1]);
    let old_prefix = s.subrange(0, i);
    assert(forall|k: int| 0 <= k < i ==> s[k] == old_prefix[k]);
    if a < p && b < p {
        assert(proc_le(m, old_prefix[a]@, old_prefix[b]@));
    } else if a < p && b == p {
        // s[a] is at or before s[p-1], which is at or before the inserted row.
        assert(proc_le(m, old_prefix[a]@, old_prefix[p - 1]@));
        lemma_proc_le_trans(m, s[a]@, s[p - 1]@, s[i]@);
    } else if a < p && b > p {
        assert(proc_le(m, old_prefix[a]@, old_prefix[b - 1]@));
    } else if a == p && b == p {
        lemma_proc_le_total(m, s[i]@, s[i]@);
    } else if a == p && b > p {
        // Everything shifted up was strictly after the inserted row.
        assert(!proc_le(m, s[b - 1]@, s[i]@));
        lemma_proc_le_total(m, s[i]@, s[b - 1]@);
    } else {
        assert(a > p && b > p);
        assert(proc_le(m, old_prefix[a - 1]@, old_prefix[b - 1]@));
    }
}

/// Builds the table shown on the Processes tab from one raw enumeration:
/// sorts the rows stably under key `m` and keeps the first `MAX_PROCESSES`.
/// The rows kept are exactly the best-ranked ones under that key: no dropped
/// row ranks strictly before any kept row.
pub fn build_process_table(raw: Vec<ProcessInfo>, m: ProcessSortMode) -> (r: Vec<ProcessInfo>)
    ensures
        r@.len() == if raw@.len() <= MAX_PROCESSES { raw@.len() } else { MAX_PROCESSES as nat },
        proc_sorted(m, r@),
        r@ == spec_stable_sort(m, raw@).subrange(0, r@.len() as int),
        r@.to_multiset().subset_of(raw@.to_multiset()),
        forall|q: ProcessInfo|
            raw@.to_multiset().count(q) > r@.to_multiset().count(q) ==> forall|i: int|
                0 <= i < r@.len() ==> proc_le(m, #[trigger] r@[i]@, q@),
{
    let ghost raw0 = raw@;
    let mut r = raw;
    sort_processes(&mut r, m);
    let ghost full = r@;
    if r.len() > MAX_PROCESSES {
        r.truncate(MAX_PROCESSES);
    }
    proof {
        broadcast use vstd::multiset::group_multiset_axioms;

        let k = r@.len() as int;
        let dropped = full.subrange(k, full.len() as int);
        assert(r@ == full.subrange(0, k));
        assert(full =~= r@ + dropped);
        vstd::seq_lib::lemma_multiset_commutative(r@, dropped);
        assert(full.to_multiset() == r@.to_multiset().add(dropped.to_multiset()));
        assert forall|q: ProcessInfo|
            raw0.to_multiset().count(q) > r@.to_multiset().count(q) implies forall|i: int|
            0 <= i < r@.len() ==> proc_le(m, #[trigger] r@[i]@, q@) by {
            assert(dropped.to_multiset().count(q) > 0);
            vstd::seq_lib::to_multiset_contains(dropped, q);
            let j = choose|j: int| 0 <= j < dropped.len() && dropped[j] == q;
            assert(full[k + j] == q);
            assert forall|i: int| 0 <= i < r@.len() implies proc_le(m, #[trigger] r@[i]@, q@) by {
                assert(full[i] == r@[i]);
                assert(proc_le(m, full[i]@, full[k + j]@));
            }
        }
    }
    r
}

/// Clamps the process-scroll offset against a table of `len` rows: the
/// offset always stays below `max(1, len)`.
pub open spec fn spec_clamp_scroll(scroll: usize, len: usize) -> usize {
    if len == 0 {
        0
    } else if scroll >= len {
        (len - 1) as usize
    } else {
        scroll
    }
}

pub fn clamp_scroll(scroll: usize, len: usize) -> (r: usize)
    ensures
        r == spec_clamp_scroll(scroll, len),
        r < len || (len == 0 && r == 0),
{
    if len == 0 {
        0
    } else if scroll >= len {
        len - 1
    } else {
        scroll
    }
}

/// The sort relation is total: of any two rows, one stands at or before the
/// other.
proof fn lemma_proc_le_total(m: ProcessSortMode, a: ProcV, b: ProcV)
    ensures
        proc_le(m, a, b) || proc_le(m, b, a),
{
}

/// The sort relation is transitive.
proof fn lemma_proc_le_trans(m: ProcessSortMode, a: ProcV, b: ProcV, c: ProcV)
    requires
        proc_le(m, a, b),
        proc_le(m, b, c),
    ensures
        proc_le(m, a, c),
{
}

} // verus!
