//! CPU identity: the per-core brand strings are deduplicated and sorted
//! into a list of distinct model names, with the core count alongside. A
//! handle that reports no cores at all yields one placeholder entry.

use vstd::prelude::*;

verus! {

/// The distinct CPU model names, sorted, and the logical core count.
pub struct CpuInfo {
    pub models: Vec<String>,
    pub cores: usize,
}

/// Lexicographic order on character sequences, by code point.
pub open spec fn lex_le(a: Seq<char>, b: Seq<char>) -> bool
    decreases a.len(),
{
    if a.len() == 0 {
        true
    } else if b.len() == 0 {
        false
    } else if (a[0] as int) < (b[0] as int) {
        true
    } else if (a[0] as int) > (b[0] as int) {
        false
    } else {
        lex_le(a.drop_first(), b.drop_first())
    }
}

pub proof fn lemma_lex_refl(a: Seq<char>)
    ensures
        lex_le(a, a),
    decreases a.len(),
{
    if a.len() > 0 {
        lemma_lex_refl(a.drop_first());
    }
}

pub proof fn lemma_lex_total(a: Seq<char>, b: Seq<char>)
    ensures
        lex_le(a, b) || lex_le(b, a),
    decreases a.len(),
{
    if a.len() > 0 && b.len() > 0 && a[0] == b[0] {
        lemma_lex_total(a.drop_first(), b.drop_first());
    }
}

pub proof fn lemma_lex_trans(a: Seq<char>, b: Seq<char>, c: Seq<char>)
    requires
        lex_le(a, b),
        lex_le(b, c),
    ensures
        lex_le(a, c),
    decreases a.len(),
{
    if a.len() > 0 && b.len() > 0 && c.len() > 0 && a[0] == b[0] && b[0] == c[0] {
        lemma_lex_trans(a.drop_first(), b.drop_first(), c.drop_first());
    }
}

pub proof fn lemma_lex_antisym(a: Seq<char>, b: Seq<char>)
    requires
        lex_le(a, b),
        lex_le(b, a),
    ensures
        a == b,
    decreases a.len(),
{
    if a.len() > 0 && b.len() > 0 && a[0] == b[0] {
        lemma_lex_antisym(a.drop_first(), b.drop_first());
        assert(a =~= seq![a[0]] + a.drop_first());
        assert(b =~= seq![b[0]] + b.drop_first());
    } else {
        assert(a.len() == 0 && b.len() == 0);
        assert(a =~= b);
    }
}

/// Lexicographic comparison of two strings.
pub fn lex_le_exec(a: &String, b: &String) -> (r: bool)
    ensures
        r == lex_le(a@, b@),
{
    let na = a.as_str().unicode_len();
    let nb = b.as_str().unicode_len();
    proof {
        assert(a@.skip(0) =~= a@);
        assert(b@.skip(0) =~= b@);
    }
    let mut i: usize = 0;
    loop
        invariant
            i <= na,
            i <= nb,
            na == a@.len(),
            nb == b@.len(),
            lex_le(a@, b@) == lex_le(a@.skip(i as int), b@.skip(i as int)),
        decreases na - i,
    {
        if i == na {
            proof {
                assert(a@.skip(i as int).len() == 0);
            }
            return true;
        }
        if i == nb {
            proof {
                assert(b@.skip(i as int).len() == 0);
                assert(a@.skip(i as int).len() > 0);
            }
            return false;
        }
        let ca = a.as_str().get_char(i);
        let cb = b.as_str().get_char(i);
        proof {
            assert(a@.skip(i as int)[0] == a@[i as int]);
            assert(b@.skip(i as int)[0] == b@[i as int]);
        }
        if (ca as u32) < (cb as u32) {
            return true;
        }
        if (ca as u32) > (cb as u32) {
            return false;
        }
        proof {
            assert(a@.skip(i as int).drop_first() =~= a@.skip(i + 1));
            assert(b@.skip(i as int).drop_first() =~= b@.skip(i + 1));
        }
        i = i + 1;
    }
}

/// The sequence is strictly increasing: sorted, with no duplicates.
pub open spec fn strictly_sorted(s: Seq<Seq<char>>) -> bool {
    forall|i: int, j: int|
        0 <= i < j < s.len() ==> lex_le(#[trigger] s[i], #[trigger] s[j]) && s[i] != s[j]
}

/// Whether some element of `s` equals `x`.
pub open spec fn contains_str(s: Seq<Seq<char>>, x: Seq<char>) -> bool {
    exists|i: int| 0 <= i < s.len() && s[i] == x
}

/// Whether some string of `vs` reads `x`.
pub open spec fn contains_vstr(vs: Seq<String>, x: Seq<char>) -> bool {
    exists|i: int| 0 <= i < vs.len() && vs[i]@ == x
}

/// Inserts `brand` into the sorted duplicate-free list, keeping it so.
fn insert_model(models: &mut Vec<String>, brand: &String)
    requires
        strictly_sorted(old(models)@.map_values(|s: String| s@)),
    ensures
        strictly_sorted(final(models)@.map_values(|s: String| s@)),
        forall|x: Seq<char>|
            #[trigger] contains_vstr(final(models)@, x) <==> (contains_vstr(old(models)@, x) || x
                == brand@),
{
    let ghost mv = models@.map_values(|s: String| s@);
    let mut p: usize = 0;
    while p < models.len() && !lex_le_exec(brand, &models[p])
        invariant
            p <= models@.len(),
            mv == models@.map_values(|s: String| s@),
            forall|k: int| 0 <= k < p ==> !lex_le(brand@, #[trigger] mv[k]),
        decreases models@.len() - p,
    {
        proof {
            assert(mv[p as int] == models@[p as int]@);
        }
        p = p + 1;
    }
    proof {
        assert(forall|k: int| 0 <= k < models@.len() ==> #[trigger] mv[k] == models@[k]@);
    }
    if p < models.len() && crate::strutil::str_eq(brand.as_str(), models[p].as_str()) {
        proof {
            assert(models@[p as int]@ == brand@);
            assert(contains_vstr(models@, brand@));
            assert forall|x: Seq<char>| #[trigger] contains_vstr(models@, x) implies
                contains_vstr(models@, x) || x == brand@ by {}
        }
        return ;
    }
    models.insert(p, brand.clone());
    proof {
        let nv = models@.map_values(|s: String| s@);
        assert(nv =~= mv.insert(p as int, brand@));
        assert(forall|k: int| 0 <= k < p ==> nv[k] == mv[k]);
        assert(nv[p as int] == brand@);
        assert(forall|k: int| p < k < nv.len() ==> nv[k] == mv[k - 1]);
        assert forall|i: int, j: int| 0 <= i < j < nv.len() implies lex_le(
            #[trigger] nv[i],
            #[trigger] nv[j],
        ) && nv[i] != nv[j] by {
            lemma_insert_sorted(mv, brand@, p as int, i, j);
        }
        assert forall|x: Seq<char>| #[trigger] contains_vstr(models@, x) implies contains_vstr(
            old(models)@,
            x,
        ) || x == brand@ by {
            let i = choose|i: int| 0 <= i < models@.len() && models@[i]@ == x;
            assert(nv[i] == x);
            if i < p {
                assert(mv[i] == x);
                assert(old(models)@[i]@ == x);
            } else if i > p {
                assert(mv[i - 1] == x);
                assert(old(models)@[i - 1]@ == x);
            }
        }
        assert forall|x: Seq<char>| contains_vstr(old(models)@, x) || x == brand@ implies
            #[trigger] contains_vstr(models@, x) by {
            if x == brand@ {
                assert(models@[p as int]@ == x);
            } else {
                let i = choose|i: int| 0 <= i < old(models)@.len() && old(models)@[i]@ == x;
                assert(mv[i] == x);
                if i < p {
                    assert(models@[i]@ == x);
                } else {
                    assert(models@[i + 1]@ == x);
                }
            }
        }
    }
}

/// After inserting a new name at the scan position, the list stays
/// strictly increasing.
proof fn lemma_insert_sorted(mv: Seq<Seq<char>>, x: Seq<char>, p: int, i: int, j: int)
    requires
        strictly_sorted(mv),
        0 <= p <= mv.len(),
        forall|k: int| 0 <= k < p ==> !lex_le(x, #[trigger] mv[k]),
        p < mv.len() ==> lex_le(x, mv[p]) && mv[p] != x,
        0 <= i < j < mv.insert(p, x).len(),
    ensures
        lex_le(mv.insert(p, x)[i], mv.insert(p, x)[j]),
        mv.insert(p, x)[i] != mv.insert(p, x)[j],
{
    let nv = mv.insert(p, x);
    assert(forall|k: int| 0 <= k < p ==> nv[k] == mv[k]);
    assert(nv[p] == x);
    assert(forall|k: int| p < k < nv.len() ==> nv[k] == mv[k - 1]);
    if i < p && j < p {
    } else if i < p && j == p {
        // mv[i] is before x: not x <= mv[i], so by totality mv[i] <= x.
        lemma_lex_total(x, mv[i]);
        if mv[i] == x {
            lemma_lex_refl(x);
        }
    } else if i < p && j > p {
    } else if i == p && j > p {
        // x goes before mv[p] and everything after it.
        if j == p + 1 {
        } else {
            lemma_lex_trans(x, mv[p], mv[j - 1]);
        }
        if nv[j] == x {
            // Then mv[p] <= mv[j-1] == x and x <= mv[p]: the scan would
            // have stopped at an equal entry earlier.
            lemma_lex_antisym(x, mv[p]);
        }
    } else {
        assert(i > p && j > p);
    }
}

/// Builds the CPU identity out of the per-core brand strings: the distinct
/// names, sorted; no cores at all yield the placeholder entry.
pub fn summarize_cpus(brands: &Vec<String>) -> (r: CpuInfo)
    ensures
        r.cores == brands@.len(),
        brands@.len() == 0 ==> r.models@.len() == 1 && r.models@[0]@ == "Unknown CPU"@,
        brands@.len() > 0 ==> strictly_sorted(r.models@.map_values(|s: String| s@)),
        brands@.len() > 0 ==> forall|x: Seq<char>|
            #[trigger] contains_vstr(r.models@, x) <==> contains_vstr(brands@, x),
{
    let cores = brands.len();
    if cores == 0 {
        let models: Vec<String> = vec!["Unknown CPU".to_owned()];
        return CpuInfo { models, cores };
    }
    let ghost bv = brands@.map_values(|s: String| s@);
    let mut models: Vec<String> = Vec::new();
    let mut i: usize = 0;
    while i < brands.len()
        invariant
            i <= brands@.len(),
            bv == brands@.map_values(|s: String| s@),
            strictly_sorted(models@.map_values(|s: String| s@)),
            forall|x: Seq<char>|
                #[trigger] contains_vstr(models@, x) <==> contains_str(bv.take(i as int), x),
        decreases brands@.len() - i,
    {
        proof {
            assert(bv[i as int] == brands@[i as int]@);
        }
        insert_model(&mut models, &brands[i]);
        proof {
            let pre = bv.take(i as int);
            let cur = bv.take(i + 1);
            assert(forall|k: int| 0 <= k < i ==> cur[k] == pre[k]);
            assert(cur[i as int] == bv[i as int]);
            assert forall|x: Seq<char>| contains_str(cur, x) implies contains_str(pre, x) || x
                == bv[i as int] by {
                let k = choose|k: int| 0 <= k < cur.len() && cur[k] == x;
                if k < i {
                    assert(pre[k] == x);
                }
            }
            assert forall|x: Seq<char>| contains_str(pre, x) || x == bv[i as int] implies
                contains_str(cur, x) by {
                if x == bv[i as int] {
                    assert(cur[i as int] == x);
                } else {
                    let k = choose|k: int| 0 <= k < pre.len() && pre[k] == x;
                    assert(cur[k] == x);
                }
            }
        }
        i = i + 1;
    }
    proof {
        assert(bv.take(i as int) =~= bv);
        assert forall|x: Seq<char>| #[trigger] contains_vstr(models@, x) implies contains_vstr(
            brands@,
            x,
        ) by {
            assert(contains_str(bv, x));
            let k = choose|k: int| 0 <= k < bv.len() && bv[k] == x;
            assert(brands@[k]@ == x);
        }
        assert forall|x: Seq<char>| contains_vstr(brands@, x) implies #[trigger] contains_vstr(
            models@,
            x,
        ) by {
            let k = choose|k: int| 0 <= k < brands@.len() && brands@[k]@ == x;
            assert(bv[k] == x);
            assert(contains_str(bv, x));
        }
    }
    CpuInfo { models, cores }
}

impl CpuInfo {
    /// Reads the per-core brands off the OS handle and summarizes them.
    /// The handle must have had its CPU list refreshed once.
    pub fn new(sys: &sysinfo::System) -> (r: CpuInfo)
        ensures
            r.models@.len() >= 1,
            strictly_sorted(r.models@.map_values(|s: String| s@)),
    {
        let brands = crate::sysapi::cpu_brands(sys);
        let info = summarize_cpus(&brands);
        proof {
            if brands@.len() == 0 {
                assert(strictly_sorted(info.models@.map_values(|s: String| s@)));
            }
            if brands@.len() > 0 {
                assert(contains_vstr(brands@, brands@[0]@));
                assert(contains_vstr(info.models@, brands@[0]@));
                let k = choose|k: int| 0 <= k < info.models@.len() && info.models@[k]@ == brands@[0]@;
            }
        }
        info
    }
}

} // verus!
