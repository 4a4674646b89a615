//! Small text-scanning toolkit: first occurrence of a character, splitting
//! on a separator, trimming blanks, and quoted strings. Each operation has
//! a specification-level definition, an executable form proved against it,
//! and the inversion lemmas the configuration round trip rests on.

use vstd::prelude::*;

verus! {

/// Blank characters stripped by trimming.
pub open spec fn is_ws(c: char) -> bool {
    c == ' ' || c == '\t' || c == '\r' || c == '\n'
}

pub fn is_ws_exec(c: char) -> (r: bool)
    ensures
        r == is_ws(c),
{
    c == ' ' || c == '\t' || c == '\r' || c == '\n'
}

/// Index of the first occurrence of `c` in `s`, or `s.len()` if absent.
pub open spec fn find_ch(s: Seq<char>, c: char) -> nat
    decreases s.len(),
{
    if s.len() == 0 {
        0
    } else if s[0] == c {
        0
    } else {
        1 + find_ch(s.drop_first(), c)
    }
}

/// `find_ch` points at the first occurrence: nothing before it matches, and
/// it matches unless it is the length.
pub proof fn lemma_find_ch(s: Seq<char>, c: char)
    ensures
        find_ch(s, c) <= s.len(),
        find_ch(s, c) < s.len() ==> s[find_ch(s, c) as int] == c,
        forall|k: int| 0 <= k < find_ch(s, c) ==> s[k] != c,
    decreases s.len(),
{
    if s.len() > 0 && s[0] != c {
        lemma_find_ch(s.drop_first(), c);
        assert forall|k: int| 0 <= k < find_ch(s, c) implies s[k] != c by {
            if k > 0 {
                assert(s[k] == s.drop_first()[k - 1]);
            }
        }
    }
}

/// Any index with the first-occurrence property is `find_ch`.
pub proof fn lemma_find_ch_unique(s: Seq<char>, c: char, j: int)
    requires
        0 <= j <= s.len(),
        forall|k: int| 0 <= k < j ==> s[k] != c,
        j < s.len() ==> s[j] == c,
    ensures
        find_ch(s, c) == j,
{
    lemma_find_ch(s, c);
    let f = find_ch(s, c) as int;
    if f < j {
        assert(s[f] == c);
    } else if j < f {
        assert(s[j] != c);
    }
}

/// Splits `s` at every occurrence of `c`. A terminal separator closes the
/// last piece; text with no separator is one piece; empty text is none.
pub open spec fn split_on(s: Seq<char>, c: char) -> Seq<Seq<char>>
    decreases s.len(),
{
    if s.len() == 0 {
        seq![]
    } else {
        let i = find_ch(s, c);
        if i >= s.len() {
            seq![s]
        } else {
            seq![s.subrange(0, i as int)] + split_on(s.subrange(i as int + 1, s.len() as int), c)
        }
    }
}

/// Splitting takes one piece off the front: a piece free of the separator,
/// the separator, then the rest.
pub proof fn lemma_split_on_head(l: Seq<char>, c: char, rest: Seq<char>)
    requires
        !l.contains(c),
    ensures
        split_on(l + seq![c] + rest, c) == seq![l] + split_on(rest, c),
{
    let s = l + seq![c] + rest;
    assert(forall|k: int| 0 <= k < l.len() ==> s[k] == l[k]);
    assert(forall|k: int| 0 <= k < l.len() ==> s[k] != c);
    assert(s[l.len() as int] == c);
    lemma_find_ch_unique(s, c, l.len() as int);
    assert(s.subrange(0, l.len() as int) =~= l);
    assert(s.subrange(l.len() as int + 1, s.len() as int) =~= rest);
}

/// Each element followed by one separator, concatenated.
pub open spec fn join_term(ls: Seq<Seq<char>>, c: char) -> Seq<char>
    decreases ls.len(),
{
    if ls.len() == 0 {
        seq![]
    } else {
        ls.first() + seq![c] + join_term(ls.drop_first(), c)
    }
}

/// Splitting inverts terminal joining, for pieces free of the separator.
pub proof fn lemma_split_join_term(ls: Seq<Seq<char>>, c: char)
    requires
        forall|i: int| 0 <= i < ls.len() ==> !(#[trigger] ls[i]).contains(c),
    ensures
        split_on(join_term(ls, c), c) == ls,
    decreases ls.len(),
{
    if ls.len() == 0 {
        assert(split_on(join_term(ls, c), c) =~= ls);
    } else {
        let rest = ls.drop_first();
        assert(forall|i: int| 0 <= i < rest.len() ==> rest[i] == ls[i + 1]);
        lemma_split_join_term(rest, c);
        lemma_split_on_head(ls.first(), c, join_term(rest, c));
        assert(seq![ls.first()] + rest =~= ls);
    }
}

/// Elements joined with a single separator between them (none at the end).
pub open spec fn sep_join(ls: Seq<Seq<char>>, c: char) -> Seq<char>
    decreases ls.len(),
{
    if ls.len() == 0 {
        seq![]
    } else if ls.len() == 1 {
        ls.first()
    } else {
        ls.first() + seq![c] + sep_join(ls.drop_first(), c)
    }
}

/// Splitting inverts separator joining, for non-empty pieces free of the
/// separator.
pub proof fn lemma_split_sep_join(ls: Seq<Seq<char>>, c: char)
    requires
        forall|i: int| 0 <= i < ls.len() ==> !(#[trigger] ls[i]).contains(c),
        forall|i: int| 0 <= i < ls.len() ==> (#[trigger] ls[i]).len() > 0,
    ensures
        split_on(sep_join(ls, c), c) == ls,
    decreases ls.len(),
{
    if ls.len() == 0 {
        assert(split_on(sep_join(ls, c), c) =~= ls);
    } else if ls.len() == 1 {
        let s = ls.first();
        lemma_find_ch(s, c);
        assert(find_ch(s, c) == s.len()) by {
            if find_ch(s, c) < s.len() {
                assert(s.contains(c));
            }
        }
        assert(split_on(s, c) =~= ls);
    } else {
        let rest = ls.drop_first();
        assert(forall|i: int| 0 <= i < rest.len() ==> rest[i] == ls[i + 1]);
        lemma_split_sep_join(rest, c);
        lemma_split_on_head(ls.first(), c, sep_join(rest, c));
        assert(seq![ls.first()] + rest =~= ls);
    }
}

/// Appending one more piece extends a terminal join at the back.
pub proof fn lemma_join_term_push(ls: Seq<Seq<char>>, x: Seq<char>, c: char)
    ensures
        join_term(ls.push(x), c) == join_term(ls, c) + x + seq![c],
    decreases ls.len(),
{
    if ls.len() == 0 {
        assert(ls.push(x).first() == x);
        assert(ls.push(x).drop_first() =~= Seq::<Seq<char>>::empty());
        assert(join_term(ls.push(x), c) == ls.push(x).first() + seq![c] + join_term(
            ls.push(x).drop_first(),
            c,
        ));
        assert(join_term(Seq::<Seq<char>>::empty(), c) == Seq::<char>::empty());
        assert(join_term(ls, c) == Seq::<char>::empty());
        assert(x + seq![c] + Seq::<char>::empty() =~= Seq::<char>::empty() + x + seq![c]);
    } else {
        assert(ls.push(x).first() == ls.first());
        assert(ls.push(x).drop_first() =~= ls.drop_first().push(x));
        lemma_join_term_push(ls.drop_first(), x, c);
        assert(join_term(ls.push(x), c) == ls.first() + seq![c] + join_term(
            ls.drop_first().push(x),
            c,
        ));
        assert(join_term(ls.drop_first().push(x), c) == join_term(ls.drop_first(), c) + x
            + seq![c]);
        assert(ls.first() + seq![c] + (join_term(ls.drop_first(), c) + x + seq![c]) =~= (ls.first()
            + seq![c] + join_term(ls.drop_first(), c)) + x + seq![c]);
    }
}

/// Appending one more piece extends a separator join at the back.
pub proof fn lemma_sep_join_push(ls: Seq<Seq<char>>, x: Seq<char>, c: char)
    ensures
        ls.len() == 0 ==> sep_join(ls.push(x), c) == x,
        ls.len() > 0 ==> sep_join(ls.push(x), c) == sep_join(ls, c) + seq![c] + x,
    decreases ls.len(),
{
    if ls.len() == 0 {
        assert(sep_join(ls.push(x), c) == ls.push(x).first());
        assert(ls.push(x).first() == x);
    } else if ls.len() == 1 {
        assert(ls.push(x).first() == ls.first());
        assert(ls.push(x).drop_first() =~= seq![x]);
        assert(sep_join(seq![x], c) == x);
        assert(sep_join(ls.push(x), c) =~= sep_join(ls, c) + seq![c] + x);
    } else {
        assert(ls.push(x).first() == ls.first());
        assert(ls.push(x).drop_first() =~= ls.drop_first().push(x));
        lemma_sep_join_push(ls.drop_first(), x, c);
        assert(sep_join(ls.push(x), c) =~= sep_join(ls, c) + seq![c] + x);
    }
}

/// A character occurs in a concatenation exactly when it occurs in a part.
pub proof fn lemma_concat_contains(a: Seq<char>, b: Seq<char>, x: char)
    ensures
        (a + b).contains(x) <==> a.contains(x) || b.contains(x),
{
    if a.contains(x) {
        let i = choose|i: int| 0 <= i < a.len() && a[i] == x;
        assert((a + b)[i] == x);
    }
    if b.contains(x) {
        let i = choose|i: int| 0 <= i < b.len() && b[i] == x;
        assert((a + b)[a.len() + i] == x);
    }
    if (a + b).contains(x) {
        let i = choose|i: int| 0 <= i < (a + b).len() && (a + b)[i] == x;
        if i < a.len() {
            assert(a[i] == x);
        } else {
            assert(b[i - a.len()] == x);
        }
    }
}

/// Count of blanks at the front.
pub open spec fn lead_ws(s: Seq<char>) -> nat
    decreases s.len(),
{
    if s.len() == 0 {
        0
    } else if is_ws(s[0]) {
        1 + lead_ws(s.drop_first())
    } else {
        0
    }
}

/// Count of blanks at the back.
pub open spec fn trail_ws(s: Seq<char>) -> nat
    decreases s.len(),
{
    if s.len() == 0 {
        0
    } else if is_ws(s.last()) {
        1 + trail_ws(s.drop_last())
    } else {
        0
    }
}

/// `s` with leading and trailing blanks removed.
pub open spec fn spec_trim(s: Seq<char>) -> Seq<char> {
    let l = s.subrange(lead_ws(s) as int, s.len() as int);
    l.subrange(0, l.len() - trail_ws(l))
}

pub proof fn lemma_lead_ws(s: Seq<char>)
    ensures
        lead_ws(s) <= s.len(),
        forall|k: int| 0 <= k < lead_ws(s) ==> is_ws(s[k]),
        lead_ws(s) < s.len() ==> !is_ws(s[lead_ws(s) as int]),
    decreases s.len(),
{
    if s.len() > 0 && is_ws(s[0]) {
        lemma_lead_ws(s.drop_first());
        assert forall|k: int| 0 <= k < lead_ws(s) implies is_ws(s[k]) by {
            if k > 0 {
                assert(s[k] == s.drop_first()[k - 1]);
            }
        }
    }
}

pub proof fn lemma_lead_ws_unique(s: Seq<char>, j: int)
    requires
        0 <= j <= s.len(),
        forall|k: int| 0 <= k < j ==> is_ws(s[k]),
        j < s.len() ==> !is_ws(s[j]),
    ensures
        lead_ws(s) == j,
{
    lemma_lead_ws(s);
    let f = lead_ws(s) as int;
    if f < j {
        assert(is_ws(s[f]));
    } else if j < f {
        assert(is_ws(s[j]));
    }
}

pub proof fn lemma_trail_ws(s: Seq<char>)
    ensures
        trail_ws(s) <= s.len(),
        forall|k: int| s.len() - trail_ws(s) <= k < s.len() ==> is_ws(s[k]),
        trail_ws(s) < s.len() ==> !is_ws(s[s.len() - trail_ws(s) - 1]),
    decreases s.len(),
{
    if s.len() > 0 && is_ws(s.last()) {
        lemma_trail_ws(s.drop_last());
        assert forall|k: int| s.len() - trail_ws(s) <= k < s.len() implies is_ws(s[k]) by {
            if k < s.len() - 1 {
                assert(s[k] == s.drop_last()[k]);
            }
        }
    }
}

pub proof fn lemma_trail_ws_unique(s: Seq<char>, j: int)
    requires
        0 <= j <= s.len(),
        forall|k: int| s.len() - j <= k < s.len() ==> is_ws(s[k]),
        j < s.len() ==> !is_ws(s[s.len() - j - 1]),
    ensures
        trail_ws(s) == j,
{
    lemma_trail_ws(s);
    let f = trail_ws(s);
    if f < j {
        assert(!is_ws(s[s.len() - f - 1]));
        assert(is_ws(s[s.len() - f - 1]));
    } else if j < f {
        assert(is_ws(s[s.len() - j - 1]));
    }
}

/// Text that neither starts nor ends with a blank trims to itself.
pub proof fn lemma_trim_noop(s: Seq<char>)
    requires
        s.len() > 0 ==> !is_ws(s[0]),
        s.len() > 0 ==> !is_ws(s.last()),
    ensures
        spec_trim(s) == s,
{
    lemma_lead_ws_unique(s, 0);
    assert(s.subrange(0, s.len() as int) =~= s);
    lemma_trail_ws_unique(s, 0);
    assert(s.subrange(0, s.len() as int) =~= s);
}

/// Quoted form of a string: a double quote on each side.
pub open spec fn quote(s: Seq<char>) -> Seq<char> {
    seq!['"'] + s + seq!['"']
}

/// What reading a quoted string yields: the inside of the quotes, if the
/// text is quoted and the inside holds neither a quote nor a backslash.
pub open spec fn spec_parse_quoted(v: Seq<char>) -> Option<Seq<char>> {
    if v.len() >= 2 && v[0] == '"' && v.last() == '"' {
        let inner = v.subrange(1, v.len() - 1);
        if inner.contains('"') || inner.contains('\\') {
            None
        } else {
            Some(inner)
        }
    } else {
        None
    }
}

/// Reading a quoted string inverts quoting, for content free of quotes and
/// backslashes.
pub proof fn lemma_parse_quote(s: Seq<char>)
    requires
        !s.contains('"'),
        !s.contains('\\'),
    ensures
        spec_parse_quoted(quote(s)) == Some(s),
{
    let v = quote(s);
    assert(v[0] == '"');
    assert(v.last() == '"');
    assert(v.subrange(1, v.len() - 1) =~= s);
}

/// Copies `v[a..b]` out as a fresh vector.
pub fn copy_range(v: &Vec<char>, a: usize, b: usize) -> (r: Vec<char>)
    requires
        a <= b <= v@.len(),
    ensures
        r@ == v@.subrange(a as int, b as int),
{
    let mut r: Vec<char> = Vec::new();
    let mut i: usize = a;
    while i < b
        invariant
            a <= i <= b <= v@.len(),
            r@ == v@.subrange(a as int, i as int),
        decreases b - i,
    {
        r.push(v[i]);
        proof {
            assert(r@ =~= v@.subrange(a as int, i + 1));
        }
        i = i + 1;
    }
    r
}

/// Character equality between `v[a..b]` and a string slice.
pub fn range_eq_str(v: &Vec<char>, a: usize, b: usize, s: &str) -> (r: bool)
    requires
        a <= b <= v@.len(),
    ensures
        r == (v@.subrange(a as int, b as int) == s@),
{
    let n = s.unicode_len();
    if b - a != n {
        proof {
            assert(v@.subrange(a as int, b as int).len() != s@.len());
        }
        return false;
    }
    let mut i: usize = 0;
    while i < n
        invariant
            i <= n,
            a <= b <= v@.len(),
            b - a == n,
            n == s@.len(),
            forall|k: int| 0 <= k < i ==> v@[a + k] == s@[k],
        decreases n - i,
    {
        if v[a + i] != s.get_char(i) {
            proof {
                assert(v@.subrange(a as int, b as int)[i as int] != s@[i as int]);
            }
            return false;
        }
        i = i + 1;
    }
    proof {
        assert(v@.subrange(a as int, b as int) =~= s@);
    }
    true
}

/// Index of the first occurrence of `c` in `v[a..b]`, or `b` if absent.
pub fn find_in_range(v: &Vec<char>, a: usize, b: usize, c: char) -> (r: usize)
    requires
        a <= b <= v@.len(),
    ensures
        r - a == find_ch(v@.subrange(a as int, b as int), c),
        a <= r <= b,
        r < b ==> v@[r as int] == c,
        forall|k: int| a <= k < r ==> v@[k] != c,
{
    let ghost t = v@.subrange(a as int, b as int);
    let mut i: usize = a;
    while i < b
        invariant
            a <= i <= b <= v@.len(),
            t == v@.subrange(a as int, b as int),
            forall|k: int| a <= k < i ==> v@[k] != c,
        decreases b - i,
    {
        if v[i] == c {
            proof {
                assert forall|k: int| 0 <= k < i - a implies t[k] != c by {
                    assert(t[k] == v@[a + k]);
                }
                assert(t[i - a] == c);
                lemma_find_ch_unique(t, c, i - a);
            }
            return i;
        }
        i = i + 1;
    }
    proof {
        assert forall|k: int| 0 <= k < b - a implies t[k] != c by {
            assert(t[k] == v@[a + k]);
        }
        lemma_find_ch_unique(t, c, b - a);
    }
    b
}

/// Trims `v[a..b]`: returns the sub-range holding the trimmed text.
pub fn trim_range(v: &Vec<char>, a: usize, b: usize) -> (r: (usize, usize))
    requires
        a <= b <= v@.len(),
    ensures
        a <= r.0 <= r.1 <= b,
        v@.subrange(r.0 as int, r.1 as int) == spec_trim(v@.subrange(a as int, b as int)),
{
    let ghost t = v@.subrange(a as int, b as int);
    let mut a2: usize = a;
    while a2 < b && is_ws_exec(v[a2])
        invariant
            a <= a2 <= b <= v@.len(),
            forall|k: int| a <= k < a2 ==> is_ws(v@[k]),
        decreases b - a2,
    {
        a2 = a2 + 1;
    }
    proof {
        assert(forall|k: int| 0 <= k < t.len() ==> t[k] == v@[a + k]);
        lemma_lead_ws_unique(t, a2 - a);
    }
    let mut b2: usize = b;
    while b2 > a2 && is_ws_exec(v[b2 - 1])
        invariant
            a2 <= b2 <= b <= v@.len(),
            forall|k: int| b2 <= k < b ==> is_ws(v@[k]),
        decreases b2,
    {
        b2 = b2 - 1;
    }
    proof {
        let l = t.subrange(lead_ws(t) as int, t.len() as int);
        assert(l =~= v@.subrange(a2 as int, b as int));
        assert(forall|k: int| 0 <= k < l.len() ==> l[k] == v@[a2 + k]);
        lemma_trail_ws_unique(l, b - b2);
        assert(v@.subrange(a2 as int, b2 as int) =~= l.subrange(0, l.len() - trail_ws(l)));
    }
    (a2, b2)
}

/// Splits `v[a..b]` at every occurrence of `c`, as `split_on` does.
pub fn split_range_on(v: &Vec<char>, a: usize, b: usize, c: char) -> (r: Vec<Vec<char>>)
    requires
        a <= b <= v@.len(),
    ensures
        r@.map_values(|p: Vec<char>| p@) == split_on(v@.subrange(a as int, b as int), c),
{
    let mut parts: Vec<Vec<char>> = Vec::new();
    let mut pos: usize = a;
    loop
        invariant_except_break
            a <= pos <= b <= v@.len(),
            split_on(v@.subrange(a as int, b as int), c) == parts@.map_values(|p: Vec<char>| p@)
                + split_on(v@.subrange(pos as int, b as int), c),
        ensures
            parts@.map_values(|p: Vec<char>| p@) == split_on(v@.subrange(a as int, b as int), c),
        decreases b - pos,
    {
        let j = find_in_range(v, pos, b, c);
        if j < b {
            let ghost old_parts = parts@;
            let piece = copy_range(v, pos, j);
            parts.push(piece);
            proof {
                let rest = v@.subrange(pos as int, b as int);
                let pc = v@.subrange(pos as int, j as int);
                assert forall|k: int| 0 <= k < pc.len() implies pc[k] != c by {
                    assert(pc[k] == v@[pos + k]);
                }
                if pc.contains(c) {
                    let k = choose|k: int| 0 <= k < pc.len() && pc[k] == c;
                    assert(false);
                }
                assert(rest =~= pc + seq![c] + v@.subrange(j as int + 1, b as int));
                lemma_split_on_head(pc, c, v@.subrange(j as int + 1, b as int));
                assert(parts@.map_values(|p: Vec<char>| p@) =~= old_parts.map_values(
                    |p: Vec<char>| p@,
                ).push(pc));
                assert(old_parts.map_values(|p: Vec<char>| p@) + (seq![pc] + split_on(
                    v@.subrange(j as int + 1, b as int),
                    c,
                )) =~= parts@.map_values(|p: Vec<char>| p@) + split_on(
                    v@.subrange(j as int + 1, b as int),
                    c,
                ));
            }
            pos = j + 1;
        } else {
            if pos < b {
                let ghost old_parts = parts@;
                let piece = copy_range(v, pos, b);
                parts.push(piece);
                proof {
                    let pc = v@.subrange(pos as int, b as int);
                    assert forall|k: int| 0 <= k < pc.len() implies pc[k] != c by {
                        assert(pc[k] == v@[pos + k]);
                    }
                    lemma_find_ch_unique(pc, c, pc.len() as int);
                    assert(split_on(pc, c) == seq![pc]);
                    assert(parts@.map_values(|p: Vec<char>| p@) =~= old_parts.map_values(
                        |p: Vec<char>| p@,
                    ).push(pc));
                    assert(old_parts.map_values(|p: Vec<char>| p@) + seq![pc] =~= parts@.map_values(
                        |p: Vec<char>| p@,
                    ));
                }
            } else {
                proof {
                    assert(v@.subrange(pos as int, b as int).len() == 0);
                    assert(split_on(v@.subrange(pos as int, b as int), c) =~= Seq::<Seq<char>>::empty());
                }
            }
            proof {
                assert(parts@.map_values(|p: Vec<char>| p@) + Seq::<Seq<char>>::empty()
                    =~= parts@.map_values(|p: Vec<char>| p@));
            }
            break ;
        }
    }
    parts
}

} // verus!
