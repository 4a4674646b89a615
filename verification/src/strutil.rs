//! Character-level string helpers shared by the configuration codec and the
//! providers. Work happens on `Vec<char>` (constant-time indexing); one
//! trusted wrapper around `String::push` turns characters back into a
//! `String`.

use vstd::prelude::*;

verus! {

/// Relies on std's String::push: appends exactly the given character.
#[verifier::external_body]
pub fn push_char(s: &mut String, c: char)
    ensures
        final(s)@ == old(s)@.push(c),
{
    s.push(c);
}

/// Copies the characters of `s` into a vector.
pub fn str_to_chars(s: &str) -> (r: Vec<char>)
    ensures
        r@ == s@,
{
    let n = s.unicode_len();
    let mut r: Vec<char> = Vec::new();
    let mut i: usize = 0;
    while i < n
        invariant
            i <= n,
            n == s@.len(),
            r@ == s@.subrange(0, i as int),
        decreases n - i,
    {
        r.push(s.get_char(i));
        proof {
            assert(r@ =~= s@.subrange(0, i + 1));
        }
        i = i + 1;
    }
    proof {
        assert(r@ =~= s@);
    }
    r
}

/// Builds a `String` out of a character vector.
pub fn chars_to_string(v: &Vec<char>) -> (r: String)
    ensures
        r@ == v@,
{
    let mut r = String::new();
    let mut i: usize = 0;
    while i < v.len()
        invariant
            i <= v@.len(),
            r@ == v@.subrange(0, i as int),
        decreases v@.len() - i,
    {
        push_char(&mut r, v[i]);
        proof {
            assert(r@ =~= v@.subrange(0, i + 1));
        }
        i = i + 1;
    }
    proof {
        assert(r@ =~= v@);
    }
    r
}

/// Appends every character of `v` to `s`.
pub fn push_chars(s: &mut String, v: &Vec<char>)
    ensures
        final(s)@ == old(s)@ + v@,
{
    let mut i: usize = 0;
    while i < v.len()
        invariant
            i <= v@.len(),
            s@ == old(s)@ + v@.subrange(0, i as int),
        decreases v@.len() - i,
    {
        push_char(s, v[i]);
        proof {
            assert(old(s)@ + v@.subrange(0, i as int) + seq![v@[i as int]] =~= old(s)@
                + v@.subrange(0, i + 1));
        }
        i = i + 1;
    }
    proof {
        assert(old(s)@ + v@.subrange(0, v@.len() as int) =~= old(s)@ + v@);
    }
}

/// Character equality of two string slices.
pub fn str_eq(a: &str, b: &str) -> (r: bool)
    ensures
        r == (a@ == b@),
{
    let na = a.unicode_len();
    let nb = b.unicode_len();
    if na != nb {
        return false;
    }
    let mut i: usize = 0;
    while i < na
        invariant
            i <= na,
            na == a@.len(),
            na == b@.len(),
            a@.subrange(0, i as int) == b@.subrange(0, i as int),
        decreases na - i,
    {
        if a.get_char(i) != b.get_char(i) {
            return false;
        }
        proof {
            assert(a@.subrange(0, i + 1) =~= b@.subrange(0, i + 1));
        }
        i = i + 1;
    }
    proof {
        assert(a@ =~= a@.subrange(0, na as int));
        assert(b@ =~= b@.subrange(0, na as int));
    }
    true
}

/// ASCII lower-casing of one character; anything but `A`-`Z` is untouched.
pub open spec fn lower_char(c: char) -> char {
    if 'A' <= c && c <= 'Z' {
        ((c as u8) + 32) as char
    } else {
        c
    }
}

/// ASCII lower-casing of a character sequence.
pub open spec fn lower_seq(s: Seq<char>) -> Seq<char> {
    s.map_values(|c: char| lower_char(c))
}

fn lower_char_exec(c: char) -> (r: char)
    ensures
        r == lower_char(c),
{
    if 'A' <= c && c <= 'Z' {
        ((c as u8) + 32) as char
    } else {
        c
    }
}

/// ASCII lower-casing of a string slice.
pub fn to_lower(s: &str) -> (r: Vec<char>)
    ensures
        r@ == lower_seq(s@),
{
    let n = s.unicode_len();
    let mut r: Vec<char> = Vec::new();
    let mut i: usize = 0;
    while i < n
        invariant
            i <= n,
            n == s@.len(),
            r@ == lower_seq(s@.subrange(0, i as int)),
        decreases n - i,
    {
        r.push(lower_char_exec(s.get_char(i)));
        proof {
            assert(r@ =~= lower_seq(s@.subrange(0, i + 1)));
        }
        i = i + 1;
    }
    proof {
        assert(s@.subrange(0, n as int) =~= s@);
    }
    r
}

/// Character equality between a character vector and a string slice.
pub fn chars_eq_str(v: &Vec<char>, s: &str) -> (r: bool)
    ensures
        r == (v@ == s@),
{
    let n = s.unicode_len();
    if v.len() != n {
        return false;
    }
    let mut i: usize = 0;
    while i < n
        invariant
            i <= n,
            n == s@.len(),
            n == v@.len(),
            v@.subrange(0, i as int) == s@.subrange(0, i as int),
        decreases n - i,
    {
        if v[i] != s.get_char(i) {
            return false;
        }
        proof {
            assert(v@.subrange(0, i + 1) =~= s@.subrange(0, i + 1));
        }
        i = i + 1;
    }
    proof {
        assert(v@ =~= v@.subrange(0, n as int));
        assert(s@ =~= s@.subrange(0, n as int));
    }
    true
}

/// ASCII-case-insensitive equality between a string slice and a (lower-case)
/// pattern.
pub fn eq_lower(s: &str, pat: &str) -> (r: bool)
    ensures
        r == (lower_seq(s@) == pat@),
{
    let low = to_lower(s);
    chars_eq_str(&low, pat)
}

/// Whether `sub` occurs contiguously inside `s`.
pub open spec fn has_sub(s: Seq<char>, sub: Seq<char>) -> bool {
    exists|i: int| 0 <= i <= s.len() - sub.len() && #[trigger] s.subrange(i, i + sub.len()) == sub
}

/// Substring search over a character vector.
pub fn chars_contain(v: &Vec<char>, needle: &str) -> (r: bool)
    ensures
        r == has_sub(v@, needle@),
{
    let m = needle.unicode_len();
    let n = v.len();
    if m == 0 {
        proof {
            assert(v@.subrange(0, 0 + needle@.len() as int) =~= needle@);
            assert(has_sub(v@, needle@));
        }
        return true;
    }
    if m > n {
        proof {
            assert(!has_sub(v@, needle@));
        }
        return false;
    }
    let mut i: usize = 0;
    while i <= n - m
        invariant
            1 <= m <= n,
            n == v@.len(),
            m == needle@.len(),
            i <= n - m + 1,
            forall|k: int|
                0 <= k < i ==> #[trigger] v@.subrange(k, k + needle@.len()) != needle@,
        decreases n - i,
    {
        if crate::textparse::range_eq_str(v, i, i + m, needle) {
            proof {
                assert(has_sub(v@, needle@));
            }
            return true;
        }
        i = i + 1;
    }
    proof {
        if has_sub(v@, needle@) {
            let k = choose|k: int|
                0 <= k <= v@.len() - needle@.len() && #[trigger] v@.subrange(k, k + needle@.len())
                    == needle@;
            assert(v@.subrange(k, k + needle@.len()) != needle@);
        }
    }
    false
}

/// Substring search over a string slice.
pub fn str_contains(hay: &str, needle: &str) -> (r: bool)
    ensures
        r == has_sub(hay@, needle@),
{
    let v = str_to_chars(hay);
    chars_contain(&v, needle)
}

/// Elements joined with a separator between them.
pub open spec fn join_with(es: Seq<Seq<char>>, sep: Seq<char>) -> Seq<char>
    decreases es.len(),
{
    if es.len() == 0 {
        Seq::empty()
    } else if es.len() == 1 {
        es.first()
    } else {
        es.first() + sep + join_with(es.drop_first(), sep)
    }
}

/// Appending one element extends the joined text at the back.
pub proof fn lemma_join_with_push(es: Seq<Seq<char>>, x: Seq<char>, sep: Seq<char>)
    ensures
        es.len() == 0 ==> join_with(es.push(x), sep) == x,
        es.len() > 0 ==> join_with(es.push(x), sep) == join_with(es, sep) + sep + x,
    decreases es.len(),
{
    if es.len() == 0 {
        assert(es.push(x).first() == x);
    } else if es.len() == 1 {
        assert(es.push(x).first() == es.first());
        assert(es.push(x).drop_first() =~= seq![x]);
        assert(join_with(seq![x], sep) == x);
    } else {
        assert(es.push(x).first() == es.first());
        assert(es.push(x).drop_first() =~= es.drop_first().push(x));
        lemma_join_with_push(es.drop_first(), x, sep);
        assert(join_with(es.push(x), sep) == es.first() + sep + join_with(
            es.drop_first().push(x),
            sep,
        ));
        assert(es.first() + sep + (join_with(es.drop_first(), sep) + sep + x) =~= (es.first() + sep
            + join_with(es.drop_first(), sep)) + sep + x);
    }
}

/// Joins the strings with `sep`; an empty list gives `empty` instead.
pub fn join_strings(items: &Vec<String>, sep: &str, empty: &str) -> (r: String)
    ensures
        items@.len() == 0 ==> r@ == empty@,
        items@.len() > 0 ==> r@ == join_with(items@.map_values(|s: String| s@), sep@),
{
    let ghost views = items@.map_values(|s: String| s@);
    if items.len() == 0 {
        return empty.to_owned();
    }
    let mut out = String::new();
    let mut i: usize = 0;
    while i < items.len()
        invariant
            i <= items@.len(),
            views == items@.map_values(|s: String| s@),
            i > 0 ==> out@ == join_with(views.take(i as int), sep@),
            i == 0 ==> out@.len() == 0,
        decreases items@.len() - i,
    {
        proof {
            assert(views[i as int] == items@[i as int]@);
            assert(views.take(i + 1) =~= views.take(i as int).push(views[i as int]));
            lemma_join_with_push(views.take(i as int), views[i as int], sep@);
        }
        if i > 0 {
            out.append(sep);
        }
        out.append(items[i].as_str());
        i = i + 1;
    }
    proof {
        assert(views.take(items@.len() as int) =~= views);
    }
    out
}

} // verus!
