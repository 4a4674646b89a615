//! Decimal numerals: turning numbers into character sequences and back.
//! The renderer and the configuration document both speak decimal; the
//! parser and the printer here invert each other, which the configuration
//! round trip rests on.

use vstd::prelude::*;

verus! {

/// The digit character for a value below ten.
pub open spec fn digit_char(d: int) -> char {
    ((48 + d) as u8) as char
}

/// The decimal numeral of `n`, most significant digit first, no sign, no
/// leading zero (a single `0` for zero).
pub open spec fn dec_seq(n: nat) -> Seq<char>
    decreases n,
{
    if n < 10 {
        seq![digit_char(n as int)]
    } else {
        dec_seq(n / 10).push(digit_char((n % 10) as int))
    }
}

/// Whether `c` is a decimal digit.
pub open spec fn is_digit(c: char) -> bool {
    48 <= c as int <= 57
}

/// Whether every character of `s` is a decimal digit.
pub open spec fn all_digits(s: Seq<char>) -> bool {
    forall|i: int| 0 <= i < s.len() ==> is_digit(#[trigger] s[i])
}

/// The number a digit sequence denotes (most significant first).
pub open spec fn dec_val(s: Seq<char>) -> int
    decreases s.len(),
{
    if s.len() == 0 {
        0
    } else {
        dec_val(s.drop_last()) * 10 + (s.last() as int - 48)
    }
}

/// What parsing an unsigned decimal numeral yields: the denoted value, if
/// the text is one or more digits and the value fits in a `u64`.
pub open spec fn spec_parse_u64(s: Seq<char>) -> Option<u64> {
    if s.len() == 0 || !all_digits(s) || dec_val(s) > u64::MAX {
        None
    } else {
        Some(dec_val(s) as u64)
    }
}

/// The numeral of `n` denotes `n`, and is all digits.
pub proof fn lemma_dec_seq_val(n: nat)
    ensures
        all_digits(dec_seq(n)),
        dec_val(dec_seq(n)) == n,
        dec_seq(n).len() >= 1,
    decreases n,
{
    if n < 10 {
        let s = dec_seq(n);
        assert(s == seq![digit_char(n as int)]);
        assert(s.last() == digit_char(n as int));
        assert(s.last() as int == 48 + n);
        assert(s.drop_last() =~= Seq::<char>::empty());
        assert(dec_val(s.drop_last()) == 0);
        assert(dec_val(s) == n);
        assert(is_digit(s[0]));
    } else {
        lemma_dec_seq_val(n / 10);
        let hi = dec_seq(n / 10);
        let s = dec_seq(n);
        assert(s == hi.push(digit_char((n % 10) as int)));
        assert(s.drop_last() =~= hi);
        assert(s.last() == digit_char((n % 10) as int));
        assert(dec_val(s) == dec_val(hi) * 10 + (n % 10));
        assert(forall|i: int|
            0 <= i < s.len() ==> is_digit(#[trigger] s[i]) == if i < hi.len() {
                is_digit(hi[i])
            } else {
                is_digit(digit_char((n % 10) as int))
            });
    }
}

/// Parsing inverts printing: the numeral of `n` parses back to `n`.
pub proof fn lemma_parse_dec_seq(n: u64)
    ensures
        spec_parse_u64(dec_seq(n as nat)) == Some(n),
{
    lemma_dec_seq_val(n as nat);
}

/// A digit prefix never denotes more than the whole digit string.
proof fn lemma_dec_val_prefix(s: Seq<char>, i: int)
    requires
        all_digits(s),
        0 <= i <= s.len(),
    ensures
        dec_val(s.subrange(0, i)) <= dec_val(s),
        dec_val(s) >= 0,
    decreases s.len() - i,
{
    if i == s.len() {
        assert(s.subrange(0, i) =~= s);
        lemma_dec_val_nonneg(s);
    } else {
        lemma_dec_val_prefix(s, i + 1);
        let p = s.subrange(0, i);
        let q = s.subrange(0, i + 1);
        assert(q.drop_last() =~= p);
        assert(q.last() == s[i]);
        lemma_dec_val_nonneg(p);
        assert(dec_val(q) == dec_val(p) * 10 + (s[i] as int - 48));
    }
}

/// A digit string denotes a non-negative number.
proof fn lemma_dec_val_nonneg(s: Seq<char>)
    requires
        all_digits(s),
    ensures
        dec_val(s) >= 0,
    decreases s.len(),
{
    if s.len() > 0 {
        assert(all_digits(s.drop_last())) by {
            assert(forall|i: int|
                0 <= i < s.len() - 1 ==> is_digit(#[trigger] s.drop_last()[i]) == is_digit(s[i]));
        }
        lemma_dec_val_nonneg(s.drop_last());
    }
}

/// Prints `n` as its decimal numeral.
pub fn u64_to_chars(n: u64) -> (r: Vec<char>)
    ensures
        r@ == dec_seq(n as nat),
{
    let mut tmp: Vec<char> = Vec::new();
    let mut x: u64 = n;
    loop
        invariant_except_break
            dec_seq(n as nat) == dec_seq(x as nat) + tmp@.reverse(),
        ensures
            dec_seq(n as nat) == tmp@.reverse(),
        decreases x,
    {
        let d: u8 = (x % 10) as u8;
        let c: char = (48 + d) as char;
        let ghost old_tmp = tmp@;
        let ghost old_x = x;
        tmp.push(c);
        x = x / 10;
        proof {
            assert(c == digit_char((old_x % 10) as int));
            assert(tmp@.reverse() =~= seq![c] + old_tmp.reverse());
            if old_x >= 10 {
                assert(dec_seq(old_x as nat) == dec_seq((old_x / 10) as nat).push(c));
                assert(dec_seq((old_x / 10) as nat).push(c) + old_tmp.reverse() =~= dec_seq(
                    (old_x / 10) as nat,
                ) + (seq![c] + old_tmp.reverse()));
                assert(dec_seq(n as nat) == dec_seq(x as nat) + tmp@.reverse());
            } else {
                assert(dec_seq(old_x as nat) == seq![c]);
                assert(seq![c] + old_tmp.reverse() =~= tmp@.reverse());
                assert(dec_seq(n as nat) == tmp@.reverse());
            }
        }
        if x == 0 {
            break ;
        }
        proof {
            assert(old_x >= 10);
        }
    }
    let mut r: Vec<char> = Vec::new();
    let mut i: usize = tmp.len();
    while i > 0
        invariant
            i <= tmp@.len(),
            r@ =~= tmp@.subrange(i as int, tmp@.len() as int).reverse(),
        decreases i,
    {
        i = i - 1;
        r.push(tmp[i]);
        proof {
            assert(r@ =~= tmp@.subrange(i as int, tmp@.len() as int).reverse());
        }
    }
    proof {
        assert(tmp@.subrange(0, tmp@.len() as int) =~= tmp@);
    }
    r
}

/// Prints `n` onto the end of `out`.
pub fn push_u64(out: &mut String, n: u64)
    ensures
        final(out)@ == old(out)@ + dec_seq(n as nat),
{
    let chars = u64_to_chars(n);
    crate::strutil::push_chars(out, &chars);
}

/// Parses an unsigned decimal numeral from `s[from..to]`.
pub fn parse_u64_range(s: &Vec<char>, from: usize, to: usize) -> (r: Option<u64>)
    requires
        from <= to <= s@.len(),
    ensures
        r == spec_parse_u64(s@.subrange(from as int, to as int)),
{
    let ghost t = s@.subrange(from as int, to as int);
    if from == to {
        return None;
    }
    let mut acc: u64 = 0;
    let mut i: usize = from;
    while i < to
        invariant
            from <= i <= to <= s@.len(),
            t == s@.subrange(from as int, to as int),
            all_digits(t.subrange(0, i - from)),
            acc == dec_val(t.subrange(0, i - from)),
        decreases to - i,
    {
        let c = s[i];
        if c < '0' || c > '9' {
            proof {
                assert(t[i - from] == c);
                assert(!is_digit(c));
            }
            return None;
        }
        let d: u64 = ((c as u8) - 48) as u64;
        let ghost pre = t.subrange(0, i - from);
        let ghost cur = t.subrange(0, i + 1 - from);
        proof {
            assert(cur.drop_last() =~= pre);
            assert(cur.last() == c);
            assert(is_digit(c));
            assert forall|k: int| 0 <= k < cur.len() implies is_digit(#[trigger] cur[k]) by {
                if k < pre.len() {
                    assert(cur[k] == pre[k]);
                } else {
                    assert(cur[k] == c);
                }
            }
            assert(dec_val(cur) == dec_val(pre) * 10 + (c as int - 48));
        }
        if acc > (u64::MAX - d) / 10 {
            proof {
                assert(acc * 10 + d > u64::MAX) by (nonlinear_arith)
                    requires
                        acc > (u64::MAX - d) / 10,
                        d <= 9,
                ;
                assert(dec_val(cur) > u64::MAX);
                lemma_dec_val_exceeds(t, i + 1 - from);
            }
            return None;
        }
        acc = acc * 10 + d;
        i = i + 1;
    }
    proof {
        assert(t.subrange(0, to - from) =~= t);
    }
    Some(acc)
}

/// If a prefix of `s` already denotes more than `u64::MAX`, parsing the
/// whole string yields nothing.
proof fn lemma_dec_val_exceeds(s: Seq<char>, i: int)
    requires
        0 <= i <= s.len(),
        dec_val(s.subrange(0, i)) > u64::MAX,
    ensures
        spec_parse_u64(s) is None,
{
    if all_digits(s) {
        lemma_dec_val_prefix(s, i);
    }
}

/// Two-digit zero-padded numeral for values below one hundred.
pub open spec fn two_digit_seq(d: nat) -> Seq<char> {
    seq![digit_char((d / 10) as int), digit_char((d % 10) as int)]
}

/// Prints `d` (below one hundred) zero-padded to two digits onto `out`.
pub fn push_two_digits(out: &mut String, d: u64)
    requires
        d < 100,
    ensures
        final(out)@ == old(out)@ + two_digit_seq(d as nat),
{
    let hi: u8 = (d / 10) as u8;
    let lo: u8 = (d % 10) as u8;
    crate::strutil::push_char(out, (48 + hi) as char);
    crate::strutil::push_char(out, (48 + lo) as char);
    proof {
        assert(old(out)@.push(digit_char((d / 10) as int)).push(digit_char((d % 10) as int))
            =~= old(out)@ + two_digit_seq(d as nat));
    }
}

} // verus!
