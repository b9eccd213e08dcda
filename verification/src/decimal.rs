//! Numbers written as text: the syntax that `f32::from_str` accepts.

use vstd::prelude::*;
use vstd::string::*;
use crate::text::{eq_ascii_case, eq_ignore_ascii_case, string_of};

verus! {

/// A digit character `0`-`9`.
pub open spec fn is_digit(c: char) -> bool {
    48 <= (c as u32) && (c as u32) <= 57
}

/// Reads `digits [ '.' digits ]` from left to right: the digits read so far
/// as one integer, how many of them follow the point, whether the point was
/// seen and how many digits there were. `None` once a character does not fit.
pub open spec fn scan(b: Seq<char>) -> Option<(nat, nat, bool, nat)>
    decreases b.len(),
{
    if b.len() == 0 {
        Some((0nat, 0nat, false, 0nat))
    } else {
        match scan(b.drop_last()) {
            None => None,
            Some((m, k, dot, nd)) => {
                let c = b.last();
                if is_digit(c) {
                    Some((m * 10 + ((c as u32) - 48) as nat, if dot { k + 1 } else { k }, dot, nd + 1))
                } else if c == '.' && !dot {
                    Some((m, k, true, nd))
                } else {
                    None
                }
            },
        }
    }
}

/// The text after an optional leading sign.
pub open spec fn unsigned_part(s: Seq<char>) -> Seq<char> {
    if s.len() > 0 && (s[0] == '+' || s[0] == '-') { s.skip(1) } else { s }
}

fn is_digit_char(c: char) -> (r: bool)
    ensures
        r == is_digit(c),
{
    let v = c as u32;
    48 <= v && v <= 57
}

/// Once the scan has failed on a prefix it fails on the whole text.
proof fn lemma_scan_fails_on(b: Seq<char>, i: int)
    requires
        0 <= i <= b.len(),
        scan(b.take(i)) is None,
    ensures
        scan(b) is None,
    decreases b.len() - i,
{
    if i < b.len() {
        assert(b.take(i + 1).drop_last() =~= b.take(i));
        lemma_scan_fails_on(b, i + 1);
    } else {
        assert(b.take(i) =~= b);
    }
}

/// `e` or `E`, the mark of an exponent.
pub open spec fn is_exp_mark(c: char) -> bool {
    c == 'e' || c == 'E'
}

/// Index of the first exponent mark of `u`, its length when there is none.
pub open spec fn exp_mark(u: Seq<char>) -> nat
    decreases u.len(),
{
    if u.len() == 0 || is_exp_mark(u[0]) { 0 } else { 1 + exp_mark(u.skip(1)) }
}

/// Digits with at most one point among them, at least one digit.
pub open spec fn mantissa_ok(m: Seq<char>) -> bool {
    scan(m) matches Some((_, _, _, nd)) && nd > 0
}

/// An optional sign, then one or more digits.
pub open spec fn exponent_ok(x: Seq<char>) -> bool {
    let d = unsigned_part(x);
    d.len() > 0 && forall|i: int| 0 <= i < d.len() ==> is_digit(#[trigger] d[i])
}

/// A mantissa, then optionally an exponent mark and an exponent.
pub open spec fn number_syntax(u: Seq<char>) -> bool {
    let p = exp_mark(u) as int;
    mantissa_ok(u.take(p)) && (p == u.len() || exponent_ok(u.skip(p + 1)))
}

/// Text that `f32::from_str` accepts: an optional sign, then `inf`,
/// `infinity` or `nan` in any letter case, or a number with an optional
/// exponent (`1`, `-2.5`, `.5`, `3.`, `1e-3`, `+4E2`).
pub open spec fn float_syntax(s: Seq<char>) -> bool {
    let u = unsigned_part(s);
    eq_ascii_case(u, "inf"@) || eq_ascii_case(u, "infinity"@) || eq_ascii_case(u, "nan"@) || number_syntax(u)
}

proof fn lemma_exp_mark_at(u: Seq<char>, p: int)
    requires
        0 <= p <= u.len(),
        forall|j: int| 0 <= j < p ==> !is_exp_mark(#[trigger] u[j]),
        p == u.len() || is_exp_mark(u[p]),
    ensures
        exp_mark(u) == p,
    decreases p,
{
    if p > 0 {
        assert(!is_exp_mark(u[0]));
        assert forall|j: int| 0 <= j < p - 1 implies !is_exp_mark(#[trigger] u.skip(1)[j]) by {
            assert(u.skip(1)[j] == u[j + 1]);
        }
        lemma_exp_mark_at(u.skip(1), p - 1);
    }
}

fn mantissa_check(u: &Vec<char>, p: usize) -> (r: bool)
    requires
        p <= u@.len(),
    ensures
        r == mantissa_ok(u@.take(p as int)),
{
    let ghost m = u@.take(p as int);
    let mut dot = false;
    let mut nd: usize = 0;
    let mut i: usize = 0;
    assert(m.take(0) =~= Seq::<char>::empty());
    while i < p
        invariant
            p <= u@.len(),
            m == u@.take(p as int),
            i <= p,
            nd <= i,
            scan(m.take(i as int)) matches Some((_, _, d, c)) && d == dot && c == nd,
        decreases p - i,
    {
        let c = u[i];
        assert(m.take(i + 1).drop_last() =~= m.take(i as int));
        assert(m.take(i + 1).last() == c);
        if is_digit_char(c) {
            nd = nd + 1;
        } else if c == '.' && !dot {
            dot = true;
        } else {
            proof {
                lemma_scan_fails_on(m, i as int + 1);
            }
            return false;
        }
        i += 1;
    }
    assert(m.take(p as int) =~= m);
    nd > 0
}

fn exponent_check(u: &Vec<char>, from: usize) -> (r: bool)
    requires
        from <= u@.len(),
    ensures
        r == exponent_ok(u@.skip(from as int)),
{
    let un = u.len();
    let ghost x = u@.skip(from as int);
    let e: usize = if from < un && (u[from] == '+' || u[from] == '-') { from + 1 } else { from };
    assert(unsigned_part(x) =~= u@.skip(e as int));
    if e == un {
        return false;
    }
    let mut j = e;
    while j < un
        invariant
            from <= e <= j <= un,
            un == u@.len(),
            unsigned_part(u@.skip(from as int)) == u@.skip(e as int),
            forall|q: int| e <= q < j ==> is_digit(#[trigger] u@[q]),
        decreases un - j,
    {
        if !is_digit_char(u[j]) {
            assert(u@.skip(e as int)[j - e] == u@[j as int]);
            assert(!is_digit(unsigned_part(u@.skip(from as int))[j - e]));
            return false;
        }
        j += 1;
    }
    assert forall|q: int| 0 <= q < u@.skip(e as int).len() implies is_digit(#[trigger] u@.skip(e as int)[q]) by {
        assert(u@.skip(e as int)[q] == u@[q + e]);
    }
    true
}

fn first_exp_mark(u: &Vec<char>) -> (p: usize)
    ensures
        p == exp_mark(u@),
        p <= u@.len(),
{
    let un = u.len();
    let mut p: usize = 0;
    while p < un && !(u[p] == 'e' || u[p] == 'E')
        invariant
            p <= un,
            un == u@.len(),
            forall|j: int| 0 <= j < p ==> !is_exp_mark(#[trigger] u@[j]),
        decreases un - p,
    {
        p += 1;
    }
    proof {
        lemma_exp_mark_at(u@, p as int);
    }
    p
}

/// Whether `s` is a float as `f32::from_str` reads one.
pub fn is_float_text(s: &Vec<char>) -> (r: bool)
    ensures
        r == float_syntax(s@),
{
    proof {
        reveal_strlit("inf");
        reveal_strlit("infinity");
        reveal_strlit("nan");
    }
    let n = s.len();
    let start: usize = if n > 0 && (s[0] == '+' || s[0] == '-') { 1 } else { 0 };
    let mut u: Vec<char> = Vec::new();
    let mut k = start;
    while k < n
        invariant
            start <= k <= n,
            n == s@.len(),
            u@ == s@.subrange(start as int, k as int),
        decreases n - k,
    {
        u.push(s[k]);
        k += 1;
        assert(u@ =~= s@.subrange(start as int, k as int));
    }
    assert(u@ =~= unsigned_part(s@));
    let text = string_of(&u);
    if eq_ignore_ascii_case(text.as_str(), "inf") || eq_ignore_ascii_case(text.as_str(), "infinity")
        || eq_ignore_ascii_case(text.as_str(), "nan") {
        return true;
    }
    let p = first_exp_mark(&u);
    if !mantissa_check(&u, p) {
        return false;
    }
    if p == u.len() {
        return true;
    }
    exponent_check(&u, p + 1)
}

} // verus!
