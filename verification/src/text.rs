//! Small string and character helpers shared by the other modules.

use vstd::prelude::*;

verus! {

/// ASCII case folding of one character, as a code point: `A..=Z` map to
/// `a..=z`, every other character is unchanged.
pub open spec fn fold_ascii(c: char) -> u32 {
    let v = c as u32;
    if 65 <= v && v <= 90 { (v + 32) as u32 } else { v }
}

/// Two character sequences are equal up to ASCII case.
pub open spec fn eq_ascii_case(a: Seq<char>, b: Seq<char>) -> bool {
    &&& a.len() == b.len()
    &&& forall|i: int| 0 <= i < a.len() ==> fold_ascii(#[trigger] a[i]) == fold_ascii(b[i])
}

/// The characters of an optional text.
pub open spec fn text_of(o: Option<String>) -> Option<Seq<char>> {
    match o {
        Some(s) => Some(s@),
        None => None,
    }
}

/// Appends one character to a `String` (std's `String::push`).
#[verifier::external_body]
pub(crate) fn push_char(s: &mut String, c: char)
    ensures
        final(s)@ == old(s)@.push(c),
{
    s.push(c);
}

/// The characters of `s`, in order.
pub fn chars_of(s: &str) -> (r: Vec<char>)
    ensures
        r@ == s@,
{
    let mut out: Vec<char> = Vec::new();
    for c in it: s.chars()
        invariant
            out@ == it.seq().take(it.index() as int),
            it.seq() == s@,
    {
        out.push(c);
    }
    out
}

fn fold_char(c: char) -> (r: u32)
    ensures
        r == fold_ascii(c),
{
    let v = c as u32;
    if 65 <= v && v <= 90 {
        v + 32
    } else {
        v
    }
}

/// `str::eq_ignore_ascii_case`: equal lengths and equal characters once
/// ASCII letters are folded to lower case.
pub fn eq_ignore_ascii_case(a: &str, b: &str) -> (r: bool)
    ensures
        r == eq_ascii_case(a@, b@),
{
    let ac = chars_of(a);
    let bc = chars_of(b);
    if ac.len() != bc.len() {
        return false;
    }
    let mut i: usize = 0;
    while i < ac.len()
        invariant
            ac@ == a@,
            bc@ == b@,
            ac.len() == bc.len(),
            i <= ac.len(),
            forall|j: int| 0 <= j < i ==> fold_ascii(#[trigger] a@[j]) == fold_ascii(b@[j]),
        decreases ac.len() - i,
    {
        if fold_char(ac[i]) != fold_char(bc[i]) {
            return false;
        }
        i += 1;
    }
    true
}


/// `a == b` on strings.
pub fn str_eq(a: &str, b: &str) -> (r: bool)
    ensures
        r == (a@ == b@),
{
    let ac = chars_of(a);
    let bc = chars_of(b);
    if ac.len() != bc.len() {
        return false;
    }
    let mut i: usize = 0;
    while i < ac.len()
        invariant
            ac@ == a@,
            bc@ == b@,
            ac.len() == bc.len(),
            i <= ac.len(),
            forall|j: int| 0 <= j < i ==> a@[j] == b@[j],
        decreases ac.len() - i,
    {
        if ac[i] != bc[i] {
            return false;
        }
        i += 1;
    }
    assert(a@ =~= b@);
    true
}

/// The character of a decimal digit.
pub open spec fn digit_char(d: nat) -> char {
    ((48 + d) as u8) as char
}

/// The decimal numeral of `n`, without leading zeros.
pub open spec fn decimal_chars(n: nat) -> Seq<char>
    decreases n,
{
    if n < 10 { seq![digit_char(n)] } else { decimal_chars(n / 10).push(digit_char(n % 10)) }
}

/// A `String` of the given characters.
pub fn string_of(cs: &Vec<char>) -> (r: String)
    ensures
        r@ == cs@,
{
    let mut out = String::new();
    let mut i: usize = 0;
    while i < cs.len()
        invariant
            i <= cs@.len(),
            out@ == cs@.take(i as int),
        decreases cs@.len() - i,
    {
        push_char(&mut out, cs[i]);
        i += 1;
        assert(out@ =~= cs@.take(i as int));
    }
    assert(cs@.take(cs@.len() as int) =~= cs@);
    out
}

/// The decimal numeral of `n`, as `n.to_string()` writes it.
pub fn decimal_text(n: u64) -> (r: String)
    ensures
        r@ == decimal_chars(n as nat),
{
    let mut cs: Vec<char> = Vec::new();
    let mut rest = n;
    loop
        invariant_except_break
            decimal_chars(n as nat) == decimal_chars(rest as nat) + cs@,
        ensures
            cs@ == decimal_chars(n as nat),
        decreases rest,
    {
        let d = (rest % 10) as u8;
        let c = (48u8 + d) as char;
        let ghost old_cs = cs@;
        cs.insert(0, c);
        if rest < 10 {
            assert(decimal_chars(rest as nat) == seq![c]);
            assert(cs@ =~= seq![c] + old_cs);
            assert(cs@ =~= decimal_chars(n as nat));
            break;
        }
        assert(decimal_chars(rest as nat) == decimal_chars((rest / 10) as nat).push(c));
        assert(decimal_chars(rest as nat) + old_cs =~= decimal_chars((rest / 10) as nat) + cs@);
        rest = rest / 10;
    }
    string_of(&cs)
}


/// The upper-case hex digit of `d < 16`.
pub open spec fn upper_hex_digit(d: nat) -> char {
    if d < 10 { ((48 + d) as u8) as char } else { ((55 + d) as u8) as char }
}

/// The upper-case hex numeral of `n`, without leading zeros (`{:X}`).
pub open spec fn hex_numeral(n: nat) -> Seq<char>
    decreases n,
{
    if n < 16 { seq![upper_hex_digit(n)] } else { hex_numeral(n / 16).push(upper_hex_digit(n % 16)) }
}

/// The upper-case hex numeral of `n`, as `format!("{n:X}")` writes it.
pub fn hex_upper_text(n: u64) -> (r: String)
    ensures
        r@ == hex_numeral(n as nat),
{
    let mut cs: Vec<char> = Vec::new();
    let mut rest = n;
    loop
        invariant_except_break
            hex_numeral(n as nat) == hex_numeral(rest as nat) + cs@,
        ensures
            cs@ == hex_numeral(n as nat),
        decreases rest,
    {
        let d = (rest % 16) as u8;
        let c = if d < 10 { (48u8 + d) as char } else { (55u8 + d) as char };
        assert(c == upper_hex_digit(d as nat));
        let ghost old_cs = cs@;
        cs.insert(0, c);
        if rest < 16 {
            assert(hex_numeral(rest as nat) == seq![c]);
            assert(cs@ =~= seq![c] + old_cs);
            assert(cs@ =~= hex_numeral(n as nat));
            break;
        }
        assert(hex_numeral(rest as nat) == hex_numeral((rest / 16) as nat).push(c));
        assert(hex_numeral(rest as nat) + old_cs =~= hex_numeral((rest / 16) as nat) + cs@);
        rest = rest / 16;
    }
    string_of(&cs)
}

/// A white-space character (`char::is_whitespace`: Unicode `White_Space`).
pub open spec fn is_space(c: char) -> bool {
    let v = c as u32;
    (9 <= v && v <= 13) || v == 32 || v == 0x85 || v == 0xa0 || v == 0x1680 || (0x2000 <= v && v <= 0x200a)
        || v == 0x2028 || v == 0x2029 || v == 0x202f || v == 0x205f || v == 0x3000
}

/// `s` without its leading white space.
pub open spec fn trim_start(s: Seq<char>) -> Seq<char>
    decreases s.len(),
{
    if s.len() > 0 && is_space(s[0]) { trim_start(s.skip(1)) } else { s }
}

/// `s` without its trailing white space.
pub open spec fn trim_end(s: Seq<char>) -> Seq<char>
    decreases s.len(),
{
    if s.len() > 0 && is_space(s.last()) { trim_end(s.drop_last()) } else { s }
}

/// `s` without leading and trailing white space (`str::trim`).
pub open spec fn trim(s: Seq<char>) -> Seq<char> {
    trim_end(trim_start(s))
}

fn is_space_char(c: char) -> (r: bool)
    ensures
        r == is_space(c),
{
    let v = c as u32;
    (9 <= v && v <= 13) || v == 32 || v == 0x85 || v == 0xa0 || v == 0x1680 || (0x2000 <= v && v <= 0x200a)
        || v == 0x2028 || v == 0x2029 || v == 0x202f || v == 0x205f || v == 0x3000
}

/// `s` without its trailing white space (`str::trim_end`).
pub fn trim_end_text(s: &str) -> (r: String)
    ensures
        r@ == trim_end(s@),
{
    let cs = chars_of(s);
    let mut b: usize = cs.len();
    assert(s@.take(b as int) =~= s@);
    while b > 0 && is_space_char(cs[b - 1])
        invariant
            cs@ == s@,
            b <= s@.len(),
            trim_end(s@) == trim_end(s@.take(b as int)),
        decreases b,
    {
        assert(s@.take(b as int).drop_last() =~= s@.take(b - 1));
        b -= 1;
    }
    let mut out: Vec<char> = Vec::new();
    let mut k: usize = 0;
    while k < b
        invariant
            cs@ == s@,
            k <= b <= s@.len(),
            out@ == s@.take(k as int),
        decreases b - k,
    {
        out.push(cs[k]);
        k += 1;
        assert(out@ =~= s@.take(k as int));
    }
    string_of(&out)
}

/// The characters of `s` without leading and trailing white space.
pub fn trimmed_chars(s: &str) -> (r: Vec<char>)
    ensures
        r@ == trim(s@),
{
    let cs = chars_of(s);
    let n = cs.len();
    let mut a: usize = 0;
    assert(s@.skip(0) =~= s@);
    while a < n && is_space_char(cs[a])
        invariant
            cs@ == s@,
            n == s@.len(),
            a <= n,
            trim_start(s@) == trim_start(s@.skip(a as int)),
        decreases n - a,
    {
        assert(s@.skip(a as int).skip(1) =~= s@.skip(a + 1));
        a += 1;
    }
    let ghost t = s@.skip(a as int);
    assert(trim_start(t) == t);
    let mut b: usize = n;
    assert(t.take((b - a) as int) =~= t);
    while b > a && is_space_char(cs[b - 1])
        invariant
            cs@ == s@,
            n == s@.len(),
            a <= b <= n,
            t == s@.skip(a as int),
            trim_end(t) == trim_end(t.take((b - a) as int)),
        decreases b - a,
    {
        assert(t.take((b - a) as int).drop_last() =~= t.take((b - 1 - a) as int));
        assert(t.take((b - a) as int).last() == cs@[b - 1]);
        b -= 1;
    }
    assert(trim_end(t.take((b - a) as int)) == t.take((b - a) as int));
    let mut out: Vec<char> = Vec::new();
    let mut k = a;
    while k < b
        invariant
            cs@ == s@,
            a <= k <= b,
            b <= n,
            n == s@.len(),
            out@ == s@.subrange(a as int, k as int),
        decreases b - k,
    {
        out.push(cs[k]);
        k += 1;
        assert(out@ =~= s@.subrange(a as int, k as int));
    }
    assert(out@ =~= t.take((b - a) as int));
    out
}

/// The value of a digit character in base `radix` (up to 36).
pub open spec fn digit_value(c: char, radix: nat) -> Option<nat> {
    let v = c as u32;
    let d: int = if 48 <= v && v <= 57 {
        v - 48
    } else if 97 <= v && v <= 122 {
        v - 87
    } else if 65 <= v && v <= 90 {
        v - 55
    } else {
        99
    };
    if d < radix { Some(d as nat) } else { None }
}

/// The value of a string of digits in base `radix`; None if a character is
/// not such a digit.
pub open spec fn digits_value(ds: Seq<char>, radix: nat) -> Option<nat>
    decreases ds.len(),
{
    if ds.len() == 0 {
        Some(0)
    } else {
        match (digits_value(ds.drop_last(), radix), digit_value(ds.last(), radix)) {
            (Some(v), Some(d)) => Some(v * radix + d),
            _ => None,
        }
    }
}

/// An unsigned integer as `from_str_radix` reads it: an optional `+`, then
/// one or more digits of the radix, with a value of at most `max`.
pub open spec fn unsigned_value(s: Seq<char>, radix: nat, max: nat) -> Option<nat> {
    let ds = if s.len() > 0 && s[0] == '+' { s.skip(1) } else { s };
    if ds.len() == 0 {
        None
    } else {
        match digits_value(ds, radix) {
            Some(v) => if v <= max { Some(v) } else { None },
            None => None,
        }
    }
}

fn digit_value_of(c: char, radix: u32) -> (r: Option<u32>)
    requires
        radix <= 36,
    ensures
        r == (match digit_value(c, radix as nat) { Some(d) => Some(d as u32), None => None::<u32> }),
{
    let v = c as u32;
    let d: u32 = if 48 <= v && v <= 57 {
        v - 48
    } else if 97 <= v && v <= 122 {
        v - 87
    } else if 65 <= v && v <= 90 {
        v - 55
    } else {
        99
    };
    if d < radix { Some(d) } else { None }
}

proof fn lemma_digits_value_grows(ds: Seq<char>, radix: nat, i: int)
    requires
        0 <= i <= ds.len(),
        radix >= 1,
        digits_value(ds, radix) is Some,
    ensures
        digits_value(ds.take(i), radix) is Some,
        digits_value(ds.take(i), radix)->Some_0 <= digits_value(ds, radix)->Some_0,
    decreases ds.len() - i,
{
    if i < ds.len() {
        lemma_digits_value_grows(ds, radix, i + 1);
        assert(ds.take(i + 1).drop_last() =~= ds.take(i));
        let v = digits_value(ds.take(i), radix)->Some_0;
        let d = digit_value(ds.take(i + 1).last(), radix)->Some_0;
        assert(v <= v * radix + d) by (nonlinear_arith)
            requires radix >= 1;
    } else {
        assert(ds.take(i) =~= ds);
    }
}

/// Reads an unsigned integer of at most `max` in base `radix` from `s`
/// (as `from_str_radix`).
pub fn parse_unsigned(s: &Vec<char>, radix: u32, max: u64) -> (r: Option<u64>)
    requires
        2 <= radix <= 36,
    ensures
        r == (match unsigned_value(s@, radix as nat, max as nat) { Some(v) => Some(v as u64), None => None::<u64> }),
{
    let n = s.len();
    let start: usize = if n > 0 && s[0] == '+' { 1 } else { 0 };
    let ghost ds = if s@.len() > 0 && s@[0] == '+' { s@.skip(1) } else { s@ };
    assert(ds =~= s@.skip(start as int));
    if start == n {
        return None;
    }
    let mut acc: u64 = 0;
    let mut i: usize = start;
    assert(ds.take(0) =~= Seq::<char>::empty());
    while i < n
        invariant
            start <= i <= n,
            n == s@.len(),
            2 <= radix <= 36,
            ds == s@.skip(start as int),
            ds == (if s@.len() > 0 && s@[0] == '+' { s@.skip(1) } else { s@ }),
            ds.len() > 0,
            acc <= max,
            digits_value(ds.take(i - start), radix as nat) == Some(acc as nat),
        decreases n - i,
    {
        let c = s[i];
        assert(ds.take(i + 1 - start).drop_last() =~= ds.take(i - start));
        assert(ds.take(i + 1 - start).last() == c);
        let d = match digit_value_of(c, radix) {
            Some(d) => d,
            None => {
                proof {
                    assert(digits_value(ds.take(i + 1 - start), radix as nat) is None);
                    if digits_value(ds, radix as nat) is Some {
                        lemma_digits_value_grows(ds, radix as nat, i + 1 - start);
                    }
                    assert(unsigned_value(s@, radix as nat, max as nat) is None);
                }
                return None;
            },
        };
        if (d as u64) > max || acc > (max - d as u64) / (radix as u64) {
            proof {
                let next = acc * radix + d;
                if d > max {
                    assert(next > max) by (nonlinear_arith)
                        requires next == acc * radix + d, d > max, acc >= 0, radix >= 2;
                } else {
                    let q = (max - d) / (radix as int);
                    let rm = (max - d) % (radix as int);
                    assert(max - d == q * radix + rm && 0 <= rm < radix) by (nonlinear_arith)
                        requires q == (max - d) / (radix as int), rm == (max - d) % (radix as int), radix >= 2, max >= d;
                    assert(next > max) by (nonlinear_arith)
                        requires next == acc * radix + d, acc > q, max - d == q * radix + rm, 0 <= rm < radix, radix >= 2;
                }
                assert(digits_value(ds.take(i + 1 - start), radix as nat) == Some(next as nat));
                if digits_value(ds, radix as nat) is Some {
                    lemma_digits_value_grows(ds, radix as nat, i + 1 - start);
                }
                assert(unsigned_value(s@, radix as nat, max as nat) is None);
            }
            return None;
        }
        proof {
            assert(acc * radix + d <= max) by (nonlinear_arith)
                requires acc <= (max - d) / (radix as int), d <= max, radix >= 2;
        }
        acc = acc * (radix as u64) + d as u64;
        i += 1;
    }
    assert(ds.take(n - start) =~= ds);
    Some(acc)
}


/// `a` sorts before `b`: lexicographic order by code point, a proper
/// prefix first (the order of `str`, whose byte order UTF-8 keeps).
pub open spec fn chars_lt(a: Seq<char>, b: Seq<char>) -> bool
    decreases a.len(),
{
    if a.len() == 0 {
        b.len() > 0
    } else if b.len() == 0 {
        false
    } else if a[0] != b[0] {
        (a[0] as u32) < (b[0] as u32)
    } else {
        chars_lt(a.skip(1), b.skip(1))
    }
}

/// The order is strict and total.
pub proof fn lemma_chars_lt_order(a: Seq<char>, b: Seq<char>)
    ensures
        !(chars_lt(a, b) && chars_lt(b, a)),
        a != b ==> chars_lt(a, b) || chars_lt(b, a),
        !chars_lt(a, a),
    decreases a.len(),
{
    if a.len() > 0 && b.len() > 0 {
        lemma_chars_lt_order(a.skip(1), b.skip(1));
        lemma_chars_lt_order(a.skip(1), a.skip(1));
        vstd::utf8::char_u32_cast(a[0], a[0] as u32);
        vstd::utf8::char_u32_cast(b[0], b[0] as u32);
        if a[0] == b[0] && a != b {
            assert(a.skip(1) != b.skip(1)) by {
                if a.skip(1) == b.skip(1) {
                    assert(a =~= seq![a[0]] + a.skip(1));
                    assert(b =~= seq![b[0]] + b.skip(1));
                }
            }
        }
    } else if a.len() == 0 && b.len() == 0 {
        assert(a =~= b);
    } else if a.len() > 0 {
        lemma_chars_lt_order(a.skip(1), a.skip(1));
    }
}

/// The order is transitive.
pub proof fn lemma_chars_lt_transitive(a: Seq<char>, b: Seq<char>, c: Seq<char>)
    requires
        chars_lt(a, b),
        chars_lt(b, c),
    ensures
        chars_lt(a, c),
    decreases a.len(),
{
    if a.len() > 0 && b.len() > 0 && c.len() > 0 && a[0] == b[0] && b[0] == c[0] {
        lemma_chars_lt_transitive(a.skip(1), b.skip(1), c.skip(1));
    }
}

/// `a < b` in the order of `str`.
pub fn str_lt(a: &str, b: &str) -> (r: bool)
    ensures
        r == chars_lt(a@, b@),
{
    let ac = chars_of(a);
    let bc = chars_of(b);
    let mut i: usize = 0;
    assert(a@.skip(0) =~= a@);
    assert(b@.skip(0) =~= b@);
    while i < ac.len() && i < bc.len() && ac[i] == bc[i]
        invariant
            ac@ == a@,
            bc@ == b@,
            i <= ac@.len(),
            i <= bc@.len(),
            chars_lt(a@, b@) == chars_lt(a@.skip(i as int), b@.skip(i as int)),
        decreases ac@.len() - i,
    {
        assert(a@.skip(i as int).skip(1) =~= a@.skip(i + 1));
        assert(b@.skip(i as int).skip(1) =~= b@.skip(i + 1));
        i += 1;
    }
    if i == ac.len() {
        i < bc.len()
    } else if i == bc.len() {
        false
    } else {
        (ac[i] as u32) < (bc[i] as u32)
    }
}

} // verus!
