use crate::transaction::UNITS_PER_WHOLE;
use vstd::prelude::*;

verus! {

/// Largest magnitude, in units, that an amount field may spell.
pub const MAX_PARSED_UNITS: i64 = 1_000_000_000_000_000_000;

pub open spec fn is_digit(c: char) -> bool {
    '0' <= c <= '9'
}

pub open spec fn all_digits(s: Seq<char>) -> bool {
    forall|i: int| 0 <= i < s.len() ==> is_digit(#[trigger] s[i])
}

pub open spec fn digit_value(c: char) -> int {
    c as u32 - '0' as u32
}

/// The number that a string of decimal digits spells (most significant first).
pub open spec fn digits_value(s: Seq<char>) -> int
    decreases s.len(),
{
    if s.len() == 0 {
        0
    } else {
        digits_value(s.drop_last()) * 10 + digit_value(s.last())
    }
}

pub open spec fn pow10(n: nat) -> int
    decreases n,
{
    if n == 0 {
        1
    } else {
        10 * pow10((n - 1) as nat)
    }
}

/// A natural number: digits, at least one, after an optional `+`.
pub open spec fn natural_of(s: Seq<char>) -> Option<int> {
    let body = if s.len() > 0 && s[0] == '+' {
        s.drop_first()
    } else {
        s
    };
    if body.len() > 0 && all_digits(body) {
        Some(digits_value(body))
    } else {
        None
    }
}

/// Position of the first `.` in `s`, or its length if there is none.
pub open spec fn dot_index(s: Seq<char>) -> int
    decreases s.len(),
{
    if s.len() == 0 {
        0
    } else if s[0] == '.' {
        0
    } else {
        1 + dot_index(s.drop_first())
    }
}

/// The value in units of an unsigned decimal: whole digits, then optionally a
/// `.` and at most four fractional digits; at least one digit in all.
pub open spec fn unsigned_units(s: Seq<char>) -> Option<int> {
    let p = dot_index(s);
    let whole = s.take(p);
    let frac = if p < s.len() {
        s.skip(p + 1)
    } else {
        Seq::<char>::empty()
    };
    if all_digits(whole) && all_digits(frac) && frac.len() <= 4 && whole.len() + frac.len() > 0 {
        Some(digits_value(whole) * UNITS_PER_WHOLE + digits_value(frac) * pow10(
            (4 - frac.len()) as nat,
        ))
    } else {
        None
    }
}

/// The value in units of a decimal with an optional sign.
pub open spec fn units_of(s: Seq<char>) -> Option<int> {
    if s.len() > 0 && s[0] == '-' {
        match unsigned_units(s.drop_first()) {
            Some(v) => Some(-v),
            None => None,
        }
    } else if s.len() > 0 && s[0] == '+' {
        unsigned_units(s.drop_first())
    } else {
        unsigned_units(s)
    }
}

/// The amount a field spells, when it is a decimal of at most
/// `MAX_PARSED_UNITS` units in magnitude.
pub open spec fn amount_of(s: Seq<char>) -> Option<int> {
    match units_of(s) {
        Some(v) => if -MAX_PARSED_UNITS <= v <= MAX_PARSED_UNITS {
            Some(v)
        } else {
            None
        },
        None => None,
    }
}

proof fn lemma_digits_value_nonneg(s: Seq<char>)
    requires
        all_digits(s),
    ensures
        digits_value(s) >= 0,
    decreases s.len(),
{
    if s.len() > 0 {
        lemma_digits_value_nonneg(s.drop_last());
    }
}

proof fn lemma_prefix_value_le(s: Seq<char>, k: int)
    requires
        0 <= k <= s.len(),
        all_digits(s),
    ensures
        digits_value(s.take(k)) <= digits_value(s),
    decreases s.len(),
{
    if k < s.len() {
        lemma_prefix_value_le(s.drop_last(), k);
        assert(s.drop_last().take(k) =~= s.take(k));
        lemma_digits_value_nonneg(s.drop_last());
    } else {
        assert(s.take(k) =~= s);
    }
}

proof fn lemma_dot_index(s: Seq<char>, q: int)
    requires
        0 <= q <= s.len(),
        forall|k: int| 0 <= k < q ==> s[k] != '.',
        q == s.len() || s[q] == '.',
    ensures
        dot_index(s) == q,
    decreases s.len(),
{
    if s.len() > 0 && q > 0 {
        lemma_dot_index(s.drop_first(), q - 1);
    }
}

/// The characters of `s`, in a vector.
fn chars_of(s: &str) -> (r: Vec<char>)
    ensures
        r@ == s@,
{
    let n = s.unicode_len();
    let mut r: Vec<char> = Vec::new();
    let mut i: usize = 0;
    while i < n
        invariant
            n == s@.len(),
            0 <= i <= n,
            r@ == s@.take(i as int),
        decreases n - i,
    {
        r.push(s.get_char(i));
        i = i + 1;
        assert(r@ =~= s@.take(i as int));
    }
    assert(s@.take(n as int) =~= s@);
    r
}

/// The value of the digits `cs[from..to]`, when they are all digits and
/// spell at most `limit`.
fn digits_in(cs: &Vec<char>, from: usize, to: usize, limit: u64) -> (r: Option<u64>)
    requires
        from <= to <= cs@.len(),
        limit <= 1_000_000_000_000_000_000,
    ensures
        r == (if all_digits(cs@.subrange(from as int, to as int)) && digits_value(
            cs@.subrange(from as int, to as int),
        ) <= limit {
            Some(digits_value(cs@.subrange(from as int, to as int)) as u64)
        } else {
            None::<u64>
        }),
        r matches Some(v) ==> v <= limit && v == digits_value(cs@.subrange(from as int, to as int)),
{
    let ghost whole = cs@.subrange(from as int, to as int);
    let mut acc: u64 = 0;
    let mut i: usize = from;
    while i < to
        invariant
            from <= i <= to <= cs@.len(),
            whole == cs@.subrange(from as int, to as int),
            limit <= 1_000_000_000_000_000_000,
            all_digits(cs@.subrange(from as int, i as int)),
            acc == digits_value(cs@.subrange(from as int, i as int)),
            acc <= limit,
        decreases to - i,
    {
        let c = cs[i];
        if !('0' <= c && c <= '9') {
            assert(whole[i - from] == c);
            return None;
        }
        let ghost next = cs@.subrange(from as int, i + 1);
        assert(next.drop_last() =~= cs@.subrange(from as int, i as int));
        assert(next.last() == c);
        let v = acc * 10 + (c as u64 - '0' as u64);
        if v > limit {
            proof {
                if all_digits(whole) {
                    assert(whole.take(i + 1 - from) =~= next);
                    lemma_prefix_value_le(whole, i + 1 - from);
                }
            }
            return None;
        }
        acc = v;
        i = i + 1;
    }
    Some(acc)
}

/// Reads a natural number (digits after an optional `+`) of at most `limit`.
pub fn parse_natural(s: &str, limit: u64) -> (r: Option<u64>)
    requires
        limit <= 1_000_000_000_000_000_000,
    ensures
        r == (match natural_of(s@) {
            Some(n) => if n <= limit {
                Some(n as u64)
            } else {
                None
            },
            None => None,
        }),
        r matches Some(v) ==> v <= limit && natural_of(s@) == Some(v as int),
{
    let cs = chars_of(s);
    let n = cs.len();
    let start: usize = if n > 0 && cs[0] == '+' {
        1
    } else {
        0
    };
    proof {
        if n > 0 && cs@[0] == '+' {
            assert(s@.drop_first() =~= cs@.subrange(1, n as int));
        } else {
            assert(s@ =~= cs@.subrange(0, n as int));
        }
    }
    if start == n {
        return None;
    }
    digits_in(&cs, start, n, limit)
}

proof fn lemma_pow10_small()
    ensures
        pow10(0) == 1,
        pow10(1) == 10,
        pow10(2) == 100,
        pow10(3) == 1_000,
        pow10(4) == 10_000,
{
    reveal_with_fuel(pow10, 5);
}

/// The value in units of the unsigned decimal `cs[start..]`, when it is one
/// and is at most `MAX_PARSED_UNITS`.
fn unsigned_units_in(cs: &Vec<char>, start: usize) -> (r: Option<u64>)
    requires
        start <= cs@.len(),
    ensures
        r == (match unsigned_units(cs@.subrange(start as int, cs@.len() as int)) {
            Some(v) => if v <= MAX_PARSED_UNITS {
                Some(v as u64)
            } else {
                None
            },
            None => None,
        }),
        r matches Some(v) ==> v <= MAX_PARSED_UNITS && unsigned_units(
            cs@.subrange(start as int, cs@.len() as int),
        ) == Some(v as int),
{
    let n = cs.len();
    let ghost body = cs@.subrange(start as int, n as int);
    let mut p: usize = start;
    while p < n && cs[p] != '.'
        invariant
            start <= p <= n == cs@.len(),
            forall|k: int| start <= k < p ==> cs@[k] != '.',
        decreases n - p,
    {
        p = p + 1;
    }
    let ghost w = cs@.subrange(start as int, p as int);
    let ghost f = if p < n {
        cs@.subrange(p + 1, n as int)
    } else {
        Seq::<char>::empty()
    };
    proof {
        lemma_dot_index(body, p - start);
        assert(body.take(p - start) =~= w);
        if p < n {
            assert(body.skip(p - start + 1) =~= f);
        }
        lemma_pow10_small();
    }
    let frac_len: usize = if p < n {
        n - p - 1
    } else {
        0
    };
    assert(f.len() == frac_len);
    if frac_len > 4 || p - start + frac_len == 0 {
        return None;
    }
    let ghost scale_spec = pow10((4 - frac_len) as nat);
    assert(1 <= scale_spec <= 10_000);
    let whole = match digits_in(cs, start, p, 100_000_000_000_000) {
        Some(v) => v,
        None => {
            proof {
                if all_digits(w) && all_digits(f) {
                    lemma_digits_value_nonneg(f);
                    assert(digits_value(f) * scale_spec >= 0) by (nonlinear_arith)
                        requires
                            digits_value(f) >= 0,
                            scale_spec >= 1,
                    ;
                }
            }
            return None;
        }
    };
    let frac: u64 = if p < n {
        match digits_in(cs, p + 1, n, 9_999) {
            Some(v) => v,
            None => {
                proof {
                    if all_digits(f) {
                        lemma_digits_below_pow10(f);
                        assert(pow10(f.len()) <= 10_000);
                    }
                }
                return None;
            }
        }
    } else {
        0
    };
    assert(frac == digits_value(f));
    let scale: u64 = if frac_len == 0 {
        10_000
    } else if frac_len == 1 {
        1_000
    } else if frac_len == 2 {
        100
    } else if frac_len == 3 {
        10
    } else {
        1
    };
    assert(scale == scale_spec);
    assert(whole * 10_000 <= 1_000_000_000_000_000_000) by (nonlinear_arith)
        requires
            whole <= 100_000_000_000_000,
    ;
    assert(frac * scale <= 100_000_000) by (nonlinear_arith)
        requires
            frac <= 9_999,
            scale <= 10_000,
    ;
    let units = whole * 10_000 + frac * scale;
    if units > MAX_PARSED_UNITS as u64 {
        return None;
    }
    Some(units)
}

/// Reads a decimal amount into units: an optional sign, whole digits, then
/// optionally a `.` and at most four fractional digits.
pub fn parse_amount(s: &str) -> (r: Option<i64>)
    ensures
        r == (match amount_of(s@) {
            Some(v) => Some(v as i64),
            None => None,
        }),
{
    let cs = chars_of(s);
    let n = cs.len();
    let signed = n > 0 && (cs[0] == '-' || cs[0] == '+');
    let start: usize = if signed {
        1
    } else {
        0
    };
    proof {
        if signed {
            assert(s@.drop_first() =~= cs@.subrange(1, n as int));
        } else {
            assert(s@ =~= cs@.subrange(0, n as int));
        }
    }
    match unsigned_units_in(&cs, start) {
        Some(units) => if n > 0 && cs[0] == '-' {
            Some(-(units as i64))
        } else {
            Some(units as i64)
        },
        None => None,
    }
}

proof fn lemma_digits_below_pow10(s: Seq<char>)
    requires
        all_digits(s),
    ensures
        0 <= digits_value(s) < pow10(s.len()),
    decreases s.len(),
{
    if s.len() > 0 {
        lemma_digits_below_pow10(s.drop_last());
        assert(pow10(s.len()) == 10 * pow10((s.len() - 1) as nat));
    }
}

/// The character of the decimal digit `d` (taken as `9` above nine).
pub open spec fn digit_char(d: int) -> char {
    if d <= 0 {
        '0'
    } else if d == 1 {
        '1'
    } else if d == 2 {
        '2'
    } else if d == 3 {
        '3'
    } else if d == 4 {
        '4'
    } else if d == 5 {
        '5'
    } else if d == 6 {
        '6'
    } else if d == 7 {
        '7'
    } else if d == 8 {
        '8'
    } else {
        '9'
    }
}

/// The decimal digits of `n`, without leading zeros.
pub open spec fn decimal_text(n: nat) -> Seq<char>
    decreases n,
{
    if n < 10 {
        seq![digit_char(n as int)]
    } else {
        decimal_text(n / 10).push(digit_char((n % 10) as int))
    }
}

/// An amount in units as text: a `-` when negative, the whole part, a `.`
/// and exactly four fractional digits.
pub open spec fn units_text(v: int) -> Seq<char> {
    let m = if v < 0 {
        -v
    } else {
        v
    };
    let f = m % UNITS_PER_WHOLE as int;
    let sign = if v < 0 {
        seq!['-']
    } else {
        Seq::<char>::empty()
    };
    sign + decimal_text((m / UNITS_PER_WHOLE as int) as nat) + seq![
        '.',
        digit_char(f / 1000),
        digit_char(f / 100 % 10),
        digit_char(f / 10 % 10),
        digit_char(f % 10),
    ]
}

/// Relies on std's `String::push`: it appends the one character at the end.
#[verifier::external_body]
pub(crate) fn push_char(s: &mut String, c: char)
    ensures
        final(s)@ == old(s)@.push(c),
{
    s.push(c)
}

fn digit_char_of(d: u128) -> (r: char)
    ensures
        r == digit_char(d as int),
{
    if d == 0 {
        '0'
    } else if d == 1 {
        '1'
    } else if d == 2 {
        '2'
    } else if d == 3 {
        '3'
    } else if d == 4 {
        '4'
    } else if d == 5 {
        '5'
    } else if d == 6 {
        '6'
    } else if d == 7 {
        '7'
    } else if d == 8 {
        '8'
    } else {
        '9'
    }
}

/// Appends the decimal digits of `n`.
pub fn push_decimal(out: &mut String, n: u128)
    ensures
        final(out)@ == old(out)@ + decimal_text(n as nat),
    decreases n,
{
    if n >= 10 {
        push_decimal(out, n / 10);
    }
    push_char(out, digit_char_of(n % 10));
    assert(out@ =~= old(out)@ + decimal_text(n as nat));
}

/// Appends an amount in units as `units_text` spells it.
pub fn push_units(out: &mut String, v: i128)
    ensures
        final(out)@ == old(out)@ + units_text(v as int),
{
    let m: u128 = if v < 0 {
        (-(v + 1)) as u128 + 1
    } else {
        v as u128
    };
    if v < 0 {
        push_char(out, '-');
    }
    push_decimal(out, m / 10_000);
    let f = m % 10_000;
    push_char(out, '.');
    push_char(out, digit_char_of(f / 1000));
    push_char(out, digit_char_of(f / 100 % 10));
    push_char(out, digit_char_of(f / 10 % 10));
    push_char(out, digit_char_of(f % 10));
    assert(out@ =~= old(out)@ + units_text(v as int));
}

/// An amount in units as text, with exactly four fractional digits.
pub fn format_units(v: i128) -> (r: String)
    ensures
        r@ == units_text(v as int),
{
    let mut out = String::new();
    push_units(&mut out, v);
    assert(out@ =~= units_text(v as int));
    out
}

} // verus!
