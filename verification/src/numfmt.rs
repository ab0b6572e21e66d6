//! Decimal formatting and parsing of integers, used by the serialization
//! engine to turn numbers into atom text and back.

use vstd::prelude::*;

verus! {

pub open spec fn spec_digit_char(d: int) -> char {
    if d == 0 {
        '0'
    } else if d == 1 {
        '1'
    } else if d == 2 {
        '2'
    } else if d == 3 {
        '3'
    } else if d == 4 {
        '4'
    } else if d == 5 {
        '5'
    } else if d == 6 {
        '6'
    } else if d == 7 {
        '7'
    } else if d == 8 {
        '8'
    } else {
        '9'
    }
}

pub open spec fn spec_is_digit(c: char) -> bool {
    ('0' as u32) <= (c as u32) && (c as u32) <= ('9' as u32)
}

pub open spec fn spec_digit_val(c: char) -> int {
    (c as u32) - ('0' as u32)
}

/// The canonical decimal rendering of a natural number: no sign, no
/// leading zeros.
pub open spec fn spec_fmt_nat(n: nat) -> Seq<char>
    decreases n,
{
    if n < 10 {
        seq![spec_digit_char(n as int)]
    } else {
        spec_fmt_nat(n / 10).push(spec_digit_char((n % 10) as int))
    }
}

/// The canonical decimal rendering of an integer: a `-` sign for negative
/// values, then the magnitude's digits.
pub open spec fn spec_fmt_int(v: int) -> Seq<char> {
    if v < 0 {
        seq!['-'] + spec_fmt_nat((-v) as nat)
    } else {
        spec_fmt_nat(v as nat)
    }
}

/// The value of a string of digit characters, most significant first.
pub open spec fn spec_digits_val(s: Seq<char>) -> int
    decreases s.len(),
{
    if s.len() == 0 {
        0
    } else {
        spec_digits_val(s.drop_last()) * 10 + spec_digit_val(s.last())
    }
}

pub open spec fn spec_all_digits(s: Seq<char>) -> bool {
    forall|i: int| 0 <= i < s.len() ==> spec_is_digit(#[trigger] s[i])
}

/// What parsing a (possibly signed) decimal integer literal means: an
/// optional `+` or `-` sign, then at least one digit. Anything else is no
/// integer at all.
pub open spec fn spec_parse_int(s: Seq<char>) -> Option<int> {
    if s.len() > 0 && (s[0] == '-' || s[0] == '+') {
        let mag = s.drop_first();
        if mag.len() > 0 && spec_all_digits(mag) {
            Some(if s[0] == '-' { -spec_digits_val(mag) } else { spec_digits_val(mag) })
        } else {
            None
        }
    } else {
        if s.len() > 0 && spec_all_digits(s) {
            Some(spec_digits_val(s))
        } else {
            None
        }
    }
}

/// Parsing an unsigned decimal literal: an optional `+` sign, then at
/// least one digit; a `-` sign is rejected outright.
pub open spec fn spec_parse_nat(s: Seq<char>) -> Option<int> {
    if s.len() > 0 && s[0] == '+' {
        let mag = s.drop_first();
        if mag.len() > 0 && spec_all_digits(mag) {
            Some(spec_digits_val(mag))
        } else {
            None
        }
    } else {
        if s.len() > 0 && spec_all_digits(s) {
            Some(spec_digits_val(s))
        } else {
            None
        }
    }
}

/// Parsing within the bounds of a concrete machine type: a literal that
/// parses but does not fit is rejected, as a native parse would reject it.
pub open spec fn spec_parse_int_in(s: Seq<char>, min: int, max: int) -> Option<int> {
    match spec_parse_int(s) {
        Some(v) => if min <= v && v <= max {
            Some(v)
        } else {
            None
        },
        None => None,
    }
}

pub open spec fn spec_parse_nat_in(s: Seq<char>, max: int) -> Option<int> {
    match spec_parse_nat(s) {
        Some(v) => if v <= max {
            Some(v)
        } else {
            None
        },
        None => None,
    }
}

fn digit_char(d: u128) -> (c: char)
    requires
        d < 10,
    ensures
        c == spec_digit_char(d as int),
{
    if d == 0 {
        '0'
    } else if d == 1 {
        '1'
    } else if d == 2 {
        '2'
    } else if d == 3 {
        '3'
    } else if d == 4 {
        '4'
    } else if d == 5 {
        '5'
    } else if d == 6 {
        '6'
    } else if d == 7 {
        '7'
    } else if d == 8 {
        '8'
    } else {
        '9'
    }
}

/// Render a natural number in decimal.
pub fn fmt_u128(n: u128) -> (r: String)
    ensures
        r@ == spec_fmt_nat(n as nat),
    decreases n,
{
    if n < 10 {
        let mut s = String::new();
        s.push(digit_char(n));
        assert(s@ =~= spec_fmt_nat(n as nat));
        s
    } else {
        let mut s = fmt_u128(n / 10);
        s.push(digit_char(n % 10));
        assert(s@ =~= spec_fmt_nat(n as nat));
        s
    }
}

/// Render a signed integer in decimal.
pub fn fmt_i128(v: i128) -> (r: String)
    ensures
        r@ == spec_fmt_int(v as int),
{
    if v >= 0 {
        fmt_u128(v as u128)
    } else {
        let mag: u128 = if v == i128::MIN {
            (i128::MAX as u128) + 1
        } else {
            (-v) as u128
        };
        assert(mag as int == -(v as int));
        let mut s = String::new();
        s.push('-');
        let digits = fmt_u128(mag);
        s.append(digits.as_str());
        assert(s@ =~= spec_fmt_int(v as int));
        s
    }
}

proof fn lemma_digit_char_val(d: int)
    requires
        0 <= d < 10,
    ensures
        spec_is_digit(spec_digit_char(d)),
        spec_digit_val(spec_digit_char(d)) == d,
{
    assert(('0' as u32) == 48);
    assert(('1' as u32) == 49);
    assert(('2' as u32) == 50);
    assert(('3' as u32) == 51);
    assert(('4' as u32) == 52);
    assert(('5' as u32) == 53);
    assert(('6' as u32) == 54);
    assert(('7' as u32) == 55);
    assert(('8' as u32) == 56);
    assert(('9' as u32) == 57);
}

/// Every character of a canonical rendering is a digit, there is at least
/// one, and the digits evaluate back to the rendered number.
pub proof fn lemma_fmt_nat_digits(n: nat)
    ensures
        spec_fmt_nat(n).len() >= 1,
        spec_all_digits(spec_fmt_nat(n)),
        spec_digits_val(spec_fmt_nat(n)) == n,
    decreases n,
{
    if n < 10 {
        lemma_digit_char_val(n as int);
        assert(spec_fmt_nat(n) == seq![spec_digit_char(n as int)]);
        assert(spec_fmt_nat(n)[0] == spec_digit_char(n as int));
        assert(spec_is_digit(spec_fmt_nat(n)[0]));
        assert(spec_fmt_nat(n).drop_last() =~= Seq::<char>::empty());
        assert(spec_fmt_nat(n).last() == spec_digit_char(n as int));
        assert(spec_digits_val(spec_fmt_nat(n)) == spec_digits_val(Seq::<char>::empty()) * 10
            + spec_digit_val(spec_digit_char(n as int)));
    } else {
        lemma_fmt_nat_digits(n / 10);
        lemma_digit_char_val((n % 10) as int);
        assert(spec_fmt_nat(n) == spec_fmt_nat(n / 10).push(spec_digit_char((n % 10) as int)));
        assert(spec_fmt_nat(n).drop_last() =~= spec_fmt_nat(n / 10));
        assert(spec_fmt_nat(n).last() == spec_digit_char((n % 10) as int));
        assert(spec_is_digit(spec_fmt_nat(n).last()));
        assert(spec_digits_val(spec_fmt_nat(n)) == spec_digits_val(spec_fmt_nat(n / 10)) * 10
            + spec_digit_val(spec_digit_char((n % 10) as int)));
        assert((n / 10) * 10 + n % 10 == n);
        assert(forall|i: int|
            0 <= i < spec_fmt_nat(n).len() ==> spec_is_digit(#[trigger] spec_fmt_nat(n)[i]));
    }
}

/// Round trip: parsing the canonical rendering of any integer gives that
/// integer back.
pub proof fn lemma_parse_fmt_int(v: int)
    ensures
        spec_parse_int(spec_fmt_int(v)) == Some(v),
{
    if v < 0 {
        lemma_fmt_nat_digits((-v) as nat);
        let s = spec_fmt_int(v);
        assert(s[0] == '-');
        assert(s.drop_first() =~= spec_fmt_nat((-v) as nat));
    } else {
        lemma_fmt_nat_digits(v as nat);
        let s = spec_fmt_int(v);
        assert(spec_is_digit(s[0]));
        assert(s[0] != '-' && s[0] != '+');
    }
}

/// Unsigned round trip: the canonical rendering of a natural number
/// parses back to it on the unsigned path too.
pub proof fn lemma_parse_fmt_nat(n: nat)
    ensures
        spec_parse_nat(spec_fmt_nat(n)) == Some(n as int),
{
    lemma_fmt_nat_digits(n);
    assert(spec_fmt_nat(n)[0] != '+');
}

proof fn lemma_digits_val_nonneg(s: Seq<char>)
    requires
        spec_all_digits(s),
    ensures
        spec_digits_val(s) >= 0,
    decreases s.len(),
{
    if s.len() > 0 {
        assert(spec_all_digits(s.drop_last()));
        lemma_digits_val_nonneg(s.drop_last());
        assert(spec_is_digit(s.last()));
    }
}

/// A digit string is worth at least as much as any of its prefixes.
proof fn lemma_digits_val_prefix(s: Seq<char>, k: int)
    requires
        spec_all_digits(s),
        0 <= k <= s.len(),
    ensures
        spec_digits_val(s) >= spec_digits_val(s.take(k)),
    decreases s.len() - k,
{
    if k < s.len() {
        lemma_digits_val_prefix(s, k + 1);
        let p = s.take(k + 1);
        assert(p.drop_last() =~= s.take(k));
        assert(spec_all_digits(s.take(k))) by {
            assert(forall|i: int| 0 <= i < k ==> s.take(k)[i] == s[i]);
        }
        lemma_digits_val_nonneg(s.take(k));
        assert(spec_is_digit(s[k]));
        assert(spec_digits_val(s.take(k + 1)) >= spec_digits_val(s.take(k)));
    } else {
        assert(s.take(k) =~= s);
    }
}

/// Evaluate the digits of `s` from position `from` on, as long as the
/// value stays within `limit`.
fn parse_digits_bounded(s: &str, from: usize, limit: u128) -> (r: Option<u128>)
    requires
        from <= s@.len(),
    ensures
        ({
            let mag = s@.skip(from as int);
            match r {
                Some(v) => mag.len() > 0 && spec_all_digits(mag) && v == spec_digits_val(mag)
                    && v <= limit,
                None => !(mag.len() > 0 && spec_all_digits(mag) && spec_digits_val(mag)
                    <= limit),
            }
        }),
{
    let n = s.unicode_len();
    if from >= n {
        assert(s@.skip(from as int) =~= Seq::<char>::empty());
        return None;
    }
    let ghost mag = s@.skip(from as int);
    let mut acc: u128 = 0;
    let mut i: usize = from;
    while i < n
        invariant
            from <= i <= n,
            n == s@.len(),
            from < n,
            mag == s@.skip(from as int),
            spec_all_digits(mag.take(i - from)),
            acc == spec_digits_val(mag.take(i - from)),
            acc <= limit,
        decreases n - i,
    {
        let c = s.get_char(i);
        assert(c == mag[i - from]);
        let cv = c as u32;
        if cv < 48 || cv > 57 {
            assert(!spec_is_digit(mag[i - from]));
            return None;
        }
        assert(spec_is_digit(mag[i - from]));
        let d = (cv - 48) as u128;
        assert(d == spec_digit_val(mag[i - from]));
        assert(d <= 9);
        assert(mag.take(i + 1 - from).drop_last() =~= mag.take(i - from));
        let fits = limit >= d && acc <= (limit - d) / 10;
        if fits {
            assert(acc * 10 + d <= limit) by {
                assert(acc <= (limit - d) / 10);
                assert(acc * 10 <= ((limit - d) / 10) * 10) by (nonlinear_arith)
                    requires
                        acc <= (limit - d) / 10,
                ;
                assert(((limit - d) / 10) * 10 <= limit - d);
            }
            acc = acc * 10 + d;
            assert(acc == spec_digits_val(mag.take(i + 1 - from)));
        } else {
            assert(acc * 10 + d > limit) by {
                if limit < d {
                    assert(acc * 10 >= 0) by (nonlinear_arith);
                } else {
                    assert(acc >= (limit - d) / 10 + 1);
                    assert(acc * 10 >= ((limit - d) / 10 + 1) * 10) by (nonlinear_arith)
                        requires
                            acc >= (limit - d) / 10 + 1,
                    ;
                    assert(((limit - d) / 10) * 10 + 10 > limit - d);
                }
            }
            // The value can only grow with more digits: the whole literal
            // is out of bounds whatever follows.
            assert(spec_digits_val(mag.take(i + 1 - from)) > limit);
            proof {
                if spec_all_digits(mag) {
                    lemma_digits_val_prefix(mag, i + 1 - from);
                }
            }
            return None;
        }
        i = i + 1;
    }
    assert(mag.take(n - from) =~= mag);
    Some(acc)
}

/// Parse a signed decimal literal, accepting exactly the values between
/// `min` and `max`.
pub fn parse_i128_in(s: &str, min: i128, max: i128) -> (r: Option<i128>)
    requires
        min <= 0 <= max,
    ensures
        ({
            match r {
                Some(v) => spec_parse_int_in(s@, min as int, max as int) == Some(v as int),
                None => spec_parse_int_in(s@, min as int, max as int) is None,
            }
        }),
{
    let n = s.unicode_len();
    if n == 0 {
        return None;
    }
    let first = s.get_char(0);
    if first == '-' {
        let limit: u128 = if min == i128::MIN {
            (i128::MAX as u128) + 1
        } else {
            (-min) as u128
        };
        assert(limit as int == -(min as int));
        let ghost mag = s@.skip(1);
        assert(mag =~= s@.drop_first());
        match parse_digits_bounded(s, 1, limit) {
            Some(v) => {
                proof {
                    lemma_digits_val_nonneg(mag);
                }
                let out: i128 = if v == limit {
                    min
                } else {
                    -((v as i128))
                };
                assert(out as int == -(v as int));
                Some(out)
            },
            None => {
                proof {
                    if spec_parse_int(s@) is Some {
                        lemma_digits_val_nonneg(mag);
                    }
                }
                None
            },
        }
    } else if first == '+' {
        assert(s@.drop_first() =~= s@.skip(1));
        match parse_digits_bounded(s, 1, max as u128) {
            Some(v) => Some(v as i128),
            None => {
                proof {
                    if spec_parse_int(s@) is Some {
                        lemma_digits_val_nonneg(s@.skip(1));
                    }
                }
                None
            },
        }
    } else {
        assert(s@.skip(0) =~= s@);
        match parse_digits_bounded(s, 0, max as u128) {
            Some(v) => Some(v as i128),
            None => {
                proof {
                    if spec_parse_int(s@) is Some {
                        lemma_digits_val_nonneg(s@);
                    }
                }
                None
            },
        }
    }
}

/// Parse an unsigned decimal literal, accepting exactly the values up to
/// `max`.
pub fn parse_u128_in(s: &str, max: u128) -> (r: Option<u128>)
    ensures
        ({
            match r {
                Some(v) => spec_parse_nat_in(s@, max as int) == Some(v as int),
                None => spec_parse_nat_in(s@, max as int) is None,
            }
        }),
{
    let n = s.unicode_len();
    if n == 0 {
        return None;
    }
    let first = s.get_char(0);
    if first == '+' {
        assert(s@.drop_first() =~= s@.skip(1));
        match parse_digits_bounded(s, 1, max) {
            Some(v) => Some(v),
            None => {
                proof {
                    if spec_parse_nat(s@) is Some {
                        lemma_digits_val_nonneg(s@.skip(1));
                    }
                }
                None
            },
        }
    } else {
        assert(s@.skip(0) =~= s@);
        match parse_digits_bounded(s, 0, max) {
            Some(v) => Some(v),
            None => {
                proof {
                    if spec_parse_nat(s@) is Some {
                        lemma_digits_val_nonneg(s@);
                    }
                }
                None
            },
        }
    }
}

} // verus!
