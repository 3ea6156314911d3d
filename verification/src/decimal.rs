//! Decimal text of integers, as `to_string` writes it and `str::parse`
//! reads it back.
use vstd::prelude::*;
use crate::text::push_char;

verus! {

pub open spec fn digit_char(d: nat) -> char {
    (48 + d) as char
}

pub open spec fn is_digit(c: char) -> bool {
    '0' <= c && c <= '9'
}

pub open spec fn all_digits(s: Seq<char>) -> bool {
    forall|i: int| 0 <= i < s.len() ==> is_digit(#[trigger] s[i])
}

/// The shortest decimal digits of `n`.
pub open spec fn decimal_digits(n: nat) -> Seq<char>
    decreases n,
{
    if n < 10 {
        seq![digit_char(n)]
    } else {
        decimal_digits(n / 10).push(digit_char(n % 10))
    }
}

/// The decimal text of an integer: a `-` before the digits of a negative one.
pub open spec fn int_decimal(i: int) -> Seq<char> {
    if i < 0 {
        seq!['-'] + decimal_digits((-i) as nat)
    } else {
        decimal_digits(i as nat)
    }
}

/// The value of a run of decimal digits.
pub open spec fn digits_value(s: Seq<char>) -> nat
    decreases s.len(),
{
    if s.len() == 0 {
        0
    } else {
        digits_value(s.drop_last()) * 10 + ((s.last() as int - 48) as nat)
    }
}

/// What `str::parse` gives for an integer type whose values run from `min`
/// to `max`: an optional `+` (or `-` where the type is signed), then at least
/// one decimal digit and nothing else, and a value in range.
pub open spec fn parse_int(s: Seq<char>, signed: bool, min: int, max: int) -> Option<int> {
    if s.len() == 0 {
        None
    } else {
        let neg = signed && s[0] == '-';
        let ds = if s[0] == '+' || neg {
            s.drop_first()
        } else {
            s
        };
        if ds.len() == 0 || !all_digits(ds) {
            None
        } else {
            let v: int = if neg {
                -(digits_value(ds) as int)
            } else {
                digits_value(ds) as int
            };
            if min <= v && v <= max {
                Some(v)
            } else {
                None
            }
        }
    }
}

pub proof fn lemma_digit_char_value(d: nat)
    requires
        d < 10,
    ensures
        digit_char(d) as int == 48 + d,
        is_digit(digit_char(d)),
{
}

pub proof fn lemma_decimal_digits_shape(n: nat)
    ensures
        decimal_digits(n).len() >= 1,
        all_digits(decimal_digits(n)),
        digits_value(decimal_digits(n)) == n,
    decreases n,
{
    if n < 10 {
        lemma_digit_char_value(n);
        let d = decimal_digits(n);
        assert(d.drop_last() =~= Seq::<char>::empty());
        assert(digits_value(Seq::<char>::empty()) == 0);
        assert(d.last() == digit_char(n));
    }
    if n >= 10 {
        lemma_decimal_digits_shape(n / 10);
        let d = decimal_digits(n);
        assert(d.drop_last() =~= decimal_digits(n / 10));
        lemma_digit_char_value((n % 10) as nat);
        assert(d.last() == digit_char((n % 10) as nat));
        assert(digits_value(d) == digits_value(d.drop_last()) * 10 + ((d.last() as int - 48) as nat));
        assert(n == (n / 10) * 10 + n % 10);
        assert(digits_value(d.drop_last()) == n / 10);
        assert((d.last() as int - 48) == n % 10);
        assert forall|i: int| 0 <= i < d.len() implies is_digit(#[trigger] d[i]) by {
            if i < d.len() - 1 {
                assert(d[i] == decimal_digits(n / 10)[i]);
            }
        }
    }
}

/// Reading back the decimal text of an in-range integer gives the integer.
pub proof fn lemma_parse_int_decimal(x: int, signed: bool, min: int, max: int)
    requires
        min <= x <= max,
        x < 0 ==> signed,
    ensures
        parse_int(int_decimal(x), signed, min, max) == Some(x),
{
    if x < 0 {
        let m = (-x) as nat;
        lemma_decimal_digits_shape(m);
        let s = int_decimal(x);
        assert(s[0] == '-');
        assert(s.drop_first() =~= decimal_digits(m));
    } else {
        let m = x as nat;
        lemma_decimal_digits_shape(m);
        let s = int_decimal(x);
        assert(is_digit(s[0]));
    }
}

fn digit(d: u64) -> (c: char)
    requires
        d < 10,
    ensures
        c == digit_char(d as nat),
{
    ((48 + d) as u8) as char
}

/// Appends the decimal digits of `n`.
pub fn push_decimal(s: &mut String, n: u64)
    ensures
        final(s)@ == old(s)@ + decimal_digits(n as nat),
    decreases n,
{
    if n >= 10 {
        push_decimal(s, n / 10);
    }
    push_char(s, digit(n % 10));
    proof {
        if n >= 10 {
            assert(old(s)@ + decimal_digits(n as nat) =~= old(s)@ + decimal_digits((n / 10) as nat)
                + seq![digit_char((n % 10) as nat)]);
        } else {
            assert(old(s)@ + decimal_digits(n as nat) =~= old(s)@.push(digit_char(n as nat)));
        }
    }
}

/// `u64::to_string`.
pub fn u64_to_string(n: u64) -> (r: String)
    ensures
        r@ == int_decimal(n as int),
{
    let mut s = String::new();
    push_decimal(&mut s, n);
    assert(s@ =~= decimal_digits(n as nat));
    s
}

/// `i64::to_string`.
pub fn i64_to_string(n: i64) -> (r: String)
    ensures
        r@ == int_decimal(n as int),
{
    let mut s = String::new();
    if n < 0 {
        push_char(&mut s, '-');
        let m: i128 = 0i128 - (n as i128);
        push_decimal(&mut s, m as u64);
    } else {
        push_decimal(&mut s, n as u64);
        assert(s@ =~= decimal_digits(n as nat));
    }
    s
}

pub open spec fn saturate(v: int, cap: int) -> int {
    if v < cap {
        v
    } else {
        cap
    }
}

pub open spec fn digits_cap() -> int {
    0x4_0000_0000_0000_0000
}

/// Reads an integer as `str::parse` does, for a type whose values run from
/// `min` to `max`.
fn parse_integer(s: &str, signed: bool, min: i128, max: i128) -> (r: Option<i128>)
    requires
        -0x2_0000_0000_0000_0000 < min <= max < 0x2_0000_0000_0000_0000,
    ensures
        r matches Some(v) ==> parse_int(s@, signed, min as int, max as int) == Some(v as int),
        r is None ==> parse_int(s@, signed, min as int, max as int) is None,
{
    let cs = crate::text::chars_of(s);
    if cs.len() == 0 {
        return None;
    }
    let neg = signed && cs[0] == '-';
    let start: usize = if cs[0] == '+' || neg {
        1
    } else {
        0
    };
    let ghost ds = if cs@[0] == '+' || neg {
        s@.drop_first()
    } else {
        s@
    };
    assert(ds =~= cs@.subrange(start as int, cs@.len() as int));
    if start >= cs.len() {
        assert(ds.len() == 0);
        return None;
    }
    let cap: i128 = 0x4_0000_0000_0000_0000;
    let mut acc: i128 = 0;
    let mut i: usize = start;
    while i < cs.len()
        invariant
            cs@ == s@,
            s@.len() > 0,
            neg == (signed && s@[0] == '-'),
            ds == (if s@[0] == '+' || neg {
                s@.drop_first()
            } else {
                s@
            }),
            start <= i <= cs@.len(),
            ds =~= cs@.subrange(start as int, cs@.len() as int),
            cap == digits_cap(),
            all_digits(cs@.subrange(start as int, i as int)),
            acc == saturate(digits_value(cs@.subrange(start as int, i as int)) as int, cap as int),
        decreases cs@.len() - i,
    {
        let c = cs[i];
        if !('0' <= c && c <= '9') {
            assert(ds[i - start] == cs@[i as int]);
            assert(!is_digit(ds[i - start]));
            assert(!all_digits(ds));
            assert(parse_int(s@, signed, min as int, max as int) is None);
            return None;
        }
        let ghost pre = cs@.subrange(start as int, i as int);
        let ghost nxt = cs@.subrange(start as int, i + 1);
        assert(nxt.drop_last() =~= pre);
        assert(nxt.last() == c);
        let d: i128 = (c as u32 - 48) as i128;
        let next = acc * 10 + d;
        acc = if next < cap {
            next
        } else {
            cap
        };
        assert(all_digits(nxt)) by {
            assert forall|k: int| 0 <= k < nxt.len() implies is_digit(#[trigger] nxt[k]) by {
                if k < nxt.len() - 1 {
                    assert(nxt[k] == pre[k]);
                }
            }
        }
        i = i + 1;
    }
    assert(cs@.subrange(start as int, cs@.len() as int) =~= ds);
    let v: i128 = if neg {
        0 - acc
    } else {
        acc
    };
    if min <= v && v <= max {
        Some(v)
    } else {
        None
    }
}

/// `str::parse::<i64>`, with the error as `None`.
pub fn parse_i64(s: &str) -> (r: Option<i64>)
    ensures
        r matches Some(v) ==> parse_int(s@, true, i64::MIN as int, i64::MAX as int) == Some(
            v as int,
        ),
        r is None ==> parse_int(s@, true, i64::MIN as int, i64::MAX as int) is None,
{
    match parse_integer(s, true, i64::MIN as i128, i64::MAX as i128) {
        Some(v) => Some(v as i64),
        None => None,
    }
}

/// `str::parse::<i32>`, with the error as `None`.
pub fn parse_i32(s: &str) -> (r: Option<i32>)
    ensures
        r matches Some(v) ==> parse_int(s@, true, i32::MIN as int, i32::MAX as int) == Some(
            v as int,
        ),
        r is None ==> parse_int(s@, true, i32::MIN as int, i32::MAX as int) is None,
{
    match parse_integer(s, true, i32::MIN as i128, i32::MAX as i128) {
        Some(v) => Some(v as i32),
        None => None,
    }
}

/// `str::parse::<u64>`, with the error as `None`.
pub fn parse_u64(s: &str) -> (r: Option<u64>)
    ensures
        r matches Some(v) ==> parse_int(s@, false, 0, u64::MAX as int) == Some(v as int),
        r is None ==> parse_int(s@, false, 0, u64::MAX as int) is None,
{
    match parse_integer(s, false, 0, u64::MAX as i128) {
        Some(v) => Some(v as u64),
        None => None,
    }
}

/// `str::parse::<u32>`, with the error as `None`.
pub fn parse_u32(s: &str) -> (r: Option<u32>)
    ensures
        r matches Some(v) ==> parse_int(s@, false, 0, u32::MAX as int) == Some(v as int),
        r is None ==> parse_int(s@, false, 0, u32::MAX as int) is None,
{
    match parse_integer(s, false, 0, u32::MAX as i128) {
        Some(v) => Some(v as u32),
        None => None,
    }
}

} // verus!
