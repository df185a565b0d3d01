use vstd::prelude::*;

use crate::text::{chars_of, push_char};

verus! {

/// Whether `c` is one of the ASCII digits `0` to `9`.
pub open spec fn is_digit(c: char) -> bool {
    '0' <= c <= '9'
}

/// The value of the ASCII digit `c`.
pub open spec fn digit_value(c: char) -> nat {
    (c as u32 - '0' as u32) as nat
}

/// Whether every character of `ds` is an ASCII digit.
pub open spec fn all_digits(ds: Seq<char>) -> bool {
    forall|k: int| 0 <= k < ds.len() ==> is_digit(#[trigger] ds[k])
}

/// The number that the decimal digits `ds` write (leading zeros allowed).
pub open spec fn digits_value(ds: Seq<char>) -> nat
    decreases ds.len(),
{
    if ds.len() == 0 {
        0
    } else {
        digits_value(ds.drop_last()) * 10 + digit_value(ds.last())
    }
}

/// What `str::parse` gives for a decimal integer type whose values run from
/// `min` to `max`: an optional `+` (or `-` where `signed`), then at least one
/// ASCII digit, and a value in range. Anything else is no number.
pub open spec fn parse_int_spec(s: Seq<char>, signed: bool, min: int, max: int) -> Option<int> {
    if s.len() == 0 {
        None
    } else if (s[0] == '+' || s[0] == '-') && s.len() == 1 {
        None
    } else {
        let negative = signed && s[0] == '-';
        let ds = if s[0] == '+' || negative {
            s.drop_first()
        } else {
            s
        };
        let v: int = if negative {
            -(digits_value(ds) as int)
        } else {
            digits_value(ds) as int
        };
        if all_digits(ds) && min <= v <= max {
            Some(v)
        } else {
            None
        }
    }
}

/// An optional `i64` as an optional integer.
pub open spec fn opt_int(o: Option<i64>) -> Option<int> {
    match o {
        Some(v) => Some(v as int),
        None => None,
    }
}

/// What `<i64 as FromStr>::from_str(s).ok()` gives.
pub open spec fn parse_i64_spec(s: Seq<char>) -> Option<int> {
    parse_int_spec(s, true, i64::MIN as int, i64::MAX as int)
}

/// What `<u16 as FromStr>::from_str(s).ok()` gives.
pub open spec fn parse_u16_spec(s: Seq<char>) -> Option<int> {
    parse_int_spec(s, false, 0, u16::MAX as int)
}

/// The decimal digits of `n`, without leading zeros ("0" for zero).
pub open spec fn nat_text(n: nat) -> Seq<char>
    decreases n,
{
    if n < 10 {
        seq![digit_char(n)]
    } else {
        nat_text(n / 10).push(digit_char(n % 10))
    }
}

/// The ASCII digit for `d < 10`.
pub open spec fn digit_char(d: nat) -> char {
    (('0' as u32) + d) as char
}

/// How `to_string` writes the integer `n`: a `-` for negative numbers, then
/// the decimal digits of its magnitude.
pub open spec fn int_text(n: int) -> Seq<char> {
    if n < 0 {
        seq!['-'] + nat_text((-n) as nat)
    } else {
        nat_text(n as nat)
    }
}

proof fn lemma_digits_value_prefix_le(ds: Seq<char>, i: int)
    requires
        0 <= i <= ds.len(),
    ensures
        digits_value(ds.take(i)) <= digits_value(ds),
    decreases ds.len() - i,
{
    if i < ds.len() {
        lemma_digits_value_prefix_le(ds, i + 1);
        assert(ds.take(i + 1).drop_last() =~= ds.take(i));
    } else {
        assert(ds.take(i) =~= ds);
    }
}

/// Parses the decimal digits `cs[from..]` into a magnitude no larger than
/// `limit`; `None` when a character is no digit, when there is none, or when
/// the value is larger.
fn parse_magnitude(cs: &Vec<char>, from: usize, limit: u64) -> (r: Option<u64>)
    requires
        from <= cs@.len(),
        limit >= 9,
    ensures
        ({
            let ds = cs@.subrange(from as int, cs@.len() as int);
            match r {
                Some(v) => all_digits(ds) && v == digits_value(ds) && v <= limit,
                None => !all_digits(ds) || digits_value(ds) > limit,
            }
        }),
{
    let ghost ds = cs@.subrange(from as int, cs@.len() as int);
    let n = cs.len();
    let mut i = from;
    let mut acc: u64 = 0;
    while i < n
        invariant
            from <= i <= n,
            n == cs@.len(),
            ds == cs@.subrange(from as int, n as int),
            limit >= 9,
            acc <= limit,
            acc == digits_value(ds.take(i - from)),
            all_digits(ds.take(i - from)),
        decreases n - i,
    {
        let c = cs[i];
        assert(c == ds[i - from]);
        if c < '0' || c > '9' {
            return None;
        }
        let d = (c as u32 - '0' as u32) as u64;
        assert(ds.take(i + 1 - from).drop_last() =~= ds.take(i - from));
        if acc > (limit - d) / 10 {
            proof {
                assert(acc * 10 + d > limit) by (nonlinear_arith)
                    requires
                        acc > (limit - d) / 10,
                        d <= limit,
                ;
                lemma_digits_value_prefix_le(ds, i + 1 - from);
            }
            return None;
        }
        proof {
            assert(acc * 10 + d <= limit) by (nonlinear_arith)
                requires
                    acc <= (limit - d) / 10,
                    d <= limit,
            ;
        }
        acc = acc * 10 + d;
        i = i + 1;
        assert forall|k: int| 0 <= k < i - from implies is_digit(#[trigger] ds.take(i - from)[k]) by {
            if k < i - 1 - from {
                assert(ds.take(i - from)[k] == ds.take(i - 1 - from)[k]);
            }
        }
    }
    assert(ds.take(n - from) =~= ds);
    Some(acc)
}

/// Parses a decimal `i64` as `str::parse::<i64>` does; `None` where it fails.
pub fn parse_i64(s: &str) -> (r: Option<i64>)
    ensures
        opt_int(r) == parse_i64_spec(s@),
{
    let cs = chars_of(s);
    let n = cs.len();
    if n == 0 {
        return None;
    }
    if (cs[0] == '+' || cs[0] == '-') && n == 1 {
        return None;
    }
    let negative = cs[0] == '-';
    let from: usize = if cs[0] == '+' || negative {
        1
    } else {
        0
    };
    let ghost ds = cs@.subrange(from as int, n as int);
    assert(ds =~= if cs@[0] == '+' || negative {
        s@.drop_first()
    } else {
        s@
    });
    let limit: u64 = if negative {
        0x8000_0000_0000_0000
    } else {
        0x7fff_ffff_ffff_ffff
    };
    match parse_magnitude(&cs, from, limit) {
        Some(m) => {
            if negative {
                if m == 0x8000_0000_0000_0000 {
                    Some(i64::MIN)
                } else {
                    Some(-(m as i64))
                }
            } else {
                Some(m as i64)
            }
        },
        None => None,
    }
}

/// Parses a decimal `u16` as `str::parse::<u16>` does; `None` where it fails.
pub fn parse_u16(s: &str) -> (r: Option<u16>)
    ensures
        match r {
            Some(v) => parse_u16_spec(s@) == Some(v as int),
            None => parse_u16_spec(s@) is None,
        },
{
    let cs = chars_of(s);
    let n = cs.len();
    if n == 0 {
        return None;
    }
    if (cs[0] == '+' || cs[0] == '-') && n == 1 {
        return None;
    }
    let from: usize = if cs[0] == '+' {
        1
    } else {
        0
    };
    let ghost ds = cs@.subrange(from as int, n as int);
    assert(ds =~= if cs@[0] == '+' {
        s@.drop_first()
    } else {
        s@
    });
    match parse_magnitude(&cs, from, 0xffff) {
        Some(m) => Some(m as u16),
        None => None,
    }
}

/// Appends the decimal digits of `m` to `out`.
fn push_nat_text(out: &mut String, m: u64)
    ensures
        final(out)@ == old(out)@ + nat_text(m as nat),
    decreases m,
{
    if m >= 10 {
        push_nat_text(out, m / 10);
    }
    let d = (m % 10) as u8;
    let c = (48u8 + d) as char;
    push_char(out, c);
    assert(c == digit_char((m % 10) as nat));
    if m >= 10 {
        assert(nat_text(m as nat) == nat_text((m / 10) as nat).push(digit_char((m % 10) as nat)));
    }
}

/// The decimal text of `n`, as `i64::to_string` writes it.
pub fn format_i64(n: i64) -> (r: String)
    ensures
        r@ == int_text(n as int),
{
    let mut out = String::new();
    if n < 0 {
        push_char(&mut out, '-');
        let m: u64 = if n == i64::MIN {
            0x8000_0000_0000_0000
        } else {
            (-n) as u64
        };
        push_nat_text(&mut out, m);
    } else {
        push_nat_text(&mut out, n as u64);
    }
    out
}

proof fn lemma_nat_text_digits(n: nat)
    ensures
        all_digits(nat_text(n)),
        digits_value(nat_text(n)) == n,
        nat_text(n).len() > 0,
        nat_text(n)[0] != '+' && nat_text(n)[0] != '-',
    decreases n,
{
    let d = digit_char(n % 10);
    assert((('0' as u32) + n % 10) as char as u32 == ('0' as u32) + n % 10);
    assert(digit_value(d) == n % 10);
    if n < 10 {
        assert(nat_text(n).drop_last() =~= Seq::<char>::empty());
        assert(digits_value(Seq::<char>::empty()) == 0);
        assert(nat_text(n).last() == d);
        assert(digits_value(nat_text(n)) == digits_value(nat_text(n).drop_last()) * 10 + digit_value(d));
    } else {
        lemma_nat_text_digits(n / 10);
        let t = nat_text(n);
        assert(t.drop_last() =~= nat_text(n / 10));
        assert(t.last() == d);
        assert(n == (n / 10) * 10 + n % 10);
        assert(digits_value(t) == digits_value(t.drop_last()) * 10 + digit_value(d));
        assert(t[0] == nat_text(n / 10)[0]);
        assert forall|k: int| 0 <= k < t.len() implies is_digit(#[trigger] t[k]) by {
            if k < t.len() - 1 {
                assert(t[k] == nat_text(n / 10)[k]);
            }
        }
    }
}

/// Reading back what `format_i64` writes gives the same number: an id that
/// the list page writes into its filter form comes back unchanged when the
/// form is submitted.
pub proof fn law_parse_format_i64(n: i64)
    ensures
        parse_i64_spec(int_text(n as int)) == Some(n as int),
{
    let t = int_text(n as int);
    if n < 0 {
        let m = (-(n as int)) as nat;
        lemma_nat_text_digits(m);
        assert(t.drop_first() =~= nat_text(m));
        assert(t[0] == '-');
    } else {
        lemma_nat_text_digits(n as nat);
    }
}

} // verus!
