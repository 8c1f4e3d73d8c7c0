//! Decimal text of integers: printing (`to_string`) and parsing
//! (`str::parse`).
use vstd::prelude::*;
use crate::text::{before_first, chars_of, find, find_in, string_of};

verus! {

/// `c` is an ASCII decimal digit.
pub open spec fn is_digit(c: char) -> bool {
    '0' <= c <= '9'
}

/// The value of a string of decimal digits.
pub open spec fn digits_value(d: Seq<char>) -> int
    decreases d.len(),
{
    if d.len() == 0 {
        0
    } else {
        digits_value(d.drop_last()) * 10 + (d.last() as int - '0' as int)
    }
}

/// Every character of `d` is a decimal digit.
pub open spec fn all_digits(d: Seq<char>) -> bool {
    forall|i: int| 0 <= i < d.len() ==> is_digit(#[trigger] d[i])
}

/// The digit character of `d % 10`.
pub open spec fn digit_of(d: nat) -> char {
    ((d % 10) + 48) as char
}

/// The decimal text of a natural number, without leading zeros.
pub open spec fn decimal(n: nat) -> Seq<char>
    decreases n,
{
    if n < 10 {
        seq![digit_of(n)]
    } else {
        decimal(n / 10).push(digit_of(n % 10))
    }
}

/// The decimal text of an integer (`i64::to_string`): a minus sign for
/// negative values.
pub open spec fn decimal_int(v: int) -> Seq<char> {
    if v < 0 {
        seq!['-'] + decimal((-v) as nat)
    } else {
        decimal(v as nat)
    }
}

/// `str::parse::<i64>`: an optional sign, then at least one digit, with a
/// value in the range of `i64`.
pub open spec fn parse_i64(s: Seq<char>) -> Option<i64> {
    let neg = s.len() > 0 && s[0] == '-';
    let d = if s.len() > 0 && (s[0] == '-' || s[0] == '+') {
        s.drop_first()
    } else {
        s
    };
    let v = if neg {
        -digits_value(d)
    } else {
        digits_value(d)
    };
    if d.len() > 0 && all_digits(d) && i64::MIN <= v <= i64::MAX {
        Some(v as i64)
    } else {
        None
    }
}

/// A string of digits has a non-negative value.
proof fn lemma_digits_value_nonneg(d: Seq<char>)
    requires
        all_digits(d),
    ensures
        digits_value(d) >= 0,
    decreases d.len(),
{
    if d.len() > 0 {
        assert(all_digits(d.drop_last())) by {
            assert forall|i: int| 0 <= i < d.drop_last().len() implies is_digit(
                #[trigger] d.drop_last()[i],
            ) by {
                assert(d.drop_last()[i] == d[i]);
            }
        }
        lemma_digits_value_nonneg(d.drop_last());
        assert(is_digit(d[d.len() - 1]));
    }
}

/// The digit character of a value below ten.
fn digit_exec(d: u64) -> (c: char)
    requires
        d < 10,
    ensures
        c == digit_of(d as nat),
{
    let b: u8 = 48 + d as u8;
    b as char
}

/// Appends the decimal text of `n` to `out`.
pub fn push_decimal(out: &mut Vec<char>, n: u64)
    ensures
        final(out)@ == old(out)@ + decimal(n as nat),
    decreases n,
{
    if n >= 10 {
        push_decimal(out, n / 10);
    }
    out.push(digit_exec(n % 10));
    proof {
        if n >= 10 {
            assert(decimal(n as nat) == decimal((n / 10) as nat).push(digit_of((n % 10) as nat)));
        } else {
            assert(decimal(n as nat) == seq![digit_of(n as nat)]);
            assert(digit_of((n % 10) as nat) == digit_of(n as nat));
        }
    }
}

/// The decimal text of an unsigned number (`u64::to_string`).
pub fn u64_to_string(n: u64) -> (s: String)
    ensures
        s@ == decimal(n as nat),
{
    let mut out: Vec<char> = Vec::new();
    push_decimal(&mut out, n);
    assert(out@ =~= decimal(n as nat));
    string_of(&out)
}

/// The decimal text of a signed number (`i64::to_string`).
pub fn i64_to_string(v: i64) -> (s: String)
    ensures
        s@ == decimal_int(v as int),
{
    let mut out: Vec<char> = Vec::new();
    if v < 0 {
        out.push('-');
        let m: u64 = (-(v as i128)) as u64;
        push_decimal(&mut out, m);
        assert(out@ =~= seq!['-'] + decimal(m as nat));
    } else {
        push_decimal(&mut out, v as u64);
        assert(out@ =~= decimal(v as nat));
    }
    string_of(&out)
}

/// Parses `v[from..to]` as an `i64` (`str::parse::<i64>`).
pub fn parse_i64_range(v: &Vec<char>, from: usize, to: usize) -> (r: Option<i64>)
    requires
        from <= to <= v.len(),
    ensures
        r == parse_i64(v@.subrange(from as int, to as int)),
{
    let ghost s = v@.subrange(from as int, to as int);
    let neg = from < to && v[from] == '-';
    let start: usize = if from < to && (v[from] == '-' || v[from] == '+') {
        from + 1
    } else {
        from
    };
    let ghost d = if s.len() > 0 && (s[0] == '-' || s[0] == '+') {
        s.drop_first()
    } else {
        s
    };
    assert(d =~= v@.subrange(start as int, to as int));
    if start >= to {
        return None;
    }
    // `acc` holds the value read so far, capped just above the largest
    // magnitude an `i64` can take.
    let cap: u128 = 0x8000_0000_0000_0001;
    let mut acc: u128 = 0;
    let mut digits_only = true;
    let mut i = start;
    while i < to
        invariant
            from <= start <= i <= to <= v.len(),
            d == v@.subrange(start as int, to as int),
            cap == 0x8000_0000_0000_0001,
            digits_only == (forall|j: int| start <= j < i ==> is_digit(#[trigger] v@[j])),
            digits_only ==> digits_value(v@.subrange(start as int, i as int)) >= 0,
            digits_only ==> (digits_value(v@.subrange(start as int, i as int)) < cap ==> acc
                == digits_value(v@.subrange(start as int, i as int))),
            digits_only ==> (digits_value(v@.subrange(start as int, i as int)) >= cap ==> acc
                == cap),
            acc <= cap,
        decreases to - i,
    {
        let c = v[i];
        let ghost prefix = v@.subrange(start as int, i as int);
        assert(v@.subrange(start as int, i + 1).drop_last() =~= prefix);
        assert(v@.subrange(start as int, i + 1).last() == c);
        if '0' <= c && c <= '9' {
            let dv = (c as u32) - ('0' as u32);
            if acc < cap {
                acc = acc * 10 + dv as u128;
                if acc > cap {
                    acc = cap;
                }
            }
        } else {
            digits_only = false;
        }
        i += 1;
    }
    if !digits_only {
        proof {
            let j = choose|j: int| start <= j < to && !is_digit(#[trigger] v@[j]);
            assert(d[j - start] == v@[j]);
            assert(!all_digits(d));
        }
        return None;
    }
    assert(all_digits(d)) by {
        assert forall|j: int| 0 <= j < d.len() implies is_digit(#[trigger] d[j]) by {
            assert(d[j] == v@[start + j]);
        }
    }
    if neg {
        if acc <= 0x8000_0000_0000_0000 {
            let m: i128 = -(acc as i128);
            Some(m as i64)
        } else {
            None
        }
    } else {
        if acc <= 0x7fff_ffff_ffff_ffff {
            Some(acc as i64)
        } else {
            None
        }
    }
}

/// Parse Slack timestamp (e.g., "1234567890.123456") to Unix timestamp:
/// the whole seconds before the dot, or 0 where they do not parse.
pub fn parse_slack_ts(ts: &str) -> (t: i64)
    ensures
        t == (match parse_i64(before_first(ts@, seq!['.'])) {
            Some(v) => v,
            None => 0,
        }),
{
    let v = chars_of(ts);
    let dot = vec!['.'];
    assert(dot@ =~= seq!['.']);
    assert(v@.subrange(0, v.len() as int) =~= v@);
    let end = match find_in(&v, 0, v.len(), &dot) {
        Some(k) => k,
        None => v.len(),
    };
    proof {
        if find(v@, seq!['.']) is Some {
            crate::text::lemma_find_some(v@, seq!['.']);
        }
    }
    assert(v@.subrange(0, end as int) =~= before_first(ts@, seq!['.']));
    match parse_i64_range(&v, 0, end) {
        Some(x) => x,
        None => 0,
    }
}

} // verus!
