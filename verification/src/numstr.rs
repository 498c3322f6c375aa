//! Decimal text for the shell's integers.
//!
//! Variable values, exit statuses and arithmetic results travel through the
//! shell as decimal strings; these functions convert between `i64` and that
//! textual form, with the conversions pinned down by the spec functions
//! `i64_to_dec` and `parse_i64_spec`.

use vstd::prelude::*;
use vstd::wrapping::i64_specs;

verus! {

/// The decimal digit character for `d` (`0 <= d <= 9`).
pub open spec fn digit_char(d: int) -> char {
    if d == 0 { '0' }
    else if d == 1 { '1' }
    else if d == 2 { '2' }
    else if d == 3 { '3' }
    else if d == 4 { '4' }
    else if d == 5 { '5' }
    else if d == 6 { '6' }
    else if d == 7 { '7' }
    else if d == 8 { '8' }
    else { '9' }
}

/// Decimal expansion of a nonnegative integer, most significant digit first.
pub open spec fn nat_to_dec(n: int) -> Seq<char>
    decreases n,
{
    if n < 10 {
        seq![digit_char(n)]
    } else {
        nat_to_dec(n / 10) + seq![digit_char(n % 10)]
    }
}

/// Decimal expansion of an `i64` value, with a leading `-` when negative.
pub open spec fn i64_to_dec(n: int) -> Seq<char> {
    if n < 0 {
        seq!['-'] + nat_to_dec(-n)
    } else {
        nat_to_dec(n)
    }
}

pub open spec fn is_dec_digit(c: char) -> bool {
    '0' <= c && c <= '9'
}

pub open spec fn all_dec_digits(s: Seq<char>) -> bool {
    forall|i: int| 0 <= i < s.len() ==> is_dec_digit(#[trigger] s[i])
}

/// The value of a sequence of decimal digits.
pub open spec fn digits_val(s: Seq<char>) -> int
    decreases s.len(),
{
    if s.len() == 0 {
        0
    } else {
        digits_val(s.drop_last()) * 10 + (s.last() as int - '0' as int)
    }
}

/// What `str::parse::<i64>` accepts: an optional sign, then at least one
/// digit, nothing else, and a value in `i64`'s range; `None` otherwise.
pub open spec fn parse_i64_spec(s: Seq<char>) -> Option<int> {
    let ds = if s.len() > 0 && (s[0] == '-' || s[0] == '+') { s.skip(1) } else { s };
    let sign: int = if s.len() > 0 && s[0] == '-' { -1 } else { 1 };
    if ds.len() == 0 || !all_dec_digits(ds) {
        None
    } else {
        let v = sign * digits_val(ds);
        if i64::MIN <= v <= i64::MAX {
            Some(v)
        } else {
            None
        }
    }
}

fn digit_str(d: u64) -> (r: &'static str)
    requires
        d <= 9,
    ensures
        r@ =~= seq![digit_char(d as int)],
{
    proof {
        reveal_strlit("0");
        reveal_strlit("1");
        reveal_strlit("2");
        reveal_strlit("3");
        reveal_strlit("4");
        reveal_strlit("5");
        reveal_strlit("6");
        reveal_strlit("7");
        reveal_strlit("8");
        reveal_strlit("9");
    }
    match d {
        0 => "0",
        1 => "1",
        2 => "2",
        3 => "3",
        4 => "4",
        5 => "5",
        6 => "6",
        7 => "7",
        8 => "8",
        _ => "9",
    }
}

fn u64_to_string(n: u64) -> (s: String)
    ensures
        s@ =~= nat_to_dec(n as int),
    decreases n,
{
    if n < 10 {
        digit_str(n).to_owned()
    } else {
        let high = u64_to_string(n / 10);
        high.concat(digit_str(n % 10))
    }
}

/// Decimal rendering of `n`, equal to what `i64::to_string` produces.
pub fn i64_to_string(n: i64) -> (s: String)
    ensures
        s@ =~= i64_to_dec(n as int),
{
    if n >= 0 {
        u64_to_string(n as u64)
    } else {
        let m: u64 = if n == i64::MIN {
            9223372036854775808u64
        } else {
            (-n) as u64
        };
        proof {
            reveal_strlit("-");
            assert(m as int == -(n as int));
        }
        let mut s: String = "-".to_owned();
        s.append(u64_to_string(m).as_str());
        s
    }
}

proof fn lemma_digits_val_nonneg(s: Seq<char>)
    requires
        all_dec_digits(s),
    ensures
        digits_val(s) >= 0,
    decreases s.len(),
{
    if s.len() > 0 {
        assert(all_dec_digits(s.drop_last())) by {
            assert(forall|i: int| 0 <= i < s.len() - 1 ==> s.drop_last()[i] == #[trigger] s[i]);
        }
        lemma_digits_val_nonneg(s.drop_last());
    }
}

proof fn lemma_digits_val_monotone(s: Seq<char>, i: int)
    requires
        all_dec_digits(s),
        0 <= i <= s.len(),
    ensures
        digits_val(s.take(i)) <= digits_val(s),
    decreases s.len() - i,
{
    if i < s.len() {
        lemma_digits_val_monotone(s, i + 1);
        assert(s.take(i + 1).drop_last() =~= s.take(i));
        assert(s.take(i + 1).last() == s[i]);
        assert(all_dec_digits(s.take(i))) by {
            assert(forall|j: int| 0 <= j < i ==> s.take(i)[j] == #[trigger] s[j]);
        }
        lemma_digits_val_nonneg(s.take(i));
        assert(digits_val(s.take(i)) <= digits_val(s.take(i)) * 10 + (s[i] as int - '0' as int));
    } else {
        assert(s.take(i) =~= s);
    }
}

/// Parse a decimal digit run as a magnitude, refusing anything above
/// `2^63` so that either sign of the result fits an `i64`.
fn parse_magnitude(s: &str, start: usize) -> (r: Result<u64, ()>)
    requires
        start < s@.len() <= usize::MAX,
    ensures
        match r {
            Ok(v) => all_dec_digits(s@.skip(start as int)) && v as int == digits_val(
                s@.skip(start as int),
            ) && v <= 9223372036854775808u64,
            Err(()) => !all_dec_digits(s@.skip(start as int)) || digits_val(
                s@.skip(start as int),
            ) > 9223372036854775808,
        },
{
    let ghost ds = s@.skip(start as int);
    let len = s.unicode_len();
    let mut acc: u64 = 0;
    let mut i: usize = start;
    while i < len
        invariant
            start <= i <= len,
            len == s@.len() <= usize::MAX,
            ds == s@.skip(start as int),
            all_dec_digits(ds.take(i - start)),
            acc as int == digits_val(ds.take(i - start)),
            acc <= 9223372036854775808u64,
        decreases len - i,
    {
        let c = s.get_char(i);
        if !('0' <= c && c <= '9') {
            proof {
                assert(ds[i - start] == c);
            }
            return Err(());
        }
        let d: u64 = (c as u32) as u64 - 48;
        proof {
            assert(d == c as int - '0' as int);
            assert(ds.take(i - start + 1).drop_last() =~= ds.take(i - start));
            assert(ds.take(i - start + 1).last() == c);
        }
        if acc > (9223372036854775808u64 - d) / 10 {
            proof {
                assert(acc as int * 10 + d > 9223372036854775808);
                assert(all_dec_digits(ds.take(i - start + 1)));
                if all_dec_digits(ds) {
                    lemma_digits_val_monotone(ds, i - start + 1);
                    assert(digits_val(ds) > 9223372036854775808);
                }
            }
            return Err(());
        }
        acc = acc * 10 + d;
        i = i + 1;
        proof {
            assert(all_dec_digits(ds.take(i - start)));
        }
    }
    proof {
        assert(ds.take(len - start) =~= ds);
    }
    if start == len {
        Err(())
    } else {
        Ok(acc)
    }
}

/// The value of a digit run in 64-bit two's complement arithmetic: each
/// digit shifts the accumulator by ten and is added, wrapping — how the
/// shell reads an overlong literal.
pub open spec fn wrapped_digits_val(s: Seq<char>) -> i64
    decreases s.len(),
{
    if s.len() == 0 {
        0i64
    } else {
        i64_specs::wrapping_add(
            i64_specs::wrapping_mul(wrapped_digits_val(s.drop_last()), 10),
            (s.last() as int - '0' as int) as i64,
        )
    }
}

/// The wrapped value of a decimal literal with an optional leading `-`.
pub open spec fn wrapped_dec_val(s: Seq<char>) -> i64 {
    if s.len() > 0 && s[0] == '-' {
        i64_specs::wrapping_sub(0i64, wrapped_digits_val(s.skip(1)))
    } else {
        wrapped_digits_val(s)
    }
}

/// Read a decimal literal (an optional `-`, then digits) as an `i64`,
/// wrapping on overflow, per `wrapped_dec_val`.
pub fn parse_i64_wrapping(s: &str) -> (v: i64)
    requires
        s@.len() > 0,
        s@[0] == '-' ==> s@.len() >= 2,
        forall|i: int|
            (if s@[0] == '-' {
                1int
            } else {
                0int
            }) <= i < s@.len() ==> is_dec_digit(#[trigger] s@[i]),
    ensures
        v == wrapped_dec_val(s@),
{
    let len = s.unicode_len();
    let negative = s.get_char(0) == '-';
    let start: usize = if negative {
        1
    } else {
        0
    };
    let ghost ds = if negative {
        s@.skip(1)
    } else {
        s@
    };
    proof {
        if !negative {
            assert(s@.skip(0) =~= s@);
        }
    }
    let mut acc: i64 = 0;
    let mut i: usize = start;
    while i < len
        invariant
            start <= i <= len,
            start == if s@[0] == '-' {
                1int
            } else {
                0int
            },
            len == s@.len(),
            s@.len() > 0,
            ds == s@.skip(start as int),
            forall|j: int| start <= j < s@.len() ==> is_dec_digit(#[trigger] s@[j]),
            acc == wrapped_digits_val(ds.take(i - start)),
        decreases len - i,
    {
        let c = s.get_char(i);
        let d: i64 = ((c as u32) - 48) as i64;
        proof {
            assert(is_dec_digit(s@[i as int]));
            assert(ds.take(i - start + 1).drop_last() =~= ds.take(i - start));
            assert(ds.take(i - start + 1).last() == s@[i as int]);
        }
        acc = acc.wrapping_mul(10).wrapping_add(d);
        i = i + 1;
    }
    proof {
        assert(ds.take(len - start) =~= ds);
    }
    if negative {
        (0i64).wrapping_sub(acc)
    } else {
        acc
    }
}

/// Parse `s` as an `i64`, accepting exactly what `str::parse::<i64>` does.
pub fn parse_i64(s: &str) -> (r: Result<i64, ()>)
    ensures
        match r {
            Ok(v) => parse_i64_spec(s@) == Some(v as int),
            Err(()) => parse_i64_spec(s@) is None,
        },
{
    let len = s.unicode_len();
    if len == 0 {
        return Err(());
    }
    let first = s.get_char(0);
    let negative = first == '-';
    let has_sign = negative || first == '+';
    let start: usize = if has_sign { 1 } else { 0 };
    proof {
        if !has_sign {
            assert(s@.skip(0) =~= s@);
        }
    }
    if start >= len {
        return Err(());
    }
    let mag = match parse_magnitude(s, start) {
        Ok(v) => v,
        Err(()) => {
            proof {
                let ds = s@.skip(start as int);
                if all_dec_digits(ds) {
                    lemma_digits_val_nonneg(ds);
                    assert(digits_val(ds) > 9223372036854775808);
                    assert(1 * digits_val(ds) > i64::MAX) by (nonlinear_arith)
                        requires
                            digits_val(ds) > 9223372036854775808,
                    ;
                    assert(-1 * digits_val(ds) < i64::MIN) by (nonlinear_arith)
                        requires
                            digits_val(ds) > 9223372036854775808,
                    ;
                }
                assert(parse_i64_spec(s@) is None);
            }
            return Err(());
        },
    };
    proof {
        let ds = s@.skip(start as int);
        lemma_digits_val_nonneg(ds);
        assert(mag as int == digits_val(ds));
        if negative {
            assert(s@[0] == '-');
            assert(-1 * digits_val(ds) == -(mag as int));
        } else {
            assert(1 * digits_val(ds) == mag as int);
        }
    }
    if negative {
        if mag == 9223372036854775808u64 {
            Ok(i64::MIN)
        } else {
            Ok(-(mag as i64))
        }
    } else {
        if mag > 9223372036854775807u64 {
            proof {
                assert(digits_val(s@.skip(start as int)) > i64::MAX);
            }
            return Err(());
        }
        Ok(mag as i64)
    }
}

} // verus!
