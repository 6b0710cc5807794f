//! Decimal text: parsing a path segment as an `i32` route parameter, and
//! rendering an `i32` for a JSON body.

use vstd::prelude::*;

verus! {

/// Whether `c` is a decimal digit.
pub open spec fn is_digit(c: char) -> bool {
    48 <= c as int <= 57
}

/// The numeric value of a decimal digit character.
pub open spec fn digit_val(c: char) -> int {
    c as int - 48
}

/// The value of an all-digit sequence read as decimal, most significant
/// digit first.
pub open spec fn digits_val(s: Seq<char>) -> int
    decreases s.len(),
{
    if s.len() == 0 {
        0
    } else {
        digits_val(s.drop_last()) * 10 + digit_val(s.last())
    }
}

/// Whether every character of `s` is a decimal digit.
pub open spec fn all_digits(s: Seq<char>) -> bool {
    forall|i: int| 0 <= i < s.len() ==> is_digit(#[trigger] s[i])
}

/// What `i32` decimal parsing accepts, and the value it yields: an optional
/// leading sign followed by one or more digits, the result within `i32`
/// range; anything else is rejected.
pub open spec fn parsed_i32(s: Seq<char>) -> Option<int> {
    let has_sign = s.len() > 0 && (s[0] == '+' || s[0] == '-');
    let mag = if has_sign {
        s.skip(1)
    } else {
        s
    };
    if mag.len() > 0 && all_digits(mag) {
        let v = if has_sign && s[0] == '-' {
            -digits_val(mag)
        } else {
            digits_val(mag)
        };
        if i32::MIN <= v <= i32::MAX {
            Some(v)
        } else {
            None
        }
    } else {
        None
    }
}

proof fn lemma_all_digits_prefix(s: Seq<char>, i: int)
    requires
        all_digits(s),
        0 <= i <= s.len(),
    ensures
        all_digits(s.take(i)),
{
    assert forall|k: int| 0 <= k < s.take(i).len() implies is_digit(#[trigger] s.take(i)[k]) by {
        assert(s.take(i)[k] == s[k]);
    }
}

proof fn lemma_digits_val_nonneg(s: Seq<char>)
    requires
        all_digits(s),
    ensures
        digits_val(s) >= 0,
    decreases s.len(),
{
    if s.len() > 0 {
        lemma_all_digits_prefix(s, s.len() - 1);
        assert(s.drop_last() =~= s.take(s.len() - 1));
        lemma_digits_val_nonneg(s.drop_last());
    }
}

/// One digit appended to the front part: the value is the old value times
/// ten plus the digit.
proof fn lemma_digits_val_step(s: Seq<char>, i: int)
    requires
        0 <= i < s.len(),
    ensures
        digits_val(s.take(i + 1)) == digits_val(s.take(i)) * 10 + digit_val(s[i]),
{
    assert(s.take(i + 1).drop_last() =~= s.take(i));
    assert(s.take(i + 1).last() == s[i]);
}

/// Reading further digits never shrinks the value: the value of the whole
/// sequence is at least the value of any all-digit prefix.
proof fn lemma_digits_val_extend(s: Seq<char>, i: int)
    requires
        all_digits(s),
        0 <= i <= s.len(),
    ensures
        digits_val(s) >= digits_val(s.take(i)),
    decreases s.len() - i,
{
    if i < s.len() {
        lemma_digits_val_step(s, i);
        lemma_all_digits_prefix(s, i);
        lemma_digits_val_nonneg(s.take(i));
        lemma_digits_val_extend(s, i + 1);
    } else {
        assert(s.take(i) =~= s);
    }
}

/// Parses `s` as a decimal `i32`, accepting exactly what `parsed_i32`
/// describes and returning exactly the value it gives.
#[verifier::rlimit(60)]
#[verifier::loop_isolation(false)]
pub fn parse_i32(s: &str) -> (r: Option<i32>)
    ensures
        match r {
            Some(v) => parsed_i32(s@) == Some(v as int),
            None => parsed_i32(s@) is None,
        },
{
    let n = s.unicode_len();
    if n == 0 {
        return None;
    }
    let c0 = s.get_char(0);
    let neg = c0 == '-';
    let has_sign = neg || c0 == '+';
    let start: usize = if has_sign {
        1
    } else {
        0
    };
    if start == n {
        return None;
    }
    let ghost mag = if has_sign {
        s@.skip(1)
    } else {
        s@
    };
    proof {
        assert(mag =~= s@.subrange(start as int, n as int));
    }
    let mut acc: u64 = 0;
    let mut i: usize = start;
    while i < n
        invariant
            n == s@.len(),
            start <= i <= n,
            acc <= 0x8000_0000,
            mag == (if has_sign {
                s@.skip(1)
            } else {
                s@
            }),
            mag == s@.subrange(start as int, n as int),
            all_digits(mag.take(i - start)),
            acc == digits_val(mag.take(i - start)),
        decreases n - i,
    {
        let c = s.get_char(i);
        proof {
            assert(mag[i - start] == s@[i as int]);
        }
        let code: u32 = c as u32;
        if code < 48 || code > 57 {
            proof {
                assert(!is_digit(mag[i - start]));
                assert(!all_digits(mag));
                assert(parsed_i32(s@) is None);
            }
            return None;
        }
        let d: u64 = (code - 48) as u64;
        acc = acc * 10 + d;
        proof {
            lemma_digits_val_step(mag, i - start);
            assert(mag.take(i - start + 1).drop_last() =~= mag.take(i - start));
            assert(all_digits(mag.take(i - start + 1))) by {
                assert forall|k: int| 0 <= k < i - start + 1 implies is_digit(
                    #[trigger] mag.take(i - start + 1)[k],
                ) by {
                    if k < i - start {
                        assert(mag.take(i - start + 1)[k] == mag.take(i - start)[k]);
                    } else {
                        assert(mag.take(i - start + 1)[k] == mag[i - start]);
                    }
                }
            }
        }
        if acc > 0x8000_0000 {
            proof {
                assert(acc == digits_val(mag.take(i - start + 1)));
                if all_digits(mag) {
                    lemma_digits_val_extend(mag, i - start + 1);
                    assert(digits_val(mag) > 0x8000_0000);
                }
                assert(parsed_i32(s@) is None);
            }
            return None;
        }
        i = i + 1;
    }
    proof {
        assert(mag.take(n - start) =~= mag);
    }
    if neg {
        if acc == 0x8000_0000 {
            Some(i32::MIN)
        } else {
            Some(0i32 - (acc as i32))
        }
    } else {
        if acc > 0x7FFF_FFFF {
            None
        } else {
            Some(acc as i32)
        }
    }
}

/// The digit character for one decimal digit value.
pub open spec fn digit_char(d: int) -> char {
    if d == 0 {
        '0'
    } else if d == 1 {
        '1'
    } else if d == 2 {
        '2'
    } else if d == 3 {
        '3'
    } else if d == 4 {
        '4'
    } else if d == 5 {
        '5'
    } else if d == 6 {
        '6'
    } else if d == 7 {
        '7'
    } else if d == 8 {
        '8'
    } else {
        '9'
    }
}

/// The decimal digits of a nonnegative integer, most significant first,
/// with no leading zero except for zero itself.
pub open spec fn dec_digits(n: int) -> Seq<char>
    decreases n,
{
    if n <= 9 {
        seq![digit_char(n)]
    } else {
        dec_digits(n / 10).push(digit_char(n % 10))
    }
}

/// The decimal rendering of an integer: a leading minus for negatives.
pub open spec fn dec_of(n: int) -> Seq<char> {
    if n < 0 {
        seq!['-'] + dec_digits(-n)
    } else {
        dec_digits(n)
    }
}

fn digit_str(d: u32) -> (r: &'static str)
    requires
        d <= 9,
    ensures
        r@ == seq![digit_char(d as int)],
{
    let r: &'static str = match d {
        0 => "0",
        1 => "1",
        2 => "2",
        3 => "3",
        4 => "4",
        5 => "5",
        6 => "6",
        7 => "7",
        8 => "8",
        _ => "9",
    };
    proof {
        reveal_strlit("0");
        reveal_strlit("1");
        reveal_strlit("2");
        reveal_strlit("3");
        reveal_strlit("4");
        reveal_strlit("5");
        reveal_strlit("6");
        reveal_strlit("7");
        reveal_strlit("8");
        reveal_strlit("9");
        assert(r@ =~= seq![digit_char(d as int)]);
    }
    r
}

/// Appends the decimal digits of `n` to `out`.
fn push_decimal_u32(out: &mut String, n: u32)
    ensures
        final(out)@ == old(out)@ + dec_digits(n as int),
    decreases n,
{
    if n >= 10 {
        push_decimal_u32(out, n / 10);
        out.append(digit_str(n % 10));
        proof {
            assert(final(out)@ =~= old(out)@ + dec_digits(n as int));
        }
    } else {
        out.append(digit_str(n));
        proof {
            assert(final(out)@ =~= old(out)@ + dec_digits(n as int));
        }
    }
}

/// Renders `n` in decimal, exactly as `dec_of` describes.
pub fn i32_dec_string(n: i32) -> (r: String)
    ensures
        r@ == dec_of(n as int),
{
    let mut out = String::new();
    if n < 0 {
        out.append("-");
        let wide: i64 = -(n as i64);
        proof {
            assert(0 < wide <= 0x8000_0000);
        }
        let m: u32 = wide as u32;
        push_decimal_u32(&mut out, m);
        proof {
            reveal_strlit("-");
            assert(out@ =~= dec_of(n as int));
        }
    } else {
        push_decimal_u32(&mut out, n as u32);
    }
    out
}

} // verus!
