//! Decimal formatting and parsing of the integers carried by the attribute
//! tree, verified against a mathematical model and proved to round-trip.

use vstd::prelude::*;
use vstd::string::StringExecFns;

verus! {

/// Whether the character is a decimal digit.
pub open spec fn is_digit_char(c: char) -> bool {
    '0' <= c <= '9'
}

/// The value of a decimal digit character.
pub open spec fn digit_val(c: char) -> int {
    c as int - 48
}

/// The decimal digit character of a value in `0..10`.
pub open spec fn digit_char(d: int) -> char {
    if d == 0 {
        '0'
    } else if d == 1 {
        '1'
    } else if d == 2 {
        '2'
    } else if d == 3 {
        '3'
    } else if d == 4 {
        '4'
    } else if d == 5 {
        '5'
    } else if d == 6 {
        '6'
    } else if d == 7 {
        '7'
    } else if d == 8 {
        '8'
    } else {
        '9'
    }
}

/// Whether every character of the sequence is a decimal digit.
pub open spec fn all_digits(cs: Seq<char>) -> bool {
    forall|i: int| 0 <= i < cs.len() ==> is_digit_char(#[trigger] cs[i])
}

/// The value of a sequence of decimal digits, most significant first.
pub open spec fn digits_value(cs: Seq<char>) -> int
    decreases cs.len(),
{
    if cs.len() == 0 {
        0
    } else {
        digits_value(cs.drop_last()) * 10 + digit_val(cs.last())
    }
}

/// The canonical decimal digits of a natural number.
pub open spec fn nat_to_digits(n: nat) -> Seq<char>
    decreases n,
{
    if n < 10 {
        seq![digit_char(n as int)]
    } else {
        nat_to_digits(n / 10).push(digit_char((n % 10) as int))
    }
}

/// The canonical decimal form of an integer: a minus sign followed by the
/// magnitude's digits for negative numbers, the plain digits otherwise.
pub open spec fn int_to_chars(n: int) -> Seq<char> {
    if n < 0 {
        seq!['-'] + nat_to_digits((-n) as nat)
    } else {
        nat_to_digits(n as nat)
    }
}

/// The number denoted by a sequence of characters: an optional sign followed
/// by at least one digit, and the value must fit a 32-bit integer.
pub open spec fn spec_parse_i32(cs: Seq<char>) -> Option<i32> {
    if cs.len() == 0 {
        None
    } else {
        let neg = cs[0] == '-';
        let signed = cs[0] == '-' || cs[0] == '+';
        let ds = if signed {
            cs.drop_first()
        } else {
            cs
        };
        if ds.len() == 0 || !all_digits(ds) {
            None
        } else {
            let v = digits_value(ds);
            let sv = if neg {
                -v
            } else {
                v
            };
            if -2147483648 <= sv <= 2147483647 {
                Some(sv as i32)
            } else {
                None
            }
        }
    }
}

/// The canonical digits of a number are all digit characters.
pub proof fn lemma_nat_digits_are_digits(n: nat)
    ensures
        all_digits(nat_to_digits(n)),
        nat_to_digits(n).len() >= 1,
        nat_to_digits(n)[0] != '-' && nat_to_digits(n)[0] != '+',
    decreases n,
{
    if n < 10 {
    } else {
        lemma_nat_digits_are_digits(n / 10);
        let prev = nat_to_digits(n / 10);
        assert forall|i: int| 0 <= i < prev.push(digit_char((n % 10) as int)).len() implies
            is_digit_char(#[trigger] prev.push(digit_char((n % 10) as int))[i]) by {
            if i < prev.len() {
                assert(prev.push(digit_char((n % 10) as int))[i] == prev[i]);
            }
        }
    }
}

/// Reading back the canonical digits of a number yields the number.
pub proof fn lemma_digits_value_roundtrip(n: nat)
    ensures
        digits_value(nat_to_digits(n)) == n,
    decreases n,
{
    if n < 10 {
        assert(nat_to_digits(n).drop_last() =~= Seq::<char>::empty());
        assert(digits_value(nat_to_digits(n)) == digits_value(Seq::<char>::empty()) * 10
            + digit_val(digit_char(n as int)));
        assert(digit_val(digit_char(n as int)) == n);
    } else {
        lemma_digits_value_roundtrip(n / 10);
        let prev = nat_to_digits(n / 10);
        let whole = prev.push(digit_char((n % 10) as int));
        assert(whole.drop_last() =~= prev);
        assert(digits_value(whole) == digits_value(prev) * 10 + digit_val(
            digit_char((n % 10) as int),
        ));
    }
}

/// Parsing the canonical decimal form of a 32-bit integer yields the integer
/// back.
pub proof fn lemma_parse_format_roundtrip(n: int)
    requires
        -2147483648 <= n <= 2147483647,
    ensures
        spec_parse_i32(int_to_chars(n)) == Some(n as i32),
{
    if n < 0 {
        let m = (-n) as nat;
        lemma_nat_digits_are_digits(m);
        lemma_digits_value_roundtrip(m);
        let cs = seq!['-'] + nat_to_digits(m);
        assert(cs[0] == '-');
        assert(cs.drop_first() =~= nat_to_digits(m));
    } else {
        let m = n as nat;
        lemma_nat_digits_are_digits(m);
        lemma_digits_value_roundtrip(m);
        let cs = nat_to_digits(m);
        assert(!(cs[0] == '-' || cs[0] == '+'));
    }
}

/// The single-character string of a decimal digit.
fn digit_str(d: u64) -> (r: &'static str)
    requires
        d < 10,
    ensures
        r@ =~= seq![digit_char(d as int)],
        vstd::string::is_ascii(r),
{
    proof {
        reveal_strlit("0");
        reveal_strlit("1");
        reveal_strlit("2");
        reveal_strlit("3");
        reveal_strlit("4");
        reveal_strlit("5");
        reveal_strlit("6");
        reveal_strlit("7");
        reveal_strlit("8");
        reveal_strlit("9");
    }
    match d {
        0 => "0",
        1 => "1",
        2 => "2",
        3 => "3",
        4 => "4",
        5 => "5",
        6 => "6",
        7 => "7",
        8 => "8",
        _ => "9",
    }
}

/// The canonical decimal digits of a natural number, as a string.
fn format_u64(m: u64) -> (s: String)
    ensures
        s@ == nat_to_digits(m as nat),
    decreases m,
{
    if m < 10 {
        digit_str(m).to_owned()
    } else {
        let mut s = format_u64(m / 10);
        s.append(digit_str(m % 10));
        s
    }
}

/// The canonical decimal form of a 32-bit integer, as a string.
pub fn format_i32(n: i32) -> (s: String)
    ensures
        s@ == int_to_chars(n as int),
{
    if n < 0 {
        let m: u64 = (-(n as i64)) as u64;
        let mut s = String::new();
        proof {
            reveal_strlit("-");
        }
        s.append("-");
        let digits = format_u64(m);
        s.append(digits.as_str());
        proof {
            assert(s@ =~= int_to_chars(n as int));
        }
        s
    } else {
        format_u64(n as u64)
    }
}

/// A sequence that contains a character beyond the ASCII range denotes no
/// number.
proof fn lemma_nonascii_parse_none(cs: Seq<char>)
    requires
        !vstd::utf8::is_ascii_chars(cs),
    ensures
        spec_parse_i32(cs) is None,
{
    let i = choose|i: int| 0 <= i < cs.len() && !('\0' <= #[trigger] cs[i] <= '\u{7f}');
    if cs.len() == 0 {
    } else {
        let signed = cs[0] == '-' || cs[0] == '+';
        let ds = if signed {
            cs.drop_first()
        } else {
            cs
        };
        if ds.len() == 0 {
        } else {
            if signed {
                assert(!is_digit_char(ds[i - 1]));
            } else {
                assert(!is_digit_char(ds[i]));
            }
        }
    }
}

/// Parses a decimal integer: an optional sign followed by at least one digit,
/// with the value required to fit a 32-bit integer (see [`spec_parse_i32`]).
pub fn parse_i32(s: &str) -> (r: Option<i32>)
    ensures
        r == spec_parse_i32(s@),
{
    if !s.is_ascii() {
        proof {
            lemma_nonascii_parse_none(s@);
        }
        return None;
    }
    proof {
        vstd::string::is_ascii_spec_bytes(s);
    }
    let bytes = s.as_bytes();
    let n = bytes.len();
    if n == 0 {
        return None;
    }
    let b0 = *vstd::slice::slice_index_get(bytes, 0);
    proof {
        assert('\0' <= s@[0] <= '\u{7f}');
        assert((s@[0] == '-') == (b0 == 45));
        assert((s@[0] == '+') == (b0 == 43));
    }
    let neg = b0 == 45;
    let signed = b0 == 45 || b0 == 43;
    let start: usize = if signed {
        1
    } else {
        0
    };
    let ghost ds: Seq<char> = if signed {
        s@.drop_first()
    } else {
        s@
    };
    if n - start == 0 {
        return None;
    }
    let cap: i64 = 3_000_000_000;
    let mut acc: i64 = 0;
    let mut i: usize = start;
    while i < n
        invariant
            start <= i <= n,
            n == s@.len(),
            n >= 1,
            neg == (s@[0] == '-'),
            (s@[0] == '-' || s@[0] == '+') <==> start == 1,
            0 <= start <= 1,
            ds == (if s@[0] == '-' || s@[0] == '+' {
                s@.drop_first()
            } else {
                s@
            }),
            ds.len() == n - start,
            ds.len() >= 1,
            cap == 3_000_000_000,
            bytes@.len() == n,
            forall|j: int| 0 <= j < n ==> #[trigger] bytes@[j] == s@[j] as u8,
            vstd::utf8::is_ascii_chars(s@),
            all_digits(ds.take(i - start)),
            0 <= acc <= cap,
            acc == (if digits_value(ds.take(i - start)) > cap {
                cap as int
            } else {
                digits_value(ds.take(i - start))
            }),
        decreases n - i,
    {
        let b = *vstd::slice::slice_index_get(bytes, i);
        proof {
            assert(s@[i as int] as u8 == b);
            assert('\0' <= s@[i as int] <= '\u{7f}');
            assert(ds[i - start] == s@[i as int]);
        }
        if !(48 <= b && b <= 57) {
            proof {
                assert(!is_digit_char(ds[i - start]));
                assert(!all_digits(ds));
            }
            return None;
        }
        proof {
            assert(acc * 10 + 9 < 0x7000_0000_0000_0000) by (nonlinear_arith)
                requires
                    0 <= acc <= 3_000_000_000,
            ;
        }
        let d = (b - 48) as i64;
        proof {
            assert(is_digit_char(ds[i - start]));
            assert(digit_val(ds[i - start]) == d);
            assert(ds.take(i - start + 1) =~= ds.take(i - start).push(ds[i - start]));
            lemma_digits_value_monotone(ds.take(i - start), ds[i - start]);
        }
        if acc >= cap {
            acc = cap;
        } else {
            let next = acc * 10 + d;
            acc = if next > cap {
                cap
            } else {
                next
            };
        }
        i = i + 1;
    }
    proof {
        assert(ds.take(n - start) =~= ds);
    }
    let value_neg_ok = acc <= 2147483648;
    let value_pos_ok = acc <= 2147483647;
    if neg {
        if value_neg_ok {
            Some((-acc) as i32)
        } else {
            None
        }
    } else {
        if value_pos_ok {
            Some(acc as i32)
        } else {
            None
        }
    }
}

/// Extending a digit sequence never lowers its value.
proof fn lemma_digits_value_monotone(cs: Seq<char>, c: char)
    requires
        all_digits(cs),
        is_digit_char(c),
    ensures
        digits_value(cs.push(c)) == digits_value(cs) * 10 + digit_val(c),
        digits_value(cs.push(c)) >= digits_value(cs),
        digits_value(cs) >= 0,
    decreases cs.len(),
{
    assert(cs.push(c).drop_last() =~= cs);
    lemma_digits_value_nonneg(cs);
    assert(digits_value(cs) * 10 >= digits_value(cs)) by (nonlinear_arith)
        requires
            digits_value(cs) >= 0,
    ;
}

/// A digit sequence denotes a non-negative value.
proof fn lemma_digits_value_nonneg(cs: Seq<char>)
    requires
        all_digits(cs),
    ensures
        digits_value(cs) >= 0,
    decreases cs.len(),
{
    if cs.len() > 0 {
        assert(all_digits(cs.drop_last())) by {
            assert(forall|i: int|
                0 <= i < cs.len() - 1 ==> #[trigger] cs.drop_last()[i] == cs[i]);
        }
        lemma_digits_value_nonneg(cs.drop_last());
        assert(digits_value(cs.drop_last()) * 10 >= 0) by (nonlinear_arith)
            requires
                digits_value(cs.drop_last()) >= 0,
        ;
    }
}

} // verus!
