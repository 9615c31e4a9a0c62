//! Numbers and their digits: reading an unsigned number from its digits, in
//! any radix up to 36, and writing one out in decimal.

use vstd::prelude::*;
use vstd::string::StringExecFns;

verus! {

/// The value of a digit character: `0` to `9` count 0 to 9, and the letters
/// `a` to `z`, in either case, count 10 to 35. Other bytes are no digits.
pub open spec fn digit_of(b: u8) -> Option<nat> {
    if 48 <= b <= 57 {
        Some((b - 48) as nat)
    } else if 97 <= b <= 122 {
        Some((b - 97 + 10) as nat)
    } else if 65 <= b <= 90 {
        Some((b - 65 + 10) as nat)
    } else {
        None
    }
}

/// `b` is a digit of the given radix.
pub open spec fn is_digit(b: u8, radix: nat) -> bool {
    digit_of(b) matches Some(d) && d < radix
}

/// `s` is a numeral of the given radix: at least one digit, and digits only.
pub open spec fn is_numeral(s: Seq<u8>, radix: nat) -> bool {
    &&& s.len() > 0
    &&& forall|i: int| 0 <= i < s.len() ==> is_digit(#[trigger] s[i], radix)
}

/// The number that the digits of `s` spell, most significant digit first.
pub open spec fn value_of(s: Seq<u8>, radix: nat) -> nat
    decreases s.len(),
{
    if s.len() == 0 {
        0
    } else {
        value_of(s.drop_last(), radix) * radix + match digit_of(s.last()) {
            Some(d) => d,
            None => 0,
        }
    }
}

/// Reading more digits never makes the number smaller.
pub proof fn lemma_value_grows(s: Seq<u8>, radix: nat, i: int)
    requires
        0 <= i <= s.len(),
        radix >= 1,
    ensures
        value_of(s.take(i), radix) <= value_of(s, radix),
    decreases s.len() - i,
{
    if i < s.len() {
        lemma_value_grows(s, radix, i + 1);
        let longer = s.take(i + 1);
        assert(longer.drop_last() =~= s.take(i));
        let v = value_of(s.take(i), radix);
        assert(v <= v * radix) by (nonlinear_arith)
            requires
                radix >= 1,
        ;
    } else {
        assert(s.take(i) =~= s);
    }
}

/// The value of one digit, if `b` is a digit of the radix.
pub fn digit(b: u8, radix: u32) -> (r: Option<u32>)
    requires
        2 <= radix <= 36,
    ensures
        r is Some <==> is_digit(b, radix as nat),
        r matches Some(d) ==> digit_of(b) == Some(d as nat),
{
    let d: u32 = if 48 <= b && b <= 57 {
        (b - 48) as u32
    } else if 97 <= b && b <= 122 {
        (b - 97) as u32 + 10
    } else if 65 <= b && b <= 90 {
        (b - 65) as u32 + 10
    } else {
        return None;
    };
    if d < radix {
        Some(d)
    } else {
        None
    }
}

/// Reads `s` as an unsigned number of the given radix. The result is the
/// number exactly where `s` is a numeral whose value fits; everything else
/// (no digit at all, a byte that is no digit, a value too large) is `None`.
pub fn parse_unsigned(s: &[u8], radix: u32) -> (r: Option<usize>)
    requires
        2 <= radix <= 36,
    ensures
        r is Some <==> is_numeral(s@, radix as nat) && value_of(s@, radix as nat) <= usize::MAX,
        r matches Some(n) ==> n == value_of(s@, radix as nat),
{
    if s.len() == 0 {
        return None;
    }
    let base: usize = radix as usize;
    let mut acc: usize = 0;
    let mut i: usize = 0;
    while i < s.len()
        invariant
            i <= s@.len(),
            2 <= radix <= 36,
            base == radix,
            acc == value_of(s@.take(i as int), radix as nat),
            forall|j: int| 0 <= j < i ==> is_digit(#[trigger] s@[j], radix as nat),
        decreases s@.len() - i,
    {
        proof {
            assert(s@.take(i + 1).drop_last() =~= s@.take(i as int));
            lemma_value_grows(s@, radix as nat, i + 1);
        }
        match digit(s[i], radix) {
            None => {
                return None;
            },
            Some(d) => {
                if acc > (usize::MAX - d as usize) / base {
                    proof {
                        let a = acc as int;
                        let b = base as int;
                        let m = usize::MAX as int;
                        let dd = d as int;
                        assert(a * b + dd > m) by (nonlinear_arith)
                            requires
                                a > (m - dd) / b,
                                b > 0,
                                m - dd >= 0,
                        ;
                    }
                    return None;
                }
                proof {
                    let a = acc as int;
                    let b = base as int;
                    let m = usize::MAX as int;
                    let dd = d as int;
                    assert(a * b + dd <= m) by (nonlinear_arith)
                        requires
                            a <= (m - dd) / b,
                            b > 0,
                            m - dd >= 0,
                            a >= 0,
                    ;
                }
                acc = acc * base + d as usize;
            },
        }
        i += 1;
    }
    proof {
        assert(s@.take(i as int) =~= s@);
    }
    Some(acc)
}

/// The character of a decimal digit.
pub open spec fn digit_char(d: nat) -> char
    recommends
        d < 10,
{
    if d == 0 {
        '0'
    } else if d == 1 {
        '1'
    } else if d == 2 {
        '2'
    } else if d == 3 {
        '3'
    } else if d == 4 {
        '4'
    } else if d == 5 {
        '5'
    } else if d == 6 {
        '6'
    } else if d == 7 {
        '7'
    } else if d == 8 {
        '8'
    } else {
        '9'
    }
}

/// The decimal numeral of `n`, without leading zeros.
pub open spec fn decimal(n: nat) -> Seq<char>
    decreases n,
{
    if n < 10 {
        seq![digit_char(n)]
    } else {
        decimal(n / 10).push(digit_char(n % 10))
    }
}

/// The one-character text of a decimal digit.
fn digit_text(d: u32) -> (r: &'static str)
    requires
        d < 10,
    ensures
        r@ == seq![digit_char(d as nat)],
{
    proof {
        reveal_strlit("0");
        reveal_strlit("1");
        reveal_strlit("2");
        reveal_strlit("3");
        reveal_strlit("4");
        reveal_strlit("5");
        reveal_strlit("6");
        reveal_strlit("7");
        reveal_strlit("8");
        reveal_strlit("9");
    }
    let r = if d == 0 {
        "0"
    } else if d == 1 {
        "1"
    } else if d == 2 {
        "2"
    } else if d == 3 {
        "3"
    } else if d == 4 {
        "4"
    } else if d == 5 {
        "5"
    } else if d == 6 {
        "6"
    } else if d == 7 {
        "7"
    } else if d == 8 {
        "8"
    } else {
        "9"
    };
    assert(r@ =~= seq![digit_char(d as nat)]);
    r
}

/// Appends the decimal numeral of `n` to `out`.
pub fn push_decimal(out: &mut String, n: u32)
    ensures
        final(out)@ == old(out)@ + decimal(n as nat),
    decreases n,
{
    if n >= 10 {
        push_decimal(out, n / 10);
    }
    out.append(digit_text(n % 10));
    proof {
        if n >= 10 {
            assert(old(out)@ + decimal(n as nat / 10) + seq![digit_char(n as nat % 10)] =~= old(
                out,
            )@ + decimal(n as nat));
        }
    }
}

} // verus!
