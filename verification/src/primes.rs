//! Trial division: a quick test for primes and the splitting of a number
//! into its prime factors.

use crate::numerals::{decimal, push_decimal};
use vstd::arithmetic::div_mod::{lemma_fundamental_div_mod, lemma_mod_multiples_basic};
use vstd::prelude::*;
use vstd::string::StringExecFns;

verus! {

/// `n` is a prime number.
pub open spec fn is_prime_number(n: nat) -> bool {
    n >= 2 && forall|d: nat| 2 <= d < n ==> #[trigger] (n % d) != 0
}

/// `n` passes the quick test: it is greater than one, and none of the
/// numbers from 2 up to, but not including, the integer square root of `n`
/// divides it.
pub open spec fn passes_trial(n: nat) -> bool {
    n > 1 && forall|f: nat| 2 <= f && (f + 1) * (f + 1) <= n ==> #[trigger] (n % f) != 0
}

/// The product of the numbers in `fs`.
pub open spec fn product(fs: Seq<u32>) -> nat
    decreases fs.len(),
{
    if fs.len() == 0 {
        1
    } else {
        product(fs.drop_last()) * fs.last() as nat
    }
}

/// `fs` is in ascending order.
pub open spec fn ascending(fs: Seq<u32>) -> bool {
    forall|i: int, j: int| 0 <= i <= j < fs.len() ==> fs[i] <= fs[j]
}

/// `fs` is the splitting of `n` into prime factors, smallest first.
pub open spec fn is_factorization(n: nat, fs: Seq<u32>) -> bool {
    &&& product(fs) == n
    &&& ascending(fs)
    &&& forall|i: int| 0 <= i < fs.len() ==> is_prime_number(#[trigger] fs[i] as nat)
}

/// What [`factors`] gives for `n`: the number itself where it is one or
/// passes the quick test, nothing for zero, and otherwise its prime factors.
pub open spec fn is_factor_list(n: nat, fs: Seq<u32>) -> bool {
    if n == 1 || passes_trial(n) {
        fs == seq![n as u32]
    } else if n == 0 {
        fs.len() == 0
    } else {
        is_factorization(n, fs)
    }
}

/// The text of a product: the numbers of `fs` in decimal, ` * ` between them.
pub open spec fn product_text(fs: Seq<u32>) -> Seq<char>
    decreases fs.len(),
{
    if fs.len() == 0 {
        Seq::empty()
    } else if fs.len() == 1 {
        decimal(fs[0] as nat)
    } else {
        product_text(fs.drop_last()) + seq![' ', '*', ' '] + decimal(fs.last() as nat)
    }
}

/// The line that shows `n` as the product `fs`: `n`, ` = `, and the product.
pub open spec fn equation_text(n: nat, fs: Seq<u32>) -> Seq<char> {
    decimal(n) + seq![' ', '=', ' '] + product_text(fs)
}

/// Every prime passes the quick test.
pub proof fn lemma_primes_pass(n: nat)
    requires
        is_prime_number(n),
    ensures
        passes_trial(n),
{
    assert forall|f: nat| 2 <= f && (f + 1) * (f + 1) <= n implies #[trigger] (n % f) != 0 by {
        assert(f < n) by (nonlinear_arith)
            requires
                2 <= f,
                (f + 1) * (f + 1) <= n,
        ;
    }
}

/// The integer square root: the largest number whose square does not exceed `n`.
pub fn integer_sqrt(n: u32) -> (r: u32)
    ensures
        r * r <= n < (r + 1) * (r + 1),
{
    let mut r: u32 = 0;
    while next_square_fits(r, n)
        invariant
            r * r <= n,
            r <= 65535,
        decreases 65536 - r,
    {
        proof {
            assert(r < 65535) by (nonlinear_arith)
                requires
                    (r + 1) * (r + 1) <= n,
                    n <= 0xffff_ffff,
                    r <= 65535,
            ;
        }
        r += 1;
    }
    r
}

/// Whether the square of the number after `r` still does not exceed `n`.
fn next_square_fits(r: u32, n: u32) -> (fits: bool)
    requires
        r <= 65535,
    ensures
        fits == ((r + 1) * (r + 1) <= n),
{
    let next: u64 = r as u64 + 1;
    assert(next * next <= 0x1_0000_0000) by (nonlinear_arith)
        requires
            next <= 65536,
    ;
    next * next <= n as u64
}

/// The quick test for primes: trial division by the numbers from 2 up to,
/// but not including, the integer square root. Every prime passes; so do
/// the composites whose smallest factor the sweep stops short of.
pub fn is_prime(num: u32) -> (r: bool)
    ensures
        r == passes_trial(num as nat),
        is_prime_number(num as nat) ==> r,
{
    if num <= 1 {
        return false;
    }
    let root = integer_sqrt(num);
    let mut factor: u32 = 2;
    while factor < root
        invariant
            2 <= factor,
            num > 1,
            root * root <= num < (root + 1) * (root + 1),
            forall|f: nat| 2 <= f < factor ==> #[trigger] (num as nat % f) != 0,
        decreases root - factor,
    {
        if num % factor == 0 {
            proof {
                let f = factor as nat;
                assert((f + 1) * (f + 1) <= num) by (nonlinear_arith)
                    requires
                        f + 1 <= root,
                        root * root <= num,
                ;
                assert(f < num) by (nonlinear_arith)
                    requires
                        2 <= f,
                        (f + 1) * (f + 1) <= num,
                ;
                assert(num as nat % f == 0);
            }
            return false;
        }
        factor += 1;
    }
    proof {
        assert forall|f: nat| 2 <= f && (f + 1) * (f + 1) <= num implies #[trigger] (num as nat
            % f) != 0 by {
            assert(f < root) by (nonlinear_arith)
                requires
                    (f + 1) * (f + 1) <= num,
                    num < (root + 1) * (root + 1),
            ;
        }
        if is_prime_number(num as nat) {
            lemma_primes_pass(num as nat);
        }
    }
    true
}

/// A divisor of the quotient divides the dividend.
proof fn lemma_divisor_of_quotient(c: nat, f: nat, d: nat)
    requires
        f > 0,
        d > 0,
        c % f == 0,
        (c / f) % d == 0,
    ensures
        c % d == 0,
{
    lemma_fundamental_div_mod(c as int, f as int);
    lemma_fundamental_div_mod((c / f) as int, d as int);
    let k = (c / f) / d;
    assert(c == (f * k) * d) by (nonlinear_arith)
        requires
            c == f * (c / f) + c % f,
            c % f == 0,
            c / f == d * k + (c / f) % d,
            (c / f) % d == 0,
    ;
    lemma_mod_multiples_basic((f * k) as int, d as int);
}

/// A divisor of a divisor divides the number itself.
proof fn lemma_divisor_of_divisor(c: nat, f: nat, d: nat)
    requires
        f > 0,
        d > 0,
        c % f == 0,
        f % d == 0,
    ensures
        c % d == 0,
{
    lemma_fundamental_div_mod(c as int, f as int);
    lemma_fundamental_div_mod(f as int, d as int);
    let k = (c / f) * (f / d);
    assert(c == k * d) by (nonlinear_arith)
        requires
            c == f * (c / f) + c % f,
            c % f == 0,
            f == d * (f / d) + f % d,
            f % d == 0,
            k == (c / f) * (f / d),
    ;
    lemma_mod_multiples_basic(k as int, d as int);
}

/// One more factor multiplies the product by it.
proof fn lemma_product_split(fs: Seq<u32>, f: u32)
    ensures
        product(fs.push(f)) == product(fs) * f as nat,
{
    assert(fs.push(f).drop_last() =~= fs);
}

/// The factors of `num`: the number itself where it is one or passes the
/// quick test of [`is_prime`], and otherwise its prime factors, smallest
/// first, each as often as it divides the number.
pub fn factors(num: u32) -> (r: Vec<u32>)
    ensures
        is_factor_list(num as nat, r@),
{
    if num == 1 || is_prime(num) {
        let mut only: Vec<u32> = Vec::new();
        only.push(num);
        proof {
            assert(only@ =~= seq![num]);
        }
        return only;
    }
    if num == 0 {
        return Vec::new();
    }
    let mut found: Vec<u32> = Vec::new();
    let mut curr_num: u32 = num;
    let mut factor: u32 = 2;
    proof {
        assert(product(found@) == 1);
        assert(1 * curr_num as nat == num as nat);
    }
    while factor < num
        invariant
            2 <= factor <= num,
            curr_num >= 1,
            product(found@) * curr_num as nat == num as nat,
            ascending(found@),
            forall|i: int| 0 <= i < found@.len() ==> is_prime_number(#[trigger] found@[i] as nat),
            forall|i: int| 0 <= i < found@.len() ==> found@[i] < factor,
            forall|d: nat| 2 <= d < factor ==> #[trigger] (curr_num as nat % d) != 0,
        decreases num - factor,
    {
        while curr_num % factor == 0
            invariant
                2 <= factor < num,
                curr_num >= 1,
                product(found@) * curr_num as nat == num as nat,
                ascending(found@),
                forall|i: int|
                    0 <= i < found@.len() ==> is_prime_number(#[trigger] found@[i] as nat),
                forall|i: int| 0 <= i < found@.len() ==> found@[i] <= factor,
                forall|d: nat| 2 <= d < factor ==> #[trigger] (curr_num as nat % d) != 0,
            decreases curr_num,
        {
            proof {
                let c = curr_num as nat;
                let f = factor as nat;
                lemma_fundamental_div_mod(c as int, f as int);
                assert(c / f >= 1 && c / f < c) by (nonlinear_arith)
                    requires
                        c == f * (c / f) + c % f,
                        c % f == 0,
                        c >= 1,
                        f >= 2,
                ;
                assert forall|d: nat| 2 <= d < f implies #[trigger] (f % d) != 0 by {
                    if f % d == 0 {
                        lemma_divisor_of_divisor(c, f, d);
                    }
                }
                assert(is_prime_number(f));
                assert forall|d: nat| 2 <= d < f implies #[trigger] ((c / f) % d) != 0 by {
                    if (c / f) % d == 0 {
                        lemma_divisor_of_quotient(c, f, d);
                    }
                }
                lemma_product_split(found@, factor);
                assert(product(found@) * f * (c / f) == product(found@) * c) by (nonlinear_arith)
                    requires
                        c == f * (c / f),
                ;
            }
            found.push(factor);
            curr_num /= factor;
        }
        factor += 1;
    }
    proof {
        let c = curr_num as nat;
        if c > 1 {
            // what is left has no divisor below `num`, so it is `num` itself,
            // and `num` would be a prime
            assert(c <= num) by (nonlinear_arith)
                requires
                    product(found@) * c == num as nat,
                    c > 1,
                    num >= 1,
            ;
            if c < num {
                assert(c % c == 0) by (nonlinear_arith)
                    requires
                        c > 0,
                ;
                assert(false);
            }
            assert(is_prime_number(num as nat));
            lemma_primes_pass(num as nat);
            assert(false);
        }
        assert(product(found@) == num as nat) by (nonlinear_arith)
            requires
                product(found@) * c == num as nat,
                c == 1,
        ;
    }
    found
}

/// The line that shows `num` as the product of its factors, such as
/// `12 = 2 * 2 * 3`.
pub fn factor_number(num: u32) -> (r: String)
    ensures
        exists|fs: Seq<u32>| is_factor_list(num as nat, fs) && r@ == equation_text(num as nat, fs),
{
    let found = factors(num);
    let mut out = String::from_str("");
    proof {
        reveal_strlit("");
        reveal_strlit(" = ");
        reveal_strlit(" * ");
        assert(""@ =~= Seq::<char>::empty());
        assert(" = "@ =~= seq![' ', '=', ' ']);
        assert(" * "@ =~= seq![' ', '*', ' ']);
    }
    push_decimal(&mut out, num);
    out.append(" = ");
    let ghost head = out@;
    assert(head =~= decimal(num as nat) + seq![' ', '=', ' ']);
    let mut i: usize = 0;
    while i < found.len()
        invariant
            i <= found@.len(),
            out@ == head + product_text(found@.take(i as int)),
            " * "@ == seq![' ', '*', ' '],
        decreases found@.len() - i,
    {
        proof {
            assert(found@.take(i + 1).drop_last() =~= found@.take(i as int));
            assert(found@.take(i + 1).last() == found@[i as int]);
            if i == 0 {
                assert(found@.take(0).len() == 0);
                assert(found@.take(1)[0] == found@[0]);
            }
        }
        if i > 0 {
            out.append(" * ");
        }
        push_decimal(&mut out, found[i]);
        proof {
            if i > 0 {
                assert(out@ =~= head + (product_text(found@.take(i as int)) + seq![' ', '*', ' ']
                    + decimal(found@[i as int] as nat)));
            } else {
                assert(out@ =~= head + decimal(found@[0] as nat));
            }
        }
        i += 1;
    }
    proof {
        assert(found@.take(i as int) =~= found@);
    }
    out
}

} // verus!
