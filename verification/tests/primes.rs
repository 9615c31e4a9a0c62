use balancebeam::primes::{factor_number, factors, integer_sqrt, is_prime};

#[test]
fn integer_square_roots() {
    assert_eq!(integer_sqrt(0), 0);
    assert_eq!(integer_sqrt(1), 1);
    assert_eq!(integer_sqrt(3), 1);
    assert_eq!(integer_sqrt(4), 2);
    assert_eq!(integer_sqrt(24), 4);
    assert_eq!(integer_sqrt(25), 5);
    assert_eq!(integer_sqrt(u32::MAX), 65535);
}

#[test]
fn zero_and_one_fail_the_quick_test() {
    assert!(!is_prime(0));
    assert!(!is_prime(1));
}

#[test]
fn primes_pass_the_quick_test() {
    for p in [2u32, 3, 5, 7, 11, 13, 17, 97, 7919, 65537, 4294967291] {
        assert!(is_prime(p), "{}", p);
    }
}

#[test]
fn sweep_stops_short_of_the_square_root() {
    // the divisors tried are 2 up to, not including, the integer square root
    assert!(is_prime(4));
    assert!(is_prime(6));
    assert!(is_prime(8));
    assert!(is_prime(9));
    assert!(is_prime(15));
    assert!(is_prime(25));
    assert!(!is_prime(10));
    assert!(!is_prime(12));
    assert!(!is_prime(16));
    assert!(!is_prime(21));
    assert!(!is_prime(27));
    assert!(!is_prime(49 * 2));
}

#[test]
fn factors_of_small_numbers() {
    assert_eq!(factors(0), Vec::<u32>::new());
    assert_eq!(factors(1), vec![1]);
    assert_eq!(factors(2), vec![2]);
    assert_eq!(factors(7), vec![7]);
    assert_eq!(factors(9), vec![9]);
    assert_eq!(factors(10), vec![2, 5]);
    assert_eq!(factors(12), vec![2, 2, 3]);
    assert_eq!(factors(16), vec![2, 2, 2, 2]);
    assert_eq!(factors(360), vec![2, 2, 2, 3, 3, 5]);
    assert_eq!(factors(1001), vec![7, 11, 13]);
}

#[test]
fn factorization_as_text() {
    assert_eq!(factor_number(1), "1 = 1");
    assert_eq!(factor_number(7), "7 = 7");
    assert_eq!(factor_number(12), "12 = 2 * 2 * 3");
    assert_eq!(factor_number(1001), "1001 = 7 * 11 * 13");
    assert_eq!(factor_number(6), "6 = 6");
    assert_eq!(factor_number(0), "0 = ");
}
