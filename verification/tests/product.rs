use clmul::{clmul, clmul_nosimd};

/// The coefficient of `x^k` in the product, counted pair by pair.
fn coefficient(a: u64, b: u64, k: u32) -> bool {
    let mut odd = false;
    for i in 0..64u32 {
        for j in 0..64u32 {
            if i + j == k && (a >> i) & 1 == 1 && (b >> j) & 1 == 1 {
                odd = !odd;
            }
        }
    }
    odd
}

/// A fixed sequence of well-mixed 64-bit words.
fn sample(count: usize) -> Vec<u64> {
    let mut state: u64 = 0x9E37_79B9_7F4A_7C15;
    let mut words = Vec::new();
    for _ in 0..count {
        state ^= state << 13;
        state ^= state >> 7;
        state ^= state << 17;
        words.push(state);
    }
    words
}

const BOUNDARY: [u64; 8] = [
    0,
    1,
    2,
    u32::MAX as u64,
    1 << 63,
    0x5555_5555_5555_5555,
    0xAAAA_AAAA_AAAA_AAAA,
    u64::MAX,
];

#[test]
fn test_clmul() {
    //let b=0b10001;
    //println!("b\t{:032b}",b);
    println!();
    for a in 0..16 {
        println!("{}", a);
        println!("a\t{:032b}\t{}", a, a);

        let c = clmul(a, a);
        println!("c\t{:032b}\t{}", c, c);
        let b = (a as u8).reverse_bits() as u64;
        let d = clmul(c as u64, b);
        println!("d\t{:032b}\t{}", d, d);
    }
}

#[test]
fn test_clmul_u8() {
    let result = clmul(2, 2);
    assert_eq!(result, 4);
}

#[test]
fn test_clmul_u32() {
    let result = clmul(u32::MAX as u64, u32::MAX as u64);
    assert_eq!(result, 6148914691236517205);
}

#[test]
fn test_clmul_u64() {
    let result = clmul(u64::MAX as u64, u64::MAX as u64);
    assert_eq!(result, 113427455640312821154458202477256070485);
}

#[test]
fn clmul_small_products() {
    // (x + 1)(x + 1) = x^2 + 1
    assert_eq!(clmul(0b11, 0b11), 0b101);
    // (x^2 + 1)(x + 1) = x^3 + x^2 + x + 1
    assert_eq!(clmul(0b101, 0b11), 0b1111);
    // (x^2 + x + 1)^2 = x^4 + x^2 + 1
    assert_eq!(clmul(0b111, 0b111), 0b10101);
    // where ordinary multiplication would carry: 3 * 3 = 9, 7 * 3 = 21
    assert_eq!(clmul(7, 3), 0b1001);
    assert_eq!(clmul(1 << 5, 1 << 9), 1 << 14);
}

#[test]
fn clmul_zero_on_either_side() {
    for &w in BOUNDARY.iter().chain(sample(64).iter()) {
        assert_eq!(clmul(0, w), 0);
        assert_eq!(clmul(w, 0), 0);
    }
}

#[test]
fn clmul_one_on_either_side() {
    assert_eq!(clmul(u64::MAX, 1), u64::MAX as u128);
    assert_eq!(clmul(u64::MAX, 1), 18446744073709551615);
    for &w in BOUNDARY.iter().chain(sample(64).iter()) {
        assert_eq!(clmul(w, 1), w as u128);
        assert_eq!(clmul(1, w), w as u128);
    }
}

#[test]
fn clmul_commutes() {
    let words = sample(200);
    for pair in words.chunks(2) {
        assert_eq!(clmul(pair[0], pair[1]), clmul(pair[1], pair[0]));
    }
    for &a in BOUNDARY.iter() {
        for &b in BOUNDARY.iter() {
            assert_eq!(clmul(a, b), clmul(b, a));
        }
    }
    assert_eq!(
        clmul(0xDEAD_BEEF, 0x1234_5678_9ABC_DEF0),
        clmul(0x1234_5678_9ABC_DEF0, 0xDEAD_BEEF)
    );
}

#[test]
fn clmul_top_bit_is_126() {
    assert_eq!(clmul(1 << 63, 1 << 63), 1 << 126);
    assert_eq!(clmul(u64::MAX, u64::MAX) >> 127, 0);
    assert_eq!(clmul(u64::MAX, u64::MAX) >> 126, 1);
    for pair in sample(200).chunks(2) {
        assert!(clmul(pair[0], pair[1]) < 1 << 127);
    }
    for &a in BOUNDARY.iter() {
        for &b in BOUNDARY.iter() {
            assert!(clmul(a, b) < 1 << 127);
        }
    }
}

#[test]
fn clmul_holds_each_coefficient() {
    let mut pairs: Vec<(u64, u64)> = sample(16).chunks(2).map(|p| (p[0], p[1])).collect();
    pairs.push((u64::MAX, u64::MAX));
    pairs.push((0b1011, 0b110));
    pairs.push((1 << 63, u64::MAX));
    for (a, b) in pairs {
        let product = clmul(a, b);
        for k in 0..128u32 {
            assert_eq!((product >> k) & 1 == 1, coefficient(a, b, k));
        }
    }
}

#[test]
fn every_path_returns_the_same_product() {
    let words = sample(2000);
    for pair in words.chunks(2) {
        assert_eq!(clmul(pair[0], pair[1]), clmul_nosimd(pair[0], pair[1]));
    }
    for &a in BOUNDARY.iter() {
        for &b in BOUNDARY.iter() {
            assert_eq!(clmul(a, b), clmul_nosimd(a, b));
        }
    }
    assert_eq!(clmul_nosimd(0, 0), 0);
    assert_eq!(clmul_nosimd(u64::MAX, u64::MAX), 113427455640312821154458202477256070485);
    assert_eq!(clmul_nosimd(u32::MAX as u64, u32::MAX as u64), 6148914691236517205);
    assert_eq!(clmul_nosimd(2, 2), 4);
}
