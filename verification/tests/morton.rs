use clmul::clmul;
use clmul::morton::{dilate, dilate_magic, morton_encode, morton_encode_magic};

/// The word made of every second bit of `code`, starting at bit `from`.
fn every_second_bit(code: u128, from: u32) -> u64 {
    let mut word: u64 = 0;
    for i in 0..64u32 {
        if (code >> (2 * i + from)) & 1 == 1 {
            word |= 1 << i;
        }
    }
    word
}

const COORDINATES: [u64; 10] = [
    0,
    1,
    543,
    23765,
    0xFFFF,
    0x1_0000,
    u32::MAX as u64,
    1 << 63,
    0x0123_4567_89AB_CDEF,
    u64::MAX,
];

#[test]
fn test_dilate() {
    let input = 0b1101;
    let expected = 0b1010001;
    let res = dilate(input);
    assert_eq!(res, expected);
}

#[test]
fn test_morton_encode() {
    let x = 543;
    let y = 23765;
    let res = morton_encode(x, y);
    let res_magic = morton_encode_magic(x, y);
    println!("X {:032b}", x);
    println!("Y {:032b}", y);
    println!("R {:032b}", res);
    println!("M {:032b}", res_magic);

    let roundtrip: [u32; 2] = morton_encoding::morton_decode(res as u64);
    println!("Rt {:?}", roundtrip);

    //https://graphics.stanford.edu/~seander/bithacks.html#InterleaveTableObvious
}

#[test]
fn test_morton_decode() {
    let input = 992;
    let output: [u8; 5] = morton_encoding::morton_decode(input);
    assert_eq!(output, [2u8; 5]);
    let input = [543u32, 23765];
    let encoded_input: u64 = morton_encoding::morton_encode(input);
    let reassembled_input: [u32; 2] = morton_encoding::morton_decode(encoded_input);
    assert_eq!(input, reassembled_input);
}

#[test]
fn test_decode() {
    let b = [0x55555555u32, 0x33333333, 0x0F0F0F0F, 0x00FF00FF];

    let mut x = 0b1111_1111_1111_1111;
    for (i, b) in b.iter().enumerate().rev() {
        let s = 1 << i;
        println!("{}: s={}", i, s);
        println!("x=     {:032b}", x);
        println!("x<<s=  {:032b}", x << s);
        println!("x|x<<s={:032b}", (x << s) | x);
        println!("b=     {:032b}", b);
        let x = (x | (x << s)) & b;
        println!("x'=    {:032b}", x);
    }
}

#[test]
fn dilate_edges() {
    assert_eq!(dilate(0), 0);
    assert_eq!(dilate(1), 1);
    assert_eq!(dilate(0b11), 0b101);
    assert_eq!(dilate(0xFF), 0x5555);
    assert_eq!(dilate(1 << 63), 1 << 126);
    assert_eq!(dilate(u64::MAX), 0x5555_5555_5555_5555_5555_5555_5555_5555);
}

#[test]
fn dilate_is_the_square() {
    for &x in COORDINATES.iter() {
        assert_eq!(dilate(x), clmul(x, x));
    }
}

#[test]
fn dilate_sets_even_positions_only() {
    for &x in COORDINATES.iter() {
        let d = dilate(x);
        assert_eq!(d & 0xAAAA_AAAA_AAAA_AAAA_AAAA_AAAA_AAAA_AAAA, 0);
        assert_eq!(every_second_bit(d, 0), x);
    }
}

#[test]
fn morton_encode_places_x_low_and_y_high() {
    assert_eq!(morton_encode(1, 0), 0b01);
    assert_eq!(morton_encode(0, 1), 0b10);
    assert_eq!(morton_encode(0b11, 0b00), 0b0101);
    assert_eq!(morton_encode(0b00, 0b11), 0b1010);
    assert_eq!(morton_encode(0b10, 0b01), 0b0110);
    assert_eq!(morton_encode(543, 23765), 581215095);
    assert_eq!(morton_encode(u64::MAX, 0), 0x5555_5555_5555_5555_5555_5555_5555_5555);
    assert_eq!(morton_encode(0, u64::MAX), 0xAAAA_AAAA_AAAA_AAAA_AAAA_AAAA_AAAA_AAAA);
    assert_eq!(morton_encode(u64::MAX, u64::MAX), u128::MAX);
    assert_eq!(morton_encode(0, 0), 0);
}

#[test]
fn morton_encode_is_shift_or_of_dilations() {
    for &x in COORDINATES.iter() {
        for &y in COORDINATES.iter() {
            assert_eq!(morton_encode(x, y), (dilate(y) << 1) | dilate(x));
        }
    }
}

#[test]
fn morton_round_trip() {
    assert_eq!(every_second_bit(morton_encode(543, 23765), 0), 543);
    assert_eq!(every_second_bit(morton_encode(543, 23765), 1), 23765);
    for &x in COORDINATES.iter() {
        for &y in COORDINATES.iter() {
            let code = morton_encode(x, y);
            assert_eq!([every_second_bit(code, 0), every_second_bit(code, 1)], [x, y]);
        }
    }
}

#[test]
fn morton_round_trip_through_another_decoder() {
    // That decoder lists the coordinate of the odd positions first.
    let narrow: [u32; 2] = morton_encoding::morton_decode(morton_encode(543, 23765) as u64);
    assert_eq!(narrow, [23765, 543]);
    for &x in COORDINATES.iter() {
        for &y in COORDINATES.iter() {
            let wide: [u64; 2] = morton_encoding::morton_decode(morton_encode(x, y));
            assert_eq!(wide, [y, x]);
            if x <= u32::MAX as u64 && y <= u32::MAX as u64 {
                let narrow: [u32; 2] = morton_encoding::morton_decode(morton_encode(x, y) as u64);
                assert_eq!(narrow, [y as u32, x as u32]);
            }
        }
    }
}

#[test]
fn morton_distinct_pairs_have_distinct_codes() {
    let mut codes = Vec::new();
    for x in 0..32u64 {
        for y in 0..32u64 {
            codes.push(morton_encode(x, y));
        }
    }
    codes.sort();
    for (i, &code) in codes.iter().enumerate() {
        assert_eq!(code, i as u128);
    }
}

#[test]
fn morton_keeps_squares_together() {
    assert_eq!(morton_encode(543, 23765) >> 8, morton_encode(543 >> 4, 23765 >> 4));
    for &x in COORDINATES.iter() {
        for &y in COORDINATES.iter() {
            for s in [0u32, 1, 7, 31, 63] {
                assert_eq!(morton_encode(x, y) >> (2 * s), morton_encode(x >> s, y >> s));
            }
        }
    }
}

#[test]
fn dilate_magic_known_values() {
    assert_eq!(dilate_magic(0), 0);
    assert_eq!(dilate_magic(1), 1);
    assert_eq!(dilate_magic(0b11), 0b101);
    assert_eq!(dilate_magic(0b1101), 0b1010001);
    assert_eq!(dilate_magic(0xFF), 0x5555);
    assert_eq!(dilate_magic(0x8000), 0x4000_0000);
    assert_eq!(dilate_magic(0xFFFF), 0x5555_5555);
}

#[test]
fn dilate_magic_equals_dilate_on_16_bits() {
    for x in 0..=0xFFFFu64 {
        assert_eq!(dilate_magic(x) as u128, dilate(x));
        assert_eq!(dilate_magic(x), dilate(x) as u64);
    }
}

#[test]
fn dilate_magic_loses_wider_input() {
    // bits 16 to 23 fall onto bits 8 to 15
    assert_eq!(dilate_magic(0x1_0000), dilate_magic(0x0100));
    assert_eq!(dilate_magic(0x1_0000), 0x1_0000);
    assert_eq!(dilate_magic(0xAB_0000), dilate_magic(0xAB00));
    assert_eq!(dilate_magic(0x12_34_56), dilate_magic(0x36_56));
    // bits from 24 upward are dropped
    assert_eq!(dilate_magic(0x100_0000), 0);
    assert_eq!(dilate_magic(u64::MAX), 0x5555_5555);
    assert_eq!(dilate_magic(0xFFFF_FFFF_FF00_0000), 0);
    assert_eq!(dilate_magic(0x0123_4567_89AB_CDEF), dilate_magic(0xEFEF) as u64);
    // where the two differ
    assert_ne!(dilate_magic(0x1_0000) as u128, dilate(0x1_0000));
    for &x in COORDINATES.iter() {
        let window = (x & 0xFF) | ((((x >> 8) | (x >> 16)) & 0xFF) << 8);
        assert_eq!(dilate_magic(x) as u128, dilate(window));
        assert!(dilate_magic(x) <= 0x5555_5555);
    }
}

#[test]
fn morton_encode_magic_equals_morton_encode_on_16_bits() {
    assert_eq!(morton_encode_magic(543, 23765), 581215095);
    assert_eq!(morton_encode_magic(543, 23765) as u128, morton_encode(543, 23765));
    assert_eq!(morton_encode_magic(0xFFFF, 0), 0x5555_5555);
    assert_eq!(morton_encode_magic(0, 0xFFFF), 0xAAAA_AAAA);
    assert_eq!(morton_encode_magic(0xFFFF, 0xFFFF), 0xFFFF_FFFF);
    let mut x: u64 = 0;
    while x <= 0xFFFF {
        let mut y: u64 = 0;
        while y <= 0xFFFF {
            assert_eq!(morton_encode_magic(x, y) as u128, morton_encode(x, y));
            y += 257;
        }
        x += 251;
    }
}

#[test]
fn morton_encode_magic_loses_wider_input() {
    assert_eq!(morton_encode_magic(0x1_0000, 0), morton_encode_magic(0x0100, 0));
    assert_eq!(morton_encode_magic(0, 0x100_0000), 0);
    assert_eq!(morton_encode_magic(u64::MAX, u64::MAX), 0xFFFF_FFFF);
    for &x in COORDINATES.iter() {
        for &y in COORDINATES.iter() {
            assert_eq!(morton_encode_magic(x, y), (dilate_magic(y) << 1) | dilate_magic(x));
        }
    }
}
