use rand::rngs::mock::StepRng;
use rand::rngs::StdRng;
use rand::SeedableRng;
use rand_bits::{gen_bits, try_gen_bits, Distribution, Standard};

#[test]
fn u8() {
    let mut rng = rand::thread_rng();
    for i in 0..=u8::BITS {
        let n: u8 = gen_bits(&mut rng, i);
        assert_eq!(n.count_ones(), i);
    }
}

#[test]
fn u16() {
    let mut rng = rand::thread_rng();
    for i in 0..=u16::BITS {
        let n: u16 = gen_bits(&mut rng, i);
        assert_eq!(n.count_ones(), i);
    }
}

#[test]
fn u32() {
    let mut rng = rand::thread_rng();
    for i in 0..=u32::BITS {
        let n: u32 = gen_bits(&mut rng, i);
        assert_eq!(n.count_ones(), i);
    }
}

#[test]
fn u64() {
    let mut rng = rand::thread_rng();
    for i in 0..=u64::BITS {
        let n: u64 = gen_bits(&mut rng, i);
        assert_eq!(n.count_ones(), i);
    }
}

#[test]
fn u128() {
    let mut rng = rand::thread_rng();
    for i in 0..=u128::BITS {
        let n: u128 = gen_bits(&mut rng, i);
        assert_eq!(n.count_ones(), i);
    }
}

#[test]
fn sample_keeps_the_weight_over_many_draws() {
    let mut rng = StdRng::seed_from_u64(0x5eed);
    for _ in 0..200 {
        for bits in 0..=8 {
            let n: u8 = Standard.sample(&mut rng, bits);
            assert_eq!(n.count_ones(), bits);
        }
        for bits in 0..=16 {
            let n: u16 = Standard.sample(&mut rng, bits);
            assert_eq!(n.count_ones(), bits);
        }
        for bits in 0..=32 {
            let n: u32 = Standard.sample(&mut rng, bits);
            assert_eq!(n.count_ones(), bits);
        }
        for bits in 0..=64 {
            let n: u64 = Standard.sample(&mut rng, bits);
            assert_eq!(n.count_ones(), bits);
        }
        for bits in 0..=128 {
            let n: u128 = Standard.sample(&mut rng, bits);
            assert_eq!(n.count_ones(), bits);
        }
    }
}

#[test]
fn no_bits_gives_zero() {
    let mut rng = rand::thread_rng();
    let a: u8 = gen_bits(&mut rng, 0);
    let b: u16 = gen_bits(&mut rng, 0);
    let c: u32 = gen_bits(&mut rng, 0);
    let d: u64 = gen_bits(&mut rng, 0);
    let e: u128 = gen_bits(&mut rng, 0);
    assert_eq!(a, 0);
    assert_eq!(b, 0);
    assert_eq!(c, 0);
    assert_eq!(d, 0);
    assert_eq!(e, 0);
}

#[test]
fn all_bits_gives_all_ones() {
    let mut rng = rand::thread_rng();
    let a: u8 = gen_bits(&mut rng, 8);
    let b: u16 = gen_bits(&mut rng, 16);
    let c: u32 = gen_bits(&mut rng, 32);
    let d: u64 = gen_bits(&mut rng, 64);
    let e: u128 = gen_bits(&mut rng, 128);
    assert_eq!(a, 0xFF);
    assert_eq!(b, 0xFFFF);
    assert_eq!(c, 0xFFFF_FFFF);
    assert_eq!(d, 0xFFFF_FFFF_FFFF_FFFF);
    assert_eq!(e, 0xFFFF_FFFF_FFFF_FFFF_FFFF_FFFF_FFFF_FFFF);
}

#[test]
fn boundary_requests_draw_nothing() {
    // A source that is never asked stays where it was.
    let mut rng = StepRng::new(7, 1);
    let a: u8 = gen_bits(&mut rng, 0);
    let b: u64 = gen_bits(&mut rng, 64);
    let c: u128 = gen_bits(&mut rng, 0);
    assert_eq!(a, 0);
    assert_eq!(b, u64::MAX);
    assert_eq!(c, 0);
    assert_eq!(rand::RngCore::next_u64(&mut rng), 7);
}

#[test]
fn max_bits_is_the_width() {
    assert_eq!(Distribution::<u8>::max_bits(&Standard), 8);
    assert_eq!(Distribution::<u16>::max_bits(&Standard), 16);
    assert_eq!(Distribution::<u32>::max_bits(&Standard), 32);
    assert_eq!(Distribution::<u64>::max_bits(&Standard), 64);
    assert_eq!(Distribution::<u128>::max_bits(&Standard), 128);
}

#[test]
fn draws_differ_from_one_another() {
    // Were the drawn index always an end of its range, one byte would come
    // out every time.
    let mut rng = StdRng::seed_from_u64(1);
    let mut seen = [false; 256];
    for _ in 0..2000 {
        let n: u8 = gen_bits(&mut rng, 4);
        seen[n as usize] = true;
    }
    let distinct = seen.iter().filter(|s| **s).count();
    assert_eq!(distinct, 70);
}

#[test]
fn every_split_of_a_wide_value_occurs() {
    let mut rng = StdRng::seed_from_u64(2);
    let mut seen = [false; 9];
    for _ in 0..2000 {
        let n: u16 = gen_bits(&mut rng, 8);
        let high = (n >> 8).count_ones();
        assert_eq!(high + (n & 0xFF).count_ones(), 8);
        seen[high as usize] = true;
    }
    assert!(seen.iter().all(|s| *s));
}

#[test]
fn bytes_of_weight_two_are_evenly_drawn() {
    let mut rng = StdRng::seed_from_u64(3);
    let draws = 56_000u32;
    let mut counts = [0u32; 256];
    for _ in 0..draws {
        let n: u8 = gen_bits(&mut rng, 2);
        assert_eq!(n.count_ones(), 2);
        counts[n as usize] += 1;
    }
    let expected = f64::from(draws) / 28.0;
    let mut categories = 0;
    let mut chi_squared = 0.0f64;
    for count in counts.iter() {
        if *count > 0 {
            categories += 1;
            let diff = f64::from(*count) - expected;
            chi_squared += diff * diff / expected;
        }
    }
    assert_eq!(categories, 28);
    // 27 degrees of freedom: 55.48 is exceeded once in a thousand runs.
    assert!(chi_squared < 55.48, "chi squared is {}", chi_squared);
}

#[test]
fn fifteen_of_sixteen_bits() {
    let mut rng = StdRng::seed_from_u64(4);
    let draws = 32_000u32;
    let mut counts = [0u32; 16];
    for _ in 0..draws {
        let n: u16 = gen_bits(&mut rng, 15);
        assert_eq!(n.count_ones(), 15);
        assert_eq!(n.count_zeros(), 1);
        counts[(!n).trailing_zeros() as usize] += 1;
    }
    let expected = f64::from(draws) / 16.0;
    let mut chi_squared = 0.0f64;
    for count in counts.iter() {
        assert!(*count > 0);
        let diff = f64::from(*count) - expected;
        chi_squared += diff * diff / expected;
    }
    // 15 degrees of freedom: 37.70 is exceeded once in a thousand runs.
    assert!(chi_squared < 37.70, "chi squared is {}", chi_squared);
}

#[test]
fn too_many_bits_are_refused() {
    let mut rng = StepRng::new(7, 1);
    let a: Option<u8> = try_gen_bits(&mut rng, 9);
    let b: Option<u16> = try_gen_bits(&mut rng, 17);
    let c: Option<u32> = try_gen_bits(&mut rng, 33);
    let d: Option<u64> = try_gen_bits(&mut rng, 65);
    let e: Option<u128> = try_gen_bits(&mut rng, u32::MAX);
    assert_eq!(a, None);
    assert_eq!(b, None);
    assert_eq!(c, None);
    assert_eq!(d, None);
    assert_eq!(e, None);
    assert_eq!(rand::RngCore::next_u64(&mut rng), 7);
}

#[test]
fn bits_within_the_width_are_served() {
    let mut rng = StdRng::seed_from_u64(5);
    for bits in 0..=8 {
        let drawn: Option<u8> = try_gen_bits(&mut rng, bits);
        assert_eq!(drawn.map(u8::count_ones), Some(bits));
    }
    for bits in 0..=128 {
        let drawn: Option<u128> = try_gen_bits(&mut rng, bits);
        assert_eq!(drawn.map(u128::count_ones), Some(bits));
    }
}

#[test]
fn unsized_sources_are_accepted() {
    let mut seeded = StdRng::seed_from_u64(6);
    let rng: &mut dyn rand::RngCore = &mut seeded;
    let n: u32 = gen_bits(rng, 11);
    assert_eq!(n.count_ones(), 11);
}

#[test]
fn constant_source_gives_the_first_of_every_range() {
    // This source answers every draw with the lowest number of the range.
    let mut rng = StepRng::new(0, 0);
    let a: u8 = gen_bits(&mut rng, 1);
    let b: u8 = gen_bits(&mut rng, 2);
    let c: u8 = gen_bits(&mut rng, 4);
    let d: u8 = gen_bits(&mut rng, 5);
    let e: u8 = gen_bits(&mut rng, 7);
    assert_eq!(a, 0x01);
    assert_eq!(b, 0x03);
    assert_eq!(c, 0x0F);
    assert_eq!(d, 0xF8);
    assert_eq!(e, 0xFE);
}

#[test]
fn constant_source_and_fifteen_of_sixteen_bits() {
    let mut rng = StepRng::new(0, 0);
    let n: u16 = Standard.sample(&mut rng, 15);
    assert_eq!(n, 0xFEFF);
    assert_eq!(n.count_ones(), 15);
}

#[test]
fn constant_source_and_wider_values() {
    let mut rng = StepRng::new(0, 0);
    let a: u16 = gen_bits(&mut rng, 1);
    let b: u16 = gen_bits(&mut rng, 8);
    let c: u32 = gen_bits(&mut rng, 31);
    let d: u64 = gen_bits(&mut rng, 33);
    let e: u128 = gen_bits(&mut rng, 127);
    assert_eq!(a, 0x0001);
    assert_eq!(b, 0x00FF);
    assert_eq!(c, 0xFEFF_FFFF);
    assert_eq!(d, 0x0000_0001_FFFF_FFFF);
    assert_eq!(e, 0xFEFF_FFFF_FFFF_FFFF_FFFF_FFFF_FFFF_FFFF);
}
