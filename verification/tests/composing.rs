use rand_bits::compose::{high_bits_range, join_u128, join_u16, join_u32, join_u64};

#[test]
fn range_of_the_upper_half() {
    assert_eq!(high_bits_range(0, 8), (0, 0));
    assert_eq!(high_bits_range(1, 8), (0, 1));
    assert_eq!(high_bits_range(8, 8), (0, 8));
    assert_eq!(high_bits_range(9, 8), (1, 8));
    assert_eq!(high_bits_range(15, 8), (7, 8));
    assert_eq!(high_bits_range(16, 8), (8, 8));
    assert_eq!(high_bits_range(11, 16), (0, 11));
    assert_eq!(high_bits_range(40, 32), (8, 32));
    assert_eq!(high_bits_range(100, 64), (36, 64));
}

#[test]
fn range_holds_the_feasible_splits() {
    for half in [8u32, 16, 32, 64] {
        for bits in 0..=2 * half {
            let (least, most) = high_bits_range(bits, half);
            for high in 0..=2 * half {
                let feasible = high <= bits && high <= half && bits - high <= half;
                assert_eq!(feasible, least <= high && high <= most);
            }
        }
    }
}

#[test]
fn joined_halves() {
    assert_eq!(join_u16(0x12, 0x34), 0x1234);
    assert_eq!(join_u16(0x00, 0xFF), 0x00FF);
    assert_eq!(join_u16(0xFF, 0x00), 0xFF00);
    assert_eq!(join_u32(0xABCD, 0x1234), 0xABCD_1234);
    assert_eq!(join_u64(0xDEAD_BEEF, 0x0BAD_F00D), 0xDEAD_BEEF_0BAD_F00D);
    assert_eq!(
        join_u128(0x0123_4567_89AB_CDEF, 0xFEDC_BA98_7654_3210),
        0x0123_4567_89AB_CDEF_FEDC_BA98_7654_3210
    );
}

#[test]
fn joining_adds_the_weights() {
    for high in 0..=255u8 {
        for low in [0x00u8, 0x01, 0x5A, 0x80, 0xFF] {
            let value = join_u16(high, low);
            assert_eq!(value.count_ones(), high.count_ones() + low.count_ones());
        }
    }
}
