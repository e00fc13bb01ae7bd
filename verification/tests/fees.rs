use token_bonding_curve::curve::fees::Fees;
use token_bonding_curve::error::{SwapError, UnpackError};

fn fees(numerator: u64, denominator: u64) -> Fees {
    Fees { owner_trade_fee_numerator: numerator, owner_trade_fee_denominator: denominator }
}

fn packed(record: &Fees) -> [u8; 16] {
    let mut buffer = [0xAAu8; 16];
    record.pack_into_slice(&mut buffer);
    buffer
}

#[test]
fn fee_of_one_percent_is_exact() {
    assert_eq!(fees(1, 100).owner_trading_fee(1000), Some(10));
}

#[test]
fn fee_is_rounded_down() {
    assert_eq!(fees(1, 100).owner_trading_fee(999), Some(9));
    assert_eq!(fees(1, 100).owner_trading_fee(99), Some(0));
    assert_eq!(fees(1, 100).owner_trading_fee(100), Some(1));
    assert_eq!(fees(2, 3).owner_trading_fee(10), Some(6));
    assert_eq!(fees(3, 1000).owner_trading_fee(123_456_789), Some(370_370));
}

#[test]
fn fee_overflow_gives_none() {
    assert_eq!(fees(u64::MAX, 1).owner_trading_fee(2), None);
    assert_eq!(fees(1 << 32, 1 << 32).owner_trading_fee(1 << 32), None);
}

#[test]
fn fee_product_at_the_limit_is_computed() {
    assert_eq!(fees(1, 1).owner_trading_fee(u64::MAX), Some(u64::MAX));
    assert_eq!(fees(u64::MAX, u64::MAX).owner_trading_fee(1), Some(1));
    assert_eq!(fees(u64::MAX, 2).owner_trading_fee(1), Some(u64::MAX / 2));
    assert_eq!(fees((1 << 32) - 1, 1).owner_trading_fee(1 << 32), Some(0xFFFF_FFFF_0000_0000));
}

#[test]
fn fee_with_zero_denominator_gives_none() {
    let amounts: [u64; 5] = [0, 1, 1000, u64::MAX - 1, u64::MAX];
    for amount in amounts {
        assert_eq!(fees(0, 0).owner_trading_fee(amount), None);
        assert_eq!(fees(5, 0).owner_trading_fee(amount), None);
    }
    assert_eq!(fees(u64::MAX, 0).owner_trading_fee(2), None);
}

#[test]
fn fee_of_zero_amount_or_zero_rate_is_zero() {
    assert_eq!(fees(1, 100).owner_trading_fee(0), Some(0));
    assert_eq!(fees(0, 100).owner_trading_fee(u64::MAX), Some(0));
    assert_eq!(fees(u64::MAX, 7).owner_trading_fee(0), Some(0));
}

#[test]
fn fee_above_one_is_still_computed() {
    assert_eq!(fees(3, 2).owner_trading_fee(10), Some(15));
}

#[test]
fn valid_rate_charges_at_most_the_amount() {
    let rates: [(u64, u64); 4] = [(1, 100), (100, 100), (7, 9), (0, 1)];
    let amounts: [u64; 4] = [0, 1, 12_345, 1 << 40];
    for (numerator, denominator) in rates {
        let record = fees(numerator, denominator);
        assert_eq!(record.validate(), Ok(()));
        for amount in amounts {
            let owed = record.owner_trading_fee(amount).unwrap();
            assert!(owed <= amount);
        }
    }
}

#[test]
fn validate_accepts_rates_up_to_one() {
    assert_eq!(fees(1, 100).validate(), Ok(()));
    assert_eq!(fees(100, 100).validate(), Ok(()));
    assert_eq!(fees(0, 1).validate(), Ok(()));
    assert_eq!(fees(u64::MAX, u64::MAX).validate(), Ok(()));
}

#[test]
fn validate_rejects_rates_above_one() {
    assert_eq!(fees(101, 100).validate(), Err(SwapError::InvalidFee));
    assert_eq!(fees(1, 0).validate(), Err(SwapError::InvalidFee));
    assert_eq!(fees(u64::MAX, u64::MAX - 1).validate(), Err(SwapError::InvalidFee));
}

#[test]
fn validate_lets_a_zero_denominator_pass_with_a_zero_numerator() {
    let record = fees(0, 0);
    assert_eq!(record.validate(), Ok(()));
    assert_eq!(record.owner_trading_fee(1), None);
}

#[test]
fn default_is_zero_valid_and_without_fee() {
    let record = Fees::default();
    assert_eq!(record, fees(0, 0));
    assert_eq!(record.validate(), Ok(()));
    let amounts: [u64; 4] = [0, 1, 999, u64::MAX];
    for amount in amounts {
        assert_eq!(record.owner_trading_fee(amount), None);
    }
}

#[test]
fn every_record_is_initialized() {
    assert!(Fees::default().is_initialized());
    assert!(fees(1, 100).is_initialized());
    assert!(fees(101, 100).is_initialized());
}

#[test]
fn packed_length_is_sixteen() {
    assert_eq!(Fees::LEN, 16);
    assert_eq!(packed(&fees(1, 100)).len(), Fees::LEN);
}

#[test]
fn pack_lays_fields_out_little_endian() {
    let record = fees(0x0102_0304_0506_0708, 0x1112_1314_1516_1718);
    assert_eq!(
        packed(&record),
        [
            0x08, 0x07, 0x06, 0x05, 0x04, 0x03, 0x02, 0x01, 0x18, 0x17, 0x16, 0x15, 0x14, 0x13,
            0x12, 0x11
        ]
    );
    assert_eq!(packed(&fees(1, 100)), [1, 0, 0, 0, 0, 0, 0, 0, 100, 0, 0, 0, 0, 0, 0, 0]);
    assert_eq!(packed(&fees(0, 0)), [0u8; 16]);
    assert_eq!(packed(&fees(u64::MAX, u64::MAX)), [0xFFu8; 16]);
}

#[test]
fn pack_agrees_with_the_standard_library() {
    let values: [u64; 6] = [0, 1, 255, 256, 0xDEAD_BEEF_0BAD_F00D, u64::MAX];
    for numerator in values {
        for denominator in values {
            let bytes = packed(&fees(numerator, denominator));
            assert_eq!(bytes[..8], numerator.to_le_bytes());
            assert_eq!(bytes[8..], denominator.to_le_bytes());
        }
    }
}

#[test]
fn pack_overwrites_every_byte() {
    let record = fees(0, 0);
    let mut buffer = [0x5Au8; 16];
    record.pack_into_slice(&mut buffer);
    assert_eq!(buffer, [0u8; 16]);
}

#[test]
fn unpack_reads_fields_little_endian() {
    let bytes: [u8; 16] = [
        0x08, 0x07, 0x06, 0x05, 0x04, 0x03, 0x02, 0x01, 0x18, 0x17, 0x16, 0x15, 0x14, 0x13, 0x12,
        0x11,
    ];
    assert_eq!(
        Fees::unpack_from_slice(&bytes),
        Ok(fees(0x0102_0304_0506_0708, 0x1112_1314_1516_1718))
    );
    assert_eq!(Fees::unpack_from_slice(&[0u8; 16]), Ok(fees(0, 0)));
    assert_eq!(Fees::unpack_from_slice(&[0xFFu8; 16]), Ok(fees(u64::MAX, u64::MAX)));
}

#[test]
fn unpack_agrees_with_the_standard_library() {
    let mut bytes = [0u8; 16];
    for (index, byte) in bytes.iter_mut().enumerate() {
        *byte = (index * 17 + 3) as u8;
    }
    let mut low = [0u8; 8];
    let mut high = [0u8; 8];
    low.copy_from_slice(&bytes[..8]);
    high.copy_from_slice(&bytes[8..]);
    assert_eq!(
        Fees::unpack_from_slice(&bytes),
        Ok(fees(u64::from_le_bytes(low), u64::from_le_bytes(high)))
    );
}

#[test]
fn unpack_rejects_other_lengths() {
    let lengths: [usize; 6] = [0, 1, 8, 15, 17, 32];
    for length in lengths {
        let bytes = vec![0u8; length];
        assert_eq!(Fees::unpack_from_slice(&bytes), Err(UnpackError::InvalidLength));
    }
}

#[test]
fn unpack_does_not_judge_the_fields() {
    let record = Fees::unpack_from_slice(&packed(&fees(101, 100))).unwrap();
    assert_eq!(record, fees(101, 100));
    assert_eq!(record.validate(), Err(SwapError::InvalidFee));
    let zero = Fees::unpack_from_slice(&[0u8; 16]).unwrap();
    assert_eq!(zero.validate(), Ok(()));
    assert_eq!(zero.owner_trading_fee(10), None);
}

#[test]
fn unpack_of_packed_gives_the_record_back() {
    let values: [u64; 7] = [0, 1, 100, 255, 256, 0x0123_4567_89AB_CDEF, u64::MAX];
    for numerator in values {
        for denominator in values {
            let record = fees(numerator, denominator);
            assert_eq!(Fees::unpack_from_slice(&packed(&record)), Ok(record));
        }
    }
}

#[test]
fn packed_of_unpacked_gives_the_bytes_back() {
    let mut bytes = [0u8; 16];
    for round in 0..50u32 {
        for (index, byte) in bytes.iter_mut().enumerate() {
            *byte = (round.wrapping_mul(2_654_435_761).rotate_left(index as u32) >> 11) as u8;
        }
        let record = Fees::unpack_from_slice(&bytes).unwrap();
        assert_eq!(packed(&record), bytes);
    }
}

#[test]
fn records_are_copied_and_compared_by_value() {
    let record = fees(3, 1000);
    let copy = record;
    let clone = record.clone();
    assert_eq!(record, copy);
    assert_eq!(record, clone);
    assert_ne!(record, fees(3, 1001));
    assert_ne!(record, fees(4, 1000));
}
