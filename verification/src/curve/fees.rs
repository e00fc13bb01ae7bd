//! The owner's trading fee: its rate, the rule that validates it, the fee
//! owed on a trade, and the 16 bytes under which the rate is stored.
//!
//! | Offset | Length | Field       | Encoding                       |
//! |--------|--------|-------------|--------------------------------|
//! | 0      | 8      | numerator   | unsigned 64-bit, little-endian |
//! | 8      | 8      | denominator | unsigned 64-bit, little-endian |

use crate::error::{SwapError, UnpackError};
use crate::little_endian::{
    le_bytes,
    le_value,
    lemma_le_bytes_index,
    lemma_le_bytes_len,
    lemma_le_bytes_of_le_value,
    lemma_le_value_bound,
    lemma_le_value_of_le_bytes,
    lemma_pow256_of_eight,
    pow256,
    read_u64,
    write_u64,
};
use vstd::prelude::*;

verus! {

/// Encapsulates the fee information for swap operations.
///
/// The rate is `owner_trade_fee_numerator / owner_trade_fee_denominator`.
/// Any pair of values can be held, a zero denominator too:
/// [`Fees::validate`] tells whether the rate is at most one, and
/// [`Fees::owner_trading_fee`] whether a fee can be computed at all.
#[derive(Clone, Copy, Debug, PartialEq, Eq, Structural)]
pub struct Fees {
    /// Owner trading fee numerator
    pub owner_trade_fee_numerator: u64,
    /// Owner trading fee denominator
    pub owner_trade_fee_denominator: u64,
}

impl Default for Fees {
    /// Both fields zero: a rate that passes validation and yields no fee.
    fn default() -> (fees: Fees)
        ensures
            fees == Fees::zeroed(),
    {
        Fees { owner_trade_fee_numerator: 0, owner_trade_fee_denominator: 0 }
    }
}

impl Fees {
    /// The length, in bytes, of the packed representation
    pub const LEN: usize = 16;

    /// The record with both fields zero, which is the default.
    pub open spec fn zeroed() -> Fees {
        Fees { owner_trade_fee_numerator: 0, owner_trade_fee_denominator: 0 }
    }

    /// The fee rate is at most one.
    pub open spec fn is_valid(self) -> bool {
        self.owner_trade_fee_numerator <= self.owner_trade_fee_denominator
    }

    /// The fee on `sol_amount` can be computed: the product of the amount and
    /// the numerator fits in 64 bits, and the denominator is not zero.
    pub open spec fn fee_is_defined(self, sol_amount: u64) -> bool {
        &&& sol_amount * self.owner_trade_fee_numerator <= u64::MAX
        &&& self.owner_trade_fee_denominator != 0
    }

    /// The fee owed on `sol_amount`: the amount times the rate, rounded down,
    /// where that can be computed.
    pub open spec fn fee_on(self, sol_amount: u64) -> Option<u64> {
        let product = sol_amount * self.owner_trade_fee_numerator;
        if self.fee_is_defined(sol_amount) {
            Some((product / (self.owner_trade_fee_denominator as int)) as u64)
        } else {
            None
        }
    }

    /// The stored form of the record: the numerator's eight little-endian
    /// bytes, then the denominator's.
    pub open spec fn packed(self) -> Seq<u8> {
        le_bytes(self.owner_trade_fee_numerator as nat, 8) + le_bytes(
            self.owner_trade_fee_denominator as nat,
            8,
        )
    }

    /// The record that `bytes` stores, where `bytes` has the packed length.
    pub open spec fn unpacked(bytes: Seq<u8>) -> Result<Fees, UnpackError> {
        if bytes.len() == Fees::LEN {
            Ok(
                Fees {
                    owner_trade_fee_numerator: le_value(bytes.subrange(0, 8)) as u64,
                    owner_trade_fee_denominator: le_value(bytes.subrange(8, 16)) as u64,
                },
            )
        } else {
            Err(UnpackError::InvalidLength)
        }
    }

    /// Calculate the owner trading fee in SOL
    ///
    /// Returns `None` where the product of the amount and the numerator does
    /// not fit in 64 bits, or the denominator is zero.
    pub fn owner_trading_fee(&self, sol_amount: u64) -> (fee: Option<u64>)
        ensures
            fee == self.fee_on(sol_amount),
            fee.is_some() <==> self.fee_is_defined(sol_amount),
            fee matches Some(owed) ==> owed == (sol_amount * self.owner_trade_fee_numerator)
                / (self.owner_trade_fee_denominator as int),
    {
        sol_amount.checked_mul(self.owner_trade_fee_numerator)?.checked_div(
            self.owner_trade_fee_denominator,
        )
    }

    /// Validate that the fee is reasonable (100% or less)
    ///
    /// A zero denominator passes together with a zero numerator.
    pub fn validate(&self) -> (res: Result<(), SwapError>)
        ensures
            res.is_ok() <==> self.is_valid(),
            res.is_err() ==> res == Err::<(), SwapError>(SwapError::InvalidFee),
    {
        if self.owner_trade_fee_numerator > self.owner_trade_fee_denominator {
            return Err(SwapError::InvalidFee);
        }
        Ok(())
    }

    /// Every record counts as initialized: no value of the type stands for an
    /// empty slot.
    pub fn is_initialized(&self) -> (initialized: bool)
        ensures
            initialized,
    {
        true
    }

    /// Writes the stored form of the record over `output`.
    pub fn pack_into_slice(&self, output: &mut [u8])
        requires
            old(output)@.len() == Fees::LEN,
        ensures
            final(output)@.len() == Fees::LEN,
            final(output)@ == self.packed(),
    {
        write_u64(output, 0, self.owner_trade_fee_numerator);
        write_u64(output, 8, self.owner_trade_fee_denominator);
    }

    /// Reads a record from its stored form. An input of any length but the
    /// packed one is turned down; what the fields hold is not judged here.
    pub fn unpack_from_slice(input: &[u8]) -> (res: Result<Fees, UnpackError>)
        ensures
            res == Fees::unpacked(input@),
            res.is_ok() <==> input@.len() == Fees::LEN,
            res.is_err() ==> res == Err::<Fees, UnpackError>(UnpackError::InvalidLength),
    {
        if input.len() != Fees::LEN {
            return Err(UnpackError::InvalidLength);
        }
        let owner_trade_fee_numerator: u64 = read_u64(input, 0);
        let owner_trade_fee_denominator: u64 = read_u64(input, 8);
        Ok(Fees { owner_trade_fee_numerator, owner_trade_fee_denominator })
    }
}

/// The stored form always has the packed length.
pub proof fn lemma_packed_len(fees: Fees)
    ensures
        fees.packed().len() == Fees::LEN,
{
    lemma_le_bytes_len(fees.owner_trade_fee_numerator as nat, 8);
    lemma_le_bytes_len(fees.owner_trade_fee_denominator as nat, 8);
}

/// The layout of the stored form: byte `i` holds the numerator's base-256
/// digit of weight `256^i`, and byte `8 + i` the denominator's.
pub proof fn lemma_packed_layout(fees: Fees, i: nat)
    requires
        i < 8,
    ensures
        fees.packed()[i as int] == (fees.owner_trade_fee_numerator as nat / pow256(i)) % 256,
        fees.packed()[8 + i as int] == (fees.owner_trade_fee_denominator as nat / pow256(i)) % 256,
{
    lemma_le_bytes_index(fees.owner_trade_fee_numerator as nat, 8, i);
    lemma_le_bytes_index(fees.owner_trade_fee_denominator as nat, 8, i);
}

/// Unpacking what was packed gives the record back, whatever its fields
/// hold.
pub proof fn lemma_unpack_of_packed(fees: Fees)
    ensures
        Fees::unpacked(fees.packed()) == Ok::<Fees, UnpackError>(fees),
{
    let numerator = le_bytes(fees.owner_trade_fee_numerator as nat, 8);
    let denominator = le_bytes(fees.owner_trade_fee_denominator as nat, 8);
    lemma_le_bytes_len(fees.owner_trade_fee_numerator as nat, 8);
    lemma_le_bytes_len(fees.owner_trade_fee_denominator as nat, 8);
    lemma_pow256_of_eight();
    lemma_le_value_of_le_bytes(fees.owner_trade_fee_numerator as nat, 8);
    lemma_le_value_of_le_bytes(fees.owner_trade_fee_denominator as nat, 8);
    assert(fees.packed().subrange(0, 8) =~= numerator);
    assert(fees.packed().subrange(8, 16) =~= denominator);
}

/// Every buffer of the packed length stores a record, and packing that
/// record gives the buffer back: no two buffers store the same record.
pub proof fn lemma_packed_of_unpacked(bytes: Seq<u8>)
    requires
        bytes.len() == Fees::LEN,
    ensures
        Fees::unpacked(bytes) is Ok,
        Fees::unpacked(bytes).unwrap().packed() == bytes,
{
    let low = bytes.subrange(0, 8);
    let high = bytes.subrange(8, 16);
    lemma_pow256_of_eight();
    lemma_le_value_bound(low);
    lemma_le_value_bound(high);
    lemma_le_bytes_of_le_value(low);
    lemma_le_bytes_of_le_value(high);
}

/// A buffer of any other length stores no record.
pub proof fn lemma_unpacked_rejects_other_lengths(bytes: Seq<u8>)
    requires
        bytes.len() != Fees::LEN,
    ensures
        Fees::unpacked(bytes) == Err::<Fees, UnpackError>(UnpackError::InvalidLength),
{
}

/// With a zero denominator no fee can be computed, whatever the amount.
pub proof fn lemma_zero_denominator_has_no_fee(fees: Fees, sol_amount: u64)
    requires
        fees.owner_trade_fee_denominator == 0,
    ensures
        fees.fee_on(sol_amount) is None,
{
}

/// The default record passes validation, and yet no fee can be computed
/// from it: validity does not promise a fee.
pub proof fn lemma_default_is_valid_without_fee(sol_amount: u64)
    ensures
        Fees::zeroed().is_valid(),
        Fees::zeroed().fee_on(sol_amount) is None,
{
}

/// The fee is the amount times the rate, rounded down: the largest whole
/// number whose product with the denominator stays within the product of
/// the amount and the numerator.
pub proof fn lemma_fee_is_rounded_down(fees: Fees, sol_amount: u64)
    ensures
        fees.fee_on(sol_amount) matches Some(owed) ==> {
            let product = sol_amount * fees.owner_trade_fee_numerator;
            owed * fees.owner_trade_fee_denominator <= product < (owed + 1)
                * fees.owner_trade_fee_denominator
        },
{
    if fees.fee_is_defined(sol_amount) {
        let d = fees.owner_trade_fee_denominator as int;
        let p = sol_amount * fees.owner_trade_fee_numerator;
        assert((p / d) * d <= p < (p / d + 1) * d) by (nonlinear_arith)
            requires
                0 <= p,
                0 < d,
        ;
    }
}

/// A valid rate never charges more than the amount traded.
pub proof fn lemma_valid_fee_at_most_amount(fees: Fees, sol_amount: u64)
    requires
        fees.is_valid(),
    ensures
        fees.fee_on(sol_amount) matches Some(owed) ==> owed <= sol_amount,
{
    if fees.fee_is_defined(sol_amount) {
        let n = fees.owner_trade_fee_numerator as int;
        let d = fees.owner_trade_fee_denominator as int;
        let a = sol_amount as int;
        assert((a * n) / d <= a) by (nonlinear_arith)
            requires
                0 <= a,
                0 <= n <= d,
                0 < d,
        ;
    }
}

} // verus!
