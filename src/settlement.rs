use vstd::prelude::*;

verus! {

/// Why an issuance or a registry creation was refused.
#[derive(Debug, PartialEq, Eq, Structural, Clone, Copy)]
pub enum IssueError {
    /// The attached funds are below the fixed price.
    InsufficientPayment { price: u128 },
    /// The funds cover the price but not the storage rent of the new record;
    /// `required` is the rent, saturated at `u128::MAX`.
    InsufficientStorageDeposit { required: u128 },
    /// The identifier counter cannot advance any further.
    AllocatorExhausted,
    /// The registry was configured without a base URI.
    ConfigurationError,
}

/// Refunds of this amount or less are not sent back.
pub const DUST_THRESHOLD: u128 = 1;

/// The amounts moved by one settled issuance.
#[derive(Debug, PartialEq, Eq, Structural, Clone, Copy)]
pub struct Settlement {
    /// Paid to the beneficiary: the price.
    pub to_beneficiary: u128,
    /// Kept to pay for the bytes the issuance persisted.
    pub storage_rent: u128,
    /// Sent back to the caller (0 when at or below the dust threshold).
    pub refund: u128,
}

/// The rent owed for `storage_delta` new bytes at `byte_cost` each.
pub open spec fn required_rent(storage_delta: u64, byte_cost: u128) -> int {
    storage_delta as int * byte_cost as int
}

/// The rent as reported in an error: saturated at `u128::MAX`.
pub open spec fn reported_rent(storage_delta: u64, byte_cost: u128) -> u128 {
    if required_rent(storage_delta, byte_cost) > u128::MAX as int {
        u128::MAX
    } else {
        required_rent(storage_delta, byte_cost) as u128
    }
}

/// The refund owed on what is left after price and rent.
pub open spec fn refund_of(leftover: int) -> int {
    if leftover > DUST_THRESHOLD as int {
        leftover
    } else {
        0
    }
}

/// The outcome of settling an issuance.
pub open spec fn settlement_of(
    attached: u128,
    price: u128,
    storage_delta: u64,
    byte_cost: u128,
) -> Result<Settlement, IssueError> {
    let rent = required_rent(storage_delta, byte_cost);
    if attached < price {
        Err(IssueError::InsufficientPayment { price })
    } else if (attached - price) < rent {
        Err(IssueError::InsufficientStorageDeposit {
            required: reported_rent(storage_delta, byte_cost),
        })
    } else {
        Ok(
            Settlement {
                to_beneficiary: price,
                storage_rent: rent as u128,
                refund: refund_of(attached - price - rent) as u128,
            },
        )
    }
}

/// The pre-issuance gate: the attached funds must cover the price.
pub fn check_payment(attached: u128, price: u128) -> (r: Result<(), IssueError>)
    ensures
        r == (if attached < price {
            Err(IssueError::InsufficientPayment { price })
        } else {
            Ok::<(), IssueError>(())
        }),
{
    if attached < price {
        Err(IssueError::InsufficientPayment { price })
    } else {
        Ok(())
    }
}

/// Settles an issuance: checks the price, then the storage rent for the
/// `storage_delta` bytes it persisted, and computes the refund.
pub fn refund_deposit(attached: u128, price: u128, storage_delta: u64, byte_cost: u128) -> (r:
    Result<Settlement, IssueError>)
    ensures
        r == settlement_of(attached, price, storage_delta, byte_cost),
{
    check_payment(attached, price)?;
    let remaining = attached - price;
    let rent = (storage_delta as u128).checked_mul(byte_cost);
    match rent {
        None => {
            proof {
                assert(required_rent(storage_delta, byte_cost) > u128::MAX as int);
            }
            Err(IssueError::InsufficientStorageDeposit { required: u128::MAX })
        },
        Some(rent) => {
            if remaining < rent {
                Err(IssueError::InsufficientStorageDeposit { required: rent })
            } else {
                let leftover = remaining - rent;
                let refund = if leftover > DUST_THRESHOLD {
                    leftover
                } else {
                    0
                };
                Ok(Settlement { to_beneficiary: price, storage_rent: rent, refund })
            }
        },
    }
}

/// When the funds cover price and rent, the settlement succeeds: the
/// beneficiary gets exactly the price, the rent is kept, and the caller is
/// refunded what is left when it exceeds the dust threshold, else nothing.
/// Unless exactly the dust threshold is left over, the caller's net outflow
/// is then exactly price plus rent.
pub proof fn lemma_refund_correct(attached: u128, price: u128, storage_delta: u64, byte_cost: u128)
    requires
        attached as int >= price as int + required_rent(storage_delta, byte_cost),
    ensures
        settlement_of(attached, price, storage_delta, byte_cost) matches Ok(s) && {
            &&& s.to_beneficiary == price
            &&& s.storage_rent as int == required_rent(storage_delta, byte_cost)
            &&& s.refund as int == refund_of(
                attached - price - required_rent(storage_delta, byte_cost),
            )
            &&& attached - price - required_rent(storage_delta, byte_cost) != DUST_THRESHOLD
                ==> attached - s.refund == price + required_rent(storage_delta, byte_cost)
        },
{
    assert(required_rent(storage_delta, byte_cost) >= 0) by (nonlinear_arith);
}

} // verus!
