//! The conversion between a yield-bearing token and the token that
//! underlies it, as the `yi` program computes it.

use vstd::prelude::*;
use yi::YiToken;

verus! {

/// How many thousandths of a basis point make the whole.
pub const MILLIBPS_PER_WHOLE: u32 = 10_000_000;

/// The fees of a yield-bearing token, in thousandths of a basis point.
#[derive(Clone, Copy, Debug, PartialEq, Eq, Structural)]
pub struct YiTokenFees {
    pub stake_fee_millibps: u32,
    pub unstake_fee_millibps: u32,
}

/// `amount` as it comes out of a conversion with the fee setting
/// `fee_millibps`: unchanged where the setting is zero, else multiplied by
/// the setting and divided by `MILLIBPS_PER_WHOLE`. `None` where the result
/// does not fit in a `u64`.
pub open spec fn scaled_by_fee(amount: nat, fee_millibps: u32) -> Option<u64> {
    let scaled = if fee_millibps == 0 {
        amount
    } else {
        (amount * (fee_millibps as nat)) / (MILLIBPS_PER_WHOLE as nat)
    };
    if scaled <= u64::MAX {
        Some(scaled as u64)
    } else {
        None
    }
}

/// What `yitoken_amount` yield-bearing tokens are worth in the underlying
/// token, when `total_supply` of them stand for `total_underlying_tokens`.
/// Nothing is worth nothing, the whole supply is worth the whole holding,
/// more than the supply has no worth, and any other amount is worth its
/// share, rounded down, through `scaled_by_fee`.
pub open spec fn underlying_for_yitokens(
    unstake_fee_millibps: u32,
    yitoken_amount: u64,
    total_underlying_tokens: u64,
    total_supply: u64,
) -> Option<u64> {
    if yitoken_amount == 0 {
        Some(0)
    } else if yitoken_amount > total_supply {
        None
    } else if yitoken_amount == total_supply {
        Some(total_underlying_tokens)
    } else {
        let share = (yitoken_amount as nat * total_underlying_tokens as nat) / (total_supply as nat);
        if share <= u64::MAX {
            scaled_by_fee(share, unstake_fee_millibps)
        } else {
            None
        }
    }
}

/// How many yield-bearing tokens stand for `underlying_amount` of the
/// underlying token, when `total_supply` of them stand for
/// `total_underlying_tokens`. Nothing stands for nothing, an empty holding
/// converts one to one, and any other amount converts to its share of the
/// supply, rounded down, through `scaled_by_fee`.
pub open spec fn yitokens_for_underlying(
    stake_fee_millibps: u32,
    underlying_amount: u64,
    total_underlying_tokens: u64,
    total_supply: u64,
) -> Option<u64> {
    if underlying_amount == 0 {
        Some(0)
    } else if total_underlying_tokens == 0 {
        Some(underlying_amount)
    } else {
        let share = (underlying_amount as nat * total_supply as nat) / (
        total_underlying_tokens as nat);
        if share <= u64::MAX {
            scaled_by_fee(share, stake_fee_millibps)
        } else {
            None
        }
    }
}

/// Calls `YiToken::calculate_underlying_for_yitokens` on a token with the
/// given unstake fee setting; the method reads no other field. The result
/// is `underlying_for_yitokens`, which restates the method's arithmetic.
#[verifier::external_body]
pub(crate) fn yi_underlying_for_yitokens(
    unstake_fee_millibps: u32,
    yitoken_amount: u64,
    total_underlying_tokens: u64,
    total_supply: u64,
) -> (r: Option<u64>)
    ensures
        r == underlying_for_yitokens(
            unstake_fee_millibps,
            yitoken_amount,
            total_underlying_tokens,
            total_supply,
        ),
{
    let yi_token = YiToken { unstake_fee_millibps, ..Default::default() };
    yi_token.calculate_underlying_for_yitokens(
        yitoken_amount,
        total_underlying_tokens,
        total_supply,
    )
}

/// Calls `YiToken::calculate_yitokens_for_underlying` on a token with the
/// given stake fee setting; the method reads no other field. The result is
/// `yitokens_for_underlying`, which restates the method's arithmetic.
#[verifier::external_body]
pub(crate) fn yi_yitokens_for_underlying(
    stake_fee_millibps: u32,
    underlying_amount: u64,
    total_underlying_tokens: u64,
    total_supply: u64,
) -> (r: Option<u64>)
    ensures
        r == yitokens_for_underlying(
            stake_fee_millibps,
            underlying_amount,
            total_underlying_tokens,
            total_supply,
        ),
{
    let yi_token = YiToken { stake_fee_millibps, ..Default::default() };
    yi_token.calculate_yitokens_for_underlying(
        underlying_amount,
        total_underlying_tokens,
        total_supply,
    )
}

} // verus!
