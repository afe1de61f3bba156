use vstd::prelude::*;
use crate::constants::{SCALE_ORACLE_VALUE, VALUE_100_PERCENT_APY, VALUE_SECONDS_IN_A_YEAR};
use crate::errors::ErrorCode;
use crate::pubkey::Pubkey;
use crate::state::all_assets::{AllAssets, MAX_ASSETS};
use crate::state::model::MarketModel;

verus! {

/// 2^64, the modulus of a cast to `u64`.
pub open spec fn two_pow_64() -> int {
    0x1_0000_0000_0000_0000
}

/// The value of `t as u128` for an `i64` `t` (two's complement).
pub open spec fn i64_as_u128(t: int) -> int {
    if t >= 0 {
        t
    } else {
        t + 0x1_0000_0000_0000_0000_0000_0000_0000_0000
    }
}

/// The interest that `apy` pays on `start_multiplier` over `time_elapsed`
/// seconds, before it is cast to `u64`; `None` when the product overflows a
/// `u128`.
pub open spec fn spec_interest(apy: u64, time_elapsed: i64, start_multiplier: u64) -> Option<int> {
    let product = (start_multiplier as int) * (apy as int) * i64_as_u128(time_elapsed as int);
    if product > u128::MAX {
        None
    } else {
        Some(product / (VALUE_100_PERCENT_APY as int) / (VALUE_SECONDS_IN_A_YEAR as int))
    }
}

/// `start_multiplier` grown by the interest of `apy` over `time_elapsed`
/// seconds; the interest is cast to `u64` (modulo 2^64) before it is added.
pub open spec fn spec_update_multiplier(apy: u64, time_elapsed: i64, start_multiplier: u64) -> Result<
    u64,
    ErrorCode,
> {
    match spec_interest(apy, time_elapsed, start_multiplier) {
        None => Err(ErrorCode::NumErr),
        Some(interest) => {
            let sum = start_multiplier + interest % two_pow_64();
            if sum > u64::MAX {
                Err(ErrorCode::NumErr)
            } else {
                Ok(sum as u64)
            }
        },
    }
}

/// Grows a multiplier by the interest that `apy` (scaled by
/// `VALUE_100_PERCENT_APY`) pays over `time_elapsed` seconds.
pub fn update_multiplier(apy: u64, time_elapsed: i64, start_multiplier: u64) -> (r: Result<
    u64,
    ErrorCode,
>)
    ensures
        r == spec_update_multiplier(apy, time_elapsed, start_multiplier),
{
    let elapsed: u128 = if time_elapsed >= 0 {
        time_elapsed as u128
    } else {
        u128::MAX - ((-(time_elapsed + 1)) as u128)
    };
    assert(elapsed == i64_as_u128(time_elapsed as int));
    let rate: u128 = match (start_multiplier as u128).checked_mul(apy as u128) {
        Some(v) => v,
        None => {
            assert((start_multiplier as int) * (apy as int) <= u128::MAX) by (nonlinear_arith);
            return Err(ErrorCode::NumErr);
        },
    };
    let product: u128 = match rate.checked_mul(elapsed) {
        Some(v) => v,
        None => {
            return Err(ErrorCode::NumErr);
        },
    };
    let additional: u128 = product / (VALUE_100_PERCENT_APY as u128) / (VALUE_SECONDS_IN_A_YEAR as u128);
    let additional_truncated: u64 = (additional % 0x1_0000_0000_0000_0000u128) as u64;
    match start_multiplier.checked_add(additional_truncated) {
        Some(v) => Ok(v),
        None => Err(ErrorCode::NumErr),
    }
}

/// A multiplier of zero stays zero.
pub proof fn lemma_update_multiplier_of_zero(apy: u64, time_elapsed: i64)
    ensures
        spec_update_multiplier(apy, time_elapsed, 0) == Ok::<u64, ErrorCode>(0),
{
    let w = i64_as_u128(time_elapsed as int);
    assert((0 as int) * (apy as int) * w == 0) by (nonlinear_arith);
    assert(spec_interest(apy, time_elapsed, 0) == Some(0int));
}

/// `value * numerator / denominator` computed in `u128` and cast back to `u64`
/// (modulo 2^64); `NumErr` on overflow or a zero denominator.
pub open spec fn spec_rescale(value: u64, numerator: u128, denominator: u64) -> Result<u64, ErrorCode> {
    let product = value * numerator;
    if product > u128::MAX || denominator == 0 {
        Err(ErrorCode::NumErr)
    } else {
        Ok(((product / (denominator as int)) % two_pow_64()) as u64)
    }
}

/// Scales `value` by `numerator / denominator`, as the deposits do when a
/// multiplier moves.
pub fn rescale(value: u64, numerator: u128, denominator: u64) -> (r: Result<u64, ErrorCode>)
    ensures
        r == spec_rescale(value, numerator, denominator),
{
    let product: u128 = match (value as u128).checked_mul(numerator) {
        Some(v) => v,
        None => {
            return Err(ErrorCode::NumErr);
        },
    };
    let quotient: u128 = match product.checked_div(denominator as u128) {
        Some(v) => v,
        None => {
            return Err(ErrorCode::NumErr);
        },
    };
    Ok((quotient % 0x1_0000_0000_0000_0000u128) as u64)
}

/// The value of a `u128` cast to `u64`.
pub open spec fn u128_as_u64(x: u128) -> u64 {
    (x % 0x1_0000_0000_0000_0000) as u64
}

/// Casts a `u128` to `u64`, keeping the low 64 bits.
pub fn truncate_to_u64(x: u128) -> (r: u64)
    ensures
        r == u128_as_u64(x),
{
    (x % 0x1_0000_0000_0000_0000u128) as u64
}

/// The price of an asset in units of the underlying, scaled by
/// `SCALE_ORACLE_VALUE`; every asset is quoted at par.
pub fn oracle_quote_price(asset: Pubkey) -> (r: Result<u64, ErrorCode>)
    ensures
        r == Ok::<u64, ErrorCode>(SCALE_ORACLE_VALUE),
{
    Ok(SCALE_ORACLE_VALUE)
}

/// The checks made on one set of accounts of a transfer, in their order: the
/// mint account is the expected mint, the user's token account belongs to the
/// payer, and the vault's token account belongs to the vault authority.
pub open spec fn spec_check_transfer_accounts(
    mint_key: Pubkey,
    expected_mint: Pubkey,
    user_account_owner: Pubkey,
    payer: Pubkey,
    vault_account_owner: Pubkey,
    vault_authority: Pubkey,
) -> Result<(), ErrorCode> {
    if mint_key != expected_mint {
        Err(ErrorCode::MintMismatch)
    } else if user_account_owner != payer {
        Err(ErrorCode::OwnerMismatch)
    } else if vault_account_owner != vault_authority {
        Err(ErrorCode::VaultOwnerMismatch)
    } else {
        Ok(())
    }
}

/// Checks one set of accounts of a transfer before it is made.
pub fn check_transfer_accounts(
    mint_key: &Pubkey,
    expected_mint: &Pubkey,
    user_account_owner: &Pubkey,
    payer: &Pubkey,
    vault_account_owner: &Pubkey,
    vault_authority: &Pubkey,
) -> (r: Result<(), ErrorCode>)
    ensures
        r == spec_check_transfer_accounts(
            *mint_key,
            *expected_mint,
            *user_account_owner,
            *payer,
            *vault_account_owner,
            *vault_authority,
        ),
{
    if !mint_key.equals(expected_mint) {
        return Err(ErrorCode::MintMismatch);
    }
    if !user_account_owner.equals(payer) {
        return Err(ErrorCode::OwnerMismatch);
    }
    if !vault_account_owner.equals(vault_authority) {
        return Err(ErrorCode::VaultOwnerMismatch);
    }
    Ok(())
}

/// Whether the accounts given for a list of transfers match it: as many mints
/// as amounts, and one set of three accounts (the user's token account, the
/// vault's token account, the mint) per amount.
pub open spec fn transfer_lengths_match(amounts_len: int, mints_len: int, accounts_len: int) -> bool {
    amounts_len == mints_len && accounts_len == 3 * amounts_len
}

/// Checks that the accounts given for a list of transfers match it, before
/// any transfer is made; refused with `InvalidInputLength` otherwise.
pub fn check_transfer_lengths(amounts_len: usize, mints_len: usize, accounts_len: usize) -> (r: Result<
    (),
    ErrorCode,
>)
    ensures
        r == if transfer_lengths_match(amounts_len as int, mints_len as int, accounts_len as int) {
            Ok::<(), ErrorCode>(())
        } else {
            Err(ErrorCode::InvalidInputLength)
        },
{
    if amounts_len != mints_len || accounts_len % 3 != 0 || accounts_len / 3 != amounts_len {
        Err(ErrorCode::InvalidInputLength)
    } else {
        Ok(())
    }
}

/// The amounts and mints to deposit among the first `k` entries of a delta
/// split: the entries whose change is positive, in order.
pub open spec fn deposit_part(d: Seq<(u64, i128)>, m: MarketModel, k: int) -> (Seq<u64>, Seq<Pubkey>)
    decreases k,
{
    if k <= 0 {
        (Seq::empty(), Seq::empty())
    } else {
        let prev = deposit_part(d, m, k - 1);
        if d[k - 1].1 > 0 {
            (prev.0.push(((d[k - 1].1 as int) % two_pow_64()) as u64), prev.1.push(m.assets[k - 1].mint))
        } else {
            prev
        }
    }
}

/// The amounts and mints to withdraw among the first `k` entries of a delta
/// split: the entries whose change is negative, by the size of the change.
pub open spec fn withdraw_part(d: Seq<(u64, i128)>, m: MarketModel, k: int) -> (Seq<u64>, Seq<Pubkey>)
    decreases k,
{
    if k <= 0 {
        (Seq::empty(), Seq::empty())
    } else {
        let prev = withdraw_part(d, m, k - 1);
        if d[k - 1].1 < 0 {
            (prev.0.push(((-(d[k - 1].1 as int)) % two_pow_64()) as u64), prev.1.push(m.assets[k - 1].mint))
        } else {
            prev
        }
    }
}

/// Splits a delta split of the listed assets into the transfers to deposit
/// (positive changes) and the transfers to withdraw (negative changes), each
/// with the mint of its asset.
pub fn delta_split_extraction(delta_split: &Vec<(u64, i128)>, all_assets: &AllAssets) -> (r: (
    (Vec<u64>, Vec<Pubkey>),
    (Vec<u64>, Vec<Pubkey>),
))
    requires
        all_assets.size_assets <= MAX_ASSETS,
        delta_split.len() >= all_assets.size_assets,
        forall|i: int| 0 <= i < all_assets.size_assets ==> #[trigger] delta_split@[i].1 != i128::MIN,
    ensures
        r.0.0@ == deposit_part(delta_split@, all_assets@, all_assets.size_assets as int).0,
        r.0.1@ == deposit_part(delta_split@, all_assets@, all_assets.size_assets as int).1,
        r.1.0@ == withdraw_part(delta_split@, all_assets@, all_assets.size_assets as int).0,
        r.1.1@ == withdraw_part(delta_split@, all_assets@, all_assets.size_assets as int).1,
{
    let mut deposit_amounts: Vec<u64> = Vec::new();
    let mut deposit_mints: Vec<Pubkey> = Vec::new();
    let mut withdraw_amounts: Vec<u64> = Vec::new();
    let mut withdraw_mints: Vec<Pubkey> = Vec::new();
    let n = all_assets.size_assets as usize;
    let mut i: usize = 0;
    while i < n
        invariant
            n == all_assets.size_assets,
            n <= 2,
            i <= n,
            delta_split.len() >= n,
            forall|k: int| 0 <= k < n ==> #[trigger] delta_split@[k].1 != i128::MIN,
            deposit_amounts@ == deposit_part(delta_split@, all_assets@, i as int).0,
            deposit_mints@ == deposit_part(delta_split@, all_assets@, i as int).1,
            withdraw_amounts@ == withdraw_part(delta_split@, all_assets@, i as int).0,
            withdraw_mints@ == withdraw_part(delta_split@, all_assets@, i as int).1,
        decreases n - i,
    {
        let (_tick_index, amount_change) = delta_split[i];
        let mint = all_assets.assets[i].mint;
        if amount_change > 0 {
            deposit_amounts.push((amount_change % 0x1_0000_0000_0000_0000i128) as u64);
            deposit_mints.push(mint);
        } else if amount_change < 0 {
            withdraw_amounts.push(((-amount_change) % 0x1_0000_0000_0000_0000i128) as u64);
            withdraw_mints.push(mint);
        }
        i += 1;
    }
    ((deposit_amounts, deposit_mints), (withdraw_amounts, withdraw_mints))
}

} // verus!
