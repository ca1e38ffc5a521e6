//! Interest on a loan, and how it is divided between lender and platform.

use vstd::prelude::*;

verus! {

/// Number of seconds in a year of 365 days.
pub const SECONDS_PER_YEAR: u128 = 31_536_000;

/// Interest owed on `amount` lent at `start_time` when it is settled at
/// `current_time`, at `apy` percentage points a year, rounded down.
pub open spec fn reward_of(start_time: u64, apy: u16, current_time: u64, amount: u128) -> nat {
    ((amount as nat) * ((current_time - start_time) as nat) * (apy as nat)) / (
    SECONDS_PER_YEAR as nat)
}

/// Whether the interest can be computed in 128 bits: time does not run
/// backwards and the product of principal, elapsed seconds and rate fits.
pub open spec fn reward_computable(
    start_time: u64,
    apy: u16,
    current_time: u64,
    amount: u128,
) -> bool {
    &&& start_time <= current_time
    &&& (amount as nat) * ((current_time - start_time) as nat) * (apy as nat) <= u128::MAX
}

proof fn lemma_product_bounds(a: nat, e: nat, r: nat)
    requires
        r >= 1,
        e >= 1,
    ensures
        a * e <= a * e * r,
        a <= a * e,
{
    assert(a * e <= a * e * r) by (nonlinear_arith)
        requires
            r >= 1,
    ;
    assert(a <= a * e) by (nonlinear_arith)
        requires
            e >= 1,
    ;
}

/// Computes the interest on a loan.
pub fn calculate_reward(start_time: u64, apy: u16, current_time: u64, amount: u128) -> (reward:
    u128)
    requires
        reward_computable(start_time, apy, current_time, amount),
    ensures
        reward == reward_of(start_time, apy, current_time, amount),
{
    let elapsed: u64 = current_time - start_time;
    if apy == 0 || elapsed == 0 {
        assert((amount as nat) * (elapsed as nat) * (apy as nat) == 0) by (nonlinear_arith)
            requires
                apy == 0 || elapsed == 0,
        ;
        return 0;
    }
    proof {
        lemma_product_bounds(amount as nat, elapsed as nat, apy as nat);
    }
    let scaled: u128 = amount * (elapsed as u128);
    scaled * (apy as u128) / SECONDS_PER_YEAR
}

/// Computes the interest on a loan where it fits in 128 bits, and `None`
/// where time runs backwards or the product overflows.
pub fn checked_reward(start_time: u64, apy: u16, current_time: u64, amount: u128) -> (reward:
    Option<u128>)
    ensures
        reward is Some <==> reward_computable(start_time, apy, current_time, amount),
        reward is Some ==> reward.unwrap() == reward_of(start_time, apy, current_time, amount),
{
    if current_time < start_time {
        return None;
    }
    let elapsed: u64 = current_time - start_time;
    if apy == 0 || elapsed == 0 {
        assert((amount as nat) * (elapsed as nat) * (apy as nat) == 0) by (nonlinear_arith)
            requires
                apy == 0 || elapsed == 0,
        ;
        return Some(0);
    }
    proof {
        lemma_product_bounds(amount as nat, elapsed as nat, apy as nat);
    }
    match amount.checked_mul(elapsed as u128) {
        None => None,
        Some(scaled) => match scaled.checked_mul(apy as u128) {
            None => None,
            Some(product) => Some(product / SECONDS_PER_YEAR),
        },
    }
}

/// Whether a loan that started at `start_time` and may run for `max_time`
/// seconds is in default at `now`: strictly more than `max_time` seconds
/// have passed. A loan settled exactly at its deadline is on time.
pub open spec fn overdue(start_time: u64, max_time: u64, now: u64) -> bool {
    now - start_time > max_time
}

/// Decides whether a loan is in default at `now`.
pub fn is_overdue(start_time: u64, max_time: u64, now: u64) -> (late: bool)
    ensures
        late == overdue(start_time, max_time, now),
{
    now > start_time && now - start_time > max_time
}

/// The part of the interest `reward` that goes to the lender on top of the
/// principal, where `interest` is the lender's share in percentage points,
/// rounded down.
pub open spec fn lender_share(reward: u128, interest: u128) -> nat {
    ((reward as nat) * (interest as nat)) / 100
}

/// The part of the interest `reward` that goes to the platform, rounded
/// down.
pub open spec fn platform_share(reward: u128, interest: u128) -> nat {
    ((reward as nat) * ((100 - interest) as nat)) / 100
}

proof fn lemma_share_by_parts(whole: nat, rest: nat, percent: nat)
    requires
        rest < 100,
        percent <= 100,
    ensures
        ((100 * whole + rest) * percent) / 100 == whole * percent + (rest * percent) / 100,
        whole * percent <= 100 * whole,
        rest * percent <= 100 * rest,
{
    assert((100 * whole + rest) * percent == 100 * (whole * percent) + rest * percent)
        by (nonlinear_arith);
    assert(whole * percent <= 100 * whole) by (nonlinear_arith)
        requires
            percent <= 100,
    ;
    assert(rest * percent <= 100 * rest) by (nonlinear_arith)
        requires
            percent <= 100,
    ;
}

/// `percent` hundredths of `reward`, rounded down, computed without
/// overflow.
fn percentage(reward: u128, percent: u128) -> (part: u128)
    requires
        percent <= 100,
    ensures
        part == ((reward as nat) * (percent as nat)) / 100,
        part <= reward,
{
    let whole: u128 = reward / 100;
    let rest: u128 = reward % 100;
    proof {
        lemma_share_by_parts(whole as nat, rest as nat, percent as nat);
        assert(reward == 100 * whole + rest);
    }
    whole * percent + rest * percent / 100
}

/// Divides the interest `reward` between lender and platform.
pub fn split_reward(reward: u128, interest: u128) -> (shares: (u128, u128))
    requires
        interest <= 100,
    ensures
        shares.0 == lender_share(reward, interest),
        shares.1 == platform_share(reward, interest),
{
    (percentage(reward, interest), percentage(reward, 100 - interest))
}

/// Of the interest paid, lender and platform together receive all, or all
/// but one unit where rounding down twice loses it.
pub proof fn lemma_shares_within_reward(reward: u128, interest: u128)
    requires
        interest <= 100,
    ensures
        lender_share(reward, interest) + platform_share(reward, interest) <= reward,
        reward <= lender_share(reward, interest) + platform_share(reward, interest) + 1,
{
    let a = (reward as nat) * (interest as nat);
    let b = (reward as nat) * ((100 - interest) as nat);
    assert(a + b == 100 * (reward as nat)) by (nonlinear_arith)
        requires
            a == (reward as nat) * (interest as nat),
            b == (reward as nat) * ((100 - interest) as nat),
            interest <= 100,
    ;
}

/// Where the lender's share of the interest is a whole number of units,
/// nothing is lost: what lender and platform receive adds up to principal
/// and interest, which is what the borrower paid.
pub proof fn lemma_amount_conserved(amount: u128, reward: u128, interest: u128)
    requires
        interest <= 100,
        ((reward as nat) * (interest as nat)) % 100 == 0,
    ensures
        (amount + lender_share(reward, interest)) + platform_share(reward, interest) == amount
            + reward,
{
    let a = (reward as nat) * (interest as nat);
    let b = (reward as nat) * ((100 - interest) as nat);
    assert(a + b == 100 * (reward as nat)) by (nonlinear_arith)
        requires
            a == (reward as nat) * (interest as nat),
            b == (reward as nat) * ((100 - interest) as nat),
            interest <= 100,
    ;
}

/// A loan settled exactly `max_time` seconds after its start is on time; one
/// settled a second later is in default.
pub proof fn lemma_deadline_boundary(start_time: u64, max_time: u64)
    requires
        start_time + max_time + 1 <= u64::MAX,
    ensures
        !overdue(start_time, max_time, (start_time + max_time) as u64),
        overdue(start_time, max_time, (start_time + max_time + 1) as u64),
{
}

} // verus!
