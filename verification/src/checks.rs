//! Pre-flight guards: advisory checks made against freshly queried on-chain
//! state before a transaction is built. The queried values are handed in by
//! the caller; the guards decide.
use vstd::prelude::*;
use crate::amount::{max_amount, Amount};
use crate::errors::GuardError;

verus! {

/// Passes exactly when the queried ether balance covers the required amount;
/// equality passes.
pub fn check_balance(balance: &Amount, required_balance: &Amount) -> (r: Result<(), GuardError>)
    requires
        balance.wf(),
        required_balance.wf(),
    ensures
        r is Ok <==> balance@ >= required_balance@,
        r matches Err(e) ==> e is InsufficientBalance,
{
    if balance.lt(required_balance) {
        Err(GuardError::InsufficientBalance)
    } else {
        Ok(())
    }
}

/// Passes exactly when the queried token balance covers the required amount;
/// equality passes.
pub fn check_token_balance(balance: &Amount, required_balance: &Amount) -> (r: Result<
    (),
    GuardError,
>)
    requires
        balance.wf(),
        required_balance.wf(),
    ensures
        r is Ok <==> balance@ >= required_balance@,
        r matches Err(e) ==> e is InsufficientTokenBalance,
{
    if balance.lt(required_balance) {
        Err(GuardError::InsufficientTokenBalance)
    } else {
        Ok(())
    }
}

/// Passes exactly when the queried allowance covers the required amount;
/// equality passes.
pub fn check_allowance(allowance: &Amount, required_allowance: &Amount) -> (r: Result<
    (),
    GuardError,
>)
    requires
        allowance.wf(),
        required_allowance.wf(),
    ensures
        r is Ok <==> allowance@ >= required_allowance@,
        r matches Err(e) ==> e is InsufficientAllowance,
{
    if allowance.lt(required_allowance) {
        Err(GuardError::InsufficientAllowance)
    } else {
        Ok(())
    }
}

/// The sum of a sequence of percentages.
pub open spec fn sum_percents(s: Seq<u8>) -> nat
    decreases s.len(),
{
    if s.len() == 0 {
        0
    } else {
        sum_percents(s.drop_last()) + (s.last() as nat)
    }
}

/// The sum of the percentages of a dispersal.
pub fn percent_sum(percentages: &Vec<u8>) -> (r: u128)
    ensures
        r as nat == sum_percents(percentages@),
{
    let mut total: u128 = 0;
    let mut i: usize = 0;
    while i < percentages.len()
        invariant
            i <= percentages@.len(),
            total as nat == sum_percents(percentages@.take(i as int)),
            total <= 255 * i,
        decreases percentages@.len() - i,
    {
        proof {
            assert(percentages@.take(i + 1 as int).drop_last() =~= percentages@.take(i as int));
        }
        total = total + percentages[i] as u128;
        i += 1;
    }
    proof {
        assert(percentages@.take(percentages@.len() as int) =~= percentages@);
    }
    total
}

/// Passes exactly when the percentages sum to at most one hundred.
pub fn check_percentages(percentages: &Vec<u8>) -> (r: Result<(), GuardError>)
    ensures
        r is Ok <==> sum_percents(percentages@) <= 100,
        r matches Err(e) ==> e is PercentSumTooLarge,
{
    if percent_sum(percentages) > 100 {
        Err(GuardError::PercentSumTooLarge)
    } else {
        Ok(())
    }
}

/// The total value of a sequence of amounts.
pub open spec fn sum_amounts(s: Seq<Amount>) -> nat
    decreases s.len(),
{
    if s.len() == 0 {
        0
    } else {
        sum_amounts(s.drop_last()) + s.last()@
    }
}

/// Every amount of the sequence is well formed.
pub open spec fn all_amounts_wf(s: Seq<Amount>) -> bool {
    forall|i: int| 0 <= i < s.len() ==> s[i].wf()
}

/// Adds up a list of amounts exactly; `None` when the total would exceed
/// the largest 256-bit value.
pub fn total_amount(values: &Vec<Amount>) -> (r: Option<Amount>)
    requires
        all_amounts_wf(values@),
    ensures
        sum_amounts(values@) <= max_amount() ==> (r matches Some(t) && t.wf() && t@ == sum_amounts(
            values@,
        )),
        sum_amounts(values@) > max_amount() ==> r is None,
{
    let mut total = Amount::zero();
    let mut i: usize = 0;
    while i < values.len()
        invariant
            i <= values@.len(),
            all_amounts_wf(values@),
            total.wf(),
            total@ == sum_amounts(values@.take(i as int)),
        decreases values@.len() - i,
    {
        proof {
            assert(values@.take(i + 1 as int).drop_last() =~= values@.take(i as int));
            lemma_sum_amounts_prefix_le(values@, i + 1 as int);
        }
        total = match total.checked_add(&values[i]) {
            Some(t) => t,
            None => {
                return None;
            },
        };
        i += 1;
    }
    proof {
        assert(values@.take(values@.len() as int) =~= values@);
        crate::amount::lemma_amount_bounded(&total);
    }
    Some(total)
}

/// A prefix of the amounts sums to no more than all of them.
proof fn lemma_sum_amounts_prefix_le(s: Seq<Amount>, k: int)
    requires
        0 <= k <= s.len(),
    ensures
        sum_amounts(s.take(k)) <= sum_amounts(s),
    decreases s.len() - k,
{
    if k < s.len() {
        lemma_sum_amounts_prefix_le(s, k + 1);
        assert(s.take(k + 1).drop_last() =~= s.take(k));
    } else {
        assert(s.take(k) =~= s);
    }
}

} // verus!
