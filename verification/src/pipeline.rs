//! The request pipelines: for each endpoint, one function that takes the
//! request's values together with the freshly queried on-chain state, runs
//! every pre-flight guard in the endpoint's order, and builds the unsigned
//! transaction only when all guards pass. A rejected request never yields a
//! transaction.
use vstd::prelude::*;
use crate::address::{addr_views, all_addrs_wf, Address};
use crate::amount::{amount_views, max_amount, Amount};
use crate::checks::{
    all_amounts_wf, check_allowance, check_balance, check_percentages, check_token_balance,
    sum_amounts, sum_percents, total_amount,
};
use crate::disperse_collect::{
    collect_ether_call_data, collect_token_call_data, disperse_ether_by_percent_call_data,
    disperse_ether_call_data, disperse_token_by_percent_call_data, disperse_token_call_data,
    DisperseCollect,
};
use crate::erc20::{transfer_call_data, transfer_from_call_data, ERC20};
use crate::errors::GuardError;
use crate::tx::UnsignedTransaction;

verus! {

/// A token transfer: the sender's token balance must cover the amount.
pub fn plan_transfer(
    erc20: &ERC20,
    sender: &Address,
    recipient: &Address,
    amount: &Amount,
    sender_balance: &Amount,
) -> (r: Result<UnsignedTransaction, GuardError>)
    requires
        erc20.wf(),
        sender.wf(),
        recipient.wf(),
        amount.wf(),
        sender_balance.wf(),
    ensures
        r is Ok <==> sender_balance@ >= amount@,
        r matches Err(e) ==> e is InsufficientTokenBalance,
        r matches Ok(tx) ==> ({
            &&& tx.wf()
            &&& tx.to@ == erc20.token@
            &&& tx.data@ == transfer_call_data(recipient@, amount@)
            &&& tx.value@ == 0
            &&& tx.from matches Some(a) && a@ == sender@
            &&& !tx.prepared()
        }),
{
    check_token_balance(sender_balance, amount)?;
    Ok(erc20.create_transfer_tx(sender, recipient, amount))
}

/// A transfer-from: the owner's balance is checked first, then the sender's
/// allowance from the owner.
pub fn plan_transfer_from(
    erc20: &ERC20,
    sender: &Address,
    from: &Address,
    to: &Address,
    amount: &Amount,
    from_balance: &Amount,
    allowance: &Amount,
) -> (r: Result<UnsignedTransaction, GuardError>)
    requires
        erc20.wf(),
        sender.wf(),
        from.wf(),
        to.wf(),
        amount.wf(),
        from_balance.wf(),
        allowance.wf(),
    ensures
        r is Ok <==> (from_balance@ >= amount@ && allowance@ >= amount@),
        r matches Err(e) ==> ((e is InsufficientTokenBalance) <==> from_balance@ < amount@),
        r matches Err(e) ==> ((e is InsufficientAllowance) <==> (from_balance@ >= amount@
            && allowance@ < amount@)),
        r matches Ok(tx) ==> ({
            &&& tx.wf()
            &&& tx.to@ == erc20.token@
            &&& tx.data@ == transfer_from_call_data(from@, to@, amount@)
            &&& tx.value@ == 0
            &&& tx.from matches Some(a) && a@ == sender@
            &&& !tx.prepared()
        }),
{
    check_token_balance(from_balance, amount)?;
    check_allowance(allowance, amount)?;
    Ok(erc20.create_transfer_from_tx(sender, from, to, amount))
}

/// An ether dispersal by fixed amounts: the sender's ether balance must
/// cover the attached value.
pub fn plan_disperse_ether(
    dc: &DisperseCollect,
    sender: &Address,
    recipients: &Vec<Address>,
    values: &Vec<Amount>,
    value: &Amount,
    sender_balance: &Amount,
) -> (r: Result<UnsignedTransaction, GuardError>)
    requires
        dc.wf(),
        sender.wf(),
        all_addrs_wf(recipients@),
        all_amounts_wf(values@),
        value.wf(),
        sender_balance.wf(),
    ensures
        r is Ok <==> sender_balance@ >= value@,
        r matches Err(e) ==> e is InsufficientBalance,
        r matches Ok(tx) ==> ({
            &&& tx.wf()
            &&& tx.to@ == dc.address@
            &&& tx.data@ == disperse_ether_call_data(addr_views(recipients@), amount_views(values@))
            &&& tx.value@ == value@
            &&& tx.from matches Some(a) && a@ == sender@
            &&& !tx.prepared()
        }),
{
    check_balance(sender_balance, value)?;
    Ok(dc.create_disperse_ether_tx(sender, recipients, values, value))
}

/// An ether dispersal by percentages: percentages summing to more than one
/// hundred are rejected before any transaction is built, then the sender's
/// ether balance must cover the attached value.
pub fn plan_disperse_ether_by_percent(
    dc: &DisperseCollect,
    sender: &Address,
    recipients: &Vec<Address>,
    percentages: &Vec<u8>,
    value: &Amount,
    sender_balance: &Amount,
) -> (r: Result<UnsignedTransaction, GuardError>)
    requires
        dc.wf(),
        sender.wf(),
        all_addrs_wf(recipients@),
        value.wf(),
        sender_balance.wf(),
    ensures
        sum_percents(percentages@) > 100 ==> r is Err,
        r is Ok <==> (sum_percents(percentages@) <= 100 && sender_balance@ >= value@),
        r matches Err(e) ==> ((e is PercentSumTooLarge) <==> sum_percents(percentages@) > 100),
        r matches Err(e) ==> ((e is InsufficientBalance) <==> (sum_percents(percentages@) <= 100
            && sender_balance@ < value@)),
        r matches Ok(tx) ==> ({
            &&& tx.wf()
            &&& tx.to@ == dc.address@
            &&& tx.data@ == disperse_ether_by_percent_call_data(
                addr_views(recipients@),
                percentages@,
            )
            &&& tx.value@ == value@
            &&& tx.from matches Some(a) && a@ == sender@
            &&& !tx.prepared()
        }),
{
    check_percentages(percentages)?;
    check_balance(sender_balance, value)?;
    Ok(dc.create_disperse_ether_by_percent_tx(sender, recipients, percentages, value))
}

/// A token dispersal by fixed amounts: the values are summed exactly, and
/// the sender's token balance and the contract's allowance must both cover
/// the total.
pub fn plan_disperse_token(
    dc: &DisperseCollect,
    sender: &Address,
    token: &Address,
    recipients: &Vec<Address>,
    values: &Vec<Amount>,
    sender_balance: &Amount,
    allowance: &Amount,
) -> (r: Result<UnsignedTransaction, GuardError>)
    requires
        dc.wf(),
        sender.wf(),
        token.wf(),
        all_addrs_wf(recipients@),
        all_amounts_wf(values@),
        sender_balance.wf(),
        allowance.wf(),
    ensures
        sum_amounts(values@) > max_amount() ==> (r matches Err(e) && e is TotalOverflow),
        sum_amounts(values@) <= max_amount() ==> (r is Ok <==> (sender_balance@ >= sum_amounts(
            values@,
        ) && allowance@ >= sum_amounts(values@))),
        sum_amounts(values@) <= max_amount() ==> (r matches Err(e) ==> ((e
            is InsufficientTokenBalance) <==> sender_balance@ < sum_amounts(values@))),
        sum_amounts(values@) <= max_amount() ==> (r matches Err(e) ==> ((e
            is InsufficientAllowance) <==> (sender_balance@ >= sum_amounts(values@) && allowance@
            < sum_amounts(values@)))),
        r matches Ok(tx) ==> ({
            &&& tx.wf()
            &&& tx.to@ == dc.address@
            &&& tx.data@ == disperse_token_call_data(
                token@,
                addr_views(recipients@),
                amount_views(values@),
            )
            &&& tx.value@ == 0
            &&& tx.from matches Some(a) && a@ == sender@
            &&& !tx.prepared()
        }),
{
    let total = match total_amount(values) {
        Some(t) => t,
        None => {
            return Err(GuardError::TotalOverflow);
        },
    };
    check_token_balance(sender_balance, &total)?;
    check_allowance(allowance, &total)?;
    Ok(dc.create_disperse_token_tx(sender, token, recipients, values))
}

/// A token dispersal by percentages: a zero allowance is rejected first,
/// then percentages summing to more than one hundred, then a token balance
/// below the allowance; in particular, percentages summing to more than one
/// hundred never yield a transaction.
pub fn plan_disperse_token_by_percent(
    dc: &DisperseCollect,
    sender: &Address,
    token: &Address,
    recipients: &Vec<Address>,
    percentages: &Vec<u8>,
    allowance: &Amount,
    sender_balance: &Amount,
) -> (r: Result<UnsignedTransaction, GuardError>)
    requires
        dc.wf(),
        sender.wf(),
        token.wf(),
        all_addrs_wf(recipients@),
        allowance.wf(),
        sender_balance.wf(),
    ensures
        sum_percents(percentages@) > 100 ==> r is Err,
        r is Ok <==> (allowance@ > 0 && sum_percents(percentages@) <= 100 && sender_balance@
            >= allowance@),
        r matches Err(e) ==> ((e is ZeroAllowance) <==> allowance@ == 0),
        r matches Err(e) ==> ((e is PercentSumTooLarge) <==> (allowance@ > 0 && sum_percents(
            percentages@,
        ) > 100)),
        r matches Err(e) ==> ((e is InsufficientTokenBalance) <==> (allowance@ > 0 && sum_percents(
            percentages@,
        ) <= 100 && sender_balance@ < allowance@)),
        r matches Ok(tx) ==> ({
            &&& tx.wf()
            &&& tx.to@ == dc.address@
            &&& tx.data@ == disperse_token_by_percent_call_data(
                token@,
                addr_views(recipients@),
                percentages@,
            )
            &&& tx.value@ == 0
            &&& tx.from matches Some(a) && a@ == sender@
            &&& !tx.prepared()
        }),
{
    if allowance.is_zero() {
        return Err(GuardError::ZeroAllowance);
    }
    check_percentages(percentages)?;
    check_token_balance(sender_balance, allowance)?;
    Ok(dc.create_disperse_token_by_percent_tx(sender, token, recipients, percentages))
}

/// An ether collection: the sender's ether balance must cover the attached
/// value.
pub fn plan_collect_ether(
    dc: &DisperseCollect,
    sender: &Address,
    recipient: &Address,
    value: &Amount,
    sender_balance: &Amount,
) -> (r: Result<UnsignedTransaction, GuardError>)
    requires
        dc.wf(),
        sender.wf(),
        recipient.wf(),
        value.wf(),
        sender_balance.wf(),
    ensures
        r is Ok <==> sender_balance@ >= value@,
        r matches Err(e) ==> e is InsufficientBalance,
        r matches Ok(tx) ==> ({
            &&& tx.wf()
            &&& tx.to@ == dc.address@
            &&& tx.data@ == collect_ether_call_data(recipient@)
            &&& tx.value@ == value@
            &&& tx.from matches Some(a) && a@ == sender@
            &&& !tx.prepared()
        }),
{
    check_balance(sender_balance, value)?;
    Ok(dc.create_collect_ether_tx(sender, recipient, value))
}

/// Contributor `i` passes the collection guards when their token balance and
/// allowance both cover their amount.
pub open spec fn contributor_ok(values: Seq<Amount>, balances: Seq<Amount>, allowances: Seq<Amount>, i: int) -> bool {
    balances[i]@ >= values[i]@ && allowances[i]@ >= values[i]@
}

/// A token collection: for each contributor, in order and paired with the
/// amounts, the contributor's token balance is checked first, then their
/// allowance; the first failure rejects the whole request.
#[verifier::loop_isolation(false)]
pub fn plan_collect_token(
    dc: &DisperseCollect,
    sender: &Address,
    token: &Address,
    recipient: &Address,
    contributors: &Vec<Address>,
    values: &Vec<Amount>,
    balances: &Vec<Amount>,
    allowances: &Vec<Amount>,
) -> (r: Result<UnsignedTransaction, GuardError>)
    requires
        dc.wf(),
        sender.wf(),
        token.wf(),
        recipient.wf(),
        all_addrs_wf(contributors@),
        all_amounts_wf(values@),
        all_amounts_wf(balances@),
        all_amounts_wf(allowances@),
        balances@.len() == if contributors@.len() < values@.len() {
            contributors@.len()
        } else {
            values@.len()
        },
        allowances@.len() == balances@.len(),
    ensures
        r is Ok <==> (forall|i: int|
            0 <= i < balances@.len() ==> contributor_ok(values@, balances@, allowances@, i)),
        r matches Err(e) ==> (exists|i: int|
            {
                &&& 0 <= i < balances@.len()
                &&& forall|j: int| 0 <= j < i ==> contributor_ok(values@, balances@, allowances@, j)
                &&& ((e is InsufficientTokenBalance && balances@[i]@ < values@[i]@) || (e
                    is InsufficientAllowance && balances@[i]@ >= values@[i]@ && allowances@[i]@
                    < values@[i]@))
            }),
        r matches Ok(tx) ==> ({
            &&& tx.wf()
            &&& tx.to@ == dc.address@
            &&& tx.data@ == collect_token_call_data(
                token@,
                recipient@,
                addr_views(contributors@),
                amount_views(values@),
            )
            &&& tx.value@ == 0
            &&& tx.from matches Some(a) && a@ == sender@
            &&& !tx.prepared()
        }),
{
    let mut i: usize = 0;
    let n = balances.len();
    while i < n
        invariant
            i <= n,
            forall|j: int| 0 <= j < i ==> contributor_ok(values@, balances@, allowances@, j),
        decreases n - i,
    {
        if let Err(e) = check_token_balance(&balances[i], &values[i]) {
            proof {
                assert(!contributor_ok(values@, balances@, allowances@, i as int));
            }
            return Err(e);
        }
        if let Err(e) = check_allowance(&allowances[i], &values[i]) {
            proof {
                assert(!contributor_ok(values@, balances@, allowances@, i as int));
            }
            return Err(e);
        }
        i += 1;
    }
    Ok(dc.create_collect_token_tx(sender, token, recipient, contributors, values))
}

} // verus!
