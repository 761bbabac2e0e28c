use vstd::prelude::*;
use crate::errors::ErrorCodes;
use crate::key::Key;
use crate::ledger::{StakingAccount, MAX_SUPPORTED_TOKENS, MAX_USERS, MAX_TOKENS_PER_USER};

verus! {

/// A request to put a token on the whitelist.
#[derive(Clone, Copy, Debug)]
pub struct AddToken {
    pub token_key: Key,
}

/// A request to stake `amount` of `token`.
#[derive(Clone, Copy, Debug)]
pub struct Stake {
    pub token: Key,
    pub amount: u64,
}

/// A request to withdraw `amount` of `token`.
#[derive(Clone, Copy, Debug)]
pub struct Withdraw {
    pub token: Key,
    pub amount: u64,
}

/// The value transfer that an accepted stake or withdrawal asks the
/// surrounding environment to perform: `amount` units, authorised by
/// `authority`. A stake moves them from the user to the pool, a withdrawal
/// from the pool to the user.
#[derive(Clone, Copy, Debug)]
pub struct TransferOrder {
    pub authority: Key,
    pub amount: u64,
}

/// Creates the ledger with `payer` as its administrator, provided that `payer`
/// is on the configured allowlist of administrators.
pub fn initialize(payer: &Key, allow_admin_keys: &Vec<Key>) -> (r: Result<StakingAccount, ErrorCodes>)
    ensures
        allow_admin_keys@.contains(*payer) ==> (r matches Ok(sa) && sa.wf() && sa.admin == *payer
            && sa.supported_tokens@.len() == 0 && sa.user_balances@.len() == 0),
        !allow_admin_keys@.contains(*payer) ==> r == Err::<StakingAccount, ErrorCodes>(
            ErrorCodes::Unauthorized,
        ),
{
    let mut i: usize = 0;
    while i < allow_admin_keys.len()
        invariant
            0 <= i <= allow_admin_keys@.len(),
            forall|k: int| 0 <= k < i ==> allow_admin_keys@[k] != *payer,
        decreases allow_admin_keys@.len() - i,
    {
        if allow_admin_keys[i] == *payer {
            return Ok(StakingAccount { admin: *payer, supported_tokens: Vec::new(), user_balances: Vec::new() });
        }
        i = i + 1;
    }
    Err(ErrorCodes::Unauthorized)
}

/// Appends `token.token_key` to the whitelist. Only the administrator may do
/// so, and only while the whitelist has room. A token already on the list is
/// appended again: the whitelist keeps every addition.
pub fn add_supported_token(staking_account: &mut StakingAccount, payer: &Key, token: &AddToken) -> (r: Result<(), ErrorCodes>)
    requires
        old(staking_account).wf(),
    ensures
        final(staking_account).wf(),
        *payer != old(staking_account).admin ==> r == Err::<(), ErrorCodes>(ErrorCodes::Unauthorized)
            && *final(staking_account) == *old(staking_account),
        *payer == old(staking_account).admin && old(staking_account).supported_tokens@.len()
            >= MAX_SUPPORTED_TOKENS ==> r == Err::<(), ErrorCodes>(ErrorCodes::CapacityExceeded)
            && *final(staking_account) == *old(staking_account),
        *payer == old(staking_account).admin && old(staking_account).supported_tokens@.len()
            < MAX_SUPPORTED_TOKENS ==> r is Ok && final(staking_account).admin == old(staking_account).admin
            && final(staking_account).supported_tokens@ == old(staking_account).supported_tokens@.push(token.token_key)
            && final(staking_account).user_balances == old(staking_account).user_balances,
{
    if staking_account.admin != *payer {
        return Err(ErrorCodes::Unauthorized);
    }
    if staking_account.supported_tokens.len() >= MAX_SUPPORTED_TOKENS {
        return Err(ErrorCodes::CapacityExceeded);
    }
    staking_account.supported_tokens.push(token.token_key);
    Ok(())
}

/// Why a stake of `staking` by `payer` is refused before any transfer is
/// attempted, or `None` where it goes ahead to the transfer.
pub open spec fn stake_error(sa: &StakingAccount, payer: Key, staking: Stake) -> Option<ErrorCodes> {
    if !sa.supported_tokens@.contains(staking.token) {
        Some(ErrorCodes::UnsupportedToken)
    } else if staking.amount == 0 {
        Some(ErrorCodes::InvalidAmount)
    } else if !sa.has_room_for(payer, staking.token) {
        Some(ErrorCodes::CapacityExceeded)
    } else if sa.staked(payer, staking.token) + staking.amount > u64::MAX {
        Some(ErrorCodes::ExceedsLimit)
    } else {
        None
    }
}

/// Why a withdrawal of `withdraw` by `payer` is refused before any transfer is
/// attempted, or `None` where it goes ahead to the transfer.
pub open spec fn withdraw_error(sa: &StakingAccount, payer: Key, withdraw: Withdraw) -> Option<ErrorCodes> {
    match sa.balance_of(payer, withdraw.token) {
        Some(b) => if b >= withdraw.amount {
            None
        } else {
            Some(ErrorCodes::ExceedsLimit)
        },
        None => Some(ErrorCodes::ExceedsLimit),
    }
}

fn is_supported(sa: &StakingAccount, token: &Key) -> (r: bool)
    ensures
        r == sa.supported_tokens@.contains(*token),
{
    let mut i: usize = 0;
    while i < sa.supported_tokens.len()
        invariant
            0 <= i <= sa.supported_tokens@.len(),
            forall|k: int| 0 <= k < i ==> sa.supported_tokens@[k] != *token,
        decreases sa.supported_tokens@.len() - i,
    {
        if sa.supported_tokens[i] == *token {
            assert(sa.supported_tokens@[i as int] == *token);
            return true;
        }
        i = i + 1;
    }
    false
}

/// Decides whether a stake of `staking` by `payer` may go ahead, and if so,
/// which transfer into the pool it needs. Changes nothing.
pub fn plan_stake(staking_account: &StakingAccount, payer: &Key, staking: &Stake) -> (r: Result<TransferOrder, ErrorCodes>)
    requires
        staking_account.wf(),
    ensures
        match stake_error(staking_account, *payer, *staking) {
            Some(e) => r == Err::<TransferOrder, ErrorCodes>(e),
            None => r == Ok::<TransferOrder, ErrorCodes>(
                (TransferOrder { authority: *payer, amount: staking.amount }),
            ),
        },
{
    if !is_supported(staking_account, &staking.token) {
        return Err(ErrorCodes::UnsupportedToken);
    }
    if staking.amount == 0 {
        return Err(ErrorCodes::InvalidAmount);
    }
    match staking_account.find_user(payer) {
        None => {
            if staking_account.user_balances.len() >= MAX_USERS {
                return Err(ErrorCodes::CapacityExceeded);
            }
        },
        Some(i) => {
            proof {
                assert(staking_account.user_balances@[i as int].wf());
            }
            match staking_account.user_balances[i].find_token(&staking.token) {
                None => {
                    if staking_account.user_balances[i].token_balance.len() >= MAX_TOKENS_PER_USER {
                        return Err(ErrorCodes::CapacityExceeded);
                    }
                },
                Some(j) => {
                    if staking_account.user_balances[i].token_balance[j].balance > u64::MAX
                        - staking.amount {
                        return Err(ErrorCodes::ExceedsLimit);
                    }
                },
            }
        },
    }
    Ok(TransferOrder { authority: *payer, amount: staking.amount })
}

/// Completes a stake once the transfer that `plan_stake` asked for has been
/// attempted, `transfer` being its outcome. The checks of `plan_stake` come
/// first; then a failed transfer refuses the stake; only then is the amount
/// added to `payer`'s balance of the token, creating the record where there is
/// none. A refused stake changes nothing.
pub fn stake_token(
    staking_account: &mut StakingAccount,
    payer: &Key,
    staking: &Stake,
    transfer: Result<(), u32>,
) -> (r: Result<(), ErrorCodes>)
    requires
        old(staking_account).wf(),
    ensures
        final(staking_account).wf(),
        match stake_error(old(staking_account), *payer, *staking) {
            Some(e) => r == Err::<(), ErrorCodes>(e) && *final(staking_account) == *old(
                staking_account,
            ),
            None => match transfer {
                Err(code) => r == Err::<(), ErrorCodes>(ErrorCodes::TransferFailed(code))
                    && *final(staking_account) == *old(staking_account),
                Ok(_) => r is Ok && final(staking_account).with_record(
                    old(staking_account),
                    *payer,
                    staking.token,
                    (old(staking_account).staked(*payer, staking.token) + staking.amount) as u64,
                ),
            },
        },
{
    match plan_stake(staking_account, payer, staking) {
        Err(e) => return Err(e),
        Ok(_) => {},
    }
    match transfer {
        Err(code) => return Err(ErrorCodes::TransferFailed(code)),
        Ok(_) => {},
    }
    let current: u64 = match staking_account.get_balance(payer, &staking.token) {
        Some(b) => b,
        None => 0,
    };
    staking_account.set_record(payer, &staking.token, current + staking.amount);
    Ok(())
}

/// Decides whether a withdrawal of `withdraw` by `payer` may go ahead, and if
/// so, which transfer out of the pool it needs. Changes nothing.
pub fn plan_withdraw(staking_account: &StakingAccount, payer: &Key, withdraw: &Withdraw) -> (r: Result<TransferOrder, ErrorCodes>)
    requires
        staking_account.wf(),
    ensures
        match withdraw_error(staking_account, *payer, *withdraw) {
            Some(e) => r == Err::<TransferOrder, ErrorCodes>(e),
            None => r == Ok::<TransferOrder, ErrorCodes>(
                (TransferOrder { authority: *payer, amount: withdraw.amount }),
            ),
        },
{
    match staking_account.get_balance(payer, &withdraw.token) {
        Some(b) => {
            if b >= withdraw.amount {
                Ok(TransferOrder { authority: *payer, amount: withdraw.amount })
            } else {
                Err(ErrorCodes::ExceedsLimit)
            }
        },
        None => Err(ErrorCodes::ExceedsLimit),
    }
}

/// Completes a withdrawal once the transfer that `plan_withdraw` asked for has
/// been attempted, `transfer` being its outcome. The balance check comes first;
/// then a failed transfer refuses the withdrawal; only then is the amount taken
/// off `payer`'s balance of the token. A refused withdrawal changes nothing.
pub fn withdraw_token(
    staking_account: &mut StakingAccount,
    payer: &Key,
    withdraw: &Withdraw,
    transfer: Result<(), u32>,
) -> (r: Result<(), ErrorCodes>)
    requires
        old(staking_account).wf(),
    ensures
        final(staking_account).wf(),
        match withdraw_error(old(staking_account), *payer, *withdraw) {
            Some(e) => r == Err::<(), ErrorCodes>(e) && *final(staking_account) == *old(
                staking_account,
            ),
            None => match transfer {
                Err(code) => r == Err::<(), ErrorCodes>(ErrorCodes::TransferFailed(code))
                    && *final(staking_account) == *old(staking_account),
                Ok(_) => r is Ok && final(staking_account).with_record(
                    old(staking_account),
                    *payer,
                    withdraw.token,
                    (old(staking_account).staked(*payer, withdraw.token) - withdraw.amount) as u64,
                ),
            },
        },
{
    let current: u64 = match staking_account.get_balance(payer, &withdraw.token) {
        Some(b) => b,
        None => return Err(ErrorCodes::ExceedsLimit),
    };
    if current < withdraw.amount {
        return Err(ErrorCodes::ExceedsLimit);
    }
    match transfer {
        Err(code) => return Err(ErrorCodes::TransferFailed(code)),
        Ok(_) => {},
    }
    staking_account.set_record(payer, &withdraw.token, current - withdraw.amount);
    Ok(())
}

} // verus!
