use vstd::prelude::*;
use crate::errors::ErrorCodes;
use crate::key::Key;
use crate::ledger::{StakingAccount, MAX_USERS, MAX_TOKENS_PER_USER};
use crate::program::{Stake, Withdraw, stake_error, withdraw_error};

verus! {

/// A stake of a token that is not on the whitelist is refused with
/// `UnsupportedToken`, before any transfer is asked for.
pub proof fn lemma_unlisted_token_refused(sa: StakingAccount, u: Key, staking: Stake)
    requires
        !sa.supported_tokens@.contains(staking.token),
    ensures
        stake_error(&sa, u, staking) == Some(ErrorCodes::UnsupportedToken),
{
}

/// A stake of zero of a whitelisted token is refused with `InvalidAmount`,
/// before any transfer is asked for.
pub proof fn lemma_zero_stake_refused(sa: StakingAccount, u: Key, t: Key)
    requires
        sa.supported_tokens@.contains(t),
    ensures
        stake_error(&sa, u, Stake { token: t, amount: 0 }) == Some(ErrorCodes::InvalidAmount),
{
}

/// A withdrawal of more than the recorded balance, or with no balance recorded,
/// is refused with `ExceedsLimit`, before any transfer is asked for.
pub proof fn lemma_withdraw_beyond_balance_refused(sa: StakingAccount, u: Key, withdraw: Withdraw)
    requires
        sa.staked(u, withdraw.token) < withdraw.amount,
    ensures
        withdraw_error(&sa, u, withdraw) == Some(ErrorCodes::ExceedsLimit),
{
}

/// A positive stake of a whitelisted token by a user new to a ledger that
/// already holds the most users it can, or of a token new to a user who already
/// holds the most tokens one user can, is refused with `CapacityExceeded`.
pub proof fn lemma_full_ledger_refuses_stake(sa: StakingAccount, u: Key, staking: Stake)
    requires
        sa.wf(),
        sa.supported_tokens@.contains(staking.token),
        staking.amount > 0,
        (sa.user_entry(u) is None && sa.user_count() == MAX_USERS) || (sa.balance_of(u, staking.token) is None
            && sa.token_count(u) == MAX_TOKENS_PER_USER),
    ensures
        stake_error(&sa, u, staking) == Some(ErrorCodes::CapacityExceeded),
{
}

/// A positive stake of a whitelisted token that is accepted and whose transfer
/// succeeds, followed by a withdrawal of the same amount by the same user: the
/// withdrawal is accepted too, each asks for one transfer of that amount, and
/// the user's balance of the token is back where it started (zero for a user
/// who had none).
pub proof fn lemma_stake_then_withdraw(
    s0: StakingAccount,
    s1: StakingAccount,
    s2: StakingAccount,
    u: Key,
    t: Key,
    a: u64,
)
    requires
        s0.wf(),
        s1.wf(),
        stake_error(&s0, u, Stake { token: t, amount: a }) is None,
        s1.with_record(&s0, u, t, (s0.staked(u, t) + a) as u64),
        s2.with_record(&s1, u, t, (s1.staked(u, t) - a) as u64),
    ensures
        withdraw_error(&s1, u, Withdraw { token: t, amount: a }) is None,
        s2.balance_of(u, t) == Some(s0.staked(u, t) as u64),
        s2.staked(u, t) == s0.staked(u, t),
{
    assert(s1.balance_of(u, t) == Some((s0.staked(u, t) + a) as u64));
    assert(s2.balance_of(u, t) == Some((s1.staked(u, t) - a) as u64));
}

/// Two accepted stakes of the same token by the same user, each with a
/// successful transfer, add up: the balance grows by the sum of the amounts.
pub proof fn lemma_stakes_accumulate(
    s0: StakingAccount,
    s1: StakingAccount,
    s2: StakingAccount,
    u: Key,
    t: Key,
    a1: u64,
    a2: u64,
)
    requires
        s0.wf(),
        s1.wf(),
        stake_error(&s0, u, Stake { token: t, amount: a1 }) is None,
        s1.with_record(&s0, u, t, (s0.staked(u, t) + a1) as u64),
        stake_error(&s1, u, Stake { token: t, amount: a2 }) is None,
        s2.with_record(&s1, u, t, (s1.staked(u, t) + a2) as u64),
    ensures
        s2.staked(u, t) == s0.staked(u, t) + a1 + a2,
{
    assert(s1.balance_of(u, t) == Some((s0.staked(u, t) + a1) as u64));
    assert(s2.balance_of(u, t) == Some((s1.staked(u, t) + a2) as u64));
}

} // verus!
