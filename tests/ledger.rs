use staking_ledger::errors::ErrorCodes;
use staking_ledger::key::Key;
use staking_ledger::ledger::{StakingAccount, TokenBalance, UserTokenBalance};
use staking_ledger::program::{
    add_supported_token, initialize, plan_stake, plan_withdraw, stake_token, withdraw_token,
    AddToken, Stake, Withdraw,
};

fn key(n: u8) -> Key {
    Key::new([n; 32])
}

fn wide_key(n: u16) -> Key {
    let mut bytes = [0u8; 32];
    bytes[0] = (n >> 8) as u8;
    bytes[1] = (n & 0xff) as u8;
    bytes[31] = 0xee;
    Key::new(bytes)
}

fn ledger_with(admin: Key, tokens: &[Key]) -> StakingAccount {
    let mut sa = initialize(&admin, &vec![admin]).unwrap();
    for t in tokens {
        add_supported_token(&mut sa, &admin, &AddToken { token_key: *t }).unwrap();
    }
    sa
}

fn stake(sa: &mut StakingAccount, u: Key, t: Key, amount: u64) -> Result<(), ErrorCodes> {
    stake_token(sa, &u, &Stake { token: t, amount }, Ok(()))
}

fn withdraw(sa: &mut StakingAccount, u: Key, t: Key, amount: u64) -> Result<(), ErrorCodes> {
    withdraw_token(sa, &u, &Withdraw { token: t, amount }, Ok(()))
}

#[test]
fn key_equality_compares_every_byte() {
    let mut b = [7u8; 32];
    assert!(Key::new(b) == key(7));
    b[31] = 8;
    assert!(Key::new(b) != key(7));
    assert_eq!(Key::new(b).to_bytes(), b);
}

#[test]
fn initialize_on_allowlist_makes_payer_admin() {
    let a = key(1);
    let sa = initialize(&a, &vec![key(9), a]).unwrap();
    assert!(sa.admin == a);
    assert!(sa.supported_tokens.is_empty());
    assert!(sa.user_balances.is_empty());
}

#[test]
fn initialize_off_allowlist_is_unauthorized() {
    assert_eq!(initialize(&key(1), &vec![key(2)]).err(), Some(ErrorCodes::Unauthorized));
    assert_eq!(initialize(&key(1), &vec![]).err(), Some(ErrorCodes::Unauthorized));
}

#[test]
fn non_admin_cannot_add_token() {
    let mut sa = ledger_with(key(1), &[key(10)]);
    let r = add_supported_token(&mut sa, &key(2), &AddToken { token_key: key(11) });
    assert_eq!(r, Err(ErrorCodes::Unauthorized));
    assert_eq!(sa.supported_tokens, vec![key(10)]);
}

#[test]
fn admin_adds_tokens_in_order_and_keeps_duplicates() {
    let mut sa = ledger_with(key(1), &[key(10), key(11)]);
    add_supported_token(&mut sa, &key(1), &AddToken { token_key: key(10) }).unwrap();
    assert_eq!(sa.supported_tokens, vec![key(10), key(11), key(10)]);
}

#[test]
fn fifty_first_whitelist_entry_is_refused() {
    let tokens: Vec<Key> = (0..50u16).map(wide_key).collect();
    let mut sa = ledger_with(key(1), &tokens);
    assert_eq!(sa.supported_tokens.len(), 50);
    let r = add_supported_token(&mut sa, &key(1), &AddToken { token_key: key(200) });
    assert_eq!(r, Err(ErrorCodes::CapacityExceeded));
    assert_eq!(sa.supported_tokens, tokens);
}

#[test]
fn stake_of_unlisted_token_is_refused() {
    let mut sa = ledger_with(key(1), &[key(10)]);
    let s = Stake { token: key(11), amount: 5 };
    assert_eq!(plan_stake(&sa, &key(2), &s).err(), Some(ErrorCodes::UnsupportedToken));
    assert_eq!(stake_token(&mut sa, &key(2), &s, Ok(())), Err(ErrorCodes::UnsupportedToken));
    assert_eq!(sa.get_balance(&key(2), &key(11)), None);
    assert!(sa.user_balances.is_empty());
}

#[test]
fn stake_of_zero_is_refused() {
    let mut sa = ledger_with(key(1), &[key(10)]);
    let s = Stake { token: key(10), amount: 0 };
    assert_eq!(plan_stake(&sa, &key(2), &s).err(), Some(ErrorCodes::InvalidAmount));
    assert_eq!(stake_token(&mut sa, &key(2), &s, Ok(())), Err(ErrorCodes::InvalidAmount));
    assert!(sa.user_balances.is_empty());
}

#[test]
fn stake_asks_for_one_transfer_of_the_amount() {
    let sa = ledger_with(key(1), &[key(10)]);
    let order = plan_stake(&sa, &key(2), &Stake { token: key(10), amount: 77 }).unwrap();
    assert!(order.authority == key(2));
    assert_eq!(order.amount, 77);
}

#[test]
fn stake_then_withdraw_same_amount_returns_to_zero() {
    let (u, t) = (key(2), key(10));
    let mut sa = ledger_with(key(1), &[t]);
    assert_eq!(plan_stake(&sa, &u, &Stake { token: t, amount: 25 }).unwrap().amount, 25);
    stake(&mut sa, u, t, 25).unwrap();
    assert_eq!(sa.get_balance(&u, &t), Some(25));
    assert_eq!(plan_withdraw(&sa, &u, &Withdraw { token: t, amount: 25 }).unwrap().amount, 25);
    withdraw(&mut sa, u, t, 25).unwrap();
    assert_eq!(sa.get_balance(&u, &t), Some(0));
}

#[test]
fn withdraw_beyond_balance_is_refused() {
    let (u, t) = (key(2), key(10));
    let mut sa = ledger_with(key(1), &[t]);
    stake(&mut sa, u, t, 30).unwrap();
    let w = Withdraw { token: t, amount: 31 };
    assert_eq!(plan_withdraw(&sa, &u, &w).err(), Some(ErrorCodes::ExceedsLimit));
    assert_eq!(withdraw_token(&mut sa, &u, &w, Ok(())), Err(ErrorCodes::ExceedsLimit));
    assert_eq!(sa.get_balance(&u, &t), Some(30));
}

#[test]
fn withdraw_without_record_is_refused() {
    let (u, t) = (key(2), key(10));
    let mut sa = ledger_with(key(1), &[t, key(11)]);
    assert_eq!(withdraw(&mut sa, u, t, 0), Err(ErrorCodes::ExceedsLimit));
    stake(&mut sa, u, key(11), 5).unwrap();
    assert_eq!(withdraw(&mut sa, u, t, 1), Err(ErrorCodes::ExceedsLimit));
    assert_eq!(sa.get_balance(&u, &key(11)), Some(5));
}

#[test]
fn stakes_accumulate() {
    let (u, t) = (key(2), key(10));
    let mut sa = ledger_with(key(1), &[t]);
    stake(&mut sa, u, t, 30).unwrap();
    stake(&mut sa, u, t, 12).unwrap();
    assert_eq!(sa.get_balance(&u, &t), Some(42));
    assert_eq!(sa.user_balances.len(), 1);
    assert_eq!(sa.user_balances[0].token_balance.len(), 1);
}

#[test]
fn balances_are_kept_per_user_and_token() {
    let mut sa = ledger_with(key(1), &[key(10), key(11)]);
    stake(&mut sa, key(2), key(10), 1).unwrap();
    stake(&mut sa, key(2), key(11), 2).unwrap();
    stake(&mut sa, key(3), key(10), 3).unwrap();
    assert_eq!(sa.get_balance(&key(2), &key(10)), Some(1));
    assert_eq!(sa.get_balance(&key(2), &key(11)), Some(2));
    assert_eq!(sa.get_balance(&key(3), &key(10)), Some(3));
    assert_eq!(sa.get_balance(&key(3), &key(11)), None);
    assert_eq!(sa.user_balances.len(), 2);
}

#[test]
fn failed_transfer_leaves_stake_unrecorded() {
    let (u, t) = (key(2), key(10));
    let mut sa = ledger_with(key(1), &[t]);
    stake(&mut sa, u, t, 10).unwrap();
    let r = stake_token(&mut sa, &u, &Stake { token: t, amount: 5 }, Err(7));
    assert_eq!(r, Err(ErrorCodes::TransferFailed(7)));
    assert_eq!(sa.get_balance(&u, &t), Some(10));
    let r = stake_token(&mut sa, &key(3), &Stake { token: t, amount: 5 }, Err(8));
    assert_eq!(r, Err(ErrorCodes::TransferFailed(8)));
    assert_eq!(sa.user_balances.len(), 1);
}

#[test]
fn failed_transfer_leaves_withdrawal_unrecorded() {
    let (u, t) = (key(2), key(10));
    let mut sa = ledger_with(key(1), &[t]);
    stake(&mut sa, u, t, 10).unwrap();
    let r = withdraw_token(&mut sa, &u, &Withdraw { token: t, amount: 4 }, Err(3));
    assert_eq!(r, Err(ErrorCodes::TransferFailed(3)));
    assert_eq!(sa.get_balance(&u, &t), Some(10));
}

#[test]
fn validation_comes_before_transfer_outcome() {
    let (u, t) = (key(2), key(10));
    let mut sa = ledger_with(key(1), &[t]);
    let r = stake_token(&mut sa, &u, &Stake { token: t, amount: 0 }, Err(3));
    assert_eq!(r, Err(ErrorCodes::InvalidAmount));
    let r = withdraw_token(&mut sa, &u, &Withdraw { token: t, amount: 1 }, Err(3));
    assert_eq!(r, Err(ErrorCodes::ExceedsLimit));
}

#[test]
fn stake_past_largest_balance_is_refused() {
    let (u, t) = (key(2), key(10));
    let mut sa = ledger_with(key(1), &[t]);
    stake(&mut sa, u, t, u64::MAX - 1).unwrap();
    stake(&mut sa, u, t, 1).unwrap();
    assert_eq!(sa.get_balance(&u, &t), Some(u64::MAX));
    assert_eq!(stake(&mut sa, u, t, 1), Err(ErrorCodes::ExceedsLimit));
    assert_eq!(sa.get_balance(&u, &t), Some(u64::MAX));
}

#[test]
fn five_hundred_first_user_is_refused() {
    let t = key(10);
    let mut sa = ledger_with(key(1), &[t]);
    for n in 0..500u16 {
        stake(&mut sa, wide_key(n), t, 1).unwrap();
    }
    assert_eq!(sa.user_balances.len(), 500);
    assert_eq!(stake(&mut sa, wide_key(500), t, 1), Err(ErrorCodes::CapacityExceeded));
    assert_eq!(sa.user_balances.len(), 500);
    assert_eq!(sa.get_balance(&wide_key(500), &t), None);
    stake(&mut sa, wide_key(499), t, 1).unwrap();
    assert_eq!(sa.get_balance(&wide_key(499), &t), Some(2));
}

#[test]
fn fifty_first_token_of_one_user_is_refused() {
    let (u, t) = (key(2), key(1));
    let held: Vec<TokenBalance> =
        (0..50u16).map(|n| TokenBalance { token_key: wide_key(n), balance: 1 }).collect();
    let mut sa = StakingAccount {
        admin: key(1),
        supported_tokens: vec![t],
        user_balances: vec![UserTokenBalance { user_key: u, token_balance: held }],
    };
    assert_eq!(stake(&mut sa, u, t, 1), Err(ErrorCodes::CapacityExceeded));
    assert_eq!(sa.user_balances[0].token_balance.len(), 50);
    stake(&mut sa, key(3), t, 1).unwrap();
    assert_eq!(sa.get_balance(&key(3), &t), Some(1));
}

#[test]
fn admin_user_stake_withdraw_walkthrough() {
    let (a, tok, u) = (key(1), key(10), key(2));
    let mut sa = initialize(&a, &vec![a]).unwrap();
    assert!(sa.supported_tokens.is_empty());
    add_supported_token(&mut sa, &a, &AddToken { token_key: tok }).unwrap();
    assert_eq!(sa.supported_tokens, vec![tok]);

    let s = Stake { token: tok, amount: 100 };
    let order = plan_stake(&sa, &u, &s).unwrap();
    assert!(order.authority == u);
    assert_eq!(order.amount, 100);
    stake_token(&mut sa, &u, &s, Ok(())).unwrap();
    assert_eq!(sa.get_balance(&u, &tok), Some(100));

    let w = Withdraw { token: tok, amount: 40 };
    assert_eq!(plan_withdraw(&sa, &u, &w).unwrap().amount, 40);
    withdraw_token(&mut sa, &u, &w, Ok(())).unwrap();
    assert_eq!(sa.get_balance(&u, &tok), Some(60));

    let w = Withdraw { token: tok, amount: 100 };
    assert_eq!(plan_withdraw(&sa, &u, &w).err(), Some(ErrorCodes::ExceedsLimit));
    assert_eq!(withdraw_token(&mut sa, &u, &w, Ok(())), Err(ErrorCodes::ExceedsLimit));
    assert_eq!(sa.get_balance(&u, &tok), Some(60));
}
