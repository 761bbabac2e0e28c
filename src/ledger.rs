use vstd::prelude::*;
use crate::key::Key;

verus! {

/// Largest number of entries on the token whitelist.
pub const MAX_SUPPORTED_TOKENS: usize = 50;

/// Largest number of distinct users with an entry in the ledger.
pub const MAX_USERS: usize = 500;

/// Largest number of distinct tokens recorded for one user.
pub const MAX_TOKENS_PER_USER: usize = 50;

/// The amount of one token that one user has staked.
#[derive(Clone, Copy, Debug)]
pub struct TokenBalance {
    pub token_key: Key,
    pub balance: u64,
}

/// One user's staked balances, one entry per token.
#[derive(Clone, Debug)]
pub struct UserTokenBalance {
    pub user_key: Key,
    pub token_balance: Vec<TokenBalance>,
}

/// The ledger record: its administrator, the token whitelist, and every
/// user's balances.
#[derive(Clone, Debug)]
pub struct StakingAccount {
    pub admin: Key,
    pub supported_tokens: Vec<Key>,
    pub user_balances: Vec<UserTokenBalance>,
}

impl UserTokenBalance {
    /// At most one entry per token, and no more entries than the bound.
    pub open spec fn wf(&self) -> bool {
        &&& self.token_balance@.len() <= MAX_TOKENS_PER_USER
        &&& forall|i: int, j: int|
            0 <= i < j < self.token_balance@.len() ==> #[trigger] self.token_balance@[i].token_key
                != #[trigger] self.token_balance@[j].token_key
    }

    pub open spec fn holds_token(&self, j: int, t: Key) -> bool {
        0 <= j < self.token_balance@.len() && self.token_balance@[j].token_key == t
    }

    /// The position of the entry for token `t`, if there is one.
    pub open spec fn token_entry(&self, t: Key) -> Option<int> {
        if exists|j: int| self.holds_token(j, t) {
            Some(choose|j: int| self.holds_token(j, t))
        } else {
            None
        }
    }

    /// The recorded amount of token `t`, if any is recorded.
    pub open spec fn amount_of(&self, t: Key) -> Option<u64> {
        match self.token_entry(t) {
            Some(j) => Some(self.token_balance@[j].balance),
            None => None,
        }
    }
}

impl StakingAccount {
    /// The record's invariant: bounded lists, at most one entry per user, and
    /// at most one entry per token within each user's entry.
    pub open spec fn wf(&self) -> bool {
        &&& self.supported_tokens@.len() <= MAX_SUPPORTED_TOKENS
        &&& self.user_balances@.len() <= MAX_USERS
        &&& forall|i: int, j: int|
            0 <= i < j < self.user_balances@.len() ==> #[trigger] self.user_balances@[i].user_key
                != #[trigger] self.user_balances@[j].user_key
        &&& forall|i: int| 0 <= i < self.user_balances@.len() ==> #[trigger] self.user_balances@[i].wf()
    }

    pub open spec fn holds_user(&self, i: int, u: Key) -> bool {
        0 <= i < self.user_balances@.len() && self.user_balances@[i].user_key == u
    }

    /// The position of user `u`'s entry, if there is one.
    pub open spec fn user_entry(&self, u: Key) -> Option<int> {
        if exists|i: int| self.holds_user(i, u) {
            Some(choose|i: int| self.holds_user(i, u))
        } else {
            None
        }
    }

    /// The amount of token `t` recorded for user `u`, if a record exists.
    pub open spec fn balance_of(&self, u: Key, t: Key) -> Option<u64> {
        match self.user_entry(u) {
            Some(i) => self.user_balances@[i].amount_of(t),
            None => None,
        }
    }

    /// The amount of token `t` that user `u` has staked: zero without a record.
    pub open spec fn staked(&self, u: Key, t: Key) -> nat {
        match self.balance_of(u, t) {
            Some(b) => b as nat,
            None => 0,
        }
    }

    /// The number of users with an entry.
    pub open spec fn user_count(&self) -> nat {
        self.user_balances@.len()
    }

    /// The number of tokens recorded for user `u`.
    pub open spec fn token_count(&self, u: Key) -> nat {
        match self.user_entry(u) {
            Some(i) => self.user_balances@[i].token_balance@.len(),
            None => 0,
        }
    }

    /// The records of `self` and `other` agree everywhere: same balances and
    /// same number of entries for every user.
    pub open spec fn same_records(&self, other: &StakingAccount) -> bool {
        &&& self.user_count() == other.user_count()
        &&& forall|u: Key| #[trigger] self.token_count(u) == other.token_count(u)
        &&& forall|u: Key, t: Key| #[trigger] self.balance_of(u, t) == other.balance_of(u, t)
    }

    /// Returns the amount of token `t` recorded for user `u`, if a record exists.
    pub fn get_balance(&self, u: &Key, t: &Key) -> (r: Option<u64>)
        requires
            self.wf(),
        ensures
            r == self.balance_of(*u, *t),
    {
        match self.find_user(u) {
            Some(i) => {
                proof {
                    assert(self.user_balances@[i as int].wf());
                }
                match self.user_balances[i].find_token(t) {
                    Some(j) => Some(self.user_balances[i].token_balance[j].balance),
                    None => None,
                }
            },
            None => None,
        }
    }

    /// Returns the position of user `u`'s entry, if there is one.
    pub fn find_user(&self, u: &Key) -> (r: Option<usize>)
        requires
            self.wf(),
        ensures
            match self.user_entry(*u) {
                Some(i) => r == Some(i as usize),
                None => r is None,
            },
    {
        let mut i: usize = 0;
        while i < self.user_balances.len()
            invariant
                self.wf(),
                0 <= i <= self.user_balances@.len(),
                forall|k: int| 0 <= k < i ==> !self.holds_user(k, *u),
            decreases self.user_balances@.len() - i,
        {
            if self.user_balances[i].user_key == *u {
                assert(self.holds_user(i as int, *u));
                let ghost c = choose|k: int| self.holds_user(k, *u);
                assert(c == i as int);
                return Some(i);
            }
            i = i + 1;
        }
        None
    }
}

impl UserTokenBalance {
    /// Returns the position of the entry for token `t`, if there is one.
    pub fn find_token(&self, t: &Key) -> (r: Option<usize>)
        requires
            self.wf(),
        ensures
            match self.token_entry(*t) {
                Some(j) => r == Some(j as usize),
                None => r is None,
            },
    {
        let mut j: usize = 0;
        while j < self.token_balance.len()
            invariant
                self.wf(),
                0 <= j <= self.token_balance@.len(),
                forall|k: int| 0 <= k < j ==> !self.holds_token(k, *t),
            decreases self.token_balance@.len() - j,
        {
            if self.token_balance[j].token_key == *t {
                assert(self.holds_token(j as int, *t));
                let ghost c = choose|k: int| self.holds_token(k, *t);
                assert(c == j as int);
                return Some(j);
            }
            j = j + 1;
        }
        None
    }
}

impl StakingAccount {
    /// `self` is `old` with the record of token `t` for user `u` set to `b`,
    /// created if there was none; nothing else differs.
    pub open spec fn with_record(&self, old: &StakingAccount, u: Key, t: Key, b: u64) -> bool {
        &&& self.admin == old.admin
        &&& self.supported_tokens@ == old.supported_tokens@
        &&& self.user_count() == old.user_count() + (if old.user_entry(u) is Some {
            0nat
        } else {
            1nat
        })
        &&& forall|v: Key| #[trigger]
            self.token_count(v) == if v == u && old.balance_of(u, t) is None {
                old.token_count(v) + 1
            } else {
                old.token_count(v)
            }
        &&& forall|v: Key, s: Key| #[trigger]
            self.balance_of(v, s) == if v == u && s == t {
                Some(b)
            } else {
                old.balance_of(v, s)
            }
    }

    /// There is room to set the record of token `t` for user `u`: a new user
    /// needs a free user slot, a new token a free slot in the user's entry.
    pub open spec fn has_room_for(&self, u: Key, t: Key) -> bool {
        &&& self.user_entry(u) is None ==> self.user_count() < MAX_USERS
        &&& (self.user_entry(u) is Some && self.balance_of(u, t) is None) ==> self.token_count(u)
            < MAX_TOKENS_PER_USER
    }

    /// Sets the record of token `t` for user `u` to `b`, creating the user's
    /// entry or the token's entry where there is none.
    pub fn set_record(&mut self, u: &Key, t: &Key, b: u64)
        requires
            old(self).wf(),
            old(self).has_room_for(*u, *t),
        ensures
            final(self).wf(),
            final(self).with_record(old(self), *u, *t, b),
    {
        let ghost pre = *self;
        match self.find_user(u) {
            Some(i) => {
                let ghost pre_entry = self.user_balances@[i as int];
                match self.user_balances[i].find_token(t) {
                    Some(j) => {
                        self.user_balances[i].token_balance[j].balance = b;
                        let ghost e = self.user_balances@[i as int];
                        proof {
                            lemma_same_token_keys(&pre_entry, &e);
                            lemma_token_entry_at(&e, *t, j as int);
                        }
                    },
                    None => {
                        self.user_balances[i].token_balance.push(TokenBalance { token_key: *t, balance: b });
                        let ghost e = self.user_balances@[i as int];
                        proof {
                            lemma_push_token(&pre_entry, &e);
                        }
                    },
                }
                proof {
                    lemma_same_user_keys(&pre, self);
                }
            },
            None => {
                let mut entry = UserTokenBalance { user_key: *u, token_balance: Vec::new() };
                entry.token_balance.push(TokenBalance { token_key: *t, balance: b });
                proof {
                    lemma_token_entry_at(&entry, *t, 0);
                }
                self.user_balances.push(entry);
                proof {
                    lemma_push_user(&pre, self);
                }
            },
        }
    }
}

impl UserTokenBalance {
    /// Tells whether the entry is well formed.
    pub fn is_wf(&self) -> (r: bool)
        ensures
            r == self.wf(),
    {
        let n = self.token_balance.len();
        if n > MAX_TOKENS_PER_USER {
            return false;
        }
        let mut i: usize = 0;
        while i < n
            invariant
                n == self.token_balance@.len(),
                0 <= i <= n,
                forall|a: int, b: int|
                    0 <= a < b < n && a < i ==> #[trigger] self.token_balance@[a].token_key
                        != #[trigger] self.token_balance@[b].token_key,
            decreases n - i,
        {
            let mut j: usize = i + 1;
            while j < n
                invariant
                    n == self.token_balance@.len(),
                    0 <= i < n,
                    i + 1 <= j <= n,
                    forall|b: int| i < b < j ==> self.token_balance@[i as int].token_key
                        != #[trigger] self.token_balance@[b].token_key,
                decreases n - j,
            {
                if self.token_balance[i].token_key == self.token_balance[j].token_key {
                    assert(self.token_balance@[i as int].token_key == self.token_balance@[j as int].token_key);
                    return false;
                }
                j = j + 1;
            }
            i = i + 1;
        }
        true
    }
}

impl StakingAccount {
    /// Tells whether the record is well formed.
    pub fn is_wf(&self) -> (r: bool)
        ensures
            r == self.wf(),
    {
        if self.supported_tokens.len() > MAX_SUPPORTED_TOKENS {
            return false;
        }
        let n = self.user_balances.len();
        if n > MAX_USERS {
            return false;
        }
        let mut i: usize = 0;
        while i < n
            invariant
                n == self.user_balances@.len(),
                0 <= i <= n,
                forall|a: int, b: int|
                    0 <= a < b < n && a < i ==> #[trigger] self.user_balances@[a].user_key
                        != #[trigger] self.user_balances@[b].user_key,
                forall|a: int| 0 <= a < i ==> #[trigger] self.user_balances@[a].wf(),
            decreases n - i,
        {
            if !self.user_balances[i].is_wf() {
                return false;
            }
            let mut j: usize = i + 1;
            while j < n
                invariant
                    n == self.user_balances@.len(),
                    0 <= i < n,
                    i + 1 <= j <= n,
                    forall|b: int| i < b < j ==> self.user_balances@[i as int].user_key
                        != #[trigger] self.user_balances@[b].user_key,
                decreases n - j,
            {
                if self.user_balances[i].user_key == self.user_balances[j].user_key {
                    assert(self.user_balances@[i as int].user_key == self.user_balances@[j as int].user_key);
                    return false;
                }
                j = j + 1;
            }
            i = i + 1;
        }
        true
    }
}

proof fn lemma_user_entry_at(sa: &StakingAccount, u: Key, i: int)
    requires
        sa.wf(),
        sa.holds_user(i, u),
    ensures
        sa.user_entry(u) == Some(i),
{
    let c = choose|k: int| sa.holds_user(k, u);
    assert(sa.holds_user(c, u));
}

proof fn lemma_token_entry_at(e: &UserTokenBalance, t: Key, j: int)
    requires
        e.wf(),
        e.holds_token(j, t),
    ensures
        e.token_entry(t) == Some(j),
{
    let c = choose|k: int| e.holds_token(k, t);
    assert(e.holds_token(c, t));
}

/// Two entries with the same token keys in the same places find each token at
/// the same place.
proof fn lemma_same_token_keys(a: &UserTokenBalance, b: &UserTokenBalance)
    requires
        a.wf(),
        a.token_balance@.len() == b.token_balance@.len(),
        forall|k: int|
            0 <= k < a.token_balance@.len() ==> (#[trigger] a.token_balance@[k]).token_key
                == b.token_balance@[k].token_key,
    ensures
        b.wf(),
        forall|t: Key| #[trigger] a.token_entry(t) == b.token_entry(t),
{
    assert forall|i: int, j: int|
        0 <= i < j < b.token_balance@.len() implies #[trigger] b.token_balance@[i].token_key
        != #[trigger] b.token_balance@[j].token_key by {
        assert(a.token_balance@[i].token_key != a.token_balance@[j].token_key);
    }
    assert forall|t: Key| #[trigger] a.token_entry(t) == b.token_entry(t) by {
        if exists|k: int| a.holds_token(k, t) {
            let k = choose|k: int| a.holds_token(k, t);
            assert(a.token_balance@[k].token_key == b.token_balance@[k].token_key);
            lemma_token_entry_at(a, t, k);
            lemma_token_entry_at(b, t, k);
        } else if exists|k: int| b.holds_token(k, t) {
            let k = choose|k: int| b.holds_token(k, t);
            assert(a.token_balance@[k].token_key == b.token_balance@[k].token_key);
            assert(a.holds_token(k, t));
        }
    }
}

/// `b` is `a` with one token entry appended, for a token that `a` lacks.
proof fn lemma_push_token(a: &UserTokenBalance, b: &UserTokenBalance)
    requires
        a.wf(),
        a.token_balance@.len() < MAX_TOKENS_PER_USER,
        b.token_balance@ == a.token_balance@.push(b.token_balance@.last()),
        a.token_entry(b.token_balance@.last().token_key) is None,
    ensures
        b.wf(),
        b.token_entry(b.token_balance@.last().token_key) == Some(a.token_balance@.len() as int),
        forall|t: Key|
            t != b.token_balance@.last().token_key ==> #[trigger] b.token_entry(t) == a.token_entry(t),
{
    let n = a.token_balance@.len() as int;
    let nt = b.token_balance@.last().token_key;
    assert forall|i: int, j: int|
        0 <= i < j < b.token_balance@.len() implies #[trigger] b.token_balance@[i].token_key
        != #[trigger] b.token_balance@[j].token_key by {
        if j == n {
            assert(!a.holds_token(i, nt));
        } else {
            assert(a.token_balance@[i].token_key != a.token_balance@[j].token_key);
        }
    }
    lemma_token_entry_at(b, nt, n);
    assert forall|t: Key| t != nt implies #[trigger] b.token_entry(t) == a.token_entry(t) by {
        if exists|k: int| a.holds_token(k, t) {
            let k = choose|k: int| a.holds_token(k, t);
            assert(b.holds_token(k, t));
            lemma_token_entry_at(a, t, k);
            lemma_token_entry_at(b, t, k);
        } else if exists|k: int| b.holds_token(k, t) {
            let k = choose|k: int| b.holds_token(k, t);
            assert(a.holds_token(k, t));
        }
    }
}

/// Two records whose user entries have the same user keys in the same places
/// find each user at the same place.
proof fn lemma_same_user_keys(a: &StakingAccount, b: &StakingAccount)
    requires
        a.wf(),
        a.user_balances@.len() == b.user_balances@.len(),
        forall|k: int|
            0 <= k < a.user_balances@.len() ==> (#[trigger] a.user_balances@[k]).user_key
                == b.user_balances@[k].user_key,
    ensures
        forall|u: Key| #[trigger] a.user_entry(u) == b.user_entry(u),
{
    assert forall|u: Key| #[trigger] a.user_entry(u) == b.user_entry(u) by {
        if exists|k: int| a.holds_user(k, u) {
            let k = choose|k: int| a.holds_user(k, u);
            assert(a.user_balances@[k].user_key == b.user_balances@[k].user_key);
            lemma_user_entry_at(a, u, k);
            let c = choose|m: int| b.holds_user(m, u);
            assert(b.holds_user(k, u));
            assert(b.holds_user(c, u));
            if c != k {
                assert(a.user_balances@[c].user_key == b.user_balances@[c].user_key);
                if c < k {
                    assert(a.user_balances@[c].user_key != a.user_balances@[k].user_key);
                } else {
                    assert(a.user_balances@[k].user_key != a.user_balances@[c].user_key);
                }
            }
        } else if exists|k: int| b.holds_user(k, u) {
            let k = choose|k: int| b.holds_user(k, u);
            assert(a.user_balances@[k].user_key == b.user_balances@[k].user_key);
            assert(a.holds_user(k, u));
        }
    }
}

/// `b` is `a` with one user entry appended, for a user that `a` lacks.
proof fn lemma_push_user(a: &StakingAccount, b: &StakingAccount)
    requires
        a.wf(),
        a.user_balances@.len() < MAX_USERS,
        b.user_balances@ == a.user_balances@.push(b.user_balances@.last()),
        b.user_balances@.last().wf(),
        a.user_entry(b.user_balances@.last().user_key) is None,
        b.supported_tokens@ == a.supported_tokens@,
    ensures
        b.wf(),
        b.user_entry(b.user_balances@.last().user_key) == Some(a.user_balances@.len() as int),
        forall|u: Key|
            u != b.user_balances@.last().user_key ==> #[trigger] b.user_entry(u) == a.user_entry(u),
{
    let n = a.user_balances@.len() as int;
    let nu = b.user_balances@.last().user_key;
    assert forall|i: int, j: int|
        0 <= i < j < b.user_balances@.len() implies #[trigger] b.user_balances@[i].user_key
        != #[trigger] b.user_balances@[j].user_key by {
        if j == n {
            assert(!a.holds_user(i, nu));
        } else {
            assert(a.user_balances@[i].user_key != a.user_balances@[j].user_key);
        }
    }
    assert forall|i: int| 0 <= i < b.user_balances@.len() implies #[trigger] b.user_balances@[i].wf() by {
        if i < n {
            assert(a.user_balances@[i].wf());
        }
    }
    lemma_user_entry_at(b, nu, n);
    assert forall|u: Key| u != nu implies #[trigger] b.user_entry(u) == a.user_entry(u) by {
        if exists|k: int| a.holds_user(k, u) {
            let k = choose|k: int| a.holds_user(k, u);
            assert(b.holds_user(k, u));
            lemma_user_entry_at(a, u, k);
            lemma_user_entry_at(b, u, k);
        } else if exists|k: int| b.holds_user(k, u) {
            let k = choose|k: int| b.holds_user(k, u);
            assert(a.holds_user(k, u));
        }
    }
}

} // verus!
