use vstd::prelude::*;

use crate::errors::Error;
use crate::types::{AccountId, TokenId};

verus! {

/// One user account's balance in one token.
#[derive(Clone, Copy, Debug, PartialEq, Eq, Structural)]
pub struct AccountBalance {
    pub token: TokenId,
    pub owner: AccountId,
    pub balance: i128,
}

/// The contract's own custodial balance in one token.
#[derive(Clone, Copy, Debug, PartialEq, Eq, Structural)]
pub struct CustodyBalance {
    pub token: TokenId,
    pub balance: i128,
}

/// Index of the first entry for `(token, owner)` in `s`, or -1 if none.
pub open spec fn account_index(s: Seq<AccountBalance>, token: TokenId, owner: AccountId) -> int
    decreases s.len(),
{
    if s.len() == 0 {
        -1
    } else if s[0].token == token && s[0].owner == owner {
        0
    } else if account_index(s.drop_first(), token, owner) < 0 {
        -1
    } else {
        1 + account_index(s.drop_first(), token, owner)
    }
}

pub proof fn lemma_account_index(s: Seq<AccountBalance>, token: TokenId, owner: AccountId)
    ensures
        ({
            let r = account_index(s, token, owner);
            &&& -1 <= r < s.len()
            &&& r >= 0 ==> s[r].token == token && s[r].owner == owner
            &&& r >= 0 ==> forall|j: int|
                0 <= j < r ==> !((#[trigger] s[j]).token == token && s[j].owner == owner)
            &&& r == -1 ==> forall|j: int|
                0 <= j < s.len() ==> !((#[trigger] s[j]).token == token && s[j].owner == owner)
        }),
    decreases s.len(),
{
    if s.len() > 0 && !(s[0].token == token && s[0].owner == owner) {
        lemma_account_index(s.drop_first(), token, owner);
        assert forall|j: int| 1 <= j < s.len() implies #[trigger] s[j]
            == s.drop_first()[j - 1] by {
            assert(s.drop_first()[j - 1] == s[j]);
        }
    }
}

/// Index of the first custody entry for `token` in `s`, or -1 if none.
pub open spec fn custody_index(s: Seq<CustodyBalance>, token: TokenId) -> int
    decreases s.len(),
{
    if s.len() == 0 {
        -1
    } else if s[0].token == token {
        0
    } else if custody_index(s.drop_first(), token) < 0 {
        -1
    } else {
        1 + custody_index(s.drop_first(), token)
    }
}

pub proof fn lemma_custody_index(s: Seq<CustodyBalance>, token: TokenId)
    ensures
        ({
            let r = custody_index(s, token);
            &&& -1 <= r < s.len()
            &&& r >= 0 ==> s[r].token == token
            &&& r >= 0 ==> forall|j: int| 0 <= j < r ==> (#[trigger] s[j]).token != token
            &&& r == -1 ==> forall|j: int| 0 <= j < s.len() ==> (#[trigger] s[j]).token != token
        }),
    decreases s.len(),
{
    if s.len() > 0 && s[0].token != token {
        lemma_custody_index(s.drop_first(), token);
        assert forall|j: int| 1 <= j < s.len() implies #[trigger] s[j]
            == s.drop_first()[j - 1] by {
            assert(s.drop_first()[j - 1] == s[j]);
        }
    }
}

/// No two entries name the same `(token, owner)` pair.
pub open spec fn accounts_distinct(s: Seq<AccountBalance>) -> bool {
    forall|i: int, j: int|
        0 <= i < j < s.len()
            ==> !((#[trigger] s[i]).token == (#[trigger] s[j]).token && s[i].owner == s[j].owner)
}

pub open spec fn accounts_nonneg(s: Seq<AccountBalance>) -> bool {
    forall|i: int| 0 <= i < s.len() ==> (#[trigger] s[i]).balance >= 0
}

/// No two custody entries name the same token.
pub open spec fn custody_distinct(s: Seq<CustodyBalance>) -> bool {
    forall|i: int, j: int|
        0 <= i < j < s.len() ==> (#[trigger] s[i]).token != (#[trigger] s[j]).token
}

pub open spec fn custody_nonneg(s: Seq<CustodyBalance>) -> bool {
    forall|i: int| 0 <= i < s.len() ==> (#[trigger] s[i]).balance >= 0
}

/// The balance of `(token, owner)` in `s`; zero for unknown accounts.
pub open spec fn balance_in(s: Seq<AccountBalance>, token: TokenId, owner: AccountId) -> int {
    let i = account_index(s, token, owner);
    if i >= 0 {
        s[i].balance as int
    } else {
        0
    }
}

/// The custodial balance of `token` in `s`; zero if the token is unknown.
pub open spec fn custody_in(s: Seq<CustodyBalance>, token: TokenId) -> int {
    let i = custody_index(s, token);
    if i >= 0 {
        s[i].balance as int
    } else {
        0
    }
}

/// Overwriting the entry at `k` with one for the same account changes that
/// account's balance and no other.
pub proof fn lemma_account_set(s: Seq<AccountBalance>, k: int, v: AccountBalance)
    requires
        accounts_distinct(s),
        0 <= k < s.len(),
        s[k].token == v.token,
        s[k].owner == v.owner,
    ensures
        accounts_distinct(s.update(k, v)),
        balance_in(s.update(k, v), v.token, v.owner) == v.balance,
        forall|t2: TokenId, o2: AccountId|
            !(t2 == v.token && o2 == v.owner) ==> #[trigger] balance_in(s.update(k, v), t2, o2)
                == balance_in(s, t2, o2),
{
    let s2 = s.update(k, v);
    lemma_account_index(s, v.token, v.owner);
    lemma_account_index(s2, v.token, v.owner);
    assert(account_index(s2, v.token, v.owner) == k) by {
        let r2 = account_index(s2, v.token, v.owner);
        assert(s2[k] == v);
        if r2 >= 0 && r2 != k {
            assert(s2[r2] == s[r2]);
            assert(s[r2].token == v.token && s[r2].owner == v.owner);
            if r2 < k {
                assert(!(s[r2].token == s[k].token && s[r2].owner == s[k].owner));
            } else {
                assert(!(s[k].token == s[r2].token && s[k].owner == s[r2].owner));
            }
        }
    }
    assert forall|t2: TokenId, o2: AccountId| !(t2 == v.token && o2 == v.owner)
        implies #[trigger] balance_in(s2, t2, o2) == balance_in(s, t2, o2) by {
        lemma_account_index(s, t2, o2);
        lemma_account_index(s2, t2, o2);
        let r = account_index(s, t2, o2);
        let r2 = account_index(s2, t2, o2);
        if r == -1 {
            assert(r2 == -1) by {
                if r2 >= 0 {
                    assert(s[r2].token == t2 && s[r2].owner == o2);
                }
            }
        } else {
            assert(r2 == r) by {
                assert(s2[r].token == t2 && s2[r].owner == o2);
                if r2 != r {
                    assert(s[r2].token == t2 && s[r2].owner == o2);
                }
            }
        }
    }
}

/// Appending an entry for an account not yet present gives that account its
/// balance and leaves every other balance alone.
pub proof fn lemma_account_push(s: Seq<AccountBalance>, v: AccountBalance)
    requires
        accounts_distinct(s),
        account_index(s, v.token, v.owner) == -1,
    ensures
        accounts_distinct(s.push(v)),
        balance_in(s.push(v), v.token, v.owner) == v.balance,
        forall|t2: TokenId, o2: AccountId|
            !(t2 == v.token && o2 == v.owner) ==> #[trigger] balance_in(s.push(v), t2, o2)
                == balance_in(s, t2, o2),
{
    let s2 = s.push(v);
    lemma_account_index(s, v.token, v.owner);
    lemma_account_index(s2, v.token, v.owner);
    assert(account_index(s2, v.token, v.owner) == s.len()) by {
        let r2 = account_index(s2, v.token, v.owner);
        assert(s2[s.len() as int] == v);
        if r2 >= 0 && r2 < s.len() {
            assert(s2[r2] == s[r2]);
            assert(s[r2].token == v.token && s[r2].owner == v.owner);
        }
    }
    assert forall|t2: TokenId, o2: AccountId| !(t2 == v.token && o2 == v.owner)
        implies #[trigger] balance_in(s2, t2, o2) == balance_in(s, t2, o2) by {
        lemma_account_index(s, t2, o2);
        lemma_account_index(s2, t2, o2);
        let r = account_index(s, t2, o2);
        let r2 = account_index(s2, t2, o2);
        if r == -1 {
            assert(r2 == -1) by {
                if r2 >= 0 {
                    assert(s2[r2].token == t2 && s2[r2].owner == o2);
                }
            }
        } else {
            assert(r2 == r) by {
                assert(s2[r].token == t2 && s2[r].owner == o2);
                if r2 != r {
                    assert(s2[r2].token == t2 && s2[r2].owner == o2);
                }
            }
        }
    }
}

/// Overwriting the custody entry at `k` with one for the same token changes
/// that token's custodial balance and no other.
pub proof fn lemma_custody_set(s: Seq<CustodyBalance>, k: int, v: CustodyBalance)
    requires
        custody_distinct(s),
        0 <= k < s.len(),
        s[k].token == v.token,
    ensures
        custody_distinct(s.update(k, v)),
        custody_in(s.update(k, v), v.token) == v.balance,
        forall|t2: TokenId|
            t2 != v.token ==> #[trigger] custody_in(s.update(k, v), t2) == custody_in(s, t2),
{
    let s2 = s.update(k, v);
    lemma_custody_index(s, v.token);
    lemma_custody_index(s2, v.token);
    assert(custody_index(s2, v.token) == k) by {
        let r2 = custody_index(s2, v.token);
        assert(s2[k] == v);
        if r2 >= 0 && r2 != k {
            assert(s2[r2] == s[r2]);
            assert(s[r2].token == v.token);
            if r2 < k {
                assert(s[r2].token != s[k].token);
            } else {
                assert(s[k].token != s[r2].token);
            }
        }
    }
    assert forall|t2: TokenId| t2 != v.token
        implies #[trigger] custody_in(s2, t2) == custody_in(s, t2) by {
        lemma_custody_index(s, t2);
        lemma_custody_index(s2, t2);
        let r = custody_index(s, t2);
        let r2 = custody_index(s2, t2);
        if r == -1 {
            assert(r2 == -1) by {
                if r2 >= 0 {
                    assert(s[r2].token == t2);
                }
            }
        } else {
            assert(r2 == r) by {
                assert(s2[r].token == t2);
                if r2 != r {
                    assert(s[r2].token == t2);
                }
            }
        }
    }
}

/// Appending a custody entry for a token not yet present gives that token
/// its custodial balance and leaves every other token's alone.
pub proof fn lemma_custody_push(s: Seq<CustodyBalance>, v: CustodyBalance)
    requires
        custody_distinct(s),
        custody_index(s, v.token) == -1,
    ensures
        custody_distinct(s.push(v)),
        custody_in(s.push(v), v.token) == v.balance,
        forall|t2: TokenId|
            t2 != v.token ==> #[trigger] custody_in(s.push(v), t2) == custody_in(s, t2),
{
    let s2 = s.push(v);
    lemma_custody_index(s, v.token);
    lemma_custody_index(s2, v.token);
    assert(custody_index(s2, v.token) == s.len()) by {
        let r2 = custody_index(s2, v.token);
        assert(s2[s.len() as int] == v);
        if r2 >= 0 && r2 < s.len() {
            assert(s2[r2] == s[r2]);
            assert(s[r2].token == v.token);
        }
    }
    assert forall|t2: TokenId| t2 != v.token
        implies #[trigger] custody_in(s2, t2) == custody_in(s, t2) by {
        lemma_custody_index(s, t2);
        lemma_custody_index(s2, t2);
        let r = custody_index(s, t2);
        let r2 = custody_index(s2, t2);
        if r == -1 {
            assert(r2 == -1) by {
                if r2 >= 0 {
                    assert(s2[r2].token == t2);
                }
            }
        } else {
            assert(r2 == r) by {
                assert(s2[r].token == t2);
                if r2 != r {
                    assert(s2[r2].token == t2);
                }
            }
        }
    }
}

/// The token-custody model: balances of user accounts, and the contract's
/// own custodial balances, per token. A transfer either moves the full
/// amount or fails; there are no partial transfers.
pub struct TokenLedger {
    pub accounts: Vec<AccountBalance>,
    pub custody: Vec<CustodyBalance>,
}

impl TokenLedger {
    pub open spec fn wf(self) -> bool {
        &&& accounts_distinct(self.accounts@)
        &&& accounts_nonneg(self.accounts@)
        &&& custody_distinct(self.custody@)
        &&& custody_nonneg(self.custody@)
    }

    /// The balance `owner` holds in `token`; zero for unknown accounts.
    pub open spec fn spec_balance(self, token: TokenId, owner: AccountId) -> int {
        balance_in(self.accounts@, token, owner)
    }

    /// The contract's custodial balance in `token`.
    pub open spec fn spec_custody(self, token: TokenId) -> int {
        custody_in(self.custody@, token)
    }

    pub fn new() -> (l: TokenLedger)
        ensures
            l.wf(),
            forall|t: TokenId, o: AccountId| #[trigger] l.spec_balance(t, o) == 0,
            forall|t: TokenId| #[trigger] l.spec_custody(t) == 0,
    {
        TokenLedger { accounts: Vec::new(), custody: Vec::new() }
    }

    /// Position of `(token, owner)` among the user accounts, if present.
    fn find_account(&self, token: TokenId, owner: AccountId) -> (r: Option<usize>)
        ensures
            ({
                let i = account_index(self.accounts@, token, owner);
                match r {
                    Some(k) => k as int == i && k < self.accounts@.len(),
                    None => i == -1,
                }
            }),
    {
        proof {
            lemma_account_index(self.accounts@, token, owner);
        }
        let n = self.accounts.len();
        let mut k: usize = 0;
        while k < n
            invariant
                n == self.accounts@.len(),
                0 <= k <= n,
                forall|j: int|
                    0 <= j < k ==> !((#[trigger] self.accounts@[j]).token == token
                        && self.accounts@[j].owner == owner),
                account_index(self.accounts@, token, owner) >= 0
                    ==> account_index(self.accounts@, token, owner) >= k,
            decreases n - k,
        {
            proof {
                lemma_account_index(self.accounts@, token, owner);
            }
            let a = self.accounts[k];
            if a.token == token && a.owner == owner {
                return Some(k);
            }
            k = k + 1;
        }
        None
    }

    /// Position of `token` among the custody entries, if present.
    fn find_custody(&self, token: TokenId) -> (r: Option<usize>)
        ensures
            ({
                let i = custody_index(self.custody@, token);
                match r {
                    Some(k) => k as int == i && k < self.custody@.len(),
                    None => i == -1,
                }
            }),
    {
        proof {
            lemma_custody_index(self.custody@, token);
        }
        let n = self.custody.len();
        let mut k: usize = 0;
        while k < n
            invariant
                n == self.custody@.len(),
                0 <= k <= n,
                forall|j: int| 0 <= j < k ==> (#[trigger] self.custody@[j]).token != token,
                custody_index(self.custody@, token) >= 0
                    ==> custody_index(self.custody@, token) >= k,
            decreases n - k,
        {
            proof {
                lemma_custody_index(self.custody@, token);
            }
            if self.custody[k].token == token {
                return Some(k);
            }
            k = k + 1;
        }
        None
    }

    /// Create `amount` new units of `token` in `to`'s user account, as the
    /// token's issuer would. Minting is not a custody operation: the
    /// contract's custodial balances are untouched.
    pub fn mint(&mut self, token: TokenId, to: AccountId, amount: i128) -> (r: Result<(), Error>)
        requires
            old(self).wf(),
        ensures
            final(self).wf(),
            r is Ok <==> amount >= 0 && old(self).spec_balance(token, to) + amount <= i128::MAX,
            r is Ok ==> final(self).spec_balance(token, to) == old(self).spec_balance(token, to)
                + amount,
            r is Ok ==> forall|t2: TokenId, o2: AccountId|
                !(t2 == token && o2 == to) ==> #[trigger] final(self).spec_balance(t2, o2)
                    == old(self).spec_balance(t2, o2),
            final(self).custody@ == old(self).custody@,
            forall|t2: TokenId| #[trigger] final(self).spec_custody(t2) == old(self).spec_custody(
                t2,
            ),
            r is Err ==> *final(self) == *old(self),
            amount < 0 ==> r == Err::<(), Error>(Error::InvalidAmount),
            amount >= 0 && old(self).spec_balance(token, to) + amount > i128::MAX ==> r == Err::<(), Error>(Error::ArithmeticOverflow),
    {
        if amount < 0 {
            return Err(Error::InvalidAmount);
        }
        proof {
            lemma_account_index(self.accounts@, token, to);
        }
        match self.find_account(token, to) {
            Some(k) => {
                let a = self.accounts[k];
                match a.balance.checked_add(amount) {
                    None => Err(Error::ArithmeticOverflow),
                    Some(nb) => {
                        let v = AccountBalance { token, owner: to, balance: nb };
                        self.accounts[k] = v;
                        proof {
                            lemma_account_set(old(self).accounts@, k as int, v);
                        }
                        Ok(())
                    },
                }
            },
            None => {
                let v = AccountBalance { token, owner: to, balance: amount };
                self.accounts.push(v);
                proof {
                    lemma_account_push(old(self).accounts@, v);
                }
                Ok(())
            },
        }
    }

    /// Create `amount` new units of `token` directly in the contract's
    /// custody, as the token's issuer would when funding the contract.
    pub fn mint_custody(&mut self, token: TokenId, amount: i128) -> (r: Result<(), Error>)
        requires
            old(self).wf(),
        ensures
            final(self).wf(),
            r is Ok <==> amount >= 0 && old(self).spec_custody(token) + amount <= i128::MAX,
            r is Ok ==> final(self).spec_custody(token) == old(self).spec_custody(token) + amount,
            r is Ok ==> forall|t2: TokenId|
                t2 != token ==> #[trigger] final(self).spec_custody(t2) == old(self).spec_custody(
                    t2,
                ),
            final(self).accounts@ == old(self).accounts@,
            forall|t2: TokenId, o2: AccountId| #[trigger] final(self).spec_balance(t2, o2) == old(
                self,
            ).spec_balance(t2, o2),
            r is Err ==> *final(self) == *old(self),
            amount < 0 ==> r == Err::<(), Error>(Error::InvalidAmount),
            amount >= 0 && old(self).spec_custody(token) + amount > i128::MAX ==> r == Err::<(), Error>(Error::ArithmeticOverflow),
    {
        if amount < 0 {
            return Err(Error::InvalidAmount);
        }
        proof {
            lemma_custody_index(self.custody@, token);
        }
        match self.find_custody(token) {
            Some(k) => {
                let c = self.custody[k];
                match c.balance.checked_add(amount) {
                    None => Err(Error::ArithmeticOverflow),
                    Some(nb) => {
                        let v = CustodyBalance { token, balance: nb };
                        self.custody[k] = v;
                        proof {
                            lemma_custody_set(old(self).custody@, k as int, v);
                        }
                        Ok(())
                    },
                }
            },
            None => {
                let v = CustodyBalance { token, balance: amount };
                self.custody.push(v);
                proof {
                    lemma_custody_push(old(self).custody@, v);
                }
                Ok(())
            },
        }
    }

    /// Move `amount` of `token` from `from`'s user account into the
    /// contract's custody. Fails without side effect if the amount is
    /// negative, the account's balance does not cover it, or custody would
    /// overflow.
    pub fn deposit(&mut self, token: TokenId, from: AccountId, amount: i128) -> (r: Result<
        (),
        Error,
    >)
        requires
            old(self).wf(),
        ensures
            final(self).wf(),
            r is Ok <==> amount >= 0 && old(self).spec_balance(token, from) >= amount && old(
                self,
            ).spec_custody(token) + amount <= i128::MAX,
            r is Ok ==> final(self).spec_balance(token, from) == old(self).spec_balance(token, from)
                - amount,
            r is Ok ==> final(self).spec_custody(token) == old(self).spec_custody(token) + amount,
            r is Ok ==> forall|t2: TokenId, o2: AccountId|
                !(t2 == token && o2 == from) ==> #[trigger] final(self).spec_balance(t2, o2)
                    == old(self).spec_balance(t2, o2),
            r is Ok ==> forall|t2: TokenId|
                t2 != token ==> #[trigger] final(self).spec_custody(t2) == old(self).spec_custody(
                    t2,
                ),
            r is Err ==> *final(self) == *old(self),
            amount < 0 ==> r == Err::<(), Error>(Error::InvalidAmount),
            amount >= 0 && old(self).spec_balance(token, from) < amount ==> r == Err::<(), Error>(Error::TransferFailed),
            amount >= 0 && old(self).spec_balance(token, from) >= amount && old(self).spec_custody(
                token,
            ) + amount > i128::MAX ==> r == Err::<(), Error>(Error::ArithmeticOverflow),
    {
        if amount < 0 {
            return Err(Error::InvalidAmount);
        }
        proof {
            lemma_account_index(self.accounts@, token, from);
            lemma_custody_index(self.custody@, token);
        }
        let from_slot = self.find_account(token, from);
        let from_bal: i128 = match from_slot {
            Some(k) => self.accounts[k].balance,
            None => 0,
        };
        if from_bal < amount {
            return Err(Error::TransferFailed);
        }
        let cust_slot = self.find_custody(token);
        let cust_bal: i128 = match cust_slot {
            Some(k) => self.custody[k].balance,
            None => 0,
        };
        match cust_bal.checked_add(amount) {
            None => Err(Error::ArithmeticOverflow),
            Some(new_cust) => {
                match from_slot {
                    Some(k) => {
                        let v = AccountBalance { token, owner: from, balance: from_bal - amount };
                        self.accounts[k] = v;
                        proof {
                            lemma_account_set(old(self).accounts@, k as int, v);
                        }
                    },
                    None => {
                        // The account is unknown, so its balance is zero and
                        // the amount being moved is zero as well.
                    },
                }
                match cust_slot {
                    Some(k) => {
                        let v = CustodyBalance { token, balance: new_cust };
                        self.custody[k] = v;
                        proof {
                            lemma_custody_set(old(self).custody@, k as int, v);
                        }
                    },
                    None => {
                        let v = CustodyBalance { token, balance: new_cust };
                        self.custody.push(v);
                        proof {
                            lemma_custody_push(old(self).custody@, v);
                        }
                    },
                }
                Ok(())
            },
        }
    }

    /// Move `amount` of `token` out of the contract's custody into `to`'s
    /// user account. Fails without side effect if the amount is negative,
    /// custody does not cover it, or the account would overflow.
    pub fn withdraw(&mut self, token: TokenId, to: AccountId, amount: i128) -> (r: Result<
        (),
        Error,
    >)
        requires
            old(self).wf(),
        ensures
            final(self).wf(),
            r is Ok <==> amount >= 0 && old(self).spec_custody(token) >= amount && old(
                self,
            ).spec_balance(token, to) + amount <= i128::MAX,
            r is Ok ==> final(self).spec_custody(token) == old(self).spec_custody(token) - amount,
            r is Ok ==> final(self).spec_balance(token, to) == old(self).spec_balance(token, to)
                + amount,
            r is Ok ==> forall|t2: TokenId, o2: AccountId|
                !(t2 == token && o2 == to) ==> #[trigger] final(self).spec_balance(t2, o2) == old(
                    self,
                ).spec_balance(t2, o2),
            r is Ok ==> forall|t2: TokenId|
                t2 != token ==> #[trigger] final(self).spec_custody(t2) == old(self).spec_custody(
                    t2,
                ),
            r is Err ==> *final(self) == *old(self),
            amount < 0 ==> r == Err::<(), Error>(Error::InvalidAmount),
            amount >= 0 && old(self).spec_custody(token) < amount ==> r == Err::<(), Error>(Error::TransferFailed),
            amount >= 0 && old(self).spec_custody(token) >= amount && old(self).spec_balance(
                token,
                to,
            ) + amount > i128::MAX ==> r == Err::<(), Error>(Error::ArithmeticOverflow),
    {
        if amount < 0 {
            return Err(Error::InvalidAmount);
        }
        proof {
            lemma_account_index(self.accounts@, token, to);
            lemma_custody_index(self.custody@, token);
        }
        let cust_slot = self.find_custody(token);
        let cust_bal: i128 = match cust_slot {
            Some(k) => self.custody[k].balance,
            None => 0,
        };
        if cust_bal < amount {
            return Err(Error::TransferFailed);
        }
        let to_slot = self.find_account(token, to);
        let to_bal: i128 = match to_slot {
            Some(k) => self.accounts[k].balance,
            None => 0,
        };
        match to_bal.checked_add(amount) {
            None => Err(Error::ArithmeticOverflow),
            Some(new_to) => {
                match cust_slot {
                    Some(k) => {
                        let v = CustodyBalance { token, balance: cust_bal - amount };
                        self.custody[k] = v;
                        proof {
                            lemma_custody_set(old(self).custody@, k as int, v);
                        }
                    },
                    None => {
                        // Custody holds nothing in this token, so the amount
                        // being moved is zero.
                    },
                }
                match to_slot {
                    Some(k) => {
                        let v = AccountBalance { token, owner: to, balance: new_to };
                        self.accounts[k] = v;
                        proof {
                            lemma_account_set(old(self).accounts@, k as int, v);
                        }
                    },
                    None => {
                        let v = AccountBalance { token, owner: to, balance: new_to };
                        self.accounts.push(v);
                        proof {
                            lemma_account_push(old(self).accounts@, v);
                        }
                    },
                }
                Ok(())
            },
        }
    }

    /// The balance `owner` holds in `token`.
    pub fn balance_of(&self, token: TokenId, owner: AccountId) -> (r: i128)
        ensures
            r as int == self.spec_balance(token, owner),
    {
        match self.find_account(token, owner) {
            Some(k) => self.accounts[k].balance,
            None => 0,
        }
    }

    /// The contract's custodial balance in `token`.
    pub fn custody_balance(&self, token: TokenId) -> (r: i128)
        ensures
            r as int == self.spec_custody(token),
    {
        match self.find_custody(token) {
            Some(k) => self.custody[k].balance,
            None => 0,
        }
    }
}

} // verus!
