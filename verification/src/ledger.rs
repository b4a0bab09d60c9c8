use vstd::prelude::*;

use crate::error::ErrorCode;

verus! {

/// Who owns a balance: a user's funding account, or a project's escrow pool.
#[derive(Clone, Copy, Debug, PartialEq, Eq, Structural)]
pub enum TokenHolder {
    /// A user's funding account, by the user's authority.
    User(u64),
    /// A project's escrow pool, by the project's index.
    ProjectEscrow(u32),
}

/// One balance of the ledger.
#[derive(Clone, Debug)]
pub struct TokenAccount {
    pub holder: TokenHolder,
    pub amount: u64,
}

/// An account-based value-transfer service.
///
/// The ledger conserves value: the sum of all balances always equals the
/// recorded supply, minting is the only way the supply grows, and a transfer
/// moves value between two balances without creating or destroying any.
/// That conservation is what rules out overflow on the receiving side of
/// every transfer.
pub struct TokenLedger {
    pub accounts: Vec<TokenAccount>,
    pub supply: u64,
}

/// How much `a` contributes to the balance of `h`.
pub open spec fn holds_for(a: TokenAccount, h: TokenHolder) -> int {
    if a.holder == h {
        a.amount as int
    } else {
        0
    }
}

/// The balance of `h` over a sequence of accounts: the sum of the amounts
/// of the accounts held by `h`.
pub open spec fn balance_in(s: Seq<TokenAccount>, h: TokenHolder) -> int
    decreases s.len(),
{
    if s.len() == 0 {
        0
    } else {
        balance_in(s.drop_last(), h) + holds_for(s.last(), h)
    }
}

/// The total value held across all accounts.
pub open spec fn sum_amounts(s: Seq<TokenAccount>) -> int
    decreases s.len(),
{
    if s.len() == 0 {
        0
    } else {
        sum_amounts(s.drop_last()) + s.last().amount
    }
}

pub proof fn lemma_balance_nonneg(s: Seq<TokenAccount>, h: TokenHolder)
    ensures
        0 <= balance_in(s, h),
    decreases s.len(),
{
    if s.len() > 0 {
        lemma_balance_nonneg(s.drop_last(), h);
    }
}

pub proof fn lemma_balance_le_sum(s: Seq<TokenAccount>, h: TokenHolder)
    ensures
        balance_in(s, h) <= sum_amounts(s),
    decreases s.len(),
{
    if s.len() > 0 {
        lemma_balance_le_sum(s.drop_last(), h);
    }
}

/// Two distinct holders never hold more than the whole ledger together.
pub proof fn lemma_two_balances_le_sum(s: Seq<TokenAccount>, h1: TokenHolder, h2: TokenHolder)
    requires
        h1 != h2,
    ensures
        balance_in(s, h1) + balance_in(s, h2) <= sum_amounts(s),
    decreases s.len(),
{
    if s.len() > 0 {
        lemma_two_balances_le_sum(s.drop_last(), h1, h2);
    }
}

pub proof fn lemma_sum_push(s: Seq<TokenAccount>, a: TokenAccount)
    ensures
        sum_amounts(s.push(a)) == sum_amounts(s) + a.amount,
        forall|h: TokenHolder|
            balance_in(s.push(a), h) == balance_in(s, h) + holds_for(a, h),
{
    assert(s.push(a).drop_last() =~= s);
    assert(s.push(a).last() == a);
}

proof fn lemma_sum_update_one(s: Seq<TokenAccount>, i: int, a: TokenAccount, h: TokenHolder)
    requires
        0 <= i < s.len(),
    ensures
        sum_amounts(s.update(i, a)) == sum_amounts(s) - s[i].amount + a.amount,
        balance_in(s.update(i, a), h) == balance_in(s, h) - holds_for(s[i], h) + holds_for(
            a,
            h,
        ),
    decreases s.len(),
{
    let t = s.update(i, a);
    if i == s.len() - 1 {
        assert(t.drop_last() =~= s.drop_last());
        assert(t.last() == a);
    } else {
        assert(t.drop_last() =~= s.drop_last().update(i, a));
        assert(t.last() == s.last());
        lemma_sum_update_one(s.drop_last(), i, a, h);
    }
}

pub proof fn lemma_sum_update(s: Seq<TokenAccount>, i: int, a: TokenAccount)
    requires
        0 <= i < s.len(),
    ensures
        sum_amounts(s.update(i, a)) == sum_amounts(s) - s[i].amount + a.amount,
        forall|h: TokenHolder|
            balance_in(s.update(i, a), h) == balance_in(s, h) - holds_for(s[i], h) + holds_for(
                a,
                h,
            ),
{
    assert forall|h: TokenHolder|
        balance_in(s.update(i, a), h) == balance_in(s, h) - holds_for(s[i], h) + holds_for(
            a,
            h,
        ) by {
        lemma_sum_update_one(s, i, a, h);
    }
    lemma_sum_update_one(s, i, a, TokenHolder::User(0));
}

/// A holder that no account names has balance zero.
pub proof fn lemma_balance_absent(s: Seq<TokenAccount>, h: TokenHolder)
    requires
        forall|j: int| 0 <= j < s.len() ==> (#[trigger] s[j]).holder != h,
    ensures
        balance_in(s, h) == 0,
    decreases s.len(),
{
    if s.len() > 0 {
        lemma_balance_absent(s.drop_last(), h);
    }
}

/// In a ledger without duplicate holders, the balance of a holder is the
/// amount of its one account.
pub proof fn lemma_balance_unique(s: Seq<TokenAccount>, i: int)
    requires
        0 <= i < s.len(),
        forall|j: int, k: int|
            0 <= j < k < s.len() ==> (#[trigger] s[j]).holder != (#[trigger] s[k]).holder,
    ensures
        balance_in(s, s[i].holder) == s[i].amount,
    decreases s.len(),
{
    let h = s[i].holder;
    if i == s.len() - 1 {
        assert(forall|j: int| 0 <= j < s.drop_last().len() ==> (#[trigger] s.drop_last()[j]).holder != h);
        lemma_balance_absent(s.drop_last(), h);
    } else {
        lemma_balance_unique(s.drop_last(), i);
        assert(s.last().holder != h);
    }
}

impl TokenLedger {
    /// No two accounts share a holder, and the balances add up to the supply.
    pub open spec fn wf(self) -> bool {
        &&& forall|j: int, k: int|
            0 <= j < k < self.accounts@.len() ==> (#[trigger] self.accounts@[j]).holder != (
            #[trigger] self.accounts@[k]).holder
        &&& sum_amounts(self.accounts@) == self.supply
    }

    /// The balance held by `h`, zero when `h` has no account.
    pub open spec fn balance_of(self, h: TokenHolder) -> int {
        balance_in(self.accounts@, h)
    }

    /// An empty ledger with no supply.
    pub fn empty() -> (r: TokenLedger)
        ensures
            r.wf(),
            r.supply == 0,
            forall|h: TokenHolder| r.balance_of(h) == 0,
    {
        let r = TokenLedger { accounts: Vec::new(), supply: 0 };
        proof {
            assert forall|h: TokenHolder| r.balance_of(h) == 0 by {
                lemma_balance_absent(r.accounts@, h);
            }
        }
        r
    }

    /// Index of the account held by `h`, when one exists.
    fn find_account(&self, h: TokenHolder) -> (r: Option<usize>)
        ensures
            match r {
                Some(i) => i < self.accounts@.len() && self.accounts@[i as int].holder == h,
                None => forall|j: int|
                    0 <= j < self.accounts@.len() ==> (#[trigger] self.accounts@[j]).holder != h,
            },
    {
        let n = self.accounts.len();
        let mut i: usize = 0;
        while i < n
            invariant
                i <= n,
                n == self.accounts@.len(),
                forall|j: int| 0 <= j < i ==> (#[trigger] self.accounts@[j]).holder != h,
            decreases n - i,
        {
            if self.accounts[i].holder == h {
                return Some(i);
            }
            i = i + 1;
        }
        None
    }

    /// The current balance of `h`.
    pub fn balance(&self, h: TokenHolder) -> (r: u64)
        requires
            self.wf(),
        ensures
            r as int == self.balance_of(h),
    {
        match self.find_account(h) {
            Some(i) => {
                proof {
                    lemma_balance_unique(self.accounts@, i as int);
                }
                self.accounts[i].amount
            },
            None => {
                proof {
                    lemma_balance_absent(self.accounts@, h);
                }
                0
            },
        }
    }

    /// Adds `amount` to the balance of `h`, creating the account if absent.
    /// The supply field is not touched; callers restore conservation.
    fn credit(&mut self, h: TokenHolder, amount: u64)
        requires
            forall|j: int, k: int|
                0 <= j < k < old(self).accounts@.len()
                    ==> (#[trigger] old(self).accounts@[j]).holder
                    != (#[trigger] old(self).accounts@[k]).holder,
            old(self).balance_of(h) + amount <= u64::MAX,
        ensures
            forall|j: int, k: int|
                0 <= j < k < final(self).accounts@.len()
                    ==> (#[trigger] final(self).accounts@[j]).holder
                    != (#[trigger] final(self).accounts@[k]).holder,
            final(self).balance_of(h) == old(self).balance_of(h) + amount,
            forall|h2: TokenHolder|
                h2 != h ==> final(self).balance_of(h2) == old(self).balance_of(h2),
            sum_amounts(final(self).accounts@) == sum_amounts(old(self).accounts@) + amount,
            final(self).supply == old(self).supply,
    {
        match self.find_account(h) {
            Some(i) => {
                proof {
                    lemma_balance_unique(self.accounts@, i as int);
                    lemma_sum_update(
                        self.accounts@,
                        i as int,
                        TokenAccount { holder: h, amount: (self.accounts@[i as int].amount + amount) as u64 },
                    );
                }
                let a = self.accounts[i].amount;
                self.accounts.set(i, TokenAccount { holder: h, amount: a + amount });
            },
            None => {
                proof {
                    lemma_balance_absent(self.accounts@, h);
                    lemma_sum_push(self.accounts@, TokenAccount { holder: h, amount });
                }
                self.accounts.push(TokenAccount { holder: h, amount });
            },
        }
    }

    /// Creates `amount` new tokens on the balance of `to`.
    ///
    /// Fails with a calculation error when the supply would overflow; the
    /// receiving balance then cannot overflow either, since it never exceeds
    /// the supply.
    pub fn mint(&mut self, to: TokenHolder, amount: u64) -> (r: Result<(), ErrorCode>)
        requires
            old(self).wf(),
        ensures
            final(self).wf(),
            old(self).supply + amount > u64::MAX ==> r == Err::<(), ErrorCode>(
                ErrorCode::CalculationError,
            ) && *final(self) == *old(self),
            old(self).supply + amount <= u64::MAX ==> {
                &&& r == Ok::<(), ErrorCode>(())
                &&& final(self).supply == old(self).supply + amount
                &&& final(self).balance_of(to) == old(self).balance_of(to) + amount
                &&& forall|h: TokenHolder|
                    h != to ==> final(self).balance_of(h) == old(self).balance_of(h)
            },
    {
        match self.supply.checked_add(amount) {
            None => Err(ErrorCode::CalculationError),
            Some(new_supply) => {
                proof {
                    lemma_balance_le_sum(self.accounts@, to);
                }
                self.credit(to, amount);
                self.supply = new_supply;
                Ok(())
            },
        }
    }

    /// Moves `amount` from the balance of `from` to the balance of `to`.
    ///
    /// Fails with an insufficient-funds error exactly when `from` does not
    /// hold `amount`; nothing moves in that case. Conservation makes the
    /// credited side provably free of overflow.
    pub fn transfer(&mut self, from: TokenHolder, to: TokenHolder, amount: u64) -> (r: Result<
        (),
        ErrorCode,
    >)
        requires
            old(self).wf(),
            from != to,
        ensures
            final(self).wf(),
            old(self).balance_of(from) < amount ==> r == Err::<(), ErrorCode>(
                ErrorCode::InsufficientFunds,
            ) && *final(self) == *old(self),
            old(self).balance_of(from) >= amount ==> {
                &&& r == Ok::<(), ErrorCode>(())
                &&& final(self).balance_of(from) == old(self).balance_of(from) - amount
                &&& final(self).balance_of(to) == old(self).balance_of(to) + amount
                &&& forall|h: TokenHolder|
                    h != from && h != to ==> final(self).balance_of(h) == old(self).balance_of(h)
                &&& final(self).supply == old(self).supply
            },
    {
        proof {
            lemma_balance_nonneg(self.accounts@, from);
        }
        match self.find_account(from) {
            None => {
                proof {
                    lemma_balance_absent(self.accounts@, from);
                }
                if amount == 0 {
                    Ok(())
                } else {
                    Err(ErrorCode::InsufficientFunds)
                }
            },
            Some(i) => {
                proof {
                    lemma_balance_unique(self.accounts@, i as int);
                }
                let have = self.accounts[i].amount;
                if have < amount {
                    return Err(ErrorCode::InsufficientFunds);
                }
                proof {
                    lemma_sum_update(
                        self.accounts@,
                        i as int,
                        TokenAccount { holder: from, amount: (have - amount) as u64 },
                    );
                    lemma_two_balances_le_sum(self.accounts@, from, to);
                }
                self.accounts.set(i, TokenAccount { holder: from, amount: have - amount });
                self.credit(to, amount);
                Ok(())
            },
        }
    }
}

} // verus!
