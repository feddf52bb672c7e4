//! The ledger itself: users, accounts, balances, and the transaction log.

use vstd::prelude::*;

use crate::transaction::{Transaction, TransactionType};

verus! {

/// A user of the ledger. Created by [`Bank::add_user`], immutable
/// thereafter, never deleted.
#[derive(Debug)]
pub struct User {
    pub id: u32,
    pub name: String,
}

/// A balance bucket owned by exactly one user (`user_id`). Created by
/// [`Bank::add_account`] with balance 0; the balance is mutated only by
/// deposits, withdrawals and transfers. Never deleted.
#[derive(Clone, Copy, Debug, PartialEq, Eq, Structural)]
pub struct Account {
    pub id: u32,
    pub user_id: u32,
    pub balance: i64,
}

/// The ledger: it exclusively owns all users, accounts and transactions,
/// plus the three counters that hand out ids. Each collection is kept in
/// creation order, so ids appear strictly increasing along it.
#[derive(Debug)]
pub struct Bank {
    pub users: Vec<User>,
    pub accounts: Vec<Account>,
    pub transactions: Vec<Transaction>,
    pub next_user_id: u32,
    pub next_account_id: u32,
    pub next_transaction_id: u32,
}

/// The predicate picking out the accounts owned by `user_id`.
pub open spec fn owned_by(user_id: u32) -> spec_fn(Account) -> bool {
    |a: Account| a.user_id == user_id
}

/// Whether some account in `accounts` has id `id`.
pub open spec fn has_account(accounts: Seq<Account>, id: u32) -> bool {
    exists|i: int| 0 <= i < accounts.len() && accounts[i].id == id
}

/// The position of the account with id `id`. Meaningful only when
/// `has_account(accounts, id)` holds and ids are unique, as they are in a
/// well-formed ledger.
pub open spec fn account_index(accounts: Seq<Account>, id: u32) -> int {
    choose|i: int| 0 <= i < accounts.len() && accounts[i].id == id
}

/// The balance of the account with id `id`. Meaningful only when
/// `has_account(accounts, id)` holds.
pub open spec fn balance_of(accounts: Seq<Account>, id: u32) -> i64 {
    accounts[account_index(accounts, id)].balance
}

/// `accounts` with the balance of the account with id `id` replaced by
/// `bal`; every other account, and every other field, is untouched.
pub open spec fn with_balance(accounts: Seq<Account>, id: u32, bal: i64) -> Seq<Account> {
    accounts.map_values(
        |a: Account|
            if a.id == id {
                Account { id: a.id, user_id: a.user_id, balance: bal }
            } else {
                a
            },
    )
}

impl Bank {
    /// Well-formedness: counters start at 1 and only grow; each collection
    /// holds its entries in creation order, so ids are strictly increasing
    /// along it, at least 1, and below the counter that will hand out the
    /// next id; and every logged transaction refers to an account that
    /// exists (accounts are never deleted).
    pub open spec fn wf(self) -> bool {
        &&& 1 <= self.next_user_id
        &&& 1 <= self.next_account_id
        &&& 1 <= self.next_transaction_id
        &&& forall|i: int, j: int|
            0 <= i < j < self.users@.len() ==> self.users@[i].id < self.users@[j].id
        &&& forall|i: int|
            0 <= i < self.users@.len() ==> 1 <= (#[trigger] self.users@[i]).id
                < self.next_user_id
        &&& forall|i: int, j: int|
            0 <= i < j < self.accounts@.len() ==> self.accounts@[i].id < self.accounts@[j].id
        &&& forall|i: int|
            0 <= i < self.accounts@.len() ==> 1 <= (#[trigger] self.accounts@[i]).id
                < self.next_account_id
        &&& forall|i: int, j: int|
            0 <= i < j < self.transactions@.len() ==> self.transactions@[i].id
                < self.transactions@[j].id
        &&& forall|i: int|
            0 <= i < self.transactions@.len() ==> 1 <= (#[trigger] self.transactions@[i]).id
                < self.next_transaction_id
        &&& forall|i: int|
            0 <= i < self.transactions@.len() ==> has_account(
                self.accounts@,
                (#[trigger] self.transactions@[i]).account_id,
            )
    }

    /// An empty ledger: no users, accounts or transactions, and all three
    /// id counters at 1.
    pub fn new() -> (r: Bank)
        ensures
            r.wf(),
            r.users@.len() == 0,
            r.accounts@.len() == 0,
            r.transactions@.len() == 0,
            r.next_user_id == 1,
            r.next_account_id == 1,
            r.next_transaction_id == 1,
    {
        Bank {
            users: Vec::new(),
            accounts: Vec::new(),
            transactions: Vec::new(),
            next_user_id: 1,
            next_account_id: 1,
            next_transaction_id: 1,
        }
    }

    /// Stores a new user under the next sequential user id and returns that
    /// id. The name is taken as given: any string is accepted. Always
    /// succeeds; nothing else in the ledger changes.
    pub fn add_user(&mut self, name: String) -> (user_id: u32)
        requires
            old(self).wf(),
            old(self).next_user_id < u32::MAX,
        ensures
            final(self).wf(),
            user_id == old(self).next_user_id,
            final(self).next_user_id == old(self).next_user_id + 1,
            final(self).users@ == old(self).users@.push(User { id: user_id, name: name }),
            final(self).accounts@ == old(self).accounts@,
            final(self).transactions@ == old(self).transactions@,
            final(self).next_account_id == old(self).next_account_id,
            final(self).next_transaction_id == old(self).next_transaction_id,
    {
        let user_id = self.next_user_id;
        self.users.push(User { id: user_id, name });
        self.next_user_id = self.next_user_id + 1;
        user_id
    }

    /// Stores a new account under the next sequential account id, owned by
    /// `user_id` and starting at balance 0, and returns that id. The owner
    /// id is not checked against the user collection: an account may refer
    /// to a user that was never created. Always succeeds.
    pub fn add_account(&mut self, user_id: u32) -> (account_id: u32)
        requires
            old(self).wf(),
            old(self).next_account_id < u32::MAX,
        ensures
            final(self).wf(),
            account_id == old(self).next_account_id,
            final(self).next_account_id == old(self).next_account_id + 1,
            final(self).accounts@ == old(self).accounts@.push(
                Account { id: account_id, user_id: user_id, balance: 0 },
            ),
            final(self).users@ == old(self).users@,
            final(self).transactions@ == old(self).transactions@,
            final(self).next_user_id == old(self).next_user_id,
            final(self).next_transaction_id == old(self).next_transaction_id,
            has_account(final(self).accounts@, account_id),
            balance_of(final(self).accounts@, account_id) == 0,
            forall|id: u32|
                has_account(old(self).accounts@, id) ==> #[trigger] has_account(
                    final(self).accounts@,
                    id,
                ) && balance_of(final(self).accounts@, id) == balance_of(old(self).accounts@, id),
    {
        let account_id = self.next_account_id;
        self.accounts.push(Account { id: account_id, user_id, balance: 0 });
        self.next_account_id = self.next_account_id + 1;
        proof {
            let s = old(self).accounts@;
            let t = self.accounts@;
            assert forall|i: int|
                0 <= i < self.transactions@.len() implies has_account(
                t,
                (#[trigger] self.transactions@[i]).account_id,
            ) by {
                let a = self.transactions@[i].account_id;
                let w = account_index(s, a);
                assert(t[w].id == a);
            }
            let n = account_index(t, account_id as u32);
            assert(t[s.len() as int].id == account_id);
            assert(t[n].balance == 0);
            assert forall|id: u32| has_account(s, id) implies #[trigger] has_account(t, id)
                && balance_of(t, id) == balance_of(s, id) by {
                let w = account_index(s, id);
                assert(t[w].id == id);
                let w2 = account_index(t, id);
                assert(t[w2].id == id && 0 <= w2 < t.len());
                assert(s[w2].id == id);
                assert(w2 == w);
            }
        }
        account_id
    }

    /// Linear scan for the account with id `account_id`. In a well-formed
    /// ledger ids are unique, so the found position is the account's one
    /// position.
    fn find_account_index(&self, account_id: u32) -> (r: Option<usize>)
        requires
            self.wf(),
        ensures
            match r {
                Some(j) => {
                    &&& has_account(self.accounts@, account_id)
                    &&& j < self.accounts@.len()
                    &&& self.accounts@[j as int].id == account_id
                    &&& j as int == account_index(self.accounts@, account_id)
                },
                None => !has_account(self.accounts@, account_id),
            },
    {
        let n = self.accounts.len();
        let mut j: usize = 0;
        while j < n && self.accounts[j].id != account_id
            invariant
                n == self.accounts@.len(),
                j <= n,
                forall|k: int| 0 <= k < j ==> self.accounts@[k].id != account_id,
            decreases n - j,
        {
            j = j + 1;
        }
        if j < n {
            proof {
                let w = account_index(self.accounts@, account_id);
                assert(self.accounts@[j as int].id == account_id);
                assert(self.accounts@[w].id == account_id && 0 <= w < self.accounts@.len());
                assert(w == j as int);
            }
            Some(j)
        } else {
            None
        }
    }

    /// If the account exists, raises its balance by `amount` (which may be
    /// negative: amounts are applied as given) and appends a `Deposit`
    /// entry under the next transaction id. If the account is unknown,
    /// silently does nothing: no error is reported and no entry is logged.
    pub fn deposit(&mut self, account_id: u32, amount: i64)
        requires
            old(self).wf(),
            has_account(old(self).accounts@, account_id) ==> i64::MIN <= balance_of(
                old(self).accounts@,
                account_id,
            ) + amount <= i64::MAX && old(self).next_transaction_id < u32::MAX,
        ensures
            final(self).wf(),
            final(self).users@ == old(self).users@,
            final(self).next_user_id == old(self).next_user_id,
            final(self).next_account_id == old(self).next_account_id,
            !has_account(old(self).accounts@, account_id) ==> {
                &&& final(self).accounts@ == old(self).accounts@
                &&& final(self).transactions@ == old(self).transactions@
                &&& final(self).next_transaction_id == old(self).next_transaction_id
            },
            has_account(old(self).accounts@, account_id) ==> {
                &&& final(self).accounts@ == with_balance(
                    old(self).accounts@,
                    account_id,
                    (balance_of(old(self).accounts@, account_id) + amount) as i64,
                )
                &&& balance_of(final(self).accounts@, account_id) == balance_of(
                    old(self).accounts@,
                    account_id,
                ) + amount
                &&& final(self).transactions@ == old(self).transactions@.push(
                    Transaction {
                        id: old(self).next_transaction_id,
                        account_id: account_id,
                        transaction_type: TransactionType::Deposit,
                        amount: amount,
                    },
                )
                &&& final(self).next_transaction_id == old(self).next_transaction_id + 1
            },
            forall|id: u32| #[trigger]
                has_account(final(self).accounts@, id) == has_account(old(self).accounts@, id),
            forall|id: u32|
                id != account_id && has_account(old(self).accounts@, id) ==> #[trigger] balance_of(
                    final(self).accounts@,
                    id,
                ) == balance_of(old(self).accounts@, id),
    {
        match self.find_account_index(account_id) {
            Some(j) => {
                let a = self.accounts[j];
                proof {
                    assert(a.balance == balance_of(old(self).accounts@, account_id));
                }
                let updated = Account {
                    id: a.id,
                    user_id: a.user_id,
                    balance: a.balance + amount,
                };
                self.accounts[j] = updated;
                self.transactions.push(
                    Transaction {
                        id: self.next_transaction_id,
                        account_id,
                        transaction_type: TransactionType::Deposit,
                        amount,
                    },
                );
                self.next_transaction_id = self.next_transaction_id + 1;
                proof {
                    let s = old(self).accounts@;
                    let nb = updated.balance;
                    assert(self.accounts@ =~= with_balance(s, account_id, nb)) by {
                        assert forall|k: int|
                            0 <= k < s.len() implies self.accounts@[k] == with_balance(
                            s,
                            account_id,
                            nb,
                        )[k] by {
                            if k != j as int {
                                assert(s[k].id != account_id);
                            }
                        }
                    }
                    lemma_with_balance_effect(s, account_id, nb);
                    assert forall|i: int|
                        0 <= i < self.transactions@.len() implies has_account(
                        self.accounts@,
                        (#[trigger] self.transactions@[i]).account_id,
                    ) by {
                        if i < old(self).transactions@.len() {
                            assert(has_account(s, self.transactions@[i].account_id));
                        } else {
                            assert(self.transactions@[i].account_id == account_id);
                        }
                    }
                }
            },
            None => {
            },
        }
    }

    /// If the account exists and its balance is at least `amount`, lowers
    /// the balance by `amount`, appends a `Withdrawal` entry under the next
    /// transaction id, and returns true. Otherwise — unknown account or
    /// insufficient balance — returns false and changes nothing. The amount
    /// is applied as given: a negative amount passes the balance check and
    /// raises the balance.
    pub fn withdraw(&mut self, account_id: u32, amount: i64) -> (success: bool)
        requires
            old(self).wf(),
            has_account(old(self).accounts@, account_id) && balance_of(
                old(self).accounts@,
                account_id,
            ) >= amount ==> balance_of(old(self).accounts@, account_id) - amount <= i64::MAX && old(
                self,
            ).next_transaction_id < u32::MAX,
        ensures
            final(self).wf(),
            success == (has_account(old(self).accounts@, account_id) && balance_of(
                old(self).accounts@,
                account_id,
            ) >= amount),
            final(self).users@ == old(self).users@,
            final(self).next_user_id == old(self).next_user_id,
            final(self).next_account_id == old(self).next_account_id,
            !success ==> {
                &&& final(self).accounts@ == old(self).accounts@
                &&& final(self).transactions@ == old(self).transactions@
                &&& final(self).next_transaction_id == old(self).next_transaction_id
            },
            success ==> {
                &&& final(self).accounts@ == with_balance(
                    old(self).accounts@,
                    account_id,
                    (balance_of(old(self).accounts@, account_id) - amount) as i64,
                )
                &&& balance_of(final(self).accounts@, account_id) == balance_of(
                    old(self).accounts@,
                    account_id,
                ) - amount
                &&& final(self).transactions@ == old(self).transactions@.push(
                    Transaction {
                        id: old(self).next_transaction_id,
                        account_id: account_id,
                        transaction_type: TransactionType::Withdrawal,
                        amount: amount,
                    },
                )
                &&& final(self).next_transaction_id == old(self).next_transaction_id + 1
            },
            forall|id: u32| #[trigger]
                has_account(final(self).accounts@, id) == has_account(old(self).accounts@, id),
            forall|id: u32|
                id != account_id && has_account(old(self).accounts@, id) ==> #[trigger] balance_of(
                    final(self).accounts@,
                    id,
                ) == balance_of(old(self).accounts@, id),
    {
        match self.find_account_index(account_id) {
            Some(j) => {
                let a = self.accounts[j];
                proof {
                    assert(a.balance == balance_of(old(self).accounts@, account_id));
                }
                if a.balance >= amount {
                    let updated = Account {
                        id: a.id,
                        user_id: a.user_id,
                        balance: a.balance - amount,
                    };
                    self.accounts[j] = updated;
                    self.transactions.push(
                        Transaction {
                            id: self.next_transaction_id,
                            account_id,
                            transaction_type: TransactionType::Withdrawal,
                            amount,
                        },
                    );
                    self.next_transaction_id = self.next_transaction_id + 1;
                    proof {
                        let s = old(self).accounts@;
                        let nb = updated.balance;
                        assert(self.accounts@ =~= with_balance(s, account_id, nb)) by {
                            assert forall|k: int|
                                0 <= k < s.len() implies self.accounts@[k] == with_balance(
                                s,
                                account_id,
                                nb,
                            )[k] by {
                                if k != j as int {
                                    assert(s[k].id != account_id);
                                }
                            }
                        }
                        lemma_with_balance_effect(s, account_id, nb);
                        assert forall|i: int|
                            0 <= i < self.transactions@.len() implies has_account(
                            self.accounts@,
                            (#[trigger] self.transactions@[i]).account_id,
                        ) by {
                            if i < old(self).transactions@.len() {
                                assert(has_account(s, self.transactions@[i].account_id));
                            } else {
                                assert(self.transactions@[i].account_id == account_id);
                            }
                        }
                    }
                    true
                } else {
                    false
                }
            },
            None => false,
        }
    }

    /// Withdraws `amount` from the source account; if that succeeds,
    /// deposits it into the destination account and appends a `Transfer`
    /// entry keyed to the source, then returns true. The deposit is
    /// attempted whether or not the destination exists: an unknown
    /// destination silently swallows the funds, and only two entries (the
    /// withdrawal and the transfer) are logged instead of three. If the
    /// withdrawal fails, nothing changes and the result is false.
    pub fn transfer(&mut self, from_account_id: u32, to_account_id: u32, amount: i64) -> (success:
        bool)
        requires
            old(self).wf(),
            has_account(old(self).accounts@, from_account_id) && balance_of(
                old(self).accounts@,
                from_account_id,
            ) >= amount ==> {
                &&& balance_of(old(self).accounts@, from_account_id) - amount <= i64::MAX
                &&& has_account(old(self).accounts@, to_account_id) ==> old(
                    self,
                ).next_transaction_id + 3 <= u32::MAX
                &&& !has_account(old(self).accounts@, to_account_id) ==> old(
                    self,
                ).next_transaction_id + 2 <= u32::MAX
                &&& has_account(old(self).accounts@, to_account_id) && to_account_id
                    != from_account_id ==> i64::MIN <= balance_of(
                    old(self).accounts@,
                    to_account_id,
                ) + amount <= i64::MAX
            },
        ensures
            final(self).wf(),
            success == (has_account(old(self).accounts@, from_account_id) && balance_of(
                old(self).accounts@,
                from_account_id,
            ) >= amount),
            final(self).users@ == old(self).users@,
            final(self).next_user_id == old(self).next_user_id,
            final(self).next_account_id == old(self).next_account_id,
            !success ==> {
                &&& final(self).accounts@ == old(self).accounts@
                &&& final(self).transactions@ == old(self).transactions@
                &&& final(self).next_transaction_id == old(self).next_transaction_id
            },
            success ==> ({
                let s = old(self).accounts@;
                let aw = with_balance(
                    s,
                    from_account_id,
                    (balance_of(s, from_account_id) - amount) as i64,
                );
                let wtxn = (Transaction {
                    id: old(self).next_transaction_id,
                    account_id: from_account_id,
                    transaction_type: TransactionType::Withdrawal,
                    amount: amount,
                });
                &&& (has_account(s, to_account_id) ==> {
                    &&& final(self).accounts@ == with_balance(
                        aw,
                        to_account_id,
                        (balance_of(aw, to_account_id) + amount) as i64,
                    )
                    &&& final(self).transactions@ == old(self).transactions@.push(wtxn).push(
                        Transaction {
                            id: (old(self).next_transaction_id + 1) as u32,
                            account_id: to_account_id,
                            transaction_type: TransactionType::Deposit,
                            amount: amount,
                        },
                    ).push(
                        Transaction {
                            id: (old(self).next_transaction_id + 2) as u32,
                            account_id: from_account_id,
                            transaction_type: TransactionType::Transfer {
                                to_account_id: to_account_id,
                            },
                            amount: amount,
                        },
                    )
                    &&& final(self).next_transaction_id == old(self).next_transaction_id + 3
                })
                &&& (!has_account(s, to_account_id) ==> {
                    &&& final(self).accounts@ == aw
                    &&& final(self).transactions@ == old(self).transactions@.push(wtxn).push(
                        Transaction {
                            id: (old(self).next_transaction_id + 1) as u32,
                            account_id: from_account_id,
                            transaction_type: TransactionType::Transfer {
                                to_account_id: to_account_id,
                            },
                            amount: amount,
                        },
                    )
                    &&& final(self).next_transaction_id == old(self).next_transaction_id + 2
                })
            }),
            success && has_account(old(self).accounts@, to_account_id) && to_account_id
                != from_account_id ==> {
                &&& balance_of(final(self).accounts@, from_account_id) == balance_of(
                    old(self).accounts@,
                    from_account_id,
                ) - amount
                &&& balance_of(final(self).accounts@, to_account_id) == balance_of(
                    old(self).accounts@,
                    to_account_id,
                ) + amount
            },
            success && to_account_id == from_account_id ==> balance_of(
                final(self).accounts@,
                from_account_id,
            ) == balance_of(old(self).accounts@, from_account_id),
            success && !has_account(old(self).accounts@, to_account_id) ==> balance_of(
                final(self).accounts@,
                from_account_id,
            ) == balance_of(old(self).accounts@, from_account_id) - amount,
            forall|id: u32| #[trigger]
                has_account(final(self).accounts@, id) == has_account(old(self).accounts@, id),
            forall|id: u32|
                id != from_account_id && id != to_account_id && has_account(
                    old(self).accounts@,
                    id,
                ) ==> #[trigger] balance_of(final(self).accounts@, id) == balance_of(
                    old(self).accounts@,
                    id,
                ),
    {
        if self.withdraw(from_account_id, amount) {
            let ghost s = old(self).accounts@;
            let ghost aw = self.accounts@;
            proof {
                lemma_with_balance_effect(
                    s,
                    from_account_id,
                    (balance_of(s, from_account_id) - amount) as i64,
                );
            }
            self.deposit(to_account_id, amount);
            proof {
                if has_account(s, to_account_id) {
                    assert forall|i: int, j: int| 0 <= i < j < aw.len() implies aw[i].id
                        < aw[j].id by {
                        assert(aw[i].id == s[i].id && aw[j].id == s[j].id);
                    }
                    lemma_with_balance_effect(
                        aw,
                        to_account_id,
                        (balance_of(aw, to_account_id) + amount) as i64,
                    );
                }
            }
            self.transactions.push(
                Transaction {
                    id: self.next_transaction_id,
                    account_id: from_account_id,
                    transaction_type: TransactionType::Transfer { to_account_id },
                    amount,
                },
            );
            self.next_transaction_id = self.next_transaction_id + 1;
            proof {
                assert forall|i: int|
                    0 <= i < self.transactions@.len() implies has_account(
                    self.accounts@,
                    (#[trigger] self.transactions@[i]).account_id,
                ) by {
                    if i == self.transactions@.len() - 1 {
                        assert(has_account(s, from_account_id));
                        assert(self.transactions@[i].account_id == from_account_id);
                    }
                }
            }
            true
        } else {
            false
        }
    }

    /// Returns copies of every account owned by `user_id`, in creation
    /// order, and an empty collection when the user owns none (or was never
    /// created). Read-only: the ledger is untouched.
    pub fn get_user_accounts(&self, user_id: u32) -> (result: Vec<Account>)
        ensures
            result@ == self.accounts@.filter(owned_by(user_id)),
    {
        let mut result: Vec<Account> = Vec::new();
        let n = self.accounts.len();
        let mut i: usize = 0;
        while i < n
            invariant
                n == self.accounts@.len(),
                i <= n,
                result@ == self.accounts@.take(i as int).filter(owned_by(user_id)),
            decreases n - i,
        {
            let a = self.accounts[i];
            if a.user_id == user_id {
                result.push(a);
            }
            i = i + 1;
            proof {
                reveal(Seq::filter);
                assert(self.accounts@.take(i as int).drop_last() =~= self.accounts@.take(
                    i as int - 1,
                ));
                assert(self.accounts@.take(i as int).last() == a);
            }
        }
        proof {
            assert(self.accounts@.take(n as int) =~= self.accounts@);
        }
        result
    }

    /// The balance of the account with id `account_id`, or `None` when no
    /// such account exists. Read-only: the ledger is untouched.
    pub fn balance(&self, account_id: u32) -> (r: Option<i64>)
        requires
            self.wf(),
        ensures
            r == if has_account(self.accounts@, account_id) {
                Some(balance_of(self.accounts@, account_id))
            } else {
                None::<i64>
            },
    {
        match self.find_account_index(account_id) {
            Some(j) => Some(self.accounts[j].balance),
            None => None,
        }
    }
}

/// No id is ever reused. Within each of the three collections of a
/// well-formed ledger the ids are pairwise distinct, and every id already
/// handed out lies strictly below the counter that assigns the next one —
/// so `add_user` and `add_account`, whose results equal those counters,
/// always return ids that are fresh and larger than all earlier ones.
pub proof fn lemma_ids_never_reused(bank: Bank)
    requires
        bank.wf(),
    ensures
        forall|i: int, j: int|
            0 <= i < j < bank.users@.len() ==> bank.users@[i].id != bank.users@[j].id,
        forall|i: int, j: int|
            0 <= i < j < bank.accounts@.len() ==> bank.accounts@[i].id != bank.accounts@[j].id,
        forall|i: int, j: int|
            0 <= i < j < bank.transactions@.len() ==> bank.transactions@[i].id
                != bank.transactions@[j].id,
        forall|i: int|
            0 <= i < bank.users@.len() ==> (#[trigger] bank.users@[i]).id < bank.next_user_id,
        forall|i: int|
            0 <= i < bank.accounts@.len() ==> (#[trigger] bank.accounts@[i]).id
                < bank.next_account_id,
        forall|i: int|
            0 <= i < bank.transactions@.len() ==> (#[trigger] bank.transactions@[i]).id
                < bank.next_transaction_id,
{
}

/// `get_user_accounts` answers exactly: every account it returns is owned
/// by the queried user, and every account of the ledger owned by that user
/// appears in the result.
pub proof fn lemma_user_accounts_exact(accounts: Seq<Account>, user_id: u32)
    ensures
        forall|i: int|
            0 <= i < accounts.filter(owned_by(user_id)).len() ==> (#[trigger] accounts.filter(
                owned_by(user_id),
            )[i]).user_id == user_id,
        forall|i: int|
            0 <= i < accounts.len() && (#[trigger] accounts[i]).user_id == user_id
                ==> accounts.filter(owned_by(user_id)).contains(accounts[i]),
{
    assert forall|i: int|
        0 <= i < accounts.filter(owned_by(user_id)).len() implies (#[trigger] accounts.filter(
        owned_by(user_id),
    )[i]).user_id == user_id by {
        accounts.lemma_filter_pred(owned_by(user_id), i);
    }
    assert forall|i: int|
        0 <= i < accounts.len() && (#[trigger] accounts[i]).user_id == user_id
        implies accounts.filter(owned_by(user_id)).contains(accounts[i]) by {
        accounts.lemma_filter_contains(owned_by(user_id), i);
    }
}

/// How `with_balance` acts on a sequence of accounts with strictly
/// increasing (hence unique) ids: the named account's balance becomes
/// `bal`, and nothing else — which accounts exist, their ids, owners and
/// the other balances — changes.
proof fn lemma_with_balance_effect(s: Seq<Account>, id: u32, bal: i64)
    requires
        forall|i: int, j: int| 0 <= i < j < s.len() ==> s[i].id < s[j].id,
        has_account(s, id),
    ensures
        ({
            let t = with_balance(s, id, bal);
            &&& t.len() == s.len()
            &&& forall|i: int|
                0 <= i < s.len() ==> (#[trigger] t[i]).id == s[i].id && t[i].user_id
                    == s[i].user_id
            &&& forall|q: u32| #[trigger] has_account(t, q) == has_account(s, q)
            &&& account_index(t, id) == account_index(s, id)
            &&& balance_of(t, id) == bal
            &&& forall|q: u32|
                q != id && has_account(s, q) ==> #[trigger] balance_of(t, q) == balance_of(s, q)
        }),
{
    let t = with_balance(s, id, bal);
    assert forall|q: u32| #[trigger] has_account(t, q) == has_account(s, q) by {
        if has_account(s, q) {
            let w = account_index(s, q);
            assert(t[w].id == q);
        }
        if has_account(t, q) {
            let w = choose|i: int| 0 <= i < t.len() && t[i].id == q;
            assert(s[w].id == q);
        }
    }
    let w = account_index(s, id);
    assert(t[w].id == id);
    let wt = account_index(t, id);
    assert(t[wt].id == id && 0 <= wt < t.len());
    assert(s[wt].id == id);
    assert(wt == w);
    assert(s[w].id == id);
    assert(t[w].balance == bal);
    assert forall|q: u32|
        q != id && has_account(s, q) implies #[trigger] balance_of(t, q) == balance_of(s, q) by {
        let v = account_index(s, q);
        assert(t[v].id == q);
        let vt = account_index(t, q);
        assert(t[vt].id == q && 0 <= vt < t.len());
        assert(s[vt].id == q);
        assert(vt == v);
        assert(s[v].id != id);
    }
}

} // verus!
