use vstd::prelude::*;

use crate::error::BankError;
use crate::transaction::{
    deposit_of, lemma_net_concat, lemma_net_push, net, withdrawal_of, Transaction, TransactionType,
};

verus! {

/// The abstract state of an account: its number, balance and history.
pub struct AccountModel {
    pub number: Seq<char>,
    pub balance: nat,
    pub history: Seq<Transaction>,
}

/// The effect of applying `t` to an account in state `m`: the new state,
/// or `None` when `t` is a withdrawal larger than the balance.
pub open spec fn apply_spec(m: AccountModel, t: Transaction) -> Option<AccountModel> {
    match t.transaction_type {
        TransactionType::CashDeposit => Some(
            AccountModel {
                number: m.number,
                balance: (m.balance + t.amount) as nat,
                history: m.history.push(t),
            },
        ),
        TransactionType::CashWithdrawal => if t.amount <= m.balance {
            Some(
                AccountModel {
                    number: m.number,
                    balance: (m.balance - t.amount) as nat,
                    history: m.history.push(t),
                },
            )
        } else {
            None
        },
    }
}

/// Whether applying `t` to an account in state `m` keeps the balance
/// representable.
pub open spec fn fits(m: AccountModel, t: Transaction) -> bool {
    t.transaction_type == TransactionType::CashDeposit ==> m.balance + t.amount <= usize::MAX
}

/// The state after applying `t` to `m`: unchanged when `t` is refused.
pub open spec fn after_apply(m: AccountModel, t: Transaction) -> AccountModel {
    match apply_spec(m, t) {
        Some(n) => n,
        None => m,
    }
}

/// The state after applying each request of `reqs` in turn, a refused one
/// changing nothing.
pub open spec fn replay(m: AccountModel, reqs: Seq<Transaction>) -> AccountModel
    decreases reqs.len(),
{
    if reqs.len() == 0 {
        m
    } else {
        after_apply(replay(m, reqs.drop_last()), reqs.last())
    }
}

/// The requests of `reqs` that succeed when applied in turn from `m`.
pub open spec fn accepted(m: AccountModel, reqs: Seq<Transaction>) -> Seq<Transaction>
    decreases reqs.len(),
{
    if reqs.len() == 0 {
        Seq::empty()
    } else if apply_spec(replay(m, reqs.drop_last()), reqs.last()) is Some {
        accepted(m, reqs.drop_last()).push(reqs.last())
    } else {
        accepted(m, reqs.drop_last())
    }
}

/// `k` copies of the request `t`.
pub open spec fn repeated(t: Transaction, k: nat) -> Seq<Transaction> {
    Seq::new(k, |_i: int| t)
}

/// Whatever requests are applied to an account, its history grows by
/// exactly the accepted ones, in order of application, and its balance
/// stays non-negative and equal to the deposits minus the withdrawals of
/// its history.
pub proof fn lemma_ledger(m: AccountModel, reqs: Seq<Transaction>)
    requires
        m.balance == net(m.history),
    ensures
        replay(m, reqs).number == m.number,
        replay(m, reqs).history == m.history + accepted(m, reqs),
        replay(m, reqs).balance == net(replay(m, reqs).history),
        replay(m, reqs).balance == m.balance + net(accepted(m, reqs)),
        net(replay(m, reqs).history) >= 0,
    decreases reqs.len(),
{
    if reqs.len() == 0 {
        assert(m.history + Seq::<Transaction>::empty() =~= m.history);
    } else {
        let prefix = reqs.drop_last();
        lemma_ledger(m, prefix);
        let p = replay(m, prefix);
        lemma_net_push(p.history, reqs.last());
        lemma_net_push(accepted(m, prefix), reqs.last());
        assert((m.history + accepted(m, prefix)).push(reqs.last()) =~= m.history + accepted(
            m,
            prefix,
        ).push(reqs.last()));
    }
    lemma_net_concat(m.history, accepted(m, reqs));
}

/// Of `k` withdrawals of the whole balance `a > 0`, made one after another,
/// exactly the first succeeds and the balance ends at zero.
pub proof fn lemma_competing_withdrawals(m: AccountModel, a: usize, k: nat)
    requires
        m.balance == a,
        a > 0,
        k >= 1,
    ensures
        accepted(m, repeated(withdrawal_of(a), k)) == seq![withdrawal_of(a)],
        replay(m, repeated(withdrawal_of(a), k)).balance == 0,
    decreases k,
{
    let reqs = repeated(withdrawal_of(a), k);
    assert(reqs.drop_last() =~= repeated(withdrawal_of(a), (k - 1) as nat));
    assert(reqs.last() == withdrawal_of(a));
    if k == 1 {
        assert(reqs.drop_last() =~= Seq::<Transaction>::empty());
        assert(replay(m, reqs.drop_last()) == m);
        assert(accepted(m, reqs.drop_last()) == Seq::<Transaction>::empty());
        assert(Seq::<Transaction>::empty().push(withdrawal_of(a)) =~= seq![withdrawal_of(a)]);
    } else {
        lemma_competing_withdrawals(m, a, (k - 1) as nat);
        assert(apply_spec(replay(m, reqs.drop_last()), reqs.last()) is None);
    }
}

/// An account with an identifier, a balance and an append-only history.
pub struct Account {
    account_number: String,
    balance: usize,
    transactions: Vec<Transaction>,
}

impl View for Account {
    type V = AccountModel;

    closed spec fn view(&self) -> AccountModel {
        AccountModel {
            number: self.account_number@,
            balance: self.balance as nat,
            history: self.transactions@,
        }
    }
}

impl Account {
    /// The balance equals the deposits minus the withdrawals recorded.
    pub open spec fn wf(&self) -> bool {
        self@.balance == net(self@.history)
    }

    /// A fresh account under `account_number`, with no money and no history.
    pub fn new(account_number: String) -> (r: Account)
        ensures
            r.wf(),
            r@.number == account_number@,
            r@.balance == 0,
            r@.history == Seq::<Transaction>::empty(),
    {
        Account { account_number, balance: 0, transactions: Vec::new() }
    }

    /// Applies `transaction` as one step: a deposit always succeeds; a
    /// withdrawal succeeds when the balance covers it. A refused withdrawal
    /// changes nothing.
    pub fn perform_transaction(&mut self, transaction: Transaction) -> (r: Result<(), BankError>)
        requires
            old(self).wf(),
            fits(old(self)@, transaction),
        ensures
            final(self).wf(),
            r == (if apply_spec(old(self)@, transaction) is Some {
                Ok(())
            } else {
                Err(BankError::InsufficientBalance)
            }),
            final(self)@ == after_apply(old(self)@, transaction),
    {
        proof {
            lemma_net_push(self.transactions@, transaction);
        }
        match transaction.transaction_type {
            TransactionType::CashDeposit => {
                self.balance = self.balance + transaction.amount;
                self.transactions.push(transaction);
                Ok(())
            },
            TransactionType::CashWithdrawal => {
                if self.balance >= transaction.amount {
                    self.balance = self.balance - transaction.amount;
                    self.transactions.push(transaction);
                    Ok(())
                } else {
                    Err(BankError::InsufficientBalance)
                }
            },
        }
    }

    /// Adds the amount of `transaction` to the balance, recorded as a deposit.
    pub fn credit(&mut self, transaction: Transaction)
        requires
            old(self).wf(),
            old(self)@.balance + transaction.amount <= usize::MAX,
        ensures
            final(self).wf(),
            final(self)@ == after_apply(
                old(self)@,
                deposit_of(transaction.amount),
            ),
            final(self)@.balance == old(self)@.balance + transaction.amount,
    {
        let r = self.perform_transaction(Transaction::credit_of_amount(transaction.amount));
    }

    /// Takes the amount of `transaction` from the balance, recorded as a
    /// withdrawal, when the balance covers it.
    pub fn debit(&mut self, transaction: Transaction) -> (r: Result<(), BankError>)
        requires
            old(self).wf(),
        ensures
            final(self).wf(),
            r == (if transaction.amount <= old(self)@.balance {
                Ok(())
            } else {
                Err(BankError::InsufficientBalance)
            }),
            final(self)@ == after_apply(
                old(self)@,
                withdrawal_of(transaction.amount),
            ),
    {
        self.perform_transaction(Transaction::debit_of_amount(transaction.amount))
    }

    /// A copy of the history, in order of application.
    pub fn transactions_history(&self) -> (r: Vec<Transaction>)
        ensures
            r@ == self@.history,
    {
        let mut out: Vec<Transaction> = Vec::new();
        let mut i: usize = 0;
        while i < self.transactions.len()
            invariant
                i <= self.transactions@.len(),
                out@ == self.transactions@.subrange(0, i as int),
            decreases self.transactions@.len() - i,
        {
            out.push(self.transactions[i]);
            i = i + 1;
        }
        assert(out@ == self.transactions@.subrange(0, i as int));
        assert(self.transactions@.subrange(0, i as int) =~= self.transactions@);
        out
    }

    /// The current balance.
    pub fn get_balance(&self) -> (r: usize)
        ensures
            r == self@.balance,
    {
        self.balance
    }

    /// The account's identifier.
    pub fn account_number(&self) -> (r: &String)
        ensures
            r@ == self@.number,
    {
        &self.account_number
    }
}

} // verus!
