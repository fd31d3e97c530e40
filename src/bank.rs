use vstd::prelude::*;

use crate::account::{after_apply, apply_spec, fits, Account, AccountModel};
use crate::error::BankError;
use crate::numbering::{decimal, decimal_string, lemma_decimal_injective};
use crate::transaction::{deposit_of, net, withdrawal_of, Transaction};

verus! {

/// The abstract state of a bank.
pub struct BankModel {
    /// How many account numbers have been issued so far.
    pub issued: nat,
    /// The accounts, in order of creation.
    pub accounts: Seq<AccountModel>,
    /// The sequence number behind each account's number.
    pub serials: Seq<nat>,
}

/// Well-formedness of a bank state: each account's number is the decimal
/// form of an issued sequence number, these increase strictly with the
/// order of creation, and each balance agrees with its history.
pub open spec fn bank_wf(m: BankModel) -> bool {
    &&& m.serials.len() == m.accounts.len()
    &&& forall|i: int| 0 <= i < m.serials.len() ==> 1 <= #[trigger] m.serials[i] <= m.issued
    &&& forall|i: int, j: int|
        0 <= i < j < m.serials.len() ==> #[trigger] m.serials[i] < #[trigger] m.serials[j]
    &&& forall|i: int|
        0 <= i < m.accounts.len() ==> (#[trigger] m.accounts[i]).number == decimal(m.serials[i])
    &&& forall|i: int|
        0 <= i < m.accounts.len() ==> (#[trigger] m.accounts[i]).balance == net(
            m.accounts[i].history,
        )
}

/// Whether some account carries the number `q`.
pub open spec fn has_account(m: BankModel, q: Seq<char>) -> bool {
    exists|i: int| 0 <= i < m.accounts.len() && (#[trigger] m.accounts[i]).number == q
}

/// The position of the account that carries the number `q`.
pub open spec fn account_index(m: BankModel, q: Seq<char>) -> int {
    choose|i: int| 0 <= i < m.accounts.len() && (#[trigger] m.accounts[i]).number == q
}

/// Whether applying `t` to the account numbered `q` keeps its balance
/// representable.
pub open spec fn bank_fits(m: BankModel, q: Seq<char>, t: Transaction) -> bool {
    has_account(m, q) ==> fits(m.accounts[account_index(m, q)], t)
}

/// The state after applying `t` to the account numbered `q`.
pub open spec fn bank_after(m: BankModel, q: Seq<char>, t: Transaction) -> BankModel {
    if has_account(m, q) {
        let i = account_index(m, q);
        BankModel {
            issued: m.issued,
            accounts: m.accounts.update(i, after_apply(m.accounts[i], t)),
            serials: m.serials,
        }
    } else {
        m
    }
}

/// The outcome of applying `t` to the account numbered `q`.
pub open spec fn bank_result(m: BankModel, q: Seq<char>, t: Transaction) -> Result<(), BankError> {
    if !has_account(m, q) {
        Err(BankError::AccountNotFound)
    } else if apply_spec(m.accounts[account_index(m, q)], t) is Some {
        Ok(())
    } else {
        Err(BankError::InsufficientBalance)
    }
}

/// A strictly increasing sequence of numbers from one on holds at least
/// `i + 1` at position `i`.
proof fn lemma_serial_lower(s: Seq<nat>, i: int)
    requires
        0 <= i < s.len(),
        forall|j: int| 0 <= j < s.len() ==> 1 <= #[trigger] s[j],
        forall|j: int, l: int| 0 <= j < l < s.len() ==> #[trigger] s[j] < #[trigger] s[l],
    ensures
        s[i] >= i + 1,
    decreases i,
{
    if i > 0 {
        lemma_serial_lower(s, i - 1);
        assert(s[i - 1] < s[i]);
    }
}

/// A strictly increasing sequence of `s.len()` numbers up to `s.len()`
/// holds at most `i + 1` at position `i`.
proof fn lemma_serial_upper(s: Seq<nat>, i: int)
    requires
        0 <= i < s.len(),
        forall|j: int| 0 <= j < s.len() ==> #[trigger] s[j] <= s.len(),
        forall|j: int, l: int| 0 <= j < l < s.len() ==> #[trigger] s[j] < #[trigger] s[l],
    ensures
        s[i] <= i + 1,
    decreases s.len() - i,
{
    if i < s.len() - 1 {
        lemma_serial_upper(s, i + 1);
        assert(s[i] < s[i + 1]);
    }
}

/// No two accounts of a well-formed bank share an account number, and the
/// next number to be issued is greater than every sequence number behind
/// them and differs from each of their numbers.
pub proof fn lemma_numbers_distinct(b: BankModel)
    requires
        bank_wf(b),
    ensures
        forall|i: int, j: int|
            0 <= i < b.accounts.len() && 0 <= j < b.accounts.len() && i != j
                ==> #[trigger] b.accounts[i].number != #[trigger] b.accounts[j].number,
        forall|i: int| 0 <= i < b.accounts.len() ==> #[trigger] b.serials[i] < b.issued + 1,
        forall|i: int|
            0 <= i < b.accounts.len() ==> #[trigger] b.accounts[i].number != decimal(b.issued + 1),
{
    assert forall|i: int, j: int|
        0 <= i < b.accounts.len() && 0 <= j < b.accounts.len() && i != j
            implies #[trigger] b.accounts[i].number != #[trigger] b.accounts[j].number by {
        lemma_decimal_injective(b.serials[i], b.serials[j]);
        if i < j {
            assert(b.serials[i] < b.serials[j]);
        } else {
            assert(b.serials[j] < b.serials[i]);
        }
    }
    assert forall|i: int| 0 <= i < b.accounts.len()
        implies #[trigger] b.accounts[i].number != decimal(b.issued + 1) by {
        lemma_decimal_injective(b.serials[i], b.issued + 1);
        assert(b.serials[i] <= b.issued);
    }
}

/// In a well-formed bank, the account at position `i` is the one found
/// under its number.
pub proof fn lemma_account_index(b: BankModel, i: int)
    requires
        bank_wf(b),
        0 <= i < b.accounts.len(),
    ensures
        has_account(b, b.accounts[i].number),
        account_index(b, b.accounts[i].number) == i,
{
    lemma_numbers_distinct(b);
    assert(b.accounts[i].number == b.accounts[i].number);
}

/// In a bank where every issued number went to an account (as after `N`
/// calls of `create_account` on a new bank), the accounts carry the
/// numbers "1", "2", ..., "N" in order of creation.
pub proof fn lemma_sequential_numbers(b: BankModel)
    requires
        bank_wf(b),
        b.issued == b.accounts.len(),
    ensures
        forall|i: int| 0 <= i < b.accounts.len() ==> #[trigger] b.accounts[i].number == decimal(
            (i + 1) as nat,
        ),
{
    assert forall|i: int| 0 <= i < b.accounts.len() implies #[trigger] b.accounts[i].number
        == decimal((i + 1) as nat) by {
        lemma_serial_lower(b.serials, i);
        lemma_serial_upper(b.serials, i);
    }
}

/// A ledger of accounts, looked up by their account numbers.
pub struct Bank {
    accounts_count: usize,
    accounts: Vec<Account>,
    serials: Ghost<Seq<nat>>,
}

impl View for Bank {
    type V = BankModel;

    closed spec fn view(&self) -> BankModel {
        BankModel {
            issued: self.accounts_count as nat,
            accounts: self.accounts@.map_values(|a: Account| a@),
            serials: self.serials@,
        }
    }
}

impl Bank {
    /// The bank's state is well formed (see `bank_wf`).
    pub open spec fn wf(&self) -> bool {
        bank_wf(self@)
    }

    /// An empty bank that has issued no account number yet.
    pub fn new() -> (r: Bank)
        ensures
            r.wf(),
            r@.issued == 0,
            r@.accounts == Seq::<AccountModel>::empty(),
    {
        let r = Bank { accounts_count: 0, accounts: Vec::new(), serials: Ghost(Seq::empty()) };
        assert(r@.accounts =~= Seq::<AccountModel>::empty());
        r
    }

    /// Issues the next account number: the decimal form of one more than
    /// the count issued so far.
    pub fn generate_account_number(&mut self) -> (r: String)
        requires
            old(self).wf(),
            old(self)@.issued < usize::MAX,
        ensures
            final(self).wf(),
            r@ == decimal(old(self)@.issued + 1),
            final(self)@ == (BankModel { issued: old(self)@.issued + 1, ..old(self)@ }),
    {
        self.accounts_count = self.accounts_count + 1;
        decimal_string(self.accounts_count)
    }

    /// Opens an empty account under the next account number, and returns
    /// that number.
    pub fn create_account(&mut self) -> (r: String)
        requires
            old(self).wf(),
            old(self)@.issued < usize::MAX,
        ensures
            final(self).wf(),
            r@ == decimal(old(self)@.issued + 1),
            final(self)@.issued == old(self)@.issued + 1,
            final(self)@.accounts == old(self)@.accounts.push(
                AccountModel { number: r@, balance: 0, history: Seq::empty() },
            ),
            final(self)@.serials == old(self)@.serials.push(old(self)@.issued + 1),
    {
        let account_number = self.generate_account_number();
        let account = Account::new(account_number.clone());
        self.accounts.push(account);
        self.serials = Ghost(self.serials@.push(self.accounts_count as nat));
        assert(self@.accounts =~= old(self)@.accounts.push(
            AccountModel { number: account_number@, balance: 0, history: Seq::empty() },
        ));
        account_number
    }

    /// The position of the account numbered `account_number`, if any.
    fn find_account(&self, account_number: &str) -> (r: Option<usize>)
        requires
            self.wf(),
        ensures
            r is None <==> !has_account(self@, account_number@),
            r matches Some(i) ==> i < self@.accounts.len() && i == account_index(
                self@,
                account_number@,
            ),
    {
        let key = String::from_str(account_number);
        let mut i: usize = 0;
        while i < self.accounts.len()
            invariant
                self.wf(),
                i <= self.accounts@.len(),
                key@ == account_number@,
                forall|j: int| 0 <= j < i ==> (#[trigger] self@.accounts[j]).number != key@,
            decreases self.accounts@.len() - i,
        {
            if self.accounts[i].account_number().eq(&key) {
                assert(self@.accounts[i as int].number == key@);
                let ghost k = account_index(self@, account_number@);
                proof {
                    lemma_numbers_distinct(self@);
                }
                return Some(i);
            }
            i = i + 1;
        }
        None
    }

    /// Applies `transaction` to the account numbered `account_number`.
    fn perform_transaction(&mut self, account_number: &str, transaction: Transaction) -> (r: Result<
        (),
        BankError,
    >)
        requires
            old(self).wf(),
            bank_fits(old(self)@, account_number@, transaction),
        ensures
            final(self).wf(),
            final(self)@ == bank_after(old(self)@, account_number@, transaction),
            r == bank_result(old(self)@, account_number@, transaction),
    {
        match self.find_account(account_number) {
            Some(i) => {
                assert(self.accounts@[i as int]@ == self@.accounts[i as int]);
                let r = self.accounts[i].perform_transaction(transaction);
                assert(self@.accounts =~= bank_after(
                    old(self)@,
                    account_number@,
                    transaction,
                ).accounts);
                r
            },
            None => Err(BankError::AccountNotFound),
        }
    }

    /// Deposits `amount` into the account numbered `account_number`.
    pub fn deposit_cash(&mut self, account_number: &str, amount: usize) -> (r: Result<(), BankError>)
        requires
            old(self).wf(),
            bank_fits(old(self)@, account_number@, deposit_of(amount)),
        ensures
            final(self).wf(),
            final(self)@ == bank_after(old(self)@, account_number@, deposit_of(amount)),
            r == bank_result(old(self)@, account_number@, deposit_of(amount)),
            !has_account(old(self)@, account_number@) ==> r == Err::<(), BankError>(
                BankError::AccountNotFound,
            ) && final(self)@ == old(self)@,
            r is Ok <==> has_account(old(self)@, account_number@),
    {
        self.perform_transaction(account_number, Transaction::credit_of_amount(amount))
    }

    /// Withdraws `amount` from the account numbered `account_number`.
    pub fn withdraw_cash(&mut self, account_number: &str, amount: usize) -> (r: Result<(), BankError>)
        requires
            old(self).wf(),
        ensures
            final(self).wf(),
            final(self)@ == bank_after(old(self)@, account_number@, withdrawal_of(amount)),
            r == bank_result(old(self)@, account_number@, withdrawal_of(amount)),
            !has_account(old(self)@, account_number@) ==> r == Err::<(), BankError>(
                BankError::AccountNotFound,
            ) && final(self)@ == old(self)@,
    {
        self.perform_transaction(account_number, Transaction::debit_of_amount(amount))
    }

    /// How many account numbers have been issued so far.
    pub fn accounts_issued(&self) -> (r: usize)
        ensures
            r == self@.issued,
    {
        self.accounts_count
    }

    /// The balance of the account numbered `account_number`, if it exists.
    pub fn check_balance(&self, account_number: &str) -> (r: Option<usize>)
        requires
            self.wf(),
        ensures
            !has_account(self@, account_number@) ==> r is None,
            has_account(self@, account_number@) ==> r == Some(
                self@.accounts[account_index(self@, account_number@)].balance as usize,
            ),
    {
        match self.find_account(account_number) {
            Some(i) => Some(self.accounts[i].get_balance()),
            None => None,
        }
    }

    /// A copy of the history of the account numbered `account_number`, if
    /// it exists.
    pub fn get_transactions(&self, account_number: &str) -> (r: Option<Vec<Transaction>>)
        requires
            self.wf(),
        ensures
            r is Some <==> has_account(self@, account_number@),
            r matches Some(h) ==> h@ == self@.accounts[account_index(
                self@,
                account_number@,
            )].history,
    {
        match self.find_account(account_number) {
            Some(i) => Some(self.accounts[i].transactions_history()),
            None => None,
        }
    }
}

} // verus!
