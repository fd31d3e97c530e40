use vstd::prelude::*;

verus! {

/// The two kinds of ledger entry.
#[derive(Debug, Clone, Copy, PartialEq, Eq, Structural)]
pub enum TransactionType {
    CashDeposit,
    CashWithdrawal,
}

/// One immutable ledger entry: an amount in the smallest currency unit and
/// its kind.
#[derive(Debug, Clone, Copy, PartialEq, Eq, Structural)]
pub struct Transaction {
    pub amount: usize,
    pub transaction_type: TransactionType,
}

/// The signed effect of one entry on a balance.
pub open spec fn signed_amount(t: Transaction) -> int {
    match t.transaction_type {
        TransactionType::CashDeposit => t.amount as int,
        TransactionType::CashWithdrawal => -(t.amount as int),
    }
}

/// Deposits minus withdrawals over a history, in order of application.
pub open spec fn net(h: Seq<Transaction>) -> int
    decreases h.len(),
{
    if h.len() == 0 {
        0
    } else {
        net(h.drop_last()) + signed_amount(h.last())
    }
}

/// The deposit of `amount`.
pub open spec fn deposit_of(amount: usize) -> Transaction {
    Transaction { amount, transaction_type: TransactionType::CashDeposit }
}

/// The withdrawal of `amount`.
pub open spec fn withdrawal_of(amount: usize) -> Transaction {
    Transaction { amount, transaction_type: TransactionType::CashWithdrawal }
}

/// Appending an entry adds its signed amount to the net.
pub proof fn lemma_net_push(h: Seq<Transaction>, t: Transaction)
    ensures
        net(h.push(t)) == net(h) + signed_amount(t),
{
    assert(h.push(t).drop_last() =~= h);
}

impl Transaction {
    /// A deposit of `amount`.
    pub fn credit_of_amount(amount: usize) -> (r: Transaction)
        ensures
            r == deposit_of(amount),
    {
        Transaction { amount, transaction_type: TransactionType::CashDeposit }
    }

    /// A withdrawal of `amount`.
    pub fn debit_of_amount(amount: usize) -> (r: Transaction)
        ensures
            r == withdrawal_of(amount),
    {
        Transaction { amount, transaction_type: TransactionType::CashWithdrawal }
    }
}

} // verus!

verus! {

/// The net of a concatenation is the sum of the nets.
pub proof fn lemma_net_concat(a: Seq<Transaction>, b: Seq<Transaction>)
    ensures
        net(a + b) == net(a) + net(b),
    decreases b.len(),
{
    if b.len() > 0 {
        lemma_net_concat(a, b.drop_last());
        assert((a + b).drop_last() =~= a + b.drop_last());
    } else {
        assert(a + b =~= a);
    }
}

} // verus!
