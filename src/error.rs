use vstd::prelude::*;

verus! {

/// Why a bank operation was refused.
#[derive(Debug, Clone, Copy, PartialEq, Eq, Structural)]
pub enum BankError {
    /// No account carries the given account number.
    AccountNotFound,
    /// A withdrawal asked for more than the balance holds.
    InsufficientBalance,
}

impl BankError {
    /// A human-readable description of the error.
    pub fn message(&self) -> (r: String)
        ensures
            *self == BankError::AccountNotFound ==> r@ == "Account not found"@,
            *self == BankError::InsufficientBalance ==> r@ == "Insufficient balance"@,
    {
        match self {
            BankError::AccountNotFound => String::from_str("Account not found"),
            BankError::InsufficientBalance => String::from_str("Insufficient balance"),
        }
    }
}

} // verus!
