//! Transaction records and the errors the ledger reports on them.

use crate::amount::Amount;
use vstd::prelude::*;

verus! {

/// Identifies a client and its account.
pub type ClientId = u16;

/// Identifies a transaction within a session.
pub type TxId = u32;

/// The five kinds of record the ledger accepts.
#[derive(Clone, Copy, Debug, PartialEq, Eq, Structural)]
pub enum TransactionType {
    Deposit,
    Withdrawal,
    Dispute,
    Resolve,
    Chargeback,
}

/// A record of the input stream; the transaction log holds the deposits and
/// withdrawals among them.
#[derive(Clone, Copy, Debug, PartialEq)]
pub struct Transaction {
    pub ty: TransactionType,
    pub client: ClientId,
    pub tx: TxId,
    pub amount: Option<Amount>,
    pub disputed: bool,
}

/// A transaction with its amount as a number of ten-thousandths.
pub ghost struct TxView {
    pub ty: TransactionType,
    pub client: ClientId,
    pub tx: TxId,
    pub amount: Option<int>,
    pub disputed: bool,
}

pub open spec fn amount_view(a: Option<Amount>) -> Option<int> {
    match a {
        Some(x) => Some(x@),
        None => None,
    }
}

impl View for Transaction {
    type V = TxView;

    open spec fn view(&self) -> TxView {
        TxView {
            ty: self.ty,
            client: self.client,
            tx: self.tx,
            amount: amount_view(self.amount),
            disputed: self.disputed,
        }
    }
}

/// The ways one record can fail to apply.
#[derive(Clone, Copy, Debug, PartialEq, Eq, Structural)]
pub enum EngineError {
    DifferentClient,
    NoAmount,
    ReferredTransactionNoAmount,
    DepositAmountInvalid,
    WithdrawalAmountInvalid,
    TransactionRepeated,
    InsufficientFunds,
    AccountNotFound,
    TransactionNotFound,
    AdditionOverflow,
    SubtractionOverflow,
    AccountLocked,
    TransactionAlreadyDisputed,
    TransactionNotDisputed,
}

/// The sentence that describes each error.
pub open spec fn error_message(e: EngineError) -> Seq<char> {
    match e {
        EngineError::DifferentClient => seq!['C', 'a', 'n', 'n', 'o', 't', ' ', 'd', 'i', 's', 'p', 'u', 't', 'e', '/', 'r', 'e', 's', 'o', 'l', 'v', 'e', '/', 'c', 'h', 'a', 'r', 'g', 'e', 'b', 'a', 'c', 'k', ' ', 't', 'r', 'a', 'n', 's', 'a', 'c', 't', 'i', 'o', 'n', ' ', 'f', 'r', 'o', 'm', ' ', 'a', ' ', 'd', 'i', 'f', 'f', 'e', 'r', 'e', 'n', 't', ' ', 'c', 'l', 'i', 'e', 'n', 't'],
        EngineError::NoAmount => seq!['T', 'r', 'a', 'n', 's', 'a', 'c', 't', 'i', 'o', 'n', ' ', 'm', 'u', 's', 't', ' ', 'h', 'a', 'v', 'e', ' ', 'a', 'n', ' ', 'a', 'm', 'o', 'u', 'n', 't'],
        EngineError::ReferredTransactionNoAmount => seq!['R', 'e', 'f', 'e', 'r', 'r', 'e', 'd', ' ', 'T', 'r', 'a', 'n', 's', 'a', 'c', 't', 'i', 'o', 'n', ' ', 'm', 'u', 's', 't', ' ', 'h', 'a', 'v', 'e', ' ', 'a', 'n', ' ', 'a', 'm', 'o', 'u', 'n', 't'],
        EngineError::DepositAmountInvalid => seq!['D', 'e', 'p', 'o', 's', 'i', 't', ' ', 'a', 'm', 'o', 'u', 'n', 't', ' ', 'm', 'u', 's', 't', ' ', 'b', 'e', ' ', 'g', 'r', 'e', 'a', 't', 'e', 'r', ' ', 't', 'h', 'a', 'n', ' ', '0'],
        EngineError::WithdrawalAmountInvalid => seq!['W', 'i', 't', 'h', 'd', 'r', 'a', 'w', 'a', 'l', ' ', 'a', 'm', 'o', 'u', 'n', 't', ' ', 'm', 'u', 's', 't', ' ', 'b', 'e', ' ', 'g', 'r', 'e', 'a', 't', 'e', 'r', ' ', 't', 'h', 'a', 'n', ' ', '0'],
        EngineError::TransactionRepeated => seq!['T', 'r', 'a', 'n', 's', 'a', 'c', 't', 'i', 'o', 'n', ' ', 'i', 'd', ' ', 'a', 'l', 'r', 'e', 'a', 'd', 'y', ' ', 'p', 'r', 'o', 'c', 'e', 's', 's', 'e', 'd', ' ', 'i', 'n', ' ', 't', 'h', 'i', 's', ' ', 's', 'e', 's', 's', 'i', 'o', 'n', ' ', '-', ' ', 'c', 'a', 'n', 'n', 'o', 't', ' ', 'b', 'e', ' ', 'r', 'e', 'p', 'e', 'a', 't', 'e', 'd', '.'],
        EngineError::InsufficientFunds => seq!['I', 'n', 's', 'u', 'f', 'f', 'i', 'c', 'i', 'e', 'n', 't', ' ', 'f', 'u', 'n', 'd', 's'],
        EngineError::AccountNotFound => seq!['A', 'c', 'c', 'o', 'u', 'n', 't', ' ', 'n', 'o', 't', ' ', 'f', 'o', 'u', 'n', 'd'],
        EngineError::TransactionNotFound => seq!['T', 'r', 'a', 'n', 's', 'a', 'c', 't', 'i', 'o', 'n', ' ', 'n', 'o', 't', ' ', 'f', 'o', 'u', 'n', 'd'],
        EngineError::AdditionOverflow => seq!['A', 'd', 'd', 'i', 't', 'i', 'o', 'n', ' ', 'o', 'v', 'e', 'r', 'f', 'l', 'o', 'w'],
        EngineError::SubtractionOverflow => seq!['S', 'u', 'b', 't', 'r', 'a', 'c', 't', 'i', 'o', 'n', ' ', 'o', 'v', 'e', 'r', 'f', 'l', 'o', 'w'],
        EngineError::AccountLocked => seq!['A', 'c', 'c', 'o', 'u', 'n', 't', ' ', 'i', 's', ' ', 'l', 'o', 'c', 'k', 'e', 'd'],
        EngineError::TransactionAlreadyDisputed => seq!['T', 'r', 'a', 'n', 's', 'a', 'c', 't', 'i', 'o', 'n', ' ', 'a', 'l', 'r', 'e', 'a', 'd', 'y', ' ', 'd', 'i', 's', 'p', 'u', 't', 'e', 'd'],
        EngineError::TransactionNotDisputed => seq!['T', 'r', 'a', 'n', 's', 'a', 'c', 't', 'i', 'o', 'n', ' ', 'n', 'o', 't', ' ', 'd', 'i', 's', 'p', 'u', 't', 'e', 'd'],
    }
}

impl EngineError {
    /// A sentence that describes the error to a person.
    pub fn message(&self) -> (r: &'static str)
        ensures
            r@ == error_message(*self),
    {
        match self {
            EngineError::DifferentClient => {
                proof {
                    reveal_strlit("Cannot dispute/resolve/chargeback transaction from a different client");
                    assert("Cannot dispute/resolve/chargeback transaction from a different client"@ =~= error_message(EngineError::DifferentClient));
                }
                "Cannot dispute/resolve/chargeback transaction from a different client"
            },
            EngineError::NoAmount => {
                proof {
                    reveal_strlit("Transaction must have an amount");
                    assert("Transaction must have an amount"@ =~= error_message(EngineError::NoAmount));
                }
                "Transaction must have an amount"
            },
            EngineError::ReferredTransactionNoAmount => {
                proof {
                    reveal_strlit("Referred Transaction must have an amount");
                    assert("Referred Transaction must have an amount"@ =~= error_message(EngineError::ReferredTransactionNoAmount));
                }
                "Referred Transaction must have an amount"
            },
            EngineError::DepositAmountInvalid => {
                proof {
                    reveal_strlit("Deposit amount must be greater than 0");
                    assert("Deposit amount must be greater than 0"@ =~= error_message(EngineError::DepositAmountInvalid));
                }
                "Deposit amount must be greater than 0"
            },
            EngineError::WithdrawalAmountInvalid => {
                proof {
                    reveal_strlit("Withdrawal amount must be greater than 0");
                    assert("Withdrawal amount must be greater than 0"@ =~= error_message(EngineError::WithdrawalAmountInvalid));
                }
                "Withdrawal amount must be greater than 0"
            },
            EngineError::TransactionRepeated => {
                proof {
                    reveal_strlit("Transaction id already processed in this session - cannot be repeated.");
                    assert("Transaction id already processed in this session - cannot be repeated."@ =~= error_message(EngineError::TransactionRepeated));
                }
                "Transaction id already processed in this session - cannot be repeated."
            },
            EngineError::InsufficientFunds => {
                proof {
                    reveal_strlit("Insufficient funds");
                    assert("Insufficient funds"@ =~= error_message(EngineError::InsufficientFunds));
                }
                "Insufficient funds"
            },
            EngineError::AccountNotFound => {
                proof {
                    reveal_strlit("Account not found");
                    assert("Account not found"@ =~= error_message(EngineError::AccountNotFound));
                }
                "Account not found"
            },
            EngineError::TransactionNotFound => {
                proof {
                    reveal_strlit("Transaction not found");
                    assert("Transaction not found"@ =~= error_message(EngineError::TransactionNotFound));
                }
                "Transaction not found"
            },
            EngineError::AdditionOverflow => {
                proof {
                    reveal_strlit("Addition overflow");
                    assert("Addition overflow"@ =~= error_message(EngineError::AdditionOverflow));
                }
                "Addition overflow"
            },
            EngineError::SubtractionOverflow => {
                proof {
                    reveal_strlit("Subtraction overflow");
                    assert("Subtraction overflow"@ =~= error_message(EngineError::SubtractionOverflow));
                }
                "Subtraction overflow"
            },
            EngineError::AccountLocked => {
                proof {
                    reveal_strlit("Account is locked");
                    assert("Account is locked"@ =~= error_message(EngineError::AccountLocked));
                }
                "Account is locked"
            },
            EngineError::TransactionAlreadyDisputed => {
                proof {
                    reveal_strlit("Transaction already disputed");
                    assert("Transaction already disputed"@ =~= error_message(EngineError::TransactionAlreadyDisputed));
                }
                "Transaction already disputed"
            },
            EngineError::TransactionNotDisputed => {
                proof {
                    reveal_strlit("Transaction not disputed");
                    assert("Transaction not disputed"@ =~= error_message(EngineError::TransactionNotDisputed));
                }
                "Transaction not disputed"
            },
        }
    }
}

/// The outcome of a batch that met at least one failing record.
#[derive(Clone, Debug, PartialEq)]
pub enum TransactionProcessingError {
    MultipleErrors(Vec<String>),
}

} // verus!
