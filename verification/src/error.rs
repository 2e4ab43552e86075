//! The closed set of failures that ledger operations report.

use vstd::prelude::*;
use vstd::string::*;

verus! {

/// Why a ledger operation failed. Each kind carries a human-readable detail.
#[derive(Debug)]
pub enum BlockchainError {
    /// The nonce space ran out before a hash met the difficulty.
    MiningError(String),
    /// An entry or a chain invariant did not hold.
    ValidationError(String),
    /// An identity tried to sign content that is not its own, or signing failed.
    SignatureError(String),
    /// A public identifier or a signature is not a well-formed encoding.
    WalletError(String),
    /// An entry could not be built.
    TransactionError(String),
}

/// The mathematical content of a [`BlockchainError`]: its kind and detail.
pub enum ErrorView {
    MiningError(Seq<char>),
    ValidationError(Seq<char>),
    SignatureError(Seq<char>),
    WalletError(Seq<char>),
    TransactionError(Seq<char>),
}

impl ErrorView {
    /// The detail message carried by the error, whatever its kind.
    pub open spec fn detail(self) -> Seq<char> {
        match self {
            ErrorView::MiningError(msg) => msg,
            ErrorView::ValidationError(msg) => msg,
            ErrorView::SignatureError(msg) => msg,
            ErrorView::WalletError(msg) => msg,
            ErrorView::TransactionError(msg) => msg,
        }
    }

    /// The fixed label that introduces each kind of error in its rendering.
    pub open spec fn label(self) -> Seq<char> {
        match self {
            ErrorView::MiningError(_) => "Mining error: "@,
            ErrorView::ValidationError(_) => "Validation error: "@,
            ErrorView::SignatureError(_) => "Signature error: "@,
            ErrorView::WalletError(_) => "Wallet error: "@,
            ErrorView::TransactionError(_) => "Transaction error: "@,
        }
    }

    /// The rendering of the error: its label followed by its detail.
    pub open spec fn rendering(self) -> Seq<char> {
        self.label() + self.detail()
    }
}

impl View for BlockchainError {
    type V = ErrorView;

    open spec fn view(&self) -> ErrorView {
        match self {
            BlockchainError::MiningError(msg) => ErrorView::MiningError(msg@),
            BlockchainError::ValidationError(msg) => ErrorView::ValidationError(msg@),
            BlockchainError::SignatureError(msg) => ErrorView::SignatureError(msg@),
            BlockchainError::WalletError(msg) => ErrorView::WalletError(msg@),
            BlockchainError::TransactionError(msg) => ErrorView::TransactionError(msg@),
        }
    }
}

/// The mathematical content of a fallible result: the value as it is, or the
/// view of the error.
pub open spec fn outcome<T>(result: Result<T, BlockchainError>) -> Result<T, ErrorView> {
    match result {
        Ok(value) => Ok(value),
        Err(error) => Err(error@),
    }
}

impl BlockchainError {
    /// Takes the detail out of the error.
    pub fn into_detail(self) -> (detail: String)
        ensures
            detail@ == self@.detail(),
    {
        match self {
            BlockchainError::MiningError(msg) => msg,
            BlockchainError::ValidationError(msg) => msg,
            BlockchainError::SignatureError(msg) => msg,
            BlockchainError::WalletError(msg) => msg,
            BlockchainError::TransactionError(msg) => msg,
        }
    }

    /// Renders the error as text: the label of its kind, then its detail.
    pub fn to_string(&self) -> (s: String)
        ensures
            s@ == self@.rendering(),
    {
        match self {
            BlockchainError::MiningError(msg) => String::from_str("Mining error: ").concat(
                msg.as_str(),
            ),
            BlockchainError::ValidationError(msg) => String::from_str("Validation error: ").concat(
                msg.as_str(),
            ),
            BlockchainError::SignatureError(msg) => String::from_str("Signature error: ").concat(
                msg.as_str(),
            ),
            BlockchainError::WalletError(msg) => String::from_str("Wallet error: ").concat(
                msg.as_str(),
            ),
            BlockchainError::TransactionError(msg) => String::from_str(
                "Transaction error: ",
            ).concat(msg.as_str()),
        }
    }
}

} // verus!
