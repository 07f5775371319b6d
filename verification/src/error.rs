//! What can go wrong between resolving a replay token and confirming a
//! transaction.

use crate::types::{Identity, Signature};
use vstd::prelude::*;

verus! {

/// Every failure that the library reports.
#[derive(Debug, Clone, PartialEq)]
pub enum Error {
    /// A token source needs the network and the network gave no answer.
    NetworkUnavailable,
    /// A nonce account holds no value yet.
    NotInitialized,
    /// An account offered as a nonce account belongs to another program.
    InvalidOwner,
    /// Someone other than the current authority tried to change a nonce account.
    AuthorityMismatch,
    /// A withdrawal would leave a nonce account with a balance above zero and
    /// below the rent-exempt minimum.
    BelowRentExempt,
    /// A required identity has not signed.
    IncompleteSignatures,
    /// Two signatures of one identity over one message differ.
    ConflictingSignature { identity: Identity, first: Signature, second: Signature },
    /// A signature was asked for, or offered, for a message other than the one
    /// it belongs to.
    SignatureMismatch,
    /// An account holds less than is to be taken from it.
    InsufficientFunds,
    /// The network refused the transaction, for the reason it gave.
    Rejected(String),
    /// No confirmation was seen before the timeout; the transaction may still land.
    TimedOutUnconfirmed,
    /// A key could not be used to sign.
    SigningFailed,
}

} // verus!
