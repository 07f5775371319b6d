//! Resolving a replay-token source to a token. Asking the network is the
//! caller's part: the resolver says what to ask, and what the answer means.

use crate::error::Error;
use crate::message::NonceRef;
use crate::nonce::{NonceAccount, NonceState};
use crate::types::{Identity, Token};
use vstd::prelude::*;

verus! {

/// What a signature costs.
#[derive(Debug, Clone, Copy, PartialEq, Eq)]
pub struct FeeSchedule {
    pub lamports_per_signature: u64,
}

impl FeeSchedule {
    /// What `signatures` signatures cost, where that is a number of lamports
    /// that a balance can hold.
    pub fn cost(&self, signatures: u64) -> (r: Option<u64>)
        ensures
            self.lamports_per_signature * signatures <= u64::MAX ==> r == Some(
                (self.lamports_per_signature * signatures) as u64,
            ),
            self.lamports_per_signature * signatures > u64::MAX ==> r is None,
    {
        self.lamports_per_signature.checked_mul(signatures)
    }
}

/// Where the replay token of a transaction comes from.
#[derive(Debug, Clone, Copy, PartialEq, Eq)]
pub enum Source {
    /// The live network's current token.
    Cluster,
    /// The value stored in a durable nonce account.
    NonceAccount(Identity),
    /// A token resolved elsewhere, with the fee schedule if it is known.
    Explicit(Token, Option<FeeSchedule>),
}

/// What must be asked of the network before a source can be resolved.
#[derive(Debug, Clone, Copy, PartialEq, Eq)]
pub enum Query {
    Nothing,
    CurrentToken,
    Account(Identity),
}

/// What the network answered.
#[derive(Debug, Clone, Copy, PartialEq, Eq)]
pub enum Reply {
    /// Nothing was asked, or no answer came.
    Unavailable,
    CurrentToken(Token, Option<FeeSchedule>),
    Account(NonceAccount),
}

/// A resolved token. `advance` names the nonce account that backs it, if one
/// does: the message must then begin by advancing that account.
#[derive(Debug, Clone, Copy, PartialEq, Eq)]
pub struct Resolved {
    pub token: Token,
    pub fee_schedule: Option<FeeSchedule>,
    pub advance: Option<NonceRef>,
}

/// What must be asked for `source`. An explicit token needs nothing.
pub fn query_for(source: &Source) -> (r: Query)
    ensures
        r == match *source {
            Source::Cluster => Query::CurrentToken,
            Source::NonceAccount(identity) => Query::Account(identity),
            Source::Explicit(_, _) => Query::Nothing,
        },
{
    match source {
        Source::Cluster => Query::CurrentToken,
        Source::NonceAccount(identity) => Query::Account(*identity),
        Source::Explicit(_, _) => Query::Nothing,
    }
}

/// What a nonce account fetched for `identity` resolves to, where
/// `nonce_program` is the program that owns nonce accounts.
pub open spec fn resolved_account(
    identity: Identity,
    account: NonceAccount,
    nonce_program: Identity,
) -> Result<Resolved, Error> {
    if account.identity != identity {
        Err(Error::NetworkUnavailable)
    } else if account.state == NonceState::Uninitialized {
        Err(Error::NotInitialized)
    } else if account.owner != nonce_program {
        Err(Error::InvalidOwner)
    } else {
        Ok(
            Resolved {
                token: account.value,
                fee_schedule: None,
                advance: Some(
                    NonceRef { account: identity, authority: account.authority, program: nonce_program },
                ),
            },
        )
    }
}

/// What `source` resolves to, given the network's answer. An explicit token
/// is itself, whatever the answer. The network's current token needs its
/// answer. A nonce account must be the one asked for, hold a value and belong
/// to the nonce program; its value is then the token, and the account is to
/// be advanced. Any other answer is `NetworkUnavailable`.
pub open spec fn resolution(source: Source, reply: Reply, nonce_program: Identity) -> Result<
    Resolved,
    Error,
> {
    match source {
        Source::Explicit(token, fee_schedule) => Ok(
            Resolved { token, fee_schedule, advance: None },
        ),
        Source::Cluster => match reply {
            Reply::CurrentToken(token, fee_schedule) => Ok(
                Resolved { token, fee_schedule, advance: None },
            ),
            _ => Err(Error::NetworkUnavailable),
        },
        Source::NonceAccount(identity) => match reply {
            Reply::Account(account) => resolved_account(identity, account, nonce_program),
            _ => Err(Error::NetworkUnavailable),
        },
    }
}

/// Resolves `source` from the network's answer to `query_for(source)`.
pub fn resolve(source: &Source, reply: &Reply, nonce_program: Identity) -> (r: Result<
    Resolved,
    Error,
>)
    ensures
        r == resolution(*source, *reply, nonce_program),
{
    match source {
        Source::Explicit(token, fee_schedule) => Ok(
            Resolved { token: *token, fee_schedule: *fee_schedule, advance: None },
        ),
        Source::Cluster => match reply {
            Reply::CurrentToken(token, fee_schedule) => Ok(
                Resolved { token: *token, fee_schedule: *fee_schedule, advance: None },
            ),
            _ => Err(Error::NetworkUnavailable),
        },
        Source::NonceAccount(identity) => match reply {
            Reply::Account(account) => {
                if account.identity != *identity {
                    return Err(Error::NetworkUnavailable);
                }
                match account.state {
                    NonceState::Uninitialized => {
                        return Err(Error::NotInitialized);
                    },
                    NonceState::Initialized => {},
                }
                if account.owner != nonce_program {
                    return Err(Error::InvalidOwner);
                }
                Ok(
                    Resolved {
                        token: account.value,
                        fee_schedule: None,
                        advance: Some(
                            NonceRef {
                                account: *identity,
                                authority: account.authority,
                                program: nonce_program,
                            },
                        ),
                    },
                )
            },
            _ => Err(Error::NetworkUnavailable),
        },
    }
}

} // verus!
