//! A durable nonce account: an account whose stored value stands in for a
//! short-lived network token, and which only its authority may change.

use crate::error::Error;
use crate::message::{
    advance_instruction, advance_instruction_view, instruction_equal, Message, MessageView,
    NonceRef,
};
use crate::session::Transaction;
use crate::types::{Identity, Token};
use vstd::prelude::*;

verus! {

/// Whether a nonce account holds a value.
#[derive(Debug, Clone, Copy, PartialEq, Eq)]
pub enum NonceState {
    Uninitialized,
    Initialized,
}

/// The bytes that follow `bytes` when they are read as a number, lowest byte
/// first, and one is added; the highest number is followed by zero.
pub open spec fn incremented(bytes: Seq<u8>) -> Seq<u8>
    decreases bytes.len(),
{
    if bytes.len() == 0 {
        bytes
    } else if bytes[0] == 255 {
        seq![0u8] + incremented(bytes.drop_first())
    } else {
        seq![(bytes[0] + 1) as u8] + bytes.drop_first()
    }
}

/// What follows differs from what was, and is as long.
pub proof fn lemma_incremented_differs(bytes: Seq<u8>)
    ensures
        incremented(bytes).len() == bytes.len(),
        bytes.len() > 0 ==> incremented(bytes)[0] != bytes[0],
    decreases bytes.len(),
{
    if bytes.len() > 0 && bytes[0] == 255 {
        lemma_incremented_differs(bytes.drop_first());
    }
}

/// The number that `bytes` stand for, lowest byte first.
pub open spec fn number(bytes: Seq<u8>) -> nat
    decreases bytes.len(),
{
    if bytes.len() == 0 {
        0
    } else {
        bytes[0] as nat + 256 * number(bytes.drop_first())
    }
}

/// How many numbers `digits` bytes can stand for.
pub open spec fn span(digits: nat) -> nat
    decreases digits,
{
    if digits == 0 {
        1
    } else {
        256 * span((digits - 1) as nat)
    }
}

/// What follows `bytes` after `times` steps.
pub open spec fn incremented_times(bytes: Seq<u8>, times: nat) -> Seq<u8>
    decreases times,
{
    if times == 0 {
        bytes
    } else {
        incremented(incremented_times(bytes, (times - 1) as nat))
    }
}

/// Bytes stand for a number below their span.
pub proof fn lemma_number_bound(bytes: Seq<u8>)
    ensures
        number(bytes) < span(bytes.len()),
    decreases bytes.len(),
{
    if bytes.len() > 0 {
        lemma_number_bound(bytes.drop_first());
    }
}

/// What follows stands for the next number, and for zero after the highest.
pub proof fn lemma_incremented_number(bytes: Seq<u8>)
    ensures
        number(bytes) + 1 == span(bytes.len()) ==> number(incremented(bytes)) == 0,
        number(bytes) + 1 != span(bytes.len()) ==> number(incremented(bytes)) == number(bytes) + 1,
    decreases bytes.len(),
{
    if bytes.len() > 0 {
        let rest = bytes.drop_first();
        lemma_number_bound(rest);
        if bytes[0] == 255 {
            lemma_incremented_number(rest);
            assert(incremented(bytes).drop_first() =~= incremented(rest));
        } else {
            assert(incremented(bytes).drop_first() =~= rest);
        }
    }
}

/// After some steps the bytes stand for the number that many higher, counted
/// round after the highest.
pub proof fn lemma_incremented_times(bytes: Seq<u8>, times: nat)
    requires
        times < span(bytes.len()),
    ensures
        incremented_times(bytes, times).len() == bytes.len(),
        number(bytes) + times >= span(bytes.len()) ==> number(incremented_times(bytes, times))
            == number(bytes) + times - span(bytes.len()),
        number(bytes) + times < span(bytes.len()) ==> number(incremented_times(bytes, times))
            == number(bytes) + times,
    decreases times,
{
    lemma_number_bound(bytes);
    if times > 0 {
        let before = incremented_times(bytes, (times - 1) as nat);
        lemma_incremented_times(bytes, (times - 1) as nat);
        lemma_incremented_number(before);
        lemma_incremented_differs(before);
        lemma_number_bound(before);
    }
}

/// A value that has been replaced does not come back before the account has
/// been advanced as many times as there are values.
pub proof fn law_value_does_not_return(bytes: Seq<u8>, times: nat)
    requires
        0 < times < span(bytes.len()),
    ensures
        incremented_times(bytes, times) != bytes,
{
    lemma_incremented_times(bytes, times);
    lemma_number_bound(bytes);
}

/// The value that follows `value` in a nonce account: the token whose bytes
/// follow those of `value`.
pub open spec fn successor_of(value: Token) -> Token {
    choose|next: Token| next.bytes@ == incremented(value.bytes@)
}

/// The value that follows is determined by its bytes, and is another value.
pub proof fn lemma_successor(value: Token, next: Token)
    requires
        next.bytes@ == incremented(value.bytes@),
    ensures
        successor_of(value) == next,
        next != value,
{
    broadcast use vstd::array::axiom_array_ext_equal;

    let chosen = successor_of(value);
    assert(chosen.bytes@ == next.bytes@);
    assert(chosen.bytes =~= next.bytes);
    lemma_incremented_differs(value.bytes@);
}

/// The value that follows `value` in a nonce account.
pub fn successor(value: Token) -> (r: Token)
    ensures
        r == successor_of(value),
        r.bytes@ == incremented(value.bytes@),
        r != value,
{
    let mut bytes = value.bytes;
    let ghost given = value.bytes@;
    let mut i: usize = 0;
    let mut carry = true;
    assert(given.skip(0) =~= given);
    assert(bytes@.take(0) + incremented(given.skip(0)) =~= incremented(given));
    while carry && i < 32
        invariant
            i <= 32,
            given == value.bytes@,
            given.len() == 32,
            bytes@.len() == 32,
            carry ==> bytes@.take(i as int) + incremented(given.skip(i as int)) == incremented(
                given,
            ),
            carry ==> forall|k: int| i <= k < 32 ==> bytes@[k] == given[k],
            !carry ==> bytes@ == incremented(given),
        decreases 32 - i,
    {
        let ghost rest = given.skip(i as int);
        let ghost done = bytes@.take(i as int);
        assert(rest.drop_first() =~= given.skip(i + 1));
        assert(rest[0] == given[i as int]);
        if value.bytes[i] == 255 {
            bytes[i] = 0;
            assert(bytes@.take(i + 1) =~= done + seq![0u8]);
            assert(bytes@.take(i + 1) + incremented(given.skip(i + 1)) =~= done + incremented(
                rest,
            ));
        } else {
            bytes[i] = value.bytes[i] + 1;
            carry = false;
            assert(bytes@ =~= done + incremented(rest));
        }
        i += 1;
    }
    proof {
        if carry {
            assert(given.skip(32) =~= Seq::<u8>::empty());
            assert(bytes@.take(32) =~= bytes@);
            assert(bytes@ + incremented(given.skip(32)) =~= bytes@);
        }
        lemma_successor(value, Token { bytes });
    }
    Token { bytes }
}

/// A durable nonce account.
#[derive(Debug, Clone, Copy, PartialEq, Eq)]
pub struct NonceAccount {
    /// The account's own identity.
    pub identity: Identity,
    /// The program that owns the account.
    pub owner: Identity,
    /// The identity whose signature may change the account.
    pub authority: Identity,
    /// The stored value.
    pub value: Token,
    pub state: NonceState,
    /// The account's balance.
    pub lamports: u64,
    /// The least balance with which the account persists.
    pub minimum: u64,
}

impl NonceAccount {
    /// Whether an account that holds a value also holds the balance it needs
    /// to persist.
    pub open spec fn well_formed(self) -> bool {
        self.state == NonceState::Initialized ==> self.lamports >= self.minimum
    }

    /// Why `signer` may not change the account, if it may not.
    pub open spec fn refusal(self, signer: Identity) -> Option<Error> {
        if self.state == NonceState::Uninitialized {
            Some(Error::NotInitialized)
        } else if signer != self.authority {
            Some(Error::AuthorityMismatch)
        } else {
            None
        }
    }

    /// Checks that `signer` may change the account.
    pub fn check_authority(&self, signer: Identity) -> (r: Result<(), Error>)
        ensures
            match self.refusal(signer) {
                Some(e) => r == Err::<(), Error>(e),
                None => r is Ok,
            },
    {
        match self.state {
            NonceState::Uninitialized => Err(Error::NotInitialized),
            NonceState::Initialized => {
                if signer != self.authority {
                    Err(Error::AuthorityMismatch)
                } else {
                    Ok(())
                }
            },
        }
    }

    /// Creates the account `identity` under `authority`, funded with
    /// `lamports` taken from `funding`, holding `value`. Funding below
    /// `minimum` is `BelowRentExempt`; a funding balance below `lamports` is
    /// `InsufficientFunds`; in both cases nothing is taken.
    pub fn create(
        funding: &mut u64,
        identity: Identity,
        owner: Identity,
        authority: Identity,
        value: Token,
        lamports: u64,
        minimum: u64,
    ) -> (r: Result<NonceAccount, Error>)
        ensures
            lamports < minimum ==> r == Err::<NonceAccount, Error>(Error::BelowRentExempt)
                && *final(funding) == *old(funding),
            lamports >= minimum && *old(funding) < lamports ==> r == Err::<NonceAccount, Error>(
                Error::InsufficientFunds,
            ) && *final(funding) == *old(funding),
            lamports >= minimum && *old(funding) >= lamports ==> *final(funding) == *old(funding)
                - lamports && r == Ok::<NonceAccount, Error>(
                NonceAccount {
                    identity,
                    owner,
                    authority,
                    value,
                    state: NonceState::Initialized,
                    lamports,
                    minimum,
                },
            ),
            r matches Ok(account) ==> account.well_formed(),
    {
        if lamports < minimum {
            return Err(Error::BelowRentExempt);
        }
        if *funding < lamports {
            return Err(Error::InsufficientFunds);
        }
        *funding = *funding - lamports;
        Ok(
            NonceAccount {
                identity,
                owner,
                authority,
                value,
                state: NonceState::Initialized,
                lamports,
                minimum,
            },
        )
    }

    /// What a query answers: the stored value and the authority of an account
    /// that holds a value.
    pub open spec fn queried(self) -> Result<(Token, Identity), Error> {
        if self.state == NonceState::Uninitialized {
            Err(Error::NotInitialized)
        } else {
            Ok((self.value, self.authority))
        }
    }

    /// The stored value and the authority. Nothing changes.
    pub fn query(&self) -> (r: Result<(Token, Identity), Error>)
        ensures
            r == self.queried(),
    {
        match self.state {
            NonceState::Uninitialized => Err(Error::NotInitialized),
            NonceState::Initialized => Ok((self.value, self.authority)),
        }
    }

    /// The account after `signer` has advanced it, or why it may not.
    pub open spec fn advanced(self, signer: Identity) -> Result<NonceAccount, Error> {
        match self.refusal(signer) {
            Some(e) => Err(e),
            None => Ok(NonceAccount { value: successor_of(self.value), ..self }),
        }
    }

    /// Replaces the stored value by the one that follows it, on behalf of
    /// `signer`. Anyone but the authority is refused and changes nothing.
    pub fn advance(&mut self, signer: Identity) -> (r: Result<(), Error>)
        ensures
            match old(self).advanced(signer) {
                Err(e) => r == Err::<(), Error>(e) && *final(self) == *old(self),
                Ok(after) => r is Ok && *final(self) == after && final(self).value != old(
                    self,
                ).value,
            },
            old(self).well_formed() ==> final(self).well_formed(),
    {
        match self.check_authority(signer) {
            Err(e) => Err(e),
            Ok(()) => {
                self.value = successor(self.value);
                Ok(())
            },
        }
    }

    /// The account after `signer` has made `new_authority` the authority, or
    /// why it may not.
    pub open spec fn authorized(self, signer: Identity, new_authority: Identity) -> Result<
        NonceAccount,
        Error,
    > {
        match self.refusal(signer) {
            Some(e) => Err(e),
            None => Ok(NonceAccount { authority: new_authority, ..self }),
        }
    }

    /// Makes `new_authority` the authority, on behalf of `signer`. Anyone but
    /// the current authority is refused and changes nothing.
    pub fn authorize(&mut self, signer: Identity, new_authority: Identity) -> (r: Result<
        (),
        Error,
    >)
        ensures
            match old(self).authorized(signer, new_authority) {
                Err(e) => r == Err::<(), Error>(e) && *final(self) == *old(self),
                Ok(after) => r is Ok && *final(self) == after,
            },
            old(self).well_formed() ==> final(self).well_formed(),
    {
        match self.check_authority(signer) {
            Err(e) => Err(e),
            Ok(()) => {
                self.authority = new_authority;
                Ok(())
            },
        }
    }

    /// The account after `signer` has withdrawn `lamports`, or why it may
    /// not: more than the balance is `InsufficientFunds`; a balance left above
    /// nothing and below the minimum is `BelowRentExempt`; an account left
    /// with nothing is closed.
    pub open spec fn withdrawn(self, signer: Identity, lamports: u64) -> Result<
        NonceAccount,
        Error,
    > {
        match self.refusal(signer) {
            Some(e) => Err(e),
            None => if lamports > self.lamports {
                Err(Error::InsufficientFunds)
            } else if self.lamports - lamports != 0 && self.lamports - lamports < self.minimum {
                Err(Error::BelowRentExempt)
            } else {
                Ok(
                    NonceAccount {
                        lamports: (self.lamports - lamports) as u64,
                        state: if self.lamports == lamports {
                            NonceState::Uninitialized
                        } else {
                            NonceState::Initialized
                        },
                        ..self
                    },
                )
            },
        }
    }

    /// Moves `lamports` from the account to `destination`, on behalf of
    /// `signer`. What stays is nothing, and the account is closed, or at least
    /// the minimum. A refused withdrawal moves nothing.
    pub fn withdraw(&mut self, signer: Identity, lamports: u64, destination: &mut u64) -> (r:
        Result<(), Error>)
        requires
            *old(destination) + lamports <= u64::MAX,
        ensures
            match old(self).withdrawn(signer, lamports) {
                Err(e) => r == Err::<(), Error>(e) && *final(self) == *old(self)
                    && *final(destination) == *old(destination),
                Ok(after) => r is Ok && *final(self) == after && *final(destination) == *old(
                    destination,
                ) + lamports,
            },
            old(self).well_formed() ==> final(self).well_formed(),
    {
        match self.check_authority(signer) {
            Err(e) => {
                return Err(e);
            },
            Ok(()) => {},
        }
        if lamports > self.lamports {
            return Err(Error::InsufficientFunds);
        }
        let left = self.lamports - lamports;
        if left != 0 && left < self.minimum {
            return Err(Error::BelowRentExempt);
        }
        self.lamports = left;
        if left == 0 {
            self.state = NonceState::Uninitialized;
        }
        *destination = *destination + lamports;
        Ok(())
    }

    /// The account after a transaction has used up its value.
    pub open spec fn consumed(self) -> NonceAccount {
        NonceAccount { value: successor_of(self.value), ..self }
    }

    /// Whether `message` begins by advancing this account.
    pub open spec fn advanced_by(self, message: MessageView) -> bool {
        message.instructions.len() > 0 && message.instructions[0].accounts.len() == 2
            && message.instructions[0] == advance_instruction_view(
            NonceRef {
                account: self.identity,
                authority: message.instructions[0].accounts[1].identity,
                program: self.owner,
            },
        )
    }

    /// What the account says to a transaction that uses its value as token.
    pub open spec fn verdict(self, message: MessageView, authentic: bool) -> Verdict {
        if self.state == NonceState::Uninitialized {
            Verdict::NotInitialized
        } else if message.token != self.value {
            Verdict::Stale
        } else if !self.advanced_by(message) {
            Verdict::NoAdvance
        } else if message.instructions[0].accounts[1].identity != self.authority {
            Verdict::WrongAuthority
        } else if !authentic {
            Verdict::Forged
        } else {
            Verdict::Accepted
        }
    }

    /// Whether `after` and `r` are what a transaction over `message` comes to,
    /// where `authentic` says whether its signatures were found good: the
    /// account with its value used up, or the reason why the transaction is
    /// turned away and the account as it was.
    pub open spec fn decided(
        self,
        message: MessageView,
        authentic: bool,
        after: NonceAccount,
        r: Result<(), Error>,
    ) -> bool {
        match self.verdict(message, authentic) {
            Verdict::Accepted => r is Ok && after == self.consumed() && after.value != self.value,
            Verdict::NotInitialized => r == Err::<(), Error>(Error::NotInitialized) && after
                == self,
            Verdict::Stale => r matches Err(Error::Rejected(reason)) && reason@
                == "the token is not the value that the nonce account holds"@ && after == self,
            Verdict::NoAdvance => r matches Err(Error::Rejected(reason)) && reason@
                == "the first instruction does not advance the nonce account"@ && after == self,
            Verdict::WrongAuthority => r == Err::<(), Error>(Error::AuthorityMismatch) && after
                == self,
            Verdict::Forged => r == Err::<(), Error>(Error::SignatureMismatch) && after == self,
        }
    }

    /// Decides on a transaction over `message` that uses this account's value
    /// as its token, where `authentic` says whether its signatures were found
    /// good. It is accepted only if the account holds a value, the token is
    /// that value, the first instruction advances this account, the authority
    /// named there is the current one, and the signatures are good. Accepting
    /// it replaces the stored value, so the same token is not accepted again;
    /// anything else leaves the account as it was.
    pub fn accept(&mut self, message: &Message, authentic: bool) -> (r: Result<(), Error>)
        ensures
            old(self).decided(message@, authentic, *final(self), r),
            old(self).well_formed() ==> final(self).well_formed(),
    {
        match self.state {
            NonceState::Uninitialized => {
                return Err(Error::NotInitialized);
            },
            NonceState::Initialized => {},
        }
        if message.token() != self.value {
            return Err(
                Error::Rejected("the token is not the value that the nonce account holds".to_owned()),
            );
        }
        let instructions = message.instructions();
        if instructions.len() == 0 || instructions[0].accounts.len() != 2 {
            return Err(
                Error::Rejected(
                    "the first instruction does not advance the nonce account".to_owned(),
                ),
            );
        }
        let named = instructions[0].accounts[1].identity;
        let expected = advance_instruction(
            &NonceRef { account: self.identity, authority: named, program: self.owner },
        );
        if !instruction_equal(&instructions[0], &expected) {
            return Err(
                Error::Rejected(
                    "the first instruction does not advance the nonce account".to_owned(),
                ),
            );
        }
        if named != self.authority {
            return Err(Error::AuthorityMismatch);
        }
        if !authentic {
            return Err(Error::SignatureMismatch);
        }
        self.value = successor(self.value);
        Ok(())
    }

    /// Decides on `transaction` as `accept` does, with its signatures checked.
    pub fn land(&mut self, transaction: &Transaction) -> (r: Result<(), Error>)
        ensures
            old(self).decided(
                transaction@.message,
                transaction@.authentic(),
                *final(self),
                r,
            ),
            old(self).well_formed() ==> final(self).well_formed(),
    {
        let authentic = transaction.verify();
        self.accept(transaction.message(), authentic)
    }
}

/// What a nonce account says to a transaction.
#[derive(Debug, Clone, Copy, PartialEq, Eq)]
pub enum Verdict {
    /// The transaction is accepted and the account advances.
    Accepted,
    /// The account holds no value.
    NotInitialized,
    /// The transaction's token is not the account's value.
    Stale,
    /// The transaction does not begin by advancing the account.
    NoAdvance,
    /// The advance instruction names another authority than the current one.
    WrongAuthority,
    /// A signature is not good.
    Forged,
}

} // verus!
