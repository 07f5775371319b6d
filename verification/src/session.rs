//! A signing session: the signatures gathered so far for one message, one
//! place for each identity that must sign it.

use crate::error::Error;
use crate::message::{lemma_required_signers, Message, MessageView};
use crate::signer::{ed25519_verifies, verify_with_identity, Signer};
use crate::types::{Identity, Signature, Token};
use crate::wire::{append_bytes, append_length, append_signatures, message_bytes, transaction_bytes};
use vstd::prelude::*;

verus! {

/// A session as a mathematical value: the message, and for each of its signers,
/// in their order, the signature if there is one.
pub struct SessionView {
    pub message: MessageView,
    pub signatures: Seq<Option<Signature>>,
}

impl SessionView {
    /// Whether there is one place for each signer of a well-formed message.
    pub open spec fn well_formed(self) -> bool {
        self.message.well_formed() && self.signatures.len() == self.message.signers.len()
    }

    /// Whether every identity that must sign has signed.
    pub open spec fn complete(self) -> bool {
        forall|i: int| 0 <= i < self.signatures.len() ==> (#[trigger] self.signatures[i]) is Some
    }

    /// The signature that the session holds for `identity`, if any.
    pub open spec fn signature_of(self, identity: Identity) -> Option<Signature> {
        if self.message.signers.contains(identity) {
            self.signatures[self.message.signers.index_of(identity)]
        } else {
            None
        }
    }

    /// The identities for which the session holds a signature.
    pub open spec fn covered(self) -> Set<Identity> {
        Set::new(|identity: Identity| self.signature_of(identity) is Some)
    }
}

/// No signature for any of `count` signers.
pub open spec fn unsigned(count: nat) -> Seq<Option<Signature>> {
    Seq::new(count, |i: int| None::<Signature>)
}

/// The signatures after `signature` is offered for `identity`: an identity that
/// need not sign changes nothing, a free place takes the signature, the same
/// signature again changes nothing, and a different one is a conflict.
pub open spec fn recorded(
    signers: Seq<Identity>,
    signatures: Seq<Option<Signature>>,
    identity: Identity,
    signature: Signature,
) -> Result<Seq<Option<Signature>>, Error> {
    if signers.contains(identity) {
        let place = signers.index_of(identity);
        match signatures[place] {
            Some(first) => if first == signature {
                Ok(signatures)
            } else {
                Err(Error::ConflictingSignature { identity, first, second: signature })
            },
            None => Ok(signatures.update(place, Some(signature))),
        }
    } else {
        Ok(signatures)
    }
}

/// The signatures after each of `available` has been asked, in order, to sign
/// `bytes` and its signature has been offered; the first failure ends it.
pub open spec fn signed_by(
    signers: Seq<Identity>,
    signatures: Seq<Option<Signature>>,
    bytes: Seq<u8>,
    available: Seq<Signer>,
) -> Result<Seq<Option<Signature>>, Error>
    decreases available.len(),
{
    if available.len() == 0 {
        Ok(signatures)
    } else {
        match signed_by(signers, signatures, bytes, available.drop_last()) {
            Err(e) => Err(e),
            Ok(before) => match available.last().answer(bytes) {
                Err(e) => Err(e),
                Ok(signature) => recorded(
                    signers,
                    before,
                    available.last().spec_identity(),
                    signature,
                ),
            },
        }
    }
}

/// What signing `message` with `available` gives: `SignatureMismatch` where the
/// session is pinned to another token than the message embeds, else the
/// signatures of those who could sign, or the first failure among them.
pub open spec fn sign_outcome(
    message: MessageView,
    available: Seq<Signer>,
    pinned: Option<Token>,
) -> Result<SessionView, Error> {
    if pinned is Some && pinned->0 != message.token {
        Err(Error::SignatureMismatch)
    } else {
        match signed_by(
            message.signers,
            unsigned(message.signers.len()),
            message_bytes(message),
            available,
        ) {
            Ok(signatures) => Ok(SessionView { message, signatures }),
            Err(e) => Err(e),
        }
    }
}

/// Once signing has failed, further signers change nothing.
pub proof fn lemma_signing_stays_failed(
    signers: Seq<Identity>,
    signatures: Seq<Option<Signature>>,
    bytes: Seq<u8>,
    available: Seq<Signer>,
    count: int,
)
    requires
        0 <= count <= available.len(),
        signed_by(signers, signatures, bytes, available.take(count)) is Err,
    ensures
        signed_by(signers, signatures, bytes, available) == signed_by(
            signers,
            signatures,
            bytes,
            available.take(count),
        ),
    decreases available.len() - count,
{
    if count == available.len() {
        assert(available.take(count) =~= available);
    } else {
        assert(available.drop_last().take(count) =~= available.take(count));
        lemma_signing_stays_failed(signers, signatures, bytes, available.drop_last(), count);
    }
}

/// Whether two sessions hold different signatures at place `i`.
pub open spec fn conflict_at(
    first: Seq<Option<Signature>>,
    second: Seq<Option<Signature>>,
    i: int,
) -> bool {
    first[i] is Some && second[i] is Some && first[i] != second[i]
}

/// The first of the places below `count` at which two sessions conflict.
pub open spec fn first_conflict(
    first: Seq<Option<Signature>>,
    second: Seq<Option<Signature>>,
    count: int,
) -> Option<int>
    decreases count,
{
    if count <= 0 {
        None
    } else {
        match first_conflict(first, second, count - 1) {
            Some(i) => Some(i),
            None => if conflict_at(first, second, count - 1) {
                Some(count - 1)
            } else {
                None
            },
        }
    }
}

/// At each place the signature that either session holds.
pub open spec fn union_of(
    first: Seq<Option<Signature>>,
    second: Seq<Option<Signature>>,
) -> Seq<Option<Signature>> {
    Seq::new(
        first.len(),
        |i: int|
            if first[i] is Some {
                first[i]
            } else {
                second[i]
            },
    )
}

/// Two sessions over one message, joined: the union of their signatures, or
/// the first conflict between them, with both signatures.
pub open spec fn merged_pair(
    signers: Seq<Identity>,
    first: Seq<Option<Signature>>,
    second: Seq<Option<Signature>>,
) -> Result<Seq<Option<Signature>>, Error> {
    match first_conflict(first, second, first.len() as int) {
        Some(i) => Err(
            Error::ConflictingSignature {
                identity: signers[i],
                first: first[i]->0,
                second: second[i]->0,
            },
        ),
        None => Ok(union_of(first, second)),
    }
}

/// Sessions joined from the first to the last. Nothing to join is
/// `IncompleteSignatures`; a session over another message is
/// `SignatureMismatch`; the first failure ends it.
pub open spec fn merged(sessions: Seq<SessionView>) -> Result<SessionView, Error>
    decreases sessions.len(),
{
    if sessions.len() == 0 {
        Err(Error::IncompleteSignatures)
    } else if sessions.len() == 1 {
        Ok(sessions[0])
    } else {
        match merged(sessions.drop_last()) {
            Err(e) => Err(e),
            Ok(so_far) => if sessions.last().message != so_far.message {
                Err(Error::SignatureMismatch)
            } else {
                match merged_pair(
                    so_far.message.signers,
                    so_far.signatures,
                    sessions.last().signatures,
                ) {
                    Ok(signatures) => Ok(SessionView { message: so_far.message, signatures }),
                    Err(e) => Err(e),
                }
            },
        }
    }
}

/// Once joining has failed, further sessions change nothing.
pub proof fn lemma_merging_stays_failed(sessions: Seq<SessionView>, count: int)
    requires
        0 <= count <= sessions.len(),
        merged(sessions.take(count)) is Err,
        count >= 1,
    ensures
        merged(sessions) == merged(sessions.take(count)),
    decreases sessions.len() - count,
{
    if count == sessions.len() {
        assert(sessions.take(count) =~= sessions);
    } else {
        assert(sessions.drop_last().take(count) =~= sessions.take(count));
        lemma_merging_stays_failed(sessions.drop_last(), count);
    }
}

/// A conflict found below one bound is the one found below any larger bound.
pub proof fn lemma_first_conflict_stays(
    first: Seq<Option<Signature>>,
    second: Seq<Option<Signature>>,
    found: int,
    count: int,
)
    requires
        0 <= found <= count,
        first_conflict(first, second, found) is Some,
    ensures
        first_conflict(first, second, count) == first_conflict(first, second, found),
    decreases count - found,
{
    if found < count {
        lemma_first_conflict_stays(first, second, found, count - 1);
    }
}

/// The views of a list of sessions, in order.
pub open spec fn session_views(sessions: Seq<Session>) -> Seq<SessionView> {
    Seq::new(sessions.len(), |i: int| sessions[i]@)
}

/// The signatures of a complete session, in the order of the signers.
pub open spec fn present(signatures: Seq<Option<Signature>>) -> Seq<Signature> {
    Seq::new(signatures.len(), |i: int| signatures[i]->0)
}

/// A transaction as a mathematical value: the message and one signature for
/// each of its signers, in their order.
pub struct TransactionView {
    pub message: MessageView,
    pub signatures: Seq<Signature>,
}

impl TransactionView {
    /// Whether each signature is accepted as the one of the signer at its
    /// place over the message's bytes.
    pub open spec fn authentic(self) -> bool {
        forall|k: int|
            0 <= k < self.message.signers.len() ==> ed25519_verifies(
                (#[trigger] self.message.signers[k]).bytes@,
                message_bytes(self.message),
                self.signatures[k].bytes@,
            )
    }
}

/// A fully signed transaction. Its bytes are fixed: what is sent again is what
/// was sent before.
#[derive(Debug, PartialEq, Eq)]
pub struct Transaction {
    message: Message,
    signatures: Vec<Signature>,
}

impl View for Transaction {
    type V = TransactionView;

    closed spec fn view(&self) -> TransactionView {
        TransactionView { message: self.message@, signatures: self.signatures@ }
    }
}

impl Transaction {
    #[verifier::type_invariant]
    spec fn consistent(self) -> bool {
        self.message@.well_formed() && self.signatures@.len() == self.message@.signers.len()
    }

    /// The message that was signed.
    pub fn message(&self) -> (r: &Message)
        ensures
            r@ == self@.message,
    {
        &self.message
    }

    /// The signatures, in the order of the message's signers.
    pub fn signatures(&self) -> (r: &Vec<Signature>)
        ensures
            r@ == self@.signatures,
            r@.len() == self@.message.signers.len(),
    {
        proof {
            use_type_invariant(self);
        }
        &self.signatures
    }

    /// Whether each signature is accepted as the one of the signer at its
    /// place over the message's bytes.
    pub fn verify(&self) -> (r: bool)
        ensures
            r == self@.authentic(),
    {
        proof {
            use_type_invariant(self);
        }
        let bytes = self.message.to_bytes();
        let signers = self.message.signers();
        let mut i: usize = 0;
        while i < signers.len()
            invariant
                i <= signers@.len(),
                signers@ == self@.message.signers,
                signers@.len() == self.signatures@.len(),
                bytes@ == message_bytes(self@.message),
                forall|k: int|
                    0 <= k < i ==> ed25519_verifies(
                        (#[trigger] signers@[k]).bytes@,
                        bytes@,
                        self.signatures@[k].bytes@,
                    ),
            decreases signers@.len() - i,
        {
            if !verify_with_identity(&signers[i], bytes.as_slice(), &self.signatures[i]) {
                return false;
            }
            i += 1;
        }
        true
    }

    /// The bytes to broadcast.
    pub fn to_bytes(&self) -> (r: Vec<u8>)
        ensures
            r@ == transaction_bytes(self@.signatures, self@.message),
    {
        let mut out: Vec<u8> = Vec::new();
        append_length(&mut out, self.signatures.len());
        append_signatures(&mut out, &self.signatures);
        let message = self.message.to_bytes();
        append_bytes(&mut out, message.as_slice());
        assert(out@ =~= transaction_bytes(self@.signatures, self@.message));
        out
    }
}

/// The place of `identity` among `signers`, if it is one of them.
pub fn place_of(signers: &Vec<Identity>, identity: Identity) -> (r: Option<usize>)
    ensures
        r is Some <==> signers@.contains(identity),
        r matches Some(place) ==> place < signers@.len() && signers@[place as int] == identity
            && forall|k: int| 0 <= k < place ==> signers@[k] != identity,
{
    let mut i: usize = 0;
    while i < signers.len()
        invariant
            i <= signers@.len(),
            forall|k: int| 0 <= k < i ==> signers@[k] != identity,
        decreases signers@.len() - i,
    {
        if signers[i] == identity {
            return Some(i);
        }
        i += 1;
    }
    None
}

/// The signatures gathered for one message.
#[derive(Debug, PartialEq, Eq)]
pub struct Session {
    message: Message,
    signatures: Vec<Option<Signature>>,
}

impl View for Session {
    type V = SessionView;

    closed spec fn view(&self) -> SessionView {
        SessionView { message: self.message@, signatures: self.signatures@ }
    }
}

impl Session {
    #[verifier::type_invariant]
    spec fn consistent(self) -> bool {
        self@.well_formed()
    }

    /// A session for `message` in which nobody has signed yet.
    pub fn new(message: Message) -> (r: Session)
        ensures
            r@.message == message@,
            r@.signatures == unsigned(message@.signers.len()),
            r@.well_formed(),
    {
        let count = message.signers().len();
        let mut signatures: Vec<Option<Signature>> = Vec::new();
        let mut i: usize = 0;
        while i < count
            invariant
                i <= count,
                signatures@ == unsigned(i as nat),
            decreases count - i,
        {
            signatures.push(None);
            i += 1;
            assert(signatures@ =~= unsigned(i as nat));
        }
        Session { message, signatures }
    }

    /// Signs `message` with each of `available` in turn. That some identity
    /// has no signer here is no failure: its place stays free. It fails where
    /// `pinned` names another token than the message embeds, where a signer
    /// fails, and where two signers disagree.
    pub fn sign(message: Message, available: &Vec<Signer>, pinned: Option<Token>) -> (r: Result<
        Session,
        Error,
    >)
        ensures
            r matches Ok(session) ==> sign_outcome(message@, available@, pinned) == Ok::<
                SessionView,
                Error,
            >(session@),
            r matches Err(e) ==> sign_outcome(message@, available@, pinned) == Err::<
                SessionView,
                Error,
            >(e),
    {
        match pinned {
            Some(token) => {
                if token != message.token() {
                    return Err(Error::SignatureMismatch);
                }
            },
            None => {},
        }
        let bytes = message.to_bytes();
        let ghost view = message@;
        let mut session = Session::new(message);
        let ghost none = unsigned(view.signers.len());
        let mut i: usize = 0;
        assert(available@.take(0) =~= Seq::<Signer>::empty());
        while i < available.len()
            invariant
                i <= available@.len(),
                view == message@,
                none == unsigned(view.signers.len()),
                !(pinned is Some && pinned->0 != view.token),
                session@.message == view,
                bytes@ == message_bytes(view),
                signed_by(view.signers, none, bytes@, available@.take(i as int)) == Ok::<
                    Seq<Option<Signature>>,
                    Error,
                >(session@.signatures),
            decreases available@.len() - i,
        {
            assert(available@.take(i + 1).drop_last() =~= available@.take(i as int));
            let ghost asked = available@.take(i + 1);
            let ghost before = session@.signatures;
            assert(asked.last() == available@[i as int]);
            assert(signed_by(view.signers, none, bytes@, asked.drop_last()) == Ok::<
                Seq<Option<Signature>>,
                Error,
            >(before));
            let answer = available[i].try_sign(bytes.as_slice());
            let outcome = match answer {
                Ok(signature) => session.record(available[i].identity(), signature),
                Err(e) => Err(e),
            };
            match outcome {
                Ok(()) => {},
                Err(e) => {
                    proof {
                        assert(signed_by(view.signers, none, bytes@, asked) == Err::<
                            Seq<Option<Signature>>,
                            Error,
                        >(e));
                        lemma_signing_stays_failed(
                            view.signers,
                            none,
                            bytes@,
                            available@,
                            i + 1,
                        );
                    }
                    return Err(e);
                },
            }
            i += 1;
        }
        assert(available@.take(i as int) =~= available@);
        Ok(session)
    }

    /// Takes over the signatures of `other`, a session over the same message.
    /// On a conflict the signatures of `self` are no longer meaningful.
    fn take_over(&mut self, other: &Session) -> (r: Result<(), Error>)
        requires
            old(self)@.message == other@.message,
        ensures
            final(self)@.message == old(self)@.message,
            match merged_pair(
                old(self)@.message.signers,
                old(self)@.signatures,
                other@.signatures,
            ) {
                Ok(signatures) => r is Ok && final(self)@.signatures == signatures,
                Err(e) => r == Err::<(), Error>(e),
            },
    {
        proof {
            use_type_invariant(&*self);
            use_type_invariant(other);
        }
        let ghost mine = self.signatures@;
        let ghost theirs = other.signatures@;
        let count = self.signatures.len();
        let mut i: usize = 0;
        while i < count
            invariant
                i <= count,
                count == mine.len(),
                theirs == other.signatures@,
                mine.len() == theirs.len(),
                self.message@ == old(self).message@,
                self.message@.well_formed(),
                mine == old(self).signatures@,
                self.message@.signers.len() == count,
                self.signatures@.len() == count,
                first_conflict(mine, theirs, i as int) is None,
                forall|k: int| 0 <= k < i ==> self.signatures@[k] == union_of(mine, theirs)[k],
                forall|k: int| i <= k < count ==> self.signatures@[k] == mine[k],
            decreases count - i,
        {
            match (self.signatures[i], other.signatures[i]) {
                (Some(first), Some(second)) => {
                    if first != second {
                        let identity = self.message.signers()[i];
                        proof {
                            assert(conflict_at(mine, theirs, i as int));
                            assert(first_conflict(mine, theirs, i + 1) == Some(i as int));
                            lemma_first_conflict_stays(mine, theirs, i + 1, count as int);
                        }
                        return Err(Error::ConflictingSignature { identity, first, second });
                    }
                },
                (None, Some(second)) => {
                    self.signatures[i] = Some(second);
                },
                _ => {},
            }
            i += 1;
        }
        assert(self.signatures@ =~= union_of(mine, theirs));
        Ok(())
    }

    /// Joins sessions over one message into one. Signatures are matched to the
    /// identities that must sign, so the order of the sessions does not matter
    /// to who has signed; two different signatures of one identity are a
    /// conflict, reported with both.
    pub fn merge(sessions: Vec<Session>) -> (r: Result<Session, Error>)
        ensures
            r matches Ok(session) ==> merged(session_views(sessions@)) == Ok::<SessionView, Error>(
                session@,
            ),
            r matches Err(e) ==> merged(session_views(sessions@)) == Err::<SessionView, Error>(e),
    {
        let ghost all = session_views(sessions@);
        if sessions.len() == 0 {
            return Err(Error::IncompleteSignatures);
        }
        let mut rest = sessions;
        let mut joined = rest.remove(0);
        assert(all.take(1) =~= seq![joined@]);
        let mut i: usize = 0;
        while i < rest.len()
            invariant
                i <= rest@.len(),
                all == session_views(sessions@),
                all.len() == rest@.len() + 1,
                forall|k: int| 0 <= k < rest@.len() ==> all[k + 1] == (#[trigger] rest@[k])@,
                merged(all.take(i + 1)) == Ok::<SessionView, Error>(joined@),
            decreases rest@.len() - i,
        {
            let ghost so_far = joined@;
            let ghost upto = all.take(i + 2);
            assert(upto.drop_last() =~= all.take(i + 1));
            assert(upto.last() == rest@[i as int]@);
            let same = rest[i].message().same(joined.message());
            let outcome = if same {
                joined.take_over(&rest[i])
            } else {
                Err(Error::SignatureMismatch)
            };
            match outcome {
                Ok(()) => {},
                Err(e) => {
                    proof {
                        assert(merged(upto) == Err::<SessionView, Error>(e));
                        lemma_merging_stays_failed(all, i + 2);
                    }
                    return Err(e);
                },
            }
            i += 1;
        }
        assert(all.take(i + 1) =~= all);
        Ok(joined)
    }

    /// Turns a complete session into a transaction; a session in which a
    /// required identity has not signed is `IncompleteSignatures`.
    pub fn finalize(self) -> (r: Result<Transaction, Error>)
        ensures
            self@.complete() ==> (r matches Ok(transaction) && transaction@ == (TransactionView {
                message: self@.message,
                signatures: present(self@.signatures),
            })),
            !self@.complete() ==> (r matches Err(e) && e == Error::IncompleteSignatures),
    {
        proof {
            use_type_invariant(&self);
        }
        let ghost held = self.signatures@;
        let mut signatures: Vec<Signature> = Vec::new();
        let mut i: usize = 0;
        while i < self.signatures.len()
            invariant
                i <= self.signatures@.len(),
                held == self.signatures@,
                signatures@.len() == i,
                forall|k: int| 0 <= k < i ==> (#[trigger] held[k]) is Some,
                forall|k: int| 0 <= k < i ==> signatures@[k] == held[k]->0,
            decreases self.signatures@.len() - i,
        {
            match self.signatures[i] {
                Some(signature) => {
                    signatures.push(signature);
                },
                None => {
                    return Err(Error::IncompleteSignatures);
                },
            }
            i += 1;
        }
        assert(signatures@ =~= present(held));
        let Session { message, signatures: _ } = self;
        Ok(Transaction { message, signatures })
    }

    /// The message that the signatures are for.
    pub fn message(&self) -> (r: &Message)
        ensures
            r@ == self@.message,
            self@.well_formed(),
    {
        proof {
            use_type_invariant(self);
        }
        &self.message
    }

    /// The signature at each signer's place.
    pub fn signatures(&self) -> (r: &Vec<Option<Signature>>)
        ensures
            r@ == self@.signatures,
            self@.well_formed(),
    {
        proof {
            use_type_invariant(self);
        }
        &self.signatures
    }

    /// Whether every identity that must sign has signed.
    pub fn is_complete(&self) -> (r: bool)
        ensures
            r == self@.complete(),
    {
        let mut i: usize = 0;
        while i < self.signatures.len()
            invariant
                i <= self.signatures@.len(),
                forall|k: int| 0 <= k < i ==> (#[trigger] self.signatures@[k]) is Some,
            decreases self.signatures@.len() - i,
        {
            if self.signatures[i].is_none() {
                return false;
            }
            i += 1;
        }
        true
    }

    /// Offers `signature` as the one of `identity`. On a conflict the session
    /// stays as it was.
    pub fn record(&mut self, identity: Identity, signature: Signature) -> (r: Result<(), Error>)
        ensures
            final(self)@.message == old(self)@.message,
            match recorded(
                old(self)@.message.signers,
                old(self)@.signatures,
                identity,
                signature,
            ) {
                Ok(signatures) => r is Ok && final(self)@.signatures == signatures,
                Err(e) => r == Err::<(), Error>(e) && final(self)@.signatures == old(
                    self,
                )@.signatures,
            },
    {
        proof {
            use_type_invariant(&*self);
            lemma_required_signers(self.message@.fee_payer, self.message@.instructions);
        }
        match place_of(self.message.signers(), identity) {
            None => Ok(()),
            Some(place) => {
                assert(self.message@.signers.index_of(identity) == place);
                match self.signatures[place] {
                    Some(first) => {
                        if first == signature {
                            Ok(())
                        } else {
                            Err(Error::ConflictingSignature { identity, first, second: signature })
                        }
                    },
                    None => {
                        self.signatures[place] = Some(signature);
                        Ok(())
                    },
                }
            },
        }
    }
}

} // verus!
