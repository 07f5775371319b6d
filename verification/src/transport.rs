//! The record that carries a session's signatures from the machine that signed
//! to the machine that assembles: the token, each signer with its signature or
//! none, and whether all have signed.

use crate::error::Error;
use crate::session::{recorded, Session, SessionView};
use crate::signer::{make_signer, Presigner};
use crate::types::{Identity, Signature, Token};
use vstd::prelude::*;

verus! {

/// A session's signatures in a form that can be written down and sent.
#[derive(Debug, Clone, PartialEq, Eq)]
pub struct SignOnly {
    pub token: Token,
    pub signers: Vec<(Identity, Option<Signature>)>,
    pub complete: bool,
}

/// Each signer beside the signature at its place.
pub open spec fn paired(
    signers: Seq<Identity>,
    signatures: Seq<Option<Signature>>,
) -> Seq<(Identity, Option<Signature>)> {
    Seq::new(signers.len(), |i: int| (signers[i], signatures[i]))
}

/// The first signature that `pairs` offer for `identity`.
pub open spec fn offered(
    pairs: Seq<(Identity, Option<Signature>)>,
    identity: Identity,
) -> Option<Signature>
    decreases pairs.len(),
{
    if pairs.len() == 0 {
        None
    } else if pairs[0].0 == identity && pairs[0].1 is Some {
        pairs[0].1
    } else {
        offered(pairs.drop_first(), identity)
    }
}

/// The signatures after each signature among `pairs` has been offered, in
/// order; the first conflict ends it.
pub open spec fn applied(
    signers: Seq<Identity>,
    signatures: Seq<Option<Signature>>,
    pairs: Seq<(Identity, Option<Signature>)>,
) -> Result<Seq<Option<Signature>>, Error>
    decreases pairs.len(),
{
    if pairs.len() == 0 {
        Ok(signatures)
    } else {
        match applied(signers, signatures, pairs.drop_last()) {
            Err(e) => Err(e),
            Ok(before) => match pairs.last().1 {
                Some(signature) => recorded(signers, before, pairs.last().0, signature),
                None => Ok(before),
            },
        }
    }
}

/// What taking a record into a session gives: `SignatureMismatch` where the
/// record is for another token than the session's message embeds, else the
/// session with the record's signatures, or the first conflict.
pub open spec fn absorbed(session: SessionView, record: SignOnly) -> Result<SessionView, Error> {
    if record.token != session.message.token {
        Err(Error::SignatureMismatch)
    } else {
        match applied(session.message.signers, session.signatures, record.signers@) {
            Ok(signatures) => Ok(SessionView { message: session.message, signatures }),
            Err(e) => Err(e),
        }
    }
}

/// Once taking a record in has failed, further pairs change nothing.
pub proof fn lemma_applying_stays_failed(
    signers: Seq<Identity>,
    signatures: Seq<Option<Signature>>,
    pairs: Seq<(Identity, Option<Signature>)>,
    count: int,
)
    requires
        0 <= count <= pairs.len(),
        applied(signers, signatures, pairs.take(count)) is Err,
    ensures
        applied(signers, signatures, pairs) == applied(signers, signatures, pairs.take(count)),
    decreases pairs.len() - count,
{
    if count == pairs.len() {
        assert(pairs.take(count) =~= pairs);
    } else {
        assert(pairs.drop_last().take(count) =~= pairs.take(count));
        lemma_applying_stays_failed(signers, signatures, pairs.drop_last(), count);
    }
}

impl SignOnly {
    /// Writes a session down.
    pub fn from_session(session: &Session) -> (r: SignOnly)
        ensures
            r.token == session@.message.token,
            r.signers@ == paired(session@.message.signers, session@.signatures),
            r.complete == session@.complete(),
    {
        let signers = session.message().signers();
        let signatures = session.signatures();
        let mut pairs: Vec<(Identity, Option<Signature>)> = Vec::new();
        let mut i: usize = 0;
        while i < signers.len()
            invariant
                i <= signers@.len(),
                signers@.len() == signatures@.len(),
                pairs@.len() == i,
                forall|k: int| 0 <= k < i ==> pairs@[k] == (signers@[k], signatures@[k]),
            decreases signers@.len() - i,
        {
            pairs.push((signers[i], signatures[i]));
            i += 1;
        }
        assert(pairs@ =~= paired(signers@, signatures@));
        SignOnly {
            token: session.message().token(),
            signers: pairs,
            complete: session.is_complete(),
        }
    }

    /// The signature that the record offers for `identity`, if any.
    pub fn signature_of(&self, identity: Identity) -> (r: Option<Signature>)
        ensures
            r == offered(self.signers@, identity),
    {
        let mut i: usize = 0;
        assert(self.signers@.skip(0) =~= self.signers@);
        while i < self.signers.len()
            invariant
                i <= self.signers@.len(),
                offered(self.signers@, identity) == offered(self.signers@.skip(i as int), identity),
            decreases self.signers@.len() - i,
        {
            assert(self.signers@.skip(i as int).drop_first() =~= self.signers@.skip(i + 1));
            if self.signers[i].0 == identity {
                match self.signers[i].1 {
                    Some(signature) => {
                        return Some(signature);
                    },
                    None => {},
                }
            }
            i += 1;
        }
        None
    }

    /// A presigner for `identity` over `message`, made of the signature that
    /// the record offers for it; none where the record offers no signature.
    pub fn presigner_of(&self, identity: Identity, message: &[u8]) -> (r: Option<Presigner>)
        ensures
            match offered(self.signers@, identity) {
                Some(signature) => r matches Some(p) && p.identity == identity && p.signature
                    == signature && p.message@ == message@,
                None => r is None,
            },
    {
        match self.signature_of(identity) {
            Some(signature) => Some(make_signer(identity, message, signature)),
            None => None,
        }
    }

    /// Takes the record's signatures into `session`. A record for another
    /// token is `SignatureMismatch`; a signature that differs from one that the
    /// session holds is a conflict; a signature of an identity that need not
    /// sign is left out.
    pub fn absorb(&self, session: Session) -> (r: Result<Session, Error>)
        ensures
            r matches Ok(s) ==> absorbed(session@, *self) == Ok::<SessionView, Error>(s@),
            r matches Err(e) ==> absorbed(session@, *self) == Err::<SessionView, Error>(e),
    {
        if self.token != session.message().token() {
            return Err(Error::SignatureMismatch);
        }
        let ghost given = session@;
        let mut current = session;
        let mut i: usize = 0;
        assert(self.signers@.take(0) =~= Seq::<(Identity, Option<Signature>)>::empty());
        while i < self.signers.len()
            invariant
                i <= self.signers@.len(),
                self.token == given.message.token,
                given == session@,
                current@.message == given.message,
                applied(given.message.signers, given.signatures, self.signers@.take(i as int))
                    == Ok::<Seq<Option<Signature>>, Error>(current@.signatures),
            decreases self.signers@.len() - i,
        {
            let ghost taken = self.signers@.take(i + 1);
            assert(taken.drop_last() =~= self.signers@.take(i as int));
            assert(taken.last() == self.signers@[i as int]);
            match self.signers[i].1 {
                Some(signature) => {
                    match current.record(self.signers[i].0, signature) {
                        Ok(()) => {},
                        Err(e) => {
                            proof {
                                assert(applied(given.message.signers, given.signatures, taken)
                                    == Err::<Seq<Option<Signature>>, Error>(e));
                                lemma_applying_stays_failed(
                                    given.message.signers,
                                    given.signatures,
                                    self.signers@,
                                    i + 1,
                                );
                            }
                            return Err(e);
                        },
                    }
                },
                None => {},
            }
            i += 1;
        }
        assert(self.signers@.take(i as int) =~= self.signers@);
        Ok(current)
    }
}

} // verus!
