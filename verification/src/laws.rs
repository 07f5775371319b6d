//! What holds of the library as a whole, stated over the same models that the
//! functions' contracts use.

use crate::error::Error;
use crate::framing::{law_bytes_determine_message, message_fits};
use crate::message::{
    built_message, is_signing_party, lemma_required_signers, signs_among, InstructionView,
    MessageView, NonceRef,
};
use crate::nonce::{incremented, lemma_incremented_differs, NonceAccount, NonceState, Verdict};
use crate::session::{
    conflict_at, first_conflict, merged, merged_pair, recorded, signed_by, union_of, SessionView,
};
use crate::signer::{Presigner, Signer};
use crate::types::{Identity, Signature, Token};
use crate::wire::message_bytes;
use vstd::prelude::*;

verus! {

/// Building is a function of its arguments: two messages built from the same
/// instructions, fee payer, token and nonce account are the same message and
/// have the same bytes, wherever and whenever they were built.
pub proof fn law_build_is_deterministic(
    instructions: Seq<InstructionView>,
    fee_payer: Identity,
    token: Token,
    advance: Option<NonceRef>,
    first: MessageView,
    second: MessageView,
)
    requires
        first == built_message(instructions, fee_payer, token, advance),
        second == built_message(instructions, fee_payer, token, advance),
    ensures
        first == second,
        message_bytes(first) == message_bytes(second),
{
}

/// A built message is well formed, its fee payer signs first, and where a
/// nonce account backs the token its first instruction advances that account.
pub proof fn law_built_message_shape(
    instructions: Seq<InstructionView>,
    fee_payer: Identity,
    token: Token,
    advance: Option<NonceRef>,
)
    ensures
        built_message(instructions, fee_payer, token, advance).well_formed(),
        built_message(instructions, fee_payer, token, advance).signers[0] == fee_payer,
        built_message(instructions, fee_payer, token, advance).signers.no_duplicates(),
        advance matches Some(nonce) ==> built_message(
            instructions,
            fee_payer,
            token,
            advance,
        ).signers.contains(nonce.authority),
{
    let message = built_message(instructions, fee_payer, token, advance);
    lemma_required_signers(fee_payer, message.instructions);
    if let Some(nonce) = advance {
        let first = message.instructions[0];
        assert(first.accounts[1].signer && first.accounts[1].identity == nonce.authority);
        assert(signs_among(first.accounts, nonce.authority));
        assert(is_signing_party(message.instructions, nonce.authority));
    }
}

/// Two queries of an account with nothing between them answer the same.
pub proof fn law_query_is_repeatable(
    account: NonceAccount,
    first: Result<(Token, Identity), Error>,
    second: Result<(Token, Identity), Error>,
)
    requires
        first == account.queried(),
        second == account.queried(),
    ensures
        first == second,
{
}

/// A transaction that a nonce account accepts uses up the account's value: a
/// query then answers another value than before, and the same message is
/// turned away as stale.
pub proof fn law_consumed_value_is_gone(
    account: NonceAccount,
    message: MessageView,
    authentic: bool,
)
    requires
        account.verdict(message, authentic) == Verdict::Accepted,
    ensures
        account.queried() matches Ok(before) && account.consumed().queried() matches Ok(after)
            && before.0 != after.0,
        account.consumed().verdict(message, authentic) == Verdict::Stale,
        account.consumed().verdict(message, true) == Verdict::Stale,
{
    broadcast use vstd::array::axiom_array_ext_equal;

    let next = account.consumed().value;
    lemma_incremented_differs(account.value.bytes@);
    lemma_token_exists(incremented(account.value.bytes@));
    assert(next.bytes@ == incremented(account.value.bytes@));
    assert(next.bytes@[0] != account.value.bytes@[0]);
}

/// Every 32 bytes are the bytes of a token.
pub proof fn lemma_token_exists(bytes: Seq<u8>)
    requires
        bytes.len() == 32,
    ensures
        exists|t: Token| (#[trigger] t.bytes@) == bytes,
{
    lemma_array_exists(bytes);
    let array: [u8; 32] = choose|a: [u8; 32]| (#[trigger] a@) == bytes;
    let t = Token { bytes: array };
    assert(t.bytes@ == bytes);
}

/// Every 32 bytes are the view of an array.
proof fn lemma_array_exists(bytes: Seq<u8>)
    requires
        bytes.len() == 32,
    ensures
        exists|a: [u8; 32]| (#[trigger] a@) == bytes,
{
    let a: [u8; 32] = [
        bytes[0], bytes[1], bytes[2], bytes[3], bytes[4], bytes[5], bytes[6], bytes[7],
        bytes[8], bytes[9], bytes[10], bytes[11], bytes[12], bytes[13], bytes[14], bytes[15],
        bytes[16], bytes[17], bytes[18], bytes[19], bytes[20], bytes[21], bytes[22], bytes[23],
        bytes[24], bytes[25], bytes[26], bytes[27], bytes[28], bytes[29], bytes[30], bytes[31],
    ];
    assert(a@ =~= bytes);
}

/// After the authority has handed over to another identity, the old
/// authority's advance is refused as `AuthorityMismatch` and the new
/// authority's advance succeeds.
pub proof fn law_authority_rotation(
    account: NonceAccount,
    new_authority: Identity,
)
    requires
        account.state == NonceState::Initialized,
        new_authority != account.authority,
    ensures
        account.authorized(account.authority, new_authority) matches Ok(rotated)
            && rotated.advanced(account.authority) == Err::<NonceAccount, Error>(
            Error::AuthorityMismatch,
        ) && rotated.advanced(new_authority) is Ok && rotated.withdrawn(account.authority, 0)
            == Err::<NonceAccount, Error>(Error::AuthorityMismatch),
{
}

/// A presigner never answers for another message than its own: every other
/// message is `SignatureMismatch`, and its own message is answered with the
/// captured signature.
pub proof fn law_presigner_fidelity(presigner: Presigner, candidate: Seq<u8>)
    ensures
        candidate != presigner.message@ ==> presigner.answer(candidate) == Err::<Signature, Error>(
            Error::SignatureMismatch,
        ),
        candidate == presigner.message@ ==> presigner.answer(candidate) == Ok::<Signature, Error>(
            presigner.signature,
        ),
{
}

/// A presigner captured against one message answers for no other message:
/// another message has other bytes.
pub proof fn law_presigner_refuses_other_messages(
    presigner: Presigner,
    captured: MessageView,
    candidate: MessageView,
)
    requires
        message_fits(captured),
        message_fits(candidate),
        presigner.message@ == message_bytes(captured),
        candidate != captured,
    ensures
        presigner.answer(message_bytes(candidate)) == Err::<Signature, Error>(
            Error::SignatureMismatch,
        ),
{
    if message_bytes(candidate) == message_bytes(captured) {
        law_bytes_determine_message(candidate, captured);
    }
}

/// A session is complete exactly if the identities that it covers are all the
/// identities that must sign; it never covers any other.
pub proof fn law_complete_means_all_covered(session: SessionView)
    requires
        session.well_formed(),
    ensures
        session.covered().subset_of(session.message.signers.to_set()),
        session.complete() <==> session.covered() == session.message.signers.to_set(),
{
    let signers = session.message.signers;
    lemma_required_signers(session.message.fee_payer, session.message.instructions);
    assert forall|id: Identity| session.covered().contains(id) implies signers.to_set().contains(
        id,
    ) by {}
    if session.complete() {
        assert forall|id: Identity| signers.to_set().contains(id) implies session.covered().contains(
            id,
        ) by {
            let i = signers.index_of(id);
            assert(session.signatures[i] is Some);
        }
        assert(session.covered() =~= signers.to_set());
    }
    if session.covered() == signers.to_set() {
        assert forall|i: int| 0 <= i < session.signatures.len() implies (
        #[trigger] session.signatures[i]) is Some by {
            let id = signers[i];
            assert(signers.contains(id));
            assert(signers.to_set().contains(id));
            assert(session.covered().contains(id));
            assert(signers.index_of(id) == i);
        }
    }
}

/// Joining two sessions over one message that do not conflict covers what
/// either covers, and is complete exactly if the two together cover every
/// identity that must sign.
pub proof fn law_merge_completeness(first: SessionView, second: SessionView)
    requires
        first.well_formed(),
        second.well_formed(),
        first.message == second.message,
        merged(seq![first, second]) is Ok,
    ensures
        merged(seq![first, second])->Ok_0.message == first.message,
        merged(seq![first, second])->Ok_0.covered() == first.covered().union(second.covered()),
        merged(seq![first, second])->Ok_0.complete() <==> first.covered().union(second.covered())
            == first.message.signers.to_set(),
{
    let both = seq![first, second];
    assert(both.drop_last() =~= seq![first]);
    assert(both.last() == second);
    assert(merged(both.drop_last()) == Ok::<SessionView, Error>(first));
    let signers = first.message.signers;
    assert(merged_pair(signers, first.signatures, second.signatures) is Ok);
    let joined = merged(both)->Ok_0;
    assert(joined.signatures == union_of(first.signatures, second.signatures));
    assert(joined.well_formed());
    assert forall|id: Identity| joined.covered().contains(id) <==> first.covered().union(
        second.covered(),
    ).contains(id) by {
        if signers.contains(id) {
            let i = signers.index_of(id);
            assert(joined.signatures[i] == union_of(first.signatures, second.signatures)[i]);
        }
    }
    assert(joined.covered() =~= first.covered().union(second.covered()));
    law_complete_means_all_covered(joined);
}

/// No conflict is found below a bound exactly if there is none below it.
pub proof fn lemma_no_conflict(
    first: Seq<Option<Signature>>,
    second: Seq<Option<Signature>>,
    count: int,
)
    requires
        0 <= count,
    ensures
        first_conflict(first, second, count) is None <==> forall|i: int|
            0 <= i < count ==> !conflict_at(first, second, i),
        first_conflict(first, second, count) matches Some(i) ==> 0 <= i < count && conflict_at(
            first,
            second,
            i,
        ),
    decreases count,
{
    if count > 0 {
        lemma_no_conflict(first, second, count - 1);
        if first_conflict(first, second, count) is None {
            assert forall|i: int| 0 <= i < count implies !conflict_at(first, second, i) by {
                if i == count - 1 {
                } else {
                    assert(0 <= i < count - 1);
                }
            }
        }
    }
}

/// Two sessions over one message can be joined in either order: they conflict
/// in one order exactly if they conflict in the other, and where they do not,
/// the joined session is the same.
pub proof fn law_merge_order_does_not_matter(first: SessionView, second: SessionView)
    requires
        first.well_formed(),
        second.well_formed(),
        first.message == second.message,
    ensures
        merged(seq![first, second]) is Ok <==> merged(seq![second, first]) is Ok,
        merged(seq![first, second]) is Ok ==> merged(seq![first, second]) == merged(
            seq![second, first],
        ),
{
    let forth = seq![first, second];
    let back = seq![second, first];
    assert(forth.drop_last() =~= seq![first]);
    assert(back.drop_last() =~= seq![second]);
    assert(forth.last() == second);
    assert(back.last() == first);
    assert(merged(forth.drop_last()) == Ok::<SessionView, Error>(first));
    assert(merged(back.drop_last()) == Ok::<SessionView, Error>(second));
    let a = first.signatures;
    let b = second.signatures;
    let n = a.len() as int;
    lemma_no_conflict(a, b, n);
    lemma_no_conflict(b, a, n);
    if first_conflict(a, b, n) is None {
        assert forall|i: int| 0 <= i < n implies !conflict_at(b, a, i) by {
            assert(!conflict_at(a, b, i));
        }
        assert(union_of(a, b) =~= union_of(b, a)) by {
            assert forall|i: int| 0 <= i < n implies union_of(a, b)[i] == union_of(b, a)[i] by {
                assert(!conflict_at(a, b, i));
            }
        }
    }
    if first_conflict(b, a, n) is None {
        assert forall|i: int| 0 <= i < n implies !conflict_at(a, b, i) by {
            assert(!conflict_at(b, a, i));
        }
    }
    assert(merged(forth) is Ok <==> merged_pair(first.message.signers, a, b) is Ok);
    assert(merged(back) is Ok <==> merged_pair(first.message.signers, b, a) is Ok);
}

/// A session that covers only some of the identities that must sign is not
/// complete.
pub proof fn law_partial_session_is_incomplete(session: SessionView, missing: Identity)
    requires
        session.well_formed(),
        session.message.signers.contains(missing),
        !session.covered().contains(missing),
    ensures
        !session.complete(),
{
    law_complete_means_all_covered(session);
    assert(session.message.signers.to_set().contains(missing));
}

/// Whether one of `available` signs for `identity` and answers `signature`.
pub open spec fn signs_for(
    available: Seq<Signer>,
    bytes: Seq<u8>,
    identity: Identity,
    signature: Signature,
) -> bool {
    exists|k: int|
        0 <= k < available.len() && (#[trigger] available[k]).spec_identity() == identity
            && available[k].answer(bytes) == Ok::<Signature, Error>(signature)
}

/// Whether one of `available` signs for `identity`.
pub open spec fn has_signer(available: Seq<Signer>, identity: Identity) -> bool {
    exists|k: int| 0 <= k < available.len() && (#[trigger] available[k]).spec_identity() == identity
}

/// Where signing succeeds, what was signed before stays, each place that was
/// free and is now taken holds the answer of an available signer for that
/// identity, and each identity for which a signer is available has its
/// signature: exactly the identities without a signer stay open.
pub proof fn law_signing_covers_available_signers(
    signers: Seq<Identity>,
    start: Seq<Option<Signature>>,
    bytes: Seq<u8>,
    available: Seq<Signer>,
)
    requires
        signers.no_duplicates(),
        start.len() == signers.len(),
        signed_by(signers, start, bytes, available) is Ok,
    ensures
        signed_by(signers, start, bytes, available)->Ok_0.len() == start.len(),
        forall|i: int|
            0 <= i < start.len() && (#[trigger] start[i]) is Some ==> signed_by(
                signers,
                start,
                bytes,
                available,
            )->Ok_0[i] == start[i],
        forall|i: int|
            0 <= i < start.len() && start[i] is None && (#[trigger] signed_by(
                signers,
                start,
                bytes,
                available,
            )->Ok_0[i]) is Some ==> signs_for(
                available,
                bytes,
                signers[i],
                signed_by(signers, start, bytes, available)->Ok_0[i]->0,
            ),
        forall|i: int|
            0 <= i < start.len() && has_signer(available, #[trigger] signers[i]) ==> signed_by(
                signers,
                start,
                bytes,
                available,
            )->Ok_0[i] is Some,
    decreases available.len(),
{
    let after = signed_by(signers, start, bytes, available)->Ok_0;
    if available.len() == 0 {
    } else {
        let front = available.drop_last();
        let last = available.last();
        let before = signed_by(signers, start, bytes, front)->Ok_0;
        law_signing_covers_available_signers(signers, start, bytes, front);
        let signature = last.answer(bytes)->Ok_0;
        let identity = last.spec_identity();
        assert(recorded(signers, before, identity, signature) == Ok::<
            Seq<Option<Signature>>,
            Error,
        >(after));
        assert(available[available.len() - 1] == last);
        assert forall|i: int|
            0 <= i < start.len() && start[i] is None && (#[trigger] after[i]) is Some implies signs_for(
            available,
            bytes,
            signers[i],
            after[i]->0,
        ) by {
            if before[i] is Some {
                assert(after[i] == before[i]);
                let k = choose|k: int|
                    0 <= k < front.len() && (#[trigger] front[k]).spec_identity() == signers[i]
                        && front[k].answer(bytes) == Ok::<Signature, Error>(before[i]->0);
                assert(available[k] == front[k]);
            } else {
                assert(signers.contains(identity));
                assert(signers.index_of(identity) == i);
            }
        }
        assert forall|i: int|
            0 <= i < start.len() && has_signer(available, #[trigger] signers[i]) implies after[i] is Some by {
            let k = choose|k: int|
                0 <= k < available.len() && (#[trigger] available[k]).spec_identity() == signers[i];
            if k < front.len() {
                assert(front[k] == available[k]);
                assert(has_signer(front, signers[i]));
                assert(before[i] is Some);
            } else {
                assert(identity == signers[i]);
                assert(signers.contains(identity));
                assert(signers.index_of(identity) == i);
            }
        }
    }
}

} // verus!
