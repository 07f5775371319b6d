//! The byte form of a message can be read back in one way only: two messages
//! with the same bytes are the same message.

use crate::message::{AccountRef, InstructionView, MessageView};
use crate::types::Identity;
use crate::wire::{
    account_bytes, accounts_bytes, identities_bytes, instruction_bytes, instructions_bytes,
    length_bytes, message_bytes, role_byte,
};
use vstd::bytes::lemma_auto_spec_u64_to_from_le_bytes;
use vstd::prelude::*;

verus! {

/// Whether the lists of an instruction are short enough for their lengths to be
/// written in eight bytes.
pub open spec fn instruction_fits(instruction: InstructionView) -> bool {
    instruction.accounts.len() <= u64::MAX && instruction.data.len() <= u64::MAX
}

/// Whether each of `instructions` fits.
pub open spec fn instructions_fit(instructions: Seq<InstructionView>) -> bool {
    forall|k: int| 0 <= k < instructions.len() ==> instruction_fits(#[trigger] instructions[k])
}

/// Whether the lists of a message are short enough for their lengths to be
/// written in eight bytes. The lists of a message in memory always are.
pub open spec fn message_fits(message: MessageView) -> bool {
    message.signers.len() <= u64::MAX && message.instructions.len() <= u64::MAX
        && instructions_fit(message.instructions)
}

/// Two byte strings that begin with parts of one length and are equal as a
/// whole are equal part by part.
pub proof fn lemma_split(a1: Seq<u8>, b1: Seq<u8>, a2: Seq<u8>, b2: Seq<u8>)
    requires
        a1 + b1 == a2 + b2,
        a1.len() == a2.len(),
    ensures
        a1 == a2,
        b1 == b2,
{
    let whole = a1 + b1;
    let n = a1.len() as int;
    assert(a1 =~= whole.subrange(0, n));
    assert(a2 =~= (a2 + b2).subrange(0, n));
    assert(b1 =~= whole.subrange(n, whole.len() as int));
    assert(b2 =~= (a2 + b2).subrange(n, whole.len() as int));
}

/// A length is written in eight bytes, and two lengths written alike are the
/// same length.
pub proof fn lemma_length_bytes(n: nat, m: nat)
    requires
        n <= u64::MAX,
        m <= u64::MAX,
    ensures
        length_bytes(n).len() == 8,
        length_bytes(n) == length_bytes(m) ==> n == m,
{
    lemma_auto_spec_u64_to_from_le_bytes();
}

/// An identity is determined by its bytes, of which there are 32.
pub proof fn lemma_identity_bytes(a: Identity, b: Identity)
    ensures
        a.bytes@.len() == 32,
        a.bytes@ == b.bytes@ ==> a == b,
{
    broadcast use vstd::array::axiom_array_ext_equal;
    broadcast use vstd::array::array_len_matches_n;

    if a.bytes@ == b.bytes@ {
        assert(a.bytes =~= b.bytes);
    }
}

/// Identities take 32 bytes each.
pub proof fn lemma_identities_length(identities: Seq<Identity>)
    ensures
        identities_bytes(identities).len() == 32 * identities.len(),
    decreases identities.len(),
{
    if identities.len() > 0 {
        lemma_identities_length(identities.drop_last());
        lemma_identity_bytes(identities.last(), identities.last());
    }
}

/// As many identities with the same bytes are the same identities.
pub proof fn lemma_identities_determined(first: Seq<Identity>, second: Seq<Identity>)
    requires
        first.len() == second.len(),
        identities_bytes(first) == identities_bytes(second),
    ensures
        first == second,
    decreases first.len(),
{
    if first.len() == 0 {
        assert(first =~= second);
    } else {
        lemma_identities_length(first.drop_last());
        lemma_identities_length(second.drop_last());
        lemma_split(
            identities_bytes(first.drop_last()),
            first.last().bytes@,
            identities_bytes(second.drop_last()),
            second.last().bytes@,
        );
        lemma_identities_determined(first.drop_last(), second.drop_last());
        lemma_identity_bytes(first.last(), second.last());
        assert(first =~= first.drop_last().push(first.last()));
        assert(second =~= second.drop_last().push(second.last()));
    }
}

/// An account reference takes 33 bytes and is determined by them.
pub proof fn lemma_account_bytes(a: AccountRef, b: AccountRef)
    ensures
        account_bytes(a).len() == 33,
        account_bytes(a) == account_bytes(b) ==> a == b,
{
    lemma_identity_bytes(a.identity, b.identity);
    lemma_identity_bytes(b.identity, a.identity);
    if account_bytes(a) == account_bytes(b) {
        assert(a.identity.bytes@ =~= account_bytes(a).subrange(0, 32));
        assert(b.identity.bytes@ =~= account_bytes(b).subrange(0, 32));
        assert(account_bytes(a)[32] == role_byte(a));
        assert(account_bytes(b)[32] == role_byte(b));
    }
}

/// Account references take 33 bytes each.
pub proof fn lemma_accounts_length(accounts: Seq<AccountRef>)
    ensures
        accounts_bytes(accounts).len() == 33 * accounts.len(),
    decreases accounts.len(),
{
    if accounts.len() > 0 {
        lemma_accounts_length(accounts.drop_last());
        lemma_account_bytes(accounts.last(), accounts.last());
    }
}

/// As many account references with the same bytes are the same references.
pub proof fn lemma_accounts_determined(first: Seq<AccountRef>, second: Seq<AccountRef>)
    requires
        first.len() == second.len(),
        accounts_bytes(first) == accounts_bytes(second),
    ensures
        first == second,
    decreases first.len(),
{
    if first.len() == 0 {
        assert(first =~= second);
    } else {
        lemma_accounts_length(first.drop_last());
        lemma_accounts_length(second.drop_last());
        lemma_account_bytes(first.last(), second.last());
        lemma_account_bytes(second.last(), first.last());
        lemma_split(
            accounts_bytes(first.drop_last()),
            account_bytes(first.last()),
            accounts_bytes(second.drop_last()),
            account_bytes(second.last()),
        );
        lemma_accounts_determined(first.drop_last(), second.drop_last());
        assert(first =~= first.drop_last().push(first.last()));
        assert(second =~= second.drop_last().push(second.last()));
    }
}

/// An instruction can be read off the front of a byte string in one way only.
pub proof fn lemma_instruction_determined(
    first: InstructionView,
    first_rest: Seq<u8>,
    second: InstructionView,
    second_rest: Seq<u8>,
)
    requires
        instruction_fits(first),
        instruction_fits(second),
        instruction_bytes(first) + first_rest == instruction_bytes(second) + second_rest,
    ensures
        first == second,
        first_rest == second_rest,
{
    let g1 = first.program.bytes@;
    let g2 = second.program.bytes@;
    let la1 = length_bytes(first.accounts.len());
    let la2 = length_bytes(second.accounts.len());
    let a1 = accounts_bytes(first.accounts);
    let a2 = accounts_bytes(second.accounts);
    let ld1 = length_bytes(first.data.len());
    let ld2 = length_bytes(second.data.len());
    let d1 = first.data;
    let d2 = second.data;
    lemma_identity_bytes(first.program, second.program);
    lemma_identity_bytes(second.program, first.program);
    lemma_length_bytes(first.accounts.len(), second.accounts.len());
    lemma_length_bytes(second.accounts.len(), first.accounts.len());
    lemma_length_bytes(first.data.len(), second.data.len());
    lemma_length_bytes(second.data.len(), first.data.len());
    lemma_accounts_length(first.accounts);
    lemma_accounts_length(second.accounts);

    let t1 = la1 + (a1 + (ld1 + (d1 + first_rest)));
    let t2 = la2 + (a2 + (ld2 + (d2 + second_rest)));
    assert(instruction_bytes(first) + first_rest =~= g1 + t1);
    assert(instruction_bytes(second) + second_rest =~= g2 + t2);
    lemma_split(g1, t1, g2, t2);
    lemma_split(la1, a1 + (ld1 + (d1 + first_rest)), la2, a2 + (ld2 + (d2 + second_rest)));
    lemma_split(a1, ld1 + (d1 + first_rest), a2, ld2 + (d2 + second_rest));
    lemma_accounts_determined(first.accounts, second.accounts);
    lemma_split(ld1, d1 + first_rest, ld2, d2 + second_rest);
    lemma_split(d1, first_rest, d2, second_rest);
}

/// The bytes of instructions begin with the bytes of the first of them.
pub proof fn lemma_instructions_front(instructions: Seq<InstructionView>)
    requires
        instructions.len() > 0,
    ensures
        instructions_bytes(instructions) == instruction_bytes(instructions[0])
            + instructions_bytes(instructions.drop_first()),
    decreases instructions.len(),
{
    let front = instructions.drop_last();
    let back = instructions.drop_first();
    if instructions.len() == 1 {
        assert(instructions_bytes(front) =~= Seq::<u8>::empty());
        assert(instructions_bytes(back) =~= Seq::<u8>::empty());
        assert(instructions.last() == instructions[0]);
        assert(instructions_bytes(instructions) =~= instruction_bytes(instructions[0])
            + instructions_bytes(back));
    } else {
        lemma_instructions_front(front);
        assert(front[0] == instructions[0]);
        assert(front.drop_first() =~= back.drop_last());
        assert(back.last() == instructions.last());
        assert(instructions_bytes(instructions) =~= instruction_bytes(instructions[0])
            + instructions_bytes(back));
    }
}

/// As many instructions can be read off the front of a byte string in one way
/// only.
pub proof fn lemma_instructions_determined(
    first: Seq<InstructionView>,
    first_rest: Seq<u8>,
    second: Seq<InstructionView>,
    second_rest: Seq<u8>,
)
    requires
        first.len() == second.len(),
        instructions_fit(first),
        instructions_fit(second),
        instructions_bytes(first) + first_rest == instructions_bytes(second) + second_rest,
    ensures
        first == second,
        first_rest == second_rest,
    decreases first.len(),
{
    if first.len() == 0 {
        assert(first =~= second);
        assert(instructions_bytes(first) + first_rest =~= first_rest);
        assert(instructions_bytes(second) + second_rest =~= second_rest);
    } else {
        lemma_instructions_front(first);
        lemma_instructions_front(second);
        let tail1 = instructions_bytes(first.drop_first()) + first_rest;
        let tail2 = instructions_bytes(second.drop_first()) + second_rest;
        assert(instructions_bytes(first) + first_rest =~= instruction_bytes(first[0]) + tail1);
        assert(instructions_bytes(second) + second_rest =~= instruction_bytes(second[0]) + tail2);
        lemma_instruction_determined(first[0], tail1, second[0], tail2);
        assert forall|k: int| 0 <= k < first.drop_first().len() implies instruction_fits(
            #[trigger] first.drop_first()[k],
        ) by {
            assert(first.drop_first()[k] == first[k + 1]);
        }
        assert forall|k: int| 0 <= k < second.drop_first().len() implies instruction_fits(
            #[trigger] second.drop_first()[k],
        ) by {
            assert(second.drop_first()[k] == second[k + 1]);
        }
        lemma_instructions_determined(
            first.drop_first(),
            first_rest,
            second.drop_first(),
            second_rest,
        );
        assert(first =~= seq![first[0]] + first.drop_first());
        assert(second =~= seq![second[0]] + second.drop_first());
    }
}

/// Two messages with the same bytes are the same message: whoever signs the
/// bytes signs the token, the fee payer, the signers and every instruction.
pub proof fn law_bytes_determine_message(first: MessageView, second: MessageView)
    requires
        message_fits(first),
        message_fits(second),
        message_bytes(first) == message_bytes(second),
    ensures
        first == second,
{
    broadcast use vstd::array::axiom_array_ext_equal;
    broadcast use vstd::array::array_len_matches_n;

    let t1 = first.token.bytes@;
    let t2 = second.token.bytes@;
    let f1 = first.fee_payer.bytes@;
    let f2 = second.fee_payer.bytes@;
    let ls1 = length_bytes(first.signers.len());
    let ls2 = length_bytes(second.signers.len());
    let s1 = identities_bytes(first.signers);
    let s2 = identities_bytes(second.signers);
    let li1 = length_bytes(first.instructions.len());
    let li2 = length_bytes(second.instructions.len());
    let i1 = instructions_bytes(first.instructions);
    let i2 = instructions_bytes(second.instructions);
    lemma_identity_bytes(first.fee_payer, second.fee_payer);
    lemma_identity_bytes(second.fee_payer, first.fee_payer);
    lemma_length_bytes(first.signers.len(), second.signers.len());
    lemma_length_bytes(second.signers.len(), first.signers.len());
    lemma_length_bytes(first.instructions.len(), second.instructions.len());
    lemma_length_bytes(second.instructions.len(), first.instructions.len());
    lemma_identities_length(first.signers);
    lemma_identities_length(second.signers);

    assert(message_bytes(first) =~= t1 + (f1 + (ls1 + (s1 + (li1 + i1)))));
    assert(message_bytes(second) =~= t2 + (f2 + (ls2 + (s2 + (li2 + i2)))));
    lemma_split(t1, f1 + (ls1 + (s1 + (li1 + i1))), t2, f2 + (ls2 + (s2 + (li2 + i2))));
    assert(first.token.bytes =~= second.token.bytes);
    lemma_split(f1, ls1 + (s1 + (li1 + i1)), f2, ls2 + (s2 + (li2 + i2)));
    lemma_split(ls1, s1 + (li1 + i1), ls2, s2 + (li2 + i2));
    lemma_split(s1, li1 + i1, s2, li2 + i2);
    lemma_identities_determined(first.signers, second.signers);
    lemma_split(li1, i1, li2, i2);
    assert(i1 + Seq::<u8>::empty() =~= i1);
    assert(i2 + Seq::<u8>::empty() =~= i2);
    lemma_instructions_determined(
        first.instructions,
        Seq::<u8>::empty(),
        second.instructions,
        Seq::<u8>::empty(),
    );
}

} // verus!
