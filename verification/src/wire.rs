//! The byte form of a message. Every party signs these bytes, so they are a
//! function of the message alone: the token, the fee payer, the signers and the
//! instructions, each list behind its length as eight little-endian bytes.

use crate::message::{AccountRef, Instruction, InstructionView, MessageView, instruction_views};
use crate::types::{Identity, Signature};
use vstd::bytes::{spec_u64_to_le_bytes, u64_to_le_bytes};
use vstd::prelude::*;

verus! {

/// A length as eight little-endian bytes.
pub open spec fn length_bytes(n: nat) -> Seq<u8> {
    spec_u64_to_le_bytes(n as u64)
}

/// The roles of an account in one byte: 1 for a signer, 2 for writable.
pub open spec fn role_byte(account: AccountRef) -> u8 {
    if account.signer {
        if account.writable {
            3
        } else {
            1
        }
    } else {
        if account.writable {
            2
        } else {
            0
        }
    }
}

/// An account reference: its identity, then its roles.
pub open spec fn account_bytes(account: AccountRef) -> Seq<u8> {
    account.identity.bytes@.push(role_byte(account))
}

/// Account references, one after the other.
pub open spec fn accounts_bytes(accounts: Seq<AccountRef>) -> Seq<u8>
    decreases accounts.len(),
{
    if accounts.len() == 0 {
        Seq::empty()
    } else {
        accounts_bytes(accounts.drop_last()) + account_bytes(accounts.last())
    }
}

/// Identities, one after the other.
pub open spec fn identities_bytes(identities: Seq<Identity>) -> Seq<u8>
    decreases identities.len(),
{
    if identities.len() == 0 {
        Seq::empty()
    } else {
        identities_bytes(identities.drop_last()) + identities.last().bytes@
    }
}

/// An instruction: its program, its accounts, its data.
pub open spec fn instruction_bytes(instruction: InstructionView) -> Seq<u8> {
    instruction.program.bytes@ + length_bytes(instruction.accounts.len()) + accounts_bytes(
        instruction.accounts,
    ) + length_bytes(instruction.data.len()) + instruction.data
}

/// Instructions, one after the other.
pub open spec fn instructions_bytes(instructions: Seq<InstructionView>) -> Seq<u8>
    decreases instructions.len(),
{
    if instructions.len() == 0 {
        Seq::empty()
    } else {
        instructions_bytes(instructions.drop_last()) + instruction_bytes(instructions.last())
    }
}

/// The bytes of a message.
pub open spec fn message_bytes(message: MessageView) -> Seq<u8> {
    message.token.bytes@ + message.fee_payer.bytes@ + length_bytes(message.signers.len())
        + identities_bytes(message.signers) + length_bytes(message.instructions.len())
        + instructions_bytes(message.instructions)
}

/// Signatures, one after the other.
pub open spec fn signatures_bytes(signatures: Seq<Signature>) -> Seq<u8>
    decreases signatures.len(),
{
    if signatures.len() == 0 {
        Seq::empty()
    } else {
        signatures_bytes(signatures.drop_last()) + signatures.last().bytes@
    }
}

/// The bytes of a signed transaction: the signatures behind their number, then
/// the message.
pub open spec fn transaction_bytes(signatures: Seq<Signature>, message: MessageView) -> Seq<u8> {
    length_bytes(signatures.len()) + signatures_bytes(signatures) + message_bytes(message)
}

/// Appends `bytes` to `out`.
pub fn append_bytes(out: &mut Vec<u8>, bytes: &[u8])
    ensures
        final(out)@ == old(out)@ + bytes@,
{
    out.extend_from_slice(bytes);
    assert(out@ =~= old(out)@ + bytes@);
}

/// Appends a length to `out`.
pub fn append_length(out: &mut Vec<u8>, n: usize)
    ensures
        final(out)@ == old(out)@ + length_bytes(n as nat),
{
    let bytes = u64_to_le_bytes(n as u64);
    append_bytes(out, bytes.as_slice());
}

/// Appends account references to `out`.
pub fn append_accounts(out: &mut Vec<u8>, accounts: &Vec<AccountRef>)
    ensures
        final(out)@ == old(out)@ + accounts_bytes(accounts@),
{
    let mut i: usize = 0;
    assert(out@ =~= old(out)@ + accounts_bytes(accounts@.take(0)));
    while i < accounts.len()
        invariant
            i <= accounts@.len(),
            out@ == old(out)@ + accounts_bytes(accounts@.take(i as int)),
        decreases accounts@.len() - i,
    {
        let account = accounts[i];
        let role: u8 = if account.signer {
            if account.writable {
                3
            } else {
                1
            }
        } else {
            if account.writable {
                2
            } else {
                0
            }
        };
        let ghost before = out@;
        append_bytes(out, account.identity.bytes.as_slice());
        out.push(role);
        assert(accounts@.take(i + 1).drop_last() =~= accounts@.take(i as int));
        assert(out@ =~= before + account_bytes(account));
        assert(out@ =~= old(out)@ + accounts_bytes(accounts@.take(i + 1)));
        i += 1;
    }
    assert(accounts@.take(i as int) =~= accounts@);
}

/// Appends identities to `out`.
pub fn append_identities(out: &mut Vec<u8>, identities: &Vec<Identity>)
    ensures
        final(out)@ == old(out)@ + identities_bytes(identities@),
{
    let mut i: usize = 0;
    assert(out@ =~= old(out)@ + identities_bytes(identities@.take(0)));
    while i < identities.len()
        invariant
            i <= identities@.len(),
            out@ == old(out)@ + identities_bytes(identities@.take(i as int)),
        decreases identities@.len() - i,
    {
        append_bytes(out, identities[i].bytes.as_slice());
        assert(identities@.take(i + 1).drop_last() =~= identities@.take(i as int));
        assert(out@ =~= old(out)@ + identities_bytes(identities@.take(i + 1)));
        i += 1;
    }
    assert(identities@.take(i as int) =~= identities@);
}

/// Appends signatures to `out`.
pub fn append_signatures(out: &mut Vec<u8>, signatures: &Vec<Signature>)
    ensures
        final(out)@ == old(out)@ + signatures_bytes(signatures@),
{
    let mut i: usize = 0;
    assert(out@ =~= old(out)@ + signatures_bytes(signatures@.take(0)));
    while i < signatures.len()
        invariant
            i <= signatures@.len(),
            out@ == old(out)@ + signatures_bytes(signatures@.take(i as int)),
        decreases signatures@.len() - i,
    {
        append_bytes(out, signatures[i].bytes.as_slice());
        assert(signatures@.take(i + 1).drop_last() =~= signatures@.take(i as int));
        assert(out@ =~= old(out)@ + signatures_bytes(signatures@.take(i + 1)));
        i += 1;
    }
    assert(signatures@.take(i as int) =~= signatures@);
}

/// Appends one instruction to `out`.
pub fn append_instruction(out: &mut Vec<u8>, instruction: &Instruction)
    ensures
        final(out)@ == old(out)@ + instruction_bytes(instruction@),
{
    append_bytes(out, instruction.program.bytes.as_slice());
    append_length(out, instruction.accounts.len());
    append_accounts(out, &instruction.accounts);
    append_length(out, instruction.data.len());
    append_bytes(out, instruction.data.as_slice());
    assert(out@ =~= old(out)@ + instruction_bytes(instruction@));
}

/// Appends instructions to `out`.
pub fn append_instructions(out: &mut Vec<u8>, instructions: &Vec<Instruction>)
    ensures
        final(out)@ == old(out)@ + instructions_bytes(instruction_views(instructions@)),
{
    let ghost views = instruction_views(instructions@);
    let mut i: usize = 0;
    assert(out@ =~= old(out)@ + instructions_bytes(views.take(0)));
    while i < instructions.len()
        invariant
            i <= instructions@.len(),
            views == instruction_views(instructions@),
            out@ == old(out)@ + instructions_bytes(views.take(i as int)),
        decreases instructions@.len() - i,
    {
        append_instruction(out, &instructions[i]);
        assert(views.take(i + 1).drop_last() =~= views.take(i as int));
        assert(out@ =~= old(out)@ + instructions_bytes(views.take(i + 1)));
        i += 1;
    }
    assert(views.take(i as int) =~= views);
}

} // verus!
