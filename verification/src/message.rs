//! The unsigned message: instructions, fee payer, replay token, and the ordered
//! list of identities that must sign it.

use crate::framing::{instruction_fits, message_fits};
use crate::types::{bytes_equal, Identity, Token};
use crate::wire::{append_bytes, append_identities, append_instructions, append_length, message_bytes};
use vstd::prelude::*;

verus! {

/// An account that an instruction refers to, and in which role.
#[derive(Debug, Clone, Copy, PartialEq, Eq)]
pub struct AccountRef {
    pub identity: Identity,
    pub signer: bool,
    pub writable: bool,
}

/// One instruction; its data is opaque here.
#[derive(Debug, Clone, PartialEq, Eq)]
pub struct Instruction {
    pub program: Identity,
    pub accounts: Vec<AccountRef>,
    pub data: Vec<u8>,
}

/// An instruction as a mathematical value.
pub struct InstructionView {
    pub program: Identity,
    pub accounts: Seq<AccountRef>,
    pub data: Seq<u8>,
}

impl View for Instruction {
    type V = InstructionView;

    open spec fn view(&self) -> InstructionView {
        InstructionView { program: self.program, accounts: self.accounts@, data: self.data@ }
    }
}

/// The views of a list of instructions, in order.
pub open spec fn instruction_views(instructions: Seq<Instruction>) -> Seq<InstructionView> {
    Seq::new(instructions.len(), |i: int| instructions[i]@)
}

/// A durable nonce account as a transaction refers to it: the account, the
/// identity that may advance it, and the program that owns it.
#[derive(Debug, Clone, Copy, PartialEq, Eq)]
pub struct NonceRef {
    pub account: Identity,
    pub authority: Identity,
    pub program: Identity,
}

/// The first byte of the data of an advance instruction; three zero bytes follow.
pub const ADVANCE_TAG: u8 = 4;

/// The instruction that advances the nonce account `nonce`: the account,
/// writable, then its authority, signing.
pub open spec fn advance_instruction_view(nonce: NonceRef) -> InstructionView {
    InstructionView {
        program: nonce.program,
        accounts: seq![
            AccountRef { identity: nonce.account, signer: false, writable: true },
            AccountRef { identity: nonce.authority, signer: true, writable: false },
        ],
        data: seq![ADVANCE_TAG, 0u8, 0u8, 0u8],
    }
}

/// Builds the instruction that advances `nonce`.
pub fn advance_instruction(nonce: &NonceRef) -> (r: Instruction)
    ensures
        r@ == advance_instruction_view(*nonce),
{
    let mut accounts: Vec<AccountRef> = Vec::new();
    accounts.push(AccountRef { identity: nonce.account, signer: false, writable: true });
    accounts.push(AccountRef { identity: nonce.authority, signer: true, writable: false });
    let mut data: Vec<u8> = Vec::new();
    data.push(ADVANCE_TAG);
    data.push(0u8);
    data.push(0u8);
    data.push(0u8);
    let r = Instruction { program: nonce.program, accounts, data };
    assert(r@.accounts =~= advance_instruction_view(*nonce).accounts);
    assert(r@.data =~= advance_instruction_view(*nonce).data);
    r
}

/// `known`, with `identity` added at the end unless it is there already.
pub open spec fn with_identity(known: Seq<Identity>, identity: Identity) -> Seq<Identity> {
    if known.contains(identity) {
        known
    } else {
        known.push(identity)
    }
}

/// `known`, extended by the signing parties among `accounts`, in order, each
/// once.
pub open spec fn with_signing_accounts(known: Seq<Identity>, accounts: Seq<AccountRef>) -> Seq<
    Identity,
>
    decreases accounts.len(),
{
    if accounts.len() == 0 {
        known
    } else {
        let before = with_signing_accounts(known, accounts.drop_last());
        if accounts.last().signer {
            with_identity(before, accounts.last().identity)
        } else {
            before
        }
    }
}

/// `known`, extended by the signing parties of `instructions`, in order, each
/// once.
pub open spec fn with_signing_parties(
    known: Seq<Identity>,
    instructions: Seq<InstructionView>,
) -> Seq<Identity>
    decreases instructions.len(),
{
    if instructions.len() == 0 {
        known
    } else {
        with_signing_accounts(
            with_signing_parties(known, instructions.drop_last()),
            instructions.last().accounts,
        )
    }
}

/// The identities that must sign: the fee payer first, then every signing
/// party of every instruction in the order of first mention, none twice.
pub open spec fn required_signers(
    fee_payer: Identity,
    instructions: Seq<InstructionView>,
) -> Seq<Identity> {
    with_signing_parties(seq![fee_payer], instructions)
}

/// A message as a mathematical value.
pub struct MessageView {
    pub fee_payer: Identity,
    pub token: Token,
    pub instructions: Seq<InstructionView>,
    pub signers: Seq<Identity>,
}

/// The instructions of a message: those given, behind the advance instruction
/// where a nonce account backs the token.
pub open spec fn message_instructions(
    instructions: Seq<InstructionView>,
    advance: Option<NonceRef>,
) -> Seq<InstructionView> {
    match advance {
        Some(nonce) => seq![advance_instruction_view(nonce)] + instructions,
        None => instructions,
    }
}

/// The message that `instructions`, `fee_payer`, `token` and `advance` determine.
pub open spec fn built_message(
    instructions: Seq<InstructionView>,
    fee_payer: Identity,
    token: Token,
    advance: Option<NonceRef>,
) -> MessageView {
    let all = message_instructions(instructions, advance);
    MessageView { fee_payer, token, instructions: all, signers: required_signers(fee_payer, all) }
}

/// Whether some account among `accounts` signs as `identity`.
pub open spec fn signs_among(accounts: Seq<AccountRef>, identity: Identity) -> bool {
    exists|j: int|
        0 <= j < accounts.len() && (#[trigger] accounts[j]).signer && accounts[j].identity
            == identity
}

/// Whether some instruction among `instructions` names `identity` as a signing
/// party.
pub open spec fn is_signing_party(
    instructions: Seq<InstructionView>,
    identity: Identity,
) -> bool {
    exists|i: int|
        0 <= i < instructions.len() && signs_among((#[trigger] instructions[i]).accounts, identity)
}

/// Adding the signing parties of some accounts keeps what was known in front,
/// repeats nothing, and adds exactly the identities that sign.
pub proof fn lemma_with_signing_accounts(known: Seq<Identity>, accounts: Seq<AccountRef>)
    requires
        known.no_duplicates(),
    ensures
        with_signing_accounts(known, accounts).no_duplicates(),
        known.is_prefix_of(with_signing_accounts(known, accounts)),
        forall|id: Identity|
            with_signing_accounts(known, accounts).contains(id) <==> (known.contains(id)
                || signs_among(accounts, id)),
    decreases accounts.len(),
{
    let r = with_signing_accounts(known, accounts);
    if accounts.len() == 0 {
        assert forall|id: Identity| r.contains(id) <==> (known.contains(id) || signs_among(
            accounts,
            id,
        )) by {}
    } else {
        let front = accounts.drop_last();
        let last = accounts.last();
        let before = with_signing_accounts(known, front);
        lemma_with_signing_accounts(known, front);
        assert forall|id: Identity| r.contains(id) <==> (known.contains(id) || signs_among(
            accounts,
            id,
        )) by {
            if signs_among(front, id) {
                let j = choose|j: int|
                    0 <= j < front.len() && (#[trigger] front[j]).signer && front[j].identity
                        == id;
                assert(accounts[j] == front[j]);
            }
            if signs_among(accounts, id) {
                let j = choose|j: int|
                    0 <= j < accounts.len() && (#[trigger] accounts[j]).signer
                        && accounts[j].identity == id;
                if j < front.len() {
                    assert(front[j] == accounts[j]);
                    assert(signs_among(front, id));
                }
            }
            if last.signer {
                assert(accounts[accounts.len() - 1] == last);
                if !before.contains(last.identity) {
                    assert(r == before.push(last.identity));
                    assert(r[before.len() as int] == last.identity);
                    if before.contains(id) {
                        let k = choose|k: int| 0 <= k < before.len() && before[k] == id;
                        assert(r[k] == id);
                    }
                    if r.contains(id) {
                        let k = choose|k: int| 0 <= k < r.len() && r[k] == id;
                        if k < before.len() {
                            assert(before[k] == id);
                        }
                    }
                }
            }
        }
    }
}

/// Adding the signing parties of some instructions keeps what was known in
/// front, repeats nothing, and adds exactly the identities that sign.
pub proof fn lemma_with_signing_parties(known: Seq<Identity>, instructions: Seq<InstructionView>)
    requires
        known.no_duplicates(),
    ensures
        with_signing_parties(known, instructions).no_duplicates(),
        known.is_prefix_of(with_signing_parties(known, instructions)),
        forall|id: Identity|
            with_signing_parties(known, instructions).contains(id) <==> (known.contains(id)
                || is_signing_party(instructions, id)),
    decreases instructions.len(),
{
    let r = with_signing_parties(known, instructions);
    if instructions.len() == 0 {
        assert forall|id: Identity| r.contains(id) <==> (known.contains(id) || is_signing_party(
            instructions,
            id,
        )) by {}
    } else {
        let front = instructions.drop_last();
        let last = instructions.last();
        let before = with_signing_parties(known, front);
        lemma_with_signing_parties(known, front);
        lemma_with_signing_accounts(before, last.accounts);
        assert forall|id: Identity| r.contains(id) <==> (known.contains(id) || is_signing_party(
            instructions,
            id,
        )) by {
            if is_signing_party(front, id) {
                let i = choose|i: int|
                    0 <= i < front.len() && signs_among((#[trigger] front[i]).accounts, id);
                assert(instructions[i] == front[i]);
            }
            if signs_among(last.accounts, id) {
                assert(instructions[instructions.len() - 1] == last);
            }
            if is_signing_party(instructions, id) {
                let i = choose|i: int|
                    0 <= i < instructions.len() && signs_among(
                        (#[trigger] instructions[i]).accounts,
                        id,
                    );
                if i < front.len() {
                    assert(front[i] == instructions[i]);
                    assert(is_signing_party(front, id));
                }
            }
        }
    }
}

/// The required signers are the fee payer, first, and the signing parties of
/// the instructions, none of them twice.
pub proof fn lemma_required_signers(fee_payer: Identity, instructions: Seq<InstructionView>)
    ensures
        required_signers(fee_payer, instructions).no_duplicates(),
        required_signers(fee_payer, instructions).len() >= 1,
        required_signers(fee_payer, instructions)[0] == fee_payer,
        forall|id: Identity|
            required_signers(fee_payer, instructions).contains(id) <==> (id == fee_payer
                || is_signing_party(instructions, id)),
{
    let known = seq![fee_payer];
    lemma_with_signing_parties(known, instructions);
    let r = required_signers(fee_payer, instructions);
    assert(known[0] == fee_payer);
    assert(r[0] == known[0]);
    assert forall|id: Identity| known.contains(id) <==> id == fee_payer by {
        if known.contains(id) {
            let k = choose|k: int| 0 <= k < known.len() && known[k] == id;
        }
    }
}

/// A longer list of instructions only adds signers behind those of a shorter
/// one: signers stand in the order in which they are first named.
pub proof fn lemma_signers_in_order_of_mention(
    fee_payer: Identity,
    instructions: Seq<InstructionView>,
    count: int,
)
    requires
        0 <= count <= instructions.len(),
    ensures
        required_signers(fee_payer, instructions.take(count)).is_prefix_of(
            required_signers(fee_payer, instructions),
        ),
    decreases instructions.len() - count,
{
    if count == instructions.len() {
        assert(instructions.take(count) =~= instructions);
    } else {
        let front = instructions.drop_last();
        lemma_required_signers(fee_payer, front);
        lemma_with_signing_accounts(required_signers(fee_payer, front), instructions.last().accounts);
        if count < front.len() {
            lemma_signers_in_order_of_mention(fee_payer, front, count);
        }
        assert(front.take(count) =~= instructions.take(count));
    }
}

/// Adds `identity` to `known` unless it is there already.
fn push_unique(known: &mut Vec<Identity>, identity: Identity)
    ensures
        final(known)@ == with_identity(old(known)@, identity),
{
    let mut i: usize = 0;
    while i < known.len()
        invariant
            i <= known@.len(),
            known@ == old(known)@,
            forall|k: int| 0 <= k < i ==> known@[k] != identity,
        decreases known@.len() - i,
    {
        if known[i] == identity {
            assert(known@.contains(identity));
            return ;
        }
        i += 1;
    }
    known.push(identity);
}

/// Adds the signing parties among `accounts` to `known`.
fn push_signing_accounts(known: &mut Vec<Identity>, accounts: &Vec<AccountRef>)
    ensures
        final(known)@ == with_signing_accounts(old(known)@, accounts@),
{
    let mut i: usize = 0;
    while i < accounts.len()
        invariant
            i <= accounts@.len(),
            known@ == with_signing_accounts(old(known)@, accounts@.take(i as int)),
        decreases accounts@.len() - i,
    {
        assert(accounts@.take(i + 1).drop_last() =~= accounts@.take(i as int));
        if accounts[i].signer {
            push_unique(known, accounts[i].identity);
        }
        i += 1;
    }
    assert(accounts@.take(i as int) =~= accounts@);
}

/// A copy of `identities`.
pub fn copy_identities(identities: &Vec<Identity>) -> (r: Vec<Identity>)
    ensures
        r@ == identities@,
{
    let mut r: Vec<Identity> = Vec::new();
    let mut i: usize = 0;
    while i < identities.len()
        invariant
            i <= identities@.len(),
            r@ == identities@.take(i as int),
        decreases identities@.len() - i,
    {
        r.push(identities[i]);
        i += 1;
        assert(r@ =~= identities@.take(i as int));
    }
    assert(identities@.take(i as int) =~= identities@);
    r
}

/// Whether two lists hold the same identities in the same order.
pub fn identities_equal(a: &Vec<Identity>, b: &Vec<Identity>) -> (r: bool)
    ensures
        r == (a@ == b@),
{
    if a.len() != b.len() {
        return false;
    }
    let mut i: usize = 0;
    while i < a.len()
        invariant
            a@.len() == b@.len(),
            i <= a@.len(),
            forall|k: int| 0 <= k < i ==> a@[k] == b@[k],
        decreases a@.len() - i,
    {
        if a[i] != b[i] {
            return false;
        }
        i += 1;
    }
    assert(a@ =~= b@);
    true
}

/// Whether two lists hold the same account references in the same order.
pub fn accounts_equal(a: &Vec<AccountRef>, b: &Vec<AccountRef>) -> (r: bool)
    ensures
        r == (a@ == b@),
{
    if a.len() != b.len() {
        return false;
    }
    let mut i: usize = 0;
    while i < a.len()
        invariant
            a@.len() == b@.len(),
            i <= a@.len(),
            forall|k: int| 0 <= k < i ==> a@[k] == b@[k],
        decreases a@.len() - i,
    {
        if a[i].identity != b[i].identity || a[i].signer != b[i].signer || a[i].writable
            != b[i].writable {
            return false;
        }
        i += 1;
    }
    assert(a@ =~= b@);
    true
}

/// Whether two instructions are the same.
pub fn instruction_equal(a: &Instruction, b: &Instruction) -> (r: bool)
    ensures
        r == (a@ == b@),
{
    a.program == b.program && accounts_equal(&a.accounts, &b.accounts) && bytes_equal(
        a.data.as_slice(),
        b.data.as_slice(),
    )
}

/// Whether two lists hold the same instructions in the same order.
pub fn instructions_equal(a: &Vec<Instruction>, b: &Vec<Instruction>) -> (r: bool)
    ensures
        r == (instruction_views(a@) == instruction_views(b@)),
{
    let ghost va = instruction_views(a@);
    let ghost vb = instruction_views(b@);
    if a.len() != b.len() {
        assert(va.len() != vb.len());
        return false;
    }
    let mut i: usize = 0;
    while i < a.len()
        invariant
            a@.len() == b@.len(),
            i <= a@.len(),
            va == instruction_views(a@),
            vb == instruction_views(b@),
            forall|k: int| 0 <= k < i ==> va[k] == vb[k],
        decreases a@.len() - i,
    {
        if !instruction_equal(&a[i], &b[i]) {
            assert(va[i as int] != vb[i as int]);
            return false;
        }
        i += 1;
    }
    assert(va =~= vb);
    true
}

/// An unsigned message. Its list of signers is always the one that its fee
/// payer and instructions determine.
#[derive(Debug, PartialEq, Eq)]
pub struct Message {
    fee_payer: Identity,
    token: Token,
    instructions: Vec<Instruction>,
    signers: Vec<Identity>,
}

impl View for Message {
    type V = MessageView;

    closed spec fn view(&self) -> MessageView {
        MessageView {
            fee_payer: self.fee_payer,
            token: self.token,
            instructions: instruction_views(self.instructions@),
            signers: self.signers@,
        }
    }
}

impl MessageView {
    /// Whether the list of signers is the one that the fee payer and the
    /// instructions determine.
    pub open spec fn well_formed(self) -> bool {
        self.signers == required_signers(self.fee_payer, self.instructions)
    }
}

impl Message {
    #[verifier::type_invariant]
    spec fn consistent(self) -> bool {
        self@.well_formed()
    }

    /// The identity that pays for the transaction.
    pub fn fee_payer(&self) -> (r: Identity)
        ensures
            r == self@.fee_payer,
    {
        self.fee_payer
    }

    /// The replay token that the message embeds.
    pub fn token(&self) -> (r: Token)
        ensures
            r == self@.token,
    {
        self.token
    }

    /// The instructions, in order.
    pub fn instructions(&self) -> (r: &Vec<Instruction>)
        ensures
            instruction_views(r@) == self@.instructions,
    {
        &self.instructions
    }

    /// The lists of a message in memory are short enough for their lengths to
    /// be written in eight bytes.
    pub proof fn lemma_fits(&self)
        ensures
            message_fits(self@),
    {
        assert(self.signers.len() == self.signers@.len());
        assert(self.instructions.len() == self.instructions@.len());
        assert forall|k: int| 0 <= k < self@.instructions.len() implies instruction_fits(
            #[trigger] self@.instructions[k],
        ) by {
            let instruction = self.instructions@[k];
            assert(self@.instructions[k] == instruction@);
            assert(instruction.accounts.len() == instruction.accounts@.len());
            assert(instruction.data.len() == instruction.data@.len());
        }
    }

    /// Whether `other` is the same message.
    pub fn same(&self, other: &Message) -> (r: bool)
        ensures
            r == (self@ == other@),
    {
        self.fee_payer == other.fee_payer && self.token == other.token && instructions_equal(
            &self.instructions,
            &other.instructions,
        ) && identities_equal(&self.signers, &other.signers)
    }

    /// The bytes that every party signs.
    pub fn to_bytes(&self) -> (r: Vec<u8>)
        ensures
            r@ == message_bytes(self@),
    {
        let mut out: Vec<u8> = Vec::new();
        append_bytes(&mut out, self.token.bytes.as_slice());
        append_bytes(&mut out, self.fee_payer.bytes.as_slice());
        append_length(&mut out, self.signers.len());
        append_identities(&mut out, &self.signers);
        append_length(&mut out, self.instructions.len());
        append_instructions(&mut out, &self.instructions);
        assert(out@ =~= message_bytes(self@));
        out
    }

    /// The identities that must sign, the fee payer first.
    pub fn signers(&self) -> (r: &Vec<Identity>)
        ensures
            r@ == self@.signers,
            self@.well_formed(),
    {
        proof {
            use_type_invariant(self);
        }
        &self.signers
    }
}

/// Assembles a message and the ordered list of identities that must sign it.
/// Where `advance` names a nonce account, the instruction that advances it
/// comes first. The result depends on the arguments alone.
pub fn build(
    instructions: Vec<Instruction>,
    fee_payer: Identity,
    token: Token,
    advance: Option<NonceRef>,
) -> (r: (Message, Vec<Identity>))
    ensures
        r.0@ == built_message(instruction_views(instructions@), fee_payer, token, advance),
        r.1@ == r.0@.signers,
{
    let ghost given = instruction_views(instructions@);
    let mut all = instructions;
    match advance {
        Some(nonce) => {
            let first = advance_instruction(&nonce);
            all.insert(0, first);
        },
        None => {},
    }
    let ghost views = instruction_views(all@);
    assert(views =~= message_instructions(given, advance));
    let mut signers: Vec<Identity> = Vec::new();
    signers.push(fee_payer);
    assert(signers@ =~= seq![fee_payer]);
    let mut i: usize = 0;
    while i < all.len()
        invariant
            i <= all@.len(),
            views == instruction_views(all@),
            signers@ == with_signing_parties(seq![fee_payer], views.take(i as int)),
        decreases all@.len() - i,
    {
        assert(views.take(i + 1).drop_last() =~= views.take(i as int));
        push_signing_accounts(&mut signers, &all[i].accounts);
        i += 1;
    }
    assert(views.take(i as int) =~= views);
    let listed = copy_identities(&signers);
    (Message { fee_payer, token, instructions: all, signers }, listed)
}

} // verus!
