use signing_core::message::{
    advance_instruction, build, AccountRef, Instruction, NonceRef, ADVANCE_TAG,
};
use signing_core::types::{Identity, Token};

fn id(n: u8) -> Identity {
    Identity { bytes: [n; 32] }
}

fn token(n: u8) -> Token {
    Token { bytes: [n; 32] }
}

fn account(n: u8, signer: bool, writable: bool) -> AccountRef {
    AccountRef { identity: id(n), signer, writable }
}

fn transfer(from: u8, to: u8, lamports: u64) -> Instruction {
    let mut data = vec![2, 0, 0, 0];
    data.extend_from_slice(&lamports.to_le_bytes());
    Instruction {
        program: id(0),
        accounts: vec![account(from, true, true), account(to, false, true)],
        data,
    }
}

#[test]
fn fee_payer_signs_first() {
    let (message, signers) = build(vec![transfer(7, 8, 10)], id(1), token(9), None);
    assert_eq!(signers, vec![id(1), id(7)]);
    assert_eq!(message.signers(), &signers);
    assert_eq!(message.fee_payer(), id(1));
    assert_eq!(message.token(), token(9));
    assert_eq!(message.instructions().len(), 1);
}

#[test]
fn signers_are_listed_once_in_order_of_first_mention() {
    let first = Instruction {
        program: id(0),
        accounts: vec![
            account(5, true, false),
            account(6, false, true),
            account(3, true, true),
            account(5, true, true),
        ],
        data: vec![],
    };
    let second = Instruction {
        program: id(0),
        accounts: vec![account(3, true, false), account(1, true, false), account(4, true, false)],
        data: vec![1],
    };
    let (_, signers) = build(vec![first, second], id(1), token(0), None);
    assert_eq!(signers, vec![id(1), id(5), id(3), id(4)]);
}

#[test]
fn a_message_without_instructions_is_signed_by_its_fee_payer() {
    let (message, signers) = build(vec![], id(1), token(0), None);
    assert_eq!(signers, vec![id(1)]);
    assert!(message.instructions().is_empty());
}

#[test]
fn advance_instruction_comes_first() {
    let nonce = NonceRef { account: id(20), authority: id(21), program: id(0) };
    let (message, signers) = build(vec![transfer(7, 8, 10)], id(1), token(9), Some(nonce));
    assert_eq!(message.instructions().len(), 2);
    assert_eq!(message.instructions()[0], advance_instruction(&nonce));
    assert_eq!(message.instructions()[1], transfer(7, 8, 10));
    assert_eq!(signers, vec![id(1), id(21), id(7)]);
}

#[test]
fn advance_instruction_names_account_then_authority() {
    let nonce = NonceRef { account: id(20), authority: id(21), program: id(3) };
    let instruction = advance_instruction(&nonce);
    assert_eq!(instruction.program, id(3));
    assert_eq!(
        instruction.accounts,
        vec![account(20, false, true), account(21, true, false)]
    );
    assert_eq!(instruction.data, vec![ADVANCE_TAG, 0, 0, 0]);
    assert_eq!(ADVANCE_TAG, 4);
}

#[test]
fn building_twice_gives_the_same_bytes() {
    let nonce = NonceRef { account: id(20), authority: id(1), program: id(0) };
    let (first, first_signers) =
        build(vec![transfer(1, 8, 10), transfer(2, 8, 5)], id(1), token(9), Some(nonce));
    let (second, second_signers) =
        build(vec![transfer(1, 8, 10), transfer(2, 8, 5)], id(1), token(9), Some(nonce));
    assert_eq!(first.to_bytes(), second.to_bytes());
    assert_eq!(first_signers, second_signers);
    assert!(first.same(&second));
    assert_eq!(first, second);
}

#[test]
fn different_inputs_give_different_messages() {
    let (base, _) = build(vec![transfer(1, 8, 10)], id(1), token(9), None);
    let (other_token, _) = build(vec![transfer(1, 8, 10)], id(1), token(8), None);
    let (other_amount, _) = build(vec![transfer(1, 8, 11)], id(1), token(9), None);
    let (other_payer, _) = build(vec![transfer(1, 8, 10)], id(2), token(9), None);
    assert!(!base.same(&other_token));
    assert!(!base.same(&other_amount));
    assert!(!base.same(&other_payer));
    assert_ne!(base.to_bytes(), other_token.to_bytes());
    assert_ne!(base.to_bytes(), other_amount.to_bytes());
    assert_ne!(base.to_bytes(), other_payer.to_bytes());
}

#[test]
fn message_bytes_are_laid_out_field_by_field() {
    let instruction = Instruction {
        program: id(3),
        accounts: vec![account(7, true, true), account(8, false, true), account(9, true, false)],
        data: vec![0xaa, 0xbb],
    };
    let (message, _) = build(vec![instruction], id(1), token(9), None);
    let mut expected: Vec<u8> = Vec::new();
    expected.extend_from_slice(&[9; 32]);
    expected.extend_from_slice(&[1; 32]);
    expected.extend_from_slice(&3u64.to_le_bytes());
    expected.extend_from_slice(&[1; 32]);
    expected.extend_from_slice(&[7; 32]);
    expected.extend_from_slice(&[9; 32]);
    expected.extend_from_slice(&1u64.to_le_bytes());
    expected.extend_from_slice(&[3; 32]);
    expected.extend_from_slice(&3u64.to_le_bytes());
    expected.extend_from_slice(&[7; 32]);
    expected.push(3);
    expected.extend_from_slice(&[8; 32]);
    expected.push(2);
    expected.extend_from_slice(&[9; 32]);
    expected.push(1);
    expected.extend_from_slice(&2u64.to_le_bytes());
    expected.extend_from_slice(&[0xaa, 0xbb]);
    assert_eq!(message.to_bytes(), expected);
}
