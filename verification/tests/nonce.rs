use signing_core::error::Error;
use signing_core::message::{build, AccountRef, Instruction, Message, NonceRef};
use signing_core::nonce::{successor, NonceAccount, NonceState};
use signing_core::types::{Identity, Token};

fn id(n: u8) -> Identity {
    Identity { bytes: [n; 32] }
}

fn token(n: u8) -> Token {
    Token { bytes: [n; 32] }
}

/// The account 20 of program 0 under authority 21, holding token 1.
fn account(lamports: u64, minimum: u64) -> NonceAccount {
    let mut funding = lamports;
    NonceAccount::create(&mut funding, id(20), id(0), id(21), token(1), lamports, minimum).unwrap()
}

fn nonced_message(token: Token, authority: u8) -> Message {
    let nonce = NonceRef { account: id(20), authority: id(authority), program: id(0) };
    let transfer = Instruction {
        program: id(0),
        accounts: vec![
            AccountRef { identity: id(authority), signer: true, writable: true },
            AccountRef { identity: id(8), signer: false, writable: true },
        ],
        data: vec![2, 0, 0, 0, 10, 0, 0, 0, 0, 0, 0, 0],
    };
    build(vec![transfer], id(authority), token, Some(nonce)).0
}

#[test]
fn the_next_value_adds_one_with_carry() {
    let mut bytes = [0u8; 32];
    assert_eq!(successor(Token { bytes }).bytes[0], 1);
    bytes[0] = 41;
    bytes[5] = 7;
    let mut expected = bytes;
    expected[0] = 42;
    assert_eq!(successor(Token { bytes }), Token { bytes: expected });
    bytes[0] = 255;
    bytes[1] = 255;
    bytes[2] = 9;
    let mut carried = bytes;
    carried[0] = 0;
    carried[1] = 0;
    carried[2] = 10;
    assert_eq!(successor(Token { bytes }), Token { bytes: carried });
    assert_eq!(successor(Token { bytes: [255; 32] }), Token { bytes: [0; 32] });
}

#[test]
fn create_takes_the_funding() {
    let mut funding = 2000;
    let account =
        NonceAccount::create(&mut funding, id(20), id(0), id(21), token(1), 1000, 500).unwrap();
    assert_eq!(funding, 1000);
    assert_eq!(
        account,
        NonceAccount {
            identity: id(20),
            owner: id(0),
            authority: id(21),
            value: token(1),
            state: NonceState::Initialized,
            lamports: 1000,
            minimum: 500,
        }
    );
}

#[test]
fn create_refuses_too_little() {
    let mut funding = 2000;
    assert_eq!(
        NonceAccount::create(&mut funding, id(20), id(0), id(21), token(1), 499, 500),
        Err(Error::BelowRentExempt)
    );
    assert_eq!(funding, 2000);
    assert_eq!(
        NonceAccount::create(&mut funding, id(20), id(0), id(21), token(1), 2001, 500),
        Err(Error::InsufficientFunds)
    );
    assert_eq!(funding, 2000);
    assert!(NonceAccount::create(&mut funding, id(20), id(0), id(21), token(1), 500, 500).is_ok());
    assert_eq!(funding, 1500);
}

#[test]
fn query_changes_nothing() {
    let account = account(1000, 0);
    assert_eq!(account.query(), Ok((token(1), id(21))));
    assert_eq!(account.query(), account.query());
    let closed = NonceAccount { state: NonceState::Uninitialized, ..account };
    assert_eq!(closed.query(), Err(Error::NotInitialized));
}

#[test]
fn advance_replaces_the_value() {
    let mut account = account(1000, 0);
    assert_eq!(account.advance(id(21)), Ok(()));
    assert_eq!(account.value, successor(token(1)));
    assert_ne!(account.value, token(1));
    let before = account;
    assert_eq!(account.advance(id(22)), Err(Error::AuthorityMismatch));
    assert_eq!(account, before);
    let mut closed = NonceAccount { state: NonceState::Uninitialized, ..before };
    assert_eq!(closed.advance(id(21)), Err(Error::NotInitialized));
}

#[test]
fn authorize_hands_over() {
    let mut account = account(1000, 0);
    assert_eq!(account.authorize(id(22), id(23)), Err(Error::AuthorityMismatch));
    assert_eq!(account.authority, id(21));
    assert_eq!(account.authorize(id(21), id(23)), Ok(()));
    assert_eq!(account.authority, id(23));
    assert_eq!(account.advance(id(21)), Err(Error::AuthorityMismatch));
    assert_eq!(account.advance(id(23)), Ok(()));
    let mut destination = 0;
    assert_eq!(account.withdraw(id(21), 1, &mut destination), Err(Error::AuthorityMismatch));
    assert_eq!(account.withdraw(id(23), 1, &mut destination), Ok(()));
    assert_eq!(destination, 1);
}

#[test]
fn withdraw_keeps_the_minimum_or_closes() {
    let mut account = account(1000, 400);
    let mut destination = 5;
    assert_eq!(account.withdraw(id(21), 600, &mut destination), Ok(()));
    assert_eq!((account.lamports, destination), (400, 605));
    assert_eq!(account.state, NonceState::Initialized);
    assert_eq!(account.withdraw(id(21), 1, &mut destination), Err(Error::BelowRentExempt));
    assert_eq!(account.withdraw(id(21), 399, &mut destination), Err(Error::BelowRentExempt));
    assert_eq!(account.withdraw(id(21), 401, &mut destination), Err(Error::InsufficientFunds));
    assert_eq!(account.withdraw(id(22), 400, &mut destination), Err(Error::AuthorityMismatch));
    assert_eq!((account.lamports, destination), (400, 605));
    assert_eq!(account.withdraw(id(21), 400, &mut destination), Ok(()));
    assert_eq!((account.lamports, destination), (0, 1005));
    assert_eq!(account.state, NonceState::Uninitialized);
    assert_eq!(account.withdraw(id(21), 0, &mut destination), Err(Error::NotInitialized));
    assert_eq!(account.query(), Err(Error::NotInitialized));
}

#[test]
fn a_fitting_message_is_accepted_once() {
    let mut account = account(1000, 0);
    let message = nonced_message(token(1), 21);
    assert_eq!(account.accept(&message, true), Ok(()));
    assert_eq!(account.value, successor(token(1)));
    let after = account;
    assert_eq!(
        account.accept(&message, true),
        Err(Error::Rejected(String::from(
            "the token is not the value that the nonce account holds"
        )))
    );
    assert_eq!(account, after);
    assert_eq!(account.accept(&nonced_message(after.value, 21), true), Ok(()));
}

#[test]
fn a_message_that_does_not_fit_is_turned_away() {
    let mut account = account(1000, 0);
    let before = account;
    assert_eq!(
        account.accept(&nonced_message(token(2), 21), true),
        Err(Error::Rejected(String::from(
            "the token is not the value that the nonce account holds"
        )))
    );
    let plain = build(vec![], id(21), token(1), None).0;
    let no_advance = Err(Error::Rejected(String::from(
        "the first instruction does not advance the nonce account",
    )));
    assert_eq!(account.accept(&plain, true), no_advance);
    let elsewhere = NonceRef { account: id(30), authority: id(21), program: id(0) };
    assert_eq!(
        account.accept(&build(vec![], id(21), token(1), Some(elsewhere)).0, true),
        no_advance
    );
    let other_program = NonceRef { account: id(20), authority: id(21), program: id(1) };
    assert_eq!(
        account.accept(&build(vec![], id(21), token(1), Some(other_program)).0, true),
        no_advance
    );
    assert_eq!(
        account.accept(&nonced_message(token(1), 22), true),
        Err(Error::AuthorityMismatch)
    );
    assert_eq!(
        account.accept(&nonced_message(token(1), 21), false),
        Err(Error::SignatureMismatch)
    );
    assert_eq!(account, before);
    let mut closed = NonceAccount { state: NonceState::Uninitialized, ..before };
    assert_eq!(
        closed.accept(&nonced_message(token(1), 21), true),
        Err(Error::NotInitialized)
    );
}
