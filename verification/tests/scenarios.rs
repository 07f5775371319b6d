use signing_core::error::Error;
use signing_core::message::{build, AccountRef, Instruction, Message, NonceRef};
use signing_core::nonce::NonceAccount;
use signing_core::resolver::{query_for, resolve, FeeSchedule, Query, Reply, Source};
use signing_core::session::{Session, Transaction};
use signing_core::signer::{KeySigner, Signer};
use signing_core::submit::{Action, Event, Outcome, Policy, Submission};
use signing_core::transport::SignOnly;
use signing_core::types::{Identity, Signature, Token};
use solana_sdk::pubkey::Pubkey;
use solana_sdk::signature::{keypair_from_seed, Keypair, Signer as SolanaSigner};
use solana_sdk::system_program;

fn identity(pubkey: &Pubkey) -> Identity {
    Identity { bytes: pubkey.to_bytes() }
}

fn key_signer(keypair: &Keypair) -> Signer {
    Signer::Key(KeySigner { identity: identity(&keypair.pubkey()), keypair: keypair.to_bytes() })
}

fn transfer(from: Identity, to: Identity, lamports: u64) -> Instruction {
    let mut data = vec![2, 0, 0, 0];
    data.extend_from_slice(&lamports.to_le_bytes());
    Instruction {
        program: identity(&system_program::id()),
        accounts: vec![
            AccountRef { identity: from, signer: true, writable: true },
            AccountRef { identity: to, signer: false, writable: true },
        ],
        data,
    }
}

fn full_battery_tests(seed: Option<String>, use_nonce_authority: bool) {
    let payer = Keypair::new();
    let mut payer_balance: u64 = 2000;

    let nonce_keypair = keypair_from_seed(&[0u8; 32]).unwrap();
    let nonce_account = if let Some(seed) = seed.as_ref() {
        Pubkey::create_with_seed(&nonce_keypair.pubkey(), seed, &system_program::id()).unwrap()
    } else {
        nonce_keypair.pubkey()
    };

    let nonce_authority = Keypair::new();
    let authority = if use_nonce_authority {
        identity(&nonce_authority.pubkey())
    } else {
        identity(&payer.pubkey())
    };

    // Create nonce account
    let mut account = NonceAccount::create(
        &mut payer_balance,
        identity(&nonce_account),
        identity(&system_program::id()),
        authority,
        Token { bytes: [1; 32] },
        1000,
        0,
    )
    .unwrap();
    assert_eq!(payer_balance, 1000);
    assert_eq!(account.lamports, 1000);

    // Get nonce
    let first_nonce = account.query().unwrap().0;

    // Get nonce
    let second_nonce = account.query().unwrap().0;

    assert_eq!(first_nonce, second_nonce);

    // New nonce
    account.advance(authority).unwrap();

    // Get nonce
    let third_nonce = account.query().unwrap().0;

    assert_ne!(first_nonce, third_nonce);

    // Withdraw from nonce account
    let mut payee_balance: u64 = 0;
    account.withdraw(authority, 100, &mut payee_balance).unwrap();
    assert_eq!(payer_balance, 1000);
    assert_eq!(account.lamports, 900);
    assert_eq!(payee_balance, 100);

    // Show nonce account
    assert_eq!(account.query(), Ok((third_nonce, authority)));

    // Set new authority
    let new_authority = Keypair::new();
    account.authorize(authority, identity(&new_authority.pubkey())).unwrap();

    // Old authority fails now
    assert_eq!(account.advance(authority).unwrap_err(), Error::AuthorityMismatch);

    // New authority can advance nonce
    account.advance(identity(&new_authority.pubkey())).unwrap();

    // New authority can withdraw from nonce account
    account.withdraw(identity(&new_authority.pubkey()), 100, &mut payee_balance).unwrap();
    assert_eq!(payer_balance, 1000);
    assert_eq!(account.lamports, 800);
    assert_eq!(payee_balance, 200);
}

#[test]
fn test_nonce() {
    full_battery_tests(None, false);
}

#[test]
fn test_nonce_with_seed() {
    full_battery_tests(Some(String::from("seed")), false);
}

#[test]
fn test_nonce_with_authority() {
    full_battery_tests(None, true);
}

/// Runs a submission against a network of one nonce account: each send tries
/// to land the transaction, and the status asked for afterwards is what the
/// first landing came to.
fn submit(transaction: &Transaction, account: &mut NonceAccount) -> (Outcome, u32) {
    let mut submission =
        Submission::new(Policy { first_wait: 100, longest_wait: 400, timeout: 1000 });
    let mut landed = 0;
    let mut event = Event::Begin;
    loop {
        match submission.step(event) {
            Action::Send { .. } => {
                event = match account.land(transaction) {
                    Ok(()) => {
                        landed += 1;
                        Event::Confirmed
                    }
                    Err(Error::Rejected(reason)) => Event::Refused(reason),
                    Err(other) => Event::Refused(format!("{:?}", other)),
                };
            }
            Action::Finish(outcome) => return (outcome, landed),
            Action::Stop => panic!("stopped before an outcome"),
        }
    }
}

fn offline_transfer(token: Token, nonce: NonceRef, to: Identity) -> Message {
    build(vec![transfer(nonce.authority, to, 10)], nonce.authority, token, Some(nonce)).0
}

#[test]
fn test_create_account_with_seed() {
    let fees = FeeSchedule { lamports_per_signature: 1 };

    let offline_nonce_authority_signer = keypair_from_seed(&[1u8; 32]).unwrap();
    let online_nonce_creator_signer = keypair_from_seed(&[2u8; 32]).unwrap();
    let to_address = Pubkey::new(&[3u8; 32]);

    // Setup accounts
    let mut authority_balance: u64 = 42;
    let mut creator_balance: u64 = 4242;
    let mut to_balance: u64 = 0;

    // Create nonce account
    let creator_pubkey = online_nonce_creator_signer.pubkey();
    let authority_pubkey = offline_nonce_authority_signer.pubkey();
    let seed = authority_pubkey.to_string()[0..32].to_string();
    let nonce_address =
        Pubkey::create_with_seed(&creator_pubkey, &seed, &system_program::id()).unwrap();
    let program = identity(&system_program::id());

    let mut account = NonceAccount::create(
        &mut creator_balance,
        identity(&nonce_address),
        program,
        identity(&authority_pubkey),
        Token { bytes: [7; 32] },
        241,
        0,
    )
    .unwrap();
    creator_balance -= fees.cost(1).unwrap();
    assert_eq!(account.lamports, 241);
    assert_eq!(authority_balance, 42);
    assert_eq!(creator_balance, 4000);
    assert_eq!(to_balance, 0);

    // Fetch nonce hash
    let nonce_hash = account.query().unwrap().0;

    // Test by creating transfer TX with nonce, fully offline
    let nonce = NonceRef {
        account: identity(&nonce_address),
        authority: identity(&authority_pubkey),
        program,
    };
    let offline_source = Source::Explicit(nonce_hash, None);
    // Verify we cannot contact the cluster
    assert_eq!(query_for(&offline_source), Query::Nothing);
    assert_eq!(
        resolve(&Source::Cluster, &Reply::Unavailable, program),
        Err(Error::NetworkUnavailable)
    );
    let offline = resolve(&offline_source, &Reply::Unavailable, program).unwrap();
    let sign_only = SignOnly::from_session(
        &Session::sign(
            offline_transfer(offline.token, nonce, identity(&to_address)),
            &vec![key_signer(&offline_nonce_authority_signer)],
            Some(nonce_hash),
        )
        .unwrap(),
    );
    assert!(sign_only.complete);
    let message_bytes = offline_transfer(nonce_hash, nonce, identity(&to_address)).to_bytes();
    let authority_presigner =
        sign_only.presigner_of(identity(&authority_pubkey), &message_bytes).unwrap();
    assert_eq!(sign_only.token, nonce_hash);

    // And submit it
    let online_source = Source::NonceAccount(identity(&nonce_address));
    assert_eq!(query_for(&online_source), Query::Account(identity(&nonce_address)));
    let online = resolve(&online_source, &Reply::Account(account), program).unwrap();
    assert_eq!(online.token, sign_only.token);
    assert_eq!(online.advance, Some(nonce));
    let transaction = Session::sign(
        offline_transfer(online.token, online.advance.unwrap(), identity(&to_address)),
        &vec![Signer::Presigned(authority_presigner)],
        Some(sign_only.token),
    )
    .unwrap()
    .finalize()
    .unwrap();
    assert!(transaction.verify());
    let (outcome, landed) = submit(&transaction, &mut account);
    assert_eq!(outcome, Outcome::Confirmed);
    for _ in 0..landed {
        authority_balance -= 10 + fees.cost(transaction.signatures().len() as u64).unwrap();
        to_balance += 10;
    }
    assert_eq!(account.lamports, 241);
    assert_eq!(authority_balance, 31);
    assert_eq!(creator_balance, 4000);
    assert_eq!(to_balance, 10);

    // The same bytes sent again find the token spent.
    assert_ne!(account.query().unwrap().0, nonce_hash);
    let (again, landed_again) = submit(&transaction, &mut account);
    assert_eq!(
        again,
        Outcome::Rejected(String::from("the token is not the value that the nonce account holds"))
    );
    assert_eq!(landed_again, 0);
    assert_eq!(to_balance, 10);
}

#[test]
fn funding_balance_is_touched_by_the_funding_alone() {
    let x = identity(&keypair_from_seed(&[10u8; 32]).unwrap().pubkey());
    let y = identity(&keypair_from_seed(&[11u8; 32]).unwrap().pubkey());
    let mut funding: u64 = 5000;
    let mut payee: u64 = 0;
    let mut account = NonceAccount::create(
        &mut funding,
        Identity { bytes: [20; 32] },
        Identity { bytes: [0; 32] },
        x,
        Token { bytes: [1; 32] },
        1000,
        500,
    )
    .unwrap();
    assert_eq!(funding, 4000);
    assert_eq!(account.withdraw(x, 100, &mut payee), Ok(()));
    assert_eq!(account.lamports, 900);
    assert_eq!(account.authorize(x, y), Ok(()));
    assert_eq!(account.advance(x), Err(Error::AuthorityMismatch));
    assert_eq!(account.withdraw(x, 100, &mut payee), Err(Error::AuthorityMismatch));
    assert_eq!(account.lamports, 900);
    assert_eq!(account.withdraw(y, 100, &mut payee), Ok(()));
    assert_eq!(account.lamports, 800);
    assert_eq!(payee, 200);
    assert_eq!(funding, 4000);
}

#[test]
fn two_builds_on_one_value_cannot_both_land() {
    let authority = keypair_from_seed(&[1u8; 32]).unwrap();
    let nonce = NonceRef {
        account: Identity { bytes: [20; 32] },
        authority: identity(&authority.pubkey()),
        program: Identity { bytes: [0; 32] },
    };
    let mut funding: u64 = 1000;
    let mut account = NonceAccount::create(
        &mut funding,
        nonce.account,
        nonce.program,
        nonce.authority,
        Token { bytes: [1; 32] },
        1000,
        0,
    )
    .unwrap();
    let token = account.query().unwrap().0;
    let sign = |to: u8| {
        let message = build(
            vec![transfer(nonce.authority, Identity { bytes: [to; 32] }, 10)],
            nonce.authority,
            token,
            Some(nonce),
        )
        .0;
        Session::sign(message, &vec![key_signer(&authority)], None).unwrap().finalize().unwrap()
    };
    let first = sign(8);
    let second = sign(9);
    assert_eq!(account.land(&first), Ok(()));
    assert!(account.land(&second).is_err());
    assert!(account.land(&first).is_err());
}

#[test]
fn a_forged_transaction_does_not_land() {
    let authority = keypair_from_seed(&[1u8; 32]).unwrap();
    let stranger = keypair_from_seed(&[5u8; 32]).unwrap();
    let nonce = NonceRef {
        account: Identity { bytes: [20; 32] },
        authority: identity(&authority.pubkey()),
        program: Identity { bytes: [0; 32] },
    };
    let mut funding: u64 = 1000;
    let mut account = NonceAccount::create(
        &mut funding,
        nonce.account,
        nonce.program,
        nonce.authority,
        Token { bytes: [1; 32] },
        1000,
        0,
    )
    .unwrap();
    let before = account;
    let message = || build(vec![], nonce.authority, Token { bytes: [1; 32] }, Some(nonce)).0;
    let forged: [u8; 64] = stranger.sign_message(&message().to_bytes()).into();
    let mut session = Session::new(message());
    session.record(nonce.authority, Signature { bytes: forged }).unwrap();
    let transaction = session.finalize().unwrap();
    assert_eq!(account.land(&transaction), Err(Error::SignatureMismatch));
    assert_eq!(account, before);
    let honest =
        Session::sign(message(), &vec![key_signer(&authority)], None).unwrap().finalize().unwrap();
    assert_eq!(account.land(&honest), Ok(()));
}
