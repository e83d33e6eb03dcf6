use safe_core::client::{BalanceResponse, Client, ValidationEvent};
use safe_core::error::CoreError;
use safe_core::ledger::{
    PaymentProof, TransferActor, TransferRequest, ValidationOutcome, ValidationShare,
};
use safe_nd::{Coins, PublicKey};
use std::str::FromStr;

const QUORUM: u64 = 3;
const PRICE: u64 = 1;

fn random_key() -> PublicKey {
    PublicKey::Bls(threshold_crypto::SecretKey::random().public_key())
}

fn client_with(balance: u64) -> Client {
    Client::new(random_key(), random_key(), PRICE, balance, QUORUM)
}

fn share(req: &TransferRequest, validator: u64) -> ValidationEvent {
    ValidationEvent::Validated(ValidationShare { transfer_id: req.id, amount: req.amount, validator })
}

/// Hands the client one share from each validator until the proof comes.
fn validate(client: &mut Client, req: &TransferRequest) -> PaymentProof {
    for v in 0..QUORUM {
        if let Some(proof) = client.handle_validation_event(share(req, v)).unwrap() {
            return proof;
        }
    }
    panic!("no proof after a quorum of validations");
}

/// Drives a whole send: initiate, validate, register.
fn send(client: &mut Client, to: PublicKey, amount: u64) -> Result<(), CoreError> {
    let req = client.send_money(to, amount)?;
    let proof = validate(client, &req);
    client.register_transfer(proof, Ok(()))
}

#[test]
fn transfer_actor_can_send_money_and_thats_reflected_locally() {
    let mut client = client_with(10);
    send(&mut client, random_key(), 1).unwrap();
    assert_eq!(client.get_local_balance(), 9);
    assert_eq!(client.debit_counter(), 1);
}

#[test]
fn transfer_actor_can_send_several_transfers_and_thats_reflected_locally() {
    let mut client = client_with(10);
    let to = random_key();
    send(&mut client, to, 1).unwrap();
    assert_eq!(client.get_local_balance(), 9);
    send(&mut client, to, 2).unwrap();
    assert_eq!(client.get_local_balance(), 7);
    assert_eq!(client.debit_counter(), 2);
}

#[test]
fn transfer_actor_cannot_send_0_money_req() {
    let mut client = client_with(10);
    send(&mut client, random_key(), 0).unwrap();
    assert_eq!(client.get_local_balance(), 10);
}

#[test]
fn balance_transfers_between_clients() {
    let coins = |s: &str| Coins::from_str(s).unwrap().as_nano();
    let mut client = client_with(coins("10"));
    let mut receiving_client = client_with(coins("10"));
    client.receive_money(coins("100.0")).unwrap();
    assert_eq!(client.get_local_balance(), coins("110"));

    let wallet1 = receiving_client.public_key();
    send(&mut client, wallet1, coins("5.0")).unwrap();
    receiving_client.receive_money(coins("5.0")).unwrap();
    assert_eq!(client.get_local_balance(), coins("105"));
    assert_eq!(receiving_client.get_local_balance(), coins("15"));

    assert_eq!(client.send_money(wallet1, coins("5000")).err(), Some(CoreError::InsufficientBalance));
    assert_eq!(client.get_local_balance(), coins("105"));
    assert_eq!(client.debit_counter(), 1);
    assert!(client.pending_transfer().is_none());
}

#[test]
fn cannot_write_with_insufficient_balance() {
    let mut client = client_with(10);
    send(&mut client, random_key(), 10).unwrap();
    assert_eq!(client.get_local_balance(), 0);
    let res = client.delete_sequence(safe_core::sequence::SeqAddress { name: [7; 32], tag: 10, private: true });
    assert_eq!(res.err(), Some(CoreError::InsufficientBalance));
    assert!(client.pending_transfer().is_none());
}

#[test]
fn send_then_overdraft_scenario() {
    let mut a = client_with(110);
    let mut b = client_with(0);
    send(&mut a, b.public_key(), 5).unwrap();
    b.receive_money(5).unwrap();
    assert_eq!(a.get_local_balance(), 105);
    assert_eq!(b.get_local_balance(), 5);
    assert_eq!(a.send_money(b.public_key(), 5000).err(), Some(CoreError::InsufficientBalance));
    assert_eq!(a.get_local_balance(), 105);
}

#[test]
fn repeated_share_is_absorbed() {
    let mut client = client_with(50);
    let req = client.send_money(random_key(), 20).unwrap();
    assert_eq!(client.handle_validation_event(share(&req, 0)), Ok(None));
    assert_eq!(client.handle_validation_event(share(&req, 0)), Ok(None));
    assert_eq!(client.handle_validation_event(share(&req, 1)), Ok(None));
    let proof = client.handle_validation_event(share(&req, 2)).unwrap();
    assert_eq!(proof, Some(PaymentProof { id: 0, amount: 20 }));
    // No second proof for the same transfer.
    assert_eq!(client.handle_validation_event(share(&req, 3)), Ok(None));
    client.register_transfer(proof.unwrap(), Ok(())).unwrap();
    assert_eq!(client.get_local_balance(), 30);
}

#[test]
fn actor_reports_each_validation_outcome() {
    let mut actor = TransferActor::new(100, 2);
    let s = |validator: u64| ValidationShare { transfer_id: 0, amount: 40, validator };
    assert_eq!(actor.receive(s(0)), ValidationOutcome::NotApplicable);
    let req = actor.initiate(40, random_key()).unwrap();
    assert_eq!(req.id, 0);
    assert_eq!(actor.receive(ValidationShare { transfer_id: 0, amount: 41, validator: 0 }), ValidationOutcome::Conflict);
    assert_eq!(actor.receive(ValidationShare { transfer_id: 5, amount: 40, validator: 0 }), ValidationOutcome::NotApplicable);
    assert_eq!(actor.receive(s(0)), ValidationOutcome::Recorded);
    assert_eq!(actor.receive(s(0)), ValidationOutcome::Duplicate);
    assert_eq!(actor.receive(s(1)), ValidationOutcome::ProofReady(PaymentProof { id: 0, amount: 40 }));
    assert_eq!(actor.receive(s(2)), ValidationOutcome::NotApplicable);
    assert_eq!(actor.register(PaymentProof { id: 0, amount: 40 }), Ok(()));
    assert_eq!(actor.balance(), 60);
    assert_eq!(actor.debit_counter(), 1);
}

#[test]
fn second_send_waits_for_the_first() {
    let mut client = client_with(50);
    let to = random_key();
    let first = client.send_money(to, 10).unwrap();
    assert_eq!(client.send_money(to, 11).err(), Some(CoreError::TransferPending));
    assert_eq!(client.send_money(random_key(), 10).err(), Some(CoreError::TransferPending));
    assert_eq!(client.pending_transfer().map(|p| p.id), Some(first.id));
}

#[test]
fn retried_send_resumes_the_transfer_in_flight() {
    let mut client = client_with(50);
    let to = random_key();
    let req = client.send_money(to, 10).unwrap();
    let proof = validate(&mut client, &req);
    assert_eq!(client.register_transfer(proof, Err(CoreError::NetworkError)), Err(CoreError::NetworkError));
    let again = client.send_money(to, 10).unwrap();
    assert_eq!((again.id, again.amount), (req.id, req.amount));
    assert_eq!(client.pending_proof(), Some(proof));
    assert_eq!(client.register_transfer(client.pending_proof().unwrap(), Ok(())), Ok(()));
    assert_eq!(client.get_local_balance(), 40);
    assert_eq!(client.debit_counter(), 1);
    assert!(client.pending_proof().is_none());
}

#[test]
fn failed_registration_leaves_the_transfer_to_resume() {
    let mut client = client_with(50);
    let req = client.send_money(random_key(), 10).unwrap();
    let proof = validate(&mut client, &req);
    assert_eq!(client.register_transfer(proof, Err(CoreError::NetworkError)), Err(CoreError::NetworkError));
    assert_eq!(client.get_local_balance(), 50);
    assert_eq!(client.debit_counter(), 0);
    let resumed = client.pending_transfer().unwrap();
    assert_eq!((resumed.id, resumed.amount), (0, 10));
    assert_eq!(client.register_transfer(proof, Ok(())), Ok(()));
    assert_eq!(client.get_local_balance(), 40);
    assert_eq!(client.debit_counter(), 1);
}

#[test]
fn register_needs_an_agreed_transfer() {
    let mut client = client_with(50);
    let proof = PaymentProof { id: 0, amount: 10 };
    assert_eq!(client.register_transfer(proof, Ok(())), Err(CoreError::NoPendingTransfer));
    let _ = client.send_money(random_key(), 10).unwrap();
    assert_eq!(client.register_transfer(proof, Ok(())), Err(CoreError::InvalidOperation));
    assert_eq!(client.get_local_balance(), 50);
}

#[test]
fn other_events_are_refused() {
    let mut client = client_with(50);
    assert_eq!(client.handle_validation_event(ValidationEvent::Other), Err(CoreError::UnexpectedResponse));
}

#[test]
fn conflicting_share_is_an_error() {
    let mut client = client_with(50);
    let req = client.send_money(random_key(), 10).unwrap();
    let bad = ValidationShare { transfer_id: req.id, amount: 11, validator: 0 };
    assert_eq!(client.handle_validation_event(ValidationEvent::Validated(bad)), Err(CoreError::InvalidOperation));
}

#[test]
fn credit_past_the_largest_balance_is_refused() {
    let mut client = client_with(u64::MAX - 1);
    assert_eq!(client.receive_money(2), Err(CoreError::BalanceOverflow));
    assert_eq!(client.get_local_balance(), u64::MAX - 1);
    assert_eq!(client.receive_money(1), Ok(()));
    assert_eq!(client.get_local_balance(), u64::MAX);
}

#[test]
fn whole_balance_can_be_sent() {
    let mut client = client_with(25);
    send(&mut client, random_key(), 25).unwrap();
    assert_eq!(client.get_local_balance(), 0);
    assert_eq!(client.send_money(random_key(), 1).err(), Some(CoreError::InsufficientBalance));
}

#[test]
fn balance_responses_are_read() {
    assert_eq!(Client::balance_from_response(BalanceResponse::Balance(42)), Ok(42));
    assert_eq!(Client::balance_from_response(BalanceResponse::Failed(CoreError::NoSuchData)), Err(CoreError::NoSuchData));
    assert_eq!(Client::balance_from_response(BalanceResponse::Other), Err(CoreError::UnexpectedResponse));
}

#[test]
fn repeat_from_recorded_validator_is_absorbed_whatever_its_amount() {
    let mut actor = TransferActor::new(100, 3);
    let _ = actor.initiate(40, random_key()).unwrap();
    assert_eq!(actor.receive(ValidationShare { transfer_id: 0, amount: 40, validator: 1 }), ValidationOutcome::Recorded);
    assert_eq!(actor.receive(ValidationShare { transfer_id: 0, amount: 41, validator: 1 }), ValidationOutcome::Duplicate);
    assert_eq!(actor.receive(ValidationShare { transfer_id: 0, amount: 41, validator: 2 }), ValidationOutcome::Conflict);
}

#[test]
fn resumable_proof_only_for_the_transfer_in_flight() {
    let mut client = client_with(50);
    let req = client.send_money(random_key(), 10).unwrap();
    assert_eq!(client.resumable_proof(&req), None);
    let proof = validate(&mut client, &req);
    assert_eq!(client.resumable_proof(&req), Some(proof));
    let other = TransferRequest { id: req.id + 1, ..req };
    assert_eq!(client.resumable_proof(&other), None);
}
