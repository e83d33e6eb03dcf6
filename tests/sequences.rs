use std::collections::HashMap;

use safe_core::client::{Client, SequenceResponse, ValidationEvent, WriteOp, WritePlan};
use safe_core::error::CoreError;
use safe_core::ledger::ValidationShare;
use safe_core::sequence::{
    PrivUserPermissions, PubUserPermissions, SeqAddress, SeqIndex, SeqUser, UserPermissions,
};
use safe_nd::{PublicKey, SData};

const QUORUM: u64 = 2;
const PRICE: u64 = 1;

fn random_key() -> PublicKey {
    PublicKey::Bls(threshold_crypto::SecretKey::random().public_key())
}

fn all_rights() -> PrivUserPermissions {
    PrivUserPermissions { read: true, append: true, manage_permissions: true }
}

/// The network as the tests see it: the stored sequences, by address.
#[derive(Default)]
struct Network {
    sequences: HashMap<([u8; 32], u64, bool), SData>,
    commands: usize,
}

fn key_of(a: &SeqAddress) -> ([u8; 32], u64, bool) {
    (a.name, a.tag, a.private)
}

/// Pays for the plan, sends its mutation and hands the answer back.
fn execute(client: &mut Client, net: &mut Network, plan: WritePlan) -> Result<(), CoreError> {
    let req = plan.payment;
    let mut proof = None;
    for v in 0..QUORUM {
        let share = ValidationShare { transfer_id: req.id, amount: req.amount, validator: v };
        if let Some(p) = client.handle_validation_event(ValidationEvent::Validated(share)).unwrap() {
            proof = Some(p);
        }
    }
    net.commands += 1;
    let key = key_of(&plan.write.address);
    let outcome = match &plan.write.op {
        WriteOp::New(d) => {
            net.sequences.insert(key, d.clone());
            Ok(())
        }
        WriteOp::Delete => {
            if !plan.write.address.private {
                Err(CoreError::InvalidOperation)
            } else if net.sequences.remove(&key).is_some() {
                Ok(())
            } else {
                Err(CoreError::NoSuchData)
            }
        }
        _ => {
            net.sequences.insert(key, plan.write.updated.as_ref().unwrap().data.clone());
            Ok(())
        }
    };
    client.register_transfer(proof.unwrap(), Ok(())).unwrap();
    client.finish_write(plan.write, outcome)
}

/// Reads through the cache, asking the network on a miss.
fn read(client: &mut Client, net: &Network, address: SeqAddress) -> Result<SData, CoreError> {
    if let Some(d) = client.get_sequence(&address) {
        return Ok(d);
    }
    let resp = match net.sequences.get(&key_of(&address)) {
        Some(d) => SequenceResponse::Found(d.clone()),
        None => SequenceResponse::Failed(CoreError::NoSuchData),
    };
    client.store_fetched_sequence(address, resp)
}

fn store_private(client: &mut Client, net: &mut Network, tag: u64) -> SeqAddress {
    let owner = client.public_key();
    let plan = client
        .store_private_sequence(None, rand_name(), tag, owner, vec![(owner, all_rights())])
        .unwrap();
    let address = plan.write.address;
    execute(client, net, plan).unwrap();
    address
}

fn store_public(client: &mut Client, net: &mut Network, tag: u64, perms: Vec<(SeqUser, PubUserPermissions)>) -> SeqAddress {
    let owner = client.public_key();
    let plan = client.store_public_sequence(None, rand_name(), tag, owner, perms).unwrap();
    let address = plan.write.address;
    execute(client, net, plan).unwrap();
    address
}

fn rand_name() -> [u8; 32] {
    let key = threshold_crypto::SecretKey::random().public_key().to_bytes();
    let mut name = [0u8; 32];
    name.copy_from_slice(&key[..32]);
    name
}

fn append(client: &mut Client, net: &mut Network, address: SeqAddress, value: &[u8]) -> Result<(), CoreError> {
    let _ = read(client, net, address)?;
    let plan = client.append_to_sequence(address, value.to_vec())?;
    execute(client, net, plan)
}

#[test]
fn sequence_deletions_should_cost_put_price() {
    let mut client = Client::new(random_key(), random_key(), PRICE, 10, QUORUM);
    let mut net = Network::default();
    let address = store_private(&mut client, &mut net, 10);
    let balance_before_delete = client.get_local_balance();
    let plan = client.delete_sequence(address).unwrap();
    execute(&mut client, &mut net, plan).unwrap();
    assert_ne!(balance_before_delete, 0);
    assert_eq!(client.get_local_balance(), balance_before_delete - PRICE);
}

#[test]
fn sequence_basics_test() {
    let mut client = Client::new(random_key(), random_key(), PRICE, 10, QUORUM);
    let mut net = Network::default();
    let address = store_private(&mut client, &mut net, 15000);
    let sequence = read(&mut client, &net, address).unwrap();
    assert!(sequence.is_priv());
    assert_eq!(sequence.tag(), 15000);
    assert_eq!(sequence.name().0, address.name);
    assert_eq!(sequence.permissions_index(), 1);
    assert_eq!(sequence.owners_index(), 1);
    assert_eq!(sequence.entries_index(), 0);

    let perms = vec![(SeqUser::Anyone, PubUserPermissions { append: Some(true), manage_permissions: Some(true) })];
    let address = store_public(&mut client, &mut net, 15000, perms);
    let sequence = read(&mut client, &net, address).unwrap();
    assert!(sequence.is_pub());
    assert_eq!(sequence.tag(), 15000);
    assert_eq!(sequence.permissions_index(), 1);
    assert_eq!(sequence.owners_index(), 1);
    assert_eq!(sequence.entries_index(), 0);
}

#[test]
fn sequence_private_permissions_test() {
    let mut client = Client::new(random_key(), random_key(), PRICE, 10, QUORUM);
    let mut net = Network::default();
    let owner = client.public_key();
    let address = store_private(&mut client, &mut net, 15000);
    let data = read(&mut client, &net, address).unwrap();
    assert_eq!(data.entries_index(), 0);
    assert_eq!(data.owners_index(), 1);
    assert_eq!(data.permissions_index(), 1);
    assert_eq!(
        client.get_sequence_user_permissions(&address, SeqUser::Key(owner)),
        Ok(UserPermissions::Priv(all_rights()))
    );
    let private_permissions = client.get_sequence_private_permissions(&address).unwrap();
    assert_eq!(private_permissions.len(), 1);
    assert!(private_permissions[0].0 == owner);
    assert_eq!(private_permissions[0].1, all_rights());
    assert_eq!(client.get_sequence_pub_permissions(&address).err(), Some(CoreError::InvalidOperation));

    let sim_client = random_key();
    let only_append = PrivUserPermissions { read: false, append: true, manage_permissions: false };
    let plan = client.edit_sequence_private_perms(address, vec![(sim_client, only_append)]).unwrap();
    execute(&mut client, &mut net, plan).unwrap();
    assert_eq!(
        client.get_sequence_user_permissions(&address, SeqUser::Key(sim_client)),
        Ok(UserPermissions::Priv(only_append))
    );
    let private_permissions = client.get_sequence_private_permissions(&address).unwrap();
    assert_eq!(private_permissions.len(), 1);
    assert!(private_permissions[0].0 == sim_client);
    assert_eq!(private_permissions[0].1, only_append);
    assert_eq!(
        client.get_sequence_user_permissions(&address, SeqUser::Key(owner)),
        Err(CoreError::NoSuchEntry)
    );
}

#[test]
fn sequence_pub_permissions_test() {
    let mut client = Client::new(random_key(), random_key(), PRICE, 10, QUORUM);
    let mut net = Network::default();
    let owner = client.public_key();
    let perms = vec![(SeqUser::Key(owner), PubUserPermissions { append: None, manage_permissions: Some(true) })];
    let address = store_public(&mut client, &mut net, 15000, perms);
    let data = read(&mut client, &net, address).unwrap();
    assert_eq!(data.entries_index(), 0);
    assert_eq!(data.owners_index(), 1);
    assert_eq!(data.permissions_index(), 1);
    assert_eq!(
        client.get_sequence_user_permissions(&address, SeqUser::Key(owner)),
        Ok(UserPermissions::Pub(PubUserPermissions { append: None, manage_permissions: Some(true) }))
    );
    let pub_permissions = client.get_sequence_pub_permissions(&address).unwrap();
    assert_eq!(pub_permissions.len(), 1);
    assert!(matches!(pub_permissions[0].0, SeqUser::Key(k) if k == owner));
    assert_eq!(pub_permissions[0].1, PubUserPermissions { append: None, manage_permissions: Some(true) });
    assert_eq!(client.get_sequence_private_permissions(&address).err(), Some(CoreError::InvalidOperation));

    let sim_client = random_key();
    let denied = PubUserPermissions { append: Some(false), manage_permissions: Some(false) };
    let plan = client.edit_sequence_public_perms(address, vec![(SeqUser::Key(sim_client), denied)]).unwrap();
    execute(&mut client, &mut net, plan).unwrap();
    assert_eq!(
        client.get_sequence_user_permissions(&address, SeqUser::Key(sim_client)),
        Ok(UserPermissions::Pub(denied))
    );
    let pub_permissions = client.get_sequence_pub_permissions(&address).unwrap();
    assert_eq!(pub_permissions.len(), 1);
    assert!(matches!(pub_permissions[0].0, SeqUser::Key(k) if k == sim_client));
    assert_eq!(pub_permissions[0].1, denied);
}

#[test]
fn append_to_sequence_test() {
    let mut client = Client::new(random_key(), random_key(), PRICE, 10, QUORUM);
    let mut net = Network::default();
    let owner = client.public_key();
    let perms = vec![(SeqUser::Key(owner), PubUserPermissions { append: Some(true), manage_permissions: Some(true) })];
    let address = store_public(&mut client, &mut net, 10, perms);

    append(&mut client, &mut net, address, b"VALUE1").unwrap();
    assert_eq!(client.get_sequence_last_entry(&address), Ok((0, b"VALUE1".to_vec())));

    append(&mut client, &mut net, address, b"VALUE2").unwrap();
    assert_eq!(client.get_sequence_last_entry(&address), Ok((1, b"VALUE2".to_vec())));

    let data = client.get_sequence_range(&address, SeqIndex::FromStart(0), SeqIndex::FromEnd(0)).unwrap();
    assert_eq!(data, vec![b"VALUE1".to_vec(), b"VALUE2".to_vec()]);
}

#[test]
fn sequence_owner_test() {
    let mut client = Client::new(random_key(), random_key(), PRICE, 10, QUORUM);
    let mut net = Network::default();
    let owner = client.public_key();
    let address = store_private(&mut client, &mut net, 10);
    append(&mut client, &mut net, address, b"VALUE1").unwrap();
    append(&mut client, &mut net, address, b"VALUE2").unwrap();

    let data = read(&mut client, &net, address).unwrap();
    assert_eq!(data.entries_index(), 2);
    assert_eq!(data.owners_index(), 1);
    assert_eq!(data.permissions_index(), 1);
    assert!(client.get_sequence_owner(&address) == Ok(owner));

    let sim_client = random_key();
    let plan = client.set_sequence_owner(address, sim_client).unwrap();
    execute(&mut client, &mut net, plan).unwrap();
    assert!(client.get_sequence_owner(&address) == Ok(sim_client));
    assert_eq!(net.sequences[&key_of(&address)].owners_index(), 2);
}

#[test]
fn sequence_can_delete_private_test() {
    let mut client = Client::new(random_key(), random_key(), PRICE, 10, QUORUM);
    let mut net = Network::default();
    let address = store_private(&mut client, &mut net, 15000);
    assert!(read(&mut client, &net, address).unwrap().is_priv());

    let plan = client.delete_sequence(address).unwrap();
    execute(&mut client, &mut net, plan).unwrap();
    assert!(client.get_sequence(&address).is_none());
    assert_eq!(read(&mut client, &net, address).err(), Some(CoreError::NoSuchData));
    assert!(client.get_sequence(&address).is_none());
}

#[test]
fn sequence_cannot_delete_public_test() {
    let mut client = Client::new(random_key(), random_key(), PRICE, 10, QUORUM);
    let mut net = Network::default();
    let perms = vec![(SeqUser::Anyone, PubUserPermissions { append: Some(true), manage_permissions: Some(true) })];
    let address = store_public(&mut client, &mut net, 15000, perms);
    append(&mut client, &mut net, address, b"kept").unwrap();
    let before = read(&mut client, &net, address).unwrap();
    assert!(before.is_pub());

    let balance = client.get_local_balance();
    let plan = client.delete_sequence(address).unwrap();
    assert_eq!(execute(&mut client, &mut net, plan), Err(CoreError::InvalidOperation));
    // The payment is consumed; the object stays readable and unchanged.
    assert_eq!(client.get_local_balance(), balance - PRICE);
    assert!(read(&mut client, &net, address).unwrap() == before);
    assert_eq!(client.get_sequence_last_entry(&address), Ok((0, b"kept".to_vec())));
}

#[test]
fn appends_read_back_in_order_and_index_past_end_fails() {
    let mut client = Client::new(random_key(), random_key(), PRICE, 100, QUORUM);
    let mut net = Network::default();
    let address = store_private(&mut client, &mut net, 1);
    let values: Vec<Vec<u8>> = (0..5u8).map(|i| vec![b'v', i]).collect();
    for v in &values {
        append(&mut client, &mut net, address, v).unwrap();
    }
    assert_eq!(client.get_sequence_range(&address, SeqIndex::FromStart(0), SeqIndex::FromEnd(0)), Ok(values.clone()));
    assert_eq!(
        client.get_sequence_range(&address, SeqIndex::FromStart(5), SeqIndex::FromEnd(0)),
        Err(CoreError::NoSuchEntry)
    );
    assert_eq!(
        client.get_sequence_range(&address, SeqIndex::FromStart(5), SeqIndex::FromStart(6)),
        Err(CoreError::NoSuchEntry)
    );
    assert_eq!(
        client.get_sequence_range(&address, SeqIndex::FromStart(1), SeqIndex::FromEnd(1)),
        Ok(values[1..4].to_vec())
    );
}

#[test]
fn private_sequence_scenario_last_entry_and_range() {
    let mut client = Client::new(random_key(), random_key(), PRICE, 10, QUORUM);
    let mut net = Network::default();
    let address = store_private(&mut client, &mut net, 10);
    append(&mut client, &mut net, address, b"VALUE1").unwrap();
    append(&mut client, &mut net, address, b"VALUE2").unwrap();
    assert_eq!(client.get_sequence_last_entry(&address), Ok((1, b"VALUE2".to_vec())));
    assert_eq!(
        client.get_sequence_range(&address, SeqIndex::FromStart(1), SeqIndex::FromEnd(0)),
        Ok(vec![b"VALUE2".to_vec()])
    );
}

#[test]
fn append_without_right_makes_no_network_call() {
    let mut net = Network::default();
    let mut owner = Client::new(random_key(), random_key(), PRICE, 10, QUORUM);
    let address = store_private(&mut owner, &mut net, 3);
    let mut stranger = Client::new(random_key(), random_key(), PRICE, 10, QUORUM);
    let _ = read(&mut stranger, &net, address).unwrap();
    let commands = net.commands;
    assert_eq!(stranger.append_to_sequence(address, b"x".to_vec()).err(), Some(CoreError::PermissionDenied));
    assert_eq!(net.commands, commands);
    assert!(stranger.pending_transfer().is_none());
    assert_eq!(stranger.get_local_balance(), 10);
    assert_eq!(stranger.get_sequence_last_entry(&address), Err(CoreError::NoSuchEntry));
    assert_eq!(stranger.set_sequence_owner(address, random_key()).err(), Some(CoreError::PermissionDenied));
}

#[test]
fn mutations_need_a_cached_snapshot() {
    let mut client = Client::new(random_key(), random_key(), PRICE, 10, QUORUM);
    let address = SeqAddress { name: [1; 32], tag: 1, private: true };
    assert_eq!(client.append_to_sequence(address, b"x".to_vec()).err(), Some(CoreError::NotCached));
    assert_eq!(client.get_sequence_last_entry(&address), Err(CoreError::NotCached));
    assert_eq!(client.get_sequence_owner(&address).err(), Some(CoreError::NotCached));
    assert!(client.pending_transfer().is_none());
}

#[test]
fn wrong_flavour_permissions_are_refused_before_paying() {
    let mut client = Client::new(random_key(), random_key(), PRICE, 10, QUORUM);
    let mut net = Network::default();
    let address = store_private(&mut client, &mut net, 4);
    let balance = client.get_local_balance();
    let perms = vec![(SeqUser::Anyone, PubUserPermissions { append: Some(true), manage_permissions: None })];
    assert_eq!(client.edit_sequence_public_perms(address, perms).err(), Some(CoreError::InvalidOperation));
    assert!(client.pending_transfer().is_none());
    assert_eq!(client.get_local_balance(), balance);
}

#[test]
fn fetch_answers_are_handled() {
    let mut client = Client::new(random_key(), random_key(), PRICE, 10, QUORUM);
    let address = SeqAddress { name: [2; 32], tag: 9, private: true };
    assert_eq!(client.store_fetched_sequence(address, SequenceResponse::Other).err(), Some(CoreError::UnexpectedResponse));
    assert!(client.get_sequence(&address).is_none());
    // A replica without an owner has no valid current owner.
    let bare = SData::new_priv(random_key(), safe_nd::XorName([2; 32]), 9);
    assert!(client.store_fetched_sequence(address, SequenceResponse::Found(bare.clone())).unwrap() == bare);
    assert!(client.get_sequence(&address) == Some(bare));
    assert_eq!(client.get_sequence_owner(&address).err(), Some(CoreError::InvalidOwners));
    assert_eq!(client.get_sequence_user_permissions(&address, SeqUser::Anyone), Err(CoreError::NoSuchEntry));
    assert_eq!(client.get_sequence_private_permissions(&address).err(), Some(CoreError::NoSuchEntry));
}

#[test]
fn store_with_initial_entries() {
    let mut client = Client::new(random_key(), random_key(), PRICE, 10, QUORUM);
    let mut net = Network::default();
    let owner = client.public_key();
    let entries = vec![b"a".to_vec(), b"b".to_vec()];
    let plan = client
        .store_private_sequence(Some(entries.clone()), [3; 32], 7, owner, vec![(owner, all_rights())])
        .unwrap();
    assert_eq!(plan.write.address, SeqAddress { name: [3; 32], tag: 7, private: true });
    execute(&mut client, &mut net, plan).unwrap();
    let address = SeqAddress { name: [3; 32], tag: 7, private: true };
    assert_eq!(client.get_sequence_range(&address, SeqIndex::FromStart(0), SeqIndex::FromEnd(0)), Ok(entries));
    assert_eq!(client.get_local_balance(), 10 - PRICE);
}

#[test]
fn refresh_reads_the_network_again() {
    let mut client = Client::new(random_key(), random_key(), PRICE, 10, QUORUM);
    let mut other = Client::new(random_key(), random_key(), PRICE, 10, QUORUM);
    let mut net = Network::default();
    let perms = vec![(SeqUser::Anyone, PubUserPermissions { append: Some(true), manage_permissions: None })];
    let address = store_public(&mut client, &mut net, 8, perms);
    let _ = read(&mut other, &net, address).unwrap();
    append(&mut client, &mut net, address, b"fresh").unwrap();
    // The other client's cached snapshot is stale until it refreshes.
    assert_eq!(other.get_sequence_last_entry(&address), Err(CoreError::NoSuchEntry));
    other.refresh_sequence(&address);
    assert!(other.get_sequence(&address).is_none());
    let _ = read(&mut other, &net, address).unwrap();
    assert_eq!(other.get_sequence_last_entry(&address), Ok((0, b"fresh".to_vec())));
}

#[test]
fn fresh_sequence_takes_its_full_room_then_refuses() {
    let mut client = Client::new(random_key(), random_key(), PRICE, 100, QUORUM);
    let mut net = Network::default();
    let address = store_private(&mut client, &mut net, 5);
    for i in 0..21u8 {
        append(&mut client, &mut net, address, &[i]).unwrap();
    }
    let balance = client.get_local_balance();
    assert_eq!(client.append_to_sequence(address, b"one more".to_vec()).err(), Some(CoreError::NoRoom));
    assert!(client.pending_transfer().is_none());
    assert_eq!(client.get_local_balance(), balance);
    assert_eq!(client.get_sequence_last_entry(&address), Ok((20, vec![20u8])));
}

#[test]
fn fetched_replica_is_not_changed_locally() {
    let mut net = Network::default();
    let mut owner = Client::new(random_key(), random_key(), PRICE, 10, QUORUM);
    let address = store_private(&mut owner, &mut net, 6);
    owner.refresh_sequence(&address);
    let _ = read(&mut owner, &net, address).unwrap();
    assert_eq!(owner.append_to_sequence(address, b"x".to_vec()).err(), Some(CoreError::NoRoom));
    assert_eq!(owner.set_sequence_owner(address, random_key()).err(), Some(CoreError::NoRoom));
    assert!(owner.pending_transfer().is_none());
}

#[test]
fn store_with_too_many_initial_entries_is_refused() {
    let mut client = Client::new(random_key(), random_key(), PRICE, 10, QUORUM);
    let owner = client.public_key();
    let entries: Vec<Vec<u8>> = (0..22u8).map(|i| vec![i]).collect();
    let res = client.store_private_sequence(Some(entries), [4; 32], 1, owner, vec![(owner, all_rights())]);
    assert_eq!(res.err(), Some(CoreError::NoRoom));
    assert!(client.pending_transfer().is_none());
    assert_eq!(client.get_local_balance(), 10);
}

#[test]
fn stored_plan_sends_the_cached_snapshot() {
    let mut client = Client::new(random_key(), random_key(), PRICE, 10, QUORUM);
    let owner = client.public_key();
    let other = random_key();
    let perms = vec![(owner, all_rights()), (other, PrivUserPermissions { read: true, append: false, manage_permissions: false })];
    let plan = client.store_private_sequence(None, [9; 32], 44, owner, perms).unwrap();
    let cached = &plan.write.updated.as_ref().unwrap().data;
    match &plan.write.op {
        WriteOp::New(sent) => assert!(sent == cached),
        _ => panic!("a store sends the new sequence"),
    }
    assert_eq!(cached.name().0, [9; 32]);
    assert_eq!(cached.tag(), 44);
    assert!(cached.is_priv());
    assert_eq!(cached.permissions_index(), 1);
}
