//! The client: one identity's ledger and replica cache, and the decisions of
//! each money transfer and each paid write. The network work between the
//! steps (broadcast, queries, commands) is done by the caller, which hands
//! each outcome back.
use vstd::prelude::*;
use safe_nd::{PublicKey, SData, SDataMutationOperation, SDataOwner, SDataPrivPermissions, SDataPubPermissions};
use crate::cache::ReplicaCache;
use crate::error::CoreError;
use crate::ledger::{LedgerView, PaymentProof, TransferActor, TransferRequest, ValidationOutcome, ValidationShare};
use crate::sequence::{
    address_of, append_entry, op_entry, op_owner, op_priv_perms, op_pub_perms, check_permission, check_private, current_owner, entries_index, entries_of,
    entries_room, facets_of, in_range, is_private_data, last_entry, map_of, new_private_data,
    new_public_data, owners_of, perms_count, permits, priv_perms_of, priv_permissions, pub_perms_of,
    pub_permissions, push_owner, push_priv_permissions, push_pub_permissions, range_of,
    user_permissions, user_permissions_of, views_of, Facets, PrivUserPermissions, PubUserPermissions,
    Replica, Room, SeqAction, SeqAddress, SeqIndex, SeqUser, UserPermissions, FRESH_ROOM,
};

verus! {

/// The mutation a paid write sends to the network.
pub enum WriteOp {
    New(SData),
    Append(SDataMutationOperation<Vec<u8>>),
    SetOwner(SDataMutationOperation<SDataOwner>),
    SetPrivPermissions(SDataMutationOperation<SDataPrivPermissions>),
    SetPubPermissions(SDataMutationOperation<SDataPubPermissions>),
    Delete,
}

/// A write waiting for its payment and for the network's answer.
pub struct PendingWrite {
    pub address: SeqAddress,
    pub op: WriteOp,
    /// The replica the cache takes once the write succeeds; `None` for a delete.
    pub updated: Option<Replica>,
}

impl PendingWrite {
    /// The replica to cache carries true bounds on its room.
    pub open spec fn wf(self) -> bool {
        self.updated matches Some(u) ==> u.wf()
    }
}

/// A write that passed the local checks, with the payment initiated for it.
pub struct WritePlan {
    pub write: PendingWrite,
    pub payment: TransferRequest,
}

/// The network's answer to a query for a sequence.
pub enum SequenceResponse {
    Found(SData),
    Failed(CoreError),
    /// An answer of another kind than asked for.
    Other,
}

/// The network's answer to a balance query.
pub enum BalanceResponse {
    Balance(u64),
    Failed(CoreError),
    /// An answer of another kind than asked for.
    Other,
}

/// An event from a validator.
pub enum ValidationEvent {
    Validated(ValidationShare),
    /// Any event other than a transfer validation.
    Other,
}

/// The client as a mathematical value.
pub struct ClientView {
    pub key: PublicKey,
    pub payee: PublicKey,
    pub write_price: u64,
    pub ledger: LedgerView,
    pub cache: Map<SeqAddress, Replica>,
}

impl ClientView {
    /// The ledger is well formed and every cached replica's room bounds hold.
    pub open spec fn wf(self) -> bool {
        &&& self.ledger.wf()
        &&& forall|a: SeqAddress| #[trigger] self.cache.contains_key(a) ==> self.cache[a].wf()
    }

    /// The cached snapshot at `a`.
    pub open spec fn snapshot(self, a: SeqAddress) -> SData {
        self.cache[a].data
    }
}

/// One identity's client state.
pub struct Client {
    key: PublicKey,
    payee: PublicKey,
    write_price: u64,
    actor: TransferActor,
    cache: ReplicaCache,
}

impl View for Client {
    type V = ClientView;

    closed spec fn view(&self) -> ClientView {
        ClientView {
            key: self.key,
            payee: self.payee,
            write_price: self.write_price,
            ledger: self.actor@,
            cache: self.cache@,
        }
    }
}

impl ClientView {
    /// What initiating the payment for one write returns.
    pub open spec fn pay_result(self) -> Result<TransferRequest, CoreError> {
        self.ledger.initiate_result(self.write_price, self.payee)
    }

    /// The client after a write passed its local checks: the payment is initiated.
    pub open spec fn paid(self) -> ClientView {
        ClientView { ledger: self.ledger.initiated(self.write_price, self.payee), ..self }
    }

    /// The client after a write came back from the network with `outcome`: on
    /// success the cache takes the new replica, or drops a deleted object.
    pub open spec fn written(self, w: PendingWrite, outcome: Result<(), CoreError>) -> ClientView {
        match (outcome, w.updated) {
            (Ok(_), Some(d)) => ClientView { cache: self.cache.insert(w.address, d), ..self },
            (Ok(_), None) => ClientView { cache: self.cache.remove(w.address), ..self },
            (Err(_), _) => self,
        }
    }
}

/// Whether `r` is a plan for a write at `address` whose payment is `req`.
pub open spec fn plans(r: Result<WritePlan, CoreError>, address: SeqAddress, req: Result<TransferRequest, CoreError>) -> bool {
    match req {
        Ok(p) => r matches Ok(plan) && plan.payment == p && plan.write.address == address,
        Err(e) => r matches Err(x) && x == e,
    }
}

impl Client {
    /// The client's invariant: its ledger and cache are well formed.
    pub closed spec fn wf(&self) -> bool {
        self@.wf() && self.cache.wf()
    }

    /// A well-formed client has a well-formed view, ledger included.
    pub proof fn lemma_wf(&self)
        requires
            self.wf(),
        ensures
            self@.wf(),
            self@.ledger.wf(),
    {
    }

    /// A client acting as `key` with `balance`, paying `write_price` to `payee`
    /// for each write; a transfer needs `quorum` distinct validators.
    pub fn new(key: PublicKey, payee: PublicKey, write_price: u64, balance: u64, quorum: u64) -> (r: Client)
        requires
            quorum >= 1,
        ensures
            r.wf(),
            r@.key == key,
            r@.payee == payee,
            r@.write_price == write_price,
            r@.ledger == LedgerView::fresh(balance, quorum),
            r@.cache == Map::<SeqAddress, Replica>::empty(),
    {
        Client { key, payee, write_price, actor: TransferActor::new(balance, quorum), cache: ReplicaCache::new() }
    }

    /// The key this client acts as.
    pub fn public_key(&self) -> (r: PublicKey)
        ensures
            r == self@.key,
    {
        self.key
    }

    /// The balance known locally, without asking the network.
    pub fn get_local_balance(&self) -> (r: u64)
        ensures
            r == self@.ledger.balance,
    {
        self.actor.balance()
    }

    /// The debit counter value the next transfer will use.
    pub fn debit_counter(&self) -> (r: u64)
        ensures
            r == self@.ledger.debit_counter,
    {
        self.actor.debit_counter()
    }

    /// The transfer initiated and not yet registered, to resume it.
    pub fn pending_transfer(&self) -> (r: Option<TransferRequest>)
        ensures
            r == self@.ledger.pending,
    {
        self.actor.pending_transfer()
    }

    /// The proof already obtained for the transfer in flight, if any, so that
    /// a failed registration can be sent again.
    pub fn pending_proof(&self) -> (r: Option<PaymentProof>)
        ensures
            r == self@.ledger.pending_proof(),
    {
        self.actor.pending_proof()
    }

    /// The proof to register `transfer` with, when it was already obtained:
    /// `transfer` is the one in flight, resumed after a failed registration.
    /// Otherwise the validators must be asked.
    pub fn resumable_proof(&self, transfer: &TransferRequest) -> (r: Option<PaymentProof>)
        ensures
            r == match self@.ledger.pending_proof() {
                Some(p) => if p.id == transfer.id { Some(p) } else { None::<PaymentProof> },
                None => None,
            },
    {
        match self.actor.pending_proof() {
            Some(p) => if p.id == transfer.id { Some(p) } else { None },
            None => None,
        }
    }

    /// Starts sending `amount` to `to`: the transfer is recorded as initiated
    /// and the request to broadcast for validation is returned. A retry of the
    /// transfer in flight resumes it, with the same debit counter value.
    pub fn send_money(&mut self, to: PublicKey, amount: u64) -> (r: Result<TransferRequest, CoreError>)
        requires
            old(self).wf(),
        ensures
            final(self).wf(),
            r == old(self)@.ledger.initiate_result(amount, to),
            final(self)@ == (ClientView { ledger: old(self)@.ledger.initiated(amount, to), ..old(self)@ }),
    {
        self.actor.initiate(amount, to)
    }

    /// Takes a validator's event for the transfer in flight. A validation that
    /// completes the quorum yields the payment proof; a repeated or
    /// inapplicable one yields nothing; any other event is refused.
    pub fn handle_validation_event(&mut self, event: ValidationEvent) -> (r: Result<Option<PaymentProof>, CoreError>)
        requires
            old(self).wf(),
        ensures
            final(self).wf(),
            match event {
                ValidationEvent::Other => r == Err::<Option<PaymentProof>, CoreError>(CoreError::UnexpectedResponse)
                    && final(self)@ == old(self)@,
                ValidationEvent::Validated(share) => {
                    &&& final(self)@ == (ClientView { ledger: old(self)@.ledger.received(share), ..old(self)@ })
                    &&& r == match old(self)@.ledger.receive_outcome(share) {
                        ValidationOutcome::ProofReady(p) => Ok(Some(p)),
                        ValidationOutcome::Conflict => Err(CoreError::InvalidOperation),
                        _ => Ok(None),
                    }
                },
            },
    {
        let share = match event {
            ValidationEvent::Validated(share) => share,
            ValidationEvent::Other => return Err(CoreError::UnexpectedResponse),
        };
        proof {
            crate::ledger::lemma_received_keeps_wf(self.actor@, share);
        }
        match self.actor.receive(share) {
            ValidationOutcome::ProofReady(p) => Ok(Some(p)),
            ValidationOutcome::Conflict => Err(CoreError::InvalidOperation),
            _ => Ok(None),
        }
    }

    /// Finishes a transfer once the registration carrying `proof` was sent:
    /// if sending failed the transfer stays initiated, to be resumed; else
    /// the debit is committed to the ledger.
    pub fn register_transfer(&mut self, proof: PaymentProof, sent: Result<(), CoreError>) -> (r: Result<(), CoreError>)
        requires
            old(self).wf(),
        ensures
            final(self).wf(),
            match sent {
                Err(e) => r == Err::<(), CoreError>(e) && final(self)@ == old(self)@,
                Ok(_) => r == old(self)@.ledger.register_result(proof)
                    && final(self)@ == (ClientView { ledger: old(self)@.ledger.registered(proof), ..old(self)@ }),
            },
    {
        match sent {
            Err(e) => Err(e),
            Ok(_) => self.actor.register(proof),
        }
    }

    /// Applies a transfer received from another identity.
    pub fn receive_money(&mut self, amount: u64) -> (r: Result<(), CoreError>)
        requires
            old(self).wf(),
        ensures
            final(self).wf(),
            r == old(self)@.ledger.credit_result(amount),
            final(self)@ == (ClientView { ledger: old(self)@.ledger.credited(amount), ..old(self)@ }),
    {
        self.actor.credit(amount)
    }

    /// Reads the balance out of the network's answer to a balance query.
    pub fn balance_from_response(resp: BalanceResponse) -> (r: Result<u64, CoreError>)
        ensures
            r == match resp {
                BalanceResponse::Balance(b) => Ok(b),
                BalanceResponse::Failed(e) => Err(e),
                BalanceResponse::Other => Err(CoreError::UnexpectedResponse),
            },
    {
        match resp {
            BalanceResponse::Balance(b) => Ok(b),
            BalanceResponse::Failed(e) => Err(e),
            BalanceResponse::Other => Err(CoreError::UnexpectedResponse),
        }
    }

    /// The cached snapshot of the sequence at `address`, if any: a hit may be
    /// stale; a miss means the network must be asked.
    pub fn get_sequence(&self, address: &SeqAddress) -> (r: Option<SData>)
        requires
            self.wf(),
        ensures
            r == if self@.cache.contains_key(*address) { Some(self@.snapshot(*address)) } else { None::<SData> },
    {
        match self.cache.get(address) {
            Some(rep) => Some(rep.data),
            None => None,
        }
    }

    /// Takes the network's answer to a query for the sequence at `address`: a
    /// found sequence is cached and returned; a failure is passed on, and
    /// nothing is cached. The depth of a fetched replica's CRDT lists is not
    /// known here, so it is cached with no room for local changes.
    pub fn store_fetched_sequence(&mut self, address: SeqAddress, resp: SequenceResponse) -> (r: Result<SData, CoreError>)
        requires
            old(self).wf(),
        ensures
            final(self).wf(),
            match resp {
                SequenceResponse::Found(d) => r == Ok::<SData, CoreError>(d)
                    && final(self)@ == (ClientView {
                        cache: old(self)@.cache.insert(address, Replica { data: d, room: Room { entries: 0, owners: 0, perms: 0 } }),
                        ..old(self)@
                    }),
                SequenceResponse::Failed(e) => r == Err::<SData, CoreError>(e) && final(self)@ == old(self)@,
                SequenceResponse::Other => r == Err::<SData, CoreError>(CoreError::UnexpectedResponse)
                    && final(self)@ == old(self)@,
            },
    {
        match resp {
            SequenceResponse::Found(d) => {
                self.cache.put(address, Replica { data: d.clone(), room: Room { entries: 0, owners: 0, perms: 0 } });
                Ok(d)
            },
            SequenceResponse::Failed(e) => Err(e),
            SequenceResponse::Other => Err(CoreError::UnexpectedResponse),
        }
    }

    /// Drops the cached snapshot at `address`, so that the next read asks the
    /// network for the authoritative state.
    pub fn refresh_sequence(&mut self, address: &SeqAddress)
        requires
            old(self).wf(),
        ensures
            final(self).wf(),
            final(self)@ == (ClientView { cache: old(self)@.cache.remove(*address), ..old(self)@ }),
    {
        self.cache.remove(address)
    }

    /// The cached replica at `address`, or `NotCached`.
    fn cached(&self, address: &SeqAddress) -> (r: Result<Replica, CoreError>)
        requires
            self.wf(),
        ensures
            r == if self@.cache.contains_key(*address) {
                Ok::<Replica, CoreError>(self@.cache[*address])
            } else {
                Err(CoreError::NotCached)
            },
            r matches Ok(rep) ==> rep.wf(),
    {
        match self.cache.get(address) {
            Some(d) => Ok(d),
            None => Err(CoreError::NotCached),
        }
    }

    /// Initiates the payment for `write`, and on success hands back the plan.
    fn plan_write(&mut self, write: PendingWrite) -> (r: Result<WritePlan, CoreError>)
        requires
            old(self).wf(),
        ensures
            final(self).wf(),
            plans(r, write.address, old(self)@.pay_result()),
            final(self)@ == old(self)@.paid(),
            r matches Ok(plan) ==> (plan.write == write),
    {
        match self.actor.initiate(self.write_price, self.payee) {
            Ok(payment) => Ok(WritePlan { write, payment }),
            Err(e) => Err(e),
        }
    }

    /// Prepares appending `entry` to the sequence at `address`. The cached
    /// snapshot must grant this client the right to append: if it does not,
    /// nothing is paid and nothing is to be sent. Nor is anything when the
    /// replica has no room for another local entry. Otherwise the payment is
    /// initiated and the plan carries the snapshot with `entry` last.
    pub fn append_to_sequence(&mut self, address: SeqAddress, entry: Vec<u8>) -> (r: Result<WritePlan, CoreError>)
        requires
            old(self).wf(),
        ensures
            final(self).wf(),
            r matches Ok(plan) ==> plan.write.wf(),
            refused(old(self)@, final(self)@, address, SeqAction::Append, r) || {
                let rep = old(self)@.cache[address];
                &&& rep.room.entries == 0 ==> r == Err::<WritePlan, CoreError>(CoreError::NoRoom) && final(self)@ == old(self)@
                &&& rep.room.entries > 0 ==> {
                    &&& plans(r, address, old(self)@.pay_result())
                    &&& final(self)@ == old(self)@.paid()
                    &&& r matches Ok(plan) ==> (plan.write.updated matches Some(u)
                        && appended(rep.data, u.data, entry@) && (plan.write.op matches WriteOp::Append(op) && op_entry(op) == entry@))
                }
            },
            !refused(old(self)@, final(self)@, address, SeqAction::Append, r) ==> old(self)@.cache.contains_key(address)
                && permits(old(self)@.snapshot(address), SeqAction::Append, old(self)@.key),
    {
        let rep = match self.cached(&address) {
            Ok(rep) => rep,
            Err(e) => return Err(e),
        };
        if !check_permission(&rep.data, SeqAction::Append, self.key) {
            return Err(CoreError::PermissionDenied);
        }
        if rep.room.entries == 0 {
            return Err(CoreError::NoRoom);
        }
        let mut d = rep.data;
        let op = append_entry(&mut d, entry);
        let room = Room { entries: rep.room.entries - 1, ..rep.room };
        self.plan_write(PendingWrite { address, op: WriteOp::Append(op), updated: Some(Replica { data: d, room }) })
    }

    /// Prepares making `owner` the owner of the sequence at `address`; the
    /// cached snapshot must grant this client the right to manage permissions,
    /// and the replica must have room for another owner.
    pub fn set_sequence_owner(&mut self, address: SeqAddress, owner: PublicKey) -> (r: Result<WritePlan, CoreError>)
        requires
            old(self).wf(),
        ensures
            final(self).wf(),
            r matches Ok(plan) ==> plan.write.wf(),
            refused(old(self)@, final(self)@, address, SeqAction::ManagePermissions, r) || {
                let rep = old(self)@.cache[address];
                &&& rep.room.owners == 0 ==> r == Err::<WritePlan, CoreError>(CoreError::NoRoom) && final(self)@ == old(self)@
                &&& rep.room.owners > 0 ==> {
                    &&& plans(r, address, old(self)@.pay_result())
                    &&& final(self)@ == old(self)@.paid()
                    &&& r matches Ok(plan) ==> (plan.write.updated matches Some(u)
                        && reowned(rep.data, u.data, owner) && (plan.write.op matches WriteOp::SetOwner(op) && op_owner(op) == owner))
                }
            },
            !refused(old(self)@, final(self)@, address, SeqAction::ManagePermissions, r) ==> old(self)@.cache.contains_key(address)
                && permits(old(self)@.snapshot(address), SeqAction::ManagePermissions, old(self)@.key),
    {
        let rep = match self.cached(&address) {
            Ok(rep) => rep,
            Err(e) => return Err(e),
        };
        if !check_permission(&rep.data, SeqAction::ManagePermissions, self.key) {
            return Err(CoreError::PermissionDenied);
        }
        if rep.room.owners == 0 {
            return Err(CoreError::NoRoom);
        }
        let mut d = rep.data;
        let op = push_owner(&mut d, owner);
        let room = Room { owners: rep.room.owners - 1, ..rep.room };
        self.plan_write(PendingWrite { address, op: WriteOp::SetOwner(op), updated: Some(Replica { data: d, room }) })
    }

    /// Prepares replacing the permissions of the private sequence at
    /// `address` by the set `perms` builds; the cached snapshot must grant
    /// this client the right to manage permissions, a public sequence refuses
    /// private permissions, and the replica must have room for another set.
    pub fn edit_sequence_private_perms(&mut self, address: SeqAddress, perms: Vec<(PublicKey, PrivUserPermissions)>) -> (r: Result<WritePlan, CoreError>)
        requires
            old(self).wf(),
        ensures
            final(self).wf(),
            r matches Ok(plan) ==> plan.write.wf(),
            refused(old(self)@, final(self)@, address, SeqAction::ManagePermissions, r) || perms_edit_ensures(
                old(self)@, final(self)@, address, r, true,
                Facets { perms_count: perms_count(old(self)@.snapshot(address)) + 1, priv_perms: map_of(perms@), ..facets_of(old(self)@.snapshot(address)) },
            ),
            !refused(old(self)@, final(self)@, address, SeqAction::ManagePermissions, r) ==> old(self)@.cache.contains_key(address)
                && permits(old(self)@.snapshot(address), SeqAction::ManagePermissions, old(self)@.key),
    {
        let rep = match self.cached(&address) {
            Ok(rep) => rep,
            Err(e) => return Err(e),
        };
        if !check_permission(&rep.data, SeqAction::ManagePermissions, self.key) {
            return Err(CoreError::PermissionDenied);
        }
        if !check_private(&rep.data) {
            return Err(CoreError::InvalidOperation);
        }
        if rep.room.perms == 0 {
            return Err(CoreError::NoRoom);
        }
        let mut d = rep.data;
        let room = Room { perms: rep.room.perms - 1, ..rep.room };
        match push_priv_permissions(&mut d, perms) {
            Some(op) => self.plan_write(PendingWrite { address, op: WriteOp::SetPrivPermissions(op), updated: Some(Replica { data: d, room }) }),
            None => Err(CoreError::InvalidOperation),
        }
    }

    /// Prepares replacing the permissions of the public sequence at
    /// `address` by the set `perms` builds; the cached snapshot must grant
    /// this client the right to manage permissions, a private sequence refuses
    /// public permissions, and the replica must have room for another set.
    pub fn edit_sequence_public_perms(&mut self, address: SeqAddress, perms: Vec<(SeqUser, PubUserPermissions)>) -> (r: Result<WritePlan, CoreError>)
        requires
            old(self).wf(),
        ensures
            final(self).wf(),
            r matches Ok(plan) ==> plan.write.wf(),
            refused(old(self)@, final(self)@, address, SeqAction::ManagePermissions, r) || perms_edit_ensures(
                old(self)@, final(self)@, address, r, false,
                Facets { perms_count: perms_count(old(self)@.snapshot(address)) + 1, pub_perms: map_of(perms@), ..facets_of(old(self)@.snapshot(address)) },
            ),
            !refused(old(self)@, final(self)@, address, SeqAction::ManagePermissions, r) ==> old(self)@.cache.contains_key(address)
                && permits(old(self)@.snapshot(address), SeqAction::ManagePermissions, old(self)@.key),
    {
        let rep = match self.cached(&address) {
            Ok(rep) => rep,
            Err(e) => return Err(e),
        };
        if !check_permission(&rep.data, SeqAction::ManagePermissions, self.key) {
            return Err(CoreError::PermissionDenied);
        }
        if check_private(&rep.data) {
            return Err(CoreError::InvalidOperation);
        }
        if rep.room.perms == 0 {
            return Err(CoreError::NoRoom);
        }
        let mut d = rep.data;
        let room = Room { perms: rep.room.perms - 1, ..rep.room };
        match push_pub_permissions(&mut d, perms) {
            Some(op) => self.plan_write(PendingWrite { address, op: WriteOp::SetPubPermissions(op), updated: Some(Replica { data: d, room }) }),
            None => Err(CoreError::InvalidOperation),
        }
    }

    /// Prepares deleting the sequence at `address`. Whether the object may be
    /// deleted (only a private one may) is for the network to decide.
    pub fn delete_sequence(&mut self, address: SeqAddress) -> (r: Result<WritePlan, CoreError>)
        requires
            old(self).wf(),
        ensures
            final(self).wf(),
            r matches Ok(plan) ==> plan.write.wf(),
            plans(r, address, old(self)@.pay_result()),
            final(self)@ == old(self)@.paid(),
            r matches Ok(plan) ==> (plan.write.op is Delete && plan.write.updated is None),
    {
        self.plan_write(PendingWrite { address, op: WriteOp::Delete, updated: None })
    }

    /// Builds a new private sequence named `name` with `tag`, owned by
    /// `owner`, with the permission set `perms` builds and the given entries,
    /// and prepares storing it: the op sent is the very snapshot cached.
    pub fn store_private_sequence(
        &mut self,
        entries: Option<Vec<Vec<u8>>>,
        name: [u8; 32],
        tag: u64,
        owner: PublicKey,
        perms: Vec<(PublicKey, PrivUserPermissions)>,
    ) -> (r: Result<WritePlan, CoreError>)
        requires
            old(self).wf(),
        ensures
            final(self).wf(),
            r matches Ok(plan) ==> plan.write.wf(),
            initial_entries(entries).len() > FRESH_ROOM ==>
                r == Err::<WritePlan, CoreError>(CoreError::NoRoom) && final(self)@ == old(self)@,
            initial_entries(entries).len() <= FRESH_ROOM ==> {
                &&& plans(r, SeqAddress { name, tag, private: true }, old(self)@.pay_result())
                &&& final(self)@ == old(self)@.paid()
                &&& r matches Ok(plan) ==> (plan.write.updated matches Some(u)
                    && plan.write.op == WriteOp::New(u.data)
                    && created(u.data, entries, SeqAddress { name, tag, private: true }, owner)
                    && priv_perms_of(u.data) == map_of(perms@))
            },
    {
        let n: usize = match &entries {
            Some(v) => v.len(),
            None => 0,
        };
        if n > FRESH_ROOM as usize {
            return Err(CoreError::NoRoom);
        }
        let mut d = new_private_data(self.key, name, tag);
        let _ = push_priv_permissions(&mut d, perms);
        let _ = push_owner(&mut d, owner);
        append_all(&mut d, entries);
        let room = Room { entries: FRESH_ROOM - n as u64, owners: FRESH_ROOM - 1, perms: FRESH_ROOM - 1 };
        let address = SeqAddress { name, tag, private: true };
        self.plan_write(PendingWrite { address, op: WriteOp::New(d.clone()), updated: Some(Replica { data: d, room }) })
    }

    /// Builds a new public sequence named `name` with `tag`, owned by
    /// `owner`, with the permission set `perms` builds and the given entries,
    /// and prepares storing it: the op sent is the very snapshot cached.
    pub fn store_public_sequence(
        &mut self,
        entries: Option<Vec<Vec<u8>>>,
        name: [u8; 32],
        tag: u64,
        owner: PublicKey,
        perms: Vec<(SeqUser, PubUserPermissions)>,
    ) -> (r: Result<WritePlan, CoreError>)
        requires
            old(self).wf(),
        ensures
            final(self).wf(),
            r matches Ok(plan) ==> plan.write.wf(),
            initial_entries(entries).len() > FRESH_ROOM ==>
                r == Err::<WritePlan, CoreError>(CoreError::NoRoom) && final(self)@ == old(self)@,
            initial_entries(entries).len() <= FRESH_ROOM ==> {
                &&& plans(r, SeqAddress { name, tag, private: false }, old(self)@.pay_result())
                &&& final(self)@ == old(self)@.paid()
                &&& r matches Ok(plan) ==> (plan.write.updated matches Some(u)
                    && plan.write.op == WriteOp::New(u.data)
                    && created(u.data, entries, SeqAddress { name, tag, private: false }, owner)
                    && pub_perms_of(u.data) == map_of(perms@))
            },
    {
        let n: usize = match &entries {
            Some(v) => v.len(),
            None => 0,
        };
        if n > FRESH_ROOM as usize {
            return Err(CoreError::NoRoom);
        }
        let mut d = new_public_data(self.key, name, tag);
        let _ = push_pub_permissions(&mut d, perms);
        let _ = push_owner(&mut d, owner);
        append_all(&mut d, entries);
        let room = Room { entries: FRESH_ROOM - n as u64, owners: FRESH_ROOM - 1, perms: FRESH_ROOM - 1 };
        let address = SeqAddress { name, tag, private: false };
        self.plan_write(PendingWrite { address, op: WriteOp::New(d.clone()), updated: Some(Replica { data: d, room }) })
    }

    /// Takes the network's answer to a paid write. On success the cache takes
    /// the new replica, or drops a deleted object; on failure it is left as
    /// it was, and the answer is passed on.
    pub fn finish_write(&mut self, write: PendingWrite, outcome: Result<(), CoreError>) -> (r: Result<(), CoreError>)
        requires
            old(self).wf(),
            write.wf(),
        ensures
            final(self).wf(),
            r == outcome,
            final(self)@ == old(self)@.written(write, outcome),
    {
        if outcome.is_ok() {
            match write.updated {
                Some(d) => self.cache.put(write.address, d),
                None => self.cache.remove(&write.address),
            }
        }
        outcome
    }

    /// The last entry of the cached sequence at `address`, with its index.
    pub fn get_sequence_last_entry(&self, address: &SeqAddress) -> (r: Result<(u64, Vec<u8>), CoreError>)
        requires
            self.wf(),
        ensures
            !self@.cache.contains_key(*address) ==> r == Err::<(u64, Vec<u8>), CoreError>(CoreError::NotCached),
            self@.cache.contains_key(*address) ==> {
                let es = entries_of(self@.snapshot(*address));
                &&& es.len() == 0 ==> r == Err::<(u64, Vec<u8>), CoreError>(CoreError::NoSuchEntry)
                &&& es.len() > 0 ==> (r matches Ok((i, e)) && i == es.len() - 1 && e@ == es.last())
            },
    {
        let d = match self.cached(address) {
            Ok(rep) => rep.data,
            Err(e) => return Err(e),
        };
        let n = entries_index(&d);
        match last_entry(&d) {
            Some(e) => Ok((n - 1, e)),
            None => Err(CoreError::NoSuchEntry),
        }
    }

    /// The entries of the cached sequence at `address` from `start` up to,
    /// not including, `end`; `NoSuchEntry` when that range is empty or lies
    /// outside the sequence.
    pub fn get_sequence_range(&self, address: &SeqAddress, start: SeqIndex, end: SeqIndex) -> (r: Result<Vec<Vec<u8>>, CoreError>)
        requires
            self.wf(),
        ensures
            !self@.cache.contains_key(*address) ==> r == Err::<Vec<Vec<u8>>, CoreError>(CoreError::NotCached),
            self@.cache.contains_key(*address) ==> match range_of(entries_of(self@.snapshot(*address)), start, end) {
                Some(es) => (r matches Ok(v) && views_of(v@) == es),
                None => r == Err::<Vec<Vec<u8>>, CoreError>(CoreError::NoSuchEntry),
            },
    {
        let d = match self.cached(address) {
            Ok(rep) => rep.data,
            Err(e) => return Err(e),
        };
        match in_range(&d, start, end) {
            Some(v) => Ok(v),
            None => Err(CoreError::NoSuchEntry),
        }
    }

    /// The current owner of the cached sequence at `address`.
    pub fn get_sequence_owner(&self, address: &SeqAddress) -> (r: Result<PublicKey, CoreError>)
        requires
            self.wf(),
        ensures
            !self@.cache.contains_key(*address) ==> r == Err::<PublicKey, CoreError>(CoreError::NotCached),
            self@.cache.contains_key(*address) ==> {
                let os = owners_of(self@.snapshot(*address));
                &&& os.len() == 0 ==> r == Err::<PublicKey, CoreError>(CoreError::InvalidOwners)
                &&& os.len() > 0 ==> r == Ok::<PublicKey, CoreError>(os.last())
            },
    {
        let d = match self.cached(address) {
            Ok(rep) => rep.data,
            Err(e) => return Err(e),
        };
        match current_owner(&d) {
            Some(k) => Ok(k),
            None => Err(CoreError::InvalidOwners),
        }
    }

    /// The current permissions of the cached private sequence at `address`;
    /// a public sequence has none of this flavour.
    pub fn get_sequence_private_permissions(&self, address: &SeqAddress) -> (r: Result<Vec<(PublicKey, PrivUserPermissions)>, CoreError>)
        requires
            self.wf(),
        ensures
            !self@.cache.contains_key(*address) ==> (r matches Err(e) && e == CoreError::NotCached),
            self@.cache.contains_key(*address) ==> {
                let d = self@.snapshot(*address);
                &&& !is_private_data(d) ==> (r matches Err(e) && e == CoreError::InvalidOperation)
                &&& is_private_data(d) && perms_count(d) == 0 ==> (r matches Err(e) && e == CoreError::NoSuchEntry)
                &&& is_private_data(d) && perms_count(d) > 0 ==> (r matches Ok(v) && map_of(v@) == priv_perms_of(d))
            },
    {
        let d = match self.cached(address) {
            Ok(rep) => rep.data,
            Err(e) => return Err(e),
        };
        match priv_permissions(&d) {
            Some(v) => Ok(v),
            None => if check_private(&d) { Err(CoreError::NoSuchEntry) } else { Err(CoreError::InvalidOperation) },
        }
    }

    /// The current permissions of the cached public sequence at `address`;
    /// a private sequence has none of this flavour.
    pub fn get_sequence_pub_permissions(&self, address: &SeqAddress) -> (r: Result<Vec<(SeqUser, PubUserPermissions)>, CoreError>)
        requires
            self.wf(),
        ensures
            !self@.cache.contains_key(*address) ==> (r matches Err(e) && e == CoreError::NotCached),
            self@.cache.contains_key(*address) ==> {
                let d = self@.snapshot(*address);
                &&& is_private_data(d) ==> (r matches Err(e) && e == CoreError::InvalidOperation)
                &&& !is_private_data(d) && perms_count(d) == 0 ==> (r matches Err(e) && e == CoreError::NoSuchEntry)
                &&& !is_private_data(d) && perms_count(d) > 0 ==> (r matches Ok(v) && map_of(v@) == pub_perms_of(d))
            },
    {
        let d = match self.cached(address) {
            Ok(rep) => rep.data,
            Err(e) => return Err(e),
        };
        match pub_permissions(&d) {
            Some(v) => Ok(v),
            None => if check_private(&d) { Err(CoreError::InvalidOperation) } else { Err(CoreError::NoSuchEntry) },
        }
    }

    /// The rights the current permissions of the cached sequence at `address`
    /// give `user`; `NoSuchEntry` when they name no rights for `user`.
    pub fn get_sequence_user_permissions(&self, address: &SeqAddress, user: SeqUser) -> (r: Result<UserPermissions, CoreError>)
        requires
            self.wf(),
        ensures
            !self@.cache.contains_key(*address) ==> r == Err::<UserPermissions, CoreError>(CoreError::NotCached),
            self@.cache.contains_key(*address) ==> match user_permissions_of(self@.snapshot(*address), user) {
                Some(p) => r == Ok::<UserPermissions, CoreError>(p),
                None => r == Err::<UserPermissions, CoreError>(CoreError::NoSuchEntry),
            },
    {
        let d = match self.cached(address) {
            Ok(rep) => rep.data,
            Err(e) => return Err(e),
        };
        match user_permissions(&d, user) {
            Some(p) => Ok(p),
            None => Err(CoreError::NoSuchEntry),
        }
    }
}

/// The local checks a mutation of `address` needing `action` refused: the
/// object is not cached, or its snapshot does not grant this client the right;
/// then nothing is paid and nothing is to be sent.
pub open spec fn refused(before: ClientView, after: ClientView, address: SeqAddress, action: SeqAction, r: Result<WritePlan, CoreError>) -> bool {
    if !before.cache.contains_key(address) {
        r == Err::<WritePlan, CoreError>(CoreError::NotCached) && after == before
    } else if !permits(before.snapshot(address), action, before.key) {
        r == Err::<WritePlan, CoreError>(CoreError::PermissionDenied) && after == before
    } else {
        false
    }
}

/// `d` is `d0` with `entry` appended, all else alike.
pub open spec fn appended(d0: SData, d: SData, entry: Seq<u8>) -> bool {
    facets_of(d) == (Facets { entries: entries_of(d0).push(entry), entries_room: entries_room(d), ..facets_of(d0) })
}

/// `d` is `d0` with `owner` as its new owner, all else alike.
pub open spec fn reowned(d0: SData, d: SData, owner: PublicKey) -> bool {
    facets_of(d) == (Facets {
        owners: owners_of(d0).push(owner),
        owners_room: facets_of(d).owners_room,
        ..facets_of(d0)
    })
}

/// The entries a new sequence starts with.
pub open spec fn initial_entries(entries: Option<Vec<Vec<u8>>>) -> Seq<Seq<u8>> {
    match entries {
        Some(v) => views_of(v@),
        None => Seq::empty(),
    }
}

/// `d` is a new sequence at `address`, owned by `owner`, with one
/// permission set and the given entries.
pub open spec fn created(d: SData, entries: Option<Vec<Vec<u8>>>, address: SeqAddress, owner: PublicKey) -> bool {
    &&& address_of(d) == address
    &&& entries_of(d) == initial_entries(entries)
    &&& owners_of(d) == seq![owner]
    &&& perms_count(d) == 1
}

/// What editing the permissions of the cached sequence at `address` ensures
/// once the right to manage them was granted, for private permissions when
/// `private` holds, else for public ones: the snapshot's facets become
/// `expected`, but for the room.
pub open spec fn perms_edit_ensures(
    before: ClientView,
    after: ClientView,
    address: SeqAddress,
    r: Result<WritePlan, CoreError>,
    private: bool,
    expected: Facets,
) -> bool {
    let rep = before.cache[address];
    if is_private_data(rep.data) != private {
        r == Err::<WritePlan, CoreError>(CoreError::InvalidOperation) && after == before
    } else if rep.room.perms == 0 {
        r == Err::<WritePlan, CoreError>(CoreError::NoRoom) && after == before
    } else {
        &&& plans(r, address, before.pay_result())
        &&& after == before.paid()
        &&& r matches Ok(plan) ==> (plan.write.updated matches Some(u)
            && facets_of(u.data) == (Facets { perms_room: facets_of(u.data).perms_room, ..expected })
            && (if private {
                plan.write.op matches WriteOp::SetPrivPermissions(op) && op_priv_perms(op) == expected.priv_perms
            } else {
                plan.write.op matches WriteOp::SetPubPermissions(op) && op_pub_perms(op) == expected.pub_perms
            }))
    }
}

/// Appends each of `entries`, in order.
fn append_all(d: &mut SData, entries: Option<Vec<Vec<u8>>>)
    requires
        initial_entries(entries).len() <= entries_room(*old(d)),
    ensures
        facets_of(*final(d)) == (Facets {
            entries: entries_of(*old(d)) + initial_entries(entries),
            entries_room: entries_room(*final(d)),
            ..facets_of(*old(d))
        }),
        entries_room(*final(d)) + initial_entries(entries).len() >= entries_room(*old(d)),
{
    let mut v = match entries {
        Some(v) => v,
        None => {
            assert(entries_of(*d) + Seq::<Seq<u8>>::empty() =~= entries_of(*d));
            return;
        },
    };
    let ghost all = v@;
    let ghost f0 = facets_of(*d);
    let mut i: usize = 0;
    let n: usize = v.len();
    assert(all.len() == n);
    while v.len() > 0
        invariant
            i <= all.len(),
            all.len() <= usize::MAX,
            all.len() <= f0.entries_room,
            v@ == all.skip(i as int),
            facets_of(*d) == (Facets {
                entries: f0.entries + views_of(all.take(i as int)),
                entries_room: entries_room(*d),
                ..f0
            }),
            entries_room(*d) + i >= f0.entries_room,
        decreases v@.len(),
    {
        let e = v.remove(0);
        assert(e == all[i as int]);
        let _ = append_entry(d, e);
        assert(views_of(all.take(i as int + 1)) =~= views_of(all.take(i as int)).push(e@));
        assert(v@ =~= all.skip(i as int + 1));
        i = i + 1;
    }
    assert(all.take(i as int) =~= all);
}

/// The snapshot after the first `k` of a chain of appends starting at `d0`.
pub open spec fn chain_at(d0: SData, ds: Seq<SData>, k: int) -> SData {
    if k == 0 { d0 } else { ds[k - 1] }
}

/// Appending entries one by one to a new sequence keeps them all, in the
/// order they were appended: the whole range reads them back, the last entry
/// is the last one appended, and nothing is found from index N on, N being
/// their number.
pub proof fn law_appends_read_back_in_order(d0: SData, ds: Seq<SData>, es: Seq<Seq<u8>>)
    requires
        entries_of(d0) == Seq::<Seq<u8>>::empty(),
        ds.len() == es.len(),
        es.len() <= u64::MAX,
        forall|i: int| 0 <= i < es.len() ==> appended(chain_at(d0, ds, i), #[trigger] ds[i], es[i]),
    ensures
        entries_of(chain_at(d0, ds, es.len() as int)) == es,
        es.len() > 0 ==> range_of(entries_of(chain_at(d0, ds, es.len() as int)), SeqIndex::FromStart(0), SeqIndex::FromEnd(0)) == Some(es),
        es.len() > 0 ==> entries_of(chain_at(d0, ds, es.len() as int)).last() == es.last(),
        range_of(entries_of(chain_at(d0, ds, es.len() as int)), SeqIndex::FromStart(es.len() as u64), SeqIndex::FromEnd(0)) is None,
{
    lemma_chain_entries(d0, ds, es, es.len() as int);
    assert(es.subrange(0, es.len() as int) =~= es);
}

/// After `k` appends of a chain, the entries are the first `k` appended.
pub proof fn lemma_chain_entries(d0: SData, ds: Seq<SData>, es: Seq<Seq<u8>>, k: int)
    requires
        entries_of(d0) == Seq::<Seq<u8>>::empty(),
        ds.len() == es.len(),
        0 <= k <= es.len(),
        forall|i: int| 0 <= i < es.len() ==> appended(chain_at(d0, ds, i), #[trigger] ds[i], es[i]),
    ensures
        entries_of(chain_at(d0, ds, k)) == es.take(k),
    decreases k,
{
    if k == 0 {
        assert(es.take(0) =~= Seq::<Seq<u8>>::empty());
    } else {
        lemma_chain_entries(d0, ds, es, k - 1);
        assert(appended(chain_at(d0, ds, k - 1), ds[k - 1], es[k - 1]));
        assert(es.take(k) =~= es.take(k - 1).push(es[k - 1]));
    }
}

/// What a delete leaves in the cache: once the network confirms it, the
/// object is gone from the cache, so the next read misses and asks the
/// network; when the network refuses it (a public object), the client,
/// cached object included, stays exactly as it was.
pub proof fn law_delete_outcomes(v: ClientView, w: PendingWrite, refusal: CoreError)
    requires
        w.updated is None,
    ensures
        !v.written(w, Ok(())).cache.contains_key(w.address),
        v.written(w, Ok(())).cache == v.cache.remove(w.address),
        v.written(w, Err(refusal)) == v,
{
}

} // verus!
