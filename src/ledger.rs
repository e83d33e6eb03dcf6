//! Ledger state of one identity: its balance, its debit counter, the one
//! transfer that may be in flight, and the validation shares gathered for it.
use vstd::prelude::*;
use safe_nd::PublicKey;
use crate::error::CoreError;

verus! {

/// A signed debit as the ledger hands it out for validation: the debit
/// counter value it consumes, the amount and the recipient.
#[derive(Clone, Copy)]
pub struct TransferRequest {
    pub id: u64,
    pub amount: u64,
    pub to: PublicKey,
}

/// One validator's attestation for the transfer with debit counter `transfer_id`.
#[derive(Clone, Copy, Debug, PartialEq, Eq, Structural)]
pub struct ValidationShare {
    pub transfer_id: u64,
    pub amount: u64,
    pub validator: u64,
}

/// Evidence that a quorum of validators agreed on the transfer `id` of `amount`.
#[derive(Clone, Copy, Debug, PartialEq, Eq, Structural)]
pub struct PaymentProof {
    pub id: u64,
    pub amount: u64,
}

/// What receiving a validation share led to.
#[derive(Clone, Copy, Debug, PartialEq, Eq, Structural)]
pub enum ValidationOutcome {
    /// No open transfer has this id (none in flight, another one, or already agreed).
    NotApplicable,
    /// This validator's share for the open transfer was already recorded.
    Duplicate,
    /// The share was recorded; the quorum is not reached yet.
    Recorded,
    /// The share completed the quorum: the proof is emitted, once.
    ProofReady(PaymentProof),
    /// The share attests a different amount than the transfer that was initiated.
    Conflict,
}

/// Whether two keys are the same key, as safe-nd's `PublicKey` equality says.
pub uninterp spec fn same_key(a: PublicKey, b: PublicKey) -> bool;

/// Relies on the derived `PartialEq` of safe-nd's `PublicKey`: a key equals itself.
#[verifier::external_body]
fn keys_equal(a: &PublicKey, b: &PublicKey) -> (r: bool)
    ensures
        r == same_key(*a, *b),
        *a == *b ==> r,
{
    a == b
}

/// The ledger as a mathematical value.
pub struct LedgerView {
    pub balance: u64,
    pub debit_counter: u64,
    /// The transfer initiated and not yet registered, if any.
    pub pending: Option<TransferRequest>,
    /// Number of distinct validators needed for a proof.
    pub quorum: u64,
    /// Validators whose share for the pending transfer was recorded, in arrival order.
    pub seen: Seq<u64>,
    /// Whether the proof for the pending transfer was already emitted.
    pub proof_emitted: bool,
}

/// Ledger state, owned by one transfer coordinator.
pub struct TransferActor {
    balance: u64,
    debit_counter: u64,
    pending: Option<TransferRequest>,
    quorum: u64,
    seen: Vec<u64>,
    proof_emitted: bool,
}

impl View for TransferActor {
    type V = LedgerView;

    closed spec fn view(&self) -> LedgerView {
        LedgerView {
            balance: self.balance,
            debit_counter: self.debit_counter,
            pending: self.pending,
            quorum: self.quorum,
            seen: self.seen@,
            proof_emitted: self.proof_emitted,
        }
    }
}

impl LedgerView {
    /// The ledger's invariant: a pending transfer uses the current debit
    /// counter, which can still advance, and is covered by the balance; the
    /// recorded validators are distinct and, until the proof, below quorum.
    pub open spec fn wf(self) -> bool {
        &&& self.quorum >= 1
        &&& self.seen.no_duplicates()
        &&& match self.pending {
            Some(p) => {
                &&& p.id == self.debit_counter
                &&& self.debit_counter < u64::MAX
                &&& p.amount <= self.balance
                &&& self.proof_emitted <==> self.seen.len() >= self.quorum
                &&& self.seen.len() <= self.quorum
            },
            None => self.seen.len() == 0 && !self.proof_emitted,
        }
    }

    /// A fresh ledger with `balance` and no transfer history.
    pub open spec fn fresh(balance: u64, quorum: u64) -> LedgerView {
        LedgerView {
            balance,
            debit_counter: 0,
            pending: None,
            quorum,
            seen: Seq::empty(),
            proof_emitted: false,
        }
    }

    /// Whether a transfer of `amount` to `to` is the one in flight, to resume.
    pub open spec fn resumes(self, amount: u64, to: PublicKey) -> bool {
        match self.pending {
            Some(p) => p.amount == amount && (p.to == to || same_key(p.to, to)),
            None => false,
        }
    }

    /// What initiating a transfer of `amount` to `to` returns: the transfer in
    /// flight when it is the same one, resumed with its debit counter value.
    pub open spec fn initiate_result(self, amount: u64, to: PublicKey) -> Result<TransferRequest, CoreError> {
        if self.resumes(amount, to) {
            match self.pending {
                Some(p) => Ok(p),
                None => Err(CoreError::TransferPending),
            }
        } else if amount > self.balance {
            Err(CoreError::InsufficientBalance)
        } else if self.pending is Some {
            Err(CoreError::TransferPending)
        } else if self.debit_counter == u64::MAX {
            Err(CoreError::InvalidOperation)
        } else {
            Ok(TransferRequest { id: self.debit_counter, amount, to })
        }
    }

    /// The ledger after initiating a transfer of `amount` to `to`; resuming
    /// the transfer in flight changes nothing.
    pub open spec fn initiated(self, amount: u64, to: PublicKey) -> LedgerView {
        match self.initiate_result(amount, to) {
            Ok(req) => if self.pending is Some { self } else { LedgerView { pending: Some(req), ..self } },
            Err(_) => self,
        }
    }

    /// The proof already obtained for the transfer in flight, if any.
    pub open spec fn pending_proof(self) -> Option<PaymentProof> {
        match self.pending {
            Some(p) => if self.proof_emitted { Some(PaymentProof { id: p.id, amount: p.amount }) } else { None },
            None => None,
        }
    }

    /// What receiving `share` reports.
    pub open spec fn receive_outcome(self, share: ValidationShare) -> ValidationOutcome {
        match self.pending {
            None => ValidationOutcome::NotApplicable,
            Some(p) => if share.transfer_id != p.id || self.proof_emitted {
                ValidationOutcome::NotApplicable
            } else if self.seen.contains(share.validator) {
                ValidationOutcome::Duplicate
            } else if share.amount != p.amount {
                ValidationOutcome::Conflict
            } else if self.seen.len() + 1 >= self.quorum {
                ValidationOutcome::ProofReady(PaymentProof { id: p.id, amount: p.amount })
            } else {
                ValidationOutcome::Recorded
            },
        }
    }

    /// The ledger after receiving `share`: only a recorded share changes it.
    pub open spec fn received(self, share: ValidationShare) -> LedgerView {
        match self.receive_outcome(share) {
            ValidationOutcome::Recorded => LedgerView { seen: self.seen.push(share.validator), ..self },
            ValidationOutcome::ProofReady(_) => LedgerView {
                seen: self.seen.push(share.validator),
                proof_emitted: true,
                ..self
            },
            _ => self,
        }
    }

    /// What registering `proof` returns.
    pub open spec fn register_result(self, proof: PaymentProof) -> Result<(), CoreError> {
        match self.pending {
            None => Err(CoreError::NoPendingTransfer),
            Some(p) => if self.proof_emitted && proof.id == p.id && proof.amount == p.amount {
                Ok(())
            } else {
                Err(CoreError::InvalidOperation)
            },
        }
    }

    /// The ledger after registering `proof`: on success the debit is committed.
    pub open spec fn registered(self, proof: PaymentProof) -> LedgerView {
        match self.register_result(proof) {
            Ok(_) => LedgerView {
                balance: (self.balance - proof.amount) as u64,
                debit_counter: (self.debit_counter + 1) as u64,
                pending: None,
                seen: Seq::empty(),
                proof_emitted: false,
                ..self
            },
            Err(_) => self,
        }
    }

    /// What crediting an incoming `amount` returns.
    pub open spec fn credit_result(self, amount: u64) -> Result<(), CoreError> {
        if self.balance + amount > u64::MAX {
            Err(CoreError::BalanceOverflow)
        } else {
            Ok(())
        }
    }

    /// The ledger after crediting an incoming `amount`.
    pub open spec fn credited(self, amount: u64) -> LedgerView {
        match self.credit_result(amount) {
            Ok(_) => LedgerView { balance: (self.balance + amount) as u64, ..self },
            Err(_) => self,
        }
    }
}

impl TransferActor {
    /// A ledger holding `balance`, whose transfers need `quorum` distinct validators.
    pub fn new(balance: u64, quorum: u64) -> (r: TransferActor)
        requires
            quorum >= 1,
        ensures
            r@ == LedgerView::fresh(balance, quorum),
            r@.wf(),
    {
        TransferActor { balance, debit_counter: 0, pending: None, quorum, seen: Vec::new(), proof_emitted: false }
    }

    /// The balance known locally.
    pub fn balance(&self) -> (r: u64)
        ensures
            r == self@.balance,
    {
        self.balance
    }

    /// The debit counter value the next transfer will use.
    pub fn debit_counter(&self) -> (r: u64)
        ensures
            r == self@.debit_counter,
    {
        self.debit_counter
    }

    /// The transfer initiated and not yet registered, to resume it after a failure.
    pub fn pending_transfer(&self) -> (r: Option<TransferRequest>)
        ensures
            r == self@.pending,
    {
        self.pending
    }

    /// The proof already obtained for the transfer in flight, if any, for a
    /// registration to retry.
    pub fn pending_proof(&self) -> (r: Option<PaymentProof>)
        ensures
            r == self@.pending_proof(),
    {
        match self.pending {
            Some(p) => if self.proof_emitted { Some(PaymentProof { id: p.id, amount: p.amount }) } else { None },
            None => None,
        }
    }

    /// Records a transfer of `amount` to `to` as initiated and hands back the
    /// request to broadcast for validation. When the same transfer is already
    /// in flight it is resumed: the same request comes back and nothing
    /// changes. Fails without change when the balance does not cover
    /// `amount`, or while another transfer is in flight.
    pub fn initiate(&mut self, amount: u64, to: PublicKey) -> (r: Result<TransferRequest, CoreError>)
        requires
            old(self)@.wf(),
        ensures
            r == old(self)@.initiate_result(amount, to),
            final(self)@ == old(self)@.initiated(amount, to),
            final(self)@.wf(),
    {
        match self.pending {
            Some(p) => {
                if p.amount == amount && keys_equal(&p.to, &to) {
                    return Ok(p);
                }
            },
            None => {},
        }
        if amount > self.balance {
            return Err(CoreError::InsufficientBalance);
        }
        if self.pending.is_some() {
            return Err(CoreError::TransferPending);
        }
        if self.debit_counter == u64::MAX {
            return Err(CoreError::InvalidOperation);
        }
        let req = TransferRequest { id: self.debit_counter, amount, to };
        self.pending = Some(req);
        Ok(req)
    }

    /// Whether `v` is among the recorded validators.
    fn has_seen(&self, v: u64) -> (r: bool)
        ensures
            r == self@.seen.contains(v),
    {
        let mut i: usize = 0;
        while i < self.seen.len()
            invariant
                i <= self.seen@.len(),
                forall|j: int| 0 <= j < i ==> self.seen@[j] != v,
            decreases self.seen@.len() - i,
        {
            if self.seen[i] == v {
                return true;
            }
            i = i + 1;
        }
        false
    }

    /// Takes one validator's share for the transfer in flight. A share for no
    /// open transfer, or a repeated one, changes nothing; the share that
    /// completes the quorum yields the proof, and no later share yields it again.
    pub fn receive(&mut self, share: ValidationShare) -> (r: ValidationOutcome)
        requires
            old(self)@.wf(),
        ensures
            r == old(self)@.receive_outcome(share),
            final(self)@ == old(self)@.received(share),
            final(self)@.wf(),
    {
        let p = match self.pending {
            None => return ValidationOutcome::NotApplicable,
            Some(p) => p,
        };
        if share.transfer_id != p.id || self.proof_emitted {
            return ValidationOutcome::NotApplicable;
        }
        if self.has_seen(share.validator) {
            return ValidationOutcome::Duplicate;
        }
        if share.amount != p.amount {
            return ValidationOutcome::Conflict;
        }
        proof {
            assert(self.seen@.len() < self.quorum);
        }
        self.seen.push(share.validator);
        proof {
            assert(self@.seen.no_duplicates());
        }
        if self.seen.len() as u64 >= self.quorum {
            self.proof_emitted = true;
            ValidationOutcome::ProofReady(PaymentProof { id: p.id, amount: p.amount })
        } else {
            ValidationOutcome::Recorded
        }
    }

    /// Commits the agreed transfer: the balance drops by its amount and the
    /// debit counter advances by one, together.
    pub fn register(&mut self, proof: PaymentProof) -> (r: Result<(), CoreError>)
        requires
            old(self)@.wf(),
        ensures
            r == old(self)@.register_result(proof),
            final(self)@ == old(self)@.registered(proof),
            final(self)@.wf(),
    {
        let p = match self.pending {
            None => return Err(CoreError::NoPendingTransfer),
            Some(p) => p,
        };
        if !(self.proof_emitted && proof.id == p.id && proof.amount == p.amount) {
            return Err(CoreError::InvalidOperation);
        }
        self.balance = self.balance - proof.amount;
        self.debit_counter = self.debit_counter + 1;
        self.pending = None;
        self.seen = Vec::new();
        self.proof_emitted = false;
        Ok(())
    }

    /// Applies an incoming transfer of `amount`.
    pub fn credit(&mut self, amount: u64) -> (r: Result<(), CoreError>)
        requires
            old(self)@.wf(),
        ensures
            r == old(self)@.credit_result(amount),
            final(self)@ == old(self)@.credited(amount),
            final(self)@.wf(),
    {
        match self.balance.checked_add(amount) {
            Some(b) => {
                self.balance = b;
                Ok(())
            },
            None => Err(CoreError::BalanceOverflow),
        }
    }
}

/// The ledger after receiving each of `shares` in turn.
pub open spec fn received_all(v: LedgerView, shares: Seq<ValidationShare>) -> LedgerView
    decreases shares.len(),
{
    if shares.len() == 0 {
        v
    } else {
        received_all(v.received(shares[0]), shares.drop_first())
    }
}

/// Receiving shares never touches the balance, the debit counter or the
/// transfer in flight, and keeps the ledger well formed.
pub proof fn lemma_received_all_keeps_debit(v: LedgerView, shares: Seq<ValidationShare>)
    requires
        v.wf(),
    ensures
        received_all(v, shares).wf(),
        received_all(v, shares).balance == v.balance,
        received_all(v, shares).debit_counter == v.debit_counter,
        received_all(v, shares).pending == v.pending,
    decreases shares.len(),
{
    if shares.len() > 0 {
        lemma_received_keeps_wf(v, shares[0]);
        lemma_received_all_keeps_debit(v.received(shares[0]), shares.drop_first());
    }
}

/// Pushing a value not in a list of distinct values keeps them distinct.
pub proof fn lemma_push_keeps_distinct(s: Seq<u64>, x: u64)
    requires
        s.no_duplicates(),
        !s.contains(x),
    ensures
        s.push(x).no_duplicates(),
{
    assert forall|i: int, j: int| 0 <= i < j < s.len() + 1 implies s.push(x)[i] != s.push(x)[j] by {
        if j == s.len() {
            assert(s.push(x)[i] == s[i]);
        }
    }
}

/// Receiving one share keeps the ledger well formed.
pub proof fn lemma_received_keeps_wf(v: LedgerView, share: ValidationShare)
    requires
        v.wf(),
    ensures
        v.received(share).wf(),
{
    match v.receive_outcome(share) {
        ValidationOutcome::Recorded => lemma_push_keeps_distinct(v.seen, share.validator),
        ValidationOutcome::ProofReady(_) => lemma_push_keeps_distinct(v.seen, share.validator),
        _ => {},
    }
}

/// A send that completes (initiated, validated by any shares, registered)
/// lowers the balance by exactly its amount and advances the debit counter by
/// exactly one.
pub proof fn law_completed_send_debits_exactly(
    v: LedgerView,
    amount: u64,
    to: PublicKey,
    shares: Seq<ValidationShare>,
    proof: PaymentProof,
)
    requires
        v.wf(),
        v.initiate_result(amount, to) is Ok,
        received_all(v.initiated(amount, to), shares).register_result(proof) is Ok,
    ensures
        ({
            let after = received_all(v.initiated(amount, to), shares).registered(proof);
            &&& after.balance == v.balance - amount
            &&& after.debit_counter == v.debit_counter + 1
            &&& after.pending is None
        }),
{
    let w = v.initiated(amount, to);
    assert(w.wf());
    lemma_received_all_keeps_debit(w, shares);
}

/// A send of more than the balance fails with `InsufficientBalance` and
/// leaves the ledger as it was.
pub proof fn law_overdraft_refused(v: LedgerView, amount: u64, to: PublicKey)
    requires
        v.wf(),
        amount > v.balance,
    ensures
        v.initiate_result(amount, to) == Err::<TransferRequest, CoreError>(CoreError::InsufficientBalance),
        v.initiated(amount, to) == v,
{
}

/// A validation share received a second time, from the same validator for
/// the same transfer, is a no-op: it is not recorded again, yields no proof,
/// and leaves the ledger exactly as the first one left it.
pub proof fn law_repeated_share_is_noop(v: LedgerView, share: ValidationShare)
    requires
        v.wf(),
    ensures
        v.received(share).received(share) == v.received(share),
        !(v.received(share).receive_outcome(share) is ProofReady),
        !(v.received(share).receive_outcome(share) is Recorded),
{
    let w = v.received(share);
    match v.receive_outcome(share) {
        ValidationOutcome::Recorded => {
            assert(w.seen[w.seen.len() - 1] == share.validator);
            assert(w.seen.contains(share.validator));
        },
        ValidationOutcome::ProofReady(_) => {},
        _ => {},
    }
}

/// An incoming transfer raises the recipient's balance by exactly its
/// amount, unless that would pass the largest representable balance.
pub proof fn law_credit_adds_exactly(v: LedgerView, amount: u64)
    requires
        v.balance + amount <= u64::MAX,
    ensures
        v.credit_result(amount) is Ok,
        v.credited(amount).balance == v.balance + amount,
        v.credited(amount).debit_counter == v.debit_counter,
{
}

/// A send retried while the same transfer is in flight (after a failed
/// broadcast, validation wait or registration) resumes it: the same request,
/// with the same debit counter value, and the ledger untouched; so the retry
/// debits once.
pub proof fn law_retried_send_resumes(v: LedgerView)
    requires
        v.wf(),
        v.pending is Some,
    ensures
        v.initiate_result(v.pending->0.amount, v.pending->0.to) == Ok::<TransferRequest, CoreError>(v.pending->0),
        v.initiated(v.pending->0.amount, v.pending->0.to) == v,
{
}

/// Whether receiving `share` records nothing and yields no proof (so, by
/// `received`, leaves the ledger as it is).
pub open spec fn inert(v: LedgerView, share: ValidationShare) -> bool {
    !(v.receive_outcome(share) is Recorded) && !(v.receive_outcome(share) is ProofReady)
}

/// Receiving two streams one after the other is receiving their concatenation.
pub proof fn lemma_received_all_concat(v: LedgerView, a: Seq<ValidationShare>, b: Seq<ValidationShare>)
    ensures
        received_all(v, a + b) == received_all(received_all(v, a), b),
    decreases a.len(),
{
    if a.len() > 0 {
        assert((a + b).drop_first() =~= a.drop_first() + b);
        assert((a + b)[0] == a[0]);
        lemma_received_all_concat(v.received(a[0]), a.drop_first(), b);
    } else {
        assert(a + b =~= b);
    }
}

/// A share that is inert stays inert whatever other shares arrive.
pub proof fn lemma_inert_persists(v: LedgerView, share: ValidationShare, others: Seq<ValidationShare>)
    requires
        v.wf(),
        inert(v, share),
    ensures
        inert(received_all(v, others), share),
    decreases others.len(),
{
    if others.len() > 0 {
        let t = others[0];
        let w = v.received(t);
        lemma_received_keeps_wf(v, t);
        if v.receive_outcome(t) is Recorded || v.receive_outcome(t) is ProofReady {
            if v.seen.contains(share.validator) {
                let k = choose|k: int| 0 <= k < v.seen.len() && v.seen[k] == share.validator;
                assert(w.seen[k] == share.validator);
            }
        }
        lemma_inert_persists(w, share, others.drop_first());
    }
}

/// A validation share that arrives again, from the same validator for the
/// same transfer, anywhere later in the stream, is a no-op: the stream with
/// the repeat leaves the ledger exactly as the stream without it, and the
/// repeat itself records nothing and yields no proof. So whether and when a
/// proof comes is unchanged.
pub proof fn law_repeated_share_in_stream_is_noop(
    v: LedgerView,
    pre: Seq<ValidationShare>,
    share: ValidationShare,
    post: Seq<ValidationShare>,
)
    requires
        v.wf(),
        pre.contains(share),
    ensures
        received_all(v, pre + seq![share] + post) == received_all(v, pre + post),
        inert(received_all(v, pre), share),
{
    let i = choose|i: int| 0 <= i < pre.len() && pre[i] == share;
    let a = pre.take(i);
    let b = pre.skip(i + 1);
    assert(pre =~= a + seq![share] + b);
    lemma_received_all_concat(v, a + seq![share], b);
    lemma_received_all_concat(v, a, seq![share]);
    let u = received_all(v, a);
    lemma_received_all_keeps_debit(v, a);
    assert(received_all(u, seq![share]) == received_all(u.received(share), seq![share].drop_first()));
    assert(seq![share].drop_first() =~= Seq::<ValidationShare>::empty());
    law_repeated_share_is_noop(u, share);
    lemma_received_keeps_wf(u, share);
    lemma_inert_persists(u.received(share), share, b);
    let w = received_all(v, pre);
    lemma_received_all_keeps_debit(v, pre);
    lemma_received_all_concat(v, pre, seq![share] + post);
    lemma_received_all_concat(w, seq![share], post);
    assert(received_all(w, seq![share]) == received_all(w.received(share), seq![share].drop_first()));
    assert(inert(w, share));
    assert(w.received(share) == w);
    lemma_received_all_concat(v, pre, post);
    assert(pre + seq![share] + post =~= pre + (seq![share] + post));
}

} // verus!
