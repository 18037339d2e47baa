//! Batching of settled transactions for inter-bank clearing.
//!
//! A batch fixes its total at creation: the total equals the sum of the
//! member transactions' amounts and never drifts afterwards. Processing
//! a batch is the point where funds would move between issuer and
//! acquirer; this core models that step as always succeeding, and a
//! failure there would have to leave the batch `Failed`, never
//! `Processing`.

use vstd::prelude::*;
use crate::clock::{clock_now, ClockReading};
use crate::currency::Currency;
use crate::errors::{Entity, PayError, StateLabel};
use crate::store::{find_idx, fresh_key, set_at, spec_idx_of, Keyed};
use crate::transaction::Transaction;

verus! {

/// Lifecycle status of a settlement batch.
#[derive(Clone, Copy, Debug, PartialEq, Eq, Structural)]
pub enum SettlementStatus {
    Pending,
    Processing,
    Completed,
    Failed,
}

/// A batch of settled transactions cleared between one issuer and one
/// acquirer.
#[derive(Clone, Debug)]
pub struct SettlementBatch {
    /// Identity of the batch.
    pub id: u128,
    /// Identity of the issuing bank.
    pub issuer_id: u128,
    /// Identity of the acquiring bank.
    pub acquirer_id: u128,
    /// Identities of the member transactions, in the order given.
    pub transactions: Vec<u128>,
    /// Sum of the member transactions' amounts, fixed at creation.
    pub total_amount: u64,
    /// Currency of the batch: the first member's, with the euro as the
    /// empty batch's default. Members are expected to be
    /// currency-homogeneous; this core neither validates nor converts.
    pub currency: Currency,
    /// Lifecycle status.
    pub status: SettlementStatus,
    /// Seconds since the Unix epoch at which the batch was created.
    pub created_at: u64,
    /// Seconds since the Unix epoch at which it settled.
    pub settled_at: Option<u64>,
}

/// A batch as the specification sees it: the member list as a sequence.
pub struct BatchView {
    pub id: u128,
    pub issuer_id: u128,
    pub acquirer_id: u128,
    pub transactions: Seq<u128>,
    pub total_amount: u64,
    pub currency: Currency,
    pub status: SettlementStatus,
    pub created_at: u64,
    pub settled_at: Option<u64>,
}

impl View for SettlementBatch {
    type V = BatchView;

    open spec fn view(&self) -> BatchView {
        BatchView {
            id: self.id,
            issuer_id: self.issuer_id,
            acquirer_id: self.acquirer_id,
            transactions: self.transactions@,
            total_amount: self.total_amount,
            currency: self.currency,
            status: self.status,
            created_at: self.created_at,
            settled_at: self.settled_at,
        }
    }
}

impl Keyed for SettlementBatch {
    open spec fn spec_key(&self) -> u128 {
        self.id
    }

    fn key(&self) -> (k: u128)
        ensures
            k == self.spec_key(),
    {
        self.id
    }
}

/// The status name used when reporting an invalid batch transition.
pub open spec fn spec_settlement_label(s: SettlementStatus) -> StateLabel {
    match s {
        SettlementStatus::Pending => StateLabel::Pending,
        SettlementStatus::Processing => StateLabel::Processing,
        SettlementStatus::Completed => StateLabel::Completed,
        SettlementStatus::Failed => StateLabel::Failed,
    }
}

/// The index of the first batch in `s` with identity `id`.
pub open spec fn spec_batch_idx(s: Seq<BatchView>, id: u128) -> Option<int>
    decreases s.len(),
{
    if s.len() == 0 {
        None
    } else if s[0].id == id {
        Some(0)
    } else {
        match spec_batch_idx(s.drop_first(), id) {
            Some(i) => Some(i + 1),
            None => None,
        }
    }
}

/// The first batch in `s` with identity `id`, if any.
pub open spec fn spec_batch_get(s: Seq<BatchView>, id: u128) -> Option<BatchView> {
    match spec_batch_idx(s, id) {
        Some(i) => Some(s[i]),
        None => None,
    }
}

/// Looking a batch up by identity agrees with looking its record up in
/// the underlying store.
proof fn lemma_batch_idx_map(s: Seq<SettlementBatch>, id: u128)
    ensures
        spec_batch_idx(s.map_values(|b: SettlementBatch| b@), id) == spec_idx_of(s, id),
    decreases s.len(),
{
    let mapped = s.map_values(|b: SettlementBatch| b@);
    if s.len() > 0 {
        lemma_batch_idx_map(s.drop_first(), id);
        assert(mapped[0] == s[0]@);
        assert(mapped.drop_first() =~= s.drop_first().map_values(|b: SettlementBatch| b@));
    }
}

/// What the batch index means, element by element.
pub proof fn lemma_batch_idx(s: Seq<BatchView>, id: u128)
    ensures
        (match spec_batch_idx(s, id) {
            Some(i) => 0 <= i < s.len() && s[i].id == id,
            None => forall|j: int| 0 <= j < s.len() ==> s[j].id != id,
        }),
    decreases s.len(),
{
    if s.len() > 0 && s[0].id != id {
        lemma_batch_idx(s.drop_first(), id);
        match spec_batch_idx(s.drop_first(), id) {
            Some(i) => {
                assert(s.drop_first()[i] == s[i + 1]);
            },
            None => {
                assert forall|j: int| 0 <= j < s.len() implies s[j].id != id by {
                    if j > 0 {
                        assert(s.drop_first()[j - 1] == s[j]);
                    }
                }
            },
        }
    }
}

/// Sum of the amounts of a sequence of transactions.
pub open spec fn spec_sum_amounts(txs: Seq<Transaction>) -> int
    decreases txs.len(),
{
    if txs.len() == 0 {
        0
    } else {
        txs[0].amount + spec_sum_amounts(txs.drop_first())
    }
}

/// Amounts are unsigned, so their sum is never negative.
pub proof fn lemma_sum_nonneg(txs: Seq<Transaction>)
    ensures
        spec_sum_amounts(txs) >= 0,
    decreases txs.len(),
{
    if txs.len() > 0 {
        lemma_sum_nonneg(txs.drop_first());
    }
}

/// The member identities of a sequence of transactions, in order.
pub open spec fn spec_tx_ids(txs: Seq<Transaction>) -> Seq<u128> {
    txs.map_values(|t: Transaction| t.id)
}

/// The currency a batch over `txs` carries.
pub open spec fn spec_batch_currency(txs: Seq<Transaction>) -> Currency {
    if txs.len() == 0 {
        Currency::EUR
    } else {
        txs[0].currency
    }
}

/// The batch a successful creation records.
pub open spec fn spec_new_batch(
    issuer_id: u128,
    acquirer_id: u128,
    txs: Seq<Transaction>,
    batch_id: u128,
    now_secs: u64,
) -> BatchView {
    BatchView {
        id: batch_id,
        issuer_id,
        acquirer_id,
        transactions: spec_tx_ids(txs),
        total_amount: spec_sum_amounts(txs) as u64,
        currency: spec_batch_currency(txs),
        status: SettlementStatus::Pending,
        created_at: now_secs,
        settled_at: None,
    }
}

/// The outcome processing owes: the batch must exist and be `Pending`.
pub open spec fn spec_process_decision(s: Seq<BatchView>, batch_id: u128) -> Result<
    (),
    PayError,
> {
    match spec_batch_get(s, batch_id) {
        None => Err(PayError::NotFound(Entity::Batch)),
        Some(b) => if !(b.status is Pending) {
            Err(
                PayError::InvalidState {
                    expected: StateLabel::Pending,
                    actual: spec_settlement_label(b.status),
                },
            )
        } else {
            Ok(())
        },
    }
}

/// The batches after a successful processing: the batch is `Completed`
/// and stamped with its settlement time; nothing else moves.
pub open spec fn spec_process_apply(s: Seq<BatchView>, batch_id: u128, now_secs: u64) -> Seq<
    BatchView,
> {
    let i = spec_batch_idx(s, batch_id).unwrap();
    s.update(i, BatchView { status: SettlementStatus::Completed, settled_at: Some(now_secs), ..s[i] })
}

/// Sum of `total_amount` over the `Completed` batches between one
/// issuer and one acquirer.
pub open spec fn spec_net_settlement(s: Seq<BatchView>, issuer_id: u128, acquirer_id: u128) -> int
    decreases s.len(),
{
    if s.len() == 0 {
        0
    } else {
        (if s[0].issuer_id == issuer_id && s[0].acquirer_id == acquirer_id && s[0].status
            is Completed {
            s[0].total_amount as int
        } else {
            0
        }) + spec_net_settlement(s.drop_first(), issuer_id, acquirer_id)
    }
}

/// The net settlement is a sum of unsigned totals, never negative.
pub proof fn lemma_net_nonneg(s: Seq<BatchView>, issuer_id: u128, acquirer_id: u128)
    ensures
        spec_net_settlement(s, issuer_id, acquirer_id) >= 0,
    decreases s.len(),
{
    if s.len() > 0 {
        lemma_net_nonneg(s.drop_first(), issuer_id, acquirer_id);
    }
}

/// The `Pending` batches of `s`, oldest first.
pub open spec fn spec_pending_of(s: Seq<BatchView>) -> Seq<BatchView>
    decreases s.len(),
{
    if s.len() == 0 {
        Seq::empty()
    } else if s[0].status is Pending {
        seq![s[0]] + spec_pending_of(s.drop_first())
    } else {
        spec_pending_of(s.drop_first())
    }
}

/// The settlement engine: owns every batch.
pub struct SettlementService {
    batches: Vec<SettlementBatch>,
}

impl View for SettlementService {
    type V = Seq<BatchView>;

    closed spec fn view(&self) -> Seq<BatchView> {
        self.batches@.map_values(|b: SettlementBatch| b@)
    }
}

impl SettlementService {
    /// A service with no batches.
    pub fn new() -> (r: SettlementService)
        ensures
            r@ == Seq::<BatchView>::empty(),
    {
        let r = SettlementService { batches: Vec::new() };
        proof {
            assert(r@ =~= Seq::<BatchView>::empty());
        }
        r
    }

    /// The deterministic core of batch creation: the batch identity and
    /// the clock reading are arguments. Fixes the total as the sum of
    /// the member amounts, the member list as their identities in the
    /// order given, and the currency as the first member's; the batch
    /// starts `Pending`.
    pub fn create_batch_at(
        &mut self,
        issuer_id: u128,
        acquirer_id: u128,
        transactions: &Vec<Transaction>,
        batch_id: u128,
        now: &ClockReading,
    ) -> (r: u128)
        requires
            spec_batch_idx(old(self)@, batch_id) is None,
            spec_sum_amounts(transactions@) <= u64::MAX,
        ensures
            r == batch_id,
            final(self)@ == old(self)@.push(
                spec_new_batch(issuer_id, acquirer_id, transactions@, batch_id, now.secs),
            ),
    {
        let n = transactions.len();
        let mut total: u64 = 0;
        let mut ids: Vec<u128> = Vec::new();
        let mut i: usize = 0;
        proof {
            assert(transactions@.skip(0) =~= transactions@);
        }
        while i < n
            invariant
                i <= n,
                n == transactions@.len(),
                ids@.len() == i,
                forall|j: int| 0 <= j < i ==> ids@[j] == transactions@[j].id,
                total + spec_sum_amounts(transactions@.skip(i as int)) == spec_sum_amounts(
                    transactions@,
                ),
                spec_sum_amounts(transactions@) <= u64::MAX,
            decreases n - i,
        {
            let ghost rest = transactions@.skip(i as int);
            proof {
                assert(rest[0] == transactions@[i as int]);
                assert(rest.drop_first() =~= transactions@.skip(i as int + 1));
                lemma_sum_nonneg(rest.drop_first());
            }
            total = total + transactions[i].amount;
            ids.push(transactions[i].id);
            i = i + 1;
        }
        proof {
            assert(transactions@.skip(n as int) =~= Seq::<Transaction>::empty());
        }
        let currency = if transactions.len() > 0 {
            transactions[0].currency
        } else {
            Currency::EUR
        };
        let batch = SettlementBatch {
            id: batch_id,
            issuer_id,
            acquirer_id,
            transactions: ids,
            total_amount: total,
            currency,
            status: SettlementStatus::Pending,
            created_at: now.secs,
            settled_at: None,
        };
        proof {
            assert(batch@.transactions =~= spec_tx_ids(transactions@));
            assert(batch@ == spec_new_batch(
                issuer_id,
                acquirer_id,
                transactions@,
                batch_id,
                now.secs,
            ));
        }
        self.batches.push(batch);
        proof {
            assert(self@ =~= old(self)@.push(
                spec_new_batch(issuer_id, acquirer_id, transactions@, batch_id, now.secs),
            ));
        }
        batch_id
    }

    /// Creates a batch under a fresh random identity, stamped by the
    /// wall clock. The total, member list, currency and `Pending`
    /// status are exactly those of the deterministic core.
    pub fn create_batch(
        &mut self,
        issuer_id: u128,
        acquirer_id: u128,
        transactions: &Vec<Transaction>,
    ) -> (r: u128)
        requires
            spec_sum_amounts(transactions@) <= u64::MAX,
        ensures
            spec_batch_idx(old(self)@, r) is None,
            (exists|now_secs: u64|
                final(self)@ == old(self)@.push(
                    spec_new_batch(issuer_id, acquirer_id, transactions@, r, now_secs),
                )),
    {
        let batch_id = fresh_key(&self.batches);
        proof {
            lemma_batch_idx_map(self.batches@, batch_id);
        }
        let now = clock_now();
        let r = self.create_batch_at(issuer_id, acquirer_id, transactions, batch_id, &now);
        proof {
            assert(final(self)@ == old(self)@.push(
                spec_new_batch(issuer_id, acquirer_id, transactions@, r, now.secs),
            ));
        }
        r
    }

    /// The deterministic core of processing. Returns exactly what
    /// `spec_process_decision` owes; on success the batch moves through
    /// `Processing` to `Completed` within the call (the modeled fund
    /// movement always succeeds here), and on failure nothing changes.
    pub fn process_settlement_at(&mut self, batch_id: u128, now: &ClockReading) -> (r: Result<
        (),
        PayError,
    >)
        ensures
            (match spec_process_decision(old(self)@, batch_id) {
                Ok(()) => r == Ok::<(), PayError>(()) && final(self)@ == spec_process_apply(
                    old(self)@,
                    batch_id,
                    now.secs,
                ),
                Err(e) => r == Err::<(), PayError>(e) && final(self)@ == old(self)@,
            }),
    {
        proof {
            lemma_batch_idx_map(self.batches@, batch_id);
        }
        let bi = match find_idx(&self.batches, batch_id) {
            Some(i) => i,
            None => { return Err(PayError::NotFound(Entity::Batch)) },
        };
        let status = self.batches[bi].status;
        if !matches!(status, SettlementStatus::Pending) {
            let label = match status {
                SettlementStatus::Pending => StateLabel::Pending,
                SettlementStatus::Processing => StateLabel::Processing,
                SettlementStatus::Completed => StateLabel::Completed,
                SettlementStatus::Failed => StateLabel::Failed,
            };
            return Err(
                PayError::InvalidState { expected: StateLabel::Pending, actual: label },
            );
        }
        let b = &self.batches[bi];
        let mut updated = SettlementBatch {
            id: b.id,
            issuer_id: b.issuer_id,
            acquirer_id: b.acquirer_id,
            transactions: copy_ids(&b.transactions),
            total_amount: b.total_amount,
            currency: b.currency,
            status: SettlementStatus::Processing,
            created_at: b.created_at,
            settled_at: b.settled_at,
        };
        // The fund movement this core models always succeeds; on a
        // failure the batch would have to become `Failed` here.
        updated.status = SettlementStatus::Completed;
        updated.settled_at = Some(now.secs);
        set_at(&mut self.batches, bi, updated);
        proof {
            assert(self@ =~= spec_process_apply(old(self)@, batch_id, now.secs));
        }
        Ok(())
    }

    /// Processes a batch against the wall clock. The outcome is the one
    /// `spec_process_decision` owes; only the stamped settlement time
    /// depends on the clock.
    pub fn process_settlement(&mut self, batch_id: u128) -> (r: Result<(), PayError>)
        ensures
            (match spec_process_decision(old(self)@, batch_id) {
                Ok(()) => r == Ok::<(), PayError>(()) && (exists|now_secs: u64|
                    final(self)@ == spec_process_apply(old(self)@, batch_id, now_secs)),
                Err(e) => r == Err::<(), PayError>(e) && final(self)@ == old(self)@,
            }),
    {
        let now = clock_now();
        self.process_settlement_at(batch_id, &now)
    }

    /// A read-only view of a batch.
    pub fn get_batch(&self, batch_id: u128) -> (r: Option<&SettlementBatch>)
        ensures
            (match r {
                Some(b) => spec_batch_get(self@, batch_id) == Some(b@),
                None => spec_batch_get(self@, batch_id) is None,
            }),
    {
        proof {
            lemma_batch_idx_map(self.batches@, batch_id);
        }
        match find_idx(&self.batches, batch_id) {
            Some(i) => Some(&self.batches[i]),
            None => None,
        }
    }

    /// Copies of the batches still waiting to be processed, oldest
    /// first.
    pub fn get_pending_batches(&self) -> (r: Vec<SettlementBatch>)
        ensures
            r@.map_values(|b: SettlementBatch| b@) == spec_pending_of(self@),
    {
        let n = self.batches.len();
        let mut out: Vec<SettlementBatch> = Vec::new();
        let mut i: usize = 0;
        proof {
            assert(self@.skip(0) =~= self@);
            assert(out@.map_values(|b: SettlementBatch| b@) =~= Seq::<BatchView>::empty());
        }
        while i < n
            invariant
                i <= n,
                n == self.batches@.len(),
                n == self@.len(),
                out@.map_values(|b: SettlementBatch| b@) + spec_pending_of(self@.skip(i as int))
                    == spec_pending_of(self@),
            decreases n - i,
        {
            let ghost rest = self@.skip(i as int);
            let ghost out_pre = out@.map_values(|b: SettlementBatch| b@);
            proof {
                assert(rest[0] == self@[i as int]);
                assert(self@[i as int] == self.batches@[i as int]@);
                assert(rest.drop_first() =~= self@.skip(i as int + 1));
            }
            if matches!(self.batches[i].status, SettlementStatus::Pending) {
                let b = &self.batches[i];
                let copy = SettlementBatch {
                    id: b.id,
                    issuer_id: b.issuer_id,
                    acquirer_id: b.acquirer_id,
                    transactions: copy_ids(&b.transactions),
                    total_amount: b.total_amount,
                    currency: b.currency,
                    status: b.status,
                    created_at: b.created_at,
                    settled_at: b.settled_at,
                };
                proof {
                    assert(copy@ == self@[i as int]);
                }
                out.push(copy);
                proof {
                    assert(out@.map_values(|b: SettlementBatch| b@) =~= out_pre.push(
                        self@[i as int],
                    ));
                    assert(out_pre.push(self@[i as int]) =~= out_pre + seq![self@[i as int]]);
                    assert((out_pre + seq![self@[i as int]]) + spec_pending_of(
                        self@.skip(i as int + 1),
                    ) =~= out_pre + (seq![self@[i as int]] + spec_pending_of(
                        self@.skip(i as int + 1),
                    )));
                }
            }
            i = i + 1;
        }
        proof {
            assert(self@.skip(n as int) =~= Seq::<BatchView>::empty());
        }
        out
    }

    /// The net amount to be settled between `issuer_id` and
    /// `acquirer_id`: the sum over their `Completed` batches. The
    /// caller keeps the sum within the machine's representable range.
    pub fn calculate_net_settlement(&self, issuer_id: u128, acquirer_id: u128) -> (r: u64)
        requires
            spec_net_settlement(self@, issuer_id, acquirer_id) <= u64::MAX,
        ensures
            r == spec_net_settlement(self@, issuer_id, acquirer_id),
    {
        let n = self.batches.len();
        let mut total: u64 = 0;
        let mut i: usize = 0;
        proof {
            assert(self@.skip(0) =~= self@);
        }
        while i < n
            invariant
                i <= n,
                n == self.batches@.len(),
                n == self@.len(),
                total + spec_net_settlement(self@.skip(i as int), issuer_id, acquirer_id)
                    == spec_net_settlement(self@, issuer_id, acquirer_id),
                spec_net_settlement(self@, issuer_id, acquirer_id) <= u64::MAX,
            decreases n - i,
        {
            let ghost rest = self@.skip(i as int);
            proof {
                assert(rest[0] == self@[i as int]);
                assert(self@[i as int] == self.batches@[i as int]@);
                assert(rest.drop_first() =~= self@.skip(i as int + 1));
                lemma_net_nonneg(rest.drop_first(), issuer_id, acquirer_id);
            }
            let b = &self.batches[i];
            if b.issuer_id == issuer_id && b.acquirer_id == acquirer_id && matches!(
                b.status,
                SettlementStatus::Completed,
            ) {
                total = total + b.total_amount;
            }
            i = i + 1;
        }
        proof {
            assert(self@.skip(n as int) =~= Seq::<BatchView>::empty());
        }
        total
    }
}

/// Copies a list of member identities.
fn copy_ids(v: &Vec<u128>) -> (r: Vec<u128>)
    ensures
        r@ == v@,
{
    let n = v.len();
    let mut out: Vec<u128> = Vec::new();
    let mut i: usize = 0;
    while i < n
        invariant
            i <= n,
            n == v@.len(),
            out@ =~= v@.take(i as int),
        decreases n - i,
    {
        out.push(v[i]);
        i = i + 1;
    }
    proof {
        assert(v@.take(n as int) =~= v@);
    }
    out
}

/// Processing moves a `Pending` batch to `Completed`, and a second
/// processing of the same batch is refused with `InvalidState` and
/// changes nothing.
pub proof fn lemma_process_completes_once(
    s: Seq<BatchView>,
    batch_id: u128,
    now1: u64,
    now2: u64,
)
    requires
        spec_process_decision(s, batch_id) is Ok,
    ensures
        ({
            let s1 = spec_process_apply(s, batch_id, now1);
            &&& spec_batch_get(s1, batch_id) matches Some(b) && b.status is Completed
                && b.settled_at == Some(now1)
            &&& spec_process_decision(s1, batch_id) == Err::<(), PayError>(
                PayError::InvalidState {
                    expected: StateLabel::Pending,
                    actual: StateLabel::Completed,
                },
            )
        }),
{
    let i = spec_batch_idx(s, batch_id).unwrap();
    lemma_batch_idx(s, batch_id);
    let s1 = spec_process_apply(s, batch_id, now1);
    lemma_batch_idx_stable(s, batch_id, i, BatchView {
        status: SettlementStatus::Completed,
        settled_at: Some(now1),
        ..s[i]
    });
}

/// Updating a batch in place without changing its identity leaves every
/// lookup index as it was.
proof fn lemma_batch_idx_stable(s: Seq<BatchView>, id: u128, i: int, b: BatchView)
    requires
        spec_batch_idx(s, id) == Some(i),
        0 <= i < s.len(),
        b.id == s[i].id,
    ensures
        spec_batch_idx(s.update(i, b), id) == Some(i),
    decreases s.len(),
{
    let s1 = s.update(i, b);
    if i == 0 {
        lemma_batch_idx(s, id);
        assert(s1[0] == b);
        assert(s[0].id == id);
    } else {
        assert(s1[0] == s[0]);
        assert(s.drop_first().update(i - 1, b) =~= s1.drop_first());
        lemma_batch_idx_stable(s.drop_first(), id, i - 1, b);
    }
}

} // verus!
