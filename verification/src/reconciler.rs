//! The reconciler: which store operation a delivered entity leads to, and
//! what becomes of a whole batch.
//!
//! A reconciliation is a short exchange with the store. [`Exchange`] holds
//! its decisions as a function from the pending request and the store's reply
//! to the next request or the final status, so that the same decisions serve
//! a store that is asked over a connection and the in-memory [`Store`]. The
//! functions below run the exchange against the in-memory store and are
//! proved to do what each policy promises.

use crate::mapper::{MappingError, mapped, signed64, to_signed64};
use crate::model::{EntityKind, Key, Record, Row};
use crate::snapshot::Snapshot;
use crate::store::{
    Store, StoreError, after_create, after_delete, after_update, after_upsert, coherent,
    create_error, delete_error, lookup, resolved, row_of, update_error, upsert_error,
};
use vstd::prelude::*;

verus! {

/// How a delivered entity is written.
#[derive(Clone, Copy, Debug, PartialEq, Eq, Structural)]
pub enum Policy {
    /// Create the row where it is missing and leave an existing row as it is.
    ReadRepair,
    /// Write the delivered state over whatever is there.
    Upsert,
}

/// Why a reconciliation failed.
#[derive(Clone, Copy, Debug, PartialEq, Eq, Structural)]
pub enum Failure {
    /// The snapshot has no row; the store was not asked.
    Mapping(MappingError),
    /// The store refused or could not be reached.
    Store(StoreError),
    /// The store's reply does not answer the request that was pending.
    OutOfTurn,
}

/// How a reconciliation ended.
#[derive(Clone, Copy, Debug, PartialEq, Eq, Structural)]
pub enum Status {
    /// The row was missing and has been created.
    Created,
    /// The row was there and has been left as it was.
    Unchanged,
    /// The delivered state is now the row.
    Synced,
    /// Nothing was written.
    Failed(Failure),
}

impl Status {
    /// Whether the reconciliation went through.
    pub open spec fn succeeded(self) -> bool {
        !(self is Failed)
    }

    /// Whether the reconciliation went through.
    pub fn is_success(&self) -> (b: bool)
        ensures
            b == self.succeeded(),
    {
        match self {
            Status::Failed(_) => false,
            _ => true,
        }
    }
}

/// The report on one entity of a batch.
#[derive(Clone, Copy, Debug, PartialEq, Eq, Structural)]
pub struct Outcome {
    pub kind: EntityKind,
    pub id: i64,
    pub status: Status,
}

/// A request to the store: one of its five operations with its argument.
#[derive(Debug, PartialEq, Eq)]
pub enum Action {
    Read(Key),
    Create(Record),
    Upsert(Record),
    Update(Record),
    Delete(Key),
}

/// The store's answer to a request.
#[derive(Debug, PartialEq, Eq)]
pub enum Reply {
    /// What a read found, or what a delete took out.
    Row(Option<Record>),
    /// The write took effect.
    Written,
    /// The request failed.
    Failed(StoreError),
}

/// The request that an exchange waits on.
#[derive(Clone, Copy, Debug, PartialEq, Eq, Structural)]
pub enum Pending {
    Read,
    Create,
    Upsert,
}

impl Pending {
    /// How many more requests can follow the pending one.
    pub open spec fn rank(self) -> nat {
        match self {
            Pending::Read => 2,
            Pending::Create => 1,
            Pending::Upsert => 0,
        }
    }
}

/// A reconciliation under way: the row to write and the request in flight.
#[derive(Debug, PartialEq, Eq)]
pub struct Exchange {
    pub record: Record,
    pub pending: Pending,
}

/// What follows a reply: another request, or the end and its report.
#[derive(Debug, PartialEq, Eq)]
pub enum Step {
    Ask(Exchange, Action),
    Done(Outcome),
}

/// The report on the row of an exchange that ended with `status`.
pub open spec fn report(record: Record, status: Status) -> Outcome {
    Outcome { kind: record@.kind(), id: record@.id(), status }
}

/// The first request under a policy.
pub open spec fn opening(policy: Policy) -> Pending {
    match policy {
        Policy::ReadRepair => Pending::Read,
        Policy::Upsert => Pending::Upsert,
    }
}

/// The request that goes out while `pending` is waited on.
pub open spec fn request(pending: Pending, record: Record) -> Action {
    match pending {
        Pending::Read => Action::Read(record@.key()),
        Pending::Create => Action::Create(record),
        Pending::Upsert => Action::Upsert(record),
    }
}

/// How the exchange `x` ends on `reply`, or `None` where it goes on.
///
/// A read that finds the row ends the exchange with the row untouched. A
/// write that took effect ends it: a create with `Created`, an upsert with
/// `Synced`. A failure ends it, but for a conflict on create. So does a reply
/// of the wrong shape.
pub open spec fn ending(x: Exchange, reply: Reply) -> Option<Status> {
    match x.pending {
        Pending::Read => match reply {
            Reply::Row(Some(_)) => Some(Status::Unchanged),
            Reply::Row(None) => None,
            Reply::Failed(e) => Some(Status::Failed(Failure::Store(e))),
            Reply::Written => Some(Status::Failed(Failure::OutOfTurn)),
        },
        Pending::Create => match reply {
            Reply::Written => Some(Status::Created),
            Reply::Failed(e) => if e == StoreError::Conflict {
                None
            } else {
                Some(Status::Failed(Failure::Store(e)))
            },
            Reply::Row(_) => Some(Status::Failed(Failure::OutOfTurn)),
        },
        Pending::Upsert => match reply {
            Reply::Written => Some(Status::Synced),
            Reply::Failed(e) => Some(Status::Failed(Failure::Store(e))),
            Reply::Row(_) => Some(Status::Failed(Failure::OutOfTurn)),
        },
    }
}

/// The request that follows the pending one where the exchange goes on: a
/// create after a read that found nothing, an upsert after a create that met
/// a conflict.
pub open spec fn following(pending: Pending) -> Pending {
    match pending {
        Pending::Read => Pending::Create,
        _ => Pending::Upsert,
    }
}

/// What follows `reply` in exchange `x`.
pub open spec fn next(x: Exchange, reply: Reply) -> Step {
    match ending(x, reply) {
        Some(status) => Step::Done(report(x.record, status)),
        None => Step::Ask(
            Exchange { record: x.record, pending: following(x.pending) },
            request(following(x.pending), x.record),
        ),
    }
}

/// Whether `step` opens the reconciliation of snapshot `s` under `policy`:
/// the report of the mapping failure where the snapshot has no row, else the
/// policy's first request for the row.
pub open spec fn opens(policy: Policy, s: Snapshot, step: Step) -> bool {
    match mapped(s) {
        Ok(row) => {
            &&& step matches Step::Ask(x, a)
            &&& x.record@ == row
            &&& x.pending == opening(policy)
            &&& a == request(x.pending, x.record)
        },
        Err(e) => step == Step::Done(
            Outcome {
                kind: s.kind(),
                id: signed64(s.id()),
                status: Status::Failed(Failure::Mapping(e)),
            },
        ),
    }
}

impl Exchange {
    /// Opens the exchange that writes `record` under `policy`, and gives the
    /// first request: a read under read-repair, an upsert otherwise.
    pub fn begin(policy: Policy, record: Record) -> (r: (Exchange, Action))
        ensures
            r.0 == (Exchange { record, pending: opening(policy) }),
            r.1 == request(opening(policy), record),
    {
        match policy {
            Policy::ReadRepair => {
                let first = Action::Read(record.key());
                (Exchange { record, pending: Pending::Read }, first)
            },
            Policy::Upsert => {
                let first = Action::Upsert(record.clone());
                (Exchange { record, pending: Pending::Upsert }, first)
            },
        }
    }

    /// Maps `snapshot` and opens the exchange that writes its row under
    /// `policy`. A snapshot that has no row ends at once with the report of
    /// the mapping failure: no request goes to the store.
    pub fn open(policy: Policy, snapshot: &Snapshot) -> (step: Step)
        ensures
            opens(policy, *snapshot, step),
    {
        match crate::mapper::map(snapshot) {
            Ok(record) => {
                let (exchange, first) = Exchange::begin(policy, record);
                Step::Ask(exchange, first)
            },
            Err(e) => Step::Done(
                Outcome {
                    kind: snapshot.kind(),
                    id: to_signed64(snapshot.id()),
                    status: Status::Failed(Failure::Mapping(e)),
                },
            ),
        }
    }

    fn done(&self, status: Status) -> (step: Step)
        ensures
            step == Step::Done(report(self.record, status)),
    {
        Step::Done(Outcome { kind: self.record.kind(), id: self.record.id(), status })
    }

    /// Takes the store's reply to the pending request and decides what
    /// follows. A request that follows has a lower rank than the one before,
    /// so an exchange ends after at most three requests.
    pub fn advance(self, reply: Reply) -> (s: Step)
        ensures
            s == next(self, reply),
            s matches Step::Ask(x, a) ==> x.pending.rank() < self.pending.rank(),
    {
        match self.pending {
            Pending::Read => match reply {
                Reply::Row(Some(_)) => self.done(Status::Unchanged),
                Reply::Row(None) => {
                    let ask = Action::Create(self.record.clone());
                    Step::Ask(Exchange { record: self.record, pending: Pending::Create }, ask)
                },
                Reply::Failed(e) => self.done(Status::Failed(Failure::Store(e))),
                Reply::Written => self.done(Status::Failed(Failure::OutOfTurn)),
            },
            Pending::Create => match reply {
                Reply::Written => self.done(Status::Created),
                Reply::Failed(e) => {
                    if e == StoreError::Conflict {
                        let ask = Action::Upsert(self.record.clone());
                        Step::Ask(Exchange { record: self.record, pending: Pending::Upsert }, ask)
                    } else {
                        self.done(Status::Failed(Failure::Store(e)))
                    }
                },
                Reply::Row(_) => self.done(Status::Failed(Failure::OutOfTurn)),
            },
            Pending::Upsert => match reply {
                Reply::Written => self.done(Status::Synced),
                Reply::Failed(e) => self.done(Status::Failed(Failure::Store(e))),
                Reply::Row(_) => self.done(Status::Failed(Failure::OutOfTurn)),
            },
        }
    }
}

/// The tables after the store has served `action`.
pub open spec fn served(t: Map<Key, Row>, action: Action) -> Map<Key, Row> {
    match action {
        Action::Read(_) => t,
        Action::Create(r) => after_create(t, r@),
        Action::Upsert(r) => after_upsert(t, r@),
        Action::Update(r) => after_update(t, r@),
        Action::Delete(k) => after_delete(t, k),
    }
}

/// The reply to a write that ended with `error`.
pub open spec fn write_reply(error: Option<StoreError>) -> Reply {
    match error {
        Some(e) => Reply::Failed(e),
        None => Reply::Written,
    }
}

/// Whether `reply` is the store's answer to `action` on tables `t`.
pub open spec fn answers(t: Map<Key, Row>, action: Action, reply: Reply) -> bool {
    match action {
        Action::Read(k) => reply matches Reply::Row(found) && row_of(found) == lookup(t, k),
        Action::Create(r) => reply == write_reply(create_error(t, r@)),
        Action::Upsert(r) => reply == write_reply(upsert_error(t, r@)),
        Action::Update(r) => reply == write_reply(update_error(t, r@)),
        Action::Delete(k) => match delete_error(t, k) {
            Some(e) => reply == Reply::Failed(e),
            None => reply matches Reply::Row(gone) && row_of(gone) == lookup(t, k),
        },
    }
}

impl Store {
    /// Serves one request and gives the reply.
    pub fn perform(&mut self, action: Action) -> (reply: Reply)
        ensures
            coherent(final(self)@),
            final(self)@ == served(old(self)@, action),
            answers(old(self)@, action, reply),
    {
        match action {
            Action::Read(k) => Reply::Row(self.read(k.kind, k.id)),
            Action::Create(r) => match self.create(r) {
                Ok(_) => Reply::Written,
                Err(e) => Reply::Failed(e),
            },
            Action::Upsert(r) => match self.upsert(r) {
                Ok(_) => Reply::Written,
                Err(e) => Reply::Failed(e),
            },
            Action::Update(r) => match self.update(r) {
                Ok(_) => Reply::Written,
                Err(e) => Reply::Failed(e),
            },
            Action::Delete(k) => match self.delete(k.kind, k.id) {
                Ok(gone) => Reply::Row(gone),
                Err(e) => Reply::Failed(e),
            },
        }
    }
}

/// How writing row `r` under `policy` ends on tables `t`.
pub open spec fn verdict(t: Map<Key, Row>, policy: Policy, r: Row) -> Status {
    match policy {
        Policy::ReadRepair => if t.contains_key(r.key()) {
            Status::Unchanged
        } else if !resolved(t, r) {
            Status::Failed(Failure::Store(StoreError::ReferentialViolation))
        } else {
            Status::Created
        },
        Policy::Upsert => if !resolved(t, r) {
            Status::Failed(Failure::Store(StoreError::ReferentialViolation))
        } else {
            Status::Synced
        },
    }
}

/// The tables after row `r` has been written under `policy`: with `r` under
/// its key where the row was created or synced, else as before.
pub open spec fn settled(t: Map<Key, Row>, policy: Policy, r: Row) -> Map<Key, Row> {
    match verdict(t, policy, r) {
        Status::Created => t.insert(r.key(), r),
        Status::Synced => t.insert(r.key(), r),
        _ => t,
    }
}

fn settle(store: &mut Store, policy: Policy, opened: Exchange, first: Action) -> (outcome: Outcome)
    requires
        opened.pending == opening(policy),
        first == request(opened.pending, opened.record),
    ensures
        coherent(final(store)@),
        final(store)@ == settled(old(store)@, policy, opened.record@),
        outcome == report(opened.record, verdict(old(store)@, policy, opened.record@)),
{
    let ghost t0 = store@;
    let ghost record = opened.record;
    let mut exchange = opened;
    let mut action = first;
    let mut outcome = Outcome { kind: EntityKind::User, id: 0, status: Status::Unchanged };
    loop
        invariant_except_break
            store@ == t0,
            exchange.record == record,
            action == request(exchange.pending, record),
            exchange.pending == Pending::Read ==> policy == Policy::ReadRepair,
            exchange.pending == Pending::Create ==> policy == Policy::ReadRepair
                && !t0.contains_key(record@.key()),
            exchange.pending == Pending::Upsert ==> policy == Policy::Upsert,
        ensures
            coherent(store@),
            store@ == settled(t0, policy, record@),
            outcome == report(record, verdict(t0, policy, record@)),
        decreases exchange.pending.rank(),
    {
        let reply = store.perform(action);
        match exchange.advance(reply) {
            Step::Ask(following, asked) => {
                exchange = following;
                action = asked;
            },
            Step::Done(ended) => {
                outcome = ended;
                break;
            },
        }
    }
    outcome
}

/// Writes `record` under `policy` by running the exchange against the store.
pub fn apply(store: &mut Store, policy: Policy, record: Record) -> (status: Status)
    ensures
        coherent(final(store)@),
        final(store)@ == settled(old(store)@, policy, record@),
        status == verdict(old(store)@, policy, record@),
{
    let (exchange, first) = Exchange::begin(policy, record);
    settle(store, policy, exchange, first).status
}

/// Read-repair: creates the row where its key is free and leaves an existing
/// row untouched.
pub fn fetch_or_create(store: &mut Store, record: Record) -> (status: Status)
    ensures
        coherent(final(store)@),
        final(store)@ == settled(old(store)@, Policy::ReadRepair, record@),
        status == verdict(old(store)@, Policy::ReadRepair, record@),
{
    apply(store, Policy::ReadRepair, record)
}

/// Sync: writes the delivered row over whatever the store holds under its key.
pub fn sync(store: &mut Store, record: Record) -> (status: Status)
    ensures
        coherent(final(store)@),
        final(store)@ == settled(old(store)@, Policy::Upsert, record@),
        status == verdict(old(store)@, Policy::Upsert, record@),
{
    apply(store, Policy::Upsert, record)
}

/// The report on snapshot `s`, reconciled under `policy` on tables `t`: a
/// mapping failure where the snapshot has no row, else the verdict on its row.
pub open spec fn outcome_of(t: Map<Key, Row>, policy: Policy, s: Snapshot) -> Outcome {
    Outcome {
        kind: s.kind(),
        id: signed64(s.id()),
        status: match mapped(s) {
            Ok(row) => verdict(t, policy, row),
            Err(e) => Status::Failed(Failure::Mapping(e)),
        },
    }
}

/// The tables after snapshot `s` has been reconciled under `policy`: as they
/// were where the snapshot has no row.
pub open spec fn reconciled(t: Map<Key, Row>, policy: Policy, s: Snapshot) -> Map<Key, Row> {
    match mapped(s) {
        Ok(row) => settled(t, policy, row),
        Err(_) => t,
    }
}

/// The tables after the snapshots of a batch have been reconciled in order.
pub open spec fn reconciled_all(t: Map<Key, Row>, policy: Policy, batch: Seq<Snapshot>) -> Map<
    Key,
    Row,
>
    decreases batch.len(),
{
    if batch.len() == 0 {
        t
    } else {
        reconciled(reconciled_all(t, policy, batch.drop_last()), policy, batch.last())
    }
}

/// The reports on a batch that is reconciled in order: each snapshot is
/// judged on the tables that the snapshots before it have left.
pub open spec fn outcomes_of(t: Map<Key, Row>, policy: Policy, batch: Seq<Snapshot>) -> Seq<
    Outcome,
> {
    Seq::new(
        batch.len(),
        |i: int| outcome_of(reconciled_all(t, policy, batch.take(i)), policy, batch[i]),
    )
}

/// Maps one snapshot and writes its row under `policy`. A snapshot that has
/// no row is reported as a mapping failure, and the store is not asked.
pub fn reconcile(store: &mut Store, policy: Policy, snapshot: &Snapshot) -> (outcome: Outcome)
    ensures
        final(store)@ == reconciled(old(store)@, policy, *snapshot),
        outcome == outcome_of(old(store)@, policy, *snapshot),
{
    match Exchange::open(policy, snapshot) {
        Step::Ask(exchange, first) => settle(store, policy, exchange, first),
        Step::Done(outcome) => outcome,
    }
}

/// Reconciles a batch in order, each snapshot on its own: a failure is
/// reported in its place and the rest of the batch goes on.
pub fn reconcile_all(store: &mut Store, policy: Policy, batch: &Vec<Snapshot>) -> (outcomes: Vec<
    Outcome,
>)
    ensures
        final(store)@ == reconciled_all(old(store)@, policy, batch@),
        outcomes@ == outcomes_of(old(store)@, policy, batch@),
{
    let ghost t0 = store@;
    let mut outcomes: Vec<Outcome> = Vec::new();
    let mut i: usize = 0;
    while i < batch.len()
        invariant
            i <= batch.len(),
            store@ == reconciled_all(t0, policy, batch@.take(i as int)),
            outcomes@ == outcomes_of(t0, policy, batch@.take(i as int)),
        decreases batch.len() - i,
    {
        let outcome = reconcile(store, policy, &batch[i]);
        proof {
            let before = batch@.take(i as int);
            let now = batch@.take(i + 1);
            assert(now.drop_last() == before);
            assert(now.last() == batch@[i as int]);
            assert forall|j: int| 0 <= j <= i implies #[trigger] now.take(j) == batch@.take(j) by {}
            assert forall|j: int| 0 <= j < i implies #[trigger] before.take(j) == batch@.take(j) by {}
            assert(outcomes@.push(outcome) =~= outcomes_of(t0, policy, now));
        }
        outcomes.push(outcome);
        i += 1;
    }
    assert(batch@.take(i as int) == batch@);
    outcomes
}

} // verus!
