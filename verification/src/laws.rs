//! Laws of the store and of the reconciler, proved of the functions on tables
//! that the contracts of the executable code are stated in.

use crate::ingest::{in_dependency_order, of_kind, rank};
use crate::mapper::{mapped, signed64};
use crate::model::{ChannelRow, EntityKind, GuildRow, Key, Record, Row};
use crate::reconciler::{
    Action, Exchange, Failure, Outcome, Pending, Policy, Reply, Status, Step, next, opening,
    outcome_of, outcomes_of, reconciled, reconciled_all, request, settled, verdict,
};
use crate::snapshot::Snapshot;
use crate::store::{
    StoreError, after_create, after_delete, after_update, after_upsert, coherent, create_error,
    guild_key, lookup, referenced, resolved, update_error, upsert_error,
};
use vstd::prelude::*;

verus! {

/// A snapshot's row is filed under the snapshot's kind and under the signed
/// value of the snapshot's id.
pub proof fn law_row_keeps_kind_and_id(s: Snapshot)
    requires
        mapped(s) is Ok,
    ensures
        mapped(s)->Ok_0.kind() == s.kind(),
        mapped(s)->Ok_0.id() == signed64(s.id()),
{
}

/// Upsert is idempotent: a second upsert of the same row ends as the first
/// did and leaves the tables as the first left them, and where the upsert
/// went through, a read of the key returns the row after one upsert and after
/// two.
pub proof fn law_upsert_idempotent(t: Map<Key, Row>, r: Row)
    ensures
        upsert_error(after_upsert(t, r), r) == upsert_error(t, r),
        after_upsert(after_upsert(t, r), r) == after_upsert(t, r),
        lookup(after_upsert(after_upsert(t, r), r), r.key()) == lookup(
            after_upsert(t, r),
            r.key(),
        ),
        upsert_error(t, r) is None ==> lookup(after_upsert(t, r), r.key()) == Some(r),
{
    let once = after_upsert(t, r);
    assert(resolved(once, r) == resolved(t, r));
    assert(after_upsert(once, r) =~= once);
}

/// Repeating a create, an update or a delete leaves the tables as the first
/// call left them.
pub proof fn law_repeated_write_keeps_tables(t: Map<Key, Row>, r: Row, k: Key)
    ensures
        after_create(after_create(t, r), r) == after_create(t, r),
        after_update(after_update(t, r), r) == after_update(t, r),
        after_delete(after_delete(t, k), k) == after_delete(t, k),
{
    let updated = after_update(t, r);
    assert(resolved(updated, r) == resolved(t, r));
    assert(after_update(updated, r) =~= updated);
    let deleted = after_delete(t, k);
    assert(after_delete(deleted, k) =~= deleted);
}

/// A create fails with `Conflict` exactly where the key is taken, and an
/// update with `NotFound` exactly where it is free.
pub proof fn law_conflict_and_not_found(t: Map<Key, Row>, r: Row)
    ensures
        create_error(t, r) == Some(StoreError::Conflict) <==> t.contains_key(r.key()),
        update_error(t, r) == Some(StoreError::NotFound) <==> !t.contains_key(r.key()),
{
}

/// Read-repair: where the key is free and the row's foreign keys are there,
/// the row is created and a read returns it; where the key is taken, the
/// tables stay as they were, so a read returns the row that was there.
pub proof fn law_read_repair(t: Map<Key, Row>, r: Row)
    ensures
        !t.contains_key(r.key()) && resolved(t, r) ==> {
            &&& verdict(t, Policy::ReadRepair, r) == Status::Created
            &&& lookup(settled(t, Policy::ReadRepair, r), r.key()) == Some(r)
        },
        t.contains_key(r.key()) ==> {
            &&& verdict(t, Policy::ReadRepair, r) == Status::Unchanged
            &&& settled(t, Policy::ReadRepair, r) == t
            &&& lookup(settled(t, Policy::ReadRepair, r), r.key()) == Some(t[r.key()])
        },
{
}

/// Sync overwrites: where the key is taken and the new row's foreign keys are
/// there, a read after the sync returns the new row, whatever was there.
pub proof fn law_sync_overwrites(t: Map<Key, Row>, r: Row)
    requires
        t.contains_key(r.key()),
        resolved(t, r),
    ensures
        verdict(t, Policy::Upsert, r) == Status::Synced,
        lookup(settled(t, Policy::Upsert, r), r.key()) == Some(r),
{
}

/// A sync is one request: it opens with an upsert, and whatever the store
/// replies, the exchange is over. No read goes before the write.
pub proof fn law_sync_is_one_request(record: Record, reply: Reply)
    ensures
        request(opening(Policy::Upsert), record) == Action::Upsert(record),
        next(Exchange { record, pending: opening(Policy::Upsert) }, reply) is Done,
{
}

/// Read-repair writes only after it has read and found nothing: it opens
/// with a read, and a read that finds a row ends the exchange.
pub proof fn law_read_repair_reads_first(record: Record, found: Record)
    ensures
        request(opening(Policy::ReadRepair), record) == Action::Read(record@.key()),
        next(
            Exchange { record, pending: opening(Policy::ReadRepair) },
            Reply::Row(Some(found)),
        ) == Step::Done(
            Outcome { kind: record@.kind(), id: record@.id(), status: Status::Unchanged },
        ),
        next(Exchange { record, pending: Pending::Read }, Reply::Row(None)) == Step::Ask(
            Exchange { record, pending: Pending::Create },
            Action::Create(record),
        ),
{
}

/// A create that lost a race is not a failure: on a conflict the exchange
/// goes on with an upsert of the same row. Every other failure of a create
/// ends the exchange with that failure.
pub proof fn law_conflict_falls_back(record: Record, e: StoreError)
    ensures
        next(Exchange { record, pending: Pending::Create }, Reply::Failed(StoreError::Conflict))
            == Step::Ask(Exchange { record, pending: Pending::Upsert }, Action::Upsert(record)),
        e != StoreError::Conflict ==> next(
            Exchange { record, pending: Pending::Create },
            Reply::Failed(e),
        ) == Step::Done(
            Outcome {
                kind: record@.kind(),
                id: record@.id(),
                status: Status::Failed(Failure::Store(e)),
            },
        ),
{
}

/// The last write wins: of two syncs of rows with the same key, the second
/// to reach the store decides what a read returns.
pub proof fn law_last_write_wins(t: Map<Key, Row>, first: Row, second: Row)
    requires
        first.key() == second.key(),
        resolved(t, first),
        resolved(t, second),
    ensures
        lookup(
            settled(settled(t, Policy::Upsert, first), Policy::Upsert, second),
            second.key(),
        ) == Some(second),
        settled(settled(t, Policy::Upsert, first), Policy::Upsert, second) == settled(
            t,
            Policy::Upsert,
            second,
        ),
{
    let once = settled(t, Policy::Upsert, first);
    assert(resolved(once, second));
    assert(once.insert(second.key(), second) =~= t.insert(second.key(), second));
}

/// Redelivery is harmless: reconciling the same snapshot a second time leaves
/// the tables as the first time left them, under either policy.
pub proof fn law_redelivery_is_idempotent(t: Map<Key, Row>, policy: Policy, s: Snapshot)
    ensures
        reconciled(reconciled(t, policy, s), policy, s) == reconciled(t, policy, s),
        outcome_of(t, policy, s).status.succeeded() ==> outcome_of(
            reconciled(t, policy, s),
            policy,
            s,
        ).status.succeeded(),
{
    if mapped(s) is Ok {
        let r = mapped(s)->Ok_0;
        let once = reconciled(t, policy, s);
        assert(resolved(once, r) == resolved(t, r));
        assert(reconciled(once, policy, s) =~= once);
    }
}

/// A write that dangles changes nothing: the verdict is
/// `ReferentialViolation` and the tables stay as they were.
pub proof fn law_dangling_write_is_refused(t: Map<Key, Row>, policy: Policy, r: Row)
    requires
        !resolved(t, r),
        !t.contains_key(r.key()),
    ensures
        verdict(t, policy, r) == Status::Failed(
            Failure::Store(StoreError::ReferentialViolation),
        ),
        settled(t, policy, r) == t,
{
}

/// Reconciling keeps the tables coherent.
pub proof fn law_reconciling_keeps_coherence(t: Map<Key, Row>, policy: Policy, s: Snapshot)
    requires
        coherent(t),
    ensures
        coherent(reconciled(t, policy, s)),
{
    if mapped(s) is Ok {
        let r = mapped(s)->Ok_0;
        if verdict(t, policy, r).succeeded() && verdict(t, policy, r) != Status::Unchanged {
            crate::store::lemma_insert_coherent(t, r);
        }
    }
}

/// Reconciling never takes a row away: a key that is in the tables is still
/// there after any batch.
pub proof fn law_rows_are_never_lost(t: Map<Key, Row>, policy: Policy, batch: Seq<Snapshot>)
    ensures
        forall|k: Key| t.contains_key(k) ==> reconciled_all(t, policy, batch).contains_key(k),
    decreases batch.len(),
{
    if batch.len() > 0 {
        law_rows_are_never_lost(t, policy, batch.drop_last());
    }
}

/// A batch reconciled up to `i + 1` is the batch reconciled up to `i`, then
/// snapshot `i`.
pub proof fn lemma_reconciled_step(t: Map<Key, Row>, policy: Policy, batch: Seq<Snapshot>, i: int)
    requires
        0 <= i < batch.len(),
    ensures
        reconciled_all(t, policy, batch.take(i + 1)) == reconciled(
            reconciled_all(t, policy, batch.take(i)),
            policy,
            batch[i],
        ),
{
    assert(batch.take(i + 1).drop_last() == batch.take(i));
    assert(batch.take(i + 1).last() == batch[i]);
}

/// A snapshot that has no row leaves no trace in the tables: the batch ends
/// as the batch without it.
pub proof fn lemma_unmapped_leaves_tables(
    t: Map<Key, Row>,
    policy: Policy,
    batch: Seq<Snapshot>,
    bad: int,
)
    requires
        0 <= bad < batch.len(),
        mapped(batch[bad]) is Err,
    ensures
        reconciled_all(t, policy, batch) == reconciled_all(t, policy, batch.remove(bad)),
    decreases batch.len(),
{
    if bad == batch.len() - 1 {
        assert(batch.remove(bad) == batch.drop_last());
    } else {
        lemma_unmapped_leaves_tables(t, policy, batch.drop_last(), bad);
        assert(batch.remove(bad).drop_last() == batch.drop_last().remove(bad));
        assert(batch.remove(bad).last() == batch.last());
    }
}

/// Partial failure is isolated: where a snapshot of a batch has no row, the
/// batch is reconciled to the end, the report in that snapshot's place is the
/// mapping failure, and the other reports and the tables are those of the
/// batch without it.
pub proof fn law_failure_is_isolated(
    t: Map<Key, Row>,
    policy: Policy,
    batch: Seq<Snapshot>,
    bad: int,
)
    requires
        0 <= bad < batch.len(),
        mapped(batch[bad]) is Err,
    ensures
        outcomes_of(t, policy, batch).len() == batch.len(),
        outcomes_of(t, policy, batch)[bad].status == Status::Failed(
            Failure::Mapping(mapped(batch[bad])->Err_0),
        ),
        outcomes_of(t, policy, batch).remove(bad) == outcomes_of(t, policy, batch.remove(bad)),
        reconciled_all(t, policy, batch) == reconciled_all(t, policy, batch.remove(bad)),
{
    lemma_unmapped_leaves_tables(t, policy, batch, bad);
    let all = outcomes_of(t, policy, batch);
    let rest = batch.remove(bad);
    let others = outcomes_of(t, policy, rest);
    assert forall|i: int| 0 <= i < others.len() implies all.remove(bad)[i] == others[i] by {
        if i < bad {
            assert(rest.take(i) == batch.take(i));
        } else {
            lemma_unmapped_leaves_tables(t, policy, batch.take(i + 1), bad);
            assert(batch.take(i + 1).remove(bad) == rest.take(i));
        }
    }
    assert(all.remove(bad) =~= others);
}

/// How many reports of a sequence tell of a success.
pub open spec fn successes(reports: Seq<Outcome>) -> nat
    decreases reports.len(),
{
    if reports.len() == 0 {
        0
    } else {
        successes(reports.drop_last()) + if reports.last().status.succeeded() {
            1nat
        } else {
            0nat
        }
    }
}

proof fn lemma_one_failure(reports: Seq<Outcome>, bad: int)
    requires
        forall|i: int| 0 <= i < reports.len() && i != bad ==> reports[i].status.succeeded(),
        0 <= bad < reports.len() ==> !reports[bad].status.succeeded(),
    ensures
        successes(reports) == if 0 <= bad < reports.len() {
            reports.len() - 1
        } else {
            reports.len() as int
        },
    decreases reports.len(),
{
    if reports.len() > 0 {
        lemma_one_failure(reports.drop_last(), bad);
    }
}

/// A batch of N snapshots of which exactly one has no row, and of which every
/// other row has its foreign keys in the tables from the start, ends with N-1
/// successes and one reported failure, and every one of the N-1 rows is in
/// the tables.
pub proof fn law_one_failure_in_a_batch(
    t: Map<Key, Row>,
    policy: Policy,
    batch: Seq<Snapshot>,
    bad: int,
)
    requires
        0 <= bad < batch.len(),
        mapped(batch[bad]) is Err,
        forall|i: int|
            0 <= i < batch.len() && i != bad ==> mapped(#[trigger] batch[i]) is Ok && resolved(
                t,
                mapped(batch[i])->Ok_0,
            ),
    ensures
        outcomes_of(t, policy, batch).len() == batch.len(),
        successes(outcomes_of(t, policy, batch)) == batch.len() - 1,
        !outcomes_of(t, policy, batch)[bad].status.succeeded(),
        forall|i: int|
            0 <= i < batch.len() && i != bad ==> {
                &&& (#[trigger] outcomes_of(t, policy, batch)[i]).status.succeeded()
                &&& reconciled_all(t, policy, batch).contains_key(mapped(batch[i])->Ok_0.key())
            },
{
    let reports = outcomes_of(t, policy, batch);
    assert forall|i: int| 0 <= i < batch.len() && i != bad implies {
        &&& (#[trigger] reports[i]).status.succeeded()
        &&& reconciled_all(t, policy, batch).contains_key(mapped(batch[i])->Ok_0.key())
    } by {
        let before = reconciled_all(t, policy, batch.take(i));
        let row = mapped(batch[i])->Ok_0;
        law_rows_are_never_lost(t, policy, batch.take(i));
        assert(resolved(before, row));
        lemma_reconciled_step(t, policy, batch, i);
        let after = reconciled_all(t, policy, batch.take(i + 1));
        assert(after.contains_key(row.key()));
        law_rows_are_never_lost(after, policy, batch.skip(i + 1));
        lemma_reconciled_concat(t, policy, batch.take(i + 1), batch.skip(i + 1));
        assert(batch.take(i + 1) + batch.skip(i + 1) == batch);
    }
    lemma_one_failure(reports, bad);
}

/// Reconciling two batches one after the other is reconciling them joined.
pub proof fn lemma_reconciled_concat(
    t: Map<Key, Row>,
    policy: Policy,
    first: Seq<Snapshot>,
    second: Seq<Snapshot>,
)
    ensures
        reconciled_all(t, policy, first + second) == reconciled_all(
            reconciled_all(t, policy, first),
            policy,
            second,
        ),
    decreases second.len(),
{
    if second.len() == 0 {
        assert(first + second == first);
    } else {
        lemma_reconciled_concat(t, policy, first, second.drop_last());
        assert((first + second).drop_last() == first + second.drop_last());
        assert((first + second).last() == second.last());
    }
}

/// Referential ordering: with the guild's owner in the tables, writing a
/// guild and then a channel of that guild succeeds, and the channel is then
/// in the tables. Writing the channel while its guild is missing fails with
/// `ReferentialViolation` and changes nothing, so that the channel can be
/// written again, with success, once the guild has been.
pub proof fn law_guild_before_channel(t: Map<Key, Row>, policy: Policy, g: GuildRow, c: ChannelRow)
    requires
        c.guild_id == g.id,
        resolved(t, Row::Guild(g)),
    ensures
        verdict(t, policy, Row::Guild(g)).succeeded(),
        verdict(settled(t, policy, Row::Guild(g)), policy, Row::Channel(c)).succeeded(),
        settled(settled(t, policy, Row::Guild(g)), policy, Row::Channel(c)).contains_key(
            Row::Channel(c).key(),
        ),
        !t.contains_key(guild_key(g.id)) && !t.contains_key(Row::Channel(c).key()) ==> {
            &&& verdict(t, policy, Row::Channel(c)) == Status::Failed(
                Failure::Store(StoreError::ReferentialViolation),
            )
            &&& settled(t, policy, Row::Channel(c)) == t
        },
{
}

/// A row that another row refers to cannot be deleted, and a row that nothing
/// refers to can: after its delete a read finds nothing.
pub proof fn law_delete(t: Map<Key, Row>, k: Key)
    ensures
        t.contains_key(k) && referenced(t, k) ==> after_delete(t, k) == t,
        !referenced(t, k) ==> lookup(after_delete(t, k), k) is None,
{
}

/// Whether some snapshot of the batch has a row with key `k`.
pub open spec fn provides(batch: Seq<Snapshot>, k: Key) -> bool {
    exists|j: int|
        0 <= j < batch.len() && mapped(#[trigger] batch[j]) is Ok && mapped(batch[j])->Ok_0.key()
            == k
}

/// Whether a batch brings along what it refers to: every snapshot has a row,
/// and each of its foreign keys names a row of the tables or of the batch.
pub open spec fn self_contained(t: Map<Key, Row>, batch: Seq<Snapshot>) -> bool {
    forall|i: int|
        0 <= i < batch.len() ==> {
            &&& mapped(#[trigger] batch[i]) is Ok
            &&& forall|k: Key| #[trigger]
                mapped(batch[i])->Ok_0.refers_to(k) ==> t.contains_key(k) || provides(batch, k)
        }
}

/// A row refers only to rows of kinds that are written before its own.
pub proof fn lemma_references_point_back(r: Row, k: Key)
    requires
        r.refers_to(k),
    ensures
        rank(k.kind) < rank(r.kind()),
{
}

/// The foreign keys of a row are there exactly where every key that the row
/// refers to is there.
pub proof fn lemma_resolved_by_reference(t: Map<Key, Row>, r: Row)
    ensures
        resolved(t, r) <==> forall|k: Key| #[trigger] r.refers_to(k) ==> t.contains_key(k),
{
    if forall|k: Key| #[trigger] r.refers_to(k) ==> t.contains_key(k) {
        match r {
            Row::User(_) => {},
            Row::Guild(g) => {
                assert(r.refers_to(Key { kind: EntityKind::User, id: g.owner_id }));
            },
            Row::Channel(c) => {
                assert(r.refers_to(Key { kind: EntityKind::Guild, id: c.guild_id }));
            },
            Row::Message(m) => {
                assert(r.refers_to(Key { kind: EntityKind::Channel, id: m.channel_id }));
                assert(r.refers_to(Key { kind: EntityKind::User, id: m.author }));
                assert(r.refers_to(Key { kind: EntityKind::Guild, id: m.guild_id }));
            },
            Row::Role(x) => {
                assert(r.refers_to(Key { kind: EntityKind::Guild, id: x.guild_id }));
            },
        }
    }
}

proof fn lemma_of_kind(batch: Seq<Snapshot>, kind: EntityKind)
    ensures
        forall|p: int|
            0 <= p < of_kind(batch, kind).len() ==> (#[trigger] of_kind(batch, kind)[p]).kind()
                == kind && batch.contains(of_kind(batch, kind)[p]),
        forall|i: int|
            0 <= i < batch.len() && (#[trigger] batch[i]).kind() == kind ==> of_kind(
                batch,
                kind,
            ).contains(batch[i]),
    decreases batch.len(),
{
    let keep = |s: Snapshot| s.kind() == kind;
    reveal(Seq::filter);
    if batch.len() > 0 {
        let front = batch.drop_last();
        lemma_of_kind(front, kind);
        let part = of_kind(batch, kind);
        assert forall|p: int| 0 <= p < part.len() implies (#[trigger] part[p]).kind() == kind
            && batch.contains(part[p]) by {
            if p < of_kind(front, kind).len() {
                let s = of_kind(front, kind)[p];
                assert(front.contains(s));
                let i = choose|i: int| 0 <= i < front.len() && front[i] == s;
                assert(batch[i] == s);
            } else {
                assert(part[p] == batch.last());
                assert(batch[batch.len() - 1] == batch.last());
            }
        }
        assert forall|i: int| 0 <= i < batch.len() && (#[trigger] batch[i]).kind()
            == kind implies part.contains(batch[i]) by {
            if i < front.len() {
                assert(front[i] == batch[i]);
                assert(of_kind(front, kind).contains(front[i]));
                let p = choose|p: int|
                    0 <= p < of_kind(front, kind).len() && of_kind(front, kind)[p] == front[i];
                assert(part[p] == batch[i]);
            } else {
                assert(part[part.len() - 1] == batch[i]);
            }
        }
    }
}

/// The batch in the order of writing holds the snapshots of the batch and no
/// others, and never a kind before a kind that it depends on.
pub proof fn lemma_order(batch: Seq<Snapshot>)
    ensures
        forall|s: Snapshot| in_dependency_order(batch).contains(s) <==> batch.contains(s),
        forall|p: int, q: int|
            0 <= p < q < in_dependency_order(batch).len() ==> rank(
                (#[trigger] in_dependency_order(batch)[p]).kind(),
            ) <= rank((#[trigger] in_dependency_order(batch)[q]).kind()),
{
    let users = of_kind(batch, EntityKind::User);
    let guilds = of_kind(batch, EntityKind::Guild);
    let channels = of_kind(batch, EntityKind::Channel);
    let roles = of_kind(batch, EntityKind::Role);
    let messages = of_kind(batch, EntityKind::Message);
    let list = in_dependency_order(batch);
    lemma_of_kind(batch, EntityKind::User);
    lemma_of_kind(batch, EntityKind::Guild);
    lemma_of_kind(batch, EntityKind::Channel);
    lemma_of_kind(batch, EntityKind::Role);
    lemma_of_kind(batch, EntityKind::Message);
    let a = users.len() as int;
    let b = a + guilds.len();
    let c = b + channels.len();
    let d = c + roles.len();
    assert forall|p: int| 0 <= p < list.len() implies rank((#[trigger] list[p]).kind()) == (if p
        < a {
        0nat
    } else if p < b {
        1nat
    } else if p < c {
        2nat
    } else if p < d {
        3nat
    } else {
        4nat
    }) && batch.contains(list[p]) by {
        if p < a {
            assert(list[p] == users[p]);
        } else if p < b {
            assert(list[p] == guilds[p - a]);
        } else if p < c {
            assert(list[p] == channels[p - b]);
        } else if p < d {
            assert(list[p] == roles[p - c]);
        } else {
            assert(list[p] == messages[p - d]);
        }
    }
    assert forall|s: Snapshot| batch.contains(s) implies list.contains(s) by {
        let i = choose|i: int| 0 <= i < batch.len() && batch[i] == s;
        match s.kind() {
            EntityKind::User => {
                assert(users.contains(batch[i]));
                let p = choose|p: int| 0 <= p < users.len() && users[p] == s;
                assert(list[p] == s);
            },
            EntityKind::Guild => {
                assert(guilds.contains(batch[i]));
                let p = choose|p: int| 0 <= p < guilds.len() && guilds[p] == s;
                assert(list[a + p] == s);
            },
            EntityKind::Channel => {
                assert(channels.contains(batch[i]));
                let p = choose|p: int| 0 <= p < channels.len() && channels[p] == s;
                assert(list[b + p] == s);
            },
            EntityKind::Role => {
                assert(roles.contains(batch[i]));
                let p = choose|p: int| 0 <= p < roles.len() && roles[p] == s;
                assert(list[c + p] == s);
            },
            EntityKind::Message => {
                assert(messages.contains(batch[i]));
                let p = choose|p: int| 0 <= p < messages.len() && messages[p] == s;
                assert(list[d + p] == s);
            },
        }
    }
    assert forall|s: Snapshot| list.contains(s) implies batch.contains(s) by {
        let p = choose|p: int| 0 <= p < list.len() && list[p] == s;
        assert(batch.contains(list[p]));
    }
}

/// Whether every snapshot of the list has a row whose foreign keys name rows
/// of the tables or of snapshots that stand before it in the list.
pub open spec fn ready_in_turn(t: Map<Key, Row>, list: Seq<Snapshot>) -> bool {
    forall|p: int|
        0 <= p < list.len() ==> {
            &&& mapped(#[trigger] list[p]) is Ok
            &&& forall|k: Key| #[trigger]
                mapped(list[p])->Ok_0.refers_to(k) ==> t.contains_key(k) || provides(
                    list.take(p),
                    k,
                )
        }
}

/// A list that is ready in turn is synced without a failure, and the row of
/// each of its snapshots is then in the tables.
pub proof fn lemma_ready_list_syncs(t: Map<Key, Row>, list: Seq<Snapshot>, n: int)
    requires
        ready_in_turn(t, list),
        0 <= n <= list.len(),
    ensures
        forall|p: int|
            0 <= p < n ==> (#[trigger] outcomes_of(t, Policy::Upsert, list)[p]).status
                == Status::Synced,
        forall|p: int|
            0 <= p < n ==> reconciled_all(t, Policy::Upsert, list.take(n)).contains_key(
                mapped(#[trigger] list[p])->Ok_0.key(),
            ),
    decreases n,
{
    if n > 0 {
        let m = n - 1;
        lemma_ready_list_syncs(t, list, m);
        let before = reconciled_all(t, Policy::Upsert, list.take(m));
        let row = mapped(list[m])->Ok_0;
        law_rows_are_never_lost(t, Policy::Upsert, list.take(m));
        assert forall|k: Key| #[trigger] row.refers_to(k) implies before.contains_key(k) by {
            if !t.contains_key(k) {
                assert(provides(list.take(m), k));
                let j = choose|j: int|
                    0 <= j < list.take(m).len() && mapped(#[trigger] list.take(m)[j]) is Ok
                        && mapped(list.take(m)[j])->Ok_0.key() == k;
                assert(list.take(m)[j] == list[j]);
            }
        }
        lemma_resolved_by_reference(before, row);
        lemma_reconciled_step(t, Policy::Upsert, list, m);
        let after = reconciled_all(t, Policy::Upsert, list.take(n));
        assert(after == before.insert(row.key(), row));
        assert forall|p: int| 0 <= p < n implies after.contains_key(
            mapped(#[trigger] list[p])->Ok_0.key(),
        ) by {}
    }
}

/// Dependency order: a batch that brings along what it refers to is synced
/// without a failure when it is written in the order of [`in_dependency_order`],
/// whatever order the batch itself is in.
pub proof fn law_dependency_order(t: Map<Key, Row>, batch: Seq<Snapshot>)
    requires
        self_contained(t, batch),
    ensures
        forall|p: int|
            0 <= p < in_dependency_order(batch).len() ==> (#[trigger] outcomes_of(
                t,
                Policy::Upsert,
                in_dependency_order(batch),
            )[p]).status == Status::Synced,
        forall|i: int|
            0 <= i < batch.len() ==> reconciled_all(
                t,
                Policy::Upsert,
                in_dependency_order(batch),
            ).contains_key(mapped(#[trigger] batch[i])->Ok_0.key()),
{
    let list = in_dependency_order(batch);
    lemma_order(batch);
    assert forall|p: int| 0 <= p < list.len() implies {
        &&& mapped(#[trigger] list[p]) is Ok
        &&& forall|k: Key| #[trigger]
            mapped(list[p])->Ok_0.refers_to(k) ==> t.contains_key(k) || provides(list.take(p), k)
    } by {
        assert(batch.contains(list[p]));
        let i = choose|i: int| 0 <= i < batch.len() && batch[i] == list[p];
        assert(mapped(batch[i]) is Ok);
        let row = mapped(list[p])->Ok_0;
        assert forall|k: Key| #[trigger] row.refers_to(k) implies t.contains_key(k) || provides(
            list.take(p),
            k,
        ) by {
            assert(mapped(batch[i])->Ok_0.refers_to(k));
            if !t.contains_key(k) {
                assert(provides(batch, k));
                let j = choose|j: int|
                    0 <= j < batch.len() && mapped(#[trigger] batch[j]) is Ok && mapped(
                        batch[j],
                    )->Ok_0.key() == k;
                assert(batch.contains(batch[j]));
                assert(list.contains(batch[j]));
                let q = choose|q: int| 0 <= q < list.len() && list[q] == batch[j];
                lemma_references_point_back(row, k);
                assert(rank(list[q].kind()) < rank(list[p].kind()));
                if q >= p {
                    if q > p {
                        assert(rank(list[p].kind()) <= rank(list[q].kind()));
                    }
                }
                assert(q < p);
                assert(list.take(p)[q] == list[q]);
                assert(mapped(list.take(p)[q]) is Ok);
            }
        }
    }
    assert(ready_in_turn(t, list));
    lemma_ready_list_syncs(t, list, list.len() as int);
    assert(list.take(list.len() as int) == list);
    assert forall|i: int| 0 <= i < batch.len() implies reconciled_all(
        t,
        Policy::Upsert,
        list,
    ).contains_key(mapped(#[trigger] batch[i])->Ok_0.key()) by {
        assert(batch.contains(batch[i]));
        assert(list.contains(batch[i]));
        let p = choose|p: int| 0 <= p < list.len() && list[p] == batch[i];
        assert(mapped(list[p])->Ok_0.key() == mapped(batch[i])->Ok_0.key());
    }
}

} // verus!
