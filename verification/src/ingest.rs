//! The ingestion adapter: what each notification of the feed leads to.
//!
//! A notification that the connection is ready writes nothing. A populated
//! cache is written whole, users first, then guilds, then what belongs to a
//! guild, so that no row is written before the rows it refers to. A change of
//! one entity is written by itself. Every write is a sync.

use crate::model::EntityKind;
use crate::reconciler::{Outcome, Policy, outcomes_of, reconcile_all, reconciled_all};
use crate::snapshot::Snapshot;
use crate::store::Store;
use vstd::prelude::*;

verus! {

/// What the feed tells the adapter.
#[derive(Debug, PartialEq, Eq)]
pub enum Notification {
    /// The connection is up; `name` is the name the feed knows us by.
    Ready { name: String },
    /// The feed's cache is complete; these are all the entities in it.
    CachePopulated(Vec<Snapshot>),
    /// One entity has changed.
    EntityChanged(Snapshot),
}

/// The place of a kind in the order of writing: a row refers only to rows of
/// kinds that come before its own.
pub open spec fn rank(kind: EntityKind) -> nat {
    match kind {
        EntityKind::User => 0,
        EntityKind::Guild => 1,
        EntityKind::Channel => 2,
        EntityKind::Role => 3,
        EntityKind::Message => 4,
    }
}

/// The snapshots of one kind, in the order in which the batch holds them.
pub open spec fn of_kind(batch: Seq<Snapshot>, kind: EntityKind) -> Seq<Snapshot> {
    batch.filter(|s: Snapshot| s.kind() == kind)
}

/// The batch by kind: users, guilds, channels, roles, messages.
pub open spec fn in_dependency_order(batch: Seq<Snapshot>) -> Seq<Snapshot> {
    of_kind(batch, EntityKind::User) + of_kind(batch, EntityKind::Guild) + of_kind(
        batch,
        EntityKind::Channel,
    ) + of_kind(batch, EntityKind::Role) + of_kind(batch, EntityKind::Message)
}

/// The snapshots to write for a notification, in the order of writing.
pub open spec fn work(n: Notification) -> Seq<Snapshot> {
    match n {
        Notification::Ready { .. } => Seq::empty(),
        Notification::CachePopulated(batch) => in_dependency_order(batch@),
        Notification::EntityChanged(s) => seq![s],
    }
}

/// Sorts a batch by kind and keeps, within a kind, the order of the batch.
pub fn order(batch: Vec<Snapshot>) -> (list: Vec<Snapshot>)
    ensures
        list@ == in_dependency_order(batch@),
{
    let mut users: Vec<Snapshot> = Vec::new();
    let mut guilds: Vec<Snapshot> = Vec::new();
    let mut channels: Vec<Snapshot> = Vec::new();
    let mut roles: Vec<Snapshot> = Vec::new();
    let mut messages: Vec<Snapshot> = Vec::new();
    let ghost whole = batch@;
    for s in it: batch
        invariant
            it.seq() == whole,
            users@ == of_kind(whole.take(it.index() as int), EntityKind::User),
            guilds@ == of_kind(whole.take(it.index() as int), EntityKind::Guild),
            channels@ == of_kind(whole.take(it.index() as int), EntityKind::Channel),
            roles@ == of_kind(whole.take(it.index() as int), EntityKind::Role),
            messages@ == of_kind(whole.take(it.index() as int), EntityKind::Message),
    {
        proof {
            let seen = whole.take(it.index() as int);
            assert(whole.take(it.index() + 1) == seen.push(s));
            seen.lemma_filter_push(s, |x: Snapshot| x.kind() == EntityKind::User);
            seen.lemma_filter_push(s, |x: Snapshot| x.kind() == EntityKind::Guild);
            seen.lemma_filter_push(s, |x: Snapshot| x.kind() == EntityKind::Channel);
            seen.lemma_filter_push(s, |x: Snapshot| x.kind() == EntityKind::Role);
            seen.lemma_filter_push(s, |x: Snapshot| x.kind() == EntityKind::Message);
        }
        match s.kind() {
            EntityKind::User => users.push(s),
            EntityKind::Guild => guilds.push(s),
            EntityKind::Channel => channels.push(s),
            EntityKind::Role => roles.push(s),
            EntityKind::Message => messages.push(s),
        }
    }
    assert(whole.take(whole.len() as int) == whole);
    users.append(&mut guilds);
    users.append(&mut channels);
    users.append(&mut roles);
    users.append(&mut messages);
    users
}

/// The snapshots to write for a notification, in the order of writing.
pub fn schedule(n: Notification) -> (list: Vec<Snapshot>)
    ensures
        list@ == work(n),
{
    match n {
        Notification::Ready { .. } => Vec::new(),
        Notification::CachePopulated(batch) => order(batch),
        Notification::EntityChanged(s) => {
            let mut one: Vec<Snapshot> = Vec::new();
            one.push(s);
            one
        },
    }
}

/// Handles one notification against the store: syncs the snapshots it calls
/// for, in the order of writing, and reports on each.
pub fn ingest(store: &mut Store, n: Notification) -> (outcomes: Vec<Outcome>)
    ensures
        final(store)@ == reconciled_all(old(store)@, Policy::Upsert, work(n)),
        outcomes@ == outcomes_of(old(store)@, Policy::Upsert, work(n)),
{
    let list = schedule(n);
    reconcile_all(store, Policy::Upsert, &list)
}

} // verus!
