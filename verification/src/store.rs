//! The record store: five tables behind one interface, with primary keys,
//! foreign keys and the five operations on a row.
//!
//! The store is modelled as a map from keys to rows. Every operation is
//! stated as a function on that map, and [`Store`] is an in-memory store that
//! is proved to follow it.

use crate::model::{EntityKind, Key, Record, Row};
use vstd::prelude::*;

verus! {

/// Why a store operation did not take effect.
#[derive(Clone, Copy, Debug, PartialEq, Eq, Structural)]
pub enum StoreError {
    /// A row with the same key is already there.
    Conflict,
    /// No row has the key.
    NotFound,
    /// A foreign key would name a row that is not there.
    ReferentialViolation,
    /// The store could not be reached.
    Connection,
    /// The store did not answer in time.
    Timeout,
}

impl StoreError {
    /// Whether the same operation may succeed when it is tried again.
    pub open spec fn transient(self) -> bool {
        self == StoreError::Connection || self == StoreError::Timeout
    }

    /// Whether the same operation may succeed when it is tried again: true of
    /// a lost connection and of a timeout, false of the errors that the
    /// contents of the store decide.
    pub fn is_retryable(&self) -> (b: bool)
        ensures
            b == self.transient(),
    {
        match self {
            StoreError::Connection => true,
            StoreError::Timeout => true,
            _ => false,
        }
    }
}

/// What a database driver reports when a statement did not run to its end.
#[derive(Clone, Copy, Debug, PartialEq, Eq, Structural)]
pub enum DriverFault {
    /// The database refused the statement for a unique or primary key.
    UniqueViolation,
    /// The database refused the statement for a foreign key.
    ForeignKeyViolation,
    /// A row was asked for and none came back.
    RowNotFound,
    /// No connection of the pool came free in time.
    PoolTimedOut,
    /// The statement did not answer in time.
    Elapsed,
    /// Anything else: the connection broke, or the database refused for a
    /// reason that the store has no word for.
    Other,
}

/// The store's word for a driver's fault.
pub open spec fn fault_error(fault: DriverFault) -> StoreError {
    match fault {
        DriverFault::UniqueViolation => StoreError::Conflict,
        DriverFault::ForeignKeyViolation => StoreError::ReferentialViolation,
        DriverFault::RowNotFound => StoreError::NotFound,
        DriverFault::PoolTimedOut => StoreError::Timeout,
        DriverFault::Elapsed => StoreError::Timeout,
        DriverFault::Other => StoreError::Connection,
    }
}

/// The error of an update statement that ran and changed `rows` rows: an
/// update that changed no row found none with the key.
pub open spec fn update_shortfall(rows: u64) -> Option<StoreError> {
    if rows == 0 {
        Some(StoreError::NotFound)
    } else {
        None
    }
}

impl StoreError {
    /// The store's word for a driver's fault: a key that is taken is a
    /// conflict, a foreign key that dangles a referential violation, a wait
    /// that ran out a timeout, and what is left a lost connection.
    pub fn from_fault(fault: DriverFault) -> (e: StoreError)
        ensures
            e == fault_error(fault),
    {
        match fault {
            DriverFault::UniqueViolation => StoreError::Conflict,
            DriverFault::ForeignKeyViolation => StoreError::ReferentialViolation,
            DriverFault::RowNotFound => StoreError::NotFound,
            DriverFault::PoolTimedOut => StoreError::Timeout,
            DriverFault::Elapsed => StoreError::Timeout,
            DriverFault::Other => StoreError::Connection,
        }
    }

    /// The verdict on an update statement that ran and changed `rows` rows:
    /// `NotFound` where it changed none.
    pub fn of_update(rows: u64) -> (res: Result<(), StoreError>)
        ensures
            match update_shortfall(rows) {
                Some(e) => res == Err::<(), StoreError>(e),
                None => res is Ok,
            },
    {
        if rows == 0 {
            Err(StoreError::NotFound)
        } else {
            Ok(())
        }
    }
}

/// Key of the `users` row with the given id.
pub open spec fn user_key(id: i64) -> Key {
    Key { kind: EntityKind::User, id }
}

/// Key of the `guilds` row with the given id.
pub open spec fn guild_key(id: i64) -> Key {
    Key { kind: EntityKind::Guild, id }
}

/// Key of the `channels` row with the given id.
pub open spec fn channel_key(id: i64) -> Key {
    Key { kind: EntityKind::Channel, id }
}

/// Whether every foreign key of `r` names a row of `t`.
pub open spec fn resolved(t: Map<Key, Row>, r: Row) -> bool {
    match r {
        Row::User(_) => true,
        Row::Guild(g) => t.contains_key(user_key(g.owner_id)),
        Row::Channel(c) => t.contains_key(guild_key(c.guild_id)),
        Row::Message(m) => {
            &&& t.contains_key(channel_key(m.channel_id))
            &&& t.contains_key(user_key(m.author))
            &&& t.contains_key(guild_key(m.guild_id))
        },
        Row::Role(r) => t.contains_key(guild_key(r.guild_id)),
    }
}

/// Whether some row of `t` has a foreign key that names `k`.
pub open spec fn referenced(t: Map<Key, Row>, k: Key) -> bool {
    exists|j: Key| t.contains_key(j) && (#[trigger] t[j]).refers_to(k)
}

/// What holds of the tables at all times: each row is filed under its own
/// key, and every foreign key names a row that is there.
pub open spec fn coherent(t: Map<Key, Row>) -> bool {
    &&& forall|k: Key| t.contains_key(k) ==> (#[trigger] t[k]).key() == k
    &&& forall|k: Key| t.contains_key(k) ==> resolved(t, #[trigger] t[k])
}

/// The error of `create`, if any: the key is taken, or a foreign key dangles.
pub open spec fn create_error(t: Map<Key, Row>, r: Row) -> Option<StoreError> {
    if t.contains_key(r.key()) {
        Some(StoreError::Conflict)
    } else if !resolved(t, r) {
        Some(StoreError::ReferentialViolation)
    } else {
        None
    }
}

/// The error of `upsert`, if any: a foreign key dangles.
pub open spec fn upsert_error(t: Map<Key, Row>, r: Row) -> Option<StoreError> {
    if !resolved(t, r) {
        Some(StoreError::ReferentialViolation)
    } else {
        None
    }
}

/// The error of `update`, if any: no row has the key, or a foreign key dangles.
pub open spec fn update_error(t: Map<Key, Row>, r: Row) -> Option<StoreError> {
    if !t.contains_key(r.key()) {
        Some(StoreError::NotFound)
    } else if !resolved(t, r) {
        Some(StoreError::ReferentialViolation)
    } else {
        None
    }
}

/// The error of `delete`, if any: another row still refers to the one to go.
pub open spec fn delete_error(t: Map<Key, Row>, k: Key) -> Option<StoreError> {
    if t.contains_key(k) && referenced(t, k) {
        Some(StoreError::ReferentialViolation)
    } else {
        None
    }
}

/// The tables after a write of `r` that ended with `error`.
pub open spec fn written(t: Map<Key, Row>, r: Row, error: Option<StoreError>) -> Map<Key, Row> {
    if error is None {
        t.insert(r.key(), r)
    } else {
        t
    }
}

/// The tables after `create(r)`.
pub open spec fn after_create(t: Map<Key, Row>, r: Row) -> Map<Key, Row> {
    written(t, r, create_error(t, r))
}

/// The tables after `upsert(r)`.
pub open spec fn after_upsert(t: Map<Key, Row>, r: Row) -> Map<Key, Row> {
    written(t, r, upsert_error(t, r))
}

/// The tables after `update(r)`.
pub open spec fn after_update(t: Map<Key, Row>, r: Row) -> Map<Key, Row> {
    written(t, r, update_error(t, r))
}

/// The tables after `delete(k)`.
pub open spec fn after_delete(t: Map<Key, Row>, k: Key) -> Map<Key, Row> {
    if delete_error(t, k) is None {
        t.remove(k)
    } else {
        t
    }
}

/// The row that `read(k)` returns.
pub open spec fn lookup(t: Map<Key, Row>, k: Key) -> Option<Row> {
    if t.contains_key(k) {
        Some(t[k])
    } else {
        None
    }
}

/// View of an optional row.
pub open spec fn row_of(r: Option<Record>) -> Option<Row> {
    match r {
        Some(x) => Some(x@),
        None => None,
    }
}

spec fn key_at(rows: Seq<Record>, i: int) -> Key {
    rows[i]@.key()
}

spec fn holds(rows: Seq<Record>, k: Key) -> bool {
    exists|i: int| 0 <= i < rows.len() && #[trigger] key_at(rows, i) == k
}

spec fn slot(rows: Seq<Record>, k: Key) -> int {
    choose|i: int| 0 <= i < rows.len() && #[trigger] key_at(rows, i) == k
}

spec fn table(rows: Seq<Record>) -> Map<Key, Row> {
    Map::new(|k: Key| holds(rows, k), |k: Key| rows[slot(rows, k)]@)
}

spec fn distinct(rows: Seq<Record>) -> bool {
    forall|i: int, j: int|
        0 <= i < j < rows.len() ==> #[trigger] key_at(rows, i) != #[trigger] key_at(rows, j)
}

proof fn lemma_slot(rows: Seq<Record>, i: int)
    requires
        distinct(rows),
        0 <= i < rows.len(),
    ensures
        holds(rows, key_at(rows, i)),
        slot(rows, key_at(rows, i)) == i,
        table(rows).contains_key(key_at(rows, i)),
        table(rows)[key_at(rows, i)] == rows[i]@,
{
    let k = key_at(rows, i);
    let j = slot(rows, k);
    assert(0 <= j < rows.len() && key_at(rows, j) == k);
    if j < i {
        assert(key_at(rows, j) != key_at(rows, i));
    } else if i < j {
        assert(key_at(rows, i) != key_at(rows, j));
    }
}

proof fn lemma_push(rows: Seq<Record>, r: Record)
    requires
        distinct(rows),
        !holds(rows, r@.key()),
    ensures
        distinct(rows.push(r)),
        table(rows.push(r)) == table(rows).insert(r@.key(), r@),
{
    let next = rows.push(r);
    assert forall|i: int, j: int| 0 <= i < j < next.len() implies #[trigger] key_at(next, i)
        != #[trigger] key_at(next, j) by {
        if j < rows.len() {
            assert(key_at(rows, i) != key_at(rows, j));
        } else {
            assert(key_at(rows, i) == key_at(next, i));
        }
    }
    assert forall|k: Key| holds(next, k) <==> (holds(rows, k) || k == r@.key()) by {
        if holds(next, k) {
            let i = slot(next, k);
            if i < rows.len() {
                assert(key_at(rows, i) == k);
            }
        }
        if holds(rows, k) {
            let i = slot(rows, k);
            assert(key_at(next, i) == k);
        }
        if k == r@.key() {
            assert(key_at(next, rows.len() as int) == k);
        }
    }
    assert forall|k: Key| holds(next, k) implies #[trigger] table(next)[k] == table(rows).insert(
        r@.key(),
        r@,
    )[k] by {
        let i = slot(next, k);
        lemma_slot(next, i);
        if i < rows.len() {
            assert(key_at(rows, i) == k);
            lemma_slot(rows, i);
        }
    }
    assert(table(next) =~= table(rows).insert(r@.key(), r@));
}

proof fn lemma_update(rows: Seq<Record>, i: int, r: Record)
    requires
        distinct(rows),
        0 <= i < rows.len(),
        key_at(rows, i) == r@.key(),
    ensures
        distinct(rows.update(i, r)),
        table(rows.update(i, r)) == table(rows).insert(r@.key(), r@),
{
    let next = rows.update(i, r);
    assert forall|a: int| 0 <= a < rows.len() implies key_at(next, a) == key_at(rows, a) by {}
    assert forall|a: int, b: int| 0 <= a < b < next.len() implies #[trigger] key_at(next, a)
        != #[trigger] key_at(next, b) by {
        assert(key_at(rows, a) != key_at(rows, b));
    }
    assert forall|k: Key| holds(next, k) <==> holds(rows, k) by {
        if holds(next, k) {
            let a = slot(next, k);
            assert(key_at(rows, a) == k);
        }
        if holds(rows, k) {
            let a = slot(rows, k);
            assert(key_at(next, a) == k);
        }
    }
    lemma_slot(rows, i);
    assert forall|k: Key| holds(next, k) implies #[trigger] table(next)[k] == table(rows).insert(
        r@.key(),
        r@,
    )[k] by {
        let a = slot(next, k);
        lemma_slot(next, a);
        assert(key_at(rows, a) == k);
        lemma_slot(rows, a);
    }
    assert(table(next) =~= table(rows).insert(r@.key(), r@));
}

proof fn lemma_remove(rows: Seq<Record>, i: int)
    requires
        distinct(rows),
        0 <= i < rows.len(),
    ensures
        distinct(rows.remove(i)),
        table(rows.remove(i)) == table(rows).remove(key_at(rows, i)),
{
    let next = rows.remove(i);
    let gone = key_at(rows, i);
    assert forall|a: int| 0 <= a < next.len() implies key_at(next, a) == key_at(
        rows,
        if a < i {
            a
        } else {
            a + 1
        },
    ) by {}
    assert forall|a: int, b: int| 0 <= a < b < next.len() implies #[trigger] key_at(next, a)
        != #[trigger] key_at(next, b) by {
        let a0 = if a < i {
            a
        } else {
            a + 1
        };
        let b0 = if b < i {
            b
        } else {
            b + 1
        };
        assert(key_at(rows, a0) != key_at(rows, b0));
    }
    assert forall|k: Key| holds(next, k) <==> (holds(rows, k) && k != gone) by {
        if holds(next, k) {
            let a = slot(next, k);
            let a0 = if a < i {
                a
            } else {
                a + 1
            };
            assert(key_at(rows, a0) == k);
            lemma_slot(rows, a0);
            lemma_slot(rows, i);
        }
        if holds(rows, k) && k != gone {
            let a = slot(rows, k);
            let a1 = if a < i {
                a
            } else {
                a - 1
            };
            assert(key_at(next, a1) == k);
        }
    }
    assert forall|k: Key| holds(next, k) implies #[trigger] table(next)[k] == table(rows).remove(
        gone,
    )[k] by {
        let a = slot(next, k);
        lemma_slot(next, a);
        let a0 = if a < i {
            a
        } else {
            a + 1
        };
        assert(key_at(rows, a0) == k);
        lemma_slot(rows, a0);
    }
    assert(table(next) =~= table(rows).remove(gone));
}

proof fn lemma_referenced(rows: Seq<Record>, k: Key)
    requires
        distinct(rows),
    ensures
        referenced(table(rows), k) <==> exists|i: int|
            0 <= i < rows.len() && (#[trigger] rows[i])@.refers_to(k),
{
    let t = table(rows);
    if referenced(t, k) {
        let j = choose|j: Key| t.contains_key(j) && (#[trigger] t[j]).refers_to(k);
        let i = slot(rows, j);
        assert(0 <= i < rows.len() && key_at(rows, i) == j);
        assert(rows[i]@.refers_to(k));
    }
    if exists|i: int| 0 <= i < rows.len() && (#[trigger] rows[i])@.refers_to(k) {
        let i = choose|i: int| 0 <= i < rows.len() && (#[trigger] rows[i])@.refers_to(k);
        lemma_slot(rows, i);
        assert(t[key_at(rows, i)].refers_to(k));
    }
}

/// A write keeps the tables coherent when it files the row under its own key
/// and the row's foreign keys are all there.
pub proof fn lemma_insert_coherent(t: Map<Key, Row>, r: Row)
    requires
        coherent(t),
        resolved(t, r),
    ensures
        coherent(t.insert(r.key(), r)),
{
    let next = t.insert(r.key(), r);
    assert forall|k: Key| next.contains_key(k) implies resolved(next, #[trigger] next[k]) by {
        if k != r.key() {
            assert(resolved(t, t[k]));
        }
    }
}

/// Taking out a row that nothing refers to keeps the tables coherent.
pub proof fn lemma_remove_coherent(t: Map<Key, Row>, k: Key)
    requires
        coherent(t),
        !referenced(t, k),
    ensures
        coherent(t.remove(k)),
{
    let next = t.remove(k);
    assert forall|j: Key| next.contains_key(j) implies resolved(next, #[trigger] next[j]) by {
        assert(resolved(t, t[j]));
        assert(!t[j].refers_to(k));
    }
}

fn find(rows: &Vec<Record>, k: Key) -> (r: Option<usize>)
    ensures
        match r {
            Some(i) => i < rows.len() && key_at(rows@, i as int) == k,
            None => !holds(rows@, k),
        },
{
    let mut i: usize = 0;
    while i < rows.len()
        invariant
            i <= rows.len(),
            forall|j: int| 0 <= j < i ==> key_at(rows@, j) != k,
        decreases rows.len() - i,
    {
        if rows[i].key() == k {
            return Some(i);
        }
        i += 1;
    }
    None
}

fn has(rows: &Vec<Record>, k: Key) -> (b: bool)
    ensures
        b == table(rows@).contains_key(k),
{
    find(rows, k).is_some()
}

fn all_resolved(rows: &Vec<Record>, record: &Record) -> (b: bool)
    ensures
        b == resolved(table(rows@), record@),
{
    match record {
        Record::User(_) => true,
        Record::Guild(g) => has(rows, Key::new(EntityKind::User, g.owner_id)),
        Record::Channel(c) => has(rows, Key::new(EntityKind::Guild, c.guild_id)),
        Record::Message(m) => {
            has(rows, Key::new(EntityKind::Channel, m.channel_id)) && has(
                rows,
                Key::new(EntityKind::User, m.author),
            ) && has(rows, Key::new(EntityKind::Guild, m.guild_id))
        },
        Record::Role(r) => has(rows, Key::new(EntityKind::Guild, r.guild_id)),
    }
}

fn any_refers_to(rows: &Vec<Record>, k: Key) -> (b: bool)
    requires
        distinct(rows@),
    ensures
        b == referenced(table(rows@), k),
{
    let mut i: usize = 0;
    while i < rows.len()
        invariant
            i <= rows.len(),
            distinct(rows@),
            forall|j: int| 0 <= j < i ==> !(#[trigger] rows@[j])@.refers_to(k),
        decreases rows.len() - i,
    {
        if rows[i].refers_to(k) {
            proof {
                lemma_referenced(rows@, k);
            }
            return true;
        }
        i += 1;
    }
    proof {
        lemma_referenced(rows@, k);
    }
    false
}

/// An in-memory record store.
pub struct Store {
    rows: Vec<Record>,
}

impl View for Store {
    type V = Map<Key, Row>;

    closed spec fn view(&self) -> Map<Key, Row> {
        table(self.rows@)
    }
}

impl Store {
    #[verifier::type_invariant]
    spec fn sound(self) -> bool {
        distinct(self.rows@) && coherent(table(self.rows@))
    }

    /// A store with no rows.
    pub fn new() -> (s: Store)
        ensures
            s@ == Map::<Key, Row>::empty(),
            coherent(s@),
    {
        let s = Store { rows: Vec::new() };
        assert(table(s.rows@) =~= Map::<Key, Row>::empty());
        s
    }

    /// Inserts a new row and returns it. Fails with `Conflict` where the key
    /// is taken, else with `ReferentialViolation` where a foreign key names a
    /// row that is not there; the tables are then left as they were.
    pub fn create(&mut self, record: Record) -> (res: Result<Record, StoreError>)
        ensures
            coherent(final(self)@),
            final(self)@ == after_create(old(self)@, record@),
            match create_error(old(self)@, record@) {
                Some(e) => res == Err::<Record, StoreError>(e),
                None => res is Ok && res->Ok_0@ == record@,
            },
    {
        proof {
            use_type_invariant(&*self);
        }
        if has(&self.rows, record.key()) {
            return Err(StoreError::Conflict);
        }
        if !all_resolved(&self.rows, &record) {
            return Err(StoreError::ReferentialViolation);
        }
        let kept = record.clone();
        proof {
            lemma_push(self.rows@, kept);
            lemma_insert_coherent(table(self.rows@), kept@);
        }
        let mut rows = Vec::new();
        core::mem::swap(&mut rows, &mut self.rows);
        rows.push(kept);
        self.rows = rows;
        Ok(record)
    }

    /// Inserts the row where its key is free, else overwrites every column of
    /// the row that has the key, and returns the row. Fails with
    /// `ReferentialViolation` where a foreign key names a row that is not
    /// there; the tables are then left as they were.
    pub fn upsert(&mut self, record: Record) -> (res: Result<Record, StoreError>)
        ensures
            coherent(final(self)@),
            final(self)@ == after_upsert(old(self)@, record@),
            match upsert_error(old(self)@, record@) {
                Some(e) => res == Err::<Record, StoreError>(e),
                None => res is Ok && res->Ok_0@ == record@,
            },
    {
        proof {
            use_type_invariant(&*self);
        }
        if !all_resolved(&self.rows, &record) {
            return Err(StoreError::ReferentialViolation);
        }
        let kept = record.clone();
        let place = find(&self.rows, record.key());
        proof {
            lemma_insert_coherent(table(self.rows@), kept@);
            match place {
                Some(i) => lemma_update(self.rows@, i as int, kept),
                None => lemma_push(self.rows@, kept),
            }
        }
        let mut rows = Vec::new();
        core::mem::swap(&mut rows, &mut self.rows);
        match place {
            Some(i) => {
                rows.set(i, kept);
            },
            None => {
                rows.push(kept);
            },
        }
        self.rows = rows;
        Ok(record)
    }

    /// The row with the given key, or `None` where there is none.
    pub fn read(&self, kind: EntityKind, id: i64) -> (res: Option<Record>)
        ensures
            coherent(self@),
            row_of(res) == lookup(self@, Key { kind, id }),
    {
        proof {
            use_type_invariant(self);
        }
        match find(&self.rows, Key::new(kind, id)) {
            Some(i) => {
                proof {
                    lemma_slot(self.rows@, i as int);
                }
                Some(self.rows[i].clone())
            },
            None => None,
        }
    }

    /// Whether a row has the given key.
    pub fn contains(&self, kind: EntityKind, id: i64) -> (b: bool)
        ensures
            b == self@.contains_key(Key { kind, id }),
    {
        has(&self.rows, Key::new(kind, id))
    }

    /// Overwrites every column of the row that has the record's key, and
    /// returns the row. Fails with `NotFound` where no row has the key, else
    /// with `ReferentialViolation` where a foreign key names a row that is not
    /// there; the tables are then left as they were.
    pub fn update(&mut self, record: Record) -> (res: Result<Record, StoreError>)
        ensures
            coherent(final(self)@),
            final(self)@ == after_update(old(self)@, record@),
            match update_error(old(self)@, record@) {
                Some(e) => res == Err::<Record, StoreError>(e),
                None => res is Ok && res->Ok_0@ == record@,
            },
    {
        proof {
            use_type_invariant(&*self);
        }
        let place = find(&self.rows, record.key());
        match place {
            None => Err(StoreError::NotFound),
            Some(i) => {
                if !all_resolved(&self.rows, &record) {
                    return Err(StoreError::ReferentialViolation);
                }
                let kept = record.clone();
                proof {
                    lemma_insert_coherent(table(self.rows@), kept@);
                    lemma_update(self.rows@, i as int, kept);
                }
                let mut rows = Vec::new();
                core::mem::swap(&mut rows, &mut self.rows);
                rows.set(i, kept);
                self.rows = rows;
                Ok(record)
            },
        }
    }

    /// Removes the row with the given key and returns it, or returns `None`
    /// where there is none. Fails with `ReferentialViolation` where another
    /// row still refers to it; the tables are then left as they were.
    pub fn delete(&mut self, kind: EntityKind, id: i64) -> (res: Result<Option<Record>, StoreError>)
        ensures
            coherent(final(self)@),
            final(self)@ == after_delete(old(self)@, Key { kind, id }),
            match delete_error(old(self)@, Key { kind, id }) {
                Some(e) => res == Err::<Option<Record>, StoreError>(e),
                None => res is Ok && row_of(res->Ok_0) == lookup(old(self)@, Key { kind, id }),
            },
    {
        proof {
            use_type_invariant(&*self);
        }
        let k = Key::new(kind, id);
        match find(&self.rows, k) {
            None => {
                assert(self@.remove(k) =~= self@);
                Ok(None)
            },
            Some(i) => {
                if any_refers_to(&self.rows, k) {
                    return Err(StoreError::ReferentialViolation);
                }
                proof {
                    lemma_slot(self.rows@, i as int);
                    lemma_remove(self.rows@, i as int);
                    lemma_remove_coherent(table(self.rows@), k);
                }
                let mut rows = Vec::new();
                core::mem::swap(&mut rows, &mut self.rows);
                let gone = rows.remove(i);
                self.rows = rows;
                Ok(Some(gone))
            },
        }
    }
}

} // verus!
