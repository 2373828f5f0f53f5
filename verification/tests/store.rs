use oracle_sync::model::{
    DbChannel, DbGuild, DbMessage, DbRole, DbUser, EntityKind, Key, Record,
};
use oracle_sync::store::{DriverFault, Store, StoreError};

fn user(id: i64, name: &str) -> Record {
    Record::User(DbUser {
        id,
        name: name.to_string(),
        discriminator: None,
        global_name: None,
        avatar: None,
        bot: false,
        banner: None,
        accent_colour: None,
    })
}

fn guild(id: i64, owner_id: i64) -> Record {
    Record::Guild(DbGuild {
        id,
        name: format!("guild {}", id),
        icon: None,
        icon_hash: None,
        splash: None,
        owner_id,
    })
}

fn channel(id: i64, guild_id: i64) -> Record {
    Record::Channel(DbChannel {
        id,
        guild_id,
        name: format!("channel {}", id),
        position: 0,
        nsfw: false,
    })
}

fn role(id: i64, guild_id: i64) -> Record {
    Record::Role(DbRole { id, guild_id, mentionable: true, name: "mods".to_string(), position: 3 })
}

fn message(id: i64, channel_id: i64, author: i64, guild_id: i64) -> Record {
    Record::Message(DbMessage {
        id,
        channel_id,
        author,
        content: "hello".to_string(),
        timestamp: 1_700_000_000,
        pinned: false,
        guild_id,
    })
}

#[test]
fn a_new_store_is_empty() {
    let store = Store::new();
    assert_eq!(store.read(EntityKind::User, 1), None);
    assert!(!store.contains(EntityKind::User, 1));
}

#[test]
fn create_then_read_returns_the_row() {
    let mut store = Store::new();
    assert_eq!(store.create(user(1, "ann")), Ok(user(1, "ann")));
    assert_eq!(store.read(EntityKind::User, 1), Some(user(1, "ann")));
    assert_eq!(store.read(EntityKind::User, 2), None);
    assert_eq!(store.read(EntityKind::Guild, 1), None);
    assert!(store.contains(EntityKind::User, 1));
}

#[test]
fn create_on_a_taken_key_is_a_conflict() {
    let mut store = Store::new();
    store.create(user(1, "ann")).unwrap();
    assert_eq!(store.create(user(1, "bob")), Err(StoreError::Conflict));
    assert_eq!(store.read(EntityKind::User, 1), Some(user(1, "ann")));
}

#[test]
fn the_same_id_in_two_tables_is_two_rows() {
    let mut store = Store::new();
    store.create(user(7, "ann")).unwrap();
    assert_eq!(store.create(guild(7, 7)), Ok(guild(7, 7)));
    assert_eq!(store.read(EntityKind::User, 7), Some(user(7, "ann")));
    assert_eq!(store.read(EntityKind::Guild, 7), Some(guild(7, 7)));
}

#[test]
fn create_with_a_dangling_key_is_a_referential_violation() {
    let mut store = Store::new();
    assert_eq!(store.create(guild(10, 1)), Err(StoreError::ReferentialViolation));
    assert_eq!(store.create(channel(20, 10)), Err(StoreError::ReferentialViolation));
    assert_eq!(store.create(role(30, 10)), Err(StoreError::ReferentialViolation));
    assert_eq!(store.read(EntityKind::Guild, 10), None);
    assert_eq!(store.read(EntityKind::Channel, 20), None);
    assert_eq!(store.read(EntityKind::Role, 30), None);
}

#[test]
fn a_message_needs_its_channel_its_author_and_its_guild() {
    let mut store = Store::new();
    store.create(user(1, "ann")).unwrap();
    store.create(guild(10, 1)).unwrap();
    store.create(channel(20, 10)).unwrap();
    assert_eq!(store.create(message(100, 21, 1, 10)), Err(StoreError::ReferentialViolation));
    assert_eq!(store.create(message(100, 20, 2, 10)), Err(StoreError::ReferentialViolation));
    assert_eq!(store.create(message(100, 20, 1, 11)), Err(StoreError::ReferentialViolation));
    assert_eq!(store.create(message(100, 20, 1, 10)), Ok(message(100, 20, 1, 10)));
    assert_eq!(store.read(EntityKind::Message, 100), Some(message(100, 20, 1, 10)));
}

#[test]
fn conflict_is_reported_before_a_dangling_key() {
    let mut store = Store::new();
    store.create(user(1, "ann")).unwrap();
    store.create(guild(10, 1)).unwrap();
    assert_eq!(store.create(guild(10, 99)), Err(StoreError::Conflict));
}

#[test]
fn upsert_inserts_then_overwrites() {
    let mut store = Store::new();
    assert_eq!(store.upsert(user(1, "ann")), Ok(user(1, "ann")));
    assert_eq!(store.read(EntityKind::User, 1), Some(user(1, "ann")));
    assert_eq!(store.upsert(user(1, "bob")), Ok(user(1, "bob")));
    assert_eq!(store.read(EntityKind::User, 1), Some(user(1, "bob")));
}

#[test]
fn upsert_twice_is_upsert_once() {
    let mut once = Store::new();
    once.upsert(user(1, "ann")).unwrap();
    let mut twice = Store::new();
    twice.upsert(user(1, "ann")).unwrap();
    assert_eq!(twice.upsert(user(1, "ann")), Ok(user(1, "ann")));
    assert_eq!(once.read(EntityKind::User, 1), twice.read(EntityKind::User, 1));
    assert_eq!(twice.read(EntityKind::User, 1), Some(user(1, "ann")));
}

#[test]
fn upsert_with_a_dangling_key_changes_nothing() {
    let mut store = Store::new();
    store.create(user(1, "ann")).unwrap();
    store.create(guild(10, 1)).unwrap();
    store.create(channel(20, 10)).unwrap();
    assert_eq!(store.upsert(channel(20, 11)), Err(StoreError::ReferentialViolation));
    assert_eq!(store.read(EntityKind::Channel, 20), Some(channel(20, 10)));
}

#[test]
fn update_overwrites_a_row_that_is_there() {
    let mut store = Store::new();
    store.create(user(1, "ann")).unwrap();
    assert_eq!(store.update(user(1, "bob")), Ok(user(1, "bob")));
    assert_eq!(store.read(EntityKind::User, 1), Some(user(1, "bob")));
}

#[test]
fn update_of_a_missing_row_is_not_found() {
    let mut store = Store::new();
    assert_eq!(store.update(user(1, "bob")), Err(StoreError::NotFound));
    assert_eq!(store.read(EntityKind::User, 1), None);
    assert_eq!(store.update(guild(10, 1)), Err(StoreError::NotFound));
}

#[test]
fn update_with_a_dangling_key_is_a_referential_violation() {
    let mut store = Store::new();
    store.create(user(1, "ann")).unwrap();
    store.create(guild(10, 1)).unwrap();
    assert_eq!(store.update(guild(10, 2)), Err(StoreError::ReferentialViolation));
    assert_eq!(store.read(EntityKind::Guild, 10), Some(guild(10, 1)));
}

#[test]
fn delete_returns_the_row_and_removes_it() {
    let mut store = Store::new();
    store.create(user(1, "ann")).unwrap();
    store.create(user(2, "bob")).unwrap();
    store.create(user(3, "cyd")).unwrap();
    assert_eq!(store.delete(EntityKind::User, 2), Ok(Some(user(2, "bob"))));
    assert_eq!(store.read(EntityKind::User, 2), None);
    assert_eq!(store.read(EntityKind::User, 1), Some(user(1, "ann")));
    assert_eq!(store.read(EntityKind::User, 3), Some(user(3, "cyd")));
}

#[test]
fn delete_of_a_missing_row_returns_nothing() {
    let mut store = Store::new();
    assert_eq!(store.delete(EntityKind::User, 1), Ok(None));
    store.create(user(1, "ann")).unwrap();
    assert_eq!(store.delete(EntityKind::User, 1), Ok(Some(user(1, "ann"))));
    assert_eq!(store.delete(EntityKind::User, 1), Ok(None));
}

#[test]
fn delete_of_a_referenced_row_is_refused() {
    let mut store = Store::new();
    store.create(user(1, "ann")).unwrap();
    store.create(guild(10, 1)).unwrap();
    store.create(channel(20, 10)).unwrap();
    assert_eq!(store.delete(EntityKind::User, 1), Err(StoreError::ReferentialViolation));
    assert_eq!(store.delete(EntityKind::Guild, 10), Err(StoreError::ReferentialViolation));
    assert_eq!(store.read(EntityKind::User, 1), Some(user(1, "ann")));
    assert_eq!(store.delete(EntityKind::Channel, 20), Ok(Some(channel(20, 10))));
    assert_eq!(store.delete(EntityKind::Guild, 10), Ok(Some(guild(10, 1))));
    assert_eq!(store.delete(EntityKind::User, 1), Ok(Some(user(1, "ann"))));
}

#[test]
fn only_a_lost_connection_and_a_timeout_are_retryable() {
    assert!(StoreError::Connection.is_retryable());
    assert!(StoreError::Timeout.is_retryable());
    assert!(!StoreError::Conflict.is_retryable());
    assert!(!StoreError::NotFound.is_retryable());
    assert!(!StoreError::ReferentialViolation.is_retryable());
}

#[test]
fn a_row_refers_to_the_rows_its_foreign_keys_name() {
    let m = message(100, 20, 1, 10);
    assert!(m.refers_to(Key { kind: EntityKind::Channel, id: 20 }));
    assert!(m.refers_to(Key { kind: EntityKind::User, id: 1 }));
    assert!(m.refers_to(Key { kind: EntityKind::Guild, id: 10 }));
    assert!(!m.refers_to(Key { kind: EntityKind::Guild, id: 20 }));
    assert!(!m.refers_to(Key { kind: EntityKind::Message, id: 100 }));
    assert!(guild(10, 1).refers_to(Key { kind: EntityKind::User, id: 1 }));
    assert!(!user(1, "ann").refers_to(Key { kind: EntityKind::User, id: 1 }));
    assert_eq!(m.key(), Key { kind: EntityKind::Message, id: 100 });
}

#[test]
fn every_fault_of_the_driver_has_its_error() {
    assert_eq!(StoreError::from_fault(DriverFault::UniqueViolation), StoreError::Conflict);
    assert_eq!(
        StoreError::from_fault(DriverFault::ForeignKeyViolation),
        StoreError::ReferentialViolation
    );
    assert_eq!(StoreError::from_fault(DriverFault::RowNotFound), StoreError::NotFound);
    assert_eq!(StoreError::from_fault(DriverFault::PoolTimedOut), StoreError::Timeout);
    assert_eq!(StoreError::from_fault(DriverFault::Elapsed), StoreError::Timeout);
    assert_eq!(StoreError::from_fault(DriverFault::Other), StoreError::Connection);
}

#[test]
fn an_update_that_changed_no_row_found_none() {
    assert_eq!(StoreError::of_update(0), Err(StoreError::NotFound));
    assert_eq!(StoreError::of_update(1), Ok(()));
    assert_eq!(StoreError::of_update(u64::MAX), Ok(()));
}
