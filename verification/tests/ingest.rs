use oracle_sync::ingest::{ingest, order, schedule, Notification};
use oracle_sync::model::{DbGuild, EntityKind, Record};
use oracle_sync::reconciler::{Failure, Status};
use oracle_sync::snapshot::{
    ChannelSnapshot, GuildSnapshot, MessageSnapshot, RoleSnapshot, Snapshot, UserSnapshot,
};
use oracle_sync::store::{Store, StoreError};

fn user(id: u64) -> Snapshot {
    Snapshot::User(UserSnapshot {
        id,
        name: format!("user {}", id),
        discriminator: None,
        global_name: None,
        avatar: None,
        bot: false,
        banner: None,
        accent_colour: None,
    })
}

fn guild(id: u64, owner_id: u64) -> Snapshot {
    Snapshot::Guild(GuildSnapshot {
        id,
        name: "home".to_string(),
        icon: None,
        icon_hash: None,
        splash: None,
        owner_id,
    })
}

fn channel(id: u64, guild_id: u64) -> Snapshot {
    Snapshot::Channel(ChannelSnapshot {
        id,
        guild_id: Some(guild_id),
        name: "general".to_string(),
        position: 0,
        nsfw: false,
    })
}

fn role(id: u64, guild_id: u64) -> Snapshot {
    Snapshot::Role(RoleSnapshot {
        id,
        guild_id,
        mentionable: false,
        name: "mods".to_string(),
        position: 1,
    })
}

fn message(id: u64, channel_id: u64, author: u64, guild_id: Option<u64>) -> Snapshot {
    Snapshot::Message(MessageSnapshot {
        id,
        channel_id,
        author,
        content: "hi".to_string(),
        timestamp: 5,
        pinned: false,
        guild_id,
    })
}

#[test]
fn a_cache_is_ordered_by_kind_and_stays_in_order_within_a_kind() {
    let batch = vec![
        message(100, 20, 1, Some(10)),
        role(30, 10),
        channel(21, 10),
        guild(10, 1),
        user(2),
        channel(20, 10),
        user(1),
        message(101, 20, 2, Some(10)),
    ];
    let expected = vec![
        user(2),
        user(1),
        guild(10, 1),
        channel(21, 10),
        channel(20, 10),
        role(30, 10),
        message(100, 20, 1, Some(10)),
        message(101, 20, 2, Some(10)),
    ];
    assert_eq!(order(batch.clone()), expected);
    assert_eq!(schedule(Notification::CachePopulated(batch)), expected);
}

#[test]
fn an_empty_cache_has_no_work() {
    assert_eq!(order(Vec::new()), Vec::new());
}

#[test]
fn ready_has_no_work_and_writes_nothing() {
    assert_eq!(schedule(Notification::Ready { name: "oracle".to_string() }), Vec::new());
    let mut store = Store::new();
    let outcomes = ingest(&mut store, Notification::Ready { name: "oracle".to_string() });
    assert!(outcomes.is_empty());
    assert_eq!(store.read(EntityKind::User, 1), None);
}

#[test]
fn a_change_is_one_piece_of_work() {
    assert_eq!(schedule(Notification::EntityChanged(user(1))), vec![user(1)]);
}

#[test]
fn a_change_is_synced() {
    let mut store = Store::new();
    let first = ingest(&mut store, Notification::EntityChanged(user(1)));
    assert_eq!(first.len(), 1);
    assert_eq!(first[0].status, Status::Synced);
    let again = ingest(&mut store, Notification::EntityChanged(user(1)));
    assert_eq!(again[0].status, Status::Synced);
    assert!(store.contains(EntityKind::User, 1));
}

#[test]
fn a_whole_cache_is_written_whatever_its_order() {
    let mut store = Store::new();
    let batch = vec![
        message(100, 20, 1, Some(10)),
        role(30, 10),
        channel(20, 10),
        guild(10, 1),
        user(1),
    ];
    let outcomes = ingest(&mut store, Notification::CachePopulated(batch));
    assert_eq!(outcomes.len(), 5);
    assert!(outcomes.iter().all(|o| o.status == Status::Synced));
    let kinds: Vec<EntityKind> = outcomes.iter().map(|o| o.kind).collect();
    assert_eq!(
        kinds,
        vec![
            EntityKind::User,
            EntityKind::Guild,
            EntityKind::Channel,
            EntityKind::Role,
            EntityKind::Message
        ]
    );
    assert!(store.contains(EntityKind::Message, 100));
    assert!(store.contains(EntityKind::Role, 30));
    assert_eq!(
        store.read(EntityKind::Guild, 10),
        Some(Record::Guild(DbGuild {
            id: 10,
            name: "home".to_string(),
            icon: None,
            icon_hash: None,
            splash: None,
            owner_id: 1,
        }))
    );
}

#[test]
fn a_cache_with_a_gap_fails_only_where_the_gap_is() {
    let mut store = Store::new();
    let batch = vec![
        channel(20, 10),
        channel(21, 11),
        message(100, 20, 1, None),
        guild(10, 1),
        user(1),
    ];
    let outcomes = ingest(&mut store, Notification::CachePopulated(batch));
    let statuses: Vec<(EntityKind, i64, bool)> =
        outcomes.iter().map(|o| (o.kind, o.id, o.status.is_success())).collect();
    assert_eq!(
        statuses,
        vec![
            (EntityKind::User, 1, true),
            (EntityKind::Guild, 10, true),
            (EntityKind::Channel, 20, true),
            (EntityKind::Channel, 21, false),
            (EntityKind::Message, 100, false),
        ]
    );
    assert_eq!(
        outcomes[3].status,
        Status::Failed(Failure::Store(StoreError::ReferentialViolation))
    );
    assert!(store.contains(EntityKind::Channel, 20));
    assert!(!store.contains(EntityKind::Channel, 21));
}
