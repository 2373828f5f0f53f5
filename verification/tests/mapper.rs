use oracle_sync::mapper::{
    encode_hash, map_channel, map_guild, map_message, map_role, map_user, to_signed16,
    to_signed32, to_signed64, MappingError,
};
use oracle_sync::model::{DbChannel, DbGuild, DbMessage, DbRole, DbUser, EntityKind, Record};
use oracle_sync::snapshot::{
    ChannelSnapshot, GuildSnapshot, MessageSnapshot, RoleSnapshot, Snapshot, UserSnapshot,
};

fn alice() -> UserSnapshot {
    UserSnapshot {
        id: 42,
        name: "alice".to_string(),
        discriminator: None,
        global_name: None,
        avatar: None,
        bot: false,
        banner: None,
        accent_colour: None,
    }
}

fn direct_message() -> MessageSnapshot {
    MessageSnapshot {
        id: 900,
        channel_id: 20,
        author: 42,
        content: "psst".to_string(),
        timestamp: 1_700_000_000,
        pinned: false,
        guild_id: None,
    }
}

#[test]
fn a_user_maps_field_by_field() {
    let row = map_user(&alice());
    assert_eq!(
        row,
        DbUser {
            id: 42,
            name: "alice".to_string(),
            discriminator: None,
            global_name: None,
            avatar: None,
            bot: false,
            banner: None,
            accent_colour: None,
        }
    );
}

#[test]
fn a_full_user_maps_every_field() {
    let snapshot = UserSnapshot {
        id: 7,
        name: "bob".to_string(),
        discriminator: Some(1234),
        global_name: Some("Bob".to_string()),
        avatar: Some("f1eff024d9c85339c877985229ed8fec".to_string()),
        bot: true,
        banner: Some("a_e3c0db7f38777778fb43081f8746ebc9".to_string()),
        accent_colour: Some(0x00ff_8800),
    };
    assert_eq!(
        map_user(&snapshot),
        DbUser {
            id: 7,
            name: "bob".to_string(),
            discriminator: Some(1234),
            global_name: Some("Bob".to_string()),
            avatar: Some("\"f1eff024d9c85339c877985229ed8fec\"".to_string()),
            bot: true,
            banner: Some("\"a_e3c0db7f38777778fb43081f8746ebc9\"".to_string()),
            accent_colour: Some(0x00ff_8800),
        }
    );
}

#[test]
fn a_hash_is_stored_as_json_text() {
    assert_eq!(encode_hash("abc"), "\"abc\"");
    assert_eq!(encode_hash(""), "\"\"");
    assert_eq!(encode_hash("a\"b\\c"), "\"a\\\"b\\\\c\"");
    assert_eq!(encode_hash("clyde"), serde_json::to_string("clyde").unwrap());
}

#[test]
fn an_unsigned_number_keeps_its_bits() {
    assert_eq!(to_signed64(0), 0);
    assert_eq!(to_signed64(42), 42);
    assert_eq!(to_signed64(0x7fff_ffff_ffff_ffff), i64::MAX);
    assert_eq!(to_signed64(0x8000_0000_0000_0000), i64::MIN);
    assert_eq!(to_signed64(u64::MAX), -1);
    assert_eq!(to_signed32(0x00ff_ffff), 0x00ff_ffff);
    assert_eq!(to_signed32(0x7fff_ffff), i32::MAX);
    assert_eq!(to_signed32(0x8000_0000), i32::MIN);
    assert_eq!(to_signed32(u32::MAX), -1);
    assert_eq!(to_signed16(9999), 9999);
    assert_eq!(to_signed16(0x7fff), i16::MAX);
    assert_eq!(to_signed16(0x8000), i16::MIN);
    assert_eq!(to_signed16(u16::MAX), -1);
}

#[test]
fn a_large_snowflake_maps_to_its_signed_value() {
    let mut snapshot = alice();
    snapshot.id = u64::MAX - 1;
    assert_eq!(map_user(&snapshot).id, -2);
}

#[test]
fn a_guild_maps_field_by_field() {
    let snapshot = GuildSnapshot {
        id: 10,
        name: "home".to_string(),
        icon: Some("0123".to_string()),
        icon_hash: None,
        splash: Some("4567".to_string()),
        owner_id: 42,
    };
    assert_eq!(
        map_guild(&snapshot),
        DbGuild {
            id: 10,
            name: "home".to_string(),
            icon: Some("\"0123\"".to_string()),
            icon_hash: None,
            splash: Some("\"4567\"".to_string()),
            owner_id: 42,
        }
    );
}

#[test]
fn a_channel_maps_field_by_field() {
    let snapshot = ChannelSnapshot {
        id: 20,
        guild_id: Some(10),
        name: "general".to_string(),
        position: 65535,
        nsfw: true,
    };
    assert_eq!(
        map_channel(&snapshot),
        Ok(DbChannel {
            id: 20,
            guild_id: 10,
            name: "general".to_string(),
            position: 65535,
            nsfw: true,
        })
    );
}

#[test]
fn a_private_channel_has_no_row() {
    let snapshot = ChannelSnapshot {
        id: 20,
        guild_id: None,
        name: "dm".to_string(),
        position: 0,
        nsfw: false,
    };
    assert_eq!(map_channel(&snapshot), Err(MappingError::MissingRequiredRelation));
    assert_eq!(oracle_sync::mapper::map(&Snapshot::Channel(snapshot)), Err(MappingError::MissingRequiredRelation));
}

#[test]
fn a_message_maps_field_by_field() {
    let mut snapshot = direct_message();
    snapshot.guild_id = Some(10);
    snapshot.pinned = true;
    assert_eq!(
        map_message(&snapshot),
        Ok(DbMessage {
            id: 900,
            channel_id: 20,
            author: 42,
            content: "psst".to_string(),
            timestamp: 1_700_000_000,
            pinned: true,
            guild_id: 10,
        })
    );
}

#[test]
fn a_message_without_a_guild_has_no_row() {
    assert_eq!(map_message(&direct_message()), Err(MappingError::MissingRequiredRelation));
    assert_eq!(
        oracle_sync::mapper::map(&Snapshot::Message(direct_message())),
        Err(MappingError::MissingRequiredRelation)
    );
}

#[test]
fn a_role_maps_field_by_field() {
    let snapshot = RoleSnapshot {
        id: 30,
        guild_id: 10,
        mentionable: true,
        name: "mods".to_string(),
        position: 5,
    };
    assert_eq!(
        map_role(&snapshot),
        DbRole { id: 30, guild_id: 10, mentionable: true, name: "mods".to_string(), position: 5 }
    );
}

#[test]
fn map_files_each_kind_under_its_table() {
    assert_eq!(oracle_sync::mapper::map(&Snapshot::User(alice())), Ok(Record::User(map_user(&alice()))));
    let role = RoleSnapshot {
        id: 30,
        guild_id: 10,
        mentionable: false,
        name: "mods".to_string(),
        position: 5,
    };
    assert_eq!(oracle_sync::mapper::map(&Snapshot::Role(role.clone())), Ok(Record::Role(map_role(&role))));
    let guild = GuildSnapshot {
        id: 10,
        name: "home".to_string(),
        icon: None,
        icon_hash: None,
        splash: None,
        owner_id: 42,
    };
    assert_eq!(oracle_sync::mapper::map(&Snapshot::Guild(guild.clone())), Ok(Record::Guild(map_guild(&guild))));
}

#[test]
fn a_snapshot_knows_its_kind_and_id() {
    let s = Snapshot::Message(direct_message());
    assert_eq!(s.kind(), EntityKind::Message);
    assert_eq!(s.id(), 900);
    assert_eq!(Snapshot::User(alice()).kind(), EntityKind::User);
    assert_eq!(Snapshot::User(alice()).id(), 42);
    assert_eq!(s.clone(), s);
}

#[test]
fn a_row_is_made_from_its_snapshot() {
    assert_eq!(DbUser::from(alice()), map_user(&alice()));
    let row: DbUser = alice().into();
    assert_eq!(row.id, 42);
    assert_eq!(row.name, "alice");
    let guild = GuildSnapshot {
        id: 10,
        name: "home".to_string(),
        icon: Some("ab".to_string()),
        icon_hash: None,
        splash: None,
        owner_id: 42,
    };
    assert_eq!(DbGuild::from(guild.clone()), map_guild(&guild));
    assert_eq!(DbGuild::from(guild).icon, Some("\"ab\"".to_string()));
}
