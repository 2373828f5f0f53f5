//! The snapshot mapper: from a snapshot to the row that stands for it.
//!
//! Ids and scalars are carried over as they are, an unsigned number taking
//! the signed value with the same bits. An image hash is stored as the JSON
//! text of its string form. A snapshot that lacks the guild its row must name
//! has no row.

use crate::model::{
    ChannelRow, DbChannel, DbGuild, DbMessage, DbRole, DbUser, GuildRow, MessageRow, Record,
    RoleRow, Row, UserRow, copy_text, text_of,
};
use crate::snapshot::{
    ChannelSnapshot, GuildSnapshot, MessageSnapshot, RoleSnapshot, Snapshot, UserSnapshot,
};
use vstd::prelude::*;

verus! {

/// Why a snapshot has no row.
#[derive(Clone, Copy, Debug, PartialEq, Eq, Structural)]
pub enum MappingError {
    /// The snapshot does not say which guild the entity belongs to.
    MissingRequiredRelation,
}

/// The signed 64-bit number with the bits of `x`.
pub open spec fn signed64(x: u64) -> i64 {
    if x <= 0x7fff_ffff_ffff_ffff {
        x as i64
    } else {
        (x - 0x1_0000_0000_0000_0000) as i64
    }
}

/// The signed 32-bit number with the bits of `x`.
pub open spec fn signed32(x: u32) -> i32 {
    if x <= 0x7fff_ffff {
        x as i32
    } else {
        (x - 0x1_0000_0000) as i32
    }
}

/// The signed 16-bit number with the bits of `x`.
pub open spec fn signed16(x: u16) -> i16 {
    if x <= 0x7fff {
        x as i16
    } else {
        (x - 0x1_0000) as i16
    }
}

/// The signed 64-bit number with the bits of `x`.
pub fn to_signed64(x: u64) -> (r: i64)
    ensures
        r == signed64(x),
{
    if x <= 0x7fff_ffff_ffff_ffff {
        x as i64
    } else {
        let low: i64 = (x - 0x8000_0000_0000_0000) as i64;
        low - 0x7fff_ffff_ffff_ffff - 1
    }
}

/// The signed 32-bit number with the bits of `x`.
pub fn to_signed32(x: u32) -> (r: i32)
    ensures
        r == signed32(x),
{
    if x <= 0x7fff_ffff {
        x as i32
    } else {
        let low: i32 = (x - 0x8000_0000) as i32;
        low - 0x7fff_ffff - 1
    }
}

/// The signed 16-bit number with the bits of `x`.
pub fn to_signed16(x: u16) -> (r: i16)
    ensures
        r == signed16(x),
{
    if x <= 0x7fff {
        x as i16
    } else {
        let low: i16 = (x - 0x8000) as i16;
        low - 0x7fff - 1
    }
}

/// `serde_json::Error`, the error of the serialiser. Nothing is known of a
/// value of it; it is only told apart from a success.
#[verifier::external_type_specification]
#[verifier::external_body]
pub struct ExJsonError(serde_json::Error);

/// What `serde_json::to_string` returns for a string with the given
/// characters: the JSON text, or `None` where it reports an error.
pub uninterp spec fn json_text(s: Seq<char>) -> Option<Seq<char>>;

/// Calls `serde_json::to_string` on a string slice. The contract claims only
/// that the outcome is a function of the characters of `s`: the same string
/// always gives the same JSON text, or always an error. What the text is, it
/// does not say.
#[verifier::external_body]
fn json_string(s: &str) -> (r: Result<String, serde_json::Error>)
    ensures
        match r {
            Ok(t) => json_text(s@) == Some(t@),
            Err(_) => json_text(s@) is None,
        },
{
    serde_json::to_string(s)
}

/// The text kept of a serialisation: the JSON text, or nothing where the
/// serialiser reported an error.
pub fn text_or_empty(outcome: Result<String, serde_json::Error>) -> (r: String)
    ensures
        match outcome {
            Ok(t) => r@ == t@,
            Err(_) => r@ == Seq::<char>::empty(),
        },
{
    match outcome {
        Ok(t) => t,
        Err(_) => String::new(),
    }
}

/// The text stored for an image hash with string form `h`.
pub open spec fn hash_text(h: Seq<char>) -> Seq<char> {
    match json_text(h) {
        Some(t) => t,
        None => Seq::empty(),
    }
}

/// The column stored for an optional image hash.
pub open spec fn hash_column(h: Option<String>) -> Option<Seq<char>> {
    match h {
        Some(s) => Some(hash_text(s@)),
        None => None,
    }
}

/// The text stored for an image hash: its string form as JSON text.
pub fn encode_hash(h: &str) -> (r: String)
    ensures
        r@ == hash_text(h@),
{
    text_or_empty(json_string(h))
}

fn encode_column(h: &Option<String>) -> (r: Option<String>)
    ensures
        text_of(r) == hash_column(*h),
{
    match h {
        Some(s) => Some(encode_hash(s.as_str())),
        None => None,
    }
}

/// The signed value of an optional 16-bit number.
pub open spec fn signed16_opt(x: Option<u16>) -> Option<i16> {
    match x {
        Some(d) => Some(signed16(d)),
        None => None,
    }
}

/// The signed value of an optional 32-bit number.
pub open spec fn signed32_opt(x: Option<u32>) -> Option<i32> {
    match x {
        Some(c) => Some(signed32(c)),
        None => None,
    }
}

/// The row that stands for a user snapshot.
pub open spec fn user_row(s: UserSnapshot) -> UserRow {
    UserRow {
        id: signed64(s.id),
        name: s.name@,
        discriminator: signed16_opt(s.discriminator),
        global_name: text_of(s.global_name),
        avatar: hash_column(s.avatar),
        bot: s.bot,
        banner: hash_column(s.banner),
        accent_colour: signed32_opt(s.accent_colour),
    }
}

/// The row that stands for a guild snapshot.
pub open spec fn guild_row(s: GuildSnapshot) -> GuildRow {
    GuildRow {
        id: signed64(s.id),
        name: s.name@,
        icon: hash_column(s.icon),
        icon_hash: hash_column(s.icon_hash),
        splash: hash_column(s.splash),
        owner_id: signed64(s.owner_id),
    }
}

/// The row that stands for a channel snapshot, if it names its guild.
pub open spec fn channel_row(s: ChannelSnapshot) -> Result<ChannelRow, MappingError> {
    match s.guild_id {
        Some(g) => Ok(
            ChannelRow {
                id: signed64(s.id),
                guild_id: signed64(g),
                name: s.name@,
                position: s.position as i32,
                nsfw: s.nsfw,
            },
        ),
        None => Err(MappingError::MissingRequiredRelation),
    }
}

/// The row that stands for a message snapshot, if it names its guild.
pub open spec fn message_row(s: MessageSnapshot) -> Result<MessageRow, MappingError> {
    match s.guild_id {
        Some(g) => Ok(
            MessageRow {
                id: signed64(s.id),
                channel_id: signed64(s.channel_id),
                author: signed64(s.author),
                content: s.content@,
                timestamp: s.timestamp,
                pinned: s.pinned,
                guild_id: signed64(g),
            },
        ),
        None => Err(MappingError::MissingRequiredRelation),
    }
}

/// The row that stands for a role snapshot.
pub open spec fn role_row(s: RoleSnapshot) -> RoleRow {
    RoleRow {
        id: signed64(s.id),
        guild_id: signed64(s.guild_id),
        mentionable: s.mentionable,
        name: s.name@,
        position: s.position as i32,
    }
}

/// The row that stands for a snapshot, or the reason why it has none.
pub open spec fn mapped(s: Snapshot) -> Result<Row, MappingError> {
    match s {
        Snapshot::User(u) => Ok(Row::User(user_row(u))),
        Snapshot::Guild(g) => Ok(Row::Guild(guild_row(g))),
        Snapshot::Channel(c) => match channel_row(c) {
            Ok(row) => Ok(Row::Channel(row)),
            Err(e) => Err(e),
        },
        Snapshot::Message(m) => match message_row(m) {
            Ok(row) => Ok(Row::Message(row)),
            Err(e) => Err(e),
        },
        Snapshot::Role(r) => Ok(Row::Role(role_row(r))),
    }
}

/// Maps a user snapshot to its row.
pub fn map_user(s: &UserSnapshot) -> (r: DbUser)
    ensures
        r@ == user_row(*s),
{
    DbUser {
        id: to_signed64(s.id),
        name: s.name.clone(),
        discriminator: match s.discriminator {
            Some(d) => Some(to_signed16(d)),
            None => None,
        },
        global_name: copy_text(&s.global_name),
        avatar: encode_column(&s.avatar),
        bot: s.bot,
        banner: encode_column(&s.banner),
        accent_colour: match s.accent_colour {
            Some(c) => Some(to_signed32(c)),
            None => None,
        },
    }
}

/// Maps a guild snapshot to its row.
pub fn map_guild(s: &GuildSnapshot) -> (r: DbGuild)
    ensures
        r@ == guild_row(*s),
{
    DbGuild {
        id: to_signed64(s.id),
        name: s.name.clone(),
        icon: encode_column(&s.icon),
        icon_hash: encode_column(&s.icon_hash),
        splash: encode_column(&s.splash),
        owner_id: to_signed64(s.owner_id),
    }
}

/// Maps a channel snapshot to its row. Fails with `MissingRequiredRelation`
/// exactly where the snapshot names no guild.
pub fn map_channel(s: &ChannelSnapshot) -> (r: Result<DbChannel, MappingError>)
    ensures
        match channel_row(*s) {
            Ok(row) => r is Ok && r->Ok_0@ == row,
            Err(e) => r == Err::<DbChannel, MappingError>(e),
        },
{
    match s.guild_id {
        Some(g) => Ok(
            DbChannel {
                id: to_signed64(s.id),
                guild_id: to_signed64(g),
                name: s.name.clone(),
                position: s.position as i32,
                nsfw: s.nsfw,
            },
        ),
        None => Err(MappingError::MissingRequiredRelation),
    }
}

/// Maps a message snapshot to its row. Fails with `MissingRequiredRelation`
/// exactly where the snapshot names no guild.
pub fn map_message(s: &MessageSnapshot) -> (r: Result<DbMessage, MappingError>)
    ensures
        match message_row(*s) {
            Ok(row) => r is Ok && r->Ok_0@ == row,
            Err(e) => r == Err::<DbMessage, MappingError>(e),
        },
{
    match s.guild_id {
        Some(g) => Ok(
            DbMessage {
                id: to_signed64(s.id),
                channel_id: to_signed64(s.channel_id),
                author: to_signed64(s.author),
                content: s.content.clone(),
                timestamp: s.timestamp,
                pinned: s.pinned,
                guild_id: to_signed64(g),
            },
        ),
        None => Err(MappingError::MissingRequiredRelation),
    }
}

/// Maps a role snapshot to its row.
pub fn map_role(s: &RoleSnapshot) -> (r: DbRole)
    ensures
        r@ == role_row(*s),
{
    DbRole {
        id: to_signed64(s.id),
        guild_id: to_signed64(s.guild_id),
        mentionable: s.mentionable,
        name: s.name.clone(),
        position: s.position as i32,
    }
}

/// Maps a snapshot of any kind to its row. Fails with
/// `MissingRequiredRelation` exactly where a channel or message snapshot
/// names no guild; every other snapshot has a row.
pub fn map(s: &Snapshot) -> (r: Result<Record, MappingError>)
    ensures
        match mapped(*s) {
            Ok(row) => r is Ok && r->Ok_0@ == row,
            Err(e) => r == Err::<Record, MappingError>(e),
        },
{
    match s {
        Snapshot::User(u) => Ok(Record::User(map_user(u))),
        Snapshot::Guild(g) => Ok(Record::Guild(map_guild(g))),
        Snapshot::Channel(c) => match map_channel(c) {
            Ok(row) => Ok(Record::Channel(row)),
            Err(e) => Err(e),
        },
        Snapshot::Message(m) => match map_message(m) {
            Ok(row) => Ok(Record::Message(row)),
            Err(e) => Err(e),
        },
        Snapshot::Role(r) => Ok(Record::Role(map_role(r))),
    }
}

impl From<UserSnapshot> for DbUser {
    /// Maps a user snapshot to its row, as [`map_user`] does.
    fn from(s: UserSnapshot) -> (r: DbUser)
        ensures
            r@ == user_row(s),
    {
        map_user(&s)
    }
}

/// The row is pinned down through its view by the contract of `from`; a row
/// that is built anew is no value that `from_spec` could name.
impl vstd::std_specs::convert::FromSpecImpl<UserSnapshot> for DbUser {
    open spec fn obeys_from_spec() -> bool {
        false
    }

    open spec fn from_spec(s: UserSnapshot) -> DbUser {
        arbitrary()
    }
}

impl From<GuildSnapshot> for DbGuild {
    /// Maps a guild snapshot to its row, as [`map_guild`] does.
    fn from(s: GuildSnapshot) -> (r: DbGuild)
        ensures
            r@ == guild_row(s),
    {
        map_guild(&s)
    }
}

/// The row is pinned down through its view by the contract of `from`; a row
/// that is built anew is no value that `from_spec` could name.
impl vstd::std_specs::convert::FromSpecImpl<GuildSnapshot> for DbGuild {
    open spec fn obeys_from_spec() -> bool {
        false
    }

    open spec fn from_spec(s: GuildSnapshot) -> DbGuild {
        arbitrary()
    }
}

} // verus!
