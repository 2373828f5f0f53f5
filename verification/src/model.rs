//! Rows of the five tables, their mathematical views and their keys.

use vstd::prelude::*;

verus! {

/// The kind of an entity, which is also the table its row lives in.
#[derive(Clone, Copy, Debug, PartialEq, Eq, Hash, Structural)]
pub enum EntityKind {
    User,
    Guild,
    Channel,
    Message,
    Role,
}

/// The primary key of a row together with its table.
#[derive(Clone, Copy, Debug, PartialEq, Eq, Hash, Structural)]
pub struct Key {
    pub kind: EntityKind,
    pub id: i64,
}

/// View of an optional string: the characters it holds, if any.
pub open spec fn text_of(s: Option<String>) -> Option<Seq<char>> {
    match s {
        Some(t) => Some(t@),
        None => None,
    }
}

/// Copies an optional string.
pub fn copy_text(s: &Option<String>) -> (r: Option<String>)
    ensures
        r == *s,
{
    match s {
        Some(t) => Some(t.clone()),
        None => None,
    }
}

/// A row of the `users` table.
#[derive(Debug, PartialEq, Eq)]
pub struct DbUser {
    pub id: i64,
    pub name: String,
    pub discriminator: Option<i16>,
    pub global_name: Option<String>,
    pub avatar: Option<String>,
    pub bot: bool,
    pub banner: Option<String>,
    pub accent_colour: Option<i32>,
}

/// What a `users` row says, with strings as sequences of characters.
pub struct UserRow {
    pub id: i64,
    pub name: Seq<char>,
    pub discriminator: Option<i16>,
    pub global_name: Option<Seq<char>>,
    pub avatar: Option<Seq<char>>,
    pub bot: bool,
    pub banner: Option<Seq<char>>,
    pub accent_colour: Option<i32>,
}

impl View for DbUser {
    type V = UserRow;

    open spec fn view(&self) -> UserRow {
        UserRow {
            id: self.id,
            name: self.name@,
            discriminator: self.discriminator,
            global_name: text_of(self.global_name),
            avatar: text_of(self.avatar),
            bot: self.bot,
            banner: text_of(self.banner),
            accent_colour: self.accent_colour,
        }
    }
}

impl Clone for DbUser {
    fn clone(&self) -> (r: Self)
        ensures
            r == *self,
    {
        DbUser {
            id: self.id,
            name: self.name.clone(),
            discriminator: self.discriminator,
            global_name: copy_text(&self.global_name),
            avatar: copy_text(&self.avatar),
            bot: self.bot,
            banner: copy_text(&self.banner),
            accent_colour: self.accent_colour,
        }
    }
}

/// A row of the `guilds` table. `owner_id` names a row of `users`.
#[derive(Debug, PartialEq, Eq)]
pub struct DbGuild {
    pub id: i64,
    pub name: String,
    pub icon: Option<String>,
    pub icon_hash: Option<String>,
    pub splash: Option<String>,
    pub owner_id: i64,
}

/// What a `guilds` row says.
pub struct GuildRow {
    pub id: i64,
    pub name: Seq<char>,
    pub icon: Option<Seq<char>>,
    pub icon_hash: Option<Seq<char>>,
    pub splash: Option<Seq<char>>,
    pub owner_id: i64,
}

impl View for DbGuild {
    type V = GuildRow;

    open spec fn view(&self) -> GuildRow {
        GuildRow {
            id: self.id,
            name: self.name@,
            icon: text_of(self.icon),
            icon_hash: text_of(self.icon_hash),
            splash: text_of(self.splash),
            owner_id: self.owner_id,
        }
    }
}

impl Clone for DbGuild {
    fn clone(&self) -> (r: Self)
        ensures
            r == *self,
    {
        DbGuild {
            id: self.id,
            name: self.name.clone(),
            icon: copy_text(&self.icon),
            icon_hash: copy_text(&self.icon_hash),
            splash: copy_text(&self.splash),
            owner_id: self.owner_id,
        }
    }
}

/// A row of the `channels` table. `guild_id` names a row of `guilds`.
#[derive(Debug, PartialEq, Eq)]
pub struct DbChannel {
    pub id: i64,
    pub guild_id: i64,
    pub name: String,
    pub position: i32,
    pub nsfw: bool,
}

/// What a `channels` row says.
pub struct ChannelRow {
    pub id: i64,
    pub guild_id: i64,
    pub name: Seq<char>,
    pub position: i32,
    pub nsfw: bool,
}

impl View for DbChannel {
    type V = ChannelRow;

    open spec fn view(&self) -> ChannelRow {
        ChannelRow {
            id: self.id,
            guild_id: self.guild_id,
            name: self.name@,
            position: self.position,
            nsfw: self.nsfw,
        }
    }
}

impl Clone for DbChannel {
    fn clone(&self) -> (r: Self)
        ensures
            r == *self,
    {
        DbChannel {
            id: self.id,
            guild_id: self.guild_id,
            name: self.name.clone(),
            position: self.position,
            nsfw: self.nsfw,
        }
    }
}

/// A row of the `messages` table. `channel_id`, `author` and `guild_id` name
/// rows of `channels`, `users` and `guilds`. `timestamp` counts seconds from
/// the Unix epoch and carries no time zone.
#[derive(Debug, PartialEq, Eq)]
pub struct DbMessage {
    pub id: i64,
    pub channel_id: i64,
    pub author: i64,
    pub content: String,
    pub timestamp: i64,
    pub pinned: bool,
    pub guild_id: i64,
}

/// What a `messages` row says.
pub struct MessageRow {
    pub id: i64,
    pub channel_id: i64,
    pub author: i64,
    pub content: Seq<char>,
    pub timestamp: i64,
    pub pinned: bool,
    pub guild_id: i64,
}

impl View for DbMessage {
    type V = MessageRow;

    open spec fn view(&self) -> MessageRow {
        MessageRow {
            id: self.id,
            channel_id: self.channel_id,
            author: self.author,
            content: self.content@,
            timestamp: self.timestamp,
            pinned: self.pinned,
            guild_id: self.guild_id,
        }
    }
}

impl Clone for DbMessage {
    fn clone(&self) -> (r: Self)
        ensures
            r == *self,
    {
        DbMessage {
            id: self.id,
            channel_id: self.channel_id,
            author: self.author,
            content: self.content.clone(),
            timestamp: self.timestamp,
            pinned: self.pinned,
            guild_id: self.guild_id,
        }
    }
}

/// A row of the `roles` table. `guild_id` names a row of `guilds`.
#[derive(Debug, PartialEq, Eq)]
pub struct DbRole {
    pub id: i64,
    pub guild_id: i64,
    pub mentionable: bool,
    pub name: String,
    pub position: i32,
}

/// What a `roles` row says.
pub struct RoleRow {
    pub id: i64,
    pub guild_id: i64,
    pub mentionable: bool,
    pub name: Seq<char>,
    pub position: i32,
}

impl View for DbRole {
    type V = RoleRow;

    open spec fn view(&self) -> RoleRow {
        RoleRow {
            id: self.id,
            guild_id: self.guild_id,
            mentionable: self.mentionable,
            name: self.name@,
            position: self.position,
        }
    }
}

impl Clone for DbRole {
    fn clone(&self) -> (r: Self)
        ensures
            r == *self,
    {
        DbRole {
            id: self.id,
            guild_id: self.guild_id,
            mentionable: self.mentionable,
            name: self.name.clone(),
            position: self.position,
        }
    }
}

/// A row of any of the five tables.
#[derive(Debug, PartialEq, Eq)]
pub enum Record {
    User(DbUser),
    Guild(DbGuild),
    Channel(DbChannel),
    Message(DbMessage),
    Role(DbRole),
}

/// What a row of any table says.
pub enum Row {
    User(UserRow),
    Guild(GuildRow),
    Channel(ChannelRow),
    Message(MessageRow),
    Role(RoleRow),
}

impl Row {
    /// The table the row belongs to.
    pub open spec fn kind(self) -> EntityKind {
        match self {
            Row::User(_) => EntityKind::User,
            Row::Guild(_) => EntityKind::Guild,
            Row::Channel(_) => EntityKind::Channel,
            Row::Message(_) => EntityKind::Message,
            Row::Role(_) => EntityKind::Role,
        }
    }

    /// The row's primary key.
    pub open spec fn id(self) -> i64 {
        match self {
            Row::User(u) => u.id,
            Row::Guild(g) => g.id,
            Row::Channel(c) => c.id,
            Row::Message(m) => m.id,
            Row::Role(r) => r.id,
        }
    }

    /// Table and primary key together.
    pub open spec fn key(self) -> Key {
        Key { kind: self.kind(), id: self.id() }
    }

    /// Whether one of the row's foreign keys names `k`.
    pub open spec fn refers_to(self, k: Key) -> bool {
        match self {
            Row::User(_) => false,
            Row::Guild(g) => k == (Key { kind: EntityKind::User, id: g.owner_id }),
            Row::Channel(c) => k == (Key { kind: EntityKind::Guild, id: c.guild_id }),
            Row::Message(m) => {
                ||| k == (Key { kind: EntityKind::Channel, id: m.channel_id })
                ||| k == (Key { kind: EntityKind::User, id: m.author })
                ||| k == (Key { kind: EntityKind::Guild, id: m.guild_id })
            },
            Row::Role(r) => k == (Key { kind: EntityKind::Guild, id: r.guild_id }),
        }
    }
}

impl View for Record {
    type V = Row;

    open spec fn view(&self) -> Row {
        match self {
            Record::User(u) => Row::User(u@),
            Record::Guild(g) => Row::Guild(g@),
            Record::Channel(c) => Row::Channel(c@),
            Record::Message(m) => Row::Message(m@),
            Record::Role(r) => Row::Role(r@),
        }
    }
}

impl Clone for Record {
    fn clone(&self) -> (r: Self)
        ensures
            r == *self,
    {
        match self {
            Record::User(u) => Record::User(u.clone()),
            Record::Guild(g) => Record::Guild(g.clone()),
            Record::Channel(c) => Record::Channel(c.clone()),
            Record::Message(m) => Record::Message(m.clone()),
            Record::Role(r) => Record::Role(r.clone()),
        }
    }
}

impl Record {
    /// The table the row belongs to.
    pub fn kind(&self) -> (k: EntityKind)
        ensures
            k == self@.kind(),
    {
        match self {
            Record::User(_) => EntityKind::User,
            Record::Guild(_) => EntityKind::Guild,
            Record::Channel(_) => EntityKind::Channel,
            Record::Message(_) => EntityKind::Message,
            Record::Role(_) => EntityKind::Role,
        }
    }

    /// The row's primary key.
    pub fn id(&self) -> (id: i64)
        ensures
            id == self@.id(),
    {
        match self {
            Record::User(u) => u.id,
            Record::Guild(g) => g.id,
            Record::Channel(c) => c.id,
            Record::Message(m) => m.id,
            Record::Role(r) => r.id,
        }
    }

    /// Table and primary key together.
    pub fn key(&self) -> (k: Key)
        ensures
            k == self@.key(),
    {
        Key { kind: self.kind(), id: self.id() }
    }
}

impl Key {
    /// Key of the row of table `kind` with the given id.
    pub fn new(kind: EntityKind, id: i64) -> (k: Key)
        ensures
            k == (Key { kind, id }),
    {
        Key { kind, id }
    }
}

impl Record {
    /// Whether one of the row's foreign keys names `k`.
    pub fn refers_to(&self, k: Key) -> (b: bool)
        ensures
            b == self@.refers_to(k),
    {
        match self {
            Record::User(_) => false,
            Record::Guild(g) => k == Key::new(EntityKind::User, g.owner_id),
            Record::Channel(c) => k == Key::new(EntityKind::Guild, c.guild_id),
            Record::Message(m) => {
                k == Key::new(EntityKind::Channel, m.channel_id) || k == Key::new(
                    EntityKind::User,
                    m.author,
                ) || k == Key::new(EntityKind::Guild, m.guild_id)
            },
            Record::Role(r) => k == Key::new(EntityKind::Guild, r.guild_id),
        }
    }
}

} // verus!
