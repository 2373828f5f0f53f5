//! Snapshots: what the feed delivers about an entity at one point in time,
//! held as plain values.

use crate::model::{copy_text, EntityKind};
use vstd::prelude::*;

verus! {

/// A user as the feed knows it. Image hashes are held in their text form.
#[derive(Debug, PartialEq, Eq)]
pub struct UserSnapshot {
    pub id: u64,
    pub name: String,
    pub discriminator: Option<u16>,
    pub global_name: Option<String>,
    pub avatar: Option<String>,
    pub bot: bool,
    pub banner: Option<String>,
    pub accent_colour: Option<u32>,
}

/// A guild as the feed knows it.
#[derive(Debug, PartialEq, Eq)]
pub struct GuildSnapshot {
    pub id: u64,
    pub name: String,
    pub icon: Option<String>,
    pub icon_hash: Option<String>,
    pub splash: Option<String>,
    pub owner_id: u64,
}

/// A channel as the feed knows it. A private channel belongs to no guild.
#[derive(Debug, PartialEq, Eq)]
pub struct ChannelSnapshot {
    pub id: u64,
    pub guild_id: Option<u64>,
    pub name: String,
    pub position: u16,
    pub nsfw: bool,
}

/// A message as the feed knows it. A direct message belongs to no guild.
/// `timestamp` counts seconds from the Unix epoch.
#[derive(Debug, PartialEq, Eq)]
pub struct MessageSnapshot {
    pub id: u64,
    pub channel_id: u64,
    pub author: u64,
    pub content: String,
    pub timestamp: i64,
    pub pinned: bool,
    pub guild_id: Option<u64>,
}

/// A role as the feed knows it.
#[derive(Debug, PartialEq, Eq)]
pub struct RoleSnapshot {
    pub id: u64,
    pub guild_id: u64,
    pub mentionable: bool,
    pub name: String,
    pub position: u16,
}

/// A snapshot of an entity of any kind.
#[derive(Debug, PartialEq, Eq)]
pub enum Snapshot {
    User(UserSnapshot),
    Guild(GuildSnapshot),
    Channel(ChannelSnapshot),
    Message(MessageSnapshot),
    Role(RoleSnapshot),
}

impl Clone for UserSnapshot {
    fn clone(&self) -> (r: Self)
        ensures
            r == *self,
    {
        UserSnapshot {
            id: self.id,
            name: self.name.clone(),
            discriminator: self.discriminator,
            global_name: copy_text(&self.global_name),
            avatar: copy_text(&self.avatar),
            bot: self.bot,
            banner: copy_text(&self.banner),
            accent_colour: self.accent_colour,
        }
    }
}

impl Clone for GuildSnapshot {
    fn clone(&self) -> (r: Self)
        ensures
            r == *self,
    {
        GuildSnapshot {
            id: self.id,
            name: self.name.clone(),
            icon: copy_text(&self.icon),
            icon_hash: copy_text(&self.icon_hash),
            splash: copy_text(&self.splash),
            owner_id: self.owner_id,
        }
    }
}

impl Clone for ChannelSnapshot {
    fn clone(&self) -> (r: Self)
        ensures
            r == *self,
    {
        ChannelSnapshot {
            id: self.id,
            guild_id: self.guild_id,
            name: self.name.clone(),
            position: self.position,
            nsfw: self.nsfw,
        }
    }
}

impl Clone for MessageSnapshot {
    fn clone(&self) -> (r: Self)
        ensures
            r == *self,
    {
        MessageSnapshot {
            id: self.id,
            channel_id: self.channel_id,
            author: self.author,
            content: self.content.clone(),
            timestamp: self.timestamp,
            pinned: self.pinned,
            guild_id: self.guild_id,
        }
    }
}

impl Clone for RoleSnapshot {
    fn clone(&self) -> (r: Self)
        ensures
            r == *self,
    {
        RoleSnapshot {
            id: self.id,
            guild_id: self.guild_id,
            mentionable: self.mentionable,
            name: self.name.clone(),
            position: self.position,
        }
    }
}

impl Clone for Snapshot {
    fn clone(&self) -> (r: Self)
        ensures
            r == *self,
    {
        match self {
            Snapshot::User(u) => Snapshot::User(u.clone()),
            Snapshot::Guild(g) => Snapshot::Guild(g.clone()),
            Snapshot::Channel(c) => Snapshot::Channel(c.clone()),
            Snapshot::Message(m) => Snapshot::Message(m.clone()),
            Snapshot::Role(r) => Snapshot::Role(r.clone()),
        }
    }
}

impl Snapshot {
    /// The kind of the entity.
    pub open spec fn spec_kind(&self) -> EntityKind {
        match self {
            Snapshot::User(_) => EntityKind::User,
            Snapshot::Guild(_) => EntityKind::Guild,
            Snapshot::Channel(_) => EntityKind::Channel,
            Snapshot::Message(_) => EntityKind::Message,
            Snapshot::Role(_) => EntityKind::Role,
        }
    }

    /// The entity's id as the feed gives it.
    pub open spec fn spec_id(&self) -> u64 {
        match self {
            Snapshot::User(u) => u.id,
            Snapshot::Guild(g) => g.id,
            Snapshot::Channel(c) => c.id,
            Snapshot::Message(m) => m.id,
            Snapshot::Role(r) => r.id,
        }
    }

    /// The kind of the entity.
    #[verifier::when_used_as_spec(spec_kind)]
    pub fn kind(&self) -> (k: EntityKind)
        ensures
            k == self.spec_kind(),
    {
        match self {
            Snapshot::User(_) => EntityKind::User,
            Snapshot::Guild(_) => EntityKind::Guild,
            Snapshot::Channel(_) => EntityKind::Channel,
            Snapshot::Message(_) => EntityKind::Message,
            Snapshot::Role(_) => EntityKind::Role,
        }
    }

    /// The entity's id as the feed gives it.
    #[verifier::when_used_as_spec(spec_id)]
    pub fn id(&self) -> (id: u64)
        ensures
            id == self.spec_id(),
    {
        match self {
            Snapshot::User(u) => u.id,
            Snapshot::Guild(g) => g.id,
            Snapshot::Channel(c) => c.id,
            Snapshot::Message(m) => m.id,
            Snapshot::Role(r) => r.id,
        }
    }
}

} // verus!
