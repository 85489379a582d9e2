//! The cached entities of the remote object graph and the change-events that
//! drive the cache. Every identifier is a 64-bit snowflake.
use vstd::prelude::*;

verus! {

/// A scope (guild): the root of a small ownership tree.
#[derive(Clone, Debug)]
pub struct CacheGuild {
    pub id: u64,
    pub name: String,
    pub icon: Option<String>,
    pub owner_id: u64,
}

/// The kinds of channel the library tells apart.
#[derive(Clone, Copy, Debug, PartialEq, Eq, Structural)]
pub enum ChannelKind {
    GuildText,
    GuildNews,
    GuildNewsThread,
    GuildPublicThread,
    GuildPrivateThread,
    Other,
}

/// Whom a permission overwrite targets.
#[derive(Clone, Copy, Debug, PartialEq, Eq, Structural)]
pub enum OverwriteKind {
    Role,
    Member,
}

/// A per-channel permission exception for a role or a single member.
#[derive(Clone, Copy, Debug, PartialEq, Eq, Structural)]
pub struct PermissionOverwrite {
    pub id: u64,
    pub kind: OverwriteKind,
    pub allow: u64,
    pub deny: u64,
}

#[derive(Clone, Debug)]
pub struct CacheChannel {
    pub id: u64,
    pub guild_id: Option<u64>,
    pub name: Option<String>,
    pub kind: ChannelKind,
    pub permission_overwrites: Option<Vec<PermissionOverwrite>>,
    pub position: Option<i32>,
    pub parent_id: Option<u64>,
}

#[derive(Clone, Debug)]
pub struct CacheRole {
    pub id: u64,
    pub guild_id: u64,
    pub name: String,
    pub managed: bool,
    pub permissions: u64,
    pub position: i64,
}

/// The roles that the system's own member holds in one scope.
#[derive(Clone, Debug)]
pub struct CacheBotMember {
    pub roles: Vec<u64>,
}

#[derive(Clone, Debug)]
pub struct CacheEmoji {
    pub id: u64,
    pub guild_id: u64,
    pub animated: bool,
    pub available: bool,
    pub managed: bool,
    pub name: String,
}

#[derive(Clone, Debug)]
pub struct CacheSticker {
    pub id: u64,
    pub guild_id: u64,
    pub name: String,
}

/// A member as a scope snapshot or a membership event carries it.
#[derive(Clone, Debug)]
pub struct GuildMember {
    pub user_id: u64,
    pub roles: Vec<u64>,
}

/// A full scope as it arrives when the scope becomes available.
#[derive(Clone, Debug)]
pub struct GuildSnapshot {
    pub guild: CacheGuild,
    pub channels: Vec<CacheChannel>,
    pub roles: Vec<CacheRole>,
    pub emojis: Vec<CacheEmoji>,
    pub stickers: Vec<CacheSticker>,
    pub members: Vec<GuildMember>,
}

/// An inbound change-event, as far as the cache needs it.
#[derive(Clone, Debug)]
pub enum Event {
    GuildCreate(GuildSnapshot),
    GuildUpdate(CacheGuild),
    GuildDelete { id: u64, unavailable: bool },
    /// Create or update of a channel or a thread.
    ChannelUpsert(CacheChannel),
    /// Delete of a channel or a thread.
    ChannelDelete { id: u64 },
    /// The active threads of a scope.
    ThreadListSync { guild_id: u64, threads: Vec<CacheChannel> },
    RoleUpsert(CacheRole),
    RoleDelete { guild_id: u64, role_id: u64 },
    /// The full replacement list of a scope's emoji.
    EmojisReplace { guild_id: u64, emojis: Vec<CacheEmoji> },
    /// The full replacement list of a scope's stickers.
    StickersReplace { guild_id: u64, stickers: Vec<CacheSticker> },
    MemberUpsert { guild_id: u64, member: GuildMember },
    MemberRemove { guild_id: u64, user_id: u64 },
    /// The webhooks of a channel changed remotely.
    WebhooksUpdate { channel_id: u64 },
    /// Any event kind the cache does not follow.
    Other,
}

} // verus!
