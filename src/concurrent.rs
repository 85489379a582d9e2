//! The concurrent maps of the `dashmap` crate that hold the caches.
//!
//! Each map type gets a name for what it holds, and one wrapper per method
//! that the caches call. The wrappers take `&mut` where the method changes the
//! contents, so that a contract can relate the contents before and after.
use dashmap::{DashMap, DashSet};
use vstd::prelude::*;

use crate::index::{idx_add, idx_del};
use crate::model::{CacheBotMember, CacheChannel, CacheEmoji, CacheGuild, CacheRole, CacheSticker};
use crate::webhooks::CachedWebhook;

verus! {

#[verifier::external_type_specification]
#[verifier::external_body]
#[verifier::reject_recursive_types(K)]
#[verifier::reject_recursive_types(V)]
#[verifier::reject_recursive_types(S)]
pub struct ExDashMap<K, V, S>(DashMap<K, V, S>);

#[verifier::external_type_specification]
#[verifier::external_body]
#[verifier::reject_recursive_types(K)]
#[verifier::reject_recursive_types(S)]
pub struct ExDashSet<K, S>(DashSet<K, S>);

/// The value held for `k`, if any.
pub open spec fn map_get<V>(m: Map<u64, V>, k: u64) -> Option<V> {
    if m.contains_key(k) {
        Some(m[k])
    } else {
        None
    }
}

pub type GuildMap = DashMap<u64, CacheGuild>;

pub type ChannelMap = DashMap<u64, CacheChannel>;

pub type RoleMap = DashMap<u64, CacheRole>;

pub type EmojiMap = DashMap<u64, CacheEmoji>;

pub type StickerMap = DashMap<u64, CacheSticker>;

pub type MemberMap = DashMap<u64, CacheBotMember>;

pub type WebhookMap = DashMap<u64, Vec<CachedWebhook>>;

/// Child ids per owning scope.
pub type IdIndex = DashMap<u64, DashSet<u64>>;

/// The guilds that a `GuildMap` holds, by id.
pub uninterp spec fn guild_contents(m: GuildMap) -> Map<u64, CacheGuild>;

/// Relies on `DashMap::new`: a new map is empty.
#[verifier::external_body]
pub(crate) fn guild_map_new() -> (r: GuildMap)
    ensures
        guild_contents(r).dom().is_empty(),
{
    DashMap::new()
}

/// Relies on `DashMap::insert`: the key maps to `v` afterwards, and the value
/// it held before comes back.
#[verifier::external_body]
pub(crate) fn guild_map_insert(m: &mut GuildMap, k: u64, v: CacheGuild) -> (r: Option<CacheGuild>)
    ensures
        guild_contents(*final(m)) == guild_contents(*old(m)).insert(k, v),
        r == map_get(guild_contents(*old(m)), k),
{
    m.insert(k, v)
}

/// Relies on `DashMap::remove`: the key leaves the map, and its value comes back.
#[verifier::external_body]
pub(crate) fn guild_map_remove(m: &mut GuildMap, k: u64) -> (r: Option<CacheGuild>)
    ensures
        guild_contents(*final(m)) == guild_contents(*old(m)).remove(k),
        r == map_get(guild_contents(*old(m)), k),
{
    m.remove(&k).map(|e| e.1)
}

/// Relies on `DashMap::get`: a copy of the value held for the key.
#[verifier::external_body]
pub(crate) fn guild_map_get(m: &GuildMap, k: u64) -> (r: Option<CacheGuild>)
    ensures
        r == map_get(guild_contents(*m), k),
{
    m.get(&k).map(|e| e.value().clone())
}

/// The channels that a `ChannelMap` holds, by id.
pub uninterp spec fn channel_contents(m: ChannelMap) -> Map<u64, CacheChannel>;

/// Relies on `DashMap::new`: a new map is empty.
#[verifier::external_body]
pub(crate) fn channel_map_new() -> (r: ChannelMap)
    ensures
        channel_contents(r).dom().is_empty(),
{
    DashMap::new()
}

/// Relies on `DashMap::insert`: the key maps to `v` afterwards, and the value
/// it held before comes back.
#[verifier::external_body]
pub(crate) fn channel_map_insert(m: &mut ChannelMap, k: u64, v: CacheChannel) -> (r: Option<CacheChannel>)
    ensures
        channel_contents(*final(m)) == channel_contents(*old(m)).insert(k, v),
        r == map_get(channel_contents(*old(m)), k),
{
    m.insert(k, v)
}

/// Relies on `DashMap::remove`: the key leaves the map, and its value comes back.
#[verifier::external_body]
pub(crate) fn channel_map_remove(m: &mut ChannelMap, k: u64) -> (r: Option<CacheChannel>)
    ensures
        channel_contents(*final(m)) == channel_contents(*old(m)).remove(k),
        r == map_get(channel_contents(*old(m)), k),
{
    m.remove(&k).map(|e| e.1)
}

/// Relies on `DashMap::get`: a copy of the value held for the key.
#[verifier::external_body]
pub(crate) fn channel_map_get(m: &ChannelMap, k: u64) -> (r: Option<CacheChannel>)
    ensures
        r == map_get(channel_contents(*m), k),
{
    m.get(&k).map(|e| e.value().clone())
}

/// The roles that a `RoleMap` holds, by id.
pub uninterp spec fn role_contents(m: RoleMap) -> Map<u64, CacheRole>;

/// Relies on `DashMap::new`: a new map is empty.
#[verifier::external_body]
pub(crate) fn role_map_new() -> (r: RoleMap)
    ensures
        role_contents(r).dom().is_empty(),
{
    DashMap::new()
}

/// Relies on `DashMap::insert`: the key maps to `v` afterwards, and the value
/// it held before comes back.
#[verifier::external_body]
pub(crate) fn role_map_insert(m: &mut RoleMap, k: u64, v: CacheRole) -> (r: Option<CacheRole>)
    ensures
        role_contents(*final(m)) == role_contents(*old(m)).insert(k, v),
        r == map_get(role_contents(*old(m)), k),
{
    m.insert(k, v)
}

/// Relies on `DashMap::remove`: the key leaves the map, and its value comes back.
#[verifier::external_body]
pub(crate) fn role_map_remove(m: &mut RoleMap, k: u64) -> (r: Option<CacheRole>)
    ensures
        role_contents(*final(m)) == role_contents(*old(m)).remove(k),
        r == map_get(role_contents(*old(m)), k),
{
    m.remove(&k).map(|e| e.1)
}

/// Relies on `DashMap::get`: a copy of the value held for the key.
#[verifier::external_body]
pub(crate) fn role_map_get(m: &RoleMap, k: u64) -> (r: Option<CacheRole>)
    ensures
        r == map_get(role_contents(*m), k),
{
    m.get(&k).map(|e| e.value().clone())
}

/// The emojis that a `EmojiMap` holds, by id.
pub uninterp spec fn emoji_contents(m: EmojiMap) -> Map<u64, CacheEmoji>;

/// Relies on `DashMap::new`: a new map is empty.
#[verifier::external_body]
pub(crate) fn emoji_map_new() -> (r: EmojiMap)
    ensures
        emoji_contents(r).dom().is_empty(),
{
    DashMap::new()
}

/// Relies on `DashMap::insert`: the key maps to `v` afterwards, and the value
/// it held before comes back.
#[verifier::external_body]
pub(crate) fn emoji_map_insert(m: &mut EmojiMap, k: u64, v: CacheEmoji) -> (r: Option<CacheEmoji>)
    ensures
        emoji_contents(*final(m)) == emoji_contents(*old(m)).insert(k, v),
        r == map_get(emoji_contents(*old(m)), k),
{
    m.insert(k, v)
}

/// Relies on `DashMap::remove`: the key leaves the map, and its value comes back.
#[verifier::external_body]
pub(crate) fn emoji_map_remove(m: &mut EmojiMap, k: u64) -> (r: Option<CacheEmoji>)
    ensures
        emoji_contents(*final(m)) == emoji_contents(*old(m)).remove(k),
        r == map_get(emoji_contents(*old(m)), k),
{
    m.remove(&k).map(|e| e.1)
}

/// Relies on `DashMap::get`: a copy of the value held for the key.
#[verifier::external_body]
pub(crate) fn emoji_map_get(m: &EmojiMap, k: u64) -> (r: Option<CacheEmoji>)
    ensures
        r == map_get(emoji_contents(*m), k),
{
    m.get(&k).map(|e| e.value().clone())
}

/// The stickers that a `StickerMap` holds, by id.
pub uninterp spec fn sticker_contents(m: StickerMap) -> Map<u64, CacheSticker>;

/// Relies on `DashMap::new`: a new map is empty.
#[verifier::external_body]
pub(crate) fn sticker_map_new() -> (r: StickerMap)
    ensures
        sticker_contents(r).dom().is_empty(),
{
    DashMap::new()
}

/// Relies on `DashMap::insert`: the key maps to `v` afterwards, and the value
/// it held before comes back.
#[verifier::external_body]
pub(crate) fn sticker_map_insert(m: &mut StickerMap, k: u64, v: CacheSticker) -> (r: Option<CacheSticker>)
    ensures
        sticker_contents(*final(m)) == sticker_contents(*old(m)).insert(k, v),
        r == map_get(sticker_contents(*old(m)), k),
{
    m.insert(k, v)
}

/// Relies on `DashMap::remove`: the key leaves the map, and its value comes back.
#[verifier::external_body]
pub(crate) fn sticker_map_remove(m: &mut StickerMap, k: u64) -> (r: Option<CacheSticker>)
    ensures
        sticker_contents(*final(m)) == sticker_contents(*old(m)).remove(k),
        r == map_get(sticker_contents(*old(m)), k),
{
    m.remove(&k).map(|e| e.1)
}

/// Relies on `DashMap::get`: a copy of the value held for the key.
#[verifier::external_body]
pub(crate) fn sticker_map_get(m: &StickerMap, k: u64) -> (r: Option<CacheSticker>)
    ensures
        r == map_get(sticker_contents(*m), k),
{
    m.get(&k).map(|e| e.value().clone())
}

/// The bot memberships that a `MemberMap` holds, by id.
pub uninterp spec fn member_contents(m: MemberMap) -> Map<u64, CacheBotMember>;

/// Relies on `DashMap::new`: a new map is empty.
#[verifier::external_body]
pub(crate) fn member_map_new() -> (r: MemberMap)
    ensures
        member_contents(r).dom().is_empty(),
{
    DashMap::new()
}

/// Relies on `DashMap::insert`: the key maps to `v` afterwards, and the value
/// it held before comes back.
#[verifier::external_body]
pub(crate) fn member_map_insert(m: &mut MemberMap, k: u64, v: CacheBotMember) -> (r: Option<CacheBotMember>)
    ensures
        member_contents(*final(m)) == member_contents(*old(m)).insert(k, v),
        r == map_get(member_contents(*old(m)), k),
{
    m.insert(k, v)
}

/// Relies on `DashMap::remove`: the key leaves the map, and its value comes back.
#[verifier::external_body]
pub(crate) fn member_map_remove(m: &mut MemberMap, k: u64) -> (r: Option<CacheBotMember>)
    ensures
        member_contents(*final(m)) == member_contents(*old(m)).remove(k),
        r == map_get(member_contents(*old(m)), k),
{
    m.remove(&k).map(|e| e.1)
}

/// Relies on `DashMap::get`: a copy of the value held for the key.
#[verifier::external_body]
pub(crate) fn member_map_get(m: &MemberMap, k: u64) -> (r: Option<CacheBotMember>)
    ensures
        r == map_get(member_contents(*m), k),
{
    m.get(&k).map(|e| e.value().clone())
}

/// The webhook lists that a `WebhookMap` holds, by channel id.
pub uninterp spec fn webhook_contents(m: WebhookMap) -> Map<u64, Seq<CachedWebhook>>;

/// Relies on `DashMap::new`: a new map is empty.
#[verifier::external_body]
pub(crate) fn webhook_map_new() -> (r: WebhookMap)
    ensures
        webhook_contents(r).dom().is_empty(),
{
    DashMap::new()
}

/// Relies on `DashMap::insert`: the channel maps to `v` afterwards.
#[verifier::external_body]
pub(crate) fn webhook_map_insert(m: &mut WebhookMap, k: u64, v: Vec<CachedWebhook>)
    ensures
        webhook_contents(*final(m)) == webhook_contents(*old(m)).insert(k, v@),
{
    m.insert(k, v);
}

/// Relies on `DashMap::remove`: the channel leaves the map.
#[verifier::external_body]
pub(crate) fn webhook_map_remove(m: &mut WebhookMap, k: u64)
    ensures
        webhook_contents(*final(m)) == webhook_contents(*old(m)).remove(k),
{
    m.remove(&k);
}

/// Relies on `DashMap::get`: a copy of the list held for the channel.
#[verifier::external_body]
pub(crate) fn webhook_map_get(m: &WebhookMap, k: u64) -> (r: Option<Vec<CachedWebhook>>)
    ensures
        r is None <==> !webhook_contents(*m).contains_key(k),
        r is Some ==> r->0@ == webhook_contents(*m)[k],
{
    m.get(&k).map(|e| e.value().clone())
}

/// What an index map holds: for each scope id, the set of child ids.
pub uninterp spec fn index_contents(m: IdIndex) -> Map<u64, Set<u64>>;

/// Relies on `DashMap::new`: a new index is empty.
#[verifier::external_body]
pub(crate) fn index_new() -> (r: IdIndex)
    ensures
        index_contents(r).dom().is_empty(),
{
    DashMap::new()
}

/// Relies on `DashMap::entry`, `Entry::or_default` and `DashSet::insert`: adds
/// `id` to the set of `scope`, which is created empty where none is held.
#[verifier::external_body]
pub(crate) fn index_add(m: &mut IdIndex, scope: u64, id: u64)
    ensures
        index_contents(*final(m)) == idx_add(index_contents(*old(m)), scope, id),
{
    m.entry(scope).or_default().insert(id);
}

/// Relies on `DashMap::entry`, `Entry::or_default` and `DashSet::remove`: takes
/// `id` out of the set of `scope`, which is created empty where none is held.
#[verifier::external_body]
pub(crate) fn index_del(m: &mut IdIndex, scope: u64, id: u64)
    ensures
        index_contents(*final(m)) == idx_del(index_contents(*old(m)), scope, id),
{
    m.entry(scope).or_default().remove(&id);
}

/// Relies on `DashMap::remove`: the scope and its set leave the index.
#[verifier::external_body]
pub(crate) fn index_remove(m: &mut IdIndex, scope: u64)
    ensures
        index_contents(*final(m)) == index_contents(*old(m)).remove(scope),
{
    m.remove(&scope);
}

/// Relies on `DashMap::get` and `DashSet::iter`: the ids held for `scope`, each
/// once, in the set's own order.
#[verifier::external_body]
pub(crate) fn index_get(m: &IdIndex, scope: u64) -> (r: Option<Vec<u64>>)
    ensures
        r is None <==> !index_contents(*m).contains_key(scope),
        r is Some ==> r->0@.to_set() == index_contents(*m)[scope] && r->0@.no_duplicates(),
{
    m.get(&scope).map(|s| s.iter().map(|id| *id).collect())
}

} // verus!
