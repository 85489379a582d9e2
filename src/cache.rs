//! The scoped cache store and the event reducer that is its only writer.
//!
//! Each entity kind lives in a concurrent map of its own; channels, roles,
//! emoji and stickers are also listed under their owning scope in an index.
//! The reducer keeps the two in agreement after every event.
use vstd::prelude::*;

use crate::concurrent::{
    channel_contents, channel_map_get, channel_map_insert, channel_map_new, channel_map_remove,
    emoji_contents, emoji_map_get, emoji_map_insert, emoji_map_new, emoji_map_remove,
    guild_contents, guild_map_get, guild_map_insert, guild_map_new, guild_map_remove, index_add,
    index_contents, index_del, index_get, index_new, index_remove, map_get, member_contents,
    member_map_get, member_map_insert, member_map_new, member_map_remove, role_contents,
    role_map_get, role_map_insert, role_map_new, role_map_remove, sticker_contents, sticker_map_get,
    sticker_map_insert, sticker_map_new, sticker_map_remove, ChannelMap, EmojiMap, GuildMap,
    IdIndex, MemberMap, RoleMap, StickerMap,
};
use crate::index::{
    clear_scope_idx, consistent, idx_detach, idx_move, index_set, lemma_consistent_clear,
    lemma_consistent_drop_scope, lemma_consistent_move, lemma_consistent_remove, parent_of,
};
use crate::model::{
    CacheBotMember, CacheChannel, CacheEmoji, CacheGuild, CacheRole, CacheSticker, Event,
    GuildMember, GuildSnapshot,
};
use crate::webhooks::{CachedWebhook, WebhookCache};

verus! {

/// The contents of the store.
pub struct StoreView {
    pub bot_user_id: u64,
    pub guilds: Map<u64, CacheGuild>,
    pub channels: Map<u64, CacheChannel>,
    pub roles: Map<u64, CacheRole>,
    pub emojis: Map<u64, CacheEmoji>,
    pub stickers: Map<u64, CacheSticker>,
    pub bot_members: Map<u64, CacheBotMember>,
    pub channel_index: Map<u64, Set<u64>>,
    pub role_index: Map<u64, Set<u64>>,
    pub emoji_index: Map<u64, Set<u64>>,
    pub sticker_index: Map<u64, Set<u64>>,
}

/// Every index agrees with its entity map.
pub open spec fn store_consistent(s: StoreView) -> bool {
    &&& consistent(channel_parents(s.channels), s.channel_index)
    &&& consistent(role_parents(s.roles), s.role_index)
    &&& consistent(emoji_parents(s.emojis), s.emoji_index)
    &&& consistent(sticker_parents(s.stickers), s.sticker_index)
}

/// The parent scope of each cached channel.
pub open spec fn channel_parents(m: Map<u64, CacheChannel>) -> Map<u64, Option<u64>> {
    Map::new(|k: u64| m.contains_key(k), |k: u64| m[k].guild_id)
}

/// Creates or replaces a channel and moves it to the index of its scope.
pub open spec fn upsert_channel(s: StoreView, x: CacheChannel) -> StoreView {
    StoreView {
        channels: s.channels.insert(x.id, x),
        channel_index: idx_move(s.channel_index, parent_of(channel_parents(s.channels), x.id), x.guild_id, x.id),
        ..s
    }
}

/// Upserts each channel of `xs` in order.
pub open spec fn upsert_channels(s: StoreView, xs: Seq<CacheChannel>) -> StoreView
    decreases xs.len(),
{
    if xs.len() == 0 {
        s
    } else {
        upsert_channel(upsert_channels(s, xs.drop_last()), xs.last())
    }
}

/// The channels of a scope's snapshot or replacement list, each marked as the scope's own.
pub open spec fn scoped_channels(xs: Seq<CacheChannel>, g: u64) -> Seq<CacheChannel> {
    xs.map_values(|x: CacheChannel| CacheChannel { guild_id: Some(g), ..x })
}

/// Removes a channel and detaches it from the index of its scope.
pub open spec fn remove_channel(s: StoreView, id: u64) -> StoreView {
    StoreView {
        channels: s.channels.remove(id),
        channel_index: idx_detach(s.channel_index, parent_of(channel_parents(s.channels), id), id),
        ..s
    }
}

/// Removes every channel listed under scope `g`.
pub open spec fn clear_channels(s: StoreView, g: u64) -> StoreView {
    StoreView {
        channels: s.channels.remove_keys(index_set(s.channel_index, g)),
        channel_index: clear_scope_idx(s.channel_index, g),
        ..s
    }
}

/// The parent scope of each cached role.
pub open spec fn role_parents(m: Map<u64, CacheRole>) -> Map<u64, Option<u64>> {
    Map::new(|k: u64| m.contains_key(k), |k: u64| Some(m[k].guild_id))
}

/// Creates or replaces a role and moves it to the index of its scope.
pub open spec fn upsert_role(s: StoreView, x: CacheRole) -> StoreView {
    StoreView {
        roles: s.roles.insert(x.id, x),
        role_index: idx_move(s.role_index, parent_of(role_parents(s.roles), x.id), Some(x.guild_id), x.id),
        ..s
    }
}

/// Upserts each role of `xs` in order.
pub open spec fn upsert_roles(s: StoreView, xs: Seq<CacheRole>) -> StoreView
    decreases xs.len(),
{
    if xs.len() == 0 {
        s
    } else {
        upsert_role(upsert_roles(s, xs.drop_last()), xs.last())
    }
}

/// The roles of a scope's snapshot or replacement list, each marked as the scope's own.
pub open spec fn scoped_roles(xs: Seq<CacheRole>, g: u64) -> Seq<CacheRole> {
    xs.map_values(|x: CacheRole| CacheRole { guild_id: g, ..x })
}

/// Removes a role and detaches it from the index of its scope.
pub open spec fn remove_role(s: StoreView, id: u64) -> StoreView {
    StoreView {
        roles: s.roles.remove(id),
        role_index: idx_detach(s.role_index, parent_of(role_parents(s.roles), id), id),
        ..s
    }
}

/// Removes every role listed under scope `g`.
pub open spec fn clear_roles(s: StoreView, g: u64) -> StoreView {
    StoreView {
        roles: s.roles.remove_keys(index_set(s.role_index, g)),
        role_index: clear_scope_idx(s.role_index, g),
        ..s
    }
}

/// The parent scope of each cached emoji.
pub open spec fn emoji_parents(m: Map<u64, CacheEmoji>) -> Map<u64, Option<u64>> {
    Map::new(|k: u64| m.contains_key(k), |k: u64| Some(m[k].guild_id))
}

/// Creates or replaces a emoji and moves it to the index of its scope.
pub open spec fn upsert_emoji(s: StoreView, x: CacheEmoji) -> StoreView {
    StoreView {
        emojis: s.emojis.insert(x.id, x),
        emoji_index: idx_move(s.emoji_index, parent_of(emoji_parents(s.emojis), x.id), Some(x.guild_id), x.id),
        ..s
    }
}

/// Upserts each emoji of `xs` in order.
pub open spec fn upsert_emojis(s: StoreView, xs: Seq<CacheEmoji>) -> StoreView
    decreases xs.len(),
{
    if xs.len() == 0 {
        s
    } else {
        upsert_emoji(upsert_emojis(s, xs.drop_last()), xs.last())
    }
}

/// The emojis of a scope's snapshot or replacement list, each marked as the scope's own.
pub open spec fn scoped_emojis(xs: Seq<CacheEmoji>, g: u64) -> Seq<CacheEmoji> {
    xs.map_values(|x: CacheEmoji| CacheEmoji { guild_id: g, ..x })
}

/// Removes a emoji and detaches it from the index of its scope.
pub open spec fn remove_emoji(s: StoreView, id: u64) -> StoreView {
    StoreView {
        emojis: s.emojis.remove(id),
        emoji_index: idx_detach(s.emoji_index, parent_of(emoji_parents(s.emojis), id), id),
        ..s
    }
}

/// Removes every emoji listed under scope `g`.
pub open spec fn clear_emojis(s: StoreView, g: u64) -> StoreView {
    StoreView {
        emojis: s.emojis.remove_keys(index_set(s.emoji_index, g)),
        emoji_index: clear_scope_idx(s.emoji_index, g),
        ..s
    }
}

/// The parent scope of each cached sticker.
pub open spec fn sticker_parents(m: Map<u64, CacheSticker>) -> Map<u64, Option<u64>> {
    Map::new(|k: u64| m.contains_key(k), |k: u64| Some(m[k].guild_id))
}

/// Creates or replaces a sticker and moves it to the index of its scope.
pub open spec fn upsert_sticker(s: StoreView, x: CacheSticker) -> StoreView {
    StoreView {
        stickers: s.stickers.insert(x.id, x),
        sticker_index: idx_move(s.sticker_index, parent_of(sticker_parents(s.stickers), x.id), Some(x.guild_id), x.id),
        ..s
    }
}

/// Upserts each sticker of `xs` in order.
pub open spec fn upsert_stickers(s: StoreView, xs: Seq<CacheSticker>) -> StoreView
    decreases xs.len(),
{
    if xs.len() == 0 {
        s
    } else {
        upsert_sticker(upsert_stickers(s, xs.drop_last()), xs.last())
    }
}

/// The stickers of a scope's snapshot or replacement list, each marked as the scope's own.
pub open spec fn scoped_stickers(xs: Seq<CacheSticker>, g: u64) -> Seq<CacheSticker> {
    xs.map_values(|x: CacheSticker| CacheSticker { guild_id: g, ..x })
}

/// Removes a sticker and detaches it from the index of its scope.
pub open spec fn remove_sticker(s: StoreView, id: u64) -> StoreView {
    StoreView {
        stickers: s.stickers.remove(id),
        sticker_index: idx_detach(s.sticker_index, parent_of(sticker_parents(s.stickers), id), id),
        ..s
    }
}

/// Removes every sticker listed under scope `g`.
pub open spec fn clear_stickers(s: StoreView, g: u64) -> StoreView {
    StoreView {
        stickers: s.stickers.remove_keys(index_set(s.sticker_index, g)),
        sticker_index: clear_scope_idx(s.sticker_index, g),
        ..s
    }
}

pub proof fn lemma_upsert_channel(s: StoreView, x: CacheChannel)
    requires
        store_consistent(s),
    ensures
        store_consistent(upsert_channel(s, x)),
{
    lemma_consistent_move(channel_parents(s.channels), s.channel_index, x.id, x.guild_id);
    assert(channel_parents(s.channels.insert(x.id, x)) =~= channel_parents(s.channels).insert(x.id, x.guild_id));
}

pub proof fn lemma_upsert_channels(s: StoreView, xs: Seq<CacheChannel>)
    requires
        store_consistent(s),
    ensures
        store_consistent(upsert_channels(s, xs)),
    decreases xs.len(),
{
    if xs.len() > 0 {
        lemma_upsert_channels(s, xs.drop_last());
        lemma_upsert_channel(upsert_channels(s, xs.drop_last()), xs.last());
    }
}

pub proof fn lemma_remove_channel(s: StoreView, id: u64)
    requires
        store_consistent(s),
    ensures
        store_consistent(remove_channel(s, id)),
{
    lemma_consistent_remove(channel_parents(s.channels), s.channel_index, id);
    assert(channel_parents(s.channels.remove(id)) =~= channel_parents(s.channels).remove(id));
}

pub proof fn lemma_clear_channels(s: StoreView, g: u64)
    requires
        store_consistent(s),
    ensures
        store_consistent(clear_channels(s, g)),
        index_set(clear_channels(s, g).channel_index, g).is_empty(),
{
    let gone = index_set(s.channel_index, g);
    lemma_consistent_clear(channel_parents(s.channels), s.channel_index, g);
    assert(channel_parents(s.channels.remove_keys(gone)) =~= channel_parents(s.channels).remove_keys(gone));
}

pub proof fn lemma_upsert_role(s: StoreView, x: CacheRole)
    requires
        store_consistent(s),
    ensures
        store_consistent(upsert_role(s, x)),
{
    lemma_consistent_move(role_parents(s.roles), s.role_index, x.id, Some(x.guild_id));
    assert(role_parents(s.roles.insert(x.id, x)) =~= role_parents(s.roles).insert(x.id, Some(x.guild_id)));
}

pub proof fn lemma_upsert_roles(s: StoreView, xs: Seq<CacheRole>)
    requires
        store_consistent(s),
    ensures
        store_consistent(upsert_roles(s, xs)),
    decreases xs.len(),
{
    if xs.len() > 0 {
        lemma_upsert_roles(s, xs.drop_last());
        lemma_upsert_role(upsert_roles(s, xs.drop_last()), xs.last());
    }
}

pub proof fn lemma_remove_role(s: StoreView, id: u64)
    requires
        store_consistent(s),
    ensures
        store_consistent(remove_role(s, id)),
{
    lemma_consistent_remove(role_parents(s.roles), s.role_index, id);
    assert(role_parents(s.roles.remove(id)) =~= role_parents(s.roles).remove(id));
}

pub proof fn lemma_clear_roles(s: StoreView, g: u64)
    requires
        store_consistent(s),
    ensures
        store_consistent(clear_roles(s, g)),
        index_set(clear_roles(s, g).role_index, g).is_empty(),
{
    let gone = index_set(s.role_index, g);
    lemma_consistent_clear(role_parents(s.roles), s.role_index, g);
    assert(role_parents(s.roles.remove_keys(gone)) =~= role_parents(s.roles).remove_keys(gone));
}

pub proof fn lemma_upsert_emoji(s: StoreView, x: CacheEmoji)
    requires
        store_consistent(s),
    ensures
        store_consistent(upsert_emoji(s, x)),
{
    lemma_consistent_move(emoji_parents(s.emojis), s.emoji_index, x.id, Some(x.guild_id));
    assert(emoji_parents(s.emojis.insert(x.id, x)) =~= emoji_parents(s.emojis).insert(x.id, Some(x.guild_id)));
}

pub proof fn lemma_upsert_emojis(s: StoreView, xs: Seq<CacheEmoji>)
    requires
        store_consistent(s),
    ensures
        store_consistent(upsert_emojis(s, xs)),
    decreases xs.len(),
{
    if xs.len() > 0 {
        lemma_upsert_emojis(s, xs.drop_last());
        lemma_upsert_emoji(upsert_emojis(s, xs.drop_last()), xs.last());
    }
}

pub proof fn lemma_remove_emoji(s: StoreView, id: u64)
    requires
        store_consistent(s),
    ensures
        store_consistent(remove_emoji(s, id)),
{
    lemma_consistent_remove(emoji_parents(s.emojis), s.emoji_index, id);
    assert(emoji_parents(s.emojis.remove(id)) =~= emoji_parents(s.emojis).remove(id));
}

pub proof fn lemma_clear_emojis(s: StoreView, g: u64)
    requires
        store_consistent(s),
    ensures
        store_consistent(clear_emojis(s, g)),
        index_set(clear_emojis(s, g).emoji_index, g).is_empty(),
{
    let gone = index_set(s.emoji_index, g);
    lemma_consistent_clear(emoji_parents(s.emojis), s.emoji_index, g);
    assert(emoji_parents(s.emojis.remove_keys(gone)) =~= emoji_parents(s.emojis).remove_keys(gone));
}

pub proof fn lemma_upsert_sticker(s: StoreView, x: CacheSticker)
    requires
        store_consistent(s),
    ensures
        store_consistent(upsert_sticker(s, x)),
{
    lemma_consistent_move(sticker_parents(s.stickers), s.sticker_index, x.id, Some(x.guild_id));
    assert(sticker_parents(s.stickers.insert(x.id, x)) =~= sticker_parents(s.stickers).insert(x.id, Some(x.guild_id)));
}

pub proof fn lemma_upsert_stickers(s: StoreView, xs: Seq<CacheSticker>)
    requires
        store_consistent(s),
    ensures
        store_consistent(upsert_stickers(s, xs)),
    decreases xs.len(),
{
    if xs.len() > 0 {
        lemma_upsert_stickers(s, xs.drop_last());
        lemma_upsert_sticker(upsert_stickers(s, xs.drop_last()), xs.last());
    }
}

pub proof fn lemma_remove_sticker(s: StoreView, id: u64)
    requires
        store_consistent(s),
    ensures
        store_consistent(remove_sticker(s, id)),
{
    lemma_consistent_remove(sticker_parents(s.stickers), s.sticker_index, id);
    assert(sticker_parents(s.stickers.remove(id)) =~= sticker_parents(s.stickers).remove(id));
}

pub proof fn lemma_clear_stickers(s: StoreView, g: u64)
    requires
        store_consistent(s),
    ensures
        store_consistent(clear_stickers(s, g)),
        index_set(clear_stickers(s, g).sticker_index, g).is_empty(),
{
    let gone = index_set(s.sticker_index, g);
    lemma_consistent_clear(sticker_parents(s.stickers), s.sticker_index, g);
    assert(sticker_parents(s.stickers.remove_keys(gone)) =~= sticker_parents(s.stickers).remove_keys(gone));
}

/// The system's own memberships after the members of a snapshot of scope `g`.
pub open spec fn bot_members_after(
    m: Map<u64, CacheBotMember>,
    g: u64,
    bot: u64,
    members: Seq<GuildMember>,
) -> Map<u64, CacheBotMember>
    decreases members.len(),
{
    if members.len() == 0 {
        m
    } else {
        let before = bot_members_after(m, g, bot, members.drop_last());
        if members.last().user_id == bot {
            before.insert(g, CacheBotMember { roles: members.last().roles })
        } else {
            before
        }
    }
}

/// A scope becomes available: the scope itself, its channels and roles, the
/// replacement lists of its emoji and stickers, and the system's own roles.
pub open spec fn guild_create(s: StoreView, snap: GuildSnapshot) -> StoreView {
    let g = snap.guild.id;
    let s1 = StoreView { guilds: s.guilds.insert(g, snap.guild), ..s };
    let s2 = upsert_channels(s1, scoped_channels(snap.channels@, g));
    let s3 = upsert_roles(s2, scoped_roles(snap.roles@, g));
    let s4 = upsert_emojis(clear_emojis(s3, g), scoped_emojis(snap.emojis@, g));
    let s5 = upsert_stickers(clear_stickers(s4, g), scoped_stickers(snap.stickers@, g));
    StoreView {
        bot_members: bot_members_after(s5.bot_members, g, s5.bot_user_id, snap.members@),
        ..s5
    }
}

/// A scope is deleted: it goes with all of its children and index entries.
pub open spec fn remove_guild(s: StoreView, g: u64) -> StoreView {
    let c = clear_stickers(clear_emojis(clear_roles(clear_channels(s, g), g), g), g);
    StoreView {
        guilds: c.guilds.remove(g),
        bot_members: c.bot_members.remove(g),
        channel_index: c.channel_index.remove(g),
        role_index: c.role_index.remove(g),
        emoji_index: c.emoji_index.remove(g),
        sticker_index: c.sticker_index.remove(g),
        ..c
    }
}

/// The store after one event.
pub open spec fn apply_event(s: StoreView, e: Event) -> StoreView {
    match e {
        Event::GuildCreate(snap) => guild_create(s, snap),
        Event::GuildUpdate(guild) => StoreView { guilds: s.guilds.insert(guild.id, guild), ..s },
        Event::GuildDelete { id, unavailable } => if unavailable {
            s
        } else {
            remove_guild(s, id)
        },
        Event::ChannelUpsert(c) => upsert_channel(s, c),
        Event::ChannelDelete { id } => remove_channel(s, id),
        Event::ThreadListSync { guild_id, threads } => upsert_channels(
            s,
            scoped_channels(threads@, guild_id),
        ),
        Event::RoleUpsert(r) => upsert_role(s, r),
        Event::RoleDelete { guild_id, role_id } => remove_role(s, role_id),
        Event::EmojisReplace { guild_id, emojis } => upsert_emojis(
            clear_emojis(s, guild_id),
            scoped_emojis(emojis@, guild_id),
        ),
        Event::StickersReplace { guild_id, stickers } => upsert_stickers(
            clear_stickers(s, guild_id),
            scoped_stickers(stickers@, guild_id),
        ),
        Event::MemberUpsert { guild_id, member } => if member.user_id == s.bot_user_id {
            StoreView {
                bot_members: s.bot_members.insert(guild_id, CacheBotMember { roles: member.roles }),
                ..s
            }
        } else {
            s
        },
        Event::MemberRemove { guild_id, user_id } => if user_id == s.bot_user_id {
            StoreView { bot_members: s.bot_members.remove(guild_id), ..s }
        } else {
            s
        },
        Event::WebhooksUpdate { .. } => s,
        Event::Other => s,
    }
}

/// The webhook cache after one event applied to store `s`: a deleted scope
/// evicts the entries of all of its channels, a webhook signal that of its
/// channel.
pub open spec fn webhooks_after(
    w: Map<u64, Seq<CachedWebhook>>,
    s: StoreView,
    e: Event,
) -> Map<u64, Seq<CachedWebhook>> {
    match e {
        Event::GuildDelete { id, unavailable } => if unavailable {
            w
        } else {
            w.remove_keys(index_set(s.channel_index, id))
        },
        Event::WebhooksUpdate { channel_id } => w.remove(channel_id),
        _ => w,
    }
}

pub proof fn lemma_guild_create(s: StoreView, snap: GuildSnapshot)
    requires
        store_consistent(s),
    ensures
        store_consistent(guild_create(s, snap)),
{
    let g = snap.guild.id;
    let s1 = StoreView { guilds: s.guilds.insert(g, snap.guild), ..s };
    lemma_upsert_channels(s1, scoped_channels(snap.channels@, g));
    let s2 = upsert_channels(s1, scoped_channels(snap.channels@, g));
    lemma_upsert_roles(s2, scoped_roles(snap.roles@, g));
    let s3 = upsert_roles(s2, scoped_roles(snap.roles@, g));
    lemma_clear_emojis(s3, g);
    lemma_upsert_emojis(clear_emojis(s3, g), scoped_emojis(snap.emojis@, g));
    let s4 = upsert_emojis(clear_emojis(s3, g), scoped_emojis(snap.emojis@, g));
    lemma_clear_stickers(s4, g);
    lemma_upsert_stickers(clear_stickers(s4, g), scoped_stickers(snap.stickers@, g));
}

pub proof fn lemma_remove_guild(s: StoreView, g: u64)
    requires
        store_consistent(s),
    ensures
        store_consistent(remove_guild(s, g)),
        forall|id: u64| #[trigger]
            remove_guild(s, g).channels.contains_key(id) ==> remove_guild(s, g).channels[id].guild_id
                != Some(g),
        forall|id: u64| #[trigger]
            remove_guild(s, g).roles.contains_key(id) ==> remove_guild(s, g).roles[id].guild_id != g,
        forall|id: u64| #[trigger]
            remove_guild(s, g).emojis.contains_key(id) ==> remove_guild(s, g).emojis[id].guild_id
                != g,
        forall|id: u64| #[trigger]
            remove_guild(s, g).stickers.contains_key(id) ==> remove_guild(s, g).stickers[id].guild_id
                != g,
{
    lemma_clear_channels(s, g);
    let c1 = clear_channels(s, g);
    lemma_clear_roles(c1, g);
    let c2 = clear_roles(c1, g);
    lemma_clear_emojis(c2, g);
    let c3 = clear_emojis(c2, g);
    lemma_clear_stickers(c3, g);
    let c = clear_stickers(c3, g);
    lemma_consistent_drop_scope(channel_parents(c.channels), c.channel_index, g);
    lemma_consistent_drop_scope(role_parents(c.roles), c.role_index, g);
    lemma_consistent_drop_scope(emoji_parents(c.emojis), c.emoji_index, g);
    lemma_consistent_drop_scope(sticker_parents(c.stickers), c.sticker_index, g);
    let r = remove_guild(s, g);
    assert forall|id: u64| #[trigger] r.channels.contains_key(id) implies r.channels[id].guild_id
        != Some(g) by {
        assert(channel_parents(c.channels).contains_key(id));
    }
    assert forall|id: u64| #[trigger] r.roles.contains_key(id) implies r.roles[id].guild_id
        != g by {
        assert(role_parents(c.roles).contains_key(id));
    }
    assert forall|id: u64| #[trigger] r.emojis.contains_key(id) implies r.emojis[id].guild_id
        != g by {
        assert(emoji_parents(c.emojis).contains_key(id));
    }
    assert forall|id: u64| #[trigger] r.stickers.contains_key(id) implies r.stickers[id].guild_id
        != g by {
        assert(sticker_parents(c.stickers).contains_key(id));
    }
}

/// After every event, each index still agrees with its entity map: every id
/// listed under a scope is cached with that scope as its parent, and every
/// cached entity with a parent scope is listed under it.
pub proof fn lemma_events_keep_store_consistent(s: StoreView, e: Event)
    requires
        store_consistent(s),
    ensures
        store_consistent(apply_event(s, e)),
{
    match e {
        Event::GuildCreate(snap) => lemma_guild_create(s, snap),
        Event::GuildUpdate(guild) => {},
        Event::GuildDelete { id, unavailable } => if !unavailable {
            lemma_remove_guild(s, id);
        },
        Event::ChannelUpsert(c) => lemma_upsert_channel(s, c),
        Event::ChannelDelete { id } => lemma_remove_channel(s, id),
        Event::ThreadListSync { guild_id, threads } => lemma_upsert_channels(
            s,
            scoped_channels(threads@, guild_id),
        ),
        Event::RoleUpsert(r) => lemma_upsert_role(s, r),
        Event::RoleDelete { guild_id, role_id } => lemma_remove_role(s, role_id),
        Event::EmojisReplace { guild_id, emojis } => {
            lemma_clear_emojis(s, guild_id);
            lemma_upsert_emojis(clear_emojis(s, guild_id), scoped_emojis(emojis@, guild_id));
        },
        Event::StickersReplace { guild_id, stickers } => {
            lemma_clear_stickers(s, guild_id);
            lemma_upsert_stickers(clear_stickers(s, guild_id), scoped_stickers(stickers@, guild_id));
        },
        _ => {},
    }
}

/// Deleting a scope that is gone for good removes the scope, every channel,
/// role, emoji and sticker that it owned, its index entries and the system's
/// membership in it, and evicts the cached webhooks of each of its channels.
/// A delete that only marks the scope unavailable changes nothing.
pub proof fn lemma_guild_delete_cascades(
    s: StoreView,
    w: Map<u64, Seq<CachedWebhook>>,
    g: u64,
    unavailable: bool,
)
    requires
        store_consistent(s),
    ensures
        unavailable ==> apply_event(s, Event::GuildDelete { id: g, unavailable }) == s
            && webhooks_after(w, s, Event::GuildDelete { id: g, unavailable }) == w,
        !unavailable ==> {
            let r = apply_event(s, Event::GuildDelete { id: g, unavailable });
            let rw = webhooks_after(w, s, Event::GuildDelete { id: g, unavailable });
            &&& !r.guilds.contains_key(g)
            &&& !r.bot_members.contains_key(g)
            &&& !r.channel_index.contains_key(g)
            &&& !r.role_index.contains_key(g)
            &&& !r.emoji_index.contains_key(g)
            &&& !r.sticker_index.contains_key(g)
            &&& forall|id: u64| #[trigger]
                r.channels.contains_key(id) ==> r.channels[id].guild_id != Some(g)
            &&& forall|id: u64| #[trigger] r.roles.contains_key(id) ==> r.roles[id].guild_id != g
            &&& forall|id: u64| #[trigger] r.emojis.contains_key(id) ==> r.emojis[id].guild_id != g
            &&& forall|id: u64| #[trigger]
                r.stickers.contains_key(id) ==> r.stickers[id].guild_id != g
            &&& forall|c: u64| #[trigger]
                s.channels.contains_key(c) && s.channels[c].guild_id == Some(g)
                    ==> !rw.contains_key(c) && !r.channels.contains_key(c)
        },
{
    if !unavailable {
        lemma_remove_guild(s, g);
        assert forall|c: u64| #[trigger]
            s.channels.contains_key(c) && s.channels[c].guild_id == Some(g) implies index_set(
            s.channel_index,
            g,
        ).contains(c) by {
            assert(channel_parents(s.channels).contains_key(c));
        }
    }
}

/// The cache store. The reducer (`update`) is its only writer.
pub struct DiscordCache {
    bot_user_id: u64,
    guilds: GuildMap,
    channels: ChannelMap,
    roles: RoleMap,
    emojis: EmojiMap,
    stickers: StickerMap,
    bot_members: MemberMap,
    channel_index: IdIndex,
    role_index: IdIndex,
    emoji_index: IdIndex,
    sticker_index: IdIndex,
}

impl View for DiscordCache {
    type V = StoreView;

    closed spec fn view(&self) -> StoreView {
        StoreView {
            bot_user_id: self.bot_user_id,
            guilds: guild_contents(self.guilds),
            channels: channel_contents(self.channels),
            roles: role_contents(self.roles),
            emojis: emoji_contents(self.emojis),
            stickers: sticker_contents(self.stickers),
            bot_members: member_contents(self.bot_members),
            channel_index: index_contents(self.channel_index),
            role_index: index_contents(self.role_index),
            emoji_index: index_contents(self.emoji_index),
            sticker_index: index_contents(self.sticker_index),
        }
    }
}

impl DiscordCache {
    /// An empty store for the system whose own member id is `bot_user_id`.
    pub fn new(bot_user_id: u64) -> (r: DiscordCache)
        ensures
            r@.bot_user_id == bot_user_id,
            r@.guilds.dom().is_empty(),
            r@.channels.dom().is_empty(),
            r@.roles.dom().is_empty(),
            r@.emojis.dom().is_empty(),
            r@.stickers.dom().is_empty(),
            r@.bot_members.dom().is_empty(),
            r@.channel_index.dom().is_empty(),
            r@.role_index.dom().is_empty(),
            r@.emoji_index.dom().is_empty(),
            r@.sticker_index.dom().is_empty(),
            store_consistent(r@),
    {
        DiscordCache {
            bot_user_id,
            guilds: guild_map_new(),
            channels: channel_map_new(),
            roles: role_map_new(),
            emojis: emoji_map_new(),
            stickers: sticker_map_new(),
            bot_members: member_map_new(),
            channel_index: index_new(),
            role_index: index_new(),
            emoji_index: index_new(),
            sticker_index: index_new(),
        }
    }

    /// Applies one inbound event. Unknown event kinds change nothing.
    pub fn update(&mut self, event: Event, webhooks: &mut WebhookCache)
        requires
            store_consistent(old(self)@),
        ensures
            final(self)@ == apply_event(old(self)@, event),
            final(webhooks)@ == webhooks_after(old(webhooks)@, old(self)@, event),
            store_consistent(final(self)@),
    {
        proof {
            lemma_events_keep_store_consistent(self@, event);
        }
        let ghost e = event;
        match event {
            Event::GuildCreate(snap) => self.apply_guild_create(snap),
            Event::GuildUpdate(guild) => {
                let id = guild.id;
                guild_map_insert(&mut self.guilds, id, guild);
            },
            Event::GuildDelete { id, unavailable } => {
                if !unavailable {
                    self.apply_guild_delete(id, webhooks);
                }
            },
            Event::ChannelUpsert(c) => self.upsert_channel_entry(c),
            Event::ChannelDelete { id } => self.remove_channel_entry(id),
            Event::ThreadListSync { guild_id, threads } => {
                self.upsert_scoped_channels(guild_id, threads);
            },
            Event::RoleUpsert(r) => self.upsert_role_entry(r),
            Event::RoleDelete { guild_id, role_id } => self.remove_role_entry(role_id),
            Event::EmojisReplace { guild_id, emojis } => {
                self.clear_emojis_of(guild_id);
                self.upsert_scoped_emojis(guild_id, emojis);
            },
            Event::StickersReplace { guild_id, stickers } => {
                self.clear_stickers_of(guild_id);
                self.upsert_scoped_stickers(guild_id, stickers);
            },
            Event::MemberUpsert { guild_id, member } => {
                if member.user_id == self.bot_user_id {
                    member_map_insert(
                        &mut self.bot_members,
                        guild_id,
                        CacheBotMember { roles: member.roles },
                    );
                }
            },
            Event::MemberRemove { guild_id, user_id } => {
                if user_id == self.bot_user_id {
                    member_map_remove(&mut self.bot_members, guild_id);
                }
            },
            Event::WebhooksUpdate { channel_id } => {
                webhooks.delete_webhooks_for_channel(channel_id);
            },
            Event::Other => {},
        }
    }

    fn apply_guild_create(&mut self, snap: GuildSnapshot)
        requires
            store_consistent(old(self)@),
        ensures
            final(self)@ == guild_create(old(self)@, snap),
    {
        let ghost s = self@;
        let ghost sn = snap;
        let GuildSnapshot { guild, channels, roles, emojis, stickers, members } = snap;
        let g = guild.id;
        guild_map_insert(&mut self.guilds, g, guild);
        let ghost s1 = self@;
        assert(s1 == StoreView { guilds: s.guilds.insert(g, sn.guild), ..s });
        self.upsert_scoped_channels(g, channels);
        proof {
            lemma_upsert_channels(s1, scoped_channels(sn.channels@, g));
        }
        let ghost s2 = self@;
        assert(s2 == upsert_channels(s1, scoped_channels(sn.channels@, g)));
        self.upsert_scoped_roles(g, roles);
        proof {
            lemma_upsert_roles(s2, scoped_roles(sn.roles@, g));
        }
        let ghost s3 = self@;
        assert(s3 == upsert_roles(s2, scoped_roles(sn.roles@, g)));
        self.clear_emojis_of(g);
        proof {
            lemma_clear_emojis(s3, g);
        }
        self.upsert_scoped_emojis(g, emojis);
        proof {
            lemma_upsert_emojis(clear_emojis(s3, g), scoped_emojis(sn.emojis@, g));
        }
        let ghost s4 = self@;
        assert(s4 == upsert_emojis(clear_emojis(s3, g), scoped_emojis(sn.emojis@, g)));
        self.clear_stickers_of(g);
        self.upsert_scoped_stickers(g, stickers);
        let ghost s5 = self@;
        assert(s5 == upsert_stickers(clear_stickers(s4, g), scoped_stickers(sn.stickers@, g)));
        self.record_bot_member(g, members);
    }

    fn apply_guild_delete(&mut self, g: u64, webhooks: &mut WebhookCache)
        requires
            store_consistent(old(self)@),
        ensures
            final(self)@ == remove_guild(old(self)@, g),
            final(webhooks)@ == old(webhooks)@.remove_keys(index_set(old(self)@.channel_index, g)),
    {
        let ghost s = self@;
        self.clear_channels_of(g, webhooks);
        proof {
            lemma_clear_channels(s, g);
        }
        let ghost c1 = self@;
        self.clear_roles_of(g);
        proof {
            lemma_clear_roles(c1, g);
        }
        let ghost c2 = self@;
        self.clear_emojis_of(g);
        proof {
            lemma_clear_emojis(c2, g);
        }
        self.clear_stickers_of(g);
        guild_map_remove(&mut self.guilds, g);
        member_map_remove(&mut self.bot_members, g);
        index_remove(&mut self.channel_index, g);
        index_remove(&mut self.role_index, g);
        index_remove(&mut self.emoji_index, g);
        index_remove(&mut self.sticker_index, g);
    }

    /// Keeps the roles of the system's own member among `members`, if present.
    fn record_bot_member(&mut self, g: u64, members: Vec<GuildMember>)
        ensures
            final(self)@ == (StoreView {
                bot_members: bot_members_after(old(self)@.bot_members, g, old(self)@.bot_user_id, members@),
                ..old(self)@
            }),
    {
        let ghost s0 = self@;
        let ghost orig = members@;
        let ghost mut k: int = 0;
        let mut rest = members;
        while rest.len() > 0
            invariant
                0 <= k <= orig.len(),
                rest@ == orig.subrange(k, orig.len() as int),
                self@ == (StoreView {
                    bot_members: bot_members_after(s0.bot_members, g, s0.bot_user_id, orig.take(k)),
                    ..s0
                }),
            decreases rest.len(),
        {
            let m = rest.remove(0);
            proof {
                assert(m == orig[k]);
                assert(orig.take(k + 1).drop_last() =~= orig.take(k));
            }
            if m.user_id == self.bot_user_id {
                member_map_insert(&mut self.bot_members, g, CacheBotMember { roles: m.roles });
            }
            proof {
                k = k + 1;
                assert(rest@ =~= orig.subrange(k, orig.len() as int));
            }
        }
        proof {
            assert(orig.take(k) =~= orig);
        }
    }

    fn upsert_channel_entry(&mut self, x: CacheChannel)
        ensures
            final(self)@ == upsert_channel(old(self)@, x),
    {
        let id = x.id;
        let parent = x.guild_id;
        let prev = channel_map_insert(&mut self.channels, id, x);
        match prev {
            Some(o) => match o.guild_id {
                Some(og) => index_del(&mut self.channel_index, og, id),
                None => {},
            },
            None => {},
        }
        match parent {
            Some(ng) => index_add(&mut self.channel_index, ng, id),
            None => {},
        }
    }

    fn remove_channel_entry(&mut self, id: u64)
        ensures
            final(self)@ == remove_channel(old(self)@, id),
    {
        let prev = channel_map_remove(&mut self.channels, id);
        match prev {
            Some(o) => match o.guild_id {
                Some(og) => index_del(&mut self.channel_index, og, id),
                None => {},
            },
            None => {},
        }
    }

    /// Upserts each channel of `xs`, in order, as a channel of scope `g`.
    fn upsert_scoped_channels(&mut self, g: u64, xs: Vec<CacheChannel>)
        ensures
            final(self)@ == upsert_channels(old(self)@, scoped_channels(xs@, g)),
    {
        let ghost s0 = self@;
        let ghost orig = xs@;
        let ghost all = scoped_channels(orig, g);
        let ghost mut k: int = 0;
        let mut rest = xs;
        while rest.len() > 0
            invariant
                0 <= k <= orig.len(),
                rest@ == orig.subrange(k, orig.len() as int),
                all == scoped_channels(orig, g),
                self@ == upsert_channels(s0, all.take(k)),
            decreases rest.len(),
        {
            let ghost before = rest@;
            let mut x = rest.remove(0);
            proof {
                assert(x == orig[k]);
            }
            x.guild_id = Some(g);
            proof {
                assert(x == all[k]);
                assert(all.take(k + 1).drop_last() =~= all.take(k));
            }
            self.upsert_channel_entry(x);
            proof {
                k = k + 1;
                assert(rest@ =~= orig.subrange(k, orig.len() as int));
            }
        }
        proof {
            assert(all.take(k) =~= all);
        }
    }

    /// Removes every channel listed under scope `g`.
    fn clear_channels_of(&mut self, g: u64, webhooks: &mut WebhookCache)
        requires
            store_consistent(old(self)@),
        ensures
            final(self)@ == clear_channels(old(self)@, g),
            final(webhooks)@ == old(webhooks)@.remove_keys(index_set(old(self)@.channel_index, g)),
    {
        let ghost s0 = self@;
        let ghost gone = index_set(s0.channel_index, g);
            let ghost w0 = webhooks@;
        let ids = index_get(&self.channel_index, g);
        match ids {
            None => {
                proof {
                    assert(s0.channels.remove_keys(gone) =~= s0.channels);
                    assert(webhooks@ =~= webhooks@.remove_keys(Set::empty()));
                }
            },
            Some(v) => {
                let mut i: usize = 0;
                proof {
                    assert(s0.channel_index.contains_key(g));
                    assert(gone == s0.channel_index[g]);
                    assert(gone.difference(Set::empty()) =~= gone);
                    assert(v@.take(0).to_set() =~= Set::<u64>::empty());
                    assert(s0.channels.remove_keys(Set::empty()) =~= s0.channels);
                    assert(s0.channel_index.insert(g, gone.difference(Set::empty())) =~= s0.channel_index);
                    assert(w0.remove_keys(Set::empty()) =~= w0);
                }
                while i < v.len()
                    invariant
                        i <= v@.len(),
                        v@.to_set() == gone,
                        v@.no_duplicates(),
                        s0.channel_index.contains_key(g),
                        gone == index_set(s0.channel_index, g),
                        store_consistent(s0),
                        self@ == (StoreView {
                            channels: s0.channels.remove_keys(v@.take(i as int).to_set()),
                            channel_index: s0.channel_index.insert(g, gone.difference(v@.take(i as int).to_set())),
                            ..s0
                        }),
                webhooks@ == w0.remove_keys(v@.take(i as int).to_set()),
                    decreases v.len() - i,
                {
                    let id = v[i];
                    proof {
                        assert(v@.contains(id)) by {
                            assert(v@[i as int] == id);
                        }
                        assert(gone.contains(id));
                        assert(s0.channel_index[g].contains(id));
                        assert(!v@.take(i as int).contains(id)) by {
                            if v@.take(i as int).contains(id) {
                                let j = choose|j: int| 0 <= j < i && v@.take(i as int)[j] == id;
                                assert(v@[j] == v@[i as int]);
                            }
                        }
                        assert(!v@.take(i as int).to_set().contains(id));
                    }
                    proof {
                        let taken = v@.take(i as int).to_set();
                        assert(channel_parents(s0.channels).contains_key(id));
                        assert(channel_parents(s0.channels)[id] == Some(g));
                        assert(self@.channels.contains_key(id));
                        assert(parent_of(channel_parents(self@.channels), id) == Some(g));
                        assert(gone.difference(taken).remove(id) =~= gone.difference(taken.insert(id)));
                    }
                    self.remove_channel_entry(id);
                webhooks.delete_webhooks_for_channel(id);
                    proof {
                        assert(v@.take(i + 1).to_set() =~= v@.take(i as int).to_set().insert(id)) by {
                            let t0 = v@.take(i as int);
                            let t1 = v@.take(i + 1);
                            assert(t1 =~= t0.push(id));
                            assert forall|x: u64| t1.contains(x) <==> t0.contains(x) || x == id by {
                                if t1.contains(x) {
                                    let j = choose|j: int| 0 <= j < t1.len() && t1[j] == x;
                                    if j < i {
                                        assert(t0[j] == x);
                                    }
                                }
                                if t0.contains(x) {
                                    let j = choose|j: int| 0 <= j < t0.len() && t0[j] == x;
                                    assert(t1[j] == x);
                                }
                                if x == id {
                                    assert(t1[i as int] == x);
                                }
                            }
                        }
                        assert(self@.channels =~= s0.channels.remove_keys(v@.take(i + 1).to_set()));
                        assert(self@.channel_index =~= s0.channel_index.insert(g, gone.difference(v@.take(i + 1).to_set())));
                    assert(webhooks@ =~= w0.remove_keys(v@.take(i + 1).to_set()));
                    }
                    i += 1;
                }
                proof {
                    assert(v@.take(i as int) =~= v@);
                    assert(gone.difference(gone) =~= Set::empty());
                assert(webhooks@ == w0.remove_keys(gone));
                }
            },
        }
    }

    fn upsert_role_entry(&mut self, x: CacheRole)
        ensures
            final(self)@ == upsert_role(old(self)@, x),
    {
        let id = x.id;
        let parent = Some(x.guild_id);
        let prev = role_map_insert(&mut self.roles, id, x);
        match prev {
            Some(o) => match Some(o.guild_id) {
                Some(og) => index_del(&mut self.role_index, og, id),
                None => {},
            },
            None => {},
        }
        match parent {
            Some(ng) => index_add(&mut self.role_index, ng, id),
            None => {},
        }
    }

    fn remove_role_entry(&mut self, id: u64)
        ensures
            final(self)@ == remove_role(old(self)@, id),
    {
        let prev = role_map_remove(&mut self.roles, id);
        match prev {
            Some(o) => match Some(o.guild_id) {
                Some(og) => index_del(&mut self.role_index, og, id),
                None => {},
            },
            None => {},
        }
    }

    /// Upserts each role of `xs`, in order, as a role of scope `g`.
    fn upsert_scoped_roles(&mut self, g: u64, xs: Vec<CacheRole>)
        ensures
            final(self)@ == upsert_roles(old(self)@, scoped_roles(xs@, g)),
    {
        let ghost s0 = self@;
        let ghost orig = xs@;
        let ghost all = scoped_roles(orig, g);
        let ghost mut k: int = 0;
        let mut rest = xs;
        while rest.len() > 0
            invariant
                0 <= k <= orig.len(),
                rest@ == orig.subrange(k, orig.len() as int),
                all == scoped_roles(orig, g),
                self@ == upsert_roles(s0, all.take(k)),
            decreases rest.len(),
        {
            let ghost before = rest@;
            let mut x = rest.remove(0);
            proof {
                assert(x == orig[k]);
            }
            x.guild_id = g;
            proof {
                assert(x == all[k]);
                assert(all.take(k + 1).drop_last() =~= all.take(k));
            }
            self.upsert_role_entry(x);
            proof {
                k = k + 1;
                assert(rest@ =~= orig.subrange(k, orig.len() as int));
            }
        }
        proof {
            assert(all.take(k) =~= all);
        }
    }

    /// Removes every role listed under scope `g`.
    fn clear_roles_of(&mut self, g: u64)
        requires
            store_consistent(old(self)@),
        ensures
            final(self)@ == clear_roles(old(self)@, g),
    {
        let ghost s0 = self@;
        let ghost gone = index_set(s0.role_index, g);
        let ids = index_get(&self.role_index, g);
        match ids {
            None => {
                proof {
                    assert(s0.roles.remove_keys(gone) =~= s0.roles);
                }
            },
            Some(v) => {
                let mut i: usize = 0;
                proof {
                    assert(s0.role_index.contains_key(g));
                    assert(gone == s0.role_index[g]);
                    assert(gone.difference(Set::empty()) =~= gone);
                    assert(v@.take(0).to_set() =~= Set::<u64>::empty());
                    assert(s0.roles.remove_keys(Set::empty()) =~= s0.roles);
                    assert(s0.role_index.insert(g, gone.difference(Set::empty())) =~= s0.role_index);
                }
                while i < v.len()
                    invariant
                        i <= v@.len(),
                        v@.to_set() == gone,
                        v@.no_duplicates(),
                        s0.role_index.contains_key(g),
                        gone == index_set(s0.role_index, g),
                        store_consistent(s0),
                        self@ == (StoreView {
                            roles: s0.roles.remove_keys(v@.take(i as int).to_set()),
                            role_index: s0.role_index.insert(g, gone.difference(v@.take(i as int).to_set())),
                            ..s0
                        }),
                    decreases v.len() - i,
                {
                    let id = v[i];
                    proof {
                        assert(v@.contains(id)) by {
                            assert(v@[i as int] == id);
                        }
                        assert(gone.contains(id));
                        assert(s0.role_index[g].contains(id));
                        assert(!v@.take(i as int).contains(id)) by {
                            if v@.take(i as int).contains(id) {
                                let j = choose|j: int| 0 <= j < i && v@.take(i as int)[j] == id;
                                assert(v@[j] == v@[i as int]);
                            }
                        }
                        assert(!v@.take(i as int).to_set().contains(id));
                    }
                    proof {
                        let taken = v@.take(i as int).to_set();
                        assert(role_parents(s0.roles).contains_key(id));
                        assert(role_parents(s0.roles)[id] == Some(g));
                        assert(self@.roles.contains_key(id));
                        assert(parent_of(role_parents(self@.roles), id) == Some(g));
                        assert(gone.difference(taken).remove(id) =~= gone.difference(taken.insert(id)));
                    }
                    self.remove_role_entry(id);
                    proof {
                        assert(v@.take(i + 1).to_set() =~= v@.take(i as int).to_set().insert(id)) by {
                            let t0 = v@.take(i as int);
                            let t1 = v@.take(i + 1);
                            assert(t1 =~= t0.push(id));
                            assert forall|x: u64| t1.contains(x) <==> t0.contains(x) || x == id by {
                                if t1.contains(x) {
                                    let j = choose|j: int| 0 <= j < t1.len() && t1[j] == x;
                                    if j < i {
                                        assert(t0[j] == x);
                                    }
                                }
                                if t0.contains(x) {
                                    let j = choose|j: int| 0 <= j < t0.len() && t0[j] == x;
                                    assert(t1[j] == x);
                                }
                                if x == id {
                                    assert(t1[i as int] == x);
                                }
                            }
                        }
                        assert(self@.roles =~= s0.roles.remove_keys(v@.take(i + 1).to_set()));
                        assert(self@.role_index =~= s0.role_index.insert(g, gone.difference(v@.take(i + 1).to_set())));
                    }
                    i += 1;
                }
                proof {
                    assert(v@.take(i as int) =~= v@);
                    assert(gone.difference(gone) =~= Set::empty());
                }
            },
        }
    }

    fn upsert_emoji_entry(&mut self, x: CacheEmoji)
        ensures
            final(self)@ == upsert_emoji(old(self)@, x),
    {
        let id = x.id;
        let parent = Some(x.guild_id);
        let prev = emoji_map_insert(&mut self.emojis, id, x);
        match prev {
            Some(o) => match Some(o.guild_id) {
                Some(og) => index_del(&mut self.emoji_index, og, id),
                None => {},
            },
            None => {},
        }
        match parent {
            Some(ng) => index_add(&mut self.emoji_index, ng, id),
            None => {},
        }
    }

    fn remove_emoji_entry(&mut self, id: u64)
        ensures
            final(self)@ == remove_emoji(old(self)@, id),
    {
        let prev = emoji_map_remove(&mut self.emojis, id);
        match prev {
            Some(o) => match Some(o.guild_id) {
                Some(og) => index_del(&mut self.emoji_index, og, id),
                None => {},
            },
            None => {},
        }
    }

    /// Upserts each emoji of `xs`, in order, as a emoji of scope `g`.
    fn upsert_scoped_emojis(&mut self, g: u64, xs: Vec<CacheEmoji>)
        ensures
            final(self)@ == upsert_emojis(old(self)@, scoped_emojis(xs@, g)),
    {
        let ghost s0 = self@;
        let ghost orig = xs@;
        let ghost all = scoped_emojis(orig, g);
        let ghost mut k: int = 0;
        let mut rest = xs;
        while rest.len() > 0
            invariant
                0 <= k <= orig.len(),
                rest@ == orig.subrange(k, orig.len() as int),
                all == scoped_emojis(orig, g),
                self@ == upsert_emojis(s0, all.take(k)),
            decreases rest.len(),
        {
            let ghost before = rest@;
            let mut x = rest.remove(0);
            proof {
                assert(x == orig[k]);
            }
            x.guild_id = g;
            proof {
                assert(x == all[k]);
                assert(all.take(k + 1).drop_last() =~= all.take(k));
            }
            self.upsert_emoji_entry(x);
            proof {
                k = k + 1;
                assert(rest@ =~= orig.subrange(k, orig.len() as int));
            }
        }
        proof {
            assert(all.take(k) =~= all);
        }
    }

    /// Removes every emoji listed under scope `g`.
    fn clear_emojis_of(&mut self, g: u64)
        requires
            store_consistent(old(self)@),
        ensures
            final(self)@ == clear_emojis(old(self)@, g),
    {
        let ghost s0 = self@;
        let ghost gone = index_set(s0.emoji_index, g);
        let ids = index_get(&self.emoji_index, g);
        match ids {
            None => {
                proof {
                    assert(s0.emojis.remove_keys(gone) =~= s0.emojis);
                }
            },
            Some(v) => {
                let mut i: usize = 0;
                proof {
                    assert(s0.emoji_index.contains_key(g));
                    assert(gone == s0.emoji_index[g]);
                    assert(gone.difference(Set::empty()) =~= gone);
                    assert(v@.take(0).to_set() =~= Set::<u64>::empty());
                    assert(s0.emojis.remove_keys(Set::empty()) =~= s0.emojis);
                    assert(s0.emoji_index.insert(g, gone.difference(Set::empty())) =~= s0.emoji_index);
                }
                while i < v.len()
                    invariant
                        i <= v@.len(),
                        v@.to_set() == gone,
                        v@.no_duplicates(),
                        s0.emoji_index.contains_key(g),
                        gone == index_set(s0.emoji_index, g),
                        store_consistent(s0),
                        self@ == (StoreView {
                            emojis: s0.emojis.remove_keys(v@.take(i as int).to_set()),
                            emoji_index: s0.emoji_index.insert(g, gone.difference(v@.take(i as int).to_set())),
                            ..s0
                        }),
                    decreases v.len() - i,
                {
                    let id = v[i];
                    proof {
                        assert(v@.contains(id)) by {
                            assert(v@[i as int] == id);
                        }
                        assert(gone.contains(id));
                        assert(s0.emoji_index[g].contains(id));
                        assert(!v@.take(i as int).contains(id)) by {
                            if v@.take(i as int).contains(id) {
                                let j = choose|j: int| 0 <= j < i && v@.take(i as int)[j] == id;
                                assert(v@[j] == v@[i as int]);
                            }
                        }
                        assert(!v@.take(i as int).to_set().contains(id));
                    }
                    proof {
                        let taken = v@.take(i as int).to_set();
                        assert(emoji_parents(s0.emojis).contains_key(id));
                        assert(emoji_parents(s0.emojis)[id] == Some(g));
                        assert(self@.emojis.contains_key(id));
                        assert(parent_of(emoji_parents(self@.emojis), id) == Some(g));
                        assert(gone.difference(taken).remove(id) =~= gone.difference(taken.insert(id)));
                    }
                    self.remove_emoji_entry(id);
                    proof {
                        assert(v@.take(i + 1).to_set() =~= v@.take(i as int).to_set().insert(id)) by {
                            let t0 = v@.take(i as int);
                            let t1 = v@.take(i + 1);
                            assert(t1 =~= t0.push(id));
                            assert forall|x: u64| t1.contains(x) <==> t0.contains(x) || x == id by {
                                if t1.contains(x) {
                                    let j = choose|j: int| 0 <= j < t1.len() && t1[j] == x;
                                    if j < i {
                                        assert(t0[j] == x);
                                    }
                                }
                                if t0.contains(x) {
                                    let j = choose|j: int| 0 <= j < t0.len() && t0[j] == x;
                                    assert(t1[j] == x);
                                }
                                if x == id {
                                    assert(t1[i as int] == x);
                                }
                            }
                        }
                        assert(self@.emojis =~= s0.emojis.remove_keys(v@.take(i + 1).to_set()));
                        assert(self@.emoji_index =~= s0.emoji_index.insert(g, gone.difference(v@.take(i + 1).to_set())));
                    }
                    i += 1;
                }
                proof {
                    assert(v@.take(i as int) =~= v@);
                    assert(gone.difference(gone) =~= Set::empty());
                }
            },
        }
    }

    fn upsert_sticker_entry(&mut self, x: CacheSticker)
        ensures
            final(self)@ == upsert_sticker(old(self)@, x),
    {
        let id = x.id;
        let parent = Some(x.guild_id);
        let prev = sticker_map_insert(&mut self.stickers, id, x);
        match prev {
            Some(o) => match Some(o.guild_id) {
                Some(og) => index_del(&mut self.sticker_index, og, id),
                None => {},
            },
            None => {},
        }
        match parent {
            Some(ng) => index_add(&mut self.sticker_index, ng, id),
            None => {},
        }
    }

    fn remove_sticker_entry(&mut self, id: u64)
        ensures
            final(self)@ == remove_sticker(old(self)@, id),
    {
        let prev = sticker_map_remove(&mut self.stickers, id);
        match prev {
            Some(o) => match Some(o.guild_id) {
                Some(og) => index_del(&mut self.sticker_index, og, id),
                None => {},
            },
            None => {},
        }
    }

    /// Upserts each sticker of `xs`, in order, as a sticker of scope `g`.
    fn upsert_scoped_stickers(&mut self, g: u64, xs: Vec<CacheSticker>)
        ensures
            final(self)@ == upsert_stickers(old(self)@, scoped_stickers(xs@, g)),
    {
        let ghost s0 = self@;
        let ghost orig = xs@;
        let ghost all = scoped_stickers(orig, g);
        let ghost mut k: int = 0;
        let mut rest = xs;
        while rest.len() > 0
            invariant
                0 <= k <= orig.len(),
                rest@ == orig.subrange(k, orig.len() as int),
                all == scoped_stickers(orig, g),
                self@ == upsert_stickers(s0, all.take(k)),
            decreases rest.len(),
        {
            let ghost before = rest@;
            let mut x = rest.remove(0);
            proof {
                assert(x == orig[k]);
            }
            x.guild_id = g;
            proof {
                assert(x == all[k]);
                assert(all.take(k + 1).drop_last() =~= all.take(k));
            }
            self.upsert_sticker_entry(x);
            proof {
                k = k + 1;
                assert(rest@ =~= orig.subrange(k, orig.len() as int));
            }
        }
        proof {
            assert(all.take(k) =~= all);
        }
    }

    /// Removes every sticker listed under scope `g`.
    fn clear_stickers_of(&mut self, g: u64)
        requires
            store_consistent(old(self)@),
        ensures
            final(self)@ == clear_stickers(old(self)@, g),
    {
        let ghost s0 = self@;
        let ghost gone = index_set(s0.sticker_index, g);
        let ids = index_get(&self.sticker_index, g);
        match ids {
            None => {
                proof {
                    assert(s0.stickers.remove_keys(gone) =~= s0.stickers);
                }
            },
            Some(v) => {
                let mut i: usize = 0;
                proof {
                    assert(s0.sticker_index.contains_key(g));
                    assert(gone == s0.sticker_index[g]);
                    assert(gone.difference(Set::empty()) =~= gone);
                    assert(v@.take(0).to_set() =~= Set::<u64>::empty());
                    assert(s0.stickers.remove_keys(Set::empty()) =~= s0.stickers);
                    assert(s0.sticker_index.insert(g, gone.difference(Set::empty())) =~= s0.sticker_index);
                }
                while i < v.len()
                    invariant
                        i <= v@.len(),
                        v@.to_set() == gone,
                        v@.no_duplicates(),
                        s0.sticker_index.contains_key(g),
                        gone == index_set(s0.sticker_index, g),
                        store_consistent(s0),
                        self@ == (StoreView {
                            stickers: s0.stickers.remove_keys(v@.take(i as int).to_set()),
                            sticker_index: s0.sticker_index.insert(g, gone.difference(v@.take(i as int).to_set())),
                            ..s0
                        }),
                    decreases v.len() - i,
                {
                    let id = v[i];
                    proof {
                        assert(v@.contains(id)) by {
                            assert(v@[i as int] == id);
                        }
                        assert(gone.contains(id));
                        assert(s0.sticker_index[g].contains(id));
                        assert(!v@.take(i as int).contains(id)) by {
                            if v@.take(i as int).contains(id) {
                                let j = choose|j: int| 0 <= j < i && v@.take(i as int)[j] == id;
                                assert(v@[j] == v@[i as int]);
                            }
                        }
                        assert(!v@.take(i as int).to_set().contains(id));
                    }
                    proof {
                        let taken = v@.take(i as int).to_set();
                        assert(sticker_parents(s0.stickers).contains_key(id));
                        assert(sticker_parents(s0.stickers)[id] == Some(g));
                        assert(self@.stickers.contains_key(id));
                        assert(parent_of(sticker_parents(self@.stickers), id) == Some(g));
                        assert(gone.difference(taken).remove(id) =~= gone.difference(taken.insert(id)));
                    }
                    self.remove_sticker_entry(id);
                    proof {
                        assert(v@.take(i + 1).to_set() =~= v@.take(i as int).to_set().insert(id)) by {
                            let t0 = v@.take(i as int);
                            let t1 = v@.take(i + 1);
                            assert(t1 =~= t0.push(id));
                            assert forall|x: u64| t1.contains(x) <==> t0.contains(x) || x == id by {
                                if t1.contains(x) {
                                    let j = choose|j: int| 0 <= j < t1.len() && t1[j] == x;
                                    if j < i {
                                        assert(t0[j] == x);
                                    }
                                }
                                if t0.contains(x) {
                                    let j = choose|j: int| 0 <= j < t0.len() && t0[j] == x;
                                    assert(t1[j] == x);
                                }
                                if x == id {
                                    assert(t1[i as int] == x);
                                }
                            }
                        }
                        assert(self@.stickers =~= s0.stickers.remove_keys(v@.take(i + 1).to_set()));
                        assert(self@.sticker_index =~= s0.sticker_index.insert(g, gone.difference(v@.take(i + 1).to_set())));
                    }
                    i += 1;
                }
                proof {
                    assert(v@.take(i as int) =~= v@);
                    assert(gone.difference(gone) =~= Set::empty());
                }
            },
        }
    }

    /// The id of the system's own member.
    pub fn bot_user_id(&self) -> (r: u64)
        ensures
            r == self@.bot_user_id,
    {
        self.bot_user_id
    }

    /// The scope with this id.
    pub fn guild(&self, id: u64) -> (r: Option<CacheGuild>)
        ensures
            r == map_get(self@.guilds, id),
    {
        guild_map_get(&self.guilds, id)
    }

    /// The ids of the channels listed under a scope, each once.
    pub fn guild_channels(&self, id: u64) -> (r: Option<Vec<u64>>)
        ensures
            r is None <==> !self@.channel_index.contains_key(id),
            r is Some ==> r->0@.to_set() == self@.channel_index[id] && r->0@.no_duplicates(),
    {
        index_get(&self.channel_index, id)
    }

    pub fn channel(&self, id: u64) -> (r: Option<CacheChannel>)
        ensures
            r == map_get(self@.channels, id),
    {
        channel_map_get(&self.channels, id)
    }

    /// The ids of the roles listed under a scope, each once.
    pub fn guild_roles(&self, id: u64) -> (r: Option<Vec<u64>>)
        ensures
            r is None <==> !self@.role_index.contains_key(id),
            r is Some ==> r->0@.to_set() == self@.role_index[id] && r->0@.no_duplicates(),
    {
        index_get(&self.role_index, id)
    }

    pub fn role(&self, id: u64) -> (r: Option<CacheRole>)
        ensures
            r == map_get(self@.roles, id),
    {
        role_map_get(&self.roles, id)
    }

    /// The system's own membership in a scope.
    pub fn bot_member(&self, id: u64) -> (r: Option<CacheBotMember>)
        ensures
            r == map_get(self@.bot_members, id),
    {
        member_map_get(&self.bot_members, id)
    }

    /// The ids of the emoji listed under a scope, each once.
    pub fn guild_emojis(&self, id: u64) -> (r: Option<Vec<u64>>)
        ensures
            r is None <==> !self@.emoji_index.contains_key(id),
            r is Some ==> r->0@.to_set() == self@.emoji_index[id] && r->0@.no_duplicates(),
    {
        index_get(&self.emoji_index, id)
    }

    pub fn emoji(&self, id: u64) -> (r: Option<CacheEmoji>)
        ensures
            r == map_get(self@.emojis, id),
    {
        emoji_map_get(&self.emojis, id)
    }

    /// The ids of the stickers listed under a scope, each once.
    pub fn guild_stickers(&self, id: u64) -> (r: Option<Vec<u64>>)
        ensures
            r is None <==> !self@.sticker_index.contains_key(id),
            r is Some ==> r->0@.to_set() == self@.sticker_index[id] && r->0@.no_duplicates(),
    {
        index_get(&self.sticker_index, id)
    }

    pub fn sticker(&self, id: u64) -> (r: Option<CacheSticker>)
        ensures
            r == map_get(self@.stickers, id),
    {
        sticker_map_get(&self.stickers, id)
    }
}

} // verus!
