use embedg_core::cache::DiscordCache;
use embedg_core::model::{
    CacheBotMember, CacheChannel, CacheEmoji, CacheGuild, CacheRole, CacheSticker, ChannelKind,
    Event, GuildMember, GuildSnapshot,
};
use embedg_core::webhooks::{CachedWebhook, WebhookCache};

fn guild(id: u64, owner: u64) -> CacheGuild {
    CacheGuild { id, name: format!("guild {}", id), icon: None, owner_id: owner }
}

fn channel(id: u64, guild_id: Option<u64>) -> CacheChannel {
    CacheChannel {
        id,
        guild_id,
        name: Some(format!("channel-{}", id)),
        kind: ChannelKind::GuildText,
        permission_overwrites: None,
        position: Some(0),
        parent_id: None,
    }
}

fn role(id: u64, guild_id: u64, permissions: u64, position: i64) -> CacheRole {
    CacheRole { id, guild_id, name: format!("role {}", id), managed: false, permissions, position }
}

fn emoji(id: u64) -> CacheEmoji {
    CacheEmoji { id, guild_id: 0, animated: false, available: true, managed: false, name: format!("e{}", id) }
}

fn sticker(id: u64) -> CacheSticker {
    CacheSticker { id, guild_id: 0, name: format!("s{}", id) }
}

fn sorted(mut v: Vec<u64>) -> Vec<u64> {
    v.sort();
    v
}

fn snapshot() -> GuildSnapshot {
    GuildSnapshot {
        guild: guild(1, 9),
        channels: vec![channel(10, None), channel(11, None)],
        roles: vec![role(1, 0, 0, 0), role(2, 0, 8, 3)],
        emojis: vec![emoji(100), emoji(101)],
        stickers: vec![sticker(200)],
        members: vec![
            GuildMember { user_id: 5, roles: vec![2] },
            GuildMember { user_id: 42, roles: vec![1, 2] },
        ],
    }
}

#[test]
fn guild_create_fills_entities_and_indices() {
    let mut cache = DiscordCache::new(42);
    let mut hooks = WebhookCache::new();
    cache.update(Event::GuildCreate(snapshot()), &mut hooks);
    assert_eq!(cache.guild(1).unwrap().owner_id, 9);
    assert_eq!(sorted(cache.guild_channels(1).unwrap()), vec![10, 11]);
    assert_eq!(cache.channel(10).unwrap().guild_id, Some(1));
    assert_eq!(sorted(cache.guild_roles(1).unwrap()), vec![1, 2]);
    assert_eq!(cache.role(2).unwrap().guild_id, 1);
    assert_eq!(sorted(cache.guild_emojis(1).unwrap()), vec![100, 101]);
    assert_eq!(cache.emoji(101).unwrap().guild_id, 1);
    assert_eq!(sorted(cache.guild_stickers(1).unwrap()), vec![200]);
    assert_eq!(cache.sticker(200).unwrap().name, "s200");
    let member: CacheBotMember = cache.bot_member(1).unwrap();
    assert_eq!(member.roles, vec![1, 2]);
}

#[test]
fn only_own_membership_is_kept() {
    let mut cache = DiscordCache::new(42);
    let mut hooks = WebhookCache::new();
    cache.update(
        Event::MemberUpsert { guild_id: 1, member: GuildMember { user_id: 5, roles: vec![3] } },
        &mut hooks,
    );
    assert!(cache.bot_member(1).is_none());
    cache.update(
        Event::MemberUpsert { guild_id: 1, member: GuildMember { user_id: 42, roles: vec![3] } },
        &mut hooks,
    );
    assert_eq!(cache.bot_member(1).unwrap().roles, vec![3]);
    cache.update(Event::MemberRemove { guild_id: 1, user_id: 5 }, &mut hooks);
    assert!(cache.bot_member(1).is_some());
    cache.update(Event::MemberRemove { guild_id: 1, user_id: 42 }, &mut hooks);
    assert!(cache.bot_member(1).is_none());
}

#[test]
fn channel_before_scope_creates_index() {
    let mut cache = DiscordCache::new(42);
    let mut hooks = WebhookCache::new();
    cache.update(Event::ChannelUpsert(channel(10, Some(7))), &mut hooks);
    assert!(cache.guild(7).is_none());
    assert_eq!(cache.guild_channels(7).unwrap(), vec![10]);
}

#[test]
fn channel_moving_scope_leaves_old_index() {
    let mut cache = DiscordCache::new(42);
    let mut hooks = WebhookCache::new();
    cache.update(Event::ChannelUpsert(channel(10, Some(1))), &mut hooks);
    cache.update(Event::ChannelUpsert(channel(10, Some(2))), &mut hooks);
    assert_eq!(cache.guild_channels(1).unwrap(), Vec::<u64>::new());
    assert_eq!(cache.guild_channels(2).unwrap(), vec![10]);
}

#[test]
fn channel_and_thread_delete_detach() {
    let mut cache = DiscordCache::new(42);
    let mut hooks = WebhookCache::new();
    cache.update(Event::ChannelUpsert(channel(10, Some(1))), &mut hooks);
    let mut thread = channel(12, Some(1));
    thread.kind = ChannelKind::GuildPublicThread;
    thread.parent_id = Some(10);
    cache.update(Event::ThreadListSync { guild_id: 1, threads: vec![thread] }, &mut hooks);
    assert_eq!(sorted(cache.guild_channels(1).unwrap()), vec![10, 12]);
    cache.update(Event::ChannelDelete { id: 12 }, &mut hooks);
    assert!(cache.channel(12).is_none());
    assert_eq!(cache.guild_channels(1).unwrap(), vec![10]);
}

#[test]
fn role_upsert_and_delete() {
    let mut cache = DiscordCache::new(42);
    let mut hooks = WebhookCache::new();
    cache.update(Event::RoleUpsert(role(5, 1, 4, 1)), &mut hooks);
    assert_eq!(cache.role(5).unwrap().permissions, 4);
    cache.update(Event::RoleUpsert(role(5, 1, 6, 1)), &mut hooks);
    assert_eq!(cache.role(5).unwrap().permissions, 6);
    assert_eq!(cache.guild_roles(1).unwrap(), vec![5]);
    cache.update(Event::RoleDelete { guild_id: 1, role_id: 5 }, &mut hooks);
    assert!(cache.role(5).is_none());
    assert_eq!(cache.guild_roles(1).unwrap(), Vec::<u64>::new());
}

#[test]
fn emoji_replace_drops_stale_rows() {
    let mut cache = DiscordCache::new(42);
    let mut hooks = WebhookCache::new();
    cache.update(Event::GuildCreate(snapshot()), &mut hooks);
    cache.update(Event::EmojisReplace { guild_id: 1, emojis: vec![emoji(101), emoji(102)] }, &mut hooks);
    assert!(cache.emoji(100).is_none());
    assert!(cache.emoji(102).is_some());
    assert_eq!(sorted(cache.guild_emojis(1).unwrap()), vec![101, 102]);
    cache.update(Event::StickersReplace { guild_id: 1, stickers: vec![] }, &mut hooks);
    assert!(cache.sticker(200).is_none());
    assert_eq!(cache.guild_stickers(1).unwrap(), Vec::<u64>::new());
}

#[test]
fn scope_delete_cascades() {
    let mut cache = DiscordCache::new(42);
    let mut hooks = WebhookCache::new();
    cache.update(Event::GuildCreate(snapshot()), &mut hooks);
    hooks.insert_fetched_webhooks(10, vec![CachedWebhook { id: 3, application_id: None, token: None }]);
    hooks.insert_fetched_webhooks(99, vec![]);
    cache.update(Event::GuildDelete { id: 1, unavailable: false }, &mut hooks);
    assert!(cache.guild(1).is_none());
    assert!(cache.channel(10).is_none());
    assert!(cache.channel(11).is_none());
    assert!(cache.role(1).is_none());
    assert!(cache.role(2).is_none());
    assert!(cache.emoji(100).is_none());
    assert!(cache.sticker(200).is_none());
    assert!(cache.bot_member(1).is_none());
    assert!(cache.guild_channels(1).is_none());
    assert!(cache.guild_roles(1).is_none());
    assert!(cache.guild_emojis(1).is_none());
    assert!(cache.guild_stickers(1).is_none());
    assert!(hooks.cached_webhooks_for_channel(10).is_none());
    assert!(hooks.cached_webhooks_for_channel(99).is_some());
}

#[test]
fn unavailable_scope_delete_changes_nothing() {
    let mut cache = DiscordCache::new(42);
    let mut hooks = WebhookCache::new();
    cache.update(Event::GuildCreate(snapshot()), &mut hooks);
    hooks.insert_fetched_webhooks(10, vec![]);
    cache.update(Event::GuildDelete { id: 1, unavailable: true }, &mut hooks);
    assert!(cache.guild(1).is_some());
    assert!(cache.channel(10).is_some());
    assert!(cache.role(2).is_some());
    assert_eq!(sorted(cache.guild_channels(1).unwrap()), vec![10, 11]);
    assert!(cache.bot_member(1).is_some());
    assert!(hooks.cached_webhooks_for_channel(10).is_some());
}

#[test]
fn webhook_signal_evicts_entry() {
    let mut cache = DiscordCache::new(42);
    let mut hooks = WebhookCache::new();
    hooks.insert_fetched_webhooks(10, vec![]);
    cache.update(Event::WebhooksUpdate { channel_id: 10 }, &mut hooks);
    assert!(hooks.cached_webhooks_for_channel(10).is_none());
}

#[test]
fn unknown_event_is_ignored() {
    let mut cache = DiscordCache::new(42);
    let mut hooks = WebhookCache::new();
    cache.update(Event::Other, &mut hooks);
    assert!(cache.guild(1).is_none());
    cache.update(Event::GuildUpdate(guild(1, 3)), &mut hooks);
    assert_eq!(cache.guild(1).unwrap().owner_id, 3);
}
