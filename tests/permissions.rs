use embedg_core::cache::DiscordCache;
use embedg_core::model::{
    CacheChannel, CacheGuild, CacheRole, ChannelKind, Event, GuildMember, OverwriteKind,
    PermissionOverwrite,
};
use embedg_core::permissions::{
    apply_overwrites, get_bot_permissions_for_channel, get_member_permissions_for_channel,
    ALL_PERMISSIONS, MANAGE_WEBHOOKS, SEND_MESSAGES, VIEW_CHANNEL,
};
use embedg_core::webhooks::WebhookCache;

fn setup(overwrites: Option<Vec<PermissionOverwrite>>) -> DiscordCache {
    let mut cache = DiscordCache::new(77);
    let mut hooks = WebhookCache::new();
    cache.update(
        Event::GuildUpdate(CacheGuild { id: 1, name: "g".to_string(), icon: None, owner_id: 9 }),
        &mut hooks,
    );
    cache.update(
        Event::ChannelUpsert(CacheChannel {
            id: 10,
            guild_id: Some(1),
            name: None,
            kind: ChannelKind::GuildText,
            permission_overwrites: overwrites,
            position: None,
            parent_id: None,
        }),
        &mut hooks,
    );
    cache.update(
        Event::RoleUpsert(CacheRole {
            id: 1,
            guild_id: 1,
            name: "@everyone".to_string(),
            managed: false,
            permissions: SEND_MESSAGES,
            position: 0,
        }),
        &mut hooks,
    );
    cache
}

fn ow(id: u64, kind: OverwriteKind, allow: u64, deny: u64) -> PermissionOverwrite {
    PermissionOverwrite { id, kind, allow, deny }
}

#[test]
fn end_to_end_owner_and_member() {
    let cache = setup(None);
    assert_eq!(get_member_permissions_for_channel(&cache, 9, &vec![], 1, 10), ALL_PERMISSIONS);
    assert_eq!(get_member_permissions_for_channel(&cache, 5, &vec![1], 1, 10), SEND_MESSAGES);
}

#[test]
fn absent_scope_or_channel_gives_nothing() {
    let cache = setup(None);
    assert_eq!(get_member_permissions_for_channel(&cache, 9, &vec![], 2, 10), 0);
    assert_eq!(get_member_permissions_for_channel(&cache, 9, &vec![], 1, 11), 0);
}

#[test]
fn role_allow_beats_everyone_deny() {
    let cache = setup(Some(vec![
        ow(1, OverwriteKind::Role, 0, MANAGE_WEBHOOKS),
        ow(3, OverwriteKind::Role, MANAGE_WEBHOOKS, 0),
    ]));
    let p = get_member_permissions_for_channel(&cache, 5, &vec![3], 1, 10);
    assert_eq!(p & MANAGE_WEBHOOKS, MANAGE_WEBHOOKS);
}

#[test]
fn member_deny_beats_role_allow() {
    let cache = setup(Some(vec![
        ow(1, OverwriteKind::Role, 0, MANAGE_WEBHOOKS),
        ow(3, OverwriteKind::Role, MANAGE_WEBHOOKS, 0),
        ow(5, OverwriteKind::Member, 0, MANAGE_WEBHOOKS),
    ]));
    let p = get_member_permissions_for_channel(&cache, 5, &vec![3], 1, 10);
    assert_eq!(p & MANAGE_WEBHOOKS, 0);
    assert_eq!(get_member_permissions_for_channel(&cache, 9, &vec![3], 1, 10), ALL_PERMISSIONS);
}

#[test]
fn role_allow_and_deny_of_same_bit() {
    let ows = vec![
        ow(3, OverwriteKind::Role, 0, VIEW_CHANNEL),
        ow(4, OverwriteKind::Role, VIEW_CHANNEL, 0),
    ];
    assert_eq!(apply_overwrites(0, &ows, 1, 5, &vec![3, 4]), VIEW_CHANNEL);
    assert_eq!(apply_overwrites(VIEW_CHANNEL, &ows, 1, 5, &vec![3]), 0);
}

#[test]
fn unassigned_role_overwrite_is_skipped() {
    let ows = vec![ow(3, OverwriteKind::Role, VIEW_CHANNEL, 0)];
    assert_eq!(apply_overwrites(SEND_MESSAGES, &ows, 1, 5, &vec![4]), SEND_MESSAGES);
}

#[test]
fn everyone_overwrite_applies_to_all() {
    let ows = vec![ow(1, OverwriteKind::Role, VIEW_CHANNEL, SEND_MESSAGES)];
    assert_eq!(apply_overwrites(SEND_MESSAGES, &ows, 1, 5, &vec![]), VIEW_CHANNEL);
}

#[test]
fn bot_permissions_need_membership() {
    let mut cache = setup(None);
    assert_eq!(get_bot_permissions_for_channel(&cache, 1, 10), None);
    let mut hooks = WebhookCache::new();
    cache.update(
        Event::MemberUpsert { guild_id: 1, member: GuildMember { user_id: 77, roles: vec![] } },
        &mut hooks,
    );
    assert_eq!(get_bot_permissions_for_channel(&cache, 1, 10), Some(SEND_MESSAGES));
}
