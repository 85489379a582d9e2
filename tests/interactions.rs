use embedg_core::actions::MessageAction;
use embedg_core::cache::DiscordCache;
use embedg_core::interactions::{
    authorize_send, check_message_actions, component_response, highest_role_position,
    interaction_is_trusted, role_toggle_removes, send_target, ComponentKind, SendGrant,
};
use embedg_core::model::{
    CacheChannel, CacheGuild, CacheRole, ChannelKind, Event, OverwriteKind, PermissionOverwrite,
};
use embedg_core::permissions::{ALL_PERMISSIONS, MANAGE_ROLES, MANAGE_WEBHOOKS};
use embedg_core::webhooks::WebhookCache;
use embedg_core::wire::RouteError;

fn chan(id: u64, guild: u64, kind: ChannelKind, parent: Option<u64>) -> CacheChannel {
    CacheChannel {
        id,
        guild_id: Some(guild),
        name: None,
        kind,
        permission_overwrites: Some(vec![PermissionOverwrite {
            id: 4,
            kind: OverwriteKind::Role,
            allow: MANAGE_WEBHOOKS,
            deny: 0,
        }]),
        position: None,
        parent_id: parent,
    }
}

fn role(id: u64, guild: u64, position: i64) -> CacheRole {
    CacheRole { id, guild_id: guild, name: String::new(), managed: false, permissions: MANAGE_ROLES, position }
}

fn cache() -> DiscordCache {
    let mut c = DiscordCache::new(77);
    let mut h = WebhookCache::new();
    c.update(Event::GuildUpdate(CacheGuild { id: 1, name: "g".to_string(), icon: None, owner_id: 9 }), &mut h);
    c.update(Event::ChannelUpsert(chan(10, 1, ChannelKind::GuildText, None)), &mut h);
    c.update(Event::ChannelUpsert(chan(11, 1, ChannelKind::GuildPublicThread, Some(10))), &mut h);
    c.update(Event::ChannelUpsert(chan(12, 1, ChannelKind::Other, None)), &mut h);
    c.update(Event::ChannelUpsert(chan(20, 2, ChannelKind::GuildText, None)), &mut h);
    c.update(Event::RoleUpsert(role(4, 1, 5)), &mut h);
    c.update(Event::RoleUpsert(role(6, 1, 8)), &mut h);
    c.update(Event::RoleUpsert(role(7, 2, 1)), &mut h);
    c
}

#[test]
fn send_targets() {
    assert_eq!(send_target(&chan(10, 1, ChannelKind::GuildNews, None)).ok(), Some((10, None)));
    assert_eq!(send_target(&chan(11, 1, ChannelKind::GuildPrivateThread, Some(10))).ok(), Some((10, Some(11))));
    assert!(matches!(send_target(&chan(11, 1, ChannelKind::GuildNewsThread, None)), Err(RouteError::UnsupportedChannelType)));
    assert!(matches!(send_target(&chan(12, 1, ChannelKind::Other, None)), Err(RouteError::UnsupportedChannelType)));
}

#[test]
fn authorize_send_checks() {
    let c = cache();
    let g = authorize_send(&c, 5, &vec![4], 1, 11).ok().unwrap();
    assert_eq!((g.channel_id, g.thread_id, g.is_owner, g.highest_role), (10, Some(11), false, 5));
    assert!(matches!(authorize_send(&c, 5, &vec![], 1, 10), Err(RouteError::MissingChannelAccess)));
    assert!(matches!(authorize_send(&c, 5, &vec![4], 1, 20), Err(RouteError::GuildChannelMismatch)));
    assert!(matches!(authorize_send(&c, 5, &vec![4], 1, 99), Err(RouteError::NotFound { .. })));
    assert!(matches!(authorize_send(&c, 5, &vec![4], 1, 12), Err(RouteError::UnsupportedChannelType)));
    let owner = authorize_send(&c, 9, &vec![], 1, 10).ok().unwrap();
    assert_eq!((owner.permissions, owner.is_owner, owner.highest_role), (ALL_PERMISSIONS, true, 0));
    assert_eq!(highest_role_position(&c, &vec![4, 6, 99]), 8);
}

fn grant(is_owner: bool, permissions: u64, highest_role: i64) -> SendGrant {
    SendGrant { channel_id: 10, thread_id: None, permissions, is_owner, highest_role }
}

#[test]
fn action_checks() {
    let c = cache();
    let acts = vec![
        MessageAction::ResponseSavedMessage { message_id: "a".to_string() },
        MessageAction::RoleToggle { role_id: 4 },
        MessageAction::ResponseSavedMessage { message_id: "b".to_string() },
    ];
    let ids = check_message_actions(&c, 1, &grant(false, MANAGE_ROLES, 5), &acts).ok().unwrap();
    assert_eq!(ids, vec!["a".to_string(), "b".to_string()]);
    assert!(matches!(
        check_message_actions(&c, 1, &grant(false, 0, 5), &acts),
        Err(RouteError::MissingChannelAccess)
    ));
    let high = vec![MessageAction::RoleToggle { role_id: 6 }];
    assert!(matches!(
        check_message_actions(&c, 1, &grant(false, MANAGE_ROLES, 5), &high),
        Err(RouteError::InvalidMessageAction { .. })
    ));
    assert!(check_message_actions(&c, 1, &grant(true, 0, 0), &high).is_ok());
    let other = vec![MessageAction::RoleToggle { role_id: 7 }];
    assert!(matches!(
        check_message_actions(&c, 1, &grant(false, MANAGE_ROLES, 9), &other),
        Err(RouteError::InvalidMessageAction { .. })
    ));
    let missing = vec![MessageAction::RoleToggle { role_id: 8 }];
    assert!(check_message_actions(&c, 1, &grant(false, MANAGE_ROLES, 9), &missing).is_err());
    let unknown = vec![MessageAction::Unknown];
    assert!(matches!(
        check_message_actions(&c, 1, &grant(true, 0, 0), &unknown),
        Err(RouteError::NotFound { .. })
    ));
}

#[test]
fn trust_of_interactions() {
    assert!(interaction_is_trusted(100, 200, false, false));
    assert!(interaction_is_trusted(200, 200, false, false));
    assert!(!interaction_is_trusted(300, 200, false, false));
    assert!(interaction_is_trusted(300, 200, true, false));
    assert!(interaction_is_trusted(300, 200, false, true));
}

#[test]
fn component_responses() {
    let id = "btn".to_string();
    assert_eq!(component_response(ComponentKind::Button, &id, &vec![]), Some("btn".to_string()));
    assert_eq!(
        component_response(ComponentKind::SelectMenu, &id, &vec!["v1".to_string(), "v2".to_string()]),
        Some("v1".to_string())
    );
    assert_eq!(component_response(ComponentKind::SelectMenu, &id, &vec![]), None);
    assert_eq!(component_response(ComponentKind::Other, &id, &vec![]), None);
}

#[test]
fn role_toggle_direction() {
    assert!(role_toggle_removes(&vec![3, 4], 4));
    assert!(!role_toggle_removes(&vec![3, 4], 5));
    assert!(!role_toggle_removes(&vec![], 5));
}
