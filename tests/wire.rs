use embedg_core::config::{
    default_host, default_max_messages_per_user, default_max_messages_size, default_mongo_url,
    default_port, default_redis_url, default_shard_count, default_source_link, LimitConfig,
    LinkConfig,
};
use embedg_core::permissions::MANAGE_MESSAGES;
use embedg_core::wire::{
    check_message_quota, guild_ids_with_access,
    ErrorResponseWrapper, MessageCreateRequestWire, MessageSendAttachmentWire,
    MessageUpdateRequestWire, NormalizeValidate, RouteError, SharedMessageModel, SharedMessageWire,
};

fn field_of(r: Result<(), RouteError>) -> Option<String> {
    match r {
        Err(RouteError::ValidationError { field, .. }) => Some(field),
        Err(_) => Some("other".to_string()),
        Ok(()) => None,
    }
}

fn create(name: &str, description: Option<&str>, payload: &str) -> MessageCreateRequestWire {
    MessageCreateRequestWire {
        name: name.to_string(),
        description: description.map(|d| d.to_string()),
        payload_json: payload.to_string(),
    }
}

#[test]
fn create_request_validation() {
    let limits = LimitConfig::default();
    assert_eq!(field_of(create("abc", None, "{}").validate(&limits)), None);
    assert_eq!(field_of(create("ab", None, "{}").validate(&limits)), Some("name".to_string()));
    assert_eq!(field_of(create(&"x".repeat(26), None, "{}").validate(&limits)), Some("name".to_string()));
    assert_eq!(field_of(create(&"x".repeat(25), None, "{}").validate(&limits)), None);
    assert_eq!(
        field_of(create("abc", Some(&"d".repeat(101)), "{}").validate(&limits)),
        Some("description".to_string())
    );
    let small = LimitConfig { max_messages_per_user: 1, max_message_size: 3 };
    assert_eq!(field_of(create("abc", None, "{}").validate(&small)), None);
    assert_eq!(field_of(create("abc", None, "{\"\"}").validate(&small)), Some("data".to_string()));
}

#[test]
fn name_length_counts_bytes() {
    let limits = LimitConfig::default();
    assert_eq!(field_of(create("ää", None, "{}").validate(&limits)), None);
    assert_eq!(field_of(create("ä", None, "{}").validate(&limits)), Some("name".to_string()));
}

#[test]
fn normalize_trims_then_validates() {
    let limits = LimitConfig::default();
    let n = create("  hello  ", Some(" d "), "{}").normalize_and_validate(&limits).ok().unwrap();
    assert_eq!(n.name, "hello");
    assert_eq!(n.description, Some("d".to_string()));
    assert!(create("  ab   ", None, "{}").normalize_and_validate(&limits).is_err());
    let u = MessageUpdateRequestWire {
        name: "\tname\n".to_string(),
        description: None,
        payload_json: "{}".to_string(),
    };
    let u = u.normalize();
    assert_eq!(u.name, "name");
    assert_eq!(field_of(u.validate(&limits)), None);
}

#[test]
fn error_status_codes() {
    assert_eq!(RouteError::NotFound { entity: "x".to_string() }.status_code(), 404);
    assert_eq!(RouteError::DatabaseError.status_code(), 500);
    assert_eq!(RouteError::InvalidToken.status_code(), 401);
    assert_eq!(RouteError::MissingGuildAccess.status_code(), 403);
    assert_eq!(RouteError::ChannelWebhookLimitReached.status_code(), 400);
    assert_eq!(RouteError::MessageLimitReached.status_code(), 403);
    assert_eq!(RouteError::GuildChannelMismatch.code(), "guild_channel_mismatch");
    let w = ErrorResponseWrapper::from_error(RouteError::InvalidToken);
    assert_eq!(w.details, Some("No or invalid token provided".to_string()));
}

#[test]
fn attachment_names_are_sanitized() {
    let a = MessageSendAttachmentWire {
        name: "my file/..\\ä-1_.png".to_string(),
        description: None,
        data_url: String::new(),
    };
    assert_eq!(a.sanitized_filename(), "myfile..-1_.png");
}

#[test]
fn defaults() {
    assert_eq!(default_shard_count(), 1);
    assert_eq!(default_max_messages_per_user(), 25);
    assert_eq!(default_max_messages_size(), 1_000_000);
    assert_eq!(default_port(), 8080);
    assert_eq!(default_host(), "127.0.0.1");
    assert_eq!(default_mongo_url(), "mongodb://127.0.0.1");
    assert_eq!(default_redis_url(), "redis://127.0.0.1");
    assert_eq!(default_source_link(), "https://github.com/merlinfuchs/embed-generator");
    let l = LinkConfig::new("inv".to_string());
    assert_eq!(l.source, default_source_link());
    let s = SharedMessageWire::from_model(SharedMessageModel { id: "i".to_string(), payload_json: "{}".to_string() });
    assert_eq!(s.id, "i");
}

#[test]
fn message_quota() {
    let limits = LimitConfig { max_messages_per_user: 2, max_message_size: 10 };
    assert!(check_message_quota(1, &limits).is_ok());
    assert!(matches!(check_message_quota(2, &limits), Err(RouteError::MessageLimitReached)));
}

#[test]
fn guilds_with_manage_messages() {
    let gs = vec![(1, MANAGE_MESSAGES), (2, 0), (3, MANAGE_MESSAGES | 1)];
    assert_eq!(guild_ids_with_access(&gs), vec![1, 3]);
}
