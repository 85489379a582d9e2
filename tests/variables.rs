use embedg_core::cache::DiscordCache;
use embedg_core::model::{CacheChannel, CacheGuild, ChannelKind, Event};
use embedg_core::template::MessageVariables;
use embedg_core::variables::{decimal_chars, interaction_variables, InteractionUser, ToMessageVariables};
use embedg_core::webhooks::WebhookCache;

fn user(avatar: Option<&str>) -> InteractionUser {
    InteractionUser { id: 55, name: "Ada".to_string(), discriminator: 1234, avatar: avatar.map(|a| a.to_string()) }
}

#[test]
fn decimal_digits() {
    assert_eq!(decimal_chars(0), vec!['0']);
    assert_eq!(decimal_chars(907), vec!['9', '0', '7']);
    assert_eq!(decimal_chars(u64::MAX).iter().collect::<String>(), u64::MAX.to_string());
}

#[test]
fn guild_and_channel_variables() {
    let mut v = MessageVariables::new();
    CacheGuild { id: 1, name: "G".to_string(), icon: Some("abc".to_string()), owner_id: 2 }.to_message_variables(&mut v);
    assert_eq!(v.get("server.id"), Some("1".to_string()));
    assert_eq!(v.get("server.name"), Some("G".to_string()));
    assert_eq!(v.get("server.icon_url"), Some("https://cdn.discordapp.com/icons/1/abc.png".to_string()));
    let c = CacheChannel {
        id: 10,
        guild_id: Some(1),
        name: None,
        kind: ChannelKind::GuildText,
        permission_overwrites: None,
        position: None,
        parent_id: None,
    };
    c.to_message_variables(&mut v);
    assert_eq!(v.get("channel.id"), Some("10".to_string()));
    assert_eq!(v.get("channel.name"), Some(String::new()));
}

#[test]
fn user_variables() {
    let mut v = MessageVariables::new();
    user(None).to_message_variables(&mut v);
    assert_eq!(v.get("user.tag"), Some("Ada#1234".to_string()));
    assert_eq!(v.get("user.avatar_url"), Some("https://cdn.discordapp.com/embed/avatars/4.png".to_string()));
    let mut w = MessageVariables::new();
    user(Some("h")).to_message_variables(&mut w);
    assert_eq!(w.get("user.avatar_url"), Some("https://cdn.discordapp.com/avatars/55/h.png".to_string()));
}

#[test]
fn interaction_variables_fall_back_to_ids() {
    let mut cache = DiscordCache::new(7);
    let mut v = MessageVariables::new();
    interaction_variables(&cache, Some(3), 30, &user(None), &mut v);
    assert_eq!(v.get("guild.id"), Some("3".to_string()));
    assert_eq!(v.get("channel.id"), Some("30".to_string()));
    assert_eq!(v.substitute_text("{{user.name}} in {{server.name|?}}"), "Ada in ?");
    let mut h = WebhookCache::new();
    cache.update(Event::GuildUpdate(CacheGuild { id: 3, name: "S".to_string(), icon: None, owner_id: 1 }), &mut h);
    let mut w = MessageVariables::new();
    interaction_variables(&cache, Some(3), 30, &user(None), &mut w);
    assert_eq!(w.get("server.name"), Some("S".to_string()));
}
