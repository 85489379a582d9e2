use embedg_core::message::{
    EmbedAuthor, EmbedField, EmbedFooter, MessagePayload, MessagePayloadEmbed,
    MessageVariablesReplace,
};
use embedg_core::template::MessageVariables;

fn vars() -> MessageVariables {
    let mut v = MessageVariables::new();
    v.insert("user.name", "Ada");
    v.insert("server.id", "1");
    v
}

#[test]
fn known_variable_is_replaced() {
    let v = vars();
    assert_eq!(v.substitute_text("Hi {{user.name}}!"), "Hi Ada!");
}

#[test]
fn default_is_used_for_unknown_variable() {
    let v = vars();
    assert_eq!(v.substitute_text("{{user.nick|friend}} {{user.name|x}}"), "friend Ada");
    assert_eq!(v.substitute_text("[{{user.nick|}}]"), "[]");
}

#[test]
fn unknown_token_stays_verbatim() {
    let v = vars();
    let text = "{{user.nick}} and {{Bad}} and {{a|b|c}} and {{x";
    assert_eq!(v.substitute_text(text), text);
    assert_eq!(v.substitute_text(&v.substitute_text(text)), v.substitute_text(text));
}

#[test]
fn later_binding_wins() {
    let mut v = vars();
    v.insert("user.name", "Bob");
    assert_eq!(v.substitute_text("{{user.name}}"), "Bob");
    assert_eq!(v.get("user.name"), Some("Bob".to_string()));
    assert_eq!(v.get("user.id"), None);
}

#[test]
fn substituted_value_is_not_substituted_again() {
    let mut v = MessageVariables::new();
    v.insert("a", "{{b}}");
    v.insert("b", "x");
    assert_eq!(v.substitute_text("{{a}}"), "{{b}}");
    assert_eq!(v.substitute_text("{{{a}}}"), "{{{b}}}");
}

#[test]
fn empty_text_and_adjacent_tokens() {
    let v = vars();
    assert_eq!(v.substitute_text(""), "");
    assert_eq!(v.substitute_text("{{server.id}}{{user.name}}"), "1Ada");
}

#[test]
fn string_replace_variables() {
    let v = vars();
    let mut s = "Hello {{user.name}}".to_string();
    s.replace_variables(&v);
    assert_eq!(s, "Hello Ada");
}

#[test]
fn payload_text_fields_are_replaced() {
    let v = vars();
    let mut p = MessagePayload {
        username: Some("{{user.name}}".to_string()),
        avatar_url: None,
        content: Some("c {{user.name}}".to_string()),
        components: vec![],
        embeds: vec![MessagePayloadEmbed {
            author: Some(EmbedAuthor { name: "a {{user.name}}".to_string(), url: None, icon_url: None }),
            color: Some(5),
            description: Some("d {{server.id}}".to_string()),
            fields: vec![EmbedField { name: "n {{user.name}}".to_string(), value: "v {{server.id}}".to_string(), inline: true }],
            footer: Some(EmbedFooter { text: "f {{user.name}}".to_string(), icon_url: None }),
            image_url: None,
            thumbnail_url: None,
            timestamp: None,
            title: Some("t {{user.name}}".to_string()),
            url: Some("{{user.name}}".to_string()),
        }],
    };
    p.replace_variables(&v);
    assert_eq!(p.username, Some("{{user.name}}".to_string()));
    assert_eq!(p.content, Some("c Ada".to_string()));
    let e = &p.embeds[0];
    assert_eq!(e.title, Some("t Ada".to_string()));
    assert_eq!(e.description, Some("d 1".to_string()));
    assert_eq!(e.author.as_ref().unwrap().name, "a Ada");
    assert_eq!(e.footer.as_ref().unwrap().text, "f Ada");
    assert_eq!(e.fields[0].name, "n Ada");
    assert_eq!(e.fields[0].value, "v 1");
    assert_eq!(e.url, Some("{{user.name}}".to_string()));
    assert_eq!(e.color, Some(5));
}
