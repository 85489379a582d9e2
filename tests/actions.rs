use embedg_core::actions::MessageAction;
use embedg_core::interactions::parse_component_actions;
use embedg_core::message::{Button, Component, SelectMenu, SelectMenuOption, TextInput};

fn saved(a: &MessageAction) -> Option<String> {
    match a {
        MessageAction::ResponseSavedMessage { message_id } => Some(message_id.clone()),
        _ => None,
    }
}

#[test]
fn saved_message_action() {
    let r = MessageAction::parse("my-button{0:abc123}");
    assert_eq!(r.len(), 1);
    assert_eq!(saved(&r[0]), Some("abc123".to_string()));
}

#[test]
fn role_toggle_action() {
    let r = MessageAction::parse("{1:123456789012345678}");
    assert!(matches!(r[0], MessageAction::RoleToggle { role_id: 123456789012345678 }));
    let big = MessageAction::parse("{1:99999999999999999999}");
    assert!(matches!(big[0], MessageAction::Unknown));
    let letters = MessageAction::parse("{1:12a}");
    assert!(matches!(letters[0], MessageAction::Unknown));
}

#[test]
fn unknown_kind() {
    let r = MessageAction::parse("x{7:abc}");
    assert_eq!(r.len(), 1);
    assert!(matches!(r[0], MessageAction::Unknown));
    let r = MessageAction::parse("{00:abc}");
    assert!(matches!(r[0], MessageAction::Unknown));
}

#[test]
fn plain_identifiers_carry_none() {
    assert!(MessageAction::parse("").is_empty());
    assert!(MessageAction::parse("plain").is_empty());
    assert!(MessageAction::parse("{0:abc} trailing").is_empty());
    assert!(MessageAction::parse("{:abc}").is_empty());
    assert!(MessageAction::parse("{0:}").is_empty());
    assert!(MessageAction::parse("{0:a-b}").is_empty());
    assert!(MessageAction::parse("{x0:ab}").is_empty());
}

#[test]
fn only_the_final_suffix_counts() {
    let r = MessageAction::parse("{0:first}{0:second}");
    assert_eq!(r.len(), 1);
    assert_eq!(saved(&r[0]), Some("second".to_string()));
}

#[test]
fn actions_of_components_in_order() {
    let components = vec![
        Component::ActionRow(vec![
            Component::Button(Button { custom_id: Some("b{0:one}".to_string()), label: None, url: None }),
            Component::Button(Button { custom_id: None, label: None, url: Some("https://x".to_string()) }),
            Component::SelectMenu(SelectMenu {
                custom_id: "menu".to_string(),
                options: vec![
                    SelectMenuOption { label: "a".to_string(), value: "{0:two}".to_string(), description: None },
                    SelectMenuOption { label: "b".to_string(), value: "{5:x}".to_string(), description: None },
                ],
                placeholder: None,
            }),
        ]),
        Component::TextInput(TextInput { custom_id: "{0:three}".to_string(), label: "l".to_string() }),
    ];
    let r = parse_component_actions(&components);
    assert_eq!(r.len(), 3);
    assert_eq!(saved(&r[0]), Some("one".to_string()));
    assert_eq!(saved(&r[1]), Some("two".to_string()));
    assert!(matches!(r[2], MessageAction::Unknown));
}
