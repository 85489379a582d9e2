use embedg_core::message::{
    components_integrity_hash, integrity_bytes, Button, Component, MessageHashIntegrity,
    MessagePayload, SelectMenu, SelectMenuOption, TextInput,
};

fn payload(content: &str, id: &str) -> MessagePayload {
    MessagePayload {
        username: None,
        avatar_url: None,
        content: Some(content.to_string()),
        components: vec![Component::ActionRow(vec![Component::Button(Button {
            custom_id: Some(id.to_string()),
            label: Some("Press".to_string()),
            url: None,
        })])],
        embeds: vec![],
    }
}

#[test]
fn fingerprint_is_sha256_hex_of_identifiers() {
    let p = payload("hello", "abc");
    assert_eq!(
        p.integrity_hash(),
        "ba7816bf8f01cfea414140de5dae2223b00361a396177a9cb410ff61f20015ad"
    );
}

#[test]
fn empty_components_hash_empty_input() {
    assert_eq!(
        components_integrity_hash(&vec![]),
        "e3b0c44298fc1c149afbf4c8996fb92427ae41e4649b934ca495991b7852b855"
    );
}

#[test]
fn content_edit_keeps_fingerprint() {
    assert_eq!(payload("hello", "abc").integrity_hash(), payload("bye", "abc").integrity_hash());
}

#[test]
fn identifier_edit_changes_fingerprint() {
    assert_ne!(payload("hello", "abc").integrity_hash(), payload("hello", "abd").integrity_hash());
    let mut more = payload("hello", "abc");
    more.components.push(Component::TextInput(TextInput { custom_id: "t".to_string(), label: "x".to_string() }));
    assert_ne!(payload("hello", "abc").integrity_hash(), more.integrity_hash());
}

#[test]
fn select_menu_options_are_covered() {
    let menu = Component::SelectMenu(SelectMenu {
        custom_id: "m".to_string(),
        options: vec![
            SelectMenuOption { label: "A".to_string(), value: "x".to_string(), description: None },
            SelectMenuOption { label: "B".to_string(), value: "y".to_string(), description: None },
        ],
        placeholder: None,
    });
    assert_eq!(integrity_bytes(&vec![menu]), b"mxy".to_vec());
}
