use cim_web::model::conversation::{Conversation, Message, Role};

#[test]
fn role_labels_for_llama() {
    assert_eq!(Role::System.to_llama(), "### Assistant");
    assert_eq!(Role::User.to_llama(), "### User");
    assert_eq!(Role::Assistant.to_llama(), "### Assistant");
    assert_eq!(Role::Tool.to_llama(), "### Tool");
    assert_eq!(Role::Function.to_llama(), "### Function");
}

#[test]
fn role_default_is_user() {
    assert_eq!(Role::default(), Role::User);
}

#[test]
fn message_without_role_is_from_user() {
    let m = Message::new(None, "hello".to_string());
    assert_eq!(m.role, Role::User);
    assert_eq!(m.content, "hello");
    assert!(m.is_user());
}

#[test]
fn message_keeps_given_role() {
    let m = Message::new(Some(Role::Assistant), "hi there".to_string());
    assert_eq!(m.role, Role::Assistant);
    assert_eq!(m.content, "hi there");
    assert!(!m.is_user());
    let t = Message::new(Some(Role::Tool), String::new());
    assert_eq!(t.role, Role::Tool);
    assert!(!t.is_user());
}

#[test]
fn message_default_is_empty_user_message() {
    let m = Message::default();
    assert_eq!(m.role, Role::User);
    assert_eq!(m.content, "");
    assert!(m.is_user());
}

#[test]
fn message_equality_compares_role_and_content() {
    let a = Message::new(Some(Role::User), "x".to_string());
    let b = Message::new(None, "x".to_string());
    let c = Message::new(Some(Role::System), "x".to_string());
    let d = Message::new(None, "y".to_string());
    assert!(a == b);
    assert!(a != c);
    assert!(a != d);
}

#[test]
fn conversation_starts_empty() {
    let c = Conversation::new();
    assert!(c.messages.is_empty());
}
