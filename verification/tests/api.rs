use cim_web::api::{
    inference_prompt, route_frame, session_prompt, user_turn, ClientFrame, Feedback, FrameAction,
    InferenceEvent, StopSequenceFilter, MAX_INFERRED_TOKENS,
};
use cim_web::model::conversation::{Message, Role};

fn token(s: &str) -> InferenceEvent {
    InferenceEvent::InferredToken(s.to_string())
}

#[test]
fn session_prompt_splits_persona_and_history() {
    let messages = vec![
        Message::new(Some(Role::System), "You are helpful.".to_string()),
        Message::new(Some(Role::User), "Hi".to_string()),
        Message::new(Some(Role::Assistant), " Be brief.".to_string()),
        Message::new(Some(Role::Tool), "42".to_string()),
    ];
    assert_eq!(
        session_prompt(&messages),
        "You are helpful. Be brief.\n### User: Hi\n### Tool: 42\n"
    );
}

#[test]
fn session_prompt_of_no_messages_is_a_line_break() {
    assert_eq!(session_prompt(&Vec::new()), "\n");
}

#[test]
fn inference_prompt_asks_for_the_assistant() {
    let m = Message::new(None, "What is Rust?".to_string());
    assert_eq!(inference_prompt(&m), "### User\nWhat is Rust?\n### Assistant:");
    let f = Message::new(Some(Role::Function), "call".to_string());
    assert_eq!(inference_prompt(&f), "### Function\ncall\n### Assistant:");
}

#[test]
fn token_limit() {
    assert_eq!(MAX_INFERRED_TOKENS, 256);
}

#[test]
fn ordinary_tokens_are_sent_on() {
    let mut f = StopSequenceFilter::for_role(Role::User);
    let s = f.step(token("Hello"));
    assert_eq!(s.feedback, Feedback::Continue);
    assert_eq!(s.send, Some("Hello".to_string()));
    let s = f.step(token(" world"));
    assert_eq!(s.feedback, Feedback::Continue);
    assert_eq!(s.send, Some(" world".to_string()));
}

#[test]
fn stop_sequence_in_one_token_halts_unsent() {
    let mut f = StopSequenceFilter::for_role(Role::User);
    let s = f.step(token("### User"));
    assert_eq!(s.feedback, Feedback::Halt);
    assert_eq!(s.send, None);
}

#[test]
fn stop_sequence_in_pieces_halts_unsent() {
    let mut f = StopSequenceFilter::new("### User".to_string());
    let s = f.step(token("###"));
    assert_eq!((s.feedback, s.send), (Feedback::Continue, None));
    let s = f.step(token(" Us"));
    assert_eq!((s.feedback, s.send), (Feedback::Continue, None));
    let s = f.step(token("er"));
    assert_eq!((s.feedback, s.send), (Feedback::Halt, None));
    // after a halt nothing is held back
    let s = f.step(token("ok"));
    assert_eq!((s.feedback, s.send), (Feedback::Continue, Some("ok".to_string())));
}

#[test]
fn held_back_text_is_sent_with_the_token_that_breaks_it() {
    let mut f = StopSequenceFilter::new("### User".to_string());
    let s = f.step(token("###"));
    assert_eq!((s.feedback, s.send), (Feedback::Continue, None));
    let s = f.step(token(" Hi"));
    assert_eq!((s.feedback, s.send), (Feedback::Continue, Some("### Hi".to_string())));
    // the held-back text is kept after it was sent
    let s = f.step(token("!"));
    assert_eq!((s.feedback, s.send), (Feedback::Continue, Some("###!".to_string())));
}

#[test]
fn end_of_text_halts_and_other_events_go_on() {
    let mut f = StopSequenceFilter::for_role(Role::User);
    let s = f.step(InferenceEvent::Other);
    assert_eq!((s.feedback, s.send), (Feedback::Continue, None));
    let s = f.step(InferenceEvent::EndOfText);
    assert_eq!((s.feedback, s.send), (Feedback::Halt, None));
}

#[test]
fn system_reply_stops_at_assistant_label() {
    let mut f = StopSequenceFilter::for_role(Role::System);
    let s = f.step(token("### Assistant"));
    assert_eq!((s.feedback, s.send), (Feedback::Halt, None));
}

#[test]
fn frames_are_routed() {
    match route_frame(ClientFrame::Ping(vec![1, 2, 3])) {
        FrameAction::Pong(b) => assert_eq!(b, vec![1, 2, 3]),
        _ => panic!("a ping is answered with a pong"),
    }
    match route_frame(ClientFrame::Text("hi".to_string())) {
        FrameAction::Forward(t) => assert_eq!(t, "hi"),
        _ => panic!("a text is forwarded"),
    }
    assert!(matches!(route_frame(ClientFrame::Other), FrameAction::Close));
}

#[test]
fn user_turns() {
    assert!(user_turn(String::new()).is_none());
    let m = user_turn("tell me a joke".to_string()).unwrap();
    assert_eq!(m.role, Role::User);
    assert_eq!(m.content, "tell me a joke");
}
