use prime_chess::session::{session_step, FrameEvent, SessionAction};

#[test]
fn text_frame_is_echoed_with_prefix() {
    let action = session_step(FrameEvent::Text("hello".to_string()));
    assert_eq!(action, SessionAction::Reply("You said: hello".to_string()));
    match session_step(FrameEvent::Text("hello".to_string())) {
        SessionAction::Reply(r) => assert!(r.contains("hello")),
        other => panic!("expected a reply, got {:?}", other),
    }
}

#[test]
fn empty_text_frame_is_echoed() {
    let action = session_step(FrameEvent::Text(String::new()));
    assert_eq!(action, SessionAction::Reply("You said: ".to_string()));
}

#[test]
fn close_frame_terminates() {
    assert_eq!(session_step(FrameEvent::Close), SessionAction::Terminate);
}

#[test]
fn binary_and_control_frames_are_ignored() {
    assert_eq!(
        session_step(FrameEvent::Binary(vec![1, 2, 3])),
        SessionAction::Ignore
    );
    assert_eq!(session_step(FrameEvent::Ping(Vec::new())), SessionAction::Ignore);
    assert_eq!(session_step(FrameEvent::Pong(Vec::new())), SessionAction::Ignore);
}
