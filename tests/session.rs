use chat_session::{
    Action, Credentials, Event, Phase, Role, Session, Turn, BANNER, DEFAULT_TURN_LIMIT,
    SYSTEM_PROMPT,
};

fn credentials() -> Credentials {
    match Credentials::from_values(Some("key".to_string()), Some("org".to_string())) {
        Ok(c) => c,
        Err(e) => panic!("{}", e.message()),
    }
}

fn chunk(text: &str) -> Event {
    Event::Chunk(vec![Some(text.to_string())])
}

/// Runs one full turn: the line, the stream events, the end and the display.
/// Returns the actions the session asked for, in order.
fn turn(session: &mut Session, line: &str, stream: Vec<Event>) -> Vec<Action> {
    let mut actions = vec![session.step(Event::Line(line.to_string()))];
    for e in stream {
        actions.push(session.step(e));
    }
    actions.push(session.step(Event::End));
    actions.push(session.step(Event::Shown));
    actions
}

#[test]
fn five_scripted_inputs_give_five_pairs_and_the_banner() {
    let mut session = Session::new(credentials(), DEFAULT_TURN_LIMIT);
    assert_eq!(session.opening(), Action::ReadLine);
    let mut last = Action::ReadLine;
    for i in 0..5 {
        let actions = turn(&mut session, &format!("prompt {}", i), vec![chunk("answer")]);
        last = actions.last().unwrap().clone();
    }
    assert_eq!(last, Action::Finish("Chat Completed".to_string()));
    assert_eq!(BANNER, "Chat Completed");
    assert_eq!(session.phase(), Phase::Finished);
    let turns = session.transcript().turns();
    assert_eq!(turns.len(), 11);
    assert_eq!(turns.iter().filter(|t| t.role() == Role::User).count(), 5);
    assert_eq!(turns.iter().filter(|t| t.role() == Role::Assistant).count(), 5);
    assert_eq!(turns.iter().filter(|t| t.role() == Role::System).count(), 1);
    assert_eq!(turns[0], Turn::System(SYSTEM_PROMPT.to_string()));
    for i in 0..5 {
        assert_eq!(turns[2 * i + 1], Turn::User(format!("prompt {}", i)));
        assert_eq!(turns[2 * i + 2], Turn::Assistant("answer".to_string()));
    }
}

#[test]
fn each_turn_adds_a_user_and_an_assistant_turn() {
    let mut session = Session::new(credentials(), 3);
    for i in 0..3 {
        let before = session.transcript().len();
        turn(&mut session, "q", vec![chunk("a")]);
        assert_eq!(session.transcript().len(), before + 2);
        assert_eq!(session.completed(), i + 1);
        assert_eq!(session.transcript().get(before).role(), Role::User);
        assert_eq!(session.transcript().get(before + 1).role(), Role::Assistant);
        assert_eq!(session.transcript().get(0), &Turn::System(SYSTEM_PROMPT.to_string()));
    }
}

#[test]
fn fragments_are_joined_without_separators() {
    let mut session = Session::new(credentials(), 1);
    let actions = turn(
        &mut session,
        "greet me",
        vec![chunk("Hel"), chunk("lo"), chunk(", world")],
    );
    assert_eq!(actions[0], Action::Request);
    assert_eq!(actions[1], Action::Pull);
    assert_eq!(actions[4], Action::Reply("Hello, world".to_string()));
    assert_eq!(session.transcript().get(2), &Turn::Assistant("Hello, world".to_string()));
}

#[test]
fn stream_error_is_reported_once_and_skipped() {
    let mut session = Session::new(credentials(), 1);
    let actions = turn(
        &mut session,
        "hi",
        vec![Event::Failure("connection reset".to_string()), chunk("OK")],
    );
    let reports: Vec<&Action> =
        actions.iter().filter(|a| matches!(a, Action::Report(_))).collect();
    assert_eq!(reports.len(), 1);
    assert_eq!(reports[0], &Action::Report("Error: connection reset".to_string()));
    assert_eq!(session.transcript().get(2), &Turn::Assistant("OK".to_string()));
}

#[test]
fn only_the_first_choice_of_a_chunk_counts() {
    let mut session = Session::new(credentials(), 1);
    turn(
        &mut session,
        "hi",
        vec![
            Event::Chunk(vec![Some("a".to_string()), Some("b".to_string())]),
            Event::Chunk(vec![None, Some("c".to_string())]),
            Event::Chunk(vec![]),
            chunk("d"),
        ],
    );
    assert_eq!(session.transcript().get(2), &Turn::Assistant("ad".to_string()));
}

#[test]
fn empty_stream_gives_empty_answer() {
    let mut session = Session::new(credentials(), 1);
    let actions = turn(&mut session, "hi", vec![]);
    assert_eq!(actions[1], Action::Reply(String::new()));
    assert_eq!(actions[2], Action::Finish("Chat Completed".to_string()));
}

#[test]
fn user_line_loses_trailing_white_space_only() {
    let mut session = Session::new(credentials(), 1);
    turn(&mut session, "  what is Rust? \r\n", vec![]);
    assert_eq!(session.transcript().get(1), &Turn::User("  what is Rust?".to_string()));
}

#[test]
fn session_without_turns_finishes_at_once() {
    let session = Session::new(credentials(), 0);
    assert_eq!(session.phase(), Phase::Finished);
    assert_eq!(session.opening(), Action::Finish("Chat Completed".to_string()));
    assert!(!session.accepts(&Event::Line("x".to_string())));
}

#[test]
fn session_accepts_only_what_its_phase_awaits() {
    let mut session = Session::new(credentials(), 2);
    assert!(session.accepts(&Event::Line("x".to_string())));
    assert!(!session.accepts(&Event::End));
    session.step(Event::Line("x".to_string()));
    assert_eq!(session.phase(), Phase::Streaming);
    assert!(session.accepts(&Event::End));
    assert!(session.accepts(&Event::Failure("e".to_string())));
    assert!(!session.accepts(&Event::Shown));
    session.step(Event::End);
    assert_eq!(session.phase(), Phase::Replied);
    assert!(session.accepts(&Event::Shown));
    assert_eq!(session.step(Event::Shown), Action::ReadLine);
    assert_eq!(session.phase(), Phase::AwaitingInput);
}

#[test]
fn session_keeps_its_credentials() {
    let session = Session::new(credentials(), 5);
    assert_eq!(session.credentials().api_key(), "key");
    assert_eq!(session.credentials().organization_id(), "org");
    assert_eq!(session.turn_limit(), 5);
}
