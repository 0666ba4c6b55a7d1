use async_openai::types::ChatCompletionRequestMessage;
use chat_session::{
    request_for, to_message, trim_trailing, Credentials, CredentialsError, Event, Session,
    Transcript, Turn, MODEL, SYSTEM_PROMPT,
};

#[test]
fn missing_api_key_is_refused() {
    let r = Credentials::from_values(None, Some("org".to_string()));
    assert!(matches!(r, Err(CredentialsError::MissingApiKey)));
    let r = Credentials::from_values(None, None);
    assert!(matches!(r, Err(CredentialsError::MissingApiKey)));
}

#[test]
fn missing_organization_id_is_refused() {
    let r = Credentials::from_values(Some("key".to_string()), None);
    assert!(matches!(r, Err(CredentialsError::MissingOrganizationId)));
}

#[test]
fn credentials_error_messages() {
    assert_eq!(CredentialsError::MissingApiKey.message(), "OPENAI_API_KEY must be set");
    assert_eq!(
        CredentialsError::MissingOrganizationId.message(),
        "ORGANIZATION_ID must be set"
    );
}

#[test]
fn present_credentials_are_kept() {
    let c = match Credentials::from_values(Some("k1".to_string()), Some("o1".to_string())) {
        Ok(c) => c,
        Err(e) => panic!("{}", e.message()),
    };
    assert_eq!(c.api_key(), "k1");
    assert_eq!(c.organization_id(), "o1");
}

#[test]
fn trim_removes_trailing_white_space() {
    assert_eq!(trim_trailing("hello\n"), "hello");
    assert_eq!(trim_trailing("hello \t\r\n"), "hello");
    assert_eq!(trim_trailing(" a b\u{3000}"), " a b");
    assert_eq!(trim_trailing(""), "");
    assert_eq!(trim_trailing(" \n"), "");
}

#[test]
fn new_transcript_holds_the_system_turn() {
    let t = Transcript::new();
    assert_eq!(t.len(), 1);
    assert_eq!(t.get(0), &Turn::System(SYSTEM_PROMPT.to_string()));
}

#[test]
fn transcript_appends_in_order() {
    let mut t = Transcript::new();
    let u = t.push_user("hi".to_string());
    let a = t.push_assistant("hello".to_string());
    assert_eq!(u, Turn::User("hi".to_string()));
    assert_eq!(a, Turn::Assistant("hello".to_string()));
    assert_eq!(
        t.turns(),
        vec![
            Turn::System(SYSTEM_PROMPT.to_string()),
            Turn::User("hi".to_string()),
            Turn::Assistant("hello".to_string()),
        ]
    );
}

#[test]
fn turns_convert_to_provider_messages() {
    assert_eq!(
        to_message(&Turn::System("s".to_string())),
        ChatCompletionRequestMessage::System("s".into())
    );
    assert_eq!(
        to_message(&Turn::User("u".to_string())),
        ChatCompletionRequestMessage::User("u".into())
    );
    assert_eq!(
        to_message(&Turn::Assistant("a".to_string())),
        ChatCompletionRequestMessage::Assistant("a".into())
    );
}

#[test]
fn request_carries_model_and_whole_transcript() {
    let creds = match Credentials::from_values(Some("k".to_string()), Some("o".to_string())) {
        Ok(c) => c,
        Err(e) => panic!("{}", e.message()),
    };
    let mut session = Session::new(creds, 2);
    session.step(Event::Line("first question\n".to_string()));
    let req = session.request();
    assert_eq!(req.model, "gpt-4o-mini");
    assert_eq!(MODEL, "gpt-4o-mini");
    assert_eq!(
        req.messages,
        vec![
            ChatCompletionRequestMessage::System(SYSTEM_PROMPT.into()),
            ChatCompletionRequestMessage::User("first question".into()),
        ]
    );
    assert_eq!(req.stream, None);
}

#[test]
fn request_for_keeps_turn_order() {
    let turns = vec![
        Turn::System("s".to_string()),
        Turn::User("u1".to_string()),
        Turn::Assistant("a1".to_string()),
        Turn::User("u2".to_string()),
    ];
    let req = request_for("some-model", &turns);
    assert_eq!(req.model, "some-model");
    assert_eq!(req.messages.len(), 4);
    assert_eq!(req.messages[2], ChatCompletionRequestMessage::Assistant("a1".into()));
    assert_eq!(req.messages[3], ChatCompletionRequestMessage::User("u2".into()));
}

#[test]
fn request_is_the_same_on_each_call() {
    let creds = match Credentials::from_values(Some("k".to_string()), Some("o".to_string())) {
        Ok(c) => c,
        Err(e) => panic!("{}", e.message()),
    };
    let mut session = Session::new(creds, 1);
    session.step(Event::Line("again".to_string()));
    let first = session.request();
    let second = session.request();
    assert_eq!(first, second);
    assert_eq!(session.transcript().len(), 2);
}
