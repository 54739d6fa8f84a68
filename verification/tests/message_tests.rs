use rcode::app::message::{
    height_of_lines, AssistantPart, CliMessage, MessageBody, MessageUtils, Role, ToolResultPart, UserPart,
};

#[test]
fn new_message_reads_back_its_text() {
    for role in [Role::User, Role::Agent, Role::System] {
        let m = CliMessage::new(role, "hello\nworld".to_string());
        assert_eq!(m.role, role);
        assert_eq!(m.get_content(), "hello\nworld");
    }
}

#[test]
fn new_message_body_matches_role() {
    assert!(matches!(CliMessage::new(Role::User, "u".to_string()).message, MessageBody::User { .. }));
    assert!(matches!(
        CliMessage::new(Role::Agent, "a".to_string()).message,
        MessageBody::Assistant { .. }
    ));
    assert!(matches!(
        CliMessage::new(Role::System, "s".to_string()).message,
        MessageBody::System { .. }
    ));
}

#[test]
fn from_message_takes_role_from_kind() {
    let user = CliMessage::from_message(MessageBody::User { content: vec![] });
    assert_eq!(user.role, Role::User);
    let agent = CliMessage::from_message(MessageBody::Assistant { content: vec![] });
    assert_eq!(agent.role, Role::Agent);
    let system = CliMessage::from_message(MessageBody::System { content: "s".to_string() });
    assert_eq!(system.role, Role::System);
}

#[test]
fn user_content_keeps_text_and_tool_results() {
    let body = MessageBody::User {
        content: vec![
            UserPart::Text("first".to_string()),
            UserPart::Media,
            UserPart::ToolResult(vec![
                ToolResultPart::Text("r1".to_string()),
                ToolResultPart::Other,
                ToolResultPart::Text("r2".to_string()),
            ]),
            UserPart::ToolResult(vec![ToolResultPart::Other]),
            UserPart::Text("last".to_string()),
        ],
    };
    let m = CliMessage::from_message(body);
    assert_eq!(m.get_content(), "first\nr1\nr2\nlast");
}

#[test]
fn assistant_content_skips_empty_reasoning_and_calls() {
    let body = MessageBody::Assistant {
        content: vec![
            AssistantPart::Reasoning("".to_string()),
            AssistantPart::Text("answer".to_string()),
            AssistantPart::Other,
            AssistantPart::Reasoning("because".to_string()),
        ],
    };
    assert_eq!(CliMessage::from_message(body).get_content(), "answer\nbecause");
}

#[test]
fn empty_user_message_has_empty_content() {
    let m = CliMessage::from_message(MessageBody::User { content: vec![UserPart::Media] });
    assert_eq!(m.get_content(), "");
}

#[test]
fn height_counts_wrapped_lines_and_border() {
    let mut m = CliMessage::new(Role::User, "foo bar baz".to_string());
    assert_eq!(m.get_height(5, false), 3);
    assert_eq!(m.get_height(5, true), 5);
    assert_eq!(m.get_height(5, true), 5);
    assert_eq!(m.get_height(80, true), 3);
    assert_eq!(m.get_height(80, false), 1);
}

#[test]
fn checked_height_reports_overflow() {
    let mut small = CliMessage::new(Role::Agent, "one two".to_string());
    assert_eq!(small.checked_height(3, true), Some(4));
    let mut tall = CliMessage::new(Role::Agent, "\n".repeat(65533));
    assert_eq!(tall.checked_height(10, false), Some(65534));
    assert_eq!(tall.checked_height(10, true), None);
}

#[test]
fn cloned_body_has_same_content() {
    let body = MessageBody::Assistant {
        content: vec![AssistantPart::Text("x".to_string()), AssistantPart::Reasoning("y".to_string())],
    };
    let copy = body.clone();
    assert_eq!(CliMessage::from_message(copy).get_content(), "x\ny");
    assert_eq!(CliMessage::from_message(body).get_content(), "x\ny");
}

#[test]
fn height_of_given_lines() {
    let lines = vec!["a".to_string(), "b".to_string()];
    assert_eq!(height_of_lines(&lines, false), 2);
    assert_eq!(height_of_lines(&lines, true), 4);
    assert_eq!(height_of_lines(&vec![], true), 2);
}

#[test]
fn height_cache_holds_last_answer() {
    let mut m = CliMessage::new(Role::User, "foo bar baz".to_string());
    let h = m.get_height(5, true);
    let cache = m.height_cache().unwrap();
    assert_eq!((cache.width, cache.has_border, cache.height), (5, true, h));
    assert_eq!(m.get_height(5, true), h);
    assert_eq!(m.height_cache().unwrap().height, h);
}
