use auralis::model::{InboxSource, InboxState, Priority, ProjectStatus, TaskStatus};
use auralis::chat::{check_status, chat_request, reply_content, summary_request, ChatMessage, SUMMARY_MODEL};
use auralis::db::Db;
use auralis::error::{CommandError, Entity};
use auralis::notes::note_add;
use auralis::text::{first_line, same_text, trim_text, utf8_width};

fn msg(content: &str) -> Option<ChatMessage> {
    Some(ChatMessage { role: "assistant".to_string(), content: content.to_string() })
}

#[test]
fn non_success_status_is_transport_error() {
    assert_eq!(
        check_status(500, "boom".to_string()),
        Err(CommandError::Transport { status: Some(500), detail: "boom".to_string() })
    );
    assert_eq!(
        check_status(404, String::new()),
        Err(CommandError::Transport { status: Some(404), detail: String::new() })
    );
    assert_eq!(check_status(200, String::new()), Ok(()));
    assert_eq!(check_status(299, String::new()), Ok(()));
    assert!(check_status(199, String::new()).is_err());
}

#[test]
fn blank_reply_is_empty_response() {
    assert_eq!(reply_content(msg("  \n ")), Err(CommandError::EmptyResponse));
    assert!(matches!(reply_content(None), Err(CommandError::Parse(_))));
    assert_eq!(reply_content(msg("  Summary:\n- a  ")), Ok("Summary:\n- a".to_string()));
}

#[test]
fn request_has_system_then_user() {
    let r = chat_request("m", "sys", "usr");
    assert_eq!(r.model, "m");
    assert!(!r.stream);
    assert_eq!(r.messages.len(), 2);
    assert_eq!((r.messages[0].role.as_str(), r.messages[0].content.as_str()), ("system", "sys"));
    assert_eq!((r.messages[1].role.as_str(), r.messages[1].content.as_str()), ("user", "usr"));
}

#[test]
fn summary_request_for_note() {
    let mut db = Db::new();
    let id = note_add(&mut db, "Trip".to_string(), "Book flights".to_string(), None, None, "t").unwrap();
    let r = summary_request(&db, id).unwrap();
    assert_eq!(r.model, SUMMARY_MODEL);
    assert_eq!(r.messages[1].content, "Summarise this note.\n\nTitle: Trip\n\nContent:\nBook flights");
    assert!(r.messages[0].content.contains("[Soon]"));
    assert_eq!(summary_request(&db, "note_x".to_string()).err(), Some(CommandError::NotFound(Entity::Note)));
}

#[test]
fn text_helpers() {
    assert_eq!(trim_text("\u{3000} a b \t"), "a b");
    assert_eq!(trim_text(""), "");
    assert_eq!(first_line("one\r\ntwo"), "one");
    assert_eq!(first_line("one\rtwo"), "one\rtwo");
    assert_eq!(first_line(""), "");
    assert!(same_text("abc", "abc"));
    assert!(!same_text("abc", "abd"));
    assert_eq!(utf8_width('a'), 1);
    assert_eq!(utf8_width('é'), 2);
    assert_eq!(utf8_width('€'), 3);
    assert_eq!(utf8_width('😀'), 4);
}

#[test]
fn tokens_round_trip() {
    for p in [Priority::Low, Priority::Normal, Priority::High] {
        assert_eq!(Priority::parse(p.as_str()), Some(p));
    }
    for t in [TaskStatus::Todo, TaskStatus::Doing, TaskStatus::Done, TaskStatus::Deferred] {
        assert_eq!(TaskStatus::parse(t.as_str()), Some(t));
    }
    for p in [ProjectStatus::Paused, ProjectStatus::Active, ProjectStatus::Completed] {
        assert_eq!(ProjectStatus::parse(p.as_str()), Some(p));
    }
    for s in [InboxState::Unprocessed, InboxState::Processed, InboxState::Archived] {
        assert_eq!(InboxState::parse(s.as_str()), Some(s));
    }
    assert_eq!(InboxSource::parse("voice"), Some(InboxSource::Voice));
    assert_eq!(Priority::parse("urgent"), None);
    assert_eq!(TaskStatus::parse("Done"), None);
}

#[test]
fn white_space_matches_std() {
    for c in (0u32..=0x10FFFF).filter_map(char::from_u32) {
        assert_eq!(auralis::text::is_white_space(c), c.is_whitespace(), "{:?}", c);
    }
}

#[test]
fn system_prompt_keeps_its_wording() {
    assert!(auralis::chat::SUMMARY_SYSTEM_PROMPT.contains("- 5–8 concise bullets grouped by theme."));
    assert!(auralis::chat::SUMMARY_SYSTEM_PROMPT.contains("(e.g. \"Check…\", \"Decide…\", \"Prepare…\")"));
}
