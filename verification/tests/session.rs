use grok_term::chat::cache::history_file_name;
use grok_term::chat::response::Message;
use grok_term::chat::{initial_history, input_ends_session, shown_reply};

#[test]
fn session_starts_with_system_prompt() {
    let history = initial_history();
    assert_eq!(history.len(), 1);
    assert_eq!(history[0].role, "system");
    assert_eq!(history[0].content, "You are a helpful AI assistant");
}

#[test]
fn session_ends_on_empty_read_or_error() {
    assert!(input_ends_session(None));
    assert!(input_ends_session(Some(0)));
    assert!(!input_ends_session(Some(1)));
    assert!(!input_ends_session(Some(16384)));
}

#[test]
fn shown_reply_is_last_message_or_failure() {
    let history = vec![
        Message { role: "user", content: String::from("q") },
        Message { role: "system", content: String::from("answer") },
    ];
    assert_eq!(shown_reply(true, &history), "answer");
    assert_eq!(shown_reply(false, &history), "Request failed");
    let empty: Vec<Message> = Vec::new();
    assert_eq!(shown_reply(false, &empty), "Request failed");
}

#[test]
fn history_file_names_carry_the_timestamp() {
    assert_eq!(history_file_name(0), "chat/cache/history/grok_0.json");
    assert_eq!(history_file_name(7), "chat/cache/history/grok_7.json");
    assert_eq!(history_file_name(1750535675), "chat/cache/history/grok_1750535675.json");
    assert_eq!(history_file_name(u64::MAX), "chat/cache/history/grok_18446744073709551615.json");
    assert_ne!(history_file_name(10), history_file_name(100));
}
