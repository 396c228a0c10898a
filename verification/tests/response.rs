use grok_term::chat::response::display::{preformat, renders_cleanly};
use grok_term::chat::response::grok::{
    Grok, GrokChoices, GrokMessage, GrokUsage, PromptTokensDetails,
};
use grok_term::chat::response::{
    begin_exchange, build_request, copy_messages, record_prompt, record_reply, request_headers,
    Message,
};
use grok_term::config::{Config, Globals, GrokConfig, OllamaConfig, Service};

const CONTENT: &str = "  # Test Response for Chat Bot Testing\n\nHello! This is a generic markdown response to assist with your chat bot testing. It's designed to include various elements for character parsing. Below, you'll find headers, code blocks, bold, and italic text.\n\n## Key Elements Included\n\nThis section demonstrates **bold text** and *italic text*. For example, you can have a combination like **bold with *italic inside*** to test nested formatting.\n\n### Subheader for Variety\n\nHere's a smaller header. It's useful for structuring content in markdown.\n\nNow, let's include a small code block and an `inline_code_snip` to simulate code parsing:\n```# This is a simple Python code snippet\nprint('Hello, this is a test message!')```\n\nFeel free to use this response multiple times for your tests. If you need adjustments, just let me know!\n\n";

fn sample_reply(choices: Vec<GrokChoices>) -> Grok {
    Grok {
        id: String::from("91d1868f-3dcf-4b92-88c8-dac32e2ce8b4"),
        object: String::from("chat.completion"),
        created: 1750535675,
        model: String::from("grok-3"),
        choices,
        usage: GrokUsage {
            prompt_tokens: 36,
            completion_tokens: 3,
            total_tokens: 39,
            prompt_tokens_details: PromptTokensDetails {
                text_tokens: 36,
                audio_tokens: 0,
                image_tokens: 0,
                cached_tokens: 4,
            },
        },
        system_fingerprint: String::from("fp_be0739e203"),
    }
}

fn sample_choice() -> GrokChoices {
    GrokChoices {
        index: 0,
        message: GrokMessage { role: String::from("assistant"), content: String::from(CONTENT) },
        finish_reason: String::from("stop"),
    }
}

fn sample_config(service: Service) -> Config {
    Config {
        globals: Globals {
            terminal: true,
            service,
            stream: false,
            temperature_bits: 0.7f32.to_bits(),
            reasoning_effort: String::from("high"),
            speak_color: String::from("cyan"),
        },
        grok: GrokConfig {
            url: String::from("https://api.x.ai/v1/chat/completions"),
            model: String::from("grok-3"),
            api_key: String::from("SECRET-REDACTED"),
        },
        ollama: OllamaConfig {
            url: String::from("http://localhost:11434/v1/chat/completions"),
            model: String::from("llama3"),
        },
    }
}

#[test]
fn test_response() {
    let mut history: Vec<Message> = Vec::new();
    let prompt: String = String::from("Hello, I am the user");
    history.push(Message { role: "user", content: prompt });

    let reply = sample_reply(vec![sample_choice()]);
    record_reply(&mut history, &reply);

    let message: &str = match history.get(1) {
        Some(m) => &m.content,
        None => panic!("Could not parse sample message"),
    };
    assert_eq!(message, CONTENT);
    assert_eq!(history[1].role, "system");
    assert!(renders_cleanly(message, 80));
    let formatted = preformat(message, 80, "cyan");
    assert!(formatted.starts_with("\x1b[36m\n  "));
}

#[test]
fn reply_without_choices_records_notice() {
    let mut history: Vec<Message> = Vec::new();
    record_reply(&mut history, &sample_reply(Vec::new()));
    assert_eq!(history.len(), 1);
    assert_eq!(history[0].role, "system");
    assert_eq!(history[0].content, "Failed find message in response data");
}

#[test]
fn prompt_is_recorded_as_user_message() {
    let mut history: Vec<Message> = vec![Message { role: "system", content: String::from("s") }];
    record_prompt(&mut history, String::from("hi"));
    assert_eq!(history.len(), 2);
    assert_eq!(history[1].role, "user");
    assert_eq!(history[1].content, "hi");
    let copy = copy_messages(&history);
    assert_eq!(copy.len(), 2);
    assert_eq!(copy[0].content, "s");
    assert_eq!(copy[1].role, "user");
}

#[test]
fn exchange_grows_history_by_two() {
    let config = sample_config(Service::Grok);
    let mut history: Vec<Message> = vec![Message { role: "system", content: String::from("s") }];
    let out = begin_exchange("Hello".as_bytes(), &mut history, &config).unwrap();
    assert_eq!(out.request.messages.len(), 2);
    assert_eq!(out.request.messages[1].content, "Hello");
    record_reply(&mut history, &sample_reply(vec![sample_choice()]));
    assert_eq!(history.len(), 3);
    assert_eq!(history[1].role, "user");
    assert_eq!(history[2].role, "system");
    assert_eq!(history[2].content, CONTENT);
}

#[test]
fn invalid_utf8_prompt_is_refused() {
    let config = sample_config(Service::Ollama);
    let mut history: Vec<Message> = Vec::new();
    assert!(begin_exchange(&[0xff, 0xfe], &mut history, &config).is_none());
    assert!(history.is_empty());
}

#[test]
fn grok_request_carries_bearer_key() {
    let config = sample_config(Service::Grok);
    let history: Vec<Message> = vec![Message { role: "user", content: String::from("q") }];
    let out = build_request(&history, &config);
    assert_eq!(out.url, "https://api.x.ai/v1/chat/completions");
    assert_eq!(out.request.model, "grok-3");
    assert!(!out.request.stream);
    assert_eq!(f32::from_bits(out.request.temperature_bits), 0.7f32);
    assert_eq!(out.request.reasoning_effort, "high");
    assert_eq!(
        out.headers,
        vec![
            (String::from("Content-Type"), String::from("application/json")),
            (String::from("Authorization"), String::from("Bearer SECRET-REDACTED")),
        ]
    );
}

#[test]
fn ollama_request_has_no_key() {
    let config = sample_config(Service::Ollama);
    let headers = request_headers(&config);
    assert_eq!(headers, vec![(String::from("Content-Type"), String::from("application/json"))]);
    let history: Vec<Message> = Vec::new();
    let out = build_request(&history, &config);
    assert_eq!(out.url, "http://localhost:11434/v1/chat/completions");
    assert_eq!(out.request.model, "llama3");
    assert!(out.request.messages.is_empty());
}

#[test]
fn two_exchanges_alternate_user_and_system() {
    let config = sample_config(Service::Ollama);
    let mut history = grok_term::chat::initial_history();
    begin_exchange("first".as_bytes(), &mut history, &config).unwrap();
    record_reply(&mut history, &sample_reply(vec![sample_choice()]));
    begin_exchange("second".as_bytes(), &mut history, &config).unwrap();
    record_reply(&mut history, &sample_reply(Vec::new()));
    assert_eq!(history.len(), 5);
    assert_eq!(history[0].role, "system");
    assert_eq!(history[0].content, "You are a helpful AI assistant");
    assert_eq!((history[1].role, history[1].content.as_str()), ("user", "first"));
    assert_eq!((history[2].role, history[2].content.as_str()), ("system", CONTENT));
    assert_eq!((history[3].role, history[3].content.as_str()), ("user", "second"));
    assert_eq!(
        (history[4].role, history[4].content.as_str()),
        ("system", "Failed find message in response data")
    );
}
