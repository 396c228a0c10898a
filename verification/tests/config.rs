use grok_term::config::{config_path, ActiveBot, Config, Globals, GrokConfig, OllamaConfig, Service};

fn settings(service: Service) -> Config {
    Config {
        globals: Globals {
            terminal: true,
            service,
            stream: false,
            temperature_bits: 0.7f32.to_bits(),
            reasoning_effort: String::from("high"),
            speak_color: String::from("cyan"),
        },
        grok: GrokConfig {
            url: String::from("https://api.x.ai/v1/chat/completions"),
            model: String::from("grok-3"),
            api_key: String::from("key-123"),
        },
        ollama: OllamaConfig {
            url: String::from("http://localhost:11434/api/chat"),
            model: String::from("llama3.2"),
        },
    }
}

#[test]
fn test_settings() {
    // terminal = true, stream = false, temperature = 0.7,
    // reasoning_effort = "high", speak_color = "cyan", service = "ollama"
    let conf = settings(Service::Ollama);
    assert!(conf.globals.terminal);
    assert!(!conf.globals.stream);
    assert_eq!(f32::from_bits(conf.globals.temperature_bits), 0.7f32);
    assert_eq!(conf.globals.reasoning_effort, "high");
    assert_eq!(conf.speak_color(), "cyan");
    assert_eq!(conf.active_bot().model(), "llama3.2");
    assert_eq!(conf.active_bot().url(), "http://localhost:11434/api/chat");
}

#[test]
fn grok_is_active_with_its_key() {
    let conf = settings(Service::Grok);
    assert!(matches!(conf.active_bot(), ActiveBot::Grok(_)));
    assert_eq!(conf.active_bot().model(), "grok-3");
    assert_eq!(conf.active_bot().url(), "https://api.x.ai/v1/chat/completions");
    assert_eq!(conf.api_key(), Some("key-123"));
}

#[test]
fn ollama_has_no_api_key() {
    let conf = settings(Service::Ollama);
    assert!(matches!(conf.active_bot(), ActiveBot::Ollama(_)));
    assert_eq!(conf.api_key(), None);
}

#[test]
fn config_path_defaults() {
    assert_eq!(config_path(None), "config/config.toml");
    assert_eq!(config_path(Some("src/config/config.toml")), "src/config/config.toml");
}
