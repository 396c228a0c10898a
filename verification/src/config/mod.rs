//! The application's settings and the chat service that they select.
use vstd::prelude::*;

verus! {

/// The chat services the application can talk to.
#[derive(Debug, Clone, Copy, PartialEq, Eq, Structural)]
pub enum Service {
    Grok,
    Ollama,
}

/// Settings that do not depend on the service.
pub struct Globals {
    pub terminal: bool,
    pub service: Service,
    pub stream: bool,
    /// The sampling temperature: the bits of an IEEE-754 single-precision
    /// number.
    pub temperature_bits: u32,
    pub reasoning_effort: String,
    pub speak_color: String,
}

/// Where and how to reach the Grok service.
pub struct GrokConfig {
    pub url: String,
    pub model: String,
    pub api_key: String,
}

/// Where and how to reach an Ollama service.
pub struct OllamaConfig {
    pub url: String,
    pub model: String,
}

/// All settings of the application.
pub struct Config {
    pub globals: Globals,
    pub grok: GrokConfig,
    pub ollama: OllamaConfig,
}

/// The settings of the service that the configuration selects.
pub enum ActiveBot<'a> {
    Grok(&'a GrokConfig),
    Ollama(&'a OllamaConfig),
}

impl Config {
    /// The service settings that `globals.service` selects.
    pub open spec fn selected_bot(&self) -> ActiveBot<'_> {
        match self.globals.service {
            Service::Grok => ActiveBot::Grok(&self.grok),
            Service::Ollama => ActiveBot::Ollama(&self.ollama),
        }
    }

    /// The API key sent with each request: that of Grok when Grok is
    /// selected, none otherwise.
    pub open spec fn selected_api_key(&self) -> Option<Seq<char>> {
        match self.globals.service {
            Service::Grok => Some(self.grok.api_key@),
            _ => None,
        }
    }

    /// The settings of the selected service.
    pub fn active_bot(&self) -> (bot: ActiveBot<'_>)
        ensures
            bot == self.selected_bot(),
    {
        match self.globals.service {
            Service::Grok => ActiveBot::Grok(&self.grok),
            Service::Ollama => ActiveBot::Ollama(&self.ollama),
        }
    }

    /// The colour in which replies are typed.
    pub fn speak_color(&self) -> (color: &str)
        ensures
            color@ == self.globals.speak_color@,
    {
        self.globals.speak_color.as_str()
    }

    /// The API key of the selected service, if it has one.
    pub fn api_key(&self) -> (key: Option<&str>)
        ensures
            key matches Some(k) ==> self.selected_api_key() == Some(k@),
            key is None ==> self.selected_api_key() is None,
    {
        match self.globals.service {
            Service::Grok => Some(self.grok.api_key.as_str()),
            _ => None,
        }
    }
}

impl<'a> ActiveBot<'a> {
    /// The model name of the service.
    pub open spec fn model_name(&self) -> Seq<char> {
        match *self {
            ActiveBot::Grok(bot) => bot.model@,
            ActiveBot::Ollama(bot) => bot.model@,
        }
    }

    /// The address of the service.
    pub open spec fn address(&self) -> Seq<char> {
        match *self {
            ActiveBot::Grok(bot) => bot.url@,
            ActiveBot::Ollama(bot) => bot.url@,
        }
    }

    /// The model name of the service.
    pub fn model(&self) -> (model: &'a str)
        ensures
            model@ == self.model_name(),
    {
        match self {
            ActiveBot::Grok(bot) => bot.model.as_str(),
            ActiveBot::Ollama(bot) => bot.model.as_str(),
        }
    }

    /// The address of the service.
    pub fn url(&self) -> (url: &'a str)
        ensures
            url@ == self.address(),
    {
        match self {
            ActiveBot::Grok(bot) => bot.url.as_str(),
            ActiveBot::Ollama(bot) => bot.url.as_str(),
        }
    }
}

/// The path of the configuration file: the one given, or
/// `config/config.toml`.
pub fn config_path<'a>(file_path: Option<&'a str>) -> (path: &'a str)
    ensures
        path@ == match file_path {
            Some(p) => p@,
            None => "config/config.toml"@,
        },
{
    let default_path: &str = "config/config.toml";
    match file_path {
        Some(p) => p,
        None => default_path,
    }
}

/// Law: a request carries an API key exactly when Grok is the selected
/// service, and the key is Grok's.
pub proof fn law_api_key_follows_service(config: &Config)
    ensures
        config.selected_api_key() is Some <==> config.selected_bot() is Grok,
        config.selected_bot() matches ActiveBot::Grok(bot) ==> config.selected_api_key() == Some(
            bot.api_key@,
        ),
{
}

} // verus!
