//! A terminal chat client for large-language-model services: colour codes,
//! markdown-to-terminal rendering, conversation history and configuration.
pub mod chat;
pub mod config;
