# grok_term

A terminal chat client for large-language-model services (Grok, Ollama).

- `src/` is the verified library: ANSI colour codes (`chat::text_tools`),
  the markdown-to-terminal renderer and the typing plan
  (`chat::response::display`), the conversation history and the requests
  built from it (`chat::response`), the session rules (`chat`), the history
  file name (`chat::cache`) and the configuration (`config`).
- `app/` is the program around it: reading the TOML configuration, the HTTP
  exchange, JSON (de)serialisation, the terminal loop and the typing itself.
