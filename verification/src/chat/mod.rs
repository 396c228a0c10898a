//! One terminal chat session: the history it starts with, when it ends and
//! what it shows after each exchange.
pub mod cache;
pub mod response;
pub mod text_tools;

use vstd::prelude::*;
use vstd::string::StringExecFns;

use response::{reply_content, reply_recorded, starts_session, Message};

verus! {

/// The text shown after an exchange: the last message of the history when the
/// exchange succeeded, a notice of failure otherwise.
pub open spec fn shown_text(succeeded: bool, history: Seq<Message>) -> Seq<char> {
    if succeeded {
        history.last().content@
    } else {
        "Request failed"@
    }
}

/// The history a session starts with: the system prompt.
pub fn initial_history() -> (history: Vec<Message>)
    ensures
        starts_session(history@),
        history@.len() == 1,
        history@[0].role@ == "system"@,
        history@[0].content@ == "You are a helpful AI assistant"@,
{
    let mut history: Vec<Message> = Vec::new();
    history.push(
        Message { role: "system", content: String::from_str("You are a helpful AI assistant") },
    );
    history
}

/// Whether reading the terminal ended the session: on a read error (`None`)
/// or at the end of input (zero bytes).
pub fn input_ends_session(read: Option<usize>) -> (ends: bool)
    ensures
        ends == (read is None || read == Some(0usize)),
{
    match read {
        Some(0) => true,
        Some(_) => false,
        None => true,
    }
}

/// The text to show after an exchange.
pub fn shown_reply<'a>(succeeded: bool, history: &'a Vec<Message>) -> (text: &'a str)
    requires
        succeeded ==> history@.len() > 0,
    ensures
        text@ == shown_text(succeeded, history@),
{
    if succeeded {
        history[history.len() - 1].content.as_str()
    } else {
        "Request failed"
    }
}

/// Law: after a reply has been recorded, the text shown for a successful
/// exchange is the content of that reply.
pub proof fn law_shown_reply_is_recorded_reply(
    before: Seq<Message>,
    after: Seq<Message>,
    reply: response::grok::Grok,
)
    requires
        reply_recorded(before, after, reply),
    ensures
        after.len() > 0,
        shown_text(true, after) == reply_content(reply),
{
}

} // verus!
