//! The conversation history and what one exchange with the service adds to
//! it: the request that is sent and the reply that is kept.
pub mod display;
pub mod grok;

use vstd::prelude::*;
use vstd::string::StringExecFns;

use crate::chat::text_tools::str_from_utf8;
use crate::config::Config;
use grok::Grok;

verus! {

/// One message of the conversation.
pub struct Message {
    pub role: &'static str,
    pub content: String,
}

/// The body of a chat request.
pub struct ChatRequest {
    pub messages: Vec<Message>,
    pub model: String,
    pub stream: bool,
    /// The sampling temperature: the bits of an IEEE-754 single-precision
    /// number.
    pub temperature_bits: u32,
    pub reasoning_effort: String,
}

/// A request ready to be posted: where, with which headers, and what.
pub struct Outgoing {
    pub url: String,
    pub headers: Vec<(String, String)>,
    pub request: ChatRequest,
}

/// `after` is `before` with the prompt added as a message of the user.
pub open spec fn prompt_recorded(before: Seq<Message>, after: Seq<Message>, prompt: Seq<char>) -> bool {
    &&& after.len() == before.len() + 1
    &&& after.take(before.len() as int) == before
    &&& after.last().role@ == "user"@
    &&& after.last().content@ == prompt
}

/// The text that a reply contributes: the content of its first completion,
/// or a notice when it has none.
pub open spec fn reply_content(reply: Grok) -> Seq<char> {
    if reply.choices@.len() > 0 {
        reply.choices@[0].message.content@
    } else {
        "Failed find message in response data"@
    }
}

/// `after` is `before` with the reply's content added as a system message.
pub open spec fn reply_recorded(before: Seq<Message>, after: Seq<Message>, reply: Grok) -> bool {
    &&& after.len() == before.len() + 1
    &&& after.take(before.len() as int) == before
    &&& after.last().role@ == "system"@
    &&& after.last().content@ == reply_content(reply)
}

/// The headers of every request: JSON content, and the API key as a bearer
/// token when the configuration has one.
pub open spec fn headers_for(api_key: Option<Seq<char>>) -> Seq<(Seq<char>, Seq<char>)> {
    match api_key {
        Some(key) => seq![
            ("Content-Type"@, "application/json"@),
            ("Authorization"@, "Bearer "@ + key),
        ],
        None => seq![("Content-Type"@, "application/json"@)],
    }
}

/// The headers as character sequences.
pub open spec fn header_views(headers: Seq<(String, String)>) -> Seq<(Seq<char>, Seq<char>)> {
    headers.map_values(|h: (String, String)| (h.0@, h.1@))
}

/// A copy of each message of the history.
pub fn copy_messages(history: &Vec<Message>) -> (copy: Vec<Message>)
    ensures
        copy@ == history@,
{
    let mut copy: Vec<Message> = Vec::new();
    for i in 0..history.len()
        invariant
            copy@ == history@.take(i as int),
    {
        let m = &history[i];
        copy.push(Message { role: m.role, content: m.content.clone() });
        assert(copy@ =~= history@.take(i + 1));
    }
    assert(copy@ =~= history@);
    copy
}

/// The headers of a request made with `config`.
pub fn request_headers(config: &Config) -> (headers: Vec<(String, String)>)
    ensures
        header_views(headers@) == headers_for(config.selected_api_key()),
{
    let mut headers: Vec<(String, String)> = Vec::new();
    headers.push((String::from_str("Content-Type"), String::from_str("application/json")));
    if let Some(key) = config.api_key() {
        let mut bearer = String::from_str("Bearer ");
        bearer.append(key);
        headers.push((String::from_str("Authorization"), bearer));
    }
    assert(header_views(headers@) =~= headers_for(config.selected_api_key()));
    headers
}

/// Adds the user's prompt to the history.
pub fn record_prompt(history: &mut Vec<Message>, prompt: String)
    ensures
        prompt_recorded(old(history)@, final(history)@, prompt@),
{
    history.push(Message { role: "user", content: prompt });
    assert(final(history)@.take(old(history)@.len() as int) =~= old(history)@);
}

/// The request that sends the whole history to the selected service.
pub fn build_request(history: &Vec<Message>, config: &Config) -> (out: Outgoing)
    ensures
        out.url@ == config.selected_bot().address(),
        header_views(out.headers@) == headers_for(config.selected_api_key()),
        out.request.messages@ == history@,
        out.request.model@ == config.selected_bot().model_name(),
        out.request.stream == config.globals.stream,
        out.request.temperature_bits == config.globals.temperature_bits,
        out.request.reasoning_effort@ == config.globals.reasoning_effort@,
{
    let bot = config.active_bot();
    let request = ChatRequest {
        messages: copy_messages(history),
        model: String::from_str(bot.model()),
        stream: config.globals.stream,
        temperature_bits: config.globals.temperature_bits,
        reasoning_effort: String::from_str(config.globals.reasoning_effort.as_str()),
    };
    Outgoing { url: String::from_str(bot.url()), headers: request_headers(config), request }
}

/// Starts an exchange: the prompt read from the terminal joins the history
/// and the request carrying the history is built. Gives `None`, and leaves the
/// history as it was, when the prompt is not UTF-8.
pub fn begin_exchange(buffer: &[u8], history: &mut Vec<Message>, config: &Config) -> (out: Option<
    Outgoing,
>)
    ensures
        out is None <==> !vstd::utf8::valid_utf8(buffer@),
        out is None ==> final(history)@ == old(history)@,
        out matches Some(o) ==> {
            &&& prompt_recorded(old(history)@, final(history)@, vstd::utf8::decode_utf8(buffer@))
            &&& o.url@ == config.selected_bot().address()
            &&& header_views(o.headers@) == headers_for(config.selected_api_key())
            &&& o.request.messages@ == final(history)@
            &&& o.request.model@ == config.selected_bot().model_name()
            &&& o.request.stream == config.globals.stream
            &&& o.request.temperature_bits == config.globals.temperature_bits
            &&& o.request.reasoning_effort@ == config.globals.reasoning_effort@
        },
{
    match str_from_utf8(buffer) {
        Some(text) => {
            record_prompt(history, String::from_str(text));
            Some(build_request(history, config))
        },
        None => None,
    }
}

/// Adds the reply's content to the history as a system message.
pub fn record_reply(history: &mut Vec<Message>, reply: &Grok)
    ensures
        reply_recorded(old(history)@, final(history)@, *reply),
{
    let content = if reply.choices.len() > 0 {
        reply.choices[0].message.content.clone()
    } else {
        String::from_str("Failed find message in response data")
    };
    history.push(Message { role: "system", content });
    assert(final(history)@.take(old(history)@.len() as int) =~= old(history)@);
}

/// Law: an exchange adds exactly two messages to the history, the prompt as
/// the user's and then the reply as the system's, and keeps every earlier
/// message.
pub proof fn law_exchange_appends_prompt_and_reply(
    h0: Seq<Message>,
    h1: Seq<Message>,
    h2: Seq<Message>,
    prompt: Seq<char>,
    reply: Grok,
)
    requires
        prompt_recorded(h0, h1, prompt),
        reply_recorded(h1, h2, reply),
    ensures
        h2.len() == h0.len() + 2,
        h2.take(h0.len() as int) == h0,
        h2[h0.len() as int].role@ == "user"@,
        h2[h0.len() as int].content@ == prompt,
        h2[h0.len() as int + 1].role@ == "system"@,
        h2[h0.len() as int + 1].content@ == reply_content(reply),
{
    assert(h2.take(h0.len() as int) =~= h1.take(h0.len() as int));
    assert(h2[h0.len() as int] == h2.take(h1.len() as int)[h0.len() as int]);
}

/// `h` is the history a session starts with: the system prompt alone.
pub open spec fn starts_session(h: Seq<Message>) -> bool {
    &&& h.len() == 1
    &&& h[0].role@ == "system"@
    &&& h[0].content@ == "You are a helpful AI assistant"@
}

/// The histories `hs` of a session of `prompts.len()` exchanges: `hs[2 * k]`
/// before exchange `k`, `hs[2 * k + 1]` after its prompt was recorded and
/// `hs[2 * k + 2]` after its reply was recorded.
pub open spec fn session_recorded(
    hs: Seq<Seq<Message>>,
    prompts: Seq<Seq<char>>,
    replies: Seq<Grok>,
) -> bool {
    &&& replies.len() == prompts.len()
    &&& hs.len() == 2 * prompts.len() + 1
    &&& forall|k: int|
        0 <= k < prompts.len() ==> #[trigger] prompt_recorded(hs[2 * k], hs[2 * k + 1], prompts[k])
            && reply_recorded(hs[2 * k + 1], hs[2 * k + 2], replies[k])
}

/// What the history holds after `j` exchanges of a recorded session.
proof fn lemma_session_after(
    hs: Seq<Seq<Message>>,
    prompts: Seq<Seq<char>>,
    replies: Seq<Grok>,
    j: int,
)
    requires
        session_recorded(hs, prompts, replies),
        0 <= j <= prompts.len(),
    ensures
        hs[2 * j].len() == hs[0].len() + 2 * j,
        hs[2 * j].take(hs[0].len() as int) == hs[0],
        forall|k: int|
            0 <= k < j ==> {
                &&& (#[trigger] hs[2 * j][hs[0].len() + 2 * k]).role@ == "user"@
                &&& hs[2 * j][hs[0].len() + 2 * k].content@ == prompts[k]
                &&& hs[2 * j][hs[0].len() + 2 * k + 1].role@ == "system"@
                &&& hs[2 * j][hs[0].len() + 2 * k + 1].content@ == reply_content(replies[k])
            },
    decreases j,
{
    if j == 0 {
        assert(hs[0].take(hs[0].len() as int) =~= hs[0]);
    } else {
        let i = j - 1;
        lemma_session_after(hs, prompts, replies, i);
        assert(prompt_recorded(hs[2 * i], hs[2 * i + 1], prompts[i]));
        let a = hs[2 * i];
        let b = hs[2 * i + 1];
        let c = hs[2 * j];
        assert(2 * i + 2 == 2 * j);
        assert(reply_recorded(b, c, replies[i]));
        assert forall|idx: int| 0 <= idx < a.len() implies c[idx] == a[idx] by {
            assert(c.take(b.len() as int)[idx] == c[idx]);
            assert(b.take(a.len() as int)[idx] == b[idx]);
        }
        assert(c[a.len() as int] == b[a.len() as int]) by {
            assert(c.take(b.len() as int)[a.len() as int] == c[a.len() as int]);
        }
        assert(c.take(hs[0].len() as int) =~= hs[0]) by {
            assert forall|idx: int| 0 <= idx < hs[0].len() implies c.take(
                hs[0].len() as int,
            )[idx] == hs[0][idx] by {
                assert(a.take(hs[0].len() as int)[idx] == a[idx]);
            }
        }
        assert forall|k: int| 0 <= k < j implies {
            &&& (#[trigger] c[hs[0].len() + 2 * k]).role@ == "user"@
            &&& c[hs[0].len() + 2 * k].content@ == prompts[k]
            &&& c[hs[0].len() + 2 * k + 1].role@ == "system"@
            &&& c[hs[0].len() + 2 * k + 1].content@ == reply_content(replies[k])
        } by {
            if k < i {
                assert(c[hs[0].len() + 2 * k] == a[hs[0].len() + 2 * k]);
                assert(c[hs[0].len() + 2 * k + 1] == a[hs[0].len() + 2 * k + 1]);
            } else {
                assert(hs[0].len() + 2 * k == a.len());
            }
        }
    }
}

/// Law: after `n` exchanges the history holds the system prompt it started
/// with, then for each exchange in turn the prompt as the user's message and
/// the reply's content as the system's: `1 + 2 * n` messages.
pub proof fn law_session_history(
    hs: Seq<Seq<Message>>,
    prompts: Seq<Seq<char>>,
    replies: Seq<Grok>,
)
    requires
        starts_session(hs[0]),
        session_recorded(hs, prompts, replies),
    ensures
        ({
            let last = hs[2 * prompts.len() as int];
            &&& last.len() == 1 + 2 * prompts.len()
            &&& last[0] == hs[0][0]
            &&& last[0].role@ == "system"@
            &&& last[0].content@ == "You are a helpful AI assistant"@
            &&& forall|k: int|
                0 <= k < prompts.len() ==> {
                    &&& (#[trigger] last[1 + 2 * k]).role@ == "user"@
                    &&& last[1 + 2 * k].content@ == prompts[k]
                    &&& last[2 + 2 * k].role@ == "system"@
                    &&& last[2 + 2 * k].content@ == reply_content(replies[k])
                }
        }),
{
    let n = prompts.len() as int;
    lemma_session_after(hs, prompts, replies, n);
    let last = hs[2 * n];
    assert(last[0] == last.take(1)[0]);
    assert forall|k: int| 0 <= k < n implies {
        &&& (#[trigger] last[1 + 2 * k]).role@ == "user"@
        &&& last[1 + 2 * k].content@ == prompts[k]
        &&& last[2 + 2 * k].role@ == "system"@
        &&& last[2 + 2 * k].content@ == reply_content(replies[k])
    } by {
        assert(hs[0].len() + 2 * k == 1 + 2 * k);
        assert(last[hs[0].len() + 2 * k] == last[1 + 2 * k]);
    }
}

} // verus!
