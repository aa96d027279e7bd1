//! The text-completion gateway: what is sent to the model, and how the JSON
//! payload is lifted out of its free-form reply.

use vstd::prelude::*;
use vstd::string::{StrSliceExecFns, StringExecFns};
use crate::text::{
    chars_of, find_from, first_match, joined, last_index_of, rfind_char, trim_window, trimmed,
};

verus! {

/// The interior of the first block of `text` that is fenced as `json` and
/// closed by a triple backtick, without surrounding whitespace.
pub open spec fn tagged_block(text: Seq<char>) -> Option<Seq<char>> {
    match first_match(text, "```json"@, 0) {
        Some(start) => match first_match(text, "```"@, start + "```json"@.len()) {
            Some(end) => Some(trimmed(text.subrange(start + "```json"@.len(), end))),
            None => None,
        },
        None => None,
    }
}

/// Whether a text starts like a JSON object or array.
pub open spec fn opens_json(s: Seq<char>) -> bool {
    s.len() > 0 && (s[0] == '{' || s[0] == '[')
}

/// The piece of `text` from its first `{` to its last `}`, if the two stand
/// in that order.
pub open spec fn brace_span(text: Seq<char>) -> Option<Seq<char>> {
    match (first_match(text, seq!['{'], 0), last_index_of(text, '}', text.len() as int)) {
        (Some(open), Some(close)) => if open <= close {
            Some(text.subrange(open, close + 1))
        } else {
            None
        },
        _ => None,
    }
}

/// The interior of the first fenced block at or after `from` that starts
/// like JSON, without surrounding whitespace. The blocks are taken one after
/// the other: each runs from a triple backtick to the next, and the search
/// for the following block starts behind the closing one.
pub open spec fn first_json_block(text: Seq<char>, from: int) -> Option<Seq<char>>
    decreases text.len() - from,
{
    match first_match(text, "```"@, from) {
        Some(open) => match first_match(text, "```"@, open + "```"@.len()) {
            Some(close) => {
                let inner = trimmed(text.subrange(open + "```"@.len(), close));
                let behind = close + "```"@.len();
                if opens_json(inner) {
                    Some(inner)
                } else if from < behind <= text.len() {
                    first_json_block(text, behind)
                } else {
                    None
                }
            },
            None => None,
        },
        None => None,
    }
}

/// The walk over the fenced blocks never stops short: behind a closing
/// fence lies a position of the text that is farther on than where the
/// search for the block began.
pub proof fn next_block_lies_behind(text: Seq<char>, from: int, open: int, close: int)
    requires
        0 <= from,
        first_match(text, "```"@, from) == Some(open),
        first_match(text, "```"@, open + "```"@.len()) == Some(close),
    ensures
        from < close + "```"@.len() <= text.len(),
{
    reveal_strlit("```");
    crate::text::first_match_is_least(text, "```"@, from);
    crate::text::first_match_is_least(text, "```"@, open + 3);
}

/// The JSON payload of a model reply. The first rule that applies decides:
/// a block fenced as `json`; the first fenced block whose interior starts
/// like JSON; the span from the first `{` to the last `}`; the whole reply.
pub open spec fn json_payload(text: Seq<char>) -> Seq<char> {
    let tagged = tagged_block(text);
    let fenced = first_json_block(text, 0);
    let braces = brace_span(text);
    if tagged is Some {
        tagged->0
    } else if fenced is Some {
        fenced->0
    } else if braces is Some {
        braces->0
    } else {
        text
    }
}

/// The bounds in `chars` of the interior of the block fenced as `json`.
fn tagged_span(chars: &Vec<char>) -> (span: Option<(usize, usize)>)
    ensures
        match span {
            Some((lo, hi)) => lo <= hi <= chars.len() && tagged_block(chars@) == Some(
                chars@.subrange(lo as int, hi as int),
            ),
            None => tagged_block(chars@) is None,
        },
{
    let open = chars_of("```json");
    let close = chars_of("```");
    match find_from(chars, &open, 0) {
        Some(start) => {
            let inner: usize = start + open.len();
            match find_from(chars, &close, inner) {
                Some(end) => Some(trim_window(chars, inner, end)),
                None => None,
            }
        },
        None => None,
    }
}

/// The bounds in `chars` of the interior of the first fenced block that
/// starts like JSON.
fn json_block_span(chars: &Vec<char>) -> (span: Option<(usize, usize)>)
    ensures
        match span {
            Some((lo, hi)) => lo <= hi <= chars.len() && first_json_block(chars@, 0) == Some(
                chars@.subrange(lo as int, hi as int),
            ),
            None => first_json_block(chars@, 0) is None,
        },
{
    let fence = chars_of("```");
    proof {
        reveal_strlit("```");
    }
    let mut from: usize = 0;
    loop
        invariant
            from <= chars.len(),
            fence@ == "```"@,
            fence@.len() == 3,
            first_json_block(chars@, 0) == first_json_block(chars@, from as int),
        decreases chars.len() - from,
    {
        let open: usize = match find_from(chars, &fence, from) {
            Some(open) => open,
            None => {
                return None;
            },
        };
        let inner: usize = open + fence.len();
        let close: usize = match find_from(chars, &fence, inner) {
            Some(close) => close,
            None => {
                return None;
            },
        };
        let (lo, hi) = trim_window(chars, inner, close);
        if lo < hi && (chars[lo] == '{' || chars[lo] == '[') {
            return Some((lo, hi));
        }
        from = close + fence.len();
    }
}

/// The bounds in `chars` of the span from the first `{` to the last `}`.
fn brace_bounds(chars: &Vec<char>) -> (span: Option<(usize, usize)>)
    ensures
        match span {
            Some((lo, hi)) => lo <= hi <= chars.len() && brace_span(chars@) == Some(
                chars@.subrange(lo as int, hi as int),
            ),
            None => brace_span(chars@) is None,
        },
{
    let mut brace: Vec<char> = Vec::new();
    brace.push('{');
    assert(brace@ =~= seq!['{']);
    match find_from(chars, &brace, 0) {
        Some(open) => match rfind_char(chars, '}') {
            Some(close) => {
                if open <= close {
                    Some((open, close + 1))
                } else {
                    None
                }
            },
            None => None,
        },
        None => None,
    }
}

/// Lifts the JSON payload out of a model reply that may wrap it in a fenced
/// block, among other fenced blocks, or in prose.
pub fn extract_json(text: &str) -> (json: &str)
    ensures
        json@ == json_payload(text@),
{
    let chars = chars_of(text);
    if let Some((lo, hi)) = tagged_span(&chars) {
        return text.substring_char(lo, hi);
    }
    if let Some((lo, hi)) = json_block_span(&chars) {
        return text.substring_char(lo, hi);
    }
    if let Some((lo, hi)) = brace_bounds(&chars) {
        return text.substring_char(lo, hi);
    }
    text
}

/// Where messages are sent.
pub const CLAUDE_API_URL: &'static str = "https://api.anthropic.com/v1/messages";

/// The version of the interface that the requests speak.
pub const API_VERSION: &'static str = "2023-06-01";

/// One turn of the conversation.
#[derive(Debug)]
pub struct Message {
    pub role: String,
    pub content: String,
}

/// The body of one request: which model answers, how much it may write, the
/// instructions, and the conversation.
#[derive(Debug)]
pub struct MessageRequest {
    pub model: String,
    pub max_tokens: u32,
    pub system: String,
    pub messages: Vec<Message>,
}

/// The settings under which requests are made.
pub struct ClaudeClient {
    api_key: String,
    model: String,
    max_tokens: u32,
}

impl ClaudeClient {
    /// The key that the requests present.
    pub closed spec fn api_key(&self) -> Seq<char> {
        self.api_key@
    }

    /// The model that answers.
    pub closed spec fn model(&self) -> Seq<char> {
        self.model@
    }

    /// How many tokens a reply may hold.
    pub closed spec fn max_tokens(&self) -> u32 {
        self.max_tokens
    }

    /// The settings for requests that present `api_key` to `model`.
    pub fn new(api_key: String, model: String, max_tokens: u32) -> (client: Self)
        ensures
            client.api_key() == api_key@,
            client.model() == model@,
            client.max_tokens() == max_tokens,
    {
        ClaudeClient { api_key, model, max_tokens }
    }

    /// The body of the request that puts one user message to the model.
    pub fn request(&self, system: &str, user_message: &str) -> (request: MessageRequest)
        ensures
            request.model@ == self.model(),
            request.max_tokens == self.max_tokens(),
            request.system@ == system@,
            request.messages@.len() == 1,
            request.messages@[0].role@ == "user"@,
            request.messages@[0].content@ == user_message@,
    {
        let mut messages: Vec<Message> = Vec::new();
        messages.push(Message { role: "user".to_owned(), content: user_message.to_owned() });
        MessageRequest {
            model: self.model.clone(),
            max_tokens: self.max_tokens,
            system: system.to_owned(),
            messages,
        }
    }

    /// The headers that go with a request: the key, then the version of the
    /// interface.
    pub fn headers(&self) -> (headers: Vec<(String, String)>)
        ensures
            headers@.len() == 2,
            headers@[0].0@ == "x-api-key"@,
            headers@[0].1@ == self.api_key(),
            headers@[1].0@ == "anthropic-version"@,
            headers@[1].1@ == API_VERSION@,
    {
        let mut headers: Vec<(String, String)> = Vec::new();
        headers.push(("x-api-key".to_owned(), self.api_key.clone()));
        headers.push(("anthropic-version".to_owned(), API_VERSION.to_owned()));
        headers
    }
}

/// Describes a reply that could not be read as the expected JSON: the
/// cause, and the reply as the model gave it.
pub fn parse_failure(cause: &str, raw: &str) -> (message: String)
    ensures
        message@ == "parse model JSON: "@ + cause@ + "\nraw: "@ + raw@,
{
    let mut message = String::from_str("parse model JSON: ");
    message.append(cause);
    message.append("\nraw: ");
    message.append(raw);
    message
}

/// The texts of the blocks that carry text, in order.
pub open spec fn texts_of(blocks: Seq<Option<String>>) -> Seq<Seq<char>>
    decreases blocks.len(),
{
    if blocks.len() == 0 {
        Seq::empty()
    } else {
        match blocks.last() {
            Some(text) => texts_of(blocks.drop_last()).push(text@),
            None => texts_of(blocks.drop_last()),
        }
    }
}

/// The text of a reply: its text blocks, one to a line.
pub fn reply_text(blocks: &Vec<Option<String>>) -> (text: String)
    ensures
        text@ == joined(texts_of(blocks@), "\n"@),
{
    let mut text = String::new();
    let mut any = false;
    let mut i: usize = 0;
    while i < blocks.len()
        invariant
            i <= blocks.len(),
            any == (texts_of(blocks@.take(i as int)).len() > 0),
            text@ == joined(texts_of(blocks@.take(i as int)), "\n"@),
        decreases blocks.len() - i,
    {
        proof {
            assert(blocks@.take(i + 1).drop_last() =~= blocks@.take(i as int));
        }
        match &blocks[i] {
            Some(block) => {
                let ghost earlier = texts_of(blocks@.take(i as int));
                if any {
                    text.append("\n");
                }
                text.append(block.as_str());
                proof {
                    let lines = earlier.push(block@);
                    assert(lines.drop_last() =~= earlier);
                    assert(text@ =~= joined(lines, "\n"@));
                }
                any = true;
            },
            None => {},
        }
        i += 1;
    }
    proof {
        assert(blocks@.take(i as int) =~= blocks@);
    }
    text
}

} // verus!
