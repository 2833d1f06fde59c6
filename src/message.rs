//! Chat messages, the character-based token estimate, and the model tables.
use vstd::prelude::*;
use crate::text::same_text;

verus! {

/// A conversational turn: plain text, or an ordered list of typed parts.
#[derive(Debug, Clone)]
#[allow(inconsistent_fields)]
pub enum Message {
    Simple { role: String, content: String },
    MultiModal { role: String, content: Vec<Content> },
}

/// One part of a multimodal message.
#[derive(Debug, Clone)]
pub enum Content {
    Text(TextContent),
    Image(ImageContent),
}

/// A text part; `content_type` is `text`.
#[derive(Debug, Clone)]
pub struct TextContent {
    pub content_type: String,
    pub text: String,
}

/// An image part; `content_type` is `image_url`.
#[derive(Debug, Clone)]
pub struct ImageContent {
    pub content_type: String,
    pub image_url: ImageUrl,
}

/// Where an image part's data is, usually a `data:` URL.
#[derive(Debug, Clone)]
pub struct ImageUrl {
    pub url: String,
}

/// The `response_format` field of a request; `format_type` is `json_object`
/// in JSON mode.
#[derive(Debug, Clone)]
pub struct ResponseFormat {
    pub format_type: String,
}

/// A whole (non-streamed) completion.
#[derive(Debug, Clone)]
pub struct ApiResponse {
    pub choices: Vec<Choice>,
}

/// One alternative of a completion.
#[derive(Debug, Clone)]
pub struct Choice {
    pub message: Message,
}

/// What a part holds: its type tag and its text or URL.
pub enum PartView {
    Text { kind: Seq<char>, text: Seq<char> },
    Image { kind: Seq<char>, url: Seq<char> },
}

/// What a message holds: its role and its text or parts.
pub enum MessageView {
    Simple { role: Seq<char>, text: Seq<char> },
    MultiModal { role: Seq<char>, parts: Seq<PartView> },
}

impl View for Content {
    type V = PartView;

    open spec fn view(&self) -> PartView {
        match self {
            Content::Text(t) => PartView::Text { kind: t.content_type@, text: t.text@ },
            Content::Image(im) => PartView::Image { kind: im.content_type@, url: im.image_url.url@ },
        }
    }
}

impl View for Message {
    type V = MessageView;

    open spec fn view(&self) -> MessageView {
        match self {
            Message::Simple { role, content } => MessageView::Simple {
                role: role@,
                text: content@,
            },
            Message::MultiModal { role, content } => MessageView::MultiModal {
                role: role@,
                parts: content@.map_values(|c: Content| c@),
            },
        }
    }
}

/// The views of a sequence of messages.
pub open spec fn messages_view(ms: Seq<Message>) -> Seq<MessageView> {
    ms.map_values(|m: Message| m@)
}

/// A text message as a view.
pub open spec fn text_view(role: Seq<char>, text: Seq<char>) -> MessageView {
    MessageView::Simple { role, text }
}

/// The token estimate of a text of `n` characters: one token per four
/// characters, plus one.
pub open spec fn text_tokens(n: nat) -> nat {
    n / 4 + 1
}

/// The token estimate of a sequence of parts: text parts count, images do not.
pub open spec fn parts_tokens(parts: Seq<PartView>) -> nat
    decreases parts.len(),
{
    if parts.len() == 0 {
        0
    } else {
        parts_tokens(parts.drop_last()) + match parts.last() {
            PartView::Text { text, .. } => text_tokens(text.len()),
            PartView::Image { .. } => 0,
        }
    }
}

/// The token estimate of one message.
pub open spec fn message_tokens(m: MessageView) -> nat {
    match m {
        MessageView::Simple { text, .. } => text_tokens(text.len()),
        MessageView::MultiModal { parts, .. } => parts_tokens(parts),
    }
}

/// The token estimate of a sequence of messages.
pub open spec fn messages_tokens(ms: Seq<MessageView>) -> nat
    decreases ms.len(),
{
    if ms.len() == 0 {
        0
    } else {
        messages_tokens(ms.drop_last()) + message_tokens(ms.last())
    }
}

/// `n`, or `usize::MAX` where `n` does not fit.
pub open spec fn saturate(n: nat) -> usize {
    if n > usize::MAX {
        usize::MAX
    } else {
        n as usize
    }
}

/// Heuristic token count of a text: its character count divided by four, plus one.
pub fn estimate_tokens(text: &str) -> (r: usize)
    ensures
        r == text_tokens(text@.len()),
{
    text.unicode_len() / 4 + 1
}

/// The token estimate of one message, saturated at `usize::MAX`.
pub fn estimate_message_tokens(m: &Message) -> (r: usize)
    ensures
        r == saturate(message_tokens(m@)),
{
    match m {
        Message::Simple { content, .. } => estimate_tokens(content.as_str()),
        Message::MultiModal { content, .. } => {
            let mut total: usize = 0;
            let mut i: usize = 0;
            while i < content.len()
                invariant
                    i <= content@.len(),
                    total == saturate(
                        parts_tokens(content@.map_values(|c: Content| c@).subrange(0, i as int)),
                    ),
                decreases content@.len() - i,
            {
                let part = match &content[i] {
                    Content::Text(t) => estimate_tokens(t.text.as_str()),
                    Content::Image(_) => 0,
                };
                let ghost pv = content@.map_values(|c: Content| c@);
                assert(pv.subrange(0, i + 1).drop_last() =~= pv.subrange(0, i as int));
                total = total.saturating_add(part);
                i = i + 1;
            }
            assert(content@.map_values(|c: Content| c@).subrange(0, content@.len() as int)
                =~= content@.map_values(|c: Content| c@));
            total
        },
    }
}

/// The token estimate of a sequence of messages, saturated at `usize::MAX`.
pub fn estimate_messages_tokens(ms: &Vec<Message>) -> (r: usize)
    ensures
        r == saturate(messages_tokens(messages_view(ms@))),
{
    let mut total: usize = 0;
    let mut i: usize = 0;
    while i < ms.len()
        invariant
            i <= ms@.len(),
            total == saturate(messages_tokens(messages_view(ms@).subrange(0, i as int))),
        decreases ms@.len() - i,
    {
        let t = estimate_message_tokens(&ms[i]);
        assert(messages_view(ms@).subrange(0, i + 1).drop_last() =~= messages_view(ms@).subrange(
            0,
            i as int,
        ));
        total = total.saturating_add(t);
        i = i + 1;
    }
    assert(messages_view(ms@).subrange(0, ms@.len() as int) =~= messages_view(ms@));
    total
}

/// A part equal to `c`.
pub fn copy_content(c: &Content) -> (r: Content)
    ensures
        r@ == c@,
{
    match c {
        Content::Text(t) => Content::Text(
            TextContent { content_type: t.content_type.clone(), text: t.text.clone() },
        ),
        Content::Image(im) => Content::Image(
            ImageContent {
                content_type: im.content_type.clone(),
                image_url: ImageUrl { url: im.image_url.url.clone() },
            },
        ),
    }
}

/// A message equal to `m`.
pub fn copy_message(m: &Message) -> (r: Message)
    ensures
        r@ == m@,
{
    match m {
        Message::Simple { role, content } => Message::Simple {
            role: role.clone(),
            content: content.clone(),
        },
        Message::MultiModal { role, content } => {
            let mut parts: Vec<Content> = Vec::new();
            let mut i: usize = 0;
            while i < content.len()
                invariant
                    i <= content@.len(),
                    parts@.map_values(|c: Content| c@) == content@.subrange(0, i as int).map_values(
                        |c: Content| c@,
                    ),
                decreases content@.len() - i,
            {
                let ghost before = parts@;
                parts.push(copy_content(&content[i]));
                assert(parts@.map_values(|c: Content| c@) =~= before.map_values(|c: Content| c@).push(
                    content@[i as int]@,
                ));
                assert(content@.subrange(0, i + 1).map_values(|c: Content| c@) =~= content@.subrange(
                    0,
                    i as int,
                ).map_values(|c: Content| c@).push(content@[i as int]@));
                i = i + 1;
            }
            assert(content@.subrange(0, content@.len() as int) =~= content@);
            Message::MultiModal { role: role.clone(), content: parts }
        },
    }
}

/// A text message with the given role.
pub fn text_message(role: &str, content: String) -> (r: Message)
    ensures
        r@ == text_view(role@, content@),
{
    Message::Simple { role: String::from_str(role), content }
}

/// The full model name that a command-line alias stands for.
pub open spec fn model_of_alias(alias: Seq<char>) -> Option<Seq<char>> {
    if alias == "r1"@ {
        Some("deepseek-r1"@)
    } else if alias == "chat"@ {
        Some("deepseek-chat"@)
    } else {
        None
    }
}

/// The full model name of a command-line alias: `r1` or `chat`.
pub fn map_model(model: &str) -> (r: Result<String, String>)
    ensures
        match r {
            Ok(s) => model_of_alias(model@) == Some(s@),
            Err(e) => model_of_alias(model@) is None && e@ == "Invalid model. Use 'r1' or 'chat'."@,
        },
{
    if same_text(model, "r1") {
        Ok(String::from_str("deepseek-r1"))
    } else if same_text(model, "chat") {
        Ok(String::from_str("deepseek-chat"))
    } else {
        Err(String::from_str("Invalid model. Use 'r1' or 'chat'."))
    }
}

/// The default output budget of a model.
pub open spec fn model_max_tokens(model: Seq<char>) -> u32 {
    if model == "deepseek-r1"@ {
        65536
    } else if model == "deepseek-chat"@ {
        8192
    } else {
        4096
    }
}

/// The default maximum output size of a model, in tokens.
pub fn get_model_max_tokens(model: &str) -> (r: u32)
    ensures
        r == model_max_tokens(model@),
{
    if same_text(model, "deepseek-r1") {
        65536
    } else if same_text(model, "deepseek-chat") {
        8192
    } else {
        4096
    }
}

/// The input budget shared by all models, in tokens.
pub const MAX_INPUT_TOKENS: usize = 65536;

/// The maximum input size of a model, in tokens; every model has the same.
pub fn get_model_max_input_tokens(model: &str) -> (r: usize)
    ensures
        r == MAX_INPUT_TOKENS,
{
    MAX_INPUT_TOKENS
}

} // verus!
