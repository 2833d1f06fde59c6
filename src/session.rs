//! What the interactive loop decides from plain values: the meaning of an
//! input line, and the messages of single requests and attachments.
use vstd::prelude::*;
use base64::Engine;
use crate::message::{
    Content, ImageContent, ImageUrl, Message, MessageView, PartView, ResponseFormat, TextContent,
    messages_view, text_message, text_view,
};
use crate::text::{has_prefix, same_text, starts_with_str, trim_ws, trimmed};

verus! {

/// What one line typed by the user asks for.
pub enum InputCommand {
    /// Nothing but white space: ask again.
    Empty,
    /// `\q`: end the session.
    Quit,
    /// `\c`: forget the history.
    Clear,
    /// Anything else: a chat message, trimmed.
    Chat(String),
}

/// Reads one input line: it is trimmed, then `\q` quits, `\c` clears, an
/// empty line is ignored and anything else is a chat message.
pub fn parse_input(line: &str) -> (r: InputCommand)
    ensures
        ({
            let t = trimmed(line@);
            &&& r is Empty <==> t.len() == 0
            &&& r is Quit <==> t == "\\q"@
            &&& r is Clear <==> t == "\\c"@
            &&& r matches InputCommand::Chat(s) ==> s@ == t
        }),
{
    proof {
        reveal_strlit("\\q");
        reveal_strlit("\\c");
    }
    let t = trim_ws(line);
    assert("\\q"@.len() == 2 && "\\c"@.len() == 2 && "\\q"@ != "\\c"@) by {
        assert("\\q"@[1] != "\\c"@[1]);
    }
    if t.unicode_len() == 0 {
        InputCommand::Empty
    } else if same_text(t, "\\q") {
        InputCommand::Quit
    } else if same_text(t, "\\c") {
        InputCommand::Clear
    } else {
        InputCommand::Chat(String::from_str(t))
    }
}

/// The system prompt of a single request; JSON mode asks for JSON output.
pub open spec fn query_system_prompt(json_mode: bool) -> Seq<char> {
    if json_mode {
        "You are a helpful assistant. You must output your response in a valid JSON format."@
    } else {
        "You are a helpful assistant."@
    }
}

/// The system message of a single request.
pub fn system_message(json_mode: bool) -> (r: Message)
    ensures
        r@ == text_view("system"@, query_system_prompt(json_mode)),
{
    let prompt = if json_mode {
        String::from_str(
            "You are a helpful assistant. You must output your response in a valid JSON format.",
        )
    } else {
        String::from_str("You are a helpful assistant.")
    };
    text_message("system", prompt)
}

/// The messages of a single request: the system message and the query.
pub fn query_messages(query: &str, json_mode: bool) -> (r: Vec<Message>)
    ensures
        messages_view(r@) == seq![
            text_view("system"@, query_system_prompt(json_mode)),
            text_view("user"@, query@),
        ],
{
    let mut out: Vec<Message> = Vec::new();
    out.push(system_message(json_mode));
    out.push(text_message("user", String::from_str(query)));
    assert(messages_view(out@) =~= seq![
        text_view("system"@, query_system_prompt(json_mode)),
        text_view("user"@, query@),
    ]);
    out
}

/// The `response_format` of a request: `json_object` in JSON mode, none
/// otherwise.
pub fn response_format(json_mode: bool) -> (r: Option<ResponseFormat>)
    ensures
        json_mode <==> r is Some,
        r matches Some(f) ==> f.format_type@ == "json_object"@,
{
    if json_mode {
        Some(ResponseFormat { format_type: String::from_str("json_object") })
    } else {
        None
    }
}

/// The MIME type that `mime_guess` gives a path by its extension.
pub uninterp spec fn mime_of(path: Seq<char>) -> Seq<char>;

/// Relies on `mime_guess::from_path(..).first_or_octet_stream()`: the MIME
/// type of the path's extension, `application/octet-stream` when unknown.
#[verifier::external_body]
fn guess_mime(path: &str) -> (r: String)
    ensures
        r@ == mime_of(path@),
{
    mime_guess::from_path(path).first_or_octet_stream().to_string()
}

/// The standard padded base64 text of a byte sequence.
pub uninterp spec fn base64_of(b: Seq<u8>) -> Seq<char>;

/// Relies on `base64::engine::general_purpose::STANDARD.encode`: padded
/// base64, four characters for each started group of three bytes.
#[verifier::external_body]
fn encode_base64(b: &[u8]) -> (r: String)
    ensures
        r@ == base64_of(b@),
        r@.len() == 4 * ((b@.len() + 2) / 3),
{
    base64::engine::general_purpose::STANDARD.encode(b)
}

/// Whether an attachment is sent as an image (its MIME type is `image/...`);
/// other files are sent as text.
pub fn is_image_attachment(path: &str) -> (r: bool)
    ensures
        r == has_prefix(mime_of(path@), "image/"@),
{
    let mime = guess_mime(path);
    starts_with_str(mime.as_str(), "image/")
}

/// The `data:` URL of an image: its MIME type and its base64 text.
pub open spec fn data_url(mime: Seq<char>, b64: Seq<char>) -> Seq<char> {
    "data:"@ + mime + ";base64,"@ + b64
}

/// The parts of a message with an image attachment: the query, then the
/// image as a `data:` URL.
pub fn image_parts(query: &str, path: &str, data: &[u8]) -> (r: Vec<Content>)
    ensures
        r@.map_values(|c: Content| c@) == seq![
            PartView::Text { kind: "text"@, text: query@ },
            PartView::Image { kind: "image_url"@, url: data_url(mime_of(path@), base64_of(data@)) },
        ],
{
    let mime = guess_mime(path);
    let b64 = encode_base64(data);
    let url = String::from_str("data:").concat(mime.as_str()).concat(";base64,").concat(
        b64.as_str(),
    );
    let mut out: Vec<Content> = Vec::new();
    out.push(
        Content::Text(
            TextContent { content_type: String::from_str("text"), text: String::from_str(query) },
        ),
    );
    out.push(
        Content::Image(
            ImageContent {
                content_type: String::from_str("image_url"),
                image_url: ImageUrl { url },
            },
        ),
    );
    assert(out@.map_values(|c: Content| c@) =~= seq![
        PartView::Text { kind: "text"@, text: query@ },
        PartView::Image { kind: "image_url"@, url: data_url(mime_of(path@), base64_of(data@)) },
    ]);
    out
}

/// The part of a message with a text attachment: the query, a heading, and
/// the file's text.
pub fn text_file_parts(query: &str, file_text: &str) -> (r: Vec<Content>)
    ensures
        r@.map_values(|c: Content| c@) == seq![
            PartView::Text { kind: "text"@, text: query@ + "\n\n文件内容:\n"@ + file_text@ },
        ],
{
    let text = String::from_str(query).concat("\n\n文件内容:\n").concat(file_text);
    let mut out: Vec<Content> = Vec::new();
    out.push(Content::Text(TextContent { content_type: String::from_str("text"), text }));
    assert(out@.map_values(|c: Content| c@) =~= seq![
        PartView::Text { kind: "text"@, text: query@ + "\n\n文件内容:\n"@ + file_text@ },
    ]);
    out
}

/// The messages of a request with an attachment: the system message, then
/// one user message made of `parts`.
pub fn attachment_messages(parts: Vec<Content>, json_mode: bool) -> (r: Vec<Message>)
    ensures
        messages_view(r@) == seq![
            text_view("system"@, query_system_prompt(json_mode)),
            MessageView::MultiModal { role: "user"@, parts: parts@.map_values(|c: Content| c@) },
        ],
{
    let mut out: Vec<Message> = Vec::new();
    out.push(system_message(json_mode));
    let ghost pv = parts@.map_values(|c: Content| c@);
    out.push(Message::MultiModal { role: String::from_str("user"), content: parts });
    assert(messages_view(out@) =~= seq![
        text_view("system"@, query_system_prompt(json_mode)),
        MessageView::MultiModal { role: "user"@, parts: pv },
    ]);
    out
}

} // verus!
