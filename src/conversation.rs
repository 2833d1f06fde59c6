//! The conversation history, its token estimate, and its replacement by a
//! summary once the input budget is exceeded.
use vstd::prelude::*;
use crate::message::{
    copy_message, estimate_messages_tokens, estimate_tokens, messages_tokens, messages_view,
    saturate, text_message, text_tokens, text_view, Message, MessageView,
};
use crate::text::{has_prefix, same_text};

verus! {

/// The implicit system message sent before the history.
pub open spec fn system_prompt() -> Seq<char> {
    "You are a helpful assistant."@
}

/// The system message of a summarization request.
pub open spec fn summarizer_prompt() -> Seq<char> {
    "你是一个对话历史摘要助手。"@
}

/// The instruction that opens a summarization request.
pub open spec fn summary_instruction() -> Seq<char> {
    "请用中文总结以下对话内容，保留关键信息，便于后续继续对话：\n"@
}

/// The marker that opens the message which replaces a summarized history.
pub open spec fn summary_marker() -> Seq<char> {
    "[历史摘要] "@
}

/// The messages of a request: the system message, then the history.
pub open spec fn request_view(history: Seq<MessageView>) -> Seq<MessageView> {
    seq![text_view("system"@, system_prompt())] + history
}

/// The token estimate of a request built from `history`.
pub open spec fn request_tokens(history: Seq<MessageView>) -> nat {
    text_tokens(system_prompt().len()) + messages_tokens(history)
}

/// The transcript lines of a history: `role: text` for each text message of
/// the user or the assistant, in order.
pub open spec fn transcript_lines(history: Seq<MessageView>) -> Seq<Seq<char>>
    decreases history.len(),
{
    if history.len() == 0 {
        Seq::empty()
    } else {
        let init = transcript_lines(history.drop_last());
        match history.last() {
            MessageView::Simple { role, text } => if role == "user"@ || role == "assistant"@ {
                init.push(role + ": "@ + text)
            } else {
                init
            },
            MessageView::MultiModal { .. } => init,
        }
    }
}

/// Lines joined with newlines between them.
pub open spec fn join_lines(lines: Seq<Seq<char>>) -> Seq<char>
    decreases lines.len(),
{
    if lines.len() == 0 {
        Seq::empty()
    } else if lines.len() == 1 {
        lines[0]
    } else {
        join_lines(lines.drop_last()) + "\n"@ + lines.last()
    }
}

/// The two messages that ask for a summary of `history`.
pub open spec fn summary_request_view(history: Seq<MessageView>) -> Seq<MessageView> {
    seq![
        text_view("system"@, summarizer_prompt()),
        text_view("user"@, summary_instruction() + join_lines(transcript_lines(history))),
    ]
}

/// The history that replaces a summarized one.
pub open spec fn summarized_history(summary: Seq<char>) -> Seq<MessageView> {
    seq![text_view("user"@, summary_marker() + summary)]
}

/// The ordered message history of one session. The implicit system message
/// is not stored; it is put in front when a request is built.
pub struct Conversation {
    history: Vec<Message>,
}

impl View for Conversation {
    type V = Seq<MessageView>;

    closed spec fn view(&self) -> Seq<MessageView> {
        messages_view(self.history@)
    }
}

impl Conversation {
    /// An empty history.
    pub fn new() -> (r: Conversation)
        ensures
            r@ == Seq::<MessageView>::empty(),
    {
        let r = Conversation { history: Vec::new() };
        assert(r@ =~= Seq::<MessageView>::empty());
        r
    }

    /// The stored messages, oldest first.
    pub fn messages(&self) -> (r: &Vec<Message>)
        ensures
            messages_view(r@) == self@,
    {
        &self.history
    }

    /// The number of stored messages.
    pub fn len(&self) -> (r: usize)
        ensures
            r == self@.len(),
    {
        self.history.len()
    }

    /// Appends a message.
    pub fn append(&mut self, m: Message)
        ensures
            final(self)@ == old(self)@.push(m@),
    {
        self.history.push(m);
        assert(messages_view(self.history@) =~= messages_view(old(self).history@).push(m@));
    }

    /// Appends a text message with the given role.
    pub fn append_text(&mut self, role: &str, text: String)
        ensures
            final(self)@ == old(self)@.push(text_view(role@, text@)),
    {
        let m = text_message(role, text);
        self.append(m);
    }

    /// Empties the history.
    pub fn clear(&mut self)
        ensures
            final(self)@ == Seq::<MessageView>::empty(),
    {
        self.history.clear();
        assert(messages_view(self.history@) =~= Seq::<MessageView>::empty());
    }

    /// The messages of a chat request: the system message, then a copy of
    /// the history.
    pub fn request_messages(&self) -> (r: Vec<Message>)
        ensures
            messages_view(r@) == request_view(self@),
    {
        let mut out: Vec<Message> = Vec::new();
        out.push(text_message("system", String::from_str("You are a helpful assistant.")));
        let mut i: usize = 0;
        while i < self.history.len()
            invariant
                i <= self.history@.len(),
                messages_view(out@) == seq![text_view("system"@, system_prompt())] + messages_view(
                    self.history@,
                ).subrange(0, i as int),
            decreases self.history@.len() - i,
        {
            let ghost before = out@;
            out.push(copy_message(&self.history[i]));
            assert(messages_view(out@) =~= messages_view(before).push(self.history@[i as int]@));
            assert(messages_view(self.history@).subrange(0, i + 1) =~= messages_view(
                self.history@,
            ).subrange(0, i as int).push(self.history@[i as int]@));
            i = i + 1;
        }
        assert(messages_view(self.history@).subrange(0, self.history@.len() as int)
            =~= messages_view(self.history@));
        out
    }

    /// The token estimate of the next request: the system message and the
    /// whole history, saturated at `usize::MAX`.
    pub fn estimate_tokens(&self) -> (r: usize)
        ensures
            r == saturate(request_tokens(self@)),
    {
        let sys = estimate_tokens("You are a helpful assistant.");
        let rest = estimate_messages_tokens(&self.history);
        sys.saturating_add(rest)
    }

    /// Whether the next request would exceed the input budget, so that the
    /// history has to be summarized first.
    pub fn needs_summary(&self, budget: usize) -> (r: bool)
        ensures
            r == (saturate(request_tokens(self@)) > budget),
            budget < usize::MAX ==> r == (request_tokens(self@) > budget),
    {
        let t = self.estimate_tokens();
        proof {
            let n = request_tokens(self@);
            if n > usize::MAX {
                assert(t == usize::MAX);
            } else {
                assert(t as nat == n);
            }
        }
        t > budget
    }

    /// Starts a user turn: appends the input as a user message and says
    /// whether the next request would exceed `budget`, so that the history
    /// has to be summarized first.
    pub fn start_turn(&mut self, input: String, budget: usize) -> (r: bool)
        ensures
            final(self)@ == old(self)@.push(text_view("user"@, input@)),
            r == (saturate(request_tokens(final(self)@)) > budget),
    {
        self.append_text("user", input);
        self.needs_summary(budget)
    }

    /// Ends a summarization: a summary replaces the history; a failed one
    /// (`None`) leaves the history as it was.
    pub fn settle_summary(&mut self, summary: Option<&str>)
        ensures
            summary matches Some(s) ==> final(self)@ == summarized_history(s@),
            summary is None ==> final(self)@ == old(self)@,
    {
        match summary {
            Some(s) => self.replace_with_summary(s),
            None => {},
        }
    }

    /// The text that the summarizer is asked to condense: the user and
    /// assistant text messages as `role: text` lines.
    pub fn transcript(&self) -> (r: String)
        ensures
            r@ == join_lines(transcript_lines(self@)),
    {
        let mut out = String::new();
        let mut lines: usize = 0;
        let mut i: usize = 0;
        while i < self.history.len()
            invariant
                i <= self.history@.len(),
                out@ == join_lines(transcript_lines(messages_view(self.history@).subrange(0, i as int))),
                lines == transcript_lines(messages_view(self.history@).subrange(0, i as int)).len(),
                lines <= i,
            decreases self.history@.len() - i,
        {
            let ghost h = messages_view(self.history@);
            assert(h.subrange(0, i + 1).drop_last() =~= h.subrange(0, i as int));
            match &self.history[i] {
                Message::Simple { role, content } => {
                    if same_text(role.as_str(), "user") || same_text(role.as_str(), "assistant") {
                        if lines > 0 {
                            out.append("\n");
                        }
                        out.append(role.as_str());
                        out.append(": ");
                        out.append(content.as_str());
                        lines = lines + 1;
                        proof {
                            let prev = transcript_lines(h.subrange(0, i as int));
                            let line = role@ + ": "@ + content@;
                            if prev.len() == 0 {
                                assert(prev.push(line).len() == 1);
                                assert(prev.push(line)[0] == line);
                                assert(out@ =~= line);
                            } else {
                                assert(prev.push(line).drop_last() =~= prev);
                                assert(out@ =~= join_lines(prev) + "\n"@ + line);
                            }
                        }
                    }
                },
                Message::MultiModal { .. } => {},
            }
            i = i + 1;
        }
        assert(messages_view(self.history@).subrange(0, self.history@.len() as int)
            =~= messages_view(self.history@));
        out
    }

    /// The two messages of a summarization request over this history.
    pub fn summary_request(&self) -> (r: Vec<Message>)
        ensures
            messages_view(r@) == summary_request_view(self@),
    {
        let body = String::from_str("请用中文总结以下对话内容，保留关键信息，便于后续继续对话：\n");
        let t = self.transcript();
        let prompt = body.concat(t.as_str());
        let mut out: Vec<Message> = Vec::new();
        out.push(text_message("system", String::from_str("你是一个对话历史摘要助手。")));
        out.push(text_message("user", prompt));
        assert(messages_view(out@) =~= summary_request_view(self@));
        out
    }

    /// Replaces the whole history by one user message that holds the summary
    /// after the summary marker.
    pub fn replace_with_summary(&mut self, summary: &str)
        ensures
            final(self)@ == summarized_history(summary@),
    {
        self.clear();
        let text = String::from_str("[历史摘要] ").concat(summary);
        self.append_text("user", text);
        assert(final(self)@ =~= summarized_history(summary@));
    }
}

/// With an empty history the estimate is that of the system message alone.
pub proof fn lemma_empty_history_tokens()
    ensures
        request_tokens(Seq::empty()) == text_tokens(system_prompt().len()),
        messages_tokens(request_view(Seq::empty())) == text_tokens(system_prompt().len()),
{
    let r = request_view(Seq::empty());
    assert(r.drop_last() =~= Seq::<MessageView>::empty());
}

/// After a summary, the history holds exactly one message, a user message
/// whose text starts with the summary marker.
pub proof fn lemma_summary_leaves_one_message(summary: Seq<char>)
    ensures
        summarized_history(summary).len() == 1,
        summarized_history(summary)[0] matches MessageView::Simple { role, text } && role
            == "user"@ && has_prefix(text, summary_marker()),
{
    let text = summary_marker() + summary;
    assert(text.subrange(0, summary_marker().len() as int) =~= summary_marker());
}

} // verus!
