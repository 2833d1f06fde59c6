//! The decisions of one user turn: collecting a streamed reply, judging
//! whether it was cut off, and asking for more at most a fixed number of
//! times.
use vstd::prelude::*;
use crate::conversation::Conversation;
use crate::message::text_view;
use crate::sse::StreamEvent;
use crate::text::{ends_with_str, has_suffix, is_white_space, same_text, trim_ws, trimmed};

verus! {

/// The number of automatic continuations allowed in one user turn.
pub const MAX_AUTO_CONTINUE: usize = 5;

/// The reply stops on a connector that leaves the thought open.
pub open spec fn ends_open(t: Seq<char>) -> bool {
    ||| has_suffix(t, "（"@)
    ||| has_suffix(t, "("@)
    ||| has_suffix(t, "、"@)
    ||| has_suffix(t, "，"@)
    ||| has_suffix(t, "："@)
    ||| has_suffix(t, "-"@)
    ||| has_suffix(t, "**"@)
}

/// The reply ends a sentence.
pub open spec fn ends_sentence(t: Seq<char>) -> bool {
    ||| has_suffix(t, "。"@)
    ||| has_suffix(t, "！"@)
    ||| has_suffix(t, "？"@)
}

/// The trimmed reply ends on an open connector, or is longer than 100
/// characters and does not end a sentence.
pub open spec fn looks_truncated(reply: Seq<char>) -> bool {
    let t = trimmed(reply);
    ends_open(t) || (t.len() > 100 && !ends_sentence(t))
}

/// Whether a reply asks for a continuation: an explicit finish reason decides
/// (`length` means cut off); without one the heuristic does.
pub open spec fn wants_continuation(reply: Seq<char>, reason: Option<Seq<char>>) -> bool {
    match reason {
        Some(r) => r == "length"@,
        None => looks_truncated(reply),
    }
}

/// Whether another continuation may follow `count` earlier ones.
pub open spec fn may_continue(count: nat, wants: bool) -> bool {
    wants && count < MAX_AUTO_CONTINUE
}

/// Whether a reply without a finish reason looks cut off.
pub fn reply_looks_truncated(reply: &str) -> (r: bool)
    ensures
        r == looks_truncated(reply@),
{
    let t = trim_ws(reply);
    if ends_with_str(t, "（") || ends_with_str(t, "(") || ends_with_str(t, "、") || ends_with_str(
        t,
        "，",
    ) || ends_with_str(t, "：") || ends_with_str(t, "-") || ends_with_str(t, "**") {
        return true;
    }
    t.unicode_len() > 100 && !(ends_with_str(t, "。") || ends_with_str(t, "！") || ends_with_str(
        t,
        "？",
    ))
}

/// Whether a reply should be continued, given the last finish reason seen.
pub fn should_continue(reply: &str, finish_reason: &Option<String>) -> (r: bool)
    ensures
        r == wants_continuation(reply@, finish_reason.deep_view()),
{
    match finish_reason {
        Some(reason) => same_text(reason.as_str(), "length"),
        None => reply_looks_truncated(reply),
    }
}

/// How a stream request ended.
pub enum StreamOutcome {
    /// The stream was read to its end.
    Completed,
    /// The stream broke off with a transport error.
    StreamFailed,
    /// The request itself failed; no stream was opened.
    RequestFailed,
}

/// What the session does after a stream.
#[derive(PartialEq, Eq, Structural, Debug, Clone, Copy)]
pub enum TurnDecision {
    /// Request a continuation with the updated history.
    Continue,
    /// The turn is over; wait for the next user input.
    Stop,
}

/// The state of one user turn: the reply collected from the current stream,
/// the last non-empty finish reason seen in it, and how many automatic
/// continuations have been requested.
pub struct ReplyTurn {
    reply: String,
    last_reason: Option<String>,
    continuations: usize,
}

impl View for ReplyTurn {
    type V = (Seq<char>, Option<Seq<char>>, nat);

    closed spec fn view(&self) -> (Seq<char>, Option<Seq<char>>, nat) {
        (self.reply@, self.last_reason.deep_view(), self.continuations as nat)
    }
}

/// The reason kept after an event: a non-empty one replaces the earlier.
pub open spec fn next_reason(last: Option<Seq<char>>, reason: Option<Seq<char>>) -> Option<
    Seq<char>,
> {
    match reason {
        Some(r) => if r.len() > 0 {
            Some(r)
        } else {
            last
        },
        None => last,
    }
}

impl ReplyTurn {
    /// A turn before its first stream.
    pub fn new() -> (r: ReplyTurn)
        ensures
            r@ == (Seq::<char>::empty(), None::<Seq<char>>, 0nat),
    {
        ReplyTurn { reply: String::new(), last_reason: None, continuations: 0 }
    }

    /// The reply collected from the current stream.
    pub fn reply(&self) -> (r: &str)
        ensures
            r@ == self@.0,
    {
        self.reply.as_str()
    }

    /// The last non-empty finish reason of the current stream.
    pub fn last_reason(&self) -> (r: &Option<String>)
        ensures
            r.deep_view() == self@.1,
    {
        &self.last_reason
    }

    /// How many automatic continuations this turn has requested.
    pub fn continuations(&self) -> (r: usize)
        ensures
            r == self@.2,
    {
        self.continuations
    }

    /// Takes one decoded event: its text is appended to the reply, and a
    /// non-empty finish reason replaces the one kept.
    pub fn record(&mut self, event: StreamEvent)
        ensures
            final(self)@ == (old(self)@.0 + event@.0, next_reason(old(self)@.1, event@.1), old(
                self,
            )@.2),
    {
        self.reply.append(event.text.as_str());
        match event.finish_reason {
            Some(r) => {
                if r.unicode_len() > 0 {
                    self.last_reason = Some(r);
                }
            },
            None => {},
        }
    }

    /// Ends the current stream. Unless the request failed, the reply is added
    /// to the history as an assistant message, partial or not. A completed
    /// stream that wants more, within the cap, adds a user request to go on,
    /// resets the reply and counts the continuation.
    pub fn finish(&mut self, conv: &mut Conversation, outcome: StreamOutcome) -> (r: TurnDecision)
        ensures
            old(self)@.2 <= MAX_AUTO_CONTINUE ==> final(self)@.2 <= MAX_AUTO_CONTINUE,
            outcome is RequestFailed ==> r == TurnDecision::Stop && final(conv)@ == old(conv)@
                && final(self)@ == old(self)@,
            !(outcome is RequestFailed) ==> ({
                let with_reply = old(conv)@.push(text_view("assistant"@, old(self)@.0));
                let go = outcome is Completed && may_continue(
                    old(self)@.2,
                    wants_continuation(old(self)@.0, old(self)@.1),
                );
                &&& (r == TurnDecision::Continue) == go
                &&& go ==> final(conv)@ == with_reply.push(text_view("user"@, "请继续"@))
                    && final(self)@ == (Seq::<char>::empty(), None::<Seq<char>>, old(self)@.2 + 1)
                &&& !go ==> final(conv)@ == with_reply && final(self)@ == old(self)@
            }),
    {
        match outcome {
            StreamOutcome::RequestFailed => {
                return TurnDecision::Stop;
            },
            _ => {},
        }
        conv.append_text("assistant", self.reply.clone());
        let completed = match outcome {
            StreamOutcome::Completed => true,
            _ => false,
        };
        if completed && self.continuations < MAX_AUTO_CONTINUE && should_continue(
            self.reply.as_str(),
            &self.last_reason,
        ) {
            self.continuations = self.continuations + 1;
            conv.append_text("user", String::from_str("请继续"));
            self.reply = String::new();
            self.last_reason = None;
            TurnDecision::Continue
        } else {
            TurnDecision::Stop
        }
    }
}

/// The number of continuations over a turn whose streams, in order, signal
/// `wants`: each may go on only while the cap is not reached.
pub open spec fn continuation_count(wants: Seq<bool>) -> nat
    decreases wants.len(),
{
    if wants.len() == 0 {
        0
    } else {
        let c = continuation_count(wants.drop_last());
        if may_continue(c, wants.last()) {
            c + 1
        } else {
            c
        }
    }
}

/// However the streams of a turn signal, a turn gets at most
/// `MAX_AUTO_CONTINUE` continuations; if every stream signals truncation it
/// gets exactly that many once there were enough streams.
pub proof fn lemma_continuations_capped(wants: Seq<bool>)
    ensures
        continuation_count(wants) <= MAX_AUTO_CONTINUE,
        (forall|i: int| 0 <= i < wants.len() ==> wants[i]) ==> continuation_count(wants) == if wants.len()
            < MAX_AUTO_CONTINUE {
            wants.len()
        } else {
            MAX_AUTO_CONTINUE as nat
        },
    decreases wants.len(),
{
    if wants.len() > 0 {
        let init = wants.drop_last();
        lemma_continuations_capped(init);
        if forall|i: int| 0 <= i < wants.len() ==> wants[i] {
            assert(forall|i: int| 0 <= i < init.len() ==> init[i] == wants[i]);
            assert(wants.last() == wants[wants.len() - 1]);
        }
    }
}

/// The last character of a non-empty sequence survives trimming when it is
/// not white space, and trimming never lengthens.
proof fn lemma_trim_keeps_last(s: Seq<char>)
    requires
        s.len() > 0,
        !is_white_space(s.last()),
    ensures
        trimmed(s).len() > 0,
        trimmed(s).len() <= s.len(),
        trimmed(s).last() == s.last(),
        trimmed(s) == crate::text::trim_start_ws(s),
    decreases s.len(),
{
    if is_white_space(s[0]) {
        let t = s.drop_first();
        assert(t.len() > 0);
        assert(t.last() == s.last());
        lemma_trim_keeps_last(t);
    }
}

/// A reply ending in a full-width comma (and no finish reason) is continued;
/// one ending in a full stop within 100 characters is not.
pub proof fn lemma_heuristic_examples(reply: Seq<char>)
    ensures
        reply.len() > 0 && reply.last() == '，' ==> wants_continuation(reply, None),
        reply.len() > 0 && reply.len() <= 100 && reply.last() == '。' ==> !wants_continuation(
            reply,
            None,
        ),
{
    reveal_strlit("（");
    reveal_strlit("(");
    reveal_strlit("、");
    reveal_strlit("，");
    reveal_strlit("：");
    reveal_strlit("-");
    reveal_strlit("**");
    reveal_strlit("。");
    if reply.len() > 0 && (reply.last() == '，' || reply.last() == '。') {
        lemma_trim_keeps_last(reply);
        let t = trimmed(reply);
        assert(t.subrange(t.len() - 1, t.len() as int) =~= seq![t.last()]);
        if reply.last() == '。' {
            assert(t.subrange(t.len() - 1, t.len() as int) =~= "。"@);
            assert(!ends_open(t)) by {
                let last = t.subrange(t.len() - 1, t.len() as int);
                assert(has_suffix(t, "（"@) ==> last[0] == '（');
                assert(has_suffix(t, "("@) ==> last[0] == '(');
                assert(has_suffix(t, "、"@) ==> last[0] == '、');
                assert(has_suffix(t, "，"@) ==> last[0] == '，');
                assert(has_suffix(t, "："@) ==> last[0] == '：');
                assert(has_suffix(t, "-"@) ==> last[0] == '-');
                assert(last[0] == '。');
                if has_suffix(t, "**"@) {
                    assert(t.subrange(t.len() - 2, t.len() as int)[1] == t.last());
                }
            }
        } else {
            assert(t.subrange(t.len() - 1, t.len() as int) =~= "，"@);
        }
    }
}

} // verus!
