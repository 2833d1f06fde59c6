//! Decoding of a server-sent-event stream of chat completions.
//!
//! The transport hands over byte chunks that may split or merge lines at any
//! place. `SseDecoder` keeps the unconsumed tail in a buffer, cuts complete
//! lines off its front and turns each into at most one `StreamEvent`.
use vstd::prelude::*;
use crate::text::{
    decode_utf8_lossy, has_prefix, same_text, starts_with_str, trim_ws, trimmed, utf8_lossy,
};

verus! {

/// One decoded piece of a streamed reply: a text delta and, where the
/// provider sent one, the reason why generation stopped.
pub struct StreamEvent {
    pub text: String,
    pub finish_reason: Option<String>,
}

impl View for StreamEvent {
    type V = (Seq<char>, Option<Seq<char>>);

    open spec fn view(&self) -> (Seq<char>, Option<Seq<char>>) {
        (self.text@, self.finish_reason.deep_view())
    }
}

/// The views of a sequence of events.
pub open spec fn events_view(v: Seq<StreamEvent>) -> Seq<(Seq<char>, Option<Seq<char>>)> {
    v.map_values(|e: StreamEvent| e@)
}

/// The view of an optional event.
pub open spec fn opt_event_view(e: Option<StreamEvent>) -> Option<(Seq<char>, Option<Seq<char>>)> {
    match e {
        Some(ev) => Some(ev@),
        None => None,
    }
}

/// The event that `data: [DONE]` stands for: no text, finish reason `length`.
pub open spec fn terminal_event() -> (Seq<char>, Option<Seq<char>>) {
    (Seq::empty(), Some("length"@))
}

/// The string that the JSON Pointer `pointer` names in the JSON document
/// `text`, if `text` parses and a string stands there.
pub uninterp spec fn json_str_at(text: Seq<char>, pointer: Seq<char>) -> Option<Seq<char>>;

/// Relies on `serde_json::from_str` (into `serde_json::Value`),
/// `Value::pointer` and `Value::as_str`: looks up the string at `pointer`.
#[verifier::external_body]
fn lookup_json_str(text: &str, pointer: &str) -> (r: Option<String>)
    ensures
        r.deep_view() == json_str_at(text@, pointer@),
{
    let doc: serde_json::Value = serde_json::from_str(text).ok()?;
    doc.pointer(pointer)?.as_str().map(|s| s.to_string())
}

/// The event made of the three optional fields of a completion chunk:
/// `delta.content` is preferred, `message.content` is the fallback, and a
/// finish reason without text still makes an (empty) event.
pub open spec fn fields_event(
    delta: Option<Seq<char>>,
    message: Option<Seq<char>>,
    finish: Option<Seq<char>>,
) -> Option<(Seq<char>, Option<Seq<char>>)> {
    match delta {
        Some(d) => Some((d, finish)),
        None => match message {
            Some(m) => Some((m, finish)),
            None => match finish {
                Some(f) => Some((Seq::empty(), Some(f))),
                None => None,
            },
        },
    }
}

/// The event that a `data:` payload other than `[DONE]` yields.
pub open spec fn payload_event(p: Seq<char>) -> Option<(Seq<char>, Option<Seq<char>>)> {
    fields_event(
        json_str_at(p, "/choices/0/delta/content"@),
        json_str_at(p, "/choices/0/message/content"@),
        json_str_at(p, "/choices/0/finish_reason"@),
    )
}

/// Builds the event of a completion chunk from its three optional fields.
pub fn event_from_fields(
    delta: Option<String>,
    message: Option<String>,
    finish: Option<String>,
) -> (r: Option<StreamEvent>)
    ensures
        opt_event_view(r) == fields_event(delta.deep_view(), message.deep_view(), finish.deep_view()),
{
    match delta {
        Some(d) => Some(StreamEvent { text: d, finish_reason: finish }),
        None => match message {
            Some(m) => Some(StreamEvent { text: m, finish_reason: finish }),
            None => match finish {
                Some(f) => Some(StreamEvent { text: String::new(), finish_reason: Some(f) }),
                None => None,
            },
        },
    }
}

/// Decodes the JSON payload of one `data:` line; malformed JSON gives `None`.
pub fn decode_payload(data: &str) -> (r: Option<StreamEvent>)
    ensures
        opt_event_view(r) == payload_event(data@),
{
    let delta = lookup_json_str(data, "/choices/0/delta/content");
    let message = lookup_json_str(data, "/choices/0/message/content");
    let finish = lookup_json_str(data, "/choices/0/finish_reason");
    event_from_fields(delta, message, finish)
}

/// The text of a raw line: decoded lossily, white space trimmed.
pub open spec fn line_text(line: Seq<u8>) -> Seq<char> {
    trimmed(utf8_lossy(line))
}

/// The payload of an SSE text line, if it carries the `data: ` marker.
pub open spec fn sse_payload(t: Seq<char>) -> Option<Seq<char>> {
    if has_prefix(t, "data: "@) {
        Some(t.subrange("data: "@.len() as int, t.len() as int))
    } else {
        None
    }
}

/// The line is the end-of-stream marker `data: [DONE]`.
pub open spec fn line_is_done(line: Seq<u8>) -> bool {
    sse_payload(line_text(line)) == Some("[DONE]"@)
}

/// The event that a line other than the end marker yields, if any.
pub open spec fn line_event(line: Seq<u8>) -> Option<(Seq<char>, Option<Seq<char>>)> {
    match sse_payload(line_text(line)) {
        Some(p) => if p == "[DONE]"@ {
            None
        } else {
            payload_event(p)
        },
        None => None,
    }
}

/// What one complete line means to the decoder.
pub enum LineOutcome {
    /// Blank, not a `data:` line, or a payload that yields nothing.
    Skip,
    /// The end-of-stream marker.
    Done,
    /// A line that yields an event.
    Event(StreamEvent),
}

/// Classifies one complete line (its newline included or not).
pub fn classify_line(line: &[u8]) -> (r: LineOutcome)
    ensures
        r is Done <==> line_is_done(line@),
        r is Skip <==> !line_is_done(line@) && line_event(line@) is None,
        r matches LineOutcome::Event(e) ==> !line_is_done(line@) && line_event(line@) == Some(
            e@,
        ),
{
    let decoded = decode_utf8_lossy(line);
    let t = trim_ws(decoded.as_str());
    if !starts_with_str(t, "data: ") {
        return LineOutcome::Skip;
    }
    let n = t.unicode_len();
    let m = "data: ".unicode_len();
    let data = t.substring_char(m, n);
    if same_text(data, "[DONE]") {
        return LineOutcome::Done;
    }
    match decode_payload(data) {
        Some(e) => LineOutcome::Event(e),
        None => LineOutcome::Skip,
    }
}

/// The index of the first newline byte of `s`, or -1 where there is none.
pub open spec fn newline_at(s: Seq<u8>) -> int
    decreases s.len(),
{
    if s.len() == 0 {
        -1
    } else if s[0] == 10 {
        0
    } else {
        let k = newline_at(s.drop_first());
        if k < 0 {
            -1
        } else {
            k + 1
        }
    }
}

/// Drains every complete line from the front of `buf`: the tail left over,
/// whether the end marker was met, and the events in order. Nothing after
/// the end marker is read.
pub open spec fn process(buf: Seq<u8>) -> (Seq<u8>, bool, Seq<(Seq<char>, Option<Seq<char>>)>)
    decreases buf.len(),
{
    let k = newline_at(buf);
    if k < 0 || k >= buf.len() {
        (buf, false, Seq::empty())
    } else {
        let line = buf.subrange(0, k + 1);
        let after = buf.subrange(k + 1, buf.len() as int);
        if line_is_done(line) {
            (after, true, seq![terminal_event()])
        } else {
            let rest = process(after);
            match line_event(line) {
                Some(e) => (rest.0, rest.1, seq![e] + rest.2),
                None => rest,
            }
        }
    }
}

/// One chunk fed to a decoder whose buffer is `buf`: once finished, nothing
/// more is read or produced.
pub open spec fn step(buf: Seq<u8>, finished: bool, chunk: Seq<u8>) -> (
    Seq<u8>,
    bool,
    Seq<(Seq<char>, Option<Seq<char>>)>,
) {
    if finished {
        (buf, true, Seq::empty())
    } else {
        process(buf + chunk)
    }
}

/// Where the first newline of `s` is.
pub proof fn lemma_newline_at(s: Seq<u8>)
    ensures
        -1 <= newline_at(s) < s.len(),
        newline_at(s) >= 0 ==> s[newline_at(s)] == 10,
        forall|j: int|
            0 <= j < s.len() && (newline_at(s) < 0 || j < newline_at(s)) ==> s[j] != 10,
    decreases s.len(),
{
    if s.len() > 0 && s[0] != 10 {
        lemma_newline_at(s.drop_first());
        assert forall|j: int|
            0 <= j < s.len() && (newline_at(s) < 0 || j < newline_at(s)) implies s[j] != 10 by {
            if j > 0 {
                assert(s[j] == s.drop_first()[j - 1]);
            }
        }
    }
}

/// A byte sequence whose first newline is at `k`.
proof fn lemma_newline_is(s: Seq<u8>, k: int)
    requires
        -1 <= k < s.len(),
        k >= 0 ==> s[k] == 10,
        forall|j: int| 0 <= j < s.len() && (k < 0 || j < k) ==> s[j] != 10,
    ensures
        newline_at(s) == k,
{
    lemma_newline_at(s);
}

/// Draining `x + y` is draining `x`, then draining what is left of `x`
/// followed by `y`, unless `x` already held the end marker.
proof fn lemma_process_append(x: Seq<u8>, y: Seq<u8>)
    ensures
        process(x).1 ==> process(x + y).1 && process(x + y).2 == process(x).2,
        !process(x).1 ==> process(x + y) == ({
            let r = process(process(x).0 + y);
            (r.0, r.1, process(x).2 + r.2)
        }),
    decreases x.len(),
{
    let xy = x + y;
    lemma_newline_at(x);
    let k = newline_at(x);
    if k < 0 {
        assert(process(x).2 =~= Seq::empty());
        assert(process(x).0 == x);
        let r = process(x + y);
        assert(process(x).2 + r.2 =~= r.2);
    } else {
        lemma_newline_is(xy, k);
        let line = x.subrange(0, k + 1);
        assert(xy.subrange(0, k + 1) =~= line);
        let after = x.subrange(k + 1, x.len() as int);
        assert(xy.subrange(k + 1, xy.len() as int) =~= after + y);
        if !line_is_done(line) {
            lemma_process_append(after, y);
            if !process(after).1 {
                let r = process(process(after).0 + y);
                match line_event(line) {
                    Some(e) => {
                        assert(seq![e] + (process(after).2 + r.2) =~= (seq![e] + process(after).2)
                            + r.2);
                    },
                    None => {},
                }
            }
        }
    }
}

/// A complete `data: [DONE]` line yields exactly the terminal event and ends
/// the stream whatever bytes follow it; a finished decoder yields nothing
/// for any later chunk.
pub proof fn lemma_done_ends_stream(line: Seq<u8>, rest: Seq<u8>, chunk: Seq<u8>)
    requires
        line_is_done(line),
        line.len() > 0,
        line.last() == 10,
        forall|j: int| 0 <= j < line.len() - 1 ==> line[j] != 10,
    ensures
        process(line + rest) == (rest, true, seq![terminal_event()]),
        step(rest, true, chunk).2.len() == 0,
{
    let s = line + rest;
    lemma_newline_is(s, line.len() - 1);
    assert(s.subrange(0, line.len() as int) =~= line);
    assert(s.subrange(line.len() as int, s.len() as int) =~= rest);
}

/// The bytes of a sequence of chunks, one after another.
pub open spec fn joined(chunks: Seq<Seq<u8>>) -> Seq<u8>
    decreases chunks.len(),
{
    if chunks.len() == 0 {
        Seq::empty()
    } else {
        joined(chunks.drop_last()) + chunks.last()
    }
}

/// A fresh decoder fed `chunks` in order: its buffer, whether it finished,
/// and every event it produced.
pub open spec fn feed_all(chunks: Seq<Seq<u8>>) -> (
    Seq<u8>,
    bool,
    Seq<(Seq<char>, Option<Seq<char>>)>,
)
    decreases chunks.len(),
{
    if chunks.len() == 0 {
        (Seq::empty(), false, Seq::empty())
    } else {
        let prev = feed_all(chunks.drop_last());
        let next = step(prev.0, prev.1, chunks.last());
        (next.0, next.1, prev.2 + next.2)
    }
}

/// Feeding chunks one at a time decodes the same events as draining all of
/// their bytes at once.
pub proof fn lemma_feed_all_is_process(chunks: Seq<Seq<u8>>)
    ensures
        feed_all(chunks).1 == process(joined(chunks)).1,
        feed_all(chunks).2 == process(joined(chunks)).2,
        !feed_all(chunks).1 ==> feed_all(chunks).0 == process(joined(chunks)).0,
    decreases chunks.len(),
{
    if chunks.len() == 0 {
        assert(process(Seq::<u8>::empty()).2 =~= Seq::empty());
    } else {
        let init = chunks.drop_last();
        lemma_feed_all_is_process(init);
        lemma_process_append(joined(init), chunks.last());
        if feed_all(init).1 {
            assert(feed_all(init).2 + Seq::empty() =~= feed_all(init).2);
        }
    }
}

/// The decoded events do not depend on where the transport split the bytes:
/// two chunkings of the same transcript give the same events.
pub proof fn lemma_chunking_irrelevant(a: Seq<Seq<u8>>, b: Seq<Seq<u8>>)
    requires
        joined(a) == joined(b),
    ensures
        feed_all(a).2 == feed_all(b).2,
        feed_all(a).1 == feed_all(b).1,
{
    lemma_feed_all_is_process(a);
    lemma_feed_all_is_process(b);
}

/// The decode buffer of one stream: the bytes after the last complete line,
/// and whether the end marker has been seen.
pub struct SseDecoder {
    buffer: Vec<u8>,
    finished: bool,
}

impl View for SseDecoder {
    type V = (Seq<u8>, bool);

    closed spec fn view(&self) -> (Seq<u8>, bool) {
        (self.buffer@, self.finished)
    }
}

impl SseDecoder {
    /// A decoder with an empty buffer.
    pub fn new() -> (r: SseDecoder)
        ensures
            r@ == (Seq::<u8>::empty(), false),
    {
        SseDecoder { buffer: Vec::new(), finished: false }
    }

    /// Whether the end marker has been seen; no event follows it.
    pub fn is_finished(&self) -> (r: bool)
        ensures
            r == self@.1,
    {
        self.finished
    }

    /// Appends `chunk` to the buffer and drains every complete line from it,
    /// returning the events in order.
    pub fn feed(&mut self, chunk: &[u8]) -> (r: Vec<StreamEvent>)
        ensures
            step(old(self)@.0, old(self)@.1, chunk@) == (final(self)@.0, final(self)@.1, events_view(
                r@,
            )),
    {
        let mut out: Vec<StreamEvent> = Vec::new();
        if self.finished {
            assert(events_view(out@) =~= Seq::empty());
            return out;
        }
        self.buffer.extend_from_slice(chunk);
        let ghost total = self.buffer@;
        assert(total =~= old(self)@.0 + chunk@);
        let mut start: usize = 0;
        proof {
            assert(total.subrange(0, total.len() as int) =~= total);
            assert(events_view(out@) + process(total).2 =~= process(total).2);
        }
        loop
            invariant
                !self.finished,
                !old(self)@.1,
                total == old(self)@.0 + chunk@,
                self.buffer@ == total,
                start <= total.len(),
                process(total) == ({
                    let r = process(total.subrange(start as int, total.len() as int));
                    (r.0, r.1, events_view(out@) + r.2)
                }),
            decreases total.len() - start,
        {
            let len = self.buffer.len();
            let mut i: usize = start;
            while i < len && self.buffer[i] != 10u8
                invariant
                    self.buffer@ == total,
                    len == total.len(),
                    start <= i <= len,
                    forall|j: int| start <= j < i ==> total[j] != 10,
                decreases len - i,
            {
                i = i + 1;
            }
            let ghost rest = total.subrange(start as int, total.len() as int);
            if i == len {
                proof {
                    lemma_newline_is(rest, -1);
                    assert(process(rest).2 =~= Seq::empty());
                    assert(events_view(out@) + Seq::empty() =~= events_view(out@));
                }
                let tail = self.buffer.split_off(start);
                self.buffer = tail;
                return out;
            }
            proof {
                lemma_newline_is(rest, i - start);
                assert(rest.subrange(0, i - start + 1) =~= total.subrange(start as int, i + 1));
                assert(rest.subrange(i - start + 1, rest.len() as int) =~= total.subrange(
                    i + 1,
                    total.len() as int,
                ));
            }
            let line = vstd::slice::slice_subrange(self.buffer.as_slice(), start, i + 1);
            match classify_line(line) {
                LineOutcome::Done => {
                    let ghost before = out@;
                    self.finished = true;
                    out.push(StreamEvent { text: String::new(), finish_reason: Some(String::from_str("length")) });
                    let tail = self.buffer.split_off(i + 1);
                    self.buffer = tail;
                    proof {
                        assert(events_view(out@) =~= events_view(before) + seq![terminal_event()]);
                    }
                    return out;
                },
                LineOutcome::Event(e) => {
                    let ghost before = out@;
                    out.push(e);
                    proof {
                        let r = process(total.subrange(i + 1, total.len() as int));
                        assert(events_view(out@) =~= events_view(before) + seq![e@]);
                        assert(events_view(out@) + r.2 =~= events_view(before) + (seq![e@] + r.2));
                    }
                },
                LineOutcome::Skip => {},
            }
            start = i + 1;
        }
    }
}

} // verus!
