//! The decisions of a lazy stream of decoded events over a transport that
//! delivers byte chunks: yield what is decoded, ask for more input, or end.
//! The caller performs the reads; this state machine says what comes next.
use vstd::prelude::*;
use crate::sse::{events_view, step, SseDecoder, StreamEvent};

verus! {

/// What the consumer of a stream does next.
pub enum StreamStep {
    /// Hand this event to the consumer.
    Yield(StreamEvent),
    /// Read the next chunk from the transport.
    NeedChunk,
    /// The sequence is over.
    End,
}

/// A decoder, the events it produced that are not handed out yet, and
/// whether the transport is done (ended or failed).
pub struct StreamAdapter {
    decoder: SseDecoder,
    pending: Vec<StreamEvent>,
    closed: bool,
}

impl View for StreamAdapter {
    /// The decode buffer, whether the end marker was seen, the pending
    /// events, and whether the transport is done.
    type V = (Seq<u8>, bool, Seq<(Seq<char>, Option<Seq<char>>)>, bool);

    closed spec fn view(&self) -> (Seq<u8>, bool, Seq<(Seq<char>, Option<Seq<char>>)>, bool) {
        (self.decoder@.0, self.decoder@.1, events_view(self.pending@), self.closed)
    }
}

impl StreamAdapter {
    /// A stream before its first chunk.
    pub fn new() -> (r: StreamAdapter)
        ensures
            r@ == (Seq::<u8>::empty(), false, Seq::<(Seq<char>, Option<Seq<char>>)>::empty(), false),
    {
        let r = StreamAdapter { decoder: SseDecoder::new(), pending: Vec::new(), closed: false };
        assert(events_view(r.pending@) =~= Seq::empty());
        r
    }

    /// The next thing to do: hand out the oldest pending event; else end once
    /// the transport is done or the end marker was seen; else read a chunk.
    pub fn next_step(&mut self) -> (r: StreamStep)
        ensures
            old(self)@.2.len() > 0 ==> (r matches StreamStep::Yield(e) && e@ == old(self)@.2[0]),
            old(self)@.2.len() > 0 ==> final(self)@ == (
                old(self)@.0,
                old(self)@.1,
                old(self)@.2.drop_first(),
                old(self)@.3,
            ),
            old(self)@.2.len() == 0 ==> final(self)@ == old(self)@,
            old(self)@.2.len() == 0 ==> (r is End <==> old(self)@.1 || old(self)@.3),
            old(self)@.2.len() == 0 ==> (r is NeedChunk <==> !(old(self)@.1 || old(self)@.3)),
    {
        if self.pending.len() > 0 {
            let ghost before = self.pending@;
            let e = self.pending.remove(0);
            assert(events_view(self.pending@) =~= events_view(before).drop_first());
            StreamStep::Yield(e)
        } else if self.closed || self.decoder.is_finished() {
            StreamStep::End
        } else {
            StreamStep::NeedChunk
        }
    }

    /// Takes a chunk from the transport: its events join the pending ones.
    /// Once the transport is done, chunks are ignored.
    pub fn push_chunk(&mut self, chunk: &[u8])
        ensures
            old(self)@.3 ==> final(self)@ == old(self)@,
            !old(self)@.3 ==> ({
                let s = step(old(self)@.0, old(self)@.1, chunk@);
                final(self)@ == (s.0, s.1, old(self)@.2 + s.2, false)
            }),
    {
        if self.closed {
            return;
        }
        let mut events = self.decoder.feed(chunk);
        let ghost before = self.pending@;
        let ghost added = events@;
        self.pending.append(&mut events);
        assert(events_view(self.pending@) =~= events_view(before) + events_view(added));
    }

    /// The transport has no more bytes: what is pending is still handed out,
    /// and an unfinished last line is dropped.
    pub fn end_of_input(&mut self)
        ensures
            final(self)@ == (old(self)@.0, old(self)@.1, old(self)@.2, true),
    {
        self.closed = true;
    }

    /// The transport failed: the sequence ends after the error, with nothing
    /// more handed out.
    pub fn fail(&mut self)
        ensures
            final(self)@ == (old(self)@.0, old(self)@.1, Seq::<(Seq<char>, Option<Seq<char>>)>::empty(), true),
    {
        self.closed = true;
        self.pending.clear();
        assert(events_view(self.pending@) =~= Seq::empty());
    }
}

} // verus!
