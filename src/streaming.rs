//! The consumer side of a streamed model reply: chunks as they arrive, the
//! text accumulated so far, and the statistics of the final chunk.
use vstd::prelude::*;
use crate::text::{push_str, string_of};

verus! {

/// Statistics that the final chunk carries. Speed is in thousandths of a
/// token per second.
#[derive(Debug, Clone, Copy)]
pub struct StreamStats {
    pub total_duration: u64,
    pub prompt_eval_count: u32,
    pub eval_count: u32,
    pub tokens_per_second_milli: u64,
}

/// One chunk of a streamed reply. Only the final one carries statistics.
#[derive(Debug, Clone)]
pub struct StreamChunkData {
    pub text: String,
    pub done: bool,
    pub stats: Option<StreamStats>,
}

/// Tokens per second, in thousandths, from a count and nanoseconds.
pub open spec fn speed_milli(eval_count: nat, eval_duration: nat) -> nat {
    if eval_duration > 0 { eval_count * 1_000_000_000_000 / eval_duration } else { 0 }
}

impl StreamStats {
    /// The statistics of a final chunk; the speed is zero where no time
    /// was measured.
    pub fn from_counts(total_duration: u64, prompt_eval_count: u32, eval_count: u32, eval_duration: u64) -> (r: StreamStats)
        ensures
            r.total_duration == total_duration,
            r.prompt_eval_count == prompt_eval_count,
            r.eval_count == eval_count,
            r.tokens_per_second_milli == sat64(speed_milli(eval_count as nat, eval_duration as nat)),
    {
        let tps: u64 = if eval_duration > 0 {
            let v: u128 = (eval_count as u128) * 1_000_000_000_000u128 / (eval_duration as u128);
            if v > u64::MAX as u128 { u64::MAX } else { v as u64 }
        } else {
            0
        };
        StreamStats { total_duration, prompt_eval_count, eval_count, tokens_per_second_milli: tps }
    }
}

pub open spec fn sat64(x: nat) -> nat {
    if x > u64::MAX { u64::MAX as nat } else { x }
}

/// What the channel gives: a chunk's text and final flag, or none where it
/// closed.
pub open spec fn chunk_view(c: Option<StreamChunkData>) -> Option<(Seq<char>, bool)> {
    match c {
        Some(k) => Some((k.text@, k.done)),
        None => None,
    }
}

/// The text and ended flag after taking one thing from the channel.
pub open spec fn stream_step(st: (Seq<char>, bool), received: Option<(Seq<char>, bool)>) -> (Seq<char>, bool) {
    if st.1 {
        st
    } else {
        match received {
            None => (st.0, true),
            Some((t, d)) => (st.0 + t, d),
        }
    }
}

/// The state after taking each of `events` in turn.
pub open spec fn stream_run(st: (Seq<char>, bool), events: Seq<Option<(Seq<char>, bool)>>) -> (Seq<char>, bool)
    decreases events.len(),
{
    if events.len() == 0 { st } else { stream_step(stream_run(st, events.drop_last()), events.last()) }
}

/// The texts of chunks, one after another.
pub open spec fn chunk_texts(cs: Seq<(Seq<char>, bool)>) -> Seq<char>
    decreases cs.len(),
{
    if cs.len() == 0 { Seq::empty() } else { chunk_texts(cs.drop_last()) + cs.last().0 }
}

pub open spec fn as_events(cs: Seq<(Seq<char>, bool)>) -> Seq<Option<(Seq<char>, bool)>> {
    cs.map_values(|c: (Seq<char>, bool)| Some(c))
}

proof fn lemma_run_chunks(a: Seq<char>, cs: Seq<(Seq<char>, bool)>)
    requires
        forall|i: int| 0 <= i < cs.len() ==> !(#[trigger] cs[i]).1,
    ensures
        stream_run((a, false), as_events(cs)) == (a + chunk_texts(cs), false),
    decreases cs.len(),
{
    if cs.len() == 0 {
        assert(a + Seq::<char>::empty() =~= a);
    } else {
        assert(as_events(cs).drop_last() =~= as_events(cs.drop_last()));
        lemma_run_chunks(a, cs.drop_last());
        assert(a + chunk_texts(cs.drop_last()) + cs.last().0 =~= a + chunk_texts(cs));
    }
}

proof fn lemma_run_ended(st: (Seq<char>, bool), ev: Seq<Option<(Seq<char>, bool)>>)
    requires
        st.1,
    ensures
        stream_run(st, ev) == st,
    decreases ev.len(),
{
    if ev.len() > 0 {
        lemma_run_ended(st, ev.drop_last());
    }
}

proof fn lemma_run_append(st: (Seq<char>, bool), e1: Seq<Option<(Seq<char>, bool)>>, e2: Seq<Option<(Seq<char>, bool)>>)
    ensures
        stream_run(st, e1 + e2) == stream_run(stream_run(st, e1), e2),
    decreases e2.len(),
{
    if e2.len() == 0 {
        assert(e1 + e2 =~= e1);
    } else {
        assert((e1 + e2).drop_last() =~= e1 + e2.drop_last());
        lemma_run_append(st, e1, e2.drop_last());
    }
}

/// When the channel closes before a final chunk, the text collected is
/// what came before plus every chunk's text, the stream has ended, and
/// nothing taken later changes it.
pub proof fn closed_mid_stream(a: Seq<char>, cs: Seq<(Seq<char>, bool)>, later: Seq<Option<(Seq<char>, bool)>>)
    requires
        forall|i: int| 0 <= i < cs.len() ==> !(#[trigger] cs[i]).1,
    ensures
        stream_run((a, false), as_events(cs).push(None) + later) == (a + chunk_texts(cs), true),
{
    lemma_run_chunks(a, cs);
    lemma_run_append((a, false), as_events(cs).push(None), later);
    assert(as_events(cs).push(None).drop_last() =~= as_events(cs));
    lemma_run_ended((a + chunk_texts(cs), true), later);
}

/// The reply as it streams in: the text so far, and whether the stream has
/// ended, by a final chunk or by the channel closing.
pub struct StreamingResponse {
    accumulated_text: String,
    ended: bool,
}

impl StreamingResponse {
    pub closed spec fn text(&self) -> Seq<char> {
        self.accumulated_text@
    }

    pub closed spec fn is_ended(&self) -> bool {
        self.ended
    }

    pub fn new() -> (r: StreamingResponse)
        ensures
            r.text().len() == 0,
            !r.is_ended(),
    {
        StreamingResponse { accumulated_text: String::new(), ended: false }
    }

    /// Takes what the channel gave: a chunk, or none where it closed. A
    /// chunk adds its text and is handed on; after the end, nothing more
    /// is taken and nothing is handed on.
    pub fn deliver(&mut self, received: Option<StreamChunkData>) -> (r: Option<StreamChunkData>)
        ensures
            (final(self).text(), final(self).is_ended()) == stream_step((old(self).text(), old(self).is_ended()), chunk_view(received)),
            old(self).is_ended() ==> r.is_none() && final(self).text() == old(self).text() && final(self).is_ended(),
            !old(self).is_ended() ==> match received {
                None => r.is_none() && final(self).text() == old(self).text() && final(self).is_ended(),
                Some(c) => r == Some(c) && final(self).text() == old(self).text() + c.text@
                    && final(self).is_ended() == c.done,
            },
    {
        if self.ended {
            return None;
        }
        match received {
            None => {
                self.ended = true;
                None
            },
            Some(c) => {
                let mut v = crate::text::chars_of(self.accumulated_text.as_str());
                push_str(&mut v, c.text.as_str());
                self.accumulated_text = string_of(v.as_slice());
                self.ended = c.done;
                Some(c)
            },
        }
    }

    /// The text received so far.
    pub fn accumulated(&self) -> (r: &str)
        ensures
            r@ == self.text(),
    {
        self.accumulated_text.as_str()
    }

    /// Whether the stream has ended.
    pub fn ended(&self) -> (r: bool)
        ensures
            r == self.is_ended(),
    {
        self.ended
    }

    /// The whole text, once the stream has ended.
    pub fn collect_all(&self) -> (r: String)
        ensures
            r@ == self.text(),
    {
        self.accumulated_text.clone()
    }
}

} // verus!
