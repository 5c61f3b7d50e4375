//! Delivery-mode decisions and the conversions between streamed and
//! complete responses.

use vstd::prelude::*;
use crate::config::StreamHandlingConfig;

verus! {

/// How the response reaches the client.
#[derive(Clone, Copy, Debug, PartialEq, Eq, Structural)]
pub enum ResponseShape {
    /// As the upstream delivers it.
    PassThrough,
    /// Incremental chunks cut from one complete upstream response.
    SynthesizeChunks,
    /// One response put together from all upstream chunks.
    Aggregate,
}

#[derive(Clone, Copy, Debug, PartialEq, Eq, Structural)]
pub struct StreamPlan {
    /// Whether the upstream call is a streaming one.
    pub upstream_stream: bool,
    pub shape: ResponseShape,
}

pub open spec fn stream_plan(client_stream: bool, fake_stream: bool, cfg: StreamHandlingConfig) -> StreamPlan {
    if client_stream {
        if fake_stream && cfg.enable_fake_streaming {
            StreamPlan { upstream_stream: false, shape: ResponseShape::SynthesizeChunks }
        } else {
            StreamPlan { upstream_stream: true, shape: ResponseShape::PassThrough }
        }
    } else if cfg.fake_non_stream {
        StreamPlan { upstream_stream: true, shape: ResponseShape::Aggregate }
    } else {
        StreamPlan { upstream_stream: false, shape: ResponseShape::PassThrough }
    }
}

/// Chooses the upstream delivery mode and the response shape. `fake_stream`
/// tells whether the model id carried the emulated-streaming marker.
pub fn decide_stream_mode(client_stream: bool, fake_stream: bool, cfg: &StreamHandlingConfig) -> (r:
    StreamPlan)
    ensures
        r == stream_plan(client_stream, fake_stream, *cfg),
{
    if client_stream {
        if fake_stream && cfg.enable_fake_streaming {
            StreamPlan { upstream_stream: false, shape: ResponseShape::SynthesizeChunks }
        } else {
            StreamPlan { upstream_stream: true, shape: ResponseShape::PassThrough }
        }
    } else if cfg.fake_non_stream {
        StreamPlan { upstream_stream: true, shape: ResponseShape::Aggregate }
    } else {
        StreamPlan { upstream_stream: false, shape: ResponseShape::PassThrough }
    }
}

/// Token usage reported by the upstream.
#[derive(Clone, Copy, Debug, PartialEq, Eq, Structural)]
pub struct Usage {
    pub input_tokens: u64,
    pub output_tokens: u64,
}

/// One chunk of a streamed upstream response.
pub struct Chunk {
    pub text: String,
    pub usage: Option<Usage>,
    pub stop_reason: Option<String>,
}

/// A complete response.
pub struct AggregatedResponse {
    pub text: String,
    pub usage: Option<Usage>,
    pub stop_reason: Option<String>,
}

/// The chunks' texts one after the other.
pub open spec fn joined_text(chunks: Seq<Chunk>) -> Seq<char>
    decreases chunks.len(),
{
    if chunks.len() == 0 {
        seq![]
    } else {
        joined_text(chunks.drop_last()) + chunks.last().text@
    }
}

/// Usage reported by an aggregate of `chunks`: that of the last chunk.
pub open spec fn aggregate_usage(chunks: Seq<Chunk>) -> Option<Usage> {
    if chunks.len() == 0 {
        None
    } else {
        chunks[chunks.len() - 1].usage
    }
}

/// Stop reason of an aggregate of `chunks`: that of the last chunk.
pub open spec fn aggregate_stop_reason(chunks: Seq<Chunk>) -> Option<String> {
    if chunks.len() == 0 {
        None
    } else {
        chunks[chunks.len() - 1].stop_reason
    }
}

/// Puts a streamed response together: the texts in order, and the usage and
/// stop reason of the last chunk.
pub fn aggregate_chunks(chunks: &Vec<Chunk>) -> (r: AggregatedResponse)
    ensures
        r.text@ == joined_text(chunks@),
        r.usage == aggregate_usage(chunks@),
        r.stop_reason == aggregate_stop_reason(chunks@),
{
    let mut text = String::new();
    let mut i: usize = 0;
    while i < chunks.len()
        invariant
            i <= chunks@.len(),
            text@ == joined_text(chunks@.subrange(0, i as int)),
        decreases chunks@.len() - i,
    {
        assert(chunks@.subrange(0, i + 1).drop_last() =~= chunks@.subrange(0, i as int));
        text.append(chunks[i].text.as_str());
        i += 1;
    }
    assert(chunks@.subrange(0, chunks@.len() as int) =~= chunks@);
    if chunks.len() == 0 {
        return AggregatedResponse { text, usage: None, stop_reason: None };
    }
    let last = &chunks[chunks.len() - 1];
    let stop_reason = match &last.stop_reason {
        Some(s) => Some(s.clone()),
        None => None,
    };
    AggregatedResponse { text, usage: last.usage, stop_reason }
}

/// A non-stream request under `fake_non_stream` is served by a streaming
/// upstream call whose chunks are aggregated, and for any non-empty chunk
/// sequence the aggregate carries exactly the usage and stop reason of the
/// last chunk, whatever the earlier chunks reported.
pub proof fn lemma_fake_non_stream_round_trip(
    cfg: StreamHandlingConfig,
    fake_stream: bool,
    chunks: Seq<Chunk>,
)
    requires
        cfg.fake_non_stream,
        chunks.len() > 0,
    ensures
        stream_plan(false, fake_stream, cfg) == (StreamPlan {
            upstream_stream: true,
            shape: ResponseShape::Aggregate,
        }),
        aggregate_usage(chunks) == chunks.last().usage,
        aggregate_stop_reason(chunks) == chunks.last().stop_reason,
        forall|earlier: Seq<Chunk>|
            aggregate_usage(#[trigger] (earlier + chunks)) == chunks.last().usage
                && aggregate_stop_reason(earlier + chunks) == chunks.last().stop_reason,
{
    assert forall|earlier: Seq<Chunk>|
        aggregate_usage(#[trigger] (earlier + chunks)) == chunks.last().usage
            && aggregate_stop_reason(earlier + chunks) == chunks.last().stop_reason by {
        assert((earlier + chunks)[(earlier + chunks).len() - 1] == chunks.last());
    }
}

/// Concatenation of a sequence of pieces.
pub open spec fn concat_pieces(pieces: Seq<Seq<char>>) -> Seq<char>
    decreases pieces.len(),
{
    if pieces.len() == 0 {
        seq![]
    } else {
        concat_pieces(pieces.drop_last()) + pieces.last()
    }
}

/// Cuts a complete response text into chunks of `size` characters (the last
/// one may be shorter) that, sent in order, make up the text.
pub fn synthesize_chunks(text: &str, size: usize) -> (r: Vec<String>)
    requires
        size > 0,
    ensures
        concat_pieces(r@.map_values(|s: String| s@)) == text@,
        forall|k: int| 0 <= k < r@.len() ==> 0 < (#[trigger] r@[k])@.len() <= size,
        forall|k: int| 0 <= k && k + 1 < r@.len() ==> (#[trigger] r@[k])@.len() == size,
{
    let t = crate::chars::chars_of(text);
    let n = t.len();
    let mut out: Vec<String> = Vec::new();
    let mut i: usize = 0;
    while i < n
        invariant
            i <= n == t@.len(),
            size > 0,
            t@ == text@,
            concat_pieces(out@.map_values(|s: String| s@)) == t@.subrange(0, i as int),
            forall|k: int| 0 <= k < out@.len() ==> 0 < (#[trigger] out@[k])@.len() <= size,
            forall|k: int|
                0 <= k < out@.len() && (k + 1 < out@.len() || i < n) ==> (#[trigger] out@[k])@.len()
                    == size,
        decreases n - i,
    {
        let end: usize = if n - i > size { i + size } else { n };
        let mut piece: Vec<char> = Vec::new();
        let mut j: usize = i;
        while j < end
            invariant
                i <= j <= end <= n == t@.len(),
                i < end,
                end - i <= size,
                end - i < size ==> end == n,
                piece@ =~= t@.subrange(i as int, j as int),
            decreases end - j,
        {
            piece.push(t[j]);
            j += 1;
        }
        let s = crate::chars::string_of(&piece);
        assert(s@.len() == end - i);
        assert(end - i < size ==> end == n);
        let ghost before = out@;
        out.push(s);
        assert(out@[out@.len() - 1] == s);
        assert(out@.map_values(|s: String| s@).drop_last() =~= before.map_values(|s: String| s@));
        assert(t@.subrange(0, end as int) =~= t@.subrange(0, i as int) + t@.subrange(i as int, end as int));
        i = end;
    }
    assert(t@.subrange(0, n as int) =~= t@);
    out
}

} // verus!
