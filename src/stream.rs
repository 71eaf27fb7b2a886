//! A stream of event lines turned into chunks: exactly one terminal chunk,
//! and nothing after it.
use vstd::prelude::*;

use crate::json::decoded_json;
use crate::providers::{ChunkModel, FunctionCallDelta, StreamingResponse};
use crate::tags::{body_calls, lemma_run_concat, lemma_visible_text_has_no_tags, run, start_state, tag_free, ToolTagFilter};
use crate::sse::{
    anthropic_chunk, anthropic_line, content_of, openai_chunk, openai_line, payload_of,
    stop_chunk,
};

verus! {

/// The wire format of a hosted backend's event stream.
#[derive(Clone, Copy, Debug, PartialEq, Eq, Structural)]
pub enum WireFormat {
    OpenAi,
    Anthropic,
}

/// The chunk that one event line of `format` gives.
pub open spec fn line_chunk(format: WireFormat, line: Seq<char>) -> ChunkModel {
    match format {
        WireFormat::OpenAi => openai_chunk(line),
        WireFormat::Anthropic => anthropic_chunk(line),
    }
}

/// Whether a terminal chunk has been emitted once `lines` were read.
pub open spec fn finished_after(format: WireFormat, lines: Seq<Seq<char>>) -> bool
    decreases lines.len(),
{
    if lines.len() == 0 {
        false
    } else {
        finished_after(format, lines.drop_last()) || line_chunk(format, lines.last()).finish_reason is Some
    }
}

/// The chunks emitted for `lines`: one per line up to and including the
/// first terminal chunk, none after it.
pub open spec fn emitted(format: WireFormat, lines: Seq<Seq<char>>) -> Seq<ChunkModel>
    decreases lines.len(),
{
    if lines.len() == 0 {
        Seq::empty()
    } else if finished_after(format, lines.drop_last()) {
        emitted(format, lines.drop_last())
    } else {
        emitted(format, lines.drop_last()).push(line_chunk(format, lines.last()))
    }
}

/// The text deltas of `chunks`, joined in order.
pub open spec fn joined_deltas(chunks: Seq<ChunkModel>) -> Seq<char>
    decreases chunks.len(),
{
    if chunks.len() == 0 {
        Seq::empty()
    } else {
        joined_deltas(chunks.drop_last()) + chunks.last().delta
    }
}

/// The `delta.content` text of an event line that carries a JSON document.
pub open spec fn line_content(line: Seq<char>) -> Seq<char> {
    content_of(decoded_json(payload_of(line)->0)->0)
}

/// The `delta.content` texts of `lines`, joined in order.
pub open spec fn joined_contents(lines: Seq<Seq<char>>) -> Seq<char>
    decreases lines.len(),
{
    if lines.len() == 0 {
        Seq::empty()
    } else {
        joined_contents(lines.drop_last()) + line_content(lines.last())
    }
}

/// A line that carries an OpenAI-style JSON document.
pub open spec fn is_data_frame(line: Seq<char>) -> bool {
    &&& payload_of(line) is Some
    &&& payload_of(line)->0 != "[DONE]"@
    &&& decoded_json(payload_of(line)->0) is Some
}

/// A line that carries an OpenAI-style JSON document with no finish reason.
pub open spec fn is_content_frame(line: Seq<char>) -> bool {
    is_data_frame(line) && openai_chunk(line).finish_reason is None
}

/// A well-formed OpenAI-style stream: data frames, of which only the last
/// may carry a finish reason; then `data: [DONE]`.
pub open spec fn well_formed_openai(lines: Seq<Seq<char>>) -> bool {
    &&& lines.len() > 0
    &&& lines.last() == "data: "@ + "[DONE]"@
    &&& forall|i: int| 0 <= i < lines.len() - 2 ==> is_content_frame(#[trigger] lines[i])
    &&& lines.len() >= 2 ==> is_data_frame(lines[lines.len() - 2])
}

/// The text of each line.
pub open spec fn line_texts(lines: Seq<String>) -> Seq<Seq<char>> {
    lines.map_values(|s: String| s@)
}

/// The model of each chunk.
pub open spec fn chunk_models(chunks: Seq<StreamingResponse>) -> Seq<ChunkModel> {
    chunks.map_values(|c: StreamingResponse| c@)
}

/// Turns the event lines of one response into chunks, in order.
pub struct StreamNormalizer {
    pub format: WireFormat,
    pub finished: bool,
}

impl StreamNormalizer {
    /// A normalizer at the start of a stream.
    pub fn new(format: WireFormat) -> (r: StreamNormalizer)
        ensures
            r.format == format,
            !r.finished,
    {
        StreamNormalizer { format, finished: false }
    }

    /// The chunk for the next event line; `None` once the stream has ended.
    pub fn push_line(&mut self, line: &str) -> (r: Option<StreamingResponse>)
        ensures
            final(self).format == old(self).format,
            old(self).finished ==> r is None && final(self).finished,
            !old(self).finished ==> r is Some && r->0@ == line_chunk(old(self).format, line@)
                && final(self).finished == (r->0@.finish_reason is Some),
    {
        if self.finished {
            return None;
        }
        let chunk = match self.format {
            WireFormat::OpenAi => openai_line(line),
            WireFormat::Anthropic => anthropic_line(line),
        };
        self.finished = chunk.is_terminal();
        Some(chunk)
    }
}

/// The chunks of a whole stream of event lines.
pub fn normalize_lines(format: WireFormat, lines: &Vec<String>) -> (r: Vec<StreamingResponse>)
    ensures
        chunk_models(r@) == emitted(format, line_texts(lines@)),
{
    let mut n = StreamNormalizer::new(format);
    let mut out: Vec<StreamingResponse> = Vec::new();
    let mut i: usize = 0;
    while i < lines.len()
        invariant
            i <= lines@.len(),
            n.format == format,
            n.finished == finished_after(format, line_texts(lines@.subrange(0, i as int))),
            chunk_models(out@) == emitted(format, line_texts(lines@.subrange(0, i as int))),
        decreases lines@.len() - i,
    {
        let ghost before = line_texts(lines@.subrange(0, i as int));
        let ghost after = line_texts(lines@.subrange(0, i + 1));
        proof {
            assert(after.drop_last() =~= before);
            assert(after.last() == lines@[i as int]@);
        }
        let ghost prev = out@;
        let c = n.push_line(lines[i].as_str());
        match c {
            Some(chunk) => {
                out.push(chunk);
                proof {
                    assert(out@.drop_last() =~= prev);
                    assert(chunk_models(out@) =~= chunk_models(prev).push(out@.last()@));
                }
            },
            None => {},
        }
        i = i + 1;
    }
    assert(lines@.subrange(0, lines@.len() as int) =~= lines@);
    out
}

/// A prefix made of data frames without a finish reason has emitted one
/// non-terminal chunk per line, carrying the lines' contents.
proof fn lemma_content_prefix(lines: Seq<Seq<char>>, k: int)
    requires
        0 <= k <= lines.len(),
        forall|i: int| 0 <= i < k ==> is_content_frame(#[trigger] lines[i]),
    ensures
        emitted(WireFormat::OpenAi, lines.subrange(0, k)).len() == k,
        !finished_after(WireFormat::OpenAi, lines.subrange(0, k)),
        forall|i: int| 0 <= i < k ==> (#[trigger] emitted(WireFormat::OpenAi, lines.subrange(0, k))[i]).finish_reason is None,
        joined_deltas(emitted(WireFormat::OpenAi, lines.subrange(0, k))) == joined_contents(lines.subrange(0, k)),
    decreases k,
{
    let f = WireFormat::OpenAi;
    if k > 0 {
        lemma_content_prefix(lines, k - 1);
        let pre = lines.subrange(0, k);
        assert(pre.drop_last() =~= lines.subrange(0, k - 1));
        assert(pre.last() == lines[k - 1]);
        assert(is_content_frame(lines[k - 1]));
        let e = emitted(f, pre);
        assert(e == emitted(f, lines.subrange(0, k - 1)).push(openai_chunk(lines[k - 1])));
        assert(e.drop_last() =~= emitted(f, lines.subrange(0, k - 1)));
    }
}

/// The finish reason that ends a well-formed stream: the last data frame's,
/// or "stop" from `[DONE]` when that frame has none.
pub open spec fn final_reason(lines: Seq<Seq<char>>) -> Seq<char> {
    if lines.len() >= 2 && openai_chunk(lines[lines.len() - 2]).finish_reason is Some {
        openai_chunk(lines[lines.len() - 2]).finish_reason->0
    } else {
        "stop"@
    }
}

/// For a well-formed OpenAI-style stream ending in `[DONE]`, the normalizer
/// emits exactly one terminal chunk, the last one, whose finish reason is
/// the last data frame's or else "stop", and the chunks' text deltas joined
/// equal the data frames' `delta.content` texts joined, in order.
pub proof fn lemma_openai_stream(lines: Seq<Seq<char>>)
    requires
        well_formed_openai(lines),
    ensures
        emitted(WireFormat::OpenAi, lines).len() > 0,
        emitted(WireFormat::OpenAi, lines).len() <= lines.len(),
        forall|i: int| 0 <= i < emitted(WireFormat::OpenAi, lines).len() - 1
            ==> (#[trigger] emitted(WireFormat::OpenAi, lines)[i]).finish_reason is None,
        emitted(WireFormat::OpenAi, lines).last().finish_reason == Some(final_reason(lines)),
        joined_deltas(emitted(WireFormat::OpenAi, lines)) == joined_contents(lines.drop_last()),
{
    let f = WireFormat::OpenAi;
    let n = lines.len() - 1;
    let d = "data: "@ + "[DONE]"@;
    assert(d.subrange(0, "data: "@.len() as int) =~= "data: "@);
    assert(d.subrange("data: "@.len() as int, d.len() as int) =~= "[DONE]"@);
    assert(payload_of(lines.last()) == Some("[DONE]"@));
    assert(openai_chunk(lines.last()) == stop_chunk());
    assert(lines.drop_last() =~= lines.subrange(0, n));
    assert(stop_chunk().delta =~= Seq::<char>::empty());
    if n == 0 {
        lemma_content_prefix(lines, 0);
        let e = emitted(f, lines);
        assert(e == emitted(f, lines.subrange(0, 0)).push(stop_chunk()));
        assert(e.drop_last() =~= emitted(f, lines.subrange(0, 0)));
        assert(joined_deltas(e) =~= joined_deltas(e.drop_last()) + Seq::<char>::empty());
    } else {
        lemma_content_prefix(lines, n - 1);
        let m = n - 1;
        let fr = lines[m];
        let p1 = lines.subrange(0, n);
        assert(p1.drop_last() =~= lines.subrange(0, m));
        assert(p1.last() == fr);
        let e1 = emitted(f, p1);
        assert(e1 == emitted(f, lines.subrange(0, m)).push(openai_chunk(fr)));
        assert(e1.drop_last() =~= emitted(f, lines.subrange(0, m)));
        assert(joined_contents(p1) == joined_contents(lines.subrange(0, m)) + line_content(fr));
        assert(openai_chunk(fr).delta == line_content(fr));
        let e = emitted(f, lines);
        assert forall|i: int| 0 <= i < m implies (#[trigger] e1[i]).finish_reason is None by {
            assert(e1[i] == emitted(f, lines.subrange(0, m))[i]);
        }
        if openai_chunk(fr).finish_reason is None {
            assert(!finished_after(f, p1));
            assert(e == e1.push(stop_chunk()));
            assert(e.drop_last() =~= e1);
            assert(joined_deltas(e) =~= joined_deltas(e1) + Seq::<char>::empty());
            assert forall|i: int| 0 <= i < e.len() - 1 implies (#[trigger] e[i]).finish_reason is None by {
                assert(e[i] == e1[i]);
            }
        } else {
            assert(finished_after(f, p1));
            assert(e == e1);
        }
    }
}

/// Whether a model writes its tool calls as bracket-tagged regions.
pub fn uses_bracket_tags(model: &str) -> (r: bool)
    ensures
        r == crate::text::contains(model@, "deepseek"@),
{
    crate::text::contains_text(model, "deepseek")
}

/// A stream of event lines from a model that writes tool calls as
/// bracket-tagged regions: the regions are kept out of the text deltas,
/// and a region's call comes out as a function-call fragment.
pub struct BracketStream {
    pub inner: StreamNormalizer,
    pub filter: ToolTagFilter,
    pub fed: Ghost<Seq<char>>,
    pub shown: Ghost<Seq<char>>,
}

impl BracketStream {
    /// Until the end, the filter has read all the text deltas so far and
    /// the deltas handed out are what it showed; at any time those deltas
    /// hold neither tag.
    pub open spec fn wf(&self) -> bool {
        &&& !self.inner.finished ==> self.filter@ == run(start_state(), self.fed@).state
            && self.shown@ == run(start_state(), self.fed@).visible
        &&& tag_free(self.shown@)
    }

    /// A stream at its start.
    pub fn new(format: WireFormat) -> (r: BracketStream)
        ensures
            r.wf(),
            r.inner.format == format,
            !r.inner.finished,
            r.shown@.len() == 0,
    {
        proof {
            lemma_visible_text_has_no_tags(Seq::empty());
            assert(run(start_state(), Seq::<char>::empty()).visible =~= Seq::<char>::empty());
        }
        BracketStream {
            inner: StreamNormalizer::new(format),
            filter: ToolTagFilter::new(),
            fed: Ghost(Seq::empty()),
            shown: Ghost(Seq::empty()),
        }
    }

    /// The chunk for the next event line, with tool regions taken out of its
    /// text; `None` once the stream has ended. The text handed out so far
    /// never holds either tag.
    pub fn push_line(&mut self, line: &str) -> (r: Option<StreamingResponse>)
        requires
            old(self).wf(),
        ensures
            final(self).wf(),
            final(self).inner.format == old(self).inner.format,
            old(self).inner.finished ==> r is None && final(self).shown@ == old(self).shown@,
            !old(self).inner.finished ==> {
                let c = line_chunk(old(self).inner.format, line@);
                let read = run(old(self).filter@, c.delta);
                &&& r is Some
                &&& r->0@.finish_reason == c.finish_reason
                &&& r->0@.delta == read.visible + if c.finish_reason is Some && !read.state.in_region {
                    read.state.held
                } else {
                    Seq::<char>::empty()
                }
                &&& (c.call is Some ==> r->0@.call == c.call)
                &&& (c.call is None ==> match r->0@.call {
                    Some(d) => body_calls(read.bodies).len() > 0 && d.name == Some(body_calls(read.bodies)[0].0)
                        && d.arguments == Some(body_calls(read.bodies)[0].1),
                    None => body_calls(read.bodies).len() == 0,
                })
                &&& final(self).inner.finished == (c.finish_reason is Some)
                &&& final(self).shown@ == old(self).shown@ + r->0@.delta
            },
    {
        let chunk = match self.inner.push_line(line) {
            Some(c) => c,
            None => return None,
        };
        let ghost before = self.fed@;
        let (visible, calls) = self.filter.push(chunk.delta.as_str());
        proof {
            lemma_run_concat(start_state(), before, chunk.delta@);
            self.fed = Ghost(before + chunk.delta@);
            self.shown = Ghost(self.shown@ + visible@);
            lemma_visible_text_has_no_tags(self.fed@);
        }
        let mut delta = visible;
        let terminal = chunk.is_terminal();
        if terminal {
            let ghost st = self.filter@;
            let rest = self.filter.flush();
            proof {
                lemma_visible_text_has_no_tags(self.fed@);
                self.shown = Ghost(self.shown@ + rest@);
            }
            crate::text::push_text(&mut delta, rest.as_str());
        } else {
            assert(delta@ =~= delta@ + Seq::<char>::empty());
        }
        let call = match chunk.function_call_delta {
            Some(d) => Some(d),
            None => if calls.len() > 0 {
                proof {
                    assert(crate::tags::call_models(calls@)[0] == (calls@[0].name@, calls@[0].arguments@));
                }
                let mut calls = calls;
                let first = calls.remove(0);
                Some(FunctionCallDelta { name: Some(first.name), arguments: Some(first.arguments) })
            } else {
                None
            },
        };
        let r = StreamingResponse { delta, finish_reason: chunk.finish_reason, function_call_delta: call };
        proof {
            let c = line_chunk(old(self).inner.format, line@);
            let read = run(old(self).filter@, c.delta);
            assert(chunk@ == c);
            assert(r@.finish_reason == c.finish_reason);
            assert(r@.delta == read.visible + if c.finish_reason is Some && !read.state.in_region {
                read.state.held
            } else {
                Seq::<char>::empty()
            });
            assert(self.shown@ =~= old(self).shown@ + r@.delta);
        }
        Some(r)
    }
}

} // verus!
