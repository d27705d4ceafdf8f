//! What the stream decoders promise about text: every piece of text the
//! provider streams reaches the reader once, unchanged and in order, so the
//! text deltas of a decoded stream join up to exactly the streamed reply.

use vstd::prelude::*;

use crate::provider::json::tool_input_text;
use crate::provider::slots::{
    lemma_remove, lemma_upsert, lookup, remove_key, slot_or_empty, slots_sorted, SlotView,
};
use crate::provider::stream::{
    anthropic_step, openai_end, openai_step, AnthropicFrame, DecoderState, OpenAiFrame, OpenAiState,
};
use crate::provider::types::{EventView, ItemView, StopKind, Usage};

verus! {

/// The text a run of stream items shows the reader: its text deltas, joined
/// in order.
pub open spec fn delta_text(items: Seq<ItemView>) -> Seq<char>
    decreases items.len(),
{
    if items.len() == 0 {
        Seq::empty()
    } else {
        (match items[0] {
            ItemView::Event(EventView::TextDelta(t)) => t,
            _ => Seq::empty(),
        }) + delta_text(items.drop_first())
    }
}

proof fn lemma_delta_text_concat(a: Seq<ItemView>, b: Seq<ItemView>)
    ensures
        delta_text(a + b) == delta_text(a) + delta_text(b),
    decreases a.len(),
{
    if a.len() == 0 {
        assert(a + b =~= b);
        assert(delta_text(a) =~= Seq::<char>::empty());
        assert(delta_text(a) + delta_text(b) =~= delta_text(b));
    } else {
        lemma_delta_text_concat(a.drop_first(), b);
        assert((a + b).drop_first() =~= a.drop_first() + b);
        assert((a + b)[0] == a[0]);
        let h = match a[0] {
            ItemView::Event(EventView::TextDelta(t)) => t,
            _ => Seq::<char>::empty(),
        };
        assert(h + (delta_text(a.drop_first()) + delta_text(b)) =~= (h + delta_text(a.drop_first()))
            + delta_text(b));
    }
}

proof fn lemma_delta_text_single(x: ItemView)
    ensures
        delta_text(seq![x]) == match x {
            ItemView::Event(EventView::TextDelta(t)) => t,
            _ => Seq::<char>::empty(),
        },
{
    reveal_with_fuel(delta_text, 2);
    assert(seq![x].drop_first() =~= Seq::<ItemView>::empty());
    assert(seq![x][0] == x);
    let h = match x {
        ItemView::Event(EventView::TextDelta(t)) => t,
        _ => Seq::<char>::empty(),
    };
    assert(h + Seq::<char>::empty() =~= h);
}

proof fn lemma_delta_text_empty()
    ensures
        delta_text(Seq::<ItemView>::empty()) == Seq::<char>::empty(),
{
}

// ---------------------------------------------------------------------------
// Anthropic
// ---------------------------------------------------------------------------

/// The text an Anthropic payload streams: the `delta.text` of a
/// `content_block_delta` whose delta is a `text_delta`; nothing otherwise.
pub open spec fn anthropic_frame_text(f: AnthropicFrame) -> Seq<char> {
    if f.kind@ == "content_block_delta"@ && f.has_delta && f.delta_type@ == "text_delta"@ {
        match f.delta_text {
            Some(t) => t@,
            None => Seq::empty(),
        }
    } else {
        Seq::empty()
    }
}

/// The payload ends an Anthropic stream (`message_stop` or `error`).
pub open spec fn anthropic_ends(f: AnthropicFrame) -> bool {
    f.kind@ == "message_stop"@ || f.kind@ == "error"@
}

/// The frames applied one after another: the final state and every item
/// yielded, in order.
pub open spec fn anthropic_run(st: DecoderState, frames: Seq<AnthropicFrame>) -> (DecoderState, Seq<ItemView>)
    decreases frames.len(),
{
    if frames.len() == 0 {
        (st, Seq::empty())
    } else {
        let (s1, out1) = anthropic_step(st, frames[0]);
        let (s2, out2) = anthropic_run(s1, frames.drop_first());
        (s2, out1 + out2)
    }
}

/// The reply text streamed by `frames` up to the frame that ends the stream.
pub open spec fn anthropic_streamed_text(frames: Seq<AnthropicFrame>) -> Seq<char>
    decreases frames.len(),
{
    if frames.len() == 0 || anthropic_ends(frames[0]) {
        Seq::empty()
    } else {
        anthropic_frame_text(frames[0]) + anthropic_streamed_text(frames.drop_first())
    }
}

/// A text delta of an open Anthropic stream is passed on as it is, whatever
/// it holds (whitespace and line breaks included), as exactly one event,
/// and the decoder state is left alone.
pub proof fn law_anthropic_text_delta_passed_on(st: DecoderState, f: AnthropicFrame)
    requires
        !st.finished,
        f.kind@ == "content_block_delta"@,
        f.has_delta,
        f.delta_type@ == "text_delta"@,
        f.delta_text matches Some(t) && t@.len() > 0,
    ensures
        anthropic_step(st, f) == (st, seq![ItemView::Event(EventView::TextDelta(f.delta_text->Some_0@))]),
{
}

proof fn lemma_anthropic_step_text(st: DecoderState, f: AnthropicFrame)
    requires
        !st.finished,
    ensures
        anthropic_step(st, f).0.finished == anthropic_ends(f),
        delta_text(anthropic_step(st, f).1) == if anthropic_ends(f) {
            Seq::<char>::empty()
        } else {
            anthropic_frame_text(f)
        },
{
    reveal_strlit("content_block_delta");
    reveal_strlit("content_block_start");
    reveal_strlit("content_block_stop");
    reveal_strlit("message_delta");
    reveal_strlit("message_stop");
    reveal_strlit("error");
    reveal_strlit("text_delta");
    reveal_strlit("input_json_delta");
    let out = anthropic_step(st, f).1;
    let k = f.kind@;
    assert("content_block_delta"@.len() == 19);
    assert("content_block_start"@.len() == 19);
    assert("content_block_stop"@.len() == 18);
    assert("message_delta"@.len() == 13);
    assert("message_stop"@.len() == 12);
    assert("error"@.len() == 5);
    assert("content_block_delta"@ != "message_stop"@ && "content_block_delta"@ != "error"@);
    assert("content_block_start"@ != "message_stop"@ && "content_block_start"@ != "error"@);
    assert("content_block_stop"@ != "message_stop"@ && "content_block_stop"@ != "error"@);
    assert("message_delta"@ != "message_stop"@ && "message_delta"@ != "error"@);
    assert("message_stop"@ != "error"@);
    if k == "content_block_delta"@ {
        assert(!anthropic_ends(f));
    } else if k == "content_block_start"@ || k == "content_block_stop"@ || k == "message_delta"@ {
        assert(!anthropic_ends(f));
        assert(anthropic_frame_text(f) == Seq::<char>::empty());
    } else if k == "message_stop"@ || k == "error"@ {
        assert(anthropic_ends(f));
    } else {
        assert(!anthropic_ends(f));
    }
    if out.len() == 0 {
        lemma_delta_text_empty();
        assert(out =~= Seq::<ItemView>::empty());
    } else {
        assert(out.len() == 1);
        assert(out =~= seq![out[0]]);
        lemma_delta_text_single(out[0]);
    }
}

proof fn lemma_anthropic_run_finished(st: DecoderState, frames: Seq<AnthropicFrame>)
    requires
        st.finished,
    ensures
        anthropic_run(st, frames).1 == Seq::<ItemView>::empty(),
    decreases frames.len(),
{
    if frames.len() > 0 {
        lemma_anthropic_run_finished(st, frames.drop_first());
        assert(Seq::<ItemView>::empty() + Seq::<ItemView>::empty() =~= Seq::<ItemView>::empty());
    }
}

/// Decoding an open Anthropic stream loses, adds and reorders no text: the
/// text deltas it yields join up to exactly the text the payloads stream
/// before the stream ends, and nothing is yielded after the end.
pub proof fn law_anthropic_reply_text(st: DecoderState, frames: Seq<AnthropicFrame>)
    requires
        !st.finished,
    ensures
        delta_text(anthropic_run(st, frames).1) == anthropic_streamed_text(frames),
    decreases frames.len(),
{
    if frames.len() == 0 {
        lemma_delta_text_empty();
    } else {
        let f = frames[0];
        let (s1, out1) = anthropic_step(st, f);
        lemma_anthropic_step_text(st, f);
        let rest = anthropic_run(s1, frames.drop_first()).1;
        lemma_delta_text_concat(out1, rest);
        if anthropic_ends(f) {
            lemma_anthropic_run_finished(s1, frames.drop_first());
            lemma_delta_text_empty();
            assert(Seq::<char>::empty() + Seq::<char>::empty() =~= Seq::<char>::empty());
        } else {
            law_anthropic_reply_text(s1, frames.drop_first());
        }
    }
}

proof fn lemma_anthropic_kinds_distinct()
    ensures
        "content_block_delta"@ != "content_block_start"@,
        "content_block_delta"@ != "content_block_stop"@,
        "content_block_start"@ != "content_block_stop"@,
        "content_block_delta"@ != "message_stop"@,
        "content_block_start"@ != "message_stop"@,
        "content_block_stop"@ != "message_stop"@,
        "message_delta"@ != "message_stop"@,
        "content_block_delta"@ != "message_delta"@,
        "content_block_start"@ != "message_delta"@,
        "content_block_stop"@ != "message_delta"@,
        "text_delta"@ != "input_json_delta"@,
{
    reveal_strlit("content_block_delta");
    reveal_strlit("content_block_start");
    reveal_strlit("content_block_stop");
    reveal_strlit("message_delta");
    reveal_strlit("message_stop");
    reveal_strlit("text_delta");
    reveal_strlit("input_json_delta");
    assert("content_block_delta"@.len() == 19);
    assert("content_block_start"@.len() == 19);
    assert("content_block_delta"@[14] != "content_block_start"@[14]);
    assert("content_block_stop"@.len() == 18);
    assert("message_delta"@.len() == 13);
    assert("message_stop"@.len() == 12);
    assert("text_delta"@.len() == 10);
    assert("input_json_delta"@.len() == 16);
}

/// The slot key an Anthropic frame addresses.
pub open spec fn anthropic_key(f: AnthropicFrame) -> u64 {
    (f.index as usize) as u64
}

/// A `content_block_start` for a tool use opens a fresh tool call under the
/// frame's index, with the block's id and name and no arguments yet; other
/// calls under assembly are untouched and nothing is yielded.
pub proof fn law_anthropic_tool_use_start(st: DecoderState, f: AnthropicFrame, j: u64)
    requires
        !st.finished,
        slots_sorted(st.slots),
        f.kind@ == "content_block_start"@,
        f.block_is_tool_use,
    ensures
        anthropic_step(st, f).1 == Seq::<ItemView>::empty(),
        slots_sorted(anthropic_step(st, f).0.slots),
        !anthropic_step(st, f).0.finished,
        lookup(anthropic_step(st, f).0.slots, j) == if j == anthropic_key(f) {
            Some(SlotView { key: j, id: f.block_id@, name: f.block_name@, args: Seq::empty() })
        } else {
            lookup(st.slots, j)
        },
{
    lemma_anthropic_kinds_distinct();
    let k = anthropic_key(f);
    let g = |x: SlotView| SlotView { key: x.key, id: f.block_id@, name: f.block_name@, args: Seq::empty() };
    lemma_upsert(st.slots, k, g, -1, j);
    if j == k {
        let e = slot_or_empty(st.slots, k);
        if lookup(st.slots, k) is Some {
            crate::provider::slots::lemma_lookup_some(st.slots, k);
        }
        assert(e.key == k);
    }
}

/// An `input_json_delta` appends its `partial_json` to the arguments of the
/// tool call under the frame's index (a call it had not seen starts empty);
/// other calls are untouched and nothing is yielded.
pub proof fn law_anthropic_tool_input_appended(st: DecoderState, f: AnthropicFrame, j: u64)
    requires
        !st.finished,
        slots_sorted(st.slots),
        f.kind@ == "content_block_delta"@,
        f.has_delta,
        f.delta_type@ == "input_json_delta"@,
    ensures
        anthropic_step(st, f).1 == Seq::<ItemView>::empty(),
        slots_sorted(anthropic_step(st, f).0.slots),
        lookup(anthropic_step(st, f).0.slots, j) == if j == anthropic_key(f) {
            let old = slot_or_empty(st.slots, j);
            Some(
                SlotView {
                    args: old.args + match f.partial_json {
                        Some(p) => p@,
                        None => Seq::<char>::empty(),
                    },
                    ..old
                },
            )
        } else {
            lookup(st.slots, j)
        },
{
    lemma_anthropic_kinds_distinct();
    let k = anthropic_key(f);
    let part = match f.partial_json {
        Some(p) => p@,
        None => Seq::<char>::empty(),
    };
    let g = |x: SlotView| SlotView { args: x.args + part, ..x };
    lemma_upsert(st.slots, k, g, -1, j);
}

/// A `content_block_stop` for a tool call under assembly yields that call,
/// once, with its id, name and the arguments gathered so far (a call with
/// no name yields nothing), and forgets it; other calls are untouched.
pub proof fn law_anthropic_tool_call_emitted(st: DecoderState, f: AnthropicFrame, s: SlotView, j: u64)
    requires
        !st.finished,
        slots_sorted(st.slots),
        f.kind@ == "content_block_stop"@,
        lookup(st.slots, anthropic_key(f)) == Some(s),
    ensures
        anthropic_step(st, f).1 == if s.name.len() > 0 {
            seq![
                ItemView::Event(
                    EventView::ToolCall { id: s.id, name: s.name, input_json: tool_input_text(s.args) },
                ),
            ]
        } else {
            Seq::<ItemView>::empty()
        },
        slots_sorted(anthropic_step(st, f).0.slots),
        lookup(anthropic_step(st, f).0.slots, j) == if j == anthropic_key(f) {
            None
        } else {
            lookup(st.slots, j)
        },
{
    lemma_anthropic_kinds_distinct();
    lemma_remove(st.slots, anthropic_key(f), -1, j);
}

/// `message_stop` ends an open stream with one `Done` carrying the last
/// usage reported (zero when none was) and the last stop reason (end of
/// turn when none was); nothing is yielded after it.
pub proof fn law_anthropic_message_stop(st: DecoderState, f: AnthropicFrame, later: Seq<AnthropicFrame>)
    requires
        !st.finished,
        f.kind@ == "message_stop"@,
    ensures
        anthropic_step(st, f).0.finished,
        anthropic_step(st, f).1 == seq![
            ItemView::Event(
                EventView::Done {
                    usage: match st.last_usage {
                        Some(u) => u,
                        None => Usage { input_tokens: 0, output_tokens: 0 },
                    },
                    stop_reason: match st.last_stop {
                        Some(k) => k,
                        None => StopKind::EndTurn,
                    },
                },
            ),
        ],
        anthropic_run(anthropic_step(st, f).0, later).1 == Seq::<ItemView>::empty(),
{
    lemma_anthropic_kinds_distinct();
    lemma_anthropic_run_finished(anthropic_step(st, f).0, later);
}

// ---------------------------------------------------------------------------
// OpenAI-compatible
// ---------------------------------------------------------------------------

/// The text an OpenAI-compatible payload streams: `delta.content` of its
/// first choice; nothing otherwise.
pub open spec fn openai_frame_text(f: OpenAiFrame) -> Seq<char> {
    if f.has_choice && f.has_delta {
        match f.content {
            Some(c) => c@,
            None => Seq::empty(),
        }
    } else {
        Seq::empty()
    }
}

/// The frames applied one after another: the final state and every item
/// yielded, in order.
pub open spec fn openai_run(st: OpenAiState, frames: Seq<OpenAiFrame>) -> (OpenAiState, Seq<ItemView>)
    decreases frames.len(),
{
    if frames.len() == 0 {
        (st, Seq::empty())
    } else {
        let (s1, out1) = openai_step(st, frames[0]);
        let (s2, out2) = openai_run(s1, frames.drop_first());
        (s2, out1 + out2)
    }
}

/// The reply text streamed by `frames`, joined in order.
pub open spec fn openai_streamed_text(frames: Seq<OpenAiFrame>) -> Seq<char>
    decreases frames.len(),
{
    if frames.len() == 0 {
        Seq::empty()
    } else {
        openai_frame_text(frames[0]) + openai_streamed_text(frames.drop_first())
    }
}

/// Content in a delta of an open OpenAI-compatible stream is passed on as it
/// is, whatever it holds (whitespace and line breaks included), as exactly
/// one event.
pub proof fn law_openai_content_passed_on(st: OpenAiState, f: OpenAiFrame)
    requires
        !st.finished,
        f.has_choice,
        f.has_delta,
        f.content matches Some(c) && c@.len() > 0,
    ensures
        openai_step(st, f).1 == seq![ItemView::Event(EventView::TextDelta(f.content->Some_0@))],
        !openai_step(st, f).0.finished,
{
}

/// Decoding OpenAI-compatible payloads loses, adds and reorders no text: the
/// text deltas yielded join up to exactly the streamed content, and the
/// payloads alone never end the stream.
pub proof fn law_openai_reply_text(st: OpenAiState, frames: Seq<OpenAiFrame>)
    requires
        !st.finished,
    ensures
        delta_text(openai_run(st, frames).1) == openai_streamed_text(frames),
        !openai_run(st, frames).0.finished,
    decreases frames.len(),
{
    if frames.len() == 0 {
        lemma_delta_text_empty();
    } else {
        let f = frames[0];
        let (s1, out1) = openai_step(st, f);
        assert(!s1.finished);
        if out1.len() == 0 {
            lemma_delta_text_empty();
            assert(out1 =~= Seq::<ItemView>::empty());
        } else {
            assert(out1 =~= seq![out1[0]]);
            lemma_delta_text_single(out1[0]);
        }
        assert(delta_text(out1) == openai_frame_text(f));
        law_openai_reply_text(s1, frames.drop_first());
        lemma_delta_text_concat(out1, openai_run(s1, frames.drop_first()).1);
    }
}

/// The end of an open OpenAI-compatible stream yields `Done` last, with the
/// last usage reported (zero when none was); the assembled tool calls come
/// before it only when the model finished for tool calls, and otherwise
/// `Done` is all that is yielded. The stream is then over.
pub proof fn law_openai_end(st: OpenAiState)
    requires
        !st.finished,
    ensures
        ({
            let (s1, out) = openai_end(st);
            &&& s1.finished
            &&& out.len() >= 1
            &&& out.last() matches ItemView::Event(EventView::Done { usage, .. })
            &&& usage == match st.last_usage {
                Some(u) => u,
                None => Usage { input_tokens: 0, output_tokens: 0 },
            }
            &&& st.last_finish != Some("tool_calls"@) ==> out.len() == 1
            &&& st.last_finish == Some("tool_calls"@) ==> out.drop_last()
                == crate::provider::stream::tool_calls_of(st.slots)
        }),
{
    let (s1, out) = openai_end(st);
    let calls = if st.last_finish == Some("tool_calls"@) {
        crate::provider::stream::tool_calls_of(st.slots)
    } else {
        Seq::<ItemView>::empty()
    };
    assert(out.drop_last() =~= calls);
}

} // verus!
