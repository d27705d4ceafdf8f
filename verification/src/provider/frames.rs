//! Reading the fields of one stream payload (a JSON document) that the
//! stream decoders act on, with the defaults that apply when a field is
//! missing.

use vstd::prelude::*;

use crate::provider::json::{
    json_array_len_at, json_array_len_at_of, json_kind_at, json_kind_at_of, json_str_at,
    json_str_at_of, json_u64_at, json_u64_at_of, JsonKind,
};
use crate::provider::stream::{AnthropicFrame, OpenAiFrame, OpenAiToolPart};
use crate::provider::types::str_eq;
use crate::text::{decimal, push_decimal};

verus! {

pub open spec fn or_empty(o: Option<Seq<char>>) -> Seq<char> {
    match o {
        Some(s) => s,
        None => Seq::empty(),
    }
}

pub open spec fn or_zero(o: Option<u64>) -> u64 {
    match o {
        Some(n) => n,
        None => 0,
    }
}

pub open spec fn opt_seq(o: Option<String>) -> Option<Seq<char>> {
    match o {
        Some(s) => Some(s@),
        None => None,
    }
}

/// The payload is a JSON document.
pub open spec fn is_json(text: Seq<char>) -> bool {
    json_kind_at_of(text, Seq::empty()) is Some
}

/// A value is present at `pointer`.
pub open spec fn has_at(text: Seq<char>, pointer: Seq<char>) -> bool {
    json_kind_at_of(text, pointer) is Some
}

/// `f` holds the fields of the Anthropic payload `text`: each string or
/// number where the payload has one of that type, else empty or 0; usage
/// only when a `usage` value is present.
pub open spec fn anthropic_frame_fits(text: Seq<char>, f: AnthropicFrame) -> bool {
    &&& f.kind@ == or_empty(json_str_at_of(text, "/type"@))
    &&& f.index == or_zero(json_u64_at_of(text, "/index"@))
    &&& f.has_delta == has_at(text, "/delta"@)
    &&& f.delta_type@ == or_empty(json_str_at_of(text, "/delta/type"@))
    &&& opt_seq(f.delta_text) == json_str_at_of(text, "/delta/text"@)
    &&& opt_seq(f.partial_json) == json_str_at_of(text, "/delta/partial_json"@)
    &&& f.block_is_tool_use == (json_str_at_of(text, "/content_block/type"@) == Some("tool_use"@))
    &&& f.block_id@ == or_empty(json_str_at_of(text, "/content_block/id"@))
    &&& f.block_name@ == or_empty(json_str_at_of(text, "/content_block/name"@))
    &&& opt_seq(f.stop_reason) == json_str_at_of(text, "/delta/stop_reason"@)
    &&& f.usage == (if has_at(text, "/usage"@) {
        Some(
            (
                or_zero(json_u64_at_of(text, "/usage/input_tokens"@)),
                or_zero(json_u64_at_of(text, "/usage/output_tokens"@)),
            ),
        )
    } else {
        None
    })
    &&& opt_seq(f.error_message) == json_str_at_of(text, "/error/message"@)
}

fn str_or_empty(text: &str, pointer: &str) -> (r: String)
    ensures
        r@ == or_empty(json_str_at_of(text@, pointer@)),
{
    match json_str_at(text, pointer) {
        Some(s) => s,
        None => String::new(),
    }
}

fn u64_or_zero(text: &str, pointer: &str) -> (r: u64)
    ensures
        r == or_zero(json_u64_at_of(text@, pointer@)),
{
    match json_u64_at(text, pointer) {
        Some(n) => n,
        None => 0,
    }
}

fn present(text: &str, pointer: &str) -> (r: bool)
    ensures
        r == has_at(text@, pointer@),
{
    json_kind_at(text, pointer).is_some()
}

/// The fields of an Anthropic stream payload, or `None` when the payload is
/// not JSON (such a payload is skipped).
pub fn anthropic_frame(payload: &str) -> (r: Option<AnthropicFrame>)
    ensures
        !is_json(payload@) ==> r is None,
        is_json(payload@) ==> (r matches Some(f) && anthropic_frame_fits(payload@, f)),
{
    if json_kind_at(payload, "").is_none() {
        proof {
            reveal_strlit("");
            assert(""@ =~= Seq::<char>::empty());
        }
        return None;
    }
    proof {
        reveal_strlit("");
        assert(""@ =~= Seq::<char>::empty());
    }
    let block_type = json_str_at(payload, "/content_block/type");
    let block_is_tool_use = match &block_type {
        Some(t) => str_eq(t.as_str(), "tool_use"),
        None => false,
    };
    let usage = if present(payload, "/usage") {
        Some((u64_or_zero(payload, "/usage/input_tokens"), u64_or_zero(payload, "/usage/output_tokens")))
    } else {
        None
    };
    Some(
        AnthropicFrame {
            kind: str_or_empty(payload, "/type"),
            index: u64_or_zero(payload, "/index"),
            has_delta: present(payload, "/delta"),
            delta_type: str_or_empty(payload, "/delta/type"),
            delta_text: json_str_at(payload, "/delta/text"),
            partial_json: json_str_at(payload, "/delta/partial_json"),
            block_is_tool_use,
            block_id: str_or_empty(payload, "/content_block/id"),
            block_name: str_or_empty(payload, "/content_block/name"),
            stop_reason: json_str_at(payload, "/delta/stop_reason"),
            usage,
            error_message: json_str_at(payload, "/error/message"),
        },
    )
}

/// The pointer to element `k` of the first choice's `tool_calls`, followed
/// by `tail`.
pub open spec fn tool_part_pointer(k: nat, tail: Seq<char>) -> Seq<char> {
    "/choices/0/delta/tool_calls/"@ + decimal(k) + tail
}

/// `p` holds the fields of element `k` of the first choice's `tool_calls`.
pub open spec fn tool_part_fits(text: Seq<char>, k: nat, p: OpenAiToolPart) -> bool {
    &&& p.index == or_zero(json_u64_at_of(text, tool_part_pointer(k, "/index"@)))
    &&& opt_seq(p.id) == json_str_at_of(text, tool_part_pointer(k, "/id"@))
    &&& p.has_function == has_at(text, tool_part_pointer(k, "/function"@))
    &&& opt_seq(p.name) == json_str_at_of(text, tool_part_pointer(k, "/function/name"@))
    &&& opt_seq(p.arguments) == json_str_at_of(text, tool_part_pointer(k, "/function/arguments"@))
}

/// A token count read from `usage`: the first key when present (0 unless
/// it is a `u64`), else the second key (0 when absent).
pub open spec fn usage_count(text: Seq<char>, first: Seq<char>, second: Seq<char>) -> u64 {
    if has_at(text, first) {
        or_zero(json_u64_at_of(text, first))
    } else {
        or_zero(json_u64_at_of(text, second))
    }
}

/// `choices` is an array with a first element.
pub open spec fn has_first_choice(text: Seq<char>) -> bool {
    json_array_len_at_of(text, "/choices"@) matches Some(n) && n > 0
}

/// The first choice has a `delta`.
pub open spec fn has_first_delta(text: Seq<char>) -> bool {
    has_first_choice(text) && has_at(text, "/choices/0/delta"@)
}

/// `f` holds the fields of the OpenAI-compatible payload `text`: usage
/// (prompt tokens, else input tokens; completion tokens, else output
/// tokens) when a `usage` value is present; the first choice's finish
/// reason, and its delta's content and tool-call parts, where present.
pub open spec fn openai_frame_fits(text: Seq<char>, f: OpenAiFrame) -> bool {
    &&& f.usage == (if has_at(text, "/usage"@) {
        Some(
            (
                usage_count(text, "/usage/prompt_tokens"@, "/usage/input_tokens"@),
                usage_count(text, "/usage/completion_tokens"@, "/usage/output_tokens"@),
            ),
        )
    } else {
        None
    })
    &&& f.has_choice == has_first_choice(text)
    &&& opt_seq(f.finish_reason) == (if has_first_choice(text) {
        json_str_at_of(text, "/choices/0/finish_reason"@)
    } else {
        None
    })
    &&& f.has_delta == has_first_delta(text)
    &&& opt_seq(f.content) == (if has_first_delta(text) {
        json_str_at_of(text, "/choices/0/delta/content"@)
    } else {
        None
    })
    &&& match f.tool_calls {
        None => !has_first_delta(text) || json_array_len_at_of(text, "/choices/0/delta/tool_calls"@) is None,
        Some(parts) => has_first_delta(text) && json_array_len_at_of(
            text,
            "/choices/0/delta/tool_calls"@,
        ) == Some(parts@.len() as usize) && forall|k: int|
            0 <= k < parts@.len() ==> tool_part_fits(text, k as nat, #[trigger] parts@[k]),
    }
}

fn tool_pointer(k: usize, tail: &str) -> (r: String)
    ensures
        r@ == tool_part_pointer(k as nat, tail@),
{
    let mut s = "/choices/0/delta/tool_calls/".to_owned();
    push_decimal(&mut s, k as u64);
    s.append(tail);
    s
}

fn tool_part(payload: &str, k: usize) -> (r: OpenAiToolPart)
    ensures
        tool_part_fits(payload@, k as nat, r),
{
    let pi = tool_pointer(k, "/index");
    let pd = tool_pointer(k, "/id");
    let pf = tool_pointer(k, "/function");
    let pn = tool_pointer(k, "/function/name");
    let pa = tool_pointer(k, "/function/arguments");
    OpenAiToolPart {
        index: u64_or_zero(payload, pi.as_str()),
        id: json_str_at(payload, pd.as_str()),
        has_function: present(payload, pf.as_str()),
        name: json_str_at(payload, pn.as_str()),
        arguments: json_str_at(payload, pa.as_str()),
    }
}

fn usage_count_exec(payload: &str, first: &str, second: &str) -> (r: u64)
    ensures
        r == usage_count(payload@, first@, second@),
{
    if present(payload, first) {
        u64_or_zero(payload, first)
    } else {
        u64_or_zero(payload, second)
    }
}

/// The fields of an OpenAI-compatible stream payload, or `None` when the
/// payload is not JSON (such a payload is skipped).
pub fn openai_frame(payload: &str) -> (r: Option<OpenAiFrame>)
    ensures
        !is_json(payload@) ==> r is None,
        is_json(payload@) ==> (r matches Some(f) && openai_frame_fits(payload@, f)),
{
    proof {
        reveal_strlit("");
        assert(""@ =~= Seq::<char>::empty());
    }
    if json_kind_at(payload, "").is_none() {
        return None;
    }
    let usage = if present(payload, "/usage") {
        Some(
            (
                usage_count_exec(payload, "/usage/prompt_tokens", "/usage/input_tokens"),
                usage_count_exec(payload, "/usage/completion_tokens", "/usage/output_tokens"),
            ),
        )
    } else {
        None
    };
    let has_choice = match json_array_len_at(payload, "/choices") {
        Some(n) => n > 0,
        None => false,
    };
    let finish_reason = if has_choice {
        json_str_at(payload, "/choices/0/finish_reason")
    } else {
        None
    };
    let has_delta = has_choice && present(payload, "/choices/0/delta");
    let content = if has_delta {
        json_str_at(payload, "/choices/0/delta/content")
    } else {
        None
    };
    let tool_calls = if has_delta {
        match json_array_len_at(payload, "/choices/0/delta/tool_calls") {
            Some(n) => {
                let mut parts: Vec<OpenAiToolPart> = Vec::new();
                let mut k: usize = 0;
                while k < n
                    invariant
                        0 <= k <= n,
                        parts@.len() == k,
                        forall|j: int| 0 <= j < k ==> tool_part_fits(payload@, j as nat, #[trigger] parts@[j]),
                    decreases n - k,
                {
                    parts.push(tool_part(payload, k));
                    k = k + 1;
                }
                Some(parts)
            },
            None => None,
        }
    } else {
        None
    };
    Some(OpenAiFrame { usage, has_choice, finish_reason, has_delta, content, tool_calls })
}

} // verus!
