//! The staged event pipeline. The entry stage streams the JSON form of
//! its own result one character at a time, each step framed as a growing
//! `message` event; it then parses the accumulated buffer back and the
//! parsed routing field selects which branch emits the closing events.
//! Routing values form a closed set: an unknown value ends the pipeline
//! with a single invalid-route event, never a crash.
use vstd::prelude::*;
use vstd::string::StrSliceExecFns;
use vstd::string::StringExecFns;
use crate::dec::dec_digits;
use crate::dec::lemma_dec_round_trip;
use crate::dec::parse_u64_chars;
use crate::dec::parse_u64_spec;
use crate::dec::u64_dec_chars;
use crate::sse::Event;
use crate::sse::EventView;
use crate::sse::starts_with;
use crate::text::chars_of;
use crate::text::string_of;

verus! {

/// The result the entry stage hands the supervisor: a routing field
/// naming the stage to run next.
pub struct StageResult {
    pub goto_value: u64,
}

/// The stages of the pipeline. `Entry` produces the routing value;
/// the two branches each close the stream with their marker event;
/// `Invalid` stands for every unrecognized routing value and closes
/// the stream with a diagnostic event; `Closed` is the terminal state.
#[derive(Debug, PartialEq, Eq, Structural)]
pub enum Stage {
    Entry,
    FunctionTwo,
    FunctionThree,
    Invalid,
    Closed,
}

/// Which stage a routing value selects: a total mapping with a fallback
/// for every unknown value.
pub open spec fn stage_of(g: int) -> Stage {
    if g == 2 {
        Stage::FunctionTwo
    } else if g == 3 {
        Stage::FunctionThree
    } else {
        Stage::Invalid
    }
}

/// The exec form of `stage_of`.
pub fn next_stage(g: u64) -> (s: Stage)
    ensures
        s == stage_of(g as int),
{
    if g == 2 {
        Stage::FunctionTwo
    } else if g == 3 {
        Stage::FunctionThree
    } else {
        Stage::Invalid
    }
}

/// The JSON form of a stage result: `{"goto":<n>}`.
pub open spec fn stage_json_chars(g: int) -> Seq<char> {
    "{\"goto\":"@ + dec_digits(g) + "}"@
}

/// The serialized stage result for `g`.
pub fn stage_payload(g: u64) -> (r: String)
    ensures
        r@ == stage_json_chars(g as int),
{
    let mut out = String::from_str("{\"goto\":");
    let digits = u64_dec_chars(g);
    let ds = string_of(&digits);
    out.append(ds.as_str());
    out.append("}");
    proof {
        assert(out@ =~= stage_json_chars(g as int));
    }
    out
}

/// What a serialized stage result means: its routing value, when the
/// characters are exactly `{"goto":`, digits that fit in a `u64`, `}`.
pub open spec fn parse_stage_chars(s: Seq<char>) -> Option<u64> {
    let pre = "{\"goto\":"@;
    if starts_with(s, pre) {
        let body = s.skip(pre.len() as int);
        if body.len() >= 1 && body.last() == '}' {
            parse_u64_spec(body.drop_last())
        } else {
            None
        }
    } else {
        None
    }
}

/// Parses a serialized stage result, as `parse_stage_chars` describes.
pub fn parse_stage_payload(s: &str) -> (r: Option<StageResult>)
    ensures
        match r {
            Some(sr) => parse_stage_chars(s@) == Some(sr.goto_value),
            None => parse_stage_chars(s@) is None,
        },
{
    let v = chars_of(s);
    proof {
        assert(v@.skip(0) =~= s@);
    }
    let i0 = match crate::sse::expect_lit(&v, 0, "{\"goto\":") {
        Some(j) => j,
        None => {
            return None;
        },
    };
    let ghost body = s@.skip("{\"goto\":"@.len() as int);
    if v.len() == i0 {
        proof {
            assert(body.len() == 0);
        }
        return None;
    }
    let last = v[v.len() - 1];
    proof {
        assert(body.last() == v@[v.len() - 1]);
    }
    if last != '}' {
        return None;
    }
    let mut digits: Vec<char> = Vec::new();
    let mut i: usize = i0;
    let end = v.len() - 1;
    while i < end
        invariant
            i0 <= i <= end,
            end == v@.len() - 1,
            i0 <= end,
            digits@ == v@.subrange(i0 as int, i as int),
        decreases end - i,
    {
        digits.push(v[i]);
        proof {
            assert(v@.subrange(i0 as int, i + 1 as int) =~= v@.subrange(i0 as int, i as int).push(
                v@[i as int],
            ));
        }
        i = i + 1;
    }
    proof {
        assert(digits@ =~= body.drop_last());
    }
    match parse_u64_chars(&digits) {
        Some(g) => Some(StageResult { goto_value: g }),
        None => None,
    }
}

/// Serializing a stage result and parsing it back yields its routing
/// value: the entry stage's final parse of its own buffer cannot fail.
pub proof fn lemma_stage_round_trip(g: u64)
    ensures
        parse_stage_chars(stage_json_chars(g as int)) == Some(g),
{
    reveal_strlit("{\"goto\":");
    reveal_strlit("}");
    let pre = "{\"goto\":"@;
    let s = stage_json_chars(g as int);
    assert(starts_with(s, pre)) by {
        assert(s.subrange(0, pre.len() as int) =~= pre);
    }
    let body = s.skip(pre.len() as int);
    assert(body =~= dec_digits(g as int) + "}"@);
    lemma_dec_round_trip(g);
    assert(body.len() >= 1 && body.last() == '}');
    assert(body.drop_last() =~= dec_digits(g as int));
}

/// The growing `message` event holding `content`.
pub open spec fn message_event(content: Seq<char>) -> EventView {
    EventView { event: "message"@, content }
}

/// The closing marker of the first branch.
pub open spec fn function_two_marker() -> EventView {
    EventView { event: "message"@, content: "This is function 2"@ }
}

/// The closing marker of the second branch.
pub open spec fn function_three_marker() -> EventView {
    EventView { event: "message"@, content: "This is function 3"@ }
}

/// The single diagnostic event of an unrecognized routing value.
pub open spec fn invalid_route_event() -> EventView {
    EventView { event: "error"@, content: "invalid route"@ }
}

/// The entry stage's emissions over `payload`: one `message` event per
/// character, each holding the buffer accumulated so far.
pub open spec fn entry_events(payload: Seq<char>) -> Seq<EventView> {
    Seq::new(payload.len(), |i: int| message_event(payload.subrange(0, i + 1)))
}

/// What the selected branch emits after the entry stage.
pub open spec fn branch_events(g: int) -> Seq<EventView> {
    match stage_of(g) {
        Stage::FunctionTwo => seq![function_two_marker()],
        Stage::FunctionThree => seq![function_three_marker()],
        _ => seq![invalid_route_event()],
    }
}

/// The whole event sequence the pipeline offers to the channel for
/// routing value `g`, in emission order.
pub open spec fn pipeline_events_spec(g: int) -> Seq<EventView> {
    entry_events(stage_json_chars(g)) + branch_events(g)
}

/// Produces the pipeline's event sequence for routing value `g`: the
/// incremental entry events, then the events of the branch that the
/// entry result selects.
pub fn pipeline_events(g: u64) -> (r: Vec<Event>)
    ensures
        r@.len() == pipeline_events_spec(g as int).len(),
        forall|i: int| 0 <= i < r@.len() ==> r@[i]@ == pipeline_events_spec(g as int)[i],
{
    let payload = stage_payload(g);
    let chars = chars_of(payload.as_str());
    let mut acc = String::new();
    let mut out: Vec<Event> = Vec::new();
    let mut i: usize = 0;
    while i < chars.len()
        invariant
            i <= chars.len(),
            chars@ == stage_json_chars(g as int),
            acc@ == chars@.subrange(0, i as int),
            out@.len() == i,
            forall|j: int|
                0 <= j < i ==> out@[j]@ == message_event(chars@.subrange(0, j + 1)),
        decreases chars.len() - i,
    {
        acc.push(chars[i]);
        proof {
            assert(chars@.subrange(0, i + 1 as int) =~= chars@.subrange(0, i as int).push(
                chars@[i as int],
            ));
        }
        out.push(Event { event: String::from_str("message"), content: acc.clone() });
        i = i + 1;
    }
    proof {
        assert(acc@ =~= stage_json_chars(g as int));
    }
    let routed: u64 = match parse_stage_payload(acc.as_str()) {
        Some(sr) => sr.goto_value,
        None => {
            proof {
                lemma_stage_round_trip(g);
            }
            vstd::pervasive::unreached()
        },
    };
    proof {
        lemma_stage_round_trip(g);
    }
    match next_stage(routed) {
        Stage::FunctionTwo => {
            out.push(
                Event {
                    event: String::from_str("message"),
                    content: String::from_str("This is function 2"),
                },
            );
        },
        Stage::FunctionThree => {
            out.push(
                Event {
                    event: String::from_str("message"),
                    content: String::from_str("This is function 3"),
                },
            );
        },
        _ => {
            out.push(
                Event {
                    event: String::from_str("error"),
                    content: String::from_str("invalid route"),
                },
            );
        },
    }
    proof {
        let spec = pipeline_events_spec(g as int);
        let entry = entry_events(stage_json_chars(g as int));
        assert(forall|i: int| 0 <= i < entry.len() ==> spec[i] == entry[i]);
        assert(spec[entry.len() as int] == branch_events(g as int)[0]);
    }
    out
}

/// The pipeline's closing event: for `goto` 2 the sequence ends with the
/// function-2 marker, for 3 with the function-3 marker, and for any other
/// value it is the entry events followed by exactly one invalid-route
/// event and nothing further.
pub proof fn lemma_pipeline_terminal(g: int)
    ensures
        pipeline_events_spec(g).len() > 0,
        g == 2 ==> pipeline_events_spec(g).last() == function_two_marker(),
        g == 3 ==> pipeline_events_spec(g).last() == function_three_marker(),
        g != 2 && g != 3 ==> pipeline_events_spec(g) == entry_events(stage_json_chars(g)).push(
            invalid_route_event(),
        ),
{
    let entry = entry_events(stage_json_chars(g));
    let branch = branch_events(g);
    assert((entry + branch).last() == branch.last());
    if g != 2 && g != 3 {
        assert(entry + branch =~= entry.push(invalid_route_event()));
    }
}

} // verus!
