//! The gateway's routing table: a static (method, path) match over the
//! locally handled routes, with everything unmatched falling through to
//! the proxy forwarder; and the reading of the pipeline's `goto` query
//! parameter.
use vstd::prelude::*;
use crate::dec::parse_u64_chars;
use crate::dec::parse_u64_spec;
use crate::sse::expect_lit;
use crate::sse::starts_with;
use crate::text::chars_of;
use crate::text::str_eq;

verus! {

/// Where a request goes: one of the local handlers, the pipeline
/// stream, or the proxy fallthrough.
#[derive(Debug, PartialEq, Eq, Structural)]
pub enum Route {
    Hello,
    Echo,
    Hey,
    StreamLlm,
    Stream,
    Proxy,
}

/// The static routing table. Local routes live under the `/api` prefix;
/// the pipeline stream answers `GET /stream`; every other method/path
/// pair is proxied.
pub open spec fn route_spec(method: Seq<char>, path: Seq<char>) -> Route {
    if method == "GET"@ && path == "/api/"@ {
        Route::Hello
    } else if method == "POST"@ && path == "/api/echo"@ {
        Route::Echo
    } else if method == "GET"@ && path == "/api/hey"@ {
        Route::Hey
    } else if method == "GET"@ && path == "/api/stream-llm"@ {
        Route::StreamLlm
    } else if method == "GET"@ && path == "/stream"@ {
        Route::Stream
    } else {
        Route::Proxy
    }
}

/// Dispatches `method` and `path` through the routing table.
pub fn route_request(method: &str, path: &str) -> (r: Route)
    ensures
        r == route_spec(method@, path@),
{
    let get = str_eq(method, "GET");
    if get && str_eq(path, "/api/") {
        Route::Hello
    } else if str_eq(method, "POST") && str_eq(path, "/api/echo") {
        Route::Echo
    } else if get && str_eq(path, "/api/hey") {
        Route::Hey
    } else if get && str_eq(path, "/api/stream-llm") {
        Route::StreamLlm
    } else if get && str_eq(path, "/stream") {
        Route::Stream
    } else {
        Route::Proxy
    }
}

/// The position of the first `&` in `q`, or its length.
pub open spec fn first_amp(q: Seq<char>) -> nat
    decreases q.len(),
{
    if q.len() == 0 {
        0
    } else if q[0] == '&' {
        0
    } else {
        1 + first_amp(q.drop_first())
    }
}

/// A scan that found no `&` before `k`, and one at `k` unless `k` is the
/// end, found the first.
proof fn lemma_first_amp(q: Seq<char>, k: int)
    requires
        0 <= k <= q.len(),
        forall|j: int| 0 <= j < k ==> q[j] != '&',
        k < q.len() ==> q[k] == '&',
    ensures
        first_amp(q) == k,
    decreases k,
{
    if k == 0 {
    } else {
        assert(q[0] != '&');
        lemma_first_amp(q.drop_first(), k - 1);
    }
}

/// The first `&` comes no later than the end of the string.
proof fn lemma_first_amp_le(q: Seq<char>)
    ensures
        first_amp(q) <= q.len(),
    decreases q.len(),
{
    if q.len() != 0 && q[0] != '&' {
        lemma_first_amp_le(q.drop_first());
    }
}

/// The value of the first `goto=` segment of the query string, if any.
pub open spec fn find_goto(q: Seq<char>) -> Option<Seq<char>>
    decreases q.len(),
    via find_goto_decreases
{
    let k = first_amp(q);
    let seg = q.subrange(0, k as int);
    if starts_with(seg, "goto="@) {
        Some(seg.skip(5))
    } else if k == q.len() {
        None
    } else {
        find_goto(q.skip(k + 1 as int))
    }
}

#[via_fn]
proof fn find_goto_decreases(q: Seq<char>) {
    lemma_first_amp_le(q);
}

/// Finds the first `goto=` segment of `v`, as `find_goto` describes.
fn find_goto_exec(v: &Vec<char>) -> (r: Option<Vec<char>>)
    ensures
        match r {
            Some(t) => find_goto(v@) == Some(t@),
            None => find_goto(v@) is None,
        },
    decreases v.len(),
{
    proof {
        reveal_strlit("goto=");
    }
    let mut k: usize = 0;
    while k < v.len() && v[k] != '&'
        invariant
            k <= v.len(),
            forall|j: int| 0 <= j < k ==> v@[j] != '&',
        decreases v.len() - k,
    {
        k = k + 1;
    }
    proof {
        lemma_first_amp(v@, k as int);
    }
    let ghost seg = v@.subrange(0, k as int);
    if k >= 5 {
        match expect_lit(v, 0, "goto=") {
            Some(_) => {
                proof {
                    assert(seg.subrange(0, 5) =~= v@.skip(0).subrange(0, 5));
                    assert(starts_with(seg, "goto="@));
                }
                let mut val: Vec<char> = Vec::new();
                let mut i: usize = 5;
                while i < k
                    invariant
                        5 <= i <= k,
                        k <= v.len(),
                        val@ == v@.subrange(5, i as int),
                    decreases k - i,
                {
                    val.push(v[i]);
                    proof {
                        assert(v@.subrange(5, i + 1 as int) =~= v@.subrange(5, i as int).push(
                            v@[i as int],
                        ));
                    }
                    i = i + 1;
                }
                proof {
                    assert(val@ =~= seg.skip(5));
                }
                return Some(val);
            },
            None => {
                proof {
                    assert(!starts_with(seg, "goto="@)) by {
                        if starts_with(seg, "goto="@) {
                            assert(v@.skip(0).subrange(0, 5) =~= seg.subrange(0, 5));
                            assert(starts_with(v@.skip(0), "goto="@));
                        }
                    }
                }
            },
        }
    } else {
        proof {
            assert(!starts_with(seg, "goto="@));
        }
    }
    if k == v.len() {
        return None;
    }
    let mut suf: Vec<char> = Vec::new();
    let mut i: usize = k + 1;
    while i < v.len()
        invariant
            k + 1 <= i <= v.len(),
            suf@ == v@.subrange(k + 1 as int, i as int),
        decreases v.len() - i,
    {
        suf.push(v[i]);
        proof {
            assert(v@.subrange(k + 1 as int, i + 1 as int) =~= v@.subrange(
                k + 1 as int,
                i as int,
            ).push(v@[i as int]));
        }
        i = i + 1;
    }
    proof {
        assert(suf@ =~= v@.skip(k + 1 as int));
    }
    find_goto_exec(&suf)
}

/// The routing value a query string names: 2 when no `goto` parameter
/// is present (the default stage), the parameter's value when it reads
/// as a number, and 0 — a value no stage answers to — when it does not.
pub open spec fn goto_spec(q: Seq<char>) -> u64 {
    match find_goto(q) {
        None => 2,
        Some(val) => match parse_u64_spec(val) {
            Some(g) => g,
            None => 0,
        },
    }
}

/// Reads the pipeline's routing value out of a raw query string, as
/// `goto_spec` describes.
pub fn goto_of_query(q: &str) -> (g: u64)
    ensures
        g == goto_spec(q@),
{
    let v = chars_of(q);
    match find_goto_exec(&v) {
        None => 2,
        Some(val) => match parse_u64_chars(&val) {
            Some(g) => g,
            None => 0,
        },
    }
}

} // verus!
