//! The proxy forwarder's logic: rebuilding the inbound request against
//! the upstream origin, and the streaming-versus-buffering decision.
//! The media type of the upstream `Content-Type` header is the sole
//! streaming signal: `text/event-stream` is relayed chunk by chunk with
//! the header preserved verbatim, everything else — the absent header
//! included — is fully buffered before the gateway responds.
use vstd::prelude::*;
use vstd::string::StrSliceExecFns;
use vstd::string::StringExecFns;
use vstd::utf8::encode_utf8;
use crate::text::chars_of;
use crate::text::str_eq;
use crate::text::string_of;

verus! {

/// One inbound header, its value as the raw bytes received.
pub struct HeaderField {
    pub name: String,
    pub value: Vec<u8>,
}

/// An inbound HTTP request: method, path with query, headers, body.
pub struct InboundRequest {
    pub method: String,
    pub target: String,
    pub headers: Vec<HeaderField>,
    pub body: Vec<u8>,
}

/// The HTTP methods the forwarder sends upstream.
#[derive(Debug, PartialEq, Eq, Structural)]
pub enum Method {
    Get,
    Post,
    Put,
    Delete,
    Head,
    Options,
    Patch,
    Trace,
    Connect,
}

/// One outbound header, its value as text.
pub struct HeaderText {
    pub name: String,
    pub value: String,
}

/// The inbound request rebound to the upstream origin, owned by the
/// forwarder for one forward operation.
pub struct OutboundRequest {
    pub method: Method,
    pub origin: String,
    pub target: String,
    pub headers: Vec<HeaderText>,
    pub body: Vec<u8>,
}

/// Which method an inbound method string names. An unrecognized string
/// falls back to `Get` — a deliberate permissive default, kept rather
/// than rejecting the request.
pub open spec fn method_of(s: Seq<char>) -> Method {
    if s == "GET"@ {
        Method::Get
    } else if s == "POST"@ {
        Method::Post
    } else if s == "PUT"@ {
        Method::Put
    } else if s == "DELETE"@ {
        Method::Delete
    } else if s == "HEAD"@ {
        Method::Head
    } else if s == "OPTIONS"@ {
        Method::Options
    } else if s == "PATCH"@ {
        Method::Patch
    } else if s == "TRACE"@ {
        Method::Trace
    } else if s == "CONNECT"@ {
        Method::Connect
    } else {
        Method::Get
    }
}

/// The exec form of `method_of`.
pub fn parse_method(s: &str) -> (m: Method)
    ensures
        m == method_of(s@),
{
    if str_eq(s, "GET") {
        Method::Get
    } else if str_eq(s, "POST") {
        Method::Post
    } else if str_eq(s, "PUT") {
        Method::Put
    } else if str_eq(s, "DELETE") {
        Method::Delete
    } else if str_eq(s, "HEAD") {
        Method::Head
    } else if str_eq(s, "OPTIONS") {
        Method::Options
    } else if str_eq(s, "PATCH") {
        Method::Patch
    } else if str_eq(s, "TRACE") {
        Method::Trace
    } else if str_eq(s, "CONNECT") {
        Method::Connect
    } else {
        Method::Get
    }
}

/// The name of a method, as it goes on the wire.
pub open spec fn method_chars(m: Method) -> Seq<char> {
    match m {
        Method::Get => "GET"@,
        Method::Post => "POST"@,
        Method::Put => "PUT"@,
        Method::Delete => "DELETE"@,
        Method::Head => "HEAD"@,
        Method::Options => "OPTIONS"@,
        Method::Patch => "PATCH"@,
        Method::Trace => "TRACE"@,
        Method::Connect => "CONNECT"@,
    }
}

/// The exec form of `method_chars`.
pub fn method_name(m: &Method) -> (r: String)
    ensures
        r@ == method_chars(*m),
{
    match m {
        Method::Get => String::from_str("GET"),
        Method::Post => String::from_str("POST"),
        Method::Put => String::from_str("PUT"),
        Method::Delete => String::from_str("DELETE"),
        Method::Head => String::from_str("HEAD"),
        Method::Options => String::from_str("OPTIONS"),
        Method::Patch => String::from_str("PATCH"),
        Method::Trace => String::from_str("TRACE"),
        Method::Connect => String::from_str("CONNECT"),
    }
}

/// Whether a header byte is representable as text: visible ASCII or
/// space.
pub open spec fn is_text_byte(b: u8) -> bool {
    32 <= b && b < 127
}

/// Whether a whole header value is representable as text.
pub open spec fn is_text_value(v: Seq<u8>) -> bool {
    forall|i: int| 0 <= i < v.len() ==> is_text_byte(v[i])
}

/// A text header value, read byte for byte as characters.
pub open spec fn text_chars(v: Seq<u8>) -> Seq<char> {
    Seq::new(v.len(), |i: int| v[i] as char)
}

/// How a raw header value is forwarded: as its text when representable,
/// as the empty value — rather than aborting the request — when not.
pub open spec fn header_text_spec(v: Seq<u8>) -> Seq<char> {
    if is_text_value(v) {
        text_chars(v)
    } else {
        Seq::<char>::empty()
    }
}

/// The exec form of `header_text_spec`.
pub fn header_value_text(v: &Vec<u8>) -> (s: String)
    ensures
        s@ == header_text_spec(v@),
{
    let mut out = String::new();
    let mut i: usize = 0;
    while i < v.len()
        invariant
            i <= v.len(),
            forall|j: int| 0 <= j < i ==> is_text_byte(v@[j]),
            out@ == text_chars(v@).subrange(0, i as int),
        decreases v.len() - i,
    {
        let b = v[i];
        if !(32 <= b && b < 127) {
            proof {
                assert(!is_text_value(v@));
            }
            return String::new();
        }
        out.push(b as char);
        proof {
            assert(text_chars(v@).subrange(0, i + 1 as int) =~= text_chars(v@).subrange(
                0,
                i as int,
            ).push(v@[i as int] as char));
        }
        i = i + 1;
    }
    proof {
        assert(is_text_value(v@));
        assert(text_chars(v@).subrange(0, v.len() as int) =~= text_chars(v@));
    }
    out
}

/// A byte-for-byte copy.
fn copy_bytes(v: &Vec<u8>) -> (r: Vec<u8>)
    ensures
        r@ == v@,
{
    let mut r: Vec<u8> = Vec::new();
    let mut i: usize = 0;
    while i < v.len()
        invariant
            i <= v.len(),
            r@ == v@.subrange(0, i as int),
        decreases v.len() - i,
    {
        r.push(v[i]);
        proof {
            assert(v@.subrange(0, i + 1 as int) =~= v@.subrange(0, i as int).push(v@[i as int]));
        }
        i = i + 1;
    }
    proof {
        assert(v@.subrange(0, v.len() as int) =~= v@);
    }
    r
}

/// Rebuilds the inbound request against `origin`: the same method (with
/// the permissive fallback), the same path and query, every header
/// copied with its value as text (empty when not representable), the
/// same body bytes.
pub fn build_outbound(req: &InboundRequest, origin: &str) -> (out: OutboundRequest)
    ensures
        out.method == method_of(req.method@),
        out.origin@ == origin@,
        out.target@ == req.target@,
        out.headers@.len() == req.headers@.len(),
        forall|i: int|
            0 <= i < req.headers@.len() ==> out.headers@[i].name@ == req.headers@[i].name@
                && out.headers@[i].value@ == header_text_spec(req.headers@[i].value@),
        out.body@ == req.body@,
{
    let mut headers: Vec<HeaderText> = Vec::new();
    let mut i: usize = 0;
    while i < req.headers.len()
        invariant
            i <= req.headers.len(),
            headers@.len() == i,
            forall|j: int|
                0 <= j < i ==> headers@[j].name@ == req.headers@[j].name@
                    && headers@[j].value@ == header_text_spec(req.headers@[j].value@),
        decreases req.headers.len() - i,
    {
        let h = &req.headers[i];
        headers.push(HeaderText { name: h.name.clone(), value: header_value_text(&h.value) });
        i = i + 1;
    }
    OutboundRequest {
        method: parse_method(req.method.as_str()),
        origin: String::from_str(origin),
        target: req.target.clone(),
        headers,
        body: copy_bytes(&req.body),
    }
}

/// Whether `c` is header whitespace.
pub open spec fn is_ws(c: char) -> bool {
    c == ' ' || c == '\t'
}

/// The position of the first `;` in `s`, or its length.
pub open spec fn first_semi(s: Seq<char>) -> nat
    decreases s.len(),
{
    if s.len() == 0 {
        0
    } else if s[0] == ';' {
        0
    } else {
        1 + first_semi(s.drop_first())
    }
}

/// A scan that found no `;` before `k`, and one at `k` unless `k` is
/// the end, found the first.
proof fn lemma_first_semi(s: Seq<char>, k: int)
    requires
        0 <= k <= s.len(),
        forall|j: int| 0 <= j < k ==> s[j] != ';',
        k < s.len() ==> s[k] == ';',
    ensures
        first_semi(s) == k,
    decreases k,
{
    if k > 0 {
        lemma_first_semi(s.drop_first(), k - 1);
    }
}

/// How many whitespace characters `s` starts with.
pub open spec fn lead_ws(s: Seq<char>) -> nat
    decreases s.len(),
{
    if s.len() > 0 && is_ws(s[0]) {
        1 + lead_ws(s.drop_first())
    } else {
        0
    }
}

/// How many whitespace characters `s` ends with.
pub open spec fn trail_ws(s: Seq<char>) -> nat
    decreases s.len(),
{
    if s.len() > 0 && is_ws(s.last()) {
        1 + trail_ws(s.drop_last())
    } else {
        0
    }
}

/// A scan that saw whitespace up to `k` and none (or the end) at `k`
/// counted the leading whitespace.
proof fn lemma_lead_ws(s: Seq<char>, k: int)
    requires
        0 <= k <= s.len(),
        forall|j: int| 0 <= j < k ==> is_ws(s[j]),
        k < s.len() ==> !is_ws(s[k]),
    ensures
        lead_ws(s) == k,
    decreases k,
{
    if k > 0 {
        lemma_lead_ws(s.drop_first(), k - 1);
    }
}

/// The mirrored scan for trailing whitespace: `k` whitespace characters
/// at the end, preceded by none (or the start).
proof fn lemma_trail_ws(s: Seq<char>, k: int)
    requires
        0 <= k <= s.len(),
        forall|j: int| s.len() - k <= j < s.len() ==> is_ws(s[j]),
        k < s.len() ==> !is_ws(s[s.len() - k - 1]),
    ensures
        trail_ws(s) == k,
    decreases k,
{
    if k > 0 {
        assert(is_ws(s.last()));
        lemma_trail_ws(s.drop_last(), k - 1);
    }
}

/// `s` without its leading and trailing whitespace.
pub open spec fn trim_spec(s: Seq<char>) -> Seq<char> {
    let t = s.skip(lead_ws(s) as int);
    t.take(t.len() - trail_ws(t))
}

/// The media-type portion of a `Content-Type` value: what stands before
/// the first `;`, with surrounding whitespace trimmed.
pub open spec fn media_type_spec(ct: Seq<char>) -> Seq<char> {
    trim_spec(ct.subrange(0, first_semi(ct) as int))
}

/// The exec form of `is_ws`.
fn is_ws_exec(c: char) -> (r: bool)
    ensures
        r == is_ws(c),
{
    c == ' ' || c == '\t'
}

/// Extracts the media-type portion of a `Content-Type` value, as
/// `media_type_spec` describes.
pub fn media_type(ct: &str) -> (r: String)
    ensures
        r@ == media_type_spec(ct@),
{
    let v = chars_of(ct);
    let mut k: usize = 0;
    while k < v.len() && v[k] != ';'
        invariant
            k <= v.len(),
            v@ == ct@,
            forall|j: int| 0 <= j < k ==> v@[j] != ';',
        decreases v.len() - k,
    {
        k = k + 1;
    }
    proof {
        lemma_first_semi(v@, k as int);
    }
    let ghost seg = v@.subrange(0, k as int);
    let mut a: usize = 0;
    while a < k && is_ws_exec(v[a])
        invariant
            a <= k,
            k <= v.len(),
            forall|j: int| 0 <= j < a ==> is_ws(v@[j]),
        decreases k - a,
    {
        a = a + 1;
    }
    proof {
        assert(forall|j: int| 0 <= j < k ==> seg[j] == v@[j]);
        lemma_lead_ws(seg, a as int);
    }
    let ghost t = seg.skip(a as int);
    let mut b: usize = k;
    while b > a && is_ws_exec(v[b - 1])
        invariant
            a <= b <= k,
            k <= v.len(),
            forall|j: int| b <= j < k ==> is_ws(v@[j]),
        decreases b,
    {
        b = b - 1;
    }
    proof {
        assert(t.len() == k - a);
        assert(forall|j: int| 0 <= j < t.len() ==> t[j] == v@[a + j]);
        lemma_trail_ws(t, k - b);
    }
    let mut out: Vec<char> = Vec::new();
    let mut i: usize = a;
    while i < b
        invariant
            a <= i <= b,
            b <= v.len(),
            out@ == v@.subrange(a as int, i as int),
        decreases b - i,
    {
        out.push(v[i]);
        proof {
            assert(v@.subrange(a as int, i + 1 as int) =~= v@.subrange(a as int, i as int).push(
                v@[i as int],
            ));
        }
        i = i + 1;
    }
    proof {
        assert(out@ =~= t.take(t.len() - trail_ws(t)));
    }
    string_of(&out)
}

/// The view of an optional header value.
pub open spec fn opt_str_view(o: Option<String>) -> Option<Seq<char>> {
    match o {
        Some(s) => Some(s@),
        None => None,
    }
}

/// The media type in force for an upstream response: the header's
/// media-type portion, or `application/octet-stream` when the header is
/// absent.
pub open spec fn effective_media_type(ct: Option<Seq<char>>) -> Seq<char> {
    match ct {
        Some(s) => media_type_spec(s),
        None => "application/octet-stream"@,
    }
}

/// The sole streaming signal: the effective media type equals
/// `text/event-stream`, whatever parameters follow the `;`.
pub open spec fn is_event_stream_spec(ct: Option<Seq<char>>) -> bool {
    effective_media_type(ct) == "text/event-stream"@
}

/// How the response body is emitted.
#[derive(Debug, PartialEq, Eq, Structural)]
pub enum DeliveryMode {
    Streaming,
    Buffered,
}

/// Decides the delivery mode from the upstream `Content-Type` header,
/// as `is_event_stream_spec` describes.
pub fn select_mode(content_type: &Option<String>) -> (m: DeliveryMode)
    ensures
        m is Streaming <==> is_event_stream_spec(opt_str_view(*content_type)),
{
    match content_type {
        None => {
            proof {
                reveal_strlit("application/octet-stream");
                reveal_strlit("text/event-stream");
                assert("application/octet-stream"@.len() == 24);
                assert("text/event-stream"@.len() == 17);
                assert(!is_event_stream_spec(None::<Seq<char>>));
            }
            DeliveryMode::Buffered
        },
        Some(s) => {
            let mt = media_type(s.as_str());
            if str_eq(mt.as_str(), "text/event-stream") {
                DeliveryMode::Streaming
            } else {
                DeliveryMode::Buffered
            }
        },
    }
}

/// Whether `s` lies in the valid HTTP status range.
pub open spec fn is_valid_status(s: u16) -> bool {
    100 <= s && s <= 599
}

/// The status a buffered response reuses: the upstream's when valid,
/// 500 otherwise.
pub open spec fn buffered_status(s: u16) -> u16 {
    if is_valid_status(s) {
        s
    } else {
        500
    }
}

/// What the forwarder learned from the upstream before any body was
/// read: the status line and the `Content-Type` header, if present.
pub struct UpstreamHead {
    pub status: u16,
    pub content_type: Option<String>,
}

/// The forwarder's decision for one upstream outcome.
pub enum ForwardPlan {
    /// No response head arrived: the fixed 502 with its diagnostic body
    /// — the forwarder's single hard failure path.
    BadGateway,
    /// Relay the body chunk by chunk, status 200, the original
    /// `Content-Type` header preserved verbatim.
    Stream { content_type: Option<String> },
    /// Read the body to completion, then respond with the upstream's
    /// status (500 when out of range) and its `Content-Type` header.
    Buffer { status: u16, content_type: Option<String> },
}

/// Decides how to forward: unreachable upstreams become the fixed 502;
/// a `text/event-stream` media type selects streaming with the header
/// preserved; every other response — absent header included — is fully
/// buffered, reusing the upstream's status when it is a valid one.
pub fn forward_plan(head: Option<UpstreamHead>) -> (p: ForwardPlan)
    ensures
        (p is BadGateway <==> head is None),
        (match head {
            Some(h) => (p is Stream <==> is_event_stream_spec(opt_str_view(h.content_type))),
            None => true,
        }),
        (match p {
            ForwardPlan::Stream { content_type } => head matches Some(h) && opt_str_view(
                content_type,
            ) == opt_str_view(h.content_type),
            ForwardPlan::Buffer { status, content_type } => head matches Some(h) && status
                == buffered_status(h.status) && opt_str_view(content_type) == opt_str_view(
                h.content_type,
            ),
            ForwardPlan::BadGateway => true,
        }),
{
    match head {
        None => ForwardPlan::BadGateway,
        Some(h) => {
            match select_mode(&h.content_type) {
                DeliveryMode::Streaming => ForwardPlan::Stream { content_type: h.content_type },
                DeliveryMode::Buffered => {
                    let status: u16 = if 100 <= h.status && h.status <= 599 {
                        h.status
                    } else {
                        500
                    };
                    ForwardPlan::Buffer { status, content_type: h.content_type }
                },
            }
        },
    }
}

/// How one read of the full upstream body ended.
pub enum BodyRead {
    Complete(Vec<u8>),
    Failed,
}

/// The body a buffered response carries for one read outcome: the bytes
/// read, degrading to empty — rather than failing the request — when
/// the read failed.
pub open spec fn body_read_spec(r: BodyRead) -> Seq<u8> {
    match r {
        BodyRead::Complete(v) => v@,
        BodyRead::Failed => Seq::<u8>::empty(),
    }
}

/// A buffered response, as the gateway re-emits it.
pub struct GatewayResponse {
    pub status: u16,
    pub content_type: Option<String>,
    pub body: Vec<u8>,
}

/// The fixed answer when the upstream cannot be reached at all.
pub fn bad_gateway() -> (r: GatewayResponse)
    ensures
        r.status == 502,
        r.content_type is None,
        r.body@ == encode_utf8("upstream unreachable"@),
{
    GatewayResponse {
        status: 502,
        content_type: None,
        body: "upstream unreachable".as_bytes_vec(),
    }
}

/// Assembles the buffered response for a `Buffer` plan and one body
/// read outcome.
pub fn buffered_response(status: u16, content_type: Option<String>, read: BodyRead) -> (r:
    GatewayResponse)
    ensures
        r.status == status,
        opt_str_view(r.content_type) == opt_str_view(content_type),
        r.body@ == body_read_spec(read),
{
    let body = match read {
        BodyRead::Complete(v) => v,
        BodyRead::Failed => Vec::new(),
    };
    GatewayResponse { status, content_type, body }
}

/// One observation on a relayed upstream byte stream.
pub enum ChunkEvent {
    Chunk(Vec<u8>),
    Fault,
    End,
}

/// What the relay does with it.
pub enum RelayStep {
    Forward(Vec<u8>),
    Terminate,
}

/// Streams one chunk through unmodified; a mid-stream fault — headers
/// already sent — terminates the remaining stream, as does its end.
pub fn relay_step(e: ChunkEvent) -> (s: RelayStep)
    ensures
        (match s {
            RelayStep::Forward(b) => e matches ChunkEvent::Chunk(c) && b@ == c@,
            RelayStep::Terminate => e is Fault || e is End,
        }),
        (e matches ChunkEvent::Chunk(c) ==> s matches RelayStep::Forward(b) && b@ == c@),
{
    match e {
        ChunkEvent::Chunk(c) => RelayStep::Forward(c),
        ChunkEvent::Fault => RelayStep::Terminate,
        ChunkEvent::End => RelayStep::Terminate,
    }
}

} // verus!
