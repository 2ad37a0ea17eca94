//! The SSE framer: a structured event is serialized to JSON and wrapped
//! as `data: <json>\n\n`. Framing is a pure function of the event's value,
//! and the frame's JSON payload parses back to an equal event.
use vstd::prelude::*;
use vstd::string::StrSliceExecFns;
use vstd::string::StringExecFns;
use vstd::utf8::encode_utf8;
use crate::text::chars_of;
use crate::text::string_of;

verus! {

/// One wire record: a named event carrying a text payload. Equality and
/// serialization are by value.
pub struct Event {
    pub event: String,
    pub content: String,
}

/// The mathematical value of an `Event`: both fields as character
/// sequences.
pub struct EventView {
    pub event: Seq<char>,
    pub content: Seq<char>,
}

impl View for Event {
    type V = EventView;

    open spec fn view(&self) -> EventView {
        EventView { event: self.event@, content: self.content@ }
    }
}

/// The lower-case hexadecimal digit standing for `d`.
pub open spec fn hex_digit(d: int) -> char
    recommends
        0 <= d < 16,
{
    if d < 10 {
        ((48 + d) as u8) as char
    } else {
        ((87 + d) as u8) as char
    }
}

/// How one character appears inside a JSON string: quote, backslash and
/// the common control characters get a two-character escape, any other
/// control character a `\u00..` escape, and everything else stands as
/// itself.
pub open spec fn escape_char(c: char) -> Seq<char> {
    if c == '"' {
        seq!['\\', '"']
    } else if c == '\\' {
        seq!['\\', '\\']
    } else if c == '\n' {
        seq!['\\', 'n']
    } else if c == '\r' {
        seq!['\\', 'r']
    } else if c == '\t' {
        seq!['\\', 't']
    } else if (c as u32) < 32 {
        seq!['\\', 'u', '0', '0', hex_digit(c as u32 as int / 16), hex_digit(c as u32 as int % 16)]
    } else {
        seq![c]
    }
}

/// The JSON-escaped form of a character sequence.
pub open spec fn escape_seq(s: Seq<char>) -> Seq<char>
    decreases s.len(),
{
    if s.len() == 0 {
        Seq::<char>::empty()
    } else {
        escape_char(s[0]) + escape_seq(s.drop_first())
    }
}

/// Escaping a concatenation escapes each part.
pub proof fn lemma_escape_seq_concat(a: Seq<char>, b: Seq<char>)
    ensures
        escape_seq(a + b) == escape_seq(a) + escape_seq(b),
    decreases a.len(),
{
    if a.len() == 0 {
        assert(a + b =~= b);
        assert(escape_seq(a) + escape_seq(b) =~= escape_seq(b));
    } else {
        lemma_escape_seq_concat(a.drop_first(), b);
        assert((a + b).drop_first() =~= a.drop_first() + b);
        assert(escape_char(a[0]) + (escape_seq(a.drop_first()) + escape_seq(b)) =~= (escape_char(
            a[0],
        ) + escape_seq(a.drop_first())) + escape_seq(b));
    }
}

/// The character form of a frame: the JSON record inside the SSE
/// `data:` envelope.
pub open spec fn frame_chars(e: EventView) -> Seq<char> {
    "data: {\"event\":\""@ + escape_seq(e.event) + "\",\"content\":\""@ + escape_seq(e.content)
        + "\"}\n\n"@
}

/// The byte form of a frame: UTF-8 of its characters.
pub open spec fn frame_bytes(e: EventView) -> Seq<u8> {
    encode_utf8(frame_chars(e))
}

/// The exec form of `hex_digit`.
fn hex_digit_exec(d: u8) -> (c: char)
    requires
        d < 16,
    ensures
        c == hex_digit(d as int),
{
    if d < 10 {
        (48 + d) as char
    } else {
        (87 + d) as char
    }
}

/// Appends the escaped form of `c` to `out`.
fn push_escaped_char(out: &mut String, c: char)
    ensures
        final(out)@ == old(out)@ + escape_char(c),
{
    if c == '"' {
        out.append("\\\"");
        proof {
            reveal_strlit("\\\"");
            assert("\\\""@ =~= escape_char(c));
        }
    } else if c == '\\' {
        out.append("\\\\");
        proof {
            reveal_strlit("\\\\");
            assert("\\\\"@ =~= escape_char(c));
        }
    } else if c == '\n' {
        out.append("\\n");
        proof {
            reveal_strlit("\\n");
            assert("\\n"@ =~= escape_char(c));
        }
    } else if c == '\r' {
        out.append("\\r");
        proof {
            reveal_strlit("\\r");
            assert("\\r"@ =~= escape_char(c));
        }
    } else if c == '\t' {
        out.append("\\t");
        proof {
            reveal_strlit("\\t");
            assert("\\t"@ =~= escape_char(c));
        }
    } else if (c as u32) < 32 {
        let u = c as u32;
        out.append("\\u00");
        out.push(hex_digit_exec((u / 16) as u8));
        out.push(hex_digit_exec((u % 16) as u8));
        proof {
            reveal_strlit("\\u00");
            assert("\\u00"@.push(hex_digit(u as int / 16)).push(hex_digit(u as int % 16))
                =~= escape_char(c));
        }
    } else {
        out.push(c);
        proof {
            assert(old(out)@.push(c) =~= old(out)@ + escape_char(c));
        }
    }
}

/// Appends the escaped form of `s` to `out`.
fn push_escaped(out: &mut String, s: &str)
    ensures
        final(out)@ == old(out)@ + escape_seq(s@),
{
    let v = chars_of(s);
    let mut i: usize = 0;
    while i < v.len()
        invariant
            i <= v.len(),
            v@ == s@,
            out@ == old(out)@ + escape_seq(s@.subrange(0, i as int)),
        decreases v.len() - i,
    {
        push_escaped_char(out, v[i]);
        proof {
            let pre = s@.subrange(0, i as int);
            assert(s@.subrange(0, i + 1 as int) =~= pre + seq![s@[i as int]]);
            lemma_escape_seq_concat(pre, seq![s@[i as int]]);
            assert(seq![s@[i as int]].drop_first() =~= Seq::<char>::empty());
            assert(escape_seq(Seq::<char>::empty()) =~= Seq::<char>::empty());
            assert(escape_seq(seq![s@[i as int]]) =~= escape_char(s@[i as int]));
            assert((old(out)@ + escape_seq(pre)) + escape_char(s@[i as int]) =~= old(out)@
                + escape_seq(s@.subrange(0, i + 1 as int)));
        }
        i = i + 1;
    }
    proof {
        assert(s@.subrange(0, s@.len() as int) =~= s@);
    }
}

/// The frame of `e`, as characters.
pub fn frame_string(e: &Event) -> (r: String)
    ensures
        r@ == frame_chars(e@),
{
    let mut out = String::from_str("data: {\"event\":\"");
    push_escaped(&mut out, e.event.as_str());
    out.append("\",\"content\":\"");
    push_escaped(&mut out, e.content.as_str());
    out.append("\"}\n\n");
    proof {
        assert(out@ =~= frame_chars(e@));
    }
    out
}

/// Serializes `e` into its SSE wire frame, `data: <json>\n\n`, in UTF-8.
pub fn frame(e: &Event) -> (r: Vec<u8>)
    ensures
        r@ == frame_bytes(e@),
{
    let s = frame_string(e);
    s.as_str().as_bytes_vec()
}

/// Equal events frame to byte-identical output.
pub proof fn lemma_frame_deterministic(a: EventView, b: EventView)
    requires
        a == b,
    ensures
        frame_bytes(a) == frame_bytes(b),
{
}

/// Whether `c` is a lower-case hexadecimal digit.
pub open spec fn is_hex(c: char) -> bool {
    (48 <= c as u32 && c as u32 <= 57) || (97 <= c as u32 && c as u32 <= 102)
}

/// The value of the hexadecimal digit `c`.
pub open spec fn hex_val(c: char) -> int
    recommends
        is_hex(c),
{
    if c as u32 <= 57 {
        c as u32 - 48
    } else {
        c as u32 - 87
    }
}

/// The character named by a two-character escape, if any.
pub open spec fn simple_unescape(c: char) -> Option<char> {
    if c == '"' {
        Some('"')
    } else if c == '\\' {
        Some('\\')
    } else if c == 'n' {
        Some('\n')
    } else if c == 'r' {
        Some('\r')
    } else if c == 't' {
        Some('\t')
    } else {
        None
    }
}

/// Reads a JSON string body up to and including its closing quote:
/// the decoded characters and what follows the quote. Unterminated
/// input, an unknown escape or a raw control character read nothing.
pub open spec fn scan_string(s: Seq<char>) -> Option<(Seq<char>, Seq<char>)>
    decreases s.len(),
{
    if s.len() == 0 {
        None
    } else if s[0] == '"' {
        Some((Seq::<char>::empty(), s.drop_first()))
    } else if s[0] == '\\' {
        if s.len() < 2 {
            None
        } else if s[1] == 'u' {
            if s.len() >= 6 && s[2] == '0' && s[3] == '0' && is_hex(s[4]) && is_hex(s[5]) {
                let d = ((16 * hex_val(s[4]) + hex_val(s[5])) as u32) as char;
                match scan_string(s.skip(6)) {
                    Some(p) => Some((seq![d] + p.0, p.1)),
                    None => None,
                }
            } else {
                None
            }
        } else {
            match simple_unescape(s[1]) {
                Some(d) => match scan_string(s.skip(2)) {
                    Some(p) => Some((seq![d] + p.0, p.1)),
                    None => None,
                },
                None => None,
            }
        }
    } else if (s[0] as u32) < 32 {
        None
    } else {
        match scan_string(s.drop_first()) {
            Some(p) => Some((seq![s[0]] + p.0, p.1)),
            None => None,
        }
    }
}

/// Whether `p` is a prefix of `s`.
pub open spec fn starts_with(s: Seq<char>, p: Seq<char>) -> bool {
    p.len() <= s.len() && s.subrange(0, p.len() as int) == p
}

/// What a frame's characters mean: the event they carry, if they are
/// exactly one well-formed frame.
pub open spec fn parse_frame_chars(s: Seq<char>) -> Option<EventView> {
    let pre = "data: {\"event\":\""@;
    let mid = ",\"content\":\""@;
    let suf = "}\n\n"@;
    if starts_with(s, pre) {
        match scan_string(s.skip(pre.len() as int)) {
            Some(p1) => if starts_with(p1.1, mid) {
                match scan_string(p1.1.skip(mid.len() as int)) {
                    Some(p2) => if p2.1 == suf {
                        Some(EventView { event: p1.0, content: p2.0 })
                    } else {
                        None
                    },
                    None => None,
                }
            } else {
                None
            },
            None => None,
        }
    } else {
        None
    }
}

/// The exec form of `is_hex`.
fn is_hex_exec(c: char) -> (r: bool)
    ensures
        r == is_hex(c),
{
    let u = c as u32;
    (48 <= u && u <= 57) || (97 <= u && u <= 102)
}

/// The exec form of `hex_val`.
fn hex_val_exec(c: char) -> (r: u8)
    requires
        is_hex(c),
    ensures
        r as int == hex_val(c),
{
    let u = c as u32;
    if u <= 57 {
        (u - 48) as u8
    } else {
        (u - 87) as u8
    }
}

/// The exec form of `simple_unescape`.
fn simple_unescape_exec(c: char) -> (r: Option<char>)
    ensures
        r == simple_unescape(c),
{
    if c == '"' {
        Some('"')
    } else if c == '\\' {
        Some('\\')
    } else if c == 'n' {
        Some('\n')
    } else if c == 'r' {
        Some('\r')
    } else if c == 't' {
        Some('\t')
    } else {
        None
    }
}

/// Reads a JSON string body out of `v` starting at `i`, as `scan_string`
/// describes; on success the decoded characters and the index after the
/// closing quote.
fn scan_exec(v: &Vec<char>, i: usize) -> (r: Option<(Vec<char>, usize)>)
    requires
        i <= v.len(),
    ensures
        match r {
            Some(p) => i < p.1 <= v@.len() && scan_string(v@.skip(i as int)) == Some(
                (p.0@, v@.skip(p.1 as int)),
            ),
            None => scan_string(v@.skip(i as int)) is None,
        },
    decreases v.len() - i,
{
    let ghost s = v@.skip(i as int);
    if i == v.len() {
        return None;
    }
    let c = v[i];
    proof {
        assert(s[0] == c);
    }
    if c == '"' {
        proof {
            assert(s.drop_first() =~= v@.skip(i + 1));
        }
        return Some((Vec::new(), i + 1));
    }
    if c == '\\' {
        if v.len() - i < 2 {
            return None;
        }
        let e = v[i + 1];
        proof {
            assert(s[1] == e);
        }
        if e == 'u' {
            if v.len() - i >= 6 {
                let c2 = v[i + 2];
                let c3 = v[i + 3];
                let c4 = v[i + 4];
                let c5 = v[i + 5];
                proof {
                    assert(s[2] == c2 && s[3] == c3 && s[4] == c4 && s[5] == c5);
                }
                if c2 == '0' && c3 == '0' && is_hex_exec(c4) && is_hex_exec(c5) {
                    let code: u8 = 16 * hex_val_exec(c4) + hex_val_exec(c5);
                    let d = code as char;
                    proof {
                        assert(s.skip(6) =~= v@.skip(i + 6));
                    }
                    match scan_exec(v, i + 6) {
                        Some(p) => {
                            let (mut t, j) = p;
                            t.insert(0, d);
                            proof {
                                assert(t@ =~= seq![d] + t@.skip(1));
                            }
                            return Some((t, j));
                        },
                        None => {
                            return None;
                        },
                    }
                } else {
                    return None;
                }
            } else {
                return None;
            }
        }
        match simple_unescape_exec(e) {
            Some(d) => {
                proof {
                    assert(s.skip(2) =~= v@.skip(i + 2));
                }
                match scan_exec(v, i + 2) {
                    Some(p) => {
                        let (mut t, j) = p;
                        t.insert(0, d);
                        proof {
                            assert(t@ =~= seq![d] + t@.skip(1));
                        }
                        return Some((t, j));
                    },
                    None => {
                        return None;
                    },
                }
            },
            None => {
                return None;
            },
        }
    }
    if (c as u32) < 32 {
        return None;
    }
    proof {
        assert(s.drop_first() =~= v@.skip(i + 1));
    }
    match scan_exec(v, i + 1) {
        Some(p) => {
            let (mut t, j) = p;
            t.insert(0, c);
            proof {
                assert(t@ =~= seq![c] + t@.skip(1));
            }
            Some((t, j))
        },
        None => None,
    }
}

/// Whether the characters of `lit` stand in `v` at position `i`; on
/// success the index just past them.
pub(crate) fn expect_lit(v: &Vec<char>, i: usize, lit: &str) -> (r: Option<usize>)
    requires
        i <= v.len(),
    ensures
        match r {
            Some(j) => j == i + lit@.len() && j <= v@.len() && starts_with(
                v@.skip(i as int),
                lit@,
            ),
            None => !starts_with(v@.skip(i as int), lit@),
        },
{
    let lc = chars_of(lit);
    if v.len() - i < lc.len() {
        return None;
    }
    let mut k: usize = 0;
    while k < lc.len()
        invariant
            k <= lc.len(),
            lc@ == lit@,
            i + lc.len() <= v.len(),
            forall|m: int| 0 <= m < k ==> v@[i + m] == lit@[m],
        decreases lc.len() - k,
    {
        if v[i + k] != lc[k] {
            proof {
                assert(v@.skip(i as int)[k as int] == v@[i + k]);
                assert(!starts_with(v@.skip(i as int), lit@)) by {
                    if starts_with(v@.skip(i as int), lit@) {
                        assert(v@.skip(i as int).subrange(0, lit@.len() as int)[k as int]
                            == lit@[k as int]);
                    }
                }
            }
            return None;
        }
        k = k + 1;
    }
    proof {
        assert(v@.skip(i as int).subrange(0, lit@.len() as int) =~= lit@);
    }
    Some(i + lc.len())
}

/// Parses one SSE frame back into its event, as `parse_frame_chars`
/// describes.
pub fn parse_frame(s: &str) -> (r: Option<Event>)
    ensures
        match r {
            Some(ev) => parse_frame_chars(s@) == Some(ev@),
            None => parse_frame_chars(s@) is None,
        },
{
    let v = chars_of(s);
    proof {
        assert(v@.skip(0) =~= s@);
    }
    let i0 = match expect_lit(&v, 0, "data: {\"event\":\"") {
        Some(j) => j,
        None => {
            return None;
        },
    };
    proof {
        assert(v@.skip(0).skip("data: {\"event\":\""@.len() as int) =~= v@.skip(i0 as int));
    }
    let p1 = match scan_exec(&v, i0) {
        Some(p) => p,
        None => {
            return None;
        },
    };
    let (evname, i1) = p1;
    let i2 = match expect_lit(&v, i1, ",\"content\":\"") {
        Some(j) => j,
        None => {
            return None;
        },
    };
    proof {
        assert(v@.skip(i1 as int).skip(",\"content\":\""@.len() as int) =~= v@.skip(i2 as int));
    }
    let p2 = match scan_exec(&v, i2) {
        Some(p) => p,
        None => {
            return None;
        },
    };
    let (content, i3) = p2;
    let i4 = match expect_lit(&v, i3, "}\n\n") {
        Some(j) => j,
        None => {
            proof {
                assert(v@.skip(i3 as int) != "}\n\n"@) by {
                    if v@.skip(i3 as int) == "}\n\n"@ {
                        assert(v@.skip(i3 as int).subrange(0, "}\n\n"@.len() as int) =~= "}\n\n"@);
                    }
                }
            }
            return None;
        },
    };
    if i4 != v.len() {
        proof {
            assert(v@.skip(i3 as int).len() != "}\n\n"@.len());
        }
        return None;
    }
    proof {
        assert(v@.skip(i3 as int) =~= "}\n\n"@);
    }
    Some(Event { event: string_of(&evname), content: string_of(&content) })
}

/// Every escaped digit pair reads back as the value it stands for.
proof fn lemma_hex_digit_val(d: int)
    requires
        0 <= d < 16,
    ensures
        is_hex(hex_digit(d)),
        hex_val(hex_digit(d)) == d,
{
}

/// Reading a string body out of an escaped sequence followed by a
/// closing quote recovers the original characters and the trailing rest.
proof fn lemma_scan_escape(s: Seq<char>, rest: Seq<char>)
    ensures
        scan_string(escape_seq(s) + seq!['"'] + rest) == Some((s, rest)),
    decreases s.len(),
{
    let full = escape_seq(s) + seq!['"'] + rest;
    if s.len() == 0 {
        assert(full =~= seq!['"'] + rest);
        assert(full[0] == '"');
        assert(full.drop_first() =~= rest);
        assert(Seq::<char>::empty() =~= s);
    } else {
        let c = s[0];
        let tail = s.drop_first();
        lemma_scan_escape(tail, rest);
        let sub = escape_seq(tail) + seq!['"'] + rest;
        let ec = escape_char(c);
        assert(escape_seq(s) == ec + escape_seq(tail));
        assert(full =~= ec + sub);
        assert(seq![c] + tail =~= s);
        if c == '"' || c == '\\' || c == '\n' || c == '\r' || c == '\t' {
            assert(full[0] == '\\');
            assert(full[1] != 'u');
            assert(simple_unescape(full[1]) == Some(c));
            assert(full.skip(2) =~= sub);
        } else if (c as u32) < 32 {
            let u = c as u32;
            lemma_hex_digit_val(u as int / 16);
            lemma_hex_digit_val(u as int % 16);
            assert(full[0] == '\\' && full[1] == 'u' && full[2] == '0' && full[3] == '0');
            assert(is_hex(full[4]) && is_hex(full[5]));
            assert(full.len() >= 6);
            assert(full.skip(6) =~= sub);
            assert(16 * hex_val(full[4]) + hex_val(full[5]) == u as int);
            vstd::utf8::char_u32_cast(c, u);
            assert(((16 * hex_val(full[4]) + hex_val(full[5])) as u32) as char == c);
        } else {
            assert(full[0] == c);
            assert(full[0] != '"' && full[0] != '\\');
            assert(full.drop_first() =~= sub);
        }
    }
}

/// Framing an event and parsing the frame back yields an equal event:
/// the round trip of the SSE wire form loses nothing.
pub proof fn lemma_frame_parse_round_trip(e: EventView)
    ensures
        parse_frame_chars(frame_chars(e)) == Some(e),
{
    reveal_strlit("data: {\"event\":\"");
    reveal_strlit("\",\"content\":\"");
    reveal_strlit(",\"content\":\"");
    reveal_strlit("\"}\n\n");
    reveal_strlit("}\n\n");
    let pre = "data: {\"event\":\""@;
    let mid = ",\"content\":\""@;
    let suf = "}\n\n"@;
    let f = frame_chars(e);
    let rest1 = mid + escape_seq(e.content) + seq!['"'] + suf;
    assert("\",\"content\":\""@ =~= seq!['"'] + mid);
    assert("\"}\n\n"@ =~= seq!['"'] + suf);
    assert(f =~= pre + (escape_seq(e.event) + seq!['"'] + rest1));
    assert(starts_with(f, pre)) by {
        assert(f.subrange(0, pre.len() as int) =~= pre);
    }
    assert(f.skip(pre.len() as int) =~= escape_seq(e.event) + seq!['"'] + rest1);
    lemma_scan_escape(e.event, rest1);
    assert(starts_with(rest1, mid)) by {
        assert(rest1.subrange(0, mid.len() as int) =~= mid);
    }
    assert(rest1.skip(mid.len() as int) =~= escape_seq(e.content) + seq!['"'] + suf);
    lemma_scan_escape(e.content, suf);
    assert(EventView { event: e.event, content: e.content } == e);
}

} // verus!
