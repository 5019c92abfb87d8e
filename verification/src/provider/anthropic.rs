//! The Anthropic Messages event stream: frames, their `data:` payloads, and the mapping of
//! stream events to provider events.
use vstd::prelude::*;

use super::auth::AuthScheme;
use super::definition::{
    builtin_name, opt_seq, pairs_view, BuiltinProvider, ProviderCapabilities, ProviderDefinition, ProviderId, WireApi,
};
use super::model::Role;
use super::stream::{ContentBlockDelta, ContentBlockStart, ProviderEvent};
use crate::text::{join_texts, joined_with, push_range, str_eq, string_views, trim_start_text, trim_start_ws};

verus! {

// ---------------------------------------------------------------- frames

/// `buffer` holds `pat` at position `i`.
pub open spec fn occurs_at(buffer: Seq<u8>, pat: Seq<u8>, i: int) -> bool {
    0 <= i && i + pat.len() <= buffer.len() && buffer.subrange(i, i + pat.len()) == pat
}

pub open spec fn lf_lf() -> Seq<u8> {
    seq![10u8, 10u8]
}

pub open spec fn crlf_crlf() -> Seq<u8> {
    seq![13u8, 10u8, 13u8, 10u8]
}

/// Where the first frame of `buffer` ends and how long its delimiter is: the first blank line
/// `\n\n`, else the first `\r\n\r\n`; `None` when no frame is complete.
#[verifier::opaque]
pub open spec fn frame_boundary(buffer: Seq<u8>) -> Option<(usize, usize)> {
    if exists|i: int| occurs_at(buffer, lf_lf(), i) {
        let i = choose|i: int| occurs_at(buffer, lf_lf(), i) && forall|j: int| 0 <= j < i ==> !occurs_at(buffer, lf_lf(), j);
        Some((i as usize, 2))
    } else if exists|i: int| occurs_at(buffer, crlf_crlf(), i) {
        let i = choose|i: int|
            occurs_at(buffer, crlf_crlf(), i) && forall|j: int| 0 <= j < i ==> !occurs_at(buffer, crlf_crlf(), j);
        Some((i as usize, 4))
    } else {
        None
    }
}

fn first_occurrence(buffer: &Vec<u8>, pat: &Vec<u8>) -> (r: Option<usize>)
    requires
        pat@.len() > 0,
    ensures
        match r {
            Some(i) => occurs_at(buffer@, pat@, i as int) && forall|j: int| 0 <= j < i ==> !occurs_at(buffer@, pat@, j),
            None => forall|j: int| !occurs_at(buffer@, pat@, j),
        },
{
    let n = buffer.len();
    let m = pat.len();
    if n < m {
        return None;
    }
    let mut i: usize = 0;
    while i <= n - m
        invariant
            n == buffer@.len(),
            m == pat@.len(),
            m > 0,
            m <= n,
            i <= n - m + 1,
            forall|j: int| 0 <= j < i ==> !occurs_at(buffer@, pat@, j),
        decreases n - i,
    {
        let mut k: usize = 0;
        let mut matched = true;
        while k < m
            invariant
                n == buffer@.len(),
                m == pat@.len(),
                i + m <= n,
                k <= m,
                matched == forall|q: int| 0 <= q < k ==> buffer@[i + q] == pat@[q],
            decreases m - k,
        {
            if buffer[i + k] != pat[k] {
                matched = false;
            }
            k += 1;
        }
        if matched {
            assert(buffer@.subrange(i as int, i + m) =~= pat@);
            return Some(i);
        }
        proof {
            let q = choose|q: int| 0 <= q < m && buffer@[i + q] != pat@[q];
            assert(buffer@.subrange(i as int, i + m)[q] != pat@[q]);
        }
        i += 1;
    }
    None
}

/// The end of the first complete frame in `buffer` and the length of its delimiter.
pub fn find_frame_boundary(buffer: &Vec<u8>) -> (r: Option<(usize, usize)>)
    ensures
        r == frame_boundary(buffer@),
        r matches Some((e, d)) ==> (d == 2 && occurs_at(buffer@, lf_lf(), e as int)) || (d == 4 && occurs_at(
            buffer@,
            crlf_crlf(),
            e as int,
        )),
{
    proof {
        reveal(frame_boundary);
    }
    let lf: Vec<u8> = vec![10u8, 10u8];
    let crlf: Vec<u8> = vec![13u8, 10u8, 13u8, 10u8];
    assert(lf@ =~= lf_lf());
    assert(crlf@ =~= crlf_crlf());
    match first_occurrence(buffer, &lf) {
        Some(i) => {
            proof {
                let c = choose|c: int|
                    occurs_at(buffer@, lf_lf(), c) && forall|j: int| 0 <= j < c ==> !occurs_at(buffer@, lf_lf(), j);
                if c < i {
                } else if i < c {
                    assert(!occurs_at(buffer@, lf_lf(), i as int));
                }
            }
            return Some((i, 2));
        },
        None => {},
    }
    match first_occurrence(buffer, &crlf) {
        Some(i) => {
            proof {
                let c = choose|c: int|
                    occurs_at(buffer@, crlf_crlf(), c) && forall|j: int| 0 <= j < c ==> !occurs_at(
                        buffer@,
                        crlf_crlf(),
                        j,
                    );
                if c < i {
                } else if i < c {
                    assert(!occurs_at(buffer@, crlf_crlf(), i as int));
                }
            }
            Some((i, 4))
        },
        None => None,
    }
}

proof fn lemma_split_at(whole: Seq<u8>, e: int, pat: Seq<u8>)
    requires
        occurs_at(whole, pat, e),
    ensures
        whole == whole.subrange(0, e) + pat + whole.subrange(e + pat.len(), whole.len() as int),
{
    assert(whole =~= whole.subrange(0, e) + whole.subrange(e, e + pat.len()) + whole.subrange(
        e + pat.len(),
        whole.len() as int,
    ));
}

/// `buffer[..e]` and `buffer[e + d..]`.
fn split_buffer(buffer: &Vec<u8>, e: usize, d: usize) -> (r: (Vec<u8>, Vec<u8>))
    requires
        e + d <= buffer@.len(),
    ensures
        r.0@ == buffer@.subrange(0, e as int),
        r.1@ == buffer@.subrange(e + d, buffer@.len() as int),
{
    let n = buffer.len();
    let mut frame: Vec<u8> = Vec::new();
    let mut i: usize = 0;
    while i < e
        invariant
            i <= e,
            e + d <= n,
            n == buffer@.len(),
            frame@ == buffer@.subrange(0, i as int),
        decreases e - i,
    {
        frame.push(buffer[i]);
        assert(buffer@.subrange(0, i as int + 1) =~= buffer@.subrange(0, i as int).push(buffer@[i as int]));
        i += 1;
    }
    let mut rest: Vec<u8> = Vec::new();
    let mut j: usize = e + d;
    while j < n
        invariant
            e + d <= j <= n,
            n == buffer@.len(),
            rest@ == buffer@.subrange(e + d, j as int),
        decreases n - j,
    {
        rest.push(buffer[j]);
        assert(buffer@.subrange(e + d, j as int + 1) =~= buffer@.subrange(e + d, j as int).push(buffer@[j as int]));
        j += 1;
    }
    (frame, rest)
}

/// Takes the first complete frame off the front of `buffer`, with its delimiter; `None`, and
/// the buffer as it was, while no frame is complete. Nothing is lost: the frame, its
/// delimiter and what remains make up the former buffer.
pub fn take_frame(buffer: &mut Vec<u8>) -> (r: Option<Vec<u8>>)
    ensures
        match frame_boundary(old(buffer)@) {
            Some((e, d)) => r matches Some(frame) && frame@ == old(buffer)@.subrange(0, e as int) && final(buffer)@
                == old(buffer)@.subrange(e + d, old(buffer)@.len() as int),
            None => r is None && final(buffer)@ == old(buffer)@,
        },
        r matches Some(frame) ==> old(buffer)@ == frame@ + lf_lf() + final(buffer)@ || old(buffer)@ == frame@
            + crlf_crlf() + final(buffer)@,
{
    let (e, d) = match find_frame_boundary(buffer) {
        Some(b) => b,
        None => {
            return None;
        },
    };
    let (frame, rest) = split_buffer(buffer, e, d);
    proof {
        if d == 2 {
            lemma_split_at(buffer@, e as int, lf_lf());
        } else {
            lemma_split_at(buffer@, e as int, crlf_crlf());
        }
    }
    *buffer = rest;
    Some(frame)
}

// ---------------------------------------------------------------- frame payloads

/// What `str::from_utf8` makes of `bytes`: the text, or the message of its error.
pub uninterp spec fn utf8_decoding(bytes: Seq<u8>) -> Result<Seq<char>, Seq<char>>;

/// Calls `str::from_utf8`; an error is returned as its message.
#[verifier::external_body]
fn decode_utf8(bytes: &[u8]) -> (r: Result<String, String>)
    ensures
        match utf8_decoding(bytes@) {
            Ok(t) => r matches Ok(s) && s@ == t,
            Err(m) => r matches Err(e) && e@ == m,
        },
{
    match std::str::from_utf8(bytes) {
        Ok(text) => Ok(text.to_owned()),
        Err(error) => Err(error.to_string()),
    }
}

/// `s` without one trailing carriage return.
pub open spec fn strip_cr(s: Seq<char>) -> Seq<char> {
    if s.len() > 0 && s.last() == '\r' {
        s.drop_last()
    } else {
        s
    }
}

/// Position of the first line feed in `s` (its length when there is none).
pub open spec fn first_nl(s: Seq<char>) -> nat
    decreases s.len(),
{
    if s.len() == 0 {
        0
    } else if s[0] == '\n' {
        0
    } else {
        1 + first_nl(s.drop_first())
    }
}

proof fn lemma_first_nl(s: Seq<char>)
    ensures
        first_nl(s) <= s.len(),
        first_nl(s) < s.len() ==> s[first_nl(s) as int] == '\n',
        forall|j: int| 0 <= j < first_nl(s) ==> s[j] != '\n',
    decreases s.len(),
{
    if s.len() > 0 && s[0] != '\n' {
        lemma_first_nl(s.drop_first());
        assert forall|j: int| 0 <= j < first_nl(s) implies s[j] != '\n' by {
            if j > 0 {
                assert(s[j] == s.drop_first()[j - 1]);
            }
        }
    }
}

proof fn lemma_first_nl_at(s: Seq<char>, k: int)
    requires
        0 <= k <= s.len(),
        forall|j: int| 0 <= j < k ==> s[j] != '\n',
        k < s.len() ==> s[k] == '\n',
    ensures
        first_nl(s) == k,
    decreases k,
{
    if k > 0 {
        lemma_first_nl_at(s.drop_first(), k - 1);
    }
}

/// The payload of one line of a frame: the text after `data:` (leading white space trimmed);
/// nothing for blank lines, comments (`:`) and other fields.
pub open spec fn line_data(l: Seq<char>) -> Seq<Seq<char>> {
    if l.len() == 0 || l[0] == ':' {
        Seq::empty()
    } else if l.len() >= 5 && l.take(5) == "data:"@ {
        seq![trim_start_ws(l.skip(5))]
    } else {
        Seq::empty()
    }
}

/// The `data:` payloads of a frame's lines, in order. Lines end at `\n`; a line ended by a
/// line feed loses up to two trailing carriage returns, the last line up to one.
pub open spec fn data_lines(s: Seq<char>) -> Seq<Seq<char>>
    decreases s.len(),
{
    let k = first_nl(s);
    if k >= s.len() {
        line_data(strip_cr(s))
    } else {
        line_data(strip_cr(strip_cr(s.take(k as int)))) + data_lines(s.skip(k as int + 1))
    }
}

/// The `data:` payload of a frame, its lines joined with `\n`: `None` when it has none,
/// an error message when the frame is not UTF-8.
pub open spec fn frame_payload(frame: Seq<u8>) -> Result<Option<Seq<char>>, Seq<char>> {
    match utf8_decoding(frame) {
        Err(m) => Err(m),
        Ok(t) => if data_lines(t).len() == 0 {
            Ok(None)
        } else {
            Ok(Some(joined_with(data_lines(t), "\n"@)))
        },
    }
}

/// The payload of the line `text[from..to]`, appended to `out`.
fn push_line_data(out: &mut Vec<String>, text: &str, from: usize, to: usize)
    requires
        from <= to <= text@.len(),
    ensures
        string_views(final(out)@) == string_views(old(out)@) + line_data(text@.subrange(from as int, to as int)),
{
    let ghost l = text@.subrange(from as int, to as int);
    if from == to || text.get_char(from) == ':' {
        assert(string_views(out@) + line_data(l) =~= string_views(out@));
        return;
    }
    let is_data = to - from >= 5 && text.get_char(from) == 'd' && text.get_char(from + 1) == 'a' && text.get_char(
        from + 2,
    ) == 't' && text.get_char(from + 3) == 'a' && text.get_char(from + 4) == ':';
    proof {
        reveal_strlit("data:");
        if to - from >= 5 {
            let d = "data:"@;
            assert(d.len() == 5 && d[0] == 'd' && d[1] == 'a' && d[2] == 't' && d[3] == 'a' && d[4] == ':');
            assert(l[0] == text@[from as int] && l[1] == text@[from + 1] && l[2] == text@[from + 2] && l[3]
                == text@[from + 3] && l[4] == text@[from + 4]);
            if is_data {
                assert(l.take(5) =~= d);
            } else {
                if l.take(5) == d {
                    assert(l.take(5)[0] == d[0] && l.take(5)[1] == d[1] && l.take(5)[2] == d[2] && l.take(5)[3] == d[3]
                        && l.take(5)[4] == d[4]);
                }
            }
        }
    }
    if is_data {
        let mut rest = String::new();
        push_range(&mut rest, text, from + 5, to);
        assert(rest@ =~= l.skip(5));
        let trimmed = trim_start_text(rest.as_str());
        let ghost before = out@;
        out.push(trimmed);
        assert(string_views(out@) =~= string_views(before).push(trimmed@));
        assert(string_views(out@) =~= string_views(before) + line_data(l));
    } else {
        assert(string_views(out@) + line_data(l) =~= string_views(out@));
    }
}

/// The `data:` payload of a frame, its lines joined with `\n`.
pub fn frame_data(frame: &[u8]) -> (r: Result<Option<String>, String>)
    ensures
        match frame_payload(frame@) {
            Err(m) => r matches Err(e) && e@ == m,
            Ok(None) => r matches Ok(None),
            Ok(Some(d)) => r matches Ok(Some(t)) && t@ == d,
        },
{
    let text = decode_utf8(frame)?;
    let t = text.as_str();
    let n = t.unicode_len();
    let mut lines: Vec<String> = Vec::new();
    let mut pos: usize = 0;
    let ghost whole = t@;
    proof {
        assert(whole.skip(0) =~= whole);
        assert(string_views(lines@) =~= Seq::<Seq<char>>::empty());
    }
    let mut done = false;
    while !done
        invariant
            n == whole.len(),
            whole == t@,
            pos <= n,
            !done ==> data_lines(whole) == string_views(lines@) + data_lines(whole.skip(pos as int)),
            done ==> data_lines(whole) == string_views(lines@),
        decreases n - pos + if done {
            0int
        } else {
            1int
        },
    {
        let ghost u = whole.skip(pos as int);
        let mut k = pos;
        while k < n && t.get_char(k) != '\n'
            invariant
                n == whole.len(),
                whole == t@,
                pos <= k <= n,
                forall|j: int| pos <= j < k ==> whole[j] != '\n',
            decreases n - k,
        {
            k += 1;
        }
        proof {
            assert forall|j: int| 0 <= j < k - pos implies u[j] != '\n' by {
                assert(u[j] == whole[pos + j]);
            }
            if k < n {
                assert(u[k - pos] == whole[k as int]);
            }
            lemma_first_nl_at(u, k - pos);
        }
        let mut e = k;
        if e > pos && t.get_char(e - 1) == '\r' {
            e -= 1;
        }
        if k < n && e > pos && t.get_char(e - 1) == '\r' {
            e -= 1;
        }
        proof {
            let line = u.take(k - pos);
            assert(line =~= whole.subrange(pos as int, k as int));
            if k < n {
                let s1 = strip_cr(line);
                assert(strip_cr(s1) =~= whole.subrange(pos as int, e as int));
            } else {
                assert(u =~= whole.subrange(pos as int, n as int));
                assert(strip_cr(u) =~= whole.subrange(pos as int, e as int));
            }
        }
        let ghost prev = string_views(lines@);
        push_line_data(&mut lines, t, pos, e);
        if k < n {
            proof {
                assert(u.skip(k - pos + 1) =~= whole.skip(k + 1));
                assert(data_lines(u) == line_data(whole.subrange(pos as int, e as int)) + data_lines(whole.skip(k + 1)));
                assert(string_views(lines@) + data_lines(whole.skip(k + 1)) =~= prev + data_lines(u));
            }
            pos = k + 1;
        } else {
            proof {
                assert(data_lines(u) == line_data(whole.subrange(pos as int, e as int)));
                assert(string_views(lines@) =~= prev + data_lines(u));
            }
            pos = n;
            done = true;
        }
    }
    if lines.len() == 0 {
        Ok(None)
    } else {
        Ok(Some(join_texts(&lines, "\n")))
    }
}

// ---------------------------------------------------------------- stream events

/// The head of the message a stream starts with.
#[derive(Debug, Clone, PartialEq, Eq)]
pub struct AnthropicMessageHead {
    pub id: String,
    pub model: String,
    pub role: String,
}

/// The kind of content block a stream starts; kinds other than text and tool use are
/// `Unsupported`.
#[derive(Debug, Clone, PartialEq, Eq)]
pub enum AnthropicStreamContentBlock {
    Text,
    ToolUse { id: String, name: String },
    Unsupported,
}

/// A content-block delta; kinds other than text and tool-input JSON are `Unsupported`.
#[derive(Debug, Clone, PartialEq, Eq)]
pub enum AnthropicContentBlockDelta {
    TextDelta { text: String },
    InputJsonDelta { partial_json: String },
    Unsupported,
}

#[derive(Debug, Clone, PartialEq, Eq)]
pub struct AnthropicMessageDelta {
    pub stop_reason: Option<String>,
}

/// An error reported inside the stream.
#[derive(Debug, Clone, PartialEq, Eq)]
pub struct AnthropicStreamError {
    pub kind: String,
    pub message: String,
}

/// One event of the Anthropic Messages stream.
#[derive(Debug, Clone, PartialEq, Eq)]
pub enum AnthropicStreamEvent {
    MessageStart { message: AnthropicMessageHead },
    ContentBlockStart { index: usize, content_block: AnthropicStreamContentBlock },
    ContentBlockDelta { index: usize, delta: AnthropicContentBlockDelta },
    ContentBlockStop { index: usize },
    MessageDelta { delta: AnthropicMessageDelta },
    MessageStop,
    Ping,
    Error { error: AnthropicStreamError },
}

impl AnthropicStreamContentBlock {
    /// The provider-neutral start of the block; `None` for unsupported kinds.
    pub fn into_provider_start(self) -> (r: Option<ContentBlockStart>)
        ensures
            match self {
                AnthropicStreamContentBlock::Text => r == Some(ContentBlockStart::Text),
                AnthropicStreamContentBlock::ToolUse { id, name } => r == Some(ContentBlockStart::ToolUse { id, name }),
                AnthropicStreamContentBlock::Unsupported => r is None,
            },
    {
        match self {
            AnthropicStreamContentBlock::Text => Some(ContentBlockStart::Text),
            AnthropicStreamContentBlock::ToolUse { id, name } => Some(ContentBlockStart::ToolUse { id, name }),
            AnthropicStreamContentBlock::Unsupported => None,
        }
    }

    pub fn is_supported(&self) -> (r: bool)
        ensures
            r == !(self is Unsupported),
    {
        match self {
            AnthropicStreamContentBlock::Unsupported => false,
            _ => true,
        }
    }
}

impl AnthropicContentBlockDelta {
    /// The provider-neutral delta; `None` for unsupported kinds.
    pub fn into_provider_delta(self) -> (r: Option<ContentBlockDelta>)
        ensures
            match self {
                AnthropicContentBlockDelta::TextDelta { text } => r == Some(ContentBlockDelta::Text(text)),
                AnthropicContentBlockDelta::InputJsonDelta { partial_json } => r == Some(
                    ContentBlockDelta::ToolUseInputJson(partial_json),
                ),
                AnthropicContentBlockDelta::Unsupported => r is None,
            },
    {
        match self {
            AnthropicContentBlockDelta::TextDelta { text } => Some(ContentBlockDelta::Text(text)),
            AnthropicContentBlockDelta::InputJsonDelta { partial_json } => Some(
                ContentBlockDelta::ToolUseInputJson(partial_json),
            ),
            AnthropicContentBlockDelta::Unsupported => None,
        }
    }
}

/// A role as the stream names it: `user`, `assistant`, or anything else kept as is.
pub open spec fn role_named(name: Seq<char>, raw: String) -> Role {
    if name == "user"@ {
        Role::User
    } else if name == "assistant"@ {
        Role::Assistant
    } else {
        Role::Unknown(raw)
    }
}

/// The provider event of a stream event: `None` for pings and unsupported blocks, the
/// stream's own error for error events.
pub open spec fn provider_event_of(e: AnthropicStreamEvent) -> Result<Option<ProviderEvent>, AnthropicStreamError> {
    match e {
        AnthropicStreamEvent::MessageStart { message } => Ok(
            Some(
                ProviderEvent::MessageStarted {
                    id: message.id,
                    model: message.model,
                    role: role_named(message.role@, message.role),
                },
            ),
        ),
        AnthropicStreamEvent::ContentBlockStart { index, content_block } => match content_block {
            AnthropicStreamContentBlock::Text => Ok(
                Some(ProviderEvent::ContentBlockStarted { index, kind: ContentBlockStart::Text }),
            ),
            AnthropicStreamContentBlock::ToolUse { id, name } => Ok(
                Some(ProviderEvent::ContentBlockStarted { index, kind: ContentBlockStart::ToolUse { id, name } }),
            ),
            AnthropicStreamContentBlock::Unsupported => Ok(None),
        },
        AnthropicStreamEvent::ContentBlockDelta { index, delta } => match delta {
            AnthropicContentBlockDelta::TextDelta { text } => Ok(
                Some(ProviderEvent::ContentBlockDelta { index, delta: ContentBlockDelta::Text(text) }),
            ),
            AnthropicContentBlockDelta::InputJsonDelta { partial_json } => Ok(
                Some(
                    ProviderEvent::ContentBlockDelta { index, delta: ContentBlockDelta::ToolUseInputJson(partial_json) },
                ),
            ),
            AnthropicContentBlockDelta::Unsupported => Ok(None),
        },
        AnthropicStreamEvent::ContentBlockStop { index } => Ok(Some(ProviderEvent::ContentBlockStopped { index })),
        AnthropicStreamEvent::MessageDelta { delta } => Ok(
            Some(ProviderEvent::MessageDelta { stop_reason: delta.stop_reason, usage: None }),
        ),
        AnthropicStreamEvent::MessageStop => Ok(Some(ProviderEvent::MessageStopped)),
        AnthropicStreamEvent::Ping => Ok(None),
        AnthropicStreamEvent::Error { error } => Err(error),
    }
}

/// What a stream event becomes: a message delta carries its stop reason (and no usage); a
/// message start its id and model; a block start, delta or stop keeps its index and its text
/// or tool data; a message stop stays a message stop; a ping becomes nothing; an error event
/// is the stream's error.
pub proof fn law_stream_event_keeps_its_data(e: AnthropicStreamEvent)
    ensures
        match e {
            AnthropicStreamEvent::MessageDelta { delta } => provider_event_of(e) matches Ok(
                Some(ProviderEvent::MessageDelta { stop_reason, usage }),
            ) && stop_reason == delta.stop_reason && usage is None,
            AnthropicStreamEvent::MessageStart { message } => provider_event_of(e) matches Ok(
                Some(ProviderEvent::MessageStarted { id, model, .. }),
            ) && id == message.id && model == message.model,
            AnthropicStreamEvent::ContentBlockStop { index } => provider_event_of(e) matches Ok(
                Some(ProviderEvent::ContentBlockStopped { index: j }),
            ) && j == index,
            AnthropicStreamEvent::ContentBlockStart { index, content_block } => (!(content_block is Unsupported) <==> (
            provider_event_of(e) matches Ok(Some(ProviderEvent::ContentBlockStarted { index: j, .. })) && j == index)),
            AnthropicStreamEvent::ContentBlockDelta { index, delta } => match delta {
                AnthropicContentBlockDelta::TextDelta { text } => provider_event_of(e) matches Ok(
                    Some(ProviderEvent::ContentBlockDelta { index: j, delta: ContentBlockDelta::Text(x) }),
                ) && j == index && x == text,
                AnthropicContentBlockDelta::InputJsonDelta { partial_json } => provider_event_of(e) matches Ok(
                    Some(ProviderEvent::ContentBlockDelta { index: j, delta: ContentBlockDelta::ToolUseInputJson(x) }),
                ) && j == index && x == partial_json,
                AnthropicContentBlockDelta::Unsupported => provider_event_of(e)
                    == Ok::<Option<ProviderEvent>, AnthropicStreamError>(None),
            },
            AnthropicStreamEvent::MessageStop => provider_event_of(e) == Ok::<Option<ProviderEvent>, AnthropicStreamError>(
                Some(ProviderEvent::MessageStopped),
            ),
            AnthropicStreamEvent::Ping => provider_event_of(e) == Ok::<Option<ProviderEvent>, AnthropicStreamError>(None),
            AnthropicStreamEvent::Error { error } => provider_event_of(e) == Err::<Option<ProviderEvent>, AnthropicStreamError>(
                error,
            ),
        },
{
}

/// Unsupported blocks are dropped whole: an unsupported block's start is dropped and its index
/// remembered; deltas and the stop of a remembered block are dropped, and its stop forgets the
/// index; every other event passes and leaves the remembered blocks as they were, except that
/// a stop always forgets its index.
pub proof fn law_ignored_blocks(e: AnthropicStreamEvent, ignored: Set<usize>)
    ensures
        match e {
            AnthropicStreamEvent::ContentBlockStart { index, content_block } => (filtered_event(e, ignored) <==> content_block
                is Unsupported) && (content_block is Unsupported ==> ignored_after(e, ignored) == ignored.insert(index)) && (!(
            content_block is Unsupported) ==> ignored_after(e, ignored) == ignored),
            AnthropicStreamEvent::ContentBlockDelta { index, .. } => (filtered_event(e, ignored) <==> ignored.contains(index))
                && ignored_after(e, ignored) == ignored,
            AnthropicStreamEvent::ContentBlockStop { index } => (filtered_event(e, ignored) <==> ignored.contains(index))
                && ignored_after(e, ignored) == ignored.remove(index),
            _ => !filtered_event(e, ignored) && ignored_after(e, ignored) == ignored,
        },
{
}

/// A frame line gives a payload only when it is a `data:` field: the text after the colon,
/// without leading white space. Blank lines, comments (starting with `:`) and other fields
/// give none.
pub proof fn law_line_data(l: Seq<char>)
    ensures
        l.len() >= 5 && l.take(5) == "data:"@ ==> line_data(l) == seq![trim_start_ws(l.skip(5))],
        !(l.len() >= 5 && l.take(5) == "data:"@) ==> line_data(l).len() == 0,
{
    reveal_strlit("data:");
    if l.len() >= 5 && l.take(5) == "data:"@ {
        assert(l[0] == l.take(5)[0]);
    }
}

impl AnthropicStreamEvent {
    /// The provider event of a stream event: `None` for pings and unsupported blocks, the
    /// stream's own error for error events.
    pub fn into_provider_event(self) -> (r: Result<Option<ProviderEvent>, AnthropicStreamError>)
        ensures
            r == provider_event_of(self),
            match self {
                AnthropicStreamEvent::MessageDelta { delta } => r matches Ok(
                    Some(ProviderEvent::MessageDelta { stop_reason, usage }),
                ) && stop_reason == delta.stop_reason && usage is None,
                _ => true,
            },
    {
        match self {
            AnthropicStreamEvent::MessageStart { message } => {
                let role = if str_eq(message.role.as_str(), "user") {
                    Role::User
                } else if str_eq(message.role.as_str(), "assistant") {
                    Role::Assistant
                } else {
                    Role::Unknown(message.role)
                };
                Ok(Some(ProviderEvent::MessageStarted { id: message.id, model: message.model, role }))
            },
            AnthropicStreamEvent::ContentBlockStart { index, content_block } => match content_block.into_provider_start() {
                Some(kind) => Ok(Some(ProviderEvent::ContentBlockStarted { index, kind })),
                None => Ok(None),
            },
            AnthropicStreamEvent::ContentBlockDelta { index, delta } => match delta.into_provider_delta() {
                Some(delta) => Ok(Some(ProviderEvent::ContentBlockDelta { index, delta })),
                None => Ok(None),
            },
            AnthropicStreamEvent::ContentBlockStop { index } => Ok(Some(ProviderEvent::ContentBlockStopped { index })),
            AnthropicStreamEvent::MessageDelta { delta } => Ok(
                Some(ProviderEvent::MessageDelta { stop_reason: delta.stop_reason, usage: None }),
            ),
            AnthropicStreamEvent::MessageStop => Ok(Some(ProviderEvent::MessageStopped)),
            AnthropicStreamEvent::Ping => Ok(None),
            AnthropicStreamEvent::Error { error } => Err(error),
        }
    }
}

// ---------------------------------------------------------------- ignored blocks

/// The message of an error event.
pub open spec fn stream_error_message(e: AnthropicStreamError) -> Seq<char> {
    "anthropic stream error ("@ + e.kind@ + "): "@ + e.message@
}

/// The indices of content blocks whose kind is unsupported, so that their deltas and stop
/// are dropped too.
#[derive(Debug)]
pub struct IgnoredBlocks {
    indices: Vec<usize>,
}

impl View for IgnoredBlocks {
    type V = Set<usize>;

    closed spec fn view(&self) -> Set<usize> {
        self.indices@.to_set()
    }
}

/// What the stream filter passes on for `event`, given the ignored blocks `ignored`.
pub open spec fn filtered_event(event: AnthropicStreamEvent, ignored: Set<usize>) -> bool {
    match event {
        AnthropicStreamEvent::ContentBlockStart { content_block, .. } => content_block is Unsupported,
        AnthropicStreamEvent::ContentBlockDelta { index, .. } => ignored.contains(index),
        AnthropicStreamEvent::ContentBlockStop { index } => ignored.contains(index),
        _ => false,
    }
}

/// The ignored blocks after `event`: an unsupported block start adds its index, the stop of
/// an ignored block removes it.
pub open spec fn ignored_after(event: AnthropicStreamEvent, ignored: Set<usize>) -> Set<usize> {
    match event {
        AnthropicStreamEvent::ContentBlockStart { index, content_block } => if content_block is Unsupported {
            ignored.insert(index)
        } else {
            ignored
        },
        AnthropicStreamEvent::ContentBlockStop { index } => ignored.remove(index),
        _ => ignored,
    }
}

/// Once a block of an unsupported kind starts, its deltas are dropped, and so is its stop,
/// after which its index is no longer ignored.
pub proof fn law_unsupported_block_swallowed(
    ignored: Set<usize>,
    index: usize,
    delta: AnthropicContentBlockDelta,
)
    ensures
        ({
            let start = AnthropicStreamEvent::ContentBlockStart {
                index,
                content_block: AnthropicStreamContentBlock::Unsupported,
            };
            let after_start = ignored_after(start, ignored);
            let d = AnthropicStreamEvent::ContentBlockDelta { index, delta };
            let stop = AnthropicStreamEvent::ContentBlockStop { index };
            &&& filtered_event(start, ignored)
            &&& filtered_event(d, after_start)
            &&& ignored_after(d, after_start) == after_start
            &&& filtered_event(stop, after_start)
            &&& !ignored_after(stop, after_start).contains(index)
        }),
{
}

impl IgnoredBlocks {
    pub fn new() -> (r: IgnoredBlocks)
        ensures
            r@ == Set::<usize>::empty(),
    {
        let r = IgnoredBlocks { indices: Vec::new() };
        assert(r.indices@.to_set() =~= Set::<usize>::empty());
        r
    }

    fn contains(&self, index: usize) -> (r: bool)
        ensures
            r == self@.contains(index),
    {
        let mut i: usize = 0;
        while i < self.indices.len()
            invariant
                i <= self.indices@.len(),
                forall|k: int| 0 <= k < i ==> self.indices@[k] != index,
            decreases self.indices.len() - i,
        {
            if self.indices[i] == index {
                assert(self.indices@.contains(index));
                return true;
            }
            i += 1;
        }
        false
    }

    fn remove(&mut self, index: usize)
        ensures
            final(self)@ == old(self)@.remove(index),
    {
        let mut kept: Vec<usize> = Vec::new();
        let mut i: usize = 0;
        while i < self.indices.len()
            invariant
                i <= self.indices@.len(),
                self.indices@ == old(self).indices@,
                kept@.to_set() == self.indices@.take(i as int).to_set().remove(index),
            decreases self.indices.len() - i,
        {
            let x = self.indices[i];
            proof {
                assert(self.indices@.take(i as int + 1) =~= self.indices@.take(i as int).push(x));
            }
            if x != index {
                kept.push(x);
            }
            proof {
                let t = self.indices@.take(i as int);
                assert(t.push(x).to_set() =~= t.to_set().insert(x)) by {
                    broadcast use vstd::seq::Seq::lemma_push_to_set_commute;
                }
                broadcast use vstd::seq::Seq::lemma_push_to_set_commute;
                assert(kept@.to_set() =~= t.push(x).to_set().remove(index));
            }
            i += 1;
        }
        assert(self.indices@.take(self.indices@.len() as int) =~= self.indices@);
        self.indices = kept;
    }

    /// Passes `event` on as a provider event, unless it belongs to an unsupported block;
    /// an error event becomes its message.
    pub fn accept(&mut self, event: AnthropicStreamEvent) -> (r: Result<Option<ProviderEvent>, String>)
        ensures
            match event {
                AnthropicStreamEvent::MessageDelta { delta } => r matches Ok(
                    Some(ProviderEvent::MessageDelta { stop_reason, usage }),
                ) && stop_reason == delta.stop_reason && usage is None,
                _ => true,
            },
            final(self)@ == ignored_after(event, old(self)@),
            filtered_event(event, old(self)@) ==> r == Ok::<Option<ProviderEvent>, String>(None),
            !filtered_event(event, old(self)@) ==> match event {
                AnthropicStreamEvent::Error { error } => r matches Err(m) && m@ == stream_error_message(error),
                _ => r matches Ok(v) && provider_event_of(event) == Ok::<Option<ProviderEvent>, AnthropicStreamError>(v),
            },
    {
        match &event {
            AnthropicStreamEvent::ContentBlockStart { index, content_block } => {
                if !content_block.is_supported() {
                    let ghost before = self.indices@;
                    self.indices.push(*index);
                    proof {
                        broadcast use vstd::seq::Seq::lemma_push_to_set_commute;
                        assert(self.indices@.to_set() =~= before.to_set().insert(*index));
                    }
                    return Ok(None);
                }
            },
            AnthropicStreamEvent::ContentBlockDelta { index, .. } => {
                if self.contains(*index) {
                    return Ok(None);
                }
            },
            AnthropicStreamEvent::ContentBlockStop { index } => {
                if self.contains(*index) {
                    self.remove(*index);
                    return Ok(None);
                }
                proof {
                    assert(old(self)@.remove(*index) =~= old(self)@);
                }
            },
            _ => {},
        }
        let ghost ev = event;
        match event.into_provider_event() {
            Ok(v) => Ok(v),
            Err(error) => {
                let mut m = "anthropic stream error (".to_owned();
                m.append(error.kind.as_str());
                m.append("): ");
                m.append(error.message.as_str());
                Err(m)
            },
        }
    }
}

// ---------------------------------------------------------------- the provider

/// Where the Anthropic API is served.
pub const ANTHROPIC_BASE_URL: &'static str = "https://api.anthropic.com";

/// The API version every request names.
pub const ANTHROPIC_VERSION: &'static str = "2023-06-01";

pub const ANTHROPIC_DESCRIPTION: &'static str = "Anthropic Messages API provider";

/// The Anthropic provider's definition: the Messages protocol, the key sent in the
/// `x-api-key` header, no websockets, the API version as an extra header.
pub fn anthropic_definition() -> (r: ProviderDefinition)
    ensures
        r.descriptor.id@ == builtin_name(BuiltinProvider::Anthropic),
        opt_seq(r.descriptor.display_name) == Some("Anthropic"@),
        opt_seq(r.descriptor.description) == Some(ANTHROPIC_DESCRIPTION@),
        r.wire_api == WireApi::AnthropicMessages,
        r.auth_scheme matches AuthScheme::Header { name } && name@ == "x-api-key"@,
        r.capabilities == (ProviderCapabilities {
            supports_model_listing: true,
            supports_streaming: true,
            supports_websockets: false,
            supports_tool_calls: true,
            supports_images: true,
        }),
        opt_seq(r.base_url) == Some(ANTHROPIC_BASE_URL@),
        r.headers matches Some(h) && pairs_view(h@) == seq![("anthropic-version"@, ANTHROPIC_VERSION@)],
        r.query_params is None,
        r.wf(),
{
    let mut definition = ProviderDefinition::new(ProviderId::from_builtin(BuiltinProvider::Anthropic));
    definition.descriptor.display_name = Some("Anthropic".to_owned());
    definition.descriptor.description = Some(ANTHROPIC_DESCRIPTION.to_owned());
    definition.wire_api = WireApi::AnthropicMessages;
    definition.auth_scheme = AuthScheme::Header { name: "x-api-key".to_owned() };
    definition.capabilities =
        ProviderCapabilities {
            supports_model_listing: true,
            supports_streaming: true,
            supports_websockets: false,
            supports_tool_calls: true,
            supports_images: true,
        };
    definition.base_url = Some(ANTHROPIC_BASE_URL.to_owned());
    let mut headers: Vec<(String, String)> = Vec::new();
    headers.push(("anthropic-version".to_owned(), ANTHROPIC_VERSION.to_owned()));
    assert(pairs_view(headers@) =~= seq![("anthropic-version"@, ANTHROPIC_VERSION@)]);
    definition.headers = Some(headers);
    definition
}

/// Where a paged listing of models stands: the id after which the next page starts, and
/// whether more pages follow.
#[derive(Debug, Clone, PartialEq, Eq)]
pub struct ModelPager {
    pub after_id: Option<String>,
    pub done: bool,
}

impl ModelPager {
    /// A listing that starts at the first page.
    pub fn new() -> (r: ModelPager)
        ensures
            r.after_id is None,
            !r.done,
    {
        ModelPager { after_id: None, done: false }
    }

    /// The query of the next page: up to a thousand models after `after_id` (empty at the
    /// start).
    pub fn query(&self) -> (r: Vec<(String, String)>)
        ensures
            pairs_view(r@) == seq![
                ("limit"@, "1000"@),
                (
                    "after_id"@,
                    match self.after_id {
                        Some(a) => a@,
                        None => ""@,
                    },
                ),
            ],
    {
        let after = match &self.after_id {
            Some(a) => a.clone(),
            None => "".to_owned(),
        };
        let mut q: Vec<(String, String)> = Vec::new();
        q.push(("limit".to_owned(), "1000".to_owned()));
        q.push(("after_id".to_owned(), after));
        assert(pairs_view(q@) =~= seq![
            ("limit"@, "1000"@),
            (
                "after_id"@,
                match self.after_id {
                    Some(a) => a@,
                    None => ""@,
                },
            ),
        ]);
        q
    }

    /// Records a page: the next one starts after its last id; the listing ends with a page
    /// that says no more follow.
    pub fn advance(&mut self, last_id: Option<String>, has_more: bool)
        ensures
            final(self).after_id == last_id,
            final(self).done == !has_more,
    {
        self.after_id = last_id;
        self.done = !has_more;
    }
}

} // verus!
