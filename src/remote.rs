use crate::error::LlamaError;
use crate::message::{
    events_view, ChatChunk, ChatEvent, ChatFullResponse, EventView,
};
use crate::text::has_prefix_at;
use vstd::prelude::*;

verus! {

/// The path of the chat-completion endpoint under the server's base URL.
pub open spec fn completions_path() -> Seq<char> {
    "/v1/chat/completions"@
}

/// The line that ends a streamed answer.
pub open spec fn done_line() -> Seq<char> {
    "data: [DONE]"@
}

/// The prefix of every frame that carries data.
pub open spec fn data_prefix() -> Seq<char> {
    "data: "@
}

/// Whether an HTTP status code lies in the success class.
pub open spec fn success_status(status: u16) -> bool {
    200 <= status && status <= 299
}

/// The text of the first choice of a full response, if it has one.
pub open spec fn response_content(r: ChatFullResponse) -> Option<Seq<char>> {
    if r.choices@.len() > 0 {
        match r.choices@[0].message.content {
            Some(c) => Some(c@),
            None => None,
        }
    } else {
        None
    }
}

/// The events of one frame: the reasoning delta of its first choice, then its content delta.
pub open spec fn chunk_events_of(c: ChatChunk) -> Seq<EventView> {
    if c.choices@.len() == 0 {
        Seq::empty()
    } else {
        let d = c.choices@[0].delta;
        let r = match d.reasoning_content {
            Some(t) => seq![EventView::Reasoning(t@)],
            None => Seq::empty(),
        };
        let k = match d.content {
            Some(t) => seq![EventView::Content(t@)],
            None => Seq::empty(),
        };
        r + k
    }
}

/// Whether `c` is white space in the Unicode sense.
pub uninterp spec fn white_space(c: char) -> bool;

/// `s` without its leading white space.
pub open spec fn trim_front(s: Seq<char>) -> Seq<char>
    decreases s.len(),
{
    if s.len() > 0 && white_space(s[0]) {
        trim_front(s.drop_first())
    } else {
        s
    }
}

/// `s` without its trailing white space.
pub open spec fn trim_back(s: Seq<char>) -> Seq<char>
    decreases s.len(),
{
    if s.len() > 0 && white_space(s.last()) {
        trim_back(s.drop_last())
    } else {
        s
    }
}

/// `s` without leading and trailing white space.
pub open spec fn trimmed(s: Seq<char>) -> Seq<char> {
    trim_back(trim_front(s))
}

/// How one line of a streamed answer is read.
#[derive(Debug, Clone, PartialEq, Eq)]
pub enum SseLine {
    /// A blank line, or one that carries no data frame.
    Skip,
    /// The end of the stream.
    Done,
    /// The JSON text of one data frame.
    Data(String),
}

/// What a line of the stream means, over its trimmed text.
pub open spec fn line_kind(line: Seq<char>, r: SseLine) -> bool {
    let t = trimmed(line);
    if t == done_line() {
        r is Done
    } else if t.len() >= 6 && t.subrange(0, 6) == data_prefix() {
        r matches SseLine::Data(d) && d@ == t.subrange(6, t.len() as int)
    } else {
        r is Skip
    }
}

/// Relies on `char::is_whitespace`: the Unicode White_Space property, which among ASCII
/// characters holds of the space and of U+0009 to U+000D.
#[verifier::external_body]
fn is_white_space(c: char) -> (r: bool)
    ensures
        r == white_space(c),
        c <= '\u{7f}' ==> (r <==> (c == ' ' || ('\t' <= c && c <= '\r'))),
{
    c.is_whitespace()
}

/// Whether an HTTP status code lies in the success class (200 to 299).
pub fn is_success(status: u16) -> (r: bool)
    ensures
        r == success_status(status),
{
    200 <= status && status <= 299
}

/// The URL of the chat-completion endpoint under a base URL.
pub fn completions_url(base_url: &str) -> (r: String)
    ensures
        r@ == base_url@ + completions_path(),
{
    let mut r = String::from_str(base_url);
    r.append("/v1/chat/completions");
    r
}

/// Turns a status outside the success class into an API error that carries the body.
pub fn check_status(status: u16, body: String) -> (r: Result<(), LlamaError>)
    ensures
        success_status(status) ==> r is Ok,
        !success_status(status) ==> r == Err::<(), LlamaError>(LlamaError::Api { status, body }),
{
    if is_success(status) {
        Ok(())
    } else {
        Err(LlamaError::Api { status, body })
    }
}

/// The text of the first choice of a full response; its absence is a malformed response.
pub fn full_response_content(resp: &ChatFullResponse) -> (r: Result<String, LlamaError>)
    ensures
        match response_content(*resp) {
            Some(c) => r matches Ok(t) && t@ == c,
            None => r == Err::<String, LlamaError>(LlamaError::MalformedResponse),
        },
{
    if resp.choices.len() == 0 {
        return Err(LlamaError::MalformedResponse);
    }
    match &resp.choices[0].message.content {
        Some(c) => Ok(c.clone()),
        None => Err(LlamaError::MalformedResponse),
    }
}

/// The events that one frame surfaces, reasoning first.
pub fn chunk_events(chunk: &ChatChunk) -> (r: Vec<ChatEvent>)
    ensures
        events_view(r@) == chunk_events_of(*chunk),
{
    let mut r: Vec<ChatEvent> = Vec::new();
    if chunk.choices.len() == 0 {
        assert(events_view(r@) =~= chunk_events_of(*chunk));
        return r;
    }
    let d = &chunk.choices[0].delta;
    if let Some(t) = &d.reasoning_content {
        r.push(ChatEvent::Reasoning(t.clone()));
    }
    if let Some(t) = &d.content {
        r.push(ChatEvent::Content(t.clone()));
    }
    assert(events_view(r@) =~= chunk_events_of(*chunk));
    r
}

/// `s` without its leading and trailing white space.
pub fn trim(s: &str) -> (r: &str)
    ensures
        r@ == trimmed(s@),
{
    let n = s.unicode_len();
    let mut i: usize = 0;
    assert(s@.subrange(0, n as int) =~= s@);
    while i < n && is_white_space(s.get_char(i))
        invariant
            i <= n,
            n == s@.len(),
            trim_front(s@) == trim_front(s@.subrange(i as int, n as int)),
        decreases n - i,
    {
        proof {
            assert(s@.subrange(i as int, n as int).drop_first() =~= s@.subrange(i + 1, n as int));
        }
        i += 1;
    }
    let ghost front = s@.subrange(i as int, n as int);
    assert(trim_front(s@) == front);
    let mut j: usize = n;
    while j > i && is_white_space(s.get_char(j - 1))
        invariant
            i <= j <= n,
            n == s@.len(),
            trim_back(front) == trim_back(s@.subrange(i as int, j as int)),
        decreases j - i,
    {
        proof {
            assert(s@.subrange(i as int, j as int).drop_last() =~= s@.subrange(i as int, j - 1));
        }
        j -= 1;
    }
    s.substring_char(i, j)
}

/// Reads one line of a streamed answer.
pub fn decode_line(line: &str) -> (r: SseLine)
    ensures
        line_kind(line@, r),
{
    let t = trim(line);
    let n = t.unicode_len();
    proof {
        reveal_strlit("data: [DONE]");
        reveal_strlit("data: ");
    }
    if n == 12 && has_prefix_at(t, 0, "data: [DONE]") {
        assert(t@ =~= done_line());
        return SseLine::Done;
    }
    if has_prefix_at(t, 0, "data: ") {
        let d = t.substring_char(6, n);
        proof {
            if t@ == done_line() {
                assert(t@.subrange(0, 12) =~= t@);
            }
        }
        return SseLine::Data(String::from_str(d));
    }
    proof {
        if t@ == done_line() {
            assert(t@.subrange(0, 12) =~= t@);
        }
        if t@.len() >= 6 && t@.subrange(0, 6) == data_prefix() {
            assert(false);
        }
    }
    SseLine::Skip
}

} // verus!
