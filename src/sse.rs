use crate::response::{event_stream_type, mime_event_stream};
use crate::text::concat3;
use vstd::prelude::*;

verus! {

/// The decimal digit character of `d`.
pub open spec fn digit_char(d: nat) -> char {
    if d == 0 { '0' }
    else if d == 1 { '1' }
    else if d == 2 { '2' }
    else if d == 3 { '3' }
    else if d == 4 { '4' }
    else if d == 5 { '5' }
    else if d == 6 { '6' }
    else if d == 7 { '7' }
    else if d == 8 { '8' }
    else { '9' }
}

/// The decimal text of `n`.
pub open spec fn decimal(n: nat) -> Seq<char>
    decreases n,
{
    if n < 10 {
        seq![digit_char(n)]
    } else {
        decimal(n / 10).push(digit_char(n % 10))
    }
}

fn digit_str(d: u64) -> (r: &'static str)
    requires
        d < 10,
    ensures
        r@ == seq![digit_char(d as nat)],
{
    proof {
        reveal_strlit("0");
        reveal_strlit("1");
        reveal_strlit("2");
        reveal_strlit("3");
        reveal_strlit("4");
        reveal_strlit("5");
        reveal_strlit("6");
        reveal_strlit("7");
        reveal_strlit("8");
        reveal_strlit("9");
    }
    let r = if d == 0 {
        "0"
    } else if d == 1 {
        "1"
    } else if d == 2 {
        "2"
    } else if d == 3 {
        "3"
    } else if d == 4 {
        "4"
    } else if d == 5 {
        "5"
    } else if d == 6 {
        "6"
    } else if d == 7 {
        "7"
    } else if d == 8 {
        "8"
    } else {
        "9"
    };
    assert(r@ =~= seq![digit_char(d as nat)]);
    r
}

/// Appends the decimal text of `n` to `out`.
fn push_decimal(out: &mut String, n: u64)
    ensures
        final(out)@ == old(out)@ + decimal(n as nat),
    decreases n,
{
    if n >= 10 {
        push_decimal(out, n / 10);
    }
    out.append(digit_str(n % 10));
    proof {
        if n >= 10 {
            assert(old(out)@ + decimal(n as nat) =~= old(out)@ + decimal((n / 10) as nat) + seq![digit_char((n % 10) as nat)]);
        } else {
            assert(decimal(n as nat) =~= seq![digit_char((n % 10) as nat)]);
        }
    }
}

/// The length of the first line of `s`: the characters before the first `\n`.
pub open spec fn line_len(s: Seq<char>) -> nat
    decreases s.len(),
{
    if s.len() == 0 {
        0
    } else if s[0] == '\n' {
        0
    } else {
        1 + line_len(s.drop_first())
    }
}

/// The lines of `s`, each without its `\n` and the `\r` before it; a final
/// line ending adds no empty line.
pub open spec fn lines(s: Seq<char>) -> Seq<Seq<char>>
    decreases s.len(),
{
    if s.len() == 0 {
        Seq::empty()
    } else {
        let k = line_len(s);
        if k < s.len() {
            let line = s.take(k as int);
            let line = if line.len() > 0 && line.last() == '\r' {
                line.drop_last()
            } else {
                line
            };
            seq![line] + lines(s.skip(k + 1 as int))
        } else {
            seq![s]
        }
    }
}

/// The `data:` lines that carry `ls`.
pub open spec fn data_lines(ls: Seq<Seq<char>>) -> Seq<char>
    decreases ls.len(),
{
    if ls.len() == 0 {
        Seq::empty()
    } else {
        "data: "@ + ls[0] + "\n"@ + data_lines(ls.drop_first())
    }
}

/// One field line, `name` and `value`, where the field is set.
pub open spec fn field(name: Seq<char>, value: Option<Seq<char>>) -> Seq<char> {
    match value {
        Some(v) => name + v + "\n"@,
        None => Seq::empty(),
    }
}

pub open spec fn opt_view(v: Option<String>) -> Option<Seq<char>> {
    match v {
        Some(s) => Some(s@),
        None => None,
    }
}

/// One server-sent event: an optional comment, reconnection delay in
/// milliseconds, id, event name and data.
#[derive(Debug, Clone, Default)]
pub struct Event {
    pub comment: Option<String>,
    pub retry: Option<u64>,
    pub id: Option<String>,
    pub event: Option<String>,
    pub data: Option<String>,
}

impl Event {
    /// The wire text of the event: its fields in a fixed order, the data one
    /// line per `data:` field, and an empty line to end it.
    pub open spec fn text(&self) -> Seq<char> {
        field(": "@, opt_view(self.comment)) + field(
            "retry: "@,
            match self.retry {
                Some(ms) => Some(decimal(ms as nat)),
                None => None,
            },
        ) + field("id: "@, opt_view(self.id)) + field("event: "@, opt_view(self.event)) + (
        match self.data {
            Some(d) => data_lines(lines(d@)),
            None => Seq::empty(),
        }) + "\n"@
    }

    pub fn new() -> (r: Self)
        ensures
            r.comment is None,
            r.retry is None,
            r.id is None,
            r.event is None,
            r.data is None,
    {
        Event { comment: None, retry: None, id: None, event: None, data: None }
    }

    pub fn comment(self, comment: &str) -> (r: Self)
        ensures
            opt_view(r.comment) == Some(comment@),
            r.retry == self.retry,
            r.id == self.id,
            r.event == self.event,
            r.data == self.data,
    {
        Event { comment: Some(String::from_str(comment)), ..self }
    }

    /// Sets the reconnection delay, in milliseconds.
    pub fn retry(self, retry: u64) -> (r: Self)
        ensures
            r.comment == self.comment,
            r.retry == Some(retry),
            r.id == self.id,
            r.event == self.event,
            r.data == self.data,
    {
        Event { retry: Some(retry), ..self }
    }

    pub fn id(self, id: &str) -> (r: Self)
        ensures
            r.comment == self.comment,
            r.retry == self.retry,
            opt_view(r.id) == Some(id@),
            r.event == self.event,
            r.data == self.data,
    {
        Event { id: Some(String::from_str(id)), ..self }
    }

    pub fn event(self, event: &str) -> (r: Self)
        ensures
            r.comment == self.comment,
            r.retry == self.retry,
            r.id == self.id,
            opt_view(r.event) == Some(event@),
            r.data == self.data,
    {
        Event { event: Some(String::from_str(event)), ..self }
    }

    pub fn data(self, data: &str) -> (r: Self)
        ensures
            r.comment == self.comment,
            r.retry == self.retry,
            r.id == self.id,
            r.event == self.event,
            opt_view(r.data) == Some(data@),
    {
        Event { data: Some(String::from_str(data)), ..self }
    }

    /// The wire text of the event.
    pub fn to_string(&self) -> (r: String)
        ensures
            r@ == self.text(),
    {
        let mut out = String::new();
        match &self.comment {
            Some(c) => out.append(concat3(": ", c.as_str(), "\n").as_str()),
            None => {},
        }
        match self.retry {
            Some(ms) => {
                out.append("retry: ");
                push_decimal(&mut out, ms);
                out.append("\n");
            },
            None => {},
        }
        match &self.id {
            Some(v) => out.append(concat3("id: ", v.as_str(), "\n").as_str()),
            None => {},
        }
        match &self.event {
            Some(v) => out.append(concat3("event: ", v.as_str(), "\n").as_str()),
            None => {},
        }
        match &self.data {
            Some(d) => push_data_lines(&mut out, d.as_str()),
            None => {},
        }
        out.append("\n");
        proof {
            assert(out@ =~= self.text());
        }
        out
    }
}

/// Appends a `data:` line for each line of `s`.
fn push_data_lines(out: &mut String, s: &str)
    ensures
        final(out)@ == old(out)@ + data_lines(lines(s@)),
{
    let n = s.unicode_len();
    let mut pos: usize = 0;
    assert(s@.skip(0) =~= s@);
    while pos < n
        invariant
            n == s@.len(),
            pos <= n,
            out@ + data_lines(lines(s@.skip(pos as int))) == old(out)@ + data_lines(lines(s@)),
        decreases n - pos,
    {
        let ghost rest = s@.skip(pos as int);
        let mut k: usize = pos;
        while k < n && s.get_char(k) != '\n'
            invariant
                n == s@.len(),
                pos <= k <= n,
                forall|j: int| pos <= j < k ==> s@[j] != '\n',
            decreases n - k,
        {
            k = k + 1;
        }
        proof {
            lemma_line_len(rest, (k - pos) as nat);
        }
        let mut end = k;
        if k < n && end > pos && s.get_char(end - 1) == '\r' {
            end = end - 1;
        }
        let line = s.substring_char(pos, end);
        let ghost before = out@;
        out.append("data: ");
        out.append(line);
        out.append("\n");
        let next = if k < n {
            k + 1
        } else {
            n
        };
        proof {
            let taken = rest.take((k - pos) as int);
            if k < n {
                assert(rest.skip((k - pos) + 1 as int) =~= s@.skip(next as int));
                if end < k {
                    assert(line@ =~= taken.drop_last());
                } else {
                    assert(line@ =~= taken);
                }
            } else {
                assert(line@ =~= rest);
                assert(s@.skip(next as int) =~= Seq::<char>::empty());
            }
            let ls = lines(rest);
            assert(ls.drop_first() == lines(s@.skip(next as int)));
            assert(data_lines(ls) == "data: "@ + ls[0] + "\n"@ + data_lines(ls.drop_first()));
            assert(ls[0] == line@);
            assert(out@ + data_lines(lines(s@.skip(next as int))) =~= before + data_lines(ls));
        }
        pos = next;
    }
    assert(s@.skip(n as int) =~= Seq::<char>::empty());
    assert(out@ + Seq::<char>::empty() =~= out@);
}

/// `k` is the length of the first line of `s` when no `\n` comes before it
/// and one, or the end, comes at it.
proof fn lemma_line_len(s: Seq<char>, k: nat)
    requires
        k <= s.len(),
        forall|j: int| 0 <= j < k ==> s[j] != '\n',
        k < s.len() ==> s[k as int] == '\n',
    ensures
        line_len(s) == k,
    decreases k,
{
    if k > 0 {
        lemma_line_len(s.drop_first(), (k - 1) as nat);
    }
}

/// How often a keep-alive comment is sent on a quiet event stream, and
/// its text.
#[derive(Debug, Clone)]
pub struct KeepAlive {
    pub text: String,
    pub interval: u64,
}

/// The default keep-alive interval, in milliseconds.
pub const DEFAULT_KEEP_ALIVE_MS: u64 = 15000;

impl KeepAlive {
    /// An empty comment every fifteen seconds.
    pub fn new() -> (r: Self)
        ensures
            r.text@ == Seq::<char>::empty(),
            r.interval == DEFAULT_KEEP_ALIVE_MS,
    {
        KeepAlive { text: String::new(), interval: DEFAULT_KEEP_ALIVE_MS }
    }

    pub fn text(self, text: &str) -> (r: Self)
        ensures
            r.text@ == text@,
            r.interval == self.interval,
    {
        KeepAlive { text: String::from_str(text), interval: self.interval }
    }

    /// Sets the interval, in milliseconds.
    pub fn interval(self, time: u64) -> (r: Self)
        ensures
            r.text == self.text,
            r.interval == time,
    {
        KeepAlive { text: self.text, interval: time }
    }

    /// The event sent when the stream has been quiet for the interval.
    pub fn event(&self) -> (r: Event)
        ensures
            opt_view(r.comment) == Some(self.text@),
            r.retry is None,
            r.id is None,
            r.event is None,
            r.data is None,
    {
        Event::new().comment(self.text.as_str())
    }
}

impl Default for KeepAlive {
    fn default() -> (r: Self)
        ensures
            r.text@ == Seq::<char>::empty(),
            r.interval == DEFAULT_KEEP_ALIVE_MS,
    {
        KeepAlive::new()
    }
}

/// A response that streams events, with keep-alive comments where set.
#[derive(Debug, Clone)]
pub struct Sse<S> {
    pub stream: S,
    pub keep_alive: Option<KeepAlive>,
}

impl<S> Sse<S> {
    pub fn new(stream: S) -> (r: Self)
        ensures
            r.stream == stream,
            r.keep_alive is None,
    {
        Sse { stream, keep_alive: None }
    }

    /// The headers of the response: the event-stream content type, and no
    /// caching.
    pub fn headers(&self) -> (r: Vec<(String, String)>)
        ensures
            r@.len() == 2,
            r@[0].0@ == "content-type"@ && r@[0].1@ == event_stream_type(),
            r@[1].0@ == "cache-control"@ && r@[1].1@ == "no-cache"@,
    {
        let mut r: Vec<(String, String)> = Vec::new();
        r.push((String::from_str("content-type"), mime_event_stream()));
        r.push((String::from_str("cache-control"), String::from_str("no-cache")));
        r
    }

    pub fn keep_alive(self, keep_alive: KeepAlive) -> (r: Self)
        ensures
            r.stream == self.stream,
            r.keep_alive == Some(keep_alive),
    {
        Sse { stream: self.stream, keep_alive: Some(keep_alive) }
    }
}

} // verus!
