//! Server-Sent Events: the event builder and its wire format.
//!
//! ```text
//! id: 42
//! event: update
//! data: {"temperature": 24.5}
//! retry: 5000
//!
//! ```

use vstd::prelude::*;
use crate::duration::TimeSpan;
use vstd::slice::slice_to_vec;
use vstd::string::*;
use vstd::utf8::*;
use crate::text::{
    decimal, decimal_spec, first_line, first_line_spec, normalize_newlines, normalize_newlines_spec,
    split, split_spec, strings_view, without_nul, without_nul_spec, join_spec, lemma_split_join,
    lemma_split_pieces_free,
};

verus! {

/// A single Server-Sent Event. All fields are optional.
#[derive(Debug, Clone)]
pub struct Event {
    comment: Option<String>,
    id: Option<String>,
    event: Option<String>,
    data: Option<String>,
    retry: Option<u64>,
}

/// The fields of an event, as text.
pub struct EventView {
    pub comment: Option<Seq<char>>,
    pub id: Option<Seq<char>>,
    pub event: Option<Seq<char>>,
    pub data: Option<Seq<char>>,
    /// Reconnection interval in milliseconds.
    pub retry: Option<u64>,
}

pub open spec fn opt_view(o: Option<String>) -> Option<Seq<char>> {
    match o {
        Some(s) => Some(s@),
        None => None,
    }
}

impl View for Event {
    type V = EventView;

    closed spec fn view(&self) -> EventView {
        EventView {
            comment: opt_view(self.comment),
            id: opt_view(self.id),
            event: opt_view(self.event),
            data: opt_view(self.data),
            retry: self.retry,
        }
    }
}

/// Each line written as `prefix`, the line and a line feed.
pub open spec fn prefixed_lines(prefix: Seq<char>, lines: Seq<Seq<char>>) -> Seq<char>
    decreases lines.len(),
{
    if lines.len() == 0 {
        Seq::empty()
    } else {
        prefixed_lines(prefix, lines.drop_last()) + prefix + lines.last() + seq!['\n']
    }
}

/// A single `name: value` line, or nothing when the field is absent.
pub open spec fn field_line(prefix: Seq<char>, v: Option<Seq<char>>) -> Seq<char> {
    match v {
        Some(s) => prefix + s + seq!['\n'],
        None => Seq::empty(),
    }
}

/// The SSE wire text of an event: comment lines, `id`, `event`, one `data` line per
/// line of the data, `retry`, then the blank line that ends the event.
pub open spec fn event_wire(e: EventView) -> Seq<char> {
    (match e.comment {
        Some(c) => prefixed_lines(": "@, split_spec(c, '\n')),
        None => Seq::empty(),
    }) + field_line("id: "@, e.id) + field_line("event: "@, e.event) + (match e.data {
        Some(d) => prefixed_lines("data: "@, split_spec(d, '\n')),
        None => Seq::empty(),
    }) + (match e.retry {
        Some(ms) => "retry: "@ + decimal_spec(ms as nat) + seq!['\n'],
        None => Seq::empty(),
    }) + seq!['\n']
}

/// The data of an event goes on the wire as one `data: ` line per line of
/// the data; no line holds a line feed of its own, and joining the lines
/// with line feeds gives back the data, so a client that reassembles the
/// `data` lines recovers it exactly. The event ends with a blank line.
pub proof fn lemma_data_lines_rejoin(e: EventView, d: Seq<char>)
    requires
        e.data == Some(d),
    ensures
        ({
            let lines = split_spec(d, '\n');
            &&& exists|head: Seq<char>, tail: Seq<char>|
                event_wire(e) == head + prefixed_lines("data: "@, lines) + tail
            &&& join_spec(lines, seq!['\n']) == d
            &&& forall|i: int, j: int|
                0 <= i < lines.len() && 0 <= j < lines[i].len() ==> #[trigger] lines[i][j] != '\n'
            &&& event_wire(e).len() > 0 && event_wire(e).last() == '\n'
        }),
{
    let lines = split_spec(d, '\n');
    lemma_split_join(d, '\n');
    lemma_split_pieces_free(d, '\n');
    let head = (match e.comment {
        Some(c) => prefixed_lines(": "@, split_spec(c, '\n')),
        None => Seq::empty(),
    }) + field_line("id: "@, e.id) + field_line("event: "@, e.event);
    let tail = (match e.retry {
        Some(ms) => "retry: "@ + decimal_spec(ms as nat) + seq!['\n'],
        None => Seq::empty(),
    }) + seq!['\n'];
    assert(event_wire(e) =~= head + prefixed_lines("data: "@, lines) + tail);
}

/// Appends `prefix`, the line and a line feed for each line of `text`.
fn append_prefixed_lines(out: &mut String, prefix: &str, text: &str)
    ensures
        final(out)@ == old(out)@ + prefixed_lines(prefix@, split_spec(text@, '\n')),
{
    let lines = split(text, '\n');
    let ghost lv = strings_view(lines@);
    let ghost start = out@;
    let mut k: usize = 0;
    proof {
        assert(lv.take(0) =~= Seq::<Seq<char>>::empty());
        assert(start + Seq::<char>::empty() =~= start);
    }
    while k < lines.len()
        invariant
            lv == strings_view(lines@),
            lv == split_spec(text@, '\n'),
            k <= lines@.len(),
            out@ == start + prefixed_lines(prefix@, lv.take(k as int)),
        decreases lines@.len() - k,
    {
        out.append(prefix);
        out.append(lines[k].as_str());
        out.append("\n");
        proof {
            reveal_strlit("\n");
            assert(lv.take(k + 1).drop_last() =~= lv.take(k as int));
            assert(lv.take(k + 1).last() == lines@[k as int]@);
            assert(out@ =~= start + prefixed_lines(prefix@, lv.take(k + 1)));
        }
        k = k + 1;
    }
    proof {
        assert(lv.take(lines@.len() as int) =~= lv);
    }
}

/// Appends the lines of an optional multi-line field, each behind `prefix`.
fn append_lines_field(buf: &mut String, prefix: &str, v: &Option<String>)
    ensures
        final(buf)@ == old(buf)@ + (match opt_view(*v) {
            Some(c) => prefixed_lines(prefix@, split_spec(c, '\n')),
            None => Seq::empty(),
        }),
{
    match v {
        Some(c) => append_prefixed_lines(buf, prefix, c.as_str()),
        None => {
            assert(buf@ =~= buf@ + Seq::<char>::empty());
        },
    }
}

/// Appends `prefix`, the value and a line feed when the field is present.
fn append_field(buf: &mut String, prefix: &str, v: &Option<String>)
    ensures
        final(buf)@ == old(buf)@ + field_line(prefix@, opt_view(*v)),
{
    match v {
        Some(x) => {
            buf.append(prefix);
            buf.append(x.as_str());
            buf.append("\n");
            proof {
                reveal_strlit("\n");
                assert(buf@ =~= old(buf)@ + field_line(prefix@, opt_view(*v)));
            }
        },
        None => {
            assert(buf@ =~= buf@ + Seq::<char>::empty());
        },
    }
}

proof fn lemma_single_empty_line(prefix: Seq<char>)
    ensures
        prefixed_lines(prefix, split_spec(Seq::<char>::empty(), '\n')) == prefix + seq!['\n'],
{
    let lines = split_spec(Seq::<char>::empty(), '\n');
    assert(lines =~= seq![Seq::<char>::empty()]);
    assert(lines.drop_last() =~= Seq::<Seq<char>>::empty());
    assert(prefixed_lines(prefix, lines.drop_last()) =~= Seq::<char>::empty());
    assert(lines.last() =~= Seq::<char>::empty());
    assert(prefixed_lines(prefix, lines) =~= prefix + seq!['\n']);
}

/// Appends the `data:` lines; an empty value still yields one empty `data:` line.
fn append_data_field(buf: &mut String, v: &Option<String>)
    ensures
        final(buf)@ == old(buf)@ + (match opt_view(*v) {
            Some(d) => prefixed_lines("data: "@, split_spec(d, '\n')),
            None => Seq::empty(),
        }),
{
    match v {
        Some(data) => {
            if data.as_str().is_empty() {
                buf.append("data: ");
                buf.append("\n");
                proof {
                    reveal_strlit("\n");
                    assert(data@ =~= Seq::<char>::empty());
                    lemma_single_empty_line("data: "@);
                    assert(buf@ =~= old(buf)@ + ("data: "@ + seq!['\n']));
                }
            } else {
                append_prefixed_lines(buf, "data: ", data.as_str());
            }
        },
        None => {
            assert(buf@ =~= buf@ + Seq::<char>::empty());
        },
    }
}

/// Appends the `retry:` line when the interval is set.
fn append_retry_field(buf: &mut String, v: Option<u64>)
    ensures
        final(buf)@ == old(buf)@ + (match v {
            Some(ms) => "retry: "@ + decimal_spec(ms as nat) + seq!['\n'],
            None => Seq::empty(),
        }),
{
    match v {
        Some(ms) => {
            buf.append("retry: ");
            let digits = decimal(ms);
            buf.append(digits.as_str());
            buf.append("\n");
            proof {
                reveal_strlit("\n");
                assert(buf@ =~= old(buf)@ + ("retry: "@ + decimal_spec(ms as nat) + seq!['\n']));
            }
        },
        None => {
            assert(buf@ =~= buf@ + Seq::<char>::empty());
        },
    }
}

impl Event {
    /// An event with no fields set.
    pub fn new() -> (r: Event)
        ensures
            r@.comment is None,
            r@.id is None,
            r@.event is None,
            r@.data is None,
            r@.retry is None,
    {
        Event { comment: None, id: None, event: None, data: None, retry: None }
    }

    /// Set the `data` field; CR LF and lone CR are normalized to LF, and each
    /// line becomes its own `data:` line on the wire.
    pub fn data(self, data: &str) -> (r: Event)
        ensures
            r@.data == Some(normalize_newlines_spec(data@)),
            r@.comment == self@.comment,
            r@.id == self@.id,
            r@.event == self@.event,
            r@.retry == self@.retry,
    {
        Event { data: Some(normalize_newlines(data)), ..self }
    }

    /// Set the `data` field to text already serialized as JSON, unchanged.
    pub fn json_data_text(self, json: String) -> (r: Event)
        ensures
            r@.data == Some(json@),
            r@.comment == self@.comment,
            r@.id == self@.id,
            r@.event == self@.event,
            r@.retry == self@.retry,
    {
        Event { data: Some(json), ..self }
    }

    /// Set the `id` field; NUL characters are stripped.
    pub fn id(self, id: &str) -> (r: Event)
        ensures
            r@.id == Some(without_nul_spec(id@)),
            r@.comment == self@.comment,
            r@.data == self@.data,
            r@.event == self@.event,
            r@.retry == self@.retry,
    {
        Event { id: Some(without_nul(id)), ..self }
    }

    /// Set the `event` field (event type); it is cut at the first line break.
    pub fn event(self, event: &str) -> (r: Event)
        ensures
            r@.event == Some(first_line_spec(event@)),
            r@.comment == self@.comment,
            r@.data == self@.data,
            r@.id == self@.id,
            r@.retry == self@.retry,
    {
        Event { event: Some(first_line(event)), ..self }
    }

    /// Set the `retry` reconnection interval to a span's whole milliseconds
    /// (kept modulo 2^64, as `as u64` does).
    pub fn retry(self, duration: TimeSpan) -> (r: Event)
        ensures
            r@.retry == Some(duration.whole_millis() as u64),
            r@.comment == self@.comment,
            r@.data == self@.data,
            r@.id == self@.id,
            r@.event == self@.event,
    {
        let ms = duration.as_millis();
        self.retry_millis(ms)
    }

    /// Set the `retry` reconnection interval to `millis` milliseconds
    /// (kept modulo 2^64, as `as u64` does).
    pub fn retry_millis(self, millis: u128) -> (r: Event)
        ensures
            r@.retry == Some(millis as u64),
            r@.comment == self@.comment,
            r@.data == self@.data,
            r@.id == self@.id,
            r@.event == self@.event,
    {
        Event { retry: Some(millis as u64), ..self }
    }

    /// Add a comment; CR LF and lone CR are normalized to LF.
    pub fn comment(self, comment: &str) -> (r: Event)
        ensures
            r@.comment == Some(normalize_newlines_spec(comment@)),
            r@.data == self@.data,
            r@.id == self@.id,
            r@.event == self@.event,
            r@.retry == self@.retry,
    {
        Event { comment: Some(normalize_newlines(comment)), ..self }
    }

    /// The SSE wire text of this event.
    pub fn wire_text(&self) -> (r: String)
        ensures
            r@ == event_wire(self@),
    {
        let mut buf = String::new();
        append_lines_field(&mut buf, ": ", &self.comment);
        append_field(&mut buf, "id: ", &self.id);
        append_field(&mut buf, "event: ", &self.event);
        append_data_field(&mut buf, &self.data);
        append_retry_field(&mut buf, self.retry);
        buf.append("\n");
        proof {
            reveal_strlit("\n");
            assert(buf@ =~= event_wire(self@));
        }
        buf
    }

    /// Serialize this event into its SSE wire representation (UTF-8 bytes).
    pub fn serialize(&self) -> (r: Vec<u8>)
        ensures
            r@ == encode_utf8(event_wire(self@)),
    {
        let text = self.wire_text();
        slice_to_vec(text.as_str().as_bytes())
    }
}


/// The UTF-8 byte length of a text.
pub open spec fn byte_len(s: Seq<char>) -> nat {
    encode_utf8(s).len()
}

/// The number of `data:` lines a data value is written as.
pub open spec fn data_line_count(d: Seq<char>) -> nat {
    if d.len() == 0 {
        1
    } else {
        split_spec(d, '\n').len()
    }
}

/// Bytes reserved for the comment lines: three per line plus the comment.
pub open spec fn comment_estimate(c: Option<Seq<char>>) -> int {
    match c {
        Some(c) => (split_spec(c, '\n').len() * 3 + byte_len(c)) as int,
        None => 0,
    }
}

/// Bytes of a `prefix value` line: the prefix, the value and a line feed.
pub open spec fn field_estimate(prefix_len: int, v: Option<Seq<char>>) -> int {
    match v {
        Some(x) => prefix_len + byte_len(x) + 1,
        None => 0,
    }
}

/// Bytes of the `data:` lines: seven per line plus the data less its line breaks.
pub open spec fn data_estimate(d: Option<Seq<char>>) -> int {
    match d {
        Some(d) => data_line_count(d) * 7 + byte_len(d) - (data_line_count(d) - 1),
        None => 0,
    }
}

/// The largest partial sum while computing `data_estimate`.
pub open spec fn data_upper(d: Option<Seq<char>>) -> int {
    match d {
        Some(d) => (data_line_count(d) * 7 + byte_len(d)) as int,
        None => 0,
    }
}

/// The byte length `Event::serialize` reserves for an event: the final line
/// feed; three bytes per comment line plus the comment; the `id: ` and
/// `event: ` lines exactly; seven bytes per data line plus the data less its
/// line breaks; and 28 bytes for a `retry:` line of up to 20 digits.
pub open spec fn wire_len_estimate(e: EventView) -> int {
    1 + comment_estimate(e.comment) + field_estimate(4, e.id) + field_estimate(7, e.event)
        + data_estimate(e.data) + (if e.retry is Some {
        28int
    } else {
        0
    })
}

/// The estimate with the data's partial sum in place of its final value;
/// every partial sum of the computation stays below it.
pub open spec fn wire_len_upper(e: EventView) -> int {
    1 + comment_estimate(e.comment) + field_estimate(4, e.id) + field_estimate(7, e.event)
        + data_upper(e.data) + 28
}

fn comment_len(c: &Option<String>) -> (r: usize)
    requires
        comment_estimate(opt_view(*c)) <= usize::MAX,
    ensures
        r == comment_estimate(opt_view(*c)),
{
    match c {
        Some(c) => {
            let lines = split(c.as_str(), '\n');
            proof {
                assert(strings_view(lines@).len() == lines@.len());
            }
            lines.len() * 3 + c.as_str().len()
        },
        None => 0,
    }
}

fn field_len(prefix_len: usize, v: &Option<String>) -> (r: usize)
    requires
        prefix_len <= 7,
        field_estimate(prefix_len as int, opt_view(*v)) <= usize::MAX,
    ensures
        r == field_estimate(prefix_len as int, opt_view(*v)),
{
    match v {
        Some(x) => prefix_len + x.as_str().len() + 1,
        None => 0,
    }
}

fn data_len(d: &Option<String>) -> (r: usize)
    requires
        data_upper(opt_view(*d)) <= usize::MAX,
    ensures
        r == data_estimate(opt_view(*d)),
{
    match d {
        Some(d) => {
            let lines: usize = if d.as_str().is_empty() {
                1
            } else {
                let pieces = split(d.as_str(), '\n');
                proof {
                    assert(strings_view(pieces@).len() == pieces@.len());
                }
                pieces.len()
            };
            proof {
                crate::text::lemma_split_nonempty(d@, '\n');
                lemma_split_count_bound(d@);
            }
            lines * 7 + d.as_str().len() - (lines - 1)
        },
        None => 0,
    }
}

/// Splitting on line feeds yields at most one piece more than the text has bytes.
proof fn lemma_split_count_bound(s: Seq<char>)
    ensures
        split_spec(s, '\n').len() <= byte_len(s) + 1,
    decreases s.len(),
{
    crate::text::lemma_split_nonempty(s, '\n');
    if s.len() > 0 {
        lemma_split_count_bound(s.drop_last());
        lemma_encode_concat(s.drop_last(), seq![s.last()]);
        assert(s.drop_last() + seq![s.last()] =~= s);
        let c = s.last();
        assert(encode_utf8(seq![c]).len() >= 1) by {
            assert(seq![c].drop_first() =~= Seq::<char>::empty());
            assert(seq![c][0] == c);
            assert(encode_scalar(c as u32).len() >= 1);
            assert(encode_utf8(seq![c]) =~= encode_scalar(c as u32) + encode_utf8(
                Seq::<char>::empty(),
            ));
        }
        assert(byte_len(s) == byte_len(s.drop_last()) + encode_utf8(seq![c]).len());
        let prev = split_spec(s.drop_last(), '\n');
        crate::text::lemma_split_nonempty(s.drop_last(), '\n');
        assert(split_spec(s, '\n').len() <= prev.len() + 1);
    }
}

/// UTF-8 encoding distributes over concatenation.
pub proof fn lemma_encode_concat(a: Seq<char>, b: Seq<char>)
    ensures
        encode_utf8(a + b) == encode_utf8(a) + encode_utf8(b),
    decreases a.len(),
{
    if a.len() == 0 {
        assert(a + b =~= b);
        assert(encode_utf8(a) =~= Seq::<u8>::empty());
        assert(encode_utf8(a) + encode_utf8(b) =~= encode_utf8(b));
    } else {
        assert((a + b).drop_first() =~= a.drop_first() + b);
        assert((a + b)[0] == a[0]);
        lemma_encode_concat(a.drop_first(), b);
        assert(encode_utf8(a + b) =~= encode_scalar(a[0] as u32) + (encode_utf8(a.drop_first())
            + encode_utf8(b)));
    }
}


/// The byte lengths of some lines, added up.
pub open spec fn lines_bytes(lines: Seq<Seq<char>>) -> nat
    decreases lines.len(),
{
    if lines.len() == 0 {
        0
    } else {
        lines_bytes(lines.drop_last()) + byte_len(lines.last())
    }
}

proof fn lemma_byte_len_concat(a: Seq<char>, b: Seq<char>)
    ensures
        byte_len(a + b) == byte_len(a) + byte_len(b),
{
    lemma_encode_concat(a, b);
}

proof fn lemma_ascii_byte_len(s: Seq<char>)
    requires
        forall|i: int| 0 <= i < s.len() ==> '\0' <= #[trigger] s[i] <= '\u{7f}',
    ensures
        byte_len(s) == s.len(),
{
    assert(is_ascii_chars(s));
    is_ascii_chars_encode_utf8(s);
}

/// The bytes of lines written behind a prefix, each followed by a line feed.
proof fn lemma_prefixed_lines_bytes(prefix: Seq<char>, lines: Seq<Seq<char>>)
    ensures
        byte_len(prefixed_lines(prefix, lines)) == lines.len() * (byte_len(prefix) + 1)
            + lines_bytes(lines),
    decreases lines.len(),
{
    if lines.len() > 0 {
        lemma_prefixed_lines_bytes(prefix, lines.drop_last());
        let before = prefixed_lines(prefix, lines.drop_last());
        lemma_byte_len_concat(before, prefix);
        lemma_byte_len_concat(before + prefix, lines.last());
        lemma_byte_len_concat(before + prefix + lines.last(), seq!['\n']);
        lemma_ascii_byte_len(seq!['\n']);
        assert((lines.len() - 1) * (byte_len(prefix) + 1) + byte_len(prefix) + 1 == lines.len() * (
        byte_len(prefix) + 1)) by (nonlinear_arith);
    }
}

/// A text's bytes are its lines' bytes plus one line feed between each two lines.
proof fn lemma_split_bytes(s: Seq<char>)
    ensures
        byte_len(s) + 1 == lines_bytes(split_spec(s, '\n')) + split_spec(s, '\n').len(),
    decreases s.len(),
{
    if s.len() == 0 {
        assert(encode_utf8(s) =~= Seq::<u8>::empty());
        let l = split_spec(s, '\n');
        assert(l =~= seq![Seq::<char>::empty()]);
        assert(l.drop_last() =~= Seq::<Seq<char>>::empty());
        assert(encode_utf8(l.last()) =~= Seq::<u8>::empty());
        assert(lines_bytes(l.drop_last()) == 0);
        assert(lines_bytes(l) == lines_bytes(l.drop_last()) + byte_len(l.last()));
    } else {
        let init = s.drop_last();
        let c = s.last();
        lemma_split_bytes(init);
        crate::text::lemma_split_nonempty(init, '\n');
        assert(init + seq![c] =~= s);
        lemma_byte_len_concat(init, seq![c]);
        let prev = split_spec(init, '\n');
        if c == '\n' {
            lemma_ascii_byte_len(seq![c]);
            assert(split_spec(s, '\n') == prev.push(Seq::<char>::empty()));
            let l = prev.push(Seq::<char>::empty());
            assert(l.drop_last() =~= prev);
            assert(encode_utf8(Seq::<char>::empty()) =~= Seq::<u8>::empty());
            assert(lines_bytes(l) == lines_bytes(l.drop_last()) + byte_len(l.last()));
        } else {
            let l = prev.update(prev.len() - 1, prev.last().push(c));
            assert(split_spec(s, '\n') == l);
            assert(l.drop_last() =~= prev.drop_last());
            assert(l.last() == prev.last().push(c));
            assert(prev.last() + seq![c] =~= prev.last().push(c));
            lemma_byte_len_concat(prev.last(), seq![c]);
            assert(lines_bytes(prev) == lines_bytes(prev.drop_last()) + byte_len(prev.last()));
            assert(lines_bytes(l) == lines_bytes(l.drop_last()) + byte_len(l.last()));
            assert(l.len() == prev.len());
        }
    }
}

/// A decimal numeral of a 64-bit value has at most 20 digits, all ASCII.
proof fn lemma_decimal_u64(n: u64)
    ensures
        byte_len(decimal_spec(n as nat)) <= 20,
{
    reveal_with_fuel(pow10, 21);
    assert(pow10(20) == 100000000000000000000nat);
    lemma_decimal_len(n as nat, 20);
    lemma_decimal_ascii(n as nat);
}

proof fn lemma_decimal_len(n: nat, k: nat)
    requires
        k >= 1,
        n < pow10(k),
    ensures
        decimal_spec(n).len() <= k,
    decreases n,
{
    if n >= 10 {
        assert(k >= 2) by {
            if k == 1 {
                assert(pow10(1) == 10 * pow10(0));
            }
        }
        assert(pow10(k) == 10 * pow10((k - 1) as nat));
        assert(n / 10 < pow10((k - 1) as nat)) by (nonlinear_arith)
            requires
                n < 10 * pow10((k - 1) as nat),
        ;
        lemma_decimal_len(n / 10, (k - 1) as nat);
    }
}

/// Ten to the `k`.
pub open spec fn pow10(k: nat) -> nat
    decreases k,
{
    if k == 0 {
        1
    } else {
        10 * pow10((k - 1) as nat)
    }
}

proof fn lemma_decimal_ascii(n: nat)
    ensures
        byte_len(decimal_spec(n)) == decimal_spec(n).len(),
    decreases n,
{
    if n >= 10 {
        lemma_decimal_ascii(n / 10);
    }
    let d = decimal_spec(n);
    assert forall|i: int| 0 <= i < d.len() implies '\0' <= #[trigger] d[i] <= '\u{7f}' by {
        lemma_decimal_digits(n, i);
    }
    lemma_ascii_byte_len(d);
}

proof fn lemma_decimal_digits(n: nat, i: int)
    requires
        0 <= i < decimal_spec(n).len(),
    ensures
        '0' <= decimal_spec(n)[i] <= '9',
    decreases n,
{
    if n >= 10 {
        if i < decimal_spec(n / 10).len() {
            lemma_decimal_digits(n / 10, i);
        }
    }
}

/// The byte length reserved for an event is never less than the length of
/// its wire form.
pub proof fn lemma_estimate_covers_wire(e: EventView)
    ensures
        byte_len(event_wire(e)) <= wire_len_estimate(e),
{
    reveal_strlit(": ");
    reveal_strlit("id: ");
    reveal_strlit("event: ");
    reveal_strlit("data: ");
    reveal_strlit("retry: ");
    lemma_ascii_byte_len(": "@);
    lemma_ascii_byte_len("id: "@);
    lemma_ascii_byte_len("event: "@);
    lemma_ascii_byte_len("data: "@);
    lemma_ascii_byte_len("retry: "@);
    lemma_ascii_byte_len(seq!['\n']);
    let a = match e.comment {
        Some(c) => prefixed_lines(": "@, split_spec(c, '\n')),
        None => Seq::empty(),
    };
    let b = field_line("id: "@, e.id);
    let c = field_line("event: "@, e.event);
    let d = match e.data {
        Some(d) => prefixed_lines("data: "@, split_spec(d, '\n')),
        None => Seq::empty(),
    };
    let r = match e.retry {
        Some(ms) => "retry: "@ + decimal_spec(ms as nat) + seq!['\n'],
        None => Seq::empty(),
    };
    assert(event_wire(e) == a + b + c + d + r + seq!['\n']);
    lemma_byte_len_concat(a, b);
    lemma_byte_len_concat(a + b, c);
    lemma_byte_len_concat(a + b + c, d);
    lemma_byte_len_concat(a + b + c + d, r);
    lemma_byte_len_concat(a + b + c + d + r, seq!['\n']);
    assert(encode_utf8(Seq::<char>::empty()) =~= Seq::<u8>::empty());
    match e.comment {
        Some(cm) => {
            lemma_prefixed_lines_bytes(": "@, split_spec(cm, '\n'));
            lemma_split_bytes(cm);
            crate::text::lemma_split_nonempty(cm, '\n');
        },
        None => {},
    }
    match e.id {
        Some(x) => {
            lemma_byte_len_concat("id: "@, x);
            lemma_byte_len_concat("id: "@ + x, seq!['\n']);
        },
        None => {},
    }
    match e.event {
        Some(x) => {
            lemma_byte_len_concat("event: "@, x);
            lemma_byte_len_concat("event: "@ + x, seq!['\n']);
        },
        None => {},
    }
    match e.data {
        Some(dd) => {
            lemma_prefixed_lines_bytes("data: "@, split_spec(dd, '\n'));
            lemma_split_bytes(dd);
            crate::text::lemma_split_nonempty(dd, '\n');
            if dd.len() == 0 {
                assert(split_spec(dd, '\n') =~= seq![Seq::<char>::empty()]);
            }
        },
        None => {},
    }
    match e.retry {
        Some(ms) => {
            lemma_decimal_u64(ms);
            lemma_byte_len_concat("retry: "@, decimal_spec(ms as nat));
            lemma_byte_len_concat("retry: "@ + decimal_spec(ms as nat), seq!['\n']);
        },
        None => {},
    }
}

impl Event {
    /// The byte length to reserve for this event's wire form.
    pub fn estimate_wire_len(&self) -> (r: usize)
        requires
            wire_len_upper(self@) <= usize::MAX,
        ensures
            r == wire_len_estimate(self@),
    {
        proof {
            crate::text::lemma_split_nonempty(self@.data.unwrap_or(Seq::empty()), '\n');
        }
        let a = comment_len(&self.comment);
        let b = field_len(4, &self.id);
        let c = field_len(7, &self.event);
        let d = data_len(&self.data);
        let e: usize = if self.retry.is_some() {
            28
        } else {
            0
        };
        1 + a + b + c + d + e
    }
}

impl Default for Event {
    fn default() -> (r: Event)
        ensures
            r@.comment is None,
            r@.id is None,
            r@.event is None,
            r@.data is None,
            r@.retry is None,
    {
        Event::new()
    }
}


/// The wire form of a keep-alive comment carrying `text`.
pub open spec fn keep_alive_wire(text: Seq<char>) -> Seq<u8> {
    encode_utf8(
        event_wire(
            EventView {
                comment: Some(normalize_newlines_spec(text)),
                id: None,
                event: None,
                data: None,
                retry: None,
            },
        ),
    )
}

/// A keep-alive comment sent on an idle event stream at an interval.
#[derive(Debug)]
pub struct KeepAlive {
    interval: TimeSpan,
    comment_bytes: Vec<u8>,
}

impl KeepAlive {
    pub closed spec fn interval_view(&self) -> TimeSpan {
        self.interval
    }

    pub closed spec fn comment_view(&self) -> Seq<u8> {
        self.comment_bytes@
    }

    /// Every 15 seconds, an empty comment (`: ` and a blank line).
    pub fn new() -> (r: KeepAlive)
        ensures
            r.interval_view().secs_view() == 15,
            r.interval_view().nanos_view() == 0,
            r.comment_view() == keep_alive_wire(Seq::empty()),
    {
        KeepAlive::default()
    }

    /// Send the keep-alive at this interval.
    pub fn interval(self, interval: TimeSpan) -> (r: KeepAlive)
        ensures
            r.interval_view() == interval,
            r.comment_view() == self.comment_view(),
    {
        KeepAlive { interval, ..self }
    }

    /// Send this text as the keep-alive comment.
    pub fn text(self, text: &str) -> (r: KeepAlive)
        ensures
            r.interval_view() == self.interval_view(),
            r.comment_view() == keep_alive_wire(text@),
    {
        let e = Event::new().comment(text);
        KeepAlive { comment_bytes: e.serialize(), ..self }
    }

    /// The interval.
    pub fn interval_duration(&self) -> (r: TimeSpan)
        ensures
            r == self.interval_view(),
    {
        self.interval
    }

    /// The comment's wire bytes.
    pub fn comment_bytes(&self) -> (r: &Vec<u8>)
        ensures
            r@ == self.comment_view(),
    {
        &self.comment_bytes
    }
}

impl Clone for KeepAlive {
    fn clone(&self) -> (r: KeepAlive)
        ensures
            r.interval_view() == self.interval_view(),
            r.comment_view() == self.comment_view(),
    {
        let comment_bytes = self.comment_bytes.clone();
        proof {
            assert(comment_bytes@ =~= self.comment_bytes@);
        }
        KeepAlive { interval: self.interval, comment_bytes }
    }
}

impl Default for KeepAlive {
    fn default() -> (r: KeepAlive)
        ensures
            r.interval_view().secs_view() == 15,
            r.interval_view().nanos_view() == 0,
            r.comment_view() == keep_alive_wire(Seq::empty()),
    {
        let e = Event::new().comment("");
        proof {
            reveal_strlit("");
            assert(""@ =~= Seq::<char>::empty());
        }
        KeepAlive { interval: TimeSpan::from_secs(15), comment_bytes: e.serialize() }
    }
}


/// A stream of events sent as a `text/event-stream` response, with an
/// optional keep-alive comment.
pub struct Sse<S> {
    stream: S,
    keep_alive: Option<KeepAlive>,
}

impl<S> Sse<S> {
    pub closed spec fn stream_view(&self) -> S {
        self.stream
    }

    pub closed spec fn keep_alive_view(&self) -> Option<KeepAlive> {
        self.keep_alive
    }

    /// Send the events of `stream`, without keep-alive.
    pub fn new(stream: S) -> (r: Sse<S>)
        ensures
            r.stream_view() == stream,
            r.keep_alive_view() is None,
    {
        Sse { stream, keep_alive: None }
    }

    /// Send `keep_alive` whenever the stream is idle for its interval.
    pub fn keep_alive(self, keep_alive: KeepAlive) -> (r: Sse<S>)
        ensures
            r.stream_view() == self.stream_view(),
            r.keep_alive_view() == Some(keep_alive),
    {
        Sse { keep_alive: Some(keep_alive), ..self }
    }

    /// The stream and the keep-alive setting.
    pub fn into_parts(self) -> (r: (S, Option<KeepAlive>))
        ensures
            r.0 == self.stream_view(),
            r.1 == self.keep_alive_view(),
    {
        (self.stream, self.keep_alive)
    }
}

/// The head of an event-stream response: `200` with `text/event-stream`,
/// `Cache-Control: no-cache` and `X-Accel-Buffering: no`; the body is the stream.
pub fn event_stream_head() -> (r: crate::response::Response)
    ensures
        r.status == 200,
        crate::response::only_headers(
            r.headers,
            seq![
                ("content-type"@, "text/event-stream"@),
                ("cache-control"@, "no-cache"@),
                ("x-accel-buffering"@, "no"@),
            ],
        ),
        r.body@.len() == 0,
{
    proof {
        reveal_strlit("content-type");
        reveal_strlit("cache-control");
        reveal_strlit("x-accel-buffering");
        reveal_strlit("text/event-stream");
        reveal_strlit("no-cache");
        reveal_strlit("no");
        assert("content-type"@.len() == 12);
        assert("cache-control"@.len() == 13);
        assert("x-accel-buffering"@.len() == 17);
        let t = "text/event-stream"@;
        assert forall|i: int| 0 <= i < t.len() implies #[trigger] crate::headers::is_header_value_char(
            t[i],
        ) by {}
        let t = "no-cache"@;
        assert forall|i: int| 0 <= i < t.len() implies #[trigger] crate::headers::is_header_value_char(
            t[i],
        ) by {}
        let t = "no"@;
        assert forall|i: int| 0 <= i < t.len() implies #[trigger] crate::headers::is_header_value_char(
            t[i],
        ) by {}
    }
    let mut r = crate::response::Response::empty(200);
    crate::headers::header_insert(&mut r.headers, "content-type", "text/event-stream");
    crate::headers::header_insert(&mut r.headers, "cache-control", "no-cache");
    crate::headers::header_insert(&mut r.headers, "x-accel-buffering", "no");
    proof {
        let ps = seq![
            ("content-type"@, "text/event-stream"@),
            ("cache-control"@, "no-cache"@),
            ("x-accel-buffering"@, "no"@),
        ];
        assert forall|i: int| 0 <= i < ps.len() implies #[trigger] crate::response::has_single(
            r.headers,
            ps[i].0,
            ps[i].1,
        ) by {}
        assert forall|n: Seq<char>|
            (forall|i: int| 0 <= i < ps.len() ==> #[trigger] ps[i].0 != n) implies crate::response::lacks(
            r.headers,
            n,
        ) by {
            assert(ps[0].0 != n && ps[1].0 != n && ps[2].0 != n);
        }
    }
    r
}

/// What polling the event stream gave.
pub enum StreamPoll {
    /// An event, already serialized.
    Item(Vec<u8>),
    /// The stream failed.
    Failed,
    /// The stream ended.
    Finished,
    /// Nothing yet; whether the keep-alive timer has fired.
    Idle { timer_fired: bool },
}

/// What the response body does next.
pub enum StreamStep {
    /// Send these bytes; restart the keep-alive timer when there is one.
    Send { bytes: Vec<u8>, restart_timer: bool },
    /// Pass the stream's error on.
    Fail,
    /// Close the body.
    End,
    /// Wait for the stream or the timer.
    Wait,
}

/// The next step of an event-stream body: events go out as they come (each
/// restarting the keep-alive timer), an error or the end of the stream is
/// passed on, and when the stream is idle and the keep-alive timer has fired
/// the keep-alive comment goes out and the timer restarts.
pub fn next_step(keep_alive: &Option<KeepAlive>, poll: StreamPoll) -> (r: StreamStep)
    ensures
        match poll {
            StreamPoll::Item(b) => r == StreamStep::Send { bytes: b, restart_timer: keep_alive is Some },
            StreamPoll::Failed => r is Fail,
            StreamPoll::Finished => r is End,
            StreamPoll::Idle { timer_fired } => match keep_alive {
                Some(k) => if timer_fired {
                    (r matches StreamStep::Send { bytes, restart_timer } && restart_timer
                        && bytes@ == k.comment_view())
                } else {
                    r is Wait
                },
                None => r is Wait,
            },
        },
{
    match poll {
        StreamPoll::Item(b) => StreamStep::Send { bytes: b, restart_timer: keep_alive.is_some() },
        StreamPoll::Failed => StreamStep::Fail,
        StreamPoll::Finished => StreamStep::End,
        StreamPoll::Idle { timer_fired } => match keep_alive {
            Some(k) => if timer_fired {
                let bytes = k.comment_bytes().clone();
                proof {
                    assert(bytes@ =~= k.comment_view());
                }
                StreamStep::Send { bytes, restart_timer: true }
            } else {
                StreamStep::Wait
            },
            None => StreamStep::Wait,
        },
    }
}

} // verus!
