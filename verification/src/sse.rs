//! SSE (Server-Sent Events) framing.
//!
//! The parser works at the protocol framing level: an event may be split over
//! any number of transport chunks and a chunk may hold many events. Its
//! behaviour is specified by a character-at-a-time model ([`spec_feed`]), so
//! that feeding two chunks one after the other is the same as feeding their
//! concatenation.

use vstd::prelude::*;
use vstd::utf8::*;
use crate::text::{
    has_prefix, is_unicode_whitespace, join, push_char, string_from_chars, trim, trim_chars,
    trim_end_char,
};

verus! {

// ─── Model ──────────────────────────────────────────────────────────────────

/// The fields of an event that is still being accumulated.
pub struct PendingModel {
    pub event_type: Option<Seq<char>>,
    pub data_lines: Seq<Seq<char>>,
    pub id: Option<Seq<char>>,
    pub retry: Option<u64>,
}

/// The whole observable state of a parser: the incomplete line and the
/// pending event.
pub struct ParserModel {
    pub buffer: Seq<char>,
    pub pending: PendingModel,
}

/// The value of one parsed event.
pub struct EventModel {
    pub event_type: Option<Seq<char>>,
    pub data: Seq<char>,
    pub id: Option<Seq<char>>,
    pub retry: Option<u64>,
}

pub open spec fn empty_pending() -> PendingModel {
    PendingModel { event_type: None, data_lines: Seq::empty(), id: None, retry: None }
}

/// The state of a freshly created parser.
pub open spec fn fresh_parser() -> ParserModel {
    ParserModel { buffer: Seq::empty(), pending: empty_pending() }
}

pub open spec fn data_prefix() -> Seq<char> {
    seq!['d', 'a', 't', 'a', ':']
}

pub open spec fn event_prefix() -> Seq<char> {
    seq!['e', 'v', 'e', 'n', 't', ':']
}

pub open spec fn id_prefix() -> Seq<char> {
    seq!['i', 'd', ':']
}

pub open spec fn retry_prefix() -> Seq<char> {
    seq!['r', 'e', 't', 'r', 'y', ':']
}

/// The value of a field line after its `name:` prefix, without one optional
/// leading space.
pub open spec fn field_value(line: Seq<char>, prefix_len: int) -> Seq<char> {
    let v = line.subrange(prefix_len, line.len() as int);
    if v.len() > 0 && v[0] == ' ' {
        v.drop_first()
    } else {
        v
    }
}

pub open spec fn is_ascii_digit(c: char) -> bool {
    '0' <= c && c <= '9'
}

/// Decimal value of a string of ASCII digits.
pub open spec fn digits_value(ds: Seq<char>) -> nat
    decreases ds.len(),
{
    if ds.len() == 0 {
        0
    } else {
        digits_value(ds.drop_last()) * 10 + ((ds.last() as nat) - ('0' as nat)) as nat
    }
}

pub open spec fn all_digits(ds: Seq<char>) -> bool {
    forall|i: int| 0 <= i < ds.len() ==> is_ascii_digit(#[trigger] ds[i])
}

/// `str::parse::<u64>`: an optional `+`, then at least one ASCII digit, with
/// a value that fits in a `u64`.
pub open spec fn spec_parse_u64(s: Seq<char>) -> Option<u64> {
    let ds = if s.len() > 0 && s[0] == '+' {
        s.drop_first()
    } else {
        s
    };
    if ds.len() > 0 && all_digits(ds) && digits_value(ds) <= u64::MAX {
        Some(digits_value(ds) as u64)
    } else {
        None
    }
}

/// Effect of one non-blank field line on the pending event.
pub open spec fn spec_parse_line(p: PendingModel, line: Seq<char>) -> PendingModel {
    if line.len() == 0 || line[0] == ':' {
        p
    } else if has_prefix(line, data_prefix()) {
        PendingModel { data_lines: p.data_lines.push(field_value(line, 5)), ..p }
    } else if has_prefix(line, event_prefix()) {
        PendingModel { event_type: Some(field_value(line, 6)), ..p }
    } else if has_prefix(line, id_prefix()) {
        PendingModel { id: Some(field_value(line, 3)), ..p }
    } else if has_prefix(line, retry_prefix()) {
        match spec_parse_u64(trim(field_value(line, 6))) {
            Some(ms) => PendingModel { retry: Some(ms), ..p },
            None => p,
        }
    } else {
        p
    }
}

/// The event that a pending state stands for.
pub open spec fn spec_emit(p: PendingModel) -> EventModel {
    EventModel {
        event_type: p.event_type,
        data: join(p.data_lines, seq!['\n']),
        id: p.id,
        retry: p.retry,
    }
}

/// One character of input: a `\n` ends the buffered line (trailing `\r`s
/// removed); a blank line emits the pending event when it has data and
/// always starts a new one.
pub open spec fn spec_step(m: ParserModel, c: char) -> (ParserModel, Seq<EventModel>) {
    if c == '\n' {
        let line = trim_end_char(m.buffer, '\r');
        if line.len() == 0 {
            let events = if m.pending.data_lines.len() > 0 {
                seq![spec_emit(m.pending)]
            } else {
                Seq::empty()
            };
            (ParserModel { buffer: Seq::empty(), pending: empty_pending() }, events)
        } else {
            (
                ParserModel { buffer: Seq::empty(), pending: spec_parse_line(m.pending, line) },
                Seq::empty(),
            )
        }
    } else {
        (ParserModel { buffer: m.buffer.push(c), pending: m.pending }, Seq::empty())
    }
}

/// Feeding a sequence of characters: the new state and the events completed.
pub open spec fn spec_feed(m: ParserModel, cs: Seq<char>) -> (ParserModel, Seq<EventModel>)
    decreases cs.len(),
{
    if cs.len() == 0 {
        (m, Seq::empty())
    } else {
        let prev = spec_feed(m, cs.drop_last());
        let next = spec_step(prev.0, cs.last());
        (next.0, prev.1 + next.1)
    }
}

/// End of stream: the incomplete line is parsed, and the pending event is
/// emitted when it has data.
pub open spec fn spec_finish(m: ParserModel) -> (ParserModel, Seq<EventModel>) {
    let p = if m.buffer.len() > 0 {
        spec_parse_line(m.pending, trim_end_char(m.buffer, '\r'))
    } else {
        m.pending
    };
    if p.data_lines.len() > 0 {
        (
            ParserModel {
                buffer: Seq::empty(),
                pending: PendingModel { event_type: None, data_lines: Seq::empty(), id: None, retry: None },
            },
            seq![spec_emit(p)],
        )
    } else {
        (ParserModel { buffer: Seq::empty(), pending: p }, Seq::empty())
    }
}

/// Decoding of a transport chunk as `String::from_utf8_lossy` does it.
pub uninterp spec fn utf8_lossy(bytes: Seq<u8>) -> Seq<char>;

/// `String::from_utf8_lossy`: the characters of `chunk`, invalid sequences
/// replaced by U+FFFD. Claimed: the result is a function of the bytes alone,
/// and on valid UTF-8 it is exactly the decoded text. Which replacement
/// characters stand for invalid input is left to the name.
#[verifier::external_body]
fn decode_chunk(chunk: &[u8]) -> (cs: Vec<char>)
    ensures
        cs@ == utf8_lossy(chunk@),
        valid_utf8(chunk@) ==> cs@ == decode_utf8(chunk@),
{
    String::from_utf8_lossy(chunk).chars().collect()
}

// ─── Parsed events ──────────────────────────────────────────────────────────

/// A parsed SSE event.
#[derive(Debug, Clone, PartialEq, Eq)]
pub struct SseEvent {
    /// Event type (from `event:` line).
    pub event_type: Option<String>,
    /// Event data (concatenated `data:` lines).
    pub data: String,
    /// Event ID (from `id:` line).
    pub id: Option<String>,
    /// Retry interval (from `retry:` line).
    pub retry: Option<u64>,
}

pub open spec fn opt_string_view(o: Option<String>) -> Option<Seq<char>> {
    match o {
        Some(s) => Some(s@),
        None => None,
    }
}

pub open spec fn opt_chars_view(o: Option<Vec<char>>) -> Option<Seq<char>> {
    match o {
        Some(v) => Some(v@),
        None => None,
    }
}

impl View for SseEvent {
    type V = EventModel;

    open spec fn view(&self) -> EventModel {
        EventModel {
            event_type: opt_string_view(self.event_type),
            data: self.data@,
            id: opt_string_view(self.id),
            retry: self.retry,
        }
    }
}

pub open spec fn events_view(es: Seq<SseEvent>) -> Seq<EventModel> {
    es.map_values(|e: SseEvent| e@)
}

pub open spec fn done_marker() -> Seq<char> {
    seq!['[', 'D', 'O', 'N', 'E', ']']
}

impl SseEvent {
    /// Check if this is the OpenAI `[DONE]` sentinel.
    pub fn is_done(&self) -> (b: bool)
        ensures
            b == (trim(self.data@) == done_marker()),
    {
        let cs = crate::text::str_chars(self.data.as_str());
        let t = trim_chars(cs.as_slice());
        let marker: [char; 6] = ['[', 'D', 'O', 'N', 'E', ']'];
        let r = chars_equal(t.as_slice(), marker.as_slice());
        assert(marker@ == done_marker());
        r
    }
}

/// Character-wise equality of two slices.
pub fn chars_equal(a: &[char], b: &[char]) -> (r: bool)
    ensures
        r == (a@ == b@),
{
    if a.len() != b.len() {
        return false;
    }
    let mut i: usize = 0;
    while i < a.len()
        invariant
            a.len() == b.len(),
            i <= a.len(),
            forall|k: int| 0 <= k < i ==> a@[k] == b@[k],
        decreases a.len() - i,
    {
        if a[i] != b[i] {
            return false;
        }
        i = i + 1;
    }
    assert(a@ =~= b@);
    true
}

/// `p` is a prefix of `line`.
fn starts_with(line: &[char], p: &[char]) -> (r: bool)
    ensures
        r == has_prefix(line@, p@),
{
    if p.len() > line.len() {
        return false;
    }
    let mut i: usize = 0;
    while i < p.len()
        invariant
            p.len() <= line.len(),
            i <= p.len(),
            forall|k: int| 0 <= k < i ==> line@[k] == p@[k],
        decreases p.len() - i,
    {
        if line[i] != p[i] {
            assert(line@.subrange(0, p.len() as int)[i as int] != p@[i as int]);
            return false;
        }
        i = i + 1;
    }
    assert(line@.subrange(0, p.len() as int) =~= p@);
    true
}

/// Field value after a prefix of `n` characters, without one leading space.
fn field_value_of(line: &[char], n: usize) -> (v: Vec<char>)
    requires
        n <= line.len(),
    ensures
        v@ == field_value(line@, n as int),
{
    let mut start = n;
    if n < line.len() && line[n] == ' ' {
        start = n + 1;
    }
    let mut v: Vec<char> = Vec::new();
    let mut i = start;
    while i < line.len()
        invariant
            start <= i <= line.len(),
            v@ == line@.subrange(start as int, i as int),
        decreases line.len() - i,
    {
        v.push(line[i]);
        i = i + 1;
    }
    proof {
        let w = line@.subrange(n as int, line@.len() as int);
        if n < line.len() && line@[n as int] == ' ' {
            assert(w.drop_first() =~= v@);
        } else {
            assert(w =~= v@);
        }
    }
    v
}

proof fn lemma_digits_value_prefix(ds: Seq<char>, i: int)
    requires
        0 <= i <= ds.len(),
        forall|k: int| 0 <= k < ds.len() ==> is_ascii_digit(#[trigger] ds[k]),
    ensures
        digits_value(ds.subrange(0, i)) <= digits_value(ds),
    decreases ds.len() - i,
{
    if i < ds.len() {
        lemma_digits_value_prefix(ds, i + 1);
        let a = ds.subrange(0, i + 1);
        assert(a.drop_last() == ds.subrange(0, i));
        assert(is_ascii_digit(a.last()));
    } else {
        assert(ds.subrange(0, i) == ds);
    }
}

/// `str::parse::<u64>` on a character sequence.
pub fn parse_u64(s: &[char]) -> (r: Option<u64>)
    ensures
        r == spec_parse_u64(s@),
{
    let start: usize = if s.len() > 0 && s[0] == '+' {
        1
    } else {
        0
    };
    let ghost ds = if s@.len() > 0 && s@[0] == '+' {
        s@.drop_first()
    } else {
        s@
    };
    assert(ds == s@.subrange(start as int, s@.len() as int));
    if start == s.len() {
        return None;
    }
    let mut acc: u64 = 0;
    let mut i = start;
    while i < s.len()
        invariant
            start <= i <= s.len(),
            ds == s@.subrange(start as int, s@.len() as int),
            ds == (if s@.len() > 0 && s@[0] == '+' {
                s@.drop_first()
            } else {
                s@
            }),
            forall|k: int| 0 <= k < i - start ==> is_ascii_digit(#[trigger] ds[k]),
            acc as nat == digits_value(ds.subrange(0, i - start)),
        decreases s.len() - i,
    {
        let c = s[i];
        if !('0' <= c && c <= '9') {
            assert(ds[i - start] == s@[i as int]);
            assert(!is_ascii_digit(ds[i - start]));
            return None;
        }
        let d = (c as u32 - '0' as u32) as u64;
        let ghost pre = ds.subrange(0, i - start);
        let ghost next = ds.subrange(0, i - start + 1);
        assert(next.drop_last() == pre);
        assert(next.last() == c);
        if acc > (u64::MAX - d) / 10 {
            proof {
                assert(acc * 10 + d > u64::MAX) by (nonlinear_arith)
                    requires
                        acc > (u64::MAX - d) / 10,
                        d <= 9,
                ;
                assert(d as nat == (c as nat) - ('0' as nat));
                assert(digits_value(next) == digits_value(pre) * 10 + d);
                // every further digit only makes the value larger
                if forall|j: int| 0 <= j < ds.len() ==> is_ascii_digit(#[trigger] ds[j]) {
                    lemma_digits_value_prefix(ds, i - start + 1);
                }
            }
            return None;
        }
        proof {
            assert(acc * 10 + d <= u64::MAX) by (nonlinear_arith)
                requires
                    acc <= (u64::MAX - d) / 10,
                    d <= 9,
            ;
        }
        assert(d as nat == (c as nat) - ('0' as nat));
        assert(ds[i - start] == c);
        acc = acc * 10 + d;
        i = i + 1;
    }
    assert(ds.subrange(0, ds.len() as int) == ds);
    Some(acc)
}

// ─── Streaming parser ───────────────────────────────────────────────────────

/// Streaming SSE event parser that accumulates partial events across
/// transport chunks: events split over chunks, several events in one chunk,
/// multi-line `data:` fields, comment lines, `event:`/`id:`/`retry:` fields,
/// blank-line termination and flushing at connection close.
#[derive(Debug)]
pub struct StreamingSseParser {
    /// The incomplete current line.
    line_buffer: Vec<char>,
    current_event_type: Option<Vec<char>>,
    current_data_lines: Vec<Vec<char>>,
    current_id: Option<Vec<char>>,
    current_retry: Option<u64>,
}

pub open spec fn lines_view(ls: Seq<Vec<char>>) -> Seq<Seq<char>> {
    ls.map_values(|l: Vec<char>| l@)
}

impl View for StreamingSseParser {
    type V = ParserModel;

    closed spec fn view(&self) -> ParserModel {
        ParserModel {
            buffer: self.line_buffer@,
            pending: PendingModel {
                event_type: opt_chars_view(self.current_event_type),
                data_lines: lines_view(self.current_data_lines@),
                id: opt_chars_view(self.current_id),
                retry: self.current_retry,
            },
        }
    }
}

fn opt_string_of(o: &Option<Vec<char>>) -> (r: Option<String>)
    ensures
        opt_string_view(r) == opt_chars_view(*o),
{
    match o {
        Some(v) => Some(string_from_chars(v.as_slice())),
        None => None,
    }
}

/// Join lines with `\n` between them.
fn join_lines(lines: &Vec<Vec<char>>) -> (out: String)
    ensures
        out@ == join(lines_view(lines@), seq!['\n']),
{
    let mut out = String::new();
    let mut i: usize = 0;
    while i < lines.len()
        invariant
            i <= lines.len(),
            out@ == join(lines_view(lines@.subrange(0, i as int)), seq!['\n']),
        decreases lines.len() - i,
    {
        let ghost before = out@;
        if i > 0 {
            push_char(&mut out, '\n');
        }
        let line = &lines[i];
        let mut k: usize = 0;
        while k < line.len()
            invariant
                k <= line.len(),
                i < lines.len(),
                line == lines@[i as int],
                out@ == (if i > 0 {
                    before + seq!['\n']
                } else {
                    before
                }) + line@.subrange(0, k as int),
            decreases line.len() - k,
        {
            push_char(&mut out, line[k]);
            k = k + 1;
        }
        proof {
            let pre = lines_view(lines@.subrange(0, i as int));
            let post = lines_view(lines@.subrange(0, i as int + 1));
            assert(post.drop_last() =~= pre);
            assert(post.last() == line@);
            assert(line@.subrange(0, k as int) == line@);
            if i == 0 {
                assert(pre.len() == 0);
                assert(join(pre, seq!['\n']) =~= Seq::<char>::empty());
            }
        }
        i = i + 1;
    }
    assert(lines@.subrange(0, lines@.len() as int) == lines@);
    out
}

/// Characters of `buf` without its trailing `\r`s.
fn trim_end_cr(buf: &Vec<char>) -> (out: Vec<char>)
    ensures
        out@ == trim_end_char(buf@, '\r'),
{
    let mut j = buf.len();
    assert(buf@.subrange(0, j as int) == buf@);
    while j > 0 && buf[j - 1] == '\r'
        invariant
            j <= buf.len(),
            trim_end_char(buf@, '\r') == trim_end_char(buf@.subrange(0, j as int), '\r'),
        decreases j,
    {
        let ghost s = buf@.subrange(0, j as int);
        assert(s.drop_last() == buf@.subrange(0, j - 1));
        j = j - 1;
    }
    let mut out: Vec<char> = Vec::new();
    let mut k: usize = 0;
    while k < j
        invariant
            k <= j <= buf.len(),
            out@ == buf@.subrange(0, k as int),
        decreases j - k,
    {
        out.push(buf[k]);
        k = k + 1;
    }
    proof {
        if j == buf.len() {
            assert(buf@.subrange(0, j as int) == buf@);
        }
    }
    out
}

impl StreamingSseParser {
    /// Create a new streaming parser.
    pub fn new() -> (p: Self)
        ensures
            p@ == fresh_parser(),
    {
        let p = StreamingSseParser {
            line_buffer: Vec::new(),
            current_event_type: None,
            current_data_lines: Vec::new(),
            current_id: None,
            current_retry: None,
        };
        assert(lines_view(p.current_data_lines@) =~= Seq::<Seq<char>>::empty());
        p
    }

    /// The event that the pending fields stand for.
    fn pending_event(&self) -> (e: SseEvent)
        ensures
            e@ == spec_emit(self@.pending),
    {
        SseEvent {
            event_type: opt_string_of(&self.current_event_type),
            data: join_lines(&self.current_data_lines),
            id: opt_string_of(&self.current_id),
            retry: self.current_retry,
        }
    }

    fn reset_pending(&mut self)
        ensures
            final(self)@ == (ParserModel { buffer: old(self)@.buffer, pending: empty_pending() }),
    {
        self.current_event_type = None;
        self.current_data_lines = Vec::new();
        self.current_id = None;
        self.current_retry = None;
        assert(lines_view(self.current_data_lines@) =~= Seq::<Seq<char>>::empty());
    }

    /// Parse a single SSE field line and update the current event state.
    fn parse_line(&mut self, line: &Vec<char>)
        ensures
            final(self)@ == (ParserModel {
                buffer: old(self)@.buffer,
                pending: spec_parse_line(old(self)@.pending, line@),
            }),
    {
        if line.len() == 0 || line[0] == ':' {
            return ;
        }
        let data_p: [char; 5] = ['d', 'a', 't', 'a', ':'];
        let event_p: [char; 6] = ['e', 'v', 'e', 'n', 't', ':'];
        let id_p: [char; 3] = ['i', 'd', ':'];
        let retry_p: [char; 6] = ['r', 'e', 't', 'r', 'y', ':'];
        assert(data_p@ == data_prefix());
        assert(event_p@ == event_prefix());
        assert(id_p@ == id_prefix());
        assert(retry_p@ == retry_prefix());
        if starts_with(line.as_slice(), data_p.as_slice()) {
            let v = field_value_of(line.as_slice(), 5);
            let ghost old_lines = self.current_data_lines@;
            self.current_data_lines.push(v);
            assert(lines_view(self.current_data_lines@) =~= lines_view(old_lines).push(
                field_value(line@, 5),
            ));
        } else if starts_with(line.as_slice(), event_p.as_slice()) {
            self.current_event_type = Some(field_value_of(line.as_slice(), 6));
        } else if starts_with(line.as_slice(), id_p.as_slice()) {
            self.current_id = Some(field_value_of(line.as_slice(), 3));
        } else if starts_with(line.as_slice(), retry_p.as_slice()) {
            let v = field_value_of(line.as_slice(), 6);
            let t = trim_chars(v.as_slice());
            if let Some(ms) = parse_u64(t.as_slice()) {
                self.current_retry = Some(ms);
            }
        }
    }

    /// Process one character of input, appending completed events.
    fn step(&mut self, c: char, events: &mut Vec<SseEvent>)
        ensures
            final(self)@ == spec_step(old(self)@, c).0,
            events_view(final(events)@) == events_view(old(events)@) + spec_step(
                old(self)@,
                c,
            ).1,
    {
        let ghost m = self@;
        if c == '\n' {
            let line = trim_end_cr(&self.line_buffer);
            self.line_buffer = Vec::new();
            if line.len() == 0 {
                if self.current_data_lines.len() > 0 {
                    let e = self.pending_event();
                    let ghost before = events@;
                    events.push(e);
                    assert(events_view(events@) =~= events_view(before) + seq![
                        spec_emit(m.pending),
                    ]);
                } else {
                    assert(events_view(events@) =~= events_view(events@) + Seq::<
                        EventModel,
                    >::empty());
                }
                self.reset_pending();
            } else {
                self.parse_line(&line);
                assert(events_view(events@) =~= events_view(events@) + Seq::<EventModel>::empty());
            }
        } else {
            self.line_buffer.push(c);
            assert(events_view(events@) =~= events_view(events@) + Seq::<EventModel>::empty());
        }
    }

    /// Feed raw bytes from the transport. Returns all complete events found.
    pub fn feed(&mut self, chunk: &[u8]) -> (events: Vec<SseEvent>)
        ensures
            final(self)@ == spec_feed(old(self)@, utf8_lossy(chunk@)).0,
            events_view(events@) == spec_feed(old(self)@, utf8_lossy(chunk@)).1,
            valid_utf8(chunk@) ==> final(self)@ == spec_feed(old(self)@, decode_utf8(chunk@)).0,
            valid_utf8(chunk@) ==> events_view(events@) == spec_feed(
                old(self)@,
                decode_utf8(chunk@),
            ).1,
    {
        let cs = decode_chunk(chunk);
        let ghost start = self@;
        let mut events: Vec<SseEvent> = Vec::new();
        let mut i: usize = 0;
        assert(events_view(events@) =~= Seq::<EventModel>::empty());
        assert(cs@.subrange(0, 0) =~= Seq::<char>::empty());
        while i < cs.len()
            invariant
                i <= cs.len(),
                self@ == spec_feed(start, cs@.subrange(0, i as int)).0,
                events_view(events@) == spec_feed(start, cs@.subrange(0, i as int)).1,
            decreases cs.len() - i,
        {
            assert(cs@.subrange(0, i + 1).drop_last() == cs@.subrange(0, i as int));
            assert(cs@.subrange(0, i + 1).last() == cs@[i as int]);
            self.step(cs[i], &mut events);
            i = i + 1;
        }
        assert(cs@.subrange(0, cs@.len() as int) == cs@);
        events
    }

    /// Signal that the connection has ended. Flushes any incomplete event
    /// that has accumulated data (some servers send the last event without
    /// a trailing blank line).
    pub fn finish(&mut self) -> (events: Vec<SseEvent>)
        ensures
            final(self)@ == spec_finish(old(self)@).0,
            events_view(events@) == spec_finish(old(self)@).1,
    {
        let mut events: Vec<SseEvent> = Vec::new();
        if self.line_buffer.len() > 0 {
            let remaining = trim_end_cr(&self.line_buffer);
            self.line_buffer = Vec::new();
            self.parse_line(&remaining);
        } else {
            assert(self.line_buffer@ =~= Seq::<char>::empty());
        }
        if self.current_data_lines.len() > 0 {
            let e = self.pending_event();
            events.push(e);
            self.current_event_type = None;
            self.current_data_lines = Vec::new();
            self.current_id = None;
            self.current_retry = None;
            assert(lines_view(self.current_data_lines@) =~= Seq::<Seq<char>>::empty());
            assert(events_view(events@) =~= seq![e@]);
        } else {
            assert(events_view(events@) =~= Seq::<EventModel>::empty());
        }
        events
    }
}

impl Default for StreamingSseParser {
    fn default() -> (p: Self)
        ensures
            p@ == fresh_parser(),
    {
        StreamingSseParser::new()
    }
}

// ─── Formatting ─────────────────────────────────────────────────────────────

/// The lines of `s`, split at every `\n` (`str::split('\n')`).
pub open spec fn split_lines(s: Seq<char>) -> Seq<Seq<char>>
    decreases s.len(),
{
    if s.len() == 0 {
        seq![Seq::empty()]
    } else {
        let prev = split_lines(s.drop_last());
        if s.last() == '\n' {
            prev.push(Seq::empty())
        } else {
            prev.update(prev.len() - 1, prev.last().push(s.last()))
        }
    }
}

pub open spec fn data_field() -> Seq<char> {
    seq!['d', 'a', 't', 'a', ':', ' ']
}

/// One `data: ` line per element of `lines`.
pub open spec fn data_block(lines: Seq<Seq<char>>) -> Seq<char>
    decreases lines.len(),
{
    if lines.len() == 0 {
        Seq::empty()
    } else {
        data_block(lines.drop_last()) + data_field() + lines.last() + seq!['\n']
    }
}

/// The `event: ` line, when there is an event type.
pub open spec fn event_line(event_type: Option<Seq<char>>) -> Seq<char> {
    match event_type {
        Some(et) => seq!['e', 'v', 'e', 'n', 't', ':', ' '] + et + seq!['\n'],
        None => Seq::empty(),
    }
}

/// The wire text of one event: its optional `event:` line, one `data:` line
/// per line of the data, and a terminating blank line.
pub open spec fn spec_format_sse(data: Seq<char>, event_type: Option<Seq<char>>) -> Seq<char> {
    event_line(event_type) + data_block(split_lines(data)) + seq!['\n']
}

pub open spec fn opt_str_view(o: Option<&str>) -> Option<Seq<char>> {
    match o {
        Some(s) => Some(s@),
        None => None,
    }
}

proof fn lemma_split_lines_nonempty(s: Seq<char>)
    ensures
        split_lines(s).len() >= 1,
    decreases s.len(),
{
    if s.len() > 0 {
        lemma_split_lines_nonempty(s.drop_last());
    }
}

/// Apply SSE wire format to data: produce the raw bytes for a single event.
pub fn format_sse_event(data: &str, event_type: Option<&str>) -> (out: Vec<u8>)
    ensures
        out@ == encode_utf8(spec_format_sse(data@, opt_str_view(event_type))),
{
    let mut s = String::new();
    proof {
        reveal_strlit("event: ");
        reveal_strlit("data: ");
        assert("data: "@ == data_field());
        assert("event: "@ == seq!['e', 'v', 'e', 'n', 't', ':', ' ']);
    }
    if let Some(et) = event_type {
        s.append("event: ");
        s.append(et);
        push_char(&mut s, '\n');
    }
    let ghost head = s@;
    assert(head == event_line(opt_str_view(event_type)));
    s.append("data: ");
    let cs = crate::text::str_chars(data);
    let mut i: usize = 0;
    assert(cs@.subrange(0, 0) =~= Seq::<char>::empty());
    assert(split_lines(Seq::<char>::empty()).drop_last() =~= Seq::<Seq<char>>::empty());
    while i < cs.len()
        invariant
            i <= cs.len(),
            cs@ == data@,
            split_lines(cs@.subrange(0, i as int)).len() >= 1,
            s@ == head + data_block(split_lines(cs@.subrange(0, i as int)).drop_last())
                + data_field() + split_lines(cs@.subrange(0, i as int)).last(),
        decreases cs.len() - i,
    {
        let c = cs[i];
        let ghost pre = cs@.subrange(0, i as int);
        let ghost post = cs@.subrange(0, i + 1);
        assert(post.drop_last() == pre);
        assert(post.last() == c);
        let ghost lp = split_lines(pre);
        if c == '\n' {
            push_char(&mut s, '\n');
            s.append("data: ");
            proof {
                reveal_strlit("data: ");
                assert("data: "@ == data_field());
                let lq = split_lines(post);
                assert(lq == lp.push(Seq::empty()));
                assert(lq.drop_last() == lp);
                assert(lp == lp.drop_last().push(lp.last()));
                assert(data_block(lp) == data_block(lp.drop_last()) + data_field() + lp.last()
                    + seq!['\n']);
                assert(s@ =~= head + data_block(lq.drop_last()) + data_field() + lq.last());
            }
        } else {
            push_char(&mut s, c);
            proof {
                let lq = split_lines(post);
                assert(lq == lp.update(lp.len() - 1, lp.last().push(c)));
                assert(lq.drop_last() =~= lp.drop_last());
                assert(s@ =~= head + data_block(lq.drop_last()) + data_field() + lq.last());
            }
        }
        i = i + 1;
    }
    push_char(&mut s, '\n');
    push_char(&mut s, '\n');
    proof {
        let l = split_lines(data@);
        assert(cs@.subrange(0, cs@.len() as int) == cs@);
        assert(l == l.drop_last().push(l.last()));
        assert(data_block(l) == data_block(l.drop_last()) + data_field() + l.last() + seq!['\n']);
        assert(s@ =~= spec_format_sse(data@, opt_str_view(event_type)));
    }
    vstd::slice::slice_to_vec(s.as_str().as_bytes())
}

/// Format the `[DONE]` sentinel for OpenAI-style streams.
pub fn format_done_event() -> (out: Vec<u8>)
    ensures
        out@ == encode_utf8(spec_format_sse(done_marker(), None)),
{
    proof {
        reveal_strlit("[DONE]");
        assert("[DONE]"@ == done_marker());
    }
    format_sse_event("[DONE]", None)
}

// ─── Laws ───────────────────────────────────────────────────────────────────

/// Feeding two pieces of text one after the other leaves the parser in the
/// same state, and yields the same events in the same order, as feeding
/// their concatenation at once: where a transport splits a stream does not
/// matter.
pub proof fn feed_is_split_invariant(m: ParserModel, a: Seq<char>, b: Seq<char>)
    ensures
        spec_feed(m, a + b).0 == spec_feed(spec_feed(m, a).0, b).0,
        spec_feed(m, a + b).1 == spec_feed(m, a).1 + spec_feed(spec_feed(m, a).0, b).1,
    decreases b.len(),
{
    if b.len() == 0 {
        assert(a + b == a);
        assert(spec_feed(m, a).1 + Seq::<EventModel>::empty() == spec_feed(m, a).1);
    } else {
        feed_is_split_invariant(m, a, b.drop_last());
        assert((a + b).drop_last() == a + b.drop_last());
        assert((a + b).last() == b.last());
        let prev = spec_feed(spec_feed(m, a).0, b.drop_last());
        let st = spec_step(prev.0, b.last());
        assert(spec_feed(m, a).1 + prev.1 + st.1 == spec_feed(m, a).1 + (prev.1 + st.1));
    }
}

/// Feeding bytes through the UTF-8 decoder in two chunks, where each chunk
/// is valid UTF-8, is the same as feeding the whole text at once.
pub proof fn feed_valid_chunks_is_split_invariant(m: ParserModel, a: Seq<u8>, b: Seq<u8>)
    requires
        valid_utf8(a),
        valid_utf8(b),
    ensures
        valid_utf8(a + b),
        spec_feed(m, decode_utf8(a + b)).0 == spec_feed(spec_feed(m, decode_utf8(a)).0, decode_utf8(b)).0,
        spec_feed(m, decode_utf8(a + b)).1 == spec_feed(m, decode_utf8(a)).1 + spec_feed(
            spec_feed(m, decode_utf8(a)).0,
            decode_utf8(b),
        ).1,
{
    broadcast use vstd::utf8::encode_utf8_decode_utf8, vstd::utf8::decode_utf8_encode_utf8,
        vstd::utf8::encode_utf8_valid_utf8;
    let ca = decode_utf8(a);
    let cb = decode_utf8(b);
    lemma_encode_utf8_concat(ca, cb);
    assert(encode_utf8(ca + cb) == a + b);
    assert(decode_utf8(a + b) == ca + cb);
    feed_is_split_invariant(m, ca, cb);
}

proof fn lemma_encode_utf8_concat(x: Seq<char>, y: Seq<char>)
    ensures
        encode_utf8(x + y) == encode_utf8(x) + encode_utf8(y),
    decreases x.len(),
{
    if x.len() > 0 {
        lemma_encode_utf8_concat(x.drop_first(), y);
        assert((x + y).drop_first() == x.drop_first() + y);
        assert((x + y)[0] == x[0]);
        assert(encode_utf8(x + y) == encode_scalar(x[0] as u32) + encode_utf8(x.drop_first() + y));
        assert(encode_utf8(x) == encode_scalar(x[0] as u32) + encode_utf8(x.drop_first()));
        assert(encode_scalar(x[0] as u32) + (encode_utf8(x.drop_first()) + encode_utf8(y))
            == (encode_scalar(x[0] as u32) + encode_utf8(x.drop_first())) + encode_utf8(y));
    } else {
        assert(x + y == y);
        assert(encode_utf8(x) =~= Seq::<u8>::empty());
    }
}

/// No character of `l` ends a line or is a carriage return.
pub open spec fn plain_line(l: Seq<char>) -> bool {
    forall|j: int| 0 <= j < l.len() ==> #[trigger] l[j] != '\n' && l[j] != '\r'
}

pub open spec fn no_carriage_return(s: Seq<char>) -> bool {
    forall|j: int| 0 <= j < s.len() ==> #[trigger] s[j] != '\r'
}

proof fn lemma_feed_without_newline(m: ParserModel, l: Seq<char>)
    requires
        forall|j: int| 0 <= j < l.len() ==> #[trigger] l[j] != '\n',
    ensures
        spec_feed(m, l).0 == (ParserModel { buffer: m.buffer + l, pending: m.pending }),
        spec_feed(m, l).1 == Seq::<EventModel>::empty(),
    decreases l.len(),
{
    if l.len() == 0 {
        assert(m.buffer + l =~= m.buffer);
    } else {
        let init = l.drop_last();
        assert forall|j: int| 0 <= j < init.len() implies #[trigger] init[j] != '\n' by {
            assert(init[j] == l[j]);
        }
        lemma_feed_without_newline(m, init);
        assert(l[l.len() - 1] != '\n');
        let prev = spec_feed(m, init);
        assert(prev.0.buffer == m.buffer + init);
        assert((m.buffer + init).push(l.last()) =~= m.buffer + l);
        assert(spec_step(prev.0, l.last()).0.buffer == m.buffer + l);
        assert(spec_step(prev.0, l.last()).1 =~= Seq::<EventModel>::empty());
        assert(Seq::<EventModel>::empty() + Seq::<EventModel>::empty() =~= Seq::<
            EventModel,
        >::empty());
    }
}

/// A non-blank line followed by its `\n`, fed with an empty line buffer.
proof fn lemma_feed_line(p: PendingModel, l: Seq<char>)
    requires
        l.len() > 0,
        l.last() != '\r',
        forall|j: int| 0 <= j < l.len() ==> #[trigger] l[j] != '\n',
    ensures
        spec_feed(ParserModel { buffer: Seq::empty(), pending: p }, l.push('\n')).0 == (
        ParserModel { buffer: Seq::empty(), pending: spec_parse_line(p, l) }),
        spec_feed(ParserModel { buffer: Seq::empty(), pending: p }, l.push('\n')).1 == Seq::<
            EventModel,
        >::empty(),
{
    let m = ParserModel { buffer: Seq::<char>::empty(), pending: p };
    lemma_feed_without_newline(m, l);
    assert(l.push('\n').drop_last() =~= l);
    assert(Seq::<char>::empty() + l =~= l);
    assert(trim_end_char(l, '\r') == l);
    assert(Seq::<EventModel>::empty() + Seq::<EventModel>::empty() =~= Seq::<EventModel>::empty());
}

proof fn lemma_data_line(p: PendingModel, l: Seq<char>)
    requires
        plain_line(l),
    ensures
        (data_field() + l).len() > 0,
        (data_field() + l).last() != '\r',
        forall|j: int| 0 <= j < (data_field() + l).len() ==> #[trigger] (data_field() + l)[j] != '\n',
        spec_parse_line(p, data_field() + l) == (PendingModel { data_lines: p.data_lines.push(l), ..p }),
{
    let line = data_field() + l;
    assert forall|j: int| 0 <= j < line.len() implies #[trigger] line[j] != '\n' by {
        if j >= 6 {
            assert(line[j] == l[j - 6]);
        }
    }
    if l.len() > 0 {
        assert(line.last() == l[l.len() - 1]);
    }
    assert(line.subrange(0, 5) =~= data_prefix());
    assert(line.subrange(5, line.len() as int) =~= seq![' '] + l);
    assert((seq![' '] + l).drop_first() =~= l);
}

proof fn lemma_feed_data_block(p: PendingModel, lines: Seq<Seq<char>>)
    requires
        forall|k: int| 0 <= k < lines.len() ==> plain_line(#[trigger] lines[k]),
    ensures
        spec_feed(ParserModel { buffer: Seq::empty(), pending: p }, data_block(lines)).0 == (
        ParserModel {
            buffer: Seq::empty(),
            pending: PendingModel { data_lines: p.data_lines + lines, ..p },
        }),
        spec_feed(ParserModel { buffer: Seq::empty(), pending: p }, data_block(lines)).1
            == Seq::<EventModel>::empty(),
    decreases lines.len(),
{
    let m = ParserModel { buffer: Seq::<char>::empty(), pending: p };
    if lines.len() == 0 {
        assert(p.data_lines + lines =~= p.data_lines);
    } else {
        let init = lines.drop_last();
        assert forall|k: int| 0 <= k < init.len() implies plain_line(#[trigger] init[k]) by {
            assert(init[k] == lines[k]);
        }
        lemma_feed_data_block(p, init);
        let p1 = PendingModel { data_lines: p.data_lines + init, ..p };
        let l = lines.last();
        assert(plain_line(lines[lines.len() - 1]));
        let line = data_field() + l;
        lemma_data_line(p1, l);
        lemma_feed_line(p1, line);
        assert(data_block(lines) =~= data_block(init) + line.push('\n'));
        feed_is_split_invariant(m, data_block(init), line.push('\n'));
        assert(p.data_lines + init + seq![l] =~= p.data_lines + lines);
        assert(p1.data_lines.push(l) =~= p.data_lines + lines);
        assert(Seq::<EventModel>::empty() + Seq::<EventModel>::empty() =~= Seq::<
            EventModel,
        >::empty());
    }
}

proof fn lemma_split_lines_plain(s: Seq<char>)
    requires
        no_carriage_return(s),
    ensures
        split_lines(s).len() >= 1,
        forall|k: int| 0 <= k < split_lines(s).len() ==> plain_line(#[trigger] split_lines(s)[k]),
    decreases s.len(),
{
    if s.len() > 0 {
        assert(no_carriage_return(s.drop_last())) by {
            assert forall|j: int| 0 <= j < s.drop_last().len() implies #[trigger] s.drop_last()[j]
                != '\r' by {
                assert(s.drop_last()[j] == s[j]);
            }
        }
        lemma_split_lines_plain(s.drop_last());
        let prev = split_lines(s.drop_last());
        if s.last() != '\n' {
            assert(s[s.len() - 1] != '\r');
            let nl = prev.last().push(s.last());
            assert(plain_line(prev[prev.len() - 1]));
            assert(plain_line(nl)) by {
                assert forall|j: int| 0 <= j < nl.len() implies #[trigger] nl[j] != '\n' && nl[j]
                    != '\r' by {
                    if j < prev.last().len() {
                        assert(nl[j] == prev.last()[j]);
                    }
                }
            }
            let up = prev.update(prev.len() - 1, nl);
            assert forall|k: int| 0 <= k < up.len() implies plain_line(#[trigger] up[k]) by {
                if k < prev.len() - 1 {
                    assert(up[k] == prev[k]);
                }
            }
        } else {
            let up = prev.push(Seq::<char>::empty());
            assert forall|k: int| 0 <= k < up.len() implies plain_line(#[trigger] up[k]) by {
                if k < prev.len() {
                    assert(up[k] == prev[k]);
                }
            }
        }
    }
}

proof fn lemma_join_split_lines(s: Seq<char>)
    ensures
        split_lines(s).len() >= 1,
        join(split_lines(s), seq!['\n']) == s,
    decreases s.len(),
{
    if s.len() > 0 {
        lemma_join_split_lines(s.drop_last());
        let prev = split_lines(s.drop_last());
        let sep = seq!['\n'];
        if s.last() == '\n' {
            let up = prev.push(Seq::<char>::empty());
            assert(up.drop_last() == prev);
            assert(join(up, sep) == join(prev, sep) + sep + Seq::<char>::empty());
            assert(s.drop_last() + sep + Seq::<char>::empty() == s);
        } else {
            let nl = prev.last().push(s.last());
            let up = prev.update(prev.len() - 1, nl);
            if prev.len() == 1 {
                assert(join(prev, sep) == prev[0]);
                assert(join(up, sep) == up[0]);
                assert(s.drop_last().push(s.last()) == s);
            } else {
                assert(up.drop_last() == prev.drop_last());
                assert(join(up, sep) == join(prev.drop_last(), sep) + sep + nl);
                assert(join(prev, sep) == join(prev.drop_last(), sep) + sep + prev.last());
                assert(s.drop_last().push(s.last()) == s);
                assert(join(prev.drop_last(), sep) + sep + prev.last().push(s.last()) == (join(
                    prev.drop_last(),
                    sep,
                ) + sep + prev.last()).push(s.last()));
            }
        }
    } else {
        assert(join(seq![Seq::<char>::empty()], seq!['\n']) == Seq::<char>::empty());
    }
}

/// What `format_sse_event` writes, read back by a fresh parser, is exactly
/// one event carrying the same data and event type, and leaves the parser
/// fresh again. (Carriage returns are excluded: the parser strips them at
/// line ends.)
pub proof fn format_then_parse_roundtrip(data: Seq<char>, event_type: Option<Seq<char>>)
    requires
        no_carriage_return(data),
        event_type matches Some(et) ==> plain_line(et),
    ensures
        spec_feed(fresh_parser(), decode_utf8(encode_utf8(spec_format_sse(data, event_type)))).0
            == fresh_parser(),
        spec_feed(fresh_parser(), decode_utf8(encode_utf8(spec_format_sse(data, event_type)))).1
            == seq![EventModel { event_type: event_type, data: data, id: None, retry: None }],
{
    broadcast use vstd::utf8::encode_utf8_decode_utf8;
    let f = fresh_parser();
    let head = event_line(event_type);
    let lines = split_lines(data);
    lemma_split_lines_plain(data);
    lemma_join_split_lines(data);
    // After the `event:` line the pending event carries the event type.
    let p1 = PendingModel { event_type: event_type, data_lines: Seq::empty(), id: None, retry: None };
    match event_type {
        Some(et) => {
            let line = seq!['e', 'v', 'e', 'n', 't', ':', ' '] + et;
            assert(head == line.push('\n'));
            assert(forall|j: int| 0 <= j < line.len() ==> #[trigger] line[j] != '\n') by {
                assert forall|j: int| 0 <= j < line.len() implies #[trigger] line[j] != '\n' by {
                    if j >= 7 {
                        assert(line[j] == et[j - 7]);
                    }
                }
            }
            if et.len() > 0 {
                assert(line.last() == et[et.len() - 1]);
            }
            lemma_feed_line(empty_pending(), line);
            assert(!has_prefix(line, data_prefix())) by {
                assert(line.subrange(0, 5)[0] != data_prefix()[0]);
            }
            assert(line.subrange(0, 6) == event_prefix());
            assert(line.subrange(6, line.len() as int) == seq![' '] + et);
            assert((seq![' '] + et).drop_first() == et);
            assert(spec_parse_line(empty_pending(), line) == p1);
        },
        None => {
            assert(head == Seq::<char>::empty());
            assert(p1 == empty_pending());
        },
    }
    let m1 = ParserModel { buffer: Seq::empty(), pending: p1 };
    assert(spec_feed(f, head).0 == m1 && spec_feed(f, head).1 == Seq::<EventModel>::empty());
    lemma_feed_data_block(p1, lines);
    let m2 = ParserModel {
        buffer: Seq::empty(),
        pending: PendingModel { data_lines: Seq::<Seq<char>>::empty() + lines, ..p1 },
    };
    assert(Seq::<Seq<char>>::empty() + lines == lines);
    feed_is_split_invariant(f, head, data_block(lines));
    feed_is_split_invariant(f, head + data_block(lines), seq!['\n']);
    assert(seq!['\n'].drop_last() == Seq::<char>::empty());
    assert(trim_end_char(Seq::<char>::empty(), '\r') == Seq::<char>::empty());
    let ev = EventModel { event_type: event_type, data: data, id: None, retry: None };
    assert(spec_emit(m2.pending) == ev);
    assert(seq!['\n'].drop_last() =~= Seq::<char>::empty());
    assert(seq!['\n'].last() == '\n');
    assert(spec_feed(m2, Seq::<char>::empty()) == (m2, Seq::<EventModel>::empty()));
    assert(Seq::<EventModel>::empty() + seq![ev] =~= seq![ev]);
    assert(spec_feed(m2, seq!['\n']).1 == seq![ev]);
    assert(spec_feed(m2, seq!['\n']).0 == f);
    assert(Seq::<EventModel>::empty() + Seq::<EventModel>::empty() + seq![ev] == seq![ev]);
}

} // verus!
