//! Parsers for server-sent event streams.
//!
//! Bytes arrive in chunks of any size. A parser keeps the unfinished line and the
//! `data:` lines of the unfinished event, and hands out each event once the blank
//! line that ends it has arrived.

use crate::text;
use crate::text::{join, text_from_utf8};
use vstd::prelude::*;
use vstd::slice::slice_subrange;
use vstd::utf8::*;

verus! {

pub const LINE_FEED: u8 = 10;

pub const CARRIAGE_RETURN: u8 = 13;

/// An event: the type its `event:` line named, if any, and its joined `data:` lines.
#[derive(Debug, PartialEq, Eq)]
pub struct SseEvent {
    pub event_type: Option<String>,
    pub data: String,
}

/// The model of an [`SseEvent`].
pub struct SseEventModel {
    pub event_type: Option<Seq<char>>,
    pub data: Seq<char>,
}

impl DeepView for SseEvent {
    type V = SseEventModel;

    open spec fn deep_view(&self) -> SseEventModel {
        SseEventModel { event_type: self.event_type.deep_view(), data: self.data@ }
    }
}

/// What one line of a stream says, once its line ending is gone.
pub enum SseLine {
    Blank,
    Comment,
    EventType(Seq<u8>),
    Data(Seq<u8>),
    Other,
}

pub open spec fn data_prefix() -> Seq<u8> {
    seq![100u8, 97u8, 116u8, 97u8, 58u8]
}

pub open spec fn event_prefix() -> Seq<u8> {
    seq![101u8, 118u8, 101u8, 110u8, 116u8, 58u8]
}

pub open spec fn without_carriage_return(line: Seq<u8>) -> Seq<u8> {
    if line.len() > 0 && line.last() == CARRIAGE_RETURN {
        line.drop_last()
    } else {
        line
    }
}

/// The value of a field: what follows the colon, less one leading space.
pub open spec fn field_value(rest: Seq<u8>) -> Seq<u8> {
    if rest.len() > 0 && rest[0] == 32u8 {
        rest.skip(1)
    } else {
        rest
    }
}

pub open spec fn sse_line(raw: Seq<u8>) -> SseLine {
    let line = without_carriage_return(raw);
    if line.len() == 0 {
        SseLine::Blank
    } else if line[0] == 58u8 {
        SseLine::Comment
    } else if event_prefix().is_prefix_of(line) {
        SseLine::EventType(field_value(line.skip(6)))
    } else if data_prefix().is_prefix_of(line) {
        SseLine::Data(field_value(line.skip(5)))
    } else {
        SseLine::Other
    }
}

pub open spec fn invalid_data_message(value: Seq<u8>) -> Seq<char> {
    "invalid UTF-8 in SSE data line: "@ + text::utf8_error_text(value)
}

pub open spec fn invalid_event_message(value: Seq<u8>) -> Seq<char> {
    "invalid UTF-8 in SSE event line: "@ + text::utf8_error_text(value)
}

/// The state of a parser between two bytes.
pub struct SseState {
    pub line: Seq<u8>,
    pub event_type: Option<Seq<char>>,
    pub data: Seq<Seq<char>>,
}

/// What a parser has done with some input: the state it is in, and the events it
/// handed out or the error that stopped it.
pub struct SseStep {
    pub state: SseState,
    pub output: Result<Seq<SseEventModel>, Seq<char>>,
}

/// The events that the end of an event hands out: one if it has data, else none.
pub open spec fn flushed(state: SseState) -> Seq<SseEventModel> {
    if state.data.len() == 0 {
        Seq::empty()
    } else {
        seq![SseEventModel { event_type: state.event_type, data: text::joined(state.data, "\n"@) }]
    }
}

pub open spec fn after_flush(state: SseState) -> SseState {
    SseState { line: state.line, event_type: None, data: Seq::empty() }
}

/// The effect of one complete line. `typed` parsers read `event:` lines, the
/// others pass over them.
pub open spec fn line_step(state: SseState, raw: Seq<u8>, typed: bool) -> SseStep {
    match sse_line(raw) {
        SseLine::Blank => SseStep { state: after_flush(state), output: Ok(flushed(state)) },
        SseLine::EventType(value) => if !typed {
            SseStep { state, output: Ok(Seq::empty()) }
        } else if valid_utf8(value) {
            SseStep {
                state: SseState { event_type: Some(decode_utf8(value)), ..state },
                output: Ok(Seq::empty()),
            }
        } else {
            SseStep { state, output: Err(invalid_event_message(value)) }
        },
        SseLine::Data(value) => if valid_utf8(value) {
            SseStep {
                state: SseState { data: state.data.push(decode_utf8(value)), ..state },
                output: Ok(Seq::empty()),
            }
        } else {
            SseStep { state, output: Err(invalid_data_message(value)) }
        },
        SseLine::Comment => SseStep { state, output: Ok(Seq::empty()) },
        SseLine::Other => SseStep { state, output: Ok(Seq::empty()) },
    }
}

/// The effect of one byte.
pub open spec fn byte_step(state: SseState, byte: u8, typed: bool) -> SseStep {
    if byte == LINE_FEED {
        line_step(SseState { line: Seq::empty(), ..state }, state.line, typed)
    } else {
        SseStep {
            state: SseState { line: state.line.push(byte), ..state },
            output: Ok(Seq::empty()),
        }
    }
}

/// The effect of a chunk of bytes: each byte in turn, up to the first error. The
/// bytes behind an error are not read.
pub open spec fn feed(state: SseState, bytes: Seq<u8>, typed: bool) -> SseStep
    decreases bytes.len(),
{
    if bytes.len() == 0 {
        SseStep { state, output: Ok(Seq::empty()) }
    } else {
        let before = feed(state, bytes.drop_last(), typed);
        match before.output {
            Err(message) => before,
            Ok(events) => {
                let step = byte_step(before.state, bytes.last(), typed);
                SseStep {
                    state: step.state,
                    output: match step.output {
                        Ok(more) => Ok(events + more),
                        Err(message) => Err(message),
                    },
                }
            },
        }
    }
}

/// What the end of the stream hands out: the unfinished line is taken as a line,
/// then the unfinished event as an event.
pub open spec fn finished(state: SseState, typed: bool) -> Result<Seq<SseEventModel>, Seq<char>> {
    if state.line.len() == 0 {
        Ok(flushed(state))
    } else {
        let step = line_step(SseState { line: Seq::empty(), ..state }, state.line, typed);
        match step.output {
            Ok(events) => Ok(events + flushed(step.state)),
            Err(message) => Err(message),
        }
    }
}

pub open spec fn initial_state() -> SseState {
    SseState { line: Seq::empty(), event_type: None, data: Seq::empty() }
}

/// The payloads of events, without their types.
pub open spec fn payloads_of(events: Seq<SseEventModel>) -> Seq<Seq<char>> {
    events.map_values(|event: SseEventModel| event.data)
}

fn has_prefix(line: &[u8], prefix: &[u8]) -> (r: bool)
    ensures
        r == prefix@.is_prefix_of(line@),
{
    if prefix.len() > line.len() {
        return false;
    }
    let mut i: usize = 0;
    while i < prefix.len()
        invariant
            prefix.len() <= line.len(),
            i <= prefix.len(),
            forall|k: int| 0 <= k < i ==> line@[k] == prefix@[k],
        decreases prefix.len() - i,
    {
        if line[i] != prefix[i] {
            assert(line@.subrange(0, prefix@.len() as int)[i as int] != prefix@[i as int]);
            return false;
        }
        i += 1;
    }
    assert(prefix@ =~= line@.subrange(0, prefix@.len() as int));
    true
}

/// One line of a stream, with the bytes of its value.
enum ParsedLine {
    Blank,
    Comment,
    EventType(Vec<u8>),
    Data(Vec<u8>),
    Other,
}

fn field_bytes(rest: &[u8]) -> (r: Vec<u8>)
    ensures
        r@ == field_value(rest@),
{
    if rest.len() > 0 && rest[0] == 32 {
        vstd::slice::slice_to_vec(slice_subrange(rest, 1, rest.len()))
    } else {
        vstd::slice::slice_to_vec(rest)
    }
}

fn parse_line(raw: &[u8]) -> (r: ParsedLine)
    ensures
        match r {
            ParsedLine::Blank => sse_line(raw@) is Blank,
            ParsedLine::Comment => sse_line(raw@) is Comment,
            ParsedLine::EventType(value) => sse_line(raw@) == SseLine::EventType(value@),
            ParsedLine::Data(value) => sse_line(raw@) == SseLine::Data(value@),
            ParsedLine::Other => sse_line(raw@) is Other,
        },
{
    let line: &[u8] = if raw.len() > 0 && raw[raw.len() - 1] == CARRIAGE_RETURN {
        slice_subrange(raw, 0, raw.len() - 1)
    } else {
        raw
    };
    assert(line@ == without_carriage_return(raw@));
    if line.len() == 0 {
        return ParsedLine::Blank;
    }
    if line[0] == 58 {
        return ParsedLine::Comment;
    }
    let event: [u8; 6] = [101, 118, 101, 110, 116, 58];
    let data: [u8; 5] = [100, 97, 116, 97, 58];
    proof {
        assert(event@ =~= event_prefix());
        assert(data@ =~= data_prefix());
    }
    if has_prefix(line, &event) {
        return ParsedLine::EventType(field_bytes(slice_subrange(line, 6, line.len())));
    }
    if has_prefix(line, &data) {
        return ParsedLine::Data(field_bytes(slice_subrange(line, 5, line.len())));
    }
    ParsedLine::Other
}

/// A parser that hands out the data of each event and passes over event types.
pub struct SseDataParser {
    pub line_buffer: Vec<u8>,
    pub data_lines: Vec<String>,
}

impl SseDataParser {
    /// The state that the parser is in.
    pub open spec fn state(self) -> SseState {
        SseState {
            line: self.line_buffer@,
            event_type: None,
            data: self.data_lines.deep_view(),
        }
    }

    /// Hands out the unfinished event, if it has data.
    pub fn flush_event(&mut self, payloads: &mut Vec<String>)
        ensures
            final(self).state() == after_flush(old(self).state()),
            final(payloads).deep_view() == old(payloads).deep_view() + payloads_of(
                flushed(old(self).state()),
            ),
    {
        if self.data_lines.len() > 0 {
            payloads.push(join(&self.data_lines, "\n"));
            self.data_lines.clear();
        }
        proof {
            assert(self.data_lines.deep_view() =~= Seq::<Seq<char>>::empty());
            assert(payloads.deep_view() =~= old(payloads).deep_view() + payloads_of(
                flushed(old(self).state()),
            ));
        }
    }

    /// Takes one complete line, without its line feed.
    pub fn process_line(&mut self, line: &[u8], payloads: &mut Vec<String>) -> (r: Result<
        (),
        String,
    >)
        ensures
            final(self).state() == line_step(old(self).state(), line@, false).state,
            match (r, line_step(old(self).state(), line@, false).output) {
                (Ok(_), Ok(events)) => final(payloads).deep_view() == old(payloads).deep_view()
                    + payloads_of(events),
                (Err(message), Err(expected)) => {
                    &&& message@ == expected
                    &&& final(payloads).deep_view() == old(payloads).deep_view()
                },
                _ => false,
            },
    {
        match parse_line(line) {
            ParsedLine::Blank => {
                self.flush_event(payloads);
            },
            ParsedLine::Data(value) => {
                match text_from_utf8(&value) {
                    Ok(text) => {
                        self.data_lines.push(text);
                        proof {
                            assert(self.data_lines.deep_view()
                                =~= old(self).data_lines.deep_view().push(decode_utf8(value@)));
                        }
                    },
                    Err(error) => {
                        let mut message = "invalid UTF-8 in SSE data line: ".to_owned();
                        message.append(error.as_str());
                        return Err(message);
                    },
                }
            },
            _ => {},
        }
        proof {
            assert(payloads_of(Seq::empty()) =~= Seq::<Seq<char>>::empty());
            assert(old(payloads).deep_view() + Seq::<Seq<char>>::empty()
                =~= old(payloads).deep_view());
        }
        Ok(())
    }

    /// Takes the next bytes of the stream and hands out the payloads of the events
    /// that they complete. At a line that is not UTF-8 it stops with an error.
    pub fn push_chunk(&mut self, chunk: &[u8]) -> (r: Result<Vec<String>, String>)
        ensures
            final(self).state() == feed(old(self).state(), chunk@, false).state,
            match (r, feed(old(self).state(), chunk@, false).output) {
                (Ok(payloads), Ok(events)) => payloads.deep_view() == payloads_of(events),
                (Err(message), Err(expected)) => message@ == expected,
                _ => false,
            },
    {
        let mut payloads: Vec<String> = Vec::new();
        let ghost start = self.state();
        let mut i: usize = 0;
        proof {
            assert(chunk@.take(0) =~= Seq::<u8>::empty());
            assert(payloads.deep_view() =~= payloads_of(Seq::empty()));
        }
        while i < chunk.len()
            invariant
                i <= chunk.len(),
                start == old(self).state(),
                self.state() == feed(start, chunk@.take(i as int), false).state,
                feed(start, chunk@.take(i as int), false).output is Ok,
                payloads.deep_view() == payloads_of(
                    feed(start, chunk@.take(i as int), false).output->Ok_0,
                ),
            decreases chunk.len() - i,
        {
            let ghost here = self.state();
            let ghost events = feed(start, chunk@.take(i as int), false).output->Ok_0;
            let ghost upto = chunk@.take(i as int + 1);
            let byte: u8 = chunk[i];
            proof {
                assert(upto.drop_last() =~= chunk@.take(i as int));
                assert(upto.last() == byte);
            }
            if byte == LINE_FEED {
                let mut line: Vec<u8> = Vec::new();
                std::mem::swap(&mut line, &mut self.line_buffer);
                let result = self.process_line(&line, &mut payloads);
                if let Err(message) = result {
                    proof {
                        lemma_feed_stops(start, chunk@, i as int + 1, false);
                    }
                    return Err(message);
                }
                proof {
                    let more = byte_step(here, byte, false).output->Ok_0;
                    assert(payloads_of(events + more) =~= payloads_of(events) + payloads_of(more));
                }
            } else {
                self.line_buffer.push(byte);
                proof {
                    assert(events + Seq::<SseEventModel>::empty() =~= events);
                }
            }
            i += 1;
        }
        proof {
            assert(chunk@.take(i as int) =~= chunk@);
        }
        Ok(payloads)
    }

    /// Ends the stream and hands out what is left of it.
    pub fn finish(self) -> (r: Result<Vec<String>, String>)
        ensures
            match (r, finished(self.state(), false)) {
                (Ok(payloads), Ok(events)) => payloads.deep_view() == payloads_of(events),
                (Err(message), Err(expected)) => message@ == expected,
                _ => false,
            },
    {
        let mut this = self;
        let mut payloads: Vec<String> = Vec::new();
        let ghost mut seen: Seq<SseEventModel> = Seq::empty();
        proof {
            assert(payloads.deep_view() =~= payloads_of(seen));
        }
        if this.line_buffer.len() > 0 {
            let mut line: Vec<u8> = Vec::new();
            std::mem::swap(&mut line, &mut this.line_buffer);
            let ghost step = line_step(this.state(), line@, false);
            let result = this.process_line(&line, &mut payloads);
            if let Err(message) = result {
                return Err(message);
            }
            proof {
                seen = step.output->Ok_0;
                assert(payloads.deep_view() =~= payloads_of(seen));
            }
        }
        let ghost last = flushed(this.state());
        this.flush_event(&mut payloads);
        proof {
            assert(payloads_of(seen + last) =~= payloads_of(seen) + payloads_of(last));
            if self.line_buffer@.len() == 0 {
                assert(seen + last =~= last);
            }
        }
        Ok(payloads)
    }
}

impl Default for SseDataParser {
    fn default() -> (r: Self)
        ensures
            r.state() == initial_state(),
    {
        let r = SseDataParser { line_buffer: Vec::new(), data_lines: Vec::new() };
        assert(r.data_lines.deep_view() =~= Seq::<Seq<char>>::empty());
        r
    }
}

/// A parser that hands out each event with its type.
pub struct SseEventParser {
    pub line_buffer: Vec<u8>,
    pub event_type: Option<String>,
    pub data_lines: Vec<String>,
}

impl SseEventParser {
    /// The state that the parser is in.
    pub open spec fn state(self) -> SseState {
        SseState {
            line: self.line_buffer@,
            event_type: self.event_type.deep_view(),
            data: self.data_lines.deep_view(),
        }
    }

    /// Hands out the unfinished event if it has data, and forgets its type either way.
    pub fn flush_event(&mut self, events: &mut Vec<SseEvent>)
        ensures
            final(self).state() == after_flush(old(self).state()),
            final(events).deep_view() == old(events).deep_view() + flushed(old(self).state()),
    {
        if self.data_lines.len() > 0 {
            let event_type = self.event_type.take();
            events.push(SseEvent { event_type, data: join(&self.data_lines, "\n") });
            self.data_lines.clear();
        } else {
            self.event_type = None;
        }
        proof {
            assert(self.data_lines.deep_view() =~= Seq::<Seq<char>>::empty());
            assert(events.deep_view() =~= old(events).deep_view() + flushed(old(self).state()));
        }
    }

    /// Takes one complete line, without its line feed.
    pub fn process_line(&mut self, line: &[u8], events: &mut Vec<SseEvent>) -> (r: Result<
        (),
        String,
    >)
        ensures
            final(self).state() == line_step(old(self).state(), line@, true).state,
            match (r, line_step(old(self).state(), line@, true).output) {
                (Ok(_), Ok(more)) => final(events).deep_view() == old(events).deep_view() + more,
                (Err(message), Err(expected)) => {
                    &&& message@ == expected
                    &&& final(events).deep_view() == old(events).deep_view()
                },
                _ => false,
            },
    {
        match parse_line(line) {
            ParsedLine::Blank => {
                self.flush_event(events);
            },
            ParsedLine::EventType(value) => {
                match text_from_utf8(&value) {
                    Ok(text) => {
                        self.event_type = Some(text);
                    },
                    Err(error) => {
                        let mut message = "invalid UTF-8 in SSE event line: ".to_owned();
                        message.append(error.as_str());
                        return Err(message);
                    },
                }
            },
            ParsedLine::Data(value) => {
                match text_from_utf8(&value) {
                    Ok(text) => {
                        self.data_lines.push(text);
                        proof {
                            assert(self.data_lines.deep_view()
                                =~= old(self).data_lines.deep_view().push(decode_utf8(value@)));
                        }
                    },
                    Err(error) => {
                        let mut message = "invalid UTF-8 in SSE data line: ".to_owned();
                        message.append(error.as_str());
                        return Err(message);
                    },
                }
            },
            _ => {},
        }
        proof {
            assert(old(events).deep_view() + Seq::<SseEventModel>::empty()
                =~= old(events).deep_view());
        }
        Ok(())
    }

    /// Takes the next bytes of the stream and hands out the events that they
    /// complete. At a line that is not UTF-8 it stops with an error.
    pub fn push_chunk(&mut self, chunk: &[u8]) -> (r: Result<Vec<SseEvent>, String>)
        ensures
            final(self).state() == feed(old(self).state(), chunk@, true).state,
            match (r, feed(old(self).state(), chunk@, true).output) {
                (Ok(events), Ok(expected)) => events.deep_view() == expected,
                (Err(message), Err(expected)) => message@ == expected,
                _ => false,
            },
    {
        let mut events: Vec<SseEvent> = Vec::new();
        let ghost start = self.state();
        let mut i: usize = 0;
        proof {
            assert(chunk@.take(0) =~= Seq::<u8>::empty());
            assert(events.deep_view() =~= Seq::<SseEventModel>::empty());
        }
        while i < chunk.len()
            invariant
                i <= chunk.len(),
                start == old(self).state(),
                self.state() == feed(start, chunk@.take(i as int), true).state,
                feed(start, chunk@.take(i as int), true).output is Ok,
                events.deep_view() == feed(start, chunk@.take(i as int), true).output->Ok_0,
            decreases chunk.len() - i,
        {
            let ghost upto = chunk@.take(i as int + 1);
            let byte: u8 = chunk[i];
            proof {
                assert(upto.drop_last() =~= chunk@.take(i as int));
                assert(upto.last() == byte);
            }
            if byte == LINE_FEED {
                let mut line: Vec<u8> = Vec::new();
                std::mem::swap(&mut line, &mut self.line_buffer);
                let result = self.process_line(&line, &mut events);
                if let Err(message) = result {
                    proof {
                        lemma_feed_stops(start, chunk@, i as int + 1, true);
                    }
                    return Err(message);
                }
            } else {
                self.line_buffer.push(byte);
                proof {
                    assert(events.deep_view() + Seq::<SseEventModel>::empty()
                        =~= events.deep_view());
                }
            }
            i += 1;
        }
        proof {
            assert(chunk@.take(i as int) =~= chunk@);
        }
        Ok(events)
    }

    /// Ends the stream and hands out what is left of it.
    pub fn finish(self) -> (r: Result<Vec<SseEvent>, String>)
        ensures
            match (r, finished(self.state(), true)) {
                (Ok(events), Ok(expected)) => events.deep_view() == expected,
                (Err(message), Err(expected)) => message@ == expected,
                _ => false,
            },
    {
        let mut this = self;
        let mut events: Vec<SseEvent> = Vec::new();
        proof {
            assert(events.deep_view() =~= Seq::<SseEventModel>::empty());
        }
        if this.line_buffer.len() > 0 {
            let mut line: Vec<u8> = Vec::new();
            std::mem::swap(&mut line, &mut this.line_buffer);
            let result = this.process_line(&line, &mut events);
            if let Err(message) = result {
                return Err(message);
            }
        }
        let ghost last = flushed(this.state());
        this.flush_event(&mut events);
        proof {
            assert(Seq::<SseEventModel>::empty() + last =~= last);
        }
        Ok(events)
    }
}

impl Default for SseEventParser {
    fn default() -> (r: Self)
        ensures
            r.state() == initial_state(),
    {
        let r = SseEventParser {
            line_buffer: Vec::new(),
            event_type: None,
            data_lines: Vec::new(),
        };
        assert(r.data_lines.deep_view() =~= Seq::<Seq<char>>::empty());
        r
    }
}

/// An error inside a chunk is the outcome of the whole chunk.
proof fn lemma_feed_stops(state: SseState, bytes: Seq<u8>, upto: int, typed: bool)
    requires
        0 <= upto <= bytes.len(),
        feed(state, bytes.take(upto), typed).output is Err,
    ensures
        feed(state, bytes, typed) == feed(state, bytes.take(upto), typed),
    decreases bytes.len() - upto,
{
    if upto == bytes.len() {
        assert(bytes.take(upto) =~= bytes);
    } else {
        assert(bytes.take(upto + 1).drop_last() =~= bytes.take(upto));
        lemma_feed_stops(state, bytes, upto + 1, typed);
    }
}

/// How a stream is cut into chunks makes no difference: two chunks one after the
/// other leave the parser in the state, and hand out the events, that one chunk
/// holding both gives; an error in the first is the error of both.
pub proof fn law_chunks_do_not_matter(
    state: SseState,
    first: Seq<u8>,
    second: Seq<u8>,
    typed: bool,
)
    ensures
        ({
            let one = feed(state, first, typed);
            let both = feed(state, first + second, typed);
            match one.output {
                Err(_) => both == one,
                Ok(events) => {
                    let two = feed(one.state, second, typed);
                    &&& both.state == two.state
                    &&& match two.output {
                        Ok(more) => both.output == Ok::<Seq<SseEventModel>, Seq<char>>(
                            events + more,
                        ),
                        Err(message) => both.output == Err::<Seq<SseEventModel>, Seq<char>>(
                            message,
                        ),
                    }
                },
            }
        }),
    decreases second.len(),
{
    let whole = first + second;
    assert(whole.take(first.len() as int) =~= first);
    if feed(state, first, typed).output is Err {
        lemma_feed_stops(state, whole, first.len() as int, typed);
    } else if second.len() == 0 {
        assert(whole =~= first);
        let events = feed(state, first, typed).output->Ok_0;
        assert(events + Seq::<SseEventModel>::empty() =~= events);
    } else {
        law_chunks_do_not_matter(state, first, second.drop_last(), typed);
        assert(whole.drop_last() =~= first + second.drop_last());
        assert(whole.last() == second.last());
        let one = feed(state, first, typed);
        let events = one.output->Ok_0;
        let two = feed(one.state, second.drop_last(), typed);
        if two.output is Ok {
            let step = byte_step(two.state, second.last(), typed);
            if step.output is Ok {
                assert((events + two.output->Ok_0) + step.output->Ok_0 =~= events + (
                two.output->Ok_0 + step.output->Ok_0));
            }
        }
    }
}

/// Where a stream ends, a parser hands out what the rest of a line and a blank line
/// would have made it hand out: a line feed that ends the unfinished line, if there is
/// one, and another that ends the event. With these it would be as it was at the start.
pub proof fn law_end_closes_the_event(state: SseState, typed: bool)
    ensures
        ({
            let closing = if state.line.len() == 0 {
                seq![LINE_FEED]
            } else {
                seq![LINE_FEED, LINE_FEED]
            };
            let closed = feed(state, closing, typed);
            &&& finished(state, typed) == closed.output
            &&& closed.output is Ok ==> closed.state == initial_state()
        }),
{
    reveal_with_fuel(feed, 3);
    let nothing = Seq::<u8>::empty();
    let first = seq![LINE_FEED];
    assert(first.drop_last() =~= nothing);
    let none = Seq::<SseEventModel>::empty();
    if state.line.len() == 0 {
        assert(none + flushed(state) =~= flushed(state));
        assert(state.line =~= Seq::<u8>::empty());
    } else {
        let both = seq![LINE_FEED, LINE_FEED];
        assert(both.drop_last() =~= first);
        let step = byte_step(state, LINE_FEED, typed);
        if step.output is Ok {
            assert(none + step.output->Ok_0 =~= step.output->Ok_0);
        }
    }
}

/// The two parsers agree: where the one that reads event types succeeds, the other
/// hands out the same payloads.
pub proof fn law_parsers_agree(bytes: Seq<u8>)
    requires
        feed(initial_state(), bytes, true).output is Ok,
    ensures
        feed(initial_state(), bytes, false).output is Ok,
        payloads_of(feed(initial_state(), bytes, false).output->Ok_0) == payloads_of(
            feed(initial_state(), bytes, true).output->Ok_0,
        ),
        feed(initial_state(), bytes, false).state.line == feed(
            initial_state(),
            bytes,
            true,
        ).state.line,
        feed(initial_state(), bytes, false).state.data == feed(
            initial_state(),
            bytes,
            true,
        ).state.data,
    decreases bytes.len(),
{
    if bytes.len() > 0 {
        law_parsers_agree(bytes.drop_last());
        let plain = feed(initial_state(), bytes.drop_last(), false);
        let typed = feed(initial_state(), bytes.drop_last(), true);
        let plain_step = byte_step(plain.state, bytes.last(), false);
        let typed_step = byte_step(typed.state, bytes.last(), true);
        let plain_events = plain.output->Ok_0;
        let typed_events = typed.output->Ok_0;
        let plain_more = plain_step.output->Ok_0;
        let typed_more = typed_step.output->Ok_0;
        assert(payloads_of(plain_more) =~= payloads_of(typed_more));
        assert(payloads_of(plain_events + plain_more) =~= payloads_of(plain_events) + payloads_of(
            plain_more,
        ));
        assert(payloads_of(typed_events + typed_more) =~= payloads_of(typed_events) + payloads_of(
            typed_more,
        ));
    }
}

/// A blank line hands out the unfinished event: its type and its lines of data with line
/// feeds between them. Without data nothing is handed out. Either way nothing is left of it.
pub proof fn law_blank_line_ends_the_event(
    parser: &mut SseEventParser,
    line: &[u8],
    events: &mut Vec<SseEvent>,
    r: Result<(), String>,
)
    requires
        call_ensures(SseEventParser::process_line, (parser, line, events), r),
        line@.len() == 0 || line@ == seq![0x0du8],
    ensures
        r is Ok,
        old(parser).data_lines@.len() == 0 ==> final(events)@.len() == old(events)@.len(),
        old(parser).data_lines@.len() > 0 ==> final(events)@.len() == old(events)@.len() + 1
            && final(events)@.last().data@ == text::joined(old(parser).data_lines.deep_view(), "\n"@)
            && final(events)@.last().event_type.deep_view() == old(parser).event_type.deep_view(),
        final(parser).data_lines@.len() == 0,
        final(parser).event_type is None,
        final(parser).line_buffer@ == old(parser).line_buffer@,
{
    if line@.len() > 0 {
        assert(line@.drop_last().len() == 0);
    }
    let state = old(parser).state();
    assert(old(parser).data_lines.deep_view().len() == old(parser).data_lines@.len());
    assert(final(parser).data_lines.deep_view().len() == final(parser).data_lines@.len());
    assert(final(events).deep_view().len() == final(events)@.len());
    assert(old(events).deep_view().len() == old(events)@.len());
    if old(parser).data_lines@.len() > 0 {
        let n = old(events)@.len() as int;
        assert(final(events).deep_view()[n] == final(events)@[n].deep_view());
        assert(final(events).deep_view()[n] == flushed(state)[0]);
    }
}

/// A line of data adds what stands behind `data:` and one space; a line of a type sets the
/// type to what stands behind `event:` and one space. Neither hands anything out.
pub proof fn law_fields_are_kept(
    parser: &mut SseEventParser,
    line: &[u8],
    events: &mut Vec<SseEvent>,
    r: Result<(), String>,
    value: Seq<u8>,
)
    requires
        call_ensures(SseEventParser::process_line, (parser, line, events), r),
        value.len() > 0 ==> value.last() != 0x0du8,
        valid_utf8(value),
    ensures
        line@ == seq![0x64u8, 0x61u8, 0x74u8, 0x61u8, 0x3au8, 0x20u8] + value ==> r is Ok
            && final(parser).data_lines.deep_view() == old(parser).data_lines.deep_view().push(
            decode_utf8(value),
        ) && final(parser).event_type.deep_view() == old(parser).event_type.deep_view()
            && final(events)@.len() == old(events)@.len(),
        line@ == seq![0x65u8, 0x76u8, 0x65u8, 0x6eu8, 0x74u8, 0x3au8, 0x20u8] + value ==> r is Ok
            && final(parser).event_type.deep_view() == Some(decode_utf8(value))
            && final(parser).data_lines.deep_view() == old(parser).data_lines.deep_view()
            && final(events)@.len() == old(events)@.len(),
{
    assert(final(events).deep_view().len() == final(events)@.len());
    assert(old(events).deep_view().len() == old(events)@.len());
    if line@ == seq![0x64u8, 0x61u8, 0x74u8, 0x61u8, 0x3au8, 0x20u8] + value {
        assert(without_carriage_return(line@) == line@) by {
            if value.len() == 0 {
                assert(line@.last() == 0x20u8);
            } else {
                assert(line@.last() == value.last());
            }
        }
        assert(line@[0] == 0x64u8);
        assert(event_prefix()[0] == 0x65u8);
        assert(!event_prefix().is_prefix_of(line@)) by {
            if event_prefix().is_prefix_of(line@) {
                assert(line@.subrange(0, 6)[0] == event_prefix()[0]);
            }
        }
        assert(data_prefix().is_prefix_of(line@)) by {
            assert(line@.subrange(0, 5) =~= data_prefix());
        }
        assert(line@.skip(5)[0] == 0x20u8);
        assert(line@.skip(5).skip(1) =~= value);
    }
    if line@ == seq![0x65u8, 0x76u8, 0x65u8, 0x6eu8, 0x74u8, 0x3au8, 0x20u8] + value {
        assert(without_carriage_return(line@) == line@) by {
            if value.len() == 0 {
                assert(line@.last() == 0x20u8);
            } else {
                assert(line@.last() == value.last());
            }
        }
        assert(line@[0] == 0x65u8);
        assert(event_prefix().is_prefix_of(line@)) by {
            assert(line@.subrange(0, 6) =~= event_prefix());
        }
        assert(line@.skip(6)[0] == 0x20u8);
        assert(line@.skip(6).skip(1) =~= value);
    }
}

/// A comment, which starts with a colon, changes nothing.
pub proof fn law_comments_are_passed_over(
    parser: &mut SseEventParser,
    line: &[u8],
    events: &mut Vec<SseEvent>,
    r: Result<(), String>,
)
    requires
        call_ensures(SseEventParser::process_line, (parser, line, events), r),
        line@.len() > 0,
        line@[0] == 0x3au8,
    ensures
        r is Ok,
        final(parser).state() == old(parser).state(),
        final(events).deep_view() == old(events).deep_view(),
{
    let line = without_carriage_return(line@);
    assert(line[0] == 0x3au8);
}

/// The parser of data hands out, at a blank line, the lines of data with line feeds between
/// them; a line of data adds to them, and a line of a type is passed over.
pub proof fn law_data_is_handed_out(
    parser: &mut SseDataParser,
    line: &[u8],
    payloads: &mut Vec<String>,
    r: Result<(), String>,
    value: Seq<u8>,
)
    requires
        call_ensures(SseDataParser::process_line, (parser, line, payloads), r),
        value.len() > 0 ==> value.last() != 0x0du8,
        valid_utf8(value),
    ensures
        line@.len() == 0 && old(parser).data_lines@.len() > 0 ==> r is Ok && final(payloads)@.len() == old(payloads)@.len() + 1 && final(payloads)@.last()@ == text::joined(
            old(parser).data_lines.deep_view(),
            "\n"@,
        ) && final(parser).data_lines@.len() == 0,
        line@.len() == 0 && old(parser).data_lines@.len() == 0 ==> r is Ok && final(payloads)@.len() == old(payloads)@.len(),
        line@ == seq![0x64u8, 0x61u8, 0x74u8, 0x61u8, 0x3au8, 0x20u8] + value ==> r is Ok
            && final(parser).data_lines.deep_view() == old(parser).data_lines.deep_view().push(
            decode_utf8(value),
        ) && final(payloads)@.len() == old(payloads)@.len(),
{
    let state = old(parser).state();
    text::lemma_list(old(parser).data_lines);
    text::lemma_list(final(parser).data_lines);
    text::lemma_list(*final(payloads));
    text::lemma_list(*old(payloads));
    if line@.len() == 0 {
        assert(payloads_of(flushed(state)).len() == flushed(state).len());
        if old(parser).data_lines@.len() > 0 {
            let n = old(payloads)@.len() as int;
            assert(payloads_of(flushed(state))[0] == flushed(state)[0].data);
            assert(final(payloads).deep_view()[n] == payloads_of(flushed(state))[0]);
        }
    }
    if line@ == seq![0x64u8, 0x61u8, 0x74u8, 0x61u8, 0x3au8, 0x20u8] + value {
        assert(without_carriage_return(line@) == line@) by {
            if value.len() == 0 {
                assert(line@.last() == 0x20u8);
            } else {
                assert(line@.last() == value.last());
            }
        }
        assert(line@[0] == 0x64u8);
        assert(event_prefix()[0] == 0x65u8);
        assert(!event_prefix().is_prefix_of(line@)) by {
            if event_prefix().is_prefix_of(line@) {
                assert(line@.subrange(0, 6)[0] == event_prefix()[0]);
            }
        }
        assert(data_prefix().is_prefix_of(line@)) by {
            assert(line@.subrange(0, 5) =~= data_prefix());
        }
        assert(line@.skip(5)[0] == 0x20u8);
        assert(line@.skip(5).skip(1) =~= value);
        assert(payloads_of(Seq::<SseEventModel>::empty()).len() == 0);
    }
}

/// A chunk without line feeds is kept until the line is complete.
pub proof fn law_unfinished_line_is_kept(
    parser: &mut SseEventParser,
    chunk: &[u8],
    r: Result<Vec<SseEvent>, String>,
)
    requires
        call_ensures(SseEventParser::push_chunk, (parser, chunk), r),
        !chunk@.contains(0x0au8),
    ensures
        r matches Ok(events) && events@.len() == 0,
        final(parser).line_buffer@ == old(parser).line_buffer@ + chunk@,
        final(parser).data_lines.deep_view() == old(parser).data_lines.deep_view(),
        final(parser).event_type.deep_view() == old(parser).event_type.deep_view(),
{
    lemma_line_grows(old(parser).state(), chunk@, true);
    if let Ok(events) = r {
        assert(events.deep_view().len() == events@.len());
    }
}

proof fn lemma_line_grows(state: SseState, bytes: Seq<u8>, typed: bool)
    requires
        !bytes.contains(0x0au8),
    ensures
        feed(state, bytes, typed) == (SseStep {
            state: SseState { line: state.line + bytes, ..state },
            output: Ok(Seq::empty()),
        }),
    decreases bytes.len(),
{
    if bytes.len() == 0 {
        assert(state.line + bytes =~= state.line);
    } else {
        let before = bytes.drop_last();
        assert forall|i: int| 0 <= i < before.len() implies before[i] != 0x0au8 by {
            assert(bytes.contains(bytes[i]));
        }
        lemma_line_grows(state, before, typed);
        assert(bytes.contains(bytes.last()));
        assert((state.line + before).push(bytes.last()) =~= state.line + bytes);
        assert(Seq::<SseEventModel>::empty() + Seq::<SseEventModel>::empty() =~= Seq::<
            SseEventModel,
        >::empty());
    }
}

/// At its end a stream hands out the event that is under way, where its last line is
/// complete; without data it hands out nothing.
pub proof fn law_end_hands_out_the_rest(
    parser: SseEventParser,
    r: Result<Vec<SseEvent>, String>,
    plain: SseDataParser,
    payloads: Result<Vec<String>, String>,
)
    requires
        call_ensures(SseEventParser::finish, (parser,), r),
        call_ensures(SseDataParser::finish, (plain,), payloads),
    ensures
        parser.line_buffer@.len() == 0 ==> (r matches Ok(events) && (parser.data_lines@.len() == 0
            ==> events@.len() == 0) && (parser.data_lines@.len() > 0 ==> events@.len() == 1
            && events@[0].data@ == text::joined(parser.data_lines.deep_view(), "\n"@)
            && events@[0].event_type.deep_view() == parser.event_type.deep_view())),
        plain.line_buffer@.len() == 0 ==> (payloads matches Ok(texts) && (plain.data_lines@.len()
            == 0 ==> texts@.len() == 0) && (plain.data_lines@.len() > 0 ==> texts@.len() == 1
            && texts@[0]@ == text::joined(plain.data_lines.deep_view(), "\n"@))),
{
    text::lemma_list(parser.data_lines);
    text::lemma_list(plain.data_lines);
    if let Ok(events) = r {
        assert(events.deep_view().len() == events@.len());
        if parser.line_buffer@.len() == 0 && parser.data_lines@.len() > 0 {
            assert(events.deep_view()[0] == events@[0].deep_view());
        }
    }
    if let Ok(texts) = payloads {
        text::lemma_list(texts);
        let flush = flushed(plain.state());
        assert(payloads_of(flush).len() == flush.len());
        if plain.line_buffer@.len() == 0 && plain.data_lines@.len() > 0 {
            assert(payloads_of(flush)[0] == flush[0].data);
        }
    }
}

} // verus!
