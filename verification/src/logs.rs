//! What guests wrote, line by line.

use crate::clock;
use crate::clock::{rfc3339, seconds_since_epoch, system_now};
use crate::sandbox::RunnerGuestRole;
use crate::text;
use crate::text::{comes_before, concat3, from_chars, parse_u64, split_text, to_chars};
use vstd::prelude::*;

verus! {

/// Digits stand at all these places.
pub open spec fn digits_at(s: Seq<char>, from: int, upto: int) -> bool {
    forall|i: int| from <= i < upto ==> text::is_digit(#[trigger] s[i])
}

/// A zone: `Z`, or the distance from universal time.
pub open spec fn is_zone(s: Seq<char>) -> bool {
    ||| s == seq!['Z']
    ||| s.len() == 6 && (s[0] == '+' || s[0] == '-') && digits_at(s, 1, 3) && s[3] == ':'
        && digits_at(s, 4, 6)
}

/// A date and a time, to the second.
pub open spec fn is_date_time(s: Seq<char>) -> bool {
    &&& s.len() >= 19
    &&& digits_at(s, 0, 4)
    &&& s[4] == '-'
    &&& digits_at(s, 5, 7)
    &&& s[7] == '-'
    &&& digits_at(s, 8, 10)
    &&& s[10] == 'T'
    &&& digits_at(s, 11, 13)
    &&& s[13] == ':'
    &&& digits_at(s, 14, 16)
    &&& s[16] == ':'
    &&& digits_at(s, 17, 19)
}

/// How many digits a text starts with.
pub open spec fn leading_digits(s: Seq<char>) -> nat
    decreases s.len(),
{
    if s.len() > 0 && text::is_digit(s[0]) {
        1 + leading_digits(s.skip(1))
    } else {
        0
    }
}

/// What follows a fraction of a second, where there is one.
pub open spec fn behind_fraction(s: Seq<char>) -> Seq<char> {
    if s.len() > 0 && s[0] == '.' && leading_digits(s.skip(1)) > 0 {
        s.skip(1 + leading_digits(s.skip(1)) as int)
    } else {
        s
    }
}

/// A point in time: a date and a time, perhaps with a fraction, and a zone.
pub open spec fn is_timestamp(s: Seq<char>) -> bool {
    is_date_time(s) && is_zone(behind_fraction(s.skip(19)))
}

fn has_digits(chars: &Vec<char>, from: usize, upto: usize) -> (r: bool)
    requires
        from <= upto <= chars.len(),
    ensures
        r == digits_at(chars@, from as int, upto as int),
{
    let mut i: usize = from;
    while i < upto
        invariant
            from <= i <= upto <= chars.len(),
            digits_at(chars@, from as int, i as int),
        decreases upto - i,
    {
        if !('0' <= chars[i] && chars[i] <= '9') {
            assert(!text::is_digit(chars@[i as int]));
            return false;
        }
        i += 1;
    }
    true
}

fn zone_from(chars: &Vec<char>, from: usize) -> (r: bool)
    requires
        from <= chars.len(),
    ensures
        r == is_zone(chars@.skip(from as int)),
{
    let ghost rest = chars@.skip(from as int);
    let length: usize = chars.len() - from;
    if length == 1 {
        proof {
            if rest[0] == 'Z' {
                assert(rest =~= seq!['Z']);
            } else {
                assert(seq!['Z'][0] == 'Z');
            }
        }
        return chars[from] == 'Z';
    }
    if length != 6 {
        assert(seq!['Z'].len() == 1);
        return false;
    }
    let hours = has_digits(chars, from + 1, from + 3);
    let minutes = has_digits(chars, from + 4, from + 6);
    proof {
        assert(digits_at(rest, 1, 3) == hours) by {
            if hours {
                assert forall|i: int| 1 <= i < 3 implies text::is_digit(#[trigger] rest[i]) by {
                    assert(text::is_digit(chars@[from + i]));
                }
            }
            if digits_at(rest, 1, 3) {
                assert forall|i: int| from + 1 <= i < from + 3 implies text::is_digit(
                    #[trigger] chars@[i],
                ) by {
                    assert(text::is_digit(rest[i - from]));
                }
            }
        }
        assert(digits_at(rest, 4, 6) == minutes) by {
            if minutes {
                assert forall|i: int| 4 <= i < 6 implies text::is_digit(#[trigger] rest[i]) by {
                    assert(text::is_digit(chars@[from + i]));
                }
            }
            if digits_at(rest, 4, 6) {
                assert forall|i: int| from + 4 <= i < from + 6 implies text::is_digit(
                    #[trigger] chars@[i],
                ) by {
                    assert(text::is_digit(rest[i - from]));
                }
            }
        }
        assert(seq!['Z'].len() == 1);
    }
    (chars[from] == '+' || chars[from] == '-') && hours && chars[from + 3] == ':' && minutes
}

/// Where the fraction of a second ends that starts there, if one does.
fn fraction_end(chars: &Vec<char>, from: usize) -> (r: usize)
    requires
        from <= chars.len(),
    ensures
        from <= r <= chars.len(),
        chars@.skip(r as int) == behind_fraction(chars@.skip(from as int)),
{
    let ghost rest = chars@.skip(from as int);
    if from == chars.len() || chars[from] != '.' {
        return from;
    }
    let mut i: usize = from + 1;
    let ghost digits = rest.skip(1);
    proof {
        assert(digits =~= chars@.skip(from + 1));
    }
    while i < chars.len() && '0' <= chars[i] && chars[i] <= '9'
        invariant
            from + 1 <= i <= chars.len(),
            leading_digits(digits) == (i - from - 1) + leading_digits(chars@.skip(i as int)),
        decreases chars.len() - i,
    {
        proof {
            assert(chars@.skip(i as int)[0] == chars@[i as int]);
            assert(chars@.skip(i as int).skip(1) =~= chars@.skip(i + 1));
        }
        i += 1;
    }
    proof {
        if i < chars.len() {
            assert(chars@.skip(i as int)[0] == chars@[i as int]);
        }
        assert(leading_digits(digits) == i - from - 1);
        assert(rest.skip(i - from) =~= chars@.skip(i as int));
    }
    if i == from + 1 {
        return from;
    }
    i
}

/// Whether a text is a point in time.
pub fn reads_as_timestamp(value: &str) -> (r: bool)
    ensures
        r == is_timestamp(value@),
{
    let chars = to_chars(value);
    if chars.len() < 19 {
        return false;
    }
    if !(has_digits(&chars, 0, 4) && chars[4] == '-' && has_digits(&chars, 5, 7) && chars[7] == '-'
        && has_digits(&chars, 8, 10) && chars[10] == 'T' && has_digits(&chars, 11, 13) && chars[13]
        == ':' && has_digits(&chars, 14, 16) && chars[16] == ':' && has_digits(&chars, 17, 19)) {
        return false;
    }
    let zone: usize = fraction_end(&chars, 19);
    zone_from(&chars, zone)
}

/// What stands before the first space.
pub open spec fn first_word(line: Seq<char>) -> Seq<char> {
    line.take(text::first_index(line, ' '))
}

/// What stands behind the first space.
pub open spec fn behind_first_word(line: Seq<char>) -> Seq<char> {
    match text::split_once_at(line, ' ') {
        Some((_, rest)) => rest,
        None => Seq::empty(),
    }
}

/// The point in time that a line starts with.
pub open spec fn line_timestamp(line: Seq<char>) -> Option<Seq<char>> {
    if is_timestamp(first_word(line)) {
        Some(first_word(line))
    } else {
        None
    }
}

/// What a line says behind the point in time that it starts with.
pub open spec fn line_message(line: Seq<char>) -> Seq<char> {
    if is_timestamp(first_word(line)) {
        behind_first_word(line)
    } else {
        line
    }
}

proof fn lemma_no_space(line: Seq<char>)
    ensures
        0 <= text::first_index(line, ' ') <= line.len(),
    decreases line.len(),
{
    if line.len() > 0 && line[0] != ' ' {
        lemma_no_space(line.skip(1));
    }
}

fn word_of(line: &str) -> (r: String)
    ensures
        r@ == first_word(line@),
{
    proof {
        lemma_no_space(line@);
    }
    match text::split_once(line, ' ') {
        Some((word, _)) => word,
        None => {
            proof {
                assert(line@.take(line@.len() as int) =~= line@);
            }
            line.to_owned()
        },
    }
}

/// The point in time that a line starts with, where it starts with one.
pub fn extract_timestamp(line: &str) -> (r: Option<String>)
    ensures
        r.deep_view() == line_timestamp(line@),
{
    let word = word_of(line);
    if reads_as_timestamp(word.as_str()) {
        Some(word)
    } else {
        None
    }
}

/// What a line says, without the point in time that it starts with.
pub fn strip_timestamp(line: &str) -> (r: String)
    ensures
        r@ == line_message(line@),
{
    let word = word_of(line);
    if !reads_as_timestamp(word.as_str()) {
        return line.to_owned();
    }
    match text::split_once(line, ' ') {
        Some((_, rest)) => rest,
        None => {
            let rest = String::new();
            proof {
                assert(rest@ =~= Seq::empty());
            }
            rest
        },
    }
}

/// How many seconds a unit of time has.
pub open spec fn unit_seconds(unit: char) -> Option<nat> {
    if unit == 's' {
        Some(1)
    } else if unit == 'm' {
        Some(60)
    } else if unit == 'h' {
        Some(3600)
    } else if unit == 'd' {
        Some(86400)
    } else {
        None
    }
}

/// A span of time, such as `15m`, in seconds.
pub open spec fn span_seconds(value: Seq<char>) -> Option<nat> {
    if value.len() == 0 {
        None
    } else {
        match (text::digits_number(value.drop_last()), unit_seconds(value.last())) {
            (Some(count), Some(unit)) => Some(count as nat * unit),
            _ => None,
        }
    }
}

/// A span of time before a point in time, but not before the start of 1970.
pub open spec fn before(now: nat, span: nat) -> nat {
    if span <= now {
        (now - span) as nat
    } else {
        0
    }
}

/// That is the point in time from which lines are wanted: the one that is given, or the
/// one that lies the given span before now.
pub open spec fn is_threshold(input: Seq<char>, now: nat, threshold: Option<Seq<char>>) -> bool {
    let value = text::trimmed(input);
    if is_timestamp(value) {
        threshold == Some(value)
    } else {
        match span_seconds(value) {
            Some(span) => threshold is Some && clock::is_timestamp_of(
                threshold->0,
                before(now, span) as int,
            ),
            None => threshold is None,
        }
    }
}

fn digits_of(digits: &str) -> (r: Option<u64>)
    ensures
        r == text::digits_number(digits@),
{
    let chars = to_chars(digits);
    if chars.len() > 0 && chars[0] == '+' {
        assert(!text::is_digit(digits@[0]));
        return None;
    }
    parse_u64(digits)
}

/// From which point in time on lines are wanted, given what time it is.
pub fn since_threshold(input: &str, now: u64) -> (r: Option<String>)
    ensures
        is_threshold(input@, now as nat, r.deep_view()),
{
    let value = text::trim(input);
    if reads_as_timestamp(value.as_str()) {
        return Some(value);
    }
    let chars = to_chars(value.as_str());
    if chars.len() == 0 {
        return None;
    }
    let last: usize = chars.len() - 1;
    let unit: u64 = match chars[last] {
        's' => 1,
        'm' => 60,
        'h' => 3600,
        'd' => 86400,
        _ => {
            return None;
        },
    };
    let digits = from_chars(vstd::slice::slice_subrange(chars.as_slice(), 0, last));
    proof {
        assert(digits@ =~= value@.drop_last());
    }
    match digits_of(digits.as_str()) {
        None => None,
        Some(count) => {
            let then: u64 = match count.checked_mul(unit) {
                Some(span) => if span <= now {
                    now - span
                } else {
                    0
                },
                None => 0,
            };
            Some(rfc3339(then))
        },
    }
}

/// From which point in time on lines are wanted. A span counts from now, whenever that
/// is.
pub fn parse_since_threshold(input: &str) -> (r: Option<String>)
    ensures
        exists|now: nat| #[trigger] is_threshold(input@, now, r.deep_view()),
        is_timestamp(text::trimmed(input@)) ==> r.deep_view() == Some(text::trimmed(input@)),
        r is None <==> !is_timestamp(text::trimmed(input@)) && span_seconds(
            text::trimmed(input@),
        ) is None,
{
    let now = seconds_since_epoch(system_now());
    let r = since_threshold(input, now);
    proof {
        assert(is_threshold(input@, now as nat, r.deep_view()));
    }
    r
}

/// A line without the carriage return that it may end with.
pub open spec fn without_return(line: Seq<char>) -> Seq<char> {
    if line.len() > 0 && line.last() == '\r' {
        line.drop_last()
    } else {
        line
    }
}

/// A line that is wanted: one that is not empty, and that is not known to be older.
pub open spec fn is_wanted(line: Seq<char>, since: Option<Seq<char>>) -> bool {
    &&& line.len() > 0
    &&& match (since, line_timestamp(line)) {
        (Some(threshold), Some(stamp)) => !text::text_less(stamp, threshold),
        _ => true,
    }
}

/// The wanted ones of these lines, in order.
pub open spec fn wanted_lines(lines: Seq<Seq<char>>, since: Option<Seq<char>>) -> Seq<Seq<char>>
    decreases lines.len(),
{
    if lines.len() == 0 {
        Seq::empty()
    } else {
        let line = without_return(lines.last());
        let rest = wanted_lines(lines.drop_last(), since);
        if is_wanted(line, since) {
            rest.push(line)
        } else {
            rest
        }
    }
}

/// The last of these lines, as many as are wanted.
pub open spec fn last_lines(lines: Seq<Seq<char>>, limit: nat) -> Seq<Seq<char>> {
    if lines.len() > limit {
        lines.skip(lines.len() - limit)
    } else {
        lines
    }
}

fn clean_line(line: &str) -> (r: String)
    ensures
        r@ == without_return(line@),
{
    let chars = to_chars(line);
    if chars.len() > 0 && chars[chars.len() - 1] == '\r' {
        let r = from_chars(vstd::slice::slice_subrange(chars.as_slice(), 0, chars.len() - 1));
        proof {
            assert(r@ =~= line@.drop_last());
        }
        r
    } else {
        line.to_owned()
    }
}

fn wants(line: &str, since: Option<&str>) -> (r: bool)
    ensures
        r == is_wanted(
            line@,
            match since {
                Some(threshold) => Some(threshold@),
                None => None,
            },
        ),
{
    if line.is_empty() {
        return false;
    }
    match since {
        None => true,
        Some(threshold) => match extract_timestamp(line) {
            Some(stamp) => !comes_before(stamp.as_str(), threshold),
            None => true,
        },
    }
}

/// The last lines of a log, as many as are asked for, from a point in time on; and
/// whether there were more.
pub fn log_tail(content: &str, limit: usize, since: Option<&str>) -> (r: (Vec<String>, bool))
    ensures
        ({
            let threshold = match since {
                Some(threshold) => Some(threshold@),
                None => None,
            };
            let lines = wanted_lines(text::split(content@, '\n'), threshold);
            r.0.deep_view() == last_lines(lines, limit as nat) && r.1 == (lines.len() > limit)
        }),
{
    let ghost threshold = match since {
        Some(threshold) => Some(threshold@),
        None => None,
    };
    let all = split_text(content, '\n');
    let ghost parts = all.deep_view();
    let mut lines: Vec<String> = Vec::new();
    let mut i: usize = 0;
    proof {
        assert(parts.take(0) =~= Seq::empty());
        assert(lines.deep_view() =~= Seq::empty());
    }
    while i < all.len()
        invariant
            i <= all.len(),
            parts == all.deep_view(),
            threshold == (match since {
                Some(threshold) => Some(threshold@),
                None => None,
            }),
            lines.deep_view() == wanted_lines(parts.take(i as int), threshold),
        decreases all.len() - i,
    {
        let ghost earlier = lines.deep_view();
        proof {
            assert(parts.take(i as int + 1).drop_last() =~= parts.take(i as int));
            assert(parts.take(i as int + 1).last() == all@[i as int]@);
        }
        let line = clean_line(all[i].as_str());
        if wants(line.as_str(), since) {
            lines.push(line);
            proof {
                assert(lines.deep_view() =~= earlier.push(line@));
            }
        }
        i += 1;
    }
    proof {
        assert(parts.take(i as int) =~= parts);
    }
    if lines.len() <= limit {
        return (lines, false);
    }
    let ghost found = lines.deep_view();
    let start: usize = lines.len() - limit;
    let kept = lines.split_off(start);
    proof {
        assert(kept.deep_view() =~= found.skip(start as int));
    }
    (kept, true)
}

/// A line of a guest's output.
#[derive(Debug, PartialEq, Eq)]
pub struct LogEntry {
    /// Which guest wrote it.
    pub source: &'static str,
    /// `stdout` or `stderr`.
    pub stream: &'static str,
    pub timestamp: Option<String>,
    pub message: String,
}

/// The model of a [`LogEntry`].
pub struct LogEntryModel {
    pub source: Seq<char>,
    pub stream: Seq<char>,
    pub timestamp: Option<Seq<char>>,
    pub message: Seq<char>,
}

impl DeepView for LogEntry {
    type V = LogEntryModel;

    open spec fn deep_view(&self) -> LogEntryModel {
        LogEntryModel {
            source: self.source@,
            stream: self.stream@,
            timestamp: self.timestamp.deep_view(),
            message: self.message@,
        }
    }
}

/// Whose output is wanted.
#[derive(Debug, Clone, Copy, PartialEq, Eq, Structural)]
pub enum LogRole {
    Runtime,
    Sidecar,
}

/// Which output is wanted.
#[derive(Debug, Clone, Copy, PartialEq, Eq, Structural)]
pub enum LogStream {
    Stdout,
    Stderr,
    Both,
}

/// How output is wanted.
#[derive(Debug, Clone, Copy, PartialEq, Eq, Structural)]
pub enum LogFormat {
    Text,
    Json,
}

/// A request for output.
#[derive(Debug, PartialEq, Eq)]
pub struct RunnerControlLogsRequest {
    pub role: LogRole,
    pub stream: LogStream,
    /// How many lines of each stream, or all.
    pub tail: Option<usize>,
    pub since: Option<String>,
    pub format: LogFormat,
}

/// What a guest wrote, where anything is kept of it.
#[derive(Debug, PartialEq, Eq)]
pub struct GuestLogs {
    pub stdout: Option<String>,
    pub stderr: Option<String>,
}

/// The answer to a request for output.
#[derive(Debug, PartialEq, Eq)]
pub struct RunnerControlLogs {
    pub entries: Vec<LogEntry>,
    pub truncated: bool,
    pub warnings: Vec<String>,
}

/// One line as an entry.
pub open spec fn entry_of(source: Seq<char>, stream: Seq<char>, line: Seq<char>) -> LogEntryModel {
    LogEntryModel {
        source,
        stream,
        timestamp: line_timestamp(line),
        message: line_message(line),
    }
}

/// Lines as entries.
pub open spec fn entries_of(
    source: Seq<char>,
    stream: Seq<char>,
    lines: Seq<Seq<char>>,
) -> Seq<LogEntryModel> {
    Seq::new(lines.len(), |i: int| entry_of(source, stream, lines[i]))
}

/// The wanted lines of a stream, before they are cut to the last ones.
pub open spec fn stream_lines(content: Option<Seq<char>>, since: Option<Seq<char>>) -> Seq<
    Seq<char>,
> {
    match content {
        Some(content) => wanted_lines(text::split(content, '\n'), since),
        None => Seq::empty(),
    }
}

pub open spec fn tail_limit(tail: Option<usize>) -> nat {
    match tail {
        Some(limit) => limit as nat,
        None => usize::MAX as nat,
    }
}

/// Appends the entries of a stream.
fn append_stream(
    entries: &mut Vec<LogEntry>,
    source: &'static str,
    stream: &'static str,
    content: &Option<String>,
    limit: usize,
    since: Option<&str>,
) -> (r: bool)
    ensures
        ({
            let threshold = match since {
                Some(threshold) => Some(threshold@),
                None => None,
            };
            let lines = stream_lines(content.deep_view(), threshold);
            final(entries).deep_view() == old(entries).deep_view() + entries_of(
                source@,
                stream@,
                last_lines(lines, limit as nat),
            ) && r == (lines.len() > limit)
        }),
{
    let ghost start = entries.deep_view();
    match content {
        None => {
            proof {
                let none = entries_of(
                    source@,
                    stream@,
                    last_lines(Seq::<Seq<char>>::empty(), limit as nat),
                );
                assert(none =~= Seq::empty());
                assert(start + none =~= start);
            }
            false
        },
        Some(content) => {
            let (lines, truncated) = log_tail(content.as_str(), limit, since);
            let ghost all = entries_of(source@, stream@, lines.deep_view());
            let mut i: usize = 0;
            proof {
                assert(start + all.take(0) =~= start);
            }
            while i < lines.len()
                invariant
                    i <= lines.len(),
                    all == entries_of(source@, stream@, lines.deep_view()),
                    entries.deep_view() == start + all.take(i as int),
                decreases lines.len() - i,
            {
                let ghost earlier = entries.deep_view();
                let line = lines[i].as_str();
                let entry = LogEntry {
                    source,
                    stream,
                    timestamp: extract_timestamp(line),
                    message: strip_timestamp(line),
                };
                proof {
                    assert(entry.deep_view() == all[i as int]);
                }
                entries.push(entry);
                proof {
                    assert(entries.deep_view() =~= earlier.push(all[i as int]));
                    assert(start + all.take(i as int + 1) =~= earlier.push(all[i as int]));
                }
                i += 1;
            }
            proof {
                assert(all.take(i as int) =~= all);
            }
            truncated
        },
    }
}

/// The guest whose output is wanted.
pub open spec fn log_source(role: LogRole) -> RunnerGuestRole {
    match role {
        LogRole::Runtime => RunnerGuestRole::OxydraVm,
        LogRole::Sidecar => RunnerGuestRole::ShellVm,
    }
}

/// The entries of the wanted streams of a guest, its output before its errors.
pub open spec fn guest_entries(
    request: RunnerControlLogsRequest,
    since: Option<Seq<char>>,
    logs: GuestLogs,
) -> Seq<LogEntryModel> {
    let source = log_source(request.role).label();
    let limit = tail_limit(request.tail);
    let output = if request.stream != LogStream::Stderr {
        entries_of(
            source,
            "stdout"@,
            last_lines(stream_lines(logs.stdout.deep_view(), since), limit),
        )
    } else {
        Seq::empty()
    };
    let errors = if request.stream != LogStream::Stdout {
        entries_of(
            source,
            "stderr"@,
            last_lines(stream_lines(logs.stderr.deep_view(), since), limit),
        )
    } else {
        Seq::empty()
    };
    output + errors
}

/// Lines were left out of the wanted streams.
pub open spec fn leaves_out(
    request: RunnerControlLogsRequest,
    since: Option<Seq<char>>,
    logs: GuestLogs,
) -> bool {
    let limit = tail_limit(request.tail);
    ||| request.stream != LogStream::Stderr && stream_lines(logs.stdout.deep_view(), since).len()
        > limit
    ||| request.stream != LogStream::Stdout && stream_lines(logs.stderr.deep_view(), since).len()
        > limit
}

/// The answer to a request for output. `since` is the point in time that the request
/// comes down to. `logs` is what the wanted guest wrote, or nothing where there is no
/// such guest, which the answer then says.
pub fn logs_answer(
    request: &RunnerControlLogsRequest,
    since: Option<&str>,
    logs: Option<GuestLogs>,
) -> (r: RunnerControlLogs)
    ensures
        ({
            let threshold = match since {
                Some(threshold) => Some(threshold@),
                None => None,
            };
            match logs {
                Some(logs) => {
                    &&& r.entries.deep_view() == guest_entries(*request, threshold, logs)
                    &&& r.truncated == leaves_out(*request, threshold, logs)
                    &&& r.warnings@.len() == 0
                },
                None => {
                    &&& r.entries@.len() == 0
                    &&& !r.truncated
                    &&& r.warnings.deep_view() == seq![
                        "no logs: guest `"@ + log_source(request.role).label()
                            + "` is not running"@,
                    ]
                },
            }
        }),
{
    let source = match request.role {
        LogRole::Runtime => RunnerGuestRole::OxydraVm.as_label(),
        LogRole::Sidecar => RunnerGuestRole::ShellVm.as_label(),
    };
    let mut entries: Vec<LogEntry> = Vec::new();
    match logs {
        None => {
            let warnings = vec![concat3("no logs: guest `", source, "` is not running")];
            proof {
                assert(warnings.deep_view() =~= seq![
                    "no logs: guest `"@ + log_source(request.role).label() + "` is not running"@,
                ]);
            }
            RunnerControlLogs { entries, truncated: false, warnings }
        },
        Some(logs) => {
            let limit: usize = match request.tail {
                Some(limit) => limit,
                None => usize::MAX,
            };
            let mut truncated = false;
            proof {
                assert(entries.deep_view() =~= Seq::empty());
            }
            if request.stream != LogStream::Stderr {
                let more = append_stream(
                    &mut entries,
                    source,
                    "stdout",
                    &logs.stdout,
                    limit,
                    since,
                );
                truncated = truncated || more;
            }
            if request.stream != LogStream::Stdout {
                let more = append_stream(
                    &mut entries,
                    source,
                    "stderr",
                    &logs.stderr,
                    limit,
                    since,
                );
                truncated = truncated || more;
            }
            proof {
                let threshold = match since {
                    Some(threshold) => Some(threshold@),
                    None => None,
                };
                assert(entries.deep_view() =~= guest_entries(*request, threshold, logs));
            }
            RunnerControlLogs { entries, truncated, warnings: Vec::new() }
        },
    }
}

/// A point in time has its parts where the standard puts them, and whatever has them there
/// is one.
pub proof fn law_points_in_time_have_their_parts(value: &str, r: bool)
    requires
        call_ensures(reads_as_timestamp, (value,), r),
    ensures
        r ==> value@.len() >= 20 && value@[4] == '-' && value@[7] == '-' && value@[10] == 'T'
            && value@[13] == ':' && value@[16] == ':',
        r && value@.len() == 20 ==> value@[19] == 'Z',
        value@.len() == 20 && value@[4] == '-' && value@[7] == '-' && value@[10] == 'T'
            && value@[13] == ':' && value@[16] == ':' && value@[19] == 'Z' && (forall|i: int|
            0 <= i < 19 && i != 4 && i != 7 && i != 10 && i != 13 && i != 16 ==> text::is_digit(
                #[trigger] value@[i],
            )) ==> r,
        value@.len() == 25 && value@[4] == '-' && value@[7] == '-' && value@[10] == 'T'
            && value@[13] == ':' && value@[16] == ':' && (value@[19] == '+' || value@[19] == '-')
            && value@[22] == ':' && (forall|i: int|
            0 <= i < 25 && i != 4 && i != 7 && i != 10 && i != 13 && i != 16 && i != 19 && i != 22
                ==> text::is_digit(#[trigger] value@[i])) ==> r,
{
    let rest = value@.skip(19);
    if value@.len() >= 19 {
        if rest.len() == 0 {
            assert(behind_fraction(rest) == rest);
        }
        if value@.len() == 20 {
            assert(rest[0] == value@[19]);
            if rest[0] == '.' {
                assert(rest.skip(1).len() == 0);
                assert(behind_fraction(rest) == rest);
            }
            assert(behind_fraction(rest) == rest);
            if r {
                assert(rest == seq!['Z']);
                assert(rest[0] == 'Z');
            }
            if value@[19] == 'Z' {
                assert(rest =~= seq!['Z']);
            }
        }
        if value@.len() == 25 {
            assert(rest[0] == value@[19]);
            assert(rest[3] == value@[22]);
            assert(rest[1] == value@[20] && rest[2] == value@[21]);
            assert(rest[4] == value@[23] && rest[5] == value@[24]);
        }
    }
}

/// A line that starts with a point in time is taken apart at the space behind it, and any
/// other says what it says as a whole.
pub proof fn law_lines_are_taken_apart(
    line: &str,
    stamp: Option<String>,
    message: String,
    time: Seq<char>,
    said: Seq<char>,
)
    requires
        call_ensures(extract_timestamp, (line,), stamp),
        call_ensures(strip_timestamp, (line,), message),
    ensures
        line@ == time + seq![' '] + said && !time.contains(' ') && is_timestamp(time) ==> (
        stamp matches Some(found) && found@ == time) && message@ == said,
        stamp is None ==> message@ == line@,
        stamp matches Some(found) ==> is_timestamp(found@) && (line@ == found@ && message@.len()
            == 0 || line@ == found@ + seq![' '] + message@),
{
    if line@ == time + seq![' '] + said && !time.contains(' ') && is_timestamp(time) {
        text::law_split_once(time, ' ', said);
    }
    text::lemma_split_once_parts(line@, ' ');
    lemma_no_space(line@);
}

/// A span counts back from now, in seconds, minutes, hours or days; a point in time is
/// meant as it stands; and anything else is not understood.
pub proof fn law_spans_count_back_from_now(
    input: &str,
    now: u64,
    r: Option<String>,
    digits: Seq<char>,
    count: u64,
    unit: char,
)
    requires
        call_ensures(since_threshold, (input, now), r),
        text::digits_number(digits) == Some(count),
        text::trimmed(input@) == digits.push(unit),
    ensures
        ({
            let seconds = |length: int|
                if count * length <= now {
                    now - count * length
                } else {
                    0
                };
            &&& unit == 's' ==> r is Some && clock::is_timestamp_of(r->0@, seconds(1))
            &&& unit == 'm' ==> r is Some && clock::is_timestamp_of(r->0@, seconds(60))
            &&& unit == 'h' ==> r is Some && clock::is_timestamp_of(r->0@, seconds(3600))
            &&& unit == 'd' ==> r is Some && clock::is_timestamp_of(r->0@, seconds(86400))
            &&& unit != 's' && unit != 'm' && unit != 'h' && unit != 'd' ==> r is None
        }),
{
    let value = text::trimmed(input@);
    assert(value.drop_last() =~= digits);
    assert(value.last() == unit);
    if digits.len() > 4 {
        assert(text::is_digit(digits[4]));
        assert(value[4] == digits[4]);
    }
    assert(!is_timestamp(value));
}

/// Which of these lines are wanted, by their places.
proof fn lemma_wanted_line(lines: Seq<Seq<char>>, since: Option<Seq<char>>, i: int) -> (at: int)
    requires
        0 <= i < lines.len(),
        is_wanted(without_return(lines[i]), since),
    ensures
        0 <= at < wanted_lines(lines, since).len(),
        wanted_lines(lines, since)[at] == without_return(lines[i]),
        wanted_lines(lines, since).len() - at <= lines.len() - i,
    decreases lines.len(),
{
    if i == lines.len() - 1 {
        wanted_lines(lines.drop_last(), since).len() as int
    } else {
        lemma_wanted_line(lines.drop_last(), since, i)
    }
}

proof fn lemma_wanted_are_lines(lines: Seq<Seq<char>>, since: Option<Seq<char>>, at: int) -> (i: int)
    requires
        0 <= at < wanted_lines(lines, since).len(),
    ensures
        0 <= i < lines.len(),
        wanted_lines(lines, since)[at] == without_return(lines[i]),
        is_wanted(without_return(lines[i]), since),
    decreases lines.len(),
{
    let rest = wanted_lines(lines.drop_last(), since);
    if at < rest.len() {
        lemma_wanted_are_lines(lines.drop_last(), since, at)
    } else {
        lines.len() - 1
    }
}

/// A tail is no longer than asked for, and is all there is unless it says that there was
/// more; then it is as long as asked for.
pub proof fn law_tail_is_as_long_as_asked_for(
    content: &str,
    limit: usize,
    since: Option<&str>,
    r: (Vec<String>, bool),
    other: (Vec<String>, bool),
)
    requires
        call_ensures(log_tail, (content, limit, since), r),
        call_ensures(log_tail, (content, usize::MAX, since), other),
    ensures
        r.0@.len() <= limit,
        r.1 ==> r.0@.len() == limit,
        !r.1 && !other.1 ==> r.0@.len() == other.0@.len(),
        !other.1 ==> r.0@.len() <= other.0@.len() && (r.1 <==> other.0@.len() > limit),
        !other.1 ==> forall|k: int|
            0 <= k < r.0@.len() ==> (#[trigger] r.0@[k])@ == other.0@[other.0@.len() - r.0@.len()
                + k]@,
{
    text::lemma_list(r.0);
    text::lemma_list(other.0);
}

/// A tail that is not cut holds every line of the log that is not empty and not older than
/// wanted, without the carriage return at its end.
pub proof fn law_wanted_lines_are_kept(
    content: &str,
    limit: usize,
    since: Option<&str>,
    r: (Vec<String>, bool),
    i: int,
) -> (at: int)
    requires
        call_ensures(log_tail, (content, limit, since), r),
        !r.1,
        0 <= i < text::split(content@, '\n').len(),
        ({
            let line = text::split(content@, '\n')[i];
            let said = if line.len() > 0 && line[line.len() - 1] == '\r' {
                line.take(line.len() - 1)
            } else {
                line
            };
            &&& said.len() > 0
            &&& since matches Some(threshold) ==> (line_timestamp(said) matches Some(stamp)
                ==> !text::text_less(stamp, threshold@))
        }),
    ensures
        0 <= at < r.0@.len(),
        ({
            let line = text::split(content@, '\n')[i];
            r.0@[at]@ == if line.len() > 0 && line[line.len() - 1] == '\r' {
                line.take(line.len() - 1)
            } else {
                line
            }
        }),
{
    let threshold = match since {
        Some(threshold) => Some(threshold@),
        None => None,
    };
    let lines = text::split(content@, '\n');
    let line = lines[i];
    if line.len() > 0 && line.last() == '\r' {
        assert(line.drop_last() =~= line.take(line.len() - 1));
    }
    text::lemma_list(r.0);
    lemma_wanted_line(lines, threshold, i)
}

/// Every line of a tail stands in the log, is not empty, and is not older than wanted.
pub proof fn law_tail_is_of_the_log(
    content: &str,
    limit: usize,
    since: Option<&str>,
    r: (Vec<String>, bool),
    at: int,
) -> (i: int)
    requires
        call_ensures(log_tail, (content, limit, since), r),
        0 <= at < r.0@.len(),
    ensures
        0 <= i < text::split(content@, '\n').len(),
        r.0@[at]@.len() > 0,
        r.0@[at]@.is_prefix_of(text::split(content@, '\n')[i]),
        text::split(content@, '\n')[i].len() <= r.0@[at]@.len() + 1,
        since matches Some(threshold) ==> (line_timestamp(r.0@[at]@) matches Some(stamp)
            ==> !text::text_less(stamp, threshold@)),
{
    let threshold = match since {
        Some(threshold) => Some(threshold@),
        None => None,
    };
    let lines = text::split(content@, '\n');
    let wanted = wanted_lines(lines, threshold);
    text::lemma_list(r.0);
    let place = wanted.len() - r.0@.len() + at;
    assert(r.0.deep_view()[at] == wanted[place]);
    lemma_wanted_are_lines(lines, threshold, place)
}

/// The answer to a request for output holds the tail of each wanted stream, its output
/// before its errors, each line with whose it is, and nothing of a stream that is not
/// wanted.
pub proof fn law_answer_holds_the_wanted_streams(
    request: RunnerControlLogsRequest,
    since: Option<&str>,
    stdout: String,
    stderr: String,
    r: RunnerControlLogs,
    out: (Vec<String>, bool),
    err: (Vec<String>, bool),
    limit: usize,
    k: int,
)
    requires
        call_ensures(
            logs_answer,
            (&request, since, Some(GuestLogs { stdout: Some(stdout), stderr: Some(stderr) })),
            r,
        ),
        request.tail == Some(limit),
        exists|text: &str| text@ == stdout@ && call_ensures(log_tail, (text, limit, since), out),
        exists|text: &str| text@ == stderr@ && call_ensures(log_tail, (text, limit, since), err),
    ensures
        ({
            let outs = if request.stream == LogStream::Stderr {
                0
            } else {
                out.0@.len() as int
            };
            let errs = if request.stream == LogStream::Stdout {
                0
            } else {
                err.0@.len() as int
            };
            let name = match request.role {
                LogRole::Runtime => "oxydra-vm"@,
                LogRole::Sidecar => "shell-vm"@,
            };
            &&& r.entries@.len() == outs + errs
            &&& 0 <= k < r.entries@.len() ==> r.entries@[k].source@ == name
            &&& 0 <= k < outs ==> r.entries@[k].stream@ == "stdout"@ && r.entries@[k].message@
                == line_message(out.0@[k]@) && r.entries@[k].timestamp.deep_view()
                == line_timestamp(out.0@[k]@)
            &&& 0 <= k < errs ==> r.entries@[outs + k].stream@ == "stderr"@ && r.entries@[outs
                + k].message@ == line_message(err.0@[k]@) && r.entries@[outs
                + k].timestamp.deep_view() == line_timestamp(err.0@[k]@)
            &&& r.truncated <==> (request.stream != LogStream::Stderr && out.1 || request.stream
                != LogStream::Stdout && err.1)
            &&& r.warnings@.len() == 0
        }),
{
    text::lemma_list(out.0);
    text::lemma_list(err.0);
    assert(r.entries.deep_view().len() == r.entries@.len());
    assert forall|j: int| 0 <= j < r.entries@.len() implies r.entries.deep_view()[j]
        == (#[trigger] r.entries@[j]).deep_view() by {}
    let one = choose|text: &str|
        text@ == stdout@ && call_ensures(log_tail, (text, limit, since), out);
    let two = choose|text: &str|
        text@ == stderr@ && call_ensures(log_tail, (text, limit, since), err);
    assert(one@ == stdout@ && call_ensures(log_tail, (one, limit, since), out));
    assert(two@ == stderr@ && call_ensures(log_tail, (two, limit, since), err));
}

/// A guest that is not running has written nothing, which the answer says.
pub proof fn law_missing_guest_is_told(
    request: RunnerControlLogsRequest,
    since: Option<&str>,
    r: RunnerControlLogs,
)
    requires
        call_ensures(logs_answer, (&request, since, None), r),
    ensures
        r.entries@.len() == 0,
        !r.truncated,
        r.warnings@.len() == 1,
        text::stands_in(
            r.warnings@[0]@,
            match request.role {
                LogRole::Runtime => "oxydra-vm"@,
                LogRole::Sidecar => "shell-vm"@,
            },
        ),
{
    text::lemma_list(r.warnings);
    text::law_text_stands_between(
        "no logs: guest `"@,
        log_source(request.role).label(),
        "` is not running"@,
    );
}

} // verus!
