//! The daemon's logging rules: tracing settings and their filter
//! directives, the in-memory ring buffer of recent log lines served over
//! ALME, and the text of one buffered log line.
use vstd::prelude::*;

use std::collections::VecDeque;

use time::{OffsetDateTime, UtcOffset};

use crate::arcella_types::alme::texts_view;
use crate::text::same_text;

verus! {

/// A log level filter.
#[derive(Debug, Clone, Copy, PartialEq, Eq)]
pub enum LogLevel {
    Off,
    Error,
    Warn,
    Info,
    Debug,
    Trace,
}

/// The name of a level filter, as a filter directive writes it.
pub open spec fn level_text(l: LogLevel) -> Seq<char> {
    match l {
        LogLevel::Off => "off"@,
        LogLevel::Error => "error"@,
        LogLevel::Warn => "warn"@,
        LogLevel::Info => "info"@,
        LogLevel::Debug => "debug"@,
        LogLevel::Trace => "trace"@,
    }
}

impl LogLevel {
    /// The name of the level, as `tracing`'s `LevelFilter` displays it.
    pub fn as_str(&self) -> (r: &'static str)
        ensures
            r@ == level_text(*self),
    {
        match self {
            LogLevel::Off => "off",
            LogLevel::Error => "error",
            LogLevel::Warn => "warn",
            LogLevel::Info => "info",
            LogLevel::Debug => "debug",
            LogLevel::Trace => "trace",
        }
    }
}

/// The tracing settings, read from the `arcella.log` configuration subtree.
#[derive(Debug, Clone, PartialEq, Eq)]
pub struct TracingConfig {
    /// Level for targets under the `arcella` namespace.
    pub default_level: LogLevel,
    /// JSON-encoded lines in the log file.
    pub structured: bool,
    /// Log directory, relative to the base directory.
    pub dir: String,
    /// Also log to standard error.
    pub stderr: bool,
    /// Write the `arcella.log` file.
    pub file: bool,
    /// Size of the in-memory buffer served over ALME (0 disables it).
    pub alme_buffer_size: usize,
    /// Per-target levels overriding `default_level`.
    pub internal: Vec<(String, LogLevel)>,
}

/// The default level: `info`.
pub fn default_log_level() -> (r: LogLevel)
    ensures
        r == LogLevel::Info,
{
    LogLevel::Info
}

/// By default the file log is plain text.
pub fn default_structured() -> (r: bool)
    ensures
        !r,
{
    false
}

/// By default logs also go to standard error.
pub fn default_stderr() -> (r: bool)
    ensures
        r,
{
    true
}

/// By default the log file is written.
pub fn default_file() -> (r: bool)
    ensures
        r,
{
    true
}

/// By default the ALME buffer keeps 100 lines.
pub fn default_alme_buffer_size() -> (r: usize)
    ensures
        r == 100,
{
    100
}

/// The default log directory: `dir`.
pub fn default_dir() -> (r: String)
    ensures
        r@ == "dir"@,
{
    "dir".to_string()
}

impl Default for TracingConfig {
    fn default() -> (r: Self)
        ensures
            r.default_level == LogLevel::Info,
            !r.structured,
            r.dir@ == "dir"@,
            r.stderr,
            r.file,
            r.alme_buffer_size == 100,
            r.internal@.len() == 0,
    {
        TracingConfig {
            default_level: default_log_level(),
            structured: default_structured(),
            dir: default_dir(),
            stderr: default_stderr(),
            file: default_file(),
            alme_buffer_size: default_alme_buffer_size(),
            internal: Vec::new(),
        }
    }
}

/// One filter directive `target=level`.
pub open spec fn directive(target: Seq<char>, level: LogLevel) -> Seq<char> {
    target + "="@ + level_text(level)
}

/// The directives of the per-target levels, each preceded by a comma.
pub open spec fn target_directives(internal: Seq<(String, LogLevel)>) -> Seq<char>
    decreases internal.len(),
{
    if internal.len() == 0 {
        Seq::empty()
    } else {
        target_directives(internal.drop_last()) + ","@ + directive(
            internal.last().0@,
            internal.last().1,
        )
    }
}

/// The filter of a tracing configuration: `arcella=<default level>`, then
/// one directive per target level, comma-separated.
pub open spec fn spec_filter(cfg: TracingConfig) -> Seq<char> {
    directive("arcella"@, cfg.default_level) + target_directives(cfg.internal@)
}

/// Appends `target=level` to `s`.
fn push_directive(s: &mut String, target: &str, level: LogLevel)
    ensures
        final(s)@ == old(s)@ + directive(target@, level),
{
    s.append(target);
    s.append("=");
    s.append(level.as_str());
    proof {
        reveal_strlit("=");
    }
    assert(final(s)@ =~= old(s)@ + directive(target@, level));
}

/// The filter directives of `cfg`, as the `EnvFilter` of the daemon reads
/// them.
pub fn filter_directives(cfg: &TracingConfig) -> (r: String)
    ensures
        r@ == spec_filter(*cfg),
{
    let mut r = String::new();
    push_directive(&mut r, "arcella", cfg.default_level);
    let ghost head = r@;
    let mut i: usize = 0;
    while i < cfg.internal.len()
        invariant
            0 <= i <= cfg.internal.len(),
            r@ == head + target_directives(cfg.internal@.take(i as int)),
            head == directive("arcella"@, cfg.default_level),
        decreases cfg.internal.len() - i,
    {
        assert(cfg.internal@.take(i + 1).drop_last() =~= cfg.internal@.take(i as int));
        r.append(",");
        proof {
            reveal_strlit(",");
        }
        push_directive(&mut r, cfg.internal[i].0.as_str(), cfg.internal[i].1);
        assert(r@ =~= head + target_directives(cfg.internal@.take(i + 1)));
        i += 1;
    }
    assert(cfg.internal@.take(cfg.internal.len() as int) =~= cfg.internal@);
    r
}

/// The tracing layer that feeds the in-memory buffer.
#[derive(Debug, Clone, Copy, PartialEq, Eq)]
pub struct AlmeBufferLayer {
    pub max_size: usize,
}

impl AlmeBufferLayer {
    /// A layer for a buffer of `max_size` lines.
    pub fn new(max_size: usize) -> (r: Self)
        ensures
            r.max_size == max_size,
    {
        AlmeBufferLayer { max_size }
    }
}

/// The lines after `line` is buffered in a buffer of `max_size` lines: the
/// oldest line leaves first when the buffer is full.
pub open spec fn lines_after_push(lines: Seq<String>, line: String, max_size: usize) -> Seq<String> {
    if lines.len() >= max_size && lines.len() > 0 {
        lines.drop_first().push(line)
    } else {
        lines.push(line)
    }
}

/// The `n` most recent of `lines`, most recent first.
pub open spec fn recent_lines(lines: Seq<String>, n: nat) -> Seq<String> {
    let k = if n < lines.len() { n as int } else { lines.len() as int };
    Seq::new(k as nat, |i: int| lines[lines.len() - 1 - i])
}

/// The in-memory ring buffer of recent log lines.
#[derive(Debug)]
pub struct LogBuffer {
    max_size: usize,
    lines: VecDeque<String>,
}

impl LogBuffer {
    /// The buffered lines, oldest first.
    pub closed spec fn lines(&self) -> Seq<String> {
        self.lines@
    }

    /// The capacity of the buffer.
    pub closed spec fn capacity(&self) -> usize {
        self.max_size
    }

    /// A buffer never holds more lines than its capacity (when it has one).
    pub closed spec fn wf(&self) -> bool {
        self.max_size > 0 ==> self.lines@.len() <= self.max_size
    }

    /// An empty buffer for `max_size` lines.
    pub fn new(max_size: usize) -> (r: Self)
        ensures
            r.lines().len() == 0,
            r.capacity() == max_size,
            r.wf(),
    {
        LogBuffer { max_size, lines: VecDeque::with_capacity(max_size) }
    }

    /// Appends `line`, dropping the oldest line when the buffer is full.
    pub fn push(&mut self, line: String)
        ensures
            final(self).lines() == lines_after_push(old(self).lines(), line, old(self).capacity()),
            final(self).capacity() == old(self).capacity(),
            old(self).wf() ==> final(self).wf(),
    {
        if self.lines.len() >= self.max_size {
            let _ = self.lines.pop_front();
        }
        self.lines.push_back(line);
        proof {
            if old(self).lines@.len() >= old(self).max_size && old(self).lines@.len() > 0 {
                assert(old(self).lines@.subrange(1, old(self).lines@.len() as int)
                    =~= old(self).lines@.drop_first());
            }
        }
    }

    /// The number of buffered lines.
    pub fn len(&self) -> (r: usize)
        ensures
            r == self.lines().len(),
    {
        self.lines.len()
    }

    /// Up to `n` of the most recent lines, most recent first.
    pub fn recent(&self, n: usize) -> (r: Vec<String>)
        ensures
            r@ == recent_lines(self.lines(), n as nat),
    {
        let len = self.lines.len();
        let k = if n < len { n } else { len };
        let mut r: Vec<String> = Vec::new();
        let mut i: usize = 0;
        while i < k
            invariant
                0 <= i <= k,
                k <= len,
                len == self.lines@.len(),
                k == (if n < len { n } else { len }),
                r@.len() == i,
                forall|j: int| 0 <= j < i ==> r@[j] == self.lines@[len - 1 - j],
            decreases k - i,
        {
            let line = self.lines[len - 1 - i].clone();
            r.push(line);
            i += 1;
        }
        assert(r@ =~= recent_lines(self.lines(), n as nat));
        r
    }
}

/// A full buffer keeps its size: each new line evicts the oldest.
pub proof fn law_buffer_bounded(lines: Seq<String>, line: String, max_size: usize)
    requires
        max_size > 0,
        lines.len() <= max_size,
    ensures
        lines_after_push(lines, line, max_size).len() <= max_size,
        lines.len() == max_size ==> lines_after_push(lines, line, max_size).len() == max_size,
{
}

/// The most recent line is the one just pushed, and the lines before it
/// keep their order.
pub proof fn law_recent_after_push(lines: Seq<String>, line: String, max_size: usize, n: nat)
    requires
        n > 0,
    ensures
        recent_lines(lines_after_push(lines, line, max_size), n)[0] == line,
        forall|i: int|
            1 <= i < recent_lines(lines_after_push(lines, line, max_size), n).len() ==> #[trigger] recent_lines(
                lines_after_push(lines, line, max_size),
                n,
            )[i] == recent_lines(lines, n)[i - 1],
{
    let after = lines_after_push(lines, line, max_size);
    assert(after.len() >= 1);
    assert(after[after.len() - 1] == line);
    assert forall|i: int|
        1 <= i < recent_lines(after, n).len() implies #[trigger] recent_lines(after, n)[i]
        == recent_lines(lines, n)[i - 1] by {
        assert(after[after.len() - 1 - i] == lines[lines.len() - 1 - (i - 1)]);
    }
}

/// The message and fields of one event, as a field visitor collects them.
#[derive(Debug, Clone, PartialEq, Eq)]
pub struct EventVisitor {
    pub message: String,
    pub fields: Vec<String>,
}

impl EventVisitor {
    /// A visitor that has seen nothing.
    pub fn new() -> (r: Self)
        ensures
            r.message@.len() == 0,
            r.fields@.len() == 0,
    {
        EventVisitor { message: String::new(), fields: Vec::new() }
    }

    /// Records the field `name` with the text `value`: the field `message`
    /// becomes the message; any other is kept as `name=value`.
    pub fn record_str(&mut self, name: &str, value: &str)
        ensures
            name@ == "message"@ ==> final(self).message@ == value@ && final(self).fields
                == old(self).fields,
            name@ != "message"@ ==> final(self).message == old(self).message && texts_view(
                final(self).fields@,
            ) == texts_view(old(self).fields@).push(name@ + "="@ + value@),
    {
        if same_text(name, "message") {
            self.message = value.to_string();
        } else {
            let mut f = String::from_str(name);
            f.append("=");
            f.append(value);
            proof {
                reveal_strlit("=");
            }
            self.fields.push(f);
            assert(texts_view(self.fields@) =~= texts_view(old(self).fields@).push(
                name@ + "="@ + value@,
            ));
        }
    }

    /// Records a field whose value is shown by its debug text `value`; the
    /// same rule as [`EventVisitor::record_str`].
    pub fn record_debug(&mut self, name: &str, value: &str)
        ensures
            name@ == "message"@ ==> final(self).message@ == value@ && final(self).fields
                == old(self).fields,
            name@ != "message"@ ==> final(self).message == old(self).message && texts_view(
                final(self).fields@,
            ) == texts_view(old(self).fields@).push(name@ + "="@ + value@),
    {
        self.record_str(name, value)
    }
}

/// The texts of `fields` joined by `, `.
pub open spec fn joined(fields: Seq<Seq<char>>) -> Seq<char>
    decreases fields.len(),
{
    if fields.len() == 0 {
        Seq::empty()
    } else if fields.len() == 1 {
        fields[0]
    } else {
        joined(fields.drop_last()) + ", "@ + fields.last()
    }
}

/// The buffered text of an event: `<time> <level> <target>: <message>`,
/// the message being `no message` when empty, then ` {<fields>}` when
/// there are fields.
pub open spec fn event_line(
    timestamp: Seq<char>,
    level: Seq<char>,
    target: Seq<char>,
    message: Seq<char>,
    fields: Seq<Seq<char>>,
) -> Seq<char> {
    let m = if message.len() == 0 { "no message"@ } else { message };
    let f = if fields.len() == 0 { Seq::empty() } else { " {"@ + joined(fields) + "}"@ };
    timestamp + " "@ + level + " "@ + target + ": "@ + m + f
}

/// The fields joined by `, `.
fn join_fields(fields: &Vec<String>) -> (r: String)
    ensures
        r@ == joined(texts_view(fields@)),
{
    let mut r = String::new();
    let mut i: usize = 0;
    while i < fields.len()
        invariant
            0 <= i <= fields.len(),
            r@ == joined(texts_view(fields@.take(i as int))),
        decreases fields.len() - i,
    {
        assert(texts_view(fields@.take(i + 1)).drop_last() =~= texts_view(fields@.take(i as int)));
        if i > 0 {
            r.append(", ");
            proof {
                reveal_strlit(", ");
            }
        }
        r.append(fields[i].as_str());
        proof {
            if i == 0 {
                assert(texts_view(fields@.take(1)) =~= seq![fields@[0]@]);
            }
        }
        assert(r@ =~= joined(texts_view(fields@.take(i + 1))));
        i += 1;
    }
    assert(fields@.take(fields.len() as int) =~= fields@);
    r
}

/// The buffered text of an event; see [`event_line`].
pub fn format_event_line(timestamp: &str, level: &str, target: &str, visitor: &EventVisitor) -> (r:
    String)
    ensures
        r@ == event_line(
            timestamp@,
            level@,
            target@,
            visitor.message@,
            texts_view(visitor.fields@),
        ),
{
    let mut r = String::from_str(timestamp);
    r.append(" ");
    r.append(level);
    r.append(" ");
    r.append(target);
    r.append(": ");
    if visitor.message.unicode_len() == 0 {
        r.append("no message");
    } else {
        r.append(visitor.message.as_str());
    }
    if visitor.fields.len() > 0 {
        r.append(" {");
        let j = join_fields(&visitor.fields);
        r.append(j.as_str());
        r.append("}");
    }
    proof {
        reveal_strlit(" ");
        reveal_strlit(": ");
        reveal_strlit("no message");
        reveal_strlit(" {");
        reveal_strlit("}");
    }
    assert(r@ =~= event_line(
        timestamp@,
        level@,
        target@,
        visitor.message@,
        texts_view(visitor.fields@),
    ));
    r
}

/// An ASCII decimal digit.
pub open spec fn ascii_digit(c: char) -> bool {
    '0' <= c && c <= '9'
}

/// An RFC 3339 offset: `Z`, or a sign and `HH:MM`.
pub open spec fn rfc3339_offset(t: Seq<char>) -> bool {
    ||| t == seq!['Z']
    ||| (t.len() == 6 && (t[0] == '+' || t[0] == '-') && ascii_digit(t[1]) && ascii_digit(t[2])
        && t[3] == ':' && ascii_digit(t[4]) && ascii_digit(t[5]))
}

/// What follows the seconds: an optional fraction of 1 to 9 digits after a
/// `.`, then the offset.
pub open spec fn rfc3339_tail(t: Seq<char>) -> bool {
    ||| rfc3339_offset(t)
    ||| (t.len() > 0 && t[0] == '.' && exists|k: int|
        1 <= k <= 9 && k < t.len() && (forall|j: int| 1 <= j <= k ==> ascii_digit(#[trigger] t[j]))
            && rfc3339_offset(#[trigger] t.skip(k + 1)))
}

/// RFC 3339 date-time text as the `time` crate writes it:
/// `YYYY-MM-DDTHH:MM:SS`, then [`rfc3339_tail`].
pub open spec fn rfc3339_text(s: Seq<char>) -> bool {
    &&& s.len() >= 20
    &&& forall|i: int|
        0 <= i < 19 && i != 4 && i != 7 && i != 10 && i != 13 && i != 16 ==> ascii_digit(
            #[trigger] s[i],
        )
    &&& s[4] == '-' && s[7] == '-' && s[10] == 'T' && s[13] == ':' && s[16] == ':'
    &&& rfc3339_tail(s.skip(19))
}

/// What the `time` crate writes, as RFC 3339 text, for the instant
/// `unix_nanos` nanoseconds after the Unix epoch seen at the UTC offset of
/// `offset_secs` seconds; none where it builds or formats no such instant.
pub uninterp spec fn spec_rfc3339(unix_nanos: i128, offset_secs: i32) -> Option<Seq<char>>;

/// The view of an optional string.
pub open spec fn opt_text(o: Option<String>) -> Option<Seq<char>> {
    match o {
        Some(s) => Some(s@),
        None => None,
    }
}

/// Formats an instant as RFC 3339 text: the instant is built with
/// `OffsetDateTime::from_unix_timestamp_nanos`, moved to the offset built
/// by `UtcOffset::from_whole_seconds` with `checked_to_offset`, and written
/// with `OffsetDateTime::format`.
///
/// Claimed of the crate: the outcome is a function of the two numbers, and
/// a text that comes back has the shape [`rfc3339_text`] (four-digit year,
/// two-digit month, day, hour, minute and second, an optional fraction of
/// up to nine digits, then `Z` or a `±HH:MM` offset), as its formatting
/// source writes it. Which date the text shows is named, not stated.
#[verifier::external_body]
fn format_rfc3339(unix_nanos: i128, offset_secs: i32) -> (r: Option<String>)
    ensures
        opt_text(r) == spec_rfc3339(unix_nanos, offset_secs),
        r matches Some(s) ==> rfc3339_text(s@),
{
    let offset = UtcOffset::from_whole_seconds(offset_secs).ok()?;
    let t = OffsetDateTime::from_unix_timestamp_nanos(unix_nanos).ok()?.checked_to_offset(offset)?;
    t.format(&time::format_description::well_known::Rfc3339).ok()
}

/// The timestamp a buffered line shows for an instant: its RFC 3339 text,
/// or `<invalid-timestamp>` where there is none.
pub open spec fn stamp_text(unix_nanos: i128, offset_secs: i32) -> Seq<char> {
    match spec_rfc3339(unix_nanos, offset_secs) {
        Some(s) => s,
        None => "<invalid-timestamp>"@,
    }
}

/// The instant `unix_nanos` nanoseconds after the Unix epoch, at the UTC
/// offset of `offset_secs` seconds, as RFC 3339 text, or
/// `<invalid-timestamp>` when it cannot be formatted.
pub fn timestamp_text(unix_nanos: i128, offset_secs: i32) -> (r: String)
    ensures
        r@ == stamp_text(unix_nanos, offset_secs),
        rfc3339_text(r@) || r@ == "<invalid-timestamp>"@,
{
    match format_rfc3339(unix_nanos, offset_secs) {
        Some(s) => s,
        None => "<invalid-timestamp>".to_string(),
    }
}

/// Buffers one event, stamped with the instant `unix_nanos` nanoseconds
/// after the Unix epoch at the UTC offset of `offset_secs` seconds (the
/// caller reads the clock).
pub fn record_event(
    buffer: &mut LogBuffer,
    unix_nanos: i128,
    offset_secs: i32,
    level: &str,
    target: &str,
    visitor: &EventVisitor,
)
    ensures
        exists|line: String|
            #![trigger lines_after_push(old(buffer).lines(), line, old(buffer).capacity())]
            final(buffer).lines() == lines_after_push(
                old(buffer).lines(),
                line,
                old(buffer).capacity(),
            ) && line@ == event_line(
                stamp_text(unix_nanos, offset_secs),
                level@,
                target@,
                visitor.message@,
                texts_view(visitor.fields@),
            ),
        final(buffer).capacity() == old(buffer).capacity(),
        old(buffer).wf() ==> final(buffer).wf(),
{
    let ts = timestamp_text(unix_nanos, offset_secs);
    let line = format_event_line(ts.as_str(), level, target, visitor);
    let ghost l = line;
    buffer.push(line);
    assert(final(buffer).lines() == lines_after_push(old(buffer).lines(), l, old(buffer).capacity()));
}

} // verus!
