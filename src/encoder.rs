//! The structured log encoder: one JSON object per record, on one line.

use vstd::prelude::*;
use vstd::string::*;

use crate::flow::{mdc_get, FLOW_ID_KEY};
use crate::settings::LoggingMeta;
use crate::text::{
    digit_char, comma_join, comma_join_strings, decimal, decimal_string, lemma_comma_join_no_line_break,
    lemma_decimal_no_line_break, no_line_break, views,
};

verus! {

// ---------------------------------------------------------------------------
// Outside items
// ---------------------------------------------------------------------------

/// A lower-case hexadecimal digit.
pub open spec fn hex_digit(d: u32) -> char {
    if d < 10 {
        digit_char(d as int)
    } else if d == 10 {
        'a'
    } else if d == 11 {
        'b'
    } else if d == 12 {
        'c'
    } else if d == 13 {
        'd'
    } else if d == 14 {
        'e'
    } else {
        'f'
    }
}

/// One character inside a JSON string: quote, backslash and the control
/// characters escaped, the short forms where JSON has them.
pub open spec fn json_escape_char(c: char) -> Seq<char> {
    let n = c as u32;
    if c == '"' {
        seq!['\\', '"']
    } else if c == '\\' {
        seq!['\\', '\\']
    } else if n == 8 {
        seq!['\\', 'b']
    } else if n == 9 {
        seq!['\\', 't']
    } else if n == 10 {
        seq!['\\', 'n']
    } else if n == 12 {
        seq!['\\', 'f']
    } else if n == 13 {
        seq!['\\', 'r']
    } else if n < 0x20 {
        seq!['\\', 'u', '0', '0', hex_digit(n / 16), hex_digit(n % 16)]
    } else {
        seq![c]
    }
}

pub open spec fn json_escaped(s: Seq<char>) -> Seq<char>
    decreases s.len(),
{
    if s.len() == 0 {
        Seq::empty()
    } else {
        json_escape_char(s[0]) + json_escaped(s.drop_first())
    }
}

/// The JSON string literal of `s`, quotes and escapes included.
pub open spec fn json_string(s: Seq<char>) -> Seq<char> {
    seq!['"'] + json_escaped(s) + seq!['"']
}

proof fn lemma_escaped_no_line_break(s: Seq<char>)
    ensures
        no_line_break(json_escaped(s)),
    decreases s.len(),
{
    if s.len() > 0 {
        lemma_escaped_no_line_break(s.drop_first());
        let a = json_escape_char(s[0]);
        let b = json_escaped(s.drop_first());
        assert(no_line_break(a)) by {
            let n = s[0] as u32;
            if n < 0x20 && n != 8 && n != 9 && n != 10 && n != 12 && n != 13 {
                assert(hex_digit(n / 16) != '\n');
                assert(hex_digit(n % 16) != '\n');
            }
        }
        assert forall|i: int| 0 <= i < json_escaped(s).len() implies json_escaped(s)[i] != '\n' by {
            if i < a.len() {
                assert(json_escaped(s)[i] == a[i]);
            } else {
                assert(json_escaped(s)[i] == b[i - a.len()]);
            }
        }
    }
}

/// A JSON string literal holds no line break.
pub proof fn lemma_json_string_no_line_break(s: Seq<char>)
    ensures
        no_line_break(json_string(s)),
{
    lemma_escaped_no_line_break(s);
    let e = json_escaped(s);
    assert forall|i: int| 0 <= i < json_string(s).len() implies json_string(s)[i] != '\n' by {
        if 1 <= i < 1 + e.len() {
            assert(json_string(s)[i] == e[i - 1]);
        }
    }
}

/// The RFC 3339 text of a UTC time given as seconds and nanoseconds since
/// the Unix epoch, or `None` where that is no time.
pub uninterp spec fn rfc3339_text(secs: i64, nanos: u32) -> Option<Seq<char>>;

/// Relies on `serde_json::to_string` on a `str`: the string in quotes,
/// with serde_json's escapes (its `ESCAPE` table); it cannot fail on a `str`.
#[verifier::external_body]
fn json_quote(s: &str) -> (r: String)
    ensures
        r@ == json_string(s@),
{
    match serde_json::to_string(s) {
        Ok(text) => text,
        Err(_) => String::new(),
    }
}

/// Relies on chrono `DateTime::<Utc>::from_timestamp` and
/// `DateTime::to_rfc3339`. A time of the years 0 to 9999 with fewer than a
/// billion nanoseconds always converts.
#[verifier::external_body]
fn rfc3339(secs: i64, nanos: u32) -> (r: Option<String>)
    ensures
        match r {
            Some(t) => rfc3339_text(secs, nanos) == Some(t@),
            None => rfc3339_text(secs, nanos) is None,
        },
        -62167219200 <= secs <= 253402300799 && nanos < 1_000_000_000 ==> r is Some,
{
    match chrono::DateTime::<chrono::Utc>::from_timestamp(secs, nanos) {
        Some(t) => Some(t.to_rfc3339()),
        None => None,
    }
}

/// Relies on chrono `Utc::now`, read as seconds and nanoseconds.
#[verifier::external_body]
fn utc_now() -> Timestamp {
    let now = chrono::Utc::now();
    Timestamp { secs: now.timestamp(), nanos: now.timestamp_subsec_nanos() }
}

/// Relies on `thread_id::get`: a number for the calling thread.
#[verifier::external_body]
fn current_thread_id() -> u64 {
    thread_id::get() as u64
}

// ---------------------------------------------------------------------------
// Records
// ---------------------------------------------------------------------------

/// The severity of a record.
#[derive(Clone, Copy, Debug, PartialEq, Eq, Structural)]
pub enum Level {
    Error,
    Warn,
    Info,
    Debug,
    Trace,
}

pub open spec fn level_text(level: Level) -> Seq<char> {
    match level {
        Level::Error => "ERROR"@,
        Level::Warn => "WARN"@,
        Level::Info => "INFO"@,
        Level::Debug => "DEBUG"@,
        Level::Trace => "TRACE"@,
    }
}

impl Level {
    /// The upper-case name of the level.
    pub fn name(&self) -> (r: &'static str)
        ensures
            r@ == level_text(*self),
    {
        match self {
            Level::Error => "ERROR",
            Level::Warn => "WARN",
            Level::Info => "INFO",
            Level::Debug => "DEBUG",
            Level::Trace => "TRACE",
        }
    }
}

/// A UTC time: seconds and nanoseconds since the Unix epoch.
#[derive(Clone, Copy, Debug, PartialEq, Eq, Structural)]
pub struct Timestamp {
    pub secs: i64,
    pub nanos: u32,
}

/// What one log call holds, before encoding.
pub struct LogRecord {
    pub message: String,
    pub level: Level,
    pub logger_name: String,
    pub thread: Option<String>,
    pub thread_id: u64,
    pub flow_id: Option<String>,
}

/// A JSON value of a record field.
pub enum JsonValue {
    Text(Seq<char>),
    Number(nat),
}

pub open spec fn render_value(v: JsonValue) -> Seq<char> {
    match v {
        JsonValue::Text(s) => json_string(s),
        JsonValue::Number(n) => decimal(n),
    }
}

/// `"key":value`; keys hold nothing that needs an escape.
pub open spec fn render_member(m: (Seq<char>, JsonValue)) -> Seq<char> {
    seq!['"'] + m.0 + seq!['"', ':'] + render_value(m.1)
}

pub open spec fn render_object(members: Seq<(Seq<char>, JsonValue)>) -> Seq<char> {
    seq!['{'] + comma_join(members.map_values(|m: (Seq<char>, JsonValue)| render_member(m))) + seq!['}']
}

/// A text field where there is a value, and nothing where there is none.
pub open spec fn optional_member(key: Seq<char>, s: Option<String>) -> Seq<(Seq<char>, JsonValue)> {
    match s {
        Some(t) => seq![(key, JsonValue::Text(t@))],
        None => Seq::empty(),
    }
}

/// The fields of a record, in order; the thread name and the flow id only
/// where there is one.
pub open spec fn record_fields(meta: LoggingMeta, time: Seq<char>, r: LogRecord) -> Seq<(Seq<char>, JsonValue)> {
    seq![
        ("time"@, JsonValue::Text(time)),
        ("message"@, JsonValue::Text(r.message@)),
        ("level"@, JsonValue::Text(level_text(r.level))),
        ("logger_name"@, JsonValue::Text(r.logger_name@)),
    ] + optional_member("thread"@, r.thread) + seq![("thread_id"@, JsonValue::Number(r.thread_id as nat))]
        + optional_member(FLOW_ID_KEY@, r.flow_id) + seq![
        ("app"@, JsonValue::Text(meta.name@)),
        ("version"@, JsonValue::Text(meta.version@)),
        ("build_time"@, JsonValue::Text(meta.build_time@)),
    ]
}

/// The encoded record: its JSON object and a line break.
pub open spec fn log_line(meta: LoggingMeta, time: Seq<char>, r: LogRecord) -> Seq<char> {
    render_object(record_fields(meta, time, r)) + seq!['\n']
}

fn quoted(s: &str) -> (r: String)
    ensures
        r@ == json_string(s@),
        no_line_break(r@),
{
    let r = json_quote(s);
    proof {
        lemma_json_string_no_line_break(s@);
    }
    r
}

fn member(key: &str, value: String) -> (r: String)
    ensures
        r@ == seq!['"'] + key@ + seq!['"', ':'] + value@,
        no_line_break(key@) && no_line_break(value@) ==> no_line_break(r@),
{
    proof {
        reveal_strlit("\"");
        reveal_strlit("\":");
    }
    let mut m = String::from_str("\"");
    m.append(key);
    m.append("\":");
    m.append(value.as_str());
    proof {
        if no_line_break(key@) && no_line_break(value@) {
            let a = seq!['"'];
            let b = seq!['"', ':'];
            assert forall|i: int| 0 <= i < m@.len() implies m@[i] != '\n' by {
                if i < 1 {
                    assert(m@[i] == a[i]);
                } else if i < 1 + key@.len() {
                    assert(m@[i] == key@[i - 1]);
                } else if i < 3 + key@.len() {
                    assert(m@[i] == b[i - 1 - key@.len()]);
                } else {
                    assert(m@[i] == value@[i - 3 - key@.len()]);
                }
            }
        }
    }
    m
}

/// The configuration of the JSON encoder; it has no options.
#[derive(Clone, Copy, PartialEq, Eq, Hash, Debug, Default)]
pub struct JsonEncoderConfig {}

/// Writes each log record as one JSON object on one line.
#[derive(Clone, Debug)]
pub struct JsonEncoder {
    logging_meta: LoggingMeta,
}

impl JsonEncoder {
    /// The service metadata written into every record.
    pub closed spec fn meta(&self) -> LoggingMeta {
        self.logging_meta
    }

    pub fn new(logging_meta: LoggingMeta) -> (r: JsonEncoder)
        ensures
            r.meta() == logging_meta,
    {
        JsonEncoder { logging_meta }
    }

    /// The line of `record` at the time written `time`.
    pub fn encode_record(&self, time: &str, record: &LogRecord) -> (r: String)
        ensures
            r@ == log_line(self.meta(), time@, *record),
            r@.len() > 0,
            r@.last() == '\n',
            no_line_break(r@.drop_last()),
    {
        proof {
            reveal_strlit("time");
            reveal_strlit("message");
            reveal_strlit("level");
            reveal_strlit("logger_name");
            reveal_strlit("thread");
            reveal_strlit("thread_id");
            reveal_strlit("flow-id");
            reveal_strlit("app");
            reveal_strlit("version");
            reveal_strlit("build_time");
            lemma_decimal_no_line_break(record.thread_id as nat);
        }
        let ghost fields = record_fields(self.logging_meta, time@, *record);
        let ghost rendered = fields.map_values(|m: (Seq<char>, JsonValue)| render_member(m));
        let mut parts: Vec<String> = Vec::new();
        parts.push(member("time", quoted(time)));
        parts.push(member("message", quoted(record.message.as_str())));
        parts.push(member("level", quoted(record.level.name())));
        parts.push(member("logger_name", quoted(record.logger_name.as_str())));
        match &record.thread {
            Some(name) => {
                parts.push(member("thread", quoted(name.as_str())));
            },
            None => {},
        }
        parts.push(member("thread_id", decimal_string(record.thread_id)));
        match &record.flow_id {
            Some(id) => {
                parts.push(member(FLOW_ID_KEY, quoted(id.as_str())));
            },
            None => {},
        }
        parts.push(member("app", quoted(self.logging_meta.name.as_str())));
        parts.push(member("version", quoted(self.logging_meta.version.as_str())));
        parts.push(member("build_time", quoted(self.logging_meta.build_time.as_str())));
        proof {
            assert(views(parts@) =~= rendered);
        }
        let body = comma_join_strings(&parts);
        proof {
            reveal_strlit("{");
            reveal_strlit("}\n");
            assert forall|i: int| 0 <= i < views(parts@).len() implies no_line_break(
                #[trigger] views(parts@)[i],
            ) by {}
            lemma_comma_join_no_line_break(views(parts@));
        }
        let mut out = String::from_str("{");
        out.append(body.as_str());
        out.append("}\n");
        proof {
            let inner = out@.drop_last();
            assert(inner =~= seq!['{'] + body@ + seq!['}']);
            assert forall|i: int| 0 <= i < inner.len() implies inner[i] != '\n' by {
                if 1 <= i < 1 + body@.len() {
                    assert(inner[i] == body@[i - 1]);
                }
            }
        }
        out
    }

    /// The line of `record` at `time`, or `None` where `time` is no time
    /// that can be written.
    pub fn encode_inner(&self, time: Timestamp, record: &LogRecord) -> (r: Option<String>)
        ensures
            match r {
                Some(line) => rfc3339_text(time.secs, time.nanos) matches Some(t) && line@ == log_line(
                    self.meta(),
                    t,
                    *record,
                ) && line@.len() > 0 && line@.last() == '\n' && no_line_break(line@.drop_last()),
                None => rfc3339_text(time.secs, time.nanos) is None,
            },
            -62167219200 <= time.secs <= 253402300799 && time.nanos < 1_000_000_000 ==> r is Some,
    {
        match rfc3339(time.secs, time.nanos) {
            Some(t) => Some(self.encode_record(t.as_str(), record)),
            None => None,
        }
    }

    /// Encodes a record made now on the calling thread, with the flow id the
    /// thread's diagnostic context holds, if any.
    pub fn encode(&self, level: Level, logger_name: &str, message: &str, thread: Option<String>) -> (r: Option<String>)
        ensures
            r matches Some(line) ==> exists|time: Seq<char>, record: LogRecord|
                line@ == log_line(self.meta(), time, record) && record.level == level
                    && record.logger_name@ == logger_name@ && record.message@ == message@
                    && record.thread == thread,
    {
        let record = LogRecord {
            message: String::from_str(message),
            level,
            logger_name: String::from_str(logger_name),
            thread,
            thread_id: current_thread_id(),
            flow_id: mdc_get(FLOW_ID_KEY),
        };
        let now = utc_now();
        let r = self.encode_inner(now, &record);
        proof {
            if r is Some {
                let t = rfc3339_text(now.secs, now.nanos).unwrap();
                assert(r.unwrap()@ == log_line(self.meta(), t, record));
            }
        }
        r
    }
}

/// Makes JSON encoders that carry the service metadata.
#[derive(Clone, Debug)]
pub struct CustomJsonEncoderDeserializer {
    logging_meta: LoggingMeta,
}

impl CustomJsonEncoderDeserializer {
    pub closed spec fn meta(&self) -> LoggingMeta {
        self.logging_meta
    }

    pub fn new(service_name: LoggingMeta) -> (r: CustomJsonEncoderDeserializer)
        ensures
            r.meta() == service_name,
    {
        CustomJsonEncoderDeserializer { logging_meta: service_name }
    }

    /// An encoder with this metadata; the configuration has no options.
    pub fn deserialize(&self, _config: JsonEncoderConfig) -> (r: JsonEncoder)
        ensures
            r.meta() == self.meta(),
    {
        JsonEncoder::new(self.logging_meta.duplicate())
    }
}

/// The keys of a record's fields, in order.
pub open spec fn record_keys(meta: LoggingMeta, time: Seq<char>, r: LogRecord) -> Seq<Seq<char>> {
    record_fields(meta, time, r).map_values(|m: (Seq<char>, JsonValue)| m.0)
}

/// The key of a field that is there only with a value.
pub open spec fn optional_key(key: Seq<char>, present: bool) -> Seq<Seq<char>> {
    if present {
        seq![key]
    } else {
        Seq::empty()
    }
}

/// A record has exactly these keys, in this order: `thread` only with a
/// thread name, `flow-id` only with a flow id, and no other.
pub proof fn lemma_field_order(meta: LoggingMeta, time: Seq<char>, r: LogRecord)
    ensures
        record_keys(meta, time, r) == seq!["time"@, "message"@, "level"@, "logger_name"@]
            + optional_key("thread"@, r.thread is Some) + seq!["thread_id"@]
            + optional_key(FLOW_ID_KEY@, r.flow_id is Some) + seq!["app"@, "version"@, "build_time"@],
        r.thread is None && r.flow_id is None ==> record_keys(meta, time, r) == seq![
            "time"@,
            "message"@,
            "level"@,
            "logger_name"@,
            "thread_id"@,
            "app"@,
            "version"@,
            "build_time"@,
        ],
        r.thread is Some && r.flow_id is None ==> record_keys(meta, time, r) == seq![
            "time"@,
            "message"@,
            "level"@,
            "logger_name"@,
            "thread"@,
            "thread_id"@,
            "app"@,
            "version"@,
            "build_time"@,
        ],
{
    assert(record_keys(meta, time, r) =~= seq!["time"@, "message"@, "level"@, "logger_name"@]
        + optional_key("thread"@, r.thread is Some) + seq!["thread_id"@]
        + optional_key(FLOW_ID_KEY@, r.flow_id is Some) + seq!["app"@, "version"@, "build_time"@]);
    if r.thread is None && r.flow_id is None {
        assert(record_keys(meta, time, r) =~= seq![
            "time"@,
            "message"@,
            "level"@,
            "logger_name"@,
            "thread_id"@,
            "app"@,
            "version"@,
            "build_time"@,
        ]);
    }
    if r.thread is Some && r.flow_id is None {
        assert(record_keys(meta, time, r) =~= seq![
            "time"@,
            "message"@,
            "level"@,
            "logger_name"@,
            "thread"@,
            "thread_id"@,
            "app"@,
            "version"@,
            "build_time"@,
        ]);
    }
}

/// A record without a thread name has no `thread` field at all.
pub proof fn lemma_thread_field(meta: LoggingMeta, time: Seq<char>, r: LogRecord)
    ensures
        r.thread is Some ==> record_fields(meta, time, r).contains(
            ("thread"@, JsonValue::Text(r.thread.unwrap()@)),
        ),
        r.thread is None ==> forall|i: int|
            0 <= i < record_fields(meta, time, r).len() ==> #[trigger] record_fields(meta, time, r)[i].0
                != "thread"@,
{
    reveal_strlit("time");
    reveal_strlit("message");
    reveal_strlit("level");
    reveal_strlit("logger_name");
    reveal_strlit("thread");
    reveal_strlit("thread_id");
    reveal_strlit("flow-id");
    reveal_strlit("app");
    reveal_strlit("version");
    reveal_strlit("build_time");
    assert(FLOW_ID_KEY@ == "flow-id"@);
    let fields = record_fields(meta, time, r);
    if r.thread is Some {
        assert(fields[4] == ("thread"@, JsonValue::Text(r.thread.unwrap()@)));
    } else {
        assert forall|i: int| 0 <= i < fields.len() implies #[trigger] fields[i].0 != "thread"@ by {
            if i == 4 {
                assert(fields[i].0 == "thread_id"@ || fields[i].0 == FLOW_ID_KEY@);
                assert(fields[i].0.len() != 6);
            } else {
                assert(fields[i].0.len() != 6 || fields[i].0[0] != 't');
            }
        }
    }
}

/// A record with a flow id has the field `"flow-id"` with that id; a record
/// without one has no field of that key at all.
pub proof fn lemma_flow_id_field(meta: LoggingMeta, time: Seq<char>, r: LogRecord)
    ensures
        r.flow_id matches Some(id) ==> record_fields(meta, time, r).contains(
            (FLOW_ID_KEY@, JsonValue::Text(id@)),
        ),
        r.flow_id is None ==> forall|i: int|
            0 <= i < record_fields(meta, time, r).len() ==> #[trigger] record_fields(meta, time, r)[i].0
                != FLOW_ID_KEY@,
{
    reveal_strlit("time");
    reveal_strlit("message");
    reveal_strlit("level");
    reveal_strlit("logger_name");
    reveal_strlit("thread");
    reveal_strlit("thread_id");
    reveal_strlit("flow-id");
    reveal_strlit("app");
    reveal_strlit("version");
    reveal_strlit("build_time");
    let fields = record_fields(meta, time, r);
    let at: int = if r.thread is Some { 6 } else { 5 };
    if r.flow_id is Some {
        assert(fields[at] == (FLOW_ID_KEY@, JsonValue::Text(r.flow_id.unwrap()@)));
    } else {
        assert(FLOW_ID_KEY@ == "flow-id"@);
        assert(FLOW_ID_KEY@[0] == 'f');
        assert forall|i: int| 0 <= i < fields.len() implies #[trigger] fields[i].0 != FLOW_ID_KEY@ by {
            assert(fields[i].0[0] != 'f');
        }
    }
}

} // verus!
