//! Flow contexts: the correlation id of a request, carried into logging.

use vstd::prelude::*;
use vstd::string::*;

use crate::encoder::Level;

verus! {

/// The key of the flow id, in records and in the diagnostic context.
pub const FLOW_ID_KEY: &'static str = "flow-id";

pub open spec fn is_lower_hex(c: char) -> bool {
    ('0' <= c <= '9') || ('a' <= c <= 'f')
}

/// A UUID written in its hyphenated, lower-case form.
pub open spec fn is_uuid_text(s: Seq<char>) -> bool {
    &&& s.len() == 36
    &&& forall|i: int|
        0 <= i < 36 ==> if i == 8 || i == 13 || i == 18 || i == 23 {
            #[trigger] s[i] == '-'
        } else {
            is_lower_hex(s[i])
        }
}

/// A random (version 4, RFC 4122 variant) UUID in its hyphenated form.
pub open spec fn is_uuid_v4_text(s: Seq<char>) -> bool {
    &&& is_uuid_text(s)
    &&& s[14] == '4'
    &&& (s[19] == '8' || s[19] == '9' || s[19] == 'a' || s[19] == 'b')
}

/// Relies on `uuid::Uuid::new_v4` and its `Display`, which writes the
/// hyphenated lower-case form. The value is random; its version digit is
/// `4` and its variant digit one of `8`, `9`, `a`, `b`.
#[verifier::external_body]
fn fresh_flow_id() -> (r: String)
    ensures
        is_uuid_v4_text(r@),
{
    uuid::Uuid::new_v4().to_string()
}

/// Relies on `log_mdc::insert`: sets `key` in the calling thread's
/// diagnostic context and hands back the value it replaced.
#[verifier::external_body]
fn mdc_insert(key: &str, value: &str) -> Option<String> {
    log_mdc::insert(key, value)
}

/// Relies on `log_mdc::remove`: clears `key` in the calling thread's
/// diagnostic context.
#[verifier::external_body]
fn mdc_remove(key: &str) -> Option<String> {
    log_mdc::remove(key)
}

/// Relies on `log_mdc::get`: the value the calling thread's diagnostic
/// context holds for `key`.
#[verifier::external_body]
pub(crate) fn mdc_get(key: &str) -> Option<String> {
    log_mdc::get(key, |v| v.map(|s| s.to_string()))
}

/// The flow id that a candidate leads to: the candidate itself where it is
/// present and not empty, else a freshly made UUID.
pub open spec fn flow_id_for(candidate: Option<Seq<char>>, id: Seq<char>) -> bool {
    match candidate {
        Some(c) => if c.len() > 0 {
            id == c
        } else {
            is_uuid_v4_text(id)
        },
        None => is_uuid_v4_text(id),
    }
}

/// The correlation id of one logical request.
#[derive(Clone, Debug)]
pub struct FlowContext {
    pub flow_id: String,
}

/// What a flow context can be made from.
pub trait FromFlowContext: Sized {
    /// The id this value offers, if any.
    spec fn candidate(&self) -> Option<Seq<char>>;

    fn from(self) -> (r: FlowContext)
        ensures
            flow_id_for(self.candidate(), r.flow_id@),
    ;
}

impl FromFlowContext for Option<String> {
    open spec fn candidate(&self) -> Option<Seq<char>> {
        match self {
            Some(s) => Some(s@),
            None => None,
        }
    }

    fn from(self) -> (r: FlowContext) {
        match self {
            Some(s) => if s.as_str().is_empty() {
                FlowContext { flow_id: fresh_flow_id() }
            } else {
                FlowContext { flow_id: s }
            },
            None => FlowContext { flow_id: fresh_flow_id() },
        }
    }
}

impl<'a> FromFlowContext for &'a str {
    open spec fn candidate(&self) -> Option<Seq<char>> {
        Some(self@)
    }

    fn from(self) -> (r: FlowContext) {
        if self.is_empty() {
            FlowContext { flow_id: fresh_flow_id() }
        } else {
            FlowContext { flow_id: String::from_str(self) }
        }
    }
}

impl FlowContext {
    /// A context with the id that `args` offers, or a fresh UUID where it
    /// offers none or an empty one.
    pub fn new<A>(args: A) -> (r: FlowContext) where A: FromFlowContext
        ensures
            flow_id_for(args.candidate(), r.flow_id@),
    {
        args.from()
    }
}

/// Runs `scope` with the flow id of `ctx` in the calling thread's
/// diagnostic context, then puts back what the context held before, on
/// every return from `scope`. The result of `scope` comes back unchanged.
pub fn bind_for_logging<T, F: FnOnce() -> T>(ctx: &FlowContext, scope: F) -> (r: T)
    requires
        scope.requires(()),
    ensures
        scope.ensures((), r),
{
    let previous = mdc_insert(FLOW_ID_KEY, ctx.flow_id.as_str());
    let r = scope();
    match previous {
        Some(value) => {
            let _ = mdc_insert(FLOW_ID_KEY, value.as_str());
        },
        None => {
            let _ = mdc_remove(FLOW_ID_KEY);
        },
    }
    r
}

/// A log call, ready to hand to the logging facade.
pub struct LogEvent {
    pub level: Level,
    pub target: String,
    pub message: String,
    pub flow_id: String,
}

/// A named logger whose calls carry a flow context.
pub struct FlowLogger {
    name: String,
}

impl FlowLogger {
    /// The name records of this logger carry.
    pub closed spec fn name(&self) -> Seq<char> {
        self.name@
    }

    pub fn new(name: &str) -> (r: FlowLogger)
        ensures
            r.name() == name@,
    {
        FlowLogger { name: String::from_str(name) }
    }

    /// The name records of this logger carry.
    pub fn target(&self) -> (r: &str)
        ensures
            r@ == self.name(),
    {
        self.name.as_str()
    }

    /// An info call of this logger: the event to emit, carrying the flow id.
    pub fn info(&self, fc: &FlowContext, message: &str) -> (r: LogEvent)
        ensures
            r.level == Level::Info,
            r.target@ == self.name(),
            r.message@ == message@,
            r.flow_id@ == fc.flow_id@,
    {
        self.event(Level::Info, fc, message)
    }

    /// An error call of this logger: the event to emit, carrying the flow id.
    pub fn error(&self, fc: &FlowContext, message: &str) -> (r: LogEvent)
        ensures
            r.level == Level::Error,
            r.target@ == self.name(),
            r.message@ == message@,
            r.flow_id@ == fc.flow_id@,
    {
        self.event(Level::Error, fc, message)
    }

    fn event(&self, level: Level, fc: &FlowContext, message: &str) -> (r: LogEvent)
        ensures
            r.level == level,
            r.target@ == self.name(),
            r.message@ == message@,
            r.flow_id@ == fc.flow_id@,
    {
        LogEvent {
            level,
            target: self.name.clone(),
            message: String::from_str(message),
            flow_id: fc.flow_id.clone(),
        }
    }

    /// Hands `event` to `sink` with the event's flow id bound in the calling
    /// thread's diagnostic context for the length of that call only.
    pub fn emit<R, F: FnOnce(&LogEvent) -> R>(event: &LogEvent, sink: F) -> (r: R)
        requires
            sink.requires((event,)),
        ensures
            sink.ensures((event,), r),
    {
        let ctx = FlowContext { flow_id: event.flow_id.clone() };
        bind_for_logging(&ctx, || -> (r: R)
            requires
                sink.requires((event,)),
            ensures
                sink.ensures((event,), r),
            { sink(event) })
    }
}

/// A flow id is never empty: a non-empty candidate is kept as it is, and
/// in every other case a random UUID stands in.
pub proof fn lemma_flow_id_never_empty(candidate: Option<Seq<char>>, id: Seq<char>)
    requires
        flow_id_for(candidate, id),
    ensures
        id.len() > 0,
        candidate is Some && candidate.unwrap().len() > 0 ==> id == candidate.unwrap(),
        candidate is None ==> id.len() == 36 && id[14] == '4',
{
}

} // verus!
