//! Flow-correlated metrics and structured logging.
//!
//! The library holds a metric store with lazily registered counters, a timing
//! wrapper that records outcome and elapsed time, a per-request flow context,
//! and a JSON line encoder for log records.

pub mod api;
pub mod encoder;
pub mod flow;
pub mod monitoring;
pub mod settings;
pub mod text;

pub use api::{Chuck, ChuckApiServiceImpl, ChuckConfig};
pub use encoder::{
    CustomJsonEncoderDeserializer, JsonEncoder, JsonEncoderConfig, Level, LogRecord, Timestamp,
};
pub use flow::{bind_for_logging, FlowContext, FlowLogger, FromFlowContext, LogEvent};
pub use monitoring::{
    timed, Delta, ErrorTagger, MetricError, MetricKind, MetricStore, Stopwatch, NO_ERROR,
};
pub use settings::{Database, LoggingMeta, Settings};
