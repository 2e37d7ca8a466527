//! An in-process execution tracer. Instrumented code records spans of time as
//! events; one writer turns the stream of events into a trace in the Chrome
//! Trace Event Format, a JSON array of objects.
pub mod event;
pub mod json;
pub mod queue;
pub mod syntax;
pub mod tracer;
pub mod writer;

pub use event::SlimEvent;
pub use tracer::{builder, event, ChromeTracer, ChromeTracerBuilder};
pub use writer::{render_trace, ChromeTracerMessage, TraceWriter};
