//! The tracer context that instrumented code records through, and the builder
//! that configures it.
use vstd::prelude::*;
use crossbeam_channel::{Receiver, Sender};
use std::time::Instant;
use crate::event::SlimEvent;
use crate::writer::ChromeTracerMessage;

verus! {

#[verifier::external_type_specification]
#[verifier::external_body]
pub struct ExInstant(Instant);

#[verifier::external_type_specification]
#[verifier::external_body]
#[verifier::reject_recursive_types(T)]
pub struct ExSender<T>(Sender<T>);

#[verifier::external_type_specification]
#[verifier::external_body]
#[verifier::reject_recursive_types(T)]
pub struct ExReceiver<T>(Receiver<T>);

/// Relies on `Instant::now`: the current instant of the monotonic clock.
#[verifier::external_body]
fn now() -> (r: Instant) {
    Instant::now()
}

/// Relies on `Instant::elapsed`: the time since `start`, in nanoseconds.
#[verifier::external_body]
fn elapsed_nanos(start: &Instant) -> (r: u128) {
    start.elapsed().as_nanos()
}

/// Relies on `crossbeam_channel::unbounded`: a new channel, its sending and
/// its receiving end.
#[verifier::external_body]
fn unbounded() -> (r: (Sender<ChromeTracerMessage>, Receiver<ChromeTracerMessage>)) {
    crossbeam_channel::unbounded()
}

/// Relies on `Sender::clone`: another sending end of the same channel.
#[verifier::external_body]
fn clone_sender(s: &Sender<ChromeTracerMessage>) -> (r: Sender<ChromeTracerMessage>) {
    s.clone()
}

/// Relies on `Sender::send`: hands `msg` to the channel; `false` where the
/// receiving end is gone.
#[verifier::external_body]
fn send(s: &Sender<ChromeTracerMessage>, msg: ChromeTracerMessage) -> (r: bool) {
    s.send(msg).is_ok()
}

/// The output path used when none is configured.
pub open spec fn default_path() -> Seq<char> {
    "trace.json"@
}

/// A tracing session as one thread sees it: the instant that timestamps count
/// from, the sending end of the pipeline once the session is running, and the
/// id of the thread that holds this copy.
pub struct ChromeTracer {
    pub start: Instant,
    sender: Option<Sender<ChromeTracerMessage>>,
    pub tid: u64,
}

impl ChromeTracer {
    /// Whether the session has been connected to a pipeline.
    pub closed spec fn is_connected(&self) -> bool {
        self.sender is Some
    }

    /// The instant that timestamps count from.
    pub closed spec fn start_instant(&self) -> Instant {
        self.start
    }

    /// The id of the thread that holds this copy.
    pub closed spec fn thread_id(&self) -> u64 {
        self.tid
    }

    /// Connects the session to a new pipeline and returns both of its ends:
    /// the sending end for the guard that closes the trace, and the receiving
    /// end for the thread that writes it.
    pub fn init(&mut self) -> (r: (Sender<ChromeTracerMessage>, Receiver<ChromeTracerMessage>))
        ensures
            final(self).is_connected(),
            final(self).start_instant() == old(self).start_instant(),
            final(self).thread_id() == old(self).thread_id(),
    {
        let (sender, receiver) = unbounded();
        self.sender = Some(clone_sender(&sender));
        (sender, receiver)
    }

    /// This session as seen from the thread `tid`.
    pub fn for_thread(&self, tid: u64) -> (r: ChromeTracer)
        ensures
            r.start_instant() == self.start_instant(),
            r.thread_id() == tid,
            r.is_connected() == self.is_connected(),
    {
        let sender = match &self.sender {
            Some(s) => Some(clone_sender(s)),
            None => None,
        };
        ChromeTracer { start: self.start, sender, tid }
    }

    /// Nanoseconds since the session's start.
    pub fn elapsed(&self) -> (r: u128) {
        elapsed_nanos(&self.start)
    }

    /// Hands `event` to the pipeline. Returns whether it was handed over,
    /// which it never is before the session is connected.
    pub fn trace(&self, event: SlimEvent) -> (r: bool)
        ensures
            r ==> self.is_connected(),
    {
        match &self.sender {
            Some(s) => send(s, ChromeTracerMessage::ChromeEvent(event)),
            None => false,
        }
    }

    /// The event of a span of `name` from `from` to `to`, on this thread.
    pub fn make_event(&self, name: &'static str, from: u128, to: u128, is_async: bool) -> (r:
        SlimEvent)
        ensures
            r.name == name,
            r.from == from,
            r.to == to,
            r.is_async == is_async,
            r.tid == self.thread_id(),
    {
        SlimEvent { name, from, to, is_async, tid: self.tid }
    }
}

/// Records a span of `name` from `from` to `to` through `tracer`, the session
/// that the calling thread sees. Without a session nothing is recorded and
/// `false` is returned; a span that ends before it starts is not recorded
/// either. Returns whether the span was handed to the pipeline.
pub fn event(
    tracer: Option<&ChromeTracer>,
    name: &'static str,
    from: u128,
    to: u128,
    is_async: bool,
) -> (r: bool)
    ensures
        r ==> tracer is Some && tracer.unwrap().is_connected() && from <= to,
{
    match tracer {
        Some(t) => {
            if from <= to {
                t.trace(t.make_event(name, from, to, is_async))
            } else {
                false
            }
        },
        None => false,
    }
}

/// The configuration of a tracing session: the instant that timestamps count
/// from, the id of the thread that starts it, and where the trace is written.
pub struct ChromeTracerBuilder {
    start: Option<Instant>,
    tid: Option<u64>,
    path: Option<String>,
}

/// A builder with nothing configured.
pub fn builder() -> (r: ChromeTracerBuilder)
    ensures
        r.start_option() is None,
        r.tid_option() is None,
        r.path_option() is None,
{
    ChromeTracerBuilder::create_empty()
}

impl ChromeTracerBuilder {
    pub closed spec fn start_option(&self) -> Option<Instant> {
        self.start
    }

    pub closed spec fn tid_option(&self) -> Option<u64> {
        self.tid
    }

    pub closed spec fn path_option(&self) -> Option<Seq<char>> {
        match self.path {
            Some(p) => Some(p@),
            None => None,
        }
    }

    /// A builder with nothing configured.
    pub fn create_empty() -> (r: ChromeTracerBuilder)
        ensures
            r.start_option() is None,
            r.tid_option() is None,
            r.path_option() is None,
    {
        ChromeTracerBuilder { start: None, tid: None, path: None }
    }

    /// Sets the instant that timestamps count from.
    pub fn start(self, start: Instant) -> (r: ChromeTracerBuilder)
        ensures
            r.start_option() == Some(start),
            r.tid_option() == self.tid_option(),
            r.path_option() == self.path_option(),
    {
        ChromeTracerBuilder { start: Some(start), ..self }
    }

    /// Sets the thread id of the session.
    pub fn tid(self, tid: u64) -> (r: ChromeTracerBuilder)
        ensures
            r.start_option() == self.start_option(),
            r.tid_option() == Some(tid),
            r.path_option() == self.path_option(),
    {
        ChromeTracerBuilder { tid: Some(tid), ..self }
    }

    /// Sets where the trace is written.
    pub fn path(self, path: String) -> (r: ChromeTracerBuilder)
        ensures
            r.start_option() == self.start_option(),
            r.tid_option() == self.tid_option(),
            r.path_option() == Some(path@),
    {
        ChromeTracerBuilder { path: Some(path), ..self }
    }

    /// Where the trace is written: the configured path, else `trace.json`.
    pub fn output_path(&self) -> (r: String)
        ensures
            r@ == (match self.path_option() {
                Some(p) => p,
                None => default_path(),
            }),
    {
        match &self.path {
            Some(p) => p.clone(),
            None => "trace.json".to_owned(),
        }
    }

    /// The session as configured, not yet connected. Where no start was set
    /// it starts now; where no thread id was set it takes `current_tid`, the
    /// id of the calling thread.
    pub fn build(&self, current_tid: u64) -> (r: ChromeTracer)
        ensures
            !r.is_connected(),
            r.thread_id() == (match self.tid_option() {
                Some(t) => t,
                None => current_tid,
            }),
            self.start_option() is Some ==> r.start_instant() == self.start_option().unwrap(),
    {
        let start = match &self.start {
            Some(s) => *s,
            None => now(),
        };
        let tid = match self.tid {
            Some(t) => t,
            None => current_tid,
        };
        ChromeTracer { start, sender: None, tid }
    }
}

} // verus!
