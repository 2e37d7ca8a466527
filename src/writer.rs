//! The consumer side of the pipeline: it turns a stream of events into one
//! JSON array, holding back the newest event so that the last one is written
//! without a trailing separator.
use vstd::prelude::*;
use crossbeam_queue::ArrayQueue;
use crate::event::{
    async_object, begin_tail, complete_object, complete_tail, end_tail, event_json, joined,
    name_key, objects, separator, SlimEvent,
};
use crate::json::write_bytes;
use crate::syntax::{is_json_object, lemma_objects_json};
use crate::queue::{force_push, new_queue, pop, queue_capacity, queued};

verus! {

/// What the writer receives: an event to write, or the signal to close the
/// trace.
pub enum ChromeTracerMessage {
    ChromeEvent(SlimEvent),
    Terminate,
}

/// The start of a trace: `[` and a line break.
pub open spec fn opening() -> Seq<u8> {
    seq![91u8, 10]
}

/// The end of a trace after its last object: a line break and `]`.
pub open spec fn closing() -> Seq<u8> {
    seq![10u8, 93]
}

/// The JSON objects of `events`, in order.
pub open spec fn all_objects(events: Seq<SlimEvent>, pid: u32) -> Seq<Seq<u8>>
    decreases events.len(),
{
    if events.len() == 0 {
        Seq::empty()
    } else {
        all_objects(events.drop_last(), pid) + objects(events.last(), pid)
    }
}

/// A JSON array of the objects `objs`, one to a line.
pub open spec fn json_array(objs: Seq<Seq<u8>>) -> Seq<u8> {
    if objs.len() == 0 {
        opening() + seq![93u8]
    } else {
        opening() + joined(objs) + closing()
    }
}

/// The trace of `events` written by process `pid`.
pub open spec fn document(events: Seq<SlimEvent>, pid: u32) -> Seq<u8> {
    json_array(all_objects(events, pid))
}

/// The text of `events`, each followed by a separator.
pub open spec fn streamed(events: Seq<SlimEvent>, pid: u32) -> Seq<u8>
    decreases events.len(),
{
    if events.len() == 0 {
        Seq::empty()
    } else {
        streamed(events.drop_last(), pid) + event_json(events.last(), pid) + separator()
    }
}

/// The events but the newest.
pub open spec fn held_back(events: Seq<SlimEvent>) -> Seq<SlimEvent> {
    if events.len() == 0 {
        events
    } else {
        events.drop_last()
    }
}

/// Writes the trace of one process as events arrive. Each event is written
/// once the next one arrives; the last is written by `finish`.
pub struct TraceWriter {
    pending: ArrayQueue<SlimEvent>,
    pid: u32,
    received: Ghost<Seq<SlimEvent>>,
}

impl TraceWriter {
    /// The events received so far, in order.
    pub closed spec fn received(&self) -> Seq<SlimEvent> {
        self.received@
    }

    /// The process id written into every object.
    pub closed spec fn pid(&self) -> u32 {
        self.pid
    }

    /// What the writer has handed out so far.
    pub open spec fn written(&self) -> Seq<u8> {
        opening() + streamed(held_back(self.received()), self.pid())
    }

    /// The queue holds one event at most, the newest received, and every
    /// event received is well formed.
    pub closed spec fn wf(&self) -> bool {
        &&& queue_capacity(self.pending) == 1
        &&& queued(self.pending) == (if self.received@.len() == 0 {
            Seq::empty()
        } else {
            seq![self.received@.last()]
        })
        &&& forall|i: int| 0 <= i < self.received@.len() ==> (#[trigger] self.received@[i]).wf()
    }

    /// A writer for process `pid` that has received nothing, and the start of
    /// the trace, which is all it has written.
    pub fn new(pid: u32) -> (r: (TraceWriter, Vec<u8>))
        ensures
            r.0.wf(),
            r.0.received() == Seq::<SlimEvent>::empty(),
            r.0.pid() == pid,
            r.1@ == r.0.written(),
            r.1@ == opening(),
    {
        let w = TraceWriter { pending: new_queue(1), pid, received: Ghost(Seq::empty()) };
        let mut out: Vec<u8> = Vec::new();
        write_bytes(&mut out, &[91u8, 10]);
        assert(out@ =~= opening());
        (w, out)
    }

    /// Takes the event `e` and returns what is to be appended to the trace:
    /// the event received before it, with a separator, if there was one.
    pub fn on_event(&mut self, e: SlimEvent) -> (out: Vec<u8>)
        requires
            old(self).wf(),
            e.wf(),
        ensures
            final(self).wf(),
            final(self).pid() == old(self).pid(),
            final(self).received() == old(self).received().push(e),
            out@ == (if old(self).received().len() == 0 {
                Seq::empty()
            } else {
                event_json(old(self).received().last(), old(self).pid()) + separator()
            }),
            final(self).written() == old(self).written() + out@,
    {
        let ghost prev = self.received@;
        let mut out: Vec<u8> = Vec::new();
        let held = force_push(&mut self.pending, e);
        self.received = Ghost(prev.push(e));
        match held {
            Some(p) => {
                p.write_json(&mut out, self.pid);
                write_bytes(&mut out, &[44u8, 10]);
            },
            None => {},
        }
        proof {
            let now = self.received@;
            assert(now.drop_last() =~= prev);
            assert(queued(self.pending) =~= seq![e]);
            if prev.len() > 0 {
                assert(prev =~= prev.drop_last().push(prev.last()));
            }
            assert forall|i: int| 0 <= i < now.len() implies (#[trigger] now[i]).wf() by {
                if i < prev.len() {
                    assert(now[i] == prev[i]);
                }
            }
        }
        out
    }

    /// Closes the trace: returns the last event received, if any, and the end
    /// of the array. What the writer handed out is then the whole trace.
    pub fn finish(self) -> (out: Vec<u8>)
        requires
            self.wf(),
        ensures
            out@ == (if self.received().len() == 0 {
                seq![93u8]
            } else {
                event_json(self.received().last(), self.pid()) + closing()
            }),
            self.written() + out@ == document(self.received(), self.pid()),
    {
        let TraceWriter { mut pending, pid, received } = self;
        let mut out: Vec<u8> = Vec::new();
        let last = pop(&mut pending);
        match last {
            Some(p) => {
                p.write_json(&mut out, pid);
                write_bytes(&mut out, &[10u8, 93]);
            },
            None => {
                write_bytes(&mut out, &[93u8]);
            },
        }
        proof {
            lemma_written_is_document(received@, pid);
        }
        out
    }
}

/// The number of objects that `events` stand for: two for an async span (its
/// begin and its end), one for any other.
pub open spec fn object_count(events: Seq<SlimEvent>) -> nat
    decreases events.len(),
{
    if events.len() == 0 {
        0
    } else {
        object_count(events.drop_last()) + if events.last().is_async {
            2nat
        } else {
            1nat
        }
    }
}

/// Whether `obj` is delimited as a JSON object: `{` first and `}` last.
pub open spec fn braced(obj: Seq<u8>) -> bool {
    obj.len() >= 2 && obj[0] == 123u8 && obj.last() == 125u8
}

/// The whole trace of `events`, written by process `pid`, as `TraceWriter`
/// writes it when it receives them in order and is then closed.
pub fn render_trace(events: &Vec<SlimEvent>, pid: u32) -> (r: Vec<u8>)
    requires
        forall|i: int| 0 <= i < events@.len() ==> (#[trigger] events@[i]).wf(),
    ensures
        r@ == document(events@, pid),
{
    let (mut w, mut out) = TraceWriter::new(pid);
    let mut i: usize = 0;
    while i < events.len()
        invariant
            i <= events@.len(),
            w.wf(),
            w.pid() == pid,
            w.received() == events@.take(i as int),
            out@ == w.written(),
            forall|j: int| 0 <= j < events@.len() ==> (#[trigger] events@[j]).wf(),
        decreases events@.len() - i,
    {
        let chunk = w.on_event(events[i]);
        write_bytes(&mut out, chunk.as_slice());
        assert(events@.take(i + 1) =~= events@.take(i as int).push(events@[i as int]));
        i = i + 1;
    }
    assert(events@.take(i as int) =~= events@);
    let tail = w.finish();
    write_bytes(&mut out, tail.as_slice());
    out
}

/// Joining two runs of objects puts one separator between them.
pub proof fn lemma_joined_concat(a: Seq<Seq<u8>>, b: Seq<Seq<u8>>)
    requires
        a.len() > 0,
        b.len() > 0,
    ensures
        joined(a + b) == joined(a) + separator() + joined(b),
    decreases b.len(),
{
    if b.len() == 1 {
        assert((a + b).drop_last() =~= a);
    } else {
        assert((a + b).drop_last() =~= a + b.drop_last());
        lemma_joined_concat(a, b.drop_last());
    }
}

/// Every event stands for at least one object.
pub proof fn lemma_all_objects_nonempty(events: Seq<SlimEvent>, pid: u32)
    ensures
        (all_objects(events, pid).len() == 0) == (events.len() == 0),
    decreases events.len(),
{
    if events.len() > 0 {
        lemma_all_objects_nonempty(events.drop_last(), pid);
    }
}

/// The events with a separator after each, then one more event, are the
/// objects of all of them joined.
pub proof fn lemma_streamed_joined(events: Seq<SlimEvent>, e: SlimEvent, pid: u32)
    ensures
        streamed(events, pid) + event_json(e, pid) == joined(all_objects(events.push(e), pid)),
    decreases events.len(),
{
    assert(events.push(e).drop_last() =~= events);
    lemma_all_objects_nonempty(events, pid);
    if events.len() == 0 {
        assert(all_objects(events.push(e), pid) =~= objects(e, pid));
    } else {
        let t = events.drop_last();
        lemma_streamed_joined(t, events.last(), pid);
        assert(t.push(events.last()) =~= events);
        lemma_joined_concat(all_objects(events, pid), objects(e, pid));
    }
}

/// What a writer hands out before it is closed, and then when it is closed,
/// is the trace of the events it received.
pub proof fn lemma_written_is_document(events: Seq<SlimEvent>, pid: u32)
    ensures
        opening() + streamed(held_back(events), pid) + (if events.len() == 0 {
            seq![93u8]
        } else {
            event_json(events.last(), pid) + closing()
        }) == document(events, pid),
{
    lemma_all_objects_nonempty(events, pid);
    if events.len() == 0 {
        assert(streamed(events, pid) =~= Seq::<u8>::empty());
        assert(opening() + Seq::<u8>::empty() + seq![93u8] =~= opening() + seq![93u8]);
    } else {
        lemma_streamed_joined(events.drop_last(), events.last(), pid);
        assert(events.drop_last().push(events.last()) =~= events);
        assert(opening() + streamed(events.drop_last(), pid) + (event_json(events.last(), pid)
            + closing()) =~= opening() + (streamed(events.drop_last(), pid) + event_json(
            events.last(),
            pid,
        )) + closing());
    }
}

/// The objects of two runs of events, one after the other, are those of the
/// first run and then those of the second.
pub proof fn lemma_all_objects_concat(a: Seq<SlimEvent>, b: Seq<SlimEvent>, pid: u32)
    ensures
        all_objects(a + b, pid) == all_objects(a, pid) + all_objects(b, pid),
        object_count(a + b) == object_count(a) + object_count(b),
    decreases b.len(),
{
    if b.len() == 0 {
        assert(a + b =~= a);
        assert(all_objects(a, pid) + all_objects(b, pid) =~= all_objects(a, pid));
    } else {
        assert((a + b).drop_last() =~= a + b.drop_last());
        lemma_all_objects_concat(a, b.drop_last(), pid);
        assert(all_objects(a + b, pid) =~= all_objects(a, pid) + all_objects(b, pid));
    }
}

/// There are as many objects of `events` as `object_count` says.
pub proof fn lemma_object_count(events: Seq<SlimEvent>, pid: u32)
    ensures
        all_objects(events, pid).len() == object_count(events),
    decreases events.len(),
{
    if events.len() > 0 {
        lemma_object_count(events.drop_last(), pid);
    }
}

/// Each object of an event begins with `{` and ends with `}`.
pub proof fn lemma_objects_braced(e: SlimEvent, pid: u32)
    ensures
        forall|k: int| 0 <= k < objects(e, pid).len() ==> braced(#[trigger] objects(e, pid)[k]),
{
    let c = complete_object(e, pid);
    assert(c[0] == name_key()[0]);
    assert(c.last() == complete_tail().last());
    let b = async_object(e, pid, e.from as nat, begin_tail());
    assert(b[0] == name_key()[0]);
    assert(b.last() == begin_tail().last());
    let x = async_object(e, pid, e.to as nat, end_tail());
    assert(x[0] == name_key()[0]);
    assert(x.last() == end_tail().last());
}

/// Each object of a run of events begins with `{` and ends with `}`.
pub proof fn lemma_all_objects_braced(events: Seq<SlimEvent>, pid: u32)
    ensures
        forall|k: int|
            0 <= k < all_objects(events, pid).len() ==> braced(
                #[trigger] all_objects(events, pid)[k],
            ),
    decreases events.len(),
{
    if events.len() > 0 {
        lemma_all_objects_braced(events.drop_last(), pid);
        lemma_objects_braced(events.last(), pid);
        let a = all_objects(events.drop_last(), pid);
        let o = objects(events.last(), pid);
        assert forall|k: int| 0 <= k < all_objects(events, pid).len() implies braced(
            #[trigger] all_objects(events, pid)[k],
        ) by {
            if k < a.len() {
                assert(all_objects(events, pid)[k] == a[k]);
            } else {
                assert(all_objects(events, pid)[k] == o[k - a.len()]);
            }
        }
    }
}

/// Every object of a run of well-formed events is a JSON object.
pub proof fn lemma_all_objects_json(events: Seq<SlimEvent>, pid: u32)
    requires
        forall|i: int| 0 <= i < events.len() ==> (#[trigger] events[i]).wf(),
    ensures
        forall|k: int|
            0 <= k < all_objects(events, pid).len() ==> is_json_object(
                #[trigger] all_objects(events, pid)[k],
            ),
    decreases events.len(),
{
    if events.len() > 0 {
        let init = events.drop_last();
        assert forall|i: int| 0 <= i < init.len() implies (#[trigger] init[i]).wf() by {
            assert(init[i] == events[i]);
        }
        lemma_all_objects_json(init, pid);
        assert(events.last() == events[events.len() - 1]);
        lemma_objects_json(events.last(), pid);
        let a = all_objects(init, pid);
        let o = objects(events.last(), pid);
        assert forall|k: int| 0 <= k < all_objects(events, pid).len() implies is_json_object(
            #[trigger] all_objects(events, pid)[k],
        ) by {
            if k < a.len() {
                assert(all_objects(events, pid)[k] == a[k]);
            } else {
                assert(all_objects(events, pid)[k] == o[k - a.len()]);
            }
        }
    }
}

/// The trace of any run of events is a JSON array: `[` and a line break, then
/// the objects separated by `,` and a line break, then a line break and `]`
/// (just `[`, a line break and `]` for no events). Each element is a JSON
/// object, and there is one for each event of the trace, the begin and the
/// end of an async span counting as two.
pub proof fn lemma_trace_is_array(events: Seq<SlimEvent>, pid: u32)
    requires
        forall|i: int| 0 <= i < events.len() ==> (#[trigger] events[i]).wf(),
    ensures
        document(events, pid) == json_array(all_objects(events, pid)),
        all_objects(events, pid).len() == object_count(events),
        forall|k: int|
            0 <= k < all_objects(events, pid).len() ==> is_json_object(
                #[trigger] all_objects(events, pid)[k],
            ),
{
    lemma_object_count(events, pid);
    lemma_all_objects_json(events, pid);
}

/// A joined run of objects ends as its last object does.
pub proof fn lemma_joined_last(objs: Seq<Seq<u8>>)
    requires
        objs.len() > 0,
        objs.last().len() > 0,
    ensures
        joined(objs).len() >= objs.last().len(),
        joined(objs).last() == objs.last().last(),
{
    if objs.len() == 1 {
        assert(joined(objs) == objs[0]);
    }
}

/// No object of a trace is followed by a comma before the closing `]`: the
/// trace of no events is `[`, a line break and `]`, and that of any other run
/// ends with the `}` of its last object, a line break and `]`.
pub proof fn lemma_no_trailing_comma(events: Seq<SlimEvent>, pid: u32)
    ensures
        events.len() == 0 ==> document(events, pid) == seq![91u8, 10, 93],
        events.len() > 0 ==> {
            let d = document(events, pid);
            &&& d.len() >= 4
            &&& d[d.len() - 3] == 125u8
            &&& d[d.len() - 2] == 10u8
            &&& d[d.len() - 1] == 93u8
        },
{
    lemma_all_objects_nonempty(events, pid);
    lemma_all_objects_braced(events, pid);
    let objs = all_objects(events, pid);
    if events.len() == 0 {
        assert(document(events, pid) =~= seq![91u8, 10, 93]);
    } else {
        assert(braced(objs[objs.len() - 1]));
        lemma_joined_last(objs);
        let j = joined(objs);
        let d = document(events, pid);
        assert(d == opening() + j + closing());
        assert(d[d.len() - 3] == j.last());
    }
}

/// Both ends of an async span stand in its trace, side by side: first the
/// begin, at the span's start, then the end, at its end, which is no earlier.
/// Both carry the span's start as their correlation id.
pub proof fn lemma_async_pair(events: Seq<SlimEvent>, pid: u32, i: int)
    requires
        0 <= i < events.len(),
        events[i].is_async,
        events[i].wf(),
    ensures
        ({
            let e = events[i];
            let objs = all_objects(events, pid);
            let k = object_count(events.take(i)) as int;
            &&& k + 1 < objs.len()
            &&& objs[k] == async_object(e, pid, e.from as nat, begin_tail())
            &&& objs[k + 1] == async_object(e, pid, e.to as nat, end_tail())
            &&& e.from <= e.to
        }),
{
    let a = events.take(i);
    let b = events.skip(i);
    assert(events =~= a + b);
    assert(b =~= seq![events[i]] + events.skip(i + 1));
    lemma_all_objects_concat(a, b, pid);
    lemma_all_objects_concat(seq![events[i]], events.skip(i + 1), pid);
    lemma_object_count(a, pid);
    let one = seq![events[i]];
    assert(one.drop_last() =~= Seq::<SlimEvent>::empty());
    assert(one.last() == events[i]);
    assert(all_objects(one.drop_last(), pid) == Seq::<Seq<u8>>::empty());
    assert(all_objects(one, pid) =~= objects(events[i], pid));
}

} // verus!
