//! The events that a tracer records, and their Chrome Trace Event Format text.
use vstd::prelude::*;
use vstd::string::StringSliceAdditionalSpecFns;
use crate::json::{decimal, escaped, micros, write_bytes, write_decimal, write_escaped, write_micros};

verus! {

/// One recorded occurrence: a span of the function `name` from `from` to `to`,
/// both in nanoseconds since the tracer's start, on thread `tid`. A span of an
/// async function is written as a begin and an end event; any other as one
/// complete event.
#[derive(Debug, Clone, Copy)]
pub struct SlimEvent {
    pub name: &'static str,
    pub from: u128,
    pub to: u128,
    pub is_async: bool,
    pub tid: u64,
}

/// The opening of an object, up to its name's contents: `{"name":"`
pub open spec fn name_key() -> Seq<u8> {
    seq![123u8, 34, 110, 97, 109, 101, 34, 58, 34]
}

fn write_name_key(out: &mut Vec<u8>)
    ensures
        final(out)@ == old(out)@ + name_key(),
{
    write_bytes(out, &[123u8, 34, 110, 97, 109, 101, 34, 58, 34]);
}

/// The close of the name and the key of the timestamp: `","ts":`
pub open spec fn ts_key() -> Seq<u8> {
    seq![34u8, 44, 34, 116, 115, 34, 58]
}

fn write_ts_key(out: &mut Vec<u8>)
    ensures
        final(out)@ == old(out)@ + ts_key(),
{
    write_bytes(out, &[34u8, 44, 34, 116, 115, 34, 58]);
}

/// The key of the duration: `,"dur":`
pub open spec fn dur_key() -> Seq<u8> {
    seq![44u8, 34, 100, 117, 114, 34, 58]
}

fn write_dur_key(out: &mut Vec<u8>)
    ensures
        final(out)@ == old(out)@ + dur_key(),
{
    write_bytes(out, &[44u8, 34, 100, 117, 114, 34, 58]);
}

/// The key of the process id: `,"pid":`
pub open spec fn pid_key() -> Seq<u8> {
    seq![44u8, 34, 112, 105, 100, 34, 58]
}

fn write_pid_key(out: &mut Vec<u8>)
    ensures
        final(out)@ == old(out)@ + pid_key(),
{
    write_bytes(out, &[44u8, 34, 112, 105, 100, 34, 58]);
}

/// The key of the thread id: `,"tid":`
pub open spec fn tid_key() -> Seq<u8> {
    seq![44u8, 34, 116, 105, 100, 34, 58]
}

fn write_tid_key(out: &mut Vec<u8>)
    ensures
        final(out)@ == old(out)@ + tid_key(),
{
    write_bytes(out, &[44u8, 34, 116, 105, 100, 34, 58]);
}

/// The key of the correlation id: `,"id":`
pub open spec fn id_key() -> Seq<u8> {
    seq![44u8, 34, 105, 100, 34, 58]
}

fn write_id_key(out: &mut Vec<u8>)
    ensures
        final(out)@ == old(out)@ + id_key(),
{
    write_bytes(out, &[44u8, 34, 105, 100, 34, 58]);
}

/// The phase of a complete span, and the close of its object: `,"ph":"X"}`
pub open spec fn complete_tail() -> Seq<u8> {
    seq![44u8, 34, 112, 104, 34, 58, 34, 88, 34, 125]
}

fn write_complete_tail(out: &mut Vec<u8>)
    ensures
        final(out)@ == old(out)@ + complete_tail(),
{
    write_bytes(out, &[44u8, 34, 112, 104, 34, 58, 34, 88, 34, 125]);
}

/// The phase of an async begin, its category, and the close of its object: `,"ph":"b","cat":"async"}`
pub open spec fn begin_tail() -> Seq<u8> {
    seq![44u8, 34, 112, 104, 34, 58, 34, 98, 34, 44, 34, 99, 97, 116, 34, 58, 34, 97, 115, 121, 110, 99, 34, 125]
}

fn write_begin_tail(out: &mut Vec<u8>)
    ensures
        final(out)@ == old(out)@ + begin_tail(),
{
    write_bytes(out, &[44u8, 34, 112, 104, 34, 58, 34, 98, 34, 44, 34, 99, 97, 116, 34, 58, 34, 97, 115, 121, 110, 99, 34, 125]);
}

/// The phase of an async end, its category, and the close of its object: `,"ph":"e","cat":"async"}`
pub open spec fn end_tail() -> Seq<u8> {
    seq![44u8, 34, 112, 104, 34, 58, 34, 101, 34, 44, 34, 99, 97, 116, 34, 58, 34, 97, 115, 121, 110, 99, 34, 125]
}

fn write_end_tail(out: &mut Vec<u8>)
    ensures
        final(out)@ == old(out)@ + end_tail(),
{
    write_bytes(out, &[44u8, 34, 112, 104, 34, 58, 34, 101, 34, 44, 34, 99, 97, 116, 34, 58, 34, 97, 115, 121, 110, 99, 34, 125]);
}

/// The object of a complete span.
pub open spec fn complete_object(e: SlimEvent, pid: u32) -> Seq<u8> {
    name_key() + escaped(e.name.spec_bytes()) + ts_key() + micros(e.from as nat) + dur_key()
        + micros((e.to - e.from) as nat) + pid_key() + decimal(pid as nat) + tid_key()
        + decimal(e.tid as nat) + complete_tail()
}

/// The object of one end of an async span: its timestamp `ts`, and as its
/// correlation id the span's start in nanoseconds.
pub open spec fn async_object(e: SlimEvent, pid: u32, ts: nat, tail: Seq<u8>) -> Seq<u8> {
    name_key() + escaped(e.name.spec_bytes()) + ts_key() + micros(ts) + pid_key() + decimal(
        pid as nat,
    ) + tid_key() + decimal(e.tid as nat) + id_key() + decimal(e.from as nat) + tail
}

/// The JSON objects that stand for `e` in a trace written by process `pid`.
pub open spec fn objects(e: SlimEvent, pid: u32) -> Seq<Seq<u8>> {
    if e.is_async {
        seq![
            async_object(e, pid, e.from as nat, begin_tail()),
            async_object(e, pid, e.to as nat, end_tail()),
        ]
    } else {
        seq![complete_object(e, pid)]
    }
}

/// The separator between two objects of a trace: `,` and a line break.
pub open spec fn separator() -> Seq<u8> {
    seq![44u8, 10]
}

/// The objects `objs`, each but the last followed by a separator.
pub open spec fn joined(objs: Seq<Seq<u8>>) -> Seq<u8>
    decreases objs.len(),
{
    if objs.len() == 0 {
        Seq::empty()
    } else if objs.len() == 1 {
        objs[0]
    } else {
        joined(objs.drop_last()) + separator() + objs.last()
    }
}

/// The text of `e`: its objects, joined by separators.
pub open spec fn event_json(e: SlimEvent, pid: u32) -> Seq<u8> {
    joined(objects(e, pid))
}

impl SlimEvent {
    /// A span ends no earlier than it starts.
    pub open spec fn wf(&self) -> bool {
        self.from <= self.to
    }

    /// Appends the text of this event, as written by process `pid`, to `out`.
    pub fn write_json(&self, out: &mut Vec<u8>, pid: u32)
        requires
            self.wf(),
        ensures
            final(out)@ == old(out)@ + event_json(*self, pid),
    {
        let ghost start = out@;
        if self.is_async {
            self.write_async(out, pid, self.from, true);
            let ghost first = out@;
            write_bytes(out, &[44u8, 10]);
            self.write_async(out, pid, self.to, false);
            let ghost objs = objects(*self, pid);
            assert(objs.drop_last() =~= seq![objs[0]]);
            assert(joined(seq![objs[0]]) == objs[0]);
            assert(first == start + objs[0]);
            assert(out@ =~= start + objs[0] + separator() + objs[1]);
        } else {
            self.write_complete(out, pid);
        }
    }

    fn write_complete(&self, out: &mut Vec<u8>, pid: u32)
        requires
            self.wf(),
        ensures
            final(out)@ == old(out)@ + complete_object(*self, pid),
    {
        let ghost start = out@;
        write_name_key(out);
        write_escaped(out, self.name.as_bytes());
        write_ts_key(out);
        write_micros(out, self.from);
        write_dur_key(out);
        write_micros(out, self.to - self.from);
        write_pid_key(out);
        write_decimal(out, pid as u128);
        write_tid_key(out);
        write_decimal(out, self.tid as u128);
        write_complete_tail(out);
        assert(out@ =~= start + complete_object(*self, pid));
    }

    fn write_async(&self, out: &mut Vec<u8>, pid: u32, ts: u128, begin: bool)
        ensures
            final(out)@ == old(out)@ + async_object(
                *self,
                pid,
                ts as nat,
                if begin {
                    begin_tail()
                } else {
                    end_tail()
                },
            ),
    {
        let ghost start = out@;
        write_name_key(out);
        write_escaped(out, self.name.as_bytes());
        write_ts_key(out);
        write_micros(out, ts);
        write_pid_key(out);
        write_decimal(out, pid as u128);
        write_tid_key(out);
        write_decimal(out, self.tid as u128);
        write_id_key(out);
        write_decimal(out, self.from);
        if begin {
            write_begin_tail(out);
        } else {
            write_end_tail(out);
        }
        assert(out@ =~= start + async_object(
            *self,
            pid,
            ts as nat,
            if begin {
                begin_tail()
            } else {
                end_tail()
            },
        ));
    }
}

} // verus!
