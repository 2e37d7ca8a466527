use chrometracer::{builder, render_trace, ChromeTracerMessage, SlimEvent, TraceWriter};

const SECOND: u128 = 1_000_000_000;

fn text(bytes: &[u8]) -> String {
    String::from_utf8(bytes.to_vec()).unwrap()
}

fn span(name: &'static str, from: u128, to: u128, is_async: bool, tid: u64) -> SlimEvent {
    SlimEvent { name, from, to, is_async, tid }
}

fn json_of(e: &SlimEvent, pid: u32) -> String {
    let mut out = Vec::new();
    e.write_json(&mut out, pid);
    text(&out)
}

#[test]
fn without_init() {
    assert!(!chrometracer::event(None, "hello", SECOND, 2 * SECOND, false));
}

#[test]
fn event() {
    let mut tracer = builder().build(3);
    let (_sender, receiver) = tracer.init();
    assert!(chrometracer::event(Some(&tracer), "hello", SECOND, 2 * SECOND, true));
    match receiver.try_recv().unwrap() {
        ChromeTracerMessage::ChromeEvent(e) => {
            assert_eq!(e.name, "hello");
            assert_eq!(e.from, SECOND);
            assert_eq!(e.to, 2 * SECOND);
            assert!(e.is_async);
            assert_eq!(e.tid, 3);
        }
        ChromeTracerMessage::Terminate => panic!("expected an event"),
    }
}

#[test]
fn unconnected_session_records_nothing() {
    let tracer = builder().tid(9).build(3);
    assert!(!tracer.trace(tracer.make_event("f", 0, 10, false)));
    assert!(!chrometracer::event(Some(&tracer), "f", 0, 10, false));
}

#[test]
fn span_ending_before_its_start_is_not_recorded() {
    let mut tracer = builder().build(1);
    let (_sender, receiver) = tracer.init();
    assert!(!chrometracer::event(Some(&tracer), "f", 10, 5, false));
    assert!(receiver.try_recv().is_err());
}

#[test]
fn events_after_close_are_not_handed_over() {
    let mut tracer = builder().build(1);
    let (sender, receiver) = tracer.init();
    drop(sender);
    drop(receiver);
    assert!(!chrometracer::event(Some(&tracer), "late", 0, 1, false));
}

#[test]
fn three_complete_events_in_order() {
    let events = vec![
        span("a", 1_000, 2_000, false, 1),
        span("b", 3_000, 5_500, false, 1),
        span("c", 6_000, 6_001, false, 1),
    ];
    let out = text(&render_trace(&events, 42));
    assert_eq!(
        out,
        "[\n\
         {\"name\":\"a\",\"ts\":1,\"dur\":1,\"pid\":42,\"tid\":1,\"ph\":\"X\"},\n\
         {\"name\":\"b\",\"ts\":3,\"dur\":2.5,\"pid\":42,\"tid\":1,\"ph\":\"X\"},\n\
         {\"name\":\"c\",\"ts\":6,\"dur\":0.001,\"pid\":42,\"tid\":1,\"ph\":\"X\"}\n\
         ]"
    );
    assert_eq!(out.matches("\"ph\":\"X\"").count(), 3);
    assert!(!out.contains(",\n]"));
}

#[test]
fn empty_trace() {
    assert_eq!(text(&render_trace(&Vec::new(), 1)), "[\n]");
    let (w, head) = TraceWriter::new(1);
    let tail = w.finish();
    assert_eq!(text(&head) + &text(&tail), "[\n]");
}

#[test]
fn async_pair() {
    let out = text(&render_trace(&vec![span("x", 7, 9_007, true, 2)], 5));
    assert_eq!(
        out,
        "[\n\
         {\"name\":\"x\",\"ts\":0.007,\"pid\":5,\"tid\":2,\"id\":7,\"ph\":\"b\",\"cat\":\"async\"},\n\
         {\"name\":\"x\",\"ts\":9.007,\"pid\":5,\"tid\":2,\"id\":7,\"ph\":\"e\",\"cat\":\"async\"}\n\
         ]"
    );
    let b = out.find("\"ph\":\"b\"").unwrap();
    let e = out.find("\"ph\":\"e\"").unwrap();
    assert!(b < e);
    assert_eq!(out.matches("\"id\":7,").count(), 2);
}

#[test]
fn async_and_complete_count_objects() {
    let events = vec![span("f", 0, 1, false, 1), span("g", 2, 3, true, 1)];
    let out = text(&render_trace(&events, 1));
    assert_eq!(out.matches("{\"name\"").count(), 3);
    assert!(out.starts_with("[\n{"));
    assert!(out.ends_with("}\n]"));
}

#[test]
fn writer_holds_back_newest_event() {
    let a = span("a", 0, 1_000, false, 1);
    let b = span("b", 2_000, 4_000, false, 1);
    let (mut w, head) = TraceWriter::new(8);
    assert_eq!(text(&head), "[\n");
    assert!(w.on_event(a).is_empty());
    let first = text(&w.on_event(b));
    assert_eq!(first, json_of(&a, 8) + ",\n");
    let last = text(&w.finish());
    assert_eq!(last, json_of(&b, 8) + "\n]");
}

#[test]
fn writer_matches_render() {
    let events = vec![span("a", 0, 1, false, 1), span("b", 5, 6, true, 2), span("c", 7, 8, false, 3)];
    let (mut w, mut out) = TraceWriter::new(4);
    for e in events.iter() {
        out.extend(w.on_event(*e));
    }
    out.extend(w.finish());
    assert_eq!(out, render_trace(&events, 4));
}

#[test]
fn timestamps_in_microseconds() {
    assert_eq!(
        json_of(&span("f", 1_234_567, 2 * SECOND, false, 0), 0),
        "{\"name\":\"f\",\"ts\":1234.567,\"dur\":1998765.433,\"pid\":0,\"tid\":0,\"ph\":\"X\"}"
    );
    assert_eq!(
        json_of(&span("f", SECOND, 2 * SECOND, false, 0), 0),
        "{\"name\":\"f\",\"ts\":1000000,\"dur\":1000000,\"pid\":0,\"tid\":0,\"ph\":\"X\"}"
    );
    assert_eq!(
        json_of(&span("f", 10, 10, false, 0), 0),
        "{\"name\":\"f\",\"ts\":0.01,\"dur\":0,\"pid\":0,\"tid\":0,\"ph\":\"X\"}"
    );
}

#[test]
fn large_identifiers() {
    assert_eq!(
        json_of(&span("f", 0, 0, false, u64::MAX), u32::MAX),
        "{\"name\":\"f\",\"ts\":0,\"dur\":0,\"pid\":4294967295,\"tid\":18446744073709551615,\"ph\":\"X\"}"
    );
}

#[test]
fn names_are_escaped() {
    assert_eq!(
        json_of(&span("a\"b\\c\nd\u{1f}é", 0, 0, false, 0), 0),
        "{\"name\":\"a\\\"b\\\\c\\u000ad\\u001fé\",\"ts\":0,\"dur\":0,\"pid\":0,\"tid\":0,\"ph\":\"X\"}"
    );
}

#[test]
fn thread_ids_follow_the_thread() {
    let mut tracer = builder().build(1);
    let _ends = tracer.init();
    let t2 = tracer.for_thread(2);
    let t3 = tracer.for_thread(3);
    assert_eq!(t2.tid, 2);
    assert_eq!(t3.tid, 3);
    assert_eq!(t2.start, tracer.start);
    assert_eq!(t2.make_event("f", 0, 1, false).tid, 2);
    assert_eq!(t2.make_event("g", 1, 2, false).tid, 2);
    assert_eq!(t3.make_event("f", 0, 1, false).tid, 3);
}

#[test]
fn builder_defaults() {
    let b = builder();
    assert_eq!(b.output_path(), "trace.json");
    let t = b.build(17);
    assert_eq!(t.tid, 17);
}

#[test]
fn builder_settings() {
    let start = std::time::Instant::now();
    let b = builder().start(start).tid(4).path("out.json".to_string());
    assert_eq!(b.output_path(), "out.json");
    let t = b.build(17);
    assert_eq!(t.tid, 4);
    assert_eq!(t.start, start);
    assert!(t.elapsed() < 3600 * SECOND);
}
