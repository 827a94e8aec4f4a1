use ajaya::duration::TimeSpan;
use ajaya::sse::{event_stream_head, next_step, Event, KeepAlive, Sse, StreamPoll, StreamStep};

fn wire(e: &Event) -> String {
    String::from_utf8(e.serialize()).unwrap()
}

#[test]
fn full_event_wire_format() {
    let e = Event::new()
        .id("42")
        .event("update")
        .data("{\"temperature\": 24.5}")
        .retry_millis(5000);
    assert_eq!(wire(&e), "id: 42\nevent: update\ndata: {\"temperature\": 24.5}\nretry: 5000\n\n");
}

#[test]
fn multi_line_data_and_comment() {
    let e = Event::new().comment("a\r\nb").data("line1\rline2\nline3");
    assert_eq!(wire(&e), ": a\n: b\ndata: line1\ndata: line2\ndata: line3\n\n");
}

#[test]
fn empty_data_still_dispatches_and_fields_are_cleaned() {
    assert_eq!(wire(&Event::new().data("")), "data: \n\n");
    assert_eq!(wire(&Event::new().id("a\0b")), "id: ab\n\n");
    assert_eq!(wire(&Event::new().event("first\nsecond")), "event: first\n\n");
    assert_eq!(wire(&Event::default()), "\n");
    assert_eq!(wire(&Event::new().json_data_text("{\"x\":1}".to_string())), "data: {\"x\":1}\n\n");
}

#[test]
fn retry_from_duration_in_milliseconds() {
    let e = Event::new().retry(ajaya::duration::TimeSpan::from_secs(3));
    assert_eq!(wire(&e), "retry: 3000\n\n");
}

#[test]
fn wire_length_estimate() {
    let e = Event::new().id("42").event("update").data("a\nb");
    // 1 + (4+2+1) + (7+6+1) + (2*7 + 3 - 1)
    assert_eq!(e.estimate_wire_len(), 1 + 7 + 14 + 16);
    assert_eq!(e.estimate_wire_len(), e.serialize().len());
    let c = Event::new().comment("x\ny").retry_millis(1);
    assert_eq!(c.estimate_wire_len(), 1 + (2 * 3 + 3) + 28);
    assert!(c.estimate_wire_len() >= c.serialize().len());
    assert_eq!(Event::new().data("").estimate_wire_len(), 8);
}

#[test]
fn keep_alive_comment() {
    let k = KeepAlive::new();
    assert_eq!(k.comment_bytes(), &b": \n\n".to_vec());
    assert_eq!(k.interval_duration(), ajaya::duration::TimeSpan::from_secs(15));
    let k = k.text("ping").interval(ajaya::duration::TimeSpan::from_secs(5));
    assert_eq!(k.comment_bytes(), &b": ping\n\n".to_vec());
    assert_eq!(k.interval_duration(), ajaya::duration::TimeSpan::from_secs(5));
}

#[test]
fn event_stream_head_and_steps() {
    let head = event_stream_head();
    assert_eq!(head.status, 200);
    assert_eq!(head.headers.get("content-type").unwrap(), "text/event-stream");
    assert_eq!(head.headers.get("cache-control").unwrap(), "no-cache");
    assert_eq!(head.headers.get("x-accel-buffering").unwrap(), "no");

    let ka = Some(KeepAlive::new().text("hb"));
    match next_step(&ka, StreamPoll::Item(b"data: x\n\n".to_vec())) {
        StreamStep::Send { bytes, restart_timer } => {
            assert_eq!(bytes, b"data: x\n\n".to_vec());
            assert!(restart_timer);
        }
        _ => panic!("an event goes out"),
    }
    match next_step(&ka, StreamPoll::Idle { timer_fired: true }) {
        StreamStep::Send { bytes, restart_timer } => {
            assert_eq!(bytes, b": hb\n\n".to_vec());
            assert!(restart_timer);
        }
        _ => panic!("the keep-alive goes out"),
    }
    assert!(matches!(next_step(&ka, StreamPoll::Idle { timer_fired: false }), StreamStep::Wait));
    assert!(matches!(next_step(&None, StreamPoll::Idle { timer_fired: true }), StreamStep::Wait));
    assert!(matches!(next_step(&None, StreamPoll::Finished), StreamStep::End));
    assert!(matches!(next_step(&None, StreamPoll::Failed), StreamStep::Fail));

    let sse = Sse::new(5u8).keep_alive(KeepAlive::new());
    let (s, k) = sse.into_parts();
    assert_eq!(s, 5);
    assert!(k.is_some());
}

#[test]
fn data_lines_rejoin_to_the_data() {
    let data = "first\nsecond\n\nfourth";
    let text = wire(&Event::new().data(data));
    let lines: Vec<&str> = text
        .split('\n')
        .filter_map(|l| l.strip_prefix("data: "))
        .collect();
    assert_eq!(lines.len(), data.split('\n').count());
    assert_eq!(lines.join("\n"), data);
    assert!(text.ends_with("\n\n"));
}

#[test]
fn full_event_with_retry_in_milliseconds() {
    let e = Event::new()
        .id("42")
        .event("update")
        .data("line one\nline two")
        .retry(ajaya::duration::TimeSpan::from_millis(5000));
    assert_eq!(
        e.serialize(),
        b"id: 42\nevent: update\ndata: line one\ndata: line two\nretry: 5000\n\n".to_vec()
    );
}

#[test]
fn time_span_parts_and_milliseconds() {
    let t = TimeSpan::from_millis(2500);
    assert_eq!(t.as_secs(), 2);
    assert_eq!(t.subsec_nanos(), 500_000_000);
    assert_eq!(t.as_millis(), 2500);
    let t = TimeSpan::from_parts(1, 999_999);
    assert_eq!(t.as_millis(), 1000);
    assert_eq!(TimeSpan::from_secs(15).as_millis(), 15000);
}
