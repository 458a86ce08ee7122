use live_preview::changes::{
    decode_text, ChangeEvent, ChangeOrigin, ChangeQueue, Debouncer, DEFAULT_WINDOW,
};
use live_preview::failure::Failure;

fn file(payload: &str, timestamp: u64) -> ChangeEvent {
    ChangeEvent { origin: ChangeOrigin::FileChange, payload: payload.to_string(), timestamp }
}

fn edit(payload: &str, timestamp: u64) -> ChangeEvent {
    ChangeEvent { origin: ChangeOrigin::EditSubmission, payload: payload.to_string(), timestamp }
}

fn drain(q: &mut ChangeQueue) -> Vec<ChangeEvent> {
    let mut out = Vec::new();
    while let Some(e) = q.dequeue() {
        out.push(e);
    }
    out
}

#[test]
fn valid_utf8_is_decoded() {
    assert_eq!(decode_text(b"# Hi"), Ok("# Hi".to_string()));
    assert_eq!(decode_text("gr\u{fc}\u{df}e \u{1f600}".as_bytes()), Ok("gr\u{fc}\u{df}e \u{1f600}".to_string()));
    assert_eq!(decode_text(b""), Ok(String::new()));
}

#[test]
fn invalid_utf8_is_an_encoding_failure() {
    assert_eq!(decode_text(&[0xff, 0xfe]), Err(Failure::Encoding));
    assert_eq!(decode_text(&[b'a', 0xc3]), Err(Failure::Encoding));
    assert_eq!(decode_text(&[0xed, 0xa0, 0x80]), Err(Failure::Encoding));
    assert_eq!(decode_text(&[0xc0, 0x80]), Err(Failure::Encoding));
}

#[test]
fn debouncer_opens_on_first_event() {
    let mut d = Debouncer::new(50);
    assert!(!d.is_open());
    assert_eq!(d.file_event(1000), 1050);
    assert!(d.is_open());
    assert_eq!(d.deadline, Some(1050));
}

#[test]
fn burst_collapses_into_one_fire() {
    let mut d = Debouncer::new(50);
    let mut fires = 0;
    for t in [1000u64, 1010, 1020, 1049, 1060] {
        if d.tick(t) {
            fires += 1;
        }
        d.file_event(t);
    }
    assert_eq!(fires, 0);
    assert_eq!(d.deadline, Some(1110));
    assert!(!d.tick(1109));
    assert!(d.tick(1110));
    assert!(!d.tick(1111));
    assert!(!d.is_open());
}

#[test]
fn tick_without_window_does_nothing() {
    let mut d = Debouncer::new(50);
    assert!(!d.tick(123_456));
    assert_eq!(d, Debouncer { window: 50, deadline: None });
}

#[test]
fn deadline_saturates() {
    let mut d = Debouncer::new(50);
    assert_eq!(d.file_event(u64::MAX - 10), u64::MAX);
    assert!(!d.tick(u64::MAX - 1));
    assert!(d.tick(u64::MAX));
}

#[test]
fn zero_window_fires_at_once() {
    let mut d = Debouncer::new(0);
    assert_eq!(d.file_event(7), 7);
    assert!(d.tick(7));
}

#[test]
fn queue_is_first_in_first_out() {
    let mut q = ChangeQueue::new();
    assert!(q.is_empty());
    q.enqueue(edit("a", 0), 50);
    q.enqueue(edit("b", 1), 50);
    q.enqueue(file("c", 2), 50);
    assert_eq!(q.len(), 3);
    assert_eq!(drain(&mut q), vec![edit("a", 0), edit("b", 1), file("c", 2)]);
    assert_eq!(q.dequeue(), None);
}

#[test]
fn later_event_supersedes_file_changes_of_the_window() {
    let mut q = ChangeQueue::new();
    q.enqueue(file("old", 100), 50);
    q.enqueue(edit("kept", 110), 50);
    q.enqueue(file("older still", 120), 50);
    q.enqueue(edit("winner", 150), 50);
    assert_eq!(drain(&mut q), vec![edit("kept", 110), edit("winner", 150)]);
}

#[test]
fn file_change_outside_the_window_stays() {
    let mut q = ChangeQueue::new();
    q.enqueue(file("early", 100), 50);
    q.enqueue(file("late", 151), 50);
    assert_eq!(drain(&mut q), vec![file("early", 100), file("late", 151)]);
}

#[test]
fn file_change_at_the_window_boundary_is_superseded() {
    let mut q = ChangeQueue::new();
    q.enqueue(file("early", 100), 50);
    q.enqueue(file("late", 150), 50);
    assert_eq!(drain(&mut q), vec![file("late", 150)]);
}

#[test]
fn event_with_earlier_timestamp_supersedes_nothing() {
    let mut q = ChangeQueue::new();
    q.enqueue(file("a", 100), 50);
    q.enqueue(file("b", 99), 50);
    assert_eq!(drain(&mut q), vec![file("a", 100), file("b", 99)]);
}

#[test]
fn supersession_tests_on_events() {
    assert!(file("a", 10).is_superseded_by(&edit("b", 20), 10));
    assert!(!file("a", 10).is_superseded_by(&edit("b", 21), 10));
    assert!(!edit("a", 10).is_superseded_by(&edit("b", 20), 10));
}

#[test]
fn default_window_is_tens_of_milliseconds() {
    assert_eq!(DEFAULT_WINDOW, 50);
    let mut d = Debouncer::new(DEFAULT_WINDOW);
    assert_eq!(d.file_event(0), 50);
}
