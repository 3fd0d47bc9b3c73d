use gtaurus_server::events::{job_report, job_started_event, status_event};
use gtaurus_server::job::{JobState, JobStatus, CYCLE_START, FEED_HOLD, SOFT_RESET};
use gtaurus_server::stream::StreamSession;
use gtaurus_server::worker::{StreamWorker, WorkerMove};
use std::sync::mpsc::channel;

fn ev(status: &str, current: usize, total: usize) -> String {
    format!(
        "{{\"event\":\"job://status\",\"payload\":{{\"currentLine\":{},\"status\":\"{}\",\"totalLines\":{}}},\"type\":\"event\"}}",
        current, status, total
    )
}

#[test]
fn new_job_state_is_idle() {
    let j = JobState::new();
    assert_eq!(j.status(), JobStatus::Idle);
    assert_eq!(j.status().as_str(), "idle");
    assert_eq!(j.file_path(), "");
    assert_eq!(j.total_lines(), 0);
    assert_eq!(j.current_line(), 0);
    assert!(!j.cancel_requested() && !j.pause_requested());
    assert_eq!(j.generation(), 0);
    assert_eq!(j.subscriber_count(), 0);
}

#[test]
fn broadcast_reaches_live_subscribers_and_prunes_dead_ones() {
    let mut j = JobState::new();
    let (tx1, rx1) = channel::<String>();
    let (tx2, rx2) = channel::<String>();
    let (tx3, rx3) = channel::<String>();
    j.add_subscriber(tx1);
    j.add_subscriber(tx2);
    j.add_subscriber(tx3);
    drop(rx2);
    j.broadcast("hello");
    assert_eq!(rx1.try_iter().collect::<Vec<_>>(), vec!["hello".to_string()]);
    assert_eq!(rx3.try_iter().collect::<Vec<_>>(), vec!["hello".to_string()]);
    assert_eq!(j.subscriber_count(), 2);
    j.broadcast("again");
    assert_eq!(rx1.recv().unwrap(), "again");
    assert_eq!(rx3.recv().unwrap(), "again");
    assert_eq!(j.subscriber_count(), 2);
    drop(rx1);
    drop(rx3);
    j.broadcast("nobody");
    assert_eq!(j.subscriber_count(), 0);
}

#[test]
fn adding_a_subscriber_sends_nothing() {
    let mut j = JobState::new();
    let (tx, rx) = channel::<String>();
    j.add_subscriber(tx);
    assert!(rx.try_recv().is_err());
    assert_eq!(j.subscriber_count(), 1);
}

#[test]
fn start_job_resets_and_announces() {
    let mut j = JobState::new();
    let (tx, rx) = channel::<String>();
    j.add_subscriber(tx);
    let g0 = j.start_job("/jobs/old.nc", 10, 0);
    j.record_progress(g0, 7, 10);
    j.pause();
    j.cancel();
    let _: Vec<String> = rx.try_iter().collect();
    let g = j.start_job("/jobs/part.nc", 42, 3);
    assert_eq!(g, 2);
    assert_eq!(j.generation(), 2);
    assert_eq!(j.status(), JobStatus::Running);
    assert!(!j.cancel_requested() && !j.pause_requested());
    assert_eq!(j.total_lines(), 42);
    assert_eq!(j.current_line(), 0);
    assert_eq!(j.file_path(), "/jobs/part.nc");
    assert_eq!(
        rx.try_iter().collect::<Vec<_>>(),
        vec!["{\"event\":\"job://status\",\"payload\":{\"currentLine\":0,\"filePath\":\"/jobs/part.nc\",\"startLine\":3,\"status\":\"running\",\"totalLines\":42},\"type\":\"event\"}".to_string()]
    );
}

#[test]
fn new_job_preempts_old_worker() {
    let mut j = JobState::new();
    let first = j.start_job("a.nc", 1, 0);
    assert!(!j.should_stop(first));
    let second = j.start_job("b.nc", 1, 0);
    assert!(j.should_stop(first));
    assert!(!j.should_stop(second));
}

#[test]
fn pause_resume_cancel_cycle() {
    let mut j = JobState::new();
    let (tx, rx) = channel::<String>();
    j.add_subscriber(tx);
    let g = j.start_job("p.nc", 20, 0);
    let _ = rx.recv().unwrap();
    j.record_progress(g, 5, 20);
    assert_eq!(j.pause(), Some(FEED_HOLD));
    assert!(j.pause_requested());
    assert_eq!(j.status(), JobStatus::Paused);
    assert_eq!(rx.recv().unwrap(), ev("paused", 5, 20));
    assert_eq!(j.pause(), None);
    assert!(rx.try_recv().is_err());
    assert_eq!(j.resume(), Some(CYCLE_START));
    assert!(!j.pause_requested());
    assert_eq!(j.status(), JobStatus::Running);
    assert_eq!(rx.recv().unwrap(), ev("running", 5, 20));
    assert_eq!(j.resume(), None);
    assert!(rx.try_recv().is_err());
    j.pause();
    let _ = rx.recv().unwrap();
    assert_eq!(j.cancel(), Some(SOFT_RESET));
    assert!(!j.pause_requested());
    assert!(j.cancel_requested());
    assert!(j.should_stop(g));
    assert_eq!(j.status(), JobStatus::Cancelled);
    assert_eq!(rx.try_iter().collect::<Vec<_>>(), vec![ev("cancelled", 5, 20)]);
    assert_eq!(j.cancel(), None);
    assert!(rx.try_recv().is_err());
}

#[test]
fn idle_job_ignores_pause_resume_and_cancel() {
    let mut j = JobState::new();
    let (tx, rx) = channel::<String>();
    j.add_subscriber(tx);
    assert_eq!(j.pause(), None);
    assert_eq!(j.resume(), None);
    assert_eq!(j.cancel(), None);
    assert_eq!(j.status(), JobStatus::Idle);
    assert!(!j.pause_requested() && !j.cancel_requested());
    assert!(rx.try_recv().is_err());
    assert_eq!(j.subscriber_count(), 1);
}

#[test]
fn progress_is_announced_every_tenth_command() {
    let mut j = JobState::new();
    let (tx, rx) = channel::<String>();
    let g = j.start_job("p.nc", 25, 0);
    j.add_subscriber(tx);
    for n in 1..=25 {
        j.record_progress(g, n, 25);
    }
    assert_eq!(j.current_line(), 25);
    assert_eq!(rx.try_iter().collect::<Vec<_>>(), vec![ev("running", 10, 25), ev("running", 20, 25)]);
}

#[test]
fn completed_job_is_idle_again() {
    let mut j = JobState::new();
    let (tx, rx) = channel::<String>();
    j.add_subscriber(tx);
    let g = j.start_job("p.nc", 3, 0);
    let _ = rx.recv().unwrap();
    j.record_progress(g, 3, 3);
    j.complete(g, 3, 3);
    assert_eq!(j.status(), JobStatus::Idle);
    assert_eq!(j.current_line(), 3);
    assert_eq!(j.total_lines(), 3);
    assert_eq!(rx.try_iter().collect::<Vec<_>>(), vec![ev("completed", 3, 3)]);
    assert_eq!(
        j.status_report(),
        "{\"currentLine\":3,\"filePath\":\"p.nc\",\"status\":\"idle\",\"totalLines\":3}"
    );
}

#[test]
fn broadcast_cancelled_reaches_the_subscriber_once() {
    let mut j = JobState::new();
    let (tx, rx) = channel::<String>();
    j.add_subscriber(tx);
    j.broadcast_cancelled(7);
    assert_eq!(j.status(), JobStatus::Cancelled);
    let got: Vec<String> = rx.try_iter().collect();
    assert_eq!(got.len(), 1);
    let v: serde_json::Value = serde_json::from_str(&got[0]).unwrap();
    assert_eq!(
        v,
        serde_json::from_str::<serde_json::Value>(
            "{\"type\":\"event\",\"event\":\"job://status\",\"payload\":{\"status\":\"cancelled\",\"currentLine\":0,\"totalLines\":7}}"
        )
        .unwrap()
    );
    assert_eq!(j.current_line(), 0);
    assert_eq!(j.total_lines(), 0);
    assert_eq!(j.subscriber_count(), 1);
}

#[test]
fn status_report_text() {
    let mut j = JobState::new();
    assert_eq!(
        j.status_report(),
        "{\"currentLine\":0,\"filePath\":\"\",\"status\":\"idle\",\"totalLines\":0}"
    );
    let g = j.start_job("C:\\jobs\\a \"b\".nc", 2048, 0);
    j.record_progress(g, 42, 2048);
    assert_eq!(
        j.status_report(),
        "{\"currentLine\":42,\"filePath\":\"C:\\\\jobs\\\\a \\\"b\\\".nc\",\"status\":\"running\",\"totalLines\":2048}"
    );
}

#[test]
fn event_text_escapes_and_numbers() {
    assert_eq!(status_event("paused", 0, 1234567890), ev("paused", 0, 1234567890));
    assert_eq!(
        job_started_event("a\nb\tc\u{1}\u{8}\u{c}\r/é", 0, 0),
        "{\"event\":\"job://status\",\"payload\":{\"currentLine\":0,\"filePath\":\"a\\nb\\tc\\u0001\\b\\f\\r/é\",\"startLine\":0,\"status\":\"running\",\"totalLines\":0},\"type\":\"event\"}"
    );
    assert_eq!(
        job_report("x", "\u{1f}", 10, 100),
        "{\"currentLine\":10,\"filePath\":\"\\u001f\",\"status\":\"x\",\"totalLines\":100}"
    );
}

#[test]
fn event_text_parses_as_the_documented_json() {
    let e = status_event("running", 120, 2048);
    let v: serde_json::Value = serde_json::from_str(&e).unwrap();
    assert_eq!(v["type"], "event");
    assert_eq!(v["event"], "job://status");
    assert_eq!(v["payload"]["status"], "running");
    assert_eq!(v["payload"]["currentLine"], 120);
    assert_eq!(v["payload"]["totalLines"], 2048);
    let p = job_started_event("we\"ird\\\u{0}path", 5, 2);
    let v: serde_json::Value = serde_json::from_str(&p).unwrap();
    assert_eq!(v["payload"]["filePath"], "we\"ird\\\u{0}path");
    assert_eq!(v["payload"]["startLine"], 2);
}

#[test]
fn worker_streams_a_full_job() {
    let mut j = JobState::new();
    let content = "G21\n; c\nG0 X1\nG1 X2\n";
    let g = j.start_job("f.nc", 3, 0);
    let mut w = StreamWorker::new(StreamSession::new(content, 0, None), g);
    let mut sent = Vec::new();
    loop {
        match w.next_move(&j) {
            WorkerMove::Send(c) => {
                sent.push(c);
                w.report_sent(&mut j);
            }
            WorkerMove::Skip => {}
            WorkerMove::Finished => break,
            WorkerMove::Wait | WorkerMove::Stop => panic!("unexpected move"),
        }
    }
    w.report_finished(&mut j);
    assert_eq!(sent, vec!["G21", "G0 X1", "G1 X2"]);
    assert_eq!(j.current_line(), j.total_lines());
    assert_eq!(j.status(), JobStatus::Idle);
}

#[test]
fn worker_waits_while_paused_and_stops_when_preempted() {
    let mut j = JobState::new();
    let g = j.start_job("f.nc", 2, 0);
    let mut w = StreamWorker::new(StreamSession::new("G0\nG1\n", 0, None), g);
    j.pause();
    assert!(matches!(w.next_move(&j), WorkerMove::Wait));
    assert!(matches!(w.next_move(&j), WorkerMove::Wait));
    assert_eq!(w.sent_count(), 0);
    j.resume();
    match w.next_move(&j) {
        WorkerMove::Send(c) => assert_eq!(c, "G0"),
        _ => panic!("expected a command"),
    }
    assert_eq!(w.sent_count(), 1);
    j.start_job("other.nc", 1, 0);
    assert!(matches!(w.next_move(&j), WorkerMove::Stop));
    assert_eq!(w.sent_count(), 1);
}

#[test]
fn worker_stops_on_cancel() {
    let mut j = JobState::new();
    let g = j.start_job("f.nc", 2, 0);
    let mut w = StreamWorker::new(StreamSession::new("G0\nG1\n", 0, None), g);
    assert!(matches!(w.next_move(&j), WorkerMove::Send(_)));
    j.cancel();
    assert!(matches!(w.next_move(&j), WorkerMove::Stop));
}

#[test]
fn preempted_worker_reports_change_nothing() {
    let mut j = JobState::new();
    let (tx, rx) = channel::<String>();
    j.add_subscriber(tx);
    let old = j.start_job("old.nc", 30, 0);
    let new = j.start_job("new.nc", 12, 0);
    let _: Vec<String> = rx.try_iter().collect();
    j.record_progress(old, 10, 30);
    j.complete(old, 30, 30);
    j.worker_stopped(old, 30);
    assert_eq!(j.status(), JobStatus::Running);
    assert_eq!(j.current_line(), 0);
    assert_eq!(j.total_lines(), 12);
    assert_eq!(j.file_path(), "new.nc");
    assert!(rx.try_recv().is_err());
    j.record_progress(new, 10, 12);
    assert_eq!(rx.try_iter().collect::<Vec<_>>(), vec![ev("running", 10, 12)]);
}

#[test]
fn stopped_owner_announces_cancellation_with_its_total() {
    let mut j = JobState::new();
    let (tx, rx) = channel::<String>();
    j.add_subscriber(tx);
    let g = j.start_job("f.nc", 9, 0);
    j.record_progress(g, 4, 9);
    j.cancel();
    let _: Vec<String> = rx.try_iter().collect();
    j.worker_stopped(g, 9);
    assert_eq!(j.status(), JobStatus::Cancelled);
    assert_eq!(rx.try_iter().collect::<Vec<_>>(), vec![ev("cancelled", 4, 9)]);
}

#[test]
fn worker_reports_through_the_job() {
    let mut j = JobState::new();
    let (tx, rx) = channel::<String>();
    j.add_subscriber(tx);
    let content = "G0\nG1\nG2\n";
    let g = j.start_job("f.nc", 3, 0);
    let _ = rx.recv().unwrap();
    let mut w = StreamWorker::new(StreamSession::new(content, 0, None), g);
    assert!(matches!(w.next_move(&j), WorkerMove::Send(_)));
    w.report_sent(&mut j);
    assert_eq!(j.current_line(), 1);
    j.cancel();
    let _: Vec<String> = rx.try_iter().collect();
    assert!(matches!(w.next_move(&j), WorkerMove::Stop));
    w.report_stopped(&mut j);
    assert_eq!(rx.try_iter().collect::<Vec<_>>(), vec![ev("cancelled", 1, 3)]);
}

#[test]
fn preempted_worker_stops_quietly() {
    let mut j = JobState::new();
    let (tx, rx) = channel::<String>();
    j.add_subscriber(tx);
    let g = j.start_job("a.nc", 2, 0);
    let mut w = StreamWorker::new(StreamSession::new("G0\nG1\n", 0, None), g);
    assert!(matches!(w.next_move(&j), WorkerMove::Send(_)));
    j.start_job("b.nc", 5, 0);
    let _: Vec<String> = rx.try_iter().collect();
    assert!(matches!(w.next_move(&j), WorkerMove::Stop));
    w.report_stopped(&mut j);
    w.report_sent(&mut j);
    w.report_finished(&mut j);
    assert_eq!(j.status(), JobStatus::Running);
    assert_eq!(j.file_path(), "b.nc");
    assert!(rx.try_recv().is_err());
}

#[test]
fn worker_steps_one_line_at_a_time() {
    let mut j = JobState::new();
    let g = j.start_job("f.nc", 2, 0);
    let mut w = StreamWorker::new(StreamSession::new("; head\nG0\n(note)\nG1", 0, None), g);
    assert_eq!(w.next_line_index(), 0);
    assert!(matches!(w.next_move(&j), WorkerMove::Skip));
    assert_eq!(w.next_line_index(), 1);
    j.pause();
    assert!(matches!(w.next_move(&j), WorkerMove::Wait));
    assert_eq!(w.next_line_index(), 2);
    assert!(matches!(w.next_move(&j), WorkerMove::Wait));
    assert_eq!(w.next_line_index(), 2);
    assert_eq!(w.sent_count(), 0);
    j.resume();
    match w.next_move(&j) {
        WorkerMove::Send(c) => assert_eq!(c, "G0"),
        _ => panic!("the held command goes out first"),
    }
    assert_eq!(w.next_line_index(), 2);
    assert!(matches!(w.next_move(&j), WorkerMove::Skip));
    match w.next_move(&j) {
        WorkerMove::Send(c) => assert_eq!(c, "G1"),
        _ => panic!("expected a command"),
    }
    assert!(matches!(w.next_move(&j), WorkerMove::Finished));
    assert!(matches!(w.next_move(&j), WorkerMove::Finished));
    assert_eq!(w.sent_count(), 2);
}

fn object(entries: Vec<(&str, serde_json::Value)>) -> serde_json::Value {
    let mut m = serde_json::Map::new();
    for (k, v) in entries {
        m.insert(k.to_string(), v);
    }
    serde_json::Value::Object(m)
}

#[test]
fn event_text_is_what_serde_json_writes() {
    let payload = object(vec![
        ("status", serde_json::Value::from("paused")),
        ("currentLine", serde_json::Value::from(12u64)),
        ("totalLines", serde_json::Value::from(340u64)),
    ]);
    let e = object(vec![
        ("type", serde_json::Value::from("event")),
        ("event", serde_json::Value::from("job://status")),
        ("payload", payload),
    ]);
    assert_eq!(status_event("paused", 12, 340), serde_json::to_string(&e).unwrap());

    let path = "dir/\"odd\"\\\u{7}name.nc";
    let payload = object(vec![
        ("status", serde_json::Value::from("running")),
        ("filePath", serde_json::Value::from(path)),
        ("currentLine", serde_json::Value::from(0u64)),
        ("totalLines", serde_json::Value::from(99u64)),
        ("startLine", serde_json::Value::from(4u64)),
    ]);
    let e = object(vec![
        ("type", serde_json::Value::from("event")),
        ("event", serde_json::Value::from("job://status")),
        ("payload", payload),
    ]);
    assert_eq!(job_started_event(path, 99, 4), serde_json::to_string(&e).unwrap());

    let r = object(vec![
        ("status", serde_json::Value::from("idle")),
        ("filePath", serde_json::Value::from("\u{1f}\ttab")),
        ("currentLine", serde_json::Value::from(7u64)),
        ("totalLines", serde_json::Value::from(8u64)),
    ]);
    assert_eq!(job_report("idle", "\u{1f}\ttab", 7, 8), serde_json::to_string(&r).unwrap());
}
