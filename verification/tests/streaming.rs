use gtaurus_server::stream::{count_active_lines, validate_gcode_content, StreamSession, StreamStep};

fn run(session: &mut StreamSession) -> (Vec<String>, usize) {
    let mut sent = Vec::new();
    let mut skipped = 0;
    loop {
        match session.step() {
            StreamStep::Send(c) => sent.push(c),
            StreamStep::Skip => skipped += 1,
            StreamStep::Finished => break,
        }
    }
    (sent, skipped)
}

#[test]
fn counts_only_command_lines() {
    let content = "G21\n\n; comment\n  (setup)\n  G0 X1  \r\nM3 S1000\n";
    assert_eq!(count_active_lines(content), 3);
    assert_eq!(count_active_lines(""), 0);
    assert_eq!(count_active_lines("\n\n\n"), 0);
    assert_eq!(count_active_lines("G1 X1"), 1);
}

#[test]
fn streams_trimmed_commands_without_override() {
    let content = "G21\n\n; comment\n  G0 X1  \r\n(note)\nG1 X2 F100\n";
    let mut s = StreamSession::new(content, 0, None);
    let (sent, skipped) = run(&mut s);
    assert_eq!(sent, vec!["G21", "G0 X1", "G1 X2 F100"]);
    assert_eq!(skipped, 3);
    assert_eq!(s.sent_count(), 3);
    assert_eq!(s.total_active(), 3);
}

#[test]
fn start_line_zero_and_one_agree() {
    let content = "G21\nG0 X1\nG1 X2\n";
    let (a, _) = run(&mut StreamSession::new(content, 0, None));
    let (b, _) = run(&mut StreamSession::new(content, 1, None));
    assert_eq!(a, b);
    assert_eq!(a.len(), 3);
}

#[test]
fn start_line_skips_earlier_file_lines() {
    let content = "G21\n; c\nG0 X1\nG1 X2\nG1 X3\n";
    let mut s = StreamSession::new(content, 3, None);
    let (sent, skipped) = run(&mut s);
    assert_eq!(sent, vec!["G0 X1", "G1 X2", "G1 X3"]);
    assert_eq!(skipped, 2);
    assert_eq!(s.total_active(), 4);
    let (past_end, _) = run(&mut StreamSession::new(content, 99, None));
    assert!(past_end.is_empty());
}

#[test]
fn dense_file_resumes_at_the_same_line() {
    let content = "G0 X0\nG1 X1\nG1 X2\nG1 X3\n";
    let mut s = StreamSession::new(content, 3, None);
    let (sent, _) = run(&mut s);
    assert_eq!(sent, vec!["G1 X2", "G1 X3"]);
}

#[test]
fn feed_override_rewrites_feed_words() {
    let content = "G21\nG1 X1 F100 Y2\nG1 X2\nG0 X0 f50\n";
    let mut s = StreamSession::new(content, 0, Some("F900.0"));
    let (sent, _) = run(&mut s);
    // `G21` holds `G2`, so it counts as a move and takes the feed word first.
    assert_eq!(sent, vec!["G21 F900.0", "G1 X1 F900.0 Y2", "G1 X2", "G0 X0 F900.0"]);
}

#[test]
fn feed_override_appends_once_to_first_move() {
    let content = "M3 S1000\nG0 X0\nG1  X1\nG2 X2 Y2 I1\nG1 X3\n";
    let mut s = StreamSession::new(content, 0, Some("F250.5"));
    let (sent, _) = run(&mut s);
    assert_eq!(sent, vec!["M3 S1000", "G0 X0", "G1  X1 F250.5", "G2 X2 Y2 I1", "G1 X3"]);
}

#[test]
fn feed_word_splits_on_all_whitespace() {
    let content = "G1\tX1   F100\n";
    let (sent, _) = run(&mut StreamSession::new(content, 0, Some("F5.0")));
    assert_eq!(sent, vec!["G1 X1 F5.0"]);
}

#[test]
fn session_reports_position() {
    let mut s = StreamSession::new("G0\n\nG1\n", 0, None);
    assert_eq!(s.next_line_index(), 0);
    assert!(matches!(s.step(), StreamStep::Send(_)));
    assert!(matches!(s.step(), StreamStep::Skip));
    assert_eq!(s.next_line_index(), 2);
    assert!(matches!(s.step(), StreamStep::Send(_)));
    assert!(matches!(s.step(), StreamStep::Finished));
    assert!(matches!(s.step(), StreamStep::Finished));
    assert_eq!(s.sent_count(), 2);
}

#[test]
fn recognises_gcode_content() {
    assert!(validate_gcode_content("; header\n\nG21\n"));
    assert!(validate_gcode_content("  $H\n"));
    assert!(validate_gcode_content("T1 M6\n"));
    assert!(!validate_gcode_content("hello\nworld\n"));
    assert!(!validate_gcode_content("; G21\n(G0)\n"));
    assert!(!validate_gcode_content(""));
    assert!(!validate_gcode_content("g21\n"));
}
