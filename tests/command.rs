use shellvm::command::{CommandGenerator, LineStep};

fn line(step: LineStep) -> (i32, Vec<u8>) {
    match step {
        LineStep::Line(k, l) => (k, l),
        LineStep::Done => panic!("unexpected end"),
        LineStep::Wait => panic!("unexpected wait"),
    }
}

#[test]
fn split_mode_reads_whole_lines() {
    let mut g = CommandGenerator::new(true, false, false);
    g.feed_stdout(b"one\ntw", false);
    assert_eq!(line(g.read_line()), (1, b"one\n".to_vec()));
    assert!(matches!(g.read_line(), LineStep::Wait));
    g.feed_stdout(b"o", true);
    assert_eq!(line(g.read_line()), (1, b"two".to_vec()));
    assert!(matches!(g.read_line(), LineStep::Done));
}

#[test]
fn split_mode_reads_stderr_when_asked() {
    let mut g = CommandGenerator::new(false, true, false);
    g.feed_stdout(b"ignored\n", true);
    g.feed_stderr(b"warn\n", false);
    assert_eq!(line(g.read_line()), (2, b"warn\n".to_vec()));
    assert!(matches!(g.read_line(), LineStep::Wait));
    g.feed_stderr(b"", true);
    assert!(matches!(g.read_line(), LineStep::Done));
}

#[test]
fn combined_mode_tags_streams() {
    let mut g = CommandGenerator::new(true, true, true);
    g.feed_stderr(b"e1\n", false);
    g.feed_stdout(b"o1\n", false);
    assert_eq!(line(g.read_line_combined()), (1, b"o1\n".to_vec()));
    assert_eq!(line(g.read_line_combined()), (2, b"e1\n".to_vec()));
    assert!(matches!(g.read_line_combined(), LineStep::Wait));
    g.feed_stdout(b"", true);
    g.feed_stderr(b"tail", true);
    assert_eq!(line(g.read_line_combined()), (2, b"tail".to_vec()));
    assert!(matches!(g.read_line_combined(), LineStep::Done));
}

#[test]
fn eof_is_sticky_and_buffers_are_kept() {
    let mut g = CommandGenerator::new(true, true, false);
    g.feed_stdout(b"a", true);
    g.feed_stdout(b"b\n", false);
    assert!(g.stdout_eof);
    assert_eq!(g.stdout_read_line_nb(), Some(b"ab\n".to_vec()));
    assert_eq!(g.stdout_read_line_nb(), None);
    assert_eq!(g.stderr_read_line_nb(), None);
}
