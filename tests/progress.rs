use seula::progress::{percent, Phase, ProgressError, ProgressReporter};
use seula::line_buffer::LineTrackingBuffer;

#[test]
fn phases_move_forward_only() {
    let mut r = ProgressReporter::new();
    assert!(r.report(Phase::Starting, 0, 0, "Starting".to_string()).is_ok());
    let u = r.report(Phase::Parsing, 3, 10, "Parsing".to_string()).unwrap();
    assert_eq!(u.percent, Some(30));
    assert!(r.report(Phase::Parsing, 4, 10, "more".to_string()).is_ok());
    assert_eq!(r.report(Phase::Discovering, 0, 0, "back".to_string()).unwrap_err(), ProgressError::Backward);
    assert_eq!(r.current_phase(), Some(Phase::Parsing));
    assert!(r.report(Phase::Completed, 10, 10, "done".to_string()).is_ok());
}

#[test]
fn percent_of_unknown_total() {
    assert_eq!(percent(5, 0), None);
    assert_eq!(percent(1, 3), Some(33));
    assert_eq!(percent(u32::MAX, u32::MAX), Some(100));
}

#[test]
fn phase_names_and_labels() {
    assert_eq!(Phase::Inserting.name(), "inserting");
    assert_eq!(Phase::Inserting.label(), "Saving");
    assert_eq!(Phase::Preprocessing.label(), "Preprocessing");
    assert_eq!(Phase::Completed.order(), 5);
}

#[test]
fn line_numbers_follow_newlines() {
    let mut b = LineTrackingBuffer::new(b"ab\ncd\n\nef".to_vec());
    assert_eq!(b.get_line_number(0), 1);
    assert_eq!(b.get_line_number(3), 2);
    assert_eq!(b.get_line_number(1), 2);
    assert_eq!(b.get_line_number(7), 4);
    assert_eq!(b.get_line_number(1000), 4);
    b.update_position(2000);
    assert_eq!(b.get_line_number(0), 4);
}
