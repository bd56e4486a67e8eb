use time_calculator::session::{FeedOutcome, SessionAccumulator};

#[test]
fn same_token_twice_doubles_total() {
    let mut session = SessionAccumulator::new();
    assert_eq!(session.total, 0);
    session.feed("8:30");
    assert_eq!(session.total, 510);
    session.feed("8:30");
    assert_eq!(session.total, 2 * 510);
}

#[test]
fn blank_line_ends_session_whatever_the_state() {
    let mut fresh = SessionAccumulator::new();
    assert!(matches!(fresh.feed(""), FeedOutcome::Ended));
    assert!(fresh.done);
    assert_eq!(fresh.total, 0);

    let mut loaded = SessionAccumulator { total: 777, done: false };
    assert!(matches!(loaded.feed(""), FeedOutcome::Ended));
    assert!(loaded.done);
    assert_eq!(loaded.total, 777);
}

#[test]
fn invalid_line_changes_nothing_and_session_goes_on() {
    let mut session = SessionAccumulator::new();
    session.feed("8:30");
    let outcome = session.feed("not a time");
    assert!(matches!(outcome, FeedOutcome::Rejected));
    assert!(!session.done);
    assert_eq!(session.total, 510);
    session.feed("0:30");
    assert_eq!(session.total, 540);
}

#[test]
fn end_to_end_scenario() {
    let mut session = SessionAccumulator::new();

    let first = session.feed("8:30");
    match first {
        FeedOutcome::Accepted(rep) => {
            assert_eq!(rep.entry_hours, 8);
            assert_eq!(rep.entry_minutes, 30);
            assert_eq!(rep.total_hours, 8);
            assert_eq!(rep.total_minutes, 30);
            assert_eq!(rep.remaining_hours, 36);
            assert_eq!(rep.remaining_minutes, 30);
        }
        _ => panic!("first entry should be accepted"),
    }

    let second = session.feed("7:45");
    match second {
        FeedOutcome::Accepted(rep) => {
            assert_eq!(rep.entry_hours, 7);
            assert_eq!(rep.entry_minutes, 45);
            assert_eq!(rep.total_hours, 16);
            assert_eq!(rep.total_minutes, 15);
            assert_eq!(rep.remaining_hours, 28);
            assert_eq!(rep.remaining_minutes, 45);
        }
        _ => panic!("second entry should be accepted"),
    }

    assert!(matches!(session.feed(""), FeedOutcome::Ended));
    assert!(session.done);
    assert_eq!(session.final_summary(), (16, 15));
}

#[test]
fn remaining_goes_negative_past_the_target() {
    let mut session = SessionAccumulator::new();
    session.feed("23:45");
    let outcome = session.feed("23:45");
    match outcome {
        FeedOutcome::Accepted(rep) => {
            assert_eq!(rep.total_hours, 47);
            assert_eq!(rep.total_minutes, 30);
            // 2700 - 2850 = -150, shown with truncation toward zero
            assert_eq!(rep.remaining_hours, -2);
            assert_eq!(rep.remaining_minutes, -30);
        }
        _ => panic!("entry should be accepted"),
    }
}
