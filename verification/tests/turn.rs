use loggen::effective_parallelism;
use loggen::plan_turn;
use loggen::ReadEvent;
use loggen::TurnAction;
use loggen::WrapAction;
use loggen::WrapStrategy;

#[test]
fn line_is_emitted_unchanged() {
    match plan_turn(ReadEvent::Line("x\n".to_string()), WrapStrategy::Truncate) {
        TurnAction::Emit(l) => assert_eq!(l, "x\n"),
        _ => panic!("a line must be emitted"),
    }
}

#[test]
fn end_of_input_wraps_by_strategy() {
    match plan_turn(ReadEvent::EndOfInput, WrapStrategy::Append) {
        TurnAction::Wrap(w) => assert_eq!(w, WrapAction::KeepOutput),
        _ => panic!("end of input must wrap"),
    }
    match plan_turn(ReadEvent::EndOfInput, WrapStrategy::Truncate) {
        TurnAction::Wrap(w) => assert_eq!(w, WrapAction::TruncateOutput),
        _ => panic!("end of input must wrap"),
    }
    match plan_turn(ReadEvent::EndOfInput, WrapStrategy::Rotate) {
        TurnAction::Wrap(w) => assert_eq!(w, WrapAction::RotateOutput),
        _ => panic!("end of input must wrap"),
    }
}

#[test]
fn read_error_is_reported_only() {
    assert!(matches!(
        plan_turn(ReadEvent::ReadError, WrapStrategy::Rotate),
        TurnAction::Report
    ));
}

#[test]
fn explicit_parallelism_is_kept() {
    assert_eq!(effective_parallelism(4), 4);
    assert_eq!(effective_parallelism(1), 1);
}

#[test]
fn zero_parallelism_detects_at_least_one_worker() {
    assert!(effective_parallelism(0) >= 1);
}
