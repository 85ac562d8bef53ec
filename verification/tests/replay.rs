use loggen::ReplayUnit;
use loggen::WrapStrategy;

fn unit(lines: &[&str]) -> ReplayUnit {
    ReplayUnit::new(lines.iter().map(|s| s.to_string()).collect())
}

fn strings(lines: &[&str]) -> Vec<String> {
    lines.iter().map(|s| s.to_string()).collect()
}

#[test]
fn append_first_pass_copies_input_once() {
    let mut u = unit(&["a\n", "b\n", "c\n"]);
    u.run_turns(WrapStrategy::Append, 3);
    assert_eq!(u.out, strings(&["a\n", "b\n", "c\n"]));
    assert_eq!(u.cursor, 3);
    assert!(u.rotated.is_none());
}

#[test]
fn append_two_full_cycles_copies_input_twice() {
    let mut u = unit(&["a\n", "b\n", "c\n"]);
    // a full cycle is four turns: three emits, then the wrap turn
    u.run_turns(WrapStrategy::Append, 8);
    assert_eq!(u.out, strings(&["a\n", "b\n", "c\n", "a\n", "b\n", "c\n"]));
    assert_eq!(u.cursor, 0);
}

#[test]
fn single_line_append_three_copies() {
    // one emitting turn per copy, with a wrap turn between passes
    let mut u = unit(&["hello\n"]);
    let mut turns = 0;
    while u.out.len() < 3 {
        u.step(WrapStrategy::Append);
        turns += 1;
        assert!(turns < 100);
    }
    assert_eq!(u.out, strings(&["hello\n", "hello\n", "hello\n"]));
    assert_eq!(turns, 5);
}

#[test]
fn truncate_resets_output_at_wrap() {
    let mut u = unit(&["a\n", "b\n"]);
    u.run_turns(WrapStrategy::Truncate, 2);
    assert_eq!(u.out, strings(&["a\n", "b\n"]));
    u.step(WrapStrategy::Truncate);
    assert!(u.out.is_empty());
    assert_eq!(u.cursor, 0);
    u.step(WrapStrategy::Truncate);
    assert_eq!(u.out, strings(&["a\n"]));
    assert!(u.rotated.is_none());
}

#[test]
fn truncate_never_exceeds_one_copy() {
    let mut u = unit(&["a\n", "b\n"]);
    for _ in 0..20 {
        u.step(WrapStrategy::Truncate);
        assert!(u.out.len() <= 2);
        if u.cursor == 2 {
            assert_eq!(u.out, strings(&["a\n", "b\n"]));
        }
    }
}

#[test]
fn rotate_full_pass_moves_one_copy() {
    let mut u = unit(&["a\n", "b\n"]);
    u.run_turns(WrapStrategy::Rotate, 3);
    assert_eq!(u.rotated, Some(strings(&["a\n", "b\n"])));
    assert!(u.out.is_empty());
    assert_eq!(u.cursor, 0);
}

#[test]
fn rotate_second_pass_overwrites_with_identical_content() {
    let mut u = unit(&["a\n", "b\n"]);
    u.run_turns(WrapStrategy::Rotate, 6);
    assert_eq!(u.rotated, Some(strings(&["a\n", "b\n"])));
    assert!(u.out.is_empty());
    u.step(WrapStrategy::Rotate);
    assert_eq!(u.out, strings(&["a\n"]));
}

#[test]
fn empty_input_never_emits() {
    let mut u = unit(&[]);
    u.run_turns(WrapStrategy::Append, 5);
    assert!(u.out.is_empty());
    assert!(u.rotated.is_none());

    let mut u = unit(&[]);
    u.run_turns(WrapStrategy::Truncate, 5);
    assert!(u.out.is_empty());
    assert!(u.rotated.is_none());
}

#[test]
fn empty_input_rotate_still_fires_every_turn() {
    let mut u = unit(&[]);
    assert!(u.rotated.is_none());
    u.step(WrapStrategy::Rotate);
    assert_eq!(u.rotated, Some(Vec::new()));
    u.step(WrapStrategy::Rotate);
    assert_eq!(u.rotated, Some(Vec::new()));
    assert!(u.out.is_empty());
    assert_eq!(u.cursor, 0);
}

#[test]
fn lines_are_emitted_byte_for_byte() {
    let mut u = unit(&["no newline at all"]);
    u.step(WrapStrategy::Append);
    assert_eq!(u.out, strings(&["no newline at all"]));
}
