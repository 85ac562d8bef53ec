use loggen::WrapStrategy;

#[test]
fn parses_truncate() {
    assert_eq!(
        WrapStrategy::from_str("truncate", WrapStrategy::Append),
        WrapStrategy::Truncate
    );
}

#[test]
fn parses_append() {
    assert_eq!(
        WrapStrategy::from_str("append", WrapStrategy::Rotate),
        WrapStrategy::Append
    );
}

#[test]
fn parses_rotate() {
    assert_eq!(
        WrapStrategy::from_str("rotate", WrapStrategy::Append),
        WrapStrategy::Rotate
    );
}

#[test]
fn unknown_name_falls_back_to_default() {
    assert_eq!(
        WrapStrategy::from_str("gzip", WrapStrategy::Append),
        WrapStrategy::Append
    );
    assert_eq!(
        WrapStrategy::from_str("", WrapStrategy::Rotate),
        WrapStrategy::Rotate
    );
    assert_eq!(
        WrapStrategy::from_str("Truncate", WrapStrategy::Append),
        WrapStrategy::Append
    );
}
