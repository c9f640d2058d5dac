use sidekick_core::sanitize::sanitize;

#[test]
fn filler_first_line_is_dropped() {
    assert_eq!(sanitize("Sure, here you go:\nHello world."), "Hello world.");
}

#[test]
fn filler_only_input_falls_back_to_raw() {
    assert_eq!(sanitize("Sure"), "Sure");
}

#[test]
fn here_is_prefix_dropped() {
    assert_eq!(sanitize("Here is the text:\n\nHello"), "Hello");
}

#[test]
fn output_prefix_dropped() {
    assert_eq!(sanitize("Output:\nfoo"), "foo");
}

#[test]
fn fixed_text_line_dropped() {
    assert_eq!(sanitize("fixed text:\nbar"), "bar");
}

#[test]
fn fixed_text_match_is_exact_not_prefix() {
    assert_eq!(sanitize("fixed texts:\nbar"), "fixed texts:\nbar");
}

#[test]
fn case_insensitive_filler() {
    assert_eq!(sanitize("SURE THING!\nanswer"), "answer");
}

#[test]
fn leading_empty_lines_dropped() {
    assert_eq!(sanitize("\n\n  \nanswer"), "answer");
}

#[test]
fn non_filler_text_only_trimmed() {
    assert_eq!(sanitize("  Hello\nworld  "), "Hello\nworld");
}

#[test]
fn empty_input_stays_empty() {
    assert_eq!(sanitize(""), "");
}

#[test]
fn crlf_lines_are_normalized() {
    assert_eq!(sanitize("Sure:\r\nHello\r\nworld"), "Hello\nworld");
}

#[test]
fn stray_carriage_return_before_newline_is_normalized_per_pass() {
    assert_eq!(sanitize("x\r\r\ny"), "x\r\ny");
    assert_eq!(sanitize("x\r\ny"), "x\ny");
    assert_eq!(sanitize("a\r"), "a");
    assert_eq!(sanitize("a"), "a");
}

#[test]
fn sanitize_is_idempotent_on_examples() {
    for raw in [
        "Sure, here you go:\nHello world.",
        "Sure",
        "Here is the text:\n\nHello",
        "  plain answer  ",
        "a\nb\nc",
        "",
    ] {
        let once = sanitize(raw);
        let twice = sanitize(&once);
        assert_eq!(twice, once);
    }
}
