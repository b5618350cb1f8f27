use codie::logging::Loggable;
use codie::output::{Output, OutputBuilder};
use codie::runner::{Action, Phase};

#[test]
fn builder_keeps_order_and_bytes() {
    let mut b = OutputBuilder::new(100);
    assert!(!b.push_chunk(b"stdout\n"));
    assert!(!b.push_chunk(b"stderr\n"));
    assert!(!b.overflowed());
    assert_eq!(b.build(), "stdout\nstderr\n");
}

#[test]
fn builder_counts_codepoints_not_bytes() {
    // four characters of two bytes each: eight bytes, four codepoints
    let mut b = OutputBuilder::new(4);
    assert!(!b.push_chunk("éééé".as_bytes()));
    assert!(!b.overflowed());
    assert_eq!(b.build(), "éééé");
}

#[test]
fn builder_truncates_at_budget() {
    let mut b = OutputBuilder::new(4);
    assert!(!b.push_chunk(b"abcd"));
    assert!(b.push_chunk(b"e"));
    assert!(b.overflowed());
    let s = b.build();
    assert_eq!(s, "abcd...");
    assert!(s.chars().count() <= 4 + 3);
}

#[test]
fn builder_drops_the_overflowing_chunk_whole() {
    let mut b = OutputBuilder::new(4);
    assert!(!b.push_chunk(b"abc"));
    assert!(b.push_chunk(b"de"));
    assert_eq!(b.build(), "abc...");
}

#[test]
fn builder_decodes_invalid_bytes_lossily() {
    let mut b = OutputBuilder::new(100);
    assert!(!b.push_chunk(b"ab"));
    assert!(!b.push_chunk(&[0xff]));
    let s = b.build();
    assert_eq!(s, "ab\u{fffd}");
}

#[test]
fn success_is_status_zero() {
    assert!(Output { status: 0, tty: String::new() }.success());
    assert!(!Output { status: 1, tty: String::new() }.success());
    assert!(!Output { status: 137, tty: String::new() }.success());
}

#[test]
fn render_failed_run_starts_with_exit_status() {
    let out = Output { status: 123, tty: "stdout\nstderr\n".to_string() };
    let r = out.render();
    assert!(r.starts_with("**EXIT STATUS:** 123\n"));
    assert_eq!(r, "**EXIT STATUS:** 123\n```\nstdout\nstderr\n```");
}

#[test]
fn render_success_wraps_in_fence() {
    let out = Output { status: 0, tty: "hi\n".to_string() };
    assert_eq!(out.render(), "```\nhi\n```");
}

#[test]
fn render_silent_success_is_empty() {
    let out = Output { status: 0, tty: String::new() };
    assert_eq!(out.render(), "");
}

#[test]
fn render_failed_run_with_empty_output_keeps_block() {
    let out = Output { status: 2, tty: String::new() };
    assert_eq!(out.render(), "**EXIT STATUS:** 2\n```\n```");
}

#[test]
fn render_escapes_fence_delimiters() {
    let out = Output { status: 0, tty: "a```b````c".to_string() };
    let r = out.render();
    assert_eq!(r, "```\na\u{2cb}\u{2cb}\u{2cb}b\u{2cb}\u{2cb}\u{2cb}`c```");
    assert!(!r[4..r.len() - 3].contains("```"));
}

#[test]
fn render_large_status() {
    let out = Output { status: u64::MAX, tty: "x".to_string() };
    assert!(out.render().starts_with("**EXIT STATUS:** 18446744073709551615\n"));
}

#[test]
fn log_lines_name_lifecycle_points() {
    assert_eq!(Phase::Creating.as_log(), "creating");
    assert_eq!(Phase::Streaming.as_log(), "started");
    assert_eq!(Action::RemoveContainer.as_log(), "force-remove container");
}
