use lukan_tui::format::{
    format_bash_preview, format_progress_preview, format_tool_progress_named, format_tool_result,
    format_tool_result_named, format_web_preview,
};

#[test]
fn web_fetch_result_is_compacted_to_single_line_preview() {
    let content = "Title\n\nFirst paragraph with useful context.\nSecond paragraph with more details.";
    let formatted = format_tool_result_named("WebFetch", content, false);
    assert_eq!(
        formatted,
        "  ⎿  Title First paragraph with useful context. Second paragraph with more details."
    );
}

#[test]
fn web_search_result_is_truncated_with_ellipsis() {
    let content = format!("Result {}", "x".repeat(400));
    let formatted = format_tool_result_named("WebSearch", &content, false);
    assert!(formatted.starts_with("  ⎿  Result "));
    assert!(formatted.ends_with("..."));
    assert_eq!(formatted.lines().count(), 1);
}

#[test]
fn bash_result_is_compacted_to_single_line_preview() {
    let content = "[{\"number\":1,\"title\":\"A very long pull request title\"}]\nmore text";
    let formatted = format_tool_result_named("Bash", content, false);
    assert!(formatted.starts_with("  ⎿  [{\"number\":1"));
    assert_eq!(formatted.lines().count(), 1);
}

#[test]
fn bash_progress_is_truncated_to_single_line_preview() {
    let content = format!("Running Bash... {}", "x".repeat(400));
    let formatted = format_tool_progress_named("Bash", &content);
    assert!(formatted.starts_with("  ⎿  Running Bash... "));
    assert!(formatted.ends_with("..."));
    assert_eq!(formatted.lines().count(), 1);
}

#[test]
fn tool_result_drops_blank_lines_and_indents_the_rest() {
    let formatted = format_tool_result("first\n\n   \nsecond\nthird", false);
    assert_eq!(formatted, "  ⎿  first\n     second\n     third");
}

#[test]
fn tool_error_uses_the_error_mark() {
    assert_eq!(format_tool_result("boom", true), "  ⎿  ✗ boom");
}

#[test]
fn tool_result_without_output() {
    assert_eq!(format_tool_result("", false), "  ⎿  (no output)");
    assert_eq!(format_tool_result(" \n\t\n", true), "  ⎿  (no output)");
}

#[test]
fn read_files_result_counts_lines() {
    assert_eq!(format_tool_result_named("ReadFiles", "a\nb\n\nc", false), "  ⎿  4 lines");
    assert_eq!(format_tool_result_named("ReadFiles", "", false), "  ⎿  0 lines");
}

#[test]
fn grep_result_counts_matches() {
    assert_eq!(format_tool_result_named("Grep", "No matches found.", false), "  ⎿  No matches found.");
    assert_eq!(format_tool_result_named("Grep", "a:1\n\nb:2\n", false), "  ⎿  2 results");
}

#[test]
fn glob_result_counts_files() {
    assert_eq!(format_tool_result_named("Glob", "No files matched", false), "  ⎿  No files matched");
    assert_eq!(format_tool_result_named("Glob", "x.rs\ny.rs\nz.rs", false), "  ⎿  3 files");
}

#[test]
fn error_result_of_a_named_tool() {
    assert_eq!(format_tool_result_named("Grep", "bad pattern", true), "  ⎿  ✗ bad pattern");
}

#[test]
fn other_tool_result_keeps_lines() {
    assert_eq!(format_tool_result_named("Other", "one\ntwo", false), "  ⎿  one\n     two");
}

#[test]
fn previews_without_output() {
    assert_eq!(format_web_preview("  \n "), "  ⎿  (no output)");
    assert_eq!(format_bash_preview(""), "  ⎿  (no output)");
    assert_eq!(format_progress_preview("\t"), "  ⎿  (no output)");
}

#[test]
fn preview_is_cut_at_240_characters() {
    let content = "y".repeat(300);
    let formatted = format_bash_preview(&content);
    assert_eq!(formatted, format!("  ⎿  {}...", "y".repeat(240)));
}

#[test]
fn preview_drops_whitespace_before_the_ellipsis() {
    let content = format!("{} {}", "a".repeat(239), "b".repeat(10));
    let formatted = format_web_preview(&content);
    assert_eq!(formatted, format!("  ⎿  {}...", "a".repeat(239)));
}

#[test]
fn progress_of_other_tools_is_shown_as_is() {
    assert_eq!(format_tool_progress_named("Grep", "searching\nnow"), "  ⎿  searching\nnow");
}
