use lukan_tui::system_prompt::{current_date_prompt, dated_prompt, system_prompt_sections, BROWSER_SECTION};
use lukan_tui::banner::build_welcome_banner;
use lukan_tui::chat::{
    build_subagent_completion_message, is_for_this_tab, should_forward_completion,
    tool_insert_position, ChatMessage,
};
use lukan_tui::commands::{command_list, filtered_commands};
use lukan_tui::history::{events_from_parsed, load_event_history, rotate_history_text};
use lukan_tui::scroll::{scroll_overflow_plan, scrolled_messages};
use lukan_tui::summary::{summarize_tool_input, ToolInput};
use lukan_tui::time::{format_elapsed, format_time_ago, Timestamp};
use lukan_tui::tool_groups::{build_tool_groups, build_tool_groups_from_texts, sort_strings, text_le};
use lukan_tui::utf8::{decode_utf8_char, encode_utf8, utf8_fit};

#[test]
fn palette_filters_commands_by_prefix() {
    let all = filtered_commands("/");
    assert_eq!(all.len(), command_list().len());
    let m = filtered_commands("/m");
    assert_eq!(m, vec![("/model", "choose model to use"), (
        "/memories",
        "manage project memory (activate | deactivate | show | add <text>)"
    )]);
    assert!(filtered_commands("model").is_empty());
    assert!(filtered_commands("/model x").is_empty());
    assert!(filtered_commands("/zzz").is_empty());
}

#[test]
fn elapsed_time_in_short_form() {
    assert_eq!(format_elapsed(5), "5s ago");
    assert_eq!(format_elapsed(-3), "-3s ago");
    assert_eq!(format_elapsed(59), "59s ago");
    assert_eq!(format_elapsed(60), "1m ago");
    assert_eq!(format_elapsed(3599), "59m ago");
    assert_eq!(format_elapsed(7200), "2h ago");
    assert_eq!(format_elapsed(86400 * 3), "3d ago");
    assert_eq!(format_elapsed(86400 * 65), "2mo ago");
}

#[test]
fn time_ago_of_an_old_timestamp() {
    let t = format_time_ago(Timestamp { secs: 0, nanos: 0 }).unwrap();
    assert!(t.ends_with("mo ago"));
    assert_eq!(format_time_ago(Timestamp { secs: i64::MAX, nanos: 0 }), None);
    assert_eq!(format_time_ago(Timestamp { secs: 0, nanos: 2_000_000_000 }), None);
    assert_eq!(format_time_ago(Timestamp { secs: 0, nanos: 1_500_000_000 }), None);
    assert!(format_time_ago(Timestamp { secs: 59, nanos: 1_500_000_000 }).is_some());
    assert!(format_time_ago(Timestamp { secs: -62_135_596_800, nanos: 999_999_999 }).is_some());
    assert!(format_time_ago(Timestamp { secs: 253_402_300_799, nanos: 0 }).is_some());
}

fn call(id: &str) -> ChatMessage {
    let mut m = ChatMessage::new("tool_call", "Bash");
    m.tool_id = Some(id.to_string());
    m
}

fn result(id: &str) -> ChatMessage {
    let mut m = ChatMessage::new("tool_result", "ok");
    m.tool_id = Some(id.to_string());
    m
}

#[test]
fn tool_results_go_after_their_call() {
    let ms = vec![
        ChatMessage::new("user", "hi"),
        call("t1"),
        result("t1"),
        call("t2"),
        ChatMessage::new("assistant", "..."),
    ];
    assert_eq!(tool_insert_position(&ms, "t1"), 3);
    assert_eq!(tool_insert_position(&ms, "t2"), 4);
    assert_eq!(tool_insert_position(&ms, "t9"), 5);
    assert_eq!(tool_insert_position(&Vec::new(), "t1"), 0);
}

#[test]
fn subagent_completion_messages() {
    assert_eq!(
        build_subagent_completion_message("a1", "completed", "  fix tests  "),
        "SubAgent a1 completed: fix tests"
    );
    let long = "t".repeat(60);
    assert_eq!(
        build_subagent_completion_message("a2", "error", &long),
        format!("SubAgent a2 error: {}...", "t".repeat(47))
    );
    // 24 two-byte characters take 48 bytes: only 23 fit in 47.
    let wide = "é".repeat(26);
    assert_eq!(
        build_subagent_completion_message("a3", "aborted", &wide),
        format!("SubAgent a3 aborted: {}...", "é".repeat(23))
    );
}

#[test]
fn completions_forwarded_for_this_tab_only() {
    assert!(should_forward_completion("completed", None, Some("tab")));
    assert!(should_forward_completion("error", Some("tab"), Some("tab")));
    assert!(!should_forward_completion("aborted", Some("other"), Some("tab")));
    assert!(!should_forward_completion("running", None, None));
    assert!(is_for_this_tab(None, None));
    assert!(!is_for_this_tab(Some("x"), None));
}

fn input() -> ToolInput {
    ToolInput {
        command: None,
        file_path: None,
        offset: None,
        content_bytes: None,
        replace_all: None,
        pattern: None,
        path: None,
        url: None,
        task: None,
        json: "{}".to_string(),
    }
}

#[test]
fn tool_input_summaries() {
    let mut i = input();
    assert_eq!(summarize_tool_input("Bash", &i), "(no command)");
    i.command = Some("ls -la".to_string());
    assert_eq!(summarize_tool_input("Bash", &i), "ls -la");
    i.file_path = Some("src/a.rs".to_string());
    assert_eq!(summarize_tool_input("ReadFiles", &i), "src/a.rs");
    i.offset = Some(40);
    assert_eq!(summarize_tool_input("ReadFiles", &i), "src/a.rs (from line 40)");
    i.content_bytes = Some(12);
    assert_eq!(summarize_tool_input("WriteFile", &i), "src/a.rs (12 bytes)");
    assert_eq!(summarize_tool_input("EditFile", &i), "src/a.rs");
    i.replace_all = Some(true);
    assert_eq!(summarize_tool_input("EditFile", &i), "src/a.rs (replace all)");
    assert_eq!(summarize_tool_input("Grep", &i), "? in .");
    i.pattern = Some("fn main".to_string());
    i.path = Some("src".to_string());
    assert_eq!(summarize_tool_input("Grep", &i), "fn main in src");
    assert_eq!(summarize_tool_input("Glob", &i), "fn main");
    assert_eq!(summarize_tool_input("WebFetch", &i), "?");
    assert_eq!(summarize_tool_input("Explore", &i), "?");
    i.task = Some("x".repeat(90));
    assert_eq!(summarize_tool_input("SubAgent", &i), format!("{}…", "x".repeat(80)));
    assert_eq!(summarize_tool_input("Unknown", &i), "{}");
    i.json = "j".repeat(201);
    assert_eq!(summarize_tool_input("Unknown", &i), format!("{}...", "j".repeat(200)));
    assert_eq!(summarize_tool_input("WriteFile", &input()), "? (0 bytes)");
}

#[test]
fn history_keeps_the_newest_half() {
    assert_eq!(rotate_history_text("a\nb\nc\n", 3), None);
    assert_eq!(rotate_history_text("a\nb\nc\nd\ne\n", 4), Some("d\ne\n".to_string()));
    assert_eq!(rotate_history_text("a\nb\nc", 2), Some("c\n".to_string()));
    assert_eq!(rotate_history_text("a\nb", 1), Some("\n".to_string()));
}

fn ev(ts: &str, level: &str, source: &str, detail: &str) -> (String, String, String, String) {
    (ts.to_string(), level.to_string(), source.to_string(), detail.to_string())
}

#[test]
fn history_events_newest_first_with_defaults() {
    let content = "{\"ts\":\"t1\",\"level\":\"warn\",\"source\":\"cron\",\"detail\":\"d1\"}\n\
                   \n\
                   not json\n\
                   {\"ts\":\"t2\"}\n\
                   {\"ts\":\"t3\",\"level\":5,\"source\":\"web\"}\n";
    let all = load_event_history(content, 10);
    assert_eq!(
        all,
        vec![
            ev("t3", "info", "web", ""),
            ev("t2", "info", "?", ""),
            ev("t1", "warn", "cron", "d1"),
        ]
    );
    let two = load_event_history(content, 2);
    assert_eq!(two, vec![ev("t3", "info", "web", ""), ev("t2", "info", "?", "")]);
    assert_eq!(load_event_history("", 5), vec![]);
    assert_eq!(load_event_history("  {\"detail\":\"x\"}  ", 0), vec![]);
    assert_eq!(load_event_history("  {\"detail\":\"x\"}  ", 1), vec![ev("", "info", "?", "x")]);
}

#[test]
fn history_events_from_parsed_lines() {
    let s = |x: &str| Some(x.to_string());
    let parsed = vec![
        Some((s("a"), None, None, None)),
        None,
        Some((s("b"), s("error"), s("src"), s("det"))),
    ];
    assert_eq!(
        events_from_parsed(parsed, 5),
        vec![ev("b", "error", "src", "det"), ev("a", "info", "?", "")]
    );
}

#[test]
fn banner_names_provider_model_and_directory() {
    let b = build_welcome_banner("openai", "gpt-4o", "/home/me");
    assert!(b.starts_with("\n ██╗"));
    assert!(b.contains("   openai > gpt-4o\n"));
    assert!(b.contains("   /home/me\n"));
    assert!(b.ends_with("Ctrl+C  Quit"));
    assert_eq!(b.lines().count(), 9);
}

#[test]
fn overflow_rows_go_to_the_scrollback() {
    assert_eq!(scroll_overflow_plan(10, 20, 0), (0, 0));
    assert_eq!(scroll_overflow_plan(30, 20, 4), (6, 10));
    assert_eq!(scroll_overflow_plan(30, 20, 12), (0, 12));
    assert_eq!(scrolled_messages(&vec![3, 4, 5], 8), (2, 7));
    assert_eq!(scrolled_messages(&vec![3, 4, 5], 2), (0, 0));
    assert_eq!(scrolled_messages(&vec![3, 0, 5], 3), (2, 3));
    assert_eq!(scrolled_messages(&vec![], 9), (0, 0));
}

#[test]
fn utf8_round_trip() {
    for c in ['a', 'é', '中', '😀'] {
        let bytes = encode_utf8(c);
        assert_eq!(bytes, c.to_string().into_bytes());
        assert_eq!(decode_utf8_char(&bytes), Some(c));
    }
    assert_eq!(decode_utf8_char(&vec![0xff]), None);
    assert_eq!(decode_utf8_char(&vec![0xed, 0xa0, 0x80]), None);
}

#[test]
fn bytes_fit_for_any_limit() {
    let t: Vec<char> = "aé中😀".chars().collect();
    assert_eq!(utf8_fit(&t, usize::MAX), (false, 4));
    assert_eq!(utf8_fit(&t, 10), (false, 4));
    assert_eq!(utf8_fit(&t, 9), (true, 3));
    assert_eq!(utf8_fit(&t, 5), (true, 2));
    assert_eq!(utf8_fit(&t, 0), (true, 0));
}

fn strs(v: &[&str]) -> Vec<String> {
    v.iter().map(|s| s.to_string()).collect()
}

#[test]
fn tool_groups_are_sorted_and_filtered() {
    let plugins = vec![
        ("zeta".to_string(), strs(&["b", "a", "b"])),
        ("alpha".to_string(), Vec::new()),
        ("mid".to_string(), strs(&["c"])),
    ];
    let all = strs(&["Read", "Bash", "c", "BrowserClick", "Grep"]);
    let groups = build_tool_groups(plugins, true, &all);
    let names: Vec<&str> = groups.iter().map(|g| g.name.as_str()).collect();
    assert_eq!(names, vec!["Browser", "Core", "mid", "zeta"]);
    assert_eq!(
        groups[0].tools,
        strs(&[
            "BrowserClick",
            "BrowserEvaluate",
            "BrowserNavigate",
            "BrowserNewTab",
            "BrowserSavePDF",
            "BrowserScreenshot",
            "BrowserSnapshot",
            "BrowserSwitchTab",
            "BrowserTabs",
            "BrowserType",
        ])
    );
    assert_eq!(groups[1].tools, strs(&["Bash", "Grep", "Read"]));
    assert_eq!(groups[2].tools, strs(&["c"]));
    assert_eq!(groups[3].tools, strs(&["a", "b"]));
    let without_browser = build_tool_groups(Vec::new(), false, &strs(&["BrowserTabs"]));
    assert!(without_browser.is_empty());
    assert_eq!(sort_strings(strs(&["b", "B", "a", "é", "aa"])), strs(&["B", "a", "aa", "b", "é"]));
    assert!(text_le("ab", "abc"));
    assert!(!text_le("b", "abc"));
    assert!(text_le("", ""));
}

#[test]
fn tool_lists_are_read_from_each_plugins_json() {
    let plugins = vec![
        ("zeta".to_string(), r#"[{"name":"b"},{"name":"a"},{"x":1},{"name":7},{"name":"b"}]"#.to_string()),
        ("broken".to_string(), "not json".to_string()),
        ("object".to_string(), r#"{"name":"q"}"#.to_string()),
        ("mid".to_string(), r#"[{"name":"c","description":"d"}]"#.to_string()),
    ];
    let all = strs(&["Read", "c", "q"]);
    let groups = build_tool_groups_from_texts(plugins, false, &all);
    let names: Vec<&str> = groups.iter().map(|g| g.name.as_str()).collect();
    assert_eq!(names, vec!["Core", "mid", "zeta"]);
    assert_eq!(groups[0].tools, strs(&["Read", "q"]));
    assert_eq!(groups[1].tools, strs(&["c"]));
    assert_eq!(groups[2].tools, strs(&["a", "b"]));
}

#[test]
fn system_prompt_sections_skip_blank_memories() {
    let plugins = vec!["  plug one \n".to_string(), "   ".to_string(), "two".to_string()];
    let r = system_prompt_sections("BASE", false, Some("  remember me \n"), Some(" sums ".to_string()), Some("  "), &plugins);
    assert_eq!(
        r,
        vec![
            "BASE".to_string(),
            "## Global Memory\n\nremember me".to_string(),
            " sums ".to_string(),
            "plug one".to_string(),
            "two".to_string(),
        ]
    );
    let r = system_prompt_sections("BASE", true, None, None, Some("be brief"), &vec![]);
    assert_eq!(r.len(), 2);
    assert_eq!(r[0], format!("BASE{BROWSER_SECTION}"));
    assert!(r[0].starts_with("BASE\n\n## Browser Tools (CRITICAL)\n\nYou have a managed Chrome browser connected via CDP. You MUST"));
    assert!(r[0].contains("- `BrowserSwitchTab` — switch to a different tab by number\n\nWorkflow:"));
    assert!(r[0].ends_with("unless the user explicitly provides them and asks you to."));
    assert_eq!(r[1], "## Project Behavior Profile\n\nbe brief");
    let t = dated_prompt(Timestamp { secs: 1704164645, nanos: 0 }, "Europe/Madrid");
    assert_eq!(t, "Current date: 2024-01-02 03:04 UTC (Europe/Madrid). Use this for any time-relative operations.");
    let now = current_date_prompt("UTC");
    assert!(now.starts_with("Current date: 20") && now.ends_with(" UTC (UTC). Use this for any time-relative operations."));
}

#[test]
fn the_banner_is_replaced_in_place() {
    let mut ms = vec![
        ChatMessage::new("system", "hi"),
        ChatMessage::new("banner", "old"),
        ChatMessage::new("banner", "older"),
    ];
    lukan_tui::chat::replace_banner(&mut ms, "new".to_string());
    let texts: Vec<&str> = ms.iter().map(|m| m.content.as_str()).collect();
    assert_eq!(texts, vec!["hi", "new", "older"]);
    let mut none = vec![ChatMessage::new("user", "x")];
    lukan_tui::chat::replace_banner(&mut none, "new".to_string());
    assert_eq!(none[0].content, "x");
}
