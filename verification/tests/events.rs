use lukan_tui::event_agent::{auto_turn_prompt_text, EventChat};
use lukan_tui::history::{history_lines, read_pending_events};
use lukan_tui::input::InputLine;
use lukan_tui::summary::ToolInput;
use lukan_tui::transcript::StreamEvent;

fn s(x: &str) -> String {
    x.to_string()
}

fn input() -> ToolInput {
    ToolInput {
        command: Some(s("uptime")),
        file_path: None,
        offset: None,
        content_bytes: None,
        replace_all: None,
        pattern: None,
        path: None,
        url: None,
        task: None,
        json: s("{}"),
    }
}

fn chat(c: &EventChat) -> Vec<(String, String, Option<String>)> {
    c.messages.iter().map(|m| (m.role.clone(), m.content.clone(), m.tool_id.clone())).collect()
}

#[test]
fn pending_events_are_read_with_defaults() {
    let content = "  {\"source\":\"disk\",\"level\":\"warn\",\"detail\":\"90% full\"}\n\
                   \n\
                   garbage\n\
                   {\"level\":\"critical\"}\n\
                   {\"source\":\"net\",\"detail\":\"up\",\"level\":\"straße\"}\n";
    let p = read_pending_events(content);
    assert_eq!(
        p.events,
        vec![
            (s("disk"), s("warn"), s("90% full")),
            (s("?"), s("critical"), s("")),
            (s("net"), s("straße"), s("up")),
        ]
    );
    assert_eq!(
        p.toasts,
        vec![s("[WARN] disk: 90% full"), s("[CRITICAL] ?: "), s("[STRASSE] net: up")]
    );
    assert!(p.has_critical);

    let calm = read_pending_events("{\"level\":\"info\"}\n{}\n");
    assert_eq!(calm.events, vec![(s("?"), s("info"), s("")), (s("?"), s("info"), s(""))]);
    assert!(!calm.has_critical);
    assert!(read_pending_events("{\"level\":\"error\"}").has_critical);
    let none = read_pending_events("   \n\n");
    assert!(none.events.is_empty() && none.toasts.is_empty() && !none.has_critical);
}

#[test]
fn pending_lines_are_appended_trimmed() {
    assert_eq!(history_lines("  a  \n\n b\r\n   \n"), "a\nb\n");
    assert_eq!(history_lines(""), "");
    assert_eq!(history_lines("x"), "x\n");
}

#[test]
fn the_event_agent_chat_follows_its_stream() {
    let mut c = EventChat::new();
    c.is_streaming = true;
    c.handle_event_agent_stream_event(StreamEvent::MessageStart);
    c.handle_event_agent_stream_event(StreamEvent::TextDelta { text: s("Checking ") });
    c.handle_event_agent_stream_event(StreamEvent::TextDelta { text: s("load.  ") });
    c.handle_event_agent_stream_event(StreamEvent::ToolUseStart { name: s("Bash") });
    assert_eq!(c.active_tool, Some(s("Bash")));
    assert!(c.streaming_text.is_empty());
    c.handle_event_agent_stream_event(StreamEvent::ToolUseEnd { id: s("t1"), name: s("Bash"), input: input() });
    c.handle_event_agent_stream_event(StreamEvent::ToolProgress { id: s("t1"), name: s("Bash"), content: s("running") });
    c.handle_event_agent_stream_event(StreamEvent::ToolResult {
        id: s("t1"),
        name: s("Bash"),
        content: s("load 0.5\n"),
        is_error: None,
        diff: Some(s("ignored")),
    });
    assert_eq!(c.active_tool, None);
    c.handle_event_agent_stream_event(StreamEvent::Usage {
        input_tokens: 10,
        output_tokens: 3,
        cache_creation_tokens: Some(100),
        cache_read_tokens: None,
    });
    c.handle_event_agent_stream_event(StreamEvent::Usage {
        input_tokens: 5,
        output_tokens: 2,
        cache_creation_tokens: None,
        cache_read_tokens: None,
    });
    c.handle_event_agent_stream_event(StreamEvent::TextDelta { text: s("All fine.\n") });
    c.handle_event_agent_stream_event(StreamEvent::ModeChanged { mode: s("plan") });
    c.handle_event_agent_stream_event(StreamEvent::MessageEnd { tool_use: false });
    assert!(!c.is_streaming);
    assert_eq!((c.input_tokens, c.output_tokens), (15, 5));
    assert_eq!(
        chat(&c),
        vec![
            (s("assistant"), s("Checking load."), None),
            (s("tool_call"), s("● Bash(uptime)"), Some(s("t1"))),
            (s("tool_result"), s("  ⎿  running"), Some(s("t1"))),
            (s("tool_result"), s("  ⎿  load 0.5"), Some(s("t1"))),
            (s("assistant"), s("All fine."), None),
        ]
    );
    assert!(c.messages.iter().all(|m| m.diff.is_none()));
    c.is_streaming = true;
    c.handle_event_agent_stream_event(StreamEvent::TextDelta { text: s("   ") });
    c.handle_event_agent_stream_event(StreamEvent::Error { error: s("quota") });
    assert!(!c.is_streaming);
    assert_eq!(chat(&c).last().unwrap().1, "Error: quota");
    // A blank text is not flushed.
    c.handle_event_agent_stream_event(StreamEvent::MessageEnd { tool_use: false });
    assert_eq!(c.messages.len(), 6);
}

#[test]
fn a_result_without_its_call_goes_last() {
    let mut c = EventChat::new();
    c.handle_event_agent_stream_event(StreamEvent::ToolResult {
        id: s("x"),
        name: s("Bash"),
        content: s("   "),
        is_error: Some(true),
        diff: None,
    });
    assert_eq!(chat(&c), vec![(s("tool_result"), s("  ⎿  (no output)"), Some(s("x")))]);
}

fn typed(text: &str) -> InputLine {
    let mut l = InputLine::new();
    for ch in text.chars() {
        l.insert_char(ch);
    }
    l
}

#[test]
fn submitting_to_the_event_agent() {
    let mut c = EventChat::new();
    let mut line = typed("  why is disk full?  ");
    let sent = c.submit_to_event_agent(&mut line);
    assert_eq!(sent, Some(s("why is disk full?")));
    assert!(line.text.is_empty() && line.cursor == 0);
    assert!(c.is_streaming);
    assert_eq!(chat(&c), vec![(s("user"), s("why is disk full?"), None)]);
    // Busy: the input stays.
    let mut more = typed("again");
    assert_eq!(c.submit_to_event_agent(&mut more), None);
    assert_eq!(more.text.iter().collect::<String>(), "again");
    // Blank input is cleared and not sent.
    c.is_streaming = false;
    let mut blank = typed("   ");
    assert_eq!(c.submit_to_event_agent(&mut blank), None);
    assert!(blank.text.is_empty());
    assert_eq!(c.messages.len(), 1);
    assert!(!c.is_streaming);
}

#[test]
fn the_event_agent_starts_by_itself() {
    let mut c = EventChat::new();
    c.streaming_text = "stale".chars().collect();
    assert!(c.trigger_event_agent_auto_turn(true));
    assert!(c.is_streaming && c.streaming_text.is_empty() && !c.has_unread);
    assert_eq!(chat(&c), vec![(s("system"), s("Investigating system events..."), None)]);
    assert!(!c.trigger_event_agent_auto_turn(false));
    assert_eq!(c.messages.len(), 1);
    c.is_streaming = false;
    assert!(c.trigger_event_agent_auto_turn(false));
    assert!(c.has_unread);
    assert_eq!(
        auto_turn_prompt_text(),
        "New system events have arrived. Analyze them, investigate the root cause, and take simple corrective action if safe. Report your findings."
    );
}

#[test]
fn opening_the_event_view() {
    let mut c = EventChat::new();
    c.has_unread = true;
    c.open_view();
    assert!(!c.has_unread);
    assert_eq!(
        chat(&c),
        vec![(
            s("system"),
            s("Event Agent view. System events will appear here.\nAlt+L to view events. Press Alt+E to return to main view."),
            None
        )]
    );
    c.open_view();
    assert_eq!(c.messages.len(), 1);
}
