use lukan_tui::summary::ToolInput;
use lukan_tui::transcript::{StreamEvent, Transcript};

fn s(x: &str) -> String {
    x.to_string()
}

fn input() -> ToolInput {
    ToolInput {
        command: Some(s("ls")),
        file_path: None,
        offset: None,
        content_bytes: None,
        replace_all: None,
        pattern: None,
        path: None,
        url: None,
        task: None,
        json: s("{}"),
    }
}

fn roles(t: &Transcript) -> Vec<String> {
    t.messages.iter().map(|m| m.role.clone()).collect()
}

fn contents(t: &Transcript) -> Vec<String> {
    t.messages.iter().map(|m| m.content.clone()).collect()
}

fn feed(t: &mut Transcript, e: StreamEvent) {
    t.handle_stream_event(e, &vec![s("Silent")], false);
}

#[test]
fn text_and_thinking_are_flushed_at_the_end() {
    let mut t = Transcript::new();
    t.is_streaming = true;
    feed(&mut t, StreamEvent::MessageStart);
    feed(&mut t, StreamEvent::ThinkingDelta { text: s("  pondering ") });
    feed(&mut t, StreamEvent::TextDelta { text: s("Hello") });
    feed(&mut t, StreamEvent::TextDelta { text: s(" world  ") });
    feed(&mut t, StreamEvent::MessageEnd { tool_use: false });
    assert_eq!(roles(&t), vec!["thinking", "assistant"]);
    assert_eq!(contents(&t), vec!["pondering", "Hello world"]);
    assert!(!t.is_streaming);
    assert!(t.streaming_text.is_empty());
}

#[test]
fn tool_calls_and_results_are_placed_in_order() {
    let mut t = Transcript::new();
    feed(&mut t, StreamEvent::TextDelta { text: s("Let me look.") });
    feed(&mut t, StreamEvent::ToolUseStart { name: s("Bash") });
    assert_eq!(t.active_tool, Some(s("Bash")));
    feed(&mut t, StreamEvent::ToolUseEnd { id: s("t1"), name: s("Bash"), input: input() });
    feed(&mut t, StreamEvent::ToolProgress { id: s("t1"), name: s("Bash"), content: s("step 1") });
    feed(&mut t, StreamEvent::ToolProgress { id: s("t1"), name: s("Bash"), content: s("step 2") });
    feed(&mut t, StreamEvent::TextDelta { text: s(" More.") });
    feed(&mut t, StreamEvent::ToolResult {
        id: s("t1"),
        name: s("Bash"),
        content: s("done"),
        is_error: None,
        diff: None,
    });
    assert_eq!(t.active_tool, None);
    assert_eq!(roles(&t), vec!["assistant", "tool_call", "tool_result", "tool_result"]);
    assert_eq!(contents(&t)[0], "Let me look.");
    assert_eq!(contents(&t)[1], "● Bash(ls)");
    assert_eq!(contents(&t)[2], "  ⎿  step 1\n     step 2");
    assert_eq!(contents(&t)[3], "  ⎿  done");
    assert_eq!(t.messages[3].tool_id, Some(s("t1")));
    // The next text of the turn goes on the same assistant message.
    feed(&mut t, StreamEvent::ToolUseStart { name: s("Grep") });
    assert_eq!(contents(&t)[0], "Let me look. More.");
}

#[test]
fn compact_results_replace_their_progress() {
    let mut t = Transcript::new();
    feed(&mut t, StreamEvent::ToolUseEnd { id: s("g"), name: s("Grep"), input: input() });
    feed(&mut t, StreamEvent::ToolProgress { id: s("g"), name: s("Grep"), content: s("searching") });
    feed(&mut t, StreamEvent::ToolResult {
        id: s("g"),
        name: s("Grep"),
        content: s("a:1\nb:2"),
        is_error: Some(false),
        diff: None,
    });
    assert_eq!(contents(&t), vec!["● Grep(? in .)", "  ⎿  2 results"]);
}

#[test]
fn silent_tools_leave_no_trace() {
    let mut t = Transcript::new();
    feed(&mut t, StreamEvent::ToolUseStart { name: s("Silent") });
    assert_eq!(t.active_tool, None);
    feed(&mut t, StreamEvent::ToolUseEnd { id: s("x"), name: s("Silent"), input: input() });
    feed(&mut t, StreamEvent::ToolProgress { id: s("x"), name: s("Silent"), content: s("...") });
    feed(&mut t, StreamEvent::ToolResult { id: s("x"), name: s("Silent"), content: s("r"), is_error: None, diff: None });
    assert!(t.messages.is_empty());
}

#[test]
fn task_tools_ask_for_a_refresh() {
    let mut t = Transcript::new();
    feed(&mut t, StreamEvent::ToolUseEnd { id: s("k"), name: s("TaskAdd"), input: input() });
    assert!(t.task_panel_needs_refresh);
}

#[test]
fn usage_adds_up() {
    let mut t = Transcript::new();
    feed(&mut t, StreamEvent::Usage { input_tokens: 100, output_tokens: 10, cache_creation_tokens: None, cache_read_tokens: Some(5) });
    feed(&mut t, StreamEvent::Usage { input_tokens: 150, output_tokens: 20, cache_creation_tokens: Some(7), cache_read_tokens: None });
    assert_eq!(t.usage.input_tokens, 250);
    assert_eq!(t.usage.output_tokens, 30);
    assert_eq!(t.usage.cache_read_tokens, 5);
    assert_eq!(t.usage.cache_creation_tokens, 7);
    assert_eq!(t.usage.context_size, 150);
}

#[test]
fn streaming_goes_on_while_tools_run_or_a_daemon_answers() {
    let mut t = Transcript::new();
    t.is_streaming = true;
    feed(&mut t, StreamEvent::MessageEnd { tool_use: true });
    assert!(t.is_streaming);
    t.handle_stream_event(StreamEvent::MessageEnd { tool_use: false }, &Vec::new(), true);
    assert!(t.is_streaming);
    feed(&mut t, StreamEvent::Error { error: s("boom") });
    assert!(!t.is_streaming);
    assert_eq!(contents(&t), vec!["Error: boom"]);
}

#[test]
fn other_events_leave_messages() {
    let mut t = Transcript::new();
    feed(&mut t, StreamEvent::ModeChanged { mode: s("plan") });
    feed(&mut t, StreamEvent::TextDelta { text: s("partial") });
    feed(&mut t, StreamEvent::QueuedMessageInjected { text: s("full"), display_text: Some(s("shown")) });
    feed(&mut t, StreamEvent::ExploreProgress { id: s("e"), activity: s("reading") });
    feed(&mut t, StreamEvent::ExploreProgress { id: s("e"), activity: s("writing") });
    assert_eq!(roles(&t), vec!["system", "assistant", "user", "tool_result"]);
    assert_eq!(contents(&t), vec!["Mode changed to: plan", "partial", "shown", "writing"]);
}
