use lukan_tui::chat::ChatMessage;
use lukan_tui::daemon::{
    bg_entries, rewind_entries, BgPicker, BgProcessInfo, ChatState, CheckpointInfo, DaemonEvent,
    PermissionMode, SubAgentUpdate,
};
use lukan_tui::input::InputLine;
use lukan_tui::keys::KeyCode;
use lukan_tui::session::{
    find_tool_result, loaded_session_messages, open_session_picker, session_chat_messages,
    session_picker_key, ContentBlock, MessageContent, Role, SessionAction, SessionEntry,
    SessionMessage,
};
use lukan_tui::summary::ToolInput;
use lukan_tui::time::{instant_or_now, Timestamp};
use lukan_tui::transcript::{StreamEvent, Transcript};
use lukan_tui::widgets::{session_ages, session_picker_lines, Tone};

fn s(x: &str) -> String {
    x.to_string()
}

fn input(command: &str) -> ToolInput {
    ToolInput {
        command: Some(s(command)),
        file_path: None,
        offset: None,
        content_bytes: None,
        replace_all: None,
        pattern: None,
        path: None,
        url: None,
        task: None,
        json: s("{}"),
    }
}

fn text(t: &str) -> ContentBlock {
    ContentBlock::Text { text: s(t) }
}

fn tool_use(id: &str, command: &str) -> ContentBlock {
    ContentBlock::ToolUse { id: s(id), name: s("Bash"), input: input(command) }
}

fn tool_result(id: &str, content: &str, is_error: Option<bool>, diff: Option<&str>) -> ContentBlock {
    ContentBlock::ToolResult {
        tool_use_id: s(id),
        content: s(content),
        is_error,
        diff: diff.map(s),
    }
}

fn msg(role: Role, blocks: Vec<ContentBlock>) -> SessionMessage {
    SessionMessage { role, content: MessageContent::Blocks(blocks) }
}

fn plain(role: Role, t: &str) -> SessionMessage {
    SessionMessage { role, content: MessageContent::Text(s(t)) }
}

fn view(ms: &[ChatMessage]) -> Vec<(String, String, Option<String>)> {
    ms.iter().map(|m| (m.role.clone(), m.content.clone(), m.diff.clone())).collect()
}

fn line(role: &str, content: &str) -> (String, String, Option<String>) {
    (s(role), s(content), None)
}

fn session() -> Vec<SessionMessage> {
    vec![
        plain(Role::User, "list the files"),
        msg(Role::Assistant, vec![text("Sure."), text("Running it."), tool_use("t1", "ls"), tool_use("t2", "pwd")]),
        msg(Role::User, vec![tool_result("t1", "a.txt\n\nb.txt", None, Some("+a"))]),
        plain(Role::System, "hidden"),
        msg(Role::Assistant, vec![]),
        msg(Role::User, vec![text(""), tool_result("t1", "boom", Some(true), None)]),
        msg(Role::User, vec![text("one"), text("two")]),
    ]
}

#[test]
fn session_messages_become_chat_lines() {
    let ms = session();
    let lines = session_chat_messages(&ms);
    assert_eq!(
        view(&lines),
        vec![
            line("user", "list the files"),
            line("assistant", "Sure.\nRunning it."),
            line("tool_call", "● Bash(ls)"),
            (s("tool_result"), s("  ⎿  ✗ boom"), None),
            line("tool_call", "● Bash(pwd)"),
            line("user", "one\ntwo"),
        ]
    );
    assert!(lines.iter().all(|m| m.tool_id.is_none()));
}

#[test]
fn a_result_keeps_its_diff() {
    let ms = vec![
        msg(Role::Assistant, vec![tool_use("t1", "ls")]),
        msg(Role::User, vec![tool_result("t1", "a\n  \nb", None, Some("+x"))]),
    ];
    let lines = session_chat_messages(&ms);
    assert_eq!(
        view(&lines),
        vec![
            line("tool_call", "● Bash(ls)"),
            (s("tool_result"), s("  ⎿  a\n     b"), Some(s("+x"))),
        ]
    );
}

#[test]
fn the_last_result_of_a_call_is_found() {
    let ms = session();
    assert_eq!(find_tool_result(&ms, &s("t1")), Some((s("boom"), true, None)));
    assert_eq!(find_tool_result(&ms, &s("t2")), None);
    assert_eq!(find_tool_result(&vec![], &s("t1")), None);
}

#[test]
fn a_loaded_session_shows_its_messages_and_a_note() {
    let long: String = "é".repeat(150);
    let ms = vec![
        plain(Role::User, "   "),
        plain(Role::User, "hi"),
        msg(Role::Assistant, vec![text(" \n"), text("hello"), tool_use("t1", "ls"), ContentBlock::Other]),
        msg(Role::User, vec![tool_result("t1", &long, None, None), tool_result("t2", "short", None, None)]),
        plain(Role::System, "sys"),
    ];
    let lines = loaded_session_messages(&ms, "abc");
    assert_eq!(
        view(&lines),
        vec![
            line("user", "hi"),
            line("assistant", "hello"),
            line("tool_call", "● Bash(ls)"),
            line("tool_result", &format!("{}...", "é".repeat(100))),
            line("tool_result", "short"),
            line("system", "sys"),
            line("system", "Loaded session abc (5 messages)"),
        ]
    );
    let none = loaded_session_messages(&vec![], "x");
    assert_eq!(view(&none), vec![line("system", "Loaded session x (0 messages)")]);
}

fn entry(id: &str, count: usize, last: Option<&str>) -> SessionEntry {
    SessionEntry {
        id: s(id),
        name: s(id),
        created_at: Timestamp { secs: 0, nanos: 0 },
        updated_at: Timestamp { secs: 0, nanos: 0 },
        message_count: count,
        provider: s("p"),
        model: s("m"),
        last_message: last.map(s),
    }
}

#[test]
fn the_session_picker_starts_on_the_current_session() {
    let ss = vec![entry("a", 1, None), entry("b", 2, None), entry("b", 3, None)];
    let p = open_session_picker(ss, Some(s("b"))).unwrap();
    assert_eq!(p.selected, 1);
    assert_eq!(p.current_id, Some(s("b")));
    let p = open_session_picker(vec![entry("a", 1, None)], Some(s("z"))).unwrap();
    assert_eq!(p.selected, 0);
    let p = open_session_picker(vec![entry("a", 1, None), entry("c", 1, None)], None).unwrap();
    assert_eq!(p.selected, 0);
    assert!(open_session_picker(vec![], Some(s("a"))).is_none());
}

fn texts(lines: &[Vec<lukan_tui::widgets::Span>]) -> Vec<String> {
    lines.iter().map(|l| l.iter().map(|sp| sp.text.clone()).collect::<String>()).collect()
}

#[test]
fn the_session_picker_shows_what_fits() {
    let ss = vec![entry("a", 1, Some("bye")), entry("b", 2, None), entry("c", 3, None), entry("d", 4, None)];
    let mut p = open_session_picker(ss, Some(s("b"))).unwrap();
    let ages = vec![s("1m ago"), s("2h ago"), s("3d ago"), s("4s ago")];
    let all = session_picker_lines(&p, &ages, 20);
    assert_eq!(
        texts(&all),
        vec![
            " Resume Session",
            "",
            "  [a] · 1 msgs · 1m ago · bye",
            "▸ [b] · 2 msgs · 2h ago (current)",
            "  [c] · 3 msgs · 3d ago",
            "  [d] · 4 msgs · 4s ago",
        ]
    );
    assert_eq!(all[3][0].tone, Tone::Accent);
    assert_eq!(all[3][1].tone, Tone::Custom);
    assert_eq!(all[2][1].tone, Tone::Caret);
    assert_eq!(all[3][3].tone, Tone::Good);
    // Five rows leave room for two sessions.
    p.selected = 3;
    let some = session_picker_lines(&p, &ages, 5);
    assert_eq!(
        texts(&some),
        vec![" Resume Session", "", "  [c] · 3 msgs · 3d ago", "▸ [d] · 4 msgs · 4s ago", "  (4/4)"]
    );
    // No room at all still shows one.
    p.selected = 0;
    let one = session_picker_lines(&p, &ages, 0);
    assert_eq!(texts(&one), vec![" Resume Session", "", "▸ [a] · 1 msgs · 1m ago · bye", "  (1/4)"]);
    let ages = session_ages(&p);
    assert_eq!(ages.len(), 4);
    assert!(ages[0].ends_with(" ago"));
}

#[test]
fn checkpoints_count_added_and_removed_lines() {
    let cps = vec![CheckpointInfo {
        id: s("cp1"),
        message: s("first"),
        snapshot_diffs: vec![Some(s("--- a\n+++ b\n+x\n-y\n+z")), None, Some(s("+q\n+r"))],
    }];
    let es = rewind_entries(&cps);
    assert_eq!(es.len(), 1);
    assert_eq!(es[0].checkpoint_id, Some(s("cp1")));
    assert_eq!(es[0].message, "first");
    assert_eq!(es[0].files_changed, 3);
    assert_eq!(es[0].additions, 4);
    assert_eq!(es[0].deletions, 1);
}

#[test]
fn background_processes_are_listed() {
    let ps = vec![
        BgProcessInfo { pid: 7, command: s("sleep 1"), started_at: s("2024-01-02T03:04:05Z"), status: s("Running") },
        BgProcessInfo { pid: 8, command: s("make"), started_at: s("not a time"), status: s("Exited") },
    ];
    let es = bg_entries(&ps);
    assert_eq!(es.len(), 2);
    assert_eq!(es[0].pid, 7);
    assert!(es[0].alive);
    assert!(!es[1].alive);
    assert_eq!(es[0].started_at, Timestamp { secs: 1704164645, nanos: 0 });
    assert_eq!(instant_or_now("1970-01-01T00:00:01.5+00:00"), Timestamp { secs: 1, nanos: 500_000_000 });
    assert!(instant_or_now("garbage").secs > 1704164645);
}

fn client() -> ChatState {
    ChatState {
        transcript: Transcript::new(),
        session_id: Some(s("s1")),
        tab_id: Some(s("tab1")),
        queued_messages: vec![],
        input: InputLine::new(),
        pending_queue_submit: false,
        session_picker: None,
        rewind_picker: None,
        bg_picker: None,
        committed_msg_idx: 4,
        viewport_scroll: 2,
        force_redraw: false,
        connected: true,
        silent_tools: vec![],
        disabled_tools: vec![],
        permission_mode: PermissionMode::Auto,
    }
}

fn contents(c: &ChatState) -> Vec<(String, String)> {
    c.transcript.messages.iter().map(|m| (m.role.clone(), m.content.clone())).collect()
}

#[test]
fn stream_events_of_another_session_are_ignored() {
    let mut c = client();
    c.handle_daemon_event(DaemonEvent::Stream(StreamEvent::TextDelta { text: s("hi") }, Some(s("other"))));
    assert!(c.transcript.streaming_text.is_empty());
    c.handle_daemon_event(DaemonEvent::UserMessage { content: s("x"), saved_session_id: Some(s("other")) });
    c.handle_daemon_event(DaemonEvent::UserMessage { content: s("x"), saved_session_id: None });
    assert!(c.transcript.messages.is_empty());
    c.handle_daemon_event(DaemonEvent::Stream(StreamEvent::TextDelta { text: s("hi") }, Some(s("s1"))));
    c.handle_daemon_event(DaemonEvent::Stream(StreamEvent::TextDelta { text: s("!") }, None));
    assert_eq!(c.transcript.streaming_text.iter().collect::<String>(), "hi!");
    c.handle_daemon_event(DaemonEvent::UserMessage { content: s("from web"), saved_session_id: Some(s("s1")) });
    assert_eq!(contents(&c), vec![(s("user"), s("from web"))]);
}

#[test]
fn a_finished_turn_sends_the_queue() {
    let mut c = client();
    c.transcript.is_streaming = true;
    c.queued_messages = vec![s("first"), s("second")];
    c.handle_daemon_event(DaemonEvent::ProcessingComplete {
        session_id: s("s2"),
        context_size: Some(1234),
        aborted: false,
    });
    assert_eq!(c.session_id, Some(s("s2")));
    assert_eq!(c.transcript.usage.context_size, 1234);
    assert!(!c.transcript.is_streaming);
    assert!(c.queued_messages.is_empty());
    assert_eq!(c.input.text.iter().collect::<String>(), "first\nsecond");
    assert_eq!(c.input.cursor, 12);
    assert!(c.pending_queue_submit);

    let mut d = client();
    d.handle_daemon_event(DaemonEvent::ProcessingComplete { session_id: s("s3"), context_size: None, aborted: true });
    assert!(!d.pending_queue_submit);
    assert!(d.input.text.is_empty());
    assert_eq!(d.transcript.usage.context_size, 0);
}

#[test]
fn daemon_notes_and_pickers() {
    let mut c = client();
    c.handle_daemon_event(DaemonEvent::Init { session_id: s("s9") });
    assert_eq!(c.session_id, Some(s("s9")));
    c.handle_daemon_event(DaemonEvent::TabCreated);
    c.handle_daemon_event(DaemonEvent::ModelChanged { provider_name: s("anth"), model_name: s("big") });
    c.handle_daemon_event(DaemonEvent::CheckpointList { checkpoints: vec![] });
    c.handle_daemon_event(DaemonEvent::CompactComplete { session_id: s("s10") });
    c.handle_daemon_event(DaemonEvent::CheckpointRestored { session_id: s("s11") });
    c.handle_daemon_event(DaemonEvent::BgProcessList { processes: vec![] });
    c.transcript.is_streaming = true;
    c.handle_daemon_event(DaemonEvent::Error(s("bad")));
    assert!(!c.transcript.is_streaming);
    c.handle_daemon_event(DaemonEvent::Disconnected);
    assert!(!c.connected);
    assert_eq!(c.session_id, Some(s("s11")));
    assert!(c.force_redraw);
    let notes: Vec<String> = contents(&c).into_iter().map(|(_, t)| t).collect();
    assert_eq!(
        notes,
        vec![
            "Model changed to anth:big",
            "No checkpoints in current session.",
            "Session compacted successfully.",
            "Checkpoint restored.",
            "No background processes.",
            "Error: bad",
            "Disconnected from daemon. Falling back to in-process mode.",
        ]
    );
    assert!(contents(&c).iter().all(|(r, _)| r == "system"));
}

#[test]
fn daemon_lists_and_loads_sessions() {
    let mut c = client();
    c.handle_daemon_event(DaemonEvent::SessionList { sessions: vec![entry("a", 1, None)] });
    let p = c.session_picker.as_ref().unwrap();
    assert_eq!(p.selected, 0);
    assert_eq!(p.current_id, Some(s("s1")));
    assert_eq!(p.sessions.len(), 1);

    c.transcript.messages.push(ChatMessage::new("user", "old"));
    c.handle_daemon_event(DaemonEvent::SessionLoaded {
        session_id: s("s5"),
        messages: vec![plain(Role::User, "hello")],
        context_size: 99,
    });
    assert_eq!(c.session_id, Some(s("s5")));
    assert_eq!(c.transcript.usage.context_size, 99);
    assert_eq!(c.committed_msg_idx, 0);
    assert_eq!(c.viewport_scroll, 0);
    assert_eq!(
        contents(&c),
        vec![(s("user"), s("hello")), (s("system"), s("Loaded session s5 (1 messages)"))]
    );
}

#[test]
fn daemon_checkpoints_and_processes() {
    let mut c = client();
    c.handle_daemon_event(DaemonEvent::CheckpointList {
        checkpoints: vec![CheckpointInfo { id: s("c1"), message: s("m"), snapshot_diffs: vec![Some(s("x\n+a\n-b"))] }],
    });
    let r = c.rewind_picker.as_ref().unwrap();
    assert_eq!((r[0].additions, r[0].deletions, r[0].files_changed), (1, 1, 1));

    c.handle_daemon_event(DaemonEvent::BgProcessLog { pid: 3, log: s("ignored") });
    assert!(c.bg_picker.is_none());
    c.handle_daemon_event(DaemonEvent::BgProcessList {
        processes: vec![BgProcessInfo { pid: 3, command: s("x"), started_at: s("2024-01-02T03:04:05Z"), status: s("Running") }],
    });
    let b: &BgPicker = c.bg_picker.as_ref().unwrap();
    assert_eq!((b.log_pid, b.log_content.as_str(), b.entries.len()), (0, "", 1));
    c.handle_daemon_event(DaemonEvent::BgProcessLog { pid: 3, log: s("line 1") });
    c.handle_daemon_event(DaemonEvent::BgProcessLog { pid: 4, log: s("not shown") });
    let b = c.bg_picker.as_ref().unwrap();
    assert_eq!((b.log_pid, b.log_content.as_str()), (3, "line 1"));
    c.handle_daemon_event(DaemonEvent::BgProcessLog { pid: 3, log: s("line 2") });
    assert_eq!(c.bg_picker.as_ref().unwrap().log_content, "line 2");
}

#[test]
fn a_finished_bash_process_reports_back() {
    // Another tab's process is not ours.
    let mut c = client();
    assert_eq!(c.forward_bash_completion(42, "done", None, Some("tab2")), None);
    assert!(c.queued_messages.is_empty());
    // Connected: the daemon gets it.
    assert_eq!(
        c.forward_bash_completion(42, "done", Some("shown"), Some("tab1")),
        Some((s("done"), s("shown")))
    );
    assert!(c.transcript.messages.is_empty());
    // In process and idle: queued, noted, and sent.
    c.connected = false;
    c.input.text = vec!['x'];
    c.input.cursor = 1;
    assert_eq!(c.forward_bash_completion(42, "done", None, None), None);
    assert_eq!(c.queued_messages, vec![s("done")]);
    assert_eq!(
        contents(&c),
        vec![(s("system"), s("Background Bash process completed. PID: 42.")), (s("user"), s("done"))]
    );
    assert!(c.input.text.is_empty() && c.input.cursor == 0 && c.pending_queue_submit);
    // In process while answering: only queued.
    let mut d = client();
    d.connected = false;
    d.transcript.is_streaming = true;
    assert_eq!(d.forward_bash_completion(7, "t", Some("v"), Some("tab1")), None);
    assert_eq!(d.queued_messages, vec![s("t")]);
    assert!(d.transcript.messages.is_empty() && !d.pending_queue_submit);
}

fn update(status: &str, task: &str, tab: Option<&str>) -> SubAgentUpdate {
    SubAgentUpdate { id: s("sa1"), status: s(status), task: s(task), tab_id: tab.map(s) }
}

#[test]
fn a_finished_subagent_reports_back() {
    let mut c = client();
    assert_eq!(c.handle_subagent_update(&update("running", "x", None)), None);
    assert!(c.transcript.messages.is_empty());
    let sent = c.handle_subagent_update(&update("completed", "  fix it  ", Some("tab1")));
    assert_eq!(sent, Some((s("SubAgent sa1 completed: fix it"), s("SubAgent sa1 completed: fix it"))));
    assert_eq!(contents(&c), vec![(s("system"), s("SubAgent sa1 completed:   fix it  "))]);
    // Another tab's subagent is noted but not passed on.
    assert_eq!(c.handle_subagent_update(&update("error", "y", Some("tab9"))), None);
    assert_eq!(c.transcript.messages.len(), 2);
    // In process: queued and shown as the user's.
    let mut d = client();
    d.connected = false;
    let long = "a".repeat(60);
    assert_eq!(d.handle_subagent_update(&update("aborted", &long, None)), None);
    let m = format!("SubAgent sa1 aborted: {}...", "a".repeat(47));
    assert_eq!(contents(&d), vec![(s("system"), m.clone()), (s("user"), m.clone())]);
    assert_eq!(d.queued_messages, vec![m]);
    assert!(d.pending_queue_submit);
}

#[test]
fn keys_move_over_sessions() {
    let mut p = open_session_picker(vec![entry("a", 1, None), entry("b", 1, None)], None).unwrap();
    assert_eq!(session_picker_key(&mut p, KeyCode::Up), SessionAction::Stay);
    assert_eq!(p.selected, 0);
    assert_eq!(session_picker_key(&mut p, KeyCode::Down), SessionAction::Stay);
    assert_eq!(session_picker_key(&mut p, KeyCode::Down), SessionAction::Stay);
    assert_eq!(p.selected, 1);
    assert_eq!(session_picker_key(&mut p, KeyCode::Enter), SessionAction::Load(1));
    assert_eq!(session_picker_key(&mut p, KeyCode::Char('x')), SessionAction::Stay);
    assert_eq!(session_picker_key(&mut p, KeyCode::Esc), SessionAction::Close);
}

#[test]
fn a_fresh_chat_connects() {
    let mut c = ChatState::new(vec![s("Silent")], Some(vec![s("Bash"), s("Grep"), s("Bash")]));
    assert_eq!(c.disabled_tools, vec![s("Bash"), s("Grep")]);
    assert_eq!(c.permission_mode, PermissionMode::Auto);
    assert!(ChatState::new(vec![], None).disabled_tools.is_empty());
    assert!(!c.connected && c.tab_id.is_none() && c.session_id.is_none());
    assert!(c.transcript.messages.is_empty() && c.queued_messages.is_empty());
    c.connect(s("tab7"));
    assert!(c.connected);
    assert_eq!(c.tab_id, Some(s("tab7")));
    assert_eq!(c.forward_bash_completion(1, "x", None, Some("tab7")), Some((s("x"), s("x"))));
}

#[test]
fn keys_while_an_answer_streams() {
    let mut c = client();
    c.transcript.is_streaming = true;
    c.transcript.active_tool = Some(s("Bash"));
    c.queued_messages = vec![s("later")];
    // First Esc empties the queue.
    assert!(!c.esc_while_streaming());
    assert!(c.queued_messages.is_empty() && c.transcript.is_streaming);
    // The next one cancels, keeping what streamed.
    c.transcript.streaming_text = "partial ".chars().collect();
    assert!(c.esc_while_streaming());
    assert!(!c.transcript.is_streaming && c.transcript.active_tool.is_none());
    assert!(c.transcript.streaming_text.is_empty());
    assert_eq!(contents(&c), vec![(s("assistant"), s("partial ")), (s("system"), s("Response cancelled."))]);
    let mut d = client();
    d.transcript.is_streaming = true;
    assert!(d.esc_while_streaming());
    assert_eq!(contents(&d), vec![(s("system"), s("Response cancelled."))]);

    // Enter queues a trimmed line; a blank one stays.
    let mut e = client();
    e.transcript.is_streaming = true;
    e.input.text = "  one more  ".chars().collect();
    e.input.cursor = 3;
    assert_eq!(e.enter_while_streaming(), Some(s("one more")));
    assert_eq!(e.queued_messages, vec![s("one more")]);
    assert!(e.input.text.is_empty() && e.input.cursor == 0);
    e.input.text = "   ".chars().collect();
    assert_eq!(e.enter_while_streaming(), None);
    assert_eq!(e.input.text.len(), 3);
    // Up brings the queue back before what is typed.
    e.queued_messages.push(s("two"));
    e.input.text = " tail ".chars().collect();
    e.up_while_streaming();
    assert_eq!(e.input.text.iter().collect::<String>(), "one more\ntwo\ntail");
    assert_eq!(e.input.cursor, 17);
    assert!(e.queued_messages.is_empty());
    e.up_while_streaming();
    assert_eq!(e.input.text.iter().collect::<String>(), "one more\ntwo\ntail");
    e.queued_messages.push(s("x"));
    e.input.text = vec![];
    e.up_while_streaming();
    assert_eq!(e.input.text.iter().collect::<String>(), "x");
}

#[test]
fn clearing_the_chat() {
    let mut c = client();
    c.transcript.messages.push(ChatMessage::new("user", "x"));
    c.transcript.usage.input_tokens = 5;
    c.transcript.usage.context_size = 9;
    c.committed_msg_idx = 1;
    c.clear_chat();
    assert!(c.transcript.messages.is_empty());
    assert_eq!((c.transcript.usage.input_tokens, c.transcript.usage.context_size), (0, 0));
    assert_eq!((c.committed_msg_idx, c.viewport_scroll), (0, 0));
    assert!(c.session_id.is_none());
    assert_eq!(c.tab_id, Some(s("tab1")));
}

#[test]
fn a_submitted_line_leaves_the_input() {
    let mut c = client();
    c.input.text = "  /clear ".chars().collect();
    c.input.cursor = 4;
    let (text, shown) = c.take_input();
    assert_eq!(text, "/clear");
    assert_eq!(shown, "/clear");
    assert!(c.input.text.is_empty() && c.input.cursor == 0 && c.input.paste.is_none());
    c.input.text = "a\nb".chars().collect();
    let (text, shown) = c.take_input();
    assert_eq!((text.as_str(), shown.as_str()), ("a\nb", "a b"));
}

#[test]
fn the_open_session_is_not_loaded_again() {
    let mut c = client();
    let before = c.transcript.messages.len();
    assert!(!c.check_session_load(&s("s1")));
    assert_eq!(c.transcript.messages.len(), before + 1);
    let last = c.transcript.messages.last().unwrap();
    assert_eq!(last.role, "system");
    assert_eq!(last.content, "Already in this session.");
    assert!(c.check_session_load(&s("s2")));
    assert_eq!(c.transcript.messages.len(), before + 1);
    c.session_id = None;
    assert!(c.check_session_load(&s("s1")));
}

#[test]
fn an_injected_message_leaves_the_queue() {
    let mut c = client();
    c.queued_messages = vec![s("a"), s("b"), s("a")];
    c.handle_daemon_event(DaemonEvent::Stream(
        StreamEvent::QueuedMessageInjected { text: s("a"), display_text: Some(s("A")) },
        None,
    ));
    assert_eq!(c.queued_messages, vec![s("b"), s("a")]);
    assert_eq!(contents(&c).last().unwrap(), &(s("user"), s("A")));
    c.take_stream_event(StreamEvent::QueuedMessageInjected { text: s("zzz"), display_text: None });
    assert_eq!(c.queued_messages, vec![s("b"), s("a")]);
    assert_eq!(contents(&c).last().unwrap(), &(s("user"), s("zzz")));
    c.handle_daemon_event(DaemonEvent::Stream(
        StreamEvent::QueuedMessageInjected { text: s("b"), display_text: None },
        Some(s("other")),
    ));
    assert_eq!(c.queued_messages, vec![s("b"), s("a")]);
}

#[test]
fn an_error_empties_the_queue() {
    let mut c = client();
    c.queued_messages = vec![s("a"), s("b")];
    c.take_stream_event(StreamEvent::Error { error: s("boom") });
    assert!(c.queued_messages.is_empty());
    assert_eq!(contents(&c).last().unwrap(), &(s("assistant"), s("Error: boom")));
}

#[test]
fn a_parsed_mode_becomes_the_chats() {
    let mut c = client();
    c.take_stream_event(StreamEvent::ModeChanged { mode: s("skip") });
    assert_eq!(contents(&c).last().unwrap(), &(s("system"), s("Mode changed to: skip")));
    assert_eq!(c.permission_mode, PermissionMode::Auto);
    c.apply_mode(Some(PermissionMode::Skip));
    assert_eq!(c.permission_mode, PermissionMode::Skip);
    c.apply_mode(None);
    assert_eq!(c.permission_mode, PermissionMode::Skip);
}

#[test]
fn usage_of_another_session_is_ignored_however_large() {
    let mut c = client();
    c.transcript.usage.input_tokens = u64::MAX;
    c.handle_daemon_event(DaemonEvent::Stream(
        StreamEvent::Usage { input_tokens: u64::MAX, output_tokens: 1, cache_creation_tokens: None, cache_read_tokens: None },
        Some(s("other")),
    ));
    assert_eq!(c.transcript.usage.input_tokens, u64::MAX);
}
