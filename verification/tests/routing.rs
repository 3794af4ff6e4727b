use lukan_tui::keys::{KeyCode, KeyEvent, KeyModifiers};
use lukan_tui::routing::{key_route, paste_route, KeyRoute, OpenParts, PasteRoute};

fn closed() -> OpenParts {
    OpenParts {
        terminal_open: false,
        terminal_visible: false,
        trust_prompt: false,
        plan_review: false,
        planner_question: false,
        approval_prompt: false,
        tool_picker: false,
        event_picker: false,
        memory_viewer: false,
        rewind_picker: false,
        bg_picker: false,
        worker_picker: false,
        subagent_picker: false,
        reasoning_picker: false,
        session_picker: false,
        model_picker: false,
        streaming: false,
        event_streaming: false,
        event_view: false,
    }
}

fn key(code: KeyCode) -> KeyEvent {
    KeyEvent { code, modifiers: KeyModifiers::none() }
}

fn alt(c: char) -> KeyEvent {
    let mut m = KeyModifiers::none();
    m.alt = true;
    KeyEvent { code: KeyCode::Char(c), modifiers: m }
}

#[test]
fn the_terminal_and_f9_come_first() {
    let mut o = closed();
    o.terminal_open = true;
    o.terminal_visible = true;
    o.plan_review = true;
    assert_eq!(key_route(&key(KeyCode::Char('x')), &o), KeyRoute::Terminal);
    assert_eq!(key_route(&key(KeyCode::F(9)), &o), KeyRoute::ToggleTerminal);
    let mut m = KeyModifiers::none();
    m.control = true;
    m.shift = true;
    assert_eq!(key_route(&KeyEvent { code: KeyCode::F(9), modifiers: m }, &o), KeyRoute::KillTerminal);
    o.terminal_visible = false;
    assert_eq!(key_route(&key(KeyCode::Char('x')), &o), KeyRoute::PlanReview);
}

#[test]
fn overlays_take_keys_in_order() {
    let mut o = closed();
    o.model_picker = true;
    o.session_picker = true;
    assert_eq!(key_route(&key(KeyCode::Enter), &o), KeyRoute::SessionPicker);
    o.approval_prompt = true;
    o.trust_prompt = true;
    assert_eq!(key_route(&key(KeyCode::Enter), &o), KeyRoute::TrustPrompt);
    o.trust_prompt = false;
    assert_eq!(key_route(&key(KeyCode::Enter), &o), KeyRoute::ApprovalPrompt);
    let mut ctrl = KeyModifiers::none();
    ctrl.control = true;
    assert_eq!(key_route(&KeyEvent { code: KeyCode::Char('c'), modifiers: ctrl }, &o), KeyRoute::ApprovalPrompt);
    assert_eq!(key_route(&KeyEvent { code: KeyCode::Char('c'), modifiers: ctrl }, &closed()), KeyRoute::Quit);
}

#[test]
fn streaming_keys_and_shortcuts() {
    let mut o = closed();
    o.streaming = true;
    assert_eq!(key_route(&key(KeyCode::Esc), &o), KeyRoute::StreamingEsc);
    assert_eq!(key_route(&key(KeyCode::Enter), &o), KeyRoute::StreamingEnter);
    assert_eq!(key_route(&key(KeyCode::Up), &o), KeyRoute::StreamingUp);
    assert_eq!(key_route(&alt('b'), &o), KeyRoute::BackgroundCommand);
    assert_eq!(key_route(&alt('p'), &o), KeyRoute::StreamingInput);
    assert_eq!(key_route(&key(KeyCode::Char('x')), &o), KeyRoute::StreamingInput);
    assert_eq!(key_route(&key(KeyCode::BackTab), &o), KeyRoute::CyclePermission);
    let idle = closed();
    assert_eq!(key_route(&alt('b'), &idle), KeyRoute::Prompt);
    assert_eq!(key_route(&alt('p'), &idle), KeyRoute::OpenToolPicker);
    assert_eq!(key_route(&alt('m'), &idle), KeyRoute::OpenMemoryViewer);
    assert_eq!(key_route(&alt('t'), &idle), KeyRoute::ToggleTaskPanel);
    assert_eq!(key_route(&alt('s'), &idle), KeyRoute::ToggleSubAgents);
    assert_eq!(key_route(&alt('e'), &idle), KeyRoute::ToggleView);
    assert_eq!(key_route(&alt('l'), &idle), KeyRoute::Prompt);
    assert_eq!(key_route(&alt('a'), &idle), KeyRoute::ToggleEventMode);
    let mut ev = closed();
    ev.event_view = true;
    assert_eq!(key_route(&alt('l'), &ev), KeyRoute::ToggleEventLog);
    assert_eq!(key_route(&key(KeyCode::Esc), &idle), KeyRoute::Prompt);
}

#[test]
fn pastes_go_to_the_terminal_or_the_prompt() {
    let mut o = closed();
    assert_eq!(paste_route(&o), PasteRoute::Prompt);
    o.model_picker = true;
    assert_eq!(paste_route(&o), PasteRoute::Dropped);
    o.terminal_open = true;
    o.terminal_visible = true;
    assert_eq!(paste_route(&o), PasteRoute::Terminal);
    let mut s = closed();
    s.streaming = true;
    assert_eq!(paste_route(&s), PasteRoute::Dropped);
}
