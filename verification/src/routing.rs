//! Which part of the interface an input goes to: the embedded terminal,
//! the overlay in front, a shortcut, or the prompt.

use vstd::prelude::*;
use crate::keys::{KeyCode, KeyEvent, is_quit};

verus! {

/// What is open on the screen, and whether an agent is answering.
#[derive(Debug, Clone, Copy, PartialEq, Eq, Structural)]
pub struct OpenParts {
    /// An embedded terminal exists (visible or minimized).
    pub terminal_open: bool,
    /// The embedded terminal is in front.
    pub terminal_visible: bool,
    pub trust_prompt: bool,
    pub plan_review: bool,
    pub planner_question: bool,
    pub approval_prompt: bool,
    pub tool_picker: bool,
    pub event_picker: bool,
    pub memory_viewer: bool,
    pub rewind_picker: bool,
    pub bg_picker: bool,
    pub worker_picker: bool,
    pub subagent_picker: bool,
    pub reasoning_picker: bool,
    pub session_picker: bool,
    pub model_picker: bool,
    /// The main agent is answering.
    pub streaming: bool,
    /// The event agent is answering.
    pub event_streaming: bool,
    /// The event agent's view is the one shown.
    pub event_view: bool,
}

/// Where a key goes.
#[derive(Debug, Clone, Copy, PartialEq, Eq, Structural)]
pub enum KeyRoute {
    /// Ctrl+Shift+F9: close the terminal and kill its shell.
    KillTerminal,
    /// F9: open, minimize or restore the terminal (close it once its shell
    /// has exited).
    ToggleTerminal,
    /// To the visible terminal.
    Terminal,
    TrustPrompt,
    PlanReview,
    PlannerQuestion,
    ApprovalPrompt,
    ToolPicker,
    EventPicker,
    MemoryViewer,
    RewindPicker,
    BgPicker,
    WorkerPicker,
    SubAgentPicker,
    ReasoningPicker,
    SessionPicker,
    ModelPicker,
    /// Ctrl+C or Ctrl+Q: quit.
    Quit,
    /// Esc while the agent answers: clear the queue, or cancel.
    StreamingEsc,
    /// Enter while the agent answers: queue the input.
    StreamingEnter,
    /// Up while the agent answers: take the queue back into the input.
    StreamingUp,
    /// Alt+B while the agent answers: send the running command to the
    /// background.
    BackgroundCommand,
    /// Alt+P while no agent answers: the tool picker.
    OpenToolPicker,
    /// Alt+M: the memory viewer.
    OpenMemoryViewer,
    /// Alt+T: show or hide the task panel.
    ToggleTaskPanel,
    /// Alt+S: show or hide the sub-agent picker.
    ToggleSubAgents,
    /// Alt+E: switch between the main and the event agent's view.
    ToggleView,
    /// Alt+L in the event agent's view: the event log.
    ToggleEventLog,
    /// Alt+A without the event picker: automatic or manual forwarding.
    ToggleEventMode,
    /// Shift+Tab: the next permission mode.
    CyclePermission,
    /// To the prompt (no agent answers).
    Prompt,
    /// Typing while the agent answers.
    StreamingInput,
}

/// Alt is held with the character `c`.
pub open spec fn alt_char(key: KeyEvent, c: char) -> bool {
    key.code == KeyCode::Char(c) && key.modifiers.alt
}

/// Where a key goes: Ctrl+Shift+F9 and F9 first, then the visible
/// terminal, then the overlays in this order (trust prompt, plan review,
/// planner question, approval, tool picker, event picker, memory viewer,
/// rewind, background processes, workers, sub-agents, reasoning level,
/// sessions, models), then quitting, the keys that act while the agent
/// answers, the Alt shortcuts and Shift+Tab, and last the prompt.
pub open spec fn route(key: KeyEvent, o: OpenParts) -> KeyRoute {
    if key.code == KeyCode::F(9) && key.modifiers.control && key.modifiers.shift {
        KeyRoute::KillTerminal
    } else if key.code == KeyCode::F(9) {
        KeyRoute::ToggleTerminal
    } else if o.terminal_visible && o.terminal_open {
        KeyRoute::Terminal
    } else if o.trust_prompt {
        KeyRoute::TrustPrompt
    } else if o.plan_review {
        KeyRoute::PlanReview
    } else if o.planner_question {
        KeyRoute::PlannerQuestion
    } else if o.approval_prompt {
        KeyRoute::ApprovalPrompt
    } else if o.tool_picker {
        KeyRoute::ToolPicker
    } else if o.event_picker {
        KeyRoute::EventPicker
    } else if o.memory_viewer {
        KeyRoute::MemoryViewer
    } else if o.rewind_picker {
        KeyRoute::RewindPicker
    } else if o.bg_picker {
        KeyRoute::BgPicker
    } else if o.worker_picker {
        KeyRoute::WorkerPicker
    } else if o.subagent_picker {
        KeyRoute::SubAgentPicker
    } else if o.reasoning_picker {
        KeyRoute::ReasoningPicker
    } else if o.session_picker {
        KeyRoute::SessionPicker
    } else if o.model_picker {
        KeyRoute::ModelPicker
    } else if (key.code == KeyCode::Char('c') || key.code == KeyCode::Char('q')) && key.modifiers.is_control_only() {
        KeyRoute::Quit
    } else if key.code == KeyCode::Esc && o.streaming {
        KeyRoute::StreamingEsc
    } else if key.code == KeyCode::Enter && o.streaming {
        KeyRoute::StreamingEnter
    } else if key.code == KeyCode::Up && o.streaming {
        KeyRoute::StreamingUp
    } else if alt_char(key, 'b') && o.streaming {
        KeyRoute::BackgroundCommand
    } else if alt_char(key, 'p') && !o.streaming && !o.event_streaming {
        KeyRoute::OpenToolPicker
    } else if alt_char(key, 'm') {
        KeyRoute::OpenMemoryViewer
    } else if alt_char(key, 't') {
        KeyRoute::ToggleTaskPanel
    } else if alt_char(key, 's') {
        KeyRoute::ToggleSubAgents
    } else if alt_char(key, 'e') {
        KeyRoute::ToggleView
    } else if alt_char(key, 'l') && o.event_view {
        KeyRoute::ToggleEventLog
    } else if alt_char(key, 'a') && !o.event_picker {
        KeyRoute::ToggleEventMode
    } else if key.code == KeyCode::BackTab {
        KeyRoute::CyclePermission
    } else if !o.streaming {
        KeyRoute::Prompt
    } else {
        KeyRoute::StreamingInput
    }
}

fn alt_is(key: &KeyEvent, c: char) -> (b: bool)
    ensures
        b == alt_char(*key, c),
{
    key.modifiers.alt && match key.code {
        KeyCode::Char(k) => k == c,
        _ => false,
    }
}

/// Where a key goes (see `route`).
pub fn key_route(key: &KeyEvent, o: &OpenParts) -> (r: KeyRoute)
    ensures
        r == route(*key, *o),
{
    let f9 = match key.code {
        KeyCode::F(n) => n == 9,
        _ => false,
    };
    let code = key.code;
    if f9 && key.modifiers.control && key.modifiers.shift {
        KeyRoute::KillTerminal
    } else if f9 {
        KeyRoute::ToggleTerminal
    } else if o.terminal_visible && o.terminal_open {
        KeyRoute::Terminal
    } else if o.trust_prompt {
        KeyRoute::TrustPrompt
    } else if o.plan_review {
        KeyRoute::PlanReview
    } else if o.planner_question {
        KeyRoute::PlannerQuestion
    } else if o.approval_prompt {
        KeyRoute::ApprovalPrompt
    } else if o.tool_picker {
        KeyRoute::ToolPicker
    } else if o.event_picker {
        KeyRoute::EventPicker
    } else if o.memory_viewer {
        KeyRoute::MemoryViewer
    } else if o.rewind_picker {
        KeyRoute::RewindPicker
    } else if o.bg_picker {
        KeyRoute::BgPicker
    } else if o.worker_picker {
        KeyRoute::WorkerPicker
    } else if o.subagent_picker {
        KeyRoute::SubAgentPicker
    } else if o.reasoning_picker {
        KeyRoute::ReasoningPicker
    } else if o.session_picker {
        KeyRoute::SessionPicker
    } else if o.model_picker {
        KeyRoute::ModelPicker
    } else if is_quit(key) {
        KeyRoute::Quit
    } else if code == KeyCode::Esc && o.streaming {
        KeyRoute::StreamingEsc
    } else if code == KeyCode::Enter && o.streaming {
        KeyRoute::StreamingEnter
    } else if code == KeyCode::Up && o.streaming {
        KeyRoute::StreamingUp
    } else if alt_is(key, 'b') && o.streaming {
        KeyRoute::BackgroundCommand
    } else if alt_is(key, 'p') && !o.streaming && !o.event_streaming {
        KeyRoute::OpenToolPicker
    } else if alt_is(key, 'm') {
        KeyRoute::OpenMemoryViewer
    } else if alt_is(key, 't') {
        KeyRoute::ToggleTaskPanel
    } else if alt_is(key, 's') {
        KeyRoute::ToggleSubAgents
    } else if alt_is(key, 'e') {
        KeyRoute::ToggleView
    } else if alt_is(key, 'l') && o.event_view {
        KeyRoute::ToggleEventLog
    } else if alt_is(key, 'a') && !o.event_picker {
        KeyRoute::ToggleEventMode
    } else if code == KeyCode::BackTab {
        KeyRoute::CyclePermission
    } else if !o.streaming {
        KeyRoute::Prompt
    } else {
        KeyRoute::StreamingInput
    }
}

/// Where pasted text goes.
#[derive(Debug, Clone, Copy, PartialEq, Eq, Structural)]
pub enum PasteRoute {
    /// To the visible terminal.
    Terminal,
    /// Into the prompt (see `Prompt::paste`).
    Prompt,
    /// Nowhere: the agent answers, or a session, model or reasoning picker
    /// is open.
    Dropped,
}

/// Where pasted text goes: the visible terminal first, else the prompt
/// while no agent answers and no session, model or reasoning picker is
/// open.
pub open spec fn paste_route_of(o: OpenParts) -> PasteRoute {
    if o.terminal_visible && o.terminal_open {
        PasteRoute::Terminal
    } else if !o.streaming && !o.session_picker && !o.model_picker && !o.reasoning_picker {
        PasteRoute::Prompt
    } else {
        PasteRoute::Dropped
    }
}

/// Where pasted text goes (see `paste_route_of`).
pub fn paste_route(o: &OpenParts) -> (r: PasteRoute)
    ensures
        r == paste_route_of(*o),
{
    if o.terminal_visible && o.terminal_open {
        PasteRoute::Terminal
    } else if !o.streaming && !o.session_picker && !o.model_picker && !o.reasoning_picker {
        PasteRoute::Prompt
    } else {
        PasteRoute::Dropped
    }
}

// ── Laws ────────────────────────────────────────────────────────────────

/// Whether each overlay is open, in the order they take keys: trust prompt,
/// plan review, planner question, approval prompt, tool picker, event
/// picker, memory viewer, rewind picker, background processes, workers,
/// sub-agents, reasoning level, sessions, models.
pub open spec fn overlays_open(o: OpenParts) -> Seq<bool> {
    seq![
        o.trust_prompt, o.plan_review, o.planner_question, o.approval_prompt, o.tool_picker,
        o.event_picker, o.memory_viewer, o.rewind_picker, o.bg_picker, o.worker_picker,
        o.subagent_picker, o.reasoning_picker, o.session_picker, o.model_picker,
    ]
}

/// The route to each overlay, in the same order.
pub open spec fn overlay_routes() -> Seq<KeyRoute> {
    seq![
        KeyRoute::TrustPrompt, KeyRoute::PlanReview, KeyRoute::PlannerQuestion, KeyRoute::ApprovalPrompt,
        KeyRoute::ToolPicker, KeyRoute::EventPicker, KeyRoute::MemoryViewer, KeyRoute::RewindPicker,
        KeyRoute::BgPicker, KeyRoute::WorkerPicker, KeyRoute::SubAgentPicker, KeyRoute::ReasoningPicker,
        KeyRoute::SessionPicker, KeyRoute::ModelPicker,
    ]
}

/// The overlay in front takes every key: when no terminal is visible and
/// the `i`-th overlay in the order is open while none before it is, every
/// key but F9 goes to that overlay, and none reaches a shortcut, the quit
/// key or the prompt.
#[verifier::spinoff_prover]
#[verifier::rlimit(50)]
pub proof fn law_front_overlay_takes_keys(key: KeyEvent, o: OpenParts, i: int)
    requires
        0 <= i < 14,
        overlays_open(o)[i],
        forall|j: int| 0 <= j < i ==> !overlays_open(o)[j],
        !(o.terminal_visible && o.terminal_open),
        key.code != KeyCode::F(9),
    ensures
        route(key, o) == overlay_routes()[i],
{
    let v = overlays_open(o);
    let rs = overlay_routes();
    if i == 0 {
        assert(v[0]);
        assert(rs[0] == overlay_routes()[0]);
    } else if i == 1 {
        assert(!v[0]);
        assert(v[1]);
        assert(rs[1] == overlay_routes()[1]);
    } else if i == 2 {
        assert(!v[0]);
        assert(!v[1]);
        assert(v[2]);
        assert(rs[2] == overlay_routes()[2]);
    } else if i == 3 {
        assert(!v[0]);
        assert(!v[1]);
        assert(!v[2]);
        assert(v[3]);
        assert(rs[3] == overlay_routes()[3]);
    } else if i == 4 {
        assert(!v[0]);
        assert(!v[1]);
        assert(!v[2]);
        assert(!v[3]);
        assert(v[4]);
        assert(rs[4] == overlay_routes()[4]);
    } else if i == 5 {
        assert(!v[0]);
        assert(!v[1]);
        assert(!v[2]);
        assert(!v[3]);
        assert(!v[4]);
        assert(v[5]);
        assert(rs[5] == overlay_routes()[5]);
    } else if i == 6 {
        assert(!v[0]);
        assert(!v[1]);
        assert(!v[2]);
        assert(!v[3]);
        assert(!v[4]);
        assert(!v[5]);
        assert(v[6]);
        assert(rs[6] == overlay_routes()[6]);
    } else if i == 7 {
        assert(!v[0]);
        assert(!v[1]);
        assert(!v[2]);
        assert(!v[3]);
        assert(!v[4]);
        assert(!v[5]);
        assert(!v[6]);
        assert(v[7]);
        assert(rs[7] == overlay_routes()[7]);
    } else if i == 8 {
        assert(!v[0]);
        assert(!v[1]);
        assert(!v[2]);
        assert(!v[3]);
        assert(!v[4]);
        assert(!v[5]);
        assert(!v[6]);
        assert(!v[7]);
        assert(v[8]);
        assert(rs[8] == overlay_routes()[8]);
    } else if i == 9 {
        assert(!v[0]);
        assert(!v[1]);
        assert(!v[2]);
        assert(!v[3]);
        assert(!v[4]);
        assert(!v[5]);
        assert(!v[6]);
        assert(!v[7]);
        assert(!v[8]);
        assert(v[9]);
        assert(rs[9] == overlay_routes()[9]);
    } else if i == 10 {
        assert(!v[0]);
        assert(!v[1]);
        assert(!v[2]);
        assert(!v[3]);
        assert(!v[4]);
        assert(!v[5]);
        assert(!v[6]);
        assert(!v[7]);
        assert(!v[8]);
        assert(!v[9]);
        assert(v[10]);
        assert(rs[10] == overlay_routes()[10]);
    } else if i == 11 {
        assert(!v[0]);
        assert(!v[1]);
        assert(!v[2]);
        assert(!v[3]);
        assert(!v[4]);
        assert(!v[5]);
        assert(!v[6]);
        assert(!v[7]);
        assert(!v[8]);
        assert(!v[9]);
        assert(!v[10]);
        assert(v[11]);
        assert(rs[11] == overlay_routes()[11]);
    } else if i == 12 {
        assert(!v[0]);
        assert(!v[1]);
        assert(!v[2]);
        assert(!v[3]);
        assert(!v[4]);
        assert(!v[5]);
        assert(!v[6]);
        assert(!v[7]);
        assert(!v[8]);
        assert(!v[9]);
        assert(!v[10]);
        assert(!v[11]);
        assert(v[12]);
        assert(rs[12] == overlay_routes()[12]);
    } else if i == 13 {
        assert(!v[0]);
        assert(!v[1]);
        assert(!v[2]);
        assert(!v[3]);
        assert(!v[4]);
        assert(!v[5]);
        assert(!v[6]);
        assert(!v[7]);
        assert(!v[8]);
        assert(!v[9]);
        assert(!v[10]);
        assert(!v[11]);
        assert(!v[12]);
        assert(v[13]);
        assert(rs[13] == overlay_routes()[13]);
    }
}

/// F9 always reaches the terminal's toggle, and with Ctrl and Shift its
/// closing, whatever is open; otherwise the visible terminal takes every
/// key.
pub proof fn law_terminal_keys(key: KeyEvent, o: OpenParts)
    ensures
        key.code == KeyCode::F(9) && key.modifiers.control && key.modifiers.shift ==> route(key, o) == KeyRoute::KillTerminal,
        key.code == KeyCode::F(9) && !(key.modifiers.control && key.modifiers.shift) ==> route(key, o) == KeyRoute::ToggleTerminal,
        key.code != KeyCode::F(9) && o.terminal_visible && o.terminal_open ==> route(key, o) == KeyRoute::Terminal,
{
}

/// With nothing open in front, Ctrl+C and Ctrl+Q quit, and a key that is
/// not a shortcut goes to the prompt while no agent answers; a key never
/// goes to an overlay that is not open.
pub proof fn law_keys_without_overlays(key: KeyEvent, o: OpenParts)
    requires
        forall|j: int| 0 <= j < 14 ==> !#[trigger] overlays_open(o)[j],
        !(o.terminal_visible && o.terminal_open),
        key.code != KeyCode::F(9),
    ensures
        (key.code == KeyCode::Char('c') || key.code == KeyCode::Char('q')) && key.modifiers.is_control_only()
            ==> route(key, o) == KeyRoute::Quit,
        !key.modifiers.alt && !key.modifiers.control && key.code != KeyCode::BackTab && !o.streaming
            ==> route(key, o) == KeyRoute::Prompt,
        forall|j: int| 0 <= j < 14 ==> route(key, o) != #[trigger] overlay_routes()[j],
{
    assert(!overlays_open(o)[0]);
    assert(!overlays_open(o)[1]);
    assert(!overlays_open(o)[2]);
    assert(!overlays_open(o)[3]);
    assert(!overlays_open(o)[4]);
    assert(!overlays_open(o)[5]);
    assert(!overlays_open(o)[6]);
    assert(!overlays_open(o)[7]);
    assert(!overlays_open(o)[8]);
    assert(!overlays_open(o)[9]);
    assert(!overlays_open(o)[10]);
    assert(!overlays_open(o)[11]);
    assert(!overlays_open(o)[12]);
    assert(!overlays_open(o)[13]);
}

/// With nothing open in front, the keys that act while the agent answers
/// and the Alt shortcuts go where their names say: Esc, Enter and Up act on
/// the answer under way (Alt+B sends its running command to the
/// background); Alt+P opens the tool picker while no agent answers, Alt+M
/// the memory viewer, Alt+T toggles the task panel, Alt+S the sub-agents,
/// Alt+E the view, Alt+L the event log in the event agent's view, Alt+A the
/// event forwarding mode; Shift+Tab cycles the permission mode.
pub proof fn law_shortcut_keys(key: KeyEvent, o: OpenParts)
    requires
        forall|j: int| 0 <= j < 14 ==> !#[trigger] overlays_open(o)[j],
        !(o.terminal_visible && o.terminal_open),
        !key.modifiers.control,
    ensures
        o.streaming && key.code == KeyCode::Esc ==> route(key, o) == KeyRoute::StreamingEsc,
        o.streaming && key.code == KeyCode::Enter ==> route(key, o) == KeyRoute::StreamingEnter,
        o.streaming && key.code == KeyCode::Up ==> route(key, o) == KeyRoute::StreamingUp,
        o.streaming && alt_char(key, 'b') ==> route(key, o) == KeyRoute::BackgroundCommand,
        !o.streaming && !o.event_streaming && alt_char(key, 'p') ==> route(key, o) == KeyRoute::OpenToolPicker,
        alt_char(key, 'm') && !(o.streaming && alt_char(key, 'b')) ==> route(key, o) == KeyRoute::OpenMemoryViewer,
        alt_char(key, 't') ==> route(key, o) == KeyRoute::ToggleTaskPanel,
        alt_char(key, 's') ==> route(key, o) == KeyRoute::ToggleSubAgents,
        alt_char(key, 'e') ==> route(key, o) == KeyRoute::ToggleView,
        alt_char(key, 'l') && o.event_view ==> route(key, o) == KeyRoute::ToggleEventLog,
        alt_char(key, 'a') ==> route(key, o) == KeyRoute::ToggleEventMode,
        key.code == KeyCode::BackTab ==> route(key, o) == KeyRoute::CyclePermission,
        o.streaming && !key.modifiers.alt && key.code != KeyCode::Esc && key.code != KeyCode::Enter
            && key.code != KeyCode::Up && key.code != KeyCode::BackTab && key.code != KeyCode::F(9)
            ==> route(key, o) == KeyRoute::StreamingInput,
{
    assert(!overlays_open(o)[0]);
    assert(!overlays_open(o)[1]);
    assert(!overlays_open(o)[2]);
    assert(!overlays_open(o)[3]);
    assert(!overlays_open(o)[4]);
    assert(!overlays_open(o)[5]);
    assert(!overlays_open(o)[6]);
    assert(!overlays_open(o)[7]);
    assert(!overlays_open(o)[8]);
    assert(!overlays_open(o)[9]);
    assert(!overlays_open(o)[10]);
    assert(!overlays_open(o)[11]);
    assert(!overlays_open(o)[12]);
    assert(!overlays_open(o)[13]);
}

} // verus!
