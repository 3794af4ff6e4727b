use lukan_tui::keys::{KeyCode, KeyEvent, KeyModifiers};
use lukan_tui::overlays::{
    approval_key, memory_viewer_scroll, ApprovalAnswer, ApprovalPrompt, TrustAction, TrustPrompt,
};
use lukan_tui::picker::{
    tool_picker_key, tool_picker_selected_tool_name, tool_picker_tool_count, toggle_disabled,
    ToolGroup, ToolPicker,
};
use lukan_tui::plan::{handle_plan_review_key, PlanReview, PlanReviewMode, PlanReviewReply, PlanTask};
use lukan_tui::question::{
    build_planner_answers, handle_planner_question_key, PlannerOption, PlannerQuestion,
    PlannerQuestionState,
};
use lukan_tui::commands::filtered_commands;
use lukan_tui::summary::ToolInput;
use lukan_tui::widgets::{
    approval_prompt_lines, command_palette_lines, plan_review_lines, planner_question_lines,
    tool_picker_lines, tool_picker_scroll, trust_prompt_lines, Span, Tone,
};

fn ids(v: &[&str]) -> Vec<String> {
    v.iter().map(|s| s.to_string()).collect()
}

#[test]
fn trust_prompt_keys() {
    let mut p = TrustPrompt { selected: 0 };
    assert_eq!(p.handle_key(KeyCode::Down), TrustAction::Stay);
    assert_eq!(p.selected, 1);
    assert_eq!(p.handle_key(KeyCode::Enter), TrustAction::Quit);
    assert_eq!(p.handle_key(KeyCode::Up), TrustAction::Stay);
    assert_eq!(p.handle_key(KeyCode::Enter), TrustAction::Trust);
    assert_eq!(p.handle_key(KeyCode::Esc), TrustAction::Quit);
    assert_eq!(p.handle_key(KeyCode::Char('x')), TrustAction::Stay);
}

#[test]
fn memory_viewer_scrolls_and_saturates() {
    assert_eq!(memory_viewer_scroll(10, KeyCode::Up), (7, false));
    assert_eq!(memory_viewer_scroll(2, KeyCode::Up), (0, false));
    assert_eq!(memory_viewer_scroll(65534, KeyCode::Down), (65535, false));
    assert_eq!(memory_viewer_scroll(20, KeyCode::PageUp), (5, false));
    assert_eq!(memory_viewer_scroll(20, KeyCode::PageDown), (35, false));
    assert_eq!(memory_viewer_scroll(20, KeyCode::Home), (0, false));
    assert_eq!(memory_viewer_scroll(20, KeyCode::Esc), (0, true));
    assert_eq!(memory_viewer_scroll(20, KeyCode::Char('q')), (20, false));
}

#[test]
fn approval_prompt_starts_all_approved() {
    let p = ApprovalPrompt::new(ids(&["a", "b"]), &vec![true, true]);
    assert_eq!(p.selections, vec![true, true]);
    assert_eq!(p.selected, 0);
    assert!(p.all_read_only);
    let q = ApprovalPrompt::new(ids(&["a", "b"]), &vec![true, false]);
    assert!(!q.all_read_only);
    let e = ApprovalPrompt::new(Vec::new(), &Vec::new());
    assert!(!e.all_read_only);
}

#[test]
fn approval_toggle_and_submit() {
    let mut prompt = Some(ApprovalPrompt::new(ids(&["t1", "t2", "t3"]), &vec![false, false, false]));
    assert_eq!(approval_key(&mut prompt, KeyCode::Down), None);
    assert_eq!(approval_key(&mut prompt, KeyCode::Char(' ')), None);
    assert_eq!(prompt.as_ref().unwrap().selections, vec![true, false, true]);
    let answer = approval_key(&mut prompt, KeyCode::Enter);
    assert_eq!(answer, Some(ApprovalAnswer::Approved { approved_ids: ids(&["t1", "t3"]) }));
    assert!(prompt.is_none());
    assert_eq!(approval_key(&mut prompt, KeyCode::Enter), None);
}

#[test]
fn approval_with_nothing_selected_denies() {
    let mut prompt = Some(ApprovalPrompt::new(ids(&["t1"]), &vec![false]));
    approval_key(&mut prompt, KeyCode::Char(' '));
    assert_eq!(approval_key(&mut prompt, KeyCode::Enter), Some(ApprovalAnswer::DeniedAll));
}

#[test]
fn approval_shortcuts() {
    let mut prompt = Some(ApprovalPrompt::new(ids(&["x", "y"]), &vec![false, false]));
    approval_key(&mut prompt, KeyCode::Char(' '));
    assert_eq!(
        approval_key(&mut prompt, KeyCode::Char('a')),
        Some(ApprovalAnswer::Approved { approved_ids: ids(&["x", "y"]) })
    );
    let mut prompt = Some(ApprovalPrompt::new(ids(&["x"]), &vec![false]));
    assert_eq!(
        approval_key(&mut prompt, KeyCode::Char('A')),
        Some(ApprovalAnswer::AlwaysAllow { approved_ids: ids(&["x"]) })
    );
    let mut prompt = Some(ApprovalPrompt::new(ids(&["x"]), &vec![false]));
    assert_eq!(approval_key(&mut prompt, KeyCode::Esc), Some(ApprovalAnswer::DeniedAll));
    assert!(prompt.is_none());
}

#[test]
fn approval_cursor_stays_on_the_tools() {
    let mut p = ApprovalPrompt::new(ids(&["x", "y"]), &vec![false, false]);
    p.up();
    assert_eq!(p.selected, 0);
    p.down();
    p.down();
    assert_eq!(p.selected, 1);
}

fn tasks(n: usize) -> Vec<PlanTask> {
    (0..n)
        .map(|i| PlanTask { title: format!("Task {}", i + 1), detail: format!("Do {}\nthen check", i + 1) })
        .collect()
}

fn review(n: usize) -> Option<PlanReview> {
    Some(PlanReview::new("Refactor".to_string(), tasks(n)))
}

#[test]
fn plan_review_accepts() {
    let mut r = review(2);
    assert!(handle_plan_review_key(&mut r, KeyCode::Down).is_none());
    assert_eq!(r.as_ref().unwrap().selected, 1);
    assert!(handle_plan_review_key(&mut r, KeyCode::Down).is_none());
    assert_eq!(r.as_ref().unwrap().selected, 1);
    match handle_plan_review_key(&mut r, KeyCode::Char('a')) {
        Some((PlanReviewReply::Accepted { title }, note)) => {
            assert_eq!(title, "Refactor");
            assert_eq!(note, "Plan accepted: Refactor");
        }
        _ => panic!("expected an acceptance"),
    }
    assert!(r.is_none());
}

#[test]
fn plan_review_rejects_with_esc() {
    let mut r = review(1);
    match handle_plan_review_key(&mut r, KeyCode::Esc) {
        Some((PlanReviewReply::Rejected { feedback }, note)) => {
            assert_eq!(feedback, "User rejected the plan.");
            assert_eq!(note, "Plan rejected.");
        }
        _ => panic!("expected a rejection"),
    }
}

#[test]
fn plan_review_detail_and_back() {
    let mut r = review(1);
    handle_plan_review_key(&mut r, KeyCode::Enter);
    assert_eq!(r.as_ref().unwrap().mode, PlanReviewMode::Detail);
    handle_plan_review_key(&mut r, KeyCode::Char('a'));
    assert!(r.is_some());
    handle_plan_review_key(&mut r, KeyCode::Esc);
    assert_eq!(r.as_ref().unwrap().mode, PlanReviewMode::List);
    let mut none = review(0);
    handle_plan_review_key(&mut none, KeyCode::Enter);
    assert_eq!(none.as_ref().unwrap().mode, PlanReviewMode::List);
}

#[test]
fn plan_review_feedback() {
    let mut r = review(1);
    handle_plan_review_key(&mut r, KeyCode::Char('r'));
    assert_eq!(r.as_ref().unwrap().mode, PlanReviewMode::Feedback);
    for c in "more testz".chars() {
        handle_plan_review_key(&mut r, KeyCode::Char(c));
    }
    handle_plan_review_key(&mut r, KeyCode::Backspace);
    handle_plan_review_key(&mut r, KeyCode::Char('s'));
    match handle_plan_review_key(&mut r, KeyCode::Enter) {
        Some((PlanReviewReply::Rejected { feedback }, note)) => {
            assert_eq!(feedback, "more tests");
            assert_eq!(note, "Feedback submitted. Waiting for revised plan...");
        }
        _ => panic!("expected feedback"),
    }
    assert!(r.is_none());
}

fn question(header: &str, options: &[&str], multi: bool) -> PlannerQuestion {
    PlannerQuestion {
        header: header.to_string(),
        question: format!("Which {header}?"),
        options: options
            .iter()
            .map(|o| PlannerOption { label: o.to_string(), description: None })
            .collect(),
        multi_select: multi,
    }
}

fn line_text(line: &[Span]) -> String {
    line.iter().map(|s| s.text.as_str()).collect()
}

#[test]
fn planner_answers_for_each_kind_of_question() {
    let mut st = PlannerQuestionState::new(vec![
        question("Db", &["Postgres", "SQLite"], false),
        question("Langs", &["Rust", "Go", "Zig"], true),
        question("Notes", &["none"], false),
    ]);
    st.selections[0] = 1;
    st.multi_selections[1] = vec![true, false, true];
    st.selections[2] = 1;
    st.custom_inputs[2] = "  keep it small \n".chars().collect();
    assert_eq!(build_planner_answers(&st), "Db: SQLite\nLangs: Rust, Zig\nNotes: keep it small");
}

#[test]
fn planner_defaults_when_nothing_is_marked_or_typed() {
    let mut st = PlannerQuestionState::new(vec![
        question("Pick", &["A", "B"], true),
        question("Say", &[], false),
    ]);
    st.selections[0] = 1;
    assert_eq!(build_planner_answers(&st), "Pick: B\nSay: (no response)");
}

#[test]
fn planner_keys_move_toggle_and_submit() {
    let mut st = Some(PlannerQuestionState::new(vec![
        question("Q1", &["a", "b"], true),
        question("Q2", &["c"], false),
    ]));
    assert!(handle_planner_question_key(&mut st, KeyCode::Char(' ')).is_none());
    assert_eq!(st.as_ref().unwrap().multi_selections[0], vec![true, false]);
    handle_planner_question_key(&mut st, KeyCode::Down);
    handle_planner_question_key(&mut st, KeyCode::Char(' '));
    handle_planner_question_key(&mut st, KeyCode::Tab);
    assert_eq!(st.as_ref().unwrap().current_question, 1);
    handle_planner_question_key(&mut st, KeyCode::Tab);
    assert_eq!(st.as_ref().unwrap().current_question, 1);
    handle_planner_question_key(&mut st, KeyCode::BackTab);
    assert_eq!(st.as_ref().unwrap().current_question, 0);
    let answer = handle_planner_question_key(&mut st, KeyCode::Enter);
    assert_eq!(answer, Some("Q1: a, b\nQ2: c".to_string()));
    assert!(st.is_none());
}

#[test]
fn planner_custom_answer_is_typed() {
    let mut st = Some(PlannerQuestionState::new(vec![question("Q", &["a"], false)]));
    handle_planner_question_key(&mut st, KeyCode::Down);
    handle_planner_question_key(&mut st, KeyCode::Down);
    assert_eq!(st.as_ref().unwrap().selections[0], 1);
    handle_planner_question_key(&mut st, KeyCode::Enter);
    assert!(st.as_ref().unwrap().editing_custom);
    for c in "hix".chars() {
        handle_planner_question_key(&mut st, KeyCode::Char(c));
    }
    handle_planner_question_key(&mut st, KeyCode::Backspace);
    let answer = handle_planner_question_key(&mut st, KeyCode::Enter);
    assert_eq!(answer, Some("Q: hi".to_string()));
}

#[test]
fn planner_cancel() {
    let mut st = Some(PlannerQuestionState::new(vec![question("Q", &["a"], false)]));
    assert_eq!(
        handle_planner_question_key(&mut st, KeyCode::Esc),
        Some("User cancelled the question.".to_string())
    );
    assert!(st.is_none());
}

fn picker() -> ToolPicker {
    ToolPicker {
        groups: vec![
            ToolGroup { name: "Browser".to_string(), tools: ids(&["BrowserClick"]) },
            ToolGroup { name: "Core".to_string(), tools: ids(&["Bash", "Grep"]) },
        ],
        selected: 0,
        disabled: Vec::new(),
    }
}

fn press(code: KeyCode) -> KeyEvent {
    KeyEvent { code, modifiers: KeyModifiers::none() }
}

#[test]
fn tool_picker_counts_and_names() {
    let mut p = picker();
    assert_eq!(tool_picker_tool_count(&p), 3);
    assert_eq!(tool_picker_selected_tool_name(&p), Some("BrowserClick".to_string()));
    p.selected = 2;
    assert_eq!(tool_picker_selected_tool_name(&p), Some("Grep".to_string()));
    p.selected = 3;
    assert_eq!(tool_picker_selected_tool_name(&p), None);
}

#[test]
fn tool_picker_keys_switch_tools() {
    let mut p = picker();
    assert!(!tool_picker_key(&mut p, press(KeyCode::Down)));
    assert!(!tool_picker_key(&mut p, press(KeyCode::Char(' '))));
    assert_eq!(p.disabled, ids(&["Bash"]));
    assert!(!tool_picker_key(&mut p, press(KeyCode::Down)));
    assert!(!tool_picker_key(&mut p, press(KeyCode::Down)));
    assert_eq!(p.selected, 2);
    tool_picker_key(&mut p, press(KeyCode::Char(' ')));
    assert_eq!(p.disabled, ids(&["Bash", "Grep"]));
    tool_picker_key(&mut p, press(KeyCode::Up));
    tool_picker_key(&mut p, press(KeyCode::Char(' ')));
    assert_eq!(p.disabled, ids(&["Grep"]));
    assert!(!tool_picker_key(&mut p, press(KeyCode::Enter)));
    assert!(tool_picker_key(&mut p, press(KeyCode::Esc)));
    let mut alt = KeyModifiers::none();
    alt.alt = true;
    assert!(tool_picker_key(&mut p, KeyEvent { code: KeyCode::Char('p'), modifiers: alt }));
    assert!(!tool_picker_key(&mut p, press(KeyCode::Char('p'))));
}

#[test]
fn toggling_twice_restores_the_set() {
    let mut d = ids(&["A", "B"]);
    toggle_disabled(&mut d, "C".to_string());
    toggle_disabled(&mut d, "C".to_string());
    assert_eq!(d, ids(&["A", "B"]));
    toggle_disabled(&mut d, "A".to_string());
    assert_eq!(d, ids(&["B"]));
}

#[test]
fn planner_overlay_lines() {
    let mut q1 = question("Db", &["Postgres", "SQLite"], false);
    q1.options[1].description = Some("file based".to_string());
    let st = PlannerQuestionState::new(vec![q1, question("Langs", &["Rust"], true)]);
    let lines = planner_question_lines(&st);
    let texts: Vec<String> = lines.iter().map(|l| line_text(l)).collect();
    assert_eq!(
        texts,
        vec![
            "",
            "  Db  |  Langs ",
            "",
            " Which Db?",
            "",
            " ▸ (●) Postgres",
            "   ( ) SQLite",
            "       file based",
            "   ( ) Custom response...",
            "",
            " ↑↓ select · Space/Enter choose · Tab next · Enter confirm · Esc cancel",
        ]
    );
    assert_eq!(lines[1][1].tone, Tone::Accent);
    assert_eq!(lines[1][3].tone, Tone::Dim);
    assert_eq!(lines[5][0].tone, Tone::Strong);
    assert_eq!(lines[6][0].tone, Tone::Muted);
    assert_eq!(lines[8][0].tone, Tone::Dim);
}

#[test]
fn planner_overlay_while_typing() {
    let mut st = Some(PlannerQuestionState::new(vec![question("Q", &[], true)]));
    handle_planner_question_key(&mut st, KeyCode::Enter);
    let lines = planner_question_lines(st.as_ref().unwrap());
    let texts: Vec<String> = lines.iter().map(|l| line_text(l)).collect();
    assert_eq!(texts[5], " ▸ (●) Custom response...");
    assert_eq!(texts[7], "  Type your response here…");
    assert_eq!(texts[9], " Type response · Enter submit · Esc back");
    handle_planner_question_key(&mut st, KeyCode::Char('o'));
    let lines = planner_question_lines(st.as_ref().unwrap());
    assert_eq!(line_text(&lines[7]), "  o█");
    assert_eq!(lines[7][2].tone, Tone::Caret);
}

fn texts(lines: &[Vec<Span>]) -> Vec<String> {
    lines.iter().map(|l| line_text(l)).collect()
}

#[test]
fn trust_prompt_overlay_lines() {
    let lines = trust_prompt_lines(1, "/work/app");
    let t = texts(&lines);
    assert_eq!(t.len(), 16);
    assert_eq!(t[1], " Workspace access:");
    assert_eq!(t[3], " /work/app");
    assert_eq!(t[12], "   1. Yes, I trust this folder");
    assert_eq!(t[13], " ❯ 2. No, exit");
    assert_eq!(lines[13][0].tone, Tone::Strong);
    assert_eq!(lines[12][0].tone, Tone::Dim);
    assert_eq!(t[15], " Enter to confirm · Esc to cancel");
}

#[test]
fn plan_review_overlay_lines() {
    let mut r = review(2);
    let t = texts(&plan_review_lines(r.as_ref().unwrap()));
    assert_eq!(
        t,
        vec![
            "",
            " Plan: Refactor",
            "",
            " ▸ 1. Task 1",
            "   2. Task 2",
            "",
            " a=accept · r=request changes · Enter=view detail · Esc=reject",
        ]
    );
    handle_plan_review_key(&mut r, KeyCode::Down);
    handle_plan_review_key(&mut r, KeyCode::Enter);
    let t = texts(&plan_review_lines(r.as_ref().unwrap()));
    assert_eq!(t, vec!["", " Task 2: Task 2", "", " Do 2", " then check", "", " Esc=back to list"]);
    handle_plan_review_key(&mut r, KeyCode::Esc);
    handle_plan_review_key(&mut r, KeyCode::Char('r'));
    handle_plan_review_key(&mut r, KeyCode::Char('x'));
    let lines = plan_review_lines(r.as_ref().unwrap());
    assert_eq!(line_text(&lines[5]), " > x_");
    assert_eq!(lines[5][0].tone, Tone::Good);
}

#[test]
fn tool_picker_overlay_lines() {
    let mut p = picker();
    p.selected = 2;
    p.disabled = ids(&["Bash"]);
    let (lines, selected_line) = tool_picker_lines(&p);
    let t = texts(&lines);
    assert_eq!(
        t,
        vec![
            "",
            " ── Browser ──",
            "  [x] BrowserClick",
            "",
            " ── Core ──",
            "  [ ] Bash",
            "▸ [x] Grep",
            "",
        ]
    );
    assert_eq!(selected_line, 6);
    assert_eq!(lines[5][1].tone, Tone::Bad);
    assert_eq!(lines[6][2].tone, Tone::Strong);
    assert_eq!(tool_picker_scroll(6, 10), 0);
    assert_eq!(tool_picker_scroll(6, 7), 2);
    assert_eq!(tool_picker_scroll(3, 1), 4);
    assert_eq!(tool_picker_scroll(65540, 2), 5);
}

#[test]
fn command_palette_overlay_lines() {
    let cmds = filtered_commands("/c");
    let lines = command_palette_lines(&cmds, 1);
    let t = texts(&lines);
    assert_eq!(t[0], "");
    assert_eq!(t[1], "  /clear        clear chat and start fresh");
    assert_eq!(t[2], "▸ /compact      compact conversation history");
    assert_eq!(lines[2][0].tone, Tone::Accent);
    assert_eq!(lines[1][2].tone, Tone::Dim);
}

fn tool_input(command: &str) -> ToolInput {
    ToolInput {
        command: Some(command.to_string()),
        file_path: None,
        offset: None,
        content_bytes: None,
        replace_all: None,
        pattern: None,
        path: None,
        url: None,
        task: None,
        json: "{}".to_string(),
    }
}

#[test]
fn approval_prompt_overlay_lines() {
    let mut p = ApprovalPrompt::new(ids(&["1", "2"]), &vec![false, false]);
    p.toggle();
    let long = "y".repeat(70);
    let lines = approval_prompt_lines(&p, &ids(&["Bash", "Bash"]), &vec![tool_input("ls"), tool_input(&long)]);
    let t = texts(&lines);
    assert_eq!(t[1], " Tool Approval Required");
    assert_eq!(t[3], " ▸ [ ] Bash(ls)");
    assert_eq!(t[4], format!("   [x] Bash({}...)", "y".repeat(57)));
    assert_eq!(lines[3][1].tone, Tone::Bad);
    assert_eq!(lines[4][1].tone, Tone::Good);
    assert_eq!(t[6], " Space toggle · Enter submit · a approve all · A always allow · Esc deny all");
}

#[test]
fn the_memory_viewer_shows_what_is_there() {
    let f = lukan_tui::overlays::memory_viewer_text;
    assert_eq!(f(Some("  g  "), Some("\np\n")), "── Global Memory ──\n\ng\n\n── Project Memory ──\n\np");
    assert_eq!(f(None, Some("p")), "── Project Memory ──\n\np");
    assert_eq!(f(Some("g"), Some("   ")), "── Global Memory ──\n\ng");
    assert_eq!(f(Some(" "), None), "No memory files found.\n\nUse /memories activate to enable project memory.");
    assert_eq!(f(None, None), "No memory files found.\n\nUse /memories activate to enable project memory.");
}

#[test]
fn approval_keys_move_and_flip_only_what_they_name() {
    let mut prompt = Some(ApprovalPrompt::new(ids(&["t1", "t2", "t3"]), &vec![false, false, false]));
    approval_key(&mut prompt, KeyCode::Down);
    approval_key(&mut prompt, KeyCode::Down);
    approval_key(&mut prompt, KeyCode::Down);
    assert_eq!(prompt.as_ref().unwrap().selected, 2);
    approval_key(&mut prompt, KeyCode::Up);
    assert_eq!(prompt.as_ref().unwrap().selected, 1);
    assert_eq!(approval_key(&mut prompt, KeyCode::Char(' ')), None);
    assert_eq!(prompt.as_ref().unwrap().selections, vec![true, false, true]);
    assert_eq!(prompt.as_ref().unwrap().selected, 1);
    assert_eq!(approval_key(&mut prompt, KeyCode::Char('x')), None);
    assert_eq!(approval_key(&mut prompt, KeyCode::Tab), None);
    let p = prompt.as_ref().unwrap();
    assert_eq!((p.selected, p.selections.clone()), (1, vec![true, false, true]));
    approval_key(&mut prompt, KeyCode::Up);
    approval_key(&mut prompt, KeyCode::Up);
    assert_eq!(prompt.as_ref().unwrap().selected, 0);
}
