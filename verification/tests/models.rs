use lukan_tui::keys::KeyCode;
use lukan_tui::models::{
    choose_model, model_palette_lines, model_picker_key, reasoning_palette_lines,
    reasoning_picker_key, split_entry, split_model_entry, switch_message, unknown_provider_note, ModelAction, ModelChoice, ModelPicker,
    ReasoningAction, ReasoningPicker,
};
use lukan_tui::widgets::{Span, Tone};

fn strs(v: &[&str]) -> Vec<String> {
    v.iter().map(|s| s.to_string()).collect()
}

fn text(line: &[Span]) -> String {
    line.iter().map(|s| s.text.as_str()).collect()
}

#[test]
fn model_picker_starts_on_the_current_model() {
    let p = ModelPicker::new(strs(&["a:x", "b:y", "b:y"]), "b:y".to_string());
    assert_eq!(p.selected, 1);
    let q = ModelPicker::new(strs(&["a:x"]), "c:z".to_string());
    assert_eq!(q.selected, 0);
}

#[test]
fn model_picker_keys() {
    let mut p = ModelPicker::new(strs(&["a:x", "b:y"]), "a:x".to_string());
    assert_eq!(model_picker_key(&mut p, KeyCode::Up), ModelAction::Stay);
    assert_eq!(p.selected, 0);
    model_picker_key(&mut p, KeyCode::Down);
    model_picker_key(&mut p, KeyCode::Down);
    assert_eq!(p.selected, 1);
    assert_eq!(model_picker_key(&mut p, KeyCode::Enter), ModelAction::Choose(1));
    assert_eq!(model_picker_key(&mut p, KeyCode::Char('d')), ModelAction::SetDefault(1));
    assert_eq!(model_picker_key(&mut p, KeyCode::Esc), ModelAction::Close);
}

#[test]
fn choosing_a_model() {
    assert_eq!(choose_model("nocolon", None), ModelChoice::Invalid);
    assert_eq!(choose_model("anthropic:opus", Some("high")), ModelChoice::Switch);
    assert_eq!(choose_model("openai-codex:gpt-5", None), ModelChoice::ChooseEffort(1));
    assert_eq!(choose_model("openai-codex:gpt-5", Some("low")), ModelChoice::ChooseEffort(0));
    assert_eq!(choose_model("openai-codex:gpt-5", Some("high")), ModelChoice::ChooseEffort(2));
    assert_eq!(choose_model("openai-codex:gpt-5", Some("extra_high")), ModelChoice::ChooseEffort(3));
    assert_eq!(choose_model("openai-codex:gpt-5", Some("weird")), ModelChoice::ChooseEffort(1));
    let (a, b) = split_entry("p:m:n").unwrap();
    assert_eq!(a.iter().collect::<String>(), "p");
    assert_eq!(b.iter().collect::<String>(), "m:n");
}

#[test]
fn reasoning_picker_keys() {
    let mut p = ReasoningPicker { model_entry: "openai-codex:gpt-5".to_string(), selected: 3 };
    reasoning_picker_key(&mut p, KeyCode::Down);
    assert_eq!(p.selected, 3);
    reasoning_picker_key(&mut p, KeyCode::Up);
    assert_eq!(reasoning_picker_key(&mut p, KeyCode::Enter), ReasoningAction::Apply("high".to_string()));
    assert_eq!(reasoning_picker_key(&mut p, KeyCode::Esc), ReasoningAction::Close);
}

#[test]
fn picker_lines() {
    let p = ModelPicker::new(strs(&["a:x", "b:y"]), "b:y".to_string());
    let lines = model_palette_lines(&p);
    assert_eq!(text(&lines[0]), "  Select Model  (d = set as default)");
    assert_eq!(text(&lines[2]), "  1. a:x");
    assert_eq!(text(&lines[3]), "▸ 2. b:y (current)");
    assert_eq!(lines[3][2].tone, Tone::Strong);
    let r = ReasoningPicker { model_entry: "openai-codex:gpt-5".to_string(), selected: 1 };
    let lines = reasoning_palette_lines(&r);
    assert_eq!(text(&lines[0]), "  Select Reasoning Level for gpt-5");
    assert_eq!(lines.len(), 6);
    assert_eq!(text(&lines[3]), "▸ 2. Medium (default)    Balances speed and reasoning depth");
    assert_eq!(text(&lines[5]), "  4. Extra high          Maximum reasoning depth");
}

#[test]
fn switch_messages() {
    assert_eq!(switch_message("a:x", None), "Switched to a:x");
    assert_eq!(switch_message("a:x", Some("low")), "Switched to a:x (reasoning: low)");
}

#[test]
fn an_entry_without_a_colon_is_refused_with_a_note() {
    assert_eq!(
        split_model_entry("gpt-5"),
        Err("Invalid model format: gpt-5".to_string())
    );
    assert_eq!(
        split_model_entry("acme:model:large"),
        Ok(("acme".to_string(), "model:large".to_string()))
    );
    assert_eq!(split_model_entry(":m"), Ok((String::new(), "m".to_string())));
}

#[test]
fn an_unknown_provider_is_named_in_the_note() {
    assert_eq!(unknown_provider_note("acme"), "Unknown provider: acme");
}
