use lukan_tui::submit::{
    add_memory_entry, parse_submission, shell_messages, GlobalMemoryCommand, MemoryCommand,
    Submission,
};

#[test]
fn slash_commands() {
    assert_eq!(parse_submission("  /exit "), Submission::Exit);
    assert_eq!(parse_submission("/resume"), Submission::Resume);
    assert_eq!(parse_submission("/model"), Submission::Model);
    assert_eq!(parse_submission("/model gpt"), Submission::Model);
    assert_eq!(parse_submission("/modelx"), Submission::Message("/modelx".to_string()));
    assert_eq!(parse_submission("/clear"), Submission::Clear);
    assert_eq!(parse_submission("/compact"), Submission::Compact);
    assert_eq!(parse_submission("/workers"), Submission::Workers);
    assert_eq!(parse_submission("/skills"), Submission::Skills);
    assert_eq!(parse_submission("/events"), Submission::Events);
    assert_eq!(parse_submission("/events clear"), Submission::EventsClear);
    assert_eq!(parse_submission("/events other"), Submission::Events);
    assert_eq!(parse_submission("/bg"), Submission::Background);
    assert_eq!(parse_submission("/checkpoints"), Submission::Checkpoints);
}

#[test]
fn memory_commands() {
    assert_eq!(parse_submission("/memories"), Submission::Memories(MemoryCommand::Status));
    assert_eq!(parse_submission("/memories activate"), Submission::Memories(MemoryCommand::Activate));
    assert_eq!(parse_submission("/memories deactivate"), Submission::Memories(MemoryCommand::Deactivate));
    assert_eq!(parse_submission("/memories show"), Submission::Memories(MemoryCommand::Show));
    assert_eq!(
        parse_submission("/memories add  use tabs "),
        Submission::Memories(MemoryCommand::Add("use tabs".to_string()))
    );
    assert_eq!(parse_submission("/memories add"), Submission::Memories(MemoryCommand::AddUsage));
    assert_eq!(
        parse_submission("/memories addendum"),
        Submission::Memories(MemoryCommand::Add("endum".to_string()))
    );
    assert_eq!(parse_submission("/gmemory"), Submission::GlobalMemory(GlobalMemoryCommand::Status));
    assert_eq!(parse_submission("/gmemory show"), Submission::GlobalMemory(GlobalMemoryCommand::Show));
    assert_eq!(parse_submission("/gmemory clear"), Submission::GlobalMemory(GlobalMemoryCommand::Clear));
    assert_eq!(
        parse_submission("/gmemory add be brief"),
        Submission::GlobalMemory(GlobalMemoryCommand::Add("be brief".to_string()))
    );
    assert_eq!(parse_submission("/gmemory add"), Submission::GlobalMemory(GlobalMemoryCommand::Status));
    assert_eq!(parse_submission("/gmemory add  "), Submission::GlobalMemory(GlobalMemoryCommand::Status));
}

#[test]
fn shell_commands_and_messages() {
    assert_eq!(parse_submission("!ls -la"), Submission::Shell("ls -la".to_string()));
    assert_eq!(parse_submission("!   "), Submission::Nothing);
    assert_eq!(parse_submission(" hello there \n"), Submission::Message("hello there".to_string()));
}

#[test]
fn memory_entries_are_list_items() {
    assert_eq!(add_memory_entry("# Project Memory\n\n", "x"), "# Project Memory\n\n\n- x\n");
}

#[test]
fn shell_output_messages() {
    let (context, display) = shell_messages("ls", "a\nb\n", "", 0);
    assert_eq!(context, "$ ls\na\nb");
    assert_eq!(display, "a\nb");
    let (context, display) = shell_messages("false", "", "oops\n", 1);
    assert_eq!(context, "$ false\noops\n[exit code: 1]");
    assert_eq!(display, "oops\n[exit code: 1]");
    let (_, display) = shell_messages("true", "  ", "", -1);
    assert_eq!(display, "(exit code: -1)");
}

#[test]
fn long_shell_output_is_cut_in_the_middle() {
    let out = format!("{}{}", "a".repeat(20000), "b".repeat(20000));
    let (_, display) = shell_messages("cat", &out, "", 0);
    let expected = format!("{}\n\n... (truncated) ...\n\n{}", "a".repeat(15000), "b".repeat(15000));
    assert_eq!(display, expected);
}
