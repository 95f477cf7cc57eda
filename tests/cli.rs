use local_code::cli::{CommandHistory, ConfirmDialog, ConfirmResult, Icons, Ui};
use local_code::commands::{format_timestamp, Command, CommandHandler, CommandResult, HistoryListing};
use local_code::mode::Mode;
use local_code::completion::{Completer, CompletionResult};
use local_code::history::HistoryManager;
use local_code::skills::{FrontMatter, Skill, SkillContext, SkillMetadata, SkillRegistry, SkillSource, TriggerDetector};

#[test]
fn test_parse_commands() {
    assert!(matches!(Command::parse("/help"), Command::Help));
    assert!(matches!(Command::parse("/quit"), Command::Quit));
    assert!(matches!(Command::parse("/plan"), Command::Plan));
    assert!(matches!(Command::parse("/execute"), Command::Execute));

    if let Command::Model { name } = Command::parse("/model gpt-4") {
        assert_eq!(name, "gpt-4");
    } else {
        panic!("Expected Model command");
    }

    if let Command::Skill { name, args } = Command::parse("/commit fix bug") {
        assert_eq!(name, "commit");
        assert_eq!(args, Some("fix bug".to_string()));
    } else {
        panic!("Expected Skill command");
    }

    if let Command::Message(msg) = Command::parse("hello world") {
        assert_eq!(msg, "hello world");
    } else {
        panic!("Expected Message");
    }
}

#[test]
fn test_parse_help_aliases() {
    assert!(matches!(Command::parse("/h"), Command::Help));
    assert!(matches!(Command::parse("/?"), Command::Help));
}

#[test]
fn test_parse_quit_aliases() {
    assert!(matches!(Command::parse("/q"), Command::Quit));
    assert!(matches!(Command::parse("/exit"), Command::Quit));
}

#[test]
fn test_parse_execute_aliases() {
    assert!(matches!(Command::parse("/exec"), Command::Execute));
}

#[test]
fn test_parse_clear_aliases() {
    assert!(matches!(Command::parse("/cls"), Command::Clear));
    assert!(matches!(Command::parse("/clear"), Command::Clear));
}

#[test]
fn test_model_without_name() {
    if let Command::Unknown(msg) = Command::parse("/model") {
        assert!(msg.contains("requires"));
    } else {
        panic!("Expected Unknown command for /model without name");
    }
}

#[test]
fn test_parse_skill_without_args() {
    if let Command::Skill { name, args } = Command::parse("/commit") {
        assert_eq!(name, "commit");
        assert!(args.is_none());
    } else {
        panic!("Expected Skill command");
    }
}

#[test]
fn test_case_insensitive_commands() {
    assert!(matches!(Command::parse("/HELP"), Command::Help));
    assert!(matches!(Command::parse("/Plan"), Command::Plan));
    assert!(matches!(Command::parse("/QUIT"), Command::Quit));
}

#[test]
fn test_whitespace_handling() {
    assert!(matches!(Command::parse("  /help  "), Command::Help));

    if let Command::Model { name } = Command::parse("/model   gpt-4  ") {
        assert_eq!(name, "gpt-4");
    } else {
        panic!("Expected Model command");
    }
}

#[test]
fn commands_test_empty_input() {
    if let Command::Message(msg) = Command::parse("") {
        assert_eq!(msg, "");
    } else {
        panic!("Expected empty Message");
    }
}

#[test]
fn test_message_with_slash_in_middle() {
    if let Command::Message(msg) = Command::parse("hello/world") {
        assert_eq!(msg, "hello/world");
    } else {
        panic!("Expected Message");
    }
}

#[test]
fn test_parse_save_command() {
    if let Command::Save { name } = Command::parse("/save my-conversation") {
        assert_eq!(name, "my-conversation");
    } else {
        panic!("Expected Save command");
    }
}

#[test]
fn test_parse_save_without_name() {
    if let Command::Unknown(msg) = Command::parse("/save") {
        assert!(msg.contains("requires"));
    } else {
        panic!("Expected Unknown command for /save without name");
    }
}

#[test]
fn test_parse_load_command() {
    if let Command::Load { name } = Command::parse("/load my-conversation") {
        assert_eq!(name, "my-conversation");
    } else {
        panic!("Expected Load command");
    }
}

#[test]
fn test_parse_load_without_name() {
    if let Command::Unknown(msg) = Command::parse("/load") {
        assert!(msg.contains("requires"));
    } else {
        panic!("Expected Unknown command for /load without name");
    }
}

#[test]
fn test_parse_history_command() {
    assert!(matches!(Command::parse("/history"), Command::History));
    assert!(matches!(Command::parse("/hist"), Command::History));
}

#[test]
fn parse_status_skills_and_lone_slash() {
    assert!(matches!(Command::parse("/status"), Command::Status));
    assert!(matches!(Command::parse("/skills"), Command::Skills));
    if let Command::Skill { name, args } = Command::parse("/") {
        assert_eq!(name, "");
        assert!(args.is_none());
    } else {
        panic!("Expected Skill command");
    }
}

#[test]
fn test_command_completion() {
    let completer = Completer::new();
    let candidates = completer.complete("/he");
    assert!(candidates.contains(&"/help".to_string()));
    let candidates = completer.complete("/ex");
    assert!(candidates.contains(&"/execute".to_string()));
    assert!(candidates.contains(&"/exec".to_string()));
    assert!(candidates.contains(&"/exit".to_string()));
}

#[test]
fn test_command_completion_with_skills() {
    let mut completer = Completer::new();
    completer.set_skills(vec!["commit".to_string(), "review".to_string()]);
    let candidates = completer.complete("/co");
    assert!(candidates.contains(&"/commit".to_string()));
    let candidates = completer.complete("/re");
    assert!(candidates.contains(&"/review".to_string()));
}

#[test]
fn completion_test_empty_input() {
    let completer = Completer::new();
    let candidates = completer.complete("");
    assert!(candidates.is_empty());
}

#[test]
fn test_no_match() {
    let completer = Completer::new();
    let candidates = completer.complete("/xyz");
    assert!(candidates.is_empty());
}

#[test]
fn test_common_prefix() {
    let candidates = vec!["/execute".to_string(), "/exec".to_string(), "/exit".to_string()];
    let prefix = Completer::common_prefix(&candidates);
    assert_eq!(prefix, Some("/ex".to_string()));
}

#[test]
fn test_common_prefix_single() {
    let candidates = vec!["/help".to_string()];
    let prefix = Completer::common_prefix(&candidates);
    assert_eq!(prefix, Some("/help".to_string()));
}

#[test]
fn test_common_prefix_empty() {
    let candidates: Vec<String> = vec![];
    let prefix = Completer::common_prefix(&candidates);
    assert_eq!(prefix, None);
}

#[test]
fn test_completion_result_single() {
    let completer = Completer::new();
    let result = completer.complete_with_result("/hel");
    match result {
        CompletionResult::Single(s) => assert_eq!(s, "/help"),
        _ => panic!("Expected Single result"),
    }
}

#[test]
fn test_completion_result_multiple() {
    let completer = Completer::new();
    let result = completer.complete_with_result("/ex");
    match result {
        CompletionResult::Multiple { common_prefix, candidates } => {
            assert_eq!(common_prefix, "/ex");
            assert!(candidates.len() > 1);
        }
        _ => panic!("Expected Multiple result"),
    }
}

#[test]
fn test_completion_result_none() {
    let completer = Completer::new();
    let result = completer.complete_with_result("/xyz");
    match result {
        CompletionResult::Empty => {}
        _ => panic!("Expected None result"),
    }
}

#[test]
fn test_case_insensitive() {
    let completer = Completer::new();
    let candidates_lower = completer.complete("/he");
    let candidates_upper = completer.complete("/HE");
    assert_eq!(candidates_lower, candidates_upper);
}

#[test]
fn completion_extra_commands_and_paths() {
    let mut completer = Completer::new();
    completer.set_extra_commands(vec!["brainstorm".to_string(), "/write-plan".to_string()]);
    assert_eq!(completer.get_superpowers_commands(), vec!["/brainstorm".to_string(), "/write-plan".to_string()]);
    assert_eq!(completer.complete("/br"), vec!["/brainstorm".to_string()]);
    assert!(Completer::wants_path("./src"));
    assert!(Completer::wants_path("~"));
    assert!(!Completer::wants_path("/he"));
    assert!(!Completer::wants_path("hello"));
}

#[test]
fn test_confirm_dialog_creation() {
    let dialog = ConfirmDialog::new("test_action", "test details");
    assert_eq!(dialog.action(), "test_action");
    assert_eq!(dialog.details(), "test details");
}

#[test]
fn test_auto_approve() {
    let dialog = ConfirmDialog::new("test", "details").with_auto_approve(true);
    assert!(dialog.is_auto_approved());
}

#[test]
fn test_confirm_result_eq() {
    assert_eq!(ConfirmResult::Approved, ConfirmResult::Approved);
    assert_eq!(ConfirmResult::Denied, ConfirmResult::Denied);
    assert_ne!(ConfirmResult::Approved, ConfirmResult::Denied);
}

#[test]
fn confirm_answers() {
    assert_eq!(ConfirmDialog::decide(" Y \n"), ConfirmResult::Approved);
    assert_eq!(ConfirmDialog::decide("yes"), ConfirmResult::Approved);
    assert_eq!(ConfirmDialog::decide(""), ConfirmResult::Denied);
    assert_eq!(ConfirmDialog::decide("no"), ConfirmResult::Denied);
}

#[test]
fn icons_plain_and_unicode() {
    assert_eq!(Icons::user(false), "[U]");
    assert_eq!(Icons::prompt(false), ">");
    assert_eq!(Icons::prompt(true), "❯");
    assert_eq!(Icons::error(false), "[!]");
}

#[test]
fn command_history_navigation() {
    let mut h = CommandHistory::new();
    h.add("first".to_string());
    h.add("second".to_string());
    h.add("second".to_string());
    h.add("   ".to_string());
    assert_eq!(h.prev().cloned(), Some("second".to_string()));
    assert_eq!(h.prev().cloned(), Some("first".to_string()));
    assert_eq!(h.prev().cloned(), Some("first".to_string()));
    assert_eq!(h.next().cloned(), Some("second".to_string()));
    assert_eq!(h.next().cloned(), None);
    h.reset_position();
    assert_eq!(h.entries_to_save(), vec!["first".to_string(), "second".to_string()]);
}

#[test]
fn ui_log_lines() {
    let mut ui = Ui::new("title".to_string());
    ui.push_block("Out", "a\nb");
    ui.push_text("");
    assert_eq!(
        ui.log_lines(),
        &vec!["__LOCAL_CODE_SEPARATOR__".to_string(), "Out:".to_string(), "a".to_string(), "b".to_string(), String::new()]
    );
    ui.clear();
    assert!(ui.log_lines().is_empty());
}

#[test]
fn test_sanitize_filename() {
    assert_eq!(HistoryManager::sanitize_filename("normal"), "normal");
    assert_eq!(HistoryManager::sanitize_filename("with/slash"), "with_slash");
    assert_eq!(HistoryManager::sanitize_filename("with:colon"), "with_colon");
    assert_eq!(HistoryManager::sanitize_filename("multi<>chars"), "multi__chars");
}

#[test]
fn persist_round_trip_keeps_roles() {
    let mut conv = local_code::conversation::Conversation::new();
    conv.set_system("You are a helpful assistant.");
    conv.add_user("Hello");
    conv.add_tool_result("read", "data");
    let p = HistoryManager::to_persisted("test", &conv, 42);
    assert_eq!(p.saved_at, 42);
    assert_eq!(p.messages[0].role, "system");
    assert_eq!(p.messages[2].role, "tool");
    for (orig, saved) in conv.messages().iter().zip(p.messages.iter()) {
        let back = HistoryManager::persisted_to_message(saved);
        assert_eq!(back.role, orig.role);
        assert_eq!(back.content, orig.content);
        assert_eq!(back.tool_name, orig.tool_name);
    }
    let m = HistoryManager::with_directory("/h".to_string());
    assert_eq!(m.file_path("a/b"), "/h/a_b.json");
}

fn skill(name: &str, triggers: &[&str], auto: bool) -> Skill {
    Skill {
        metadata: SkillMetadata {
            name: name.to_string(),
            description: String::new(),
            triggers: triggers.iter().map(|t| t.to_string()).collect(),
            auto,
            parent: None,
        },
        content: format!("body of {}", name),
        path: format!("{}.md", name),
    }
}

#[test]
fn test_registry_creation() {
    let registry = SkillRegistry::new();
    assert!(registry.is_empty());
}

#[test]
fn registry_lookup_and_triggers() {
    let mut registry = SkillRegistry::new();
    registry.insert_skill(skill("commit", &["Commit This"], false), SkillSource::User);
    registry.insert_skill(skill("tdd", &["test first"], true), SkillSource::Superpowers);
    assert_eq!(registry.len(), 2);
    assert_eq!(registry.get("commit").unwrap().metadata.name, "commit");
    assert_eq!(registry.get("superpowers:tdd").unwrap().metadata.name, "tdd");
    assert!(registry.get("superpowers:commit").is_none());
    assert_eq!(registry.names(), vec!["commit".to_string(), "tdd".to_string(), "superpowers:tdd".to_string()]);
    let found = registry.find_by_trigger("please commit this now");
    assert_eq!(found.len(), 1);
    let detector = TriggerDetector::new(&registry);
    let hits = detector.detect("/commit and write test first");
    assert_eq!(hits[0].metadata.name, "tdd");
    assert_eq!(hits[1].metadata.name, "commit");
}

#[test]
fn test_skill_context() {
    let ctx = SkillContext { args: Some("test args".to_string()), working_dir: "/test".to_string() };
    assert_eq!(ctx.args.as_deref(), Some("test args"));
}

#[test]
fn test_is_skill_command() {
    assert!(TriggerDetector::is_skill_command("/my-skill"));
    assert!(!TriggerDetector::is_skill_command("/help"));
    assert!(!TriggerDetector::is_skill_command("/plan"));
    assert!(!TriggerDetector::is_skill_command("regular message"));
}

#[test]
fn test_extract_skill_name() {
    assert_eq!(TriggerDetector::extract_skill_name("/commit fix bug"), Some("commit".to_string()));
    assert_eq!(TriggerDetector::extract_skill_name("/review-pr 123"), Some("review-pr".to_string()));
    assert_eq!(TriggerDetector::extract_skill_name("not a command"), None);
}

#[test]
fn test_extract_args() {
    assert_eq!(TriggerDetector::extract_args("/commit fix bug"), Some("fix bug".to_string()));
    assert_eq!(TriggerDetector::extract_args("/skill"), None);
}

#[test]
fn skill_system_prompt() {
    let registry = std::sync::Arc::new(SkillRegistry::new());
    let exec = local_code::skills::SkillExecutor::new(registry);
    let s = skill("x", &[], false);
    assert_eq!(exec.to_system_prompt(&s), "<skill name=\"x\">\nbody of x\n</skill>");
}

#[test]
fn command_handler_dispatch() {
    let mut registry = SkillRegistry::new();
    registry.insert_skill(skill("commit", &[], false), SkillSource::User);
    let mut h = CommandHandler::new(Mode::Execute).with_skill_aliases(vec![("ci".to_string(), "commit".to_string())]);
    assert!(matches!(h.handle(&Command::Plan, &registry, HistoryListing::Unavailable, 0), CommandResult::Output(_)));
    assert_eq!(h.mode, Mode::Plan);
    match h.handle(&Command::Status, &registry, HistoryListing::Unavailable, 0) {
        CommandResult::Output(t) => assert!(t.starts_with("Mode: plan\nAllowed tools: read, glob")),
        _ => panic!("expected output"),
    }
    match h.handle(&Command::parse("/ci now"), &registry, HistoryListing::Unavailable, 0) {
        CommandResult::Skill { name, args } => {
            assert_eq!(name, "commit");
            assert_eq!(args.as_deref(), Some("now"));
        }
        _ => panic!("expected skill"),
    }
    match h.handle(&Command::parse("/nope"), &registry, HistoryListing::Unavailable, 0) {
        CommandResult::Output(t) => assert_eq!(t, "Unknown skill: nope. Use /skills to list available skills."),
        _ => panic!("expected output"),
    }
    assert!(matches!(h.handle(&Command::Quit, &registry, HistoryListing::Unavailable, 0), CommandResult::Exit));
    match h.handle(&Command::History, &registry, HistoryListing::Entries(&vec![]), 0) {
        CommandResult::Output(t) => assert_eq!(t, "No saved conversations found."),
        _ => panic!("expected output"),
    }
    assert_eq!(format_timestamp(100, 130), "just now");
    assert_eq!(format_timestamp(0, 120), "2 minutes ago");
    assert_eq!(format_timestamp(0, 3600), "1 hour ago");
    assert_eq!(format_timestamp(0, 3 * 86400), "3 days ago");
    assert_eq!(format_timestamp(10, 5), "unknown");
}

#[test]
fn frontmatter_split_parts() {
    let content = "---\nname: test-skill\ndescription: A test skill\ntriggers:\n  - test\n  - example\nauto: true\n---\n\n# Test Skill\n\nThis is the skill content.\n";
    match Skill::split_frontmatter(content) {
        FrontMatter::Present { yaml, body } => {
            assert!(yaml.starts_with("name: test-skill"));
            assert!(yaml.ends_with("auto: true"));
            assert!(body.starts_with("# Test Skill"));
        }
        other => panic!("unexpected {:?}", other),
    }
    assert_eq!(Skill::split_frontmatter("  plain body "), FrontMatter::Absent { body: "plain body".to_string() });
    assert_eq!(Skill::split_frontmatter("---\nname: x\n"), FrontMatter::Unclosed);
    let s = Skill::unnamed("b".to_string(), "p".to_string());
    assert_eq!(s.metadata.name, "unnamed");
}

#[test]
fn path_completion_candidates() {
    let entries = vec![
        ("main.rs".to_string(), false),
        ("Makefile".to_string(), false),
        (".hidden".to_string(), false),
        ("models".to_string(), true),
        ("lib.rs".to_string(), false),
    ];
    let c = Completer::path_candidates("src/ma", "ma", "src", &entries);
    assert_eq!(c, vec!["src/Makefile".to_string(), "src/main.rs".to_string()]);
    let all = Completer::path_candidates("src/", "", "src", &entries);
    assert_eq!(all.len(), 4);
    assert!(all.contains(&"src/models/".to_string()));
    let hidden = Completer::path_candidates("./.h", ".h", ".", &entries);
    assert_eq!(hidden, vec!["./.hidden".to_string()]);
}

#[test]
fn command_handler_texts() {
    let registry = SkillRegistry::new();
    let mut h = CommandHandler::new(Mode::Plan);
    match h.handle(&Command::Execute, &registry, HistoryListing::Unavailable, 0) {
        CommandResult::Output(t) => assert_eq!(t, "Switched to Execute mode (all tools available)"),
        _ => panic!("expected output"),
    }
    match h.handle(&Command::Plan, &registry, HistoryListing::Unavailable, 0) {
        CommandResult::Output(t) => assert_eq!(t, "Switched to Plan mode (read-only tools)"),
        _ => panic!("expected output"),
    }
    match h.handle(&Command::Skills, &registry, HistoryListing::Unavailable, 0) {
        CommandResult::Output(t) => assert_eq!(t, "No skills loaded"),
        _ => panic!("expected output"),
    }
    let entries = vec![local_code::history::HistoryEntry { name: "a".to_string(), saved_at: 0, message_count: 3, path: "p".to_string() }];
    match h.handle(&Command::History, &registry, HistoryListing::Entries(&entries), 120) {
        CommandResult::Output(t) => assert_eq!(t, "Saved conversations:\n  a (3 messages) - 2 minutes ago\n\nUse /load <name> to restore a conversation."),
        _ => panic!("expected output"),
    }
    match h.handle(&Command::History, &registry, HistoryListing::Failed("denied".to_string()), 0) {
        CommandResult::Output(t) => assert_eq!(t, "Failed to list history: denied"),
        _ => panic!("expected output"),
    }
}

#[test]
fn history_entries_newest_first() {
    let e = |n: &str, t: u64| local_code::history::HistoryEntry { name: n.to_string(), saved_at: t, message_count: 0, path: String::new() };
    let sorted = HistoryManager::sort_entries(vec![e("a", 1), e("b", 3), e("c", 2)]);
    let names: Vec<&str> = sorted.iter().map(|x| x.name.as_str()).collect();
    assert_eq!(names, vec!["b", "c", "a"]);
}

#[test]
fn completion_is_sorted_and_unique() {
    let mut completer = Completer::new();
    completer.set_skills(vec!["exec".to_string(), "extra".to_string()]);
    let c = completer.complete("/ex");
    let mut sorted = c.clone();
    sorted.sort();
    sorted.dedup();
    assert_eq!(c, sorted);
    assert_eq!(completer.complete("/EX"), c);
}

#[test]
fn lowered_command_and_answer() {
    assert!(matches!(Command::from_word("help".to_string(), None), Command::Help));
    assert!(matches!(Command::from_word("HELP".to_string(), None), Command::Skill { .. }));
    assert!(matches!(Command::from_word("save".to_string(), None), Command::Unknown(_)));
    assert_eq!(ConfirmDialog::decide_lowered("yes"), ConfirmResult::Approved);
    assert_eq!(ConfirmDialog::decide_lowered("YES"), ConfirmResult::Denied);
}

#[test]
fn handle_keeps_aliases_and_detect_names_command() {
    let mut registry = SkillRegistry::new();
    registry.insert_skill(skill("commit", &[], false), SkillSource::User);
    let mut h = CommandHandler::new(Mode::Execute).with_skill_aliases(vec![("ci".to_string(), "commit".to_string())]);
    h.handle(&Command::Plan, &registry, HistoryListing::Unavailable, 0);
    assert_eq!(h.skill_aliases.len(), 1);
    let detector = TriggerDetector::new(&registry);
    let hits = detector.detect("/ commit please");
    assert_eq!(hits.len(), 1);
    assert_eq!(hits[0].metadata.name, "commit");
}

#[test]
fn saved_messages_read_back() {
    let mut conv = local_code::conversation::Conversation::new();
    conv.set_system("s");
    conv.add_tool_result("read", "data");
    let p = HistoryManager::to_persisted("n", &conv, 0);
    let back = HistoryManager::messages_of(&p);
    assert_eq!(back.len(), 2);
    assert_eq!(back[1].tool_name.as_deref(), Some("read"));
    assert_eq!(back[1].content, "data");
}
