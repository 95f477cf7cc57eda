use local_code::compression::{CompressionConfig, ContextCompressor};
use local_code::conversation::{Conversation, Message, Role};
use local_code::mode::{requires_confirmation, Mode};
use local_code::retry::{RetryConfig, RetryStep, RetryableError};
use local_code::tools::{BashTool, EditError, EditTool, GlobTool, GrepTool, ReadTool, ToolResult};
use local_code::verification::replace_code_block;
use local_code::verification::CodeVerifier;

#[test]
fn test_conversation() {
    let mut conv = Conversation::new();
    conv.set_system("You are a helpful assistant.");
    conv.add_user("Hello");
    conv.add_assistant("Hi there!");

    assert_eq!(conv.len(), 3);
    assert_eq!(conv.messages()[0].role, Role::System);
    assert_eq!(conv.messages()[1].role, Role::User);
}

#[test]
fn test_to_prompt() {
    let mut conv = Conversation::new();
    conv.add_user("Hello");
    let prompt = conv.to_prompt();
    assert!(prompt.contains("User: Hello"));
    assert!(prompt.ends_with("Assistant: "));
}

#[test]
fn to_prompt_exact_layout() {
    let mut conv = Conversation::new();
    conv.set_system("S");
    conv.add_user("U");
    conv.add_tool_result("read", "out");
    assert_eq!(conv.to_prompt(), "System: S\n\nUser: U\n\nTool (read): out\n\nAssistant: ");
}

#[test]
fn truncation_keeps_system_and_drops_oldest() {
    let mut conv = Conversation::with_max_messages(3);
    conv.set_system("sys");
    for i in 0..5 {
        conv.add_user(&format!("m{}", i));
    }
    assert_eq!(conv.len(), 3);
    assert_eq!(conv.messages()[0].role, Role::System);
    assert_eq!(conv.messages()[1].content, "m3");
    assert_eq!(conv.messages()[2].content, "m4");
}

#[test]
fn set_system_replaces_and_clear_keeps_it() {
    let mut conv = Conversation::new();
    conv.add_user("a");
    conv.set_system("one");
    conv.set_system("two");
    assert_eq!(conv.len(), 2);
    assert_eq!(conv.messages()[0].content, "two");
    conv.clear();
    assert_eq!(conv.len(), 1);
    assert_eq!(conv.messages()[0].content, "two");
}

#[test]
fn set_max_messages_truncates() {
    let mut conv = Conversation::new();
    for i in 0..10 {
        conv.add_user(&format!("{}", i));
    }
    conv.set_max_messages(4);
    assert_eq!(conv.len(), 4);
    assert_eq!(conv.messages()[0].content, "6");
}

#[test]
fn tool_message_has_name() {
    let m = Message::tool("read", "x");
    assert_eq!(m.role, Role::Tool);
    assert_eq!(m.tool_name.as_deref(), Some("read"));
    assert!(Message::user("x").tool_name.is_none());
}

#[test]
fn test_estimate_tokens() {
    let mut conv = Conversation::new();
    conv.add_user("abcd");
    // one token for four ASCII characters, four for the role
    assert_eq!(conv.estimated_tokens(), 5);
    conv.add_user("あいう");
    // three non-ASCII characters round up to two tokens
    assert_eq!(conv.estimated_tokens(), 5 + 6);
    assert_eq!(Conversation::new().estimated_tokens(), 0);
}

#[test]
fn test_should_compress() {
    let compressor = ContextCompressor::new().with_max_tokens(100).with_threshold(50);
    let mut conv = Conversation::new();
    conv.add_user("Hello");
    assert!(!compressor.should_compress(&conv));
    for i in 0..20 {
        conv.add_user(&format!("Message {}: This is a longer message to increase token count", i));
        conv.add_assistant(&format!("Response {}: This is a longer response to increase token count", i));
    }
    assert!(compressor.should_compress(&conv));
}

fn long_conversation(turns: usize) -> Conversation {
    let mut conv = Conversation::new();
    conv.set_system("You are helpful.");
    for i in 0..turns {
        conv.add_user(&format!("Question {} about the code", i));
        conv.add_assistant(&format!("Answer {}. More details follow.", i));
    }
    conv
}

#[test]
fn test_compress_preserves_system() {
    let conv = long_conversation(10);
    let compressed = ContextCompressor::new().compress(&conv);
    assert!(compressed.system_message.is_some());
    assert_eq!(compressed.system_message.unwrap().content, "You are helpful.");
}

#[test]
fn test_compress_preserves_recent() {
    let conv = long_conversation(10);
    let compressed = ContextCompressor::new().compress(&conv);
    assert_eq!(compressed.preserved_messages.len(), 10);
    assert_eq!(compressed.compressed_history.as_ref().unwrap().original_count, 10);
    assert_eq!(compressed.preserved_messages[9].content, "Answer 9. More details follow.");
}

#[test]
fn test_compressed_to_conversation() {
    let conv = long_conversation(15);
    let compressed = ContextCompressor::new().compress(&conv);
    let back = compressed.to_conversation();
    assert_eq!(back.len(), 12);
    assert_eq!(back.messages()[0].content, "You are helpful.");
    assert!(back.messages()[1].content.starts_with("[Previous conversation summary (20 messages)]\n"));
}

#[test]
fn compression_scenario_thirty_turns() {
    let mut conv = Conversation::new();
    conv.set_system("sys");
    for i in 0..15 {
        conv.add_user(&format!("user turn {}", i));
        conv.add_assistant(&format!("assistant turn {}", i));
    }
    let config = CompressionConfig {
        threshold_percent: 1,
        max_tokens: 10,
        preserve_recent: 10,
        preserve_code_blocks: true,
        preserve_tool_results: true,
    };
    let out = conv.compress_with_config(config);
    assert_eq!(out.len(), 12);
    assert_eq!(out.messages()[0].content, "sys");
    assert_eq!(out.messages()[1].role, Role::System);
    assert_eq!(out.messages()[11].content, "assistant turn 14");
    assert_eq!(out.messages()[2].content, "user turn 10");
}

#[test]
fn summary_text_layout() {
    let mut conv = Conversation::new();
    conv.add_user("Fix the parser\nplease");
    conv.add_assistant("I changed it. Done");
    conv.add_tool_result("bash", "ok");
    conv.add_user("recent");
    let config = CompressionConfig {
        threshold_percent: 0,
        max_tokens: 0,
        preserve_recent: 1,
        preserve_code_blocks: true,
        preserve_tool_results: true,
    };
    let c = ContextCompressor::with_config(config).compress(&conv);
    let h = c.compressed_history.unwrap();
    assert_eq!(h.original_count, 3);
    assert_eq!(h.summary, "User discussed: Fix the parser.\nAssistant: I changed it.\n\n[Tool: bash] ok\n");
}

#[test]
fn zero_recent_summarizes_everything() {
    let mut conv = Conversation::new();
    conv.add_user("a");
    conv.add_assistant("b");
    let config = CompressionConfig {
        threshold_percent: 0,
        max_tokens: 0,
        preserve_recent: 0,
        preserve_code_blocks: true,
        preserve_tool_results: true,
    };
    let c = ContextCompressor::with_config(config).compress(&conv);
    assert!(c.preserved_messages.is_empty());
    assert_eq!(c.compressed_history.unwrap().original_count, 2);
}

#[test]
fn enough_recent_compresses_nothing() {
    let conv = long_conversation(2);
    let c = ContextCompressor::new().compress(&conv);
    assert!(c.compressed_history.is_none());
    assert_eq!(c.preserved_messages.len(), 4);
    assert_eq!(c.estimated_tokens_saved, 0);
}

#[test]
fn test_mode_allowed_tools() {
    let plan = Mode::Plan;
    assert!(plan.is_tool_allowed("read"));
    assert!(plan.is_tool_allowed("glob"));
    assert!(!plan.is_tool_allowed("write"));
    assert!(!plan.is_tool_allowed("bash"));

    let execute = Mode::Execute;
    assert!(execute.is_tool_allowed("read"));
    assert!(execute.is_tool_allowed("write"));
    assert!(execute.is_tool_allowed("bash"));
}

#[test]
fn test_mode_from_str() {
    assert_eq!(Mode::parse_mode("plan"), Some(Mode::Plan));
    assert_eq!(Mode::parse_mode("PLAN"), Some(Mode::Plan));
    assert_eq!(Mode::parse_mode("execute"), Some(Mode::Execute));
    assert_eq!(Mode::parse_mode("exec"), Some(Mode::Execute));
    assert_eq!(Mode::parse_mode("invalid"), None);
}

#[test]
fn plan_tools_are_subset_of_execute_tools() {
    let plan = Mode::Plan.allowed_tools();
    let exec = Mode::Execute.allowed_tools();
    for t in &plan {
        assert!(exec.contains(t));
    }
    assert!(exec.len() > plan.len());
    assert_eq!(Mode::Plan.next(), Mode::Execute);
    assert_eq!(Mode::Execute.as_str(), "execute");
    assert_eq!(Mode::default(), Mode::Execute);
}

#[test]
fn test_requires_confirmation() {
    assert!(requires_confirmation("bash"));
    assert!(requires_confirmation("write"));
    assert!(requires_confirmation("edit"));
    assert!(requires_confirmation("git_commit"));

    assert!(!requires_confirmation("read"));
    assert!(!requires_confirmation("glob"));
    assert!(!requires_confirmation("grep"));
}

#[test]
fn test_retryable_error_classification() {
    assert!(RetryableError::Connection.is_retryable());
    assert!(RetryableError::Timeout.is_retryable());
    assert!(RetryableError::ServerError.is_retryable());
    assert!(!RetryableError::NonRetryable.is_retryable());
}

#[test]
fn classify_request_errors() {
    assert_eq!(RetryableError::classify(true, false, None, false), RetryableError::Connection);
    assert_eq!(RetryableError::classify(false, true, None, false), RetryableError::Timeout);
    assert_eq!(RetryableError::classify(false, false, Some(503), false), RetryableError::ServerError);
    assert_eq!(RetryableError::classify(false, false, Some(404), false), RetryableError::NonRetryable);
    assert_eq!(RetryableError::classify(false, false, None, true), RetryableError::Connection);
}

#[test]
fn test_calculate_backoff() {
    let config = RetryConfig::new();
    assert_eq!(config.calculate_backoff(0), 1000);
    assert_eq!(config.calculate_backoff(1), 2000);
    assert_eq!(config.calculate_backoff(2), 4000);
}

#[test]
fn test_backoff_max_limit() {
    let mut config = RetryConfig::new();
    config.max_backoff_ms = 5000;
    assert_eq!(config.calculate_backoff(4), 5000);
}

#[test]
fn retry_then_succeed_backoffs() {
    let config = RetryConfig { max_retries: 3, initial_backoff_ms: 1, multiplier: 2, max_backoff_ms: 30000 };
    assert_eq!(config.next_step(0, RetryableError::Connection), RetryStep::Retry { delay_ms: 1 });
    assert_eq!(config.next_step(1, RetryableError::Connection), RetryStep::Retry { delay_ms: 2 });
    assert_eq!(config.next_step(3, RetryableError::Connection), RetryStep::GiveUp { attempts: 4 });
    assert_eq!(config.next_step(0, RetryableError::NonRetryable), RetryStep::GiveUp { attempts: 1 });
}

#[test]
fn backoff_never_decreases() {
    let config = RetryConfig { max_retries: 9, initial_backoff_ms: 300, multiplier: 3, max_backoff_ms: 2000 };
    let mut prev = 0;
    for a in 0..10 {
        let b = config.calculate_backoff(a);
        assert!(b >= prev);
        assert!(b <= 2000);
        prev = b;
    }
    assert_eq!(config.calculate_backoff(9), 2000);
}

#[test]
fn test_extract_code_blocks() {
    let content = r#"
Here is some code:
```python
def hello():
    print("Hello")
```
And more text.
"#;
    let blocks = CodeVerifier::extract_code_blocks(content);
    assert_eq!(blocks.len(), 1);
    assert_eq!(blocks[0].0, "python");
    assert!(blocks[0].1.contains("def hello()"));
}

#[test]
fn test_normalize_language() {
    assert_eq!(CodeVerifier::normalize_language("py"), "python");
    assert_eq!(CodeVerifier::normalize_language("Python"), "python");
    assert_eq!(CodeVerifier::normalize_language("rs"), "rust");
    assert_eq!(CodeVerifier::normalize_language("js"), "javascript");
}

#[test]
fn test_infer_language() {
    assert_eq!(CodeVerifier::infer_language("def foo(): pass"), Some("python".to_string()));
    assert_eq!(CodeVerifier::infer_language("fn main() {}"), Some("rust".to_string()));
    assert_eq!(CodeVerifier::infer_language("const x = 1;"), Some("javascript".to_string()));
    assert_eq!(CodeVerifier::infer_language("#!/bin/bash\necho hi"), Some("bash".to_string()));
    assert_eq!(CodeVerifier::infer_language("some random text"), None);
}

#[test]
fn test_extract_code_blocks_without_lang_tag() {
    let content = "```\ndef hello():\n    print('hi')\n```";
    let blocks = CodeVerifier::extract_code_blocks(content);
    assert_eq!(blocks.len(), 1);
    assert_eq!(blocks[0].0, "python");
}

#[test]
fn fix_prompt_and_check_commands() {
    let v = CodeVerifier::new();
    assert_eq!(v.max_attempts(), 3);
    let r = CodeVerifier::unsupported("cobol", "x");
    assert!(r.success);
    assert_eq!(r.output, "Verification not supported for language: cobol");
    let failed = local_code::verification::VerificationResult {
        success: false,
        output: String::new(),
        error: "SyntaxError".to_string(),
        language: "python".to_string(),
        code: "print(x".to_string(),
    };
    let p = v.create_fix_prompt(&failed);
    assert!(p.starts_with("The following python code has an error."));
    assert!(p.contains("```python\nprint(x\n```"));
    assert!(p.contains("```\nSyntaxError\n```"));
    assert_eq!(CodeVerifier::check_command("py").unwrap().program, "python3");
    assert_eq!(CodeVerifier::check_command("sh").unwrap().args, vec!["-n".to_string()]);
    assert!(CodeVerifier::check_command("cobol").is_none());
}

#[test]
fn tool_results() {
    let ok = ToolResult::success("done");
    assert!(ok.success && ok.error.is_none());
    assert_eq!(ok.message_text(), "done");
    let bad = ToolResult::failure("boom");
    assert!(!bad.success);
    assert_eq!(bad.message_text(), "boom");
}

#[test]
fn edit_twice_occurring_text() {
    let content = "foo bar foo";
    assert_eq!(EditTool::apply_edit(content, "foo", "baz", false), Err(EditError::Ambiguous { count: 2 }));
    let (text, n) = EditTool::apply_edit(content, "foo", "baz", true).unwrap();
    assert_eq!(text, "baz bar baz");
    assert_eq!(n, 2);
    assert_eq!(EditTool::apply_edit(content, "bar", "qux", false).unwrap(), ("foo qux foo".to_string(), 1));
    assert_eq!(EditTool::apply_edit(content, "zzz", "q", false), Err(EditError::NotFound));
    assert_eq!(EditTool::apply_edit(content, "", "q", true), Err(EditError::EmptyPattern));
}

#[test]
fn read_tool_output() {
    let out = ReadTool::render("/tmp/a.txt", "line1\nline2", 0, None);
    assert_eq!(out, "File: /tmp/a.txt (2 lines)\n     1\tline1\n     2\tline2");
    let part = ReadTool::render("f", "a\nb\nc", 1, Some(1));
    assert_eq!(part, "File: f (3 lines)\n     2\tb");
}

#[test]
fn tool_names_and_descriptions() {
    use_tool_names();
}

fn use_tool_names() {
    assert_eq!(ReadTool::new().name(), "read");
    assert_eq!(local_code::tools::GitCommitTool::new().name(), "git_commit");
    assert_eq!(local_code::tools::BashTool::with_timeout(5).timeout_secs, 5);
    assert_eq!(local_code::tools::LspTool::References.method(), "textDocument/references");
    assert_eq!(EditTool::new().description(), "Edit a file by replacing old_string with new_string");
}

#[test]
fn backoff_is_exact_power() {
    let config = RetryConfig { max_retries: 5, initial_backoff_ms: 7, multiplier: 3, max_backoff_ms: 1000 };
    assert_eq!(config.calculate_backoff(0), 7);
    assert_eq!(config.calculate_backoff(2), 63);
    assert_eq!(config.calculate_backoff(4), 567);
    assert_eq!(config.calculate_backoff(5), 1000);
    let zero = RetryConfig { max_retries: 5, initial_backoff_ms: 7, multiplier: 0, max_backoff_ms: 1000 };
    assert_eq!(zero.calculate_backoff(1), 0);
}

#[test]
fn compressing_projection_keeps_summary() {
    let conv = long_conversation(15);
    let compressor = ContextCompressor::new();
    let first = compressor.compress(&conv);
    let back = first.to_conversation();
    let second = compressor.compress(&back);
    let (h1, h2) = (first.compressed_history.clone().unwrap(), second.compressed_history.clone().unwrap());
    assert_eq!(h2.original_count, h1.original_count);
    assert_eq!(h2.summary, h1.summary);
    assert_eq!(second.system_message.as_ref().unwrap().content, "You are helpful.");
    assert_eq!(second.preserved_messages.len(), first.preserved_messages.len());
    let again = second.to_conversation();
    assert_eq!(again.len(), back.len());
    assert_eq!(again.messages()[1].content, back.messages()[1].content);
}

#[test]
fn grep_search_reports_hits() {
    let files = vec![
        ("a.rs".to_string(), "fn main() {}\nlet x = 1;\nfn other() {}".to_string()),
        ("b.rs".to_string(), "nothing here".to_string()),
    ];
    let r = GrepTool::search("fn ", &files);
    assert!(r.success);
    assert_eq!(r.output, "Found 2 matches:\na.rs:1:fn main() {}\na.rs:3:fn other() {}");
    assert_eq!(GrepTool::search("zzz", &files).output, "No matches found");
    let bad = GrepTool::search("(", &files);
    assert!(!bad.success);
    let many: Vec<(String, String)> = vec![("m".to_string(), "x\n".repeat(150))];
    let capped = GrepTool::search("x", &many);
    assert!(capped.output.starts_with("Found 100 matches (truncated):\nm:1:x"));
}

#[test]
fn glob_and_bash_reports() {
    assert_eq!(GlobTool::report(&vec![]).output, "No files found matching the pattern");
    assert_eq!(GlobTool::report(&vec!["a".to_string(), "b".to_string()]).output, "Found 2 files:\na\nb");
    let ok = BashTool::outcome("out", "warn", true, 0);
    assert_eq!(ok.output, "out\n[stderr]\nwarn");
    let bad = BashTool::outcome("", "boom", false, 2);
    assert_eq!(bad.error.unwrap(), "Command exited with code 2\n[stderr]\nboom");
    assert_eq!(BashTool::outcome("", "", false, -1).error.unwrap(), "Command exited with code -1\n");
    assert_eq!(BashTool::timed_out(5).error.unwrap(), "Command timed out after 5 seconds");
}

#[test]
fn test_registry() {
    let registry = local_code::registry::ToolRegistry::new();
    assert!(registry.is_empty());
}

#[test]
fn default_registry_and_prompt() {
    let registry = local_code::registry::default_registry();
    assert_eq!(registry.len(), 14);
    assert!(registry.contains("grep"));
    assert!(registry.get("lsp_diagnostics").unwrap().parameters.contains("file_path"));
    let prompt = local_code::registry::build_system_prompt(&registry, Some("/work"));
    assert!(prompt.starts_with("You are a coding assistant."));
    assert!(prompt.contains("Available tools:\n\n## read\nRead the contents of a file\nParameters: {"));
    assert!(prompt.ends_with("or omit the path parameter to use the current directory."));
}

#[test]
fn fixed_block_replaces_whole_block() {
    let reply = "Try:\n```python\nprint(x\n```\ndone";
    assert_eq!(replace_code_block(reply, "print(x", "print(\"x\")", "python"), "Try:\n```python\nprint(\"x\")\n```\ndone");
    let bare = "```\nprint(x\n```";
    assert_eq!(replace_code_block(bare, "print(x", "print(1)", "python"), "```python\nprint(1)\n```");
    assert_eq!(replace_code_block("no block", "a", "b", "py"), "no block");
    let c = CodeVerifier::check_command("rs").unwrap();
    assert_eq!(c.args, vec!["--emit=metadata".to_string(), "-o".to_string(), "/dev/null".to_string()]);
    assert_eq!(c.suffix, ".rs");
}

#[test]
fn lowered_entry_points() {
    assert_eq!(Mode::from_lowered("exec"), Some(Mode::Execute));
    assert_eq!(Mode::from_lowered("PLAN"), None);
    assert_eq!(CodeVerifier::normalize_lowered("py", "Py"), "python");
    assert_eq!(CodeVerifier::normalize_lowered("cobol", "COBOL"), "COBOL");
}

#[test]
fn tool_report_texts() {
    assert_eq!(ToolResult::missing_parameter("pattern").error.unwrap(), "Missing pattern parameter");
    assert_eq!(ToolResult::file_not_found("/x").error.unwrap(), "File not found: /x");
    assert_eq!(local_code::tools::WriteTool::report("a.txt", "l1\nl2\n").output, "Successfully wrote 2 lines to a.txt");
    assert_eq!(EditTool::report_success("f", 2).output, "Successfully replaced 2 occurrence(s) in f");
    let long = "x".repeat(60);
    assert_eq!(
        EditTool::report_error(EditError::NotFound, &long).error.unwrap(),
        format!("old_string not found in file: '{}...'", "x".repeat(50))
    );
    assert_eq!(
        EditTool::report_error(EditError::Ambiguous { count: 2 }, "a").error.unwrap(),
        "old_string found 2 times. Use replace_all: true to replace all, or provide a more unique string."
    );
    assert_eq!(local_code::tools::GitAddTool::report(3).output, "Added 3 file(s)");
    let t = BashTool::timed_out(7);
    assert!(!t.success && t.output.is_empty());
}

#[test]
fn lsp_reports() {
    use_lsp_reports();
}

fn use_lsp_reports() {
    let refs = vec![("/a.rs".to_string(), 0u32, 4u32), ("/b.rs".to_string(), 9, 0)];
    assert_eq!(local_code::tools::LspTool::report_locations(&refs).output, "/a.rs:1:5\n/b.rs:10:1");
    assert_eq!(local_code::tools::LspTool::report_locations(&vec![]).output, "No references found");
    assert_eq!(local_code::tools::LspTool::Definition.nothing_found().output, "No definition found");
    assert_eq!(local_code::tools::LspTool::server_error("boom").error.unwrap(), "LSP error: boom");
}
