use local_code::context::AgentContext;
use local_code::conversation::{Conversation, Role};
use local_code::mode::Mode;
use local_code::tool_call::ToolCallParser;
use local_code::tools::ReadTool;
use local_code::turn::{decide_call, plain_reply, CallDecision, Turn};
use local_code::verification::{fix_candidate, CodeVerifier, FixLoop, FixStep, VerificationResult};

#[test]
fn test_parse_json_block() {
    let response = r#"
I'll read the file for you.

```json
{"tool": "read", "params": {"file_path": "/path/to/file.rs"}}
```
"#;
    let calls = ToolCallParser::parse(response);
    assert_eq!(calls.len(), 1);
    assert_eq!(calls[0].tool, "read");
}

#[test]
fn test_parse_multiple_calls() {
    let response = r#"
```json
{"tool": "glob", "params": {"pattern": "*.rs"}}
```

Let me also check this:

```json
{"tool": "read", "params": {"file_path": "/src/main.rs"}}
```
"#;
    let calls = ToolCallParser::parse(response);
    assert_eq!(calls.len(), 2);
}

#[test]
fn raw_json_and_bad_candidates() {
    let calls = ToolCallParser::parse(r#"Sure: {"tool": "grep", "params": {"pattern": "{x}"}} done"#);
    assert_eq!(calls.len(), 1);
    assert_eq!(calls[0].tool, "grep");
    assert_eq!(calls[0].params["pattern"], "{x}");
    let calls = ToolCallParser::parse("```json\nnot json\n```\n```\n{\"tool\":\"read\"}\n```");
    assert_eq!(calls.len(), 1);
    assert_eq!(calls[0].tool, "read");
    assert!(calls[0].params.is_object());
    assert!(ToolCallParser::parse("no calls here").is_empty());
    assert!(ToolCallParser::parse_first("no calls").is_none());
}

#[test]
fn split_response_strips_fences() {
    let response = "Reading now.\n```json\n{\"tool\":\"read\",\"params\":{\"file_path\":\"a\"}}\n```\nThen done.";
    let (text, calls) = ToolCallParser::split_response(response);
    assert_eq!(text, "Reading now.\n\nThen done.");
    assert_eq!(calls.len(), 1);
    let fences = "```json\n{\"tool\":\"read\",\"params\":{\"file_path\":\"a\"}}\n```";
    let again = ToolCallParser::parse(&format!("{}{}", text, fences));
    assert_eq!(again.len(), 1);
    assert_eq!(again[0].tool, calls[0].tool);
}

#[test]
fn plain_chat_scenario() {
    let mut conv = Conversation::new();
    conv.add_user("Hello");
    let reply = "Hi there!";
    assert!(ToolCallParser::parse(reply).is_empty());
    plain_reply(&mut conv, reply);
    assert_eq!(conv.len(), 2);
    assert_eq!(conv.messages()[1].role, Role::Assistant);
    assert_eq!(conv.messages()[1].content, "Hi there!");
}

#[test]
fn single_tool_call_scenario() {
    let mut conv = Conversation::new();
    conv.add_user("read file X");
    let reply = "```json\n{\"tool\":\"read\",\"params\":{\"file_path\":\"/tmp/a.txt\"}}\n```";
    let (prose, calls) = ToolCallParser::split_response(reply);
    assert_eq!(calls.len(), 1);
    assert_eq!(decide_call(Mode::Execute, &calls[0].tool, false), CallDecision::Run);
    let mut turn = Turn::start(&prose);
    let output = ReadTool::render("/tmp/a.txt", "line1\nline2", 0, None);
    turn.record_output(&mut conv, &calls[0].tool, &output);
    let text = turn.finish(&mut conv);
    assert!(conv.messages()[1].content.starts_with("File: /tmp/a.txt (2 lines)"));
    assert_eq!(conv.messages()[1].tool_name.as_deref(), Some("read"));
    assert!(text.starts_with("[read]\n"));
    assert_eq!(conv.messages()[2].role, Role::Assistant);
}

#[test]
fn plan_mode_denial_scenario() {
    let mut conv = Conversation::new();
    let reply = "{\"tool\":\"write\",\"params\":{\"file_path\":\"x\",\"content\":\"y\"}}";
    let calls = ToolCallParser::parse(reply);
    assert_eq!(decide_call(Mode::Plan, &calls[0].tool, false), CallDecision::Deny);
    let mut turn = Turn::start("");
    turn.record_denied(&mut conv, "write", Mode::Plan);
    assert_eq!(conv.messages()[0].content, "Tool 'write' is not allowed in plan mode");
    let text = turn.finish(&mut conv);
    assert_eq!(text, "[write] Tool 'write' is not allowed in plan mode\n");
    assert_eq!(decide_call(Mode::Execute, "write", false), CallDecision::Confirm);
    assert_eq!(decide_call(Mode::Execute, "write", true), CallDecision::Run);
}

#[test]
fn verify_and_fix_scenario() {
    let reply = "Here:\n```python\nprint(x\n```";
    let blocks = CodeVerifier::extract_code_blocks(reply);
    assert_eq!(blocks, vec![("python".to_string(), "print(x".to_string())]);
    let fixed = CodeVerifier::extract_code_blocks("```python\nprint(\"x\")\n```");
    assert_eq!(fixed[0].1, "print(\"x\")");
}

#[test]
fn agent_context_prompt() {
    let ctx = AgentContext { content: Some("Use tabs.".to_string()), source_path: None };
    assert!(ctx.has_context());
    assert_eq!(
        ctx.as_system_prompt().unwrap(),
        "# Project Context\nThe following instructions are from the project's agent configuration file:\n\nUse tabs.\n"
    );
    assert!(AgentContext::default().as_system_prompt().is_none());
}

#[test]
fn test_has_tool_call() {
    assert!(ToolCallParser::has_tool_call(r#"{"tool": "read"}"#));
    assert!(!ToolCallParser::has_tool_call("Just a regular message"));
    assert!(ToolCallParser::has_tool_call("x {\n  \"tool\"\t: 1"));
    assert!(!ToolCallParser::has_tool_call(r#"{"tools": 1}"#));
}

#[test]
fn verify_and_fix_loop_steps() {
    use_fix_loop();
}

fn use_fix_loop() {
    let verifier = CodeVerifier::new();
    let mut fixes = FixLoop::new(&verifier);
    let failed = VerificationResult {
        success: false,
        output: String::new(),
        error: "SyntaxError: '(' was never closed".to_string(),
        language: "python".to_string(),
        code: "print(x".to_string(),
    };
    match fixes.after_check(&verifier, &failed) {
        FixStep::AskFix(p) => assert!(p.contains("print(x")),
        _ => panic!("expected a fix request"),
    }
    let fixed = fix_candidate("Here you go:\n```python\nprint(\"x\")\n```");
    assert_eq!(fixed, "print(\"x\")");
    assert_eq!(fix_candidate("  print(1)  \n"), "print(1)");
    let ok = VerificationResult { success: true, code: fixed, ..failed.clone() };
    assert_eq!(fixes.after_check(&verifier, &ok), FixStep::Done);
    let mut limited = FixLoop::new(&verifier);
    for _ in 0..3 {
        assert!(matches!(limited.after_check(&verifier, &failed), FixStep::AskFix(_)));
    }
    assert_eq!(limited.after_check(&verifier, &failed), FixStep::GiveUp);
}
