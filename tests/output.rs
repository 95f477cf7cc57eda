use local_code::output::{detect_code_blocks, OutputPostProcessor};
use local_code::repl::Repl;
use local_code::streaming::{StreamChunkData, StreamStats, StreamingResponse};

#[test]
fn detects_blocks_with_lines() {
    let text = "intro\n```rust\nfn main() {}\n```\nmid\n```\nplain\n```\n```unclosed\nx";
    let blocks = detect_code_blocks(text);
    assert_eq!(blocks.len(), 2);
    assert_eq!(blocks[0].language.as_deref(), Some("rust"));
    assert_eq!(blocks[0].code, "fn main() {}");
    assert_eq!((blocks[0].start_line, blocks[0].end_line), (1, 3));
    assert_eq!(blocks[1].language, None);
    assert_eq!(blocks[1].code, "plain");
}

#[test]
fn removes_thoughts() {
    let text = "THOUGHT: planning\nstill thinking\n\nAnswer line\n<Thought>\nhidden\n</thought>\nEnd";
    assert_eq!(OutputPostProcessor::remove_thought_blocks(text), "Answer line\nEnd");
}

#[test]
fn code_only_and_process() {
    let text = "Here:\n```py\nprint(1)\n```\nand\n```\nx\n```";
    assert_eq!(OutputPostProcessor::extract_code_only(text), "```py\nprint(1)\n```\n\n```\nx\n```");
    assert_eq!(OutputPostProcessor::extract_code_only("no code"), "no code");
    assert_eq!(OutputPostProcessor::process("**THOUGHT:** x\n\nkeep", false), "keep");
    assert_eq!(OutputPostProcessor::process("THOUGHT: y\n\n```\nz\n```", true), "```\nz\n```");
}

#[test]
fn repl_prompt_text() {
    let mut repl = Repl::new(false);
    assert_eq!(repl.prompt_str(), "> ");
    repl.set_mode("Execute".to_string());
    repl.set_model("qwen".to_string());
    assert_eq!(repl.prompt_str(), "[Execute|qwen] > ");
    repl.set_superpowers_commands(vec!["brainstorm".to_string()]);
    assert_eq!(repl.completer().complete("/brain"), vec!["/brainstorm".to_string()]);
}

fn chunk(text: &str, done: bool) -> StreamChunkData {
    StreamChunkData { text: text.to_string(), done, stats: None }
}

#[test]
fn stream_closed_mid_way_keeps_text() {
    let mut s = StreamingResponse::new();
    assert!(s.deliver(Some(chunk("Hel", false))).is_some());
    assert!(s.deliver(Some(chunk("lo", false))).is_some());
    assert!(s.deliver(None).is_none());
    assert!(s.ended());
    assert!(s.deliver(Some(chunk("late", false))).is_none());
    assert_eq!(s.collect_all(), "Hello");
}

#[test]
fn stream_final_chunk_ends_it() {
    let mut s = StreamingResponse::new();
    let stats = StreamStats::from_counts(10, 2, 50, 2_000_000_000);
    assert_eq!(stats.tokens_per_second_milli, 25_000);
    assert_eq!(StreamStats::from_counts(1, 1, 5, 0).tokens_per_second_milli, 0);
    s.deliver(Some(StreamChunkData { text: "done".to_string(), done: true, stats: Some(stats) }));
    assert!(s.ended());
    assert!(s.deliver(Some(chunk("more", false))).is_none());
    assert_eq!(s.accumulated(), "done");
}

#[test]
fn test_stream_chunk_data() {
    let chunk = StreamChunkData { text: "Hello".to_string(), done: false, stats: None };
    assert_eq!(chunk.text, "Hello");
    assert!(!chunk.done);
    assert!(chunk.stats.is_none());
}

#[test]
fn test_stream_stats() {
    let stats = StreamStats::from_counts(1_000_000_000, 10, 100, 2_000_000_000);
    assert_eq!(stats.total_duration, 1_000_000_000);
    assert_eq!(stats.eval_count, 100);
    assert_eq!(stats.tokens_per_second_milli, 50_000);
}
