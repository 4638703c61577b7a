use session_reflect::policy::{
    compact_decision, decide, event_kind, guards_pass, stop_decision, within_scope, EventKind,
    HookEvent, Outcome, FALLBACK_REASON, PRECOMPACT_PREFIX,
};
use session_reflect::transcript::{analyze_transcript, AnalysisResult};

const HOME: &str = "/home/alex";

const HUMAN: &str = r#"{"type":"human","message":{"content":"please help"}}"#;
const TOOL_TURN: &str = r#"{"type":"assistant","message":{"content":[{"type":"text","text":"ok"},{"type":"tool_use","name":"Bash","input":{"command":"ls"}}]}}"#;
const PLAIN_TURN: &str = r#"{"type":"assistant","message":{"content":[{"type":"text","text":"done"}]}}"#;
const MEMORY_WRITE: &str = r#"{"type":"assistant","message":{"content":[{"type":"tool_use","name":"Write","input":{"file_path":"Memory/Learnings/foo.md"}}]}}"#;

fn transcript(humans: usize, tool_turns: usize, extra: &[&str]) -> String {
    let mut lines: Vec<String> = Vec::new();
    for _ in 0..humans {
        lines.push(HUMAN.to_string());
    }
    for _ in 0..tool_turns {
        lines.push(TOOL_TURN.to_string());
    }
    for e in extra {
        lines.push(e.to_string());
    }
    lines.join("\n") + "\n"
}

fn stop_event(cwd: &str, active: bool) -> HookEvent {
    HookEvent {
        stop_hook_active: active,
        cwd: cwd.to_string(),
        transcript_path: "t.jsonl".to_string(),
        trigger: None,
    }
}

fn compact_event(cwd: &str) -> HookEvent {
    HookEvent {
        stop_hook_active: false,
        cwd: cwd.to_string(),
        transcript_path: String::new(),
        trigger: Some("auto".to_string()),
    }
}

#[test]
fn scenario_a_below_thresholds_is_silent() {
    let t = transcript(2, 3, &[]);
    let ev = stop_event("/home/alex/Data/x", false);
    assert_eq!(decide(&ev, HOME, Some(&t), None), Outcome::Allow);
}

#[test]
fn scenario_b_substantial_without_memory_blocks_with_fallback() {
    let t = transcript(5, 12, &[]);
    let ev = stop_event("/home/alex/Data/x", false);
    let expected = "Substantial session with no learnings captured. Create a file in Memory/Learnings/ or Memory/Decisions/ before ending.";
    assert_eq!(
        decide(&ev, HOME, Some(&t), None),
        Outcome::Block { reason: expected.to_string() }
    );
}

#[test]
fn scenario_c_memory_write_allows_stop() {
    let t = transcript(5, 12, &[MEMORY_WRITE]);
    let ev = stop_event("/home/alex/Data/x", false);
    assert_eq!(decide(&ev, HOME, Some(&t), None), Outcome::Allow);
}

#[test]
fn scenario_d_precompact_injects_prompt() {
    let ev = compact_event("/home/alex/Data/x");
    let note = "---\ntitle: x\n---\n# Reflect\n\nWrite it down.\n";
    assert_eq!(
        decide(&ev, HOME, None, Some(note)),
        Outcome::InjectContext {
            additional_context:
                "BEFORE COMPACTING — capture session learnings and decisions now. Write it down."
                    .to_string()
        }
    );
}

#[test]
fn scenario_e_reentrant_stop_is_noop() {
    let t = transcript(5, 12, &[]);
    let ev = stop_event("/home/alex/Data/x", true);
    assert_eq!(decide(&ev, HOME, Some(&t), Some("Reflect.")), Outcome::NoOp);
}

#[test]
fn scenario_f_outside_scope_is_noop() {
    let t = transcript(5, 12, &[]);
    let ev = stop_event("/home/alex/Projects/x", false);
    assert_eq!(decide(&ev, HOME, Some(&t), None), Outcome::NoOp);
    let ev = compact_event("/tmp");
    assert_eq!(decide(&ev, HOME, None, Some("Reflect.")), Outcome::NoOp);
}

#[test]
fn reentry_flag_ignored_on_precompact() {
    let mut ev = compact_event("/home/alex/Data/x");
    ev.stop_hook_active = true;
    assert_eq!(
        decide(&ev, HOME, None, None),
        Outcome::InjectContext {
            additional_context: format!("{}{}", PRECOMPACT_PREFIX, FALLBACK_REASON)
        }
    );
}

#[test]
fn unreadable_transcript_is_noop() {
    let ev = stop_event("/home/alex/Data/x", false);
    assert_eq!(decide(&ev, HOME, None, None), Outcome::NoOp);
}

#[test]
fn block_uses_prompt_when_present() {
    let t = transcript(4, 10, &[PLAIN_TURN]);
    let ev = stop_event("/home/alex/Data", false);
    assert_eq!(
        decide(&ev, HOME, Some(&t), Some("# Reflect\nRecord your learnings.\n")),
        Outcome::Block { reason: "Record your learnings.".to_string() }
    );
}

#[test]
fn thresholds_gate_independently() {
    let ev = stop_event("/home/alex/Data/x", false);
    let t = transcript(3, 50, &[]);
    assert_eq!(decide(&ev, HOME, Some(&t), None), Outcome::Allow);
    let t = transcript(50, 9, &[]);
    assert_eq!(decide(&ev, HOME, Some(&t), None), Outcome::Allow);
}

#[test]
fn counts_humans_and_tool_turns() {
    let t = transcript(3, 2, &[PLAIN_TURN, "not json", "", r#"{"type":"system"}"#]);
    let r = analyze_transcript(&t);
    assert_eq!(r.user_message_count, 3);
    assert_eq!(r.tool_using_turn_count, 2);
    assert!(!r.memory_write_observed);
}

#[test]
fn tool_turn_counted_once_per_turn() {
    let many = r#"{"type":"assistant","message":{"content":[{"type":"tool_use","name":"Read"},{"type":"tool_use","name":"Bash"},{"type":"tool_use","name":"Grep"}]}}"#;
    let r = analyze_transcript(many);
    assert_eq!(r.tool_using_turn_count, 1);
    assert_eq!(r.user_message_count, 0);
}

#[test]
fn tool_turns_never_exceed_assistant_lines() {
    let t = transcript(2, 4, &[PLAIN_TURN, r#"{"type":"assistant"}"#, r#"{"type":"assistant","message":{"content":"text"}}"#]);
    let r = analyze_transcript(&t);
    assert!(r.tool_using_turn_count <= 7);
    assert_eq!(r.tool_using_turn_count, 4);
}

#[test]
fn memory_write_detection() {
    let edit_decision = r#"{"type":"assistant","message":{"content":[{"type":"tool_use","name":"Edit","input":{"file_path":"/abs/vault/Memory/Decisions/d.md"}}]}}"#;
    assert!(analyze_transcript(edit_decision).memory_write_observed);
    assert!(analyze_transcript(MEMORY_WRITE).memory_write_observed);
    let read_memory = r#"{"type":"assistant","message":{"content":[{"type":"tool_use","name":"Read","input":{"file_path":"Memory/Learnings/foo.md"}}]}}"#;
    assert!(!analyze_transcript(read_memory).memory_write_observed);
    let other_path = r#"{"type":"assistant","message":{"content":[{"type":"tool_use","name":"Write","input":{"file_path":"Memory/Notes/foo.md"}}]}}"#;
    assert!(!analyze_transcript(other_path).memory_write_observed);
    let human_path = r#"{"type":"human","message":{"content":[{"type":"tool_use","name":"Write","input":{"file_path":"Memory/Learnings/x"}}]}}"#;
    assert!(!analyze_transcript(human_path).memory_write_observed);
    let not_tool_use = r#"{"type":"assistant","message":{"content":[{"type":"text","name":"Write","input":{"file_path":"Memory/Learnings/x"}}]}}"#;
    assert!(!analyze_transcript(not_tool_use).memory_write_observed);
}

#[test]
fn crlf_transcript_lines() {
    let t = format!("{}\r\n{}\r\n", HUMAN, TOOL_TURN);
    let r = analyze_transcript(&t);
    assert_eq!(r.user_message_count, 1);
    assert_eq!(r.tool_using_turn_count, 1);
}

#[test]
fn empty_transcript() {
    let r = analyze_transcript("");
    assert_eq!(r.user_message_count, 0);
    assert_eq!(r.tool_using_turn_count, 0);
    assert!(!r.memory_write_observed);
}

#[test]
fn stop_decision_rules() {
    let r = AnalysisResult { user_message_count: 4, tool_using_turn_count: 10, memory_write_observed: false };
    assert_eq!(stop_decision(&r, None), Outcome::Block { reason: FALLBACK_REASON.to_string() });
    let r = AnalysisResult { user_message_count: 4, tool_using_turn_count: 10, memory_write_observed: true };
    assert_eq!(stop_decision(&r, None), Outcome::Allow);
    let r = AnalysisResult { user_message_count: 3, tool_using_turn_count: 10, memory_write_observed: false };
    assert_eq!(stop_decision(&r, Some("x".to_string())), Outcome::Allow);
}

#[test]
fn compact_decision_concatenates() {
    assert_eq!(
        compact_decision(Some("Go.".to_string())),
        Outcome::InjectContext {
            additional_context: "BEFORE COMPACTING — capture session learnings and decisions now. Go.".to_string()
        }
    );
}

#[test]
fn guards_and_kind() {
    assert_eq!(event_kind(&compact_event("/x")), EventKind::PreCompact);
    assert_eq!(event_kind(&stop_event("/x", false)), EventKind::Stop);
    assert!(within_scope("/home/alex/Data", HOME));
    assert!(within_scope("/home/alex/DataSets", HOME));
    assert!(!within_scope("/home/alex/Dat", HOME));
    assert!(!within_scope("/other/home/alex/Data", HOME));
    assert!(!guards_pass(&stop_event("/home/alex/Data/x", true), HOME));
    assert!(guards_pass(&stop_event("/home/alex/Data/x", false), HOME));
}
