//! Reading a session transcript: one JSON value per line, each a human or an
//! assistant entry (or something else, which is ignored).
use vstd::prelude::*;
use crate::json::{json_as_array, json_as_str, json_get, json_parse, json_view, member, parse_json, JsonView};
use crate::text::{
    chars_eq, chars_of, contains, has_substring, line_content, line_text, lines_of, split_lines,
    string_of, views_of,
};

verus! {

/// The three signals drawn from a transcript.
pub struct AnalysisResult {
    pub user_message_count: usize,
    pub tool_using_turn_count: usize,
    pub memory_write_observed: bool,
}

/// The text of member `k` of `v`, or the empty text if it has no string there.
pub open spec fn text_member(v: JsonView, k: Seq<char>) -> Seq<char> {
    match member(v, k) {
        Some(JsonView::Str(s)) => s,
        _ => Seq::empty(),
    }
}

/// The role of an entry, read from its `type` member.
pub open spec fn role(e: JsonView) -> Seq<char> {
    text_member(e, "type"@)
}

/// The content items of an entry: `message.content`, when that is an array.
pub open spec fn content_items(e: JsonView) -> Option<Seq<JsonView>> {
    match member(e, "message"@) {
        Some(m) => match member(m, "content"@) {
            Some(JsonView::Array(a)) => Some(a),
            _ => None,
        },
        None => None,
    }
}

pub open spec fn is_tool_use(item: JsonView) -> bool {
    member(item, "type"@) == Some(JsonView::Str("tool_use"@))
}

/// The target of a file tool call: `input.file_path`, or the empty text.
pub open spec fn file_path(item: JsonView) -> Seq<char> {
    match member(item, "input"@) {
        Some(i) => text_member(i, "file_path"@),
        None => Seq::empty(),
    }
}

/// A path under the learnings or the decisions area of the memory.
pub open spec fn is_memory_path(p: Seq<char>) -> bool {
    has_substring(p, "Memory/Learnings/"@) || has_substring(p, "Memory/Decisions/"@)
}

/// An `Edit` or `Write` tool call on a memory path.
pub open spec fn writes_memory(item: JsonView) -> bool {
    &&& is_tool_use(item)
    &&& text_member(item, "name"@) == "Edit"@ || text_member(item, "name"@) == "Write"@
    &&& is_memory_path(file_path(item))
}

pub open spec fn is_human(e: Option<JsonView>) -> bool {
    e matches Some(v) && role(v) == "human"@
}

pub open spec fn is_assistant(e: Option<JsonView>) -> bool {
    e matches Some(v) && role(v) == "assistant"@
}

/// The content items of an assistant entry that has them.
pub open spec fn turn_items(e: Option<JsonView>) -> Option<Seq<JsonView>> {
    if is_assistant(e) {
        content_items(e->0)
    } else {
        None
    }
}

/// An assistant turn with at least one tool call.
pub open spec fn is_tool_turn(e: Option<JsonView>) -> bool {
    turn_items(e) matches Some(items) && exists|k: int|
        0 <= k < items.len() && is_tool_use(#[trigger] items[k])
}

/// An assistant turn with a tool call that writes to memory.
pub open spec fn turn_writes_memory(e: Option<JsonView>) -> bool {
    turn_items(e) matches Some(items) && exists|k: int|
        0 <= k < items.len() && writes_memory(#[trigger] items[k])
}

/// Each line of `t`, as JSON if it parses.
pub open spec fn entries(t: Seq<char>) -> Seq<Option<JsonView>> {
    lines_of(t).map_values(|l: Seq<char>| json_parse(l))
}

pub open spec fn count_humans(es: Seq<Option<JsonView>>) -> nat
    decreases es.len(),
{
    if es.len() == 0 {
        0
    } else {
        count_humans(es.drop_last()) + if is_human(es.last()) {
            1nat
        } else {
            0nat
        }
    }
}

pub open spec fn count_assistants(es: Seq<Option<JsonView>>) -> nat
    decreases es.len(),
{
    if es.len() == 0 {
        0
    } else {
        count_assistants(es.drop_last()) + if is_assistant(es.last()) {
            1nat
        } else {
            0nat
        }
    }
}

pub open spec fn count_tool_turns(es: Seq<Option<JsonView>>) -> nat
    decreases es.len(),
{
    if es.len() == 0 {
        0
    } else {
        count_tool_turns(es.drop_last()) + if is_tool_turn(es.last()) {
            1nat
        } else {
            0nat
        }
    }
}

pub open spec fn any_memory_write(es: Seq<Option<JsonView>>) -> bool {
    exists|i: int| 0 <= i < es.len() && turn_writes_memory(#[trigger] es[i])
}

/// The analysis of the transcript text `t`.
pub open spec fn analysis_of(t: Seq<char>) -> (nat, nat, bool) {
    let es = entries(t);
    (count_humans(es), count_tool_turns(es), any_memory_write(es))
}

/// A transcript never has more tool-using turns than assistant entries.
pub proof fn lemma_tool_turns_at_most_assistants(t: Seq<char>)
    ensures
        count_tool_turns(entries(t)) <= count_assistants(entries(t)),
{
    lemma_tool_turns_bounded(entries(t));
}

/// Every tool-using turn is an assistant entry, so it is counted among them.
pub proof fn lemma_tool_turns_bounded(es: Seq<Option<JsonView>>)
    ensures
        count_tool_turns(es) <= count_assistants(es),
    decreases es.len(),
{
    if es.len() > 0 {
        lemma_tool_turns_bounded(es.drop_last());
    }
}

/// Whether `s` is the text `lit`.
fn text_is(s: &str, lit: &str) -> (r: bool)
    ensures
        r == (s@ == lit@),
{
    chars_eq(&chars_of(s), &chars_of(lit))
}

/// The string member `k` of `v`, or the empty text.
fn read_text(v: &serde_json::Value, k: &str) -> (r: Vec<char>)
    ensures
        r@ == text_member(json_view(*v), k@),
{
    match json_get(v, k) {
        Some(x) => match json_as_str(x) {
            Some(s) => chars_of(s),
            None => Vec::new(),
        },
        None => Vec::new(),
    }
}

fn memory_path(p: &Vec<char>) -> (r: bool)
    ensures
        r == is_memory_path(p@),
{
    contains(p, &chars_of("Memory/Learnings/")) || contains(p, &chars_of("Memory/Decisions/"))
}

/// Reads one content item: whether it is a tool call, and whether it writes memory.
fn scan_item(item: &serde_json::Value) -> (r: (bool, bool))
    ensures
        r == (is_tool_use(json_view(*item)), writes_memory(json_view(*item))),
{
    let ghost iv = json_view(*item);
    let tool = match json_get(item, "type") {
        Some(t) => match json_as_str(t) {
            Some(s) => text_is(s, "tool_use"),
            None => false,
        },
        None => false,
    };
    if !tool {
        return (false, false);
    }
    let name = read_text(item, "name");
    let file_tool = chars_eq(&name, &chars_of("Edit")) || chars_eq(&name, &chars_of("Write"));
    if !file_tool {
        return (true, false);
    }
    let path = match json_get(item, "input") {
        Some(i) => read_text(i, "file_path"),
        None => Vec::new(),
    };
    (true, memory_path(&path))
}

/// Reads one entry: (human, tool-using assistant turn, memory write).
fn scan_entry(e: &serde_json::Value) -> (r: (bool, bool, bool))
    ensures
        r == (is_human(Some(json_view(*e))), is_tool_turn(Some(json_view(*e))),
            turn_writes_memory(Some(json_view(*e)))),
{
    let ghost ev = Some(json_view(*e));
    let role = read_text(e, "type");
    if chars_eq(&role, &chars_of("human")) {
        proof {
            reveal_strlit("human");
            reveal_strlit("assistant");
            assert("human"@.len() != "assistant"@.len());
        }
        return (true, false, false);
    }
    if !chars_eq(&role, &chars_of("assistant")) {
        return (false, false, false);
    }
    let items = match json_get(e, "message") {
        Some(m) => match json_get(m, "content") {
            Some(c) => json_as_array(c),
            None => None,
        },
        None => None,
    };
    let items = match items {
        Some(a) => a,
        None => return (false, false, false),
    };
    let ghost a = turn_items(ev)->0;
    let mut tool_turn = false;
    let mut memory = false;
    let mut k: usize = 0;
    while k < items.len()
        invariant
            k <= items@.len(),
            items@.len() == a.len(),
            forall|i: int| 0 <= i < a.len() ==> json_view(#[trigger] items@[i]) == a[i],
            tool_turn == exists|j: int| 0 <= j < k && is_tool_use(#[trigger] a[j]),
            memory == exists|j: int| 0 <= j < k && writes_memory(#[trigger] a[j]),
        decreases items.len() - k,
    {
        let (t, w) = scan_item(&items[k]);
        assert(json_view(items@[k as int]) == a[k as int]);
        if t {
            tool_turn = true;
        }
        if w {
            memory = true;
        }
        k = k + 1;
    }
    (false, tool_turn, memory)
}

/// Counts the human entries and the tool-using assistant turns of a transcript,
/// and tells whether any tool call wrote to the memory areas. Lines that are
/// not JSON are skipped.
pub fn analyze_transcript(transcript: &str) -> (r: AnalysisResult)
    ensures
        r.user_message_count == count_humans(entries(transcript@)),
        r.tool_using_turn_count == count_tool_turns(entries(transcript@)),
        r.memory_write_observed == any_memory_write(entries(transcript@)),
{
    let ls = split_lines(&chars_of(transcript));
    let ghost es = entries(transcript@);
    assert forall|j: int| 0 <= j < es.len() implies es[j] == json_parse(line_text(#[trigger] ls@[j]@)) by {
        assert(ls@[j]@ == views_of(ls@)[j]);
    }
    let mut humans: usize = 0;
    let mut turns: usize = 0;
    let mut memory = false;
    let mut i: usize = 0;
    while i < ls.len()
        invariant
            i <= ls@.len(),
            es.len() == ls@.len(),
            forall|j: int| 0 <= j < es.len() ==> es[j] == json_parse(line_text(#[trigger] ls@[j]@)),
            humans == count_humans(es.subrange(0, i as int)),
            turns == count_tool_turns(es.subrange(0, i as int)),
            humans <= i,
            turns <= i,
            memory == exists|j: int| 0 <= j < i && turn_writes_memory(#[trigger] es[j]),
        decreases ls.len() - i,
    {
        assert(es.subrange(0, i + 1).drop_last() =~= es.subrange(0, i as int));
        let line = string_of(&line_content(&ls[i]));
        match parse_json(line.as_str()) {
            Some(v) => {
                let (h, t, w) = scan_entry(&v);
                if h {
                    humans = humans + 1;
                }
                if t {
                    turns = turns + 1;
                }
                if w {
                    memory = true;
                }
            },
            None => {},
        }
        i = i + 1;
    }
    assert(es.subrange(0, i as int) =~= es);
    AnalysisResult { user_message_count: humans, tool_using_turn_count: turns, memory_write_observed: memory }
}

} // verus!
