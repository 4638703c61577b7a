//! The decision taken on a stop or a pre-compaction event.
use vstd::prelude::*;
use crate::prompt::{prompt_text, sanitize_prompt};
use crate::text::{chars_of, has_prefix, starts_with};
use crate::transcript::{analysis_of, analyze_transcript, AnalysisResult};

verus! {

/// A session with fewer human messages than this is not substantial.
pub const USER_MSG_THRESHOLD: usize = 4;

/// A session with fewer tool-using turns than this is not substantial.
pub const TOOL_TURN_THRESHOLD: usize = 10;

/// The reason given when no reflection prompt is available.
pub const FALLBACK_REASON: &'static str = "Substantial session with no learnings captured. Create a file in Memory/Learnings/ or Memory/Decisions/ before ending.";

/// Put before the reason in the context injected ahead of a compaction.
pub const PRECOMPACT_PREFIX: &'static str = "BEFORE COMPACTING — capture session learnings and decisions now. ";

/// The directory, under the home directory, that scopes where the hook acts.
pub const SCOPE_SUBDIR: &'static str = "/Data";

/// The payload of a hook event. A `trigger` marks a pre-compaction event;
/// without one it is a stop event.
pub struct HookEvent {
    pub stop_hook_active: bool,
    pub cwd: String,
    pub transcript_path: String,
    pub trigger: Option<String>,
}

#[derive(Clone, Copy, Debug, PartialEq, Eq, Structural)]
pub enum EventKind {
    Stop,
    PreCompact,
}

/// What the hook answers.
#[derive(Debug, PartialEq, Eq)]
pub enum Outcome {
    /// A guard held, or the input could not be read: no opinion, no output.
    NoOp,
    /// The session may stop: no output.
    Allow,
    /// The session must not stop yet, for this reason.
    Block { reason: String },
    /// Context to add before compacting.
    InjectContext { additional_context: String },
}

pub enum OutcomeView {
    NoOp,
    Allow,
    Block(Seq<char>),
    InjectContext(Seq<char>),
}

impl View for Outcome {
    type V = OutcomeView;

    open spec fn view(&self) -> OutcomeView {
        match self {
            Outcome::NoOp => OutcomeView::NoOp,
            Outcome::Allow => OutcomeView::Allow,
            Outcome::Block { reason } => OutcomeView::Block(reason@),
            Outcome::InjectContext { additional_context } => OutcomeView::InjectContext(
                additional_context@,
            ),
        }
    }
}

pub open spec fn kind_of(trigger_present: bool) -> EventKind {
    if trigger_present {
        EventKind::PreCompact
    } else {
        EventKind::Stop
    }
}

/// The kind of an event: pre-compaction exactly when it has a trigger.
pub fn event_kind(event: &HookEvent) -> (r: EventKind)
    ensures
        r == kind_of(event.trigger is Some),
{
    if event.trigger.is_some() {
        EventKind::PreCompact
    } else {
        EventKind::Stop
    }
}

/// `cwd` lies under the scope root `<home>/Data`.
pub open spec fn in_scope(cwd: Seq<char>, home: Seq<char>) -> bool {
    has_prefix(cwd, home + SCOPE_SUBDIR@)
}

/// Neither guard holds: the event is not the hook's own re-entry after a block,
/// and the session works under the scope root.
pub open spec fn passes_guards(trigger_present: bool, active: bool, cwd: Seq<char>, home: Seq<char>) -> bool {
    !(kind_of(trigger_present) == EventKind::Stop && active) && in_scope(cwd, home)
}

pub fn within_scope(cwd: &str, home: &str) -> (r: bool)
    ensures
        r == in_scope(cwd@, home@),
{
    let mut root = chars_of(home);
    let sub = chars_of(SCOPE_SUBDIR);
    let ghost h = root@;
    let mut i: usize = 0;
    while i < sub.len()
        invariant
            i <= sub@.len(),
            root@ == h + sub@.subrange(0, i as int),
        decreases sub.len() - i,
    {
        root.push(sub[i]);
        i = i + 1;
        assert(root@ =~= h + sub@.subrange(0, i as int));
    }
    assert(sub@.subrange(0, i as int) =~= sub@);
    starts_with(&chars_of(cwd), &root)
}

/// Whether the hook has anything to say on `event`, `home` being the home directory.
pub fn guards_pass(event: &HookEvent, home: &str) -> (r: bool)
    ensures
        r == passes_guards(event.trigger is Some, event.stop_hook_active, event.cwd@, home@),
{
    if event_kind(event) == EventKind::Stop && event.stop_hook_active {
        return false;
    }
    within_scope(event.cwd.as_str(), home)
}

/// The reason given: the prompt if there is one, else the fallback.
pub open spec fn reason_of(prompt: Option<Seq<char>>) -> Seq<char> {
    match prompt {
        Some(p) => p,
        None => FALLBACK_REASON@,
    }
}

pub open spec fn substantial(humans: nat, turns: nat) -> bool {
    humans >= USER_MSG_THRESHOLD && turns >= TOOL_TURN_THRESHOLD
}

/// The answer to a stop event on a transcript with these signals.
pub open spec fn stop_outcome(humans: nat, turns: nat, memory: bool, prompt: Option<Seq<char>>) -> OutcomeView {
    if !substantial(humans, turns) {
        OutcomeView::Allow
    } else if memory {
        OutcomeView::Allow
    } else {
        OutcomeView::Block(reason_of(prompt))
    }
}

/// The answer to a pre-compaction event.
pub open spec fn compact_outcome(prompt: Option<Seq<char>>) -> OutcomeView {
    OutcomeView::InjectContext(PRECOMPACT_PREFIX@ + reason_of(prompt))
}

fn reason_text(prompt: Option<String>) -> (r: String)
    ensures
        r@ == reason_of(
            match prompt {
                Some(p) => Some(p@),
                None => None,
            },
        ),
{
    match prompt {
        Some(p) => p,
        None => FALLBACK_REASON.to_string(),
    }
}

pub open spec fn opt_view(p: Option<String>) -> Option<Seq<char>> {
    match p {
        Some(s) => Some(s@),
        None => None,
    }
}

/// Decides a stop event from the transcript's signals and the prompt, if any.
pub fn stop_decision(analysis: &AnalysisResult, prompt: Option<String>) -> (r: Outcome)
    ensures
        r@ == stop_outcome(
            analysis.user_message_count as nat,
            analysis.tool_using_turn_count as nat,
            analysis.memory_write_observed,
            opt_view(prompt),
        ),
{
    if analysis.user_message_count < USER_MSG_THRESHOLD
        || analysis.tool_using_turn_count < TOOL_TURN_THRESHOLD {
        return Outcome::Allow;
    }
    if analysis.memory_write_observed {
        return Outcome::Allow;
    }
    Outcome::Block { reason: reason_text(prompt) }
}

/// Decides a pre-compaction event: always the prefix and the reason.
pub fn compact_decision(prompt: Option<String>) -> (r: Outcome)
    ensures
        r@ == compact_outcome(opt_view(prompt)),
{
    let reason = reason_text(prompt);
    let mut text = PRECOMPACT_PREFIX.to_string();
    text.append(reason.as_str());
    Outcome::InjectContext { additional_context: text }
}

/// The prompt made of the note's text, when the note could be read.
pub open spec fn prompt_of(note: Option<Seq<char>>) -> Option<Seq<char>> {
    match note {
        Some(n) => prompt_text(n),
        None => None,
    }
}

/// The whole decision: `transcript` and `note` are the texts of the transcript
/// and of the prompt note, `None` where a file could not be read.
pub open spec fn outcome_of(
    trigger_present: bool,
    active: bool,
    cwd: Seq<char>,
    home: Seq<char>,
    transcript: Option<Seq<char>>,
    note: Option<Seq<char>>,
) -> OutcomeView {
    if !passes_guards(trigger_present, active, cwd, home) {
        OutcomeView::NoOp
    } else if trigger_present {
        compact_outcome(prompt_of(note))
    } else {
        match transcript {
            None => OutcomeView::NoOp,
            Some(t) => {
                let (humans, turns, memory) = analysis_of(t);
                stop_outcome(humans, turns, memory, prompt_of(note))
            },
        }
    }
}

pub open spec fn str_view(s: Option<&str>) -> Option<Seq<char>> {
    match s {
        Some(t) => Some(t@),
        None => None,
    }
}

/// The reflection prompt made of the note's text, if it could be read and
/// holds more than frontmatter, a title and whitespace.
pub fn reflection_prompt(note: Option<&str>) -> (r: Option<String>)
    ensures
        opt_view(r) == prompt_of(str_view(note)),
{
    match note {
        Some(n) => sanitize_prompt(n),
        None => None,
    }
}

/// Answers `event`, given the home directory and the texts of the transcript
/// and the prompt note (`None` for a file that could not be read). The
/// transcript is consulted on stop events only.
pub fn decide(event: &HookEvent, home: &str, transcript: Option<&str>, note: Option<&str>) -> (r: Outcome)
    ensures
        r@ == outcome_of(
            event.trigger is Some,
            event.stop_hook_active,
            event.cwd@,
            home@,
            str_view(transcript),
            str_view(note),
        ),
{
    if !guards_pass(event, home) {
        return Outcome::NoOp;
    }
    if event_kind(event) == EventKind::PreCompact {
        return compact_decision(reflection_prompt(note));
    }
    match transcript {
        None => Outcome::NoOp,
        Some(t) => {
            let analysis = analyze_transcript(t);
            stop_decision(&analysis, reflection_prompt(note))
        },
    }
}

/// A stop event raised while the hook's own block is in force gets no answer,
/// whatever the directory, the transcript and the note.
pub proof fn lemma_reentry_is_silent(
    cwd: Seq<char>,
    home: Seq<char>,
    transcript: Option<Seq<char>>,
    note: Option<Seq<char>>,
)
    ensures
        outcome_of(false, true, cwd, home, transcript, note) == OutcomeView::NoOp,
{
}

/// An event from a directory outside the scope root gets no answer, whatever
/// its other fields, the transcript and the note.
pub proof fn lemma_out_of_scope_is_silent(
    trigger_present: bool,
    active: bool,
    cwd: Seq<char>,
    home: Seq<char>,
    transcript: Option<Seq<char>>,
    note: Option<Seq<char>>,
)
    requires
        !in_scope(cwd, home),
    ensures
        outcome_of(trigger_present, active, cwd, home, transcript, note) == OutcomeView::NoOp,
{
}

} // verus!
