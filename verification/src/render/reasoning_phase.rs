//! What the line shows while an answer is awaited, and how long a thought took.
//!
//! There are several ways to wait, and the line says which: a request was sent, the
//! model thinks, a tool gets its arguments. The time of a thought that is over stands
//! still. [`StreamRenderer`] decides; what it decides to draw is a list of effects.

use crate::numbers::{decimal, decimal_text};
use crate::text::{
    chars_of, copy_opt, find, find_from, find_in, lemma_find_from, lemma_find_occurs, occurs,
    opt_text, opt_view, slice_text, stands_at, views,
};
use vstd::prelude::*;
use vstd::string::*;

verus! {

/// How thoughts are shown.
#[derive(Clone, Copy, Debug, PartialEq, Eq, Structural)]
pub enum ReasoningDisplayMode {
    Summary,
    Full,
    Hidden,
}

/// How calls of tools are shown.
#[derive(Clone, Copy, Debug, PartialEq, Eq, Structural)]
pub enum ToolCallDisplayMode {
    Summary,
    Full,
    Hidden,
}

/// What the stream is writing.
#[derive(Clone, Copy, Debug, PartialEq, Eq, Structural)]
pub enum ChatStreamKind {
    Content,
    Reasoning,
}

/// What the animation looks like.
#[derive(Clone, Copy, Debug, PartialEq, Eq, Structural)]
pub enum SpinnerStyle {
    Braille,
    Scanner,
}

/// What a summary is about.
#[derive(Clone, Copy, Debug, PartialEq, Eq, Structural)]
pub enum SummaryStyle {
    Reasoning,
    Tool,
}

// ---------------------------------------------------------------------------
// What the line says

/// What the line says. Times are in milliseconds.
pub enum Phase {
    /// A question is prepared, for so long.
    Preparing(u64),
    /// A tool gets its arguments, for so long.
    Tool(String, u64),
    /// The model thinks, about something if that is known.
    Thinking(Option<String>),
    /// The model thinks or thought: about what, in how many tokens, for how long.
    Measured(Option<String>, usize, Option<u64>),
    /// How long the model thinks.
    Elapsed(Option<u64>),
    /// Nothing.
    Blank,
    /// Something written elsewhere.
    Written(String),
}

/// What a [`Phase`] holds, as values.
#[verifier::ext_equal]
pub enum PhaseModel {
    Preparing(u64),
    Tool(Seq<char>, u64),
    Thinking(Option<Seq<char>>),
    Measured(Option<Seq<char>>, usize, Option<u64>),
    Elapsed(Option<u64>),
    Blank,
    Written(Seq<char>),
}

impl View for Phase {
    type V = PhaseModel;

    open spec fn view(&self) -> PhaseModel {
        match *self {
            Phase::Preparing(n) => PhaseModel::Preparing(n),
            Phase::Tool(s, n) => PhaseModel::Tool(s@, n),
            Phase::Thinking(t) => PhaseModel::Thinking(opt_text(t)),
            Phase::Measured(t, k, n) => PhaseModel::Measured(opt_text(t), k, n),
            Phase::Elapsed(n) => PhaseModel::Elapsed(n),
            Phase::Blank => PhaseModel::Blank,
            Phase::Written(s) => PhaseModel::Written(s@),
        }
    }
}

/// A thought in words.
pub open spec fn thinking_text(title: Option<Seq<char>>, chinese: bool) -> Seq<char> {
    match title {
        Some(t) => (if chinese {
            "思考："@
        } else {
            "thinking: "@
        }) + t,
        None => if chinese {
            "思考"@
        } else {
            "thinking"@
        },
    }
}

/// A time, `elapsed` if there is one.
pub open spec fn time_or_none(n: Option<u64>, elapsed: Seq<char>) -> Seq<char> {
    if n is Some {
        elapsed
    } else {
        "0ms"@
    }
}

/// What the line says, in words: `elapsed` is the time it holds, in words.
pub open spec fn phase_text(p: PhaseModel, elapsed: Seq<char>, chinese: bool) -> Seq<char> {
    match p {
        PhaseModel::Preparing(_) => (if chinese {
            "~ 准备问题"@
        } else {
            "~ Preparing question"@
        }) + " · "@ + elapsed,
        PhaseModel::Tool(name, _) => "~ "@ + name + " · "@ + elapsed,
        PhaseModel::Thinking(title) => thinking_text(title, chinese),
        PhaseModel::Measured(title, tokens, n) => thinking_text(title, chinese) + (if tokens == 0 {
            ""@
        } else {
            " · "@ + decimal(tokens as nat) + (if chinese {
                " 词元"@
            } else {
                " tokens"@
            })
        }) + " · "@ + time_or_none(n, elapsed),
        PhaseModel::Elapsed(n) => time_or_none(n, elapsed),
        PhaseModel::Blank => ""@,
        PhaseModel::Written(s) => s,
    }
}

fn thinking(title: &Option<String>, chinese: bool) -> (r: String)
    ensures
        r@ == thinking_text(opt_text(*title), chinese),
{
    match title {
        Some(t) => {
            let mut out: String = if chinese { "思考：".to_owned() } else { "thinking: ".to_owned() };
            out.append(t);
            out
        }
        None => if chinese {
            "思考".to_owned()
        } else {
            "thinking".to_owned()
        },
    }
}

impl Phase {
    /// The time that is shown.
    pub open spec fn shown_time(p: PhaseModel) -> Option<u64> {
        match p {
            PhaseModel::Preparing(n) => Some(n),
            PhaseModel::Tool(_, n) => Some(n),
            PhaseModel::Measured(_, _, n) => n,
            PhaseModel::Elapsed(n) => n,
            _ => None,
        }
    }

    /// A phase that holds the same.
    pub fn copy(&self) -> (r: Phase)
        ensures
            r@ == self@,
    {
        match self {
            Phase::Preparing(n) => Phase::Preparing(*n),
            Phase::Tool(s, n) => Phase::Tool(s.clone(), *n),
            Phase::Thinking(t) => Phase::Thinking(copy_opt(t)),
            Phase::Measured(t, k, n) => Phase::Measured(copy_opt(t), *k, *n),
            Phase::Elapsed(n) => Phase::Elapsed(*n),
            Phase::Blank => Phase::Blank,
            Phase::Written(s) => Phase::Written(s.clone()),
        }
    }

    /// The time that is shown, in milliseconds.
    pub fn elapsed(&self) -> (r: Option<u64>)
        ensures
            r == Phase::shown_time(self@),
    {
        match self {
            Phase::Preparing(n) => Some(*n),
            Phase::Tool(_, n) => Some(*n),
            Phase::Measured(_, _, n) => *n,
            Phase::Elapsed(n) => *n,
            _ => None,
        }
    }

    /// What the line says, in words. `elapsed` is [`Phase::elapsed`] in words.
    pub fn text(&self, elapsed: &str, chinese: bool) -> (r: String)
        ensures
            r@ == phase_text(self@, elapsed@, chinese),
    {
        match self {
            Phase::Preparing(_) => {
                let mut out: String = if chinese {
                    "~ 准备问题".to_owned()
                } else {
                    "~ Preparing question".to_owned()
                };
                out.append(" · ");
                out.append(elapsed);
                out
            }
            Phase::Tool(name, _) => {
                let mut out: String = "~ ".to_owned();
                out.append(name);
                out.append(" · ");
                out.append(elapsed);
                out
            }
            Phase::Thinking(title) => thinking(title, chinese),
            Phase::Measured(title, tokens, n) => {
                let mut out: String = thinking(title, chinese);
                let ghost head = out@;
                if *tokens > 0 {
                    out.append(" · ");
                    let count: String = decimal_text(*tokens as u64);
                    out.append(&count);
                    out.append(if chinese { " 词元" } else { " tokens" });
                    assert(out@ =~= head + (" · "@ + decimal(*tokens as nat) + (if chinese {
                        " 词元"@
                    } else {
                        " tokens"@
                    })));
                } else {
                    proof {
                        reveal_strlit("");
                    }
                    assert(out@ =~= head + ""@);
                }
                out.append(" · ");
                out.append(if n.is_some() { elapsed } else { "0ms" });
                out
            }
            Phase::Elapsed(n) => if n.is_some() {
                elapsed.to_owned()
            } else {
                "0ms".to_owned()
            },
            Phase::Blank => "".to_owned(),
            Phase::Written(s) => s.clone(),
        }
    }
}

// ---------------------------------------------------------------------------
// What is drawn

/// Something to draw, or to do to what is drawn.
pub enum Effect {
    HideCursor,
    /// The line that the answer is being written on ends.
    EndStreamLine,
    /// A picture of the animation: what it says, the line under it, and what it looks
    /// like.
    DrawSpinner(Phase, Option<String>, SpinnerStyle),
    DrawCommand,
    StopSpinner,
    ClearSummaryLines,
    /// A line that a later one replaces.
    SummaryLine(Phase, SummaryStyle),
    /// A thought that is over: its summary, and the thought itself to unfold.
    Summary(Phase, String),
    /// A thought that is over becomes a step of the timeline.
    Thought(Phase, String),
    RefreshLiveBlock,
    RefreshPanels,
    /// What is drawn only for now goes.
    ReleaseTransient,
}

/// What an [`Effect`] holds, as values.
#[verifier::ext_equal]
pub enum EffectModel {
    HideCursor,
    EndStreamLine,
    DrawSpinner(PhaseModel, Option<Seq<char>>, SpinnerStyle),
    DrawCommand,
    StopSpinner,
    ClearSummaryLines,
    SummaryLine(PhaseModel, SummaryStyle),
    Summary(PhaseModel, Seq<char>),
    Thought(PhaseModel, Seq<char>),
    RefreshLiveBlock,
    RefreshPanels,
    ReleaseTransient,
}

impl View for Effect {
    type V = EffectModel;

    open spec fn view(&self) -> EffectModel {
        match *self {
            Effect::HideCursor => EffectModel::HideCursor,
            Effect::EndStreamLine => EffectModel::EndStreamLine,
            Effect::DrawSpinner(p, sub, style) => EffectModel::DrawSpinner(
                p@,
                opt_text(sub),
                style,
            ),
            Effect::DrawCommand => EffectModel::DrawCommand,
            Effect::StopSpinner => EffectModel::StopSpinner,
            Effect::ClearSummaryLines => EffectModel::ClearSummaryLines,
            Effect::SummaryLine(p, s) => EffectModel::SummaryLine(p@, s),
            Effect::Summary(p, t) => EffectModel::Summary(p@, t@),
            Effect::Thought(p, t) => EffectModel::Thought(p@, t@),
            Effect::RefreshLiveBlock => EffectModel::RefreshLiveBlock,
            Effect::RefreshPanels => EffectModel::RefreshPanels,
            Effect::ReleaseTransient => EffectModel::ReleaseTransient,
        }
    }
}

/// The animation of a wait.
pub struct Spinner {
    pub phase: Phase,
    /// A line under it.
    pub sub: Option<String>,
    pub style: SpinnerStyle,
}

/// What a [`Spinner`] holds, as values.
#[verifier::ext_equal]
pub struct SpinnerModel {
    pub phase: PhaseModel,
    pub sub: Option<Seq<char>>,
    pub style: SpinnerStyle,
}

impl View for Spinner {
    type V = SpinnerModel;

    open spec fn view(&self) -> SpinnerModel {
        SpinnerModel {
            phase: self.phase@,
            sub: opt_text(self.sub),
            style: self.style,
        }
    }
}


/// A tool that gets its arguments.
pub struct ToolPhase {
    pub name: String,
    pub since: u64,
}

/// What a [`ToolPhase`] holds, as values.
#[verifier::ext_equal]
pub struct ToolPhaseModel {
    pub name: Seq<char>,
    pub since: u64,
}

impl View for ToolPhase {
    type V = ToolPhaseModel;

    open spec fn view(&self) -> ToolPhaseModel {
        ToolPhaseModel {
            name: self.name@,
            since: self.since,
        }
    }
}


/// What holds around the renderer at a moment.
pub struct Moment {
    /// In milliseconds.
    pub now: u64,
    /// Whether the terminal can show an animation.
    pub supported: bool,
    /// Whether steps stand in a timeline, on a full screen.
    pub timeline: bool,
    pub tools_called: bool,
    /// Whether the timer of a subagent runs.
    pub subagent_timer: bool,
    /// What the timeline says, or without one, the summary of the tools.
    pub header: String,
    pub sub: Option<String>,
}

/// What a [`Moment`] holds, as values.
#[verifier::ext_equal]
pub struct MomentModel {
    pub now: u64,
    pub supported: bool,
    pub timeline: bool,
    pub tools_called: bool,
    pub subagent_timer: bool,
    pub header: Seq<char>,
    pub sub: Option<Seq<char>>,
}

impl View for Moment {
    type V = MomentModel;

    open spec fn view(&self) -> MomentModel {
        MomentModel {
            now: self.now,
            supported: self.supported,
            timeline: self.timeline,
            tools_called: self.tools_called,
            subagent_timer: self.subagent_timer,
            header: self.header@,
            sub: opt_text(self.sub),
        }
    }
}


/// The line that is shown while an answer is awaited.
pub struct StreamRenderer {
    /// Whether nothing is animated.
    pub plain: bool,
    /// Whether summaries of tools change while they run.
    pub live_summary: bool,
    /// The least time between two pictures of the animation.
    pub interval: u64,
    pub reasoning_mode: ReasoningDisplayMode,
    pub tool_call_mode: ToolCallDisplayMode,
    pub mode: Option<ChatStreamKind>,
    /// Whether the output of a command is shown.
    pub command_display: bool,
    pub wait_spinner: Option<Spinner>,
    pub last_tick: Option<u64>,
    pub preparing_question_started_at: Option<u64>,
    pub tool_preparing: Option<ToolPhase>,
    pub tool_preparing_since: Option<u64>,
    pub reasoning_started_at: Option<u64>,
    pub reasoning_elapsed: Option<u64>,
    pub reasoning_title: Option<String>,
    pub reasoning_text: String,
    pub reasoning_tokens: usize,
    pub summary_line_active: bool,
    pub summary_lines_active: usize,
    pub last_tool_summary: String,
    /// What is to be drawn.
    pub effects: Vec<Effect>,
}

/// What a [`StreamRenderer`] holds, as values.
#[verifier::ext_equal]
pub struct StreamRendererModel {
    pub plain: bool,
    pub live_summary: bool,
    pub interval: u64,
    pub reasoning_mode: ReasoningDisplayMode,
    pub tool_call_mode: ToolCallDisplayMode,
    pub mode: Option<ChatStreamKind>,
    pub command_display: bool,
    pub wait_spinner: Option<SpinnerModel>,
    pub last_tick: Option<u64>,
    pub preparing_question_started_at: Option<u64>,
    pub tool_preparing: Option<ToolPhaseModel>,
    pub tool_preparing_since: Option<u64>,
    pub reasoning_started_at: Option<u64>,
    pub reasoning_elapsed: Option<u64>,
    pub reasoning_title: Option<Seq<char>>,
    pub reasoning_text: Seq<char>,
    pub reasoning_tokens: usize,
    pub summary_line_active: bool,
    pub summary_lines_active: usize,
    pub last_tool_summary: Seq<char>,
    pub effects: Seq<EffectModel>,
}

impl View for StreamRenderer {
    type V = StreamRendererModel;

    open spec fn view(&self) -> StreamRendererModel {
        StreamRendererModel {
            plain: self.plain,
            live_summary: self.live_summary,
            interval: self.interval,
            reasoning_mode: self.reasoning_mode,
            tool_call_mode: self.tool_call_mode,
            mode: self.mode,
            command_display: self.command_display,
            wait_spinner: opt_view(self.wait_spinner),
            last_tick: self.last_tick,
            preparing_question_started_at: self.preparing_question_started_at,
            tool_preparing: opt_view(self.tool_preparing),
            tool_preparing_since: self.tool_preparing_since,
            reasoning_started_at: self.reasoning_started_at,
            reasoning_elapsed: self.reasoning_elapsed,
            reasoning_title: opt_text(self.reasoning_title),
            reasoning_text: self.reasoning_text@,
            reasoning_tokens: self.reasoning_tokens,
            summary_line_active: self.summary_line_active,
            summary_lines_active: self.summary_lines_active,
            last_tool_summary: self.last_tool_summary@,
            effects: views(self.effects@),
        }
    }
}


/// A difference of times, not below zero.
pub open spec fn since(from: u64, to: u64) -> u64 {
    if to > from {
        (to - from) as u64
    } else {
        0
    }
}

/// The animation and the output of a command are not both shown, but in a timeline,
/// where the latter is only kept.
pub open spec fn is_consistent(m: StreamRendererModel, timeline: bool) -> bool {
    m.command_display && !timeline ==> m.wait_spinner is None
}

pub open spec fn emitted(m: StreamRendererModel, f: EffectModel) -> StreamRendererModel {
    StreamRendererModel { effects: m.effects.push(f), ..m }
}

/// Whether a thought waits to be written.
pub open spec fn has_thought(m: StreamRendererModel) -> bool {
    m.reasoning_title is Some || m.reasoning_text.len() > 0
}

/// The time of the thought: where it stands still, or up to now.
pub open spec fn thought_time(m: StreamRendererModel, now: u64) -> Option<u64> {
    if m.reasoning_elapsed is Some {
        m.reasoning_elapsed
    } else {
        match m.reasoning_started_at {
            Some(s) => Some(since(s, now)),
            None => None,
        }
    }
}

/// The thought as it is summed up.
pub open spec fn summary_of(m: StreamRendererModel, now: u64) -> PhaseModel {
    PhaseModel::Measured(m.reasoning_title, m.reasoning_tokens, thought_time(m, now))
}

/// The thought as it is shown while it goes on.
pub open spec fn live_of(m: StreamRendererModel, now: u64) -> PhaseModel {
    if m.reasoning_started_at is None {
        PhaseModel::Thinking(m.reasoning_title)
    } else {
        summary_of(m, now)
    }
}

/// What the line says while nothing else does: the first of a question that is
/// prepared, a tool that gets its arguments, and the thought.
pub open spec fn phase_of(m: StreamRendererModel, now: u64) -> PhaseModel {
    match m.preparing_question_started_at {
        Some(s) => PhaseModel::Preparing(since(s, now)),
        None => match m.tool_preparing {
            Some(t) => PhaseModel::Tool(t.name, since(t.since, now)),
            None => match m.reasoning_mode {
                ReasoningDisplayMode::Summary => if has_thought(m) {
                    live_of(m, now)
                } else {
                    PhaseModel::Elapsed(thought_time(m, now))
                },
                ReasoningDisplayMode::Full => PhaseModel::Blank,
                ReasoningDisplayMode::Hidden => PhaseModel::Thinking(None),
            },
        },
    }
}

/// Dots that turn in a timeline, a bar otherwise.
pub open spec fn style_of(timeline: bool) -> SpinnerStyle {
    if timeline {
        SpinnerStyle::Braille
    } else {
        SpinnerStyle::Scanner
    }
}

/// The animation, if there is one, says something else.
pub open spec fn phase_set(m: StreamRendererModel, p: PhaseModel) -> StreamRendererModel {
    match m.wait_spinner {
        Some(s) => StreamRendererModel {
            wait_spinner: Some(SpinnerModel { phase: p, ..s }),
            ..m
        },
        None => m,
    }
}

/// The animation, if there is one, says something else, with a line under it.
pub open spec fn phases_set(m: StreamRendererModel, header: Seq<char>, sub: Option<Seq<char>>) -> StreamRendererModel {
    match m.wait_spinner {
        Some(s) => StreamRendererModel {
            wait_spinner: Some(SpinnerModel { phase: PhaseModel::Written(header), sub: sub, ..s }),
            ..m
        },
        None => m,
    }
}

/// A new animation that says something.
pub open spec fn spun(m: StreamRendererModel, p: PhaseModel, style: SpinnerStyle) -> StreamRendererModel {
    StreamRendererModel {
        wait_spinner: Some(SpinnerModel { phase: p, sub: None, style: style }),
        last_tick: None,
        ..m
    }
}

/// Whether the animation is due.
pub open spec fn is_due(m: StreamRendererModel, now: u64) -> bool {
    match m.last_tick {
        Some(t) => since(t, now) >= m.interval,
        None => true,
    }
}

/// What the animation is to say: a hint at what the turn is blocked on comes before
/// the summaries; in a timeline the timeline says it.
pub open spec fn said(m: StreamRendererModel, e: MomentModel) -> StreamRendererModel {
    if m.wait_spinner is None {
        m
    } else if e.timeline {
        phases_set(
            emitted(emitted(m, EffectModel::RefreshLiveBlock), EffectModel::RefreshPanels),
            e.header,
            e.sub,
        )
    } else if m.preparing_question_started_at is Some || m.tool_preparing is Some {
        phase_set(m, phase_of(m, e.now))
    } else if m.tool_call_mode == ToolCallDisplayMode::Summary && e.tools_called {
        phases_set(m, e.header, e.sub)
    } else if m.reasoning_mode == ReasoningDisplayMode::Summary && m.reasoning_started_at is Some {
        phase_set(m, phase_of(m, e.now))
    } else {
        m
    }
}

/// What is drawn: the output of a command, but in a timeline, or the animation.
pub open spec fn drawn(m: StreamRendererModel, timeline: bool) -> StreamRendererModel {
    if m.command_display && !timeline {
        emitted(m, EffectModel::DrawCommand)
    } else {
        match m.wait_spinner {
            Some(s) => emitted(m, EffectModel::DrawSpinner(s.phase, s.sub, s.style)),
            None => m,
        }
    }
}

/// A picture of the animation, where one is due.
pub open spec fn ticked(m: StreamRendererModel, e: MomentModel) -> StreamRendererModel {
    if !is_due(m, e.now) {
        m
    } else {
        let d = drawn(said(m, e), e.timeline);
        if m.wait_spinner is Some || m.command_display || e.subagent_timer {
            StreamRendererModel { last_tick: Some(e.now), ..d }
        } else {
            d
        }
    }
}

/// An animation is shown, where there is none and there can be one.
#[verifier::opaque]
pub open spec fn waiting(m: StreamRendererModel, e: MomentModel) -> StreamRendererModel {
    if m.plain || m.wait_spinner is Some || m.command_display || !e.supported {
        m
    } else {
        ticked(
            spun(emitted(m, EffectModel::HideCursor), phase_of(m, e.now), style_of(e.timeline)),
            e,
        )
    }
}

/// No animation is shown.
pub open spec fn stopped(m: StreamRendererModel) -> StreamRendererModel {
    let s = if m.wait_spinner is Some {
        emitted(m, EffectModel::StopSpinner)
    } else {
        m
    };
    StreamRendererModel { wait_spinner: None, last_tick: None, ..s }
}

/// No thought waits to be written.
pub open spec fn forgotten(m: StreamRendererModel) -> StreamRendererModel {
    StreamRendererModel { reasoning_title: None, reasoning_text: seq![], reasoning_tokens: 0, ..m }
}

/// The time of the thought stands still.
pub open spec fn frozen(m: StreamRendererModel, at: u64) -> StreamRendererModel {
    StreamRendererModel {
        reasoning_elapsed: match m.reasoning_started_at {
            Some(s) => Some(since(s, at)),
            None => None,
        },
        ..m
    }
}

/// The thought that waits is written: as a step in a timeline, as a summary
/// otherwise.
#[verifier::opaque]
pub open spec fn finalized(m: StreamRendererModel, e: MomentModel) -> StreamRendererModel {
    if !has_thought(m) || m.reasoning_mode == ReasoningDisplayMode::Hidden {
        m
    } else if e.timeline {
        StreamRendererModel {
            reasoning_started_at: None,
            reasoning_elapsed: None,
            ..forgotten(
                emitted(m, EffectModel::Thought(summary_of(m, e.now), m.reasoning_text)),
            )
        }
    } else if m.reasoning_mode == ReasoningDisplayMode::Summary {
        let s = stopped(m);
        let c = if m.summary_line_active {
            StreamRendererModel {
                summary_line_active: false,
                summary_lines_active: 0,
                ..emitted(s, EffectModel::ClearSummaryLines)
            }
        } else {
            s
        };
        StreamRendererModel {
            reasoning_started_at: None,
            reasoning_elapsed: None,
            mode: None,
            ..forgotten(emitted(c, EffectModel::Summary(summary_of(m, e.now), m.reasoning_text)))
        }
    } else {
        m
    }
}

/// A request was sent.
pub open spec fn phase_started(m: StreamRendererModel, e: MomentModel, received_at: u64) -> StreamRendererModel {
    let a = StreamRendererModel {
        preparing_question_started_at: None,
        tool_preparing: None,
        tool_preparing_since: None,
        ..m
    };
    let b = if m.mode == Some(ChatStreamKind::Content) {
        emitted(a, EffectModel::EndStreamLine)
    } else {
        a
    };
    let c = if m.reasoning_mode == ReasoningDisplayMode::Summary {
        StreamRendererModel {
            reasoning_started_at: Some(received_at),
            reasoning_elapsed: None,
            ..forgotten(b)
        }
    } else {
        b
    };
    let d = waiting(c, e);
    if d.wait_spinner is Some {
        ticked(
            StreamRendererModel { last_tick: None, ..phase_set(d, phase_of(d, e.now)) },
            e,
        )
    } else {
        d
    }
}

/// A part of the thought starts.
pub open spec fn part_started(m: StreamRendererModel, e: MomentModel, received_at: u64) -> StreamRendererModel {
    if m.reasoning_mode != ReasoningDisplayMode::Summary {
        m
    } else {
        let pending = has_thought(m);
        let mid = m.mode == Some(ChatStreamKind::Content);
        let a = if pending || !mid {
            emitted(m, EffectModel::EndStreamLine)
        } else {
            m
        };
        let b = if pending {
            StreamRendererModel {
                reasoning_started_at: Some(received_at),
                ..finalized(frozen(a, received_at), e)
            }
        } else if m.reasoning_started_at is None {
            StreamRendererModel { reasoning_started_at: Some(received_at), ..a }
        } else {
            a
        };
        let c = StreamRendererModel { reasoning_elapsed: None, ..forgotten(b) };
        if mid && !pending {
            c
        } else {
            waiting(c, e)
        }
    }
}

/// A part of the thought ends.
pub open spec fn part_finished(m: StreamRendererModel, e: MomentModel, received_at: u64) -> StreamRendererModel {
    if m.reasoning_mode != ReasoningDisplayMode::Summary || !has_thought(m) {
        m
    } else {
        StreamRendererModel {
            reasoning_started_at: Some(received_at),
            reasoning_elapsed: None,
            ..finalized(frozen(m, received_at), e)
        }
    }
}

/// The thought starts over.
pub open spec fn phase_reset(m: StreamRendererModel, e: MomentModel, received_at: u64) -> StreamRendererModel {
    if m.reasoning_mode != ReasoningDisplayMode::Summary {
        m
    } else {
        let s = stopped(m);
        let c = if m.summary_line_active {
            emitted(s, EffectModel::ClearSummaryLines)
        } else {
            s
        };
        waiting(
            StreamRendererModel {
                reasoning_started_at: Some(received_at),
                reasoning_elapsed: None,
                mode: None,
                ..forgotten(c)
            },
            e,
        )
    }
}

/// The line says something, whether it is animated or not.
pub open spec fn phase_ensured(
    m: StreamRendererModel,
    e: MomentModel,
    p: PhaseModel,
    style: SpinnerStyle,
) -> StreamRendererModel {
    if m.command_display {
        m
    } else if m.plain || !e.supported {
        let c = if m.summary_line_active {
            emitted(m, EffectModel::ClearSummaryLines)
        } else {
            m
        };
        emitted(c, EffectModel::SummaryLine(p, summary_style_of(style)))
    } else if m.wait_spinner is None {
        ticked(spun(m, p, style), e)
    } else {
        phase_set(m, p)
    }
}

/// What a wait in a style is about: dots stand for tools.
pub open spec fn summary_style_of(style: SpinnerStyle) -> SummaryStyle {
    match style {
        SpinnerStyle::Braille => SummaryStyle::Tool,
        SpinnerStyle::Scanner => SummaryStyle::Reasoning,
    }
}

/// What the model thinks about is known.
pub open spec fn titled(m: StreamRendererModel, e: MomentModel, title: Seq<char>) -> StreamRendererModel {
    if m.reasoning_mode != ReasoningDisplayMode::Summary || m.plain || title.len() == 0 {
        m
    } else {
        let t = StreamRendererModel { reasoning_title: Some(title), ..m };
        phase_ensured(t, e, live_of(t, e.now), style_of(e.timeline))
    }
}

/// A text without a mark.
pub open spec fn without_all(s: Seq<char>, mark: Seq<char>) -> Seq<char>
    decreases s.len(),
{
    match find(s, mark) {
        Some(i) => if mark.len() > 0 && 0 <= i && i + mark.len() <= s.len() {
            s.take(i) + without_all(s.skip(i + mark.len()), mark)
        } else {
            s
        },
        None => s,
    }
}

/// Two lines as one text.
pub open spec fn two_lines(header: Seq<char>, sub: Option<Seq<char>>) -> Seq<char> {
    match sub {
        Some(s) => if header.len() == 0 {
            s
        } else {
            header + "\n"@ + s
        },
        None => header,
    }
}

/// The line says what the tools do, whether it is animated or not.
pub open spec fn tools_ensured(m: StreamRendererModel, e: MomentModel, mark: Seq<char>) -> StreamRendererModel {
    let c = if m.summary_line_active {
        emitted(m, EffectModel::ClearSummaryLines)
    } else {
        m
    };
    if m.plain || !m.live_summary {
        let summary = without_all(two_lines(e.header, e.sub), mark);
        emitted(
            StreamRendererModel { last_tool_summary: summary, ..c },
            EffectModel::SummaryLine(PhaseModel::Written(summary), SummaryStyle::Tool),
        )
    } else {
        let d = if m.wait_spinner is None {
            spun(
                emitted(c, EffectModel::HideCursor),
                PhaseModel::Written(e.header),
                SpinnerStyle::Braille,
            )
        } else {
            c
        };
        ticked(phases_set(d, e.header, e.sub), e)
    }
}

/// A question is prepared.
pub open spec fn question_prepared(m: StreamRendererModel, e: MomentModel) -> StreamRendererModel {
    if m.plain || m.preparing_question_started_at is Some {
        m
    } else {
        let a = StreamRendererModel {
            preparing_question_started_at: Some(e.now),
            command_display: m.command_display && e.timeline,
            ..emitted(m, EffectModel::ReleaseTransient)
        };
        if !e.supported {
            a
        } else {
            ticked(
                spun(emitted(a, EffectModel::HideCursor), phase_of(a, e.now), SpinnerStyle::Braille),
                e,
            )
        }
    }
}

/// The time starts again at the end of a tool, unless a thought waits to be written.
pub open spec fn reanchored(m: StreamRendererModel, now: u64) -> StreamRendererModel {
    if m.reasoning_started_at is None || has_thought(m) {
        m
    } else {
        StreamRendererModel { reasoning_started_at: Some(now), reasoning_elapsed: None, ..m }
    }
}

/// More of the thought came.
pub open spec fn thought_recorded(m: StreamRendererModel, text: Seq<char>, tokens: usize, now: u64) -> StreamRendererModel {
    StreamRendererModel {
        reasoning_started_at: match m.reasoning_started_at {
            Some(s) => Some(s),
            None => Some(now),
        },
        reasoning_text: m.reasoning_text + text,
        reasoning_tokens: (m.reasoning_tokens + tokens) as usize,
        ..m
    }
}

fn time_since(from: u64, to: u64) -> (r: u64)
    ensures
        r == since(from, to),
{
    if to > from {
        to - from
    } else {
        0
    }
}

fn remove_all(s: &str, mark: &str) -> (r: String)
    ensures
        r@ == without_all(s@, mark@),
{
    let v: Vec<char> = chars_of(s);
    let p: Vec<char> = chars_of(mark);
    if p.len() == 0 {
        return s.to_owned();
    }
    let mut out: String = String::new();
    let mut rest: Vec<char> = v;
    assert(out@ + without_all(s@, mark@) =~= without_all(s@, mark@));
    loop
        invariant
            p@ == mark@,
            p.len() > 0,
            out@ + without_all(rest@, mark@) == without_all(s@, mark@),
        decreases rest.len(),
    {
        let ghost before = out@;
        match find_in(&rest, &p, 0) {
            None => {
                let tail: String = slice_text(&rest, 0, rest.len());
                assert(rest@.subrange(0, rest.len() as int) =~= rest@);
                out.append(&tail);
                return out;
            }
            Some(i) => {
                let head: String = slice_text(&rest, 0, i);
                out.append(&head);
                let after: String = slice_text(&rest, i + p.len(), rest.len());
                proof {
                    let tail = rest@.skip(i + p.len());
                    assert(after@ =~= tail);
                    assert(head@ =~= rest@.take(i as int));
                    assert(before + (head@ + without_all(tail, mark@)) =~= out@ + without_all(
                        tail,
                        mark@,
                    ));
                }
                rest = chars_of(&after);
            }
        }
    }
}

impl StreamRenderer {
    fn emit(&mut self, f: Effect)
        ensures
            final(self)@ == emitted(old(self)@, f@),
    {
        let ghost before = self.effects@;
        self.effects.push(f);
        assert(views(self.effects@) =~= views(before).push(f@));
    }

    /// What is to be drawn, in order; nothing is left.
    pub fn take_effects(&mut self) -> (r: Vec<Effect>)
        ensures
            views(r@) == old(self)@.effects,
            final(self)@ == (StreamRendererModel { effects: seq![], ..old(self)@ }),
    {
        let mut r: Vec<Effect> = Vec::new();
        r.append(&mut self.effects);
        assert(views(self.effects@) =~= seq![]);
        assert(views(r@) =~= old(self)@.effects);
        r
    }

    /// What the animation looks like.
    pub fn wait_style(&self, e: &Moment) -> (r: SpinnerStyle)
        ensures
            r == style_of(e@.timeline),
    {
        if e.timeline {
            SpinnerStyle::Braille
        } else {
            SpinnerStyle::Scanner
        }
    }

    fn has_pending(&self) -> (r: bool)
        ensures
            r == has_thought(self@),
    {
        self.reasoning_title.is_some() || self.reasoning_text.as_str().unicode_len() > 0
    }

    /// The time of the thought, in milliseconds.
    pub fn reasoning_elapsed_text(&self, now: u64) -> (r: Option<u64>)
        ensures
            r == thought_time(self@, now),
    {
        match self.reasoning_elapsed {
            Some(n) => Some(n),
            None => match self.reasoning_started_at {
                Some(s) => Some(time_since(s, now)),
                None => None,
            },
        }
    }

    /// The thought as it is summed up.
    pub fn reasoning_summary_text(&self, now: u64) -> (r: Phase)
        ensures
            r@ == summary_of(self@, now),
    {
        let elapsed: Option<u64> = self.reasoning_elapsed_text(now);
        Phase::Measured(copy_opt(&self.reasoning_title), self.reasoning_tokens, elapsed)
    }

    /// The thought as it is shown while it goes on.
    pub fn reasoning_live_text(&self, now: u64) -> (r: Phase)
        ensures
            r@ == live_of(self@, now),
    {
        if self.reasoning_started_at.is_none() {
            return Phase::Thinking(copy_opt(&self.reasoning_title));
        }
        self.reasoning_summary_text(now)
    }

    /// What the line says while nothing else does.
    pub fn waiting_phase_text(&self, now: u64) -> (r: Phase)
        ensures
            r@ == phase_of(self@, now),
    {
        if let Some(s) = self.preparing_question_started_at {
            return Phase::Preparing(time_since(s, now));
        }
        if let Some(t) = &self.tool_preparing {
            return Phase::Tool(t.name.clone(), time_since(t.since, now));
        }
        match self.reasoning_mode {
            ReasoningDisplayMode::Summary => {
                if self.has_pending() {
                    self.reasoning_live_text(now)
                } else {
                    Phase::Elapsed(self.reasoning_elapsed_text(now))
                }
            }
            ReasoningDisplayMode::Full => Phase::Blank,
            ReasoningDisplayMode::Hidden => Phase::Thinking(None),
        }
    }

    /// The animation, if there is one, says something else.
    pub fn set_waiting_phase(&mut self, phase: Phase)
        ensures
            final(self)@ == phase_set(old(self)@, phase@),
    {
        let spinner: Option<Spinner> = self.wait_spinner.take();
        if let Some(s) = spinner {
            self.wait_spinner = Some(Spinner { phase: phase, sub: s.sub, style: s.style });
        }
    }

    /// The animation, if there is one, says something else, with a line under it.
    pub fn set_tool_waiting_phase(&mut self, header: &str, sub: Option<String>)
        ensures
            final(self)@ == phases_set(old(self)@, header@, opt_text(sub)),
    {
        let spinner: Option<Spinner> = self.wait_spinner.take();
        if let Some(s) = spinner {
            self.wait_spinner = Some(
                Spinner { phase: Phase::Written(header.to_owned()), sub: sub, style: s.style },
            );
        }
    }

    fn spin(&mut self, phase: Phase, style: SpinnerStyle)
        ensures
            final(self)@ == spun(old(self)@, phase@, style),
    {
        self.wait_spinner = Some(Spinner { phase: phase, sub: None, style: style });
        self.last_tick = None;
    }

    fn say(&mut self, e: &Moment)
        ensures
            final(self)@ == said(old(self)@, e@),
    {
        if self.wait_spinner.is_none() {
            return;
        }
        if e.timeline {
            self.emit(Effect::RefreshLiveBlock);
            self.emit(Effect::RefreshPanels);
            let sub: Option<String> = copy_opt(&e.sub);
            self.set_tool_waiting_phase(&e.header, sub);
        } else if self.preparing_question_started_at.is_some() || self.tool_preparing.is_some() {
            let phase: Phase = self.waiting_phase_text(e.now);
            self.set_waiting_phase(phase);
        } else if self.tool_call_mode == ToolCallDisplayMode::Summary && e.tools_called {
            let sub: Option<String> = copy_opt(&e.sub);
            self.set_tool_waiting_phase(&e.header, sub);
        } else if self.reasoning_mode == ReasoningDisplayMode::Summary
            && self.reasoning_started_at.is_some() {
            let phase: Phase = self.waiting_phase_text(e.now);
            self.set_waiting_phase(phase);
        }
    }

    /// A picture of the animation, or of the output of a command, where one is due.
    pub fn tick_spinner(&mut self, e: &Moment)
        requires
            is_consistent(old(self)@, e@.timeline),
        ensures
            final(self)@ == ticked(old(self)@, e@),
            is_consistent(final(self)@, e@.timeline),
    {
        let due: bool = match self.last_tick {
            Some(t) => time_since(t, e.now) >= self.interval,
            None => true,
        };
        if !due {
            return;
        }
        self.say(e);
        if self.command_display && !e.timeline {
            self.emit(Effect::DrawCommand);
        } else {
            let picture: Option<Effect> = match &self.wait_spinner {
                Some(s) => Some(Effect::DrawSpinner(s.phase.copy(), copy_opt(&s.sub), s.style)),
                None => None,
            };
            if let Some(f) = picture {
                self.emit(f);
            }
        }
        if self.wait_spinner.is_some() || self.command_display || e.subagent_timer {
            self.last_tick = Some(e.now);
        }
    }

    /// An animation is shown, where there is none and there can be one.
    pub fn start_waiting(&mut self, e: &Moment)
        requires
            is_consistent(old(self)@, e@.timeline),
        ensures
            final(self)@ == waiting(old(self)@, e@),
            is_consistent(final(self)@, e@.timeline),
    {
        proof {
            reveal(waiting);
        }
        if self.plain || self.wait_spinner.is_some() || self.command_display || !e.supported {
            return;
        }
        let phase: Phase = self.waiting_phase_text(e.now);
        let style: SpinnerStyle = self.wait_style(e);
        self.emit(Effect::HideCursor);
        self.spin(phase, style);
        self.tick_spinner(e);
    }

    /// No animation is shown any more.
    pub fn stop_waiting(&mut self)
        ensures
            final(self)@ == stopped(old(self)@),
    {
        let spinner: Option<Spinner> = self.wait_spinner.take();
        if spinner.is_some() {
            self.emit(Effect::StopSpinner);
        }
        self.last_tick = None;
    }

    fn forget_thought(&mut self)
        ensures
            final(self)@ == forgotten(old(self)@),
    {
        self.reasoning_title = None;
        self.reasoning_text = String::new();
        self.reasoning_tokens = 0;
        assert(self.reasoning_text@ =~= seq![]);
    }

    /// A request was sent: nothing is prepared any more, a new thought starts, and the
    /// line says so.
    pub fn start_reasoning_phase(&mut self, received_at: u64, e: &Moment)
        requires
            is_consistent(old(self)@, e@.timeline),
        ensures
            final(self)@ == phase_started(old(self)@, e@, received_at),
            is_consistent(final(self)@, e@.timeline),
    {
        self.preparing_question_started_at = None;
        self.tool_preparing = None;
        self.tool_preparing_since = None;
        if self.mode == Some(ChatStreamKind::Content) {
            self.emit(Effect::EndStreamLine);
        }
        if self.reasoning_mode == ReasoningDisplayMode::Summary {
            self.reasoning_started_at = Some(received_at);
            self.reasoning_elapsed = None;
            self.forget_thought();
        }
        self.start_waiting(e);
        if self.wait_spinner.is_some() {
            let phase: Phase = self.waiting_phase_text(e.now);
            self.set_waiting_phase(phase);
            self.last_tick = None;
            self.tick_spinner(e);
        }
    }

    /// The line says something: in the animation, or as a line where there can be none.
    pub fn ensure_waiting_phase(&mut self, phase: Phase, style: SpinnerStyle, e: &Moment)
        requires
            is_consistent(old(self)@, e@.timeline),
        ensures
            final(self)@ == phase_ensured(old(self)@, e@, phase@, style),
            is_consistent(final(self)@, e@.timeline),
    {
        if self.command_display {
            return;
        }
        if self.plain || !e.supported {
            if self.summary_line_active {
                self.emit(Effect::ClearSummaryLines);
            }
            let about: SummaryStyle = match style {
                SpinnerStyle::Braille => SummaryStyle::Tool,
                SpinnerStyle::Scanner => SummaryStyle::Reasoning,
            };
            self.emit(Effect::SummaryLine(phase, about));
            return;
        }
        if self.wait_spinner.is_none() {
            self.spin(phase, style);
            self.tick_spinner(e);
        } else {
            self.set_waiting_phase(phase);
        }
    }

    /// What the model thinks about is known. `title` is on one line, without what
    /// should not be seen, and not too long.
    pub fn write_reasoning_title(&mut self, title: &str, e: &Moment)
        requires
            is_consistent(old(self)@, e@.timeline),
        ensures
            final(self)@ == titled(old(self)@, e@, title@),
            is_consistent(final(self)@, e@.timeline),
    {
        if self.reasoning_mode != ReasoningDisplayMode::Summary || self.plain {
            return;
        }
        if title.unicode_len() == 0 {
            return;
        }
        self.reasoning_title = Some(title.to_owned());
        let phase: Phase = self.reasoning_live_text(e.now);
        let style: SpinnerStyle = self.wait_style(e);
        self.ensure_waiting_phase(phase, style, e);
    }

    /// The time of the thought stands still at a moment.
    pub fn freeze_reasoning_elapsed_at(&mut self, received_at: u64)
        ensures
            final(self)@ == frozen(old(self)@, received_at),
    {
        self.reasoning_elapsed = match self.reasoning_started_at {
            Some(s) => Some(time_since(s, received_at)),
            None => None,
        };
    }

    /// The thought that waits, if there is one, is written: as a step in a timeline,
    /// as a summary otherwise.
    pub fn finalize_reasoning_summary(&mut self, e: &Moment)
        ensures
            final(self)@ == finalized(old(self)@, e@),
            is_consistent(old(self)@, e@.timeline) ==> is_consistent(final(self)@, e@.timeline),
    {
        proof {
            reveal(finalized);
        }
        if !self.has_pending() || self.reasoning_mode == ReasoningDisplayMode::Hidden {
            return;
        }
        let summary: Phase = self.reasoning_summary_text(e.now);
        let text: String = self.reasoning_text.clone();
        if e.timeline {
            self.emit(Effect::Thought(summary, text));
        } else if self.reasoning_mode == ReasoningDisplayMode::Summary {
            self.stop_waiting();
            if self.summary_line_active {
                self.emit(Effect::ClearSummaryLines);
                self.summary_line_active = false;
                self.summary_lines_active = 0;
            }
            self.emit(Effect::Summary(summary, text));
            self.mode = None;
        } else {
            return;
        }
        self.forget_thought();
        self.reasoning_started_at = None;
        self.reasoning_elapsed = None;
    }

    /// A part of the thought starts: one that waits is written first. A line of the
    /// answer that is still open is not cut where there is nothing to write.
    pub fn start_reasoning_part(&mut self, received_at: u64, e: &Moment)
        requires
            is_consistent(old(self)@, e@.timeline),
        ensures
            final(self)@ == part_started(old(self)@, e@, received_at),
            is_consistent(final(self)@, e@.timeline),
    {
        if self.reasoning_mode != ReasoningDisplayMode::Summary {
            return;
        }
        let pending: bool = self.has_pending();
        let mid: bool = self.mode == Some(ChatStreamKind::Content);
        if pending || !mid {
            self.emit(Effect::EndStreamLine);
        }
        if pending {
            self.freeze_reasoning_elapsed_at(received_at);
            self.finalize_reasoning_summary(e);
            self.reasoning_started_at = Some(received_at);
        } else if self.reasoning_started_at.is_none() {
            self.reasoning_started_at = Some(received_at);
        }
        self.reasoning_elapsed = None;
        self.forget_thought();
        if mid && !pending {
            return;
        }
        self.start_waiting(e);
    }

    /// A part of the thought ends, and is written if there is something to write.
    pub fn finish_reasoning_part(&mut self, received_at: u64, e: &Moment)
        requires
            is_consistent(old(self)@, e@.timeline),
        ensures
            final(self)@ == part_finished(old(self)@, e@, received_at),
            is_consistent(final(self)@, e@.timeline),
    {
        if self.reasoning_mode != ReasoningDisplayMode::Summary {
            return;
        }
        if self.has_pending() {
            self.freeze_reasoning_elapsed_at(received_at);
            self.finalize_reasoning_summary(e);
            self.reasoning_started_at = Some(received_at);
            self.reasoning_elapsed = None;
        }
    }

    /// The thought starts over: what was thought is dropped.
    pub fn reset_reasoning_phase(&mut self, received_at: u64, e: &Moment)
        requires
            is_consistent(old(self)@, e@.timeline),
        ensures
            final(self)@ == phase_reset(old(self)@, e@, received_at),
            is_consistent(final(self)@, e@.timeline),
    {
        if self.reasoning_mode != ReasoningDisplayMode::Summary {
            return;
        }
        self.stop_waiting();
        if self.summary_line_active {
            self.emit(Effect::ClearSummaryLines);
        }
        self.forget_thought();
        self.reasoning_started_at = Some(received_at);
        self.reasoning_elapsed = None;
        self.mode = None;
        self.start_waiting(e);
    }

    /// The time starts again at the end of a tool, unless a thought waits to be
    /// written.
    pub fn reanchor_wait_timer(&mut self, now: u64)
        ensures
            final(self)@ == reanchored(old(self)@, now),
    {
        if self.reasoning_started_at.is_none() || self.has_pending() {
            return;
        }
        self.reasoning_started_at = Some(now);
        self.reasoning_elapsed = None;
    }

    /// More of the thought came, in so many tokens.
    pub fn record_reasoning_text(&mut self, text: &str, tokens: usize, now: u64)
        requires
            old(self)@.reasoning_tokens + tokens <= usize::MAX,
        ensures
            final(self)@ == thought_recorded(old(self)@, text@, tokens, now),
    {
        if self.reasoning_started_at.is_none() {
            self.reasoning_started_at = Some(now);
        }
        self.reasoning_text.append(text);
        self.reasoning_tokens = self.reasoning_tokens + tokens;
    }

    /// The line says what the tools do, whether it is animated or not. `mark` stands in
    /// `e.header` and `e.sub` for what only an animation shows.
    pub fn ensure_tool_waiting_phase(&mut self, mark: &str, e: &Moment)
        requires
            old(self)@.command_display ==> e@.timeline,
        ensures
            final(self)@ == tools_ensured(old(self)@, e@, mark@),
            is_consistent(final(self)@, e@.timeline),
    {
        if self.summary_line_active {
            self.emit(Effect::ClearSummaryLines);
        }
        if self.plain || !self.live_summary {
            let both: String = match &e.sub {
                Some(s) => if e.header.as_str().unicode_len() == 0 {
                    s.clone()
                } else {
                    let mut out: String = e.header.clone();
                    out.append("\n");
                    out.append(s);
                    out
                },
                None => e.header.clone(),
            };
            let summary: String = remove_all(&both, mark);
            self.last_tool_summary = summary.clone();
            self.emit(Effect::SummaryLine(Phase::Written(summary), SummaryStyle::Tool));
            return;
        }
        if self.wait_spinner.is_none() {
            self.emit(Effect::HideCursor);
            self.spin(Phase::Written(e.header.clone()), SpinnerStyle::Braille);
        }
        let sub: Option<String> = copy_opt(&e.sub);
        self.set_tool_waiting_phase(&e.header, sub);
        self.tick_spinner(e);
    }

    /// A question is prepared: the line says so from now on.
    pub fn start_preparing_question(&mut self, e: &Moment)
        requires
            is_consistent(old(self)@, e@.timeline),
        ensures
            final(self)@ == question_prepared(old(self)@, e@),
            is_consistent(final(self)@, e@.timeline),
    {
        if self.plain || self.preparing_question_started_at.is_some() {
            return;
        }
        self.emit(Effect::ReleaseTransient);
        self.command_display = self.command_display && e.timeline;
        self.preparing_question_started_at = Some(e.now);
        if !e.supported {
            return;
        }
        let phase: Phase = self.waiting_phase_text(e.now);
        self.emit(Effect::HideCursor);
        self.spin(phase, SpinnerStyle::Braille);
        self.tick_spinner(e);
    }
}

// ---------------------------------------------------------------------------
// What holds whatever happens

/// The time of a thought that was stopped does not go on.
pub proof fn law_stopped_time_stands_still(m: StreamRendererModel, at: u64, now: u64, later: u64)
    requires
        m.reasoning_started_at is Some,
    ensures
        thought_time(frozen(m, at), now) == Some(since(m.reasoning_started_at->0, at)),
        thought_time(frozen(m, at), later) == thought_time(frozen(m, at), now),
{
}

/// A part of a thought that starts while a line of the answer is open, with nothing
/// to write, draws nothing and leaves the line open.
pub proof fn law_open_line_is_not_cut(m: StreamRendererModel, e: MomentModel, at: u64)
    requires
        m.mode == Some(ChatStreamKind::Content),
        !has_thought(m),
    ensures
        part_started(m, e, at).effects == m.effects,
        part_started(m, e, at).mode == m.mode,
        part_started(m, e, at).wait_spinner == m.wait_spinner,
{
}

/// A thought is summed up with its own time, however late that is, and only once.
pub proof fn law_thought_is_written_once(
    m: StreamRendererModel,
    e: MomentModel,
    at: u64,
    next: MomentModel,
    later: u64,
)
    requires
        m.reasoning_mode == ReasoningDisplayMode::Summary,
        m.reasoning_started_at is Some,
        has_thought(m),
    ensures
        ({
            let r = part_finished(m, e, at);
            let own = PhaseModel::Measured(
                m.reasoning_title,
                m.reasoning_tokens,
                Some(since(m.reasoning_started_at->0, at)),
            );
            &&& r.effects.len() > m.effects.len()
            &&& r.effects.last() == (if e.timeline {
                EffectModel::Thought(own, m.reasoning_text)
            } else {
                EffectModel::Summary(own, m.reasoning_text)
            })
            &&& !has_thought(r)
            &&& r.reasoning_started_at == Some(at)
            &&& part_finished(r, next, later) == r
        }),
{
    reveal(finalized);
}

/// The time that a waiting thought took is not made shorter by a tool that ends, and
/// without one the time starts again.
pub proof fn law_waiting_thought_keeps_its_time(m: StreamRendererModel, now: u64)
    ensures
        has_thought(m) ==> reanchored(m, now) == m,
        !has_thought(m) && m.reasoning_started_at is Some ==> thought_time(reanchored(m, now), now)
            == Some(0u64),
{
}

/// A hint at what the turn is blocked on is not overwritten by a summary, and is what is
/// drawn.
pub proof fn law_hint_comes_first(m: StreamRendererModel, e: MomentModel)
    requires
        !e.timeline,
        m.wait_spinner is Some,
        m.preparing_question_started_at is Some || m.tool_preparing is Some,
        is_due(m, e.now),
    ensures
        ticked(m, e).wait_spinner is Some,
        ticked(m, e).wait_spinner->0.phase == (match m.preparing_question_started_at {
            Some(s) => PhaseModel::Preparing(since(s, e.now)),
            None => PhaseModel::Tool(m.tool_preparing->0.name, since(
                m.tool_preparing->0.since,
                e.now,
            )),
        }),
        !m.command_display ==> ticked(m, e).effects == m.effects.push(
            EffectModel::DrawSpinner(
                ticked(m, e).wait_spinner->0.phase,
                m.wait_spinner->0.sub,
                m.wait_spinner->0.style,
            ),
        ),
{
}

/// Where an animation can be shown, to start to wait again changes nothing.
pub proof fn law_waiting_starts_once(m: StreamRendererModel, e: MomentModel, next: MomentModel)
    requires
        e.supported,
    ensures
        waiting(waiting(m, e), next) == waiting(m, e),
{
    reveal(waiting);
}

/// A plain renderer never animates.
pub proof fn law_plain_is_never_animated(
    m: StreamRendererModel,
    e: MomentModel,
    at: u64,
    title: Seq<char>,
    mark: Seq<char>,
)
    requires
        m.plain,
        m.wait_spinner is None,
    ensures
        waiting(m, e).wait_spinner is None,
        ticked(m, e).wait_spinner is None,
        phase_started(m, e, at).wait_spinner is None,
        part_started(m, e, at).wait_spinner is None,
        part_finished(m, e, at).wait_spinner is None,
        phase_reset(m, e, at).wait_spinner is None,
        titled(m, e, title).wait_spinner is None,
        tools_ensured(m, e, mark).wait_spinner is None,
        question_prepared(m, e).wait_spinner is None,
{
    reveal(waiting);
    reveal(finalized);
}

/// A renderer that starts over has nothing to write, and its time starts then.
pub proof fn law_reset_drops_the_thought(m: StreamRendererModel, e: MomentModel, at: u64)
    requires
        m.reasoning_mode == ReasoningDisplayMode::Summary,
    ensures
        !has_thought(phase_reset(m, e, at)),
        phase_reset(m, e, at).reasoning_started_at == Some(at),
        phase_reset(m, e, at).mode is None,
        finalized(phase_reset(m, e, at), e) == phase_reset(m, e, at),
{
    reveal(waiting);
    reveal(finalized);
}

// ---------------------------------------------------------------------------
// What is told

/// Every phase is told by what it is about, and by how long it has taken where that is known.
pub proof fn law_phases_are_told(
    t: Seq<char>,
    name: Seq<char>,
    n: u64,
    tokens: usize,
    elapsed: Seq<char>,
)
    ensures
        phase_text(PhaseModel::Preparing(n), elapsed, true) == "~ 准备问题"@ + " · "@ + elapsed,
        phase_text(PhaseModel::Preparing(n), elapsed, false) == "~ Preparing question"@ + " · "@
            + elapsed,
        phase_text(PhaseModel::Tool(name, n), elapsed, true) == "~ "@ + name + " · "@ + elapsed,
        phase_text(PhaseModel::Thinking(Some(t)), elapsed, true) == "思考："@ + t,
        phase_text(PhaseModel::Thinking(Some(t)), elapsed, false) == "thinking: "@ + t,
        phase_text(PhaseModel::Thinking(None), elapsed, true) == "思考"@,
        phase_text(PhaseModel::Thinking(None), elapsed, false) == "thinking"@,
        tokens > 0 ==> phase_text(PhaseModel::Measured(Some(t), tokens, Some(n)), elapsed, false)
            == "thinking: "@ + t + (" · "@ + decimal(tokens as nat) + " tokens"@) + " · "@ + elapsed,
        tokens > 0 ==> phase_text(PhaseModel::Measured(Some(t), tokens, Some(n)), elapsed, true)
            == "思考："@ + t + (" · "@ + decimal(tokens as nat) + " 词元"@) + " · "@ + elapsed,
        phase_text(PhaseModel::Measured(None, 0, Some(n)), elapsed, false) == "thinking"@ + " · "@
            + elapsed,
        phase_text(PhaseModel::Elapsed(Some(n)), elapsed, true) == elapsed,
        phase_text(PhaseModel::Elapsed(None), elapsed, true) == "0ms"@,
        phase_text(PhaseModel::Blank, elapsed, true).len() == 0,
        phase_text(PhaseModel::Written(t), elapsed, true) == t,
{
    reveal_strlit("");
    assert("thinking"@ + ""@ + " · "@ + elapsed =~= "thinking"@ + " · "@ + elapsed);
}

/// The time that a phase shows is the one that it was given.
pub proof fn law_phases_show_their_time(
    t: Option<Seq<char>>,
    name: Seq<char>,
    n: u64,
    tokens: usize,
    from: u64,
    to: u64,
)
    ensures
        Phase::shown_time(PhaseModel::Preparing(n)) == Some(n),
        Phase::shown_time(PhaseModel::Tool(name, n)) == Some(n),
        Phase::shown_time(PhaseModel::Measured(t, tokens, Some(n))) == Some(n),
        Phase::shown_time(PhaseModel::Elapsed(Some(n))) == Some(n),
        Phase::shown_time(PhaseModel::Thinking(t)) is None,
        Phase::shown_time(PhaseModel::Blank) is None,
        from <= to ==> since(from, to) == to - from,
        from >= to ==> since(from, to) == 0,
{
}

/// What the model thinks adds up: the words in their order and the tokens in their number,
/// from the first of them on.
pub proof fn law_thoughts_add_up(
    m: StreamRendererModel,
    a: Seq<char>,
    b: Seq<char>,
    x: usize,
    y: usize,
    now: u64,
    later: u64,
)
    requires
        m.reasoning_tokens + x + y <= usize::MAX,
    ensures
        ({
            let one = thought_recorded(m, a, x, now);
            let two = thought_recorded(one, b, y, later);
            &&& one.reasoning_text == m.reasoning_text + a
            &&& one.reasoning_tokens == m.reasoning_tokens + x
            &&& two.reasoning_text == m.reasoning_text + a + b
            &&& two.reasoning_tokens == m.reasoning_tokens + x + y
            &&& m.reasoning_started_at is None ==> two.reasoning_started_at == Some(now)
            &&& m.reasoning_started_at is Some ==> two.reasoning_started_at
                == m.reasoning_started_at
            &&& a.len() > 0 ==> has_thought(one)
            &&& two.effects == m.effects && two.wait_spinner == m.wait_spinner && two.reasoning_title
                == m.reasoning_title
        }),
{
}

/// What is being waited for: a question, else a tool, else the thought in the way that is set.
pub proof fn law_what_is_waited_for(m: StreamRendererModel, now: u64)
    ensures
        m.preparing_question_started_at is Some ==> phase_of(m, now) is Preparing,
        m.preparing_question_started_at is None && m.tool_preparing is Some ==> phase_of(m, now)
            == PhaseModel::Tool(m.tool_preparing->0.name, since(m.tool_preparing->0.since, now)),
        m.preparing_question_started_at is None && m.tool_preparing is None && m.reasoning_mode
            == ReasoningDisplayMode::Hidden ==> phase_of(m, now) == PhaseModel::Thinking(None),
        m.preparing_question_started_at is None && m.tool_preparing is None && m.reasoning_mode
            == ReasoningDisplayMode::Full ==> phase_of(m, now) == PhaseModel::Blank,
        m.preparing_question_started_at is None && m.tool_preparing is None && m.reasoning_mode
            == ReasoningDisplayMode::Summary && m.reasoning_title is Some && m.reasoning_started_at
            is Some && m.reasoning_elapsed is None ==> phase_of(m, now) == PhaseModel::Measured(
            m.reasoning_title,
            m.reasoning_tokens,
            Some(since(m.reasoning_started_at->0, now)),
        ),
        m.reasoning_elapsed is Some ==> thought_time(m, now) == m.reasoning_elapsed,
        m.reasoning_elapsed is None && m.reasoning_started_at is None ==> thought_time(m, now)
            is None,
{
}

/// Waiting is shown where the terminal can show it, with what is waited for, and not before
/// the last picture has stood long enough; once it ends nothing of it is left.
pub proof fn law_waiting_is_shown(m: StreamRendererModel, e: MomentModel)
    ensures
        !m.plain && m.wait_spinner is None && !m.command_display && e.supported ==> waiting(
            m,
            e,
        ).wait_spinner is Some && waiting(m, e).effects.len() > m.effects.len()
            && waiting(m, e).effects[m.effects.len() as int] == EffectModel::HideCursor,
        m.plain || !e.supported || m.command_display ==> waiting(m, e) == m,
        m.last_tick is Some && m.last_tick->0 <= e.now && e.now - m.last_tick->0 < m.interval
            ==> ticked(m, e) == m,
        m.last_tick is None && m.wait_spinner is Some ==> ticked(m, e).last_tick == Some(e.now),
        stopped(m).wait_spinner is None,
        m.wait_spinner is Some ==> stopped(m).effects == m.effects.push(EffectModel::StopSpinner),
        m.wait_spinner is None ==> stopped(m).effects == m.effects,
        stopped(m).reasoning_text == m.reasoning_text,
{
    reveal(waiting);
}

/// A thought begins afresh: nothing of the one before is left in it, and its time runs from
/// when it came.
pub proof fn law_a_thought_begins_afresh(m: StreamRendererModel, e: MomentModel, at: u64)
    requires
        m.reasoning_mode == ReasoningDisplayMode::Summary,
    ensures
        !has_thought(phase_started(m, e, at)),
        phase_started(m, e, at).reasoning_started_at == Some(at),
        phase_started(m, e, at).reasoning_tokens == 0,
        phase_started(m, e, at).preparing_question_started_at is None,
        phase_started(m, e, at).tool_preparing is None,
{
    reveal(waiting);
}

/// A title is kept and told from then on.
pub proof fn law_titles_are_told(m: StreamRendererModel, e: MomentModel, title: Seq<char>)
    requires
        m.reasoning_mode == ReasoningDisplayMode::Summary,
        !m.plain,
    ensures
        title.len() > 0 ==> titled(m, e, title).reasoning_title == Some(title),
        title.len() == 0 ==> titled(m, e, title) == m,
        title.len() > 0 && m.wait_spinner is Some && e.supported && !m.command_display
            && m.reasoning_started_at is None ==> titled(m, e, title).wait_spinner is Some
            && titled(m, e, title).wait_spinner->0.phase == PhaseModel::Thinking(Some(title)),
        title.len() > 0 ==> titled(m, e, title).reasoning_text == m.reasoning_text,
{
}

/// What the tools did is told in one or two lines, without its marks.
pub proof fn law_tools_are_told(
    m: StreamRendererModel,
    e: MomentModel,
    mark: Seq<char>,
    header: Seq<char>,
    sub: Seq<char>,
)
    ensures
        two_lines(header, None) == header,
        header.len() > 0 ==> two_lines(header, Some(sub)) == header + "\n"@ + sub,
        header.len() == 0 ==> two_lines(header, Some(sub)) == sub,
        !occurs(header, mark) ==> without_all(header, mark) == header,
        m.plain && e.sub is None && !occurs(e.header, mark) ==> tools_ensured(
            m,
            e,
            mark,
        ).last_tool_summary == e.header && tools_ensured(m, e, mark).effects.last()
            == EffectModel::SummaryLine(PhaseModel::Written(e.header), SummaryStyle::Tool),
        !m.plain && m.live_summary && m.wait_spinner is None ==> tools_ensured(
            m,
            e,
            mark,
        ).wait_spinner is Some,
{
    lemma_find_occurs(header, mark);
    lemma_find_occurs(e.header, mark);
}

/// A mark is taken out wherever it stands, and what stands around it stays.
pub proof fn law_marks_are_taken_out(a: Seq<char>, mark: Seq<char>, b: Seq<char>)
    requires
        mark.len() > 0,
        forall|i: int| 0 <= i < a.len() ==> !#[trigger] stands_at(a + mark + b, mark, i),
    ensures
        without_all(a + mark + b, mark) == a + without_all(b, mark),
{
    let s = a + mark + b;
    let n = a.len() as int;
    assert(s.subrange(n, n + mark.len()) =~= mark);
    assert(stands_at(s, mark, n));
    lemma_find_from(s, mark, 0);
    let i = find_from(s, mark, 0);
    assert(i == n);
    assert(s.take(i) =~= a);
    assert(s.skip(i + mark.len()) =~= b);
}

/// A question is prepared from the moment on that it is asked.
pub proof fn law_a_question_is_prepared(m: StreamRendererModel, e: MomentModel)
    requires
        !m.plain,
        m.preparing_question_started_at is None,
    ensures
        question_prepared(m, e).preparing_question_started_at == Some(e.now),
        e.supported ==> question_prepared(m, e).wait_spinner is Some,
        question_prepared(question_prepared(m, e), e) == question_prepared(m, e),
{
}

} // verus!
