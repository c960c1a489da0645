use gqy::render::reasoning_phase::{
    ChatStreamKind, Effect, Moment, Phase, ReasoningDisplayMode, SpinnerStyle, StreamRenderer,
    ToolCallDisplayMode,
};

fn renderer() -> StreamRenderer {
    StreamRenderer {
        plain: false,
        live_summary: true,
        interval: 80,
        reasoning_mode: ReasoningDisplayMode::Summary,
        tool_call_mode: ToolCallDisplayMode::Summary,
        mode: None,
        command_display: false,
        wait_spinner: None,
        last_tick: None,
        preparing_question_started_at: None,
        tool_preparing: None,
        tool_preparing_since: None,
        reasoning_started_at: None,
        reasoning_elapsed: None,
        reasoning_title: None,
        reasoning_text: String::new(),
        reasoning_tokens: 0,
        summary_line_active: false,
        summary_lines_active: 0,
        last_tool_summary: String::new(),
        effects: Vec::new(),
    }
}

fn at(now: u64) -> Moment {
    Moment {
        now,
        supported: true,
        timeline: false,
        tools_called: false,
        subagent_timer: false,
        header: "头".to_string(),
        sub: None,
    }
}

#[test]
fn waiting_starts_once_and_is_drawn_at_intervals() {
    let mut r = renderer();
    r.start_waiting(&at(1000));
    assert!(matches!(r.wait_spinner.as_ref().unwrap().style, SpinnerStyle::Scanner));
    let first = r.take_effects();
    assert_eq!(first.len(), 2);
    assert!(matches!(first[0], Effect::HideCursor));
    assert!(matches!(
        &first[1],
        Effect::DrawSpinner(Phase::Elapsed(None), None, SpinnerStyle::Scanner)
    ));
    r.start_waiting(&at(1010));
    assert!(r.take_effects().is_empty());
    r.tick_spinner(&at(1079));
    assert!(r.take_effects().is_empty());
    r.tick_spinner(&at(1080));
    assert_eq!(r.take_effects().len(), 1);
    r.stop_waiting();
    assert!(r.wait_spinner.is_none());
    assert!(matches!(r.take_effects()[0], Effect::StopSpinner));
}

#[test]
fn a_plain_renderer_is_not_animated() {
    let mut r = renderer();
    r.plain = true;
    r.start_waiting(&at(0));
    r.start_preparing_question(&at(0));
    r.start_reasoning_phase(0, &at(0));
    assert!(r.wait_spinner.is_none());
    assert!(r.take_effects().is_empty());
}

#[test]
fn a_thought_is_summed_up_with_its_own_time() {
    let mut r = renderer();
    r.start_reasoning_phase(1000, &at(1000));
    r.record_reasoning_text("想", 3, 1100);
    r.write_reasoning_title("题", &at(1200));
    r.finish_reasoning_part(2500, &at(9000));
    let effects = r.take_effects();
    match effects.last().unwrap() {
        Effect::Summary(phase, text) => {
            assert_eq!(text, "想");
            assert_eq!(phase.elapsed(), Some(1500));
            assert_eq!(phase.text("1.5s", true), "思考：题 · 3 词元 · 1.5s");
            assert_eq!(phase.text("1.5s", false), "thinking: 题 · 3 tokens · 1.5s");
        }
        _ => panic!("a summary"),
    }
    assert_eq!(r.reasoning_started_at, Some(2500));
    r.finish_reasoning_part(3000, &at(9000));
    assert!(r.take_effects().is_empty());
}

#[test]
fn an_open_line_is_not_cut_for_nothing() {
    let mut r = renderer();
    r.mode = Some(ChatStreamKind::Content);
    r.start_reasoning_part(10, &at(10));
    assert!(r.take_effects().is_empty());
    assert_eq!(r.reasoning_started_at, Some(10));
    r.record_reasoning_text("x", 1, 20);
    r.start_reasoning_part(30, &at(30));
    assert!(matches!(r.take_effects()[0], Effect::EndStreamLine));
}

#[test]
fn hints_come_before_summaries() {
    let mut r = renderer();
    r.start_preparing_question(&at(100));
    let mut later = at(400);
    later.tools_called = true;
    r.tick_spinner(&later);
    let phase = &r.wait_spinner.as_ref().unwrap().phase;
    assert_eq!(phase.text("0.3s", false), "~ Preparing question · 0.3s");
    assert_eq!(phase.elapsed(), Some(300));
    let mut done = renderer();
    done.start_waiting(&at(100));
    done.tick_spinner(&later);
    assert_eq!(done.wait_spinner.as_ref().unwrap().phase.text("", true), "头");
}

#[test]
fn a_reset_drops_the_thought() {
    let mut r = renderer();
    r.record_reasoning_text("x", 1, 20);
    r.summary_line_active = true;
    r.reset_reasoning_phase(50, &at(50));
    assert!(r.reasoning_text.is_empty());
    assert_eq!(r.reasoning_tokens, 0);
    assert_eq!(r.reasoning_started_at, Some(50));
    assert!(matches!(r.take_effects()[0], Effect::ClearSummaryLines));
}

#[test]
fn the_time_starts_again_after_a_tool() {
    let mut r = renderer();
    r.reanchor_wait_timer(70);
    assert_eq!(r.reasoning_started_at, None);
    r.reasoning_started_at = Some(10);
    r.reanchor_wait_timer(70);
    assert_eq!(r.reasoning_started_at, Some(70));
    r.record_reasoning_text("x", 1, 80);
    r.reanchor_wait_timer(90);
    assert_eq!(r.reasoning_started_at, Some(70));
    r.freeze_reasoning_elapsed_at(100);
    assert_eq!(r.reasoning_elapsed_text(5000), Some(30));
}

#[test]
fn tools_are_shown_as_a_line_where_nothing_moves() {
    let mut r = renderer();
    r.live_summary = false;
    let mut e = at(0);
    e.header = "A#B".to_string();
    e.sub = Some("C#".to_string());
    r.ensure_tool_waiting_phase("#", &e);
    assert_eq!(r.last_tool_summary, "AB\nC");
    let mut live = renderer();
    live.ensure_tool_waiting_phase("#", &e);
    let spinner = live.wait_spinner.as_ref().unwrap();
    assert!(matches!(spinner.style, SpinnerStyle::Braille));
    assert_eq!(spinner.sub.as_deref(), Some("C#"));
}

#[test]
fn phases_in_words() {
    assert_eq!(Phase::Elapsed(None).text("x", true), "0ms");
    assert_eq!(Phase::Tool("写".to_string(), 5).text("5ms", true), "~ 写 · 5ms");
    assert_eq!(Phase::Blank.text("x", true), "");
    assert_eq!(Phase::Thinking(None).text("x", false), "thinking");
    let mut hidden = renderer();
    hidden.reasoning_mode = ReasoningDisplayMode::Hidden;
    assert_eq!(hidden.waiting_phase_text(0).text("", true), "思考");
    let mut full = renderer();
    full.reasoning_mode = ReasoningDisplayMode::Full;
    assert_eq!(full.waiting_phase_text(0).text("", true), "");
}

#[test]
fn a_timeline_takes_thoughts_as_steps() {
    let mut r = renderer();
    let mut e = at(100);
    e.timeline = true;
    r.start_reasoning_phase(100, &e);
    assert!(matches!(r.wait_spinner.as_ref().unwrap().style, SpinnerStyle::Braille));
    r.record_reasoning_text("x", 1, 120);
    r.take_effects();
    r.finish_reasoning_part(150, &e);
    assert!(matches!(r.take_effects().last(), Some(Effect::Thought(_, _))));
    assert!(r.wait_spinner.is_some());
}
