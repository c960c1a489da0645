//! The assistant's mood, apart from its numbers.

use crate::order::first_of;
use crate::platform::{ScopeKey, ScopeKeyModel};
use crate::text::{
    copy_or_empty, first_chars, is_blank, law_writing_on_loses_nothing, occurs, opt_text, opt_view,
    same, take_at_most, trim, trimmed, views,
};
use vstd::prelude::*;
use vstd::string::*;

verus! {

/// How many changes of the mood are kept.
pub const MAX_EVENTS: usize = 100;

/// The English word for a mood.
pub open spec fn label_in_english(label: Seq<char>) -> Seq<char> {
    if label == "烦躁"@ {
        "irritable"@
    } else if label == "低落"@ {
        "down"@
    } else if label == "疲惫"@ {
        "tired"@
    } else if label == "兴奋"@ {
        "excited"@
    } else if label == "调皮"@ {
        "playful"@
    } else if label == "愉快"@ {
        "cheerful"@
    } else {
        "calm"@
    }
}

/// The English word for a mood.
pub fn label_en(label: &str) -> (r: &'static str)
    ensures
        r@ == label_in_english(label@),
{
    if same(label, "烦躁") {
        "irritable"
    } else if same(label, "低落") {
        "down"
    } else if same(label, "疲惫") {
        "tired"
    } else if same(label, "兴奋") {
        "excited"
    } else if same(label, "调皮") {
        "playful"
    } else if same(label, "愉快") {
        "cheerful"
    } else {
        "calm"
    }
}

/// The line about the mood at the end of a turn: none where both mood and energy
/// are as usual.
pub open spec fn mood_line(mood: Seq<char>, energy: Seq<char>) -> Option<Seq<char>> {
    if mood == "平稳"@ && energy == "普通"@ {
        None
    } else {
        Some("<internal-state>心情:"@ + mood + ";精神:"@ + energy + "。</internal-state>"@)
    }
}

/// The line about the mood at the end of a turn.
pub fn tone_hint(mood: &str, energy: &str) -> (r: Option<String>)
    ensures
        opt_text(r) == mood_line(mood@, energy@),
{
    if same(mood, "平稳") && same(energy, "普通") {
        return None;
    }
    let mut out: String = "<internal-state>心情:".to_owned();
    out.append(mood);
    out.append(";精神:");
    out.append(energy);
    out.append("。</internal-state>");
    Some(out)
}

/// The place where the mood of an account is kept.
pub fn scope_for(account_id: &str) -> (r: ScopeKey)
    ensures
        r@ == (ScopeKeyModel {
            plugin_id: "real_context"@,
            platform: "onebot"@,
            account_id: account_id@,
            conversation_kind: "emotion"@,
            conversation_id: "*"@,
        }),
{
    ScopeKey {
        plugin_id: "real_context".to_owned(),
        platform: "onebot".to_owned(),
        account_id: account_id.to_owned(),
        conversation_kind: "emotion".to_owned(),
        conversation_id: "*".to_owned(),
    }
}

/// The key of the mood that belongs to a persona.
pub fn key_for(persona_scope: &str) -> (r: String)
    ensures
        r@ == "emotion_state:"@ + persona_scope@,
{
    let mut key: String = "emotion_state:".to_owned();
    key.append(persona_scope);
    key
}

/// What is known of an answer that was given.
#[derive(Clone, Copy, Debug, PartialEq, Eq, Structural)]
pub struct ReplyFacts {
    pub direct: bool,
    pub active: bool,
    pub moderation_hit: bool,
    pub reply_chars: usize,
}

/// Why an answer changes the mood: the last of the reasons that holds.
pub open spec fn heuristic_reason_of(facts: ReplyFacts) -> Seq<char> {
    if facts.moderation_hit {
        "处理了可能违规或令人不适的内容"@
    } else if facts.active {
        "主动接上了群聊话题"@
    } else if facts.direct {
        "完成了一次直接互动"@
    } else {
        "完成了一次普通回复"@
    }
}

/// Why an answer changes the mood.
pub fn heuristic_reason(facts: &ReplyFacts) -> (r: &'static str)
    ensures
        r@ == heuristic_reason_of(*facts),
{
    if facts.moderation_hit {
        "处理了可能违规或令人不适的内容"
    } else if facts.active {
        "主动接上了群聊话题"
    } else if facts.direct {
        "完成了一次直接互动"
    } else {
        "完成了一次普通回复"
    }
}

/// What an answer does to the mood.
pub struct MoodTouch {
    /// Whether the table of changes is used, or only the interaction counted.
    pub heuristic: bool,
    pub source: String,
    pub reason: String,
}

/// What a [`MoodTouch`] holds, as values.
#[verifier::ext_equal]
pub struct MoodTouchModel {
    pub heuristic: bool,
    pub source: Seq<char>,
    pub reason: Seq<char>,
}

impl View for MoodTouch {
    type V = MoodTouchModel;

    open spec fn view(&self) -> MoodTouchModel {
        MoodTouchModel {
            heuristic: self.heuristic,
            source: self.source@,
            reason: self.reason@,
        }
    }
}


/// What an answer does to the mood: nothing where moods are switched off.
pub open spec fn mood_touch(
    enabled: bool,
    heuristic: bool,
    skip_heuristic: bool,
    facts: ReplyFacts,
) -> Option<MoodTouchModel> {
    if !enabled {
        None
    } else {
        let used = heuristic && !skip_heuristic;
        Some(
            MoodTouchModel {
                heuristic: used,
                source: if facts.moderation_hit {
                    "moderation"@
                } else {
                    "reply"@
                },
                reason: if used {
                    heuristic_reason_of(facts)
                } else {
                    ""@
                },
            },
        )
    }
}

/// What an answer does to the mood.
pub fn touch_after_reply(
    enabled: bool,
    heuristic: bool,
    skip_heuristic: bool,
    facts: &ReplyFacts,
) -> (r: Option<MoodTouch>)
    ensures
        opt_view(r) == mood_touch(enabled, heuristic, skip_heuristic, *facts),
{
    if !enabled {
        return None;
    }
    let used: bool = heuristic && !skip_heuristic;
    let source: &str = if facts.moderation_hit { "moderation" } else { "reply" };
    let reason: &str = if used { heuristic_reason(facts) } else { "" };
    Some(MoodTouch { heuristic: used, source: source.to_owned(), reason: reason.to_owned() })
}

/// The numbers of a change of the mood: the bits of the changes of both sides of it,
/// and of each before and after. Nothing here reads them.
#[derive(Clone, Copy, Debug, PartialEq, Eq, Structural)]
pub struct MoodNumbers {
    pub delta_valence: u64,
    pub delta_arousal: u64,
    pub valence_before: u64,
    pub valence_after: u64,
    pub arousal_before: u64,
    pub arousal_after: u64,
}

/// A change of the mood.
pub struct MoodEvent {
    pub numbers: MoodNumbers,
    pub label_before: String,
    pub label_after: String,
    pub source: String,
    pub reason: String,
    pub group_id: String,
    pub message_id: String,
    pub created_at: i64,
}

/// What a [`MoodEvent`] holds, as values.
#[verifier::ext_equal]
pub struct MoodEventModel {
    pub numbers: MoodNumbers,
    pub label_before: Seq<char>,
    pub label_after: Seq<char>,
    pub source: Seq<char>,
    pub reason: Seq<char>,
    pub group_id: Seq<char>,
    pub message_id: Seq<char>,
    pub created_at: i64,
}

impl View for MoodEvent {
    type V = MoodEventModel;

    open spec fn view(&self) -> MoodEventModel {
        MoodEventModel {
            numbers: self.numbers,
            label_before: self.label_before@,
            label_after: self.label_after@,
            source: self.source@,
            reason: self.reason@,
            group_id: self.group_id@,
            message_id: self.message_id@,
            created_at: self.created_at,
        }
    }
}


/// What changes the mood.
pub struct MoodCause {
    /// An answer, the model, something unpleasant, or a person.
    pub source: String,
    pub reason: String,
    pub group_id: String,
    pub message_id: String,
    /// Whether it counts as an interaction of the day.
    pub interaction: bool,
}

/// What a [`MoodCause`] holds, as values.
#[verifier::ext_equal]
pub struct MoodCauseModel {
    pub source: Seq<char>,
    pub reason: Seq<char>,
    pub group_id: Seq<char>,
    pub message_id: Seq<char>,
    pub interaction: bool,
}

impl View for MoodCause {
    type V = MoodCauseModel;

    open spec fn view(&self) -> MoodCauseModel {
        MoodCauseModel {
            source: self.source@,
            reason: self.reason@,
            group_id: self.group_id@,
            message_id: self.message_id@,
            interaction: self.interaction,
        }
    }
}


/// A change of the mood as it was computed.
pub struct MoodChange {
    pub numbers: MoodNumbers,
    /// Whether either side moved enough to be remembered.
    pub moved: bool,
    pub label_before: String,
    pub label_after: String,
}

/// What a [`MoodChange`] holds, as values.
#[verifier::ext_equal]
pub struct MoodChangeModel {
    pub numbers: MoodNumbers,
    pub moved: bool,
    pub label_before: Seq<char>,
    pub label_after: Seq<char>,
}

impl View for MoodChange {
    type V = MoodChangeModel;

    open spec fn view(&self) -> MoodChangeModel {
        MoodChangeModel {
            numbers: self.numbers,
            moved: self.moved,
            label_before: self.label_before@,
            label_after: self.label_after@,
        }
    }
}


/// What is kept of the mood, apart from its numbers.
pub struct MoodState {
    pub version: u32,
    pub updated_at: i64,
    pub daily_date: String,
    pub daily_interactions: u64,
    pub last_interaction_at: i64,
    /// The newest first.
    pub events: Vec<MoodEvent>,
}

/// What a [`MoodState`] holds, as values.
#[verifier::ext_equal]
pub struct MoodStateModel {
    pub version: u32,
    pub updated_at: i64,
    pub daily_date: Seq<char>,
    pub daily_interactions: u64,
    pub last_interaction_at: i64,
    pub events: Seq<MoodEventModel>,
}

impl View for MoodState {
    type V = MoodStateModel;

    open spec fn view(&self) -> MoodStateModel {
        MoodStateModel {
            version: self.version,
            updated_at: self.updated_at,
            daily_date: self.daily_date@,
            daily_interactions: self.daily_interactions,
            last_interaction_at: self.last_interaction_at,
            events: views(self.events@),
        }
    }
}


/// A change of the mood as it is remembered, its texts cut to their lengths.
pub open spec fn mood_event_of(cause: MoodCauseModel, change: MoodChangeModel, now: i64) -> MoodEventModel {
    MoodEventModel {
        numbers: change.numbers,
        label_before: change.label_before,
        label_after: change.label_after,
        source: cause.source,
        reason: take_at_most(cause.reason, 300),
        group_id: take_at_most(cause.group_id, 64),
        message_id: take_at_most(cause.message_id, 64),
        created_at: now,
    }
}

/// A change of the mood as it is remembered, its texts cut to their lengths.
pub fn mood_event(cause: &MoodCause, change: &MoodChange, now: i64) -> (r: MoodEvent)
    ensures
        r@ == mood_event_of(cause@, change@, now),
{
    MoodEvent {
        numbers: change.numbers,
        label_before: change.label_before.clone(),
        label_after: change.label_after.clone(),
        source: cause.source.clone(),
        reason: first_chars(&cause.reason, 300),
        group_id: first_chars(&cause.group_id, 64),
        message_id: first_chars(&cause.message_id, 64),
        created_at: now,
    }
}

/// The interactions of the day so far.
pub open spec fn interactions_on(s: MoodStateModel, today: Seq<char>) -> u64 {
    if s.daily_date == today {
        s.daily_interactions
    } else {
        0
    }
}

/// The mood after a change.
pub open spec fn mood_after(
    s: MoodStateModel,
    cause: MoodCauseModel,
    change: MoodChangeModel,
    today: Seq<char>,
    now: i64,
) -> MoodStateModel {
    MoodStateModel {
        version: 1,
        updated_at: now,
        daily_date: today,
        daily_interactions: if cause.interaction {
            (interactions_on(s, today) + 1) as u64
        } else {
            interactions_on(s, today)
        },
        last_interaction_at: if cause.interaction {
            now
        } else {
            s.last_interaction_at
        },
        events: if change.moved {
            first_of(seq![mood_event_of(cause, change, now)] + s.events, MAX_EVENTS as nat)
        } else {
            s.events
        },
    }
}

/// The mood after a change: the counts of the day start again on a new one, an
/// interaction is counted, and a change that is great enough is remembered.
pub fn apply_delta(s: MoodState, cause: &MoodCause, change: &MoodChange, today: &str, now: i64) -> (r:
    MoodState)
    requires
        cause@.interaction ==> interactions_on(s@, today@) < u64::MAX,
    ensures
        r@ == mood_after(s@, cause@, change@, today@, now),
{
    let ghost before = s@;
    let so_far: u64 = if same(&s.daily_date, today) { s.daily_interactions } else { 0 };
    let mut events: Vec<MoodEvent> = s.events;
    if change.moved {
        let event: MoodEvent = mood_event(cause, change, now);
        let ghost e = event@;
        remember_mood(&mut events, event);
        assert(views(events@) =~= first_of(seq![e] + before.events, MAX_EVENTS as nat));
    }
    MoodState {
        version: 1,
        updated_at: now,
        daily_date: today.to_owned(),
        daily_interactions: if cause.interaction { so_far + 1 } else { so_far },
        last_interaction_at: if cause.interaction { now } else { s.last_interaction_at },
        events: events,
    }
}

/// Whatever changes the mood, a bounded number of changes is kept, and what happens
/// on a new day is counted from nothing.
pub proof fn law_mood_is_bounded(
    s: MoodStateModel,
    cause: MoodCauseModel,
    change: MoodChangeModel,
    today: Seq<char>,
    now: i64,
)
    requires
        s.events.len() <= MAX_EVENTS,
    ensures
        mood_after(s, cause, change, today, now).events.len() <= MAX_EVENTS,
        s.daily_date != today ==> mood_after(s, cause, change, today, now).daily_interactions <= 1,
{
}

/// What an answer means to the mood.
pub fn reply_cause(touch: &MoodTouch, group_id: &str, message_id: &Option<String>) -> (r: MoodCause)
    ensures
        r@ == (MoodCauseModel {
            source: touch@.source,
            reason: touch@.reason,
            group_id: group_id@,
            message_id: match *message_id {
                Some(id) => id@,
                None => seq![],
            },
            interaction: true,
        }),
{
    MoodCause {
        source: touch.source.clone(),
        reason: touch.reason.clone(),
        group_id: group_id.to_owned(),
        message_id: copy_or_empty(message_id),
        interaction: true,
    }
}

/// What the model says of the mood, where that is used.
pub open spec fn llm_cause(
    enabled: bool,
    enrich: bool,
    group_id: Seq<char>,
    message_id: Seq<char>,
    reason: Seq<char>,
) -> Option<MoodCauseModel> {
    if enabled && enrich {
        Some(
            MoodCauseModel {
                source: "llm"@,
                reason: reason,
                group_id: group_id,
                message_id: message_id,
                interaction: false,
            },
        )
    } else {
        None
    }
}

/// What the model says of the mood, where that is used.
pub fn apply_llm_delta(enabled: bool, enrich: bool, group_id: &str, message_id: &str, reason: &str) -> (r:
    Option<MoodCause>)
    ensures
        opt_view(r) == llm_cause(enabled, enrich, group_id@, message_id@, reason@),
{
    if !enabled || !enrich {
        return None;
    }
    Some(
        MoodCause {
            source: "llm".to_owned(),
            reason: reason.to_owned(),
            group_id: group_id.to_owned(),
            message_id: message_id.to_owned(),
            interaction: false,
        },
    )
}

/// A mood set by hand.
pub fn dashboard_set(reason: &str) -> (r: MoodCause)
    ensures
        r@ == (MoodCauseModel {
            source: "manual"@,
            reason: if trim(reason@).len() == 0 {
                "dashboard 手动设值"@
            } else {
                trim(reason@)
            },
            group_id: ""@,
            message_id: "dashboard"@,
            interaction: false,
        }),
{
    MoodCause {
        source: "manual".to_owned(),
        reason: if is_blank(reason) {
            "dashboard 手动设值".to_owned()
        } else {
            trimmed(reason)
        },
        group_id: "".to_owned(),
        message_id: "dashboard".to_owned(),
        interaction: false,
    }
}

/// What is kept of the mood when it is set back to its usual state: nothing where the
/// changes go too, all but its numbers otherwise.
pub fn dashboard_reset(s: Option<MoodState>, clear_events: bool, now: i64) -> (r: Option<MoodState>)
    ensures
        opt_view(r) == (if clear_events {
            None
        } else {
            Some(
                MoodStateModel {
                    updated_at: now,
                    ..match s {
                        Some(m) => m@,
                        None => fresh_mood(),
                    }
                },
            )
        }),
{
    if clear_events {
        return None;
    }
    let base: MoodState = match s {
        Some(m) => m,
        None => new_mood(),
    };
    Some(MoodState { updated_at: now, ..base })
}

/// What is kept of a mood that never changed.
pub open spec fn fresh_mood() -> MoodStateModel {
    MoodStateModel {
        version: 1,
        updated_at: 0,
        daily_date: seq![],
        daily_interactions: 0,
        last_interaction_at: 0,
        events: seq![],
    }
}

/// What is kept of a mood that never changed.
pub fn new_mood() -> (r: MoodState)
    ensures
        r@ == fresh_mood(),
{
    let r: MoodState = MoodState {
        version: 1,
        updated_at: 0,
        daily_date: String::new(),
        daily_interactions: 0,
        last_interaction_at: 0,
        events: Vec::new(),
    };
    assert(r@.daily_date =~= seq![]);
    assert(r@.events =~= seq![]);
    r
}

/// A part of the day.
#[derive(Clone, Copy, Debug, PartialEq, Eq, Structural)]
pub enum DayPart {
    Morning,
    Day,
    Night,
}

/// The part of the day that an hour is in: the morning from six to ten, the night from
/// eleven in the evening to six.
pub fn day_part(hour: u32) -> (r: DayPart)
    ensures
        r == (if 6 <= hour < 10 {
            DayPart::Morning
        } else if hour >= 23 || hour < 6 {
            DayPart::Night
        } else {
            DayPart::Day
        }),
{
    if hour >= 6 && hour < 10 {
        DayPart::Morning
    } else if hour >= 23 || hour < 6 {
        DayPart::Night
    } else {
        DayPart::Day
    }
}

/// Puts a change in front of the others; the oldest are given up.
pub fn remember_mood<T>(events: &mut Vec<T>, event: T)
    ensures
        final(events)@ == first_of(seq![event] + old(events)@, MAX_EVENTS as nat),
{
    events.insert(0, event);
    let ghost full = seq![event] + old(events)@;
    assert(events@ =~= full);
    if events.len() > MAX_EVENTS {
        events.truncate(MAX_EVENTS);
    }
    assert(events@ =~= first_of(full, MAX_EVENTS as nat));
}

/// Every mood has its own word.
pub proof fn law_moods_are_told_apart()
    ensures
        label_in_english("烦躁"@) == "irritable"@,
        label_in_english("低落"@) == "down"@,
        label_in_english("疲惫"@) == "tired"@,
        label_in_english("兴奋"@) == "excited"@,
        label_in_english("调皮"@) == "playful"@,
        label_in_english("愉快"@) == "cheerful"@,
        label_in_english("平稳"@) == "calm"@,
{
    reveal_strlit("烦躁");
    reveal_strlit("低落");
    reveal_strlit("疲惫");
    reveal_strlit("兴奋");
    reveal_strlit("调皮");
    reveal_strlit("愉快");
    reveal_strlit("平稳");
    assert("烦躁"@[0] == '烦');
    assert("低落"@[0] == '低');
    assert("疲惫"@[0] == '疲');
    assert("兴奋"@[0] == '兴');
    assert("调皮"@[0] == '调');
    assert("愉快"@[0] == '愉');
    assert("平稳"@[0] == '平');
}

/// The mood is told unless it is an ordinary one, and then both sides of it are.
pub proof fn law_the_mood_is_told(mood: Seq<char>, energy: Seq<char>)
    ensures
        mood_line(mood, energy) is None <==> mood == "平稳"@ && energy == "普通"@,
        mood_line(mood, energy) is Some ==> occurs(mood_line(mood, energy)->0, mood) && occurs(
            mood_line(mood, energy)->0,
            energy,
        ),
{
    if mood_line(mood, energy) is Some {
        let a = "<internal-state>心情:"@;
        law_writing_on_loses_nothing(a, mood);
        law_writing_on_loses_nothing(a + mood, ";精神:"@);
        law_writing_on_loses_nothing(a + mood + ";精神:"@, energy);
        law_writing_on_loses_nothing(a + mood + ";精神:"@ + energy, "。</internal-state>"@);
    }
}

/// An answer counts as one interaction of its day and, where the mood moved by it, is
/// remembered before all that came earlier, as it was; what does not count leaves the count.
pub proof fn law_the_mood_remembers(
    s: MoodStateModel,
    cause: MoodCauseModel,
    change: MoodChangeModel,
    today: Seq<char>,
    now: i64,
)
    requires
        s.events.len() <= MAX_EVENTS,
        s.daily_interactions < u64::MAX,
    ensures
        ({
            let r = mood_after(s, cause, change, today, now);
            &&& r.daily_date == today && r.updated_at == now
            &&& cause.interaction && s.daily_date == today ==> r.daily_interactions
                == s.daily_interactions + 1
            &&& cause.interaction && s.daily_date != today ==> r.daily_interactions == 1
            &&& !cause.interaction && s.daily_date == today ==> r.daily_interactions
                == s.daily_interactions
            &&& !cause.interaction && s.daily_date != today ==> r.daily_interactions == 0
            &&& r.last_interaction_at == (if cause.interaction {
                now
            } else {
                s.last_interaction_at
            })
            &&& !change.moved ==> r.events == s.events
            &&& change.moved ==> r.events.len() > 0 && r.events[0].numbers == change.numbers
                && r.events[0].label_before == change.label_before && r.events[0].label_after
                == change.label_after && r.events[0].source == cause.source
                && r.events[0].created_at == now
            &&& change.moved && cause.reason.len() <= 300 ==> r.events[0].reason == cause.reason
            &&& change.moved && cause.group_id.len() <= 64 ==> r.events[0].group_id
                == cause.group_id
            &&& change.moved && cause.message_id.len() <= 64 ==> r.events[0].message_id
                == cause.message_id
            &&& change.moved ==> forall|i: int|
                0 < i < r.events.len() ==> #[trigger] r.events[i] == s.events[i - 1]
            &&& change.moved && s.events.len() < MAX_EVENTS ==> r.events.len() == s.events.len()
                + 1
        }),
{
}

/// Whether a reply touches the mood is for the settings to say, and what it touches it with
/// for what happened.
pub proof fn law_a_reply_touches_the_mood(
    enabled: bool,
    heuristic: bool,
    skip: bool,
    facts: ReplyFacts,
)
    ensures
        ({
            let t = mood_touch(enabled, heuristic, skip, facts);
            &&& t is Some <==> enabled
            &&& enabled ==> (t->0.heuristic <==> heuristic && !skip)
            &&& enabled && facts.moderation_hit ==> t->0.source == "moderation"@
            &&& enabled && !facts.moderation_hit ==> t->0.source == "reply"@
            &&& enabled && heuristic && !skip && facts.moderation_hit ==> t->0.reason
                == "处理了可能违规或令人不适的内容"@
            &&& enabled && heuristic && !skip && !facts.moderation_hit && facts.active
                ==> t->0.reason == "主动接上了群聊话题"@
            &&& enabled && heuristic && !skip && !facts.moderation_hit && !facts.active
                && facts.direct ==> t->0.reason == "完成了一次直接互动"@
            &&& enabled && heuristic && !skip && !facts.moderation_hit && !facts.active
                && !facts.direct ==> t->0.reason == "完成了一次普通回复"@
        }),
{
}

/// What the model says of the mood counts where it may, with its reason, and is no
/// interaction.
pub proof fn law_the_models_word_on_the_mood(
    enabled: bool,
    enrich: bool,
    group_id: Seq<char>,
    message_id: Seq<char>,
    reason: Seq<char>,
)
    ensures
        ({
            let c = llm_cause(enabled, enrich, group_id, message_id, reason);
            &&& c is Some <==> enabled && enrich
            &&& c is Some ==> c->0.reason == reason && c->0.group_id == group_id
                && c->0.message_id == message_id && !c->0.interaction && c->0.source == "llm"@
        }),
{
}

/// The night goes from eleven to six, the morning from six to ten, and the day fills the
/// rest.
pub proof fn law_parts_of_the_day(hour: u32, r: DayPart)
    requires
        call_ensures(day_part, (hour,), r),
    ensures
        r == DayPart::Night <==> hour >= 23 || hour <= 5,
        r == DayPart::Morning <==> hour == 6 || hour == 7 || hour == 8 || hour == 9,
        r == DayPart::Day <==> 10 <= hour <= 22,
{
}

/// The place where a mood is kept differs by account, and its name by persona.
pub proof fn law_moods_are_kept_apart(
    a: &str,
    b: &str,
    ra: ScopeKey,
    rb: ScopeKey,
    ka: String,
    kb: String,
)
    requires
        call_ensures(scope_for, (a,), ra),
        call_ensures(scope_for, (b,), rb),
        call_ensures(key_for, (a,), ka),
        call_ensures(key_for, (b,), kb),
    ensures
        ra@ == rb@ ==> a@ == b@,
        ka@ == kb@ ==> a@ == b@,
        ra@.account_id == a@,
{
    let p = "emotion_state:"@;
    if ka@ == kb@ {
        assert(ka@.subrange(p.len() as int, ka@.len() as int) =~= a@);
        assert(kb@.subrange(p.len() as int, kb@.len() as int) =~= b@);
    }
}

/// A mood that is set by hand says why, and a reset either forgets everything or only notes
/// the time.
pub proof fn law_moods_by_hand(
    reason: &str,
    r: MoodCause,
    s: Option<MoodState>,
    clear: bool,
    now: i64,
    t: Option<MoodState>,
)
    requires
        call_ensures(dashboard_set, (reason,), r),
        call_ensures(dashboard_reset, (s, clear, now), t),
    ensures
        trim(reason@).len() > 0 ==> r@.reason == trim(reason@),
        r@.reason.len() > 0,
        !r@.interaction,
        clear ==> t is None,
        !clear ==> t is Some && t->0@.updated_at == now,
        !clear && s is Some ==> t->0@.events == s->0@.events && t->0@.daily_interactions
            == s->0@.daily_interactions && t->0@.last_interaction_at == s->0@.last_interaction_at
            && t->0@.daily_date == s->0@.daily_date,
        !clear && s is None ==> t->0@.events.len() == 0 && t->0@.daily_interactions == 0,
{
    reveal_strlit("dashboard 手动设值");
}

} // verus!
