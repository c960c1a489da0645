use gqy::arguments::{Argument, Arguments, Entry, Scalar};
use gqy::message_history::deletion::LiveMessage;
use gqy::platform::{Conversation, ConversationKind};
use gqy::real_context::active_judgement_skip::{
    apply_active_judgement_skip_editor_changes, contains, load_ids, mutate, qq_id, register_tools,
    require_live_message, response_text, run_tool, validate_ids, IdCache, Mutation,
    MutationOutcome, CACHE_RECHECK_MS, MAX_SKIP_USER_IDS,
};
use gqy::real_context::affection::{
    apply_tags, apply_update, build_update_prompt, clean_tags, ensure_profile, is_new_day,
    keeps_profile, load_profile, new_profile, normalize_profile, profile_key, profile_scope,
    query_relationship, required_user_id, run_update, tag_changes, touch_after_reply, update_job,
    update_answer, update_next, ChangeNumbers, Direction, Profile, ProfileLimits, PromptParts, Sender, Update,
    UpdateEvent, UpdateSettings, UpdateState, UpdateStep, MAX_STORED_EVENTS, MAX_TAG_CHARS,
};
use gqy::real_context::affection_log::{
    format_affection_failure_log, format_affection_initialized_log, format_affection_skipped_log,
    tag_change_suffix,
};
use gqy::real_context::decision_log::{
    format_active_reply_skip_log_for, format_log_message, LogWords, TriggerWords,
};
use gqy::real_context::emotion;
use gqy::real_context::judge::{
    after_attempt, attempt_prompt, choose_object, decode_base64_text, endpoint_label, endpoint_timeout_seconds,
    extract_json_object, flexible_bool, format_event_metadata, judge_answer, judge_failure,
    judge_persona_prompt, metadata_of, model_reply_adjustment, moderation_check_enabled, normalize_moderation, normalize_result,
    parse_json_object, sanitize_model_field, should_reply, signed_current_message, Adjustment,
    AfterAttempt, JudgedEvent, PersonaSource, QuotedMessage, JUDGE_SYSTEM_PROMPT,
    MODERATION_JUDGE_GUIDANCE, MODERATION_SCORING_GUIDANCE, NORMAL_JUDGE_MODE,
    REPLY_DECISION_GUIDANCE,
};
use gqy::real_context::locale::Locale;
use gqy::real_context::pending::{
    accepted_reactions, add_reactions, normalize_active_targets, ActiveReplyTarget, PendingRuntime,
    Reaction, TriggerKind,
};
use gqy::real_context::targeting::{format_mentioned_users, Mention};

fn text(s: &str) -> Argument {
    Argument::One(Scalar::Text(s.to_string()))
}

fn arguments(list: Vec<(&str, Argument)>) -> Arguments {
    Arguments {
        entries: list
            .into_iter()
            .map(|(key, value)| Entry { key: key.to_string(), value })
            .collect(),
    }
}

fn group() -> Conversation {
    Conversation {
        platform: "onebot".to_string(),
        account_id: "10000".to_string(),
        kind: ConversationKind::Group,
        conversation_id: "20000".to_string(),
    }
}

#[test]
fn relationship_query_requires_user_id() {
    assert!(required_user_id(&arguments(vec![])).is_err());
    assert!(required_user_id(&arguments(vec![("user_id", text("  "))])).is_err());
    assert!(required_user_id(&arguments(vec![(
        "user_id",
        Argument::One(Scalar::Unsigned(123))
    )]))
    .is_err());
    assert_eq!(
        required_user_id(&arguments(vec![("user_id", text(" QQ:2606945861 "))])).unwrap(),
        "2606945861"
    );
}

#[test]
fn affection_profile_keys_are_isolated_by_persona() {
    assert_ne!(profile_key("default"), profile_key("Group Persona.md"));
    assert!(profile_key("default").starts_with("affection_profile"));
    assert!(load_profile(false, &profile_key("default")));
    assert!(!load_profile(false, &profile_key("Group Persona.md")));
    assert_eq!(profile_scope(&group(), "7").conversation_kind, "affection");
}

#[test]
fn model_tags_are_bounded_and_event_tags_are_rejected() {
    let tags = clean_tags(
        &vec![
            " 技术求助 ".to_string(),
            "Rust 用户".to_string(),
            "Rust 用户".to_string(),
            "x".repeat(40),
        ],
        2,
    );
    assert_eq!(tags[0], "Rust 用户");
    assert_eq!(tags.len(), 2);
    assert!(tags[1].chars().count() <= MAX_TAG_CHARS);
}

#[test]
fn removing_and_readding_the_same_tag_is_not_a_change() {
    let previous = vec!["Rust 用户".to_string()];
    let (added, removed) = tag_changes(&previous, &vec!["Rust 用户".to_string()]);
    assert!(added.is_empty());
    assert!(removed.is_empty());
    let update = apply_tags(&previous, &previous, &previous, 5);
    assert_eq!(update.tags, previous);
    assert!(update.added.is_empty() && update.removed.is_empty());
}

#[test]
fn affection_logs_are_bilingual_and_keep_operational_ids() {
    let initialized = |locale| {
        format_affection_initialized_log(
            "3927564101",
            "130515298",
            "Shiroha_xyz",
            "3888705871",
            "default",
            "10.000",
            "neutral",
            locale,
        )
    };
    let chinese = initialized(Locale::Zh);
    assert!(chinese.starts_with("【好感度：初始化】\n"));
    assert!(chinese.contains("用户：Shiroha_xyz（QQ 3888705871）"));
    assert!(chinese.contains("初始关系：中立"));
    assert!(chinese.contains("初始分数：10.000"));

    let english = initialized(Locale::En);
    assert!(english.starts_with("[Affection: initialized]\n"));
    assert!(english.contains("Initial relationship: neutral"));
    assert!(english.contains("Initial score: 10.000"));

    let skipped = format_affection_skipped_log(
        "3927564101",
        "130515298",
        "Shiroha_xyz",
        "3888705871",
        "low_confidence",
        &Some("0.42".to_string()),
        &Some("0.70".to_string()),
        Locale::Zh,
    );
    assert!(skipped.contains("原因：置信度不足"));
    assert!(skipped.contains("置信度：0.42"));
    assert!(skipped.contains("阈值：0.70"));

    let failed = format_affection_failure_log(
        "3927564101",
        "130515298",
        "Shiroha_xyz",
        "3888705871",
        "model_call",
        "request\ntimeout",
        200,
        Locale::En,
    );
    assert!(failed.starts_with("[Affection: update failed]\n"));
    assert!(failed.contains("Error: request timeout"));
    assert!(tag_change_suffix(&Vec::new(), &Vec::new()).is_empty());
}

fn limits() -> ProfileLimits {
    ProfileLimits { name_chars: 64, note_chars: 500, reason_chars: 200, max_tags: 3 }
}

fn sender() -> Sender {
    Sender {
        sender_id: "30000".to_string(),
        display_name: "测试\n用户".to_string(),
        conversation: group(),
    }
}

fn numbers() -> ChangeNumbers {
    ChangeNumbers { delta: 1, score_before: 2, score_after: 3, confidence: 4 }
}

fn update(moved: bool, add: Vec<&str>, remove: Vec<&str>) -> Update {
    Update {
        today: "2024-01-02".to_string(),
        numbers: numbers(),
        moved,
        reason: "友善".to_string(),
        tags_add: add.into_iter().map(|s| s.to_string()).collect(),
        tags_remove: remove.into_iter().map(|s| s.to_string()).collect(),
        message_id: "m".to_string(),
    }
}

fn profile() -> Profile {
    new_profile(&sender(), 64, 100)
}

#[test]
fn a_profile_knows_who_and_where() {
    let (p, created) = ensure_profile(None, None, &sender(), &limits(), 100);
    assert!(created);
    assert_eq!(p.sender_name, "测试 用户");
    assert_eq!(p.last_group_id, "20000");
    assert_eq!(p.created_at, 100);
    let (p, created) = touch_after_reply(Some(p), None, &sender(), &limits(), true, 200);
    assert!(!created);
    assert_eq!((p.message_count, p.bot_reply_count, p.direct_interaction_count), (1, 1, 1));
    assert_eq!(p.created_at, 100);
    assert_eq!(p.updated_at, 200);
    assert!(keeps_profile(true, "7"));
    assert!(!keeps_profile(true, "  "));
    assert!(!keeps_profile(false, "7"));
}

#[test]
fn an_evaluation_changes_the_profile_and_is_remembered() {
    assert!(apply_update(None, None, "30000", &limits(), &update(true, vec![], vec![]), 5).is_none());

    let done = apply_update(
        Some(profile()),
        None,
        "30000",
        &limits(),
        &update(false, vec!["Rust 用户", "猫"], vec![]),
        500,
    )
    .unwrap();
    assert_eq!(done.profile.tags, vec!["Rust 用户", "猫"]);
    assert_eq!(done.profile.events.len(), 1);
    assert_eq!(done.profile.events[0].numbers, numbers());
    assert_eq!(done.profile.events[0].tags_add, vec!["Rust 用户", "猫"]);
    assert_eq!(done.profile.daily_date, "2024-01-02");
    assert_eq!(done.profile.updated_at, 500);
    assert!(!is_new_day(&done.profile, "2024-01-02"));
    assert!(is_new_day(&done.profile, "2024-01-03"));

    let again = apply_update(
        Some(done.profile),
        None,
        "30000",
        &limits(),
        &update(false, vec!["猫"], vec![]),
        600,
    )
    .unwrap();
    assert_eq!(again.profile.events.len(), 1);
}

#[test]
fn a_member_that_is_not_evaluated_stays_as_it_is() {
    let mut p = profile();
    p.auto_update_enabled = false;
    assert_eq!(run_update(&Some(p)), Some("auto_update_disabled"));
    let mut p = profile();
    p.auto_update_enabled = false;
    let done =
        apply_update(Some(p), None, "30000", &limits(), &update(true, vec!["猫"], vec![]), 500)
            .unwrap();
    assert!(done.tags.is_none());
    assert!(done.profile.tags.is_empty());
    assert!(done.profile.events.is_empty());
    assert_eq!(run_update(&None), Some("profile_missing"));
    assert_eq!(run_update(&Some(profile())), None);
}

#[test]
fn changes_of_a_relationship_are_bounded() {
    let mut p = profile();
    for at in 0..(MAX_STORED_EVENTS as i64 + 5) {
        p = apply_update(Some(p), None, "30000", &limits(), &update(true, vec![], vec![]), at)
            .unwrap()
            .profile;
    }
    assert_eq!(p.events.len(), MAX_STORED_EVENTS);
    assert_eq!(p.events[0].created_at, MAX_STORED_EVENTS as i64 + 4);
    let p = normalize_profile(p, "30000", &limits());
    assert_eq!(p.events.len(), MAX_STORED_EVENTS);
}

#[test]
fn a_query_tells_no_numbers_and_only_the_newest() {
    let unknown = query_relationship(None, "7", &limits(), "neutral", &Vec::new());
    assert_eq!(unknown.tier, "neutral");
    assert!(unknown.tags.is_empty() && unknown.recent_changes.is_empty());
    let mut p = profile();
    for at in 0..5 {
        p = apply_update(Some(p), None, "30000", &limits(), &update(true, vec![], vec![]), at)
            .unwrap()
            .profile;
    }
    let told: Vec<(Direction, String)> =
        (0..5).map(|i| (Direction::Closer, format!("t{i}"))).collect();
    let r = query_relationship(Some(p), "30000", &limits(), "friendly", &told);
    assert_eq!(r.recent_changes.len(), 3);
    assert_eq!(r.recent_changes[0].direction, "closer");
    assert_eq!(r.recent_changes[0].time, "t0");
    assert_eq!(r.recent_changes[0].reason, "友善");
    assert_eq!(r.recent_changes[0].tags_added, None);
}

#[test]
fn evaluations_take_place_in_groups() {
    let event = Some(("你好".to_string(), "m1".to_string()));
    let job = update_job(true, ConversationKind::Group, &event, "名", "答", 10, 1).unwrap();
    assert_eq!(job.current_text, "你");
    assert_eq!(job.message_id, "m1");
    assert!(update_job(true, ConversationKind::Private, &event, "名", "答", 10, 1).is_none());
    assert!(update_job(false, ConversationKind::Group, &event, "名", "答", 10, 1).is_none());
    assert!(update_job(true, ConversationKind::Group, &None, "名", "答", 10, 1).is_none());
    let prompt = build_update_prompt(&PromptParts {
        delta_min: "-6.000".to_string(),
        delta_max: "2.000".to_string(),
        with_emotion: true,
        sender_name: "名".to_string(),
        sender_id: "30000".to_string(),
        level: "中立".to_string(),
        attitude: "普通".to_string(),
        note: "".to_string(),
        tags: "无".to_string(),
        history: "".to_string(),
        current_text: "你好".to_string(),
        bot_reply: "嗯".to_string(),
    });
    assert!(prompt.contains("-6.000 到 2.000"));
    assert!(prompt.contains("备注：无"));
    assert!(prompt.contains("valence_delta"));
}

fn mood_change(moved: bool) -> emotion::MoodChange {
    emotion::MoodChange {
        numbers: emotion::MoodNumbers {
            delta_valence: 1,
            delta_arousal: 2,
            valence_before: 3,
            valence_after: 4,
            arousal_before: 5,
            arousal_after: 6,
        },
        moved,
        label_before: "平静".to_string(),
        label_after: "愉快".to_string(),
    }
}

#[test]
fn a_mood_counts_the_day_and_remembers_its_changes() {
    let facts = emotion::ReplyFacts {
        direct: true,
        active: false,
        moderation_hit: false,
        reply_chars: 1,
    };
    let touch = emotion::touch_after_reply(true, true, false, &facts).unwrap();
    assert_eq!(touch.reason, "完成了一次直接互动");
    let cause = emotion::reply_cause(&touch, "20000", &None);
    let mut s = emotion::new_mood();
    for at in 0..150 {
        s = emotion::apply_delta(s, &cause, &mood_change(true), "2024-01-02", at);
    }
    assert_eq!(s.daily_interactions, 150);
    assert_eq!(s.last_interaction_at, 149);
    assert_eq!(s.events.len(), emotion::MAX_EVENTS);
    assert_eq!(s.events[0].created_at, 149);
    let s = emotion::apply_delta(s, &cause, &mood_change(false), "2024-01-03", 200);
    assert_eq!(s.daily_interactions, 1);
    assert_eq!(s.events[0].created_at, 149);
    let manual = emotion::dashboard_set("  ");
    assert_eq!(manual.reason, "dashboard 手动设值");
    let s = emotion::apply_delta(s, &manual, &mood_change(true), "2024-01-03", 201);
    assert_eq!(s.daily_interactions, 1);
    assert_eq!(s.events[0].source, "manual");
    let s = emotion::dashboard_reset(Some(s), false, 300).unwrap();
    assert_eq!(s.updated_at, 300);
    assert!(emotion::dashboard_reset(Some(s), true, 300).is_none());
}

#[test]
fn moods_have_words_and_say_nothing_when_usual() {
    assert_eq!(emotion::label_en("烦躁"), "irritable");
    assert_eq!(emotion::label_en("平静"), "calm");
    assert_eq!(emotion::tone_hint("平稳", "普通"), None);
    assert_eq!(
        emotion::tone_hint("不错", "普通").unwrap(),
        "<internal-state>心情:不错;精神:普通。</internal-state>"
    );
    assert!(matches!(emotion::day_part(6), emotion::DayPart::Morning));
    assert!(matches!(emotion::day_part(10), emotion::DayPart::Day));
    assert!(matches!(emotion::day_part(23), emotion::DayPart::Night));
    assert!(matches!(emotion::day_part(5), emotion::DayPart::Night));
    assert_eq!(emotion::key_for("default"), "emotion_state:default");
    assert_eq!(emotion::scope_for("1").conversation_kind, "emotion");
    assert!(emotion::apply_llm_delta(true, false, "g", "m", "r").is_none());
    assert!(emotion::apply_llm_delta(true, true, "g", "m", "r").is_some());
}

fn judged_event() -> JudgedEvent {
    JudgedEvent {
        message_id: "90".to_string(),
        group_name: Some("测试群".to_string()),
        sender_id: "7".to_string(),
        sender_name: "seven".to_string(),
        mentioned_bot: false,
        reply_to_message_id: Some("89".to_string()),
        replied: Some(QuotedMessage {
            message_id: "89".to_string(),
            sender_id: "8".to_string(),
            sender_name: "eight".to_string(),
            text: "quoted".to_string(),
        }),
        mentioned_user_ids: vec!["9".to_string()],
        mentioned_users: vec![Mention {
            user_id: "9".to_string(),
            display_name: Some("yuyi".to_string()),
        }],
    }
}

#[test]
fn event_metadata_covers_group_sender_reply_and_mentions() {
    let event = judged_event();
    let visible: serde_json::Value =
        serde_json::from_str(&format_event_metadata(&event, "quoted", true)).unwrap();
    assert_eq!(visible["group_name"], "测试群");
    assert_eq!(visible["sender_id"], "7");
    assert_eq!(visible["reply_to"]["sender_id"], "8");
    assert_eq!(visible["reply_to"]["content"], "quoted");
    assert_eq!(visible["mentioned_users"][0]["user_id"], "9");
    assert_eq!(visible["mentioned_users"][0]["display_name"], "yuyi");
    assert_eq!(visible["mentioned_bot"], false);

    let hidden: serde_json::Value =
        serde_json::from_str(&format_event_metadata(&event, "quoted", false)).unwrap();
    assert!(hidden.get("sender_id").is_none());
    assert!(hidden["reply_to"].get("sender_id").is_none());
    assert!(hidden["mentioned_users"][0].get("user_id").is_none());
    assert_eq!(hidden["mentioned_users"][0]["display_name"], "yuyi");
}

#[test]
fn event_metadata_preserves_bot_mention_when_user_ids_are_hidden() {
    let mut event = judged_event();
    event.mentioned_bot = true;
    let hidden: serde_json::Value =
        serde_json::from_str(&format_event_metadata(&event, "quoted", false)).unwrap();
    assert_eq!(hidden["mentioned_bot"], true);
}

#[test]
fn event_metadata_is_written_with_its_marks_escaped() {
    let mut event = judged_event();
    event.sender_name = "a\"b\n".to_string();
    event.replied = None;
    let text = format_event_metadata(&event, "", true);
    let told: serde_json::Value = serde_json::from_str(&text).unwrap();
    assert_eq!(told["message_id"], "90");
    assert_eq!(told["sender_name"], "a\"b\n");
    assert_eq!(told["reply_to_message_id"], "89");
    assert!(told.get("reply_to").is_none());
    let fields = metadata_of(&event, "", true);
    assert_eq!(fields.sender_id.as_deref(), Some("7"));
    assert!(fields.reply_to.is_none());
}

#[test]
fn the_answer_of_the_judge_is_read_from_its_object() {
    let nested = judge_answer(
        "```json\n{\"reply\": {\"relevance\": 7, \"reason\": \"x\"}, \
         \"moderation\": {\"violation\": true, \"evidence\": [\"a\", 1, null]}}\n```",
    )
    .unwrap();
    assert!(matches!(nested.reply.get("relevance"), Some(Argument::One(Scalar::Unsigned(7)))));
    assert!(
        matches!(nested.reply.get("reason"), Some(Argument::One(Scalar::Text(s))) if s == "x")
    );
    assert!(nested.reply.get("moderation").is_none());
    assert!(matches!(nested.moderation.get("violation"), Some(Argument::One(Scalar::Bool(true)))));
    match nested.moderation.get("evidence") {
        Some(Argument::List(items)) => {
            assert_eq!(items.len(), 3);
            assert!(matches!(&items[0], Scalar::Text(s) if s == "a"));
            assert!(matches!(items[1], Scalar::Unsigned(1)));
            assert!(matches!(items[2], Scalar::Null));
        }
        _ => panic!("a list"),
    }
    let flat = judge_answer("so: {\"relevance\": -2, \"timing\": 0.5, \"reply\": 3}").unwrap();
    assert!(matches!(flat.reply.get("relevance"), Some(Argument::One(Scalar::Negative(-2)))));
    assert!(
        matches!(flat.reply.get("timing"), Some(Argument::One(Scalar::Fraction(s))) if s == "0.5")
    );
    assert!(flat.moderation.entries.is_empty());
    assert!(judge_answer("no object").is_err());
    assert!(judge_answer("[1]").is_err());
}

#[test]
fn the_answer_of_an_evaluation_may_speak_of_the_mood() {
    let both =
        update_answer("{\"delta\": 1, \"emotion\": {\"valence_delta\": 0.1}}").unwrap();
    assert!(matches!(both.answer.get("delta"), Some(Argument::One(Scalar::Unsigned(1)))));
    assert!(both.emotion.unwrap().get("valence_delta").is_some());
    assert!(update_answer("{\"emotion\": \"calm\"}").unwrap().emotion.is_none());
    assert!(update_answer("nothing").is_err());
}

#[test]
fn judge_prompts_are_role_agnostic_and_target_aware() {
    assert!(!JUDGE_SYSTEM_PROMPT.contains("GQY"));
    assert!(JUDGE_SYSTEM_PROMPT.contains("never assume a fixed name or persona"));
    assert!(NORMAL_JUDGE_MODE.contains("expected responder"));
    assert!(REPLY_DECISION_GUIDANCE.contains("other group members"));
    assert!(REPLY_DECISION_GUIDANCE.contains("open to any group member"));
    assert!(REPLY_DECISION_GUIDANCE.contains("lean toward not replying"));
    assert!(!MODERATION_JUDGE_GUIDANCE.contains("proactive reply is appropriate"));
    assert!(MODERATION_SCORING_GUIDANCE.contains("0 for all five dimensions"));
    assert!(!MODERATION_SCORING_GUIDANCE.contains("expected responder"));
}

#[test]
fn judge_persona_prompt_prefers_custom_prompt_and_lazily_inherits() {
    for judge_include_persona in [true, false] {
        match judge_persona_prompt("  custom persona\n", judge_include_persona) {
            PersonaSource::Custom(persona) => assert_eq!(persona, "custom persona"),
            _ => panic!("inherited persona loaded"),
        }
    }
    assert!(matches!(judge_persona_prompt(" \n ", true), PersonaSource::Inherited));
    assert!(matches!(judge_persona_prompt("", false), PersonaSource::Nothing));
}

#[test]
fn enabled_moderation_is_always_part_of_the_normal_judge() {
    assert!(moderation_check_enabled(true));
    assert!(!moderation_check_enabled(false));
}

/// How many characters of a text of each length must be such as can be shown, for a
/// share of them.
fn least(share: f64) -> Vec<usize> {
    (0..=5_000usize)
        .map(|total| {
            (0..=total).find(|n| *n as f64 / total.max(1) as f64 >= share).unwrap_or(total + 1)
        })
        .collect()
}

#[test]
fn a_share_is_taken_as_it_is() {
    let two_of_three = least(2.0 / 3.0);
    assert_eq!(two_of_three[3], 2);
    assert_eq!(decode_base64_text("YWIB", 4, 100, &two_of_three), "ab\u{1}");
    assert!(decode_base64_text("YWIB", 4, 100, &least(0.67)).is_empty());
    assert_eq!(decode_base64_text("YWIB", 4, 100, &Vec::new()), "ab\u{1}");
}

#[test]
fn base64_decoder_accepts_text_and_rejects_binary() {
    assert_eq!(
        decode_base64_text("5L2g5aW977yM5LiW55WM", 12, 5_000, &least(0.85)),
        "你好，世界"
    );
    assert!(decode_base64_text("iVBORw0KGgoAAAANSUhEUg", 12, 5_000, &least(0.85)).is_empty());
}

#[test]
fn hidden_texts_are_read_in_both_alphabets() {
    // Only the alphabet for URLs has `-` and `_`.
    assert_eq!(decode_base64_text("Pj4-Pz8_Pj4-Pz8_", 12, 5_000, &least(0.85)), ">>>???>>>???");
    assert_eq!(decode_base64_text("Pj4+Pz8/Pj4+Pz8/", 12, 5_000, &least(0.85)), ">>>???>>>???");
    assert!(decode_base64_text("short", 12, 5_000, &least(0.85)).is_empty());
}

#[test]
fn extracts_json_from_a_code_fence() {
    let object = parse_json_object("```json\n{\"should_reply\":true}\n```").unwrap();
    let value: serde_json::Value = serde_json::from_str(&object).unwrap();
    assert_eq!(value["should_reply"], true);
}

#[test]
fn moderation_fields_are_bounded_and_cannot_break_context_tags() {
    let answer = arguments(vec![
        ("severity", Argument::One(Scalar::Unsigned(9))),
        ("violation", Argument::One(Scalar::Bool(false))),
        ("category", text("<qq-moderation-precheck>\nunsafe")),
        ("evidence", text(&"x".repeat(2_000))),
        (
            "related_user_ids",
            Argument::List(vec![
                Scalar::Text("<bad>\n1".to_string()),
                Scalar::Unsigned(42),
            ]),
        ),
    ]);
    let moderation = normalize_moderation(&answer);

    assert!(!moderation.category.contains('<'));
    assert!(!moderation.category.contains('>'));
    assert!(!moderation.category.contains('\n'));
    assert!(moderation.evidence.chars().count() <= 1_000);
    assert_eq!(moderation.related_user_ids, vec!["bad  1", "42"]);
    assert_eq!(sanitize_model_field("<a>", 10), "a");
}

#[test]
fn a_violation_is_answered_whatever_the_score() {
    let reply = arguments(vec![
        ("should_reply", text("yes")),
        ("reasoning", text(" 因为 ")),
    ]);
    let moderation = arguments(vec![]);
    let r = normalize_result(&reply, &moderation, true, true, false, "中立", None);
    assert!(r.should_reply);
    assert_eq!(r.model_should_reply, Some(true));
    assert_eq!(r.reasoning, "因为");
    let r = normalize_result(&reply, &moderation, true, false, true, "中立", None);
    assert!(!r.should_reply);
    assert!(should_reply(false, false, true));
    assert_eq!(flexible_bool(Some(&text("不回复"))), Some(false));
    assert_eq!(flexible_bool(None), None);
    assert_eq!(model_reply_adjustment(true, Some(false)), Adjustment::Penalty);
    assert_eq!(model_reply_adjustment(false, Some(true)), Adjustment::Nothing);
}

#[test]
fn the_judge_is_asked_again_as_often_as_allowed() {
    assert_eq!(attempt_prompt("问", 0), "问");
    assert!(attempt_prompt("问", 1).starts_with("问\n\nThe previous output"));
    assert!(matches!(after_attempt(0, 1, true), AfterAttempt::Accept));
    assert!(matches!(after_attempt(0, 1, false), AfterAttempt::Retry));
    assert!(matches!(after_attempt(1, 1, false), AfterAttempt::GiveUp));
    assert!(judge_failure("  x ").ends_with(": x"));
    assert_eq!(endpoint_timeout_seconds(30, 0), 30);
    assert_eq!(endpoint_timeout_seconds(30, 10), 10);
    assert_eq!(endpoint_timeout_seconds(0, 10), 1);
    let some = |s: &str| Some(s.to_string());
    assert_eq!(endpoint_label(&some("p"), &some("m")).unwrap(), "p / m");
    assert_eq!(endpoint_label(&None, &some("m")).unwrap(), "m");
    assert_eq!(endpoint_label(&None, &None), None);
    assert!(!signed_current_message(&None, "你好", true).is_empty());
}

fn target(id: &str, content: &str, supplemental: bool) -> ActiveReplyTarget {
    ActiveReplyTarget {
        message_id: id.to_string(),
        sender_id: "30000".to_string(),
        content: content.to_string(),
        supplemental,
    }
}

#[test]
fn active_target_limits_keep_recent_text_and_supplements() {
    let mut targets = (0..12)
        .map(|index| target(&format!("text-{index}"), &format!("text {index}"), false))
        .collect::<Vec<_>>();
    targets.extend((0..8).map(|index| target(&format!("image-{index}"), "", true)));

    normalize_active_targets(&mut targets, "30000");

    assert_eq!(
        targets.iter().filter(|target| !target.supplemental).count(),
        8
    );
    assert_eq!(
        targets.iter().filter(|target| target.supplemental).count(),
        5
    );
    assert!(!targets.iter().any(|target| target.message_id == "text-0"));
    assert!(targets.iter().any(|target| target.message_id == "text-11"));
    assert!(!targets.iter().any(|target| target.message_id == "image-0"));
    assert!(targets.iter().any(|target| target.message_id == "image-7"));
}

#[test]
fn the_mention_line_marks_the_bot_itself_and_says_nothing_when_absent() {
    let mentions = vec![
        Mention {
            user_id: "10000".to_string(),
            display_name: Some("GQY".to_string()),
        },
        Mention {
            user_id: "40000".to_string(),
            display_name: Some("yuyi".to_string()),
        },
    ];
    let ids = vec!["10000".to_string(), "40000".to_string()];

    let rendered =
        format_mentioned_users(&mentions, &ids, true, &Some("10000".to_string())).unwrap();
    assert_eq!(rendered, "[you]、yuyi(QQ:40000)");

    let others = vec![Mention {
        user_id: "40000".to_string(),
        display_name: Some("yuyi".to_string()),
    }];
    let rendered = format_mentioned_users(
        &others,
        &vec!["40000".to_string()],
        true,
        &Some("10000".to_string()),
    )
    .unwrap();
    assert_eq!(rendered, "yuyi(QQ:40000)");
    assert!(!rendered.contains("you"));

    let rendered = format_mentioned_users(&mentions, &ids, true, &None).unwrap();
    assert_eq!(rendered, "GQY(QQ:10000)、yuyi(QQ:40000)");
    assert_eq!(format_mentioned_users(&Vec::new(), &Vec::new(), true, &None), None);
}

#[test]
fn supersede_inherits_targets_only_for_the_same_sender() {
    let mut runtime = PendingRuntime::new();
    let first = runtime.register_committed_pending(
        "s",
        "30000",
        TriggerKind::Probability,
        vec![Reaction { message_id: "m".to_string(), reaction_id: "1".to_string() }],
        vec![target("m", "x", false)],
        100,
    );
    let (none, _) = runtime.commit_direct_reply("s", "other-user", 101, true, 60);
    assert!(none.is_empty());
    assert!(runtime.is_current_pending("s", "30000", first));
    let (reactions, inherited) = runtime.commit_direct_reply("s", "30000", 102, true, 60);
    assert_eq!(reactions.len(), 1);
    assert_eq!(inherited.len(), 1);
    assert_eq!(inherited[0].sender_id, "30000");
}

#[test]
fn a_newer_answer_takes_the_place_of_an_older_one() {
    let mut runtime = PendingRuntime::new();
    let a = runtime.register_committed_pending(
        "s",
        "7",
        TriggerKind::Direct,
        Vec::new(),
        Vec::new(),
        1,
    );
    let b = runtime.register_committed_pending(
        "s",
        "7",
        TriggerKind::Direct,
        Vec::new(),
        Vec::new(),
        2,
    );
    assert_ne!(a, b);
    assert!(!runtime.is_current_pending("s", "7", a));
    assert!(runtime.is_current_pending("s", "7", b));
    assert!(!runtime.fail_current_attempt("s", "7", a, true));
    assert!(!runtime.drop_pending("s", "7", a));
    assert!(runtime.fail_current_attempt("s", "7", b, true));
    assert!(!runtime.is_current_pending("s", "7", b));
    assert!(runtime.clear_cancelled_pending("s", "7").is_empty());
}

#[test]
fn reactions_that_were_accepted_are_kept() {
    let ids = vec!["1".to_string(), "2".to_string()];
    let planned = add_reactions(true, "m", &ids);
    assert_eq!(planned.len(), 2);
    assert!(add_reactions(false, "m", &ids).is_empty());
    assert!(add_reactions(true, "", &ids).is_empty());
    let kept = accepted_reactions(&planned, &vec![false, true]);
    assert_eq!(kept.len(), 1);
    assert_eq!(kept[0].reaction_id, "2");
}

#[test]
fn an_answer_is_taken_out_once() {
    let mut runtime = PendingRuntime::new();
    let put = |runtime: &mut PendingRuntime, key: &str, sender: &str| {
        runtime.register_committed_pending(
            key,
            sender,
            TriggerKind::Direct,
            Vec::new(),
            Vec::new(),
            0,
        )
    };
    let a = put(&mut runtime, "k", "a");
    let b = put(&mut runtime, "k", "b");
    let elsewhere = put(&mut runtime, "other", "a");
    assert!(!runtime.drop_pending("k", "a", a + 100));
    assert!(runtime.is_current_pending("k", "a", a));
    assert!(runtime.drop_pending("k", "a", a));
    assert!(!runtime.is_current_pending("k", "a", a));
    assert!(!runtime.drop_pending("k", "a", a));
    assert!(runtime.is_current_pending("k", "b", b));
    assert!(runtime.is_current_pending("other", "a", elsewhere));
}

fn update_settings() -> UpdateSettings {
    UpdateSettings { limits: limits(), auto_tag: true, mood_enabled: true, mood_enrich: true }
}

fn evaluation_step(state: UpdateState, event: UpdateEvent) -> (UpdateState, UpdateStep) {
    update_next(&update_settings(), "30000", "20000", "m1", state, event)
}

#[test]
fn an_evaluation_asks_about_a_profile_that_is_evaluated() {
    let (state, step) = evaluation_step(UpdateState::Reading, UpdateEvent::Loaded(None));
    assert_eq!(state, UpdateState::Over);
    assert!(matches!(step, UpdateStep::Skip(reason) if reason == "profile_missing"));

    let mut off = profile();
    off.auto_update_enabled = false;
    let (state, step) = evaluation_step(UpdateState::Reading, UpdateEvent::Loaded(Some(off)));
    assert_eq!(state, UpdateState::Over);
    assert!(matches!(step, UpdateStep::Skip(reason) if reason == "auto_update_disabled"));

    let (state, step) = evaluation_step(UpdateState::Reading, UpdateEvent::Loaded(Some(profile())));
    assert_eq!(state, UpdateState::Asking);
    assert!(matches!(step, UpdateStep::Ask(p) if p.user_id == "30000"));

    let (state, step) = evaluation_step(UpdateState::Over, UpdateEvent::Loaded(None));
    assert_eq!(state, UpdateState::Over);
    assert!(matches!(step, UpdateStep::Nothing));
}

#[test]
fn the_mood_changes_however_sure_an_answer_is() {
    for sure in [true, false] {
        let answer = arguments(vec![("reason", text("友善"))]);
        let emotion = arguments(vec![("reason", text("聊得开心"))]);
        let event = UpdateEvent::Answered(answer, Some(emotion), sure);
        let (state, step) = evaluation_step(UpdateState::Asking, event);
        assert_eq!(state, UpdateState::Over);
        let UpdateStep::Change(end) = step else { panic!("a change") };
        let mood = end.mood.unwrap();
        assert_eq!(mood.source, "llm");
        assert_eq!(mood.reason, "聊得开心");
        assert_eq!((mood.group_id.as_str(), mood.message_id.as_str()), ("20000", "m1"));
        assert_eq!(end.evaluation.map(|e| e.reason).as_deref(), if sure { Some("友善") } else { None });
        assert_eq!(end.skipped.as_deref(), if sure { None } else { Some("low_confidence") });
    }
    let event = UpdateEvent::Answered(arguments(vec![]), None, true);
    let UpdateStep::Change(end) = evaluation_step(UpdateState::Asking, event).1 else {
        panic!("a change")
    };
    assert!(end.mood.is_none());
}

#[test]
fn mutations_are_idempotent_sorted_and_persistent() {
    let add = |ids: Vec<i64>, id: i64| mutate(&ids, id, Mutation::Add).unwrap();
    let (ids, outcome) = add(Vec::new(), 20);
    assert_eq!(outcome, MutationOutcome::Added);
    let (ids, outcome) = add(ids, 10);
    assert_eq!(outcome, MutationOutcome::Added);
    let (ids, outcome) = add(ids, 20);
    assert_eq!(outcome, MutationOutcome::AlreadyPresent);
    assert_eq!(ids, vec![10, 20]);

    let reopened = load_ids(&ids).unwrap();
    assert_eq!(reopened, vec![10, 20]);
    let (ids, outcome) = mutate(&reopened, 30, Mutation::Remove).unwrap();
    assert_eq!(outcome, MutationOutcome::NotPresent);
    let (ids, outcome) = mutate(&ids, 10, Mutation::Remove).unwrap();
    assert_eq!(outcome, MutationOutcome::Removed);
    assert_eq!(ids, vec![20]);
    assert!(contains(&ids, "20").unwrap());
    assert!(!contains(&ids, "10").unwrap());
}

#[test]
fn a_stored_list_is_a_set() {
    assert_eq!(load_ids(&vec![3, 1, 1]).unwrap(), vec![1, 3]);
    assert_eq!(load_ids(&vec![7; MAX_SKIP_USER_IDS + 1]).unwrap(), vec![7]);
    assert!(load_ids(&vec![3, 0]).is_err());
    let (ids, outcome) = mutate(&vec![5, 5], 5, Mutation::Remove).unwrap();
    assert_eq!(outcome, MutationOutcome::Removed);
    assert!(ids.is_empty());
    let (ids, outcome) = mutate(&vec![3, 1, 1], 2, Mutation::Add).unwrap();
    assert_eq!(outcome, MutationOutcome::Added);
    assert_eq!(ids, vec![1, 2, 3]);
    let edited =
        apply_active_judgement_skip_editor_changes(&vec![9, 4, 9], &vec![4], &vec![]).unwrap();
    assert_eq!(edited, vec![9]);
}

#[test]
fn editor_diff_preserves_unrelated_concurrent_changes() {
    let original = vec![10];
    let current = vec![10, 20];
    let updated =
        apply_active_judgement_skip_editor_changes(&current, &original, &vec![30]).unwrap();
    assert_eq!(updated, vec![20, 30]);
    let base = updated.clone();
    assert!(apply_active_judgement_skip_editor_changes(&updated, &base, &vec![0]).is_err());
}

#[test]
fn membership_cache_refreshes_after_peer_store_updates() {
    let mut cache = IdCache::new();
    assert!(cache.fresh("dir", 0).is_none());
    cache.store("dir", None, Vec::new(), 0);
    assert_eq!(cache.fresh("dir", 1), Some(Vec::new()));
    // Later the revision is asked for, and a new one makes the ids be read again.
    assert!(cache.fresh("dir", CACHE_RECHECK_MS).is_none());
    assert!(cache.confirm("dir", &Some("r1".to_string()), CACHE_RECHECK_MS).is_none());
    cache.store("dir", Some("r1".to_string()), vec![42], CACHE_RECHECK_MS);
    assert_eq!(cache.fresh("dir", CACHE_RECHECK_MS + 1), Some(vec![42]));
    assert_eq!(
        cache.confirm("dir", &Some("r1".to_string()), 2 * CACHE_RECHECK_MS),
        Some(vec![42])
    );
    assert!(cache.confirm("dir", &None, 3 * CACHE_RECHECK_MS).is_none());
    cache.invalidate_cache("dir");
    assert!(cache.fresh("dir", 0).is_none());
}

#[test]
fn tools_are_visible_only_to_effective_admins_and_are_writes() {
    assert!(!register_tools("onebot", false));
    assert!(register_tools("onebot", true));
}

fn live() -> Option<LiveMessage> {
    Some(LiveMessage {
        is_message: true,
        sender_id: "42".to_string(),
        conversation: group(),
    })
}

#[test]
fn tools_mutate_immediately_and_send_one_fixed_output() {
    let ok = || require_live_message(&live(), "42", &group());
    assert!(ok().is_ok());
    let added = run_tool(
        ok(),
        &arguments(vec![("qq_id", text("2477342916"))]),
        Some(Vec::new()),
        Mutation::Add,
    );
    assert!(added.ok);
    assert_eq!(added.ids, Some(vec![2477342916]));
    assert_eq!(added.message, "已加入跳过主动判断名单：2477342916");
    let removed = run_tool(
        ok(),
        &arguments(vec![("qq_id", Argument::One(Scalar::Unsigned(2477342916)))]),
        added.ids,
        Mutation::Remove,
    );
    assert_eq!(removed.ids, Some(Vec::new()));
    assert_eq!(removed.message, "已移出跳过主动判断名单：2477342916");
}

#[test]
fn handler_rechecks_admin_authority() {
    let output = run_tool(
        Err("no".to_string()),
        &arguments(vec![("qq_id", Argument::One(Scalar::Unsigned(99)))]),
        Some(Vec::new()),
        Mutation::Add,
    );
    assert_eq!(output.ok, false);
    assert_eq!(output.ids, None);
    assert_eq!(output.message, "操作失败");
}

#[test]
fn ids_are_positive_and_bounded_in_number() {
    assert!(validate_ids(&vec![1, 2]).is_ok());
    assert!(validate_ids(&vec![0]).is_err());
    assert!(validate_ids(&vec![-1]).is_err());
    let many: Vec<i64> = (1..=(MAX_SKIP_USER_IDS as i64 + 1)).collect();
    assert!(validate_ids(&many).is_err());
    assert!(qq_id(&arguments(vec![])).is_err());
    assert!(qq_id(&arguments(vec![("qq_id", text("abc"))])).is_err());
    assert_eq!(qq_id(&arguments(vec![("qq_id", text("99"))])), Ok(99));
    assert_eq!(
        response_text(MutationOutcome::Added, 5),
        "已加入跳过主动判断名单：5"
    );
}

#[test]
fn decisions_are_logged_in_both_languages() {
    let named = |label: &str| TriggerWords {
        label: label.to_string(),
        answered: String::new(),
        silent: String::new(),
    };
    let words = LogWords { direct: named("直接"), probability: named("概率") };
    let log = |locale| {
        let trigger = TriggerKind::Probability;
        format_active_reply_skip_log_for("1", "2", "名", "3", trigger, "冷却", &words, locale)
    };
    assert!(log(Locale::Zh).contains("触发：概率\n"));
    assert_ne!(log(Locale::Zh), log(Locale::En));
    assert!(log(Locale::Zh).contains("名"));
    assert!(!format_log_message("", Locale::Zh).is_empty());
}

#[test]
fn no_more_than_eight_hidden_texts_are_found() {
    let words = [
        "aGVsbG8gd29ybGQgMDE=",
        "aGVsbG8gd29ybGQgMDI=",
        "aGVsbG8gd29ybGQgMDM=",
        "aGVsbG8gd29ybGQgMDQ=",
        "aGVsbG8gd29ybGQgMDU=",
        "aGVsbG8gd29ybGQgMDY=",
        "aGVsbG8gd29ybGQgMDc=",
        "aGVsbG8gd29ybGQgMDg=",
        "aGVsbG8gd29ybGQgMDk=",
        "aGVsbG8gd29ybGQgMDE=",
    ];
    let found = decode_base64_text(&words.join(" "), 12, 5_000, &least(0.85));
    assert!(found.contains("hello world 01"));
    assert!(found.contains("hello world 08"));
    assert!(!found.contains("hello world 09"));
    assert_eq!(found.matches("hello world 01").count(), 1);
}

#[test]
fn handler_rejects_a_revoked_dynamic_admin() {
    // The list is not even read for one who is no administrator any more.
    let output = run_tool(
        require_live_message(&live(), "42", &group()),
        &arguments(vec![("qq_id", Argument::One(Scalar::Unsigned(99)))]),
        None,
        Mutation::Add,
    );
    assert_eq!(output.ok, false);
    assert_eq!(output.ids, None);
}

#[test]
fn objects_are_found_in_prose() {
    assert_eq!(
        parse_json_object("Sure: {\"a\": \"}\\\"\"} and more").unwrap(),
        "{\"a\": \"}\\\"\"}"
    );
    assert!(parse_json_object("nothing here").is_err());
    assert!(parse_json_object("[1, 2]").is_err());
    assert!(parse_json_object("{\"a\": }").is_err());
    assert_eq!(extract_json_object("a {b {c} d} e").as_deref(), Some("{b {c} d}"));
    assert_eq!(extract_json_object("{ open"), None);
    assert_eq!(
        choose_object("x", Ok(false), Some("{}".to_string()), Ok(false)),
        Err("judge JSON is not an object".to_string())
    );
}
