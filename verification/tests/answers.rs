use gqy::arguments::{Argument, Arguments, Entry, Scalar};
use gqy::group_management::args::external_operation_result;
use gqy::group_management::records::{
    aggregate_member_stats, query_history_stats, ManagementEvent, ShownMember,
};
use gqy::group_management::tools::{
    ban_result, before_turn, context_message_id, kick_one, manage_actions, manage_properties,
    prepare_role, register_manage, title_one, Acting, BotGroupRole, ManageAction, Offered, Settings,
    TitleRequest,
};
use gqy::message_history::dashboard::{
    conversation_key, dashboard_recalls, dashboard_stats, latest_human_message_at, media_counts,
    media_kinds,
    SqlArg,
};
use gqy::message_history::deletion::DeleteMode;
use gqy::message_history::listing::{
    avatar_names, download_avatar, format_ranking, history_header, history_notice, recent,
    user_history, AvatarOwner, HistorySettings, RankedMember, RankingRequest, SearchRoute,
};
use gqy::message_history::store;
use gqy::platform::{Conversation, ConversationKind, GroupMember};
use gqy::real_context::active_judgement_skip::state_scope;
use gqy::real_context::affection::{
    finish_update, format_tags, register_query_tool, tags_from_value, update_instruction,
    update_timeout, ProfileLimits,
};
use gqy::real_context::affection_log::{format_affection_update_log, format_timestamp, UpdateLog};
use gqy::real_context::decision_log::{
    format_active_reply_bypass_log_for, format_active_reply_decision_log_for,
    format_active_reply_muted_log_for, ActiveReplyDecisionLog, LogWords, Restraint, TriggerWords,
    Violation,
};
use gqy::real_context::judge::{build_prompt, JudgePrompt};
use gqy::real_context::locale::Locale;
use gqy::real_context::pending::{watermark_scope, TriggerKind};
use gqy::render::blocks::BlockRegistry;
use gqy::times::format_event_time;

fn text(s: &str) -> Argument {
    Argument::One(Scalar::Text(s.to_string()))
}

fn arguments(list: Vec<(&str, Argument)>) -> Arguments {
    Arguments {
        entries: list
            .into_iter()
            .map(|(key, value)| Entry { key: key.to_string(), value })
            .collect(),
    }
}

fn conversation(kind: ConversationKind) -> Conversation {
    Conversation {
        platform: "onebot".to_string(),
        account_id: "10000".to_string(),
        kind,
        conversation_id: "90000".to_string(),
    }
}

fn settings() -> Settings {
    Settings {
        enable_tool: true,
        enable_kick_tool: true,
        enable_special_title_tool: true,
        enable_record: true,
        enable_offender_history: true,
        sync_external_unmute_notice: true,
        default_duration_seconds: 600,
        max_reason_length: 500,
        max_records_per_group: 500,
        max_kick_history_per_group: 500,
        max_offender_history_per_group: 500,
        max_special_title_length: 6,
        max_special_title_duration_seconds: -1,
    }
}

fn member() -> GroupMember {
    GroupMember {
        group_id: "90000".to_string(),
        user_id: "11111".to_string(),
        nickname: "昵称".to_string(),
        card: "名片".to_string(),
        role: "member".to_string(),
        title: "".to_string(),
        joined_at: 0,
        last_active_at: 0,
    }
}

fn acting() -> Acting {
    Acting {
        group_id: "90000".to_string(),
        account_id: "10000".to_string(),
        operator_id: "20000".to_string(),
        now: 1000,
        record_id: "abc".to_string(),
    }
}

#[test]
fn the_management_tool_lists_what_is_switched_on() {
    let all = Offered { mute: true, kick: true, title: true, history_query: true };
    let some = Offered { mute: true, kick: false, title: false, history_query: true };
    assert_eq!(manage_actions(all), vec!["mute", "kick", "title"]);
    assert!(manage_properties(all).contains(&"blacklist".to_string()));
    assert!(!manage_properties(some).contains(&"blacklist".to_string()));
    let ask = |o, action: &str| register_manage(o, &arguments(vec![("action", text(action))]));
    assert!(matches!(ask(all, "kick"), Ok(ManageAction::Kick)));
    assert_eq!(ask(some, "kick").err().unwrap(), "this action is disabled for this group");
    assert_eq!(
        ask(all, "ban").err().unwrap(),
        "unknown action: ban; expected mute, kick or title"
    );
    assert_eq!(prepare_role(BotGroupRole::Owner), "owner");
    assert_eq!(context_message_id("abc"), "qq-management-abc");
    assert!(before_turn(ConversationKind::Private).is_none());
}

#[test]
fn what_was_done_is_written_down() {
    let kick = kick_one(&settings(), &acting(), "11111", &member(), true, "广告");
    assert_eq!(kick.record.user_name, "名片");
    assert!(kick.record.reject_add_request);
    assert_eq!(kick.event.unwrap().action, "kick_black");
    assert!(kick.context_text.contains("踢出并拉黑"));
    let mut quiet = settings();
    quiet.enable_record = false;
    assert!(kick_one(&quiet, &acting(), "11111", &member(), false, "").event.is_none());

    let request = TitleRequest {
        target: "11111".to_string(),
        title: "".to_string(),
        duration: -1,
        reason: "".to_string(),
    };
    assert_eq!(title_one(&acting(), &request, &member()).event.action, "title_clear");
    let done = ban_result("11111", 90, Vec::new());
    assert_eq!(done.duration_text, "1分钟30秒");
    assert!(done.result.success);
    assert!(external_operation_result(Vec::new(), None, None).audit_succeeded);
}

#[test]
fn members_are_ranked_by_what_they_did() {
    let event = |user: &str, at: i64| ManagementEvent {
        record_id: format!("{user}-{at}"),
        action: "ban".to_string(),
        user_id: user.to_string(),
        user_name: user.to_string(),
        duration: 60,
        happened_at: at,
        operator_id: "10000".to_string(),
        reason: "刷屏".to_string(),
        source: "llm_tool".to_string(),
        detail: "".to_string(),
    };
    let events = vec![event("11111", 1), event("22222", 2), event("22222", 3)];
    let stats = aggregate_member_stats("all", &events);
    let shown: Vec<ShownMember> = stats
        .iter()
        .map(|s| ShownMember {
            user_id: s.user_id.clone(),
            user_name: format!("名{}", s.user_id),
            last_time: "t".to_string(),
            last_reason: "r".to_string(),
        })
        .collect();
    let out = query_history_stats(&arguments(vec![]), &stats, &shown, "90000");
    let first = out.find("名22222").unwrap();
    let second = out.find("名11111").unwrap();
    assert!(first < second);
}

#[test]
fn pages_have_heads_and_notices() {
    assert_eq!(history_header(SearchRoute::Recent, 3, ""), "3 recent message(s)");
    assert_eq!(history_header(SearchRoute::UserHistory, 1, "42"), "1 message(s) from QQ 42");
    assert_eq!(history_header(SearchRoute::Search, 0, ""), "0 message(s) matched");
    assert_ne!(history_notice(SearchRoute::UserHistory), history_notice(SearchRoute::Search));
    let s = HistorySettings {
        allow_cross_conversation_search: true,
        history_search_max_results: 0,
        history_safe_page_limit: 500,
    };
    let here = conversation(ConversationKind::Group);
    let args = arguments(vec![("user_id", text("42"))]);
    let plan = user_history(&args, &here, &s, false, 1000).unwrap();
    assert_eq!(plan.sender_id.as_deref(), Some("42"));
    assert!(plan.oldest_first);
    assert!(user_history(&arguments(vec![]), &here, &s, false, 1000).is_err());
    assert!(recent(&arguments(vec![]), &here, &s, false, 1000).unwrap().recent);
}

#[test]
fn rankings_are_spelled_out() {
    let request = RankingRequest {
        since: 0,
        until: 10,
        label: "最近".to_string(),
        limit: 20,
        include_bot: false,
    };
    let one = RankedMember {
        rank: 1,
        sender_name: "Alice".to_string(),
        sender_id: "42".to_string(),
        message_count: 3,
        share: "75.0".to_string(),
        active_days: 2,
        first_time: "a".to_string(),
        last_time: "b".to_string(),
    };
    assert_eq!(
        format_ranking("90000", &request, 4, 2, &vec![one]),
        "群 90000 最近（不含机器人）：共 4 条消息、2 人发言，前 1 名（聚合统计，不含聊天原文）\n1. Alice(QQ:42) — 3 条 (75.0%), 活跃 2 天, a ~ b\n"
    );
}

#[test]
fn avatars_are_of_those_at_hand() {
    let group = conversation(ConversationKind::Group);
    let private = conversation(ConversationKind::Private);
    let ask = |args: Vec<(&str, Argument)>, c: &Conversation| {
        download_avatar(&arguments(args), c, "42")
    };
    assert!(ask(vec![], &group).is_err());
    assert!(ask(vec![("user_id", text("1")), ("group_id", text("2"))], &group).is_err());
    let of_member = ask(vec![("user_id", text("77"))], &group).unwrap();
    assert!(matches!(of_member.owner, AvatarOwner::Member));
    assert!(ask(vec![("user_id", text("77"))], &private).is_err());
    assert!(ask(vec![("user_id", text("42"))], &private).is_ok());
    assert_eq!(avatar_names(AvatarOwner::Group, "2", "").file_stem, "group-2");
    assert_eq!(avatar_names(AvatarOwner::Member, "7", "名").alt, "群成员 名 的头像");
}

#[test]
fn deletions_are_checked() {
    assert!(store::delete_history(DeleteMode::KeepDays(0), None, None, 10, 100).is_err());
    assert!(store::delete_history(DeleteMode::All, Some(2), Some(1), 10, 100).is_err());
    assert_eq!(store::delete_history(DeleteMode::All, None, None, 0, 100), Ok(1));
    assert_eq!(store::delete_history(DeleteMode::All, None, None, 1000, 100), Ok(100));
}

#[test]
fn statistics_are_asked_for_one_conversation_and_time() {
    let key = conversation_key("10000", "group", "90000").unwrap();
    let s = dashboard_stats(&key, 5, 6, 0);
    assert_eq!(s.limit, 1);
    for statement in [&s.heat, &s.totals, &s.media] {
        assert_eq!(statement.args.len(), 6);
        assert!(statement.sql.contains("sent_at BETWEEN ?5 AND ?6"));
        assert!(matches!(statement.args[4], SqlArg::Integer(5)));
    }
    let r = dashboard_recalls(&key, 1000, 40);
    assert!(r.page.sql.ends_with("LIMIT 200 OFFSET 40"));
    assert_eq!(r.total.args.len(), 4);
    assert_eq!(latest_human_message_at("10000").args.len(), 2);
    let kinds = vec!["video".to_string(), "image".to_string(), "video".to_string()];
    let counts = media_counts(&kinds);
    assert_eq!(counts.len(), 2);
    let rows = vec![
        "[{\"kind\": \"video\"}, {\"kind\": 1}, {\"kind\": \"image\"}]".to_string(),
        "no list".to_string(),
        "{\"kind\": \"file\"}".to_string(),
        "[{\"kind\": \"video\"}]".to_string(),
    ];
    assert_eq!(media_kinds(&rows), kinds);
    assert_eq!((counts[0].kind.as_str(), counts[0].count), ("image", 1));
    assert_eq!((counts[1].kind.as_str(), counts[1].count), ("video", 2));
}

fn limits() -> ProfileLimits {
    ProfileLimits { name_chars: 64, note_chars: 500, reason_chars: 5, max_tags: 3 }
}

#[test]
fn an_answer_is_read_where_it_is_sure() {
    let answer = arguments(vec![
        ("reasoning", text("a\nb c d e")),
        (
            "tags_add",
            Argument::List(vec![
                Scalar::Text("猫".to_string()),
                Scalar::Unsigned(5),
                Scalar::Text("感谢".to_string()),
            ]),
        ),
    ]);
    let mood = arguments(vec![("reason", text("开心"))]);
    assert!(finish_update(&answer, None, false, true, &limits()).evaluation.is_none());
    let unsure = finish_update(&answer, Some(&mood), false, true, &limits());
    assert!(unsure.evaluation.is_none());
    assert_eq!(unsure.mood_reason.as_deref(), Some("开心"));
    let sure = finish_update(&answer, Some(&mood), true, true, &limits());
    assert_eq!(sure.mood_reason.as_deref(), Some("开心"));
    let e = sure.evaluation.unwrap();
    assert_eq!(e.reason, "a b c");
    assert!(e.tags_add.contains(&"猫".to_string()));
    let e = finish_update(&answer, None, true, false, &limits()).evaluation.unwrap();
    assert!(e.tags_add.is_empty());
    assert!(tags_from_value(None, 3).is_empty());
    assert_eq!(update_timeout(30), "affection update timed out after 30s");
    assert_eq!(format_tags(&Vec::new()), "无");
    assert_eq!(format_tags(&vec!["a".to_string(), "b".to_string()]), "a、b");
    assert!(update_instruction(" 影 ").starts_with("影\n\n"));
    assert!(register_query_tool(true, "onebot"));
    assert!(!register_query_tool(true, "other"));
}

#[test]
fn changes_are_logged_with_their_numbers() {
    let log = UpdateLog {
        account_id: "1".to_string(),
        group_id: "2".to_string(),
        sender_name: "名".to_string(),
        sender_id: "3".to_string(),
        score_moved: true,
        level_before: "neutral".to_string(),
        level_after: "neutral".to_string(),
        score_before: "10.000".to_string(),
        score_after: "10.500".to_string(),
        actual_delta: "+0.500".to_string(),
        raw_delta: "+0.500".to_string(),
        confidence: "0.90".to_string(),
        reason: "友善".to_string(),
        tags_added: vec!["猫".to_string()],
        tags_removed: Vec::new(),
    };
    for locale in [Locale::Zh, Locale::En] {
        let out = format_affection_update_log(&log, locale);
        assert!(out.contains("10.000"));
        assert!(out.contains("10.500"));
        assert!(out.contains("猫"));
    }
    for shown in [format_timestamp(1_700_000_000), format_event_time(1_700_000_000)] {
        assert_eq!(shown.len(), 16);
        assert!(shown.starts_with("2023-11-1"));
        assert_eq!(&shown[10..11], " ");
        assert_eq!(&shown[13..14], ":");
    }
    assert_eq!(format_timestamp(i64::MAX), "未知时间");
    assert_eq!(format_event_time(i64::MAX), "9223372036854775807");
}

fn log_words() -> LogWords {
    let named = |label: &str| TriggerWords {
        label: label.to_string(),
        answered: format!("{label}：回复"),
        silent: format!("{label}：不回复"),
    };
    LogWords { direct: named("直接"), probability: named("概率") }
}

fn decision() -> ActiveReplyDecisionLog {
    ActiveReplyDecisionLog {
        account_id: "1".to_string(),
        group_id: "2".to_string(),
        sender_name: "名".to_string(),
        sender_id: "3".to_string(),
        mentioned_bot: false,
        message: "你好".to_string(),
        trigger: TriggerKind::Probability,
        should_reply: true,
        model_should_reply: Some(true),
        final_score: "0.800".to_string(),
        raw_score: "0.700".to_string(),
        threshold: "0.600".to_string(),
        model_adjustment: "+0.100".to_string(),
        affection_level: "neutral".to_string(),
        affection_adjustment: "+0.000".to_string(),
        emotion_adjustment: None,
        continuation_adjustment: None,
        system_adjustment: None,
        restraint: Some(Restraint {
            penalty: "0.111".to_string(),
            threshold: "0.222".to_string(),
            heat: "0.333".to_string(),
        }),
        short_message_adjustment: None,
        violation: Some(Violation { category: "广告".to_string(), severity: "8.0".to_string() }),
        reason: "因为".to_string(),
        endpoint: Some("p / m".to_string()),
    }
}

#[test]
fn a_decision_is_logged_with_what_led_to_it() {
    for locale in [Locale::Zh, Locale::En] {
        let out = format_active_reply_decision_log_for(&decision(), &log_words(), locale);
        assert!(out.starts_with("概率：回复\n"));
        let silent = ActiveReplyDecisionLog { should_reply: false, ..decision() };
        let other = format_active_reply_decision_log_for(&silent, &log_words(), locale);
        assert!(other.starts_with("概率：不回复\n"));
        for part in ["0.800", "0.700", "0.600", "0.111", "广告", "因为", "p / m"] {
            assert!(out.contains(part), "{part} is missing: {out}");
        }
    }
    let words = log_words();
    let muted =
        format_active_reply_muted_log_for("1", "2", "", "3", None, &words, Locale::Zh);
    assert!(muted.contains("未知用户"));
    assert!(muted.contains("系统触发"));
    let trigger = TriggerKind::Direct;
    let bypass =
        format_active_reply_bypass_log_for("1", "2", "名", "3", trigger, "点名", &words, Locale::En);
    assert!(bypass.contains("点名"));
    assert!(bypass.contains("Trigger: 直接\n"));
}

#[test]
fn the_judge_is_told_everything() {
    let p = JudgePrompt {
        moderation_only: false,
        moderation_enable: true,
        min_severity: "7.0".to_string(),
        custom_rules: "不许刷屏".to_string(),
        persona: "  ".to_string(),
        affection_level: "".to_string(),
        affection_prompt: "".to_string(),
        identity_warning: "".to_string(),
        history: "".to_string(),
        event_metadata: "{}".to_string(),
        signed_message: "你好".to_string(),
        decoded_base64: "秘密".to_string(),
        continuation_boost: "0.100".to_string(),
        system_trigger_boost: "0.000".to_string(),
        affection_bias: "+0.000".to_string(),
        reply_heat: "0.0".to_string(),
        heat_penalty: "0.0".to_string(),
        heat_threshold_boost: "0.0".to_string(),
        short_message_threshold_boost: "0.0".to_string(),
        emotion_adjustment: "+0.000".to_string(),
    };
    let out = build_prompt(&p);
    assert!(out.contains("not provided; judge as a generic group-chat assistant"));
    assert!(out.contains("Relationship tier: neutral"));
    assert!(out.contains("Recent real group-chat records:\n(none)"));
    assert!(out.contains("秘密"));
    assert!(out.contains("natural continuation +0.100"));
    assert!(out.ends_with("Return JSON only."));
}

#[test]
fn places_of_what_is_kept() {
    let c = conversation(ConversationKind::Group);
    assert_eq!(watermark_scope(&c).conversation_kind, "group");
    assert_eq!(watermark_scope(&c).plugin_id, "real_context");
    let global = state_scope("*");
    assert!(!global.plugin_id.is_empty());
    let mut blocks = BlockRegistry::new();
    assert!(!blocks.is_enabled());
    blocks.set_enabled(true);
    assert!(blocks.is_enabled());
}
