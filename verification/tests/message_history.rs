use gqy::arguments::{Argument, Arguments, Entry, Scalar};
use gqy::message_history::args::{
    apply_time_filter, effective_admin, explicit_or_current_group, group_member_limit,
    group_member_match_rank, group_member_query, history_limit_ceiling, history_scope,
    is_exact_query, limit, optional_i64, optional_id, optional_string, parsed_time_range,
    positive_u32, require_cross_conversation_access, required_id, search_members, ScopeKind,
};
use gqy::message_history::dashboard::{
    account_list, can_use_fts, comes_before, conversation_key, cut_page, dashboard_conversations,
    dashboard_delete, dashboard_messages, heat_table, page_size, DeleteSpec, HeatRow,
    HistoryCursor, MessagesQuery, SqlArg,
};
use gqy::message_history::deletion::{
    delete, delete_report, describe_delete_mode, live_admin_message, DeleteMode, LiveMessage,
};
use gqy::message_history::listing::{
    activity_ranking, format_history_output, format_media, register, search, search_route,
    HistorySettings, SearchRoute, ShownMessage,
};
use gqy::message_history::record::{
    after_move, before_send, event_message_id, external_message_id, forward_digest,
    history_db_path, media_kind, message_key_from, normalized_timestamp, outbound_message_id,
    outbound_text, own_message_key_from, record_external_bot_message, record_inbound,
    record_outbound, sqlite_file, store_media, DatabaseChoice, HistoryEvent, HistoryEventKind,
    InboundRecord, ReplyTarget, Segment, StoredKind, StoredMedia,
};
use gqy::message_history::store;
use gqy::platform::{Conversation, ConversationKind, GroupMember, Media, MediaKind};
use gqy::real_context::targeting::Mention;
use gqy::times::{
    day_second, format_event_time, format_time, local_question, local_timestamp, parse_time,
    parse_time_from, parse_time_on, platform_sent_at, sent_at_text, time_text,
};

fn text(s: &str) -> Argument {
    Argument::One(Scalar::Text(s.to_string()))
}

fn number(n: u64) -> Argument {
    Argument::One(Scalar::Unsigned(n))
}

fn arguments(list: Vec<(&str, Argument)>) -> Arguments {
    Arguments {
        entries: list
            .into_iter()
            .map(|(key, value)| Entry { key: key.to_string(), value })
            .collect(),
    }
}

fn private() -> Conversation {
    Conversation {
        platform: "onebot".to_string(),
        account_id: "10000".to_string(),
        kind: ConversationKind::Private,
        conversation_id: "42".to_string(),
    }
}

fn group() -> Conversation {
    Conversation {
        platform: "onebot".to_string(),
        account_id: "10000".to_string(),
        kind: ConversationKind::Group,
        conversation_id: "90000".to_string(),
    }
}

#[test]
fn forward_blocks_shrink_to_a_bounded_digest() {
    assert_eq!(forward_digest("普通消息"), None);

    let expanded =
        "看这个\n<qq-forward>\n阿: 外层一句\n布布: [image]\n  策: 里层一句\n</qq-forward>";
    let digest = forward_digest(expanded).expect("有转发块");
    assert_eq!(
        digest,
        "看这个 [forward x3] 阿: 外层一句 / 布布: [image] / 策: 里层一句"
    );
    assert!(!digest.contains("<qq-forward>"));

    let long = format!(
        "\n<qq-forward>\n{}</qq-forward>",
        (0..80)
            .map(|i| format!("发送者{i}: 这是一条相当长的转发内容用来撑爆预算\n"))
            .collect::<String>()
    );
    let digest = forward_digest(&long).expect("有转发块");
    assert!(digest.chars().count() <= 161, "{}", digest.chars().count());
    assert!(digest.chars().count() * 8 < long.chars().count());
    assert!(digest.ends_with('…'));

    let truncated = "\n<qq-forward>\n阿: 一\n(forwarded content truncated)\n</qq-forward>";
    assert_eq!(forward_digest(truncated).unwrap(), "[forward x1] 阿: 一");
}

#[test]
fn a_face_sticker_is_not_an_image() {
    assert_eq!(media_kind(MediaKind::Emoji), StoredKind::Sticker);
    assert_eq!(media_kind(MediaKind::Image), StoredKind::Image);
}

fn image_event() -> HistoryEvent {
    HistoryEvent {
        kind: HistoryEventKind::Message,
        message_id: "123".to_string(),
        sender_id: "42".to_string(),
        sender_name: "Alice".to_string(),
        operator_id: None,
        timestamp: 100,
        ingress_order: Some(1),
        text: "hello".to_string(),
        reply_to_message_id: None,
        mentioned_user_ids: Vec::new(),
        mentioned_users: Vec::new(),
        media: vec![Media {
            kind: MediaKind::Image,
            id: Some("image-id".to_string()),
            name: Some("photo.png".to_string()),
            url: Some("https://example.invalid/photo.png".to_string()),
        }],
    }
}

#[test]
fn inbound_private_messages_are_idempotent_and_text_only() {
    let event = image_event();
    let key = event_message_id(&event.message_id, event.ingress_order, 100);
    let again = event_message_id(&event.message_id, event.ingress_order, 200);
    assert_eq!(key, again);
    match record_inbound(&event, &key, 100) {
        InboundRecord::Message(m) => {
            assert_eq!(m.text, "hello");
            assert_eq!(m.media.len(), 1);
            assert_eq!(m.media[0].kind, StoredKind::Image);
            assert_eq!(m.media[0].label.as_deref(), Some("photo.png"));
            assert_eq!(m.media[0].media_id, None);
            assert_eq!(m.sent_at, 100);
            assert!(m.mentioned_users.is_empty());
        }
        _ => panic!("a message"),
    }
}

#[test]
fn the_names_of_mentioned_users_are_kept() {
    let mut event = image_event();
    event.mentioned_user_ids = vec!["9".to_string()];
    event.mentioned_users =
        vec![Mention { user_id: "9".to_string(), display_name: Some("yuyi".to_string()) }];
    match record_inbound(&event, "123", 100) {
        InboundRecord::Message(m) => {
            assert_eq!(m.mentioned_user_ids, vec!["9"]);
            assert_eq!(m.mentioned_users.len(), 1);
            assert_eq!(m.mentioned_users[0].user_id, "9");
            assert_eq!(m.mentioned_users[0].display_name.as_deref(), Some("yuyi"));
        }
        _ => panic!("a message"),
    }
}

#[test]
fn a_withdrawal_is_recorded_and_other_notices_are_not() {
    let mut event = image_event();
    event.kind = HistoryEventKind::MessageRecall;
    event.operator_id = Some("77".to_string());
    assert!(matches!(record_inbound(&event, "123", 9), InboundRecord::Recall(_)));
    event.kind = HistoryEventKind::Other;
    assert!(matches!(record_inbound(&event, "123", 9), InboundRecord::Nothing));
}

#[test]
fn files_and_videos_can_be_fetched_later() {
    let media = |kind| Media {
        kind,
        id: Some("id".to_string()),
        name: Some("name".to_string()),
        url: None,
    };
    assert_eq!(store_media(&media(MediaKind::File)).media_id.as_deref(), Some("id"));
    assert_eq!(store_media(&media(MediaKind::Video)).media_id.as_deref(), Some("id"));
    assert_eq!(store_media(&media(MediaKind::Audio)).media_id, None);
}

#[test]
fn messages_without_an_id_get_one() {
    assert_eq!(message_key_from("7", None, 5, 1), "7");
    let made = message_key_from("", Some(3), 5, 1);
    assert!(!made.is_empty());
    assert!(!own_message_key_from("", 5, 0xabcd).is_empty());
    assert_eq!(own_message_key_from("55", 5, 1), "55");
    assert_eq!(external_message_id("55", 5), "55");
    assert!(external_message_id(" ", 5).starts_with("gqy-5-"));
    assert_eq!(outbound_message_id(&vec!["9".to_string()], 5), "9");
    assert!(outbound_message_id(&Vec::new(), 5).starts_with("gqy-5-"));

    let first = event_message_id("", None, 5);
    assert!((0..8).any(|_| event_message_id("", None, 5) != first));
    let first = external_message_id("", 5);
    assert!((0..8).any(|_| external_message_id("", 5) != first));
    let first = outbound_message_id(&Vec::new(), 5);
    assert!((0..8).any(|_| outbound_message_id(&Vec::new(), 5) != first));
}

#[test]
fn timestamps_are_taken_from_the_message_where_it_has_one() {
    assert_eq!(normalized_timestamp(7, 100), 7);
    assert_eq!(normalized_timestamp(0, 100), 100);
}

#[test]
fn what_was_sent_is_kept_as_text() {
    let nodes = vec![
        vec![Segment::Text("你好".to_string()), Segment::Silent],
        vec![Segment::Text("再见".to_string())],
    ];
    let kept = outbound_text(&nodes);
    assert!(kept.contains("你好"));
    assert!(kept.contains("再见"));
    assert_eq!(before_send(Some("原文".to_string()), &nodes), "原文");
    assert_eq!(before_send(None, &nodes), kept);

    let target = ReplyTarget { message_id: "8".to_string(), quote: true };
    let m = record_outbound("你好", "9", "10000", None, &Some(target), 50, Some(4));
    assert_eq!(m.sender_name, "GQY");
    assert_eq!(m.reply_to_message_id.as_deref(), Some("8"));
    assert!(m.is_bot);
    let e = record_external_bot_message(
        "你好",
        "9",
        "10000",
        Some("影".to_string()),
        Some("7".to_string()),
        50,
        None,
    );
    assert_eq!(e.sender_name, "影");
    assert_eq!(e.reply_to_message_id.as_deref(), Some("7"));
}

#[test]
fn a_database_of_an_old_name_is_moved_once() {
    assert!(matches!(history_db_path(true, true, true), DatabaseChoice::Current));
    assert!(matches!(history_db_path(false, true, true), DatabaseChoice::MoveLegacy));
    assert!(matches!(history_db_path(false, false, true), DatabaseChoice::Current));
    assert!(matches!(after_move(true), DatabaseChoice::Current));
    assert!(matches!(after_move(false), DatabaseChoice::Legacy));
    assert_eq!(sqlite_file("/data/history.db", "-wal"), "/data/history.db-wal");
}

#[test]
fn ordinary_users_are_limited_to_the_current_conversation() {
    let here = private();
    let scope = history_scope(&arguments(vec![]), &here, true, false).unwrap();
    assert!(matches!(scope.kind, ScopeKind::Private));
    let elsewhere = arguments(vec![
        ("conversation_kind", text("group")),
        ("conversation_id", text("99")),
    ]);
    assert!(history_scope(&elsewhere, &here, true, false).is_err());
    let everywhere =
        arguments(vec![("all_conversations", Argument::One(Scalar::Bool(true)))]);
    assert!(history_scope(&everywhere, &here, true, false).is_err());

    let scope = history_scope(&elsewhere, &here, true, true).unwrap();
    assert!(matches!(scope.kind, ScopeKind::Group));
    assert_eq!(scope.conversation_id, "99");
    let scope = history_scope(&everywhere, &here, true, true).unwrap();
    assert!(matches!(scope.kind, ScopeKind::Account));

    assert!(history_scope(&elsewhere, &here, false, true).is_err());
    assert!(require_cross_conversation_access(true, true).is_ok());
    assert!(require_cross_conversation_access(false, true).is_err());
    assert!(require_cross_conversation_access(true, false).is_err());
    assert!(effective_admin("onebot", true));
    assert!(!effective_admin("onebot", false));
}

#[test]
fn zero_history_limit_uses_the_bounded_page_maximum() {
    assert_eq!(limit(&arguments(vec![]), 0, 500), 500);
    assert_eq!(limit(&arguments(vec![("limit", number(25))]), 0, 500), 25);
    assert_eq!(limit(&arguments(vec![("limit", number(100))]), 40, 500), 40);
    assert_eq!(limit(&arguments(vec![("limit", number(2_000))]), 0, 2_000), 1_000);
    assert_eq!(history_limit_ceiling(0, 500), 500);
}

#[test]
fn required_history_id_rejects_missing_and_invalid_values() {
    assert!(required_id(&arguments(vec![]), "user_id").is_err());
    assert!(required_id(&arguments(vec![("user_id", text(""))]), "user_id").is_err());
    assert!(required_id(&arguments(vec![("user_id", text("abc"))]), "user_id").is_err());
    assert_eq!(
        required_id(&arguments(vec![("user_id", text("2606945861"))]), "user_id").unwrap(),
        "2606945861"
    );
    assert_eq!(optional_id(&arguments(vec![]), "user_id"), Ok(None));
    assert!(optional_id(&arguments(vec![("user_id", text("abc"))]), "user_id").is_err());
}

#[test]
fn activity_ranking_times_support_original_and_rfc3339_formats() {
    assert_eq!(parse_time("1700000000", false).unwrap(), 1_700_000_000);
    assert_eq!(
        parse_time("2024-01-02T03:04:05+08:00", false).unwrap(),
        1_704_135_845
    );
    let start = parse_time("2024-01-02", false).unwrap();
    let end = parse_time("2024-01-02", true).unwrap();
    assert_eq!(end - start, 86_399);
    assert!(parse_time("2024/01/02", false).is_err());
}

#[test]
fn a_local_time_is_read_on_the_clock_it_is_given() {
    assert_eq!(local_question(" 2024-01-02 ", false), Some(1_704_153_600));
    assert_eq!(local_question("2024-01-02", true), Some(1_704_239_999));
    assert_eq!(local_question("2024-01-02 03:04", true), Some(1_704_164_640));
    assert_eq!(local_question("2024-01-02 03:04:05", false), Some(1_704_164_645));
    assert_eq!(local_question("1700000000", false), None);
    assert_eq!(local_question("2024-01-02T03:04:05+08:00", false), None);
    assert_eq!(local_question("tomorrow", false), None);

    assert_eq!(parse_time_from("2024-01-02", false, Some((5, 9))).unwrap(), 5);
    assert_eq!(parse_time_from("2024-01-02", true, Some((5, 9))).unwrap(), 9);
    assert_eq!(
        parse_time_from("2024-01-02", true, None).unwrap_err(),
        "2024-01-02 is not a valid local date"
    );
    assert_eq!(parse_time_from("1700000000", true, None).unwrap(), 1_700_000_000);

    let an_hour_ahead = |shown: i64| Some((shown - 3600, shown - 3600));
    assert_eq!(parse_time_on("2024-01-02", false, an_hour_ahead).unwrap(), 1_704_150_000);
    assert_eq!(parse_time_on("2024-01-02", true, an_hour_ahead).unwrap(), 1_704_236_399);
    assert!(parse_time_on("2024-01-02", true, |_| None).is_err());
}

#[test]
fn times_of_other_forms() {
    let minute = parse_time("2024-01-02 03:04", false).unwrap();
    let second = parse_time("2024-01-02 03:04:05", false).unwrap();
    assert_eq!(second - minute, 5);
    assert_eq!(day_second(1000, false), 1000);
    assert_eq!(day_second(1000, true), 1000 + 86_399);
    assert_eq!(local_timestamp(Some((10, 20)), false), Some(10));
    assert_eq!(local_timestamp(Some((10, 20)), true), Some(20));
    assert_eq!(local_timestamp(None, true), None);
    assert_eq!(time_text(5, Some("昨天".to_string())), "昨天");
    assert_eq!(time_text(5, None), "5");
    let shown = format_time(1_700_000_000);
    assert_eq!(shown.len(), 19);
    assert!(shown.starts_with("2023-11-1"));
    assert!(shown.ends_with(":20"));
    assert_eq!(format_time(i64::MIN), "-9223372036854775808");
}

#[test]
fn the_clock_shows_the_time_asked_about() {
    for time in [-86_400, 0, 951_782_400, 1_700_000_000, 253_402_300_799] {
        let near = |shown: String| {
            let second = local_question(&shown, false).unwrap();
            assert!(second < time + 86_400 && second > time - 86_460);
        };
        near(format_time(time));
        near(format_event_time(time));
        assert_ne!(format_time(time), format_time(time + 86_400 * 2));
    }
}

#[test]
fn utc_times_are_spelled_out() {
    assert!(platform_sent_at(1_700_000_000).starts_with("2023-11-14T22:13:20"));
    assert_eq!(sent_at_text(5, Some("then".to_string())), "then");
}

#[test]
fn activity_ranking_integer_arguments_are_strict() {
    assert_eq!(
        optional_i64(
            &arguments(vec![("days", Argument::One(Scalar::Negative(-1)))]),
            "days"
        )
        .unwrap(),
        Some(-1)
    );
    assert!(optional_i64(
        &arguments(vec![("days", Argument::One(Scalar::Fraction("1.5".to_string())))]),
        "days"
    )
    .is_err());
    assert!(optional_string(&arguments(vec![("start_time", number(123))]), "start_time").is_err());
    assert_eq!(positive_u32(&arguments(vec![("days", number(3))]), "days"), Ok(Some(3)));
    assert!(positive_u32(&arguments(vec![("days", number(0))]), "days").is_err());
}

#[test]
fn group_member_search_requires_explicit_query_and_limit() {
    assert!(group_member_query(&arguments(vec![])).is_err());
    assert!(group_member_query(&arguments(vec![("query", text("  "))])).is_err());
    assert_eq!(
        group_member_query(&arguments(vec![("query", text(" 张三 "))])).unwrap(),
        "张三"
    );

    assert!(group_member_limit(&arguments(vec![]), 20).is_err());
    assert!(group_member_limit(&arguments(vec![("limit", number(0))]), 20).is_err());
    assert!(group_member_limit(&arguments(vec![("limit", number(21))]), 20).is_err());
    assert_eq!(group_member_limit(&arguments(vec![("limit", number(20))]), 20).unwrap(), 20);
}

fn member(id: &str, nickname: &str, card: &str) -> GroupMember {
    GroupMember {
        group_id: "42".to_string(),
        user_id: id.to_string(),
        nickname: nickname.to_string(),
        card: card.to_string(),
        role: "member".to_string(),
        title: String::new(),
        joined_at: 0,
        last_active_at: 0,
    }
}

#[test]
fn group_member_search_matches_ids_cards_and_nicknames_by_relevance() {
    let member = member("123456789", "Alice Example", "测试名片");

    assert_eq!(
        group_member_match_rank(&member, "123456789", "123456789"),
        Some(0)
    );
    assert_eq!(group_member_match_rank(&member, "3456", "3456"), Some(2));
    assert_eq!(group_member_match_rank(&member, "alice", "alice"), Some(1));
    assert_eq!(group_member_match_rank(&member, "名片", "名片"), Some(2));
    assert_eq!(group_member_match_rank(&member, "title", "title"), None);
}

#[test]
fn the_best_matches_come_first_and_case_does_not_matter() {
    let members = vec![
        member("11111", "xALICEx", ""),
        member("22222", "Alice", ""),
        member("33333", "bob", ""),
        member("44444", "alice", ""),
    ];
    let found = search_members(&members, "Alice", 2);
    assert_eq!(found.matched_count, 3);
    assert_eq!(found.returned, vec![1, 3]);
    assert!(found.truncated);
    assert!(is_exact_query("12345"));
    assert!(!is_exact_query("12a45"));
}

#[test]
fn ranges_must_run_forward() {
    let range = |a: &str, b: &str| {
        parsed_time_range(&arguments(vec![("start_time", text(a)), ("end_time", text(b))]))
    };
    assert_eq!(range("100", "200"), Ok((Some(100), Some(200))));
    assert!(range("200", "100").is_err());
    assert!(apply_time_filter(&arguments(vec![]), 1000).is_ok());
}

#[test]
fn rankings_are_of_groups() {
    let now = 1_700_000_000;
    assert!(activity_ranking(&arguments(vec![]), ConversationKind::Private, now).is_err());
    let r = activity_ranking(&arguments(vec![]), ConversationKind::Group, now).unwrap();
    assert_eq!(r.until, now);
    assert!(r.since < now);
    assert!(r.limit > 0);
}

#[test]
fn a_search_has_a_route_and_a_plan() {
    let words = arguments(vec![("query", text("你好"))]);
    let route = search_route(&words).unwrap();
    let _ = matches!(route, SearchRoute::Search);
    let settings = HistorySettings {
        allow_cross_conversation_search: true,
        history_search_max_results: 0,
        history_safe_page_limit: 500,
    };
    let plan = search(&words, &private(), &settings, false, 1000).unwrap();
    assert_eq!(plan.text, "你好");
    assert!(matches!(plan.scope.kind, ScopeKind::Private));
    assert!(search(&arguments(vec![]), &private(), &settings, false, 1000).is_err());
}

#[test]
fn listings_show_messages_and_what_is_left_out() {
    let m = ShownMessage {
        time: "昨天".to_string(),
        is_bot: false,
        sender_name: "Alice".to_string(),
        sender_id: "42".to_string(),
        text: "你好".to_string(),
        media: vec![StoredMedia { kind: StoredKind::Image, label: None, media_id: None }],
        conversation_kind: "private".to_string(),
        conversation_id: "42".to_string(),
        message_id: "7".to_string(),
        recalled: false,
        reply_to: None,
        mentions: Vec::new(),
    };
    let out = format_history_output("头".to_string(), &vec![m], true, false, "提示");
    assert!(out.contains("头"));
    assert!(out.contains("Alice"));
    assert!(out.contains("你好"));
    let image = StoredMedia { kind: StoredKind::Image, label: None, media_id: None };
    assert!(!format_media(&image).is_empty());
}

#[test]
fn deletion_is_for_live_administrators() {
    let live = |sender: &str, is_message: bool| {
        Some(LiveMessage {
            is_message,
            sender_id: sender.to_string(),
            conversation: private(),
        })
    };
    assert!(live_admin_message(&live("42", true), "42", &private()).is_ok());
    assert!(live_admin_message(&live("43", true), "42", &private()).is_err());
    assert!(live_admin_message(&live("42", false), "42", &private()).is_err());
    assert!(live_admin_message(&None, "42", &private()).is_err());
    assert!(live_admin_message(&live("42", true), "42", &group()).is_err());

    let args = arguments(vec![("mode", text("all"))]);
    let refused = delete(&args, &private(), true, false, &live("42", true), "42");
    assert!(refused.is_err());
    let request = delete(&args, &private(), true, true, &live("42", true), "42").unwrap();
    assert!(matches!(request.scope.kind, ScopeKind::Private));
    assert!(!delete_report(3, 0, 0, &request).is_empty());
    assert!(describe_delete_mode(DeleteMode::KeepDays(7)).contains('7'));
}

#[test]
fn tools_by_conversation_and_authority() {
    let t = register(ConversationKind::Group, false);
    assert!(t.activity_ranking && t.search && !t.delete);
    assert!(register(ConversationKind::Private, true).delete);
    assert!(!register(ConversationKind::Private, true).activity_ranking);
    let other = arguments(vec![("group_id", text("99999"))]);
    assert!(explicit_or_current_group(&other, &group(), true, false).is_err());
    let scope = explicit_or_current_group(&arguments(vec![]), &group(), true, false).unwrap();
    assert_eq!(scope.conversation_id, "90000");
}

#[test]
fn the_store_checks_what_it_is_asked() {
    assert_eq!(store::with_queue_capacity(0), 1);
    assert_eq!(store::with_queue_capacity(1_000_000), store::MAX_QUEUE_CAPACITY);
    assert_eq!(store::record_messages(0, 10), Ok(false));
    assert_eq!(store::record_messages(3, 10), Ok(true));
    assert!(store::record_messages(11, 10).is_err());
    assert!(store::search(Some(5), Some(4)).is_err());
    assert!(store::search(Some(4), Some(4)).is_ok());
    assert!(store::activity_ranking(5, 4, 10).is_err());
    assert!(store::activity_ranking(4, 5, 10).is_ok());
}

#[test]
fn every_place_in_a_statement_has_a_value() {
    let q = MessagesQuery {
        key: conversation_key("10000", "group", "90000").unwrap(),
        terms: vec!["甲".to_string(), "b%".to_string()],
        fts_query: "".to_string(),
        sender_id: "42".to_string(),
        since: Some(1),
        until: Some(2),
        only_recalled: true,
        only_media: true,
        before: Some(HistoryCursor { sent_at: 5, row_id: 6 }),
        limit: 20,
    };
    let s = dashboard_messages(&q, "id, text");
    for n in 1..=s.args.len() {
        assert!(s.sql.contains(&format!("?{n}")));
    }
    assert!(!s.sql.contains(&format!("?{}", s.args.len() + 1)));
    assert!(s.args.iter().any(|a| matches!(a, SqlArg::Integer(5))));
    let all = dashboard_conversations(&None);
    assert_eq!(all.sql.matches('?').count(), all.args.len());
    let one = dashboard_conversations(&Some("10000".to_string()));
    assert_eq!(one.sql.matches('?').count(), one.args.len());
    assert!(one.args.len() > all.args.len());
    assert!(conversation_key("10000", "bogus", "90000").is_err());
    assert!(s.args.iter().any(|a| matches!(a, SqlArg::Text(t) if t == "group")));
    let key = conversation_key("10000", "private", "42").unwrap();
    assert_eq!(key.kind, ConversationKind::Private);
    assert_eq!((key.account_id.as_str(), key.conversation_id.as_str()), ("10000", "42"));
    assert!(!can_use_fts(&vec!["ab".to_string()]));
    assert!(can_use_fts(&vec!["abc".to_string()]));
}

#[test]
fn pages_are_cut_and_point_at_the_next() {
    let rows: Vec<HistoryCursor> =
        (0..3).map(|i| HistoryCursor { sent_at: 10 - i, row_id: i }).collect();
    let (kept, next) = cut_page(&rows, 2);
    assert_eq!(kept, 2);
    let next = next.unwrap();
    assert_eq!((next.sent_at, next.row_id), (9, 1));
    let (all, none) = cut_page(&rows, 3);
    assert_eq!(all, 3);
    assert!(none.is_none());
    assert!(page_size(0) >= 1);
}

#[test]
fn accounts_are_sorted_and_hours_are_counted() {
    assert!(comes_before("1", "2"));
    assert!(!comes_before("2", "1"));
    let rows = vec!["2".to_string(), "1".to_string(), "2".to_string()];
    assert_eq!(account_list(&rows), vec!["1", "2"]);
    let table = heat_table(&vec![
        HeatRow { weekday: 1, hour: 2, count: 3 },
        HeatRow { weekday: 9, hour: 2, count: 100 },
    ]);
    assert_eq!(table.len(), 7 * 24);
    assert_eq!(table.iter().sum::<i64>(), 3);
    assert_eq!(table[24 + 2], 3);
}

#[test]
fn a_deletion_from_the_dashboard_names_what_it_deletes() {
    let d = DeleteSpec {
        key: None,
        account_id: "10000".to_string(),
        keep_days: Some(7),
        sender_id: "".to_string(),
        since: None,
        until: None,
    };
    let r = dashboard_delete(&d);
    assert!(matches!(r.scope.kind, ScopeKind::AllGroups));
    assert!(matches!(r.mode, DeleteMode::KeepDays(7)));
    assert_eq!(r.sender_id, None);
    let one = dashboard_delete(&DeleteSpec {
        key: Some(conversation_key("10000", "group", "90000").unwrap()),
        account_id: "10000".to_string(),
        keep_days: None,
        sender_id: " 42 ".to_string(),
        since: Some(1),
        until: Some(2),
    });
    assert!(matches!(one.scope.kind, ScopeKind::Group));
    assert_eq!(one.scope.conversation_id, "90000");
    assert!(matches!(one.mode, DeleteMode::All));
    assert_eq!(one.sender_id.as_deref(), Some("42"));
}
