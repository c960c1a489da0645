use gqy::arguments::{Argument, Arguments, Entry, Scalar};
use gqy::group_management::args::{
    action_matches, aggregate_target_results, bounded_reason, external_operation_result, failure,
    failure_for_target, humanize_seconds, json_result, limit, notice_member, resolve_targets,
    split_ids, valid_id, validate_target, TargetHints, MAX_BAN_SECONDS, MAX_TARGETS,
};
use gqy::group_management::records::{
    aggregate_member_stats, append_event, append_kick, ban_statuses, load_all_events_from,
    lowercase_keyword, query_history, query_history_events, record_id, record_id_from,
    resolve_query_scope, status_of, update_offender, BanRecord, HistoryView, KickRecord,
    ManagementEvent, OffenderHistory, ReasonEntry, ShownEvent, MAX_REASON_HISTORY_PER_OFFENDER,
};
use gqy::group_management::tools::{
    ban, ban_one, batch_next, job_first, job_next, kick, kick_record, kick_result, kick_verdict,
    notice_removal, observe_inbound, register, title, verify_kick, Acting, BatchEvent, BatchState,
    BatchStep, Job, JobEvent, JobState, JobStep, KickEvent, KickStep, KickVerdict, Measure, Notice,
    NoticeKind, Settings, KICK_CHECKS,
};
use gqy::json::{arguments_at, is_object_at, string_list, text_under};
use gqy::order::trim_vec;
use gqy::platform::{Conversation, ConversationKind, GroupMember};

fn text(s: &str) -> Argument {
    Argument::One(Scalar::Text(s.to_string()))
}

fn arguments(list: Vec<(&str, Argument)>) -> Arguments {
    Arguments {
        entries: list
            .into_iter()
            .map(|(key, value)| Entry { key: key.to_string(), value })
            .collect(),
    }
}

fn settings() -> Settings {
    Settings {
        enable_tool: true,
        enable_kick_tool: true,
        enable_special_title_tool: true,
        enable_record: true,
        enable_offender_history: true,
        sync_external_unmute_notice: true,
        default_duration_seconds: 600,
        max_reason_length: 500,
        max_records_per_group: 500,
        max_kick_history_per_group: 500,
        max_offender_history_per_group: 500,
        max_special_title_length: 6,
        max_special_title_duration_seconds: -1,
    }
}

fn member(id: &str, role: &str) -> GroupMember {
    GroupMember {
        group_id: "90000".to_string(),
        user_id: id.to_string(),
        nickname: "昵称".to_string(),
        card: "".to_string(),
        role: role.to_string(),
        title: "".to_string(),
        joined_at: 0,
        last_active_at: 0,
    }
}

#[test]
fn target_parser_accepts_only_qq_sized_numeric_ids() {
    assert_eq!(
        split_ids("12345, 12345 @678901 and invalid-12"),
        vec!["12345", "12345", "678901"]
    );
    assert!(valid_id("12345"));
    assert!(!valid_id("1234"));
    assert!(!valid_id("12a45"));
}

#[test]
fn mute_duration_is_spelled_in_seconds_and_reads_back_in_words() {
    assert_eq!(humanize_seconds(0), "解禁");
    assert_eq!(humanize_seconds(600), "10分钟");
    assert_eq!(humanize_seconds(3_600), "1小时");
    assert_eq!(humanize_seconds(86_400), "1天");
    assert_eq!(humanize_seconds(1_440), "24分钟");
    assert_eq!(humanize_seconds(MAX_BAN_SECONDS), "30天");
    assert_eq!(humanize_seconds(90), "1分钟30秒");
}

#[test]
fn kick_targets_accept_an_array_and_still_fall_back_to_a_scalar() {
    let args = arguments(vec![]);
    let listed = vec!["12345".to_string(), "678901".to_string()];
    assert_eq!(
        resolve_targets(&listed, &args, &None, "10000"),
        Ok(vec!["12345".to_string(), "678901".to_string()])
    );
    assert_eq!(split_ids("12345 678901"), vec!["12345", "678901"]);
    let scalar = arguments(vec![("user_id", text("12345 678901"))]);
    assert_eq!(
        resolve_targets(&Vec::new(), &scalar, &None, "10000"),
        Ok(vec!["12345".to_string(), "678901".to_string()])
    );
}

#[test]
fn batch_results_tell_the_model_which_targets_may_be_retried() {
    let aggregate = aggregate_target_results(&vec![
        external_operation_result(Vec::new(), None, Some("12345".to_string())),
        failure_for_target("目标不在当前群中", "678901"),
    ]);
    assert_eq!(aggregate.success_count, 1);
    assert_eq!(aggregate.failed_count, 1);
    assert_eq!(aggregate.do_not_retry, false);
    assert_eq!(aggregate.do_not_retry_successful_targets, true);
    assert_eq!(aggregate.retry_failed_targets_only, true);
    assert_eq!(aggregate.failed_target_ids, vec!["678901"]);
    assert_eq!(aggregate.successful_target_ids, vec!["12345"]);

    let all_good = aggregate_target_results(&vec![external_operation_result(
        Vec::new(),
        None,
        Some("12345".to_string()),
    )]);
    assert_eq!(all_good.do_not_retry, true);
}

fn event(action: &str, user: &str, at: i64, duration: u64, reason: &str) -> ManagementEvent {
    ManagementEvent {
        record_id: format!("{action}-{user}-{at}"),
        action: action.to_string(),
        user_id: user.to_string(),
        user_name: format!("用户{user}"),
        duration,
        happened_at: at,
        operator_id: "10000".to_string(),
        reason: reason.to_string(),
        source: "llm_tool".to_string(),
        detail: String::new(),
    }
}

#[test]
fn action_filter_groups_related_event_kinds() {
    assert!(action_matches("ban", "unban"));
    assert!(action_matches("kick", "kick_black"));
    assert!(action_matches("title", "title_clear"));
    assert!(action_matches("all", "ban"));
    assert!(!action_matches("ban", "kick"));
    assert!(!action_matches("bogus", "ban"));
}

#[test]
fn ban_status_reflects_later_unban_override_and_expiry() {
    let now = 1_000_000;
    let events = vec![
        event("ban", "11111", now - 100, 3_600, "刷屏"),
        event("unban", "11111", now - 50, 0, ""),
        event("ban", "22222", now - 100, 600, "口嗨"),
        event("ban", "22222", now - 50, 3_600, "加重"),
        event("ban", "33333", now - 7_200, 600, "已过期"),
    ];
    let statuses = ban_statuses(&events, now);
    let of = |i: usize| status_of(&statuses, &events[i].record_id).unwrap();
    assert_eq!(of(0), "unmuted");
    assert_eq!(of(2), "overridden");
    assert_eq!(of(3), "active");
    assert_eq!(of(4), "expired");
    assert_eq!(status_of(&statuses, "no such record"), None);
}

#[test]
fn member_stats_aggregate_counts_durations_and_last_reason() {
    let events = vec![
        event("ban", "11111", 100, 600, "刷屏"),
        event("ban", "11111", 200, 1_200, "再犯"),
        event("unban", "11111", 300, 0, ""),
        event("kick", "11111", 400, 0, "屡教不改"),
        event("kick_black", "22222", 500, 0, ""),
        event("title_set", "22222", 600, 0, ""),
    ];
    let mut stats = aggregate_member_stats("all", &events);
    stats.sort_by(|a, b| a.user_id.cmp(&b.user_id));
    assert_eq!(stats.len(), 2);
    assert_eq!(stats[0].ban_count, 2);
    assert_eq!(stats[0].total_ban_duration, 1_800);
    assert_eq!(stats[0].kick_count, 1);
    assert_eq!(stats[0].last_reason, "屡教不改");
    assert_eq!(stats[0].last_action_at, 400);
    assert_eq!(stats[1].kick_count, 1);
    assert_eq!(stats[1].title_count, 1);
    assert_eq!(stats[1].ban_count, 0);

    let ban_only = aggregate_member_stats("ban", &events);
    assert!(ban_only.iter().all(|item| item.kick_count == 0));
}

#[test]
fn response_contract_uses_success_and_message() {
    let response = json_result(true, "ok");
    assert_eq!(response.success, true);
    assert_eq!(response.message, "ok");
}

#[test]
fn audit_failure_reports_partial_success_and_forbids_retry() {
    let response =
        external_operation_result(vec!["injected audit failure".to_string()], None, None);
    assert_eq!(response.success, true);
    assert_eq!(response.operation_succeeded, true);
    assert_eq!(response.audit_succeeded, false);
    assert_eq!(response.do_not_retry, true);
    assert!(response.message.contains("请勿重试"));
}

#[test]
fn external_failure_remains_retryable() {
    let response = failure("injected external failure");
    assert_eq!(response.success, false);
    assert_eq!(response.operation_succeeded, false);
    assert_eq!(response.do_not_retry, false);
}

fn decrease(user_id: &str, operator_id: &str) -> Notice {
    Notice {
        kind: NoticeKind::GroupDecrease,
        sender_id: user_id.to_string(),
        sender_name: "被踢的人".to_string(),
        operator_id: Some(operator_id.to_string()),
        sub_type: Some("kick".to_string()),
        timestamp: 0,
        duration_seconds: None,
    }
}

#[test]
fn a_self_operated_kick_still_lands_in_the_removal_ledger() {
    let notice = decrease("70001", "10000");
    assert!(notice_removal(&notice));
    // What the assistant did itself is not written down a second time.
    let trace = observe_inbound(&settings(), "90000", "10000", &notice, 5, "id");
    assert!(trace.kick.is_none());
    assert!(trace.event.is_none());
}

#[test]
fn a_kick_by_someone_else_also_lands_in_the_ledger() {
    let notice = decrease("70002", "30000");
    assert!(notice_removal(&notice));
    let trace = observe_inbound(&settings(), "90000", "10000", &notice, 5, "id");
    let kick = trace.kick.unwrap();
    assert_eq!(kick.user_id, "70002");
    assert_eq!(kick.operator_id, "30000");
}

#[test]
fn one_offenders_reason_history_is_bounded() {
    let mut history: Vec<ReasonEntry> = Vec::new();
    for index in 0..1_000i64 {
        history.push(ReasonEntry {
            reason: format!("理由 {index}"),
            duration: 60,
            banned_at: index,
            operator_id: "op".to_string(),
            record_id: format!("{index:012x}"),
        });
        trim_vec(&mut history, MAX_REASON_HISTORY_PER_OFFENDER);
    }
    assert_eq!(history.len(), MAX_REASON_HISTORY_PER_OFFENDER);
    assert_eq!(history.last().unwrap().reason, "理由 999");
    assert_eq!(
        history.first().unwrap().reason,
        format!("理由 {}", 1_000 - MAX_REASON_HISTORY_PER_OFFENDER)
    );
}

fn ban_record(user: &str, at: i64, reason: &str) -> BanRecord {
    BanRecord {
        record_id: format!("r{at}"),
        group_id: "90000".to_string(),
        user_id: user.to_string(),
        user_name: "名".to_string(),
        duration: 60,
        started_at: at,
        expires_at: at + 60,
        status: "active".to_string(),
        operator_id: "10000".to_string(),
        reason: reason.to_string(),
        source: "llm_tool".to_string(),
    }
}

#[test]
fn offenders_are_bounded_and_their_reasons_too() {
    let mut list: Vec<OffenderHistory> = Vec::new();
    for at in 0..200 {
        list = update_offender(list, &ban_record("11111", at, &format!("理由 {at}")), 2);
    }
    assert_eq!(list.len(), 1);
    assert_eq!(list[0].ban_count, 200);
    assert_eq!(list[0].total_duration, 200 * 60);
    assert_eq!(list[0].reason_history.len(), MAX_REASON_HISTORY_PER_OFFENDER);
    assert_eq!(list[0].last_reason, "理由 199");
    for at in 0..4 {
        list = update_offender(list, &ban_record(&format!("2000{at}"), 1000 + at, "x"), 2);
    }
    // Who was banned least, and longest ago, goes first.
    assert_eq!(list.len(), 2);
    assert!(list.iter().any(|o| o.user_id == "11111"));
    assert!(list.iter().any(|o| o.last_ban_at == 1003));
}

#[test]
fn kicks_and_events_keep_the_newest() {
    let mut kicks: Vec<KickRecord> = Vec::new();
    let mut events: Vec<ManagementEvent> = Vec::new();
    for at in 0..5 {
        append_kick(
            &mut kicks,
            &KickRecord {
                record_id: format!("k{at}"),
                group_id: "90000".to_string(),
                user_id: "11111".to_string(),
                user_name: "名".to_string(),
                kicked_at: at,
                operator_id: "10000".to_string(),
                reason: "".to_string(),
                reject_add_request: false,
                source: "llm_tool".to_string(),
            },
            3,
        );
        append_event(&mut events, &event("ban", "11111", at, 60, ""), 3);
    }
    assert_eq!(kicks.iter().map(|k| k.kicked_at).collect::<Vec<_>>(), vec![2, 3, 4]);
    assert_eq!(events.iter().map(|e| e.happened_at).collect::<Vec<_>>(), vec![2, 3, 4]);
}

#[test]
fn a_merged_stream_has_each_kick_once() {
    let kicks = vec![KickRecord {
        record_id: "kick-11111-7".to_string(),
        group_id: "90000".to_string(),
        user_id: "11111".to_string(),
        user_name: "名".to_string(),
        kicked_at: 7,
        operator_id: "10000".to_string(),
        reason: "".to_string(),
        reject_add_request: false,
        source: "llm_tool".to_string(),
    }];
    let merged =
        load_all_events_from(vec![event("kick", "11111", 7, 0, "")], &kicks, &Vec::new());
    assert_eq!(merged.len(), 1);
    let alone = load_all_events_from(Vec::new(), &kicks, &Vec::new());
    assert_eq!(alone.len(), 1);
    assert_eq!(alone[0].action, "kick");
    assert_eq!(alone[0].happened_at, 7);
}

#[test]
fn a_merged_stream_holds_what_only_the_offenders_tell() {
    let offenders = update_offender(Vec::new(), &ban_record("22222", 5, "spam"), 10);
    let merged =
        load_all_events_from(vec![event("kick", "11111", 7, 0, "")], &Vec::new(), &offenders);
    assert_eq!(merged.len(), 2);
    assert!(merged.iter().any(|e| e.action == "kick" && e.user_id == "11111"));
    assert!(merged.iter().any(|e| e.user_id == "22222" && e.reason == "spam"));
}

#[test]
fn a_quoted_list_is_a_list() {
    let list = Argument::List(vec![
        Scalar::Text("a".to_string()),
        Scalar::Unsigned(1),
        Scalar::Text("b".to_string()),
    ]);
    assert_eq!(string_list(Some(&list)), vec!["a", "b"]);
    assert_eq!(string_list(Some(&text("[\"a\", 2, \"b\\n\"]"))), vec!["a", "b\n"]);
    assert!(string_list(Some(&text("a, b"))).is_empty());
    assert!(string_list(Some(&text("{}"))).is_empty());
    assert!(string_list(None).is_empty());
}

#[test]
fn arguments_are_those_of_an_object_in_a_text() {
    let args = arguments_at("{\"a\": {\"b\": \"c\", \"d\": {}, \"e\": null}}", "/a");
    assert_eq!(args.entries.len(), 3);
    assert!(matches!(args.get("b"), Some(Argument::One(Scalar::Text(s))) if s == "c"));
    assert!(matches!(args.get("d"), Some(Argument::One(Scalar::Compound))));
    assert!(matches!(args.get("e"), Some(Argument::One(Scalar::Null))));
    assert!(args.get("a").is_none());
    assert!(arguments_at("[1]", "").entries.is_empty());
    assert!(arguments_at("no object", "").entries.is_empty());
    assert!(is_object_at("{\"a\": {}}", "/a"));
    assert!(!is_object_at("{\"a\": []}", "/a"));
    assert_eq!(text_under("{\"a\": \"x\"}", "a").as_deref(), Some("x"));
    assert_eq!(text_under("{\"a\": 1}", "a"), None);
}

#[test]
fn targets_come_once_and_are_bounded() {
    let twice = arguments(vec![("user_id", text("12345 12345"))]);
    assert_eq!(
        resolve_targets(&Vec::new(), &twice, &None, "10000"),
        Ok(vec!["12345".to_string()])
    );
    let many: Vec<String> = (0..=MAX_TARGETS).map(|i| format!("{}", 100_000 + i)).collect();
    let some = resolve_targets(&many, &arguments(vec![]), &None, "10000").unwrap();
    assert_eq!(some, many[..MAX_TARGETS].to_vec());
    assert!(resolve_targets(&Vec::new(), &arguments(vec![]), &None, "10000").is_err());
    let hints = TargetHints {
        mentioned: vec!["10000".to_string(), "22222".to_string()],
        replied_sender: Some("33333".to_string()),
    };
    let found = resolve_targets(&Vec::new(), &arguments(vec![]), &Some(hints), "10000").unwrap();
    assert!(!found.contains(&"10000".to_string()));
    assert!(found.contains(&"22222".to_string()));
}

#[test]
fn a_target_must_be_a_member_that_can_be_managed() {
    assert!(validate_target("11111", "10000", Some(member("11111", "member")), true).is_ok());
    assert!(validate_target("11111", "10000", None, true).is_err());
    assert!(validate_target("10000", "10000", Some(member("10000", "member")), true).is_err());
    assert!(validate_target("11111", "10000", Some(member("11111", "owner")), true).is_err());
    assert!(validate_target("11111", "10000", Some(member("11111", "admin")), true).is_err());
}

#[test]
fn reasons_are_bounded_by_characters() {
    let args = arguments(vec![("reason", text("  刷屏  "))]);
    assert_eq!(bounded_reason(&args, 2), Ok("刷屏".to_string()));
    assert!(bounded_reason(&args, 1).is_err());
    assert_eq!(bounded_reason(&arguments(vec![]), 1), Ok("".to_string()));
}

#[test]
fn limits_have_a_default_and_bounds() {
    let given = |n: u64| arguments(vec![("limit", Argument::One(Scalar::Unsigned(n)))]);
    assert!(limit(&given(0)) >= 1);
    assert_eq!(limit(&given(7)), 7);
    assert!(limit(&given(1_000_000)) < 1_000_000);
    assert!(limit(&arguments(vec![])) > 0);
}

#[test]
fn a_notice_names_a_member() {
    let m = notice_member("90000", "11111", "某人");
    assert_eq!(m.group_id, "90000");
    assert_eq!(m.user_id, "11111");
    assert_eq!(m.nickname, "某人");
}

#[test]
fn record_ids_are_twelve_hex_digits() {
    assert_eq!(record_id_from(0), "000000000000");
    assert_eq!(record_id_from(0xffff_0000_0000_00ab), "0000000000ab");
    assert_eq!(record_id_from(u64::MAX), "ffffffffffff");
    let id = record_id();
    assert_eq!(id.len(), 12);
    assert!(id.chars().all(|c| c.is_ascii_hexdigit()));
    assert!((0..8).any(|_| record_id() != id));
}

#[test]
fn only_administrators_look_at_other_groups() {
    let here = Conversation {
        platform: "onebot".to_string(),
        account_id: "10000".to_string(),
        kind: ConversationKind::Group,
        conversation_id: "90000".to_string(),
    };
    let other = arguments(vec![("group_id", text("91111"))]);
    assert!(resolve_query_scope(&other, &here, false).is_err());
    assert_eq!(resolve_query_scope(&other, &here, true).unwrap().conversation_id, "91111");
    let scope = resolve_query_scope(&arguments(vec![]), &here, false).unwrap();
    assert_eq!(scope.conversation_id, "90000");
}

#[test]
fn queries_name_a_known_action() {
    let (action, view) = query_history(&arguments(vec![])).unwrap();
    assert_eq!(action, "all");
    assert!(matches!(view, HistoryView::Events));
    assert!(query_history(&arguments(vec![("action", text("bogus"))])).is_err());
}

#[test]
fn keywords_are_compared_in_lower_case() {
    assert_eq!(lowercase_keyword(&arguments(vec![("keyword", text("ABC"))])), "abc");
    let shown = |name: &str| ShownEvent {
        time: "t".to_string(),
        user_name: name.to_string(),
        user_id: "11111".to_string(),
        operator_id: "10000".to_string(),
        reason: "刷屏".to_string(),
        detail: "".to_string(),
    };
    let mut first = event("ban", "11111", 1, 60, "Spam");
    first.user_name = "Alice".to_string();
    let second = event("ban", "22222", 2, 60, "other");
    let args = arguments(vec![("keyword", text("ALICE"))]);
    let listing = query_history_events(
        &args,
        "all",
        &vec![first, second],
        &vec![shown("Alice"), shown("Bob")],
        "90000",
        10,
    );
    assert!(listing.contains("Alice"));
    assert!(!listing.contains("Bob"));
}

#[test]
fn tools_are_offered_in_groups_only() {
    let all = register(&settings(), ConversationKind::Group, true);
    assert!(all.mute && all.kick && all.title);
    let none = register(&settings(), ConversationKind::Private, true);
    assert!(!none.mute && !none.kick && !none.title);
}

#[test]
fn a_ban_has_a_length_within_bounds() {
    let listed = vec!["12345".to_string()];
    let plain = ban(&settings(), &arguments(vec![]), &listed, &None, "10000");
    assert_eq!(plain.ok().unwrap().duration, 600);
    let long = arguments(vec![(
        "duration_seconds",
        Argument::One(Scalar::Unsigned(MAX_BAN_SECONDS + 1)),
    )]);
    let bounded = ban(&settings(), &long, &listed, &None, "10000");
    assert!(bounded.is_err() || bounded.ok().unwrap().duration <= MAX_BAN_SECONDS);
    assert!(kick(&settings(), &arguments(vec![]), &listed, &None, "10000").is_ok());
    assert!(kick(&settings(), &arguments(vec![]), &Vec::new(), &None, "10000").is_err());
    assert!(title(&settings(), &arguments(vec![]), &Vec::new(), &None, "10000").is_err());
}

#[test]
fn a_ban_leaves_a_record_that_ends() {
    let who = Acting {
        group_id: "90000".to_string(),
        account_id: "10000".to_string(),
        operator_id: "20000".to_string(),
        now: 1000,
        record_id: "abc".to_string(),
    };
    let trace = ban_one(&settings(), &who, "11111", &member("11111", "member"), 60, "刷屏");
    assert_eq!(trace.record.started_at, 1000);
    assert_eq!(trace.record.expires_at, 1060);
    assert_eq!(trace.record.reason, "刷屏");
    assert!(trace.update_offender);
}

#[test]
fn a_kick_is_verified_within_a_bounded_number_of_looks() {
    let (n, step) = verify_kick(0, KickEvent::BridgeFailed);
    assert!(matches!(step, KickStep::AskLedger | KickStep::Sleep(_)));
    assert!(matches!(verify_kick(n, KickEvent::Ledger(true)).1, KickStep::Done));
    assert!(matches!(verify_kick(n, KickEvent::MemberGone(true)).1, KickStep::Done));

    let mut at = n;
    let mut next = step;
    let mut looks = 0;
    loop {
        let event = match next {
            KickStep::AskLedger => KickEvent::Ledger(false),
            KickStep::AskMember => {
                looks += 1;
                KickEvent::MemberGone(false)
            }
            KickStep::Sleep(_) => KickEvent::Slept,
            KickStep::Done => panic!("nobody left"),
            KickStep::Failed => break,
        };
        let (m, s) = verify_kick(at, event);
        at = m;
        next = s;
        assert!(looks <= KICK_CHECKS);
    }
    assert_eq!(looks, KICK_CHECKS);
}

fn by_the_assistant() -> Acting {
    Acting {
        group_id: "90000".to_string(),
        account_id: "10000".to_string(),
        operator_id: "20000".to_string(),
        now: 500,
        record_id: "r1".to_string(),
    }
}

#[test]
fn a_removal_is_judged_by_whether_the_member_is_gone() {
    let error = || Some("retcode=100".to_string());
    let left = |verdict: &KickVerdict| {
        let target = member("30000", "member");
        kick_record(verdict, &settings(), &by_the_assistant(), "30000", &target, true, "刷屏")
    };

    let done = kick_verdict(None, KickStep::Done);
    assert!(left(&done).is_some());
    let outcome = kick_result("30000", done, vec![]);
    assert!(outcome.result.operation_succeeded && outcome.result.audit_succeeded);
    assert!(outcome.bridge_reported_error.is_none() && outcome.verified_by.is_none());
    assert_eq!(outcome.result.record_user_id.as_deref(), Some("30000"));

    let gone = kick_verdict(error(), KickStep::Done);
    let trace = left(&gone).unwrap();
    assert!(trace.record.reject_add_request);
    assert_eq!(trace.event.unwrap().action, "kick_black");
    let outcome = kick_result("30000", gone, vec!["event log: full".to_string()]);
    assert!(outcome.result.success && outcome.result.do_not_retry);
    assert!(!outcome.result.audit_succeeded);
    assert_eq!(outcome.bridge_reported_error.as_deref(), Some("retcode=100"));
    assert_eq!(outcome.verified_by.as_deref(), Some("group_member_fresh"));

    let failed = kick_verdict(error(), KickStep::Failed);
    assert!(left(&failed).is_none());
    let outcome = kick_result("30000", failed, vec![]);
    assert!(!outcome.result.success && !outcome.result.do_not_retry);
    assert_eq!(outcome.result.message, "retcode=100");
    assert_eq!(outcome.result.user_id.as_deref(), Some("30000"));
    assert!(outcome.bridge_reported_error.is_none());
}

fn job(user_id: &str, measure: Measure) -> Job {
    Job { user_id: user_id.to_string(), account_id: "10000".to_string(), measure }
}

/// The state in which the platform was asked to act on a plain member.
fn acting_on(job: &Job) -> JobState {
    let (state, step) = job_first(job);
    assert!(matches!(step, JobStep::LookUp(id) if id == job.user_id));
    let found = JobEvent::Found(Some(member(&job.user_id, "member")));
    let (state, step) = job_next(job, state, found);
    match step {
        JobStep::Act(id, _) => {
            assert_eq!(id, job.user_id);
            state
        }
        JobStep::Confirm => {
            let (state, step) = job_next(job, state, JobEvent::Confirmed);
            assert!(matches!(step, JobStep::Act(id, _) if id == job.user_id));
            state
        }
        _ => panic!("nothing is done"),
    }
}

fn failure_of(step: JobStep) -> String {
    match step {
        JobStep::Fail(why) => why,
        _ => panic!("no failure"),
    }
}

#[test]
fn only_a_member_that_passes_the_check_is_acted_on() {
    let (state, step) = job_first(&job("10000", Measure::Kick(false)));
    assert_eq!(failure_of(step), "不能对 顾清影 自身执行该操作");
    let (_, step) = job_next(
        &job("10000", Measure::Kick(false)),
        state,
        JobEvent::Found(Some(member("10000", "member"))),
    );
    assert!(matches!(step, JobStep::Nothing));

    for measure in [Measure::Mute(60), Measure::Kick(true)] {
        let job = job("30000", measure);
        let refused = |event: JobEvent| failure_of(job_next(&job, JobState::Finding, event).1);
        let manager = |role: &str| JobEvent::Found(Some(member("30000", role)));
        assert_eq!(refused(JobEvent::Found(None)), "目标不在当前群中");
        assert_eq!(refused(manager("owner")), "不能对群主或管理员执行该操作");
        assert_eq!(refused(manager("admin")), "不能对群主或管理员执行该操作");
        assert_eq!(refused(JobEvent::LookupFailed("timeout".to_string())), "timeout");
        let (state, step) = job_next(&job, JobState::Finding, JobEvent::Found(None));
        assert_eq!(failure_of(step), "目标不在当前群中");
        let (_, step) = job_next(&job, state, manager("member"));
        assert!(matches!(step, JobStep::Nothing));
    }
}

#[test]
fn a_mute_is_recorded_once_it_took_place() {
    let mute = job("30000", Measure::Mute(60));
    let (_, step) = job_next(&mute, acting_on(&mute), JobEvent::Acted(None));
    match step {
        JobStep::Record(who, KickVerdict::Done) => assert_eq!(who.user_id, "30000"),
        _ => panic!("a record"),
    }
    let failed = JobEvent::Acted(Some("no permission".to_string()));
    let (_, step) = job_next(&mute, acting_on(&mute), failed);
    assert_eq!(failure_of(step), "no permission");
    let (state, step) = job_next(&mute, acting_on(&mute), JobEvent::Confirmed);
    assert!(matches!(step, JobStep::Nothing));
    assert!(matches!(state, JobState::Acting(_)));
}

#[test]
fn a_title_waits_for_its_confirmation() {
    let title = job("30000", Measure::Title("组长".to_string(), -1));
    let found = || JobEvent::Found(Some(member("30000", "owner")));
    let (state, step) = job_next(&title, JobState::Finding, found());
    assert!(matches!(step, JobStep::Confirm));
    let (state, step) = job_next(&title, state, JobEvent::Prompted("again".to_string()));
    assert!(matches!(step, JobStep::Prompt(p) if p == "again"));
    assert!(matches!(job_next(&title, state, JobEvent::Confirmed).1, JobStep::Nothing));

    let (state, _) = job_next(&title, JobState::Finding, found());
    let broken = JobEvent::ConfirmFailed("closed".to_string());
    assert!(matches!(job_next(&title, state, broken).1, JobStep::Raise(e) if e == "closed"));

    let (state, _) = job_next(&title, JobState::Finding, found());
    match job_next(&title, state, JobEvent::Confirmed).1 {
        JobStep::Act(id, Measure::Title(name, lasts)) => {
            assert_eq!((id.as_str(), name.as_str(), lasts), ("30000", "组长", -1));
        }
        _ => panic!("the title"),
    }
}

#[test]
fn a_removal_reported_as_failed_is_looked_into() {
    let kick = job("30000", Measure::Kick(true));
    let failed = || JobEvent::Acted(Some("retcode=100".to_string()));

    let (state, step) = job_next(&kick, acting_on(&kick), failed());
    assert!(matches!(step, JobStep::Look(KickStep::AskLedger)));
    let (state, step) = job_next(&kick, state, JobEvent::Looked(KickEvent::Slept));
    assert!(matches!(step, JobStep::Nothing));
    let (_, step) = job_next(&kick, state, JobEvent::Looked(KickEvent::Ledger(true)));
    match step {
        JobStep::Record(who, KickVerdict::Gone(error)) => {
            assert_eq!((who.user_id.as_str(), error.as_str()), ("30000", "retcode=100"));
        }
        _ => panic!("a record"),
    }

    let (mut state, mut step) = job_next(&kick, acting_on(&kick), failed());
    let mut looks = 0;
    loop {
        let event = match step {
            JobStep::Look(KickStep::AskLedger) => KickEvent::Ledger(false),
            JobStep::Look(KickStep::AskMember) => {
                looks += 1;
                KickEvent::MemberGone(false)
            }
            JobStep::Look(KickStep::Sleep(ms)) => {
                assert_eq!(ms, 900);
                KickEvent::Slept
            }
            other => {
                assert_eq!(failure_of(other), "retcode=100");
                break;
            }
        };
        (state, step) = job_next(&kick, state, JobEvent::Looked(event));
    }
    assert_eq!(looks, KICK_CHECKS);
    assert!(matches!(state, JobState::Over));
}

#[test]
fn a_call_takes_its_targets_in_turn_once_confirmed() {
    let targets = vec!["30000".to_string(), "40000".to_string()];
    let prompt = BatchEvent::Prompted("again".to_string());
    let (state, step) = batch_next(&targets, BatchState::Waiting, prompt);
    assert!(matches!(step, BatchStep::Prompt(p) if p == "again"));
    assert!(matches!(batch_next(&targets, state, BatchEvent::Confirmed).1, BatchStep::Nothing));
    let broken = BatchEvent::ConfirmFailed("closed".to_string());
    let (_, step) = batch_next(&targets, BatchState::Waiting, broken);
    assert!(matches!(step, BatchStep::Raise(e) if e == "closed"));

    let early = BatchEvent::Ended(failure_for_target("early", "30000"));
    let (state, step) = batch_next(&targets, BatchState::Waiting, early);
    assert!(matches!(step, BatchStep::Nothing));
    let (state, step) = batch_next(&targets, state, BatchEvent::Confirmed);
    assert!(matches!(step, BatchStep::Begin(id) if id == "30000"));
    let first = BatchEvent::Ended(failure_for_target("gone", "30000"));
    let (state, step) = batch_next(&targets, state, first);
    assert!(matches!(step, BatchStep::Begin(id) if id == "40000"));
    let second = external_operation_result(vec![], None, Some("40000".to_string()));
    let (_, step) = batch_next(&targets, state, BatchEvent::Ended(second));
    match step {
        BatchStep::Answer(answer) => {
            assert_eq!(answer.failed_target_ids, vec!["30000"]);
            assert_eq!(answer.successful_target_ids, vec!["40000"]);
            assert!(answer.retry_failed_targets_only && !answer.do_not_retry);
        }
        _ => panic!("an answer"),
    }
}

fn logged(action: &str, user_id: &str, duration: u64) -> ManagementEvent {
    ManagementEvent {
        record_id: String::new(),
        action: action.to_string(),
        user_id: user_id.to_string(),
        user_name: String::new(),
        duration,
        happened_at: 1,
        operator_id: String::new(),
        reason: String::new(),
        source: String::new(),
        detail: String::new(),
    }
}

#[test]
fn mutes_are_counted_alike_with_and_without_the_rest() {
    let events = vec![
        logged("ban", "1", 60),
        logged("kick", "2", 0),
        logged("ban", "2", u64::MAX),
        logged("unban", "1", 0),
        logged("ban", "2", 5),
        logged("title_set", "1", 0),
        logged("kick_black", "3", 0),
    ];
    let all = aggregate_member_stats("all", &events);
    let muted = aggregate_member_stats("ban", &events);
    assert_eq!(all.len(), 3);
    assert_eq!(muted.len(), 2);
    for one in &muted {
        let same = all.iter().find(|s| s.user_id == one.user_id).unwrap();
        assert_eq!(one.ban_count, same.ban_count);
        assert_eq!(one.total_ban_duration, same.total_ban_duration);
        assert_eq!((one.kick_count, one.title_count), (0, 0));
    }
    let first = all.iter().find(|s| s.user_id == "1").unwrap();
    assert_eq!((first.ban_count, first.total_ban_duration, first.title_count), (1, 60, 1));
    let second = all.iter().find(|s| s.user_id == "2").unwrap();
    assert_eq!((second.ban_count, second.total_ban_duration), (2, u64::MAX));
    assert_eq!(second.kick_count, 1);
}
