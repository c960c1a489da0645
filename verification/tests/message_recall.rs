use gqy::arguments::{Argument, Arguments, Entry, Scalar};
use gqy::group_management::tools::BotGroupRole;
use gqy::message_recall::{
    already_recalled, belongs, check_withdrawal, content_preview, explicit_id, failure_response,
    lookup_failed, message_ids_arg, needs_role, recall_failure_response, replied_info, reply_id,
    resolve_target, response, select_target, sender_label, text_preview, withdraw_result,
    withdraw_start, withdraw_summary, RecallPlan, RecallStart, RecallTarget, TargetSource,
};
use gqy::platform::{Conversation, ConversationKind, Media, MediaKind, MessageInfo};
use gqy::recall_memory::RecallState;
use gqy::withdrawal::{
    withdraw_first, withdraw_next, WithdrawEvent, WithdrawState, WithdrawStep,
};

fn text(s: &str) -> Argument {
    Argument::One(Scalar::Text(s.to_string()))
}

fn arguments(list: Vec<(&str, Argument)>) -> Arguments {
    Arguments {
        entries: list
            .into_iter()
            .map(|(key, value)| Entry { key: key.to_string(), value })
            .collect(),
    }
}

#[test]
fn negative_ids_and_batch_argument_are_accepted() {
    assert_eq!(
        explicit_id(&arguments(vec![("message_id", text("-178436401"))])).unwrap(),
        Some("-178436401".to_string())
    );
    assert_eq!(
        explicit_id(&arguments(vec![(
            "message_id",
            Argument::One(Scalar::Negative(-178436401i64))
        )]))
        .unwrap(),
        Some("-178436401".to_string())
    );
    let list = vec![
        Scalar::Text("123".to_string()),
        Scalar::Negative(-5),
        Scalar::Text("678".to_string()),
    ];
    assert_eq!(
        message_ids_arg(&arguments(vec![("message_ids", Argument::List(list))])).unwrap(),
        vec!["123", "-5", "678"]
    );
    let bad = vec![Scalar::Text("abc".to_string())];
    assert!(message_ids_arg(&arguments(vec![("message_ids", Argument::List(bad))])).is_err());
    assert!(message_ids_arg(&arguments(vec![])).unwrap().is_empty());
    let too_many: Vec<Scalar> = (0..21).map(|n| Scalar::Unsigned(n)).collect();
    assert!(message_ids_arg(&arguments(vec![("message_ids", Argument::List(too_many))])).is_err());
}

#[test]
fn explicit_message_id_must_be_numeric() {
    assert_eq!(
        explicit_id(&arguments(vec![("message_id", text("123"))])).unwrap(),
        Some("123".to_string())
    );
    assert!(explicit_id(&arguments(vec![("message_id", text("abc"))])).is_err());
    assert_eq!(
        explicit_id(&arguments(vec![("message_id", Argument::One(Scalar::Unsigned(123)))]))
            .unwrap(),
        Some("123".to_string())
    );
    assert_eq!(explicit_id(&arguments(vec![])).unwrap(), None);
    assert!(explicit_id(&arguments(vec![(
        "message_id",
        Argument::One(Scalar::Unsigned(i32::MAX as u64 + 1))
    )]))
    .is_err());
}

#[test]
fn response_contract_is_structured_json() {
    let value = response(true, "ok");
    assert_eq!(value.success, true);
    assert_eq!(value.message, "ok");
}

#[test]
fn quoted_group_target_overrides_any_model_argument() {
    let target = select_target(
        Some("current-request-id".to_string()),
        Some("quoted-target-id".to_string()),
    )
    .unwrap();
    assert_eq!(target.message_id, "quoted-target-id");
    assert_eq!(target.source, TargetSource::Reply);

    let target = select_target(None, Some("quoted-target-id".to_string())).unwrap();
    assert_eq!(target.message_id, "quoted-target-id");
    assert_eq!(target.source, TargetSource::Reply);
}

#[test]
fn batch_ids_are_not_hijacked_by_the_reply_target() {
    for id in ["batch-1", "batch-2"] {
        let target = resolve_target(
            Some(id.to_string()),
            None,
            Some("quoted-target-id".to_string()),
        )
        .unwrap();
        assert_eq!(target.message_id, id);
        assert_eq!(target.source, TargetSource::Argument);
    }
    let target =
        resolve_target(None, Some("model-guess".to_string()), Some("quoted".into())).unwrap();
    assert_eq!(target.message_id, "quoted");
    assert_eq!(target.source, TargetSource::Reply);
}

#[test]
fn non_reply_group_target_uses_verified_argument() {
    let target = select_target(Some("history-id".to_string()), None).unwrap();
    assert_eq!(target.message_id, "history-id");
    assert_eq!(target.source, TargetSource::Argument);
    assert!(select_target(None, None).is_err());
}

fn target(id: &str) -> RecallTarget {
    RecallTarget { message_id: id.to_string(), source: TargetSource::Reply }
}

#[test]
fn napcat_decode_failure_is_non_retryable_and_truthful() {
    let value = recall_failure_response(
        "OneBot API delete_msg failed: retcode=1200, decode failed",
        &target("600025761"),
        false,
        "",
    );
    assert_eq!(value.success, false);
    assert_eq!(value.retryable, Some(false));
    assert_eq!(value.code.as_deref(), Some("napcat_recall_decode_failed"));
    assert_eq!(value.message_id.as_deref(), Some("600025761"));
    assert!(value.message.contains("没有被撤回"));
    let other = recall_failure_response("timeout", &target("1"), false, "");
    assert_eq!(other.code.as_deref(), Some("qq_recall_failed"));
}

fn info_with(sender_id: &str, display_name: &str, text: &str) -> MessageInfo {
    MessageInfo {
        message_id: "1".into(),
        sender_id: sender_id.into(),
        sender_display_name: display_name.into(),
        text: text.into(),
        media: Vec::new(),
        conversation_kind: None,
        conversation_id: None,
    }
}

#[test]
fn sender_label_falls_back_to_the_bare_id() {
    assert_eq!(sender_label(&info_with("123456", "张三", "x")), "张三(123456)");
    assert_eq!(sender_label(&info_with("123456", "   ", "x")), "123456");
}

#[test]
fn content_preview_shows_media_as_placeholders() {
    let mut info = info_with("1", "a", "看这个");
    info.media = vec![
        Media { kind: MediaKind::Image, id: None, name: None, url: None },
        Media {
            kind: MediaKind::File,
            id: None,
            name: Some("报告.pdf".into()),
            url: None,
        },
    ];
    assert_eq!(content_preview(&info, 80), "[图片] [文件 报告.pdf] 看这个");
    let mut voice = info_with("1", "a", "");
    voice.media = vec![Media { kind: MediaKind::Audio, id: None, name: None, url: None }];
    assert_eq!(content_preview(&voice, 80), "[语音]");
}

#[test]
fn text_preview_flattens_and_cuts_by_characters() {
    assert_eq!(
        text_preview("第一行\n第二行  第三行", 80),
        "第一行 第二行 第三行"
    );
    assert_eq!(text_preview("短句", 80), "短句");
    let long = "字".repeat(81);
    let cut = text_preview(&long, 80);
    assert_eq!(cut.chars().count(), 81);
    assert!(cut.ends_with('…'));
    assert_eq!(text_preview(&"字".repeat(80), 80).chars().count(), 80);
}

fn here(kind: ConversationKind) -> Conversation {
    Conversation {
        platform: "onebot".to_string(),
        account_id: "10000".to_string(),
        kind,
        conversation_id: "90000".to_string(),
    }
}

#[test]
fn a_withdrawal_starts_with_a_target_and_a_short_reason() {
    let args = arguments(vec![("reason", text("手滑"))]);
    match withdraw_start(None, &args, Some("7".to_string()), 10) {
        RecallStart::Plan(p) => {
            assert_eq!(p.target.message_id, "7");
            assert_eq!(p.reason, "手滑");
        }
        _ => panic!("a plan"),
    }
    assert!(matches!(
        withdraw_start(None, &args, Some("7".to_string()), 1),
        RecallStart::Error(_)
    ));
    assert!(!matches!(withdraw_start(None, &args, None, 10), RecallStart::Plan(_)));
}

#[test]
fn the_messages_of_others_need_a_role() {
    let group = here(ConversationKind::Group);
    let mut other = info_with("55555", "某人", "x");
    other.conversation_kind = Some(ConversationKind::Group);
    other.conversation_id = Some("90000".to_string());
    assert!(belongs(&group, &other));
    assert!(needs_role(&other, &group));
    assert!(check_withdrawal(&target("1"), &other, &group, BotGroupRole::Admin, "x").is_none());
    let refused = check_withdrawal(&target("1"), &other, &group, BotGroupRole::Member, "x").unwrap();
    assert!(!refused.success);
    let mut own = info_with("10000", "影", "x");
    own.conversation_kind = Some(ConversationKind::Group);
    own.conversation_id = Some("90000".to_string());
    assert!(!needs_role(&own, &group));
    assert!(check_withdrawal(&target("1"), &own, &group, BotGroupRole::Member, "x").is_none());
    let mut elsewhere = info_with("10000", "影", "x");
    elsewhere.conversation_id = Some("91111".to_string());
    elsewhere.conversation_kind = Some(ConversationKind::Group);
    assert!(check_withdrawal(&target("1"), &elsewhere, &group, BotGroupRole::Owner, "x").is_some());
}

#[test]
fn a_withdrawal_tells_how_it_ended() {
    let plan = RecallPlan { target: target("7"), reason: "手滑".to_string() };
    let info = info_with("10000", "影", "x");
    let done = withdraw_result(&plan, &info, "10000", None, true, "x");
    assert!(done.success);
    let failed = withdraw_result(&plan, &info, "10000", Some("timeout".to_string()), false, "x");
    assert!(!failed.success);
    assert!(already_recalled(&plan).already_recalled);
    assert!(!lookup_failed(&plan.target, None).success);
    assert!(!failure_response("code", true, "no").success);
    let sum = withdraw_summary(&vec![true, false, true]);
    assert_eq!((sum.succeeded, sum.failed), (2, 1));
}

#[test]
fn only_the_quoted_message_is_known() {
    let replied = Some(info_with("1", "a", "x"));
    assert!(replied_info(&replied, "1").is_some());
    assert!(replied_info(&replied, "2").is_none());
    assert_eq!(reply_id(&Some("5".to_string())).as_deref(), Some("5"));
    assert_eq!(reply_id(&None), None);
}

#[test]
fn withdrawals_are_remembered_for_a_while() {
    let mut state = RecallState::new();
    assert_eq!(state.observe_recall("g", "1", 100, 50), None);
    assert!(state.recorded_recalled("g", "1", 149, 50));
    assert!(!state.recorded_recalled("g", "2", 149, 50));
    assert!(!state.recorded_recalled("g", "1", 1000, 50));
}

#[test]
fn a_withdrawn_message_ends_its_turn() {
    let mut state = RecallState::new();
    assert!(!state.turn_started("g", "1", 77, 100, 50));
    assert_eq!(state.observe_recall("g", "1", 101, 50), Some(77));
    assert!(state.turn_started("g", "1", 78, 102, 50));
    state.after_turn_aborted("g", "1");
    assert_eq!(state.observe_recall("g", "1", 103, 50), None);
}

#[test]
fn what_was_sent_last_is_bounded() {
    let mut state = RecallState::new();
    for i in 0..5 {
        state.after_send("g", &None, &vec![format!("m{i}")], 3, 100);
    }
    assert_eq!(state.scopes[0].sent, vec!["m2", "m3", "m4"]);
    state.forget_sent("g", "m3");
    assert_eq!(state.scopes[0].sent, vec!["m2", "m4"]);
}

#[test]
fn conversations_are_forgotten_for_want_of_room() {
    let mut state = RecallState::new();
    for i in 0..600u64 {
        state.observe_recall(&format!("g{i}"), "1", 100 + i, 10_000);
    }
    state.prune(1000, 10_000);
    assert_eq!(state.scopes.len(), 512);
    assert!(state.recorded_recalled("g599", "1", 1000, 10_000));
    assert!(!state.recorded_recalled("g0", "1", 1000, 10_000));
}

/// Withdraws message 7: what is asked for is answered in turn, and the deletions that
/// were asked for are listed with the answer.
fn run_withdrawal(
    kind: ConversationKind,
    replied: Option<MessageInfo>,
    answers: Vec<WithdrawEvent>,
) -> (Vec<String>, WithdrawStep) {
    let (mut state, mut step) =
        withdraw_first(Some("7".to_string()), &arguments(vec![]), None, 100);
    let mut deleted = Vec::new();
    for event in answers {
        if let WithdrawStep::Delete(id) = &step {
            deleted.push(id.clone());
        }
        (state, step) = withdraw_next(&here(kind), &replied, state, event);
    }
    assert!(matches!(state, WithdrawState::Over));
    (deleted, step)
}

fn found(sender_id: &str) -> MessageInfo {
    MessageInfo {
        message_id: "7".to_string(),
        conversation_kind: Some(ConversationKind::Group),
        conversation_id: Some(here(ConversationKind::Group).conversation_id),
        ..info_with(sender_id, "名", "内容")
    }
}

#[test]
fn a_message_is_deleted_once_and_only_with_authority() {
    let own = here(ConversationKind::Group).account_id;
    let safe = || WithdrawEvent::Content("内容".to_string());

    let (deleted, step) = run_withdrawal(
        ConversationKind::Group,
        None,
        vec![
            WithdrawEvent::Recorded(false),
            WithdrawEvent::Found(found(&own)),
            safe(),
            WithdrawEvent::Deleted(None),
        ],
    );
    assert_eq!(deleted, vec!["7"]);
    let WithdrawStep::Finish(reply, forget) = step else { panic!("an answer") };
    assert!(reply.success && !reply.already_recalled);
    assert_eq!(reply.target_kind.as_deref(), Some("gqy"));
    assert_eq!(forget.as_deref(), Some("7"));

    let (deleted, step) = run_withdrawal(
        ConversationKind::Group,
        Some(found("55555")),
        vec![
            WithdrawEvent::Recorded(false),
            safe(),
            WithdrawEvent::Role(BotGroupRole::Admin),
            WithdrawEvent::Deleted(Some("busy".to_string())),
            WithdrawEvent::Recorded(true),
        ],
    );
    assert_eq!(deleted, vec!["7"]);
    let WithdrawStep::Finish(reply, forget) = step else { panic!("an answer") };
    assert!(reply.success && reply.already_recalled);
    assert!(forget.is_none());

    let (deleted, step) = run_withdrawal(
        ConversationKind::Group,
        Some(found("55555")),
        vec![WithdrawEvent::Recorded(false), safe(), WithdrawEvent::Role(BotGroupRole::Member)],
    );
    assert!(deleted.is_empty());
    let WithdrawStep::Finish(reply, _) = step else { panic!("an answer") };
    assert_eq!(reply.code.as_deref(), Some("permission_denied"));

    let (deleted, step) = run_withdrawal(
        ConversationKind::Private,
        Some(found("55555")),
        vec![WithdrawEvent::Recorded(false), safe()],
    );
    assert!(deleted.is_empty());
    let WithdrawStep::Finish(reply, _) = step else { panic!("an answer") };
    assert_eq!(reply.code.as_deref(), Some("wrong_conversation"));
}

#[test]
fn a_withdrawal_on_record_ends_it() {
    let (deleted, step) = run_withdrawal(
        ConversationKind::Group,
        None,
        vec![WithdrawEvent::Recorded(true), WithdrawEvent::Deleted(None)],
    );
    assert!(deleted.is_empty());
    assert!(matches!(step, WithdrawStep::Nothing));

    let (deleted, step) = run_withdrawal(
        ConversationKind::Group,
        None,
        vec![WithdrawEvent::Recorded(false), WithdrawEvent::NotFound(None)],
    );
    assert!(deleted.is_empty());
    let WithdrawStep::Finish(reply, _) = step else { panic!("an answer") };
    assert_eq!(reply.code.as_deref(), Some("message_not_found"));

    let (state, step) = withdraw_first(None, &arguments(vec![]), None, 100);
    assert!(matches!(state, WithdrawState::Over));
    let WithdrawStep::Finish(reply, _) = step else { panic!("an answer") };
    assert_eq!(reply.code.as_deref(), Some("target_required"));
}
