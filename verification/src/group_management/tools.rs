//! What the moderation tools do: which are offered, what a call asks for, what is
//! recorded of it, and what a notice of the platform leaves behind.

use crate::arguments::{Argument, Arguments, Scalar};
use crate::group_management::args::{
    aggregate_target_results, batch_result, bounded_reason, done_result, duration_words,
    external_operation_result, failed_result, failure_for_target, humanize_seconds, reason_of,
    resolve_targets, target_verdict, targets_of, validate_target, BanOutcome, BanOutcomeModel,
    BatchResult, BatchResultModel, TargetHints, TargetResult, TargetResultModel, MAX_BAN_SECONDS,
};
use crate::group_management::records::{
    kick_event, BanRecord, BanRecordModel, KickRecord, KickRecordModel, ManagementEvent,
    ManagementEventModel,
};
use crate::numbers::{as_signed, decimal, decimal_text, i64_bounded, saturating_sum, signed_bits};
use crate::platform::{ConversationKind, GroupMember, GroupMemberModel};
use crate::text::{
    copy_or_empty, is_empty_text, law_writing_on_loses_nothing, occurs, opt_is, opt_text, opt_view, same, text_or_none, texts, trim,
    trimmed, views,
};
use vstd::prelude::*;
use vstd::string::*;

verus! {

/// The settings of the moderation tools.
#[derive(Clone, Copy)]
pub struct Settings {
    pub enable_tool: bool,
    pub enable_kick_tool: bool,
    pub enable_special_title_tool: bool,
    pub enable_record: bool,
    pub enable_offender_history: bool,
    pub sync_external_unmute_notice: bool,
    pub default_duration_seconds: u64,
    pub max_reason_length: usize,
    pub max_records_per_group: usize,
    pub max_kick_history_per_group: usize,
    pub max_offender_history_per_group: usize,
    pub max_special_title_length: usize,
    pub max_special_title_duration_seconds: i64,
}

/// Which tools a turn offers.
#[derive(Clone, Copy, Debug, PartialEq, Eq, Structural)]
pub struct Offered {
    pub mute: bool,
    pub kick: bool,
    pub title: bool,
    pub history_query: bool,
}

/// The tools that a turn offers: in a group each action that is switched on and,
/// where mutes or removals are, the history; elsewhere only the history, and only
/// to an administrator.
pub fn register(settings: &Settings, kind: ConversationKind, is_admin: bool) -> (r: Offered)
    ensures
        kind == ConversationKind::Group ==> r == (Offered {
            mute: settings.enable_tool,
            kick: settings.enable_kick_tool,
            title: settings.enable_special_title_tool,
            history_query: settings.enable_tool || settings.enable_kick_tool,
        }),
        kind != ConversationKind::Group ==> r == (Offered {
            mute: false,
            kick: false,
            title: false,
            history_query: (settings.enable_tool || settings.enable_kick_tool) && is_admin,
        }),
{
    let query: bool = settings.enable_tool || settings.enable_kick_tool;
    if kind != ConversationKind::Group {
        return Offered { mute: false, kick: false, title: false, history_query: query && is_admin };
    }
    Offered {
        mute: settings.enable_tool,
        kick: settings.enable_kick_tool,
        title: settings.enable_special_title_tool,
        history_query: query,
    }
}

/// The actions that the management tool lists.
pub open spec fn offered_actions(o: Offered) -> Seq<Seq<char>> {
    (if o.mute {
        seq!["mute"@]
    } else {
        seq![]
    }) + (if o.kick {
        seq!["kick"@]
    } else {
        seq![]
    }) + (if o.title {
        seq!["title"@]
    } else {
        seq![]
    })
}

/// The actions that the management tool lists.
pub fn manage_actions(o: Offered) -> (r: Vec<String>)
    ensures
        texts(r@) == offered_actions(o),
{
    let mut out: Vec<String> = Vec::new();
    if o.mute {
        out.push("mute".to_owned());
    }
    if o.kick {
        out.push("kick".to_owned());
    }
    if o.title {
        out.push("title".to_owned());
    }
    assert(texts(out@) =~= offered_actions(o));
    out
}

/// The arguments that the management tool takes.
pub open spec fn offered_properties(o: Offered) -> Seq<Seq<char>> {
    seq!["action"@, "user_id"@, "reason"@, "confirmation_token"@] + (if o.mute {
        seq!["duration_seconds"@]
    } else {
        seq![]
    }) + (if o.kick {
        seq!["user_ids"@, "blacklist"@]
    } else {
        seq![]
    }) + (if o.title {
        seq!["special_title"@]
    } else {
        seq![]
    })
}

/// The arguments that the management tool takes: those of every action, and those
/// of the actions that it lists.
pub fn manage_properties(o: Offered) -> (r: Vec<String>)
    ensures
        texts(r@) == offered_properties(o),
{
    let mut out: Vec<String> = Vec::new();
    out.push("action".to_owned());
    out.push("user_id".to_owned());
    out.push("reason".to_owned());
    out.push("confirmation_token".to_owned());
    if o.mute {
        out.push("duration_seconds".to_owned());
    }
    if o.kick {
        out.push("user_ids".to_owned());
        out.push("blacklist".to_owned());
    }
    if o.title {
        out.push("special_title".to_owned());
    }
    assert(texts(out@) =~= offered_properties(o));
    out
}

/// What a call of the management tool is to do.
#[derive(Clone, Copy, Debug, PartialEq, Eq, Structural)]
pub enum ManageAction {
    Mute,
    Kick,
    Title,
}

/// What a call is to do, or why it is refused.
pub open spec fn manage_action(o: Offered, action: Seq<char>) -> Result<ManageAction, Seq<char>> {
    if action == "mute"@ && o.mute {
        Ok(ManageAction::Mute)
    } else if action == "kick"@ && o.kick {
        Ok(ManageAction::Kick)
    } else if action == "title"@ && o.title {
        Ok(ManageAction::Title)
    } else if action == "mute"@ || action == "kick"@ || action == "title"@ {
        Err("this action is disabled for this group"@)
    } else {
        Err("unknown action: "@ + action + "; expected mute, kick or title"@)
    }
}

/// What a call of the management tool is to do; an action that is switched off
/// and one that does not exist are refused.
pub fn register_manage(o: Offered, args: &Arguments) -> (r: Result<ManageAction, String>)
    ensures
        ({
            let wanted = manage_action(o, text_or_none(args.text_at("action"@)));
            match r {
                Ok(a) => wanted == Ok::<ManageAction, Seq<char>>(a),
                Err(e) => wanted == Err::<ManageAction, Seq<char>>(e@),
            }
        }),
{
    let action: String = args.text_or_empty("action");
    let mute: bool = same(&action, "mute");
    let kick: bool = same(&action, "kick");
    let title: bool = same(&action, "title");
    if mute && o.mute {
        return Ok(ManageAction::Mute);
    }
    if kick && o.kick {
        return Ok(ManageAction::Kick);
    }
    if title && o.title {
        return Ok(ManageAction::Title);
    }
    if mute || kick || title {
        return Err("this action is disabled for this group".to_owned());
    }
    let mut m: String = "unknown action: ".to_owned();
    m.append(&action);
    m.append("; expected mute, kick or title");
    Err(m)
}

/// The notice that the model gets in a group; none elsewhere.
pub fn before_turn(kind: ConversationKind) -> (r: Option<&'static str>)
    ensures
        match r {
            Some(s) => kind == ConversationKind::Group && s@
                == "<qq-group-management>Call the moderation tool before any group-management action, and claim it done only after the tool reports success. For sensitive actions from ordinary members, the tool may ask you to repeat the identical call this turn to confirm.</qq-group-management>"@,
            None => kind != ConversationKind::Group,
        },
{
    if kind == ConversationKind::Group {
        Some(
            "<qq-group-management>Call the moderation tool before any group-management action, and claim it done only after the tool reports success. For sensitive actions from ordinary members, the tool may ask you to repeat the identical call this turn to confirm.</qq-group-management>",
        )
    } else {
        None
    }
}

/// The role of the assistant in a group.
#[derive(Clone, Copy, Debug, PartialEq, Eq, Structural)]
pub enum BotGroupRole {
    Owner,
    Admin,
    Member,
    Unknown,
}

/// The name under which the role is kept.
pub fn prepare_role(role: BotGroupRole) -> (r: &'static str)
    ensures
        r@ == (match role {
            BotGroupRole::Owner => "owner"@,
            BotGroupRole::Admin => "admin"@,
            BotGroupRole::Member => "member"@,
            BotGroupRole::Unknown => "unknown"@,
        }),
{
    match role {
        BotGroupRole::Owner => "owner",
        BotGroupRole::Admin => "admin",
        BotGroupRole::Member => "member",
        BotGroupRole::Unknown => "unknown",
    }
}

// ---------------------------------------------------------------------------
// What a call asks for

/// Why a call is not carried out.
pub struct Refusal {
    /// Whether the tool answers with the message, rather than fail with it.
    pub is_reply: bool,
    pub message: String,
}

/// What a [`Refusal`] holds, as values.
#[verifier::ext_equal]
pub struct RefusalModel {
    pub is_reply: bool,
    pub message: Seq<char>,
}

impl View for Refusal {
    type V = RefusalModel;

    open spec fn view(&self) -> RefusalModel {
        RefusalModel {
            is_reply: self.is_reply,
            message: self.message@,
        }
    }
}


/// A mute as it is to be carried out.
pub struct BanRequest {
    pub duration: u64,
    pub reason: String,
    pub targets: Vec<String>,
}

/// What a [`BanRequest`] holds, as values.
#[verifier::ext_equal]
pub struct BanRequestModel {
    pub duration: u64,
    pub reason: Seq<char>,
    pub targets: Seq<Seq<char>>,
}

impl View for BanRequest {
    type V = BanRequestModel;

    open spec fn view(&self) -> BanRequestModel {
        BanRequestModel {
            duration: self.duration,
            reason: self.reason@,
            targets: texts(self.targets@),
        }
    }
}


/// A removal as it is to be carried out.
pub struct KickRequest {
    pub blacklist: bool,
    pub reason: String,
    pub targets: Vec<String>,
}

/// What a [`KickRequest`] holds, as values.
#[verifier::ext_equal]
pub struct KickRequestModel {
    pub blacklist: bool,
    pub reason: Seq<char>,
    pub targets: Seq<Seq<char>>,
}

impl View for KickRequest {
    type V = KickRequestModel;

    open spec fn view(&self) -> KickRequestModel {
        KickRequestModel {
            blacklist: self.blacklist,
            reason: self.reason@,
            targets: texts(self.targets@),
        }
    }
}


/// A title as it is to be set.
pub struct TitleRequest {
    pub target: String,
    pub title: String,
    pub duration: i64,
    pub reason: String,
}

/// What a [`TitleRequest`] holds, as values.
#[verifier::ext_equal]
pub struct TitleRequestModel {
    pub target: Seq<char>,
    pub title: Seq<char>,
    pub duration: i64,
    pub reason: Seq<char>,
}

impl View for TitleRequest {
    type V = TitleRequestModel;

    open spec fn view(&self) -> TitleRequestModel {
        TitleRequestModel {
            target: self.target@,
            title: self.title@,
            duration: self.duration,
            reason: self.reason@,
        }
    }
}


/// The duration that a mute asks for.
pub open spec fn asked_duration(args: Arguments, default_seconds: u64) -> u64 {
    match args.unsigned_at("duration_seconds"@) {
        Some(n) => n,
        None => match args.unsigned_at("duration"@) {
            Some(n) => n,
            None => default_seconds,
        },
    }
}

/// A mute as it is to be carried out, or why not.
pub open spec fn ban_request(
    settings: Settings,
    args: Arguments,
    targets: Seq<Seq<char>>,
) -> Result<BanRequestModel, RefusalModel> {
    let duration = asked_duration(args, settings.default_duration_seconds);
    if duration > MAX_BAN_SECONDS {
        Err(
            RefusalModel {
                is_reply: true,
                message: "禁言时长上限 2592000 秒（30 天），收到 "@ + decimal(duration as nat)
                    + " 秒；注意该参数的单位是秒"@,
            },
        )
    } else {
        match reason_of(args, settings.max_reason_length as nat) {
            Err(e) => Err(RefusalModel { is_reply: false, message: e }),
            Ok(reason) => if targets.len() == 0 {
                Err(RefusalModel { is_reply: false, message: "未找到有效的目标 QQ 号"@ })
            } else {
                Ok(BanRequestModel { duration: duration, reason: reason, targets: targets })
            },
        }
    }
}

/// A mute as it is to be carried out. The duration is in seconds; one over thirty
/// days is answered with an explanation. Then the reason and the targets are
/// checked.
pub fn ban(
    settings: &Settings,
    args: &Arguments,
    listed: &Vec<String>,
    hints: &Option<TargetHints>,
    account_id: &str,
) -> (r: Result<BanRequest, Refusal>)
    ensures
        ({
            let wanted = ban_request(
                *settings,
                *args,
                targets_of(
                    texts(listed@),
                    args.text_at("user_id"@),
                    opt_view(*hints),
                    account_id@,
                ),
            );
            match r {
                Ok(q) => wanted == Ok::<BanRequestModel, RefusalModel>(q@),
                Err(e) => wanted == Err::<BanRequestModel, RefusalModel>(e@),
            }
        }),
{
    let duration: u64 = match args.unsigned("duration_seconds") {
        Some(n) => n,
        None => match args.unsigned("duration") {
            Some(n) => n,
            None => settings.default_duration_seconds,
        },
    };
    if duration > MAX_BAN_SECONDS {
        let mut m: String = "禁言时长上限 2592000 秒（30 天），收到 ".to_owned();
        let digits: String = decimal_text(duration);
        m.append(&digits);
        m.append(" 秒；注意该参数的单位是秒");
        return Err(Refusal { is_reply: true, message: m });
    }
    let reason: String = match bounded_reason(args, settings.max_reason_length) {
        Ok(s) => s,
        Err(e) => {
            return Err(Refusal { is_reply: false, message: e });
        }
    };
    match resolve_targets(listed, args, hints, account_id) {
        Ok(targets) => Ok(BanRequest { duration: duration, reason: reason, targets: targets }),
        Err(e) => Err(Refusal { is_reply: false, message: e }),
    }
}

/// A removal as it is to be carried out, or why not.
pub open spec fn kick_request(
    settings: Settings,
    args: Arguments,
    targets: Seq<Seq<char>>,
) -> Result<KickRequestModel, Seq<char>> {
    match reason_of(args, settings.max_reason_length as nat) {
        Err(e) => Err(e),
        Ok(reason) => if targets.len() == 0 {
            Err("未找到有效的目标 QQ 号"@)
        } else {
            Ok(
                KickRequestModel {
                    blacklist: args.bool_at("blacklist"@) == Some(true),
                    reason: reason,
                    targets: targets,
                },
            )
        },
    }
}

/// A removal as it is to be carried out.
pub fn kick(
    settings: &Settings,
    args: &Arguments,
    listed: &Vec<String>,
    hints: &Option<TargetHints>,
    account_id: &str,
) -> (r: Result<KickRequest, String>)
    ensures
        ({
            let wanted = kick_request(
                *settings,
                *args,
                targets_of(
                    texts(listed@),
                    args.text_at("user_id"@),
                    opt_view(*hints),
                    account_id@,
                ),
            );
            match r {
                Ok(q) => wanted == Ok::<KickRequestModel, Seq<char>>(q@),
                Err(e) => wanted == Err::<KickRequestModel, Seq<char>>(e@),
            }
        }),
{
    let blacklist: bool = match args.boolean("blacklist") {
        Some(b) => b,
        None => false,
    };
    let reason: String = match bounded_reason(args, settings.max_reason_length) {
        Ok(s) => s,
        Err(e) => {
            return Err(e);
        }
    };
    match resolve_targets(listed, args, hints, account_id) {
        Ok(targets) => Ok(KickRequest { blacklist: blacklist, reason: reason, targets: targets }),
        Err(e) => Err(e),
    }
}

/// How long a title is to last: for ever where a negative number or none is
/// given, at most as long as the settings allow otherwise.
pub open spec fn title_duration(asked: Option<i64>, max: i64) -> i64 {
    match asked {
        None => (-1) as i64,
        Some(n) => if n < 0 {
            (-1) as i64
        } else if max > 0 && n > max {
            max
        } else {
            n
        },
    }
}

/// A title as it is to be set, or why not.
pub open spec fn title_request(
    settings: Settings,
    args: Arguments,
    targets: Seq<Seq<char>>,
) -> Result<TitleRequestModel, RefusalModel> {
    if targets.len() == 0 {
        Err(RefusalModel { is_reply: false, message: "未找到有效的目标 QQ 号"@ })
    } else if targets.len() != 1 {
        Err(RefusalModel { is_reply: true, message: "群头衔操作必须且只能指定一个目标"@ })
    } else {
        match args.text_at("special_title"@) {
            None => Err(RefusalModel { is_reply: false, message: "special_title is required"@ }),
            Some(raw) => if trim(raw).len() > settings.max_special_title_length {
                Err(RefusalModel { is_reply: true, message: "群头衔超过配置长度限制"@ })
            } else {
                match reason_of(args, settings.max_reason_length as nat) {
                    Err(e) => Err(RefusalModel { is_reply: false, message: e }),
                    Ok(reason) => Ok(
                        TitleRequestModel {
                            target: targets[0],
                            title: trim(raw),
                            duration: title_duration(
                                args.integer_at("duration"@),
                                settings.max_special_title_duration_seconds,
                            ),
                            reason: reason,
                        },
                    ),
                }
            },
        }
    }
}

/// A title as it is to be set: on exactly one target, of a bounded length; an
/// empty one clears the title.
pub fn title(
    settings: &Settings,
    args: &Arguments,
    listed: &Vec<String>,
    hints: &Option<TargetHints>,
    account_id: &str,
) -> (r: Result<TitleRequest, Refusal>)
    ensures
        ({
            let wanted = title_request(
                *settings,
                *args,
                targets_of(
                    texts(listed@),
                    args.text_at("user_id"@),
                    opt_view(*hints),
                    account_id@,
                ),
            );
            match r {
                Ok(q) => wanted == Ok::<TitleRequestModel, RefusalModel>(q@),
                Err(e) => wanted == Err::<TitleRequestModel, RefusalModel>(e@),
            }
        }),
{
    let targets: Vec<String> = match resolve_targets(listed, args, hints, account_id) {
        Ok(t) => t,
        Err(e) => {
            return Err(Refusal { is_reply: false, message: e });
        }
    };
    if targets.len() != 1 {
        return Err(
            Refusal { is_reply: true, message: "群头衔操作必须且只能指定一个目标".to_owned() },
        );
    }
    let raw: String = match args.text("special_title") {
        Some(s) => s,
        None => {
            return Err(
                Refusal { is_reply: false, message: "special_title is required".to_owned() },
            );
        }
    };
    let name: String = trimmed(&raw);
    if name.as_str().unicode_len() > settings.max_special_title_length {
        return Err(Refusal { is_reply: true, message: "群头衔超过配置长度限制".to_owned() });
    }
    let duration: i64 = match args.integer("duration") {
        None => -1,
        Some(n) => if n < 0 {
            -1
        } else if settings.max_special_title_duration_seconds > 0 && n
            > settings.max_special_title_duration_seconds {
            settings.max_special_title_duration_seconds
        } else {
            n
        },
    };
    let reason: String = match bounded_reason(args, settings.max_reason_length) {
        Ok(s) => s,
        Err(e) => {
            return Err(Refusal { is_reply: false, message: e });
        }
    };
    assert(texts(targets@)[0] == targets@[0]@);
    Ok(TitleRequest { target: targets[0].clone(), title: name, duration: duration, reason: reason })
}

// ---------------------------------------------------------------------------
// What is recorded

/// Who acts where, and when.
pub struct Acting {
    pub group_id: String,
    /// The assistant's own number.
    pub account_id: String,
    /// Who asked for the action.
    pub operator_id: String,
    pub now: i64,
    pub record_id: String,
}

/// What a [`Acting`] holds, as values.
#[verifier::ext_equal]
pub struct ActingModel {
    pub group_id: Seq<char>,
    pub account_id: Seq<char>,
    pub operator_id: Seq<char>,
    pub now: i64,
    pub record_id: Seq<char>,
}

impl View for Acting {
    type V = ActingModel;

    open spec fn view(&self) -> ActingModel {
        ActingModel {
            group_id: self.group_id@,
            account_id: self.account_id@,
            operator_id: self.operator_id@,
            now: self.now,
            record_id: self.record_id@,
        }
    }
}


/// What a mute leaves behind.
pub struct BanTrace {
    pub record: BanRecord,
    /// The entry of the event stream, where one is kept.
    pub event: Option<ManagementEvent>,
    /// Whether the offender's history counts it.
    pub update_offender: bool,
    /// The note in the conversation's history.
    pub context_text: String,
}

/// What a [`BanTrace`] holds, as values.
#[verifier::ext_equal]
pub struct BanTraceModel {
    pub record: BanRecordModel,
    pub event: Option<ManagementEventModel>,
    pub update_offender: bool,
    pub context_text: Seq<char>,
}

impl View for BanTrace {
    type V = BanTraceModel;

    open spec fn view(&self) -> BanTraceModel {
        BanTraceModel {
            record: self.record@,
            event: opt_view(self.event),
            update_offender: self.update_offender,
            context_text: self.context_text@,
        }
    }
}


/// What a removal leaves behind.
pub struct KickTrace {
    pub record: KickRecord,
    pub event: Option<ManagementEvent>,
    pub context_text: String,
}

/// What a [`KickTrace`] holds, as values.
#[verifier::ext_equal]
pub struct KickTraceModel {
    pub record: KickRecordModel,
    pub event: Option<ManagementEventModel>,
    pub context_text: Seq<char>,
}

impl View for KickTrace {
    type V = KickTraceModel;

    open spec fn view(&self) -> KickTraceModel {
        KickTraceModel {
            record: self.record@,
            event: opt_view(self.event),
            context_text: self.context_text@,
        }
    }
}


/// What a title leaves behind.
pub struct TitleTrace {
    pub event: ManagementEvent,
    pub context_text: String,
}

/// What a [`TitleTrace`] holds, as values.
#[verifier::ext_equal]
pub struct TitleTraceModel {
    pub event: ManagementEventModel,
    pub context_text: Seq<char>,
}

impl View for TitleTrace {
    type V = TitleTraceModel;

    open spec fn view(&self) -> TitleTraceModel {
        TitleTraceModel {
            event: self.event@,
            context_text: self.context_text@,
        }
    }
}


/// The note in the conversation's history about an action.
pub open spec fn context_note(
    id: Seq<char>,
    action: Seq<char>,
    account_id: Seq<char>,
    member: GroupMemberModel,
    reason: Seq<char>,
    duration: Option<u64>,
) -> Seq<char> {
    let head = "[System:群管理行为]\n操作："@ + action + "\n执行者：顾清影（"@ + account_id
        + "）\n对象："@ + member.shown_name() + "（"@ + member.user_id + "）"@;
    let timed = match duration {
        Some(d) => head + "\n时长："@ + decimal(d as nat) + " 秒"@,
        None => head,
    };
    let reasoned = if reason.len() > 0 {
        timed + "\n原因："@ + reason
    } else {
        timed
    };
    reasoned + "\n记录 ID："@ + id
}

/// The note in the conversation's history about an action.
pub fn record_real_context(
    id: &str,
    action: &str,
    account_id: &str,
    member: &GroupMember,
    reason: &str,
    duration: Option<u64>,
) -> (r: String)
    ensures
        r@ == context_note(id@, action@, account_id@, member@, reason@, duration),
{
    let mut text: String = "[System:群管理行为]\n操作：".to_owned();
    text.append(action);
    text.append("\n执行者：顾清影（");
    text.append(account_id);
    text.append("）\n对象：");
    text.append(member.display_name());
    text.append("（");
    text.append(&member.user_id);
    text.append("）");
    if let Some(d) = duration {
        text.append("\n时长：");
        let digits: String = decimal_text(d);
        text.append(&digits);
        text.append(" 秒");
    }
    if !is_empty_text(reason) {
        text.append("\n原因：");
        text.append(reason);
    }
    text.append("\n记录 ID：");
    text.append(id);
    text
}

/// The id under which the note of an action stands in the history.
pub fn context_message_id(record_id: &str) -> (r: String)
    ensures
        r@ == "qq-management-"@ + record_id@,
{
    let mut id: String = "qq-management-".to_owned();
    id.append(record_id);
    id
}

/// What a mute leaves behind.
pub open spec fn ban_trace(
    settings: Settings,
    who: ActingModel,
    user_id: Seq<char>,
    member: GroupMemberModel,
    duration: u64,
    reason: Seq<char>,
) -> BanTraceModel {
    BanTraceModel {
        record: BanRecordModel {
            record_id: who.record_id,
            group_id: who.group_id,
            user_id: user_id,
            user_name: member.shown_name(),
            duration: duration,
            started_at: who.now,
            expires_at: i64_bounded(who.now + as_signed(duration)),
            status: if duration == 0 {
                "unmuted"@
            } else {
                "active"@
            },
            operator_id: who.operator_id,
            reason: reason,
            source: "llm_tool"@,
        },
        event: if settings.enable_record {
            Some(
                ManagementEventModel {
                    record_id: who.record_id,
                    action: if duration == 0 {
                        "unban"@
                    } else {
                        "ban"@
                    },
                    user_id: user_id,
                    user_name: member.shown_name(),
                    duration: duration,
                    happened_at: who.now,
                    operator_id: who.operator_id,
                    reason: reason,
                    source: "llm_tool"@,
                    detail: seq![],
                },
            )
        } else {
            None
        },
        update_offender: duration > 0 && settings.enable_offender_history,
        context_text: context_note(
            who.record_id,
            if duration == 0 {
                "解禁"@
            } else {
                "禁言"@
            },
            who.account_id,
            member,
            reason,
            Some(duration),
        ),
    }
}

/// What a mute of `user_id` leaves behind, once it was carried out.
pub fn ban_one(
    settings: &Settings,
    who: &Acting,
    user_id: &str,
    member: &GroupMember,
    duration: u64,
    reason: &str,
) -> (r: BanTrace)
    ensures
        r@ == ban_trace(*settings, who@, user_id@, member@, duration, reason@),
{
    let lifting: bool = duration == 0;
    let record: BanRecord = BanRecord {
        record_id: who.record_id.clone(),
        group_id: who.group_id.clone(),
        user_id: user_id.to_owned(),
        user_name: member.display_name().to_owned(),
        duration: duration,
        started_at: who.now,
        expires_at: saturating_sum(who.now, signed_bits(duration)),
        status: if lifting {
            "unmuted".to_owned()
        } else {
            "active".to_owned()
        },
        operator_id: who.operator_id.clone(),
        reason: reason.to_owned(),
        source: "llm_tool".to_owned(),
    };
    let event: Option<ManagementEvent> = if settings.enable_record {
        let e: ManagementEvent = ManagementEvent {
            record_id: who.record_id.clone(),
            action: if lifting {
                "unban".to_owned()
            } else {
                "ban".to_owned()
            },
            user_id: user_id.to_owned(),
            user_name: member.display_name().to_owned(),
            duration: duration,
            happened_at: who.now,
            operator_id: who.operator_id.clone(),
            reason: reason.to_owned(),
            source: "llm_tool".to_owned(),
            detail: String::new(),
        };
        assert(e@.detail =~= seq![]);
        Some(e)
    } else {
        None
    };
    let action: &str = if lifting { "解禁" } else { "禁言" };
    let text: String = record_real_context(
        &who.record_id,
        action,
        &who.account_id,
        member,
        reason,
        Some(duration),
    );
    BanTrace {
        record: record,
        event: event,
        update_offender: duration > 0 && settings.enable_offender_history,
        context_text: text,
    }
}

/// The result of a mute that was carried out.
pub fn ban_result(user_id: &str, duration: u64, audit_errors: Vec<String>) -> (r: BanOutcome)
    ensures
        r@ == (BanOutcomeModel {
            result: done_result(texts(audit_errors@), Some(user_id@), Some(user_id@)),
            duration_seconds: duration,
            duration_text: duration_words(duration as nat),
        }),
{
    BanOutcome {
        result: external_operation_result(
            audit_errors,
            Some(user_id.to_owned()),
            Some(user_id.to_owned()),
        ),
        duration_seconds: duration,
        duration_text: humanize_seconds(duration),
    }
}

/// What a removal leaves behind.
pub open spec fn kick_trace(
    settings: Settings,
    who: ActingModel,
    user_id: Seq<char>,
    member: GroupMemberModel,
    blacklist: bool,
    reason: Seq<char>,
) -> KickTraceModel {
    let record = KickRecordModel {
        record_id: who.record_id,
        group_id: who.group_id,
        user_id: user_id,
        user_name: member.shown_name(),
        kicked_at: who.now,
        operator_id: who.operator_id,
        reason: reason,
        reject_add_request: blacklist,
        source: "llm_tool"@,
    };
    KickTraceModel {
        record: record,
        event: if settings.enable_record {
            Some(kick_event(record))
        } else {
            None
        },
        context_text: context_note(
            who.record_id,
            if blacklist {
                "踢出并拉黑"@
            } else {
                "踢出"@
            },
            who.account_id,
            member,
            reason,
            None,
        ),
    }
}

/// The event that a removal stands for.
fn event_of_kick(k: &KickRecord) -> (r: ManagementEvent)
    ensures
        r@ == kick_event(k@),
{
    let r: ManagementEvent = ManagementEvent {
        record_id: k.record_id.clone(),
        action: if k.reject_add_request {
            "kick_black".to_owned()
        } else {
            "kick".to_owned()
        },
        user_id: k.user_id.clone(),
        user_name: k.user_name.clone(),
        duration: 0,
        happened_at: k.kicked_at,
        operator_id: k.operator_id.clone(),
        reason: k.reason.clone(),
        source: k.source.clone(),
        detail: String::new(),
    };
    assert(r@.detail =~= seq![]);
    r
}

/// What a removal of `user_id` leaves behind, once it was carried out. The history
/// of removals is kept whatever the settings say of the event stream.
pub fn kick_one(
    settings: &Settings,
    who: &Acting,
    user_id: &str,
    member: &GroupMember,
    blacklist: bool,
    reason: &str,
) -> (r: KickTrace)
    ensures
        r@ == kick_trace(*settings, who@, user_id@, member@, blacklist, reason@),
{
    let record: KickRecord = KickRecord {
        record_id: who.record_id.clone(),
        group_id: who.group_id.clone(),
        user_id: user_id.to_owned(),
        user_name: member.display_name().to_owned(),
        kicked_at: who.now,
        operator_id: who.operator_id.clone(),
        reason: reason.to_owned(),
        reject_add_request: blacklist,
        source: "llm_tool".to_owned(),
    };
    let event: Option<ManagementEvent> = if settings.enable_record {
        Some(event_of_kick(&record))
    } else {
        None
    };
    let action: &str = if blacklist { "踢出并拉黑" } else { "踢出" };
    let text: String = record_real_context(
        &who.record_id,
        action,
        &who.account_id,
        member,
        reason,
        None,
    );
    KickTrace { record: record, event: event, context_text: text }
}

/// What a title leaves behind.
pub open spec fn title_trace(
    who: ActingModel,
    request: TitleRequestModel,
    member: GroupMemberModel,
) -> TitleTraceModel {
    TitleTraceModel {
        event: ManagementEventModel {
            record_id: who.record_id,
            action: if request.title.len() == 0 {
                "title_clear"@
            } else {
                "title_set"@
            },
            user_id: request.target,
            user_name: member.shown_name(),
            duration: 0,
            happened_at: who.now,
            operator_id: who.operator_id,
            reason: request.reason,
            source: "llm_tool"@,
            detail: request.title,
        },
        context_text: context_note(
            who.record_id,
            if request.title.len() == 0 {
                "清除群头衔"@
            } else {
                "设置群头衔"@
            },
            who.account_id,
            member,
            request.reason,
            None,
        ),
    }
}

/// What a title leaves behind, once it was set.
pub fn title_one(who: &Acting, request: &TitleRequest, member: &GroupMember) -> (r: TitleTrace)
    ensures
        r@ == title_trace(who@, request@, member@),
{
    let clearing: bool = is_empty_text(&request.title);
    let event: ManagementEvent = ManagementEvent {
        record_id: who.record_id.clone(),
        action: if clearing {
            "title_clear".to_owned()
        } else {
            "title_set".to_owned()
        },
        user_id: request.target.clone(),
        user_name: member.display_name().to_owned(),
        duration: 0,
        happened_at: who.now,
        operator_id: who.operator_id.clone(),
        reason: request.reason.clone(),
        source: "llm_tool".to_owned(),
        detail: request.title.clone(),
    };
    let action: &str = if clearing { "清除群头衔" } else { "设置群头衔" };
    let text: String = record_real_context(
        &who.record_id,
        action,
        &who.account_id,
        member,
        &request.reason,
        None,
    );
    TitleTrace { event: event, context_text: text }
}

// ---------------------------------------------------------------------------
// Whether a removal that the platform calls failed took place after all

/// How often it is looked whether the member is gone.
pub const KICK_CHECKS: u32 = 6;

/// The pause between two looks, in milliseconds.
pub const KICK_CHECK_PAUSE_MS: u64 = 900;

/// What has come to be known.
#[derive(Clone, Copy, Debug, PartialEq, Eq, Structural)]
pub enum KickEvent {
    /// The platform reported that the removal failed.
    BridgeFailed,
    /// Whether the ledger of removals holds the member.
    Ledger(bool),
    /// Whether the group answered that the member is not in it.
    MemberGone(bool),
    /// The pause is over.
    Slept,
}

/// What to do next.
#[derive(Clone, Copy, Debug, PartialEq, Eq, Structural)]
pub enum KickStep {
    AskLedger,
    AskMember,
    Sleep(u64),
    /// The member is gone: the removal counts as carried out.
    Done,
    /// The member is still there: the removal failed.
    Failed,
}

/// What to do next, and how many looks have been finished by then.
pub open spec fn kick_next(finished: u32, event: KickEvent) -> (u32, KickStep) {
    match event {
        KickEvent::BridgeFailed => (0, KickStep::AskLedger),
        KickEvent::Slept => (finished, KickStep::AskLedger),
        KickEvent::Ledger(true) => (finished, KickStep::Done),
        KickEvent::Ledger(false) => (finished, KickStep::AskMember),
        KickEvent::MemberGone(true) => (finished, KickStep::Done),
        KickEvent::MemberGone(false) => if finished + 1 < KICK_CHECKS {
            ((finished + 1) as u32, KickStep::Sleep(KICK_CHECK_PAUSE_MS))
        } else {
            (KICK_CHECKS, KickStep::Failed)
        },
    }
}

/// After a removal that the platform called failed: what to do next. Each look
/// asks the ledger of removals first and then the group; six looks with a pause
/// between them decide.
pub fn verify_kick(finished: u32, event: KickEvent) -> (r: (u32, KickStep))
    ensures
        r == kick_next(finished, event),
{
    match event {
        KickEvent::BridgeFailed => (0, KickStep::AskLedger),
        KickEvent::Slept => (finished, KickStep::AskLedger),
        KickEvent::Ledger(true) => (finished, KickStep::Done),
        KickEvent::Ledger(false) => (finished, KickStep::AskMember),
        KickEvent::MemberGone(true) => (finished, KickStep::Done),
        KickEvent::MemberGone(false) => if finished < KICK_CHECKS - 1 {
            (finished + 1, KickStep::Sleep(KICK_CHECK_PAUSE_MS))
        } else {
            (KICK_CHECKS, KickStep::Failed)
        },
    }
}

/// The step that ends the looks from the one numbered `at` on, when the ledger
/// and the group answer as given.
pub open spec fn kick_outcome(ledger: Seq<bool>, gone: Seq<bool>, at: u32) -> KickStep
    decreases KICK_CHECKS - at,
{
    if at >= KICK_CHECKS {
        KickStep::Failed
    } else {
        match kick_next(at, KickEvent::Ledger(ledger[at as int])).1 {
            KickStep::Done => KickStep::Done,
            _ => {
                let after = kick_next(at, KickEvent::MemberGone(gone[at as int]));
                match after.1 {
                    KickStep::Sleep(_) => if after.0 > at {
                        kick_outcome(ledger, gone, after.0)
                    } else {
                        KickStep::Failed
                    },
                    other => other,
                }
            },
        }
    }
}

/// Whether the look numbered `i` found the member gone.
pub open spec fn found_gone(ledger: Seq<bool>, gone: Seq<bool>, i: int) -> bool {
    ledger[i] || gone[i]
}

/// The removal counts as carried out exactly when one of the six looks found the
/// member gone, in the ledger or in the group.
pub proof fn law_kick_verification(ledger: Seq<bool>, gone: Seq<bool>, at: u32)
    requires
        ledger.len() == KICK_CHECKS,
        gone.len() == KICK_CHECKS,
        at <= KICK_CHECKS,
    ensures
        kick_outcome(ledger, gone, at) == KickStep::Done || kick_outcome(ledger, gone, at)
            == KickStep::Failed,
        kick_outcome(ledger, gone, at) == KickStep::Done <==> exists|i: int|
            at <= i < KICK_CHECKS && #[trigger] found_gone(ledger, gone, i),
    decreases KICK_CHECKS - at,
{
    if at < KICK_CHECKS {
        assert(found_gone(ledger, gone, at as int) == (ledger[at as int] || gone[at as int]));
        if at + 1 < KICK_CHECKS {
            law_kick_verification(ledger, gone, (at + 1) as u32);
        }
        if exists|i: int| at <= i < KICK_CHECKS && #[trigger] found_gone(ledger, gone, i) {
            let i = choose|i: int| at <= i < KICK_CHECKS && #[trigger] found_gone(ledger, gone, i);
            if i > at {
                assert(found_gone(ledger, gone, i));
            }
        }
    }
}

// ---------------------------------------------------------------------------
// How a removal ended

/// How a removal ended.
pub enum KickVerdict {
    /// The platform carried it out.
    Done,
    /// The platform reported this error, but the member is gone.
    Gone(String),
    /// The platform reported this error, and the member is still there.
    Failed(String),
}

/// The value of a [`KickVerdict`].
#[verifier::ext_equal]
pub enum KickVerdictModel {
    Done,
    Gone(Seq<char>),
    Failed(Seq<char>),
}

impl View for KickVerdict {
    type V = KickVerdictModel;

    open spec fn view(&self) -> KickVerdictModel {
        match self {
            KickVerdict::Done => KickVerdictModel::Done,
            KickVerdict::Gone(e) => KickVerdictModel::Gone(e@),
            KickVerdict::Failed(e) => KickVerdictModel::Failed(e@),
        }
    }
}

/// What a removal is answered with.
pub struct KickOutcome {
    pub result: TargetResult,
    /// What the platform reported of a removal that took place.
    pub bridge_reported_error: Option<String>,
    /// What showed that such a removal took place.
    pub verified_by: Option<String>,
}

/// What a [`KickOutcome`] holds, as values.
#[verifier::ext_equal]
pub struct KickOutcomeModel {
    pub result: TargetResultModel,
    pub bridge_reported_error: Option<Seq<char>>,
    pub verified_by: Option<Seq<char>>,
}

impl View for KickOutcome {
    type V = KickOutcomeModel;

    open spec fn view(&self) -> KickOutcomeModel {
        KickOutcomeModel {
            result: self.result@,
            bridge_reported_error: opt_text(self.bridge_reported_error),
            verified_by: opt_text(self.verified_by),
        }
    }
}


/// How a removal ended, given the error that the platform reported, if any, and the
/// step that ended the looks.
pub open spec fn kick_verdict_of(bridge_error: Option<Seq<char>>, last: KickStep) -> KickVerdictModel {
    match bridge_error {
        None => KickVerdictModel::Done,
        Some(e) => if last == KickStep::Done {
            KickVerdictModel::Gone(e)
        } else {
            KickVerdictModel::Failed(e)
        },
    }
}

/// How a removal ended: an error of the platform is believed unless the looks found
/// the member gone.
pub fn kick_verdict(bridge_error: Option<String>, last: KickStep) -> (r: KickVerdict)
    ensures
        r@ == kick_verdict_of(opt_text(bridge_error), last),
{
    match bridge_error {
        None => KickVerdict::Done,
        Some(e) => if last == KickStep::Done {
            KickVerdict::Gone(e)
        } else {
            KickVerdict::Failed(e)
        },
    }
}

/// What a removal that ended so leaves behind.
pub open spec fn kick_leavings(
    verdict: KickVerdictModel,
    settings: Settings,
    who: ActingModel,
    user_id: Seq<char>,
    member: GroupMemberModel,
    blacklist: bool,
    reason: Seq<char>,
) -> Option<KickTraceModel> {
    match verdict {
        KickVerdictModel::Failed(_) => None,
        _ => Some(kick_trace(settings, who, user_id, member, blacklist, reason)),
    }
}

/// What a removal that ended so leaves behind: nothing where it failed.
pub fn kick_record(
    verdict: &KickVerdict,
    settings: &Settings,
    who: &Acting,
    user_id: &str,
    member: &GroupMember,
    blacklist: bool,
    reason: &str,
) -> (r: Option<KickTrace>)
    ensures
        opt_view(r) == kick_leavings(
            verdict@,
            *settings,
            who@,
            user_id@,
            member@,
            blacklist,
            reason@,
        ),
{
    match verdict {
        KickVerdict::Failed(_) => None,
        _ => Some(kick_one(settings, who, user_id, member, blacklist, reason)),
    }
}

/// What a removal that ended so is answered with.
pub open spec fn kick_answer(
    user_id: Seq<char>,
    verdict: KickVerdictModel,
    audit_errors: Seq<Seq<char>>,
) -> KickOutcomeModel {
    match verdict {
        KickVerdictModel::Done => KickOutcomeModel {
            result: done_result(audit_errors, None, Some(user_id)),
            bridge_reported_error: None,
            verified_by: None,
        },
        KickVerdictModel::Gone(e) => KickOutcomeModel {
            result: done_result(audit_errors, None, Some(user_id)),
            bridge_reported_error: Some(e),
            verified_by: Some("group_member_fresh"@),
        },
        KickVerdictModel::Failed(e) => KickOutcomeModel {
            result: failed_result(e, Some(user_id)),
            bridge_reported_error: None,
            verified_by: None,
        },
    }
}

/// What a removal that ended so is answered with. One that took place although the
/// platform reported an error counts as carried out, and the answer holds the error.
pub fn kick_result(user_id: &str, verdict: KickVerdict, audit_errors: Vec<String>) -> (r:
    KickOutcome)
    ensures
        r@ == kick_answer(user_id@, verdict@, texts(audit_errors@)),
{
    match verdict {
        KickVerdict::Done => KickOutcome {
            result: external_operation_result(audit_errors, None, Some(user_id.to_owned())),
            bridge_reported_error: None,
            verified_by: None,
        },
        KickVerdict::Gone(e) => KickOutcome {
            result: external_operation_result(audit_errors, None, Some(user_id.to_owned())),
            bridge_reported_error: Some(e),
            verified_by: Some("group_member_fresh".to_owned()),
        },
        KickVerdict::Failed(e) => KickOutcome {
            result: failure_for_target(&e, user_id),
            bridge_reported_error: None,
            verified_by: None,
        },
    }
}

/// A removal that the platform called failed but that one of the six looks confirms
/// is answered as carried out, is not to be tried again, holds the platform's error
/// and is recorded. One that no look confirms is answered as failed with that error
/// and leaves nothing behind.
pub proof fn law_reported_failure_is_judged_by_the_looks(
    error: Seq<char>,
    ledger: Seq<bool>,
    gone: Seq<bool>,
    settings: Settings,
    who: ActingModel,
    user_id: Seq<char>,
    member: GroupMemberModel,
    blacklist: bool,
    reason: Seq<char>,
    audit_errors: Seq<Seq<char>>,
)
    requires
        ledger.len() == KICK_CHECKS,
        gone.len() == KICK_CHECKS,
    ensures
        ({
            let verdict = kick_verdict_of(Some(error), kick_outcome(ledger, gone, 0));
            let left = kick_leavings(verdict, settings, who, user_id, member, blacklist, reason);
            let answer = kick_answer(user_id, verdict, audit_errors);
            let confirmed = exists|i: int|
                0 <= i < KICK_CHECKS && #[trigger] found_gone(ledger, gone, i);
            &&& confirmed ==> answer.result.success && answer.result.operation_succeeded
                && answer.result.do_not_retry && answer.bridge_reported_error == Some(error)
                && left == Some(kick_trace(settings, who, user_id, member, blacklist, reason))
            &&& !confirmed ==> answer.result == failed_result(error, Some(user_id))
                && !answer.result.operation_succeeded && answer.bridge_reported_error is None
                && left is None
        }),
{
    law_kick_verification(ledger, gone, 0);
}

// ---------------------------------------------------------------------------
// Acting on one member

/// What is to be done to a member.
pub enum Measure {
    /// A mute of so many seconds; none lifts it.
    Mute(u64),
    /// A removal, with later requests to join refused or not.
    Kick(bool),
    /// A title, and how long it lasts.
    Title(String, i64),
}

/// The value of a [`Measure`].
pub enum MeasureModel {
    Mute(u64),
    Kick(bool),
    Title(Seq<char>, i64),
}

impl View for Measure {
    type V = MeasureModel;

    open spec fn view(&self) -> MeasureModel {
        match *self {
            Measure::Mute(n) => MeasureModel::Mute(n),
            Measure::Kick(b) => MeasureModel::Kick(b),
            Measure::Title(t, n) => MeasureModel::Title(t@, n),
        }
    }
}

impl MeasureModel {
    /// Whether it spares the owner and the administrators of a group.
    pub open spec fn protects(self) -> bool {
        !(self is Title)
    }
}

impl Measure {
    /// A value that holds the same.
    pub fn copy(&self) -> (r: Measure)
        ensures
            r@ == self@,
    {
        match self {
            Measure::Mute(n) => Measure::Mute(*n),
            Measure::Kick(b) => Measure::Kick(*b),
            Measure::Title(t, n) => Measure::Title(t.clone(), *n),
        }
    }

    /// Whether it spares the owner and the administrators of a group.
    pub fn protects_managers(&self) -> (r: bool)
        ensures
            r == self@.protects(),
    {
        match self {
            Measure::Title(_, _) => false,
            _ => true,
        }
    }
}

/// What is to be done to whom.
pub struct Job {
    /// The member.
    pub user_id: String,
    /// The assistant's own number.
    pub account_id: String,
    pub measure: Measure,
}

/// What a [`Job`] holds, as values.
#[verifier::ext_equal]
pub struct JobModel {
    pub user_id: Seq<char>,
    pub account_id: Seq<char>,
    pub measure: MeasureModel,
}

impl View for Job {
    type V = JobModel;

    open spec fn view(&self) -> JobModel {
        JobModel {
            user_id: self.user_id@,
            account_id: self.account_id@,
            measure: self.measure@,
        }
    }
}


/// How far the acting on a member has come.
pub enum JobState {
    /// The group is being asked for the member.
    Finding,
    /// The member may be acted on; a confirmation is being asked for.
    Confirming(GroupMember),
    /// The platform is acting.
    Acting(GroupMember),
    /// The platform reported this error of a removal; it is being looked whether the
    /// member is gone. So many looks are finished, and this was asked last.
    Looking(GroupMember, String, u32, KickStep),
    /// It is over.
    Over,
}

/// The value of a [`JobState`].
pub enum JobStateModel {
    Finding,
    Confirming(GroupMemberModel),
    Acting(GroupMemberModel),
    Looking(GroupMemberModel, Seq<char>, u32, KickStep),
    Over,
}

impl View for JobState {
    type V = JobStateModel;

    open spec fn view(&self) -> JobStateModel {
        match *self {
            JobState::Finding => JobStateModel::Finding,
            JobState::Confirming(m) => JobStateModel::Confirming(m@),
            JobState::Acting(m) => JobStateModel::Acting(m@),
            JobState::Looking(m, e, n, k) => JobStateModel::Looking(m@, e@, n, k),
            JobState::Over => JobStateModel::Over,
        }
    }
}

/// What has come to be known.
pub enum JobEvent {
    /// The member as the group knows it now; none where it is not in the group.
    Found(Option<GroupMember>),
    /// The group could not be asked, with this error.
    LookupFailed(String),
    /// It was confirmed.
    Confirmed,
    /// It is to be confirmed first, with this prompt.
    Prompted(String),
    /// The confirmation could not be asked for, with this error.
    ConfirmFailed(String),
    /// The platform was asked to act, and failed with this error, if any.
    Acted(Option<String>),
    /// What a look showed.
    Looked(KickEvent),
}

/// The value of a [`JobEvent`].
pub enum JobEventModel {
    Found(Option<GroupMemberModel>),
    LookupFailed(Seq<char>),
    Confirmed,
    Prompted(Seq<char>),
    ConfirmFailed(Seq<char>),
    Acted(Option<Seq<char>>),
    Looked(KickEvent),
}

impl View for JobEvent {
    type V = JobEventModel;

    open spec fn view(&self) -> JobEventModel {
        match *self {
            JobEvent::Found(m) => JobEventModel::Found(opt_view(m)),
            JobEvent::LookupFailed(e) => JobEventModel::LookupFailed(e@),
            JobEvent::Confirmed => JobEventModel::Confirmed,
            JobEvent::Prompted(p) => JobEventModel::Prompted(p@),
            JobEvent::ConfirmFailed(e) => JobEventModel::ConfirmFailed(e@),
            JobEvent::Acted(e) => JobEventModel::Acted(opt_text(e)),
            JobEvent::Looked(k) => JobEventModel::Looked(k),
        }
    }
}

/// What to do next.
pub enum JobStep {
    /// Ask the group afresh for this member.
    LookUp(String),
    /// Ask for a confirmation.
    Confirm,
    /// Do this to this member.
    Act(String, Measure),
    /// Look whether the member is gone.
    Look(KickStep),
    /// It took place: record it, and answer.
    Record(GroupMember, KickVerdict),
    /// Answer that it failed, and why.
    Fail(String),
    /// Answer with this prompt.
    Prompt(String),
    /// Fail with this error.
    Raise(String),
    /// Nothing: this was not waited for.
    Nothing,
}

/// The value of a [`JobStep`].
pub enum JobStepModel {
    LookUp(Seq<char>),
    Confirm,
    Act(Seq<char>, MeasureModel),
    Look(KickStep),
    Record(GroupMemberModel, KickVerdictModel),
    Fail(Seq<char>),
    Prompt(Seq<char>),
    Raise(Seq<char>),
    Nothing,
}

impl View for JobStep {
    type V = JobStepModel;

    open spec fn view(&self) -> JobStepModel {
        match *self {
            JobStep::LookUp(id) => JobStepModel::LookUp(id@),
            JobStep::Confirm => JobStepModel::Confirm,
            JobStep::Act(id, m) => JobStepModel::Act(id@, m@),
            JobStep::Look(k) => JobStepModel::Look(k),
            JobStep::Record(m, v) => JobStepModel::Record(m@, v@),
            JobStep::Fail(e) => JobStepModel::Fail(e@),
            JobStep::Prompt(p) => JobStepModel::Prompt(p@),
            JobStep::Raise(e) => JobStepModel::Raise(e@),
            JobStep::Nothing => JobStepModel::Nothing,
        }
    }
}

/// The first step: the group is asked for the member, unless that is the assistant.
pub open spec fn job_start(job: JobModel) -> (JobStateModel, JobStepModel) {
    if job.user_id == job.account_id {
        (JobStateModel::Over, JobStepModel::Fail("不能对 顾清影 自身执行该操作"@))
    } else {
        (JobStateModel::Finding, JobStepModel::LookUp(job.user_id))
    }
}

/// The first step of acting on a member.
pub fn job_first(job: &Job) -> (r: (JobState, JobStep))
    ensures
        (r.0@, r.1@) == job_start(job@),
{
    if same(&job.user_id, &job.account_id) {
        return (JobState::Over, JobStep::Fail("不能对 顾清影 自身执行该操作".to_owned()));
    }
    (JobState::Finding, JobStep::LookUp(job.user_id.clone()))
}

/// The step that lets the platform act.
pub open spec fn act_step(job: JobModel, member: GroupMemberModel) -> (
    JobStateModel,
    JobStepModel,
) {
    (JobStateModel::Acting(member), JobStepModel::Act(job.user_id, job.measure))
}

fn act_next(job: &Job, member: GroupMember) -> (r: (JobState, JobStep))
    ensures
        (r.0@, r.1@) == act_step(job@, member@),
{
    (JobState::Acting(member), JobStep::Act(job.user_id.clone(), job.measure.copy()))
}

/// Whether this is what was asked.
pub open spec fn is_answer(asked: KickStep, event: KickEvent) -> bool {
    match asked {
        KickStep::AskLedger => event is Ledger,
        KickStep::AskMember => event is MemberGone,
        KickStep::Sleep(_) => event is Slept,
        _ => false,
    }
}

fn answers(asked: KickStep, event: KickEvent) -> (r: bool)
    ensures
        r == is_answer(asked, event),
{
    match (asked, event) {
        (KickStep::AskLedger, KickEvent::Ledger(_)) => true,
        (KickStep::AskMember, KickEvent::MemberGone(_)) => true,
        (KickStep::Sleep(_), KickEvent::Slept) => true,
        _ => false,
    }
}

/// The step after a look at whether a member is gone.
pub open spec fn look_step(
    member: GroupMemberModel,
    error: Seq<char>,
    next: (u32, KickStep),
) -> (JobStateModel, JobStepModel) {
    match next.1 {
        KickStep::Done => (
            JobStateModel::Over,
            JobStepModel::Record(member, KickVerdictModel::Gone(error)),
        ),
        KickStep::Failed => (JobStateModel::Over, JobStepModel::Fail(error)),
        step => (JobStateModel::Looking(member, error, next.0, step), JobStepModel::Look(step)),
    }
}

fn look_next(member: GroupMember, error: String, next: (u32, KickStep)) -> (r: (JobState, JobStep))
    ensures
        (r.0@, r.1@) == look_step(member@, error@, next),
{
    match next.1 {
        KickStep::Done | KickStep::Failed => match kick_verdict(Some(error), next.1) {
            KickVerdict::Failed(e) => (JobState::Over, JobStep::Fail(e)),
            verdict => (JobState::Over, JobStep::Record(member, verdict)),
        },
        step => (JobState::Looking(member, error, next.0, step), JobStep::Look(step)),
    }
}

/// What to do next.
pub open spec fn job_step(job: JobModel, s: JobStateModel, e: JobEventModel) -> (
    JobStateModel,
    JobStepModel,
) {
    match (s, e) {
        (JobStateModel::Finding, JobEventModel::Found(found)) => match target_verdict(
            job.user_id,
            job.account_id,
            found,
            job.measure.protects(),
        ) {
            Err(why) => (JobStateModel::Over, JobStepModel::Fail(why)),
            Ok(member) => if job.measure is Title {
                (JobStateModel::Confirming(member), JobStepModel::Confirm)
            } else {
                act_step(job, member)
            },
        },
        (JobStateModel::Finding, JobEventModel::LookupFailed(why)) => (
            JobStateModel::Over,
            JobStepModel::Fail(why),
        ),
        (JobStateModel::Confirming(member), JobEventModel::Confirmed) => act_step(job, member),
        (JobStateModel::Confirming(_), JobEventModel::Prompted(prompt)) => (
            JobStateModel::Over,
            JobStepModel::Prompt(prompt),
        ),
        (JobStateModel::Confirming(_), JobEventModel::ConfirmFailed(why)) => (
            JobStateModel::Over,
            JobStepModel::Raise(why),
        ),
        (JobStateModel::Acting(member), JobEventModel::Acted(None)) => (
            JobStateModel::Over,
            JobStepModel::Record(member, KickVerdictModel::Done),
        ),
        (JobStateModel::Acting(member), JobEventModel::Acted(Some(error))) => {
            if job.measure is Kick {
                look_step(member, error, kick_next(0, KickEvent::BridgeFailed))
            } else {
                (JobStateModel::Over, JobStepModel::Fail(error))
            }
        },
        (JobStateModel::Looking(member, error, finished, asked), JobEventModel::Looked(event)) => {
            if is_answer(asked, event) {
                look_step(member, error, kick_next(finished, event))
            } else {
                (s, JobStepModel::Nothing)
            }
        },
        _ => (s, JobStepModel::Nothing),
    }
}

/// What to do next: the member that the group answered with is checked, a title is then
/// confirmed, and only then does the platform act. A removal that it reports as failed
/// is looked into. A mute and a removal are confirmed before, for all their targets at
/// once. An event that is not waited for changes nothing.
pub fn job_next(job: &Job, s: JobState, e: JobEvent) -> (r: (JobState, JobStep))
    ensures
        (r.0@, r.1@) == job_step(job@, s@, e@),
{
    match (s, e) {
        (JobState::Finding, JobEvent::Found(found)) => {
            let protect: bool = job.measure.protects_managers();
            match validate_target(&job.user_id, &job.account_id, found, protect) {
                Err(why) => (JobState::Over, JobStep::Fail(why)),
                Ok(member) => match &job.measure {
                    Measure::Title(_, _) => (JobState::Confirming(member), JobStep::Confirm),
                    _ => act_next(job, member),
                },
            }
        }
        (JobState::Finding, JobEvent::LookupFailed(why)) => (JobState::Over, JobStep::Fail(why)),
        (JobState::Confirming(member), JobEvent::Confirmed) => act_next(job, member),
        (JobState::Confirming(_), JobEvent::Prompted(prompt)) => (
            JobState::Over,
            JobStep::Prompt(prompt),
        ),
        (JobState::Confirming(_), JobEvent::ConfirmFailed(why)) => (
            JobState::Over,
            JobStep::Raise(why),
        ),
        (JobState::Acting(member), JobEvent::Acted(None)) => (
            JobState::Over,
            JobStep::Record(member, kick_verdict(None, KickStep::Done)),
        ),
        (JobState::Acting(member), JobEvent::Acted(Some(error))) => match &job.measure {
            Measure::Kick(_) => look_next(member, error, verify_kick(0, KickEvent::BridgeFailed)),
            _ => (JobState::Over, JobStep::Fail(error)),
        },
        (JobState::Looking(member, error, finished, asked), JobEvent::Looked(event)) => {
            if answers(asked, event) {
                look_next(member, error, verify_kick(finished, event))
            } else {
                (JobState::Looking(member, error, finished, asked), JobStep::Nothing)
            }
        }
        (s, _) => (s, JobStep::Nothing),
    }
}

/// One acting on a member: what is to be done to whom, and what came to be known.
pub struct JobRun {
    pub job: JobModel,
    pub events: Seq<JobEventModel>,
}

impl JobRun {
    /// How far it has come after its first `n` events.
    pub open spec fn state(self, n: nat) -> JobStateModel
        decreases n,
    {
        if n == 0 {
            job_start(self.job).0
        } else {
            job_step(self.job, self.state((n - 1) as nat), self.events[n - 1]).0
        }
    }

    /// The step that its event numbered `i` leads to.
    pub open spec fn step(self, i: int) -> JobStepModel {
        job_step(self.job, self.state(i as nat), self.events[i]).1
    }

    /// Whether the event numbered `i` lets the platform act.
    pub open spec fn acts(self, i: int) -> bool {
        0 <= i < self.events.len() && self.step(i) is Act
    }

    /// Whether the event numbered `i` showed that `member` is the one that is to be acted
    /// on, and that it may be.
    pub open spec fn clears(self, i: int, member: GroupMemberModel) -> bool {
        &&& 0 <= i < self.events.len()
        &&& self.events[i] matches JobEventModel::Found(found)
        &&& target_verdict(
            self.job.user_id,
            self.job.account_id,
            found,
            self.job.measure.protects(),
        ) == Ok::<GroupMemberModel, Seq<char>>(member)
    }

    /// Whether one of the first `n` events showed that.
    pub open spec fn cleared(self, n: int, member: GroupMemberModel) -> bool {
        exists|i: int| i < n && #[trigger] self.clears(i, member)
    }

    /// Whether one of the first `n` events confirmed it.
    pub open spec fn confirmed(self, n: int) -> bool {
        exists|i: int|
            0 <= i < n && i < self.events.len() && #[trigger] self.events[i]
                == JobEventModel::Confirmed
    }

    /// Whether one of the first `n` events let the platform act.
    pub open spec fn acted(self, n: int) -> bool {
        exists|i: int| i < n && #[trigger] self.acts(i)
    }

    /// Whether one of the first `n` events was that the platform reported `error`.
    pub open spec fn reported(self, n: int, error: Seq<char>) -> bool {
        exists|i: int|
            0 <= i < n && i < self.events.len() && #[trigger] self.events[i]
                == JobEventModel::Acted(Some(error))
    }
}

/// How late a state comes.
spec fn job_rank(s: JobStateModel) -> int {
    match s {
        JobStateModel::Finding => 0,
        JobStateModel::Confirming(_) => 1,
        JobStateModel::Acting(_) => 2,
        JobStateModel::Looking(_, _, _, _) => 3,
        JobStateModel::Over => 4,
    }
}

proof fn lemma_job_never_back(run: JobRun, i: nat, j: nat)
    requires
        i <= j <= run.events.len(),
    ensures
        job_rank(run.state(i)) <= job_rank(run.state(j)),
    decreases j - i,
{
    if i < j {
        lemma_job_never_back(run, i, (j - 1) as nat);
    }
}

/// What a state knows was asked for and answered before.
spec fn job_grounded(run: JobRun, n: nat) -> bool {
    match run.state(n) {
        JobStateModel::Finding => run.job.user_id != run.job.account_id,
        JobStateModel::Confirming(m) => run.cleared(n as int, m),
        JobStateModel::Acting(m) => run.cleared(n as int, m) && run.acted(n as int),
        JobStateModel::Looking(m, e, _, _) => run.cleared(n as int, m) && run.acted(n as int)
            && run.reported(n as int, e) && run.job.measure is Kick,
        JobStateModel::Over => true,
    }
}

proof fn lemma_job_known_stays(run: JobRun, n: nat)
    requires
        0 < n <= run.events.len(),
    ensures
        forall|m: GroupMemberModel| #[trigger]
            run.cleared(n - 1, m) ==> run.cleared(n as int, m),
        run.acted(n - 1) ==> run.acted(n as int),
        forall|e: Seq<char>| #[trigger] run.reported(n - 1, e) ==> run.reported(n as int, e),
{
    assert forall|m: GroupMemberModel| #[trigger] run.cleared(n - 1, m) implies run.cleared(
        n as int,
        m,
    ) by {
        let i = choose|i: int| i < n - 1 && #[trigger] run.clears(i, m);
        assert(run.clears(i, m));
    }
    if run.acted(n - 1) {
        let i = choose|i: int| i < n - 1 && #[trigger] run.acts(i);
        assert(run.acts(i));
    }
    assert forall|e: Seq<char>| #[trigger] run.reported(n - 1, e) implies run.reported(
        n as int,
        e,
    ) by {
        let i = choose|i: int|
            0 <= i < n - 1 && i < run.events.len() && #[trigger] run.events[i]
                == JobEventModel::Acted(Some(e));
        assert(run.events[i] == JobEventModel::Acted(Some(e)));
    }
}

proof fn lemma_job_grounded(run: JobRun, n: nat)
    requires
        n <= run.events.len(),
    ensures
        job_grounded(run, n),
    decreases n,
{
    if n > 0 {
        lemma_job_grounded(run, (n - 1) as nat);
        lemma_job_known_stays(run, n);
        let i = n - 1;
        match (run.state(i as nat), run.events[i]) {
            (JobStateModel::Finding, JobEventModel::Found(found)) => {
                match target_verdict(
                    run.job.user_id,
                    run.job.account_id,
                    found,
                    run.job.measure.protects(),
                ) {
                    Ok(m) => {
                        assert(run.clears(i, m));
                        if run.step(i) is Act {
                            assert(run.acts(i));
                        }
                    },
                    Err(_) => {},
                }
            },
            (JobStateModel::Confirming(m), JobEventModel::Confirmed) => {
                assert(run.acts(i));
            },
            (JobStateModel::Acting(m), JobEventModel::Acted(Some(e))) => {
                assert(run.events[i] == JobEventModel::Acted(Some(e)));
                assert(run.reported(n as int, e));
            },
            _ => {},
        }
    }
}

/// However the group and the platform answer, the platform is asked to act only as it
/// was ordered, and only on a member that passed the check by then: that is not the
/// assistant, that is in the group, and that is no manager where managers are spared. A
/// title is set only after it was confirmed.
pub proof fn law_action_passes_the_check(run: JobRun, i: int)
    requires
        run.acts(i),
    ensures
        run.step(i) == JobStepModel::Act(run.job.user_id, run.job.measure),
        exists|member: GroupMemberModel| #[trigger] run.cleared(i + 1, member),
        run.job.user_id != run.job.account_id,
        run.job.measure is Title ==> run.confirmed(i + 1),
{
    lemma_job_grounded(run, i as nat);
    match (run.state(i as nat), run.events[i]) {
        (JobStateModel::Finding, JobEventModel::Found(found)) => {
            let m = target_verdict(
                run.job.user_id,
                run.job.account_id,
                found,
                run.job.measure.protects(),
            )->Ok_0;
            assert(run.clears(i, m));
            assert(run.cleared(i + 1, m));
        },
        (JobStateModel::Confirming(m), JobEventModel::Confirmed) => {
            assert(run.events[i] == JobEventModel::Confirmed);
            assert(run.confirmed(i + 1));
            let j = choose|j: int| j < i && #[trigger] run.clears(j, m);
            assert(run.clears(j, m));
            assert(run.cleared(i + 1, m));
        },
        _ => {},
    }
}

/// However the group and the platform answer, the platform is asked to act at most once.
pub proof fn law_action_happens_once(run: JobRun, i: int, j: int)
    requires
        run.acts(i),
        run.acts(j),
    ensures
        i == j,
{
    let (first, second) = if i < j {
        (i, j)
    } else {
        (j, i)
    };
    if first < second {
        assert(job_rank(run.state((first + 1) as nat)) == 2);
        lemma_job_never_back(run, (first + 1) as nat, second as nat);
    }
}

/// A member that fails the check is left alone, whatever comes after, and the answer
/// says why.
pub proof fn law_refused_member_is_left_alone(
    run: JobRun,
    i: int,
    found: Option<GroupMemberModel>,
    why: Seq<char>,
    j: int,
)
    requires
        0 <= i < run.events.len(),
        run.state(i as nat) is Finding,
        run.events[i] == JobEventModel::Found(found),
        target_verdict(
            run.job.user_id,
            run.job.account_id,
            found,
            run.job.measure.protects(),
        ) == Err::<GroupMemberModel, Seq<char>>(why),
    ensures
        run.step(i) == JobStepModel::Fail(why),
        !run.acts(j),
{
    if !run.acts(j) {
    } else if j < i {
        assert(job_rank(run.state((j + 1) as nat)) == 2);
        lemma_job_never_back(run, (j + 1) as nat, i as nat);
    } else if j > i {
        assert(job_rank(run.state((i + 1) as nat)) == 4);
        lemma_job_never_back(run, (i + 1) as nat, j as nat);
    }
}

/// An action is recorded, and answered as carried out, only after the platform was asked
/// for it, and with the member that passed the check: where the platform reported no
/// error, or where it did of a removal and a look then found the member gone.
pub proof fn law_record_follows_the_action(
    run: JobRun,
    i: int,
    member: GroupMemberModel,
    verdict: KickVerdictModel,
)
    requires
        0 <= i < run.events.len(),
        run.step(i) == JobStepModel::Record(member, verdict),
    ensures
        run.acted(i),
        run.cleared(i, member),
        verdict == KickVerdictModel::Done ==> run.events[i] == JobEventModel::Acted(None),
        verdict != KickVerdictModel::Done ==> run.job.measure is Kick && (verdict matches
            KickVerdictModel::Gone(error) && run.reported(i, error)) && (run.events[i]
            == JobEventModel::Looked(KickEvent::Ledger(true)) || run.events[i]
            == JobEventModel::Looked(KickEvent::MemberGone(true))),
{
    lemma_job_grounded(run, i as nat);
    match (run.state(i as nat), run.events[i]) {
        (JobStateModel::Acting(m), JobEventModel::Acted(error)) => {},
        (JobStateModel::Looking(m, e, n, asked), JobEventModel::Looked(event)) => {
            assert(is_answer(asked, event));
            match event {
                KickEvent::Ledger(true) => {},
                KickEvent::MemberGone(true) => {},
                _ => {
                    assert(kick_next(n, event).1 != KickStep::Done);
                },
            }
        },
        _ => {},
    }
}

// ---------------------------------------------------------------------------
// A call with several targets

/// How far a call with several targets has come.
pub enum BatchState {
    /// A confirmation is being asked for.
    Waiting,
    /// A target is being acted on; these are the results of the ones before it.
    Running(Vec<TargetResult>),
    /// It is over.
    Over,
}

/// The value of a [`BatchState`].
pub enum BatchStateModel {
    Waiting,
    Running(Seq<TargetResultModel>),
    Over,
}

impl View for BatchState {
    type V = BatchStateModel;

    open spec fn view(&self) -> BatchStateModel {
        match *self {
            BatchState::Waiting => BatchStateModel::Waiting,
            BatchState::Running(v) => BatchStateModel::Running(views(v@)),
            BatchState::Over => BatchStateModel::Over,
        }
    }
}

/// What has come to be known of a call with several targets.
pub enum BatchEvent {
    /// It was confirmed.
    Confirmed,
    /// It is to be confirmed first, with this prompt.
    Prompted(String),
    /// The confirmation could not be asked for, with this error.
    ConfirmFailed(String),
    /// The acting on a target is over.
    Ended(TargetResult),
}

/// The value of a [`BatchEvent`].
pub enum BatchEventModel {
    Confirmed,
    Prompted(Seq<char>),
    ConfirmFailed(Seq<char>),
    Ended(TargetResultModel),
}

impl View for BatchEvent {
    type V = BatchEventModel;

    open spec fn view(&self) -> BatchEventModel {
        match *self {
            BatchEvent::Confirmed => BatchEventModel::Confirmed,
            BatchEvent::Prompted(p) => BatchEventModel::Prompted(p@),
            BatchEvent::ConfirmFailed(e) => BatchEventModel::ConfirmFailed(e@),
            BatchEvent::Ended(x) => BatchEventModel::Ended(x@),
        }
    }
}

/// What to do next in a call with several targets.
pub enum BatchStep {
    /// Act on this target.
    Begin(String),
    /// Answer with what became of all of them.
    Answer(BatchResult),
    /// Answer with this prompt.
    Prompt(String),
    /// Fail with this error.
    Raise(String),
    /// Nothing: this was not waited for.
    Nothing,
}

/// The value of a [`BatchStep`].
pub enum BatchStepModel {
    Begin(Seq<char>),
    Answer(BatchResultModel),
    Prompt(Seq<char>),
    Raise(Seq<char>),
    Nothing,
}

impl View for BatchStep {
    type V = BatchStepModel;

    open spec fn view(&self) -> BatchStepModel {
        match *self {
            BatchStep::Begin(id) => BatchStepModel::Begin(id@),
            BatchStep::Answer(x) => BatchStepModel::Answer(x@),
            BatchStep::Prompt(p) => BatchStepModel::Prompt(p@),
            BatchStep::Raise(e) => BatchStepModel::Raise(e@),
            BatchStep::Nothing => BatchStepModel::Nothing,
        }
    }
}

/// The step once these results are there: the next target, or the answer.
pub open spec fn turn_step(targets: Seq<Seq<char>>, results: Seq<TargetResultModel>) -> (
    BatchStateModel,
    BatchStepModel,
) {
    if results.len() < targets.len() {
        (BatchStateModel::Running(results), BatchStepModel::Begin(targets[results.len() as int]))
    } else {
        (BatchStateModel::Over, BatchStepModel::Answer(batch_result(results)))
    }
}

fn turn_next(targets: &Vec<String>, results: Vec<TargetResult>) -> (r: (BatchState, BatchStep))
    ensures
        (r.0@, r.1@) == turn_step(texts(targets@), views(results@)),
{
    if results.len() < targets.len() {
        let id: String = targets[results.len()].clone();
        assert(texts(targets@)[results.len() as int] == id@);
        (BatchState::Running(results), BatchStep::Begin(id))
    } else {
        (BatchState::Over, BatchStep::Answer(aggregate_target_results(&results)))
    }
}

/// What to do next in a call with several targets.
pub open spec fn batch_step(
    targets: Seq<Seq<char>>,
    s: BatchStateModel,
    e: BatchEventModel,
) -> (BatchStateModel, BatchStepModel) {
    match (s, e) {
        (BatchStateModel::Waiting, BatchEventModel::Confirmed) => turn_step(targets, seq![]),
        (BatchStateModel::Waiting, BatchEventModel::Prompted(prompt)) => (
            BatchStateModel::Over,
            BatchStepModel::Prompt(prompt),
        ),
        (BatchStateModel::Waiting, BatchEventModel::ConfirmFailed(why)) => (
            BatchStateModel::Over,
            BatchStepModel::Raise(why),
        ),
        (BatchStateModel::Running(results), BatchEventModel::Ended(x)) => turn_step(
            targets,
            results.push(x),
        ),
        _ => (s, BatchStepModel::Nothing),
    }
}

/// What to do next in a call with several targets: once it is confirmed they are acted
/// on one after the other, whatever became of the ones before, and the answer tells of
/// all of them.
pub fn batch_next(targets: &Vec<String>, s: BatchState, e: BatchEvent) -> (r: (
    BatchState,
    BatchStep,
))
    ensures
        (r.0@, r.1@) == batch_step(texts(targets@), s@, e@),
{
    match (s, e) {
        (BatchState::Waiting, BatchEvent::Confirmed) => {
            let none: Vec<TargetResult> = Vec::new();
            assert(views(none@) =~= seq![]);
            turn_next(targets, none)
        }
        (BatchState::Waiting, BatchEvent::Prompted(prompt)) => (
            BatchState::Over,
            BatchStep::Prompt(prompt),
        ),
        (BatchState::Waiting, BatchEvent::ConfirmFailed(why)) => (
            BatchState::Over,
            BatchStep::Raise(why),
        ),
        (BatchState::Running(results), BatchEvent::Ended(x)) => {
            let mut all: Vec<TargetResult> = results;
            let ghost before = views(all@);
            all.push(x);
            assert(views(all@) =~= before.push(x@));
            turn_next(targets, all)
        }
        (s, _) => (s, BatchStep::Nothing),
    }
}

/// One call with several targets, and what came to be known.
pub struct BatchRun {
    pub targets: Seq<Seq<char>>,
    pub events: Seq<BatchEventModel>,
}

impl BatchRun {
    /// How far it has come after its first `n` events.
    pub open spec fn state(self, n: nat) -> BatchStateModel
        decreases n,
    {
        if n == 0 {
            BatchStateModel::Waiting
        } else {
            batch_step(self.targets, self.state((n - 1) as nat), self.events[n - 1]).0
        }
    }

    /// The step that its event numbered `i` leads to.
    pub open spec fn step(self, i: int) -> BatchStepModel {
        batch_step(self.targets, self.state(i as nat), self.events[i]).1
    }

    /// Whether the event numbered `i` lets a target be acted on.
    pub open spec fn begins(self, i: int) -> bool {
        0 <= i < self.events.len() && self.step(i) is Begin
    }

    /// How many targets were acted on before the one that the event numbered `i` lets be.
    pub open spec fn turn(self, i: int) -> nat {
        match self.state((i + 1) as nat) {
            BatchStateModel::Running(results) => results.len(),
            _ => 0,
        }
    }

    /// Whether one of the first `n` events confirmed it.
    pub open spec fn confirmed(self, n: int) -> bool {
        exists|i: int|
            0 <= i < n && i < self.events.len() && #[trigger] self.events[i]
                == BatchEventModel::Confirmed
    }
}

proof fn lemma_batch_confirmed(run: BatchRun, n: nat)
    requires
        n <= run.events.len(),
        run.state(n) is Running,
    ensures
        run.confirmed(n as int),
        run.state(n)->Running_0.len() < run.targets.len(),
    decreases n,
{
    let i = n - 1;
    if run.state(i as nat) is Running {
        lemma_batch_confirmed(run, i as nat);
        let j = choose|j: int|
            0 <= j < i && j < run.events.len() && #[trigger] run.events[j]
                == BatchEventModel::Confirmed;
        assert(run.events[j] == BatchEventModel::Confirmed);
    } else {
        assert(run.events[i] == BatchEventModel::Confirmed);
    }
}

proof fn lemma_batch_goes_on(run: BatchRun, i: nat, j: nat)
    requires
        i <= j <= run.events.len(),
        run.state(i) is Running,
        run.state(j) is Running,
    ensures
        run.state(i)->Running_0.len() <= run.state(j)->Running_0.len(),
    decreases j - i,
{
    if i < j {
        let k = (j - 1) as nat;
        lemma_batch_stays_out(run, i, k);
        lemma_batch_goes_on(run, i, k);
    }
}

proof fn lemma_batch_stays_out(run: BatchRun, i: nat, k: nat)
    requires
        i <= k < run.events.len(),
        run.state(i) is Running,
        run.state((k + 1) as nat) is Running,
    ensures
        run.state(k) is Running,
{
    if !(run.state(k) is Running) {
        assert(run.state(k) is Waiting);
        lemma_batch_never_waits(run, i, k);
    }
}

proof fn lemma_batch_never_waits(run: BatchRun, i: nat, k: nat)
    requires
        i <= k <= run.events.len(),
        !(run.state(i) is Waiting),
    ensures
        !(run.state(k) is Waiting),
    decreases k - i,
{
    if i < k {
        lemma_batch_never_waits(run, i, (k - 1) as nat);
    }
}

/// No target is acted on before the call is confirmed; the one that is, is the one whose
/// turn it is.
pub proof fn law_batch_waits_for_the_confirmation(run: BatchRun, i: int)
    requires
        run.begins(i),
    ensures
        run.confirmed(i + 1),
        run.turn(i) < run.targets.len(),
        run.step(i) == BatchStepModel::Begin(run.targets[run.turn(i) as int]),
{
    lemma_batch_confirmed(run, (i + 1) as nat);
}

/// Every target has its turn once, in the order in which they were given.
pub proof fn law_batch_goes_in_order(run: BatchRun, i: int, j: int)
    requires
        run.begins(i),
        run.begins(j),
        i < j,
    ensures
        run.turn(i) < run.turn(j),
{
    lemma_batch_never_waits(run, (i + 1) as nat, j as nat);
    assert(run.state(j as nat) is Running);
    lemma_batch_goes_on(run, (i + 1) as nat, j as nat);
}

/// The answer tells of as many results as there are targets: of every one, whatever
/// became of the ones before.
pub proof fn law_batch_answers_for_every_target(run: BatchRun, i: int)
    requires
        0 <= i < run.events.len(),
        run.step(i) is Answer,
        run.targets.len() > 0,
    ensures
        run.state(i as nat) matches BatchStateModel::Running(before) && (
        run.events[i] matches BatchEventModel::Ended(last) && before.len() + 1
            == run.targets.len() && run.step(i) == BatchStepModel::Answer(
            batch_result(before.push(last)),
        )),
{
    if run.state(i as nat) is Running {
        lemma_batch_confirmed(run, i as nat);
    }
}

// ---------------------------------------------------------------------------
// Notices of the platform

/// The kinds of notices that moderation heeds.
#[derive(Clone, Copy, Debug, PartialEq, Eq, Structural)]
pub enum NoticeKind {
    GroupBan,
    GroupDecrease,
    Other,
}

/// A notice of the platform.
pub struct Notice {
    pub kind: NoticeKind,
    /// The member it is about.
    pub sender_id: String,
    pub sender_name: String,
    /// Who acted.
    pub operator_id: Option<String>,
    pub sub_type: Option<String>,
    pub timestamp: i64,
    pub duration_seconds: Option<u64>,
}

/// What a [`Notice`] holds, as values.
#[verifier::ext_equal]
pub struct NoticeModel {
    pub kind: NoticeKind,
    pub sender_id: Seq<char>,
    pub sender_name: Seq<char>,
    pub operator_id: Option<Seq<char>>,
    pub sub_type: Option<Seq<char>>,
    pub timestamp: i64,
    pub duration_seconds: Option<u64>,
}

impl View for Notice {
    type V = NoticeModel;

    open spec fn view(&self) -> NoticeModel {
        NoticeModel {
            kind: self.kind,
            sender_id: self.sender_id@,
            sender_name: self.sender_name@,
            operator_id: opt_text(self.operator_id),
            sub_type: opt_text(self.sub_type),
            timestamp: self.timestamp,
            duration_seconds: self.duration_seconds,
        }
    }
}


/// What a notice leaves behind.
pub struct NoticeTrace {
    pub kick: Option<KickRecord>,
    pub event: Option<ManagementEvent>,
    pub context_text: Option<String>,
}

/// What a [`NoticeTrace`] holds, as values.
#[verifier::ext_equal]
pub struct NoticeTraceModel {
    pub kick: Option<KickRecordModel>,
    pub event: Option<ManagementEventModel>,
    pub context_text: Option<Seq<char>>,
}

impl View for NoticeTrace {
    type V = NoticeTraceModel;

    open spec fn view(&self) -> NoticeTraceModel {
        NoticeTraceModel {
            kick: opt_view(self.kick),
            event: opt_view(self.event),
            context_text: opt_text(self.context_text),
        }
    }
}


/// The later of two times.
pub open spec fn later(a: i64, b: i64) -> i64 {
    if a > b {
        a
    } else {
        b
    }
}

/// Whether a notice puts its member into the ledger of removals.
pub open spec fn notice_removes(n: NoticeModel) -> bool {
    n.kind == NoticeKind::GroupDecrease
}

/// A member known only from a notice.
pub open spec fn noticed_member(group_id: Seq<char>, n: NoticeModel) -> GroupMemberModel {
    GroupMemberModel {
        group_id: group_id,
        user_id: n.sender_id,
        nickname: n.sender_name,
        card: seq![],
        role: "member"@,
        title: seq![],
        joined_at: 0,
        last_active_at: 0,
    }
}

/// What a notice leaves behind besides the ledger: nothing where the assistant
/// itself acted, since the tool has recorded that.
pub open spec fn notice_trace(
    settings: Settings,
    group_id: Seq<char>,
    account_id: Seq<char>,
    n: NoticeModel,
    now: i64,
    record_id: Seq<char>,
) -> NoticeTraceModel {
    let nothing = NoticeTraceModel { kick: None, event: None, context_text: None };
    let member = noticed_member(group_id, n);
    let at = later(n.timestamp, now);
    let duration = match n.duration_seconds {
        Some(d) => d,
        None => 0,
    };
    if n.operator_id == Some(account_id) {
        nothing
    } else if n.kind == NoticeKind::GroupBan && settings.enable_record {
        if duration == 0 && !settings.sync_external_unmute_notice {
            nothing
        } else {
            NoticeTraceModel {
                kick: None,
                event: Some(
                    ManagementEventModel {
                        record_id: record_id,
                        action: if duration == 0 {
                            "unban"@
                        } else {
                            "ban"@
                        },
                        user_id: n.sender_id,
                        user_name: n.sender_name,
                        duration: duration,
                        happened_at: at,
                        operator_id: text_or_none(n.operator_id),
                        reason: seq![],
                        source: "onebot_notice"@,
                        detail: seq![],
                    },
                ),
                context_text: Some(
                    context_note(
                        record_id,
                        if duration == 0 {
                            "外部解禁"@
                        } else {
                            "外部禁言"@
                        },
                        account_id,
                        member,
                        seq![],
                        Some(duration),
                    ),
                ),
            }
        }
    } else if n.kind == NoticeKind::GroupDecrease && n.sub_type == Some("kick"@) {
        let record = KickRecordModel {
            record_id: record_id,
            group_id: group_id,
            user_id: n.sender_id,
            user_name: n.sender_name,
            kicked_at: at,
            operator_id: text_or_none(n.operator_id),
            reason: seq![],
            reject_add_request: false,
            source: "onebot_notice"@,
        };
        NoticeTraceModel {
            kick: Some(record),
            event: if settings.enable_record {
                Some(kick_event(record))
            } else {
                None
            },
            context_text: Some(
                context_note(record_id, "外部踢出"@, account_id, member, seq![], None),
            ),
        }
    } else {
        nothing
    }
}

/// Whether a notice puts its member into the ledger of removals: whoever acted,
/// the assistant included.
pub fn notice_removal(n: &Notice) -> (r: bool)
    ensures
        r == notice_removes(n@),
{
    n.kind == NoticeKind::GroupDecrease
}

/// What a notice leaves behind besides the ledger of removals.
pub fn observe_inbound(
    settings: &Settings,
    group_id: &str,
    account_id: &str,
    n: &Notice,
    now: i64,
    record_id: &str,
) -> (r: NoticeTrace)
    ensures
        r@ == notice_trace(*settings, group_id@, account_id@, n@, now, record_id@),
{
    if opt_is(&n.operator_id, account_id) {
        return NoticeTrace { kick: None, event: None, context_text: None };
    }
    let member: GroupMember = crate::group_management::args::notice_member(
        group_id,
        &n.sender_id,
        &n.sender_name,
    );
    let at: i64 = if n.timestamp > now { n.timestamp } else { now };
    let duration: u64 = match n.duration_seconds {
        Some(d) => d,
        None => 0,
    };
    assert(""@ =~= seq![]) by {
        reveal_strlit("");
    }
    if n.kind == NoticeKind::GroupBan && settings.enable_record {
        if duration == 0 && !settings.sync_external_unmute_notice {
            return NoticeTrace { kick: None, event: None, context_text: None };
        }
        let event: ManagementEvent = ManagementEvent {
            record_id: record_id.to_owned(),
            action: if duration == 0 {
                "unban".to_owned()
            } else {
                "ban".to_owned()
            },
            user_id: n.sender_id.clone(),
            user_name: n.sender_name.clone(),
            duration: duration,
            happened_at: at,
            operator_id: copy_or_empty(&n.operator_id),
            reason: String::new(),
            source: "onebot_notice".to_owned(),
            detail: String::new(),
        };
        assert(event@.reason =~= seq![]);
        assert(event@.detail =~= seq![]);
        let action: &str = if duration == 0 { "外部解禁" } else { "外部禁言" };
        let text: String = record_real_context(
            record_id,
            action,
            account_id,
            &member,
            "",
            Some(duration),
        );
        return NoticeTrace { kick: None, event: Some(event), context_text: Some(text) };
    }
    if n.kind == NoticeKind::GroupDecrease && opt_is(&n.sub_type, "kick") {
        let record: KickRecord = KickRecord {
            record_id: record_id.to_owned(),
            group_id: group_id.to_owned(),
            user_id: n.sender_id.clone(),
            user_name: n.sender_name.clone(),
            kicked_at: at,
            operator_id: copy_or_empty(&n.operator_id),
            reason: String::new(),
            reject_add_request: false,
            source: "onebot_notice".to_owned(),
        };
        assert(record@.reason =~= seq![]);
        let event: Option<ManagementEvent> = if settings.enable_record {
            Some(event_of_kick(&record))
        } else {
            None
        };
        let text: String = record_real_context(
            record_id,
            "外部踢出",
            account_id,
            &member,
            "",
            None,
        );
        return NoticeTrace { kick: Some(record), event: event, context_text: Some(text) };
    }
    NoticeTrace { kick: None, event: None, context_text: None }
}

/// A removal by the assistant itself still reaches the ledger, though it leaves
/// no second record.
pub proof fn law_own_removal_reaches_the_ledger(
    settings: Settings,
    group_id: Seq<char>,
    account_id: Seq<char>,
    n: NoticeModel,
    now: i64,
    record_id: Seq<char>,
)
    requires
        n.kind == NoticeKind::GroupDecrease,
        n.operator_id == Some(account_id),
    ensures
        notice_removes(n),
        notice_trace(settings, group_id, account_id, n, now, record_id).kick is None,
        notice_trace(settings, group_id, account_id, n, now, record_id).event is None,
{
}

// ---------------------------------------------------------------------------
// Requests do what they ask for

/// A mute lasts as long as the call asks, nought seconds included, which lift it; only
/// where the call says nothing does it last as long as is usual. What is longer than may
/// be is refused, and nothing else is for its length.
pub proof fn law_a_mute_lasts_as_asked(
    settings: Settings,
    args: Arguments,
    targets: Seq<Seq<char>>,
    n: u64,
)
    ensures
        args.at("duration_seconds"@) == Some(Argument::One(Scalar::Unsigned(n))) ==> {
            &&& n > 2592000 ==> ban_request(settings, args, targets) is Err
            &&& n <= 2592000 && ban_request(settings, args, targets) is Ok ==> ban_request(
                settings,
                args,
                targets,
            )->Ok_0.duration == n
        },
        args.at("duration_seconds"@) is None && args.at("duration"@) == Some(
            Argument::One(Scalar::Unsigned(n)),
        ) ==> {
            &&& n > 2592000 ==> ban_request(settings, args, targets) is Err
            &&& n <= 2592000 && ban_request(settings, args, targets) is Ok ==> ban_request(
                settings,
                args,
                targets,
            )->Ok_0.duration == n
        },
        args.at("duration_seconds"@) is None && args.at("duration"@) is None && ban_request(
            settings,
            args,
            targets,
        ) is Ok ==> ban_request(settings, args, targets)->Ok_0.duration
            == settings.default_duration_seconds,
        ban_request(settings, args, targets) is Ok ==> ban_request(
            settings,
            args,
            targets,
        )->Ok_0.duration <= 2592000,
{
}

/// A mute that names a time within the bounds, a short reason and someone to mute is
/// accepted; it mutes just those, for just that reason.
pub proof fn law_a_proper_mute_is_accepted(
    settings: Settings,
    args: Arguments,
    targets: Seq<Seq<char>>,
    n: u64,
    why: String,
)
    requires
        args.at("duration_seconds"@) == Some(Argument::One(Scalar::Unsigned(n))),
        n <= 2592000,
        args.at("reason"@) == Some(Argument::One(Scalar::Text(why))),
        trim(why@).len() <= settings.max_reason_length,
        targets.len() > 0,
    ensures
        ban_request(settings, args, targets) is Ok,
        ban_request(settings, args, targets)->Ok_0.targets == targets,
        ban_request(settings, args, targets)->Ok_0.reason == trim(why@),
        kick_request(settings, args, targets) is Ok,
        kick_request(settings, args, targets)->Ok_0.targets == targets,
        kick_request(settings, args, targets)->Ok_0.reason == trim(why@),
{
}

/// Nothing is done without someone to do it to, nor for a reason that is too long.
pub proof fn law_improper_requests_are_refused(
    settings: Settings,
    args: Arguments,
    targets: Seq<Seq<char>>,
    why: String,
)
    ensures
        targets.len() == 0 ==> ban_request(settings, args, targets) is Err && kick_request(
            settings,
            args,
            targets,
        ) is Err && title_request(settings, args, targets) is Err,
        args.at("reason"@) == Some(Argument::One(Scalar::Text(why))) && trim(why@).len()
            > settings.max_reason_length ==> ban_request(settings, args, targets) is Err
            && kick_request(settings, args, targets) is Err && title_request(
            settings,
            args,
            targets,
        ) is Err,
{
}

/// Later requests to join are refused only where the call says so in so many words.
pub proof fn law_a_removal_blacklists_only_on_request(
    settings: Settings,
    args: Arguments,
    targets: Seq<Seq<char>>,
)
    requires
        kick_request(settings, args, targets) is Ok,
    ensures
        kick_request(settings, args, targets)->Ok_0.blacklist <==> args.at("blacklist"@) == Some(
            Argument::One(Scalar::Bool(true)),
        ),
{
}

/// A title goes to the one member that is named, as it is written but for white space
/// around it; it is never too long. It lasts as long as the call asks, but no longer than
/// may be where there is a bound, and for ever where the call says nothing or less than
/// nought.
pub proof fn law_a_title_is_set_as_asked(
    settings: Settings,
    args: Arguments,
    targets: Seq<Seq<char>>,
    word: String,
    n: u64,
)
    requires
        title_request(settings, args, targets) is Ok,
    ensures
        ({
            let q = title_request(settings, args, targets)->Ok_0;
            let most = settings.max_special_title_duration_seconds;
            &&& targets == seq![q.target]
            &&& q.title.len() <= settings.max_special_title_length
            &&& args.at("special_title"@) == Some(Argument::One(Scalar::Text(word))) ==> q.title
                == trim(word@)
            &&& args.at("duration"@) is None ==> q.duration == -1
            &&& args.at("duration"@) == Some(Argument::One(Scalar::Unsigned(n))) && n <= i64::MAX
                && (most <= 0 || n <= most) ==> q.duration == n
            &&& args.at("duration"@) == Some(Argument::One(Scalar::Unsigned(n))) && n <= i64::MAX
                && 0 < most < n ==> q.duration == most
            &&& q.duration >= -1
            &&& most > 0 ==> q.duration <= most
        }),
{
    let q = title_request(settings, args, targets)->Ok_0;
    assert(targets =~= seq![q.target]);
}

/// Every action is carried out under its own name, and only where it is offered.
pub proof fn law_actions_go_by_their_names(o: Offered, action: Seq<char>)
    ensures
        manage_action(o, action) == Ok::<ManageAction, Seq<char>>(ManageAction::Mute) <==> action
            == "mute"@ && o.mute,
        manage_action(o, action) == Ok::<ManageAction, Seq<char>>(ManageAction::Kick) <==> action
            == "kick"@ && o.kick,
        manage_action(o, action) == Ok::<ManageAction, Seq<char>>(ManageAction::Title) <==> action
            == "title"@ && o.title,
        manage_action(o, action) is Ok ==> offered_actions(o).contains(action),
{
    reveal_strlit("mute");
    reveal_strlit("kick");
    reveal_strlit("title");
    assert("mute"@[0] != "kick"@[0]);
    assert("title"@.len() != "kick"@.len());
    let all = offered_actions(o);
    if manage_action(o, action) is Ok {
        if action == "mute"@ {
            assert(all[0] == action);
        } else if action == "kick"@ {
            assert(all[if o.mute {
                1int
            } else {
                0
            }] == action);
        } else {
            assert(all[all.len() - 1] == action);
        }
    }
}

/// Whoever is acted on is in the group, is not the assistant itself, and is no manager
/// where managers are protected: these are the only members left alone.
pub proof fn law_managers_are_protected(
    user_id: Seq<char>,
    account_id: Seq<char>,
    found: Option<GroupMemberModel>,
    measure: MeasureModel,
)
    ensures
        ({
            let v = target_verdict(user_id, account_id, found, measure.protects());
            &&& v is Ok ==> found == Some(v->Ok_0) && user_id != account_id
            &&& v is Ok && (measure is Mute || measure is Kick) ==> v->Ok_0.role != "owner"@
                && v->Ok_0.role != "admin"@
            &&& user_id != account_id && found is Some && found->0.role == "member"@ ==> v is Ok
            &&& user_id != account_id && found is Some && measure is Title ==> v is Ok
        }),
{
    reveal_strlit("member");
    reveal_strlit("owner");
    reveal_strlit("admin");
    assert("member"@.len() == 6 && "owner"@.len() == 5 && "admin"@.len() == 5);
}

/// What is recorded of a mute agrees with it and with itself: it names the member and the
/// reason, ends when its time is over, and counts as lifted just where it lasts no time.
pub proof fn law_the_record_of_a_mute_agrees(
    settings: Settings,
    who: ActingModel,
    user_id: Seq<char>,
    member: GroupMemberModel,
    duration: u64,
    reason: Seq<char>,
)
    requires
        duration <= 2592000,
        0 <= who.now <= i64::MAX - 2592000,
    ensures
        ({
            let t = ban_trace(settings, who, user_id, member, duration, reason);
            &&& t.record.user_id == user_id && t.record.reason == reason && t.record.group_id
                == who.group_id && t.record.operator_id == who.operator_id
            &&& t.record.duration == duration
            &&& t.record.started_at == who.now
            &&& t.record.expires_at == who.now + duration
            &&& (t.record.status == "unmuted"@) <==> duration == 0
            &&& (t.record.status == "active"@) <==> duration > 0
            &&& t.event is Some <==> settings.enable_record
            &&& t.event is Some ==> {
                let e = t.event->0;
                &&& e.record_id == t.record.record_id && e.user_id == user_id && e.reason == reason
                    && e.duration == duration && e.happened_at == who.now && e.operator_id
                    == who.operator_id && e.user_name == t.record.user_name
                &&& (e.action == "unban"@) <==> duration == 0
                &&& (e.action == "ban"@) <==> duration > 0
            }
            &&& t.update_offender <==> settings.enable_offender_history && duration > 0
        }),
{
    reveal_strlit("unmuted");
    reveal_strlit("active");
    reveal_strlit("ban");
    reveal_strlit("unban");
    assert("unmuted"@.len() != "active"@.len());
    assert("ban"@.len() != "unban"@.len());
}

/// What is recorded of a removal agrees with it and with itself.
pub proof fn law_the_record_of_a_removal_agrees(
    settings: Settings,
    who: ActingModel,
    user_id: Seq<char>,
    member: GroupMemberModel,
    blacklist: bool,
    reason: Seq<char>,
)
    ensures
        ({
            let t = kick_trace(settings, who, user_id, member, blacklist, reason);
            &&& t.record.user_id == user_id && t.record.reason == reason && t.record.group_id
                == who.group_id && t.record.operator_id == who.operator_id && t.record.kicked_at
                == who.now
            &&& t.record.reject_add_request == blacklist
            &&& t.event is Some <==> settings.enable_record
            &&& t.event is Some ==> {
                let e = t.event->0;
                &&& e.record_id == t.record.record_id && e.user_id == user_id && e.reason == reason
                    && e.happened_at == who.now && e.operator_id == who.operator_id
                &&& (e.action == "kick_black"@) <==> blacklist
                &&& (e.action == "kick"@) <==> !blacklist
            }
        }),
{
    reveal_strlit("kick");
    reveal_strlit("kick_black");
    assert("kick"@.len() != "kick_black"@.len());
}

/// What is recorded of a title agrees with the request, and clears one just where the
/// title is empty.
pub proof fn law_the_record_of_a_title_agrees(
    who: ActingModel,
    request: TitleRequestModel,
    member: GroupMemberModel,
)
    ensures
        ({
            let e = title_trace(who, request, member).event;
            &&& e.user_id == request.target && e.detail == request.title && e.reason
                == request.reason && e.happened_at == who.now && e.record_id == who.record_id
            &&& (e.action == "title_clear"@) <==> request.title.len() == 0
            &&& (e.action == "title_set"@) <==> request.title.len() > 0
        }),
{
    reveal_strlit("title_clear");
    reveal_strlit("title_set");
    assert("title_clear"@.len() != "title_set"@.len());
}

/// What others do to a member is recorded as what it was: a mute as long as it was told,
/// a lifted one only where that is wanted, and a removal. What the assistant did itself is
/// not recorded again.
pub proof fn law_notices_are_recorded_as_they_are(
    settings: Settings,
    group_id: Seq<char>,
    account_id: Seq<char>,
    n: NoticeModel,
    now: i64,
    record_id: Seq<char>,
)
    ensures
        ({
            let t = notice_trace(settings, group_id, account_id, n, now, record_id);
            let muted = n.duration_seconds is Some && n.duration_seconds->0 > 0;
            let foreign = n.operator_id != Some(account_id);
            &&& !foreign ==> t.event is None && t.kick is None && t.context_text is None
            &&& foreign && n.kind == NoticeKind::GroupBan ==> {
                &&& t.kick is None
                &&& t.event is Some <==> settings.enable_record && (muted
                    || settings.sync_external_unmute_notice)
                &&& t.event is Some ==> t.event->0.user_id == n.sender_id && t.event->0.duration
                    == (if muted {
                    n.duration_seconds->0
                } else {
                    0
                }) && ((t.event->0.action == "ban"@) <==> muted) && ((t.event->0.action
                    == "unban"@) <==> !muted)
                &&& t.context_text is Some <==> t.event is Some
            }
            &&& foreign && n.kind == NoticeKind::GroupDecrease && n.sub_type == Some("kick"@) ==> {
                &&& t.kick is Some && t.kick->0.user_id == n.sender_id && t.kick->0.group_id
                    == group_id && !t.kick->0.reject_add_request
                &&& t.event is Some <==> settings.enable_record
                &&& t.event is Some ==> t.event->0.action == "kick"@ && t.event->0.user_id
                    == n.sender_id && t.event->0.record_id == t.kick->0.record_id
            }
            &&& n.kind == NoticeKind::Other ==> t.event is None && t.kick is None
            &&& t.event is Some ==> t.event->0.happened_at >= now && t.event->0.happened_at
                >= n.timestamp
        }),
{
    reveal_strlit("ban");
    reveal_strlit("unban");
    assert("ban"@.len() != "unban"@.len());
}

/// What is switched on is offered in a group, and a tool that is offered takes what it needs.
pub proof fn law_what_is_offered(
    settings: Settings,
    kind: ConversationKind,
    admin: bool,
    r: Offered,
    o: Offered,
)
    requires
        call_ensures(register, (&settings, kind, admin), r),
    ensures
        kind == ConversationKind::Group ==> r.mute == settings.enable_tool && r.kick
            == settings.enable_kick_tool && r.title == settings.enable_special_title_tool,
        kind != ConversationKind::Group ==> !r.mute && !r.kick && !r.title,
        r.history_query <==> (settings.enable_tool || settings.enable_kick_tool) && (kind
            == ConversationKind::Group || admin),
        offered_properties(o).len() == 4 + (if o.mute {
            1int
        } else {
            0
        }) + (if o.kick {
            2int
        } else {
            0
        }) + (if o.title {
            1int
        } else {
            0
        }),
        offered_properties(o)[0] == "action"@,
        offered_properties(o)[1] == "user_id"@,
        o.mute ==> offered_properties(o)[4] == "duration_seconds"@,
        o.title ==> offered_properties(o).last() == "special_title"@,
        o.kick && !o.mute ==> offered_properties(o)[4] == "user_ids"@ && offered_properties(o)[5]
            == "blacklist"@,
        o.kick && o.mute ==> offered_properties(o)[5] == "user_ids"@ && offered_properties(o)[6]
            == "blacklist"@,
{
}

/// Each role has its own name, and each record its own message.
pub proof fn law_roles_and_records_have_names(
    role: BotGroupRole,
    name: &'static str,
    a: &str,
    b: &str,
    x: String,
    y: String,
)
    requires
        call_ensures(prepare_role, (role,), name),
        call_ensures(context_message_id, (a,), x),
        call_ensures(context_message_id, (b,), y),
    ensures
        role == BotGroupRole::Owner ==> name@ == "owner"@,
        role == BotGroupRole::Admin ==> name@ == "admin"@,
        role == BotGroupRole::Member ==> name@ == "member"@,
        role == BotGroupRole::Unknown ==> name@ == "unknown"@,
        x@ == y@ ==> a@ == b@,
{
    let p = "qq-management-"@;
    if x@ == y@ {
        assert(x@.subrange(p.len() as int, x@.len() as int) =~= a@);
        assert(y@.subrange(p.len() as int, y@.len() as int) =~= b@);
    }
}

/// What is noted of an action names what was done, to whom and by whom, for how long and why,
/// and under which record.
pub proof fn law_an_action_is_noted(
    id: Seq<char>,
    action: Seq<char>,
    account_id: Seq<char>,
    member: GroupMemberModel,
    reason: Seq<char>,
    duration: Option<u64>,
)
    ensures
        ({
            let note = context_note(id, action, account_id, member, reason, duration);
            &&& occurs(note, action) && occurs(note, account_id) && occurs(
                note,
                member.shown_name(),
            ) && occurs(note, member.user_id) && occurs(note, id)
            &&& duration is Some ==> occurs(note, decimal(duration->0 as nat))
            &&& reason.len() > 0 ==> occurs(note, reason)
        }),
{
    let head = lemma_note_head(action, account_id, member);
    let a = "\n时长："@;
    let b = " 秒"@;
    let c = "\n原因："@;
    let e = "\n记录 ID："@;
    let timed = match duration {
        Some(n) => {
            let d = decimal(n as nat);
            law_writing_on_loses_nothing(head, a);
            law_writing_on_loses_nothing(head + a, d);
            law_writing_on_loses_nothing(head + a + d, b);
            head + a + d + b
        },
        None => head,
    };
    law_writing_on_loses_nothing(timed, c);
    law_writing_on_loses_nothing(timed + c, reason);
    let reasoned = if reason.len() > 0 {
        timed + c + reason
    } else {
        timed
    };
    law_writing_on_loses_nothing(reasoned, e);
    law_writing_on_loses_nothing(reasoned + e, id);
    assert(context_note(id, action, account_id, member, reason, duration) == reasoned + e + id);
}

proof fn lemma_note_head(action: Seq<char>, account_id: Seq<char>, member: GroupMemberModel) -> (head:
    Seq<char>)
    ensures
        head == "[System:群管理行为]\n操作："@ + action + "\n执行者：顾清影（"@ + account_id
            + "）\n对象："@ + member.shown_name() + "（"@ + member.user_id + "）"@,
        occurs(head, action),
        occurs(head, account_id),
        occurs(head, member.shown_name()),
        occurs(head, member.user_id),
{
    let t1 = "[System:群管理行为]\n操作："@ + action;
    law_writing_on_loses_nothing("[System:群管理行为]\n操作："@, action);
    law_writing_on_loses_nothing(t1, "\n执行者：顾清影（"@);
    let t2 = t1 + "\n执行者：顾清影（"@;
    law_writing_on_loses_nothing(t2, account_id);
    law_writing_on_loses_nothing(t2 + account_id, "）\n对象："@);
    let t3 = t2 + account_id + "）\n对象："@;
    law_writing_on_loses_nothing(t3, member.shown_name());
    law_writing_on_loses_nothing(t3 + member.shown_name(), "（"@);
    let t4 = t3 + member.shown_name() + "（"@;
    law_writing_on_loses_nothing(t4, member.user_id);
    law_writing_on_loses_nothing(t4 + member.user_id, "）"@);
    t4 + member.user_id + "）"@
}

} // verus!
