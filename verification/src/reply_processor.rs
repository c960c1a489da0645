//! Long answers: when an answer is sent as an image or as a forwarded message, and
//! how an administrator changes that for a conversation.

use crate::numbers::{
    decimal, decimal_text, law_decimal_reads_back, law_numbers_read_back, parse_u64, u64_value,
};
use crate::platform::{plugin_scope, scope_of, Conversation, ConversationKind, ScopeKey};
use crate::real_context::judge::{ascii_lowercase, to_ascii_lowercase};
use crate::text::{
    copy_texts, has_prefix, is_digit, is_white, join, joined, law_joined_parts_occur, law_one_word, law_plain_white_space,
    law_trimmed_stays, law_white_space_parts_words, law_writing_on_loses_nothing, occurs, opt_text,
    opt_view, same, text_words, texts, trim, trimmed, views, words,
};
use vstd::prelude::*;
use vstd::string::*;

verus! {

/// The plugin's name.
pub const PLUGIN_ID: &'static str = "reply_processor";

/// The highest threshold.
pub const MAX_THRESHOLD: u64 = 100000;

/// How a long answer is sent.
#[derive(Clone, Copy, Debug, PartialEq, Eq, Structural)]
pub enum ReplyMode {
    Image,
    Forward,
}

impl ReplyMode {
    /// The mode that a word names.
    pub open spec fn named(word: Seq<char>) -> Option<ReplyMode> {
        let w = ascii_lowercase(trim(word));
        if w == "转图片"@ || w == "图片"@ || w == "image"@ {
            Some(ReplyMode::Image)
        } else if w == "合并转发"@ || w == "转发"@ || w == "forward"@ {
            Some(ReplyMode::Forward)
        } else {
            None
        }
    }

    /// The mode that a word names.
    pub fn parse(word: &str) -> (r: Option<ReplyMode>)
        ensures
            r == ReplyMode::named(word@),
    {
        let t: String = trimmed(word);
        let w: String = to_ascii_lowercase(&t);
        if same(&w, "转图片") || same(&w, "图片") || same(&w, "image") {
            Some(ReplyMode::Image)
        } else if same(&w, "合并转发") || same(&w, "转发") || same(&w, "forward") {
            Some(ReplyMode::Forward)
        } else {
            None
        }
    }

    /// What the mode is called.
    pub open spec fn called(self) -> Seq<char> {
        match self {
            ReplyMode::Image => "转图片"@,
            ReplyMode::Forward => "合并转发"@,
        }
    }

    /// What the mode is called.
    pub fn label(self) -> (r: &'static str)
        ensures
            r@ == self.called(),
    {
        match self {
            ReplyMode::Image => "转图片",
            ReplyMode::Forward => "合并转发",
        }
    }
}

/// What a conversation sets differently.
#[derive(Clone, Copy, Debug, PartialEq, Eq, Structural)]
pub struct SessionOverrides {
    pub enabled: Option<bool>,
    pub threshold: Option<u64>,
    pub mode: Option<ReplyMode>,
}

impl SessionOverrides {
    /// Whether nothing is set differently.
    pub open spec fn sets_nothing(self) -> bool {
        self.enabled is None && self.threshold is None && self.mode is None
    }

    /// Whether nothing is set differently.
    pub fn is_empty(&self) -> (r: bool)
        ensures
            r == self.sets_nothing(),
    {
        self.enabled.is_none() && self.threshold.is_none() && self.mode.is_none()
    }

    /// Nothing set differently.
    pub fn none() -> (r: SessionOverrides)
        ensures
            r.sets_nothing(),
    {
        SessionOverrides { enabled: None, threshold: None, mode: None }
    }
}

/// The settings of the plugin.
#[derive(Clone, Copy, Debug, PartialEq, Eq, Structural)]
pub struct ReplyProcessorConfig {
    pub default_enabled: bool,
    pub threshold: u64,
    pub mode: ReplyMode,
    pub strip_period: bool,
    pub context_notice: bool,
    pub send_tool_intercept: bool,
    pub followup_mention: bool,
}

/// The settings that hold in a conversation.
#[derive(Clone, Copy, Debug, PartialEq, Eq, Structural)]
pub struct EffectiveSettings {
    pub enabled: bool,
    pub threshold: u64,
    pub mode: ReplyMode,
    pub custom: bool,
    pub config: ReplyProcessorConfig,
}

/// The settings that hold in a conversation: what it sets, over the plugin's.
pub open spec fn effective(config: ReplyProcessorConfig, o: SessionOverrides) -> EffectiveSettings {
    EffectiveSettings {
        enabled: match o.enabled {
            Some(b) => b,
            None => config.default_enabled,
        },
        threshold: match o.threshold {
            Some(n) => n,
            None => config.threshold,
        },
        mode: match o.mode {
            Some(m) => m,
            None => config.mode,
        },
        custom: !o.sets_nothing(),
        config: config,
    }
}

/// The settings that hold in a conversation.
pub fn effective_settings(config: ReplyProcessorConfig, o: SessionOverrides) -> (r: EffectiveSettings)
    ensures
        r == effective(config, o),
{
    EffectiveSettings {
        enabled: match o.enabled {
            Some(b) => b,
            None => config.default_enabled,
        },
        threshold: match o.threshold {
            Some(n) => n,
            None => config.threshold,
        },
        mode: match o.mode {
            Some(m) => m,
            None => config.mode,
        },
        custom: !o.is_empty(),
        config: config,
    }
}

/// The place where a conversation's settings are kept.
pub fn scope(c: &Conversation) -> (r: ScopeKey)
    ensures
        r@ == scope_of(PLUGIN_ID@, c@),
{
    plugin_scope(PLUGIN_ID, c)
}

/// What is done with a conversation's settings.
#[derive(Clone, Copy, Debug, PartialEq, Eq, Structural)]
pub enum OverridesAction {
    Keep,
    Delete,
    Put(SessionOverrides),
}

/// How a conversation's settings are kept: not at all where nothing is set.
pub fn save_overrides(o: SessionOverrides) -> (r: OverridesAction)
    ensures
        r == (if o.sets_nothing() {
            OverridesAction::Delete
        } else {
            OverridesAction::Put(o)
        }),
{
    if o.is_empty() {
        OverridesAction::Delete
    } else {
        OverridesAction::Put(o)
    }
}

// ---------------------------------------------------------------------------
// Commands

/// A switch in words.
pub open spec fn on_off(b: bool) -> Seq<char> {
    if b {
        "开启"@
    } else {
        "关闭"@
    }
}

/// The settings of a conversation, in words.
pub open spec fn status_words(scope_key: Seq<char>, s: EffectiveSettings) -> Seq<char> {
    "回复处理状态\n会话："@ + scope_key + "\n状态："@ + on_off(s.enabled) + "\n阈值："@ + decimal(
        s.threshold as nat,
    ) + " 字\n模式："@ + s.mode.called() + "\n去尾句号："@ + on_off(s.config.strip_period)
        + "\n来源："@ + (if s.custom {
        "当前会话自定义"@
    } else {
        "默认配置"@
    })
}

/// The settings of a conversation, in words.
pub fn format_status(scope_key: &str, s: &EffectiveSettings) -> (r: String)
    ensures
        r@ == status_words(scope_key@, *s),
{
    let mut out: String = "回复处理状态\n会话：".to_owned();
    out.append(scope_key);
    out.append("\n状态：");
    out.append(if s.enabled { "开启" } else { "关闭" });
    out.append("\n阈值：");
    let digits: String = decimal_text(s.threshold);
    out.append(&digits);
    out.append(" 字\n模式：");
    out.append(s.mode.label());
    out.append("\n去尾句号：");
    out.append(if s.config.strip_period { "开启" } else { "关闭" });
    out.append("\n来源：");
    out.append(if s.custom { "当前会话自定义" } else { "默认配置" });
    out
}

/// What a command comes to.
pub struct CommandOutcome {
    pub reply: String,
    pub action: OverridesAction,
}

/// What a [`CommandOutcome`] holds, as values.
#[verifier::ext_equal]
pub struct CommandOutcomeModel {
    pub reply: Seq<char>,
    pub action: OverridesAction,
}

impl View for CommandOutcome {
    type V = CommandOutcomeModel;

    open spec fn view(&self) -> CommandOutcomeModel {
        CommandOutcomeModel {
            reply: self.reply@,
            action: self.action,
        }
    }
}


/// A reply that changes nothing.
pub open spec fn only_reply(text: Seq<char>) -> CommandOutcomeModel {
    CommandOutcomeModel { reply: text, action: OverridesAction::Keep }
}

/// A reply to a change.
pub open spec fn changed_reply(text: Seq<char>, o: SessionOverrides) -> CommandOutcomeModel {
    CommandOutcomeModel {
        reply: text,
        action: if o.sets_nothing() {
            OverridesAction::Delete
        } else {
            OverridesAction::Put(o)
        },
    }
}

/// Whether a word switches on.
pub open spec fn says_on(w: Seq<char>) -> bool {
    w == "开"@ || w == "开启"@ || w == "启用"@ || w == "on"@ || w == "enable"@ || w == "enabled"@ || w
        == "true"@
}

/// Whether a word switches off.
pub open spec fn says_off(w: Seq<char>) -> bool {
    w == "关"@ || w == "关闭"@ || w == "禁用"@ || w == "off"@ || w == "disable"@ || w == "disabled"@
        || w == "false"@
}

/// What the command that sets the threshold comes to.
pub open spec fn threshold_outcome(value: Seq<char>, o: SessionOverrides) -> CommandOutcomeModel {
    let w = ascii_lowercase(trim(value));
    if says_on(w) {
        changed_reply(
            "当前会话的回复处理已开启。"@,
            SessionOverrides { enabled: Some(true), ..o },
        )
    } else if says_off(w) {
        changed_reply(
            "当前会话的回复处理已关闭。"@,
            SessionOverrides { enabled: Some(false), ..o },
        )
    } else {
        match u64_value(w) {
            Some(n) => if 1 <= n <= MAX_THRESHOLD {
                changed_reply(
                    "当前会话的回复处理阈值已设为 "@ + decimal(n as nat) + " 字，并已开启。"@,
                    SessionOverrides { enabled: Some(true), threshold: Some(n), ..o },
                )
            } else {
                only_reply("阈值必须是 1 到 100000 之间的整数。"@)
            },
            None => only_reply("阈值必须是 1 到 100000 之间的整数。"@),
        }
    }
}

/// What the command that sets the mode comes to.
pub open spec fn mode_outcome(value: Seq<char>, o: SessionOverrides) -> CommandOutcomeModel {
    match ReplyMode::named(value) {
        None => only_reply("模式只能是“转图片”或“合并转发”。"@),
        Some(m) => changed_reply(
            "当前会话的回复处理模式已设为"@ + m.called() + "，并已开启。"@,
            SessionOverrides { enabled: Some(true), mode: Some(m), ..o },
        ),
    }
}

/// What a command comes to.
pub open spec fn command_outcome(
    is_admin: bool,
    command: Seq<char>,
    config: ReplyProcessorConfig,
    o: SessionOverrides,
    scope_key: Seq<char>,
) -> CommandOutcomeModel {
    let parts = words(command);
    let nothing = SessionOverrides { enabled: None, threshold: None, mode: None };
    if !is_admin {
        only_reply("只有在 admin_users 中配置的 QQ 用户可以修改回复处理设置。"@)
    } else if parts.len() == 0 || parts[0] == "状态"@ || parts[0] == "status"@ {
        only_reply(status_words(scope_key, effective(config, o)))
    } else if parts[0] == "阈值"@ || parts[0] == "threshold"@ {
        if parts.len() != 2 {
            only_reply("用法：/回复处理 阈值 <1-100000|开|关>"@)
        } else {
            threshold_outcome(parts[1], o)
        }
    } else if parts[0] == "模式"@ || parts[0] == "mode"@ {
        if parts.len() != 2 {
            only_reply("用法：/回复处理 模式 <转图片|合并转发>"@)
        } else {
            mode_outcome(parts[1], o)
        }
    } else if parts[0] == "恢复默认"@ || parts[0] == "重置"@ || parts[0] == "reset"@ {
        if parts.len() != 1 {
            only_reply("用法：/回复处理 恢复默认"@)
        } else {
            CommandOutcomeModel {
                reply: "已恢复当前会话的默认回复处理设置。\n"@ + status_words(
                    scope_key,
                    effective(config, nothing),
                ),
                action: OverridesAction::Delete,
            }
        }
    } else {
        only_reply(
            "用法：/回复处理 状态｜阈值 <数值|开|关>｜模式 <转图片|合并转发>｜恢复默认"@,
        )
    }
}

fn reply_only(text: &str) -> (r: CommandOutcome)
    ensures
        r@ == only_reply(text@),
{
    CommandOutcome { reply: text.to_owned(), action: OverridesAction::Keep }
}

fn set_threshold(value: &str, o: SessionOverrides) -> (r: CommandOutcome)
    ensures
        r@ == threshold_outcome(value@, o),
{
    let t: String = trimmed(value);
    let w: String = to_ascii_lowercase(&t);
    let on: bool = same(&w, "开") || same(&w, "开启") || same(&w, "启用") || same(&w, "on") || same(
        &w,
        "enable",
    ) || same(&w, "enabled") || same(&w, "true");
    if on {
        return CommandOutcome {
            reply: "当前会话的回复处理已开启。".to_owned(),
            action: save_overrides(SessionOverrides { enabled: Some(true), ..o }),
        };
    }
    let off: bool = same(&w, "关") || same(&w, "关闭") || same(&w, "禁用") || same(&w, "off")
        || same(&w, "disable") || same(&w, "disabled") || same(&w, "false");
    if off {
        return CommandOutcome {
            reply: "当前会话的回复处理已关闭。".to_owned(),
            action: save_overrides(SessionOverrides { enabled: Some(false), ..o }),
        };
    }
    match parse_u64(&w) {
        Some(n) => {
            if 1 <= n && n <= MAX_THRESHOLD {
                let mut reply: String = "当前会话的回复处理阈值已设为 ".to_owned();
                let digits: String = decimal_text(n);
                reply.append(&digits);
                reply.append(" 字，并已开启。");
                return CommandOutcome {
                    reply: reply,
                    action: save_overrides(
                        SessionOverrides { enabled: Some(true), threshold: Some(n), ..o },
                    ),
                };
            }
            reply_only("阈值必须是 1 到 100000 之间的整数。")
        }
        None => reply_only("阈值必须是 1 到 100000 之间的整数。"),
    }
}

/// What a command comes to: its reply, and what is done with the conversation's
/// settings. Only an administrator may give one.
pub fn handle_admin_command(
    is_admin: bool,
    command: &str,
    config: ReplyProcessorConfig,
    o: SessionOverrides,
    scope_key: &str,
) -> (r: CommandOutcome)
    ensures
        r@ == command_outcome(is_admin, command@, config, o, scope_key@),
{
    if !is_admin {
        return reply_only("只有在 admin_users 中配置的 QQ 用户可以修改回复处理设置。");
    }
    let parts: Vec<String> = text_words(command);
    let ghost ws = texts(parts@);
    proof {
        if parts.len() > 0 {
            assert(ws[0] == parts@[0]@);
        }
        if parts.len() > 1 {
            assert(ws[1] == parts@[1]@);
        }
    }
    if parts.len() == 0 || same(&parts[0], "状态") || same(&parts[0], "status") {
        let status: String = format_status(scope_key, &effective_settings(config, o));
        return reply_only(&status);
    }
    if same(&parts[0], "阈值") || same(&parts[0], "threshold") {
        if parts.len() != 2 {
            return reply_only("用法：/回复处理 阈值 <1-100000|开|关>");
        }
        return set_threshold(&parts[1], o);
    }
    if same(&parts[0], "模式") || same(&parts[0], "mode") {
        if parts.len() != 2 {
            return reply_only("用法：/回复处理 模式 <转图片|合并转发>");
        }
        return match ReplyMode::parse(&parts[1]) {
            None => reply_only("模式只能是“转图片”或“合并转发”。"),
            Some(m) => {
                let mut reply: String = "当前会话的回复处理模式已设为".to_owned();
                reply.append(m.label());
                reply.append("，并已开启。");
                CommandOutcome {
                    reply: reply,
                    action: save_overrides(
                        SessionOverrides { enabled: Some(true), mode: Some(m), ..o },
                    ),
                }
            }
        };
    }
    if same(&parts[0], "恢复默认") || same(&parts[0], "重置") || same(&parts[0], "reset") {
        if parts.len() != 1 {
            return reply_only("用法：/回复处理 恢复默认");
        }
        let mut reply: String = "已恢复当前会话的默认回复处理设置。\n".to_owned();
        let nothing: SessionOverrides = SessionOverrides {
            enabled: None,
            threshold: None,
            mode: None,
        };
        let status: String = format_status(scope_key, &effective_settings(config, nothing));
        reply.append(&status);
        return CommandOutcome { reply: reply, action: OverridesAction::Delete };
    }
    reply_only("用法：/回复处理 状态｜阈值 <数值|开|关>｜模式 <转图片|合并转发>｜恢复默认")
}

/// Only an administrator changes the settings of a conversation.
pub proof fn law_only_administrators_change_settings(
    command: Seq<char>,
    config: ReplyProcessorConfig,
    o: SessionOverrides,
    scope_key: Seq<char>,
)
    ensures
        command_outcome(false, command, config, o, scope_key).action == OverridesAction::Keep,
{
}

// ---------------------------------------------------------------------------
// Sending

/// What is done with a message before its text is looked at.
#[derive(Clone, Copy, Debug, PartialEq, Eq, Structural)]
pub enum SendStart {
    /// It is sent as it is.
    Unchanged,
    /// Its text is looked at, after its last period was taken off where `strip` is
    /// set.
    LookAt { strip: bool },
}

/// What is done with a message before its text is looked at: nothing where the
/// plugin is off, nor where images would lose its file.
pub fn before_send(s: &EffectiveSettings, contains_file: bool) -> (r: SendStart)
    ensures
        r == (if !s.enabled || (s.mode == ReplyMode::Image && contains_file) {
            SendStart::Unchanged
        } else {
            SendStart::LookAt { strip: s.config.strip_period }
        }),
{
    if !s.enabled {
        return SendStart::Unchanged;
    }
    if s.mode == ReplyMode::Image && contains_file {
        return SendStart::Unchanged;
    }
    SendStart::LookAt { strip: s.config.strip_period }
}

/// How a message is sent.
#[derive(Clone, Copy, Debug, PartialEq, Eq, Structural)]
pub enum SendShape {
    Unchanged,
    Image,
    Forward,
}

/// How a message is sent: as it is where it is not longer than the threshold, or
/// is a forwarded message already; as an image, unless a tool sends it and tools
/// are left alone; or forwarded, unless it mentions members by choice.
pub open spec fn send_shape(
    s: EffectiveSettings,
    mentions_by_choice: bool,
    is_forward: bool,
    chars: nat,
    from_tool: bool,
) -> SendShape {
    if s.mode == ReplyMode::Forward && mentions_by_choice {
        SendShape::Unchanged
    } else if is_forward || chars <= s.threshold {
        SendShape::Unchanged
    } else {
        match s.mode {
            ReplyMode::Image => if !from_tool || s.config.send_tool_intercept {
                SendShape::Image
            } else {
                SendShape::Unchanged
            },
            ReplyMode::Forward => SendShape::Forward,
        }
    }
}

/// How a message is sent.
pub fn choose_shape(
    s: &EffectiveSettings,
    mentions_by_choice: bool,
    is_forward: bool,
    chars: u64,
    from_tool: bool,
) -> (r: SendShape)
    ensures
        r == send_shape(*s, mentions_by_choice, is_forward, chars as nat, from_tool),
{
    if s.mode == ReplyMode::Forward && mentions_by_choice {
        return SendShape::Unchanged;
    }
    if is_forward {
        return SendShape::Unchanged;
    }
    if chars <= s.threshold {
        return SendShape::Unchanged;
    }
    match s.mode {
        ReplyMode::Image => if !from_tool || s.config.send_tool_intercept {
            SendShape::Image
        } else {
            SendShape::Unchanged
        },
        ReplyMode::Forward => SendShape::Forward,
    }
}

/// An answer is only sent in another shape where it is longer than the threshold.
pub proof fn law_short_answers_are_unchanged(
    s: EffectiveSettings,
    mentions_by_choice: bool,
    is_forward: bool,
    chars: nat,
    from_tool: bool,
)
    requires
        chars <= s.threshold,
    ensures
        send_shape(s, mentions_by_choice, is_forward, chars, from_tool) == SendShape::Unchanged,
{
}

/// Whether a forwarded message is followed by a mention of the sender: in a group,
/// where that is switched on and the message points at no other.
pub fn follows_up(s: &EffectiveSettings, has_target: bool, kind: ConversationKind) -> (r: bool)
    ensures
        r == (!has_target && s.config.followup_mention && kind == ConversationKind::Group),
{
    !has_target && s.config.followup_mention && kind == ConversationKind::Group
}

/// What an image of an answer is called.
pub fn image_alt(index: u64, count: u64) -> (r: String)
    requires
        index < u64::MAX,
    ensures
        r@ == "长回复图片 "@ + decimal((index + 1) as nat) + "/"@ + decimal(count as nat),
{
    let mut out: String = "长回复图片 ".to_owned();
    let a: String = decimal_text(index + 1);
    out.append(&a);
    out.append("/");
    let b: String = decimal_text(count);
    out.append(&b);
    out
}

// ---------------------------------------------------------------------------
// Notices

/// That an answer was sent as images.
pub struct ImageNotice {
    pub timestamp: u64,
    pub char_count: u64,
    pub image_count: u64,
    pub message_ids: Vec<String>,
}

/// What a [`ImageNotice`] holds, as values.
#[verifier::ext_equal]
pub struct ImageNoticeModel {
    pub timestamp: u64,
    pub char_count: u64,
    pub image_count: u64,
    pub message_ids: Seq<Seq<char>>,
}

impl View for ImageNotice {
    type V = ImageNoticeModel;

    open spec fn view(&self) -> ImageNoticeModel {
        ImageNoticeModel {
            timestamp: self.timestamp,
            char_count: self.char_count,
            image_count: self.image_count,
            message_ids: texts(self.message_ids@),
        }
    }
}

impl ImageNotice {
    /// A value that holds the same.
    pub fn copy(&self) -> (r: ImageNotice)
        ensures
            r@ == self@,
    {
        ImageNotice {
            timestamp: self.timestamp,
            char_count: self.char_count,
            image_count: self.image_count,
            message_ids: copy_texts(&self.message_ids),
        }
    }

    /// A list that holds the same values.
    pub fn copy_all(v: &Vec<ImageNotice>) -> (r: Vec<ImageNotice>)
        ensures
            views(r@) == views(v@),
            r.len() == v.len(),
    {
        let mut out: Vec<ImageNotice> = Vec::new();
        let mut i: usize = 0;
        while i < v.len()
            invariant
                i <= v.len(),
                out.len() == i,
                forall|j: int| 0 <= j < i ==> (#[trigger] out@[j])@ == v@[j]@,
            decreases v.len() - i,
        {
            out.push(v[i].copy());
            i += 1;
        }
        assert(views(out@) =~= views(v@));
        out
    }
}


/// What is noted of an answer that was sent as images: at least one image.
pub fn after_send(timestamp: u64, char_count: Option<u64>, image_count: Option<u64>, message_ids: &Vec<String>) -> (r:
    ImageNotice)
    ensures
        r@ == (ImageNoticeModel {
            timestamp: timestamp,
            char_count: match char_count {
                Some(n) => n,
                None => 0,
            },
            image_count: match image_count {
                Some(n) => if n < 1 {
                    1
                } else {
                    n
                },
                None => 1,
            },
            message_ids: texts(message_ids@),
        }),
{
    let images: u64 = match image_count {
        Some(n) => if n < 1 {
            1
        } else {
            n
        },
        None => 1,
    };
    ImageNotice {
        timestamp: timestamp,
        char_count: match char_count {
            Some(n) => n,
            None => 0,
        },
        image_count: images,
        message_ids: copy_texts(message_ids),
    }
}

/// The line of a notice.
pub open spec fn notice_line(index: nat, n: ImageNoticeModel) -> Seq<char> {
    decimal(index + 1) + ". One long reply of yours (~"@ + decimal(n.char_count as nat)
        + " chars) was auto-rendered and sent as "@ + decimal(n.image_count as nat) + " image(s)."@
}

/// The lines of notices.
pub open spec fn notice_lines(list: Seq<ImageNoticeModel>) -> Seq<Seq<char>> {
    Seq::new(list.len(), |i: int| notice_line(i as nat, list[i]))
}

/// What the model is told of answers that were sent as images.
pub open spec fn notice_text(list: Seq<ImageNoticeModel>) -> Seq<char> {
    join(
        seq![
            "[SystemInfo:LongReplyImageConversion]"@,
            "Delivery-layer record of your recent replies, not user speech:"@,
        ] + notice_lines(list) + seq![
            "The user saw images. Refer to it later as content in those images; the assistant text in history is the text inside them."@,
        ],
        "\n"@,
    )
}

/// What the model is told of answers that were sent as images.
pub fn context_notice(notices: &Vec<ImageNotice>) -> (r: String)
    ensures
        r@ == notice_text(views(notices@)),
{
    let ghost all = views(notices@);
    let mut lines: Vec<String> = Vec::new();
    lines.push("[SystemInfo:LongReplyImageConversion]".to_owned());
    lines.push("Delivery-layer record of your recent replies, not user speech:".to_owned());
    let ghost head = seq![
        "[SystemInfo:LongReplyImageConversion]"@,
        "Delivery-layer record of your recent replies, not user speech:"@,
    ];
    assert(texts(lines@) =~= head);
    let mut i: usize = 0;
    assert(texts(lines@) =~= head + notice_lines(all).take(0));
    while i < notices.len()
        invariant
            i <= notices.len(),
            all == views(notices@),
            texts(lines@) == head + notice_lines(all).take(i as int),
        decreases notices.len() - i,
    {
        assert(all[i as int] == notices@[i as int]@);
        let index: String = decimal_text(i as u64 + 1);
        let chars: String = decimal_text(notices[i].char_count);
        let images: String = decimal_text(notices[i].image_count);
        let mut line: String = index;
        line.append(". One long reply of yours (~");
        line.append(&chars);
        line.append(" chars) was auto-rendered and sent as ");
        line.append(&images);
        line.append(" image(s).");
        let ghost before = texts(lines@);
        lines.push(line);
        assert(texts(lines@) =~= before.push(line@));
        assert(notice_lines(all)[i as int] == line@);
        assert(texts(lines@) =~= head + notice_lines(all).take(i + 1));
        i += 1;
    }
    assert(notice_lines(all).take(notices.len() as int) =~= notice_lines(all));
    let ghost before = texts(lines@);
    lines.push(
        "The user saw images. Refer to it later as content in those images; the assistant text in history is the text inside them.".to_owned(),
    );
    assert(texts(lines@) =~= before + seq![
        "The user saw images. Refer to it later as content in those images; the assistant text in history is the text inside them."@,
    ]);
    joined(&lines, "\n")
}

/// Whether the model is told of answers that were sent as images.
pub fn before_turn(s: &EffectiveSettings, notices: usize) -> (r: bool)
    ensures
        r == (s.enabled && s.config.context_notice && notices > 0),
{
    s.enabled && s.config.context_notice && notices > 0
}

/// An answer that is sent as images.
pub struct ImageSend {
    /// What the images are called.
    pub alts: Vec<String>,
    pub char_count: u64,
    pub image_count: usize,
    /// Whether the answer that would follow is not sent any more.
    pub suppress_final_reply: bool,
}

/// What a [`ImageSend`] holds, as values.
#[verifier::ext_equal]
pub struct ImageSendModel {
    pub alts: Seq<Seq<char>>,
    pub char_count: u64,
    pub image_count: usize,
    pub suppress_final_reply: bool,
}

impl View for ImageSend {
    type V = ImageSendModel;

    open spec fn view(&self) -> ImageSendModel {
        ImageSendModel {
            alts: texts(self.alts@),
            char_count: self.char_count,
            image_count: self.image_count,
            suppress_final_reply: self.suppress_final_reply,
        }
    }
}


/// What each image of an answer is called.
pub open spec fn image_alts(count: nat) -> Seq<Seq<char>> {
    Seq::new(
        count,
        |i: int| "长回复图片 "@ + decimal((i + 1) as nat) + "/"@ + decimal(count),
    )
}

/// An answer that is sent as images; nothing where none was drawn, and the answer goes
/// out as it is.
pub fn prepare_image_send(s: &EffectiveSettings, images: usize, chars: u64) -> (r: Option<ImageSend>)
    ensures
        opt_view(r) == (if images == 0 {
            None
        } else {
            Some(
                ImageSendModel {
                    alts: image_alts(images as nat),
                    char_count: chars,
                    image_count: images,
                    suppress_final_reply: s.config.send_tool_intercept,
                },
            )
        }),
{
    if images == 0 {
        return None;
    }
    let mut alts: Vec<String> = Vec::new();
    let ghost goal = image_alts(images as nat);
    let mut i: usize = 0;
    while i < images
        invariant
            i <= images,
            goal == image_alts(images as nat),
            texts(alts@) =~= goal.take(i as int),
        decreases images - i,
    {
        let alt: String = image_alt(i as u64, images as u64);
        let ghost before = texts(alts@);
        alts.push(alt);
        assert(texts(alts@) =~= before.push(alt@));
        assert(goal[i as int] == alt@);
        i += 1;
    }
    assert(goal.take(images as int) =~= goal);
    Some(
        ImageSend {
            alts: alts,
            char_count: chars,
            image_count: images,
            suppress_final_reply: s.config.send_tool_intercept,
        },
    )
}

/// An answer that is sent as a forwarded message.
pub struct ForwardSend {
    /// In whose name.
    pub user_id: String,
    pub display_name: String,
    /// Who is mentioned in a message of its own afterwards.
    pub followup_mention: Option<String>,
}

/// What a [`ForwardSend`] holds, as values.
#[verifier::ext_equal]
pub struct ForwardSendModel {
    pub user_id: Seq<char>,
    pub display_name: Seq<char>,
    pub followup_mention: Option<Seq<char>>,
}

impl View for ForwardSend {
    type V = ForwardSendModel;

    open spec fn view(&self) -> ForwardSendModel {
        ForwardSendModel {
            user_id: self.user_id@,
            display_name: self.display_name@,
            followup_mention: opt_text(self.followup_mention),
        }
    }
}


/// An answer that is sent as a forwarded message in the assistant's name; nothing
/// where it is no list of segments or holds a file, and the answer goes out as it is.
pub fn prepare_forward_send(
    s: &EffectiveSettings,
    is_segments: bool,
    contains_file: bool,
    has_target: bool,
    kind: ConversationKind,
    account_id: &str,
    bot_name: Option<String>,
    sender_id: &str,
) -> (r: Option<ForwardSend>)
    ensures
        opt_view(r) == (if !is_segments || contains_file {
            None
        } else {
            Some(
                ForwardSendModel {
                    user_id: account_id@,
                    display_name: match bot_name {
                        Some(n) => n@,
                        None => "顾清影"@,
                    },
                    followup_mention: if !has_target && s.config.followup_mention && kind
                        == ConversationKind::Group {
                        Some(sender_id@)
                    } else {
                        None
                    },
                },
            )
        }),
{
    if !is_segments || contains_file {
        return None;
    }
    let name: String = match bot_name {
        Some(n) => n,
        None => "顾清影".to_owned(),
    };
    let mention: Option<String> = if follows_up(s, has_target, kind) {
        Some(sender_id.to_owned())
    } else {
        None
    };
    Some(
        ForwardSend {
            user_id: account_id.to_owned(),
            display_name: name,
            followup_mention: mention,
        },
    )
}

// ---------------------------------------------------------------------------
// What a command does, and how an answer is sent

proof fn lemma_command_words(verb: Seq<char>, value: Seq<char>)
    requires
        verb.len() > 0,
        value.len() > 0,
        forall|i: int| 0 <= i < verb.len() ==> !is_white(#[trigger] verb[i]),
        forall|i: int| 0 <= i < value.len() ==> !is_white(#[trigger] value[i]),
    ensures
        words(verb + seq![' '] + value) == seq![verb, value],
        trim(value) == value,
{
    law_plain_white_space(' ');
    law_white_space_parts_words(verb, ' ', value);
    law_one_word(verb);
    law_one_word(value);
    assert(seq![verb] + seq![value] =~= seq![verb, value]);
    law_trimmed_stays(value);
}

proof fn lemma_plain_words()
    ensures
        "threshold"@.len() == 9 && forall|i: int| 0 <= i < 9 ==> !is_white(#[trigger] "threshold"@[i]),
        "mode"@.len() == 4 && forall|i: int| 0 <= i < 4 ==> !is_white(#[trigger] "mode"@[i]),
        "reset"@.len() == 5 && forall|i: int| 0 <= i < 5 ==> !is_white(#[trigger] "reset"@[i]),
        "on"@.len() == 2 && forall|i: int| 0 <= i < 2 ==> !is_white(#[trigger] "on"@[i]),
        "off"@.len() == 3 && forall|i: int| 0 <= i < 3 ==> !is_white(#[trigger] "off"@[i]),
        "image"@.len() == 5 && forall|i: int| 0 <= i < 5 ==> !is_white(#[trigger] "image"@[i]),
        "forward"@.len() == 7 && forall|i: int| 0 <= i < 7 ==> !is_white(#[trigger] "forward"@[i]),
        "threshold"@[0] == 't' && "mode"@[0] == 'm' && "reset"@[0] == 'r',
{
    reveal_strlit("threshold");
    reveal_strlit("mode");
    reveal_strlit("reset");
    reveal_strlit("on");
    reveal_strlit("off");
    reveal_strlit("image");
    reveal_strlit("forward");
    assert forall|c: char| 'a' <= c <= 'z' implies !#[trigger] is_white(c) by {
        law_plain_white_space(c);
    }
    assert("threshold"@ =~= seq!['t', 'h', 'r', 'e', 's', 'h', 'o', 'l', 'd']);
    assert("mode"@ =~= seq!['m', 'o', 'd', 'e']);
    assert("reset"@ =~= seq!['r', 'e', 's', 'e', 't']);
    assert("on"@ =~= seq!['o', 'n']);
    assert("off"@ =~= seq!['o', 'f', 'f']);
    assert("image"@ =~= seq!['i', 'm', 'a', 'g', 'e']);
    assert("forward"@ =~= seq!['f', 'o', 'r', 'w', 'a', 'r', 'd']);
}

proof fn lemma_verbs_differ()
    ensures
        "threshold"@ != "状态"@ && "threshold"@ != "status"@,
        "mode"@ != "状态"@ && "mode"@ != "status"@ && "mode"@ != "阈值"@ && "mode"@ != "threshold"@,
        "reset"@ != "状态"@ && "reset"@ != "status"@ && "reset"@ != "阈值"@ && "reset"@ != "threshold"@,
        "reset"@ != "模式"@ && "reset"@ != "mode"@,
{
    lemma_plain_words();
    reveal_strlit("状态");
    reveal_strlit("status");
    reveal_strlit("阈值");
    reveal_strlit("模式");
    assert("状态"@[0] == '状' && "status"@[0] == 's' && "阈值"@[0] == '阈' && "模式"@[0] == '模');
}

proof fn lemma_digits_as_word(n: nat)
    ensures
        decimal(n).len() > 0,
        forall|i: int| 0 <= i < decimal(n).len() ==> !is_white(#[trigger] decimal(n)[i]),
        ascii_lowercase(decimal(n)) == decimal(n),
        n <= u64::MAX ==> u64_value(decimal(n)) == Some(n as u64),
        !says_on(decimal(n)) && !says_off(decimal(n)),
{
    law_decimal_reads_back(n);
    law_numbers_read_back(n as int);
    let d = decimal(n);
    assert forall|i: int| 0 <= i < d.len() implies !is_white(#[trigger] d[i]) by {
        law_plain_white_space(d[i]);
    }
    assert(ascii_lowercase(d) =~= d);
    reveal_strlit("开");
    reveal_strlit("开启");
    reveal_strlit("启用");
    reveal_strlit("on");
    reveal_strlit("enable");
    reveal_strlit("enabled");
    reveal_strlit("true");
    reveal_strlit("关");
    reveal_strlit("关闭");
    reveal_strlit("禁用");
    reveal_strlit("off");
    reveal_strlit("disable");
    reveal_strlit("disabled");
    reveal_strlit("false");
    assert(is_digit(d[0]));
    assert("开"@[0] == '开' && "开启"@[0] == '开' && "启用"@[0] == '启' && "on"@[0] == 'o');
    assert("enable"@[0] == 'e' && "enabled"@[0] == 'e' && "true"@[0] == 't' && "关"@[0] == '关');
    assert("关闭"@[0] == '关' && "禁用"@[0] == '禁' && "off"@[0] == 'o' && "disable"@[0] == 'd');
    assert("disabled"@[0] == 'd' && "false"@[0] == 'f');
}

/// A command sets what it names to what it says and leaves the other settings as they are.
pub proof fn law_a_command_sets_what_it_says(
    n: u64,
    config: ReplyProcessorConfig,
    o: SessionOverrides,
    scope_key: Seq<char>,
)
    ensures
        1 <= n <= 100000 ==> command_outcome(
            true,
            "threshold"@ + seq![' '] + decimal(n as nat),
            config,
            o,
            scope_key,
        ).action == OverridesAction::Put(
            (SessionOverrides { enabled: Some(true), threshold: Some(n), mode: o.mode }),
        ),
        n == 0 || n > 100000 ==> command_outcome(
            true,
            "threshold"@ + seq![' '] + decimal(n as nat),
            config,
            o,
            scope_key,
        ).action == OverridesAction::Keep,
        command_outcome(true, "threshold"@ + seq![' '] + "on"@, config, o, scope_key).action
            == OverridesAction::Put(
            (SessionOverrides { enabled: Some(true), threshold: o.threshold, mode: o.mode }),
        ),
        command_outcome(true, "threshold"@ + seq![' '] + "off"@, config, o, scope_key).action
            == OverridesAction::Put(
            (SessionOverrides { enabled: Some(false), threshold: o.threshold, mode: o.mode }),
        ),
{
    lemma_plain_words();
    lemma_verbs_differ();
    lemma_digits_as_word(n as nat);
    lemma_command_words("threshold"@, decimal(n as nat));
    lemma_command_words("threshold"@, "on"@);
    lemma_command_words("threshold"@, "off"@);
    reveal_strlit("on");
    reveal_strlit("off");
    assert(ascii_lowercase("on"@) =~= "on"@);
    assert(ascii_lowercase("off"@) =~= "off"@);
    reveal_strlit("开");
    reveal_strlit("开启");
    reveal_strlit("启用");
    reveal_strlit("enable");
    reveal_strlit("enabled");
    reveal_strlit("true");
    assert("off"@[0] == 'o' && "off"@[1] == 'f' && "on"@[1] == 'n');
    assert("开"@[0] == '开' && "开启"@[0] == '开' && "启用"@[0] == '启');
    assert("enable"@[0] == 'e' && "enabled"@[0] == 'e' && "true"@[0] == 't');
}

/// A command names how long answers are sent, or has everything go back to the default.
pub proof fn law_a_command_chooses_the_mode(
    config: ReplyProcessorConfig,
    o: SessionOverrides,
    scope_key: Seq<char>,
)
    ensures
        command_outcome(true, "mode"@ + seq![' '] + "image"@, config, o, scope_key).action
            == OverridesAction::Put(
            (SessionOverrides {
                enabled: Some(true),
                threshold: o.threshold,
                mode: Some(ReplyMode::Image),
            }),
        ),
        command_outcome(true, "mode"@ + seq![' '] + "forward"@, config, o, scope_key).action
            == OverridesAction::Put(
            (SessionOverrides {
                enabled: Some(true),
                threshold: o.threshold,
                mode: Some(ReplyMode::Forward),
            }),
        ),
        command_outcome(true, "reset"@, config, o, scope_key).action == OverridesAction::Delete,
        command_outcome(true, seq![], config, o, scope_key).action == OverridesAction::Keep,
        command_outcome(true, seq![], config, o, scope_key).reply == status_words(
            scope_key,
            effective(config, o),
        ),
{
    lemma_plain_words();
    lemma_verbs_differ();
    lemma_command_words("mode"@, "image"@);
    lemma_command_words("mode"@, "forward"@);
    law_one_word("reset"@);
    reveal_strlit("image");
    reveal_strlit("forward");
    assert(ascii_lowercase("image"@) =~= "image"@);
    assert(ascii_lowercase("forward"@) =~= "forward"@);
    reveal_strlit("转图片");
    reveal_strlit("图片");
    assert("转图片"@[0] == '转' && "图片"@[0] == '图' && "forward"@[0] == 'f' && "image"@[0] == 'i');
    assert(words(Seq::<char>::empty()) =~= seq![]);
}

/// What a conversation sets for itself goes before what holds everywhere.
pub proof fn law_a_conversation_sets_its_own(config: ReplyProcessorConfig, o: SessionOverrides)
    ensures
        ({
            let s = effective(config, o);
            &&& o.enabled is Some ==> s.enabled == o.enabled->0
            &&& o.enabled is None ==> s.enabled == config.default_enabled
            &&& o.threshold is Some ==> s.threshold == o.threshold->0
            &&& o.threshold is None ==> s.threshold == config.threshold
            &&& o.mode is Some ==> s.mode == o.mode->0
            &&& o.mode is None ==> s.mode == config.mode
            &&& s.config == config
            &&& s.custom <==> o.enabled is Some || o.threshold is Some || o.mode is Some
        }),
{
}

/// An answer that is too long is sent in the way that is set, and in no other.
pub proof fn law_long_answers_are_sent_as_set(
    s: EffectiveSettings,
    mentions: bool,
    is_forward: bool,
    chars: nat,
    from_tool: bool,
)
    ensures
        ({
            let r = send_shape(s, mentions, is_forward, chars, from_tool);
            &&& r == SendShape::Image <==> s.mode == ReplyMode::Image && !is_forward && chars
                > s.threshold && (!from_tool || s.config.send_tool_intercept)
            &&& r == SendShape::Forward <==> s.mode == ReplyMode::Forward && !is_forward && !mentions
                && chars > s.threshold
        }),
{
}

/// The state of a conversation is told as it is.
pub proof fn law_the_state_is_told(scope_key: Seq<char>, s: EffectiveSettings)
    ensures
        occurs(status_words(scope_key, s), scope_key),
        occurs(status_words(scope_key, s), decimal(s.threshold as nat)),
        s.mode == ReplyMode::Image ==> occurs(status_words(scope_key, s), "转图片"@),
        s.mode == ReplyMode::Forward ==> occurs(status_words(scope_key, s), "合并转发"@),
        on_off(true) == "开启"@,
        on_off(false) == "关闭"@,
        occurs(status_words(scope_key, s), "\n状态："@ + on_off(s.enabled)),
{
    let a = "回复处理状态\n会话："@ + scope_key;
    let b = "\n状态："@;
    let on = on_off(s.enabled);
    law_writing_on_loses_nothing("回复处理状态\n会话："@, scope_key);
    law_writing_on_loses_nothing(a, b);
    law_writing_on_loses_nothing(a + b, on);
    law_writing_on_loses_nothing(a, b + on);
    assert(a + (b + on) =~= a + b + on);
    let t0 = a + b + on;
    let c1 = "\n阈值："@;
    let n = decimal(s.threshold as nat);
    let c2 = " 字\n模式："@;
    let m = s.mode.called();
    let c3 = "\n去尾句号："@;
    let p = on_off(s.config.strip_period);
    let c4 = "\n来源："@;
    let w = if s.custom {
        "当前会话自定义"@
    } else {
        "默认配置"@
    };
    law_writing_on_loses_nothing(t0, c1);
    law_writing_on_loses_nothing(t0 + c1, n);
    law_writing_on_loses_nothing(t0 + c1 + n, c2);
    law_writing_on_loses_nothing(t0 + c1 + n + c2, m);
    law_writing_on_loses_nothing(t0 + c1 + n + c2 + m, c3);
    law_writing_on_loses_nothing(t0 + c1 + n + c2 + m + c3, p);
    law_writing_on_loses_nothing(t0 + c1 + n + c2 + m + c3 + p, c4);
    law_writing_on_loses_nothing(t0 + c1 + n + c2 + m + c3 + p + c4, w);
}

/// An answer is looked at only where that is switched on, notices are given only where there
/// are some, and what is set to nothing is not kept.
pub proof fn law_when_answers_are_looked_at(
    s: EffectiveSettings,
    file: bool,
    start: SendStart,
    target: bool,
    kind: ConversationKind,
    follows: bool,
    notices: usize,
    told: bool,
    o: SessionOverrides,
    saved: OverridesAction,
)
    requires
        call_ensures(before_send, (&s, file), start),
        call_ensures(follows_up, (&s, target, kind), follows),
        call_ensures(before_turn, (&s, notices), told),
        call_ensures(save_overrides, (o,), saved),
    ensures
        start == SendStart::Unchanged <==> !s.enabled || (file && s.mode == ReplyMode::Image),
        start is LookAt ==> start->strip == s.config.strip_period,
        follows <==> s.config.followup_mention && !target && kind == ConversationKind::Group,
        told <==> s.enabled && s.config.context_notice && notices > 0,
        saved == OverridesAction::Delete <==> o.enabled is None && o.threshold is None && o.mode
            is None,
        saved != OverridesAction::Delete ==> saved == OverridesAction::Put(o),
{
}

/// What is sent as pictures or as a forwarded message is told as it is: each picture by its
/// number, the message under the assistant's name.
pub proof fn law_how_answers_are_sent(
    s: EffectiveSettings,
    images: usize,
    chars: u64,
    sent: Option<ImageSend>,
    segments: bool,
    file: bool,
    target: bool,
    kind: ConversationKind,
    account: &str,
    name: Option<String>,
    sender: &str,
    forwarded: Option<ForwardSend>,
)
    requires
        call_ensures(prepare_image_send, (&s, images, chars), sent),
        call_ensures(
            prepare_forward_send,
            (&s, segments, file, target, kind, account, name, sender),
            forwarded,
        ),
    ensures
        sent is Some <==> images > 0,
        sent is Some ==> sent->0@.image_count == images && sent->0@.char_count == chars
            && sent->0@.alts.len() == images && sent->0@.suppress_final_reply
            == s.config.send_tool_intercept,
        sent is Some ==> forall|i: int|
            0 <= i < images ==> #[trigger] sent->0@.alts[i] == "长回复图片 "@ + decimal((i + 1) as nat)
                + "/"@ + decimal(images as nat),
        forwarded is Some <==> segments && !file,
        forwarded is Some ==> forwarded->0@.user_id == account@,
        forwarded is Some && name is Some ==> forwarded->0@.display_name == name->0@,
        forwarded is Some ==> (forwarded->0@.followup_mention is Some
            <==> s.config.followup_mention && !target && kind == ConversationKind::Group),
        forwarded is Some && forwarded->0@.followup_mention is Some
            ==> forwarded->0@.followup_mention->0 == sender@,
{
}

/// Every answer that was sent as pictures is recorded and told with its number, its length
/// and how many pictures it took.
pub proof fn law_pictures_are_recorded(
    timestamp: u64,
    chars: u64,
    images: u64,
    ids: Vec<String>,
    r: ImageNotice,
    index: nat,
)
    requires
        call_ensures(after_send, (timestamp, Some(chars), Some(images), &ids), r),
        images >= 1,
    ensures
        r@.timestamp == timestamp && r@.char_count == chars && r@.image_count == images,
        r@.message_ids == texts(ids@),
        has_prefix(notice_line(index, r@), decimal(index + 1)),
        occurs(notice_line(index, r@), decimal(chars as nat)),
        occurs(notice_line(index, r@), decimal(images as nat)),
{
    let t0 = decimal(index + 1);
    let a = ". One long reply of yours (~"@;
    let b = " chars) was auto-rendered and sent as "@;
    let c = " image(s)."@;
    law_writing_on_loses_nothing(t0, a);
    law_writing_on_loses_nothing(t0 + a, decimal(chars as nat));
    law_writing_on_loses_nothing(t0 + a + decimal(chars as nat), b);
    law_writing_on_loses_nothing(t0 + a + decimal(chars as nat) + b, decimal(images as nat));
    law_writing_on_loses_nothing(
        t0 + a + decimal(chars as nat) + b + decimal(images as nat),
        c,
    );
}

/// The notice of what was sent as pictures tells of each of them, in its order.
pub proof fn law_every_picture_is_told(list: Seq<ImageNoticeModel>, i: int)
    requires
        0 <= i < list.len(),
    ensures
        notice_lines(list).len() == list.len(),
        notice_lines(list)[i] == notice_line(i as nat, list[i]),
        occurs(notice_text(list), notice_line(i as nat, list[i])),
{
    let parts = seq![
        "[SystemInfo:LongReplyImageConversion]"@,
        "Delivery-layer record of your recent replies, not user speech:"@,
    ] + notice_lines(list) + seq![
        "The user saw images. Refer to it later as content in those images; the assistant text in history is the text inside them."@,
    ];
    assert(parts[i + 2] == notice_line(i as nat, list[i]));
    law_joined_parts_occur(parts, "\n"@, i + 2);
}

} // verus!
