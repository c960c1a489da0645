//! The log of how it was decided to answer or not.

use crate::real_context::locale::{empty_log_value, in_locale, or_if_blank, text_for, Locale};
use crate::real_context::pending::TriggerKind;
use crate::text::{
    first_chars, has_prefix, is_empty_text, join, joined, law_occurs_in_more,
    law_writing_on_loses_nothing, occurs, opt_text, opt_view, same, text_words, texts, trim, trimmed,
    words,
};
use vstd::prelude::*;
use vstd::string::*;

verus! {

/// How the log names what set an answer off, in one language.
pub struct TriggerWords {
    pub label: String,
    /// The heading of a decision to answer.
    pub answered: String,
    /// The heading of a decision not to.
    pub silent: String,
}

/// What a [`TriggerWords`] holds, as values.
#[verifier::ext_equal]
pub struct TriggerWordsModel {
    pub label: Seq<char>,
    pub answered: Seq<char>,
    pub silent: Seq<char>,
}

impl View for TriggerWords {
    type V = TriggerWordsModel;

    open spec fn view(&self) -> TriggerWordsModel {
        TriggerWordsModel {
            label: self.label@,
            answered: self.answered@,
            silent: self.silent@,
        }
    }
}


/// How the log names each thing that sets an answer off, in one language.
pub struct LogWords {
    pub direct: TriggerWords,
    pub probability: TriggerWords,
}

/// What a [`LogWords`] holds, as values.
#[verifier::ext_equal]
pub struct LogWordsModel {
    pub direct: TriggerWordsModel,
    pub probability: TriggerWordsModel,
}

impl View for LogWords {
    type V = LogWordsModel;

    open spec fn view(&self) -> LogWordsModel {
        LogWordsModel {
            direct: self.direct@,
            probability: self.probability@,
        }
    }
}


/// How the log names what set an answer off.
pub open spec fn words_for(words: LogWordsModel, trigger: TriggerKind) -> TriggerWordsModel {
    match trigger {
        TriggerKind::Direct => words.direct,
        TriggerKind::Probability => words.probability,
    }
}

/// The heading of a decision.
pub open spec fn title_for(words: LogWordsModel, trigger: TriggerKind, should_reply: bool) -> Seq<char> {
    if should_reply {
        words_for(words, trigger).answered
    } else {
        words_for(words, trigger).silent
    }
}

impl TriggerKind {
    /// How the log names what set an answer off.
    pub fn log_label<'a>(self, words: &'a LogWords) -> (r: &'a str)
        ensures
            r@ == words_for(words@, self).label,
    {
        match self {
            TriggerKind::Direct => words.direct.label.as_str(),
            TriggerKind::Probability => words.probability.label.as_str(),
        }
    }

    /// The heading of a decision.
    pub fn decision_log_title<'a>(self, words: &'a LogWords, should_reply: bool) -> (r: &'a str)
        ensures
            r@ == title_for(words@, self, should_reply),
    {
        let named: &TriggerWords = match self {
            TriggerKind::Direct => &words.direct,
            TriggerKind::Probability => &words.probability,
        };
        if should_reply {
            named.answered.as_str()
        } else {
            named.silent.as_str()
        }
    }
}

/// What holding back did to a decision, as numbers in text.
pub struct Restraint {
    pub penalty: String,
    pub threshold: String,
    pub heat: String,
}

/// What a [`Restraint`] holds, as values.
#[verifier::ext_equal]
pub struct RestraintModel {
    pub penalty: Seq<char>,
    pub threshold: Seq<char>,
    pub heat: Seq<char>,
}

impl View for Restraint {
    type V = RestraintModel;

    open spec fn view(&self) -> RestraintModel {
        RestraintModel {
            penalty: self.penalty@,
            threshold: self.threshold@,
            heat: self.heat@,
        }
    }
}


/// What the first look at a message for safety found.
pub struct Violation {
    pub category: String,
    /// With one decimal.
    pub severity: String,
}

/// What a [`Violation`] holds, as values.
#[verifier::ext_equal]
pub struct ViolationModel {
    pub category: Seq<char>,
    pub severity: Seq<char>,
}

impl View for Violation {
    type V = ViolationModel;

    open spec fn view(&self) -> ViolationModel {
        ViolationModel {
            category: self.category@,
            severity: self.severity@,
        }
    }
}


/// A decision to answer or not. Numbers are given as they are shown; an adjustment that comes to nothing is not there.
pub struct ActiveReplyDecisionLog {
    pub account_id: String,
    pub group_id: String,
    pub sender_name: String,
    pub sender_id: String,
    pub mentioned_bot: bool,
    pub message: String,
    pub trigger: TriggerKind,
    pub should_reply: bool,
    pub model_should_reply: Option<bool>,
    pub final_score: String,
    pub raw_score: String,
    pub threshold: String,
    pub model_adjustment: String,
    pub affection_level: String,
    pub affection_adjustment: String,
    pub emotion_adjustment: Option<String>,
    pub continuation_adjustment: Option<String>,
    pub system_adjustment: Option<String>,
    pub restraint: Option<Restraint>,
    pub short_message_adjustment: Option<String>,
    pub violation: Option<Violation>,
    pub reason: String,
    pub endpoint: Option<String>,
}

/// What a [`ActiveReplyDecisionLog`] holds, as values.
#[verifier::ext_equal]
pub struct ActiveReplyDecisionLogModel {
    pub account_id: Seq<char>,
    pub group_id: Seq<char>,
    pub sender_name: Seq<char>,
    pub sender_id: Seq<char>,
    pub mentioned_bot: bool,
    pub message: Seq<char>,
    pub trigger: TriggerKind,
    pub should_reply: bool,
    pub model_should_reply: Option<bool>,
    pub final_score: Seq<char>,
    pub raw_score: Seq<char>,
    pub threshold: Seq<char>,
    pub model_adjustment: Seq<char>,
    pub affection_level: Seq<char>,
    pub affection_adjustment: Seq<char>,
    pub emotion_adjustment: Option<Seq<char>>,
    pub continuation_adjustment: Option<Seq<char>>,
    pub system_adjustment: Option<Seq<char>>,
    pub restraint: Option<RestraintModel>,
    pub short_message_adjustment: Option<Seq<char>>,
    pub violation: Option<ViolationModel>,
    pub reason: Seq<char>,
    pub endpoint: Option<Seq<char>>,
}

impl View for ActiveReplyDecisionLog {
    type V = ActiveReplyDecisionLogModel;

    open spec fn view(&self) -> ActiveReplyDecisionLogModel {
        ActiveReplyDecisionLogModel {
            account_id: self.account_id@,
            group_id: self.group_id@,
            sender_name: self.sender_name@,
            sender_id: self.sender_id@,
            mentioned_bot: self.mentioned_bot,
            message: self.message@,
            trigger: self.trigger,
            should_reply: self.should_reply,
            model_should_reply: self.model_should_reply,
            final_score: self.final_score@,
            raw_score: self.raw_score@,
            threshold: self.threshold@,
            model_adjustment: self.model_adjustment@,
            affection_level: self.affection_level@,
            affection_adjustment: self.affection_adjustment@,
            emotion_adjustment: opt_text(self.emotion_adjustment),
            continuation_adjustment: opt_text(self.continuation_adjustment),
            system_adjustment: opt_text(self.system_adjustment),
            restraint: opt_view(self.restraint),
            short_message_adjustment: opt_text(self.short_message_adjustment),
            violation: opt_view(self.violation),
            reason: self.reason@,
            endpoint: opt_text(self.endpoint),
        }
    }
}


/// A field of the log.
pub open spec fn log_field(locale: Locale, label: Seq<char>, value: Seq<char>) -> Seq<char> {
    match locale {
        Locale::Zh => label + "："@ + value,
        Locale::En => label + ": "@ + value,
    }
}

/// A field of the log.
pub fn format_decision_log_field(locale: Locale, label: &str, value: &str) -> (r: String)
    ensures
        r@ == log_field(locale, label@, value@),
{
    let mut out: String = label.to_owned();
    match locale {
        Locale::Zh => {
            out.append("：");
        }
        Locale::En => {
            out.append(": ");
        }
    }
    out.append(value);
    out
}

/// A message as the log shows it: on one line, at most three hundred characters.
pub open spec fn logged_message(message: Seq<char>, locale: Locale) -> Seq<char> {
    let compact = join(words(message), " "@);
    if compact.len() == 0 {
        in_locale(locale, "[non-text message]"@, "[非文本消息]"@)
    } else if compact.len() > 300 {
        compact.take(300) + "..."@
    } else {
        compact
    }
}

/// A message as the log shows it.
pub fn format_log_message(message: &str, locale: Locale) -> (r: String)
    ensures
        r@ == logged_message(message@, locale),
{
    let parts: Vec<String> = text_words(message);
    let compact: String = joined(&parts, " ");
    let n: usize = compact.as_str().unicode_len();
    if n == 0 {
        return text_for(locale, "[non-text message]", "[非文本消息]").to_owned();
    }
    if n > 300 {
        let mut cut: String = first_chars(&compact, 300);
        cut.append("...");
        return cut;
    }
    compact
}

/// The name of a relationship in the language.
pub open spec fn level_in(level: Seq<char>, locale: Locale) -> Seq<char> {
    if locale == Locale::Zh {
        level
    } else if level == "刻意疏远"@ {
        "estranged"@
    } else if level == "冷漠"@ {
        "cold"@
    } else if level == "中立"@ {
        "neutral"@
    } else if level == "认识"@ {
        "acquainted"@
    } else if level == "好友"@ {
        "friend"@
    } else if level == "信任"@ {
        "trusted"@
    } else if level == "亲近"@ {
        "close"@
    } else {
        level
    }
}

/// The name of a relationship in the language.
pub fn localized_affection_level<'a>(level: &'a str, locale: Locale) -> (r: &'a str)
    ensures
        r@ == level_in(level@, locale),
{
    if locale == Locale::Zh {
        level
    } else if same(level, "刻意疏远") {
        "estranged"
    } else if same(level, "冷漠") {
        "cold"
    } else if same(level, "中立") {
        "neutral"
    } else if same(level, "认识") {
        "acquainted"
    } else if same(level, "好友") {
        "friend"
    } else if same(level, "信任") {
        "trusted"
    } else if same(level, "亲近") {
        "close"
    } else {
        level
    }
}

/// What the model said about answering.
pub open spec fn model_words(answer: Option<bool>, locale: Locale) -> Seq<char> {
    match answer {
        Some(true) => in_locale(locale, "should reply"@, "应该回复"@),
        Some(false) => in_locale(locale, "should not reply"@, "不应该回复"@),
        None => in_locale(locale, "not returned by model"@, "模型未返回"@),
    }
}

/// The line that names the conversation.
pub open spec fn conversation_line(group_id: Seq<char>, account_id: Seq<char>, locale: Locale) -> Seq<
    char,
> {
    match locale {
        Locale::Zh => "会话：群聊 "@ + group_id + "（机器人 QQ "@ + account_id + "）"@,
        Locale::En => "Conversation: group "@ + group_id + " (bot QQ "@ + account_id + ")"@,
    }
}

/// The line that names the sender.
pub open spec fn sender_line(name: Seq<char>, id: Seq<char>, locale: Locale) -> Seq<char> {
    match locale {
        Locale::Zh => "发送者："@ + or_if_blank(name, "未知用户"@) + "（QQ "@ + id + "）"@,
        Locale::En => "Sender: "@ + or_if_blank(name, "unknown user"@) + " (QQ "@ + id + ")"@,
    }
}

/// The line that names the conversation.
pub fn format_conversation(group_id: &str, account_id: &str, locale: Locale) -> (r: String)
    ensures
        r@ == conversation_line(group_id@, account_id@, locale),
{
    let mut out: String = text_for(locale, "Conversation: group ", "会话：群聊 ").to_owned();
    out.append(group_id);
    out.append(text_for(locale, " (bot QQ ", "（机器人 QQ "));
    out.append(account_id);
    out.append(text_for(locale, ")", "）"));
    out
}

/// The line that names the sender.
pub fn format_sender(name: &str, id: &str, locale: Locale) -> (r: String)
    ensures
        r@ == sender_line(name@, id@, locale),
{
    let mut out: String = text_for(locale, "Sender: ", "发送者：").to_owned();
    out.append(empty_log_value(name, text_for(locale, "unknown user", "未知用户")));
    out.append(text_for(locale, " (QQ ", "（QQ "));
    out.append(id);
    out.append(text_for(locale, ")", "）"));
    out
}

/// The line of the scores.
pub open spec fn score_line(log: ActiveReplyDecisionLogModel, locale: Locale) -> Seq<char> {
    match locale {
        Locale::Zh => "分数："@ + log.final_score + "（原始 "@ + log.raw_score + "，阈值 "@
            + log.threshold + "）"@,
        Locale::En => "Score: "@ + log.final_score + " (raw "@ + log.raw_score + ", threshold "@
            + log.threshold + ")"@,
    }
}

/// The lines that are always there before the adjustments.
pub open spec fn first_lines(
    log: ActiveReplyDecisionLogModel,
    words: LogWordsModel,
    locale: Locale,
) -> Seq<Seq<char>> {
    seq![
        title_for(words, log.trigger, log.should_reply),
        conversation_line(log.group_id, log.account_id, locale),
        sender_line(log.sender_name, log.sender_id, locale),
        log_field(
            locale,
            in_locale(locale, "Mentioned bot"@, "@机器人"@),
            if log.mentioned_bot {
                in_locale(locale, "yes"@, "是"@)
            } else {
                in_locale(locale, "no"@, "否"@)
            },
        ),
        log_field(
            locale,
            in_locale(locale, "Message"@, "消息"@),
            logged_message(log.message, locale),
        ),
        log_field(
            locale,
            in_locale(locale, "Trigger"@, "触发"@),
            words_for(words, log.trigger).label,
        ),
        log_field(
            locale,
            in_locale(locale, "Model"@, "模型"@),
            match log.endpoint {
                Some(e) => e,
                None => "unknown"@,
            },
        ),
        log_field(
            locale,
            in_locale(locale, "Result"@, "结果"@),
            if log.should_reply {
                in_locale(locale, "reply"@, "回复"@)
            } else {
                in_locale(locale, "no reply"@, "不回复"@)
            },
        ),
        score_line(log, locale),
        log_field(
            locale,
            in_locale(locale, "Reply tendency adjustment"@, "回复倾向调整"@),
            model_words(log.model_should_reply, locale) + " "@ + log.model_adjustment,
        ),
        log_field(
            locale,
            in_locale(locale, "Affection adjustment"@, "好感度调整"@),
            level_in(or_if_blank(log.affection_level, "中立"@), locale) + " "@
                + log.affection_adjustment,
        ),
    ]
}

/// The line of an adjustment, where it is there.
pub open spec fn adjustment_line(
    locale: Locale,
    label: Seq<char>,
    value: Option<Seq<char>>,
) -> Seq<Seq<char>> {
    match value {
        Some(v) => seq![log_field(locale, label, v)],
        None => seq![],
    }
}

/// The line of holding back, where it did something.
pub open spec fn restraint_line(r: Option<RestraintModel>, locale: Locale) -> Seq<Seq<char>> {
    match r {
        Some(x) => seq![
            match locale {
                Locale::Zh => "冷静机制调整：扣分 "@ + x.penalty + "，阈值 "@ + x.threshold
                    + "（冷静度 "@ + x.heat + "）"@,
                Locale::En => "Restraint adjustment: penalty "@ + x.penalty + ", threshold "@
                    + x.threshold + " (heat "@ + x.heat + ")"@,
            },
        ],
        None => seq![],
    }
}

/// The line of a violation, where one was found.
pub open spec fn violation_line(v: Option<ViolationModel>, locale: Locale) -> Seq<Seq<char>> {
    match v {
        Some(x) => {
            let category = trim(x.category);
            let shown = if category.len() == 0 {
                seq![]
            } else {
                " "@ + category
            };
            seq![
                match locale {
                    Locale::Zh => "安全初判：命中"@ + shown + "（严重度 "@ + x.severity + "/10）"@,
                    Locale::En => "Moderation precheck: violation"@ + shown + " (severity "@
                        + x.severity + "/10)"@,
                },
            ]
        },
        None => seq![],
    }
}

/// All the lines of a decision.
pub open spec fn decision_lines(
    log: ActiveReplyDecisionLogModel,
    words: LogWordsModel,
    locale: Locale,
) -> Seq<Seq<char>> {
    first_lines(log, words, locale) + adjustment_line(
        locale,
        in_locale(locale, "Emotion threshold adjustment"@, "情绪阈值调整"@),
        log.emotion_adjustment,
    ) + adjustment_line(
        locale,
        in_locale(locale, "Continuation adjustment"@, "自然续聊调整"@),
        log.continuation_adjustment,
    ) + adjustment_line(
        locale,
        in_locale(locale, "Direct trigger adjustment"@, "直接触发调整"@),
        log.system_adjustment,
    ) + restraint_line(log.restraint, locale) + adjustment_line(
        locale,
        in_locale(locale, "Short-message threshold adjustment"@, "短句阈值调整"@),
        log.short_message_adjustment,
    ) + violation_line(log.violation, locale) + seq![
        log_field(
            locale,
            in_locale(locale, "Reason"@, "判断理由"@),
            or_if_blank(log.reason, in_locale(locale, "not provided by model"@, "模型未提供"@)),
        ),
    ]
}

fn push_line(lines: &mut Vec<String>, line: String)
    ensures
        texts(final(lines)@) == texts(old(lines)@).push(line@),
{
    lines.push(line);
    assert(texts(lines@) =~= texts(old(lines)@).push(line@));
}

fn push_adjustment(lines: &mut Vec<String>, locale: Locale, label: &str, value: &Option<String>)
    ensures
        texts(final(lines)@) == texts(old(lines)@) + adjustment_line(
            locale,
            label@,
            opt_text(*value),
        ),
{
    if let Some(v) = value {
        push_line(lines, format_decision_log_field(locale, label, v));
    }
    assert(texts(lines@) =~= texts(old(lines)@) + adjustment_line(
        locale,
        label@,
        opt_text(*value),
    ));
}

fn opening(log: &ActiveReplyDecisionLog, words: &LogWords, locale: Locale) -> (r: Vec<String>)
    ensures
        texts(r@) == first_lines(log@, words@, locale),
{
    let mut lines: Vec<String> = Vec::new();
    lines.push(log.trigger.decision_log_title(words, log.should_reply).to_owned());
    lines.push(format_conversation(&log.group_id, &log.account_id, locale));
    lines.push(format_sender(&log.sender_name, &log.sender_id, locale));
    let mentioned: &str = if log.mentioned_bot {
        text_for(locale, "yes", "是")
    } else {
        text_for(locale, "no", "否")
    };
    lines.push(
        format_decision_log_field(locale, text_for(locale, "Mentioned bot", "@机器人"), mentioned),
    );
    let message: String = format_log_message(&log.message, locale);
    lines.push(format_decision_log_field(locale, text_for(locale, "Message", "消息"), &message));
    let trigger: &str = log.trigger.log_label(words);
    lines.push(format_decision_log_field(locale, text_for(locale, "Trigger", "触发"), trigger));
    let endpoint: String = match &log.endpoint {
        Some(e) => e.clone(),
        None => "unknown".to_owned(),
    };
    lines.push(format_decision_log_field(locale, text_for(locale, "Model", "模型"), &endpoint));
    let result: &str = if log.should_reply {
        text_for(locale, "reply", "回复")
    } else {
        text_for(locale, "no reply", "不回复")
    };
    lines.push(format_decision_log_field(locale, text_for(locale, "Result", "结果"), result));
    let mut score: String = text_for(locale, "Score: ", "分数：").to_owned();
    score.append(&log.final_score);
    score.append(text_for(locale, " (raw ", "（原始 "));
    score.append(&log.raw_score);
    score.append(text_for(locale, ", threshold ", "，阈值 "));
    score.append(&log.threshold);
    score.append(text_for(locale, ")", "）"));
    lines.push(score);
    let mut model: String = match log.model_should_reply {
        Some(true) => text_for(locale, "should reply", "应该回复").to_owned(),
        Some(false) => text_for(locale, "should not reply", "不应该回复").to_owned(),
        None => text_for(locale, "not returned by model", "模型未返回").to_owned(),
    };
    model.append(" ");
    model.append(&log.model_adjustment);
    lines.push(
        format_decision_log_field(
            locale,
            text_for(locale, "Reply tendency adjustment", "回复倾向调整"),
            &model,
        ),
    );
    let mut level: String = localized_affection_level(
        empty_log_value(&log.affection_level, "中立"),
        locale,
    ).to_owned();
    level.append(" ");
    level.append(&log.affection_adjustment);
    lines.push(
        format_decision_log_field(
            locale,
            text_for(locale, "Affection adjustment", "好感度调整"),
            &level,
        ),
    );
    assert(texts(lines@) =~= first_lines(log@, words@, locale));
    lines
}

/// The log of a decision. `words` are those of the language.
pub fn format_active_reply_decision_log_for(
    log: &ActiveReplyDecisionLog,
    words: &LogWords,
    locale: Locale,
) -> (r: String)
    ensures
        r@ == join(decision_lines(log@, words@, locale), "\n"@),
{
    let mut lines: Vec<String> = opening(log, words, locale);
    push_adjustment(
        &mut lines,
        locale,
        text_for(locale, "Emotion threshold adjustment", "情绪阈值调整"),
        &log.emotion_adjustment,
    );
    push_adjustment(
        &mut lines,
        locale,
        text_for(locale, "Continuation adjustment", "自然续聊调整"),
        &log.continuation_adjustment,
    );
    push_adjustment(
        &mut lines,
        locale,
        text_for(locale, "Direct trigger adjustment", "直接触发调整"),
        &log.system_adjustment,
    );
    let ghost before = texts(lines@);
    if let Some(x) = &log.restraint {
        let mut line: String = text_for(
            locale,
            "Restraint adjustment: penalty ",
            "冷静机制调整：扣分 ",
        ).to_owned();
        line.append(&x.penalty);
        line.append(text_for(locale, ", threshold ", "，阈值 "));
        line.append(&x.threshold);
        line.append(text_for(locale, " (heat ", "（冷静度 "));
        line.append(&x.heat);
        line.append(text_for(locale, ")", "）"));
        push_line(&mut lines, line);
    }
    assert(texts(lines@) =~= before + restraint_line(log@.restraint, locale));
    push_adjustment(
        &mut lines,
        locale,
        text_for(locale, "Short-message threshold adjustment", "短句阈值调整"),
        &log.short_message_adjustment,
    );
    let ghost before = texts(lines@);
    if let Some(x) = &log.violation {
        let category: String = trimmed(&x.category);
        let mut shown: String = String::new();
        if !is_empty_text(&category) {
            shown = " ".to_owned();
            shown.append(&category);
        }
        assert(trim(x@.category).len() == 0 ==> shown@ =~= seq![]);
        let mut line: String = text_for(
            locale,
            "Moderation precheck: violation",
            "安全初判：命中",
        ).to_owned();
        line.append(&shown);
        line.append(text_for(locale, " (severity ", "（严重度 "));
        line.append(&x.severity);
        line.append(text_for(locale, "/10)", "/10）"));
        push_line(&mut lines, line);
    }
    assert(texts(lines@) =~= before + violation_line(log@.violation, locale));
    let reason: &str = empty_log_value(
        &log.reason,
        text_for(locale, "not provided by model", "模型未提供"),
    );
    push_line(
        &mut lines,
        format_decision_log_field(locale, text_for(locale, "Reason", "判断理由"), reason),
    );
    assert(texts(lines@) =~= decision_lines(log@, words@, locale));
    joined(&lines, "\n")
}

/// The log of a decision that was not made: who wrote, what triggered it, and why.
pub open spec fn skip_log(
    account_id: Seq<char>,
    group_id: Seq<char>,
    sender_name: Seq<char>,
    sender_id: Seq<char>,
    trigger_label: Seq<char>,
    reason: Seq<char>,
    locale: Locale,
) -> Seq<char> {
    match locale {
        Locale::Zh => "（跳过主动判断）\n会话：群聊 "@ + group_id + "（机器人 QQ "@ + account_id
            + "）\n发送者："@ + or_if_blank(sender_name, "未知用户"@) + "（QQ "@ + sender_id
            + "）\n触发："@ + trigger_label + "\n结果：跳过\n判断原因："@ + or_if_blank(
            reason,
            "未提供"@,
        ),
        Locale::En => "[Active reply decision skipped]\nConversation: group "@ + group_id
            + " (bot QQ "@ + account_id + ")\nSender: "@ + or_if_blank(
            sender_name,
            "unknown user"@,
        ) + " (QQ "@ + sender_id + ")\nTrigger: "@ + trigger_label + "\nResult: skipped\nReason: "@
            + or_if_blank(reason, "not provided"@),
    }
}

/// The log of a decision that was not made.
pub fn format_active_reply_skip_log_for(
    account_id: &str,
    group_id: &str,
    sender_name: &str,
    sender_id: &str,
    trigger: TriggerKind,
    reason: &str,
    words: &LogWords,
    locale: Locale,
) -> (r: String)
    ensures
        r@ == skip_log(
            account_id@,
            group_id@,
            sender_name@,
            sender_id@,
            words_for(words@, trigger).label,
            reason@,
            locale,
        ),
{
    let mut out: String = text_for(
        locale,
        "[Active reply decision skipped]\nConversation: group ",
        "（跳过主动判断）\n会话：群聊 ",
    ).to_owned();
    out.append(group_id);
    out.append(text_for(locale, " (bot QQ ", "（机器人 QQ "));
    out.append(account_id);
    out.append(text_for(locale, ")\nSender: ", "）\n发送者："));
    out.append(empty_log_value(sender_name, text_for(locale, "unknown user", "未知用户")));
    out.append(text_for(locale, " (QQ ", "（QQ "));
    out.append(sender_id);
    out.append(text_for(locale, ")\nTrigger: ", "）\n触发："));
    out.append(trigger.log_label(words));
    out.append(text_for(locale, "\nResult: skipped\nReason: ", "\n结果：跳过\n判断原因："));
    out.append(empty_log_value(reason, text_for(locale, "not provided", "未提供")));
    out
}

/// The log of staying quiet because the assistant is muted in the group.
pub open spec fn muted_log(
    account_id: Seq<char>,
    group_id: Seq<char>,
    sender_name: Seq<char>,
    sender_id: Seq<char>,
    trigger_label: Option<Seq<char>>,
    locale: Locale,
) -> Seq<char> {
    match locale {
        Locale::Zh => "（跳过：自认被禁言）\n会话：群聊 "@ + group_id + "（机器人 QQ "@ + account_id
            + "）\n发送者："@ + or_if_blank(sender_name, "未知用户"@) + "（QQ "@ + sender_id
            + "）\n触发："@ + (match trigger_label {
            Some(t) => t,
            None => "系统触发"@,
        }) + "\n结果：不回复\n原因：查到机器人自己在本群处于禁言中，等解禁再说话"@,
        Locale::En => "[Skipped: the bot believes it is muted]\nConversation: group "@ + group_id
            + " (bot QQ "@ + account_id + ")\nSender: "@ + or_if_blank(
            sender_name,
            "unknown user"@,
        ) + " (QQ "@ + sender_id + ")\nTrigger: "@ + (match trigger_label {
            Some(t) => t,
            None => "system"@,
        })
            + "\nResult: no reply\nReason: the bot is muted in this group; staying quiet until the mute is lifted"@,
    }
}

/// The log of staying quiet because the assistant is muted in the group.
pub fn format_active_reply_muted_log_for(
    account_id: &str,
    group_id: &str,
    sender_name: &str,
    sender_id: &str,
    trigger: Option<TriggerKind>,
    words: &LogWords,
    locale: Locale,
) -> (r: String)
    ensures
        r@ == muted_log(
            account_id@,
            group_id@,
            sender_name@,
            sender_id@,
            match trigger {
                Some(t) => Some(words_for(words@, t).label),
                None => None,
            },
            locale,
        ),
{
    let mut out: String = text_for(
        locale,
        "[Skipped: the bot believes it is muted]\nConversation: group ",
        "（跳过：自认被禁言）\n会话：群聊 ",
    ).to_owned();
    out.append(group_id);
    out.append(text_for(locale, " (bot QQ ", "（机器人 QQ "));
    out.append(account_id);
    out.append(text_for(locale, ")\nSender: ", "）\n发送者："));
    out.append(empty_log_value(sender_name, text_for(locale, "unknown user", "未知用户")));
    out.append(text_for(locale, " (QQ ", "（QQ "));
    out.append(sender_id);
    out.append(text_for(locale, ")\nTrigger: ", "）\n触发："));
    match trigger {
        Some(t) => {
            out.append(t.log_label(words));
        }
        None => {
            out.append(text_for(locale, "system", "系统触发"));
        }
    }
    out.append(
        text_for(
            locale,
            "\nResult: no reply\nReason: the bot is muted in this group; staying quiet until the mute is lifted",
            "\n结果：不回复\n原因：查到机器人自己在本群处于禁言中，等解禁再说话",
        ),
    );
    out
}

/// The log of an answer without a decision.
pub open spec fn bypass_log(
    account_id: Seq<char>,
    group_id: Seq<char>,
    sender_name: Seq<char>,
    sender_id: Seq<char>,
    trigger_label: Seq<char>,
    reason: Seq<char>,
    locale: Locale,
) -> Seq<char> {
    match locale {
        Locale::Zh => "（未经判断直接回复）\n会话：群聊 "@ + group_id + "（机器人 QQ "@ + account_id
            + "）\n发送者："@ + or_if_blank(sender_name, "未知用户"@) + "（QQ "@ + sender_id
            + "）\n触发："@ + trigger_label + "\n结果：回复\n跳过判断的原因："@ + or_if_blank(
            reason,
            "未提供"@,
        ),
        Locale::En => "[Replied without an active-reply judgement]\nConversation: group "@ + group_id
            + " (bot QQ "@ + account_id + ")\nSender: "@ + or_if_blank(
            sender_name,
            "unknown user"@,
        ) + " (QQ "@ + sender_id + ")\nTrigger: "@ + trigger_label
            + "\nResult: reply\nJudgement skipped because: "@ + or_if_blank(reason, "not provided"@),
    }
}

/// The log of an answer without a decision.
pub fn format_active_reply_bypass_log_for(
    account_id: &str,
    group_id: &str,
    sender_name: &str,
    sender_id: &str,
    trigger: TriggerKind,
    reason: &str,
    words: &LogWords,
    locale: Locale,
) -> (r: String)
    ensures
        r@ == bypass_log(
            account_id@,
            group_id@,
            sender_name@,
            sender_id@,
            words_for(words@, trigger).label,
            reason@,
            locale,
        ),
{
    let mut out: String = text_for(
        locale,
        "[Replied without an active-reply judgement]\nConversation: group ",
        "（未经判断直接回复）\n会话：群聊 ",
    ).to_owned();
    out.append(group_id);
    out.append(text_for(locale, " (bot QQ ", "（机器人 QQ "));
    out.append(account_id);
    out.append(text_for(locale, ")\nSender: ", "）\n发送者："));
    out.append(empty_log_value(sender_name, text_for(locale, "unknown user", "未知用户")));
    out.append(text_for(locale, " (QQ ", "（QQ "));
    out.append(sender_id);
    out.append(text_for(locale, ")\nTrigger: ", "）\n触发："));
    out.append(trigger.log_label(words));
    out.append(
        text_for(
            locale,
            "\nResult: reply\nJudgement skipped because: ",
            "\n结果：回复\n跳过判断的原因：",
        ),
    );
    out.append(empty_log_value(reason, text_for(locale, "not provided", "未提供")));
    out
}

// ---------------------------------------------------------------------------
// What the log tells

/// A field of the log says what it is called and what it holds.
pub proof fn law_fields_are_told(locale: Locale, label: Seq<char>, value: Seq<char>)
    ensures
        occurs(log_field(locale, label, value), value),
        has_prefix(log_field(locale, label, value), label),
{
    let sep = match locale {
        Locale::Zh => "："@,
        Locale::En => ": "@,
    };
    law_writing_on_loses_nothing(label, sep);
    law_writing_on_loses_nothing(label + sep, value);
}

/// A message is logged by its words, all of them where they are few enough.
pub proof fn law_messages_are_logged(message: Seq<char>, locale: Locale)
    ensures
        ({
            let flat = join(words(message), " "@);
            let r = logged_message(message, locale);
            &&& 0 < flat.len() <= 300 ==> r == flat
            &&& flat.len() > 300 ==> r.take(300) == flat.take(300) && r.len() == 303
            &&& flat.len() == 0 && locale == Locale::En ==> r == "[non-text message]"@
            &&& flat.len() == 0 && locale == Locale::Zh ==> r == "[非文本消息]"@
        }),
{
    reveal_strlit("...");
    let flat = join(words(message), " "@);
    if flat.len() > 300 {
        assert((flat.take(300) + "..."@).take(300) =~= flat.take(300));
    }
}

/// The log of a decision says whether there is an answer, what the model thought, who was
/// answered and where, and why.
pub proof fn law_a_decision_is_told(
    log: ActiveReplyDecisionLogModel,
    words: LogWordsModel,
    locale: Locale,
)
    ensures
        ({
            let lines = decision_lines(log, words, locale);
            let set = match log.trigger {
                TriggerKind::Direct => words.direct,
                TriggerKind::Probability => words.probability,
            };
            let zh = locale == Locale::Zh;
            &&& lines.len() >= 12
            &&& log.should_reply ==> lines[0] == set.answered
            &&& !log.should_reply ==> lines[0] == set.silent
            &&& occurs(lines[1], log.group_id) && occurs(lines[1], log.account_id)
            &&& occurs(lines[2], log.sender_id)
            &&& trim(log.sender_name).len() > 0 ==> occurs(lines[2], log.sender_name)
            &&& zh && log.mentioned_bot ==> lines[3] == "@机器人"@ + "："@ + "是"@
            &&& zh && !log.mentioned_bot ==> lines[3] == "@机器人"@ + "："@ + "否"@
            &&& !zh && log.mentioned_bot ==> lines[3] == "Mentioned bot"@ + ": "@ + "yes"@
            &&& !zh && !log.mentioned_bot ==> lines[3] == "Mentioned bot"@ + ": "@ + "no"@
            &&& occurs(lines[4], logged_message(log.message, locale))
            &&& occurs(lines[5], set.label)
            &&& log.endpoint is Some ==> occurs(lines[6], log.endpoint->0)
            &&& zh && log.should_reply ==> lines[7] == "结果"@ + "："@ + "回复"@
            &&& zh && !log.should_reply ==> lines[7] == "结果"@ + "："@ + "不回复"@
            &&& !zh && log.should_reply ==> lines[7] == "Result"@ + ": "@ + "reply"@
            &&& !zh && !log.should_reply ==> lines[7] == "Result"@ + ": "@ + "no reply"@
        }),
{
    let lines = decision_lines(log, words, locale);
    lemma_first_lines(log, words, locale);
    lemma_conversation_line(log.group_id, log.account_id, locale);
    lemma_sender_line(log.sender_name, log.sender_id, locale);
    law_fields_are_told(locale, in_locale(locale, "Message"@, "消息"@), logged_message(log.message, locale));
    law_fields_are_told(
        locale,
        in_locale(locale, "Trigger"@, "触发"@),
        words_for(words, log.trigger).label,
    );
    if log.endpoint is Some {
        law_fields_are_told(locale, in_locale(locale, "Model"@, "模型"@), log.endpoint->0);
    }
}

proof fn lemma_first_lines(
    log: ActiveReplyDecisionLogModel,
    words: LogWordsModel,
    locale: Locale,
)
    ensures
        decision_lines(log, words, locale).len() >= 12,
        first_lines(log, words, locale).len() == 11,
        forall|i: int|
            0 <= i < 11 ==> #[trigger] decision_lines(log, words, locale)[i] == first_lines(
                log,
                words,
                locale,
            )[i],
{
}

proof fn lemma_conversation_line(group_id: Seq<char>, account_id: Seq<char>, locale: Locale)
    ensures
        occurs(conversation_line(group_id, account_id, locale), group_id),
        occurs(conversation_line(group_id, account_id, locale), account_id),
{
    match locale {
        Locale::Zh => {
            let t0 = "会话：群聊 "@;
            let t1 = t0 + group_id;
            law_writing_on_loses_nothing(t0, group_id);
            let t2 = t1 + "（机器人 QQ "@;
            law_writing_on_loses_nothing(t1, "（机器人 QQ "@);
            let t3 = t2 + account_id;
            law_writing_on_loses_nothing(t2, account_id);
            let t4 = t3 + "）"@;
            law_writing_on_loses_nothing(t3, "）"@);
            assert(t4 == conversation_line(group_id, account_id, locale));
        },
        Locale::En => {
            let u0 = "Conversation: group "@;
            let u1 = u0 + group_id;
            law_writing_on_loses_nothing(u0, group_id);
            let u2 = u1 + " (bot QQ "@;
            law_writing_on_loses_nothing(u1, " (bot QQ "@);
            let u3 = u2 + account_id;
            law_writing_on_loses_nothing(u2, account_id);
            let u4 = u3 + ")"@;
            law_writing_on_loses_nothing(u3, ")"@);
            assert(u4 == conversation_line(group_id, account_id, locale));
        },
    }
}

proof fn lemma_sender_line(name: Seq<char>, id: Seq<char>, locale: Locale)
    ensures
        occurs(sender_line(name, id, locale), id),
        trim(name).len() > 0 ==> occurs(sender_line(name, id, locale), name),
{
    match locale {
        Locale::Zh => {
            let t0 = "发送者："@;
            let t1 = t0 + or_if_blank(name, "未知用户"@);
            law_writing_on_loses_nothing(t0, or_if_blank(name, "未知用户"@));
            let t2 = t1 + "（QQ "@;
            law_writing_on_loses_nothing(t1, "（QQ "@);
            let t3 = t2 + id;
            law_writing_on_loses_nothing(t2, id);
            let t4 = t3 + "）"@;
            law_writing_on_loses_nothing(t3, "）"@);
            assert(t4 == sender_line(name, id, locale));
        },
        Locale::En => {
            let u0 = "Sender: "@;
            let u1 = u0 + or_if_blank(name, "unknown user"@);
            law_writing_on_loses_nothing(u0, or_if_blank(name, "unknown user"@));
            let u2 = u1 + " (QQ "@;
            law_writing_on_loses_nothing(u1, " (QQ "@);
            let u3 = u2 + id;
            law_writing_on_loses_nothing(u2, id);
            let u4 = u3 + ")"@;
            law_writing_on_loses_nothing(u3, ")"@);
            assert(u4 == sender_line(name, id, locale));
        },
    }
}

/// The scores of a decision are told, with what they were measured against.
pub proof fn law_scores_are_told(log: ActiveReplyDecisionLogModel, words: LogWordsModel, locale: Locale)
    ensures
        occurs(decision_lines(log, words, locale)[8], log.final_score),
        occurs(decision_lines(log, words, locale)[8], log.raw_score),
        occurs(decision_lines(log, words, locale)[8], log.threshold),
        occurs(decision_lines(log, words, locale)[9], log.model_adjustment),
        occurs(decision_lines(log, words, locale)[10], log.affection_adjustment),
        occurs(decision_lines(log, words, locale)[9], model_words(log.model_should_reply, locale)),
{
    lemma_first_lines(log, words, locale);
    lemma_score_line(log, locale);
    let m = model_words(log.model_should_reply, locale) + " "@;
    law_writing_on_loses_nothing(seq![], model_words(log.model_should_reply, locale));
    assert(seq![] + model_words(log.model_should_reply, locale) =~= model_words(
        log.model_should_reply,
        locale,
    ));
    law_writing_on_loses_nothing(model_words(log.model_should_reply, locale), " "@);
    law_writing_on_loses_nothing(m, log.model_adjustment);
    lemma_within_field(
        locale,
        in_locale(locale, "Reply tendency adjustment"@, "回复倾向调整"@),
        m + log.model_adjustment,
    );
    let a = level_in(or_if_blank(log.affection_level, "中立"@), locale) + " "@;
    law_writing_on_loses_nothing(a, log.affection_adjustment);
    lemma_within_field(
        locale,
        in_locale(locale, "Affection adjustment"@, "好感度调整"@),
        a + log.affection_adjustment,
    );
}

proof fn lemma_within_field(locale: Locale, label: Seq<char>, value: Seq<char>)
    ensures
        forall|x: Seq<char>| occurs(value, x) ==> #[trigger] occurs(log_field(locale, label, value), x),
{
    let sep = match locale {
        Locale::Zh => "："@,
        Locale::En => ": "@,
    };
    assert forall|x: Seq<char>| occurs(value, x) implies #[trigger] occurs(
        log_field(locale, label, value),
        x,
    ) by {
        law_occurs_in_more(label + sep, value, seq![], x);
        assert(label + sep + value + seq![] =~= log_field(locale, label, value));
    }
}

proof fn lemma_score_line(log: ActiveReplyDecisionLogModel, locale: Locale)
    ensures
        occurs(score_line(log, locale), log.final_score),
        occurs(score_line(log, locale), log.raw_score),
        occurs(score_line(log, locale), log.threshold),
{
    match locale {
        Locale::Zh => {
            let t0 = "分数："@;
            let t1 = t0 + log.final_score;
            law_writing_on_loses_nothing(t0, log.final_score);
            let t2 = t1 + "（原始 "@;
            law_writing_on_loses_nothing(t1, "（原始 "@);
            let t3 = t2 + log.raw_score;
            law_writing_on_loses_nothing(t2, log.raw_score);
            let t4 = t3 + "，阈值 "@;
            law_writing_on_loses_nothing(t3, "，阈值 "@);
            let t5 = t4 + log.threshold;
            law_writing_on_loses_nothing(t4, log.threshold);
            let t6 = t5 + "）"@;
            law_writing_on_loses_nothing(t5, "）"@);
            assert(t6 == score_line(log, locale));
        },
        Locale::En => {
            let u0 = "Score: "@;
            let u1 = u0 + log.final_score;
            law_writing_on_loses_nothing(u0, log.final_score);
            let u2 = u1 + " (raw "@;
            law_writing_on_loses_nothing(u1, " (raw "@);
            let u3 = u2 + log.raw_score;
            law_writing_on_loses_nothing(u2, log.raw_score);
            let u4 = u3 + ", threshold "@;
            law_writing_on_loses_nothing(u3, ", threshold "@);
            let u5 = u4 + log.threshold;
            law_writing_on_loses_nothing(u4, log.threshold);
            let u6 = u5 + ")"@;
            law_writing_on_loses_nothing(u5, ")"@);
            assert(u6 == score_line(log, locale));
        },
    }
}

/// What the model thought is told as it was.
pub proof fn law_the_models_opinion_is_told()
    ensures
        model_words(Some(true), Locale::Zh) == "应该回复"@,
        model_words(Some(false), Locale::Zh) == "不应该回复"@,
        model_words(None, Locale::Zh) == "模型未返回"@,
        model_words(Some(true), Locale::En) == "should reply"@,
        model_words(Some(false), Locale::En) == "should not reply"@,
        model_words(None, Locale::En) == "not returned by model"@,
{
}

/// Every correction that was made has a line of its own, and the last line says why.
pub proof fn law_corrections_are_told(
    log: ActiveReplyDecisionLogModel,
    words: LogWordsModel,
    locale: Locale,
)
    ensures
        ({
            let lines = decision_lines(log, words, locale);
            let zh = locale == Locale::Zh;
            let label = |english: Seq<char>, chinese: Seq<char>| if zh {
                chinese + "："@
            } else {
                english + ": "@
            };
            &&& log.emotion_adjustment is Some ==> lines.contains(
                label("Emotion threshold adjustment"@, "情绪阈值调整"@) + log.emotion_adjustment->0,
            )
            &&& log.continuation_adjustment is Some ==> lines.contains(
                label("Continuation adjustment"@, "自然续聊调整"@) + log.continuation_adjustment->0,
            )
            &&& log.system_adjustment is Some ==> lines.contains(
                label("Direct trigger adjustment"@, "直接触发调整"@) + log.system_adjustment->0,
            )
            &&& log.short_message_adjustment is Some ==> lines.contains(
                label("Short-message threshold adjustment"@, "短句阈值调整"@)
                    + log.short_message_adjustment->0,
            )
            &&& trim(log.reason).len() > 0 ==> lines.last() == label("Reason"@, "判断理由"@)
                + log.reason
            &&& log.emotion_adjustment is None && log.continuation_adjustment is None
                && log.system_adjustment is None && log.restraint is None
                && log.short_message_adjustment is None && log.violation is None ==> lines.len()
                == 12
        }),
{
    let t0 = first_lines(log, words, locale);
    let a1 = adjustment_line(
        locale,
        in_locale(locale, "Emotion threshold adjustment"@, "情绪阈值调整"@),
        log.emotion_adjustment,
    );
    let a2 = adjustment_line(
        locale,
        in_locale(locale, "Continuation adjustment"@, "自然续聊调整"@),
        log.continuation_adjustment,
    );
    let a3 = adjustment_line(
        locale,
        in_locale(locale, "Direct trigger adjustment"@, "直接触发调整"@),
        log.system_adjustment,
    );
    let a4 = restraint_line(log.restraint, locale);
    let a5 = adjustment_line(
        locale,
        in_locale(locale, "Short-message threshold adjustment"@, "短句阈值调整"@),
        log.short_message_adjustment,
    );
    let a6 = violation_line(log.violation, locale);
    let a7 = seq![
        log_field(
            locale,
            in_locale(locale, "Reason"@, "判断理由"@),
            or_if_blank(log.reason, in_locale(locale, "not provided by model"@, "模型未提供"@)),
        ),
    ];
    lemma_lines_added(t0, a1);
    lemma_lines_added(t0 + a1, a2);
    lemma_lines_added(t0 + a1 + a2, a3);
    lemma_lines_added(t0 + a1 + a2 + a3, a4);
    lemma_lines_added(t0 + a1 + a2 + a3 + a4, a5);
    lemma_lines_added(t0 + a1 + a2 + a3 + a4 + a5, a6);
    lemma_lines_added(t0 + a1 + a2 + a3 + a4 + a5 + a6, a7);
    assert(decision_lines(log, words, locale) == t0 + a1 + a2 + a3 + a4 + a5 + a6 + a7);
}

proof fn lemma_lines_added(a: Seq<Seq<char>>, b: Seq<Seq<char>>)
    ensures
        (a + b).len() == a.len() + b.len(),
        forall|x: Seq<char>| a.contains(x) ==> #[trigger] (a + b).contains(x),
        b.len() == 1 ==> (a + b).contains(b[0]) && (a + b).last() == b[0],
{
    let all = a + b;
    assert forall|x: Seq<char>| a.contains(x) implies #[trigger] all.contains(x) by {
        let i = choose|i: int| 0 <= i < a.len() && a[i] == x;
        assert(all[i] == x);
    }
    if b.len() == 1 {
        assert(all[a.len() as int] == b[0]);
    }
}

/// A violation is told with its severity and its kind, and a restraint with its numbers.
pub proof fn law_violations_are_told(v: ViolationModel, r: RestraintModel, locale: Locale)
    ensures
        occurs(violation_line(Some(v), locale)[0], v.severity),
        trim(v.category).len() > 0 ==> occurs(violation_line(Some(v), locale)[0], trim(v.category)),
        occurs(restraint_line(Some(r), locale)[0], r.penalty),
        occurs(restraint_line(Some(r), locale)[0], r.threshold),
        occurs(restraint_line(Some(r), locale)[0], r.heat),
        violation_line(None, locale).len() == 0,
        restraint_line(None, locale).len() == 0,
{
    let category = trim(v.category);
    let shown = if category.len() == 0 {
        seq![]
    } else {
        " "@ + category
    };
    law_writing_on_loses_nothing(" "@, category);
    let (a, b, c) = match locale {
        Locale::Zh => ("安全初判：命中"@, "（严重度 "@, "/10）"@),
        Locale::En => ("Moderation precheck: violation"@, " (severity "@, "/10)"@),
    };
    if category.len() > 0 {
        law_occurs_in_more(a, shown, seq![], category);
        assert(a + shown + seq![] =~= a + shown);
    }
    law_writing_on_loses_nothing(a + shown, b);
    law_writing_on_loses_nothing(a + shown + b, v.severity);
    law_writing_on_loses_nothing(a + shown + b + v.severity, c);
    let (p, q, h, e) = match locale {
        Locale::Zh => ("冷静机制调整：扣分 "@, "，阈值 "@, "（冷静度 "@, "）"@),
        Locale::En => ("Restraint adjustment: penalty "@, ", threshold "@, " (heat "@, ")"@),
    };
    law_writing_on_loses_nothing(p, r.penalty);
    law_writing_on_loses_nothing(p + r.penalty, q);
    law_writing_on_loses_nothing(p + r.penalty + q, r.threshold);
    law_writing_on_loses_nothing(p + r.penalty + q + r.threshold, h);
    law_writing_on_loses_nothing(p + r.penalty + q + r.threshold + h, r.heat);
    law_writing_on_loses_nothing(p + r.penalty + q + r.threshold + h + r.heat, e);
}

/// The log of a message that is not judged says where it was, who wrote it, what set it off
/// and why.
pub proof fn law_a_skip_is_told(
    account_id: Seq<char>,
    group_id: Seq<char>,
    sender_name: Seq<char>,
    sender_id: Seq<char>,
    label: Seq<char>,
    reason: Seq<char>,
    locale: Locale,
)
    ensures
        occurs(skip_log(account_id, group_id, sender_name, sender_id, label, reason, locale), account_id),
        occurs(skip_log(account_id, group_id, sender_name, sender_id, label, reason, locale), group_id),
        occurs(skip_log(account_id, group_id, sender_name, sender_id, label, reason, locale), sender_id),
        trim(sender_name).len() > 0 ==> occurs(skip_log(account_id, group_id, sender_name, sender_id, label, reason, locale), sender_name),
        occurs(skip_log(account_id, group_id, sender_name, sender_id, label, reason, locale), label),
        trim(reason).len() > 0 ==> occurs(skip_log(account_id, group_id, sender_name, sender_id, label, reason, locale), reason),
{
    match locale {
        Locale::Zh => {
            let t0 = "（跳过主动判断）\n会话：群聊 "@;
            let t1 = t0 + group_id;
            law_writing_on_loses_nothing(t0, group_id);
            let t2 = t1 + "（机器人 QQ "@;
            law_writing_on_loses_nothing(t1, "（机器人 QQ "@);
            let t3 = t2 + account_id;
            law_writing_on_loses_nothing(t2, account_id);
            let t4 = t3 + "）\n发送者："@;
            law_writing_on_loses_nothing(t3, "）\n发送者："@);
            let t5 = t4 + or_if_blank(sender_name, "未知用户"@);
            law_writing_on_loses_nothing(t4, or_if_blank(sender_name, "未知用户"@));
            let t6 = t5 + "（QQ "@;
            law_writing_on_loses_nothing(t5, "（QQ "@);
            let t7 = t6 + sender_id;
            law_writing_on_loses_nothing(t6, sender_id);
            let t8 = t7 + "）\n触发："@;
            law_writing_on_loses_nothing(t7, "）\n触发："@);
            let t9 = t8 + label;
            law_writing_on_loses_nothing(t8, label);
            let t10 = t9 + "\n结果：跳过\n判断原因："@;
            law_writing_on_loses_nothing(t9, "\n结果：跳过\n判断原因："@);
            let t11 = t10 + or_if_blank(
            reason,
            "未提供"@,
        );
            law_writing_on_loses_nothing(t10, or_if_blank(
            reason,
            "未提供"@,
        ));
            assert(t11 == skip_log(account_id, group_id, sender_name, sender_id, label, reason, locale));
        },
        Locale::En => {
            let u0 = "[Active reply decision skipped]\nConversation: group "@;
            let u1 = u0 + group_id;
            law_writing_on_loses_nothing(u0, group_id);
            let u2 = u1 + " (bot QQ "@;
            law_writing_on_loses_nothing(u1, " (bot QQ "@);
            let u3 = u2 + account_id;
            law_writing_on_loses_nothing(u2, account_id);
            let u4 = u3 + ")\nSender: "@;
            law_writing_on_loses_nothing(u3, ")\nSender: "@);
            let u5 = u4 + or_if_blank(
            sender_name,
            "unknown user"@,
        );
            law_writing_on_loses_nothing(u4, or_if_blank(
            sender_name,
            "unknown user"@,
        ));
            let u6 = u5 + " (QQ "@;
            law_writing_on_loses_nothing(u5, " (QQ "@);
            let u7 = u6 + sender_id;
            law_writing_on_loses_nothing(u6, sender_id);
            let u8 = u7 + ")\nTrigger: "@;
            law_writing_on_loses_nothing(u7, ")\nTrigger: "@);
            let u9 = u8 + label;
            law_writing_on_loses_nothing(u8, label);
            let u10 = u9 + "\nResult: skipped\nReason: "@;
            law_writing_on_loses_nothing(u9, "\nResult: skipped\nReason: "@);
            let u11 = u10 + or_if_blank(reason, "not provided"@);
            law_writing_on_loses_nothing(u10, or_if_blank(reason, "not provided"@));
            assert(u11 == skip_log(account_id, group_id, sender_name, sender_id, label, reason, locale));
        },
    }
}

/// The log of an answer that is not given because the assistant may not speak says where it
/// was and who wrote.
pub proof fn law_a_muted_turn_is_told(
    account_id: Seq<char>,
    group_id: Seq<char>,
    sender_name: Seq<char>,
    sender_id: Seq<char>,
    label: Option<Seq<char>>,
    locale: Locale,
)
    ensures
        occurs(muted_log(account_id, group_id, sender_name, sender_id, label, locale), account_id),
        occurs(muted_log(account_id, group_id, sender_name, sender_id, label, locale), group_id),
        occurs(muted_log(account_id, group_id, sender_name, sender_id, label, locale), sender_id),
        trim(sender_name).len() > 0 ==> occurs(muted_log(account_id, group_id, sender_name, sender_id, label, locale), sender_name),
        label is Some ==> occurs(muted_log(account_id, group_id, sender_name, sender_id, label, locale), label->0),
{
    match locale {
        Locale::Zh => {
            let t0 = "（跳过：自认被禁言）\n会话：群聊 "@;
            let t1 = t0 + group_id;
            law_writing_on_loses_nothing(t0, group_id);
            let t2 = t1 + "（机器人 QQ "@;
            law_writing_on_loses_nothing(t1, "（机器人 QQ "@);
            let t3 = t2 + account_id;
            law_writing_on_loses_nothing(t2, account_id);
            let t4 = t3 + "）\n发送者："@;
            law_writing_on_loses_nothing(t3, "）\n发送者："@);
            let t5 = t4 + or_if_blank(sender_name, "未知用户"@);
            law_writing_on_loses_nothing(t4, or_if_blank(sender_name, "未知用户"@));
            let t6 = t5 + "（QQ "@;
            law_writing_on_loses_nothing(t5, "（QQ "@);
            let t7 = t6 + sender_id;
            law_writing_on_loses_nothing(t6, sender_id);
            let t8 = t7 + "）\n触发："@;
            law_writing_on_loses_nothing(t7, "）\n触发："@);
            let t9 = t8 + (match label {
            Some(t) => t,
            None => "系统触发"@,
        });
            law_writing_on_loses_nothing(t8, (match label {
            Some(t) => t,
            None => "系统触发"@,
        }));
            let t10 = t9 + "\n结果：不回复\n原因：查到机器人自己在本群处于禁言中，等解禁再说话"@;
            law_writing_on_loses_nothing(t9, "\n结果：不回复\n原因：查到机器人自己在本群处于禁言中，等解禁再说话"@);
            assert(t10 == muted_log(account_id, group_id, sender_name, sender_id, label, locale));
        },
        Locale::En => {
            let u0 = "[Skipped: the bot believes it is muted]\nConversation: group "@;
            let u1 = u0 + group_id;
            law_writing_on_loses_nothing(u0, group_id);
            let u2 = u1 + " (bot QQ "@;
            law_writing_on_loses_nothing(u1, " (bot QQ "@);
            let u3 = u2 + account_id;
            law_writing_on_loses_nothing(u2, account_id);
            let u4 = u3 + ")\nSender: "@;
            law_writing_on_loses_nothing(u3, ")\nSender: "@);
            let u5 = u4 + or_if_blank(
            sender_name,
            "unknown user"@,
        );
            law_writing_on_loses_nothing(u4, or_if_blank(
            sender_name,
            "unknown user"@,
        ));
            let u6 = u5 + " (QQ "@;
            law_writing_on_loses_nothing(u5, " (QQ "@);
            let u7 = u6 + sender_id;
            law_writing_on_loses_nothing(u6, sender_id);
            let u8 = u7 + ")\nTrigger: "@;
            law_writing_on_loses_nothing(u7, ")\nTrigger: "@);
            let u9 = u8 + (match label {
            Some(t) => t,
            None => "system"@,
        });
            law_writing_on_loses_nothing(u8, (match label {
            Some(t) => t,
            None => "system"@,
        }));
            let u10 = u9 + "\nResult: no reply\nReason: the bot is muted in this group; staying quiet until the mute is lifted"@;
            law_writing_on_loses_nothing(u9, "\nResult: no reply\nReason: the bot is muted in this group; staying quiet until the mute is lifted"@);
            assert(u10 == muted_log(account_id, group_id, sender_name, sender_id, label, locale));
        },
    }
}

/// The log of an answer that is given without judgement says where it was, who wrote, what
/// set it off and why.
pub proof fn law_a_bypass_is_told(
    account_id: Seq<char>,
    group_id: Seq<char>,
    sender_name: Seq<char>,
    sender_id: Seq<char>,
    label: Seq<char>,
    reason: Seq<char>,
    locale: Locale,
)
    ensures
        occurs(bypass_log(account_id, group_id, sender_name, sender_id, label, reason, locale), account_id),
        occurs(bypass_log(account_id, group_id, sender_name, sender_id, label, reason, locale), group_id),
        occurs(bypass_log(account_id, group_id, sender_name, sender_id, label, reason, locale), sender_id),
        trim(sender_name).len() > 0 ==> occurs(bypass_log(account_id, group_id, sender_name, sender_id, label, reason, locale), sender_name),
        occurs(bypass_log(account_id, group_id, sender_name, sender_id, label, reason, locale), label),
        trim(reason).len() > 0 ==> occurs(bypass_log(account_id, group_id, sender_name, sender_id, label, reason, locale), reason),
{
    match locale {
        Locale::Zh => {
            let t0 = "（未经判断直接回复）\n会话：群聊 "@;
            let t1 = t0 + group_id;
            law_writing_on_loses_nothing(t0, group_id);
            let t2 = t1 + "（机器人 QQ "@;
            law_writing_on_loses_nothing(t1, "（机器人 QQ "@);
            let t3 = t2 + account_id;
            law_writing_on_loses_nothing(t2, account_id);
            let t4 = t3 + "）\n发送者："@;
            law_writing_on_loses_nothing(t3, "）\n发送者："@);
            let t5 = t4 + or_if_blank(sender_name, "未知用户"@);
            law_writing_on_loses_nothing(t4, or_if_blank(sender_name, "未知用户"@));
            let t6 = t5 + "（QQ "@;
            law_writing_on_loses_nothing(t5, "（QQ "@);
            let t7 = t6 + sender_id;
            law_writing_on_loses_nothing(t6, sender_id);
            let t8 = t7 + "）\n触发："@;
            law_writing_on_loses_nothing(t7, "）\n触发："@);
            let t9 = t8 + label;
            law_writing_on_loses_nothing(t8, label);
            let t10 = t9 + "\n结果：回复\n跳过判断的原因："@;
            law_writing_on_loses_nothing(t9, "\n结果：回复\n跳过判断的原因："@);
            let t11 = t10 + or_if_blank(
            reason,
            "未提供"@,
        );
            law_writing_on_loses_nothing(t10, or_if_blank(
            reason,
            "未提供"@,
        ));
            assert(t11 == bypass_log(account_id, group_id, sender_name, sender_id, label, reason, locale));
        },
        Locale::En => {
            let u0 = "[Replied without an active-reply judgement]\nConversation: group "@;
            let u1 = u0 + group_id;
            law_writing_on_loses_nothing(u0, group_id);
            let u2 = u1 + " (bot QQ "@;
            law_writing_on_loses_nothing(u1, " (bot QQ "@);
            let u3 = u2 + account_id;
            law_writing_on_loses_nothing(u2, account_id);
            let u4 = u3 + ")\nSender: "@;
            law_writing_on_loses_nothing(u3, ")\nSender: "@);
            let u5 = u4 + or_if_blank(
            sender_name,
            "unknown user"@,
        );
            law_writing_on_loses_nothing(u4, or_if_blank(
            sender_name,
            "unknown user"@,
        ));
            let u6 = u5 + " (QQ "@;
            law_writing_on_loses_nothing(u5, " (QQ "@);
            let u7 = u6 + sender_id;
            law_writing_on_loses_nothing(u6, sender_id);
            let u8 = u7 + ")\nTrigger: "@;
            law_writing_on_loses_nothing(u7, ")\nTrigger: "@);
            let u9 = u8 + label;
            law_writing_on_loses_nothing(u8, label);
            let u10 = u9 + "\nResult: reply\nJudgement skipped because: "@;
            law_writing_on_loses_nothing(u9, "\nResult: reply\nJudgement skipped because: "@);
            let u11 = u10 + or_if_blank(reason, "not provided"@);
            law_writing_on_loses_nothing(u10, or_if_blank(reason, "not provided"@));
            assert(u11 == bypass_log(account_id, group_id, sender_name, sender_id, label, reason, locale));
        },
    }
}

/// The three logs of what is not judged are told apart.
pub proof fn law_logs_are_told_apart(
    account_id: Seq<char>,
    group_id: Seq<char>,
    sender_name: Seq<char>,
    sender_id: Seq<char>,
    label: Seq<char>,
    reason: Seq<char>,
)
    ensures
        has_prefix(
            skip_log(account_id, group_id, sender_name, sender_id, label, reason, Locale::Zh),
            "（跳过主动判断）\n会话：群聊 "@,
        ),
        has_prefix(
            bypass_log(account_id, group_id, sender_name, sender_id, label, reason, Locale::Zh),
            "（未经判断直接回复）\n会话：群聊 "@,
        ),
        has_prefix(
            muted_log(account_id, group_id, sender_name, sender_id, Some(label), Locale::Zh),
            "（跳过：自认被禁言）\n会话：群聊 "@,
        ),
{
    let some = Some(label);
    let locale = Locale::Zh;
    assert forall|s: Seq<char>, more: Seq<char>| #[trigger] has_prefix(s + more, s) by {
        law_writing_on_loses_nothing(s, more);
    }
    let s0 = "（跳过主动判断）\n会话：群聊 "@;
    let s1 = s0 + group_id;
    law_writing_on_loses_nothing(s0, group_id);
    let s2 = s1 + "（机器人 QQ "@;
    law_writing_on_loses_nothing(s1, "（机器人 QQ "@);
    let s3 = s2 + account_id;
    law_writing_on_loses_nothing(s2, account_id);
    let s4 = s3 + "）\n发送者："@;
    law_writing_on_loses_nothing(s3, "）\n发送者："@);
    let s5 = s4 + or_if_blank(sender_name, "未知用户"@);
    law_writing_on_loses_nothing(s4, or_if_blank(sender_name, "未知用户"@));
    let s6 = s5 + "（QQ "@;
    law_writing_on_loses_nothing(s5, "（QQ "@);
    let s7 = s6 + sender_id;
    law_writing_on_loses_nothing(s6, sender_id);
    let s8 = s7 + "）\n触发："@;
    law_writing_on_loses_nothing(s7, "）\n触发："@);
    let s9 = s8 + label;
    law_writing_on_loses_nothing(s8, label);
    let s10 = s9 + "\n结果：跳过\n判断原因："@;
    law_writing_on_loses_nothing(s9, "\n结果：跳过\n判断原因："@);
    let s11 = s10 + or_if_blank(
            reason,
            "未提供"@,
        );
    law_writing_on_loses_nothing(s10, or_if_blank(
            reason,
            "未提供"@,
        ));
    assert(s11 == skip_log(account_id, group_id, sender_name, sender_id, label, reason, locale));
    let b0 = "（未经判断直接回复）\n会话：群聊 "@;
    let b1 = b0 + group_id;
    law_writing_on_loses_nothing(b0, group_id);
    let b2 = b1 + "（机器人 QQ "@;
    law_writing_on_loses_nothing(b1, "（机器人 QQ "@);
    let b3 = b2 + account_id;
    law_writing_on_loses_nothing(b2, account_id);
    let b4 = b3 + "）\n发送者："@;
    law_writing_on_loses_nothing(b3, "）\n发送者："@);
    let b5 = b4 + or_if_blank(sender_name, "未知用户"@);
    law_writing_on_loses_nothing(b4, or_if_blank(sender_name, "未知用户"@));
    let b6 = b5 + "（QQ "@;
    law_writing_on_loses_nothing(b5, "（QQ "@);
    let b7 = b6 + sender_id;
    law_writing_on_loses_nothing(b6, sender_id);
    let b8 = b7 + "）\n触发："@;
    law_writing_on_loses_nothing(b7, "）\n触发："@);
    let b9 = b8 + label;
    law_writing_on_loses_nothing(b8, label);
    let b10 = b9 + "\n结果：回复\n跳过判断的原因："@;
    law_writing_on_loses_nothing(b9, "\n结果：回复\n跳过判断的原因："@);
    let b11 = b10 + or_if_blank(
            reason,
            "未提供"@,
        );
    law_writing_on_loses_nothing(b10, or_if_blank(
            reason,
            "未提供"@,
        ));
    assert(b11 == bypass_log(account_id, group_id, sender_name, sender_id, label, reason, locale));
    let m0 = "（跳过：自认被禁言）\n会话：群聊 "@;
    let m1 = m0 + group_id;
    law_writing_on_loses_nothing(m0, group_id);
    let m2 = m1 + "（机器人 QQ "@;
    law_writing_on_loses_nothing(m1, "（机器人 QQ "@);
    let m3 = m2 + account_id;
    law_writing_on_loses_nothing(m2, account_id);
    let m4 = m3 + "）\n发送者："@;
    law_writing_on_loses_nothing(m3, "）\n发送者："@);
    let m5 = m4 + or_if_blank(sender_name, "未知用户"@);
    law_writing_on_loses_nothing(m4, or_if_blank(sender_name, "未知用户"@));
    let m6 = m5 + "（QQ "@;
    law_writing_on_loses_nothing(m5, "（QQ "@);
    let m7 = m6 + sender_id;
    law_writing_on_loses_nothing(m6, sender_id);
    let m8 = m7 + "）\n触发："@;
    law_writing_on_loses_nothing(m7, "）\n触发："@);
    let m9 = m8 + (match some {
            Some(t) => t,
            None => "系统触发"@,
        });
    law_writing_on_loses_nothing(m8, (match some {
            Some(t) => t,
            None => "系统触发"@,
        }));
    let m10 = m9 + "\n结果：不回复\n原因：查到机器人自己在本群处于禁言中，等解禁再说话"@;
    law_writing_on_loses_nothing(m9, "\n结果：不回复\n原因：查到机器人自己在本群处于禁言中，等解禁再说话"@);
    assert(m10 == muted_log(account_id, group_id, sender_name, sender_id, some, locale));
}

} // verus!
