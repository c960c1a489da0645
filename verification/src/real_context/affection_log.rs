//! The log of how relationships change.

use crate::real_context::decision_log::{conversation_line, format_conversation, level_in};
use crate::real_context::locale::{
    bounded_single_line, empty_log_value, in_locale, or_if_blank, single_line, text_for, Locale,
};
use crate::text::{
    join, joined, law_writing_on_loses_nothing, occurs, opt_text, same, texts, trim,
};
use crate::times::{clock_shows, is_clock_text, local_minute, reads_near, utc_rfc3339};
use vstd::prelude::*;
use vstd::string::*;

verus! {

/// The name of a relationship as the log shows it: the plain name in English, the
/// shown name in Chinese.
pub open spec fn level_shown(level: Seq<char>, locale: Locale) -> Seq<char> {
    if locale == Locale::En {
        level
    } else if level == "estranged"@ {
        "刻意疏远"@
    } else if level == "cold"@ {
        "冷漠"@
    } else if level == "neutral"@ {
        "中立"@
    } else if level == "acquainted"@ {
        "认识"@
    } else if level == "friend"@ {
        "好友"@
    } else if level == "trusted"@ {
        "信任"@
    } else if level == "close"@ {
        "亲近"@
    } else {
        level
    }
}

/// The name of a relationship as the log shows it.
pub fn localized_level<'a>(level: &'a str, locale: Locale) -> (r: &'a str)
    ensures
        r@ == level_shown(level@, locale),
{
    if locale == Locale::En {
        level
    } else if same(level, "estranged") {
        "刻意疏远"
    } else if same(level, "cold") {
        "冷漠"
    } else if same(level, "neutral") {
        "中立"
    } else if same(level, "acquainted") {
        "认识"
    } else if same(level, "friend") {
        "好友"
    } else if same(level, "trusted") {
        "信任"
    } else if same(level, "close") {
        "亲近"
    } else {
        level
    }
}

/// The line that names the member.
pub open spec fn user_line(name: Seq<char>, id: Seq<char>, locale: Locale) -> Seq<char> {
    match locale {
        Locale::Zh => "用户："@ + or_if_blank(name, "未知用户"@) + "（QQ "@ + id + "）"@,
        Locale::En => "User: "@ + or_if_blank(name, "unknown user"@) + " (QQ "@ + id + ")"@,
    }
}

/// The line that names the member.
pub fn format_user(name: &str, id: &str, locale: Locale) -> (r: String)
    ensures
        r@ == user_line(name@, id@, locale),
{
    let mut out: String = text_for(locale, "User: ", "用户：").to_owned();
    out.append(empty_log_value(name, text_for(locale, "unknown user", "未知用户")));
    out.append(text_for(locale, " (QQ ", "（QQ "));
    out.append(id);
    out.append(text_for(locale, ")", "）"));
    out
}

/// A line made of a label and a value.
pub open spec fn labelled(
    locale: Locale,
    english: Seq<char>,
    chinese: Seq<char>,
    value: Seq<char>,
) -> Seq<char> {
    in_locale(locale, english, chinese) + value
}

fn label(locale: Locale, english: &str, chinese: &str, value: &str) -> (r: String)
    ensures
        r@ == labelled(locale, english@, chinese@, value@),
{
    let mut out: String = text_for(locale, english, chinese).to_owned();
    out.append(value);
    out
}

fn push_line(lines: &mut Vec<String>, line: String)
    ensures
        texts(final(lines)@) == texts(old(lines)@).push(line@),
{
    lines.push(line);
    assert(texts(lines@) =~= texts(old(lines)@).push(line@));
}

/// The lines for a relationship that is new. The score has three decimals.
pub open spec fn initialized_lines(
    account_id: Seq<char>,
    group_id: Seq<char>,
    sender_name: Seq<char>,
    sender_id: Seq<char>,
    persona: Seq<char>,
    score: Seq<char>,
    level: Seq<char>,
    locale: Locale,
) -> Seq<Seq<char>> {
    seq![
        in_locale(locale, "[Affection: initialized]"@, "【好感度：初始化】"@),
        conversation_line(group_id, account_id, locale),
        user_line(sender_name, sender_id, locale),
        labelled(locale, "Persona: "@, "人格："@, or_if_blank(persona, "default"@)),
        labelled(
            locale,
            "Initial relationship: "@,
            "初始关系："@,
            level_shown(level, locale),
        ),
        labelled(locale, "Initial score: "@, "初始分数："@, score),
    ]
}

/// The log of a relationship that is new.
pub fn format_affection_initialized_log(
    account_id: &str,
    group_id: &str,
    sender_name: &str,
    sender_id: &str,
    persona: &str,
    score: &str,
    level: &str,
    locale: Locale,
) -> (r: String)
    ensures
        r@ == join(
            initialized_lines(
                account_id@,
                group_id@,
                sender_name@,
                sender_id@,
                persona@,
                score@,
                level@,
                locale,
            ),
            "\n"@,
        ),
{
    let mut lines: Vec<String> = Vec::new();
    lines.push(text_for(locale, "[Affection: initialized]", "【好感度：初始化】").to_owned());
    lines.push(format_conversation(group_id, account_id, locale));
    lines.push(format_user(sender_name, sender_id, locale));
    lines.push(label(locale, "Persona: ", "人格：", empty_log_value(persona, "default")));
    lines.push(
        label(locale, "Initial relationship: ", "初始关系：", localized_level(level, locale)),
    );
    lines.push(label(locale, "Initial score: ", "初始分数：", score));
    assert(texts(lines@) =~= initialized_lines(
        account_id@,
        group_id@,
        sender_name@,
        sender_id@,
        persona@,
        score@,
        level@,
        locale,
    ));
    joined(&lines, "\n")
}

/// What an evaluation came to. Numbers are given as they are shown.
pub struct UpdateLog {
    pub account_id: String,
    pub group_id: String,
    pub sender_name: String,
    pub sender_id: String,
    /// Whether the score changed.
    pub score_moved: bool,
    pub level_before: String,
    pub level_after: String,
    pub score_before: String,
    pub score_after: String,
    pub actual_delta: String,
    pub raw_delta: String,
    pub confidence: String,
    pub reason: String,
    pub tags_added: Vec<String>,
    pub tags_removed: Vec<String>,
}

/// What a [`UpdateLog`] holds, as values.
#[verifier::ext_equal]
pub struct UpdateLogModel {
    pub account_id: Seq<char>,
    pub group_id: Seq<char>,
    pub sender_name: Seq<char>,
    pub sender_id: Seq<char>,
    pub score_moved: bool,
    pub level_before: Seq<char>,
    pub level_after: Seq<char>,
    pub score_before: Seq<char>,
    pub score_after: Seq<char>,
    pub actual_delta: Seq<char>,
    pub raw_delta: Seq<char>,
    pub confidence: Seq<char>,
    pub reason: Seq<char>,
    pub tags_added: Seq<Seq<char>>,
    pub tags_removed: Seq<Seq<char>>,
}

impl View for UpdateLog {
    type V = UpdateLogModel;

    open spec fn view(&self) -> UpdateLogModel {
        UpdateLogModel {
            account_id: self.account_id@,
            group_id: self.group_id@,
            sender_name: self.sender_name@,
            sender_id: self.sender_id@,
            score_moved: self.score_moved,
            level_before: self.level_before@,
            level_after: self.level_after@,
            score_before: self.score_before@,
            score_after: self.score_after@,
            actual_delta: self.actual_delta@,
            raw_delta: self.raw_delta@,
            confidence: self.confidence@,
            reason: self.reason@,
            tags_added: texts(self.tags_added@),
            tags_removed: texts(self.tags_removed@),
        }
    }
}


/// The line of changed tags, where there are some.
pub open spec fn tags_line(
    locale: Locale,
    english: Seq<char>,
    chinese: Seq<char>,
    tags: Seq<Seq<char>>,
) -> Seq<Seq<char>> {
    if tags.len() == 0 {
        seq![]
    } else {
        seq![
            in_locale(locale, english, chinese) + ": "@ + join(
                tags,
                in_locale(locale, ", "@, "、"@),
            ),
        ]
    }
}

/// The lines of an evaluation.
pub open spec fn update_lines(log: UpdateLogModel, locale: Locale) -> Seq<Seq<char>> {
    let changed = log.score_moved || log.tags_added.len() > 0 || log.tags_removed.len() > 0;
    seq![
        if changed {
            in_locale(locale, "[Affection: changed]"@, "【好感度：发生变化】"@)
        } else {
            in_locale(locale, "[Affection: unchanged]"@, "【好感度：无变化】"@)
        },
        conversation_line(log.group_id, log.account_id, locale),
        user_line(log.sender_name, log.sender_id, locale),
        in_locale(locale, "Relationship: "@, "关系："@) + level_shown(log.level_before, locale)
            + in_locale(locale, " -> "@, " → "@) + level_shown(log.level_after, locale),
        in_locale(locale, "Score: "@, "分数："@) + log.score_before + in_locale(
            locale,
            " -> "@,
            " → "@,
        ) + log.score_after + in_locale(locale, " (actual change "@, "（实际变化 "@)
            + log.actual_delta + in_locale(locale, ")"@, "）"@),
        in_locale(locale, "Model delta: "@, "模型变化："@) + log.raw_delta + in_locale(
            locale,
            " (confidence "@,
            "（置信度 "@,
        ) + log.confidence + in_locale(locale, ")"@, "）"@),
        labelled(
            locale,
            "Reason: "@,
            "原因："@,
            or_if_blank(log.reason, in_locale(locale, "not provided by model"@, "模型未提供"@)),
        ),
    ] + tags_line(locale, "Tags added"@, "新增标签"@, log.tags_added) + tags_line(
        locale,
        "Tags removed"@,
        "删除标签"@,
        log.tags_removed,
    )
}

fn push_tags(lines: &mut Vec<String>, locale: Locale, english: &str, chinese: &str, tags: &Vec<String>)
    ensures
        texts(final(lines)@) == texts(old(lines)@) + tags_line(
            locale,
            english@,
            chinese@,
            texts(tags@),
        ),
{
    if tags.len() > 0 {
        let mut line: String = text_for(locale, english, chinese).to_owned();
        line.append(": ");
        let all: String = joined(tags, text_for(locale, ", ", "、"));
        line.append(&all);
        push_line(lines, line);
    }
    assert(texts(lines@) =~= texts(old(lines)@) + tags_line(
        locale,
        english@,
        chinese@,
        texts(tags@),
    ));
}

/// The log of an evaluation.
pub fn format_affection_update_log(log: &UpdateLog, locale: Locale) -> (r: String)
    ensures
        r@ == join(update_lines(log@, locale), "\n"@),
{
    let changed: bool = log.score_moved || log.tags_added.len() > 0 || log.tags_removed.len() > 0;
    let mut lines: Vec<String> = Vec::new();
    let head: &str = if changed {
        text_for(locale, "[Affection: changed]", "【好感度：发生变化】")
    } else {
        text_for(locale, "[Affection: unchanged]", "【好感度：无变化】")
    };
    lines.push(head.to_owned());
    lines.push(format_conversation(&log.group_id, &log.account_id, locale));
    lines.push(format_user(&log.sender_name, &log.sender_id, locale));
    let mut level: String = text_for(locale, "Relationship: ", "关系：").to_owned();
    level.append(localized_level(&log.level_before, locale));
    level.append(text_for(locale, " -> ", " → "));
    level.append(localized_level(&log.level_after, locale));
    lines.push(level);
    let mut score: String = text_for(locale, "Score: ", "分数：").to_owned();
    score.append(&log.score_before);
    score.append(text_for(locale, " -> ", " → "));
    score.append(&log.score_after);
    score.append(text_for(locale, " (actual change ", "（实际变化 "));
    score.append(&log.actual_delta);
    score.append(text_for(locale, ")", "）"));
    lines.push(score);
    let mut model: String = text_for(locale, "Model delta: ", "模型变化：").to_owned();
    model.append(&log.raw_delta);
    model.append(text_for(locale, " (confidence ", "（置信度 "));
    model.append(&log.confidence);
    model.append(text_for(locale, ")", "）"));
    lines.push(model);
    let reason: &str = empty_log_value(
        &log.reason,
        text_for(locale, "not provided by model", "模型未提供"),
    );
    lines.push(label(locale, "Reason: ", "原因：", reason));
    let ghost head_lines = update_lines(log@, locale).take(7);
    assert(texts(lines@) =~= head_lines);
    push_tags(&mut lines, locale, "Tags added", "新增标签", &log.tags_added);
    push_tags(&mut lines, locale, "Tags removed", "删除标签", &log.tags_removed);
    assert(texts(lines@) =~= update_lines(log@, locale));
    joined(&lines, "\n")
}

/// The reason why an evaluation did not take place, in words.
pub open spec fn skip_reason(reason: Seq<char>, locale: Locale) -> Seq<char> {
    if reason == "queue_full"@ {
        in_locale(locale, "update queue is full"@, "更新队列已满"@)
    } else if reason == "queue_closed"@ {
        in_locale(locale, "update queue is closed"@, "更新队列已关闭"@)
    } else if reason == "low_confidence"@ {
        in_locale(locale, "confidence below threshold"@, "置信度不足"@)
    } else if reason == "profile_missing"@ {
        in_locale(locale, "relationship profile does not exist"@, "关系档案不存在"@)
    } else if reason == "auto_update_disabled"@ {
        in_locale(locale, "automatic updates are disabled"@, "自动更新已关闭"@)
    } else {
        reason
    }
}

/// The reason why an evaluation did not take place, in words.
pub fn skip_reason_text<'a>(reason: &'a str, locale: Locale) -> (r: &'a str)
    ensures
        r@ == skip_reason(reason@, locale),
{
    if same(reason, "queue_full") {
        text_for(locale, "update queue is full", "更新队列已满")
    } else if same(reason, "queue_closed") {
        text_for(locale, "update queue is closed", "更新队列已关闭")
    } else if same(reason, "low_confidence") {
        text_for(locale, "confidence below threshold", "置信度不足")
    } else if same(reason, "profile_missing") {
        text_for(locale, "relationship profile does not exist", "关系档案不存在")
    } else if same(reason, "auto_update_disabled") {
        text_for(locale, "automatic updates are disabled", "自动更新已关闭")
    } else {
        reason
    }
}

/// The line of a number, where it is given.
pub open spec fn number_line(
    locale: Locale,
    english: Seq<char>,
    chinese: Seq<char>,
    value: Option<Seq<char>>,
) -> Seq<Seq<char>> {
    match value {
        Some(v) => seq![labelled(locale, english, chinese, v)],
        None => seq![],
    }
}

/// The lines of an evaluation that did not take place. Numbers have two decimals.
pub open spec fn skipped_lines(
    account_id: Seq<char>,
    group_id: Seq<char>,
    sender_name: Seq<char>,
    sender_id: Seq<char>,
    reason: Seq<char>,
    confidence: Option<Seq<char>>,
    threshold: Option<Seq<char>>,
    locale: Locale,
) -> Seq<Seq<char>> {
    seq![
        in_locale(locale, "[Affection: evaluation skipped]"@, "【好感度：评估跳过】"@),
        conversation_line(group_id, account_id, locale),
        user_line(sender_name, sender_id, locale),
        labelled(locale, "Reason: "@, "原因："@, skip_reason(reason, locale)),
    ] + number_line(locale, "Confidence: "@, "置信度："@, confidence) + number_line(
        locale,
        "Threshold: "@,
        "阈值："@,
        threshold,
    )
}

fn push_number(
    lines: &mut Vec<String>,
    locale: Locale,
    english: &str,
    chinese: &str,
    value: &Option<String>,
)
    ensures
        texts(final(lines)@) == texts(old(lines)@) + number_line(
            locale,
            english@,
            chinese@,
            opt_text(*value),
        ),
{
    if let Some(v) = value {
        push_line(lines, label(locale, english, chinese, v));
    }
    assert(texts(lines@) =~= texts(old(lines)@) + number_line(
        locale,
        english@,
        chinese@,
        opt_text(*value),
    ));
}

/// The log of an evaluation that did not take place.
pub fn format_affection_skipped_log(
    account_id: &str,
    group_id: &str,
    sender_name: &str,
    sender_id: &str,
    reason: &str,
    confidence: &Option<String>,
    threshold: &Option<String>,
    locale: Locale,
) -> (r: String)
    ensures
        r@ == join(
            skipped_lines(
                account_id@,
                group_id@,
                sender_name@,
                sender_id@,
                reason@,
                opt_text(*confidence),
                opt_text(*threshold),
                locale,
            ),
            "\n"@,
        ),
{
    let mut lines: Vec<String> = Vec::new();
    lines.push(
        text_for(locale, "[Affection: evaluation skipped]", "【好感度：评估跳过】").to_owned(),
    );
    lines.push(format_conversation(group_id, account_id, locale));
    lines.push(format_user(sender_name, sender_id, locale));
    lines.push(label(locale, "Reason: ", "原因：", skip_reason_text(reason, locale)));
    let ghost all = skipped_lines(
        account_id@,
        group_id@,
        sender_name@,
        sender_id@,
        reason@,
        opt_text(*confidence),
        opt_text(*threshold),
        locale,
    );
    assert(texts(lines@) =~= all.take(4));
    push_number(&mut lines, locale, "Confidence: ", "置信度：", confidence);
    push_number(&mut lines, locale, "Threshold: ", "阈值：", threshold);
    assert(texts(lines@) =~= all);
    joined(&lines, "\n")
}

/// The lines of an evaluation that failed.
pub open spec fn failure_lines(
    account_id: Seq<char>,
    group_id: Seq<char>,
    sender_name: Seq<char>,
    sender_id: Seq<char>,
    stage: Seq<char>,
    error: Seq<char>,
    max_chars: nat,
    locale: Locale,
) -> Seq<Seq<char>> {
    seq![
        in_locale(locale, "[Affection: update failed]"@, "【好感度：更新失败】"@),
        conversation_line(group_id, account_id, locale),
        user_line(sender_name, sender_id, locale),
        labelled(locale, "Stage: "@, "阶段："@, stage),
        labelled(locale, "Error: "@, "错误："@, single_line(error, max_chars)),
    ]
}

/// The log of an evaluation that failed; the error stands on one line.
pub fn format_affection_failure_log(
    account_id: &str,
    group_id: &str,
    sender_name: &str,
    sender_id: &str,
    stage: &str,
    error: &str,
    max_chars: usize,
    locale: Locale,
) -> (r: String)
    ensures
        r@ == join(
            failure_lines(
                account_id@,
                group_id@,
                sender_name@,
                sender_id@,
                stage@,
                error@,
                max_chars as nat,
                locale,
            ),
            "\n"@,
        ),
{
    let mut lines: Vec<String> = Vec::new();
    lines.push(text_for(locale, "[Affection: update failed]", "【好感度：更新失败】").to_owned());
    lines.push(format_conversation(group_id, account_id, locale));
    lines.push(format_user(sender_name, sender_id, locale));
    lines.push(label(locale, "Stage: ", "阶段：", stage));
    let flat: String = bounded_single_line(error, max_chars);
    lines.push(label(locale, "Error: ", "错误：", &flat));
    assert(texts(lines@) =~= failure_lines(
        account_id@,
        group_id@,
        sender_name@,
        sender_id@,
        stage@,
        error@,
        max_chars as nat,
        locale,
    ));
    joined(&lines, "\n")
}

/// The tags that an event changed, in words.
pub open spec fn tag_suffix(added: Seq<Seq<char>>, removed: Seq<Seq<char>>) -> Seq<char> {
    let parts = (if added.len() == 0 {
        seq![]
    } else {
        seq!["新增标签 "@ + join(added, "、"@)]
    }) + (if removed.len() == 0 {
        seq![]
    } else {
        seq!["删除标签 "@ + join(removed, "、"@)]
    });
    if parts.len() == 0 {
        seq![]
    } else {
        "；"@ + join(parts, "；"@)
    }
}

/// The tags that an event changed, in words; nothing where it changed none.
pub fn tag_change_suffix(added: &Vec<String>, removed: &Vec<String>) -> (r: String)
    ensures
        r@ == tag_suffix(texts(added@), texts(removed@)),
{
    let mut parts: Vec<String> = Vec::new();
    if added.len() > 0 {
        let mut s: String = "新增标签 ".to_owned();
        let all: String = joined(added, "、");
        s.append(&all);
        parts.push(s);
    }
    if removed.len() > 0 {
        let mut s: String = "删除标签 ".to_owned();
        let all: String = joined(removed, "、");
        s.append(&all);
        parts.push(s);
    }
    let ghost wanted = (if added.len() == 0 {
        seq![]
    } else {
        seq!["新增标签 "@ + join(texts(added@), "、"@)]
    }) + (if removed.len() == 0 {
        seq![]
    } else {
        seq!["删除标签 "@ + join(texts(removed@), "、"@)]
    });
    assert(texts(parts@) =~= wanted);
    if parts.len() == 0 {
        return String::new();
    }
    let mut out: String = "；".to_owned();
    let all: String = joined(&parts, "；");
    out.append(&all);
    out
}

/// When a change took place: its local time, where the calendar has it.
pub open spec fn change_time(local: Option<Seq<char>>) -> Seq<char> {
    match local {
        Some(s) => s,
        None => "未知时间"@,
    }
}

/// When a change took place, given its local time.
pub fn change_time_text(local: Option<String>) -> (r: String)
    ensures
        r@ == change_time(opt_text(local)),
{
    match local {
        Some(s) => s,
        None => "未知时间".to_owned(),
    }
}

/// When a change took place, to the minute on the local clock. What the clock of this
/// machine shows at that time is taken.
pub fn format_timestamp(timestamp: i64) -> (r: String)
    ensures
        exists|local: Option<String>|
            #[trigger] clock_shows(timestamp, false, local) && r@ == change_time(opt_text(local)),
        utc_rfc3339(timestamp) is None ==> r@ == "未知时间"@,
        utc_rfc3339(timestamp) is Some ==> is_clock_text(r@, false) && reads_near(
            r@,
            false,
            timestamp,
        ),
{
    let local: Option<String> = local_minute(timestamp);
    change_time_text(local)
}

// ---------------------------------------------------------------------------
// What the log tells

/// The level of a relationship has one name in each language, and one leads back to the
/// other.
pub proof fn law_levels_are_told_apart()
    ensures
        level_shown("estranged"@, Locale::Zh) == "刻意疏远"@ && level_in("刻意疏远"@, Locale::En)
            == "estranged"@,
        level_shown("cold"@, Locale::Zh) == "冷漠"@ && level_in("冷漠"@, Locale::En) == "cold"@,
        level_shown("neutral"@, Locale::Zh) == "中立"@ && level_in("中立"@, Locale::En) == "neutral"@,
        level_shown("acquainted"@, Locale::Zh) == "认识"@ && level_in("认识"@, Locale::En)
            == "acquainted"@,
        level_shown("friend"@, Locale::Zh) == "好友"@ && level_in("好友"@, Locale::En) == "friend"@,
        level_shown("trusted"@, Locale::Zh) == "信任"@ && level_in("信任"@, Locale::En) == "trusted"@,
        level_shown("close"@, Locale::Zh) == "亲近"@ && level_in("亲近"@, Locale::En) == "close"@,
        forall|l: Seq<char>| #[trigger] level_shown(l, Locale::En) == l,
        forall|l: Seq<char>| #[trigger] level_in(l, Locale::Zh) == l,
{
    reveal_strlit("estranged");
    reveal_strlit("cold");
    reveal_strlit("neutral");
    reveal_strlit("acquainted");
    reveal_strlit("friend");
    reveal_strlit("trusted");
    reveal_strlit("close");
    assert("estranged"@[0] == 'e' && "cold"@[0] == 'c' && "neutral"@[0] == 'n');
    assert("acquainted"@[0] == 'a' && "friend"@[0] == 'f' && "trusted"@[0] == 't');
    assert("close"@[0] == 'c' && "cold"@.len() == 4 && "close"@.len() == 5);
    reveal_strlit("刻意疏远");
    reveal_strlit("冷漠");
    reveal_strlit("中立");
    reveal_strlit("认识");
    reveal_strlit("好友");
    reveal_strlit("信任");
    reveal_strlit("亲近");
    assert("刻意疏远"@[0] == '刻' && "冷漠"@[0] == '冷' && "中立"@[0] == '中');
    assert("认识"@[0] == '认' && "好友"@[0] == '好' && "信任"@[0] == '信' && "亲近"@[0] == '亲');
}

proof fn lemma_user_line(name: Seq<char>, id: Seq<char>, locale: Locale)
    ensures
        occurs(user_line(name, id, locale), id),
        trim(name).len() > 0 ==> occurs(user_line(name, id, locale), name),
{
    let (a, b, c) = match locale {
        Locale::Zh => ("用户："@, "（QQ "@, "）"@),
        Locale::En => ("User: "@, " (QQ "@, ")"@),
    };
    let n = or_if_blank(
        name,
        match locale {
            Locale::Zh => "未知用户"@,
            Locale::En => "unknown user"@,
        },
    );
    law_writing_on_loses_nothing(a, n);
    law_writing_on_loses_nothing(a + n, b);
    law_writing_on_loses_nothing(a + n + b, id);
    law_writing_on_loses_nothing(a + n + b + id, c);
}

/// The log of a first meeting says who it was and where the relationship starts.
#[verifier::rlimit(60)]
pub proof fn law_a_first_meeting_is_told(
    account_id: Seq<char>,
    group_id: Seq<char>,
    name: Seq<char>,
    id: Seq<char>,
    persona: Seq<char>,
    score: Seq<char>,
    level: Seq<char>,
    locale: Locale,
)
    ensures
        ({
            let lines = initialized_lines(
                account_id,
                group_id,
                name,
                id,
                persona,
                score,
                level,
                locale,
            );
            let zh = locale == Locale::Zh;
            &&& lines.len() == 6
            &&& zh ==> lines[0] == "【好感度：初始化】"@
            &&& !zh ==> lines[0] == "[Affection: initialized]"@
            &&& occurs(lines[2], id)
            &&& trim(name).len() > 0 ==> occurs(lines[2], name)
            &&& trim(persona).len() > 0 ==> occurs(lines[3], persona)
            &&& occurs(lines[4], level_shown(level, locale))
            &&& occurs(lines[5], score)
        }),
{
    lemma_user_line(name, id, locale);
    lemma_ends_with(
        in_locale(locale, "Persona: "@, "人格："@),
        or_if_blank(persona, "default"@),
    );
    lemma_ends_with(
        in_locale(locale, "Initial relationship: "@, "初始关系："@),
        level_shown(level, locale),
    );
    lemma_ends_with(in_locale(locale, "Initial score: "@, "初始分数："@), score);
}

/// The log of a change says whether there was one, what the relationship was and what it is,
/// by how much it moved, and why.
#[verifier::rlimit(60)]
pub proof fn law_a_change_is_told(log: UpdateLogModel, locale: Locale)
    ensures
        ({
            let lines = update_lines(log, locale);
            let changed = log.score_moved || log.tags_added.len() > 0 || log.tags_removed.len() > 0;
            let zh = locale == Locale::Zh;
            &&& lines.len() >= 7
            &&& zh && changed ==> lines[0] == "【好感度：发生变化】"@
            &&& zh && !changed ==> lines[0] == "【好感度：无变化】"@
            &&& !zh && changed ==> lines[0] == "[Affection: changed]"@
            &&& !zh && !changed ==> lines[0] == "[Affection: unchanged]"@
            &&& occurs(lines[2], log.sender_id)
            &&& zh ==> lines[3] == "关系："@ + level_shown(log.level_before, locale) + " → "@
                + level_shown(log.level_after, locale)
            &&& !zh ==> lines[3] == "Relationship: "@ + log.level_before + " -> "@ + log.level_after
            &&& occurs(lines[4], log.score_before) && occurs(lines[4], log.score_after) && occurs(
                lines[4],
                log.actual_delta,
            )
            &&& occurs(lines[5], log.raw_delta) && occurs(lines[5], log.confidence)
            &&& trim(log.reason).len() > 0 ==> occurs(lines[6], log.reason)
            &&& log.tags_added.len() > 0 ==> lines.len() >= 8 && occurs(
                lines[7],
                join(log.tags_added, in_locale(locale, ", "@, "、"@)),
            )
            &&& log.tags_removed.len() > 0 ==> occurs(
                lines.last(),
                join(log.tags_removed, in_locale(locale, ", "@, "、"@)),
            )
        }),
{
    lemma_user_line(log.sender_name, log.sender_id, locale);
    lemma_three_within(
        in_locale(locale, "Score: "@, "分数："@),
        log.score_before,
        in_locale(locale, " -> "@, " → "@),
        log.score_after,
        in_locale(locale, " (actual change "@, "（实际变化 "@),
        log.actual_delta,
        in_locale(locale, ")"@, "）"@),
    );
    lemma_two_within(
        in_locale(locale, "Model delta: "@, "模型变化："@),
        log.raw_delta,
        in_locale(locale, " (confidence "@, "（置信度 "@),
        log.confidence,
        in_locale(locale, ")"@, "）"@),
    );
    lemma_ends_with(
        in_locale(locale, "Reason: "@, "原因："@),
        or_if_blank(log.reason, in_locale(locale, "not provided by model"@, "模型未提供"@)),
    );
    let sep = in_locale(locale, ", "@, "、"@);
    lemma_ends_with(
        in_locale(locale, "Tags added"@, "新增标签"@) + ": "@,
        join(log.tags_added, sep),
    );
    lemma_ends_with(
        in_locale(locale, "Tags removed"@, "删除标签"@) + ": "@,
        join(log.tags_removed, sep),
    );
}

proof fn lemma_ends_with(a: Seq<char>, x: Seq<char>)
    ensures
        occurs(a + x, x),
{
    law_writing_on_loses_nothing(a, x);
}

proof fn lemma_two_within(a: Seq<char>, x: Seq<char>, b: Seq<char>, y: Seq<char>, c: Seq<char>)
    ensures
        occurs(a + x + b + y + c, x),
        occurs(a + x + b + y + c, y),
{
    law_writing_on_loses_nothing(a, x);
    law_writing_on_loses_nothing(a + x, b);
    law_writing_on_loses_nothing(a + x + b, y);
    law_writing_on_loses_nothing(a + x + b + y, c);
}

proof fn lemma_three_within(
    a: Seq<char>,
    x: Seq<char>,
    b: Seq<char>,
    y: Seq<char>,
    c: Seq<char>,
    z: Seq<char>,
    d: Seq<char>,
)
    ensures
        occurs(a + x + b + y + c + z + d, x),
        occurs(a + x + b + y + c + z + d, y),
        occurs(a + x + b + y + c + z + d, z),
{
    lemma_two_within(a, x, b, y, c);
    law_writing_on_loses_nothing(a + x + b + y + c, z);
    law_writing_on_loses_nothing(a + x + b + y + c + z, d);
}

/// The log of what was not judged, or went wrong, says who it was about and why.
#[verifier::rlimit(60)]
pub proof fn law_skips_and_failures_are_told(
    account_id: Seq<char>,
    group_id: Seq<char>,
    name: Seq<char>,
    id: Seq<char>,
    reason: Seq<char>,
    confidence: Seq<char>,
    threshold: Seq<char>,
    max: nat,
    locale: Locale,
)
    ensures
        ({
            let lines = skipped_lines(
                account_id,
                group_id,
                name,
                id,
                reason,
                Some(confidence),
                Some(threshold),
                locale,
            );
            let short = skipped_lines(account_id, group_id, name, id, reason, None, None, locale);
            let failed = failure_lines(account_id, group_id, name, id, reason, confidence, max, locale);
            &&& lines.len() == 6 && short.len() == 4
            &&& occurs(lines[2], id)
            &&& occurs(lines[3], skip_reason(reason, locale))
            &&& occurs(lines[4], confidence)
            &&& occurs(lines[5], threshold)
            &&& failed.len() == 5
            &&& occurs(failed[2], id)
            &&& occurs(failed[3], reason)
            &&& occurs(failed[4], single_line(confidence, max))
        }),
{
    lemma_user_line(name, id, locale);
    lemma_ends_with(in_locale(locale, "Reason: "@, "原因："@), skip_reason(reason, locale));
    lemma_ends_with(in_locale(locale, "Confidence: "@, "置信度："@), confidence);
    lemma_ends_with(in_locale(locale, "Threshold: "@, "阈值："@), threshold);
    lemma_ends_with(in_locale(locale, "Stage: "@, "阶段："@), reason);
    lemma_ends_with(
        in_locale(locale, "Error: "@, "错误："@),
        single_line(confidence, max),
    );
}

/// Every reason why something was not judged is told by its own words.
pub proof fn law_reasons_of_skips()
    ensures
        skip_reason("queue_full"@, Locale::Zh) == "更新队列已满"@,
        skip_reason("queue_closed"@, Locale::Zh) == "更新队列已关闭"@,
        skip_reason("low_confidence"@, Locale::Zh) == "置信度不足"@,
        skip_reason("profile_missing"@, Locale::Zh) == "关系档案不存在"@,
        skip_reason("auto_update_disabled"@, Locale::Zh) == "自动更新已关闭"@,
        skip_reason("queue_full"@, Locale::En) == "update queue is full"@,
        skip_reason("queue_closed"@, Locale::En) == "update queue is closed"@,
        skip_reason("low_confidence"@, Locale::En) == "confidence below threshold"@,
        skip_reason("profile_missing"@, Locale::En) == "relationship profile does not exist"@,
        skip_reason("auto_update_disabled"@, Locale::En) == "automatic updates are disabled"@,
{
    reveal_strlit("queue_full");
    reveal_strlit("queue_closed");
    reveal_strlit("low_confidence");
    reveal_strlit("profile_missing");
    reveal_strlit("auto_update_disabled");
    assert("queue_full"@.len() == 10 && "queue_closed"@.len() == 12);
    assert("low_confidence"@.len() == 14 && "profile_missing"@.len() == 15);
    assert("auto_update_disabled"@.len() == 20);
}

/// Tags that came and tags that went are told, each under what happened to them.
pub proof fn law_tags_that_changed_are_told(added: Seq<Seq<char>>, removed: Seq<Seq<char>>)
    ensures
        added.len() > 0 && removed.len() == 0 ==> tag_suffix(added, removed) == "；"@ + ("新增标签 "@
            + join(added, "、"@)),
        added.len() == 0 && removed.len() > 0 ==> tag_suffix(added, removed) == "；"@ + ("删除标签 "@
            + join(removed, "、"@)),
        added.len() == 0 && removed.len() == 0 ==> tag_suffix(added, removed).len() == 0,
        added.len() > 0 && removed.len() > 0 ==> tag_suffix(added, removed) == "；"@ + ("新增标签 "@
            + join(added, "、"@) + "；"@ + ("删除标签 "@ + join(removed, "、"@))),
{
    let a = "新增标签 "@ + join(added, "、"@);
    let b = "删除标签 "@ + join(removed, "、"@);
    let none = Seq::<Seq<char>>::empty();
    assert(none + seq![b] =~= seq![b]);
    assert(seq![a] + none =~= seq![a]);
    assert(seq![a] + seq![b] =~= seq![a, b]);
    assert(seq![a, b].drop_last() =~= seq![a]);
    assert(join(seq![a], "；"@) == a);
    assert(join(seq![b], "；"@) == b);
    assert(join(seq![a, b], "；"@) == a + "；"@ + b);
}

} // verus!
