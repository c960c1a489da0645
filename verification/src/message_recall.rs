//! Withdrawing messages: which message is meant, whether it may be withdrawn, what
//! is answered, and the memory of what was withdrawn.

use crate::arguments::{Argument, Arguments, Scalar};
use crate::group_management::tools::BotGroupRole;
use crate::numbers::{
    all_digits, decimal, decimal_int, decimal_int_text, decimal_text, digits_only, i64_value,
    law_decimal_reads_back, law_numbers_read_back, parse_i64,
};
use crate::platform::{
    Conversation, ConversationKind, ConversationModel, Media, MediaKind, MediaModel, MessageInfo,
    MessageInfoModel,
};
use crate::text::{
    chars_of, contains_text, first_chars, is_blank, is_empty_text, join, joined, law_trimmed_stays,
    occurs, opt_text, opt_view, same, slice_text, text_or_none, text_words, texts, trim, trimmed, words,
};
use vstd::prelude::*;
use vstd::string::*;

verus! {

/// How many characters of a withdrawn message are shown.
pub const LOG_PREVIEW_CHARS: usize = 80;

// ---------------------------------------------------------------------------
// Message ids

/// The message id that a value spells, or why it spells none; an empty text is no
/// id yet no error.
pub open spec fn message_id_value(v: Scalar) -> Result<Seq<char>, Seq<char>> {
    match v {
        Scalar::Text(s) => checked_id(trim(s@)),
        Scalar::Unsigned(n) => checked_id(decimal(n as nat)),
        Scalar::Negative(n) => checked_id(decimal_int(n as int)),
        Scalar::Fraction(s) => checked_id(s@),
        _ => Err("message_id must be a numeric string or integer"@),
    }
}

/// An id without its minus sign.
pub open spec fn without_minus(id: Seq<char>) -> Seq<char> {
    if id.len() > 0 && id[0] == '-' {
        id.subrange(1, id.len() as int)
    } else {
        id
    }
}

/// `id` if it is a message id: an optional minus sign and digits, in the range of
/// an `i32`.
pub open spec fn checked_id(id: Seq<char>) -> Result<Seq<char>, Seq<char>> {
    if id.len() == 0 {
        Ok(id)
    } else if !all_digits(without_minus(id)) {
        Err("message_id must be numeric"@)
    } else {
        match i64_value(id) {
            None => Err("message_id is outside the supported numeric range"@),
            Some(n) => if n > i32::MAX || n < i32::MIN {
                Err("message_id is outside the supported OneBot range"@)
            } else {
                Ok(id)
            },
        }
    }
}

fn check_id(id: String) -> (r: Result<String, String>)
    ensures
        match r {
            Ok(s) => checked_id(id@) == Ok::<Seq<char>, Seq<char>>(s@),
            Err(e) => checked_id(id@) == Err::<Seq<char>, Seq<char>>(e@),
        },
{
    let v: Vec<char> = chars_of(&id);
    if v.len() == 0 {
        return Ok(id);
    }
    let lo: usize = if v[0] == '-' { 1 } else { 0 };
    let digits: String = slice_text(&v, lo, v.len());
    assert(digits@ =~= without_minus(id@));
    if !digits_only(&digits) {
        return Err("message_id must be numeric".to_owned());
    }
    match parse_i64(&id) {
        None => Err("message_id is outside the supported numeric range".to_owned()),
        Some(n) => if n > i32::MAX as i64 || n < i32::MIN as i64 {
            Err("message_id is outside the supported OneBot range".to_owned())
        } else {
            Ok(id)
        },
    }
}

/// The message id that a value spells.
pub fn parse_message_id_value(v: &Scalar) -> (r: Result<String, String>)
    ensures
        match r {
            Ok(s) => message_id_value(*v) == Ok::<Seq<char>, Seq<char>>(s@),
            Err(e) => message_id_value(*v) == Err::<Seq<char>, Seq<char>>(e@),
        },
{
    match v {
        Scalar::Text(s) => check_id(trimmed(s)),
        Scalar::Unsigned(n) => check_id(decimal_text(*n)),
        Scalar::Negative(n) => check_id(decimal_int_text(*n)),
        Scalar::Fraction(s) => check_id(s.clone()),
        _ => Err("message_id must be a numeric string or integer".to_owned()),
    }
}

/// The id that the argument `message_id` names, if any.
pub open spec fn explicit_id_spec(args: Arguments) -> Result<Option<Seq<char>>, Seq<char>> {
    match args.at("message_id"@) {
        None => Ok(None),
        Some(Argument::One(Scalar::Null)) => Ok(None),
        Some(Argument::List(_)) => Err("message_id must be a numeric string or integer"@),
        Some(Argument::One(v)) => match message_id_value(v) {
            Err(e) => Err(e),
            Ok(id) => if id.len() == 0 {
                Ok(None)
            } else {
                Ok(Some(id))
            },
        },
    }
}

/// The id that the argument `message_id` names, if any.
pub fn explicit_id(args: &Arguments) -> (r: Result<Option<String>, String>)
    ensures
        match r {
            Ok(id) => explicit_id_spec(*args) == Ok::<Option<Seq<char>>, Seq<char>>(opt_text(id)),
            Err(e) => explicit_id_spec(*args) == Err::<Option<Seq<char>>, Seq<char>>(e@),
        },
{
    match args.get("message_id") {
        None => Ok(None),
        Some(Argument::List(_)) => Err(
            "message_id must be a numeric string or integer".to_owned(),
        ),
        Some(Argument::One(v)) => match v {
            Scalar::Null => Ok(None),
            _ => match parse_message_id_value(v) {
                Err(e) => Err(e),
                Ok(id) => if is_empty_text(&id) {
                    Ok(None)
                } else {
                    Ok(Some(id))
                },
            },
        },
    }
}

/// The ids that the first `n` values of a list name, or the first reason why one
/// names none.
pub open spec fn listed_message_ids(list: Seq<Scalar>, n: nat) -> Result<Seq<Seq<char>>, Seq<char>>
    decreases n,
{
    if n == 0 {
        Ok(seq![])
    } else {
        match listed_message_ids(list, (n - 1) as nat) {
            Err(e) => Err(e),
            Ok(before) => match message_id_value(list[n - 1]) {
                Err(e) => Err(e),
                Ok(id) => if id.len() == 0 {
                    Err("message_ids must not contain empty entries"@)
                } else {
                    Ok(before.push(id))
                },
            },
        }
    }
}

/// The ids that the argument `message_ids` names.
pub open spec fn message_ids_spec(args: Arguments) -> Result<Seq<Seq<char>>, Seq<char>> {
    match args.at("message_ids"@) {
        Some(Argument::List(list)) => if list.len() > 20 {
            Err("message_ids supports at most 20 messages per call"@)
        } else {
            listed_message_ids(list@, list@.len())
        },
        _ => Ok(seq![]),
    }
}

proof fn lemma_listed_error(list: Seq<Scalar>, n: nat, m: nat)
    requires
        n <= m,
        listed_message_ids(list, n) is Err,
    ensures
        listed_message_ids(list, m) == listed_message_ids(list, n),
    decreases m,
{
    if n < m {
        lemma_listed_error(list, n, (m - 1) as nat);
    }
}

/// The ids that the argument `message_ids` names: at most twenty, none empty.
pub fn message_ids_arg(args: &Arguments) -> (r: Result<Vec<String>, String>)
    ensures
        match r {
            Ok(v) => message_ids_spec(*args) == Ok::<Seq<Seq<char>>, Seq<char>>(texts(v@)),
            Err(e) => message_ids_spec(*args) == Err::<Seq<Seq<char>>, Seq<char>>(e@),
        },
{
    let mut ids: Vec<String> = Vec::new();
    assert(texts(ids@) =~= seq![]);
    let list: &Vec<Scalar> = match args.get("message_ids") {
        Some(Argument::List(list)) => list,
        _ => {
            return Ok(ids);
        }
    };
    if list.len() > 20 {
        return Err("message_ids supports at most 20 messages per call".to_owned());
    }
    let mut i: usize = 0;
    while i < list.len()
        invariant
            i <= list.len(),
            listed_message_ids(list@, i as nat) == Ok::<Seq<Seq<char>>, Seq<char>>(texts(ids@)),
            message_ids_spec(*args) == listed_message_ids(list@, list@.len()),
        decreases list.len() - i,
    {
        match parse_message_id_value(&list[i]) {
            Err(e) => {
                proof {
                    lemma_listed_error(list@, (i + 1) as nat, list@.len());
                }
                return Err(e);
            }
            Ok(id) => {
                if is_empty_text(&id) {
                    proof {
                        lemma_listed_error(list@, (i + 1) as nat, list@.len());
                    }
                    return Err("message_ids must not contain empty entries".to_owned());
                }
                let ghost before = texts(ids@);
                ids.push(id);
                assert(texts(ids@) =~= before.push(id@));
            }
        }
        i += 1;
    }
    Ok(ids)
}

// ---------------------------------------------------------------------------
// The target

/// Where a target comes from.
#[derive(Clone, Copy, Debug, PartialEq, Eq, Structural)]
pub enum TargetSource {
    Argument,
    Reply,
}

impl TargetSource {
    /// The name of the source.
    pub open spec fn name(self) -> Seq<char> {
        match self {
            TargetSource::Argument => "argument"@,
            TargetSource::Reply => "reply"@,
        }
    }

    /// The name of the source.
    pub fn as_str(self) -> (r: &'static str)
        ensures
            r@ == self.name(),
    {
        match self {
            TargetSource::Argument => "argument",
            TargetSource::Reply => "reply",
        }
    }
}

/// The message that is meant.
pub struct RecallTarget {
    pub message_id: String,
    pub source: TargetSource,
}

/// What a [`RecallTarget`] holds, as values.
#[verifier::ext_equal]
pub struct RecallTargetModel {
    pub message_id: Seq<char>,
    pub source: TargetSource,
}

impl View for RecallTarget {
    type V = RecallTargetModel;

    open spec fn view(&self) -> RecallTargetModel {
        RecallTargetModel {
            message_id: self.message_id@,
            source: self.source,
        }
    }
}

impl RecallTarget {
    /// A value that holds the same.
    pub fn copy(&self) -> (r: RecallTarget)
        ensures
            r@ == self@,
    {
        RecallTarget {
            message_id: self.message_id.clone(),
            source: self.source,
        }
    }
}


/// The message replied to, unless its id is empty.
pub open spec fn reply_target(replied: Option<Seq<char>>) -> Option<Seq<char>> {
    match replied {
        Some(id) => if id.len() == 0 {
            None
        } else {
            Some(id)
        },
        None => None,
    }
}

/// The message replied to, unless its id is empty.
pub fn reply_id(replied: &Option<String>) -> (r: Option<String>)
    ensures
        opt_text(r) == reply_target(opt_text(*replied)),
{
    match replied {
        Some(id) => if is_empty_text(id) {
            None
        } else {
            Some(id.clone())
        },
        None => None,
    }
}

/// The message that is meant: the one replied to before the one that the call
/// names.
pub open spec fn selected(explicit: Option<Seq<char>>, reply: Option<Seq<char>>) -> Option<
    RecallTargetModel,
> {
    match reply {
        Some(id) => Some(RecallTargetModel { message_id: id, source: TargetSource::Reply }),
        None => match explicit {
            Some(id) => Some(RecallTargetModel { message_id: id, source: TargetSource::Argument }),
            None => None,
        },
    }
}

/// The message that is meant: the one replied to before the one that the call
/// names, since the reply is the platform's own word.
pub fn select_target(explicit: Option<String>, reply: Option<String>) -> (r: Result<
    RecallTarget,
    String,
>)
    ensures
        match r {
            Ok(t) => selected(opt_text(explicit), opt_text(reply)) == Some(t@),
            Err(e) => selected(opt_text(explicit), opt_text(reply)) is None && e@
                == "message_id or a replied-to message is required"@,
        },
{
    match reply {
        Some(id) => Ok(RecallTarget { message_id: id, source: TargetSource::Reply }),
        None => match explicit {
            Some(id) => Ok(RecallTarget { message_id: id, source: TargetSource::Argument }),
            None => Err("message_id or a replied-to message is required".to_owned()),
        },
    }
}

/// The message that is meant: one named in a batch stands as it is.
pub open spec fn resolved(
    forced: Option<Seq<char>>,
    explicit: Option<Seq<char>>,
    reply: Option<Seq<char>>,
) -> Option<RecallTargetModel> {
    match forced {
        Some(id) => Some(RecallTargetModel { message_id: id, source: TargetSource::Argument }),
        None => selected(explicit, reply),
    }
}

/// The message that is meant: one named in a batch stands as it is, whatever the
/// current message replies to.
pub fn resolve_target(
    forced_id: Option<String>,
    explicit: Option<String>,
    reply: Option<String>,
) -> (r: Result<RecallTarget, String>)
    ensures
        match r {
            Ok(t) => resolved(opt_text(forced_id), opt_text(explicit), opt_text(reply)) == Some(
                t@,
            ),
            Err(e) => resolved(opt_text(forced_id), opt_text(explicit), opt_text(reply)) is None
                && e@ == "message_id or a replied-to message is required"@,
        },
{
    match forced_id {
        Some(id) => Ok(RecallTarget { message_id: id, source: TargetSource::Argument }),
        None => select_target(explicit, reply),
    }
}

/// The message replied to, where it is the one with this id.
pub fn replied_info<'a>(replied: &'a Option<MessageInfo>, message_id: &str) -> (r: Option<
    &'a MessageInfo,
>)
    ensures
        match r {
            Some(m) => *replied == Some(*m) && m@.message_id == message_id@,
            None => match *replied {
                Some(m) => m@.message_id != message_id@,
                None => true,
            },
        },
{
    match replied {
        Some(m) => if same(&m.message_id, message_id) {
            Some(m)
        } else {
            None
        },
        None => None,
    }
}

/// Whether a message belongs to a conversation.
pub open spec fn belongs_to(c: ConversationModel, info: MessageInfoModel) -> bool {
    info.conversation_kind == Some(c.kind) && info.conversation_id == Some(c.conversation_id)
}

/// Whether a message belongs to a conversation; one whose conversation is not
/// known belongs to none.
pub fn belongs(c: &Conversation, info: &MessageInfo) -> (r: bool)
    ensures
        r == belongs_to(c@, info@),
{
    match (info.conversation_kind, &info.conversation_id) {
        (Some(kind), Some(id)) => kind == c.kind && same(id, &c.conversation_id),
        _ => false,
    }
}

// ---------------------------------------------------------------------------
// Showing a message

/// A sender's name with the number, or the number alone.
pub open spec fn sender_label_of(info: MessageInfoModel) -> Seq<char> {
    let name = trim(info.sender_display_name);
    if name.len() == 0 {
        info.sender_id
    } else {
        name + "("@ + info.sender_id + ")"@
    }
}

/// A sender's name with the number, or the number alone.
pub fn sender_label(info: &MessageInfo) -> (r: String)
    ensures
        r@ == sender_label_of(info@),
{
    let mut name: String = trimmed(&info.sender_display_name);
    if is_empty_text(&name) {
        return info.sender_id.clone();
    }
    name.append("(");
    name.append(&info.sender_id);
    name.append(")");
    name
}

/// The label of a kind of media.
pub open spec fn media_label(kind: MediaKind) -> Seq<char> {
    match kind {
        MediaKind::Image => "图片"@,
        MediaKind::Audio => "语音"@,
        MediaKind::Video => "视频"@,
        MediaKind::File => "文件"@,
        MediaKind::Emoji => "表情"@,
        MediaKind::Other => "附件"@,
    }
}

/// What stands for a piece of media in a line of text; a file keeps its name.
pub open spec fn placeholder(m: MediaModel) -> Seq<char> {
    let name = trim(text_or_none(m.name));
    if m.kind == MediaKind::File && name.len() > 0 {
        "["@ + media_label(m.kind) + " "@ + name + "]"@
    } else {
        "["@ + media_label(m.kind) + "]"@
    }
}

/// What stands for a piece of media in a line of text.
pub fn media_placeholder(m: &Media) -> (r: String)
    ensures
        r@ == placeholder(m@),
{
    let label: &str = match m.kind {
        MediaKind::Image => "图片",
        MediaKind::Audio => "语音",
        MediaKind::Video => "视频",
        MediaKind::File => "文件",
        MediaKind::Emoji => "表情",
        MediaKind::Other => "附件",
    };
    let raw: String = crate::text::copy_or_empty(&m.name);
    let name: String = trimmed(&raw);
    let mut out: String = "[".to_owned();
    out.append(label);
    if m.kind == MediaKind::File && !is_empty_text(&name) {
        out.append(" ");
        out.append(&name);
    }
    out.append("]");
    out
}

/// A text on one line: its words with single spaces, cut to `limit` characters
/// with an ellipsis.
pub open spec fn preview_of(s: Seq<char>, limit: nat) -> Seq<char> {
    let flat = join(words(s), " "@);
    if flat.len() <= limit {
        flat
    } else {
        flat.take(limit as int).push('…')
    }
}

/// A preview is at most one character longer than the limit.
pub proof fn law_preview_is_bounded(s: Seq<char>, limit: nat)
    ensures
        preview_of(s, limit).len() <= limit + 1,
{
}

/// A text on one line, cut to `limit` characters.
pub fn text_preview(text: &str, limit: usize) -> (r: String)
    ensures
        r@ == preview_of(text@, limit as nat),
{
    let parts: Vec<String> = text_words(text);
    let flat: String = joined(&parts, " ");
    if flat.as_str().unicode_len() <= limit {
        return flat;
    }
    let mut cut: String = first_chars(&flat, limit);
    cut.push('…');
    cut
}

/// The parts of a message's preview: its media, then its text unless blank.
pub open spec fn preview_parts(info: MessageInfoModel) -> Seq<Seq<char>> {
    let media = info.media.map_values(|m: MediaModel| placeholder(m));
    if trim(info.text).len() > 0 {
        media.push(info.text)
    } else {
        media
    }
}

/// A message on one line, its media as placeholders before its text.
pub open spec fn join_preview(info: MessageInfoModel, limit: nat) -> Seq<char> {
    preview_of(join(preview_parts(info), " "@), limit)
}

/// A message on one line, its media as placeholders before its text.
pub fn content_preview(info: &MessageInfo, limit: usize) -> (r: String)
    ensures
        r@ == join_preview(info@, limit as nat),
{
    let mut parts: Vec<String> = Vec::new();
    let ghost media = info@.media.map_values(|m: MediaModel| placeholder(m));
    let mut i: usize = 0;
    while i < info.media.len()
        invariant
            i <= info.media.len(),
            media == info@.media.map_values(|m: MediaModel| placeholder(m)),
            texts(parts@) =~= media.take(i as int),
        decreases info.media.len() - i,
    {
        let p: String = media_placeholder(&info.media[i]);
        let ghost before = texts(parts@);
        parts.push(p);
        assert(texts(parts@) =~= before.push(p@));
        assert(media[i as int] == p@);
        i += 1;
    }
    assert(media.take(i as int) =~= media);
    if !is_blank(&info.text) {
        parts.push(info.text.clone());
    }
    assert(texts(parts@) =~= preview_parts(info@));
    let line: String = joined(&parts, " ");
    text_preview(&line, limit)
}

// ---------------------------------------------------------------------------
// Answers

/// The answer to a request to withdraw a message.
pub struct RecallReply {
    pub success: bool,
    /// What kind of failure it is.
    pub code: Option<String>,
    pub retryable: Option<bool>,
    pub message: String,
    pub message_id: Option<String>,
    pub target_source: Option<String>,
    pub target_kind: Option<String>,
    pub already_recalled: bool,
    pub detail: Option<String>,
    pub content: Option<String>,
    pub sender_id: Option<String>,
    pub sender_display_name: Option<String>,
    pub reason: Option<String>,
}

/// What a [`RecallReply`] holds, as values.
#[verifier::ext_equal]
pub struct RecallReplyModel {
    pub success: bool,
    pub code: Option<Seq<char>>,
    pub retryable: Option<bool>,
    pub message: Seq<char>,
    pub message_id: Option<Seq<char>>,
    pub target_source: Option<Seq<char>>,
    pub target_kind: Option<Seq<char>>,
    pub already_recalled: bool,
    pub detail: Option<Seq<char>>,
    pub content: Option<Seq<char>>,
    pub sender_id: Option<Seq<char>>,
    pub sender_display_name: Option<Seq<char>>,
    pub reason: Option<Seq<char>>,
}

impl View for RecallReply {
    type V = RecallReplyModel;

    open spec fn view(&self) -> RecallReplyModel {
        RecallReplyModel {
            success: self.success,
            code: opt_text(self.code),
            retryable: self.retryable,
            message: self.message@,
            message_id: opt_text(self.message_id),
            target_source: opt_text(self.target_source),
            target_kind: opt_text(self.target_kind),
            already_recalled: self.already_recalled,
            detail: opt_text(self.detail),
            content: opt_text(self.content),
            sender_id: opt_text(self.sender_id),
            sender_display_name: opt_text(self.sender_display_name),
            reason: opt_text(self.reason),
        }
    }
}


/// An answer that says no more than whether it went well.
pub open spec fn plain_reply(success: bool, message: Seq<char>) -> RecallReplyModel {
    RecallReplyModel {
        success: success,
        code: None,
        retryable: None,
        message: message,
        message_id: None,
        target_source: None,
        target_kind: None,
        already_recalled: false,
        detail: None,
        content: None,
        sender_id: None,
        sender_display_name: None,
        reason: None,
    }
}

/// An answer that says no more than whether it went well.
pub fn response(success: bool, message: &str) -> (r: RecallReply)
    ensures
        r@ == plain_reply(success, message@),
{
    RecallReply {
        success: success,
        code: None,
        retryable: None,
        message: message.to_owned(),
        message_id: None,
        target_source: None,
        target_kind: None,
        already_recalled: false,
        detail: None,
        content: None,
        sender_id: None,
        sender_display_name: None,
        reason: None,
    }
}

/// The answer to a request that failed.
pub open spec fn failed_reply(code: Seq<char>, retryable: bool, message: Seq<char>) -> RecallReplyModel {
    RecallReplyModel {
        code: Some(code),
        retryable: Some(retryable),
        ..plain_reply(false, message)
    }
}

/// The answer to a request that failed.
pub fn failure_response(code: &str, retryable: bool, message: &str) -> (r: RecallReply)
    ensures
        r@ == failed_reply(code@, retryable, message@),
{
    RecallReply {
        code: Some(code.to_owned()),
        retryable: Some(retryable),
        ..response(false, message)
    }
}

/// The kind of a target: the assistant's own message or that of another.
pub open spec fn target_kind_of(own: bool) -> Seq<char> {
    if own {
        "gqy"@
    } else {
        "group_member"@
    }
}

/// Whether the platform's own decoding refused the request.
pub open spec fn decode_refused(detail: Seq<char>) -> bool {
    occurs(detail, "retcode=1200"@) && occurs(detail, "decode failed"@)
}

/// The answer when the platform refused to withdraw a message.
pub open spec fn refused_reply(
    detail: Seq<char>,
    target: RecallTargetModel,
    own: bool,
    content: Seq<char>,
) -> RecallReplyModel {
    let base = if decode_refused(detail) {
        failed_reply(
            "napcat_recall_decode_failed"@,
            false,
            "QQ 内核拒绝了撤回请求，消息没有被撤回。不要重试或改撤其他消息。"@,
        )
    } else {
        failed_reply(
            "qq_recall_failed"@,
            false,
            "QQ 撤回接口调用失败，消息没有被撤回。不要改撤其他消息。"@,
        )
    };
    RecallReplyModel {
        message_id: Some(target.message_id),
        target_source: Some(target.source.name()),
        target_kind: Some(target_kind_of(own)),
        content: Some(content),
        detail: Some(detail),
        ..base
    }
}

/// The answer when the platform refused to withdraw a message: never to be tried
/// again, and never said to have worked.
pub fn recall_failure_response(
    detail: &str,
    target: &RecallTarget,
    own: bool,
    content: &str,
) -> (r: RecallReply)
    ensures
        r@ == refused_reply(detail@, target@, own, content@),
{
    let decode: bool = contains_text(detail, "retcode=1200") && contains_text(
        detail,
        "decode failed",
    );
    let base: RecallReply = if decode {
        failure_response(
            "napcat_recall_decode_failed",
            false,
            "QQ 内核拒绝了撤回请求，消息没有被撤回。不要重试或改撤其他消息。",
        )
    } else {
        failure_response(
            "qq_recall_failed",
            false,
            "QQ 撤回接口调用失败，消息没有被撤回。不要改撤其他消息。",
        )
    };
    let kind: &str = if own { "gqy" } else { "group_member" };
    RecallReply {
        message_id: Some(target.message_id.clone()),
        target_source: Some(target.source.as_str().to_owned()),
        target_kind: Some(kind.to_owned()),
        content: Some(content.to_owned()),
        detail: Some(detail.to_owned()),
        ..base
    }
}

// ---------------------------------------------------------------------------
// Withdrawing one message, step by step

/// A request to withdraw one message.
pub struct RecallPlan {
    pub target: RecallTarget,
    pub reason: String,
}

/// What a [`RecallPlan`] holds, as values.
#[verifier::ext_equal]
pub struct RecallPlanModel {
    pub target: RecallTargetModel,
    pub reason: Seq<char>,
}

impl View for RecallPlan {
    type V = RecallPlanModel;

    open spec fn view(&self) -> RecallPlanModel {
        RecallPlanModel {
            target: self.target@,
            reason: self.reason@,
        }
    }
}


/// A request that has been understood, the answer to one that names no target, or
/// the error of one that cannot be read.
pub enum RecallStart {
    Plan(RecallPlan),
    Reply(RecallReply),
    Error(String),
}

/// The models of [`RecallStart`].
pub enum RecallStartModel {
    Plan(RecallPlanModel),
    Reply(RecallReplyModel),
    Error(Seq<char>),
}

impl View for RecallStart {
    type V = RecallStartModel;

    open spec fn view(&self) -> RecallStartModel {
        match *self {
            RecallStart::Plan(p) => RecallStartModel::Plan(p@),
            RecallStart::Reply(r) => RecallStartModel::Reply(r@),
            RecallStart::Error(e) => RecallStartModel::Error(e@),
        }
    }
}

/// What a request asks for: the target is settled before the reason is looked at.
pub open spec fn recall_start(
    forced: Option<Seq<char>>,
    args: Arguments,
    reply: Option<Seq<char>>,
    max_reason: nat,
) -> RecallStartModel {
    let explicit = if forced is Some {
        Ok(None)
    } else {
        explicit_id_spec(args)
    };
    match explicit {
        Err(e) => RecallStartModel::Error(e),
        Ok(id) => match resolved(forced, id, reply) {
            None => RecallStartModel::Reply(
                RecallReplyModel {
                    detail: Some("message_id or a replied-to message is required"@),
                    ..failed_reply(
                        "target_required"@,
                        false,
                        "无法确定目标消息。请回复需要撤回的消息后重试。"@,
                    )
                },
            ),
            Some(target) => match crate::group_management::args::reason_of(args, max_reason) {
                Err(e) => RecallStartModel::Error(e),
                Ok(reason) => RecallStartModel::Plan(
                    RecallPlanModel { target: target, reason: reason },
                ),
            },
        },
    }
}

/// What a request asks for. An id named in a batch is taken as it is; otherwise
/// the message replied to comes before the id that the call names.
pub fn withdraw_start(
    forced_id: Option<String>,
    args: &Arguments,
    reply: Option<String>,
    max_reason: usize,
) -> (r: RecallStart)
    ensures
        r@ == recall_start(opt_text(forced_id), *args, opt_text(reply), max_reason as nat),
{
    let explicit: Option<String> = match forced_id {
        Some(_) => None,
        None => match explicit_id(args) {
            Ok(id) => id,
            Err(e) => {
                return RecallStart::Error(e);
            }
        },
    };
    match resolve_target(forced_id, explicit, reply) {
        Err(e) => RecallStart::Reply(
            RecallReply {
                detail: Some(e),
                ..failure_response(
                    "target_required",
                    false,
                    "无法确定目标消息。请回复需要撤回的消息后重试。",
                )
            },
        ),
        Ok(target) => match crate::group_management::args::bounded_reason(args, max_reason) {
            Err(e) => RecallStart::Error(e),
            Ok(reason) => RecallStart::Plan(RecallPlan { target: target, reason: reason }),
        },
    }
}

/// The answer for a message that is known to be withdrawn already.
pub open spec fn recalled_reply(plan: RecallPlanModel) -> RecallReplyModel {
    RecallReplyModel {
        message_id: Some(plan.target.message_id),
        already_recalled: true,
        target_source: Some(plan.target.source.name()),
        ..plain_reply(true, "该消息此前已被撤回，无需重复操作"@)
    }
}

/// The answer for a message that is known to be withdrawn already.
pub fn already_recalled(plan: &RecallPlan) -> (r: RecallReply)
    ensures
        r@ == recalled_reply(plan@),
{
    RecallReply {
        message_id: Some(plan.target.message_id.clone()),
        already_recalled: true,
        target_source: Some(plan.target.source.as_str().to_owned()),
        ..response(true, "该消息此前已被撤回，无需重复操作")
    }
}

/// The answer for a message that cannot be looked up: `error` is what the lookup
/// failed with, nothing where there is no such message.
pub open spec fn lookup_failed_reply(
    target: RecallTargetModel,
    error: Option<Seq<char>>,
) -> RecallReplyModel {
    let base = match error {
        None => failed_reply(
            "message_not_found"@,
            false,
            "目标消息不存在或已无法查询（可能已被撤回或过期），请不要改撤其他消息。"@,
        ),
        Some(_) => failed_reply(
            "message_lookup_failed"@,
            false,
            "无法核验目标消息，未执行撤回，请不要改撤其他消息。"@,
        ),
    };
    RecallReplyModel {
        message_id: Some(target.message_id),
        target_source: Some(target.source.name()),
        detail: error,
        ..base
    }
}

/// The answer for a message that cannot be looked up.
pub fn lookup_failed(target: &RecallTarget, error: Option<String>) -> (r: RecallReply)
    ensures
        r@ == lookup_failed_reply(target@, opt_text(error)),
{
    let base: RecallReply = match &error {
        None => failure_response(
            "message_not_found",
            false,
            "目标消息不存在或已无法查询（可能已被撤回或过期），请不要改撤其他消息。",
        ),
        Some(_) => failure_response(
            "message_lookup_failed",
            false,
            "无法核验目标消息，未执行撤回，请不要改撤其他消息。",
        ),
    };
    RecallReply {
        message_id: Some(target.message_id.clone()),
        target_source: Some(target.source.as_str().to_owned()),
        detail: error,
        ..base
    }
}

/// Whether a role may withdraw the messages of others.
pub open spec fn can_manage(role: BotGroupRole) -> bool {
    role == BotGroupRole::Owner || role == BotGroupRole::Admin
}

/// Why a message may not be withdrawn; nothing where it may. `role` is the
/// assistant's role in the group, which matters only for the message of another.
pub open spec fn withdrawal_refusal(
    target: RecallTargetModel,
    info: MessageInfoModel,
    c: ConversationModel,
    role: BotGroupRole,
    content: Seq<char>,
) -> Option<RecallReplyModel> {
    if !belongs_to(c, info) {
        Some(
            RecallReplyModel {
                message_id: Some(target.message_id),
                target_source: Some(target.source.name()),
                content: Some(content),
                ..failed_reply("wrong_conversation"@, false, "目标消息不属于当前会话"@)
            },
        )
    } else if info.sender_id == c.account_id {
        None
    } else if c.kind != ConversationKind::Group {
        Some(
            RecallReplyModel {
                message_id: Some(target.message_id),
                ..failed_reply(
                    "permission_denied"@,
                    false,
                    "私聊中只能撤回 顾清影 自己发送的消息"@,
                )
            },
        )
    } else if !can_manage(role) {
        Some(
            RecallReplyModel {
                message_id: Some(target.message_id),
                ..failed_reply(
                    "permission_denied"@,
                    false,
                    "顾清影 不是当前群的管理员，无法撤回群友消息"@,
                )
            },
        )
    } else {
        None
    }
}

/// Whether the assistant's role has to be known to decide on a message.
pub fn needs_role(info: &MessageInfo, c: &Conversation) -> (r: bool)
    ensures
        r == (belongs_to(c@, info@) && info@.sender_id != c@.account_id && c@.kind
            == ConversationKind::Group),
{
    belongs(c, info) && !same(&info.sender_id, &c.account_id) && c.kind == ConversationKind::Group
}

/// Why a message may not be withdrawn; nothing where it may: it belongs to the
/// conversation, and it is the assistant's own, or the assistant manages the group.
pub fn check_withdrawal(
    target: &RecallTarget,
    info: &MessageInfo,
    c: &Conversation,
    role: BotGroupRole,
    content: &str,
) -> (r: Option<RecallReply>)
    ensures
        opt_view(r) == withdrawal_refusal(target@, info@, c@, role, content@),
{
    if !belongs(c, info) {
        return Some(
            RecallReply {
                message_id: Some(target.message_id.clone()),
                target_source: Some(target.source.as_str().to_owned()),
                content: Some(content.to_owned()),
                ..failure_response("wrong_conversation", false, "目标消息不属于当前会话")
            },
        );
    }
    if same(&info.sender_id, &c.account_id) {
        return None;
    }
    if c.kind != ConversationKind::Group {
        return Some(
            RecallReply {
                message_id: Some(target.message_id.clone()),
                ..failure_response(
                    "permission_denied",
                    false,
                    "私聊中只能撤回 顾清影 自己发送的消息",
                )
            },
        );
    }
    if !(role == BotGroupRole::Owner || role == BotGroupRole::Admin) {
        return Some(
            RecallReply {
                message_id: Some(target.message_id.clone()),
                ..failure_response(
                    "permission_denied",
                    false,
                    "顾清影 不是当前群的管理员，无法撤回群友消息",
                )
            },
        );
    }
    None
}

/// A message of another is withdrawn only from the group it belongs to, and only
/// where the assistant manages that group.
pub proof fn law_withdrawal_needs_authority(
    target: RecallTargetModel,
    info: MessageInfoModel,
    c: ConversationModel,
    role: BotGroupRole,
    content: Seq<char>,
)
    requires
        withdrawal_refusal(target, info, c, role, content) is None,
    ensures
        belongs_to(c, info),
        info.sender_id == c.account_id || (c.kind == ConversationKind::Group && can_manage(role)),
{
}

/// The answer once the platform was asked to withdraw a message: `error` is what
/// it failed with, `recorded` whether the message is known to be withdrawn by then.
pub open spec fn withdrawal_reply(
    plan: RecallPlanModel,
    info: MessageInfoModel,
    account_id: Seq<char>,
    error: Option<Seq<char>>,
    recorded: bool,
    content: Seq<char>,
) -> RecallReplyModel {
    let own = info.sender_id == account_id;
    match error {
        Some(detail) => if recorded {
            RecallReplyModel {
                message_id: Some(plan.target.message_id),
                already_recalled: true,
                ..plain_reply(true, "该消息已被（他人或此前的操作）撤回"@)
            }
        } else {
            refused_reply(detail, plan.target, own, content)
        },
        None => RecallReplyModel {
            message_id: Some(plan.target.message_id),
            sender_id: Some(info.sender_id),
            sender_display_name: Some(info.sender_display_name),
            target_kind: Some(target_kind_of(own)),
            reason: Some(plan.reason),
            target_source: Some(plan.target.source.name()),
            content: Some(content),
            ..plain_reply(true, "消息已撤回"@)
        },
    }
}

/// The answer once the platform was asked to withdraw a message.
pub fn withdraw_result(
    plan: &RecallPlan,
    info: &MessageInfo,
    account_id: &str,
    error: Option<String>,
    recorded: bool,
    content: &str,
) -> (r: RecallReply)
    ensures
        r@ == withdrawal_reply(plan@, info@, account_id@, opt_text(error), recorded, content@),
{
    let own: bool = same(&info.sender_id, account_id);
    match error {
        Some(detail) => {
            if recorded {
                return RecallReply {
                    message_id: Some(plan.target.message_id.clone()),
                    already_recalled: true,
                    ..response(true, "该消息已被（他人或此前的操作）撤回")
                };
            }
            recall_failure_response(&detail, &plan.target, own, content)
        }
        None => {
            let kind: &str = if own { "gqy" } else { "group_member" };
            RecallReply {
                message_id: Some(plan.target.message_id.clone()),
                sender_id: Some(info.sender_id.clone()),
                sender_display_name: Some(info.sender_display_name.clone()),
                target_kind: Some(kind.to_owned()),
                reason: Some(plan.reason.clone()),
                target_source: Some(plan.target.source.as_str().to_owned()),
                content: Some(content.to_owned()),
                ..response(true, "消息已撤回")
            }
        }
    }
}

/// The answer to a request to withdraw several messages.
pub struct BatchReply {
    pub success: bool,
    pub message: String,
    pub succeeded: usize,
    pub failed: usize,
}

/// What a [`BatchReply`] holds, as values.
#[verifier::ext_equal]
pub struct BatchReplyModel {
    pub success: bool,
    pub message: Seq<char>,
    pub succeeded: usize,
    pub failed: usize,
}

impl View for BatchReply {
    type V = BatchReplyModel;

    open spec fn view(&self) -> BatchReplyModel {
        BatchReplyModel {
            success: self.success,
            message: self.message@,
            succeeded: self.succeeded,
            failed: self.failed,
        }
    }
}


/// How many of the answers say that it went well.
pub open spec fn successes(outcomes: Seq<bool>) -> nat
    decreases outcomes.len(),
{
    if outcomes.len() == 0 {
        0
    } else {
        successes(outcomes.drop_last()) + (if outcomes.last() {
            1nat
        } else {
            0
        })
    }
}

/// The answer to a request to withdraw several messages, given how each went.
pub fn withdraw_summary(outcomes: &Vec<bool>) -> (r: BatchReply)
    ensures
        ({
            let good = successes(outcomes@);
            let bad = (outcomes.len() - good) as nat;
            r@ == (BatchReplyModel {
                success: bad == 0,
                message: "撤回 "@ + decimal(good) + " 条、失败 "@ + decimal(bad) + " 条"@,
                succeeded: good as usize,
                failed: bad as usize,
            })
        }),
{
    let mut good: usize = 0;
    let mut i: usize = 0;
    assert(outcomes@.take(0) =~= seq![]);
    while i < outcomes.len()
        invariant
            i <= outcomes.len(),
            good == successes(outcomes@.take(i as int)),
            good <= i,
        decreases outcomes.len() - i,
    {
        assert(outcomes@.take(i + 1).drop_last() =~= outcomes@.take(i as int));
        if outcomes[i] {
            good += 1;
        }
        i += 1;
    }
    assert(outcomes@.take(outcomes.len() as int) =~= outcomes@);
    let bad: usize = outcomes.len() - good;
    let good_text: String = decimal_text(good as u64);
    let bad_text: String = decimal_text(bad as u64);
    let mut message: String = "撤回 ".to_owned();
    message.append(&good_text);
    message.append(" 条、失败 ");
    message.append(&bad_text);
    message.append(" 条");
    BatchReply { success: bad == 0, message: message, succeeded: good, failed: bad }
}

// ---------------------------------------------------------------------------
// What a withdrawal is about

/// A message is named by its number, as digits or as a number, with a minus or without; what
/// the platform cannot have given out is refused.
pub proof fn law_message_ids_are_taken_as_written(s: String, n: u64)
    ensures
        n <= i32::MAX ==> message_id_value(Scalar::Unsigned(n)) == Ok::<Seq<char>, Seq<char>>(
            decimal(n as nat),
        ),
        n > i32::MAX ==> message_id_value(Scalar::Unsigned(n)) is Err,
        message_id_value(Scalar::Text(s)) is Ok ==> message_id_value(Scalar::Text(s))->Ok_0 == trim(
            s@,
        ),
        trim(s@).len() > 0 && !all_digits(trim(s@)) && trim(s@)[0] != '-' ==> message_id_value(
            Scalar::Text(s),
        ) is Err,
{
    law_decimal_reads_back(n as nat);
    law_numbers_read_back(n as int);
    let d = decimal(n as nat);
    assert(crate::text::is_digit(d[0]));
    assert(without_minus(d) == d);
}

/// The message that a withdrawal is about: in a batch the one that it is the turn of, else
/// the one that is replied to, else the one that the call names; where it comes from is told
/// with it.
pub proof fn law_the_message_that_is_meant(
    id: Seq<char>,
    explicit: Option<Seq<char>>,
    reply: Option<Seq<char>>,
)
    ensures
        resolved(Some(id), explicit, reply) is Some && resolved(
            Some(id),
            explicit,
            reply,
        )->0.message_id == id,
        resolved(None, explicit, Some(id)) is Some && resolved(None, explicit, Some(id))->0.message_id
            == id && resolved(None, explicit, Some(id))->0.source == TargetSource::Reply,
        resolved(None, Some(id), None) is Some && resolved(None, Some(id), None)->0.message_id == id
            && resolved(None, Some(id), None)->0.source == TargetSource::Argument,
        resolved(None, None, None) is None,
{
}

/// A withdrawal starts with the message that is meant and the reason of the call, and only
/// so.
pub proof fn law_a_withdrawal_starts_with_its_message(
    forced: Option<Seq<char>>,
    args: Arguments,
    reply: Option<Seq<char>>,
    max_reason: nat,
    why: String,
    n: u64,
)
    ensures
        ({
            let s = recall_start(forced, args, reply, max_reason);
            let no_reason = args.at("reason"@) is None;
            let reasoned = args.at("reason"@) == Some(Argument::One(Scalar::Text(why)));
            &&& forced is Some && no_reason ==> s is Plan && s->Plan_0.target.message_id == forced->0
            &&& forced is None && reply is Some && args.at("message_id"@) is None && no_reason ==> s
                is Plan && s->Plan_0.target.message_id == reply->0 && s->Plan_0.target.source
                == TargetSource::Reply
            &&& forced is None && reply is None && no_reason && n <= i32::MAX && args.at(
                "message_id"@,
            ) == Some(Argument::One(Scalar::Unsigned(n))) ==> s is Plan
                && s->Plan_0.target.message_id == decimal(n as nat) && s->Plan_0.target.source
                == TargetSource::Argument
            &&& forced is None && reply is None && args.at("message_id"@) is None ==> s is Reply
                && !s->Reply_0.success
            &&& s is Plan && reasoned ==> s->Plan_0.reason == trim(why@) && trim(why@).len()
                <= max_reason
            &&& s is Plan && no_reason ==> s->Plan_0.reason.len() == 0
            &&& s is Reply ==> !s->Reply_0.success
        }),
{
    law_message_ids_are_taken_as_written(why, n);
    law_decimal_reads_back(n as nat);
}

/// A batch names its messages one by one, in their order; one that is empty or no number, or
/// one message too many, refuses the whole of it.
pub proof fn law_a_batch_names_its_messages(args: Arguments, list: Vec<Scalar>)
    requires
        args.at("message_ids"@) == Some(Argument::List(list)),
    ensures
        ({
            let r = message_ids_spec(args);
            &&& list@.len() > 20 ==> r is Err
            &&& r is Ok ==> r->Ok_0.len() == list@.len() && forall|i: int|
                0 <= i < list@.len() ==> message_id_value(#[trigger] list@[i]) == Ok::<
                    Seq<char>,
                    Seq<char>,
                >(r->Ok_0[i]) && r->Ok_0[i].len() > 0
            &&& list@.len() <= 20 && (forall|i: int|
                0 <= i < list@.len() ==> message_id_value(#[trigger] list@[i]) is Ok
                    && message_id_value(list@[i])->Ok_0.len() > 0) ==> r is Ok
        }),
{
    lemma_listed(list@, list@.len());
}

proof fn lemma_listed(list: Seq<Scalar>, n: nat)
    requires
        n <= list.len(),
    ensures
        ({
            let r = listed_message_ids(list, n);
            &&& r is Ok ==> r->Ok_0.len() == n && forall|i: int|
                0 <= i < n ==> message_id_value(#[trigger] list[i]) == Ok::<Seq<char>, Seq<char>>(
                    r->Ok_0[i],
                ) && r->Ok_0[i].len() > 0
            &&& (forall|i: int|
                0 <= i < n ==> message_id_value(#[trigger] list[i]) is Ok && message_id_value(
                    list[i],
                )->Ok_0.len() > 0) ==> r is Ok
        }),
    decreases n,
{
    if n > 0 {
        lemma_listed(list, (n - 1) as nat);
        assert(list[n - 1] == list[n - 1]);
    }
}

/// What may be withdrawn is withdrawn: one's own message anywhere, and another's in a group
/// that the assistant manages; nothing else is, and each refusal says that it failed.
pub proof fn law_what_may_be_withdrawn(
    target: RecallTargetModel,
    info: MessageInfoModel,
    c: ConversationModel,
    role: BotGroupRole,
    content: Seq<char>,
)
    ensures
        ({
            let r = withdrawal_refusal(target, info, c, role, content);
            let here = info.conversation_kind == Some(c.kind) && info.conversation_id == Some(
                c.conversation_id,
            );
            let own = info.sender_id == c.account_id;
            let manages = c.kind == ConversationKind::Group && (role == BotGroupRole::Owner || role
                == BotGroupRole::Admin);
            &&& r is None <==> here && (own || manages)
            &&& r is Some ==> !r->0.success && r->0.message_id == Some(target.message_id)
                && r->0.retryable == Some(false) && !r->0.already_recalled
        }),
{
}

/// The answer to a withdrawal says that it succeeded just where the platform carried it out
/// or the message was gone already, tells which of these it was, and always names the
/// message.
pub proof fn law_the_answer_to_a_withdrawal(
    plan: RecallPlanModel,
    info: MessageInfoModel,
    account_id: Seq<char>,
    error: Option<Seq<char>>,
    recorded: bool,
    content: Seq<char>,
)
    ensures
        ({
            let r = withdrawal_reply(plan, info, account_id, error, recorded, content);
            &&& r.success <==> error is None || recorded
            &&& r.already_recalled <==> error is Some && recorded
            &&& r.message_id == Some(plan.target.message_id)
            &&& error is None ==> r.sender_id == Some(info.sender_id) && r.reason == Some(
                plan.reason,
            ) && r.content == Some(content)
            &&& error is Some && !recorded ==> r.detail == error && r.retryable == Some(false)
                && r.content == Some(content)
            &&& error is None || !recorded ==> ((r.target_kind == Some("gqy"@)) <==> info.sender_id
                == account_id)
        }),
{
    reveal_strlit("gqy");
    reveal_strlit("group_member");
    assert("gqy"@.len() != "group_member"@.len());
}

/// Every message of a batch counts once, as withdrawn or as failed.
pub proof fn law_batches_count_every_message(outcomes: Seq<bool>, more: Seq<bool>)
    ensures
        successes(outcomes + more) == successes(outcomes) + successes(more),
        successes(seq![true]) == 1,
        successes(seq![false]) == 0,
        successes(outcomes) <= outcomes.len(),
        successes(outcomes) == outcomes.len() <==> forall|i: int|
            0 <= i < outcomes.len() ==> #[trigger] outcomes[i],
    decreases more.len(), outcomes.len(),
{
    let none = Seq::<bool>::empty();
    assert(seq![true].drop_last() =~= none);
    assert(seq![false].drop_last() =~= none);
    assert(successes(none) == 0);
    if outcomes.len() > 0 && more.len() == 0 {
        law_batches_count_every_message(outcomes.drop_last(), more);
        assert(forall|i: int|
            0 <= i < outcomes.drop_last().len() ==> outcomes.drop_last()[i] == outcomes[i]);
        assert(outcomes.last() == outcomes[outcomes.len() - 1]);
    }
    if more.len() == 0 {
        assert(outcomes + more =~= outcomes);
    } else {
        law_batches_count_every_message(outcomes, more.drop_last());
        assert((outcomes + more).drop_last() =~= outcomes + more.drop_last());
    }
}

/// A preview shows the words of a message in their order: all of them where they are few
/// enough, else as many characters as may be and a mark that there is more.
pub proof fn law_previews_show_the_words(s: Seq<char>, limit: nat)
    ensures
        join(words(s), " "@).len() <= limit ==> preview_of(s, limit) == join(words(s), " "@),
        join(words(s), " "@).len() > limit ==> preview_of(s, limit).len() == limit + 1 && preview_of(
            s,
            limit,
        ).last() == '…' && preview_of(s, limit).drop_last().is_prefix_of(join(words(s), " "@)),
{
    let flat = join(words(s), " "@);
    if flat.len() > limit {
        assert(preview_of(s, limit).drop_last() =~= flat.take(limit as int));
    }
}

/// The sender of a message is told by name and number, or by number alone; and what is
/// answered is the message whose id is given.
pub proof fn law_senders_are_told(info: MessageInfoModel, id: Seq<char>)
    ensures
        trim(info.sender_display_name).len() > 0 ==> sender_label_of(info) == trim(
            info.sender_display_name,
        ) + "("@ + info.sender_id + ")"@,
        trim(info.sender_display_name).len() == 0 ==> sender_label_of(info) == info.sender_id,
        id.len() > 0 ==> reply_target(Some(id)) == Some(id),
        id.len() == 0 ==> reply_target(Some(id)) is None,
        reply_target(None) is None,
{
}

/// A message is shown by its attachments, each by its kind and a file by its name, and by its
/// text.
pub proof fn law_messages_are_previewed(m: MediaModel, info: MessageInfoModel, i: int)
    ensures
        m.kind == MediaKind::Image ==> placeholder(m) == "["@ + "图片"@ + "]"@,
        m.kind == MediaKind::Audio ==> placeholder(m) == "["@ + "语音"@ + "]"@,
        m.kind == MediaKind::Video ==> placeholder(m) == "["@ + "视频"@ + "]"@,
        m.kind == MediaKind::Emoji ==> placeholder(m) == "["@ + "表情"@ + "]"@,
        m.kind == MediaKind::Other ==> placeholder(m) == "["@ + "附件"@ + "]"@,
        m.kind == MediaKind::File && m.name is None ==> placeholder(m) == "["@ + "文件"@ + "]"@,
        m.kind == MediaKind::File && m.name is Some && trim(m.name->0).len() > 0 ==> placeholder(m)
            == "["@ + "文件"@ + " "@ + trim(m.name->0) + "]"@,
        0 <= i < info.media.len() ==> preview_parts(info)[i] == placeholder(info.media[i]),
        trim(info.text).len() > 0 ==> preview_parts(info).len() == info.media.len() + 1
            && preview_parts(info).last() == info.text,
        trim(info.text).len() == 0 ==> preview_parts(info).len() == info.media.len(),
        join_preview(info, 1000) == preview_of(join(preview_parts(info), " "@), 1000),
{
    law_trimmed_stays(Seq::<char>::empty());
}

} // verus!
