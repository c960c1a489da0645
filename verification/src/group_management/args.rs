//! Checking the arguments of the moderation tools, and putting their results
//! together.

use crate::arguments::{Argument, Arguments, Scalar};
use crate::numbers::{all_digits, clamp_u64, clamped, digits_only};
use crate::numbers::{decimal, decimal_text};
use crate::order::first_of;
use crate::platform::{GroupMember, GroupMemberModel};
use crate::text::{
    char_is_digit, chars_of, copy_opt, copy_texts, holds_text, is_digit, is_empty_text,
    law_plain_white_space, law_trimmed_stays, lemma_span, opt_text, same, slice_text, span, text_or_none, texts, trim, trimmed, views,
};
use vstd::prelude::*;
use vstd::string::*;

verus! {

/// How many targets one call may name.
pub const MAX_TARGETS: usize = 32;

/// The longest mute, in seconds: thirty days.
pub const MAX_BAN_SECONDS: u64 = 2592000;

/// A QQ number: five to twelve decimal digits.
pub open spec fn valid_id_spec(id: Seq<char>) -> bool {
    5 <= id.len() <= 12 && all_digits(id)
}

/// Whether `value` is a QQ number.
pub fn valid_id(value: &str) -> (r: bool)
    ensures
        r == valid_id_spec(value@),
{
    let n: usize = value.unicode_len();
    5 <= n && n <= 12 && digits_only(value)
}

/// Whether the filter lets an action through.
pub open spec fn action_matches_spec(filter: Seq<char>, action: Seq<char>) -> bool {
    if filter == "all"@ {
        true
    } else if filter == "ban"@ {
        action == "ban"@ || action == "unban"@
    } else if filter == "kick"@ {
        action == "kick"@ || action == "kick_black"@
    } else if filter == "title"@ {
        action == "title_set"@ || action == "title_clear"@
    } else {
        false
    }
}

/// Whether the filter lets an action through.
pub fn action_matches(filter: &str, action: &str) -> (r: bool)
    ensures
        r == action_matches_spec(filter@, action@),
{
    if same(filter, "all") {
        true
    } else if same(filter, "ban") {
        same(action, "ban") || same(action, "unban")
    } else if same(filter, "kick") {
        same(action, "kick") || same(action, "kick_black")
    } else if same(filter, "title") {
        same(action, "title_set") || same(action, "title_clear")
    } else {
        false
    }
}

/// The number of a single member that a query is about.
pub open spec fn optional_id_spec(args: Arguments) -> Option<Seq<char>> {
    match args.text_at("user_id"@) {
        Some(s) => if valid_id_spec(trim(s)) {
            Some(trim(s))
        } else {
            None
        },
        None => None,
    }
}

/// The number of a single member that a query is about, if a valid one is given.
pub fn optional_id(args: &Arguments) -> (r: Option<String>)
    ensures
        opt_text(r) == optional_id_spec(*args),
{
    match args.text("user_id") {
        Some(s) => {
            let id: String = trimmed(&s);
            if valid_id(&id) {
                Some(id)
            } else {
                None
            }
        }
        None => None,
    }
}

/// How many records a query asks for.
pub open spec fn limit_spec(args: Arguments) -> u64 {
    clamped(
        match args.unsigned_at("limit"@) {
            Some(n) => n,
            None => 20,
        },
        1,
        100,
    )
}

/// How many records a query asks for: twenty unless told, from one to a hundred.
pub fn limit(args: &Arguments) -> (r: usize)
    ensures
        r == limit_spec(*args),
{
    let asked: u64 = match args.unsigned("limit") {
        Some(n) => n,
        None => 20,
    };
    clamp_u64(asked, 1, 100) as usize
}

// ---------------------------------------------------------------------------
// Targets

pub open spec fn digit_class() -> spec_fn(char) -> bool {
    |c: char| is_digit(c)
}

/// A run of digits, where it is as long as a QQ number.
pub open spec fn sized_run(run: Seq<char>) -> Seq<Seq<char>> {
    if 5 <= run.len() <= 12 {
        seq![run]
    } else {
        seq![]
    }
}

/// The QQ numbers in `s`: its maximal runs of digits that are five to twelve long.
pub open spec fn id_runs(s: Seq<char>) -> Seq<Seq<char>>
    decreases s.len(),
{
    let n = span(s, digit_class()) as int;
    if 0 <= n < s.len() {
        sized_run(s.take(n)) + id_runs(s.subrange(n + 1, s.len() as int))
    } else {
        sized_run(s)
    }
}

/// Every number found in a text is a QQ number.
pub proof fn law_split_ids_are_valid(s: Seq<char>)
    ensures
        forall|i: int| 0 <= i < id_runs(s).len() ==> valid_id_spec(#[trigger] id_runs(s)[i]),
    decreases s.len(),
{
    crate::text::lemma_span_bounds(s, digit_class());
    let n = span(s, digit_class()) as int;
    if n < s.len() {
        let rest = s.subrange(n + 1, s.len() as int);
        law_split_ids_are_valid(rest);
        let head = sized_run(s.take(n));
        assert forall|i: int| 0 <= i < id_runs(s).len() implies valid_id_spec(
            #[trigger] id_runs(s)[i],
        ) by {
            if i >= head.len() {
                assert(id_runs(s)[i] == id_runs(rest)[i - head.len()]);
            } else {
                assert(id_runs(s)[i] == s.take(n));
                assert forall|j: int| 0 <= j < n implies is_digit(#[trigger] s.take(n)[j]) by {
                    assert(digit_class()(s[j]));
                }
            }
        }
    } else {
        assert forall|j: int| 0 <= j < s.len() implies is_digit(#[trigger] s[j]) by {
            assert(digit_class()(s[j]));
        }
    }
}

/// The QQ numbers in `value`.
pub fn split_ids(value: &str) -> (r: Vec<String>)
    ensures
        texts(r@) == id_runs(value@),
{
    let v: Vec<char> = chars_of(value);
    let mut out: Vec<String> = Vec::new();
    let mut at: usize = 0;
    assert(v@.subrange(0, v.len() as int) =~= value@);
    assert(texts(out@) + id_runs(value@) =~= id_runs(value@));
    loop
        invariant
            at <= v.len(),
            texts(out@) + id_runs(v@.subrange(at as int, v.len() as int)) == id_runs(value@),
        decreases v.len() - at,
    {
        let ghost rest = v@.subrange(at as int, v.len() as int);
        let ghost before = texts(out@);
        let mut hi: usize = at;
        while hi < v.len() && char_is_digit(v[hi])
            invariant
                at <= hi <= v.len(),
                forall|j: int| at <= j < hi ==> is_digit(#[trigger] v@[j]),
            decreases v.len() - hi,
        {
            hi += 1;
        }
        proof {
            lemma_span(rest, digit_class(), hi - at);
        }
        let run: String = slice_text(&v, at, hi);
        assert(rest.take(hi - at) =~= run@);
        if 5 <= hi - at && hi - at <= 12 {
            out.push(run);
        }
        assert(texts(out@) =~= before + sized_run(rest.take(hi - at)));
        if hi == v.len() {
            assert(rest.take(hi - at) =~= rest);
            return out;
        }
        assert(rest.subrange(hi - at + 1, rest.len() as int) =~= v@.subrange(
            hi + 1,
            v.len() as int,
        ));
        assert(texts(out@) + id_runs(v@.subrange(hi + 1, v.len() as int)) =~= before + id_runs(
            rest,
        ));
        at = hi + 1;
    }
}

/// The QQ numbers in the texts of a list, in order.
pub open spec fn listed_ids(list: Seq<Seq<char>>) -> Seq<Seq<char>>
    decreases list.len(),
{
    if list.len() == 0 {
        seq![]
    } else {
        listed_ids(list.drop_last()) + id_runs(list.last())
    }
}

/// Whom a message points at without naming a number.
pub struct TargetHints {
    /// The members mentioned.
    pub mentioned: Vec<String>,
    /// Who wrote the message replied to.
    pub replied_sender: Option<String>,
}

/// What a [`TargetHints`] holds, as values.
#[verifier::ext_equal]
pub struct TargetHintsModel {
    pub mentioned: Seq<Seq<char>>,
    pub replied_sender: Option<Seq<char>>,
}

impl View for TargetHints {
    type V = TargetHintsModel;

    open spec fn view(&self) -> TargetHintsModel {
        TargetHintsModel {
            mentioned: texts(self.mentioned@),
            replied_sender: opt_text(self.replied_sender),
        }
    }
}


/// The numbers that a call names, or else those that the message points at.
pub open spec fn named_targets(
    listed: Seq<Seq<char>>,
    explicit: Option<Seq<char>>,
    hints: Option<TargetHintsModel>,
) -> Seq<Seq<char>> {
    let from_list = listed_ids(listed);
    let single = trim(text_or_none(explicit));
    if single.len() > 0 {
        from_list + id_runs(single)
    } else if from_list.len() > 0 {
        from_list
    } else {
        match hints {
            None => seq![],
            Some(h) => if h.mentioned.len() > 0 {
                h.mentioned
            } else {
                match h.replied_sender {
                    Some(id) => seq![id],
                    None => seq![],
                }
            },
        }
    }
}

/// The valid numbers among `ids`, each once, without that of the assistant.
pub open spec fn kept_targets(ids: Seq<Seq<char>>, account_id: Seq<char>) -> Seq<Seq<char>>
    decreases ids.len(),
{
    if ids.len() == 0 {
        seq![]
    } else {
        let before = kept_targets(ids.drop_last(), account_id);
        let id = ids.last();
        if valid_id_spec(id) && id != account_id && !before.contains(id) {
            before.push(id)
        } else {
            before
        }
    }
}

/// The targets of a call.
pub open spec fn targets_of(
    listed: Seq<Seq<char>>,
    explicit: Option<Seq<char>>,
    hints: Option<TargetHintsModel>,
    account_id: Seq<char>,
) -> Seq<Seq<char>> {
    first_of(kept_targets(named_targets(listed, explicit, hints), account_id), MAX_TARGETS as nat)
}

/// A target is a valid number, never the assistant itself, and named once; there
/// are never more than the limit.
pub proof fn law_targets(
    listed: Seq<Seq<char>>,
    explicit: Option<Seq<char>>,
    hints: Option<TargetHintsModel>,
    account_id: Seq<char>,
)
    ensures
        ({
            let t = targets_of(listed, explicit, hints, account_id);
            &&& t.len() <= MAX_TARGETS
            &&& t.no_duplicates()
            &&& forall|i: int|
                0 <= i < t.len() ==> valid_id_spec(#[trigger] t[i]) && t[i] != account_id
        }),
{
    lemma_kept_targets(named_targets(listed, explicit, hints), account_id);
}

proof fn lemma_kept_targets(ids: Seq<Seq<char>>, account_id: Seq<char>)
    ensures
        kept_targets(ids, account_id).no_duplicates(),
        forall|i: int|
            0 <= i < kept_targets(ids, account_id).len() ==> valid_id_spec(
                #[trigger] kept_targets(ids, account_id)[i],
            ) && kept_targets(ids, account_id)[i] != account_id,
    decreases ids.len(),
{
    if ids.len() > 0 {
        lemma_kept_targets(ids.drop_last(), account_id);
    }
}

fn append_all(out: &mut Vec<String>, more: Vec<String>)
    ensures
        texts(final(out)@) == texts(old(out)@) + texts(more@),
{
    let mut rest: Vec<String> = more;
    out.append(&mut rest);
    assert(texts(out@) =~= texts(old(out)@) + texts(more@));
}

/// The targets of a call: the numbers in `listed` and in the argument `user_id`;
/// where neither names one, the members that the message mentions, or else the
/// sender of the message replied to. Invalid numbers, the assistant itself and
/// repetitions are dropped.
pub fn resolve_targets(
    listed: &Vec<String>,
    args: &Arguments,
    hints: &Option<TargetHints>,
    account_id: &str,
) -> (r: Result<Vec<String>, String>)
    ensures
        ({
            let t = targets_of(
                texts(listed@),
                args.text_at("user_id"@),
                crate::text::opt_view(*hints),
                account_id@,
            );
            match r {
                Ok(v) => t.len() > 0 && texts(v@) == t,
                Err(e) => t.len() == 0 && e@ == "未找到有效的目标 QQ 号"@,
            }
        }),
{
    let mut values: Vec<String> = Vec::new();
    let ghost all = texts(listed@);
    let mut i: usize = 0;
    assert(all.take(0) =~= seq![]);
    assert(texts(values@) =~= seq![]);
    while i < listed.len()
        invariant
            i <= listed.len(),
            all == texts(listed@),
            texts(values@) == listed_ids(all.take(i as int)),
        decreases listed.len() - i,
    {
        assert(all.take(i + 1).drop_last() =~= all.take(i as int));
        assert(all[i as int] == listed@[i as int]@);
        append_all(&mut values, split_ids(&listed[i]));
        i += 1;
    }
    assert(all.take(listed.len() as int) =~= all);
    let raw: String = args.text_or_empty("user_id");
    let single: String = trimmed(&raw);
    if !is_empty_text(&single) {
        append_all(&mut values, split_ids(&single));
    } else if values.len() == 0 {
        if let Some(h) = hints {
            append_all(&mut values, copy_texts(&h.mentioned));
            assert(texts(values@) =~= texts(h.mentioned@));
            if values.len() == 0 {
                if let Some(id) = &h.replied_sender {
                    values.push(id.clone());
                    assert(texts(values@) =~= seq![id@]);
                }
            }
        }
    }
    let ghost named = named_targets(
        all,
        args.text_at("user_id"@),
        crate::text::opt_view(*hints),
    );
    assert(texts(values@) =~= named);
    let mut kept: Vec<String> = Vec::new();
    let mut k: usize = 0;
    assert(named.take(0) =~= seq![]);
    assert(texts(kept@) =~= seq![]);
    while k < values.len()
        invariant
            k <= values.len(),
            named == texts(values@),
            texts(kept@) == kept_targets(named.take(k as int), account_id@),
        decreases values.len() - k,
    {
        assert(named.take(k + 1).drop_last() =~= named.take(k as int));
        assert(named[k as int] == values@[k as int]@);
        let id: &String = &values[k];
        if valid_id(id) && !same(id, account_id) && !holds_text(&kept, id) {
            let ghost before = texts(kept@);
            kept.push(id.clone());
            assert(texts(kept@) =~= before.push(id@));
        }
        k += 1;
    }
    assert(named.take(values.len() as int) =~= named);
    let ghost full = texts(kept@);
    if kept.len() > MAX_TARGETS {
        kept.truncate(MAX_TARGETS);
    }
    assert(texts(kept@) =~= first_of(full, MAX_TARGETS as nat));
    if kept.len() == 0 {
        return Err("未找到有效的目标 QQ 号".to_owned());
    }
    Ok(kept)
}

// ---------------------------------------------------------------------------
// Durations and reasons

/// A part of a duration, where it is not zero.
pub open spec fn duration_part(value: nat, unit: Seq<char>) -> Seq<char> {
    if value > 0 {
        decimal(value) + unit
    } else {
        seq![]
    }
}

/// A duration in words.
pub open spec fn duration_words(seconds: nat) -> Seq<char> {
    if seconds == 0 {
        "解禁"@
    } else {
        duration_part(seconds / 86400, "天"@) + duration_part(seconds % 86400 / 3600, "小时"@)
            + duration_part(seconds % 3600 / 60, "分钟"@) + duration_part(seconds % 60, "秒"@)
    }
}

fn push_part(out: &mut String, value: u64, unit: &str)
    ensures
        final(out)@ == old(out)@ + duration_part(value as nat, unit@),
{
    if value > 0 {
        let digits: String = decimal_text(value);
        out.append(&digits);
        out.append(unit);
    }
    assert(out@ =~= old(out)@ + duration_part(value as nat, unit@));
}

/// A mute's duration in words: days, hours, minutes and seconds, those that are
/// not zero.
pub fn humanize_seconds(seconds: u64) -> (r: String)
    ensures
        r@ == duration_words(seconds as nat),
{
    if seconds == 0 {
        return "解禁".to_owned();
    }
    assert(seconds % 86400 % 3600 == seconds % 3600);
    assert(seconds % 3600 % 60 == seconds % 60);
    let mut out: String = String::new();
    push_part(&mut out, seconds / 86400, "天");
    push_part(&mut out, seconds % 86400 / 3600, "小时");
    push_part(&mut out, seconds % 3600 / 60, "分钟");
    push_part(&mut out, seconds % 60, "秒");
    assert(out@ =~= duration_words(seconds as nat));
    out
}

/// The parts in which a duration is told add up to it.
pub proof fn law_duration_parts(seconds: nat)
    ensures
        seconds / 86400 * 86400 + seconds % 86400 / 3600 * 3600 + seconds % 3600 / 60 * 60 + seconds
            % 60 == seconds,
        seconds % 86400 / 3600 < 24,
        seconds % 3600 / 60 < 60,
        seconds % 60 < 60,
{
    assert(seconds % 86400 % 3600 == seconds % 3600);
    assert(seconds % 3600 % 60 == seconds % 60);
}

/// The reason of a call, trimmed, or the refusal of one that is too long.
pub open spec fn reason_of(args: Arguments, max: nat) -> Result<Seq<char>, Seq<char>> {
    let reason = trim(text_or_none(args.text_at("reason"@)));
    if reason.len() > max {
        Err("reason exceeds configured maximum length"@)
    } else {
        Ok(reason)
    }
}

/// The reason of a call, trimmed; one of more than `max` characters is refused.
pub fn bounded_reason(args: &Arguments, max: usize) -> (r: Result<String, String>)
    ensures
        match r {
            Ok(s) => reason_of(*args, max as nat) == Ok::<Seq<char>, Seq<char>>(s@),
            Err(e) => reason_of(*args, max as nat) == Err::<Seq<char>, Seq<char>>(e@),
        },
{
    let raw: String = args.text_or_empty("reason");
    let reason: String = trimmed(&raw);
    if reason.as_str().unicode_len() > max {
        return Err("reason exceeds configured maximum length".to_owned());
    }
    Ok(reason)
}

// ---------------------------------------------------------------------------
// Members

/// Whether a target may be acted on, given what the group answered about it.
pub open spec fn target_verdict(
    user_id: Seq<char>,
    account_id: Seq<char>,
    found: Option<GroupMemberModel>,
    protect_managers: bool,
) -> Result<GroupMemberModel, Seq<char>> {
    if user_id == account_id {
        Err("不能对 顾清影 自身执行该操作"@)
    } else {
        match found {
            None => Err("目标不在当前群中"@),
            Some(m) => if protect_managers && (m.role == "owner"@ || m.role == "admin"@) {
                Err("不能对群主或管理员执行该操作"@)
            } else {
                Ok(m)
            },
        }
    }
}

/// Whether a target may be acted on: it is not the assistant, it is in the group,
/// and, where managers are protected, it is not one of them.
pub fn validate_target(
    user_id: &str,
    account_id: &str,
    found: Option<GroupMember>,
    protect_managers: bool,
) -> (r: Result<GroupMember, String>)
    ensures
        ({
            let v = target_verdict(
                user_id@,
                account_id@,
                crate::text::opt_view(found),
                protect_managers,
            );
            match r {
                Ok(m) => v == Ok::<GroupMemberModel, Seq<char>>(m@),
                Err(e) => v == Err::<GroupMemberModel, Seq<char>>(e@),
            }
        }),
{
    if same(user_id, account_id) {
        return Err("不能对 顾清影 自身执行该操作".to_owned());
    }
    match found {
        None => Err("目标不在当前群中".to_owned()),
        Some(m) => {
            if protect_managers && (same(&m.role, "owner") || same(&m.role, "admin")) {
                return Err("不能对群主或管理员执行该操作".to_owned());
            }
            Ok(m)
        }
    }
}

/// A member known only from a notice.
pub fn notice_member(group_id: &str, sender_id: &str, sender_name: &str) -> (r: GroupMember)
    ensures
        r@ == (GroupMemberModel {
            group_id: group_id@,
            user_id: sender_id@,
            nickname: sender_name@,
            card: seq![],
            role: "member"@,
            title: seq![],
            joined_at: 0,
            last_active_at: 0,
        }),
{
    let r: GroupMember = GroupMember {
        group_id: group_id.to_owned(),
        user_id: sender_id.to_owned(),
        nickname: sender_name.to_owned(),
        card: String::new(),
        role: "member".to_owned(),
        title: String::new(),
        joined_at: 0,
        last_active_at: 0,
    };
    assert(r@.card =~= seq![]);
    assert(r@.title =~= seq![]);
    r
}

// ---------------------------------------------------------------------------
// Results

/// What became of one target.
pub struct TargetResult {
    pub success: bool,
    pub operation_succeeded: bool,
    pub audit_succeeded: bool,
    pub do_not_retry: bool,
    pub message: String,
    pub audit_errors: Vec<String>,
    /// The target, where the result names it.
    pub user_id: Option<String>,
    /// The target, as the record in the result names it.
    pub record_user_id: Option<String>,
}

/// What a [`TargetResult`] holds, as values.
#[verifier::ext_equal]
pub struct TargetResultModel {
    pub success: bool,
    pub operation_succeeded: bool,
    pub audit_succeeded: bool,
    pub do_not_retry: bool,
    pub message: Seq<char>,
    pub audit_errors: Seq<Seq<char>>,
    pub user_id: Option<Seq<char>>,
    pub record_user_id: Option<Seq<char>>,
}

impl View for TargetResult {
    type V = TargetResultModel;

    open spec fn view(&self) -> TargetResultModel {
        TargetResultModel {
            success: self.success,
            operation_succeeded: self.operation_succeeded,
            audit_succeeded: self.audit_succeeded,
            do_not_retry: self.do_not_retry,
            message: self.message@,
            audit_errors: texts(self.audit_errors@),
            user_id: opt_text(self.user_id),
            record_user_id: opt_text(self.record_user_id),
        }
    }
}

impl TargetResult {
    /// A value that holds the same.
    pub fn copy(&self) -> (r: TargetResult)
        ensures
            r@ == self@,
    {
        TargetResult {
            success: self.success,
            operation_succeeded: self.operation_succeeded,
            audit_succeeded: self.audit_succeeded,
            do_not_retry: self.do_not_retry,
            message: self.message.clone(),
            audit_errors: copy_texts(&self.audit_errors),
            user_id: copy_opt(&self.user_id),
            record_user_id: copy_opt(&self.record_user_id),
        }
    }
}


/// What became of all the targets of a call.
pub struct BatchResult {
    pub success: bool,
    pub operation_succeeded: bool,
    pub audit_succeeded: bool,
    pub do_not_retry: bool,
    pub do_not_retry_successful_targets: bool,
    pub retry_failed_targets_only: bool,
    pub message: String,
    pub success_count: usize,
    pub failed_count: usize,
    pub audit_failed_count: usize,
    pub successful_target_ids: Vec<String>,
    pub failed_target_ids: Vec<String>,
}

/// What a [`BatchResult`] holds, as values.
#[verifier::ext_equal]
pub struct BatchResultModel {
    pub success: bool,
    pub operation_succeeded: bool,
    pub audit_succeeded: bool,
    pub do_not_retry: bool,
    pub do_not_retry_successful_targets: bool,
    pub retry_failed_targets_only: bool,
    pub message: Seq<char>,
    pub success_count: usize,
    pub failed_count: usize,
    pub audit_failed_count: usize,
    pub successful_target_ids: Seq<Seq<char>>,
    pub failed_target_ids: Seq<Seq<char>>,
}

impl View for BatchResult {
    type V = BatchResultModel;

    open spec fn view(&self) -> BatchResultModel {
        BatchResultModel {
            success: self.success,
            operation_succeeded: self.operation_succeeded,
            audit_succeeded: self.audit_succeeded,
            do_not_retry: self.do_not_retry,
            do_not_retry_successful_targets: self.do_not_retry_successful_targets,
            retry_failed_targets_only: self.retry_failed_targets_only,
            message: self.message@,
            success_count: self.success_count,
            failed_count: self.failed_count,
            audit_failed_count: self.audit_failed_count,
            successful_target_ids: texts(self.successful_target_ids@),
            failed_target_ids: texts(self.failed_target_ids@),
        }
    }
}


/// What became of the mute of one target.
pub struct BanOutcome {
    pub result: TargetResult,
    pub duration_seconds: u64,
    pub duration_text: String,
}

/// What a [`BanOutcome`] holds, as values.
#[verifier::ext_equal]
pub struct BanOutcomeModel {
    pub result: TargetResultModel,
    pub duration_seconds: u64,
    pub duration_text: Seq<char>,
}

impl View for BanOutcome {
    type V = BanOutcomeModel;

    open spec fn view(&self) -> BanOutcomeModel {
        BanOutcomeModel {
            result: self.result@,
            duration_seconds: self.duration_seconds,
            duration_text: self.duration_text@,
        }
    }
}


/// The result of an operation that failed outside.
pub open spec fn failed_result(message: Seq<char>, user_id: Option<Seq<char>>) -> TargetResultModel {
    TargetResultModel {
        success: false,
        operation_succeeded: false,
        audit_succeeded: false,
        do_not_retry: false,
        message: message,
        audit_errors: seq![],
        user_id: user_id,
        record_user_id: None,
    }
}

/// The result of an operation that failed outside.
pub fn failure(message: &str) -> (r: TargetResult)
    ensures
        r@ == failed_result(message@, None),
{
    let r: TargetResult = TargetResult {
        success: false,
        operation_succeeded: false,
        audit_succeeded: false,
        do_not_retry: false,
        message: message.to_owned(),
        audit_errors: Vec::new(),
        user_id: None,
        record_user_id: None,
    };
    assert(r@.audit_errors =~= seq![]);
    r
}

/// The result of an operation on one target that failed outside.
pub fn failure_for_target(message: &str, user_id: &str) -> (r: TargetResult)
    ensures
        r@ == failed_result(message@, Some(user_id@)),
{
    let r: TargetResult = failure(message);
    TargetResult { user_id: Some(user_id.to_owned()), ..r }
}

/// The result of an operation that was carried out.
pub open spec fn done_result(
    audit_errors: Seq<Seq<char>>,
    user_id: Option<Seq<char>>,
    record_user_id: Option<Seq<char>>,
) -> TargetResultModel {
    TargetResultModel {
        success: true,
        operation_succeeded: true,
        audit_succeeded: audit_errors.len() == 0,
        do_not_retry: true,
        message: if audit_errors.len() == 0 {
            "操作成功"@
        } else {
            "外部操作已成功，但本地审计记录失败；请勿重试外部操作"@
        },
        audit_errors: audit_errors,
        user_id: user_id,
        record_user_id: record_user_id,
    }
}

/// The result of an operation that was carried out, whether or not every record
/// of it could be kept.
pub fn external_operation_result(
    audit_errors: Vec<String>,
    user_id: Option<String>,
    record_user_id: Option<String>,
) -> (r: TargetResult)
    ensures
        r@ == done_result(texts(audit_errors@), opt_text(user_id), opt_text(record_user_id)),
{
    let clean: bool = audit_errors.len() == 0;
    TargetResult {
        success: true,
        operation_succeeded: true,
        audit_succeeded: clean,
        do_not_retry: true,
        message: if clean {
            "操作成功".to_owned()
        } else {
            "外部操作已成功，但本地审计记录失败；请勿重试外部操作".to_owned()
        },
        audit_errors: audit_errors,
        user_id: user_id,
        record_user_id: record_user_id,
    }
}

/// The target that a result is about.
pub open spec fn result_target(r: TargetResultModel) -> Seq<char> {
    match r.user_id {
        Some(id) => id,
        None => text_or_none(r.record_user_id),
    }
}

/// The targets whose operation came out as `succeeded`.
pub open spec fn targets_with(results: Seq<TargetResultModel>, succeeded: bool) -> Seq<Seq<char>>
    decreases results.len(),
{
    if results.len() == 0 {
        seq![]
    } else {
        let before = targets_with(results.drop_last(), succeeded);
        if results.last().operation_succeeded == succeeded {
            before.push(result_target(results.last()))
        } else {
            before
        }
    }
}

/// How many operations were carried out without a full record of them.
pub open spec fn audit_failures(results: Seq<TargetResultModel>) -> nat
    decreases results.len(),
{
    if results.len() == 0 {
        0
    } else {
        audit_failures(results.drop_last()) + (if results.last().operation_succeeded
            && !results.last().audit_succeeded {
            1nat
        } else {
            0
        })
    }
}

/// What became of all the targets.
pub open spec fn batch_result(results: Seq<TargetResultModel>) -> BatchResultModel {
    let good = targets_with(results, true);
    let bad = targets_with(results, false);
    let audits = audit_failures(results);
    BatchResultModel {
        success: good.len() > 0,
        operation_succeeded: good.len() > 0,
        audit_succeeded: audits == 0,
        do_not_retry: bad.len() == 0,
        do_not_retry_successful_targets: true,
        retry_failed_targets_only: bad.len() > 0,
        message: if audits > 0 || bad.len() > 0 {
            "外部操作成功 "@ + decimal(good.len()) + " 个、失败 "@ + decimal(bad.len())
                + " 个；成功目标不得重试，失败目标可单独重试"@
        } else {
            "成功 "@ + decimal(good.len()) + " 个，失败 "@ + decimal(bad.len()) + " 个"@
        },
        success_count: good.len() as usize,
        failed_count: bad.len() as usize,
        audit_failed_count: audits as usize,
        successful_target_ids: good,
        failed_target_ids: bad,
    }
}

/// Every target is counted once, as carried out or as failed, and only where all
/// were carried out is the whole call not to be repeated.
pub proof fn law_batch_counts(results: Seq<TargetResultModel>)
    ensures
        targets_with(results, true).len() + targets_with(results, false).len() == results.len(),
        audit_failures(results) <= targets_with(results, true).len(),
        batch_result(results).do_not_retry <==> forall|i: int|
            0 <= i < results.len() ==> (#[trigger] results[i]).operation_succeeded,
    decreases results.len(),
{
    if results.len() > 0 {
        let t = results.drop_last();
        law_batch_counts(t);
        assert(results.last() == results[results.len() - 1]);
        assert(forall|i: int| 0 <= i < t.len() ==> #[trigger] t[i] == results[i]);
        if batch_result(results).do_not_retry {
            assert(batch_result(t).do_not_retry);
            assert forall|i: int| 0 <= i < results.len() implies (
            #[trigger] results[i]).operation_succeeded by {
                if i < t.len() {
                    assert(t[i].operation_succeeded);
                }
            }
        }
        if forall|i: int| 0 <= i < results.len() ==> (#[trigger] results[i]).operation_succeeded {
            assert(forall|i: int| 0 <= i < t.len() ==> (#[trigger] t[i]).operation_succeeded);
            assert(batch_result(t).do_not_retry);
        }
    }
}

/// What became of all the targets of a call: which were carried out and must not
/// be repeated, and which failed and may be.
pub fn aggregate_target_results(results: &Vec<TargetResult>) -> (r: BatchResult)
    ensures
        r@ == batch_result(views(results@)),
{
    let ghost all = views(results@);
    let mut good: Vec<String> = Vec::new();
    let mut bad: Vec<String> = Vec::new();
    let mut audits: usize = 0;
    let mut i: usize = 0;
    assert(all.take(0) =~= seq![]);
    assert(texts(good@) =~= seq![]);
    assert(texts(bad@) =~= seq![]);
    while i < results.len()
        invariant
            i <= results.len(),
            all == views(results@),
            texts(good@) == targets_with(all.take(i as int), true),
            texts(bad@) == targets_with(all.take(i as int), false),
            audits == audit_failures(all.take(i as int)),
            audits <= i,
        decreases results.len() - i,
    {
        assert(all.take(i + 1).drop_last() =~= all.take(i as int));
        assert(all[i as int] == results@[i as int]@);
        let one: &TargetResult = &results[i];
        let id: String = match &one.user_id {
            Some(id) => id.clone(),
            None => crate::text::copy_or_empty(&one.record_user_id),
        };
        assert(id@ == result_target(one@));
        if one.operation_succeeded {
            let ghost before = texts(good@);
            good.push(id);
            assert(texts(good@) =~= before.push(id@));
            if !one.audit_succeeded {
                audits += 1;
            }
        } else {
            let ghost before = texts(bad@);
            bad.push(id);
            assert(texts(bad@) =~= before.push(id@));
        }
        i += 1;
    }
    assert(all.take(results.len() as int) =~= all);
    let good_text: String = decimal_text(good.len() as u64);
    let bad_text: String = decimal_text(bad.len() as u64);
    let failed: bool = bad.len() > 0;
    let message: String = if audits > 0 || failed {
        let mut m: String = "外部操作成功 ".to_owned();
        m.append(&good_text);
        m.append(" 个、失败 ");
        m.append(&bad_text);
        m.append(" 个；成功目标不得重试，失败目标可单独重试");
        m
    } else {
        let mut m: String = "成功 ".to_owned();
        m.append(&good_text);
        m.append(" 个，失败 ");
        m.append(&bad_text);
        m.append(" 个");
        m
    };
    BatchResult {
        success: good.len() > 0,
        operation_succeeded: good.len() > 0,
        audit_succeeded: audits == 0,
        do_not_retry: !failed,
        do_not_retry_successful_targets: true,
        retry_failed_targets_only: failed,
        message: message,
        success_count: good.len(),
        failed_count: bad.len(),
        audit_failed_count: audits,
        successful_target_ids: good,
        failed_target_ids: bad,
    }
}

/// The plain answer of a tool.
pub struct ToolReply {
    pub success: bool,
    pub message: String,
}

/// What a [`ToolReply`] holds, as values.
#[verifier::ext_equal]
pub struct ToolReplyModel {
    pub success: bool,
    pub message: Seq<char>,
}

impl View for ToolReply {
    type V = ToolReplyModel;

    open spec fn view(&self) -> ToolReplyModel {
        ToolReplyModel {
            success: self.success,
            message: self.message@,
        }
    }
}


/// The plain answer of a tool.
pub fn json_result(success: bool, message: &str) -> (r: ToolReply)
    ensures
        r@ == (ToolReplyModel { success: success, message: message@ }),
{
    ToolReply { success: success, message: message.to_owned() }
}

// ---------------------------------------------------------------------------
// What a call asks for

/// A record is shown where its kind is asked for, and everything is where all is.
pub proof fn law_records_by_their_kind(action: Seq<char>)
    ensures
        action_matches_spec("all"@, action),
        action_matches_spec("ban"@, "ban"@),
        action_matches_spec("ban"@, "unban"@),
        action_matches_spec("kick"@, "kick"@),
        action_matches_spec("kick"@, "kick_black"@),
        action_matches_spec("title"@, "title_set"@),
        action_matches_spec("title"@, "title_clear"@),
        action_matches_spec("ban"@, action) ==> !action_matches_spec("kick"@, action)
            && !action_matches_spec("title"@, action),
        action_matches_spec("kick"@, action) ==> !action_matches_spec("title"@, action),
        action == "mute"@ ==> !action_matches_spec("ban"@, action),
{
    reveal_strlit("all");
    reveal_strlit("ban");
    reveal_strlit("unban");
    reveal_strlit("kick");
    reveal_strlit("kick_black");
    reveal_strlit("title");
    reveal_strlit("title_set");
    reveal_strlit("title_clear");
    reveal_strlit("mute");
    assert("all"@[0] == 'a' && "ban"@[0] == 'b' && "unban"@[0] == 'u' && "kick"@[0] == 'k');
    assert("kick_black"@[0] == 'k' && "title"@[0] == 't' && "title_set"@[0] == 't');
    assert("title_clear"@[0] == 't' && "mute"@[0] == 'm');
    assert("kick"@.len() == 4 && "kick_black"@.len() == 10 && "title"@.len() == 5);
}

/// As many records are shown as are asked for, within bounds, and twenty where nothing is
/// said.
pub proof fn law_as_many_as_asked(args: Arguments, n: u64)
    ensures
        args.at("limit"@) == Some(Argument::One(Scalar::Unsigned(n))) && 1 <= n <= 100
            ==> limit_spec(args) == n,
        args.at("limit"@) == Some(Argument::One(Scalar::Unsigned(n))) && n > 100 ==> limit_spec(args)
            == 100,
        args.at("limit"@) == Some(Argument::One(Scalar::Unsigned(0))) ==> limit_spec(args) == 1,
        args.at("limit"@) is None ==> limit_spec(args) == 20,
{
}

/// The member that a call names is the one that is meant.
pub proof fn law_the_member_that_is_named(args: Arguments, s: String)
    requires
        args.at("user_id"@) == Some(Argument::One(Scalar::Text(s))),
    ensures
        5 <= s@.len() <= 12 && all_digits(s@) ==> optional_id_spec(args) == Some(s@),
        trim(s@).len() < 5 || trim(s@).len() > 12 ==> optional_id_spec(args) is None,
        optional_id_spec(args) is Some ==> optional_id_spec(args)->0 == trim(s@),
{
    if 5 <= s@.len() <= 12 && all_digits(s@) {
        lemma_digits_stay(s@);
    }
}

proof fn lemma_digits_stay(s: Seq<char>)
    requires
        all_digits(s),
    ensures
        trim(s) == s,
{
    law_plain_white_space(s[0]);
    law_plain_white_space(s.last());
    law_trimmed_stays(s);
}

/// A reason is taken as it is written, and one that is too long refuses the call.
pub proof fn law_reasons_are_taken_as_written(args: Arguments, s: String, max: nat)
    requires
        args.at("reason"@) == Some(Argument::One(Scalar::Text(s))),
    ensures
        trim(s@).len() <= max ==> reason_of(args, max) == Ok::<Seq<char>, Seq<char>>(trim(s@)),
        trim(s@).len() > max ==> reason_of(args, max) is Err,
{
}

/// The numbers in a text are found: one that stands alone, and those on either side of
/// anything that is no digit.
pub proof fn law_numbers_in_a_text(a: Seq<char>, c: char, b: Seq<char>)
    ensures
        5 <= a.len() <= 12 && all_digits(a) ==> id_runs(a) == seq![a],
        !is_digit(c) ==> id_runs(a + seq![c] + b) == id_runs(a) + id_runs(b),
    decreases a.len(),
{
    lemma_run_end(a, c, b);
    let s = a + seq![c] + b;
    let m = span(a, digit_class()) as int;
    if 5 <= a.len() <= 12 && all_digits(a) {
        assert(id_runs(a) == sized_run(a));
    }
    if !is_digit(c) {
        let n = span(s, digit_class()) as int;
        assert(n == m);
        assert(0 <= n < s.len());
        assert(id_runs(s) == sized_run(s.take(n)) + id_runs(s.subrange(n + 1, s.len() as int)));
        if m == a.len() {
            assert(s.take(n) =~= a);
            assert(s.subrange(n + 1, s.len() as int) =~= b);
        } else {
            assert(s.take(n) =~= a.take(m));
            let rest = a.subrange(m + 1, a.len() as int);
            law_numbers_in_a_text(rest, c, b);
            assert(s.subrange(n + 1, s.len() as int) =~= rest + seq![c] + b);
            assert(id_runs(a) == sized_run(a.take(m)) + id_runs(rest));
            assert(sized_run(a.take(m)) + (id_runs(rest) + id_runs(b)) =~= sized_run(a.take(m))
                + id_runs(rest) + id_runs(b));
        }
    }
}

proof fn lemma_run_end(a: Seq<char>, c: char, b: Seq<char>)
    ensures
        span(a, digit_class()) <= a.len(),
        !is_digit(c) ==> span(a + seq![c] + b, digit_class()) == span(a, digit_class()),
        all_digits(a) ==> span(a, digit_class()) == a.len(),
    decreases a.len(),
{
    let s = a + seq![c] + b;
    if a.len() == 0 {
        assert(s[0] == c);
    } else {
        assert(s[0] == a[0]);
        lemma_run_end(a.drop_first(), c, b);
        assert(s.drop_first() =~= a.drop_first() + seq![c] + b);
        if all_digits(a) && a.len() == 1 {
            assert(span(a.drop_first(), digit_class()) == 0);
        }
        if all_digits(a) && a.len() > 1 {
            assert(all_digits(a.drop_first()));
        }
    }
}

/// Whether these are members, each named once and none of them the assistant.
pub open spec fn are_members(ids: Seq<Seq<char>>, account_id: Seq<char>) -> bool {
    &&& ids.len() <= 32
    &&& ids.no_duplicates()
    &&& forall|i: int|
        0 <= i < ids.len() ==> 5 <= (#[trigger] ids[i]).len() <= 12 && all_digits(ids[i]) && ids[i]
            != account_id
}

proof fn lemma_members_kept(ids: Seq<Seq<char>>, account_id: Seq<char>)
    requires
        are_members(ids, account_id),
    ensures
        kept_targets(ids, account_id) == ids,
    decreases ids.len(),
{
    if ids.len() > 0 {
        let short = ids.drop_last();
        assert forall|i: int| 0 <= i < short.len() implies 5 <= (#[trigger] short[i]).len() <= 12
            && all_digits(short[i]) && short[i] != account_id by {
            assert(short[i] == ids[i]);
        }
        assert(short.no_duplicates());
        lemma_members_kept(short, account_id);
        assert(!short.contains(ids.last())) by {
            if short.contains(ids.last()) {
                let i = choose|i: int| 0 <= i < short.len() && short[i] == ids.last();
                assert(ids[i] == ids[ids.len() - 1]);
            }
        }
        assert(valid_id_spec(ids[ids.len() - 1]));
        assert(kept_targets(ids, account_id) =~= ids);
    } else {
        assert(kept_targets(ids, account_id) =~= ids);
    }
}

proof fn lemma_listed_members(ids: Seq<Seq<char>>, account_id: Seq<char>)
    requires
        are_members(ids, account_id),
    ensures
        listed_ids(ids) == ids,
    decreases ids.len(),
{
    if ids.len() > 0 {
        let short = ids.drop_last();
        assert forall|i: int| 0 <= i < short.len() implies 5 <= (#[trigger] short[i]).len() <= 12
            && all_digits(short[i]) && short[i] != account_id by {
            assert(short[i] == ids[i]);
        }
        assert(short.no_duplicates());
        lemma_listed_members(short, account_id);
        assert(valid_id_spec(ids[ids.len() - 1]));
        law_numbers_in_a_text(ids.last(), 'x', seq![]);
        assert(listed_ids(ids) =~= ids);
    } else {
        assert(listed_ids(ids) =~= ids);
    }
}

/// A call reaches exactly the members whom it names, in their order: those of its list, the
/// one that it names, and where it names nobody those who are mentioned, else the one who is
/// replied to, else nobody.
pub proof fn law_a_call_reaches_whom_it_names(
    ids: Seq<Seq<char>>,
    id: Seq<char>,
    account_id: Seq<char>,
    hints: Option<TargetHintsModel>,
    replied: Seq<char>,
)
    requires
        are_members(ids, account_id),
        are_members(seq![id], account_id),
    ensures
        ids.len() > 0 ==> targets_of(ids, None, hints, account_id) == ids,
        targets_of(seq![], Some(id), hints, account_id) == seq![id],
        ids.len() > 0 ==> targets_of(
            seq![],
            None,
            Some((TargetHintsModel { mentioned: ids, replied_sender: Some(replied) })),
            account_id,
        ) == ids,
        targets_of(
            seq![],
            None,
            Some((TargetHintsModel { mentioned: seq![], replied_sender: Some(id) })),
            account_id,
        ) == seq![id],
        targets_of(seq![], None, None, account_id).len() == 0,
        targets_of(seq![], Some(account_id), None, account_id).len() == 0 || !all_digits(account_id),
{
    let none = Seq::<Seq<char>>::empty();
    lemma_members_kept(ids, account_id);
    lemma_members_kept(seq![id], account_id);
    lemma_listed_members(ids, account_id);
    assert(listed_ids(none) =~= none);
    assert(valid_id_spec(seq![id][0]));
    law_numbers_in_a_text(id, 'x', seq![]);
    lemma_digits_stay(id);
    assert(none + id_runs(id) =~= seq![id]);
    law_trimmed_stays(Seq::<char>::empty());
    assert(kept_targets(none, account_id) =~= none);
    if all_digits(account_id) {
        lemma_digits_stay(account_id);
        lemma_run_end(account_id, 'x', seq![]);
        assert(id_runs(account_id) == sized_run(account_id));
        if account_id.len() > 0 {
            assert(none + id_runs(account_id) =~= id_runs(account_id));
            if 5 <= account_id.len() <= 12 {
                assert(seq![account_id].drop_last() =~= none);
            }
        }
    }
}

/// A time is told in its largest unit, and a time of none lifts the ban.
pub proof fn law_times_are_told(n: nat)
    requires
        n > 0,
    ensures
        n < 60 ==> duration_words(n) == decimal(n) + "秒"@,
        n < 60 ==> duration_words(n * 60) == decimal(n) + "分钟"@,
        n < 24 ==> duration_words(n * 3600) == decimal(n) + "小时"@,
        duration_words(n * 86400) == decimal(n) + "天"@,
        duration_words(0) == "解禁"@,
{
    let none = Seq::<char>::empty();
    if n < 60 {
        let s = duration_part(n, "秒"@);
        let m = duration_part(n, "分钟"@);
        assert(none + none + none + s =~= s);
        assert(none + none + m + none =~= m);
    }
    if n < 24 {
        let h = duration_part(n, "小时"@);
        assert(none + h + none + none =~= h);
    }
    let d = duration_part(n, "天"@);
    assert(d + none + none + none =~= d);
}

/// What is left of a time after its days is told after them.
pub proof fn law_days_are_told_first(n: nat, rest: nat)
    requires
        n > 0,
        0 < rest < 86400,
    ensures
        duration_words(n * 86400 + rest) == decimal(n) + "天"@ + duration_words(rest),
{
    let t = n * 86400 + rest;
    assert(t / 86400 == n);
    assert(t % 86400 == rest);
    assert(t % 3600 == rest % 3600);
    assert(t % 60 == rest % 60);
    assert(rest / 86400 == 0);
    lemma_four_parts(
        duration_part(n, "天"@),
        duration_part(rest / 3600, "小时"@),
        duration_part(rest % 3600 / 60, "分钟"@),
        duration_part(rest % 60, "秒"@),
    );
}

/// What is left of a time after its hours is told after them.
pub proof fn law_hours_are_told_next(n: nat, rest: nat)
    requires
        0 < n < 24,
        0 < rest < 3600,
    ensures
        duration_words(n * 3600 + rest) == decimal(n) + "小时"@ + duration_words(rest),
{
    let t = n * 3600 + rest;
    assert(t / 86400 == 0);
    assert(t % 86400 / 3600 == n);
    assert(t % 3600 == rest);
    assert(t % 60 == rest % 60);
    assert(rest / 86400 == 0 && rest % 86400 / 3600 == 0 && rest % 3600 == rest);
    let m = duration_part(rest / 60, "分钟"@);
    let s = duration_part(rest % 60, "秒"@);
    let none = Seq::<char>::empty();
    lemma_four_parts(duration_part(n, "小时"@), none, m, s);
    lemma_four_parts(none, duration_part(n, "小时"@), m, s);
}

/// What is left of a time after its minutes is told after them.
pub proof fn law_minutes_are_told_last(n: nat, rest: nat)
    requires
        0 < n < 60,
        0 < rest < 60,
    ensures
        duration_words(n * 60 + rest) == decimal(n) + "分钟"@ + duration_words(rest),
{
    let t = n * 60 + rest;
    assert(t / 86400 == 0 && t % 86400 / 3600 == 0);
    assert(t % 3600 / 60 == n);
    assert(t % 60 == rest);
    let m = duration_part(n, "分钟"@);
    let s = duration_part(rest, "秒"@);
    let none = Seq::<char>::empty();
    lemma_four_parts(none, none, m, s);
    lemma_four_parts(m, none, none, s);
}

proof fn lemma_four_parts(a: Seq<char>, b: Seq<char>, c: Seq<char>, d: Seq<char>)
    ensures
        a + b + c + d == a + (Seq::<char>::empty() + b + c + d),
        a.len() == 0 && b.len() == 0 ==> a + b + c + d == c + d,
        a.len() == 0 ==> a + b + c + d == b + c + d,
        b.len() == 0 ==> a + (a + b + c + d) == a + (a + c + d),
{
    let none = Seq::<char>::empty();
    assert(a + b + c + d =~= a + (none + b + c + d));
    if a.len() == 0 {
        assert(a + b + c + d =~= b + c + d);
        if b.len() == 0 {
            assert(a + b + c + d =~= c + d);
        }
    }
    if b.len() == 0 {
        assert(a + b + c + d =~= a + c + d);
    }
}

/// A member may be acted on who is there, is not the assistant and, where managers are
/// protected, is none; then it is that member.
pub proof fn law_who_may_be_acted_on(
    user_id: Seq<char>,
    account_id: Seq<char>,
    found: Option<GroupMemberModel>,
    protect: bool,
)
    ensures
        ({
            let v = target_verdict(user_id, account_id, found, protect);
            &&& v is Ok <==> user_id != account_id && found is Some && !(protect && (found->0.role
                == "owner"@ || found->0.role == "admin"@))
            &&& v is Ok ==> v->Ok_0 == found->0
        }),
{
}

/// Every member of a batch is told under what happened to them and nowhere else.
pub proof fn law_a_batch_tells_of_everyone(results: Seq<TargetResultModel>, i: int, id: Seq<char>)
    requires
        0 <= i < results.len(),
        results[i].user_id == Some(id),
    ensures
        ({
            let b = batch_result(results);
            &&& results[i].operation_succeeded ==> b.successful_target_ids.contains(id) && b.success
            &&& !results[i].operation_succeeded ==> b.failed_target_ids.contains(id)
                && b.retry_failed_targets_only && !b.do_not_retry
            &&& results[i].operation_succeeded && !results[i].audit_succeeded ==> !b.audit_succeeded
            &&& b.successful_target_ids.len() + b.failed_target_ids.len() == results.len()
            &&& (forall|k: int| 0 <= k < results.len() ==> (#[trigger] results[k]).user_id != Some(
                id,
            ) || results[k].operation_succeeded) && (forall|k: int|
                0 <= k < results.len() ==> (#[trigger] results[k]).user_id is Some)
                ==> !b.failed_target_ids.contains(id)
        }),
{
    law_batch_counts(results);
    lemma_told(results, i, true);
    lemma_told(results, i, false);
    lemma_told_only(results, id);
}

proof fn lemma_told(results: Seq<TargetResultModel>, i: int, succeeded: bool)
    requires
        0 <= i < results.len(),
    ensures
        results[i].operation_succeeded == succeeded ==> targets_with(results, succeeded).contains(
            result_target(results[i]),
        ),
        results[i].operation_succeeded && !results[i].audit_succeeded ==> audit_failures(results)
            > 0,
    decreases results.len(),
{
    let short = results.drop_last();
    let before = targets_with(short, succeeded);
    let after = targets_with(results, succeeded);
    if i < short.len() {
        lemma_told(short, i, succeeded);
        if results[i].operation_succeeded == succeeded {
            let t = result_target(results[i]);
            let k = choose|k: int| 0 <= k < before.len() && before[k] == t;
            assert(after[k] == t);
        }
    } else if results[i].operation_succeeded == succeeded {
        assert(after[before.len() as int] == result_target(results[i]));
    }
}

proof fn lemma_told_only(results: Seq<TargetResultModel>, id: Seq<char>)
    ensures
        (forall|k: int| 0 <= k < results.len() ==> (#[trigger] results[k]).user_id != Some(id)
            || results[k].operation_succeeded) && (forall|k: int|
            0 <= k < results.len() ==> (#[trigger] results[k]).user_id is Some) ==> !targets_with(
            results,
            false,
        ).contains(id),
    decreases results.len(),
{
    if results.len() > 0 {
        let short = results.drop_last();
        lemma_told_only(short, id);
        if (forall|k: int| 0 <= k < results.len() ==> (#[trigger] results[k]).user_id != Some(id)
            || results[k].operation_succeeded) && (forall|k: int|
            0 <= k < results.len() ==> (#[trigger] results[k]).user_id is Some) {
            assert forall|k: int| 0 <= k < short.len() implies ((#[trigger] short[k]).user_id
                != Some(id) || short[k].operation_succeeded) && short[k].user_id is Some by {
                assert(short[k] == results[k]);
            }
            let before = targets_with(short, false);
            let after = targets_with(results, false);
            assert(results[results.len() - 1].user_id is Some);
            if after.contains(id) {
                let k = choose|k: int| 0 <= k < after.len() && after[k] == id;
                if k < before.len() {
                    assert(before[k] == id);
                }
            }
        }
    }
}

/// What was done is told as done and not to be repeated, what failed as failed.
pub proof fn law_done_and_failed_differ(
    errors: Seq<Seq<char>>,
    user_id: Option<Seq<char>>,
    record: Option<Seq<char>>,
    message: Seq<char>,
)
    ensures
        done_result(errors, user_id, record).success,
        done_result(errors, user_id, record).operation_succeeded,
        done_result(errors, user_id, record).do_not_retry,
        done_result(errors, user_id, record).audit_succeeded <==> errors.len() == 0,
        done_result(errors, user_id, record).user_id == user_id,
        done_result(errors, user_id, record).audit_errors == errors,
        !failed_result(message, user_id).success,
        !failed_result(message, user_id).operation_succeeded,
        !failed_result(message, user_id).do_not_retry,
        failed_result(message, user_id).message == message,
        failed_result(message, user_id).user_id == user_id,
{
}

} // verus!
