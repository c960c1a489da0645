//! The arguments of the history tools: who may read what, and over which time.

use crate::arguments::{Argument, Arguments, Scalar};
use crate::numbers::{
    all_digits, decimal, decimal_int, decimal_int_text, decimal_text, digits_only, i64_bounded,
    law_decimal_is_short, law_decimal_reads_back, law_numbers_read_back, saturating_difference,
};
use crate::order::{
    arranged, as_ints, first_of, indices_where, law_indices_where, law_stable_order, lemma_indices_where, pick,
    sort_indices, stable_order,
};
use crate::platform::{
    Conversation, ConversationKind, ConversationModel, GroupMember, GroupMemberModel,
};
use crate::text::{
    begins_with, contains_text, has_prefix, is_digit, is_empty_text, law_trimmed_stays, lowercase,
    occurs, opt_text, res_text, res_view, same, trim, trimmed, views,
};
use crate::times::{local_reading, parse_time, time_of};
use vstd::prelude::*;
use vstd::string::*;

verus! {

/// How many days an activity ranking covers unless told.
pub const DEFAULT_ACTIVITY_RANKING_DAYS: i64 = 30;

/// How many members an activity ranking lists unless told.
pub const DEFAULT_ACTIVITY_RANKING_LIMIT: usize = 20;

/// How many members an activity ranking lists at most.
pub const MAX_ACTIVITY_RANKING_LIMIT: usize = 200;

// ---------------------------------------------------------------------------
// Single arguments

/// A text that must be there and not blank.
pub open spec fn required_text(args: Arguments, key: Seq<char>, missing: Seq<char>) -> Result<
    Seq<char>,
    Seq<char>,
> {
    match args.text_at(key) {
        Some(s) => if trim(s).len() > 0 {
            Ok(trim(s))
        } else {
            Err(missing)
        },
        None => Err(missing),
    }
}

fn require_text(args: &Arguments, key: &str, missing: String) -> (r: Result<String, String>)
    ensures
        res_view(r) == required_text(*args, key@, missing@),
{
    match args.text(key) {
        Some(s) => {
            let t: String = trimmed(&s);
            if is_empty_text(&t) {
                Err(missing)
            } else {
                Ok(t)
            }
        }
        None => Err(missing),
    }
}

fn joined_two(a: &str, b: &str) -> (r: String)
    ensures
        r@ == a@ + b@,
{
    let mut s: String = a.to_owned();
    s.append(b);
    s
}

/// A text that must be there and not blank, trimmed.
pub fn required_string(args: &Arguments, key: &str) -> (r: Result<String, String>)
    ensures
        res_view(r) == required_text(*args, key@, key@ + " is required"@),
{
    require_text(args, key, joined_two(key, " is required"))
}

/// What a member search looks for.
pub fn group_member_query(args: &Arguments) -> (r: Result<String, String>)
    ensures
        res_view(r) == required_text(
            *args,
            "query"@,
            "query is required; usage: get_group_members_info({\"query\":\"QQ号、群名片或昵称\",\"limit\":10})"@,
        ),
{
    require_text(
        args,
        "query",
        "query is required; usage: get_group_members_info({\"query\":\"QQ号、群名片或昵称\",\"limit\":10})".to_owned(),
    )
}

/// How many members a search may return.
pub open spec fn member_limit(args: Arguments, max: usize) -> Result<usize, Seq<char>> {
    match args.unsigned_at("limit"@) {
        Some(n) => if n > usize::MAX {
            Err(
                "limit must be a positive integer; usage: get_group_members_info({\"query\":\"张三\",\"limit\":10})"@,
            )
        } else if n == 0 {
            Err("limit must be a positive integer"@)
        } else if n > max {
            Err("limit must not exceed the configured maximum of "@ + decimal(max as nat))
        } else {
            Ok(n as usize)
        },
        None => Err(
            "limit must be a positive integer; usage: get_group_members_info({\"query\":\"张三\",\"limit\":10})"@,
        ),
    }
}

/// How many members a search may return: a number that must be given, from one to
/// `max_results`.
pub fn group_member_limit(args: &Arguments, max_results: usize) -> (r: Result<usize, String>)
    ensures
        res_text(r) == member_limit(*args, max_results),
{
    match args.unsigned("limit") {
        Some(n) => {
            if n > usize::MAX as u64 {
                return Err(
                    "limit must be a positive integer; usage: get_group_members_info({\"query\":\"张三\",\"limit\":10})".to_owned(),
                );
            }
            if n == 0 {
                return Err("limit must be a positive integer".to_owned());
            }
            if n > max_results as u64 {
                let digits: String = decimal_text(max_results as u64);
                return Err(
                    joined_two("limit must not exceed the configured maximum of ", &digits),
                );
            }
            Ok(n as usize)
        }
        None => Err(
            "limit must be a positive integer; usage: get_group_members_info({\"query\":\"张三\",\"limit\":10})".to_owned(),
        ),
    }
}

/// A QQ number under `key`, if one is given.
pub open spec fn id_at(args: Arguments, key: Seq<char>) -> Result<Option<Seq<char>>, Seq<char>> {
    match args.at(key) {
        None => Ok(None),
        Some(Argument::One(Scalar::Null)) => Ok(None),
        Some(Argument::One(Scalar::Text(s))) => checked_number(trim(s@), key),
        Some(Argument::One(Scalar::Unsigned(n))) => checked_number(decimal(n as nat), key),
        Some(Argument::One(Scalar::Negative(n))) => checked_number(decimal_int(n as int), key),
        Some(Argument::One(Scalar::Fraction(s))) => checked_number(s@, key),
        Some(_) => Err(key + " must be a QQ numeric id"@),
    }
}

/// `value` if it is a positive number in digits; nothing if it is empty.
pub open spec fn checked_number(value: Seq<char>, key: Seq<char>) -> Result<
    Option<Seq<char>>,
    Seq<char>,
> {
    if value.len() == 0 {
        Ok(None)
    } else if !all_digits(value) || value == "0"@ {
        Err(key + " must be a positive QQ numeric id"@)
    } else {
        Ok(Some(value))
    }
}

/// A result that may hold a text, as values.
pub open spec fn res_opt(r: Result<Option<String>, String>) -> Result<Option<Seq<char>>, Seq<char>> {
    match r {
        Ok(o) => Ok(opt_text(o)),
        Err(e) => Err(e@),
    }
}

fn check_number(value: String, key: &str) -> (r: Result<Option<String>, String>)
    ensures
        res_opt(r) == checked_number(value@, key@),
{
    if is_empty_text(&value) {
        return Ok(None);
    }
    if !digits_only(&value) || same(&value, "0") {
        return Err(joined_two(key, " must be a positive QQ numeric id"));
    }
    Ok(Some(value))
}

/// A QQ number under `key`, if one is given, as text or as a number.
pub fn optional_id(args: &Arguments, key: &str) -> (r: Result<Option<String>, String>)
    ensures
        res_opt(r) == id_at(*args, key@),
{
    match args.get(key) {
        None => Ok(None),
        Some(Argument::One(v)) => match v {
            Scalar::Null => Ok(None),
            Scalar::Text(s) => check_number(trimmed(s), key),
            Scalar::Unsigned(n) => check_number(decimal_text(*n), key),
            Scalar::Negative(n) => check_number(decimal_int_text(*n), key),
            Scalar::Fraction(s) => check_number(s.clone(), key),
            _ => Err(joined_two(key, " must be a QQ numeric id")),
        },
        Some(_) => Err(joined_two(key, " must be a QQ numeric id")),
    }
}

/// A QQ number under `key`, which must be given.
pub open spec fn required_id_spec(args: Arguments, key: Seq<char>) -> Result<Seq<char>, Seq<char>> {
    match id_at(args, key) {
        Err(e) => Err(e),
        Ok(Some(id)) => Ok(id),
        Ok(None) => Err(key + " is required"@),
    }
}

/// A QQ number under `key`, which must be given.
pub fn required_id(args: &Arguments, key: &str) -> (r: Result<String, String>)
    ensures
        res_view(r) == required_id_spec(*args, key@),
{
    match optional_id(args, key) {
        Err(e) => Err(e),
        Ok(Some(id)) => Ok(id),
        Ok(None) => Err(joined_two(key, " is required")),
    }
}

/// A text under `key`, if one that is not blank is given.
pub open spec fn string_at(args: Arguments, key: Seq<char>) -> Result<Option<Seq<char>>, Seq<char>> {
    match args.at(key) {
        None => Ok(None),
        Some(Argument::One(Scalar::Null)) => Ok(None),
        Some(Argument::One(Scalar::Text(s))) => if trim(s@).len() > 0 {
            Ok(Some(trim(s@)))
        } else {
            Ok(None)
        },
        Some(_) => Err(key + " must be a string"@),
    }
}

/// A text under `key`, if one that is not blank is given, trimmed.
pub fn optional_string(args: &Arguments, key: &str) -> (r: Result<Option<String>, String>)
    ensures
        res_opt(r) == string_at(*args, key@),
{
    match args.get(key) {
        None => Ok(None),
        Some(Argument::One(v)) => match v {
            Scalar::Null => Ok(None),
            Scalar::Text(s) => {
                let t: String = trimmed(s);
                if is_empty_text(&t) {
                    Ok(None)
                } else {
                    Ok(Some(t))
                }
            }
            _ => Err(joined_two(key, " must be a string")),
        },
        Some(_) => Err(joined_two(key, " must be a string")),
    }
}

/// A whole number under `key`, if one is given.
pub open spec fn number_at(args: Arguments, key: Seq<char>) -> Result<Option<i64>, Seq<char>> {
    if args.absent_at(key) {
        Ok(None)
    } else {
        match args.integer_at(key) {
            Some(n) => Ok(Some(n)),
            None => Err(key + " must be an integer"@),
        }
    }
}

/// A whole number under `key`, if one is given; anything else is refused.
pub fn optional_i64(args: &Arguments, key: &str) -> (r: Result<Option<i64>, String>)
    ensures
        res_text(r) == number_at(*args, key@),
{
    if args.is_absent(key) {
        return Ok(None);
    }
    match args.integer(key) {
        Some(n) => Ok(Some(n)),
        None => Err(joined_two(key, " must be an integer")),
    }
}

/// A positive number under `key`, if one is given.
pub open spec fn positive_at(args: Arguments, key: Seq<char>) -> Result<Option<u32>, Seq<char>> {
    if args.absent_at(key) {
        Ok(None)
    } else {
        match args.unsigned_at(key) {
            None => Err(key + " must be a positive integer"@),
            Some(n) => if n > u32::MAX {
                Err(key + " is too large"@)
            } else if n == 0 {
                Err(key + " must be positive"@)
            } else {
                Ok(Some(n as u32))
            },
        }
    }
}

/// A positive number under `key`, if one is given.
pub fn positive_u32(args: &Arguments, key: &str) -> (r: Result<Option<u32>, String>)
    ensures
        res_text(r) == positive_at(*args, key@),
{
    if args.is_absent(key) {
        return Ok(None);
    }
    match args.unsigned(key) {
        None => Err(joined_two(key, " must be a positive integer")),
        Some(n) => {
            if n > u32::MAX as u64 {
                return Err(joined_two(key, " is too large"));
            }
            if n == 0 {
                return Err(joined_two(key, " must be positive"));
            }
            Ok(Some(n as u32))
        }
    }
}

// ---------------------------------------------------------------------------
// How many messages

/// The most messages that a page may hold: the configured number where there is
/// one, never more than the safe number, from one to a thousand.
pub open spec fn page_ceiling(configured: usize, safety: usize) -> usize {
    let most = if configured == 0 || configured > safety {
        safety
    } else {
        configured
    };
    if most < 1 {
        1
    } else if most > 1000 {
        1000
    } else {
        most
    }
}

/// The most messages that a page may hold.
pub fn history_limit_ceiling(configured: usize, safety: usize) -> (r: usize)
    ensures
        r == page_ceiling(configured, safety),
{
    let most: usize = if configured == 0 || configured > safety { safety } else { configured };
    if most < 1 {
        1
    } else if most > 1000 {
        1000
    } else {
        most
    }
}

/// How many messages a page is to hold.
pub open spec fn page_limit(args: Arguments, configured: usize, safety: usize) -> int {
    let ceiling = page_ceiling(configured, safety);
    match args.unsigned_at("limit"@) {
        Some(n) => if n < 1 {
            1
        } else if n > ceiling {
            ceiling as int
        } else {
            n as int
        },
        None => ceiling as int,
    }
}

/// How many messages a page is to hold: what is asked for, from one to the most
/// that a page may hold, which it is where nothing is asked for.
pub fn limit(args: &Arguments, configured: usize, safety_limit: usize) -> (r: usize)
    ensures
        r == page_limit(*args, configured, safety_limit),
        1 <= r <= 1000,
{
    let ceiling: usize = history_limit_ceiling(configured, safety_limit);
    match args.unsigned("limit") {
        Some(n) => if n < 1 {
            1
        } else if n > ceiling as u64 {
            ceiling
        } else {
            n as usize
        },
        None => ceiling,
    }
}

// ---------------------------------------------------------------------------
// Which conversations

/// What part of an account's history is meant.
#[derive(Clone, Copy, Debug, PartialEq, Eq, Structural)]
pub enum ScopeKind {
    Group,
    Private,
    AllGroups,
    Account,
}

/// A part of an account's history. The conversation is empty where more than one is meant.
pub struct HistoryScope {
    pub kind: ScopeKind,
    pub platform: String,
    pub account_id: String,
    pub conversation_id: String,
}

/// What a [`HistoryScope`] holds, as values.
#[verifier::ext_equal]
pub struct HistoryScopeModel {
    pub kind: ScopeKind,
    pub platform: Seq<char>,
    pub account_id: Seq<char>,
    pub conversation_id: Seq<char>,
}

impl View for HistoryScope {
    type V = HistoryScopeModel;

    open spec fn view(&self) -> HistoryScopeModel {
        HistoryScopeModel {
            kind: self.kind,
            platform: self.platform@,
            account_id: self.account_id@,
            conversation_id: self.conversation_id@,
        }
    }
}

impl HistoryScope {
    /// A value that holds the same.
    pub fn copy(&self) -> (r: HistoryScope)
        ensures
            r@ == self@,
    {
        HistoryScope {
            kind: self.kind,
            platform: self.platform.clone(),
            account_id: self.account_id.clone(),
            conversation_id: self.conversation_id.clone(),
        }
    }
}


/// The history of one conversation.
pub open spec fn one_scope(c: ConversationModel, kind: ConversationKind, id: Seq<char>) -> HistoryScopeModel {
    HistoryScopeModel {
        kind: match kind {
            ConversationKind::Group => ScopeKind::Group,
            ConversationKind::Private => ScopeKind::Private,
        },
        platform: c.platform,
        account_id: c.account_id,
        conversation_id: id,
    }
}

/// Whether another conversation's history may be read, or why not.
pub open spec fn cross_access(allowed: bool, is_admin: bool) -> Result<(), Seq<char>> {
    if !allowed {
        Err("cross-conversation history access is disabled"@)
    } else if !is_admin {
        Err(
            "only a GQY platform administrator may access another conversation's history"@,
        )
    } else {
        Ok(())
    }
}

/// Whether another conversation's history may be read: where that is switched on,
/// by an administrator.
pub fn require_cross_conversation_access(allow_cross_conversation: bool, is_admin: bool) -> (r:
    Result<(), String>)
    ensures
        res_text(r) == cross_access(allow_cross_conversation, is_admin),
{
    if !allow_cross_conversation {
        return Err("cross-conversation history access is disabled".to_owned());
    }
    if !is_admin {
        return Err(
            "only a GQY platform administrator may access another conversation's history".to_owned(),
        );
    }
    Ok(())
}

/// Whether the sender counts as an administrator here: only on the QQ platform,
/// and where the current settings or grants say so.
pub fn effective_admin(platform: &str, granted: bool) -> (r: bool)
    ensures
        r == (platform@ == "onebot"@ && granted),
{
    same(platform, "onebot") && granted
}

/// The kind of conversation that the arguments mean.
pub open spec fn kind_at(args: Arguments, group_given: bool, current: ConversationKind) -> Result<
    ConversationKind,
    Seq<char>,
> {
    match string_at(args, "conversation_kind"@) {
        Err(e) => Err(e),
        Ok(None) => if group_given {
            Ok(ConversationKind::Group)
        } else {
            Ok(current)
        },
        Ok(Some(k)) => if k == "group"@ {
            Ok(ConversationKind::Group)
        } else if k == "private"@ {
            Ok(ConversationKind::Private)
        } else {
            Err("conversation_kind must be group or private"@)
        },
    }
}

/// The part of the history that the arguments mean, or why it may not be read.
pub open spec fn scope_of_args(
    args: Arguments,
    c: ConversationModel,
    allowed: bool,
    is_admin: bool,
) -> Result<HistoryScopeModel, Seq<char>> {
    let everything = args.bool_at("all_conversations"@) == Some(true);
    let all_groups = args.bool_at("all_groups"@) == Some(true);
    if everything || all_groups {
        match cross_access(allowed, is_admin) {
            Err(e) => Err(e),
            Ok(_) => Ok(
                HistoryScopeModel {
                    kind: if everything {
                        ScopeKind::Account
                    } else {
                        ScopeKind::AllGroups
                    },
                    platform: c.platform,
                    account_id: c.account_id,
                    conversation_id: seq![],
                },
            ),
        }
    } else {
        match id_at(args, "conversation_id"@) {
            Err(e) => Err(e),
            Ok(conversation) => match id_at(args, "group_id"@) {
                Err(e) => Err(e),
                Ok(group) => if conversation is Some && group is Some {
                    Err("use conversation_id or group_id, not both"@)
                } else {
                    let explicit = if conversation is Some {
                        conversation
                    } else {
                        group
                    };
                    match kind_at(args, group is Some, c.kind) {
                        Err(e) => Err(e),
                        Ok(kind) => match explicit {
                            None => Ok(one_scope(c, c.kind, c.conversation_id)),
                            Some(id) => if kind == c.kind && id == c.conversation_id {
                                Ok(one_scope(c, kind, id))
                            } else {
                                match cross_access(allowed, is_admin) {
                                    Err(e) => Err(e),
                                    Ok(_) => Ok(one_scope(c, kind, id)),
                                }
                            },
                        },
                    }
                },
            },
        }
    }
}

/// Without the right to read other conversations, only the current one can be read.
pub proof fn law_ordinary_users_stay_in_their_conversation(
    args: Arguments,
    c: ConversationModel,
    allowed: bool,
    is_admin: bool,
)
    requires
        !allowed || !is_admin,
    ensures
        match scope_of_args(args, c, allowed, is_admin) {
            Ok(s) => s == one_scope(c, c.kind, c.conversation_id),
            Err(_) => true,
        },
{
}

/// The history of one conversation.
pub(crate) fn single_scope(c: &Conversation, kind: ConversationKind, id: String) -> (r: HistoryScope)
    ensures
        r@ == one_scope(c@, kind, id@),
{
    HistoryScope {
        kind: match kind {
            ConversationKind::Group => ScopeKind::Group,
            ConversationKind::Private => ScopeKind::Private,
        },
        platform: c.platform.clone(),
        account_id: c.account_id.clone(),
        conversation_id: id,
    }
}

/// The part of the history that the arguments mean: the current conversation
/// unless they name another, all groups or everything, which takes the right to
/// read other conversations.
pub fn history_scope(
    args: &Arguments,
    conversation: &Conversation,
    allow_cross_group: bool,
    is_admin: bool,
) -> (r: Result<HistoryScope, String>)
    ensures
        res_view(r) == scope_of_args(*args, conversation@, allow_cross_group, is_admin),
{
    let everything: bool = match args.boolean("all_conversations") {
        Some(b) => b,
        None => false,
    };
    let all_groups: bool = match args.boolean("all_groups") {
        Some(b) => b,
        None => false,
    };
    if everything || all_groups {
        match require_cross_conversation_access(allow_cross_group, is_admin) {
            Err(e) => {
                return Err(e);
            }
            Ok(_) => {}
        }
        let s: HistoryScope = HistoryScope {
            kind: if everything {
                ScopeKind::Account
            } else {
                ScopeKind::AllGroups
            },
            platform: conversation.platform.clone(),
            account_id: conversation.account_id.clone(),
            conversation_id: String::new(),
        };
        assert(s@.conversation_id =~= seq![]);
        return Ok(s);
    }
    let conversation_id: Option<String> = match optional_id(args, "conversation_id") {
        Err(e) => {
            return Err(e);
        }
        Ok(o) => o,
    };
    let group_id: Option<String> = match optional_id(args, "group_id") {
        Err(e) => {
            return Err(e);
        }
        Ok(o) => o,
    };
    let group_given: bool = group_id.is_some();
    if conversation_id.is_some() && group_given {
        return Err("use conversation_id or group_id, not both".to_owned());
    }
    let explicit: Option<String> = if conversation_id.is_some() { conversation_id } else { group_id };
    let kind: ConversationKind = match optional_string(args, "conversation_kind") {
        Err(e) => {
            return Err(e);
        }
        Ok(None) => if group_given {
            ConversationKind::Group
        } else {
            conversation.kind
        },
        Ok(Some(k)) => if same(&k, "group") {
            ConversationKind::Group
        } else if same(&k, "private") {
            ConversationKind::Private
        } else {
            return Err("conversation_kind must be group or private".to_owned());
        },
    };
    match explicit {
        None => Ok(
            single_scope(conversation, conversation.kind, conversation.conversation_id.clone()),
        ),
        Some(id) => {
            if !(kind == conversation.kind && same(&id, &conversation.conversation_id)) {
                match require_cross_conversation_access(allow_cross_group, is_admin) {
                    Err(e) => {
                        return Err(e);
                    }
                    Ok(_) => {}
                }
            }
            Ok(single_scope(conversation, kind, id))
        }
    }
}

/// The one group that the arguments mean, or why they mean none.
pub open spec fn group_of_args(
    args: Arguments,
    c: ConversationModel,
    allowed: bool,
    is_admin: bool,
) -> Result<HistoryScopeModel, Seq<char>> {
    match scope_of_args(args, c, allowed, is_admin) {
        Err(e) => Err(e),
        Ok(s) => match s.kind {
            ScopeKind::Group => Ok(s),
            ScopeKind::Private => Err("this operation requires a group conversation"@),
            _ => Err("this operation requires one group conversation"@),
        },
    }
}

/// The one group that the arguments mean.
pub fn explicit_or_current_group(
    args: &Arguments,
    conversation: &Conversation,
    allow_cross_group: bool,
    is_admin: bool,
) -> (r: Result<HistoryScope, String>)
    ensures
        res_view(r) == group_of_args(*args, conversation@, allow_cross_group, is_admin),
{
    match history_scope(args, conversation, allow_cross_group, is_admin) {
        Err(e) => Err(e),
        Ok(s) => match s.kind {
            ScopeKind::Group => Ok(s),
            ScopeKind::Private => Err("this operation requires a group conversation".to_owned()),
            _ => Err("this operation requires one group conversation".to_owned()),
        },
    }
}

// ---------------------------------------------------------------------------
// Over which time

/// What a time argument reads as; `local` is what the machine's clock says of it.
pub open spec fn time_at(
    args: Arguments,
    key: Seq<char>,
    end: bool,
    local: Option<(i64, i64)>,
) -> Result<Option<i64>, Seq<char>> {
    match string_at(args, key) {
        Err(e) => Err(e),
        Ok(None) => Ok(None),
        Ok(Some(s)) => match time_of(trim(s), end, local) {
            Ok(n) => Ok(Some(n)),
            Err(e) => Err(e),
        },
    }
}

/// Whether `local` is what the machine's clock says of the second that a time argument
/// names; nothing where it names none.
pub open spec fn clock_reading(
    args: Arguments,
    key: Seq<char>,
    end: bool,
    local: Option<(i64, i64)>,
) -> bool {
    match string_at(args, key) {
        Ok(Some(s)) => local_reading(trim(s), end, local),
        _ => local is None,
    }
}

/// The time range that the arguments give, from what the two times read as.
pub open spec fn range_from(
    since: Result<Option<i64>, Seq<char>>,
    until: Result<Option<i64>, Seq<char>>,
) -> Result<(Option<i64>, Option<i64>), Seq<char>> {
    match since {
        Err(e) => Err(e),
        Ok(a) => match until {
            Err(e) => Err(e),
            Ok(b) => if a is Some && b is Some && a->0 > b->0 {
                Err("start_time must not be later than end_time"@)
            } else {
                Ok((a, b))
            },
        },
    }
}

/// A time argument.
pub fn time_argument(args: &Arguments, key: &str, end: bool) -> (r: Result<Option<i64>, String>)
    ensures
        exists|local: Option<(i64, i64)>|
            clock_reading(*args, key@, end, local) && res_text(r) == #[trigger] time_at(
                *args,
                key@,
                end,
                local,
            ),
{
    match optional_string(args, key) {
        Err(e) => {
            assert(time_at(*args, key@, end, None) == Err::<Option<i64>, Seq<char>>(e@));
            Err(e)
        }
        Ok(None) => {
            assert(time_at(*args, key@, end, None) == Ok::<Option<i64>, Seq<char>>(None));
            Ok(None)
        }
        Ok(Some(s)) => {
            let t: Result<i64, String> = parse_time(&s, end);
            let ghost local = choose|local: Option<(i64, i64)>|
                local_reading(trim(s@), end, local) && res_text(t) == #[trigger] time_of(
                    trim(s@),
                    end,
                    local,
                );
            let r: Result<Option<i64>, String> = match t {
                Ok(n) => Ok(Some(n)),
                Err(e) => Err(e),
            };
            assert(res_text(r) == time_at(*args, key@, end, local));
            r
        }
    }
}

/// The time range that the arguments give, from what the two times read as: never
/// one that ends before it starts.
pub fn time_range_from(
    since: Result<Option<i64>, String>,
    until: Result<Option<i64>, String>,
) -> (r: Result<(Option<i64>, Option<i64>), String>)
    ensures
        res_text(r) == range_from(res_text(since), res_text(until)),
{
    match since {
        Err(e) => Err(e),
        Ok(a) => match until {
            Err(e) => Err(e),
            Ok(b) => {
                if let (Some(x), Some(y)) = (a, b) {
                    if x > y {
                        return Err("start_time must not be later than end_time".to_owned());
                    }
                }
                Ok((a, b))
            }
        },
    }
}

/// The time range that the arguments `start_time` and `end_time` give.
pub fn parsed_time_range(args: &Arguments) -> (r: Result<(Option<i64>, Option<i64>), String>)
    ensures
        exists|l1: Option<(i64, i64)>, l2: Option<(i64, i64)>|
            clock_reading(*args, "start_time"@, false, l1) && clock_reading(
                *args,
                "end_time"@,
                true,
                l2,
            ) && res_text(r) == range_from(
                #[trigger] time_at(*args, "start_time"@, false, l1),
                #[trigger] time_at(*args, "end_time"@, true, l2),
            ),
{
    let since: Result<Option<i64>, String> = time_argument(args, "start_time", false);
    let until: Result<Option<i64>, String> = time_argument(args, "end_time", true);
    time_range_from(since, until)
}

/// The time range of a search, from the explicit range and the number of days.
pub open spec fn search_range(
    range: Result<(Option<i64>, Option<i64>), Seq<char>>,
    days: Result<Option<u32>, Seq<char>>,
    now: i64,
) -> Result<(Option<i64>, Option<i64>), Seq<char>> {
    match range {
        Err(e) => Err(e),
        Ok(x) => if x.0 is Some || x.1 is Some {
            Ok(x)
        } else {
            match days {
                Err(e) => Err(e),
                Ok(None) => Ok(x),
                Ok(Some(d)) => Ok((Some(i64_bounded(now - d * 86400)), None)),
            }
        },
    }
}

/// The time range of a search: the explicit one, or else the last so many days.
pub fn search_range_from(
    range: Result<(Option<i64>, Option<i64>), String>,
    args: &Arguments,
    now: i64,
) -> (r: Result<(Option<i64>, Option<i64>), String>)
    ensures
        res_text(r) == search_range(res_text(range), positive_at(*args, "days"@), now),
{
    match range {
        Err(e) => Err(e),
        Ok(x) => {
            if x.0.is_some() || x.1.is_some() {
                return Ok(x);
            }
            match positive_u32(args, "days") {
                Err(e) => Err(e),
                Ok(None) => Ok(x),
                Ok(Some(d)) => Ok((Some(saturating_difference(now, (d as i64) * 86400)), None)),
            }
        }
    }
}

/// The time range of a search.
pub fn apply_time_filter(args: &Arguments, now: i64) -> (r: Result<
    (Option<i64>, Option<i64>),
    String,
>)
    ensures
        exists|l1: Option<(i64, i64)>, l2: Option<(i64, i64)>|
            clock_reading(*args, "start_time"@, false, l1) && clock_reading(
                *args,
                "end_time"@,
                true,
                l2,
            ) && res_text(r) == search_range(
                range_from(
                    #[trigger] time_at(*args, "start_time"@, false, l1),
                    #[trigger] time_at(*args, "end_time"@, true, l2),
                ),
                positive_at(*args, "days"@),
                now,
            ),
{
    let range: Result<(Option<i64>, Option<i64>), String> = parsed_time_range(args);
    search_range_from(range, args, now)
}

// ---------------------------------------------------------------------------
// Searching members

/// How well a member matches: by number, then by name, a whole match before one at
/// the start, and that before one within.
pub open spec fn match_rank(
    member: GroupMemberModel,
    query: Seq<char>,
    folded: Seq<char>,
) -> Option<u8> {
    let card = lowercase(member.card);
    let nickname = lowercase(member.nickname);
    if member.user_id == query {
        Some(0)
    } else if has_prefix(member.user_id, query) {
        Some(1)
    } else if occurs(member.user_id, query) {
        Some(2)
    } else {
        name_rank(card, nickname, folded)
    }
}

/// How well the names of a member match.
pub open spec fn name_rank(card: Seq<char>, nickname: Seq<char>, folded: Seq<char>) -> Option<u8> {
    if card == folded || nickname == folded {
        Some(0)
    } else if has_prefix(card, folded) || has_prefix(nickname, folded) {
        Some(1)
    } else if occurs(card, folded) || occurs(nickname, folded) {
        Some(2)
    } else {
        None
    }
}

/// How well the names of a member, in lower case, match.
pub fn name_match_rank(card: &str, nickname: &str, folded_query: &str) -> (r: Option<u8>)
    ensures
        r == name_rank(card@, nickname@, folded_query@),
{
    if same(card, folded_query) || same(nickname, folded_query) {
        Some(0)
    } else if begins_with(card, folded_query) || begins_with(nickname, folded_query) {
        Some(1)
    } else if contains_text(card, folded_query) || contains_text(nickname, folded_query) {
        Some(2)
    } else {
        None
    }
}

/// How well a member matches a query; `folded_query` is the query in lower case.
pub fn group_member_match_rank(member: &GroupMember, query: &str, folded_query: &str) -> (r: Option<
    u8,
>)
    ensures
        r == match_rank(member@, query@, folded_query@),
{
    if same(&member.user_id, query) {
        return Some(0);
    }
    if begins_with(&member.user_id, query) {
        return Some(1);
    }
    if contains_text(&member.user_id, query) {
        return Some(2);
    }
    let card: String = member.card.as_str().to_lowercase();
    let nickname: String = member.nickname.as_str().to_lowercase();
    name_match_rank(&card, &nickname, folded_query)
}

/// The members that match, by their places.
pub open spec fn member_matches(
    members: Seq<GroupMemberModel>,
    query: Seq<char>,
    folded: Seq<char>,
) -> spec_fn(int) -> bool {
    |i: int| match_rank(members[i], query, folded) is Some
}

/// The ranks of the members at `places`.
pub open spec fn ranks_at(
    members: Seq<GroupMemberModel>,
    query: Seq<char>,
    folded: Seq<char>,
    places: Seq<int>,
) -> Seq<i64> {
    places.map_values(
        |i: int|
            match match_rank(members[i], query, folded) {
                Some(n) => n as i64,
                None => 0,
            },
    )
}

/// The members that match, the best first.
pub open spec fn ranked_members(members: Seq<GroupMemberModel>, query: Seq<char>) -> Seq<int> {
    let folded = lowercase(query);
    let kept = indices_where(members.len(), member_matches(members, query, folded));
    arranged(kept, stable_order(ranks_at(members, query, folded, kept)))
}

/// The result of a member search.
pub struct MemberSearch {
    /// How many members match.
    pub matched_count: usize,
    /// The places of those that are returned, the best first.
    pub returned: Vec<usize>,
    /// Whether some that match are not returned.
    pub truncated: bool,
}

/// Searches the members by number, name within the group and nickname: the best
/// matches first, equal ones in the order of the list, at most `limit`.
pub fn search_members(members: &Vec<GroupMember>, query: &str, limit: usize) -> (r: MemberSearch)
    ensures
        ({
            let ranked = ranked_members(views(members@), query@);
            &&& r.matched_count == ranked.len()
            &&& as_ints(r.returned@) == first_of(ranked, limit as nat)
            &&& r.truncated == (ranked.len() > limit)
        }),
{
    let folded: String = query.to_lowercase();
    let ghost all = views(members@);
    let ghost f = member_matches(all, query@, folded@);
    let mut kept: Vec<usize> = Vec::new();
    let mut keys: Vec<i64> = Vec::new();
    let mut i: usize = 0;
    assert(as_ints(kept@) =~= indices_where(0, f));
    assert(keys@ =~= ranks_at(all, query@, folded@, as_ints(kept@)));
    while i < members.len()
        invariant
            i <= members.len(),
            all == views(members@),
            f == member_matches(all, query@, folded@),
            as_ints(kept@) == indices_where(i as nat, f),
            keys@ == ranks_at(all, query@, folded@, as_ints(kept@)),
        decreases members.len() - i,
    {
        assert(all[i as int] == members@[i as int]@);
        match group_member_match_rank(&members[i], query, &folded) {
            Some(n) => {
                assert(f(i as int));
                let ghost before = as_ints(kept@);
                kept.push(i);
                keys.push(n as i64);
                assert(as_ints(kept@) =~= before.push(i as int));
                assert(keys@ =~= ranks_at(all, query@, folded@, as_ints(kept@)));
            }
            None => {
                assert(!f(i as int));
            }
        }
        i += 1;
    }
    let order: Vec<usize> = sort_indices(&keys);
    let ghost ks = as_ints(kept@);
    let ghost ranked = arranged(ks, as_ints(order@));
    let mut sorted: Vec<usize> = Vec::new();
    let mut q: usize = 0;
    while q < order.len()
        invariant
            q <= order.len(),
            sorted.len() == q,
            keys.len() == kept.len(),
            ks == as_ints(kept@),
            ranked == arranged(ks, as_ints(order@)),
            forall|k: int| 0 <= k < order.len() ==> #[trigger] order@[k] < keys.len(),
            forall|k: int| 0 <= k < q ==> #[trigger] sorted@[k] as int == ranked[k],
        decreases order.len() - q,
    {
        sorted.push(kept[order[q]]);
        q += 1;
    }
    assert(as_ints(sorted@) =~= ranked);
    let returned: Vec<usize> = pick(&sorted, false, limit);
    MemberSearch {
        matched_count: sorted.len(),
        truncated: sorted.len() > limit,
        returned: returned,
    }
}

/// Whether a query is looked up as a number first: all of it is digits.
pub fn is_exact_query(query: &str) -> (r: bool)
    ensures
        r == (query@.len() == 0 || all_digits(query@)),
{
    is_empty_text(query) || digits_only(query)
}

// ---------------------------------------------------------------------------
// What is asked for is what is read

proof fn lemma_digits_are_trimmed(s: Seq<char>)
    requires
        all_digits(s),
    ensures
        trim(s) == s,
{
    assert(is_digit(s[0]));
    assert(is_digit(s[s.len() - 1]));
    law_trimmed_stays(s);
}

/// A call that gives its times in seconds means just these seconds, whatever the clock
/// would say; a period that ends before it starts is refused.
pub proof fn law_a_period_in_seconds(
    args: Arguments,
    start: String,
    end: String,
    s: nat,
    e: nat,
    l1: Option<(i64, i64)>,
    l2: Option<(i64, i64)>,
    now: i64,
)
    requires
        args.at("start_time"@) == Some(Argument::One(Scalar::Text(start))),
        args.at("end_time"@) == Some(Argument::One(Scalar::Text(end))),
        trim(start@) == decimal(s),
        trim(end@) == decimal(e),
        s <= i64::MAX,
        e <= i64::MAX,
    ensures
        ({
            let range = search_range(
                range_from(
                    time_at(args, "start_time"@, false, l1),
                    time_at(args, "end_time"@, true, l2),
                ),
                positive_at(args, "days"@),
                now,
            );
            &&& s <= e ==> range == Ok::<(Option<i64>, Option<i64>), Seq<char>>(
                (Some(s as i64), Some(e as i64)),
            )
            &&& s > e ==> range is Err
        }),
{
    law_numbers_read_back(s as int);
    law_numbers_read_back(e as int);
    law_decimal_reads_back(s);
    law_decimal_reads_back(e);
    lemma_digits_are_trimmed(decimal(s));
    lemma_digits_are_trimmed(decimal(e));
}

/// A call that gives one end of the period leaves the other open.
pub proof fn law_an_open_period(
    args: Arguments,
    one: String,
    s: nat,
    l: Option<(i64, i64)>,
    now: i64,
)
    requires
        trim(one@) == decimal(s),
        s <= i64::MAX,
    ensures
        ({
            let range = search_range(
                range_from(
                    time_at(args, "start_time"@, false, l),
                    time_at(args, "end_time"@, true, l),
                ),
                positive_at(args, "days"@),
                now,
            );
            &&& args.at("start_time"@) == Some(Argument::One(Scalar::Text(one))) && args.at(
                "end_time"@,
            ) is None ==> range == Ok::<(Option<i64>, Option<i64>), Seq<char>>(
                (Some(s as i64), None),
            )
            &&& args.at("end_time"@) == Some(Argument::One(Scalar::Text(one))) && args.at(
                "start_time"@,
            ) is None ==> range == Ok::<(Option<i64>, Option<i64>), Seq<char>>(
                (None, Some(s as i64)),
            )
        }),
{
    law_numbers_read_back(s as int);
    law_decimal_reads_back(s);
    lemma_digits_are_trimmed(decimal(s));
}

/// A call that only gives days means those until now; one that gives nothing means all of
/// time.
pub proof fn law_a_period_in_days(
    args: Arguments,
    d: u64,
    l1: Option<(i64, i64)>,
    l2: Option<(i64, i64)>,
    now: i64,
)
    requires
        args.at("start_time"@) is None,
        args.at("end_time"@) is None,
        now >= 0,
    ensures
        ({
            let range = search_range(
                range_from(
                    time_at(args, "start_time"@, false, l1),
                    time_at(args, "end_time"@, true, l2),
                ),
                positive_at(args, "days"@),
                now,
            );
            &&& args.at("days"@) is None ==> range == Ok::<(Option<i64>, Option<i64>), Seq<char>>(
                (None, None),
            )
            &&& args.at("days"@) == Some(Argument::One(Scalar::Unsigned(d))) && 0 < d <= u32::MAX
                ==> range == Ok::<(Option<i64>, Option<i64>), Seq<char>>(
                (Some((now - d * 86400) as i64), None),
            )
            &&& args.at("days"@) == Some(Argument::One(Scalar::Unsigned(d))) && (d == 0 || d
                > u32::MAX) ==> range is Err
        }),
{
}

/// A number that names someone is taken as it is written, in digits or as a number; what is
/// not in digits is refused, and what is not there names no one.
pub proof fn law_ids_are_taken_as_written(args: Arguments, key: Seq<char>, s: String, n: u64)
    ensures
        args.at(key) == Some(Argument::One(Scalar::Text(s))) ==> {
            &&& trim(s@).len() > 0 && all_digits(trim(s@)) && trim(s@) != "0"@ ==> id_at(args, key)
                == Ok::<Option<Seq<char>>, Seq<char>>(Some(trim(s@)))
            &&& trim(s@).len() > 0 && !all_digits(trim(s@)) ==> id_at(args, key) is Err
            &&& trim(s@) == "0"@ ==> id_at(args, key) is Err
            &&& trim(s@).len() == 0 ==> id_at(args, key) == Ok::<Option<Seq<char>>, Seq<char>>(None)
        },
        args.at(key) == Some(Argument::One(Scalar::Unsigned(n))) && n > 0 ==> id_at(args, key)
            == Ok::<Option<Seq<char>>, Seq<char>>(Some(decimal(n as nat))),
        args.at(key) is None ==> id_at(args, key) == Ok::<Option<Seq<char>>, Seq<char>>(None),
{
    lemma_number_id(args, key, n);
    reveal_strlit("0");
}

proof fn lemma_number_id(args: Arguments, key: Seq<char>, n: u64)
    ensures
        args.at(key) == Some(Argument::One(Scalar::Unsigned(n))) && n > 0 ==> id_at(args, key)
            == Ok::<Option<Seq<char>>, Seq<char>>(Some(decimal(n as nat))),
{
    reveal_strlit("0");
    law_decimal_reads_back(n as nat);
    law_decimal_is_short(n as nat);
    if n > 0 {
        assert(decimal(n as nat)[0] != "0"@[0]);
    }
}

/// A page is as long as the call asks, at least one and at most what may be; without a
/// word from the call it is as long as may be.
pub proof fn law_pages_are_as_long_as_asked(args: Arguments, configured: usize, safety: usize, n: u64)
    requires
        1 <= configured <= safety <= 1000,
    ensures
        1 <= page_limit(args, configured, safety) <= configured,
        args.at("limit"@) is None ==> page_limit(args, configured, safety) == configured,
        args.at("limit"@) == Some(Argument::One(Scalar::Unsigned(n))) && 1 <= n <= configured
            ==> page_limit(args, configured, safety) == n,
        args.at("limit"@) == Some(Argument::One(Scalar::Unsigned(n))) && n > configured
            ==> page_limit(args, configured, safety) == configured,
{
}

/// A page is never longer than is safe, however much is asked and allowed.
pub proof fn law_pages_are_bounded(args: Arguments, configured: usize, safety: usize)
    ensures
        1 <= page_limit(args, configured, safety) <= 1000,
        safety >= 1 ==> page_limit(args, configured, safety) <= safety,
        configured >= 1 ==> page_limit(args, configured, safety) <= configured,
{
}

/// A call that names no conversation means the one it is made in; an administrator who may
/// look elsewhere means the one that is named, or all of them.
pub proof fn law_the_conversation_that_is_meant(
    args: Arguments,
    c: ConversationModel,
    allowed: bool,
    is_admin: bool,
    id: u64,
)
    requires
        args.at("conversation_kind"@) is None,
    ensures
        ({
            let s = scope_of_args(args, c, allowed, is_admin);
            let everywhere = args.at("all_conversations"@) == Some(
                Argument::One(Scalar::Bool(true)),
            );
            let groups = args.at("all_groups"@) == Some(Argument::One(Scalar::Bool(true)));
            let none = args.at("conversation_id"@) is None;
            let no_group = args.at("group_id"@) is None;
            &&& !everywhere && !groups && none && no_group ==> s is Ok && s->Ok_0.conversation_id
                == c.conversation_id && ((s->Ok_0.kind == ScopeKind::Group) <==> c.kind
                == ConversationKind::Group) && ((s->Ok_0.kind == ScopeKind::Private) <==> c.kind
                == ConversationKind::Private)
            &&& !everywhere && !groups && none && id > 0 && args.at("group_id"@) == Some(
                Argument::One(Scalar::Unsigned(id)),
            ) && allowed && is_admin ==> s is Ok && s->Ok_0.kind == ScopeKind::Group
                && s->Ok_0.conversation_id == decimal(id as nat)
            &&& !everywhere && !groups && no_group && id > 0 && args.at("conversation_id"@) == Some(
                Argument::One(Scalar::Unsigned(id)),
            ) && allowed && is_admin ==> s is Ok && ((s->Ok_0.kind == ScopeKind::Group) <==> c.kind
                == ConversationKind::Group) && s->Ok_0.conversation_id == decimal(id as nat)
            &&& everywhere && allowed && is_admin ==> s is Ok && s->Ok_0.kind == ScopeKind::Account
            &&& groups && !everywhere && allowed && is_admin ==> s is Ok && s->Ok_0.kind
                == ScopeKind::AllGroups
            &&& (everywhere || groups) && !(allowed && is_admin) ==> s is Err
            &&& s is Ok ==> s->Ok_0.platform == c.platform && s->Ok_0.account_id == c.account_id
        }),
{
    lemma_number_id(args, "group_id"@, id);
    lemma_number_id(args, "conversation_id"@, id);
}

/// The kind of conversation that a call names goes with the number that it names.
pub proof fn law_the_kind_that_is_named(
    args: Arguments,
    c: ConversationModel,
    word: String,
    id: u64,
)
    requires
        args.at("all_conversations"@) is None,
        args.at("all_groups"@) is None,
        args.at("group_id"@) is None,
        args.at("conversation_id"@) == Some(Argument::One(Scalar::Unsigned(id))),
        id > 0,
        args.at("conversation_kind"@) == Some(Argument::One(Scalar::Text(word))),
    ensures
        ({
            let s = scope_of_args(args, c, true, true);
            &&& trim(word@) == "group"@ ==> s is Ok && s->Ok_0.kind == ScopeKind::Group
                && s->Ok_0.conversation_id == decimal(id as nat)
            &&& trim(word@) == "private"@ ==> s is Ok && s->Ok_0.kind == ScopeKind::Private
                && s->Ok_0.conversation_id == decimal(id as nat)
            &&& s is Ok ==> trim(word@) == "group"@ || trim(word@) == "private"@ || trim(word@).len()
                == 0
        }),
{
    reveal_strlit("group");
    reveal_strlit("private");
    assert("group"@.len() != "private"@.len());
    lemma_number_id(args, "conversation_id"@, id);
}

/// Whether a query is found in the number or in a name of a member, in any case of letters.
pub open spec fn fits_query(m: GroupMemberModel, query: Seq<char>) -> bool {
    occurs(m.user_id, query) || occurs(lowercase(m.card), lowercase(query)) || occurs(
        lowercase(m.nickname),
        lowercase(query),
    )
}

/// Whether a query is the number of a member or, where it is no part of that, a name.
pub open spec fn is_query(m: GroupMemberModel, query: Seq<char>) -> bool {
    m.user_id == query || (!occurs(m.user_id, query) && (lowercase(m.card) == lowercase(query)
        || lowercase(m.nickname) == lowercase(query)))
}

/// Every member that is returned matches, every one that matches is counted, and the better
/// match comes first.
pub proof fn law_members_are_found(members: Seq<GroupMemberModel>, query: Seq<char>)
    ensures
        ({
            let found = ranked_members(members, query);
            &&& found.no_duplicates()
            &&& forall|i: int|
                0 <= i < members.len() ==> (fits_query(#[trigger] members[i], query)
                    <==> found.contains(i))
            &&& forall|k: int| 0 <= k < found.len() ==> 0 <= #[trigger] found[k] < members.len()
            &&& forall|k: int, m: int|
                0 <= k < m < found.len() && is_query(members[#[trigger] found[m]], query)
                    ==> is_query(members[#[trigger] found[k]], query)
        }),
{
    let folded = lowercase(query);
    let p = member_matches(members, query, folded);
    let kept = indices_where(members.len(), p);
    let keys = ranks_at(members, query, folded, kept);
    lemma_indices_where(members.len(), p);
    law_indices_where(members.len(), p);
    law_stable_order(keys, keys.len());
    let order = stable_order(keys);
    let found = ranked_members(members, query);
    assert forall|i: int| 0 <= i < members.len() implies (fits_query(#[trigger] members[i], query)
        <==> p(i)) by {
        let m = members[i];
        lemma_prefix_occurs(m.user_id, query);
        lemma_prefix_occurs(lowercase(m.card), folded);
        lemma_prefix_occurs(lowercase(m.nickname), folded);
    }
    assert forall|k: int| 0 <= k < found.len() implies 0 <= #[trigger] found[k] < members.len()
        && p(found[k]) && kept.contains(found[k]) by {
        assert(found[k] == kept[order[k]]);
    }
    assert forall|i: int| 0 <= i < members.len() implies (fits_query(#[trigger] members[i], query)
        <==> kept.contains(i)) by {
        assert(p(i) <==> fits_query(members[i], query));
    }
    assert forall|i: int| kept.contains(i) implies found.contains(i) by {
        let x = choose|x: int| 0 <= x < kept.len() && kept[x] == i;
        assert(order.contains(x));
        let k = choose|k: int| 0 <= k < order.len() && order[k] == x;
        assert(found[k] == i);
    }
    assert(found.no_duplicates()) by {
        assert forall|a: int, b: int| 0 <= a < found.len() && 0 <= b < found.len() && a != b implies found[a]
            != found[b] by {
            assert(order[a] != order[b]);
            assert(0 <= order[a] < kept.len() && 0 <= order[b] < kept.len());
            if order[a] < order[b] {
                assert(kept[order[a]] < kept[order[b]]);
            } else {
                assert(kept[order[b]] < kept[order[a]]);
            }
            assert(found[a] == kept[order[a]] && found[b] == kept[order[b]]);
        }
    }
    assert forall|k: int, m: int|
        0 <= k < m < found.len() && is_query(members[#[trigger] found[m]], query) implies is_query(
        members[#[trigger] found[k]],
        query,
    ) by {
        assert(found[k] == kept[order[k]] && found[m] == kept[order[m]]);
        assert(keys[order[k]] <= keys[order[m]]);
        let a = members[found[k]];
        let b = members[found[m]];
        lemma_prefix_occurs(a.user_id, query);
        lemma_prefix_occurs(b.user_id, query);
        assert(match_rank(b, query, folded) == Some(0u8));
        assert(match_rank(a, query, folded) is Some);
        assert(match_rank(a, query, folded) == Some(0u8));
    }
}

proof fn lemma_prefix_occurs(s: Seq<char>, x: Seq<char>)
    ensures
        has_prefix(s, x) ==> occurs(s, x),
        s == x ==> has_prefix(s, x),
{
    if has_prefix(s, x) {
        assert(crate::text::stands_at(s, x, 0));
    }
    if s == x {
        assert(s.subrange(0, s.len() as int) =~= s);
    }
}

/// As many members are listed as are asked for, which must be some and not too many; and a
/// question about one group is not asked elsewhere.
pub proof fn law_as_many_members_as_asked(
    args: Arguments,
    n: u64,
    max: usize,
    c: ConversationModel,
    allowed: bool,
    admin: bool,
    platform: &str,
    granted: bool,
    r: bool,
)
    requires
        call_ensures(effective_admin, (platform, granted), r),
    ensures
        args.at("limit"@) == Some(Argument::One(Scalar::Unsigned(n))) && 1 <= n <= max
            ==> member_limit(args, max) == Ok::<usize, Seq<char>>(n as usize),
        args.at("limit"@) == Some(Argument::One(Scalar::Unsigned(n))) && (n == 0 || n > max)
            ==> member_limit(args, max) is Err,
        args.at("limit"@) is None ==> member_limit(args, max) is Err,
        group_of_args(args, c, allowed, admin) is Ok ==> group_of_args(
            args,
            c,
            allowed,
            admin,
        )->Ok_0.kind == ScopeKind::Group && scope_of_args(args, c, allowed, admin) == group_of_args(
            args,
            c,
            allowed,
            admin,
        ),
        scope_of_args(args, c, allowed, admin) is Ok && scope_of_args(
            args,
            c,
            allowed,
            admin,
        )->Ok_0.kind == ScopeKind::Group ==> group_of_args(args, c, allowed, admin) is Ok,
        r <==> platform@ == "onebot"@ && granted,
{
}

} // verus!
