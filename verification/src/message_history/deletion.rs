//! Deleting history.

use crate::arguments::{Argument, Arguments, Scalar};
use crate::message_history::args::{
    clock_reading, history_scope, id_at, law_ids_are_taken_as_written, optional_id, positive_at,
    positive_u32, range_from, required_string, required_text, scope_of_args, time_argument, time_at, time_range_from, HistoryScope,
    HistoryScopeModel, ScopeKind,
};
use crate::numbers::{decimal, decimal_int, decimal_int_text, decimal_text};
use crate::platform::{Conversation, ConversationModel};
use crate::text::{
    has_prefix, law_writing_on_loses_nothing, occurs, opt_text, res_text, res_view, same, trim,
};
use vstd::prelude::*;
use vstd::string::*;

verus! {

/// What is kept when history is deleted.
#[derive(Clone, Copy, Debug, PartialEq, Eq, Structural)]
pub enum DeleteMode {
    /// Nothing.
    All,
    /// The messages of the last so many days.
    KeepDays(u32),
}

/// A request to delete history.
pub struct DeleteRequest {
    pub scope: HistoryScope,
    pub mode: DeleteMode,
    pub sender_id: Option<String>,
    pub since: Option<i64>,
    pub until: Option<i64>,
}

/// What a [`DeleteRequest`] holds, as values.
#[verifier::ext_equal]
pub struct DeleteRequestModel {
    pub scope: HistoryScopeModel,
    pub mode: DeleteMode,
    pub sender_id: Option<Seq<char>>,
    pub since: Option<i64>,
    pub until: Option<i64>,
}

impl View for DeleteRequest {
    type V = DeleteRequestModel;

    open spec fn view(&self) -> DeleteRequestModel {
        DeleteRequestModel {
            scope: self.scope@,
            mode: self.mode,
            sender_id: opt_text(self.sender_id),
            since: self.since,
            until: self.until,
        }
    }
}


/// The message that a turn answers, as far as it shows who asks.
pub struct LiveMessage {
    /// Whether it is a message and no notice.
    pub is_message: bool,
    pub sender_id: String,
    pub conversation: Conversation,
}

/// What a [`LiveMessage`] holds, as values.
#[verifier::ext_equal]
pub struct LiveMessageModel {
    pub is_message: bool,
    pub sender_id: Seq<char>,
    pub conversation: ConversationModel,
}

impl View for LiveMessage {
    type V = LiveMessageModel;

    open spec fn view(&self) -> LiveMessageModel {
        LiveMessageModel {
            is_message: self.is_message,
            sender_id: self.sender_id@,
            conversation: self.conversation@,
        }
    }
}


/// Whether the message that the turn answers comes from who is said to ask, where
/// it is said to come from.
pub open spec fn live_message(
    event: Option<LiveMessageModel>,
    sender_id: Seq<char>,
    c: ConversationModel,
) -> Result<(), Seq<char>> {
    match event {
        None => Err("history deletion requires a live platform message"@),
        Some(e) => if !e.is_message || e.sender_id != sender_id || e.conversation != c {
            Err("history deletion identity does not match the current platform message"@)
        } else {
            Ok(())
        },
    }
}

fn same_conversation(a: &Conversation, b: &Conversation) -> (r: bool)
    ensures
        r == (a@ == b@),
{
    let r: bool = same(&a.platform, &b.platform) && same(&a.account_id, &b.account_id) && a.kind
        == b.kind && same(&a.conversation_id, &b.conversation_id);
    r
}

/// Whether the message that the turn answers is a live one and matches the turn.
pub fn live_admin_message(
    event: &Option<LiveMessage>,
    sender_id: &str,
    conversation: &Conversation,
) -> (r: Result<(), String>)
    ensures
        res_text(r) == live_message(crate::text::opt_view(*event), sender_id@, conversation@),
{
    match event {
        None => Err("history deletion requires a live platform message".to_owned()),
        Some(e) => {
            if !e.is_message || !same(&e.sender_id, sender_id) || !same_conversation(
                &e.conversation,
                conversation,
            ) {
                return Err(
                    "history deletion identity does not match the current platform message".to_owned(),
                );
            }
            Ok(())
        }
    }
}

/// A part of the history, in words.
pub open spec fn scope_words(s: HistoryScopeModel) -> Seq<char> {
    let head = s.platform + ":"@ + s.account_id;
    match s.kind {
        ScopeKind::Group => head + ":group:"@ + s.conversation_id,
        ScopeKind::Private => head + ":private:"@ + s.conversation_id,
        ScopeKind::AllGroups => head + ":all_groups"@,
        ScopeKind::Account => head + ":all_conversations"@,
    }
}

/// A part of the history, in words.
pub fn describe_scope(s: &HistoryScope) -> (r: String)
    ensures
        r@ == scope_words(s@),
{
    let mut out: String = s.platform.clone();
    out.append(":");
    out.append(&s.account_id);
    match s.kind {
        ScopeKind::Group => {
            out.append(":group:");
            out.append(&s.conversation_id);
        }
        ScopeKind::Private => {
            out.append(":private:");
            out.append(&s.conversation_id);
        }
        ScopeKind::AllGroups => {
            out.append(":all_groups");
        }
        ScopeKind::Account => {
            out.append(":all_conversations");
        }
    }
    out
}

/// What is kept, in words.
pub open spec fn mode_words(mode: DeleteMode) -> Seq<char> {
    match mode {
        DeleteMode::All => "all"@,
        DeleteMode::KeepDays(days) => "keep_days:"@ + decimal(days as nat),
    }
}

/// What is kept, in words.
pub fn describe_delete_mode(mode: DeleteMode) -> (r: String)
    ensures
        r@ == mode_words(mode),
{
    match mode {
        DeleteMode::All => "all".to_owned(),
        DeleteMode::KeepDays(days) => {
            let mut out: String = "keep_days:".to_owned();
            let digits: String = decimal_text(days as u64);
            out.append(&digits);
            out
        }
    }
}

/// A request, in words.
pub open spec fn request_words(r: DeleteRequestModel) -> Seq<char> {
    let head = mode_words(r.mode);
    let by = match r.sender_id {
        Some(id) => head + ":sender="@ + id,
        None => head,
    };
    let from = match r.since {
        Some(t) => by + ":from="@ + decimal_int(t as int),
        None => by,
    };
    match r.until {
        Some(t) => from + ":to="@ + decimal_int(t as int),
        None => from,
    }
}

/// A request, in words.
pub fn describe_delete_request(request: &DeleteRequest) -> (r: String)
    ensures
        r@ == request_words(request@),
{
    let mut out: String = describe_delete_mode(request.mode);
    if let Some(id) = &request.sender_id {
        out.append(":sender=");
        out.append(id);
    }
    if let Some(t) = request.since {
        out.append(":from=");
        let digits: String = decimal_int_text(t);
        out.append(&digits);
    }
    if let Some(t) = request.until {
        out.append(":to=");
        let digits: String = decimal_int_text(t);
        out.append(&digits);
    }
    out
}

/// What is to be kept, by the arguments.
pub open spec fn mode_of(args: Arguments) -> Result<DeleteMode, Seq<char>> {
    match required_text(args, "mode"@, "mode"@ + " is required"@) {
        Err(e) => Err(e),
        Ok(m) => if m == "all"@ {
            Ok(DeleteMode::All)
        } else if m == "keep_days"@ {
            match positive_at(args, "keep_days"@) {
                Err(e) => Err(e),
                Ok(None) => Err("keep_days is required for mode=keep_days"@),
                Ok(Some(d)) => Ok(DeleteMode::KeepDays(d)),
            }
        } else {
            Err("mode must be all or keep_days"@)
        },
    }
}

fn read_mode(args: &Arguments) -> (r: Result<DeleteMode, String>)
    ensures
        res_text(r) == mode_of(*args),
{
    match required_string(args, "mode") {
        Err(e) => Err(e),
        Ok(m) => {
            if same(&m, "all") {
                return Ok(DeleteMode::All);
            }
            if same(&m, "keep_days") {
                return match positive_u32(args, "keep_days") {
                    Err(e) => Err(e),
                    Ok(None) => Err("keep_days is required for mode=keep_days".to_owned()),
                    Ok(Some(d)) => Ok(DeleteMode::KeepDays(d)),
                };
            }
            Err("mode must be all or keep_days".to_owned())
        }
    }
}

/// What is to be deleted, or why nothing is. `live` is whether the message that
/// the turn answers matches the turn; `range` is the time range that the arguments
/// give.
pub open spec fn delete_request(
    args: Arguments,
    c: ConversationModel,
    allowed: bool,
    is_admin: bool,
    live: Result<(), Seq<char>>,
    range: Result<(Option<i64>, Option<i64>), Seq<char>>,
) -> Result<DeleteRequestModel, Seq<char>> {
    if !is_admin {
        Err("only a configured GQY platform administrator may delete history"@)
    } else {
        match live {
            Err(e) => Err(e),
            Ok(_) => match scope_of_args(args, c, allowed, is_admin) {
                Err(e) => Err(e),
                Ok(scope) => match mode_of(args) {
                    Err(e) => Err(e),
                    Ok(mode) => match id_at(args, "sender_id"@) {
                        Err(e) => Err(e),
                        Ok(sender) => match range {
                            Err(e) => Err(e),
                            Ok(x) => Ok(
                                DeleteRequestModel {
                                    scope: scope,
                                    mode: mode,
                                    sender_id: sender,
                                    since: x.0,
                                    until: x.1,
                                },
                            ),
                        },
                    },
                },
            },
        }
    }
}

/// What is to be deleted, given the time range that the arguments give.
pub fn delete_from(
    args: &Arguments,
    conversation: &Conversation,
    allow_cross: bool,
    is_admin: bool,
    live: Result<(), String>,
    range: Result<(Option<i64>, Option<i64>), String>,
) -> (r: Result<DeleteRequest, String>)
    ensures
        res_view(r) == delete_request(
            *args,
            conversation@,
            allow_cross,
            is_admin,
            res_text(live),
            res_text(range),
        ),
{
    if !is_admin {
        return Err("only a configured GQY platform administrator may delete history".to_owned());
    }
    match live {
        Err(e) => {
            return Err(e);
        }
        Ok(_) => {}
    }
    let scope: HistoryScope = match history_scope(args, conversation, allow_cross, is_admin) {
        Err(e) => {
            return Err(e);
        }
        Ok(s) => s,
    };
    let mode: DeleteMode = match read_mode(args) {
        Err(e) => {
            return Err(e);
        }
        Ok(m) => m,
    };
    let sender: Option<String> = match optional_id(args, "sender_id") {
        Err(e) => {
            return Err(e);
        }
        Ok(o) => o,
    };
    match range {
        Err(e) => Err(e),
        Ok(x) => Ok(
            DeleteRequest { scope: scope, mode: mode, sender_id: sender, since: x.0, until: x.1 },
        ),
    }
}

/// What is to be deleted: only by an administrator, only in answer to a live
/// message of theirs, and only where they may read.
pub fn delete(
    args: &Arguments,
    conversation: &Conversation,
    allow_cross: bool,
    is_admin: bool,
    event: &Option<LiveMessage>,
    sender_id: &str,
) -> (r: Result<DeleteRequest, String>)
    ensures
        exists|l1: Option<(i64, i64)>, l2: Option<(i64, i64)>|
            clock_reading(*args, "start_time"@, false, l1) && clock_reading(
                *args,
                "end_time"@,
                true,
                l2,
            ) && res_view(r) == delete_request(
                *args,
                conversation@,
                allow_cross,
                is_admin,
                live_message(crate::text::opt_view(*event), sender_id@, conversation@),
                range_from(
                    #[trigger] time_at(*args, "start_time"@, false, l1),
                    #[trigger] time_at(*args, "end_time"@, true, l2),
                ),
            ),
{
    let live: Result<(), String> = live_admin_message(event, sender_id, conversation);
    let since: Result<Option<i64>, String> = time_argument(args, "start_time", false);
    let until: Result<Option<i64>, String> = time_argument(args, "end_time", true);
    let range: Result<(Option<i64>, Option<i64>), String> = time_range_from(since, until);
    delete_from(args, conversation, allow_cross, is_admin, live, range)
}

/// Nothing is deleted for one who is no administrator, nor without a live message
/// that matches the turn.
pub proof fn law_deletion_needs_a_live_administrator(
    args: Arguments,
    c: ConversationModel,
    allowed: bool,
    is_admin: bool,
    event: Option<LiveMessageModel>,
    sender_id: Seq<char>,
    range: Result<(Option<i64>, Option<i64>), Seq<char>>,
)
    requires
        delete_request(
            args,
            c,
            allowed,
            is_admin,
            live_message(event, sender_id, c),
            range,
        ) is Ok,
    ensures
        is_admin,
        event is Some,
        event->0.is_message,
        event->0.sender_id == sender_id,
        event->0.conversation == c,
{
}

/// What was deleted, in words.
pub open spec fn report_words(
    messages: nat,
    recalls: nat,
    boundaries: nat,
    request: DeleteRequestModel,
) -> Seq<char> {
    "deleted "@ + decimal(messages) + " message(s) (recalls "@ + decimal(recalls) + ", boundaries "@
        + decimal(boundaries) + ") — scope "@ + scope_words(request.scope) + ", mode "@
        + request_words(request)
}

/// What was deleted, in words.
pub fn delete_report(messages: u64, recalls: u64, boundaries: u64, request: &DeleteRequest) -> (r:
    String)
    ensures
        r@ == report_words(messages as nat, recalls as nat, boundaries as nat, request@),
{
    let m: String = decimal_text(messages);
    let c: String = decimal_text(recalls);
    let b: String = decimal_text(boundaries);
    let scope: String = describe_scope(&request.scope);
    let mode: String = describe_delete_request(request);
    let mut out: String = "deleted ".to_owned();
    out.append(&m);
    out.append(" message(s) (recalls ");
    out.append(&c);
    out.append(", boundaries ");
    out.append(&b);
    out.append(") — scope ");
    out.append(&scope);
    out.append(", mode ");
    out.append(&mode);
    out
}

/// A deletion covers what it names and no more: the conversation that is meant, the sender
/// and the period that are given, and either everything or all but the last days, as the
/// call says in so many words.
pub proof fn law_a_deletion_covers_what_it_names(
    args: Arguments,
    c: ConversationModel,
    allowed: bool,
    is_admin: bool,
    live: Result<(), Seq<char>>,
    a: Option<i64>,
    b: Option<i64>,
    word: String,
    d: u64,
    id: u64,
)
    requires
        delete_request(args, c, allowed, is_admin, live, Ok((a, b))) is Ok,
    ensures
        ({
            let q = delete_request(args, c, allowed, is_admin, live, Ok((a, b)))->Ok_0;
            let mode = args.at("mode"@) == Some(Argument::One(Scalar::Text(word)));
            &&& is_admin && live is Ok
            &&& q.since == a && q.until == b
            &&& scope_of_args(args, c, allowed, is_admin) == Ok::<HistoryScopeModel, Seq<char>>(
                q.scope,
            )
            &&& mode && trim(word@) == "all"@ ==> q.mode == DeleteMode::All
            &&& mode && trim(word@) == "keep_days"@ && args.at("keep_days"@) == Some(
                Argument::One(Scalar::Unsigned(d)),
            ) ==> 0 < d <= u32::MAX && q.mode == DeleteMode::KeepDays(d as u32)
            &&& mode ==> trim(word@) == "all"@ || trim(word@) == "keep_days"@
            &&& args.at("mode"@) is Some
            &&& args.at("sender_id"@) is None ==> q.sender_id is None
            &&& args.at("sender_id"@) == Some(Argument::One(Scalar::Unsigned(id))) && id > 0
                ==> q.sender_id == Some(decimal(id as nat))
        }),
{
    reveal_strlit("all");
    reveal_strlit("keep_days");
    assert("all"@.len() != "keep_days"@.len());
    law_ids_are_taken_as_written(args, "sender_id"@, word, id);
}

/// Only a message that the sender has just written in this very conversation can ask for a
/// deletion.
pub proof fn law_only_a_live_message_deletes(
    event: Option<LiveMessageModel>,
    sender_id: Seq<char>,
    c: ConversationModel,
)
    ensures
        live_message(event, sender_id, c) is Ok <==> event is Some && event->0.is_message
            && event->0.sender_id == sender_id && event->0.conversation == c,
{
}

/// A deletion is told with its place, how much it keeps, whose messages it takes and from
/// when to when; two that differ in any of these are told differently.
pub proof fn law_a_deletion_is_told(r: DeleteRequestModel, id: Seq<char>, from: i64, to: i64, days: u32)
    ensures
        mode_words(DeleteMode::All) == "all"@,
        mode_words(DeleteMode::KeepDays(days)) == "keep_days:"@ + decimal(days as nat),
        r.sender_id is None && r.since is None && r.until is None ==> request_words(r)
            == mode_words(r.mode),
        r.sender_id == Some(id) && r.since is None && r.until is None ==> request_words(r)
            == mode_words(r.mode) + ":sender="@ + id,
        r.sender_id is None && r.since == Some(from) && r.until is None ==> request_words(r)
            == mode_words(r.mode) + ":from="@ + decimal_int(from as int),
        r.sender_id is None && r.since is None && r.until == Some(to) ==> request_words(r)
            == mode_words(r.mode) + ":to="@ + decimal_int(to as int),
        r.sender_id == Some(id) && r.since == Some(from) && r.until == Some(to) ==> request_words(r)
            == mode_words(r.mode) + ":sender="@ + id + ":from="@ + decimal_int(from as int) + ":to="@
            + decimal_int(to as int),
{
}

/// The place of a deletion is told by its platform, its account and its conversation.
pub proof fn law_places_are_told(s: HistoryScopeModel)
    ensures
        s.kind == ScopeKind::Group ==> scope_words(s) == s.platform + ":"@ + s.account_id
            + ":group:"@ + s.conversation_id,
        s.kind == ScopeKind::Private ==> scope_words(s) == s.platform + ":"@ + s.account_id
            + ":private:"@ + s.conversation_id,
        s.kind == ScopeKind::AllGroups ==> scope_words(s) == s.platform + ":"@ + s.account_id
            + ":all_groups"@,
        s.kind == ScopeKind::Account ==> scope_words(s) == s.platform + ":"@ + s.account_id
            + ":all_conversations"@,
{
}

/// The report of a deletion says how much is gone, from where, and what was asked for.
pub proof fn law_a_deletion_is_reported(m: nat, r: nat, b: nat, q: DeleteRequestModel)
    ensures
        has_prefix(report_words(m, r, b, q), "deleted "@ + decimal(m)),
        occurs(report_words(m, r, b, q), decimal(r)),
        occurs(report_words(m, r, b, q), decimal(b)),
        occurs(report_words(m, r, b, q), scope_words(q.scope)),
        occurs(report_words(m, r, b, q), request_words(q)),
{
    let t0 = "deleted "@ + decimal(m);
    law_writing_on_loses_nothing(t0, " message(s) (recalls "@);
    let t1 = t0 + " message(s) (recalls "@;
    law_writing_on_loses_nothing(t1, decimal(r));
    let t2 = t1 + decimal(r);
    law_writing_on_loses_nothing(t2, ", boundaries "@);
    let t3 = t2 + ", boundaries "@;
    law_writing_on_loses_nothing(t3, decimal(b));
    let t4 = t3 + decimal(b);
    law_writing_on_loses_nothing(t4, ") — scope "@);
    let t5 = t4 + ") — scope "@;
    law_writing_on_loses_nothing(t5, scope_words(q.scope));
    let t6 = t5 + scope_words(q.scope);
    law_writing_on_loses_nothing(t6, ", mode "@);
    let t7 = t6 + ", mode "@;
    law_writing_on_loses_nothing(t7, request_words(q));
}

} // verus!
