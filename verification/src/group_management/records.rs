//! The record of moderation: repeat offenders, removals, the event stream, and
//! what can be asked of them.

use crate::arguments::{Argument, Arguments, Scalar};
use crate::chance::{draw, drawn};
use crate::group_management::args::{
    action_matches, action_matches_spec, limit, limit_spec, optional_id, optional_id_spec, valid_id,
    valid_id_spec,
};
use crate::numbers::{
    all_digits, as_signed, decimal, decimal_text, hex_digits, hex_text, i64_bounded,
    saturating_sum, signed_bits,
};
use crate::order::{
    arranged, as_ints, first_of, indices_where, law_ends_of_a_list, law_indices_where,
    law_stable_order, law_trim_keeps_the_newest, lemma_indices_where, pick, sort_indices,
    stable_order, trim_vec, trimmed_to,
};
use crate::platform::{Conversation, ConversationKind, ConversationModel, ScopeKey, ScopeKeyModel};
use crate::platform::{plugin_scope, scope_of};
use crate::text::{
    contains_text, has_prefix, is_empty_text, law_plain_white_space, law_trimmed_stays,
    law_writing_on_loses_nothing, lowercase, occurs, same, text_or_none, trim, trimmed, views,
};
use vstd::prelude::*;
use vstd::string::*;

verus! {

/// The plugin's name.
pub const GROUP_MANAGEMENT_PLUGIN_ID: &'static str = "qq_group_management";

/// The key of the event stream.
pub const EVENTS_KEY: &'static str = "management_events";

/// The key of the history of removals.
pub const KICKS_KEY: &'static str = "kick_history";

/// The key of the histories of offenders.
pub const OFFENDERS_KEY: &'static str = "offender_history";

/// How many reasons are kept of one offender.
pub const MAX_REASON_HISTORY_PER_OFFENDER: usize = 50;

/// A mute that was carried out.
pub struct BanRecord {
    pub record_id: String,
    pub group_id: String,
    pub user_id: String,
    pub user_name: String,
    /// In seconds; zero lifts a mute.
    pub duration: u64,
    pub started_at: i64,
    pub expires_at: i64,
    pub status: String,
    pub operator_id: String,
    pub reason: String,
    pub source: String,
}

/// What a [`BanRecord`] holds, as values.
#[verifier::ext_equal]
pub struct BanRecordModel {
    pub record_id: Seq<char>,
    pub group_id: Seq<char>,
    pub user_id: Seq<char>,
    pub user_name: Seq<char>,
    pub duration: u64,
    pub started_at: i64,
    pub expires_at: i64,
    pub status: Seq<char>,
    pub operator_id: Seq<char>,
    pub reason: Seq<char>,
    pub source: Seq<char>,
}

impl View for BanRecord {
    type V = BanRecordModel;

    open spec fn view(&self) -> BanRecordModel {
        BanRecordModel {
            record_id: self.record_id@,
            group_id: self.group_id@,
            user_id: self.user_id@,
            user_name: self.user_name@,
            duration: self.duration,
            started_at: self.started_at,
            expires_at: self.expires_at,
            status: self.status@,
            operator_id: self.operator_id@,
            reason: self.reason@,
            source: self.source@,
        }
    }
}

impl BanRecord {
    /// A value that holds the same.
    pub fn copy(&self) -> (r: BanRecord)
        ensures
            r@ == self@,
    {
        BanRecord {
            record_id: self.record_id.clone(),
            group_id: self.group_id.clone(),
            user_id: self.user_id.clone(),
            user_name: self.user_name.clone(),
            duration: self.duration,
            started_at: self.started_at,
            expires_at: self.expires_at,
            status: self.status.clone(),
            operator_id: self.operator_id.clone(),
            reason: self.reason.clone(),
            source: self.source.clone(),
        }
    }
}


/// Why an offender was muted, once.
pub struct ReasonEntry {
    pub reason: String,
    pub duration: u64,
    pub banned_at: i64,
    pub operator_id: String,
    pub record_id: String,
}

/// What a [`ReasonEntry`] holds, as values.
#[verifier::ext_equal]
pub struct ReasonEntryModel {
    pub reason: Seq<char>,
    pub duration: u64,
    pub banned_at: i64,
    pub operator_id: Seq<char>,
    pub record_id: Seq<char>,
}

impl View for ReasonEntry {
    type V = ReasonEntryModel;

    open spec fn view(&self) -> ReasonEntryModel {
        ReasonEntryModel {
            reason: self.reason@,
            duration: self.duration,
            banned_at: self.banned_at,
            operator_id: self.operator_id@,
            record_id: self.record_id@,
        }
    }
}

impl ReasonEntry {
    /// A value that holds the same.
    pub fn copy(&self) -> (r: ReasonEntry)
        ensures
            r@ == self@,
    {
        ReasonEntry {
            reason: self.reason.clone(),
            duration: self.duration,
            banned_at: self.banned_at,
            operator_id: self.operator_id.clone(),
            record_id: self.record_id.clone(),
        }
    }

    /// A list that holds the same values.
    pub fn copy_all(v: &Vec<ReasonEntry>) -> (r: Vec<ReasonEntry>)
        ensures
            views(r@) == views(v@),
            r.len() == v.len(),
    {
        let mut out: Vec<ReasonEntry> = Vec::new();
        let mut i: usize = 0;
        while i < v.len()
            invariant
                i <= v.len(),
                out.len() == i,
                forall|j: int| 0 <= j < i ==> (#[trigger] out@[j])@ == v@[j]@,
            decreases v.len() - i,
        {
            out.push(v[i].copy());
            i += 1;
        }
        assert(views(out@) =~= views(v@));
        out
    }
}


/// What one offender has been muted for.
pub struct OffenderHistory {
    pub user_id: String,
    pub user_name: String,
    pub ban_count: u64,
    pub total_duration: u64,
    pub first_ban_at: i64,
    pub last_ban_at: i64,
    pub last_reason: String,
    pub reason_history: Vec<ReasonEntry>,
}

/// What a [`OffenderHistory`] holds, as values.
#[verifier::ext_equal]
pub struct OffenderHistoryModel {
    pub user_id: Seq<char>,
    pub user_name: Seq<char>,
    pub ban_count: u64,
    pub total_duration: u64,
    pub first_ban_at: i64,
    pub last_ban_at: i64,
    pub last_reason: Seq<char>,
    pub reason_history: Seq<ReasonEntryModel>,
}

impl View for OffenderHistory {
    type V = OffenderHistoryModel;

    open spec fn view(&self) -> OffenderHistoryModel {
        OffenderHistoryModel {
            user_id: self.user_id@,
            user_name: self.user_name@,
            ban_count: self.ban_count,
            total_duration: self.total_duration,
            first_ban_at: self.first_ban_at,
            last_ban_at: self.last_ban_at,
            last_reason: self.last_reason@,
            reason_history: views(self.reason_history@),
        }
    }
}

impl OffenderHistory {
    /// A value that holds the same.
    pub fn copy(&self) -> (r: OffenderHistory)
        ensures
            r@ == self@,
    {
        OffenderHistory {
            user_id: self.user_id.clone(),
            user_name: self.user_name.clone(),
            ban_count: self.ban_count,
            total_duration: self.total_duration,
            first_ban_at: self.first_ban_at,
            last_ban_at: self.last_ban_at,
            last_reason: self.last_reason.clone(),
            reason_history: ReasonEntry::copy_all(&self.reason_history),
        }
    }
}


/// A removal from the group.
pub struct KickRecord {
    pub record_id: String,
    pub group_id: String,
    pub user_id: String,
    pub user_name: String,
    pub kicked_at: i64,
    pub operator_id: String,
    pub reason: String,
    pub reject_add_request: bool,
    pub source: String,
}

/// What a [`KickRecord`] holds, as values.
#[verifier::ext_equal]
pub struct KickRecordModel {
    pub record_id: Seq<char>,
    pub group_id: Seq<char>,
    pub user_id: Seq<char>,
    pub user_name: Seq<char>,
    pub kicked_at: i64,
    pub operator_id: Seq<char>,
    pub reason: Seq<char>,
    pub reject_add_request: bool,
    pub source: Seq<char>,
}

impl View for KickRecord {
    type V = KickRecordModel;

    open spec fn view(&self) -> KickRecordModel {
        KickRecordModel {
            record_id: self.record_id@,
            group_id: self.group_id@,
            user_id: self.user_id@,
            user_name: self.user_name@,
            kicked_at: self.kicked_at,
            operator_id: self.operator_id@,
            reason: self.reason@,
            reject_add_request: self.reject_add_request,
            source: self.source@,
        }
    }
}

impl KickRecord {
    /// A value that holds the same.
    pub fn copy(&self) -> (r: KickRecord)
        ensures
            r@ == self@,
    {
        KickRecord {
            record_id: self.record_id.clone(),
            group_id: self.group_id.clone(),
            user_id: self.user_id.clone(),
            user_name: self.user_name.clone(),
            kicked_at: self.kicked_at,
            operator_id: self.operator_id.clone(),
            reason: self.reason.clone(),
            reject_add_request: self.reject_add_request,
            source: self.source.clone(),
        }
    }
}


/// One entry of the event stream.
pub struct ManagementEvent {
    pub record_id: String,
    /// `ban`, `unban`, `kick`, `kick_black`, `title_set` or `title_clear`.
    pub action: String,
    pub user_id: String,
    pub user_name: String,
    pub duration: u64,
    pub happened_at: i64,
    pub operator_id: String,
    pub reason: String,
    pub source: String,
    pub detail: String,
}

/// What a [`ManagementEvent`] holds, as values.
#[verifier::ext_equal]
pub struct ManagementEventModel {
    pub record_id: Seq<char>,
    pub action: Seq<char>,
    pub user_id: Seq<char>,
    pub user_name: Seq<char>,
    pub duration: u64,
    pub happened_at: i64,
    pub operator_id: Seq<char>,
    pub reason: Seq<char>,
    pub source: Seq<char>,
    pub detail: Seq<char>,
}

impl View for ManagementEvent {
    type V = ManagementEventModel;

    open spec fn view(&self) -> ManagementEventModel {
        ManagementEventModel {
            record_id: self.record_id@,
            action: self.action@,
            user_id: self.user_id@,
            user_name: self.user_name@,
            duration: self.duration,
            happened_at: self.happened_at,
            operator_id: self.operator_id@,
            reason: self.reason@,
            source: self.source@,
            detail: self.detail@,
        }
    }
}

impl ManagementEvent {
    /// A value that holds the same.
    pub fn copy(&self) -> (r: ManagementEvent)
        ensures
            r@ == self@,
    {
        ManagementEvent {
            record_id: self.record_id.clone(),
            action: self.action.clone(),
            user_id: self.user_id.clone(),
            user_name: self.user_name.clone(),
            duration: self.duration,
            happened_at: self.happened_at,
            operator_id: self.operator_id.clone(),
            reason: self.reason.clone(),
            source: self.source.clone(),
            detail: self.detail.clone(),
        }
    }
}


/// How a recorded mute stands.
pub struct StatusEntry {
    pub record_id: String,
    pub status: String,
}

/// What a [`StatusEntry`] holds, as values.
#[verifier::ext_equal]
pub struct StatusEntryModel {
    pub record_id: Seq<char>,
    pub status: Seq<char>,
}

impl View for StatusEntry {
    type V = StatusEntryModel;

    open spec fn view(&self) -> StatusEntryModel {
        StatusEntryModel {
            record_id: self.record_id@,
            status: self.status@,
        }
    }
}


/// The moderation counts of one member.
pub struct MemberStats {
    pub user_id: String,
    pub user_name: String,
    pub ban_count: u64,
    pub total_ban_duration: u64,
    pub kick_count: u64,
    pub title_count: u64,
    pub last_action_at: i64,
    pub last_reason: String,
}

/// What a [`MemberStats`] holds, as values.
#[verifier::ext_equal]
pub struct MemberStatsModel {
    pub user_id: Seq<char>,
    pub user_name: Seq<char>,
    pub ban_count: u64,
    pub total_ban_duration: u64,
    pub kick_count: u64,
    pub title_count: u64,
    pub last_action_at: i64,
    pub last_reason: Seq<char>,
}

impl View for MemberStats {
    type V = MemberStatsModel;

    open spec fn view(&self) -> MemberStatsModel {
        MemberStatsModel {
            user_id: self.user_id@,
            user_name: self.user_name@,
            ban_count: self.ban_count,
            total_ban_duration: self.total_ban_duration,
            kick_count: self.kick_count,
            title_count: self.title_count,
            last_action_at: self.last_action_at,
            last_reason: self.last_reason@,
        }
    }
}

impl MemberStats {
    /// A value that holds the same.
    pub fn copy(&self) -> (r: MemberStats)
        ensures
            r@ == self@,
    {
        MemberStats {
            user_id: self.user_id.clone(),
            user_name: self.user_name.clone(),
            ban_count: self.ban_count,
            total_ban_duration: self.total_ban_duration,
            kick_count: self.kick_count,
            title_count: self.title_count,
            last_action_at: self.last_action_at,
            last_reason: self.last_reason.clone(),
        }
    }
}


/// The fields of an event as they may be shown to the model.
pub struct ShownEvent {
    /// When it happened, in local time.
    pub time: String,
    pub user_name: String,
    pub user_id: String,
    pub operator_id: String,
    pub reason: String,
    pub detail: String,
}

/// What a [`ShownEvent`] holds, as values.
#[verifier::ext_equal]
pub struct ShownEventModel {
    pub time: Seq<char>,
    pub user_name: Seq<char>,
    pub user_id: Seq<char>,
    pub operator_id: Seq<char>,
    pub reason: Seq<char>,
    pub detail: Seq<char>,
}

impl View for ShownEvent {
    type V = ShownEventModel;

    open spec fn view(&self) -> ShownEventModel {
        ShownEventModel {
            time: self.time@,
            user_name: self.user_name@,
            user_id: self.user_id@,
            operator_id: self.operator_id@,
            reason: self.reason@,
            detail: self.detail@,
        }
    }
}


/// The fields of a member's counts as they may be shown.
pub struct ShownMember {
    pub user_id: String,
    pub user_name: String,
    pub last_time: String,
    pub last_reason: String,
}

/// What a [`ShownMember`] holds, as values.
#[verifier::ext_equal]
pub struct ShownMemberModel {
    pub user_id: Seq<char>,
    pub user_name: Seq<char>,
    pub last_time: Seq<char>,
    pub last_reason: Seq<char>,
}

impl View for ShownMember {
    type V = ShownMemberModel;

    open spec fn view(&self) -> ShownMemberModel {
        ShownMemberModel {
            user_id: self.user_id@,
            user_name: self.user_name@,
            last_time: self.last_time@,
            last_reason: self.last_reason@,
        }
    }
}


// ---------------------------------------------------------------------------
// Repeat offenders

/// A history with nothing in it yet.
pub open spec fn fresh_history(record: BanRecordModel) -> OffenderHistoryModel {
    OffenderHistoryModel {
        user_id: record.user_id,
        user_name: record.user_name,
        ban_count: 0,
        total_duration: 0,
        first_ban_at: record.started_at,
        last_ban_at: 0,
        last_reason: seq![],
        reason_history: seq![],
    }
}

/// The sum of two counts, at most the largest `u64`.
pub open spec fn u64_sum(a: u64, b: u64) -> u64 {
    if a + b > u64::MAX {
        u64::MAX
    } else {
        (a + b) as u64
    }
}

/// The reason that a mute leaves in the history.
pub open spec fn reason_of(record: BanRecordModel) -> ReasonEntryModel {
    ReasonEntryModel {
        reason: record.reason,
        duration: record.duration,
        banned_at: record.started_at,
        operator_id: record.operator_id,
        record_id: record.record_id,
    }
}

/// A history after one more mute.
pub open spec fn after_ban(h: OffenderHistoryModel, record: BanRecordModel) -> OffenderHistoryModel {
    OffenderHistoryModel {
        user_id: h.user_id,
        user_name: record.user_name,
        ban_count: u64_sum(h.ban_count, 1),
        total_duration: u64_sum(h.total_duration, record.duration),
        first_ban_at: h.first_ban_at,
        last_ban_at: record.started_at,
        last_reason: record.reason,
        reason_history: trimmed_to(
            h.reason_history.push(reason_of(record)),
            MAX_REASON_HISTORY_PER_OFFENDER as nat,
        ),
    }
}

/// Where the history of `user_id` stands; past the end if nowhere.
pub open spec fn history_index(list: Seq<OffenderHistoryModel>, user_id: Seq<char>) -> int
    decreases list.len(),
{
    if list.len() == 0 || list[0].user_id == user_id {
        0
    } else {
        1 + history_index(list.drop_first(), user_id)
    }
}

/// The histories after one more mute, before any is given up.
pub open spec fn with_ban(
    list: Seq<OffenderHistoryModel>,
    record: BanRecordModel,
) -> Seq<OffenderHistoryModel> {
    let i = history_index(list, record.user_id);
    if i < list.len() {
        list.update(i, after_ban(list[i], record))
    } else {
        list.push(after_ban(fresh_history(record), record))
    }
}

/// Whether `a` is given up before `b`: fewer mutes, then the older last mute.
pub open spec fn milder(a: OffenderHistoryModel, b: OffenderHistoryModel) -> bool {
    a.ban_count < b.ban_count || (a.ban_count == b.ban_count && a.last_ban_at < b.last_ban_at)
}

/// The first of the mildest histories.
pub open spec fn mildest(list: Seq<OffenderHistoryModel>) -> int
    decreases list.len(),
{
    if list.len() <= 1 {
        0
    } else {
        let m = mildest(list.drop_last());
        if milder(list.last(), list[m]) {
            list.len() - 1
        } else {
            m
        }
    }
}

/// The histories after one more mute, the mildest given up where there are more
/// than `max`.
pub open spec fn updated_offenders(
    list: Seq<OffenderHistoryModel>,
    record: BanRecordModel,
    max: nat,
) -> Seq<OffenderHistoryModel> {
    let grown = with_ban(list, record);
    if grown.len() > max {
        grown.remove(mildest(grown))
    } else {
        grown
    }
}

/// The mildest history is one of the list, and none is milder.
pub proof fn law_mildest(list: Seq<OffenderHistoryModel>)
    requires
        list.len() > 0,
    ensures
        0 <= mildest(list) < list.len(),
        forall|j: int| 0 <= j < list.len() ==> !milder(#[trigger] list[j], list[mildest(list)]),
    decreases list.len(),
{
    if list.len() > 1 {
        let t = list.drop_last();
        law_mildest(t);
        assert forall|j: int| 0 <= j < list.len() implies !milder(
            #[trigger] list[j],
            list[mildest(list)],
        ) by {
            if j < list.len() - 1 {
                assert(list[j] == t[j]);
                assert(!milder(t[j], t[mildest(t)]));
            }
        }
    }
}

proof fn lemma_history_index(list: Seq<OffenderHistoryModel>, user_id: Seq<char>, k: int)
    requires
        0 <= k <= list.len(),
        forall|j: int| 0 <= j < k ==> (#[trigger] list[j]).user_id != user_id,
        k == list.len() || list[k].user_id == user_id,
    ensures
        history_index(list, user_id) == k,
    decreases list.len(),
{
    if k > 0 {
        assert(list[0].user_id != user_id);
        let t = list.drop_first();
        assert forall|j: int| 0 <= j < k - 1 implies (#[trigger] t[j]).user_id != user_id by {
            assert(t[j] == list[j + 1]);
        }
        lemma_history_index(t, user_id, k - 1);
    }
}

proof fn lemma_history_index_range(list: Seq<OffenderHistoryModel>, user_id: Seq<char>)
    ensures
        0 <= history_index(list, user_id) <= list.len(),
    decreases list.len(),
{
    if list.len() > 0 && list[0].user_id != user_id {
        lemma_history_index_range(list.drop_first(), user_id);
    }
}

/// One more mute of an offender, at most `max` histories being kept: a history
/// never holds more than a fixed number of reasons, and the list never grows past
/// `max` where it was not past it before.
pub proof fn law_offender_bounds(
    list: Seq<OffenderHistoryModel>,
    record: BanRecordModel,
    max: nat,
)
    requires
        list.len() <= max,
        forall|i: int|
            0 <= i < list.len() ==> (#[trigger] list[i]).reason_history.len()
                <= MAX_REASON_HISTORY_PER_OFFENDER,
    ensures
        updated_offenders(list, record, max).len() <= max,
        forall|i: int|
            0 <= i < updated_offenders(list, record, max).len() ==> (#[trigger] updated_offenders(
                list,
                record,
                max,
            )[i]).reason_history.len() <= MAX_REASON_HISTORY_PER_OFFENDER,
{
    let grown = with_ban(list, record);
    lemma_history_index_range(list, record.user_id);
    law_mildest(grown);
    assert forall|i: int| 0 <= i < grown.len() implies (#[trigger] grown[i]).reason_history.len()
        <= MAX_REASON_HISTORY_PER_OFFENDER by {
        if i < list.len() && i != history_index(list, record.user_id) {
            assert(grown[i] == list[i]);
        }
    }
}

/// Whether no offender is on the list twice.
pub open spec fn distinct_offenders(list: Seq<OffenderHistoryModel>) -> bool {
    forall|i: int, j: int|
        0 <= i < j < list.len() ==> (#[trigger] list[i]).user_id != (#[trigger] list[j]).user_id
}

proof fn lemma_history_found(list: Seq<OffenderHistoryModel>, user_id: Seq<char>)
    ensures
        0 <= history_index(list, user_id) <= list.len(),
        history_index(list, user_id) < list.len() ==> list[history_index(list, user_id)].user_id
            == user_id,
        forall|j: int| 0 <= j < history_index(list, user_id) ==> (#[trigger] list[j]).user_id
            != user_id,
    decreases list.len(),
{
    if list.len() > 0 && list[0].user_id != user_id {
        let t = list.drop_first();
        lemma_history_found(t, user_id);
        assert forall|j: int| 0 <= j < history_index(list, user_id) implies (
        #[trigger] list[j]).user_id != user_id by {
            if j > 0 {
                assert(list[j] == t[j - 1]);
            }
        }
    }
}

/// Whatever mutes are counted, no offender comes to be on the list twice.
pub proof fn law_offenders_stay_distinct(
    list: Seq<OffenderHistoryModel>,
    record: BanRecordModel,
    max: nat,
)
    requires
        distinct_offenders(list),
    ensures
        distinct_offenders(updated_offenders(list, record, max)),
{
    let i = history_index(list, record.user_id);
    lemma_history_found(list, record.user_id);
    let grown = with_ban(list, record);
    assert(distinct_offenders(grown)) by {
        assert forall|a: int, b: int| 0 <= a < b < grown.len() implies (
        #[trigger] grown[a]).user_id != (#[trigger] grown[b]).user_id by {
            if b < list.len() {
                assert(list[a].user_id != list[b].user_id);
            }
        }
    }
    if grown.len() > max {
        law_mildest(grown);
        let m = mildest(grown);
        let after = grown.remove(m);
        assert forall|a: int, b: int| 0 <= a < b < after.len() implies (
        #[trigger] after[a]).user_id != (#[trigger] after[b]).user_id by {
            let x = if a < m {
                a
            } else {
                a + 1
            };
            let y = if b < m {
                b
            } else {
                b + 1
            };
            assert(after[a] == grown[x]);
            assert(after[b] == grown[y]);
        }
    }
}

fn bump(h: OffenderHistory, record: &BanRecord) -> (r: OffenderHistory)
    ensures
        r@ == after_ban(h@, record@),
{
    let mut reasons: Vec<ReasonEntry> = h.reason_history;
    let ghost before = views(reasons@);
    reasons.push(
        ReasonEntry {
            reason: record.reason.clone(),
            duration: record.duration,
            banned_at: record.started_at,
            operator_id: record.operator_id.clone(),
            record_id: record.record_id.clone(),
        },
    );
    assert(views(reasons@) =~= before.push(reason_of(record@)));
    let ghost full = views(reasons@);
    trim_vec(&mut reasons, MAX_REASON_HISTORY_PER_OFFENDER);
    assert(views(reasons@) =~= trimmed_to(full, MAX_REASON_HISTORY_PER_OFFENDER as nat));
    OffenderHistory {
        user_id: h.user_id,
        user_name: record.user_name.clone(),
        ban_count: h.ban_count.saturating_add(1),
        total_duration: h.total_duration.saturating_add(record.duration),
        first_ban_at: h.first_ban_at,
        last_ban_at: record.started_at,
        last_reason: record.reason.clone(),
        reason_history: reasons,
    }
}

/// Counts one more mute of an offender; where there are then more than `max`
/// histories, the mildest is given up.
pub fn update_offender(offenders: Vec<OffenderHistory>, record: &BanRecord, max: usize) -> (r: Vec<
    OffenderHistory,
>)
    ensures
        views(r@) == updated_offenders(views(offenders@), record@, max as nat),
        distinct_offenders(views(offenders@)) ==> distinct_offenders(views(r@)),
{
    proof {
        if distinct_offenders(views(offenders@)) {
            law_offenders_stay_distinct(views(offenders@), record@, max as nat);
        }
    }
    let mut list: Vec<OffenderHistory> = offenders;
    let ghost start = views(list@);
    let mut at: usize = 0;
    while at < list.len() && !same(&list[at].user_id, &record.user_id)
        invariant
            at <= list.len(),
            start == views(list@),
            forall|j: int| 0 <= j < at ==> (#[trigger] start[j]).user_id != record@.user_id,
        decreases list.len() - at,
    {
        assert(start[at as int] == list@[at as int]@);
        at += 1;
    }
    proof {
        if at < list.len() {
            assert(start[at as int] == list@[at as int]@);
        }
        lemma_history_index(start, record@.user_id, at as int);
    }
    if at < list.len() {
        let entry: OffenderHistory = list.remove(at);
        assert(entry@ == start[at as int]);
        let grown: OffenderHistory = bump(entry, record);
        list.insert(at, grown);
    } else {
        let entry: OffenderHistory = OffenderHistory {
            user_id: record.user_id.clone(),
            user_name: record.user_name.clone(),
            ban_count: 0,
            total_duration: 0,
            first_ban_at: record.started_at,
            last_ban_at: 0,
            last_reason: String::new(),
            reason_history: Vec::new(),
        };
        assert(entry@ =~= fresh_history(record@));
        list.push(bump(entry, record));
    }
    let ghost grown = with_ban(start, record@);
    assert(views(list@) =~= grown);
    if list.len() > max {
        let mut low: usize = 0;
        let mut i: usize = 1;
        assert(grown.take(1).drop_last() =~= seq![]);
        while i < list.len()
            invariant
                1 <= i <= list.len(),
                low < i,
                grown == views(list@),
                low == mildest(grown.take(i as int)),
            decreases list.len() - i,
        {
            assert(grown.take(i + 1).drop_last() =~= grown.take(i as int));
            assert(grown[low as int] == list@[low as int]@);
            assert(grown[i as int] == list@[i as int]@);
            if list[i].ban_count < list[low].ban_count || (list[i].ban_count == list[low].ban_count
                && list[i].last_ban_at < list[low].last_ban_at) {
                low = i;
            }
            i += 1;
        }
        assert(grown.take(i as int) =~= grown);
        list.remove(low);
        assert(views(list@) =~= grown.remove(low as int));
    }
    list
}

// ---------------------------------------------------------------------------
// Appending

/// Adds a removal to the history of at most `max`.
pub fn append_kick(records: &mut Vec<KickRecord>, record: &KickRecord, max: usize)
    ensures
        views(final(records)@) == trimmed_to(views(old(records)@).push(record@), max as nat),
{
    records.push(record.copy());
    let ghost full = views(records@);
    assert(full =~= views(old(records)@).push(record@));
    trim_vec(records, max);
    assert(views(records@) =~= trimmed_to(full, max as nat));
}

/// Adds an event to the stream of at most `max`.
pub fn append_event(events: &mut Vec<ManagementEvent>, event: &ManagementEvent, max: usize)
    ensures
        views(final(events)@) == trimmed_to(views(old(events)@).push(event@), max as nat),
{
    events.push(event.copy());
    let ghost full = views(events@);
    assert(full =~= views(old(events)@).push(event@));
    trim_vec(events, max);
    assert(views(events@) =~= trimmed_to(full, max as nat));
}

// ---------------------------------------------------------------------------
// Which group a query is about

/// The scope that a history query reads, or why it may not.
pub open spec fn query_scope(
    requested: Option<Seq<char>>,
    c: ConversationModel,
    is_admin: bool,
) -> Result<ScopeKeyModel, Seq<char>> {
    let current = scope_of(GROUP_MANAGEMENT_PLUGIN_ID@, c);
    let id = trim(text_or_none(requested));
    if id.len() == 0 {
        if c.kind == ConversationKind::Group {
            Ok(current)
        } else {
            Err("群聊之外查询必须提供 group_id"@)
        }
    } else if !valid_id_spec(id) {
        Err("group_id 必须是数字群号"@)
    } else if c.kind == ConversationKind::Group && c.conversation_id == id {
        Ok(current)
    } else if !is_admin {
        Err("跨群查询仅限 顾清影 管理员"@)
    } else {
        Ok(ScopeKeyModel { conversation_kind: "group"@, conversation_id: id, ..current })
    }
}

/// The scope that a history query reads: the group named by `group_id`, which
/// only an administrator may use for another group, or else the current group.
pub fn resolve_query_scope(args: &Arguments, conversation: &Conversation, is_admin: bool) -> (r:
    Result<ScopeKey, String>)
    ensures
        match r {
            Ok(k) => query_scope(args.text_at("group_id"@), conversation@, is_admin) == Ok::<
                ScopeKeyModel,
                Seq<char>,
            >(k@),
            Err(e) => query_scope(args.text_at("group_id"@), conversation@, is_admin) == Err::<
                ScopeKeyModel,
                Seq<char>,
            >(e@),
        },
{
    let requested: String = args.text_or_empty("group_id");
    let id: String = trimmed(&requested);
    let current: ScopeKey = plugin_scope(GROUP_MANAGEMENT_PLUGIN_ID, conversation);
    if is_empty_text(&id) {
        if conversation.kind == ConversationKind::Group {
            return Ok(current);
        }
        return Err("群聊之外查询必须提供 group_id".to_owned());
    }
    if !valid_id(&id) {
        return Err("group_id 必须是数字群号".to_owned());
    }
    if conversation.kind == ConversationKind::Group && same(&conversation.conversation_id, &id) {
        return Ok(current);
    }
    if !is_admin {
        return Err("跨群查询仅限 顾清影 管理员".to_owned());
    }
    Ok(
        ScopeKey {
            plugin_id: current.plugin_id,
            platform: current.platform,
            account_id: current.account_id,
            conversation_kind: "group".to_owned(),
            conversation_id: id,
        },
    )
}

// ---------------------------------------------------------------------------
// One stream out of three records

/// Whether an event with this record id is in the stream.
pub open spec fn has_record(events: Seq<ManagementEventModel>, id: Seq<char>) -> bool {
    exists|i: int| 0 <= i < events.len() && (#[trigger] events[i]).record_id == id
}

/// The event that a removal stands for.
pub open spec fn kick_event(k: KickRecordModel) -> ManagementEventModel {
    ManagementEventModel {
        record_id: k.record_id,
        action: if k.reject_add_request {
            "kick_black"@
        } else {
            "kick"@
        },
        user_id: k.user_id,
        user_name: k.user_name,
        duration: 0,
        happened_at: k.kicked_at,
        operator_id: k.operator_id,
        reason: k.reason,
        source: k.source,
        detail: seq![],
    }
}

/// The event that a kept reason stands for.
pub open spec fn reason_event(
    h: OffenderHistoryModel,
    entry: ReasonEntryModel,
) -> ManagementEventModel {
    ManagementEventModel {
        record_id: entry.record_id,
        action: "ban"@,
        user_id: h.user_id,
        user_name: h.user_name,
        duration: entry.duration,
        happened_at: entry.banned_at,
        operator_id: entry.operator_id,
        reason: entry.reason,
        source: "offender_history"@,
        detail: seq![],
    }
}

/// The stream with an event added unless its record is there already.
pub open spec fn with_event(
    events: Seq<ManagementEventModel>,
    event: ManagementEventModel,
) -> Seq<ManagementEventModel> {
    if has_record(events, event.record_id) {
        events
    } else {
        events.push(event)
    }
}

/// The stream with the removals added.
pub open spec fn with_kicks(
    events: Seq<ManagementEventModel>,
    kicks: Seq<KickRecordModel>,
) -> Seq<ManagementEventModel>
    decreases kicks.len(),
{
    if kicks.len() == 0 {
        events
    } else {
        with_event(with_kicks(events, kicks.drop_last()), kick_event(kicks.last()))
    }
}

/// The stream with the first `n` reasons of a history added.
pub open spec fn with_reasons(
    events: Seq<ManagementEventModel>,
    h: OffenderHistoryModel,
    n: nat,
) -> Seq<ManagementEventModel>
    decreases n,
{
    if n == 0 {
        events
    } else {
        with_event(
            with_reasons(events, h, (n - 1) as nat),
            reason_event(h, h.reason_history[n - 1]),
        )
    }
}

/// The stream with the reasons of all histories added.
pub open spec fn with_histories(
    events: Seq<ManagementEventModel>,
    list: Seq<OffenderHistoryModel>,
) -> Seq<ManagementEventModel>
    decreases list.len(),
{
    if list.len() == 0 {
        events
    } else {
        with_reasons(
            with_histories(events, list.drop_last()),
            list.last(),
            list.last().reason_history.len(),
        )
    }
}

/// When the events happened.
pub open spec fn event_times(events: Seq<ManagementEventModel>) -> Seq<i64> {
    events.map_values(|e: ManagementEventModel| e.happened_at)
}

/// The whole stream: events, then the removals and the reasons that are not
/// among them, in the order of time.
pub open spec fn all_events(
    events: Seq<ManagementEventModel>,
    kicks: Seq<KickRecordModel>,
    offenders: Seq<OffenderHistoryModel>,
) -> Seq<ManagementEventModel> {
    let merged = with_histories(with_kicks(events, kicks), offenders);
    arranged(merged, stable_order(event_times(merged)))
}

/// Whether no two events of the stream have one record id.
pub open spec fn distinct_records(events: Seq<ManagementEventModel>) -> bool {
    forall|i: int, j: int|
        0 <= i < j < events.len() ==> (#[trigger] events[i]).record_id != (
        #[trigger] events[j]).record_id
}

proof fn lemma_with_event_distinct(
    events: Seq<ManagementEventModel>,
    event: ManagementEventModel,
)
    requires
        distinct_records(events),
    ensures
        distinct_records(with_event(events, event)),
{
}

proof fn lemma_with_kicks_distinct(
    events: Seq<ManagementEventModel>,
    kicks: Seq<KickRecordModel>,
)
    requires
        distinct_records(events),
    ensures
        distinct_records(with_kicks(events, kicks)),
    decreases kicks.len(),
{
    if kicks.len() > 0 {
        lemma_with_kicks_distinct(events, kicks.drop_last());
        lemma_with_event_distinct(with_kicks(events, kicks.drop_last()), kick_event(kicks.last()));
    }
}

proof fn lemma_with_reasons_distinct(
    events: Seq<ManagementEventModel>,
    h: OffenderHistoryModel,
    n: nat,
)
    requires
        distinct_records(events),
    ensures
        distinct_records(with_reasons(events, h, n)),
    decreases n,
{
    if n > 0 {
        lemma_with_reasons_distinct(events, h, (n - 1) as nat);
        lemma_with_event_distinct(
            with_reasons(events, h, (n - 1) as nat),
            reason_event(h, h.reason_history[n - 1]),
        );
    }
}

proof fn lemma_with_histories_distinct(
    events: Seq<ManagementEventModel>,
    list: Seq<OffenderHistoryModel>,
)
    requires
        distinct_records(events),
    ensures
        distinct_records(with_histories(events, list)),
    decreases list.len(),
{
    if list.len() > 0 {
        lemma_with_histories_distinct(events, list.drop_last());
        lemma_with_reasons_distinct(
            with_histories(events, list.drop_last()),
            list.last(),
            list.last().reason_history.len(),
        );
    }
}

/// Whether an event stands for a removal that the stream did not hold.
pub open spec fn from_kick(
    events: Seq<ManagementEventModel>,
    kicks: Seq<KickRecordModel>,
    e: ManagementEventModel,
) -> bool {
    !has_record(events, e.record_id) && exists|i: int|
        0 <= i < kicks.len() && e == kick_event(#[trigger] kicks[i])
}

/// Whether an event stands for a reason in a history.
pub open spec fn is_reason(offenders: Seq<OffenderHistoryModel>, e: ManagementEventModel) -> bool {
    exists|i: int, j: int|
        0 <= i < offenders.len() && 0 <= j < offenders[i].reason_history.len() && e
            == #[trigger] reason_event(offenders[i], offenders[i].reason_history[j])
}

/// Whether an event stands for a reason in a history that neither the stream nor the
/// removals held.
pub open spec fn from_reason(
    events: Seq<ManagementEventModel>,
    kicks: Seq<KickRecordModel>,
    offenders: Seq<OffenderHistoryModel>,
    e: ManagementEventModel,
) -> bool {
    !has_record(with_kicks(events, kicks), e.record_id) && is_reason(offenders, e)
}

proof fn lemma_has_record_grows(
    before: Seq<ManagementEventModel>,
    after: Seq<ManagementEventModel>,
    id: Seq<char>,
)
    requires
        before.is_prefix_of(after),
        has_record(before, id),
    ensures
        has_record(after, id),
{
    let i = choose|i: int| 0 <= i < before.len() && (#[trigger] before[i]).record_id == id;
    assert(after[i] == before[i]);
}

proof fn lemma_with_kicks_holds(events: Seq<ManagementEventModel>, kicks: Seq<KickRecordModel>)
    ensures
        events.is_prefix_of(with_kicks(events, kicks)),
        forall|n: int|
            events.len() <= n < with_kicks(events, kicks).len() ==> from_kick(
                events,
                kicks,
                #[trigger] with_kicks(events, kicks)[n],
            ),
        forall|i: int|
            0 <= i < kicks.len() ==> has_record(
                with_kicks(events, kicks),
                (#[trigger] kicks[i]).record_id,
            ),
    decreases kicks.len(),
{
    if kicks.len() > 0 {
        let rest = kicks.drop_last();
        let before = with_kicks(events, rest);
        let after = with_kicks(events, kicks);
        lemma_with_kicks_holds(events, rest);
        assert(before.is_prefix_of(after));
        assert forall|n: int| events.len() <= n < after.len() implies from_kick(
            events,
            kicks,
            #[trigger] after[n],
        ) by {
            if n < before.len() {
                assert(after[n] == before[n]);
                assert(from_kick(events, rest, before[n]));
                let i = choose|i: int| 0 <= i < rest.len() && before[n] == kick_event(
                    #[trigger] rest[i],
                );
                assert(kicks[i] == rest[i]);
            } else {
                assert(after[n] == kick_event(kicks[kicks.len() - 1]));
                if has_record(events, after[n].record_id) {
                    lemma_has_record_grows(events, before, after[n].record_id);
                }
            }
        }
        assert forall|i: int| 0 <= i < kicks.len() implies has_record(
            after,
            (#[trigger] kicks[i]).record_id,
        ) by {
            if i < rest.len() {
                assert(rest[i] == kicks[i]);
                lemma_has_record_grows(before, after, kicks[i].record_id);
            } else if has_record(before, kicks[i].record_id) {
                lemma_has_record_grows(before, after, kicks[i].record_id);
            } else {
                assert(after[before.len() as int].record_id == kicks[i].record_id);
            }
        }
    } else {
        assert(with_kicks(events, kicks) == events);
    }
}

proof fn lemma_with_reasons_holds(
    events: Seq<ManagementEventModel>,
    h: OffenderHistoryModel,
    n: nat,
)
    requires
        n <= h.reason_history.len(),
    ensures
        events.is_prefix_of(with_reasons(events, h, n)),
        forall|k: int|
            events.len() <= k < with_reasons(events, h, n).len() ==> !has_record(
                events,
                (#[trigger] with_reasons(events, h, n)[k]).record_id,
            ) && exists|j: int|
                0 <= j < h.reason_history.len() && with_reasons(events, h, n)[k]
                    == #[trigger] reason_event(h, h.reason_history[j]),
        forall|j: int|
            0 <= j < n ==> has_record(
                with_reasons(events, h, n),
                (#[trigger] h.reason_history[j]).record_id,
            ),
    decreases n,
{
    if n > 0 {
        let before = with_reasons(events, h, (n - 1) as nat);
        let after = with_reasons(events, h, n);
        let one = reason_event(h, h.reason_history[n - 1]);
        lemma_with_reasons_holds(events, h, (n - 1) as nat);
        assert(before.is_prefix_of(after));
        assert forall|k: int| events.len() <= k < after.len() implies !has_record(
            events,
            (#[trigger] after[k]).record_id,
        ) && exists|j: int|
            0 <= j < h.reason_history.len() && after[k] == #[trigger] reason_event(
                h,
                h.reason_history[j],
            ) by {
            if k < before.len() {
                assert(after[k] == before[k]);
            } else {
                assert(after[k] == one);
                if has_record(events, one.record_id) {
                    lemma_has_record_grows(events, before, one.record_id);
                }
            }
        }
        assert forall|j: int| 0 <= j < n implies has_record(
            after,
            (#[trigger] h.reason_history[j]).record_id,
        ) by {
            if j < n - 1 {
                lemma_has_record_grows(before, after, h.reason_history[j].record_id);
            } else if has_record(before, h.reason_history[j].record_id) {
                lemma_has_record_grows(before, after, h.reason_history[j].record_id);
            } else {
                assert(after[before.len() as int].record_id == h.reason_history[j].record_id);
            }
        }
    }
}

proof fn lemma_with_histories_holds(
    events: Seq<ManagementEventModel>,
    list: Seq<OffenderHistoryModel>,
)
    ensures
        events.is_prefix_of(with_histories(events, list)),
        forall|k: int|
            events.len() <= k < with_histories(events, list).len() ==> !has_record(
                events,
                (#[trigger] with_histories(events, list)[k]).record_id,
            ) && is_reason(list, with_histories(events, list)[k]),
        forall|i: int, j: int|
            0 <= i < list.len() && 0 <= j < list[i].reason_history.len() ==> has_record(
                with_histories(events, list),
                (#[trigger] list[i].reason_history[j]).record_id,
            ),
    decreases list.len(),
{
    if list.len() > 0 {
        let rest = list.drop_last();
        let h = list.last();
        let before = with_histories(events, rest);
        let after = with_histories(events, list);
        lemma_with_histories_holds(events, rest);
        lemma_with_reasons_holds(before, h, h.reason_history.len());
        assert forall|k: int| events.len() <= k < after.len() implies !has_record(
            events,
            (#[trigger] after[k]).record_id,
        ) && is_reason(list, after[k]) by {
            if k < before.len() {
                assert(after[k] == before[k]);
                let (i, j) = choose|i: int, j: int|
                    0 <= i < rest.len() && 0 <= j < rest[i].reason_history.len() && before[k]
                        == #[trigger] reason_event(rest[i], rest[i].reason_history[j]);
                assert(list[i] == rest[i]);
                assert(after[k] == reason_event(list[i], list[i].reason_history[j]));
            } else {
                let j = choose|j: int|
                    0 <= j < h.reason_history.len() && after[k] == #[trigger] reason_event(
                        h,
                        h.reason_history[j],
                    );
                let i = list.len() - 1;
                assert(after[k] == reason_event(list[i], list[i].reason_history[j]));
                if has_record(events, after[k].record_id) {
                    lemma_has_record_grows(events, before, after[k].record_id);
                }
            }
        }
        assert forall|i: int, j: int|
            0 <= i < list.len() && 0 <= j < list[i].reason_history.len() implies has_record(
            after,
            (#[trigger] list[i].reason_history[j]).record_id,
        ) by {
            if i < rest.len() {
                assert(rest[i] == list[i]);
                assert(has_record(before, rest[i].reason_history[j].record_id));
                lemma_has_record_grows(before, after, list[i].reason_history[j].record_id);
            } else {
                assert(list[i] == h);
            }
        }
    } else {
        assert(with_histories(events, list) == events);
    }
}

/// Every event of the stream is in the merged stream, and so is every record of the
/// removals and the histories; nothing else is. What the stream holds goes before a
/// removal with the same record, and that before a reason with it. Of what happened at
/// one time the events come first, then the removals, then the reasons.
pub proof fn law_merged_stream_holds_every_record(
    events: Seq<ManagementEventModel>,
    kicks: Seq<KickRecordModel>,
    offenders: Seq<OffenderHistoryModel>,
)
    ensures
        ({
            let all = all_events(events, kicks, offenders);
            &&& forall|i: int| 0 <= i < events.len() ==> all.contains(#[trigger] events[i])
            &&& forall|i: int|
                0 <= i < kicks.len() ==> has_record(all, (#[trigger] kicks[i]).record_id)
            &&& forall|i: int, j: int|
                0 <= i < offenders.len() && 0 <= j < offenders[i].reason_history.len()
                    ==> has_record(all, (#[trigger] offenders[i].reason_history[j]).record_id)
            &&& forall|n: int|
                0 <= n < all.len() ==> events.contains(#[trigger] all[n]) || from_kick(
                    events,
                    kicks,
                    all[n],
                ) || from_reason(events, kicks, offenders, all[n])
            &&& forall|n: int, m: int|
                0 <= n < m < all.len() && (#[trigger] all[n]).happened_at == (
                #[trigger] all[m]).happened_at ==> {
                    &&& events.contains(all[m]) ==> events.contains(all[n])
                    &&& from_kick(events, kicks, all[m]) ==> !from_reason(
                        events,
                        kicks,
                        offenders,
                        all[n],
                    )
                }
        }),
{
    let known = with_kicks(events, kicks);
    let merged = with_histories(known, offenders);
    let all = all_events(events, kicks, offenders);
    let keys = event_times(merged);
    let order = stable_order(keys);
    crate::order::law_stable_order(keys, keys.len());
    lemma_with_kicks_holds(events, kicks);
    lemma_with_histories_holds(known, offenders);
    assert forall|k: int| 0 <= k < merged.len() implies all.contains(#[trigger] merged[k]) by {
        assert(order.contains(k));
        let n = choose|n: int| 0 <= n < order.len() && order[n] == k;
        assert(all[n] == merged[k]);
    }
    assert forall|id: Seq<char>| #[trigger] has_record(merged, id) implies has_record(all, id) by {
        let k = choose|k: int| 0 <= k < merged.len() && (#[trigger] merged[k]).record_id == id;
        assert(all.contains(merged[k]));
        let n = choose|n: int| 0 <= n < all.len() && all[n] == merged[k];
        assert(all[n].record_id == id);
    }
    assert forall|i: int| 0 <= i < events.len() implies all.contains(#[trigger] events[i]) by {
        assert(merged[i] == events[i]);
    }
    assert forall|i: int| 0 <= i < kicks.len() implies has_record(
        all,
        (#[trigger] kicks[i]).record_id,
    ) by {
        lemma_has_record_grows(known, merged, kicks[i].record_id);
    }
    assert forall|k: int| 0 <= k < merged.len() implies {
        &&& k < events.len() ==> events.contains(#[trigger] merged[k])
        &&& events.len() <= k < known.len() ==> from_kick(events, kicks, merged[k])
        &&& known.len() <= k ==> from_reason(events, kicks, offenders, merged[k])
    } by {
        if k < events.len() {
            assert(merged[k] == events[k]);
        } else if k < known.len() {
            assert(merged[k] == known[k]);
        }
    }
    assert forall|n: int, m: int|
        0 <= n < m < all.len() && (#[trigger] all[n]).happened_at == (
        #[trigger] all[m]).happened_at implies {
        &&& events.contains(all[m]) ==> events.contains(all[n])
        &&& from_kick(events, kicks, all[m]) ==> !from_reason(events, kicks, offenders, all[n])
    } by {
        let a = order[n];
        let b = order[m];
        assert(all[n] == merged[a]);
        assert(all[m] == merged[b]);
        assert(keys[a] == keys[b]);
        assert(a < b);
        if events.contains(all[m]) {
            let i = choose|i: int| 0 <= i < events.len() && events[i] == all[m];
            assert(has_record(events, all[m].record_id)) by {
                assert(events[i].record_id == all[m].record_id);
            }
            if b >= known.len() {
                lemma_has_record_grows(events, known, all[m].record_id);
            }
            assert(b < events.len());
        }
        if from_kick(events, kicks, all[m]) {
            let i = choose|i: int| 0 <= i < kicks.len() && all[m] == kick_event(
                #[trigger] kicks[i],
            );
            assert(has_record(known, kicks[i].record_id));
            assert(b < known.len());
            assert(merged[a] == known[a]);
            assert(has_record(known, all[n].record_id)) by {
                assert(known[a].record_id == all[n].record_id);
            }
        }
    }
}

/// Merging adds no record twice, and the merged stream is in the order of time.
pub proof fn law_merged_stream(
    events: Seq<ManagementEventModel>,
    kicks: Seq<KickRecordModel>,
    offenders: Seq<OffenderHistoryModel>,
)
    requires
        distinct_records(events),
    ensures
        distinct_records(all_events(events, kicks, offenders)),
        forall|i: int, j: int|
            0 <= i < j < all_events(events, kicks, offenders).len() ==> (#[trigger] all_events(
                events,
                kicks,
                offenders,
            )[i]).happened_at <= (#[trigger] all_events(events, kicks, offenders)[j]).happened_at,
{
    lemma_with_kicks_distinct(events, kicks);
    lemma_with_histories_distinct(with_kicks(events, kicks), offenders);
    let merged = with_histories(with_kicks(events, kicks), offenders);
    let keys = event_times(merged);
    let order = stable_order(keys);
    crate::order::law_stable_order(keys, keys.len());
    let all = all_events(events, kicks, offenders);
    assert forall|i: int, j: int| 0 <= i < j < all.len() implies (#[trigger] all[i]).happened_at
        <= (#[trigger] all[j]).happened_at by {
        assert(all[i] == merged[order[i]]);
        assert(all[j] == merged[order[j]]);
        assert(keys[order[i]] == all[i].happened_at);
        assert(keys[order[j]] == all[j].happened_at);
    }
    assert forall|i: int, j: int| 0 <= i < j < all.len() implies (#[trigger] all[i]).record_id != (
    #[trigger] all[j]).record_id by {
        assert(all[i] == merged[order[i]]);
        assert(all[j] == merged[order[j]]);
        assert(order[i] != order[j]);
        if order[i] < order[j] {
            assert(merged[order[i]].record_id != merged[order[j]].record_id);
        } else {
            assert(merged[order[j]].record_id != merged[order[i]].record_id);
        }
    }
}

fn add_event(events: &mut Vec<ManagementEvent>, event: ManagementEvent)
    ensures
        views(final(events)@) == with_event(views(old(events)@), event@),
{
    let mut i: usize = 0;
    while i < events.len()
        invariant
            i <= events.len(),
            *events == *old(events),
            forall|j: int| 0 <= j < i ==> (#[trigger] events@[j])@.record_id != event@.record_id,
        decreases events.len() - i,
    {
        if same(&events[i].record_id, &event.record_id) {
            assert(views(events@)[i as int].record_id == event@.record_id);
            return;
        }
        i += 1;
    }
    assert(!has_record(views(events@), event@.record_id)) by {
        assert forall|j: int| 0 <= j < views(events@).len() implies (
        #[trigger] views(events@)[j]).record_id != event@.record_id by {
            assert(events@[j]@.record_id != event@.record_id);
        }
    }
    let ghost before = views(events@);
    events.push(event);
    assert(views(events@) =~= before.push(event@));
}

/// The whole stream out of the event stream, the removals and the histories:
/// what is recorded twice appears once, and the order is that of time. The
/// histories are taken in the order given.
pub fn load_all_events_from(
    events: Vec<ManagementEvent>,
    kicks: &Vec<KickRecord>,
    offenders: &Vec<OffenderHistory>,
) -> (r: Vec<ManagementEvent>)
    ensures
        views(r@) == all_events(views(events@), views(kicks@), views(offenders@)),
{
    let mut all: Vec<ManagementEvent> = events;
    let ghost start = views(all@);
    let mut i: usize = 0;
    assert(views(kicks@).take(0) =~= seq![]);
    while i < kicks.len()
        invariant
            i <= kicks.len(),
            views(all@) == with_kicks(start, views(kicks@).take(i as int)),
        decreases kicks.len() - i,
    {
        assert(views(kicks@).take(i + 1).drop_last() =~= views(kicks@).take(i as int));
        assert(views(kicks@)[i as int] == kicks@[i as int]@);
        let k: &KickRecord = &kicks[i];
        let action: String = if k.reject_add_request {
            "kick_black".to_owned()
        } else {
            "kick".to_owned()
        };
        let event: ManagementEvent = ManagementEvent {
            record_id: k.record_id.clone(),
            action: action,
            user_id: k.user_id.clone(),
            user_name: k.user_name.clone(),
            duration: 0,
            happened_at: k.kicked_at,
            operator_id: k.operator_id.clone(),
            reason: k.reason.clone(),
            source: k.source.clone(),
            detail: String::new(),
        };
        assert(event@ =~= kick_event(k@));
        add_event(&mut all, event);
        i += 1;
    }
    assert(views(kicks@).take(kicks.len() as int) =~= views(kicks@));
    let ghost mid = views(all@);
    let mut n: usize = 0;
    assert(views(offenders@).take(0) =~= seq![]);
    while n < offenders.len()
        invariant
            n <= offenders.len(),
            views(all@) == with_histories(mid, views(offenders@).take(n as int)),
        decreases offenders.len() - n,
    {
        let ghost hs = views(offenders@);
        assert(hs.take(n + 1).drop_last() =~= hs.take(n as int));
        assert(hs[n as int] == offenders@[n as int]@);
        let h: &OffenderHistory = &offenders[n];
        let ghost base = views(all@);
        let mut k: usize = 0;
        while k < h.reason_history.len()
            invariant
                k <= h.reason_history.len(),
                views(all@) == with_reasons(base, h@, k as nat),
            decreases h.reason_history.len() - k,
        {
            let entry: &ReasonEntry = &h.reason_history[k];
            assert(h@.reason_history[k as int] == entry@);
            let event: ManagementEvent = ManagementEvent {
                record_id: entry.record_id.clone(),
                action: "ban".to_owned(),
                user_id: h.user_id.clone(),
                user_name: h.user_name.clone(),
                duration: entry.duration,
                happened_at: entry.banned_at,
                operator_id: entry.operator_id.clone(),
                reason: entry.reason.clone(),
                source: "offender_history".to_owned(),
                detail: String::new(),
            };
            assert(event@ =~= reason_event(h@, entry@));
            add_event(&mut all, event);
            k += 1;
        }
        n += 1;
    }
    assert(views(offenders@).take(offenders.len() as int) =~= views(offenders@));
    let mut keys: Vec<i64> = Vec::new();
    let mut j: usize = 0;
    while j < all.len()
        invariant
            j <= all.len(),
            keys@ =~= event_times(views(all@)).take(j as int),
        decreases all.len() - j,
    {
        keys.push(all[j].happened_at);
        j += 1;
    }
    assert(keys@ =~= event_times(views(all@)));
    let order: Vec<usize> = sort_indices(&keys);
    let mut out: Vec<ManagementEvent> = Vec::new();
    let mut p: usize = 0;
    while p < order.len()
        invariant
            p <= order.len(),
            out.len() == p,
            keys.len() == all.len(),
            forall|i: int| 0 <= i < order.len() ==> #[trigger] order@[i] < keys.len(),
            forall|i: int| 0 <= i < p ==> (#[trigger] out@[i])@ == all@[order@[i] as int]@,
        decreases order.len() - p,
    {
        out.push(all[order[p]].copy());
        p += 1;
    }
    let ghost merged = views(all@);
    assert(views(out@) =~= arranged(merged, as_ints(order@))) by {
        assert forall|i: int| 0 <= i < out.len() implies views(out@)[i] == arranged(
            merged,
            as_ints(order@),
        )[i] by {
            assert(out@[i]@ == all@[order@[i] as int]@);
            assert(merged[order@[i] as int] == all@[order@[i] as int]@);
        }
    }
    out
}

// ---------------------------------------------------------------------------
// How a mute stands

/// What the first later ban or unban of `user_id` at or after `from` makes of an
/// earlier mute.
pub open spec fn later_verdict(
    events: Seq<ManagementEventModel>,
    user_id: Seq<char>,
    from: int,
) -> Option<Seq<char>>
    decreases events.len() - from,
{
    if from < 0 || from >= events.len() {
        None
    } else if events[from].user_id == user_id && events[from].action == "unban"@ {
        Some("unmuted"@)
    } else if events[from].user_id == user_id && events[from].action == "ban"@ {
        Some("overridden"@)
    } else {
        later_verdict(events, user_id, from + 1)
    }
}

/// How the mute at `i` stands at `now`.
pub open spec fn ban_status(events: Seq<ManagementEventModel>, i: int, now: i64) -> Seq<char> {
    match later_verdict(events, events[i].user_id, i + 1) {
        Some(s) => s,
        None => if i64_bounded(events[i].happened_at + as_signed(events[i].duration)) <= now {
            "expired"@
        } else {
            "active"@
        },
    }
}

/// How the mutes among the first `n` events stand at `now`.
pub open spec fn statuses_of(events: Seq<ManagementEventModel>, n: nat, now: i64) -> Seq<
    StatusEntryModel,
>
    decreases n,
{
    if n == 0 {
        seq![]
    } else {
        let before = statuses_of(events, (n - 1) as nat, now);
        if events[n - 1].action == "ban"@ {
            before.push(
                StatusEntryModel {
                    record_id: events[n - 1].record_id,
                    status: ban_status(events, n - 1, now),
                },
            )
        } else {
            before
        }
    }
}

/// What the last entry for `id` says.
pub open spec fn status_in(entries: Seq<StatusEntryModel>, id: Seq<char>) -> Option<Seq<char>>
    decreases entries.len(),
{
    if entries.len() == 0 {
        None
    } else if entries.last().record_id == id {
        Some(entries.last().status)
    } else {
        status_in(entries.drop_last(), id)
    }
}

/// How each mute of the stream stands at `now`: lifted by a later unban,
/// replaced by a later ban, or else active until it expires. The stream is in
/// the order of time.
pub fn ban_statuses(events: &Vec<ManagementEvent>, now: i64) -> (r: Vec<StatusEntry>)
    ensures
        views(r@) == statuses_of(views(events@), events.len() as nat, now),
{
    let mut out: Vec<StatusEntry> = Vec::new();
    let ghost all = views(events@);
    let mut i: usize = 0;
    assert(views(out@) =~= statuses_of(all, 0, now));
    while i < events.len()
        invariant
            i <= events.len(),
            all == views(events@),
            views(out@) == statuses_of(all, i as nat, now),
        decreases events.len() - i,
    {
        assert(all[i as int] == events@[i as int]@);
        if same(&events[i].action, "ban") {
            let mut verdict: Option<&'static str> = None;
            let mut j: usize = i + 1;
            while j < events.len() && verdict.is_none()
                invariant
                    i < j <= events.len(),
                    all == views(events@),
                    all[i as int] == events@[i as int]@,
                    match verdict {
                        Some(v) => later_verdict(all, all[i as int].user_id, i + 1) == Some(v@),
                        None => later_verdict(all, all[i as int].user_id, i + 1) == later_verdict(
                            all,
                            all[i as int].user_id,
                            j as int,
                        ),
                    },
                decreases events.len() - j,
            {
                assert(all[j as int] == events@[j as int]@);
                if same(&events[j].user_id, &events[i].user_id) {
                    if same(&events[j].action, "unban") {
                        verdict = Some("unmuted");
                    } else if same(&events[j].action, "ban") {
                        verdict = Some("overridden");
                    }
                }
                j += 1;
            }
            let status: &'static str = match verdict {
                Some(v) => v,
                None => if saturating_sum(
                    events[i].happened_at,
                    signed_bits(events[i].duration),
                ) <= now {
                    "expired"
                } else {
                    "active"
                },
            };
            let ghost before = views(out@);
            out.push(
                StatusEntry { record_id: events[i].record_id.clone(), status: status.to_owned() },
            );
            assert(views(out@) =~= before.push(out@.last()@));
        }
        i += 1;
    }
    out
}

/// What the last entry for `id` says.
pub fn status_of(entries: &Vec<StatusEntry>, id: &str) -> (r: Option<String>)
    ensures
        crate::text::opt_text(r) == status_in(views(entries@), id@),
{
    let ghost all = views(entries@);
    let mut i: usize = entries.len();
    assert(all.take(i as int) =~= all);
    while i > 0
        invariant
            i <= entries.len(),
            all == views(entries@),
            status_in(all, id@) == status_in(all.take(i as int), id@),
        decreases i,
    {
        assert(all.take(i as int).drop_last() =~= all.take(i - 1));
        assert(all[i - 1] == entries@[i - 1]@);
        if same(&entries[i - 1].record_id, id) {
            return Some(entries[i - 1].status.clone());
        }
        i -= 1;
    }
    None
}

// ---------------------------------------------------------------------------
// Counting by member

/// Counts with nothing counted yet.
pub open spec fn no_stats() -> MemberStatsModel {
    MemberStatsModel {
        user_id: seq![],
        user_name: seq![],
        ban_count: 0,
        total_ban_duration: 0,
        kick_count: 0,
        title_count: 0,
        last_action_at: 0,
        last_reason: seq![],
    }
}

/// A count after one more event of its member.
pub open spec fn counted(s: MemberStatsModel, e: ManagementEventModel) -> MemberStatsModel {
    let is_ban = e.action == "ban"@;
    let is_kick = !is_ban && (e.action == "kick"@ || e.action == "kick_black"@);
    let is_title = !is_ban && !is_kick && (e.action == "title_set"@ || e.action == "title_clear"@);
    let newest = e.happened_at >= s.last_action_at;
    MemberStatsModel {
        user_id: e.user_id,
        user_name: if e.user_name.len() > 0 {
            e.user_name
        } else {
            s.user_name
        },
        ban_count: if is_ban {
            u64_sum(s.ban_count, 1)
        } else {
            s.ban_count
        },
        total_ban_duration: if is_ban {
            u64_sum(s.total_ban_duration, e.duration)
        } else {
            s.total_ban_duration
        },
        kick_count: if is_kick {
            u64_sum(s.kick_count, 1)
        } else {
            s.kick_count
        },
        title_count: if is_title {
            u64_sum(s.title_count, 1)
        } else {
            s.title_count
        },
        last_action_at: if newest {
            e.happened_at
        } else {
            s.last_action_at
        },
        last_reason: if newest && e.reason.len() > 0 {
            e.reason
        } else {
            s.last_reason
        },
    }
}

/// Where the counts of `user_id` stand; past the end if nowhere.
pub open spec fn stats_index(list: Seq<MemberStatsModel>, user_id: Seq<char>) -> int
    decreases list.len(),
{
    if list.len() == 0 || list[0].user_id == user_id {
        0
    } else {
        1 + stats_index(list.drop_first(), user_id)
    }
}

/// The counts after one more event.
pub open spec fn with_counted(list: Seq<MemberStatsModel>, e: ManagementEventModel) -> Seq<
    MemberStatsModel,
> {
    let i = stats_index(list, e.user_id);
    if i < list.len() {
        list.update(i, counted(list[i], e))
    } else {
        list.push(counted(no_stats(), e))
    }
}

/// The counts of the members over the first `n` events that the action filter
/// lets through, in the order in which the members first appear.
pub open spec fn member_stats(
    filter: Seq<char>,
    events: Seq<ManagementEventModel>,
    n: nat,
) -> Seq<MemberStatsModel>
    decreases n,
{
    if n == 0 {
        seq![]
    } else {
        let before = member_stats(filter, events, (n - 1) as nat);
        if action_matches_spec(filter, events[n - 1].action) {
            with_counted(before, events[n - 1])
        } else {
            before
        }
    }
}

proof fn lemma_stats_index(list: Seq<MemberStatsModel>, user_id: Seq<char>, k: int)
    requires
        0 <= k <= list.len(),
        forall|j: int| 0 <= j < k ==> (#[trigger] list[j]).user_id != user_id,
        k == list.len() || list[k].user_id == user_id,
    ensures
        stats_index(list, user_id) == k,
    decreases list.len(),
{
    if k > 0 {
        assert(list[0].user_id != user_id);
        let t = list.drop_first();
        assert forall|j: int| 0 <= j < k - 1 implies (#[trigger] t[j]).user_id != user_id by {
            assert(t[j] == list[j + 1]);
        }
        lemma_stats_index(t, user_id, k - 1);
    }
}

fn count_event(s: MemberStats, e: &ManagementEvent) -> (r: MemberStats)
    ensures
        r@ == counted(s@, e@),
{
    let is_ban: bool = same(&e.action, "ban");
    let is_kick: bool = !is_ban && (same(&e.action, "kick") || same(&e.action, "kick_black"));
    let is_title: bool = !is_ban && !is_kick && (same(&e.action, "title_set") || same(
        &e.action,
        "title_clear",
    ));
    let newest: bool = e.happened_at >= s.last_action_at;
    let r: MemberStats = MemberStats {
        user_id: e.user_id.clone(),
        user_name: if !is_empty_text(&e.user_name) {
            e.user_name.clone()
        } else {
            s.user_name
        },
        ban_count: if is_ban {
            s.ban_count.saturating_add(1)
        } else {
            s.ban_count
        },
        total_ban_duration: if is_ban {
            s.total_ban_duration.saturating_add(e.duration)
        } else {
            s.total_ban_duration
        },
        kick_count: if is_kick {
            s.kick_count.saturating_add(1)
        } else {
            s.kick_count
        },
        title_count: if is_title {
            s.title_count.saturating_add(1)
        } else {
            s.title_count
        },
        last_action_at: if newest {
            e.happened_at
        } else {
            s.last_action_at
        },
        last_reason: if newest && !is_empty_text(&e.reason) {
            e.reason.clone()
        } else {
            s.last_reason
        },
    };
    r
}

/// The counts of each member over the events that the action filter lets through.
pub fn aggregate_member_stats(action: &str, events: &Vec<ManagementEvent>) -> (r: Vec<MemberStats>)
    ensures
        views(r@) == member_stats(action@, views(events@), events.len() as nat),
{
    let ghost all = views(events@);
    let mut list: Vec<MemberStats> = Vec::new();
    let mut n: usize = 0;
    assert(views(list@) =~= member_stats(action@, all, 0));
    while n < events.len()
        invariant
            n <= events.len(),
            all == views(events@),
            views(list@) == member_stats(action@, all, n as nat),
        decreases events.len() - n,
    {
        assert(all[n as int] == events@[n as int]@);
        if action_matches(action, &events[n].action) {
            let ghost start = views(list@);
            let mut at: usize = 0;
            while at < list.len() && !same(&list[at].user_id, &events[n].user_id)
                invariant
                    at <= list.len(),
                    n < events.len(),
                    start == views(list@),
                    forall|j: int|
                        0 <= j < at ==> (#[trigger] start[j]).user_id
                            != events@[n as int]@.user_id,
                decreases list.len() - at,
            {
                assert(start[at as int] == list@[at as int]@);
                at += 1;
            }
            proof {
                if at < list.len() {
                    assert(start[at as int] == list@[at as int]@);
                }
                lemma_stats_index(start, events@[n as int]@.user_id, at as int);
            }
            if at < list.len() {
                let s: MemberStats = list.remove(at);
                assert(s@ == start[at as int]);
                list.insert(at, count_event(s, &events[n]));
            } else {
                let s: MemberStats = MemberStats {
                    user_id: String::new(),
                    user_name: String::new(),
                    ban_count: 0,
                    total_ban_duration: 0,
                    kick_count: 0,
                    title_count: 0,
                    last_action_at: 0,
                    last_reason: String::new(),
                };
                assert(s@ =~= no_stats());
                list.push(count_event(s, &events[n]));
            }
            assert(views(list@) =~= with_counted(start, all[n as int]));
        }
        n += 1;
    }
    list
}

/// What an action is counted as.
#[derive(Clone, Copy, Debug, PartialEq, Eq, Structural)]
pub enum CountKind {
    Ban,
    Kick,
    Title,
    /// It is not counted: the lifting of a mute, say.
    Nothing,
}

/// What an action is counted as.
pub open spec fn count_kind(action: Seq<char>) -> CountKind {
    if action == "ban"@ {
        CountKind::Ban
    } else if action == "kick"@ || action == "kick_black"@ {
        CountKind::Kick
    } else if action == "title_set"@ || action == "title_clear"@ {
        CountKind::Title
    } else {
        CountKind::Nothing
    }
}

/// Whether an event is one of `user_id` that the action filter lets through.
pub open spec fn is_counted(filter: Seq<char>, e: ManagementEventModel, user_id: Seq<char>) -> bool {
    action_matches_spec(filter, e.action) && e.user_id == user_id
}

/// How many of the first `n` events are counted for `user_id` as `kind`.
pub open spec fn event_count(
    filter: Seq<char>,
    events: Seq<ManagementEventModel>,
    n: nat,
    user_id: Seq<char>,
    kind: CountKind,
) -> nat
    decreases n,
{
    if n == 0 {
        0
    } else {
        let e = events[n - 1];
        event_count(filter, events, (n - 1) as nat, user_id, kind) + (if is_counted(
            filter,
            e,
            user_id,
        ) && count_kind(e.action) == kind {
            1nat
        } else {
            0
        })
    }
}

/// How many seconds the mutes of `user_id` among the first `n` events come to.
pub open spec fn muted_seconds(
    filter: Seq<char>,
    events: Seq<ManagementEventModel>,
    n: nat,
    user_id: Seq<char>,
) -> nat
    decreases n,
{
    if n == 0 {
        0
    } else {
        let e = events[n - 1];
        muted_seconds(filter, events, (n - 1) as nat, user_id) + (if is_counted(filter, e, user_id)
            && count_kind(e.action) == CountKind::Ban {
            e.duration as nat
        } else {
            0
        })
    }
}

/// A number that stays at the largest where it would grow past it.
pub open spec fn u64_capped(n: nat) -> u64 {
    if n > u64::MAX {
        u64::MAX
    } else {
        n as u64
    }
}

/// Whether `s` holds the counts of its member over the first `n` events.
pub open spec fn counts_right(
    s: MemberStatsModel,
    filter: Seq<char>,
    events: Seq<ManagementEventModel>,
    n: nat,
) -> bool {
    &&& s.ban_count == u64_capped(event_count(filter, events, n, s.user_id, CountKind::Ban))
    &&& s.kick_count == u64_capped(event_count(filter, events, n, s.user_id, CountKind::Kick))
    &&& s.title_count == u64_capped(event_count(filter, events, n, s.user_id, CountKind::Title))
    &&& s.total_ban_duration == u64_capped(muted_seconds(filter, events, n, s.user_id))
}

/// Whether a member is on the list.
pub open spec fn has_stats(list: Seq<MemberStatsModel>, user_id: Seq<char>) -> bool {
    exists|k: int| 0 <= k < list.len() && (#[trigger] list[k]).user_id == user_id
}

/// Whether one of the first `n` events is counted for a member.
pub open spec fn has_event(
    filter: Seq<char>,
    events: Seq<ManagementEventModel>,
    n: nat,
    user_id: Seq<char>,
) -> bool {
    exists|i: int| 0 <= i < n && is_counted(filter, #[trigger] events[i], user_id)
}

/// Whether no member is on the list twice.
pub open spec fn distinct_members(list: Seq<MemberStatsModel>) -> bool {
    forall|i: int, j: int|
        0 <= i < j < list.len() ==> (#[trigger] list[i]).user_id != (#[trigger] list[j]).user_id
}

proof fn lemma_stats_found(list: Seq<MemberStatsModel>, user_id: Seq<char>)
    ensures
        0 <= stats_index(list, user_id) <= list.len(),
        stats_index(list, user_id) < list.len() ==> list[stats_index(list, user_id)].user_id
            == user_id,
        stats_index(list, user_id) == list.len() ==> !has_stats(list, user_id),
    decreases list.len(),
{
    if list.len() > 0 && list[0].user_id != user_id {
        let t = list.drop_first();
        lemma_stats_found(t, user_id);
        if has_stats(list, user_id) {
            let k = choose|k: int| 0 <= k < list.len() && (#[trigger] list[k]).user_id == user_id;
            assert(t[k - 1] == list[k]);
            assert(has_stats(t, user_id));
        }
    }
}

proof fn lemma_nothing_counted(
    filter: Seq<char>,
    events: Seq<ManagementEventModel>,
    n: nat,
    user_id: Seq<char>,
)
    requires
        n <= events.len(),
        !has_event(filter, events, n, user_id),
    ensures
        event_count(filter, events, n, user_id, CountKind::Ban) == 0,
        event_count(filter, events, n, user_id, CountKind::Kick) == 0,
        event_count(filter, events, n, user_id, CountKind::Title) == 0,
        muted_seconds(filter, events, n, user_id) == 0,
    decreases n,
{
    if n > 0 {
        assert(!is_counted(filter, events[n - 1], user_id));
        if has_event(filter, events, (n - 1) as nat, user_id) {
            let i = choose|i: int|
                0 <= i < n - 1 && is_counted(filter, #[trigger] events[i], user_id);
            assert(is_counted(filter, events[i], user_id));
        }
        lemma_nothing_counted(filter, events, (n - 1) as nat, user_id);
    }
}

proof fn lemma_has_event_step(
    filter: Seq<char>,
    events: Seq<ManagementEventModel>,
    n: nat,
    user_id: Seq<char>,
)
    requires
        0 < n <= events.len(),
    ensures
        has_event(filter, events, n, user_id) <==> has_event(
            filter,
            events,
            (n - 1) as nat,
            user_id,
        ) || is_counted(filter, events[n - 1], user_id),
{
    if has_event(filter, events, n, user_id) {
        let i = choose|i: int| 0 <= i < n && is_counted(filter, #[trigger] events[i], user_id);
        if i < n - 1 {
            assert(is_counted(filter, events[i], user_id));
        }
    }
    if has_event(filter, events, (n - 1) as nat, user_id) {
        let i = choose|i: int| 0 <= i < n - 1 && is_counted(filter, #[trigger] events[i], user_id);
        assert(is_counted(filter, events[i], user_id));
    }
    if is_counted(filter, events[n - 1], user_id) {
        assert(has_event(filter, events, n, user_id));
    }
}

/// The counts by member hold exactly the members of whom an event is let through, each
/// once. The mutes, removals and titles of a member are counted one by one, the seconds
/// of the mutes are added up, both up to the largest number there is; the lifting of a
/// mute counts as none of these.
pub proof fn law_member_stats(filter: Seq<char>, events: Seq<ManagementEventModel>, n: nat)
    requires
        n <= events.len(),
    ensures
        distinct_members(member_stats(filter, events, n)),
        forall|u: Seq<char>|
            #[trigger] has_stats(member_stats(filter, events, n), u) <==> has_event(
                filter,
                events,
                n,
                u,
            ),
        forall|k: int|
            0 <= k < member_stats(filter, events, n).len() ==> counts_right(
                #[trigger] member_stats(filter, events, n)[k],
                filter,
                events,
                n,
            ),
    decreases n,
{
    let list = member_stats(filter, events, n);
    if n == 0 {
        assert forall|u: Seq<char>| #[trigger] has_stats(list, u) <==> has_event(
            filter,
            events,
            n,
            u,
        ) by {}
    } else {
        let m = (n - 1) as nat;
        let e = events[n - 1];
        let before = member_stats(filter, events, m);
        law_member_stats(filter, events, m);
        if action_matches_spec(filter, e.action) {
            let i = stats_index(before, e.user_id);
            lemma_stats_found(before, e.user_id);
            let at = if i < before.len() {
                i
            } else {
                before.len() as int
            };
            if i == before.len() {
                assert(has_stats(before, e.user_id) <==> has_event(filter, events, m, e.user_id));
                lemma_nothing_counted(filter, events, m, e.user_id);
            }
            assert forall|k: int| 0 <= k < list.len() implies counts_right(
                #[trigger] list[k],
                filter,
                events,
                n,
            ) by {
                if k == at {
                    if i < before.len() {
                        assert(counts_right(before[i], filter, events, m));
                    }
                } else {
                    assert(list[k] == before[k]);
                    assert(counts_right(before[k], filter, events, m));
                    if i < before.len() {
                        if k < i {
                            assert(before[k].user_id != before[i].user_id);
                        } else {
                            assert(before[i].user_id != before[k].user_id);
                        }
                    } else {
                        assert(has_stats(before, before[k].user_id));
                    }
                    assert(list[k].user_id != e.user_id);
                }
            }
            assert forall|a: int, b: int| 0 <= a < b < list.len() implies (#[trigger] list[a]).user_id
                != (#[trigger] list[b]).user_id by {
                if b < before.len() {
                    assert(before[a].user_id != before[b].user_id);
                } else {
                    assert(has_stats(before, before[a].user_id));
                }
            }
            assert forall|u: Seq<char>| #[trigger] has_stats(list, u) <==> has_event(
                filter,
                events,
                n,
                u,
            ) by {
                lemma_has_event_step(filter, events, n, u);
                assert(has_stats(before, u) <==> has_event(filter, events, m, u));
                if has_stats(before, u) {
                    let k = choose|k: int|
                        0 <= k < before.len() && (#[trigger] before[k]).user_id == u;
                    assert(list[k].user_id == u);
                }
                if u == e.user_id {
                    assert(list[at].user_id == u);
                }
                if has_stats(list, u) {
                    let k = choose|k: int| 0 <= k < list.len() && (#[trigger] list[k]).user_id == u;
                    if k != at {
                        assert(before[k].user_id == u);
                    }
                }
            }
        } else {
            assert forall|k: int| 0 <= k < list.len() implies counts_right(
                #[trigger] list[k],
                filter,
                events,
                n,
            ) by {
                assert(counts_right(before[k], filter, events, m));
            }
            assert forall|u: Seq<char>| #[trigger] has_stats(list, u) <==> has_event(
                filter,
                events,
                n,
                u,
            ) by {
                lemma_has_event_step(filter, events, n, u);
                assert(has_stats(before, u) <==> has_event(filter, events, m, u));
            }
        }
    }
}

proof fn lemma_ban_actions(action: Seq<char>)
    ensures
        action_matches_spec("all"@, action),
        count_kind(action) == CountKind::Ban ==> action_matches_spec("ban"@, action),
        action_matches_spec("ban"@, action) ==> count_kind(action) == CountKind::Ban || count_kind(
            action,
        ) == CountKind::Nothing,
{
    reveal_strlit("all");
    reveal_strlit("ban");
    reveal_strlit("unban");
    reveal_strlit("kick");
    reveal_strlit("kick_black");
    reveal_strlit("title_set");
    reveal_strlit("title_clear");
    assert("all"@[0] != "ban"@[0]);
    assert("unban"@.len() == 5);
    assert("kick"@.len() == 4);
    assert("kick_black"@.len() == 10);
    assert("title_set"@.len() == 9);
    assert("title_clear"@.len() == 11);
}

proof fn lemma_ban_filter(events: Seq<ManagementEventModel>, n: nat, user_id: Seq<char>)
    requires
        n <= events.len(),
    ensures
        event_count("ban"@, events, n, user_id, CountKind::Ban) == event_count(
            "all"@,
            events,
            n,
            user_id,
            CountKind::Ban,
        ),
        muted_seconds("ban"@, events, n, user_id) == muted_seconds("all"@, events, n, user_id),
        event_count("ban"@, events, n, user_id, CountKind::Kick) == 0,
        event_count("ban"@, events, n, user_id, CountKind::Title) == 0,
    decreases n,
{
    if n > 0 {
        lemma_ban_filter(events, (n - 1) as nat, user_id);
        lemma_ban_actions(events[n - 1].action);
    }
}

/// Asked about mutes alone, the counts tell of a member's mutes what they tell when
/// asked about everything, and of removals and titles nothing.
pub proof fn law_mute_stats_agree(events: Seq<ManagementEventModel>, n: nat, i: int, j: int)
    requires
        n <= events.len(),
        0 <= i < member_stats("ban"@, events, n).len(),
        0 <= j < member_stats("all"@, events, n).len(),
        member_stats("ban"@, events, n)[i].user_id == member_stats("all"@, events, n)[j].user_id,
    ensures
        ({
            let muted = member_stats("ban"@, events, n)[i];
            let all = member_stats("all"@, events, n)[j];
            &&& muted.ban_count == all.ban_count
            &&& muted.total_ban_duration == all.total_ban_duration
            &&& muted.kick_count == 0
            &&& muted.title_count == 0
        }),
{
    law_member_stats("ban"@, events, n);
    law_member_stats("all"@, events, n);
    let muted = member_stats("ban"@, events, n)[i];
    let all = member_stats("all"@, events, n)[j];
    assert(counts_right(muted, "ban"@, events, n));
    assert(counts_right(all, "all"@, events, n));
    lemma_ban_filter(events, n, muted.user_id);
}

// ---------------------------------------------------------------------------
// Queries

/// The keyword of a query, in lower case.
pub open spec fn keyword_of(args: Arguments) -> Seq<char> {
    lowercase(text_or_none(args.text_at("keyword"@)))
}

/// The keyword of a query, in lower case.
pub fn lowercase_keyword(args: &Arguments) -> (r: String)
    ensures
        r@ == keyword_of(*args),
{
    args.text_or_empty("keyword").as_str().to_lowercase()
}

/// Whether the keyword is empty or stands in one of the fields.
pub open spec fn keyword_hits(keyword: Seq<char>, fields: Seq<Seq<char>>) -> bool {
    keyword.len() == 0 || exists|i: int|
        0 <= i < fields.len() && occurs(#[trigger] fields[i], keyword)
}

/// Whether the keyword is empty or stands in one of the lowered fields.
pub fn matches_keyword(keyword: &str, lowered: &Vec<String>) -> (r: bool)
    ensures
        r == keyword_hits(keyword@, crate::text::texts(lowered@)),
{
    if is_empty_text(keyword) {
        return true;
    }
    let ghost fields = crate::text::texts(lowered@);
    let mut i: usize = 0;
    while i < lowered.len()
        invariant
            i <= lowered.len(),
            fields == crate::text::texts(lowered@),
            forall|j: int| 0 <= j < i ==> !occurs(#[trigger] fields[j], keyword@),
        decreases lowered.len() - i,
    {
        assert(fields[i as int] == lowered@[i as int]@);
        if contains_text(&lowered[i], keyword) {
            return true;
        }
        i += 1;
    }
    false
}

/// Whether a query asks for the oldest first.
pub open spec fn asks_ascending(args: Arguments) -> bool {
    args.text_at("sort_order"@) == Some("asc"@)
}

fn ascending(args: &Arguments) -> (r: bool)
    ensures
        r == asks_ascending(*args),
{
    match args.text("sort_order") {
        Some(s) => same(&s, "asc"),
        None => false,
    }
}

/// Whether a query by action, member and keyword lets an event through.
pub open spec fn event_wanted(
    filter: Seq<char>,
    user: Option<Seq<char>>,
    keyword: Seq<char>,
    e: ManagementEventModel,
) -> bool {
    &&& action_matches_spec(filter, e.action)
    &&& user is None || user == Some(e.user_id)
    &&& keyword_hits(
        keyword,
        seq![lowercase(e.user_name), lowercase(e.reason), lowercase(e.detail)],
    )
}

/// The events that a query lets through, by their places.
pub open spec fn event_filter(
    filter: Seq<char>,
    user: Option<Seq<char>>,
    keyword: Seq<char>,
    events: Seq<ManagementEventModel>,
) -> spec_fn(int) -> bool {
    |i: int| event_wanted(filter, user, keyword, events[i])
}

/// The places of the events that a query shows, in the order shown.
pub open spec fn shown_events(
    args: Arguments,
    filter: Seq<char>,
    events: Seq<ManagementEventModel>,
) -> Seq<int> {
    let kept = indices_where(
        events.len(),
        event_filter(filter, optional_id_spec(args), keyword_of(args), events),
    );
    first_of(
        if asks_ascending(args) {
            kept
        } else {
            kept.reverse()
        },
        limit_spec(args) as nat,
    )
}

/// The line that shows an event.
pub open spec fn event_line(
    e: ManagementEventModel,
    shown: ShownEventModel,
    status: Option<Seq<char>>,
) -> Seq<char> {
    let head = "["@ + shown.time + "] "@ + e.action + " "@ + shown.user_name + "(QQ:"@
        + shown.user_id + ")"@;
    let timed = if e.duration > 0 {
        head + " duration="@ + decimal(e.duration as nat) + "s"@
    } else {
        head
    };
    let judged = match status {
        Some(s) => timed + " status="@ + s,
        None => timed,
    };
    let signed = judged + " by QQ:"@ + shown.operator_id;
    let reasoned = if e.reason.len() > 0 {
        signed + " reason: "@ + shown.reason
    } else {
        signed
    };
    if e.detail.len() > 0 {
        reasoned + " ("@ + shown.detail + ")"@
    } else {
        reasoned
    }
}

/// The line that shows an event.
pub fn format_event_line(e: &ManagementEvent, shown: &ShownEvent, status: &Option<String>) -> (r:
    String)
    ensures
        r@ == event_line(e@, shown@, crate::text::opt_text(*status)),
{
    let mut line: String = "[".to_owned();
    line.append(&shown.time);
    line.append("] ");
    line.append(&e.action);
    line.append(" ");
    line.append(&shown.user_name);
    line.append("(QQ:");
    line.append(&shown.user_id);
    line.append(")");
    if e.duration > 0 {
        line.append(" duration=");
        let n: String = decimal_text(e.duration);
        line.append(&n);
        line.append("s");
    }
    if let Some(s) = status {
        line.append(" status=");
        line.append(s);
    }
    line.append(" by QQ:");
    line.append(&shown.operator_id);
    if !is_empty_text(&e.reason) {
        line.append(" reason: ");
        line.append(&shown.reason);
    }
    if !is_empty_text(&e.detail) {
        line.append(" (");
        line.append(&shown.detail);
        line.append(")");
    }
    line
}

/// The lines of the events at `places`.
pub open spec fn event_lines(
    events: Seq<ManagementEventModel>,
    shown: Seq<ShownEventModel>,
    now: i64,
    places: Seq<int>,
) -> Seq<char>
    decreases places.len(),
{
    if places.len() == 0 {
        seq![]
    } else {
        let p = places.last();
        let status = status_in(statuses_of(events, events.len(), now), events[p].record_id);
        event_lines(events, shown, now, places.drop_last()) + event_line(
            events[p],
            shown[p],
            status,
        ) + "\n"@
    }
}

/// The answer to a query for single events.
pub open spec fn events_report(
    args: Arguments,
    filter: Seq<char>,
    events: Seq<ManagementEventModel>,
    shown: Seq<ShownEventModel>,
    group_id: Seq<char>,
    now: i64,
) -> Seq<char> {
    let places = shown_events(args, filter, events);
    "group "@ + group_id + ": "@ + decimal(places.len()) + " management event(s)\n"@ + event_lines(
        events,
        shown,
        now,
        places,
    )
}

/// The answer to a query for single events: those that the action filter, the
/// member and the keyword let through, newest first unless asked otherwise, at
/// most as many as asked for. `shown` holds each event as it may be shown.
pub fn query_history_events(
    args: &Arguments,
    action: &str,
    events: &Vec<ManagementEvent>,
    shown: &Vec<ShownEvent>,
    group_id: &str,
    now: i64,
) -> (r: String)
    requires
        shown.len() == events.len(),
    ensures
        r@ == events_report(*args, action@, views(events@), views(shown@), group_id@, now),
{
    let user: Option<String> = optional_id(args);
    let keyword: String = lowercase_keyword(args);
    let ghost all = views(events@);
    let ghost f = event_filter(action@, optional_id_spec(*args), keyword@, all);
    let statuses: Vec<StatusEntry> = ban_statuses(events, now);
    let mut kept: Vec<usize> = Vec::new();
    let mut i: usize = 0;
    assert(as_ints(kept@) =~= indices_where(0, f));
    while i < events.len()
        invariant
            i <= events.len(),
            all == views(events@),
            f == event_filter(action@, crate::text::opt_text(user), keyword@, all),
            as_ints(kept@) == indices_where(i as nat, f),
            kept.len() <= i,
        decreases events.len() - i,
    {
        let e: &ManagementEvent = &events[i];
        assert(all[i as int] == e@);
        let right_user: bool = match &user {
            Some(id) => same(&e.user_id, id),
            None => true,
        };
        let mut lowered: Vec<String> = Vec::new();
        lowered.push(e.user_name.as_str().to_lowercase());
        lowered.push(e.reason.as_str().to_lowercase());
        lowered.push(e.detail.as_str().to_lowercase());
        assert(crate::text::texts(lowered@) =~= seq![
            lowercase(e@.user_name),
            lowercase(e@.reason),
            lowercase(e@.detail),
        ]);
        if action_matches(action, &e.action) && right_user && matches_keyword(&keyword, &lowered) {
            assert(f(i as int));
            let ghost before = as_ints(kept@);
            kept.push(i);
            assert(as_ints(kept@) =~= before.push(i as int));
        } else {
            assert(!f(i as int));
        }
        i += 1;
    }
    let flip: bool = !ascending(args);
    let places: Vec<usize> = pick(&kept, flip, limit(args));
    let ghost ps = as_ints(places@);
    proof {
        lemma_indices_where(events.len() as nat, f);
        assert forall|k: int| 0 <= k < ps.len() implies 0 <= #[trigger] ps[k] < events.len() by {
            let src = if flip { as_ints(kept@).reverse() } else { as_ints(kept@) };
            assert(ps[k] == src[k]);
            if flip {
                assert(src[k] == as_ints(kept@)[kept.len() - 1 - k]);
            }
        }
    }
    let mut out: String = "group ".to_owned();
    out.append(group_id);
    out.append(": ");
    let count: String = decimal_text(places.len() as u64);
    out.append(&count);
    out.append(" management event(s)\n");
    let ghost head = out@;
    let ghost sh = views(shown@);
    let mut k: usize = 0;
    assert(ps.take(0) =~= seq![]);
    assert(out@ =~= head + event_lines(all, sh, now, ps.take(0)));
    while k < places.len()
        invariant
            k <= places.len(),
            ps == as_ints(places@),
            all == views(events@),
            sh == views(shown@),
            shown.len() == events.len(),
            views(statuses@) == statuses_of(all, all.len(), now),
            forall|j: int| 0 <= j < ps.len() ==> 0 <= #[trigger] ps[j] < events.len(),
            out@ == head + event_lines(all, sh, now, ps.take(k as int)),
        decreases places.len() - k,
    {
        assert(0 <= ps[k as int] < events.len());
        let p: usize = places[k];
        assert(all[p as int] == events@[p as int]@);
        assert(sh[p as int] == shown@[p as int]@);
        let status: Option<String> = status_of(&statuses, &events[p].record_id);
        let line: String = format_event_line(&events[p], &shown[p], &status);
        assert(ps.take(k + 1).drop_last() =~= ps.take(k as int));
        let ghost before = event_lines(all, sh, now, ps.take(k as int));
        out.append(&line);
        out.append("\n");
        assert(out@ =~= head + (before + line@ + "\n"@));
        k += 1;
    }
    assert(ps.take(places.len() as int) =~= ps);
    out
}

/// The number by which a member's counts are ranked.
pub open spec fn rank_key(sort_by: Seq<char>, s: MemberStatsModel) -> i64 {
    if sort_by == "kick_count"@ {
        as_signed(s.kick_count)
    } else if sort_by == "total_duration"@ {
        as_signed(s.total_ban_duration)
    } else if sort_by == "time"@ || sort_by == "last_action_at"@ {
        s.last_action_at
    } else {
        as_signed(s.ban_count)
    }
}

/// The number by which a member's counts are ranked.
pub fn rank_of(sort_by: &str, s: &MemberStats) -> (r: i64)
    ensures
        r == rank_key(sort_by@, s@),
{
    if same(sort_by, "kick_count") {
        signed_bits(s.kick_count)
    } else if same(sort_by, "total_duration") {
        signed_bits(s.total_ban_duration)
    } else if same(sort_by, "time") || same(sort_by, "last_action_at") {
        s.last_action_at
    } else {
        signed_bits(s.ban_count)
    }
}

/// Whether a query lets a member's counts through.
pub open spec fn member_wanted(
    minimum: u64,
    user: Option<Seq<char>>,
    keyword: Seq<char>,
    s: MemberStatsModel,
) -> bool {
    &&& s.ban_count >= minimum
    &&& user is None || user == Some(s.user_id)
    &&& keyword_hits(keyword, seq![lowercase(s.user_name), lowercase(s.last_reason)])
}

/// The counts that a query lets through, by their places.
pub open spec fn member_filter(
    minimum: u64,
    user: Option<Seq<char>>,
    keyword: Seq<char>,
    list: Seq<MemberStatsModel>,
) -> spec_fn(int) -> bool {
    |i: int| member_wanted(minimum, user, keyword, list[i])
}

/// The least number of mutes that a query asks for.
pub open spec fn minimum_of(args: Arguments) -> u64 {
    match args.unsigned_at("min_ban_count"@) {
        Some(n) => n,
        None => 0,
    }
}

/// What a query ranks by.
pub open spec fn sort_by_of(args: Arguments) -> Seq<char> {
    match args.text_at("sort_by"@) {
        Some(s) => s,
        None => "ban_count"@,
    }
}

/// The rank keys of the counts at `kept`.
pub open spec fn rank_keys(sort_by: Seq<char>, list: Seq<MemberStatsModel>, kept: Seq<int>) -> Seq<
    i64,
> {
    kept.map_values(|i: int| rank_key(sort_by, list[i]))
}

/// The places of the counts that a query shows, in the order shown.
pub open spec fn shown_members(args: Arguments, list: Seq<MemberStatsModel>) -> Seq<int> {
    let kept = indices_where(
        list.len(),
        member_filter(minimum_of(args), optional_id_spec(args), keyword_of(args), list),
    );
    let ranked = arranged(kept, stable_order(rank_keys(sort_by_of(args), list, kept)));
    first_of(
        if asks_ascending(args) {
            ranked
        } else {
            ranked.reverse()
        },
        limit_spec(args) as nat,
    )
}

/// The line that shows a member's counts.
pub open spec fn member_line(s: MemberStatsModel, shown: ShownMemberModel) -> Seq<char> {
    let head = "QQ "@ + shown.user_id + " "@ + shown.user_name + ": ban×"@ + decimal(
        s.ban_count as nat,
    ) + " total "@ + decimal(s.total_ban_duration as nat) + "s, kick×"@ + decimal(
        s.kick_count as nat,
    ) + ", title×"@ + decimal(s.title_count as nat) + ", last ["@ + shown.last_time + "]"@;
    if s.last_reason.len() > 0 {
        head + " "@ + shown.last_reason
    } else {
        head
    }
}

/// The line that shows a member's counts.
pub fn format_member_line(s: &MemberStats, shown: &ShownMember) -> (r: String)
    ensures
        r@ == member_line(s@, shown@),
{
    let bans: String = decimal_text(s.ban_count);
    let total: String = decimal_text(s.total_ban_duration);
    let kicks: String = decimal_text(s.kick_count);
    let titles: String = decimal_text(s.title_count);
    let mut line: String = "QQ ".to_owned();
    line.append(&shown.user_id);
    line.append(" ");
    line.append(&shown.user_name);
    line.append(": ban×");
    line.append(&bans);
    line.append(" total ");
    line.append(&total);
    line.append("s, kick×");
    line.append(&kicks);
    line.append(", title×");
    line.append(&titles);
    line.append(", last [");
    line.append(&shown.last_time);
    line.append("]");
    if !is_empty_text(&s.last_reason) {
        line.append(" ");
        line.append(&shown.last_reason);
    }
    line
}

/// The lines of the counts at `places`.
pub open spec fn member_lines(
    list: Seq<MemberStatsModel>,
    shown: Seq<ShownMemberModel>,
    places: Seq<int>,
) -> Seq<char>
    decreases places.len(),
{
    if places.len() == 0 {
        seq![]
    } else {
        member_lines(list, shown, places.drop_last()) + member_line(
            list[places.last()],
            shown[places.last()],
        ) + "\n"@
    }
}

/// The answer to a query for the counts of members.
pub open spec fn stats_report(
    args: Arguments,
    list: Seq<MemberStatsModel>,
    shown: Seq<ShownMemberModel>,
    group_id: Seq<char>,
) -> Seq<char> {
    let places = shown_members(args, list);
    "group "@ + group_id + ": "@ + decimal(places.len()) + " member(s), sorted by "@ + sort_by_of(
        args,
    ) + "\n"@ + member_lines(list, shown, places)
}

/// The answer to a query for the counts of members: those that the least number
/// of mutes, the member and the keyword let through, ranked, the highest first
/// unless asked otherwise, at most as many as asked for. `list` holds the counts
/// of all members, `shown` each as it may be shown.
pub fn query_history_stats(
    args: &Arguments,
    list: &Vec<MemberStats>,
    shown: &Vec<ShownMember>,
    group_id: &str,
) -> (r: String)
    requires
        shown.len() == list.len(),
    ensures
        r@ == stats_report(*args, views(list@), views(shown@), group_id@),
{
    let user: Option<String> = optional_id(args);
    let keyword: String = lowercase_keyword(args);
    let minimum: u64 = match args.unsigned("min_ban_count") {
        Some(n) => n,
        None => 0,
    };
    let sort_by: String = match args.text("sort_by") {
        Some(s) => s,
        None => "ban_count".to_owned(),
    };
    let ghost all = views(list@);
    let ghost f = member_filter(minimum, optional_id_spec(*args), keyword@, all);
    let mut kept: Vec<usize> = Vec::new();
    let mut keys: Vec<i64> = Vec::new();
    let mut i: usize = 0;
    assert(as_ints(kept@) =~= indices_where(0, f));
    assert(keys@ =~= rank_keys(sort_by@, all, as_ints(kept@)));
    while i < list.len()
        invariant
            i <= list.len(),
            all == views(list@),
            f == member_filter(minimum, crate::text::opt_text(user), keyword@, all),
            as_ints(kept@) == indices_where(i as nat, f),
            keys@ == rank_keys(sort_by@, all, as_ints(kept@)),
        decreases list.len() - i,
    {
        let s: &MemberStats = &list[i];
        assert(all[i as int] == s@);
        let right_user: bool = match &user {
            Some(id) => same(&s.user_id, id),
            None => true,
        };
        let mut lowered: Vec<String> = Vec::new();
        lowered.push(s.user_name.as_str().to_lowercase());
        lowered.push(s.last_reason.as_str().to_lowercase());
        assert(crate::text::texts(lowered@) =~= seq![
            lowercase(s@.user_name),
            lowercase(s@.last_reason),
        ]);
        if s.ban_count >= minimum && right_user && matches_keyword(&keyword, &lowered) {
            assert(f(i as int));
            let ghost before = as_ints(kept@);
            kept.push(i);
            keys.push(rank_of(&sort_by, s));
            assert(as_ints(kept@) =~= before.push(i as int));
            assert(keys@ =~= rank_keys(sort_by@, all, as_ints(kept@)));
        } else {
            assert(!f(i as int));
        }
        i += 1;
    }
    let order: Vec<usize> = sort_indices(&keys);
    let ghost ks = as_ints(kept@);
    let ghost ranked = arranged(ks, as_ints(order@));
    proof {
        lemma_indices_where(list.len() as nat, f);
    }
    let mut sorted: Vec<usize> = Vec::new();
    let mut q: usize = 0;
    while q < order.len()
        invariant
            q <= order.len(),
            sorted.len() == q,
            keys.len() == kept.len(),
            ks == as_ints(kept@),
            ranked == arranged(ks, as_ints(order@)),
            forall|k: int| 0 <= k < order.len() ==> #[trigger] order@[k] < keys.len(),
            forall|k: int| 0 <= k < q ==> #[trigger] sorted@[k] as int == ranked[k],
        decreases order.len() - q,
    {
        sorted.push(kept[order[q]]);
        q += 1;
    }
    assert(as_ints(sorted@) =~= ranked);
    let flip: bool = !ascending(args);
    let places: Vec<usize> = pick(&sorted, flip, limit(args));
    let ghost ps = as_ints(places@);
    proof {
        assert forall|k: int| 0 <= k < ranked.len() implies 0 <= #[trigger] ranked[k]
            < list.len() by {
            assert(ranked[k] == ks[order@[k] as int]);
        }
        assert forall|k: int| 0 <= k < ps.len() implies 0 <= #[trigger] ps[k] < list.len() by {
            let src = if flip { ranked.reverse() } else { ranked };
            assert(ps[k] == src[k]);
            if flip {
                assert(src[k] == ranked[ranked.len() - 1 - k]);
            }
        }
    }
    let mut out: String = "group ".to_owned();
    out.append(group_id);
    out.append(": ");
    let count: String = decimal_text(places.len() as u64);
    out.append(&count);
    out.append(" member(s), sorted by ");
    out.append(&sort_by);
    out.append("\n");
    let ghost head = out@;
    let ghost sh = views(shown@);
    let mut k: usize = 0;
    assert(ps.take(0) =~= seq![]);
    assert(out@ =~= head + member_lines(all, sh, ps.take(0)));
    while k < places.len()
        invariant
            k <= places.len(),
            ps == as_ints(places@),
            all == views(list@),
            sh == views(shown@),
            shown.len() == list.len(),
            forall|j: int| 0 <= j < ps.len() ==> 0 <= #[trigger] ps[j] < list.len(),
            out@ == head + member_lines(all, sh, ps.take(k as int)),
        decreases places.len() - k,
    {
        assert(0 <= ps[k as int] < list.len());
        let p: usize = places[k];
        assert(all[p as int] == list@[p as int]@);
        assert(sh[p as int] == shown@[p as int]@);
        let line: String = format_member_line(&list[p], &shown[p]);
        assert(ps.take(k + 1).drop_last() =~= ps.take(k as int));
        let ghost before = member_lines(all, sh, ps.take(k as int));
        out.append(&line);
        out.append("\n");
        assert(out@ =~= head + (before + line@ + "\n"@));
        k += 1;
    }
    assert(ps.take(places.len() as int) =~= ps);
    out
}

/// What a history query is to show.
#[derive(Clone, Copy, Debug, PartialEq, Eq, Structural)]
pub enum HistoryView {
    Events,
    Stats,
}

/// The action filter that a query asks for.
pub open spec fn query_action(args: Arguments) -> Seq<char> {
    match args.text_at("action"@) {
        Some(s) => s,
        None => "all"@,
    }
}

/// Which view a query asks for, or why it cannot be answered.
pub open spec fn query_view(args: Arguments) -> Result<HistoryView, Seq<char>> {
    let action = query_action(args);
    let view = match args.text_at("view"@) {
        Some(s) => s,
        None => "events"@,
    };
    if action != "ban"@ && action != "kick"@ && action != "title"@ && action != "all"@ {
        Err("action 必须是 ban/kick/title/all"@)
    } else if view == "stats"@ {
        Ok(HistoryView::Stats)
    } else if view == "events"@ {
        Ok(HistoryView::Events)
    } else {
        Err("view 必须是 events 或 stats"@)
    }
}

/// The action filter and the view that a query asks for, or why it cannot be
/// answered.
pub fn query_history(args: &Arguments) -> (r: Result<(String, HistoryView), String>)
    ensures
        match r {
            Ok(q) => q.0@ == query_action(*args) && query_view(*args) == Ok::<
                HistoryView,
                Seq<char>,
            >(q.1),
            Err(e) => query_view(*args) == Err::<HistoryView, Seq<char>>(e@),
        },
{
    let action: String = match args.text("action") {
        Some(s) => s,
        None => "all".to_owned(),
    };
    if !same(&action, "ban") && !same(&action, "kick") && !same(&action, "title") && !same(
        &action,
        "all",
    ) {
        return Err("action 必须是 ban/kick/title/all".to_owned());
    }
    let view: String = match args.text("view") {
        Some(s) => s,
        None => "events".to_owned(),
    };
    if same(&view, "stats") {
        Ok((action, HistoryView::Stats))
    } else if same(&view, "events") {
        Ok((action, HistoryView::Events))
    } else {
        Err("view 必须是 events 或 stats".to_owned())
    }
}

// ---------------------------------------------------------------------------
// Record ids

/// The record id made of the low 48 bits of a number.
pub fn record_id_from(bits: u64) -> (r: String)
    ensures
        r@ == hex_digits(bits as nat, 12),
{
    hex_text(bits, 12)
}

/// A record id drawn at random: twelve hexadecimal digits.
pub fn record_id() -> (r: String)
    ensures
        exists|bits: u64| #[trigger] drawn(bits) && r@ == hex_digits(bits as nat, 12),
{
    record_id_from(draw())
}

// ---------------------------------------------------------------------------
// What the record says

/// A mute counts once for the member whom it was given, with its length and its reason, and
/// for nobody else.
pub proof fn law_a_mute_counts_for_its_member(
    list: Seq<OffenderHistoryModel>,
    record: BanRecordModel,
    i: int,
)
    requires
        distinct_offenders(list),
        0 <= i < list.len(),
        list[i].ban_count < u64::MAX,
        list[i].total_duration + record.duration <= u64::MAX,
    ensures
        list[i].user_id == record.user_id ==> ({
            let h = with_ban(list, record)[i];
            &&& h.user_id == record.user_id
            &&& h.ban_count == list[i].ban_count + 1
            &&& h.total_duration == list[i].total_duration + record.duration
            &&& h.first_ban_at == list[i].first_ban_at
            &&& h.last_ban_at == record.started_at
            &&& h.last_reason == record.reason
            &&& h.reason_history.last() == (ReasonEntryModel {
                reason: record.reason,
                duration: record.duration,
                banned_at: record.started_at,
                operator_id: record.operator_id,
                record_id: record.record_id,
            })
        }),
        list[i].user_id != record.user_id ==> with_ban(list, record)[i] == list[i],
{
    lemma_offender_place(list, record.user_id, i);
    law_trim_keeps_the_newest(
        list[i].reason_history.push(reason_of(record)),
        MAX_REASON_HISTORY_PER_OFFENDER as nat,
    );
}

proof fn lemma_offender_place(list: Seq<OffenderHistoryModel>, user_id: Seq<char>, i: int)
    requires
        distinct_offenders(list),
        0 <= i < list.len(),
    ensures
        list[i].user_id == user_id ==> history_index(list, user_id) == i,
        list[i].user_id != user_id ==> history_index(list, user_id) != i,
        0 <= history_index(list, user_id) <= list.len(),
    decreases list.len(),
{
    lemma_offender_found(list, user_id);
    let k = history_index(list, user_id);
    if list[i].user_id == user_id && k < list.len() && k != i {
        assert(list[k].user_id == user_id);
        if k < i {
            assert(list[k].user_id != list[i].user_id);
        } else {
            assert(list[i].user_id != list[k].user_id);
        }
    }
}

proof fn lemma_offender_found(list: Seq<OffenderHistoryModel>, user_id: Seq<char>)
    ensures
        0 <= history_index(list, user_id) <= list.len(),
        history_index(list, user_id) < list.len() ==> list[history_index(list, user_id)].user_id
            == user_id,
        history_index(list, user_id) == list.len() ==> forall|j: int|
            0 <= j < list.len() ==> (#[trigger] list[j]).user_id != user_id,
    decreases list.len(),
{
    if list.len() > 0 && list[0].user_id != user_id {
        let rest = list.drop_first();
        lemma_offender_found(rest, user_id);
        if history_index(list, user_id) == list.len() {
            assert forall|j: int| 0 <= j < list.len() implies (#[trigger] list[j]).user_id
                != user_id by {
                if j > 0 {
                    assert(rest[j - 1] == list[j]);
                }
            }
        }
    }
}

/// The first mute of a member starts a history of one.
pub proof fn law_a_first_mute_starts_a_history(list: Seq<OffenderHistoryModel>, record: BanRecordModel)
    requires
        forall|j: int| 0 <= j < list.len() ==> (#[trigger] list[j]).user_id != record.user_id,
    ensures
        ({
            let r = with_ban(list, record);
            &&& r.len() == list.len() + 1
            &&& r.last().user_id == record.user_id && r.last().user_name == record.user_name
            &&& r.last().ban_count == 1 && r.last().total_duration == record.duration
            &&& r.last().first_ban_at == record.started_at && r.last().last_ban_at
                == record.started_at
            &&& forall|j: int| 0 <= j < list.len() ==> #[trigger] r[j] == list[j]
        }),
{
    lemma_offender_found(list, record.user_id);
}

/// A query is about the group that it names: one's own for everybody, another one for an
/// administrator.
pub proof fn law_the_group_that_is_asked_about(id: Seq<char>, c: ConversationModel, is_admin: bool)
    requires
        5 <= id.len() <= 12,
        all_digits(id),
    ensures
        ({
            let r = query_scope(Some(id), c, is_admin);
            let own = c.kind == ConversationKind::Group && c.conversation_id == id;
            &&& r is Ok <==> own || is_admin
            &&& r is Ok ==> r->Ok_0.conversation_id == id && r->Ok_0.conversation_kind == "group"@
                && r->Ok_0.account_id == c.account_id && r->Ok_0.platform == c.platform
            &&& query_scope(None, c, is_admin) is Ok <==> c.kind == ConversationKind::Group
            &&& c.kind == ConversationKind::Group ==> query_scope(
                None,
                c,
                is_admin,
            )->Ok_0.conversation_id == c.conversation_id
        }),
{
    law_plain_white_space(id[0]);
    law_plain_white_space(id.last());
    law_trimmed_stays(id);
    law_trimmed_stays(Seq::<char>::empty());
}

/// Whether a mute still holds: not once it was lifted or given anew, and else until its time
/// is over.
pub proof fn law_whether_a_mute_holds(events: Seq<ManagementEventModel>, i: int, j: int, now: i64)
    requires
        0 <= i < j < events.len(),
        events[j].user_id == events[i].user_id,
        forall|k: int|
            i < k < j && (#[trigger] events[k]).user_id == events[i].user_id ==> events[k].action
                != "ban"@ && events[k].action != "unban"@,
    ensures
        events[j].action == "unban"@ ==> ban_status(events, i, now) == "unmuted"@,
        events[j].action == "ban"@ ==> ban_status(events, i, now) == "overridden"@,
{
    reveal_strlit("ban");
    reveal_strlit("unban");
    assert("ban"@.len() == 3 && "unban"@.len() == 5);
    lemma_later(events, events[i].user_id, i + 1, j);
}

proof fn lemma_later(events: Seq<ManagementEventModel>, user_id: Seq<char>, from: int, j: int)
    requires
        0 <= from <= j < events.len(),
        events[j].user_id == user_id,
        forall|k: int|
            from <= k < j && (#[trigger] events[k]).user_id == user_id ==> events[k].action
                != "ban"@ && events[k].action != "unban"@,
    ensures
        events[j].action == "unban"@ ==> later_verdict(events, user_id, from) == Some("unmuted"@),
        events[j].action == "ban"@ && "ban"@ != "unban"@ ==> later_verdict(events, user_id, from)
            == Some("overridden"@),
    decreases j - from,
{
    if from < j {
        lemma_later(events, user_id, from + 1, j);
    }
}

/// A mute that nothing followed holds until its time is over, and no longer.
pub proof fn law_a_mute_holds_its_time(events: Seq<ManagementEventModel>, i: int, now: i64)
    requires
        0 <= i < events.len(),
        forall|k: int|
            i < k < events.len() && (#[trigger] events[k]).user_id == events[i].user_id
                ==> events[k].action != "ban"@ && events[k].action != "unban"@,
        events[i].duration <= 2592000,
        0 <= events[i].happened_at <= i64::MAX - 2592000,
    ensures
        ban_status(events, i, now) == "active"@ <==> now < events[i].happened_at
            + events[i].duration,
        ban_status(events, i, now) == "expired"@ <==> now >= events[i].happened_at
            + events[i].duration,
{
    lemma_nothing_later(events, events[i].user_id, i + 1);
    reveal_strlit("active");
    reveal_strlit("expired");
    assert("active"@.len() == 6 && "expired"@.len() == 7);
}

proof fn lemma_nothing_later(events: Seq<ManagementEventModel>, user_id: Seq<char>, from: int)
    requires
        0 <= from,
        forall|k: int|
            from <= k < events.len() && (#[trigger] events[k]).user_id == user_id
                ==> events[k].action != "ban"@ && events[k].action != "unban"@,
    ensures
        later_verdict(events, user_id, from) is None,
    decreases events.len() - from,
{
    if from < events.len() {
        lemma_nothing_later(events, user_id, from + 1);
    }
}

/// Each mute is told with its own status.
pub proof fn law_each_mute_has_its_status(events: Seq<ManagementEventModel>, n: nat, i: int, now: i64)
    requires
        distinct_records(events),
        0 <= i < n <= events.len(),
    ensures
        events[i].action == "ban"@ ==> status_in(statuses_of(events, n, now), events[i].record_id)
            == Some(ban_status(events, i, now)),
        events[i].action != "ban"@ ==> status_in(statuses_of(events, n, now), events[i].record_id)
            is None,
    decreases n,
{
    let m = (n - 1) as nat;
    let before = statuses_of(events, m, now);
    let after = statuses_of(events, n, now);
    if events[n - 1].action == "ban"@ {
        assert(after.drop_last() =~= before);
    }
    if i < n - 1 {
        law_each_mute_has_its_status(events, m, i, now);
        assert(events[i].record_id != events[n - 1].record_id);
    } else {
        lemma_no_status_before(events, m, i, now);
    }
}

proof fn lemma_no_status_before(events: Seq<ManagementEventModel>, n: nat, i: int, now: i64)
    requires
        distinct_records(events),
        n <= i < events.len(),
    ensures
        status_in(statuses_of(events, n, now), events[i].record_id) is None,
    decreases n,
{
    if n > 0 {
        let m = (n - 1) as nat;
        lemma_no_status_before(events, m, i, now);
        assert(events[n - 1].record_id != events[i].record_id);
        if events[n - 1].action == "ban"@ {
            assert(statuses_of(events, n, now).drop_last() =~= statuses_of(events, m, now));
        }
    }
}

/// The newest events come first unless the older ones are asked for first, no more than are
/// asked for, and every one of them is of the kind and of the member that is asked for.
pub proof fn law_events_that_are_shown(
    args: Arguments,
    filter: Seq<char>,
    events: Seq<ManagementEventModel>,
    a: int,
    b: int,
)
    ensures
        ({
            let places = shown_events(args, filter, events);
            &&& places.len() <= limit_spec(args)
            &&& 0 <= a < places.len() ==> 0 <= places[a] < events.len() && action_matches_spec(
                filter,
                events[places[a]].action,
            )
            &&& 0 <= a < places.len() && optional_id_spec(args) is Some ==> events[places[a]].user_id
                == optional_id_spec(args)->0
            &&& 0 <= a < b < places.len() && args.at("sort_order"@) is None ==> places[a]
                > places[b]
            &&& 0 <= a < b < places.len() && asks_ascending(args) ==> places[a] < places[b]
        }),
{
    let p = event_filter(filter, optional_id_spec(args), keyword_of(args), events);
    let kept = indices_where(events.len(), p);
    law_indices_where(events.len(), p);
    let ends = if asks_ascending(args) {
        kept
    } else {
        kept.reverse()
    };
    law_ends_of_a_list(ends, limit_spec(args) as nat);
    let places = shown_events(args, filter, events);
    if 0 <= a < places.len() {
        assert(places[a] == ends[a]);
        assert(kept.contains(places[a])) by {
            if asks_ascending(args) {
                assert(kept[a] == places[a]);
            } else {
                assert(kept[kept.len() - 1 - a] == places[a]);
            }
        }
        assert(p(places[a]));
    }
    if 0 <= a < b < places.len() {
        assert(places[b] == ends[b]);
        if !asks_ascending(args) {
            assert(kept[kept.len() - 1 - b] < kept[kept.len() - 1 - a]);
        }
    }
}

/// An event that is asked for is shown, where there is room for all.
pub proof fn law_every_event_is_shown(
    args: Arguments,
    filter: Seq<char>,
    events: Seq<ManagementEventModel>,
    i: int,
)
    requires
        0 <= i < events.len() <= limit_spec(args),
        action_matches_spec(filter, events[i].action),
        optional_id_spec(args) is None || optional_id_spec(args)->0 == events[i].user_id,
        keyword_of(args).len() == 0 || occurs(lowercase(events[i].user_name), keyword_of(args))
            || occurs(lowercase(events[i].reason), keyword_of(args)) || occurs(
            lowercase(events[i].detail),
            keyword_of(args),
        ),
    ensures
        shown_events(args, filter, events).contains(i),
{
    let p = event_filter(filter, optional_id_spec(args), keyword_of(args), events);
    let kept = indices_where(events.len(), p);
    law_indices_where(events.len(), p);
    let fields = seq![
        lowercase(events[i].user_name),
        lowercase(events[i].reason),
        lowercase(events[i].detail),
    ];
    assert(fields[0] == lowercase(events[i].user_name));
    assert(fields[1] == lowercase(events[i].reason));
    assert(fields[2] == lowercase(events[i].detail));
    assert(p(i));
    let k = choose|k: int| 0 <= k < kept.len() && kept[k] == i;
    lemma_no_more_than(events.len(), p);
    let places = shown_events(args, filter, events);
    if asks_ascending(args) {
        assert(places[k] == i);
    } else {
        assert(kept.reverse()[kept.len() - 1 - k] == i);
        assert(places[kept.len() - 1 - k] == i);
    }
}

proof fn lemma_no_more_than(n: nat, p: spec_fn(int) -> bool)
    ensures
        indices_where(n, p).len() <= n,
    decreases n,
{
    if n > 0 {
        lemma_no_more_than((n - 1) as nat, p);
    }
}

/// Members are ranked by what is asked for.
pub proof fn law_members_are_ranked(s: MemberStatsModel)
    requires
        s.kick_count <= i64::MAX,
        s.ban_count <= i64::MAX,
        s.total_ban_duration <= i64::MAX,
    ensures
        rank_key("kick_count"@, s) == s.kick_count,
        rank_key("total_duration"@, s) == s.total_ban_duration,
        rank_key("time"@, s) == s.last_action_at,
        rank_key("last_action_at"@, s) == s.last_action_at,
        rank_key("ban_count"@, s) == s.ban_count,
{
    reveal_strlit("kick_count");
    reveal_strlit("total_duration");
    reveal_strlit("time");
    reveal_strlit("last_action_at");
    reveal_strlit("ban_count");
    assert("kick_count"@[0] == 'k' && "total_duration"@[0] == 't' && "time"@[0] == 't');
    assert("last_action_at"@[0] == 'l' && "ban_count"@[0] == 'b');
    assert("time"@.len() == 4 && "total_duration"@.len() == 14 && "last_action_at"@.len() == 14);
}

/// The table of members has the highest first unless the lowest is asked for, and shows only
/// those who were muted often enough.
pub proof fn law_members_that_are_shown(
    args: Arguments,
    list: Seq<MemberStatsModel>,
    a: int,
    b: int,
)
    ensures
        ({
            let places = shown_members(args, list);
            let by = sort_by_of(args);
            &&& places.len() <= limit_spec(args)
            &&& 0 <= a < places.len() ==> 0 <= places[a] < list.len() && list[places[a]].ban_count
                >= minimum_of(args)
            &&& 0 <= a < places.len() && optional_id_spec(args) is Some ==> list[places[a]].user_id
                == optional_id_spec(args)->0
            &&& 0 <= a < b < places.len() && !asks_ascending(args) ==> rank_key(by, list[places[a]])
                >= rank_key(by, list[places[b]])
            &&& 0 <= a < b < places.len() && asks_ascending(args) ==> rank_key(by, list[places[a]])
                <= rank_key(by, list[places[b]])
        }),
{
    let p = member_filter(minimum_of(args), optional_id_spec(args), keyword_of(args), list);
    let by = sort_by_of(args);
    let kept = indices_where(list.len(), p);
    law_indices_where(list.len(), p);
    let keys = rank_keys(by, list, kept);
    let order = stable_order(keys);
    law_stable_order(keys, keys.len());
    let ranked = arranged(kept, order);
    let ends = if asks_ascending(args) {
        ranked
    } else {
        ranked.reverse()
    };
    law_ends_of_a_list(ends, limit_spec(args) as nat);
    let places = shown_members(args, list);
    assert forall|x: int| 0 <= x < ranked.len() implies kept.contains(#[trigger] ranked[x])
        && rank_key(by, list[ranked[x]]) == keys[order[x]] by {
        assert(0 <= order[x] < kept.len());
        assert(ranked[x] == kept[order[x]]);
        assert(keys[order[x]] == rank_key(by, list[kept[order[x]]]));
    }
    if 0 <= a < places.len() {
        let x = if asks_ascending(args) {
            a
        } else {
            ranked.len() - 1 - a
        };
        assert(places[a] == ends[a] && ends[a] == ranked[x]);
        assert(kept.contains(places[a]));
        assert(p(places[a]));
    }
    if 0 <= a < b < places.len() {
        let (x, y) = if asks_ascending(args) {
            (a, b)
        } else {
            (ranked.len() - 1 - b, ranked.len() - 1 - a)
        };
        assert(places[b] == ends[b]);
        assert(ends[b] == if asks_ascending(args) {
            ranked[y]
        } else {
            ranked[x]
        });
        assert(ends[a] == if asks_ascending(args) {
            ranked[x]
        } else {
            ranked[y]
        });
        assert(keys[order[x]] <= keys[order[y]]);
        assert(rank_key(by, list[ranked[x]]) == keys[order[x]]);
        assert(rank_key(by, list[ranked[y]]) == keys[order[y]]);
    }
}

/// What a call asks for: how often at least, by what, in which order, and which view.
pub proof fn law_what_a_query_asks_for(args: Arguments, n: u64, s: String)
    ensures
        args.at("min_ban_count"@) == Some(Argument::One(Scalar::Unsigned(n))) ==> minimum_of(args)
            == n,
        args.at("min_ban_count"@) is None ==> minimum_of(args) == 0,
        args.at("sort_by"@) == Some(Argument::One(Scalar::Text(s))) ==> sort_by_of(args) == s@,
        args.at("sort_by"@) is None ==> sort_by_of(args) == "ban_count"@,
        args.at("sort_order"@) == Some(Argument::One(Scalar::Text(s))) ==> (asks_ascending(args)
            <==> s@ == "asc"@),
        args.at("sort_order"@) is None ==> !asks_ascending(args),
        args.at("action"@) == Some(Argument::One(Scalar::Text(s))) ==> query_action(args) == s@,
        args.at("action"@) is None ==> query_action(args) == "all"@,
        args.at("action"@) is None && args.at("view"@) is None ==> query_view(args) == Ok::<
            HistoryView,
            Seq<char>,
        >(HistoryView::Events),
        args.at("action"@) is None && args.at("view"@) == Some(Argument::One(Scalar::Text(s))) && s@
            == "stats"@ ==> query_view(args) == Ok::<HistoryView, Seq<char>>(HistoryView::Stats),
        args.at("action"@) is None && args.at("view"@) == Some(Argument::One(Scalar::Text(s))) && s@
            == "events"@ ==> query_view(args) == Ok::<HistoryView, Seq<char>>(HistoryView::Events),
{
    reveal_strlit("stats");
    reveal_strlit("events");
    assert("stats"@.len() == 5 && "events"@.len() == 6);
}

/// An event is told with when it was, whom it was done to, by whom and why, and for how long.
pub proof fn law_an_event_is_told(e: ManagementEventModel, shown: ShownEventModel, status: Seq<char>)
    ensures
        ({
            let line = event_line(e, shown, Some(status));
            &&& occurs(line, shown.time) && occurs(line, e.action) && occurs(line, shown.user_name)
                && occurs(line, shown.user_id) && occurs(line, shown.operator_id) && occurs(
                line,
                status,
            )
            &&& e.duration > 0 ==> occurs(line, decimal(e.duration as nat))
            &&& e.reason.len() > 0 ==> occurs(line, shown.reason)
            &&& e.detail.len() > 0 ==> occurs(line, shown.detail)
        }),
{
    let head = lemma_event_head(e, shown);
    let d = decimal(e.duration as nat);
    law_writing_on_loses_nothing(head, " duration="@);
    law_writing_on_loses_nothing(head + " duration="@, d);
    law_writing_on_loses_nothing(head + " duration="@ + d, "s"@);
    let timed = if e.duration > 0 {
        head + " duration="@ + d + "s"@
    } else {
        head
    };
    law_writing_on_loses_nothing(timed, " status="@);
    law_writing_on_loses_nothing(timed + " status="@, status);
    let judged = timed + " status="@ + status;
    law_writing_on_loses_nothing(judged, " by QQ:"@);
    law_writing_on_loses_nothing(judged + " by QQ:"@, shown.operator_id);
    let signed = judged + " by QQ:"@ + shown.operator_id;
    law_writing_on_loses_nothing(signed, " reason: "@);
    law_writing_on_loses_nothing(signed + " reason: "@, shown.reason);
    let reasoned = if e.reason.len() > 0 {
        signed + " reason: "@ + shown.reason
    } else {
        signed
    };
    law_writing_on_loses_nothing(reasoned, " ("@);
    law_writing_on_loses_nothing(reasoned + " ("@, shown.detail);
    law_writing_on_loses_nothing(reasoned + " ("@ + shown.detail, ")"@);
}

proof fn lemma_event_head(e: ManagementEventModel, shown: ShownEventModel) -> (head: Seq<char>)
    ensures
        head == "["@ + shown.time + "] "@ + e.action + " "@ + shown.user_name + "(QQ:"@
            + shown.user_id + ")"@,
        occurs(head, shown.time),
        occurs(head, e.action),
        occurs(head, shown.user_name),
        occurs(head, shown.user_id),
{
    let t = "["@ + shown.time;
    law_writing_on_loses_nothing("["@, shown.time);
    law_writing_on_loses_nothing(t, "] "@);
    law_writing_on_loses_nothing(t + "] "@, e.action);
    law_writing_on_loses_nothing(t + "] "@ + e.action, " "@);
    let u = t + "] "@ + e.action + " "@;
    law_writing_on_loses_nothing(u, shown.user_name);
    law_writing_on_loses_nothing(u + shown.user_name, "(QQ:"@);
    law_writing_on_loses_nothing(u + shown.user_name + "(QQ:"@, shown.user_id);
    law_writing_on_loses_nothing(u + shown.user_name + "(QQ:"@ + shown.user_id, ")"@);
    u + shown.user_name + "(QQ:"@ + shown.user_id + ")"@
}

/// A removal is told as one, with who it was and why; one that also refuses new requests is
/// told apart.
pub proof fn law_removals_are_events(k: KickRecordModel, h: OffenderHistoryModel, r: ReasonEntryModel)
    ensures
        k.reject_add_request ==> kick_event(k).action == "kick_black"@,
        !k.reject_add_request ==> kick_event(k).action == "kick"@,
        kick_event(k).user_id == k.user_id,
        kick_event(k).record_id == k.record_id,
        kick_event(k).happened_at == k.kicked_at,
        kick_event(k).reason == k.reason,
        kick_event(k).operator_id == k.operator_id,
        reason_event(h, r).action == "ban"@,
        reason_event(h, r).user_id == h.user_id,
        reason_event(h, r).duration == r.duration,
        reason_event(h, r).happened_at == r.banned_at,
        reason_event(h, r).reason == r.reason,
        reason_event(h, r).record_id == r.record_id,
{
}

/// A member is told with their number and name, and with how often and how long they were
/// muted, removed and given a title.
pub proof fn law_a_member_is_told(s: MemberStatsModel, shown: ShownMemberModel)
    ensures
        occurs(member_line(s, shown), shown.user_id),
        occurs(member_line(s, shown), shown.user_name),
        occurs(member_line(s, shown), ": ban×"@ + decimal(s.ban_count as nat)),
        occurs(member_line(s, shown), " total "@ + decimal(s.total_ban_duration as nat)),
        occurs(member_line(s, shown), "s, kick×"@ + decimal(s.kick_count as nat)),
        occurs(member_line(s, shown), ", title×"@ + decimal(s.title_count as nat)),
        occurs(member_line(s, shown), shown.last_time),
        s.last_reason.len() > 0 ==> occurs(member_line(s, shown), shown.last_reason),
{
    let a = "QQ "@;
    let b = ": ban×"@ + decimal(s.ban_count as nat);
    let c = " total "@ + decimal(s.total_ban_duration as nat);
    let d = "s, kick×"@ + decimal(s.kick_count as nat);
    let e = ", title×"@ + decimal(s.title_count as nat);
    law_writing_on_loses_nothing(a, shown.user_id);
    let t1 = a + shown.user_id;
    law_writing_on_loses_nothing(t1, " "@);
    let t2 = t1 + " "@;
    law_writing_on_loses_nothing(t2, shown.user_name);
    let t3 = t2 + shown.user_name;
    law_writing_on_loses_nothing(t3, b);
    lemma_regrouped(t3, ": ban×"@, decimal(s.ban_count as nat));
    let t4 = t3 + ": ban×"@ + decimal(s.ban_count as nat);
    law_writing_on_loses_nothing(t4, c);
    lemma_regrouped(t4, " total "@, decimal(s.total_ban_duration as nat));
    let t5 = t4 + " total "@ + decimal(s.total_ban_duration as nat);
    law_writing_on_loses_nothing(t5, d);
    lemma_regrouped(t5, "s, kick×"@, decimal(s.kick_count as nat));
    let t6 = t5 + "s, kick×"@ + decimal(s.kick_count as nat);
    law_writing_on_loses_nothing(t6, e);
    lemma_regrouped(t6, ", title×"@, decimal(s.title_count as nat));
    let t7 = t6 + ", title×"@ + decimal(s.title_count as nat);
    law_writing_on_loses_nothing(t7, ", last ["@);
    let t8 = t7 + ", last ["@;
    law_writing_on_loses_nothing(t8, shown.last_time);
    let t9 = t8 + shown.last_time;
    law_writing_on_loses_nothing(t9, "]"@);
    let t10 = t9 + "]"@;
    law_writing_on_loses_nothing(t10, " "@);
    law_writing_on_loses_nothing(t10 + " "@, shown.last_reason);
}

proof fn lemma_regrouped(a: Seq<char>, b: Seq<char>, c: Seq<char>)
    ensures
        a + b + c == a + (b + c),
{
    assert(a + b + c =~= a + (b + c));
}

/// A report tells what is shown line by line, in its order, each event with its own status.
pub proof fn law_reports_go_line_by_line(
    events: Seq<ManagementEventModel>,
    shown: Seq<ShownEventModel>,
    now: i64,
    places: Seq<int>,
    p: int,
    list: Seq<MemberStatsModel>,
    members: Seq<ShownMemberModel>,
)
    requires
        distinct_records(events),
        0 <= p < events.len(),
        events[p].action == "ban"@,
    ensures
        event_lines(events, shown, now, places.push(p)) == event_lines(events, shown, now, places)
            + event_line(events[p], shown[p], Some(ban_status(events, p, now))) + "\n"@,
        event_lines(events, shown, now, Seq::empty()).len() == 0,
        member_lines(list, members, places.push(p)) == member_lines(list, members, places)
            + member_line(list[p], members[p]) + "\n"@,
        member_lines(list, members, Seq::empty()).len() == 0,
{
    assert(places.push(p).drop_last() =~= places);
    law_each_mute_has_its_status(events, events.len(), p, now);
}

/// A report begins with its group and with how much it shows.
pub proof fn law_reports_say_how_much(
    args: Arguments,
    filter: Seq<char>,
    events: Seq<ManagementEventModel>,
    shown: Seq<ShownEventModel>,
    group_id: Seq<char>,
    now: i64,
    list: Seq<MemberStatsModel>,
    members: Seq<ShownMemberModel>,
)
    ensures
        has_prefix(
            events_report(args, filter, events, shown, group_id, now),
            "group "@ + group_id + ": "@ + decimal(shown_events(args, filter, events).len())
                + " management event(s)\n"@,
        ),
        occurs(
            events_report(args, filter, events, shown, group_id, now),
            event_lines(events, shown, now, shown_events(args, filter, events)),
        ),
        occurs(
            stats_report(args, list, members, group_id),
            member_lines(list, members, shown_members(args, list)),
        ),
        has_prefix(stats_report(args, list, members, group_id), "group "@ + group_id),
        occurs(stats_report(args, list, members, group_id), sort_by_of(args)),
{
    let places = shown_events(args, filter, events);
    law_writing_on_loses_nothing(
        "group "@ + group_id + ": "@ + decimal(places.len()) + " management event(s)\n"@,
        event_lines(events, shown, now, places),
    );
    let some = shown_members(args, list);
    let t0 = "group "@ + group_id;
    let n = decimal(some.len());
    let by = sort_by_of(args);
    law_writing_on_loses_nothing(t0, ": "@);
    law_writing_on_loses_nothing(t0 + ": "@, n);
    let t2 = t0 + ": "@ + n;
    law_writing_on_loses_nothing(t2, " member(s), sorted by "@);
    let t3 = t2 + " member(s), sorted by "@;
    law_writing_on_loses_nothing(t3, by);
    law_writing_on_loses_nothing(t3 + by, "\n"@);
    law_writing_on_loses_nothing(t3 + by + "\n"@, member_lines(list, members, some));
}

/// A keyword finds what holds it, in the name, the reason or the detail, and nothing else.
pub proof fn law_keywords_find_what_holds_them(
    args: Arguments,
    filter: Seq<char>,
    events: Seq<ManagementEventModel>,
    a: int,
)
    requires
        keyword_of(args).len() > 0,
        0 <= a < shown_events(args, filter, events).len(),
    ensures
        ({
            let e = events[shown_events(args, filter, events)[a]];
            ||| occurs(lowercase(e.user_name), keyword_of(args))
            ||| occurs(lowercase(e.reason), keyword_of(args))
            ||| occurs(lowercase(e.detail), keyword_of(args))
        }),
{
    let p = event_filter(filter, optional_id_spec(args), keyword_of(args), events);
    let kept = indices_where(events.len(), p);
    law_indices_where(events.len(), p);
    let ends = if asks_ascending(args) {
        kept
    } else {
        kept.reverse()
    };
    law_ends_of_a_list(ends, limit_spec(args) as nat);
    let places = shown_events(args, filter, events);
    assert(places[a] == ends[a]);
    assert(kept.contains(places[a])) by {
        if asks_ascending(args) {
            assert(kept[a] == places[a]);
        } else {
            assert(kept[kept.len() - 1 - a] == places[a]);
        }
    }
    assert(p(places[a]));
}

/// A member's latest event is the one that is remembered, with its reason where it has one,
/// and the name that they had in it.
pub proof fn law_the_latest_event_is_remembered(s: MemberStatsModel, e: ManagementEventModel)
    ensures
        counted(s, e).user_id == e.user_id,
        counted(s, e).last_action_at >= s.last_action_at,
        counted(s, e).last_action_at >= e.happened_at,
        counted(s, e).last_action_at == s.last_action_at || counted(s, e).last_action_at
            == e.happened_at,
        e.happened_at >= s.last_action_at && e.reason.len() > 0 ==> counted(s, e).last_reason
            == e.reason,
        e.happened_at < s.last_action_at || e.reason.len() == 0 ==> counted(s, e).last_reason
            == s.last_reason,
        e.user_name.len() > 0 ==> counted(s, e).user_name == e.user_name,
        e.user_name.len() == 0 ==> counted(s, e).user_name == s.user_name,
{
}

/// Where too many offenders are known, the one with the fewest mutes is forgotten, of several
/// such the one whose last mute is longest ago, and all others stay.
pub proof fn law_the_mildest_is_forgotten(
    list: Seq<OffenderHistoryModel>,
    record: BanRecordModel,
    max: nat,
    j: int,
)
    requires
        with_ban(list, record).len() > max,
        0 <= j < with_ban(list, record).len(),
    ensures
        ({
            let grown = with_ban(list, record);
            let gone = grown[mildest(grown)];
            &&& 0 <= mildest(grown) < grown.len()
            &&& gone.ban_count <= grown[j].ban_count
            &&& gone.ban_count == grown[j].ban_count ==> gone.last_ban_at <= grown[j].last_ban_at
            &&& updated_offenders(list, record, max).len() == grown.len() - 1
            &&& j != mildest(grown) ==> updated_offenders(list, record, max).contains(grown[j])
        }),
{
    let grown = with_ban(list, record);
    law_mildest(grown);
    let m = mildest(grown);
    let after = updated_offenders(list, record, max);
    if j < m {
        assert(after[j] == grown[j]);
    } else if j > m {
        assert(after[j - 1] == grown[j]);
    }
}

} // verus!
