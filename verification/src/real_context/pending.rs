//! Answers under way: a new message can overtake one that was decided on but not
//! sent yet.

use crate::platform::{plugin_scope, scope_of, Conversation, ScopeKey};
use crate::text::{is_empty_text, same, texts, views};
use vstd::prelude::*;
use vstd::string::*;

verus! {

/// How many messages with text one answer takes up.
pub const MAX_ACTIVE_TARGET_MESSAGES: usize = 8;

/// How many messages without text one answer takes up.
pub const MAX_ACTIVE_TARGET_SUPPLEMENTS: usize = 5;

/// What set an answer off.
#[derive(Clone, Copy, Debug, PartialEq, Eq, Structural)]
pub enum TriggerKind {
    Direct,
    Probability,
}

/// A message that an answer takes up.
pub struct ActiveReplyTarget {
    pub message_id: String,
    pub sender_id: String,
    pub content: String,
    /// Whether it only adds media.
    pub supplemental: bool,
}

/// What a [`ActiveReplyTarget`] holds, as values.
#[verifier::ext_equal]
pub struct ActiveReplyTargetModel {
    pub message_id: Seq<char>,
    pub sender_id: Seq<char>,
    pub content: Seq<char>,
    pub supplemental: bool,
}

impl View for ActiveReplyTarget {
    type V = ActiveReplyTargetModel;

    open spec fn view(&self) -> ActiveReplyTargetModel {
        ActiveReplyTargetModel {
            message_id: self.message_id@,
            sender_id: self.sender_id@,
            content: self.content@,
            supplemental: self.supplemental,
        }
    }
}

impl ActiveReplyTarget {
    /// A value that holds the same.
    pub fn copy(&self) -> (r: ActiveReplyTarget)
        ensures
            r@ == self@,
    {
        ActiveReplyTarget {
            message_id: self.message_id.clone(),
            sender_id: self.sender_id.clone(),
            content: self.content.clone(),
            supplemental: self.supplemental,
        }
    }

    /// A list that holds the same values.
    pub fn copy_all(v: &Vec<ActiveReplyTarget>) -> (r: Vec<ActiveReplyTarget>)
        ensures
            views(r@) == views(v@),
            r.len() == v.len(),
    {
        let mut out: Vec<ActiveReplyTarget> = Vec::new();
        let mut i: usize = 0;
        while i < v.len()
            invariant
                i <= v.len(),
                out.len() == i,
                forall|j: int| 0 <= j < i ==> (#[trigger] out@[j])@ == v@[j]@,
            decreases v.len() - i,
        {
            out.push(v[i].copy());
            i += 1;
        }
        assert(views(out@) =~= views(v@));
        out
    }
}


/// A reaction put on a message.
pub struct Reaction {
    pub message_id: String,
    pub reaction_id: String,
}

/// What a [`Reaction`] holds, as values.
#[verifier::ext_equal]
pub struct ReactionModel {
    pub message_id: Seq<char>,
    pub reaction_id: Seq<char>,
}

impl View for Reaction {
    type V = ReactionModel;

    open spec fn view(&self) -> ReactionModel {
        ReactionModel {
            message_id: self.message_id@,
            reaction_id: self.reaction_id@,
        }
    }
}

impl Reaction {
    /// A value that holds the same.
    pub fn copy(&self) -> (r: Reaction)
        ensures
            r@ == self@,
    {
        Reaction {
            message_id: self.message_id.clone(),
            reaction_id: self.reaction_id.clone(),
        }
    }

    /// A list that holds the same values.
    pub fn copy_all(v: &Vec<Reaction>) -> (r: Vec<Reaction>)
        ensures
            views(r@) == views(v@),
            r.len() == v.len(),
    {
        let mut out: Vec<Reaction> = Vec::new();
        let mut i: usize = 0;
        while i < v.len()
            invariant
                i <= v.len(),
                out.len() == i,
                forall|j: int| 0 <= j < i ==> (#[trigger] out@[j])@ == v@[j]@,
            decreases v.len() - i,
        {
            out.push(v[i].copy());
            i += 1;
        }
        assert(views(out@) =~= views(v@));
        out
    }
}


/// An answer under way.
pub struct PendingReply {
    /// Whom it answers.
    pub sender_id: String,
    pub generation: u64,
    /// In milliseconds.
    pub started: u64,
    pub trigger: TriggerKind,
    /// Whether it is certain to be sent.
    pub committed: bool,
    pub reactions: Vec<Reaction>,
    pub targets: Vec<ActiveReplyTarget>,
    pub cancelled: bool,
}

/// What a [`PendingReply`] holds, as values.
#[verifier::ext_equal]
pub struct PendingReplyModel {
    pub sender_id: Seq<char>,
    pub generation: u64,
    pub started: u64,
    pub trigger: TriggerKind,
    pub committed: bool,
    pub reactions: Seq<ReactionModel>,
    pub targets: Seq<ActiveReplyTargetModel>,
    pub cancelled: bool,
}

impl View for PendingReply {
    type V = PendingReplyModel;

    open spec fn view(&self) -> PendingReplyModel {
        PendingReplyModel {
            sender_id: self.sender_id@,
            generation: self.generation,
            started: self.started,
            trigger: self.trigger,
            committed: self.committed,
            reactions: views(self.reactions@),
            targets: views(self.targets@),
            cancelled: self.cancelled,
        }
    }
}

impl PendingReply {
    /// A value that holds the same.
    pub fn copy(&self) -> (r: PendingReply)
        ensures
            r@ == self@,
    {
        PendingReply {
            sender_id: self.sender_id.clone(),
            generation: self.generation,
            started: self.started,
            trigger: self.trigger,
            committed: self.committed,
            reactions: Reaction::copy_all(&self.reactions),
            targets: ActiveReplyTarget::copy_all(&self.targets),
            cancelled: self.cancelled,
        }
    }

    /// A list that holds the same values.
    pub fn copy_all(v: &Vec<PendingReply>) -> (r: Vec<PendingReply>)
        ensures
            views(r@) == views(v@),
            r.len() == v.len(),
    {
        let mut out: Vec<PendingReply> = Vec::new();
        let mut i: usize = 0;
        while i < v.len()
            invariant
                i <= v.len(),
                out.len() == i,
                forall|j: int| 0 <= j < i ==> (#[trigger] out@[j])@ == v@[j]@,
            decreases v.len() - i,
        {
            out.push(v[i].copy());
            i += 1;
        }
        assert(views(out@) =~= views(v@));
        out
    }
}


/// The answers under way in a conversation.
pub struct Session {
    pub key: String,
    pub pending: Vec<PendingReply>,
}

/// What a [`Session`] holds, as values.
#[verifier::ext_equal]
pub struct SessionModel {
    pub key: Seq<char>,
    pub pending: Seq<PendingReplyModel>,
}

impl View for Session {
    type V = SessionModel;

    open spec fn view(&self) -> SessionModel {
        SessionModel {
            key: self.key@,
            pending: views(self.pending@),
        }
    }
}


/// The answers under way in all conversations.
pub struct PendingRuntime {
    pub next_generation: u64,
    pub sessions: Vec<Session>,
}

/// What a [`PendingRuntime`] holds, as values.
#[verifier::ext_equal]
pub struct PendingRuntimeModel {
    pub next_generation: u64,
    pub sessions: Seq<SessionModel>,
}

impl View for PendingRuntime {
    type V = PendingRuntimeModel;

    open spec fn view(&self) -> PendingRuntimeModel {
        PendingRuntimeModel {
            next_generation: self.next_generation,
            sessions: views(self.sessions@),
        }
    }
}


/// The place where the watermark of answered messages is kept.
pub fn watermark_scope(c: &Conversation) -> (r: ScopeKey)
    ensures
        r@ == scope_of("real_context"@, c@),
{
    plugin_scope("real_context", c)
}

// ---------------------------------------------------------------------------
// Targets

/// The targets of one sender.
pub open spec fn of_sender(list: Seq<ActiveReplyTargetModel>, sender_id: Seq<char>) -> Seq<
    ActiveReplyTargetModel,
>
    decreases list.len(),
{
    if list.len() == 0 {
        seq![]
    } else {
        let before = of_sender(list.drop_last(), sender_id);
        if list.last().sender_id == sender_id {
            before.push(list.last())
        } else {
            before
        }
    }
}

/// How many of the targets only add media, or not.
pub open spec fn count_kind(list: Seq<ActiveReplyTargetModel>, supplemental: bool) -> nat
    decreases list.len(),
{
    if list.len() == 0 {
        0
    } else {
        count_kind(list.drop_first(), supplemental) + (if list[0].supplemental == supplemental {
            1nat
        } else {
            0
        })
    }
}

/// How many targets of a kind an answer takes up.
pub open spec fn kind_limit(supplemental: bool) -> nat {
    if supplemental {
        MAX_ACTIVE_TARGET_SUPPLEMENTS as nat
    } else {
        MAX_ACTIVE_TARGET_MESSAGES as nat
    }
}

/// The newest targets of each kind, as many as an answer takes up.
pub open spec fn newest_targets(list: Seq<ActiveReplyTargetModel>) -> Seq<ActiveReplyTargetModel>
    decreases list.len(),
{
    if list.len() == 0 {
        seq![]
    } else {
        let rest = newest_targets(list.drop_first());
        if count_kind(list.drop_first(), list[0].supplemental) < kind_limit(list[0].supplemental) {
            seq![list[0]] + rest
        } else {
            rest
        }
    }
}

proof fn lemma_count_split(
    head: ActiveReplyTargetModel,
    rest: Seq<ActiveReplyTargetModel>,
    supplemental: bool,
)
    ensures
        count_kind(seq![head] + rest, supplemental) == count_kind(rest, supplemental) + (
        if head.supplemental == supplemental {
            1nat
        } else {
            0
        }),
{
    assert((seq![head] + rest).drop_first() =~= rest);
}

/// No more targets of a kind are taken up than the limit, and all of them where
/// there are no more.
pub proof fn law_targets_are_bounded(list: Seq<ActiveReplyTargetModel>, supplemental: bool)
    ensures
        count_kind(newest_targets(list), supplemental) == (if count_kind(list, supplemental)
            < kind_limit(supplemental) {
            count_kind(list, supplemental)
        } else {
            kind_limit(supplemental)
        }),
    decreases list.len(),
{
    if list.len() > 0 {
        let t = list.drop_first();
        law_targets_are_bounded(t, supplemental);
        lemma_count_split(list[0], newest_targets(t), supplemental);
    }
}

/// Keeps the targets of the sender, the newest of each kind.
pub fn normalize_active_targets(targets: &mut Vec<ActiveReplyTarget>, sender_id: &str)
    ensures
        views(final(targets)@) == newest_targets(of_sender(views(old(targets)@), sender_id@)),
{
    let ghost all = views(targets@);
    let mut own: Vec<ActiveReplyTarget> = Vec::new();
    let mut i: usize = 0;
    assert(all.take(0) =~= seq![]);
    assert(views(own@) =~= seq![]);
    while i < targets.len()
        invariant
            i <= targets.len(),
            *targets == *old(targets),
            all == views(targets@),
            views(own@) == of_sender(all.take(i as int), sender_id@),
        decreases targets.len() - i,
    {
        assert(all.take(i + 1).drop_last() =~= all.take(i as int));
        assert(all[i as int] == targets@[i as int]@);
        if same(&targets[i].sender_id, sender_id) {
            let ghost before = views(own@);
            own.push(targets[i].copy());
            assert(views(own@) =~= before.push(all[i as int]));
        }
        i += 1;
    }
    assert(all.take(targets.len() as int) =~= all);
    let ghost mine = views(own@);
    let mut kept: Vec<ActiveReplyTarget> = Vec::new();
    let mut texts_seen: usize = 0;
    let mut extras_seen: usize = 0;
    let mut k: usize = own.len();
    assert(mine.skip(mine.len() as int) =~= seq![]);
    assert(views(kept@) =~= seq![]);
    while k > 0
        invariant
            k <= own.len(),
            mine == views(own@),
            views(kept@) == newest_targets(mine.skip(k as int)),
            texts_seen == count_kind(mine.skip(k as int), false),
            extras_seen == count_kind(mine.skip(k as int), true),
            texts_seen + extras_seen == own.len() - k,
        decreases k,
    {
        k -= 1;
        let ghost rest = mine.skip(k as int);
        assert(rest.drop_first() =~= mine.skip(k + 1));
        assert(rest[0] == own@[k as int]@);
        let extra: bool = own[k].supplemental;
        let room: bool = if extra {
            extras_seen < MAX_ACTIVE_TARGET_SUPPLEMENTS
        } else {
            texts_seen < MAX_ACTIVE_TARGET_MESSAGES
        };
        if room {
            let ghost before = views(kept@);
            kept.insert(0, own[k].copy());
            assert(views(kept@) =~= seq![rest[0]] + before);
        }
        if extra {
            extras_seen += 1;
        } else {
            texts_seen += 1;
        }
    }
    assert(mine.skip(0) =~= mine);
    *targets = kept;
}

// ---------------------------------------------------------------------------
// Sessions

/// Where a session stands; past the end if nowhere.
pub open spec fn session_index(list: Seq<SessionModel>, key: Seq<char>) -> int
    decreases list.len(),
{
    if list.len() == 0 || list[0].key == key {
        0
    } else {
        1 + session_index(list.drop_first(), key)
    }
}

/// Where the answer to a sender stands; past the end if nowhere.
pub open spec fn pending_index(list: Seq<PendingReplyModel>, sender_id: Seq<char>) -> int
    decreases list.len(),
{
    if list.len() == 0 || list[0].sender_id == sender_id {
        0
    } else {
        1 + pending_index(list.drop_first(), sender_id)
    }
}

/// The answers under way in a session.
pub open spec fn pending_of(list: Seq<SessionModel>, key: Seq<char>) -> Seq<PendingReplyModel> {
    let i = session_index(list, key);
    if i < list.len() {
        list[i].pending
    } else {
        seq![]
    }
}

/// The answer to a sender that is under way.
pub open spec fn pending_for(list: Seq<PendingReplyModel>, sender_id: Seq<char>) -> Option<
    PendingReplyModel,
> {
    let i = pending_index(list, sender_id);
    if i < list.len() {
        Some(list[i])
    } else {
        None
    }
}

/// The answers without that to a sender.
pub open spec fn without_reply(list: Seq<PendingReplyModel>, sender_id: Seq<char>) -> Seq<
    PendingReplyModel,
> {
    let i = pending_index(list, sender_id);
    if i < list.len() {
        list.remove(i)
    } else {
        list
    }
}

/// The answers with one for its sender, in place of the one before.
pub open spec fn with_reply(list: Seq<PendingReplyModel>, p: PendingReplyModel) -> Seq<
    PendingReplyModel,
> {
    let i = pending_index(list, p.sender_id);
    if i < list.len() {
        list.update(i, p)
    } else {
        list.push(p)
    }
}

/// The sessions with the answers of one replaced.
pub open spec fn with_session(
    list: Seq<SessionModel>,
    key: Seq<char>,
    pending: Seq<PendingReplyModel>,
) -> Seq<SessionModel> {
    let i = session_index(list, key);
    let s = SessionModel { key: key, pending: pending };
    if i < list.len() {
        list.update(i, s)
    } else {
        list.push(s)
    }
}

proof fn lemma_session_index(list: Seq<SessionModel>, key: Seq<char>, k: int)
    requires
        0 <= k <= list.len(),
        forall|j: int| 0 <= j < k ==> (#[trigger] list[j]).key != key,
        k == list.len() || list[k].key == key,
    ensures
        session_index(list, key) == k,
    decreases list.len(),
{
    if k > 0 {
        assert(list[0].key != key);
        let t = list.drop_first();
        assert forall|j: int| 0 <= j < k - 1 implies (#[trigger] t[j]).key != key by {
            assert(t[j] == list[j + 1]);
        }
        lemma_session_index(t, key, k - 1);
    }
}

proof fn lemma_session_found(list: Seq<SessionModel>, key: Seq<char>)
    ensures
        0 <= session_index(list, key) <= list.len(),
        session_index(list, key) < list.len() ==> list[session_index(list, key)].key == key,
        forall|j: int| 0 <= j < session_index(list, key) ==> (#[trigger] list[j]).key != key,
    decreases list.len(),
{
    if list.len() > 0 && list[0].key != key {
        let t = list.drop_first();
        lemma_session_found(t, key);
        assert forall|j: int| 0 <= j < session_index(list, key) implies (#[trigger] list[j]).key
            != key by {
            if j > 0 {
                assert(list[j] == t[j - 1]);
            }
        }
    }
}

proof fn lemma_pending_index(list: Seq<PendingReplyModel>, sender_id: Seq<char>, k: int)
    requires
        0 <= k <= list.len(),
        forall|j: int| 0 <= j < k ==> (#[trigger] list[j]).sender_id != sender_id,
        k == list.len() || list[k].sender_id == sender_id,
    ensures
        pending_index(list, sender_id) == k,
    decreases list.len(),
{
    if k > 0 {
        assert(list[0].sender_id != sender_id);
        let t = list.drop_first();
        assert forall|j: int| 0 <= j < k - 1 implies (#[trigger] t[j]).sender_id != sender_id by {
            assert(t[j] == list[j + 1]);
        }
        lemma_pending_index(t, sender_id, k - 1);
    }
}

proof fn lemma_pending_found(list: Seq<PendingReplyModel>, sender_id: Seq<char>)
    ensures
        0 <= pending_index(list, sender_id) <= list.len(),
        pending_index(list, sender_id) < list.len() ==> list[pending_index(
            list,
            sender_id,
        )].sender_id == sender_id,
        forall|j: int|
            0 <= j < pending_index(list, sender_id) ==> (#[trigger] list[j]).sender_id != sender_id,
    decreases list.len(),
{
    if list.len() > 0 && list[0].sender_id != sender_id {
        let t = list.drop_first();
        lemma_pending_found(t, sender_id);
        assert forall|j: int| 0 <= j < pending_index(list, sender_id) implies (
        #[trigger] list[j]).sender_id != sender_id by {
            if j > 0 {
                assert(list[j] == t[j - 1]);
            }
        }
    }
}

/// The generation after another: never zero.
pub open spec fn next_generation(g: u64) -> u64 {
    if g == u64::MAX {
        1
    } else {
        (g + 1) as u64
    }
}

/// Whether the answer to a sender is the one of a generation.
pub open spec fn is_current(
    sessions: Seq<SessionModel>,
    key: Seq<char>,
    sender_id: Seq<char>,
    generation: u64,
) -> bool {
    match pending_for(pending_of(sessions, key), sender_id) {
        Some(p) => p.generation == generation,
        None => false,
    }
}

/// Whether no sender has two answers under way.
pub open spec fn distinct_senders(list: Seq<PendingReplyModel>) -> bool {
    forall|i: int, j: int|
        0 <= i < j < list.len() ==> (#[trigger] list[i]).sender_id != (#[trigger] list[j]).sender_id
}

/// Whether no conversation has two sessions.
pub open spec fn distinct_sessions(list: Seq<SessionModel>) -> bool {
    forall|i: int, j: int|
        0 <= i < j < list.len() ==> (#[trigger] list[i]).key != (#[trigger] list[j]).key
}

impl PendingRuntimeModel {
    /// Whether each conversation has one session, and each sender one answer in it.
    pub open spec fn wf(self) -> bool {
        &&& distinct_sessions(self.sessions)
        &&& forall|i: int|
            0 <= i < self.sessions.len() ==> distinct_senders((#[trigger] self.sessions[i]).pending)
    }
}

proof fn lemma_with_reply(list: Seq<PendingReplyModel>, p: PendingReplyModel)
    requires
        distinct_senders(list),
    ensures
        distinct_senders(with_reply(list, p)),
{
    lemma_pending_found(list, p.sender_id);
    let put = with_reply(list, p);
    assert forall|a: int, b: int| 0 <= a < b < put.len() implies (#[trigger] put[a]).sender_id != (
    #[trigger] put[b]).sender_id by {
        if b < list.len() {
            assert(list[a].sender_id != list[b].sender_id);
        }
    }
}

proof fn lemma_without_reply(list: Seq<PendingReplyModel>, sender_id: Seq<char>)
    requires
        distinct_senders(list),
    ensures
        distinct_senders(without_reply(list, sender_id)),
        forall|j: int|
            0 <= j < without_reply(list, sender_id).len() ==> (#[trigger] without_reply(
                list,
                sender_id,
            )[j]).sender_id != sender_id,
{
    lemma_pending_found(list, sender_id);
    let k = pending_index(list, sender_id);
    let out = without_reply(list, sender_id);
    if k < list.len() {
        assert forall|a: int, b: int| 0 <= a < b < out.len() implies (#[trigger] out[a]).sender_id
            != (#[trigger] out[b]).sender_id by {
            let x = if a < k {
                a
            } else {
                a + 1
            };
            let y = if b < k {
                b
            } else {
                b + 1
            };
            assert(out[a] == list[x]);
            assert(out[b] == list[y]);
        }
        assert forall|j: int| 0 <= j < out.len() implies (#[trigger] out[j]).sender_id
            != sender_id by {
            if j < k {
                assert(out[j] == list[j]);
            } else {
                assert(out[j] == list[j + 1]);
                assert(list[k].sender_id != list[j + 1].sender_id);
            }
        }
    } else {
        assert(out == list);
    }
}

proof fn lemma_with_session(r: PendingRuntimeModel, key: Seq<char>, pending: Seq<PendingReplyModel>)
    requires
        r.wf(),
        distinct_senders(pending),
    ensures
        (PendingRuntimeModel { sessions: with_session(r.sessions, key, pending), ..r }).wf(),
{
    lemma_session_found(r.sessions, key);
    let list = r.sessions;
    let after = with_session(list, key, pending);
    assert forall|a: int, b: int| 0 <= a < b < after.len() implies (#[trigger] after[a]).key != (
    #[trigger] after[b]).key by {
        if b < list.len() {
            assert(list[a].key != list[b].key);
        }
    }
    assert forall|i: int| 0 <= i < after.len() implies distinct_senders(
        (#[trigger] after[i]).pending,
    ) by {
        if i < list.len() && i != session_index(list, key) {
            assert(after[i] == list[i]);
        }
    }
}

proof fn lemma_session_senders(r: PendingRuntimeModel, key: Seq<char>)
    requires
        r.wf(),
    ensures
        distinct_senders(pending_of(r.sessions, key)),
{
    lemma_session_found(r.sessions, key);
}

proof fn lemma_session_reads_back(
    list: Seq<SessionModel>,
    key: Seq<char>,
    pending: Seq<PendingReplyModel>,
    other: Seq<char>,
)
    ensures
        pending_of(with_session(list, key, pending), key) == pending,
        other != key ==> pending_of(with_session(list, key, pending), other) == pending_of(
            list,
            other,
        ),
{
    lemma_session_found(list, key);
    lemma_session_found(list, other);
    let i = session_index(list, key);
    let after = with_session(list, key, pending);
    assert forall|j: int| 0 <= j < i implies (#[trigger] after[j]).key != key by {
        assert(after[j] == list[j]);
    }
    lemma_session_index(after, key, i);
    if other != key {
        let k = session_index(list, other);
        let n = if k < list.len() {
            k
        } else {
            after.len() as int
        };
        assert forall|j: int| 0 <= j < n implies (#[trigger] after[j]).key != other by {
            if j < list.len() && j != i {
                assert(after[j] == list[j]);
            }
        }
        lemma_session_index(after, other, n);
    }
}

/// An answer that was taken out is not the current one any more, for no generation, so
/// it cannot be taken out twice; the answers to other senders, and those in other
/// conversations, stay as they are.
pub proof fn law_dropped_reply_is_gone(
    r: PendingRuntimeModel,
    key: Seq<char>,
    sender_id: Seq<char>,
    generation: u64,
    other_key: Seq<char>,
    other_sender: Seq<char>,
)
    requires
        r.wf(),
    ensures
        ({
            let after = with_session(
                r.sessions,
                key,
                without_reply(pending_of(r.sessions, key), sender_id),
            );
            &&& !is_current(after, key, sender_id, generation)
            &&& other_key != key || other_sender != sender_id ==> pending_for(
                pending_of(after, other_key),
                other_sender,
            ) == pending_for(pending_of(r.sessions, other_key), other_sender)
        }),
{
    let list = pending_of(r.sessions, key);
    let out = without_reply(list, sender_id);
    lemma_session_senders(r, key);
    lemma_session_reads_back(r.sessions, key, out, other_key);
    lemma_without_reply(list, sender_id);
    lemma_pending_found(list, sender_id);
    lemma_pending_index(out, sender_id, out.len() as int);
    let k = pending_index(list, sender_id);
    if other_key == key && other_sender != sender_id && k < list.len() {
        lemma_pending_found(list, other_sender);
        let m = pending_index(list, other_sender);
        let n = if m < k {
            m
        } else {
            m - 1
        };
        assert forall|j: int| 0 <= j < n implies (#[trigger] out[j]).sender_id != other_sender by {
            assert(out[j] == list[if j < k {
                j
            } else {
                j + 1
            }]);
        }
        lemma_pending_index(out, other_sender, n);
    }
}

/// An answer that was put down is the current one, and the one before it is not any
/// more, unless their generations are one.
pub proof fn law_new_reply_supersedes(
    sessions: Seq<SessionModel>,
    key: Seq<char>,
    p: PendingReplyModel,
    older: u64,
)
    requires
        older != p.generation,
    ensures
        ({
            let after = with_session(sessions, key, with_reply(pending_of(sessions, key), p));
            &&& is_current(after, key, p.sender_id, p.generation)
            &&& !is_current(after, key, p.sender_id, older)
        }),
{
    lemma_session_found(sessions, key);
    let list = pending_of(sessions, key);
    lemma_pending_found(list, p.sender_id);
    let put = with_reply(list, p);
    let after = with_session(sessions, key, put);
    let i = session_index(sessions, key);
    assert forall|j: int| 0 <= j < i implies (#[trigger] after[j]).key != key by {
        assert(after[j] == sessions[j]);
    }
    lemma_session_index(after, key, i);
    let k = pending_index(list, p.sender_id);
    assert forall|j: int| 0 <= j < k implies (#[trigger] put[j]).sender_id != p.sender_id by {
        assert(put[j] == list[j]);
    }
    lemma_pending_index(put, p.sender_id, k);
}

fn find_reply(list: &Vec<PendingReply>, sender_id: &str) -> (r: usize)
    ensures
        r == pending_index(views(list@), sender_id@),
        r <= list.len(),
{
    let ghost all = views(list@);
    let mut i: usize = 0;
    while i < list.len() && !same(&list[i].sender_id, sender_id)
        invariant
            i <= list.len(),
            all == views(list@),
            forall|j: int| 0 <= j < i ==> (#[trigger] all[j]).sender_id != sender_id@,
        decreases list.len() - i,
    {
        assert(all[i as int] == list@[i as int]@);
        i += 1;
    }
    proof {
        if i < list.len() {
            assert(all[i as int] == list@[i as int]@);
        }
        lemma_pending_index(all, sender_id@, i as int);
    }
    i
}

impl PendingRuntime {
    /// Nothing under way.
    pub fn new() -> (r: PendingRuntime)
        ensures
            r@.next_generation == 0,
            r@.sessions == Seq::<SessionModel>::empty(),
            r@.wf(),
    {
        let r: PendingRuntime = PendingRuntime { next_generation: 0, sessions: Vec::new() };
        assert(r@.sessions =~= Seq::<SessionModel>::empty());
        r
    }

    fn find(&self, key: &str) -> (r: usize)
        ensures
            r == session_index(self@.sessions, key@),
            r <= self.sessions.len(),
    {
        let ghost all = self@.sessions;
        let mut i: usize = 0;
        while i < self.sessions.len() && !same(&self.sessions[i].key, key)
            invariant
                i <= self.sessions.len(),
                all == self@.sessions,
                forall|j: int| 0 <= j < i ==> (#[trigger] all[j]).key != key@,
            decreases self.sessions.len() - i,
        {
            assert(all[i as int] == self.sessions@[i as int]@);
            i += 1;
        }
        proof {
            if i < self.sessions.len() {
                assert(all[i as int] == self.sessions@[i as int]@);
            }
            lemma_session_index(all, key@, i as int);
        }
        i
    }

    fn replies(&self, key: &str) -> (r: Vec<PendingReply>)
        ensures
            views(r@) == pending_of(self@.sessions, key@),
    {
        let i: usize = self.find(key);
        if i < self.sessions.len() {
            assert(self@.sessions[i as int] == self.sessions@[i as int]@);
            PendingReply::copy_all(&self.sessions[i].pending)
        } else {
            let r: Vec<PendingReply> = Vec::new();
            assert(views(r@) =~= seq![]);
            r
        }
    }

    fn put(&mut self, key: &str, pending: Vec<PendingReply>)
        ensures
            final(self)@.sessions == with_session(old(self)@.sessions, key@, views(pending@)),
            final(self)@.next_generation == old(self)@.next_generation,
            old(self)@.wf() && distinct_senders(views(pending@)) ==> final(self)@.wf(),
    {
        proof {
            if old(self)@.wf() && distinct_senders(views(pending@)) {
                lemma_with_session(old(self)@, key@, views(pending@));
            }
        }
        let i: usize = self.find(key);
        let s: Session = Session { key: key.to_owned(), pending: pending };
        if i < self.sessions.len() {
            self.sessions.remove(i);
            self.sessions.insert(i, s);
        } else {
            self.sessions.push(s);
        }
        assert(self@.sessions =~= with_session(old(self)@.sessions, key@, views(pending@)));
    }

    /// A direct answer to a sender is certain: takes the answer under way to them
    /// out. What it had taken up is handed on where overtaking is switched on and
    /// it started no longer than `window` ago.
    pub fn commit_direct_reply(
        &mut self,
        key: &str,
        sender_id: &str,
        now: u64,
        supersede: bool,
        window: u64,
    ) -> (r: (Vec<Reaction>, Vec<ActiveReplyTarget>))
        ensures
            ({
                let list = pending_of(old(self)@.sessions, key@);
                let there = pending_for(list, sender_id@);
                let handed = match there {
                    Some(p) => supersede && (now < p.started || now - p.started <= window),
                    None => false,
                };
                &&& views(r.0@) == (if handed {
                    there->0.reactions
                } else {
                    seq![]
                })
                &&& views(r.1@) == (if handed {
                    there->0.targets
                } else {
                    seq![]
                })
                &&& final(self)@.sessions == with_session(
                    old(self)@.sessions,
                    key@,
                    without_reply(list, sender_id@),
                )
                &&& final(self)@.next_generation == old(self)@.next_generation
            }),
            old(self)@.wf() ==> final(self)@.wf(),
            handed_over(
                pending_for(pending_of(old(self)@.sessions, key@), sender_id@),
                now,
                supersede,
                window,
            ) == (views(r.0@), views(r.1@)),
    {
        let mut list: Vec<PendingReply> = self.replies(key);
        let ghost before = views(list@);
        let i: usize = find_reply(&list, sender_id);
        proof {
            if old(self)@.wf() {
                lemma_session_senders(old(self)@, key@);
                lemma_without_reply(before, sender_id@);
            }
        }
        let mut reactions: Vec<Reaction> = Vec::new();
        let mut targets: Vec<ActiveReplyTarget> = Vec::new();
        assert(views(reactions@) =~= seq![]);
        assert(views(targets@) =~= seq![]);
        if i < list.len() {
            let p: PendingReply = list.remove(i);
            assert(p@ == before[i as int]);
            assert(views(list@) =~= before.remove(i as int));
            if supersede && (now < p.started || now - p.started <= window) {
                reactions = p.reactions;
                targets = p.targets;
            }
        }
        self.put(key, list);
        (reactions, targets)
    }

    /// Puts down an answer that is certain to be sent, in place of one to the same
    /// sender; its generation.
    pub fn register_committed_pending(
        &mut self,
        key: &str,
        sender_id: &str,
        trigger: TriggerKind,
        reactions: Vec<Reaction>,
        targets: Vec<ActiveReplyTarget>,
        now: u64,
    ) -> (r: u64)
        ensures
            r == next_generation(old(self)@.next_generation),
            r > 0,
            final(self)@.next_generation == r,
            final(self)@.sessions == with_session(
                old(self)@.sessions,
                key@,
                with_reply(
                    pending_of(old(self)@.sessions, key@),
                    PendingReplyModel {
                        sender_id: sender_id@,
                        generation: r,
                        started: now,
                        trigger: trigger,
                        committed: true,
                        reactions: views(reactions@),
                        targets: views(targets@),
                        cancelled: false,
                    },
                ),
            ),
            old(self)@.wf() ==> final(self)@.wf(),
    {
        let generation: u64 = if self.next_generation == u64::MAX {
            1
        } else {
            self.next_generation + 1
        };
        self.next_generation = generation;
        let p: PendingReply = PendingReply {
            sender_id: sender_id.to_owned(),
            generation: generation,
            started: now,
            trigger: trigger,
            committed: true,
            reactions: reactions,
            targets: targets,
            cancelled: false,
        };
        let mut list: Vec<PendingReply> = self.replies(key);
        let ghost before = views(list@);
        let i: usize = find_reply(&list, sender_id);
        proof {
            if old(self)@.wf() {
                lemma_session_senders(old(self)@, key@);
                lemma_with_reply(before, p@);
            }
        }
        if i < list.len() {
            list.remove(i);
            list.insert(i, p);
            assert(views(list@) =~= before.update(i as int, p@));
        } else {
            list.push(p);
            assert(views(list@) =~= before.push(p@));
        }
        self.put(key, list);
        generation
    }

    /// Whether the answer to a sender is the one of a generation.
    pub fn is_current_pending(&self, key: &str, sender_id: &str, generation: u64) -> (r: bool)
        ensures
            r == is_current(self@.sessions, key@, sender_id@, generation),
    {
        let list: Vec<PendingReply> = self.replies(key);
        let i: usize = find_reply(&list, sender_id);
        if i < list.len() {
            assert(views(list@)[i as int] == list@[i as int]@);
            list[i].generation == generation
        } else {
            false
        }
    }

    /// Takes the answer to a sender out, if it is the one of a generation; whether
    /// it was.
    pub fn drop_pending(&mut self, key: &str, sender_id: &str, generation: u64) -> (r: bool)
        ensures
            r == is_current(old(self)@.sessions, key@, sender_id@, generation),
            !r ==> *final(self) == *old(self),
            r ==> final(self)@.sessions == with_session(
                old(self)@.sessions,
                key@,
                without_reply(pending_of(old(self)@.sessions, key@), sender_id@),
            ) && final(self)@.next_generation == old(self)@.next_generation,
            old(self)@.wf() ==> final(self)@.wf(),
    {
        let mut list: Vec<PendingReply> = self.replies(key);
        let ghost before = views(list@);
        let i: usize = find_reply(&list, sender_id);
        proof {
            if old(self)@.wf() {
                lemma_session_senders(old(self)@, key@);
                lemma_without_reply(before, sender_id@);
            }
        }
        if i < list.len() {
            assert(before[i as int] == list@[i as int]@);
            if list[i].generation == generation {
                list.remove(i);
                assert(views(list@) =~= before.remove(i as int));
                self.put(key, list);
                return true;
            }
        }
        false
    }

    /// An attempt failed: takes its answer out if it is still the current one;
    /// whether the core's own decision is to stand instead.
    pub fn fail_current_attempt(
        &mut self,
        key: &str,
        sender_id: &str,
        generation: u64,
        has_fallback: bool,
    ) -> (r: bool)
        ensures
            r == (is_current(old(self)@.sessions, key@, sender_id@, generation) && has_fallback),
            !is_current(old(self)@.sessions, key@, sender_id@, generation) ==> *final(self) == *old(self),
            is_current(old(self)@.sessions, key@, sender_id@, generation)
                ==> final(self)@.sessions == with_session(
                old(self)@.sessions,
                key@,
                without_reply(pending_of(old(self)@.sessions, key@), sender_id@),
            ) && final(self)@.next_generation == old(self)@.next_generation,
            old(self)@.wf() ==> final(self)@.wf(),
    {
        let was_current: bool = self.drop_pending(key, sender_id, generation);
        was_current && has_fallback
    }

    /// Takes the answer to a sender out, if it was cancelled; the reactions to be
    /// taken off again.
    pub fn clear_cancelled_pending(&mut self, key: &str, sender_id: &str) -> (r: Vec<Reaction>)
        ensures
            ({
                let list = pending_of(old(self)@.sessions, key@);
                match pending_for(list, sender_id@) {
                    Some(p) => if p.cancelled {
                        &&& views(r@) == p.reactions
                        &&& final(self)@.sessions == with_session(
                            old(self)@.sessions,
                            key@,
                            without_reply(list, sender_id@),
                        )
                        &&& final(self)@.next_generation == old(self)@.next_generation
                    } else {
                        r.len() == 0 && *final(self) == *old(self)
                    },
                    None => r.len() == 0 && *final(self) == *old(self),
                }
            }),
            old(self)@.wf() ==> final(self)@.wf(),
            views(r@) == taken_back(pending_for(pending_of(old(self)@.sessions, key@), sender_id@)),
    {
        let mut list: Vec<PendingReply> = self.replies(key);
        let ghost before = views(list@);
        let i: usize = find_reply(&list, sender_id);
        proof {
            if old(self)@.wf() {
                lemma_session_senders(old(self)@, key@);
                lemma_without_reply(before, sender_id@);
            }
        }
        if i < list.len() {
            assert(before[i as int] == list@[i as int]@);
            if list[i].cancelled {
                let p: PendingReply = list.remove(i);
                assert(views(list@) =~= before.remove(i as int));
                self.put(key, list);
                return p.reactions;
            }
        }
        Vec::new()
    }
}

/// The reactions that are put on a message: each of the configured ones, where
/// reactions are switched on and the message has an id.
pub open spec fn planned_reactions(
    enabled: bool,
    message_id: Seq<char>,
    reaction_ids: Seq<Seq<char>>,
) -> Seq<ReactionModel> {
    if enabled && message_id.len() > 0 {
        reaction_ids.map_values(
            |id: Seq<char>| ReactionModel { message_id: message_id, reaction_id: id },
        )
    } else {
        seq![]
    }
}

/// The reactions that are put on a message.
pub fn add_reactions(enabled: bool, message_id: &str, reaction_ids: &Vec<String>) -> (r: Vec<
    Reaction,
>)
    ensures
        views(r@) == planned_reactions(enabled, message_id@, texts(reaction_ids@)),
{
    let mut out: Vec<Reaction> = Vec::new();
    if !enabled || is_empty_text(message_id) {
        assert(views(out@) =~= seq![]);
        return out;
    }
    let ghost goal = planned_reactions(true, message_id@, texts(reaction_ids@));
    let mut i: usize = 0;
    while i < reaction_ids.len()
        invariant
            i <= reaction_ids.len(),
            goal.len() == reaction_ids.len(),
            forall|j: int|
                0 <= j < goal.len() ==> #[trigger] goal[j] == (ReactionModel {
                    message_id: message_id@,
                    reaction_id: reaction_ids@[j]@,
                }),
            views(out@) =~= goal.take(i as int),
        decreases reaction_ids.len() - i,
    {
        let ghost before = views(out@);
        let one: Reaction = Reaction {
            message_id: message_id.to_owned(),
            reaction_id: reaction_ids[i].clone(),
        };
        out.push(one);
        assert(views(out@) =~= before.push(one@));
        assert(goal[i as int] == one@);
        i += 1;
    }
    assert(views(out@) =~= goal);
    out
}

/// The reactions that are on the message in the end.
pub open spec fn accepted_of(planned: Seq<ReactionModel>, accepted: Seq<bool>) -> Seq<ReactionModel>
    decreases planned.len(),
{
    if planned.len() == 0 {
        seq![]
    } else {
        let n = planned.len() - 1;
        let before = accepted_of(planned.drop_last(), accepted);
        if n < accepted.len() && accepted[n] {
            before.push(planned.last())
        } else {
            before
        }
    }
}

/// The reactions that are on the message in the end: of those that were to be put on
/// it, the ones that were accepted.
pub fn accepted_reactions(planned: &Vec<Reaction>, accepted: &Vec<bool>) -> (r: Vec<Reaction>)
    ensures
        views(r@) == accepted_of(views(planned@), accepted@),
{
    let ghost all = views(planned@);
    let mut out: Vec<Reaction> = Vec::new();
    let mut i: usize = 0;
    assert(all.take(0) =~= seq![]);
    assert(views(out@) =~= seq![]);
    while i < planned.len()
        invariant
            i <= planned.len(),
            all == views(planned@),
            views(out@) == accepted_of(all.take(i as int), accepted@),
        decreases planned.len() - i,
    {
        assert(all.take(i + 1).drop_last() =~= all.take(i as int));
        assert(all[i as int] == planned@[i as int]@);
        if i < accepted.len() && accepted[i] {
            let one: Reaction = Reaction {
                message_id: planned[i].message_id.clone(),
                reaction_id: planned[i].reaction_id.clone(),
            };
            let ghost before = views(out@);
            out.push(one);
            assert(views(out@) =~= before.push(one@));
        }
        i += 1;
    }
    assert(all.take(planned.len() as int) =~= all);
    out
}

// ---------------------------------------------------------------------------
// What is answered

/// Only messages of the one who is answered are answered, and all of these are.
pub proof fn law_targets_are_of_the_sender(
    list: Seq<ActiveReplyTargetModel>,
    sender_id: Seq<char>,
    t: ActiveReplyTargetModel,
)
    ensures
        of_sender(list, sender_id).contains(t) <==> list.contains(t) && t.sender_id == sender_id,
        (forall|i: int| 0 <= i < list.len() ==> (#[trigger] list[i]).sender_id == sender_id)
            ==> of_sender(list, sender_id) == list,
    decreases list.len(),
{
    if list.len() > 0 {
        let short = list.drop_last();
        let before = of_sender(short, sender_id);
        law_targets_are_of_the_sender(short, sender_id, t);
        assert(list =~= short.push(list.last()));
        lemma_target_pushed(short, list.last(), t);
        lemma_target_pushed(before, list.last(), t);
        if (forall|i: int| 0 <= i < list.len() ==> (#[trigger] list[i]).sender_id == sender_id) {
            assert(list[list.len() - 1].sender_id == sender_id);
            assert forall|i: int| 0 <= i < short.len() implies (#[trigger] short[i]).sender_id
                == sender_id by {
                assert(list[i].sender_id == sender_id);
            }
            assert(of_sender(list, sender_id) =~= list);
        }
    } else {
        assert(list =~= seq![]);
    }
}

proof fn lemma_target_pushed(
    s: Seq<ActiveReplyTargetModel>,
    x: ActiveReplyTargetModel,
    e: ActiveReplyTargetModel,
)
    ensures
        s.push(x).contains(e) <==> s.contains(e) || e == x,
{
    let t = s.push(x);
    assert(t[s.len() as int] == x);
    if s.contains(e) {
        let i = choose|i: int| 0 <= i < s.len() && s[i] == e;
        assert(t[i] == e);
    }
    if t.contains(e) && e != x {
        let i = choose|i: int| 0 <= i < t.len() && t[i] == e;
        assert(s[i] == e);
    }
}

/// Messages that are few enough are all answered, in their order; of more than that it is
/// the newest ones, the very last among them.
pub proof fn law_the_newest_messages_are_answered(list: Seq<ActiveReplyTargetModel>)
    ensures
        count_kind(list, false) <= MAX_ACTIVE_TARGET_MESSAGES && count_kind(list, true)
            <= MAX_ACTIVE_TARGET_SUPPLEMENTS ==> newest_targets(list) == list,
        list.len() <= MAX_ACTIVE_TARGET_SUPPLEMENTS ==> newest_targets(list) == list,
        list.len() > 0 ==> newest_targets(list).len() > 0 && newest_targets(list).last()
            == list.last(),
        newest_targets(list).len() <= MAX_ACTIVE_TARGET_MESSAGES + MAX_ACTIVE_TARGET_SUPPLEMENTS,
        newest_targets(list).len() <= list.len(),
    decreases list.len(),
{
    lemma_kinds_fill(list);
    lemma_kinds_fill(newest_targets(list));
    law_targets_are_bounded(list, true);
    law_targets_are_bounded(list, false);
    if list.len() > 0 {
        let rest = list.drop_first();
        law_the_newest_messages_are_answered(rest);
        lemma_kinds_fill(rest);
        if rest.len() == 0 {
            assert(count_kind(rest, list[0].supplemental) == 0);
            assert(newest_targets(rest) =~= seq![]);
            assert(newest_targets(list) =~= seq![list[0]]);
        } else {
            assert(rest.last() == list.last());
        }
        if newest_targets(rest) == rest && count_kind(rest, list[0].supplemental) < kind_limit(
            list[0].supplemental,
        ) {
            assert(newest_targets(list) =~= list);
        }
    } else {
        assert(newest_targets(list) =~= list);
    }
}

proof fn lemma_kinds_fill(list: Seq<ActiveReplyTargetModel>)
    ensures
        count_kind(list, true) + count_kind(list, false) == list.len(),
    decreases list.len(),
{
    if list.len() > 0 {
        lemma_kinds_fill(list.drop_first());
    }
}

/// Every answer that is begun has a number of its own, which no answer before it had.
pub proof fn law_answers_have_their_own_number(g: u64)
    ensures
        next_generation(g) != g,
        next_generation(g) > 0,
        g < u64::MAX ==> next_generation(g) == g + 1,
{
}

/// Each reaction that is set up is set on the message that is answered, in its order, and
/// none is where reactions are off.
pub proof fn law_reactions_are_set(enabled: bool, message_id: Seq<char>, ids: Seq<Seq<char>>)
    ensures
        ({
            let r = planned_reactions(enabled, message_id, ids);
            &&& enabled && message_id.len() > 0 ==> r.len() == ids.len()
            &&& !enabled || message_id.len() == 0 ==> r.len() == 0
            &&& forall|i: int|
                0 <= i < r.len() ==> (#[trigger] r[i]).message_id == message_id && r[i].reaction_id
                    == ids[i]
        }),
{
}

/// The reactions that the platform took are kept, and only those.
pub proof fn law_reactions_that_were_taken(
    planned: Seq<ReactionModel>,
    accepted: Seq<bool>,
    t: ReactionModel,
)
    requires
        accepted.len() >= planned.len(),
    ensures
        accepted_of(planned, accepted).contains(t) <==> exists|i: int|
            0 <= i < planned.len() && #[trigger] planned[i] == t && accepted[i],
        (forall|i: int| 0 <= i < planned.len() ==> #[trigger] accepted[i]) ==> accepted_of(
            planned,
            accepted,
        ) == planned,
        accepted_of(planned, accepted).len() <= planned.len(),
    decreases planned.len(),
{
    let after = accepted_of(planned, accepted);
    if planned.len() > 0 {
        let n = planned.len() - 1;
        let short = planned.drop_last();
        let before = accepted_of(short, accepted);
        law_reactions_that_were_taken(short, accepted, t);
        assert(planned[n] == planned.last());
        if after.contains(t) {
            let k = choose|k: int| 0 <= k < after.len() && after[k] == t;
            if k < before.len() {
                assert(before[k] == t);
                assert(before.contains(t));
                let i = choose|i: int| 0 <= i < short.len() && #[trigger] short[i] == t && accepted[i];
                assert(planned[i] == t);
            }
        }
        if exists|i: int| 0 <= i < planned.len() && #[trigger] planned[i] == t && accepted[i] {
            let i = choose|i: int| 0 <= i < planned.len() && #[trigger] planned[i] == t && accepted[i];
            if i < n {
                assert(short[i] == t);
                assert(before.contains(t));
                let k = choose|k: int| 0 <= k < before.len() && before[k] == t;
                assert(after[k] == t);
            } else {
                assert(after[before.len() as int] == t);
            }
        }
        if (forall|i: int| 0 <= i < planned.len() ==> #[trigger] accepted[i]) {
            assert(accepted[n]);
            assert(after =~= planned);
        }
    } else {
        assert(after =~= planned);
    }
}

/// What an answer takes over from the one that it replaces: its reactions and what it
/// answers.
pub open spec fn handed_over(
    there: Option<PendingReplyModel>,
    now: u64,
    supersede: bool,
    window: u64,
) -> (Seq<ReactionModel>, Seq<ActiveReplyTargetModel>) {
    match there {
        Some(p) => if supersede && (now < p.started || now - p.started <= window) {
            (p.reactions, p.targets)
        } else {
            (seq![], seq![])
        },
        None => (seq![], seq![]),
    }
}

/// The reactions that are taken back when an answer was cancelled.
pub open spec fn taken_back(there: Option<PendingReplyModel>) -> Seq<ReactionModel> {
    match there {
        Some(p) => if p.cancelled {
            p.reactions
        } else {
            seq![]
        },
        None => seq![],
    }
}

/// An answer takes over from one that began lately, where it may, all of that and nothing of
/// an older one; and of a cancelled answer the reactions are taken back.
pub proof fn law_what_is_taken_over(p: PendingReplyModel, now: u64, supersede: bool, window: u64)
    requires
        p.started <= now,
    ensures
        supersede && now - p.started <= window ==> handed_over(Some(p), now, supersede, window).0
            == p.reactions && handed_over(Some(p), now, supersede, window).1 == p.targets,
        !supersede || now - p.started > window ==> handed_over(
            Some(p),
            now,
            supersede,
            window,
        ).0.len() == 0 && handed_over(Some(p), now, supersede, window).1.len() == 0,
        handed_over(None, now, supersede, window).1.len() == 0,
        p.cancelled ==> taken_back(Some(p)) == p.reactions,
        !p.cancelled ==> taken_back(Some(p)).len() == 0,
        taken_back(None).len() == 0,
{
}

} // verus!
