//! The memory of withdrawn messages: per conversation, what the assistant sent,
//! what was withdrawn lately, and which turns are under way.

use crate::order::last_of;
use crate::text::{copy_texts, is_empty_text, same, texts, views};
use vstd::prelude::*;
use vstd::string::*;

verus! {

/// How many conversations are remembered.
pub const MAX_SCOPES: usize = 512;

/// A message that was withdrawn.
pub struct Recalled {
    pub message_id: String,
    /// When, in milliseconds.
    pub at: u64,
}

/// What a [`Recalled`] holds, as values.
#[verifier::ext_equal]
pub struct RecalledModel {
    pub message_id: Seq<char>,
    pub at: u64,
}

impl View for Recalled {
    type V = RecalledModel;

    open spec fn view(&self) -> RecalledModel {
        RecalledModel {
            message_id: self.message_id@,
            at: self.at,
        }
    }
}

impl Recalled {
    /// A value that holds the same.
    pub fn copy(&self) -> (r: Recalled)
        ensures
            r@ == self@,
    {
        Recalled {
            message_id: self.message_id.clone(),
            at: self.at,
        }
    }

    /// A list that holds the same values.
    pub fn copy_all(v: &Vec<Recalled>) -> (r: Vec<Recalled>)
        ensures
            views(r@) == views(v@),
            r.len() == v.len(),
    {
        let mut out: Vec<Recalled> = Vec::new();
        let mut i: usize = 0;
        while i < v.len()
            invariant
                i <= v.len(),
                out.len() == i,
                forall|j: int| 0 <= j < i ==> (#[trigger] out@[j])@ == v@[j]@,
            decreases v.len() - i,
        {
            out.push(v[i].copy());
            i += 1;
        }
        assert(views(out@) =~= views(v@));
        out
    }
}


/// A turn under way.
pub struct PendingTurn {
    /// The message that it answers.
    pub message_id: String,
    /// By which the turn can be cancelled.
    pub handle: u64,
}

/// What a [`PendingTurn`] holds, as values.
#[verifier::ext_equal]
pub struct PendingTurnModel {
    pub message_id: Seq<char>,
    pub handle: u64,
}

impl View for PendingTurn {
    type V = PendingTurnModel;

    open spec fn view(&self) -> PendingTurnModel {
        PendingTurnModel {
            message_id: self.message_id@,
            handle: self.handle,
        }
    }
}

impl PendingTurn {
    /// A value that holds the same.
    pub fn copy(&self) -> (r: PendingTurn)
        ensures
            r@ == self@,
    {
        PendingTurn {
            message_id: self.message_id.clone(),
            handle: self.handle,
        }
    }

    /// A list that holds the same values.
    pub fn copy_all(v: &Vec<PendingTurn>) -> (r: Vec<PendingTurn>)
        ensures
            views(r@) == views(v@),
            r.len() == v.len(),
    {
        let mut out: Vec<PendingTurn> = Vec::new();
        let mut i: usize = 0;
        while i < v.len()
            invariant
                i <= v.len(),
                out.len() == i,
                forall|j: int| 0 <= j < i ==> (#[trigger] out@[j])@ == v@[j]@,
            decreases v.len() - i,
        {
            out.push(v[i].copy());
            i += 1;
        }
        assert(views(out@) =~= views(v@));
        out
    }
}


/// What is remembered of one conversation.
pub struct ScopeState {
    pub key: String,
    /// The messages that the assistant sent, oldest first.
    pub sent: Vec<String>,
    pub recalled: Vec<Recalled>,
    pub pending: Vec<PendingTurn>,
    pub touched_at: Option<u64>,
}

/// What a [`ScopeState`] holds, as values.
#[verifier::ext_equal]
pub struct ScopeStateModel {
    pub key: Seq<char>,
    pub sent: Seq<Seq<char>>,
    pub recalled: Seq<RecalledModel>,
    pub pending: Seq<PendingTurnModel>,
    pub touched_at: Option<u64>,
}

impl View for ScopeState {
    type V = ScopeStateModel;

    open spec fn view(&self) -> ScopeStateModel {
        ScopeStateModel {
            key: self.key@,
            sent: texts(self.sent@),
            recalled: views(self.recalled@),
            pending: views(self.pending@),
            touched_at: self.touched_at,
        }
    }
}

impl ScopeState {
    /// A value that holds the same.
    pub fn copy(&self) -> (r: ScopeState)
        ensures
            r@ == self@,
    {
        ScopeState {
            key: self.key.clone(),
            sent: copy_texts(&self.sent),
            recalled: Recalled::copy_all(&self.recalled),
            pending: PendingTurn::copy_all(&self.pending),
            touched_at: self.touched_at,
        }
    }
}


/// What is remembered of all conversations.
pub struct RecallState {
    pub scopes: Vec<ScopeState>,
}

/// What a [`RecallState`] holds, as values.
#[verifier::ext_equal]
pub struct RecallStateModel {
    pub scopes: Seq<ScopeStateModel>,
}

impl View for RecallState {
    type V = RecallStateModel;

    open spec fn view(&self) -> RecallStateModel {
        RecallStateModel {
            scopes: views(self.scopes@),
        }
    }
}


/// The time from `at` to `now`, zero where `at` is later.
pub open spec fn elapsed(at: u64, now: u64) -> int {
    if now >= at {
        now - at
    } else {
        0
    }
}

/// The withdrawals that are younger than `ttl`.
pub open spec fn still_recalled(list: Seq<RecalledModel>, now: u64, ttl: u64) -> Seq<RecalledModel>
    decreases list.len(),
{
    if list.len() == 0 {
        seq![]
    } else {
        let before = still_recalled(list.drop_last(), now, ttl);
        if elapsed(list.last().at, now) < ttl {
            before.push(list.last())
        } else {
            before
        }
    }
}

/// Whether a conversation is still remembered.
pub open spec fn is_alive(s: ScopeStateModel, now: u64, ttl: u64) -> bool {
    s.pending.len() > 0 || match s.touched_at {
        Some(at) => elapsed(at, now) < ttl,
        None => false,
    }
}

/// The conversations still remembered, without what is too old in them.
pub open spec fn swept(list: Seq<ScopeStateModel>, now: u64, ttl: u64) -> Seq<ScopeStateModel>
    decreases list.len(),
{
    if list.len() == 0 {
        seq![]
    } else {
        let before = swept(list.drop_last(), now, ttl);
        let s = list.last();
        if is_alive(s, now, ttl) {
            before.push(
                ScopeStateModel { recalled: still_recalled(s.recalled, now, ttl), ..s },
            )
        } else {
            before
        }
    }
}

/// Whether `a` was touched before `b`; never touched comes first.
pub open spec fn touched_before(a: Option<u64>, b: Option<u64>) -> bool {
    match (a, b) {
        (None, Some(_)) => true,
        (Some(x), Some(y)) => x < y,
        _ => false,
    }
}

/// The conversation without a turn under way that was touched longest ago.
pub open spec fn oldest_idle(list: Seq<ScopeStateModel>) -> Option<int>
    decreases list.len(),
{
    if list.len() == 0 {
        None
    } else {
        let s = list.last();
        match oldest_idle(list.drop_last()) {
            None => if s.pending.len() == 0 {
                Some(list.len() - 1)
            } else {
                None
            },
            Some(m) => if s.pending.len() == 0 && touched_before(s.touched_at, list[m].touched_at) {
                Some(list.len() - 1)
            } else {
                Some(m)
            },
        }
    }
}

/// The conversations that stay when at most `max` may, except that one with a turn
/// under way is never given up.
pub open spec fn evicted(list: Seq<ScopeStateModel>, max: nat) -> Seq<ScopeStateModel>
    decreases list.len(),
{
    if list.len() <= max {
        list
    } else {
        match oldest_idle(list) {
            Some(i) => if 0 <= i < list.len() {
                evicted(list.remove(i), max)
            } else {
                list
            },
            None => list,
        }
    }
}

/// The memory without what is too old or too much.
pub open spec fn pruned(list: Seq<ScopeStateModel>, now: u64, ttl: u64) -> Seq<ScopeStateModel> {
    evicted(swept(list, now, ttl), MAX_SCOPES as nat)
}

proof fn lemma_oldest_idle(list: Seq<ScopeStateModel>)
    ensures
        match oldest_idle(list) {
            Some(i) => 0 <= i < list.len() && list[i].pending.len() == 0 && forall|j: int|
                0 <= j < list.len() && (#[trigger] list[j]).pending.len() == 0 ==> !touched_before(
                    list[j].touched_at,
                    list[i].touched_at,
                ),
            None => forall|j: int| 0 <= j < list.len() ==> (#[trigger] list[j]).pending.len() > 0,
        },
    decreases list.len(),
{
    if list.len() > 0 {
        let t = list.drop_last();
        lemma_oldest_idle(t);
        assert(forall|j: int| 0 <= j < t.len() ==> #[trigger] t[j] == list[j]);
        match oldest_idle(list) {
            Some(i) => {
                assert forall|j: int|
                    0 <= j < list.len() && (#[trigger] list[j]).pending.len()
                        == 0 implies !touched_before(list[j].touched_at, list[i].touched_at) by {
                    if j < t.len() {
                        assert(t[j] == list[j]);
                    }
                }
            }
            None => {
                assert forall|j: int| 0 <= j < list.len() implies (
                #[trigger] list[j]).pending.len() > 0 by {
                    if j < t.len() {
                        assert(t[j] == list[j]);
                    }
                }
            }
        }
    }
}

/// After pruning at most the limit is remembered, unless every conversation that
/// is remembered has a turn under way.
pub proof fn law_prune_is_bounded(list: Seq<ScopeStateModel>, max: nat)
    ensures
        evicted(list, max).len() <= max || forall|j: int|
            0 <= j < evicted(list, max).len() ==> (#[trigger] evicted(list, max)[j]).pending.len()
                > 0,
    decreases list.len(),
{
    lemma_oldest_idle(list);
    if list.len() > max {
        if let Some(i) = oldest_idle(list) {
            law_prune_is_bounded(list.remove(i), max);
        }
    }
}

/// Whether no two conversations have one key.
pub open spec fn distinct_keys(list: Seq<ScopeStateModel>) -> bool {
    forall|i: int, j: int|
        0 <= i < j < list.len() ==> (#[trigger] list[i]).key != (#[trigger] list[j]).key
}

proof fn lemma_swept_keys(list: Seq<ScopeStateModel>, now: u64, ttl: u64)
    ensures
        swept(list, now, ttl).len() <= list.len(),
        forall|i: int|
            0 <= i < swept(list, now, ttl).len() ==> exists|j: int|
                0 <= j < list.len() && (#[trigger] list[j]).key == (#[trigger] swept(
                    list,
                    now,
                    ttl,
                )[i]).key,
        distinct_keys(list) ==> distinct_keys(swept(list, now, ttl)),
    decreases list.len(),
{
    if list.len() > 0 {
        let t = list.drop_last();
        lemma_swept_keys(t, now, ttl);
        let s = swept(list, now, ttl);
        let b = swept(t, now, ttl);
        assert(forall|j: int| 0 <= j < t.len() ==> #[trigger] t[j] == list[j]);
        assert forall|i: int| 0 <= i < s.len() implies exists|j: int|
            0 <= j < list.len() && (#[trigger] list[j]).key == (#[trigger] s[i]).key by {
            if i < b.len() {
                assert(s[i] == b[i]);
                let j = choose|j: int| 0 <= j < t.len() && (#[trigger] t[j]).key == b[i].key;
                assert(list[j].key == s[i].key);
            } else {
                assert(list[list.len() - 1].key == s[i].key);
            }
        }
        if distinct_keys(list) {
            assert(distinct_keys(t)) by {
                assert forall|i: int, j: int| 0 <= i < j < t.len() implies (#[trigger] t[i]).key
                    != (#[trigger] t[j]).key by {
                    assert(list[i].key != list[j].key);
                }
            }
            assert forall|i: int, j: int| 0 <= i < j < s.len() implies (#[trigger] s[i]).key != (
            #[trigger] s[j]).key by {
                assert(s[i] == b[i]);
                if j < b.len() {
                    assert(s[j] == b[j]);
                } else {
                    let k = choose|k: int| 0 <= k < t.len() && (#[trigger] t[k]).key == b[i].key;
                    assert(list[k].key != list[list.len() - 1].key);
                }
            }
        }
    }
}

/// Pruning keeps the keys distinct.
pub proof fn law_prune_keeps_keys_distinct(list: Seq<ScopeStateModel>, now: u64, ttl: u64)
    requires
        distinct_keys(list),
    ensures
        distinct_keys(pruned(list, now, ttl)),
{
    lemma_swept_keys(list, now, ttl);
    lemma_evicted_keys(swept(list, now, ttl), MAX_SCOPES as nat);
}

proof fn lemma_evicted_keys(list: Seq<ScopeStateModel>, max: nat)
    requires
        distinct_keys(list),
    ensures
        distinct_keys(evicted(list, max)),
    decreases list.len(),
{
    if list.len() > max {
        if let Some(i) = oldest_idle(list) {
            if 0 <= i < list.len() {
                let t = list.remove(i);
                assert forall|a: int, b: int| 0 <= a < b < t.len() implies (#[trigger] t[a]).key
                    != (#[trigger] t[b]).key by {
                    let x = if a < i { a } else { a + 1 };
                    let y = if b < i { b } else { b + 1 };
                    assert(t[a] == list[x]);
                    assert(t[b] == list[y]);
                }
                lemma_evicted_keys(t, max);
            }
        }
    }
}

fn fresh(at: u64, now: u64, ttl: u64) -> (r: bool)
    ensures
        r == (elapsed(at, now) < ttl),
{
    let gone: u64 = if now >= at { now - at } else { 0 };
    gone < ttl
}

fn sweep(scopes: &Vec<ScopeState>, now: u64, ttl: u64) -> (r: Vec<ScopeState>)
    ensures
        views(r@) == swept(views(scopes@), now, ttl),
{
    let ghost all = views(scopes@);
    let mut out: Vec<ScopeState> = Vec::new();
    let mut i: usize = 0;
    assert(all.take(0) =~= seq![]);
    assert(views(out@) =~= seq![]);
    while i < scopes.len()
        invariant
            i <= scopes.len(),
            all == views(scopes@),
            views(out@) == swept(all.take(i as int), now, ttl),
        decreases scopes.len() - i,
    {
        assert(all.take(i + 1).drop_last() =~= all.take(i as int));
        assert(all[i as int] == scopes@[i as int]@);
        let s: &ScopeState = &scopes[i];
        let young: bool = match s.touched_at {
            Some(at) => fresh(at, now, ttl),
            None => false,
        };
        if young || s.pending.len() > 0 {
            let ghost list = views(s.recalled@);
            let mut kept: Vec<Recalled> = Vec::new();
            let mut k: usize = 0;
            assert(list.take(0) =~= seq![]);
            assert(views(kept@) =~= seq![]);
            while k < s.recalled.len()
                invariant
                    k <= s.recalled.len(),
                    list == views(s.recalled@),
                    views(kept@) == still_recalled(list.take(k as int), now, ttl),
                decreases s.recalled.len() - k,
            {
                assert(list.take(k + 1).drop_last() =~= list.take(k as int));
                assert(list[k as int] == s.recalled@[k as int]@);
                if fresh(s.recalled[k].at, now, ttl) {
                    let ghost before = views(kept@);
                    kept.push(s.recalled[k].copy());
                    assert(views(kept@) =~= before.push(list[k as int]));
                }
                k += 1;
            }
            assert(list.take(s.recalled.len() as int) =~= list);
            let copy: ScopeState = ScopeState {
                key: s.key.clone(),
                sent: copy_texts(&s.sent),
                recalled: kept,
                pending: PendingTurn::copy_all(&s.pending),
                touched_at: s.touched_at,
            };
            let ghost before = views(out@);
            out.push(copy);
            assert(views(out@) =~= before.push(copy@));
        }
        i += 1;
    }
    assert(all.take(scopes.len() as int) =~= all);
    out
}

fn find_oldest_idle(scopes: &Vec<ScopeState>) -> (r: Option<usize>)
    ensures
        match r {
            Some(i) => oldest_idle(views(scopes@)) == Some(i as int) && i < scopes.len(),
            None => oldest_idle(views(scopes@)) is None,
        },
{
    let ghost all = views(scopes@);
    let mut best: Option<usize> = None;
    let mut i: usize = 0;
    assert(all.take(0) =~= seq![]);
    while i < scopes.len()
        invariant
            i <= scopes.len(),
            all == views(scopes@),
            match best {
                Some(b) => oldest_idle(all.take(i as int)) == Some(b as int) && b < i,
                None => oldest_idle(all.take(i as int)) is None,
            },
        decreases scopes.len() - i,
    {
        assert(all.take(i + 1).drop_last() =~= all.take(i as int));
        assert(all[i as int] == scopes@[i as int]@);
        if scopes[i].pending.len() == 0 {
            match best {
                None => {
                    best = Some(i);
                }
                Some(b) => {
                    assert(all[b as int] == scopes@[b as int]@);
                    assert(all.take(i + 1)[b as int] == all[b as int]);
                    let earlier: bool = match (scopes[i].touched_at, scopes[b].touched_at) {
                        (None, Some(_)) => true,
                        (Some(x), Some(y)) => x < y,
                        _ => false,
                    };
                    if earlier {
                        best = Some(i);
                    }
                }
            }
        }
        i += 1;
    }
    assert(all.take(scopes.len() as int) =~= all);
    best
}

/// Where the conversation `key` stands; past the end if nowhere.
pub open spec fn scope_index(list: Seq<ScopeStateModel>, key: Seq<char>) -> int
    decreases list.len(),
{
    if list.len() == 0 || list[0].key == key {
        0
    } else {
        1 + scope_index(list.drop_first(), key)
    }
}

/// A conversation of which nothing is remembered yet.
pub open spec fn empty_scope(key: Seq<char>) -> ScopeStateModel {
    ScopeStateModel { key: key, sent: seq![], recalled: seq![], pending: seq![], touched_at: None }
}

/// The memory of the conversation `key`.
pub open spec fn scope_at(list: Seq<ScopeStateModel>, key: Seq<char>) -> ScopeStateModel {
    let i = scope_index(list, key);
    if i < list.len() {
        list[i]
    } else {
        empty_scope(key)
    }
}

/// The memory with that of the conversation `key` replaced.
pub open spec fn with_scope(
    list: Seq<ScopeStateModel>,
    key: Seq<char>,
    s: ScopeStateModel,
) -> Seq<ScopeStateModel> {
    let i = scope_index(list, key);
    if i < list.len() {
        list.update(i, s)
    } else {
        list.push(s)
    }
}

proof fn lemma_scope_index(list: Seq<ScopeStateModel>, key: Seq<char>, k: int)
    requires
        0 <= k <= list.len(),
        forall|j: int| 0 <= j < k ==> (#[trigger] list[j]).key != key,
        k == list.len() || list[k].key == key,
    ensures
        scope_index(list, key) == k,
    decreases list.len(),
{
    if k > 0 {
        assert(list[0].key != key);
        let t = list.drop_first();
        assert forall|j: int| 0 <= j < k - 1 implies (#[trigger] t[j]).key != key by {
            assert(t[j] == list[j + 1]);
        }
        lemma_scope_index(t, key, k - 1);
    }
}

proof fn lemma_scope_index_found(list: Seq<ScopeStateModel>, key: Seq<char>)
    ensures
        0 <= scope_index(list, key) <= list.len(),
        scope_index(list, key) < list.len() ==> list[scope_index(list, key)].key == key,
        forall|j: int| 0 <= j < scope_index(list, key) ==> (#[trigger] list[j]).key != key,
    decreases list.len(),
{
    if list.len() > 0 && list[0].key != key {
        let t = list.drop_first();
        lemma_scope_index_found(t, key);
        assert forall|j: int| 0 <= j < scope_index(list, key) implies (#[trigger] list[j]).key
            != key by {
            if j > 0 {
                assert(list[j] == t[j - 1]);
            }
        }
    }
}

/// What is written for a conversation is what is then remembered of it, and the
/// keys stay distinct.
pub proof fn law_scope_reads_back(
    list: Seq<ScopeStateModel>,
    key: Seq<char>,
    s: ScopeStateModel,
)
    requires
        s.key == key,
    ensures
        scope_at(with_scope(list, key, s), key) == s,
        distinct_keys(list) ==> distinct_keys(with_scope(list, key, s)),
{
    lemma_scope_index_found(list, key);
    let i = scope_index(list, key);
    let n = with_scope(list, key, s);
    assert forall|j: int| 0 <= j < i implies (#[trigger] n[j]).key != key by {
        assert(n[j] == list[j]);
    }
    lemma_scope_index(n, key, i);
    if distinct_keys(list) {
        assert forall|a: int, b: int| 0 <= a < b < n.len() implies (#[trigger] n[a]).key != (
        #[trigger] n[b]).key by {
            if a < list.len() && b < list.len() {
                assert(list[a].key != list[b].key);
            }
        }
    }
}

/// Whether a message is known to be withdrawn.
pub open spec fn is_recalled(list: Seq<RecalledModel>, id: Seq<char>) -> bool {
    exists|i: int| 0 <= i < list.len() && (#[trigger] list[i]).message_id == id
}

/// The withdrawals with `id` withdrawn at `now`.
pub open spec fn with_recalled(list: Seq<RecalledModel>, id: Seq<char>, now: u64) -> Seq<
    RecalledModel,
>
    decreases list.len(),
{
    let entry = RecalledModel { message_id: id, at: now };
    if list.len() == 0 {
        seq![entry]
    } else if list[0].message_id == id {
        seq![entry] + list.drop_first()
    } else {
        seq![list[0]] + with_recalled(list.drop_first(), id, now)
    }
}

/// The turns under way without those that answer `id`.
pub open spec fn without_pending(list: Seq<PendingTurnModel>, id: Seq<char>) -> Seq<
    PendingTurnModel,
>
    decreases list.len(),
{
    if list.len() == 0 {
        seq![]
    } else {
        let before = without_pending(list.drop_last(), id);
        if list.last().message_id != id {
            before.push(list.last())
        } else {
            before
        }
    }
}

/// The handle of the turn that answers `id`.
pub open spec fn pending_handle(list: Seq<PendingTurnModel>, id: Seq<char>) -> Option<u64>
    decreases list.len(),
{
    if list.len() == 0 {
        None
    } else if list.last().message_id == id {
        Some(list.last().handle)
    } else {
        pending_handle(list.drop_last(), id)
    }
}

/// The sent messages without `id`.
pub open spec fn without_sent(list: Seq<Seq<char>>, id: Seq<char>) -> Seq<Seq<char>>
    decreases list.len(),
{
    if list.len() == 0 {
        seq![]
    } else {
        let before = without_sent(list.drop_last(), id);
        if list.last() != id {
            before.push(list.last())
        } else {
            before
        }
    }
}

/// The sent messages with those of a receipt added, each standing where it was
/// sent last; an empty id is no message.
pub open spec fn with_sent(list: Seq<Seq<char>>, receipt: Seq<Seq<char>>) -> Seq<Seq<char>>
    decreases receipt.len(),
{
    if receipt.len() == 0 {
        list
    } else {
        let before = with_sent(list, receipt.drop_last());
        let id = receipt.last();
        if id.len() == 0 {
            before
        } else {
            without_sent(before, id).push(id)
        }
    }
}

/// The memory of a conversation when a turn that answers `id` starts, and whether
/// the turn is cancelled at once.
pub open spec fn scope_turn_started(
    s: ScopeStateModel,
    id: Seq<char>,
    handle: u64,
    now: u64,
) -> ScopeStateModel {
    if is_recalled(s.recalled, id) {
        ScopeStateModel { touched_at: Some(now), ..s }
    } else {
        ScopeStateModel {
            touched_at: Some(now),
            pending: without_pending(s.pending, id).push(
                PendingTurnModel { message_id: id, handle: handle },
            ),
            ..s
        }
    }
}

/// The memory of a conversation when `id` is withdrawn.
pub open spec fn scope_recalled(s: ScopeStateModel, id: Seq<char>, now: u64) -> ScopeStateModel {
    ScopeStateModel {
        touched_at: Some(now),
        recalled: with_recalled(s.recalled, id, now),
        sent: without_sent(s.sent, id),
        pending: without_pending(s.pending, id),
        ..s
    }
}

/// The memory of a conversation when messages were sent in answer to `inbound`.
pub open spec fn scope_sent(
    s: ScopeStateModel,
    inbound: Option<Seq<char>>,
    receipt: Seq<Seq<char>>,
    max: nat,
    now: u64,
) -> ScopeStateModel {
    ScopeStateModel {
        touched_at: Some(now),
        pending: match inbound {
            Some(id) => without_pending(s.pending, id),
            None => s.pending,
        },
        sent: last_of(with_sent(s.sent, receipt), max),
        ..s
    }
}

proof fn lemma_with_recalled(list: Seq<RecalledModel>, id: Seq<char>, now: u64)
    ensures
        is_recalled(with_recalled(list, id, now), id),
    decreases list.len(),
{
    let r = with_recalled(list, id, now);
    if list.len() == 0 || list[0].message_id == id {
        assert(r[0].message_id == id);
    } else {
        let t = list.drop_first();
        lemma_with_recalled(t, id, now);
        let i = choose|i: int|
            0 <= i < with_recalled(t, id, now).len() && (#[trigger] with_recalled(
                t,
                id,
                now,
            )[i]).message_id == id;
        assert(r[i + 1] == with_recalled(t, id, now)[i]);
    }
}

proof fn lemma_without_sent(list: Seq<Seq<char>>, id: Seq<char>)
    ensures
        !without_sent(list, id).contains(id),
    decreases list.len(),
{
    if list.len() > 0 {
        lemma_without_sent(list.drop_last(), id);
        let b = without_sent(list.drop_last(), id);
        let r = without_sent(list, id);
        assert forall|i: int| 0 <= i < r.len() implies r[i] != id by {
            if i < b.len() {
                assert(r[i] == b[i]);
                assert(b.contains(b[i]));
            }
        }
    }
}

proof fn lemma_without_pending(list: Seq<PendingTurnModel>, id: Seq<char>)
    ensures
        pending_handle(without_pending(list, id), id) is None,
    decreases list.len(),
{
    if list.len() > 0 {
        lemma_without_pending(list.drop_last(), id);
        let r = without_pending(list, id);
        if list.last().message_id != id {
            assert(r.drop_last() =~= without_pending(list.drop_last(), id));
        }
    }
}

/// A withdrawn message is known to be withdrawn, is no longer among those that
/// can be withdrawn, and no turn that answers it goes on; a turn that would answer
/// it later is cancelled at once.
pub proof fn law_recall_is_remembered(s: ScopeStateModel, id: Seq<char>, now: u64, handle: u64)
    ensures
        is_recalled(scope_recalled(s, id, now).recalled, id),
        !scope_recalled(s, id, now).sent.contains(id),
        pending_handle(scope_recalled(s, id, now).pending, id) is None,
        scope_turn_started(scope_recalled(s, id, now), id, handle, now).pending == scope_recalled(
            s,
            id,
            now,
        ).pending,
{
    lemma_with_recalled(s.recalled, id, now);
    lemma_without_sent(s.sent, id);
    lemma_without_pending(s.pending, id);
}

/// Withdrawals younger than the limit survive a sweep.
pub proof fn law_sweep_keeps_the_young(list: Seq<RecalledModel>, now: u64, ttl: u64, i: int)
    requires
        0 <= i < list.len(),
        elapsed(list[i].at, now) < ttl,
    ensures
        is_recalled(still_recalled(list, now, ttl), list[i].message_id),
    decreases list.len(),
{
    let t = list.drop_last();
    let r = still_recalled(list, now, ttl);
    if i == list.len() - 1 {
        assert(r[r.len() - 1].message_id == list[i].message_id);
    } else {
        law_sweep_keeps_the_young(t, now, ttl, i);
        let b = still_recalled(t, now, ttl);
        let k = choose|k: int| 0 <= k < b.len() && (#[trigger] b[k]).message_id == t[i].message_id;
        assert(r[k] == b[k]);
    }
}

/// Whether a conversation is one of a list, swept.
spec fn comes_from(list: Seq<ScopeStateModel>, s: ScopeStateModel, now: u64, ttl: u64) -> bool {
    exists|j: int|
        0 <= j < list.len() && (#[trigger] list[j]).key == s.key && s.recalled == still_recalled(
            list[j].recalled,
            now,
            ttl,
        )
}

proof fn lemma_swept_from(list: Seq<ScopeStateModel>, now: u64, ttl: u64)
    ensures
        forall|i: int|
            0 <= i < swept(list, now, ttl).len() ==> comes_from(
                list,
                #[trigger] swept(list, now, ttl)[i],
                now,
                ttl,
            ),
    decreases list.len(),
{
    if list.len() > 0 {
        let t = list.drop_last();
        lemma_swept_from(t, now, ttl);
        let r = swept(list, now, ttl);
        let b = swept(t, now, ttl);
        assert forall|i: int| 0 <= i < r.len() implies comes_from(list, #[trigger] r[i], now, ttl) by {
            if i < b.len() {
                assert(r[i] == b[i]);
                let j = choose|j: int|
                    0 <= j < t.len() && (#[trigger] t[j]).key == b[i].key && b[i].recalled
                        == still_recalled(t[j].recalled, now, ttl);
                assert(list[j] == t[j]);
            } else {
                assert(list[list.len() - 1].key == r[i].key);
            }
        }
    }
}

proof fn lemma_evicted_from(list: Seq<ScopeStateModel>, max: nat)
    ensures
        forall|i: int|
            0 <= i < evicted(list, max).len() ==> list.contains(#[trigger] evicted(list, max)[i]),
    decreases list.len(),
{
    if list.len() > max {
        if let Some(k) = oldest_idle(list) {
            if 0 <= k < list.len() {
                let t = list.remove(k);
                lemma_evicted_from(t, max);
                assert forall|i: int| 0 <= i < evicted(list, max).len() implies list.contains(
                    #[trigger] evicted(list, max)[i],
                ) by {
                    let x = evicted(list, max)[i];
                    assert(evicted(list, max) == evicted(t, max));
                    assert(t.contains(evicted(t, max)[i]));
                    let a = choose|a: int| 0 <= a < t.len() && t[a] == x;
                    assert(list[if a < k { a } else { a + 1 }] == x);
                }
            }
        }
    }
}

proof fn lemma_recalled_at(list: Seq<RecalledModel>, id: Seq<char>, now: u64) -> (i: int)
    ensures
        0 <= i < with_recalled(list, id, now).len(),
        with_recalled(list, id, now)[i] == (RecalledModel { message_id: id, at: now }),
    decreases list.len(),
{
    if list.len() == 0 || list[0].message_id == id {
        0
    } else {
        let t = list.drop_first();
        let i = lemma_recalled_at(t, id, now);
        assert(with_recalled(list, id, now)[i + 1] == with_recalled(t, id, now)[i]);
        i + 1
    }
}

/// A withdrawal that was seen is known for as long as withdrawals are, unless its whole
/// conversation had to be forgotten for want of room.
pub proof fn law_withdrawal_is_known(
    scopes: Seq<ScopeStateModel>,
    key: Seq<char>,
    id: Seq<char>,
    now: u64,
    later: u64,
    ttl: u64,
)
    requires
        distinct_keys(scopes),
        elapsed(now, later) < ttl,
        ({
            let kept = pruned(scopes, now, ttl);
            let after = with_scope(kept, key, scope_recalled(scope_at(kept, key), id, now));
            scope_index(pruned(after, later, ttl), key) < pruned(after, later, ttl).len()
        }),
    ensures
        ({
            let kept = pruned(scopes, now, ttl);
            let after = with_scope(kept, key, scope_recalled(scope_at(kept, key), id, now));
            is_recalled(scope_at(pruned(after, later, ttl), key).recalled, id)
        }),
{
    let kept = pruned(scopes, now, ttl);
    law_prune_keeps_keys_distinct(scopes, now, ttl);
    lemma_scope_index_found(kept, key);
    let old = scope_at(kept, key);
    let s = scope_recalled(old, id, now);
    let after = with_scope(kept, key, s);
    law_scope_reads_back(kept, key, s);
    lemma_scope_index_found(after, key);
    let last = pruned(after, later, ttl);
    let k = scope_index(last, key);
    lemma_scope_index_found(last, key);
    lemma_evicted_from(swept(after, later, ttl), MAX_SCOPES as nat);
    assert(swept(after, later, ttl).contains(last[k]));
    let m = choose|m: int|
        0 <= m < swept(after, later, ttl).len() && swept(after, later, ttl)[m] == last[k];
    lemma_swept_from(after, later, ttl);
    assert(comes_from(after, swept(after, later, ttl)[m], later, ttl));
    let j = choose|j: int|
        0 <= j < after.len() && (#[trigger] after[j]).key == last[k].key && last[k].recalled
            == still_recalled(after[j].recalled, later, ttl);
    let i = scope_index(after, key);
    if j < i {
        assert(after[j].key != key);
    } else if i < j {
        assert(after[i].key != after[j].key);
    }
    assert(after[j] == s);
    let at = lemma_recalled_at(old.recalled, id, now);
    law_sweep_keeps_the_young(s.recalled, later, ttl, at);
}

/// No more than `max` sent messages are remembered.
pub proof fn law_sent_is_bounded(
    s: ScopeStateModel,
    inbound: Option<Seq<char>>,
    receipt: Seq<Seq<char>>,
    max: nat,
    now: u64,
)
    ensures
        scope_sent(s, inbound, receipt, max, now).sent.len() <= max,
{
}

fn knows_recalled(list: &Vec<Recalled>, id: &str) -> (r: bool)
    ensures
        r == is_recalled(views(list@), id@),
{
    let ghost all = views(list@);
    let mut i: usize = 0;
    while i < list.len()
        invariant
            i <= list.len(),
            all == views(list@),
            forall|j: int| 0 <= j < i ==> (#[trigger] all[j]).message_id != id@,
        decreases list.len() - i,
    {
        assert(all[i as int] == list@[i as int]@);
        if same(&list[i].message_id, id) {
            return true;
        }
        i += 1;
    }
    false
}

fn note_recalled(list: &Vec<Recalled>, id: &str, now: u64) -> (r: Vec<Recalled>)
    ensures
        views(r@) == with_recalled(views(list@), id@, now),
{
    let ghost all = views(list@);
    let mut out: Vec<Recalled> = Vec::new();
    let mut i: usize = 0;
    assert(all.skip(0) =~= all);
    assert(views(out@) + with_recalled(all, id@, now) =~= with_recalled(all, id@, now));
    while i < list.len()
        invariant
            i <= list.len(),
            all == views(list@),
            views(out@) + with_recalled(all.skip(i as int), id@, now) == with_recalled(
                all,
                id@,
                now,
            ),
        decreases list.len() - i,
    {
        let ghost rest = all.skip(i as int);
        let ghost before = views(out@);
        assert(rest[0] == list@[i as int]@);
        assert(rest.drop_first() =~= all.skip(i + 1));
        if same(&list[i].message_id, id) {
            out.push(Recalled { message_id: id.to_owned(), at: now });
            let mut k: usize = i + 1;
            let ghost head = views(out@);
            assert(head =~= before.push(RecalledModel { message_id: id@, at: now }));
            while k < list.len()
                invariant
                    i < k <= list.len(),
                    all == views(list@),
                    views(out@) =~= head + all.subrange(i + 1, k as int),
                decreases list.len() - k,
            {
                let ghost b = views(out@);
                out.push(list[k].copy());
                assert(views(out@) =~= b.push(all[k as int]));
                k += 1;
            }
            assert(views(out@) =~= before + (seq![RecalledModel { message_id: id@, at: now }]
                + rest.drop_first()));
            return out;
        }
        out.push(list[i].copy());
        assert(views(out@) =~= before.push(rest[0]));
        assert(views(out@) + with_recalled(all.skip(i + 1), id@, now) =~= before + (seq![rest[0]]
            + with_recalled(rest.drop_first(), id@, now)));
        i += 1;
    }
    assert(all.skip(list.len() as int) =~= seq![]);
    let ghost before = views(out@);
    out.push(Recalled { message_id: id.to_owned(), at: now });
    assert(views(out@) =~= before + seq![RecalledModel { message_id: id@, at: now }]);
    out
}

fn drop_pending(list: &Vec<PendingTurn>, id: &str) -> (r: (Vec<PendingTurn>, Option<u64>))
    ensures
        views(r.0@) == without_pending(views(list@), id@),
        r.1 == pending_handle(views(list@), id@),
{
    let ghost all = views(list@);
    let mut out: Vec<PendingTurn> = Vec::new();
    let mut handle: Option<u64> = None;
    let mut i: usize = 0;
    assert(all.take(0) =~= seq![]);
    assert(views(out@) =~= seq![]);
    while i < list.len()
        invariant
            i <= list.len(),
            all == views(list@),
            views(out@) == without_pending(all.take(i as int), id@),
            handle == pending_handle(all.take(i as int), id@),
        decreases list.len() - i,
    {
        assert(all.take(i + 1).drop_last() =~= all.take(i as int));
        assert(all[i as int] == list@[i as int]@);
        if same(&list[i].message_id, id) {
            handle = Some(list[i].handle);
        } else {
            let ghost before = views(out@);
            out.push(list[i].copy());
            assert(views(out@) =~= before.push(all[i as int]));
        }
        i += 1;
    }
    assert(all.take(list.len() as int) =~= all);
    (out, handle)
}

fn drop_sent(list: &Vec<String>, id: &str) -> (r: Vec<String>)
    ensures
        texts(r@) == without_sent(texts(list@), id@),
{
    let ghost all = texts(list@);
    let mut out: Vec<String> = Vec::new();
    let mut i: usize = 0;
    assert(all.take(0) =~= seq![]);
    assert(texts(out@) =~= seq![]);
    while i < list.len()
        invariant
            i <= list.len(),
            all == texts(list@),
            texts(out@) == without_sent(all.take(i as int), id@),
        decreases list.len() - i,
    {
        assert(all.take(i + 1).drop_last() =~= all.take(i as int));
        assert(all[i as int] == list@[i as int]@);
        if !same(&list[i], id) {
            let ghost before = texts(out@);
            out.push(list[i].clone());
            assert(texts(out@) =~= before.push(all[i as int]));
        }
        i += 1;
    }
    assert(all.take(list.len() as int) =~= all);
    out
}

impl RecallState {
    /// A memory of nothing.
    pub fn new() -> (r: RecallState)
        ensures
            r@.scopes == Seq::<ScopeStateModel>::empty(),
            distinct_keys(r@.scopes),
    {
        let r: RecallState = RecallState { scopes: Vec::new() };
        assert(r@.scopes =~= Seq::<ScopeStateModel>::empty());
        r
    }

    fn find(&self, key: &str) -> (r: usize)
        ensures
            r == scope_index(self@.scopes, key@),
            r <= self.scopes.len(),
    {
        let ghost all = self@.scopes;
        let mut i: usize = 0;
        while i < self.scopes.len() && !same(&self.scopes[i].key, key)
            invariant
                i <= self.scopes.len(),
                all == self@.scopes,
                forall|j: int| 0 <= j < i ==> (#[trigger] all[j]).key != key@,
            decreases self.scopes.len() - i,
        {
            assert(all[i as int] == self.scopes@[i as int]@);
            i += 1;
        }
        proof {
            if i < self.scopes.len() {
                assert(all[i as int] == self.scopes@[i as int]@);
            }
            lemma_scope_index(all, key@, i as int);
        }
        i
    }

    /// Takes the memory of a conversation out, to be put back by [`Self::put`].
    fn scope(&self, key: &str) -> (r: ScopeState)
        ensures
            r@ == scope_at(self@.scopes, key@),
            r@.key == key@,
    {
        proof {
            lemma_scope_index_found(self@.scopes, key@);
        }
        let i: usize = self.find(key);
        if i < self.scopes.len() {
            assert(self@.scopes[i as int] == self.scopes@[i as int]@);
            self.scopes[i].copy()
        } else {
            let s: ScopeState = ScopeState {
                key: key.to_owned(),
                sent: Vec::new(),
                recalled: Vec::new(),
                pending: Vec::new(),
                touched_at: None,
            };
            assert(s@ =~= empty_scope(key@));
            s
        }
    }

    fn put(&mut self, key: &str, s: ScopeState)
        ensures
            final(self)@.scopes == with_scope(old(self)@.scopes, key@, s@),
            s@.key == key@ && distinct_keys(old(self)@.scopes) ==> distinct_keys(
                final(self)@.scopes,
            ),
    {
        proof {
            if s@.key == key@ {
                law_scope_reads_back(self@.scopes, key@, s@);
            }
        }
        let i: usize = self.find(key);
        if i < self.scopes.len() {
            self.scopes.remove(i);
            self.scopes.insert(i, s);
        } else {
            self.scopes.push(s);
        }
        assert(self@.scopes =~= with_scope(old(self)@.scopes, key@, s@));
    }

    /// Forgets what is older than `ttl`, and the conversations touched longest ago
    /// where there are too many.
    pub fn prune(&mut self, now: u64, ttl: u64)
        ensures
            final(self)@.scopes == pruned(old(self)@.scopes, now, ttl),
            distinct_keys(old(self)@.scopes) ==> distinct_keys(final(self)@.scopes),
    {
        proof {
            if distinct_keys(self@.scopes) {
                law_prune_keeps_keys_distinct(self@.scopes, now, ttl);
            }
        }
        let mut list: Vec<ScopeState> = sweep(&self.scopes, now, ttl);
        let ghost goal = pruned(self@.scopes, now, ttl);
        while list.len() > MAX_SCOPES
            invariant
                evicted(views(list@), MAX_SCOPES as nat) == goal,
            ensures
                views(list@) == goal,
            decreases list.len(),
        {
            match find_oldest_idle(&list) {
                None => {
                    break;
                }
                Some(i) => {
                    let ghost before = views(list@);
                    list.remove(i);
                    assert(views(list@) =~= before.remove(i as int));
                }
            }
        }
        self.scopes = list;
    }

    /// Whether a message is known to be withdrawn.
    pub fn recorded_recalled(&mut self, key: &str, id: &str, now: u64, ttl: u64) -> (r: bool)
        ensures
            final(self)@.scopes == pruned(old(self)@.scopes, now, ttl),
            r == is_recalled(
                scope_at(pruned(old(self)@.scopes, now, ttl), key@).recalled,
                id@,
            ),
            distinct_keys(old(self)@.scopes) ==> distinct_keys(final(self)@.scopes),
    {
        self.prune(now, ttl);
        let s: ScopeState = self.scope(key);
        knows_recalled(&s.recalled, id)
    }

    /// A turn that answers `id` starts; whether it is cancelled at once, the
    /// message being withdrawn already. An empty id is no message.
    pub fn turn_started(&mut self, key: &str, id: &str, handle: u64, now: u64, ttl: u64) -> (r: bool)
        ensures
            id@.len() == 0 ==> !r && *final(self) == *old(self),
            id@.len() > 0 ==> {
                let kept = pruned(old(self)@.scopes, now, ttl);
                let s = scope_at(kept, key@);
                &&& r == is_recalled(s.recalled, id@)
                &&& final(self)@.scopes == with_scope(
                    kept,
                    key@,
                    scope_turn_started(s, id@, handle, now),
                )
            },
            distinct_keys(old(self)@.scopes) ==> distinct_keys(final(self)@.scopes),
    {
        if is_empty_text(id) {
            return false;
        }
        self.prune(now, ttl);
        let s: ScopeState = self.scope(key);
        let ghost was = s@;
        let known: bool = knows_recalled(&s.recalled, id);
        let pending: Vec<PendingTurn> = if known {
            s.pending
        } else {
            let (mut rest, _): (Vec<PendingTurn>, Option<u64>) = drop_pending(&s.pending, id);
            let ghost before = views(rest@);
            rest.push(PendingTurn { message_id: id.to_owned(), handle: handle });
            assert(views(rest@) =~= before.push(
                PendingTurnModel { message_id: id@, handle: handle },
            ));
            rest
        };
        self.put(
            key,
            ScopeState {
                key: s.key,
                sent: s.sent,
                recalled: s.recalled,
                pending: pending,
                touched_at: Some(now),
            },
        );
        known
    }

    /// A message was withdrawn; the handle of the turn that answers it, which is
    /// to be cancelled. An empty id is no message.
    pub fn observe_recall(&mut self, key: &str, id: &str, now: u64, ttl: u64) -> (r: Option<u64>)
        ensures
            id@.len() == 0 ==> r is None && *final(self) == *old(self),
            id@.len() > 0 ==> {
                let kept = pruned(old(self)@.scopes, now, ttl);
                let s = scope_at(kept, key@);
                &&& r == pending_handle(s.pending, id@)
                &&& final(self)@.scopes == with_scope(kept, key@, scope_recalled(s, id@, now))
            },
            distinct_keys(old(self)@.scopes) ==> distinct_keys(final(self)@.scopes),
    {
        if is_empty_text(id) {
            return None;
        }
        self.prune(now, ttl);
        let s: ScopeState = self.scope(key);
        let (pending, handle): (Vec<PendingTurn>, Option<u64>) = drop_pending(&s.pending, id);
        let recalled: Vec<Recalled> = note_recalled(&s.recalled, id, now);
        let sent: Vec<String> = drop_sent(&s.sent, id);
        self.put(
            key,
            ScopeState {
                key: s.key,
                sent: sent,
                recalled: recalled,
                pending: pending,
                touched_at: Some(now),
            },
        );
        handle
    }

    /// Messages were sent in answer to `inbound`; at most `max` are remembered.
    pub fn after_send(
        &mut self,
        key: &str,
        inbound: &Option<String>,
        receipt: &Vec<String>,
        max: usize,
        now: u64,
    )
        ensures
            final(self)@.scopes == with_scope(
                old(self)@.scopes,
                key@,
                scope_sent(
                    scope_at(old(self)@.scopes, key@),
                    crate::text::opt_text(*inbound),
                    texts(receipt@),
                    max as nat,
                    now,
                ),
            ),
            distinct_keys(old(self)@.scopes) ==> distinct_keys(final(self)@.scopes),
    {
        let s: ScopeState = self.scope(key);
        let pending: Vec<PendingTurn> = match inbound {
            Some(id) => drop_pending(&s.pending, id).0,
            None => s.pending,
        };
        let ghost all = texts(receipt@);
        let ghost start = texts(s.sent@);
        let mut sent: Vec<String> = s.sent;
        let mut i: usize = 0;
        assert(all.take(0) =~= seq![]);
        while i < receipt.len()
            invariant
                i <= receipt.len(),
                all == texts(receipt@),
                texts(sent@) == with_sent(start, all.take(i as int)),
            decreases receipt.len() - i,
        {
            assert(all.take(i + 1).drop_last() =~= all.take(i as int));
            assert(all[i as int] == receipt@[i as int]@);
            if !is_empty_text(&receipt[i]) {
                sent = drop_sent(&sent, &receipt[i]);
                let ghost before = texts(sent@);
                sent.push(receipt[i].clone());
                assert(texts(sent@) =~= before.push(all[i as int]));
            }
            i += 1;
        }
        assert(all.take(receipt.len() as int) =~= all);
        let ghost full = texts(sent@);
        let len: usize = sent.len();
        if len > max {
            let tail: Vec<String> = sent.split_off(len - max);
            assert(texts(tail@) =~= last_of(full, max as nat));
            sent = tail;
        }
        assert(texts(sent@) == last_of(full, max as nat));
        self.put(
            key,
            ScopeState {
                key: s.key,
                sent: sent,
                recalled: s.recalled,
                pending: pending,
                touched_at: Some(now),
            },
        );
    }

    /// A turn that answers `id` was given up.
    pub fn after_turn_aborted(&mut self, key: &str, id: &str)
        ensures
            ({
                let list = old(self)@.scopes;
                let s = scope_at(list, key@);
                final(self)@.scopes == (if scope_index(list, key@) < list.len() {
                    with_scope(
                        list,
                        key@,
                        ScopeStateModel { pending: without_pending(s.pending, id@), ..s },
                    )
                } else {
                    list
                })
            }),
            distinct_keys(old(self)@.scopes) ==> distinct_keys(final(self)@.scopes),
    {
        let i: usize = self.find(key);
        if i < self.scopes.len() {
            let s: ScopeState = self.scope(key);
            let (pending, _): (Vec<PendingTurn>, Option<u64>) = drop_pending(&s.pending, id);
            self.put(key, ScopeState { pending: pending, ..s });
        }
    }

    /// A message of the assistant's own was withdrawn by it.
    pub fn forget_sent(&mut self, key: &str, id: &str)
        ensures
            ({
                let list = old(self)@.scopes;
                let s = scope_at(list, key@);
                final(self)@.scopes == (if scope_index(list, key@) < list.len() {
                    with_scope(
                        list,
                        key@,
                        ScopeStateModel { sent: without_sent(s.sent, id@), ..s },
                    )
                } else {
                    list
                })
            }),
            distinct_keys(old(self)@.scopes) ==> distinct_keys(final(self)@.scopes),
    {
        let i: usize = self.find(key);
        if i < self.scopes.len() {
            let s: ScopeState = self.scope(key);
            let sent: Vec<String> = drop_sent(&s.sent, id);
            self.put(key, ScopeState { sent: sent, ..s });
        }
    }
}

// ---------------------------------------------------------------------------
// What is remembered, and for how long

/// A withdrawal that is as old as may be or older is forgotten, and nothing else is.
pub proof fn law_old_withdrawals_are_forgotten(list: Seq<RecalledModel>, now: u64, ttl: u64)
    ensures
        forall|e: RecalledModel| #[trigger]
            still_recalled(list, now, ttl).contains(e) <==> list.contains(e) && (now < e.at || now
                - e.at < ttl) && ttl > 0,
    decreases list.len(),
{
    if list.len() > 0 {
        let short = list.drop_last();
        law_old_withdrawals_are_forgotten(short, now, ttl);
        let before = still_recalled(short, now, ttl);
        let after = still_recalled(list, now, ttl);
        assert forall|e: RecalledModel| #[trigger] after.contains(e) <==> list.contains(e) && (now
            < e.at || now - e.at < ttl) && ttl > 0 by {
            lemma_contains_push(short, list.last(), e);
            assert(list =~= short.push(list.last()));
            lemma_contains_push(before, list.last(), e);
            assert(before.contains(e) <==> short.contains(e) && (now < e.at || now - e.at < ttl)
                && ttl > 0);
        }
    }
}

proof fn lemma_contains_push<T>(s: Seq<T>, x: T, e: T)
    ensures
        s.push(x).contains(e) <==> s.contains(e) || e == x,
{
    let t = s.push(x);
    if s.contains(e) {
        let i = choose|i: int| 0 <= i < s.len() && s[i] == e;
        assert(t[i] == e);
    }
    assert(t[s.len() as int] == x);
    if t.contains(e) {
        let i = choose|i: int| 0 <= i < t.len() && t[i] == e;
        if i < s.len() {
            assert(s[i] == e);
        }
    }
}

/// A conversation in which a turn is under way is never forgotten, nor one that was used
/// lately; one that is neither is.
pub proof fn law_idle_conversations_are_forgotten(list: Seq<ScopeStateModel>, now: u64, ttl: u64, i: int)
    requires
        0 <= i < list.len(),
    ensures
        ({
            let s = list[i];
            let used = s.pending.len() > 0 || (s.touched_at is Some && ttl > 0 && (now
                < s.touched_at->0 || now - s.touched_at->0 < ttl));
            &&& used ==> exists|k: int|
                0 <= k < swept(list, now, ttl).len() && (#[trigger] swept(list, now, ttl)[k]).key
                    == s.key && swept(list, now, ttl)[k].sent == s.sent && swept(
                    list,
                    now,
                    ttl,
                )[k].pending == s.pending
            &&& !used && distinct_keys(list) ==> forall|k: int|
                0 <= k < swept(list, now, ttl).len() ==> (#[trigger] swept(list, now, ttl)[k]).key
                    != s.key
        }),
    decreases list.len(),
{
    let short = list.drop_last();
    let after = swept(list, now, ttl);
    let before = swept(short, now, ttl);
    let s = list[i];
    lemma_swept_were_there(short, now, ttl);
    if i < short.len() {
        law_idle_conversations_are_forgotten(short, now, ttl, i);
        assert(short[i] == s);
        if is_alive(s, now, ttl) {
            let k = choose|k: int|
                0 <= k < before.len() && (#[trigger] before[k]).key == s.key && before[k].sent
                    == s.sent && before[k].pending == s.pending;
            assert(after[k] == before[k]);
        } else if distinct_keys(list) {
            assert(distinct_keys(short)) by {
                assert forall|a: int, b: int| 0 <= a < b < short.len() implies (
                #[trigger] short[a]).key != (#[trigger] short[b]).key by {
                    assert(list[a].key != list[b].key);
                }
            }
            assert(list[i].key != list[list.len() - 1].key);
            assert forall|k: int| 0 <= k < after.len() implies (#[trigger] after[k]).key
                != s.key by {
                if k < before.len() {
                    assert(after[k] == before[k]);
                }
            }
        }
    } else {
        if is_alive(s, now, ttl) {
            assert(after[before.len() as int].key == s.key);
        } else if distinct_keys(list) {
            assert forall|k: int| 0 <= k < after.len() implies (#[trigger] after[k]).key
                != s.key by {
                let j = choose|j: int| 0 <= j < short.len() && (#[trigger] short[j]).key
                    == before[k].key;
                assert(list[j].key != list[i].key);
            }
        }
    }
}

proof fn lemma_swept_were_there(list: Seq<ScopeStateModel>, now: u64, ttl: u64)
    ensures
        forall|k: int|
            0 <= k < swept(list, now, ttl).len() ==> exists|j: int|
                0 <= j < list.len() && (#[trigger] list[j]).key == (#[trigger] swept(
                    list,
                    now,
                    ttl,
                )[k]).key,
    decreases list.len(),
{
    if list.len() > 0 {
        let short = list.drop_last();
        lemma_swept_were_there(short, now, ttl);
        let before = swept(short, now, ttl);
        let after = swept(list, now, ttl);
        assert forall|k: int| 0 <= k < after.len() implies exists|j: int|
            0 <= j < list.len() && (#[trigger] list[j]).key == (#[trigger] after[k]).key by {
            if k < before.len() {
                let j = choose|j: int|
                    0 <= j < short.len() && (#[trigger] short[j]).key == before[k].key;
                assert(list[j].key == after[k].key);
            } else {
                assert(list[list.len() - 1].key == after[k].key);
            }
        }
    }
}

/// Taking a message out of what was sent or is under way takes that one and no other.
pub proof fn law_only_the_message_is_taken_out(
    sent: Seq<Seq<char>>,
    pending: Seq<PendingTurnModel>,
    id: Seq<char>,
    other: Seq<char>,
)
    requires
        other != id,
    ensures
        !without_sent(sent, id).contains(id),
        without_sent(sent, id).contains(other) <==> sent.contains(other),
        pending_handle(without_pending(pending, id), id) is None,
        pending_handle(without_pending(pending, id), other) == pending_handle(pending, other),
    decreases sent.len() + pending.len(),
{
    if sent.len() > 0 {
        let short = sent.drop_last();
        law_only_the_message_is_taken_out(short, pending, id, other);
        assert(sent =~= short.push(sent.last()));
        lemma_contains_push(short, sent.last(), other);
        lemma_contains_push(without_sent(short, id), sent.last(), other);
        lemma_contains_push(without_sent(short, id), sent.last(), id);
    } else if pending.len() > 0 {
        let short = pending.drop_last();
        law_only_the_message_is_taken_out(sent, short, id, other);
        let kept = without_pending(short, id);
        assert(kept.push(pending.last()).drop_last() =~= kept);
    }
}

/// A turn that starts can be cancelled by its handle until it ends, unless its message was
/// withdrawn before; an answer ends the turn, and what was sent is known as sent.
pub proof fn law_turns_can_be_cancelled(
    s: ScopeStateModel,
    id: Seq<char>,
    handle: u64,
    now: u64,
    receipt: Seq<char>,
    max: nat,
)
    requires
        max > 0,
        receipt.len() > 0,
    ensures
        !is_recalled(s.recalled, id) ==> pending_handle(
            scope_turn_started(s, id, handle, now).pending,
            id,
        ) == Some(handle),
        pending_handle(scope_sent(s, Some(id), seq![receipt], max, now).pending, id) is None,
        scope_sent(s, Some(id), seq![receipt], max, now).sent.len() > 0,
        scope_sent(s, Some(id), seq![receipt], max, now).sent.last() == receipt,
        scope_turn_started(s, id, handle, now).touched_at == Some(now),
        scope_sent(s, Some(id), seq![receipt], max, now).touched_at == Some(now),
        scope_recalled(s, id, now).touched_at == Some(now),
        scope_sent(s, Some(id), seq![receipt], max, now).recalled == s.recalled,
        scope_turn_started(s, id, handle, now).recalled == s.recalled,
{
    let other = id.push('x');
    assert(other.len() != id.len());
    law_only_the_message_is_taken_out(s.sent, s.pending, id, other);
    assert(seq![receipt].drop_last() =~= Seq::<Seq<char>>::empty());
    assert(with_sent(s.sent, seq![receipt].drop_last()) == s.sent);
    let all = with_sent(s.sent, seq![receipt]);
    assert(all == without_sent(s.sent, receipt).push(receipt));
}

/// A withdrawal leaves what is known of other messages as it is.
pub proof fn law_other_messages_stay(s: ScopeStateModel, id: Seq<char>, other: Seq<char>, now: u64)
    requires
        other != id,
    ensures
        is_recalled(scope_recalled(s, id, now).recalled, other) <==> is_recalled(s.recalled, other),
        scope_recalled(s, id, now).sent.contains(other) <==> s.sent.contains(other),
        pending_handle(scope_recalled(s, id, now).pending, other) == pending_handle(
            s.pending,
            other,
        ),
{
    law_only_the_message_is_taken_out(s.sent, s.pending, id, other);
    lemma_recalled_others(s.recalled, id, other, now);
}

proof fn lemma_recalled_others(list: Seq<RecalledModel>, id: Seq<char>, other: Seq<char>, now: u64)
    requires
        other != id,
    ensures
        is_recalled(with_recalled(list, id, now), other) <==> is_recalled(list, other),
    decreases list.len(),
{
    let after = with_recalled(list, id, now);
    let entry = RecalledModel { message_id: id, at: now };
    if list.len() == 0 {
        assert(after =~= seq![entry]);
        assert(after[0].message_id == id);
    } else {
        let rest = list.drop_first();
        if list[0].message_id == id {
            assert(after =~= seq![entry] + rest);
            if is_recalled(list, other) {
                let i = choose|i: int| 0 <= i < list.len() && (#[trigger] list[i]).message_id == other;
                assert(after[i] == list[i]);
            }
            if is_recalled(after, other) {
                let i = choose|i: int| 0 <= i < after.len() && (#[trigger] after[i]).message_id
                    == other;
                assert(after[i] == list[i]);
            }
        } else {
            lemma_recalled_others(rest, id, other, now);
            let tail = with_recalled(rest, id, now);
            assert(after =~= seq![list[0]] + tail);
            if is_recalled(list, other) {
                let i = choose|i: int| 0 <= i < list.len() && (#[trigger] list[i]).message_id == other;
                if i == 0 {
                    assert(after[0] == list[0]);
                } else {
                    assert(rest[i - 1] == list[i]);
                    assert(is_recalled(rest, other));
                    let k = choose|k: int| 0 <= k < tail.len() && (#[trigger] tail[k]).message_id
                        == other;
                    assert(after[k + 1] == tail[k]);
                }
            }
            if is_recalled(after, other) {
                let i = choose|i: int| 0 <= i < after.len() && (#[trigger] after[i]).message_id
                    == other;
                if i == 0 {
                    assert(list[0] == after[0]);
                } else {
                    assert(tail[i - 1] == after[i]);
                    assert(is_recalled(tail, other));
                    let k = choose|k: int| 0 <= k < rest.len() && (#[trigger] rest[k]).message_id
                        == other;
                    assert(list[k + 1] == rest[k]);
                }
            }
        }
    }
}

/// Where there are too many conversations, the one that is forgotten is idle, and no idle one
/// was used before it.
pub proof fn law_the_oldest_is_forgotten_first(list: Seq<ScopeStateModel>, j: int)
    requires
        0 <= j < list.len(),
        list[j].pending.len() == 0,
    ensures
        oldest_idle(list) is Some,
        0 <= oldest_idle(list)->0 < list.len(),
        list[oldest_idle(list)->0].pending.len() == 0,
        list[j].touched_at is None ==> list[oldest_idle(list)->0].touched_at is None,
        list[j].touched_at is Some && list[oldest_idle(list)->0].touched_at is Some
            ==> list[oldest_idle(list)->0].touched_at->0 <= list[j].touched_at->0,
    decreases list.len(),
{
    let short = list.drop_last();
    lemma_idle_place(short);
    lemma_idle_place(list);
    if j < short.len() {
        law_the_oldest_is_forgotten_first(short, j);
        assert(short[j] == list[j]);
        let m = oldest_idle(short)->0;
        assert(short[m] == list[m]);
    } else if oldest_idle(short) is Some {
        let m = oldest_idle(short)->0;
        assert(short[m] == list[m]);
    }
}

proof fn lemma_idle_place(list: Seq<ScopeStateModel>)
    ensures
        oldest_idle(list) is Some ==> 0 <= oldest_idle(list)->0 < list.len()
            && list[oldest_idle(list)->0].pending.len() == 0,
    decreases list.len(),
{
    if list.len() > 0 {
        let short = list.drop_last();
        lemma_idle_place(short);
        if oldest_idle(short) is Some {
            assert(short[oldest_idle(short)->0] == list[oldest_idle(short)->0]);
        }
    }
}

} // verus!
