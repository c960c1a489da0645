//! The withdrawing of one message as a sequence of steps: what is asked of the
//! platform, in which order, and when the message is deleted.

use crate::arguments::Arguments;
use crate::group_management::tools::BotGroupRole;
use crate::message_recall::{
    already_recalled, belongs_to, can_manage, check_withdrawal, content_preview, join_preview,
    lookup_failed, lookup_failed_reply, needs_role, recall_start, recalled_reply, replied_info,
    withdraw_result, withdraw_start, withdrawal_refusal, withdrawal_reply, RecallPlan,
    RecallPlanModel, RecallReply, RecallReplyModel, RecallStart, RecallStartModel,
    LOG_PREVIEW_CHARS,
};
use crate::platform::{
    Conversation, ConversationKind, ConversationModel, MessageInfo, MessageInfoModel,
};
use crate::text::{opt_text, opt_view, same};
use vstd::prelude::*;
use vstd::string::*;

verus! {

/// How far the withdrawing of a message has come.
pub enum WithdrawState {
    /// The message is settled; it is asked whether its withdrawal is on record.
    Planned(RecallPlan),
    /// It is being looked up.
    Looking(RecallPlan),
    /// Its preview is being made safe for the model.
    Reading(RecallPlan, MessageInfo),
    /// The assistant's role in the group is being asked for.
    Asking(RecallPlan, MessageInfo, String),
    /// The platform is deleting it.
    Deleting(RecallPlan, MessageInfo, String),
    /// The platform failed to, with this error; the record is asked once more.
    Rejected(RecallPlan, MessageInfo, String, String),
    /// It is over.
    Over,
}

/// The values of a [`WithdrawState`].
pub enum WithdrawStateModel {
    Planned(RecallPlanModel),
    Looking(RecallPlanModel),
    Reading(RecallPlanModel, MessageInfoModel),
    Asking(RecallPlanModel, MessageInfoModel, Seq<char>),
    Deleting(RecallPlanModel, MessageInfoModel, Seq<char>),
    Rejected(RecallPlanModel, MessageInfoModel, Seq<char>, Seq<char>),
    Over,
}

impl View for WithdrawState {
    type V = WithdrawStateModel;

    open spec fn view(&self) -> WithdrawStateModel {
        match *self {
            WithdrawState::Planned(p) => WithdrawStateModel::Planned(p@),
            WithdrawState::Looking(p) => WithdrawStateModel::Looking(p@),
            WithdrawState::Reading(p, m) => WithdrawStateModel::Reading(p@, m@),
            WithdrawState::Asking(p, m, t) => WithdrawStateModel::Asking(p@, m@, t@),
            WithdrawState::Deleting(p, m, t) => WithdrawStateModel::Deleting(p@, m@, t@),
            WithdrawState::Rejected(p, m, t, e) => WithdrawStateModel::Rejected(p@, m@, t@, e@),
            WithdrawState::Over => WithdrawStateModel::Over,
        }
    }
}

/// What has come to be known.
pub enum WithdrawEvent {
    /// Whether the withdrawal of the message is on record.
    Recorded(bool),
    /// The message as it was looked up.
    Found(MessageInfo),
    /// There is no such message, or the lookup failed with this error.
    NotFound(Option<String>),
    /// The preview, safe for the model.
    Content(String),
    /// The assistant's role in the group.
    Role(BotGroupRole),
    /// The platform was asked to delete the message, and failed with this error, if
    /// any.
    Deleted(Option<String>),
}

/// The values of a [`WithdrawEvent`].
pub enum WithdrawEventModel {
    Recorded(bool),
    Found(MessageInfoModel),
    NotFound(Option<Seq<char>>),
    Content(Seq<char>),
    Role(BotGroupRole),
    Deleted(Option<Seq<char>>),
}

impl View for WithdrawEvent {
    type V = WithdrawEventModel;

    open spec fn view(&self) -> WithdrawEventModel {
        match *self {
            WithdrawEvent::Recorded(b) => WithdrawEventModel::Recorded(b),
            WithdrawEvent::Found(m) => WithdrawEventModel::Found(m@),
            WithdrawEvent::NotFound(e) => WithdrawEventModel::NotFound(opt_text(e)),
            WithdrawEvent::Content(t) => WithdrawEventModel::Content(t@),
            WithdrawEvent::Role(r) => WithdrawEventModel::Role(r),
            WithdrawEvent::Deleted(e) => WithdrawEventModel::Deleted(opt_text(e)),
        }
    }
}

/// What to do next.
pub enum WithdrawStep {
    /// Ask whether the withdrawal of this message is on record.
    AskRecorded(String),
    /// Look this message up.
    LookUp(String),
    /// Make this preview safe for the model.
    Clean(String),
    /// Ask for the assistant's role in the group.
    AskRole,
    /// Delete this message.
    Delete(String),
    /// Answer, and forget that this message was sent, if one is given.
    Finish(RecallReply, Option<String>),
    /// Fail with this error.
    Fail(String),
    /// Nothing: this was not waited for.
    Nothing,
}

/// The values of a [`WithdrawStep`].
pub enum WithdrawStepModel {
    AskRecorded(Seq<char>),
    LookUp(Seq<char>),
    Clean(Seq<char>),
    AskRole,
    Delete(Seq<char>),
    Finish(RecallReplyModel, Option<Seq<char>>),
    Fail(Seq<char>),
    Nothing,
}

impl View for WithdrawStep {
    type V = WithdrawStepModel;

    open spec fn view(&self) -> WithdrawStepModel {
        match *self {
            WithdrawStep::AskRecorded(s) => WithdrawStepModel::AskRecorded(s@),
            WithdrawStep::LookUp(s) => WithdrawStepModel::LookUp(s@),
            WithdrawStep::Clean(s) => WithdrawStepModel::Clean(s@),
            WithdrawStep::AskRole => WithdrawStepModel::AskRole,
            WithdrawStep::Delete(s) => WithdrawStepModel::Delete(s@),
            WithdrawStep::Finish(r, f) => WithdrawStepModel::Finish(r@, opt_text(f)),
            WithdrawStep::Fail(e) => WithdrawStepModel::Fail(e@),
            WithdrawStep::Nothing => WithdrawStepModel::Nothing,
        }
    }
}

/// The end of it, with an answer.
pub open spec fn over_with(reply: RecallReplyModel) -> (WithdrawStateModel, WithdrawStepModel) {
    (WithdrawStateModel::Over, WithdrawStepModel::Finish(reply, None))
}

fn finished(reply: RecallReply) -> (r: (WithdrawState, WithdrawStep))
    ensures
        (r.0@, r.1@) == over_with(reply@),
{
    (WithdrawState::Over, WithdrawStep::Finish(reply, None))
}

/// The first step of a request that has been read.
pub open spec fn first_step(start: RecallStartModel) -> (WithdrawStateModel, WithdrawStepModel) {
    match start {
        RecallStartModel::Plan(plan) => (
            WithdrawStateModel::Planned(plan),
            WithdrawStepModel::AskRecorded(plan.target.message_id),
        ),
        RecallStartModel::Reply(reply) => over_with(reply),
        RecallStartModel::Error(e) => (WithdrawStateModel::Over, WithdrawStepModel::Fail(e)),
    }
}

/// The first step of a request to withdraw a message.
pub fn withdraw_first(
    forced_id: Option<String>,
    args: &Arguments,
    reply: Option<String>,
    max_reason: usize,
) -> (r: (WithdrawState, WithdrawStep))
    ensures
        (r.0@, r.1@) == first_step(
            recall_start(opt_text(forced_id), *args, opt_text(reply), max_reason as nat),
        ),
{
    match withdraw_start(forced_id, args, reply, max_reason) {
        RecallStart::Plan(plan) => {
            let id: String = plan.target.message_id.clone();
            (WithdrawState::Planned(plan), WithdrawStep::AskRecorded(id))
        }
        RecallStart::Reply(reply) => finished(reply),
        RecallStart::Error(e) => (WithdrawState::Over, WithdrawStep::Fail(e)),
    }
}

/// The message replied to, where it is the one with this id.
pub open spec fn known_message(replied: Option<MessageInfoModel>, id: Seq<char>) -> Option<
    MessageInfoModel,
> {
    match replied {
        Some(m) => if m.message_id == id {
            Some(m)
        } else {
            None
        },
        None => None,
    }
}

/// The step once the message is known.
pub open spec fn read_step(plan: RecallPlanModel, info: MessageInfoModel) -> (
    WithdrawStateModel,
    WithdrawStepModel,
) {
    (
        WithdrawStateModel::Reading(plan, info),
        WithdrawStepModel::Clean(join_preview(info, LOG_PREVIEW_CHARS as nat)),
    )
}

fn read_next(plan: RecallPlan, info: MessageInfo) -> (r: (WithdrawState, WithdrawStep))
    ensures
        (r.0@, r.1@) == read_step(plan@, info@),
{
    let preview: String = content_preview(&info, LOG_PREVIEW_CHARS);
    (WithdrawState::Reading(plan, info), WithdrawStep::Clean(preview))
}

/// Whether the assistant's role decides on a message.
pub open spec fn role_decides(c: ConversationModel, info: MessageInfoModel) -> bool {
    belongs_to(c, info) && info.sender_id != c.account_id && c.kind == ConversationKind::Group
}

/// The step once it is known who asks for the message: the refusal, or the deletion.
pub open spec fn decided_step(
    c: ConversationModel,
    plan: RecallPlanModel,
    info: MessageInfoModel,
    content: Seq<char>,
    role: BotGroupRole,
) -> (WithdrawStateModel, WithdrawStepModel) {
    match withdrawal_refusal(plan.target, info, c, role, content) {
        Some(reply) => over_with(reply),
        None => (
            WithdrawStateModel::Deleting(plan, info, content),
            WithdrawStepModel::Delete(plan.target.message_id),
        ),
    }
}

fn decided_next(
    c: &Conversation,
    plan: RecallPlan,
    info: MessageInfo,
    content: String,
    role: BotGroupRole,
) -> (r: (WithdrawState, WithdrawStep))
    ensures
        (r.0@, r.1@) == decided_step(c@, plan@, info@, content@, role),
{
    match check_withdrawal(&plan.target, &info, c, role, &content) {
        Some(reply) => finished(reply),
        None => {
            let id: String = plan.target.message_id.clone();
            (WithdrawState::Deleting(plan, info, content), WithdrawStep::Delete(id))
        }
    }
}

/// What to do next. `replied` is the message that the current one replies to.
pub open spec fn withdraw_step(
    c: ConversationModel,
    replied: Option<MessageInfoModel>,
    s: WithdrawStateModel,
    e: WithdrawEventModel,
) -> (WithdrawStateModel, WithdrawStepModel) {
    match (s, e) {
        (WithdrawStateModel::Planned(plan), WithdrawEventModel::Recorded(on_record)) => {
            if on_record {
                over_with(recalled_reply(plan))
            } else {
                match known_message(replied, plan.target.message_id) {
                    Some(info) => read_step(plan, info),
                    None => (
                        WithdrawStateModel::Looking(plan),
                        WithdrawStepModel::LookUp(plan.target.message_id),
                    ),
                }
            }
        },
        (WithdrawStateModel::Looking(plan), WithdrawEventModel::Found(info)) => read_step(
            plan,
            info,
        ),
        (WithdrawStateModel::Looking(plan), WithdrawEventModel::NotFound(error)) => over_with(
            lookup_failed_reply(plan.target, error),
        ),
        (WithdrawStateModel::Reading(plan, info), WithdrawEventModel::Content(content)) => {
            if role_decides(c, info) {
                (WithdrawStateModel::Asking(plan, info, content), WithdrawStepModel::AskRole)
            } else {
                decided_step(c, plan, info, content, BotGroupRole::Unknown)
            }
        },
        (WithdrawStateModel::Asking(plan, info, content), WithdrawEventModel::Role(role)) =>
            decided_step(c, plan, info, content, role),
        (WithdrawStateModel::Deleting(plan, info, content), WithdrawEventModel::Deleted(error)) => {
            match error {
                Some(detail) => (
                    WithdrawStateModel::Rejected(plan, info, content, detail),
                    WithdrawStepModel::AskRecorded(plan.target.message_id),
                ),
                None => (
                    WithdrawStateModel::Over,
                    WithdrawStepModel::Finish(
                        withdrawal_reply(plan, info, c.account_id, None, false, content),
                        if info.sender_id == c.account_id {
                            Some(plan.target.message_id)
                        } else {
                            None
                        },
                    ),
                ),
            }
        },
        (
            WithdrawStateModel::Rejected(plan, info, content, detail),
            WithdrawEventModel::Recorded(on_record),
        ) => over_with(
            withdrawal_reply(plan, info, c.account_id, Some(detail), on_record, content),
        ),
        _ => (s, WithdrawStepModel::Nothing),
    }
}

/// What to do next: a withdrawal on record ends it; otherwise the message is looked
/// up unless it is the one replied to, its place and its sender are checked, with the
/// assistant's role where that decides, and only then is it deleted. An event that is
/// not waited for changes nothing.
pub fn withdraw_next(
    c: &Conversation,
    replied: &Option<MessageInfo>,
    s: WithdrawState,
    e: WithdrawEvent,
) -> (r: (WithdrawState, WithdrawStep))
    ensures
        (r.0@, r.1@) == withdraw_step(c@, opt_view(*replied), s@, e@),
{
    match (s, e) {
        (WithdrawState::Planned(plan), WithdrawEvent::Recorded(on_record)) => {
            if on_record {
                return finished(already_recalled(&plan));
            }
            match replied_info(replied, &plan.target.message_id) {
                Some(info) => {
                    let info: MessageInfo = info.copy();
                    read_next(plan, info)
                }
                None => {
                    let id: String = plan.target.message_id.clone();
                    (WithdrawState::Looking(plan), WithdrawStep::LookUp(id))
                }
            }
        }
        (WithdrawState::Looking(plan), WithdrawEvent::Found(info)) => read_next(plan, info),
        (WithdrawState::Looking(plan), WithdrawEvent::NotFound(error)) => finished(
            lookup_failed(&plan.target, error),
        ),
        (WithdrawState::Reading(plan, info), WithdrawEvent::Content(content)) => {
            if needs_role(&info, c) {
                (WithdrawState::Asking(plan, info, content), WithdrawStep::AskRole)
            } else {
                decided_next(c, plan, info, content, BotGroupRole::Unknown)
            }
        }
        (WithdrawState::Asking(plan, info, content), WithdrawEvent::Role(role)) => decided_next(
            c,
            plan,
            info,
            content,
            role,
        ),
        (WithdrawState::Deleting(plan, info, content), WithdrawEvent::Deleted(error)) => {
            let id: String = plan.target.message_id.clone();
            match error {
                Some(detail) => (
                    WithdrawState::Rejected(plan, info, content, detail),
                    WithdrawStep::AskRecorded(id),
                ),
                None => {
                    let reply: RecallReply = withdraw_result(
                        &plan,
                        &info,
                        &c.account_id,
                        None,
                        false,
                        &content,
                    );
                    let forget: Option<String> = if same(&info.sender_id, &c.account_id) {
                        Some(id)
                    } else {
                        None
                    };
                    (WithdrawState::Over, WithdrawStep::Finish(reply, forget))
                }
            }
        }
        (
            WithdrawState::Rejected(plan, info, content, detail),
            WithdrawEvent::Recorded(on_record),
        ) => finished(
            withdraw_result(&plan, &info, &c.account_id, Some(detail), on_record, &content),
        ),
        (s, _) => (s, WithdrawStep::Nothing),
    }
}

// ---------------------------------------------------------------------------
// Every run

/// One withdrawing: the conversation, the message replied to, and what was asked for.
pub struct WithdrawRun {
    pub c: ConversationModel,
    pub replied: Option<MessageInfoModel>,
    pub plan: RecallPlanModel,
    pub events: Seq<WithdrawEventModel>,
}

impl WithdrawRun {
    /// How far it has come after its first `n` events.
    pub open spec fn state(self, n: nat) -> WithdrawStateModel
        decreases n,
    {
        if n == 0 {
            first_step(RecallStartModel::Plan(self.plan)).0
        } else {
            withdraw_step(
                self.c,
                self.replied,
                self.state((n - 1) as nat),
                self.events[n - 1],
            ).0
        }
    }

    /// The step that its event numbered `i` leads to.
    pub open spec fn step(self, i: int) -> WithdrawStepModel {
        withdraw_step(self.c, self.replied, self.state(i as nat), self.events[i]).1
    }

    /// Whether the event numbered `i` leads to the deletion of a message.
    pub open spec fn deletes(self, i: int) -> bool {
        0 <= i < self.events.len() && self.step(i) is Delete
    }

    /// Whether `info` is the message asked for as the platform described it before
    /// the event numbered `i`.
    pub open spec fn learned(self, info: MessageInfoModel, i: int) -> bool {
        known_message(self.replied, self.plan.target.message_id) == Some(info) || exists|j: int|
            0 <= j < i && #[trigger] self.events[j] == WithdrawEventModel::Found(info)
    }

    /// Whether the assistant was, by the event numbered `i`, said to manage the group.
    pub open spec fn manages(self, i: int) -> bool {
        exists|j: int|
            0 <= j <= i && (#[trigger] self.events[j] matches WithdrawEventModel::Role(role)
                && can_manage(role))
    }

    /// Whether `info` may be withdrawn by what was known at the event numbered `i`.
    pub open spec fn allowed(self, info: MessageInfoModel, i: int) -> bool {
        &&& self.learned(info, i)
        &&& belongs_to(self.c, info)
        &&& info.sender_id == self.c.account_id || (self.c.kind == ConversationKind::Group
            && self.manages(i))
    }
}

/// How late a state comes.
spec fn rank(s: WithdrawStateModel) -> int {
    match s {
        WithdrawStateModel::Planned(_) => 0,
        WithdrawStateModel::Looking(_) => 1,
        WithdrawStateModel::Reading(_, _) => 2,
        WithdrawStateModel::Asking(_, _, _) => 3,
        WithdrawStateModel::Deleting(_, _, _) => 4,
        WithdrawStateModel::Rejected(_, _, _, _) => 5,
        WithdrawStateModel::Over => 6,
    }
}

proof fn lemma_never_back(run: WithdrawRun, i: nat, j: nat)
    requires
        i <= j <= run.events.len(),
    ensures
        rank(run.state(i)) <= rank(run.state(j)),
    decreases j - i,
{
    if i < j {
        lemma_never_back(run, i, (j - 1) as nat);
    }
}

/// What a state knows was asked for and answered before.
spec fn grounded(run: WithdrawRun, n: nat) -> bool {
    match run.state(n) {
        WithdrawStateModel::Planned(p) => p == run.plan,
        WithdrawStateModel::Looking(p) => p == run.plan,
        WithdrawStateModel::Reading(p, m) => p == run.plan && run.learned(m, n as int),
        WithdrawStateModel::Asking(p, m, _) => p == run.plan && run.learned(m, n as int)
            && role_decides(run.c, m),
        WithdrawStateModel::Deleting(p, _, _) => p == run.plan,
        WithdrawStateModel::Rejected(p, _, _, _) => p == run.plan,
        WithdrawStateModel::Over => true,
    }
}

proof fn lemma_grounded(run: WithdrawRun, n: nat)
    requires
        n <= run.events.len(),
    ensures
        grounded(run, n),
    decreases n,
{
    if n > 0 {
        lemma_grounded(run, (n - 1) as nat);
        let before = run.state((n - 1) as nat);
        let e = run.events[n - 1];
        assert forall|m: MessageInfoModel| #[trigger] run.learned(m, n - 1) implies run.learned(
            m,
            n as int,
        ) by {
            if known_message(run.replied, run.plan.target.message_id) != Some(m) {
                let j = choose|j: int|
                    0 <= j < n - 1 && #[trigger] run.events[j] == WithdrawEventModel::Found(m);
                assert(run.events[j] == WithdrawEventModel::Found(m));
            }
        }
        if before is Looking {
            if let WithdrawEventModel::Found(m) = e {
                assert(run.events[n - 1] == WithdrawEventModel::Found(m));
                assert(run.learned(m, n as int));
            }
        }
    }
}

/// However the platform answers, the assistant deletes no message but the one asked
/// for, and that one only after it was learned to stand in this conversation and to
/// be the assistant's own, or to stand in a group that the assistant manages.
pub proof fn law_deletion_is_authorised(run: WithdrawRun, i: int)
    requires
        run.deletes(i),
    ensures
        run.step(i) == WithdrawStepModel::Delete(run.plan.target.message_id),
        exists|info: MessageInfoModel| #[trigger] run.allowed(info, i),
{
    lemma_grounded(run, i as nat);
    let e = run.events[i];
    match run.state(i as nat) {
        WithdrawStateModel::Reading(p, m) => {
            assert(run.allowed(m, i));
        },
        WithdrawStateModel::Asking(p, m, t) => {
            if let WithdrawEventModel::Role(role) = e {
                assert(run.events[i] == WithdrawEventModel::Role(role));
                assert(can_manage(role));
                assert(run.manages(i));
            }
            assert(run.allowed(m, i));
        },
        _ => {},
    }
}

/// However the platform answers, a message is deleted at most once.
pub proof fn law_deletion_happens_once(run: WithdrawRun, i: int, j: int)
    requires
        run.deletes(i),
        run.deletes(j),
    ensures
        i == j,
{
    let (first, second) = if i < j {
        (i, j)
    } else {
        (j, i)
    };
    if first < second {
        assert(rank(run.state((first + 1) as nat)) == 4);
        lemma_never_back(run, (first + 1) as nat, second as nat);
    }
}

/// A message whose withdrawal is on record is not deleted again, whatever comes
/// after.
pub proof fn law_recorded_withdrawal_is_not_repeated(run: WithdrawRun, i: int, j: int)
    requires
        0 <= i < run.events.len(),
        run.state(i as nat) is Planned,
        run.events[i] == WithdrawEventModel::Recorded(true),
    ensures
        !run.deletes(j),
{
    if !run.deletes(j) {
    } else if j < i {
        assert(rank(run.state((j + 1) as nat)) == 4);
        lemma_never_back(run, (j + 1) as nat, i as nat);
    } else if j > i {
        assert(rank(run.state((i + 1) as nat)) == 6);
        lemma_never_back(run, (i + 1) as nat, j as nat);
    }
}

/// It is said that a message was withdrawn just now only where the platform deleted
/// it without an error.
pub proof fn law_success_is_the_platforms_word(run: WithdrawRun, i: int)
    requires
        0 <= i < run.events.len(),
        run.step(i) is Finish,
        run.step(i)->Finish_0.success,
        !run.step(i)->Finish_0.already_recalled,
    ensures
        run.events[i] == WithdrawEventModel::Deleted(None),
        run.state(i as nat) is Deleting,
{
}

/// A withdrawal goes its way: what is not on record is looked up unless it is the message
/// that is replied to, and what is found is deleted where that is allowed.
pub proof fn law_a_withdrawal_goes_its_way(
    c: ConversationModel,
    replied: Option<MessageInfoModel>,
    plan: RecallPlanModel,
    info: MessageInfoModel,
    content: Seq<char>,
    role: BotGroupRole,
)
    ensures
        ({
            let asked = withdraw_step(
                c,
                replied,
                WithdrawStateModel::Planned(plan),
                WithdrawEventModel::Recorded(false),
            );
            let read = withdraw_step(
                c,
                replied,
                WithdrawStateModel::Reading(plan, info),
                WithdrawEventModel::Content(content),
            );
            let ruled = withdraw_step(
                c,
                replied,
                WithdrawStateModel::Asking(plan, info, content),
                WithdrawEventModel::Role(role),
            );
            let here = info.conversation_kind == Some(c.kind) && info.conversation_id == Some(
                c.conversation_id,
            );
            &&& replied is None ==> asked.1 == WithdrawStepModel::LookUp(plan.target.message_id)
            &&& replied is Some && replied->0.message_id != plan.target.message_id ==> asked.1
                == WithdrawStepModel::LookUp(plan.target.message_id)
            &&& replied is Some && replied->0.message_id == plan.target.message_id ==> asked.0
                == WithdrawStateModel::Reading(plan, replied->0) && asked.1 is Clean
            &&& here && info.sender_id == c.account_id ==> read.1 == WithdrawStepModel::Delete(
                plan.target.message_id,
            )
            &&& here && info.sender_id != c.account_id && c.kind == ConversationKind::Group
                ==> read.1 == WithdrawStepModel::AskRole
            &&& !here ==> read.1 is Finish && !read.1->Finish_0.success
            &&& here && c.kind == ConversationKind::Group && (role == BotGroupRole::Owner || role
                == BotGroupRole::Admin) ==> ruled.1 == WithdrawStepModel::Delete(
                plan.target.message_id,
            )
            &&& here && info.sender_id != c.account_id && (role == BotGroupRole::Member || role
                == BotGroupRole::Unknown) ==> ruled.1 is Finish && !ruled.1->Finish_0.success
        }),
{
}

/// A deletion that the platform refused is a failure unless the record says by then that the
/// message is gone; one that it carried out is a success, and one's own message is then no
/// longer known as sent.
pub proof fn law_what_a_deletion_comes_to(
    c: ConversationModel,
    replied: Option<MessageInfoModel>,
    plan: RecallPlanModel,
    info: MessageInfoModel,
    content: Seq<char>,
    detail: Seq<char>,
    on_record: bool,
)
    ensures
        ({
            let done = withdraw_step(
                c,
                replied,
                WithdrawStateModel::Deleting(plan, info, content),
                WithdrawEventModel::Deleted(None),
            ).1;
            let refused = withdraw_step(
                c,
                replied,
                WithdrawStateModel::Deleting(plan, info, content),
                WithdrawEventModel::Deleted(Some(detail)),
            );
            let after = withdraw_step(
                c,
                replied,
                refused.0,
                WithdrawEventModel::Recorded(on_record),
            ).1;
            &&& done is Finish && done->Finish_0.success && done->Finish_0.message_id == Some(
                plan.target.message_id,
            )
            &&& done->Finish_1 == (if info.sender_id == c.account_id {
                Some(plan.target.message_id)
            } else {
                None
            })
            &&& refused.1 == WithdrawStepModel::AskRecorded(plan.target.message_id)
            &&& after is Finish && after->Finish_0.success == on_record
                && after->Finish_0.already_recalled == on_record && after->Finish_0.message_id
                == Some(plan.target.message_id) && after->Finish_1 is None
            &&& !on_record ==> after->Finish_0.detail == Some(detail)
        }),
{
}

} // verus!
