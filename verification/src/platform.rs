//! What the plugins see of the chat platform: conversations, members, events.

use crate::text::{copy_opt, opt_text, views};
use vstd::prelude::*;
use vstd::string::*;

verus! {

/// The kind of a conversation.
#[derive(Clone, Copy, Debug, PartialEq, Eq, Structural)]
pub enum ConversationKind {
    Private,
    Group,
}

impl ConversationKind {
    /// The kind's name.
    pub open spec fn name(self) -> Seq<char> {
        match self {
            ConversationKind::Private => "private"@,
            ConversationKind::Group => "group"@,
        }
    }

    /// The kind's name.
    pub fn as_str(self) -> (r: &'static str)
        ensures
            r@ == self.name(),
    {
        match self {
            ConversationKind::Private => "private",
            ConversationKind::Group => "group",
        }
    }
}

/// A conversation of one account on one platform.
pub struct Conversation {
    pub platform: String,
    /// The account of the assistant itself.
    pub account_id: String,
    pub kind: ConversationKind,
    /// The group, or the other person.
    pub conversation_id: String,
}

/// What a [`Conversation`] holds, as values.
#[verifier::ext_equal]
pub struct ConversationModel {
    pub platform: Seq<char>,
    pub account_id: Seq<char>,
    pub kind: ConversationKind,
    pub conversation_id: Seq<char>,
}

impl View for Conversation {
    type V = ConversationModel;

    open spec fn view(&self) -> ConversationModel {
        ConversationModel {
            platform: self.platform@,
            account_id: self.account_id@,
            kind: self.kind,
            conversation_id: self.conversation_id@,
        }
    }
}

impl Conversation {
    /// A value that holds the same.
    pub fn copy(&self) -> (r: Conversation)
        ensures
            r@ == self@,
    {
        Conversation {
            platform: self.platform.clone(),
            account_id: self.account_id.clone(),
            kind: self.kind,
            conversation_id: self.conversation_id.clone(),
        }
    }
}


/// The place under which a plugin keeps its state.
pub struct ScopeKey {
    pub plugin_id: String,
    pub platform: String,
    pub account_id: String,
    pub conversation_kind: String,
    pub conversation_id: String,
}

/// What a [`ScopeKey`] holds, as values.
#[verifier::ext_equal]
pub struct ScopeKeyModel {
    pub plugin_id: Seq<char>,
    pub platform: Seq<char>,
    pub account_id: Seq<char>,
    pub conversation_kind: Seq<char>,
    pub conversation_id: Seq<char>,
}

impl View for ScopeKey {
    type V = ScopeKeyModel;

    open spec fn view(&self) -> ScopeKeyModel {
        ScopeKeyModel {
            plugin_id: self.plugin_id@,
            platform: self.platform@,
            account_id: self.account_id@,
            conversation_kind: self.conversation_kind@,
            conversation_id: self.conversation_id@,
        }
    }
}

impl ScopeKey {
    /// A value that holds the same.
    pub fn copy(&self) -> (r: ScopeKey)
        ensures
            r@ == self@,
    {
        ScopeKey {
            plugin_id: self.plugin_id.clone(),
            platform: self.platform.clone(),
            account_id: self.account_id.clone(),
            conversation_kind: self.conversation_kind.clone(),
            conversation_id: self.conversation_id.clone(),
        }
    }
}


/// A member of a group.
pub struct GroupMember {
    pub group_id: String,
    pub user_id: String,
    pub nickname: String,
    /// The name within the group.
    pub card: String,
    /// `owner`, `admin` or `member`.
    pub role: String,
    pub title: String,
    pub joined_at: i64,
    pub last_active_at: i64,
}

/// What a [`GroupMember`] holds, as values.
#[verifier::ext_equal]
pub struct GroupMemberModel {
    pub group_id: Seq<char>,
    pub user_id: Seq<char>,
    pub nickname: Seq<char>,
    pub card: Seq<char>,
    pub role: Seq<char>,
    pub title: Seq<char>,
    pub joined_at: i64,
    pub last_active_at: i64,
}

impl View for GroupMember {
    type V = GroupMemberModel;

    open spec fn view(&self) -> GroupMemberModel {
        GroupMemberModel {
            group_id: self.group_id@,
            user_id: self.user_id@,
            nickname: self.nickname@,
            card: self.card@,
            role: self.role@,
            title: self.title@,
            joined_at: self.joined_at,
            last_active_at: self.last_active_at,
        }
    }
}

impl GroupMember {
    /// A value that holds the same.
    pub fn copy(&self) -> (r: GroupMember)
        ensures
            r@ == self@,
    {
        GroupMember {
            group_id: self.group_id.clone(),
            user_id: self.user_id.clone(),
            nickname: self.nickname.clone(),
            card: self.card.clone(),
            role: self.role.clone(),
            title: self.title.clone(),
            joined_at: self.joined_at,
            last_active_at: self.last_active_at,
        }
    }

    /// A list that holds the same values.
    pub fn copy_all(v: &Vec<GroupMember>) -> (r: Vec<GroupMember>)
        ensures
            views(r@) == views(v@),
            r.len() == v.len(),
    {
        let mut out: Vec<GroupMember> = Vec::new();
        let mut i: usize = 0;
        while i < v.len()
            invariant
                i <= v.len(),
                out.len() == i,
                forall|j: int| 0 <= j < i ==> (#[trigger] out@[j])@ == v@[j]@,
            decreases v.len() - i,
        {
            out.push(v[i].copy());
            i += 1;
        }
        assert(views(out@) =~= views(v@));
        out
    }
}


impl GroupMemberModel {
    /// The name shown for the member: the name within the group where there is one.
    pub open spec fn shown_name(self) -> Seq<char> {
        if self.card.len() > 0 {
            self.card
        } else {
            self.nickname
        }
    }
}

impl GroupMember {
    /// The name shown for the member.
    pub fn display_name(&self) -> (r: &str)
        ensures
            r@ == self@.shown_name(),
    {
        if self.card.as_str().unicode_len() > 0 {
            self.card.as_str()
        } else {
            self.nickname.as_str()
        }
    }
}

/// The kind of a piece of media.
#[derive(Clone, Copy, Debug, PartialEq, Eq, Structural)]
pub enum MediaKind {
    Image,
    Audio,
    Video,
    File,
    Emoji,
    Other,
}

/// A piece of media in a message.
pub struct Media {
    pub kind: MediaKind,
    pub id: Option<String>,
    pub name: Option<String>,
    pub url: Option<String>,
}

/// What a [`Media`] holds, as values.
#[verifier::ext_equal]
pub struct MediaModel {
    pub kind: MediaKind,
    pub id: Option<Seq<char>>,
    pub name: Option<Seq<char>>,
    pub url: Option<Seq<char>>,
}

impl View for Media {
    type V = MediaModel;

    open spec fn view(&self) -> MediaModel {
        MediaModel {
            kind: self.kind,
            id: opt_text(self.id),
            name: opt_text(self.name),
            url: opt_text(self.url),
        }
    }
}

impl Media {
    /// A value that holds the same.
    pub fn copy(&self) -> (r: Media)
        ensures
            r@ == self@,
    {
        Media {
            kind: self.kind,
            id: copy_opt(&self.id),
            name: copy_opt(&self.name),
            url: copy_opt(&self.url),
        }
    }

    /// A list that holds the same values.
    pub fn copy_all(v: &Vec<Media>) -> (r: Vec<Media>)
        ensures
            views(r@) == views(v@),
            r.len() == v.len(),
    {
        let mut out: Vec<Media> = Vec::new();
        let mut i: usize = 0;
        while i < v.len()
            invariant
                i <= v.len(),
                out.len() == i,
                forall|j: int| 0 <= j < i ==> (#[trigger] out@[j])@ == v@[j]@,
            decreases v.len() - i,
        {
            out.push(v[i].copy());
            i += 1;
        }
        assert(views(out@) =~= views(v@));
        out
    }
}


/// A message that was looked up.
pub struct MessageInfo {
    pub message_id: String,
    pub sender_id: String,
    pub sender_display_name: String,
    pub text: String,
    pub media: Vec<Media>,
    pub conversation_kind: Option<ConversationKind>,
    pub conversation_id: Option<String>,
}

/// What a [`MessageInfo`] holds, as values.
#[verifier::ext_equal]
pub struct MessageInfoModel {
    pub message_id: Seq<char>,
    pub sender_id: Seq<char>,
    pub sender_display_name: Seq<char>,
    pub text: Seq<char>,
    pub media: Seq<MediaModel>,
    pub conversation_kind: Option<ConversationKind>,
    pub conversation_id: Option<Seq<char>>,
}

impl View for MessageInfo {
    type V = MessageInfoModel;

    open spec fn view(&self) -> MessageInfoModel {
        MessageInfoModel {
            message_id: self.message_id@,
            sender_id: self.sender_id@,
            sender_display_name: self.sender_display_name@,
            text: self.text@,
            media: views(self.media@),
            conversation_kind: self.conversation_kind,
            conversation_id: opt_text(self.conversation_id),
        }
    }
}

impl MessageInfo {
    /// A value that holds the same.
    pub fn copy(&self) -> (r: MessageInfo)
        ensures
            r@ == self@,
    {
        MessageInfo {
            message_id: self.message_id.clone(),
            sender_id: self.sender_id.clone(),
            sender_display_name: self.sender_display_name.clone(),
            text: self.text.clone(),
            media: Media::copy_all(&self.media),
            conversation_kind: self.conversation_kind,
            conversation_id: copy_opt(&self.conversation_id),
        }
    }
}


/// The scope of `plugin_id` in a conversation.
pub open spec fn scope_of(plugin_id: Seq<char>, c: ConversationModel) -> ScopeKeyModel {
    ScopeKeyModel {
        plugin_id: plugin_id,
        platform: c.platform,
        account_id: c.account_id,
        conversation_kind: c.kind.name(),
        conversation_id: c.conversation_id,
    }
}

/// The scope of `plugin_id` in a conversation.
pub fn plugin_scope(plugin_id: &str, c: &Conversation) -> (r: ScopeKey)
    ensures
        r@ == scope_of(plugin_id@, c@),
{
    ScopeKey {
        plugin_id: plugin_id.to_owned(),
        platform: c.platform.clone(),
        account_id: c.account_id.clone(),
        conversation_kind: c.kind.as_str().to_owned(),
        conversation_id: c.conversation_id.clone(),
    }
}

/// Each kind of conversation has its own name, a member is shown by the name within the group
/// where there is one, and what is kept of one conversation is kept apart from all others.
pub proof fn law_conversations_are_told_apart(
    plugin: Seq<char>,
    other: Seq<char>,
    a: ConversationModel,
    b: ConversationModel,
    m: GroupMemberModel,
)
    ensures
        ConversationKind::Private.name() == "private"@,
        ConversationKind::Group.name() == "group"@,
        scope_of(plugin, a) == scope_of(other, b) ==> plugin == other && a == b,
        m.card.len() > 0 ==> m.shown_name() == m.card,
        m.card.len() == 0 ==> m.shown_name() == m.nickname,
{
    reveal_strlit("private");
    reveal_strlit("group");
    assert("private"@.len() == 7 && "group"@.len() == 5);
}

} // verus!
