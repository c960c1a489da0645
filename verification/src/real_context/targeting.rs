//! Whom a message is addressed to.

use crate::text::{copy_opt, join, joined, opt_text, same, texts, views};
use vstd::prelude::*;
use vstd::string::*;

verus! {

/// A member mentioned in a message.
pub struct Mention {
    pub user_id: String,
    pub display_name: Option<String>,
}

/// What a [`Mention`] holds, as values.
#[verifier::ext_equal]
pub struct MentionModel {
    pub user_id: Seq<char>,
    pub display_name: Option<Seq<char>>,
}

impl View for Mention {
    type V = MentionModel;

    open spec fn view(&self) -> MentionModel {
        MentionModel {
            user_id: self.user_id@,
            display_name: opt_text(self.display_name),
        }
    }
}

impl Mention {
    /// A value that holds the same.
    pub fn copy(&self) -> (r: Mention)
        ensures
            r@ == self@,
    {
        Mention {
            user_id: self.user_id.clone(),
            display_name: copy_opt(&self.display_name),
        }
    }

    /// A list that holds the same values.
    pub fn copy_all(v: &Vec<Mention>) -> (r: Vec<Mention>)
        ensures
            views(r@) == views(v@),
            r.len() == v.len(),
    {
        let mut out: Vec<Mention> = Vec::new();
        let mut i: usize = 0;
        while i < v.len()
            invariant
                i <= v.len(),
                out.len() == i,
                forall|j: int| 0 <= j < i ==> (#[trigger] out@[j])@ == v@[j]@,
            decreases v.len() - i,
        {
            out.push(v[i].copy());
            i += 1;
        }
        assert(views(out@) =~= views(v@));
        out
    }
}


/// The members mentioned: those with names, or else the bare numbers.
pub open spec fn all_mentions(users: Seq<MentionModel>, ids: Seq<Seq<char>>) -> Seq<MentionModel> {
    if users.len() > 0 {
        users
    } else {
        ids.map_values(|id: Seq<char>| MentionModel { user_id: id, display_name: None })
    }
}

/// The members mentioned.
pub fn mentions_of(users: &Vec<Mention>, ids: &Vec<String>) -> (r: Vec<Mention>)
    ensures
        views(r@) == all_mentions(views(users@), texts(ids@)),
{
    if users.len() > 0 {
        return Mention::copy_all(users);
    }
    let ghost goal = all_mentions(views(users@), texts(ids@));
    let mut out: Vec<Mention> = Vec::new();
    let mut i: usize = 0;
    while i < ids.len()
        invariant
            i <= ids.len(),
            goal.len() == ids.len(),
            forall|j: int|
                0 <= j < goal.len() ==> #[trigger] goal[j] == (MentionModel {
                    user_id: ids@[j]@,
                    display_name: None,
                }),
            views(out@) =~= goal.take(i as int),
        decreases ids.len() - i,
    {
        let ghost before = views(out@);
        let one: Mention = Mention { user_id: ids[i].clone(), display_name: None };
        out.push(one);
        assert(views(out@) =~= before.push(one@));
        assert(goal[i as int] == one@);
        i += 1;
    }
    assert(views(out@) =~= goal);
    out
}

/// How a mentioned member is shown; one without a name is left out where numbers
/// are hidden.
pub open spec fn mention_shown(m: MentionModel, show_ids: bool, own_id: Option<Seq<char>>) -> Seq<
    Seq<char>,
> {
    if own_id == Some(m.user_id) {
        seq!["[you]"@]
    } else {
        match m.display_name {
            Some(name) => if show_ids {
                seq![name + "(QQ:"@ + m.user_id + ")"@]
            } else {
                seq![name]
            },
            None => if show_ids {
                seq!["QQ:"@ + m.user_id]
            } else {
                seq![]
            },
        }
    }
}

/// How the mentioned members are shown.
pub open spec fn mentions_shown(
    list: Seq<MentionModel>,
    show_ids: bool,
    own_id: Option<Seq<char>>,
) -> Seq<Seq<char>>
    decreases list.len(),
{
    if list.len() == 0 {
        seq![]
    } else {
        mentions_shown(list.drop_last(), show_ids, own_id) + mention_shown(
            list.last(),
            show_ids,
            own_id,
        )
    }
}

/// The line of the mentioned members; none where there is nobody to show.
pub open spec fn mention_line(
    users: Seq<MentionModel>,
    ids: Seq<Seq<char>>,
    show_ids: bool,
    own_id: Option<Seq<char>>,
) -> Option<Seq<char>> {
    let shown = mentions_shown(all_mentions(users, ids), show_ids, own_id);
    if shown.len() == 0 {
        None
    } else {
        Some(join(shown, "、"@))
    }
}

/// The line of the mentioned members, the assistant itself marked as such.
pub fn format_mentioned_users(
    users: &Vec<Mention>,
    ids: &Vec<String>,
    show_ids: bool,
    own_id: &Option<String>,
) -> (r: Option<String>)
    ensures
        opt_text(r) == mention_line(views(users@), texts(ids@), show_ids, opt_text(*own_id)),
{
    let list: Vec<Mention> = mentions_of(users, ids);
    let ghost all = views(list@);
    let mut shown: Vec<String> = Vec::new();
    let mut i: usize = 0;
    assert(all.take(0) =~= seq![]);
    assert(texts(shown@) =~= seq![]);
    while i < list.len()
        invariant
            i <= list.len(),
            all == views(list@),
            texts(shown@) == mentions_shown(all.take(i as int), show_ids, opt_text(*own_id)),
        decreases list.len() - i,
    {
        assert(all.take(i + 1).drop_last() =~= all.take(i as int));
        assert(all[i as int] == list@[i as int]@);
        let ghost before = texts(shown@);
        let m: &Mention = &list[i];
        let own: bool = crate::text::opt_is(own_id, &m.user_id);
        if own {
            shown.push("[you]".to_owned());
        } else {
            match &m.display_name {
                Some(name) => {
                    let mut s: String = name.clone();
                    if show_ids {
                        s.append("(QQ:");
                        s.append(&m.user_id);
                        s.append(")");
                    }
                    shown.push(s);
                }
                None => {
                    if show_ids {
                        let mut s: String = "QQ:".to_owned();
                        s.append(&m.user_id);
                        shown.push(s);
                    }
                }
            }
        }
        assert(texts(shown@) =~= before + mention_shown(m@, show_ids, opt_text(*own_id)));
        i += 1;
    }
    assert(all.take(list.len() as int) =~= all);
    if shown.len() == 0 {
        return None;
    }
    Some(joined(&shown, "、"))
}

/// Whoever is mentioned is shown by name, the assistant as such, and numbers only where they
/// are to be shown.
pub proof fn law_a_mention_is_shown(name: Seq<char>, id: Seq<char>, own: Seq<char>, show: bool)
    ensures
        ({
            let named = seq![MentionModel { user_id: id, display_name: Some(name) }];
            let bare = seq![MentionModel { user_id: id, display_name: None }];
            let none = Seq::<Seq<char>>::empty();
            &&& id != own && !show ==> mention_line(named, none, show, Some(own)) == Some(name)
            &&& id != own && show ==> mention_line(named, none, show, Some(own)) == Some(
                name + "(QQ:"@ + id + ")"@,
            )
            &&& id != own && !show ==> mention_line(bare, none, show, Some(own)) is None
            &&& id != own && show ==> mention_line(bare, none, show, Some(own)) == Some("QQ:"@ + id)
            &&& mention_line(named, none, show, Some(id)) == Some("[you]"@)
            &&& mention_line(bare, none, show, Some(id)) == Some("[you]"@)
            &&& mention_line(seq![], seq![id], show, Some(own)) == mention_line(
                bare,
                none,
                show,
                Some(own),
            )
            &&& mention_line(seq![], none, show, Some(own)) is None
        }),
{
    let none = Seq::<Seq<char>>::empty();
    let nobody = Seq::<MentionModel>::empty();
    let n = MentionModel { user_id: id, display_name: Some(name) };
    let b = MentionModel { user_id: id, display_name: None };
    assert(seq![n].drop_last() =~= nobody);
    assert(seq![b].drop_last() =~= nobody);
    assert(mentions_shown(nobody, show, Some(own)) =~= none);
    assert(mentions_shown(nobody, show, Some(id)) =~= none);
    assert(none + mention_shown(n, show, Some(own)) =~= mention_shown(n, show, Some(own)));
    assert(none + mention_shown(b, show, Some(own)) =~= mention_shown(b, show, Some(own)));
    assert(none + mention_shown(n, show, Some(id)) =~= mention_shown(n, show, Some(id)));
    assert(none + mention_shown(b, show, Some(id)) =~= mention_shown(b, show, Some(id)));
    assert(all_mentions(nobody, seq![id]) =~= seq![b]);
    assert(all_mentions(nobody, none) =~= nobody);
}

/// Several are shown one after the other, in the order of their mention.
pub proof fn law_mentions_are_shown_in_order(
    a: Seq<MentionModel>,
    b: Seq<MentionModel>,
    show: bool,
    own: Option<Seq<char>>,
)
    ensures
        mentions_shown(a + b, show, own) == mentions_shown(a, show, own) + mentions_shown(
            b,
            show,
            own,
        ),
    decreases b.len(),
{
    if b.len() == 0 {
        assert(a + b =~= a);
        assert(mentions_shown(a, show, own) + seq![] =~= mentions_shown(a, show, own));
    } else {
        law_mentions_are_shown_in_order(a, b.drop_last(), show, own);
        assert((a + b).drop_last() =~= a + b.drop_last());
        let x = mentions_shown(a, show, own);
        let y = mentions_shown(b.drop_last(), show, own);
        let z = mention_shown(b.last(), show, own);
        assert(x + y + z =~= x + (y + z));
    }
}

} // verus!
