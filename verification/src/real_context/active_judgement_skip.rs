//! The list of members whose messages are not judged for an answer.

use crate::arguments::{integer_of, scalar_integer, Argument, Arguments, Scalar};
use crate::message_history::deletion::{LiveMessage, LiveMessageModel};
use crate::numbers::{
    decimal, decimal_int, decimal_int_text, i64_value, law_decimal_reads_back,
    law_numbers_read_back, parse_i64,
};
use crate::platform::{Conversation, ConversationModel, ScopeKey, ScopeKeyModel};
use crate::text::{
    is_digit, is_white, law_plain_white_space, law_trimmed_stays, opt_text, opt_view, res_text,
    same, trim, trimmed, views,
};
use vstd::prelude::*;
use vstd::string::*;

verus! {

/// The key of the list.
pub const STATE_KEY: &'static str = "active_judgement_skip_user_ids";

/// How many members the list holds at most.
pub const MAX_SKIP_USER_IDS: usize = 10000;

/// How many lists are remembered at most.
pub const MAX_CACHE_ENTRIES: usize = 128;

/// How long a remembered list is used without asking, in milliseconds.
pub const CACHE_RECHECK_MS: u64 = 250;

/// The place where the list is kept. `account_scope` stands for all accounts.
pub fn state_scope(account_scope: &str) -> (r: ScopeKey)
    ensures
        r@ == (ScopeKeyModel {
            plugin_id: "real_context"@,
            platform: "onebot"@,
            account_id: account_scope@,
            conversation_kind: "global"@,
            conversation_id: account_scope@,
        }),
{
    ScopeKey {
        plugin_id: "real_context".to_owned(),
        platform: "onebot".to_owned(),
        account_id: account_scope.to_owned(),
        conversation_kind: "global".to_owned(),
        conversation_id: account_scope.to_owned(),
    }
}

// ---------------------------------------------------------------------------
// Sets of numbers as ascending lists

/// Whether a list is strictly ascending.
pub open spec fn ascending(s: Seq<i64>) -> bool {
    forall|i: int, j: int| 0 <= i < j < s.len() ==> #[trigger] s[i] < #[trigger] s[j]
}

/// `s` with `x` in its place, unless it is there.
pub open spec fn with_id(s: Seq<i64>, x: i64) -> Seq<i64>
    decreases s.len(),
{
    if s.len() == 0 {
        seq![x]
    } else if s[0] == x {
        s
    } else if x < s[0] {
        seq![x] + s
    } else {
        seq![s[0]] + with_id(s.drop_first(), x)
    }
}

/// `s` without `x`.
pub open spec fn without_id(s: Seq<i64>, x: i64) -> Seq<i64>
    decreases s.len(),
{
    if s.len() == 0 {
        s
    } else if s[0] == x {
        s.drop_first()
    } else {
        seq![s[0]] + without_id(s.drop_first(), x)
    }
}

/// `s` with all of `more`.
pub open spec fn with_ids(s: Seq<i64>, more: Seq<i64>) -> Seq<i64>
    decreases more.len(),
{
    if more.len() == 0 {
        s
    } else {
        with_id(with_ids(s, more.drop_last()), more.last())
    }
}

/// `s` without those of `less` that are not in `kept`.
pub open spec fn without_ids(s: Seq<i64>, less: Seq<i64>, kept: Seq<i64>) -> Seq<i64>
    decreases less.len(),
{
    if less.len() == 0 {
        s
    } else {
        let before = without_ids(s, less.drop_last(), kept);
        if kept.contains(less.last()) {
            before
        } else {
            without_id(before, less.last())
        }
    }
}

proof fn lemma_with_id(s: Seq<i64>, x: i64)
    requires
        ascending(s),
    ensures
        ascending(with_id(s, x)),
        forall|y: i64| #[trigger] with_id(s, x).contains(y) <==> s.contains(y) || y == x,
    decreases s.len(),
{
    let r = with_id(s, x);
    if s.len() == 0 {
        assert(r[0] == x);
    } else if s[0] == x {
        assert(s.contains(x)) by {
            assert(s[0] == x);
        }
    } else if x < s[0] {
        assert forall|i: int, j: int| 0 <= i < j < r.len() implies #[trigger] r[i]
            < #[trigger] r[j] by {
            assert(r[j] == s[j - 1]);
            if i > 0 {
                assert(r[i] == s[i - 1]);
            } else if j > 1 {
                assert(s[0] < s[j - 1]);
            }
        }
        assert forall|y: i64| #[trigger] r.contains(y) <==> s.contains(y) || y == x by {
            if s.contains(y) {
                let k = choose|k: int| 0 <= k < s.len() && s[k] == y;
                assert(r[k + 1] == y);
            }
            if y == x {
                assert(r[0] == y);
            }
            if r.contains(y) {
                let k = choose|k: int| 0 <= k < r.len() && r[k] == y;
                if k > 0 {
                    assert(s[k - 1] == y);
                }
            }
        }
    } else {
        let t = s.drop_first();
        assert(ascending(t)) by {
            assert forall|i: int, j: int| 0 <= i < j < t.len() implies #[trigger] t[i]
                < #[trigger] t[j] by {
                assert(t[i] == s[i + 1]);
                assert(t[j] == s[j + 1]);
            }
        }
        lemma_with_id(t, x);
        let rest = with_id(t, x);
        assert forall|i: int, j: int| 0 <= i < j < r.len() implies #[trigger] r[i]
            < #[trigger] r[j] by {
            assert(r[j] == rest[j - 1]);
            if i > 0 {
                assert(r[i] == rest[i - 1]);
            } else {
                assert(rest.contains(rest[j - 1]));
                if rest[j - 1] != x {
                    assert(t.contains(rest[j - 1]));
                    let k = choose|k: int| 0 <= k < t.len() && t[k] == rest[j - 1];
                    assert(s[k + 1] == rest[j - 1]);
                }
            }
        }
        assert forall|y: i64| #[trigger] r.contains(y) <==> s.contains(y) || y == x by {
            if s.contains(y) {
                let k = choose|k: int| 0 <= k < s.len() && s[k] == y;
                if k == 0 {
                    assert(r[0] == y);
                } else {
                    assert(t[k - 1] == y);
                    assert(rest.contains(y));
                    let m = choose|m: int| 0 <= m < rest.len() && rest[m] == y;
                    assert(r[m + 1] == y);
                }
            }
            if y == x {
                assert(rest.contains(y));
                let m = choose|m: int| 0 <= m < rest.len() && rest[m] == y;
                assert(r[m + 1] == y);
            }
            if r.contains(y) {
                let k = choose|k: int| 0 <= k < r.len() && r[k] == y;
                if k == 0 {
                    assert(s[0] == y);
                } else {
                    assert(rest[k - 1] == y);
                    assert(rest.contains(y));
                    if y != x {
                        assert(t.contains(y));
                        let m = choose|m: int| 0 <= m < t.len() && t[m] == y;
                        assert(s[m + 1] == y);
                    }
                }
            }
        }
    }
}

proof fn lemma_without_id(s: Seq<i64>, x: i64)
    requires
        ascending(s),
    ensures
        ascending(without_id(s, x)),
        forall|y: i64| #[trigger] without_id(s, x).contains(y) <==> s.contains(y) && y != x,
    decreases s.len(),
{
    let r = without_id(s, x);
    if s.len() > 0 {
        let t = s.drop_first();
        assert(ascending(t)) by {
            assert forall|i: int, j: int| 0 <= i < j < t.len() implies #[trigger] t[i]
                < #[trigger] t[j] by {
                assert(t[i] == s[i + 1]);
                assert(t[j] == s[j + 1]);
            }
        }
        if s[0] == x {
            assert forall|y: i64| #[trigger] r.contains(y) <==> s.contains(y) && y != x by {
                if s.contains(y) && y != x {
                    let k = choose|k: int| 0 <= k < s.len() && s[k] == y;
                    assert(r[k - 1] == y);
                }
                if r.contains(y) {
                    let k = choose|k: int| 0 <= k < r.len() && r[k] == y;
                    assert(s[k + 1] == y);
                    assert(s[0] < s[k + 1]);
                }
            }
        } else {
            lemma_without_id(t, x);
            let rest = without_id(t, x);
            assert forall|i: int, j: int| 0 <= i < j < r.len() implies #[trigger] r[i]
                < #[trigger] r[j] by {
                assert(r[j] == rest[j - 1]);
                if i > 0 {
                    assert(r[i] == rest[i - 1]);
                } else {
                    assert(rest.contains(rest[j - 1]));
                    assert(t.contains(rest[j - 1]));
                    let k = choose|k: int| 0 <= k < t.len() && t[k] == rest[j - 1];
                    assert(s[k + 1] == rest[j - 1]);
                }
            }
            assert forall|y: i64| #[trigger] r.contains(y) <==> s.contains(y) && y != x by {
                if s.contains(y) && y != x {
                    let k = choose|k: int| 0 <= k < s.len() && s[k] == y;
                    if k == 0 {
                        assert(r[0] == y);
                    } else {
                        assert(t[k - 1] == y);
                        assert(rest.contains(y));
                        let m = choose|m: int| 0 <= m < rest.len() && rest[m] == y;
                        assert(r[m + 1] == y);
                    }
                }
                if r.contains(y) {
                    let k = choose|k: int| 0 <= k < r.len() && r[k] == y;
                    if k == 0 {
                        assert(s[0] == y);
                    } else {
                        assert(rest[k - 1] == y);
                        assert(rest.contains(y));
                        assert(t.contains(y));
                        let m = choose|m: int| 0 <= m < t.len() && t[m] == y;
                        assert(s[m + 1] == y);
                    }
                }
            }
        }
    }
}

proof fn lemma_with_ids(s: Seq<i64>, more: Seq<i64>)
    requires
        ascending(s),
    ensures
        ascending(with_ids(s, more)),
        forall|y: i64| #[trigger] with_ids(s, more).contains(y) <==> s.contains(y) || more.contains(y),
    decreases more.len(),
{
    if more.len() > 0 {
        let m = more.drop_last();
        lemma_with_ids(s, m);
        lemma_with_id(with_ids(s, m), more.last());
        assert forall|y: i64| #[trigger] with_ids(s, more).contains(y) <==> s.contains(y)
            || more.contains(y) by {
            assert(with_ids(s, m).contains(y) <==> s.contains(y) || m.contains(y));
            if more.contains(y) && y != more.last() {
                let k = choose|k: int| 0 <= k < more.len() && more[k] == y;
                assert(m[k] == y);
            }
            if m.contains(y) {
                let k = choose|k: int| 0 <= k < m.len() && m[k] == y;
                assert(more[k] == y);
            }
            if y == more.last() {
                assert(more[more.len() - 1] == y);
            }
        }
    }
}

proof fn lemma_without_ids(s: Seq<i64>, less: Seq<i64>, kept: Seq<i64>)
    requires
        ascending(s),
    ensures
        ascending(without_ids(s, less, kept)),
        forall|y: i64|
            #[trigger] without_ids(s, less, kept).contains(y) <==> s.contains(y) && !(less.contains(
                y,
            ) && !kept.contains(y)),
    decreases less.len(),
{
    if less.len() > 0 {
        let l = less.drop_last();
        lemma_without_ids(s, l, kept);
        let before = without_ids(s, l, kept);
        lemma_without_id(before, less.last());
        assert forall|y: i64|
            #[trigger] without_ids(s, less, kept).contains(y) <==> s.contains(y) && !(less.contains(
                y,
            ) && !kept.contains(y)) by {
            assert(before.contains(y) <==> s.contains(y) && !(l.contains(y) && !kept.contains(y)));
            if less.contains(y) && y != less.last() {
                let k = choose|k: int| 0 <= k < less.len() && less[k] == y;
                assert(l[k] == y);
            }
            if l.contains(y) {
                let k = choose|k: int| 0 <= k < l.len() && l[k] == y;
                assert(less[k] == y);
            }
            if y == less.last() {
                assert(less[less.len() - 1] == y);
            }
        }
    }
}

fn list_contains(list: &Vec<i64>, x: i64) -> (r: bool)
    ensures
        r == list@.contains(x),
{
    let mut i: usize = 0;
    while i < list.len()
        invariant
            i <= list.len(),
            forall|j: int| 0 <= j < i ==> list@[j] != x,
        decreases list.len() - i,
    {
        if list[i] == x {
            assert(list@[i as int] == x);
            return true;
        }
        i += 1;
    }
    false
}

fn insert_id(list: &mut Vec<i64>, x: i64)
    ensures
        final(list)@ == with_id(old(list)@, x),
{
    let ghost all = list@;
    let mut i: usize = 0;
    assert(all.skip(0) =~= all);
    assert(all.take(0) + with_id(all, x) =~= with_id(all, x));
    while i < list.len()
        invariant
            i <= list.len(),
            *list == *old(list),
            all == list@,
            all.take(i as int) + with_id(all.skip(i as int), x) == with_id(all, x),
        decreases list.len() - i,
    {
        let ghost rest = all.skip(i as int);
        assert(rest[0] == list@[i as int]);
        if list[i] == x {
            assert(all.take(i as int) + rest =~= all);
            return;
        }
        if x < list[i] {
            list.insert(i, x);
            assert(list@ =~= all.take(i as int) + (seq![x] + rest));
            return;
        }
        assert(rest.drop_first() =~= all.skip(i + 1));
        assert(all.take(i + 1) + with_id(all.skip(i + 1), x) =~= all.take(i as int) + (seq![rest[0]]
            + with_id(rest.drop_first(), x)));
        i += 1;
    }
    assert(all.skip(list.len() as int) =~= seq![]);
    list.push(x);
    assert(list@ =~= all.take(all.len() as int) + seq![x]);
}

fn remove_id(list: &mut Vec<i64>, x: i64)
    ensures
        final(list)@ == without_id(old(list)@, x),
{
    let ghost all = list@;
    let mut i: usize = 0;
    assert(all.skip(0) =~= all);
    assert(all.take(0) + without_id(all, x) =~= without_id(all, x));
    while i < list.len()
        invariant
            i <= list.len(),
            *list == *old(list),
            all == list@,
            all.take(i as int) + without_id(all.skip(i as int), x) == without_id(all, x),
        decreases list.len() - i,
    {
        let ghost rest = all.skip(i as int);
        assert(rest[0] == list@[i as int]);
        if list[i] == x {
            list.remove(i);
            assert(list@ =~= all.take(i as int) + rest.drop_first());
            return;
        }
        assert(rest.drop_first() =~= all.skip(i + 1));
        assert(all.take(i + 1) + without_id(all.skip(i + 1), x) =~= all.take(i as int) + (
        seq![rest[0]] + without_id(rest.drop_first(), x)));
        i += 1;
    }
    assert(all.skip(list.len() as int) =~= seq![]);
    assert(all.take(all.len() as int) + Seq::<i64>::empty() =~= all);
}

/// The numbers of a list, each once and in ascending order.
pub open spec fn id_set(s: Seq<i64>) -> Seq<i64> {
    with_ids(Seq::empty(), s)
}

/// The numbers of a list stand in its set and no others do, each once and in ascending
/// order.
pub proof fn law_id_set(s: Seq<i64>)
    ensures
        ascending(id_set(s)),
        forall|y: i64| #[trigger] id_set(s).contains(y) <==> s.contains(y),
{
    lemma_with_ids(Seq::empty(), s);
    assert forall|y: i64| #[trigger] id_set(s).contains(y) <==> s.contains(y) by {
        assert(with_ids(Seq::empty(), s).contains(y) <==> Seq::<i64>::empty().contains(y)
            || s.contains(y));
    }
}

fn collected(ids: &Vec<i64>) -> (r: Vec<i64>)
    ensures
        r@ == id_set(ids@),
{
    let mut out: Vec<i64> = Vec::new();
    let mut i: usize = 0;
    assert(ids@.take(0) =~= seq![]);
    while i < ids.len()
        invariant
            i <= ids.len(),
            out@ == with_ids(Seq::empty(), ids@.take(i as int)),
        decreases ids.len() - i,
    {
        assert(ids@.take(i + 1).drop_last() =~= ids@.take(i as int));
        insert_id(&mut out, ids[i]);
        i += 1;
    }
    assert(ids@.take(ids.len() as int) =~= ids@);
    out
}

// ---------------------------------------------------------------------------
// The list

/// Whether a list may be kept: not too long, and only positive numbers.
pub open spec fn ids_verdict(s: Seq<i64>) -> Result<(), Seq<char>> {
    if s.len() > MAX_SKIP_USER_IDS {
        Err("active judgement skip list cannot exceed 10000 QQ ids"@)
    } else if exists|i: int| 0 <= i < s.len() && #[trigger] s[i] <= 0 {
        Err("active judgement skip list contains an invalid QQ id"@)
    } else {
        Ok(())
    }
}

/// Whether a list may be kept.
pub fn validate_ids(ids: &Vec<i64>) -> (r: Result<(), String>)
    ensures
        res_text(r) == ids_verdict(ids@),
{
    if ids.len() > MAX_SKIP_USER_IDS {
        return Err("active judgement skip list cannot exceed 10000 QQ ids".to_owned());
    }
    let mut i: usize = 0;
    while i < ids.len()
        invariant
            i <= ids.len(),
            ids.len() <= MAX_SKIP_USER_IDS,
            forall|j: int| 0 <= j < i ==> #[trigger] ids@[j] > 0,
        decreases ids.len() - i,
    {
        if ids[i] <= 0 {
            assert(ids@[i as int] <= 0);
            return Err("active judgement skip list contains an invalid QQ id".to_owned());
        }
        i += 1;
    }
    Ok(())
}

/// A result with a list in it, as values.
pub open spec fn res_list(r: Result<Vec<i64>, String>) -> Result<Seq<i64>, Seq<char>> {
    match r {
        Ok(v) => Ok(v@),
        Err(e) => Err(e@),
    }
}

/// The list that was kept, where it may be used: each number once, in ascending order.
pub fn load_ids(stored: &Vec<i64>) -> (r: Result<Vec<i64>, String>)
    ensures
        res_list(r) == (match ids_verdict(id_set(stored@)) {
            Ok(_) => Ok(id_set(stored@)),
            Err(e) => Err(e),
        }),
        r is Ok ==> ascending(r->Ok_0@),
{
    proof {
        law_id_set(stored@);
    }
    let ids: Vec<i64> = collected(stored);
    match validate_ids(&ids) {
        Ok(_) => Ok(ids),
        Err(e) => Err(e),
    }
}

/// The number of a sender.
pub open spec fn sender_number(user_id: Seq<char>) -> Result<i64, Seq<char>> {
    match i64_value(trim(user_id)) {
        Some(n) => if n > 0 {
            Ok(n)
        } else {
            Err("QQ sender id must be a positive integer"@)
        },
        None => Err("QQ sender id must be a positive integer"@),
    }
}

/// Whether a sender is on the list.
pub fn contains(ids: &Vec<i64>, user_id: &str) -> (r: Result<bool, String>)
    ensures
        res_text(r) == (match sender_number(user_id@) {
            Ok(n) => Ok(ids@.contains(n)),
            Err(e) => Err(e),
        }),
{
    let t: String = trimmed(user_id);
    match parse_i64(&t) {
        Some(n) => {
            if n > 0 {
                Ok(list_contains(ids, n))
            } else {
                Err("QQ sender id must be a positive integer".to_owned())
            }
        }
        None => Err("QQ sender id must be a positive integer".to_owned()),
    }
}

/// The list after an editor's changes: what the editor added is added, what it took
/// out is taken out, and what others changed meanwhile stays.
pub open spec fn edited_list(current: Seq<i64>, original: Seq<i64>, edited: Seq<i64>) -> Seq<i64> {
    with_ids(without_ids(current, original, edited), edited_additions(original, edited))
}

/// What an editor added.
pub open spec fn edited_additions(original: Seq<i64>, edited: Seq<i64>) -> Seq<i64>
    decreases edited.len(),
{
    if edited.len() == 0 {
        seq![]
    } else {
        let before = edited_additions(original, edited.drop_last());
        if original.contains(edited.last()) {
            before
        } else {
            before.push(edited.last())
        }
    }
}

proof fn lemma_additions(original: Seq<i64>, edited: Seq<i64>)
    ensures
        forall|y: i64|
            #[trigger] edited_additions(original, edited).contains(y) <==> edited.contains(y)
                && !original.contains(y),
    decreases edited.len(),
{
    if edited.len() > 0 {
        let e = edited.drop_last();
        lemma_additions(original, e);
        let b = edited_additions(original, e);
        let r = edited_additions(original, edited);
        assert forall|y: i64| #[trigger] r.contains(y) <==> edited.contains(y) && !original.contains(
            y,
        ) by {
            assert(b.contains(y) <==> e.contains(y) && !original.contains(y));
            if edited.contains(y) && y != edited.last() {
                let k = choose|k: int| 0 <= k < edited.len() && edited[k] == y;
                assert(e[k] == y);
            }
            if e.contains(y) {
                let k = choose|k: int| 0 <= k < e.len() && e[k] == y;
                assert(edited[k] == y);
            }
            if y == edited.last() {
                assert(edited[edited.len() - 1] == y);
            }
            if b.contains(y) {
                let k = choose|k: int| 0 <= k < b.len() && b[k] == y;
                assert(r[k] == y);
            }
            if r.contains(y) {
                let k = choose|k: int| 0 <= k < r.len() && r[k] == y;
                if k < b.len() {
                    assert(b[k] == y);
                }
            }
            if y == edited.last() && !original.contains(y) {
                assert(r[r.len() - 1] == y);
            }
        }
    }
}

/// After an editor's changes the list is ascending, and a number is on it exactly
/// if the editor added it, or it was on the current list and the editor did not
/// take it out.
pub proof fn law_editor_keeps_unrelated_changes(
    current: Seq<i64>,
    original: Seq<i64>,
    edited: Seq<i64>,
)
    requires
        ascending(current),
    ensures
        ascending(edited_list(current, original, edited)),
        forall|y: i64|
            #[trigger] edited_list(current, original, edited).contains(y) <==> (edited.contains(y)
                && !original.contains(y)) || (current.contains(y) && !(original.contains(y)
                && !edited.contains(y))),
{
    lemma_without_ids(current, original, edited);
    lemma_additions(original, edited);
    lemma_with_ids(
        without_ids(current, original, edited),
        edited_additions(original, edited),
    );
    assert forall|y: i64|
        #[trigger] edited_list(current, original, edited).contains(y) <==> (edited.contains(y)
            && !original.contains(y)) || (current.contains(y) && !(original.contains(y)
            && !edited.contains(y))) by {
        assert(without_ids(current, original, edited).contains(y) <==> current.contains(y) && !(
        original.contains(y) && !edited.contains(y)));
        assert(edited_additions(original, edited).contains(y) <==> edited.contains(y)
            && !original.contains(y));
    }
}

/// The list after an editor's changes, or why they are refused.
pub open spec fn editor_result(current: Seq<i64>, original: Seq<i64>, edited: Seq<i64>) -> Result<
    Seq<i64>,
    Seq<char>,
> {
    let c = id_set(current);
    let o = id_set(original);
    let e = id_set(edited);
    match ids_verdict(o) {
        Err(m) => Err(m),
        Ok(_) => match ids_verdict(e) {
            Err(m) => Err(m),
            Ok(_) => match ids_verdict(c) {
                Err(m) => Err(m),
                Ok(_) => match ids_verdict(edited_list(c, o, e)) {
                    Err(m) => Err(m),
                    Ok(_) => Ok(edited_list(c, o, e)),
                },
            },
        },
    }
}

/// The list after an editor's changes from `original` to `edited`, applied to what
/// the list is now.
pub fn apply_active_judgement_skip_editor_changes(
    current: &Vec<i64>,
    original: &Vec<i64>,
    edited: &Vec<i64>,
) -> (r: Result<Vec<i64>, String>)
    ensures
        res_list(r) == editor_result(current@, original@, edited@),
        r is Ok ==> ascending(r->Ok_0@),
{
    proof {
        law_id_set(current@);
        law_editor_keeps_unrelated_changes(
            id_set(current@),
            id_set(original@),
            id_set(edited@),
        );
    }
    let current: Vec<i64> = collected(current);
    let o: Vec<i64> = collected(original);
    let e: Vec<i64> = collected(edited);
    match validate_ids(&o) {
        Err(m) => {
            return Err(m);
        }
        Ok(_) => {}
    }
    match validate_ids(&e) {
        Err(m) => {
            return Err(m);
        }
        Ok(_) => {}
    }
    match validate_ids(&current) {
        Err(m) => {
            return Err(m);
        }
        Ok(_) => {}
    }
    let ghost start = current@;
    let mut list: Vec<i64> = current;
    let mut i: usize = 0;
    assert(o@.take(0) =~= seq![]);
    while i < o.len()
        invariant
            i <= o.len(),
            list@ == without_ids(start, o@.take(i as int), e@),
        decreases o.len() - i,
    {
        assert(o@.take(i + 1).drop_last() =~= o@.take(i as int));
        if !list_contains(&e, o[i]) {
            remove_id(&mut list, o[i]);
        }
        i += 1;
    }
    assert(o@.take(o.len() as int) =~= o@);
    let ghost mid = list@;
    let mut k: usize = 0;
    assert(e@.take(0) =~= seq![]);
    while k < e.len()
        invariant
            k <= e.len(),
            list@ == with_ids(mid, edited_additions(o@, e@.take(k as int))),
        decreases e.len() - k,
    {
        assert(e@.take(k + 1).drop_last() =~= e@.take(k as int));
        if !list_contains(&o, e[k]) {
            insert_id(&mut list, e[k]);
            let ghost before = edited_additions(o@, e@.take(k as int));
            assert(before.push(e@[k as int]).drop_last() =~= before);
        }
        k += 1;
    }
    assert(e@.take(e.len() as int) =~= e@);
    match validate_ids(&list) {
        Err(m) => Err(m),
        Ok(_) => Ok(list),
    }
}

/// A change of the list.
#[derive(Clone, Copy, Debug, PartialEq, Eq, Structural)]
pub enum Mutation {
    Add,
    Remove,
}

/// What a change came to.
#[derive(Clone, Copy, Debug, PartialEq, Eq, Structural)]
pub enum MutationOutcome {
    Added,
    AlreadyPresent,
    Removed,
    NotPresent,
}

/// The list after a change, and what the change came to.
pub open spec fn mutated(current: Seq<i64>, user_id: i64, mutation: Mutation) -> (
    Seq<i64>,
    MutationOutcome,
) {
    let there = current.contains(user_id);
    match mutation {
        Mutation::Add => if there {
            (current, MutationOutcome::AlreadyPresent)
        } else {
            (with_id(current, user_id), MutationOutcome::Added)
        },
        Mutation::Remove => if there {
            (without_id(current, user_id), MutationOutcome::Removed)
        } else {
            (current, MutationOutcome::NotPresent)
        },
    }
}

/// The list after a change and what the change came to, or why it is refused.
pub open spec fn mutation_result(current: Seq<i64>, user_id: i64, mutation: Mutation) -> Result<
    (Seq<i64>, MutationOutcome),
    Seq<char>,
> {
    if user_id <= 0 {
        Err("qq_id must be a positive integer"@)
    } else {
        match ids_verdict(id_set(current)) {
            Err(m) => Err(m),
            Ok(_) => {
                let after = mutated(id_set(current), user_id, mutation);
                match ids_verdict(after.0) {
                    Err(m) => Err(m),
                    Ok(_) => Ok(after),
                }
            },
        }
    }
}

/// Changes the list, which comes out with each number once, in ascending order; a
/// change that comes to nothing leaves its numbers as they are.
pub fn mutate(current: &Vec<i64>, user_id: i64, mutation: Mutation) -> (r: Result<
    (Vec<i64>, MutationOutcome),
    String,
>)
    ensures
        (match r {
            Ok(x) => Ok((x.0@, x.1)),
            Err(e) => Err(e@),
        }) == mutation_result(current@, user_id, mutation),
        r is Ok ==> ascending(r->Ok_0.0@),
{
    if user_id <= 0 {
        return Err("qq_id must be a positive integer".to_owned());
    }
    proof {
        law_id_set(current@);
        law_mutation_is_idempotent(id_set(current@), user_id, mutation);
    }
    let current: Vec<i64> = collected(current);
    match validate_ids(&current) {
        Err(m) => {
            return Err(m);
        }
        Ok(_) => {}
    }
    let there: bool = list_contains(&current, user_id);
    let mut list: Vec<i64> = current;
    let outcome: MutationOutcome = match mutation {
        Mutation::Add => if there {
            MutationOutcome::AlreadyPresent
        } else {
            insert_id(&mut list, user_id);
            MutationOutcome::Added
        },
        Mutation::Remove => if there {
            remove_id(&mut list, user_id);
            MutationOutcome::Removed
        } else {
            MutationOutcome::NotPresent
        },
    };
    match validate_ids(&list) {
        Err(m) => Err(m),
        Ok(_) => Ok((list, outcome)),
    }
}

/// A change leaves the list ascending; after an addition the number is on it and
/// nothing else changed, after a removal it is not; making a change twice is making
/// it once.
pub proof fn law_mutation_is_idempotent(current: Seq<i64>, user_id: i64, mutation: Mutation)
    requires
        ascending(current),
    ensures
        ({
            let after = mutated(current, user_id, mutation).0;
            &&& ascending(after)
            &&& after.contains(user_id) == (mutation == Mutation::Add)
            &&& forall|y: i64|
                y != user_id ==> (#[trigger] after.contains(y) <==> current.contains(y))
            &&& mutated(after, user_id, mutation).0 == after
        }),
{
    lemma_with_id(current, user_id);
    lemma_without_id(current, user_id);
    let after = mutated(current, user_id, mutation).0;
    if mutation == Mutation::Add {
        assert(with_id(current, user_id).contains(user_id));
    } else {
        assert(!without_id(current, user_id).contains(user_id));
    }
    assert forall|y: i64| y != user_id implies (#[trigger] after.contains(y) <==> current.contains(
        y,
    )) by {
        assert(with_id(current, user_id).contains(y) <==> current.contains(y) || y == user_id);
        assert(without_id(current, user_id).contains(y) <==> current.contains(y) && y != user_id);
    }
}

// ---------------------------------------------------------------------------
// The tools

/// Whether the message that the turn answers shows who asks.
pub open spec fn live_manager(
    event: Option<LiveMessageModel>,
    sender_id: Seq<char>,
    c: ConversationModel,
) -> Result<(), Seq<char>> {
    if c.platform != "onebot"@ {
        Err("active judgement skip management requires OneBot"@)
    } else {
        match event {
            None => Err("active judgement skip management requires a live platform message"@),
            Some(e) => if !e.is_message || e.sender_id != sender_id || e.conversation != c {
                Err(
                    "active judgement skip administrator identity does not match the current message"@,
                )
            } else {
                Ok(())
            },
        }
    }
}

/// Whether the message that the turn answers shows who asks: on QQ, a message and
/// no notice, of the sender, in the conversation.
pub fn require_live_message(
    event: &Option<LiveMessage>,
    sender_id: &str,
    conversation: &Conversation,
) -> (r: Result<(), String>)
    ensures
        res_text(r) == live_manager(opt_view(*event), sender_id@, conversation@),
{
    if !same(&conversation.platform, "onebot") {
        return Err("active judgement skip management requires OneBot".to_owned());
    }
    match event {
        None => Err(
            "active judgement skip management requires a live platform message".to_owned(),
        ),
        Some(e) => {
            let c: &Conversation = &e.conversation;
            let matches: bool = same(&c.platform, &conversation.platform) && same(
                &c.account_id,
                &conversation.account_id,
            ) && c.kind == conversation.kind && same(
                &c.conversation_id,
                &conversation.conversation_id,
            );
            assert(matches == (c@ == conversation@));
            if !e.is_message || !same(&e.sender_id, sender_id) || !matches {
                return Err(
                    "active judgement skip administrator identity does not match the current message".to_owned(),
                );
            }
            Ok(())
        }
    }
}

/// The number that the argument `qq_id` names.
pub open spec fn qq_id_spec(args: Arguments) -> Result<i64, Seq<char>> {
    let n = match args.at("qq_id"@) {
        Some(Argument::One(Scalar::Text(s))) => i64_value(trim(s@)),
        Some(Argument::One(v)) => scalar_integer(v),
        _ => None,
    };
    match n {
        Some(id) => if id > 0 {
            Ok(id)
        } else {
            Err("qq_id must be a positive integer"@)
        },
        None => Err("qq_id must be a positive integer"@),
    }
}

/// The number that the argument `qq_id` names, as a number or as text.
pub fn qq_id(args: &Arguments) -> (r: Result<i64, String>)
    ensures
        res_text(r) == qq_id_spec(*args),
{
    let n: Option<i64> = match args.get("qq_id") {
        Some(Argument::One(v)) => match v {
            Scalar::Text(s) => {
                let t: String = trimmed(s);
                parse_i64(&t)
            }
            _ => integer_of(v),
        },
        _ => None,
    };
    match n {
        Some(id) => if id > 0 {
            Ok(id)
        } else {
            Err("qq_id must be a positive integer".to_owned())
        },
        None => Err("qq_id must be a positive integer".to_owned()),
    }
}

/// What is said of a change.
pub open spec fn outcome_words(outcome: MutationOutcome, user_id: i64) -> Seq<char> {
    (match outcome {
        MutationOutcome::Added => "已加入跳过主动判断名单："@,
        MutationOutcome::AlreadyPresent => "已在跳过主动判断名单中："@,
        MutationOutcome::Removed => "已移出跳过主动判断名单："@,
        MutationOutcome::NotPresent => "不在跳过主动判断名单中："@,
    }) + decimal_int(user_id as int)
}

/// What is said of a change.
pub fn response_text(outcome: MutationOutcome, user_id: i64) -> (r: String)
    ensures
        r@ == outcome_words(outcome, user_id),
{
    let mut out: String = match outcome {
        MutationOutcome::Added => "已加入跳过主动判断名单：".to_owned(),
        MutationOutcome::AlreadyPresent => "已在跳过主动判断名单中：".to_owned(),
        MutationOutcome::Removed => "已移出跳过主动判断名单：".to_owned(),
        MutationOutcome::NotPresent => "不在跳过主动判断名单中：".to_owned(),
    };
    let digits: String = decimal_int_text(user_id);
    out.append(&digits);
    out
}

/// What a call of a list tool comes to.
pub struct ToolOutcome {
    /// What is sent to the conversation.
    pub message: String,
    /// The list to be kept, where it was changed.
    pub ids: Option<Vec<i64>>,
    pub ok: bool,
}

/// What a [`ToolOutcome`] holds, as values.
#[verifier::ext_equal]
pub struct ToolOutcomeModel {
    pub message: Seq<char>,
    pub ids: Option<Seq<i64>>,
    pub ok: bool,
}

impl View for ToolOutcome {
    type V = ToolOutcomeModel;

    open spec fn view(&self) -> ToolOutcomeModel {
        ToolOutcomeModel {
            message: self.message@,
            ids: match self.ids { Some(v) => Some(v@), None => None },
            ok: self.ok,
        }
    }
}


/// What a call comes to: `current` is the list, nothing where the caller is no
/// administrator at the moment of the change.
pub open spec fn tool_outcome(
    live: Result<(), Seq<char>>,
    id: Result<i64, Seq<char>>,
    current: Option<Seq<i64>>,
    mutation: Mutation,
) -> ToolOutcomeModel {
    let failed = ToolOutcomeModel { message: "操作失败"@, ids: None, ok: false };
    match live {
        Err(_) => failed,
        Ok(_) => match id {
            Err(_) => failed,
            Ok(n) => match current {
                None => failed,
                Some(list) => match mutation_result(list, n, mutation) {
                    Err(_) => failed,
                    Ok(after) => ToolOutcomeModel {
                        message: outcome_words(after.1, n),
                        ids: Some(after.0),
                        ok: true,
                    },
                },
            },
        },
    }
}

/// What a call of a list tool comes to. Every failure is told in the same words.
pub fn run_tool(
    live: Result<(), String>,
    args: &Arguments,
    current: Option<Vec<i64>>,
    mutation: Mutation,
) -> (r: ToolOutcome)
    ensures
        r@ == tool_outcome(
            res_text(live),
            qq_id_spec(*args),
            match current {
                Some(v) => Some(v@),
                None => None,
            },
            mutation,
        ),
{
    if live.is_ok() {
        if let Ok(n) = qq_id(args) {
            if let Some(list) = current {
                if let Ok(after) = mutate(&list, n, mutation) {
                    return ToolOutcome {
                        message: response_text(after.1, n),
                        ids: Some(after.0),
                        ok: true,
                    };
                }
            }
        }
    }
    ToolOutcome { message: "操作失败".to_owned(), ids: None, ok: false }
}

/// Whether the list tools are offered: on QQ, to an administrator.
pub fn register_tools(platform: &str, is_admin: bool) -> (r: bool)
    ensures
        r == (platform@ == "onebot"@ && is_admin),
{
    same(platform, "onebot") && is_admin
}

// ---------------------------------------------------------------------------
// Remembering the list

/// A list that was read, and when.
pub struct CachedIds {
    /// Where it was read.
    pub key: String,
    pub revision: Option<String>,
    pub ids: Vec<i64>,
    pub checked_at: u64,
}

/// What a [`CachedIds`] holds, as values.
#[verifier::ext_equal]
pub struct CachedIdsModel {
    pub key: Seq<char>,
    pub revision: Option<Seq<char>>,
    pub ids: Seq<i64>,
    pub checked_at: u64,
}

impl View for CachedIds {
    type V = CachedIdsModel;

    open spec fn view(&self) -> CachedIdsModel {
        CachedIdsModel {
            key: self.key@,
            revision: opt_text(self.revision),
            ids: self.ids@,
            checked_at: self.checked_at,
        }
    }
}


/// The lists that were read.
pub struct IdCache {
    pub entries: Vec<CachedIds>,
}

/// What a [`IdCache`] holds, as values.
#[verifier::ext_equal]
pub struct IdCacheModel {
    pub entries: Seq<CachedIdsModel>,
}

impl View for IdCache {
    type V = IdCacheModel;

    open spec fn view(&self) -> IdCacheModel {
        IdCacheModel {
            entries: views(self.entries@),
        }
    }
}


impl IdCacheModel {
    /// Whether no place is remembered twice, and not too many are.
    pub open spec fn wf(self) -> bool {
        distinct_places(self.entries) && self.entries.len() <= MAX_CACHE_ENTRIES
    }
}

/// Where the list read at `key` stands; past the end if nowhere.
pub open spec fn cache_index(list: Seq<CachedIdsModel>, key: Seq<char>) -> int
    decreases list.len(),
{
    if list.len() == 0 || list[0].key == key {
        0
    } else {
        1 + cache_index(list.drop_first(), key)
    }
}

proof fn lemma_cache_index(list: Seq<CachedIdsModel>, key: Seq<char>, k: int)
    requires
        0 <= k <= list.len(),
        forall|j: int| 0 <= j < k ==> (#[trigger] list[j]).key != key,
        k == list.len() || list[k].key == key,
    ensures
        cache_index(list, key) == k,
    decreases list.len(),
{
    if k > 0 {
        assert(list[0].key != key);
        let t = list.drop_first();
        assert forall|j: int| 0 <= j < k - 1 implies (#[trigger] t[j]).key != key by {
            assert(t[j] == list[j + 1]);
        }
        lemma_cache_index(t, key, k - 1);
    }
}

/// The list read at `key`, where it was read so lately that it is used as it is.
pub open spec fn fresh_ids(list: Seq<CachedIdsModel>, key: Seq<char>, now: u64) -> Option<Seq<i64>> {
    let i = cache_index(list, key);
    if i < list.len() && (now < list[i].checked_at || now - list[i].checked_at < CACHE_RECHECK_MS) {
        Some(list[i].ids)
    } else {
        None
    }
}

/// The lists with one more that was read; where too many are remembered already, all
/// others are forgotten.
pub open spec fn with_entry(list: Seq<CachedIdsModel>, entry: CachedIdsModel) -> Seq<CachedIdsModel> {
    let i = cache_index(list, entry.key);
    if i < list.len() {
        list.update(i, entry)
    } else if list.len() >= MAX_CACHE_ENTRIES {
        seq![entry]
    } else {
        list.push(entry)
    }
}

/// The lists without the one read at `key`.
pub open spec fn without_entry(list: Seq<CachedIdsModel>, key: Seq<char>) -> Seq<CachedIdsModel> {
    let i = cache_index(list, key);
    if i < list.len() {
        list.remove(i)
    } else {
        list
    }
}

/// Whether no two lists were read at one place.
pub open spec fn distinct_places(list: Seq<CachedIdsModel>) -> bool {
    forall|i: int, j: int|
        0 <= i < j < list.len() ==> (#[trigger] list[i]).key != (#[trigger] list[j]).key
}

proof fn lemma_cache_found(list: Seq<CachedIdsModel>, key: Seq<char>)
    ensures
        0 <= cache_index(list, key) <= list.len(),
        cache_index(list, key) < list.len() ==> list[cache_index(list, key)].key == key,
        forall|j: int| 0 <= j < cache_index(list, key) ==> (#[trigger] list[j]).key != key,
    decreases list.len(),
{
    if list.len() > 0 && list[0].key != key {
        let t = list.drop_first();
        lemma_cache_found(t, key);
        assert forall|j: int| 0 <= j < cache_index(list, key) implies (#[trigger] list[j]).key
            != key by {
            if j > 0 {
                assert(list[j] == t[j - 1]);
            }
        }
    }
}

/// A list that was read is used as it is for a moment and no longer, what is remembered
/// is bounded, and no two lists of one place are remembered.
pub proof fn law_cache_reads_back(list: Seq<CachedIdsModel>, entry: CachedIdsModel, now: u64)
    requires
        distinct_places(list),
        list.len() <= MAX_CACHE_ENTRIES,
        entry.checked_at <= now,
    ensures
        fresh_ids(with_entry(list, entry), entry.key, now) == (if now - entry.checked_at
            < CACHE_RECHECK_MS {
            Some(entry.ids)
        } else {
            None
        }),
        distinct_places(with_entry(list, entry)),
        with_entry(list, entry).len() <= MAX_CACHE_ENTRIES,
{
    lemma_cache_found(list, entry.key);
    let i = cache_index(list, entry.key);
    let n = with_entry(list, entry);
    let k = if i < list.len() {
        i
    } else {
        n.len() - 1
    };
    assert forall|j: int| 0 <= j < k implies (#[trigger] n[j]).key != entry.key by {
        assert(n[j] == list[j]);
    }
    lemma_cache_index(n, entry.key, k);
    assert forall|a: int, b: int| 0 <= a < b < n.len() implies (#[trigger] n[a]).key != (
    #[trigger] n[b]).key by {
        if a < list.len() && b < list.len() {
            assert(list[a].key != list[b].key);
        }
    }
}

/// A list that was forgotten is read again before it is used.
pub proof fn law_forgotten_is_read_again(list: Seq<CachedIdsModel>, key: Seq<char>, now: u64)
    requires
        distinct_places(list),
    ensures
        fresh_ids(without_entry(list, key), key, now) is None,
        distinct_places(without_entry(list, key)),
{
    lemma_cache_found(list, key);
    let i = cache_index(list, key);
    let n = without_entry(list, key);
    assert forall|j: int| 0 <= j < n.len() implies (#[trigger] n[j]).key != key by {
        let x = if j < i { j } else { j + 1 };
        if i < list.len() {
            assert(n[j] == list[x]);
            if j >= i {
                assert(list[i].key != list[x].key);
            }
        }
    }
    lemma_cache_index(n, key, n.len() as int);
    assert forall|a: int, b: int| 0 <= a < b < n.len() implies (#[trigger] n[a]).key != (
    #[trigger] n[b]).key by {
        if i < list.len() {
            let x = if a < i { a } else { a + 1 };
            let y = if b < i { b } else { b + 1 };
            assert(n[a] == list[x]);
            assert(n[b] == list[y]);
        }
    }
}

fn copy_ids(ids: &Vec<i64>) -> (r: Vec<i64>)
    ensures
        r@ == ids@,
{
    let mut out: Vec<i64> = Vec::new();
    let mut i: usize = 0;
    while i < ids.len()
        invariant
            i <= ids.len(),
            out@ =~= ids@.take(i as int),
        decreases ids.len() - i,
    {
        out.push(ids[i]);
        i += 1;
    }
    assert(ids@.take(ids.len() as int) =~= ids@);
    out
}

fn same_revision(a: &Option<String>, b: &Option<String>) -> (r: bool)
    ensures
        r == (opt_text(*a) == opt_text(*b)),
{
    match (a, b) {
        (Some(x), Some(y)) => same(x, y),
        (None, None) => true,
        _ => false,
    }
}

impl IdCache {
    /// Nothing is remembered yet.
    pub fn new() -> (r: IdCache)
        ensures
            r@.entries == Seq::<CachedIdsModel>::empty(),
            r@.wf(),
    {
        let r: IdCache = IdCache { entries: Vec::new() };
        assert(r@.entries =~= Seq::empty());
        r
    }

    fn find(&self, key: &str) -> (r: usize)
        ensures
            r == cache_index(self@.entries, key@),
            r <= self.entries.len(),
    {
        let ghost all = self@.entries;
        let mut i: usize = 0;
        while i < self.entries.len() && !same(&self.entries[i].key, key)
            invariant
                i <= self.entries.len(),
                all == self@.entries,
                forall|j: int| 0 <= j < i ==> (#[trigger] all[j]).key != key@,
            decreases self.entries.len() - i,
        {
            assert(all[i as int] == self.entries@[i as int]@);
            i += 1;
        }
        proof {
            if i < self.entries.len() {
                assert(all[i as int] == self.entries@[i as int]@);
            }
            lemma_cache_index(all, key@, i as int);
        }
        i
    }

    /// The list read at `key`, where it was read so lately that it is used as it is.
    pub fn fresh(&self, key: &str, now: u64) -> (r: Option<Vec<i64>>)
        ensures
            (match r {
                Some(v) => Some(v@),
                None => None,
            }) == fresh_ids(self@.entries, key@, now),
    {
        let i: usize = self.find(key);
        if i < self.entries.len() {
            assert(self@.entries[i as int] == self.entries@[i as int]@);
            let at: u64 = self.entries[i].checked_at;
            if now < at || now - at < CACHE_RECHECK_MS {
                return Some(copy_ids(&self.entries[i].ids));
            }
        }
        None
    }

    /// The list read at `key`, where its revision is still `revision`; it then
    /// counts as read now.
    pub fn confirm(&mut self, key: &str, revision: &Option<String>, now: u64) -> (r: Option<Vec<i64>>)
        ensures
            ({
                let list = old(self)@.entries;
                let i = cache_index(list, key@);
                if i < list.len() && list[i].revision == opt_text(*revision) {
                    &&& r is Some
                    &&& r->0@ == list[i].ids
                    &&& final(self)@.entries == list.update(
                        i,
                        CachedIdsModel { checked_at: now, ..list[i] },
                    )
                } else {
                    r is None && *final(self) == *old(self)
                }
            }),
            old(self)@.wf() ==> final(self)@.wf(),
            confirmed_list(old(self)@.entries, key@, opt_text(*revision), now) == (
                match r {
                    Some(v) => Some(v@),
                    None => None,
                },
                final(self)@.entries,
            ),
    {
        let i: usize = self.find(key);
        if i < self.entries.len() {
            assert(self@.entries[i as int] == self.entries@[i as int]@);
            if same_revision(&self.entries[i].revision, revision) {
                let e: CachedIds = self.entries.remove(i);
                let ids: Vec<i64> = copy_ids(&e.ids);
                self.entries.insert(i, CachedIds { checked_at: now, ..e });
                assert(self@.entries =~= old(self)@.entries.update(
                    i as int,
                    CachedIdsModel { checked_at: now, ..old(self)@.entries[i as int] },
                ));
                assert(old(self)@.wf() ==> self@.wf()) by {
                    assert(forall|j: int|
                        0 <= j < self@.entries.len() ==> (#[trigger] self@.entries[j]).key
                            == old(self)@.entries[j].key);
                }
                return Some(ids);
            }
        }
        None
    }

    /// Remembers the list read at `key`; where too many are remembered already, all
    /// others are forgotten.
    pub fn store(&mut self, key: &str, revision: Option<String>, ids: Vec<i64>, now: u64)
        ensures
            ({
                let list = old(self)@.entries;
                let entry = CachedIdsModel {
                    key: key@,
                    revision: opt_text(revision),
                    ids: ids@,
                    checked_at: now,
                };
                final(self)@.entries == with_entry(list, entry)
            }),
            old(self)@.wf() ==> final(self)@.wf(),
    {
        let i: usize = self.find(key);
        let entry: CachedIds = CachedIds {
            key: key.to_owned(),
            revision: revision,
            ids: ids,
            checked_at: now,
        };
        proof {
            if old(self)@.wf() {
                law_cache_reads_back(old(self)@.entries, entry@, now);
            }
        }
        if i < self.entries.len() {
            self.entries.remove(i);
            self.entries.insert(i, entry);
            assert(self@.entries =~= old(self)@.entries.update(i as int, entry@));
        } else if self.entries.len() >= MAX_CACHE_ENTRIES {
            self.entries.clear();
            self.entries.push(entry);
            assert(self@.entries =~= seq![entry@]);
        } else {
            self.entries.push(entry);
            assert(self@.entries =~= old(self)@.entries.push(entry@));
        }
    }

    /// Forgets the list read at `key`.
    pub fn invalidate_cache(&mut self, key: &str)
        ensures
            final(self)@.entries == without_entry(old(self)@.entries, key@),
            old(self)@.wf() ==> final(self)@.wf(),
    {
        proof {
            if old(self)@.wf() {
                law_forgotten_is_read_again(old(self)@.entries, key@, 0);
            }
        }
        let i: usize = self.find(key);
        if i < self.entries.len() {
            self.entries.remove(i);
            assert(self@.entries =~= old(self)@.entries.remove(i as int));
        }
    }
}

// ---------------------------------------------------------------------------
// What the tool does

/// A list of members is one where it is not too long and holds only proper numbers.
pub proof fn law_a_proper_list(s: Seq<i64>)
    ensures
        ids_verdict(s) is Ok <==> s.len() <= 10000 && forall|i: int|
            0 <= i < s.len() ==> #[trigger] s[i] > 0,
{
}

/// A member is named by their number, as a number or as its digits, and a number that is
/// none of a member names nobody.
pub proof fn law_members_go_by_their_number(args: Arguments, n: u64, s: String)
    requires
        n <= i64::MAX,
    ensures
        args.at("qq_id"@) == Some(Argument::One(Scalar::Unsigned(n))) && n > 0 ==> qq_id_spec(args)
            == Ok::<i64, Seq<char>>(n as i64),
        args.at("qq_id"@) == Some(Argument::One(Scalar::Unsigned(n))) && n == 0 ==> qq_id_spec(args)
            is Err,
        args.at("qq_id"@) == Some(Argument::One(Scalar::Text(s))) && s@ == decimal_int(n as int) && n
            > 0 ==> qq_id_spec(args) == Ok::<i64, Seq<char>>(n as i64),
        args.at("qq_id"@) is None ==> qq_id_spec(args) is Err,
        n > 0 ==> sender_number(decimal_int(n as int)) == Ok::<i64, Seq<char>>(n as i64),
        n == 0 ==> sender_number(decimal_int(n as int)) is Err,
{
    lemma_number_reads(n as int);
}

proof fn lemma_number_reads(n: int)
    requires
        0 <= n <= i64::MAX,
    ensures
        i64_value(trim(decimal_int(n))) == Some(n as i64),
{
    law_numbers_read_back(n);
    law_decimal_reads_back(n as nat);
    let d = decimal_int(n);
    assert(d == decimal(n as nat));
    lemma_digit_is_ink(d[0]);
    lemma_digit_is_ink(d.last());
    law_trimmed_stays(d);
}

proof fn lemma_digit_is_ink(c: char)
    ensures
        is_digit(c) ==> !is_white(c),
{
    if is_digit(c) {
        law_plain_white_space(c);
    }
}

/// Whether a member is on a list is answered from the list.
pub proof fn law_the_list_is_asked(ids: Vec<i64>, user_id: &str, n: i64, r: Result<bool, String>)
    requires
        call_ensures(contains, (&ids, user_id), r),
        user_id@ == decimal_int(n as int),
        n > 0,
    ensures
        r is Ok,
        r->Ok_0 <==> ids@.contains(n),
{
    lemma_number_reads(n as int);
}

/// The tool puts the member on the list or takes them off, leaves all others where they are,
/// and says which it did; nobody but the administrator in a live message has it do so.
pub proof fn law_the_tool_does_what_it_is_asked(
    live: Result<(), Seq<char>>,
    args: Arguments,
    n: u64,
    current: Seq<i64>,
    mutation: Mutation,
)
    requires
        0 < n <= i64::MAX,
        args.at("qq_id"@) == Some(Argument::One(Scalar::Unsigned(n))),
        id_set(current).len() < 10000,
        forall|i: int| 0 <= i < current.len() ==> #[trigger] current[i] > 0,
    ensures
        ({
            let r = tool_outcome(live, qq_id_spec(args), Some(current), mutation);
            let id = n as i64;
            &&& r.ok <==> live is Ok
            &&& live is Err ==> r.ids is None
            &&& live is Ok ==> r.ids is Some
            &&& live is Ok ==> (r.ids->0.contains(id) <==> mutation == Mutation::Add)
            &&& live is Ok ==> forall|y: i64|
                y != id ==> (#[trigger] r.ids->0.contains(y) <==> current.contains(y))
            &&& live is Ok && mutation == Mutation::Add && !current.contains(id) ==> r.message
                == "已加入跳过主动判断名单："@ + decimal(n as nat)
            &&& live is Ok && mutation == Mutation::Add && current.contains(id) ==> r.message
                == "已在跳过主动判断名单中："@ + decimal(n as nat)
            &&& live is Ok && mutation == Mutation::Remove && current.contains(id) ==> r.message
                == "已移出跳过主动判断名单："@ + decimal(n as nat)
            &&& live is Ok && mutation == Mutation::Remove && !current.contains(id) ==> r.message
                == "不在跳过主动判断名单中："@ + decimal(n as nat)
        }),
{
    let id = n as i64;
    let set = id_set(current);
    law_id_set(current);
    law_mutation_is_idempotent(set, id, mutation);
    let after = mutated(set, id, mutation).0;
    lemma_with_length(set, id);
    lemma_without_length(set, id);
    assert forall|i: int| 0 <= i < set.len() implies #[trigger] set[i] > 0 by {
        assert(set.contains(set[i]));
        let k = choose|k: int| 0 <= k < current.len() && current[k] == set[i];
        assert(current[k] > 0);
    }
    assert forall|i: int| 0 <= i < after.len() implies #[trigger] after[i] > 0 by {
        let y = after[i];
        assert(after.contains(y));
        if y != id {
            assert(set.contains(y));
            let k = choose|k: int| 0 <= k < set.len() && set[k] == y;
            assert(set[k] > 0);
        }
    }
    law_a_proper_list(set);
    law_a_proper_list(after);
    assert(decimal_int(id as int) == decimal(n as nat));
}

proof fn lemma_with_length(s: Seq<i64>, x: i64)
    ensures
        with_id(s, x).len() <= s.len() + 1,
    decreases s.len(),
{
    if s.len() > 0 {
        lemma_with_length(s.drop_first(), x);
    }
}

proof fn lemma_without_length(s: Seq<i64>, x: i64)
    ensures
        without_id(s, x).len() <= s.len(),
    decreases s.len(),
{
    if s.len() > 0 {
        lemma_without_length(s.drop_first(), x);
    }
}

/// The list is managed only in a message that the one who manages it is just sending there.
pub proof fn law_only_a_live_message_manages(
    event: Option<LiveMessageModel>,
    sender_id: Seq<char>,
    c: ConversationModel,
)
    ensures
        live_manager(event, sender_id, c) is Ok <==> c.platform == "onebot"@ && event is Some
            && event->0.is_message && event->0.sender_id == sender_id && event->0.conversation == c,
{
}

/// A list that was edited holds what the editor added, not what they took away, and what
/// others changed meanwhile; an improper list is refused.
pub proof fn law_an_edited_list(current: Seq<i64>, original: Seq<i64>, edited: Seq<i64>)
    ensures
        ({
            let r = editor_result(current, original, edited);
            &&& r is Ok ==> forall|y: i64| #[trigger]
                r->Ok_0.contains(y) <==> (edited.contains(y) && !original.contains(y)) || (
                current.contains(y) && !(original.contains(y) && !edited.contains(y)))
            &&& r is Ok ==> ascending(r->Ok_0)
            &&& (exists|i: int| 0 <= i < edited.len() && #[trigger] edited[i] <= 0) ==> r is Err
        }),
{
    let (c, o, e) = (id_set(current), id_set(original), id_set(edited));
    law_id_set(current);
    law_id_set(original);
    law_id_set(edited);
    law_editor_keeps_unrelated_changes(c, o, e);
    if exists|i: int| 0 <= i < edited.len() && #[trigger] edited[i] <= 0 {
        let i = choose|i: int| 0 <= i < edited.len() && #[trigger] edited[i] <= 0;
        assert(e.contains(edited[i]));
        let k = choose|k: int| 0 <= k < e.len() && e[k] == edited[i];
        assert(e[k] <= 0);
    }
}

/// A remembered list once its place was asked for its revision: the list where it still
/// holds, and what is remembered then.
pub open spec fn confirmed_list(
    list: Seq<CachedIdsModel>,
    key: Seq<char>,
    revision: Option<Seq<char>>,
    now: u64,
) -> (Option<Seq<i64>>, Seq<CachedIdsModel>) {
    let i = cache_index(list, key);
    if i < list.len() && list[i].revision == revision {
        (Some(list[i].ids), list.update(i, CachedIdsModel { checked_at: now, ..list[i] }))
    } else {
        (None, list)
    }
}

/// A remembered list holds on while its revision does, and is then as good as new; one that
/// was changed is read again.
pub proof fn law_a_remembered_list_holds_on(
    list: Seq<CachedIdsModel>,
    i: int,
    revision: Option<Seq<char>>,
    now: u64,
)
    requires
        distinct_places(list),
        0 <= i < list.len(),
    ensures
        ({
            let r = confirmed_list(list, list[i].key, revision, now);
            &&& revision == list[i].revision ==> r.0 == Some(list[i].ids) && fresh_ids(
                r.1,
                list[i].key,
                now,
            ) == Some(list[i].ids)
            &&& revision != list[i].revision ==> r.0 is None && r.1 == list
        }),
{
    lemma_place_of(list, i);
    let r = confirmed_list(list, list[i].key, revision, now);
    if revision == list[i].revision {
        assert(r.1[i].key == list[i].key);
        assert forall|a: int, b: int| 0 <= a < b < r.1.len() implies (#[trigger] r.1[a]).key != (
        #[trigger] r.1[b]).key by {
            assert(r.1[a].key == list[a].key && r.1[b].key == list[b].key);
        }
        lemma_place_of(r.1, i);
    }
}

proof fn lemma_place_of(list: Seq<CachedIdsModel>, i: int)
    requires
        distinct_places(list),
        0 <= i < list.len(),
    ensures
        cache_index(list, list[i].key) == i,
    decreases list.len(),
{
    if i > 0 {
        let rest = list.drop_first();
        assert(list[0].key != list[i].key);
        assert forall|a: int, b: int| 0 <= a < b < rest.len() implies (#[trigger] rest[a]).key != (
        #[trigger] rest[b]).key by {
            assert(rest[a] == list[a + 1] && rest[b] == list[b + 1]);
        }
        lemma_place_of(rest, i - 1);
        assert(rest[i - 1] == list[i]);
    }
}

} // verus!
