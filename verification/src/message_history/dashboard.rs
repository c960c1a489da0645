//! The history as the dashboard sees it: the statements that are asked of the
//! database, and what is made of its answers.

use crate::json::{json_items, json_text, read_items, text_under};
use crate::message_history::args::{
    one_scope, single_scope, HistoryScope, HistoryScopeModel, ScopeKind,
};
use crate::message_history::deletion::{DeleteMode, DeleteRequest, DeleteRequestModel};
use crate::numbers::{as_signed, decimal, decimal_int, decimal_int_text, decimal_text, signed_bits};
use crate::platform::{Conversation, ConversationKind, ConversationModel};
use crate::text::{
    chars_of, is_empty_text, join, joined, law_joined_parts_occur, law_occurs_in_more,
    law_writing_on_loses_nothing, occurs, opt_text, opt_view, res_view, same, texts, trim, trimmed,
    views,
};
use vstd::prelude::*;
use vstd::string::*;

verus! {

/// The platform whose history the dashboard shows.
pub const PLATFORM: &'static str = "onebot";

/// The kind of conversation that a name means.
pub open spec fn kind_named(kind: Seq<char>) -> Result<ConversationKind, Seq<char>> {
    if kind == "group"@ {
        Ok(ConversationKind::Group)
    } else if kind == "private"@ {
        Ok(ConversationKind::Private)
    } else {
        Err("unknown conversation kind: "@ + kind)
    }
}

/// The conversation that the dashboard means.
pub fn conversation_key(account_id: &str, kind: &str, conversation_id: &str) -> (r: Result<
    Conversation,
    String,
>)
    ensures
        res_view(r) == (match kind_named(kind@) {
            Err(e) => Err(e),
            Ok(k) => Ok(
                ConversationModel {
                    kind: k,
                    platform: PLATFORM@,
                    account_id: account_id@,
                    conversation_id: conversation_id@,
                },
            ),
        }),
{
    let named: ConversationKind = if same(kind, "group") {
        ConversationKind::Group
    } else if same(kind, "private") {
        ConversationKind::Private
    } else {
        let mut m: String = "unknown conversation kind: ".to_owned();
        m.append(kind);
        return Err(m);
    };
    Ok(
        Conversation {
            kind: named,
            platform: PLATFORM.to_owned(),
            account_id: account_id.to_owned(),
            conversation_id: conversation_id.to_owned(),
        },
    )
}

// ---------------------------------------------------------------------------
// Statements

/// A value handed to the database with a statement.
pub enum SqlArg {
    Text(String),
    Integer(i64),
}

/// The models of [`SqlArg`].
pub enum SqlArgModel {
    Text(Seq<char>),
    Integer(i64),
}

impl View for SqlArg {
    type V = SqlArgModel;

    open spec fn view(&self) -> SqlArgModel {
        match *self {
            SqlArg::Text(s) => SqlArgModel::Text(s@),
            SqlArg::Integer(n) => SqlArgModel::Integer(n),
        }
    }
}

/// A statement with the values it is handed.
pub struct SqlStatement {
    pub sql: String,
    pub args: Vec<SqlArg>,
}

/// What a [`SqlStatement`] holds, as values.
#[verifier::ext_equal]
pub struct SqlStatementModel {
    pub sql: Seq<char>,
    pub args: Seq<SqlArgModel>,
}

impl View for SqlStatement {
    type V = SqlStatementModel;

    open spec fn view(&self) -> SqlStatementModel {
        SqlStatementModel {
            sql: self.sql@,
            args: views(self.args@),
        }
    }
}


/// The statement that lists the conversations, of one account where one is named.
pub open spec fn conversations_sql(account: Option<Seq<char>>) -> SqlStatementModel {
    let head = "SELECT account_id, conversation_kind, conversation_id, COUNT(*), MIN(sent_at), MAX(sent_at),
                SUM(CASE WHEN recalled_at IS NOT NULL THEN 1 ELSE 0 END),
                SUM(CASE WHEN is_bot = 1 THEN 1 ELSE 0 END)
           FROM messages WHERE platform = ?1"@;
    let tail = " GROUP BY account_id, conversation_kind, conversation_id ORDER BY MAX(sent_at) DESC"@;
    match account {
        Some(id) => if id.len() > 0 {
            SqlStatementModel {
                sql: head + " AND account_id = ?2"@ + tail,
                args: seq![SqlArgModel::Text(PLATFORM@), SqlArgModel::Text(id)],
            }
        } else {
            SqlStatementModel { sql: head + tail, args: seq![SqlArgModel::Text(PLATFORM@)] }
        },
        None => SqlStatementModel { sql: head + tail, args: seq![SqlArgModel::Text(PLATFORM@)] },
    }
}

/// The statement that lists the conversations, of one account where one is named.
pub fn dashboard_conversations(account_id: &Option<String>) -> (r: SqlStatement)
    ensures
        r@ == conversations_sql(opt_text(*account_id)),
{
    let mut sql: String = "SELECT account_id, conversation_kind, conversation_id, COUNT(*), MIN(sent_at), MAX(sent_at),
                SUM(CASE WHEN recalled_at IS NOT NULL THEN 1 ELSE 0 END),
                SUM(CASE WHEN is_bot = 1 THEN 1 ELSE 0 END)
           FROM messages WHERE platform = ?1".to_owned();
    let mut args: Vec<SqlArg> = Vec::new();
    args.push(SqlArg::Text(PLATFORM.to_owned()));
    if let Some(id) = account_id {
        if !is_empty_text(id) {
            sql.append(" AND account_id = ?2");
            args.push(SqlArg::Text(id.clone()));
        }
    }
    sql.append(
        " GROUP BY account_id, conversation_kind, conversation_id ORDER BY MAX(sent_at) DESC",
    );
    let r: SqlStatement = SqlStatement { sql: sql, args: args };
    assert(r@.args =~= conversations_sql(opt_text(*account_id)).args);
    r
}

/// A place in the list of messages.
#[derive(Clone, Copy, Debug, PartialEq, Eq, Structural)]
pub struct HistoryCursor {
    pub sent_at: i64,
    pub row_id: i64,
}

/// Which messages the dashboard asks for.
pub struct MessagesQuery {
    pub key: Conversation,
    /// What the text is searched for.
    pub terms: Vec<String>,
    /// The terms as the full-text search takes them.
    pub fts_query: String,
    pub sender_id: String,
    pub since: Option<i64>,
    pub until: Option<i64>,
    pub only_recalled: bool,
    pub only_media: bool,
    pub before: Option<HistoryCursor>,
    pub limit: usize,
}

/// What a [`MessagesQuery`] holds, as values.
#[verifier::ext_equal]
pub struct MessagesQueryModel {
    pub key: ConversationModel,
    pub terms: Seq<Seq<char>>,
    pub fts_query: Seq<char>,
    pub sender_id: Seq<char>,
    pub since: Option<i64>,
    pub until: Option<i64>,
    pub only_recalled: bool,
    pub only_media: bool,
    pub before: Option<HistoryCursor>,
    pub limit: usize,
}

impl View for MessagesQuery {
    type V = MessagesQueryModel;

    open spec fn view(&self) -> MessagesQueryModel {
        MessagesQueryModel {
            key: self.key@,
            terms: texts(self.terms@),
            fts_query: self.fts_query@,
            sender_id: self.sender_id@,
            since: self.since,
            until: self.until,
            only_recalled: self.only_recalled,
            only_media: self.only_media,
            before: self.before,
            limit: self.limit,
        }
    }
}


/// The conditions of a statement, and the values handed with it.
pub ghost struct SqlParts {
    pub conditions: Seq<Seq<char>>,
    pub args: Seq<SqlArgModel>,
}

/// One more value, with a condition that ends in its number.
pub open spec fn with_arg(p: SqlParts, head: Seq<char>, arg: SqlArgModel) -> SqlParts {
    let args = p.args.push(arg);
    SqlParts { conditions: p.conditions.push(head + decimal(args.len())), args: args }
}

/// One more condition without a value.
pub open spec fn with_condition(p: SqlParts, condition: Seq<char>) -> SqlParts {
    SqlParts { conditions: p.conditions.push(condition), args: p.args }
}

/// Conditions that each term stands in the text or in the sender's name.
pub open spec fn with_terms(p: SqlParts, terms: Seq<Seq<char>>) -> SqlParts
    decreases terms.len(),
{
    if terms.len() == 0 {
        p
    } else {
        let before = with_terms(p, terms.drop_last());
        let args = before.args.push(SqlArgModel::Text(terms.last()));
        let n = decimal(args.len());
        SqlParts {
            conditions: before.conditions.push(
                "(instr(lower(m.text), lower(?"@ + n + ")) > 0 OR instr(lower(m.sender_name), lower(?"@
                    + n + ")) > 0)"@,
            ),
            args: args,
        }
    }
}

/// Whether the full-text search is used: there are terms, and each has at least
/// three characters.
pub open spec fn uses_fts(terms: Seq<Seq<char>>) -> bool {
    terms.len() > 0 && forall|i: int| 0 <= i < terms.len() ==> (#[trigger] terms[i]).len() >= 3
}

/// The conditions and values of the statement that lists messages.
pub open spec fn message_parts(q: MessagesQueryModel) -> SqlParts {
    let none = SqlParts { conditions: seq![], args: seq![] };
    let by_text = if uses_fts(q.terms) {
        SqlParts {
            conditions: seq!["messages_fts MATCH ?1"@],
            args: seq![SqlArgModel::Text(q.fts_query)],
        }
    } else {
        with_terms(none, q.terms)
    };
    let p1 = with_arg(by_text, "m.platform = ?"@, SqlArgModel::Text(q.key.platform));
    let p2 = with_arg(p1, "m.account_id = ?"@, SqlArgModel::Text(q.key.account_id));
    let p3 = with_arg(p2, "m.conversation_kind = ?"@, SqlArgModel::Text(q.key.kind.name()));
    let p4 = with_arg(p3, "m.conversation_id = ?"@, SqlArgModel::Text(q.key.conversation_id));
    let sender = trim(q.sender_id);
    let p5 = if sender.len() > 0 {
        with_arg(p4, "m.sender_id = ?"@, SqlArgModel::Text(sender))
    } else {
        p4
    };
    let p6 = match q.since {
        Some(t) => with_arg(p5, "m.sent_at >= ?"@, SqlArgModel::Integer(t)),
        None => p5,
    };
    let p7 = match q.until {
        Some(t) => with_arg(p6, "m.sent_at <= ?"@, SqlArgModel::Integer(t)),
        None => p6,
    };
    let p8 = if q.only_recalled {
        with_condition(p7, "m.recalled_at IS NOT NULL"@)
    } else {
        p7
    };
    let p9 = if q.only_media {
        with_condition(p8, "m.media_json <> '[]'"@)
    } else {
        p8
    };
    match q.before {
        None => p9,
        Some(c) => {
            let args = p9.args.push(SqlArgModel::Integer(c.sent_at)).push(
                SqlArgModel::Integer(c.row_id),
            );
            let sent = decimal((args.len() - 1) as nat);
            let row = decimal(args.len());
            SqlParts {
                conditions: p9.conditions.push(
                    "(m.sent_at < ?"@ + sent + " OR (m.sent_at = ?"@ + sent + " AND m.id < ?"@ + row
                        + "))"@,
                ),
                args: args,
            }
        },
    }
}

/// How many messages a page of the dashboard holds.
pub open spec fn dashboard_limit(asked: usize) -> usize {
    if asked < 1 {
        1
    } else if asked > 200 {
        200
    } else {
        asked
    }
}

/// The statement that lists messages, the newest first, one more than the page
/// holds. `columns` are the columns of a message.
pub open spec fn messages_sql(q: MessagesQueryModel, columns: Seq<char>) -> SqlStatementModel {
    let parts = message_parts(q);
    SqlStatementModel {
        sql: "SELECT "@ + columns + " FROM "@ + (if uses_fts(q.terms) {
            "messages_fts JOIN messages AS m ON m.id = messages_fts.rowid"@
        } else {
            "messages AS m"@
        }) + " WHERE "@ + join(parts.conditions, " AND "@)
            + " ORDER BY m.sent_at DESC, m.id DESC LIMIT "@ + decimal(
            (dashboard_limit(q.limit) + 1) as nat,
        ),
        args: parts.args,
    }
}

fn push_condition(conditions: &mut Vec<String>, condition: String)
    ensures
        texts(final(conditions)@) == texts(old(conditions)@).push(condition@),
{
    conditions.push(condition);
    assert(texts(conditions@) =~= texts(old(conditions)@).push(condition@));
}

fn push_arg(args: &mut Vec<SqlArg>, arg: SqlArg)
    ensures
        views(final(args)@) == views(old(args)@).push(arg@),
        final(args).len() == old(args).len() + 1,
{
    args.push(arg);
    assert(views(args@) =~= views(old(args)@).push(arg@));
}

fn add_arg(conditions: &mut Vec<String>, args: &mut Vec<SqlArg>, head: &str, arg: SqlArg)
    ensures
        ({
            let p = with_arg(
                SqlParts { conditions: texts(old(conditions)@), args: views(old(args)@) },
                head@,
                arg@,
            );
            texts(final(conditions)@) == p.conditions && views(final(args)@) == p.args
        }),
{
    push_arg(args, arg);
    let mut c: String = head.to_owned();
    let n: String = decimal_text(args.len() as u64);
    c.append(&n);
    push_condition(conditions, c);
}

/// Whether the full-text search is used.
pub fn can_use_fts(terms: &Vec<String>) -> (r: bool)
    ensures
        r == uses_fts(texts(terms@)),
{
    let ghost all = texts(terms@);
    let mut i: usize = 0;
    while i < terms.len()
        invariant
            i <= terms.len(),
            all == texts(terms@),
            forall|j: int| 0 <= j < i ==> (#[trigger] all[j]).len() >= 3,
        decreases terms.len() - i,
    {
        assert(all[i as int] == terms@[i as int]@);
        if terms[i].as_str().unicode_len() < 3 {
            return false;
        }
        i += 1;
    }
    terms.len() > 0
}

/// The statement that lists messages: those of the conversation that hold every
/// term, by the sender, within the time, and before the cursor.
pub fn dashboard_messages(q: &MessagesQuery, columns: &str) -> (r: SqlStatement)
    ensures
        r@ == messages_sql(q@, columns@),
{
    let mut conditions: Vec<String> = Vec::new();
    let mut args: Vec<SqlArg> = Vec::new();
    assert(texts(conditions@) =~= seq![]);
    assert(views(args@) =~= seq![]);
    let fts: bool = can_use_fts(&q.terms);
    if fts {
        push_arg(&mut args, SqlArg::Text(q.fts_query.clone()));
        push_condition(&mut conditions, "messages_fts MATCH ?1".to_owned());
        assert(texts(conditions@) =~= seq!["messages_fts MATCH ?1"@]);
        assert(views(args@) =~= seq![SqlArgModel::Text(q@.fts_query)]);
    } else {
        let ghost all = texts(q.terms@);
        let ghost none = SqlParts { conditions: seq![], args: seq![] };
        let mut i: usize = 0;
        assert(all.take(0) =~= seq![]);
        while i < q.terms.len()
            invariant
                i <= q.terms.len(),
                all == texts(q.terms@),
                none == (SqlParts { conditions: seq![], args: seq![] }),
                texts(conditions@) == with_terms(none, all.take(i as int)).conditions,
                views(args@) == with_terms(none, all.take(i as int)).args,
            decreases q.terms.len() - i,
        {
            assert(all.take(i + 1).drop_last() =~= all.take(i as int));
            assert(all[i as int] == q.terms@[i as int]@);
            push_arg(&mut args, SqlArg::Text(q.terms[i].clone()));
            let n: String = decimal_text(args.len() as u64);
            let mut c: String = "(instr(lower(m.text), lower(?".to_owned();
            c.append(&n);
            c.append(")) > 0 OR instr(lower(m.sender_name), lower(?");
            c.append(&n);
            c.append(")) > 0)");
            push_condition(&mut conditions, c);
            i += 1;
        }
        assert(all.take(q.terms.len() as int) =~= all);
    }
    add_arg(&mut conditions, &mut args, "m.platform = ?", SqlArg::Text(q.key.platform.clone()));
    add_arg(&mut conditions, &mut args, "m.account_id = ?", SqlArg::Text(q.key.account_id.clone()));
    add_arg(&mut conditions, &mut args, "m.conversation_kind = ?", SqlArg::Text(q.key.kind.as_str().to_owned()));
    add_arg(
        &mut conditions,
        &mut args,
        "m.conversation_id = ?",
        SqlArg::Text(q.key.conversation_id.clone()),
    );
    let sender: String = trimmed(&q.sender_id);
    if !is_empty_text(&sender) {
        add_arg(&mut conditions, &mut args, "m.sender_id = ?", SqlArg::Text(sender));
    }
    if let Some(t) = q.since {
        add_arg(&mut conditions, &mut args, "m.sent_at >= ?", SqlArg::Integer(t));
    }
    if let Some(t) = q.until {
        add_arg(&mut conditions, &mut args, "m.sent_at <= ?", SqlArg::Integer(t));
    }
    if q.only_recalled {
        push_condition(&mut conditions, "m.recalled_at IS NOT NULL".to_owned());
    }
    if q.only_media {
        push_condition(&mut conditions, "m.media_json <> '[]'".to_owned());
    }
    if let Some(c) = q.before {
        push_arg(&mut args, SqlArg::Integer(c.sent_at));
        let sent: String = decimal_text(args.len() as u64);
        push_arg(&mut args, SqlArg::Integer(c.row_id));
        let row: String = decimal_text(args.len() as u64);
        let mut cond: String = "(m.sent_at < ?".to_owned();
        cond.append(&sent);
        cond.append(" OR (m.sent_at = ?");
        cond.append(&sent);
        cond.append(" AND m.id < ?");
        cond.append(&row);
        cond.append("))");
        push_condition(&mut conditions, cond);
    }
    let from: &str = if fts {
        "messages_fts JOIN messages AS m ON m.id = messages_fts.rowid"
    } else {
        "messages AS m"
    };
    let limit: usize = page_size(q.limit);
    let wanted: String = joined(&conditions, " AND ");
    let count: String = decimal_text(limit as u64 + 1);
    let mut sql: String = "SELECT ".to_owned();
    sql.append(columns);
    sql.append(" FROM ");
    sql.append(from);
    sql.append(" WHERE ");
    sql.append(&wanted);
    sql.append(" ORDER BY m.sent_at DESC, m.id DESC LIMIT ");
    sql.append(&count);
    SqlStatement { sql: sql, args: args }
}

/// How many messages a page of the dashboard holds: from one to two hundred.
pub fn page_size(asked: usize) -> (r: usize)
    ensures
        r == dashboard_limit(asked),
        1 <= r <= 200,
{
    if asked < 1 {
        1
    } else if asked > 200 {
        200
    } else {
        asked
    }
}

/// The values of the terms are handed with a statement first, in order, and those of
/// the conversation follow.
pub proof fn law_statement_values(q: MessagesQueryModel)
    ensures
        message_parts(q).args.len() >= 4,
        !uses_fts(q.terms) ==> message_parts(q).args.len() >= q.terms.len() + 4,
        !uses_fts(q.terms) ==> forall|i: int|
            0 <= i < q.terms.len() ==> message_parts(q).args[i] == SqlArgModel::Text(
                #[trigger] q.terms[i],
            ),
{
    if !uses_fts(q.terms) {
        let none = SqlParts { conditions: seq![], args: seq![] };
        lemma_terms(none, q.terms);
    }
}

proof fn lemma_terms(p: SqlParts, terms: Seq<Seq<char>>)
    requires
        p.args.len() == 0,
    ensures
        with_terms(p, terms).args.len() == terms.len(),
        forall|i: int|
            0 <= i < terms.len() ==> with_terms(p, terms).args[i] == SqlArgModel::Text(
                #[trigger] terms[i],
            ),
    decreases terms.len(),
{
    if terms.len() > 0 {
        let t = terms.drop_last();
        lemma_terms(p, t);
        assert forall|i: int| 0 <= i < terms.len() implies with_terms(p, terms).args[i]
            == SqlArgModel::Text(#[trigger] terms[i]) by {
            if i < t.len() {
                assert(t[i] == terms[i]);
            }
        }
    }
}

/// What a page shows of the rows that were found: how many, and where the next
/// page starts.
pub open spec fn page_cut(rows: Seq<HistoryCursor>, limit: usize) -> (nat, Option<HistoryCursor>) {
    let most = dashboard_limit(limit) as nat;
    if rows.len() > most {
        (most, Some(rows[most - 1]))
    } else {
        (rows.len(), None)
    }
}

/// What a page shows of the rows that were found.
pub fn cut_page(rows: &Vec<HistoryCursor>, limit: usize) -> (r: (usize, Option<HistoryCursor>))
    ensures
        page_cut(rows@, limit) == (r.0 as nat, r.1),
{
    let most: usize = page_size(limit);
    if rows.len() > most {
        (most, Some(rows[most - 1]))
    } else {
        (rows.len(), None)
    }
}

// ---------------------------------------------------------------------------
// Answers

/// Whether `a` comes before `b` in the order of their characters.
pub open spec fn text_before(a: Seq<char>, b: Seq<char>) -> bool
    decreases a.len(),
{
    if b.len() == 0 {
        false
    } else if a.len() == 0 {
        true
    } else if a[0] != b[0] {
        a[0] < b[0]
    } else {
        text_before(a.drop_first(), b.drop_first())
    }
}

/// Whether `a` comes before `b` in the order of their characters.
pub fn comes_before(a: &str, b: &str) -> (r: bool)
    ensures
        r == text_before(a@, b@),
{
    let x: Vec<char> = chars_of(a);
    let y: Vec<char> = chars_of(b);
    let mut i: usize = 0;
    assert(x@.skip(0) =~= a@);
    assert(y@.skip(0) =~= b@);
    loop
        invariant
            i <= x.len(),
            i <= y.len(),
            text_before(x@.skip(i as int), y@.skip(i as int)) == text_before(a@, b@),
        decreases x.len() - i,
    {
        if i == y.len() {
            return false;
        }
        if i == x.len() {
            return true;
        }
        assert(x@.skip(i as int)[0] == x@[i as int]);
        assert(y@.skip(i as int)[0] == y@[i as int]);
        if x[i] != y[i] {
            return x[i] < y[i];
        }
        assert(x@.skip(i as int).drop_first() =~= x@.skip(i + 1));
        assert(y@.skip(i as int).drop_first() =~= y@.skip(i + 1));
        i += 1;
    }
}

/// `list` with `s` put in its place in the order, unless it is there.
pub open spec fn with_sorted(list: Seq<Seq<char>>, s: Seq<char>) -> Seq<Seq<char>>
    decreases list.len(),
{
    if list.len() == 0 {
        seq![s]
    } else if list[0] == s {
        list
    } else if text_before(s, list[0]) {
        seq![s] + list
    } else {
        seq![list[0]] + with_sorted(list.drop_first(), s)
    }
}

/// The different texts of a list, in order.
pub open spec fn sorted_distinct(list: Seq<Seq<char>>) -> Seq<Seq<char>>
    decreases list.len(),
{
    if list.len() == 0 {
        seq![]
    } else {
        with_sorted(sorted_distinct(list.drop_last()), list.last())
    }
}

proof fn lemma_before_total(a: Seq<char>, b: Seq<char>)
    ensures
        a != b ==> text_before(a, b) || text_before(b, a),
        !(text_before(a, b) && text_before(b, a)),
        !text_before(a, a),
    decreases a.len(),
{
    if a.len() > 0 && b.len() > 0 && a[0] == b[0] {
        lemma_before_total(a.drop_first(), b.drop_first());
        if a.drop_first() == b.drop_first() {
            assert(a =~= seq![a[0]] + a.drop_first());
            assert(b =~= seq![b[0]] + b.drop_first());
        }
    }
    if a.len() == 0 && b.len() == 0 {
        assert(a =~= b);
    }
    if a.len() > 0 {
        lemma_before_irreflexive(a);
    }
}

proof fn lemma_before_irreflexive(a: Seq<char>)
    ensures
        !text_before(a, a),
    decreases a.len(),
{
    if a.len() > 0 {
        lemma_before_irreflexive(a.drop_first());
    }
}

proof fn lemma_before_transitive(a: Seq<char>, b: Seq<char>, c: Seq<char>)
    requires
        text_before(a, b),
        text_before(b, c),
    ensures
        text_before(a, c),
    decreases a.len(),
{
    if a.len() > 0 && a[0] == b[0] && b[0] == c[0] {
        lemma_before_transitive(a.drop_first(), b.drop_first(), c.drop_first());
    }
}

/// Whether each text of a list comes before the next ones.
pub open spec fn in_order(list: Seq<Seq<char>>) -> bool {
    forall|i: int, j: int|
        0 <= i < j < list.len() ==> text_before(#[trigger] list[i], #[trigger] list[j])
}

proof fn lemma_with_sorted(list: Seq<Seq<char>>, s: Seq<char>)
    requires
        in_order(list),
    ensures
        in_order(with_sorted(list, s)),
        forall|t: Seq<char>|
            #[trigger] with_sorted(list, s).contains(t) <==> list.contains(t) || t == s,
    decreases list.len(),
{
    let r = with_sorted(list, s);
    if list.len() == 0 {
        assert(r =~= seq![s]);
        assert(r[0] == s);
    } else if list[0] == s {
        assert(list.contains(s)) by {
            assert(list[0] == s);
        }
    } else if text_before(s, list[0]) {
        assert forall|i: int, j: int| 0 <= i < j < r.len() implies text_before(
            #[trigger] r[i],
            #[trigger] r[j],
        ) by {
            if i == 0 {
                assert(r[j] == list[j - 1]);
                if j > 1 {
                    assert(text_before(list[0], list[j - 1]));
                    lemma_before_transitive(s, list[0], list[j - 1]);
                }
            } else {
                assert(r[i] == list[i - 1]);
                assert(r[j] == list[j - 1]);
            }
        }
        assert forall|t: Seq<char>| r.contains(t) <==> list.contains(t) || t == s by {
            if list.contains(t) {
                let k = choose|k: int| 0 <= k < list.len() && list[k] == t;
                assert(r[k + 1] == t);
            }
            if t == s {
                assert(r[0] == t);
            }
            if r.contains(t) {
                let k = choose|k: int| 0 <= k < r.len() && r[k] == t;
                if k > 0 {
                    assert(list[k - 1] == t);
                }
            }
        }
    } else {
        let t0 = list.drop_first();
        assert(in_order(t0)) by {
            assert forall|i: int, j: int| 0 <= i < j < t0.len() implies text_before(
                #[trigger] t0[i],
                #[trigger] t0[j],
            ) by {
                assert(t0[i] == list[i + 1]);
                assert(t0[j] == list[j + 1]);
            }
        }
        lemma_with_sorted(t0, s);
        lemma_before_total(s, list[0]);
        let rest = with_sorted(t0, s);
        assert forall|i: int, j: int| 0 <= i < j < r.len() implies text_before(
            #[trigger] r[i],
            #[trigger] r[j],
        ) by {
            assert(r[j] == rest[j - 1]);
            if i == 0 {
                assert(rest.contains(rest[j - 1]));
                if rest[j - 1] != s {
                    assert(t0.contains(rest[j - 1]));
                    let k = choose|k: int| 0 <= k < t0.len() && t0[k] == rest[j - 1];
                    assert(list[k + 1] == rest[j - 1]);
                    assert(text_before(list[0], list[k + 1]));
                }
            } else {
                assert(r[i] == rest[i - 1]);
            }
        }
        assert forall|t: Seq<char>| r.contains(t) <==> list.contains(t) || t == s by {
            if list.contains(t) {
                let k = choose|k: int| 0 <= k < list.len() && list[k] == t;
                if k == 0 {
                    assert(r[0] == t);
                } else {
                    assert(t0[k - 1] == t);
                    assert(rest.contains(t));
                    let m = choose|m: int| 0 <= m < rest.len() && rest[m] == t;
                    assert(r[m + 1] == t);
                }
            }
            if t == s {
                assert(rest.contains(t));
                let m = choose|m: int| 0 <= m < rest.len() && rest[m] == t;
                assert(r[m + 1] == t);
            }
            if r.contains(t) {
                let k = choose|k: int| 0 <= k < r.len() && r[k] == t;
                if k > 0 {
                    assert(rest[k - 1] == t);
                    assert(rest.contains(t));
                    if t != s {
                        assert(t0.contains(t));
                        let m = choose|m: int| 0 <= m < t0.len() && t0[m] == t;
                        assert(list[m + 1] == t);
                    }
                } else {
                    assert(list[0] == t);
                }
            }
        }
    }
}

/// The different texts of a list are in order, and are just those of the list.
pub proof fn law_sorted_distinct(list: Seq<Seq<char>>)
    ensures
        in_order(sorted_distinct(list)),
        forall|t: Seq<char>| sorted_distinct(list).contains(t) <==> list.contains(t),
    decreases list.len(),
{
    if list.len() > 0 {
        let d = list.drop_last();
        law_sorted_distinct(d);
        lemma_with_sorted(sorted_distinct(d), list.last());
        assert forall|t: Seq<char>| sorted_distinct(list).contains(t) <==> list.contains(t) by {
            if list.contains(t) && t != list.last() {
                let k = choose|k: int| 0 <= k < list.len() && list[k] == t;
                assert(d[k] == t);
            }
            if d.contains(t) {
                let k = choose|k: int| 0 <= k < d.len() && d[k] == t;
                assert(list[k] == t);
            }
            if t == list.last() {
                assert(list[list.len() - 1] == t);
            }
        }
    }
}

/// The accounts that have conversations: each once, in order.
pub fn account_list(rows: &Vec<String>) -> (r: Vec<String>)
    ensures
        texts(r@) == sorted_distinct(texts(rows@)),
{
    let ghost all = texts(rows@);
    let mut out: Vec<String> = Vec::new();
    let mut i: usize = 0;
    assert(all.take(0) =~= seq![]);
    assert(texts(out@) =~= seq![]);
    while i < rows.len()
        invariant
            i <= rows.len(),
            all == texts(rows@),
            texts(out@) == sorted_distinct(all.take(i as int)),
        decreases rows.len() - i,
    {
        assert(all.take(i + 1).drop_last() =~= all.take(i as int));
        assert(all[i as int] == rows@[i as int]@);
        insert_sorted(&mut out, &rows[i]);
        i += 1;
    }
    assert(all.take(rows.len() as int) =~= all);
    out
}

fn insert_sorted(list: &mut Vec<String>, s: &str)
    ensures
        texts(final(list)@) == with_sorted(texts(old(list)@), s@),
{
    let ghost all = texts(list@);
    let mut i: usize = 0;
    assert(all.skip(0) =~= all);
    assert(all.take(0) + with_sorted(all, s@) =~= with_sorted(all, s@));
    while i < list.len()
        invariant
            i <= list.len(),
            *list == *old(list),
            all == texts(list@),
            all.take(i as int) + with_sorted(all.skip(i as int), s@) == with_sorted(all, s@),
        decreases list.len() - i,
    {
        let ghost rest = all.skip(i as int);
        assert(rest[0] == list@[i as int]@);
        if same(&list[i], s) {
            assert(all.take(i as int) + rest =~= all);
            return;
        }
        if comes_before(s, &list[i]) {
            list.insert(i, s.to_owned());
            assert(texts(list@) =~= all.take(i as int) + (seq![s@] + rest));
            return;
        }
        assert(rest.drop_first() =~= all.skip(i + 1));
        assert(all.take(i + 1) + with_sorted(all.skip(i + 1), s@) =~= all.take(i as int) + (
        seq![rest[0]] + with_sorted(rest.drop_first(), s@)));
        i += 1;
    }
    assert(all.skip(list.len() as int) =~= seq![]);
    list.push(s.to_owned());
    assert(texts(list@) =~= all.take(all.len() as int) + seq![s@]);
}

/// A count of messages by day of the week and hour of the day.
#[derive(Clone, Copy, Debug, PartialEq, Eq, Structural)]
pub struct HeatRow {
    pub weekday: i64,
    pub hour: i64,
    pub count: i64,
}

/// The count that the rows give for a day and an hour: that of the last one for
/// them, zero where there is none.
pub open spec fn heat_at(rows: Seq<HeatRow>, weekday: int, hour: int) -> i64
    decreases rows.len(),
{
    if rows.len() == 0 {
        0
    } else if rows.last().weekday == weekday && rows.last().hour == hour {
        rows.last().count
    } else {
        heat_at(rows.drop_last(), weekday, hour)
    }
}

/// The counts of the 168 hours of a week, day by day.
pub fn heat_table(rows: &Vec<HeatRow>) -> (r: Vec<i64>)
    ensures
        r.len() == 168,
        forall|d: int, h: int|
            0 <= d < 7 && 0 <= h < 24 ==> r@[d * 24 + h] == #[trigger] heat_at(rows@, d, h),
{
    let mut out: Vec<i64> = Vec::new();
    let mut day: usize = 0;
    while day < 7
        invariant
            day <= 7,
            out.len() == day * 24,
            forall|d: int, h: int|
                0 <= d < day && 0 <= h < 24 ==> out@[d * 24 + h] == #[trigger] heat_at(rows@, d, h),
        decreases 7 - day,
    {
        let mut hour: usize = 0;
        while hour < 24
            invariant
                day < 7,
                hour <= 24,
                out.len() == day * 24 + hour,
                forall|d: int, h: int|
                    0 <= d < day && 0 <= h < 24 ==> out@[d * 24 + h] == #[trigger] heat_at(
                        rows@,
                        d,
                        h,
                    ),
                forall|h: int|
                    0 <= h < hour ==> out@[day * 24 + h] == #[trigger] heat_at(
                        rows@,
                        day as int,
                        h,
                    ),
            decreases 24 - hour,
        {
            let mut i: usize = rows.len();
            let mut count: i64 = 0;
            let mut found: bool = false;
            assert(rows@.take(i as int) =~= rows@);
            while i > 0 && !found
                invariant
                    i <= rows.len(),
                    day < 7,
                    hour < 24,
                    found ==> count == heat_at(rows@, day as int, hour as int),
                    !found ==> count == 0 && heat_at(rows@, day as int, hour as int) == heat_at(
                        rows@.take(i as int),
                        day as int,
                        hour as int,
                    ),
                decreases i,
            {
                assert(rows@.take(i as int).drop_last() =~= rows@.take(i - 1));
                if rows[i - 1].weekday == day as i64 && rows[i - 1].hour == hour as i64 {
                    count = rows[i - 1].count;
                    found = true;
                }
                i -= 1;
            }
            out.push(count);
            hour += 1;
        }
        day += 1;
    }
    out
}

/// What the dashboard asks to be deleted.
pub struct DeleteSpec {
    /// The conversation; all groups of the account where there is none.
    pub key: Option<Conversation>,
    pub account_id: String,
    pub keep_days: Option<u32>,
    pub sender_id: String,
    pub since: Option<i64>,
    pub until: Option<i64>,
}

/// What a [`DeleteSpec`] holds, as values.
#[verifier::ext_equal]
pub struct DeleteSpecModel {
    pub key: Option<ConversationModel>,
    pub account_id: Seq<char>,
    pub keep_days: Option<u32>,
    pub sender_id: Seq<char>,
    pub since: Option<i64>,
    pub until: Option<i64>,
}

impl View for DeleteSpec {
    type V = DeleteSpecModel;

    open spec fn view(&self) -> DeleteSpecModel {
        DeleteSpecModel {
            key: opt_view(self.key),
            account_id: self.account_id@,
            keep_days: self.keep_days,
            sender_id: self.sender_id@,
            since: self.since,
            until: self.until,
        }
    }
}


/// The deletion that the dashboard asks for.
pub open spec fn dashboard_deletion(d: DeleteSpecModel) -> DeleteRequestModel {
    DeleteRequestModel {
        scope: match d.key {
            Some(k) => one_scope(k, k.kind, k.conversation_id),
            None => HistoryScopeModel {
                kind: ScopeKind::AllGroups,
                platform: PLATFORM@,
                account_id: d.account_id,
                conversation_id: seq![],
            },
        },
        mode: match d.keep_days {
            Some(days) => DeleteMode::KeepDays(days),
            None => DeleteMode::All,
        },
        sender_id: if trim(d.sender_id).len() > 0 {
            Some(trim(d.sender_id))
        } else {
            None
        },
        since: d.since,
        until: d.until,
    }
}

/// The deletion that the dashboard asks for.
pub fn dashboard_delete(d: &DeleteSpec) -> (r: DeleteRequest)
    ensures
        r@ == dashboard_deletion(d@),
{
    let scope: HistoryScope = match &d.key {
        Some(k) => single_scope(k, k.kind, k.conversation_id.clone()),
        None => {
            let s: HistoryScope = HistoryScope {
                kind: ScopeKind::AllGroups,
                platform: PLATFORM.to_owned(),
                account_id: d.account_id.clone(),
                conversation_id: String::new(),
            };
            assert(s@.conversation_id =~= seq![]);
            s
        }
    };
    let sender: String = trimmed(&d.sender_id);
    DeleteRequest {
        scope: scope,
        mode: match d.keep_days {
            Some(days) => DeleteMode::KeepDays(days),
            None => DeleteMode::All,
        },
        sender_id: if is_empty_text(&sender) {
            None
        } else {
            Some(sender)
        },
        since: d.since,
        until: d.until,
    }
}

// ---------------------------------------------------------------------------
// Statistics

/// The statements that the statistics of a conversation are made of.
pub struct StatsStatements {
    /// The messages by day of the week and hour.
    pub heat: SqlStatement,
    /// The messages of the assistant, and those of others.
    pub totals: SqlStatement,
    /// The media of each message that has some.
    pub media: SqlStatement,
    /// How many members the ranking holds.
    pub limit: usize,
}

/// What a [`StatsStatements`] holds, as values.
#[verifier::ext_equal]
pub struct StatsStatementsModel {
    pub heat: SqlStatementModel,
    pub totals: SqlStatementModel,
    pub media: SqlStatementModel,
    pub limit: usize,
}

impl View for StatsStatements {
    type V = StatsStatementsModel;

    open spec fn view(&self) -> StatsStatementsModel {
        StatsStatementsModel {
            heat: self.heat@,
            totals: self.totals@,
            media: self.media@,
            limit: self.limit,
        }
    }
}


/// The values that name a conversation.
pub open spec fn scope_args(key: ConversationModel) -> Seq<SqlArgModel> {
    seq![
        SqlArgModel::Text(key.platform),
        SqlArgModel::Text(key.account_id),
        SqlArgModel::Text(key.kind.name()),
        SqlArgModel::Text(key.conversation_id),
    ]
}

/// The condition that names a conversation and a time.
pub open spec fn stats_condition() -> Seq<char> {
    "platform = ?1 AND account_id = ?2 AND conversation_kind = ?3 AND conversation_id = ?4 AND sent_at BETWEEN ?5 AND ?6"@
}

/// The statements that the statistics of a conversation in a time are made of.
pub open spec fn stats_statements(
    key: ConversationModel,
    since: i64,
    until: i64,
    limit: usize,
) -> StatsStatementsModel {
    let args = scope_args(key) + seq![
        SqlArgModel::Integer(since),
        SqlArgModel::Integer(until),
    ];
    StatsStatementsModel {
        heat: SqlStatementModel {
            sql: "SELECT CAST(strftime('%w', sent_at, 'unixepoch', 'localtime') AS INTEGER),
                CAST(strftime('%H', sent_at, 'unixepoch', 'localtime') AS INTEGER), COUNT(*)
           FROM messages WHERE "@ + stats_condition() + " GROUP BY 1, 2"@,
            args: args,
        },
        totals: SqlStatementModel {
            sql: "SELECT SUM(CASE WHEN is_bot = 1 THEN 1 ELSE 0 END), SUM(CASE WHEN is_bot = 0 THEN 1 ELSE 0 END)
               FROM messages WHERE "@ + stats_condition(),
            args: args,
        },
        media: SqlStatementModel {
            sql: "SELECT media_json FROM messages WHERE "@ + stats_condition() + " AND media_json <> '[]'"@,
            args: args,
        },
        limit: dashboard_limit(limit),
    }
}

fn key_args(key: &Conversation) -> (r: Vec<SqlArg>)
    ensures
        views(r@) == scope_args(key@),
{
    let r: Vec<SqlArg> = vec![
        SqlArg::Text(key.platform.clone()),
        SqlArg::Text(key.account_id.clone()),
        SqlArg::Text(key.kind.as_str().to_owned()),
        SqlArg::Text(key.conversation_id.clone()),
    ];
    assert(views(r@) =~= scope_args(key@));
    r
}

fn stats_args(key: &Conversation, since: i64, until: i64) -> (r: Vec<SqlArg>)
    ensures
        views(r@) == scope_args(key@) + seq![
            SqlArgModel::Integer(since),
            SqlArgModel::Integer(until),
        ],
{
    let mut r: Vec<SqlArg> = key_args(key);
    r.push(SqlArg::Integer(since));
    r.push(SqlArg::Integer(until));
    assert(views(r@) =~= scope_args(key@) + seq![
        SqlArgModel::Integer(since),
        SqlArgModel::Integer(until),
    ]);
    r
}

/// The statements that the statistics of a conversation in a time are made of.
pub fn dashboard_stats(key: &Conversation, since: i64, until: i64, limit: usize) -> (r:
    StatsStatements)
    ensures
        r@ == stats_statements(key@, since, until, limit),
{
    let condition: &str = "platform = ?1 AND account_id = ?2 AND conversation_kind = ?3 AND conversation_id = ?4 AND sent_at BETWEEN ?5 AND ?6";
    let mut heat: String = "SELECT CAST(strftime('%w', sent_at, 'unixepoch', 'localtime') AS INTEGER),
                CAST(strftime('%H', sent_at, 'unixepoch', 'localtime') AS INTEGER), COUNT(*)
           FROM messages WHERE ".to_owned();
    heat.append(condition);
    heat.append(" GROUP BY 1, 2");
    let mut totals: String = "SELECT SUM(CASE WHEN is_bot = 1 THEN 1 ELSE 0 END), SUM(CASE WHEN is_bot = 0 THEN 1 ELSE 0 END)
               FROM messages WHERE ".to_owned();
    totals.append(condition);
    let mut media: String = "SELECT media_json FROM messages WHERE ".to_owned();
    media.append(condition);
    media.append(" AND media_json <> '[]'");
    StatsStatements {
        heat: SqlStatement { sql: heat, args: stats_args(key, since, until) },
        totals: SqlStatement { sql: totals, args: stats_args(key, since, until) },
        media: SqlStatement { sql: media, args: stats_args(key, since, until) },
        limit: page_size(limit),
    }
}

/// How often a kind of media was sent.
pub struct KindCount {
    pub kind: String,
    pub count: usize,
}

/// What a [`KindCount`] holds, as values.
#[verifier::ext_equal]
pub struct KindCountModel {
    pub kind: Seq<char>,
    pub count: usize,
}

impl View for KindCount {
    type V = KindCountModel;

    open spec fn view(&self) -> KindCountModel {
        KindCountModel {
            kind: self.kind@,
            count: self.count,
        }
    }
}


/// How often a text stands in a list.
pub open spec fn occurrences(list: Seq<Seq<char>>, s: Seq<char>) -> nat
    decreases list.len(),
{
    if list.len() == 0 {
        0
    } else {
        occurrences(list.drop_last(), s) + if list.last() == s {
            1nat
        } else {
            0
        }
    }
}

/// How often each kind of media was sent, in the order of their names.
pub open spec fn kind_counts(kinds: Seq<Seq<char>>) -> Seq<KindCountModel> {
    sorted_distinct(kinds).map_values(
        |k: Seq<char>| KindCountModel { kind: k, count: occurrences(kinds, k) as usize },
    )
}

fn count_text(list: &Vec<String>, s: &str) -> (r: usize)
    ensures
        r == occurrences(texts(list@), s@),
{
    let ghost all = texts(list@);
    let mut n: usize = 0;
    let mut i: usize = 0;
    assert(all.take(0) =~= seq![]);
    while i < list.len()
        invariant
            i <= list.len(),
            all == texts(list@),
            n <= i,
            n == occurrences(all.take(i as int), s@),
        decreases list.len() - i,
    {
        assert(all.take(i + 1).drop_last() =~= all.take(i as int));
        assert(all[i as int] == list@[i as int]@);
        if same(&list[i], s) {
            n += 1;
        }
        i += 1;
    }
    assert(all.take(list.len() as int) =~= all);
    n
}

/// The kinds that the items of a list in JSON give.
pub open spec fn item_kinds(items: Seq<Seq<char>>) -> Seq<Seq<char>>
    decreases items.len(),
{
    if items.len() == 0 {
        seq![]
    } else {
        let before = item_kinds(items.drop_last());
        match json_text(items.last(), "kind"@) {
            Some(kind) => before.push(kind),
            None => before,
        }
    }
}

/// The kinds of media that a row tells of, where it is a list in JSON.
pub open spec fn row_kinds(row: Seq<char>) -> Seq<Seq<char>> {
    match json_items(row, ""@) {
        Some(items) => item_kinds(items),
        None => seq![],
    }
}

/// The kinds of media that rows tell of, row by row.
pub open spec fn kinds_in(rows: Seq<Seq<char>>) -> Seq<Seq<char>>
    decreases rows.len(),
{
    if rows.len() == 0 {
        seq![]
    } else {
        kinds_in(rows.drop_last()) + row_kinds(rows.last())
    }
}

/// Adds the kinds that the items of a list in JSON give.
pub fn add_kinds(kinds: &mut Vec<String>, items: &Vec<String>)
    ensures
        texts(final(kinds)@) == texts(old(kinds)@) + item_kinds(texts(items@)),
{
    let ghost start = texts(kinds@);
    let ghost all = texts(items@);
    let mut i: usize = 0;
    assert(all.take(0) =~= seq![]);
    assert(texts(kinds@) =~= start + item_kinds(all.take(0)));
    while i < items.len()
        invariant
            i <= items.len(),
            all == texts(items@),
            texts(kinds@) == start + item_kinds(all.take(i as int)),
        decreases items.len() - i,
    {
        assert(all.take(i + 1).drop_last() =~= all.take(i as int));
        assert(all[i as int] == items@[i as int]@);
        if let Some(kind) = text_under(&items[i], "kind") {
            let ghost before = texts(kinds@);
            kinds.push(kind);
            assert(texts(kinds@) =~= before.push(kind@));
            assert(before.push(kind@) =~= start + item_kinds(all.take(i as int)).push(kind@));
        }
        i += 1;
    }
    assert(all.take(items.len() as int) =~= all);
}

/// The kinds of media that rows tell of: each row is a list in JSON, and what is none
/// tells of nothing.
pub fn media_kinds(rows: &Vec<String>) -> (r: Vec<String>)
    ensures
        texts(r@) == kinds_in(texts(rows@)),
{
    let ghost all = texts(rows@);
    let mut out: Vec<String> = Vec::new();
    let mut i: usize = 0;
    assert(all.take(0) =~= seq![]);
    assert(texts(out@) =~= seq![]);
    while i < rows.len()
        invariant
            i <= rows.len(),
            all == texts(rows@),
            texts(out@) == kinds_in(all.take(i as int)),
        decreases rows.len() - i,
    {
        assert(all.take(i + 1).drop_last() =~= all.take(i as int));
        assert(all[i as int] == rows@[i as int]@);
        match read_items(&rows[i], "") {
            Some(items) => {
                add_kinds(&mut out, &items);
            }
            None => {
                assert(texts(out@) + Seq::<Seq<char>>::empty() =~= texts(out@));
            }
        }
        i += 1;
    }
    assert(all.take(rows.len() as int) =~= all);
    out
}

/// How often each kind of media was sent, in the order of their names.
pub fn media_counts(kinds: &Vec<String>) -> (r: Vec<KindCount>)
    ensures
        views(r@) == kind_counts(texts(kinds@)),
{
    let names: Vec<String> = account_list(kinds);
    let ghost all = kind_counts(texts(kinds@));
    let mut out: Vec<KindCount> = Vec::new();
    let mut i: usize = 0;
    while i < names.len()
        invariant
            i <= names.len(),
            texts(names@) == sorted_distinct(texts(kinds@)),
            all == kind_counts(texts(kinds@)),
            views(out@) =~= all.take(i as int),
        decreases names.len() - i,
    {
        assert(texts(names@)[i as int] == names@[i as int]@);
        let count: usize = count_text(kinds, &names[i]);
        let one: KindCount = KindCount { kind: names[i].clone(), count: count };
        let ghost before = views(out@);
        out.push(one);
        assert(views(out@) =~= before.push(one@));
        assert(all[i as int] == one@);
        i += 1;
    }
    assert(all.len() == texts(names@).len());
    assert(all.take(names.len() as int) =~= all);
    out
}

/// The statements that list the messages withdrawn in a conversation.
pub struct RecallStatements {
    pub total: SqlStatement,
    /// The newest first, with the message where it is kept.
    pub page: SqlStatement,
}

/// What a [`RecallStatements`] holds, as values.
#[verifier::ext_equal]
pub struct RecallStatementsModel {
    pub total: SqlStatementModel,
    pub page: SqlStatementModel,
}

impl View for RecallStatements {
    type V = RecallStatementsModel;

    open spec fn view(&self) -> RecallStatementsModel {
        RecallStatementsModel {
            total: self.total@,
            page: self.page@,
        }
    }
}


/// The condition that names a conversation of withdrawals.
pub open spec fn recalls_condition() -> Seq<char> {
    "r.platform = ?1 AND r.account_id = ?2 AND r.conversation_kind = ?3 AND r.conversation_id = ?4"@
}

/// The statements that list the messages withdrawn in a conversation.
pub open spec fn recall_statements(
    key: ConversationModel,
    limit: usize,
    offset: usize,
) -> RecallStatementsModel {
    RecallStatementsModel {
        total: SqlStatementModel {
            sql: "SELECT COUNT(*) FROM recalls r WHERE "@ + recalls_condition(),
            args: scope_args(key),
        },
        page: SqlStatementModel {
            sql: "SELECT r.message_id, r.operator_id, r.recalled_at, m.sender_id, m.sender_name, m.text, m.sent_at
           FROM recalls r
           LEFT JOIN messages m ON m.platform = r.platform AND m.account_id = r.account_id
                AND m.conversation_kind = r.conversation_kind AND m.conversation_id = r.conversation_id
                AND m.message_id = r.message_id
          WHERE "@ + recalls_condition() + "
          ORDER BY r.recalled_at DESC, r.id DESC LIMIT "@
                + decimal(dashboard_limit(limit) as nat) + " OFFSET "@ + decimal_int(
                as_signed(offset as u64) as int,
            ),
            args: scope_args(key),
        },
    }
}

/// The statements that list the messages withdrawn in a conversation.
pub fn dashboard_recalls(key: &Conversation, limit: usize, offset: usize) -> (r:
    RecallStatements)
    ensures
        r@ == recall_statements(key@, limit, offset),
{
    let condition: &str = "r.platform = ?1 AND r.account_id = ?2 AND r.conversation_kind = ?3 AND r.conversation_id = ?4";
    let mut total: String = "SELECT COUNT(*) FROM recalls r WHERE ".to_owned();
    total.append(condition);
    let mut page: String = "SELECT r.message_id, r.operator_id, r.recalled_at, m.sender_id, m.sender_name, m.text, m.sent_at
           FROM recalls r
           LEFT JOIN messages m ON m.platform = r.platform AND m.account_id = r.account_id
                AND m.conversation_kind = r.conversation_kind AND m.conversation_id = r.conversation_id
                AND m.message_id = r.message_id
          WHERE ".to_owned();
    page.append(condition);
    page.append("
          ORDER BY r.recalled_at DESC, r.id DESC LIMIT ");
    let most: String = decimal_text(page_size(limit) as u64);
    page.append(&most);
    page.append(" OFFSET ");
    let skipped: String = decimal_int_text(signed_bits(offset as u64));
    page.append(&skipped);
    RecallStatements {
        total: SqlStatement { sql: total, args: key_args(key) },
        page: SqlStatement { sql: page, args: key_args(key) },
    }
}

/// The statement that finds when someone wrote last to an account.
pub fn latest_human_message_at(account_id: &str) -> (r: SqlStatement)
    ensures
        r@ == (SqlStatementModel {
            sql: "SELECT sent_at FROM messages
              WHERE platform = ?1 AND account_id = ?2 AND is_bot = 0
              ORDER BY sent_at DESC, id DESC LIMIT 1"@,
            args: seq![SqlArgModel::Text(PLATFORM@), SqlArgModel::Text(account_id@)],
        }),
{
    let args: Vec<SqlArg> = vec![
        SqlArg::Text(PLATFORM.to_owned()),
        SqlArg::Text(account_id.to_owned()),
    ];
    assert(views(args@) =~= seq![SqlArgModel::Text(PLATFORM@), SqlArgModel::Text(account_id@)]);
    SqlStatement { sql: "SELECT sent_at FROM messages
              WHERE platform = ?1 AND account_id = ?2 AND is_bot = 0
              ORDER BY sent_at DESC, id DESC LIMIT 1".to_owned(), args: args }
}

// ---------------------------------------------------------------------------
// What the statements ask for

/// Whether a statement asks that something stand to a value in the way that `head` says: the
/// condition names the place of the value, and the value stands there.
#[verifier::opaque]
pub open spec fn binds(p: SqlParts, head: Seq<char>, arg: SqlArgModel) -> bool {
    exists|k: int, j: int|
        0 <= k < p.conditions.len() && 0 <= j < p.args.len() && #[trigger] p.conditions[k] == head
            + decimal((j + 1) as nat) && #[trigger] p.args[j] == arg
}

/// Whether a statement asks for all that another one asks for.
#[verifier::opaque]
pub open spec fn asks_more(p: SqlParts, q: SqlParts) -> bool {
    &&& p.conditions.is_prefix_of(q.conditions)
    &&& p.args.is_prefix_of(q.args)
}

proof fn lemma_asks_more(p: SqlParts, q: SqlParts, head: Seq<char>, arg: SqlArgModel)
    requires
        asks_more(p, q),
    ensures
        binds(p, head, arg) ==> binds(q, head, arg),
{
    reveal(binds);
    reveal(asks_more);
    if binds(p, head, arg) {
        let (k, j) = choose|k: int, j: int|
            0 <= k < p.conditions.len() && 0 <= j < p.args.len() && #[trigger] p.conditions[k]
                == head + decimal((j + 1) as nat) && #[trigger] p.args[j] == arg;
        assert(q.conditions[k] == p.conditions[k]);
        assert(q.args[j] == p.args[j]);
    }
}

proof fn lemma_with_arg(p: SqlParts, head: Seq<char>, arg: SqlArgModel)
    ensures
        binds(with_arg(p, head, arg), head, arg),
        asks_more(p, with_arg(p, head, arg)),
{
    reveal(binds);
    reveal(asks_more);
    let q = with_arg(p, head, arg);
    let j = p.args.len() as int;
    assert(q.conditions[p.conditions.len() as int] == head + decimal((j + 1) as nat));
    assert(q.args[j] == arg);
    assert(p.conditions =~= q.conditions.take(p.conditions.len() as int));
    assert(p.args =~= q.args.take(p.args.len() as int));
}

proof fn lemma_with_condition(p: SqlParts, condition: Seq<char>)
    ensures
        with_condition(p, condition).conditions.contains(condition),
        asks_more(p, with_condition(p, condition)),
{
    reveal(asks_more);
    let q = with_condition(p, condition);
    assert(q.conditions[p.conditions.len() as int] == condition);
}

proof fn lemma_keeps(p: SqlParts, q: SqlParts, r: SqlParts, condition: Seq<char>)
    requires
        asks_more(p, q),
        asks_more(q, r),
    ensures
        asks_more(p, r),
        p.conditions.contains(condition) ==> q.conditions.contains(condition),
{
    reveal(asks_more);
    if p.conditions.contains(condition) {
        let k = choose|k: int| 0 <= k < p.conditions.len() && p.conditions[k] == condition;
        assert(q.conditions[k] == condition);
    }
}

proof fn lemma_asks_itself(p: SqlParts)
    ensures
        asks_more(p, p),
{
    reveal(asks_more);
}

// What is asked of the conversation, the sender, the period and the restrictions, one on top
// of the other.
#[verifier::opaque]
spec fn asked_of_text(q: MessagesQueryModel) -> SqlParts {
    if uses_fts(q.terms) {
        SqlParts {
            conditions: seq!["messages_fts MATCH ?1"@],
            args: seq![SqlArgModel::Text(q.fts_query)],
        }
    } else {
        with_terms(SqlParts { conditions: seq![], args: seq![] }, q.terms)
    }
}

#[verifier::opaque]
spec fn asked_of_scope(q: MessagesQueryModel) -> SqlParts {
    let p1 = with_arg(asked_of_text(q), "m.platform = ?"@, SqlArgModel::Text(q.key.platform));
    let p2 = with_arg(p1, "m.account_id = ?"@, SqlArgModel::Text(q.key.account_id));
    let p3 = with_arg(p2, "m.conversation_kind = ?"@, SqlArgModel::Text(q.key.kind.name()));
    with_arg(p3, "m.conversation_id = ?"@, SqlArgModel::Text(q.key.conversation_id))
}

#[verifier::opaque]
spec fn asked_of_sender(q: MessagesQueryModel) -> SqlParts {
    if trim(q.sender_id).len() > 0 {
        with_arg(asked_of_scope(q), "m.sender_id = ?"@, SqlArgModel::Text(trim(q.sender_id)))
    } else {
        asked_of_scope(q)
    }
}

#[verifier::opaque]
spec fn asked_of_start(q: MessagesQueryModel) -> SqlParts {
    match q.since {
        Some(t) => with_arg(asked_of_sender(q), "m.sent_at >= ?"@, SqlArgModel::Integer(t)),
        None => asked_of_sender(q),
    }
}

#[verifier::opaque]
spec fn asked_of_end(q: MessagesQueryModel) -> SqlParts {
    match q.until {
        Some(t) => with_arg(asked_of_start(q), "m.sent_at <= ?"@, SqlArgModel::Integer(t)),
        None => asked_of_start(q),
    }
}

#[verifier::opaque]
spec fn asked_of_recalls(q: MessagesQueryModel) -> SqlParts {
    if q.only_recalled {
        with_condition(asked_of_end(q), "m.recalled_at IS NOT NULL"@)
    } else {
        asked_of_end(q)
    }
}

#[verifier::opaque]
spec fn asked_of_media(q: MessagesQueryModel) -> SqlParts {
    if q.only_media {
        with_condition(asked_of_recalls(q), "m.media_json <> '[]'"@)
    } else {
        asked_of_recalls(q)
    }
}

proof fn lemma_asked_of_scope(q: MessagesQueryModel)
    ensures
        binds(asked_of_scope(q), "m.platform = ?"@, SqlArgModel::Text(q.key.platform)),
        binds(asked_of_scope(q), "m.account_id = ?"@, SqlArgModel::Text(q.key.account_id)),
        binds(asked_of_scope(q), "m.conversation_kind = ?"@, SqlArgModel::Text(q.key.kind.name())),
        binds(
            asked_of_scope(q),
            "m.conversation_id = ?"@,
            SqlArgModel::Text(q.key.conversation_id),
        ),
{
    reveal(asked_of_scope);
    let p0 = asked_of_text(q);
    let a1 = SqlArgModel::Text(q.key.platform);
    let a2 = SqlArgModel::Text(q.key.account_id);
    let a3 = SqlArgModel::Text(q.key.kind.name());
    let a4 = SqlArgModel::Text(q.key.conversation_id);
    let p1 = with_arg(p0, "m.platform = ?"@, a1);
    let p2 = with_arg(p1, "m.account_id = ?"@, a2);
    let p3 = with_arg(p2, "m.conversation_kind = ?"@, a3);
    let p4 = with_arg(p3, "m.conversation_id = ?"@, a4);
    lemma_with_arg(p0, "m.platform = ?"@, a1);
    lemma_with_arg(p1, "m.account_id = ?"@, a2);
    lemma_with_arg(p2, "m.conversation_kind = ?"@, a3);
    lemma_with_arg(p3, "m.conversation_id = ?"@, a4);
    lemma_asks_more(p1, p2, "m.platform = ?"@, a1);
    lemma_asks_more(p2, p3, "m.platform = ?"@, a1);
    lemma_asks_more(p3, p4, "m.platform = ?"@, a1);
    lemma_asks_more(p2, p3, "m.account_id = ?"@, a2);
    lemma_asks_more(p3, p4, "m.account_id = ?"@, a2);
    lemma_asks_more(p3, p4, "m.conversation_kind = ?"@, a3);
}

proof fn lemma_asked_of_sender(q: MessagesQueryModel)
    ensures
        trim(q.sender_id).len() > 0 ==> binds(
            asked_of_sender(q),
            "m.sender_id = ?"@,
            SqlArgModel::Text(trim(q.sender_id)),
        ),
        asks_more(asked_of_scope(q), asked_of_sender(q)),
{
    reveal(asked_of_sender);
    lemma_with_arg(asked_of_scope(q), "m.sender_id = ?"@, SqlArgModel::Text(trim(q.sender_id)));
    lemma_asks_itself(asked_of_scope(q));
}

proof fn lemma_asked_of_period(q: MessagesQueryModel)
    ensures
        q.since is Some ==> binds(
            asked_of_start(q),
            "m.sent_at >= ?"@,
            SqlArgModel::Integer(q.since->0),
        ),
        q.until is Some ==> binds(asked_of_end(q), "m.sent_at <= ?"@, SqlArgModel::Integer(q.until->0)),
        asks_more(asked_of_sender(q), asked_of_start(q)),
        asks_more(asked_of_start(q), asked_of_end(q)),
{
    reveal(asked_of_start);
    reveal(asked_of_end);
    if q.since is Some {
        lemma_with_arg(asked_of_sender(q), "m.sent_at >= ?"@, SqlArgModel::Integer(q.since->0));
    }
    if q.until is Some {
        lemma_with_arg(asked_of_start(q), "m.sent_at <= ?"@, SqlArgModel::Integer(q.until->0));
    }
    lemma_asks_itself(asked_of_sender(q));
    lemma_asks_itself(asked_of_start(q));
}

proof fn lemma_asked_of_restrictions(q: MessagesQueryModel)
    ensures
        q.only_recalled ==> asked_of_recalls(q).conditions.contains("m.recalled_at IS NOT NULL"@),
        q.only_media ==> asked_of_media(q).conditions.contains("m.media_json <> '[]'"@),
        asks_more(asked_of_end(q), asked_of_recalls(q)),
        asks_more(asked_of_recalls(q), asked_of_media(q)),
{
    reveal(asked_of_recalls);
    reveal(asked_of_media);
    lemma_with_condition(asked_of_end(q), "m.recalled_at IS NOT NULL"@);
    lemma_with_condition(asked_of_recalls(q), "m.media_json <> '[]'"@);
    lemma_asks_itself(asked_of_end(q));
    lemma_asks_itself(asked_of_recalls(q));
}

proof fn lemma_asked_of_page(q: MessagesQueryModel)
    ensures
        asks_more(asked_of_media(q), message_parts(q)),
        q.before is Some ==> message_parts(q).args.len() >= 2 && message_parts(q).args.last()
            == SqlArgModel::Integer(q.before->0.row_id) && message_parts(q).args[message_parts(
            q,
        ).args.len() - 2] == SqlArgModel::Integer(q.before->0.sent_at),
{
    reveal(asked_of_text);
    reveal(asked_of_scope);
    reveal(asked_of_sender);
    reveal(asked_of_start);
    reveal(asked_of_end);
    reveal(asked_of_recalls);
    reveal(asked_of_media);
    reveal(asks_more);
    let p9 = asked_of_media(q);
    match q.before {
        None => {
            assert(message_parts(q) == p9);
        },
        Some(c) => {
            assert(message_parts(q).args == p9.args.push(SqlArgModel::Integer(c.sent_at)).push(
                SqlArgModel::Integer(c.row_id),
            ));
        },
    }
}

// What is asked of the scope is still asked at the end.
proof fn lemma_asked_to_the_end(q: MessagesQueryModel, condition: Seq<char>)
    ensures
        asks_more(asked_of_scope(q), message_parts(q)),
        asks_more(asked_of_sender(q), message_parts(q)),
        asks_more(asked_of_start(q), message_parts(q)),
        asks_more(asked_of_end(q), message_parts(q)),
        asked_of_recalls(q).conditions.contains(condition) ==> message_parts(q).conditions.contains(
            condition,
        ),
        asked_of_media(q).conditions.contains(condition) ==> message_parts(q).conditions.contains(
            condition,
        ),
{
    let p = message_parts(q);
    lemma_asked_of_sender(q);
    lemma_asked_of_period(q);
    lemma_asked_of_restrictions(q);
    lemma_asked_of_page(q);
    lemma_asks_itself(p);
    lemma_keeps(asked_of_media(q), p, p, condition);
    lemma_keeps(asked_of_recalls(q), asked_of_media(q), p, condition);
    lemma_keeps(asked_of_end(q), asked_of_recalls(q), p, condition);
    lemma_keeps(asked_of_start(q), asked_of_end(q), p, condition);
    lemma_keeps(asked_of_sender(q), asked_of_start(q), p, condition);
    lemma_keeps(asked_of_scope(q), asked_of_sender(q), p, condition);
}

/// A search of the dashboard keeps to its conversation, its sender, its period and what it
/// restricts itself to, and goes on where the page before it ended.
pub proof fn law_a_search_asks_for_what_it_is_told(q: MessagesQueryModel)
    ensures
        ({
            let p = message_parts(q);
            &&& binds(p, "m.platform = ?"@, SqlArgModel::Text(q.key.platform))
            &&& binds(p, "m.account_id = ?"@, SqlArgModel::Text(q.key.account_id))
            &&& binds(p, "m.conversation_kind = ?"@, SqlArgModel::Text(q.key.kind.name()))
            &&& binds(p, "m.conversation_id = ?"@, SqlArgModel::Text(q.key.conversation_id))
            &&& trim(q.sender_id).len() > 0 ==> binds(
                p,
                "m.sender_id = ?"@,
                SqlArgModel::Text(trim(q.sender_id)),
            )
            &&& q.since is Some ==> binds(p, "m.sent_at >= ?"@, SqlArgModel::Integer(q.since->0))
            &&& q.until is Some ==> binds(p, "m.sent_at <= ?"@, SqlArgModel::Integer(q.until->0))
            &&& q.only_recalled ==> p.conditions.contains("m.recalled_at IS NOT NULL"@)
            &&& q.only_media ==> p.conditions.contains("m.media_json <> '[]'"@)
            &&& q.before is Some ==> p.args.len() >= 2 && p.args.last() == SqlArgModel::Integer(
                q.before->0.row_id,
            ) && p.args[p.args.len() - 2] == SqlArgModel::Integer(q.before->0.sent_at)
        }),
{
    let p = message_parts(q);
    let s = asked_of_scope(q);
    lemma_asked_of_scope(q);
    lemma_asked_of_sender(q);
    lemma_asked_of_period(q);
    lemma_asked_of_restrictions(q);
    lemma_asked_of_page(q);
    lemma_asked_to_the_end(q, "m.recalled_at IS NOT NULL"@);
    lemma_asked_to_the_end(q, "m.media_json <> '[]'"@);
    lemma_asks_more(s, p, "m.platform = ?"@, SqlArgModel::Text(q.key.platform));
    lemma_asks_more(s, p, "m.account_id = ?"@, SqlArgModel::Text(q.key.account_id));
    lemma_asks_more(s, p, "m.conversation_kind = ?"@, SqlArgModel::Text(q.key.kind.name()));
    lemma_asks_more(s, p, "m.conversation_id = ?"@, SqlArgModel::Text(q.key.conversation_id));
    lemma_asks_more(
        asked_of_sender(q),
        p,
        "m.sender_id = ?"@,
        SqlArgModel::Text(trim(q.sender_id)),
    );
    if q.since is Some {
        lemma_asks_more(
            asked_of_start(q),
            p,
            "m.sent_at >= ?"@,
            SqlArgModel::Integer(q.since->0),
        );
    }
    if q.until is Some {
        lemma_asks_more(asked_of_end(q), p, "m.sent_at <= ?"@, SqlArgModel::Integer(q.until->0));
    }
}

/// A search that restricts itself to nothing asks for its conversation alone.
pub proof fn law_an_open_search_asks_for_its_conversation(q: MessagesQueryModel)
    requires
        q.terms.len() == 0,
        trim(q.sender_id).len() == 0,
        q.since is None,
        q.until is None,
        !q.only_recalled,
        !q.only_media,
        q.before is None,
    ensures
        message_parts(q).conditions.len() == 4,
        message_parts(q).args == seq![
            SqlArgModel::Text(q.key.platform),
            SqlArgModel::Text(q.key.account_id),
            SqlArgModel::Text(q.key.kind.name()),
            SqlArgModel::Text(q.key.conversation_id),
        ],
{
    assert(message_parts(q).args =~= seq![
        SqlArgModel::Text(q.key.platform),
        SqlArgModel::Text(q.key.account_id),
        SqlArgModel::Text(q.key.kind.name()),
        SqlArgModel::Text(q.key.conversation_id),
    ]);
}

/// A page is as long as it is asked to be, within bounds, and where there is more it says
/// where the next one starts: behind its own last message.
pub proof fn law_pages_of_the_dashboard(asked: usize, rows: Seq<HistoryCursor>)
    ensures
        1 <= asked <= 200 ==> dashboard_limit(asked) == asked,
        asked == 0 ==> dashboard_limit(asked) == 1,
        asked > 200 ==> dashboard_limit(asked) == 200,
        page_cut(rows, asked).0 <= rows.len(),
        page_cut(rows, asked).1 is None <==> rows.len() <= dashboard_limit(asked),
        page_cut(rows, asked).1 is None ==> page_cut(rows, asked).0 == rows.len(),
        page_cut(rows, asked).1 is Some ==> page_cut(rows, asked).0 == dashboard_limit(asked)
            && page_cut(rows, asked).1->0 == rows[page_cut(rows, asked).0 - 1],
{
}

/// Texts come in the order of the alphabet: one of two different ones comes first, and never
/// both.
pub proof fn law_the_order_of_texts(a: Seq<char>, b: Seq<char>)
    ensures
        !text_before(a, a),
        text_before(a, b) ==> !text_before(b, a),
        a != b ==> text_before(a, b) || text_before(b, a),
        a.len() > 0 && b.len() > 0 && a[0] < b[0] ==> text_before(a, b),
        b.len() > 0 ==> text_before(seq![], b),
    decreases a.len(),
{
    if a.len() > 0 {
        law_the_order_of_texts(a.drop_first(), a.drop_first());
    }
    if a.len() > 0 && b.len() > 0 {
        law_the_order_of_texts(a.drop_first(), b.drop_first());
        if a[0] == b[0] && a != b {
            assert(a.drop_first() != b.drop_first()) by {
                if a.drop_first() == b.drop_first() {
                    assert(a =~= seq![a[0]] + a.drop_first());
                    assert(b =~= seq![b[0]] + b.drop_first());
                }
            }
        }
    }
    if a.len() == 0 && b.len() == 0 {
        assert(a =~= b);
    }
}

/// The table of hours shows what was counted for an hour, and nothing where nothing was.
pub proof fn law_hours_are_shown(rows: Seq<HeatRow>, i: int, weekday: int, hour: int)
    requires
        forall|a: int, b: int|
            0 <= a < b < rows.len() ==> (#[trigger] rows[a]).weekday != (#[trigger] rows[b]).weekday
                || rows[a].hour != rows[b].hour,
    ensures
        0 <= i < rows.len() && rows[i].weekday == weekday && rows[i].hour == hour ==> heat_at(
            rows,
            weekday,
            hour,
        ) == rows[i].count,
        (forall|k: int|
            0 <= k < rows.len() ==> (#[trigger] rows[k]).weekday != weekday || rows[k].hour != hour)
            ==> heat_at(rows, weekday, hour) == 0,
    decreases rows.len(),
{
    if rows.len() > 0 {
        let short = rows.drop_last();
        assert forall|a: int, b: int| 0 <= a < b < short.len() implies (
        #[trigger] short[a]).weekday != (#[trigger] short[b]).weekday || short[a].hour
            != short[b].hour by {
            assert(short[a] == rows[a] && short[b] == rows[b]);
        }
        law_hours_are_shown(short, i, weekday, hour);
        let last = rows.len() - 1;
        if 0 <= i < last && rows[i].weekday == weekday && rows[i].hour == hour {
            assert(rows[i].weekday != rows[last].weekday || rows[i].hour != rows[last].hour);
            assert(short[i] == rows[i]);
        }
        if (forall|k: int|
            0 <= k < rows.len() ==> (#[trigger] rows[k]).weekday != weekday || rows[k].hour != hour) {
            assert(rows[last].weekday != weekday || rows[last].hour != hour);
            assert forall|k: int| 0 <= k < short.len() implies (#[trigger] short[k]).weekday
                != weekday || short[k].hour != hour by {
                assert(short[k] == rows[k]);
            }
        }
    }
}

/// A deletion from the dashboard covers what it names and no more: its conversation, its
/// sender, its period, and the days that it keeps.
pub proof fn law_a_deletion_keeps_to_what_it_names(d: DeleteSpecModel)
    ensures
        ({
            let r = dashboard_deletion(d);
            &&& r.since == d.since && r.until == d.until
            &&& trim(d.sender_id).len() > 0 ==> r.sender_id == Some(trim(d.sender_id))
            &&& trim(d.sender_id).len() == 0 ==> r.sender_id is None
            &&& d.keep_days is Some ==> r.mode == DeleteMode::KeepDays(d.keep_days->0)
            &&& d.keep_days is None ==> r.mode == DeleteMode::All
            &&& d.key is Some ==> r.scope.conversation_id == d.key->0.conversation_id
                && r.scope.account_id == d.key->0.account_id && r.scope.platform
                == d.key->0.platform
            &&& d.key is Some && d.key->0.kind == ConversationKind::Group ==> r.scope.kind
                == ScopeKind::Group
            &&& d.key is Some && d.key->0.kind == ConversationKind::Private ==> r.scope.kind
                == ScopeKind::Private
            &&& d.key is None ==> r.scope.kind == ScopeKind::AllGroups && r.scope.account_id
                == d.account_id
        }),
{
}

/// The statistics of a conversation are asked of that conversation and of that period.
pub proof fn law_statistics_keep_to_their_period(
    key: ConversationModel,
    since: i64,
    until: i64,
    limit: usize,
    offset: usize,
)
    ensures
        ({
            let s = stats_statements(key, since, until, limit);
            let r = recall_statements(key, limit, offset);
            &&& s.heat.args == s.totals.args && s.heat.args == s.media.args
            &&& s.heat.args.len() == 6
            &&& s.heat.args[0] == SqlArgModel::Text(key.platform)
            &&& s.heat.args[1] == SqlArgModel::Text(key.account_id)
            &&& s.heat.args[2] == SqlArgModel::Text(key.kind.name())
            &&& s.heat.args[3] == SqlArgModel::Text(key.conversation_id)
            &&& s.heat.args[4] == SqlArgModel::Integer(since)
            &&& s.heat.args[5] == SqlArgModel::Integer(until)
            &&& r.total.args == s.heat.args.take(4) && r.page.args == s.heat.args.take(4)
            &&& 1 <= limit <= 200 ==> s.limit == limit
        }),
{
    let s = stats_statements(key, since, until, limit);
    assert(s.heat.args.take(4) =~= scope_args(key));
}

/// Every kind of attachment is counted as often as it occurs.
pub proof fn law_attachments_are_counted(kinds: Seq<Seq<char>>, k: Seq<char>, i: int)
    ensures
        occurrences(kinds.push(k), k) == occurrences(kinds, k) + 1,
        forall|other: Seq<char>| other != k ==> #[trigger] occurrences(kinds.push(k), other)
            == occurrences(kinds, other),
        occurrences(Seq::empty(), k) == 0,
        0 <= i < kind_counts(kinds).len() ==> kinds.contains(kind_counts(kinds)[i].kind)
            && kind_counts(kinds)[i].count == occurrences(
            kinds,
            kind_counts(kinds)[i].kind,
        ) as usize,
{
    assert(kinds.push(k).drop_last() =~= kinds);
    law_sorted_distinct(kinds);
    if 0 <= i < kind_counts(kinds).len() {
        let t = sorted_distinct(kinds)[i];
        assert(sorted_distinct(kinds).contains(t));
    }
}

/// The conversations of one account are asked for where an account is named, else those of
/// all; a conversation is named by its kind.
pub proof fn law_conversations_that_are_listed(id: Seq<char>, other: Seq<char>)
    ensures
        id.len() > 0 ==> conversations_sql(Some(id)).args == seq![
            SqlArgModel::Text("onebot"@),
            SqlArgModel::Text(id),
        ],
        conversations_sql(None).args == seq![SqlArgModel::Text("onebot"@)],
        conversations_sql(Some(Seq::empty())).args == seq![SqlArgModel::Text("onebot"@)],
        kind_named("group"@) == Ok::<ConversationKind, Seq<char>>(ConversationKind::Group),
        kind_named("private"@) == Ok::<ConversationKind, Seq<char>>(ConversationKind::Private),
        kind_named(other) is Ok <==> other == "group"@ || other == "private"@,
{
    reveal_strlit("group");
    reveal_strlit("private");
    assert("group"@.len() == 5 && "private"@.len() == 7);
}

/// A statement asks under all its conditions, for one message more than a page holds, the
/// newest first.
pub proof fn law_the_statement_of_a_search(q: MessagesQueryModel, columns: Seq<char>, k: int)
    requires
        0 <= k < message_parts(q).conditions.len(),
    ensures
        messages_sql(q, columns).args == message_parts(q).args,
        occurs(messages_sql(q, columns).sql, message_parts(q).conditions[k]),
        occurs(messages_sql(q, columns).sql, columns),
        1 <= q.limit <= 200 ==> occurs(
            messages_sql(q, columns).sql,
            " ORDER BY m.sent_at DESC, m.id DESC LIMIT "@ + decimal((q.limit + 1) as nat),
        ),
{
    let c = message_parts(q).conditions;
    let w = join(c, " AND "@);
    law_joined_parts_occur(c, " AND "@, k);
    let from = if uses_fts(q.terms) {
        "messages_fts JOIN messages AS m ON m.id = messages_fts.rowid"@
    } else {
        "messages AS m"@
    };
    let t1 = "SELECT "@ + columns;
    law_writing_on_loses_nothing("SELECT "@, columns);
    law_writing_on_loses_nothing(t1, " FROM "@);
    let t2 = t1 + " FROM "@;
    law_writing_on_loses_nothing(t2, from);
    law_writing_on_loses_nothing(t2 + from, " WHERE "@);
    let t3 = t2 + from + " WHERE "@;
    law_writing_on_loses_nothing(t3, w);
    law_occurs_in_more(t3, w, seq![], c[k]);
    assert(t3 + w + seq![] =~= t3 + w);
    let o = " ORDER BY m.sent_at DESC, m.id DESC LIMIT "@;
    let n = decimal((dashboard_limit(q.limit) + 1) as nat);
    law_writing_on_loses_nothing(t3 + w, o);
    law_writing_on_loses_nothing(t3 + w + o, n);
    law_writing_on_loses_nothing(t3 + w, o + n);
    assert(t3 + w + o + n =~= t3 + w + (o + n));
}

/// Of each message the kinds of all its attachments are counted.
pub proof fn law_kinds_of_all_messages(rows: Seq<Seq<char>>, row: Seq<char>, items: Seq<Seq<char>>, item: Seq<char>)
    ensures
        kinds_in(rows.push(row)) == kinds_in(rows) + row_kinds(row),
        kinds_in(Seq::empty()).len() == 0,
        json_text(item, "kind"@) is Some ==> item_kinds(items.push(item)) == item_kinds(items).push(
            json_text(item, "kind"@)->0,
        ),
        json_text(item, "kind"@) is None ==> item_kinds(items.push(item)) == item_kinds(items),
        json_items(row, ""@) is None ==> row_kinds(row).len() == 0,
        json_items(row, ""@) is Some ==> row_kinds(row) == item_kinds(json_items(row, ""@)->0),
{
    assert(rows.push(row).drop_last() =~= rows);
    assert(items.push(item).drop_last() =~= items);
}

/// A word is looked for in what was said and in who said it.
pub proof fn law_words_are_looked_for(p: SqlParts, terms: Seq<Seq<char>>, t: Seq<char>)
    ensures
        ({
            let before = with_terms(p, terms);
            let after = with_terms(p, terms.push(t));
            let n = decimal((before.args.len() + 1) as nat);
            &&& after.args == before.args.push(SqlArgModel::Text(t))
            &&& after.conditions == before.conditions.push(
                "(instr(lower(m.text), lower(?"@ + n + ")) > 0 OR instr(lower(m.sender_name), lower(?"@
                    + n + ")) > 0)"@,
            )
            &&& with_terms(p, Seq::empty()) == p
        }),
{
    assert(terms.push(t).drop_last() =~= terms);
}

} // verus!
