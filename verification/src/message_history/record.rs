//! What is kept of a message.

use crate::chance::{draw, drawn};
use crate::numbers::{
    decimal, decimal_int, decimal_int_text, decimal_text, hex_digits, hex_text,
    law_numbers_read_back,
};
use crate::platform::{Media, MediaKind, MediaModel};
use crate::real_context::targeting::{Mention, MentionModel};
use crate::text::{
    char_is_white, chars_of, copy_opt, copy_texts, find_from, find_in, first_chars, is_blank,
    is_empty_text, is_white, join, joined, lemma_find_from, lemma_find_occurs, lines, occurs, opt_text, opt_view, same,
    slice_text, stands_at, text_lines, texts, trim, trimmed, views,
};
use vstd::prelude::*;
use vstd::string::*;

verus! {

// ---------------------------------------------------------------------------
// Forwarded messages

/// How many characters of a forwarded block are kept.
pub const MAX_FORWARD_DIGEST_CHARS: usize = 160;

/// The lines of a forwarded block that count, trimmed.
pub open spec fn forward_lines(raw: Seq<Seq<char>>) -> Seq<Seq<char>>
    decreases raw.len(),
{
    if raw.len() == 0 {
        seq![]
    } else {
        let before = forward_lines(raw.drop_last());
        let line = trim(raw.last());
        if line.len() > 0 && line != "(forwarded content truncated)"@ {
            before.push(line)
        } else {
            before
        }
    }
}

/// What is kept of a forwarded block.
pub open spec fn forward_summary(body: Seq<char>) -> Seq<char> {
    let kept = forward_lines(lines(body));
    let whole = "[forward x"@ + decimal(kept.len()) + "] "@ + join(kept, " / "@);
    if whole.len() > MAX_FORWARD_DIGEST_CHARS {
        whole.take(MAX_FORWARD_DIGEST_CHARS as int).push('…')
    } else {
        whole
    }
}

/// What stands before a summary: the text before the block, with a space unless
/// there is nothing or white space at its end.
pub open spec fn forward_lead(before: Seq<char>) -> Seq<char> {
    if before.len() > 0 && !is_white(before.last()) {
        before.push(' ')
    } else {
        before
    }
}

/// A text with its first forwarded block replaced by a summary; nothing where it
/// holds no block.
pub open spec fn digest_of(text: Seq<char>) -> Option<Seq<char>> {
    let open = find_from(text, "\n<qq-forward>\n"@, 0);
    let close = find_from(text, "</qq-forward>"@, open);
    if open > text.len() || close > text.len() {
        None
    } else {
        Some(
            forward_lead(text.take(open)) + forward_summary(text.subrange(open + 14, close))
                + text.subrange(close + 13, text.len() as int),
        )
    }
}

/// A summary is never longer than the limit and its ellipsis.
pub proof fn law_forward_summary_is_bounded(body: Seq<char>)
    ensures
        forward_summary(body).len() <= MAX_FORWARD_DIGEST_CHARS + 1,
{
}

proof fn lemma_close_follows_open(text: Seq<char>, open: int)
    requires
        stands_at(text, "\n<qq-forward>\n"@, open),
    ensures
        open + 14 <= text.len(),
        forall|j: int| open <= j < open + 14 ==> !#[trigger] stands_at(text, "</qq-forward>"@, j),
{
    reveal_strlit("\n<qq-forward>\n");
    reveal_strlit("</qq-forward>");
    let o = "\n<qq-forward>\n"@;
    let c = "</qq-forward>"@;
    assert forall|j: int| open <= j < open + 14 implies !#[trigger] stands_at(text, c, j) by {
        if stands_at(text, c, j) {
            let window = text.subrange(open, open + 14);
            let there = text.subrange(j, j + 13);
            assert(window == o);
            assert(there == c);
            assert(text[j] == o[j - open]) by {
                assert(window[j - open] == text[j]);
            }
            assert(there[0] == text[j]);
            assert(c[0] == '<');
            assert(o[j - open] == '<');
            assert(j == open + 1);
            assert(window[2] == text[open + 2]);
            assert(there[1] == text[open + 2]);
            assert(false);
        }
    }
}

/// A text with its first forwarded block replaced by a bounded summary; nothing
/// where it holds no block.
pub fn forward_digest(text: &str) -> (r: Option<String>)
    ensures
        opt_text(r) == digest_of(text@),
{
    let v: Vec<char> = chars_of(text);
    let open_mark: Vec<char> = chars_of("\n<qq-forward>\n");
    let close_mark: Vec<char> = chars_of("</qq-forward>");
    let open: usize = match find_in(&v, &open_mark, 0) {
        Some(i) => i,
        None => {
            proof {
                lemma_find_from(text@, "</qq-forward>"@, 0);
            }
            return None;
        }
    };
    let close: usize = match find_in(&v, &close_mark, open) {
        Some(i) => i,
        None => {
            return None;
        }
    };
    proof {
        lemma_close_follows_open(text@, open as int);
        assert(stands_at(text@, "</qq-forward>"@, close as int));
        reveal_strlit("</qq-forward>");
        lemma_find_from(text@, "</qq-forward>"@, open as int);
    }
    let body: String = slice_text(&v, open + 14, close);
    let raw: Vec<String> = text_lines(&body);
    let ghost all = texts(raw@);
    let mut kept: Vec<String> = Vec::new();
    let mut i: usize = 0;
    assert(all.take(0) =~= seq![]);
    assert(texts(kept@) =~= seq![]);
    while i < raw.len()
        invariant
            i <= raw.len(),
            all == texts(raw@),
            texts(kept@) == forward_lines(all.take(i as int)),
        decreases raw.len() - i,
    {
        assert(all.take(i + 1).drop_last() =~= all.take(i as int));
        assert(all[i as int] == raw@[i as int]@);
        let line: String = trimmed(&raw[i]);
        if !is_empty_text(&line) && !same(&line, "(forwarded content truncated)") {
            let ghost before = texts(kept@);
            kept.push(line);
            assert(texts(kept@) =~= before.push(line@));
        }
        i += 1;
    }
    assert(all.take(raw.len() as int) =~= all);
    let mut summary: String = "[forward x".to_owned();
    let count: String = decimal_text(kept.len() as u64);
    summary.append(&count);
    summary.append("] ");
    let listed: String = joined(&kept, " / ");
    summary.append(&listed);
    if summary.as_str().unicode_len() > MAX_FORWARD_DIGEST_CHARS {
        let mut cut: String = first_chars(&summary, MAX_FORWARD_DIGEST_CHARS);
        cut.push('…');
        summary = cut;
    }
    assert(summary@ == forward_summary(body@));
    let mut out: String = slice_text(&v, 0, open);
    assert(out@ =~= text@.take(open as int));
    if open > 0 && !char_is_white(v[open - 1]) {
        out.push(' ');
    }
    out.append(&summary);
    let tail: String = slice_text(&v, close + 13, v.len());
    out.append(&tail);
    Some(out)
}

// ---------------------------------------------------------------------------
// Media

/// The kind of media as the history keeps it.
#[derive(Clone, Copy, Debug, PartialEq, Eq, Structural)]
pub enum StoredKind {
    Image,
    Sticker,
    File,
    Audio,
    Video,
    Other,
}

/// The kind of media as the history keeps it: a face is a sticker, no image.
pub open spec fn stored_kind(kind: MediaKind) -> StoredKind {
    match kind {
        MediaKind::Image => StoredKind::Image,
        MediaKind::Emoji => StoredKind::Sticker,
        MediaKind::File => StoredKind::File,
        MediaKind::Audio => StoredKind::Audio,
        MediaKind::Video => StoredKind::Video,
        MediaKind::Other => StoredKind::Other,
    }
}

/// The kind of media as the history keeps it: a face is a sticker, no image.
pub fn media_kind(kind: MediaKind) -> (r: StoredKind)
    ensures
        r == stored_kind(kind),
{
    match kind {
        MediaKind::Image => StoredKind::Image,
        MediaKind::Emoji => StoredKind::Sticker,
        MediaKind::File => StoredKind::File,
        MediaKind::Audio => StoredKind::Audio,
        MediaKind::Video => StoredKind::Video,
        MediaKind::Other => StoredKind::Other,
    }
}

/// A piece of media as the history keeps it.
pub struct StoredMedia {
    pub kind: StoredKind,
    pub label: Option<String>,
    /// By which it can be fetched later; kept of files and videos only.
    pub media_id: Option<String>,
}

/// What a [`StoredMedia`] holds, as values.
#[verifier::ext_equal]
pub struct StoredMediaModel {
    pub kind: StoredKind,
    pub label: Option<Seq<char>>,
    pub media_id: Option<Seq<char>>,
}

impl View for StoredMedia {
    type V = StoredMediaModel;

    open spec fn view(&self) -> StoredMediaModel {
        StoredMediaModel {
            kind: self.kind,
            label: opt_text(self.label),
            media_id: opt_text(self.media_id),
        }
    }
}

impl StoredMedia {
    /// A value that holds the same.
    pub fn copy(&self) -> (r: StoredMedia)
        ensures
            r@ == self@,
    {
        StoredMedia {
            kind: self.kind,
            label: copy_opt(&self.label),
            media_id: copy_opt(&self.media_id),
        }
    }

    /// A list that holds the same values.
    pub fn copy_all(v: &Vec<StoredMedia>) -> (r: Vec<StoredMedia>)
        ensures
            views(r@) == views(v@),
            r.len() == v.len(),
    {
        let mut out: Vec<StoredMedia> = Vec::new();
        let mut i: usize = 0;
        while i < v.len()
            invariant
                i <= v.len(),
                out.len() == i,
                forall|j: int| 0 <= j < i ==> (#[trigger] out@[j])@ == v@[j]@,
            decreases v.len() - i,
        {
            out.push(v[i].copy());
            i += 1;
        }
        assert(views(out@) =~= views(v@));
        out
    }
}


/// What is kept of a piece of media.
pub open spec fn stored_media(m: MediaModel) -> StoredMediaModel {
    StoredMediaModel {
        kind: stored_kind(m.kind),
        label: if m.name is Some {
            m.name
        } else {
            m.id
        },
        media_id: if m.kind == MediaKind::File || m.kind == MediaKind::Video {
            m.id
        } else {
            None
        },
    }
}

/// What is kept of a piece of media: its name, or else its id, and the id of a
/// file or a video.
pub fn store_media(m: &Media) -> (r: StoredMedia)
    ensures
        r@ == stored_media(m@),
{
    StoredMedia {
        kind: media_kind(m.kind),
        label: if m.name.is_some() {
            copy_opt(&m.name)
        } else {
            copy_opt(&m.id)
        },
        media_id: if m.kind == MediaKind::File || m.kind == MediaKind::Video {
            copy_opt(&m.id)
        } else {
            None
        },
    }
}

// ---------------------------------------------------------------------------
// Ids and times

/// The id under which a message is kept: its own, or one made of its place in the
/// stream, or one made of the time and chance.
pub open spec fn message_key(
    message_id: Seq<char>,
    ingress_order: Option<i64>,
    now: i64,
    bits: u64,
) -> Seq<char> {
    if trim(message_id).len() > 0 {
        message_id
    } else {
        match ingress_order {
            Some(order) => "ingress-"@ + decimal_int(order as int),
            None => "ingress-"@ + decimal_int(now as int) + "-"@ + hex_digits(bits as nat, 8),
        }
    }
}

/// The id under which a message is kept, given the bits drawn for it.
pub fn message_key_from(message_id: &str, ingress_order: Option<i64>, now: i64, bits: u64) -> (r:
    String)
    ensures
        r@ == message_key(message_id@, ingress_order, now, bits),
{
    if !is_blank(message_id) {
        return message_id.to_owned();
    }
    let mut out: String = "ingress-".to_owned();
    match ingress_order {
        Some(order) => {
            let n: String = decimal_int_text(order);
            out.append(&n);
        }
        None => {
            let n: String = decimal_int_text(now);
            out.append(&n);
            out.append("-");
            let h: String = hex_text(bits, 8);
            out.append(&h);
        }
    }
    out
}

/// The id under which a message is kept. The bits in it, if any, are drawn at random.
pub fn event_message_id(message_id: &str, ingress_order: Option<i64>, now: i64) -> (r: String)
    ensures
        exists|bits: u64|
            #[trigger] drawn(bits) && r@ == message_key(message_id@, ingress_order, now, bits),
{
    message_key_from(message_id, ingress_order, now, draw())
}

/// A message that has an id, or a place in the stream, is kept under the same id
/// however often it comes, so that it is kept once.
pub proof fn law_same_message_same_key(
    message_id: Seq<char>,
    ingress_order: Option<i64>,
    now: i64,
    bits: u64,
    later: i64,
    other_bits: u64,
)
    requires
        trim(message_id).len() > 0 || ingress_order is Some,
    ensures
        message_key(message_id, ingress_order, now, bits) == message_key(
            message_id,
            ingress_order,
            later,
            other_bits,
        ),
{
}

/// The id under which a message of the assistant is kept: the platform's, or one
/// made of the time and chance.
pub open spec fn own_message_key(given: Seq<char>, now: i64, bits: u64) -> Seq<char> {
    if trim(given).len() > 0 {
        given
    } else {
        "gqy-"@ + decimal_int(now as int) + "-"@ + hex_digits(bits as nat, 8)
    }
}

/// The id under which a message of the assistant is kept, given the bits drawn.
pub fn own_message_key_from(given: &str, now: i64, bits: u64) -> (r: String)
    ensures
        r@ == own_message_key(given@, now, bits),
{
    if !is_blank(given) {
        return given.to_owned();
    }
    let mut out: String = "gqy-".to_owned();
    let n: String = decimal_int_text(now);
    out.append(&n);
    out.append("-");
    let h: String = hex_text(bits, 8);
    out.append(&h);
    out
}

/// The id under which a note of the assistant is kept. The bits in it, if any, are
/// drawn at random.
pub fn external_message_id(given: &str, now: i64) -> (r: String)
    ensures
        exists|bits: u64| #[trigger] drawn(bits) && r@ == own_message_key(given@, now, bits),
{
    own_message_key_from(given, now, draw())
}

/// The id under which a message that was sent is kept: the first of its receipt.
pub open spec fn sent_message_key(receipt: Seq<Seq<char>>, now: i64, bits: u64) -> Seq<char> {
    if receipt.len() > 0 {
        receipt[0]
    } else {
        own_message_key(seq![], now, bits)
    }
}

/// The id under which a message that was sent is kept. The bits in it, if any, are
/// drawn at random.
pub fn outbound_message_id(receipt: &Vec<String>, now: i64) -> (r: String)
    ensures
        exists|bits: u64|
            #[trigger] drawn(bits) && r@ == sent_message_key(texts(receipt@), now, bits),
{
    let bits: u64 = draw();
    if receipt.len() > 0 {
        assert(texts(receipt@)[0] == receipt@[0]@);
        assert(receipt@[0]@ == sent_message_key(texts(receipt@), now, bits));
        return receipt[0].clone();
    }
    proof {
        reveal_strlit("");
        assert(""@ =~= seq![]);
    }
    let r: String = own_message_key_from("", now, bits);
    assert(r@ == sent_message_key(texts(receipt@), now, bits));
    r
}

/// The time of an event, or now where the platform gave none.
pub fn normalized_timestamp(timestamp: i64, now: i64) -> (r: i64)
    ensures
        r == (if timestamp > 0 {
            timestamp
        } else {
            now
        }),
{
    if timestamp > 0 {
        timestamp
    } else {
        now
    }
}

// ---------------------------------------------------------------------------
// What the assistant sends

/// A piece of a message that is sent, as far as its text goes.
pub enum Segment {
    /// Plain or marked-up text.
    Text(String),
    /// A mention of a member.
    Mention(String),
    /// A voice message, as the history tells it.
    Voice(String),
    /// An image or a file.
    Silent,
}

/// The text that a piece leaves in the history.
pub open spec fn segment_text(s: Segment) -> Option<Seq<char>> {
    match s {
        Segment::Text(t) => if trim(t@).len() > 0 {
            Some(t@)
        } else {
            None
        },
        Segment::Mention(id) => Some("@"@ + id@),
        Segment::Voice(t) => Some(t@),
        Segment::Silent => None,
    }
}

/// The texts that the pieces leave, after those before them.
pub open spec fn segment_texts(before: Seq<Seq<char>>, segments: Seq<Segment>) -> Seq<Seq<char>>
    decreases segments.len(),
{
    if segments.len() == 0 {
        before
    } else {
        let so_far = segment_texts(before, segments.drop_last());
        match segment_text(segments.last()) {
            Some(t) => so_far.push(t),
            None => so_far,
        }
    }
}

/// Adds the texts that the pieces leave in the history.
pub fn append_segment_text(parts: &mut Vec<String>, segments: &Vec<Segment>)
    ensures
        texts(final(parts)@) == segment_texts(texts(old(parts)@), segments@),
{
    let ghost start = texts(parts@);
    let mut i: usize = 0;
    assert(segments@.take(0) =~= seq![]);
    while i < segments.len()
        invariant
            i <= segments.len(),
            texts(parts@) == segment_texts(start, segments@.take(i as int)),
        decreases segments.len() - i,
    {
        assert(segments@.take(i + 1).drop_last() =~= segments@.take(i as int));
        let ghost before = texts(parts@);
        match &segments[i] {
            Segment::Text(t) => {
                if !is_blank(t) {
                    parts.push(t.clone());
                    assert(texts(parts@) =~= before.push(t@));
                }
            }
            Segment::Mention(id) => {
                let mut m: String = "@".to_owned();
                m.append(id);
                parts.push(m);
                assert(texts(parts@) =~= before.push("@"@ + id@));
            }
            Segment::Voice(t) => {
                parts.push(t.clone());
                assert(texts(parts@) =~= before.push(t@));
            }
            Segment::Silent => {}
        }
        i += 1;
    }
    assert(segments@.take(segments.len() as int) =~= segments@);
}

/// The texts that the nodes of a message leave.
pub open spec fn node_texts(nodes: Seq<Vec<Segment>>) -> Seq<Seq<char>>
    decreases nodes.len(),
{
    if nodes.len() == 0 {
        seq![]
    } else {
        segment_texts(node_texts(nodes.drop_last()), nodes.last()@)
    }
}

/// The text of a message that is sent: the texts of its nodes on lines of their
/// own. A message that forwards nothing is a single node.
pub fn outbound_text(nodes: &Vec<Vec<Segment>>) -> (r: String)
    ensures
        r@ == trim(join(node_texts(nodes@), "\n"@)),
{
    let mut parts: Vec<String> = Vec::new();
    let mut i: usize = 0;
    assert(nodes@.take(0) =~= seq![]);
    assert(texts(parts@) =~= seq![]);
    while i < nodes.len()
        invariant
            i <= nodes.len(),
            texts(parts@) == node_texts(nodes@.take(i as int)),
        decreases nodes.len() - i,
    {
        assert(nodes@.take(i + 1).drop_last() =~= nodes@.take(i as int));
        append_segment_text(&mut parts, &nodes[i]);
        i += 1;
    }
    assert(nodes@.take(nodes.len() as int) =~= nodes@);
    let whole: String = joined(&parts, "\n");
    trimmed(&whole)
}

// ---------------------------------------------------------------------------
// Events

/// The kinds of events that the history heeds.
#[derive(Clone, Copy, Debug, PartialEq, Eq, Structural)]
pub enum HistoryEventKind {
    Message,
    GroupFileUpload,
    MessageRecall,
    Other,
}

/// An event as the history sees it.
pub struct HistoryEvent {
    pub kind: HistoryEventKind,
    pub message_id: String,
    pub sender_id: String,
    pub sender_name: String,
    pub operator_id: Option<String>,
    pub timestamp: i64,
    pub ingress_order: Option<i64>,
    pub text: String,
    pub reply_to_message_id: Option<String>,
    pub mentioned_user_ids: Vec<String>,
    pub mentioned_users: Vec<Mention>,
    pub media: Vec<Media>,
}

/// What a [`HistoryEvent`] holds, as values.
#[verifier::ext_equal]
pub struct HistoryEventModel {
    pub kind: HistoryEventKind,
    pub message_id: Seq<char>,
    pub sender_id: Seq<char>,
    pub sender_name: Seq<char>,
    pub operator_id: Option<Seq<char>>,
    pub timestamp: i64,
    pub ingress_order: Option<i64>,
    pub text: Seq<char>,
    pub reply_to_message_id: Option<Seq<char>>,
    pub mentioned_user_ids: Seq<Seq<char>>,
    pub mentioned_users: Seq<MentionModel>,
    pub media: Seq<MediaModel>,
}

impl View for HistoryEvent {
    type V = HistoryEventModel;

    open spec fn view(&self) -> HistoryEventModel {
        HistoryEventModel {
            kind: self.kind,
            message_id: self.message_id@,
            sender_id: self.sender_id@,
            sender_name: self.sender_name@,
            operator_id: opt_text(self.operator_id),
            timestamp: self.timestamp,
            ingress_order: self.ingress_order,
            text: self.text@,
            reply_to_message_id: opt_text(self.reply_to_message_id),
            mentioned_user_ids: texts(self.mentioned_user_ids@),
            mentioned_users: views(self.mentioned_users@),
            media: views(self.media@),
        }
    }
}


/// A message to be kept.
pub struct NewMessage {
    pub message_id: String,
    pub sender_id: String,
    pub sender_name: String,
    pub text: String,
    pub media: Vec<StoredMedia>,
    pub mentioned_user_ids: Vec<String>,
    pub mentioned_users: Vec<Mention>,
    pub reply_to_message_id: Option<String>,
    pub is_bot: bool,
    pub sent_at: i64,
    pub ingress_order: Option<i64>,
    /// Whether the text kept of the message before is to be replaced.
    pub rewrite_text: bool,
}

/// What a [`NewMessage`] holds, as values.
#[verifier::ext_equal]
pub struct NewMessageModel {
    pub message_id: Seq<char>,
    pub sender_id: Seq<char>,
    pub sender_name: Seq<char>,
    pub text: Seq<char>,
    pub media: Seq<StoredMediaModel>,
    pub mentioned_user_ids: Seq<Seq<char>>,
    pub mentioned_users: Seq<MentionModel>,
    pub reply_to_message_id: Option<Seq<char>>,
    pub is_bot: bool,
    pub sent_at: i64,
    pub ingress_order: Option<i64>,
    pub rewrite_text: bool,
}

impl View for NewMessage {
    type V = NewMessageModel;

    open spec fn view(&self) -> NewMessageModel {
        NewMessageModel {
            message_id: self.message_id@,
            sender_id: self.sender_id@,
            sender_name: self.sender_name@,
            text: self.text@,
            media: views(self.media@),
            mentioned_user_ids: texts(self.mentioned_user_ids@),
            mentioned_users: views(self.mentioned_users@),
            reply_to_message_id: opt_text(self.reply_to_message_id),
            is_bot: self.is_bot,
            sent_at: self.sent_at,
            ingress_order: self.ingress_order,
            rewrite_text: self.rewrite_text,
        }
    }
}


/// A withdrawal to be kept.
pub struct NewRecall {
    pub message_id: String,
    pub operator_id: Option<String>,
    pub recalled_at: i64,
}

/// What a [`NewRecall`] holds, as values.
#[verifier::ext_equal]
pub struct NewRecallModel {
    pub message_id: Seq<char>,
    pub operator_id: Option<Seq<char>>,
    pub recalled_at: i64,
}

impl View for NewRecall {
    type V = NewRecallModel;

    open spec fn view(&self) -> NewRecallModel {
        NewRecallModel {
            message_id: self.message_id@,
            operator_id: opt_text(self.operator_id),
            recalled_at: self.recalled_at,
        }
    }
}


/// What an event leaves in the history.
pub enum InboundRecord {
    Message(NewMessage),
    Recall(NewRecall),
    Nothing,
}

/// The models of [`InboundRecord`].
pub enum InboundRecordModel {
    Message(NewMessageModel),
    Recall(NewRecallModel),
    Nothing,
}

impl View for InboundRecord {
    type V = InboundRecordModel;

    open spec fn view(&self) -> InboundRecordModel {
        match *self {
            InboundRecord::Message(m) => InboundRecordModel::Message(m@),
            InboundRecord::Recall(r) => InboundRecordModel::Recall(r@),
            InboundRecord::Nothing => InboundRecordModel::Nothing,
        }
    }
}

/// The time of an event, or now.
pub open spec fn event_time(timestamp: i64, now: i64) -> i64 {
    if timestamp > 0 {
        timestamp
    } else {
        now
    }
}

/// What an event leaves in the history, under the id `key`.
pub open spec fn inbound_record(e: HistoryEventModel, key: Seq<char>, now: i64) -> InboundRecordModel {
    match e.kind {
        HistoryEventKind::Message | HistoryEventKind::GroupFileUpload => {
            let digest = digest_of(e.text);
            InboundRecordModel::Message(
                NewMessageModel {
                    message_id: key,
                    sender_id: e.sender_id,
                    sender_name: e.sender_name,
                    text: match digest {
                        Some(d) => d,
                        None => e.text,
                    },
                    media: e.media.map_values(|m: MediaModel| stored_media(m)),
                    mentioned_user_ids: e.mentioned_user_ids,
                    mentioned_users: e.mentioned_users,
                    reply_to_message_id: e.reply_to_message_id,
                    is_bot: false,
                    sent_at: event_time(e.timestamp, now),
                    ingress_order: e.ingress_order,
                    rewrite_text: digest is Some,
                },
            )
        },
        HistoryEventKind::MessageRecall => InboundRecordModel::Recall(
            NewRecallModel {
                message_id: key,
                operator_id: e.operator_id,
                recalled_at: event_time(e.timestamp, now),
            },
        ),
        HistoryEventKind::Other => InboundRecordModel::Nothing,
    }
}

/// What an event leaves in the history, under the id `key`: a message with its
/// media, a forwarded block shrunk to its summary, or a withdrawal.
pub fn record_inbound(e: &HistoryEvent, key: &str, now: i64) -> (r: InboundRecord)
    ensures
        r@ == inbound_record(e@, key@, now),
{
    match e.kind {
        HistoryEventKind::Message | HistoryEventKind::GroupFileUpload => {
            let mut media: Vec<StoredMedia> = Vec::new();
            let ghost goal = e@.media.map_values(|m: MediaModel| stored_media(m));
            let mut i: usize = 0;
            while i < e.media.len()
                invariant
                    i <= e.media.len(),
                    goal == e@.media.map_values(|m: MediaModel| stored_media(m)),
                    views(media@) =~= goal.take(i as int),
                decreases e.media.len() - i,
            {
                let ghost before = views(media@);
                let m: StoredMedia = store_media(&e.media[i]);
                media.push(m);
                assert(views(media@) =~= before.push(m@));
                assert(goal[i as int] == m@);
                i += 1;
            }
            assert(views(media@) =~= goal);
            let digest: Option<String> = forward_digest(&e.text);
            let rewrite: bool = digest.is_some();
            let text: String = match digest {
                Some(d) => d,
                None => e.text.clone(),
            };
            InboundRecord::Message(
                NewMessage {
                    message_id: key.to_owned(),
                    sender_id: e.sender_id.clone(),
                    sender_name: e.sender_name.clone(),
                    text: text,
                    media: media,
                    mentioned_user_ids: copy_texts(&e.mentioned_user_ids),
                    mentioned_users: Mention::copy_all(&e.mentioned_users),
                    reply_to_message_id: copy_opt(&e.reply_to_message_id),
                    is_bot: false,
                    sent_at: normalized_timestamp(e.timestamp, now),
                    ingress_order: e.ingress_order,
                    rewrite_text: rewrite,
                },
            )
        }
        HistoryEventKind::MessageRecall => InboundRecord::Recall(
            NewRecall {
                message_id: key.to_owned(),
                operator_id: copy_opt(&e.operator_id),
                recalled_at: normalized_timestamp(e.timestamp, now),
            },
        ),
        HistoryEventKind::Other => InboundRecord::Nothing,
    }
}

/// The message that an answer points at.
pub struct ReplyTarget {
    pub message_id: String,
    /// Whether the answer quotes it.
    pub quote: bool,
}

/// What a [`ReplyTarget`] holds, as values.
#[verifier::ext_equal]
pub struct ReplyTargetModel {
    pub message_id: Seq<char>,
    pub quote: bool,
}

impl View for ReplyTarget {
    type V = ReplyTargetModel;

    open spec fn view(&self) -> ReplyTargetModel {
        ReplyTargetModel {
            message_id: self.message_id@,
            quote: self.quote,
        }
    }
}


/// What a message that was sent leaves in the history.
pub open spec fn outbound_record(
    text: Seq<char>,
    key: Seq<char>,
    account_id: Seq<char>,
    bot_name: Option<Seq<char>>,
    target: Option<ReplyTargetModel>,
    now: i64,
    ingress_order: Option<i64>,
) -> NewMessageModel {
    NewMessageModel {
        message_id: key,
        sender_id: account_id,
        sender_name: match bot_name {
            Some(n) => n,
            None => "GQY"@,
        },
        text: text,
        media: seq![],
        mentioned_user_ids: seq![],
        mentioned_users: seq![],
        reply_to_message_id: match target {
            Some(t) => if t.quote {
                Some(t.message_id)
            } else {
                None
            },
            None => None,
        },
        is_bot: true,
        sent_at: now,
        ingress_order: ingress_order,
        rewrite_text: false,
    }
}

/// What a message that was sent leaves in the history. `text` is the text before
/// any other plugin changed the message.
pub fn record_outbound(
    text: &str,
    key: &str,
    account_id: &str,
    bot_name: Option<String>,
    target: &Option<ReplyTarget>,
    now: i64,
    ingress_order: Option<i64>,
) -> (r: NewMessage)
    ensures
        r@ == outbound_record(
            text@,
            key@,
            account_id@,
            opt_text(bot_name),
            opt_view(*target),
            now,
            ingress_order,
        ),
{
    let name: String = match bot_name {
        Some(n) => n,
        None => "GQY".to_owned(),
    };
    let reply: Option<String> = match target {
        Some(t) => if t.quote {
            Some(t.message_id.clone())
        } else {
            None
        },
        None => None,
    };
    let r: NewMessage = NewMessage {
        message_id: key.to_owned(),
        sender_id: account_id.to_owned(),
        sender_name: name,
        text: text.to_owned(),
        media: Vec::new(),
        mentioned_user_ids: Vec::new(),
        mentioned_users: Vec::new(),
        reply_to_message_id: reply,
        is_bot: true,
        sent_at: now,
        ingress_order: ingress_order,
        rewrite_text: false,
    };
    assert(r@.media =~= seq![]);
    assert(r@.mentioned_user_ids =~= seq![]);
    assert(r@.mentioned_users =~= seq![]);
    r
}

/// What a message that the assistant sent by another way leaves in the history: it
/// answers the message that the turn is about.
pub fn record_external_bot_message(
    text: &str,
    key: &str,
    account_id: &str,
    bot_name: Option<String>,
    answered: Option<String>,
    now: i64,
    ingress_order: Option<i64>,
) -> (r: NewMessage)
    ensures
        r@ == (NewMessageModel {
            reply_to_message_id: opt_text(answered),
            ..outbound_record(
                text@,
                key@,
                account_id@,
                opt_text(bot_name),
                None,
                now,
                ingress_order,
            )
        }),
{
    let base: NewMessage = record_outbound(
        text,
        key,
        account_id,
        bot_name,
        &None,
        now,
        ingress_order,
    );
    NewMessage { reply_to_message_id: answered, ..base }
}

/// The text that the history keeps of a message that is sent: the one noted before
/// the message was changed, or else its own.
pub fn before_send(noted: Option<String>, nodes: &Vec<Vec<Segment>>) -> (r: String)
    ensures
        r@ == (match noted {
            Some(t) => t@,
            None => trim(join(node_texts(nodes@), "\n"@)),
        }),
{
    match noted {
        Some(t) => t,
        None => outbound_text(nodes),
    }
}

// ---------------------------------------------------------------------------
// Where the history is kept

/// Which database is used.
#[derive(Clone, Copy, Debug, PartialEq, Eq, Structural)]
pub enum DatabaseChoice {
    Current,
    /// The old one is moved first.
    MoveLegacy,
    Legacy,
}

/// Which database is used: the current one where it exists or no old one does;
/// otherwise the old one is moved, unless its new place has no directory.
pub fn history_db_path(current_exists: bool, legacy_exists: bool, has_parent: bool) -> (r: DatabaseChoice)
    ensures
        r == (if current_exists || !legacy_exists {
            DatabaseChoice::Current
        } else if has_parent {
            DatabaseChoice::MoveLegacy
        } else {
            DatabaseChoice::Legacy
        }),
{
    if current_exists {
        return DatabaseChoice::Current;
    }
    if !legacy_exists {
        return DatabaseChoice::Current;
    }
    if has_parent {
        DatabaseChoice::MoveLegacy
    } else {
        DatabaseChoice::Legacy
    }
}

/// Which database is used once the old one was to be moved: where that failed, the
/// old one stays.
pub fn after_move(moved: bool) -> (r: DatabaseChoice)
    ensures
        r == (if moved {
            DatabaseChoice::Current
        } else {
            DatabaseChoice::Legacy
        }),
{
    if moved {
        DatabaseChoice::Current
    } else {
        DatabaseChoice::Legacy
    }
}

/// A file of the database set: the database's name and a suffix.
pub fn sqlite_file(path: &str, suffix: &str) -> (r: String)
    ensures
        r@ == path@ + suffix@,
{
    let mut name: String = path.to_owned();
    name.append(suffix);
    name
}

// ---------------------------------------------------------------------------
// What is kept

/// A message is kept as it came: who wrote it, what it says, what it answers and whom it
/// mentions, and when; a withdrawal is kept as one, and nothing else is kept.
pub proof fn law_a_message_is_kept_as_it_came(e: HistoryEventModel, key: Seq<char>, now: i64)
    ensures
        ({
            let r = inbound_record(e, key, now);
            let is_message = e.kind == HistoryEventKind::Message || e.kind
                == HistoryEventKind::GroupFileUpload;
            &&& r is Message <==> is_message
            &&& r is Recall <==> e.kind == HistoryEventKind::MessageRecall
            &&& r is Message ==> r->Message_0.message_id == key && r->Message_0.sender_id
                == e.sender_id && r->Message_0.sender_name == e.sender_name
                && r->Message_0.reply_to_message_id == e.reply_to_message_id
                && r->Message_0.mentioned_user_ids == e.mentioned_user_ids
                && r->Message_0.mentioned_users == e.mentioned_users && !r->Message_0.is_bot
                && r->Message_0.ingress_order == e.ingress_order
            &&& r is Message && e.timestamp > 0 ==> r->Message_0.sent_at == e.timestamp
            &&& r is Message && e.timestamp <= 0 ==> r->Message_0.sent_at == now
            &&& r is Message && !occurs(e.text, "\n<qq-forward>\n"@) ==> r->Message_0.text == e.text
                && !r->Message_0.rewrite_text
            &&& r is Message ==> r->Message_0.media.len() == e.media.len()
            &&& r is Message ==> forall|i: int|
                0 <= i < e.media.len() ==> #[trigger] r->Message_0.media[i] == stored_media(
                    e.media[i],
                )
            &&& r is Recall ==> r->Recall_0.message_id == key && r->Recall_0.operator_id
                == e.operator_id
            &&& r is Recall && e.timestamp > 0 ==> r->Recall_0.recalled_at == e.timestamp
            &&& r is Recall && e.timestamp <= 0 ==> r->Recall_0.recalled_at == now
        }),
{
    lemma_find_from(e.text, "\n<qq-forward>\n"@, 0);
    lemma_find_occurs(e.text, "\n<qq-forward>\n"@);
}

/// Of an attachment its kind is kept, the name that it has or else its id, and of what can be
/// fetched later the id.
pub proof fn law_attachments_are_kept(m: MediaModel)
    ensures
        ({
            let r = stored_media(m);
            &&& m.name is Some ==> r.label == m.name
            &&& m.name is None ==> r.label == m.id
            &&& m.kind == MediaKind::File || m.kind == MediaKind::Video ==> r.media_id == m.id
            &&& m.kind != MediaKind::File && m.kind != MediaKind::Video ==> r.media_id is None
            &&& m.kind == MediaKind::Image <==> r.kind == StoredKind::Image
            &&& m.kind == MediaKind::Emoji <==> r.kind == StoredKind::Sticker
            &&& m.kind == MediaKind::File <==> r.kind == StoredKind::File
            &&& m.kind == MediaKind::Audio <==> r.kind == StoredKind::Audio
            &&& m.kind == MediaKind::Video <==> r.kind == StoredKind::Video
        }),
{
}

/// An answer of the assistant is kept as its own, with what it says and what it quotes.
pub proof fn law_an_answer_is_kept_as_it_was_sent(
    text: Seq<char>,
    key: Seq<char>,
    account_id: Seq<char>,
    name: Seq<char>,
    target: Option<ReplyTargetModel>,
    now: i64,
    order: Option<i64>,
)
    ensures
        ({
            let r = outbound_record(text, key, account_id, Some(name), target, now, order);
            &&& r.text == text && r.message_id == key && r.sender_id == account_id && r.sender_name
                == name && r.is_bot && r.sent_at == now && r.ingress_order == order
            &&& r.reply_to_message_id is Some <==> target is Some && target->0.quote
            &&& r.reply_to_message_id is Some ==> r.reply_to_message_id->0 == target->0.message_id
        }),
{
}

/// A message goes by its own id where it has one, and otherwise never by that of another.
pub proof fn law_messages_go_by_their_id(
    id: Seq<char>,
    order: i64,
    other: i64,
    now: i64,
    bits: u64,
    receipt: Seq<Seq<char>>,
)
    ensures
        trim(id).len() > 0 ==> message_key(id, Some(order), now, bits) == id && message_key(
            id,
            None,
            now,
            bits,
        ) == id && own_message_key(id, now, bits) == id,
        trim(id).len() == 0 && order != other ==> message_key(id, Some(order), now, bits)
            != message_key(id, Some(other), now, bits),
        receipt.len() > 0 ==> sent_message_key(receipt, now, bits) == receipt[0],
{
    if trim(id).len() == 0 && order != other {
        let a = "ingress-"@;
        let x = a + decimal_int(order as int);
        let y = a + decimal_int(other as int);
        if x == y {
            assert(x.subrange(a.len() as int, x.len() as int) =~= decimal_int(order as int));
            assert(y.subrange(a.len() as int, y.len() as int) =~= decimal_int(other as int));
            law_numbers_read_back(order as int);
            law_numbers_read_back(other as int);
        }
    }
}

/// What is said is kept in its order: texts as they are, mentions as such, and nothing of
/// pictures.
pub proof fn law_what_is_said_is_kept(
    before: Seq<Seq<char>>,
    a: Seq<Segment>,
    t: String,
    id: String,
)
    ensures
        trim(t@).len() > 0 ==> segment_texts(before, a.push(Segment::Text(t))) == segment_texts(
            before,
            a,
        ).push(t@),
        trim(t@).len() == 0 ==> segment_texts(before, a.push(Segment::Text(t))) == segment_texts(
            before,
            a,
        ),
        segment_texts(before, a.push(Segment::Mention(id))) == segment_texts(before, a).push(
            "@"@ + id@,
        ),
        segment_texts(before, a.push(Segment::Voice(t))) == segment_texts(before, a).push(t@),
        segment_texts(before, a.push(Segment::Silent)) == segment_texts(before, a),
        segment_texts(before, Seq::empty()) == before,
{
    assert(a.push(Segment::Text(t)).drop_last() =~= a);
    assert(a.push(Segment::Mention(id)).drop_last() =~= a);
    assert(a.push(Segment::Voice(t)).drop_last() =~= a);
    assert(a.push(Segment::Silent).drop_last() =~= a);
}

/// A forwarded block is summed up by how many lines it has and by these lines, one after the
/// other; what stands before it and behind it stays.
pub proof fn law_a_forwarded_block_is_summed_up(before: Seq<char>, line: Seq<char>, raw: Seq<Seq<char>>)
    ensures
        trim(line).len() > 0 && trim(line) != "(forwarded content truncated)"@ ==> forward_lines(
            raw.push(line),
        ) == forward_lines(raw).push(trim(line)),
        trim(line).len() == 0 ==> forward_lines(raw.push(line)) == forward_lines(raw),
        forward_lines(Seq::empty()).len() == 0,
        before.is_prefix_of(forward_lead(before)),
        forward_lead(before).len() <= before.len() + 1,
        before.len() == 0 ==> forward_lead(before).len() == 0,
{
    assert(raw.push(line).drop_last() =~= raw);
    reveal_strlit("(forwarded content truncated)");
}

/// A short forwarded block is told whole.
pub proof fn law_a_short_block_is_told_whole(body: Seq<char>)
    ensures
        ({
            let kept = forward_lines(lines(body));
            let whole = "[forward x"@ + decimal(kept.len()) + "] "@ + join(kept, " / "@);
            &&& whole.len() <= 160 ==> forward_summary(body) == whole
            &&& whole.len() > 160 ==> forward_summary(body).take(160) == whole.take(160)
                && forward_summary(body).last() == '…'
        }),
{
    let kept = forward_lines(lines(body));
    let whole = "[forward x"@ + decimal(kept.len()) + "] "@ + join(kept, " / "@);
    if whole.len() > 160 {
        assert(whole.take(160).push('…').take(160) =~= whole.take(160));
    }
}

/// What the assistant notes is sent as noted, and the record is kept in its present place,
/// unless only the old one is there.
pub proof fn law_places_of_the_record(
    noted: Option<String>,
    nodes: Vec<Vec<Segment>>,
    sent: String,
    current: bool,
    legacy: bool,
    parent: bool,
    choice: DatabaseChoice,
    moved: bool,
    later: DatabaseChoice,
    timestamp: i64,
    now: i64,
    time: i64,
)
    requires
        call_ensures(before_send, (noted, &nodes), sent),
        call_ensures(history_db_path, (current, legacy, parent), choice),
        call_ensures(after_move, (moved,), later),
        call_ensures(normalized_timestamp, (timestamp, now), time),
    ensures
        noted is Some ==> sent@ == noted->0@,
        choice == DatabaseChoice::Current <==> current || !legacy,
        choice == DatabaseChoice::MoveLegacy <==> !current && legacy && parent,
        later == DatabaseChoice::Current <==> moved,
        later == DatabaseChoice::Legacy <==> !moved,
        timestamp > 0 ==> time == timestamp,
        timestamp <= 0 ==> time == now,
{
}

/// What stands before a forwarded block and behind it stays, with the block summed up between
/// them.
pub proof fn law_around_a_block_all_stays(a: Seq<char>, body: Seq<char>, b: Seq<char>)
    requires
        ({
            let text = a + "\n<qq-forward>\n"@ + body + "</qq-forward>"@ + b;
            &&& forall|i: int|
                0 <= i < a.len() ==> !#[trigger] stands_at(text, "\n<qq-forward>\n"@, i)
            &&& forall|i: int|
                a.len() <= i < a.len() + 14 + body.len() ==> !#[trigger] stands_at(
                    text,
                    "</qq-forward>"@,
                    i,
                )
        }),
    ensures
        digest_of(a + "\n<qq-forward>\n"@ + body + "</qq-forward>"@ + b) == Some(
            forward_lead(a) + forward_summary(body) + b,
        ),
{
    reveal_strlit("\n<qq-forward>\n");
    reveal_strlit("</qq-forward>");
    let m = "\n<qq-forward>\n"@;
    let e = "</qq-forward>"@;
    let text = a + m + body + e + b;
    let open = a.len() as int;
    let close = open + 14 + body.len();
    assert(m.len() == 14 && e.len() == 13);
    assert(text.subrange(open, open + 14) =~= m);
    assert(stands_at(text, m, open));
    assert(text.subrange(close, close + 13) =~= e);
    assert(stands_at(text, e, close));
    lemma_find_from(text, m, 0);
    assert(find_from(text, m, 0) == open);
    lemma_find_from(text, e, open);
    assert(find_from(text, e, open) == close);
    assert(text.take(open) =~= a);
    assert(text.subrange(open + 14, close) =~= body);
    assert(text.subrange(close + 13, text.len() as int) =~= b);
}

} // verus!
