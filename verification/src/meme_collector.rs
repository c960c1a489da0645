//! Collecting memes: which images of a message are taken, which a member may have
//! saved, and which one a reply means.

use crate::arguments::{Argument, Arguments, Scalar};
use crate::numbers::{digit_char, hex_digits, hex_text};
use crate::order::{as_ints, indices_where};
use crate::platform::{
    Conversation, ConversationKind, ConversationModel, Media, MediaKind, MediaModel,
};
use crate::text::{
    first_chars, is_blank, opt_text, opt_view, res_view, same, take_at_most, text_or_none, trim,
    trimmed, views,
};
use crate::times::{platform_sent_at, sent_at_of, utc_rfc3339};
use sha2::Digest;
use vstd::prelude::*;
use vstd::string::*;

verus! {

/// How many messages wait to be looked through.
pub const COLLECTOR_QUEUE_CAPACITY: usize = 32;

/// Whether a message is looked through at all: a message and no notice, in a group
/// on QQ, not of the assistant, where memes are kept and some are to be collected.
pub fn observe_inbound(
    is_message: bool,
    sender_id: &str,
    c: &Conversation,
    memes_enabled: bool,
    collects: bool,
) -> (r: bool)
    ensures
        r == (is_message && c@.platform == "onebot"@ && c@.kind == ConversationKind::Group
            && sender_id@ != c@.account_id && memes_enabled && collects),
{
    is_message && same(&c.platform, "onebot") && c.kind == ConversationKind::Group && !same(
        sender_id,
        &c.account_id,
    ) && memes_enabled && collects
}

/// How many images a message holds.
pub open spec fn image_count_of(media: Seq<MediaModel>) -> nat
    decreases media.len(),
{
    if media.len() == 0 {
        0
    } else {
        image_count_of(media.drop_last()) + (if media.last().kind == MediaKind::Image {
            1nat
        } else {
            0
        })
    }
}

/// How many images of a message are looked at.
pub open spec fn looked_at(media: Seq<MediaModel>, max: nat) -> nat {
    if image_count_of(media) < max {
        image_count_of(media)
    } else {
        max
    }
}

/// How many images of a message are looked at: at most `max`.
pub fn images_looked_at(media: &Vec<Media>, max: usize) -> (r: usize)
    ensures
        r == looked_at(views(media@), max as nat),
{
    let ghost all = views(media@);
    let mut n: usize = 0;
    let mut i: usize = 0;
    assert(all.take(0) =~= seq![]);
    while i < media.len()
        invariant
            i <= media.len(),
            all == views(media@),
            n <= i,
            n == image_count_of(all.take(i as int)),
        decreases media.len() - i,
    {
        assert(all.take(i + 1).drop_last() =~= all.take(i as int));
        assert(all[i as int] == media@[i as int]@);
        if media[i].kind == MediaKind::Image {
            n += 1;
        }
        i += 1;
    }
    assert(all.take(media.len() as int) =~= all);
    if n < max {
        n
    } else {
        max
    }
}

pub open spec fn drawn(draws: Seq<bool>) -> spec_fn(int) -> bool {
    |i: int| draws[i]
}

/// The places of the images that are taken, given which were drawn.
pub fn selected_indices(draws: &Vec<bool>) -> (r: Vec<usize>)
    ensures
        as_ints(r@) == indices_where(draws.len() as nat, drawn(draws@)),
{
    let mut out: Vec<usize> = Vec::new();
    let mut i: usize = 0;
    assert(as_ints(out@) =~= indices_where(0, drawn(draws@)));
    while i < draws.len()
        invariant
            i <= draws.len(),
            as_ints(out@) == indices_where(i as nat, drawn(draws@)),
        decreases draws.len() - i,
    {
        let ghost f = drawn(draws@);
        if draws[i] {
            assert(f(i as int));
            let ghost before = as_ints(out@);
            out.push(i);
            assert(as_ints(out@) =~= before.push(i as int));
        } else {
            assert(!f(i as int));
        }
        i += 1;
    }
    out
}

/// The ending of a file with an image of a type.
pub open spec fn suffix_of(mime: Seq<char>) -> Seq<char> {
    if mime == "image/jpeg"@ {
        ".jpg"@
    } else if mime == "image/png"@ {
        ".png"@
    } else if mime == "image/gif"@ {
        ".gif"@
    } else if mime == "image/webp"@ {
        ".webp"@
    } else {
        ".img"@
    }
}

/// The ending of a file with an image of a type.
pub fn image_suffix(mime: &str) -> (r: &'static str)
    ensures
        r@ == suffix_of(mime@),
{
    if same(mime, "image/jpeg") {
        ".jpg"
    } else if same(mime, "image/png") {
        ".png"
    } else if same(mime, "image/gif") {
        ".gif"
    } else if same(mime, "image/webp") {
        ".webp"
    } else {
        ".img"
    }
}

/// Whether a member may have memes saved.
pub fn save_tool_allowed(is_admin: bool, allow_non_admin: bool) -> (r: bool)
    ensures
        r == (is_admin || allow_non_admin),
{
    is_admin || allow_non_admin
}

/// Whether a member may have memes deleted: an administrator, in a group.
pub fn delete_tool_allowed(is_admin: bool, kind: ConversationKind) -> (r: bool)
    ensures
        r == (is_admin && kind == ConversationKind::Group),
{
    is_admin && kind == ConversationKind::Group
}

// ---------------------------------------------------------------------------
// Where a meme comes from

/// Where a meme comes from.
pub struct MemeOrigin {
    pub platform: String,
    pub conversation_kind: String,
    pub conversation_id: String,
    pub sender_id: String,
    pub sender_name: String,
    pub message_id: String,
    pub sent_at: String,
    pub collected_at: String,
    pub reason: String,
}

/// What a [`MemeOrigin`] holds, as values.
#[verifier::ext_equal]
pub struct MemeOriginModel {
    pub platform: Seq<char>,
    pub conversation_kind: Seq<char>,
    pub conversation_id: Seq<char>,
    pub sender_id: Seq<char>,
    pub sender_name: Seq<char>,
    pub message_id: Seq<char>,
    pub sent_at: Seq<char>,
    pub collected_at: Seq<char>,
    pub reason: Seq<char>,
}

impl View for MemeOrigin {
    type V = MemeOriginModel;

    open spec fn view(&self) -> MemeOriginModel {
        MemeOriginModel {
            platform: self.platform@,
            conversation_kind: self.conversation_kind@,
            conversation_id: self.conversation_id@,
            sender_id: self.sender_id@,
            sender_name: self.sender_name@,
            message_id: self.message_id@,
            sent_at: self.sent_at@,
            collected_at: self.collected_at@,
            reason: self.reason@,
        }
    }
}


/// Where the memes of a message come from.
pub open spec fn origin_of(
    c: ConversationModel,
    sender_id: Seq<char>,
    sender_name: Seq<char>,
    message_id: Seq<char>,
    timestamp: i64,
    reason: Seq<char>,
) -> MemeOriginModel {
    MemeOriginModel {
        platform: c.platform,
        conversation_kind: c.kind.name(),
        conversation_id: c.conversation_id,
        sender_id: sender_id,
        sender_name: sender_name,
        message_id: message_id,
        sent_at: sent_at_of(timestamp, utc_rfc3339(timestamp)),
        collected_at: seq![],
        reason: reason,
    }
}

/// Where the memes of a message come from.
pub fn message_origin(
    c: &Conversation,
    sender_id: &str,
    sender_name: &str,
    message_id: &str,
    timestamp: i64,
    reason: &str,
) -> (r: MemeOrigin)
    ensures
        r@ == origin_of(c@, sender_id@, sender_name@, message_id@, timestamp, reason@),
{
    let r: MemeOrigin = MemeOrigin {
        platform: c.platform.clone(),
        conversation_kind: c.kind.as_str().to_owned(),
        conversation_id: c.conversation_id.clone(),
        sender_id: sender_id.to_owned(),
        sender_name: sender_name.to_owned(),
        message_id: message_id.to_owned(),
        sent_at: platform_sent_at(timestamp),
        collected_at: String::new(),
        reason: reason.to_owned(),
    };
    assert(r@.collected_at =~= seq![]);
    r
}

/// The message that is replied to.
pub struct RepliedMessage {
    pub sender_id: String,
    pub sender_name: String,
    pub timestamp: i64,
}

/// What a [`RepliedMessage`] holds, as values.
#[verifier::ext_equal]
pub struct RepliedMessageModel {
    pub sender_id: Seq<char>,
    pub sender_name: Seq<char>,
    pub timestamp: i64,
}

impl View for RepliedMessage {
    type V = RepliedMessageModel;

    open spec fn view(&self) -> RepliedMessageModel {
        RepliedMessageModel {
            sender_id: self.sender_id@,
            sender_name: self.sender_name@,
            timestamp: self.timestamp,
        }
    }
}


/// The message with which a meme is to be saved.
pub struct SaveEvent {
    pub is_message: bool,
    pub conversation: Conversation,
    pub message_id: String,
    pub sender_id: String,
    pub sender_name: String,
    pub timestamp: i64,
    pub media: Vec<Media>,
    pub reply_to_message_id: Option<String>,
    pub replied: Option<RepliedMessage>,
}

/// What a [`SaveEvent`] holds, as values.
#[verifier::ext_equal]
pub struct SaveEventModel {
    pub is_message: bool,
    pub conversation: ConversationModel,
    pub message_id: Seq<char>,
    pub sender_id: Seq<char>,
    pub sender_name: Seq<char>,
    pub timestamp: i64,
    pub media: Seq<MediaModel>,
    pub reply_to_message_id: Option<Seq<char>>,
    pub replied: Option<RepliedMessageModel>,
}

impl View for SaveEvent {
    type V = SaveEventModel;

    open spec fn view(&self) -> SaveEventModel {
        SaveEventModel {
            is_message: self.is_message,
            conversation: self.conversation@,
            message_id: self.message_id@,
            sender_id: self.sender_id@,
            sender_name: self.sender_name@,
            timestamp: self.timestamp,
            media: views(self.media@),
            reply_to_message_id: opt_text(self.reply_to_message_id),
            replied: opt_view(self.replied),
        }
    }
}


/// A meme to be saved.
pub struct SavePlan {
    /// Which image of the message, the first being one.
    pub image_index: u64,
    pub message_id: String,
    pub origin: MemeOrigin,
}

/// What a [`SavePlan`] holds, as values.
#[verifier::ext_equal]
pub struct SavePlanModel {
    pub image_index: u64,
    pub message_id: Seq<char>,
    pub origin: MemeOriginModel,
}

impl View for SavePlan {
    type V = SavePlanModel;

    open spec fn view(&self) -> SavePlanModel {
        SavePlanModel {
            image_index: self.image_index,
            message_id: self.message_id@,
            origin: self.origin@,
        }
    }
}


/// Whether a message holds an image.
pub open spec fn has_image(media: Seq<MediaModel>) -> bool {
    exists|i: int| 0 <= i < media.len() && (#[trigger] media[i]).kind == MediaKind::Image
}

/// The image that a call asks for.
pub open spec fn asked_image(args: Arguments) -> u64 {
    match args.unsigned_at("image_index"@) {
        Some(n) => n,
        None => 1,
    }
}

/// The meme to be saved, or why none is.
pub open spec fn save_plan(
    allowed: bool,
    event: Option<SaveEventModel>,
    args: Arguments,
) -> Result<SavePlanModel, Seq<char>> {
    if !allowed {
        Err("non-admin use of the meme save tool is disabled"@)
    } else {
        match event {
            None => Err("the current message is unavailable"@),
            Some(e) => if !e.is_message {
                Err("the current event is not a message"@)
            } else if asked_image(args) < 1 || asked_image(args) > 4 {
                Err("image_index must be between 1 and 4"@)
            } else {
                let reason = take_at_most(trim(text_or_none(args.text_at("reason"@))), 200);
                if has_image(e.media) {
                    Ok(
                        SavePlanModel {
                            image_index: asked_image(args),
                            message_id: e.message_id,
                            origin: origin_of(
                                e.conversation,
                                e.sender_id,
                                e.sender_name,
                                e.message_id,
                                e.timestamp,
                                reason,
                            ),
                        },
                    )
                } else {
                    match e.reply_to_message_id {
                        None => Err("send an image or directly reply to an image message"@),
                        Some(id) => Ok(
                            SavePlanModel {
                                image_index: asked_image(args),
                                message_id: id,
                                origin: match e.replied {
                                    Some(m) => origin_of(
                                        e.conversation,
                                        m.sender_id,
                                        m.sender_name,
                                        id,
                                        m.timestamp,
                                        reason,
                                    ),
                                    None => origin_of(
                                        e.conversation,
                                        seq![],
                                        seq![],
                                        id,
                                        0,
                                        reason,
                                    ),
                                },
                            },
                        ),
                    }
                }
            },
        }
    }
}

fn holds_image(media: &Vec<Media>) -> (r: bool)
    ensures
        r == has_image(views(media@)),
{
    let ghost all = views(media@);
    let mut i: usize = 0;
    while i < media.len()
        invariant
            i <= media.len(),
            all == views(media@),
            forall|j: int| 0 <= j < i ==> (#[trigger] all[j]).kind != MediaKind::Image,
        decreases media.len() - i,
    {
        assert(all[i as int] == media@[i as int]@);
        if media[i].kind == MediaKind::Image {
            return true;
        }
        i += 1;
    }
    false
}

/// The meme to be saved: an image of the current message, or else of the message
/// that it replies to, whose sender then is where it comes from.
pub fn save_current_message_meme(allowed: bool, event: &Option<SaveEvent>, args: &Arguments) -> (r:
    Result<SavePlan, String>)
    ensures
        res_view(r) == save_plan(allowed, opt_view(*event), *args),
{
    if !allowed {
        return Err("non-admin use of the meme save tool is disabled".to_owned());
    }
    let e: &SaveEvent = match event {
        Some(e) => e,
        None => {
            return Err("the current message is unavailable".to_owned());
        }
    };
    if !e.is_message {
        return Err("the current event is not a message".to_owned());
    }
    let index: u64 = match args.unsigned("image_index") {
        Some(n) => n,
        None => 1,
    };
    if index < 1 || index > 4 {
        return Err("image_index must be between 1 and 4".to_owned());
    }
    let raw: String = args.text_or_empty("reason");
    let whole: String = trimmed(&raw);
    let reason: String = first_chars(&whole, 200);
    if holds_image(&e.media) {
        return Ok(
            SavePlan {
                image_index: index,
                message_id: e.message_id.clone(),
                origin: message_origin(
                    &e.conversation,
                    &e.sender_id,
                    &e.sender_name,
                    &e.message_id,
                    e.timestamp,
                    &reason,
                ),
            },
        );
    }
    match &e.reply_to_message_id {
        None => Err("send an image or directly reply to an image message".to_owned()),
        Some(id) => {
            proof {
                reveal_strlit("");
                assert(""@ =~= seq![]);
            }
            let origin: MemeOrigin = match &e.replied {
                Some(m) => message_origin(
                    &e.conversation,
                    &m.sender_id,
                    &m.sender_name,
                    id,
                    m.timestamp,
                    &reason,
                ),
                None => message_origin(&e.conversation, "", "", id, 0, &reason),
            };
            Ok(SavePlan { image_index: index, message_id: id.clone(), origin: origin })
        }
    }
}

// ---------------------------------------------------------------------------
// Which meme a message means

/// A meme of a library.
pub struct MemeRef {
    pub library: String,
    pub id: String,
}

/// What a [`MemeRef`] holds, as values.
#[verifier::ext_equal]
pub struct MemeRefModel {
    pub library: Seq<char>,
    pub id: Seq<char>,
}

impl View for MemeRef {
    type V = MemeRefModel;

    open spec fn view(&self) -> MemeRefModel {
        MemeRefModel {
            library: self.library@,
            id: self.id@,
        }
    }
}

impl MemeRef {
    /// A value that holds the same.
    pub fn copy(&self) -> (r: MemeRef)
        ensures
            r@ == self@,
    {
        MemeRef {
            library: self.library.clone(),
            id: self.id.clone(),
        }
    }

    /// A list that holds the same values.
    pub fn copy_all(v: &Vec<MemeRef>) -> (r: Vec<MemeRef>)
        ensures
            views(r@) == views(v@),
            r.len() == v.len(),
    {
        let mut out: Vec<MemeRef> = Vec::new();
        let mut i: usize = 0;
        while i < v.len()
            invariant
                i <= v.len(),
                out.len() == i,
                forall|j: int| 0 <= j < i ==> (#[trigger] out@[j])@ == v@[j]@,
            decreases v.len() - i,
        {
            out.push(v[i].copy());
            i += 1;
        }
        assert(views(out@) =~= views(v@));
        out
    }
}


/// Whether all the references are one.
pub open spec fn all_one(refs: Seq<MemeRefModel>) -> bool {
    forall|i: int| 0 <= i < refs.len() ==> #[trigger] refs[i] == refs[0]
}

/// The message whose meme is to be deleted, or why none is.
pub open spec fn delete_target(
    is_admin: bool,
    kind: ConversationKind,
    reply_to: Option<Seq<char>>,
) -> Result<Seq<char>, Seq<char>> {
    if !is_admin || kind != ConversationKind::Group {
        Err("only configured GQY administrators can delete collected memes"@)
    } else {
        match reply_to {
            Some(id) => if trim(id).len() > 0 {
                Ok(id)
            } else {
                Err("reply to the meme message that should be deleted"@)
            },
            None => Err("reply to the meme message that should be deleted"@),
        }
    }
}

/// The message whose meme is to be deleted: the one replied to, by an administrator,
/// in a group.
pub fn delete_message(is_admin: bool, kind: ConversationKind, reply_to: &Option<String>) -> (r: Result<
    String,
    String,
>)
    ensures
        res_view(r) == delete_target(is_admin, kind, opt_text(*reply_to)),
{
    if !is_admin || kind != ConversationKind::Group {
        return Err("only configured GQY administrators can delete collected memes".to_owned());
    }
    match reply_to {
        Some(id) => if is_blank(id) {
            Err("reply to the meme message that should be deleted".to_owned())
        } else {
            Ok(id.clone())
        },
        None => Err("reply to the meme message that should be deleted".to_owned()),
    }
}

/// The meme that a message means, or why it means none.
pub open spec fn referenced(refs: Seq<MemeRefModel>) -> Result<MemeRefModel, Seq<char>> {
    if refs.len() == 0 {
        Err("the referenced message is not mapped to a collected meme"@)
    } else if !all_one(refs) {
        Err("the referenced message contains multiple memes; deletion is ambiguous"@)
    } else {
        Ok(refs[0])
    }
}

/// The meme that a message means: the one that all its references name.
pub fn delete_referenced_meme(refs: &Vec<MemeRef>) -> (r: Result<MemeRef, String>)
    ensures
        res_view(r) == referenced(views(refs@)),
{
    let ghost all = views(refs@);
    if refs.len() == 0 {
        return Err("the referenced message is not mapped to a collected meme".to_owned());
    }
    let mut i: usize = 0;
    while i < refs.len()
        invariant
            i <= refs.len(),
            refs.len() > 0,
            all == views(refs@),
            forall|j: int| 0 <= j < i ==> #[trigger] all[j] == all[0],
        decreases refs.len() - i,
    {
        assert(all[i as int] == refs@[i as int]@);
        assert(all[0] == refs@[0]@);
        if !(same(&refs[i].library, &refs[0].library) && same(&refs[i].id, &refs[0].id)) {
            assert(all[i as int] != all[0]);
            return Err(
                "the referenced message contains multiple memes; deletion is ambiguous".to_owned(),
            );
        }
        i += 1;
    }
    assert(all[0] == refs@[0]@);
    Ok(refs[0].copy())
}

/// That a message shows a meme.
pub struct MemeMapping {
    pub platform: String,
    pub account_id: String,
    pub conversation_kind: String,
    pub conversation_id: String,
    pub message_id: String,
    pub library: String,
    pub meme_id: String,
    pub direction: String,
    pub created_at: String,
}

/// What a [`MemeMapping`] holds, as values.
#[verifier::ext_equal]
pub struct MemeMappingModel {
    pub platform: Seq<char>,
    pub account_id: Seq<char>,
    pub conversation_kind: Seq<char>,
    pub conversation_id: Seq<char>,
    pub message_id: Seq<char>,
    pub library: Seq<char>,
    pub meme_id: Seq<char>,
    pub direction: Seq<char>,
    pub created_at: Seq<char>,
}

impl View for MemeMapping {
    type V = MemeMappingModel;

    open spec fn view(&self) -> MemeMappingModel {
        MemeMappingModel {
            platform: self.platform@,
            account_id: self.account_id@,
            conversation_kind: self.conversation_kind@,
            conversation_id: self.conversation_id@,
            message_id: self.message_id@,
            library: self.library@,
            meme_id: self.meme_id@,
            direction: self.direction@,
            created_at: self.created_at@,
        }
    }
}


/// That a message shows a meme.
pub fn put_mapping(c: &Conversation, message_id: &str, meme: &MemeRef, direction: &str, created_at: &str) -> (r:
    MemeMapping)
    ensures
        r@ == (MemeMappingModel {
            platform: c@.platform,
            account_id: c@.account_id,
            conversation_kind: c@.kind.name(),
            conversation_id: c@.conversation_id,
            message_id: message_id@,
            library: meme@.library,
            meme_id: meme@.id,
            direction: direction@,
            created_at: created_at@,
        }),
{
    MemeMapping {
        platform: c.platform.clone(),
        account_id: c.account_id.clone(),
        conversation_kind: c.kind.as_str().to_owned(),
        conversation_id: c.conversation_id.clone(),
        message_id: message_id.to_owned(),
        library: meme.library.clone(),
        meme_id: meme.id.clone(),
        direction: direction.to_owned(),
        created_at: created_at.to_owned(),
    }
}

// ---------------------------------------------------------------------------
// The id of an image

/// The SHA-256 digest of bytes.
pub uninterp spec fn sha256(bytes: Seq<u8>) -> Seq<u8>;

/// `sha2::Sha256::digest` gives the SHA-256 digest of bytes, which is 32 bytes long
/// and depends on the bytes alone.
#[verifier::external_body]
fn sha256_digest(bytes: &Vec<u8>) -> (r: Vec<u8>)
    ensures
        r@ == sha256(bytes@),
        r.len() == 32,
{
    sha2::Sha256::digest(bytes).to_vec()
}

/// Bytes in hexadecimal.
pub open spec fn hex_of(bytes: Seq<u8>) -> Seq<char>
    decreases bytes.len(),
{
    if bytes.len() == 0 {
        seq![]
    } else {
        hex_of(bytes.drop_last()) + hex_digits(bytes.last() as nat, 2)
    }
}

/// The id of an image with a digest.
pub fn digest_id(digest: &Vec<u8>) -> (r: String)
    ensures
        r@ == "sha256:"@ + hex_of(digest@),
{
    let mut out: String = "sha256:".to_owned();
    let ghost head = out@;
    let mut i: usize = 0;
    assert(digest@.take(0) =~= seq![]);
    assert(out@ =~= head + hex_of(digest@.take(0)));
    while i < digest.len()
        invariant
            i <= digest.len(),
            out@ == head + hex_of(digest@.take(i as int)),
        decreases digest.len() - i,
    {
        assert(digest@.take(i + 1).drop_last() =~= digest@.take(i as int));
        let ghost before = hex_of(digest@.take(i as int));
        let h: String = hex_text(digest[i] as u64, 2);
        out.append(&h);
        assert(out@ =~= head + (before + h@));
        i += 1;
    }
    assert(digest@.take(digest.len() as int) =~= digest@);
    out
}

/// The id of an image: the digest of its bytes.
pub fn meme_id(bytes: &Vec<u8>) -> (r: String)
    ensures
        r@ == "sha256:"@ + hex_of(sha256(bytes@)),
{
    digest_id(&sha256_digest(bytes))
}

// ---------------------------------------------------------------------------
// What is kept of a picture, and of which

/// Each picture among what was sent counts, and nothing else does.
pub proof fn law_pictures_are_counted(a: Seq<MediaModel>, m: MediaModel, max: nat)
    ensures
        image_count_of(a.push(m)) == image_count_of(a) + (if m.kind == MediaKind::Image {
            1int
        } else {
            0int
        }),
        image_count_of(Seq::empty()) == 0,
        looked_at(a, max) <= max,
        image_count_of(a) <= max ==> looked_at(a, max) == image_count_of(a),
        image_count_of(a) > max ==> looked_at(a, max) == max,
{
    assert(a.push(m).drop_last() =~= a);
}

/// Every kind of picture is kept under its own ending.
pub proof fn law_endings_of_pictures()
    ensures
        suffix_of("image/jpeg"@) == ".jpg"@,
        suffix_of("image/png"@) == ".png"@,
        suffix_of("image/gif"@) == ".gif"@,
        suffix_of("image/webp"@) == ".webp"@,
        suffix_of("text/plain"@) == ".img"@,
{
    reveal_strlit("image/jpeg");
    reveal_strlit("image/png");
    reveal_strlit("image/gif");
    reveal_strlit("image/webp");
    reveal_strlit("text/plain");
    assert("image/jpeg"@[6] == 'j' && "image/png"@[6] == 'p' && "image/gif"@[6] == 'g');
    assert("image/webp"@[6] == 'w' && "text/plain"@[0] == 't' && "image/jpeg"@[0] == 'i');
    assert("image/png"@[0] == 'i' && "image/gif"@[0] == 'i' && "image/webp"@[0] == 'i');
}

/// Pictures are collected from what others send to a group, where that is switched on, and
/// nowhere else.
pub proof fn law_what_is_collected(
    is_message: bool,
    sender: &str,
    c: Conversation,
    enabled: bool,
    collects: bool,
    r: bool,
    admin: bool,
    others: bool,
    kind: ConversationKind,
    save: bool,
    delete: bool,
)
    requires
        call_ensures(observe_inbound, (is_message, sender, &c, enabled, collects), r),
        call_ensures(save_tool_allowed, (admin, others), save),
        call_ensures(delete_tool_allowed, (admin, kind), delete),
    ensures
        r ==> is_message && enabled && collects && c@.kind == ConversationKind::Group && sender@
            != c@.account_id && c@.platform == "onebot"@,
        is_message && enabled && collects && c@.kind == ConversationKind::Group && sender@
            != c@.account_id && c@.platform == "onebot"@ ==> r,
        admin ==> save,
        !admin ==> (save <==> others),
        delete <==> admin && kind == ConversationKind::Group,
{
}

/// The picture that is asked for is kept: the one of that number, of the message itself where
/// it has one, else of the message that it answers; with who sent it and when, and why it is
/// kept.
pub proof fn law_the_picture_that_is_asked_for(
    e: SaveEventModel,
    args: Arguments,
    n: u64,
    why: String,
    i: int,
)
    requires
        e.is_message,
        args.at("image_index"@) == Some(Argument::One(Scalar::Unsigned(n))),
        args.at("reason"@) == Some(Argument::One(Scalar::Text(why))),
        trim(why@).len() <= 200,
    ensures
        ({
            let r = save_plan(true, Some(e), args);
            let own = 0 <= i < e.media.len() && e.media[i].kind == MediaKind::Image;
            &&& n < 1 || n > 4 ==> r is Err
            &&& 1 <= n <= 4 && own ==> r is Ok && r->Ok_0.image_index == n && r->Ok_0.message_id
                == e.message_id && r->Ok_0.origin.sender_id == e.sender_id
                && r->Ok_0.origin.sender_name == e.sender_name && r->Ok_0.origin.message_id
                == e.message_id && r->Ok_0.origin.reason == trim(why@)
                && r->Ok_0.origin.conversation_id == e.conversation.conversation_id
                && r->Ok_0.origin.platform == e.conversation.platform
            &&& 1 <= n <= 4 && e.media.len() == 0 && e.reply_to_message_id is None ==> r is Err
            &&& 1 <= n <= 4 && e.media.len() == 0 && e.reply_to_message_id is Some && e.replied
                is Some ==> r is Ok && r->Ok_0.image_index == n && r->Ok_0.message_id
                == e.reply_to_message_id->0 && r->Ok_0.origin.sender_id == e.replied->0.sender_id
                && r->Ok_0.origin.sender_name == e.replied->0.sender_name
                && r->Ok_0.origin.reason == trim(why@)
            &&& save_plan(false, Some(e), args) is Err
            &&& save_plan(true, None, args) is Err
        }),
{
}

/// Where nothing is said, the first picture is kept.
pub proof fn law_the_first_picture_is_kept(e: SaveEventModel, args: Arguments)
    requires
        args.at("image_index"@) is None,
        save_plan(true, Some(e), args) is Ok,
    ensures
        save_plan(true, Some(e), args)->Ok_0.image_index == 1,
{
}

/// A picture is forgotten on the word of an administrator in a group, the one that they
/// answer, and only where it is one.
pub proof fn law_the_picture_that_is_forgotten(
    admin: bool,
    kind: ConversationKind,
    id: Seq<char>,
    m: MemeRefModel,
    other: MemeRefModel,
)
    ensures
        delete_target(admin, kind, Some(id)) is Ok <==> admin && kind == ConversationKind::Group
            && trim(id).len() > 0,
        delete_target(admin, kind, Some(id)) is Ok ==> delete_target(admin, kind, Some(id))->Ok_0
            == id,
        delete_target(admin, kind, None) is Err,
        referenced(seq![m]) == Ok::<MemeRefModel, Seq<char>>(m),
        referenced(seq![m, m]) == Ok::<MemeRefModel, Seq<char>>(m),
        m != other ==> referenced(seq![m, other]) is Err,
        referenced(Seq::empty()) is Err,
{
    assert(all_one(seq![m]));
    assert(all_one(seq![m, m]));
    if m != other {
        assert(seq![m, other][1] == other);
    }
}

/// Two pictures with different digests never get one id.
pub proof fn law_ids_follow_the_digest(a: Seq<u8>, b: Seq<u8>)
    requires
        hex_of(a) == hex_of(b),
    ensures
        a == b,
        hex_of(a).len() == 2 * a.len(),
    decreases a.len(),
{
    lemma_hex_length(a);
    lemma_hex_length(b);
    if a.len() > 0 {
        let x = hex_of(a.drop_last());
        let y = hex_of(b.drop_last());
        lemma_hex_length(a.drop_last());
        lemma_hex_length(b.drop_last());
        assert(hex_of(a).take(x.len() as int) =~= x);
        assert(hex_of(b).take(y.len() as int) =~= y);
        law_ids_follow_the_digest(a.drop_last(), b.drop_last());
        let n = x.len() as int;
        assert(hex_of(a)[n] == hex_digits(a.last() as nat, 2)[0]);
        assert(hex_of(b)[n] == hex_digits(b.last() as nat, 2)[0]);
        assert(hex_of(a)[n + 1] == hex_digits(a.last() as nat, 2)[1]);
        assert(hex_of(b)[n + 1] == hex_digits(b.last() as nat, 2)[1]);
        lemma_hex_of_byte(a.last(), b.last());
        assert(a =~= a.drop_last().push(a.last()));
        assert(b =~= b.drop_last().push(b.last()));
    } else {
        assert(a =~= b);
    }
}

proof fn lemma_hex_length(a: Seq<u8>)
    ensures
        hex_of(a).len() == 2 * a.len(),
    decreases a.len(),
{
    if a.len() > 0 {
        lemma_hex_length(a.drop_last());
        lemma_two_hex_digits(a.last());
    }
}

proof fn lemma_two_hex_digits(b: u8)
    ensures
        hex_digits(b as nat, 2) == seq![
            digit_char((b as int) / 16 % 16),
            digit_char((b as int) % 16),
        ],
{
    let n = b as nat;
    assert(hex_digits(n / 16 / 16, 0) =~= seq![]);
    assert(hex_digits(n / 16, 1) =~= seq![digit_char((n / 16 % 16) as int)]);
    assert(hex_digits(n, 2) =~= seq![digit_char((n / 16 % 16) as int), digit_char((n % 16) as int)]);
}

proof fn lemma_hex_of_byte(a: u8, b: u8)
    requires
        hex_digits(a as nat, 2)[0] == hex_digits(b as nat, 2)[0],
        hex_digits(a as nat, 2)[1] == hex_digits(b as nat, 2)[1],
    ensures
        a == b,
{
    lemma_two_hex_digits(a);
    lemma_two_hex_digits(b);
    lemma_digit_chars((a as int) / 16 % 16, (b as int) / 16 % 16);
    lemma_digit_chars((a as int) % 16, (b as int) % 16);
}

proof fn lemma_digit_chars(x: int, y: int)
    requires
        0 <= x < 16,
        0 <= y < 16,
        digit_char(x) == digit_char(y),
    ensures
        x == y,
{
}

} // verus!
