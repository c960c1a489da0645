//! Blocks that can be opened: what they hold is kept here, and the stream carries
//! only their numbers.

use crate::numbers::{decimal, decimal_text, parse_u64, u64_value};
use crate::text::{
    after_prefix, copy_texts, has_prefix, is_blank, is_empty_text, lines, opt_text, same,
    text_lines, texts, trim,
};
use std::collections::HashMap;
use vstd::prelude::*;
use vstd::string::*;

verus! {

broadcast use vstd::std_specs::hash::group_hash_axioms;

/// How many lines are kept.
pub const MAX_LINES: usize = 4000;

/// The mark behind a block.
pub const END_MARKER: &'static str = "\x1b]1337;miyu-block-end\x07";

/// A block.
pub struct Entry {
    pub lines: Vec<String>,
    /// Whether it opens over the whole screen.
    pub overlay: bool,
    pub title: String,
    pub version: u64,
    /// When it was last used.
    pub touched: u64,
}

/// What a [`Entry`] holds, as values.
#[verifier::ext_equal]
pub struct EntryModel {
    pub lines: Seq<Seq<char>>,
    pub overlay: bool,
    pub title: Seq<char>,
    pub version: u64,
    pub touched: u64,
}

impl View for Entry {
    type V = EntryModel;

    open spec fn view(&self) -> EntryModel {
        EntryModel {
            lines: texts(self.lines@),
            overlay: self.overlay,
            title: self.title@,
            version: self.version,
            touched: self.touched,
        }
    }
}


/// Blocks by their numbers.
pub open spec fn blocks_of(m: Map<u64, Entry>) -> Map<u64, EntryModel> {
    m.map_values(|e: Entry| e@)
}

/// The blocks that are kept.
pub struct BlockRegistry {
    pub enabled: bool,
    pub next_id: u64,
    pub next_touch: u64,
    /// The blocks by their numbers.
    pub entries: HashMap<u64, Entry>,
}

/// What a [`BlockRegistry`] holds, as values.
#[verifier::ext_equal]
pub struct BlockRegistryModel {
    pub enabled: bool,
    pub next_id: u64,
    pub next_touch: u64,
    pub entries: Map<u64, EntryModel>,
}

impl View for BlockRegistry {
    type V = BlockRegistryModel;

    open spec fn view(&self) -> BlockRegistryModel {
        BlockRegistryModel {
            enabled: self.enabled,
            next_id: self.next_id,
            next_touch: self.next_touch,
            entries: blocks_of(self.entries@),
        }
    }
}

/// How many lines the blocks hold.
pub open spec fn total_lines(m: Map<u64, EntryModel>) -> nat
    decreases m.dom().len(),
{
    if m.dom().finite() && m.dom().len() > 0 {
        let id = m.dom().choose();
        total_lines(m.remove(id)) + m[id].lines.len()
    } else {
        0
    }
}

/// Whether block `a` was used before block `b`.
pub open spec fn staler(m: Map<u64, EntryModel>, a: u64, b: u64) -> bool {
    m[a].touched < m[b].touched || (m[a].touched == m[b].touched && a < b)
}

/// Whether a block was used before all others.
pub open spec fn is_stalest(m: Map<u64, EntryModel>, id: u64) -> bool {
    &&& m.contains_key(id)
    &&& forall|other: u64| #[trigger]
        m.contains_key(other) && other != id ==> staler(m, id, other)
}

/// The block that was used longest ago.
pub open spec fn stalest(m: Map<u64, EntryModel>) -> u64 {
    choose|id: u64| is_stalest(m, id)
}

/// The blocks that stay: those used longest ago are given up until the lines fit,
/// but the last one is never.
pub open spec fn kept_blocks(m: Map<u64, EntryModel>) -> Map<u64, EntryModel>
    decreases m.dom().len(),
{
    if m.dom().finite() && m.contains_key(stalest(m)) && m.dom().len() > 1 && total_lines(m)
        > MAX_LINES {
        kept_blocks(m.remove(stalest(m)))
    } else {
        m
    }
}

proof fn lemma_total_without(m: Map<u64, EntryModel>, id: u64)
    requires
        m.dom().finite(),
        m.contains_key(id),
    ensures
        total_lines(m) == total_lines(m.remove(id)) + m[id].lines.len(),
    decreases m.dom().len(),
{
    let first = m.dom().choose();
    assert(m.dom().contains(id));
    assert(m.dom().contains(first));
    if first != id {
        lemma_total_without(m.remove(first), id);
        lemma_total_without(m.remove(id), first);
        assert(m.remove(first).remove(id) =~= m.remove(id).remove(first));
    }
}

proof fn lemma_some_stalest(m: Map<u64, EntryModel>) -> (id: u64)
    requires
        m.dom().finite(),
        m.dom().len() > 0,
    ensures
        is_stalest(m, id),
    decreases m.dom().len(),
{
    let first = m.dom().choose();
    assert(m.dom().contains(first));
    let rest = m.remove(first);
    if rest.dom().len() == 0 {
        assert forall|other: u64| #[trigger] m.contains_key(other) && other != first implies staler(
            m,
            first,
            other,
        ) by {
            assert(rest.dom().contains(other));
        }
        first
    } else {
        let low = lemma_some_stalest(rest);
        assert(m.contains_key(low));
        if staler(m, first, low) {
            assert forall|other: u64| #[trigger]
                m.contains_key(other) && other != first implies staler(m, first, other) by {
                assert(rest.contains_key(other));
            }
            first
        } else {
            assert forall|other: u64| #[trigger] m.contains_key(other) && other != low implies staler(
                m,
                low,
                other,
            ) by {
                if other != first {
                    assert(rest.contains_key(other));
                }
            }
            low
        }
    }
}

proof fn lemma_stalest(m: Map<u64, EntryModel>)
    requires
        m.dom().finite(),
        m.dom().len() > 0,
    ensures
        is_stalest(m, stalest(m)),
{
    let id = lemma_some_stalest(m);
    assert(is_stalest(m, id));
}

proof fn lemma_only_one_stalest(m: Map<u64, EntryModel>, a: u64, b: u64)
    requires
        is_stalest(m, a),
        is_stalest(m, b),
    ensures
        a == b,
{
    if a != b {
        assert(staler(m, a, b));
        assert(staler(m, b, a));
    }
}

/// No more lines are kept than the limit, unless a single block holds them all.
pub proof fn law_lines_are_bounded(m: Map<u64, EntryModel>)
    requires
        m.dom().finite(),
    ensures
        total_lines(kept_blocks(m)) <= MAX_LINES || kept_blocks(m).dom().len() <= 1,
    decreases m.dom().len(),
{
    if m.dom().len() > 1 && total_lines(m) > MAX_LINES {
        lemma_stalest(m);
        law_lines_are_bounded(m.remove(stalest(m)));
    }
}

/// What is kept stays as it is.
pub proof fn law_kept_blocks_stay_as_they_are(m: Map<u64, EntryModel>)
    requires
        m.dom().finite(),
    ensures
        kept_blocks(m).submap_of(m),
        kept_blocks(m).dom().finite(),
        kept_blocks(m).dom().len() <= m.dom().len(),
        m.dom().len() > 0 ==> kept_blocks(m).dom().len() > 0,
        kept_blocks(m).dom().len() == m.dom().len() ==> kept_blocks(m) == m,
    decreases m.dom().len(),
{
    if m.contains_key(stalest(m)) && m.dom().len() > 1 && total_lines(m) > MAX_LINES {
        law_kept_blocks_stay_as_they_are(m.remove(stalest(m)));
        assert forall|id: u64| #[trigger] kept_blocks(m).dom().contains(id) implies m.dom().contains(
            id,
        ) && kept_blocks(m)[id] == m[id] by {
            assert(m.remove(stalest(m)).dom().contains(id));
        }
    }
}

/// The block used last is never given up for the sake of others.
pub proof fn law_fresh_block_is_kept(m: Map<u64, EntryModel>, id: u64)
    requires
        m.dom().finite(),
        m.contains_key(id),
        forall|other: u64| #[trigger]
            m.contains_key(other) && other != id ==> staler(m, other, id),
    ensures
        kept_blocks(m).contains_key(id),
        kept_blocks(m)[id] == m[id],
    decreases m.dom().len(),
{
    if m.dom().len() > 1 && total_lines(m) > MAX_LINES {
        lemma_stalest(m);
        let gone = stalest(m);
        if gone == id {
            let rest = m.dom().remove(id);
            assert(rest.len() > 0);
            let other = rest.choose();
            assert(rest.contains(other));
            assert(m.contains_key(other));
            assert(staler(m, other, id) && staler(m, id, other));
        }
        let t = m.remove(gone);
        assert forall|other: u64| #[trigger] t.contains_key(other) && other != id implies staler(
            t,
            other,
            id,
        ) by {
            assert(m.contains_key(other));
        }
        law_fresh_block_is_kept(t, id);
    }
}

/// Whether a block is given up.
pub open spec fn given_up(m: Map<u64, EntryModel>, id: u64) -> bool {
    m.contains_key(id) && !kept_blocks(m).contains_key(id)
}

/// Every block that is given up was used before every block that is kept.
pub proof fn law_given_up_blocks_were_used_before(m: Map<u64, EntryModel>, gone: u64, kept: u64)
    requires
        m.dom().finite(),
        given_up(m, gone),
        kept_blocks(m).contains_key(kept),
    ensures
        staler(m, gone, kept),
    decreases m.dom().len(),
{
    if m.dom().len() > 1 && total_lines(m) > MAX_LINES {
        lemma_stalest(m);
        let t = m.remove(stalest(m));
        law_kept_blocks_stay_as_they_are(t);
        assert(kept_blocks(t).dom().contains(kept));
        assert(t.dom().contains(kept));
        assert(m.contains_key(kept));
        if gone != stalest(m) {
            law_given_up_blocks_were_used_before(t, gone, kept);
        }
    }
}

/// No block is given up needlessly: the one used last among those given up would be too
/// much beside those that are kept.
pub proof fn law_no_block_is_given_up_needlessly(m: Map<u64, EntryModel>) -> (gone: u64)
    requires
        m.dom().finite(),
        kept_blocks(m) != m,
    ensures
        given_up(m, gone),
        total_lines(kept_blocks(m)) + m[gone].lines.len() > MAX_LINES,
        forall|id: u64| #[trigger] given_up(m, id) && id != gone ==> staler(m, id, gone),
    decreases m.dom().len(),
{
    lemma_stalest(m);
    let low = stalest(m);
    let t = m.remove(low);
    law_kept_blocks_stay_as_they_are(t);
    assert(kept_blocks(m) == kept_blocks(t));
    assert(!kept_blocks(t).dom().contains(low)) by {
        if kept_blocks(t).dom().contains(low) {
            assert(t.dom().contains(low));
        }
    }
    if kept_blocks(t) == t {
        lemma_total_without(m, low);
        assert forall|id: u64| #[trigger] given_up(m, id) && id != low implies staler(m, id, low) by {
            assert(t.contains_key(id));
        }
        low
    } else {
        let gone = law_no_block_is_given_up_needlessly(t);
        assert(m.contains_key(gone));
        assert forall|id: u64| #[trigger] given_up(m, id) && id != gone implies staler(
            m,
            id,
            gone,
        ) by {
            if id != low {
                assert(given_up(t, id));
            }
        }
        gone
    }
}

/// The block with a number.
pub open spec fn block_at(m: Map<u64, EntryModel>, id: u64) -> Option<EntryModel> {
    if m.contains_key(id) {
        Some(m[id])
    } else {
        None
    }
}

/// The number after another.
pub open spec fn next_number(n: u64) -> u64 {
    if n == u64::MAX {
        0
    } else {
        (n + 1) as u64
    }
}

fn after_number(n: u64) -> (r: u64)
    ensures
        r == next_number(n),
{
    if n == u64::MAX {
        0
    } else {
        n + 1
    }
}

/// The registry with one more block.
pub open spec fn with_new_block(
    r: BlockRegistryModel,
    block_lines: Seq<Seq<char>>,
    overlay: bool,
    title: Seq<char>,
) -> BlockRegistryModel {
    BlockRegistryModel {
        enabled: r.enabled,
        next_id: next_number(r.next_id),
        next_touch: next_number(r.next_touch),
        entries: kept_blocks(
            r.entries.insert(
                r.next_id,
                EntryModel {
                    lines: block_lines,
                    overlay: overlay,
                    title: title,
                    version: 0,
                    touched: r.next_touch,
                },
            ),
        ),
    }
}

/// Whether all blocks were used before now.
pub open spec fn is_orderly(r: BlockRegistryModel) -> bool {
    &&& r.entries.dom().finite()
    &&& forall|id: u64| #[trigger]
        r.entries.contains_key(id) ==> r.entries[id].touched < r.next_touch
}

/// Giving blocks up leaves the others orderly.
proof fn lemma_kept_is_orderly(m: Map<u64, EntryModel>, now: u64)
    requires
        m.dom().finite(),
        forall|id: u64| #[trigger] m.contains_key(id) ==> m[id].touched < now,
    ensures
        kept_blocks(m).dom().finite(),
        forall|id: u64| #[trigger]
            kept_blocks(m).contains_key(id) ==> kept_blocks(m)[id].touched < now,
{
    law_kept_blocks_stay_as_they_are(m);
    assert forall|id: u64| #[trigger] kept_blocks(m).contains_key(id) implies kept_blocks(
        m,
    )[id].touched < now by {
        assert(kept_blocks(m).dom().contains(id));
        assert(m.contains_key(id));
    }
}

/// A block that was just kept can be read, however many lines others hold.
pub proof fn law_new_block_reads_back(
    r: BlockRegistryModel,
    block_lines: Seq<Seq<char>>,
    overlay: bool,
    title: Seq<char>,
)
    requires
        is_orderly(r),
    ensures
        ({
            let after = with_new_block(r, block_lines, overlay, title);
            &&& block_at(after.entries, r.next_id) is Some
            &&& block_at(after.entries, r.next_id)->0.lines == block_lines
            &&& block_at(after.entries, r.next_id)->0.overlay == overlay
            &&& block_at(after.entries, r.next_id)->0.title == title
        }),
{
    let e = EntryModel {
        lines: block_lines,
        overlay: overlay,
        title: title,
        version: 0,
        touched: r.next_touch,
    };
    let m = r.entries.insert(r.next_id, e);
    assert forall|other: u64| #[trigger] m.contains_key(other) && other != r.next_id implies staler(
        m,
        other,
        r.next_id,
    ) by {
        assert(r.entries.contains_key(other));
    }
    law_fresh_block_is_kept(m, r.next_id);
}

/// How many lines the blocks hold.
fn count_lines(blocks: &HashMap<u64, Entry>) -> (r: u128)
    ensures
        r == total_lines(blocks_of(blocks@)),
{
    let ghost all = blocks_of(blocks@);
    let ghost mut rest = all;
    let mut total: u128 = 0;
    let ghost size: usize = blocks.len();
    let ghost walk = vstd::std_specs::iter::IteratorSpec::remaining(&blocks.iter());
    let ghost mut done: int = 0;
    assert(all.dom() =~= blocks@.dom());
    for (id, entry) in it: blocks.iter()
        invariant
            all == blocks_of(blocks@),
            all.dom() == blocks@.dom(),
            size == blocks@.dom().len(),
            it.seq() == walk,
            done == it.index(),
            walk.no_duplicates(),
            rest.dom().finite(),
            rest.submap_of(all),
            forall|k: u64| #[trigger]
                rest.contains_key(k) <==> all.contains_key(k) && forall|j: int|
                    0 <= j < done ==> *(#[trigger] walk[j]).0 != k,
            total + total_lines(rest) == total_lines(all),
            total <= it.index() * 0xffff_ffff_ffff_ffff,
    {
        let n: usize = entry.lines.len();
        proof {
            let at: int = it.index();
            assert(blocks@.contains_key(*it.seq()[at].0));
            assert(all[*id] == entry@);
            assert(rest.contains_key(*id));
            lemma_total_without(rest, *id);
            rest = rest.remove(*id);
            done = done + 1;
        }
        total = total + n as u128;
    }
    proof {
        assert forall|k: u64| !rest.contains_key(k) by {
            if all.contains_key(k) {
                assert(walk.contains((&k, &blocks@[k])));
                let j = choose|j: int| 0 <= j < walk.len() && walk[j] == (&k, &blocks@[k]);
                assert(*walk[j].0 == k);
            }
        }
        assert(rest.dom() =~= Set::empty());
    }
    total
}

/// The block that was used longest ago.
fn find_stalest(blocks: &HashMap<u64, Entry>) -> (r: u64)
    requires
        blocks@.dom().len() > 0,
    ensures
        is_stalest(blocks_of(blocks@), r),
{
    let ghost all = blocks_of(blocks@);
    let ghost walk = vstd::std_specs::iter::IteratorSpec::remaining(&blocks.iter());
    let ghost mut done: int = 0;
    let mut low: u64 = 0;
    let mut touched: u64 = 0;
    let mut found: bool = false;
    assert(all.dom() =~= blocks@.dom());
    for (id, entry) in it: blocks.iter()
        invariant
            all == blocks_of(blocks@),
            all.dom() == blocks@.dom(),
            it.seq() == walk,
            done == it.index(),
            found == (done > 0),
            found ==> all.contains_key(low) && all[low].touched == touched,
            forall|j: int|
                0 <= j < done ==> *(#[trigger] walk[j]).0 == low || staler(all, low, *walk[j].0),
    {
        proof {
            let at: int = it.index();
            assert(blocks@.contains_key(*walk[at].0));
            assert(all[*id] == entry@);
            done = done + 1;
        }
        if !found || entry.touched < touched || (entry.touched == touched && *id < low) {
            low = *id;
            touched = entry.touched;
            found = true;
        }
    }
    proof {
        assert(done == blocks@.dom().len());
        assert forall|other: u64| #[trigger] all.contains_key(other) && other != low implies staler(
            all,
            low,
            other,
        ) by {
            assert(blocks@.contains_key(other));
            assert(walk.contains((&other, &blocks@[other])));
            let j = choose|j: int| 0 <= j < walk.len() && walk[j] == (&other, &blocks@[other]);
            assert(*walk[j].0 == other);
        }
    }
    low
}

impl BlockRegistry {
    /// No blocks.
    pub fn new() -> (r: BlockRegistry)
        ensures
            r@ == (BlockRegistryModel {
                enabled: false,
                next_id: 1,
                next_touch: 1,
                entries: Map::empty(),
            }),
            is_orderly(r@),
    {
        let r: BlockRegistry = BlockRegistry {
            enabled: false,
            next_id: 1,
            next_touch: 1,
            entries: HashMap::new(),
        };
        assert(r@.entries =~= Map::<u64, EntryModel>::empty());
        r
    }

    /// Switches blocks on, or off, which forgets them all.
    pub fn set_enabled(&mut self, on: bool)
        ensures
            final(self)@ == (BlockRegistryModel {
                enabled: on,
                entries: if on {
                    old(self)@.entries
                } else {
                    Map::empty()
                },
                ..old(self)@
            }),
            is_orderly(old(self)@) ==> is_orderly(final(self)@),
            final(self)@ == switched(old(self)@, on),
    {
        self.enabled = on;
        if !on {
            self.entries.clear();
        }
        assert(!on ==> self@.entries =~= Map::<u64, EntryModel>::empty());
    }

    /// Whether blocks are on.
    pub fn is_enabled(&self) -> (r: bool)
        ensures
            r == self@.enabled,
    {
        self.enabled
    }

    /// Gives up the blocks used longest ago until the lines fit.
    fn evict(&mut self)
        ensures
            final(self)@ == (BlockRegistryModel {
                entries: kept_blocks(old(self)@.entries),
                ..old(self)@
            }),
            is_orderly(old(self)@) ==> is_orderly(final(self)@),
    {
        let ghost goal = kept_blocks(self@.entries);
        let ghost start = self@;
        let mut total: u128 = count_lines(&self.entries);
        proof {
            if is_orderly(start) {
                lemma_kept_is_orderly(start.entries, start.next_touch);
            }
        }
        assert(self@.entries.dom() =~= self.entries@.dom());
        while total > MAX_LINES as u128 && self.entries.len() > 1
            invariant
                kept_blocks(self@.entries) == goal,
                self@ == (BlockRegistryModel { entries: self@.entries, ..start }),
                self@.entries.dom() == self.entries@.dom(),
                total == total_lines(self@.entries),
            decreases self.entries@.dom().len(),
        {
            let ghost before = self@.entries;
            let id: u64 = find_stalest(&self.entries);
            proof {
                lemma_stalest(before);
                lemma_only_one_stalest(before, id, stalest(before));
                lemma_total_without(before, id);
                assert(before.contains_key(id));
                assert(before[id].lines.len() == self.entries@[id].lines.len());
            }
            if let Some(gone) = self.entries.remove(&id) {
                total = total - gone.lines.len() as u128;
            }
            assert(self@.entries =~= before.remove(id));
            assert(self@.entries.dom() =~= self.entries@.dom());
        }
    }

    fn insert_entry(&mut self, block_lines: Vec<String>, overlay: bool, title: String) -> (r: u64)
        ensures
            r == old(self)@.next_id,
            final(self)@ == with_new_block(old(self)@, texts(block_lines@), overlay, title@),
            is_orderly(old(self)@) && old(self)@.next_touch < u64::MAX ==> is_orderly(final(self)@),
    {
        let id: u64 = self.next_id;
        self.next_id = after_number(id);
        let touched: u64 = self.next_touch;
        self.next_touch = after_number(touched);
        let e: Entry = Entry {
            lines: block_lines,
            overlay: overlay,
            title: title,
            version: 0,
            touched: touched,
        };
        self.entries.insert(id, e);
        assert(self@.entries =~= old(self)@.entries.insert(id, e@));
        self.evict();
        id
    }

    /// Keeps what a block opens to, unless blocks are off or there is nothing; its
    /// number.
    pub fn register(&mut self, block_lines: Vec<String>) -> (r: Option<u64>)
        ensures
            !old(self)@.enabled || block_lines.len() == 0 ==> r is None && *final(self) == *old(self),
            old(self)@.enabled && block_lines.len() > 0 ==> r == Some(old(self)@.next_id)
                && final(self)@ == with_new_block(
                old(self)@,
                texts(block_lines@),
                false,
                seq![],
            ),
            is_orderly(old(self)@) && old(self)@.next_touch < u64::MAX ==> is_orderly(final(self)@),
    {
        if !self.enabled || block_lines.len() == 0 {
            return None;
        }
        let none: String = String::new();
        assert(none@ =~= seq![]);
        Some(self.insert_entry(block_lines, false, none))
    }

    /// Keeps a block that opens over the whole screen, unless blocks are off; its
    /// number. It may be empty at first.
    pub fn register_overlay(&mut self, title: String, block_lines: Vec<String>) -> (r: Option<u64>)
        ensures
            !old(self)@.enabled ==> r is None && *final(self) == *old(self),
            old(self)@.enabled ==> r == Some(old(self)@.next_id) && final(self)@ == with_new_block(
                old(self)@,
                texts(block_lines@),
                true,
                title@,
            ),
            is_orderly(old(self)@) && old(self)@.next_touch < u64::MAX ==> is_orderly(final(self)@),
    {
        if !self.enabled {
            return None;
        }
        Some(self.insert_entry(block_lines, true, title))
    }

    /// Puts new content into a block; an empty title leaves the title.
    pub fn update(&mut self, id: u64, title: String, block_lines: Vec<String>)
        ensures
            final(self)@ == (match block_at(old(self)@.entries, id) {
                None => BlockRegistryModel {
                    entries: kept_blocks(old(self)@.entries),
                    ..old(self)@
                },
                Some(e) => BlockRegistryModel {
                    next_touch: next_number(old(self)@.next_touch),
                    entries: kept_blocks(
                        old(self)@.entries.insert(
                            id,
                            EntryModel {
                                lines: texts(block_lines@),
                                title: if title@.len() > 0 {
                                    title@
                                } else {
                                    e.title
                                },
                                version: next_number(e.version),
                                touched: old(self)@.next_touch,
                                ..e
                            },
                        ),
                    ),
                    ..old(self)@
                },
            }),
            is_orderly(old(self)@) && old(self)@.next_touch < u64::MAX ==> is_orderly(final(self)@),
            final(self)@ == renewed(old(self)@, id, title@, texts(block_lines@)),
    {
        if let Some(e) = self.entries.remove(&id) {
            let touched: u64 = self.next_touch;
            self.next_touch = after_number(touched);
            let shown: String = if is_empty_text(&title) { e.title } else { title };
            let changed: Entry = Entry {
                lines: block_lines,
                overlay: e.overlay,
                title: shown,
                version: after_number(e.version),
                touched: touched,
            };
            self.entries.insert(id, changed);
            assert(self@.entries =~= old(self)@.entries.insert(id, changed@));
        } else {
            assert(self@.entries =~= old(self)@.entries);
        }
        self.evict();
    }

    /// The title of a block, unless it has none.
    pub fn title(&self, id: u64) -> (r: Option<String>)
        ensures
            opt_text(r) == (match block_at(self@.entries, id) {
                Some(e) => if e.title.len() > 0 {
                    Some(e.title)
                } else {
                    None
                },
                None => None,
            }),
    {
        match self.entries.get(&id) {
            Some(e) => if is_empty_text(&e.title) {
                None
            } else {
                Some(e.title.clone())
            },
            None => None,
        }
    }

    /// What a block opens to; it then counts as used.
    pub fn get(&mut self, id: u64) -> (r: Option<Vec<String>>)
        ensures
            match block_at(old(self)@.entries, id) {
                Some(e) => r is Some && texts(r->0@) == e.lines && final(self)@ == (
                BlockRegistryModel {
                    next_touch: next_number(old(self)@.next_touch),
                    entries: old(self)@.entries.insert(
                        id,
                        EntryModel { touched: old(self)@.next_touch, ..e },
                    ),
                    ..old(self)@
                }),
                None => r is None && final(self)@ == (BlockRegistryModel {
                    next_touch: next_number(old(self)@.next_touch),
                    ..old(self)@
                }),
            },
            is_orderly(old(self)@) && old(self)@.next_touch < u64::MAX ==> is_orderly(final(self)@),
            final(self)@ == looked_up(old(self)@, id),
            opt_lines(r) == lines_at(old(self)@, id),
    {
        let touched: u64 = self.next_touch;
        self.next_touch = after_number(touched);
        if let Some(e) = self.entries.remove(&id) {
            let found: Vec<String> = copy_texts(&e.lines);
            let used: Entry = Entry { touched: touched, ..e };
            self.entries.insert(id, used);
            assert(self@.entries =~= old(self)@.entries.insert(id, used@));
            Some(found)
        } else {
            assert(self@.entries =~= old(self)@.entries);
            None
        }
    }

    /// Whether a block opens over the whole screen.
    pub fn is_overlay(&self, id: u64) -> (r: bool)
        ensures
            r == (match block_at(self@.entries, id) {
                Some(e) => e.overlay,
                None => false,
            }),
    {
        match self.entries.get(&id) {
            Some(e) => e.overlay,
            None => false,
        }
    }

    /// How often a block was changed.
    pub fn version(&self, id: u64) -> (r: u64)
        ensures
            r == (match block_at(self@.entries, id) {
                Some(e) => e.version,
                None => 0,
            }),
    {
        match self.entries.get(&id) {
            Some(e) => e.version,
            None => 0,
        }
    }

    /// What is written for a block: what is shown closed, between the marks of the
    /// block where it can be opened.
    pub fn write_expandable(&mut self, expanded: Vec<String>, collapsed: &str) -> (r: String)
        ensures
            !old(self)@.enabled || expanded.len() == 0 ==> r@ == collapsed@ && *final(self) == *old(self),
            old(self)@.enabled && expanded.len() > 0 ==> r@ == marker_of(old(self)@.next_id)
                + collapsed@ + END_MARKER@ && final(self)@ == with_new_block(
                old(self)@,
                texts(expanded@),
                false,
                seq![],
            ),
            is_orderly(old(self)@) && old(self)@.next_touch < u64::MAX ==> is_orderly(final(self)@),
    {
        match self.register(expanded) {
            Some(id) => {
                let mut out: String = begin_marker(id);
                out.append(collapsed);
                out.append(END_MARKER);
                out
            }
            None => collapsed.to_owned(),
        }
    }
}

/// The mark before a block.
pub open spec fn marker_of(id: u64) -> Seq<char> {
    "\x1b]1337;miyu-block="@ + decimal(id as nat) + "\x07"@
}

/// The mark before a block.
pub fn begin_marker(id: u64) -> (r: String)
    ensures
        r@ == marker_of(id),
{
    let mut out: String = "\x1b]1337;miyu-block=".to_owned();
    let digits: String = decimal_text(id);
    out.append(&digits);
    out.append("\x07");
    out
}

/// A mark of a block.
#[derive(Clone, Copy, Debug, PartialEq, Eq, Structural)]
pub enum BlockMarker {
    Begin(u64),
    End,
}

/// What a mark says.
pub open spec fn marker_in(payload: Seq<char>) -> Option<BlockMarker> {
    let head = "miyu-block="@;
    if payload == "miyu-block-end"@ {
        Some(BlockMarker::End)
    } else if has_prefix(payload, head) {
        match u64_value(payload.subrange(head.len() as int, payload.len() as int)) {
            Some(id) => Some(BlockMarker::Begin(id)),
            None => None,
        }
    } else {
        None
    }
}

/// What a mark says.
pub fn parse_marker(payload: &str) -> (r: Option<BlockMarker>)
    ensures
        r == marker_in(payload@),
{
    if same(payload, "miyu-block-end") {
        return Some(BlockMarker::End);
    }
    match after_prefix(payload, "miyu-block=") {
        Some(rest) => {
            assert(payload@.subrange("miyu-block="@.len() as int, payload@.len() as int)
                =~= rest@);
            match parse_u64(&rest) {
                Some(id) => Some(BlockMarker::Begin(id)),
                None => None,
            }
        }
        None => None,
    }
}

/// The mark written for a block says its number.
pub proof fn law_marker_reads_back(id: u64)
    ensures
        marker_in("miyu-block="@ + decimal(id as nat)) == Some(BlockMarker::Begin(id)),
{
    let head = "miyu-block="@;
    let d = decimal(id as nat);
    let p = head + d;
    crate::numbers::law_decimal_reads_back(id as nat);
    assert(p.subrange(0, head.len() as int) =~= head);
    assert(p.subrange(head.len() as int, p.len() as int) =~= d);
    assert(crate::text::is_digit(d[0]));
    assert(crate::numbers::unsigned_part(d) == d);
    assert(p != "miyu-block-end"@) by {
        reveal_strlit("miyu-block-end");
        reveal_strlit("miyu-block=");
        assert(p[10] == head[10]);
        assert(head[10] == '=');
        assert("miyu-block-end"@[10] == '-');
    }
}

/// The lines of a text that a block opens to: none where blocks are off or the text
/// is blank.
pub fn expandable_text_lines(enabled: bool, text: &str) -> (r: Vec<String>)
    ensures
        texts(r@) == (if enabled && trim(text@).len() > 0 {
            lines(text@)
        } else {
            seq![]
        }),
{
    if !enabled || is_blank(text) {
        let none: Vec<String> = Vec::new();
        assert(texts(none@) =~= seq![]);
        return none;
    }
    text_lines(text)
}

/// What a block opens to: its summary, its details and an empty line; nothing where
/// blocks are off or there are no details.
pub fn expand_under(enabled: bool, summary: &str, detail: Vec<String>) -> (r: Vec<String>)
    ensures
        texts(r@) == (if enabled && detail.len() > 0 {
            seq![summary@] + texts(detail@) + seq![Seq::<char>::empty()]
        } else {
            seq![]
        }),
{
    let mut out: Vec<String> = Vec::new();
    if !enabled || detail.len() == 0 {
        assert(texts(out@) =~= seq![]);
        return out;
    }
    out.push(summary.to_owned());
    let mut rest: Vec<String> = detail;
    out.append(&mut rest);
    let none: String = String::new();
    assert(none@ =~= Seq::<char>::empty());
    out.push(none);
    assert(texts(out@) =~= seq![summary@] + texts(detail@) + seq![Seq::<char>::empty()]);
    out
}

// ---------------------------------------------------------------------------
// What a block shows

/// A new block gets a number of its own and leaves all others as they are, as long as there
/// is room for all.
pub proof fn law_a_new_block_leaves_the_others(
    r: BlockRegistryModel,
    block_lines: Seq<Seq<char>>,
    overlay: bool,
    title: Seq<char>,
    other: u64,
)
    requires
        is_orderly(r),
        other != r.next_id,
    ensures
        ({
            let after = with_new_block(r, block_lines, overlay, title);
            &&& after.enabled == r.enabled
            &&& after.next_id != r.next_id
            &&& after.entries.contains_key(other) ==> r.entries.contains_key(other)
                && after.entries[other] == r.entries[other]
        }),
{
    let e = EntryModel {
        lines: block_lines,
        overlay: overlay,
        title: title,
        version: 0,
        touched: r.next_touch,
    };
    let m = r.entries.insert(r.next_id, e);
    law_kept_blocks_stay_as_they_are(m);
    if kept_blocks(m).contains_key(other) {
        assert(kept_blocks(m).dom().contains(other));
        assert(m.dom().contains(other));
        assert(m[other] == r.entries[other]);
    }
}

/// What is read of a block is what is kept of it.
pub proof fn law_blocks_show_what_they_hold(
    r: BlockRegistry,
    id: u64,
    title: Option<String>,
    overlay: bool,
    version: u64,
    on: bool,
)
    requires
        call_ensures(BlockRegistry::title, (&r, id), title),
        call_ensures(BlockRegistry::is_overlay, (&r, id), overlay),
        call_ensures(BlockRegistry::version, (&r, id), version),
        call_ensures(BlockRegistry::is_enabled, (&r,), on),
    ensures
        r@.entries.contains_key(id) && r@.entries[id].title.len() > 0 ==> title is Some && title->0@
            == r@.entries[id].title,
        !r@.entries.contains_key(id) ==> title is None && !overlay && version == 0,
        r@.entries.contains_key(id) ==> overlay == r@.entries[id].overlay && version
            == r@.entries[id].version,
        on == r@.enabled,
{
}

/// A mark in the stream is read as what it is: the end of a block, its beginning with its
/// number, or none.
pub proof fn law_marks_are_told_apart(id: u64, other: Seq<char>)
    ensures
        marker_in("miyu-block-end"@) == Some(BlockMarker::End),
        !has_prefix(other, "miyu-block"@) ==> marker_in(other) is None,
        marker_of(id) == "\x1b]1337;"@ + ("miyu-block="@ + decimal(id as nat)) + "\x07"@,
        END_MARKER@ == "\x1b]1337;"@ + "miyu-block-end"@ + "\x07"@,
{
    reveal_strlit("miyu-block-end");
    reveal_strlit("miyu-block");
    reveal_strlit("miyu-block=");
    reveal_strlit("\x1b]1337;");
    reveal_strlit("\x1b]1337;miyu-block=");
    reveal_strlit("\x1b]1337;miyu-block-end\x07");
    reveal_strlit("\x07");
    assert("\x1b]1337;miyu-block="@ =~= "\x1b]1337;"@ + "miyu-block="@);
    assert(END_MARKER@ =~= "\x1b]1337;"@ + "miyu-block-end"@ + "\x07"@);
    assert(marker_of(id) =~= "\x1b]1337;"@ + ("miyu-block="@ + decimal(id as nat)) + "\x07"@);
    if marker_in(other) is Some {
        if other == "miyu-block-end"@ {
            assert(other.subrange(0, 10) =~= "miyu-block"@);
        } else {
            assert(other.subrange(0, 11) =~= "miyu-block="@);
            assert forall|i: int| 0 <= i < 10 implies #[trigger] other.subrange(0, 10)[i]
                == "miyu-block"@[i] by {
                assert(other.subrange(0, 11)[i] == other[i]);
            }
            assert(other.subrange(0, 10) =~= "miyu-block"@);
        }
        assert(has_prefix(other, "miyu-block"@));
    }
}

/// What can be opened is shown line by line, under its summary where there is one.
pub proof fn law_what_can_be_opened(
    enabled: bool,
    text: &str,
    shown: Vec<String>,
    summary: &str,
    detail: Vec<String>,
    under: Vec<String>,
)
    requires
        call_ensures(expandable_text_lines, (enabled, text), shown),
        call_ensures(expand_under, (enabled, summary, detail), under),
    ensures
        enabled && trim(text@).len() > 0 ==> texts(shown@) == lines(text@),
        !enabled || trim(text@).len() == 0 ==> shown@.len() == 0,
        enabled && detail@.len() > 0 ==> under@.len() == detail@.len() + 2 && under@[0]@ == summary@
            && under@.last()@.len() == 0 && forall|i: int|
            0 <= i < detail@.len() ==> (#[trigger] under@[i + 1])@ == detail@[i]@,
        !enabled || detail@.len() == 0 ==> under@.len() == 0,
{
    assert(texts(shown@).len() == shown@.len());
    assert(texts(under@).len() == under@.len());
    if enabled && detail@.len() > 0 {
        assert(texts(under@)[0] == under@[0]@);
        assert(texts(under@)[under@.len() - 1] == under@.last()@);
        assert forall|i: int| 0 <= i < detail@.len() implies (#[trigger] under@[i + 1])@
            == detail@[i]@ by {
            assert(texts(under@)[i + 1] == under@[i + 1]@);
            assert(texts(detail@)[i] == detail@[i]@);
        }
    }
}

/// What there is once blocks are switched on or off.
pub open spec fn switched(r: BlockRegistryModel, on: bool) -> BlockRegistryModel {
    BlockRegistryModel {
        enabled: on,
        entries: if on {
            r.entries
        } else {
            Map::empty()
        },
        ..r
    }
}

/// What there is once a block was looked up.
pub open spec fn looked_up(r: BlockRegistryModel, id: u64) -> BlockRegistryModel {
    BlockRegistryModel {
        next_touch: next_number(r.next_touch),
        entries: match block_at(r.entries, id) {
            Some(e) => r.entries.insert(id, EntryModel { touched: r.next_touch, ..e }),
            None => r.entries,
        },
        ..r
    }
}

/// What there is once a block got new lines.
pub open spec fn renewed(
    r: BlockRegistryModel,
    id: u64,
    title: Seq<char>,
    block_lines: Seq<Seq<char>>,
) -> BlockRegistryModel {
    match block_at(r.entries, id) {
        None => BlockRegistryModel { entries: kept_blocks(r.entries), ..r },
        Some(e) => BlockRegistryModel {
            next_touch: next_number(r.next_touch),
            entries: kept_blocks(
                r.entries.insert(
                    id,
                    EntryModel {
                        lines: block_lines,
                        title: if title.len() > 0 {
                            title
                        } else {
                            e.title
                        },
                        version: next_number(e.version),
                        touched: r.next_touch,
                        ..e
                    },
                ),
            ),
            ..r
        },
    }
}

/// The lines of a block, where there is one.
pub open spec fn lines_at(r: BlockRegistryModel, id: u64) -> Option<Seq<Seq<char>>> {
    match block_at(r.entries, id) {
        Some(e) => Some(e.lines),
        None => None,
    }
}

/// The lines that were found, as texts.
pub open spec fn opt_lines(r: Option<Vec<String>>) -> Option<Seq<Seq<char>>> {
    match r {
        Some(v) => Some(texts(v@)),
        None => None,
    }
}

/// Looking a block up shows its lines and changes none of any block; only switching blocks
/// off forgets them.
pub proof fn law_looking_changes_nothing(r: BlockRegistryModel, id: u64, other: u64, on: bool)
    ensures
        lines_at(looked_up(r, id), other) == lines_at(r, other),
        r.entries.contains_key(id) ==> lines_at(r, id) == Some(r.entries[id].lines),
        !r.entries.contains_key(id) ==> lines_at(r, id) is None,
        lines_at(switched(r, true), other) == lines_at(r, other),
        lines_at(switched(r, false), other) is None,
        switched(r, on).enabled == on,
        looked_up(r, id).enabled == r.enabled,
{
}

/// A block that gets new lines shows these from then on, under its new title or its old one,
/// and says that it changed.
pub proof fn law_a_renewed_block_reads_back(
    r: BlockRegistryModel,
    id: u64,
    title: Seq<char>,
    block_lines: Seq<Seq<char>>,
)
    requires
        is_orderly(r),
        r.entries.contains_key(id),
        r.entries[id].version < u64::MAX,
    ensures
        ({
            let after = renewed(r, id, title, block_lines);
            &&& lines_at(after, id) == Some(block_lines)
            &&& after.entries[id].version == r.entries[id].version + 1
            &&& after.entries[id].overlay == r.entries[id].overlay
            &&& title.len() > 0 ==> after.entries[id].title == title
            &&& title.len() == 0 ==> after.entries[id].title == r.entries[id].title
        }),
{
    let e = r.entries[id];
    let m = r.entries.insert(
        id,
        EntryModel {
            lines: block_lines,
            title: if title.len() > 0 {
                title
            } else {
                e.title
            },
            version: next_number(e.version),
            touched: r.next_touch,
            ..e
        },
    );
    assert forall|other: u64| #[trigger] m.contains_key(other) && other != id implies staler(
        m,
        other,
        id,
    ) by {
        assert(r.entries.contains_key(other));
    }
    law_fresh_block_is_kept(m, id);
}

} // verus!
