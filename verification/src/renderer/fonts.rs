//! The fonts of the renderer, and its settings.

use crate::real_context::judge::{ascii_lowercase, to_ascii_lowercase};
use crate::text::{
    is_white, join, joined, law_plain_white_space, law_trim_takes_only_white_space,
    law_trimmed_stays, res_view, texts, trim, trimmed,
};
use vstd::prelude::*;
use vstd::string::*;

verus! {

/// How many glyphs are kept.
pub const MAX_CACHED_GLYPHS: usize = 2048;

/// How many font files of the user are loaded.
pub const MAX_CUSTOM_FONT_FILES: usize = 8;

/// The font file that must be there.
pub const CJK_FONT_FILE: &'static str = "NotoSansCJK-Regular.ttc";

/// The first of the directories that holds the font; past the end if none does.
pub open spec fn first_with_font(has_font: Seq<bool>) -> int
    decreases has_font.len(),
{
    if has_font.len() == 0 || has_font[0] {
        0
    } else {
        1 + first_with_font(has_font.drop_first())
    }
}

proof fn lemma_first_with_font(has_font: Seq<bool>, k: int)
    requires
        0 <= k <= has_font.len(),
        forall|j: int| 0 <= j < k ==> !#[trigger] has_font[j],
        k == has_font.len() || has_font[k],
    ensures
        first_with_font(has_font) == k,
    decreases has_font.len(),
{
    if k > 0 {
        let t = has_font.drop_first();
        assert(!has_font[0]);
        assert forall|j: int| 0 <= j < k - 1 implies !#[trigger] t[j] by {
            assert(t[j] == has_font[j + 1]);
        }
        lemma_first_with_font(t, k - 1);
    }
}

/// The directory that the fonts are taken from, or the error that names all that
/// were searched.
pub open spec fn fonts_dir(candidates: Seq<Seq<char>>, has_font: Seq<bool>) -> Result<
    Seq<char>,
    Seq<char>,
> {
    let i = first_with_font(has_font);
    if i < candidates.len() {
        Ok(candidates[i])
    } else {
        Err(
            "renderer font is missing; install NotoSansCJK-Regular.ttc in /usr/share/miyu/fonts or set MIYU_RENDERER_FONTS_DIR (searched: "@
                + join(candidates, ", "@) + ")"@,
        )
    }
}

/// The directory that the fonts are taken from: the first candidate that holds the
/// font file.
pub fn renderer_fonts_dir_from(candidates: &Vec<String>, has_font: &Vec<bool>) -> (r: Result<
    String,
    String,
>)
    requires
        candidates.len() == has_font.len(),
    ensures
        res_view(r) == fonts_dir(texts(candidates@), has_font@),
{
    let mut i: usize = 0;
    while i < candidates.len() && !has_font[i]
        invariant
            i <= candidates.len(),
            candidates.len() == has_font.len(),
            forall|j: int| 0 <= j < i ==> !#[trigger] has_font@[j],
        decreases candidates.len() - i,
    {
        i += 1;
    }
    proof {
        lemma_first_with_font(has_font@, i as int);
    }
    if i < candidates.len() {
        return Ok(candidates[i].clone());
    }
    let mut m: String = "renderer font is missing; install NotoSansCJK-Regular.ttc in /usr/share/miyu/fonts or set MIYU_RENDERER_FONTS_DIR (searched: ".to_owned();
    let all: String = joined(candidates, ", ");
    m.append(&all);
    m.append(")");
    Err(m)
}

/// How answers are rendered.
pub struct RenderConfig {
    pub theme: String,
    pub max_height: u32,
    pub font_size: u32,
    pub code_font_size: u32,
    pub padding: u32,
    pub font: String,
    pub title_font: String,
    pub code_font: String,
    pub emoji_font: String,
}

/// What a [`RenderConfig`] holds, as values.
#[verifier::ext_equal]
pub struct RenderConfigModel {
    pub theme: Seq<char>,
    pub max_height: u32,
    pub font_size: u32,
    pub code_font_size: u32,
    pub padding: u32,
    pub font: Seq<char>,
    pub title_font: Seq<char>,
    pub code_font: Seq<char>,
    pub emoji_font: Seq<char>,
}

impl View for RenderConfig {
    type V = RenderConfigModel;

    open spec fn view(&self) -> RenderConfigModel {
        RenderConfigModel {
            theme: self.theme@,
            max_height: self.max_height,
            font_size: self.font_size,
            code_font_size: self.code_font_size,
            padding: self.padding,
            font: self.font@,
            title_font: self.title_font@,
            code_font: self.code_font@,
            emoji_font: self.emoji_font@,
        }
    }
}


/// `n` held between `lo` and `hi`.
pub open spec fn held(n: u32, lo: u32, hi: u32) -> u32 {
    if n < lo {
        lo
    } else if n > hi {
        hi
    } else {
        n
    }
}

fn hold(n: u32, lo: u32, hi: u32) -> (r: u32)
    ensures
        r == held(n, lo, hi),
{
    if n < lo {
        lo
    } else if n > hi {
        hi
    } else {
        n
    }
}

/// The settings as the renderer uses them: sizes held in their ranges.
pub open spec fn normalized_config(c: RenderConfigModel, min_height: u32, max_height: u32) -> RenderConfigModel {
    RenderConfigModel {
        theme: ascii_lowercase(trim(c.theme)),
        max_height: held(c.max_height, min_height, max_height),
        font_size: held(c.font_size, 14, 56),
        code_font_size: held(c.code_font_size, 12, 52),
        padding: held(c.padding, 24, 160),
        ..c
    }
}

impl RenderConfig {
    /// The settings as the renderer uses them. A page is from `min_height` to
    /// `max_height` high.
    pub fn normalized(&self, min_height: u32, max_height: u32) -> (r: RenderConfig)
        requires
            min_height <= max_height,
        ensures
            r@ == normalized_config(self@, min_height, max_height),
    {
        let t: String = trimmed(&self.theme);
        RenderConfig {
            theme: to_ascii_lowercase(&t),
            max_height: hold(self.max_height, min_height, max_height),
            font_size: hold(self.font_size, 14, 56),
            code_font_size: hold(self.code_font_size, 12, 52),
            padding: hold(self.padding, 24, 160),
            font: self.font.clone(),
            title_font: self.title_font.clone(),
            code_font: self.code_font.clone(),
            emoji_font: self.emoji_font.clone(),
        }
    }
}

/// However extreme the settings are, the renderer's sizes are in their ranges, and
/// settings in their ranges stay as they are.
pub proof fn law_config_is_bounded(c: RenderConfigModel, min_height: u32, max_height: u32)
    requires
        min_height <= max_height,
    ensures
        ({
            let n = normalized_config(c, min_height, max_height);
            &&& min_height <= n.max_height <= max_height
            &&& 14 <= n.font_size <= 56
            &&& 12 <= n.code_font_size <= 52
            &&& 24 <= n.padding <= 160
            &&& held(n.font_size, 14, 56) == n.font_size
            &&& held(n.padding, 24, 160) == n.padding
        }),
{
}

/// The fonts are taken from the first place that has them, and where none has, that is an
/// error.
pub proof fn law_the_first_place_with_fonts(candidates: Seq<Seq<char>>, has_font: Seq<bool>, i: int)
    requires
        candidates.len() == has_font.len(),
    ensures
        0 <= i < has_font.len() && has_font[i] && (forall|k: int|
            0 <= k < i ==> !#[trigger] has_font[k]) ==> fonts_dir(candidates, has_font) == Ok::<
            Seq<char>,
            Seq<char>,
        >(candidates[i]),
        (forall|k: int| 0 <= k < has_font.len() ==> !#[trigger] has_font[k]) ==> fonts_dir(
            candidates,
            has_font,
        ) is Err,
{
    lemma_first_place(has_font, i);
}

proof fn lemma_first_place(has_font: Seq<bool>, i: int)
    ensures
        0 <= i < has_font.len() && has_font[i] && (forall|k: int|
            0 <= k < i ==> !#[trigger] has_font[k]) ==> first_with_font(has_font) == i,
        (forall|k: int| 0 <= k < has_font.len() ==> !#[trigger] has_font[k]) ==> first_with_font(
            has_font,
        ) == has_font.len(),
    decreases has_font.len(),
{
    if has_font.len() > 0 && !has_font[0] {
        let rest = has_font.drop_first();
        lemma_first_place(rest, i - 1);
        if 0 <= i < has_font.len() && has_font[i] && (forall|k: int|
            0 <= k < i ==> !#[trigger] has_font[k]) {
            assert(i > 0);
            assert(rest[i - 1] == has_font[i]);
            assert forall|k: int| 0 <= k < i - 1 implies !#[trigger] rest[k] by {
                assert(rest[k] == has_font[k + 1]);
            }
        }
        if (forall|k: int| 0 <= k < has_font.len() ==> !#[trigger] has_font[k]) {
            assert forall|k: int| 0 <= k < rest.len() implies !#[trigger] rest[k] by {
                assert(rest[k] == has_font[k + 1]);
            }
        }
    }
}

/// Settings within their bounds stay as they are, and fonts are never changed.
pub proof fn law_proper_settings_stay(c: RenderConfigModel, min_height: u32, max_height: u32)
    ensures
        ({
            let n = normalized_config(c, min_height, max_height);
            &&& min_height <= c.max_height <= max_height ==> n.max_height == c.max_height
            &&& 14 <= c.font_size <= 56 ==> n.font_size == c.font_size
            &&& 12 <= c.code_font_size <= 52 ==> n.code_font_size == c.code_font_size
            &&& 24 <= c.padding <= 160 ==> n.padding == c.padding
            &&& n.font == c.font && n.title_font == c.title_font && n.code_font == c.code_font
                && n.emoji_font == c.emoji_font
            &&& c.theme == "dark"@ ==> n.theme == "dark"@
            &&& c.theme == " Dark "@ ==> n.theme == "dark"@
        }),
{
    reveal_strlit("dark");
    reveal_strlit(" Dark ");
    law_plain_white_space('d');
    law_plain_white_space('k');
    law_plain_white_space('D');
    law_plain_white_space(' ');
    assert("dark"@ =~= seq!['d', 'a', 'r', 'k']);
    assert(" Dark "@ =~= seq![' '] + seq!['D', 'a', 'r', 'k'] + seq![' ']);
    law_trimmed_stays("dark"@);
    assert(ascii_lowercase("dark"@) =~= "dark"@);
    lemma_trimmed_between(seq!['D', 'a', 'r', 'k']);
    assert(ascii_lowercase(seq!['D', 'a', 'r', 'k']) =~= "dark"@);
}

proof fn lemma_trimmed_between(s: Seq<char>)
    requires
        s.len() > 0,
        !is_white(s[0]),
        !is_white(s.last()),
    ensures
        trim(seq![' '] + s + seq![' ']) == s,
{
    law_plain_white_space(' ');
    let t = seq![' '] + s + seq![' '];
    let (a, b) = law_trim_takes_only_white_space(t);
    let m = trim(t);
    assert(t[1] == s[0] && t[t.len() - 2] == s.last());
    if a.len() > 1 {
        assert(a[1] == t[1]);
    }
    if b.len() > 1 {
        assert(b[b.len() - 2] == t[t.len() - 2]);
    }
    if m.len() > 0 {
        if a.len() == 0 {
            assert(m[0] == t[0]);
        }
        if b.len() == 0 {
            assert(m.last() == t.last());
        }
    }
    assert(t.len() == a.len() + m.len() + b.len());
    assert(m.len() > 0) by {
        if m.len() == 0 {
            assert(a + m + b =~= a + b);
            assert(a.len() >= 2 || b.len() >= 2);
        }
    }
    assert(a.len() == 1 && b.len() == 1);
    assert(m =~= t.subrange(1, t.len() - 1));
    assert(m =~= s);
}

} // verus!
