//! Text as sequences of characters: scanning, splitting, joining, numbers.

use vstd::prelude::*;
use vstd::string::*;

verus! {

/// `String::push` appends one character to the end of the string.
pub assume_specification[ String::push ](s: &mut String, c: char)
    ensures
        final(s)@ == old(s)@.push(c),
;

/// `s` in lower case, as `str::to_lowercase` gives it.
pub uninterp spec fn lowercase(s: Seq<char>) -> Seq<char>;

/// `str::to_lowercase` maps a text to its lower case by the Unicode rules; the
/// result depends on the text alone.
pub assume_specification[ str::to_lowercase ](s: &str) -> (r: String)
    ensures
        r@ == lowercase(s@),
;

/// `String::from_utf8` makes a text of bytes that are valid UTF-8.
#[verifier::external_body]
pub(crate) fn text_from_utf8(bytes: Vec<u8>) -> (r: Option<String>)
    ensures
        match r {
            Some(s) => vstd::utf8::valid_utf8(bytes@) && s@ == vstd::utf8::decode_utf8(bytes@),
            None => !vstd::utf8::valid_utf8(bytes@),
        },
{
    String::from_utf8(bytes).ok()
}

/// The text that bytes make when what is not valid UTF-8 is replaced.
pub uninterp spec fn lossy_utf8(bytes: Seq<u8>) -> Seq<char>;

/// The text that bytes make: the text itself where they are valid UTF-8.
pub open spec fn lossy_text(bytes: Seq<u8>) -> Seq<char> {
    if vstd::utf8::valid_utf8(bytes) {
        vstd::utf8::decode_utf8(bytes)
    } else {
        lossy_utf8(bytes)
    }
}

/// `String::from_utf8_lossy` makes a text of bytes, with a mark in place of what is
/// not valid UTF-8. It depends on the bytes alone, and of valid UTF-8 it makes the
/// text itself.
#[verifier::external_body]
pub(crate) fn text_from_utf8_lossy(bytes: &Vec<u8>) -> (r: String)
    ensures
        r@ == lossy_utf8(bytes@),
        vstd::utf8::valid_utf8(bytes@) ==> r@ == vstd::utf8::decode_utf8(bytes@),
{
    String::from_utf8_lossy(bytes).into_owned()
}

// ---------------------------------------------------------------------------
// Character classes

/// The Unicode `White_Space` property.
pub open spec fn is_white(c: char) -> bool {
    ('\u{9}' <= c && c <= '\u{d}') || c == '\u{20}' || c == '\u{85}' || c == '\u{a0}'
        || c == '\u{1680}' || ('\u{2000}' <= c && c <= '\u{200a}') || c == '\u{2028}'
        || c == '\u{2029}' || c == '\u{202f}' || c == '\u{205f}' || c == '\u{3000}'
}

/// The Unicode general category `Cc`.
pub open spec fn is_ctrl(c: char) -> bool {
    c <= '\u{1f}' || ('\u{7f}' <= c && c <= '\u{9f}')
}

/// An ASCII decimal digit.
pub open spec fn is_digit(c: char) -> bool {
    '0' <= c && c <= '9'
}

pub open spec fn white_class() -> spec_fn(char) -> bool {
    |c: char| is_white(c)
}

pub open spec fn ink_class() -> spec_fn(char) -> bool {
    |c: char| !is_white(c)
}

pub open spec fn other_than(x: char) -> spec_fn(char) -> bool {
    |c: char| c != x
}

/// Whether `c` has the Unicode `White_Space` property.
pub fn char_is_white(c: char) -> (r: bool)
    ensures
        r == is_white(c),
{
    ('\u{9}' <= c && c <= '\u{d}') || c == '\u{20}' || c == '\u{85}' || c == '\u{a0}'
        || c == '\u{1680}' || ('\u{2000}' <= c && c <= '\u{200a}') || c == '\u{2028}'
        || c == '\u{2029}' || c == '\u{202f}' || c == '\u{205f}' || c == '\u{3000}'
}

/// Whether `c` is a control character.
pub fn char_is_ctrl(c: char) -> (r: bool)
    ensures
        r == is_ctrl(c),
{
    c <= '\u{1f}' || ('\u{7f}' <= c && c <= '\u{9f}')
}

/// Whether `c` is an ASCII decimal digit.
pub fn char_is_digit(c: char) -> (r: bool)
    ensures
        r == is_digit(c),
{
    '0' <= c && c <= '9'
}

// ---------------------------------------------------------------------------
// Strings and character vectors

/// The texts of a sequence of strings.
pub open spec fn texts(v: Seq<String>) -> Seq<Seq<char>> {
    v.map_values(|s: String| s@)
}

/// The models of a sequence of values.
pub open spec fn views<T: View>(v: Seq<T>) -> Seq<T::V> {
    v.map_values(|x: T| x@)
}

/// The text that may be there.
pub open spec fn opt_text(s: Option<String>) -> Option<Seq<char>> {
    match s {
        Some(t) => Some(t@),
        None => None,
    }
}

/// The model of a value that may be there.
pub open spec fn opt_view<T: View>(v: Option<T>) -> Option<T::V> {
    match v {
        Some(x) => Some(x@),
        None => None,
    }
}

/// The text that may be there, or the empty text.
pub open spec fn text_or_none(s: Option<Seq<char>>) -> Seq<char> {
    match s {
        Some(t) => t,
        None => seq![],
    }
}

/// A result with its message as text.
pub open spec fn res_text<T>(r: Result<T, String>) -> Result<T, Seq<char>> {
    match r {
        Ok(x) => Ok(x),
        Err(e) => Err(e@),
    }
}

/// A result with its value as a model and its message as text.
pub open spec fn res_view<T: View>(r: Result<T, String>) -> Result<T::V, Seq<char>> {
    match r {
        Ok(x) => Ok(x@),
        Err(e) => Err(e@),
    }
}

/// A copy of a text that may be there.
pub fn copy_opt(s: &Option<String>) -> (r: Option<String>)
    ensures
        opt_text(r) == opt_text(*s),
{
    match s {
        Some(t) => Some(t.clone()),
        None => None,
    }
}

/// A copy of a text that may be there, or the empty text.
pub fn copy_or_empty(s: &Option<String>) -> (r: String)
    ensures
        r@ == text_or_none(opt_text(*s)),
{
    match s {
        Some(t) => t.clone(),
        None => String::new(),
    }
}

/// Whether a text is there and is `s`.
pub fn opt_is(o: &Option<String>, s: &str) -> (r: bool)
    ensures
        r == (opt_text(*o) == Some(s@)),
{
    match o {
        Some(t) => same(t, s),
        None => false,
    }
}

/// The characters of `s`.
pub fn chars_of(s: &str) -> (r: Vec<char>)
    ensures
        r@ == s@,
{
    let mut out: Vec<char> = Vec::new();
    for c in it: s.chars()
        invariant
            out@ =~= it.seq().take(it.index()),
            it.seq() == s@,
    {
        out.push(c);
    }
    out
}

/// The string made of the characters of `v` from `lo` up to `hi`.
pub fn slice_text(v: &Vec<char>, lo: usize, hi: usize) -> (r: String)
    requires
        lo <= hi <= v.len(),
    ensures
        r@ == v@.subrange(lo as int, hi as int),
{
    let mut out: String = String::new();
    let mut i: usize = lo;
    while i < hi
        invariant
            lo <= i <= hi <= v.len(),
            out@ =~= v@.subrange(lo as int, i as int),
        decreases hi - i,
    {
        out.push(v[i]);
        i += 1;
    }
    out
}

/// The string made of all the characters of `v`.
pub fn text_of(v: &Vec<char>) -> (r: String)
    ensures
        r@ == v@,
{
    let r: String = slice_text(v, 0, v.len());
    assert(v@.subrange(0, v.len() as int) =~= v@);
    r
}

/// Whether two texts are the same.
pub fn same(a: &str, b: &str) -> (r: bool)
    ensures
        r == (a@ == b@),
{
    let x: Vec<char> = chars_of(a);
    let y: Vec<char> = chars_of(b);
    if x.len() != y.len() {
        return false;
    }
    let mut i: usize = 0;
    while i < x.len()
        invariant
            i <= x.len(),
            x.len() == y.len(),
            x@ == a@,
            y@ == b@,
            forall|j: int| 0 <= j < i ==> x@[j] == y@[j],
        decreases x.len() - i,
    {
        if x[i] != y[i] {
            assert(a@[i as int] != b@[i as int]);
            return false;
        }
        i += 1;
    }
    assert(a@ =~= b@);
    true
}

/// Whether some string of `v` is the text `s`.
pub fn holds_text(v: &Vec<String>, s: &str) -> (r: bool)
    ensures
        r == texts(v@).contains(s@),
{
    let mut i: usize = 0;
    while i < v.len()
        invariant
            i <= v.len(),
            forall|j: int| 0 <= j < i ==> texts(v@)[j] != s@,
        decreases v.len() - i,
    {
        if same(&v[i], s) {
            assert(texts(v@)[i as int] == s@);
            return true;
        }
        i += 1;
    }
    false
}

/// A copy of a list of strings.
pub fn copy_texts(v: &Vec<String>) -> (r: Vec<String>)
    ensures
        texts(r@) == texts(v@),
        r.len() == v.len(),
{
    let mut out: Vec<String> = Vec::new();
    let mut i: usize = 0;
    while i < v.len()
        invariant
            i <= v.len(),
            out.len() == i,
            forall|j: int| 0 <= j < i ==> out@[j]@ == v@[j]@,
        decreases v.len() - i,
    {
        out.push(v[i].clone());
        i += 1;
    }
    assert(texts(out@) =~= texts(v@));
    out
}

// ---------------------------------------------------------------------------
// Spans and trimming

/// How many of the first characters of `s` are in the class `p`.
pub open spec fn span(s: Seq<char>, p: spec_fn(char) -> bool) -> nat
    decreases s.len(),
{
    if s.len() > 0 && p(s[0]) {
        1 + span(s.drop_first(), p)
    } else {
        0
    }
}

/// A length is the span when everything before it is in the class and what
/// stands there is not.
pub proof fn lemma_span(s: Seq<char>, p: spec_fn(char) -> bool, k: int)
    requires
        0 <= k <= s.len(),
        forall|j: int| 0 <= j < k ==> p(#[trigger] s[j]),
        k == s.len() || !p(s[k]),
    ensures
        span(s, p) == k,
    decreases s.len(),
{
    if k > 0 {
        assert(p(s[0]));
        let t = s.drop_first();
        assert forall|j: int| 0 <= j < k - 1 implies p(#[trigger] t[j]) by {
            assert(t[j] == s[j + 1]);
        }
        lemma_span(t, p, k - 1);
    }
}

/// The span is at most the length, holds only the class, and ends where the
/// class does.
pub proof fn lemma_span_bounds(s: Seq<char>, p: spec_fn(char) -> bool)
    ensures
        span(s, p) <= s.len(),
        forall|j: int| 0 <= j < span(s, p) ==> p(#[trigger] s[j]),
        span(s, p) == s.len() || !p(s[span(s, p) as int]),
    decreases s.len(),
{
    if s.len() > 0 && p(s[0]) {
        let t = s.drop_first();
        lemma_span_bounds(t, p);
        assert forall|j: int| 0 <= j < span(s, p) implies p(#[trigger] s[j]) by {
            if j > 0 {
                assert(t[j - 1] == s[j]);
            }
        }
    }
}

/// `s` without its leading white space.
pub open spec fn trim_start(s: Seq<char>) -> Seq<char> {
    s.subrange(span(s, white_class()) as int, s.len() as int)
}

/// `s` without its trailing white space.
pub open spec fn trim_end(s: Seq<char>) -> Seq<char>
    decreases s.len(),
{
    if s.len() > 0 && is_white(s.last()) {
        trim_end(s.drop_last())
    } else {
        s
    }
}

/// `s` without white space at either end.
pub open spec fn trim(s: Seq<char>) -> Seq<char> {
    trim_end(trim_start(s))
}

/// The number of leading white characters of `v`.
pub fn leading_white(v: &Vec<char>) -> (n: usize)
    ensures
        n == span(v@, white_class()),
        n <= v.len(),
{
    let mut i: usize = 0;
    while i < v.len() && char_is_white(v[i])
        invariant
            i <= v.len(),
            forall|j: int| 0 <= j < i ==> is_white(#[trigger] v@[j]),
        decreases v.len() - i,
    {
        i += 1;
    }
    proof {
        lemma_span(v@, white_class(), i as int);
    }
    i
}

/// Where the text of `v` ends when trailing white space past `lo` is dropped.
pub fn trimmed_end(v: &Vec<char>, lo: usize) -> (hi: usize)
    requires
        lo <= v.len(),
    ensures
        lo <= hi <= v.len(),
        v@.subrange(lo as int, hi as int) == trim_end(v@.subrange(lo as int, v.len() as int)),
{
    let mut hi: usize = v.len();
    let ghost whole = v@.subrange(lo as int, v.len() as int);
    while hi > lo && char_is_white(v[hi - 1])
        invariant
            lo <= hi <= v.len(),
            trim_end(v@.subrange(lo as int, hi as int)) == trim_end(whole),
        decreases hi,
    {
        assert(v@.subrange(lo as int, hi as int).drop_last() =~= v@.subrange(
            lo as int,
            hi - 1,
        ));
        hi -= 1;
    }
    hi
}

/// `s` without white space at either end.
pub fn trimmed(s: &str) -> (r: String)
    ensures
        r@ == trim(s@),
{
    let v: Vec<char> = chars_of(s);
    let lo: usize = leading_white(&v);
    let hi: usize = trimmed_end(&v, lo);
    slice_text(&v, lo, hi)
}

/// `s` without trailing white space.
pub fn trimmed_right(s: &str) -> (r: String)
    ensures
        r@ == trim_end(s@),
{
    let v: Vec<char> = chars_of(s);
    let hi: usize = trimmed_end(&v, 0);
    assert(v@.subrange(0, v.len() as int) =~= s@);
    slice_text(&v, 0, hi)
}

/// Whether nothing but white space is in `s`.
pub fn is_blank(s: &str) -> (r: bool)
    ensures
        r == (trim(s@).len() == 0),
{
    let t: String = trimmed(s);
    t.as_str().unicode_len() == 0
}

/// Whether `s` holds no character.
pub fn is_empty_text(s: &str) -> (r: bool)
    ensures
        r == (s@.len() == 0),
{
    s.unicode_len() == 0
}

// ---------------------------------------------------------------------------
// Prefixes

/// The first `n` characters of `s`, or all of them where it has fewer.
pub open spec fn take_at_most(s: Seq<char>, n: nat) -> Seq<char> {
    if s.len() <= n {
        s
    } else {
        s.take(n as int)
    }
}

/// The first `n` characters of `s`.
pub fn first_chars(s: &str, n: usize) -> (r: String)
    ensures
        r@ == take_at_most(s@, n as nat),
{
    let v: Vec<char> = chars_of(s);
    let hi: usize = if v.len() <= n { v.len() } else { n };
    let r: String = slice_text(&v, 0, hi);
    assert(r@ =~= take_at_most(s@, n as nat));
    r
}

/// Whether `pat` stands in `s` at `i`.
pub open spec fn stands_at(s: Seq<char>, pat: Seq<char>, i: int) -> bool {
    0 <= i && i + pat.len() <= s.len() && s.subrange(i, i + pat.len()) == pat
}

/// Whether `pat` stands anywhere in `s`.
pub open spec fn occurs(s: Seq<char>, pat: Seq<char>) -> bool {
    exists|i: int| stands_at(s, pat, i)
}

/// Where `pat` first stands in `s` at or after `from`; past the end if nowhere.
pub open spec fn find_from(s: Seq<char>, pat: Seq<char>, from: int) -> int
    decreases s.len() - from + 1,
{
    if from > s.len() {
        from
    } else if stands_at(s, pat, from) {
        from
    } else {
        find_from(s, pat, from + 1)
    }
}

/// The first place of `pat` in `s`, if any.
pub open spec fn find(s: Seq<char>, pat: Seq<char>) -> Option<int> {
    let i = find_from(s, pat, 0);
    if i <= s.len() {
        Some(i)
    } else {
        None
    }
}

/// What `find` gives is a place of `pat`, and the first one.
pub proof fn lemma_find_from(s: Seq<char>, pat: Seq<char>, from: int)
    requires
        0 <= from <= s.len() + 1,
    ensures
        from <= find_from(s, pat, from) <= s.len() + 1,
        find_from(s, pat, from) <= s.len() ==> stands_at(s, pat, find_from(s, pat, from)),
        forall|j: int|
            from <= j < find_from(s, pat, from) ==> !#[trigger] stands_at(s, pat, j),
    decreases s.len() - from + 1,
{
    if from <= s.len() && !stands_at(s, pat, from) {
        lemma_find_from(s, pat, from + 1);
    }
}

/// `pat` occurs exactly where `find` finds it.
pub proof fn lemma_find_occurs(s: Seq<char>, pat: Seq<char>)
    ensures
        find(s, pat) is Some <==> occurs(s, pat),
{
    lemma_find_from(s, pat, 0);
    if find(s, pat) is Some {
        assert(stands_at(s, pat, find_from(s, pat, 0)));
    }
    if occurs(s, pat) {
        let i = choose|i: int| stands_at(s, pat, i);
        assert(stands_at(s, pat, i));
    }
}

/// Whether `pat` stands in `v` at `i`.
pub fn stands_in(v: &Vec<char>, pat: &Vec<char>, i: usize) -> (r: bool)
    ensures
        r == stands_at(v@, pat@, i as int),
{
    if i > v.len() || pat.len() > v.len() - i {
        return false;
    }
    let mut j: usize = 0;
    while j < pat.len()
        invariant
            i <= v.len(),
            j <= pat.len(),
            pat.len() <= v.len() - i,
            forall|k: int| 0 <= k < j ==> v@[i + k] == pat@[k],
        decreases pat.len() - j,
    {
        if v[i + j] != pat[j] {
            assert(v@.subrange(i as int, i + pat.len())[j as int] != pat@[j as int]);
            return false;
        }
        j += 1;
    }
    assert(v@.subrange(i as int, i + pat.len()) =~= pat@);
    true
}

/// The first place of `pat` in `v` at or after `from`.
pub fn find_in(v: &Vec<char>, pat: &Vec<char>, from: usize) -> (r: Option<usize>)
    requires
        from <= v.len(),
    ensures
        match r {
            Some(i) => i == find_from(v@, pat@, from as int) && i <= v.len()
                && stands_at(v@, pat@, i as int),
            None => find_from(v@, pat@, from as int) > v.len(),
        },
{
    let mut i: usize = from;
    loop
        invariant
            from <= i <= v.len(),
            find_from(v@, pat@, from as int) == find_from(v@, pat@, i as int),
        decreases v.len() - i,
    {
        if stands_in(v, pat, i) {
            return Some(i);
        }
        if i == v.len() {
            assert(find_from(v@, pat@, i as int) == find_from(v@, pat@, i + 1));
            return None;
        }
        i += 1;
    }
}

/// Whether `pat` occurs in `s`.
pub fn contains_text(s: &str, pat: &str) -> (r: bool)
    ensures
        r == occurs(s@, pat@),
{
    let v: Vec<char> = chars_of(s);
    let p: Vec<char> = chars_of(pat);
    let r: Option<usize> = find_in(&v, &p, 0);
    proof {
        lemma_find_occurs(s@, pat@);
    }
    r.is_some()
}

/// Whether `s` begins with `pat`.
pub open spec fn has_prefix(s: Seq<char>, pat: Seq<char>) -> bool {
    stands_at(s, pat, 0)
}

/// Whether `s` begins with `pat`.
pub fn begins_with(s: &str, pat: &str) -> (r: bool)
    ensures
        r == has_prefix(s@, pat@),
{
    let v: Vec<char> = chars_of(s);
    let p: Vec<char> = chars_of(pat);
    stands_in(&v, &p, 0)
}

/// What follows `pat` in `s`, where `s` begins with it.
pub fn after_prefix(s: &str, pat: &str) -> (r: Option<String>)
    ensures
        match r {
            Some(t) => has_prefix(s@, pat@) && s@ == pat@ + t@,
            None => !has_prefix(s@, pat@),
        },
{
    let v: Vec<char> = chars_of(s);
    let p: Vec<char> = chars_of(pat);
    if stands_in(&v, &p, 0) {
        let t: String = slice_text(&v, p.len(), v.len());
        assert(s@ =~= s@.subrange(0, pat@.len() as int) + t@);
        Some(t)
    } else {
        None
    }
}

// ---------------------------------------------------------------------------
// Splitting and joining

/// The pieces of `s` between the occurrences of `c`.
pub open spec fn split_on(s: Seq<char>, c: char) -> Seq<Seq<char>>
    decreases s.len(),
{
    let n = span(s, other_than(c)) as int;
    if 0 <= n < s.len() {
        seq![s.take(n)] + split_on(s.subrange(n + 1, s.len() as int), c)
    } else {
        seq![s]
    }
}

/// A line without the carriage return before its end.
pub open spec fn without_cr(s: Seq<char>) -> Seq<char> {
    if s.len() > 0 && s.last() == '\r' {
        s.drop_last()
    } else {
        s
    }
}

/// The lines of `s`: each ends with a line feed, before which one carriage
/// return is dropped; what follows the last line feed is a line unless empty.
pub open spec fn lines(s: Seq<char>) -> Seq<Seq<char>>
    decreases s.len(),
{
    let n = span(s, other_than('\n')) as int;
    if s.len() == 0 {
        seq![]
    } else if 0 <= n < s.len() {
        seq![without_cr(s.take(n))] + lines(s.subrange(n + 1, s.len() as int))
    } else {
        seq![s]
    }
}

/// The words of `s`: its maximal runs without white space.
pub open spec fn words(s: Seq<char>) -> Seq<Seq<char>>
    decreases s.len(),
{
    let n = span(s, ink_class()) as int;
    if s.len() == 0 {
        seq![]
    } else if n <= 0 || n > s.len() {
        words(s.drop_first())
    } else {
        seq![s.take(n)] + words(s.subrange(n, s.len() as int))
    }
}

/// The parts with `sep` between each two.
pub open spec fn join(parts: Seq<Seq<char>>, sep: Seq<char>) -> Seq<char>
    decreases parts.len(),
{
    if parts.len() == 0 {
        seq![]
    } else if parts.len() == 1 {
        parts[0]
    } else {
        join(parts.drop_last(), sep) + sep + parts.last()
    }
}

/// The length of the run from `from` on that is free of `c`.
fn run_without(v: &Vec<char>, from: usize, c: char) -> (hi: usize)
    requires
        from <= v.len(),
    ensures
        from <= hi <= v.len(),
        hi - from == span(v@.subrange(from as int, v.len() as int), other_than(c)),
        hi < v.len() ==> v@[hi as int] == c,
{
    let mut i: usize = from;
    while i < v.len() && v[i] != c
        invariant
            from <= i <= v.len(),
            forall|j: int| from <= j < i ==> #[trigger] v@[j] != c,
        decreases v.len() - i,
    {
        i += 1;
    }
    proof {
        lemma_span(v@.subrange(from as int, v.len() as int), other_than(c), i - from);
    }
    i
}

/// The pieces of `s` between the occurrences of `c`.
pub fn pieces(s: &str, c: char) -> (r: Vec<String>)
    ensures
        texts(r@) == split_on(s@, c),
        r.len() > 0,
{
    let v: Vec<char> = chars_of(s);
    let mut out: Vec<String> = Vec::new();
    let mut at: usize = 0;
    assert(v@.subrange(0, v.len() as int) =~= s@);
    assert(texts(out@) + split_on(s@, c) =~= split_on(s@, c));
    loop
        invariant
            at <= v.len(),
            texts(out@) + split_on(v@.subrange(at as int, v.len() as int), c) == split_on(s@, c),
        decreases v.len() - at,
    {
        let ghost rest = v@.subrange(at as int, v.len() as int);
        let hi: usize = run_without(&v, at, c);
        let ghost before = texts(out@);
        let piece: String = slice_text(&v, at, hi);
        assert(rest.take(hi - at) =~= piece@);
        out.push(piece);
        assert(texts(out@) =~= before.push(piece@));
        if hi == v.len() {
            assert(rest =~= piece@);
            assert(texts(out@) =~= before + seq![rest]);
            return out;
        }
        assert(rest.subrange(hi - at + 1, rest.len() as int) =~= v@.subrange(
            hi + 1,
            v.len() as int,
        ));
        assert(texts(out@) + split_on(v@.subrange(hi + 1, v.len() as int), c) =~= before
            + split_on(rest, c));
        at = hi + 1;
    }
}

/// The lines of `s`.
pub fn text_lines(s: &str) -> (r: Vec<String>)
    ensures
        texts(r@) == lines(s@),
{
    let v: Vec<char> = chars_of(s);
    let mut out: Vec<String> = Vec::new();
    let mut at: usize = 0;
    assert(v@.subrange(0, v.len() as int) =~= s@);
    assert(texts(out@) + lines(s@) =~= lines(s@));
    while at < v.len()
        invariant
            at <= v.len(),
            texts(out@) + lines(v@.subrange(at as int, v.len() as int)) == lines(s@),
        decreases v.len() - at,
    {
        let ghost rest = v@.subrange(at as int, v.len() as int);
        let hi: usize = run_without(&v, at, '\n');
        let ghost before = texts(out@);
        if hi == v.len() {
            let piece: String = slice_text(&v, at, hi);
            assert(rest =~= piece@);
            out.push(piece);
            assert(texts(out@) =~= before + seq![rest]);
            return out;
        }
        let end: usize = if hi > at && v[hi - 1] == '\r' { hi - 1 } else { hi };
        let piece: String = slice_text(&v, at, end);
        assert(without_cr(rest.take(hi - at)) =~= piece@);
        out.push(piece);
        assert(texts(out@) =~= before.push(piece@));
        assert(rest.subrange(hi - at + 1, rest.len() as int) =~= v@.subrange(
            hi + 1,
            v.len() as int,
        ));
        assert(texts(out@) + lines(v@.subrange(hi + 1, v.len() as int)) =~= before + lines(rest));
        at = hi + 1;
    }
    assert(v@.subrange(at as int, v.len() as int) =~= seq![]);
    assert(texts(out@) + lines(seq![]) =~= texts(out@));
    out
}

/// The words of `s`.
pub fn text_words(s: &str) -> (r: Vec<String>)
    ensures
        texts(r@) == words(s@),
{
    let v: Vec<char> = chars_of(s);
    let mut out: Vec<String> = Vec::new();
    let mut at: usize = 0;
    assert(v@.subrange(0, v.len() as int) =~= s@);
    assert(texts(out@) + words(s@) =~= words(s@));
    while at < v.len()
        invariant
            at <= v.len(),
            texts(out@) + words(v@.subrange(at as int, v.len() as int)) == words(s@),
        decreases v.len() - at,
    {
        let ghost rest = v@.subrange(at as int, v.len() as int);
        let ghost before = texts(out@);
        let mut hi: usize = at;
        while hi < v.len() && !char_is_white(v[hi])
            invariant
                at <= hi <= v.len(),
                forall|j: int| at <= j < hi ==> !is_white(#[trigger] v@[j]),
            decreases v.len() - hi,
        {
            hi += 1;
        }
        proof {
            lemma_span(rest, ink_class(), hi - at);
        }
        if hi == at {
            assert(rest.drop_first() =~= v@.subrange(at + 1, v.len() as int));
            at += 1;
        } else {
            let piece: String = slice_text(&v, at, hi);
            assert(rest.take(hi - at) =~= piece@);
            out.push(piece);
            assert(texts(out@) =~= before.push(piece@));
            assert(rest.subrange(hi - at, rest.len() as int) =~= v@.subrange(
                hi as int,
                v.len() as int,
            ));
            assert(texts(out@) + words(v@.subrange(hi as int, v.len() as int)) =~= before + words(
                rest,
            ));
            at = hi;
        }
    }
    assert(v@.subrange(at as int, v.len() as int) =~= seq![]);
    assert(texts(out@) + words(seq![]) =~= texts(out@));
    out
}

/// The strings of `parts` with `sep` between each two.
pub fn joined(parts: &Vec<String>, sep: &str) -> (r: String)
    ensures
        r@ == join(texts(parts@), sep@),
{
    let mut out: String = String::new();
    let mut i: usize = 0;
    assert(texts(parts@).take(0) =~= seq![]);
    while i < parts.len()
        invariant
            i <= parts.len(),
            out@ == join(texts(parts@).take(i as int), sep@),
        decreases parts.len() - i,
    {
        let ghost all = texts(parts@);
        assert(all.take(i + 1).drop_last() =~= all.take(i as int));
        if i > 0 {
            out.append(sep);
        }
        out.append(&parts[i]);
        if i == 0 {
            assert(out@ =~= all[0]);
        }
        i += 1;
    }
    assert(texts(parts@).take(parts.len() as int) =~= texts(parts@));
    out
}

// ---------------------------------------------------------------------------
// Laws of texts

/// Whether a text is all white space.
pub open spec fn all_white(s: Seq<char>) -> bool {
    forall|i: int| 0 <= i < s.len() ==> is_white(#[trigger] s[i])
}

proof fn lemma_trim_end(s: Seq<char>) -> (after: Seq<char>)
    ensures
        s == trim_end(s) + after,
        all_white(after),
        trim_end(s).len() > 0 ==> !is_white(trim_end(s).last()),
    decreases s.len(),
{
    if s.len() > 0 && is_white(s.last()) {
        let t = lemma_trim_end(s.drop_last());
        assert(s =~= s.drop_last().push(s.last()));
        assert(trim_end(s) == trim_end(s.drop_last()));
        assert(s =~= trim_end(s) + t.push(s.last()));
        t.push(s.last())
    } else {
        assert(s =~= s + Seq::<char>::empty());
        seq![]
    }
}

/// Trimming takes away white space at both ends and nothing else.
pub proof fn law_trim_takes_only_white_space(s: Seq<char>) -> (r: (Seq<char>, Seq<char>))
    ensures
        s == r.0 + trim(s) + r.1,
        all_white(r.0),
        all_white(r.1),
        trim(s).len() > 0 ==> !is_white(trim(s)[0]) && !is_white(trim(s).last()),
{
    let n = span(s, white_class()) as int;
    lemma_span_bounds(s, white_class());
    let before = s.take(n);
    let rest = trim_start(s);
    assert(s =~= before + rest);
    let after = lemma_trim_end(rest);
    assert(s =~= before + trim(s) + after);
    assert forall|i: int| 0 <= i < before.len() implies is_white(#[trigger] before[i]) by {
        assert(white_class()(s[i]));
    }
    if trim(s).len() > 0 {
        assert(rest[0] == s[n]);
        assert(trim(s)[0] == rest[0]);
    }
    (before, after)
}

/// What has no white space at its ends is left as it is.
pub proof fn law_trimmed_stays(s: Seq<char>)
    requires
        s.len() > 0 ==> !is_white(s[0]) && !is_white(s.last()),
    ensures
        trim(s) == s,
{
    lemma_span(s, white_class(), 0);
    assert(trim_start(s) =~= s);
}

/// A text with something before and behind it holds it.
pub proof fn law_a_part_occurs(a: Seq<char>, s: Seq<char>, b: Seq<char>)
    ensures
        occurs(a + s + b, s),
{
    let all = a + s + b;
    assert(all.subrange(a.len() as int, (a.len() + s.len()) as int) =~= s);
    assert(stands_at(all, s, a.len() as int));
}

/// What occurs in a part of a text occurs in the text.
pub proof fn law_occurs_in_more(a: Seq<char>, s: Seq<char>, b: Seq<char>, x: Seq<char>)
    requires
        occurs(s, x),
    ensures
        occurs(a + s + b, x),
{
    let i = choose|i: int| stands_at(s, x, i);
    let all = a + s + b;
    assert(all.subrange(a.len() + i, a.len() + i + x.len()) =~= s.subrange(i, i + x.len()));
    assert(stands_at(all, x, a.len() + i));
}

/// The parts of a split text hold nothing of the mark, and the text is got back by putting
/// the mark between them.
pub proof fn law_split_parts_join(s: Seq<char>, c: char)
    ensures
        split_on(s, c).len() > 0,
        forall|i: int| 0 <= i < split_on(s, c).len() ==> !(#[trigger] split_on(s, c)[i]).contains(c),
        join(split_on(s, c), seq![c]) == s,
    decreases s.len(),
{
    let n = span(s, other_than(c)) as int;
    lemma_span_bounds(s, other_than(c));
    let parts = split_on(s, c);
    assert(!s.take(n).contains(c)) by {
        if s.take(n).contains(c) {
            let i = choose|i: int| 0 <= i < s.take(n).len() && s.take(n)[i] == c;
            assert(other_than(c)(s[i]));
        }
    }
    if n < s.len() {
        let rest = s.subrange(n + 1, s.len() as int);
        law_split_parts_join(rest, c);
        let tail = split_on(rest, c);
        assert(parts =~= seq![s.take(n)] + tail);
        assert forall|i: int| 0 <= i < parts.len() implies !(#[trigger] parts[i]).contains(c) by {
            if i > 0 {
                assert(parts[i] == tail[i - 1]);
            }
        }
        lemma_join_first(s.take(n), tail, seq![c]);
        assert(!other_than(c)(s[n]));
        assert(s =~= s.take(n) + seq![c] + rest);
    } else {
        assert(s.take(n) =~= s);
        assert(parts =~= seq![s]);
    }
}

pub proof fn lemma_join_first(first: Seq<char>, rest: Seq<Seq<char>>, sep: Seq<char>)
    requires
        rest.len() > 0,
    ensures
        join(seq![first] + rest, sep) == first + sep + join(rest, sep),
    decreases rest.len(),
{
    let all = seq![first] + rest;
    if rest.len() == 1 {
        assert(all.drop_last() =~= seq![first]);
        assert(join(seq![first], sep) == first);
        assert(join(rest, sep) == rest[0]);
        assert(all.last() == rest[0]);
    } else {
        assert(all.drop_last() =~= seq![first] + rest.drop_last());
        lemma_join_first(first, rest.drop_last(), sep);
        let part = join(rest.drop_last(), sep);
        assert(all.last() == rest.last());
        assert(join(all, sep) == first + sep + part + sep + rest.last());
        assert(join(rest, sep) == part + sep + rest.last());
        assert(first + sep + part + sep + rest.last() =~= first + sep + (part + sep + rest.last()));
    }
}

/// Every word of a text is in it and has no white space; none is empty.
pub proof fn law_words_are_ink(s: Seq<char>)
    ensures
        forall|i: int|
            0 <= i < words(s).len() ==> (#[trigger] words(s)[i]).len() > 0 && occurs(
                s,
                words(s)[i],
            ) && (forall|j: int| 0 <= j < words(s)[i].len() ==> !is_white(words(s)[i][j])),
    decreases s.len(),
{
    if s.len() > 0 {
        let n = span(s, ink_class()) as int;
        lemma_span_bounds(s, ink_class());
        let rest = if n <= 0 {
            s.drop_first()
        } else {
            s.subrange(n, s.len() as int)
        };
        let cut = if n <= 0 {
            s.take(1)
        } else {
            s.take(n)
        };
        law_words_are_ink(rest);
        let none = Seq::<char>::empty();
        assert(s =~= cut + rest + none);
        assert forall|i: int| 0 <= i < words(s).len() implies (#[trigger] words(s)[i]).len() > 0
            && occurs(s, words(s)[i]) && (forall|j: int|
            0 <= j < words(s)[i].len() ==> !is_white(words(s)[i][j])) by {
            if n > 0 && i == 0 {
                assert(words(s)[0] == s.take(n));
                assert(s =~= none + s.take(n) + rest);
                law_a_part_occurs(none, s.take(n), rest);
                assert forall|j: int| 0 <= j < n implies !is_white(s.take(n)[j]) by {
                    assert(ink_class()(s[j]));
                }
            } else {
                let k = if n > 0 {
                    i - 1
                } else {
                    i
                };
                assert(words(s)[i] == words(rest)[k]);
                law_occurs_in_more(cut, rest, none, words(rest)[k]);
            }
        }
    }
}

/// White space among the plain characters is the blank, the tab and the ends of lines;
/// letters, digits and marks are none.
pub proof fn law_plain_white_space(c: char)
    requires
        c < '\u{80}',
    ensures
        is_white(c) <==> c == ' ' || c == '\t' || c == '\n' || c == '\r' || c == '\u{b}' || c
            == '\u{c}',
        is_ctrl(c) <==> c < ' ' || c == '\u{7f}',
        is_digit(c) <==> seq!['0', '1', '2', '3', '4', '5', '6', '7', '8', '9'].contains(c),
{
    let all = seq!['0', '1', '2', '3', '4', '5', '6', '7', '8', '9'];
    if is_digit(c) {
        assert(all[c as int - '0' as int] == c);
    }
}

/// A text that is written on holds what it held, starts as it started, and holds what was
/// added.
pub proof fn law_writing_on_loses_nothing(s: Seq<char>, more: Seq<char>)
    ensures
        occurs(s + more, more),
        forall|x: Seq<char>| occurs(s, x) ==> #[trigger] occurs(s + more, x),
        forall|x: Seq<char>| has_prefix(s, x) ==> #[trigger] has_prefix(s + more, x),
        has_prefix(s + more, s),
{
    let none = Seq::<char>::empty();
    assert(s + more + none =~= s + more);
    assert(none + s + more =~= s + more);
    law_a_part_occurs(s, more, none);
    assert forall|x: Seq<char>| occurs(s, x) implies #[trigger] occurs(s + more, x) by {
        law_occurs_in_more(none, s, more, x);
    }
    assert forall|x: Seq<char>| has_prefix(s, x) implies #[trigger] has_prefix(s + more, x) by {
        assert((s + more).subrange(0, x.len() as int) =~= s.subrange(0, x.len() as int));
    }
    assert((s + more).subrange(0, s.len() as int) =~= s);
}

/// A text without white space is one word.
pub proof fn law_one_word(s: Seq<char>)
    requires
        s.len() > 0,
        forall|i: int| 0 <= i < s.len() ==> !is_white(#[trigger] s[i]),
    ensures
        words(s) == seq![s],
        join(words(s), " "@) == s,
{
    let p = ink_class();
    assert forall|i: int| 0 <= i < s.len() implies p(#[trigger] s[i]) by {
        assert(!is_white(s[i]));
    }
    lemma_span(s, p, s.len() as int);
    assert(s.take(s.len() as int) =~= s);
    assert(s.subrange(s.len() as int, s.len() as int) =~= Seq::<char>::empty());
    assert(words(Seq::<char>::empty()) =~= Seq::<Seq<char>>::empty());
    assert(words(s) =~= seq![s]);
}

/// Blanks around a word are no part of it.
pub proof fn law_one_word_between_blanks(s: Seq<char>)
    requires
        s.len() > 0,
        forall|i: int| 0 <= i < s.len() ==> !is_white(#[trigger] s[i]),
    ensures
        words(seq![' '] + s + seq![' ']) == seq![s],
        join(words(seq![' '] + s + seq![' ']), " "@) == s,
{
    let p = ink_class();
    let all = seq![' '] + s + seq![' '];
    let rest = s.push(' ');
    assert(!p(all[0]));
    lemma_span(all, p, 0);
    assert(all.drop_first() =~= rest);
    assert forall|i: int| 0 <= i < s.len() implies p(#[trigger] rest[i]) by {
        assert(!is_white(s[i]));
    }
    assert(!p(rest[s.len() as int]));
    lemma_span(rest, p, s.len() as int);
    assert(rest.take(s.len() as int) =~= s);
    let end = seq![' '];
    assert(rest.subrange(s.len() as int, rest.len() as int) =~= end);
    assert(!p(end[0]));
    lemma_span(end, p, 0);
    assert(end.drop_first() =~= Seq::<char>::empty());
    assert(words(Seq::<char>::empty()) =~= Seq::<Seq<char>>::empty());
    assert(words(end) =~= Seq::<Seq<char>>::empty());
    assert(words(rest) =~= seq![s]);
    assert(words(all) =~= seq![s]);
}

/// A text is cut only where it is too long, and then at its end.
pub proof fn law_cutting_keeps_the_start(s: Seq<char>, n: nat)
    ensures
        s.len() <= n ==> take_at_most(s, n) == s,
        s.len() > n ==> take_at_most(s, n).len() == n,
        take_at_most(s, n).is_prefix_of(s),
{
}

/// White space parts words: what stands before it and what stands after it are told apart,
/// and nothing of either is lost.
pub proof fn law_white_space_parts_words(a: Seq<char>, c: char, b: Seq<char>)
    requires
        is_white(c),
    ensures
        words(a + seq![c] + b) == words(a) + words(b),
    decreases a.len(),
{
    let s = a + seq![c] + b;
    let n = span(s, ink_class()) as int;
    let m = span(a, ink_class()) as int;
    lemma_span_stops(a, c, b);
    if a.len() == 0 {
        assert(s.drop_first() =~= b);
        assert(s[0] == c);
        assert(words(a) =~= seq![]);
        assert(words(s) == words(b));
        assert(seq![] + words(b) =~= words(b));
    } else if m <= 0 || m > a.len() {
        assert(s[0] == a[0]);
        law_white_space_parts_words(a.drop_first(), c, b);
        assert(s.drop_first() =~= a.drop_first() + seq![c] + b);
        assert(words(s) == words(s.drop_first()));
        assert(words(a) == words(a.drop_first()));
    } else {
        assert(s.take(n) =~= a.take(m));
        assert(words(s) == seq![s.take(n)] + words(s.subrange(n, s.len() as int)));
        assert(words(a) == seq![a.take(m)] + words(a.subrange(m, a.len() as int)));
        law_white_space_parts_words(a.subrange(m, a.len() as int), c, b);
        assert(s.subrange(n, s.len() as int) =~= a.subrange(m, a.len() as int) + seq![c] + b);
        assert(seq![a.take(m)] + (words(a.subrange(m, a.len() as int)) + words(b)) =~= seq![
            a.take(m),
        ] + words(a.subrange(m, a.len() as int)) + words(b));
    }
}

proof fn lemma_span_stops(a: Seq<char>, c: char, b: Seq<char>)
    requires
        is_white(c),
    ensures
        span(a + seq![c] + b, ink_class()) == span(a, ink_class()),
        span(a, ink_class()) <= a.len(),
    decreases a.len(),
{
    let s = a + seq![c] + b;
    if a.len() == 0 {
        assert(s[0] == c);
    } else {
        assert(s[0] == a[0]);
        lemma_span_stops(a.drop_first(), c, b);
        assert(s.drop_first() =~= a.drop_first() + seq![c] + b);
    }
}

/// Every part of what is joined is in it.
pub proof fn law_joined_parts_occur(parts: Seq<Seq<char>>, sep: Seq<char>, i: int)
    requires
        0 <= i < parts.len(),
    ensures
        occurs(join(parts, sep), parts[i]),
    decreases parts.len(),
{
    let none = Seq::<char>::empty();
    if parts.len() == 1 {
        law_a_part_occurs(none, parts[0], none);
        assert(none + parts[0] + none =~= parts[0]);
    } else {
        let short = parts.drop_last();
        law_writing_on_loses_nothing(join(short, sep), sep);
        law_writing_on_loses_nothing(join(short, sep) + sep, parts.last());
        if i < short.len() {
            law_joined_parts_occur(short, sep, i);
            assert(short[i] == parts[i]);
        }
    }
}

} // verus!
