//! Tables: rows of cells, as wide as the terminal lets them be. Widths count columns
//! of the terminal, not characters.

use crate::json::{json_items, json_text, read_items, text_under};
use crate::render::math::{
    bounded, char_display_width, char_width, formula_lines, repeat_char, repeated,
    unicode_math_lines,
};
use crate::text::{
    chars_of, has_prefix, is_blank, is_empty_text, is_white, join, joined, law_a_part_occurs,
    law_occurs_in_more, law_plain_white_space, law_trimmed_stays, law_writing_on_loses_nothing, occurs, opt_text, pieces, same, slice_text,
    split_on, texts, trim, trimmed, views,
};
use vstd::prelude::*;
use vstd::string::*;

verus! {

// ---------------------------------------------------------------------------
// What is seen of a text

/// How long the escape at the start of a text is: up to its `m`.
pub open spec fn escape_len(s: Seq<char>) -> nat
    decreases s.len(),
{
    if s.len() == 0 {
        0
    } else if s[0] == 'm' {
        1
    } else {
        1 + escape_len(s.skip(1))
    }
}

proof fn lemma_escape_len(s: Seq<char>)
    ensures
        escape_len(s) <= s.len(),
        s.len() > 0 ==> escape_len(s) > 0,
    decreases s.len(),
{
    if s.len() > 0 && s[0] != 'm' {
        lemma_escape_len(s.skip(1));
    }
}

/// How many columns of a text are seen: its escapes take none.
pub open spec fn seen(s: Seq<char>) -> nat
    decreases s.len(),
{
    if s.len() == 0 {
        0
    } else if s[0] == '\x1b' {
        let n = escape_len(s);
        if 0 < n <= s.len() {
            seen(s.skip(n as int))
        } else {
            0
        }
    } else {
        char_width(s[0]) + seen(s.skip(1))
    }
}

fn escape_end(v: &Vec<char>, from: usize) -> (r: usize)
    requires
        from < v.len(),
    ensures
        from < r <= v.len(),
        r - from == escape_len(v@.skip(from as int)),
{
    let mut i: usize = from;
    while i < v.len() && v[i] != 'm'
        invariant
            from <= i <= v.len(),
            from < v.len(),
            escape_len(v@.skip(from as int)) == i - from + escape_len(v@.skip(i as int)),
        decreases v.len() - i,
    {
        assert(v@.skip(i as int).skip(1) =~= v@.skip(i + 1));
        i += 1;
    }
    if i < v.len() {
        i + 1
    } else {
        i
    }
}

/// How many columns of a text are seen: its escapes take none.
pub fn visible_width(text: &str) -> (r: usize)
    ensures
        r == bounded(seen(text@) as int),
{
    let v: Vec<char> = chars_of(text);
    let mut n: usize = 0;
    let mut at: usize = 0;
    assert(v@.skip(0) =~= text@);
    let ghost mut sum: nat = 0;
    while at < v.len()
        invariant
            at <= v.len(),
            n == bounded(sum as int),
            sum + seen(v@.skip(at as int)) == seen(text@),
        decreases v.len() - at,
    {
        if v[at] == '\x1b' {
            let end: usize = escape_end(&v, at);
            assert(v@.skip(at as int).skip(end - at) =~= v@.skip(end as int));
            at = end;
        } else {
            assert(v@.skip(at as int).skip(1) =~= v@.skip(at + 1));
            n = n.saturating_add(char_display_width(v[at]));
            proof {
                sum = sum + char_width(v@[at as int]);
            }
            at += 1;
        }
    }
    n
}

/// A text cut into lines of a width: `current` is the line so far, `taken` its
/// columns.
pub open spec fn wrap_from(s: Seq<char>, width: nat, current: Seq<char>, taken: nat) -> Seq<Seq<char>>
    decreases s.len(),
{
    if s.len() == 0 {
        seq![current]
    } else if s[0] == '\x1b' {
        let n = escape_len(s) as int;
        if 0 < n <= s.len() {
            wrap_from(s.skip(n), width, current + s.take(n), taken)
        } else {
            seq![current]
        }
    } else if taken > 0 && taken + char_width(s[0]) > width {
        seq![current] + wrap_from(s.skip(1), width, seq![s[0]], char_width(s[0]))
    } else {
        wrap_from(s.skip(1), width, current.push(s[0]), taken + char_width(s[0]))
    }
}

/// A text cut into lines of a width of at least one column.
pub open spec fn wrapped(s: Seq<char>, width: nat) -> Seq<Seq<char>> {
    wrap_from(
        s,
        if width < 1 {
            1
        } else {
            width
        },
        seq![],
        0,
    )
}

/// A text cut into lines of a width; escapes take no columns and are never cut.
pub fn wrap_ansi_text(text: &str, width: usize) -> (r: Vec<String>)
    ensures
        texts(r@) == wrapped(text@, width as nat),
        r.len() > 0,
{
    let width: usize = if width < 1 { 1 } else { width };
    let v: Vec<char> = chars_of(text);
    let mut lines: Vec<String> = Vec::new();
    let mut start: usize = 0;
    let mut at: usize = 0;
    let mut taken: usize = 0;
    let ghost whole = wrap_from(text@, width as nat, seq![], 0);
    proof {
        assert(v@.skip(0) =~= text@);
        assert(v@.subrange(0, 0) =~= seq![]);
        assert(texts(lines@) + whole =~= whole);
    }
    while at < v.len()
        invariant
            width >= 1,
            start <= at <= v.len(),
            taken <= width || taken <= 2,
            texts(lines@) + wrap_from(
                v@.skip(at as int),
                width as nat,
                v@.subrange(start as int, at as int),
                taken as nat,
            ) == whole,
        decreases v.len() - at,
    {
        let ghost rest = v@.skip(at as int);
        let ghost current = v@.subrange(start as int, at as int);
        if v[at] == '\x1b' {
            let end: usize = escape_end(&v, at);
            assert(rest.skip(end - at) =~= v@.skip(end as int));
            assert(current + rest.take(end - at) =~= v@.subrange(start as int, end as int));
            at = end;
        } else {
            let w: usize = char_display_width(v[at]);
            assert(rest.skip(1) =~= v@.skip(at + 1));
            if taken > 0 && (taken > width || w > width - taken) {
                let line: String = slice_text(&v, start, at);
                let ghost before = texts(lines@);
                lines.push(line);
                proof {
                    assert(texts(lines@) =~= before.push(current));
                    assert(v@.subrange(at as int, at + 1) =~= seq![rest[0]]);
                    let tail = wrap_from(rest.skip(1), width as nat, seq![rest[0]], w as nat);
                    assert(before + (seq![current] + tail) =~= texts(lines@) + tail);
                }
                start = at;
                taken = w;
            } else {
                assert(current.push(rest[0]) =~= v@.subrange(start as int, at + 1));
                taken = taken + w;
            }
            at += 1;
        }
    }
    let line: String = slice_text(&v, start, at);
    let ghost before = texts(lines@);
    lines.push(line);
    assert(texts(lines@) =~= before + seq![line@]);
    lines
}

/// The parts put together.
pub open spec fn flat(parts: Seq<Seq<char>>) -> Seq<char>
    decreases parts.len(),
{
    if parts.len() == 0 {
        seq![]
    } else {
        parts[0] + flat(parts.skip(1))
    }
}

proof fn lemma_wrap_is_lossless(s: Seq<char>, width: nat, current: Seq<char>, taken: nat)
    ensures
        flat(wrap_from(s, width, current, taken)) == current + s,
    decreases s.len(),
{
    let r = wrap_from(s, width, current, taken);
    if s.len() == 0 {
        let none = Seq::<Seq<char>>::empty();
        assert(r.skip(1) =~= none);
        assert(flat(none) =~= seq![]);
        assert(flat(r) =~= current + s);
    } else if s[0] == '\x1b' {
        lemma_escape_len(s);
        let n = escape_len(s) as int;
        lemma_wrap_is_lossless(s.skip(n), width, current + s.take(n), taken);
        assert(current + s.take(n) + s.skip(n) =~= current + s);
    } else if taken > 0 && taken + char_width(s[0]) > width {
        let tail = wrap_from(s.skip(1), width, seq![s[0]], char_width(s[0]));
        lemma_wrap_is_lossless(s.skip(1), width, seq![s[0]], char_width(s[0]));
        assert(r.skip(1) =~= tail);
        assert(current + (seq![s[0]] + s.skip(1)) =~= current + s);
    } else {
        lemma_wrap_is_lossless(
            s.skip(1),
            width,
            current.push(s[0]),
            taken + char_width(s[0]),
        );
        assert(current.push(s[0]) + s.skip(1) =~= current + s);
    }
}

/// The lines of a wrapped text, put together, are the text.
pub proof fn law_wrap_is_lossless(s: Seq<char>, width: nat)
    ensures
        flat(wrapped(s, width)) == s,
{
    let w = if width < 1 {
        1
    } else {
        width
    };
    lemma_wrap_is_lossless(s, w, seq![], 0);
    assert(Seq::<char>::empty() + s =~= s);
}

/// Whether what follows a text is seen as by itself.
spec fn is_closed(cur: Seq<char>, n: nat) -> bool {
    forall|t: Seq<char>| #[trigger] seen(cur + t) == n + seen(t)
}

proof fn lemma_escape_then(s: Seq<char>, t: Seq<char>)
    requires
        escape_len(s) < s.len() || (s.len() > 0 && s.last() == 'm'),
    ensures
        escape_len(s + t) == escape_len(s),
    decreases s.len(),
{
    if s.len() > 0 && s[0] != 'm' {
        assert((s + t).skip(1) =~= s.skip(1) + t);
        lemma_escape_then(s.skip(1), t);
    }
}

proof fn lemma_escape_prefix(s: Seq<char>)
    requires
        0 < escape_len(s) <= s.len(),
        escape_len(s) < s.len(),
    ensures
        s[escape_len(s) - 1] == 'm',
        escape_len(s.take(escape_len(s) as int)) == escape_len(s),
    decreases s.len(),
{
    let n = escape_len(s) as int;
    if s[0] == 'm' {
        assert(s.take(1)[0] == 'm');
    } else {
        lemma_escape_len(s.skip(1));
        lemma_escape_prefix(s.skip(1));
        assert(s.take(n).skip(1) =~= s.skip(1).take(n - 1));
    }
}

proof fn lemma_closed_char(cur: Seq<char>, n: nat, c: char)
    requires
        is_closed(cur, n),
        c != '\x1b',
    ensures
        is_closed(cur.push(c), n + char_width(c)),
{
    assert forall|t: Seq<char>| #[trigger] seen(cur.push(c) + t) == n + char_width(c) + seen(t) by {
        assert(cur.push(c) + t =~= cur + (seq![c] + t));
        assert(seen(cur + (seq![c] + t)) == n + seen(seq![c] + t));
        assert((seq![c] + t).skip(1) =~= t);
    }
}

proof fn lemma_closed_escape(cur: Seq<char>, n: nat, s: Seq<char>)
    requires
        is_closed(cur, n),
        s.len() > 0,
        s[0] == '\x1b',
        escape_len(s) < s.len(),
    ensures
        is_closed(cur + s.take(escape_len(s) as int), n),
{
    lemma_escape_len(s);
    lemma_escape_prefix(s);
    let e = s.take(escape_len(s) as int);
    assert forall|t: Seq<char>| #[trigger] seen(cur + e + t) == n + seen(t) by {
        assert(cur + e + t =~= cur + (e + t));
        assert(seen(cur + (e + t)) == n + seen(e + t));
        lemma_escape_then(e, t);
        assert((e + t).skip(e.len() as int) =~= t);
    }
}

/// Whether lines are within a width, or no wider than a wide character.
spec fn all_fit(lines: Seq<Seq<char>>, width: nat) -> bool {
    forall|i: int|
        0 <= i < lines.len() ==> seen(#[trigger] lines[i]) <= width || seen(lines[i]) <= 2
}

proof fn lemma_wrap_fits(s: Seq<char>, width: nat, current: Seq<char>, taken: nat)
    requires
        width >= 1,
        is_closed(current, taken),
        taken <= width || taken <= 2,
    ensures
        all_fit(wrap_from(s, width, current, taken), width),
    decreases s.len(),
{
    let none = Seq::<char>::empty();
    assert(current + none =~= current);
    assert(seen(current + none) == taken);
    if s.len() == 0 {
        assert(wrap_from(s, width, current, taken) == seq![current]);
        assert(all_fit(seq![current], width));
    } else {
        if s[0] == '\x1b' {
            lemma_escape_len(s);
            let n = escape_len(s) as int;
            if n < s.len() {
                lemma_closed_escape(current, taken, s);
                lemma_wrap_fits(s.skip(n), width, current + s.take(n), taken);
            } else {
                assert(s.take(n) =~= s);
                assert(s.skip(n) =~= none);
                assert(seen(current + s) == taken + seen(s));
                assert(seen(s) == 0);
                assert(wrap_from(none, width, current + s, taken) == seq![current + s]);
                assert(wrap_from(s, width, current, taken) == seq![current + s]);
                assert(all_fit(seq![current + s], width));
            }
        } else if taken > 0 && taken + char_width(s[0]) > width {
            let c = s[0];
            assert(is_closed(none, 0)) by {
                assert forall|t: Seq<char>| #[trigger] seen(none + t) == 0 + seen(t) by {
                    assert(none + t =~= t);
                }
            }
            lemma_closed_char(none, 0, c);
            assert(none.push(c) =~= seq![c]);
            lemma_wrap_fits(s.skip(1), width, seq![c], char_width(c));
            let tail = wrap_from(s.skip(1), width, seq![c], char_width(c));
            let all = wrap_from(s, width, current, taken);
            assert forall|i: int| 0 <= i < all.len() implies seen(#[trigger] all[i]) <= width || seen(
                all[i],
            ) <= 2 by {
                if i > 0 {
                    assert(all[i] == tail[i - 1]);
                }
            }
        } else {
            lemma_closed_char(current, taken, s[0]);
            lemma_wrap_fits(s.skip(1), width, current.push(s[0]), taken + char_width(s[0]));
        }
    }
}

/// No line of a wrapped text is wider than was asked, but for a wide character that
/// has a line to itself.
pub proof fn law_wrapped_lines_fit(s: Seq<char>, width: nat)
    ensures
        forall|i: int|
            0 <= i < wrapped(s, width).len() ==> seen(#[trigger] wrapped(s, width)[i]) <= (if width
                < 2 {
                2
            } else {
                width
            }),
{
    let w = if width < 1 {
        1
    } else {
        width
    };
    let none = Seq::<char>::empty();
    assert(is_closed(none, 0)) by {
        assert forall|t: Seq<char>| #[trigger] seen(none + t) == 0 + seen(t) by {
            assert(none + t =~= t);
        }
    }
    lemma_wrap_fits(s, w, none, 0);
}

// ---------------------------------------------------------------------------
// Lines of a table as they are written

/// A text without bars at either end.
pub open spec fn without_bars(s: Seq<char>) -> Seq<char>
    decreases s.len(),
{
    if s.len() > 0 && s[0] == '|' {
        without_bars(s.skip(1))
    } else if s.len() > 0 && s.last() == '|' {
        without_bars(s.drop_last())
    } else {
        s
    }
}

fn strip_bars(s: &str) -> (r: String)
    ensures
        r@ == without_bars(s@),
{
    let v: Vec<char> = chars_of(s);
    let mut lo: usize = 0;
    let mut hi: usize = v.len();
    assert(v@.subrange(0, v.len() as int) =~= s@);
    while lo < hi && v[lo] == '|'
        invariant
            lo <= hi <= v.len(),
            without_bars(v@.subrange(lo as int, hi as int)) == without_bars(s@),
        decreases hi - lo,
    {
        assert(v@.subrange(lo as int, hi as int).skip(1) =~= v@.subrange(lo + 1, hi as int));
        lo += 1;
    }
    while lo < hi && v[hi - 1] == '|'
        invariant
            lo <= hi <= v.len(),
            lo < hi ==> v@[lo as int] != '|',
            without_bars(v@.subrange(lo as int, hi as int)) == without_bars(s@),
        decreases hi - lo,
    {
        assert(v@.subrange(lo as int, hi as int).drop_last() =~= v@.subrange(lo as int, hi - 1));
        hi -= 1;
    }
    slice_text(&v, lo, hi)
}

/// The cells of a line as they are written.
pub open spec fn cells_of(line: Seq<char>) -> Seq<Seq<char>> {
    split_on(without_bars(trim(line)), '|').map_values(|c: Seq<char>| trim(c))
}

/// The cells of a line as they are written: between bars, without white space around.
pub fn row_cells(line: &str) -> (r: Vec<String>)
    ensures
        texts(r@) == cells_of(line@),
        r.len() > 0,
{
    let t: String = trimmed(line);
    let inner: String = strip_bars(&t);
    let parts: Vec<String> = pieces(&inner, '|');
    let ghost all = split_on(inner@, '|');
    let mut out: Vec<String> = Vec::new();
    let mut i: usize = 0;
    while i < parts.len()
        invariant
            i <= parts.len(),
            texts(parts@) == all,
            texts(out@) =~= all.take(i as int).map_values(|c: Seq<char>| trim(c)),
        decreases parts.len() - i,
    {
        let c: String = trimmed(&parts[i]);
        assert(all[i as int] == parts@[i as int]@);
        let ghost before = texts(out@);
        out.push(c);
        assert(texts(out@) =~= before.push(c@));
        i += 1;
    }
    assert(all.take(parts.len() as int) =~= all);
    assert(out.len() == texts(out@).len());
    assert(parts.len() == texts(parts@).len());
    out
}

/// A character of a separator line.
pub open spec fn is_rule_char(c: char) -> bool {
    c == '-' || c == ':' || c == '|' || c == ' '
}

/// Whether a line parts the head of a table from its body.
pub open spec fn is_separator_line(line: Seq<char>) -> bool {
    let t = trim(without_bars(trim(line)));
    &&& forall|i: int| 0 <= i < t.len() ==> is_rule_char(#[trigger] t[i])
    &&& t.contains('-')
}

/// Whether a line parts the head of a table from its body: dashes, colons, bars and
/// spaces, and at least one dash.
pub fn is_table_separator(line: &str) -> (r: bool)
    ensures
        r == is_separator_line(line@),
{
    let a: String = trimmed(line);
    let b: String = strip_bars(&a);
    let t: String = trimmed(&b);
    let v: Vec<char> = chars_of(&t);
    let mut dash: bool = false;
    let mut i: usize = 0;
    while i < v.len()
        invariant
            i <= v.len(),
            v@ == trim(without_bars(trim(line@))),
            forall|j: int| 0 <= j < i ==> is_rule_char(#[trigger] v@[j]),
            dash == exists|j: int| 0 <= j < i && #[trigger] v@[j] == '-',
        decreases v.len() - i,
    {
        let c: char = v[i];
        if !(c == '-' || c == ':' || c == '|' || c == ' ') {
            assert(!is_rule_char(v@[i as int]));
            return false;
        }
        if c == '-' {
            assert(v@[i as int] == '-');
            dash = true;
        }
        i += 1;
    }
    dash
}

/// Whether a line looks like a row of a table.
pub open spec fn is_row_line(line: Seq<char>) -> bool {
    let t = trim(line);
    t.len() >= 2 && t[0] == '|' && t.last() == '|'
}

/// Whether a line looks like a row of a table: it starts with a bar and ends with
/// another.
pub fn looks_like_table_row(line: &str) -> (r: bool)
    ensures
        r == is_row_line(line@),
{
    let t: String = trimmed(line);
    let v: Vec<char> = chars_of(&t);
    v.len() >= 2 && v[0] == '|' && v[v.len() - 1] == '|'
}

/// On which side of a column its cells stand.
#[derive(Clone, Copy, Debug, PartialEq, Eq, Structural)]
pub enum TableAlign {
    Left,
    Center,
    Right,
}

/// The side that a cell of a separator line asks for.
pub open spec fn align_of(cell: Seq<char>) -> TableAlign {
    let starts = cell.len() > 0 && cell[0] == ':';
    let ends = cell.len() > 0 && cell.last() == ':';
    if starts && ends {
        TableAlign::Center
    } else if ends {
        TableAlign::Right
    } else {
        TableAlign::Left
    }
}

/// The sides that a separator line asks for.
pub open spec fn aligns_of(line: Seq<char>) -> Seq<TableAlign> {
    cells_of(line).map_values(|c: Seq<char>| align_of(c))
}

/// The sides that a separator line asks for.
pub fn parse_table_alignments(line: &str) -> (r: Vec<TableAlign>)
    ensures
        r@ == aligns_of(line@),
{
    let cells: Vec<String> = row_cells(line);
    let ghost all = cells_of(line@);
    let mut out: Vec<TableAlign> = Vec::new();
    let mut i: usize = 0;
    while i < cells.len()
        invariant
            i <= cells.len(),
            texts(cells@) == all,
            out@ =~= all.take(i as int).map_values(|c: Seq<char>| align_of(c)),
        decreases cells.len() - i,
    {
        let v: Vec<char> = chars_of(&cells[i]);
        assert(all[i as int] == cells@[i as int]@);
        let starts: bool = v.len() > 0 && v[0] == ':';
        let ends: bool = v.len() > 0 && v[v.len() - 1] == ':';
        let a: TableAlign = if starts && ends {
            TableAlign::Center
        } else if ends {
            TableAlign::Right
        } else {
            TableAlign::Left
        };
        out.push(a);
        i += 1;
    }
    assert(all.take(cells.len() as int) =~= all);
    out
}

/// The formula that takes a whole cell.
pub open spec fn formula_of(cell: Seq<char>) -> Option<Seq<char>> {
    let n = cell.len() as int;
    let inner = cell.subrange(1, n - 1);
    if n >= 3 && cell[0] == '$' && cell.last() == '$' && !inner.contains('$') {
        Some(inner)
    } else if n >= 4 && cell[0] == '\\' && cell[1] == '(' && cell[n - 2] == '\\' && cell[n - 1] == ')' {
        Some(cell.subrange(2, n - 2))
    } else {
        None
    }
}

/// The formula that takes a whole cell: between dollars, or between `\\(` and `\\)`.
pub fn cell_formula(cell: &str) -> (r: Option<String>)
    ensures
        opt_text(r) == formula_of(cell@),
{
    let v: Vec<char> = chars_of(cell);
    let n: usize = v.len();
    if n >= 3 && v[0] == '$' && v[n - 1] == '$' {
        let ghost inner = cell@.subrange(1, n - 1);
        let mut clean: bool = true;
        let mut i: usize = 1;
        while i < n - 1
            invariant
                1 <= i <= n - 1,
                n == v.len(),
                n >= 3,
                v@ == cell@,
                inner == cell@.subrange(1, n - 1),
                clean == !(exists|j: int| 0 <= j < i - 1 && #[trigger] inner[j] == '$'),
            decreases n - i,
        {
            assert(inner[i - 1] == v@[i as int]);
            if v[i] == '$' {
                clean = false;
            }
            i += 1;
        }
        if clean {
            return Some(slice_text(&v, 1, n - 1));
        }
    }
    if n >= 4 && v[0] == '\\' && v[1] == '(' && v[n - 2] == '\\' && v[n - 1] == ')' {
        return Some(slice_text(&v, 2, n - 2));
    }
    None
}

/// Lines, each in a style.
pub open spec fn in_style(lines: Seq<Seq<char>>, style: Seq<char>) -> Seq<Seq<char>> {
    lines.map_values(|l: Seq<char>| style + l + "\x1b[0m"@)
}

/// A cell as it is shown: a formula on several lines, or `inline`, which is what the
/// text of the cell is shown as.
pub open spec fn shown_cell(cell: Seq<char>, inline: Seq<char>, style: Seq<char>) -> Seq<char> {
    match formula_of(cell) {
        Some(tex) => if trim(tex).len() > 0 {
            join(in_style(formula_lines(tex), style), "\n"@)
        } else {
            inline
        },
        None => inline,
    }
}

/// A cell as it is shown: where a formula takes the whole cell, that formula on
/// several lines, in a style; otherwise `inline`, which is what the text of the cell
/// is shown as.
pub fn render_table_cell(cell: &str, inline: &str, style: &str) -> (r: String)
    ensures
        r@ == shown_cell(cell@, inline@, style@),
{
    match cell_formula(cell) {
        None => inline.to_owned(),
        Some(tex) => {
            if is_blank(&tex) {
                return inline.to_owned();
            }
            let lines: Vec<String> = unicode_math_lines(&tex);
            let ghost all = formula_lines(tex@);
            let mut styled: Vec<String> = Vec::new();
            let mut i: usize = 0;
            while i < lines.len()
                invariant
                    i <= lines.len(),
                    texts(lines@) == all,
                    texts(styled@) =~= in_style(all.take(i as int), style@),
                decreases lines.len() - i,
            {
                assert(all[i as int] == lines@[i as int]@);
                let mut one: String = style.to_owned();
                one.append(&lines[i]);
                one.append("\x1b[0m");
                let ghost before = texts(styled@);
                styled.push(one);
                assert(texts(styled@) =~= before.push(one@));
                i += 1;
            }
            assert(all.take(lines.len() as int) =~= all);
            joined(&styled, "\n")
        }
    }
}

/// The cells of a line as they are shown.
pub open spec fn shown_row(line: Seq<char>, inline: Seq<Seq<char>>, style: Seq<char>) -> Seq<
    Seq<char>,
> {
    Seq::new(cells_of(line).len(), |i: int| shown_cell(cells_of(line)[i], inline[i], style))
}

/// The cells of a line as they are shown. `inline` holds what the text of each cell is
/// shown as, `style` is that of formulas.
pub fn parse_table_row(line: &str, inline: &Vec<String>, style: &str) -> (r: Vec<String>)
    requires
        inline.len() == cells_of(line@).len(),
    ensures
        texts(r@) == shown_row(line@, texts(inline@), style@),
{
    let cells: Vec<String> = row_cells(line);
    let ghost all = shown_row(line@, texts(inline@), style@);
    let mut out: Vec<String> = Vec::new();
    let mut i: usize = 0;
    assert(cells.len() == texts(cells@).len());
    while i < cells.len()
        invariant
            i <= cells.len(),
            cells.len() == inline.len(),
            texts(cells@) == cells_of(line@),
            all == shown_row(line@, texts(inline@), style@),
            texts(out@) =~= all.take(i as int),
        decreases cells.len() - i,
    {
        assert(texts(cells@)[i as int] == cells@[i as int]@);
        assert(texts(inline@)[i as int] == inline@[i as int]@);
        let c: String = render_table_cell(&cells[i], &inline[i], style);
        assert(all[i as int] == c@);
        let ghost before = texts(out@);
        out.push(c);
        assert(texts(out@) =~= before.push(c@));
        i += 1;
    }
    assert(all.take(cells.len() as int) =~= all);
    out
}

// ---------------------------------------------------------------------------
// Widths of columns

/// The width that a column has at least, so that it can be read.
pub open spec fn readable_min(cols: nat) -> nat {
    if cols == 0 {
        0
    } else if cols == 1 {
        16
    } else if cols == 2 {
        14
    } else if cols <= 4 {
        10
    } else {
        8
    }
}

/// The width that a column has at least, so that it can be read.
pub fn readable_table_min_width(cols: usize) -> (r: usize)
    ensures
        r == readable_min(cols as nat),
{
    match cols {
        0 => 0,
        1 => 16,
        2 => 14,
        3 | 4 => 10,
        _ => 8,
    }
}

/// The sum of widths.
pub open spec fn sum_of(w: Seq<usize>) -> nat
    decreases w.len(),
{
    if w.len() == 0 {
        0
    } else {
        sum_of(w.drop_last()) + w.last() as nat
    }
}

/// The place of the last of the greatest widths.
pub open spec fn widest(w: Seq<usize>) -> int
    decreases w.len(),
{
    if w.len() <= 1 {
        0
    } else {
        let p = widest(w.drop_last());
        if w[p] <= w.last() {
            w.len() - 1
        } else {
            p
        }
    }
}

proof fn lemma_widest(w: Seq<usize>)
    requires
        w.len() > 0,
    ensures
        0 <= widest(w) < w.len(),
        forall|i: int| 0 <= i < w.len() ==> #[trigger] w[i] <= w[widest(w)],
    decreases w.len(),
{
    if w.len() > 1 {
        let front = w.drop_last();
        lemma_widest(front);
        assert forall|i: int| 0 <= i < w.len() implies #[trigger] w[i] <= w[widest(w)] by {
            if i < w.len() - 1 {
                assert(front[i] <= front[widest(front)]);
            }
        }
    }
}

proof fn lemma_sum_update(w: Seq<usize>, i: int, x: usize)
    requires
        0 <= i < w.len(),
    ensures
        sum_of(w.update(i, x)) == sum_of(w) - w[i] + x,
    decreases w.len(),
{
    if i == w.len() - 1 {
        assert(w.update(i, x).drop_last() =~= w.drop_last());
    } else {
        assert(w.update(i, x).drop_last() =~= w.drop_last().update(i, x));
        lemma_sum_update(w.drop_last(), i, x);
    }
}

/// Widths with a column taken from the widest, again and again, until they fit.
pub open spec fn narrowed(w: Seq<usize>, available: nat) -> Seq<usize>
    decreases sum_of(w),
    via narrowed_decreases
{
    if sum_of(w) <= available || w.len() == 0 || w[widest(w)] <= 1 {
        w
    } else {
        let i = widest(w);
        narrowed(w.update(i, (w[i] - 1) as usize), available)
    }
}

#[via_fn]
proof fn narrowed_decreases(w: Seq<usize>, available: nat) {
    if !(sum_of(w) <= available || w.len() == 0 || w[widest(w)] <= 1) {
        lemma_widest(w);
        let i = widest(w);
        lemma_sum_update(w, i, (w[i] - 1) as usize);
    }
}

/// The columns that the cells of a table can take together.
pub open spec fn room_for(cols: nat, content_cols: nat) -> nat {
    let terminal = if content_cols < 21 {
        20
    } else {
        (content_cols - 1) as nat
    };
    let left = terminal - (cols * 3 + 1);
    if left < cols {
        cols
    } else {
        left as nat
    }
}

/// Widths that fit into a terminal with `content_cols` columns.
pub open spec fn fitted(w: Seq<usize>, content_cols: nat) -> Seq<usize> {
    if w.len() == 0 {
        w
    } else {
        narrowed(w, room_for(w.len(), content_cols))
    }
}

fn sum_exceeds(w: &Vec<usize>, available: usize) -> (r: bool)
    ensures
        r == (sum_of(w@) > available),
{
    let mut left: usize = available;
    let mut i: usize = 0;
    assert(w@.take(0) =~= seq![]);
    while i < w.len()
        invariant
            i <= w.len(),
            sum_of(w@.take(i as int)) + left == available,
        decreases w.len() - i,
    {
        assert(w@.take(i + 1).drop_last() =~= w@.take(i as int));
        if w[i] > left {
            proof {
                lemma_sum_prefix(w@, i + 1);
            }
            return true;
        }
        left = left - w[i];
        i += 1;
    }
    assert(w@.take(w.len() as int) =~= w@);
    false
}

proof fn lemma_sum_prefix(w: Seq<usize>, n: int)
    requires
        0 <= n <= w.len(),
    ensures
        sum_of(w.take(n)) <= sum_of(w),
    decreases w.len() - n,
{
    if n < w.len() {
        assert(w.take(n + 1).drop_last() =~= w.take(n));
        lemma_sum_prefix(w, n + 1);
    } else {
        assert(w.take(n) =~= w);
    }
}

fn widest_column(w: &Vec<usize>) -> (r: usize)
    requires
        w.len() > 0,
    ensures
        r == widest(w@),
        r < w.len(),
{
    let mut best: usize = 0;
    let mut i: usize = 1;
    assert(w@.take(1).len() == 1);
    while i < w.len()
        invariant
            1 <= i <= w.len(),
            best == widest(w@.take(i as int)),
            best < i,
        decreases w.len() - i,
    {
        assert(w@.take(i + 1).drop_last() =~= w@.take(i as int));
        if w[best] <= w[i] {
            best = i;
        }
        i += 1;
    }
    assert(w@.take(w.len() as int) =~= w@);
    best
}

/// Widths that fit into a terminal with `content_cols` columns: while they are too
/// wide together, the widest column gives up one, the last of them first, and none
/// goes below one.
pub fn bounded_table_widths(widths: Vec<usize>, content_cols: usize) -> (r: Vec<usize>)
    ensures
        r@ == fitted(widths@, content_cols as nat),
{
    if widths.len() == 0 {
        return widths;
    }
    let n: usize = widths.len();
    let less: usize = content_cols.saturating_sub(1);
    let terminal: usize = if less < 20 { 20 } else { less };
    let overhead: u128 = (n as u128) * 3 + 1;
    let left: usize = if overhead >= terminal as u128 { 0 } else { terminal - overhead as usize };
    let available: usize = if left < n { n } else { left };
    assert(available == room_for(n as nat, content_cols as nat));
    let ghost goal = narrowed(widths@, available as nat);
    let mut w: Vec<usize> = widths;
    let mut at: usize = widest_column(&w);
    while w[at] > 1 && sum_exceeds(&w, available)
        invariant
            w.len() == n,
            n > 0,
            at == widest(w@),
            at < n,
            narrowed(w@, available as nat) == goal,
        decreases sum_of(w@),
    {
        let ghost before = w@;
        let x: usize = w[at];
        w.set(at, x - 1);
        proof {
            lemma_sum_update(before, at as int, (x - 1) as usize);
            assert(w@ =~= before.update(at as int, (x - 1) as usize));
        }
        at = widest_column(&w);
    }
    w
}

proof fn lemma_sum_at_most(w: Seq<usize>, most: nat)
    requires
        forall|i: int| 0 <= i < w.len() ==> #[trigger] w[i] <= most,
    ensures
        sum_of(w) <= w.len() * most,
    decreases w.len(),
{
    if w.len() > 0 {
        assert(forall|i: int| 0 <= i < w.drop_last().len() ==> w.drop_last()[i] == w[i]);
        lemma_sum_at_most(w.drop_last(), most);
        assert(w[w.len() - 1] <= most);
        assert((w.len() - 1) * most + most == w.len() * most) by (nonlinear_arith);
    }
}

proof fn lemma_narrowed(w: Seq<usize>, start: Seq<usize>, available: nat)
    requires
        w.len() == start.len(),
        w.len() <= available,
        forall|i: int|
            0 <= i < w.len() ==> #[trigger] w[i] <= start[i] && (start[i] > 0 ==> w[i] > 0),
        forall|i: int, j: int|
            0 <= i < w.len() && 0 <= j < w.len() && w[i] < start[i] ==> #[trigger] w[j] <= #[trigger] w[i]
                + 1,
    ensures
        ({
            let r = narrowed(w, available);
            &&& r.len() == w.len()
            &&& sum_of(r) <= available
            &&& forall|i: int|
                0 <= i < r.len() ==> #[trigger] r[i] <= start[i] && (start[i] > 0 ==> r[i] > 0)
            &&& forall|i: int, j: int|
                0 <= i < r.len() && 0 <= j < r.len() && r[i] < start[i] ==> #[trigger] r[j]
                    <= #[trigger] r[i] + 1
        }),
    decreases sum_of(w),
{
    if sum_of(w) > available {
        if w.len() > 0 {
            lemma_widest(w);
            let i = widest(w);
            if w[i] <= 1 {
                lemma_sum_at_most(w, 1);
            } else {
                let x = (w[i] - 1) as usize;
                lemma_sum_update(w, i, x);
                let next = w.update(i, x);
                assert forall|a: int, b: int|
                    0 <= a < next.len() && 0 <= b < next.len() && next[a] < start[a] implies
                    #[trigger] next[b] <= #[trigger] next[a] + 1 by {
                    assert(w[b] <= w[i]);
                    if a != i {
                        assert(w[b] <= w[a] + 1);
                    }
                }
                lemma_narrowed(next, start, available);
            }
        }
    }
}

/// Fitted widths fit, whatever the cells hold: together with the borders they are
/// within the terminal as long as one column for each cell is. No column grows, none
/// vanishes, and one is narrowed only as far as the widest others are.
pub proof fn law_widths_fit(w: Seq<usize>, content_cols: nat)
    ensures
        ({
            let r = fitted(w, content_cols);
            &&& r.len() == w.len()
            &&& sum_of(r) <= room_for(w.len(), content_cols)
            &&& w.len() * 4 < content_cols - 1 ==> sum_of(r) + w.len() * 3 + 1 <= if content_cols
                < 21 {
                20
            } else {
                content_cols - 1
            }
            &&& forall|i: int|
                0 <= i < r.len() ==> #[trigger] r[i] <= w[i] && (w[i] > 0 ==> r[i] > 0)
            &&& forall|i: int, j: int|
                0 <= i < r.len() && 0 <= j < r.len() && r[i] < w[i] ==> #[trigger] r[j]
                    <= #[trigger] r[i] + 1
        }),
{
    if w.len() > 0 {
        lemma_narrowed(w, w, room_for(w.len(), content_cols));
    }
}

// ---------------------------------------------------------------------------
// Rows

/// The width of the widest of some lines.
pub open spec fn widest_line(parts: Seq<Seq<char>>) -> nat
    decreases parts.len(),
{
    if parts.len() == 0 {
        0
    } else {
        let before = widest_line(parts.drop_last());
        let now = bounded(seen(parts.last()) as int);
        if now > before {
            now
        } else {
            before
        }
    }
}

/// The width of a cell: that of its widest line.
pub open spec fn cell_width(cell: Seq<char>) -> nat {
    widest_line(split_on(cell, '\n'))
}

fn width_of_cell(cell: &str) -> (r: usize)
    ensures
        r == cell_width(cell@),
{
    let parts: Vec<String> = pieces(cell, '\n');
    let ghost all = split_on(cell@, '\n');
    let mut most: usize = 0;
    let mut i: usize = 0;
    assert(all.take(0) =~= seq![]);
    while i < parts.len()
        invariant
            i <= parts.len(),
            texts(parts@) == all,
            most == widest_line(all.take(i as int)),
        decreases parts.len() - i,
    {
        assert(all[i as int] == parts@[i as int]@);
        assert(all.take(i + 1).drop_last() =~= all.take(i as int));
        let w: usize = visible_width(&parts[i]);
        if w > most {
            most = w;
        }
        i += 1;
    }
    assert(all.take(parts.len() as int) =~= all);
    most
}

/// The cells of rows.
pub open spec fn rows_of(rows: Seq<Vec<String>>) -> Seq<Seq<Seq<char>>> {
    rows.map_values(|r: Vec<String>| texts(r@))
}

/// The number of cells of the longest row.
pub open spec fn longest(rows: Seq<Seq<Seq<char>>>) -> nat
    decreases rows.len(),
{
    if rows.len() == 0 {
        0
    } else {
        let before = longest(rows.drop_last());
        let now = rows.last().len();
        if now > before {
            now
        } else {
            before
        }
    }
}

/// The width of the widest cell of a column.
pub open spec fn column_width(rows: Seq<Seq<Seq<char>>>, col: int) -> nat
    decreases rows.len(),
{
    if rows.len() == 0 {
        0
    } else {
        let before = column_width(rows.drop_last(), col);
        let now = if 0 <= col < rows.last().len() {
            cell_width(rows.last()[col])
        } else {
            0
        };
        if now > before {
            now
        } else {
            before
        }
    }
}

/// The widths of the columns before they are fitted: as wide as the widest cell, and
/// wide enough to be read.
pub open spec fn natural_widths(rows: Seq<Seq<Seq<char>>>) -> Seq<usize> {
    let cols = longest(rows);
    Seq::new(
        cols,
        |i: int|
            {
                let w = column_width(rows, i);
                (if w < readable_min(cols) {
                    readable_min(cols)
                } else {
                    w
                }) as usize
            },
    )
}

proof fn lemma_column_width(rows: Seq<Seq<Seq<char>>>, col: int)
    ensures
        column_width(rows, col) <= usize::MAX,
    decreases rows.len(),
{
    if rows.len() > 0 {
        lemma_column_width(rows.drop_last(), col);
        if 0 <= col < rows.last().len() {
            lemma_widest_line(split_on(rows.last()[col], '\n'));
        }
    }
}

proof fn lemma_widest_line(parts: Seq<Seq<char>>)
    ensures
        widest_line(parts) <= usize::MAX,
    decreases parts.len(),
{
    if parts.len() > 0 {
        lemma_widest_line(parts.drop_last());
    }
}

/// The widths of the columns of a table.
pub fn table_widths_for_rows(rows: &Vec<Vec<String>>, content_cols: usize) -> (r: Vec<usize>)
    ensures
        r@ == fitted(natural_widths(rows_of(rows@)), content_cols as nat),
{
    let ghost all = rows_of(rows@);
    let mut cols: usize = 0;
    let mut i: usize = 0;
    assert(all.take(0) =~= seq![]);
    while i < rows.len()
        invariant
            i <= rows.len(),
            all == rows_of(rows@),
            cols == longest(all.take(i as int)),
        decreases rows.len() - i,
    {
        assert(all.take(i + 1).drop_last() =~= all.take(i as int));
        assert(all[i as int] == texts(rows@[i as int]@));
        if rows[i].len() > cols {
            cols = rows[i].len();
        }
        i += 1;
    }
    assert(all.take(rows.len() as int) =~= all);
    let least: usize = readable_table_min_width(cols);
    let mut widths: Vec<usize> = Vec::new();
    let mut c: usize = 0;
    while c < cols
        invariant
            c <= cols,
            all == rows_of(rows@),
            cols == longest(all),
            least == readable_min(cols as nat),
            widths@ =~= natural_widths(all).take(c as int),
        decreases cols - c,
    {
        let mut most: usize = 0;
        let mut j: usize = 0;
        assert(all.take(0) =~= seq![]);
        while j < rows.len()
            invariant
                j <= rows.len(),
                all == rows_of(rows@),
                most == column_width(all.take(j as int), c as int),
            decreases rows.len() - j,
        {
            assert(all.take(j + 1).drop_last() =~= all.take(j as int));
            assert(all[j as int] == texts(rows@[j as int]@));
            if c < rows[j].len() {
                assert(texts(rows@[j as int]@)[c as int] == rows@[j as int]@[c as int]@);
                let w: usize = width_of_cell(&rows[j][c]);
                if w > most {
                    most = w;
                }
            }
            j += 1;
        }
        assert(all.take(rows.len() as int) =~= all);
        widths.push(if most < least { least } else { most });
        c += 1;
    }
    assert(natural_widths(all).take(cols as int) =~= natural_widths(all));
    bounded_table_widths(widths, content_cols)
}

/// A cell on its side of a width.
pub open spec fn aligned(cell: Seq<char>, width: nat, align: TableAlign) -> Seq<char> {
    let room = width - bounded(seen(cell) as int);
    let padding = if room > 0 {
        room
    } else {
        0
    };
    match align {
        TableAlign::Left => cell + repeated(' ', padding),
        TableAlign::Right => repeated(' ', padding) + cell,
        TableAlign::Center => repeated(' ', padding / 2) + cell + repeated(
            ' ',
            padding - padding / 2,
        ),
    }
}

/// A cell on its side of a width, filled up with spaces.
pub fn aligned_cell(cell: &str, width: usize, align: TableAlign) -> (r: String)
    ensures
        r@ == aligned(cell@, width as nat, align),
{
    let padding: usize = width.saturating_sub(visible_width(cell));
    match align {
        TableAlign::Left => {
            let mut out: String = cell.to_owned();
            let fill: String = repeat_char(' ', padding);
            out.append(&fill);
            out
        }
        TableAlign::Right => {
            let mut out: String = repeat_char(' ', padding);
            out.append(cell);
            out
        }
        TableAlign::Center => {
            let left: usize = padding / 2;
            let mut out: String = repeat_char(' ', left);
            out.append(cell);
            let fill: String = repeat_char(' ', padding - left);
            out.append(&fill);
            out
        }
    }
}

/// The lines of some parts, each wrapped to a width.
pub open spec fn wrapped_parts(parts: Seq<Seq<char>>, width: nat) -> Seq<Seq<char>>
    decreases parts.len(),
{
    if parts.len() == 0 {
        seq![]
    } else {
        wrapped_parts(parts.drop_last(), width) + wrapped(parts.last(), width)
    }
}

/// The lines of a cell.
pub open spec fn cell_lines(cell: Seq<char>, width: nat) -> Seq<Seq<char>> {
    wrapped_parts(split_on(cell, '\n'), width)
}

fn lines_of_cell(cell: &str, width: usize) -> (r: Vec<String>)
    ensures
        texts(r@) == cell_lines(cell@, width as nat),
{
    let parts: Vec<String> = pieces(cell, '\n');
    let ghost all = split_on(cell@, '\n');
    let mut out: Vec<String> = Vec::new();
    let mut i: usize = 0;
    assert(all.take(0) =~= seq![]);
    assert(texts(out@) =~= seq![]);
    while i < parts.len()
        invariant
            i <= parts.len(),
            texts(parts@) == all,
            texts(out@) == wrapped_parts(all.take(i as int), width as nat),
        decreases parts.len() - i,
    {
        assert(all[i as int] == parts@[i as int]@);
        assert(all.take(i + 1).drop_last() =~= all.take(i as int));
        let mut lines: Vec<String> = wrap_ansi_text(&parts[i], width);
        let ghost before = texts(out@);
        let ghost more = texts(lines@);
        out.append(&mut lines);
        assert(texts(out@) =~= before + more);
        i += 1;
    }
    assert(all.take(parts.len() as int) =~= all);
    out
}

/// The cell of a row in a column; an empty one where the row is shorter.
pub open spec fn cell_at(row: Seq<Seq<char>>, col: int) -> Seq<char> {
    if 0 <= col < row.len() {
        row[col]
    } else {
        seq![]
    }
}

/// The lines of the cells of a row, column by column.
pub open spec fn row_columns(row: Seq<Seq<char>>, widths: Seq<usize>) -> Seq<Seq<Seq<char>>> {
    Seq::new(widths.len(), |i: int| cell_lines(cell_at(row, i), widths[i] as nat))
}

/// How many lines a row takes.
pub open spec fn row_height(columns: Seq<Seq<Seq<char>>>) -> nat {
    if columns.len() == 0 {
        1
    } else {
        longest(columns)
    }
}

/// The side of a column.
pub open spec fn align_at(aligns: Seq<TableAlign>, col: int) -> TableAlign {
    if 0 <= col < aligns.len() {
        aligns[col]
    } else {
        TableAlign::Left
    }
}

/// A line of a cell, bold in the head of a table.
pub open spec fn head_text(text: Seq<char>, header: bool) -> Seq<char> {
    if header && text.len() > 0 {
        "\x1b[1m"@ + text + "\x1b[0m"@
    } else {
        text
    }
}

/// What stands between two cells.
pub open spec fn vertical() -> Seq<char> {
    "\x1b[2m│\x1b[0m"@
}

/// One line of a row, up to a column.
pub open spec fn row_line(
    columns: Seq<Seq<Seq<char>>>,
    widths: Seq<usize>,
    aligns: Seq<TableAlign>,
    header: bool,
    line: int,
    n: nat,
) -> Seq<char>
    decreases n,
{
    if n == 0 {
        vertical()
    } else {
        let i = n - 1;
        row_line(columns, widths, aligns, header, line, i as nat) + seq![' '] + aligned(
            head_text(cell_at(columns[i], line), header),
            widths[i] as nat,
            align_at(aligns, i),
        ) + seq![' '] + vertical()
    }
}

/// The first lines of a row.
pub open spec fn row_lines(
    columns: Seq<Seq<Seq<char>>>,
    widths: Seq<usize>,
    aligns: Seq<TableAlign>,
    header: bool,
    n: nat,
) -> Seq<char>
    decreases n,
{
    if n == 0 {
        seq![]
    } else {
        row_lines(columns, widths, aligns, header, (n - 1) as nat) + row_line(
            columns,
            widths,
            aligns,
            header,
            n - 1,
            widths.len(),
        ) + seq!['\n']
    }
}

/// A row of a table.
pub open spec fn row_text(
    row: Seq<Seq<char>>,
    widths: Seq<usize>,
    aligns: Seq<TableAlign>,
    header: bool,
) -> Seq<char> {
    let columns = row_columns(row, widths);
    row_lines(columns, widths, aligns, header, row_height(columns))
}

/// What stands between two cells.
pub fn push_table_vertical(output: &mut String)
    ensures
        final(output)@ == old(output)@ + vertical(),
{
    output.append("\x1b[2m│\x1b[0m");
}

fn columns_of(row: &Vec<String>, widths: &Vec<usize>) -> (r: Vec<Vec<String>>)
    ensures
        rows_of(r@) == row_columns(texts(row@), widths@),
{
    let ghost goal = row_columns(texts(row@), widths@);
    let mut out: Vec<Vec<String>> = Vec::new();
    let mut i: usize = 0;
    while i < widths.len()
        invariant
            i <= widths.len(),
            goal == row_columns(texts(row@), widths@),
            rows_of(out@) =~= goal.take(i as int),
        decreases widths.len() - i,
    {
        let lines: Vec<String> = if i < row.len() {
            assert(texts(row@)[i as int] == row@[i as int]@);
            lines_of_cell(&row[i], widths[i])
        } else {
            proof {
                reveal_strlit("");
                assert(""@ =~= seq![]);
            }
            lines_of_cell("", widths[i])
        };
        let ghost before = rows_of(out@);
        out.push(lines);
        assert(rows_of(out@) =~= before.push(texts(lines@)));
        assert(goal[i as int] == texts(lines@));
        i += 1;
    }
    assert(goal.take(widths.len() as int) =~= goal);
    out
}

fn height_of(columns: &Vec<Vec<String>>) -> (r: usize)
    ensures
        r == row_height(rows_of(columns@)),
{
    if columns.len() == 0 {
        return 1;
    }
    let ghost all = rows_of(columns@);
    let mut most: usize = 0;
    let mut i: usize = 0;
    assert(all.take(0) =~= seq![]);
    while i < columns.len()
        invariant
            i <= columns.len(),
            all == rows_of(columns@),
            most == longest(all.take(i as int)),
        decreases columns.len() - i,
    {
        assert(all.take(i + 1).drop_last() =~= all.take(i as int));
        assert(all[i as int] == texts(columns@[i as int]@));
        if columns[i].len() > most {
            most = columns[i].len();
        }
        i += 1;
    }
    assert(all.take(columns.len() as int) =~= all);
    most
}

fn head_cell(text: &str, header: bool) -> (r: String)
    ensures
        r@ == head_text(text@, header),
{
    if header && !is_empty_text(text) {
        let mut out: String = "\x1b[1m".to_owned();
        out.append(text);
        out.append("\x1b[0m");
        out
    } else {
        text.to_owned()
    }
}

/// A row of a table, on as many lines as its highest cell takes.
pub fn render_table_row(
    row: &Vec<String>,
    widths: &Vec<usize>,
    alignments: &Vec<TableAlign>,
    header: bool,
) -> (r: String)
    ensures
        r@ == row_text(texts(row@), widths@, alignments@, header),
{
    let columns: Vec<Vec<String>> = columns_of(row, widths);
    let ghost cols = row_columns(texts(row@), widths@);
    let height: usize = height_of(&columns);
    let mut output: String = String::new();
    let mut line: usize = 0;
    assert(output@ =~= seq![]);
    while line < height
        invariant
            line <= height,
            cols == rows_of(columns@),
            cols.len() == widths.len(),
            output@ == row_lines(cols, widths@, alignments@, header, line as nat),
        decreases height - line,
    {
        let ghost start = output@;
        push_table_vertical(&mut output);
        let mut i: usize = 0;
        while i < widths.len()
            invariant
                i <= widths.len(),
                cols == rows_of(columns@),
                cols.len() == widths.len(),
                output@ =~= start + row_line(
                    cols,
                    widths@,
                    alignments@,
                    header,
                    line as int,
                    i as nat,
                ),
            decreases widths.len() - i,
        {
            assert(columns.len() == rows_of(columns@).len());
            assert(cols[i as int] == texts(columns@[i as int]@));
            let text: String = if line < columns[i].len() {
                assert(texts(columns@[i as int]@)[line as int]
                    == columns@[i as int]@[line as int]@);
                head_cell(&columns[i][line], header)
            } else {
                proof {
                    reveal_strlit("");
                    assert(""@ =~= seq![]);
                }
                head_cell("", header)
            };
            let align: TableAlign = if i < alignments.len() { alignments[i] } else { TableAlign::Left };
            let cell: String = aligned_cell(&text, widths[i], align);
            output.push(' ');
            output.append(&cell);
            output.push(' ');
            push_table_vertical(&mut output);
            i += 1;
        }
        output.push('\n');
        assert(output@ =~= row_lines(cols, widths@, alignments@, header, (line + 1) as nat));
        line += 1;
    }
    output
}

/// The parts of a border up to a column.
pub open spec fn border_parts(widths: Seq<usize>, mid: char, right: char, n: nat) -> Seq<char>
    decreases n,
{
    if n == 0 {
        seq![]
    } else {
        border_parts(widths, mid, right, (n - 1) as nat) + repeated(
            '─',
            widths[n - 1] as int + 2,
        ) + seq![
            if n == widths.len() {
                right
            } else {
                mid
            },
        ]
    }
}

/// A border of a table.
pub open spec fn border_text(widths: Seq<usize>, left: char, mid: char, right: char) -> Seq<char> {
    "\x1b[2m"@ + seq![left] + border_parts(widths, mid, right, widths.len()) + "\x1b[0m\n"@
}

/// A border of a table.
pub fn table_border(widths: &Vec<usize>, left: char, mid: char, right: char) -> (r: String)
    ensures
        r@ == border_text(widths@, left, mid, right),
{
    let mut output: String = "\x1b[2m".to_owned();
    output.push(left);
    let ghost start = output@;
    let mut i: usize = 0;
    while i < widths.len()
        invariant
            i <= widths.len(),
            output@ =~= start + border_parts(widths@, mid, right, i as nat),
        decreases widths.len() - i,
    {
        let ghost before = output@;
        let rule: String = repeat_char('─', widths[i]);
        output.append(&rule);
        output.append("──");
        proof {
            reveal_strlit("──");
            assert(output@ =~= before + repeated('─', widths@[i as int] as int + 2));
        }
        output.push(if widths.len() - i == 1 { right } else { mid });
        i += 1;
    }
    output.append("\x1b[0m\n");
    assert(output@ =~= border_text(widths@, left, mid, right));
    output
}

/// The border above a table.
pub fn top_table_border(widths: &Vec<usize>) -> (r: String)
    ensures
        r@ == border_text(widths@, '┌', '┬', '┐'),
{
    table_border(widths, '┌', '┬', '┐')
}

/// The border between two rows.
pub fn middle_table_border(widths: &Vec<usize>) -> (r: String)
    ensures
        r@ == border_text(widths@, '├', '┼', '┤'),
{
    table_border(widths, '├', '┼', '┤')
}

/// The border below a table.
pub fn bottom_table_border(widths: &Vec<usize>) -> (r: String)
    ensures
        r@ == border_text(widths@, '└', '┴', '┘'),
{
    table_border(widths, '└', '┴', '┘')
}

// ---------------------------------------------------------------------------
// Tables

/// The lines of a table that are rows.
pub open spec fn data_lines(lines: Seq<Seq<char>>) -> Seq<Seq<char>>
    decreases lines.len(),
{
    if lines.len() == 0 {
        seq![]
    } else if is_separator_line(lines.last()) {
        data_lines(lines.drop_last())
    } else {
        data_lines(lines.drop_last()).push(lines.last())
    }
}

/// The cells of a table as they are written, row by row.
pub open spec fn written_cells(lines: Seq<Seq<char>>) -> Seq<Seq<Seq<char>>> {
    data_lines(lines).map_values(|l: Seq<char>| cells_of(l))
}

/// The cells of a table as they are written, row by row: those of every line that is
/// no separator.
pub fn table_cells(lines: &Vec<String>) -> (r: Vec<Vec<String>>)
    ensures
        rows_of(r@) == written_cells(texts(lines@)),
{
    let ghost all = texts(lines@);
    let mut out: Vec<Vec<String>> = Vec::new();
    let mut i: usize = 0;
    assert(all.take(0) =~= seq![]);
    assert(rows_of(out@) =~= written_cells(all.take(0)));
    while i < lines.len()
        invariant
            i <= lines.len(),
            all == texts(lines@),
            rows_of(out@) == written_cells(all.take(i as int)),
        decreases lines.len() - i,
    {
        assert(all[i as int] == lines@[i as int]@);
        assert(all.take(i + 1).drop_last() =~= all.take(i as int));
        if !is_table_separator(&lines[i]) {
            let row: Vec<String> = row_cells(&lines[i]);
            let ghost before = rows_of(out@);
            out.push(row);
            assert(rows_of(out@) =~= before.push(texts(row@)));
            assert(written_cells(all.take(i + 1)) =~= written_cells(all.take(i as int)).push(
                cells_of(all[i as int]),
            ));
        }
        i += 1;
    }
    assert(all.take(lines.len() as int) =~= all);
    out
}

/// The sides that a table asks for: those of its second line, where that is a
/// separator.
pub open spec fn table_aligns(lines: Seq<Seq<char>>) -> Seq<TableAlign> {
    if lines.len() > 1 && is_separator_line(lines[1]) {
        aligns_of(lines[1])
    } else {
        seq![]
    }
}

/// The first rows of a table, with the borders between them.
pub open spec fn table_rows(
    rows: Seq<Seq<Seq<char>>>,
    widths: Seq<usize>,
    aligns: Seq<TableAlign>,
    bold_header: bool,
    n: nat,
) -> Seq<char>
    decreases n,
{
    if n == 0 {
        seq![]
    } else {
        table_rows(rows, widths, aligns, bold_header, (n - 1) as nat) + row_text(
            rows[n - 1],
            widths,
            aligns,
            bold_header && n == 1,
        ) + if n < rows.len() {
            border_text(widths, '├', '┼', '┤')
        } else {
            seq![]
        }
    }
}

/// A table: `cells` are its cells as they are shown.
pub open spec fn table_text(
    lines: Seq<Seq<char>>,
    cells: Seq<Seq<Seq<char>>>,
    bold_header: bool,
    content_cols: nat,
) -> Seq<char> {
    let widths = fitted(natural_widths(cells), content_cols);
    border_text(widths, '┌', '┬', '┐') + table_rows(
        cells,
        widths,
        table_aligns(lines),
        bold_header,
        cells.len(),
    ) + border_text(widths, '└', '┴', '┘')
}

/// A table in a terminal with `content_cols` columns. `lines` are the lines as they
/// are written, `cells` the cells as they are shown, row by row.
pub fn render_table_with_header_style(
    lines: &Vec<String>,
    cells: &Vec<Vec<String>>,
    bold_header: bool,
    content_cols: usize,
) -> (r: String)
    ensures
        r@ == table_text(texts(lines@), rows_of(cells@), bold_header, content_cols as nat),
{
    let ghost rows = rows_of(cells@);
    let mut aligns: Vec<TableAlign> = Vec::new();
    if lines.len() > 1 {
        assert(texts(lines@)[1] == lines@[1]@);
        if is_table_separator(&lines[1]) {
            aligns = parse_table_alignments(&lines[1]);
        }
    }
    assert(aligns@ =~= table_aligns(texts(lines@)));
    let widths: Vec<usize> = table_widths_for_rows(cells, content_cols);
    let mut output: String = top_table_border(&widths);
    let ghost start = output@;
    let mut i: usize = 0;
    while i < cells.len()
        invariant
            i <= cells.len(),
            rows == rows_of(cells@),
            output@ =~= start + table_rows(rows, widths@, aligns@, bold_header, i as nat),
        decreases cells.len() - i,
    {
        assert(rows[i as int] == texts(cells@[i as int]@));
        let row: String = render_table_row(&cells[i], &widths, &aligns, bold_header && i == 0);
        output.append(&row);
        if cells.len() - i > 1 {
            let middle: String = middle_table_border(&widths);
            output.append(&middle);
        }
        i += 1;
    }
    let bottom: String = bottom_table_border(&widths);
    output.append(&bottom);
    output
}

/// A table whose head is bold.
pub fn render_table(lines: &Vec<String>, cells: &Vec<Vec<String>>, content_cols: usize) -> (r: String)
    ensures
        r@ == table_text(texts(lines@), rows_of(cells@), true, content_cols as nat),
{
    render_table_with_header_style(lines, cells, true, content_cols)
}

// ---------------------------------------------------------------------------
// Lists of tasks

/// A task, as far as it is given.
pub struct TodoItem {
    pub status: Option<String>,
    pub content: Option<String>,
}

/// What a [`TodoItem`] holds, as values.
#[verifier::ext_equal]
pub struct TodoItemModel {
    pub status: Option<Seq<char>>,
    pub content: Option<Seq<char>>,
}

impl View for TodoItem {
    type V = TodoItemModel;

    open spec fn view(&self) -> TodoItemModel {
        TodoItemModel {
            status: opt_text(self.status),
            content: opt_text(self.content),
        }
    }
}


/// The mark of a task.
pub open spec fn marker_of(status: Seq<char>) -> Seq<char> {
    if status == "completed"@ {
        "[✔]"@
    } else if status == "in_progress"@ {
        "[·]"@
    } else if status == "cancelled"@ {
        "[×]"@
    } else {
        "[ ]"@
    }
}

/// The mark of a task.
pub fn todo_status_marker(status: &str) -> (r: &'static str)
    ensures
        r@ == marker_of(status@),
{
    if same(status, "completed") {
        "[✔]"
    } else if same(status, "in_progress") {
        "[·]"
    } else if same(status, "cancelled") {
        "[×]"
    } else {
        "[ ]"
    }
}

/// What a character of a cell is written as.
pub open spec fn cell_char(c: char) -> Seq<char> {
    if c == '|' {
        seq!['\\', '|']
    } else if c == '\n' {
        seq![' ']
    } else {
        seq![c]
    }
}

/// The characters of a cell as they are written.
pub open spec fn cell_chars(s: Seq<char>) -> Seq<char>
    decreases s.len(),
{
    if s.len() == 0 {
        seq![]
    } else {
        cell_chars(s.drop_last()) + cell_char(s.last())
    }
}

/// A text as a cell: bars escaped, on one line, without white space around.
pub fn escape_table_cell(value: &str) -> (r: String)
    ensures
        r@ == trim(cell_chars(value@)),
{
    let v: Vec<char> = chars_of(value);
    let mut out: String = String::new();
    let mut i: usize = 0;
    assert(v@.take(0) =~= seq![]);
    assert(out@ =~= seq![]);
    while i < v.len()
        invariant
            i <= v.len(),
            out@ =~= cell_chars(v@.take(i as int)),
        decreases v.len() - i,
    {
        assert(v@.take(i + 1).drop_last() =~= v@.take(i as int));
        if v[i] == '|' {
            out.push('\\');
            out.push('|');
        } else if v[i] == '\n' {
            out.push(' ');
        } else {
            out.push(v[i]);
        }
        i += 1;
    }
    assert(v@.take(v.len() as int) =~= value@);
    trimmed(&out)
}

/// A text, or another where it is not given.
pub open spec fn given_or(s: Option<Seq<char>>, other: Seq<char>) -> Seq<char> {
    match s {
        Some(t) => t,
        None => other,
    }
}

/// The line of a task.
pub open spec fn todo_line(item: TodoItemModel, style: Seq<char>) -> Seq<char> {
    let status = given_or(item.status, "pending"@);
    let cell = trim(cell_chars(given_or(item.content, ""@)));
    "| "@ + marker_of(status) + " "@ + (if status == "in_progress"@ {
        style + cell + "\x1b[0m"@
    } else {
        cell
    }) + " |"@
}

/// The lines of a list of tasks.
pub open spec fn todo_table(
    todos: Seq<TodoItemModel>,
    title: Seq<char>,
    none: Seq<char>,
    style: Seq<char>,
) -> Seq<Seq<char>> {
    let head = seq!["| "@ + title + " |"@, "|---|"@];
    if todos.len() == 0 {
        head + seq!["| "@ + none + " |"@]
    } else {
        head + todos.map_values(|t: TodoItemModel| todo_line(t, style))
    }
}

fn in_bars(text: &str) -> (r: String)
    ensures
        r@ == "| "@ + text@ + " |"@,
{
    let mut out: String = "| ".to_owned();
    out.append(text);
    out.append(" |");
    out
}

fn line_of_todo(item: &TodoItem, style: &str) -> (r: String)
    ensures
        r@ == todo_line(item@, style@),
{
    let status: &str = match &item.status {
        Some(s) => s.as_str(),
        None => "pending",
    };
    let content: &str = match &item.content {
        Some(s) => s.as_str(),
        None => "",
    };
    let cell: String = escape_table_cell(content);
    let mut out: String = "| ".to_owned();
    out.append(todo_status_marker(status));
    out.append(" ");
    if same(status, "in_progress") {
        let ghost before = out@;
        out.append(style);
        out.append(&cell);
        out.append("\x1b[0m");
        assert(out@ =~= before + (style@ + cell@ + "\x1b[0m"@));
    } else {
        out.append(&cell);
    }
    out.append(" |");
    out
}

/// The lines of a list of tasks, a column under a title: `none` stands in it where
/// there is no task, `style` marks the one at work.
pub fn todo_lines(todos: &Vec<TodoItem>, title: &str, none: &str, style: &str) -> (r: Vec<String>)
    ensures
        texts(r@) == todo_table(views(todos@), title@, none@, style@),
{
    let mut lines: Vec<String> = vec![in_bars(title), "|---|".to_owned()];
    let ghost head = seq!["| "@ + title@ + " |"@, "|---|"@];
    assert(texts(lines@) =~= head);
    if todos.len() == 0 {
        lines.push(in_bars(none));
        assert(texts(lines@) =~= head + seq!["| "@ + none@ + " |"@]);
        return lines;
    }
    let ghost all = views(todos@).map_values(|t: TodoItemModel| todo_line(t, style@));
    let mut i: usize = 0;
    assert(head + all.take(0) =~= head);
    while i < todos.len()
        invariant
            i <= todos.len(),
            all == views(todos@).map_values(|t: TodoItemModel| todo_line(t, style@)),
            texts(lines@) =~= head + all.take(i as int),
        decreases todos.len() - i,
    {
        let line: String = line_of_todo(&todos[i], style);
        assert(views(todos@)[i as int] == todos@[i as int]@);
        assert(all[i as int] == line@);
        let ghost before = texts(lines@);
        lines.push(line);
        assert(texts(lines@) =~= before.push(line@));
        i += 1;
    }
    assert(all.take(todos.len() as int) =~= all);
    lines
}

/// A task, as far as an item of a list in JSON gives it.
pub open spec fn todo_in(item: Seq<char>) -> TodoItemModel {
    TodoItemModel { status: json_text(item, "status"@), content: json_text(item, "content"@) }
}

/// The tasks that the output of a tool lists, where it is JSON with such a list.
pub open spec fn listed_todos(output: Seq<char>) -> Option<Seq<TodoItemModel>> {
    match json_items(trim(output), "/todos"@) {
        Some(items) => Some(items.map_values(|t: Seq<char>| todo_in(t))),
        None => None,
    }
}

/// The tasks, as far as items of a list in JSON give them.
pub fn read_todos(items: &Vec<String>) -> (r: Vec<TodoItem>)
    ensures
        views(r@) == texts(items@).map_values(|t: Seq<char>| todo_in(t)),
{
    let ghost all = texts(items@).map_values(|t: Seq<char>| todo_in(t));
    let mut out: Vec<TodoItem> = Vec::new();
    let mut i: usize = 0;
    while i < items.len()
        invariant
            i <= items.len(),
            all == texts(items@).map_values(|t: Seq<char>| todo_in(t)),
            views(out@) =~= all.take(i as int),
        decreases items.len() - i,
    {
        assert(texts(items@)[i as int] == items@[i as int]@);
        let item: TodoItem = TodoItem {
            status: text_under(&items[i], "status"),
            content: text_under(&items[i], "content"),
        };
        assert(all[i as int] == item@);
        let ghost before = views(out@);
        out.push(item);
        assert(views(out@) =~= before.push(item@));
        i += 1;
    }
    assert(all.take(items.len() as int) =~= all);
    out
}

/// The tasks that the output of a tool lists; none where it is no JSON with such a list.
pub fn todos_in(output: &str) -> (r: Option<Vec<TodoItem>>)
    ensures
        (match r {
            Some(v) => Some(views(v@)),
            None => None,
        }) == listed_todos(output@),
{
    let text: String = trimmed(output);
    match read_items(&text, "/todos") {
        Some(items) => Some(read_todos(&items)),
        None => None,
    }
}

/// The lines of the table of the tasks that the output of a tool lists; none where it
/// lists none.
pub fn write_todo_table(output: &str, title: &str, none: &str, style: &str) -> (r: Option<
    Vec<String>,
>)
    ensures
        (match r {
            Some(v) => Some(texts(v@)),
            None => None,
        }) == (match listed_todos(output@) {
            Some(todos) => Some(todo_table(todos, title@, none@, style@)),
            None => None,
        }),
{
    match todos_in(output) {
        Some(todos) => Some(todo_lines(&todos, title, none, style)),
        None => None,
    }
}

/// A list of tasks as a table whose head is not bold.
pub fn render_todo_table(lines: &Vec<String>, cells: &Vec<Vec<String>>, content_cols: usize) -> (r: String)
    ensures
        r@ == table_text(texts(lines@), rows_of(cells@), false, content_cols as nat),
{
    render_table_with_header_style(lines, cells, false, content_cols)
}

// ---------------------------------------------------------------------------
// Tables stay even

/// Whether no escape of a text runs on into what follows.
pub open spec fn is_complete(s: Seq<char>) -> bool {
    forall|t: Seq<char>| #[trigger] seen(s + t) == seen(s) + seen(t)
}

proof fn lemma_complete_join(a: Seq<char>, b: Seq<char>)
    requires
        is_complete(a),
        is_complete(b),
    ensures
        is_complete(a + b),
        seen(a + b) == seen(a) + seen(b),
{
    assert(seen(a + b) == seen(a) + seen(b));
    assert forall|t: Seq<char>| #[trigger] seen(a + b + t) == seen(a + b) + seen(t) by {
        assert(a + b + t =~= a + (b + t));
        assert(seen(a + (b + t)) == seen(a) + seen(b + t));
        assert(seen(b + t) == seen(b) + seen(t));
    }
}

proof fn lemma_complete_char(c: char)
    requires
        c != '\x1b',
    ensures
        is_complete(seq![c]),
        seen(seq![c]) == char_width(c),
{
    assert(seq![c].skip(1) =~= seq![]);
    assert(seen(Seq::<char>::empty()) == 0);
    assert forall|t: Seq<char>| #[trigger] seen(seq![c] + t) == seen(seq![c]) + seen(t) by {
        assert((seq![c] + t).skip(1) =~= t);
    }
}

proof fn lemma_complete_repeated(c: char, n: int)
    requires
        c != '\x1b',
        char_width(c) == 1,
        0 <= n,
    ensures
        is_complete(repeated(c, n)),
        seen(repeated(c, n)) == n,
    decreases n,
{
    if n == 0 {
        let none = Seq::<char>::empty();
        assert(repeated(c, 0) =~= none);
        assert forall|t: Seq<char>| #[trigger] seen(none + t) == seen(none) + seen(t) by {
            assert(none + t =~= t);
        }
    } else {
        lemma_complete_repeated(c, n - 1);
        lemma_complete_char(c);
        lemma_complete_join(repeated(c, n - 1), seq![c]);
        assert(repeated(c, n) =~= repeated(c, n - 1) + seq![c]);
    }
}

proof fn lemma_complete_escape(e: Seq<char>)
    requires
        e.len() > 0,
        e[0] == '\x1b',
        escape_len(e) == e.len(),
        e.last() == 'm',
    ensures
        is_complete(e),
        seen(e) == 0,
{
    let none = Seq::<char>::empty();
    assert(e.skip(e.len() as int) =~= none);
    assert(seen(none) == 0);
    assert forall|t: Seq<char>| #[trigger] seen(e + t) == seen(e) + seen(t) by {
        lemma_escape_then(e, t);
        assert((e + t).skip(e.len() as int) =~= t);
    }
}

/// A cell that fits takes its width exactly, whatever its side.
pub proof fn law_aligned_cells_take_their_width(cell: Seq<char>, width: nat, align: TableAlign)
    requires
        is_complete(cell),
        seen(cell) <= width <= usize::MAX,
    ensures
        is_complete(aligned(cell, width, align)),
        seen(aligned(cell, width, align)) == width,
{
    let p = width - seen(cell);
    lemma_complete_repeated(' ', p);
    lemma_complete_repeated(' ', p / 2);
    lemma_complete_repeated(' ', p - p / 2);
    lemma_complete_join(cell, repeated(' ', p));
    lemma_complete_join(repeated(' ', p), cell);
    lemma_complete_join(repeated(' ', p / 2), cell);
    lemma_complete_join(repeated(' ', p / 2) + cell, repeated(' ', p - p / 2));
}

proof fn lemma_small_escapes()
    ensures
        is_complete("\x1b[2m"@),
        seen("\x1b[2m"@) == 0,
        is_complete("\x1b[1m"@),
        seen("\x1b[1m"@) == 0,
        is_complete("\x1b[0m"@),
        seen("\x1b[0m"@) == 0,
{
    reveal_strlit("\x1b[2m");
    reveal_strlit("\x1b[1m");
    reveal_strlit("\x1b[0m");
    lemma_four("\x1b[2m"@);
    lemma_four("\x1b[1m"@);
    lemma_four("\x1b[0m"@);
}

proof fn lemma_four(e: Seq<char>)
    requires
        e.len() == 4,
        e[0] == '\x1b',
        e[1] == '[',
        e[2] == '0' || e[2] == '1' || e[2] == '2',
        e[3] == 'm',
    ensures
        is_complete(e),
        seen(e) == 0,
{
    let a = e.skip(1);
    let b = a.skip(1);
    let c = b.skip(1);
    assert(c[0] == 'm');
    assert(escape_len(c) == 1);
    assert(escape_len(b) == 2);
    assert(escape_len(a) == 3);
    lemma_complete_escape(e);
}

proof fn lemma_vertical()
    ensures
        is_complete(vertical()),
        seen(vertical()) == 1,
{
    reveal_strlit("\x1b[2m│\x1b[0m");
    reveal_strlit("\x1b[2m");
    reveal_strlit("\x1b[0m");
    lemma_small_escapes();
    lemma_complete_char('│');
    lemma_complete_join("\x1b[2m"@, seq!['│']);
    lemma_complete_join("\x1b[2m"@ + seq!['│'], "\x1b[0m"@);
    assert(vertical() =~= "\x1b[2m"@ + seq!['│'] + "\x1b[0m"@);
}

/// Every line of a row whose cells are complete and fit is as wide as the columns
/// together with the borders.
pub proof fn law_rows_are_even(
    columns: Seq<Seq<Seq<char>>>,
    widths: Seq<usize>,
    aligns: Seq<TableAlign>,
    header: bool,
    line: int,
)
    requires
        columns.len() == widths.len(),
        forall|i: int|
            0 <= i < columns.len() ==> is_complete(cell_at(#[trigger] columns[i], line)) && seen(
                cell_at(columns[i], line),
            ) <= widths[i],
    ensures
        seen(row_line(columns, widths, aligns, header, line, widths.len())) == sum_of(widths)
            + widths.len() * 3 + 1,
{
    lemma_even_to(columns, widths, aligns, header, line, widths.len());
    assert(widths.take(widths.len() as int) =~= widths);
}

proof fn lemma_even_to(
    columns: Seq<Seq<Seq<char>>>,
    widths: Seq<usize>,
    aligns: Seq<TableAlign>,
    header: bool,
    line: int,
    n: nat,
)
    requires
        n <= widths.len(),
        columns.len() == widths.len(),
        forall|i: int|
            0 <= i < columns.len() ==> is_complete(cell_at(#[trigger] columns[i], line)) && seen(
                cell_at(columns[i], line),
            ) <= widths[i],
    ensures
        is_complete(row_line(columns, widths, aligns, header, line, n)),
        seen(row_line(columns, widths, aligns, header, line, n)) == sum_of(widths.take(n as int)) + n
            * 3 + 1,
    decreases n,
{
    lemma_vertical();
    if n > 0 {
        let i = n - 1;
        lemma_even_to(columns, widths, aligns, header, line, i as nat);
        assert(widths.take(n as int).drop_last() =~= widths.take(i));
        let before = row_line(columns, widths, aligns, header, line, i as nat);
        let text = cell_at(columns[i], line);
        let head = head_text(text, header);
        lemma_small_escapes();
        if header && text.len() > 0 {
            lemma_complete_join("\x1b[1m"@, text);
            lemma_complete_join("\x1b[1m"@ + text, "\x1b[0m"@);
        }
        let align = align_at(aligns, i);
        law_aligned_cells_take_their_width(head, widths[i] as nat, align);
        let cell = aligned(head, widths[i] as nat, align);
        lemma_complete_char(' ');
        lemma_complete_join(before, seq![' ']);
        lemma_complete_join(before + seq![' '], cell);
        lemma_complete_join(before + seq![' '] + cell, seq![' ']);
        lemma_complete_join(before + seq![' '] + cell + seq![' '], vertical());
    } else {
        assert(sum_of(widths.take(0)) == 0);
    }
}

proof fn lemma_border_parts(widths: Seq<usize>, mid: char, right: char, n: nat)
    requires
        n <= widths.len(),
        mid != '\x1b',
        right != '\x1b',
        char_width(mid) == 1,
        char_width(right) == 1,
    ensures
        is_complete(border_parts(widths, mid, right, n)),
        seen(border_parts(widths, mid, right, n)) == sum_of(widths.take(n as int)) + n * 3,
    decreases n,
{
    if n == 0 {
        assert(sum_of(widths.take(0)) == 0);
        lemma_complete_repeated(' ', 0);
        assert(border_parts(widths, mid, right, 0) =~= repeated(' ', 0));
    } else {
        let i = n - 1;
        lemma_border_parts(widths, mid, right, i as nat);
        assert(widths.take(n as int).drop_last() =~= widths.take(i));
        let before = border_parts(widths, mid, right, i as nat);
        let rule = repeated('─', widths[i] as int + 2);
        let end = if n == widths.len() { right } else { mid };
        lemma_complete_repeated('─', widths[i] as int + 2);
        lemma_complete_char(end);
        lemma_complete_join(before, rule);
        lemma_complete_join(before + rule, seq![end]);
    }
}

/// A border is as wide as the rows of its table, apart from the end of its line.
pub proof fn law_borders_are_even(widths: Seq<usize>, left: char, mid: char, right: char)
    requires
        left != '\x1b',
        mid != '\x1b',
        right != '\x1b',
        char_width(left) == 1,
        char_width(mid) == 1,
        char_width(right) == 1,
    ensures
        exists|line: Seq<char>|
            border_text(widths, left, mid, right) == #[trigger] line.push('\n') && seen(line)
                == sum_of(widths) + widths.len() * 3 + 1,
{
    lemma_small_escapes();
    lemma_border_parts(widths, mid, right, widths.len());
    assert(widths.take(widths.len() as int) =~= widths);
    let parts = border_parts(widths, mid, right, widths.len());
    lemma_complete_char(left);
    lemma_complete_join("\x1b[2m"@, seq![left]);
    lemma_complete_join("\x1b[2m"@ + seq![left], parts);
    lemma_complete_join("\x1b[2m"@ + seq![left] + parts, "\x1b[0m"@);
    let line = "\x1b[2m"@ + seq![left] + parts + "\x1b[0m"@;
    reveal_strlit("\x1b[0m");
    reveal_strlit("\x1b[0m\n");
    assert(border_text(widths, left, mid, right) =~= line.push('\n'));
}

// ---------------------------------------------------------------------------
// Tables lose nothing

/// A character of the frame of a table: of its rules, its colours and the space around its
/// cells.
pub open spec fn is_frame(c: char) -> bool {
    c == ' ' || c == '\n' || c == '\x1b' || c == '[' || c == '0' || c == '1' || c == '2' || c == 'm'
        || c == '│' || c == '─' || c == '┌' || c == '┬' || c == '┐' || c == '├' || c == '┼' || c == '┤'
        || c == '└' || c == '┴' || c == '┘'
}

/// What a text holds besides characters of frames, in its order.
pub open spec fn within_frame(s: Seq<char>) -> Seq<char>
    decreases s.len(),
{
    if s.len() == 0 {
        seq![]
    } else if is_frame(s.last()) {
        within_frame(s.drop_last())
    } else {
        within_frame(s.drop_last()).push(s.last())
    }
}

proof fn lemma_within_sum(a: Seq<char>, b: Seq<char>)
    ensures
        within_frame(a + b) == within_frame(a) + within_frame(b),
    decreases b.len(),
{
    if b.len() == 0 {
        assert(a + b =~= a);
        assert(within_frame(a) + within_frame(b) =~= within_frame(a));
    } else {
        assert((a + b).drop_last() =~= a + b.drop_last());
        lemma_within_sum(a, b.drop_last());
        assert(within_frame(a + b) =~= within_frame(a) + within_frame(b));
    }
}

proof fn lemma_all_frame(s: Seq<char>)
    requires
        forall|i: int| 0 <= i < s.len() ==> is_frame(#[trigger] s[i]),
    ensures
        within_frame(s) == Seq::<char>::empty(),
    decreases s.len(),
{
    if s.len() > 0 {
        assert forall|i: int| 0 <= i < s.drop_last().len() implies is_frame(
            #[trigger] s.drop_last()[i],
        ) by {
            assert(s.drop_last()[i] == s[i]);
        }
        lemma_all_frame(s.drop_last());
    }
}

proof fn lemma_frame_marks()
    ensures
        within_frame(vertical()) == Seq::<char>::empty(),
        within_frame("\x1b[1m"@) == Seq::<char>::empty(),
        within_frame("\x1b[0m"@) == Seq::<char>::empty(),
        within_frame("\x1b[2m"@) == Seq::<char>::empty(),
        within_frame("\x1b[0m\n"@) == Seq::<char>::empty(),
        within_frame(seq![' ']) == Seq::<char>::empty(),
        within_frame(seq!['\n']) == Seq::<char>::empty(),
{
    reveal_strlit("\x1b[2m│\x1b[0m");
    reveal_strlit("\x1b[1m");
    reveal_strlit("\x1b[0m");
    reveal_strlit("\x1b[2m");
    reveal_strlit("\x1b[0m\n");
    lemma_all_frame(vertical());
    lemma_all_frame("\x1b[1m"@);
    lemma_all_frame("\x1b[0m"@);
    lemma_all_frame("\x1b[2m"@);
    lemma_all_frame("\x1b[0m\n"@);
    lemma_all_frame(seq![' ']);
    lemma_all_frame(seq!['\n']);
}

proof fn lemma_within_aligned(text: Seq<char>, header: bool, width: nat, align: TableAlign)
    ensures
        within_frame(aligned(head_text(text, header), width, align)) == within_frame(text),
{
    lemma_frame_marks();
    let head = head_text(text, header);
    let none = Seq::<char>::empty();
    lemma_within_sum("\x1b[1m"@, text);
    lemma_within_sum("\x1b[1m"@ + text, "\x1b[0m"@);
    assert(none + within_frame(text) + none =~= within_frame(text));
    assert(none + within_frame(text) =~= within_frame(text));
    assert(within_frame(text) + none =~= within_frame(text));
    assert(within_frame(head) == within_frame(text));
    let room = width - bounded(seen(head) as int);
    let padding = if room > 0 {
        room
    } else {
        0
    };
    lemma_all_frame(repeated(' ', padding));
    lemma_all_frame(repeated(' ', padding / 2));
    lemma_all_frame(repeated(' ', padding - padding / 2));
    lemma_within_sum(head, repeated(' ', padding));
    lemma_within_sum(repeated(' ', padding), head);
    lemma_within_sum(repeated(' ', padding / 2), head);
    lemma_within_sum(repeated(' ', padding / 2) + head, repeated(' ', padding - padding / 2));
}

proof fn lemma_flat_push(parts: Seq<Seq<char>>, last: Seq<char>)
    ensures
        flat(parts.push(last)) == flat(parts) + last,
    decreases parts.len(),
{
    let all = parts.push(last);
    if parts.len() == 0 {
        assert(all.skip(1) =~= Seq::<Seq<char>>::empty());
        assert(flat(Seq::<Seq<char>>::empty()) =~= seq![]);
        assert(flat(all) =~= flat(parts) + last);
    } else {
        assert(all.skip(1) =~= parts.skip(1).push(last));
        lemma_flat_push(parts.skip(1), last);
        assert(flat(all) =~= flat(parts) + last);
    }
}

proof fn lemma_flat_sum(a: Seq<Seq<char>>, b: Seq<Seq<char>>)
    ensures
        flat(a + b) == flat(a) + flat(b),
    decreases b.len(),
{
    if b.len() == 0 {
        assert(a + b =~= a);
        assert(flat(a) + flat(b) =~= flat(a));
    } else {
        lemma_flat_sum(a, b.drop_last());
        assert(a + b =~= (a + b.drop_last()).push(b.last()));
        assert(b =~= b.drop_last().push(b.last()));
        lemma_flat_push(a + b.drop_last(), b.last());
        lemma_flat_push(b.drop_last(), b.last());
        assert(flat(a + b) =~= flat(a) + flat(b));
    }
}

/// The parts of a line of a row, without its frame.
spec fn line_parts(columns: Seq<Seq<Seq<char>>>, line: int, n: nat) -> Seq<Seq<char>> {
    Seq::new(n, |i: int| within_frame(cell_at(columns[i], line)))
}

/// The parts of the lines of a row, without its frame.
spec fn all_parts(columns: Seq<Seq<Seq<char>>>, n: nat, height: nat) -> Seq<Seq<Seq<char>>> {
    Seq::new(height, |k: int| line_parts(columns, k, n))
}

proof fn lemma_within_line(
    columns: Seq<Seq<Seq<char>>>,
    widths: Seq<usize>,
    aligns: Seq<TableAlign>,
    header: bool,
    line: int,
    n: nat,
)
    ensures
        within_frame(row_line(columns, widths, aligns, header, line, n)) == flat(
            line_parts(columns, line, n),
        ),
    decreases n,
{
    lemma_frame_marks();
    if n == 0 {
        assert(line_parts(columns, line, 0) =~= Seq::<Seq<char>>::empty());
    } else {
        let i = n - 1;
        lemma_within_line(columns, widths, aligns, header, line, i as nat);
        let before = row_line(columns, widths, aligns, header, line, i as nat);
        let text = cell_at(columns[i], line);
        let cell = aligned(head_text(text, header), widths[i] as nat, align_at(aligns, i));
        lemma_within_aligned(text, header, widths[i] as nat, align_at(aligns, i));
        lemma_within_sum(before, seq![' ']);
        lemma_within_sum(before + seq![' '], cell);
        lemma_within_sum(before + seq![' '] + cell, seq![' ']);
        lemma_within_sum(before + seq![' '] + cell + seq![' '], vertical());
        let none = Seq::<char>::empty();
        assert(within_frame(before) + none =~= within_frame(before));
        assert(within_frame(before) + within_frame(text) + none + none =~= within_frame(before)
            + within_frame(text));
        assert(line_parts(columns, line, n) =~= line_parts(columns, line, i as nat).push(
            within_frame(text),
        ));
        lemma_flat_push(line_parts(columns, line, i as nat), within_frame(text));
    }
}

proof fn lemma_within_lines(
    columns: Seq<Seq<Seq<char>>>,
    widths: Seq<usize>,
    aligns: Seq<TableAlign>,
    header: bool,
    n: nat,
)
    ensures
        within_frame(row_lines(columns, widths, aligns, header, n)) == flat(
            all_parts(columns, widths.len(), n).map_values(|l: Seq<Seq<char>>| flat(l)),
        ),
    decreases n,
{
    let now = all_parts(columns, widths.len(), n).map_values(|l: Seq<Seq<char>>| flat(l));
    if n == 0 {
        assert(now =~= Seq::<Seq<char>>::empty());
    } else {
        let k = (n - 1) as nat;
        lemma_within_lines(columns, widths, aligns, header, k);
        lemma_within_line(columns, widths, aligns, header, k as int, widths.len());
        lemma_frame_marks();
        let before = row_lines(columns, widths, aligns, header, k);
        let line = row_line(columns, widths, aligns, header, k as int, widths.len());
        lemma_within_sum(before, line);
        lemma_within_sum(before + line, seq!['\n']);
        assert(within_frame(before) + within_frame(line) + Seq::<char>::empty() =~= within_frame(
            before,
        ) + within_frame(line));
        let old = all_parts(columns, widths.len(), k).map_values(|l: Seq<Seq<char>>| flat(l));
        assert(now =~= old.push(flat(line_parts(columns, k as int, widths.len()))));
        lemma_flat_push(old, flat(line_parts(columns, k as int, widths.len())));
    }
}

proof fn lemma_longest(columns: Seq<Seq<Seq<char>>>, i: int)
    requires
        0 <= i < columns.len(),
    ensures
        columns[i].len() <= longest(columns),
    decreases columns.len(),
{
    if i < columns.len() - 1 {
        lemma_longest(columns.drop_last(), i);
        assert(columns.drop_last()[i] == columns[i]);
    }
}

proof fn lemma_flat_cell_lines(parts: Seq<Seq<char>>, width: nat)
    ensures
        flat(wrapped_parts(parts, width)) == flat(parts),
    decreases parts.len(),
{
    if parts.len() > 0 {
        lemma_flat_cell_lines(parts.drop_last(), width);
        lemma_flat_sum(wrapped_parts(parts.drop_last(), width), wrapped(parts.last(), width));
        law_wrap_is_lossless(parts.last(), width);
        assert(parts =~= parts.drop_last().push(parts.last()));
        lemma_flat_push(parts.drop_last(), parts.last());
    }
}

proof fn lemma_flat_split(s: Seq<char>)
    ensures
        within_frame(flat(split_on(s, '\n'))) == within_frame(s),
    decreases s.len(),
{
    let n = crate::text::span(s, crate::text::other_than('\n')) as int;
    crate::text::lemma_span_bounds(s, crate::text::other_than('\n'));
    let none = Seq::<Seq<char>>::empty();
    assert(flat(none) =~= seq![]);
    if n < s.len() {
        let rest = s.subrange(n + 1, s.len() as int);
        lemma_flat_split(rest);
        let parts = split_on(s, '\n');
        assert(parts.skip(1) =~= split_on(rest, '\n'));
        assert(parts[0] == s.take(n));
        lemma_within_sum(s.take(n), flat(split_on(rest, '\n')));
        lemma_within_sum(s.take(n), seq!['\n'] + rest);
        lemma_within_sum(seq!['\n'], rest);
        lemma_frame_marks();
        assert(!crate::text::other_than('\n')(s[n]));
        assert(s =~= s.take(n) + (seq!['\n'] + rest));
        assert(Seq::<char>::empty() + within_frame(rest) =~= within_frame(rest));
    } else {
        assert(split_on(s, '\n') =~= seq![s]);
        assert(seq![s].skip(1) =~= none);
        assert(flat(seq![s]) =~= s);
    }
}

proof fn lemma_flat_column(lines: Seq<Seq<char>>, height: nat)
    requires
        lines.len() <= height,
    ensures
        flat(Seq::new(height, |k: int| within_frame(cell_at(lines, k)))) == within_frame(flat(lines)),
    decreases height,
{
    let now = Seq::new(height, |k: int| within_frame(cell_at(lines, k)));
    let none = Seq::<Seq<char>>::empty();
    assert(flat(none) =~= seq![]);
    if height == 0 {
        assert(now =~= none);
        assert(lines =~= none);
    } else {
        let h = (height - 1) as nat;
        let short = if lines.len() == height {
            lines.drop_last()
        } else {
            lines
        };
        lemma_flat_column(short, h);
        let old = Seq::new(h, |k: int| within_frame(cell_at(short, k)));
        let last = within_frame(cell_at(lines, h as int));
        assert(now =~= old.push(last)) by {
            assert forall|k: int| 0 <= k < h implies now[k] == old[k] by {
                assert(cell_at(lines, k) == cell_at(short, k));
            }
        }
        lemma_flat_push(old, last);
        if lines.len() == height {
            assert(lines =~= short.push(lines.last()));
            lemma_flat_push(short, lines.last());
            lemma_within_sum(flat(short), lines.last());
        } else {
            assert(last =~= Seq::<char>::empty());
            assert(flat(old) + last =~= flat(old));
        }
    }
}

/// A row loses nothing of its cells, whatever the widths: what stands on its lines, line by
/// line and from the left to the right, is for each column the whole of its cell, from its
/// start to its end. `r[k][i]` is what stands on line `k` in column `i`.
pub proof fn law_a_row_shows_the_whole_of_its_cells(
    row: Seq<Seq<char>>,
    widths: Seq<usize>,
    aligns: Seq<TableAlign>,
    header: bool,
) -> (r: Seq<Seq<Seq<char>>>)
    ensures
        within_frame(row_text(row, widths, aligns, header)) == flat(
            r.map_values(|l: Seq<Seq<char>>| flat(l)),
        ),
        forall|k: int| 0 <= k < r.len() ==> (#[trigger] r[k]).len() == widths.len(),
        forall|i: int|
            0 <= i < widths.len() && i < row.len() ==> flat(
                Seq::new(r.len(), |k: int| r[k][i]),
            ) == within_frame(#[trigger] row[i]),
{
    let columns = row_columns(row, widths);
    let height = row_height(columns);
    lemma_within_lines(columns, widths, aligns, header, height);
    let r = all_parts(columns, widths.len(), height);
    assert forall|i: int| 0 <= i < widths.len() && i < row.len() implies flat(
        Seq::new(r.len(), |k: int| r[k][i]),
    ) == within_frame(#[trigger] row[i]) by {
        let lines = columns[i];
        lemma_longest(columns, i);
        lemma_flat_column(lines, height);
        assert(Seq::new(r.len(), |k: int| r[k][i]) =~= Seq::new(
            height,
            |k: int| within_frame(cell_at(lines, k)),
        ));
        lemma_flat_cell_lines(split_on(row[i], '\n'), widths[i] as nat);
        lemma_flat_split(row[i]);
    }
    r
}

/// A row of one cell reads as the cell does.
pub proof fn law_a_single_cell_reads_in_order(
    cell: Seq<char>,
    width: usize,
    aligns: Seq<TableAlign>,
    header: bool,
)
    ensures
        within_frame(row_text(seq![cell], seq![width], aligns, header)) == within_frame(cell),
{
    let row = seq![cell];
    let r = law_a_row_shows_the_whole_of_its_cells(row, seq![width], aligns, header);
    assert(row[0] == cell);
    let column = Seq::new(r.len(), |k: int| r[k][0]);
    assert(r.map_values(|l: Seq<Seq<char>>| flat(l)) =~= column) by {
        assert forall|k: int| 0 <= k < r.len() implies flat(#[trigger] r[k]) == column[k] by {
            assert(r[k].len() == 1);
            assert(r[k] =~= Seq::<Seq<char>>::empty().push(r[k][0]));
            lemma_flat_push(Seq::<Seq<char>>::empty(), r[k][0]);
            assert(flat(Seq::<Seq<char>>::empty()) =~= seq![]);
            assert(flat(r[k]) =~= r[k][0]);
        }
    }
}

proof fn lemma_within_border(widths: Seq<usize>, left: char, mid: char, right: char)
    requires
        is_frame(left),
        is_frame(mid),
        is_frame(right),
    ensures
        within_frame(border_text(widths, left, mid, right)) == Seq::<char>::empty(),
{
    lemma_frame_marks();
    lemma_within_parts(widths, mid, right, widths.len());
    let parts = border_parts(widths, mid, right, widths.len());
    let none = Seq::<char>::empty();
    lemma_all_frame(seq![left]);
    lemma_within_sum("\x1b[2m"@, seq![left]);
    lemma_within_sum("\x1b[2m"@ + seq![left], parts);
    lemma_within_sum("\x1b[2m"@ + seq![left] + parts, "\x1b[0m\n"@);
    assert(none + none + none + none =~= none);
}

proof fn lemma_within_parts(widths: Seq<usize>, mid: char, right: char, n: nat)
    requires
        is_frame(mid),
        is_frame(right),
    ensures
        within_frame(border_parts(widths, mid, right, n)) == Seq::<char>::empty(),
    decreases n,
{
    let none = Seq::<char>::empty();
    if n > 0 {
        lemma_within_parts(widths, mid, right, (n - 1) as nat);
        let before = border_parts(widths, mid, right, (n - 1) as nat);
        let rule = repeated('─', widths[n - 1] as int + 2);
        let end = seq![
            if n == widths.len() {
                right
            } else {
                mid
            },
        ];
        lemma_all_frame(rule);
        lemma_all_frame(end);
        lemma_within_sum(before, rule);
        lemma_within_sum(before + rule, end);
        assert(none + none + none =~= none);
    }
}

proof fn lemma_within_rows(
    rows: Seq<Seq<Seq<char>>>,
    widths: Seq<usize>,
    aligns: Seq<TableAlign>,
    bold: bool,
    n: nat,
)
    ensures
        within_frame(table_rows(rows, widths, aligns, bold, n)) == flat(
            Seq::new(n, |i: int| within_frame(row_text(rows[i], widths, aligns, bold && i == 0))),
        ),
    decreases n,
{
    let now = Seq::new(n, |i: int| within_frame(row_text(rows[i], widths, aligns, bold && i == 0)));
    if n == 0 {
        assert(now =~= Seq::<Seq<char>>::empty());
    } else {
        let k = (n - 1) as nat;
        lemma_within_rows(rows, widths, aligns, bold, k);
        let old = Seq::new(
            k,
            |i: int| within_frame(row_text(rows[i], widths, aligns, bold && i == 0)),
        );
        let before = table_rows(rows, widths, aligns, bold, k);
        let row = row_text(rows[k as int], widths, aligns, bold && n == 1);
        let none = Seq::<char>::empty();
        let rule = if n < rows.len() {
            border_text(widths, '├', '┼', '┤')
        } else {
            none
        };
        lemma_within_border(widths, '├', '┼', '┤');
        lemma_within_sum(before, row);
        lemma_within_sum(before + row, rule);
        assert(within_frame(rule) =~= none);
        assert(within_frame(before) + within_frame(row) + none =~= within_frame(before)
            + within_frame(row));
        assert(now =~= old.push(within_frame(row)));
        lemma_flat_push(old, within_frame(row));
    }
}

/// A table loses nothing of its rows and keeps their order: there is a column for every
/// cell, and what stands in the table is what stands in its rows, one after another.
pub proof fn law_a_table_shows_all_its_rows(
    lines: Seq<Seq<char>>,
    cells: Seq<Seq<Seq<char>>>,
    bold: bool,
    content_cols: nat,
) -> (r: (Seq<usize>, Seq<TableAlign>))
    ensures
        within_frame(table_text(lines, cells, bold, content_cols)) == flat(
            Seq::new(
                cells.len(),
                |i: int| within_frame(row_text(cells[i], r.0, r.1, bold && i == 0)),
            ),
        ),
        forall|i: int| 0 <= i < cells.len() ==> (#[trigger] cells[i]).len() <= r.0.len(),
{
    let widths = fitted(natural_widths(cells), content_cols);
    let aligns = table_aligns(lines);
    law_widths_fit(natural_widths(cells), content_cols);
    lemma_within_rows(cells, widths, aligns, bold, cells.len());
    lemma_within_border(widths, '┌', '┬', '┐');
    lemma_within_border(widths, '└', '┴', '┘');
    let top = border_text(widths, '┌', '┬', '┐');
    let rows = table_rows(cells, widths, aligns, bold, cells.len());
    let none = Seq::<char>::empty();
    lemma_within_sum(top, rows);
    lemma_within_sum(top + rows, border_text(widths, '└', '┴', '┘'));
    assert(none + within_frame(rows) + none =~= within_frame(rows));
    assert forall|i: int| 0 <= i < cells.len() implies (#[trigger] cells[i]).len()
        <= widths.len() by {
        lemma_longest(cells, i);
    }
    (widths, aligns)
}

/// How many rows of dashes, colons and bars a table has decides nothing of its cells: every
/// line that is none of these gives a row, in the order of the lines.
pub proof fn law_every_line_of_cells_gives_a_row(lines: Seq<Seq<char>>, more: Seq<Seq<char>>)
    ensures
        written_cells(lines + more) == written_cells(lines) + written_cells(more),
        lines.len() == 1 && is_separator_line(lines[0]) ==> written_cells(lines).len() == 0,
        lines.len() == 1 && !is_separator_line(lines[0]) ==> written_cells(lines) == seq![
            cells_of(lines[0]),
        ],
    decreases more.len(),
{
    if more.len() == 0 {
        assert(lines + more =~= lines);
        assert(written_cells(more) =~= Seq::<Seq<Seq<char>>>::empty());
        assert(written_cells(lines) + written_cells(more) =~= written_cells(lines));
    } else {
        law_every_line_of_cells_gives_a_row(lines, more.drop_last());
        assert((lines + more).drop_last() =~= lines + more.drop_last());
        let a = data_lines(lines);
        let b = data_lines(more.drop_last());
        lemma_data_lines(lines, more.drop_last());
        lemma_data_lines(lines, more);
        assert(written_cells(lines + more) =~= written_cells(lines) + written_cells(more));
    }
    if lines.len() == 1 {
        assert(lines.drop_last() =~= Seq::<Seq<char>>::empty());
        assert(data_lines(lines.drop_last()) =~= Seq::<Seq<char>>::empty());
        if !is_separator_line(lines[0]) {
            assert(data_lines(lines) =~= seq![lines[0]]);
            assert(written_cells(lines) =~= seq![cells_of(lines[0])]);
        }
    }
}

proof fn lemma_data_lines(a: Seq<Seq<char>>, b: Seq<Seq<char>>)
    ensures
        data_lines(a + b) == data_lines(a) + data_lines(b),
    decreases b.len(),
{
    if b.len() == 0 {
        assert(a + b =~= a);
        assert(data_lines(a) + data_lines(b) =~= data_lines(a));
    } else {
        lemma_data_lines(a, b.drop_last());
        assert((a + b).drop_last() =~= a + b.drop_last());
        assert(data_lines(a + b) =~= data_lines(a) + data_lines(b));
    }
}

/// The cells of a line hold no bar and no white space at their ends; put together with bars
/// they are what stands between the outer bars, but for white space.
pub proof fn law_cells_of_a_line(line: Seq<char>)
    ensures
        cells_of(line).len() > 0,
        forall|i: int|
            0 <= i < cells_of(line).len() ==> {
                let c = #[trigger] cells_of(line)[i];
                &&& !c.contains('|')
                &&& c.len() > 0 ==> !crate::text::is_white(c[0]) && !crate::text::is_white(c.last())
            },
{
    let parts = split_on(without_bars(trim(line)), '|');
    crate::text::law_split_parts_join(without_bars(trim(line)), '|');
    assert forall|i: int| 0 <= i < cells_of(line).len() implies {
        let c = #[trigger] cells_of(line)[i];
        &&& !c.contains('|')
        &&& c.len() > 0 ==> !crate::text::is_white(c[0]) && !crate::text::is_white(c.last())
    } by {
        let ends = crate::text::law_trim_takes_only_white_space(parts[i]);
        let c = trim(parts[i]);
        if c.contains('|') {
            let k = choose|k: int| 0 <= k < c.len() && c[k] == '|';
            assert(parts[i][ends.0.len() + k] == '|');
            assert(parts[i].contains('|'));
        }
    }
}

/// A row written in the plain way has just the cells that were written.
pub proof fn law_a_plain_row_has_its_cells(a: Seq<char>, b: Seq<char>)
    requires
        !a.contains('|'),
        !b.contains('|'),
        a.len() > 0,
        b.len() > 0,
        trim(a) == a,
        trim(b) == b,
    ensures
        cells_of("| "@ + a + " | "@ + b + " |"@) == seq![a, b],
{
    let first = seq![' '] + a + seq![' '];
    let second = seq![' '] + b + seq![' '];
    let line = "| "@ + a + " | "@ + b + " |"@;
    lemma_plain_line(a, b);
    assert(!first.contains('|')) by {
        if first.contains('|') {
            let k = choose|k: int| 0 <= k < first.len() && first[k] == '|';
            assert(a[k - 1] == '|');
        }
    }
    assert(!second.contains('|')) by {
        if second.contains('|') {
            let k = choose|k: int| 0 <= k < second.len() && second[k] == '|';
            assert(b[k - 1] == '|');
        }
    }
    lemma_bars_around(first + seq!['|'] + second);
    crate::text::law_trimmed_stays(line);
    lemma_split_two(first, second);
    lemma_trim_blanks(a);
    lemma_trim_blanks(b);
    assert(cells_of(line) =~= seq![a, b]);
}

proof fn lemma_plain_line(a: Seq<char>, b: Seq<char>)
    ensures
        "| "@ + a + " | "@ + b + " |"@ == seq!['|'] + (seq![' '] + a + seq![' '] + seq!['|'] + (
        seq![' '] + b + seq![' '])) + seq!['|'],
{
    reveal_strlit("| ");
    reveal_strlit(" | ");
    reveal_strlit(" |");
    assert("| "@ =~= seq!['|', ' ']);
    assert(" | "@ =~= seq![' ', '|', ' ']);
    assert(" |"@ =~= seq![' ', '|']);
    assert(seq!['|', ' '] + a + seq![' ', '|', ' '] + b + seq![' ', '|'] =~= seq!['|'] + (seq![' ']
        + a + seq![' '] + seq!['|'] + (seq![' '] + b + seq![' '])) + seq!['|']);
}

proof fn lemma_bars_around(inner: Seq<char>)
    requires
        inner.len() > 0,
        inner[0] != '|',
        inner.last() != '|',
    ensures
        without_bars(seq!['|'] + inner + seq!['|']) == inner,
{
    let line = seq!['|'] + inner + seq!['|'];
    let rest = inner.push('|');
    assert(line.skip(1) =~= rest);
    assert(rest[0] == inner[0]);
    assert(rest.drop_last() =~= inner);
    assert(without_bars(inner) == inner);
    assert(without_bars(rest) == inner);
}

proof fn lemma_split_two(first: Seq<char>, second: Seq<char>)
    requires
        !first.contains('|'),
        !second.contains('|'),
    ensures
        split_on(first + seq!['|'] + second, '|') == seq![first, second],
{
    let inner = first + seq!['|'] + second;
    let p = crate::text::other_than('|');
    assert forall|j: int| 0 <= j < first.len() implies p(#[trigger] inner[j]) by {
        assert(first.contains(first[j]));
    }
    assert forall|j: int| 0 <= j < second.len() implies p(#[trigger] second[j]) by {
        assert(second.contains(second[j]));
    }
    crate::text::lemma_span(inner, p, first.len() as int);
    assert(inner.take(first.len() as int) =~= first);
    assert(inner.subrange(first.len() as int + 1, inner.len() as int) =~= second);
    crate::text::lemma_span(second, p, second.len() as int);
    assert(split_on(second, '|') =~= seq![second]);
    assert(split_on(inner, '|') =~= seq![first, second]);
}

proof fn lemma_trim_blanks(a: Seq<char>)
    requires
        trim(a) == a,
        a.len() > 0,
    ensures
        trim(seq![' '] + a + seq![' ']) == a,
{
    let s = seq![' '] + a + seq![' '];
    let ends = crate::text::law_trim_takes_only_white_space(a);
    let white = crate::text::white_class();
    assert(white(s[0]));
    assert(s[1] == a[0]);
    crate::text::lemma_span(s, white, 1);
    let rest = a.push(' ');
    assert(crate::text::trim_start(s) =~= rest);
    assert(rest.drop_last() =~= a);
    assert(crate::text::trim_end(rest) == crate::text::trim_end(a));
    assert(crate::text::trim_end(a) == a);
}

/// Colons at the ends of a cell of a rule say on which side its column stands: at both ends
/// the middle, at the end the right, and the left otherwise.
pub proof fn law_sides_of_columns(cell: Seq<char>)
    ensures
        align_of(seq!['-'] + cell + seq!['-']) == TableAlign::Left,
        align_of(seq![':'] + cell + seq!['-']) == TableAlign::Left,
        align_of(seq!['-'] + cell + seq![':']) == TableAlign::Right,
        align_of(seq![':'] + cell + seq![':']) == TableAlign::Center,
{
    assert((seq!['-'] + cell + seq!['-']).last() == '-');
    assert((seq![':'] + cell + seq!['-']).last() == '-');
    assert((seq!['-'] + cell + seq![':']).last() == ':');
    assert((seq![':'] + cell + seq![':']).last() == ':');
}

/// A cell that is narrower than its column has all the space behind it on the left side, all
/// of it before it on the right, and as much on either side in the middle, or one more
/// behind.
pub proof fn law_cells_stand_on_their_side(cell: Seq<char>, width: nat, align: TableAlign) -> (r: (
    int,
    int,
))
    requires
        seen(cell) <= width <= usize::MAX,
    ensures
        r.0 >= 0,
        r.1 >= 0,
        r.0 + r.1 + seen(cell) == width,
        aligned(cell, width, align) == repeated(' ', r.0) + cell + repeated(' ', r.1),
        align == TableAlign::Left ==> r.0 == 0,
        align == TableAlign::Right ==> r.1 == 0,
        align == TableAlign::Center ==> r.0 == r.1 || r.0 + 1 == r.1,
{
    let p = width - seen(cell);
    assert(repeated(' ', 0) =~= Seq::<char>::empty());
    match align {
        TableAlign::Left => {
            assert(repeated(' ', 0) + cell + repeated(' ', p) =~= cell + repeated(' ', p));
            (0, p)
        },
        TableAlign::Right => {
            assert(repeated(' ', p) + cell + repeated(' ', 0) =~= repeated(' ', p) + cell);
            (p, 0)
        },
        TableAlign::Center => (p / 2, p - p / 2),
    }
}

/// A column is never narrower than its widest cell unless the terminal is too narrow for
/// the columns together.
pub proof fn law_wide_terminals_keep_columns_whole(
    cells: Seq<Seq<Seq<char>>>,
    content_cols: nat,
    row: int,
    col: int,
)
    requires
        0 <= row < cells.len(),
        0 <= col < cells[row].len(),
        sum_of(natural_widths(cells)) <= room_for(natural_widths(cells).len(), content_cols),
    ensures
        col < fitted(natural_widths(cells), content_cols).len(),
        fitted(natural_widths(cells), content_cols)[col] >= cell_width(cells[row][col]),
{
    lemma_longest(cells, row);
    lemma_widest_cell(cells, row, col);
    lemma_column_width(cells, col);
}

proof fn lemma_widest_cell(rows: Seq<Seq<Seq<char>>>, row: int, col: int)
    requires
        0 <= row < rows.len(),
        0 <= col < rows[row].len(),
    ensures
        cell_width(rows[row][col]) <= column_width(rows, col),
    decreases rows.len(),
{
    if row < rows.len() - 1 {
        assert(rows.drop_last()[row] == rows[row]);
        lemma_widest_cell(rows.drop_last(), row, col);
    }
}

/// A task is marked by its status, and one without a status as one that is still to come.
pub proof fn law_tasks_are_marked(item: TodoItemModel, style: Seq<char>)
    ensures
        item.status == Some("completed"@) ==> has_prefix(todo_line(item, style), "| "@ + "[✔]"@),
        item.status == Some("in_progress"@) ==> has_prefix(todo_line(item, style), "| "@ + "[·]"@),
        item.status == Some("cancelled"@) ==> has_prefix(todo_line(item, style), "| "@ + "[×]"@),
        item.status == Some("pending"@) || item.status is None ==> has_prefix(
            todo_line(item, style),
            "| "@ + "[ ]"@,
        ),
{
    lemma_statuses();
    let status = given_or(item.status, "pending"@);
    let a = "| "@ + marker_of(status);
    let b = a + " "@;
    let shown = lemma_task_line(item, style);
    law_writing_on_loses_nothing(a, " "@);
    law_writing_on_loses_nothing(b, shown);
    law_writing_on_loses_nothing(b + shown, " |"@);
}

/// The words of a task are shown; only the one that is under way is shown in the style.
pub proof fn law_tasks_are_told(item: TodoItemModel, style: Seq<char>)
    ensures
        item.content is Some ==> occurs(todo_line(item, style), trim(cell_chars(item.content->0))),
        item.status == Some("in_progress"@) ==> occurs(todo_line(item, style), style),
        item.status != Some("in_progress"@) ==> todo_line(item, style) == todo_line(item, seq![]),
{
    lemma_statuses();
    let status = given_or(item.status, "pending"@);
    let cell = trim(cell_chars(given_or(item.content, ""@)));
    let b = "| "@ + marker_of(status) + " "@;
    let shown = lemma_task_line(item, style);
    let none = Seq::<char>::empty();
    if status == "in_progress"@ {
        law_a_part_occurs(none, style, cell + "\x1b[0m"@);
        assert(none + style + (cell + "\x1b[0m"@) =~= shown);
        law_a_part_occurs(style, cell, "\x1b[0m"@);
        law_occurs_in_more(b, shown, " |"@, style);
        law_occurs_in_more(b, shown, " |"@, cell);
    } else {
        law_a_part_occurs(b, cell, " |"@);
    }
}

proof fn lemma_task_line(item: TodoItemModel, style: Seq<char>) -> (shown: Seq<char>)
    ensures
        ({
            let status = given_or(item.status, "pending"@);
            let cell = trim(cell_chars(given_or(item.content, ""@)));
            &&& todo_line(item, style) == "| "@ + marker_of(status) + " "@ + shown + " |"@
            &&& status == "in_progress"@ ==> shown == style + cell + "\x1b[0m"@
            &&& status != "in_progress"@ ==> shown == cell
        }),
{
    let status = given_or(item.status, "pending"@);
    let cell = trim(cell_chars(given_or(item.content, ""@)));
    if status == "in_progress"@ {
        style + cell + "\x1b[0m"@
    } else {
        cell
    }
}

proof fn lemma_statuses()
    ensures
        "completed"@ != "in_progress"@,
        "completed"@ != "cancelled"@,
        "completed"@ != "pending"@,
        "in_progress"@ != "cancelled"@,
        "in_progress"@ != "pending"@,
        "cancelled"@ != "pending"@,
{
    reveal_strlit("completed");
    reveal_strlit("in_progress");
    reveal_strlit("cancelled");
    reveal_strlit("pending");
    assert("completed"@.len() == 9 && "in_progress"@.len() == 11 && "cancelled"@.len() == 9
        && "pending"@.len() == 7);
    assert("completed"@[1] != "cancelled"@[1]);
}

/// Every task has its line, in the order of the list, below the title.
pub proof fn law_every_task_has_its_line(
    todos: Seq<TodoItemModel>,
    title: Seq<char>,
    none: Seq<char>,
    style: Seq<char>,
)
    ensures
        ({
            let t = todo_table(todos, title, none, style);
            &&& t[0] == "| "@ + title + " |"@
            &&& is_separator_line(t[1])
            &&& todos.len() > 0 ==> t.len() == todos.len() + 2
            &&& todos.len() == 0 ==> t.len() == 3 && t[2] == "| "@ + none + " |"@
            &&& forall|i: int|
                0 <= i < todos.len() ==> #[trigger] t[i + 2] == todo_line(todos[i], style)
        }),
{
    reveal_strlit("|---|");
    let s = "|---|"@;
    let d = seq!['-', '-', '-'];
    crate::text::law_trimmed_stays(s);
    assert(s.skip(1) =~= seq!['-', '-', '-', '|']);
    assert(s.skip(1).drop_last() =~= d);
    assert(without_bars(d) == d);
    assert(without_bars(s.skip(1)) == d);
    assert(without_bars(s) == d);
    crate::text::law_trimmed_stays(d);
    assert(d[0] == '-');
}

/// A cell that is one formula is shown as that formula, every other cell as it is written.
pub proof fn law_formulas_in_cells(tex: Seq<char>, cell: Seq<char>, inline: Seq<char>, style: Seq<char>)
    ensures
        tex.len() > 0 && !tex.contains('$') ==> formula_of(seq!['$'] + tex + seq!['$']) == Some(tex),
        formula_of(seq!['\\', '('] + tex + seq!['\\', ')']) == Some(tex),
        cell.len() > 0 && cell[0] != '$' && cell[0] != '\\' ==> formula_of(cell) is None
            && shown_cell(cell, inline, style) == inline,
        tex.len() > 0 && !tex.contains('$') && trim(tex).len() > 0 ==> shown_cell(
            seq!['$'] + tex + seq!['$'],
            inline,
            style,
        ) == join(in_style(formula_lines(tex), style), "\n"@),
{
    let a = seq!['$'] + tex + seq!['$'];
    assert(a.subrange(1, a.len() - 1) =~= tex);
    let b = seq!['\\', '('] + tex + seq!['\\', ')'];
    assert(b.subrange(2, b.len() - 2) =~= tex);
    assert(b[0] == '\\');
}

/// A row of a table stands between bars, and every line of a formula keeps its style.
pub proof fn law_rows_stand_between_bars(s: Seq<char>, l: Seq<Seq<char>>, style: Seq<char>, i: int)
    ensures
        is_row_line(seq!['|'] + s + seq!['|']),
        s.len() > 0 && !is_white(s[0]) && !is_white(s.last()) && s[0] != '|' ==> !is_row_line(s),
        in_style(l, style).len() == l.len(),
        0 <= i < l.len() ==> in_style(l, style)[i] == style + l[i] + "\x1b[0m"@,
{
    let t = seq!['|'] + s + seq!['|'];
    law_plain_white_space('|');
    assert(t[0] == '|' && t.last() == '|');
    law_trimmed_stays(t);
    if s.len() > 0 && !is_white(s[0]) && !is_white(s.last()) {
        law_trimmed_stays(s);
    }
}

/// A text in a cell never breaks its row: bars are escaped, lines are joined, and everything
/// else stays.
pub proof fn law_cells_do_not_break_their_row(s: Seq<char>, c: char)
    ensures
        c != '|' && c != '\n' ==> cell_chars(s.push(c)) == cell_chars(s).push(c),
        c == '|' ==> cell_chars(s.push(c)) == cell_chars(s).push('\\').push('|'),
        c == '\n' ==> cell_chars(s.push(c)) == cell_chars(s).push(' '),
        cell_chars(Seq::empty()).len() == 0,
        !cell_chars(s).contains('\n'),
    decreases s.len(),
{
    assert(s.push(c).drop_last() =~= s);
    assert(cell_chars(s) + seq![c] =~= cell_chars(s).push(c));
    assert(cell_chars(s) + seq!['\\', '|'] =~= cell_chars(s).push('\\').push('|'));
    assert(cell_chars(s) + seq![' '] =~= cell_chars(s).push(' '));
    if s.len() > 0 {
        law_cells_do_not_break_their_row(s.drop_last(), s.last());
        let before = cell_chars(s.drop_last());
        let now = cell_char(s.last());
        assert(cell_chars(s) == before + now);
        if cell_chars(s).contains('\n') {
            let k = choose|k: int| 0 <= k < cell_chars(s).len() && cell_chars(s)[k] == '\n';
            if k < before.len() {
                assert(before[k] == '\n');
            } else {
                assert(now[k - before.len()] == '\n');
            }
        }
    }
}

/// A column is never narrower than can be read: the fewer there are, the wider.
pub proof fn law_columns_stay_readable(cols: nat)
    ensures
        cols == 1 ==> readable_min(cols) == 16,
        cols == 2 ==> readable_min(cols) == 14,
        cols == 3 || cols == 4 ==> readable_min(cols) == 10,
        cols >= 5 ==> readable_min(cols) == 8,
        cols >= 1 ==> readable_min(cols) >= readable_min((cols + 1) as nat),
{
}

} // verus!
