//! Formulas as text: on one line, or with fractions one above the other.

use crate::render::symbols::{
    subscript, subscript_of, superscript, superscript_of, symbol_for, symbol_of,
};
use crate::text::{
    chars_of, has_prefix, ink_class, is_empty_text, is_white, join, joined, law_a_part_occurs,
    law_writing_on_loses_nothing, lemma_span, lemma_span_bounds, lines, occurs, same, slice_text, span, text_lines, text_words, texts, trim, trim_end, trimmed,
    trimmed_right, words,
};
use vstd::prelude::*;
use vstd::string::*;

verus! {

/// How deep the braces of a formula may go.
pub const MAX_MATH_NESTING: usize = 64;

// ---------------------------------------------------------------------------
// Widths

/// A number, at most the largest `usize`.
pub open spec fn bounded(n: int) -> nat {
    if n > usize::MAX {
        usize::MAX as nat
    } else {
        n as nat
    }
}

/// How many columns a character takes.
pub open spec fn char_width(c: char) -> nat {
    if c as u32 >= 0x2e80 {
        2
    } else {
        1
    }
}

/// How many columns a character takes: two from the CJK radicals on, one before.
pub fn char_display_width(c: char) -> (r: usize)
    ensures
        r == char_width(c),
{
    if c as u32 >= 0x2e80 {
        2
    } else {
        1
    }
}

/// How many columns a text takes.
pub open spec fn width_of(s: Seq<char>) -> nat
    decreases s.len(),
{
    if s.len() == 0 {
        0
    } else {
        bounded((width_of(s.drop_last()) + char_width(s.last())) as int)
    }
}

/// How many columns a text takes.
pub fn text_display_width(text: &str) -> (r: usize)
    ensures
        r == width_of(text@),
{
    let v: Vec<char> = chars_of(text);
    let mut n: usize = 0;
    let mut i: usize = 0;
    assert(v@.take(0) =~= seq![]);
    while i < v.len()
        invariant
            i <= v.len(),
            n == width_of(v@.take(i as int)),
        decreases v.len() - i,
    {
        assert(v@.take(i + 1).drop_last() =~= v@.take(i as int));
        n = n.saturating_add(char_display_width(v[i]));
        i += 1;
    }
    assert(v@.take(v.len() as int) =~= text@);
    n
}

/// So many characters of one kind.
pub open spec fn repeated(c: char, n: int) -> Seq<char> {
    Seq::new(
        (if n < 0 {
            0
        } else {
            n
        }) as nat,
        |i: int| c,
    )
}

/// So many characters of one kind.
pub fn repeat_char(c: char, n: usize) -> (r: String)
    ensures
        r@ == repeated(c, n as int),
{
    let mut out: String = String::new();
    let mut i: usize = 0;
    while i < n
        invariant
            i <= n,
            out@ =~= repeated(c, i as int),
        decreases n - i,
    {
        out.push(c);
        i += 1;
    }
    out
}

/// A line filled up with spaces to a width.
pub open spec fn padded(line: Seq<char>, width: nat) -> Seq<char> {
    line + repeated(' ', width - width_of(line))
}

/// A line filled up with spaces to a width.
pub fn pad_to_width(line: &str, width: usize) -> (r: String)
    ensures
        r@ == padded(line@, width as nat),
{
    let current: usize = text_display_width(line);
    let mut out: String = line.to_owned();
    let fill: String = repeat_char(' ', width.saturating_sub(current));
    out.append(&fill);
    assert(out@ =~= padded(line@, width as nat));
    out
}

/// A line in the middle of a width.
pub open spec fn centered(line: Seq<char>, width: nat) -> Seq<char> {
    let total = if width > width_of(line) {
        width - width_of(line)
    } else {
        0
    };
    repeated(' ', total / 2) + line + repeated(' ', total - total / 2)
}

/// A line in the middle of a width.
pub fn center_to_width(line: &str, width: usize) -> (r: String)
    ensures
        r@ == centered(line@, width as nat),
{
    let current: usize = text_display_width(line);
    let total: usize = width.saturating_sub(current);
    let left: usize = total / 2;
    let mut out: String = repeat_char(' ', left);
    out.append(line);
    let fill: String = repeat_char(' ', total - left);
    out.append(&fill);
    out
}

// ---------------------------------------------------------------------------
// Brackets

/// How deep the braces go: the depth after the first `n` characters, and the
/// greatest before.
pub open spec fn brace_depth(c: Seq<char>, n: nat) -> (nat, nat)
    decreases n,
{
    if n == 0 {
        (0, 0)
    } else {
        let before = brace_depth(c, (n - 1) as nat);
        if c[n - 1] == '{' {
            let now = before.0 + 1;
            (
                now,
                if now > before.1 {
                    now
                } else {
                    before.1
                },
            )
        } else if c[n - 1] == '}' {
            (
                if before.0 > 0 {
                    (before.0 - 1) as nat
                } else {
                    0
                },
                before.1,
            )
        } else {
            before
        }
    }
}

/// How deep the braces of a formula go.
pub fn max_brace_depth(c: &Vec<char>) -> (r: usize)
    ensures
        r == brace_depth(c@, c.len() as nat).1,
{
    let mut depth: usize = 0;
    let mut most: usize = 0;
    let mut i: usize = 0;
    while i < c.len()
        invariant
            i <= c.len(),
            depth <= i,
            brace_depth(c@, i as nat) == (depth as nat, most as nat),
        decreases c.len() - i,
    {
        if c[i] == '{' {
            depth += 1;
            if depth > most {
                most = depth;
            }
        } else if c[i] == '}' {
            if depth > 0 {
                depth -= 1;
            }
        }
        i += 1;
    }
    most
}

/// A character that parts a formula.
pub open spec fn is_separator(c: char) -> bool {
    c == '+' || c == '-' || c == '*' || c == '/' || c == '=' || c == '<' || c == '>' || c == ',' || c
        == ';' || c == ':' || c == '(' || c == ')' || c == '[' || c == ']' || c == '|' || c == ' ' || c
        == '±' || c == '∓' || c == '×' || c == '÷' || c == '·'
}

fn char_is_separator(c: char) -> (r: bool)
    ensures
        r == is_separator(c),
{
    c == '+' || c == '-' || c == '*' || c == '/' || c == '=' || c == '<' || c == '>' || c == ',' || c
        == ';' || c == ':' || c == '(' || c == ')' || c == '[' || c == ']' || c == '|' || c == ' ' || c
        == '±' || c == '∓' || c == '×' || c == '÷' || c == '·'
}

/// Whether nothing parts a text.
pub open spec fn is_atom(s: Seq<char>) -> bool {
    s.len() <= 1 || forall|i: int| 0 <= i < s.len() ==> !is_separator(#[trigger] s[i])
}

/// How many parentheses are open after the first `n` characters.
pub open spec fn open_after(s: Seq<char>, n: nat) -> int
    decreases n,
{
    if n == 0 {
        0
    } else {
        open_after(s, (n - 1) as nat) + (if s[n - 1] == '(' {
            1int
        } else if s[n - 1] == ')' {
            -1
        } else {
            0
        })
    }
}

/// Whether one pair of parentheses stands around the whole text.
pub open spec fn is_wrapped(s: Seq<char>) -> bool {
    &&& s.len() >= 2
    &&& s[0] == '('
    &&& s.last() == ')'
    &&& forall|n: int| 0 < n < s.len() ==> #[trigger] open_after(s, n as nat) > 0
}

/// A text that stands as one: with parentheses where something parts it.
pub open spec fn as_one(s: Seq<char>) -> Seq<char> {
    if is_atom(s) || is_wrapped(s) {
        s
    } else {
        "("@ + s + ")"@
    }
}

/// A text that stands as one: with parentheses where something parts it and no pair
/// stands around it already.
pub fn parenthesize(s: &str) -> (r: String)
    ensures
        r@ == as_one(s@),
{
    let v: Vec<char> = chars_of(s);
    let mut atom: bool = true;
    if v.len() > 1 {
        let mut i: usize = 0;
        while i < v.len()
            invariant
                i <= v.len(),
                v@ == s@,
                atom == forall|j: int| 0 <= j < i ==> !is_separator(#[trigger] s@[j]),
            decreases v.len() - i,
        {
            if char_is_separator(v[i]) {
                assert(is_separator(s@[i as int]));
                atom = false;
            }
            i += 1;
        }
    }
    if atom {
        return s.to_owned();
    }
    let mut wrapped: bool = v[0] == '(' && v[v.len() - 1] == ')';
    let mut open: i128 = 0;
    let mut k: usize = 0;
    while k + 1 < v.len()
        invariant
            v.len() >= 2,
            k + 1 <= v.len(),
            v@ == s@,
            -(k as int) <= open <= k,
            open == open_after(s@, k as nat),
            wrapped == (s@[0] == '(' && s@.last() == ')' && forall|n: int|
                0 < n <= k ==> #[trigger] open_after(s@, n as nat) > 0),
        decreases v.len() - k,
    {
        if v[k] == '(' {
            open = open + 1;
        } else if v[k] == ')' {
            open = open - 1;
        }
        let ghost was = wrapped;
        k += 1;
        proof {
            let n: int = k as int;
            assert(open_after(s@, n as nat) == open);
            if was && open > 0 {
                assert forall|m: int| 0 < m <= k implies #[trigger] open_after(s@, m as nat) > 0 by {
                    if m < k {
                        assert(open_after(s@, m as nat) > 0);
                    }
                }
            }
        }
        if open <= 0 {
            wrapped = false;
        }
    }
    if wrapped {
        return s.to_owned();
    }
    let mut out: String = "(".to_owned();
    out.append(s);
    out.append(")");
    out
}

/// The characters of a text raised or lowered, where all of them can be.
pub open spec fn all_scripted(s: Seq<char>, raised: bool) -> Option<Seq<char>>
    decreases s.len(),
{
    if s.len() == 0 {
        Some(seq![])
    } else {
        match all_scripted(s.drop_last(), raised) {
            None => None,
            Some(before) => match (if raised {
                superscript_of(s.last())
            } else {
                subscript_of(s.last())
            }) {
                Some(c) => Some(before.push(c)),
                None => None,
            },
        }
    }
}

/// A raised or lowered text: in its own characters where all of them can be, behind
/// a mark otherwise.
pub open spec fn scripted(content: Seq<char>, raised: bool) -> Seq<char> {
    let s = trim(content);
    match all_scripted(s, raised) {
        Some(t) => t,
        None => (if raised {
            "^"@
        } else {
            "_"@
        }) + as_one(s),
    }
}

proof fn lemma_not_scripted(s: Seq<char>, n: int, raised: bool)
    requires
        0 <= n <= s.len(),
        all_scripted(s.take(n), raised) is None,
    ensures
        all_scripted(s, raised) is None,
    decreases s.len() - n,
{
    if n < s.len() {
        assert(s.take(n + 1).drop_last() =~= s.take(n));
        lemma_not_scripted(s, n + 1, raised);
    } else {
        assert(s.take(n) =~= s);
    }
}

/// A raised or lowered text.
pub fn to_script(content: &str, raised: bool) -> (r: String)
    ensures
        r@ == scripted(content@, raised),
{
    let s: String = trimmed(content);
    let v: Vec<char> = chars_of(&s);
    let mut out: String = String::new();
    let mut i: usize = 0;
    assert(v@.take(0) =~= seq![]);
    assert(out@ =~= seq![]);
    while i < v.len()
        invariant
            i <= v.len(),
            v@ == s@,
            s@ == trim(content@),
            all_scripted(v@.take(i as int), raised) == Some(out@),
        decreases v.len() - i,
    {
        assert(v@.take(i + 1).drop_last() =~= v@.take(i as int));
        let c: Option<char> = if raised { superscript(v[i]) } else { subscript(v[i]) };
        match c {
            Some(x) => {
                out.push(x);
            }
            None => {
                proof {
                    lemma_not_scripted(v@, i + 1, raised);
                }
                let mut marked: String = if raised { "^".to_owned() } else { "_".to_owned() };
                let one: String = parenthesize(&s);
                marked.append(&one);
                return marked;
            }
        }
        i += 1;
    }
    assert(v@.take(v.len() as int) =~= s@);
    out
}

// ---------------------------------------------------------------------------
// The grammar

/// An ASCII letter.
pub open spec fn is_letter(c: char) -> bool {
    ('a' <= c && c <= 'z') || ('A' <= c && c <= 'Z')
}

pub open spec fn letter_class() -> spec_fn(char) -> bool {
    |c: char| is_letter(c)
}

/// The name of the command at `at`: the letters that stand there.
pub open spec fn name_at(c: Seq<char>, at: int) -> Seq<char> {
    let rest = c.skip(at);
    rest.take(span(rest, letter_class()) as int)
}

/// Where what follows a command starts: behind its name, and behind one space.
pub open spec fn after_name(c: Seq<char>, at: int) -> int {
    let end = at + name_at(c, at).len();
    if end < c.len() && c[end] == ' ' {
        end + 1
    } else {
        end
    }
}

/// What a character behind a backslash stands for.
pub open spec fn escaped(c: char) -> Seq<char> {
    if c == ',' || c == ';' || c == ':' || c == ' ' || c == '\\' {
        seq![' ']
    } else if c == '!' {
        seq![]
    } else if c == '|' {
        seq!['‖']
    } else {
        seq![c]
    }
}

/// Whether a command makes a fraction.
pub open spec fn is_frac(name: Seq<char>) -> bool {
    name == "frac"@ || name == "dfrac"@ || name == "tfrac"@
}

/// Whether a command only sets the letters of its content.
pub open spec fn is_lettering(name: Seq<char>) -> bool {
    name == "operatorname"@ || name == "text"@ || name == "mathrm"@ || name == "mathbf"@ || name
        == "mathit"@ || name == "mathcal"@ || name == "mathbb"@ || name == "mathsf"@ || name
        == "boldsymbol"@ || name == "mbox"@
}

/// Whether a command only sets the size of what follows.
pub open spec fn is_sizing(name: Seq<char>) -> bool {
    name == "left"@ || name == "right"@ || name == "big"@ || name == "Big"@ || name == "bigl"@ || name
        == "bigr"@ || name == "displaystyle"@ || name == "limits"@
}

/// Whether a command makes a space.
pub open spec fn is_spacing(name: Seq<char>) -> bool {
    name == "quad"@ || name == "qquad"@
}

/// The text of a formula from `at` up to `stop`, and where it ends.
pub open spec fn sequence_text(c: Seq<char>, at: int, stop: Option<char>) -> (Seq<char>, int)
    decreases c.len() - at, 1int,
{
    if at < 0 || at >= c.len() {
        (seq![], at)
    } else if stop == Some(c[at]) {
        (seq![], at + 1)
    } else {
        let p = item_text(c, at);
        if at < p.1 <= c.len() {
            let rest = sequence_text(c, p.1, stop);
            (p.0 + rest.0, rest.1)
        } else {
            p
        }
    }
}

/// The text of what stands at `at`, and where it ends.
pub open spec fn item_text(c: Seq<char>, at: int) -> (Seq<char>, int)
    decreases c.len() - at, 0int,
{
    if at < 0 || at >= c.len() {
        (seq![], at)
    } else if c[at] == '\\' {
        command_text(c, at + 1)
    } else if c[at] == '^' {
        let g = group_text(c, at + 1);
        (scripted(g.0, true), g.1)
    } else if c[at] == '_' {
        let g = group_text(c, at + 1);
        (scripted(g.0, false), g.1)
    } else if c[at] == '{' {
        sequence_text(c, at + 1, Some('}'))
    } else if c[at] == '\'' {
        (seq!['′'], at + 1)
    } else if c[at] == '~' {
        (seq![' '], at + 1)
    } else {
        (seq![c[at]], at + 1)
    }
}

/// The text of the command whose name starts at `at`, and where it ends.
pub open spec fn command_text(c: Seq<char>, at: int) -> (Seq<char>, int)
    decreases c.len() - at, 0int,
{
    if at < 0 || at >= c.len() {
        (seq!['\\'], at)
    } else {
        let name = name_at(c, at);
        let end = after_name(c, at);
        if name.len() == 0 {
            (escaped(c[at]), at + 1)
        } else if !(at < end <= c.len()) {
            (seq![], at)
        } else if is_frac(name) {
            let a = group_text(c, end);
            if end <= a.1 <= c.len() {
                let b = group_text(c, a.1);
                (as_one(trim(a.0)) + "/"@ + as_one(trim(b.0)), b.1)
            } else {
                a
            }
        } else if name == "sqrt"@ {
            let a = group_text(c, end);
            ("√"@ + as_one(trim(a.0)), a.1)
        } else if is_lettering(name) {
            group_text(c, end)
        } else if is_sizing(name) {
            (seq![], end)
        } else if is_spacing(name) {
            (seq![' '], end)
        } else {
            match symbol_of(name) {
                Some(s) => (s, end),
                None => (seq!['\\'] + name, end),
            }
        }
    }
}

/// The text of the argument at `at`, and where it ends: what is in braces, a
/// command, or one character.
pub open spec fn group_text(c: Seq<char>, at: int) -> (Seq<char>, int)
    decreases c.len() - at, 0int,
{
    if at < 0 || at >= c.len() {
        (seq![], at)
    } else if c[at] == '{' {
        sequence_text(c, at + 1, Some('}'))
    } else if c[at] == '\\' {
        command_text(c, at + 1)
    } else {
        (seq![c[at]], at + 1)
    }
}

proof fn lemma_name(c: Seq<char>, at: int)
    requires
        0 <= at <= c.len(),
    ensures
        at + name_at(c, at).len() <= after_name(c, at) <= c.len(),
{
    lemma_span_bounds(c.skip(at), letter_class());
}

proof fn lemma_sequence_end(c: Seq<char>, at: int, stop: Option<char>)
    requires
        0 <= at <= c.len(),
    ensures
        at <= sequence_text(c, at, stop).1 <= c.len(),
    decreases c.len() - at, 1int,
{
    if at < c.len() && stop != Some(c[at]) {
        lemma_item_end(c, at);
        let p = item_text(c, at);
        lemma_sequence_end(c, p.1, stop);
    }
}

proof fn lemma_item_end(c: Seq<char>, at: int)
    requires
        0 <= at < c.len(),
    ensures
        at < item_text(c, at).1 <= c.len(),
    decreases c.len() - at, 0int,
{
    if c[at] == '\\' {
        lemma_command_end(c, at + 1);
    } else if c[at] == '^' || c[at] == '_' {
        lemma_group_end(c, at + 1);
    } else if c[at] == '{' {
        lemma_sequence_end(c, at + 1, Some('}'));
    }
}

proof fn lemma_command_end(c: Seq<char>, at: int)
    requires
        0 <= at <= c.len(),
    ensures
        at <= command_text(c, at).1 <= c.len(),
    decreases c.len() - at, 0int,
{
    if at < c.len() {
        lemma_name(c, at);
        let name = name_at(c, at);
        let end = after_name(c, at);
        if name.len() > 0 {
            lemma_group_end(c, end);
            let a = group_text(c, end);
            lemma_group_end(c, a.1);
        }
    }
}

proof fn lemma_group_end(c: Seq<char>, at: int)
    requires
        0 <= at <= c.len(),
    ensures
        at <= group_text(c, at).1 <= c.len(),
    decreases c.len() - at, 0int,
{
    if at < c.len() {
        if c[at] == '{' {
            lemma_sequence_end(c, at + 1, Some('}'));
        } else if c[at] == '\\' {
            lemma_command_end(c, at + 1);
        }
    }
}

/// The name of the command at `at`, and where what follows it starts; nothing where
/// no letter stands there.
pub fn peek_command_name(c: &Vec<char>, at: usize) -> (r: Option<(String, usize)>)
    requires
        at <= c.len(),
    ensures
        match r {
            Some(x) => x.0@ == name_at(c@, at as int) && x.0@.len() > 0 && x.1 == after_name(
                c@,
                at as int,
            ) && at < x.1 <= c.len(),
            None => name_at(c@, at as int).len() == 0,
        },
{
    let mut hi: usize = at;
    while hi < c.len() && (('a' <= c[hi] && c[hi] <= 'z') || ('A' <= c[hi] && c[hi] <= 'Z'))
        invariant
            at <= hi <= c.len(),
            forall|j: int| at <= j < hi ==> is_letter(#[trigger] c@[j]),
        decreases c.len() - hi,
    {
        hi += 1;
    }
    let ghost rest = c@.skip(at as int);
    proof {
        assert forall|j: int| 0 <= j < hi - at implies letter_class()(#[trigger] rest[j]) by {
            assert(is_letter(c@[at + j]));
        }
        lemma_span(rest, letter_class(), hi - at);
    }
    if hi == at {
        return None;
    }
    let name: String = slice_text(c, at, hi);
    assert(name@ =~= name_at(c@, at as int));
    let end: usize = if hi < c.len() && c[hi] == ' ' { hi + 1 } else { hi };
    Some((name, end))
}

fn convert_sequence(c: &Vec<char>, start: usize, stop: Option<char>) -> (r: (String, usize))
    requires
        start <= c.len(),
    ensures
        (r.0@, r.1 as int) == sequence_text(c@, start as int, stop),
        start <= r.1 <= c.len(),
    decreases c.len() - start, 1int,
{
    let mut out: String = String::new();
    let mut at: usize = start;
    let ghost whole = sequence_text(c@, start as int, stop);
    proof {
        lemma_sequence_end(c@, start as int, stop);
        assert(out@ + whole.0 =~= whole.0);
    }
    while at < c.len()
        invariant
            start <= at <= c.len(),
            whole == sequence_text(c@, start as int, stop),
            (out@ + sequence_text(c@, at as int, stop).0, sequence_text(c@, at as int, stop).1)
                == whole,
            start <= whole.1 <= c.len(),
        decreases c.len() - at,
    {
        if stop == Some(c[at]) {
            assert(out@ + Seq::<char>::empty() =~= out@);
            return (out, at + 1);
        }
        let ghost before = out@;
        let (piece, next): (String, usize) = convert_item(c, at);
        out.append(&piece);
        proof {
            let rest = sequence_text(c@, next as int, stop);
            assert(before + (piece@ + rest.0) =~= out@ + rest.0);
        }
        at = next;
    }
    assert(out@ + Seq::<char>::empty() =~= out@);
    (out, at)
}

fn convert_item(c: &Vec<char>, at: usize) -> (r: (String, usize))
    requires
        at < c.len(),
    ensures
        (r.0@, r.1 as int) == item_text(c@, at as int),
        at < r.1 <= c.len(),
    decreases c.len() - at, 0int,
{
    proof {
        lemma_item_end(c@, at as int);
    }
    let ch: char = c[at];
    if ch == '\\' {
        convert_command(c, at + 1)
    } else if ch == '^' {
        let (g, end): (String, usize) = read_group(c, at + 1);
        (to_script(&g, true), end)
    } else if ch == '_' {
        let (g, end): (String, usize) = read_group(c, at + 1);
        (to_script(&g, false), end)
    } else if ch == '{' {
        convert_sequence(c, at + 1, Some('}'))
    } else if ch == '\'' {
        (single('′'), at + 1)
    } else if ch == '~' {
        (single(' '), at + 1)
    } else {
        (single(ch), at + 1)
    }
}

fn single(c: char) -> (r: String)
    ensures
        r@ == seq![c],
{
    let mut s: String = String::new();
    s.push(c);
    assert(s@ =~= seq![c]);
    s
}

fn escape_text(c: char) -> (r: String)
    ensures
        r@ == escaped(c),
{
    if c == ',' || c == ';' || c == ':' || c == ' ' || c == '\\' {
        single(' ')
    } else if c == '!' {
        let s: String = String::new();
        assert(s@ =~= seq![]);
        s
    } else if c == '|' {
        single('‖')
    } else {
        single(c)
    }
}

fn names_frac(name: &str) -> (r: bool)
    ensures
        r == is_frac(name@),
{
    same(name, "frac") || same(name, "dfrac") || same(name, "tfrac")
}

fn names_lettering(name: &str) -> (r: bool)
    ensures
        r == is_lettering(name@),
{
    same(name, "operatorname") || same(name, "text") || same(name, "mathrm") || same(name, "mathbf")
        || same(name, "mathit") || same(name, "mathcal") || same(name, "mathbb") || same(
        name,
        "mathsf",
    ) || same(name, "boldsymbol") || same(name, "mbox")
}

fn names_sizing(name: &str) -> (r: bool)
    ensures
        r == is_sizing(name@),
{
    same(name, "left") || same(name, "right") || same(name, "big") || same(name, "Big") || same(
        name,
        "bigl",
    ) || same(name, "bigr") || same(name, "displaystyle") || same(name, "limits")
}

/// The text of the command whose name starts at `at`, and where it ends. A command
/// that is not known stays as it is written.
pub fn convert_command(c: &Vec<char>, at: usize) -> (r: (String, usize))
    requires
        at <= c.len(),
    ensures
        (r.0@, r.1 as int) == command_text(c@, at as int),
        at <= r.1 <= c.len(),
    decreases c.len() - at, 0int,
{
    proof {
        lemma_command_end(c@, at as int);
        lemma_name(c@, at as int);
    }
    if at == c.len() {
        return (single('\\'), at);
    }
    match peek_command_name(c, at) {
        None => (escape_text(c[at]), at + 1),
        Some(x) => {
            let (name, end): (String, usize) = x;
            if names_frac(&name) {
                let (a, mid): (String, usize) = read_group(c, end);
                let (b, last): (String, usize) = read_group(c, mid);
                let ta: String = trimmed(&a);
                let tb: String = trimmed(&b);
                let mut out: String = parenthesize(&ta);
                out.append("/");
                let lower: String = parenthesize(&tb);
                out.append(&lower);
                return (out, last);
            }
            if same(&name, "sqrt") {
                let (a, last): (String, usize) = read_group(c, end);
                let ta: String = trimmed(&a);
                let one: String = parenthesize(&ta);
                let mut out: String = "√".to_owned();
                out.append(&one);
                return (out, last);
            }
            if names_lettering(&name) {
                return read_group(c, end);
            }
            if names_sizing(&name) {
                let none: String = String::new();
                assert(none@ =~= seq![]);
                return (none, end);
            }
            if same(&name, "quad") || same(&name, "qquad") {
                return (single(' '), end);
            }
            match symbol_for(&name) {
                Some(s) => (s.to_owned(), end),
                None => {
                    let mut out: String = single('\\');
                    out.append(&name);
                    (out, end)
                }
            }
        }
    }
}

/// The text of the argument at `at`, and where it ends.
pub fn read_group(c: &Vec<char>, at: usize) -> (r: (String, usize))
    requires
        at <= c.len(),
    ensures
        (r.0@, r.1 as int) == group_text(c@, at as int),
        at <= r.1 <= c.len(),
    decreases c.len() - at, 0int,
{
    proof {
        lemma_group_end(c@, at as int);
    }
    if at == c.len() {
        let none: String = String::new();
        assert(none@ =~= seq![]);
        return (none, at);
    }
    if c[at] == '{' {
        convert_sequence(c, at + 1, Some('}'))
    } else if c[at] == '\\' {
        convert_command(c, at + 1)
    } else {
        (single(c[at]), at + 1)
    }
}

/// A formula on one line.
pub open spec fn formula_text(tex: Seq<char>) -> Seq<char> {
    if brace_depth(tex, tex.len()).1 > MAX_MATH_NESTING {
        tex
    } else {
        join(words(sequence_text(tex, 0, None).0), " "@)
    }
}

/// A formula on one line; one whose braces go too deep stays as it is written.
pub fn unicode_math(tex: &str) -> (r: String)
    ensures
        r@ == formula_text(tex@),
{
    let c: Vec<char> = chars_of(tex);
    if max_brace_depth(&c) > MAX_MATH_NESTING {
        return tex.to_owned();
    }
    let (raw, _): (String, usize) = convert_sequence(&c, 0, None);
    let parts: Vec<String> = text_words(&raw);
    joined(&parts, " ")
}

// ---------------------------------------------------------------------------
// Boxes

/// A part of a formula on several lines.
pub struct MathTextBox {
    pub lines: Vec<String>,
    /// The line that stands level with the text around.
    pub baseline: usize,
    pub width: usize,
}

/// What a [`MathTextBox`] holds, as values.
#[verifier::ext_equal]
pub struct MathTextBoxModel {
    pub lines: Seq<Seq<char>>,
    pub baseline: usize,
    pub width: usize,
}

impl View for MathTextBox {
    type V = MathTextBoxModel;

    open spec fn view(&self) -> MathTextBoxModel {
        MathTextBoxModel {
            lines: texts(self.lines@),
            baseline: self.baseline,
            width: self.width,
        }
    }
}


/// Whether a box has lines, and its baseline is one of them.
pub open spec fn is_box(b: MathTextBoxModel) -> bool {
    b.baseline < b.lines.len()
}

/// A box of one line.
pub open spec fn text_box(s: Seq<char>) -> MathTextBoxModel {
    MathTextBoxModel { lines: seq![s], baseline: 0, width: width_of(s) as usize }
}

/// A box of nothing.
pub open spec fn empty_box() -> MathTextBoxModel {
    MathTextBoxModel { lines: seq![Seq::<char>::empty()], baseline: 0, width: 0 }
}

/// The greater of two numbers.
pub open spec fn greater(a: int, b: int) -> int {
    if a > b {
        a
    } else {
        b
    }
}

/// The line of a box that stands in a row, `above` rows being over the baseline.
pub open spec fn box_row(b: MathTextBoxModel, row: int, above: int) -> Seq<char> {
    let i = row + b.baseline - above;
    if 0 <= i < b.lines.len() {
        b.lines[i]
    } else {
        seq![]
    }
}

/// Two boxes side by side, their baselines level.
pub open spec fn beside(left: MathTextBoxModel, right: MathTextBoxModel) -> MathTextBoxModel {
    if left.width == 0 && left.lines.len() == 1 && left.lines[0].len() == 0 {
        right
    } else {
        let above = greater(left.baseline as int, right.baseline as int);
        let below = greater(
            left.lines.len() - left.baseline,
            right.lines.len() - right.baseline,
        );
        MathTextBoxModel {
            lines: Seq::new(
                (above + below) as nat,
                |row: int|
                    padded(box_row(left, row, above), left.width as nat) + padded(
                        box_row(right, row, above),
                        right.width as nat,
                    ),
            ),
            baseline: above as usize,
            width: bounded(left.width + right.width) as usize,
        }
    }
}

/// A fraction: one box over another, with a line between.
pub open spec fn over(top: MathTextBoxModel, bottom: MathTextBoxModel) -> MathTextBoxModel {
    let width = bounded(greater(greater(top.width as int, bottom.width as int), 1) + 2);
    MathTextBoxModel {
        lines: top.lines.map_values(|l: Seq<char>| centered(l, width)) + seq![
            repeated('─', width as int),
        ] + bottom.lines.map_values(|l: Seq<char>| centered(l, width)),
        baseline: top.lines.len() as usize,
        width: width as usize,
    }
}

impl MathTextBox {
    /// A box of one line.
    pub fn text(content: &str) -> (r: MathTextBox)
        ensures
            r@ == text_box(content@),
    {
        let width: usize = text_display_width(content);
        let mut lines: Vec<String> = Vec::new();
        lines.push(content.to_owned());
        let r: MathTextBox = MathTextBox { lines: lines, baseline: 0, width: width };
        assert(r@.lines =~= seq![content@]);
        r
    }

    /// A box of nothing.
    pub fn empty() -> (r: MathTextBox)
        ensures
            r@ == empty_box(),
    {
        let mut lines: Vec<String> = Vec::new();
        lines.push(String::new());
        let r: MathTextBox = MathTextBox { lines: lines, baseline: 0, width: 0 };
        assert(r@.lines[0] =~= Seq::<char>::empty());
        assert(r@.lines =~= seq![Seq::<char>::empty()]);
        r
    }
}

fn side_row(left: &MathTextBox, right: &MathTextBox, l: Option<usize>, r: Option<usize>) -> (s: String)
    requires
        l is Some ==> l->0 < left.lines.len(),
        r is Some ==> r->0 < right.lines.len(),
    ensures
        s@ == padded(
            match l {
                Some(i) => left@.lines[i as int],
                None => seq![],
            },
            left.width as nat,
        ) + padded(
            match r {
                Some(i) => right@.lines[i as int],
                None => seq![],
            },
            right.width as nat,
        ),
{
    proof {
        reveal_strlit("");
        assert(""@ =~= seq![]);
    }
    let a: String = match l {
        Some(i) => pad_to_width(&left.lines[i], left.width),
        None => pad_to_width("", left.width),
    };
    let b: String = match r {
        Some(i) => pad_to_width(&right.lines[i], right.width),
        None => pad_to_width("", right.width),
    };
    let mut s: String = a;
    s.append(&b);
    s
}

/// Two boxes side by side, their baselines level.
pub fn hcat(left: MathTextBox, right: MathTextBox) -> (r: MathTextBox)
    requires
        is_box(left@),
        is_box(right@),
    ensures
        r@ == beside(left@, right@),
        is_box(r@),
{
    if left.width == 0 && left.lines.len() == 1 {
        assert(left@.lines[0] == left.lines@[0]@);
        if is_empty_text(&left.lines[0]) {
            return right;
        }
    }
    let above: usize = if left.baseline > right.baseline { left.baseline } else { right.baseline };
    let lb: usize = left.lines.len() - left.baseline;
    let rb: usize = right.lines.len() - right.baseline;
    let below: usize = if lb > rb { lb } else { rb };
    let ghost goal = Seq::new(
        (above + below) as nat,
        |row: int|
            padded(box_row(left@, row, above as int), left.width as nat) + padded(
                box_row(right@, row, above as int),
                right.width as nat,
            ),
    );
    let mut lines: Vec<String> = Vec::new();
    let mut row: usize = 0;
    while row < above
        invariant
            row <= above,
            is_box(left@),
            is_box(right@),
            goal.len() == above + below,
            forall|i: int|
                0 <= i < goal.len() ==> #[trigger] goal[i] == padded(
                    box_row(left@, i, above as int),
                    left.width as nat,
                ) + padded(box_row(right@, i, above as int), right.width as nat),
            texts(lines@) =~= goal.take(row as int),
        decreases above - row,
    {
        let d: usize = above - row;
        let l: Option<usize> = if d <= left.baseline { Some(left.baseline - d) } else { None };
        let r: Option<usize> = if d <= right.baseline { Some(right.baseline - d) } else { None };
        let s: String = side_row(&left, &right, l, r);
        let ghost before = texts(lines@);
        lines.push(s);
        assert(texts(lines@) =~= before.push(s@));
        assert(goal[row as int] == s@);
        row += 1;
    }
    let mut k: usize = 0;
    while k < below
        invariant
            k <= below,
            is_box(left@),
            is_box(right@),
            lb == left.lines.len() - left.baseline,
            rb == right.lines.len() - right.baseline,
            goal.len() == above + below,
            forall|i: int|
                0 <= i < goal.len() ==> #[trigger] goal[i] == padded(
                    box_row(left@, i, above as int),
                    left.width as nat,
                ) + padded(box_row(right@, i, above as int), right.width as nat),
            texts(lines@) =~= goal.take(above + k),
        decreases below - k,
    {
        let l: Option<usize> = if k < lb { Some(left.baseline + k) } else { None };
        let r: Option<usize> = if k < rb { Some(right.baseline + k) } else { None };
        let s: String = side_row(&left, &right, l, r);
        let ghost before = texts(lines@);
        lines.push(s);
        assert(texts(lines@) =~= before.push(s@));
        assert(goal[above + k] == s@);
        k += 1;
    }
    let r: MathTextBox = MathTextBox {
        lines: lines,
        baseline: above,
        width: left.width.saturating_add(right.width),
    };
    assert(r@.lines =~= beside(left@, right@).lines);
    r
}

fn push_centered(lines: &mut Vec<String>, source: &Vec<String>, width: usize)
    ensures
        texts(final(lines)@) == texts(old(lines)@) + texts(source@).map_values(
            |l: Seq<char>| centered(l, width as nat),
        ),
{
    let ghost start = texts(lines@);
    let ghost goal = texts(source@).map_values(|l: Seq<char>| centered(l, width as nat));
    let mut i: usize = 0;
    assert(start + goal.take(0) =~= start);
    while i < source.len()
        invariant
            i <= source.len(),
            goal.len() == source.len(),
            forall|j: int|
                0 <= j < goal.len() ==> #[trigger] goal[j] == centered(source@[j]@, width as nat),
            texts(lines@) == start + goal.take(i as int),
        decreases source.len() - i,
    {
        let s: String = center_to_width(&source[i], width);
        let ghost before = texts(lines@);
        lines.push(s);
        assert(texts(lines@) =~= before.push(s@));
        assert(goal[i as int] == s@);
        assert(texts(lines@) =~= start + goal.take(i + 1));
        i += 1;
    }
    assert(goal.take(source.len() as int) =~= goal);
}

/// A fraction: one box over another, with a line between.
pub fn frac_box(numerator: MathTextBox, denominator: MathTextBox) -> (r: MathTextBox)
    ensures
        r@ == over(numerator@, denominator@),
        is_box(r@),
{
    let wider: usize = if numerator.width > denominator.width {
        numerator.width
    } else {
        denominator.width
    };
    let least: usize = if wider > 1 { wider } else { 1 };
    let width: usize = least.saturating_add(2);
    let mut lines: Vec<String> = Vec::new();
    push_centered(&mut lines, &numerator.lines, width);
    let baseline: usize = numerator.lines.len();
    let ghost top = texts(lines@);
    assert(top =~= numerator@.lines.map_values(|l: Seq<char>| centered(l, width as nat)));
    lines.push(repeat_char('─', width));
    let ghost mid = texts(lines@);
    assert(mid =~= top + seq![repeated('─', width as int)]);
    push_centered(&mut lines, &denominator.lines, width);
    let r: MathTextBox = MathTextBox { lines: lines, baseline: baseline, width: width };
    assert(r@.lines =~= over(numerator@, denominator@).lines);
    assert(lines.len() == texts(lines@).len());
    r
}

/// A run of text as it stands in a box: its white space single, kept at its ends.
pub open spec fn run_text(run: Seq<char>) -> Seq<char> {
    let flat = join(words(run), " "@);
    if flat.len() == 0 {
        flat
    } else {
        let lead = if run[0] == ' ' {
            " "@ + flat
        } else {
            flat
        };
        if run.last() == ' ' {
            lead + " "@
        } else {
            lead
        }
    }
}

/// A box with a run of text behind it, where there is one.
pub open spec fn with_run(b: MathTextBoxModel, run: Seq<char>) -> MathTextBoxModel {
    if run.len() == 0 {
        b
    } else {
        beside(b, text_box(run_text(run)))
    }
}

/// The box of a formula from `at` up to `stop`, and where it ends: `b` is what stands
/// before, `run` the text that is not in it yet.
pub open spec fn sequence_box_at(
    c: Seq<char>,
    at: int,
    stop: Option<char>,
    b: MathTextBoxModel,
    run: Seq<char>,
) -> (MathTextBoxModel, int)
    decreases c.len() - at, 1int,
{
    if at < 0 || at >= c.len() {
        (with_run(b, run), at)
    } else if stop == Some(c[at]) {
        (with_run(b, run), at + 1)
    } else if c[at] == '\\' && is_frac(name_at(c, at + 1)) {
        let end = after_name(c, at + 1);
        if at < end <= c.len() {
            let n = group_box_at(c, end);
            if end <= n.1 <= c.len() {
                let d = group_box_at(c, n.1);
                if n.1 <= d.1 <= c.len() {
                    sequence_box_at(
                        c,
                        d.1,
                        stop,
                        beside(with_run(b, run), over(n.0, d.0)),
                        seq![],
                    )
                } else {
                    d
                }
            } else {
                n
            }
        } else {
            (b, at)
        }
    } else if c[at] == '{' {
        let inner = sequence_box_at(c, at + 1, Some('}'), empty_box(), seq![]);
        if at < inner.1 <= c.len() {
            sequence_box_at(c, inner.1, stop, beside(with_run(b, run), inner.0), seq![])
        } else {
            inner
        }
    } else {
        let p = item_text(c, at);
        if at < p.1 <= c.len() {
            sequence_box_at(c, p.1, stop, b, run + p.0)
        } else {
            (b, at)
        }
    }
}

/// The box of the argument at `at`, and where it ends.
pub open spec fn group_box_at(c: Seq<char>, at: int) -> (MathTextBoxModel, int)
    decreases c.len() - at, 0int,
{
    if at < 0 || at >= c.len() {
        (empty_box(), at)
    } else if c[at] == '{' {
        sequence_box_at(c, at + 1, Some('}'), empty_box(), seq![])
    } else if c[at] == '\\' {
        let p = command_text(c, at + 1);
        (text_box(p.0), p.1)
    } else {
        (text_box(seq![c[at]]), at + 1)
    }
}

fn flush(b: MathTextBox, run: &str) -> (r: MathTextBox)
    requires
        is_box(b@),
    ensures
        r@ == with_run(b@, run@),
        is_box(r@),
{
    if is_empty_text(run) {
        return b;
    }
    let v: Vec<char> = chars_of(run);
    let parts: Vec<String> = text_words(run);
    let flat: String = joined(&parts, " ");
    let piece: String = if is_empty_text(&flat) {
        flat
    } else {
        let mut out: String = String::new();
        if v[0] == ' ' {
            out.append(" ");
        }
        let ghost lead = out@;
        out.append(&flat);
        assert(v@[0] != ' ' ==> out@ =~= flat@);
        assert(v@[0] == ' ' ==> out@ =~= " "@ + flat@);
        if v[v.len() - 1] == ' ' {
            out.append(" ");
        }
        out
    };
    hcat(b, MathTextBox::text(&piece))
}

/// The box of a formula from `start` up to `stop`, and where it ends. A fraction
/// stands as one box over another, text as a line.
pub fn sequence_box(c: &Vec<char>, start: usize, stop: Option<char>) -> (r: (MathTextBox, usize))
    requires
        start <= c.len(),
    ensures
        (r.0@, r.1 as int) == sequence_box_at(c@, start as int, stop, empty_box(), seq![]),
        start <= r.1 <= c.len(),
        is_box(r.0@),
    decreases c.len() - start, 1int,
{
    let mut result: MathTextBox = MathTextBox::empty();
    let mut run: String = String::new();
    let mut at: usize = start;
    assert(run@ =~= seq![]);
    while at < c.len()
        invariant
            start <= at <= c.len(),
            is_box(result@),
            sequence_box_at(c@, at as int, stop, result@, run@) == sequence_box_at(
                c@,
                start as int,
                stop,
                empty_box(),
                seq![],
            ),
        decreases c.len() - at,
    {
        if stop == Some(c[at]) {
            return (flush(result, &run), at + 1);
        }
        proof {
            lemma_name(c@, at + 1);
            lemma_item_end(c@, at as int);
        }
        let fraction: Option<usize> = if c[at] == '\\' {
            match peek_command_name(c, at + 1) {
                Some(x) => if names_frac(&x.0) {
                    Some(x.1)
                } else {
                    None
                },
                None => {
                    proof {
                        reveal_strlit("frac");
                        reveal_strlit("dfrac");
                        reveal_strlit("tfrac");
                    }
                    None
                }
            }
        } else {
            None
        };
        if let Some(end) = fraction {
            let (top, mid): (MathTextBox, usize) = group_box(c, end);
            let (bottom, last): (MathTextBox, usize) = group_box(c, mid);
            let whole: MathTextBox = frac_box(top, bottom);
            let before: MathTextBox = flush(result, &run);
            result = hcat(before, whole);
            run = String::new();
            assert(run@ =~= seq![]);
            at = last;
        } else if c[at] == '{' {
            let (inner, last): (MathTextBox, usize) = sequence_box(c, at + 1, Some('}'));
            let before: MathTextBox = flush(result, &run);
            result = hcat(before, inner);
            run = String::new();
            assert(run@ =~= seq![]);
            at = last;
        } else {
            let (piece, next): (String, usize) = convert_item(c, at);
            run.append(&piece);
            at = next;
        }
    }
    (flush(result, &run), at)
}

/// The box of the argument at `at`, and where it ends.
pub fn group_box(c: &Vec<char>, at: usize) -> (r: (MathTextBox, usize))
    requires
        at <= c.len(),
    ensures
        (r.0@, r.1 as int) == group_box_at(c@, at as int),
        at <= r.1 <= c.len(),
        is_box(r.0@),
    decreases c.len() - at, 0int,
{
    if at == c.len() {
        return (MathTextBox::empty(), at);
    }
    if c[at] == '{' {
        sequence_box(c, at + 1, Some('}'))
    } else if c[at] == '\\' {
        let (piece, end): (String, usize) = convert_command(c, at + 1);
        (MathTextBox::text(&piece), end)
    } else {
        let piece: String = single(c[at]);
        (MathTextBox::text(&piece), at + 1)
    }
}

/// A formula on several lines.
pub open spec fn formula_lines(tex: Seq<char>) -> Seq<Seq<char>> {
    if brace_depth(tex, tex.len()).1 > MAX_MATH_NESTING {
        lines(tex)
    } else {
        sequence_box_at(tex, 0, None, empty_box(), seq![]).0.lines.map_values(
            |l: Seq<char>| trim_end(l),
        )
    }
}

/// A formula on several lines, fractions one over the other and nothing blank at the
/// end of a line; one whose braces go too deep stays as it is written, line by line.
pub fn unicode_math_lines(tex: &str) -> (r: Vec<String>)
    ensures
        texts(r@) == formula_lines(tex@),
{
    let c: Vec<char> = chars_of(tex);
    if max_brace_depth(&c) > MAX_MATH_NESTING {
        return text_lines(tex);
    }
    let (boxed, _): (MathTextBox, usize) = sequence_box(&c, 0, None);
    let mut out: Vec<String> = Vec::new();
    let mut i: usize = 0;
    while i < boxed.lines.len()
        invariant
            i <= boxed.lines.len(),
            texts(out@) =~= boxed@.lines.take(i as int).map_values(|l: Seq<char>| trim_end(l)),
        decreases boxed.lines.len() - i,
    {
        let line: String = trimmed_right(&boxed.lines[i]);
        let ghost before = texts(out@);
        out.push(line);
        assert(texts(out@) =~= before.push(line@));
        assert(boxed@.lines[i as int] == boxed.lines@[i as int]@);
        assert(boxed@.lines.take(i + 1) =~= boxed@.lines.take(i as int).push(
            boxed@.lines[i as int],
        ));
        i += 1;
    }
    assert(boxed@.lines.take(boxed.lines.len() as int) =~= boxed@.lines);
    out
}

// ---------------------------------------------------------------------------
// What holds of every formula

proof fn lemma_width_bound(s: Seq<char>)
    ensures
        width_of(s) <= usize::MAX,
{
}

proof fn lemma_width_sum(a: Seq<char>, b: Seq<char>)
    ensures
        width_of(a + b) == bounded((width_of(a) + width_of(b)) as int),
    decreases b.len(),
{
    lemma_width_bound(a);
    if b.len() == 0 {
        assert(a + b =~= a);
    } else {
        assert((a + b).drop_last() =~= a + b.drop_last());
        lemma_width_sum(a, b.drop_last());
    }
}

proof fn lemma_width_repeated(c: char, n: int)
    requires
        char_width(c) == 1,
        0 <= n,
    ensures
        width_of(repeated(c, n)) == bounded(n),
    decreases n,
{
    if n > 0 {
        assert(repeated(c, n).drop_last() =~= repeated(c, n - 1));
        lemma_width_repeated(c, n - 1);
    }
}

proof fn lemma_width_padded(l: Seq<char>, w: nat)
    requires
        width_of(l) <= w <= usize::MAX,
    ensures
        width_of(padded(l, w)) == w,
        width_of(centered(l, w)) == w,
{
    let total = w - width_of(l);
    lemma_width_repeated(' ', total);
    lemma_width_sum(l, repeated(' ', total));
    lemma_width_repeated(' ', total / 2);
    lemma_width_repeated(' ', total - total / 2);
    lemma_width_sum(repeated(' ', total / 2), l);
    lemma_width_sum(repeated(' ', total / 2) + l, repeated(' ', total - total / 2));
}

/// Whether every line of a box has the width of the box, and the baseline is one of
/// them.
pub open spec fn is_even(b: MathTextBoxModel) -> bool {
    &&& is_box(b)
    &&& forall|i: int| 0 <= i < b.lines.len() ==> width_of(#[trigger] b.lines[i]) == b.width
}

/// Text, two boxes side by side and a fraction are even where their parts are, as
/// long as the number of lines fits.
proof fn lemma_even(a: MathTextBoxModel, b: MathTextBoxModel)
    requires
        is_even(a),
        is_even(b),
        a.lines.len() <= usize::MAX,
    ensures
        is_even(beside(a, b)),
        beside(a, b).lines.len() <= a.lines.len() + b.lines.len(),
        is_even(over(a, b)),
        over(a, b).lines.len() == a.lines.len() + b.lines.len() + 1,
{
    let both = beside(a, b);
    if !(a.width == 0 && a.lines.len() == 1 && a.lines[0].len() == 0) {
        let above = greater(a.baseline as int, b.baseline as int);
        assert forall|i: int| 0 <= i < both.lines.len() implies width_of(#[trigger] both.lines[i])
            == both.width by {
            let l = box_row(a, i, above);
            let r = box_row(b, i, above);
            lemma_width_padded(l, a.width as nat);
            lemma_width_padded(r, b.width as nat);
            lemma_width_sum(padded(l, a.width as nat), padded(r, b.width as nat));
        }
    }
    let f = over(a, b);
    assert forall|i: int| 0 <= i < f.lines.len() implies width_of(#[trigger] f.lines[i])
        == f.width by {
        let w = f.width as nat;
        if i < a.lines.len() {
            lemma_width_padded(a.lines[i], w);
        } else if i == a.lines.len() {
            lemma_width_repeated('─', w as int);
        } else {
            lemma_width_padded(b.lines[i - a.lines.len() - 1], w);
        }
    }
}

proof fn lemma_even_text(t: Seq<char>)
    ensures
        is_even(text_box(t)),
        is_even(empty_box()),
{
    lemma_width_bound(t);
}

proof fn lemma_even_run(b: MathTextBoxModel, run: Seq<char>)
    requires
        is_even(b),
        b.lines.len() <= usize::MAX,
    ensures
        is_even(with_run(b, run)),
        with_run(b, run).lines.len() == b.lines.len(),
{
    lemma_even_text(run_text(run));
    lemma_even(b, text_box(run_text(run)));
}

#[verifier::spinoff_prover]
#[verifier::rlimit(50)]
proof fn lemma_even_sequence(
    c: Seq<char>,
    at: int,
    stop: Option<char>,
    b: MathTextBoxModel,
    run: Seq<char>,
)
    requires
        0 <= at <= c.len(),
        c.len() < usize::MAX,
        is_even(b),
        b.lines.len() <= at + 1,
    ensures
        ({
            let r = sequence_box_at(c, at, stop, b, run);
            is_even(r.0) && at <= r.1 <= c.len() && r.0.lines.len() <= b.lines.len() + r.1 - at
        }),
    decreases c.len() - at, 1int,
{
    lemma_even_run(b, run);
    let before = with_run(b, run);
    lemma_even_text(seq![]);
    if at < c.len() && stop != Some(c[at]) {
        lemma_item_end(c, at);
        lemma_name(c, at + 1);
        if c[at] == '\\' && is_frac(name_at(c, at + 1)) {
            reveal_strlit("frac");
            reveal_strlit("dfrac");
            reveal_strlit("tfrac");
            let end = after_name(c, at + 1);
            lemma_even_group(c, end);
            let n = group_box_at(c, end);
            lemma_even_group(c, n.1);
            let d = group_box_at(c, n.1);
            lemma_even(n.0, d.0);
            lemma_even(before, over(n.0, d.0));
            lemma_even_sequence(c, d.1, stop, beside(before, over(n.0, d.0)), seq![]);
        } else if c[at] == '{' {
            lemma_even_sequence(c, at + 1, Some('}'), empty_box(), seq![]);
            let inner = sequence_box_at(c, at + 1, Some('}'), empty_box(), seq![]);
            lemma_even(before, inner.0);
            lemma_even_sequence(c, inner.1, stop, beside(before, inner.0), seq![]);
        } else {
            let p = item_text(c, at);
            lemma_even_sequence(c, p.1, stop, b, run + p.0);
        }
    }
}

proof fn lemma_even_group(c: Seq<char>, at: int)
    requires
        0 <= at <= c.len(),
        c.len() < usize::MAX,
    ensures
        ({
            let r = group_box_at(c, at);
            is_even(r.0) && at <= r.1 <= c.len() && r.0.lines.len() <= 1 + r.1 - at
        }),
    decreases c.len() - at, 0int,
{
    lemma_even_text(seq![]);
    if at < c.len() {
        if c[at] == '{' {
            lemma_even_sequence(c, at + 1, Some('}'), empty_box(), seq![]);
        } else if c[at] == '\\' {
            lemma_command_end(c, at + 1);
            lemma_even_text(command_text(c, at + 1).0);
        } else {
            lemma_even_text(seq![c[at]]);
        }
    }
}

/// Whatever the formula, the lines of its box are all as wide as the box, so that
/// what stands beside it stays in line.
pub proof fn law_boxes_are_even(tex: Seq<char>)
    requires
        tex.len() < usize::MAX,
    ensures
        is_even(sequence_box_at(tex, 0, None, empty_box(), seq![]).0),
{
    lemma_even_text(seq![]);
    lemma_even_sequence(tex, 0, None, empty_box(), seq![]);
}

/// A formula whose braces go too deep is left as it is written, on one line or on
/// several.
pub proof fn law_deep_formulas_are_left(tex: Seq<char>)
    requires
        brace_depth(tex, tex.len()).1 > MAX_MATH_NESTING,
    ensures
        formula_text(tex) == tex,
        formula_lines(tex) == lines(tex),
{
}

/// A command that is not known stays as it is written, and what follows it is still
/// read.
pub proof fn law_unknown_commands_stay(c: Seq<char>, at: int)
    requires
        0 <= at < c.len(),
        c[at] == '\\',
        name_at(c, at + 1).len() > 0,
        !is_frac(name_at(c, at + 1)),
        name_at(c, at + 1) != "sqrt"@,
        !is_lettering(name_at(c, at + 1)),
        !is_sizing(name_at(c, at + 1)),
        !is_spacing(name_at(c, at + 1)),
        symbol_of(name_at(c, at + 1)) is None,
    ensures
        sequence_text(c, at, None).0 == seq!['\\'] + name_at(c, at + 1) + sequence_text(
            c,
            after_name(c, at + 1),
            None,
        ).0,
{
    lemma_name(c, at + 1);
    lemma_span_bounds(c.skip(at + 1), letter_class());
    assert(item_text(c, at) == command_text(c, at + 1));
}

// One line

/// The characters of a text that are not white.
pub open spec fn ink(s: Seq<char>) -> Seq<char>
    decreases s.len(),
{
    if s.len() == 0 {
        seq![]
    } else if is_white(s.last()) {
        ink(s.drop_last())
    } else {
        ink(s.drop_last()).push(s.last())
    }
}

proof fn lemma_ink_sum(a: Seq<char>, b: Seq<char>)
    ensures
        ink(a + b) == ink(a) + ink(b),
    decreases b.len(),
{
    if b.len() == 0 {
        assert(a + b =~= a);
        assert(ink(a) + ink(b) =~= ink(a));
    } else {
        assert((a + b).drop_last() =~= a + b.drop_last());
        lemma_ink_sum(a, b.drop_last());
        assert(ink(a + b) =~= ink(a) + ink(b));
    }
}

proof fn lemma_ink_trim_end(s: Seq<char>)
    ensures
        ink(trim_end(s)) == ink(s),
    decreases s.len(),
{
    if s.len() > 0 && is_white(s.last()) {
        lemma_ink_trim_end(s.drop_last());
    }
}

proof fn lemma_ink_blank(s: Seq<char>)
    requires
        forall|i: int| 0 <= i < s.len() ==> is_white(#[trigger] s[i]),
    ensures
        ink(s) == Seq::<char>::empty(),
    decreases s.len(),
{
    if s.len() > 0 {
        lemma_ink_blank(s.drop_last());
    }
}

proof fn lemma_join_first(parts: Seq<Seq<char>>, sep: Seq<char>)
    requires
        parts.len() > 1,
    ensures
        join(parts, sep) == parts[0] + sep + join(parts.drop_first(), sep),
    decreases parts.len(),
{
    let tail = parts.drop_first();
    if parts.len() == 2 {
        assert(join(parts.drop_last(), sep) == parts[0]);
        assert(join(tail, sep) == parts[1]);
    } else {
        lemma_join_first(parts.drop_last(), sep);
        assert(parts.drop_last().drop_first() =~= tail.drop_last());
        assert(join(parts, sep) =~= parts[0] + sep + join(tail, sep));
    }
}

/// The words of a text, joined: nothing white is lost but white space, and the last
/// character is none.
proof fn lemma_joined_words(s: Seq<char>)
    ensures
        ink(join(words(s), " "@)) == ink(s),
        join(words(s), " "@).len() == 0 <==> words(s).len() == 0,
        words(s).len() > 0 ==> !is_white(join(words(s), " "@).last()),
    decreases s.len(),
{
    reveal_strlit(" ");
    lemma_span_bounds(s, ink_class());
    let n = span(s, ink_class()) as int;
    if s.len() == 0 {
    } else if n == 0 {
        let t = s.drop_first();
        lemma_joined_words(t);
        assert(s =~= seq![s[0]] + t);
        lemma_ink_sum(seq![s[0]], t);
        assert forall|i: int| 0 <= i < seq![s[0]].len() implies is_white(#[trigger] seq![s[0]][i]) by {
            assert(!ink_class()(s[0]));
        }
        lemma_ink_blank(seq![s[0]]);
        assert(ink(s) =~= ink(t));
    } else {
        let t = s.subrange(n, s.len() as int);
        let w = s.take(n);
        lemma_joined_words(t);
        assert(s =~= w + t);
        lemma_ink_sum(w, t);
        assert(ink_class()(s[n - 1]));
        let parts = seq![w] + words(t);
        assert(words(s) == parts);
        if words(t).len() == 0 {
            assert(parts.len() == 1);
            assert(join(parts, " "@) == w);
            assert(ink(t) =~= seq![]);
            assert(ink(w) + ink(t) =~= ink(w));
        } else {
            assert(parts.drop_first() =~= words(t));
            lemma_join_first(parts, " "@);
            lemma_ink_sum(w + " "@, join(words(t), " "@));
            lemma_ink_sum(w, " "@);
            assert forall|i: int| 0 <= i < " "@.len() implies is_white(#[trigger] " "@[i]) by {}
            lemma_ink_blank(" "@);
            assert(ink(w) + ink(" "@) =~= ink(w));
        }
    }
}

/// Whether no fraction stands in a formula but as part of a script or of the
/// argument of a command.
pub open spec fn is_flat(c: Seq<char>, at: int, stop: Option<char>) -> bool
    decreases c.len() - at,
{
    if at < 0 || at >= c.len() || stop == Some(c[at]) {
        true
    } else if c[at] == '\\' && is_frac(name_at(c, at + 1)) {
        false
    } else if c[at] == '{' {
        let end = sequence_text(c, at + 1, Some('}')).1;
        &&& is_flat(c, at + 1, Some('}'))
        &&& at < end <= c.len() ==> is_flat(c, end, stop)
    } else {
        let end = item_text(c, at).1;
        at < end <= c.len() ==> is_flat(c, end, stop)
    }
}

proof fn lemma_ink_run(run: Seq<char>)
    ensures
        ink(run_text(run)) == ink(run),
{
    let flat = join(words(run), " "@);
    lemma_joined_words(run);
    reveal_strlit(" ");
    assert forall|i: int| 0 <= i < " "@.len() implies is_white(#[trigger] " "@[i]) by {}
    lemma_ink_blank(" "@);
    lemma_ink_sum(" "@, flat);
    lemma_ink_sum(flat, " "@);
    lemma_ink_sum(" "@ + flat, " "@);
    assert(ink(run_text(run)) =~= ink(run));
}

proof fn lemma_ink_padded(l: Seq<char>, w: nat)
    ensures
        ink(padded(l, w)) == ink(l),
{
    let fill = repeated(' ', w - width_of(l));
    lemma_ink_sum(l, fill);
    lemma_ink_blank(fill);
    assert(ink(l) + ink(fill) =~= ink(l));
}

/// Two boxes of one line, side by side.
proof fn lemma_ink_beside(a: MathTextBoxModel, b: MathTextBoxModel)
    requires
        a.lines.len() == 1,
        a.baseline == 0,
        b.lines.len() == 1,
        b.baseline == 0,
    ensures
        beside(a, b).lines.len() == 1,
        beside(a, b).baseline == 0,
        ink(beside(a, b).lines[0]) == ink(a.lines[0]) + ink(b.lines[0]),
{
    if a.width == 0 && a.lines[0].len() == 0 {
        assert(ink(a.lines[0]) + ink(b.lines[0]) =~= ink(b.lines[0]));
    } else {
        lemma_ink_padded(a.lines[0], a.width as nat);
        lemma_ink_padded(b.lines[0], b.width as nat);
        lemma_ink_sum(padded(a.lines[0], a.width as nat), padded(b.lines[0], b.width as nat));
    }
}

proof fn lemma_ink_with_run(b: MathTextBoxModel, run: Seq<char>)
    requires
        b.lines.len() == 1,
        b.baseline == 0,
    ensures
        with_run(b, run).lines.len() == 1,
        with_run(b, run).baseline == 0,
        ink(with_run(b, run).lines[0]) == ink(b.lines[0]) + ink(run),
{
    lemma_ink_run(run);
    if run.len() == 0 {
        assert(ink(b.lines[0]) + ink(run) =~= ink(b.lines[0]));
    } else {
        lemma_ink_beside(b, text_box(run_text(run)));
    }
}

proof fn lemma_flat_sequence(
    c: Seq<char>,
    at: int,
    stop: Option<char>,
    b: MathTextBoxModel,
    run: Seq<char>,
)
    requires
        0 <= at <= c.len(),
        is_flat(c, at, stop),
        b.lines.len() == 1,
        b.baseline == 0,
    ensures
        ({
            let r = sequence_box_at(c, at, stop, b, run);
            let t = sequence_text(c, at, stop);
            &&& r.1 == t.1
            &&& r.0.lines.len() == 1
            &&& r.0.baseline == 0
            &&& ink(r.0.lines[0]) == ink(b.lines[0]) + ink(run) + ink(t.0)
        }),
    decreases c.len() - at,
{
    lemma_ink_with_run(b, run);
    let before = with_run(b, run);
    let t = sequence_text(c, at, stop);
    let ahead = ink(b.lines[0]) + ink(run);
    if at >= c.len() || stop == Some(c[at]) {
        assert(ahead + ink(t.0) =~= ahead);
    } else {
        lemma_item_end(c, at);
        let p = item_text(c, at);
        let rest = sequence_text(c, p.1, stop);
        lemma_ink_sum(p.0, rest.0);
        if c[at] == '{' {
            let none = Seq::<char>::empty();
            lemma_flat_sequence(c, at + 1, Some('}'), empty_box(), none);
            let inner = sequence_box_at(c, at + 1, Some('}'), empty_box(), none);
            assert(ink(empty_box().lines[0]) + ink(none) + ink(p.0) =~= ink(p.0));
            lemma_ink_beside(before, inner.0);
            lemma_flat_sequence(c, inner.1, stop, beside(before, inner.0), none);
            assert(ahead + ink(p.0) + ink(none) + ink(rest.0) =~= ahead + ink(t.0));
        } else {
            lemma_ink_sum(run, p.0);
            lemma_flat_sequence(c, p.1, stop, b, run + p.0);
            assert(ink(b.lines[0]) + ink(run + p.0) + ink(rest.0) =~= ahead + ink(t.0));
        }
    }
}

/// A formula that stacks no fraction takes one line, which differs from the formula
/// written on one line at most in white space.
pub proof fn law_flat_formulas_take_one_line(tex: Seq<char>)
    requires
        brace_depth(tex, tex.len()).1 <= MAX_MATH_NESTING,
        is_flat(tex, 0, None),
    ensures
        formula_lines(tex).len() == 1,
        ink(formula_lines(tex)[0]) == ink(formula_text(tex)),
{
    let none = Seq::<char>::empty();
    lemma_flat_sequence(tex, 0, None, empty_box(), none);
    let r = sequence_box_at(tex, 0, None, empty_box(), none);
    let raw = sequence_text(tex, 0, None).0;
    lemma_joined_words(raw);
    lemma_ink_trim_end(r.0.lines[0]);
    assert(ink(empty_box().lines[0]) + ink(none) + ink(raw) =~= ink(raw));
}

/// Whether a formula has no fraction and no braces but in scripts and in the
/// arguments of commands.
pub open spec fn is_plain(c: Seq<char>, at: int) -> bool
    decreases c.len() - at,
{
    if at < 0 || at >= c.len() {
        true
    } else if c[at] == '{' || (c[at] == '\\' && is_frac(name_at(c, at + 1))) {
        false
    } else {
        let end = item_text(c, at).1;
        at < end <= c.len() ==> is_plain(c, end)
    }
}

proof fn lemma_plain_sequence(c: Seq<char>, at: int, b: MathTextBoxModel, run: Seq<char>)
    requires
        0 <= at <= c.len(),
        is_plain(c, at),
    ensures
        sequence_box_at(c, at, None, b, run).0 == with_run(b, run + sequence_text(c, at, None).0),
    decreases c.len() - at,
{
    let t = sequence_text(c, at, None);
    if at >= c.len() {
        assert(run + t.0 =~= run);
    } else {
        lemma_item_end(c, at);
        let p = item_text(c, at);
        lemma_plain_sequence(c, p.1, b, run + p.0);
        assert(run + p.0 + sequence_text(c, p.1, None).0 =~= run + t.0);
    }
}

/// A plain formula that does not begin with a space takes one line, and that line is
/// the formula written on one line.
pub proof fn law_plain_formulas_read_the_same(tex: Seq<char>)
    requires
        brace_depth(tex, tex.len()).1 <= MAX_MATH_NESTING,
        is_plain(tex, 0),
        ({
            let raw = sequence_text(tex, 0, None).0;
            raw.len() > 0 ==> raw[0] != ' '
        }),
    ensures
        formula_lines(tex) == seq![formula_text(tex)],
{
    let none = Seq::<char>::empty();
    let raw = sequence_text(tex, 0, None).0;
    lemma_plain_sequence(tex, 0, empty_box(), none);
    assert(none + raw =~= raw);
    lemma_joined_words(raw);
    reveal_strlit(" ");
    let flat = join(words(raw), " "@);
    let line = sequence_box_at(tex, 0, None, empty_box(), none).0.lines[0];
    if raw.len() == 0 {
        assert(flat =~= none);
        assert(trim_end(line) =~= flat);
    } else {
        assert(line == run_text(raw));
        assert((flat + " "@).drop_last() =~= flat);
        assert(trim_end(flat) == flat);
        assert(is_white((flat + " "@).last()));
        assert(trim_end(flat + " "@) == flat);
        assert(trim_end(line) == flat);
    }
    assert(formula_lines(tex) =~= seq![flat]);
}

// ---------------------------------------------------------------------------
// Commands

/// Whether a command takes nothing of what follows it.
pub open spec fn stands_alone(name: Seq<char>) -> bool {
    !is_frac(name) && name != "sqrt"@ && !is_lettering(name)
}

proof fn lemma_no_braces(c: Seq<char>, n: nat)
    requires
        n <= c.len(),
        forall|i: int| 0 <= i < c.len() ==> #[trigger] c[i] != '{',
    ensures
        brace_depth(c, n) == (0nat, 0nat),
    decreases n,
{
    if n > 0 {
        lemma_no_braces(c, (n - 1) as nat);
        assert(c[n - 1] != '{');
    }
}

proof fn lemma_name_of_letters(name: Seq<char>)
    requires
        forall|i: int| 0 <= i < name.len() ==> is_letter(#[trigger] name[i]),
    ensures
        name_at(seq!['\\'] + name, 1) == name,
        after_name(seq!['\\'] + name, 1) == name.len() + 1,
{
    let c = seq!['\\'] + name;
    let rest = c.skip(1);
    assert(rest =~= name);
    assert forall|i: int| 0 <= i < rest.len() implies letter_class()(#[trigger] rest[i]) by {
        assert(is_letter(name[i]));
    }
    lemma_span(rest, letter_class(), rest.len() as int);
    assert(rest.take(rest.len() as int) =~= name);
}

/// A command that has a symbol and stands alone in a formula is shown as its symbol.
pub proof fn law_a_command_alone(name: Seq<char>, symbol: Seq<char>)
    requires
        name.len() > 0,
        forall|i: int| 0 <= i < name.len() ==> is_letter(#[trigger] name[i]),
        symbol_of(name) == Some(symbol),
        stands_alone(name),
        !is_sizing(name),
        !is_spacing(name),
    ensures
        formula_text(seq!['\\'] + name) == join(words(symbol), " "@),
        sequence_text(seq!['\\'] + name, 0, None).0 == symbol,
{
    let c = seq!['\\'] + name;
    assert forall|i: int| 0 <= i < c.len() implies #[trigger] c[i] != '{' by {
        if i > 0 {
            assert(is_letter(name[i - 1]));
        }
    }
    lemma_no_braces(c, c.len());
    lemma_name_of_letters(name);
    let end = c.len() as int;
    assert(command_text(c, 1) == (symbol, end));
    assert(item_text(c, 0) == (symbol, end));
    assert(sequence_text(c, end, None) == (Seq::<char>::empty(), end));
    assert(symbol + Seq::<char>::empty() =~= symbol);
    assert(sequence_text(c, 0, None).0 == symbol);
}

/// A command that takes nothing of what follows it means the same wherever it stands: what
/// it means by itself, and then what follows it.
pub proof fn law_a_command_means_the_same_anywhere(c: Seq<char>, at: int, stop: Option<char>)
    requires
        0 <= at < c.len(),
        c[at] == '\\',
        stop != Some('\\'),
        name_at(c, at + 1).len() > 0,
        stands_alone(name_at(c, at + 1)),
    ensures
        sequence_text(c, at, stop).0 == sequence_text(
            seq!['\\'] + name_at(c, at + 1),
            0,
            None,
        ).0 + sequence_text(c, after_name(c, at + 1), stop).0,
{
    let name = name_at(c, at + 1);
    lemma_name(c, at + 1);
    lemma_span_bounds(c.skip(at + 1), letter_class());
    assert forall|i: int| 0 <= i < name.len() implies is_letter(#[trigger] name[i]) by {
        assert(letter_class()(c.skip(at + 1)[i]));
    }
    lemma_name_of_letters(name);
    let alone = seq!['\\'] + name;
    let end = alone.len() as int;
    let p = command_text(alone, 1);
    assert(p.1 == end);
    assert(item_text(alone, 0) == p);
    assert(sequence_text(alone, end, None) == (Seq::<char>::empty(), end));
    assert(p.0 + Seq::<char>::empty() =~= p.0);
    assert(sequence_text(alone, 0, None).0 == p.0);
    assert(item_text(c, at) == command_text(c, at + 1));
    assert(command_text(c, at + 1) == (p.0, after_name(c, at + 1)));
}

/// A character that is no mark of the grammar stands for itself, wherever it stands.
pub proof fn law_a_plain_character_stands_for_itself(c: Seq<char>, at: int, stop: Option<char>)
    requires
        0 <= at < c.len(),
        stop != Some(c[at]),
        c[at] != '\\' && c[at] != '^' && c[at] != '_' && c[at] != '{' && c[at] != '\'' && c[at]
            != '~',
    ensures
        sequence_text(c, at, stop).0 == seq![c[at]] + sequence_text(c, at + 1, stop).0,
{
    assert(item_text(c, at) == (seq![c[at]], at + 1));
}

/// A character that can be raised or lowered is, wherever it stands behind its mark.
pub proof fn law_scripts_are_raised_and_lowered(c: Seq<char>, at: int, stop: Option<char>, x: char)
    requires
        0 <= at,
        at + 1 < c.len(),
        stop != Some(c[at]),
        c[at + 1] != '{' && c[at + 1] != '\\',
        !is_white(c[at + 1]),
    ensures
        c[at] == '^' && superscript_of(c[at + 1]) == Some(x) ==> sequence_text(c, at, stop).0
            == seq![x] + sequence_text(c, at + 2, stop).0,
        c[at] == '_' && subscript_of(c[at + 1]) == Some(x) ==> sequence_text(c, at, stop).0 == seq![
            x,
        ] + sequence_text(c, at + 2, stop).0,
{
    let one = seq![c[at + 1]];
    crate::text::law_trimmed_stays(one);
    let none = Seq::<char>::empty();
    assert(one.drop_last() =~= none);
    assert(all_scripted(none, true) == Some(none));
    assert(all_scripted(none, false) == Some(none));
    assert(none.push(x) =~= seq![x]);
    assert(one.last() == c[at + 1]);
    if c[at] == '^' && superscript_of(c[at + 1]) == Some(x) {
        assert(all_scripted(one, true) == Some(none.push(x)));
        assert(scripted(one, true) == seq![x]);
        assert(item_text(c, at) == (seq![x], at + 2));
    }
    if c[at] == '_' && subscript_of(c[at + 1]) == Some(x) {
        assert(all_scripted(one, false) == Some(none.push(x)));
        assert(scripted(one, false) == seq![x]);
        assert(item_text(c, at) == (seq![x], at + 2));
    }
}

/// A fraction of two plain characters is shown with a stroke between them, the upper one
/// first, and a root with its sign before it.
pub proof fn law_fractions_and_roots(a: char, b: char)
    requires
        is_letter(a) || crate::text::is_digit(a),
        is_letter(b) || crate::text::is_digit(b),
    ensures
        formula_text("\\frac{"@ + seq![a] + "}{"@ + seq![b] + "}"@) == seq![a, '/', b],
        formula_text("\\sqrt{"@ + seq![a] + "}"@) == seq!['√', a],
{
    lemma_fraction(a, b);
    lemma_root(a);
}

proof fn lemma_one_letter_group(c: Seq<char>, at: int, a: char)
    requires
        0 <= at,
        at + 2 < c.len(),
        c[at] == '{',
        c[at + 1] == a,
        c[at + 2] == '}',
        is_letter(a) || crate::text::is_digit(a),
    ensures
        group_text(c, at) == (seq![a], at + 3),
{
    let none = Seq::<char>::empty();
    assert(sequence_text(c, at + 2, Some('}')) == (none, at + 3));
    assert(item_text(c, at + 1) == (seq![a], at + 2));
    assert(seq![a] + none =~= seq![a]);
    assert(sequence_text(c, at + 1, Some('}')) == (seq![a], at + 3));
}

proof fn lemma_fraction(a: char, b: char)
    requires
        is_letter(a) || crate::text::is_digit(a),
        is_letter(b) || crate::text::is_digit(b),
    ensures
        formula_text("\\frac{"@ + seq![a] + "}{"@ + seq![b] + "}"@) == seq![a, '/', b],
{
    reveal_strlit("\\frac{");
    reveal_strlit("}{");
    reveal_strlit("}");
    reveal_strlit("frac");
    reveal_strlit("/");
    let c = "\\frac{"@ + seq![a] + "}{"@ + seq![b] + "}"@;
    assert(c =~= seq!['\\', 'f', 'r', 'a', 'c', '{', a, '}', '{', b, '}']);
    assert(c.len() == 11);
    assert(c[0] == '\\' && c[1] == 'f' && c[2] == 'r' && c[3] == 'a' && c[4] == 'c' && c[5] == '{'
        && c[6] == a && c[7] == '}' && c[8] == '{' && c[9] == b && c[10] == '}');
    let rest = c.skip(1);
    lemma_span(rest, letter_class(), 4);
    assert(rest.take(4) =~= "frac"@);
    assert(name_at(c, 1) == "frac"@);
    assert(after_name(c, 1) == 5);
    lemma_one_letter_group(c, 5, a);
    lemma_one_letter_group(c, 8, b);
    crate::text::law_trimmed_stays(seq![a]);
    crate::text::law_trimmed_stays(seq![b]);
    let shown = seq![a] + "/"@ + seq![b];
    assert(command_text(c, 1) == (shown, 11int));
    assert(item_text(c, 0) == (shown, 11int));
    assert(sequence_text(c, 11, None) == (Seq::<char>::empty(), 11int));
    assert(shown + Seq::<char>::empty() =~= shown);
    assert(sequence_text(c, 0, None).0 == shown);
    law_short_formulas_are_shallow(c);
    assert(shown =~= seq![a, '/', b]);
    crate::text::law_one_word(shown);
}

proof fn lemma_root(a: char)
    requires
        is_letter(a) || crate::text::is_digit(a),
    ensures
        formula_text("\\sqrt{"@ + seq![a] + "}"@) == seq!['√', a],
{
    reveal_strlit("\\sqrt{");
    reveal_strlit("}");
    reveal_strlit("sqrt");
    reveal_strlit("frac");
    reveal_strlit("dfrac");
    reveal_strlit("tfrac");
    reveal_strlit("√");
    let c = "\\sqrt{"@ + seq![a] + "}"@;
    assert(c =~= seq!['\\', 's', 'q', 'r', 't', '{', a, '}']);
    assert(c.len() == 8);
    assert(c[0] == '\\' && c[1] == 's' && c[2] == 'q' && c[3] == 'r' && c[4] == 't' && c[5] == '{'
        && c[6] == a && c[7] == '}');
    let rest = c.skip(1);
    lemma_span(rest, letter_class(), 4);
    assert(rest.take(4) =~= "sqrt"@);
    assert("sqrt"@[0] != "frac"@[0]);
    assert(after_name(c, 1) == 5);
    lemma_one_letter_group(c, 5, a);
    crate::text::law_trimmed_stays(seq![a]);
    let shown = "√"@ + seq![a];
    assert(command_text(c, 1) == (shown, 8int));
    assert(item_text(c, 0) == (shown, 8int));
    assert(sequence_text(c, 8, None) == (Seq::<char>::empty(), 8int));
    assert(shown + Seq::<char>::empty() =~= shown);
    assert(sequence_text(c, 0, None).0 == shown);
    law_short_formulas_are_shallow(c);
    assert(shown =~= seq!['√', a]);
    crate::text::law_one_word(shown);
}

/// A short formula never goes too deep.
pub proof fn law_short_formulas_are_shallow(c: Seq<char>)
    requires
        c.len() <= MAX_MATH_NESTING,
    ensures
        brace_depth(c, c.len()).1 <= MAX_MATH_NESTING,
{
    lemma_depth_bound(c, c.len());
}

proof fn lemma_depth_bound(c: Seq<char>, n: nat)
    ensures
        brace_depth(c, n).0 <= n,
        brace_depth(c, n).1 <= n,
    decreases n,
{
    if n > 0 {
        lemma_depth_bound(c, (n - 1) as nat);
    }
}

// ---------------------------------------------------------------------------
// Formulas of several lines

/// A fraction stands over several lines: what is divided above, a bar, and what it is divided
/// by below, every line of both.
pub proof fn law_a_fraction_stands_over_its_bar(
    top: MathTextBoxModel,
    bottom: MathTextBoxModel,
    i: int,
    j: int,
)
    requires
        0 <= i < top.lines.len(),
        0 <= j < bottom.lines.len(),
        top.lines.len() <= usize::MAX,
    ensures
        ({
            let f = over(top, bottom);
            let n = top.lines.len() as int;
            &&& f.lines.len() == n + 1 + bottom.lines.len()
            &&& f.baseline == n
            &&& occurs(f.lines[i], top.lines[i])
            &&& occurs(f.lines[n + 1 + j], bottom.lines[j])
            &&& forall|k: int| 0 <= k < f.lines[n].len() ==> #[trigger] f.lines[n][k] == '─'
        }),
{
    let f = over(top, bottom);
    let n = top.lines.len() as int;
    let width = bounded(greater(greater(top.width as int, bottom.width as int), 1) + 2);
    assert(f.lines[i] == centered(top.lines[i], width));
    assert(f.lines[n + 1 + j] == centered(bottom.lines[j], width));
    lemma_centered_holds(top.lines[i], width);
    lemma_centered_holds(bottom.lines[j], width);
    assert(f.lines[n] == repeated('─', width as int));
}

proof fn lemma_centered_holds(line: Seq<char>, width: nat)
    ensures
        occurs(centered(line, width), line),
{
    let total = if width > width_of(line) {
        width - width_of(line)
    } else {
        0
    };
    law_a_part_occurs(repeated(' ', total / 2), line, repeated(' ', total - total / 2));
}

/// Two parts of a formula stand beside each other on one base line, and every line of both is
/// there.
pub proof fn law_parts_stand_beside_each_other(
    left: MathTextBoxModel,
    right: MathTextBoxModel,
    i: int,
    j: int,
)
    requires
        left.baseline < left.lines.len() <= usize::MAX,
        right.baseline < right.lines.len() <= usize::MAX,
        left.width > 0,
        0 <= i < left.lines.len(),
        0 <= j < right.lines.len(),
    ensures
        ({
            let b = beside(left, right);
            let up = b.baseline;
            &&& up >= left.baseline && up >= right.baseline
            &&& 0 <= i + up - left.baseline < b.lines.len()
            &&& 0 <= j + up - right.baseline < b.lines.len()
            &&& has_prefix(b.lines[i + up - left.baseline], left.lines[i])
            &&& occurs(b.lines[j + up - right.baseline], right.lines[j])
        }),
{
    let b = beside(left, right);
    let above = greater(left.baseline as int, right.baseline as int);
    let x = i + above - left.baseline;
    let y = j + above - right.baseline;
    assert(box_row(left, x, above) == left.lines[i]);
    assert(box_row(right, y, above) == right.lines[j]);
    let l = left.lines[i];
    let pl = repeated(' ', left.width as nat - width_of(l));
    let rest = padded(box_row(right, x, above), right.width as nat);
    law_writing_on_loses_nothing(l, pl);
    law_writing_on_loses_nothing(l + pl, rest);
    let r = right.lines[j];
    let pr = repeated(' ', right.width as nat - width_of(r));
    let first = padded(box_row(left, y, above), left.width as nat);
    law_a_part_occurs(first, r, pr);
    assert(first + r + pr =~= first + (r + pr));
}

} // verus!
