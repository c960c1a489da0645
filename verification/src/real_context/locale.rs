//! The language of logs.

use crate::text::{
    first_chars, is_blank, is_white, join, joined, law_one_word, take_at_most, text_words, trim,
    words,
};
use vstd::prelude::*;
use vstd::string::*;

verus! {

/// The language of logs.
#[derive(Clone, Copy, Debug, PartialEq, Eq, Structural)]
pub enum Locale {
    Zh,
    En,
}

/// The text in the language.
pub open spec fn in_locale(locale: Locale, english: Seq<char>, chinese: Seq<char>) -> Seq<char> {
    match locale {
        Locale::Zh => chinese,
        Locale::En => english,
    }
}

/// The text in the language.
pub fn text_for<'a>(locale: Locale, english: &'a str, chinese: &'a str) -> (r: &'a str)
    ensures
        r@ == in_locale(locale, english@, chinese@),
{
    match locale {
        Locale::Zh => chinese,
        Locale::En => english,
    }
}

/// A value, or what stands for it where it is blank.
pub open spec fn or_if_blank(value: Seq<char>, fallback: Seq<char>) -> Seq<char> {
    if trim(value).len() == 0 {
        fallback
    } else {
        value
    }
}

/// A value, or what stands for it where it is blank.
pub fn empty_log_value<'a>(value: &'a str, fallback: &'a str) -> (r: &'a str)
    ensures
        r@ == or_if_blank(value@, fallback@),
{
    if is_blank(value) {
        fallback
    } else {
        value
    }
}

/// A text on one line, at most `max` characters of it.
pub open spec fn single_line(s: Seq<char>, max: nat) -> Seq<char> {
    take_at_most(join(words(s), " "@), max)
}

/// A text on one line, at most `max` characters of it.
pub fn bounded_single_line(s: &str, max: usize) -> (r: String)
    ensures
        r@ == single_line(s@, max as nat),
{
    let parts: Vec<String> = text_words(s);
    let flat: String = joined(&parts, " ");
    first_chars(&flat, max)
}

/// A line of the log holds the words of a text in their order, as far as there is room, and
/// one word that fits stands as it is.
pub proof fn law_a_line_holds_the_words(s: Seq<char>, max: nat)
    ensures
        single_line(s, max).is_prefix_of(join(words(s), " "@)),
        join(words(s), " "@).len() <= max ==> single_line(s, max) == join(words(s), " "@),
        join(words(s), " "@).len() > max ==> single_line(s, max).len() == max,
        0 < s.len() <= max && (forall|i: int| 0 <= i < s.len() ==> !is_white(#[trigger] s[i]))
            ==> single_line(s, max) == s,
{
    if 0 < s.len() <= max && (forall|i: int| 0 <= i < s.len() ==> !is_white(#[trigger] s[i])) {
        law_one_word(s);
    }
}

/// What is said in a language is said in that language, and what is given is shown unless it
/// is blank.
pub proof fn law_what_is_given_is_shown(english: Seq<char>, chinese: Seq<char>, s: Seq<char>)
    ensures
        in_locale(Locale::En, english, chinese) == english,
        in_locale(Locale::Zh, english, chinese) == chinese,
        trim(s).len() > 0 ==> or_if_blank(s, english) == s,
        trim(s).len() == 0 ==> or_if_blank(s, english) == english,
{
}

} // verus!
