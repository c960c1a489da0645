//! Tool arguments as plain values: what a call's argument object holds under
//! each key, as far as the tools read it.

use crate::text::{same, views};
use vstd::prelude::*;
use vstd::string::*;

verus! {

/// A single argument value. A number that is not whole is kept as its text, a
/// nested object or list as its kind only, since no tool reads into it.
pub enum Scalar {
    Null,
    Bool(bool),
    Unsigned(u64),
    Negative(i64),
    Fraction(String),
    Text(String),
    Compound,
}

/// The value of a [`Scalar`].
pub enum ScalarModel {
    Null,
    Bool(bool),
    Unsigned(u64),
    Negative(i64),
    Fraction(Seq<char>),
    Text(Seq<char>),
    Compound,
}

impl View for Scalar {
    type V = ScalarModel;

    open spec fn view(&self) -> ScalarModel {
        match *self {
            Scalar::Null => ScalarModel::Null,
            Scalar::Bool(b) => ScalarModel::Bool(b),
            Scalar::Unsigned(n) => ScalarModel::Unsigned(n),
            Scalar::Negative(n) => ScalarModel::Negative(n),
            Scalar::Fraction(t) => ScalarModel::Fraction(t@),
            Scalar::Text(t) => ScalarModel::Text(t@),
            Scalar::Compound => ScalarModel::Compound,
        }
    }
}

/// An argument: one value, or a list of values.
pub enum Argument {
    One(Scalar),
    List(Vec<Scalar>),
}

/// The value of an [`Argument`].
pub enum ArgumentModel {
    One(ScalarModel),
    List(Seq<ScalarModel>),
}

impl View for Argument {
    type V = ArgumentModel;

    open spec fn view(&self) -> ArgumentModel {
        match *self {
            Argument::One(v) => ArgumentModel::One(v@),
            Argument::List(v) => ArgumentModel::List(views(v@)),
        }
    }
}

/// An argument under its key.
pub struct Entry {
    pub key: String,
    pub value: Argument,
}

/// The argument object of a tool call.
pub struct Arguments {
    pub entries: Vec<Entry>,
}

/// The argument under `key`: that of the first entry with it.
pub open spec fn lookup(entries: Seq<Entry>, key: Seq<char>) -> Option<Argument>
    decreases entries.len(),
{
    if entries.len() == 0 {
        None
    } else if entries[0].key@ == key {
        Some(entries[0].value)
    } else {
        lookup(entries.drop_first(), key)
    }
}

/// The text of a value.
pub open spec fn scalar_text(v: Scalar) -> Option<Seq<char>> {
    match v {
        Scalar::Text(s) => Some(s@),
        _ => None,
    }
}

/// The whole number that a value is, where an `i64` holds it.
pub open spec fn scalar_integer(v: Scalar) -> Option<i64> {
    match v {
        Scalar::Unsigned(n) => if n <= i64::MAX {
            Some(n as i64)
        } else {
            None
        },
        Scalar::Negative(n) => Some(n),
        _ => None,
    }
}

/// The whole number, not below zero, that a value is.
pub open spec fn scalar_unsigned(v: Scalar) -> Option<u64> {
    match v {
        Scalar::Unsigned(n) => Some(n),
        Scalar::Negative(n) => if n >= 0 {
            Some(n as u64)
        } else {
            None
        },
        _ => None,
    }
}

impl Arguments {
    /// What stands under `key`.
    pub open spec fn at(&self, key: Seq<char>) -> Option<Argument> {
        lookup(self.entries@, key)
    }

    /// The text under `key`.
    pub open spec fn text_at(&self, key: Seq<char>) -> Option<Seq<char>> {
        match self.at(key) {
            Some(Argument::One(v)) => scalar_text(v),
            _ => None,
        }
    }

    /// The `i64` under `key`.
    pub open spec fn integer_at(&self, key: Seq<char>) -> Option<i64> {
        match self.at(key) {
            Some(Argument::One(v)) => scalar_integer(v),
            _ => None,
        }
    }

    /// The `u64` under `key`.
    pub open spec fn unsigned_at(&self, key: Seq<char>) -> Option<u64> {
        match self.at(key) {
            Some(Argument::One(v)) => scalar_unsigned(v),
            _ => None,
        }
    }

    /// The truth value under `key`.
    pub open spec fn bool_at(&self, key: Seq<char>) -> Option<bool> {
        match self.at(key) {
            Some(Argument::One(Scalar::Bool(b))) => Some(b),
            _ => None,
        }
    }

    /// Whether nothing or a null stands under `key`.
    pub open spec fn absent_at(&self, key: Seq<char>) -> bool {
        match self.at(key) {
            None => true,
            Some(Argument::One(Scalar::Null)) => true,
            _ => false,
        }
    }

    /// What stands under `key`.
    pub fn get(&self, key: &str) -> (r: Option<&Argument>)
        ensures
            match r {
                Some(v) => self.at(key@) == Some(*v),
                None => self.at(key@) is None,
            },
    {
        let mut i: usize = 0;
        assert(self.entries@.skip(0) =~= self.entries@);
        while i < self.entries.len()
            invariant
                i <= self.entries.len(),
                lookup(self.entries@.skip(i as int), key@) == self.at(key@),
            decreases self.entries.len() - i,
        {
            if same(&self.entries[i].key, key) {
                return Some(&self.entries[i].value);
            }
            assert(self.entries@.skip(i as int).drop_first() =~= self.entries@.skip(i + 1));
            i += 1;
        }
        None
    }

    /// The text under `key`.
    pub fn text(&self, key: &str) -> (r: Option<String>)
        ensures
            match r {
                Some(s) => self.text_at(key@) == Some(s@),
                None => self.text_at(key@) is None,
            },
    {
        match self.get(key) {
            Some(Argument::One(Scalar::Text(s))) => Some(s.clone()),
            _ => None,
        }
    }

    /// The text under `key`, or the empty text.
    pub fn text_or_empty(&self, key: &str) -> (r: String)
        ensures
            r@ == (match self.text_at(key@) {
                Some(s) => s,
                None => Seq::<char>::empty(),
            }),
    {
        match self.text(key) {
            Some(s) => s,
            None => String::new(),
        }
    }

    /// The `i64` under `key`.
    pub fn integer(&self, key: &str) -> (r: Option<i64>)
        ensures
            r == self.integer_at(key@),
    {
        match self.get(key) {
            Some(Argument::One(v)) => integer_of(v),
            _ => None,
        }
    }

    /// The `u64` under `key`.
    pub fn unsigned(&self, key: &str) -> (r: Option<u64>)
        ensures
            r == self.unsigned_at(key@),
    {
        match self.get(key) {
            Some(Argument::One(Scalar::Unsigned(n))) => Some(*n),
            Some(Argument::One(Scalar::Negative(n))) => if *n >= 0 {
                Some(*n as u64)
            } else {
                None
            },
            _ => None,
        }
    }

    /// The truth value under `key`.
    pub fn boolean(&self, key: &str) -> (r: Option<bool>)
        ensures
            r == self.bool_at(key@),
    {
        match self.get(key) {
            Some(Argument::One(Scalar::Bool(b))) => Some(*b),
            _ => None,
        }
    }

    /// Whether nothing or a null stands under `key`.
    pub fn is_absent(&self, key: &str) -> (r: bool)
        ensures
            r == self.absent_at(key@),
    {
        match self.get(key) {
            None => true,
            Some(Argument::One(Scalar::Null)) => true,
            _ => false,
        }
    }
}

/// The whole number that a value is, where an `i64` holds it.
pub fn integer_of(v: &Scalar) -> (r: Option<i64>)
    ensures
        r == scalar_integer(*v),
{
    match v {
        Scalar::Unsigned(n) => if *n <= i64::MAX as u64 {
            Some(*n as i64)
        } else {
            None
        },
        Scalar::Negative(n) => Some(*n),
        _ => None,
    }
}

/// The argument under a key is that of the first entry with it, and there is none where no
/// entry has it.
pub proof fn law_arguments_are_found(args: Arguments, key: Seq<char>, i: int)
    ensures
        0 <= i < args.entries@.len() && args.entries@[i].key@ == key && (forall|j: int|
            0 <= j < i ==> (#[trigger] args.entries@[j]).key@ != key) ==> args.at(key) == Some(
            args.entries@[i].value,
        ),
        (forall|j: int| 0 <= j < args.entries@.len() ==> (#[trigger] args.entries@[j]).key@ != key)
            ==> args.at(key) is None,
{
    lemma_found(args.entries@, key, i);
}

proof fn lemma_found(entries: Seq<Entry>, key: Seq<char>, i: int)
    ensures
        0 <= i < entries.len() && entries[i].key@ == key && (forall|j: int|
            0 <= j < i ==> (#[trigger] entries[j]).key@ != key) ==> lookup(entries, key) == Some(
            entries[i].value,
        ),
        (forall|j: int| 0 <= j < entries.len() ==> (#[trigger] entries[j]).key@ != key) ==> lookup(
            entries,
            key,
        ) is None,
    decreases entries.len(),
{
    if entries.len() > 0 {
        let rest = entries.drop_first();
        lemma_found(rest, key, i - 1);
        assert(forall|j: int| 0 <= j < rest.len() ==> rest[j] == entries[j + 1]);
        assert(entries[0] == entries[0]);
    }
}

/// A value is read as what it is, and only as that.
pub proof fn law_values_are_read_as_they_are(
    args: Arguments,
    key: Seq<char>,
    s: String,
    n: u64,
    m: i64,
    b: bool,
)
    ensures
        args.at(key) == Some(Argument::One(Scalar::Text(s))) ==> args.text_at(key) == Some(s@)
            && args.integer_at(key) is None && args.unsigned_at(key) is None && args.bool_at(
            key,
        ) is None && !args.absent_at(key),
        args.at(key) == Some(Argument::One(Scalar::Unsigned(n))) ==> args.unsigned_at(key) == Some(n)
            && (n <= i64::MAX ==> args.integer_at(key) == Some(n as i64)) && args.text_at(
            key,
        ) is None && args.bool_at(key) is None && !args.absent_at(key),
        args.at(key) == Some(Argument::One(Scalar::Negative(m))) ==> args.integer_at(key) == Some(m)
            && (m < 0 ==> args.unsigned_at(key) is None),
        args.at(key) == Some(Argument::One(Scalar::Bool(b))) ==> args.bool_at(key) == Some(b)
            && args.text_at(key) is None && args.unsigned_at(key) is None && !args.absent_at(key),
        args.at(key) is None || args.at(key) == Some(Argument::One(Scalar::Null))
            ==> args.absent_at(key) && args.text_at(key) is None && args.integer_at(key) is None
            && args.unsigned_at(key) is None && args.bool_at(key) is None,
{
}

} // verus!
