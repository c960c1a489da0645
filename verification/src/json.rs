//! Texts in JSON: what they hold, and how they are written.

use crate::arguments::{lookup, Argument, ArgumentModel, Arguments, Entry, Scalar, ScalarModel};
use crate::text::{opt_text, opt_view, res_text, texts, views};
use serde_json::Value;
use vstd::prelude::*;

verus! {

// ---------------------------------------------------------------------------
// Reading

/// What a text is as JSON: whether it is an object, or why it is none at all.
pub uninterp spec fn json_reading(text: Seq<char>) -> Result<bool, Seq<char>>;

/// `serde_json::from_str` reads a text as JSON, and `is_object` tells whether that is an
/// object. Both, and the words of the error, depend on the text alone.
#[verifier::external_body]
pub(crate) fn read_json(text: &str) -> (r: Result<bool, String>)
    ensures
        res_text(r) == json_reading(text@),
{
    match serde_json::from_str::<Value>(text) {
        Ok(value) => Ok(value.is_object()),
        Err(error) => Err(error.to_string()),
    }
}

/// The items of the list that stands at `at` in a JSON text, each as JSON: none where no
/// list stands there. `at` is a JSON pointer; the empty one stands for the whole.
pub uninterp spec fn json_items(text: Seq<char>, at: Seq<char>) -> Option<Seq<Seq<char>>>;

/// `serde_json::from_str`, `Value::pointer` and `Value::as_array` find the list at a
/// place in a JSON text, and `Value::to_string` writes each of its items. They depend on
/// the two texts alone.
#[verifier::external_body]
pub(crate) fn read_items(text: &str, at: &str) -> (r: Option<Vec<String>>)
    ensures
        (match r {
            Some(v) => Some(texts(v@)),
            None => None,
        }) == json_items(text@, at@),
{
    let value = serde_json::from_str::<Value>(text).ok()?;
    let items = value.pointer(at)?.as_array()?;
    Some(items.iter().map(|item| item.to_string()).collect())
}

/// What stands under `key` in the object at `at` in a JSON text: none where there is no
/// such object, or nothing under that key.
pub uninterp spec fn json_argument(text: Seq<char>, at: Seq<char>, key: Seq<char>) -> Option<
    ArgumentModel,
>;

/// `serde_json::from_str`, `Value::pointer` and `Value::get` find what stands under a key
/// in an object of a JSON text, and each kind of `Value` is taken for the scalar of that
/// kind; a number that is not whole is written by `Number::to_string`. It depends on the
/// three texts alone.
#[verifier::external_body]
pub(crate) fn read_argument(text: &str, at: &str, key: &str) -> (r: Option<Argument>)
    ensures
        opt_view(r) == json_argument(text@, at@, key@),
{
    let one = |v: &Value| match v {
        Value::Null => Scalar::Null,
        Value::Bool(b) => Scalar::Bool(*b),
        Value::Number(n) => n.as_u64().map(Scalar::Unsigned).or(n.as_i64().map(Scalar::Negative))
            .unwrap_or_else(|| Scalar::Fraction(n.to_string())),
        Value::String(s) => Scalar::Text(s.clone()),
        Value::Array(_) | Value::Object(_) => Scalar::Compound,
    };
    match serde_json::from_str::<Value>(text).ok()?.pointer(at)?.get(key)? {
        Value::Array(items) => Some(Argument::List(items.iter().map(one).collect())),
        v => Some(Argument::One(one(v))),
    }
}

/// The keys of the object that stands at `at` in a JSON text: none where no object stands
/// there.
pub uninterp spec fn json_keys(text: Seq<char>, at: Seq<char>) -> Option<Seq<Seq<char>>>;

/// `serde_json::from_str`, `Value::pointer`, `Value::as_object` and `Map::keys` list the
/// keys of an object of a JSON text: those under which something stands. They depend on
/// the two texts alone.
#[verifier::external_body]
pub(crate) fn read_keys(text: &str, at: &str) -> (r: Option<Vec<String>>)
    ensures
        (match r {
            Some(v) => Some(texts(v@)),
            None => None,
        }) == json_keys(text@, at@),
        r is None ==> forall|k: Seq<char>| (#[trigger] json_argument(text@, at@, k)) is None,
        r is Some ==> forall|k: Seq<char>|
            (#[trigger] json_argument(text@, at@, k)) is Some <==> texts(r->0@).contains(k),
{
    let value = serde_json::from_str::<Value>(text).ok()?;
    Some(value.pointer(at)?.as_object()?.keys().cloned().collect())
}

/// The text that a JSON text holds, where it is one.
pub uninterp spec fn json_string(text: Seq<char>) -> Option<Seq<char>>;

/// `serde_json::from_str` and `Value::as_str` read the text that a JSON text holds. It
/// depends on the JSON text alone.
#[verifier::external_body]
pub(crate) fn read_string(text: &str) -> (r: Option<String>)
    ensures
        opt_text(r) == json_string(text@),
{
    serde_json::from_str::<Value>(text).ok()?.as_str().map(|s| s.to_owned())
}

/// The text of an argument that is one.
pub open spec fn argument_text(a: Option<ArgumentModel>) -> Option<Seq<char>> {
    match a {
        Some(ArgumentModel::One(ScalarModel::Text(s))) => Some(s),
        _ => None,
    }
}

/// The text under `key` in the object that a JSON text is.
pub open spec fn json_text(text: Seq<char>, key: Seq<char>) -> Option<Seq<char>> {
    argument_text(json_argument(text, ""@, key))
}

/// The text under `key` in the object that a JSON text is.
pub fn text_under(text: &str, key: &str) -> (r: Option<String>)
    ensures
        opt_text(r) == json_text(text@, key@),
{
    match read_argument(text, "", key) {
        Some(Argument::One(Scalar::Text(s))) => Some(s),
        _ => None,
    }
}

/// Whether an object stands at `at` in a JSON text.
pub fn is_object_at(text: &str, at: &str) -> (r: bool)
    ensures
        r == (json_keys(text@, at@) is Some),
{
    read_keys(text, at).is_some()
}

/// Whether arguments are those of the object at `at` in a JSON text; none where no object
/// stands there.
pub open spec fn holds_arguments(args: Arguments, text: Seq<char>, at: Seq<char>) -> bool {
    forall|k: Seq<char>| opt_view(args.at(k)) == #[trigger] json_argument(text, at, k)
}

proof fn lemma_lookup_found(entries: Seq<Entry>, i: int, key: Seq<char>)
    requires
        0 <= i < entries.len(),
        entries[i].key@ == key,
    ensures
        lookup(entries, key) is Some,
        exists|j: int|
            0 <= j < entries.len() && (#[trigger] entries[j]).key@ == key && lookup(entries, key)
                == Some(entries[j].value),
    decreases entries.len(),
{
    if entries[0].key@ == key {
        assert(entries[0].key@ == key);
    } else {
        let rest = entries.drop_first();
        assert(rest[i - 1] == entries[i]);
        lemma_lookup_found(rest, i - 1, key);
        let j = choose|j: int|
            0 <= j < rest.len() && (#[trigger] rest[j]).key@ == key && lookup(rest, key) == Some(
                rest[j].value,
            );
        assert(entries[j + 1] == rest[j]);
    }
}

proof fn lemma_lookup_missing(entries: Seq<Entry>, key: Seq<char>)
    requires
        forall|i: int| 0 <= i < entries.len() ==> (#[trigger] entries[i]).key@ != key,
    ensures
        lookup(entries, key) is None,
    decreases entries.len(),
{
    if entries.len() > 0 {
        let rest = entries.drop_first();
        assert(entries[0].key@ != key);
        assert forall|i: int| 0 <= i < rest.len() implies (#[trigger] rest[i]).key@ != key by {
            assert(rest[i] == entries[i + 1]);
        }
        lemma_lookup_missing(rest, key);
    }
}

/// The arguments that the object at `at` in a JSON text holds; none where no object stands
/// there.
pub fn arguments_at(text: &str, at: &str) -> (r: Arguments)
    ensures
        holds_arguments(r, text@, at@),
{
    let mut entries: Vec<Entry> = Vec::new();
    match read_keys(text, at) {
        None => {}
        Some(keys) => {
            let mut i: usize = 0;
            while i < keys.len()
                invariant
                    i <= keys.len(),
                    forall|k: Seq<char>|
                        (#[trigger] json_argument(text@, at@, k)) is Some <==> texts(
                            keys@,
                        ).contains(k),
                    forall|j: int|
                        0 <= j < entries.len() ==> Some((#[trigger] entries@[j]).value@)
                            == json_argument(text@, at@, entries@[j].key@),
                    forall|j: int|
                        0 <= j < i ==> exists|n: int|
                            0 <= n < entries.len() && (#[trigger] entries@[n]).key@ == (
                            #[trigger] keys@[j])@,
                decreases keys.len() - i,
            {
                let ghost before = entries@;
                assert(texts(keys@)[i as int] == keys@[i as int]@);
                assert(texts(keys@).contains(keys@[i as int]@));
                if let Some(value) = read_argument(text, at, &keys[i]) {
                    entries.push(Entry { key: keys[i].clone(), value: value });
                    assert(entries@[before.len() as int].key@ == keys@[i as int]@);
                    assert forall|j: int| 0 <= j < i + 1 implies exists|n: int|
                        0 <= n < entries.len() && (#[trigger] entries@[n]).key@ == (
                        #[trigger] keys@[j])@ by {
                        if j < i {
                            let n = choose|n: int|
                                0 <= n < before.len() && (#[trigger] before[n]).key@ == keys@[j]@;
                            assert(entries@[n] == before[n]);
                        }
                    }
                }
                i += 1;
            }
            proof {
                assert forall|k: Seq<char>| texts(keys@).contains(k) implies exists|n: int|
                    0 <= n < entries.len() && (#[trigger] entries@[n]).key@ == k by {
                    let j = choose|j: int| 0 <= j < texts(keys@).len() && texts(keys@)[j] == k;
                    assert(keys@[j]@ == k);
                }
            }
        }
    }
    let r: Arguments = Arguments { entries: entries };
    proof {
        assert forall|k: Seq<char>| opt_view(r.at(k)) == #[trigger] json_argument(
            text@,
            at@,
            k,
        ) by {
            if json_argument(text@, at@, k) is Some {
                let n = choose|n: int|
                    0 <= n < r.entries@.len() && (#[trigger] r.entries@[n]).key@ == k;
                lemma_lookup_found(r.entries@, n, k);
            } else {
                assert forall|n: int| 0 <= n < r.entries@.len() implies (
                #[trigger] r.entries@[n]).key@ != k by {
                    assert(Some(r.entries@[n].value@) == json_argument(
                        text@,
                        at@,
                        r.entries@[n].key@,
                    ));
                }
                lemma_lookup_missing(r.entries@, k);
            }
        }
    }
    r
}

/// The texts of a list of arguments.
pub open spec fn list_texts(list: Seq<ScalarModel>) -> Seq<Seq<char>>
    decreases list.len(),
{
    if list.len() == 0 {
        seq![]
    } else {
        let before = list_texts(list.drop_last());
        match list.last() {
            ScalarModel::Text(s) => before.push(s),
            _ => before,
        }
    }
}

/// The texts among items that are given as JSON.
pub open spec fn item_texts(items: Seq<Seq<char>>) -> Seq<Seq<char>>
    decreases items.len(),
{
    if items.len() == 0 {
        seq![]
    } else {
        let before = item_texts(items.drop_last());
        match json_string(items.last()) {
            Some(s) => before.push(s),
            None => before,
        }
    }
}

/// The texts of a list, which may also be written as a JSON text that holds the list.
pub open spec fn texts_of_list(a: Option<ArgumentModel>) -> Seq<Seq<char>> {
    match a {
        Some(ArgumentModel::List(list)) => list_texts(list),
        Some(ArgumentModel::One(ScalarModel::Text(s))) => match json_items(s, ""@) {
            Some(items) => item_texts(items),
            None => seq![],
        },
        _ => seq![],
    }
}

fn texts_in(list: &Vec<Scalar>) -> (r: Vec<String>)
    ensures
        texts(r@) == list_texts(views(list@)),
{
    let ghost all = views(list@);
    let mut out: Vec<String> = Vec::new();
    let mut i: usize = 0;
    assert(all.take(0) =~= seq![]);
    assert(texts(out@) =~= seq![]);
    while i < list.len()
        invariant
            i <= list.len(),
            all == views(list@),
            texts(out@) == list_texts(all.take(i as int)),
        decreases list.len() - i,
    {
        assert(all.take(i + 1).drop_last() =~= all.take(i as int));
        assert(all[i as int] == list@[i as int]@);
        if let Scalar::Text(s) = &list[i] {
            let ghost before = texts(out@);
            out.push(s.clone());
            assert(texts(out@) =~= before.push(s@));
        }
        i += 1;
    }
    assert(all.take(list.len() as int) =~= all);
    out
}

fn texts_of_items(items: &Vec<String>) -> (r: Vec<String>)
    ensures
        texts(r@) == item_texts(texts(items@)),
{
    let ghost all = texts(items@);
    let mut out: Vec<String> = Vec::new();
    let mut i: usize = 0;
    assert(all.take(0) =~= seq![]);
    assert(texts(out@) =~= seq![]);
    while i < items.len()
        invariant
            i <= items.len(),
            all == texts(items@),
            texts(out@) == item_texts(all.take(i as int)),
        decreases items.len() - i,
    {
        assert(all.take(i + 1).drop_last() =~= all.take(i as int));
        assert(all[i as int] == items@[i as int]@);
        if let Some(s) = read_string(&items[i]) {
            let ghost before = texts(out@);
            out.push(s);
            assert(texts(out@) =~= before.push(s@));
        }
        i += 1;
    }
    assert(all.take(items.len() as int) =~= all);
    out
}

/// The texts of a list, which may also be written as a JSON text that holds the list: a
/// model that quotes a list means the list.
pub fn string_list(a: Option<&Argument>) -> (r: Vec<String>)
    ensures
        texts(r@) == texts_of_list(
            match a {
                Some(x) => Some(x@),
                None => None,
            },
        ),
{
    let none: Vec<String> = Vec::new();
    assert(texts(none@) =~= seq![]);
    match a {
        Some(Argument::List(list)) => texts_in(list),
        Some(Argument::One(Scalar::Text(s))) => match read_items(s, "") {
            Some(items) => texts_of_items(&items),
            None => none,
        },
        _ => none,
    }
}

// ---------------------------------------------------------------------------
// Writing

/// A text as JSON.
pub uninterp spec fn json_quoted(s: Seq<char>) -> Seq<char>;

/// `serde_json::Value::to_string` of a text writes it as JSON. It depends on the text
/// alone, and is read back as that text.
#[verifier::external_body]
pub(crate) fn write_text(s: &str) -> (r: String)
    ensures
        r@ == json_quoted(s@),
        json_string(r@) == Some(s@),
{
    Value::String(s.to_owned()).to_string()
}

/// An object as JSON: its keys, and under each a value that is given as JSON.
pub uninterp spec fn json_object(keys: Seq<Seq<char>>, values: Seq<Seq<char>>) -> Seq<char>;

/// A list as JSON, of items that are given as JSON.
pub uninterp spec fn json_array(items: Seq<Seq<char>>) -> Seq<char>;

/// Whether a JSON text is a text or a truth value.
pub open spec fn plain(value: Seq<char>) -> bool {
    json_string(value) is Some || value == "true"@ || value == "false"@
}

/// Whether JSON texts are all plain.
pub open spec fn all_plain(values: Seq<Seq<char>>) -> bool {
    forall|i: int| 0 <= i < values.len() ==> plain(#[trigger] values[i])
}

/// Whether a JSON text is an object of plain values.
pub open spec fn plain_object(value: Seq<char>) -> bool {
    exists|keys: Seq<Seq<char>>, values: Seq<Seq<char>>|
        keys.len() == values.len() && all_plain(values) && value == #[trigger] json_object(
            keys,
            values,
        )
}

/// Whether a JSON text is a list of objects of plain values.
pub open spec fn plain_list(value: Seq<char>) -> bool {
    exists|items: Seq<Seq<char>>|
        (forall|i: int| 0 <= i < items.len() ==> plain_object(#[trigger] items[i])) && value
            == #[trigger] json_array(items)
}

/// Whether JSON texts are each plain, an object of plain values or a list of such objects.
pub open spec fn all_flat(values: Seq<Seq<char>>) -> bool {
    forall|i: int|
        0 <= i < values.len() ==> plain(#[trigger] values[i]) || plain_object(values[i])
            || plain_list(values[i])
}

/// `serde_json::from_str` reads each value, `serde_json::Map` takes it under its key, and
/// `Value::to_string` writes the object; what cannot be read is null. It depends on the
/// keys and values alone. Nothing stands under any other key, and under a key that
/// stands there once a text is read back as it was written; the latter is said only where
/// the values are flat, as `from_str` gives up on what is nested too deeply.
#[verifier::external_body]
pub(crate) fn write_object(keys: &Vec<String>, values: &Vec<String>) -> (r: String)
    requires
        keys.len() == values.len(),
    ensures
        r@ == json_object(texts(keys@), texts(values@)),
        forall|k: Seq<char>|
            !texts(keys@).contains(k) ==> (#[trigger] json_argument(r@, ""@, k)) is None,
        texts(keys@).no_duplicates() && all_flat(texts(values@)) ==> forall|i: int|
            0 <= i < keys.len() && json_string(#[trigger] texts(values@)[i]) is Some
                ==> json_text(r@, texts(keys@)[i]) == json_string(texts(values@)[i]),
{
    let read = values.iter().map(|v| serde_json::from_str::<Value>(v).unwrap_or_default());
    Value::Object(keys.iter().cloned().zip(read).collect()).to_string()
}

/// `serde_json::from_str` reads each item, and `Value::to_string` writes the list of them;
/// what cannot be read is null. It depends on the items alone.
#[verifier::external_body]
pub(crate) fn write_array(items: &Vec<String>) -> (r: String)
    ensures
        r@ == json_array(texts(items@)),
{
    let read = items.iter().map(|v| serde_json::from_str::<Value>(v).unwrap_or_default());
    Value::Array(read.collect()).to_string()
}

/// Of a list the texts are taken, in their order, and of a text itself.
pub proof fn law_texts_of_a_list(a: Seq<ScalarModel>, s: Seq<char>, n: u64)
    ensures
        list_texts(a.push(ScalarModel::Text(s))) == list_texts(a).push(s),
        list_texts(a.push(ScalarModel::Unsigned(n))) == list_texts(a),
        list_texts(a.push(ScalarModel::Null)) == list_texts(a),
        list_texts(Seq::empty()).len() == 0,
        argument_text(Some(ArgumentModel::One(ScalarModel::Text(s)))) == Some(s),
        argument_text(Some(ArgumentModel::One(ScalarModel::Unsigned(n)))) is None,
        argument_text(None) is None,
        texts_of_list(Some(ArgumentModel::List(a))) == list_texts(a),
        texts_of_list(None).len() == 0,
{
    assert(a.push(ScalarModel::Text(s)).drop_last() =~= a);
    assert(a.push(ScalarModel::Unsigned(n)).drop_last() =~= a);
    assert(a.push(ScalarModel::Null).drop_last() =~= a);
}

} // verus!
