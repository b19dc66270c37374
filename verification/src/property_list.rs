//! What the library knows of the property lists of the `plist` crate.
//!
//! A property list value and a dictionary are opaque to the verifier. Two names, `value_node`
//! and `dictionary_entries`, stand for what they hold, and each function of the crate that
//! the library calls is described by what it does to those contents.

use std::time::SystemTime;

use vstd::prelude::*;

verus! {

/// The values of the `plist` crate.
#[verifier::external_type_specification]
#[verifier::external_body]
pub struct ExValue(plist::Value);

/// The dictionaries of the `plist` crate.
#[verifier::external_type_specification]
#[verifier::external_body]
pub struct ExDictionary(plist::Dictionary);

/// The points in time of the standard library, which are only carried through.
#[verifier::external_type_specification]
#[verifier::external_body]
pub struct ExSystemTime(std::time::SystemTime);

/// The content of a property list value.
pub enum Node {
    Data(Seq<u8>),
    Date(SystemTime),
    Dictionary(Seq<(Seq<char>, Node)>),
    Integer(int),
    Text(Seq<char>),
    /// An array, a boolean, a real number or a unique identifier.
    Other,
}

/// The entries of a dictionary, in the order in which their keys were first inserted.
pub type Entries = Seq<(Seq<char>, Node)>;

/// The entries that a dictionary holds.
pub uninterp spec fn dictionary_entries(dictionary: plist::Dictionary) -> Entries;

/// The content that a value holds.
pub uninterp spec fn value_node(value: plist::Value) -> Node;

/// Whether a key stands at a place.
pub open spec fn key_at(entries: Entries, key: Seq<char>, i: int) -> bool {
    0 <= i < entries.len() && entries[i].0 == key
}

/// Whether a key stands among the entries.
pub open spec fn has_key(entries: Entries, key: Seq<char>) -> bool {
    exists|i: int| key_at(entries, key, i)
}

/// What a dictionary answers to a key.
pub open spec fn lookup(entries: Entries, key: Seq<char>) -> Option<Node> {
    if has_key(entries, key) {
        Some(entries[choose|i: int| key_at(entries, key, i)].1)
    } else {
        None
    }
}

/// The entries after a write: a known key keeps its place, a new one goes to the end.
pub open spec fn inserted(entries: Entries, key: Seq<char>, node: Node) -> Entries {
    if has_key(entries, key) {
        entries.update(choose|i: int| key_at(entries, key, i), (key, node))
    } else {
        entries.push((key, node))
    }
}

/// Whether no key stands twice among the entries.
pub open spec fn distinct_keys(entries: Entries) -> bool {
    forall|i: int, j: int|
        0 <= i < j < entries.len() ==> (#[trigger] entries[i]).0 != (#[trigger] entries[j]).0
}

/// `Dictionary::new` makes a dictionary without entries.
pub assume_specification[ plist::Dictionary::new ]() -> (dictionary: plist::Dictionary)
    ensures
        dictionary_entries(dictionary) == Seq::<(Seq<char>, Node)>::empty(),
;

/// `Dictionary::insert` writes one entry, and returns the value that the key had before. The
/// map behind a dictionary keeps the order of insertion, and a key that is written again
/// keeps its place.
pub assume_specification[ plist::Dictionary::insert ](
    dictionary: &mut plist::Dictionary,
    k: String,
    v: plist::Value,
) -> (previous: Option<plist::Value>)
    ensures
        dictionary_entries(*final(dictionary)) == inserted(
            dictionary_entries(*old(dictionary)),
            k@,
            value_node(v),
        ),
        match previous {
            Some(p) => lookup(dictionary_entries(*old(dictionary)), k@) == Some(value_node(p)),
            None => lookup(dictionary_entries(*old(dictionary)), k@) is None,
        },
;

/// `Dictionary::get` returns the value of a key, if the key is there.
pub assume_specification<'a, 'b>[ plist::Dictionary::get ](
    dictionary: &'a plist::Dictionary,
    key: &'b str,
) -> (value: Option<&'a plist::Value>)
    ensures
        match value {
            Some(v) => lookup(dictionary_entries(*dictionary), key@) == Some(value_node(*v)),
            None => lookup(dictionary_entries(*dictionary), key@) is None,
        },
;

/// `Value::as_dictionary` returns the dictionary of a value that holds one.
pub assume_specification[ plist::Value::as_dictionary ](value: &plist::Value) -> (dictionary: Option<
    &plist::Dictionary,
>)
    ensures
        match dictionary {
            Some(d) => value_node(*value) == Node::Dictionary(dictionary_entries(*d)),
            None => !(value_node(*value) is Dictionary),
        },
;

/// `Value::as_string` returns the string of a value that holds one.
pub assume_specification[ plist::Value::as_string ](value: &plist::Value) -> (text: Option<&str>)
    ensures
        match text {
            Some(t) => value_node(*value) == Node::Text(t@),
            None => !(value_node(*value) is Text),
        },
;

/// `Value::as_unsigned_integer` returns the integer of a value that holds one, if it fits 64
/// bits without a sign.
pub assume_specification[ plist::Value::as_unsigned_integer ](value: &plist::Value) -> (number: Option<
    u64,
>)
    ensures
        match number {
            Some(n) => value_node(*value) == Node::Integer(n as int),
            None => value_node(*value) matches Node::Integer(n) ==> !(0 <= n <= u64::MAX),
        },
;

/// `Value::Data` makes a value of bytes.
#[verifier::external_body]
pub(crate) fn data_value(data: Vec<u8>) -> (value: plist::Value)
    ensures
        value_node(value) == Node::Data(data@),
{
    plist::Value::Data(data)
}

/// `Value::String` makes a value of text.
#[verifier::external_body]
pub(crate) fn text_value(text: String) -> (value: plist::Value)
    ensures
        value_node(value) == Node::Text(text@),
{
    plist::Value::String(text)
}

/// `Value::Date`, with the conversion of `Date` from a point in time, makes a value of a date.
#[verifier::external_body]
pub(crate) fn date_value(date: SystemTime) -> (value: plist::Value)
    ensures
        value_node(value) == Node::Date(date),
{
    plist::Value::Date(date.into())
}

/// `Value::Dictionary` makes a value of a dictionary.
#[verifier::external_body]
pub(crate) fn dictionary_value(dictionary: plist::Dictionary) -> (value: plist::Value)
    ensures
        value_node(value) == Node::Dictionary(dictionary_entries(dictionary)),
{
    plist::Value::Dictionary(dictionary)
}

/// Where no key stands twice, a key that stands at a place is answered with what stands there.
pub proof fn lemma_lookup_at(entries: Entries, i: int)
    requires
        distinct_keys(entries),
        0 <= i < entries.len(),
    ensures
        lookup(entries, entries[i].0) == Some(entries[i].1),
{
    assert(key_at(entries, entries[i].0, i));
    let j = choose|j: int| key_at(entries, entries[i].0, j);
    assert(key_at(entries, entries[i].0, j));
    assert(i == j);
}

/// Where no key stands twice, a key is answered with exactly the node that stands beside it, and
/// a key that does not stand there is not answered.
pub proof fn lemma_lookup_is_by_key(entries: Entries, key: Seq<char>, node: Node)
    requires
        forall|i: int, j: int|
            0 <= i < j < entries.len() ==> (#[trigger] entries[i]).0 != (#[trigger] entries[j]).0,
    ensures
        lookup(entries, key) == Some(node) <==> entries.contains((key, node)),
        lookup(entries, key) is None <==> forall|i: int|
            0 <= i < entries.len() ==> (#[trigger] entries[i]).0 != key,
{
    if entries.contains((key, node)) {
        let i = choose|i: int| 0 <= i < entries.len() && entries[i] == (key, node);
        lemma_lookup_at(entries, i);
    }
    if has_key(entries, key) {
        let i = choose|i: int| key_at(entries, key, i);
        assert(key_at(entries, key, i));
        assert(entries[i] == (key, entries[i].1));
        lemma_lookup_at(entries, i);
    } else {
        assert forall|i: int| 0 <= i < entries.len() implies (#[trigger] entries[i]).0 != key by {
            assert(!key_at(entries, key, i));
        }
    }
}

/// A write to a key that stands at a place changes that place alone; a write to a new key adds
/// it at the end.
pub proof fn lemma_write_keeps_the_order(entries: Entries, key: Seq<char>, node: Node, i: int)
    requires
        forall|i: int, j: int|
            0 <= i < j < entries.len() ==> (#[trigger] entries[i]).0 != (#[trigger] entries[j]).0,
    ensures
        0 <= i < entries.len() && entries[i].0 == key ==> inserted(entries, key, node)
            == entries.update(i, (key, node)),
        (forall|j: int| 0 <= j < entries.len() ==> (#[trigger] entries[j]).0 != key) ==> inserted(
            entries,
            key,
            node,
        ) == entries.push((key, node)),
{
    if 0 <= i < entries.len() && entries[i].0 == key {
        assert(key_at(entries, key, i));
        let j = choose|j: int| key_at(entries, key, j);
        assert(key_at(entries, key, j));
        assert(i == j);
    }
}

/// A read gives back what was last written under the key, and a write leaves the other keys as
/// they were and no key twice.
pub proof fn lemma_read_after_write(entries: Entries, key: Seq<char>, node: Node, other: Seq<char>)
    requires
        distinct_keys(entries),
    ensures
        distinct_keys(inserted(entries, key, node)),
        lookup(inserted(entries, key, node), key) == Some(node),
        other != key ==> lookup(inserted(entries, key, node), other) == lookup(entries, other),
{
    let after = inserted(entries, key, node);
    let i = if has_key(entries, key) {
        choose|i: int| key_at(entries, key, i)
    } else {
        entries.len() as int
    };
    assert(after[i] == (key, node));
    assert forall|j: int, k: int| 0 <= j < k < after.len() implies (#[trigger] after[j]).0 != (
    #[trigger] after[k]).0 by {
        if !has_key(entries, key) {
            assert(!key_at(entries, key, j));
        }
    }
    lemma_lookup_at(after, i);
    if other != key {
        if has_key(entries, other) {
            let j = choose|j: int| key_at(entries, other, j);
            assert(key_at(entries, other, j));
            assert(after[j] == entries[j]);
            lemma_lookup_at(entries, j);
            lemma_lookup_at(after, j);
        } else {
            assert forall|j: int| !key_at(after, other, j) by {
                assert(!key_at(entries, other, j));
            }
        }
    }
}

} // verus!
