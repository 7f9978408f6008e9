//! The dictionary of a field: an `IndexMap` from the values seen to the works
//! that hold them, which gives each value the index of its entry as its
//! identifier.

use crate::fst_parser::DictionaryItemContent;
use indexmap::IndexMap;
use vstd::prelude::*;

verus! {

#[verifier::external_type_specification]
#[verifier::external_body]
#[verifier::reject_recursive_types(K)]
#[verifier::reject_recursive_types(V)]
#[verifier::reject_recursive_types(S)]
pub struct ExIndexMap<K, V, S>(IndexMap<K, V, S>);

/// The interning store of one field: each value seen, in the order of first
/// sight, with the ordinals of the works that hold it.
pub type Dictionary = IndexMap<String, DictionaryItemContent>;

/// The entries of a dictionary as mathematical values: value and back-links.
pub type Entries = Seq<(Seq<char>, Seq<usize>)>;

/// The entries that an `IndexMap` from values to back-links holds, in the
/// map's own order: the key of each, and the back-links stored under it.
pub uninterp spec fn dictionary_entries(map: IndexMap<String, DictionaryItemContent>) -> Seq<
    (Seq<char>, Seq<usize>),
>;

/// Where the scan for `value`, started at `from`, ends: at the first entry
/// with that value, or at the end of the entries.
pub open spec fn scan_for(entries: Entries, value: Seq<char>, from: int) -> int
    decreases entries.len() - from,
{
    if from < 0 || from >= entries.len() {
        entries.len() as int
    } else if entries[from].0 == value {
        from
    } else {
        scan_for(entries, value, from + 1)
    }
}

/// The identifier of `value`: the index of its entry, or, where it has none
/// yet, the index that its entry will get.
pub open spec fn dict_id(entries: Entries, value: Seq<char>) -> int {
    scan_for(entries, value, 0)
}

/// Whether `value` has an entry.
pub open spec fn dict_holds(entries: Entries, value: Seq<char>) -> bool {
    dict_id(entries, value) < entries.len()
}

/// The entries after `value` was seen in work `work`: one more back-link
/// under its entry, or a new last entry with that one back-link.
pub open spec fn interned(entries: Entries, value: Seq<char>, work: usize) -> Entries {
    let id = dict_id(entries, value);
    if id < entries.len() {
        entries.update(id, (value, entries[id].1.push(work)))
    } else {
        entries.push((value, seq![work]))
    }
}

/// No two entries have the same value.
pub open spec fn distinct_values(entries: Entries) -> bool {
    forall|i: int, j: int|
        0 <= i < j < entries.len() ==> (#[trigger] entries[i]).0 != (#[trigger] entries[j]).0
}

/// The scan ends at the first entry with the value, or at the end.
pub proof fn lemma_scan_for(entries: Entries, value: Seq<char>, from: int)
    requires
        0 <= from <= entries.len(),
    ensures
        from <= scan_for(entries, value, from) <= entries.len(),
        scan_for(entries, value, from) < entries.len() ==> entries[scan_for(
            entries,
            value,
            from,
        )].0 == value,
        forall|j: int| from <= j < scan_for(entries, value, from) ==> (#[trigger] entries[j]).0 != value,
    decreases entries.len() - from,
{
    if from < entries.len() && entries[from].0 != value {
        lemma_scan_for(entries, value, from + 1);
    }
}

/// The identifier of a value is the first index that holds it, and the
/// number of entries where none does.
pub proof fn lemma_dict_id(entries: Entries, value: Seq<char>)
    ensures
        0 <= dict_id(entries, value) <= entries.len(),
        dict_holds(entries, value) ==> entries[dict_id(entries, value)].0 == value,
        forall|j: int| 0 <= j < dict_id(entries, value) ==> (#[trigger] entries[j]).0 != value,
{
    lemma_scan_for(entries, value, 0);
}

/// An index that holds the value, with none before it that does, is the
/// value's identifier; so is the number of entries where no entry holds it.
pub proof fn lemma_dict_id_is(entries: Entries, value: Seq<char>, i: int)
    requires
        0 <= i <= entries.len(),
        i < entries.len() ==> entries[i].0 == value,
        forall|j: int| 0 <= j < i ==> (#[trigger] entries[j]).0 != value,
    ensures
        dict_id(entries, value) == i,
{
    lemma_dict_id(entries, value);
}

/// Interning keeps the identifier of every value that has one.
pub proof fn lemma_interned_keeps_ids(entries: Entries, value: Seq<char>, work: usize, other: Seq<char>)
    requires
        dict_holds(entries, other),
    ensures
        dict_holds(interned(entries, value, work), other),
        dict_id(interned(entries, value, work), other) == dict_id(entries, other),
        interned(entries, value, work)[dict_id(entries, other)].0 == other,
{
    lemma_dict_id(entries, value);
    lemma_dict_id(entries, other);
    let after = interned(entries, value, work);
    let id = dict_id(entries, other);
    assert forall|j: int| 0 <= j < id implies (#[trigger] after[j]).0 != other by {
        assert(entries[j].0 != other);
    }
    lemma_dict_id_is(after, other, id);
}

/// Interning gives the value an entry, under the identifier that the value
/// had or was going to get, and leaves the values of all entries that were
/// there as they are.
pub proof fn lemma_interned(entries: Entries, value: Seq<char>, work: usize)
    ensures
        dict_holds(interned(entries, value, work), value),
        dict_id(interned(entries, value, work), value) == dict_id(entries, value),
        interned(entries, value, work).len() == entries.len() + (if dict_holds(entries, value) {
            0int
        } else {
            1int
        }),
        forall|j: int|
            0 <= j < entries.len() ==> (#[trigger] interned(entries, value, work)[j]).0
                == entries[j].0,
        forall|j: int|
            0 <= j < entries.len() && j != dict_id(entries, value) ==> (#[trigger] interned(
                entries,
                value,
                work,
            )[j]) == entries[j],
        interned(entries, value, work)[dict_id(entries, value)] == (
            value,
            if dict_holds(entries, value) {
                entries[dict_id(entries, value)].1.push(work)
            } else {
                seq![work]
            },
        ),
{
    lemma_dict_id(entries, value);
    let after = interned(entries, value, work);
    let id = dict_id(entries, value);
    assert forall|j: int| 0 <= j < id implies (#[trigger] after[j]).0 != value by {
        assert(entries[j].0 != value);
    }
    lemma_dict_id_is(after, value, id);
}

/// Interning a value twice gives the same identifier both times, adds one
/// back-link each time, and adds an entry at most the first time; a
/// dictionary without repeated values stays one.
pub proof fn lemma_intern_twice(entries: Entries, value: Seq<char>, first: usize, second: usize)
    ensures
        ({
            let once = interned(entries, value, first);
            let twice = interned(once, value, second);
            let id = dict_id(entries, value);
            &&& dict_id(once, value) == id
            &&& dict_id(twice, value) == id
            &&& twice.len() == once.len()
            &&& once.len() <= entries.len() + 1
            &&& once[id].0 == value
            &&& twice[id] == (value, once[id].1.push(second))
            &&& once[id].1.len() == (if dict_holds(entries, value) {
                entries[id].1.len() + 1
            } else {
                1
            })
            &&& forall|j: int| 0 <= j < once.len() && j != id ==> (#[trigger] twice[j]) == once[j]
            &&& distinct_values(entries) ==> distinct_values(once) && distinct_values(twice)
        }),
{
    let once = interned(entries, value, first);
    let twice = interned(once, value, second);
    let id = dict_id(entries, value);
    lemma_dict_id(entries, value);
    lemma_interned(entries, value, first);
    lemma_interned(once, value, second);
    if distinct_values(entries) {
        assert forall|i: int, j: int| 0 <= i < j < once.len() implies (#[trigger] once[i]).0 != (
        #[trigger] once[j]).0 by {
            if j < entries.len() {
                assert(entries[i].0 != entries[j].0);
            } else {
                assert(entries[i].0 != value);
            }
        }
        assert forall|i: int, j: int| 0 <= i < j < twice.len() implies (#[trigger] twice[i]).0 != (
        #[trigger] twice[j]).0 by {
            assert(once[i].0 != once[j].0);
        }
    }
}

/// `IndexMap::new`: a map without entries.
#[verifier::external_body]
pub(crate) fn dictionary_new() -> (map: Dictionary)
    ensures
        dictionary_entries(map) == Seq::<(Seq<char>, Seq<usize>)>::empty(),
{
    IndexMap::new()
}

/// `IndexMap::len`: the number of entries.
#[verifier::external_body]
pub(crate) fn dictionary_len(map: &Dictionary) -> (len: usize)
    ensures
        len == dictionary_entries(*map).len(),
{
    map.len()
}

/// `IndexMap::get_index_of`: the index of the entry whose key equals `key`,
/// and `None` where no entry has that key. As a map holds a key once, no
/// entry before the one found has it.
#[verifier::external_body]
pub(crate) fn dictionary_index_of(map: &Dictionary, key: &str) -> (found: Option<usize>)
    ensures
        match found {
            Some(i) => {
                &&& i < dictionary_entries(*map).len()
                &&& dictionary_entries(*map)[i as int].0 == key@
                &&& forall|j: int| 0 <= j < i ==> (#[trigger] dictionary_entries(*map)[j]).0 != key@
            },
            None => forall|j: int|
                0 <= j < dictionary_entries(*map).len() ==> (#[trigger] dictionary_entries(
                    *map,
                )[j]).0 != key@,
        },
{
    map.get_index_of(key)
}

/// `IndexMap::insert_full`: where no entry has the key, the pair becomes the
/// last entry, and its index is returned with `None`; where one has it, that
/// entry keeps its place and its key and takes the new back-links, and its
/// index is returned with the value it held. As a map holds a key once, no
/// entry before that one has the key.
#[verifier::external_body]
pub(crate) fn dictionary_insert(map: &mut Dictionary, key: String, value: DictionaryItemContent) -> (r: (
    usize,
    Option<DictionaryItemContent>,
))
    ensures
        match r.1 {
            None => {
                &&& forall|j: int|
                    0 <= j < dictionary_entries(*old(map)).len() ==> (#[trigger] dictionary_entries(
                        *old(map),
                    )[j]).0 != key@
                &&& r.0 == dictionary_entries(*old(map)).len()
                &&& dictionary_entries(*final(map)) == dictionary_entries(*old(map)).push(
                    (key@, value.book_links@),
                )
            },
            Some(held) => {
                &&& r.0 < dictionary_entries(*old(map)).len()
                &&& dictionary_entries(*old(map))[r.0 as int].0 == key@
                &&& forall|j: int|
                    0 <= j < r.0 ==> (#[trigger] dictionary_entries(*old(map))[j]).0 != key@
                &&& held.book_links@ == dictionary_entries(*old(map))[r.0 as int].1
                &&& dictionary_entries(*final(map)) == dictionary_entries(*old(map)).update(
                    r.0 as int,
                    (key@, value.book_links@),
                )
            },
        },
{
    map.insert_full(key, value)
}

/// `IndexMap::get_index_mut`: the back-links stored at `index`, to be changed
/// in place, and `None` where the map has no such index. The key at that
/// index and all other entries stay as they are.
#[verifier::external_body]
pub(crate) fn dictionary_value_mut(map: &mut Dictionary, index: usize) -> (value: Option<
    &mut DictionaryItemContent,
>)
    ensures
        value is Some <==> index < dictionary_entries(*old(map)).len(),
        value is None ==> dictionary_entries(*final(map)) == dictionary_entries(*old(map)),
        value matches Some(v) ==> v.book_links@ == dictionary_entries(*old(map))[index as int].1
            && dictionary_entries(*final(map)) == dictionary_entries(*old(map)).update(
            index as int,
            (dictionary_entries(*old(map))[index as int].0, final(v).book_links@),
        ),
{
    map.get_index_mut(index).map(|entry| entry.1)
}

/// `IndexMap::get_index`: the key and the back-links stored at `index`, and
/// `None` where the map has no such index.
#[verifier::external_body]
pub(crate) fn dictionary_get_index(map: &Dictionary, index: usize) -> (entry: Option<
    (&String, &DictionaryItemContent),
>)
    ensures
        entry is Some <==> index < dictionary_entries(*map).len(),
        entry matches Some(e) ==> e.0@ == dictionary_entries(*map)[index as int].0
            && e.1.book_links@ == dictionary_entries(*map)[index as int].1,
{
    map.get_index(index)
}

} // verus!
