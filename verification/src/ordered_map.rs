//! Ordered maps from names to numbers, kept in an `indexmap::IndexMap`: the section records
//! of a report and the offsets of its statistics.

use indexmap::IndexMap;
use vstd::prelude::*;

verus! {

/// `indexmap::IndexMap`: a hash map that keeps its entries in the order of their
/// insertion. Nothing is known of what is inside a value but through `entries`.
#[verifier::external_type_specification]
#[verifier::external_body]
#[verifier::reject_recursive_types(K)]
#[verifier::reject_recursive_types(V)]
#[verifier::reject_recursive_types(S)]
pub struct ExIndexMap<K, V, S>(IndexMap<K, V, S>);

/// The entries of an ordered map, first inserted first: each a key, as its characters, and
/// the number filed under it.
pub uninterp spec fn entries(map: IndexMap<String, u32>) -> Seq<(Seq<char>, u32)>;

/// `IndexMap::new`: a map without entries.
#[verifier::external_body]
pub(crate) fn empty_map() -> (map: IndexMap<String, u32>)
    ensures
        entries(map) == Seq::<(Seq<char>, u32)>::empty(),
{
    IndexMap::new()
}

/// `IndexMap::insert`: where the key is in the map already, its entry keeps its place and
/// takes the new number, and the number it had is returned; else the pair becomes the last
/// entry and nothing is returned.
#[verifier::external_body]
pub(crate) fn insert_entry(map: &mut IndexMap<String, u32>, key: String, value: u32) -> (previous:
    Option<u32>)
    ensures
        match previous {
            Some(number) => exists|i: int|
                0 <= i < entries(*old(map)).len() && #[trigger] entries(*old(map))[i] == (
                    key@,
                    number,
                ) && entries(*final(map)) == entries(*old(map)).update(i, (key@, value)),
            None => {
                &&& forall|i: int|
                    0 <= i < entries(*old(map)).len() ==> (#[trigger] entries(*old(map))[i]).0
                        != key@
                &&& entries(*final(map)) == entries(*old(map)).push((key@, value))
            },
        },
{
    map.insert(key, value)
}

/// `IndexMap::get`: the number filed under the key, if the key is in the map.
#[verifier::external_body]
pub(crate) fn lookup(map: &IndexMap<String, u32>, key: &str) -> (found: Option<u32>)
    ensures
        match found {
            Some(number) => exists|i: int|
                0 <= i < entries(*map).len() && #[trigger] entries(*map)[i] == (key@, number),
            None => forall|i: int|
                0 <= i < entries(*map).len() ==> (#[trigger] entries(*map)[i]).0 != key@,
        },
{
    map.get(key).copied()
}

/// `IndexMap::iter`: the entries in their order, each key copied out.
#[verifier::external_body]
pub(crate) fn entry_list(map: &IndexMap<String, u32>) -> (list: Vec<(String, u32)>)
    ensures
        list@.len() == entries(*map).len(),
        forall|i: int|
            0 <= i < list@.len() ==> (#[trigger] list@[i]).0@ == entries(*map)[i].0 && list@[i].1
                == entries(*map)[i].1,
{
    map.iter().map(|(key, value)| (key.clone(), *value)).collect()
}

/// `IndexMap::get_index_mut`: the entry at `index` takes the new number; its key and every
/// other entry stay as they were.
#[verifier::external_body]
pub(crate) fn set_number_at(map: &mut IndexMap<String, u32>, index: usize, value: u32)
    requires
        index < entries(*old(map)).len(),
    ensures
        entries(*final(map)) == entries(*old(map)).update(
            index as int,
            (entries(*old(map))[index as int].0, value),
        ),
{
    *map.get_index_mut(index).unwrap().1 = value;
}

/// Records: names and the number filed under each, in the order of filing.
pub type Records = Seq<(Seq<char>, u32)>;

/// Whether a record is filed under `name`.
pub open spec fn has_name(records: Records, name: Seq<char>) -> bool {
    exists|i: int| 0 <= i < records.len() && (#[trigger] records[i]).0 == name
}

/// The place of the record filed under `name`.
pub open spec fn index_of_name(records: Records, name: Seq<char>) -> int {
    choose|i: int| 0 <= i < records.len() && (#[trigger] records[i]).0 == name
}

/// Whether no two records share a name.
pub open spec fn distinct_names(records: Records) -> bool {
    forall|i: int, j: int|
        0 <= i < j < records.len() ==> (#[trigger] records[i]).0 != (#[trigger] records[j]).0
}

/// The number filed under `name`, if there is a record of that name.
pub open spec fn number_of(records: Records, name: Seq<char>) -> Option<u32> {
    if has_name(records, name) {
        Some(records[index_of_name(records, name)].1)
    } else {
        None
    }
}

/// The records after `number` is filed under `name`: a record under that name keeps its
/// place and takes the new number; else the new record comes last.
pub open spec fn recorded(records: Records, name: Seq<char>, number: u32) -> Records {
    if has_name(records, name) {
        records.update(index_of_name(records, name), (name, number))
    } else {
        records.push((name, number))
    }
}

/// The records with `offset` added to every number.
pub open spec fn shifted(records: Records, offset: int) -> Records {
    Seq::new(records.len(), |i: int| (records[i].0, (records[i].1 + offset) as u32))
}

/// Among records with distinct names, a name is found at one place only.
pub proof fn lemma_one_place(records: Records, name: Seq<char>, at: int)
    requires
        distinct_names(records),
        0 <= at < records.len(),
        records[at].0 == name,
    ensures
        has_name(records, name),
        index_of_name(records, name) == at,
        number_of(records, name) == Some(records[at].1),
{
    let found = index_of_name(records, name);
    if at < found {
        assert(records[at].0 != records[found].0);
    } else if found < at {
        assert(records[found].0 != records[at].0);
    }
}

/// Filing a number under a name keeps the names distinct and the other records as they
/// were, and the number is then the one found under the name.
pub proof fn lemma_recorded(records: Records, name: Seq<char>, number: u32)
    requires
        distinct_names(records),
    ensures
        distinct_names(recorded(records, name, number)),
        number_of(recorded(records, name, number), name) == Some(number),
        forall|i: int|
            0 <= i < records.len() && (#[trigger] records[i]).0 != name ==> recorded(
                records,
                name,
                number,
            )[i] == records[i],
        forall|other: Seq<char>|
            other != name ==> #[trigger] number_of(recorded(records, name, number), other)
                == number_of(records, other),
        recorded(records, name, number).len() >= records.len(),
{
    let after = recorded(records, name, number);
    let made = if has_name(records, name) {
        index_of_name(records, name)
    } else {
        records.len() as int
    };
    assert(after[made] == (name, number));
    assert forall|a: int, b: int| 0 <= a < b < after.len() implies (#[trigger] after[a]).0 != (
    #[trigger] after[b]).0 by {
        if a < records.len() {
            assert(after[a].0 == records[a].0);
        }
        if b < records.len() {
            assert(after[b].0 == records[b].0);
        }
    }
    lemma_one_place(after, name, made);
    assert forall|other: Seq<char>| other != name implies #[trigger] number_of(after, other)
        == number_of(records, other) by {
        if has_name(records, other) {
            let at = index_of_name(records, other);
            assert(after[at] == records[at]);
            lemma_one_place(after, other, at);
        } else if has_name(after, other) {
            let at = index_of_name(after, other);
            if at < records.len() {
                assert(after[at].0 == records[at].0);
            }
        }
    }
}

/// Files `number` under `name` in a map with distinct names.
pub fn record(map: &mut IndexMap<String, u32>, name: &str, number: u32)
    ensures
        distinct_names(entries(*old(map))) ==> entries(*final(map)) == recorded(
            entries(*old(map)),
            name@,
            number,
        ) && distinct_names(entries(*final(map))),
{
    let ghost before = entries(*map);
    let previous = insert_entry(map, name.to_owned(), number);
    proof {
        if distinct_names(before) {
            match previous {
                Some(old_number) => {
                    let i = choose|i: int|
                        0 <= i < before.len() && #[trigger] before[i] == (name@, old_number)
                            && entries(*map) == before.update(i, (name@, number));
                    lemma_one_place(before, name@, i);
                },
                None => {
                    assert(!has_name(before, name@));
                },
            }
            lemma_recorded(before, name@, number);
        }
    }
}

/// The number filed under `name` in a map with distinct names.
pub fn find(map: &IndexMap<String, u32>, name: &str) -> (found: Option<u32>)
    ensures
        distinct_names(entries(*map)) ==> found == number_of(entries(*map), name@),
{
    let found = lookup(map, name);
    proof {
        if distinct_names(entries(*map)) {
            match found {
                Some(number) => {
                    let i = choose|i: int|
                        0 <= i < entries(*map).len() && #[trigger] entries(*map)[i] == (
                            name@,
                            number,
                        );
                    lemma_one_place(entries(*map), name@, i);
                },
                None => {},
            }
        }
    }
    found
}

} // verus!
