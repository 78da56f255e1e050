//! Lookups in lists of named entries, such as the settings read from the data files.
use vstd::prelude::*;

verus! {

/// The index of the first entry named `key`, if any.
pub open spec fn first_named<V>(entries: Seq<(String, V)>, key: Seq<char>) -> Option<int>
    decreases entries.len(),
{
    if entries.len() == 0 {
        None
    } else if entries[0].0@ == key {
        Some(0)
    } else {
        match first_named(entries.drop_first(), key) {
            Some(i) => Some(i + 1),
            None => None,
        }
    }
}

/// `first_named` gives an index of an entry with that name, before which no
/// entry has it; it gives nothing only where no entry has it.
pub proof fn lemma_first_named<V>(entries: Seq<(String, V)>, key: Seq<char>)
    ensures
        first_named(entries, key) matches Some(i) ==> 0 <= i < entries.len() && entries[i].0@
            == key && forall|j: int| 0 <= j < i ==> entries[j].0@ != key,
        first_named(entries, key) is None ==> forall|j: int|
            0 <= j < entries.len() ==> entries[j].0@ != key,
    decreases entries.len(),
{
    if entries.len() > 0 {
        lemma_first_named(entries.drop_first(), key);
        if entries[0].0@ != key {
            assert forall|j: int| 1 <= j < entries.len() implies entries[j] == entries.drop_first()[j
                - 1] by {}
        }
    }
}

/// Finds the first entry named `key`.
pub fn find_named<V>(entries: &Vec<(String, V)>, key: &String) -> (r: Option<usize>)
    ensures
        r matches Some(i) ==> i < entries.len() && entries@[i as int].0@ == key@ && first_named(
            entries@,
            key@,
        ) == Some(i as int),
        r is None ==> first_named(entries@, key@) is None,
{
    proof {
        lemma_first_named(entries@, key@);
    }
    let mut i: usize = 0;
    while i < entries.len()
        invariant
            i <= entries.len(),
            forall|j: int| 0 <= j < i ==> entries@[j].0@ != key@,
            first_named(entries@, key@) matches Some(f) ==> 0 <= f < entries.len() && entries@[f].0@
                == key@ && forall|j: int| 0 <= j < f ==> entries@[j].0@ != key@,
            first_named(entries@, key@) is None ==> forall|j: int|
                0 <= j < entries.len() ==> entries@[j].0@ != key@,
        decreases entries.len() - i,
    {
        if entries[i].0 == *key {
            return Some(i);
        }
        i += 1;
    }
    None
}

/// Whether the list of names holds `name`.
pub open spec fn names_contain(names: Seq<String>, name: Seq<char>) -> bool {
    exists|i: int| 0 <= i < names.len() && #[trigger] names[i]@ == name
}

/// Whether the list of names holds `name`.
pub fn contains_name(names: &Vec<String>, name: &String) -> (r: bool)
    ensures
        r == names_contain(names@, name@),
{
    let mut i: usize = 0;
    while i < names.len()
        invariant
            i <= names.len(),
            forall|j: int| 0 <= j < i ==> names@[j]@ != name@,
        decreases names.len() - i,
    {
        if names[i] == *name {
            assert(names@[i as int]@ == name@);
            return true;
        }
        i += 1;
    }
    false
}

} // verus!
