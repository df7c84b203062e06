//! The list of microphones that the user chooses from.

use crate::text::{contains_part, contains_text, joined, occurs_at};
use vstd::prelude::*;

verus! {

/// The characters of each string.
pub open spec fn texts(strings: Seq<String>) -> Seq<Seq<char>> {
    Seq::new(strings.len(), |i: int| strings[i]@)
}

/// The characters of the string, where there is one.
pub open spec fn text_of(string: Option<String>) -> Option<Seq<char>> {
    match string {
        Some(s) => Some(s@),
        None => None,
    }
}

/// Some entry of the list holds `name`.
pub open spec fn is_listed(list: Seq<Seq<char>>, name: Seq<char>) -> bool {
    exists|i: int| 0 <= i < list.len() && contains_part(#[trigger] list[i], name)
}

/// The list after each of `names` was added to it, unless an entry held it
/// already.
pub open spec fn list_with(list: Seq<Seq<char>>, names: Seq<Seq<char>>) -> Seq<Seq<char>>
    decreases names.len(),
{
    if names.len() == 0 {
        list
    } else {
        let before = list_with(list, names.drop_last());
        if is_listed(before, names.last()) {
            before
        } else {
            before.push(names.last())
        }
    }
}

/// The list before the attached devices are added: the default device, marked
/// as such, where there is one.
pub open spec fn list_start(default_device: Option<Seq<char>>) -> Seq<Seq<char>> {
    match default_device {
        Some(name) => seq![name + " (default)"@],
        None => Seq::empty(),
    }
}

/// The microphones that the user chooses from.
pub open spec fn device_entries(
    default_device: Option<Seq<char>>,
    names: Seq<Seq<char>>,
) -> Seq<Seq<char>> {
    let list = list_with(list_start(default_device), names);
    if list.len() == 0 {
        seq!["No devices found"@]
    } else {
        list
    }
}

fn listed(list: &Vec<String>, name: &str) -> (found: bool)
    ensures
        found == is_listed(texts(list@), name@),
{
    let mut i: usize = 0;
    while i < list.len()
        invariant
            i <= list.len(),
            forall|j: int| 0 <= j < i ==> !contains_part(#[trigger] texts(list@)[j], name@),
        decreases list.len() - i,
    {
        assert(texts(list@)[i as int] == list@[i as int]@);
        if contains_text(list[i].as_str(), name) {
            return true;
        }
        i += 1;
    }
    false
}

/// The microphones that the user chooses from: the default device, if there is
/// one, then every attached device that the list does not name yet.
pub fn get_available_devices(
    default_device: Option<String>,
    names: &Vec<String>,
) -> (devices: Vec<String>)
    ensures
        texts(devices@) == device_entries(text_of(default_device), texts(names@)),
{
    let mut devices: Vec<String> = Vec::new();
    let ghost start = list_start(text_of(default_device));
    if let Some(name) = default_device {
        devices.push(joined(name.as_str(), " (default)"));
    }
    assert(texts(devices@) =~= start);
    let ghost all = texts(names@);
    let mut i: usize = 0;
    assert(all.take(0) =~= Seq::<Seq<char>>::empty());
    while i < names.len()
        invariant
            i <= names.len(),
            all == texts(names@),
            texts(devices@) == list_with(start, all.take(i as int)),
        decreases names.len() - i,
    {
        assert(all.take(i + 1).drop_last() =~= all.take(i as int));
        assert(all.take(i + 1).last() == names@[i as int]@);
        if !listed(&devices, names[i].as_str()) {
            let ghost before = devices@;
            devices.push(names[i].clone());
            assert(texts(devices@) =~= texts(before).push(names@[i as int]@));
        }
        i += 1;
    }
    assert(all.take(all.len() as int) =~= all);
    if devices.len() == 0 {
        devices.push("No devices found".to_owned());
        assert(texts(devices@) =~= seq!["No devices found"@]);
    }
    devices
}

/// The list always has an entry to choose.
pub proof fn device_list_is_never_empty(
    default_device: Option<Seq<char>>,
    names: Seq<Seq<char>>,
)
    ensures
        device_entries(default_device, names).len() > 0,
{
}

/// Every attached device can be found in the list: some entry holds its name.
pub proof fn every_device_is_listed(
    default_device: Option<Seq<char>>,
    names: Seq<Seq<char>>,
    k: int,
)
    requires
        0 <= k < names.len(),
    ensures
        is_listed(device_entries(default_device, names), names[k]),
{
    lemma_listed(list_start(default_device), names, k);
}

proof fn lemma_listed(list: Seq<Seq<char>>, names: Seq<Seq<char>>, k: int)
    requires
        0 <= k < names.len(),
    ensures
        is_listed(list_with(list, names), names[k]),
    decreases names.len(),
{
    let before = list_with(list, names.drop_last());
    let after = list_with(list, names);
    if k < names.len() - 1 {
        lemma_listed(list, names.drop_last(), k);
        let i = choose|i: int| 0 <= i < before.len() && contains_part(#[trigger] before[i], names[k]);
        assert(after[i] == before[i]);
    } else if !is_listed(before, names.last()) {
        lemma_contains_itself(names.last());
        assert(after[before.len() as int] == names.last());
    }
}

proof fn lemma_contains_itself(text: Seq<char>)
    ensures
        contains_part(text, text),
{
    assert(text.subrange(0, text.len() as int) =~= text);
    assert(occurs_at(text, text, 0));
}

/// No entry is listed twice.
pub proof fn device_entries_are_distinct(
    default_device: Option<Seq<char>>,
    names: Seq<Seq<char>>,
)
    ensures
        device_entries(default_device, names).no_duplicates(),
{
    lemma_distinct(list_start(default_device), names);
}

proof fn lemma_distinct(list: Seq<Seq<char>>, names: Seq<Seq<char>>)
    requires
        list.no_duplicates(),
    ensures
        list_with(list, names).no_duplicates(),
    decreases names.len(),
{
    if names.len() > 0 {
        lemma_distinct(list, names.drop_last());
        let before = list_with(list, names.drop_last());
        if !is_listed(before, names.last()) {
            assert forall|i: int| 0 <= i < before.len() implies before[i] != names.last() by {
                if before[i] == names.last() {
                    lemma_contains_itself(names.last());
                }
            }
        }
    }
}

/// The default device comes first, and is marked.
pub proof fn default_device_comes_first(name: Seq<char>, names: Seq<Seq<char>>)
    ensures
        device_entries(Some(name), names)[0] == name + " (default)"@,
{
    lemma_list_grows(list_start(Some(name)), names);
}

proof fn lemma_list_grows(list: Seq<Seq<char>>, names: Seq<Seq<char>>)
    ensures
        list.len() <= list_with(list, names).len(),
        forall|i: int| 0 <= i < list.len() ==> #[trigger] list_with(list, names)[i] == list[i],
    decreases names.len(),
{
    if names.len() > 0 {
        lemma_list_grows(list, names.drop_last());
    }
}

/// Nothing is listed but devices: every entry is the marked default one or the
/// name of an attached one, where there is any device at all.
pub proof fn nothing_but_devices_is_listed(
    default_device: Option<Seq<char>>,
    names: Seq<Seq<char>>,
    i: int,
)
    requires
        default_device is Some || names.len() > 0,
        0 <= i < device_entries(default_device, names).len(),
    ensures
        ({
            let entry = device_entries(default_device, names)[i];
            ||| names.contains(entry)
            ||| i == 0 && default_device is Some && entry == default_device->0 + " (default)"@
        }),
{
    if names.len() > 0 {
        every_device_is_listed(default_device, names, 0);
        lemma_listed(list_start(default_device), names, 0);
    }
    lemma_list_grows(list_start(default_device), names);
    lemma_entries(list_start(default_device), names, i);
}

proof fn lemma_entries(list: Seq<Seq<char>>, names: Seq<Seq<char>>, i: int)
    requires
        0 <= i < list_with(list, names).len(),
    ensures
        i < list.len() && list_with(list, names)[i] == list[i] || names.contains(
            list_with(list, names)[i],
        ),
    decreases names.len(),
{
    if names.len() > 0 {
        let fewer = names.drop_last();
        if i < list_with(list, fewer).len() {
            lemma_entries(list, fewer, i);
            let entry = list_with(list, fewer)[i];
            if fewer.contains(entry) {
                let k = choose|k: int| 0 <= k < fewer.len() && fewer[k] == entry;
                assert(names[k] == entry);
            }
        } else {
            assert(names[names.len() - 1] == names.last());
        }
    }
}

/// One more device is added at the end, unless an entry of the list names it
/// already; then the list stays as it is.
pub proof fn device_is_added_at_the_end(
    default_device: Option<Seq<char>>,
    names: Seq<Seq<char>>,
    name: Seq<char>,
)
    requires
        default_device is Some || names.len() > 0,
    ensures
        ({
            let before = device_entries(default_device, names);
            let named = exists|i: int|
                0 <= i < before.len() && contains_part(#[trigger] before[i], name);
            device_entries(default_device, names.push(name)) == if named {
                before
            } else {
                before.push(name)
            }
        }),
{
    assert(names.push(name).drop_last() =~= names);
    lemma_list_grows(list_start(default_device), names);
    if names.len() > 0 {
        lemma_listed(list_start(default_device), names, 0);
    }
}

/// Without any device the list says so.
pub proof fn lack_of_devices_is_told(name: Seq<char>)
    ensures
        device_entries(None, Seq::empty()) == seq!["No devices found"@],
        device_entries(None, seq![name]) == seq![name],
{
    assert(seq![name].drop_last() =~= Seq::<Seq<char>>::empty());
    let before = list_with(Seq::empty(), seq![name].drop_last());
    assert(before =~= Seq::<Seq<char>>::empty());
    assert(before.push(name) =~= seq![name]);
}

/// Strings are spoken of by their characters, one by one.
pub proof fn strings_are_spoken_of_one_by_one(strings: Seq<String>, string: Option<String>, i: int)
    ensures
        texts(strings).len() == strings.len(),
        0 <= i < strings.len() ==> texts(strings)[i] == strings[i]@,
        string is None ==> text_of(string) is None,
        string matches Some(s) ==> text_of(string) == Some(s@),
{
}

}
