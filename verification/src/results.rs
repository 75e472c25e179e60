//! The results of a run: one entry for each address that a proof was had
//! for, and the document that is written of them.

use crate::artifact::{text_list_of, text_rows_of, Proof, ProofView};
use crate::json::{
    entries_of, json_of, json_pretty, jsons_of, member, members_of, value_from_items,
    value_from_members, value_from_text, value_to_pretty, Json,
};
use crate::text::{rows, texts};
use vstd::prelude::*;

verus! {

/// What is kept for one address: its proof and its public inputs.
#[derive(Debug, Clone, PartialEq, Eq)]
pub struct ResultEntry {
    pub proof: Proof,
    pub inputs: Vec<String>,
}

/// What a [`ResultEntry`] holds.
pub struct ResultEntryView {
    pub proof: ProofView,
    pub inputs: Seq<Seq<char>>,
}

impl View for ResultEntry {
    type V = ResultEntryView;

    open spec fn view(&self) -> ResultEntryView {
        ResultEntryView { proof: self.proof@, inputs: texts(self.inputs@) }
    }
}

/// Whether `key` is the key of an entry.
pub open spec fn has_key(entries: Seq<(Seq<char>, ResultEntryView)>, key: Seq<char>) -> bool {
    exists|i: int| 0 <= i < entries.len() && (#[trigger] entries[i]).0 == key
}

/// The place of an entry with the key `key`, where there is one.
pub open spec fn key_position(entries: Seq<(Seq<char>, ResultEntryView)>, key: Seq<char>) -> int {
    choose|i: int| 0 <= i < entries.len() && (#[trigger] entries[i]).0 == key
}

/// No two entries have the same key.
pub open spec fn distinct_keys(entries: Seq<(Seq<char>, ResultEntryView)>) -> bool {
    forall|i: int, j: int|
        0 <= i < j < entries.len() ==> (#[trigger] entries[i]).0 != (#[trigger] entries[j]).0
}

/// The entries after `entry` was put under `key`: it takes the place of the
/// entry that had the key, or comes last where none had it.
pub open spec fn inserted(
    entries: Seq<(Seq<char>, ResultEntryView)>,
    key: Seq<char>,
    entry: ResultEntryView,
) -> Seq<(Seq<char>, ResultEntryView)> {
    if has_key(entries, key) {
        entries.update(key_position(entries, key), (key, entry))
    } else {
        entries.push((key, entry))
    }
}

/// The entry under `key`, where there is one.
pub open spec fn entry_at(entries: Seq<(Seq<char>, ResultEntryView)>, key: Seq<char>) -> Option<
    ResultEntryView,
> {
    if has_key(entries, key) {
        Some(entries[key_position(entries, key)].1)
    } else {
        None
    }
}

/// The array of strings that is written for a list of texts.
pub open spec fn texts_json(list: Seq<Seq<char>>) -> Json {
    Json::Array(list.map_values(|text: Seq<char>| Json::Text(text)))
}

/// The array of arrays that is written for a list of lists of texts.
pub open spec fn rows_json(list: Seq<Seq<Seq<char>>>) -> Json {
    Json::Array(list.map_values(|row: Seq<Seq<char>>| texts_json(row)))
}

/// The object that is written for one entry: under `proof` the array of
/// `a`, `b` and `c`, under `inputs` the public inputs.
pub open spec fn entry_json(entry: ResultEntryView) -> Json {
    Json::Object(
        Map::<Seq<char>, Json>::empty().insert(
            "proof"@,
            Json::Array(
                seq![
                    texts_json(entry.proof.a),
                    rows_json(entry.proof.b),
                    texts_json(entry.proof.c),
                ],
            ),
        ).insert("inputs"@, texts_json(entry.inputs)),
    )
}

/// The members of the document of results: each key with the object of its
/// entry.
pub open spec fn result_members(entries: Seq<(Seq<char>, ResultEntryView)>) -> Seq<
    (Seq<char>, Json),
> {
    entries.map_values(|pair: (Seq<char>, ResultEntryView)| (pair.0, entry_json(pair.1)))
}

/// The document that is written of the results: an object that holds the
/// object of each entry under the entry's address.
pub open spec fn results_json(entries: Seq<(Seq<char>, ResultEntryView)>) -> Json {
    Json::Object(members_of(result_members(entries)))
}

/// The entry that an object holds: the reverse of [`entry_json`].
pub open spec fn entry_of(document: Json) -> Option<ResultEntryView> {
    match (member(document, "proof"@), member(document, "inputs"@)) {
        (Some(Json::Array(parts)), Some(inputs)) => if parts.len() == 3 {
            match (
                text_list_of(parts[0]),
                text_rows_of(parts[1]),
                text_list_of(parts[2]),
                text_list_of(inputs),
            ) {
                (Some(a), Some(b), Some(c), Some(inputs)) => Some(
                    ResultEntryView { proof: ProofView { a, b, c }, inputs },
                ),
                _ => None,
            }
        } else {
            None
        },
        _ => None,
    }
}

/// An array written for a list of texts reads back as that list.
pub proof fn lemma_texts_round_trip(list: Seq<Seq<char>>)
    ensures
        text_list_of(texts_json(list)) == Some(list),
{
    let items = list.map_values(|text: Seq<char>| Json::Text(text));
    assert(items.map_values(|item: Json| item->Text_0) =~= list);
}

/// An array written for a list of lists of texts reads back as that list.
pub proof fn lemma_rows_round_trip(list: Seq<Seq<Seq<char>>>)
    ensures
        text_rows_of(rows_json(list)) == Some(list),
{
    let items = list.map_values(|row: Seq<Seq<char>>| texts_json(row));
    assert forall|i: int| 0 <= i < items.len() implies text_list_of(#[trigger] items[i]) == Some(
        list[i],
    ) by {
        lemma_texts_round_trip(list[i]);
    }
    assert(items.map_values(|item: Json| text_list_of(item)->Some_0) =~= list);
}

/// The object written for an entry reads back as that entry: the same
/// proof arrays and the same inputs.
pub proof fn lemma_entry_round_trip(entry: ResultEntryView)
    ensures
        entry_of(entry_json(entry)) == Some(entry),
{
    reveal_strlit("proof");
    reveal_strlit("inputs");
    lemma_texts_round_trip(entry.proof.a);
    lemma_rows_round_trip(entry.proof.b);
    lemma_texts_round_trip(entry.proof.c);
    lemma_texts_round_trip(entry.inputs);
    assert("proof"@ != "inputs"@) by {
        assert("proof"@.len() == 5);
        assert("inputs"@.len() == 6);
    }
}

/// The members of a list whose keys differ hold each value under its key,
/// and nothing under any other key.
pub proof fn lemma_members_of_distinct(entries: Seq<(Seq<char>, Json)>)
    requires
        forall|i: int, j: int|
            0 <= i < j < entries.len() ==> (#[trigger] entries[i]).0 != (#[trigger] entries[j]).0,
    ensures
        forall|i: int|
            0 <= i < entries.len() ==> members_of(entries).dom().contains(
                (#[trigger] entries[i]).0,
            ) && members_of(entries)[entries[i].0] == entries[i].1,
        forall|key: Seq<char>| #[trigger]
            members_of(entries).dom().contains(key) ==> exists|i: int|
                0 <= i < entries.len() && (#[trigger] entries[i]).0 == key,
    decreases entries.len(),
{
    if entries.len() > 0 {
        let front = entries.drop_last();
        lemma_members_of_distinct(front);
        assert forall|i: int| 0 <= i < entries.len() implies members_of(entries).dom().contains(
            (#[trigger] entries[i]).0,
        ) && members_of(entries)[entries[i].0] == entries[i].1 by {
            if i < entries.len() - 1 {
                assert(front[i] == entries[i]);
                assert(entries[i].0 != entries[entries.len() - 1].0);
            }
        }
        assert forall|key: Seq<char>| #[trigger]
            members_of(entries).dom().contains(key) implies exists|i: int|
            0 <= i < entries.len() && (#[trigger] entries[i]).0 == key by {
            if key == entries.last().0 {
                assert(entries[entries.len() - 1].0 == key);
            } else {
                assert(members_of(front).dom().contains(key));
                let i = choose|i: int| 0 <= i < front.len() && (#[trigger] front[i]).0 == key;
                assert(entries[i].0 == key);
            }
        }
    }
}

/// The document written of results whose keys differ holds, under each
/// address, an object that reads back as the entry of that address, and
/// holds nothing under any other key.
pub proof fn lemma_results_round_trip(entries: Seq<(Seq<char>, ResultEntryView)>, key: Seq<char>)
    requires
        distinct_keys(entries),
    ensures
        match entry_at(entries, key) {
            Some(entry) => member(results_json(entries), key) == Some(entry_json(entry))
                && entry_of(entry_json(entry)) == Some(entry),
            None => member(results_json(entries), key) is None,
        },
{
    let members = result_members(entries);
    assert forall|i: int, j: int| 0 <= i < j < members.len() implies (#[trigger] members[i]).0 != (
    #[trigger] members[j]).0 by {
        assert(entries[i].0 != entries[j].0);
    }
    lemma_members_of_distinct(members);
    if has_key(entries, key) {
        let i = key_position(entries, key);
        assert(members[i].0 == key);
        lemma_entry_round_trip(entries[i].1);
    } else {
        if members_of(members).dom().contains(key) {
            let i = choose|i: int| 0 <= i < members.len() && (#[trigger] members[i]).0 == key;
            assert(entries[i].0 == key);
        }
    }
}

/// Putting an entry under a key keeps the keys distinct, adds one entry at
/// most, and adds no key but the one given.
pub proof fn lemma_inserted(
    entries: Seq<(Seq<char>, ResultEntryView)>,
    key: Seq<char>,
    entry: ResultEntryView,
)
    requires
        distinct_keys(entries),
    ensures
        distinct_keys(inserted(entries, key, entry)),
        inserted(entries, key, entry).len() == if has_key(entries, key) {
            entries.len()
        } else {
            entries.len() + 1
        },
        entry_at(inserted(entries, key, entry), key) == Some(entry),
        forall|i: int|
            0 <= i < inserted(entries, key, entry).len() ==> (#[trigger] inserted(
                entries,
                key,
                entry,
            )[i]).0 == key || (i < entries.len() && inserted(entries, key, entry)[i] == entries[i]),
{
    let after = inserted(entries, key, entry);
    if has_key(entries, key) {
        let p = key_position(entries, key);
        assert forall|x: int, y: int| 0 <= x < y < after.len() implies (#[trigger] after[x]).0 != (
        #[trigger] after[y]).0 by {
            assert(entries[x].0 != entries[y].0);
        }
        assert(after[p].0 == key);
    } else {
        assert forall|x: int, y: int| 0 <= x < y < after.len() implies (#[trigger] after[x]).0 != (
        #[trigger] after[y]).0 by {
            if y < entries.len() {
                assert(entries[x].0 != entries[y].0);
            } else {
                assert(entries[x].0 != key);
            }
        }
        assert(after[entries.len() as int].0 == key);
    }
    assert(has_key(after, key));
    let q = key_position(after, key);
    if has_key(entries, key) {
        let p = key_position(entries, key);
        if q != p {
            if q < p {
                assert(after[q].0 != after[p].0);
            } else {
                assert(after[p].0 != after[q].0);
            }
        }
    } else {
        let p = entries.len() as int;
        if q != p {
            assert(after[q].0 != after[p].0);
        }
    }
}

/// The array of strings of a list of strings.
pub fn texts_value(list: &Vec<String>) -> (value: serde_json::Value)
    ensures
        json_of(value) == texts_json(texts(list@)),
{
    let mut items: Vec<serde_json::Value> = Vec::new();
    let mut i: usize = 0;
    while i < list.len()
        invariant
            i <= list.len(),
            items@.len() == i,
            forall|j: int|
                0 <= j < i ==> json_of(#[trigger] items@[j]) == Json::Text(list@[j]@),
        decreases list.len() - i,
    {
        let item = value_from_text(list[i].clone());
        items.push(item);
        i = i + 1;
    }
    assert(jsons_of(items@) =~= texts(list@).map_values(|text: Seq<char>| Json::Text(text)));
    value_from_items(items)
}

/// The array of arrays of a list of lists of strings.
pub fn rows_value(list: &Vec<Vec<String>>) -> (value: serde_json::Value)
    ensures
        json_of(value) == rows_json(rows(list@)),
{
    let mut items: Vec<serde_json::Value> = Vec::new();
    let mut i: usize = 0;
    while i < list.len()
        invariant
            i <= list.len(),
            items@.len() == i,
            forall|j: int|
                0 <= j < i ==> json_of(#[trigger] items@[j]) == texts_json(texts(list@[j]@)),
        decreases list.len() - i,
    {
        let item = texts_value(&list[i]);
        items.push(item);
        i = i + 1;
    }
    assert(jsons_of(items@) =~= rows(list@).map_values(|row: Seq<Seq<char>>| texts_json(row)));
    value_from_items(items)
}

/// The object of one entry.
pub fn entry_value(entry: &ResultEntry) -> (value: serde_json::Value)
    ensures
        json_of(value) == entry_json(entry@),
{
    let mut parts: Vec<serde_json::Value> = Vec::new();
    parts.push(texts_value(&entry.proof.a));
    parts.push(rows_value(&entry.proof.b));
    parts.push(texts_value(&entry.proof.c));
    assert(jsons_of(parts@) =~= seq![
        texts_json(entry@.proof.a),
        rows_json(entry@.proof.b),
        texts_json(entry@.proof.c),
    ]);
    let proof = value_from_items(parts);
    let inputs = texts_value(&entry.inputs);
    let mut members: Vec<(String, serde_json::Value)> = Vec::new();
    members.push(("proof".to_owned(), proof));
    members.push(("inputs".to_owned(), inputs));
    proof {
        reveal_strlit("proof");
        reveal_strlit("inputs");
        assert("proof"@.len() == 5);
        assert("inputs"@.len() == 6);
        let pairs = entries_of(members@);
        assert(pairs.drop_last().drop_last() =~= Seq::<(Seq<char>, Json)>::empty());
        assert(members_of(pairs.drop_last()) == Map::<Seq<char>, Json>::empty().insert(
            "proof"@,
            json_of(proof),
        )) by {
            reveal_with_fuel(members_of, 2);
        }
    }
    value_from_members(members)
}

/// The results of a run, in the order in which their addresses first came,
/// with one entry for an address at most.
pub struct ResultMap {
    entries: Vec<(String, ResultEntry)>,
}

impl View for ResultMap {
    type V = Seq<(Seq<char>, ResultEntryView)>;

    closed spec fn view(&self) -> Seq<(Seq<char>, ResultEntryView)> {
        self.entries@.map_values(|pair: (String, ResultEntry)| (pair.0@, pair.1@))
    }
}

impl ResultMap {
    /// The invariant of the results: no address has two entries.
    pub open spec fn wf(&self) -> bool {
        distinct_keys(self@)
    }

    /// The empty results.
    pub fn new() -> (r: ResultMap)
        ensures
            r.wf(),
            r@ == Seq::<(Seq<char>, ResultEntryView)>::empty(),
    {
        let r = ResultMap { entries: Vec::new() };
        assert(r@ =~= Seq::<(Seq<char>, ResultEntryView)>::empty());
        r
    }

    /// The number of entries.
    pub fn len(&self) -> (n: usize)
        ensures
            n == self@.len(),
    {
        self.entries.len()
    }

    /// The place of the entry of `address`, where there is one.
    fn position(&self, address: &String) -> (r: Option<usize>)
        requires
            self.wf(),
        ensures
            match r {
                Some(i) => has_key(self@, address@) && i == key_position(self@, address@) && i
                    < self@.len() && i < self.entries@.len(),
                None => !has_key(self@, address@),
            },
    {
        let mut i: usize = 0;
        while i < self.entries.len()
            invariant
                i <= self.entries@.len(),
                self@.len() == self.entries@.len(),
                distinct_keys(self@),
                forall|j: int| 0 <= j < i ==> (#[trigger] self@[j]).0 != address@,
            decreases self.entries.len() - i,
        {
            if self.entries[i].0 == *address {
                assert(self@[i as int].0 == address@);
                let ghost p = key_position(self@, address@);
                assert(p == i) by {
                    if p < i {
                        assert(self@[p].0 != address@);
                    } else if i < p {
                        assert(self@[i as int].0 != self@[p].0);
                    }
                }
                return Some(i);
            }
            i = i + 1;
        }
        None
    }

    /// Whether `address` has an entry.
    pub fn contains_key(&self, address: &str) -> (r: bool)
        requires
            self.wf(),
        ensures
            r == has_key(self@, address@),
    {
        let key = address.to_owned();
        self.position(&key).is_some()
    }

    /// The entry of `address`, where it has one.
    pub fn get(&self, address: &str) -> (r: Option<&ResultEntry>)
        requires
            self.wf(),
        ensures
            match r {
                Some(entry) => entry_at(self@, address@) == Some(entry@),
                None => entry_at(self@, address@) is None,
            },
    {
        let key = address.to_owned();
        match self.position(&key) {
            Some(i) => Some(&self.entries[i].1),
            None => None,
        }
    }

    /// The address of the entry at `index`, in the order of first
    /// insertion; `None` where there are no more than `index` entries.
    pub fn key_at(&self, index: usize) -> (r: Option<&String>)
        ensures
            match r {
                Some(key) => index < self@.len() && key@ == self@[index as int].0,
                None => index >= self@.len(),
            },
    {
        if index < self.entries.len() {
            Some(&self.entries[index].0)
        } else {
            None
        }
    }

    /// Puts `entry` under `address`. An entry that the address had is
    /// replaced, in its place; a new address comes last.
    pub fn insert(&mut self, address: String, entry: ResultEntry)
        requires
            old(self).wf(),
        ensures
            final(self).wf(),
            final(self)@ == inserted(old(self)@, address@, entry@),
            final(self)@.len() == if has_key(old(self)@, address@) {
                old(self)@.len()
            } else {
                old(self)@.len() + 1
            },
    {
        let ghost before = self@;
        let ghost key = address@;
        let ghost value = entry@;
        match self.position(&address) {
            Some(i) => {
                self.entries.set(i, (address, entry));
                assert(self@ =~= before.update(i as int, (key, value)));
                assert(distinct_keys(self@)) by {
                    assert forall|x: int, y: int| 0 <= x < y < self@.len() implies (
                    #[trigger] self@[x]).0 != (#[trigger] self@[y]).0 by {
                        assert(before[x].0 != before[y].0);
                    }
                }
            },
            None => {
                self.entries.push((address, entry));
                assert(self@ =~= before.push((key, value)));
                assert(distinct_keys(self@)) by {
                    assert forall|x: int, y: int| 0 <= x < y < self@.len() implies (
                    #[trigger] self@[x]).0 != (#[trigger] self@[y]).0 by {
                        if y < before.len() {
                            assert(before[x].0 != before[y].0);
                        } else {
                            assert(before[x].0 != key);
                        }
                    }
                }
            },
        }
    }

    /// The document of the results.
    pub fn to_value(&self) -> (value: serde_json::Value)
        requires
            self.wf(),
        ensures
            json_of(value) == results_json(self@),
    {
        let mut members: Vec<(String, serde_json::Value)> = Vec::new();
        let mut i: usize = 0;
        while i < self.entries.len()
            invariant
                i <= self.entries@.len(),
                self@.len() == self.entries@.len(),
                members@.len() == i,
                entries_of(members@) =~= result_members(self@.take(i as int)),
            decreases self.entries.len() - i,
        {
            let key = self.entries[i].0.clone();
            let value = entry_value(&self.entries[i].1);
            let ghost before = members@;
            let ghost member = (key@, json_of(value));
            members.push((key, value));
            proof {
                assert(self@[i as int] == (self.entries@[i as int].0@, self.entries@[i as int].1@));
                assert(self@.take(i as int + 1) =~= self@.take(i as int).push(self@[i as int]));
                assert(entries_of(members@) =~= entries_of(before).push(member));
                assert(result_members(self@.take(i as int + 1)) =~= result_members(
                    self@.take(i as int),
                ).push(member));
            }
            i = i + 1;
        }
        proof {
            assert(self@.take(i as int) =~= self@);
            let pairs = entries_of(members@);
            assert forall|x: int, y: int| 0 <= x < y < members@.len() implies (
            #[trigger] members@[x]).0@ != (#[trigger] members@[y]).0@ by {
                assert(pairs[x].0 == self@[x].0);
                assert(pairs[y].0 == self@[y].0);
            }
        }
        value_from_members(members)
    }

    /// The text that is written of the results: the document, indented. It
    /// is `None` where, and only where, the document cannot be rendered.
    pub fn to_pretty_json(&self) -> (r: Option<String>)
        requires
            self.wf(),
        ensures
            match r {
                Some(text) => json_pretty(results_json(self@)) == Some(text@),
                None => json_pretty(results_json(self@)) is None,
            },
    {
        let value = self.to_value();
        match value_to_pretty(&value) {
            Ok(text) => Some(text),
            Err(_) => None,
        }
    }
}

} // verus!
