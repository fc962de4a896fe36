//! Parameter values and the map from parameter names to values that a step
//! carries.
use crate::text::str_eq;
use vstd::prelude::*;

verus! {

/// The value of one parameter: a text, or any other value in its serialized
/// form.
#[derive(Debug, PartialEq, Eq)]
pub enum ParamValue {
    /// A text value.
    Text(String),
    /// A value that is no text (a number, a flag, a list, a nested object),
    /// carried in its serialized form.
    Json(String),
}

/// Mathematical model of a [`ParamValue`].
pub enum ParamValueView {
    Text(Seq<char>),
    Json(Seq<char>),
}

impl View for ParamValue {
    type V = ParamValueView;

    open spec fn view(&self) -> ParamValueView {
        match self {
            ParamValue::Text(s) => ParamValueView::Text(s@),
            ParamValue::Json(s) => ParamValueView::Json(s@),
        }
    }
}

impl Clone for ParamValue {
    fn clone(&self) -> (copy: Self)
        ensures
            copy@ == self@,
    {
        match self {
            ParamValue::Text(s) => ParamValue::Text(s.clone()),
            ParamValue::Json(s) => ParamValue::Json(s.clone()),
        }
    }
}

impl ParamValue {
    /// The text of a text value.
    pub fn as_text(&self) -> (text: Option<&String>)
        ensures
            text.is_some() == (self@ is Text),
            text.is_some() ==> self@ == ParamValueView::Text(text.unwrap()@),
    {
        match self {
            ParamValue::Text(s) => Some(s),
            ParamValue::Json(_) => None,
        }
    }
}

/// One parameter: its name and its value.
#[derive(Debug)]
pub struct ParamEntry {
    pub key: String,
    pub value: ParamValue,
}

impl Clone for ParamEntry {
    fn clone(&self) -> (copy: Self)
        ensures
            copy.key@ == self.key@,
            copy.value@ == self.value@,
    {
        ParamEntry { key: self.key.clone(), value: self.value.clone() }
    }
}

/// Whether some entry of `entries` has the name `key`.
pub open spec fn has_key(entries: Seq<ParamEntry>, key: Seq<char>) -> bool {
    exists|i: int| 0 <= i < entries.len() && (#[trigger] entries[i]).key@ == key
}

/// The position of an entry of `entries` that has the name `key`.
pub open spec fn key_position(entries: Seq<ParamEntry>, key: Seq<char>) -> int {
    choose|i: int| 0 <= i < entries.len() && (#[trigger] entries[i]).key@ == key
}

/// No two entries of `entries` have the same name.
pub open spec fn distinct_keys(entries: Seq<ParamEntry>) -> bool {
    forall|i: int, j: int|
        0 <= i < j < entries.len() ==> (#[trigger] entries[i]).key@ != (#[trigger] entries[j]).key@
}

/// The map that a list of entries with distinct names stands for.
pub open spec fn entries_map(entries: Seq<ParamEntry>) -> Map<Seq<char>, ParamValueView> {
    Map::new(
        |k: Seq<char>| has_key(entries, k),
        |k: Seq<char>| entries[key_position(entries, k)].value@,
    )
}

/// With distinct names, the entry at position `i` is what the map holds
/// under its name.
pub proof fn lemma_entry_in_map(entries: Seq<ParamEntry>, i: int)
    requires
        distinct_keys(entries),
        0 <= i < entries.len(),
    ensures
        entries_map(entries).contains_key(entries[i].key@),
        entries_map(entries)[entries[i].key@] == entries[i].value@,
        key_position(entries, entries[i].key@) == i,
{
    let k = entries[i].key@;
    assert(has_key(entries, k));
    let j = key_position(entries, k);
    assert(0 <= j < entries.len() && entries[j].key@ == k);
    if j < i {
        assert(entries[j].key@ != entries[i].key@);
    } else if i < j {
        assert(entries[i].key@ != entries[j].key@);
    }
}

/// Adding an entry under a new name adds it to the map.
pub proof fn lemma_push_entry(entries: Seq<ParamEntry>, entry: ParamEntry)
    requires
        distinct_keys(entries),
        !has_key(entries, entry.key@),
    ensures
        distinct_keys(entries.push(entry)),
        entries_map(entries.push(entry)) == entries_map(entries).insert(entry.key@, entry.value@),
{
    let after = entries.push(entry);
    assert forall|i: int, j: int| 0 <= i < j < after.len() implies (#[trigger] after[i]).key@ != (
    #[trigger] after[j]).key@ by {
        if j == entries.len() {
            assert(entries[i].key@ != entry.key@);
        } else {
            assert(entries[i].key@ != entries[j].key@);
        }
    }
    let expected = entries_map(entries).insert(entry.key@, entry.value@);
    assert forall|k: Seq<char>| entries_map(after).contains_key(k) == expected.contains_key(k) by {
        if has_key(after, k) {
            let i = key_position(after, k);
            if i < entries.len() {
                assert(entries[i].key@ == k);
            }
        }
        if has_key(entries, k) {
            let i = key_position(entries, k);
            assert(after[i].key@ == k);
        }
        if k == entry.key@ {
            assert(after[entries.len() as int].key@ == k);
        }
    }
    assert forall|k: Seq<char>| entries_map(after).contains_key(k) implies entries_map(after)[k]
        == expected[k] by {
        let i = key_position(after, k);
        lemma_entry_in_map(after, i);
        if i < entries.len() {
            lemma_entry_in_map(entries, i);
        }
    }
    assert(entries_map(after) =~= expected);
}

/// Replacing the value of the entry at position `i` replaces it in the map.
pub proof fn lemma_update_entry(entries: Seq<ParamEntry>, i: int, entry: ParamEntry)
    requires
        distinct_keys(entries),
        0 <= i < entries.len(),
        entry.key@ == entries[i].key@,
    ensures
        distinct_keys(entries.update(i, entry)),
        entries_map(entries.update(i, entry)) == entries_map(entries).insert(
            entry.key@,
            entry.value@,
        ),
{
    let after = entries.update(i, entry);
    assert forall|a: int, b: int| 0 <= a < b < after.len() implies (#[trigger] after[a]).key@ != (
    #[trigger] after[b]).key@ by {
        assert(entries[a].key@ != entries[b].key@);
    }
    let expected = entries_map(entries).insert(entry.key@, entry.value@);
    assert forall|k: Seq<char>| entries_map(after).contains_key(k) == expected.contains_key(k) by {
        if has_key(after, k) {
            let j = key_position(after, k);
            assert(entries[j].key@ == k);
        }
        if has_key(entries, k) {
            let j = key_position(entries, k);
            assert(after[j].key@ == k);
        }
        if k == entry.key@ {
            assert(after[i].key@ == k);
        }
    }
    assert forall|k: Seq<char>| entries_map(after).contains_key(k) implies entries_map(after)[k]
        == expected[k] by {
        let j = key_position(after, k);
        lemma_entry_in_map(after, j);
        if j != i {
            lemma_entry_in_map(entries, j);
        }
    }
    assert(entries_map(after) =~= expected);
}

/// A map from parameter names to values, as an object of named members.
#[derive(Debug)]
pub struct ParamMap {
    entries: Vec<ParamEntry>,
}

impl View for ParamMap {
    type V = Map<Seq<char>, ParamValueView>;

    closed spec fn view(&self) -> Map<Seq<char>, ParamValueView> {
        entries_map(self.entries@)
    }
}

impl ParamMap {
    #[verifier::type_invariant]
    spec fn distinct(&self) -> bool {
        distinct_keys(self.entries@)
    }

    /// The entries of the map, in the order in which their names came in.
    pub closed spec fn entries(&self) -> Seq<ParamEntry> {
        self.entries@
    }

    /// The empty map.
    pub fn new() -> (map: ParamMap)
        ensures
            map@ == Map::<Seq<char>, ParamValueView>::empty(),
            map.entries().len() == 0,
    {
        let map = ParamMap { entries: Vec::new() };
        assert(map@ =~= Map::<Seq<char>, ParamValueView>::empty());
        map
    }

    /// The number of parameters.
    pub fn len(&self) -> (n: usize)
        ensures
            n == self.entries().len(),
            n == self@.len(),
            distinct_keys(self.entries()),
    {
        proof {
            use_type_invariant(self);
            lemma_count(self.entries@);
        }
        self.entries.len()
    }

    /// The entry at position `i`.
    pub fn entry(&self, i: usize) -> (entry: &ParamEntry)
        requires
            i < self.entries().len(),
        ensures
            *entry == self.entries()[i as int],
            self@.contains_key(entry.key@),
            self@[entry.key@] == entry.value@,
    {
        proof {
            use_type_invariant(self);
            lemma_entry_in_map(self.entries@, i as int);
        }
        &self.entries[i]
    }

    fn position(&self, key: &str) -> (at: Option<usize>)
        ensures
            at.is_some() == has_key(self.entries@, key@),
            at.is_some() ==> at.unwrap() < self.entries@.len() && self.entries@[at.unwrap() as int].key@
                == key@,
    {
        let mut i: usize = 0;
        while i < self.entries.len()
            invariant
                i <= self.entries.len(),
                forall|k: int| 0 <= k < i ==> (#[trigger] self.entries@[k]).key@ != key@,
            decreases self.entries.len() - i,
        {
            if str_eq(self.entries[i].key.as_str(), key) {
                return Some(i);
            }
            i += 1;
        }
        None
    }

    /// Whether a parameter named `key` is present.
    pub fn contains_key(&self, key: &str) -> (present: bool)
        ensures
            present == self@.contains_key(key@),
    {
        self.position(key).is_some()
    }

    /// The value of the parameter named `key`, if it is present.
    pub fn get(&self, key: &str) -> (value: Option<&ParamValue>)
        ensures
            value.is_some() == self@.contains_key(key@),
            value.is_some() ==> value.unwrap()@ == self@[key@],
    {
        match self.position(key) {
            Some(i) => {
                proof {
                    use_type_invariant(self);
                    lemma_entry_in_map(self.entries@, i as int);
                }
                Some(&self.entries[i].value)
            },
            None => None,
        }
    }

    /// Sets the parameter named `key` to `value`, whether or not it was
    /// present.
    pub fn insert(&mut self, key: String, value: ParamValue)
        ensures
            final(self)@ == old(self)@.insert(key@, value@),
    {
        proof {
            use_type_invariant(&*self);
        }
        let entry = ParamEntry { key, value };
        let at = self.position(entry.key.as_str());
        let mut entries: Vec<ParamEntry> = Vec::new();
        core::mem::swap(&mut self.entries, &mut entries);
        match at {
            Some(i) => {
                proof {
                    lemma_update_entry(entries@, i as int, entry);
                }
                entries.set(i, entry);
            },
            None => {
                proof {
                    lemma_push_entry(entries@, entry);
                }
                entries.push(entry);
            },
        }
        self.entries = entries;
    }
}

impl Clone for ParamMap {
    fn clone(&self) -> (copy: Self)
        ensures
            copy@ == self@,
    {
        proof {
            use_type_invariant(self);
        }
        let mut entries: Vec<ParamEntry> = Vec::new();
        let mut i: usize = 0;
        while i < self.entries.len()
            invariant
                i <= self.entries.len(),
                entries@.len() == i,
                forall|k: int|
                    0 <= k < i ==> (#[trigger] entries@[k]).key@ == self.entries@[k].key@
                        && entries@[k].value@ == self.entries@[k].value@,
            decreases self.entries.len() - i,
        {
            entries.push(self.entries[i].clone());
            i += 1;
        }
        proof {
            lemma_same_entries(self.entries@, entries@);
        }
        ParamMap { entries }
    }
}

/// Two lists of entries that agree name by name and value by value stand for
/// the same map.
pub proof fn lemma_same_entries(a: Seq<ParamEntry>, b: Seq<ParamEntry>)
    requires
        distinct_keys(a),
        a.len() == b.len(),
        forall|k: int|
            0 <= k < a.len() ==> (#[trigger] b[k]).key@ == a[k].key@ && b[k].value@ == a[k].value@,
    ensures
        distinct_keys(b),
        entries_map(a) == entries_map(b),
{
    assert forall|i: int, j: int| 0 <= i < j < b.len() implies (#[trigger] b[i]).key@ != (
    #[trigger] b[j]).key@ by {
        assert(a[i].key@ != a[j].key@);
    }
    assert forall|k: Seq<char>| entries_map(a).contains_key(k) == entries_map(b).contains_key(k) by {
        if has_key(a, k) {
            let i = key_position(a, k);
            assert(b[i].key@ == k);
        }
        if has_key(b, k) {
            let i = key_position(b, k);
            assert(a[i].key@ == k);
        }
    }
    assert forall|k: Seq<char>| entries_map(a).contains_key(k) implies entries_map(a)[k]
        == entries_map(b)[k] by {
        let i = key_position(a, k);
        lemma_entry_in_map(a, i);
        lemma_entry_in_map(b, i);
    }
    assert(entries_map(a) =~= entries_map(b));
}

/// A list of entries with distinct names stands for a finite map with as
/// many members as the list has entries.
pub proof fn lemma_count(entries: Seq<ParamEntry>)
    requires
        distinct_keys(entries),
    ensures
        entries_map(entries).dom().finite(),
        entries_map(entries).len() == entries.len(),
    decreases entries.len(),
{
    if entries.len() == 0 {
        assert(entries_map(entries) =~= Map::<Seq<char>, ParamValueView>::empty());
    } else {
        let front = entries.drop_last();
        let last = entries.last();
        assert forall|i: int, j: int| 0 <= i < j < front.len() implies (#[trigger] front[i]).key@ != (
        #[trigger] front[j]).key@ by {
            assert(entries[i].key@ != entries[j].key@);
        }
        lemma_count(front);
        if has_key(front, last.key@) {
            let i = key_position(front, last.key@);
            assert(entries[i].key@ != entries[entries.len() - 1].key@);
        }
        lemma_push_entry(front, last);
        assert(front.push(last) =~= entries);
    }
}

} // verus!
