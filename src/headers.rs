//! Event headers: a mapping from names to values, and its JSON text.
use vstd::prelude::*;

verus! {

#[verifier::external_type_specification]
#[verifier::external_body]
pub struct ExJsonError(serde_json::Error);

/// The JSON text that serde_json writes for a mapping of strings, keys in
/// order, or `None` where it reports an error.
pub uninterp spec fn json_of_headers(m: Map<Seq<char>, Seq<char>>) -> Option<Seq<char>>;

/// The mapping that serde_json reads from a text, if the text is a JSON object
/// whose values are all strings.
pub uninterp spec fn headers_of_json(s: Seq<char>) -> Option<Map<Seq<char>, Seq<char>>>;

/// Relies on serde_json::to_string: a BTreeMap of strings is written as one
/// JSON object with its keys in sorted order, so the text depends on the
/// bindings alone.
#[verifier::external_body]
fn json_text(entries: &[(String, String)]) -> (r: Result<String, serde_json::Error>)
    requires
        keys_unique(entries@),
    ensures
        r is Ok <==> json_of_headers(entries_map(entries@)) is Some,
        r matches Ok(s) ==> json_of_headers(entries_map(entries@)) == Some(s@),
{
    let m: std::collections::BTreeMap<&String, &String> = entries.iter().map(|e| (&e.0, &e.1)).collect();
    serde_json::to_string(&m)
}

/// Relies on serde_json::from_str into a BTreeMap of strings: it succeeds
/// exactly on a JSON object of string values, and the map holds each key once.
#[verifier::external_body]
fn json_entries(text: &str) -> (r: Result<Vec<(String, String)>, serde_json::Error>)
    ensures
        r is Ok <==> headers_of_json(text@) is Some,
        r matches Ok(v) ==> keys_unique(v@) && headers_of_json(text@) == Some(entries_map(v@)),
{
    serde_json::from_str::<std::collections::BTreeMap<String, String>>(text).map(
        |m| m.into_iter().collect(),
    )
}

/// The abstract mapping held by a list of entries whose keys are unique.
pub open spec fn entries_map(s: Seq<(String, String)>) -> Map<Seq<char>, Seq<char>> {
    Map::new(
        |k: Seq<char>| exists|i: int| 0 <= i < s.len() && s[i].0@ == k,
        |k: Seq<char>| s[choose|i: int| 0 <= i < s.len() && s[i].0@ == k].1@,
    )
}

/// No key occurs twice among the entries.
pub open spec fn keys_unique(s: Seq<(String, String)>) -> bool {
    forall|i: int, j: int|
        0 <= i < s.len() && 0 <= j < s.len() && i != j ==> #[trigger] s[i].0@ != #[trigger] s[j].0@
}

/// Out-of-band metadata of an event: a mapping from names to values.
/// The order in which entries were inserted carries no meaning.
#[derive(Debug)]
pub struct Headers {
    entries: Vec<(String, String)>,
}

/// The entry at position `i` is what the mapping holds under its key.
pub proof fn lemma_entry_in_map(s: Seq<(String, String)>, i: int)
    requires
        keys_unique(s),
        0 <= i < s.len(),
    ensures
        entries_map(s).contains_key(s[i].0@),
        entries_map(s)[s[i].0@] == s[i].1@,
{
    let k = s[i].0@;
    assert(exists|j: int| 0 <= j < s.len() && s[j].0@ == k);
    let j = choose|j: int| 0 <= j < s.len() && s[j].0@ == k;
    assert(j == i);
}

impl View for Headers {
    type V = Map<Seq<char>, Seq<char>>;

    closed spec fn view(&self) -> Map<Seq<char>, Seq<char>> {
        entries_map(self.entries@)
    }
}

impl Headers {
    #[verifier::type_invariant]
    spec fn inv(&self) -> bool {
        keys_unique(self.entries@)
    }

    /// An empty mapping.
    pub fn new() -> (r: Headers)
        ensures
            r@ == Map::<Seq<char>, Seq<char>>::empty(),
    {
        let r = Headers { entries: Vec::new() };
        assert(r@ =~= Map::<Seq<char>, Seq<char>>::empty());
        r
    }

    /// Binds `key` to `value`, and returns the value that `key` had before, if any.
    pub fn insert(&mut self, key: String, value: String) -> (r: Option<String>)
        ensures
            final(self)@ == old(self)@.insert(key@, value@),
            r is None <==> !old(self)@.contains_key(key@),
            r matches Some(v) ==> old(self)@.contains_key(key@) && v@ == old(self)@[key@],
    {
        proof {
            use_type_invariant(&*self);
        }
        let ghost before = self.entries@;
        match self.position(&key) {
            None => {
                let mut entries: Vec<(String, String)> = Vec::new();
                std::mem::swap(&mut entries, &mut self.entries);
                entries.push((key, value));
                let ghost after = entries@;
                assert(keys_unique(after)) by {
                    assert forall|i: int, j: int|
                        0 <= i < after.len() && 0 <= j < after.len() && i != j implies
                        #[trigger] after[i].0@ != #[trigger] after[j].0@ by {
                        if i == before.len() {
                            assert(!entries_map(before).contains_key(after[i].0@));
                        } else if j == before.len() {
                            assert(!entries_map(before).contains_key(after[j].0@));
                        }
                    }
                }
                assert(entries_map(after) =~= entries_map(before).insert(key@, value@)) by {
                    lemma_entry_in_map(after, before.len() as int);
                    assert forall|k: Seq<char>| #[trigger] entries_map(after).contains_key(k) implies
                        entries_map(before).insert(key@, value@).contains_key(k)
                        && entries_map(after)[k] == entries_map(before).insert(key@, value@)[k] by {
                        let i = choose|i: int| 0 <= i < after.len() && after[i].0@ == k;
                        lemma_entry_in_map(after, i);
                        if i < before.len() {
                            lemma_entry_in_map(before, i);
                        }
                    }
                    assert forall|k: Seq<char>| #[trigger] entries_map(before).contains_key(k) implies
                        entries_map(after).contains_key(k) by {
                        let i = choose|i: int| 0 <= i < before.len() && before[i].0@ == k;
                        assert(after[i].0@ == k);
                    }
                }
                self.entries = entries;
                None
            },
            Some(i) => {
                let mut entries: Vec<(String, String)> = Vec::new();
                std::mem::swap(&mut entries, &mut self.entries);
                let old_entry = entries.remove(i);
                entries.insert(i, (key, value));
                let ghost after = entries@;
                assert(after == before.update(i as int, after[i as int]));
                assert(keys_unique(after)) by {
                    assert forall|a: int, b: int|
                        0 <= a < after.len() && 0 <= b < after.len() && a != b implies
                        #[trigger] after[a].0@ != #[trigger] after[b].0@ by {
                        assert(before[a].0@ != before[b].0@);
                    }
                }
                proof {
                    lemma_entry_in_map(before, i as int);
                }
                assert(entries_map(after) =~= entries_map(before).insert(key@, value@)) by {
                    lemma_entry_in_map(after, i as int);
                    assert forall|k: Seq<char>| #[trigger] entries_map(after).contains_key(k) implies
                        entries_map(before).insert(key@, value@).contains_key(k)
                        && entries_map(after)[k] == entries_map(before).insert(key@, value@)[k] by {
                        let j = choose|j: int| 0 <= j < after.len() && after[j].0@ == k;
                        lemma_entry_in_map(after, j);
                        if j != i {
                            lemma_entry_in_map(before, j);
                        }
                    }
                    assert forall|k: Seq<char>| #[trigger] entries_map(before).contains_key(k) implies
                        entries_map(after).contains_key(k) by {
                        let j = choose|j: int| 0 <= j < before.len() && before[j].0@ == k;
                        if j != i {
                            assert(after[j].0@ == k);
                        }
                    }
                }
                self.entries = entries;
                Some(old_entry.1)
            },
        }
    }

    /// The value bound to `key`, if any.
    pub fn get(&self, key: &String) -> (r: Option<&String>)
        ensures
            r is None <==> !self@.contains_key(key@),
            r matches Some(v) ==> v@ == self@[key@],
    {
        proof {
            use_type_invariant(self);
        }
        match self.position(key) {
            None => None,
            Some(i) => {
                proof {
                    lemma_entry_in_map(self.entries@, i as int);
                }
                Some(&self.entries[i].1)
            },
        }
    }

    /// Every binding of `self` is also a binding of `other`.
    pub fn is_within(&self, other: &Headers) -> (r: bool)
        ensures
            r == (forall|k: Seq<char>| #[trigger] self@.contains_key(k) ==>
                other@.contains_key(k) && other@[k] == self@[k]),
    {
        proof {
            use_type_invariant(self);
        }
        let mut i: usize = 0;
        while i < self.entries.len()
            invariant
                i <= self.entries@.len(),
                keys_unique(self.entries@),
                forall|j: int| 0 <= j < i ==> other@.contains_key(#[trigger] self.entries@[j].0@)
                    && other@[self.entries@[j].0@] == self.entries@[j].1@,
            decreases self.entries@.len() - i,
        {
            let entry = &self.entries[i];
            match other.get(&entry.0) {
                None => {
                    proof {
                        lemma_entry_in_map(self.entries@, i as int);
                        assert(self@.contains_key(entry.0@));
                    }
                    return false;
                },
                Some(v) => {
                    if !(*v == entry.1) {
                        proof {
                            lemma_entry_in_map(self.entries@, i as int);
                            assert(self@.contains_key(entry.0@));
                        }
                        return false;
                    }
                },
            }
            i = i + 1;
        }
        assert forall|k: Seq<char>| #[trigger] self@.contains_key(k) implies
            other@.contains_key(k) && other@[k] == self@[k] by {
            let j = choose|j: int| 0 <= j < self.entries@.len() && self.entries@[j].0@ == k;
            lemma_entry_in_map(self.entries@, j);
            assert(other@.contains_key(self.entries@[j].0@));
        }
        true
    }

    /// The entries, each key once, in no particular order.
    pub fn entries(&self) -> (r: &[(String, String)])
        ensures
            keys_unique(r@),
            entries_map(r@) == self@,
    {
        proof {
            use_type_invariant(self);
        }
        self.entries.as_slice()
    }

    /// The mapping that a list of entries with distinct keys holds.
    pub(crate) fn from_entries(entries: Vec<(String, String)>) -> (r: Headers)
        requires
            keys_unique(entries@),
        ensures
            r@ == entries_map(entries@),
    {
        Headers { entries }
    }

    /// The headers as a JSON object of strings.
    pub fn to_json(&self) -> (r: Result<String, serde_json::Error>)
        ensures
            r is Ok <==> json_of_headers(self@) is Some,
            r matches Ok(s) ==> json_of_headers(self@) == Some(s@),
    {
        let entries = self.entries();
        json_text(entries)
    }

    /// Reads headers from a JSON object whose values are all strings.
    pub fn from_json(text: &str) -> (r: Result<Headers, serde_json::Error>)
        ensures
            r is Ok <==> headers_of_json(text@) is Some,
            r matches Ok(h) ==> headers_of_json(text@) == Some(h@),
    {
        match json_entries(text) {
            Ok(entries) => Ok(Headers::from_entries(entries)),
            Err(e) => Err(e),
        }
    }

    /// Entries that hold the same strings, position by position, as a list with
    /// distinct keys.
    fn from_entries_alike(entries: Vec<(String, String)>, model: &Vec<(String, String)>) -> (r: Headers)
        requires
            keys_unique(model@),
            entries@.len() == model@.len(),
            forall|j: int| 0 <= j < model@.len() ==> (#[trigger] entries@[j]).0@ == model@[j].0@
                && entries@[j].1@ == model@[j].1@,
        ensures
            r@ == entries_map(model@),
    {
        let r = Headers { entries };
        assert(r@ =~= entries_map(model@)) by {
            assert forall|k: Seq<char>| #[trigger] r@.contains_key(k) implies
                entries_map(model@).contains_key(k) && r@[k] == entries_map(model@)[k] by {
                let j = choose|j: int| 0 <= j < r.entries@.len() && r.entries@[j].0@ == k;
                lemma_entry_in_map(r.entries@, j);
                lemma_entry_in_map(model@, j);
            }
            assert forall|k: Seq<char>| #[trigger] entries_map(model@).contains_key(k) implies
                r@.contains_key(k) by {
                let j = choose|j: int| 0 <= j < model@.len() && model@[j].0@ == k;
                assert(r.entries@[j].0@ == k);
            }
        }
        r
    }

    /// The position of `key` among the entries, if it is present.
    fn position(&self, key: &String) -> (r: Option<usize>)
        ensures
            r is None ==> !self@.contains_key(key@),
            r matches Some(i) ==> i < self.entries@.len() && self.entries@[i as int].0@ == key@,
    {
        let mut i: usize = 0;
        while i < self.entries.len()
            invariant
                i <= self.entries@.len(),
                forall|j: int| 0 <= j < i ==> self.entries@[j].0@ != key@,
            decreases self.entries@.len() - i,
        {
            if self.entries[i].0 == *key {
                return Some(i);
            }
            i = i + 1;
        }
        None
    }
}

impl PartialEq for Headers {
    /// Two headers are equal when they hold the same bindings, in whatever order.
    fn eq(&self, other: &Headers) -> (r: bool) {
        let r = self.is_within(other) && other.is_within(self);
        proof {
            if r {
                assert(self@ =~= other@);
            }
        }
        r
    }
}

impl Clone for Headers {
    fn clone(&self) -> (r: Headers)
        ensures
            r@ == self@,
    {
        proof {
            use_type_invariant(self);
        }
        let mut entries: Vec<(String, String)> = Vec::new();
        let mut i: usize = 0;
        while i < self.entries.len()
            invariant
                i <= self.entries@.len(),
                entries@.len() == i,
                forall|j: int| 0 <= j < i ==> (#[trigger] entries@[j]).0@ == self.entries@[j].0@
                    && entries@[j].1@ == self.entries@[j].1@,
            decreases self.entries@.len() - i,
        {
            let entry = &self.entries[i];
            entries.push((entry.0.clone(), entry.1.clone()));
            i = i + 1;
        }
        let r = Headers::from_entries_alike(entries, &self.entries);
        r
    }
}

impl vstd::std_specs::cmp::PartialEqSpecImpl for Headers {
    open spec fn obeys_eq_spec() -> bool {
        true
    }

    open spec fn eq_spec(&self, other: &Headers) -> bool {
        self@ == other@
    }
}

} // verus!
