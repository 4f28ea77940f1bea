//! The metadata resolver: an ordered mapping from string keys to YAML
//! values, built from the root node of a front-matter document, and the
//! lookup of configured fields in it.

use crate::text::str_equal;
use crate::yaml::{parse_yaml, yaml_document, YamlNode, YamlValue};
use vstd::prelude::*;

verus! {

/// The model of an ordered mapping: its key-value pairs in insertion order.
pub type Entries = Seq<(Seq<char>, YamlValue)>;

/// The index of the last pair with key `key`, or -1 where there is none.
pub open spec fn key_index(entries: Entries, key: Seq<char>) -> int
    decreases entries.len(),
{
    if entries.len() == 0 {
        -1
    } else if entries.last().0 == key {
        entries.len() - 1
    } else {
        key_index(entries.drop_last(), key)
    }
}

/// The value under `key`: that of the last pair with this key.
pub open spec fn lookup(entries: Entries, key: Seq<char>) -> Option<YamlValue> {
    let i = key_index(entries, key);
    if i >= 0 {
        Some(entries[i].1)
    } else {
        None
    }
}

/// No key occurs twice.
pub open spec fn distinct_keys(entries: Entries) -> bool {
    forall|i: int, j: int|
        0 <= i < j < entries.len() ==> (#[trigger] entries[i]).0 != (#[trigger] entries[j]).0
}

/// The mapping after `key` is set to `value`: a known key keeps its place
/// and takes the new value, a new key goes to the end.
pub open spec fn inserted(entries: Entries, key: Seq<char>, value: YamlValue) -> Entries {
    let i = key_index(entries, key);
    if i >= 0 {
        entries.update(i, (key, value))
    } else {
        entries.push((key, value))
    }
}

/// The mapping that comes of inserting `pairs` one after the other.
pub open spec fn from_pairs(pairs: Entries) -> Entries
    decreases pairs.len(),
{
    if pairs.len() == 0 {
        Seq::empty()
    } else {
        inserted(from_pairs(pairs.drop_last()), pairs.last().0, pairs.last().1)
    }
}

/// Every key of the YAML mapping is a string.
pub open spec fn string_keyed(pairs: Seq<(YamlValue, YamlValue)>) -> bool {
    forall|i: int| 0 <= i < pairs.len() ==> (#[trigger] pairs[i]).0 is Text
}

/// The pairs of a YAML mapping with their string keys taken out.
pub open spec fn keyed_pairs(pairs: Seq<(YamlValue, YamlValue)>) -> Entries {
    Seq::new(pairs.len(), |i: int| (pairs[i].0->Text_0, pairs[i].1))
}

/// The metadata mapping of a YAML root value: present only for a mapping
/// whose keys are all strings.
pub open spec fn mapping_of(root: YamlValue) -> Option<Entries> {
    match root {
        YamlValue::Mapping(pairs) => if string_keyed(pairs) {
            Some(from_pairs(keyed_pairs(pairs)))
        } else {
            None
        },
        _ => None,
    }
}

/// What `key_index` returns is the last position of the key.
pub proof fn lemma_key_index(entries: Entries, key: Seq<char>)
    ensures
        -1 <= key_index(entries, key) < entries.len(),
        key_index(entries, key) >= 0 ==> entries[key_index(entries, key)].0 == key,
        forall|j: int|
            key_index(entries, key) < j < entries.len() ==> (#[trigger] entries[j]).0 != key,
    decreases entries.len(),
{
    if entries.len() > 0 && entries.last().0 != key {
        let rest = entries.drop_last();
        lemma_key_index(rest, key);
        assert forall|j: int| key_index(entries, key) < j < entries.len() implies (
        #[trigger] entries[j]).0 != key by {
            if j < rest.len() {
                assert(rest[j] == entries[j]);
            }
        }
    }
}

/// Two sequences with the same keys at the same places find a key at the
/// same index.
proof fn lemma_key_index_same_keys(a: Entries, b: Entries, key: Seq<char>)
    requires
        a.len() == b.len(),
        forall|j: int| 0 <= j < a.len() ==> (#[trigger] a[j]).0 == b[j].0,
    ensures
        key_index(a, key) == key_index(b, key),
    decreases a.len(),
{
    if a.len() > 0 && a.last().0 != key {
        lemma_key_index_same_keys(a.drop_last(), b.drop_last(), key);
    }
}

/// After an insertion the key holds the new value and every other key holds
/// what it held.
pub proof fn lemma_lookup_inserted(
    entries: Entries,
    key: Seq<char>,
    value: YamlValue,
    other: Seq<char>,
)
    ensures
        lookup(inserted(entries, key, value), other) == if other == key {
            Some(value)
        } else {
            lookup(entries, other)
        },
{
    lemma_key_index(entries, key);
    lemma_key_index(entries, other);
    let after = inserted(entries, key, value);
    if key_index(entries, key) >= 0 {
        lemma_key_index_same_keys(after, entries, other);
    } else {
        assert(after.drop_last() =~= entries);
    }
}

/// An insertion keeps the keys distinct.
pub proof fn lemma_inserted_distinct(entries: Entries, key: Seq<char>, value: YamlValue)
    requires
        distinct_keys(entries),
    ensures
        distinct_keys(inserted(entries, key, value)),
{
    lemma_key_index(entries, key);
}

/// A mapping built from pairs holds no key twice, whatever the pairs.
pub proof fn law_built_mapping_has_distinct_keys(pairs: Entries)
    ensures
        distinct_keys(from_pairs(pairs)),
    decreases pairs.len(),
{
    if pairs.len() > 0 {
        law_built_mapping_has_distinct_keys(pairs.drop_last());
        lemma_inserted_distinct(from_pairs(pairs.drop_last()), pairs.last().0, pairs.last().1);
    }
}

/// Where a key occurs more than once among the pairs, the last occurrence
/// wins: the mapping holds under each key what the last pair with that key
/// holds, and holds no key that no pair has.
pub proof fn law_last_occurrence_wins(pairs: Entries, key: Seq<char>)
    ensures
        lookup(from_pairs(pairs), key) == lookup(pairs, key),
    decreases pairs.len(),
{
    if pairs.len() > 0 {
        let rest = pairs.drop_last();
        law_last_occurrence_wins(rest, key);
        lemma_lookup_inserted(from_pairs(rest), pairs.last().0, pairs.last().1, key);
        lemma_key_index(rest, key);
    }
}

/// A rule that maps an output label to the key under which the document's
/// metadata holds the value.
#[derive(Debug, PartialEq, Eq)]
pub struct FieldBinding {
    /// The label under which the value is handed on.
    pub output_label: String,
    /// The key that is looked up in the document's metadata.
    pub source_key: String,
}

impl Clone for FieldBinding {
    fn clone(&self) -> (copy: Self)
        ensures
            copy.pair() == self.pair(),
    {
        FieldBinding {
            output_label: self.output_label.clone(),
            source_key: self.source_key.clone(),
        }
    }
}

impl FieldBinding {
    /// The binding as a pair of label and key.
    pub open spec fn pair(&self) -> (Seq<char>, Seq<char>) {
        (self.output_label@, self.source_key@)
    }
}

/// The bindings of a registry as pairs of label and key.
pub open spec fn bindings_view(bindings: Seq<FieldBinding>) -> Seq<(Seq<char>, Seq<char>)> {
    Seq::new(bindings.len(), |i: int| bindings[i].pair())
}

/// The resolved metadata: for each binding in turn whose key the mapping
/// holds, the label is set to the value found. A binding whose key is
/// missing adds nothing.
pub open spec fn resolved(entries: Entries, bindings: Seq<(Seq<char>, Seq<char>)>) -> Entries
    decreases bindings.len(),
{
    if bindings.len() == 0 {
        Seq::empty()
    } else {
        let before = resolved(entries, bindings.drop_last());
        match lookup(entries, bindings.last().1) {
            Some(value) => inserted(before, bindings.last().0, value),
            None => before,
        }
    }
}

/// Resolved metadata holds no label twice, whatever the bindings.
pub proof fn law_resolved_labels_are_distinct(entries: Entries, bindings: Seq<(Seq<char>, Seq<char>)>)
    ensures
        distinct_keys(resolved(entries, bindings)),
    decreases bindings.len(),
{
    if bindings.len() > 0 {
        law_resolved_labels_are_distinct(entries, bindings.drop_last());
        match lookup(entries, bindings.last().1) {
            Some(value) => {
                lemma_inserted_distinct(
                    resolved(entries, bindings.drop_last()),
                    bindings.last().0,
                    value,
                );
            },
            None => {},
        }
    }
}

/// A label all of whose bindings name a key that the mapping lacks gets no
/// entry: resolving never puts a placeholder in its place.
pub proof fn law_missing_key_yields_no_entry(
    entries: Entries,
    bindings: Seq<(Seq<char>, Seq<char>)>,
    label: Seq<char>,
)
    requires
        forall|i: int|
            0 <= i < bindings.len() && (#[trigger] bindings[i]).0 == label ==> lookup(
                entries,
                bindings[i].1,
            ) is None,
    ensures
        lookup(resolved(entries, bindings), label) is None,
    decreases bindings.len(),
{
    if bindings.len() > 0 {
        let rest = bindings.drop_last();
        law_missing_key_yields_no_entry(entries, rest, label);
        let last = bindings[bindings.len() - 1];
        match lookup(entries, last.1) {
            Some(value) => {
                lemma_lookup_inserted(resolved(entries, rest), last.0, value, label);
            },
            None => {},
        }
    }
}

/// Every resolved entry holds a value that the mapping holds under the key
/// of a binding with that label.
pub proof fn law_resolved_values_come_from_mapping(
    entries: Entries,
    bindings: Seq<(Seq<char>, Seq<char>)>,
    label: Seq<char>,
)
    requires
        lookup(resolved(entries, bindings), label) is Some,
    ensures
        exists|i: int|
            0 <= i < bindings.len() && (#[trigger] bindings[i]).0 == label && lookup(
                entries,
                bindings[i].1,
            ) == lookup(resolved(entries, bindings), label),
    decreases bindings.len(),
{
    let rest = bindings.drop_last();
    let last = bindings[bindings.len() - 1];
    let found = lookup(entries, last.1);
    if found is Some {
        lemma_lookup_inserted(resolved(entries, rest), last.0, found->0, label);
    }
    if !(found is Some && last.0 == label) {
        // The entry was there before the last binding: the binding that the
        // shorter registry gives is a binding of this one.
        law_resolved_values_come_from_mapping(entries, rest, label);
        let i = choose|i: int|
            0 <= i < rest.len() && (#[trigger] rest[i]).0 == label && lookup(entries, rest[i].1)
                == lookup(resolved(entries, rest), label);
        assert(bindings[i] == rest[i]);
    }
}

/// An ordered mapping from string keys to YAML nodes, with no key twice.
#[derive(Debug, PartialEq, Eq)]
pub struct MetadataMapping {
    entries: Vec<(String, YamlNode)>,
}

impl View for MetadataMapping {
    type V = Entries;

    closed spec fn view(&self) -> Entries {
        Seq::new(self.entries@.len(), |i: int| (self.entries@[i].0@, self.entries@[i].1@))
    }
}

impl MetadataMapping {
    #[verifier::type_invariant]
    spec fn keys_are_distinct(&self) -> bool {
        distinct_keys(self@)
    }

    /// An empty mapping.
    pub fn new() -> (mapping: Self)
        ensures
            mapping@ == Seq::<(Seq<char>, YamlValue)>::empty(),
    {
        MetadataMapping { entries: Vec::new() }
    }

    /// The number of entries.
    pub fn len(&self) -> (n: usize)
        ensures
            n == self@.len(),
            distinct_keys(self@),
    {
        proof {
            use_type_invariant(self);
        }
        self.entries.len()
    }

    /// The place of `key` among the entries.
    fn position(&self, key: &str) -> (place: Option<usize>)
        ensures
            match place {
                Some(i) => i == key_index(self@, key@),
                None => key_index(self@, key@) == -1,
            },
    {
        let mut i = self.entries.len();
        assert(self@.take(i as int) =~= self@);
        while i > 0
            invariant
                i <= self.entries.len(),
                key_index(self@, key@) == key_index(self@.take(i as int), key@),
            decreases i,
        {
            assert(self@.take(i as int).drop_last() =~= self@.take(i - 1));
            if str_equal(self.entries[i - 1].0.as_str(), key) {
                return Some(i - 1);
            }
            i = i - 1;
        }
        None
    }

    /// The node under `key`, if the mapping holds the key.
    pub fn get(&self, key: &str) -> (found: Option<&YamlNode>)
        ensures
            match found {
                Some(node) => lookup(self@, key@) == Some(node@),
                None => lookup(self@, key@) is None,
            },
    {
        match self.position(key) {
            Some(i) => {
                proof {
                    lemma_key_index(self@, key@);
                }
                Some(&self.entries[i].1)
            },
            None => None,
        }
    }

    /// The key and the node at place `index` in insertion order, if there
    /// are that many entries.
    pub fn entry(&self, index: usize) -> (found: Option<(&String, &YamlNode)>)
        ensures
            match found {
                Some((key, node)) => index < self@.len() && self@[index as int] == (key@, node@),
                None => index >= self@.len(),
            },
    {
        if index < self.entries.len() {
            Some((&self.entries[index].0, &self.entries[index].1))
        } else {
            None
        }
    }

    /// Sets `key` to `value`. A key that the mapping holds keeps its place.
    pub fn insert(&mut self, key: String, value: YamlNode)
        ensures
            final(self)@ == inserted(old(self)@, key@, value@),
            distinct_keys(final(self)@),
    {
        proof {
            use_type_invariant(&*self);
            lemma_inserted_distinct(self@, key@, value@);
            lemma_key_index(self@, key@);
        }
        let ghost before = self@;
        let place = self.position(key.as_str());
        let mut taken = MetadataMapping::new();
        core::mem::swap(self, &mut taken);
        let MetadataMapping { entries: mut entries } = taken;
        match place {
            Some(i) => {
                entries.set(i, (key, value));
            },
            None => {
                entries.push((key, value));
            },
        }
        assert(Seq::new(entries@.len(), |i: int| (entries@[i].0@, entries@[i].1@)) =~= inserted(
            before,
            key@,
            value@,
        ));
        *self = MetadataMapping { entries };
    }
}

impl Clone for MetadataMapping {
    /// A deep copy of the mapping.
    fn clone(&self) -> (copy: Self)
        ensures
            copy@ == self@,
    {
        proof {
            use_type_invariant(self);
        }
        let mut entries: Vec<(String, YamlNode)> = Vec::new();
        let mut i: usize = 0;
        while i < self.entries.len()
            invariant
                i <= self.entries.len(),
                entries.len() == i,
                forall|j: int|
                    0 <= j < i ==> (#[trigger] entries@[j]).0@ == self.entries@[j].0@
                        && entries@[j].1@ == self.entries@[j].1@,
            decreases self.entries.len() - i,
        {
            let key = self.entries[i].0.clone();
            let node = self.entries[i].1.clone();
            entries.push((key, node));
            i = i + 1;
        }
        let ghost target = self@;
        assert(Seq::new(entries@.len(), |i: int| (entries@[i].0@, entries@[i].1@)) =~= target);
        MetadataMapping { entries }
    }
}

/// Converts the root node of a YAML document into a metadata mapping.
///
/// Only a mapping whose keys are all strings converts; any other root gives
/// `None`. Where a key occurs twice, the last occurrence wins.
pub fn yaml_mapping_to_hashmap(yaml: &YamlNode) -> (mapping: Option<MetadataMapping>)
    ensures
        match mapping {
            Some(m) => mapping_of(yaml@) == Some(m@),
            None => mapping_of(yaml@) is None,
        },
        mapping matches Some(m) ==> distinct_keys(m@),
{
    match yaml {
        YamlNode::Mapping(pairs) => {
            let ghost all = yaml@->Mapping_0;
            let mut mapping = MetadataMapping::new();
            let mut i: usize = 0;
            while i < pairs.len()
                invariant
                    i <= pairs.len(),
                    all == yaml@->Mapping_0,
                    yaml@ is Mapping,
                    all.len() == pairs.len(),
                    forall|j: int|
                        0 <= j < pairs.len() ==> (#[trigger] all[j]) == (pairs@[j].0@, pairs@[j].1@),
                    string_keyed(all.take(i as int)),
                    mapping@ == from_pairs(keyed_pairs(all).take(i as int)),
                    distinct_keys(mapping@),
                decreases pairs.len() - i,
            {
                match &pairs[i].0 {
                    YamlNode::Text(key) => {
                        let value = pairs[i].1.clone();
                        proof {
                            let now = keyed_pairs(all).take(i + 1);
                            assert(now.drop_last() =~= keyed_pairs(all).take(i as int));
                        }
                        mapping.insert(key.clone(), value);
                    },
                    _ => {
                        assert(!(all[i as int].0 is Text));
                        return None;
                    },
                }
                i = i + 1;
            }
            assert(all.take(i as int) =~= all);
            assert(keyed_pairs(all).take(i as int) =~= keyed_pairs(all));
            Some(mapping)
        },
        _ => None,
    }
}

/// The metadata mapping of a YAML text: absent where the text is no
/// well-formed YAML or its root is no mapping with string keys.
pub open spec fn metadata_of(yaml_text: Seq<char>) -> Option<Entries> {
    match yaml_document(yaml_text) {
        Some(root) => mapping_of(root),
        None => None,
    }
}

/// Parses the YAML segment of a document into a metadata mapping.
///
/// Returns `None` where the segment is no well-formed YAML, or where its
/// root is anything but a mapping with string keys.
pub fn parse_metadata(yaml_text: &str) -> (mapping: Option<MetadataMapping>)
    ensures
        match mapping {
            Some(m) => metadata_of(yaml_text@) == Some(m@),
            None => metadata_of(yaml_text@) is None,
        },
        mapping matches Some(m) ==> distinct_keys(m@),
{
    match parse_yaml(yaml_text) {
        Some(root) => yaml_mapping_to_hashmap(&root),
        None => None,
    }
}

/// Looks up the configured fields in a document's metadata.
///
/// For each binding in turn whose `source_key` the mapping holds, the result
/// maps `output_label` to a copy of the node found; a binding whose key is
/// missing leaves no entry.
pub fn resolve_metadata(mapping: &MetadataMapping, bindings: &Vec<FieldBinding>) -> (found:
    MetadataMapping)
    ensures
        found@ == resolved(mapping@, bindings_view(bindings@)),
        distinct_keys(found@),
{
    let ghost all = bindings_view(bindings@);
    let mut found = MetadataMapping::new();
    let mut i: usize = 0;
    while i < bindings.len()
        invariant
            i <= bindings.len(),
            all == bindings_view(bindings@),
            found@ == resolved(mapping@, all.take(i as int)),
            distinct_keys(found@),
        decreases bindings.len() - i,
    {
        let binding = &bindings[i];
        proof {
            let now = all.take(i + 1);
            assert(now.drop_last() =~= all.take(i as int));
        }
        match mapping.get(binding.source_key.as_str()) {
            Some(node) => {
                found.insert(binding.output_label.clone(), node.clone());
            },
            None => {},
        }
        i = i + 1;
    }
    assert(all.take(i as int) =~= all);
    found
}

} // verus!
