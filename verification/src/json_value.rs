//! The untyped value tree: the dynamic JSON representation used when no
//! static target type is known. A number keeps the exact source lexeme the
//! scanner validated — interpreting its magnitude is deferred to the typed
//! dispatch stage. An object is an unordered string-keyed mapping in which
//! a repeated key keeps the later value.

use vstd::prelude::*;

verus! {

broadcast use vstd::std_specs::vec::axiom_vec_decreases_to_view, vstd::seq::axiom_seq_index_decreases, vstd::seq::axiom_seq_subrange_decreases;

/// A string-keyed map with the keys unique, stored as entries in insertion
/// order. Its mathematical model is the unordered `Map` from key characters
/// to element models; inserting an existing key keeps the later value.
#[derive(Debug, PartialEq)]
pub struct JsonMap<T> {
    pub entries: Vec<(String, T)>,
}

/// The untyped JSON value tree.
#[derive(Debug, PartialEq)]
pub enum JsonValue {
    Object(JsonMap<JsonValue>),
    Array(Vec<JsonValue>),
    String(String),
    Number(String),
    Bool(bool),
    Null,
}

/// The mathematical model of an untyped JSON value.
pub enum SpecJson {
    Object(Map<Seq<char>, SpecJson>),
    Array(Seq<SpecJson>),
    Str(Seq<char>),
    Number(Seq<char>),
    Bool(bool),
    Null,
}

/// The map an entry list denotes: entries applied left to right, a later
/// binding overriding an earlier one.
pub open spec fn spec_entries_map(entries: Seq<(String, JsonValue)>) -> Map<Seq<char>, SpecJson>
    decreases entries,
{
    if entries.len() == 0 {
        Map::empty()
    } else {
        let last = entries.last();
        spec_entries_map(entries.drop_last()).insert(last.0@, last.1.deep_view())
    }
}

/// The models of the elements of a value list.
pub open spec fn spec_elements_model(elements: Seq<JsonValue>) -> Seq<SpecJson>
    decreases elements,
{
    if elements.len() == 0 {
        Seq::empty()
    } else {
        spec_elements_model(elements.drop_last()).push(elements.last().deep_view())
    }
}

impl DeepView for JsonValue {
    type V = SpecJson;

    open spec fn deep_view(&self) -> SpecJson
        decreases self,
    {
        match self {
            JsonValue::Object(m) => SpecJson::Object(spec_entries_map(m.entries@)),
            JsonValue::Array(a) => SpecJson::Array(spec_elements_model(a@)),
            JsonValue::String(s) => SpecJson::Str(s@),
            JsonValue::Number(s) => SpecJson::Number(s@),
            JsonValue::Bool(b) => SpecJson::Bool(*b),
            JsonValue::Null => SpecJson::Null,
        }
    }
}

/// The element models of a value list equal the pointwise models.
pub proof fn lemma_elements_model_is_map(elements: Seq<JsonValue>)
    ensures
        spec_elements_model(elements).len() == elements.len(),
        forall|i: int|
            0 <= i < elements.len() ==> spec_elements_model(elements)[i] == elements[i].deep_view(),
    decreases elements.len(),
{
    if elements.len() > 0 {
        lemma_elements_model_is_map(elements.drop_last());
        assert(spec_elements_model(elements) == spec_elements_model(elements.drop_last()).push(
            elements.last().deep_view(),
        ));
        assert forall|i: int| 0 <= i < elements.len() implies spec_elements_model(elements)[i]
            == elements[i].deep_view() by {
            if i < elements.len() - 1 {
                assert(elements.drop_last()[i] == elements[i]);
                assert(spec_elements_model(elements)[i] == spec_elements_model(
                    elements.drop_last(),
                )[i]);
            } else {
                assert(elements[i] == elements.last());
            }
        }
    }
}

} // verus!

verus! {

/// The map a generic entry list denotes: entries applied left to right, a
/// later binding overriding an earlier one.
pub open spec fn spec_assoc_map<T: DeepView>(entries: Seq<(String, T)>) -> Map<
    Seq<char>,
    <T as DeepView>::V,
>
    decreases entries.len(),
{
    if entries.len() == 0 {
        Map::empty()
    } else {
        let last = entries.last();
        spec_assoc_map(entries.drop_last()).insert(last.0@, last.1.deep_view())
    }
}

impl<T: DeepView> DeepView for JsonMap<T> {
    type V = Map<Seq<char>, <T as DeepView>::V>;

    open spec fn deep_view(&self) -> Map<Seq<char>, <T as DeepView>::V> {
        spec_assoc_map(self.entries@)
    }
}

/// For values the two object models agree: the entry-list map of the value
/// tree is the generic association map.
pub proof fn lemma_entries_map_is_assoc(entries: Seq<(String, JsonValue)>)
    ensures
        spec_entries_map(entries) == spec_assoc_map(entries),
    decreases entries.len(),
{
    if entries.len() > 0 {
        lemma_entries_map_is_assoc(entries.drop_last());
    }
}

/// Replacing the one entry holding `key` denotes insertion into the map.
pub proof fn lemma_assoc_map_update<T: DeepView>(
    entries: Seq<(String, T)>,
    i: int,
    key: String,
    value: T,
)
    requires
        0 <= i < entries.len(),
        entries[i].0@ == key@,
        forall|j: int| 0 <= j < entries.len() && j != i ==> entries[j].0@ != key@,
    ensures
        spec_assoc_map(entries.update(i, (key, value))) == spec_assoc_map(entries).insert(
            key@,
            value.deep_view(),
        ),
    decreases entries.len(),
{
    let upd = entries.update(i, (key, value));
    if i == entries.len() - 1 {
        assert(upd.drop_last() =~= entries.drop_last());
        assert(upd.last() == (key, value));
        assert(spec_assoc_map(upd) == spec_assoc_map(entries.drop_last()).insert(
            key@,
            value.deep_view(),
        ));
        assert(spec_assoc_map(entries).insert(key@, value.deep_view()) =~= spec_assoc_map(
            entries.drop_last(),
        ).insert(key@, value.deep_view()));
    } else {
        assert(upd.drop_last() =~= entries.drop_last().update(i, (key, value)));
        assert(forall|j: int|
            0 <= j < entries.drop_last().len() && j != i ==> entries.drop_last()[j].0@ != key@);
        lemma_assoc_map_update(entries.drop_last(), i, key, value);
        let last = entries.last();
        assert(upd.last() == last);
        assert(last.0@ != key@);
        assert(spec_assoc_map(upd) == spec_assoc_map(entries.drop_last()).insert(
            key@,
            value.deep_view(),
        ).insert(last.0@, last.1.deep_view()));
        assert(spec_assoc_map(entries.drop_last()).insert(key@, value.deep_view()).insert(
            last.0@,
            last.1.deep_view(),
        ) =~= spec_assoc_map(entries.drop_last()).insert(last.0@, last.1.deep_view()).insert(
            key@,
            value.deep_view(),
        ));
    }
}

impl<T: DeepView> JsonMap<T> {
    /// Well-formedness: the keys are pairwise distinct.
    pub open spec fn wf(&self) -> bool {
        forall|i: int, j: int|
            0 <= i < j < self.entries@.len() ==> self.entries@[i].0@ != self.entries@[j].0@
    }

    /// The empty map.
    pub fn new() -> (m: Self)
        ensures
            m.wf(),
            m.deep_view() == Map::<Seq<char>, <T as DeepView>::V>::empty(),
            m.entries@.len() == 0,
    {
        JsonMap { entries: Vec::new() }
    }

    /// Binds `key` to `value`: a later binding for an existing key replaces
    /// the earlier one.
    pub fn insert(&mut self, key: String, value: T)
        requires
            old(self).wf(),
        ensures
            final(self).wf(),
            final(self).deep_view() == old(self).deep_view().insert(key@, value.deep_view()),
    {
        let ghost entries0 = self.entries@;
        let mut i: usize = 0;
        #[verifier::loop_isolation(false)]
        while i < self.entries.len()
            invariant
                i <= self.entries@.len(),
                self.entries@ == entries0,
                forall|j: int| 0 <= j < i ==> self.entries@[j].0@ != key@,
            decreases self.entries@.len() - i,
        {
            let hit = {
                let entry = &self.entries[i];
                entry.0 == key
            };
            if hit {
                proof {
                    lemma_assoc_map_update(entries0, i as int, key, value);
                }
                self.entries.set(i, (key, value));
                return ;
            }
            i = i + 1;
        }
        self.entries.push((key, value));
        proof {
            assert(self.entries@.drop_last() =~= entries0);
        }
    }

    /// The number of bindings.
    pub fn len(&self) -> (n: usize)
        ensures
            n == self.entries@.len(),
    {
        self.entries.len()
    }
}

} // verus!
