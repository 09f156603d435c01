//! A registry of values keyed by string identifiers.
//!
//! Rules and agents are registered under their identifiers. A registry
//! behaves as a finite map from identifiers to values: registering under an
//! identifier that is taken replaces the value and hands back the previous
//! one; the identifiers are kept in the order in which they were first
//! registered.

use vstd::prelude::*;
use crate::text::str_equal;
use crate::zip_project::tree::names_of;

verus! {

/// Values registered under unique string identifiers.
pub struct Registry<V> {
    entries: Vec<(String, V)>,
}

/// The identifiers of a sequence of entries.
pub open spec fn entry_keys<V>(entries: Seq<(String, V)>) -> Seq<Seq<char>> {
    entries.map_values(|e: (String, V)| e.0@)
}

impl<V> Registry<V> {
    /// No identifier is registered twice.
    #[verifier::type_invariant]
    spec fn unique_keys(self) -> bool {
        entry_keys(self.entries@).no_duplicates()
    }

    /// The registered identifiers, in order of first registration.
    pub closed spec fn key_seq(self) -> Seq<Seq<char>> {
        entry_keys(self.entries@)
    }

    /// The registered values, in the order of their identifiers.
    pub closed spec fn value_seq(self) -> Seq<V> {
        self.entries@.map_values(|e: (String, V)| e.1)
    }

    /// The registry as a map from identifier to value.
    pub closed spec fn view(self) -> Map<Seq<char>, V> {
        Map::new(
            |k: Seq<char>| self.key_seq().contains(k),
            |k: Seq<char>| self.value_seq()[self.key_seq().index_of(k)],
        )
    }

    /// The identifiers and the map agree: the keys are those of the map,
    /// each once, and the values follow them.
    proof fn lemma_view(self)
        requires
            self.key_seq().no_duplicates(),
        ensures
            self.key_seq().no_duplicates(),
            self.key_seq().len() == self.value_seq().len(),
            self.view().dom() == self.key_seq().to_set(),
            self.view().dom().len() == self.key_seq().len(),
            forall|i: int|
                0 <= i < self.key_seq().len() ==> #[trigger] self.view()[self.key_seq()[i]]
                    == self.value_seq()[i],
    {
        let ks = self.key_seq();
        assert(self.view().dom() =~= ks.to_set());
        ks.unique_seq_to_set();
        assert forall|i: int| 0 <= i < ks.len() implies #[trigger] self.view()[ks[i]]
            == self.value_seq()[i] by {
            assert(ks.contains(ks[i]));
            let j = ks.index_of(ks[i]);
            assert(ks[j] == ks[i]);
        }
    }

    /// An empty registry.
    pub fn new() -> (r: Self)
        ensures
            r.view() == Map::<Seq<char>, V>::empty(),
            r.key_seq() == Seq::<Seq<char>>::empty(),
    {
        let r = Registry { entries: Vec::new() };
        assert(r.view() =~= Map::<Seq<char>, V>::empty());
        assert(r.key_seq() =~= Seq::<Seq<char>>::empty());
        r
    }

    /// Position of the entry registered under `id`.
    fn position(&self, id: &str) -> (r: Option<usize>)
        ensures
            match r {
                Some(i) => i < self.key_seq().len() && self.key_seq()[i as int] == id@,
                None => !self.key_seq().contains(id@),
            },
    {
        let mut i: usize = 0;
        while i < self.entries.len()
            invariant
                i <= self.entries@.len(),
                forall|j: int| 0 <= j < i ==> self.key_seq()[j] != id@,
            decreases self.entries@.len() - i,
        {
            if str_equal(self.entries[i].0.as_str(), id) {
                return Some(i);
            }
            i = i + 1;
        }
        None
    }

    /// Registers `value` under `id`, replacing and returning the value
    /// registered there before, if any.
    pub fn insert(&mut self, id: String, value: V) -> (prev: Option<V>)
        ensures
            final(self).view() == old(self).view().insert(id@, value),
            prev == (if old(self).view().contains_key(id@) {
                Some(old(self).view()[id@])
            } else {
                None
            }),
            old(self).view().contains_key(id@) ==> final(self).key_seq() == old(self).key_seq(),
            !old(self).view().contains_key(id@) ==> final(self).key_seq() == old(
                self,
            ).key_seq().push(id@),
    {
        proof {
            use_type_invariant(&*self);
            self.lemma_view();
        }
        let ghost ks = self.key_seq();
        let ghost old_view = self.view();
        match self.position(id.as_str()) {
            Some(i) => {
                let ghost old_values = self.value_seq();
                let mut entry = (id, value);
                let mut entries: Vec<(String, V)> = Vec::new();
                std::mem::swap(&mut entries, &mut self.entries);
                entries.set_and_swap(i, &mut entry);
                proof {
                    assert(entry_keys(entries@) =~= ks);
                }
                self.entries = entries;
                proof {
                    assert(self.key_seq() =~= ks);
                    assert(self.value_seq() =~= old_values.update(i as int, value));
                    assert(self.view() =~= old_view.insert(ks[i as int], value)) by {
                        self.lemma_view();
                        assert forall|k: Seq<char>| self.view().contains_key(k) implies self.view()[k]
                            == old_view.insert(ks[i as int], value)[k] by {
                            let j = ks.index_of(k);
                            assert(ks.contains(k));
                            assert(self.view()[ks[j]] == self.value_seq()[j]);
                            if j != i {
                                assert(ks[j] != ks[i as int]);
                            }
                        }
                    }
                }
                Some(entry.1)
            },
            None => {
                let ghost e = (id, value);
                proof {
                    assert(entry_keys(self.entries@.push(e)) =~= ks.push(id@));
                    assert(ks.push(id@).no_duplicates()) by {
                        assert forall|a: int, b: int|
                            0 <= a < ks.push(id@).len() && 0 <= b < ks.push(id@).len() && a != b
                            implies ks.push(id@)[a] != ks.push(id@)[b] by {
                            if a == ks.len() {
                                assert(ks[b] != id@) by {
                                    if ks[b] == id@ {
                                        assert(ks.contains(id@));
                                    }
                                }
                            }
                            if b == ks.len() {
                                assert(ks[a] != id@) by {
                                    if ks[a] == id@ {
                                        assert(ks.contains(id@));
                                    }
                                }
                            }
                        }
                    }
                }
                let mut entries: Vec<(String, V)> = Vec::new();
                std::mem::swap(&mut entries, &mut self.entries);
                entries.push((id, value));
                self.entries = entries;
                proof {
                    let ks2 = self.key_seq();
                    assert(ks2 =~= ks.push(id@));
                    self.lemma_view();
                    assert(self.view() =~= old_view.insert(id@, value)) by {
                        assert forall|k: Seq<char>| #[trigger] self.view().contains_key(k) <==> old_view.insert(
                            id@,
                            value,
                        ).contains_key(k) by {
                            if ks2.contains(k) && k != id@ {
                                let j = ks2.index_of(k);
                                assert(ks[j] == k);
                            }
                            if ks.contains(k) {
                                let j = ks.index_of(k);
                                assert(ks2[j] == k);
                            }
                            if k == id@ {
                                assert(ks2[ks.len() as int] == id@);
                            }
                        }
                        assert forall|k: Seq<char>| self.view().contains_key(k) implies self.view()[k]
                            == old_view.insert(id@, value)[k] by {
                            let j = ks2.index_of(k);
                            assert(ks2.contains(k));
                            assert(self.view()[ks2[j]] == self.value_seq()[j]);
                            if j < ks.len() {
                                assert(ks.contains(k));
                                assert(old_view[ks[j]] == old(self).value_seq()[j]);
                            }
                        }
                    }
                }
                None
            },
        }
    }

    /// The value registered under `id`.
    pub fn get(&self, id: &str) -> (r: Option<&V>)
        ensures
            r == (if self.view().contains_key(id@) {
                Some(&self.view()[id@])
            } else {
                None
            }),
    {
        proof {
            use_type_invariant(self);
            self.lemma_view();
        }
        match self.position(id) {
            Some(i) => {
                proof {
                    assert(self.key_seq().contains(id@));
                }
                Some(&self.entries[i].1)
            },
            None => None,
        }
    }

    /// Whether a value is registered under `id`.
    pub fn contains(&self, id: &str) -> (r: bool)
        ensures
            r == self.view().contains_key(id@),
    {
        self.position(id).is_some()
    }

    /// The number of registered identifiers.
    pub fn len(&self) -> (n: usize)
        ensures
            n == self.view().len(),
            n == self.key_seq().len(),
    {
        proof {
            use_type_invariant(self);
            self.lemma_view();
        }
        self.entries.len()
    }

    /// Whether nothing is registered.
    pub fn is_empty(&self) -> (r: bool)
        ensures
            r == (self.view().len() == 0),
    {
        proof {
            use_type_invariant(self);
            self.lemma_view();
        }
        self.entries.len() == 0
    }

    /// The registered identifiers, in order of first registration.
    pub fn keys(&self) -> (r: Vec<&String>)
        ensures
            r@.map_values(|s: &String| s@) == self.key_seq(),
            self.key_seq().no_duplicates(),
            self.key_seq().to_set() == self.view().dom(),
            r@.len() == self.view().len(),
    {
        proof {
            use_type_invariant(self);
            self.lemma_view();
        }
        let mut r: Vec<&String> = Vec::new();
        let mut i: usize = 0;
        while i < self.entries.len()
            invariant
                i <= self.entries@.len(),
                r@.map_values(|s: &String| s@) == self.key_seq().take(i as int),
            decreases self.entries@.len() - i,
        {
            let ghost prev = r@;
            r.push(&self.entries[i].0);
            assert(r@.map_values(|s: &String| s@) =~= prev.map_values(|s: &String| s@).push(
                self.entries@[i as int].0@,
            ));
            assert(self.key_seq().take(i + 1) =~= self.key_seq().take(i as int).push(
                self.entries@[i as int].0@,
            ));
            i = i + 1;
        }
        assert(self.key_seq().take(i as int) =~= self.key_seq());
        r
    }

    /// The registered values, in the order of their identifiers.
    pub fn values(&self) -> (r: Vec<&V>)
        ensures
            r@.map_values(|v: &V| *v) == self.value_seq(),
            r@.len() == self.key_seq().len(),
            r@.len() == self.view().len(),
            forall|i: int| 0 <= i < r@.len() ==> *r@[i] == self.view()[#[trigger] self.key_seq()[i]],
    {
        proof {
            use_type_invariant(self);
            self.lemma_view();
        }
        let mut r: Vec<&V> = Vec::new();
        let mut i: usize = 0;
        while i < self.entries.len()
            invariant
                i <= self.entries@.len(),
                r@.map_values(|v: &V| *v) == self.value_seq().take(i as int),
            decreases self.entries@.len() - i,
        {
            let ghost prev = r@;
            r.push(&self.entries[i].1);
            assert(r@.map_values(|v: &V| *v) =~= prev.map_values(|v: &V| *v).push(
                self.entries@[i as int].1,
            ));
            assert(self.value_seq().take(i + 1) =~= self.value_seq().take(i as int).push(
                self.entries@[i as int].1,
            ));
            i = i + 1;
        }
        assert(self.value_seq().take(i as int) =~= self.value_seq());
        assert forall|k: int| 0 <= k < r@.len() implies *r@[k] == self.view()[#[trigger] self.key_seq()[k]] by {
            assert(r@.map_values(|v: &V| *v)[k] == *r@[k]);
        }
        r
    }

    /// Removes and returns the value registered under `id`, if any; the
    /// other identifiers keep their order.
    pub fn remove(&mut self, id: &str) -> (prev: Option<V>)
        ensures
            final(self).view() == old(self).view().remove(id@),
            !old(self).view().contains_key(id@) ==> final(self).key_seq() == old(self).key_seq(),
            old(self).view().contains_key(id@) ==> final(self).key_seq() == old(self).key_seq().remove(
                old(self).key_seq().index_of(id@),
            ),
            prev == (if old(self).view().contains_key(id@) {
                Some(old(self).view()[id@])
            } else {
                None
            }),
    {
        proof {
            use_type_invariant(&*self);
            self.lemma_view();
        }
        let ghost ks = self.key_seq();
        let ghost old_view = self.view();
        let ghost old_values = self.value_seq();
        match self.position(id) {
            Some(i) => {
                proof {
                    let ks2 = entry_keys(self.entries@.remove(i as int));
                    assert(ks2 =~= ks.remove(i as int));
                    assert(ks2.no_duplicates()) by {
                        assert forall|a: int, b: int|
                            0 <= a < ks2.len() && 0 <= b < ks2.len() && a != b implies ks2[a]
                            != ks2[b] by {
                            let a2 = if a < i { a } else { a + 1 };
                            let b2 = if b < i { b } else { b + 1 };
                            assert(ks2[a] == ks[a2]);
                            assert(ks2[b] == ks[b2]);
                        }
                    }
                }
                let mut entries: Vec<(String, V)> = Vec::new();
                std::mem::swap(&mut entries, &mut self.entries);
                let e = entries.remove(i);
                self.entries = entries;
                proof {
                    let ks2 = self.key_seq();
                    assert(ks.contains(id@));
                    let j = ks.index_of(id@);
                    assert(ks[j] == ks[i as int]);
                    assert(j == i);
                    assert(ks2 =~= ks.remove(i as int));
                    assert(self.value_seq() =~= old_values.remove(i as int));
                    self.lemma_view();
                    assert(old_view[ks[i as int]] == old_values[i as int]);
                    assert(self.view() =~= old_view.remove(id@)) by {
                        assert forall|k: Seq<char>| #[trigger] self.view().contains_key(k) <==> old_view.remove(
                            id@,
                        ).contains_key(k) by {
                            if ks2.contains(k) {
                                let j = ks2.index_of(k);
                                let j2 = if j < i { j } else { j + 1 };
                                assert(ks[j2] == k);
                                assert(j2 != i);
                            }
                            if ks.contains(k) && k != id@ {
                                let j = ks.index_of(k);
                                assert(j != i);
                                let j2 = if j < i { j } else { j - 1 };
                                assert(ks2[j2] == k);
                            }
                        }
                        assert forall|k: Seq<char>| self.view().contains_key(k) implies self.view()[k]
                            == old_view.remove(id@)[k] by {
                            let j = ks2.index_of(k);
                            assert(ks2.contains(k));
                            let j2 = if j < i { j } else { j + 1 };
                            assert(ks[j2] == k);
                            assert(self.view()[ks2[j]] == self.value_seq()[j]);
                            assert(old_view[ks[j2]] == old_values[j2]);
                        }
                    }
                }
                Some(e.1)
            },
            None => {
                assert(old_view.remove(id@) =~= old_view);
                None
            },
        }
    }

    /// A registry with the same identifiers, in the same order, whose
    /// values are those of `f` on the values of this one.
    pub fn map_values<W, F: Fn(&V) -> W>(&self, f: F) -> (r: Registry<W>)
        requires
            forall|i: int| 0 <= i < self.value_seq().len() ==> call_requires(f, (&self.value_seq()[i],)),
        ensures
            r.key_seq() == self.key_seq(),
            r.value_seq().len() == self.value_seq().len(),
            forall|i: int|
                0 <= i < self.value_seq().len() ==> call_ensures(
                    f,
                    (&self.value_seq()[i],),
                    #[trigger] r.value_seq()[i],
                ),
            r.view().dom() == self.view().dom(),
            forall|k: Seq<char>|
                #[trigger] self.view().contains_key(k) ==> call_ensures(
                    f,
                    (&self.view()[k],),
                    r.view()[k],
                ),
    {
        proof {
            use_type_invariant(self);
        }
        let mut entries: Vec<(String, W)> = Vec::new();
        let mut i: usize = 0;
        while i < self.entries.len()
            invariant
                i <= self.entries@.len(),
                self.key_seq().no_duplicates(),
                forall|k: int| 0 <= k < self.value_seq().len() ==> call_requires(f, (&self.value_seq()[k],)),
                entry_keys(entries@) == self.key_seq().take(i as int),
                entries@.len() == i,
                forall|k: int|
                    0 <= k < i ==> call_ensures(f, (&self.value_seq()[k],), #[trigger] entries@[k].1),
            decreases self.entries@.len() - i,
        {
            let ghost before = entries@;
            assert(self.value_seq()[i as int] == self.entries@[i as int].1);
            let w = f(&self.entries[i].1);
            entries.push((self.entries[i].0.clone(), w));
            proof {
                assert(entry_keys(entries@) =~= entry_keys(before).push(self.entries@[i as int].0@));
                assert(self.key_seq().take(i + 1) =~= self.key_seq().take(i as int).push(
                    self.entries@[i as int].0@,
                ));
            }
            i = i + 1;
        }
        proof {
            assert(self.key_seq().take(i as int) =~= self.key_seq());
        }
        let r = Registry { entries };
        assert forall|k: int| 0 <= k < self.value_seq().len() implies call_ensures(
            f,
            (&self.value_seq()[k],),
            #[trigger] r.value_seq()[k],
        ) by {
            assert(r.value_seq()[k] == r.entries@[k].1);
        }
        proof {
            self.lemma_view();
            r.lemma_view();
            assert(r.view().dom() =~= self.view().dom());
            assert forall|k: Seq<char>| #[trigger] self.view().contains_key(k) implies call_ensures(
                f,
                (&self.view()[k],),
                r.view()[k],
            ) by {
                let ks = self.key_seq();
                let j = ks.index_of(k);
                assert(ks.contains(k));
                assert(self.view()[ks[j]] == self.value_seq()[j]);
                assert(r.view()[ks[j]] == r.value_seq()[j]);
            }
        }
        r
    }

    /// Removes every entry.
    pub fn clear(&mut self)
        ensures
            final(self).view() == Map::<Seq<char>, V>::empty(),
            final(self).key_seq() == Seq::<Seq<char>>::empty(),
    {
        proof {
            assert(entry_keys(Seq::<(String, V)>::empty()) =~= Seq::<Seq<char>>::empty());
        }
        self.entries = Vec::new();
        assert(self.view() =~= Map::<Seq<char>, V>::empty());
        assert(self.key_seq() =~= Seq::<Seq<char>>::empty());
    }
}

/// Registering `value` under `id` makes a lookup of `id` give `value`, and
/// leaves every other identifier as it was.
pub proof fn law_lookup_after_register<V>(
    before: Map<Seq<char>, V>,
    id: Seq<char>,
    value: V,
    other: Seq<char>,
)
    ensures
        before.insert(id, value).contains_key(id),
        before.insert(id, value)[id] == value,
        other != id ==> before.insert(id, value).contains_key(other) == before.contains_key(other),
        other != id && before.contains_key(other) ==> before.insert(id, value)[other]
            == before[other],
{
}

/// Removing an identifier that was just registered, where it was not
/// registered before, gives back the registry as it was; after any removal
/// the identifier is no longer registered.
pub proof fn law_remove_undoes_register<V>(before: Map<Seq<char>, V>, id: Seq<char>, value: V)
    ensures
        !before.contains_key(id) ==> before.insert(id, value).remove(id) == before,
        !before.remove(id).contains_key(id),
{
    if !before.contains_key(id) {
        assert(before.insert(id, value).remove(id) =~= before);
    }
}

/// Registering under a new identifier adds one to the count of registered
/// identifiers; registering under a taken one leaves the count as it was.
pub proof fn law_count_after_register<V>(before: Map<Seq<char>, V>, id: Seq<char>, value: V)
    requires
        before.dom().finite(),
    ensures
        before.insert(id, value).len() == before.len() + (if before.contains_key(id) {
            0int
        } else {
            1int
        }),
{
    if before.contains_key(id) {
        assert(before.insert(id, value).dom() =~= before.dom());
    } else {
        assert(before.insert(id, value).dom() =~= before.dom().insert(id));
    }
}

/// Removing a registered identifier takes one from the count; removing an
/// unknown one changes nothing.
pub proof fn law_count_after_remove<V>(before: Map<Seq<char>, V>, id: Seq<char>)
    requires
        before.dom().finite(),
    ensures
        before.remove(id).len() == before.len() - (if before.contains_key(id) {
            1int
        } else {
            0int
        }),
{
    if before.contains_key(id) {
        assert(before.remove(id).dom() =~= before.dom().remove(id));
    } else {
        assert(before.remove(id).dom() =~= before.dom());
    }
}

/// A registry holds finitely many identifiers.
pub proof fn law_registry_is_finite<V>(r: Registry<V>)
    ensures
        r.view().dom().finite(),
{
    assert(r.view().dom() =~= r.key_seq().to_set());
}

} // verus!
