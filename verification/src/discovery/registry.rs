//! Values by name, on an index from `dashmap`.

use dashmap::DashMap;
use vstd::prelude::*;

use crate::text;
use crate::text::owned;

verus! {

/// `dashmap::DashMap`: a map that its holder may also change through a shared
/// reference. Here it is only changed through an exclusive one.
#[verifier::external_type_specification]
#[verifier::external_body]
#[verifier::reject_recursive_types(K)]
#[verifier::reject_recursive_types(V)]
#[verifier::reject_recursive_types(S)]
pub struct ExDashMap<K, V, S>(dashmap::DashMap<K, V, S>);

/// What an index by name holds.
pub uninterp spec fn index_contents(index: DashMap<String, usize>) -> Map<Seq<char>, usize>;

/// `DashMap::new`: nothing is held.
#[verifier::external_body]
fn index_new() -> (res: DashMap<String, usize>)
    ensures
        index_contents(res).dom() == Set::<Seq<char>>::empty(),
{
    DashMap::new()
}

/// `DashMap::get`: the value under the key, if there is one. Keys are the same
/// where their characters are.
#[verifier::external_body]
fn index_get(index: &DashMap<String, usize>, name: &str) -> (res: Option<usize>)
    ensures
        match res {
            Some(place) => index_contents(*index).contains_key(name@)
                && index_contents(*index)[name@] == place,
            None => !index_contents(*index).contains_key(name@),
        },
{
    index.get(name).map(|entry| *entry.value())
}

/// `DashMap::insert`: the value stands under the key, in the place of any that
/// stood there, and nothing else changes.
#[verifier::external_body]
fn index_insert(index: &mut DashMap<String, usize>, name: String, place: usize)
    ensures
        index_contents(*final(index)) == index_contents(*old(index)).insert(name@, place),
{
    index.insert(name, place);
}

/// `DashMap::remove`: nothing stands under the key any more, and nothing else
/// changes; the value that stood there is given back.
#[verifier::external_body]
fn index_remove(index: &mut DashMap<String, usize>, name: &str) -> (res: Option<usize>)
    ensures
        index_contents(*final(index)) == index_contents(*old(index)).remove(name@),
        match res {
            Some(place) => index_contents(*old(index)).contains_key(name@)
                && index_contents(*old(index))[name@] == place,
            None => !index_contents(*old(index)).contains_key(name@),
        },
{
    index.remove(name).map(|entry| entry.1)
}

/// `DashMap::iter`: each entry once, of which the key is taken. Nothing is
/// claimed of the order.
#[verifier::external_body]
fn index_keys(index: &DashMap<String, usize>) -> (res: Vec<String>)
    ensures
        text::texts(res@).no_duplicates(),
        forall|name: Seq<char>| #[trigger]
            text::texts(res@).contains(name) <==> index_contents(*index).contains_key(name),
{
    index.iter().map(|entry| entry.key().clone()).collect()
}

/// Values by name.
pub struct Registry<V> {
    index: DashMap<String, usize>,
    slots: Vec<Option<V>>,
    free: Vec<usize>,
}

impl<V> View for Registry<V> {
    type V = Map<Seq<char>, V>;

    /// The values by name.
    closed spec fn view(&self) -> Map<Seq<char>, V> {
        index_contents(self.index).map_values(|place: usize| self.slots@[place as int]->0)
    }
}

impl<V> Registry<V> {
    #[verifier::type_invariant]
    spec fn consistent(&self) -> bool {
        registry_consistent(index_contents(self.index), self.slots@, self.free@)
    }

    /// A registry that holds nothing.
    pub fn new() -> (res: Self)
        ensures
            res@ == Map::<Seq<char>, V>::empty(),
    {
        let res = Registry { index: index_new(), slots: Vec::new(), free: Vec::new() };
        assert(res@ =~= Map::empty());
        res
    }

    /// The value under a name.
    pub fn get(&self, name: &str) -> (res: Option<&V>)
        ensures
            match res {
                Some(value) => self@.contains_key(name@) && self@[name@] == *value,
                None => !self@.contains_key(name@),
            },
    {
        proof {
            use_type_invariant(self);
        }
        match index_get(&self.index, name) {
            Some(place) => self.slots[place].as_ref(),
            None => None,
        }
    }

    /// Whether there is a value under a name.
    pub fn has(&self, name: &str) -> (res: bool)
        ensures
            res == self@.contains_key(name@),
    {
        self.get(name).is_some()
    }

    /// Takes the value under a name out.
    pub fn take(&mut self, name: &str) -> (res: Option<V>)
        ensures
            final(self)@ == old(self)@.remove(name@),
            match res {
                Some(value) => old(self)@.contains_key(name@) && old(self)@[name@] == value,
                None => !old(self)@.contains_key(name@),
            },
    {
        proof {
            use_type_invariant(&*self);
        }
        let mut slots: Vec<Option<V>> = Vec::new();
        let mut free: Vec<usize> = Vec::new();
        let mut index = index_new();
        std::mem::swap(&mut index, &mut self.index);
        std::mem::swap(&mut free, &mut self.free);
        std::mem::swap(&mut slots, &mut self.slots);
        let found = index_remove(&mut index, name);
        let res = match found {
            Some(place) => {
                let mut value: Option<V> = None;
                std::mem::swap(&mut value, &mut slots[place]);
                free.push(place);
                value
            },
            None => None,
        };
        *self = Registry { index, slots, free };
        assert(self@ =~= old(self)@.remove(name@));
        res
    }

    /// Puts a value under a name, in the place of any that stood there.
    pub fn put(&mut self, name: &str, value: V)
        ensures
            final(self)@ == old(self)@.insert(name@, value),
    {
        proof {
            use_type_invariant(&*self);
        }
        let ghost before = self@;
        let mut slots: Vec<Option<V>> = Vec::new();
        let mut free: Vec<usize> = Vec::new();
        let mut index = index_new();
        std::mem::swap(&mut index, &mut self.index);
        std::mem::swap(&mut free, &mut self.free);
        std::mem::swap(&mut slots, &mut self.slots);
        match index_get(&index, name) {
            Some(place) => {
                slots.set(place, Some(value));
            },
            None => {
                let place: usize = match free.pop() {
                    Some(place) => {
                        slots.set(place, Some(value));
                        place
                    },
                    None => {
                        let place: usize = slots.len();
                        slots.push(Some(value));
                        place
                    },
                };
                index_insert(&mut index, owned(name), place);
            },
        }
        *self = Registry { index, slots, free };
        assert(self@ =~= before.insert(name@, value));
    }

    /// The names under which there are values, in no particular order.
    pub fn names(&self) -> (res: Vec<String>)
        ensures
            text::texts(res@).no_duplicates(),
            forall|name: Seq<char>| #[trigger]
                text::texts(res@).contains(name) <==> self@.contains_key(name),
    {
        index_keys(&self.index)
    }
}

/// Values by two names.
pub struct PairRegistry<V> {
    by_first: Registry<Registry<V>>,
}

impl<V> View for PairRegistry<V> {
    type V = Map<(Seq<char>, Seq<char>), V>;

    /// The values by their two names.
    closed spec fn view(&self) -> Map<(Seq<char>, Seq<char>), V> {
        Map::new(
            |key: (Seq<char>, Seq<char>)|
                self.by_first@.contains_key(key.0) && self.by_first@[key.0]@.contains_key(key.1),
            |key: (Seq<char>, Seq<char>)| self.by_first@[key.0]@[key.1],
        )
    }
}

impl<V> PairRegistry<V> {
    /// A registry that holds nothing.
    pub fn new() -> (res: Self)
        ensures
            res@ == Map::<(Seq<char>, Seq<char>), V>::empty(),
    {
        let res = PairRegistry { by_first: Registry::new() };
        assert(res@ =~= Map::empty());
        res
    }

    /// Takes the value under two names out.
    pub fn take(&mut self, first: &str, second: &str) -> (res: Option<V>)
        ensures
            final(self)@ == old(self)@.remove((first@, second@)),
            match res {
                Some(value) => old(self)@.contains_key((first@, second@)) && old(self)@[(
                    first@,
                    second@,
                )] == value,
                None => !old(self)@.contains_key((first@, second@)),
            },
    {
        let ghost before = self@;
        match self.by_first.take(first) {
            Some(inner) => {
                let mut inner = inner;
                let res = inner.take(second);
                self.by_first.put(first, inner);
                assert(self@ =~= before.remove((first@, second@)));
                res
            },
            None => {
                assert(self@ =~= before.remove((first@, second@)));
                None
            },
        }
    }

    /// Puts a value under two names, in the place of any that stood there.
    pub fn put(&mut self, first: &str, second: &str, value: V)
        ensures
            final(self)@ == old(self)@.insert((first@, second@), value),
    {
        let ghost before = self@;
        let mut inner = match self.by_first.take(first) {
            Some(inner) => inner,
            None => Registry::new(),
        };
        inner.put(second, value);
        self.by_first.put(first, inner);
        assert(self@ =~= before.insert((first@, second@), value));
    }
}

/// Whether the names lead to places of their own where there are values, and
/// the places that are free are empty, each listed once.
spec fn registry_consistent<V>(
    index: Map<Seq<char>, usize>,
    slots: Seq<Option<V>>,
    free: Seq<usize>,
) -> bool {
    &&& forall|name: Seq<char>| #[trigger]
        index.contains_key(name) ==> index[name] < slots.len() && slots[index[name] as int] is Some
    &&& forall|a: Seq<char>, b: Seq<char>|
        #![trigger index.contains_key(a), index.contains_key(b)]
        index.contains_key(a) && index.contains_key(b) && a != b ==> index[a] != index[b]
    &&& forall|i: int|
        0 <= i < free.len() ==> (#[trigger] free[i]) < slots.len() && slots[free[i] as int] is None
    &&& free.no_duplicates()
}

} // verus!
