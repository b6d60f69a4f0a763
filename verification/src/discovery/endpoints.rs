//! What is known of the workers behind each endpoint.

use dashmap::DashMap;
use std::collections::HashMap;
use vstd::prelude::*;

use crate::discovery::worker_set::{opt_endpoint, DisaggregatedEndpoint, ModelRuntimeConfig};

verus! {

/// An endpoint's identifier.
#[derive(Debug, PartialEq, Eq)]
pub struct EndpointId {
    /// The namespace.
    pub namespace: String,
    /// The component within it.
    pub component: String,
    /// The endpoint's name within that.
    pub name: String,
}

/// An endpoint of workers.
#[derive(Debug, PartialEq, Eq)]
pub struct Endpoint {
    /// The endpoint's identifier.
    pub id: EndpointId,
}

/// An endpoint's identifier as mathematics: namespace, component and name.
pub type EndpointKey = (Seq<char>, Seq<char>, Seq<char>);

impl EndpointId {
    /// The identifier as mathematics.
    pub open spec fn view(&self) -> EndpointKey {
        (self.namespace@, self.component@, self.name@)
    }
}

/// What an index by endpoint holds.
pub uninterp spec fn endpoint_contents(
    index: DashMap<(String, String, String), usize>,
) -> Map<(Seq<char>, Seq<char>, Seq<char>), usize>;

/// `DashMap::new`, for keys of three texts: nothing is held.
#[verifier::external_body]
fn endpoint_index_new() -> (res: DashMap<(String, String, String), usize>)
    ensures
        endpoint_contents(res).dom() == Set::<EndpointKey>::empty(),
{
    DashMap::new()
}

/// `DashMap::get`, for keys of three texts: the value under the key, if there
/// is one. Keys are the same where the characters of each text are.
#[verifier::external_body]
fn endpoint_index_get(index: &DashMap<(String, String, String), usize>, id: &EndpointId) -> (res:
    Option<usize>)
    ensures
        match res {
            Some(place) => endpoint_contents(*index).contains_key(id@)
                && endpoint_contents(*index)[id@] == place,
            None => !endpoint_contents(*index).contains_key(id@),
        },
{
    let key = (id.namespace.clone(), id.component.clone(), id.name.clone());
    index.get(&key).map(|entry| *entry.value())
}

/// `DashMap::insert`, for keys of three texts: the value stands under the key,
/// in the place of any that stood there, and nothing else changes.
#[verifier::external_body]
fn endpoint_index_insert(
    index: &mut DashMap<(String, String, String), usize>,
    id: EndpointId,
    place: usize,
)
    ensures
        endpoint_contents(*final(index)) == endpoint_contents(*old(index)).insert(id@, place),
{
    index.insert((id.namespace, id.component, id.name), place);
}

/// The latest configuration of each worker behind an endpoint.
#[derive(Debug)]
pub struct RuntimeConfigWatch {
    /// The configurations by worker.
    pub configs: HashMap<u64, ModelRuntimeConfig>,
}

/// What is watched, by endpoint.
pub struct RuntimeConfigs {
    index: DashMap<(String, String, String), usize>,
    watches: Vec<RuntimeConfigWatch>,
}

/// Whether every endpoint leads to a place of its own.
spec fn endpoints_consistent(index: Map<EndpointKey, usize>, len: nat) -> bool {
    &&& forall|id: EndpointKey| #[trigger] index.contains_key(id) ==> index[id] < len
    &&& forall|a: EndpointKey, b: EndpointKey|
        #![trigger index.contains_key(a), index.contains_key(b)]
        index.contains_key(a) && index.contains_key(b) && a != b ==> index[a] != index[b]
}

impl RuntimeConfigs {
    /// What is watched, by endpoint.
    pub closed spec fn view(&self) -> Map<EndpointKey, RuntimeConfigWatch> {
        endpoint_contents(self.index).map_values(|place: usize| self.watches@[place as int])
    }

    #[verifier::type_invariant]
    spec fn consistent(&self) -> bool {
        endpoints_consistent(endpoint_contents(self.index), self.watches@.len())
    }

    /// Nothing is watched.
    pub fn new() -> (res: Self)
        ensures
            res@ == Map::<EndpointKey, RuntimeConfigWatch>::empty(),
    {
        let res = RuntimeConfigs { index: endpoint_index_new(), watches: Vec::new() };
        assert(res@ =~= Map::empty());
        res
    }

    /// What is watched behind an endpoint.
    pub fn get(&self, id: &EndpointId) -> (res: Option<&RuntimeConfigWatch>)
        ensures
            match res {
                Some(watch) => self@.contains_key(id@) && self@[id@] == *watch,
                None => !self@.contains_key(id@),
            },
    {
        proof {
            use_type_invariant(self);
        }
        match endpoint_index_get(&self.index, id) {
            Some(place) => Some(&self.watches[place]),
            None => None,
        }
    }

    /// Watches an endpoint, where nothing is watched behind it yet.
    pub fn insert_if_absent(&mut self, id: EndpointId, watch: RuntimeConfigWatch)
        ensures
            final(self)@ == if old(self)@.contains_key(id@) {
                old(self)@
            } else {
                old(self)@.insert(id@, watch)
            },
    {
        proof {
            use_type_invariant(&*self);
        }
        let ghost before = self@;
        if endpoint_index_get(&self.index, &id).is_some() {
            return ;
        }
        let mut index = endpoint_index_new();
        let mut watches: Vec<RuntimeConfigWatch> = Vec::new();
        std::mem::swap(&mut index, &mut self.index);
        std::mem::swap(&mut watches, &mut self.watches);
        let ghost key = id@;
        endpoint_index_insert(&mut index, id, watches.len());
        watches.push(watch);
        *self = RuntimeConfigs { index, watches };
        assert(self@ =~= before.insert(key, watch));
    }

    /// Replaces what is watched behind an endpoint by what is new; nothing
    /// where the endpoint is not watched.
    pub fn update(&mut self, id: &EndpointId, watch: RuntimeConfigWatch) -> (res: bool)
        ensures
            res == old(self)@.contains_key(id@),
            final(self)@ == if res {
                old(self)@.insert(id@, watch)
            } else {
                old(self)@
            },
    {
        proof {
            use_type_invariant(&*self);
        }
        let ghost before = self@;
        match endpoint_index_get(&self.index, id) {
            Some(place) => {
                let mut index = endpoint_index_new();
                let mut watches: Vec<RuntimeConfigWatch> = Vec::new();
                std::mem::swap(&mut index, &mut self.index);
                std::mem::swap(&mut watches, &mut self.watches);
                watches.set(place, watch);
                *self = RuntimeConfigs { index, watches };
                assert(self@ =~= before.insert(id@, watch));
                true
            },
            None => false,
        }
    }

    /// Where the other half of a worker behind an endpoint is, where that is
    /// known.
    pub fn disaggregated_endpoint(&self, id: &EndpointId, worker_id: u64) -> (res: Option<
        DisaggregatedEndpoint,
    >)
        ensures
            opt_endpoint(res) == known_half(self@, id@, worker_id),
    {
        broadcast use vstd::std_specs::hash::group_hash_axioms;

        match self.get(id) {
            Some(watch) => match watch.configs.get(&worker_id) {
                Some(config) => match &config.disaggregated_endpoint {
                    Some(half) => Some(half.duplicate()),
                    None => None,
                },
                None => None,
            },
            None => None,
        }
    }
}

/// Where the other half of a worker behind an endpoint is, where that is known.
pub open spec fn known_half(
    watched: Map<EndpointKey, RuntimeConfigWatch>,
    id: EndpointKey,
    worker_id: u64,
) -> Option<(Option<Seq<char>>, Option<u16>)> {
    if watched.contains_key(id) && watched[id].configs@.contains_key(worker_id) {
        opt_endpoint(watched[id].configs@[worker_id].disaggregated_endpoint)
    } else {
        None
    }
}

} // verus!
