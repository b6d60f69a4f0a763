//! A model and the sets of workers that serve it.

use crate::discovery::registry::Registry;
use crate::discovery::worker_set::{
    KvWorkerMonitor, LoadThresholdConfig, Service, WorkerSet, WorkerSetView,
};
use crate::text;
use vstd::prelude::*;

verus! {

/// Sets of workers by namespace.
pub type Sets = Map<Seq<char>, WorkerSetView>;

/// Whether a namespace has a set that can be asked for something.
pub open spec fn offers_in(sets: Sets, namespace: Seq<char>, service: Service) -> bool {
    sets.contains_key(namespace) && sets[namespace].offers(service)
}

/// Whether some set can be asked for something.
pub open spec fn offered(sets: Sets, service: Service) -> bool {
    exists|namespace: Seq<char>| #[trigger] offers_in(sets, namespace, service)
}

/// Whether there is no set.
pub open spec fn no_sets(sets: Sets) -> bool {
    sets.dom() == Set::<Seq<char>>::empty()
}

/// A model: its sets of workers by namespace.
pub struct Model {
    worker_sets: Registry<WorkerSet>,
}

impl Model {
    /// The sets of workers by namespace.
    pub closed spec fn view(&self) -> Sets {
        self.worker_sets@.map_values(|set: WorkerSet| set@)
    }

    /// A model that nobody serves.
    pub fn new() -> (res: Self)
        ensures
            res@ == Map::<Seq<char>, WorkerSetView>::empty(),
    {
        let res = Model { worker_sets: Registry::new() };
        assert(res@ =~= Map::empty());
        res
    }

    /// Puts a set under a namespace, in the place of any that stood there.
    pub fn add_worker_set(&mut self, namespace: &str, set: WorkerSet)
        ensures
            final(self)@ == old(self)@.insert(namespace@, set@),
    {
        self.worker_sets.put(namespace, set);
        assert(self@ =~= old(self)@.insert(namespace@, set@));
    }

    /// Takes the set under a namespace out.
    pub fn remove_worker_set(&mut self, namespace: &str) -> (res: Option<WorkerSet>)
        ensures
            final(self)@ == old(self)@.remove(namespace@),
            match res {
                Some(set) => old(self)@.contains_key(namespace@) && old(self)@[namespace@] == set@,
                None => !old(self)@.contains_key(namespace@),
            },
    {
        let res = self.worker_sets.take(namespace);
        assert(self@ =~= old(self)@.remove(namespace@));
        res
    }

    /// The set under a namespace.
    pub fn worker_set(&self, namespace: &str) -> (res: Option<&WorkerSet>)
        ensures
            match res {
                Some(set) => self@.contains_key(namespace@) && self@[namespace@] == set@,
                None => !self@.contains_key(namespace@),
            },
    {
        self.worker_sets.get(namespace)
    }

    /// Whether there is no set.
    pub fn is_empty(&self) -> (res: bool)
        ensures
            res == no_sets(self@),
    {
        let names = self.worker_sets.names();
        let ghost all = text::texts(names@);
        if names.len() == 0 {
            assert(self@.dom() =~= Set::empty()) by {
                assert forall|n: Seq<char>| !self@.dom().contains(n) by {
                    assert(all.contains(n) == self.worker_sets@.contains_key(n));
                }
            }
            true
        } else {
            assert(all.contains(all[0]));
            assert(self@.dom().contains(all[0]));
            false
        }
    }

    /// A namespace whose set can be asked for something. Which one, where there
    /// are several, is left open.
    pub fn find(&self, service: Service) -> (res: Option<String>)
        ensures
            match res {
                Some(namespace) => offers_in(self@, namespace@, service),
                None => !offered(self@, service),
            },
    {
        let names = self.worker_sets.names();
        let ghost all = text::texts(names@);
        let mut i: usize = 0;
        while i < names.len()
            invariant
                i <= names.len(),
                all == text::texts(names@),
                forall|n: Seq<char>| #[trigger]
                    all.contains(n) <==> self.worker_sets@.contains_key(n),
                forall|j: int| 0 <= j < i ==> !offers_in(self@, #[trigger] all[j], service),
            decreases names.len() - i,
        {
            let name = names[i].as_str();
            assert(all[i as int] == name@);
            match self.worker_set(name) {
                Some(set) => {
                    if set.offers(service) {
                        return Some(names[i].clone());
                    }
                },
                None => {},
            }
            i = i + 1;
        }
        assert forall|n: Seq<char>| !#[trigger] offers_in(self@, n, service) by {
            if self@.contains_key(n) {
                assert(all.contains(n));
                let j = choose|j: int| 0 <= j < all.len() && all[j] == n;
                assert(!offers_in(self@, all[j], service));
            }
        }
        None
    }

    /// A set that can be asked for something.
    pub fn find_set(&self, service: Service) -> (res: Option<&WorkerSet>)
        ensures
            match res {
                Some(set) => exists|namespace: Seq<char>| #[trigger]
                    offers_in(self@, namespace, service) && self@[namespace] == set@,
                None => !offered(self@, service),
            },
    {
        match self.find(service) {
            Some(namespace) => {
                assert(offers_in(self@, namespace@, service));
                self.worker_set(namespace.as_str())
            },
            None => None,
        }
    }

    /// Whether some set can be asked for something.
    pub fn offers(&self, service: Service) -> (res: bool)
        ensures
            res == offered(self@, service),
    {
        match self.find(service) {
            Some(namespace) => {
                assert(offers_in(self@, namespace@, service));
                true
            },
            None => false,
        }
    }

    /// The checksum of the set under a namespace.
    pub fn checksum_for_namespace(&self, namespace: &str) -> (res: Option<&str>)
        ensures
            match res {
                Some(sum) => self@.contains_key(namespace@) && self@[namespace@].mdcsum == sum@,
                None => !self@.contains_key(namespace@),
            },
    {
        match self.worker_set(namespace) {
            Some(set) => Some(set.mdcsum()),
            None => None,
        }
    }

    /// A monitor of the load of some set.
    pub fn get_worker_monitor(&self) -> (res: Option<KvWorkerMonitor>)
        ensures
            match res {
                Some(monitor) => exists|namespace: Seq<char>| #[trigger]
                    offers_in(self@, namespace, Service::Monitor)
                        && self@[namespace].worker_monitor == Some(monitor),
                None => !offered(self@, Service::Monitor),
            },
    {
        match self.find_set(Service::Monitor) {
            Some(set) => set.monitor(),
            None => None,
        }
    }

    /// Gives the monitor of some set other thresholds, and returns the monitor
    /// as it then is.
    pub fn set_load_threshold_config(&mut self, config: LoadThresholdConfig) -> (res: Option<
        KvWorkerMonitor,
    >)
        ensures
            match res {
                Some(monitor) => thresholds_set(old(self)@, config, monitor, final(self)@),
                None => !offered(old(self)@, Service::Monitor) && final(self)@ == old(self)@,
            },
    {
        let namespace = match self.find(Service::Monitor) {
            Some(namespace) => namespace,
            None => {
                return None;
            },
        };
        let ghost before = self@;
        match self.remove_worker_set(namespace.as_str()) {
            Some(set) => {
                let mut set = set;
                set.set_load_threshold_config(config);
                let monitor = set.monitor();
                self.add_worker_set(namespace.as_str(), set);
                proof {
                    assert(self@ =~= before.insert(namespace@, set@));
                    assert(thresholds_set_in(
                        before,
                        namespace@,
                        config,
                        monitor->0,
                        self@,
                    ));
                }
                monitor
            },
            None => None,
        }
    }
}

/// Whether the monitor of one namespace's set was given other thresholds.
pub open spec fn thresholds_set_in(
    before: Sets,
    namespace: Seq<char>,
    config: LoadThresholdConfig,
    monitor: KvWorkerMonitor,
    after: Sets,
) -> bool {
    &&& offers_in(before, namespace, Service::Monitor)
    &&& monitor == (KvWorkerMonitor { config, ..before[namespace].worker_monitor->0 })
    &&& after == before.insert(
        namespace,
        WorkerSetView { worker_monitor: Some(monitor), ..before[namespace] },
    )
}

/// Whether the monitor of some set was given other thresholds.
pub open spec fn thresholds_set(
    before: Sets,
    config: LoadThresholdConfig,
    monitor: KvWorkerMonitor,
    after: Sets,
) -> bool {
    exists|namespace: Seq<char>| #[trigger]
        thresholds_set_in(before, namespace, config, monitor, after)
}

} // verus!
