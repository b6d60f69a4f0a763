//! What holds of a model and of the endpoints that are watched, stated on what goes in
//! and what comes out.

use crate::discovery::endpoints::{EndpointId, RuntimeConfigWatch, RuntimeConfigs};
use crate::discovery::model::{offers_in, Model};
use crate::discovery::model_manager::ModelManager;
use crate::discovery::worker_set::{
    same_half, Client, DisaggregatedEndpoint, KvWorkerMonitor, LoadThresholdConfig,
    ModelDeploymentCard, ParsingOptions, Service, WorkerSet,
};
use vstd::prelude::*;

verus! {

/// A new model has no set of workers and can be asked for nothing.
pub proof fn new_model_is_empty(
    model: Model,
    empty: bool,
    service: Service,
    offers: bool,
    namespace: &str,
    set: Option<&WorkerSet>,
)
    requires
        call_ensures(Model::new, (), model),
        call_ensures(Model::is_empty, (&model,), empty),
        call_ensures(Model::offers, (&model, service), offers),
        call_ensures(Model::worker_set, (&model, namespace), set),
    ensures
        empty,
        !offers,
        set is None,
{
}

/// A set that is added stands under its namespace, and the sets under other namespaces
/// stay. The model is not empty then, has the checksum of the set there, and can be
/// asked for all that the set can be asked for.
pub proof fn added_set_is_found(
    model: &mut Model,
    namespace: &str,
    set: WorkerSet,
    asked: &str,
    before: Option<&WorkerSet>,
    after: Option<&WorkerSet>,
    empty: bool,
    mdcsum: &str,
    sum: Option<&str>,
    service: Service,
    set_offers: bool,
    offers: bool,
)
    requires
        call_ensures(Model::worker_set, (&*old(model), asked), before),
        call_ensures(Model::add_worker_set, (model, namespace, set), ()),
        call_ensures(Model::worker_set, (&*final(model), asked), after),
        call_ensures(Model::is_empty, (&*final(model),), empty),
        call_ensures(WorkerSet::mdcsum, (&set,), mdcsum),
        call_ensures(Model::checksum_for_namespace, (&*final(model), namespace), sum),
        call_ensures(WorkerSet::offers, (&set, service), set_offers),
        call_ensures(Model::offers, (&*final(model), service), offers),
    ensures
        asked@ == namespace@ ==> (after matches Some(s) && s@ == set@),
        asked@ != namespace@ ==> (after is Some <==> before is Some),
        asked@ != namespace@ && before is Some ==> after->0@ == before->0@,
        !empty,
        sum matches Some(s) && s@ == mdcsum@,
        set_offers ==> offers,
{
    let all = final(model)@;
    assert(all.contains_key(namespace@));
    assert(all.dom().contains(namespace@));
    if set_offers {
        assert(offers_in(all, namespace@, service));
    }
}

/// A set that is removed is handed out, and is gone; the sets under other namespaces
/// stay.
pub proof fn removed_set_is_handed_out(
    model: &mut Model,
    namespace: &str,
    stood: Option<&WorkerSet>,
    removed: Option<WorkerSet>,
    asked: &str,
    before: Option<&WorkerSet>,
    after: Option<&WorkerSet>,
    sum: Option<&str>,
)
    requires
        call_ensures(Model::worker_set, (&*old(model), namespace), stood),
        call_ensures(Model::worker_set, (&*old(model), asked), before),
        call_ensures(Model::remove_worker_set, (model, namespace), removed),
        call_ensures(Model::worker_set, (&*final(model), asked), after),
        call_ensures(Model::checksum_for_namespace, (&*final(model), namespace), sum),
    ensures
        removed is Some <==> stood is Some,
        removed matches Some(s) ==> s@ == stood->0@,
        sum is None,
        asked@ == namespace@ ==> after is None,
        asked@ != namespace@ ==> (after is Some <==> before is Some),
        asked@ != namespace@ && before is Some ==> after->0@ == before->0@,
{
}

/// What is found for a service is a set of the model that can be asked for it; nothing
/// is found only where no set can.
pub proof fn found_set_offers(
    model: &Model,
    service: Service,
    found: Option<&WorkerSet>,
    place: Option<String>,
    offers: bool,
    namespace: &str,
    set: Option<&WorkerSet>,
    set_offers: bool,
)
    requires
        call_ensures(Model::find_set, (model, service), found),
        call_ensures(Model::find, (model, service), place),
        call_ensures(Model::offers, (model, service), offers),
        call_ensures(Model::worker_set, (model, namespace), set),
        set matches Some(s) ==> call_ensures(WorkerSet::offers, (s, service), set_offers),
    ensures
        found is Some <==> offers,
        place is Some <==> offers,
        !offers && set is Some ==> !set_offers,
        found matches Some(s) ==> s@.offers(service),
        place matches Some(n) ==> n@ == namespace@ ==> set is Some && set_offers,
{
    let all = model@;
    if let Some(s) = set {
        if set_offers {
            assert(offers_in(all, namespace@, service));
        }
    }
    if let Some(n) = place {
        assert(offers_in(all, n@, service));
    }
    if let Some(s) = found {
        let n = choose|n: Seq<char>| #[trigger] offers_in(all, n, service) && all[n] == s@;
        assert(offers_in(all, n, service));
    }
}

/// New thresholds reach the monitor of one set, which watches the same as before; the
/// other sets stay, and without a monitor nothing changes.
pub proof fn thresholds_reach_one_set(
    model: &mut Model,
    config: LoadThresholdConfig,
    before: Option<KvWorkerMonitor>,
    res: Option<KvWorkerMonitor>,
)
    requires
        call_ensures(Model::get_worker_monitor, (&*old(model),), before),
        call_ensures(Model::set_load_threshold_config, (model, config), res),
    ensures
        res is Some <==> before is Some,
        res is None ==> final(model)@ == old(model)@,
        res matches Some(m) ==> m.config == config,
        res matches Some(m) ==> exists|n: Seq<char>|
            {
                &&& old(model)@.contains_key(n)
                &&& #[trigger] final(model)@.contains_key(n)
                &&& old(model)@[n].worker_monitor is Some
                &&& m.client == old(model)@[n].worker_monitor->0.client
                &&& final(model)@[n].worker_monitor == Some(m)
                &&& forall|other: Seq<char>| other != n ==> #[trigger] final(model)@.contains_key(
                    other,
                ) == old(model)@.contains_key(other)
                &&& forall|other: Seq<char>|
                    other != n && #[trigger] final(model)@.contains_key(other)
                        ==> final(model)@[other] == old(model)@[other]
            },
{
    let a = model@;
    let b = final(model)@;
    if let Some(m) = res {
        let n = choose|n: Seq<char>| #[trigger]
            crate::discovery::model::thresholds_set_in(a, n, config, m, b);
        assert(crate::discovery::model::thresholds_set_in(a, n, config, m, b));
        assert(offers_in(a, n, Service::Monitor));
        assert(b.contains_key(n));
    }
    if let Some(m) = before {
        let n = choose|n: Seq<char>| #[trigger]
            offers_in(a, n, Service::Monitor) && a[n].worker_monitor == Some(m);
        assert(offers_in(a, n, Service::Monitor));
    }
}

/// An endpoint that is watched keeps what is watched behind it until it is replaced;
/// one that is not is watched from then on. Other endpoints are left alone.
pub proof fn endpoint_is_watched(
    configs: &mut RuntimeConfigs,
    id: EndpointId,
    made: RuntimeConfigWatch,
    asked: &EndpointId,
    before: Option<&RuntimeConfigWatch>,
    after: Option<&RuntimeConfigWatch>,
)
    requires
        call_ensures(RuntimeConfigs::get, (&*old(configs), asked), before),
        call_ensures(RuntimeConfigs::insert_if_absent, (configs, id, made), ()),
        call_ensures(RuntimeConfigs::get, (&*final(configs), asked), after),
    ensures
        before is Some ==> after == before,
        before is None && asked@ == id@ ==> (after matches Some(w) && *w == made),
        before is None && asked@ != id@ ==> after is None,
{
}

/// What is new behind an endpoint replaces what was watched there, and only there; an
/// endpoint that is not watched stays unwatched.
pub proof fn watched_is_replaced(
    configs: &mut RuntimeConfigs,
    id: &EndpointId,
    latest: RuntimeConfigWatch,
    asked: &EndpointId,
    known: Option<&RuntimeConfigWatch>,
    before: Option<&RuntimeConfigWatch>,
    res: bool,
    after: Option<&RuntimeConfigWatch>,
)
    requires
        call_ensures(RuntimeConfigs::get, (&*old(configs), id), known),
        call_ensures(RuntimeConfigs::get, (&*old(configs), asked), before),
        call_ensures(RuntimeConfigs::update, (configs, id, latest), res),
        call_ensures(RuntimeConfigs::get, (&*final(configs), asked), after),
    ensures
        res <==> known is Some,
        asked@ != id@ || !res ==> after == before,
        asked@ == id@ && res ==> (after matches Some(w) && *w == latest),
{
}

/// The other half of a worker is the one that is watched behind its endpoint.
pub proof fn half_is_watched(
    configs: &RuntimeConfigs,
    id: &EndpointId,
    worker: u64,
    watch: Option<&RuntimeConfigWatch>,
    half: Option<DisaggregatedEndpoint>,
)
    requires
        call_ensures(RuntimeConfigs::get, (configs, id), watch),
        call_ensures(RuntimeConfigs::disaggregated_endpoint, (configs, id, worker), half),
    ensures
        watch is None ==> half is None,
        watch matches Some(w) ==> !w.configs@.contains_key(worker) ==> half is None,
        watch matches Some(w) ==> w.configs@.contains_key(worker) ==> match (
            w.configs@[worker].disaggregated_endpoint,
            half,
        ) {
            (Some(a), Some(b)) => same_half(a, b),
            (None, None) => true,
            _ => false,
        },
{
}

/// Nothing is watched at first.
pub proof fn nothing_watched_at_first(
    configs: RuntimeConfigs,
    id: &EndpointId,
    watch: Option<&RuntimeConfigWatch>,
)
    requires
        call_ensures(RuntimeConfigs::new, (), configs),
        call_ensures(RuntimeConfigs::get, (&configs, id), watch),
    ensures
        watch is None,
{
}

/// A manager takes over what is new behind an endpoint that it watches, and gives it
/// out from then on; nothing else of it changes.
pub proof fn manager_takes_over(
    manager: &mut ModelManager,
    id: &EndpointId,
    latest: RuntimeConfigWatch,
    asked: &EndpointId,
    known: Option<&RuntimeConfigWatch>,
    before: Option<&RuntimeConfigWatch>,
    res: bool,
    after: Option<&RuntimeConfigWatch>,
)
    requires
        call_ensures(ModelManager::runtime_config_watcher, (&*old(manager), id), known),
        call_ensures(ModelManager::runtime_config_watcher, (&*old(manager), asked), before),
        call_ensures(ModelManager::update_runtime_configs, (manager, id, latest), res),
        call_ensures(ModelManager::runtime_config_watcher, (&*final(manager), asked), after),
    ensures
        res <==> known is Some,
        asked@ != id@ || !res ==> after == before,
        asked@ == id@ && res ==> (after matches Some(w) && *w == latest),
        final(manager)@.models == old(manager)@.models,
        final(manager)@.cards == old(manager)@.cards,
        final(manager)@.activators == old(manager)@.activators,
        final(manager)@.next_number == old(manager)@.next_number,
{
}

/// A manager serves what the model of that name can be asked for, and nothing under a
/// name that no model has. Its list for a service has each such name once.
pub proof fn manager_serves_models(
    manager: &ModelManager,
    name: &str,
    service: Service,
    model: Option<&Model>,
    serves: bool,
    offers: bool,
    list: Vec<String>,
)
    requires
        call_ensures(ModelManager::get_model, (manager, name), model),
        call_ensures(ModelManager::serves, (manager, name, service), serves),
        model matches Some(m) ==> call_ensures(Model::offers, (m, service), offers),
        call_ensures(ModelManager::list_models, (manager, service), list),
    ensures
        model is None ==> !serves,
        model is Some ==> serves == offers,
        serves <==> exists|i: int| 0 <= i < list@.len() && (#[trigger] list@[i])@ == name@,
        forall|i: int, j: int|
            0 <= i < j < list@.len() ==> (#[trigger] list@[i])@ != (#[trigger] list@[j])@,
{
    let all = crate::text::texts(list@);
    assert(all.len() == list@.len());
    assert(all.contains(name@) == serves);
    if serves {
        let i = choose|i: int| 0 <= i < all.len() && all[i] == name@;
        assert(list@[i]@ == name@);
    }
    if exists|i: int| 0 <= i < list@.len() && (#[trigger] list@[i])@ == name@ {
        let i = choose|i: int| 0 <= i < list@.len() && (#[trigger] list@[i])@ == name@;
        assert(all[i] == name@);
    }
    assert forall|i: int, j: int| 0 <= i < j < list@.len() implies (#[trigger] list@[i])@ != (
    #[trigger] list@[j])@ by {
        assert(all[i] != all[j]);
    }
}

/// A new manager serves nothing, has no model, and watches no endpoint.
pub proof fn new_manager_is_empty(
    manager: ModelManager,
    name: &str,
    model: Option<&Model>,
    service: Service,
    serves: bool,
    id: &EndpointId,
    watch: Option<&RuntimeConfigWatch>,
    made: bool,
)
    requires
        made ==> call_ensures(ModelManager::new, (), manager),
        !made ==> call_ensures(<ModelManager as Default>::default, (), manager),
        call_ensures(ModelManager::get_model, (&manager, name), model),
        call_ensures(ModelManager::serves, (&manager, name, service), serves),
        call_ensures(ModelManager::runtime_config_watcher, (&manager, id), watch),
    ensures
        model is None,
        !serves,
        watch is None,
        manager@.next_number == 0,
        forall|key: Seq<char>| !#[trigger] manager@.cards.contains_key(key),
        forall|key: (Seq<char>, Seq<char>)| !#[trigger] manager@.activators.contains_key(key),
{
}

/// A monitor, and how text is parsed, hold what they were made of; a card that nobody
/// filled in says nothing.
pub proof fn made_of_what_was_given(
    client: Client,
    config: LoadThresholdConfig,
    monitor: KvWorkerMonitor,
    tool: Option<String>,
    reasoning: Option<String>,
    options: ParsingOptions,
    card: ModelDeploymentCard,
)
    requires
        call_ensures(KvWorkerMonitor::new, (client, config), monitor),
        call_ensures(ParsingOptions::new, (tool, reasoning), options),
        call_ensures(<ModelDeploymentCard as Default>::default, (), card),
    ensures
        monitor.client == client,
        monitor.config == config,
        tool is Some <==> options.tool_call_parser is Some,
        tool matches Some(t) ==> options.tool_call_parser->0@ == t@,
        reasoning is Some <==> options.reasoning_parser is Some,
        reasoning matches Some(r) ==> options.reasoning_parser->0@ == r@,
        card.runtime_config.tool_call_parser is None,
        card.runtime_config.reasoning_parser is None,
        card.runtime_config.disaggregated_endpoint is None,
        card.details is Null,
{
}

} // verus!
