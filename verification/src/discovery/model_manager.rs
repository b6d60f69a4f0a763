//! The manager of the models that are served.
//!
//! A manager holds models, a model holds sets of workers by namespace, and each
//! set has engines of its own.

use crate::discovery::endpoints::{
    known_half, Endpoint, EndpointId, EndpointKey, RuntimeConfigWatch, RuntimeConfigs,
};
use crate::discovery::model::{no_sets, offered, offers_in, thresholds_set, Model, Sets};
use crate::discovery::registry::{PairRegistry, Registry};
use crate::discovery::worker_set::{
    blank_card, opt_endpoint, CardView, Client, DisaggregatedEndpoint, KvWorkerMonitor,
    LoadThresholdConfig, ModelDeploymentCard, OpenAIChatCompletionsStreamingEngine,
    OpenAICompletionsStreamingEngine, OpenAIEmbeddingsStreamingEngine,
    OpenAIImagesStreamingEngine, ParsingOptions, Service, TensorStreamingEngine, WorkerSet,
    WorkerSetView,
};
use crate::text;
use crate::text::{owned, text_eq};
use vstd::prelude::*;

verus! {

/// What can go wrong with a model.
#[derive(Debug, PartialEq, Eq)]
pub enum ModelManagerError {
    /// There is no such model, or none that can be asked for this.
    ModelNotFound(String),
    /// There is such a model already.
    ModelAlreadyExists(String),
}

impl ModelManagerError {
    /// Whether the error says that the given model was not found.
    pub open spec fn not_found(self, model: Seq<char>) -> bool {
        self matches ModelManagerError::ModelNotFound(name) && name@ == model
    }

    /// Whether the error says that the given model is there already.
    pub open spec fn exists_already(self, model: Seq<char>) -> bool {
        self matches ModelManagerError::ModelAlreadyExists(name) && name@ == model
    }
}

/// How far the meeting of a prefill endpoint and the decode workers that want
/// it is.
#[derive(Debug, PartialEq, Eq)]
pub enum PrefillActivationState {
    /// The decode workers wait, under a number, for the endpoint.
    DecodeWaiting(u64),
    /// The endpoint waits for the decode workers.
    PrefillReady(Endpoint),
}

/// What decode workers get when they ask for a prefill endpoint.
#[derive(Debug, PartialEq, Eq)]
pub enum PrefillWait {
    /// The endpoint: it was there already.
    Ready(Endpoint),
    /// A number under which the endpoint will be delivered.
    Waiting(u64),
}

/// What becomes of a prefill endpoint that arrives.
#[derive(Debug, PartialEq, Eq)]
pub enum PrefillDelivery {
    /// It goes to the decode workers that wait under the number.
    Deliver(u64, Endpoint),
    /// It is kept until decode workers ask for it.
    Kept,
}

/// What can go wrong with a prefill endpoint that arrives.
#[derive(Debug, Clone, Copy, PartialEq, Eq, Structural)]
pub enum PrefillError {
    /// An endpoint had arrived before. Neither is kept.
    AlreadyActivated,
}

/// Where decode workers and their prefill endpoint meet: a model and a
/// namespace.
pub type Meeting = (Seq<char>, Seq<char>);

/// What waits for what, by model and namespace.
pub type Activators = Map<Meeting, PrefillActivationState>;

/// What decode workers get, and what waits then.
pub open spec fn registered(waiting: Activators, key: Meeting, number: u64) -> (
    Option<PrefillWait>,
    Activators,
) {
    if waiting.contains_key(key) {
        match waiting[key] {
            PrefillActivationState::PrefillReady(endpoint) => (
                Some(PrefillWait::Ready(endpoint)),
                waiting.remove(key),
            ),
            PrefillActivationState::DecodeWaiting(_) => (None, waiting),
        }
    } else {
        (
            Some(PrefillWait::Waiting(number)),
            waiting.insert(key, PrefillActivationState::DecodeWaiting(number)),
        )
    }
}

/// What becomes of an endpoint, and what waits then.
pub open spec fn activated(waiting: Activators, key: Meeting, endpoint: Endpoint) -> (
    Result<PrefillDelivery, PrefillError>,
    Activators,
) {
    if waiting.contains_key(key) {
        match waiting[key] {
            PrefillActivationState::DecodeWaiting(number) => (
                Ok(PrefillDelivery::Deliver(number, endpoint)),
                waiting.remove(key),
            ),
            PrefillActivationState::PrefillReady(_) => (
                Err(PrefillError::AlreadyActivated),
                waiting.remove(key),
            ),
        }
    } else {
        (
            Ok(PrefillDelivery::Kept),
            waiting.insert(key, PrefillActivationState::PrefillReady(endpoint)),
        )
    }
}

/// The number of the decode workers that wait for an endpoint.
pub open spec fn waiting_number(waiting: Activators, key: Meeting) -> Option<u64> {
    if waiting.contains_key(key) && waiting[key] is DecodeWaiting {
        Some(waiting[key]->DecodeWaiting_0)
    } else {
        None
    }
}

/// Decode workers and a prefill endpoint meet, whichever comes first: the
/// workers get that very endpoint, and nothing is left waiting.
pub proof fn prefill_meeting(waiting: Activators, key: Meeting, number: u64, endpoint: Endpoint)
    requires
        !waiting.contains_key(key),
    ensures
        ({
            let (first, between) = registered(waiting, key, number);
            let (second, after) = activated(between, key, endpoint);
            &&& first == Some(PrefillWait::Waiting(number))
            &&& second == Ok::<PrefillDelivery, PrefillError>(
                PrefillDelivery::Deliver(number, endpoint),
            )
            &&& after == waiting
        }),
        ({
            let (first, between) = activated(waiting, key, endpoint);
            let (second, after) = registered(between, key, number);
            &&& first == Ok::<PrefillDelivery, PrefillError>(PrefillDelivery::Kept)
            &&& second == Some(PrefillWait::Ready(endpoint))
            &&& after == waiting
        }),
{
    let (_, a) = registered(waiting, key, number);
    let (_, b) = activated(a, key, endpoint);
    assert(b =~= waiting);
    let (_, c) = activated(waiting, key, endpoint);
    let (_, d) = registered(c, key, number);
    assert(d =~= waiting);
}

/// What happens for one model and namespace changes nothing for another model,
/// nor for another namespace.
pub proof fn prefill_meetings_independent(
    waiting: Activators,
    key: Meeting,
    other: Meeting,
    number: u64,
    endpoint: Endpoint,
)
    requires
        other != key,
    ensures
        registered(waiting, key, number).1.contains_key(other) == waiting.contains_key(other),
        activated(waiting, key, endpoint).1.contains_key(other) == waiting.contains_key(other),
        waiting.contains_key(other) ==> registered(waiting, key, number).1[other] == waiting[other]
            && activated(waiting, key, endpoint).1[other] == waiting[other],
{
}

/// Models by name: of each, its sets of workers by namespace.
pub type Models = Map<Seq<char>, Sets>;

/// The sets of a model; none where there is no such model.
pub open spec fn sets_of(models: Models, model: Seq<char>) -> Sets {
    if models.contains_key(model) {
        models[model]
    } else {
        Map::empty()
    }
}

/// Whether a model can be asked for something.
pub open spec fn served(models: Models, model: Seq<char>, service: Service) -> bool {
    models.contains_key(model) && offered(models[model], service)
}

/// The models once one has other sets; without sets the model goes.
pub open spec fn with_sets(models: Models, model: Seq<char>, sets: Sets) -> Models {
    if no_sets(sets) {
        models.remove(model)
    } else {
        models.insert(model, sets)
    }
}

/// The models once a set has been put under a namespace of a model.
pub open spec fn with_set(
    models: Models,
    model: Seq<char>,
    namespace: Seq<char>,
    set: WorkerSetView,
) -> Models {
    models.insert(model, sets_of(models, model).insert(namespace, set))
}

/// The models once a set has been taken from a namespace of a model. A model
/// without sets goes.
pub open spec fn without_set(models: Models, model: Seq<char>, namespace: Seq<char>) -> Models {
    if models.contains_key(model) {
        with_sets(models, model, models[model].remove(namespace))
    } else {
        models
    }
}

/// A set that was put under a namespace of a model that had none there is gone
/// once it is taken out again, and all is as before.
pub proof fn added_then_removed(
    models: Models,
    model: Seq<char>,
    namespace: Seq<char>,
    set: WorkerSetView,
)
    requires
        !sets_of(models, model).contains_key(namespace),
        models.contains_key(model) ==> !no_sets(models[model]),
    ensures
        without_set(with_set(models, model, namespace, set), model, namespace) == models,
{
    let sets = sets_of(models, model);
    assert(sets.insert(namespace, set).remove(namespace) =~= sets);
    let after = without_set(with_set(models, model, namespace, set), model, namespace);
    if models.contains_key(model) {
        assert(after =~= models);
    } else {
        assert(sets.dom() =~= Set::<Seq<char>>::empty());
        assert(after =~= models);
    }
}

/// What happens to one model changes nothing of another.
pub proof fn models_independent(
    models: Models,
    model: Seq<char>,
    namespace: Seq<char>,
    set: WorkerSetView,
    other: Seq<char>,
    service: Service,
)
    requires
        other != model,
    ensures
        sets_of(with_set(models, model, namespace, set), other) == sets_of(models, other),
        sets_of(without_set(models, model, namespace), other) == sets_of(models, other),
        served(with_set(models, model, namespace, set), other, service) == served(
            models,
            other,
            service,
        ),
        served(without_set(models, model, namespace), other, service) == served(
            models,
            other,
            service,
        ),
{
}

/// Two namespaces of one model are served side by side: a set that is put under
/// one leaves the set under the other as it was.
pub proof fn namespaces_independent(
    models: Models,
    model: Seq<char>,
    namespace: Seq<char>,
    set: WorkerSetView,
    other: Seq<char>,
)
    requires
        other != namespace,
    ensures
        ({
            let after = sets_of(with_set(models, model, namespace, set), model);
            let before = sets_of(models, model);
            &&& after.contains_key(other) == before.contains_key(other)
            &&& before.contains_key(other) ==> after[other] == before[other]
        }),
{
}

/// The central manager of models, of what is known of them, and of how their
/// parts find each other.
pub struct ModelManager {
    models: Registry<Model>,
    cards: Registry<ModelDeploymentCard>,
    prefill_router_activators: PairRegistry<PrefillActivationState>,
    next_number: u64,
    runtime_configs: RuntimeConfigs,
}

/// A manager as mathematics.
#[verifier::ext_equal]
pub struct ManagerView {
    /// The models by name.
    pub models: Models,
    /// The cards by the path of their instance.
    pub cards: Map<Seq<char>, CardView>,
    /// What waits for what.
    pub activators: Activators,
    /// The number that decode workers get next.
    pub next_number: u64,
    /// What is watched, by endpoint.
    pub watched: Map<EndpointKey, RuntimeConfigWatch>,
}

/// Whether a set that offers a service is among others.
pub open spec fn among_offering(sets: Sets, service: Service, set: WorkerSetView) -> bool {
    exists|namespace: Seq<char>| #[trigger]
        offers_in(sets, namespace, service) && sets[namespace] == set
}

/// Whether a list has exactly the models that can be asked for something, each
/// once.
pub open spec fn lists_served(models: Models, service: Service, list: Seq<Seq<char>>) -> bool {
    &&& list.no_duplicates()
    &&& forall|name: Seq<char>| #[trigger] list.contains(name) <==> served(models, name, service)
}

/// Whether a model is shown to users: it answers something other than images,
/// or stands for prefill workers.
pub open spec fn displayed(models: Models, name: Seq<char>) -> bool {
    ||| served(models, name, Service::Chat)
    ||| served(models, name, Service::Completions)
    ||| served(models, name, Service::Embeddings)
    ||| served(models, name, Service::Tensor)
    ||| served(models, name, Service::Prefill)
}

/// The namespace of a model that runs in this process.
pub open spec fn local_namespace(prefix: Seq<char>, model: Seq<char>) -> Seq<char> {
    prefix + model
}

impl ModelManager {
    /// The manager as mathematics.
    pub closed spec fn view(&self) -> ManagerView {
        ManagerView {
            models: self.models@.map_values(|m: Model| m@),
            cards: self.cards@.map_values(|c: ModelDeploymentCard| c@),
            activators: self.prefill_router_activators@,
            next_number: self.next_number,
            watched: self.runtime_configs@,
        }
    }

    /// A manager of nothing.
    pub fn new() -> (res: Self)
        ensures
            res@ == (ManagerView {
                models: Map::empty(),
                cards: Map::empty(),
                activators: Map::empty(),
                next_number: 0,
                watched: Map::empty(),
            }),
    {
        let res = ModelManager {
            models: Registry::new(),
            cards: Registry::new(),
            prefill_router_activators: PairRegistry::new(),
            next_number: 0,
            runtime_configs: RuntimeConfigs::new(),
        };
        assert(res@.models =~= Map::empty());
        assert(res@.cards =~= Map::empty());
        res
    }

    /// The model of the given name, which is made where it is not there.
    pub fn get_or_create_model(&mut self, model_name: &str) -> (res: &Model)
        ensures
            res@ == sets_of(old(self)@.models, model_name@),
            final(self)@ == (ManagerView {
                models: old(self)@.models.insert(
                    model_name@,
                    sets_of(old(self)@.models, model_name@),
                ),
                ..old(self)@
            }),
    {
        let ghost before = self@;
        if !self.models.has(model_name) {
            self.models.put(model_name, Model::new());
        }
        assert(self@.models =~= before.models.insert(
            model_name@,
            sets_of(before.models, model_name@),
        ));
        match self.models.get(model_name) {
            Some(model) => model,
            None => vstd::pervasive::unreached(),
        }
    }

    /// The model of the given name.
    pub fn get_model(&self, model_name: &str) -> (res: Option<&Model>)
        ensures
            match res {
                Some(model) => self@.models.contains_key(model_name@)
                    && self@.models[model_name@] == model@,
                None => !self@.models.contains_key(model_name@),
            },
    {
        self.models.get(model_name)
    }

    /// Removes a model that has no sets of workers.
    pub fn remove_model_if_empty(&mut self, model_name: &str)
        ensures
            final(self)@ == (ManagerView {
                models: if old(self)@.models.contains_key(model_name@) {
                    with_sets(old(self)@.models, model_name@, old(self)@.models[model_name@])
                } else {
                    old(self)@.models
                },
                ..old(self)@
            }),
    {
        let ghost before = self@;
        let empty = match self.models.get(model_name) {
            Some(model) => model.is_empty(),
            None => false,
        };
        if empty {
            let _gone = self.models.take(model_name);
            assert(self@.models =~= before.models.remove(model_name@));
        } else {
            proof {
                if before.models.contains_key(model_name@) {
                    assert(before.models =~= with_sets(
                        before.models,
                        model_name@,
                        before.models[model_name@],
                    ));
                }
            }
        }
    }

    /// Puts a set of workers under a namespace of a model, which is made where
    /// it is not there.
    pub fn add_worker_set(&mut self, model_name: &str, namespace: &str, worker_set: WorkerSet)
        ensures
            final(self)@ == (ManagerView {
                models: with_set(old(self)@.models, model_name@, namespace@, worker_set@),
                ..old(self)@
            }),
    {
        let ghost before = self@;
        let mut model = match self.models.take(model_name) {
            Some(model) => model,
            None => Model::new(),
        };
        model.add_worker_set(namespace, worker_set);
        self.models.put(model_name, model);
        assert(self@.models =~= with_set(before.models, model_name@, namespace@, worker_set@));
    }

    /// Takes the set of workers under a namespace of a model out. A model
    /// without sets goes.
    pub fn remove_worker_set(&mut self, model_name: &str, namespace: &str) -> (res: Option<
        WorkerSet,
    >)
        ensures
            final(self)@ == (ManagerView {
                models: without_set(old(self)@.models, model_name@, namespace@),
                ..old(self)@
            }),
            match res {
                Some(set) => {
                    let sets = sets_of(old(self)@.models, model_name@);
                    sets.contains_key(namespace@) && sets[namespace@] == set@
                },
                None => !sets_of(old(self)@.models, model_name@).contains_key(namespace@),
            },
    {
        let ghost before = self@;
        let mut model = match self.models.take(model_name) {
            Some(model) => model,
            None => {
                assert(self@.models =~= before.models);
                return None;
            },
        };
        let res = model.remove_worker_set(namespace);
        if !model.is_empty() {
            self.models.put(model_name, model);
        }
        assert(self@.models =~= without_set(before.models, model_name@, namespace@));
        res
    }

    /// Whether a checksum is the one of the set under a namespace of a model;
    /// nothing where there is no such set, which any checksum may then have.
    pub fn is_valid_checksum(&self, model_name: &str, namespace: &str, candidate_checksum: &str) -> (res:
        Option<bool>)
        ensures
            ({
                let sets = sets_of(self@.models, model_name@);
                res == if sets.contains_key(namespace@) {
                    Some(sets[namespace@].mdcsum == candidate_checksum@)
                } else {
                    None
                }
            }),
    {
        match self.models.get(model_name) {
            Some(model) => match model.checksum_for_namespace(namespace) {
                Some(sum) => Some(text_eq(sum, candidate_checksum)),
                None => None,
            },
            None => None,
        }
    }

    /// All cards, in no particular order.
    pub fn get_model_cards(&self) -> (res: Vec<ModelDeploymentCard>)
        ensures
            lists_cards(self@.cards, res@),
    {
        let keys = self.cards.names();
        let ghost all = text::texts(keys@);
        let mut res: Vec<ModelDeploymentCard> = Vec::new();
        let mut i: usize = 0;
        while i < keys.len()
            invariant
                i <= keys.len(),
                all == text::texts(keys@),
                all.no_duplicates(),
                forall|key: Seq<char>| #[trigger]
                    all.contains(key) <==> self.cards@.contains_key(key),
                res@.len() == i,
                forall|j: int|
                    0 <= j < i ==> (#[trigger] res@[j])@ == self@.cards[all[j]],
            decreases keys.len() - i,
        {
            assert(all[i as int] == keys@[i as int]@);
            assert(all.contains(all[i as int]));
            match self.cards.get(keys[i].as_str()) {
                Some(card) => {
                    res.push(card.duplicate());
                },
                None => {},
            }
            i = i + 1;
        }
        assert(cards_in_order(self@.cards, all, res@));
        res
    }

    /// Keeps the card of an instance.
    pub fn save_model_card(&mut self, key: &str, card: ModelDeploymentCard) -> (res: Result<
        (),
        ModelManagerError,
    >)
        ensures
            res is Ok,
            final(self)@ == (ManagerView {
                cards: old(self)@.cards.insert(key@, card@),
                ..old(self)@
            }),
    {
        let ghost before = self@;
        self.cards.put(key, card);
        assert(self@.cards =~= before.cards.insert(key@, card@));
        Ok(())
    }

    /// Takes the card of an instance out.
    pub fn remove_model_card(&mut self, key: &str) -> (res: Option<ModelDeploymentCard>)
        ensures
            final(self)@ == (ManagerView {
                cards: old(self)@.cards.remove(key@),
                ..old(self)@
            }),
            match res {
                Some(card) => old(self)@.cards.contains_key(key@) && old(self)@.cards[key@]
                    == card@,
                None => !old(self)@.cards.contains_key(key@),
            },
    {
        let ghost before = self@;
        let res = self.cards.take(key);
        assert(self@.cards =~= before.cards.remove(key@));
        res
    }

    /// Whether a model can be asked for something.
    pub fn serves(&self, model: &str, service: Service) -> (res: bool)
        ensures
            res == served(self@.models, model@, service),
    {
        match self.models.get(model) {
            Some(m) => m.offers(service),
            None => false,
        }
    }

    /// Whether a model answers chat completions or completions.
    pub fn has_decode_model(&self, model: &str) -> (res: bool)
        ensures
            res == served(self@.models, model@, Service::Decode),
    {
        self.serves(model, Service::Decode)
    }

    /// Whether a model stands for prefill workers.
    pub fn has_prefill_model(&self, model: &str) -> (res: bool)
        ensures
            res == served(self@.models, model@, Service::Prefill),
    {
        self.serves(model, Service::Prefill)
    }

    /// Whether a model decodes or stands for prefill workers.
    pub fn has_model_any(&self, model: &str) -> (res: bool)
        ensures
            res == (served(self@.models, model@, Service::Decode) || served(
                self@.models,
                model@,
                Service::Prefill,
            )),
    {
        self.has_decode_model(model) || self.has_prefill_model(model)
    }

    /// The models that are shown to users, each once, in no particular order.
    pub fn model_display_names(&self) -> (res: Vec<String>)
        ensures
            text::texts(res@).no_duplicates(),
            forall|name: Seq<char>| #[trigger]
                text::texts(res@).contains(name) <==> displayed(self@.models, name),
    {
        let names = self.models.names();
        let ghost all = text::texts(names@);
        let mut res: Vec<String> = Vec::new();
        let mut i: usize = 0;
        while i < names.len()
            invariant
                i <= names.len(),
                all == text::texts(names@),
                all.no_duplicates(),
                forall|n: Seq<char>| #[trigger] all.contains(n) <==> self.models@.contains_key(n),
                text::texts(res@).no_duplicates(),
                forall|n: Seq<char>| #[trigger]
                    text::texts(res@).contains(n) <==> all.take(i as int).contains(n) && displayed(
                        self@.models,
                        n,
                    ),
            decreases names.len() - i,
        {
            let name = names[i].as_str();
            let ghost before = text::texts(res@);
            proof {
                assert(all[i as int] == name@);
                taken_grows(all, i as int);
            }
            if self.serves(name, Service::Chat) || self.serves(name, Service::Completions)
                || self.serves(name, Service::Embeddings) || self.serves(name, Service::Tensor)
                || self.serves(name, Service::Prefill) {
                res.push(names[i].clone());
                assert(text::texts(res@) =~= before.push(name@));
                proof {
                    pushed(before, name@);
                }
            }
            i = i + 1;
        }
        assert(all.take(i as int) =~= all);
        assert forall|n: Seq<char>| #[trigger] text::texts(res@).contains(n) <==> displayed(
            self@.models,
            n,
        ) by {
            assert(all.contains(n) == self.models@.contains_key(n));
        }
        res
    }

    /// The models that can be asked for something, each once, in no particular
    /// order.
    pub fn list_models(&self, service: Service) -> (res: Vec<String>)
        ensures
            lists_served(self@.models, service, text::texts(res@)),
    {
        let names = self.models.names();
        let ghost all = text::texts(names@);
        let mut res: Vec<String> = Vec::new();
        let mut i: usize = 0;
        while i < names.len()
            invariant
                i <= names.len(),
                all == text::texts(names@),
                all.no_duplicates(),
                forall|n: Seq<char>| #[trigger] all.contains(n) <==> self.models@.contains_key(n),
                text::texts(res@).no_duplicates(),
                forall|n: Seq<char>| #[trigger]
                    text::texts(res@).contains(n) <==> all.take(i as int).contains(n) && served(
                        self@.models,
                        n,
                        service,
                    ),
            decreases names.len() - i,
        {
            let name = names[i].as_str();
            let ghost before = text::texts(res@);
            proof {
                assert(all[i as int] == name@);
                taken_grows(all, i as int);
            }
            if self.serves(name, service) {
                res.push(names[i].clone());
                assert(text::texts(res@) =~= before.push(name@));
                proof {
                    pushed(before, name@);
                }
            }
            i = i + 1;
        }
        assert(all.take(i as int) =~= all);
        assert forall|n: Seq<char>| #[trigger] text::texts(res@).contains(n) <==> served(
            self@.models,
            n,
            service,
        ) by {
            assert(all.contains(n) == self.models@.contains_key(n));
        }
        res
    }

    /// The models that answer chat completions, each once, in no particular order.
    pub fn list_chat_completions_models(&self) -> (res: Vec<String>)
        ensures
            lists_served(self@.models, Service::Chat, text::texts(res@)),
    {
        self.list_models(Service::Chat)
    }

    /// The models that answer completions, each once, in no particular order.
    pub fn list_completions_models(&self) -> (res: Vec<String>)
        ensures
            lists_served(self@.models, Service::Completions, text::texts(res@)),
    {
        self.list_models(Service::Completions)
    }

    /// The models that answer embeddings, each once, in no particular order.
    pub fn list_embeddings_models(&self) -> (res: Vec<String>)
        ensures
            lists_served(self@.models, Service::Embeddings, text::texts(res@)),
    {
        self.list_models(Service::Embeddings)
    }

    /// The models that answer tensors, each once, in no particular order.
    pub fn list_tensor_models(&self) -> (res: Vec<String>)
        ensures
            lists_served(self@.models, Service::Tensor, text::texts(res@)),
    {
        self.list_models(Service::Tensor)
    }

    /// The models that stand for prefill workers, each once, in no particular order.
    pub fn list_prefill_models(&self) -> (res: Vec<String>)
        ensures
            lists_served(self@.models, Service::Prefill, text::texts(res@)),
    {
        self.list_models(Service::Prefill)
    }

    /// A set of a model that can be asked for something.
    fn find_set(&self, model: &str, service: Service) -> (res: Result<&WorkerSet, ModelManagerError>)
        ensures
            match res {
                Ok(set) => served(self@.models, model@, service) && among_offering(
                    self@.models[model@],
                    service,
                    set@,
                ),
                Err(e) => !served(self@.models, model@, service) && e.not_found(model@),
            },
    {
        match self.models.get(model) {
            Some(m) => match m.find_set(service) {
                Some(set) => {
                    proof {
                        let n = choose|n: Seq<char>| #[trigger]
                            offers_in(m@, n, service) && m@[n] == set@;
                        assert(offers_in(m@, n, service));
                    }
                    Ok(set)
                },
                None => Err(ModelManagerError::ModelNotFound(owned(model))),
            },
            None => Err(ModelManagerError::ModelNotFound(owned(model))),
        }
    }

    /// An engine of a model that answers embeddings: the one of some set that has
    /// one.
    pub fn get_embeddings_engine(&self, model: &str) -> (res: Result<
        OpenAIEmbeddingsStreamingEngine,
        ModelManagerError,
    >)
        ensures
            match res {
                Ok(engine) => served(self@.models, model@, Service::Embeddings)
                    && exists|set: WorkerSetView| #[trigger]
                    among_offering(self@.models[model@], Service::Embeddings, set)
                        && set.embeddings_engine == Some(engine),
                Err(e) => !served(self@.models, model@, Service::Embeddings) && e.not_found(model@),
            },
    {
        let set = match self.find_set(model, Service::Embeddings) {
            Ok(set) => set,
            Err(e) => {
                return Err(e);
            },
        };
        assert(among_offering(self@.models[model@], Service::Embeddings, set@));
        match set.embeddings() {
            Some(engine) => Ok(engine),
            None => Err(ModelManagerError::ModelNotFound(owned(model))),
        }
    }

    /// An engine of a model that answers completions: the one of some set that has
    /// one.
    pub fn get_completions_engine(&self, model: &str) -> (res: Result<
        OpenAICompletionsStreamingEngine,
        ModelManagerError,
    >)
        ensures
            match res {
                Ok(engine) => served(self@.models, model@, Service::Completions)
                    && exists|set: WorkerSetView| #[trigger]
                    among_offering(self@.models[model@], Service::Completions, set)
                        && set.completions_engine == Some(engine),
                Err(e) => !served(self@.models, model@, Service::Completions) && e.not_found(model@),
            },
    {
        let set = match self.find_set(model, Service::Completions) {
            Ok(set) => set,
            Err(e) => {
                return Err(e);
            },
        };
        assert(among_offering(self@.models[model@], Service::Completions, set@));
        match set.completions() {
            Some(engine) => Ok(engine),
            None => Err(ModelManagerError::ModelNotFound(owned(model))),
        }
    }

    /// An engine of a model that answers chat completions: the one of some set that has
    /// one.
    pub fn get_chat_completions_engine(&self, model: &str) -> (res: Result<
        OpenAIChatCompletionsStreamingEngine,
        ModelManagerError,
    >)
        ensures
            match res {
                Ok(engine) => served(self@.models, model@, Service::Chat)
                    && exists|set: WorkerSetView| #[trigger]
                    among_offering(self@.models[model@], Service::Chat, set)
                        && set.chat_engine == Some(engine),
                Err(e) => !served(self@.models, model@, Service::Chat) && e.not_found(model@),
            },
    {
        let set = match self.find_set(model, Service::Chat) {
            Ok(set) => set,
            Err(e) => {
                return Err(e);
            },
        };
        assert(among_offering(self@.models[model@], Service::Chat, set@));
        match set.chat() {
            Some(engine) => Ok(engine),
            None => Err(ModelManagerError::ModelNotFound(owned(model))),
        }
    }

    /// An engine of a model that answers tensors: the one of some set that has
    /// one.
    pub fn get_tensor_engine(&self, model: &str) -> (res: Result<
        TensorStreamingEngine,
        ModelManagerError,
    >)
        ensures
            match res {
                Ok(engine) => served(self@.models, model@, Service::Tensor)
                    && exists|set: WorkerSetView| #[trigger]
                    among_offering(self@.models[model@], Service::Tensor, set)
                        && set.tensor_engine == Some(engine),
                Err(e) => !served(self@.models, model@, Service::Tensor) && e.not_found(model@),
            },
    {
        let set = match self.find_set(model, Service::Tensor) {
            Ok(set) => set,
            Err(e) => {
                return Err(e);
            },
        };
        assert(among_offering(self@.models[model@], Service::Tensor, set@));
        match set.tensor() {
            Some(engine) => Ok(engine),
            None => Err(ModelManagerError::ModelNotFound(owned(model))),
        }
    }

    /// An engine of a model that answers images: the one of some set that has
    /// one.
    pub fn get_images_engine(&self, model: &str) -> (res: Result<
        OpenAIImagesStreamingEngine,
        ModelManagerError,
    >)
        ensures
            match res {
                Ok(engine) => served(self@.models, model@, Service::Images)
                    && exists|set: WorkerSetView| #[trigger]
                    among_offering(self@.models[model@], Service::Images, set)
                        && set.images_engine == Some(engine),
                Err(e) => !served(self@.models, model@, Service::Images) && e.not_found(model@),
            },
    {
        let set = match self.find_set(model, Service::Images) {
            Ok(set) => set,
            Err(e) => {
                return Err(e);
            },
        };
        assert(among_offering(self@.models[model@], Service::Images, set@));
        match set.images() {
            Some(engine) => Ok(engine),
            None => Err(ModelManagerError::ModelNotFound(owned(model))),
        }
    }

    /// An engine of a model that answers chat completions, and how its text is
    /// parsed, both from the same set.
    pub fn get_chat_completions_engine_with_parsing(&self, model: &str) -> (res: Result<
        (OpenAIChatCompletionsStreamingEngine, ParsingOptions),
        ModelManagerError,
    >)
        ensures
            match res {
                Ok(pair) => served(self@.models, model@, Service::Chat)
                    && exists|set: WorkerSetView| #[trigger]
                    among_offering(self@.models[model@], Service::Chat, set)
                        && set.chat_engine == Some(pair.0) && set.parsing() == pair.1@,
                Err(e) => !served(self@.models, model@, Service::Chat) && e.not_found(model@),
            },
    {
        let set = match self.find_set(model, Service::Chat) {
            Ok(set) => set,
            Err(e) => {
                return Err(e);
            },
        };
        assert(among_offering(self@.models[model@], Service::Chat, set@));
        match set.chat() {
            Some(engine) => Ok((engine, set.parsing_options())),
            None => Err(ModelManagerError::ModelNotFound(owned(model))),
        }
    }

    /// An engine of a model that answers completions, and how its text is
    /// parsed, both from the same set.
    pub fn get_completions_engine_with_parsing(&self, model: &str) -> (res: Result<
        (OpenAICompletionsStreamingEngine, ParsingOptions),
        ModelManagerError,
    >)
        ensures
            match res {
                Ok(pair) => served(self@.models, model@, Service::Completions)
                    && exists|set: WorkerSetView| #[trigger]
                    among_offering(self@.models[model@], Service::Completions, set)
                        && set.completions_engine == Some(pair.0) && set.parsing() == pair.1@,
                Err(e) => !served(self@.models, model@, Service::Completions) && e.not_found(model@),
            },
    {
        let set = match self.find_set(model, Service::Completions) {
            Ok(set) => set,
            Err(e) => {
                return Err(e);
            },
        };
        assert(among_offering(self@.models[model@], Service::Completions, set@));
        match set.completions() {
            Some(engine) => Ok((engine, set.parsing_options())),
            None => Err(ModelManagerError::ModelNotFound(owned(model))),
        }
    }

    /// Puts a set under a namespace of a model, unless the model can be asked
    /// for the same already.
    fn add_local(&mut self, model: &str, namespace: &str, set: WorkerSet, service: Service) -> (res:
        Result<(), ModelManagerError>)
        ensures
            match res {
                Ok(_) => {
                    &&& !served(old(self)@.models, model@, service)
                    &&& final(self)@ == (ManagerView {
                        models: with_set(old(self)@.models, model@, namespace@, set@),
                        ..old(self)@
                    })
                },
                Err(e) => {
                    &&& served(old(self)@.models, model@, service)
                    &&& e.exists_already(model@)
                    &&& final(self)@ == old(self)@
                },
            },
    {
        if self.serves(model, service) {
            return Err(ModelManagerError::ModelAlreadyExists(owned(model)));
        }
        self.add_worker_set(model, namespace, set);
        Ok(())
    }

    /// Takes a set out of a namespace of a model.
    fn remove_local(&mut self, model: &str, namespace: &str) -> (res: Result<(), ModelManagerError>)
        ensures
            final(self)@ == (ManagerView {
                models: without_set(old(self)@.models, model@, namespace@),
                ..old(self)@
            }),
            match res {
                Ok(_) => sets_of(old(self)@.models, model@).contains_key(namespace@),
                Err(e) => !sets_of(old(self)@.models, model@).contains_key(namespace@)
                    && e.not_found(model@),
            },
    {
        match self.remove_worker_set(model, namespace) {
            Some(_) => Ok(()),
            None => Err(ModelManagerError::ModelNotFound(owned(model))),
        }
    }

    /// Adds a model of this process that answers chat completions.
    pub fn add_chat_completions_model(
        &mut self,
        model: &str,
        card_checksum: &str,
        engine: OpenAIChatCompletionsStreamingEngine,
    ) -> (res: Result<(), ModelManagerError>)
        ensures
            match res {
                Ok(_) => {
                    let namespace = local_namespace("__local_chat_"@, model@);
                    &&& !served(old(self)@.models, model@, Service::Chat)
                    &&& final(self)@ == (ManagerView {
                        models: with_set(
                            old(self)@.models,
                            model@,
                            namespace,
                            WorkerSetView {
                                chat_engine: Some(engine),
                                ..WorkerSetView::bare(namespace, card_checksum@, blank_card())
                            },
                        ),
                        ..old(self)@
                    })
                },
                Err(e) => {
                    &&& served(old(self)@.models, model@, Service::Chat)
                    &&& e.exists_already(model@)
                    &&& final(self)@ == old(self)@
                },
            },
    {
        let namespace = text::join2("__local_chat_", model);
        let set = WorkerSet::new(
            namespace.clone(),
            owned(card_checksum),
            ModelDeploymentCard::default(),
        ).with_chat_engine(engine);
        self.add_local(model, namespace.as_str(), set, Service::Chat)
    }

    /// Adds a model of this process that answers completions.
    pub fn add_completions_model(
        &mut self,
        model: &str,
        card_checksum: &str,
        engine: OpenAICompletionsStreamingEngine,
    ) -> (res: Result<(), ModelManagerError>)
        ensures
            match res {
                Ok(_) => {
                    let namespace = local_namespace("__local_completions_"@, model@);
                    &&& !served(old(self)@.models, model@, Service::Completions)
                    &&& final(self)@ == (ManagerView {
                        models: with_set(
                            old(self)@.models,
                            model@,
                            namespace,
                            WorkerSetView {
                                completions_engine: Some(engine),
                                ..WorkerSetView::bare(namespace, card_checksum@, blank_card())
                            },
                        ),
                        ..old(self)@
                    })
                },
                Err(e) => {
                    &&& served(old(self)@.models, model@, Service::Completions)
                    &&& e.exists_already(model@)
                    &&& final(self)@ == old(self)@
                },
            },
    {
        let namespace = text::join2("__local_completions_", model);
        let set = WorkerSet::new(
            namespace.clone(),
            owned(card_checksum),
            ModelDeploymentCard::default(),
        ).with_completions_engine(engine);
        self.add_local(model, namespace.as_str(), set, Service::Completions)
    }

    /// Adds a model of this process that answers embeddings.
    pub fn add_embeddings_model(
        &mut self,
        model: &str,
        card_checksum: &str,
        engine: OpenAIEmbeddingsStreamingEngine,
    ) -> (res: Result<(), ModelManagerError>)
        ensures
            match res {
                Ok(_) => {
                    let namespace = local_namespace("__local_embeddings_"@, model@);
                    &&& !served(old(self)@.models, model@, Service::Embeddings)
                    &&& final(self)@ == (ManagerView {
                        models: with_set(
                            old(self)@.models,
                            model@,
                            namespace,
                            WorkerSetView {
                                embeddings_engine: Some(engine),
                                ..WorkerSetView::bare(namespace, card_checksum@, blank_card())
                            },
                        ),
                        ..old(self)@
                    })
                },
                Err(e) => {
                    &&& served(old(self)@.models, model@, Service::Embeddings)
                    &&& e.exists_already(model@)
                    &&& final(self)@ == old(self)@
                },
            },
    {
        let namespace = text::join2("__local_embeddings_", model);
        let set = WorkerSet::new(
            namespace.clone(),
            owned(card_checksum),
            ModelDeploymentCard::default(),
        ).with_embeddings_engine(engine);
        self.add_local(model, namespace.as_str(), set, Service::Embeddings)
    }

    /// Adds a model of this process that answers tensors.
    pub fn add_tensor_model(
        &mut self,
        model: &str,
        card_checksum: &str,
        engine: TensorStreamingEngine,
    ) -> (res: Result<(), ModelManagerError>)
        ensures
            match res {
                Ok(_) => {
                    let namespace = local_namespace("__local_tensor_"@, model@);
                    &&& !served(old(self)@.models, model@, Service::Tensor)
                    &&& final(self)@ == (ManagerView {
                        models: with_set(
                            old(self)@.models,
                            model@,
                            namespace,
                            WorkerSetView {
                                tensor_engine: Some(engine),
                                ..WorkerSetView::bare(namespace, card_checksum@, blank_card())
                            },
                        ),
                        ..old(self)@
                    })
                },
                Err(e) => {
                    &&& served(old(self)@.models, model@, Service::Tensor)
                    &&& e.exists_already(model@)
                    &&& final(self)@ == old(self)@
                },
            },
    {
        let namespace = text::join2("__local_tensor_", model);
        let set = WorkerSet::new(
            namespace.clone(),
            owned(card_checksum),
            ModelDeploymentCard::default(),
        ).with_tensor_engine(engine);
        self.add_local(model, namespace.as_str(), set, Service::Tensor)
    }

    /// Adds a model of this process that answers images.
    pub fn add_images_model(
        &mut self,
        model: &str,
        card_checksum: &str,
        engine: OpenAIImagesStreamingEngine,
    ) -> (res: Result<(), ModelManagerError>)
        ensures
            match res {
                Ok(_) => {
                    let namespace = local_namespace("__local_images_"@, model@);
                    &&& !served(old(self)@.models, model@, Service::Images)
                    &&& final(self)@ == (ManagerView {
                        models: with_set(
                            old(self)@.models,
                            model@,
                            namespace,
                            WorkerSetView {
                                images_engine: Some(engine),
                                ..WorkerSetView::bare(namespace, card_checksum@, blank_card())
                            },
                        ),
                        ..old(self)@
                    })
                },
                Err(e) => {
                    &&& served(old(self)@.models, model@, Service::Images)
                    &&& e.exists_already(model@)
                    &&& final(self)@ == old(self)@
                },
            },
    {
        let namespace = text::join2("__local_images_", model);
        let set = WorkerSet::new(
            namespace.clone(),
            owned(card_checksum),
            ModelDeploymentCard::default(),
        ).with_images_engine(engine);
        self.add_local(model, namespace.as_str(), set, Service::Images)
    }

    /// Adds a model of this process that stands for prefill workers.
    pub fn add_prefill_model(&mut self, model: &str, card_checksum: &str) -> (res: Result<
        (),
        ModelManagerError,
    >)
        ensures
            match res {
                Ok(_) => {
                    let namespace = local_namespace("__local_prefill_"@, model@);
                    &&& !served(old(self)@.models, model@, Service::Prefill)
                    &&& final(self)@ == (ManagerView {
                        models: with_set(
                            old(self)@.models,
                            model@,
                            namespace,
                            WorkerSetView::bare(namespace, card_checksum@, blank_card()),
                        ),
                        ..old(self)@
                    })
                },
                Err(e) => {
                    &&& served(old(self)@.models, model@, Service::Prefill)
                    &&& e.exists_already(model@)
                    &&& final(self)@ == old(self)@
                },
            },
    {
        let namespace = text::join2("__local_prefill_", model);
        let set = WorkerSet::new(
            namespace.clone(),
            owned(card_checksum),
            ModelDeploymentCard::default(),
        );
        self.add_local(model, namespace.as_str(), set, Service::Prefill)
    }

    /// Removes a model with all its sets.
    pub fn remove_model(&mut self, model: &str) -> (res: Option<Model>)
        ensures
            final(self)@ == (ManagerView {
                models: old(self)@.models.remove(model@),
                ..old(self)@
            }),
            match res {
                Some(m) => old(self)@.models.contains_key(model@) && old(self)@.models[model@]
                    == m@,
                None => !old(self)@.models.contains_key(model@),
            },
    {
        let ghost before = self@;
        let res = self.models.take(model);
        assert(self@.models =~= before.models.remove(model@));
        res
    }

    /// Removes what this process added of a model that answers chat completions.
    pub fn remove_chat_completions_model(&mut self, model: &str) -> (res: Result<(), ModelManagerError>)
        ensures
            ({
                let namespace = local_namespace("__local_chat_"@, model@);
                let there = sets_of(old(self)@.models, model@).contains_key(namespace);
                &&& final(self)@ == (ManagerView {
                    models: without_set(old(self)@.models, model@, namespace),
                    ..old(self)@
                })
                &&& res is Ok <==> there
                &&& res matches Err(e) ==> e.not_found(model@)
            }),
    {
        let namespace = text::join2("__local_chat_", model);
        self.remove_local(model, namespace.as_str())
    }

    /// Removes what this process added of a model that answers completions.
    pub fn remove_completions_model(&mut self, model: &str) -> (res: Result<(), ModelManagerError>)
        ensures
            ({
                let namespace = local_namespace("__local_completions_"@, model@);
                let there = sets_of(old(self)@.models, model@).contains_key(namespace);
                &&& final(self)@ == (ManagerView {
                    models: without_set(old(self)@.models, model@, namespace),
                    ..old(self)@
                })
                &&& res is Ok <==> there
                &&& res matches Err(e) ==> e.not_found(model@)
            }),
    {
        let namespace = text::join2("__local_completions_", model);
        self.remove_local(model, namespace.as_str())
    }

    /// Removes what this process added of a model that answers tensors.
    pub fn remove_tensor_model(&mut self, model: &str) -> (res: Result<(), ModelManagerError>)
        ensures
            ({
                let namespace = local_namespace("__local_tensor_"@, model@);
                let there = sets_of(old(self)@.models, model@).contains_key(namespace);
                &&& final(self)@ == (ManagerView {
                    models: without_set(old(self)@.models, model@, namespace),
                    ..old(self)@
                })
                &&& res is Ok <==> there
                &&& res matches Err(e) ==> e.not_found(model@)
            }),
    {
        let namespace = text::join2("__local_tensor_", model);
        self.remove_local(model, namespace.as_str())
    }

    /// Removes what this process added of a model that answers embeddings.
    pub fn remove_embeddings_model(&mut self, model: &str) -> (res: Result<(), ModelManagerError>)
        ensures
            ({
                let namespace = local_namespace("__local_embeddings_"@, model@);
                let there = sets_of(old(self)@.models, model@).contains_key(namespace);
                &&& final(self)@ == (ManagerView {
                    models: without_set(old(self)@.models, model@, namespace),
                    ..old(self)@
                })
                &&& res is Ok <==> there
                &&& res matches Err(e) ==> e.not_found(model@)
            }),
    {
        let namespace = text::join2("__local_embeddings_", model);
        self.remove_local(model, namespace.as_str())
    }

    /// Removes what this process added of a model that answers images.
    pub fn remove_images_model(&mut self, model: &str) -> (res: Result<(), ModelManagerError>)
        ensures
            ({
                let namespace = local_namespace("__local_images_"@, model@);
                let there = sets_of(old(self)@.models, model@).contains_key(namespace);
                &&& final(self)@ == (ManagerView {
                    models: without_set(old(self)@.models, model@, namespace),
                    ..old(self)@
                })
                &&& res is Ok <==> there
                &&& res matches Err(e) ==> e.not_found(model@)
            }),
    {
        let namespace = text::join2("__local_images_", model);
        self.remove_local(model, namespace.as_str())
    }

    /// The monitor of the load of some set of a model.
    pub fn get_worker_monitor(&self, model: &str) -> (res: Option<KvWorkerMonitor>)
        ensures
            match res {
                Some(monitor) => served(self@.models, model@, Service::Monitor) && monitored(
                    self@.models[model@],
                    monitor,
                ),
                None => !served(self@.models, model@, Service::Monitor),
            },
    {
        match self.models.get(model) {
            Some(m) => {
                let res = m.get_worker_monitor();
                proof {
                    if let Some(monitor) = res {
                        let n = choose|n: Seq<char>| #[trigger]
                            offers_in(m@, n, Service::Monitor) && m@[n].worker_monitor == Some(
                                monitor,
                            );
                        assert(offers_in(m@, n, Service::Monitor));
                    }
                }
                res
            },
            None => None,
        }
    }

    /// The monitor of the load of a model, with the given thresholds: the one
    /// of some set, or else a new one, which belongs to no set.
    pub fn get_or_create_worker_monitor(
        &mut self,
        model: &str,
        client: Client,
        config: LoadThresholdConfig,
    ) -> (res: KvWorkerMonitor)
        ensures
            if served(old(self)@.models, model@, Service::Monitor) {
                thresholds_changed(old(self)@, model@, config, res, final(self)@)
            } else {
                res == (KvWorkerMonitor { client, config }) && final(self)@ == old(self)@
            },
    {
        match self.set_thresholds(model, config) {
            Some(monitor) => monitor,
            None => KvWorkerMonitor::new(client, config),
        }
    }

    /// Gives the monitor of some set of a model other thresholds.
    fn set_thresholds(&mut self, model: &str, config: LoadThresholdConfig) -> (res: Option<
        KvWorkerMonitor,
    >)
        ensures
            match res {
                Some(monitor) => served(old(self)@.models, model@, Service::Monitor)
                    && thresholds_changed(old(self)@, model@, config, monitor, final(self)@),
                None => !served(old(self)@.models, model@, Service::Monitor) && final(self)@
                    == old(self)@,
            },
    {
        let ghost before = self@;
        match self.models.take(model) {
            Some(m) => {
                let mut m = m;
                let ghost sets = m@;
                let res = m.set_load_threshold_config(config);
                self.models.put(model, m);
                proof {
                    assert(self@.models =~= before.models.insert(model@, m@));
                    assert(before.models[model@] == sets);
                    if let Some(monitor) = res {
                        let n = choose|n: Seq<char>| #[trigger]
                            crate::discovery::model::thresholds_set_in(
                                sets,
                                n,
                                config,
                                monitor,
                                m@,
                            );
                        assert(offers_in(sets, n, Service::Monitor));
                        assert(self@ =~= (ManagerView {
                            models: before.models.insert(model@, m@),
                            ..before
                        }));
                    } else {
                        assert(self@.models =~= before.models);
                    }
                }
                res
            },
            None => {
                assert(self@.models =~= before.models);
                None
            },
        }
    }

    /// The thresholds of the monitor of some set of a model, after they were
    /// set where new ones are given.
    pub fn load_threshold_config(&mut self, model: &str, config: Option<LoadThresholdConfig>) -> (res:
        Option<LoadThresholdConfig>)
        ensures
            res is Some <==> served(old(self)@.models, model@, Service::Monitor),
            match config {
                Some(c) => {
                    &&& res matches Some(r) ==> r == c && exists|monitor: KvWorkerMonitor| #[trigger]
                        thresholds_changed(old(self)@, model@, c, monitor, final(self)@)
                    &&& res is None ==> final(self)@ == old(self)@
                },
                None => {
                    &&& final(self)@ == old(self)@
                    &&& res matches Some(r) ==> has_thresholds(old(self)@.models[model@], r)
                },
            },
    {
        match config {
            Some(c) => match self.set_thresholds(model, c) {
                Some(monitor) => Some(monitor.config),
                None => None,
            },
            None => match self.get_worker_monitor(model) {
                Some(monitor) => Some(monitor.config),
                None => None,
            },
        }
    }

    /// The models that have a monitor, each once, with the thresholds of the
    /// monitor of some set.
    pub fn list_busy_thresholds(&self) -> (res: Vec<(String, LoadThresholdConfig)>)
        ensures
            lists_served(self@.models, Service::Monitor, names_of(res@)),
            forall|i: int|
                0 <= i < res@.len() ==> has_thresholds(
                    self@.models[(#[trigger] res@[i]).0@],
                    res@[i].1,
                ),
    {
        let names = self.list_models(Service::Monitor);
        let ghost all = text::texts(names@);
        let mut res: Vec<(String, LoadThresholdConfig)> = Vec::new();
        let mut i: usize = 0;
        while i < names.len()
            invariant
                i <= names.len(),
                all == text::texts(names@),
                lists_served(self@.models, Service::Monitor, all),
                res@.len() == i,
                names_of(res@) == all.take(i as int),
                forall|j: int|
                    0 <= j < i ==> has_thresholds(
                        self@.models[(#[trigger] res@[j]).0@],
                        res@[j].1,
                    ),
            decreases names.len() - i,
        {
            let ghost before = res@;
            assert(all[i as int] == names@[i as int]@);
            assert(all.contains(all[i as int]));
            match self.get_worker_monitor(names[i].as_str()) {
                Some(monitor) => {
                    res.push((names[i].clone(), monitor.config));
                    proof {
                        assert(names_of(res@) =~= names_of(before).push(all[i as int]));
                        assert(all.take(i + 1) =~= all.take(i as int).push(all[i as int]));
                        assert(monitored(self@.models[res@[i as int].0@], monitor));
                        assert(has_thresholds(self@.models[res@[i as int].0@], monitor.config));
                    }
                },
                None => {},
            }
            i = i + 1;
        }
        assert(all.take(i as int) =~= all);
        res
    }

    /// Whether a number is left for decode workers that have to wait.
    pub fn has_number(&self) -> (res: bool)
        ensures
            res == (self@.next_number < u64::MAX),
    {
        self.next_number < u64::MAX
    }

    /// Asks for the prefill endpoint of a namespace on behalf of the decode
    /// workers there. Nothing comes back where decode workers wait already.
    pub fn register_prefill_router(&mut self, model_name: String, namespace: &str) -> (res: Option<
        PrefillWait,
    >)
        requires
            old(self)@.next_number < u64::MAX,
        ensures
            ({
                let (got, after) = registered(
                    old(self)@.activators,
                    (model_name@, namespace@),
                    old(self)@.next_number,
                );
                &&& res == got
                &&& final(self)@ == (ManagerView {
                    activators: after,
                    next_number: if got matches Some(PrefillWait::Waiting(_)) {
                        (old(self)@.next_number + 1) as u64
                    } else {
                        old(self)@.next_number
                    },
                    ..old(self)@
                })
            }),
    {
        let ghost before = self@;
        match self.prefill_router_activators.take(model_name.as_str(), namespace) {
            Some(PrefillActivationState::PrefillReady(endpoint)) => Some(
                PrefillWait::Ready(endpoint),
            ),
            Some(PrefillActivationState::DecodeWaiting(number)) => {
                self.prefill_router_activators.put(
                    model_name.as_str(),
                    namespace,
                    PrefillActivationState::DecodeWaiting(number),
                );
                assert(self@.activators =~= before.activators);
                None
            },
            None => {
                let number: u64 = self.next_number;
                self.next_number = self.next_number + 1;
                self.prefill_router_activators.put(
                    model_name.as_str(),
                    namespace,
                    PrefillActivationState::DecodeWaiting(number),
                );
                assert(self@.activators =~= before.activators.insert(
                    (model_name@, namespace@),
                    PrefillActivationState::DecodeWaiting(number),
                ));
                Some(PrefillWait::Waiting(number))
            },
        }
    }

    /// A prefill endpoint of a namespace arrives: it goes to the decode workers
    /// that wait for it, or is kept until they come.
    pub fn activate_prefill_router(
        &mut self,
        model_name: &str,
        namespace: &str,
        endpoint: Endpoint,
    ) -> (res: Result<PrefillDelivery, PrefillError>)
        ensures
            ({
                let (done, after) = activated(
                    old(self)@.activators,
                    (model_name@, namespace@),
                    endpoint,
                );
                &&& res == done
                &&& final(self)@ == (ManagerView { activators: after, ..old(self)@ })
            }),
    {
        let ghost before = self@;
        match self.prefill_router_activators.take(model_name, namespace) {
            Some(PrefillActivationState::DecodeWaiting(number)) => Ok(
                PrefillDelivery::Deliver(number, endpoint),
            ),
            Some(PrefillActivationState::PrefillReady(_)) => Err(PrefillError::AlreadyActivated),
            None => {
                self.prefill_router_activators.put(
                    model_name,
                    namespace,
                    PrefillActivationState::PrefillReady(endpoint),
                );
                assert(self@.activators =~= before.activators.insert(
                    (model_name@, namespace@),
                    PrefillActivationState::PrefillReady(endpoint),
                ));
                Ok(PrefillDelivery::Kept)
            },
        }
    }

    /// Forgets who waits for whom in a namespace of a model, and returns the
    /// number of the decode workers that waited there.
    pub fn remove_prefill_activator(&mut self, model_name: &str, namespace: &str) -> (res: Option<
        u64,
    >)
        ensures
            final(self)@ == (ManagerView {
                activators: old(self)@.activators.remove((model_name@, namespace@)),
                ..old(self)@
            }),
            res == waiting_number(old(self)@.activators, (model_name@, namespace@)),
    {
        match self.prefill_router_activators.take(model_name, namespace) {
            Some(PrefillActivationState::DecodeWaiting(number)) => Some(number),
            _ => None,
        }
    }

    /// What is watched behind an endpoint.
    pub fn runtime_config_watcher(&self, endpoint_id: &EndpointId) -> (res: Option<
        &RuntimeConfigWatch,
    >)
        ensures
            match res {
                Some(watch) => self@.watched.contains_key(endpoint_id@)
                    && self@.watched[endpoint_id@] == *watch,
                None => !self@.watched.contains_key(endpoint_id@),
            },
    {
        self.runtime_configs.get(endpoint_id)
    }

    /// Watches an endpoint, given what was just made for that, unless it is
    /// watched already: then what is there stays. Returns what is watched.
    pub fn get_or_create_runtime_config_watcher(
        &mut self,
        endpoint_id: EndpointId,
        made: RuntimeConfigWatch,
    ) -> (res: &RuntimeConfigWatch)
        ensures
            *res == watch_of(old(self)@.watched, endpoint_id@, made),
            final(self)@ == (ManagerView {
                watched: old(self)@.watched.insert(
                    endpoint_id@,
                    watch_of(old(self)@.watched, endpoint_id@, made),
                ),
                ..old(self)@
            }),
    {
        let ghost before = self@;
        let asked = EndpointId {
            namespace: owned(endpoint_id.namespace.as_str()),
            component: owned(endpoint_id.component.as_str()),
            name: owned(endpoint_id.name.as_str()),
        };
        self.runtime_configs.insert_if_absent(endpoint_id, made);
        assert(self@.watched =~= before.watched.insert(
            asked@,
            watch_of(before.watched, asked@, made),
        ));
        match self.runtime_configs.get(&asked) {
            Some(watch) => watch,
            None => vstd::pervasive::unreached(),
        }
    }

    /// Takes over what is new behind an endpoint that is watched.
    pub fn update_runtime_configs(&mut self, endpoint_id: &EndpointId, latest: RuntimeConfigWatch) -> (res:
        bool)
        ensures
            res == old(self)@.watched.contains_key(endpoint_id@),
            final(self)@ == (ManagerView {
                watched: if res {
                    old(self)@.watched.insert(endpoint_id@, latest)
                } else {
                    old(self)@.watched
                },
                ..old(self)@
            }),
    {
        self.runtime_configs.update(endpoint_id, latest)
    }

    /// Where the other half of a worker behind an endpoint is, where that is
    /// known.
    pub fn get_disaggregated_endpoint(&self, endpoint_id: &EndpointId, worker_id: u64) -> (res:
        Option<DisaggregatedEndpoint>)
        ensures
            opt_endpoint(res) == known_half(self@.watched, endpoint_id@, worker_id),
    {
        self.runtime_configs.disaggregated_endpoint(endpoint_id, worker_id)
    }
}

impl Default for ModelManager {
    fn default() -> (res: Self)
        ensures
            res@ == (ManagerView {
                models: Map::empty(),
                cards: Map::empty(),
                activators: Map::empty(),
                next_number: 0,
                watched: Map::empty(),
            }),
    {
        Self::new()
    }
}

/// What is watched behind an endpoint, given what is made where nothing is.
pub open spec fn watch_of(
    watched: Map<EndpointKey, RuntimeConfigWatch>,
    endpoint_id: EndpointKey,
    made: RuntimeConfigWatch,
) -> RuntimeConfigWatch {
    if watched.contains_key(endpoint_id) {
        watched[endpoint_id]
    } else {
        made
    }
}

/// Whether some set has the given monitor.
pub open spec fn monitored(sets: Sets, monitor: KvWorkerMonitor) -> bool {
    exists|namespace: Seq<char>| #[trigger]
        offers_in(sets, namespace, Service::Monitor) && sets[namespace].worker_monitor == Some(
            monitor,
        )
}

/// Whether the monitor of some set has the given thresholds.
pub open spec fn has_thresholds(sets: Sets, config: LoadThresholdConfig) -> bool {
    exists|monitor: KvWorkerMonitor| #[trigger] monitored(sets, monitor) && monitor.config == config
}

/// Whether the monitor of some set of a model was given other thresholds, and
/// nothing else changed.
pub open spec fn thresholds_changed(
    before: ManagerView,
    model: Seq<char>,
    config: LoadThresholdConfig,
    monitor: KvWorkerMonitor,
    after: ManagerView,
) -> bool {
    &&& after == (ManagerView {
        models: before.models.insert(model, sets_of(after.models, model)),
        ..before
    })
    &&& after.models.contains_key(model)
    &&& thresholds_set(sets_of(before.models, model), config, monitor, after.models[model])
}

/// The names in a list of thresholds.
pub open spec fn names_of(list: Seq<(String, LoadThresholdConfig)>) -> Seq<Seq<char>> {
    Seq::new(list.len(), |i: int| list[i].0@)
}

/// Whether a list has the cards under the given keys, in that order, and the
/// keys are all there are, each once.
pub open spec fn cards_in_order(
    cards: Map<Seq<char>, CardView>,
    keys: Seq<Seq<char>>,
    list: Seq<ModelDeploymentCard>,
) -> bool {
    &&& keys.no_duplicates()
    &&& forall|key: Seq<char>| #[trigger] keys.contains(key) <==> cards.contains_key(key)
    &&& list.len() == keys.len()
    &&& forall|i: int| 0 <= i < list.len() ==> (#[trigger] list[i])@ == cards[keys[i]]
}

/// Whether a list has all cards, one for each key, in some order.
pub open spec fn lists_cards(
    cards: Map<Seq<char>, CardView>,
    list: Seq<ModelDeploymentCard>,
) -> bool {
    exists|keys: Seq<Seq<char>>| #[trigger] cards_in_order(cards, keys, list)
}

proof fn taken_grows(all: Seq<Seq<char>>, i: int)
    requires
        0 <= i < all.len(),
        all.no_duplicates(),
    ensures
        forall|n: Seq<char>| #[trigger]
            all.take(i + 1).contains(n) <==> all.take(i).contains(n) || n == all[i],
        !all.take(i).contains(all[i]),
        all.contains(all[i]),
{
    assert forall|n: Seq<char>| #[trigger] all.take(i + 1).contains(n) <==> all.take(i).contains(n)
        || n == all[i] by {
        if all.take(i + 1).contains(n) && n != all[i] {
            let t = all.take(i + 1);
            let k = choose|k: int| 0 <= k < t.len() && t[k] == n;
            assert(all.take(i)[k] == n);
        }
        if all.take(i).contains(n) {
            let t = all.take(i);
            let k = choose|k: int| 0 <= k < t.len() && t[k] == n;
            assert(all.take(i + 1)[k] == n);
        }
        assert(all.take(i + 1)[i] == all[i]);
    }
    if all.take(i).contains(all[i]) {
        let t = all.take(i);
        let k = choose|k: int| 0 <= k < t.len() && t[k] == all[i];
        assert(all[k] == all[i]);
    }
}

proof fn pushed(list: Seq<Seq<char>>, name: Seq<char>)
    requires
        list.no_duplicates(),
        !list.contains(name),
    ensures
        list.push(name).no_duplicates(),
        forall|n: Seq<char>| #[trigger]
            list.push(name).contains(n) <==> list.contains(n) || n == name,
{
    let all = list.push(name);
    assert forall|n: Seq<char>| #[trigger] all.contains(n) <==> list.contains(n) || n == name by {
        if list.contains(n) {
            let k = choose|k: int| 0 <= k < list.len() && list[k] == n;
            assert(all[k] == n);
        }
        assert(all[list.len() as int] == name);
    }
}

} // verus!
