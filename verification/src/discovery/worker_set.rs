//! A set of workers that were deployed from the same configuration.
//!
//! The sets of a model live side by side during a rolling update, each with
//! engines of its own.

use crate::json::{Json, JsonValue};
use vstd::prelude::*;

verus! {

/// An engine that answers chat completions, by the number under which it is
/// held.
#[derive(Debug, Clone, Copy, PartialEq, Eq, Structural)]
pub struct OpenAIChatCompletionsStreamingEngine {
    /// The number under which the engine is held.
    pub handle: u64,
}

/// An engine that answers completions.
#[derive(Debug, Clone, Copy, PartialEq, Eq, Structural)]
pub struct OpenAICompletionsStreamingEngine {
    /// The number under which the engine is held.
    pub handle: u64,
}

/// An engine that answers embeddings.
#[derive(Debug, Clone, Copy, PartialEq, Eq, Structural)]
pub struct OpenAIEmbeddingsStreamingEngine {
    /// The number under which the engine is held.
    pub handle: u64,
}

/// An engine that answers images.
#[derive(Debug, Clone, Copy, PartialEq, Eq, Structural)]
pub struct OpenAIImagesStreamingEngine {
    /// The number under which the engine is held.
    pub handle: u64,
}

/// An engine that answers tensors.
#[derive(Debug, Clone, Copy, PartialEq, Eq, Structural)]
pub struct TensorStreamingEngine {
    /// The number under which the engine is held.
    pub handle: u64,
}

/// A router that knows what workers have cached.
#[derive(Debug, Clone, Copy, PartialEq, Eq, Structural)]
pub struct KvRouter {
    /// The number under which the router is held.
    pub handle: u64,
}

/// A router to prefill workers.
#[derive(Debug, Clone, Copy, PartialEq, Eq, Structural)]
pub struct PrefillRouter {
    /// The number under which the router is held.
    pub handle: u64,
}

/// A connection to workers.
#[derive(Debug, Clone, Copy, PartialEq, Eq, Structural)]
pub struct Client {
    /// The number under which the connection is held.
    pub handle: u64,
}

/// The load from which on workers are spared, by the number under which the
/// thresholds are held.
#[derive(Debug, Clone, Copy, PartialEq, Eq, Structural)]
pub struct LoadThresholdConfig {
    /// The number under which the thresholds are held.
    pub handle: u64,
}

/// Watches the load of workers.
#[derive(Debug, Clone, Copy, PartialEq, Eq, Structural)]
pub struct KvWorkerMonitor {
    /// The connection over which the workers are watched.
    pub client: Client,
    /// The load from which on they are spared.
    pub config: LoadThresholdConfig,
}

impl KvWorkerMonitor {
    /// A monitor with the given thresholds.
    pub fn new(client: Client, config: LoadThresholdConfig) -> (res: Self)
        ensures
            res == (KvWorkerMonitor { client, config }),
    {
        KvWorkerMonitor { client, config }
    }
}

/// Where the other half of a disaggregated worker is.
#[derive(Debug, PartialEq, Eq)]
pub struct DisaggregatedEndpoint {
    /// The host.
    pub bootstrap_host: Option<String>,
    /// The port.
    pub bootstrap_port: Option<u16>,
}

/// How a worker runs its model.
#[derive(Debug, PartialEq, Eq)]
pub struct ModelRuntimeConfig {
    /// The parser for tool calls.
    pub tool_call_parser: Option<String>,
    /// The parser for reasoning.
    pub reasoning_parser: Option<String>,
    /// Where the other half of the worker is.
    pub disaggregated_endpoint: Option<DisaggregatedEndpoint>,
}

/// What is known of a model that is deployed.
#[derive(Debug, PartialEq, Eq)]
pub struct ModelDeploymentCard {
    /// How the model is run.
    pub runtime_config: ModelRuntimeConfig,
    /// All else that the card says.
    pub details: JsonValue,
}

/// How the text of a model is parsed.
#[derive(Debug, PartialEq, Eq)]
pub struct ParsingOptions {
    /// The parser for tool calls.
    pub tool_call_parser: Option<String>,
    /// The parser for reasoning.
    pub reasoning_parser: Option<String>,
}

/// The characters of an optional text.
pub open spec fn opt_text(s: Option<String>) -> Option<Seq<char>> {
    match s {
        Some(t) => Some(t@),
        None => None,
    }
}

fn copy_opt(s: &Option<String>) -> (res: Option<String>)
    ensures
        opt_text(res) == opt_text(*s),
{
    match s {
        Some(t) => Some(t.clone()),
        None => None,
    }
}

impl DisaggregatedEndpoint {
    /// The host and the port as mathematics.
    pub open spec fn view(&self) -> (Option<Seq<char>>, Option<u16>) {
        (opt_text(self.bootstrap_host), self.bootstrap_port)
    }

    /// An endpoint of its own that is the same.
    pub fn duplicate(&self) -> (res: Self)
        ensures
            res@ == self@,
    {
        DisaggregatedEndpoint {
            bootstrap_host: copy_opt(&self.bootstrap_host),
            bootstrap_port: self.bootstrap_port,
        }
    }
}

/// How a worker runs its model, as mathematics.
pub struct RuntimeConfigView {
    /// The parser for tool calls.
    pub tool_call_parser: Option<Seq<char>>,
    /// The parser for reasoning.
    pub reasoning_parser: Option<Seq<char>>,
    /// Where the other half of the worker is.
    pub disaggregated_endpoint: Option<(Option<Seq<char>>, Option<u16>)>,
}

/// Where the other half of a worker is, as mathematics.
pub open spec fn opt_endpoint(e: Option<DisaggregatedEndpoint>) -> Option<
    (Option<Seq<char>>, Option<u16>),
> {
    match e {
        Some(d) => Some(d@),
        None => None,
    }
}

impl ModelRuntimeConfig {
    /// The configuration as mathematics.
    pub open spec fn view(&self) -> RuntimeConfigView {
        RuntimeConfigView {
            tool_call_parser: opt_text(self.tool_call_parser),
            reasoning_parser: opt_text(self.reasoning_parser),
            disaggregated_endpoint: opt_endpoint(self.disaggregated_endpoint),
        }
    }
}

/// A card as mathematics.
pub struct CardView {
    /// How the model is run.
    pub runtime_config: RuntimeConfigView,
    /// All else that the card says.
    pub details: Json,
}

impl ModelDeploymentCard {
    /// The card as mathematics.
    pub open spec fn view(&self) -> CardView {
        CardView { runtime_config: self.runtime_config@, details: self.details@ }
    }

    /// A card of its own that is the same.
    pub fn duplicate(&self) -> (res: Self)
        ensures
            res@ == self@,
    {
        let c = &self.runtime_config;
        let disaggregated_endpoint = match &c.disaggregated_endpoint {
            Some(e) => Some(e.duplicate()),
            None => None,
        };
        ModelDeploymentCard {
            runtime_config: ModelRuntimeConfig {
                tool_call_parser: copy_opt(&c.tool_call_parser),
                reasoning_parser: copy_opt(&c.reasoning_parser),
                disaggregated_endpoint,
            },
            details: self.details.duplicate(),
        }
    }
}

/// A card that says nothing.
pub open spec fn blank_card() -> CardView {
    CardView {
        runtime_config: RuntimeConfigView {
            tool_call_parser: None,
            reasoning_parser: None,
            disaggregated_endpoint: None,
        },
        details: Json::Null,
    }
}

impl Default for ModelDeploymentCard {
    fn default() -> (res: Self)
        ensures
            res@ == blank_card(),
    {
        ModelDeploymentCard {
            runtime_config: ModelRuntimeConfig {
                tool_call_parser: None,
                reasoning_parser: None,
                disaggregated_endpoint: None,
            },
            details: JsonValue::Null,
        }
    }
}

/// What a set of workers can be asked for.
#[derive(Debug, Clone, Copy, PartialEq, Eq, Structural)]
pub enum Service {
    /// Chat completions.
    Chat,
    /// Completions.
    Completions,
    /// Embeddings.
    Embeddings,
    /// Images.
    Images,
    /// Tensors.
    Tensor,
    /// Chat completions or completions.
    Decode,
    /// None of the engines: the set stands for prefill workers.
    Prefill,
    /// A monitor of the load.
    Monitor,
}

/// A set of workers with the same configuration.
#[derive(Debug)]
pub struct WorkerSet {
    namespace: String,
    mdcsum: String,
    card: ModelDeploymentCard,
    /// Answers chat completions.
    pub chat_engine: Option<OpenAIChatCompletionsStreamingEngine>,
    /// Answers completions.
    pub completions_engine: Option<OpenAICompletionsStreamingEngine>,
    /// Answers embeddings.
    pub embeddings_engine: Option<OpenAIEmbeddingsStreamingEngine>,
    /// Answers images.
    pub images_engine: Option<OpenAIImagesStreamingEngine>,
    /// Answers tensors.
    pub tensor_engine: Option<TensorStreamingEngine>,
    /// Routes by what workers have cached.
    pub kv_router: Option<KvRouter>,
    /// Routes to prefill workers.
    pub prefill_router: Option<PrefillRouter>,
    /// Watches the load.
    pub worker_monitor: Option<KvWorkerMonitor>,
    worker_count: usize,
}

/// A set of workers as mathematics.
#[verifier::ext_equal]
pub struct WorkerSetView {
    /// The namespace.
    pub namespace: Seq<char>,
    /// The checksum of the configuration.
    pub mdcsum: Seq<char>,
    /// The card.
    pub card: CardView,
    /// Answers chat completions.
    pub chat_engine: Option<OpenAIChatCompletionsStreamingEngine>,
    /// Answers completions.
    pub completions_engine: Option<OpenAICompletionsStreamingEngine>,
    /// Answers embeddings.
    pub embeddings_engine: Option<OpenAIEmbeddingsStreamingEngine>,
    /// Answers images.
    pub images_engine: Option<OpenAIImagesStreamingEngine>,
    /// Answers tensors.
    pub tensor_engine: Option<TensorStreamingEngine>,
    /// Routes by what workers have cached.
    pub kv_router: Option<KvRouter>,
    /// Routes to prefill workers.
    pub prefill_router: Option<PrefillRouter>,
    /// Watches the load.
    pub worker_monitor: Option<KvWorkerMonitor>,
    /// How many workers there are.
    pub worker_count: int,
}

impl WorkerSetView {
    /// A set without engines and without workers.
    pub open spec fn bare(namespace: Seq<char>, mdcsum: Seq<char>, card: CardView) -> Self {
        WorkerSetView {
            namespace,
            mdcsum,
            card,
            chat_engine: None,
            completions_engine: None,
            embeddings_engine: None,
            images_engine: None,
            tensor_engine: None,
            kv_router: None,
            prefill_router: None,
            worker_monitor: None,
            worker_count: 0,
        }
    }

    /// Whether the set can be asked for something.
    pub open spec fn offers(self, service: Service) -> bool {
        match service {
            Service::Chat => self.chat_engine is Some,
            Service::Completions => self.completions_engine is Some,
            Service::Embeddings => self.embeddings_engine is Some,
            Service::Images => self.images_engine is Some,
            Service::Tensor => self.tensor_engine is Some,
            Service::Decode => self.chat_engine is Some || self.completions_engine is Some,
            Service::Prefill => {
                &&& self.chat_engine is None
                &&& self.completions_engine is None
                &&& self.embeddings_engine is None
                &&& self.images_engine is None
                &&& self.tensor_engine is None
            },
            Service::Monitor => self.worker_monitor is Some,
        }
    }

    /// The set once a worker has joined.
    pub open spec fn joined(self) -> Self {
        WorkerSetView { worker_count: self.worker_count + 1, ..self }
    }

    /// The set once a worker has left, if there was one.
    pub open spec fn left(self) -> Self {
        WorkerSetView {
            worker_count: if self.worker_count > 0 {
                self.worker_count - 1
            } else {
                0
            },
            ..self
        }
    }

    /// How the text of the set's model is parsed: the parsers for tool calls
    /// and for reasoning.
    pub open spec fn parsing(self) -> (Option<Seq<char>>, Option<Seq<char>>) {
        (self.card.runtime_config.tool_call_parser, self.card.runtime_config.reasoning_parser)
    }
}

impl ParsingOptions {
    /// The options as mathematics.
    pub open spec fn view(&self) -> (Option<Seq<char>>, Option<Seq<char>>) {
        (opt_text(self.tool_call_parser), opt_text(self.reasoning_parser))
    }

    /// Options with the given parsers.
    pub fn new(tool_call_parser: Option<String>, reasoning_parser: Option<String>) -> (res: Self)
        ensures
            res@ == (opt_text(tool_call_parser), opt_text(reasoning_parser)),
    {
        ParsingOptions { tool_call_parser, reasoning_parser }
    }
}

impl WorkerSet {
    /// The set as mathematics.
    pub closed spec fn view(&self) -> WorkerSetView {
        WorkerSetView {
            namespace: self.namespace@,
            mdcsum: self.mdcsum@,
            card: self.card@,
            chat_engine: self.chat_engine,
            completions_engine: self.completions_engine,
            embeddings_engine: self.embeddings_engine,
            images_engine: self.images_engine,
            tensor_engine: self.tensor_engine,
            kv_router: self.kv_router,
            prefill_router: self.prefill_router,
            worker_monitor: self.worker_monitor,
            worker_count: self.worker_count as int,
        }
    }

    /// A set without engines and without workers.
    pub fn new(namespace: String, mdcsum: String, card: ModelDeploymentCard) -> (res: Self)
        ensures
            res@ == WorkerSetView::bare(namespace@, mdcsum@, card@),
    {
        WorkerSet {
            namespace,
            mdcsum,
            card,
            chat_engine: None,
            completions_engine: None,
            embeddings_engine: None,
            images_engine: None,
            tensor_engine: None,
            kv_router: None,
            prefill_router: None,
            worker_monitor: None,
            worker_count: 0,
        }
    }

    /// The set with an engine for chat completions.
    pub(crate) fn with_chat_engine(self, engine: OpenAIChatCompletionsStreamingEngine) -> (res: Self)
        ensures
            res@ == (WorkerSetView { chat_engine: Some(engine), ..self@ }),
    {
        let mut res = self;
        res.chat_engine = Some(engine);
        res
    }

    /// The set with an engine for completions.
    pub(crate) fn with_completions_engine(self, engine: OpenAICompletionsStreamingEngine) -> (res:
        Self)
        ensures
            res@ == (WorkerSetView { completions_engine: Some(engine), ..self@ }),
    {
        let mut res = self;
        res.completions_engine = Some(engine);
        res
    }

    /// The set with an engine for embeddings.
    pub(crate) fn with_embeddings_engine(self, engine: OpenAIEmbeddingsStreamingEngine) -> (res:
        Self)
        ensures
            res@ == (WorkerSetView { embeddings_engine: Some(engine), ..self@ }),
    {
        let mut res = self;
        res.embeddings_engine = Some(engine);
        res
    }

    /// The set with an engine for images.
    pub(crate) fn with_images_engine(self, engine: OpenAIImagesStreamingEngine) -> (res: Self)
        ensures
            res@ == (WorkerSetView { images_engine: Some(engine), ..self@ }),
    {
        let mut res = self;
        res.images_engine = Some(engine);
        res
    }

    /// The set with an engine for tensors.
    pub(crate) fn with_tensor_engine(self, engine: TensorStreamingEngine) -> (res: Self)
        ensures
            res@ == (WorkerSetView { tensor_engine: Some(engine), ..self@ }),
    {
        let mut res = self;
        res.tensor_engine = Some(engine);
        res
    }

    /// The set with a monitor of the load.
    pub fn with_worker_monitor(self, monitor: KvWorkerMonitor) -> (res: Self)
        ensures
            res@ == (WorkerSetView { worker_monitor: Some(monitor), ..self@ }),
    {
        let mut res = self;
        res.worker_monitor = Some(monitor);
        res
    }

    /// The namespace.
    pub fn namespace(&self) -> (res: &str)
        ensures
            res@ == self@.namespace,
    {
        self.namespace.as_str()
    }

    /// The checksum of the configuration.
    pub fn mdcsum(&self) -> (res: &str)
        ensures
            res@ == self@.mdcsum,
    {
        self.mdcsum.as_str()
    }

    /// The card from which the set was built.
    pub fn card(&self) -> (res: &ModelDeploymentCard)
        ensures
            res@ == self@.card,
    {
        &self.card
    }

    /// The engine for chat completions.
    pub fn chat(&self) -> (res: Option<OpenAIChatCompletionsStreamingEngine>)
        ensures
            res == self@.chat_engine,
    {
        self.chat_engine
    }

    /// The engine for completions.
    pub fn completions(&self) -> (res: Option<OpenAICompletionsStreamingEngine>)
        ensures
            res == self@.completions_engine,
    {
        self.completions_engine
    }

    /// The engine for embeddings.
    pub fn embeddings(&self) -> (res: Option<OpenAIEmbeddingsStreamingEngine>)
        ensures
            res == self@.embeddings_engine,
    {
        self.embeddings_engine
    }

    /// The engine for images.
    pub fn images(&self) -> (res: Option<OpenAIImagesStreamingEngine>)
        ensures
            res == self@.images_engine,
    {
        self.images_engine
    }

    /// The engine for tensors.
    pub fn tensor(&self) -> (res: Option<TensorStreamingEngine>)
        ensures
            res == self@.tensor_engine,
    {
        self.tensor_engine
    }

    /// The monitor of the load.
    pub fn monitor(&self) -> (res: Option<KvWorkerMonitor>)
        ensures
            res == self@.worker_monitor,
    {
        self.worker_monitor
    }

    /// Whether there is an engine for chat completions.
    pub fn has_chat_engine(&self) -> (res: bool)
        ensures
            res == self@.offers(Service::Chat),
    {
        self.chat_engine.is_some()
    }

    /// Whether there is an engine for completions.
    pub fn has_completions_engine(&self) -> (res: bool)
        ensures
            res == self@.offers(Service::Completions),
    {
        self.completions_engine.is_some()
    }

    /// Whether there is an engine for embeddings.
    pub fn has_embeddings_engine(&self) -> (res: bool)
        ensures
            res == self@.offers(Service::Embeddings),
    {
        self.embeddings_engine.is_some()
    }

    /// Whether there is an engine for images.
    pub fn has_images_engine(&self) -> (res: bool)
        ensures
            res == self@.offers(Service::Images),
    {
        self.images_engine.is_some()
    }

    /// Whether there is an engine for tensors.
    pub fn has_tensor_engine(&self) -> (res: bool)
        ensures
            res == self@.offers(Service::Tensor),
    {
        self.tensor_engine.is_some()
    }

    /// Whether there is an engine for chat completions or completions.
    pub fn has_decode_engine(&self) -> (res: bool)
        ensures
            res == self@.offers(Service::Decode),
    {
        self.has_chat_engine() || self.has_completions_engine()
    }

    /// Whether there is no engine at all: the set stands for prefill workers.
    pub fn is_prefill_set(&self) -> (res: bool)
        ensures
            res == self@.offers(Service::Prefill),
    {
        !self.has_decode_engine() && !self.has_embeddings_engine() && !self.has_images_engine()
            && !self.has_tensor_engine()
    }

    /// Whether the set can be asked for something.
    pub fn offers(&self, service: Service) -> (res: bool)
        ensures
            res == self@.offers(service),
    {
        match service {
            Service::Chat => self.has_chat_engine(),
            Service::Completions => self.has_completions_engine(),
            Service::Embeddings => self.has_embeddings_engine(),
            Service::Images => self.has_images_engine(),
            Service::Tensor => self.has_tensor_engine(),
            Service::Decode => self.has_decode_engine(),
            Service::Prefill => self.is_prefill_set(),
            Service::Monitor => self.worker_monitor.is_some(),
        }
    }

    /// How the text of the set's model is parsed, as its card says.
    pub fn parsing_options(&self) -> (res: ParsingOptions)
        ensures
            res@ == self@.parsing(),
    {
        ParsingOptions::new(
            copy_opt(&self.card.runtime_config.tool_call_parser),
            copy_opt(&self.card.runtime_config.reasoning_parser),
        )
    }

    /// How many workers there are.
    pub fn worker_count(&self) -> (res: usize)
        ensures
            res == self@.worker_count,
    {
        self.worker_count
    }

    /// A worker joins; the new count.
    pub fn increment_workers(&mut self) -> (res: usize)
        requires
            old(self)@.worker_count < usize::MAX,
        ensures
            final(self)@ == old(self)@.joined(),
            res == final(self)@.worker_count,
    {
        self.worker_count = self.worker_count + 1;
        self.worker_count
    }

    /// A worker leaves; the new count. A set without workers stays without.
    pub fn decrement_workers(&mut self) -> (res: usize)
        ensures
            final(self)@ == old(self)@.left(),
            res == final(self)@.worker_count,
    {
        if self.worker_count > 0 {
            self.worker_count = self.worker_count - 1;
        }
        self.worker_count
    }

    /// Sets the load from which on workers are spared, where there is a
    /// monitor.
    pub fn set_load_threshold_config(&mut self, config: LoadThresholdConfig)
        ensures
            final(self)@ == (WorkerSetView {
                worker_monitor: match old(self)@.worker_monitor {
                    Some(m) => Some(KvWorkerMonitor { config, ..m }),
                    None => None,
                },
                ..old(self)@
            }),
    {
        match self.worker_monitor {
            Some(m) => {
                self.worker_monitor = Some(KvWorkerMonitor { client: m.client, config });
            },
            None => {},
        }
    }
}

/// A worker that joins and leaves again leaves the set as it was, and no number
/// of leaving workers brings the count below zero.
pub proof fn joined_then_left(set: WorkerSetView)
    requires
        set.worker_count >= 0,
    ensures
        set.joined().left() == set,
        set.left().worker_count >= 0,
        set.worker_count == 0 ==> set.left() == set,
{
}

/// What a set offers follows from its engines: each engine its own service, decoding
/// with either of two, prefill with none at all, and load with a monitor.
pub proof fn offers_by_engine(set: WorkerSetView)
    ensures
        set.offers(Service::Chat) <==> set.chat_engine is Some,
        set.offers(Service::Completions) <==> set.completions_engine is Some,
        set.offers(Service::Embeddings) <==> set.embeddings_engine is Some,
        set.offers(Service::Images) <==> set.images_engine is Some,
        set.offers(Service::Tensor) <==> set.tensor_engine is Some,
        set.offers(Service::Decode) <==> set.offers(Service::Chat) || set.offers(
            Service::Completions,
        ),
        set.offers(Service::Monitor) <==> set.worker_monitor is Some,
        set.offers(Service::Prefill) <==> !set.offers(Service::Decode) && !set.offers(
            Service::Embeddings,
        ) && !set.offers(Service::Images) && !set.offers(Service::Tensor),
{
}

/// A new set has the names and the card that it was given, no engine, no monitor and
/// no worker; so it stands for prefill workers.
pub proof fn new_set_is_bare(
    namespace: String,
    mdcsum: String,
    card: ModelDeploymentCard,
    set: WorkerSet,
)
    requires
        call_ensures(WorkerSet::new, (namespace, mdcsum, card), set),
    ensures
        set@.namespace == namespace@,
        set@.mdcsum == mdcsum@,
        set@.card == card@,
        set@.chat_engine is None,
        set@.completions_engine is None,
        set@.embeddings_engine is None,
        set@.images_engine is None,
        set@.tensor_engine is None,
        set@.kv_router is None,
        set@.prefill_router is None,
        set@.worker_monitor is None,
        set@.worker_count == 0,
        set@.offers(Service::Prefill),
{
}

/// A set counts its workers: one more for each that joins, one less for each that
/// leaves, and never less than none. Nothing else of it changes.
pub proof fn workers_are_counted(set: &mut WorkerSet, joined: usize)
    requires
        old(set)@.worker_count < usize::MAX,
        call_ensures(WorkerSet::increment_workers, (set,), joined),
    ensures
        joined == old(set)@.worker_count + 1,
        final(set)@ == (WorkerSetView { worker_count: joined as int, ..old(set)@ }),
{
}

/// A worker that leaves takes one from the count, where there is one.
pub proof fn leaving_is_counted(set: &mut WorkerSet, left: usize)
    requires
        call_ensures(WorkerSet::decrement_workers, (set,), left),
    ensures
        old(set)@.worker_count > 0 ==> left == old(set)@.worker_count - 1,
        old(set)@.worker_count == 0 ==> left == 0,
        old(set)@.worker_count >= 0 ==> final(set)@ == (WorkerSetView {
            worker_count: left as int,
            ..old(set)@
        }),
{
}

/// Text is parsed as the card of a set says.
pub proof fn parsed_as_card_says(set: &WorkerSet, card: &ModelDeploymentCard, options: ParsingOptions)
    requires
        call_ensures(WorkerSet::card, (set,), card),
        call_ensures(WorkerSet::parsing_options, (set,), options),
    ensures
        match (card.runtime_config.tool_call_parser, options.tool_call_parser) {
            (Some(a), Some(b)) => a@ == b@,
            (None, None) => true,
            _ => false,
        },
        match (card.runtime_config.reasoning_parser, options.reasoning_parser) {
            (Some(a), Some(b)) => a@ == b@,
            (None, None) => true,
            _ => false,
        },
{
}

/// A duplicate of a card says in everything the same.
pub proof fn duplicate_card_same(card: &ModelDeploymentCard, copy: ModelDeploymentCard)
    requires
        call_ensures(ModelDeploymentCard::duplicate, (card,), copy),
    ensures
        copy.details@ == card.details@,
        match (card.runtime_config.tool_call_parser, copy.runtime_config.tool_call_parser) {
            (Some(a), Some(b)) => a@ == b@,
            (None, None) => true,
            _ => false,
        },
        match (card.runtime_config.reasoning_parser, copy.runtime_config.reasoning_parser) {
            (Some(a), Some(b)) => a@ == b@,
            (None, None) => true,
            _ => false,
        },
        match (
            card.runtime_config.disaggregated_endpoint,
            copy.runtime_config.disaggregated_endpoint,
        ) {
            (Some(a), Some(b)) => same_half(a, b),
            (None, None) => true,
            _ => false,
        },
{
}

/// A new set gives back what it was made of, and has no worker.
pub proof fn new_set_gives_back(
    namespace: String,
    mdcsum: String,
    card: ModelDeploymentCard,
    set: WorkerSet,
    its_namespace: &str,
    its_mdcsum: &str,
    its_card: &ModelDeploymentCard,
    count: usize,
    prefill: bool,
)
    requires
        call_ensures(WorkerSet::new, (namespace, mdcsum, card), set),
        call_ensures(WorkerSet::namespace, (&set,), its_namespace),
        call_ensures(WorkerSet::mdcsum, (&set,), its_mdcsum),
        call_ensures(WorkerSet::card, (&set,), its_card),
        call_ensures(WorkerSet::worker_count, (&set,), count),
        call_ensures(WorkerSet::is_prefill_set, (&set,), prefill),
    ensures
        its_namespace@ == namespace@,
        its_mdcsum@ == mdcsum@,
        its_card@ == card@,
        count == 0,
        prefill,
{
}

/// A set has an engine of a kind where it gives one out, and can be asked for what it
/// has: for decoding with an engine for chat completions or completions, and for
/// prefill without any engine.
pub proof fn asked_for_what_it_has(
    set: &WorkerSet,
    chat: Option<OpenAIChatCompletionsStreamingEngine>,
    completions: Option<OpenAICompletionsStreamingEngine>,
    embeddings: Option<OpenAIEmbeddingsStreamingEngine>,
    images: Option<OpenAIImagesStreamingEngine>,
    tensor: Option<TensorStreamingEngine>,
    holds: Seq<bool>,
    offers: Seq<bool>,
)
    requires
        holds.len() == 7,
        offers.len() == 7,
        call_ensures(WorkerSet::chat, (set,), chat),
        call_ensures(WorkerSet::completions, (set,), completions),
        call_ensures(WorkerSet::embeddings, (set,), embeddings),
        call_ensures(WorkerSet::images, (set,), images),
        call_ensures(WorkerSet::tensor, (set,), tensor),
        call_ensures(WorkerSet::has_chat_engine, (set,), holds[0]),
        call_ensures(WorkerSet::has_completions_engine, (set,), holds[1]),
        call_ensures(WorkerSet::has_embeddings_engine, (set,), holds[2]),
        call_ensures(WorkerSet::has_images_engine, (set,), holds[3]),
        call_ensures(WorkerSet::has_tensor_engine, (set,), holds[4]),
        call_ensures(WorkerSet::has_decode_engine, (set,), holds[5]),
        call_ensures(WorkerSet::is_prefill_set, (set,), holds[6]),
        call_ensures(WorkerSet::offers, (set, Service::Chat), offers[0]),
        call_ensures(WorkerSet::offers, (set, Service::Completions), offers[1]),
        call_ensures(WorkerSet::offers, (set, Service::Embeddings), offers[2]),
        call_ensures(WorkerSet::offers, (set, Service::Images), offers[3]),
        call_ensures(WorkerSet::offers, (set, Service::Tensor), offers[4]),
        call_ensures(WorkerSet::offers, (set, Service::Decode), offers[5]),
        call_ensures(WorkerSet::offers, (set, Service::Prefill), offers[6]),
    ensures
        holds[0] <==> chat is Some,
        holds[1] <==> completions is Some,
        holds[2] <==> embeddings is Some,
        holds[3] <==> images is Some,
        holds[4] <==> tensor is Some,
        holds[5] <==> holds[0] || holds[1],
        holds[6] <==> !holds[0] && !holds[1] && !holds[2] && !holds[3] && !holds[4],
        forall|i: int| 0 <= i < 7 ==> #[trigger] offers[i] == holds[i],
{
    assert(offers[0] == holds[0] && offers[1] == holds[1] && offers[2] == holds[2] && offers[3] == holds[3]
        && offers[4] == holds[4] && offers[5] == holds[5] && offers[6] == holds[6]);
    assert forall|i: int| 0 <= i < 7 implies #[trigger] offers[i] == holds[i] by {
        assert(i == 0 || i == 1 || i == 2 || i == 3 || i == 4 || i == 5 || i == 6);
    }
}

/// A set gives out the monitor that it was given, and the engines that it had.
pub proof fn monitor_is_given_out(
    set: WorkerSet,
    monitor: KvWorkerMonitor,
    monitored: WorkerSet,
    given: Option<KvWorkerMonitor>,
    asked: bool,
    before: Option<OpenAIChatCompletionsStreamingEngine>,
    after: Option<OpenAIChatCompletionsStreamingEngine>,
)
    requires
        call_ensures(WorkerSet::with_worker_monitor, (set, monitor), monitored),
        call_ensures(WorkerSet::monitor, (&monitored,), given),
        call_ensures(WorkerSet::offers, (&monitored, Service::Monitor), asked),
        call_ensures(WorkerSet::chat, (&set,), before),
        call_ensures(WorkerSet::chat, (&monitored,), after),
    ensures
        given == Some(monitor),
        asked,
        after == before,
        monitored@ == (WorkerSetView { worker_monitor: Some(monitor), ..set@ }),
{
}

/// New thresholds reach the monitor of a set, where it has one; the monitor watches
/// the same as before, and nothing else of the set changes.
pub proof fn thresholds_reach_monitor(
    set: &mut WorkerSet,
    config: LoadThresholdConfig,
    before: Option<KvWorkerMonitor>,
    after: Option<KvWorkerMonitor>,
)
    requires
        call_ensures(WorkerSet::monitor, (&*old(set),), before),
        call_ensures(WorkerSet::set_load_threshold_config, (set, config), ()),
        call_ensures(WorkerSet::monitor, (&*final(set),), after),
    ensures
        before is None ==> after is None,
        before matches Some(m) ==> after == Some(KvWorkerMonitor { client: m.client, config }),
        final(set)@ == (WorkerSetView { worker_monitor: after, ..old(set)@ }),
{
}

/// Whether two endpoints have the same host and the same port.
pub open spec fn same_half(a: DisaggregatedEndpoint, b: DisaggregatedEndpoint) -> bool {
    &&& a.bootstrap_port == b.bootstrap_port
    &&& match (a.bootstrap_host, b.bootstrap_host) {
        (Some(x), Some(y)) => x@ == y@,
        (None, None) => true,
        _ => false,
    }
}

} // verus!
