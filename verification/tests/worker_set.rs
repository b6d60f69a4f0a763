use dynamo_llm::json::JsonValue;
use dynamo_llm::discovery::worker_set::{
    Client, DisaggregatedEndpoint, KvWorkerMonitor, LoadThresholdConfig, ModelDeploymentCard,
    ModelRuntimeConfig, OpenAIChatCompletionsStreamingEngine, OpenAICompletionsStreamingEngine,
    OpenAIEmbeddingsStreamingEngine, OpenAIImagesStreamingEngine, Service, TensorStreamingEngine,
    WorkerSet,
};

fn make_worker_set(namespace: &str, mdcsum: &str) -> WorkerSet {
    WorkerSet::new(
        namespace.to_string(),
        mdcsum.to_string(),
        ModelDeploymentCard::default(),
    )
}

#[test]
fn test_worker_set_basics() {
    let ws = make_worker_set("ns1", "abc123");
    assert_eq!(ws.namespace(), "ns1");
    assert_eq!(ws.mdcsum(), "abc123");
}

#[test]
fn test_no_engines_by_default() {
    let ws = make_worker_set("ns1", "abc123");
    assert!(!ws.has_chat_engine());
    assert!(!ws.has_completions_engine());
    assert!(!ws.has_embeddings_engine());
    assert!(!ws.has_images_engine());
    assert!(!ws.has_tensor_engine());
    assert!(!ws.has_decode_engine());
    assert!(ws.is_prefill_set());
}

#[test]
fn test_worker_count_increment() {
    let mut ws = make_worker_set("ns1", "abc123");
    assert_eq!(ws.worker_count(), 0);
    assert_eq!(ws.increment_workers(), 1);
    assert_eq!(ws.increment_workers(), 2);
    assert_eq!(ws.increment_workers(), 3);
    assert_eq!(ws.worker_count(), 3);
}

#[test]
fn test_worker_count_decrement() {
    let mut ws = make_worker_set("ns1", "abc123");
    ws.increment_workers();
    ws.increment_workers();
    ws.increment_workers();
    assert_eq!(ws.decrement_workers(), 2);
    assert_eq!(ws.decrement_workers(), 1);
    assert_eq!(ws.decrement_workers(), 0);
    assert_eq!(ws.worker_count(), 0);
}

#[test]
fn test_worker_count_decrement_at_zero() {
    let mut ws = make_worker_set("ns1", "abc123");
    assert_eq!(ws.decrement_workers(), 0);
    assert_eq!(ws.decrement_workers(), 0);
    assert_eq!(ws.worker_count(), 0);
}

#[test]
fn each_engine_is_reported() {
    let mut ws = make_worker_set("ns", "sum");
    ws.embeddings_engine = Some(OpenAIEmbeddingsStreamingEngine { handle: 1 });
    assert!(ws.has_embeddings_engine());
    assert!(!ws.is_prefill_set());
    assert!(!ws.has_decode_engine());

    let mut ws = make_worker_set("ns", "sum");
    ws.images_engine = Some(OpenAIImagesStreamingEngine { handle: 2 });
    assert!(ws.has_images_engine());
    assert!(!ws.is_prefill_set());

    let mut ws = make_worker_set("ns", "sum");
    ws.tensor_engine = Some(TensorStreamingEngine { handle: 3 });
    assert!(ws.has_tensor_engine());
    assert!(!ws.is_prefill_set());

    let mut ws = make_worker_set("ns", "sum");
    ws.completions_engine = Some(OpenAICompletionsStreamingEngine { handle: 4 });
    assert!(ws.has_decode_engine());
    assert!(!ws.has_chat_engine());

    let mut ws = make_worker_set("ns", "sum");
    ws.chat_engine = Some(OpenAIChatCompletionsStreamingEngine { handle: 5 });
    assert!(ws.has_decode_engine());
    assert!(ws.offers(Service::Chat));
    assert!(ws.offers(Service::Decode));
    assert!(!ws.offers(Service::Prefill));
    assert!(!ws.offers(Service::Monitor));
}

#[test]
fn parsing_options_come_from_the_card() {
    let card = ModelDeploymentCard {
        runtime_config: ModelRuntimeConfig {
            tool_call_parser: Some("hermes".to_string()),
            reasoning_parser: None,
            disaggregated_endpoint: Some(DisaggregatedEndpoint {
                bootstrap_host: Some("host".to_string()),
                bootstrap_port: Some(9),
            }),
        },
        details: JsonValue::Bool(true),
    };
    let ws = WorkerSet::new("ns".to_string(), "sum".to_string(), card);
    let options = ws.parsing_options();
    assert_eq!(options.tool_call_parser, Some("hermes".to_string()));
    assert_eq!(options.reasoning_parser, None);
    assert_eq!(ws.card().details, JsonValue::Bool(true));
    assert_eq!(ws.card(), &ws.card().duplicate());
}

#[test]
fn thresholds_of_a_monitor_can_change() {
    let mut ws = make_worker_set("ns", "sum").with_worker_monitor(KvWorkerMonitor::new(
        Client { handle: 1 },
        LoadThresholdConfig { handle: 2 },
    ));
    ws.set_load_threshold_config(LoadThresholdConfig { handle: 3 });
    let monitor = ws.monitor().unwrap();
    assert_eq!(monitor.config.handle, 3);
    assert_eq!(monitor.client.handle, 1);

    let mut ws = make_worker_set("ns", "sum");
    ws.set_load_threshold_config(LoadThresholdConfig { handle: 3 });
    assert!(ws.monitor().is_none());
}

#[test]
fn a_worker_that_joins_and_leaves_leaves_the_count_as_it_was() {
    let mut ws = make_worker_set("ns", "sum");
    ws.increment_workers();
    let before = ws.worker_count();
    ws.increment_workers();
    assert_eq!(ws.decrement_workers(), before);
}
