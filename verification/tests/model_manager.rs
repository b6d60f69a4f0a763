use dynamo_llm::discovery::endpoints::{Endpoint, EndpointId, RuntimeConfigWatch};
use dynamo_llm::discovery::model_manager::{
    ModelManager, ModelManagerError, PrefillDelivery, PrefillError, PrefillWait,
};
use dynamo_llm::discovery::registry::{PairRegistry, Registry};
use dynamo_llm::discovery::worker_set::{
    Client, DisaggregatedEndpoint, KvWorkerMonitor, LoadThresholdConfig, ModelDeploymentCard,
    ModelRuntimeConfig, OpenAIChatCompletionsStreamingEngine, OpenAICompletionsStreamingEngine,
    OpenAIEmbeddingsStreamingEngine, OpenAIImagesStreamingEngine, TensorStreamingEngine, WorkerSet,
};
use dynamo_llm::json::JsonValue;
use std::collections::HashMap;

fn set(namespace: &str, sum: &str) -> WorkerSet {
    WorkerSet::new(
        namespace.to_string(),
        sum.to_string(),
        ModelDeploymentCard::default(),
    )
}

fn card(parser: &str) -> ModelDeploymentCard {
    ModelDeploymentCard {
        runtime_config: ModelRuntimeConfig {
            tool_call_parser: Some(parser.to_string()),
            reasoning_parser: Some("r".to_string()),
            disaggregated_endpoint: None,
        },
        details: JsonValue::String(parser.to_string()),
    }
}

fn not_found<T>(result: Result<T, ModelManagerError>, model: &str) -> bool {
    matches!(result, Err(ModelManagerError::ModelNotFound(name)) if name == model)
}

#[test]
fn a_registry_holds_values_by_name() {
    let mut registry: Registry<u32> = Registry::new();
    assert!(registry.get("a").is_none());
    registry.put("a", 1);
    registry.put("b", 2);
    registry.put("a", 3);
    assert_eq!(registry.get("a"), Some(&3));
    let mut names = registry.names();
    names.sort();
    assert_eq!(names, vec!["a", "b"]);
    assert_eq!(registry.take("a"), Some(3));
    assert_eq!(registry.take("a"), None);
    registry.put("c", 4);
    assert!(!registry.has("a"));
    assert_eq!(registry.get("b"), Some(&2));
    assert_eq!(registry.get("c"), Some(&4));
    assert_eq!(registry.names().len(), 2);
}

#[test]
fn models_come_and_go_with_their_sets() {
    let mut manager = ModelManager::new();
    assert!(manager.get_model("m").is_none());
    assert!(manager.get_or_create_model("m").is_empty());
    assert!(manager.get_model("m").is_some());
    manager.remove_model_if_empty("m");
    assert!(manager.get_model("m").is_none());

    manager.add_worker_set("m", "n1", set("n1", "one"));
    manager.add_worker_set("m", "n2", set("n2", "two"));
    manager.remove_model_if_empty("m");
    assert!(manager.get_model("m").is_some());
    assert!(manager.remove_worker_set("m", "n3").is_none());
    assert_eq!(manager.remove_worker_set("m", "n1").unwrap().mdcsum(), "one");
    assert!(manager.get_model("m").is_some());
    assert_eq!(manager.remove_worker_set("m", "n2").unwrap().mdcsum(), "two");
    assert!(manager.get_model("m").is_none());
    assert!(manager.remove_worker_set("m", "n2").is_none());
}

#[test]
fn an_empty_model_goes_with_a_set_it_does_not_have() {
    let mut manager = ModelManager::default();
    manager.get_or_create_model("m");
    assert!(manager.remove_worker_set("m", "n").is_none());
    assert!(manager.get_model("m").is_none());
}

#[test]
fn checksums_are_compared_within_a_namespace() {
    let mut manager = ModelManager::new();
    assert_eq!(manager.is_valid_checksum("m", "n", "x"), None);
    manager.add_worker_set("m", "n", set("n", "x"));
    assert_eq!(manager.is_valid_checksum("m", "n", "x"), Some(true));
    assert_eq!(manager.is_valid_checksum("m", "n", "y"), Some(false));
    assert_eq!(manager.is_valid_checksum("m", "other", "y"), None);
}

#[test]
fn cards_are_kept_by_instance() {
    let mut manager = ModelManager::new();
    assert!(manager.get_model_cards().is_empty());
    manager.save_model_card("a", card("p")).unwrap();
    manager.save_model_card("b", card("q")).unwrap();
    manager.save_model_card("a", card("r")).unwrap();
    let mut parsers: Vec<String> = manager
        .get_model_cards()
        .into_iter()
        .map(|c| c.runtime_config.tool_call_parser.unwrap())
        .collect();
    parsers.sort();
    assert_eq!(parsers, vec!["q", "r"]);
    assert_eq!(manager.remove_model_card("a"), Some(card("r")));
    assert_eq!(manager.remove_model_card("a"), None);
}

#[test]
fn local_models_are_added_and_removed() {
    let mut manager = ModelManager::new();
    let chat = OpenAIChatCompletionsStreamingEngine { handle: 1 };
    manager.add_chat_completions_model("m", "sum", chat).unwrap();
    assert!(matches!(
        manager.add_chat_completions_model("m", "sum", chat),
        Err(ModelManagerError::ModelAlreadyExists(name)) if name == "m"
    ));
    assert_eq!(manager.get_chat_completions_engine("m"), Ok(chat));
    assert!(not_found(manager.get_completions_engine("m"), "m"));
    assert!(manager.has_decode_model("m"));
    assert!(!manager.has_prefill_model("m"));
    assert!(manager.has_model_any("m"));
    assert_eq!(
        manager.is_valid_checksum("m", "__local_chat_m", "sum"),
        Some(true)
    );

    let completions = OpenAICompletionsStreamingEngine { handle: 2 };
    manager.add_completions_model("m", "sum", completions).unwrap();
    assert_eq!(manager.get_completions_engine("m"), Ok(completions));
    assert!(manager.add_completions_model("m", "sum", completions).is_err());

    manager.remove_chat_completions_model("m").unwrap();
    assert!(not_found(manager.remove_chat_completions_model("m"), "m"));
    assert!(not_found(manager.get_chat_completions_engine("m"), "m"));
    assert!(manager.has_decode_model("m"));
    manager.remove_completions_model("m").unwrap();
    assert!(manager.get_model("m").is_none());
}

#[test]
fn each_kind_of_local_model() {
    let mut manager = ModelManager::new();
    let embeddings = OpenAIEmbeddingsStreamingEngine { handle: 1 };
    let tensor = TensorStreamingEngine { handle: 2 };
    let images = OpenAIImagesStreamingEngine { handle: 3 };
    manager.add_embeddings_model("e", "s", embeddings).unwrap();
    manager.add_tensor_model("t", "s", tensor).unwrap();
    manager.add_images_model("i", "s", images).unwrap();
    manager.add_prefill_model("p", "s").unwrap();
    assert!(manager.add_embeddings_model("e", "s", embeddings).is_err());
    assert!(manager.add_tensor_model("t", "s", tensor).is_err());
    assert!(manager.add_images_model("i", "s", images).is_err());
    assert!(manager.add_prefill_model("p", "s").is_err());
    assert_eq!(manager.get_embeddings_engine("e"), Ok(embeddings));
    assert_eq!(manager.get_tensor_engine("t"), Ok(tensor));
    assert_eq!(manager.get_images_engine("i"), Ok(images));
    assert!(manager.has_prefill_model("p"));
    assert!(!manager.has_model_any("e"));
    assert_eq!(manager.list_embeddings_models(), vec!["e"]);
    assert_eq!(manager.list_tensor_models(), vec!["t"]);
    assert_eq!(manager.list_prefill_models(), vec!["p"]);
    assert!(manager.list_chat_completions_models().is_empty());
    assert!(manager.list_completions_models().is_empty());
    let mut names = manager.model_display_names();
    names.sort();
    assert_eq!(names, vec!["e", "p", "t"]);
    manager.remove_embeddings_model("e").unwrap();
    manager.remove_tensor_model("t").unwrap();
    manager.remove_images_model("i").unwrap();
    assert!(not_found(manager.remove_embeddings_model("e"), "e"));
    assert!(not_found(manager.remove_tensor_model("t"), "t"));
    assert!(not_found(manager.remove_images_model("i"), "i"));
    assert!(not_found(manager.get_embeddings_engine("e"), "e"));
    assert!(not_found(manager.get_tensor_engine("t"), "t"));
    assert!(not_found(manager.get_images_engine("i"), "i"));
    assert!(manager.remove_model("p").is_some());
    assert!(manager.remove_model("p").is_none());
}

#[test]
fn engine_and_parsing_come_from_one_set() {
    let mut manager = ModelManager::new();
    for (namespace, handle) in [("a", 1), ("b", 2)] {
        let mut ws = WorkerSet::new(namespace.to_string(), "s".to_string(), card(namespace));
        ws.chat_engine = Some(OpenAIChatCompletionsStreamingEngine { handle });
        ws.completions_engine = Some(OpenAICompletionsStreamingEngine { handle });
        manager.add_worker_set("m", namespace, ws);
    }
    manager.add_worker_set("m", "c", set("c", "s"));
    let (engine, parsing) = manager.get_chat_completions_engine_with_parsing("m").unwrap();
    let want = if engine.handle == 1 { "a" } else { "b" };
    assert_eq!(parsing.tool_call_parser, Some(want.to_string()));
    assert_eq!(parsing.reasoning_parser, Some("r".to_string()));
    let (engine, parsing) = manager.get_completions_engine_with_parsing("m").unwrap();
    let want = if engine.handle == 1 { "a" } else { "b" };
    assert_eq!(parsing.tool_call_parser, Some(want.to_string()));
    assert!(not_found(
        manager.get_chat_completions_engine_with_parsing("x"),
        "x"
    ));
    assert!(not_found(manager.get_completions_engine_with_parsing("x"), "x"));
}

#[test]
fn monitors_and_thresholds() {
    let mut manager = ModelManager::new();
    let client = Client { handle: 1 };
    let low = LoadThresholdConfig { handle: 10 };
    let high = LoadThresholdConfig { handle: 20 };
    assert_eq!(manager.get_worker_monitor("m"), None);
    assert_eq!(manager.load_threshold_config("m", Some(low)), None);
    let fresh = manager.get_or_create_worker_monitor("m", client, low);
    assert_eq!(fresh, KvWorkerMonitor { client, config: low });
    assert_eq!(manager.get_worker_monitor("m"), None);

    manager.add_worker_set("m", "n", set("n", "s").with_worker_monitor(fresh));
    manager.add_worker_set("m", "k", set("k", "s"));
    assert_eq!(manager.load_threshold_config("m", None), Some(low));
    let other = Client { handle: 2 };
    let same = manager.get_or_create_worker_monitor("m", other, high);
    assert_eq!(same, KvWorkerMonitor { client, config: high });
    assert_eq!(manager.get_worker_monitor("m"), Some(same));
    assert_eq!(manager.load_threshold_config("m", Some(low)), Some(low));
    assert_eq!(
        manager.list_busy_thresholds(),
        vec![("m".to_string(), low)]
    );
    assert_eq!(manager.load_threshold_config("x", None), None);
}

fn endpoint_id(name: &str) -> EndpointId {
    EndpointId {
        namespace: "ns".to_string(),
        component: "c".to_string(),
        name: name.to_string(),
    }
}

fn endpoint(name: &str) -> Endpoint {
    Endpoint {
        id: endpoint_id(name),
    }
}

#[test]
fn decode_workers_and_prefill_endpoints_meet() {
    let mut manager = ModelManager::new();
    // Decode first.
    let number = match manager.register_prefill_router("m".to_string(), "n") {
        Some(PrefillWait::Waiting(number)) => number,
        other => panic!("unexpected {:?}", other),
    };
    assert_eq!(manager.register_prefill_router("m".to_string(), "n"), None);
    assert_eq!(
        manager.activate_prefill_router("m", "n", endpoint("e")),
        Ok(PrefillDelivery::Deliver(number, endpoint("e")))
    );
    // Prefill first.
    assert_eq!(
        manager.activate_prefill_router("m", "n", endpoint("f")),
        Ok(PrefillDelivery::Kept)
    );
    assert_eq!(
        manager.register_prefill_router("m".to_string(), "n"),
        Some(PrefillWait::Ready(endpoint("f")))
    );
    // Two endpoints: neither is kept.
    manager
        .activate_prefill_router("m", "n", endpoint("g"))
        .unwrap();
    assert_eq!(
        manager.activate_prefill_router("m", "n", endpoint("h")),
        Err(PrefillError::AlreadyActivated)
    );
    match manager.register_prefill_router("m".to_string(), "n") {
        Some(PrefillWait::Waiting(other)) => assert_ne!(other, number),
        other => panic!("unexpected {:?}", other),
    }
    // Another namespace is another meeting.
    assert_eq!(
        manager.activate_prefill_router("m", "n2", endpoint("i")),
        Ok(PrefillDelivery::Kept)
    );
    assert_eq!(manager.remove_prefill_activator("m", "n2"), None);
    assert_eq!(manager.remove_prefill_activator("m", "n2"), None);
    assert!(matches!(
        manager.register_prefill_router("m".to_string(), "n2"),
        Some(PrefillWait::Waiting(_))
    ));
}

fn watch(worker: u64, port: u16) -> RuntimeConfigWatch {
    let mut configs = HashMap::new();
    configs.insert(
        worker,
        ModelRuntimeConfig {
            tool_call_parser: None,
            reasoning_parser: None,
            disaggregated_endpoint: Some(DisaggregatedEndpoint {
                bootstrap_host: Some("h".to_string()),
                bootstrap_port: Some(port),
            }),
        },
    );
    RuntimeConfigWatch { configs }
}

#[test]
fn endpoints_are_watched_once() {
    let mut manager = ModelManager::new();
    let id = endpoint_id("e");
    assert!(manager.runtime_config_watcher(&id).is_none());
    assert!(manager.get_disaggregated_endpoint(&id, 1).is_none());
    assert!(!manager.update_runtime_configs(&id, watch(1, 5)));
    let made = manager.get_or_create_runtime_config_watcher(endpoint_id("e"), watch(1, 7));
    assert_eq!(made.configs, watch(1, 7).configs);
    let kept = manager.get_or_create_runtime_config_watcher(endpoint_id("e"), watch(1, 8));
    assert_eq!(kept.configs, watch(1, 7).configs);
    assert!(manager.runtime_config_watcher(&id).is_some());
    let half = manager.get_disaggregated_endpoint(&id, 1).unwrap();
    assert_eq!(half.bootstrap_host, Some("h".to_string()));
    assert_eq!(half.bootstrap_port, Some(7));
    assert!(manager.get_disaggregated_endpoint(&id, 2).is_none());
    assert!(manager
        .get_disaggregated_endpoint(&endpoint_id("f"), 1)
        .is_none());
    assert!(manager.update_runtime_configs(&id, watch(2, 9)));
    assert!(manager.get_disaggregated_endpoint(&id, 1).is_none());
    assert_eq!(
        manager.get_disaggregated_endpoint(&id, 2).unwrap().bootstrap_port,
        Some(9)
    );
}

#[test]
fn a_registry_holds_values_by_two_names() {
    let mut registry: PairRegistry<u32> = PairRegistry::new();
    registry.put("a:b", "c", 1);
    registry.put("a", "b:c", 2);
    registry.put("a", "c", 3);
    assert_eq!(registry.take("a", "b:c"), Some(2));
    assert_eq!(registry.take("a", "b:c"), None);
    assert_eq!(registry.take("a:b", "c"), Some(1));
    assert_eq!(registry.take("x", "c"), None);
    assert_eq!(registry.take("a", "c"), Some(3));
}

#[test]
fn models_and_namespaces_with_colons_do_not_meet() {
    let mut manager = ModelManager::new();
    assert_eq!(
        manager.register_prefill_router("a:b".to_string(), "c"),
        Some(PrefillWait::Waiting(0))
    );
    assert_eq!(
        manager.register_prefill_router("a".to_string(), "b:c"),
        Some(PrefillWait::Waiting(1))
    );
    assert_eq!(
        manager.activate_prefill_router("a", "b:c", endpoint("e")),
        Ok(PrefillDelivery::Deliver(1, endpoint("e")))
    );
    assert_eq!(manager.remove_prefill_activator("a", "b:c"), None);
    assert_eq!(manager.remove_prefill_activator("a:b", "c"), Some(0));
}
