//! What holds of a manager of models over several calls, stated on what goes in and
//! what comes out.

use crate::discovery::endpoints::{Endpoint, EndpointId, RuntimeConfigWatch};
use crate::discovery::model::{no_sets, offered, offers_in, Model};
use crate::discovery::model_manager;
use crate::discovery::model_manager::{
    served, sets_of, ManagerView, ModelManager, ModelManagerError, PrefillDelivery, PrefillError,
    PrefillWait,
};
use crate::discovery::worker_set::{
    same_half, Client, DisaggregatedEndpoint, KvWorkerMonitor, LoadThresholdConfig,
    ModelDeploymentCard, OpenAIChatCompletionsStreamingEngine, OpenAICompletionsStreamingEngine,
    OpenAIEmbeddingsStreamingEngine, OpenAIImagesStreamingEngine, ParsingOptions, Service,
    TensorStreamingEngine, WorkerSet, WorkerSetView,
};
use crate::text;
use vstd::prelude::*;

verus! {

/// Whether a model has a set of workers under a namespace.
pub open spec fn has_set(
    manager: ManagerView,
    model: Seq<char>,
    namespace: Seq<char>,
    set: WorkerSetView,
) -> bool {
    &&& manager.models.contains_key(model)
    &&& manager.models[model].contains_key(namespace)
    &&& manager.models[model][namespace] == set
}

/// Whether a text is among others.
pub open spec fn names(list: Seq<String>, name: Seq<char>) -> bool {
    exists|i: int| 0 <= i < list.len() && (#[trigger] list[i])@ == name
}

proof fn texts_name(list: Seq<String>, name: Seq<char>)
    ensures
        text::texts(list).contains(name) == names(list, name),
{
    let all = text::texts(list);
    if all.contains(name) {
        let i = choose|i: int| 0 <= i < all.len() && all[i] == name;
        assert(list[i]@ == name);
    }
    if names(list, name) {
        let i = choose|i: int| 0 <= i < list.len() && (#[trigger] list[i])@ == name;
        assert(all[i] == name);
    }
}

/// A model serves what one of its sets offers, and nothing else.
pub proof fn served_by_some_set(manager: ManagerView, model: Seq<char>, service: Service)
    ensures
        served(manager.models, model, service) <==> exists|namespace: Seq<char>, set: WorkerSetView|
            #[trigger] has_set(manager, model, namespace, set) && set.offers(service),
{
    if served(manager.models, model, service) {
        let namespace = choose|namespace: Seq<char>| #[trigger]
            offers_in(manager.models[model], namespace, service);
        assert(offers_in(manager.models[model], namespace, service));
        assert(has_set(manager, model, namespace, manager.models[model][namespace]));
    }
    if exists|namespace: Seq<char>, set: WorkerSetView| #[trigger]
        has_set(manager, model, namespace, set) && set.offers(service) {
        let (namespace, set) = choose|namespace: Seq<char>, set: WorkerSetView| #[trigger]
            has_set(manager, model, namespace, set) && set.offers(service);
        assert(offers_in(manager.models[model], namespace, service));
    }
}

/// Every model that is listed for chat completions, completions, embeddings, tensors
/// or prefill is among the displayed names, and every displayed name is in one of
/// these lists. Images alone do not make a model displayed.
pub proof fn listed_is_displayed(
    manager: &ModelManager,
    displayed: Vec<String>,
    chat: Vec<String>,
    completions: Vec<String>,
    embeddings: Vec<String>,
    tensor: Vec<String>,
    prefill: Vec<String>,
    name: Seq<char>,
)
    requires
        call_ensures(ModelManager::model_display_names, (manager,), displayed),
        call_ensures(ModelManager::list_chat_completions_models, (manager,), chat),
        call_ensures(ModelManager::list_completions_models, (manager,), completions),
        call_ensures(ModelManager::list_embeddings_models, (manager,), embeddings),
        call_ensures(ModelManager::list_tensor_models, (manager,), tensor),
        call_ensures(ModelManager::list_prefill_models, (manager,), prefill),
    ensures
        names(chat@, name) ==> names(displayed@, name),
        names(completions@, name) ==> names(displayed@, name),
        names(embeddings@, name) ==> names(displayed@, name),
        names(tensor@, name) ==> names(displayed@, name),
        names(prefill@, name) ==> names(displayed@, name),
        names(displayed@, name) ==> names(chat@, name) || names(completions@, name) || names(
            embeddings@,
            name,
        ) || names(tensor@, name) || names(prefill@, name),
{
    texts_name(displayed@, name);
    texts_name(chat@, name);
    texts_name(completions@, name);
    texts_name(embeddings@, name);
    texts_name(tensor@, name);
    texts_name(prefill@, name);
    let models = manager@.models;
    assert(text::texts(chat@).contains(name) <==> served(models, name, Service::Chat));
    assert(text::texts(completions@).contains(name) <==> served(
        models,
        name,
        Service::Completions,
    ));
    assert(text::texts(embeddings@).contains(name) <==> served(models, name, Service::Embeddings));
    assert(text::texts(tensor@).contains(name) <==> served(models, name, Service::Tensor));
    assert(text::texts(prefill@).contains(name) <==> served(models, name, Service::Prefill));
}

/// A model is displayed exactly where it serves chat completions, completions,
/// embeddings, tensors or prefill; each displayed name stands once.
pub proof fn displayed_is_served(manager: &ModelManager, displayed: Vec<String>, name: Seq<char>)
    requires
        call_ensures(ModelManager::model_display_names, (manager,), displayed),
    ensures
        served(manager@.models, name, Service::Chat) ==> names(displayed@, name),
        served(manager@.models, name, Service::Completions) ==> names(displayed@, name),
        served(manager@.models, name, Service::Embeddings) ==> names(displayed@, name),
        served(manager@.models, name, Service::Tensor) ==> names(displayed@, name),
        served(manager@.models, name, Service::Prefill) ==> names(displayed@, name),
        names(displayed@, name) ==> served(manager@.models, name, Service::Chat) || served(
            manager@.models,
            name,
            Service::Completions,
        ) || served(manager@.models, name, Service::Embeddings) || served(
            manager@.models,
            name,
            Service::Tensor,
        ) || served(manager@.models, name, Service::Prefill),
        forall|i: int, j: int|
            0 <= i < j < displayed@.len() ==> (#[trigger] displayed@[i])@ != (
            #[trigger] displayed@[j])@,
{
    texts_name(displayed@, name);
    let all = text::texts(displayed@);
    assert(all.contains(name) == names(displayed@, name));
    assert forall|i: int, j: int| 0 <= i < j < displayed@.len() implies (
    #[trigger] displayed@[i])@ != (#[trigger] displayed@[j])@ by {
        assert(all[i] != all[j]);
    }
}

/// A model of this process that answers chat completions is added where none answers them
/// yet, and its engine is then the one that is found and listed. Where one does, there
/// is an error and nothing changes. Adding it twice is such an error.
pub proof fn add_chat_then_ask(
    manager: &mut ModelManager,
    model: &str,
    checksum: &str,
    engine: OpenAIChatCompletionsStreamingEngine,
    added: Result<(), ModelManagerError>,
    found: Result<OpenAIChatCompletionsStreamingEngine, ModelManagerError>,
    list: Vec<String>,
)
    requires
        call_ensures(
            ModelManager::add_chat_completions_model,
            (manager, model, checksum, engine),
            added,
        ),
        call_ensures(ModelManager::get_chat_completions_engine, (&*final(manager), model), found),
        call_ensures(ModelManager::list_chat_completions_models, (&*final(manager),), list),
    ensures
        added is Ok <==> !served(old(manager)@.models, model@, Service::Chat),
        added is Ok ==> found == Ok::<OpenAIChatCompletionsStreamingEngine, ModelManagerError>(engine),
        added is Ok ==> names(list@, model@),
        served(final(manager)@.models, model@, Service::Chat),
        added matches Err(e) ==> (e matches ModelManagerError::ModelAlreadyExists(name) && name@
            == model@) && final(manager)@ == old(manager)@,
{
    texts_name(list@, model@);
    let before = manager@;
    let after = final(manager)@;
    if added is Ok {
        let namespace = "__local_chat_"@ + model@;
        assert(offers_in(after.models[model@], namespace, Service::Chat));
        assert(offered(after.models[model@], Service::Chat));
        if let Ok(got) = found {
            let set = choose|set: WorkerSetView| #[trigger]
                model_manager::among_offering(after.models[model@], Service::Chat, set)
                    && set.chat_engine == Some(got);
            let other = choose|other: Seq<char>| #[trigger]
                offers_in(after.models[model@], other, Service::Chat)
                    && after.models[model@][other] == set;
            if other != namespace {
                assert(offers_in(before.models[model@], other, Service::Chat));
            }
        }
    }
}

/// The engine that is found for chat completions is that of some set of the model; the model
/// is not found where no set has such an engine.
pub proof fn chat_engine_of_some_set(
    manager: &ModelManager,
    model: &str,
    found: Result<OpenAIChatCompletionsStreamingEngine, ModelManagerError>,
)
    requires
        call_ensures(ModelManager::get_chat_completions_engine, (manager, model), found),
    ensures
        found matches Ok(engine) ==> exists|namespace: Seq<char>, set: WorkerSetView| #[trigger]
            has_set(manager@, model@, namespace, set) && set.chat_engine == Some(engine),
        found matches Err(e) ==> (e matches ModelManagerError::ModelNotFound(name) && name@
            == model@) && forall|namespace: Seq<char>, set: WorkerSetView| #[trigger]
            has_set(manager@, model@, namespace, set) ==> set.chat_engine is None,
{
    served_by_some_set(manager@, model@, Service::Chat);
    if let Ok(engine) = found {
        let set = choose|set: WorkerSetView| #[trigger]
            model_manager::among_offering(manager@.models[model@], Service::Chat, set)
                && set.chat_engine == Some(engine);
        let namespace = choose|namespace: Seq<char>| #[trigger]
            offers_in(manager@.models[model@], namespace, Service::Chat)
                && manager@.models[model@][namespace] == set;
        assert(has_set(manager@, model@, namespace, set));
    }
}

/// Removing what this process added of a model for chat completions takes just that away: all
/// is then as before it was added.
pub proof fn add_then_remove_chat(
    first: &mut ModelManager,
    second: &mut ModelManager,
    model: &str,
    checksum: &str,
    engine: OpenAIChatCompletionsStreamingEngine,
    removed: Result<(), ModelManagerError>,
)
    requires
        call_ensures(
            ModelManager::add_chat_completions_model,
            (first, model, checksum, engine),
            Ok::<(), ModelManagerError>(()),
        ),
        final(first)@ == old(second)@,
        call_ensures(ModelManager::remove_chat_completions_model, (second, model), removed),
        old(first)@.models.contains_key(model@) ==> exists|namespace: Seq<char>| #[trigger]
            old(first)@.models[model@].contains_key(namespace),
        old(first)@.models.contains_key(model@) ==> !old(first)@.models[model@].contains_key(
            "__local_chat_"@ + model@,
        ),
    ensures
        removed is Ok,
        final(second)@ == old(first)@,
{
    let before = first@;
    let namespace = "__local_chat_"@ + model@;
    if before.models.contains_key(model@) {
        let other = choose|other: Seq<char>| #[trigger]
            before.models[model@].contains_key(other);
        assert(before.models[model@].dom().contains(other));
    }
    model_manager::added_then_removed(
        before.models,
        model@,
        namespace,
        second@.models[model@][namespace],
    );
    assert(second@.models[model@].contains_key(namespace));
    assert(final(second)@ =~= before);
}

/// A model of this process that answers completions is added where none answers them
/// yet, and its engine is then the one that is found and listed. Where one does, there
/// is an error and nothing changes. Adding it twice is such an error.
pub proof fn add_completions_then_ask(
    manager: &mut ModelManager,
    model: &str,
    checksum: &str,
    engine: OpenAICompletionsStreamingEngine,
    added: Result<(), ModelManagerError>,
    found: Result<OpenAICompletionsStreamingEngine, ModelManagerError>,
    list: Vec<String>,
)
    requires
        call_ensures(
            ModelManager::add_completions_model,
            (manager, model, checksum, engine),
            added,
        ),
        call_ensures(ModelManager::get_completions_engine, (&*final(manager), model), found),
        call_ensures(ModelManager::list_completions_models, (&*final(manager),), list),
    ensures
        added is Ok <==> !served(old(manager)@.models, model@, Service::Completions),
        added is Ok ==> found == Ok::<OpenAICompletionsStreamingEngine, ModelManagerError>(engine),
        added is Ok ==> names(list@, model@),
        served(final(manager)@.models, model@, Service::Completions),
        added matches Err(e) ==> (e matches ModelManagerError::ModelAlreadyExists(name) && name@
            == model@) && final(manager)@ == old(manager)@,
{
    texts_name(list@, model@);
    let before = manager@;
    let after = final(manager)@;
    if added is Ok {
        let namespace = "__local_completions_"@ + model@;
        assert(offers_in(after.models[model@], namespace, Service::Completions));
        assert(offered(after.models[model@], Service::Completions));
        if let Ok(got) = found {
            let set = choose|set: WorkerSetView| #[trigger]
                model_manager::among_offering(after.models[model@], Service::Completions, set)
                    && set.completions_engine == Some(got);
            let other = choose|other: Seq<char>| #[trigger]
                offers_in(after.models[model@], other, Service::Completions)
                    && after.models[model@][other] == set;
            if other != namespace {
                assert(offers_in(before.models[model@], other, Service::Completions));
            }
        }
    }
}

/// The engine that is found for completions is that of some set of the model; the model
/// is not found where no set has such an engine.
pub proof fn completions_engine_of_some_set(
    manager: &ModelManager,
    model: &str,
    found: Result<OpenAICompletionsStreamingEngine, ModelManagerError>,
)
    requires
        call_ensures(ModelManager::get_completions_engine, (manager, model), found),
    ensures
        found matches Ok(engine) ==> exists|namespace: Seq<char>, set: WorkerSetView| #[trigger]
            has_set(manager@, model@, namespace, set) && set.completions_engine == Some(engine),
        found matches Err(e) ==> (e matches ModelManagerError::ModelNotFound(name) && name@
            == model@) && forall|namespace: Seq<char>, set: WorkerSetView| #[trigger]
            has_set(manager@, model@, namespace, set) ==> set.completions_engine is None,
{
    served_by_some_set(manager@, model@, Service::Completions);
    if let Ok(engine) = found {
        let set = choose|set: WorkerSetView| #[trigger]
            model_manager::among_offering(manager@.models[model@], Service::Completions, set)
                && set.completions_engine == Some(engine);
        let namespace = choose|namespace: Seq<char>| #[trigger]
            offers_in(manager@.models[model@], namespace, Service::Completions)
                && manager@.models[model@][namespace] == set;
        assert(has_set(manager@, model@, namespace, set));
    }
}

/// Removing what this process added of a model for completions takes just that away: all
/// is then as before it was added.
pub proof fn add_then_remove_completions(
    first: &mut ModelManager,
    second: &mut ModelManager,
    model: &str,
    checksum: &str,
    engine: OpenAICompletionsStreamingEngine,
    removed: Result<(), ModelManagerError>,
)
    requires
        call_ensures(
            ModelManager::add_completions_model,
            (first, model, checksum, engine),
            Ok::<(), ModelManagerError>(()),
        ),
        final(first)@ == old(second)@,
        call_ensures(ModelManager::remove_completions_model, (second, model), removed),
        old(first)@.models.contains_key(model@) ==> exists|namespace: Seq<char>| #[trigger]
            old(first)@.models[model@].contains_key(namespace),
        old(first)@.models.contains_key(model@) ==> !old(first)@.models[model@].contains_key(
            "__local_completions_"@ + model@,
        ),
    ensures
        removed is Ok,
        final(second)@ == old(first)@,
{
    let before = first@;
    let namespace = "__local_completions_"@ + model@;
    if before.models.contains_key(model@) {
        let other = choose|other: Seq<char>| #[trigger]
            before.models[model@].contains_key(other);
        assert(before.models[model@].dom().contains(other));
    }
    model_manager::added_then_removed(
        before.models,
        model@,
        namespace,
        second@.models[model@][namespace],
    );
    assert(second@.models[model@].contains_key(namespace));
    assert(final(second)@ =~= before);
}

/// A model of this process that answers embeddings is added where none answers them
/// yet, and its engine is then the one that is found and listed. Where one does, there
/// is an error and nothing changes. Adding it twice is such an error.
pub proof fn add_embeddings_then_ask(
    manager: &mut ModelManager,
    model: &str,
    checksum: &str,
    engine: OpenAIEmbeddingsStreamingEngine,
    added: Result<(), ModelManagerError>,
    found: Result<OpenAIEmbeddingsStreamingEngine, ModelManagerError>,
    list: Vec<String>,
)
    requires
        call_ensures(
            ModelManager::add_embeddings_model,
            (manager, model, checksum, engine),
            added,
        ),
        call_ensures(ModelManager::get_embeddings_engine, (&*final(manager), model), found),
        call_ensures(ModelManager::list_embeddings_models, (&*final(manager),), list),
    ensures
        added is Ok <==> !served(old(manager)@.models, model@, Service::Embeddings),
        added is Ok ==> found == Ok::<OpenAIEmbeddingsStreamingEngine, ModelManagerError>(engine),
        added is Ok ==> names(list@, model@),
        served(final(manager)@.models, model@, Service::Embeddings),
        added matches Err(e) ==> (e matches ModelManagerError::ModelAlreadyExists(name) && name@
            == model@) && final(manager)@ == old(manager)@,
{
    texts_name(list@, model@);
    let before = manager@;
    let after = final(manager)@;
    if added is Ok {
        let namespace = "__local_embeddings_"@ + model@;
        assert(offers_in(after.models[model@], namespace, Service::Embeddings));
        assert(offered(after.models[model@], Service::Embeddings));
        if let Ok(got) = found {
            let set = choose|set: WorkerSetView| #[trigger]
                model_manager::among_offering(after.models[model@], Service::Embeddings, set)
                    && set.embeddings_engine == Some(got);
            let other = choose|other: Seq<char>| #[trigger]
                offers_in(after.models[model@], other, Service::Embeddings)
                    && after.models[model@][other] == set;
            if other != namespace {
                assert(offers_in(before.models[model@], other, Service::Embeddings));
            }
        }
    }
}

/// The engine that is found for embeddings is that of some set of the model; the model
/// is not found where no set has such an engine.
pub proof fn embeddings_engine_of_some_set(
    manager: &ModelManager,
    model: &str,
    found: Result<OpenAIEmbeddingsStreamingEngine, ModelManagerError>,
)
    requires
        call_ensures(ModelManager::get_embeddings_engine, (manager, model), found),
    ensures
        found matches Ok(engine) ==> exists|namespace: Seq<char>, set: WorkerSetView| #[trigger]
            has_set(manager@, model@, namespace, set) && set.embeddings_engine == Some(engine),
        found matches Err(e) ==> (e matches ModelManagerError::ModelNotFound(name) && name@
            == model@) && forall|namespace: Seq<char>, set: WorkerSetView| #[trigger]
            has_set(manager@, model@, namespace, set) ==> set.embeddings_engine is None,
{
    served_by_some_set(manager@, model@, Service::Embeddings);
    if let Ok(engine) = found {
        let set = choose|set: WorkerSetView| #[trigger]
            model_manager::among_offering(manager@.models[model@], Service::Embeddings, set)
                && set.embeddings_engine == Some(engine);
        let namespace = choose|namespace: Seq<char>| #[trigger]
            offers_in(manager@.models[model@], namespace, Service::Embeddings)
                && manager@.models[model@][namespace] == set;
        assert(has_set(manager@, model@, namespace, set));
    }
}

/// Removing what this process added of a model for embeddings takes just that away: all
/// is then as before it was added.
pub proof fn add_then_remove_embeddings(
    first: &mut ModelManager,
    second: &mut ModelManager,
    model: &str,
    checksum: &str,
    engine: OpenAIEmbeddingsStreamingEngine,
    removed: Result<(), ModelManagerError>,
)
    requires
        call_ensures(
            ModelManager::add_embeddings_model,
            (first, model, checksum, engine),
            Ok::<(), ModelManagerError>(()),
        ),
        final(first)@ == old(second)@,
        call_ensures(ModelManager::remove_embeddings_model, (second, model), removed),
        old(first)@.models.contains_key(model@) ==> exists|namespace: Seq<char>| #[trigger]
            old(first)@.models[model@].contains_key(namespace),
        old(first)@.models.contains_key(model@) ==> !old(first)@.models[model@].contains_key(
            "__local_embeddings_"@ + model@,
        ),
    ensures
        removed is Ok,
        final(second)@ == old(first)@,
{
    let before = first@;
    let namespace = "__local_embeddings_"@ + model@;
    if before.models.contains_key(model@) {
        let other = choose|other: Seq<char>| #[trigger]
            before.models[model@].contains_key(other);
        assert(before.models[model@].dom().contains(other));
    }
    model_manager::added_then_removed(
        before.models,
        model@,
        namespace,
        second@.models[model@][namespace],
    );
    assert(second@.models[model@].contains_key(namespace));
    assert(final(second)@ =~= before);
}

/// A model of this process that answers tensors is added where none answers them
/// yet, and its engine is then the one that is found and listed. Where one does, there
/// is an error and nothing changes. Adding it twice is such an error.
pub proof fn add_tensor_then_ask(
    manager: &mut ModelManager,
    model: &str,
    checksum: &str,
    engine: TensorStreamingEngine,
    added: Result<(), ModelManagerError>,
    found: Result<TensorStreamingEngine, ModelManagerError>,
    list: Vec<String>,
)
    requires
        call_ensures(
            ModelManager::add_tensor_model,
            (manager, model, checksum, engine),
            added,
        ),
        call_ensures(ModelManager::get_tensor_engine, (&*final(manager), model), found),
        call_ensures(ModelManager::list_tensor_models, (&*final(manager),), list),
    ensures
        added is Ok <==> !served(old(manager)@.models, model@, Service::Tensor),
        added is Ok ==> found == Ok::<TensorStreamingEngine, ModelManagerError>(engine),
        added is Ok ==> names(list@, model@),
        served(final(manager)@.models, model@, Service::Tensor),
        added matches Err(e) ==> (e matches ModelManagerError::ModelAlreadyExists(name) && name@
            == model@) && final(manager)@ == old(manager)@,
{
    texts_name(list@, model@);
    let before = manager@;
    let after = final(manager)@;
    if added is Ok {
        let namespace = "__local_tensor_"@ + model@;
        assert(offers_in(after.models[model@], namespace, Service::Tensor));
        assert(offered(after.models[model@], Service::Tensor));
        if let Ok(got) = found {
            let set = choose|set: WorkerSetView| #[trigger]
                model_manager::among_offering(after.models[model@], Service::Tensor, set)
                    && set.tensor_engine == Some(got);
            let other = choose|other: Seq<char>| #[trigger]
                offers_in(after.models[model@], other, Service::Tensor)
                    && after.models[model@][other] == set;
            if other != namespace {
                assert(offers_in(before.models[model@], other, Service::Tensor));
            }
        }
    }
}

/// The engine that is found for tensors is that of some set of the model; the model
/// is not found where no set has such an engine.
pub proof fn tensor_engine_of_some_set(
    manager: &ModelManager,
    model: &str,
    found: Result<TensorStreamingEngine, ModelManagerError>,
)
    requires
        call_ensures(ModelManager::get_tensor_engine, (manager, model), found),
    ensures
        found matches Ok(engine) ==> exists|namespace: Seq<char>, set: WorkerSetView| #[trigger]
            has_set(manager@, model@, namespace, set) && set.tensor_engine == Some(engine),
        found matches Err(e) ==> (e matches ModelManagerError::ModelNotFound(name) && name@
            == model@) && forall|namespace: Seq<char>, set: WorkerSetView| #[trigger]
            has_set(manager@, model@, namespace, set) ==> set.tensor_engine is None,
{
    served_by_some_set(manager@, model@, Service::Tensor);
    if let Ok(engine) = found {
        let set = choose|set: WorkerSetView| #[trigger]
            model_manager::among_offering(manager@.models[model@], Service::Tensor, set)
                && set.tensor_engine == Some(engine);
        let namespace = choose|namespace: Seq<char>| #[trigger]
            offers_in(manager@.models[model@], namespace, Service::Tensor)
                && manager@.models[model@][namespace] == set;
        assert(has_set(manager@, model@, namespace, set));
    }
}

/// Removing what this process added of a model for tensors takes just that away: all
/// is then as before it was added.
pub proof fn add_then_remove_tensor(
    first: &mut ModelManager,
    second: &mut ModelManager,
    model: &str,
    checksum: &str,
    engine: TensorStreamingEngine,
    removed: Result<(), ModelManagerError>,
)
    requires
        call_ensures(
            ModelManager::add_tensor_model,
            (first, model, checksum, engine),
            Ok::<(), ModelManagerError>(()),
        ),
        final(first)@ == old(second)@,
        call_ensures(ModelManager::remove_tensor_model, (second, model), removed),
        old(first)@.models.contains_key(model@) ==> exists|namespace: Seq<char>| #[trigger]
            old(first)@.models[model@].contains_key(namespace),
        old(first)@.models.contains_key(model@) ==> !old(first)@.models[model@].contains_key(
            "__local_tensor_"@ + model@,
        ),
    ensures
        removed is Ok,
        final(second)@ == old(first)@,
{
    let before = first@;
    let namespace = "__local_tensor_"@ + model@;
    if before.models.contains_key(model@) {
        let other = choose|other: Seq<char>| #[trigger]
            before.models[model@].contains_key(other);
        assert(before.models[model@].dom().contains(other));
    }
    model_manager::added_then_removed(
        before.models,
        model@,
        namespace,
        second@.models[model@][namespace],
    );
    assert(second@.models[model@].contains_key(namespace));
    assert(final(second)@ =~= before);
}

/// A model of this process that answers images is added where none answers them
/// yet, and its engine is then the one that is found. Where one does, there
/// is an error and nothing changes. Adding it twice is such an error.
pub proof fn add_images_then_ask(
    manager: &mut ModelManager,
    model: &str,
    checksum: &str,
    engine: OpenAIImagesStreamingEngine,
    added: Result<(), ModelManagerError>,
    found: Result<OpenAIImagesStreamingEngine, ModelManagerError>,
)
    requires
        call_ensures(
            ModelManager::add_images_model,
            (manager, model, checksum, engine),
            added,
        ),
        call_ensures(ModelManager::get_images_engine, (&*final(manager), model), found),
    ensures
        added is Ok <==> !served(old(manager)@.models, model@, Service::Images),
        added is Ok ==> found == Ok::<OpenAIImagesStreamingEngine, ModelManagerError>(engine),
        served(final(manager)@.models, model@, Service::Images),
        added matches Err(e) ==> (e matches ModelManagerError::ModelAlreadyExists(name) && name@
            == model@) && final(manager)@ == old(manager)@,
{
    let before = manager@;
    let after = final(manager)@;
    if added is Ok {
        let namespace = "__local_images_"@ + model@;
        assert(offers_in(after.models[model@], namespace, Service::Images));
        assert(offered(after.models[model@], Service::Images));
        if let Ok(got) = found {
            let set = choose|set: WorkerSetView| #[trigger]
                model_manager::among_offering(after.models[model@], Service::Images, set)
                    && set.images_engine == Some(got);
            let other = choose|other: Seq<char>| #[trigger]
                offers_in(after.models[model@], other, Service::Images)
                    && after.models[model@][other] == set;
            if other != namespace {
                assert(offers_in(before.models[model@], other, Service::Images));
            }
        }
    }
}

/// The engine that is found for images is that of some set of the model; the model
/// is not found where no set has such an engine.
pub proof fn images_engine_of_some_set(
    manager: &ModelManager,
    model: &str,
    found: Result<OpenAIImagesStreamingEngine, ModelManagerError>,
)
    requires
        call_ensures(ModelManager::get_images_engine, (manager, model), found),
    ensures
        found matches Ok(engine) ==> exists|namespace: Seq<char>, set: WorkerSetView| #[trigger]
            has_set(manager@, model@, namespace, set) && set.images_engine == Some(engine),
        found matches Err(e) ==> (e matches ModelManagerError::ModelNotFound(name) && name@
            == model@) && forall|namespace: Seq<char>, set: WorkerSetView| #[trigger]
            has_set(manager@, model@, namespace, set) ==> set.images_engine is None,
{
    served_by_some_set(manager@, model@, Service::Images);
    if let Ok(engine) = found {
        let set = choose|set: WorkerSetView| #[trigger]
            model_manager::among_offering(manager@.models[model@], Service::Images, set)
                && set.images_engine == Some(engine);
        let namespace = choose|namespace: Seq<char>| #[trigger]
            offers_in(manager@.models[model@], namespace, Service::Images)
                && manager@.models[model@][namespace] == set;
        assert(has_set(manager@, model@, namespace, set));
    }
}

/// Removing what this process added of a model for images takes just that away: all
/// is then as before it was added.
pub proof fn add_then_remove_images(
    first: &mut ModelManager,
    second: &mut ModelManager,
    model: &str,
    checksum: &str,
    engine: OpenAIImagesStreamingEngine,
    removed: Result<(), ModelManagerError>,
)
    requires
        call_ensures(
            ModelManager::add_images_model,
            (first, model, checksum, engine),
            Ok::<(), ModelManagerError>(()),
        ),
        final(first)@ == old(second)@,
        call_ensures(ModelManager::remove_images_model, (second, model), removed),
        old(first)@.models.contains_key(model@) ==> exists|namespace: Seq<char>| #[trigger]
            old(first)@.models[model@].contains_key(namespace),
        old(first)@.models.contains_key(model@) ==> !old(first)@.models[model@].contains_key(
            "__local_images_"@ + model@,
        ),
    ensures
        removed is Ok,
        final(second)@ == old(first)@,
{
    let before = first@;
    let namespace = "__local_images_"@ + model@;
    if before.models.contains_key(model@) {
        let other = choose|other: Seq<char>| #[trigger]
            before.models[model@].contains_key(other);
        assert(before.models[model@].dom().contains(other));
    }
    model_manager::added_then_removed(
        before.models,
        model@,
        namespace,
        second@.models[model@][namespace],
    );
    assert(second@.models[model@].contains_key(namespace));
    assert(final(second)@ =~= before);
}

/// A model of this process that stands for prefill workers is added where none does
/// yet, and is then listed as such. Where one does, there is an error and nothing
/// changes.
pub proof fn add_prefill_then_ask(
    manager: &mut ModelManager,
    model: &str,
    checksum: &str,
    added: Result<(), ModelManagerError>,
    list: Vec<String>,
    has: bool,
)
    requires
        call_ensures(ModelManager::add_prefill_model, (manager, model, checksum), added),
        call_ensures(ModelManager::list_prefill_models, (&*final(manager),), list),
        call_ensures(ModelManager::has_prefill_model, (&*final(manager), model), has),
    ensures
        added is Ok <==> !served(old(manager)@.models, model@, Service::Prefill),
        has,
        names(list@, model@),
        added matches Err(e) ==> (e matches ModelManagerError::ModelAlreadyExists(name) && name@
            == model@) && final(manager)@ == old(manager)@,
{
    texts_name(list@, model@);
    let after = final(manager)@;
    if added is Ok {
        let namespace = "__local_prefill_"@ + model@;
        assert(offers_in(after.models[model@], namespace, Service::Prefill));
    }
}

/// A model decodes where it answers chat completions or completions, and is there at
/// all where it decodes or stands for prefill workers.
pub proof fn decode_or_prefill(
    manager: &ModelManager,
    model: &str,
    decode: bool,
    prefill: bool,
    any: bool,
)
    requires
        call_ensures(ModelManager::has_decode_model, (manager, model), decode),
        call_ensures(ModelManager::has_prefill_model, (manager, model), prefill),
        call_ensures(ModelManager::has_model_any, (manager, model), any),
    ensures
        decode <==> exists|namespace: Seq<char>, set: WorkerSetView| #[trigger]
            has_set(manager@, model@, namespace, set) && (set.chat_engine is Some
                || set.completions_engine is Some),
        prefill <==> exists|namespace: Seq<char>, set: WorkerSetView| #[trigger]
            has_set(manager@, model@, namespace, set) && set.chat_engine is None
                && set.completions_engine is None && set.embeddings_engine is None
                && set.images_engine is None && set.tensor_engine is None,
        any <==> decode || prefill,
{
    served_by_some_set(manager@, model@, Service::Decode);
    served_by_some_set(manager@, model@, Service::Prefill);
    if decode {
        let (namespace, set) = choose|namespace: Seq<char>, set: WorkerSetView| #[trigger]
            has_set(manager@, model@, namespace, set) && set.offers(Service::Decode);
        assert(has_set(manager@, model@, namespace, set));
    }
    if exists|namespace: Seq<char>, set: WorkerSetView| #[trigger]
        has_set(manager@, model@, namespace, set) && (set.chat_engine is Some
            || set.completions_engine is Some) {
        let (namespace, set) = choose|namespace: Seq<char>, set: WorkerSetView| #[trigger]
            has_set(manager@, model@, namespace, set) && (set.chat_engine is Some
                || set.completions_engine is Some);
        assert(set.offers(Service::Decode));
    }
    if prefill {
        let (namespace, set) = choose|namespace: Seq<char>, set: WorkerSetView| #[trigger]
            has_set(manager@, model@, namespace, set) && set.offers(Service::Prefill);
        assert(has_set(manager@, model@, namespace, set));
    }
    if exists|namespace: Seq<char>, set: WorkerSetView| #[trigger]
        has_set(manager@, model@, namespace, set) && set.chat_engine is None
            && set.completions_engine is None && set.embeddings_engine is None
            && set.images_engine is None && set.tensor_engine is None {
        let (namespace, set) = choose|namespace: Seq<char>, set: WorkerSetView| #[trigger]
            has_set(manager@, model@, namespace, set) && set.chat_engine is None
                && set.completions_engine is None && set.embeddings_engine is None
                && set.images_engine is None && set.tensor_engine is None;
        assert(set.offers(Service::Prefill));
    }
}

/// Whether options are the parsers that a set's card names.
pub open spec fn parsers_of(set: WorkerSetView, options: ParsingOptions) -> bool {
    &&& match (set.card.runtime_config.tool_call_parser, options.tool_call_parser) {
        (Some(a), Some(b)) => a == b@,
        (None, None) => true,
        _ => false,
    }
    &&& match (set.card.runtime_config.reasoning_parser, options.reasoning_parser) {
        (Some(a), Some(b)) => a == b@,
        (None, None) => true,
        _ => false,
    }
}

/// An engine that comes with its parsers has them from the card of the very set that
/// it is from.
pub proof fn parsers_of_same_set(
    manager: &ModelManager,
    model: &str,
    chat: Result<(OpenAIChatCompletionsStreamingEngine, ParsingOptions), ModelManagerError>,
    completions: Result<(OpenAICompletionsStreamingEngine, ParsingOptions), ModelManagerError>,
)
    requires
        call_ensures(
            ModelManager::get_chat_completions_engine_with_parsing,
            (manager, model),
            chat,
        ),
        call_ensures(
            ModelManager::get_completions_engine_with_parsing,
            (manager, model),
            completions,
        ),
    ensures
        chat matches Ok(pair) ==> exists|namespace: Seq<char>, set: WorkerSetView| #[trigger]
            has_set(manager@, model@, namespace, set) && set.chat_engine == Some(pair.0)
                && parsers_of(set, pair.1),
        chat is Ok <==> served(manager@.models, model@, Service::Chat),
        completions matches Ok(pair) ==> exists|namespace: Seq<char>, set: WorkerSetView| #[trigger]
            has_set(manager@, model@, namespace, set) && set.completions_engine == Some(pair.0)
                && parsers_of(set, pair.1),
        completions is Ok <==> served(manager@.models, model@, Service::Completions),
{
    let sets = manager@.models[model@];
    if let Ok(pair) = chat {
        let set = choose|set: WorkerSetView| #[trigger]
            model_manager::among_offering(sets, Service::Chat, set) && set.chat_engine == Some(
                pair.0,
            ) && set.parsing() == pair.1@;
        let namespace = choose|namespace: Seq<char>| #[trigger]
            offers_in(sets, namespace, Service::Chat) && sets[namespace] == set;
        assert(has_set(manager@, model@, namespace, set));
        assert(parsers_of(set, pair.1));
    }
    if let Ok(pair) = completions {
        let set = choose|set: WorkerSetView| #[trigger]
            model_manager::among_offering(sets, Service::Completions, set)
                && set.completions_engine == Some(pair.0) && set.parsing() == pair.1@;
        let namespace = choose|namespace: Seq<char>| #[trigger]
            offers_in(sets, namespace, Service::Completions) && sets[namespace] == set;
        assert(has_set(manager@, model@, namespace, set));
        assert(parsers_of(set, pair.1));
    }
}

/// A set that is added under a namespace of a model stands there, and every other set
/// of every model stands where it stood. A checksum is then valid there exactly where
/// it is the set's own.
pub proof fn added_set_stands(
    manager: &mut ModelManager,
    model: &str,
    namespace: &str,
    set: WorkerSet,
    checksum: &str,
    valid: Option<bool>,
)
    requires
        call_ensures(ModelManager::add_worker_set, (manager, model, namespace, set), ()),
        call_ensures(
            ModelManager::is_valid_checksum,
            (&*final(manager), model, namespace, checksum),
            valid,
        ),
    ensures
        has_set(final(manager)@, model@, namespace@, set@),
        forall|m: Seq<char>, n: Seq<char>, s: WorkerSetView|
            #![trigger has_set(final(manager)@, m, n, s)]
            #![trigger has_set(old(manager)@, m, n, s)]
            m != model@ || n != namespace@ ==> has_set(final(manager)@, m, n, s) == has_set(
                old(manager)@,
                m,
                n,
                s,
            ),
        valid == Some(set@.mdcsum == checksum@),
{
}

/// Nothing is said of a checksum where a model has no set under a namespace.
pub proof fn checksum_needs_set(
    manager: &ModelManager,
    model: &str,
    namespace: &str,
    checksum: &str,
    valid: Option<bool>,
)
    requires
        call_ensures(
            ModelManager::is_valid_checksum,
            (manager, model, namespace, checksum),
            valid,
        ),
    ensures
        forall|s: WorkerSetView| #[trigger]
            has_set(manager@, model@, namespace@, s) ==> valid == Some(s.mdcsum == checksum@),
        (forall|s: WorkerSetView| !#[trigger] has_set(manager@, model@, namespace@, s))
            ==> valid is None,
{
    if valid is Some {
        let set = sets_of(manager@.models, model@)[namespace@];
        assert(has_set(manager@, model@, namespace@, set));
    }
}

/// A set that is removed is gone and given back, every other set of every model stands
/// where it stood, and a model goes with its last set.
pub proof fn removed_set_is_gone(
    manager: &mut ModelManager,
    model: &str,
    namespace: &str,
    removed: Option<WorkerSet>,
)
    requires
        call_ensures(ModelManager::remove_worker_set, (manager, model, namespace), removed),
    ensures
        removed matches Some(set) ==> has_set(old(manager)@, model@, namespace@, set@),
        removed is None ==> forall|s: WorkerSetView|
            !#[trigger] has_set(old(manager)@, model@, namespace@, s),
        forall|s: WorkerSetView| !#[trigger] has_set(final(manager)@, model@, namespace@, s),
        forall|m: Seq<char>, n: Seq<char>, s: WorkerSetView|
            #![trigger has_set(final(manager)@, m, n, s)]
            #![trigger has_set(old(manager)@, m, n, s)]
            m != model@ || n != namespace@ ==> has_set(final(manager)@, m, n, s) == has_set(
                old(manager)@,
                m,
                n,
                s,
            ),
        old(manager)@.models.contains_key(model@) ==> (final(manager)@.models.contains_key(model@)
            <==> exists|n: Seq<char>| n != namespace@ && #[trigger] old(
            manager,
        )@.models[model@].contains_key(n)),
{
    let before = manager@;
    let after = final(manager)@;
    if removed is None && before.models.contains_key(model@) {
        assert forall|s: WorkerSetView| !#[trigger] has_set(before, model@, namespace@, s) by {}
    }
    if before.models.contains_key(model@) {
        let sets = before.models[model@];
        let rest = sets.remove(namespace@);
        if no_sets(rest) {
            assert forall|n: Seq<char>| n != namespace@ implies !#[trigger] sets.contains_key(n) by {
                assert(!rest.dom().contains(n));
            }
            assert forall|m: Seq<char>, n: Seq<char>, s: WorkerSetView|
                #![trigger has_set(after, m, n, s)]
                #![trigger has_set(before, m, n, s)]
                m != model@ || n != namespace@ implies has_set(after, m, n, s) == has_set(
                before,
                m,
                n,
                s,
            ) by {
                if m == model@ {
                    assert(!sets.contains_key(n));
                }
            }
        } else {
            let n = choose|n: Seq<char>| rest.dom().contains(n);
            if !rest.dom().contains(n) {
                assert(rest.dom() =~= Set::<Seq<char>>::empty());
            }
            assert(sets.contains_key(n) && n != namespace@);
        }
    }
}

/// A card that was saved is among the cards, and taking it out gives it back.
pub proof fn saved_card_is_kept(
    first: &mut ModelManager,
    second: &mut ModelManager,
    key: &str,
    card: ModelDeploymentCard,
    saved: Result<(), ModelManagerError>,
    cards: Vec<ModelDeploymentCard>,
    taken: Option<ModelDeploymentCard>,
)
    requires
        call_ensures(ModelManager::save_model_card, (first, key, card), saved),
        call_ensures(ModelManager::get_model_cards, (&*final(first),), cards),
        final(first)@ == old(second)@,
        call_ensures(ModelManager::remove_model_card, (second, key), taken),
    ensures
        saved is Ok,
        exists|i: int| 0 <= i < cards@.len() && (#[trigger] cards@[i])@ == card@,
        taken matches Some(back) && back@ == card@,
        !final(second)@.cards.contains_key(key@),
        forall|k: Seq<char>|
            k != key@ ==> (#[trigger] final(second)@.cards.contains_key(k)) == old(
                first,
            )@.cards.contains_key(k),
{
    let held = final(first)@.cards;
    let keys = choose|keys: Seq<Seq<char>>| #[trigger]
        model_manager::cards_in_order(held, keys, cards@);
    assert(keys.contains(key@));
    let i = choose|i: int| 0 <= i < keys.len() && keys[i] == key@;
    assert(cards@[i]@ == card@);
}

/// Every card in the list of cards is kept under some key, and there is one for each
/// key.
pub proof fn cards_are_kept(manager: &ModelManager, cards: Vec<ModelDeploymentCard>)
    requires
        call_ensures(ModelManager::get_model_cards, (manager,), cards),
    ensures
        exists|keys: Seq<Seq<char>>| #[trigger]
            cards_under(manager@, keys, cards@),
{
    let keys = choose|keys: Seq<Seq<char>>| #[trigger]
        model_manager::cards_in_order(manager@.cards, keys, cards@);
    assert forall|i: int| 0 <= i < cards@.len() implies manager@.cards.contains_key(
        #[trigger] keys[i],
    ) && cards@[i]@ == manager@.cards[keys[i]] by {
        assert(keys.contains(keys[i]));
    }
    assert(cards_under(manager@, keys, cards@));
}

/// Whether a list has the card under each key, for all keys, each once.
pub open spec fn cards_under(
    manager: ManagerView,
    keys: Seq<Seq<char>>,
    cards: Seq<ModelDeploymentCard>,
) -> bool {
    &&& keys.len() == cards.len()
    &&& forall|i: int, j: int| 0 <= i < j < keys.len() ==> keys[i] != keys[j]
    &&& forall|i: int|
        0 <= i < cards.len() ==> manager.cards.contains_key(#[trigger] keys[i]) && cards[i]@
            == manager.cards[keys[i]]
    &&& forall|key: Seq<char>| #[trigger] manager.cards.contains_key(key) ==> keys.contains(key)
}

/// New thresholds are given to the monitor of one set of the model, whose connection
/// stays, and come back; nothing else changes. Without a monitor nothing changes at
/// all.
pub proof fn thresholds_are_set(
    manager: &mut ModelManager,
    model: &str,
    config: LoadThresholdConfig,
    res: Option<LoadThresholdConfig>,
)
    requires
        call_ensures(ModelManager::load_threshold_config, (manager, model, Some(config)), res),
    ensures
        (forall|n: Seq<char>, s: WorkerSetView| #[trigger]
            has_set(old(manager)@, model@, n, s) ==> s.worker_monitor is None) ==> res is None
            && final(manager)@ == old(manager)@,
        (exists|n: Seq<char>, s: WorkerSetView| #[trigger]
            has_set(old(manager)@, model@, n, s) && s.worker_monitor is Some) ==> res == Some(
            config,
        ) && exists|n: Seq<char>, s: WorkerSetView| #[trigger]
            changes_thresholds(old(manager)@, model@, n, s, config, final(manager)@),
{
    served_by_some_set(manager@, model@, Service::Monitor);
    if res is Some {
        let before = manager@;
        let after = final(manager)@;
        let monitor = choose|monitor: KvWorkerMonitor| #[trigger]
            model_manager::thresholds_changed(before, model@, config, monitor, after);
        let sets = sets_of(before.models, model@);
        let n = choose|n: Seq<char>| #[trigger]
            crate::discovery::model::thresholds_set_in(
                sets,
                n,
                config,
                monitor,
                after.models[model@],
            );
        assert(crate::discovery::model::thresholds_set_in(
            sets,
            n,
            config,
            monitor,
            after.models[model@],
        ));
        assert(before.models.contains_key(model@));
        assert(changes_thresholds(before, model@, n, sets[n], config, after));
    } else {
        assert forall|n: Seq<char>, s: WorkerSetView| #[trigger]
            has_set(manager@, model@, n, s) implies s.worker_monitor is None by {
            if s.worker_monitor is Some {
                assert(s.offers(Service::Monitor));
            }
        }
    }
}

/// Whether the monitor of one set was given other thresholds, and nothing else
/// changed.
pub open spec fn changes_thresholds(
    before: ManagerView,
    model: Seq<char>,
    namespace: Seq<char>,
    set: WorkerSetView,
    config: LoadThresholdConfig,
    after: ManagerView,
) -> bool {
    &&& has_set(before, model, namespace, set)
    &&& set.worker_monitor matches Some(monitor) && has_set(
        after,
        model,
        namespace,
        WorkerSetView {
            worker_monitor: Some(KvWorkerMonitor { client: monitor.client, config }),
            ..set
        },
    )
    &&& forall|m: Seq<char>, n: Seq<char>, s: WorkerSetView|
        #![trigger has_set(after, m, n, s)]
        m != model || n != namespace ==> has_set(after, m, n, s) == has_set(before, m, n, s)
    &&& after.cards == before.cards
    &&& after.activators == before.activators
    &&& after.watched == before.watched
}

/// Thresholds that are asked for are those of the monitor of some set, and asking
/// changes nothing.
pub proof fn thresholds_are_found(
    manager: &mut ModelManager,
    model: &str,
    res: Option<LoadThresholdConfig>,
)
    requires
        call_ensures(
            ModelManager::load_threshold_config,
            (manager, model, None::<LoadThresholdConfig>),
            res,
        ),
    ensures
        final(manager)@ == old(manager)@,
        res matches Some(config) ==> exists|n: Seq<char>, s: WorkerSetView| #[trigger]
            has_set(old(manager)@, model@, n, s) && (s.worker_monitor matches Some(m) && m.config
                == config),
        res is None ==> forall|n: Seq<char>, s: WorkerSetView| #[trigger]
            has_set(old(manager)@, model@, n, s) ==> s.worker_monitor is None,
{
    served_by_some_set(manager@, model@, Service::Monitor);
    if let Some(config) = res {
        let sets = manager@.models[model@];
        let monitor = choose|monitor: KvWorkerMonitor| #[trigger]
            model_manager::monitored(sets, monitor) && monitor.config == config;
        let n = choose|n: Seq<char>| #[trigger]
            offers_in(sets, n, Service::Monitor) && sets[n].worker_monitor == Some(monitor);
        assert(has_set(manager@, model@, n, sets[n]));
    } else {
        assert forall|n: Seq<char>, s: WorkerSetView| #[trigger]
            has_set(manager@, model@, n, s) implies s.worker_monitor is None by {
            if s.worker_monitor is Some {
                assert(s.offers(Service::Monitor));
            }
        }
    }
}

/// The monitor of a model without one is made of the connection and the thresholds
/// that are given; that of a model with one keeps its connection and gets the
/// thresholds.
pub proof fn monitor_has_thresholds(
    manager: &mut ModelManager,
    model: &str,
    client: Client,
    config: LoadThresholdConfig,
    monitor: KvWorkerMonitor,
)
    requires
        call_ensures(
            ModelManager::get_or_create_worker_monitor,
            (manager, model, client, config),
            monitor,
        ),
    ensures
        monitor.config == config,
        !served(old(manager)@.models, model@, Service::Monitor) ==> monitor.client == client
            && final(manager)@ == old(manager)@,
        served(old(manager)@.models, model@, Service::Monitor) ==> exists|
            n: Seq<char>,
            s: WorkerSetView,
        | #[trigger]
            has_set(old(manager)@, model@, n, s) && (s.worker_monitor matches Some(m) && m.client
                == monitor.client),
{
    let before = manager@;
    let after = final(manager)@;
    if served(before.models, model@, Service::Monitor) {
        let sets = sets_of(before.models, model@);
        let n = choose|n: Seq<char>| #[trigger]
            crate::discovery::model::thresholds_set_in(
                sets,
                n,
                config,
                monitor,
                after.models[model@],
            );
        assert(crate::discovery::model::thresholds_set_in(
            sets,
            n,
            config,
            monitor,
            after.models[model@],
        ));
        assert(has_set(before, model@, n, sets[n]));
    }
}

/// The list of thresholds has each model with a monitor once, with the thresholds of
/// the monitor of one of its sets.
pub proof fn busy_thresholds_are_found(
    manager: &ModelManager,
    list: Vec<(String, LoadThresholdConfig)>,
)
    requires
        call_ensures(ModelManager::list_busy_thresholds, (manager,), list),
    ensures
        forall|i: int, j: int|
            0 <= i < j < list@.len() ==> (#[trigger] list@[i]).0@ != (#[trigger] list@[j]).0@,
        forall|i: int|
            0 <= i < list@.len() ==> monitored_with(
                manager@,
                (#[trigger] list@[i]).0@,
                list@[i].1,
            ),
        forall|m: Seq<char>, n: Seq<char>, s: WorkerSetView| #[trigger]
            has_set(manager@, m, n, s) && s.worker_monitor is Some ==> exists|i: int|
                0 <= i < list@.len() && (#[trigger] list@[i]).0@ == m,
{
    let all = model_manager::names_of(list@);
    let models = manager@.models;
    assert(all.len() == list@.len());
    assert forall|i: int, j: int| 0 <= i < j < list@.len() implies (#[trigger] list@[i]).0@ != (
    #[trigger] list@[j]).0@ by {
        assert(all[i] != all[j]);
    }
    assert forall|i: int| 0 <= i < list@.len() implies monitored_with(
        manager@,
        (#[trigger] list@[i]).0@,
        list@[i].1,
    ) by {
        let m = list@[i].0@;
        assert(all[i] == m);
        assert(all.contains(m));
        let sets = models[m];
        let monitor = choose|monitor: KvWorkerMonitor| #[trigger]
            model_manager::monitored(sets, monitor) && monitor.config == list@[i].1;
        let n = choose|n: Seq<char>| #[trigger]
            offers_in(sets, n, Service::Monitor) && sets[n].worker_monitor == Some(monitor);
        assert(has_set(manager@, m, n, sets[n]));
    }
    assert forall|m: Seq<char>, n: Seq<char>, s: WorkerSetView| #[trigger]
        has_set(manager@, m, n, s) && s.worker_monitor is Some implies exists|i: int|
        0 <= i < list@.len() && (#[trigger] list@[i]).0@ == m by {
        assert(offers_in(models[m], n, Service::Monitor));
        assert(served(models, m, Service::Monitor));
        assert(all.contains(m));
        let i = choose|i: int| 0 <= i < all.len() && all[i] == m;
        assert(list@[i].0@ == m);
    }
}

/// Whether some set of a model has a monitor with the given thresholds.
pub open spec fn monitored_with(
    manager: ManagerView,
    model: Seq<char>,
    config: LoadThresholdConfig,
) -> bool {
    exists|n: Seq<char>, s: WorkerSetView| #[trigger]
        has_set(manager, model, n, s) && (s.worker_monitor matches Some(m) && m.config == config)
}

/// Decode workers that ask first get a number, under which the endpoint is delivered
/// that arrives later for the same model and namespace.
pub proof fn decode_first_then_prefill(
    first: &mut ModelManager,
    second: &mut ModelManager,
    model: String,
    model_again: &str,
    namespace: &str,
    endpoint: Endpoint,
    wait: Option<PrefillWait>,
    delivery: Result<PrefillDelivery, PrefillError>,
)
    requires
        old(first)@.next_number < u64::MAX,
        model_again@ == model@,
        !old(first)@.activators.contains_key((model@, namespace@)),
        call_ensures(ModelManager::register_prefill_router, (first, model, namespace), wait),
        final(first)@ == old(second)@,
        call_ensures(
            ModelManager::activate_prefill_router,
            (second, model_again, namespace, endpoint),
            delivery,
        ),
    ensures
        wait matches Some(PrefillWait::Waiting(number)) && number == old(first)@.next_number
            && delivery == Ok::<PrefillDelivery, PrefillError>(
            PrefillDelivery::Deliver(number, endpoint),
        ),
        final(second)@.next_number == old(first)@.next_number + 1,
        final(second)@.activators == old(first)@.activators,
        final(second)@.models == old(first)@.models,
{
    assert(final(second)@.activators =~= old(first)@.activators);
}

/// An endpoint that arrives first is kept, and decode workers that then ask for the
/// same model and namespace get it.
pub proof fn prefill_first_then_decode(
    first: &mut ModelManager,
    second: &mut ModelManager,
    model: &str,
    model_again: String,
    namespace: &str,
    endpoint: Endpoint,
    delivery: Result<PrefillDelivery, PrefillError>,
    wait: Option<PrefillWait>,
)
    requires
        old(first)@.next_number < u64::MAX,
        model_again@ == model@,
        !old(first)@.activators.contains_key((model@, namespace@)),
        call_ensures(
            ModelManager::activate_prefill_router,
            (first, model, namespace, endpoint),
            delivery,
        ),
        final(first)@ == old(second)@,
        call_ensures(
            ModelManager::register_prefill_router,
            (second, model_again, namespace),
            wait,
        ),
    ensures
        delivery == Ok::<PrefillDelivery, PrefillError>(PrefillDelivery::Kept),
        wait == Some(PrefillWait::Ready(endpoint)),
        final(second)@ == old(first)@,
{
    assert(final(second)@.activators =~= old(first)@.activators);
    assert(final(second)@ =~= old(first)@);
}

/// Decode workers that ask while others wait get nothing, and the others wait on.
pub proof fn decode_twice(
    first: &mut ModelManager,
    second: &mut ModelManager,
    model: String,
    model_again: String,
    namespace: &str,
    number: u64,
    again: Option<PrefillWait>,
)
    requires
        old(first)@.next_number < u64::MAX - 1,
        model_again@ == model@,
        call_ensures(
            ModelManager::register_prefill_router,
            (first, model, namespace),
            Some(PrefillWait::Waiting(number)),
        ),
        final(first)@ == old(second)@,
        call_ensures(
            ModelManager::register_prefill_router,
            (second, model_again, namespace),
            again,
        ),
    ensures
        again is None,
        final(second)@ == old(second)@,
{
}

/// A second endpoint for the same model and namespace is refused, and the first is
/// not kept either.
pub proof fn prefill_twice(
    first: &mut ModelManager,
    second: &mut ModelManager,
    model: &str,
    namespace: &str,
    endpoint: Endpoint,
    other: Endpoint,
    again: Result<PrefillDelivery, PrefillError>,
)
    requires
        call_ensures(
            ModelManager::activate_prefill_router,
            (first, model, namespace, endpoint),
            Ok::<PrefillDelivery, PrefillError>(PrefillDelivery::Kept),
        ),
        final(first)@ == old(second)@,
        call_ensures(
            ModelManager::activate_prefill_router,
            (second, model, namespace, other),
            again,
        ),
    ensures
        again == Err::<PrefillDelivery, PrefillError>(PrefillError::AlreadyActivated),
        !final(second)@.activators.contains_key((model@, namespace@)),
{
}

/// Forgetting a meeting gives back the number of the decode workers that waited there,
/// and leaves nothing waiting.
pub proof fn forgotten_meeting(
    first: &mut ModelManager,
    second: &mut ModelManager,
    model: String,
    model_again: &str,
    namespace: &str,
    number: u64,
    forgotten: Option<u64>,
)
    requires
        old(first)@.next_number < u64::MAX,
        model_again@ == model@,
        call_ensures(
            ModelManager::register_prefill_router,
            (first, model, namespace),
            Some(PrefillWait::Waiting(number)),
        ),
        final(first)@ == old(second)@,
        call_ensures(
            ModelManager::remove_prefill_activator,
            (second, model_again, namespace),
            forgotten,
        ),
    ensures
        forgotten == Some(number),
        !final(second)@.activators.contains_key((model@, namespace@)),
{
}

/// An endpoint that is watched keeps its first watch; what is found of a worker is
/// then what the watch has for it.
pub proof fn first_watch_stays(
    manager: &mut ModelManager,
    id: EndpointId,
    asked: &EndpointId,
    made: RuntimeConfigWatch,
    watch: &RuntimeConfigWatch,
    worker: u64,
    half: Option<DisaggregatedEndpoint>,
)
    requires
        asked@ == id@,
        call_ensures(
            ModelManager::get_or_create_runtime_config_watcher,
            (manager, id, made),
            watch,
        ),
        call_ensures(
            ModelManager::get_disaggregated_endpoint,
            (&*final(manager), asked, worker),
            half,
        ),
    ensures
        old(manager)@.watched.contains_key(id@) ==> *watch == old(manager)@.watched[id@],
        !old(manager)@.watched.contains_key(id@) ==> *watch == made,
        final(manager)@.watched.contains_key(id@) && final(manager)@.watched[id@] == *watch,
        !watch.configs@.contains_key(worker) ==> half is None,
        watch.configs@.contains_key(worker) ==> match (
            watch.configs@[worker].disaggregated_endpoint,
            half,
        ) {
            (Some(a), Some(b)) => same_half(a, b),
            (None, None) => true,
            _ => false,
        },
{
}

/// Nothing is found of workers behind an endpoint that is not watched, and endpoints
/// are told apart by namespace, component and name.
pub proof fn unwatched_has_no_half(
    manager: &ModelManager,
    id: &EndpointId,
    worker: u64,
    half: Option<DisaggregatedEndpoint>,
)
    requires
        call_ensures(ModelManager::get_disaggregated_endpoint, (manager, id, worker), half),
        !manager@.watched.contains_key((id.namespace@, id.component@, id.name@)),
    ensures
        half is None,
{
}

/// A model that is made where it is not there has no set, and no other model changes;
/// one without sets can be removed again.
pub proof fn made_model_is_empty(
    first: &mut ModelManager,
    second: &mut ModelManager,
    model_name: &str,
    model: &Model,
)
    requires
        !old(first)@.models.contains_key(model_name@),
        call_ensures(ModelManager::get_or_create_model, (first, model_name), model),
        final(first)@ == old(second)@,
        call_ensures(ModelManager::remove_model_if_empty, (second, model_name), ()),
    ensures
        forall|n: Seq<char>| !#[trigger] model@.contains_key(n),
        final(first)@.models.contains_key(model_name@),
        final(second)@ == old(first)@,
{
    assert(second@.models[model_name@].dom() =~= Set::<Seq<char>>::empty());
    assert(final(second)@ =~= old(first)@);
}

/// A model with a set is not removed as empty.
pub proof fn model_with_set_stays(
    manager: &mut ModelManager,
    model_name: &str,
    namespace: Seq<char>,
    set: WorkerSetView,
)
    requires
        has_set(old(manager)@, model_name@, namespace, set),
        call_ensures(ModelManager::remove_model_if_empty, (manager, model_name), ()),
    ensures
        final(manager)@ == old(manager)@,
{
    assert(manager@.models[model_name@].dom().contains(namespace));
    assert(final(manager)@ =~= manager@);
}

/// Removing a model takes it and all its sets away, and nothing of any other model.
pub proof fn removed_model_is_gone(
    manager: &mut ModelManager,
    model: &str,
    removed: Option<Model>,
)
    requires
        call_ensures(ModelManager::remove_model, (manager, model), removed),
    ensures
        removed is Some <==> old(manager)@.models.contains_key(model@),
        forall|m: Seq<char>, n: Seq<char>, s: WorkerSetView|
            #![trigger has_set(final(manager)@, m, n, s)]
            has_set(final(manager)@, m, n, s) <==> m != model@ && has_set(
                old(manager)@,
                m,
                n,
                s,
            ),
{
}

/// A model's monitor is that of one of its sets, and there is none where no set has
/// one.
pub proof fn monitor_of_some_set(
    manager: &ModelManager,
    model: &str,
    monitor: Option<KvWorkerMonitor>,
)
    requires
        call_ensures(ModelManager::get_worker_monitor, (manager, model), monitor),
    ensures
        monitor matches Some(m) ==> exists|n: Seq<char>, s: WorkerSetView| #[trigger]
            has_set(manager@, model@, n, s) && s.worker_monitor == Some(m),
        monitor is None ==> forall|n: Seq<char>, s: WorkerSetView| #[trigger]
            has_set(manager@, model@, n, s) ==> s.worker_monitor is None,
{
    served_by_some_set(manager@, model@, Service::Monitor);
    if let Some(m) = monitor {
        let sets = manager@.models[model@];
        let n = choose|n: Seq<char>| #[trigger]
            offers_in(sets, n, Service::Monitor) && sets[n].worker_monitor == Some(m);
        assert(has_set(manager@, model@, n, sets[n]));
    } else {
        assert forall|n: Seq<char>, s: WorkerSetView| #[trigger]
            has_set(manager@, model@, n, s) implies s.worker_monitor is None by {
            if s.worker_monitor is Some {
                assert(s.offers(Service::Monitor));
            }
        }
    }
}

} // verus!
