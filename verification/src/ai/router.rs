//! Which backend serves each model: the routing decision of the provider
//! router, over backend slots numbered by the caller.
use crate::ai::backend::{LlmError, OpenAiCompatBackend};
use crate::ai::registry::{ModelConfig, ProviderRegistry};
use crate::config::AppConfig;
use crate::table::Table;
use vstd::prelude::*;
use vstd::string::*;

verus! {

broadcast use vstd::string::group_string_axioms;

/// Model ids mapped to the slots of the backends that serve them.
pub struct ModelRoutes {
    routes: Table<usize>,
}

impl View for ModelRoutes {
    type V = Map<Seq<char>, usize>;

    closed spec fn view(&self) -> Map<Seq<char>, usize> {
        self.routes@
    }
}

impl ModelRoutes {
    /// The routes' invariant: each model id appears once.
    pub closed spec fn wf(&self) -> bool {
        self.routes.wf()
    }

    /// No model is routed yet.
    pub fn new() -> (r: Self)
        ensures
            r.wf(),
            r@ == Map::<Seq<char>, usize>::empty(),
    {
        ModelRoutes { routes: Table::new() }
    }

    /// Routes `model_id` to `slot`, in place of any earlier route.
    pub fn register(&mut self, model_id: String, slot: usize)
        requires
            old(self).wf(),
        ensures
            final(self).wf(),
            final(self)@ == old(self)@.insert(model_id@, slot),
    {
        self.routes.insert(model_id, slot);
    }

    /// The slot of the backend that serves `model_id`, or `UnknownModel`
    /// when no backend does.
    pub fn route(&self, model_id: &str) -> (r: Result<usize, LlmError>)
        requires
            self.wf(),
        ensures
            self@.dom().contains(model_id@) ==> r == Ok::<usize, LlmError>(self@[model_id@]),
            !self@.dom().contains(model_id@) ==> (r matches Err(LlmError::UnknownModel(m)) && m@
                == model_id@),
    {
        match self.routes.get(model_id) {
            Some(slot) => Ok(*slot),
            None => Err(LlmError::unknown_model(model_id)),
        }
    }
}

/// The seconds a backend waits for the model before it gives up.
pub const BACKEND_TIMEOUT_SECS: u64 = 30;

/// The models listed to clients: the one configured model, under its
/// provider and base URL.
pub fn configured_registry(config: &AppConfig) -> (r: ProviderRegistry)
    ensures
        r@.len() == 1,
        r@[0].model_id@ == config.ai_model@,
        r@[0].provider@ == config.ai_provider@,
        r@[0].api_base@ == config.ai_base_url@,
{
    let mut registry = ProviderRegistry::new();
    registry.register(
        ModelConfig::new(config.ai_model.as_str(), config.ai_provider.as_str(), config.ai_base_url.as_str()),
    );
    registry
}

/// The backend to register for the configured model: an OpenAI-compatible
/// backend at the configured base URL with the configured key, and none when
/// no API key is configured.
pub fn configured_backend(config: &AppConfig) -> (r: Option<(String, OpenAiCompatBackend)>)
    ensures
        config.ai_api_key@.len() == 0 ==> r is None,
        config.ai_api_key@.len() > 0 ==> (r matches Some((model, backend)) && model
            == config.ai_model && backend.api_base() == config.ai_base_url && backend.api_key()
            == config.ai_api_key && backend.timeout_secs() == BACKEND_TIMEOUT_SECS),
{
    if config.ai_api_key.as_str().unicode_len() == 0 {
        None
    } else {
        Some(
            (
                config.ai_model.clone(),
                OpenAiCompatBackend::new(
                    config.ai_base_url.clone(),
                    config.ai_api_key.clone(),
                    BACKEND_TIMEOUT_SECS,
                ),
            ),
        )
    }
}

} // verus!
