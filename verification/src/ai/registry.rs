//! Model registry for storing and listing available model configurations.
use vstd::prelude::*;

verus! {

broadcast use vstd::string::group_string_axioms;

/// Configuration for a single LLM model.
#[derive(Debug, Clone, PartialEq, Eq)]
pub struct ModelConfig {
    pub model_id: String,
    pub provider: String,
    pub api_base: String,
}

impl ModelConfig {
    pub fn new(model_id: &str, provider: &str, api_base: &str) -> (r: Self)
        ensures
            r.model_id@ == model_id@,
            r.provider@ == provider@,
            r.api_base@ == api_base@,
    {
        ModelConfig {
            model_id: model_id.to_string(),
            provider: provider.to_string(),
            api_base: api_base.to_string(),
        }
    }
}

/// Registry of available LLM model configurations, in registration order.
pub struct ProviderRegistry {
    models: Vec<ModelConfig>,
}

impl View for ProviderRegistry {
    type V = Seq<ModelConfig>;

    closed spec fn view(&self) -> Seq<ModelConfig> {
        self.models@
    }
}

impl ProviderRegistry {
    /// Create a new empty registry.
    pub fn new() -> (r: Self)
        ensures
            r@ == Seq::<ModelConfig>::empty(),
    {
        ProviderRegistry { models: Vec::new() }
    }

    /// Register a model configuration.
    pub fn register(&mut self, config: ModelConfig)
        ensures
            final(self)@ == old(self)@.push(config),
    {
        self.models.push(config);
    }

    /// List all registered model configurations, in registration order.
    pub fn list_models(&self) -> (r: Vec<&ModelConfig>)
        ensures
            r@.len() == self@.len(),
            forall|i: int| 0 <= i < r@.len() ==> *(#[trigger] r@[i]) == self@[i],
    {
        let mut r: Vec<&ModelConfig> = Vec::new();
        let mut i: usize = 0;
        while i < self.models.len()
            invariant
                i <= self.models@.len(),
                r@.len() == i,
                forall|j: int| 0 <= j < i ==> *(#[trigger] r@[j]) == self.models@[j],
            decreases self.models@.len() - i,
        {
            r.push(&self.models[i]);
            i = i + 1;
        }
        r
    }
}

impl Default for ProviderRegistry {
    fn default() -> (r: Self)
        ensures
            r@ == Seq::<ModelConfig>::empty(),
    {
        Self::new()
    }
}

} // verus!
