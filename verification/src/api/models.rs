//! Request and response bodies of the HTTP API.
use crate::ai::registry::{ModelConfig, ProviderRegistry};
use crate::domain::views::ConversationHistoryView;
use vstd::prelude::*;

verus! {

broadcast use vstd::string::group_string_axioms;

#[derive(Debug, Clone, PartialEq, Eq)]
pub struct CreateConversationRequest {
    pub title: Option<String>,
}

#[derive(Debug, Clone, PartialEq, Eq)]
pub struct CreateConversationResponse {
    pub id: String,
}

#[derive(Debug, Clone, PartialEq, Eq)]
pub struct UpdateConversationRequest {
    pub title: String,
}

#[derive(Debug, Clone, PartialEq, Eq)]
pub struct SendMessageRequest {
    pub content: String,
    pub model_id: Option<String>,
}

#[derive(Debug, Clone, PartialEq, Eq)]
pub struct AcceptedResponse {
    pub status: &'static str,
}

#[derive(Debug, Clone, PartialEq, Eq)]
pub struct HealthResponse {
    pub status: &'static str,
    pub service: &'static str,
    pub database: String,
    pub redis: String,
}

#[derive(Debug, Clone, PartialEq, Eq)]
pub struct ModelResponse {
    pub provider_id: String,
    pub model_id: String,
    pub display_name: String,
}

#[derive(Debug, Clone, PartialEq, Eq)]
pub struct ConversationResponse {
    pub history: ConversationHistoryView,
}

/// The answer to an accepted message.
pub fn accepted_response() -> (r: AcceptedResponse)
    ensures
        r.status@ == "accepted"@,
{
    AcceptedResponse { status: "accepted" }
}

/// The health report with the state of the database and of redis.
pub fn health_response(database: String, redis: String) -> (r: HealthResponse)
    ensures
        r.status@ == "ok"@,
        r.service@ == "orchid-backend"@,
        r.database == database,
        r.redis == redis,
{
    HealthResponse { status: "ok", service: "orchid-backend", database, redis }
}

/// The health report given without looking at the services.
pub fn static_health_response() -> (r: HealthResponse)
    ensures
        r.status@ == "ok"@,
        r.service@ == "orchid-backend"@,
        r.database@ == "configured"@,
        r.redis@ == "configured"@,
{
    health_response("configured".to_string(), "configured".to_string())
}

/// A model as listed to clients: its provider, and its id as its name.
pub open spec fn model_response_of(m: ModelConfig, r: ModelResponse) -> bool {
    r.provider_id == m.provider && r.model_id == m.model_id && r.display_name == m.model_id
}

/// The configured models as listed to clients, in registration order.
pub fn model_responses(registry: &ProviderRegistry) -> (r: Vec<ModelResponse>)
    ensures
        r@.len() == registry@.len(),
        forall|i: int| 0 <= i < r@.len() ==> model_response_of(registry@[i], #[trigger] r@[i]),
{
    let models = registry.list_models();
    let mut r: Vec<ModelResponse> = Vec::new();
    let mut i: usize = 0;
    while i < models.len()
        invariant
            models@.len() == registry@.len(),
            forall|j: int| 0 <= j < models@.len() ==> *(#[trigger] models@[j]) == registry@[j],
            i <= models@.len(),
            r@.len() == i,
            forall|j: int| 0 <= j < i ==> model_response_of(registry@[j], #[trigger] r@[j]),
        decreases models@.len() - i,
    {
        let m = models[i];
        r.push(
            ModelResponse {
                provider_id: m.provider.clone(),
                model_id: m.model_id.clone(),
                display_name: m.model_id.clone(),
            },
        );
        i = i + 1;
    }
    r
}

} // verus!
