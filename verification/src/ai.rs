//! AI model routing support: chat messages, model errors, the
//! OpenAI-compatible wire format, the registry of configured models, and
//! which backend serves each model.
pub mod backend;
pub mod registry;
pub mod router;

pub use backend::{ChatMessage, LlmError, OpenAiCompatBackend};
pub use registry::{ModelConfig, ProviderRegistry};
pub use router::ModelRoutes;
