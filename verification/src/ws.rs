//! The chat socket protocol: frames in both directions, and how a reply is
//! streamed as tokens.
pub mod protocol;
