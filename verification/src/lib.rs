//! The conversation model and prompt logic of a chat front end for a local
//! LLaMA model: roles, messages and conversations, the choice of model, the
//! prompts fed to the model, and the filter that keeps the stop sequence out
//! of the text streamed back to the client.

pub mod api;
pub mod model;
pub mod text;
