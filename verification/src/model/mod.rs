pub mod configuration;
pub mod conversation;
