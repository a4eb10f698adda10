//! Request-handling logic of the HTTP API, one module per resource.
pub mod stats;
pub mod api_keys;
pub mod training;
pub mod files;
pub mod org;
pub mod auth;
pub mod health;
pub mod admin;
pub mod broadcasts;
pub mod events;
pub mod publications;
pub mod users;
pub mod feedback;
pub mod incidents;
pub mod integrations;
pub mod event_ops;
pub mod training_admin;
pub mod dev;
pub mod welcome_messages;
