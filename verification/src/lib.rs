//! Built-in provider registry extension.
//!
//! The crate decides; its host observes and acts. [`event_loop::run`] takes observed rounds and
//! returns the effects that the host performs in order.

pub mod admission;
pub mod attempt;
pub mod cancellation;
pub mod cli;
pub mod clock;
pub mod credentials;
pub mod deadline;
pub mod event_loop;
pub mod exchange;
pub mod json;
pub mod models;
pub mod names;
pub mod oauth;
pub mod ownership;
pub mod pairs;
pub mod prewarm;
pub mod profiles;
pub mod prompt;
pub mod prompts;
pub mod quota;
pub mod report;
pub mod resolution;
pub mod retry;
pub mod rolling;
pub mod routes;
pub mod runtime;
pub mod scheduler;
pub mod settings;
pub mod setup;
pub mod stream;
pub mod subscriptions;
pub mod supervise;
pub mod text;
pub mod upkeep;
pub mod worker;
