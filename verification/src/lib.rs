pub mod config;
pub mod index;
pub mod json;
pub mod launch;
pub mod model;
pub mod order;
pub mod path;
pub mod provider;
pub mod providers;
pub mod search;
pub mod setup;
pub mod sources;
pub mod text;
pub mod ui;
pub mod windows;

pub use index::Index;
pub use model::{AppEntry, Icon, LaunchSpec, Source};
pub use provider::{Action, Activation, Hit, Provider, Registry, ResultItem, Tier, WatchSpec};
