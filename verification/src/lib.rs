//! Batch loading of named assets for the Bevy game engine.
//!
//! A [`Loader`] collects the names of assets to load, hands them to the asset
//! server as one batch, and tracks that batch until every request has come
//! to an end. Each operation on it carries a contract over the loader's
//! mathematical view, [`LoaderView`], and the laws that tie the operations
//! together are proved in [`laws`].

pub mod backend;
pub mod cells;
pub mod laws;
pub mod loader;
pub mod model;
pub mod progress;
pub mod queues;
pub mod state;

pub use loader::Loader;
pub use model::LoaderView;
pub use progress::{update_boot, BootUpdate, Ratio};
pub use state::{ContractViolation, LoadState, State};
