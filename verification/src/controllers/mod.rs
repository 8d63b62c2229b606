//! The controllers: they decide when a collection pass is run.
pub mod pull;
pub mod push;

pub use pull::{pull, PullController, PullControllerBuilder};
pub use push::{PushAction, PushControllerWorker, PushMessage};
