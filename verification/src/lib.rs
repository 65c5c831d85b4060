use vstd::prelude::*;

pub mod app_error;
pub mod app_paths;
pub mod credential_store;
pub mod database;
pub mod domain;
pub mod gui;
pub mod jobs;
pub mod lingq;
pub mod perf;
pub mod services;
pub mod settings;
pub mod soziopolis;
pub mod text;
pub mod topics;

verus! {
}
