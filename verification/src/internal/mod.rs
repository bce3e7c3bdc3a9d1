//! What the process is started with: environment variables, paths, model directories.

pub mod disk;
pub mod env;
pub mod metrics;
pub mod model_locator;
pub mod models;
pub mod ort_log;
pub mod path;
