//! Inventory of locally stored machine-learning models and an assessment of
//! whether the host can run them.
//!
//! The library reads nothing from the host itself. It is handed what was
//! read (listings of directories, the reports of the system's own tools)
//! and decides what they mean:
//!
//! - `models` tells whether a file is a model, and names it;
//! - `scan` finds the models in a directory tree;
//! - `discovery` gathers the models of every provider into one inventory;
//! - `resources` reads memory, storage and cores out of the system's
//!   reports;
//! - `compatibility` judges whether a model fits the host;
//! - `detection` decides whether Ollama is installed and running.
//!
//! `text`, `numbers`, `paths` and `reports` are what the others read text
//! with.

pub mod compatibility;
pub mod detection;
pub mod discovery;
pub mod models;
pub mod numbers;
pub mod paths;
pub mod platform;
pub mod reports;
pub mod resources;
pub mod scan;
pub mod text;
