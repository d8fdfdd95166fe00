//! Verified core of a desktop wallpaper manager: image geometry, monitor
//! layouts, rotation rules, provider metadata mapping and catalog queries.
use vstd::prelude::*;

pub mod cache;
pub mod catalog;
pub mod collection;
pub mod commands;
pub mod error;
pub mod hashing;
pub mod identity;
pub mod image_processing;
pub mod models;
pub mod paths;
pub mod platform;
pub mod preset;
pub mod provider;
pub mod rotation;
pub mod scheduler;
pub mod settings;
pub mod span;
pub mod sync;
pub mod text;
pub mod urls;
pub mod wallpaper;

verus! {

} // verus!
