use vstd::prelude::*;

pub mod text;
pub mod classify;
pub mod topology;
pub mod aggregate;
pub mod project_tree;
pub mod archive;
pub mod report;
pub mod python;
pub mod detect;
pub mod scan;
pub mod cache;
pub mod techstack;
pub mod records;
pub mod js;
pub mod frontend;
pub mod rust_backend;
pub mod flutter;
pub mod config_text;
pub mod language_stats;
pub mod components;
pub mod tech_scan;
pub mod manifests;

verus! {

} // verus!
