//! Verified core of the Bloom asset-cooking tools: canonical identifiers,
//! command-line option grammars, content-addressed store bookkeeping,
//! meshlet partitioning and byte-level helpers.

pub mod text;
pub mod profile;
pub mod resolver;
pub mod bytes;
pub mod store;
pub mod numbers;
pub mod options;
pub mod benchmark;
pub mod meshlet;
pub mod hierarchy;
pub mod hierarchy_builder;
pub mod hierarchy_stats;
pub mod vertex_dedup;
pub mod primitive_rules;
pub mod texture;
pub mod index;
pub mod rng;
pub mod diff;
pub mod perf;
pub mod perf_cli;
pub mod pages;
pub mod records;
pub mod container;
pub mod readback;
pub mod install;
pub mod bvh;
pub mod sampling;
pub mod manifest;
pub mod texture_manifest;
pub mod artifact;
pub mod scene_manifest;
pub mod json;
pub mod manifest_json;
pub mod index_json;
pub mod cli;
pub mod diff_cli;
pub mod diff_images;
pub mod reference_cli;
