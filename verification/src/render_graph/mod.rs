pub mod access;
pub mod graph_theory;
pub mod pass_graph;
pub mod resource;
pub mod graph;
pub mod hazard;
pub mod id_map;
pub mod error;
pub mod graph_error;
pub mod pass_builder;
pub mod compile;
pub mod pipeline_cache;
pub mod pass_factories;
