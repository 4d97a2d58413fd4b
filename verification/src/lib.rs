//! Image optimization core: formats, animation checks, summaries, batch
//! bookkeeping and output-path rules.

pub mod strings;
pub mod paths;
pub mod formats;
pub mod payloads;
pub mod heic;
pub mod animation;
pub mod float_model;
pub mod summary;
pub mod image;
pub mod events;
pub mod output_path;
pub mod cli;
pub mod temp_paths;
pub mod collect;
pub mod processor;
pub mod startup;
pub mod desktop;
pub mod tools;
pub mod svg;
