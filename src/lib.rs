//! Build orchestration for a static site generator: routing rules, content
//! model, content-addressed assets, the shared build context and the
//! decisions of the live-reload loop.

pub mod asset;
pub mod build_mode;
pub mod collect;
pub mod config;
pub mod constants;
pub mod content;
pub mod context;
pub mod events;
pub mod output;
pub mod path_config;
pub mod pathname;
pub mod paths;
pub mod render;
pub mod server;
pub mod sitemap;
pub mod store;
pub mod templating;
pub mod text;
pub mod utils;
pub mod watcher;
