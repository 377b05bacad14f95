//! Rendering and scheduling core of a paginated document viewer.
//!
//! The crate turns a scrollable, zoomable viewport and a decoded page list
//! into a small set of rendering requests, keeps the queue of those requests
//! free of duplicates, drops the ones that scrolled out of sight before they
//! are decoded, and stores the finished images in a bounded cache.
//!
//! Every length and position is a whole number of [`geometry::UNITS_PER_PIXEL`]
//! parts of a pixel; zoom factors are counted in thousandths.

pub mod cache;
pub mod decode_service;
pub mod decoder;
pub mod entity;
pub mod geometry;
pub mod imaging;
pub mod keys;
pub mod layout;
pub mod link;
pub mod main_viewmodel;
pub mod numbers;
pub mod outline;
pub mod page;
pub mod page_info;
pub mod pixels;
pub mod reflow;
pub mod render_config;
pub mod speech_text;
pub mod text;
pub mod tile;
pub mod tts;
pub mod view_state;
pub mod visibility;
