//! Wallpaper palette extraction: samples a bitmap, clusters its colors with
//! k-means (k-means++ seeding), and turns the centroids into a sixteen-slot
//! terminal color scheme, together with the configuration, platform and
//! template helpers around it.
//!
//! Colors are exact integers: each channel is a 16-bit intensity, and
//! fractional amounts are given in thousandths.

// The color pipeline.
pub mod color;
pub mod sort;
pub mod cluster;
pub mod sampler;
pub mod palette;
pub mod scheme;
pub mod extractor;
pub mod templates;
pub mod random;

// Settings and the desktop around the pipeline.
pub mod config;
pub mod display;
pub mod detect;
pub mod duration;
pub mod logging;
pub mod appearance;
pub mod platform;
pub mod backends;
pub mod downloaders;
pub mod daemon;
pub mod tui;
pub mod updater;

// Text helpers shared by the modules above.
pub mod text;
