//! The rendering pipeline.

pub mod animation;
pub mod asset_manager;
pub mod image_processor;
pub mod label_composer;
pub mod noise_generator;
pub mod text_renderer;

pub use asset_manager::{AssetManager, Raster, SerializableRgbaImage};
pub use image_processor::ImageProcessor;
pub use label_composer::LabelComposer;
pub use noise_generator::{random_noise, BurnMask};
pub use text_renderer::{SerializableTextRenderer, TextRenderer};
