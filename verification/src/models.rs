//! The data model: classes, hazards, layout regions and render settings.

pub mod class_type;
pub mod hazard;
pub mod label_config;
pub mod layout;

pub use class_type::ClassType;
pub use hazard::Hazard;
pub use label_config::{
    ImageValidation, LabelConfig, OutputFormat, ResizeMethod, SerializableColor, ValidationStatus,
};
pub use layout::{
    Alignment, AlternateLayout, CommonLayout, NormalLayout, Rectangle, TextRegion, LABEL_SIZE,
};
