//! Errors and input checks shared by the rendering pipeline.

pub mod error;
pub mod parse;
pub mod random;
pub mod text;
pub mod validation;

pub use error::{CliExitCode, LabelError};
pub use validation::validate_user_image;
