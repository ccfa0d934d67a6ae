use vstd::prelude::*;
use vstd::string::StringExecFns;

verus! {

/// What can go wrong while a label is made. Variants that carry text hold
/// the detail reported by whatever failed.
#[derive(Debug, Clone)]
pub enum LabelError {
    ImageLoading(String),
    ImageProcessing(String),
    ImageSaving(String),
    AssetLoading(String),
    TextRendering(String),
    Io(String),
    NoImageSelected,
    ConfigLoading(String),
    InvalidImageFormat,
}

/// The process exit status reported for an outcome.
#[derive(Debug, Clone, Copy, PartialEq, Eq, Structural)]
pub enum CliExitCode {
    Success,
    GenericError,
    InvalidInput,
    AssetLoadFailure,
    ImageProcessingFailure,
    IoError,
    ConfigError,
}

impl CliExitCode {
    /// The number handed to the operating system.
    pub open spec fn spec_code(self) -> i32 {
        match self {
            CliExitCode::Success => 0,
            CliExitCode::GenericError => 1,
            CliExitCode::InvalidInput => 2,
            CliExitCode::AssetLoadFailure => 3,
            CliExitCode::ImageProcessingFailure => 4,
            CliExitCode::IoError => 5,
            CliExitCode::ConfigError => 6,
        }
    }

    /// The number handed to the operating system.
    pub fn code(&self) -> (code: i32)
        ensures
            code == self.spec_code(),
    {
        match self {
            CliExitCode::Success => 0,
            CliExitCode::GenericError => 1,
            CliExitCode::InvalidInput => 2,
            CliExitCode::AssetLoadFailure => 3,
            CliExitCode::ImageProcessingFailure => 4,
            CliExitCode::IoError => 5,
            CliExitCode::ConfigError => 6,
        }
    }
}

impl LabelError {
    /// The exit status an error maps to.
    pub open spec fn spec_exit_code(self) -> CliExitCode {
        match self {
            LabelError::ImageLoading(_) => CliExitCode::ImageProcessingFailure,
            LabelError::ImageProcessing(_) => CliExitCode::ImageProcessingFailure,
            LabelError::ImageSaving(_) => CliExitCode::ImageProcessingFailure,
            LabelError::AssetLoading(_) => CliExitCode::AssetLoadFailure,
            LabelError::TextRendering(_) => CliExitCode::GenericError,
            LabelError::Io(_) => CliExitCode::IoError,
            LabelError::NoImageSelected => CliExitCode::InvalidInput,
            LabelError::ConfigLoading(_) => CliExitCode::ConfigError,
            LabelError::InvalidImageFormat => CliExitCode::InvalidInput,
        }
    }

    /// The text shown to a person for an error.
    pub open spec fn spec_message(self) -> Seq<char> {
        match self {
            LabelError::ImageLoading(detail) => "Failed to load image: "@ + detail@,
            LabelError::ImageProcessing(detail) => "Failed to process image: "@ + detail@,
            LabelError::ImageSaving(detail) => "Failed to save image: "@ + detail@,
            LabelError::AssetLoading(detail) => "Failed to load asset: "@ + detail@,
            LabelError::TextRendering(detail) => "Failed to render text: "@ + detail@,
            LabelError::Io(detail) => "IO error: "@ + detail@,
            LabelError::NoImageSelected => "No image selected"@,
            LabelError::ConfigLoading(detail) => "Invalid configuration: "@ + detail@,
            LabelError::InvalidImageFormat => "Invalid image format"@,
        }
    }

    /// The exit status an error maps to.
    pub fn to_exit_code(&self) -> (code: CliExitCode)
        ensures
            code == self.spec_exit_code(),
    {
        match self {
            LabelError::ImageLoading(_)
            | LabelError::ImageProcessing(_)
            | LabelError::ImageSaving(_) => CliExitCode::ImageProcessingFailure,
            LabelError::AssetLoading(_) => CliExitCode::AssetLoadFailure,
            LabelError::TextRendering(_) => CliExitCode::GenericError,
            LabelError::Io(_) => CliExitCode::IoError,
            LabelError::NoImageSelected => CliExitCode::InvalidInput,
            LabelError::ConfigLoading(_) => CliExitCode::ConfigError,
            LabelError::InvalidImageFormat => CliExitCode::InvalidInput,
        }
    }

    /// The text shown to a person for an error.
    pub fn message(&self) -> (text: String)
        ensures
            text@ == self.spec_message(),
    {
        match self {
            LabelError::ImageLoading(detail) => {
                String::from_str("Failed to load image: ").concat(detail.as_str())
            },
            LabelError::ImageProcessing(detail) => {
                String::from_str("Failed to process image: ").concat(detail.as_str())
            },
            LabelError::ImageSaving(detail) => {
                String::from_str("Failed to save image: ").concat(detail.as_str())
            },
            LabelError::AssetLoading(detail) => {
                String::from_str("Failed to load asset: ").concat(detail.as_str())
            },
            LabelError::TextRendering(detail) => {
                String::from_str("Failed to render text: ").concat(detail.as_str())
            },
            LabelError::Io(detail) => String::from_str("IO error: ").concat(detail.as_str()),
            LabelError::NoImageSelected => String::from_str("No image selected"),
            LabelError::ConfigLoading(detail) => {
                String::from_str("Invalid configuration: ").concat(detail.as_str())
            },
            LabelError::InvalidImageFormat => String::from_str("Invalid image format"),
        }
    }
}

} // verus!
