use crate::models::class_type::ClassType;
use crate::models::hazard::Hazard;
use crate::utils::random::random_in_range;
use crate::utils::text::{zero_padded, zero_padded_string};
use vstd::prelude::*;
use vstd::string::StringExecFns;

verus! {

/// A colour with eight bits per channel; `a` is the opacity, 255 for opaque.
#[derive(Debug, Clone, Copy, PartialEq, Eq, Structural)]
pub struct SerializableColor {
    pub r: u8,
    pub g: u8,
    pub b: u8,
    pub a: u8,
}

impl SerializableColor {
    /// Opaque black.
    pub open spec fn spec_black() -> SerializableColor {
        SerializableColor { r: 0, g: 0, b: 0, a: 255 }
    }

    /// Opaque white.
    pub open spec fn spec_white() -> SerializableColor {
        SerializableColor { r: 255, g: 255, b: 255, a: 255 }
    }

    /// Black without any opacity.
    pub open spec fn spec_transparent() -> SerializableColor {
        SerializableColor { r: 0, g: 0, b: 0, a: 0 }
    }

    /// The channel with index `c`, in the order red, green, blue, opacity.
    pub open spec fn channel(self, c: int) -> u8 {
        if c == 0 {
            self.r
        } else if c == 1 {
            self.g
        } else if c == 2 {
            self.b
        } else {
            self.a
        }
    }

    /// Opaque black.
    pub fn black() -> (color: SerializableColor)
        ensures
            color == Self::spec_black(),
    {
        SerializableColor { r: 0, g: 0, b: 0, a: 255 }
    }

    /// Opaque white.
    pub fn white() -> (color: SerializableColor)
        ensures
            color == Self::spec_white(),
    {
        SerializableColor { r: 255, g: 255, b: 255, a: 255 }
    }

    /// Black without any opacity.
    pub fn transparent() -> (color: SerializableColor)
        ensures
            color == Self::spec_transparent(),
    {
        SerializableColor { r: 0, g: 0, b: 0, a: 0 }
    }
}

/// How a photo of any shape is fitted into its slot.
#[derive(Debug, Clone, Copy, PartialEq, Eq, Structural)]
pub enum ResizeMethod {
    CropToFit,
    Stretch,
    Letterbox,
}

/// The file format a label is written in.
#[derive(Debug, Clone, Copy, PartialEq, Eq, Structural)]
pub enum OutputFormat {
    Png,
    Jpeg,
}

/// The smallest font size, in pixels.
pub const MIN_FONT_SIZE: u16 = 24;

/// The largest font size, in pixels.
pub const MAX_FONT_SIZE: u16 = 72;

/// The smallest line spacing, in hundredths of the height of a line.
pub const MIN_LINE_SPACING: u32 = 50;

/// The largest line spacing, in hundredths of the height of a line.
pub const MAX_LINE_SPACING: u32 = 300;

/// The best quality an encoder can be asked for.
pub const MAX_OUTPUT_QUALITY: u8 = 100;

/// Everything a person can set about a label, as it stands for one
/// rendering. Lengths are whole pixels, the texture's opacity is a weight
/// from 0 to 255, and line spacings are hundredths of a line's height.
#[derive(Debug)]
pub struct LabelConfig {
    pub scp_number: String,
    pub object_class_text: String,
    pub class_type: ClassType,
    pub use_alternate_style: bool,
    pub resize_method: ResizeMethod,
    pub selected_hazard: Option<Hazard>,
    pub apply_texture: bool,
    pub texture_alpha: u8,
    pub output_resolution: u32,
    pub output_format: OutputFormat,
    pub output_quality: u8,
    pub scp_number_font_size: u16,
    pub object_class_font_size: u16,
    pub scp_text_offset: (i32, i32),
    pub class_text_offset: (i32, i32),
    pub scp_text_color: SerializableColor,
    pub class_text_color: SerializableColor,
    pub scp_line_spacing: u32,
    pub class_line_spacing: u32,
    pub apply_burn: bool,
}

impl LabelConfig {
    /// Two configurations hold the same settings.
    pub open spec fn same_settings(self, other: LabelConfig) -> bool {
        &&& self.scp_number@ == other.scp_number@
        &&& self.object_class_text@ == other.object_class_text@
        &&& self.class_type == other.class_type
        &&& self.use_alternate_style == other.use_alternate_style
        &&& self.resize_method == other.resize_method
        &&& self.selected_hazard == other.selected_hazard
        &&& self.apply_texture == other.apply_texture
        &&& self.texture_alpha == other.texture_alpha
        &&& self.output_resolution == other.output_resolution
        &&& self.output_format == other.output_format
        &&& self.output_quality == other.output_quality
        &&& self.scp_number_font_size == other.scp_number_font_size
        &&& self.object_class_font_size == other.object_class_font_size
        &&& self.scp_text_offset == other.scp_text_offset
        &&& self.class_text_offset == other.class_text_offset
        &&& self.scp_text_color == other.scp_text_color
        &&& self.class_text_color == other.class_text_color
        &&& self.scp_line_spacing == other.scp_line_spacing
        &&& self.class_line_spacing == other.class_line_spacing
        &&& self.apply_burn == other.apply_burn
    }
}

impl Clone for LabelConfig {
    fn clone(&self) -> (copy: Self)
        ensures
            copy.same_settings(*self),
    {
        LabelConfig {
            scp_number: self.scp_number.clone(),
            object_class_text: self.object_class_text.clone(),
            class_type: self.class_type,
            use_alternate_style: self.use_alternate_style,
            resize_method: self.resize_method,
            selected_hazard: self.selected_hazard,
            apply_texture: self.apply_texture,
            texture_alpha: self.texture_alpha,
            output_resolution: self.output_resolution,
            output_format: self.output_format,
            output_quality: self.output_quality,
            scp_number_font_size: self.scp_number_font_size,
            object_class_font_size: self.object_class_font_size,
            scp_text_offset: self.scp_text_offset,
            class_text_offset: self.class_text_offset,
            scp_text_color: self.scp_text_color,
            class_text_color: self.class_text_color,
            scp_line_spacing: self.scp_line_spacing,
            class_line_spacing: self.class_line_spacing,
            apply_burn: self.apply_burn,
        }
    }
}

/// The nearest value to `value` from `low` to `high`.
pub open spec fn clamped(value: int, low: int, high: int) -> int {
    if value < low {
        low
    } else if value > high {
        high
    } else {
        value
    }
}

impl LabelConfig {
    /// Every bounded setting lies in its documented range.
    pub open spec fn in_range(self) -> bool {
        &&& MIN_FONT_SIZE <= self.scp_number_font_size <= MAX_FONT_SIZE
        &&& MIN_FONT_SIZE <= self.object_class_font_size <= MAX_FONT_SIZE
        &&& MIN_LINE_SPACING <= self.scp_line_spacing <= MAX_LINE_SPACING
        &&& MIN_LINE_SPACING <= self.class_line_spacing <= MAX_LINE_SPACING
        &&& self.output_quality <= MAX_OUTPUT_QUALITY
    }

    /// The settings a new label starts with, but for its number.
    pub open spec fn has_default_settings(self) -> bool {
        &&& self.object_class_text@ == "SAFE"@
        &&& self.class_type == ClassType::Safe
        &&& !self.use_alternate_style
        &&& self.resize_method == ResizeMethod::CropToFit
        &&& self.selected_hazard is None
        &&& !self.apply_texture
        &&& self.texture_alpha == 76
        &&& self.output_resolution == 512
        &&& self.output_format == OutputFormat::Png
        &&& self.output_quality == 95
        &&& self.scp_number_font_size == 60
        &&& self.object_class_font_size == 60
        &&& self.scp_text_offset == (2i32, -7i32)
        &&& self.class_text_offset == (2i32, -7i32)
        &&& self.scp_text_color == SerializableColor::spec_black()
        &&& self.class_text_color == SerializableColor::spec_black()
        &&& self.scp_line_spacing == 120
        &&& self.class_line_spacing == 120
        &&& !self.apply_burn
    }

    /// Whether every bounded setting lies in its documented range.
    pub fn is_in_range(&self) -> (ok: bool)
        ensures
            ok == self.in_range(),
    {
        MIN_FONT_SIZE <= self.scp_number_font_size && self.scp_number_font_size <= MAX_FONT_SIZE
            && MIN_FONT_SIZE <= self.object_class_font_size && self.object_class_font_size
            <= MAX_FONT_SIZE && MIN_LINE_SPACING <= self.scp_line_spacing && self.scp_line_spacing
            <= MAX_LINE_SPACING && MIN_LINE_SPACING <= self.class_line_spacing
            && self.class_line_spacing <= MAX_LINE_SPACING && self.output_quality
            <= MAX_OUTPUT_QUALITY
    }

    /// Brings every bounded setting into its documented range, each to the
    /// nearest value allowed. Settings in range stay as they are, and so
    /// does everything that has no range.
    pub fn clamp_to_ranges(&mut self)
        ensures
            final(self).in_range(),
            final(self).scp_number_font_size == clamped(
                old(self).scp_number_font_size as int,
                MIN_FONT_SIZE as int,
                MAX_FONT_SIZE as int,
            ),
            final(self).object_class_font_size == clamped(
                old(self).object_class_font_size as int,
                MIN_FONT_SIZE as int,
                MAX_FONT_SIZE as int,
            ),
            final(self).scp_line_spacing == clamped(
                old(self).scp_line_spacing as int,
                MIN_LINE_SPACING as int,
                MAX_LINE_SPACING as int,
            ),
            final(self).class_line_spacing == clamped(
                old(self).class_line_spacing as int,
                MIN_LINE_SPACING as int,
                MAX_LINE_SPACING as int,
            ),
            final(self).output_quality == clamped(
                old(self).output_quality as int,
                0,
                MAX_OUTPUT_QUALITY as int,
            ),
            final(self).scp_number == old(self).scp_number,
            final(self).object_class_text == old(self).object_class_text,
            final(self).class_type == old(self).class_type,
            final(self).use_alternate_style == old(self).use_alternate_style,
            final(self).resize_method == old(self).resize_method,
            final(self).selected_hazard == old(self).selected_hazard,
            final(self).apply_texture == old(self).apply_texture,
            final(self).texture_alpha == old(self).texture_alpha,
            final(self).output_resolution == old(self).output_resolution,
            final(self).output_format == old(self).output_format,
            final(self).scp_text_offset == old(self).scp_text_offset,
            final(self).class_text_offset == old(self).class_text_offset,
            final(self).scp_text_color == old(self).scp_text_color,
            final(self).class_text_color == old(self).class_text_color,
            final(self).apply_burn == old(self).apply_burn,
    {
        self.scp_number_font_size = clamp_font_size(self.scp_number_font_size);
        self.object_class_font_size = clamp_font_size(self.object_class_font_size);
        self.scp_line_spacing = clamp_line_spacing(self.scp_line_spacing);
        self.class_line_spacing = clamp_line_spacing(self.class_line_spacing);
        if self.output_quality > MAX_OUTPUT_QUALITY {
            self.output_quality = MAX_OUTPUT_QUALITY;
        }
    }

    /// The settings a new label starts with, for the object with the given
    /// number, which is written with three digits at least.
    pub fn with_scp_number(number: u32) -> (config: Self)
        ensures
            config.scp_number@ == zero_padded(number as nat, 3),
            config.has_default_settings(),
            config.in_range(),
    {
        LabelConfig {
            scp_number: zero_padded_string(number, 3),
            object_class_text: String::from_str("SAFE"),
            class_type: ClassType::Safe,
            use_alternate_style: false,
            resize_method: ResizeMethod::CropToFit,
            selected_hazard: None,
            apply_texture: false,
            texture_alpha: 76,
            output_resolution: 512,
            output_format: OutputFormat::Png,
            output_quality: 95,
            scp_number_font_size: 60,
            object_class_font_size: 60,
            scp_text_offset: (2, -7),
            class_text_offset: (2, -7),
            scp_text_color: SerializableColor::black(),
            class_text_color: SerializableColor::black(),
            scp_line_spacing: 120,
            class_line_spacing: 120,
            apply_burn: false,
        }
    }
}

/// The nearest font size allowed.
pub fn clamp_font_size(size: u16) -> (result: u16)
    ensures
        result == clamped(size as int, MIN_FONT_SIZE as int, MAX_FONT_SIZE as int),
{
    if size < MIN_FONT_SIZE {
        MIN_FONT_SIZE
    } else if size > MAX_FONT_SIZE {
        MAX_FONT_SIZE
    } else {
        size
    }
}

/// The nearest line spacing allowed.
pub fn clamp_line_spacing(spacing: u32) -> (result: u32)
    ensures
        result == clamped(spacing as int, MIN_LINE_SPACING as int, MAX_LINE_SPACING as int),
{
    if spacing < MIN_LINE_SPACING {
        MIN_LINE_SPACING
    } else if spacing > MAX_LINE_SPACING {
        MAX_LINE_SPACING
    } else {
        spacing
    }
}

impl Default for LabelConfig {
    /// The settings a new label starts with, for an object whose number
    /// is drawn at random from 1 to 1000.
    fn default() -> (config: Self)
        ensures
            exists|number: nat|
                1 <= number <= 1000 && config.scp_number@ == #[trigger] zero_padded(number, 3),
            config.has_default_settings(),
            config.in_range(),
    {
        let number = random_in_range(1, 1000);
        let config = LabelConfig::with_scp_number(number);
        assert(config.scp_number@ == zero_padded(number as nat, 3));
        config
    }
}

/// What a check of a photo against its slot found.
#[derive(Debug, Clone, Copy, PartialEq, Eq, Structural)]
pub enum ValidationStatus {
    PerfectFit,
    WillCrop,
    WillStretch,
    NoImage,
}

/// The outcome of checking a photo against its slot, with the words shown
/// to the person who chose it.
#[derive(Debug)]
pub struct ImageValidation {
    pub status: ValidationStatus,
    pub source_dimensions: (u32, u32),
    pub target_dimensions: (u32, u32),
    pub message: String,
}

impl Clone for ImageValidation {
    fn clone(&self) -> (copy: Self)
        ensures
            copy.status == self.status,
            copy.source_dimensions == self.source_dimensions,
            copy.target_dimensions == self.target_dimensions,
            copy.message@ == self.message@,
    {
        ImageValidation {
            status: self.status,
            source_dimensions: self.source_dimensions,
            target_dimensions: self.target_dimensions,
            message: self.message.clone(),
        }
    }
}


} // verus!
