use crate::models::label_config::{ImageValidation, ValidationStatus};
use crate::models::layout::NormalLayout;
use crate::render::asset_manager::SerializableRgbaImage;
use crate::render::image_processor::lemma_products_fit;
use crate::utils::text::{decimal, decimal_string};
use vstd::prelude::*;
use vstd::string::StringExecFns;

verus! {

/// Whether a photo of `width` by `height` pixels has the proportions of a
/// slot of `target_width` by `target_height`, to within a fiftieth:
/// the two ratios of width to height differ by less than 0.02.
pub open spec fn near_target_ratio(
    width: u32,
    height: u32,
    target_width: u32,
    target_height: u32,
) -> bool {
    let cross = width * target_height - target_width * height;
    &&& height > 0
    &&& target_height > 0
    &&& (if cross >= 0 {
        cross
    } else {
        -cross
    }) * 50 < height * target_height
}

/// The words for a photo that fits as it is.
pub open spec fn perfect_message(width: u32, height: u32) -> Seq<char> {
    "OK: Image is perfect ("@ + decimal(width as nat) + "×"@ + decimal(height as nat) + ")"@
}

/// The words for a photo that will lose its edges.
pub open spec fn crop_message(
    width: u32,
    height: u32,
    target_width: u32,
    target_height: u32,
) -> Seq<char> {
    "Warning: Image will be cropped ("@ + decimal(width as nat) + "×"@ + decimal(height as nat)
        + " → "@ + decimal(target_width as nat) + "×"@ + decimal(target_height as nat) + ")"@
}

/// Whether a photo has the proportions of a slot, to within a fiftieth.
pub fn has_target_ratio(width: u32, height: u32, target_width: u32, target_height: u32) -> (near:
    bool)
    ensures
        near == near_target_ratio(width, height, target_width, target_height),
{
    if height == 0 || target_height == 0 {
        return false;
    }
    proof {
        lemma_products_fit(width, target_height);
        lemma_products_fit(target_width, height);
        lemma_products_fit(height, target_height);
    }
    let left: u128 = (width as u128) * (target_height as u128);
    let right: u128 = (target_width as u128) * (height as u128);
    let gap: u128 = if left >= right {
        left - right
    } else {
        right - left
    };
    gap * 50 < (height as u128) * (target_height as u128)
}

/// Checks a photo against the slot it is shown in.
pub fn validate_user_image(image: &SerializableRgbaImage) -> (validation: ImageValidation)
    ensures
        validated(validation, image.width, image.height),
{
    validate_dimensions(image.width, image.height)
}

/// What the check of a photo of `width` by `height` pixels must say: it
/// fits as it is where its proportions are the slot's to within a
/// fiftieth, and is cropped otherwise.
pub open spec fn validated(validation: ImageValidation, width: u32, height: u32) -> bool {
    let slot = NormalLayout::spec_user_image();
    &&& validation.source_dimensions == (width, height)
    &&& validation.target_dimensions == (slot.width, slot.height)
    &&& near_target_ratio(width, height, slot.width, slot.height) ==> validation.status
        == ValidationStatus::PerfectFit && validation.message@ == perfect_message(width, height)
    &&& !near_target_ratio(width, height, slot.width, slot.height) ==> validation.status
        == ValidationStatus::WillCrop && validation.message@ == crop_message(
        width,
        height,
        slot.width,
        slot.height,
    )
}

/// Checks the size of a photo against the slot it is shown in, and says
/// in words what will happen to the photo.
pub fn validate_dimensions(width: u32, height: u32) -> (validation: ImageValidation)
    ensures
        validated(validation, width, height),
{
    let slot = NormalLayout::user_image();
    let target = (slot.width, slot.height);
    if has_target_ratio(width, height, target.0, target.1) {
        let mut message = String::from_str("OK: Image is perfect (");
        message.append(decimal_string(width).as_str());
        message.append("×");
        message.append(decimal_string(height).as_str());
        message.append(")");
        ImageValidation {
            status: ValidationStatus::PerfectFit,
            source_dimensions: (width, height),
            target_dimensions: target,
            message,
        }
    } else {
        let mut message = String::from_str("Warning: Image will be cropped (");
        message.append(decimal_string(width).as_str());
        message.append("×");
        message.append(decimal_string(height).as_str());
        message.append(" → ");
        message.append(decimal_string(target.0).as_str());
        message.append("×");
        message.append(decimal_string(target.1).as_str());
        message.append(")");
        ImageValidation {
            status: ValidationStatus::WillCrop,
            source_dimensions: (width, height),
            target_dimensions: target,
            message,
        }
    }
}

} // verus!
