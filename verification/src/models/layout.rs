use vstd::prelude::*;

verus! {

/// Side of the square every label is composed on, in pixels.
pub const LABEL_SIZE: u32 = 512;

/// A slot for an image: top-left corner and size, in pixels.
#[derive(Debug, Clone, Copy, PartialEq, Eq, Structural)]
pub struct Rectangle {
    pub x: u32,
    pub y: u32,
    pub width: u32,
    pub height: u32,
}

/// How a line of text sits in the span `x .. x + max_width` of its region.
#[derive(Debug, Clone, Copy, PartialEq, Eq, Structural)]
pub enum Alignment {
    Left,
    Center,
    Right,
    CenterLeft,
}

/// A slot for text: the span a line is aligned in and the height the block
/// of lines is centred on.
#[derive(Debug, Clone, Copy, PartialEq, Eq, Structural)]
pub struct TextRegion {
    pub x: u32,
    pub y: u32,
    pub max_width: u32,
    pub alignment: Alignment,
}

impl Rectangle {
    /// The rectangle lies on a label of `LABEL_SIZE` pixels a side.
    pub open spec fn within_label(self) -> bool {
        &&& self.x + self.width <= LABEL_SIZE
        &&& self.y + self.height <= LABEL_SIZE
    }

    /// The rectangle has at least one pixel.
    pub open spec fn non_empty(self) -> bool {
        self.width > 0 && self.height > 0
    }
}

impl TextRegion {
    /// The span and the anchor height lie on a label of `LABEL_SIZE` pixels a side.
    pub open spec fn within_label(self) -> bool {
        &&& self.x + self.max_width <= LABEL_SIZE
        &&& self.y <= LABEL_SIZE
    }
}

/// Regions that both styles share.
pub struct CommonLayout;

/// Regions of the normal style, which shows a photo beside the hazard icon.
pub struct NormalLayout;

/// Regions of the alternate style, which shows no photo.
pub struct AlternateLayout;

impl CommonLayout {
    /// The banner across the top of the label.
    pub open spec fn spec_banner() -> Rectangle {
        Rectangle { x: 0, y: 0, width: 512, height: 128 }
    }

    /// Where the object's number is written.
    pub open spec fn spec_scp_number() -> TextRegion {
        TextRegion { x: 113, y: 165, max_width: 240, alignment: Alignment::Left }
    }

    /// Where the words that introduce the class stand.
    pub open spec fn spec_object_class_label() -> TextRegion {
        TextRegion { x: 25, y: 195, max_width: 240, alignment: Alignment::Left }
    }

    /// Where the object's class is written.
    pub open spec fn spec_object_class_text() -> TextRegion {
        TextRegion { x: 304, y: 226, max_width: 150, alignment: Alignment::Left }
    }

    /// The banner across the top of the label.
    pub fn banner() -> (region: Rectangle)
        ensures
            region == Self::spec_banner(),
    {
        Rectangle { x: 0, y: 0, width: 512, height: 128 }
    }

    /// Where the object's number is written.
    pub fn scp_number() -> (region: TextRegion)
        ensures
            region == Self::spec_scp_number(),
    {
        TextRegion { x: 113, y: 165, max_width: 240, alignment: Alignment::Left }
    }

    /// Where the words that introduce the class stand.
    pub fn object_class_label() -> (region: TextRegion)
        ensures
            region == Self::spec_object_class_label(),
    {
        TextRegion { x: 25, y: 195, max_width: 240, alignment: Alignment::Left }
    }

    /// Where the object's class is written.
    pub fn object_class_text() -> (region: TextRegion)
        ensures
            region == Self::spec_object_class_text(),
    {
        TextRegion { x: 304, y: 226, max_width: 150, alignment: Alignment::Left }
    }
}

impl NormalLayout {
    /// The slot of the hazard icon.
    pub open spec fn spec_hazard_icon() -> Rectangle {
        Rectangle { x: 15, y: 256, width: 233, height: 240 }
    }

    /// The slot of the photo.
    pub open spec fn spec_user_image() -> Rectangle {
        Rectangle { x: 264, y: 256, width: 233, height: 240 }
    }

    /// The slot of the hazard icon.
    pub fn hazard_icon() -> (region: Rectangle)
        ensures
            region == Self::spec_hazard_icon(),
    {
        Rectangle { x: 15, y: 256, width: 233, height: 240 }
    }

    /// The slot of the photo.
    pub fn user_image() -> (region: Rectangle)
        ensures
            region == Self::spec_user_image(),
    {
        Rectangle { x: 264, y: 256, width: 233, height: 240 }
    }
}

impl AlternateLayout {
    /// The slot of the hazard icon.
    pub open spec fn spec_hazard_icon() -> Rectangle {
        Rectangle { x: 137, y: 256, width: 233, height: 240 }
    }

    /// Where the object's number is written.
    pub open spec fn spec_scp_number() -> TextRegion {
        TextRegion { x: 268, y: 167, max_width: 150, alignment: Alignment::Left }
    }

    /// Where the object's class is written.
    pub open spec fn spec_object_class_text() -> TextRegion {
        TextRegion { x: 347, y: 226, max_width: 150, alignment: Alignment::Left }
    }

    /// The slot of the hazard icon.
    pub fn hazard_icon() -> (region: Rectangle)
        ensures
            region == Self::spec_hazard_icon(),
    {
        Rectangle { x: 137, y: 256, width: 233, height: 240 }
    }

    /// Where the object's number is written.
    pub fn scp_number() -> (region: TextRegion)
        ensures
            region == Self::spec_scp_number(),
    {
        TextRegion { x: 268, y: 167, max_width: 150, alignment: Alignment::Left }
    }

    /// Where the object's class is written.
    pub fn object_class_text() -> (region: TextRegion)
        ensures
            region == Self::spec_object_class_text(),
    {
        TextRegion { x: 347, y: 226, max_width: 150, alignment: Alignment::Left }
    }
}

/// Every image slot and every text region of both styles lies on the label,
/// and no image slot is empty.
pub proof fn lemma_regions_within_label()
    ensures
        CommonLayout::spec_banner().within_label(),
        CommonLayout::spec_scp_number().within_label(),
        CommonLayout::spec_object_class_label().within_label(),
        CommonLayout::spec_object_class_text().within_label(),
        NormalLayout::spec_hazard_icon().within_label(),
        NormalLayout::spec_hazard_icon().non_empty(),
        NormalLayout::spec_user_image().within_label(),
        NormalLayout::spec_user_image().non_empty(),
        AlternateLayout::spec_hazard_icon().within_label(),
        AlternateLayout::spec_hazard_icon().non_empty(),
        AlternateLayout::spec_scp_number().within_label(),
        AlternateLayout::spec_object_class_text().within_label(),
{
}

} // verus!
