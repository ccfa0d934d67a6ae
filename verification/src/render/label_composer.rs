use crate::models::label_config::{
    clamp_font_size, clamp_line_spacing, clamped, LabelConfig, SerializableColor, MAX_FONT_SIZE,
    MAX_LINE_SPACING, MIN_FONT_SIZE, MIN_LINE_SPACING,
};
use crate::models::layout::{
    AlternateLayout, CommonLayout, NormalLayout, Rectangle, TextRegion, LABEL_SIZE,
};
use crate::render::asset_manager::{
    lemma_clear_is_transparent, lemma_offset_in_bounds, lemma_same_channels, AssetManager, Raster,
    SerializableRgbaImage,
};
use crate::render::image_processor::{
    can_resample, covered, in_rectangle, is_resampling_of, laid_over, overlay_image, resamplable,
    resize_lanczos3, ImageProcessor,
};
use crate::render::noise_generator::{BurnMask, MaskView};
use crate::render::text_renderer::{
    beyond_text, font_is_valid, rendered_text, retained_count, split_lines, TextRenderer,
};
use crate::utils::error::LabelError;
use vstd::string::StringExecFns;
use vstd::arithmetic::div_mod::lemma_fundamental_div_mod_converse;
use vstd::prelude::*;

verus! {

/// One channel of a canvas pixel after a texture pixel is laid over it
/// with weight `alpha` out of 255.
pub open spec fn blend_channel(canvas: u8, texture: u8, alpha: u8) -> u8 {
    ((canvas * (255 - alpha) + texture * alpha) / 255) as u8
}

/// One channel of a canvas pixel after it is darkened with weight
/// `weight` out of 255.
pub open spec fn burn_channel(value: u8, weight: u8) -> u8 {
    (value * (255 - weight) / 255) as u8
}

/// Byte `i` of a canvas after the texture is laid over it: the colour
/// channels of every pixel that the texture reaches are blended, the
/// opacity of every pixel and all of the pixels beyond the texture stay.
pub open spec fn textured_byte(canvas: Raster, texture: Raster, alpha: u8, i: int) -> u8 {
    let pixel = i / 4;
    let c = i % 4;
    let x = pixel % (canvas.width as int);
    let y = pixel / (canvas.width as int);
    if c < 3 && texture.contains(x, y) {
        blend_channel(canvas.pixels[i], texture.channel(x, y, c), alpha)
    } else {
        canvas.pixels[i]
    }
}

/// A canvas after the texture is laid over it.
pub open spec fn textured(canvas: Raster, texture: Raster, alpha: u8) -> Raster {
    Raster {
        width: canvas.width,
        height: canvas.height,
        pixels: Seq::new(canvas.pixels.len(), |i: int| textured_byte(canvas, texture, alpha, i)),
    }
}

/// Byte `i` of a canvas after a burn mask is applied: the colour channels
/// of every pixel that the mask reaches are darkened by the mask's weight
/// there, the opacity of every pixel and all of the pixels beyond the mask
/// stay.
pub open spec fn burned_byte(canvas: Raster, mask: MaskView, i: int) -> u8 {
    let pixel = i / 4;
    let c = i % 4;
    let x = pixel % (canvas.width as int);
    let y = pixel / (canvas.width as int);
    if c < 3 && mask.contains(x, y) {
        burn_channel(canvas.pixels[i], mask.value(x, y))
    } else {
        canvas.pixels[i]
    }
}

/// A canvas after a burn mask is applied.
pub open spec fn burned(canvas: Raster, mask: MaskView) -> Raster {
    Raster {
        width: canvas.width,
        height: canvas.height,
        pixels: Seq::new(canvas.pixels.len(), |i: int| burned_byte(canvas, mask, i)),
    }
}

/// A weighted sum of two channels, over 255, is a channel again.
pub proof fn lemma_blend_in_range(canvas: u8, texture: u8, alpha: u8)
    ensures
        0 <= canvas * (255 - alpha) + texture * alpha <= 255 * 255,
        0 <= (canvas * (255 - alpha) + texture * alpha) / 255 <= 255,
{
    assert(0 <= canvas * (255 - alpha) <= 255 * (255 - alpha)) by (nonlinear_arith)
        requires
            0 <= canvas <= 255,
            0 <= 255 - alpha,
    ;
    assert(0 <= texture * alpha <= 255 * alpha) by (nonlinear_arith)
        requires
            0 <= texture <= 255,
            0 <= alpha,
    ;
}

/// A channel darkened is a channel again, and no brighter than before.
pub proof fn lemma_burn_in_range(value: u8, weight: u8)
    ensures
        0 <= value * (255 - weight) <= 255 * 255,
        0 <= value * (255 - weight) / 255 <= value,
{
    assert(0 <= value * (255 - weight) <= value * 255) by (nonlinear_arith)
        requires
            0 <= value <= 255,
            0 <= 255 - weight <= 255,
    ;
}

/// A texture of weight 0 leaves a channel as it is, one of weight 255
/// puts its own channel in its place.
pub proof fn lemma_blend_extremes(canvas: u8, texture: u8)
    ensures
        blend_channel(canvas, texture, 0) == canvas,
        blend_channel(canvas, texture, 255) == texture,
{
    assert(canvas * (255 - 0) + texture * 0 == canvas * 255) by (nonlinear_arith);
    assert(canvas * (255 - 255) + texture * 255 == texture * 255) by (nonlinear_arith);
}

/// A burn of weight 0 leaves a channel as it is, one of weight 255 makes
/// it black, and a heavier burn never leaves a channel brighter.
pub proof fn lemma_burn_extremes(value: u8, weight: u8, heavier: u8)
    requires
        weight <= heavier,
    ensures
        burn_channel(value, 0) == value,
        burn_channel(value, 255) == 0,
        burn_channel(value, heavier) <= burn_channel(value, weight) <= value,
{
    lemma_burn_in_range(value, weight);
    lemma_burn_in_range(value, heavier);
    assert(value * (255 - 0) == value * 255) by (nonlinear_arith);
    assert(value * (255 - 255) == 0) by (nonlinear_arith);
    assert(value * (255 - heavier) <= value * (255 - weight)) by (nonlinear_arith)
        requires
            0 <= value,
            255 - heavier <= 255 - weight,
    ;
}

/// The bytes of pixel `(x, y)` of an image stand at the indices from which
/// `x`, `y` and the channel are read back.
pub proof fn lemma_byte_position(width: nat, x: int, y: int, c: int)
    requires
        0 <= x < width,
        0 <= y,
        0 <= c < 4,
    ensures
        ({
            let i = (y * width + x) * 4 + c;
            &&& i / 4 == y * width + x
            &&& i % 4 == c
            &&& (i / 4) % (width as int) == x
            &&& (i / 4) / (width as int) == y
        }),
{
    let pixel = y * width + x;
    lemma_fundamental_div_mod_converse(pixel * 4 + c, 4, pixel, c);
    lemma_fundamental_div_mod_converse(pixel, width as int, y, x);
}

/// What laying a texture over a canvas does, pixel by pixel: a colour
/// channel of a pixel that the texture reaches becomes the weighted sum of
/// the two, and everything else stays.
pub proof fn lemma_textured_pixel(
    canvas: Raster,
    texture: Raster,
    alpha: u8,
    x: int,
    y: int,
    c: int,
)
    requires
        canvas.wf(),
        canvas.contains(x, y),
        0 <= c < 4,
    ensures
        textured(canvas, texture, alpha).channel(x, y, c) == (if c < 3 && texture.contains(x, y) {
            blend_channel(canvas.channel(x, y, c), texture.channel(x, y, c), alpha)
        } else {
            canvas.channel(x, y, c)
        }),
{
    lemma_offset_in_bounds(canvas.width, canvas.height, x, y);
    lemma_byte_position(canvas.width, x, y, c);
}

/// What applying a burn mask to a canvas does, pixel by pixel: a colour
/// channel of a pixel that the mask reaches is darkened by the weight
/// there, and everything else stays.
pub proof fn lemma_burned_pixel(canvas: Raster, mask: MaskView, x: int, y: int, c: int)
    requires
        canvas.wf(),
        canvas.contains(x, y),
        0 <= c < 4,
    ensures
        burned(canvas, mask).channel(x, y, c) == (if c < 3 && mask.contains(x, y) {
            burn_channel(canvas.channel(x, y, c), mask.value(x, y))
        } else {
            canvas.channel(x, y, c)
        }),
{
    lemma_offset_in_bounds(canvas.width, canvas.height, x, y);
    lemma_byte_position(canvas.width, x, y, c);
}

/// A texture laid over a canvas with weight 0 leaves the canvas as it
/// is: the same as laying none.
pub proof fn lemma_texture_of_no_weight(canvas: Raster, texture: Raster)
    ensures
        textured(canvas, texture, 0) == canvas,
{
    assert forall|i: int| 0 <= i < canvas.pixels.len() implies textured_byte(
        canvas,
        texture,
        0,
        i,
    ) == canvas.pixels[i] by {
        let pixel = i / 4;
        let c = i % 4;
        let x = pixel % (canvas.width as int);
        let y = pixel / (canvas.width as int);
        lemma_blend_extremes(canvas.pixels[i], texture.channel(x, y, c));
    }
    assert(textured(canvas, texture, 0).pixels =~= canvas.pixels);
}

/// A texture laid over a canvas with full weight puts its own colour on
/// every pixel that both have, and leaves that pixel's opacity as it was.
pub proof fn lemma_texture_of_full_weight(canvas: Raster, texture: Raster, x: int, y: int, c: int)
    requires
        canvas.wf(),
        canvas.contains(x, y),
        texture.contains(x, y),
        0 <= c < 4,
    ensures
        textured(canvas, texture, 255).channel(x, y, c) == (if c < 3 {
            texture.channel(x, y, c)
        } else {
            canvas.channel(x, y, 3)
        }),
{
    lemma_textured_pixel(canvas, texture, 255, x, y, c);
    lemma_blend_extremes(canvas.channel(x, y, c), texture.channel(x, y, c));
}

/// A burn mask whose weights are all 0 leaves the canvas as it is.
pub proof fn lemma_burn_of_no_weight(canvas: Raster, mask: MaskView)
    requires
        forall|i: int| 0 <= i < mask.values.len() ==> mask.values[i] == 0,
        mask.wf(),
    ensures
        burned(canvas, mask) == canvas,
{
    assert forall|i: int| 0 <= i < canvas.pixels.len() implies burned_byte(canvas, mask, i)
        == canvas.pixels[i] by {
        let pixel = i / 4;
        let c = i % 4;
        let x = pixel % (canvas.width as int);
        let y = pixel / (canvas.width as int);
        if c < 3 && mask.contains(x, y) {
            lemma_mask_index_in_bounds(mask, x, y);
            lemma_burn_extremes(canvas.pixels[i], 0, 0);
        }
    }
    assert(burned(canvas, mask).pixels =~= canvas.pixels);
}

/// The weight of a pixel on a mask stands inside the mask's buffer.
pub proof fn lemma_mask_index_in_bounds(mask: MaskView, x: int, y: int)
    requires
        mask.wf(),
        mask.contains(x, y),
    ensures
        0 <= y * mask.width + x < mask.values.len(),
{
    lemma_offset_in_bounds(mask.width, mask.height, x, y);
}

/// A texture switched on with no weight finishes a canvas as no texture
/// does, whatever the burn.
pub proof fn lemma_finish_texture_of_no_weight(
    base: Raster,
    alpha: u8,
    texture: Raster,
    apply_burn: bool,
    burn_mask: Option<MaskView>,
)
    ensures
        LabelComposer::finish_of(base, true, 0, texture, apply_burn, burn_mask)
            == LabelComposer::finish_of(base, false, alpha, texture, apply_burn, burn_mask),
{
    lemma_texture_of_no_weight(base, texture);
}

/// A texture of full weight, with no burn after it, puts its own colour on
/// every pixel that it and the canvas both have and leaves that pixel's
/// opacity; every other pixel stays as it is.
pub proof fn lemma_finish_texture_of_full_weight(
    base: Raster,
    texture: Raster,
    x: int,
    y: int,
    c: int,
)
    requires
        base.wf(),
        base.contains(x, y),
        0 <= c < 4,
    ensures
        LabelComposer::finish_of(base, true, 255, texture, false, None).channel(x, y, c) == (if c
            < 3 && texture.contains(x, y) {
            texture.channel(x, y, c)
        } else {
            base.channel(x, y, c)
        }),
{
    lemma_textured_pixel(base, texture, 255, x, y, c);
    lemma_blend_extremes(base.channel(x, y, c), texture.channel(x, y, c));
}

/// A burn whose mask is zero everywhere finishes a canvas as no burn
/// does, whatever the texture.
pub proof fn lemma_finish_burn_of_no_weight(
    base: Raster,
    apply_texture: bool,
    alpha: u8,
    texture: Raster,
    burn_mask: MaskView,
    other_mask: Option<MaskView>,
)
    requires
        burn_mask.wf(),
        forall|i: int| 0 <= i < burn_mask.values.len() ==> burn_mask.values[i] == 0,
    ensures
        LabelComposer::finish_of(base, apply_texture, alpha, texture, true, Some(burn_mask))
            == LabelComposer::finish_of(base, apply_texture, alpha, texture, false, other_mask),
{
    let with_texture = LabelComposer::finish_of(base, apply_texture, alpha, texture, false, None);
    lemma_burn_of_no_weight(with_texture, burn_mask);
}

/// A burn comes after the texture and only darkens: no colour channel of
/// the finished canvas is brighter than without the burn, and a pixel
/// that the mask does not reach or weighs with zero, and every pixel's
/// opacity, is as without the burn.
pub proof fn lemma_finish_burn_darkens(
    base: Raster,
    apply_texture: bool,
    alpha: u8,
    texture: Raster,
    burn_mask: MaskView,
    x: int,
    y: int,
    c: int,
)
    requires
        base.wf(),
        base.contains(x, y),
        0 <= c < 4,
        burn_mask.wf(),
    ensures
        ({
            let plain = LabelComposer::finish_of(base, apply_texture, alpha, texture, false, None);
            let burnt = LabelComposer::finish_of(
                base,
                apply_texture,
                alpha,
                texture,
                true,
                Some(burn_mask),
            );
            &&& burnt == burned(plain, burn_mask)
            &&& burnt.channel(x, y, c) <= plain.channel(x, y, c)
            &&& c == 3 || !burn_mask.contains(x, y) || burn_mask.value(x, y) == 0
                ==> burnt.channel(x, y, c) == plain.channel(x, y, c)
        }),
{
    let plain = LabelComposer::finish_of(base, apply_texture, alpha, texture, false, None);
    assert(plain.wf() && plain.contains(x, y));
    lemma_burned_pixel(plain, burn_mask, x, y, c);
    if c < 3 && burn_mask.contains(x, y) {
        lemma_burn_extremes(plain.channel(x, y, c), 0, burn_mask.value(x, y));
    }
}

/// Where no photo is shown and no hazard is chosen, the canvas before
/// texture and burn is the template with both texts written on it, and
/// nothing about it is left open.
pub proof fn lemma_working_canvas_without_images(
    base: Raster,
    font: Seq<u8>,
    config: &LabelConfig,
    assets: &AssetManager,
    user_image: Option<&SerializableRgbaImage>,
)
    requires
        LabelComposer::is_working_canvas(base, font, config, assets, user_image),
        !LabelComposer::places_photo(config, user_image),
        config.selected_hazard is None,
    ensures
        base == LabelComposer::written(
            assets.spec_template(config.class_type, config.use_alternate_style),
            font,
            config,
        ),
{
}

/// One channel of a canvas pixel under a texture pixel of weight `alpha`.
fn blend(canvas: u8, texture: u8, alpha: u8) -> (mixed: u8)
    ensures
        mixed == blend_channel(canvas, texture, alpha),
{
    proof {
        lemma_blend_in_range(canvas, texture, alpha);
    }
    let sum: u32 = (canvas as u32) * (255 - alpha as u32) + (texture as u32) * (alpha as u32);
    (sum / 255) as u8
}

/// The colour with full opacity.
pub open spec fn spec_opaque(color: SerializableColor) -> SerializableColor {
    SerializableColor { r: color.r, g: color.g, b: color.b, a: 255 }
}

/// The font size that is used for a configured one: the nearest allowed.
pub open spec fn used_font_size(size: u16) -> u16 {
    clamped(size as int, MIN_FONT_SIZE as int, MAX_FONT_SIZE as int) as u16
}

/// The line spacing that is used for a configured one: the nearest
/// allowed.
pub open spec fn used_line_spacing(spacing: u32) -> u32 {
    clamped(spacing as int, MIN_LINE_SPACING as int, MAX_LINE_SPACING as int) as u32
}

/// The colour with full opacity.
fn opaque(color: SerializableColor) -> (solid: SerializableColor)
    ensures
        solid == spec_opaque(color),
{
    SerializableColor { r: color.r, g: color.g, b: color.b, a: 255 }
}

/// What a layer mixes into one pixel of a canvas: a colour, and the
/// weight out of 255 with which it takes the place of the canvas's own.
#[derive(Clone, Copy)]
pub struct Ink {
    pub r: u8,
    pub g: u8,
    pub b: u8,
    pub weight: u8,
}

impl Ink {
    /// The colour channel with index `c`, in the order red, green, blue.
    pub open spec fn channel(self, c: int) -> u8 {
        if c == 0 {
            self.r
        } else if c == 1 {
            self.g
        } else {
            self.b
        }
    }
}

/// A layer that is mixed into a canvas pixel by pixel: a texture with one
/// weight for all of its pixels, or a burn mask, which mixes in black
/// with the weight it holds for each pixel.
pub enum Layer<'a> {
    Texture(&'a SerializableRgbaImage, u8),
    Burn(&'a BurnMask),
}

impl<'a> Layer<'a> {
    /// The buffer of the layer holds exactly its pixels.
    pub open spec fn wf(self) -> bool {
        match self {
            Layer::Texture(texture, _) => texture.wf(),
            Layer::Burn(mask) => mask.wf(),
        }
    }

    /// What the layer mixes into pixel `(x, y)`, if it reaches that far.
    pub open spec fn spec_ink(self, x: int, y: int) -> Option<Ink> {
        match self {
            Layer::Texture(texture, alpha) => if texture@.contains(x, y) {
                Some(
                    Ink {
                        r: texture@.channel(x, y, 0),
                        g: texture@.channel(x, y, 1),
                        b: texture@.channel(x, y, 2),
                        weight: alpha,
                    },
                )
            } else {
                None
            },
            Layer::Burn(mask) => if mask@.contains(x, y) {
                Some(Ink { r: 0, g: 0, b: 0, weight: mask@.value(x, y) })
            } else {
                None
            },
        }
    }

    /// What the layer mixes into pixel `(x, y)`, if it reaches that far.
    pub fn ink(&self, x: u32, y: u32) -> (ink: Option<Ink>)
        requires
            self.wf(),
        ensures
            ink == self.spec_ink(x as int, y as int),
    {
        match self {
            Layer::Texture(texture, alpha) => match texture.get_pixel_checked(x, y) {
                Some(pixel) => Some(Ink { r: pixel.r, g: pixel.g, b: pixel.b, weight: *alpha }),
                None => None,
            },
            Layer::Burn(mask) => if x < mask.width && y < mask.height {
                proof {
                    lemma_mask_index_in_bounds(mask@, x as int, y as int);
                    vstd::std_specs::vec::axiom_spec_len(&mask.values);
                }
                let weight = mask.values[(y as usize) * (mask.width as usize) + (x as usize)];
                Some(Ink { r: 0, g: 0, b: 0, weight })
            } else {
                None
            },
        }
    }
}

/// Byte `i` of a canvas after a layer is mixed into it: each colour
/// channel of a pixel that the layer reaches becomes the weighted sum of
/// its own value and the layer's; the opacity of every pixel and all of
/// the pixels beyond the layer stay.
pub open spec fn mixed_byte(canvas: Raster, layer: Layer, i: int) -> u8 {
    let pixel = i / 4;
    let c = i % 4;
    let x = pixel % (canvas.width as int);
    let y = pixel / (canvas.width as int);
    if c < 3 && layer.spec_ink(x, y) is Some {
        blend_channel(
            canvas.pixels[i],
            layer.spec_ink(x, y)->0.channel(c),
            layer.spec_ink(x, y)->0.weight,
        )
    } else {
        canvas.pixels[i]
    }
}

/// A canvas after a layer is mixed into it.
pub open spec fn mixed(canvas: Raster, layer: Layer) -> Raster {
    Raster {
        width: canvas.width,
        height: canvas.height,
        pixels: Seq::new(canvas.pixels.len(), |i: int| mixed_byte(canvas, layer, i)),
    }
}

/// Mixes a layer into a canvas, pixel by pixel.
pub fn mix(canvas: &mut SerializableRgbaImage, layer: &Layer)
    requires
        old(canvas).wf(),
        layer.wf(),
    ensures
        final(canvas).wf(),
        final(canvas)@ == mixed(old(canvas)@, *layer),
{
    let width = canvas.width;
    let height = canvas.height;
    if width == 0 || height == 0 {
        assert(canvas@.pixels =~= mixed(old(canvas)@, *layer).pixels) by {
            assert(canvas@.pixels.len() == 0) by (nonlinear_arith)
                requires
                    canvas@.pixels.len() == width * height * 4,
                    width == 0 || height == 0,
            ;
        }
        return ;
    }
    let ghost before = canvas@;
    let mut y: u32 = 0;
    while y < height
        invariant
            before == old(canvas)@,
            before.wf(),
            layer.wf(),
            canvas.width == width,
            canvas.height == height,
            width > 0,
            canvas@.pixels.len() == before.pixels.len(),
            before.width == width,
            before.height == height,
            y <= height,
            forall|i: int|
                0 <= i < y * width * 4 ==> canvas@.pixels[i] == mixed_byte(before, *layer, i),
            forall|i: int|
                y * width * 4 <= i < before.pixels.len() ==> canvas@.pixels[i] == before.pixels[i],
        decreases height - y,
    {
        let mut x: u32 = 0;
        while x < width
            invariant
                before.wf(),
                layer.wf(),
                canvas.width == width,
                canvas.height == height,
                width > 0,
                canvas@.pixels.len() == before.pixels.len(),
                before.width == width,
                before.height == height,
                y < height,
                x <= width,
                forall|i: int|
                    0 <= i < (y * width + x) * 4 ==> canvas@.pixels[i] == mixed_byte(
                        before,
                        *layer,
                        i,
                    ),
                forall|i: int|
                    (y * width + x) * 4 <= i < before.pixels.len() ==> canvas@.pixels[i]
                        == before.pixels[i],
            decreases width - x,
        {
            let at = canvas.offset_of(x, y);
            proof {
                lemma_byte_position(width as nat, x as int, y as int, 0);
                lemma_byte_position(width as nat, x as int, y as int, 1);
                lemma_byte_position(width as nat, x as int, y as int, 2);
                lemma_byte_position(width as nat, x as int, y as int, 3);
            }
            match layer.ink(x, y) {
                Some(ink) => {
                    let red = blend(canvas.pixels[at], ink.r, ink.weight);
                    let green = blend(canvas.pixels[at + 1], ink.g, ink.weight);
                    let blue = blend(canvas.pixels[at + 2], ink.b, ink.weight);
                    canvas.pixels.set(at, red);
                    canvas.pixels.set(at + 1, green);
                    canvas.pixels.set(at + 2, blue);
                },
                None => {},
            }
            x += 1;
        }
        proof {
            assert((y * width + width) * 4 == (y + 1) * width * 4) by (nonlinear_arith);
            assert((y * width + 0) * 4 == y * width * 4);
        }
        y += 1;
    }
    proof {
        assert(height * width * 4 == before.pixels.len()) by (nonlinear_arith)
            requires
                before.pixels.len() == width * height * 4,
        ;
        assert(canvas@.pixels =~= mixed(before, *layer).pixels);
    }
}

/// Composes labels: template, texts, photo, hazard icon, texture, burn,
/// and the final size.
pub struct LabelComposer {
    text_renderer: TextRenderer,
}

impl LabelComposer {
    /// The data of the font that texts are set in.
    pub closed spec fn font(self) -> Seq<u8> {
        self.text_renderer@
    }

    /// Where the object's number is written in a style.
    pub open spec fn scp_region(alternate: bool) -> TextRegion {
        if alternate {
            AlternateLayout::spec_scp_number()
        } else {
            CommonLayout::spec_scp_number()
        }
    }

    /// Where the object's class is written in a style.
    pub open spec fn class_region(alternate: bool) -> TextRegion {
        if alternate {
            AlternateLayout::spec_object_class_text()
        } else {
            CommonLayout::spec_object_class_text()
        }
    }

    /// A composer that sets its texts in the font held in `font_data`:
    /// there is one exactly where the parser accepts the data.
    pub fn new(font_data: Vec<u8>) -> (composer: Result<Self, LabelError>)
        ensures
            composer is Ok <==> font_is_valid(font_data@),
            composer is Ok ==> composer->Ok_0.font() == font_data@,
            composer is Err ==> TextRenderer::is_font_error(composer->Err_0),
    {
        match TextRenderer::new(font_data) {
            Ok(text_renderer) => Ok(LabelComposer { text_renderer }),
            Err(error) => Err(error),
        }
    }

    /// Where the hazard icon is shown in a style.
    pub open spec fn hazard_slot(alternate: bool) -> Rectangle {
        if alternate {
            AlternateLayout::spec_hazard_icon()
        } else {
            NormalLayout::spec_hazard_icon()
        }
    }

    /// Whether a text leaves the canvas as it is: the empty text does, and
    /// so does a text of several lines that are all blank.
    pub open spec fn draws_no_text(text: Seq<char>) -> bool {
        text.len() == 0 || retained_count(split_lines(text)) == 0
    }

    /// Whether a photo is shown: only in the normal style, and only where
    /// one is given.
    pub open spec fn places_photo(
        config: &LabelConfig,
        user_image: Option<&SerializableRgbaImage>,
    ) -> bool {
        !config.use_alternate_style && user_image is Some
    }

    /// Why a label cannot be composed, if it cannot: the photo is empty or
    /// too large to be fitted, or the hazard icon or the finished label
    /// is too large to be resampled in memory.
    pub open spec fn refusal(
        config: &LabelConfig,
        assets: &AssetManager,
        user_image: Option<&SerializableRgbaImage>,
    ) -> Option<Seq<char>> {
        let slot = NormalLayout::spec_user_image();
        let icon_slot = Self::hazard_slot(config.use_alternate_style);
        let template = assets.spec_template(config.class_type, config.use_alternate_style);
        if Self::places_photo(config, user_image) && !ImageProcessor::fittable(
            user_image->0,
            slot.width,
            slot.height,
        ) {
            Some("User image is empty or too large"@)
        } else if config.selected_hazard is Some && !resamplable(
            assets.spec_hazard_icon(config.class_type, config.selected_hazard->0).width as u32,
            assets.spec_hazard_icon(config.class_type, config.selected_hazard->0).height as u32,
            icon_slot.width,
            icon_slot.height,
        ) {
            Some("Hazard icon is too large"@)
        } else if config.output_resolution != LABEL_SIZE && !resamplable(
            template.width as u32,
            template.height as u32,
            config.output_resolution,
            config.output_resolution,
        ) {
            Some("Output resolution is too large"@)
        } else {
            None
        }
    }

    /// Whether both texts leave the pixel `(px, py)` alone for certain:
    /// each is not drawn at all, or the pixel lies beyond every line of it
    /// that is placed.
    pub open spec fn beyond_texts(font: Seq<u8>, config: &LabelConfig, px: int, py: int) -> bool {
        &&& beyond_text(
            font,
            config.scp_number@,
            Self::scp_region(config.use_alternate_style),
            used_font_size(config.scp_number_font_size),
            config.scp_text_offset,
            used_line_spacing(config.scp_line_spacing),
            px,
            py,
        )
        &&& beyond_text(
            font,
            config.object_class_text@,
            Self::class_region(config.use_alternate_style),
            used_font_size(config.object_class_font_size),
            config.class_text_offset,
            used_line_spacing(config.class_line_spacing),
            px,
            py,
        )
    }

    /// What follows for the canvas once texts, photo and hazard icon are
    /// on it, whatever the glyphs and the resampled images hold: it has
    /// the template's size; every pixel that both texts leave alone and
    /// that lies outside the photo's slot (if a photo is shown) and
    /// outside the icon's slot (if a hazard is chosen) is the template's;
    /// and where nothing at all is drawn it is the template.
    pub open spec fn is_base(
        base: Raster,
        template: Raster,
        font: Seq<u8>,
        config: &LabelConfig,
        user_image: Option<&SerializableRgbaImage>,
    ) -> bool {
        let quiet = Self::draws_no_text(config.scp_number@) && Self::draws_no_text(
            config.object_class_text@,
        );
        let photo = Self::places_photo(config, user_image);
        let hazard = config.selected_hazard is Some;
        &&& base.wf()
        &&& base.same_size(template)
        &&& forall|px: int, py: int, c: int|
            base.contains(px, py) && 0 <= c < 4 && Self::beyond_texts(font, config, px, py) && !(
            photo && in_rectangle(NormalLayout::spec_user_image(), px, py)) && !(hazard
                && in_rectangle(Self::hazard_slot(config.use_alternate_style), px, py))
                ==> #[trigger] base.channel(px, py, c) == template.channel(px, py, c)
        &&& quiet && !photo && !hazard ==> base == template
    }

    /// The template with the object's number and then its class written
    /// on it, each in its own region, colour, size, offset and spacing.
    pub open spec fn written(template: Raster, font: Seq<u8>, config: &LabelConfig) -> Raster {
        rendered_text(
            rendered_text(
                template,
                font,
                config.scp_number@,
                Self::scp_region(config.use_alternate_style),
                spec_opaque(config.scp_text_color),
                used_font_size(config.scp_number_font_size),
                config.scp_text_offset,
                used_line_spacing(config.scp_line_spacing),
            ),
            font,
            config.object_class_text@,
            Self::class_region(config.use_alternate_style),
            spec_opaque(config.class_text_color),
            used_font_size(config.object_class_font_size),
            config.class_text_offset,
            used_line_spacing(config.class_line_spacing),
        )
    }

    /// A canvas with an image laid over it at the corner of a slot.
    pub open spec fn laid_on(canvas: Raster, image: Raster, slot: Rectangle) -> Raster {
        laid_over(canvas, image, slot.x as int, slot.y as int)
    }

    /// The canvas with texts on it once the fitted photo (if a photo is
    /// shown) and then the resampled icon (if a hazard is chosen) are laid
    /// over it, each at the corner of its slot.
    pub open spec fn assembled(
        texts: Raster,
        config: &LabelConfig,
        photo: bool,
        fitted: Raster,
        icon: Raster,
    ) -> Raster {
        let pictured = if photo {
            Self::laid_on(texts, fitted, NormalLayout::spec_user_image())
        } else {
            texts
        };
        if config.selected_hazard is Some {
            Self::laid_on(pictured, icon, Self::hazard_slot(config.use_alternate_style))
        } else {
            pictured
        }
    }

    /// The icon that is shown for the configured hazard, before it is
    /// resampled to its slot.
    pub open spec fn icon_source(config: &LabelConfig, assets: &AssetManager) -> Raster {
        assets.spec_hazard_icon(config.class_type, config.selected_hazard->0)
    }

    /// What the canvas is before texture and burn: the template with both
    /// texts written on it, then the photo fitted by the configured method
    /// laid over its slot (in the normal style, where a photo is given),
    /// then the icon of the chosen hazard, resampled to its slot, laid
    /// over that. Of the two resampled images what `is_fit_of` and
    /// `is_resampling_of` say is known.
    pub open spec fn is_working_canvas(
        base: Raster,
        font: Seq<u8>,
        config: &LabelConfig,
        assets: &AssetManager,
        user_image: Option<&SerializableRgbaImage>,
    ) -> bool {
        let template = assets.spec_template(config.class_type, config.use_alternate_style);
        let photo = Self::places_photo(config, user_image);
        let slot = Self::hazard_slot(config.use_alternate_style);
        exists|fitted: Raster, icon: Raster|
            {
                &&& photo ==> ImageProcessor::is_fit_of(
                    fitted,
                    user_image->0@,
                    config.resize_method,
                    NormalLayout::spec_user_image(),
                )
                &&& config.selected_hazard is Some ==> is_resampling_of(
                    icon,
                    Self::icon_source(config, assets),
                    slot.width,
                    slot.height,
                )
                &&& base == #[trigger] Self::assembled(
                    Self::written(template, font, config),
                    config,
                    photo,
                    fitted,
                    icon,
                )
            }
    }

    /// The canvas after texture and burn: the texture is laid over it with
    /// weight `alpha` if `apply_texture` holds, then the mask is applied
    /// if `apply_burn` holds and a mask is given.
    pub open spec fn finish_of(
        base: Raster,
        apply_texture: bool,
        alpha: u8,
        texture: Raster,
        apply_burn: bool,
        burn_mask: Option<MaskView>,
    ) -> Raster {
        let with_texture = if apply_texture {
            textured(base, texture, alpha)
        } else {
            base
        };
        if apply_burn && burn_mask is Some {
            burned(with_texture, burn_mask->0)
        } else {
            with_texture
        }
    }

    /// The canvas after texture and burn, as the configuration asks for
    /// them.
    pub open spec fn finished(
        base: Raster,
        config: &LabelConfig,
        texture: Raster,
        burn_mask: Option<&BurnMask>,
    ) -> Raster {
        Self::finish_of(
            base,
            config.apply_texture,
            config.texture_alpha,
            texture,
            config.apply_burn,
            if burn_mask is Some {
                Some(burn_mask->0@)
            } else {
                None
            },
        )
    }

    /// How the label comes from the finished canvas: it is that canvas
    /// where the output resolution is the label's own size, and a
    /// resampling of it to the output resolution otherwise.
    pub open spec fn is_output_of(label: Raster, finished: Raster, resolution: u32) -> bool {
        if resolution == LABEL_SIZE {
            label == finished
        } else {
            is_resampling_of(label, finished, resolution, resolution)
        }
    }

    /// Composes a label. The canvas starts as the template of the class
    /// and style (the placeholder where none is held); the number and the
    /// class are written into their regions; in the normal style the
    /// photo, if one is given, is fitted into its slot and laid on; the
    /// icon of the chosen hazard, if any, is resampled to its slot and
    /// laid on; then come texture and burn; and where the output
    /// resolution is not the label's own size, the canvas is resampled to
    /// it last.
    ///
    /// `user_image` is the decoded photo with its adjustments made, and
    /// `burn_mask` the mask to burn with. A label made from a template of
    /// the label's own size has the configured resolution on both sides.
    /// The label comes, as `is_output_of` says, from the canvas that
    /// `is_working_canvas` describes with texture and burn applied.
    pub fn compose(
        &self,
        config: &LabelConfig,
        assets: &AssetManager,
        user_image: Option<&SerializableRgbaImage>,
        burn_mask: Option<&BurnMask>,
    ) -> (result: Result<SerializableRgbaImage, LabelError>)
        requires
            user_image is Some ==> user_image->0.wf(),
            burn_mask is Some ==> burn_mask->0.wf(),
        ensures
            result is Ok <==> Self::refusal(config, assets, user_image) is None,
            result is Err ==> (result->Err_0 matches LabelError::ImageProcessing(detail) && Some(
                detail@,
            ) == Self::refusal(config, assets, user_image)),
            result is Ok ==> ({
                let label = result->Ok_0;
                let template = assets.spec_template(config.class_type, config.use_alternate_style);
                &&& label.wf()
                &&& template.width == LABEL_SIZE && template.height == LABEL_SIZE ==> label.width
                    == config.output_resolution && label.height == config.output_resolution
                &&& config.output_resolution != LABEL_SIZE ==> label.width
                    == config.output_resolution && label.height == config.output_resolution
                &&& config.output_resolution == LABEL_SIZE ==> label@.same_size(template)
                &&& exists|base: Raster| #[trigger]
                    Self::is_working_canvas(base, self.font(), config, assets, user_image)
                        && Self::is_base(base, template, self.font(), config, user_image)
                        && Self::is_output_of(
                        label@,
                        Self::finished(base, config, assets.spec_texture(), burn_mask),
                        config.output_resolution,
                    )
            }),
    {
        let alternate = config.use_alternate_style;
        let template = assets.get_template(&config.class_type, alternate);
        let photo_slot = NormalLayout::user_image();
        let icon_slot = if alternate {
            AlternateLayout::hazard_icon()
        } else {
            NormalLayout::hazard_icon()
        };
        match user_image {
            Some(photo) => {
                if !alternate && !ImageProcessor::can_fit(
                    photo,
                    photo_slot.width,
                    photo_slot.height,
                ) {
                    return Err(
                        LabelError::ImageProcessing(
                            String::from_str("User image is empty or too large"),
                        ),
                    );
                }
            },
            None => {},
        }
        match config.selected_hazard {
            Some(hazard) => {
                let icon = assets.get_hazard_icon(&config.class_type, &hazard);
                if !can_resample(icon.width, icon.height, icon_slot.width, icon_slot.height) {
                    return Err(
                        LabelError::ImageProcessing(String::from_str("Hazard icon is too large")),
                    );
                }
            },
            None => {},
        }
        if config.output_resolution != LABEL_SIZE && !can_resample(
            template.width,
            template.height,
            config.output_resolution,
            config.output_resolution,
        ) {
            return Err(
                LabelError::ImageProcessing(String::from_str("Output resolution is too large")),
            );
        }
        let mut canvas = self.render_base(config, assets, user_image);
        let ghost base = canvas@;
        Self::finish(&mut canvas, config, assets.get_texture(), burn_mask);
        let ghost done = canvas@;
        if config.output_resolution != LABEL_SIZE {
            canvas = resize_lanczos3(&canvas, config.output_resolution, config.output_resolution);
        }
        assert(Self::is_output_of(canvas@, done, config.output_resolution));
        assert(Self::is_working_canvas(base, self.font(), config, assets, user_image));
        Ok(canvas)
    }

    /// Texture and burn, as the configuration asks for them.
    pub fn finish(
        canvas: &mut SerializableRgbaImage,
        config: &LabelConfig,
        texture: &SerializableRgbaImage,
        burn_mask: Option<&BurnMask>,
    )
        requires
            old(canvas).wf(),
            texture.wf(),
            burn_mask is Some ==> burn_mask->0.wf(),
        ensures
            final(canvas).wf(),
            final(canvas)@ == Self::finished(old(canvas)@, config, texture@, burn_mask),
            final(canvas)@.same_size(old(canvas)@),
    {
        if config.apply_texture {
            Self::apply_texture(canvas, texture, config.texture_alpha);
        }
        if config.apply_burn {
            match burn_mask {
                Some(mask) => {
                    Self::apply_burn(canvas, mask);
                },
                None => {},
            }
        }
    }

    /// The canvas before texture and burn: the template with the texts
    /// written on it, the photo laid over it and the hazard icon laid
    /// over that. `compose` calls this once it has found that the photo
    /// can be fitted and the icon resampled.
    pub fn render_base(
        &self,
        config: &LabelConfig,
        assets: &AssetManager,
        user_image: Option<&SerializableRgbaImage>,
    ) -> (canvas: SerializableRgbaImage)
        requires
            user_image is Some ==> user_image->0.wf(),
            Self::places_photo(config, user_image) ==> ImageProcessor::fittable(
                user_image->0,
                NormalLayout::spec_user_image().width,
                NormalLayout::spec_user_image().height,
            ),
            config.selected_hazard is Some ==> resamplable(
                assets.spec_hazard_icon(config.class_type, config.selected_hazard->0).width as u32,
                assets.spec_hazard_icon(config.class_type, config.selected_hazard->0).height as u32,
                Self::hazard_slot(config.use_alternate_style).width,
                Self::hazard_slot(config.use_alternate_style).height,
            ),
        ensures
            Self::is_working_canvas(canvas@, self.font(), config, assets, user_image),
            Self::is_base(
                canvas@,
                assets.spec_template(config.class_type, config.use_alternate_style),
                self.font(),
                config,
                user_image,
            ),
    {
        let template = assets.get_template(&config.class_type, config.use_alternate_style);
        let mut canvas = template.clone();
        self.render_scp_number(&mut canvas, config);
        self.render_object_class(&mut canvas, config);
        let ghost texts = canvas@;
        assert(texts == Self::written(template@, self.font(), config));
        Self::place_user_image(&mut canvas, config, user_image);
        let ghost pictured = canvas@;
        Self::place_hazards(&mut canvas, config, assets);
        proof {
            let photo = Self::places_photo(config, user_image);
            let slot = Self::hazard_slot(config.use_alternate_style);
            let fitted = if photo {
                choose|fitted: Raster|
                    ImageProcessor::is_fit_of(
                        fitted,
                        user_image->0@,
                        config.resize_method,
                        NormalLayout::spec_user_image(),
                    ) && pictured == #[trigger] Self::laid_on(
                        texts,
                        fitted,
                        NormalLayout::spec_user_image(),
                    )
            } else {
                texts
            };
            let icon = if config.selected_hazard is Some {
                choose|icon: Raster|
                    is_resampling_of(
                        icon,
                        Self::icon_source(config, assets),
                        slot.width,
                        slot.height,
                    ) && canvas@ == #[trigger] Self::laid_on(pictured, icon, slot)
            } else {
                texts
            };
            assert(canvas@ == Self::assembled(texts, config, photo, fitted, icon));
        }
        canvas
    }

    /// Lays an image over the canvas, its corner at the corner of `slot`.
    /// Outside the image the canvas stays as it is, and so it does under
    /// a fully transparent pixel of the image; under a fully opaque pixel
    /// it takes that pixel. An image that is transparent throughout
    /// leaves the canvas as it is.
    pub fn lay_on(
        canvas: &mut SerializableRgbaImage,
        image: &SerializableRgbaImage,
        slot: Rectangle,
    )
        requires
            old(canvas).wf(),
            image.wf(),
        ensures
            final(canvas)@ == Self::laid_on(old(canvas)@, image@, slot),
            final(canvas).wf(),
            final(canvas)@.same_size(old(canvas)@),
            forall|px: int, py: int, c: int|
                old(canvas)@.contains(px, py) && 0 <= c < 4 && (!covered(
                    image@,
                    slot.x as int,
                    slot.y as int,
                    px,
                    py,
                ) || image@.channel(px - slot.x, py - slot.y, 3) == 0)
                    ==> #[trigger] final(canvas)@.channel(px, py, c) == old(canvas)@.channel(
                    px,
                    py,
                    c,
                ),
            forall|px: int, py: int, c: int|
                old(canvas)@.contains(px, py) && 0 <= c < 4 && covered(
                    image@,
                    slot.x as int,
                    slot.y as int,
                    px,
                    py,
                ) && image@.channel(px - slot.x, py - slot.y, 3) == 255
                    ==> #[trigger] final(canvas)@.channel(px, py, c) == image@.channel(
                    px - slot.x,
                    py - slot.y,
                    c,
                ),
            image@.is_transparent() || image@.is_clear() ==> final(canvas)@ == old(canvas)@,
    {
        overlay_image(canvas, image, slot.x as i64, slot.y as i64);
        proof {
            if image@.is_clear() {
                lemma_clear_is_transparent(image@);
            }
            if image@.is_transparent() {
                assert forall|px: int, py: int, c: int|
                    canvas@.contains(px, py) && 0 <= c < 4 implies #[trigger] canvas@.channel(
                    px,
                    py,
                    c,
                ) == old(canvas)@.channel(px, py, c) by {
                    if covered(image@, slot.x as int, slot.y as int, px, py) {
                        assert(image@.contains(px - slot.x, py - slot.y));
                        assert(image@.channel(px - slot.x, py - slot.y, 3) == 0);
                    }
                }
                lemma_same_channels(canvas@, old(canvas)@);
            }
        }
    }

    /// Writes the object's number into its region, in the number's own
    /// size, colour, offset and line spacing. Size and spacing are brought
    /// into their ranges first.
    pub fn render_scp_number(&self, canvas: &mut SerializableRgbaImage, config: &LabelConfig)
        requires
            old(canvas).wf(),
        ensures
            final(canvas)@ == rendered_text(
                old(canvas)@,
                self.font(),
                config.scp_number@,
                Self::scp_region(config.use_alternate_style),
                spec_opaque(config.scp_text_color),
                used_font_size(config.scp_number_font_size),
                config.scp_text_offset,
                used_line_spacing(config.scp_line_spacing),
            ),
            final(canvas).wf(),
            final(canvas)@.same_size(old(canvas)@),
            Self::draws_no_text(config.scp_number@) ==> final(canvas)@ == old(canvas)@,
            forall|px: int, py: int, c: int|
                old(canvas)@.contains(px, py) && 0 <= c < 4 && beyond_text(
                    self.font(),
                    config.scp_number@,
                    Self::scp_region(config.use_alternate_style),
                    used_font_size(config.scp_number_font_size),
                    config.scp_text_offset,
                    used_line_spacing(config.scp_line_spacing),
                    px,
                    py,
                ) ==> #[trigger] final(canvas)@.channel(px, py, c) == old(canvas)@.channel(
                    px,
                    py,
                    c,
                ),
    {
        let region = if config.use_alternate_style {
            AlternateLayout::scp_number()
        } else {
            CommonLayout::scp_number()
        };
        self.text_renderer.render_text(
            canvas,
            config.scp_number.as_str(),
            region,
            opaque(config.scp_text_color),
            clamp_font_size(config.scp_number_font_size),
            config.scp_text_offset,
            clamp_line_spacing(config.scp_line_spacing),
        );
    }

    /// Writes the object's class into its region, in the class's own
    /// size, colour, offset and line spacing. Size and spacing are brought
    /// into their ranges first.
    pub fn render_object_class(&self, canvas: &mut SerializableRgbaImage, config: &LabelConfig)
        requires
            old(canvas).wf(),
        ensures
            final(canvas)@ == rendered_text(
                old(canvas)@,
                self.font(),
                config.object_class_text@,
                Self::class_region(config.use_alternate_style),
                spec_opaque(config.class_text_color),
                used_font_size(config.object_class_font_size),
                config.class_text_offset,
                used_line_spacing(config.class_line_spacing),
            ),
            final(canvas).wf(),
            final(canvas)@.same_size(old(canvas)@),
            Self::draws_no_text(config.object_class_text@) ==> final(canvas)@ == old(canvas)@,
            forall|px: int, py: int, c: int|
                old(canvas)@.contains(px, py) && 0 <= c < 4 && beyond_text(
                    self.font(),
                    config.object_class_text@,
                    Self::class_region(config.use_alternate_style),
                    used_font_size(config.object_class_font_size),
                    config.class_text_offset,
                    used_line_spacing(config.class_line_spacing),
                    px,
                    py,
                ) ==> #[trigger] final(canvas)@.channel(px, py, c) == old(canvas)@.channel(
                    px,
                    py,
                    c,
                ),
    {
        let region = if config.use_alternate_style {
            AlternateLayout::object_class_text()
        } else {
            CommonLayout::object_class_text()
        };
        self.text_renderer.render_text(
            canvas,
            config.object_class_text.as_str(),
            region,
            opaque(config.class_text_color),
            clamp_font_size(config.object_class_font_size),
            config.class_text_offset,
            clamp_line_spacing(config.class_line_spacing),
        );
    }

    /// Fits the photo into its slot and lays it on the canvas: the canvas
    /// afterwards is the canvas before with the photo, fitted by the
    /// configured method, laid over it at the slot's corner. Of the fitted
    /// photo what `is_fit_of` says is known. Nothing happens
    /// in the alternate style, which shows no photo, and nothing where no
    /// photo is given. Outside the slot the canvas stays as it is.
    pub fn place_user_image(
        canvas: &mut SerializableRgbaImage,
        config: &LabelConfig,
        user_image: Option<&SerializableRgbaImage>,
    )
        requires
            old(canvas).wf(),
            Self::places_photo(config, user_image) ==> ImageProcessor::fittable(
                user_image->0,
                NormalLayout::spec_user_image().width,
                NormalLayout::spec_user_image().height,
            ),
        ensures
            Self::places_photo(config, user_image) ==> exists|fitted: Raster|
                ImageProcessor::is_fit_of(
                    fitted,
                    user_image->0@,
                    config.resize_method,
                    NormalLayout::spec_user_image(),
                ) && final(canvas)@ == #[trigger] Self::laid_on(
                    old(canvas)@,
                    fitted,
                    NormalLayout::spec_user_image(),
                ),
            final(canvas).wf(),
            final(canvas)@.same_size(old(canvas)@),
            !Self::places_photo(config, user_image) ==> final(canvas)@ == old(canvas)@,
            forall|px: int, py: int, c: int|
                old(canvas)@.contains(px, py) && 0 <= c < 4 && !in_rectangle(
                    NormalLayout::spec_user_image(),
                    px,
                    py,
                ) ==> #[trigger] final(canvas)@.channel(px, py, c) == old(canvas)@.channel(
                    px,
                    py,
                    c,
                ),
    {
        if config.use_alternate_style {
            return ;
        }
        match user_image {
            Some(photo) => {
                let slot = NormalLayout::user_image();
                let fitted = ImageProcessor::process_user_image(photo, config.resize_method, slot);
                Self::lay_on(canvas, &fitted, slot);
                assert(canvas@ == Self::laid_on(old(canvas)@, fitted@, slot));
            },
            None => {},
        }
    }

    /// Resamples the icon of the chosen hazard to its slot and lays it on
    /// the canvas: the canvas afterwards is the canvas before with a
    /// resampling of the icon to the slot's size laid over it at the
    /// slot's corner. The
    /// placeholder stands in for an icon that is not held, and since it
    /// is transparent the canvas then stays as it is, as it does for any
    /// icon whose bytes are all zero. Nothing happens where no hazard is
    /// chosen. Outside the slot the canvas stays as it is.
    pub fn place_hazards(
        canvas: &mut SerializableRgbaImage,
        config: &LabelConfig,
        assets: &AssetManager,
    )
        requires
            old(canvas).wf(),
            config.selected_hazard is Some ==> resamplable(
                assets.spec_hazard_icon(config.class_type, config.selected_hazard->0).width as u32,
                assets.spec_hazard_icon(config.class_type, config.selected_hazard->0).height as u32,
                Self::hazard_slot(config.use_alternate_style).width,
                Self::hazard_slot(config.use_alternate_style).height,
            ),
        ensures
            config.selected_hazard is Some ==> exists|icon: Raster|
                is_resampling_of(
                    icon,
                    Self::icon_source(config, assets),
                    Self::hazard_slot(config.use_alternate_style).width,
                    Self::hazard_slot(config.use_alternate_style).height,
                ) && final(canvas)@ == #[trigger] Self::laid_on(
                    old(canvas)@,
                    icon,
                    Self::hazard_slot(config.use_alternate_style),
                ),
            final(canvas).wf(),
            final(canvas)@.same_size(old(canvas)@),
            config.selected_hazard is None ==> final(canvas)@ == old(canvas)@,
            config.selected_hazard is Some && (!assets.has_hazard_icon(
                config.class_type,
                config.selected_hazard->0,
            ) || Self::icon_source(config, assets).is_clear()) ==> final(canvas)@ == old(canvas)@,
            forall|px: int, py: int, c: int|
                old(canvas)@.contains(px, py) && 0 <= c < 4 && !in_rectangle(
                    Self::hazard_slot(config.use_alternate_style),
                    px,
                    py,
                ) ==> #[trigger] final(canvas)@.channel(px, py, c) == old(canvas)@.channel(
                    px,
                    py,
                    c,
                ),
    {
        match config.selected_hazard {
            Some(hazard) => {
                let icon = assets.get_hazard_icon(&config.class_type, &hazard);
                let slot = if config.use_alternate_style {
                    AlternateLayout::hazard_icon()
                } else {
                    NormalLayout::hazard_icon()
                };
                let resized = resize_lanczos3(icon, slot.width, slot.height);
                Self::lay_on(canvas, &resized, slot);
                assert(canvas@ == Self::laid_on(old(canvas)@, resized@, slot));
            },
            None => {},
        }
    }

    /// Lays the texture over the canvas with weight `alpha` out of 255.
    /// The texture's own opacity plays no part, and where the texture is
    /// smaller than the canvas the pixels beyond it stay as they are.
    pub fn apply_texture(
        canvas: &mut SerializableRgbaImage,
        texture: &SerializableRgbaImage,
        alpha: u8,
    )
        requires
            old(canvas).wf(),
            texture.wf(),
        ensures
            final(canvas).wf(),
            final(canvas)@ == textured(old(canvas)@, texture@, alpha),
    {
        let layer = Layer::Texture(texture, alpha);
        mix(canvas, &layer);
        assert(canvas@.pixels =~= textured(old(canvas)@, texture@, alpha).pixels);
    }

    /// Darkens the canvas by a burn mask: each colour channel of a pixel
    /// keeps the share of its value that the mask's weight there leaves
    /// of 255. Opacity stays, and where the mask is smaller than the
    /// canvas the pixels beyond it stay as they are.
    pub fn apply_burn(canvas: &mut SerializableRgbaImage, mask: &BurnMask)
        requires
            old(canvas).wf(),
            mask.wf(),
        ensures
            final(canvas).wf(),
            final(canvas)@ == burned(old(canvas)@, mask@),
    {
        let layer = Layer::Burn(mask);
        mix(canvas, &layer);
        assert(canvas@.pixels =~= burned(old(canvas)@, mask@).pixels) by {
            assert forall|i: int| 0 <= i < old(canvas)@.pixels.len() implies mixed_byte(
                old(canvas)@,
                layer,
                i,
            ) == burned_byte(old(canvas)@, mask@, i) by {
                assert(old(canvas)@.pixels[i] * (255 - 0) + 0 == old(canvas)@.pixels[i] * 255);
            }
        }
    }
}

} // verus!
