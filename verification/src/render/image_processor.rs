use crate::models::label_config::{ResizeMethod, SerializableColor};
use crate::models::layout::Rectangle;
use crate::render::asset_manager::{lemma_offset_in_bounds, Raster, SerializableRgbaImage};
use vstd::arithmetic::div_mod::lemma_fundamental_div_mod;
use vstd::prelude::*;

verus! {

/// Whether a source of `width` by `height` pixels is wider, for its height,
/// than a target of `target_width` by `target_height`.
pub open spec fn wider_than_target(
    width: u32,
    height: u32,
    target_width: u32,
    target_height: u32,
) -> bool {
    width * target_height > target_width * height
}

/// The part of a source that crop-to-fit keeps: the largest centred
/// rectangle of the target's proportions, found by cutting the axis on
/// which the source is too long.
pub open spec fn spec_crop_rectangle(
    width: u32,
    height: u32,
    target_width: u32,
    target_height: u32,
) -> Rectangle {
    if wider_than_target(width, height, target_width, target_height) {
        let kept = height * target_width / (target_height as int);
        Rectangle {
            x: ((width - kept) / 2) as u32,
            y: 0,
            width: kept as u32,
            height,
        }
    } else {
        let kept = width * target_height / (target_width as int);
        Rectangle {
            x: 0,
            y: ((height - kept) / 2) as u32,
            width,
            height: kept as u32,
        }
    }
}

/// The size a source is scaled to by letterbox: the largest size of the
/// source's proportions that fits the target.
pub open spec fn spec_letterbox_size(
    width: u32,
    height: u32,
    target_width: u32,
    target_height: u32,
) -> (u32, u32) {
    if wider_than_target(width, height, target_width, target_height) {
        (target_width, (target_width * height / (width as int)) as u32)
    } else {
        ((target_height * width / (height as int)) as u32, target_height)
    }
}

/// Where letterbox puts the scaled source on the target: in the middle.
pub open spec fn spec_letterbox_slot(
    width: u32,
    height: u32,
    target_width: u32,
    target_height: u32,
) -> Rectangle {
    let size = spec_letterbox_size(width, height, target_width, target_height);
    Rectangle {
        x: ((target_width - size.0) / 2) as u32,
        y: ((target_height - size.1) / 2) as u32,
        width: size.0,
        height: size.1,
    }
}

/// Whether pixel `(px, py)` lies in a rectangle.
pub open spec fn in_rectangle(slot: Rectangle, px: int, py: int) -> bool {
    slot.x <= px < slot.x + slot.width && slot.y <= py < slot.y + slot.height
}

/// Whether resampling between images of these sizes can be done in
/// memory: the resampler builds an image as wide as the source and as
/// tall as the result, and the result itself, at sixteen bytes a pixel;
/// neither may take more than half of the address space.
pub open spec fn resamplable(width: u32, height: u32, new_width: u32, new_height: u32) -> bool {
    &&& width * new_height * 32 <= usize::MAX
    &&& new_width * new_height * 32 <= usize::MAX
}

/// A quotient stays below `bound` where the dividend stays below `bound`
/// times the divisor.
pub proof fn lemma_quotient_below(n: int, d: int, bound: int)
    requires
        0 < d,
        0 <= n < bound * d,
    ensures
        0 <= n / d < bound,
{
    lemma_fundamental_div_mod(n, d);
    let q = n / d;
    assert(0 <= n % d < d);
    assert(q < bound) by (nonlinear_arith)
        requires
            0 < d,
            d * q + n % d < bound * d,
            0 <= n % d,
    ;
    assert(0 <= q) by (nonlinear_arith)
        requires
            0 < d,
            0 <= d * q + n % d,
            n % d < d,
    ;
}

/// A quotient is at most `bound` where the dividend is at most `bound`
/// times the divisor.
pub proof fn lemma_quotient_at_most(n: int, d: int, bound: int)
    requires
        0 < d,
        0 <= n <= bound * d,
    ensures
        0 <= n / d <= bound,
{
    assert(n < (bound + 1) * d) by (nonlinear_arith)
        requires
            0 < d,
            n <= bound * d,
    ;
    lemma_quotient_below(n, d, bound + 1);
}

/// Crop-to-fit keeps a rectangle that lies on the source, spans one of its
/// axes whole and is centred on the other, and has the target's
/// proportions as nearly as whole pixels allow: scaled up to the target it
/// fills it, with no bar on any side.
pub proof fn lemma_crop_has_target_proportions(
    width: u32,
    height: u32,
    target_width: u32,
    target_height: u32,
)
    requires
        width > 0,
        height > 0,
        target_width > 0,
        target_height > 0,
    ensures
        ({
            let crop = spec_crop_rectangle(width, height, target_width, target_height);
            &&& crop.x + crop.width <= width
            &&& crop.y + crop.height <= height
            &&& crop.width == width || crop.height == height
            &&& crop.x == (width - crop.width) / 2
            &&& crop.y == (height - crop.height) / 2
            &&& wider_than_target(width, height, target_width, target_height) ==> {
                &&& crop.height == height
                &&& crop.width * target_height <= height * target_width
                &&& height * target_width < (crop.width + 1) * target_height
            }
            &&& !wider_than_target(width, height, target_width, target_height) ==> {
                &&& crop.width == width
                &&& crop.height * target_width <= width * target_height
                &&& width * target_height < (crop.height + 1) * target_width
            }
        }),
{
    let (w, h, tw, th) = (width as int, height as int, target_width as int, target_height as int);
    if wider_than_target(width, height, target_width, target_height) {
        let n = h * tw;
        assert(n == tw * h) by (nonlinear_arith)
            requires
                n == h * tw,
        ;
        assert(0 <= n) by (nonlinear_arith)
            requires
                n == h * tw,
                0 <= h,
                0 <= tw,
        ;
        lemma_quotient_below(n, th, w);
        lemma_fundamental_div_mod(n, th);
        let q = n / th;
        assert(q * th == th * q) by (nonlinear_arith);
        assert((q + 1) * th == th * q + th) by (nonlinear_arith);
    } else {
        let n = w * th;
        assert(0 <= n) by (nonlinear_arith)
            requires
                n == w * th,
                0 <= w,
                0 <= th,
        ;
        assert(n <= h * tw) by (nonlinear_arith)
            requires
                n == w * th,
                w * th <= tw * h,
        ;
        lemma_quotient_at_most(n, tw, h);
        lemma_fundamental_div_mod(n, tw);
        let q = n / tw;
        assert(q * tw == tw * q) by (nonlinear_arith);
        assert((q + 1) * tw == tw * q + tw) by (nonlinear_arith);
    }
}

/// Letterbox scales the source to a size that fits the target and spans
/// one of its axes whole, so all of the source is shown, and puts it in
/// the middle, so the bars on either side differ by a pixel at most.
pub proof fn lemma_letterbox_fits(width: u32, height: u32, target_width: u32, target_height: u32)
    requires
        width > 0,
        height > 0,
        target_width > 0,
        target_height > 0,
    ensures
        ({
            let size = spec_letterbox_size(width, height, target_width, target_height);
            let slot = spec_letterbox_slot(width, height, target_width, target_height);
            &&& size.0 <= target_width
            &&& size.1 <= target_height
            &&& size.0 == target_width || size.1 == target_height
            &&& slot.x + slot.width <= target_width
            &&& slot.y + slot.height <= target_height
            &&& slot.x == (target_width - size.0) / 2
            &&& slot.y == (target_height - size.1) / 2
            &&& wider_than_target(width, height, target_width, target_height) ==> {
                &&& size.1 * width <= target_width * height
                &&& target_width * height < (size.1 + 1) * width
            }
            &&& !wider_than_target(width, height, target_width, target_height) ==> {
                &&& size.0 * height <= target_height * width
                &&& target_height * width < (size.0 + 1) * height
            }
        }),
{
    let (w, h, tw, th) = (width as int, height as int, target_width as int, target_height as int);
    if wider_than_target(width, height, target_width, target_height) {
        let n = tw * h;
        assert(0 <= n) by (nonlinear_arith)
            requires
                n == tw * h,
                0 <= h,
                0 <= tw,
        ;
        assert(n < th * w) by (nonlinear_arith)
            requires
                n == tw * h,
                w * th > tw * h,
        ;
        lemma_quotient_below(n, w, th);
        lemma_fundamental_div_mod(n, w);
        let q = n / w;
        assert(q * w == w * q) by (nonlinear_arith);
        assert((q + 1) * w == w * q + w) by (nonlinear_arith);
    } else {
        let n = th * w;
        assert(0 <= n) by (nonlinear_arith)
            requires
                n == th * w,
                0 <= w,
                0 <= th,
        ;
        assert(n <= tw * h) by (nonlinear_arith)
            requires
                n == th * w,
                w * th <= tw * h,
        ;
        lemma_quotient_at_most(n, h, tw);
        lemma_fundamental_div_mod(n, h);
        let q = n / h;
        assert(q * h == h * q) by (nonlinear_arith);
        assert((q + 1) * h == h * q + h) by (nonlinear_arith);
    }
}

/// The part of a source that crop-to-fit keeps.
pub fn crop_rectangle(width: u32, height: u32, target_width: u32, target_height: u32) -> (crop:
    Rectangle)
    requires
        width > 0,
        height > 0,
        target_width > 0,
        target_height > 0,
    ensures
        crop == spec_crop_rectangle(width, height, target_width, target_height),
        crop.x + crop.width <= width,
        crop.y + crop.height <= height,
{
    proof {
        lemma_crop_has_target_proportions(width, height, target_width, target_height);
        lemma_products_fit(width, target_height);
        lemma_products_fit(target_width, height);
        lemma_products_fit(height, target_width);
    }
    if (width as u64) * (target_height as u64) > (target_width as u64) * (height as u64) {
        proof {
            lemma_scaled_side(height, target_width, target_height, width, true);
        }
        let kept: u64 = (height as u64) * (target_width as u64) / (target_height as u64);
        Rectangle { x: ((width as u64 - kept) / 2) as u32, y: 0, width: kept as u32, height }
    } else {
        proof {
            lemma_scaled_side(width, target_height, target_width, height, false);
        }
        let kept: u64 = (width as u64) * (target_height as u64) / (target_width as u64);
        Rectangle { x: 0, y: ((height as u64 - kept) / 2) as u32, width, height: kept as u32 }
    }
}

/// The rectangle of the target that letterbox fills with the scaled source.
pub fn letterbox_slot(width: u32, height: u32, target_width: u32, target_height: u32) -> (slot:
    Rectangle)
    requires
        width > 0,
        height > 0,
        target_width > 0,
        target_height > 0,
    ensures
        slot == spec_letterbox_slot(width, height, target_width, target_height),
        slot.x + slot.width <= target_width,
        slot.y + slot.height <= target_height,
{
    proof {
        lemma_letterbox_fits(width, height, target_width, target_height);
        lemma_products_fit(width, target_height);
        lemma_products_fit(target_width, height);
        lemma_products_fit(target_height, width);
    }
    if (width as u64) * (target_height as u64) > (target_width as u64) * (height as u64) {
        proof {
            lemma_scaled_side(target_width, height, width, target_height, true);
        }
        let scaled: u64 = (target_width as u64) * (height as u64) / (width as u64);
        Rectangle {
            x: 0,
            y: ((target_height as u64 - scaled) / 2) as u32,
            width: target_width,
            height: scaled as u32,
        }
    } else {
        proof {
            lemma_scaled_side(target_height, width, height, target_width, false);
        }
        let scaled: u64 = (target_height as u64) * (width as u64) / (height as u64);
        Rectangle {
            x: ((target_width as u64 - scaled) / 2) as u32,
            y: 0,
            width: scaled as u32,
            height: target_height,
        }
    }
}

/// A side `a` scaled by `b / d` does not exceed `bound` where `a * b` does
/// not exceed `bound * d`; it stays below `bound` where `a * b` does.
pub proof fn lemma_scaled_side(a: u32, b: u32, d: u32, bound: u32, strict: bool)
    requires
        d > 0,
        strict ==> a * b < bound * d,
        !strict ==> a * b <= bound * d,
    ensures
        0 <= a * b / (d as int) <= bound,
        strict ==> a * b / (d as int) < bound,
{
    lemma_products_fit(a, b);
    if strict {
        lemma_quotient_below(a * b, d as int, bound as int);
    } else {
        lemma_quotient_at_most(a * b, d as int, bound as int);
    }
}

/// The product of two 32-bit numbers fits in 64 bits.
pub proof fn lemma_products_fit(a: u32, b: u32)
    ensures
        0 <= a * b <= 0xFFFF_FFFF * 0xFFFF_FFFF,
{
    assert(0 <= a * b <= 0xFFFF_FFFF * 0xFFFF_FFFF) by (nonlinear_arith)
        requires
            0 <= a <= 0xFFFF_FFFF,
            0 <= b <= 0xFFFF_FFFF,
    ;
}

/// Whether resampling between images of these sizes can be done in
/// memory.
pub fn can_resample(width: u32, height: u32, new_width: u32, new_height: u32) -> (ok: bool)
    ensures
        ok == resamplable(width, height, new_width, new_height),
{
    proof {
        lemma_products_fit(width, new_height);
        lemma_products_fit(new_width, new_height);
    }
    let limit: u128 = usize::MAX as u128;
    (width as u128) * (new_height as u128) * 32 <= limit && (new_width as u128) * (
    new_height as u128) * 32 <= limit
}

/// What is known of an image that was resampled from `source` to `width`
/// by `height` pixels: it has exactly that size, where that is the
/// source's own size it is the source, and where every byte of the
/// source is zero so is every byte of it. The resampler weighs pixels with a
/// sine, whose last digits differ from one machine to the next, so what
/// the pixels hold at another size goes by no name.
pub open spec fn is_resampling_of(result: Raster, source: Raster, width: u32, height: u32) -> bool {
    &&& result.wf()
    &&& result.width == width
    &&& result.height == height
    &&& source.width == width && source.height == height ==> result == source
    &&& source.is_clear() ==> result.is_clear()
}

/// The rectangle `slot` of an image as an image of its own: pixel `(x, y)`
/// of it is pixel `(slot.x + x, slot.y + y)` of the image.
pub open spec fn cropped(image: Raster, slot: Rectangle) -> Raster {
    Raster {
        width: slot.width as nat,
        height: slot.height as nat,
        pixels: Seq::new(
            (slot.width * slot.height * 4) as nat,
            |i: int|
                image.channel(
                    slot.x + (i / 4) % (slot.width as int),
                    slot.y + (i / 4) / (slot.width as int),
                    i % 4,
                ),
        ),
    }
}

/// `image::imageops::resize` with the `Lanczos3` filter: resamples an
/// image to a new size. The result has exactly the size asked for, and
/// where that is the source's own size the call copies the source. Every
/// channel of the result is a weighted sum of channels of the source, so
/// a source whose bytes are all zero gives a result whose bytes are. What
/// the pixels hold otherwise is not stated: the filter weighs pixels with
/// a sine, whose last digits the standard library leaves open, so the
/// result goes by no name. The call builds one image in between,
/// as wide as the source and as tall as the result, with four floats a
/// pixel, which is what `resamplable` leaves room for.
#[verifier::external_body]
pub(crate) fn resize_lanczos3(image: &SerializableRgbaImage, width: u32, height: u32) -> (resized:
    SerializableRgbaImage)
    requires
        image.wf(),
        resamplable(image.width, image.height, width, height),
    ensures
        resized.wf(),
        resized.width == width,
        resized.height == height,
        image.width == width && image.height == height ==> resized@ == image@,
        image@.is_clear() ==> resized@.is_clear(),
{
    let pixels = image.pixels.clone();
    let buffer = image::RgbaImage::from_raw(image.width, image.height, pixels).unwrap();
    let filter = image::imageops::FilterType::Lanczos3;
    let resized = image::imageops::resize(&buffer, width, height, filter);
    SerializableRgbaImage { width, height, pixels: resized.into_raw() }
}

/// `image::imageops::crop_imm` followed by `SubImage::to_image`: copies a
/// rectangle out of an image. The result has the rectangle's size and
/// holds the source's pixels, each moved by the rectangle's corner.
#[verifier::external_body]
pub(crate) fn crop_image(image: &SerializableRgbaImage, slot: Rectangle) -> (window:
    SerializableRgbaImage)
    requires
        image.wf(),
        slot.x + slot.width <= image.width,
        slot.y + slot.height <= image.height,
    ensures
        window@ == cropped(image@, slot),
        window.wf(),
        window.width == slot.width,
        window.height == slot.height,
        forall|x: int, y: int, c: int|
            0 <= x < slot.width && 0 <= y < slot.height && 0 <= c < 4
                ==> #[trigger] window@.channel(x, y, c) == image@.channel(
                slot.x + x,
                slot.y + y,
                c,
            ),
{
    let pixels = image.pixels.clone();
    let buffer = image::RgbaImage::from_raw(image.width, image.height, pixels).unwrap();
    let view = image::imageops::crop_imm(&buffer, slot.x, slot.y, slot.width, slot.height);
    let pixels = view.to_image().into_raw();
    SerializableRgbaImage { width: slot.width, height: slot.height, pixels }
}

/// Whether the pixel `(px, py)` of a canvas lies under an image `top`
/// whose corner is put at `(x, y)`.
pub open spec fn covered(top: Raster, x: int, y: int, px: int, py: int) -> bool {
    x <= px < x + top.width && y <= py < y + top.height
}

/// The bytes of a canvas after `image::imageops::overlay` has laid an
/// image over it, the image's corner at `(x, y)`. Both are given by
/// their bytes, width and height.
pub uninterp spec fn overlaid(
    bottom: Seq<u8>,
    bottom_width: nat,
    bottom_height: nat,
    top: Seq<u8>,
    top_width: nat,
    top_height: nat,
    x: int,
    y: int,
) -> Seq<u8>;

/// A canvas after an image is laid over it, the image's corner at
/// `(x, y)`.
pub open spec fn laid_over(canvas: Raster, top: Raster, x: int, y: int) -> Raster {
    Raster {
        width: canvas.width,
        height: canvas.height,
        pixels: overlaid(
            canvas.pixels,
            canvas.width,
            canvas.height,
            top.pixels,
            top.width,
            top.height,
            x,
            y,
        ),
    }
}

/// `image::imageops::overlay`: lays `top` over the canvas, its corner at
/// `(x, y)`, blending pixel by pixel; what falls off the canvas is left
/// out. The blend is arithmetic on the two pixels, the same for the same
/// images and place, and the bytes that result go by the name `overlaid`.
/// The canvas keeps its size. A canvas pixel that `top` does not reach
/// keeps its value, and so does one under a fully transparent pixel of
/// `top`; one under a fully opaque pixel of `top` takes that pixel's
/// value.
#[verifier::external_body]
pub(crate) fn overlay_image(
    canvas: &mut SerializableRgbaImage,
    top: &SerializableRgbaImage,
    x: i64,
    y: i64,
)
    requires
        old(canvas).wf(),
        top.wf(),
    ensures
        final(canvas).pixels@ == overlaid(
            old(canvas).pixels@,
            old(canvas).width as nat,
            old(canvas).height as nat,
            top.pixels@,
            top.width as nat,
            top.height as nat,
            x as int,
            y as int,
        ),
        final(canvas).wf(),
        final(canvas)@.same_size(old(canvas)@),
        forall|px: int, py: int, c: int|
            old(canvas)@.contains(px, py) && 0 <= c < 4 && (!covered(
                top@,
                x as int,
                y as int,
                px,
                py,
            ) || top@.channel(px - x, py - y, 3) == 0) ==> #[trigger] final(canvas)@.channel(
                px,
                py,
                c,
            ) == old(canvas)@.channel(px, py, c),
        forall|px: int, py: int, c: int|
            old(canvas)@.contains(px, py) && 0 <= c < 4 && covered(
                top@,
                x as int,
                y as int,
                px,
                py,
            ) && top@.channel(px - x, py - y, 3) == 255 ==> #[trigger] final(canvas)@.channel(
                px,
                py,
                c,
            ) == top@.channel(px - x, py - y, c),
{
    let pixels = std::mem::take(&mut canvas.pixels);
    let mut bottom = image::RgbaImage::from_raw(canvas.width, canvas.height, pixels).unwrap();
    let upper = image::RgbaImage::from_raw(top.width, top.height, top.pixels.clone()).unwrap();
    image::imageops::overlay(&mut bottom, &upper, x, y);
    canvas.pixels = bottom.into_raw();
}

/// Fits photos of any shape into a slot.
pub struct ImageProcessor;

impl ImageProcessor {
    /// What must hold of a source and a slot for a fit to be made: neither
    /// is empty, the source's buffer matches its size, and the sizes can
    /// be resampled in memory.
    pub open spec fn fittable(image: &SerializableRgbaImage, width: u32, height: u32) -> bool {
        &&& image.wf()
        &&& image.width > 0
        &&& image.height > 0
        &&& width > 0
        &&& height > 0
        &&& resamplable(image.width, image.height, width, height)
    }

    /// Whether `fittable` holds.
    pub fn can_fit(image: &SerializableRgbaImage, width: u32, height: u32) -> (ok: bool)
        ensures
            ok == Self::fittable(image, width, height),
    {
        image.is_well_formed() && image.width > 0 && image.height > 0 && width > 0 && height > 0
            && can_resample(image.width, image.height, width, height)
    }

    /// What is known of a photo once it is fitted into a slot by a
    /// method. Crop-to-fit gives a resampling of the middle window of the
    /// photo that has the slot's proportions, stretch a resampling of the
    /// whole photo, and letterbox a white ground of the slot's size with a
    /// resampling of the whole photo, scaled to fit, laid on its middle.
    pub open spec fn is_fit_of(
        fitted: Raster,
        image: Raster,
        method: ResizeMethod,
        rect: Rectangle,
    ) -> bool {
        let (width, height) = (image.width as u32, image.height as u32);
        match method {
            ResizeMethod::CropToFit => is_resampling_of(
                fitted,
                cropped(image, spec_crop_rectangle(width, height, rect.width, rect.height)),
                rect.width,
                rect.height,
            ),
            ResizeMethod::Stretch => is_resampling_of(fitted, image, rect.width, rect.height),
            ResizeMethod::Letterbox => Self::is_letterbox_of(
                fitted,
                image,
                rect.width,
                rect.height,
            ),
        }
    }

    /// What is known of a letterbox: it is a white ground of the target's
    /// size on whose middle a resampling of the whole photo lies, scaled
    /// to the size of `spec_letterbox_slot`.
    pub open spec fn is_letterbox_of(
        fitted: Raster,
        image: Raster,
        target_width: u32,
        target_height: u32,
    ) -> bool {
        let slot = spec_letterbox_slot(
            image.width as u32,
            image.height as u32,
            target_width,
            target_height,
        );
        exists|scaled: Raster|
            is_resampling_of(scaled, image, slot.width, slot.height) && fitted
                == #[trigger] Self::framed(scaled, target_width, target_height, slot)
    }

    /// An image laid on a white ground of `width` by `height` pixels, its
    /// corner at the corner of `slot`.
    pub open spec fn framed(scaled: Raster, width: u32, height: u32, slot: Rectangle) -> Raster {
        laid_over(
            Raster::filled(width as nat, height as nat, SerializableColor::spec_white()),
            scaled,
            slot.x as int,
            slot.y as int,
        )
    }

    /// Every pixel of `fitted` outside `slot` is opaque white.
    pub open spec fn has_white_bars(fitted: Raster, slot: Rectangle) -> bool {
        forall|px: int, py: int, c: int|
            fitted.contains(px, py) && 0 <= c < 4 && !in_rectangle(slot, px, py)
                ==> #[trigger] fitted.channel(px, py, c) == 255
    }

    /// Fits `image` into a slot of the size of `rect` by the given method:
    /// the result is what `is_fit_of` says of the method. It has exactly
    /// the slot's size whatever the method, and the slot's corner plays no
    /// part. With letterbox, every pixel outside the middle rectangle that
    /// the scaled source fills is opaque white.
    pub fn process_user_image(
        image: &SerializableRgbaImage,
        method: ResizeMethod,
        rect: Rectangle,
    ) -> (fitted: SerializableRgbaImage)
        requires
            Self::fittable(image, rect.width, rect.height),
        ensures
            Self::is_fit_of(fitted@, image@, method, rect),
            fitted.wf(),
            fitted.width == rect.width,
            fitted.height == rect.height,
            method == ResizeMethod::Letterbox ==> Self::has_white_bars(
                fitted@,
                spec_letterbox_slot(image.width, image.height, rect.width, rect.height),
            ),
    {
        match method {
            ResizeMethod::CropToFit => Self::crop_to_fit(image, rect.width, rect.height),
            ResizeMethod::Stretch => Self::stretch(image, rect.width, rect.height),
            ResizeMethod::Letterbox => Self::letterbox(image, rect.width, rect.height),
        }
    }

    /// The middle window of the source that has the target's proportions,
    /// as an image of its own.
    pub fn crop_window(
        image: &SerializableRgbaImage,
        target_width: u32,
        target_height: u32,
    ) -> (window: SerializableRgbaImage)
        requires
            image.wf(),
            image.width > 0,
            image.height > 0,
            target_width > 0,
            target_height > 0,
        ensures
            window@ == cropped(
                image@,
                spec_crop_rectangle(image.width, image.height, target_width, target_height),
            ),
            window.wf(),
            window.width <= image.width,
            window.height <= image.height,
    {
        let crop = crop_rectangle(image.width, image.height, target_width, target_height);
        crop_image(image, crop)
    }

    /// Cuts the source to the target's proportions, keeping the middle,
    /// and resamples what is kept to the target's size. Where the window
    /// that is kept has the target's size already, the result is that
    /// window.
    pub fn crop_to_fit(
        image: &SerializableRgbaImage,
        target_width: u32,
        target_height: u32,
    ) -> (fitted: SerializableRgbaImage)
        requires
            Self::fittable(image, target_width, target_height),
        ensures
            is_resampling_of(
                fitted@,
                cropped(
                    image@,
                    spec_crop_rectangle(image.width, image.height, target_width, target_height),
                ),
                target_width,
                target_height,
            ),
            fitted.wf(),
            fitted.width == target_width,
            fitted.height == target_height,
    {
        let kept = Self::crop_window(image, target_width, target_height);
        proof {
            assert(kept.width * target_height <= image.width * target_height) by (nonlinear_arith)
                requires
                    kept.width <= image.width,
                    0 <= target_height,
            ;
        }
        resize_lanczos3(&kept, target_width, target_height)
    }

    /// Resamples the whole source to the target's size, whatever its
    /// proportions. A source of the target's size comes back as it is.
    pub fn stretch(
        image: &SerializableRgbaImage,
        target_width: u32,
        target_height: u32,
    ) -> (fitted: SerializableRgbaImage)
        requires
            Self::fittable(image, target_width, target_height),
        ensures
            is_resampling_of(fitted@, image@, target_width, target_height),
            fitted.wf(),
            fitted.width == target_width,
            fitted.height == target_height,
    {
        resize_lanczos3(image, target_width, target_height)
    }

    /// Lays a scaled image on a white ground of `width` by `height`
    /// pixels, its corner at the corner of `slot`. Every pixel that the
    /// image does not reach is opaque white, and so is every pixel under
    /// a fully transparent pixel of the image; a pixel under a fully
    /// opaque pixel of the image is that pixel.
    pub fn frame(
        scaled: &SerializableRgbaImage,
        width: u32,
        height: u32,
        slot: Rectangle,
    ) -> (fitted: SerializableRgbaImage)
        requires
            scaled.wf(),
            scaled.width == slot.width,
            scaled.height == slot.height,
            width as int * height as int * 4 <= usize::MAX,
        ensures
            fitted@ == Self::framed(scaled@, width, height, slot),
            fitted.wf(),
            fitted.width == width,
            fitted.height == height,
            Self::has_white_bars(fitted@, slot),
            forall|px: int, py: int, c: int|
                fitted@.contains(px, py) && 0 <= c < 4 && in_rectangle(slot, px, py)
                    && scaled@.channel(px - slot.x, py - slot.y, 3) == 255
                    ==> #[trigger] fitted@.channel(px, py, c) == scaled@.channel(
                    px - slot.x,
                    py - slot.y,
                    c,
                ),
            forall|px: int, py: int, c: int|
                fitted@.contains(px, py) && 0 <= c < 4 && in_rectangle(slot, px, py)
                    && scaled@.channel(px - slot.x, py - slot.y, 3) == 0
                    ==> #[trigger] fitted@.channel(px, py, c) == 255,
    {
        let mut fitted = SerializableRgbaImage::from_pixel(
            width,
            height,
            SerializableColor::white(),
        );
        let ghost ground = fitted@;
        overlay_image(&mut fitted, scaled, slot.x as i64, slot.y as i64);
        proof {
            assert forall|px: int, py: int, c: int|
                ground.contains(px, py) && 0 <= c < 4 implies #[trigger] ground.channel(px, py, c)
                == 255 by {
                lemma_offset_in_bounds(ground.width, ground.height, px, py);
                let i = ground.offset(px, py) + c;
                assert(ground.pixels[i] == SerializableColor::spec_white().channel(i % 4));
            }
            assert forall|px: int, py: int, c: int|
                fitted@.contains(px, py) && 0 <= c < 4 && !in_rectangle(
                    slot,
                    px,
                    py,
                ) implies #[trigger] fitted@.channel(px, py, c) == 255 by {
                assert(!covered(scaled@, slot.x as int, slot.y as int, px, py));
                assert(fitted@.channel(px, py, c) == ground.channel(px, py, c));
            }
            assert forall|px: int, py: int, c: int|
                fitted@.contains(px, py) && 0 <= c < 4 && in_rectangle(slot, px, py)
                    && scaled@.channel(px - slot.x, py - slot.y, 3)
                    == 0 implies #[trigger] fitted@.channel(px, py, c) == 255 by {
                assert(fitted@.channel(px, py, c) == ground.channel(px, py, c));
            }
            assert forall|px: int, py: int, c: int|
                fitted@.contains(px, py) && 0 <= c < 4 && in_rectangle(slot, px, py)
                    && scaled@.channel(px - slot.x, py - slot.y, 3)
                    == 255 implies #[trigger] fitted@.channel(px, py, c) == scaled@.channel(
                px - slot.x,
                py - slot.y,
                c,
            ) by {
                assert(covered(scaled@, slot.x as int, slot.y as int, px, py));
            }
        }
        fitted
    }

    /// Scales the whole source to fit the target and lays it on the middle
    /// of a white ground of the target's size.
    pub fn letterbox(
        image: &SerializableRgbaImage,
        target_width: u32,
        target_height: u32,
    ) -> (fitted: SerializableRgbaImage)
        requires
            Self::fittable(image, target_width, target_height),
        ensures
            Self::is_letterbox_of(fitted@, image@, target_width, target_height),
            fitted.wf(),
            fitted.width == target_width,
            fitted.height == target_height,
            Self::has_white_bars(
                fitted@,
                spec_letterbox_slot(image.width, image.height, target_width, target_height),
            ),
    {
        let slot = letterbox_slot(image.width, image.height, target_width, target_height);
        proof {
            assert(image.width * slot.height <= image.width * target_height) by (nonlinear_arith)
                requires
                    slot.height <= target_height,
                    0 <= image.width,
            ;
            assert(slot.width * slot.height <= target_width * target_height) by (nonlinear_arith)
                requires
                    0 <= slot.width <= target_width,
                    0 <= slot.height <= target_height,
            ;
        }
        let scaled = resize_lanczos3(image, slot.width, slot.height);
        let fitted = Self::frame(&scaled, target_width, target_height, slot);
        proof {
            assert(image@.width as u32 == image.width && image@.height as u32 == image.height);
            assert(is_resampling_of(scaled@, image@, slot.width, slot.height));
            assert(fitted@ == Self::framed(scaled@, target_width, target_height, slot));
        }
        fitted
    }
}

} // verus!
