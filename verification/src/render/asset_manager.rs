use crate::models::class_type::ClassType;
use crate::models::hazard::{Hazard, HAZARD_COUNT};
use crate::models::label_config::SerializableColor;
use crate::models::layout::LABEL_SIZE;
use crate::render::image_processor::{is_resampling_of, resamplable, resize_lanczos3};
use std::collections::HashMap;
use vstd::prelude::*;
use vstd::std_specs::hash::group_hash_axioms;

verus! {

/// What an image is to a contract: its size and its bytes, four per pixel
/// (red, green, blue, opacity), rows from the top, pixels from the left.
pub struct Raster {
    pub width: nat,
    pub height: nat,
    pub pixels: Seq<u8>,
}

impl Raster {
    /// There are exactly four bytes for every pixel.
    pub open spec fn wf(self) -> bool {
        self.pixels.len() == self.width * self.height * 4
    }

    /// The pixel `(x, y)` lies on the image.
    pub open spec fn contains(self, x: int, y: int) -> bool {
        0 <= x < self.width && 0 <= y < self.height
    }

    /// Index of the first byte of pixel `(x, y)`.
    pub open spec fn offset(self, x: int, y: int) -> int {
        (y * self.width + x) * 4
    }

    /// Channel `c` of pixel `(x, y)`.
    pub open spec fn channel(self, x: int, y: int, c: int) -> u8 {
        self.pixels[self.offset(x, y) + c]
    }

    /// The pixel `(x, y)` as a colour.
    pub open spec fn pixel(self, x: int, y: int) -> SerializableColor {
        SerializableColor {
            r: self.channel(x, y, 0),
            g: self.channel(x, y, 1),
            b: self.channel(x, y, 2),
            a: self.channel(x, y, 3),
        }
    }

    /// Both images have the same width and the same height.
    pub open spec fn same_size(self, other: Raster) -> bool {
        self.width == other.width && self.height == other.height
    }

    /// Every byte of the image is zero: it is black and fully transparent
    /// throughout.
    pub open spec fn is_clear(self) -> bool {
        forall|i: int| 0 <= i < self.pixels.len() ==> self.pixels[i] == 0
    }

    /// Every pixel of the image is fully transparent.
    pub open spec fn is_transparent(self) -> bool {
        forall|x: int, y: int| self.contains(x, y) ==> #[trigger] self.channel(x, y, 3) == 0
    }

    /// The single transparent pixel that stands in for a missing asset.
    pub open spec fn transparent_pixel() -> Raster {
        Raster::filled(1, 1, SerializableColor::spec_transparent())
    }

    /// An image of one colour.
    pub open spec fn filled(width: nat, height: nat, color: SerializableColor) -> Raster {
        Raster {
            width,
            height,
            pixels: Seq::new(width * height * 4, |i: int| color.channel(i % 4)),
        }
    }
}

/// The bytes of the pixels `(x, y)` of an image `width` pixels wide lie
/// inside the image and before those of every later pixel.
pub proof fn lemma_offset_in_bounds(width: nat, height: nat, x: int, y: int)
    requires
        0 <= x < width,
        0 <= y < height,
    ensures
        0 <= y * width + x < width * height,
        0 <= (y * width + x) * 4,
        (y * width + x) * 4 + 4 <= width * height * 4,
{
    assert(y * width <= (height - 1) * width) by (nonlinear_arith)
        requires
            0 <= y <= height - 1,
            0 <= width,
    ;
    assert((height - 1) * width == height * width - width) by (nonlinear_arith);
    assert(height * width == width * height) by (nonlinear_arith);
    assert(0 <= y * width) by (nonlinear_arith)
        requires
            0 <= y,
            0 <= width,
    ;
}

/// Every byte of an image is a channel of one of its pixels.
pub proof fn lemma_byte_is_channel(image: Raster, i: int)
    requires
        image.wf(),
        0 <= i < image.pixels.len(),
    ensures
        ({
            let x = (i / 4) % (image.width as int);
            let y = (i / 4) / (image.width as int);
            &&& image.contains(x, y)
            &&& 0 <= i % 4 < 4
            &&& image.offset(x, y) + i % 4 == i
        }),
{
    let w = image.width as int;
    let h = image.height as int;
    let p = i / 4;
    assert(w > 0) by (nonlinear_arith)
        requires
            0 <= i < w * h * 4,
            0 <= w,
            0 <= h,
    ;
    assert(0 <= p < w * h);
    vstd::arithmetic::div_mod::lemma_fundamental_div_mod(p, w);
    vstd::arithmetic::div_mod::lemma_mod_pos_bound(p, w);
    let x = p % w;
    let y = p / w;
    assert(0 <= y < h) by (nonlinear_arith)
        requires
            0 <= p < w * h,
            p == w * y + x,
            0 <= x < w,
            0 < w,
    ;
    assert(y * w == w * y) by (nonlinear_arith);
}

/// An image whose bytes are all zero is fully transparent.
pub proof fn lemma_clear_is_transparent(image: Raster)
    requires
        image.wf(),
        image.is_clear(),
    ensures
        image.is_transparent(),
{
    assert forall|x: int, y: int| image.contains(x, y) implies #[trigger] image.channel(x, y, 3)
        == 0 by {
        lemma_offset_in_bounds(image.width, image.height, x, y);
    }
}

/// Two images of the same size whose pixels agree in every channel are
/// the same image.
pub proof fn lemma_same_channels(a: Raster, b: Raster)
    requires
        a.wf(),
        b.wf(),
        a.same_size(b),
        forall|x: int, y: int, c: int|
            a.contains(x, y) && 0 <= c < 4 ==> #[trigger] a.channel(x, y, c) == b.channel(x, y, c),
    ensures
        a == b,
{
    assert forall|i: int| 0 <= i < a.pixels.len() implies a.pixels[i] == b.pixels[i] by {
        lemma_byte_is_channel(a, i);
        let x = (i / 4) % (a.width as int);
        let y = (i / 4) / (a.width as int);
        assert(a.channel(x, y, i % 4) == b.channel(x, y, i % 4));
    }
    assert(a.pixels =~= b.pixels);
}

/// An RGBA image held as plain values.
#[derive(Debug)]
pub struct SerializableRgbaImage {
    pub width: u32,
    pub height: u32,
    pub pixels: Vec<u8>,
}

impl View for SerializableRgbaImage {
    type V = Raster;

    open spec fn view(&self) -> Raster {
        Raster { width: self.width as nat, height: self.height as nat, pixels: self.pixels@ }
    }
}

impl Clone for SerializableRgbaImage {
    fn clone(&self) -> (copy: Self)
        ensures
            copy@ == self@,
    {
        SerializableRgbaImage {
            width: self.width,
            height: self.height,
            pixels: self.pixels.clone(),
        }
    }
}

impl SerializableRgbaImage {
    /// The buffer holds exactly the image's pixels.
    pub open spec fn wf(&self) -> bool {
        self@.wf()
    }

    /// Whether the buffer holds exactly four bytes for every pixel.
    pub fn is_well_formed(&self) -> (ok: bool)
        ensures
            ok == self.wf(),
    {
        assert(self.width as int * self.height as int <= 0xFFFF_FFFF * 0xFFFF_FFFF)
            by (nonlinear_arith)
            requires
                0 <= self.width <= 0xFFFF_FFFF,
                0 <= self.height <= 0xFFFF_FFFF,
        ;
        let needed: u128 = (self.width as u128) * (self.height as u128) * 4;
        self.pixels.len() as u128 == needed
    }

    /// The image of the given size over `pixels`, if there are exactly four
    /// bytes for every pixel.
    pub fn from_raw(width: u32, height: u32, pixels: Vec<u8>) -> (image: Option<Self>)
        ensures
            image is Some <==> pixels@.len() == width as int * height as int * 4,
            image is Some ==> image->0@ == (Raster {
                width: width as nat,
                height: height as nat,
                pixels: pixels@,
            }),
    {
        let candidate = SerializableRgbaImage { width, height, pixels };
        if candidate.is_well_formed() {
            Some(candidate)
        } else {
            None
        }
    }

    /// An image of one colour.
    pub fn from_pixel(width: u32, height: u32, color: SerializableColor) -> (image: Self)
        requires
            width as int * height as int * 4 <= usize::MAX,
        ensures
            image.wf(),
            image@ == Raster::filled(width as nat, height as nat, color),
    {
        let count: usize = (width as usize) * (height as usize);
        let mut pixels: Vec<u8> = Vec::new();
        let mut i: usize = 0;
        while i < count
            invariant
                i <= count,
                count == width as int * height as int,
                count * 4 <= usize::MAX,
                pixels@.len() == i * 4,
                forall|k: int| 0 <= k < pixels@.len() ==> pixels@[k] == color.channel(k % 4),
            decreases count - i,
        {
            pixels.push(color.r);
            pixels.push(color.g);
            pixels.push(color.b);
            pixels.push(color.a);
            i += 1;
        }
        let image = SerializableRgbaImage { width, height, pixels };
        assert(image@.pixels =~= Raster::filled(width as nat, height as nat, color).pixels);
        image
    }

    /// The single transparent pixel that stands in for a missing asset.
    pub fn placeholder() -> (image: Self)
        ensures
            image.wf(),
            image@ == Raster::filled(1, 1, SerializableColor::spec_transparent()),
    {
        Self::from_pixel(1, 1, SerializableColor::transparent())
    }

    /// Index of the first byte of pixel `(x, y)`.
    pub fn offset_of(&self, x: u32, y: u32) -> (at: usize)
        requires
            self.wf(),
            self@.contains(x as int, y as int),
        ensures
            at == self@.offset(x as int, y as int),
            at + 4 <= self.pixels@.len(),
    {
        proof {
            lemma_offset_in_bounds(self.width as nat, self.height as nat, x as int, y as int);
            vstd::std_specs::vec::axiom_spec_len(&self.pixels);
        }
        let row: usize = (y as usize) * (self.width as usize);
        (row + (x as usize)) * 4
    }

    /// The pixel `(x, y)`, if it lies on the image.
    pub fn get_pixel_checked(&self, x: u32, y: u32) -> (pixel: Option<SerializableColor>)
        requires
            self.wf(),
        ensures
            pixel is Some <==> self@.contains(x as int, y as int),
            pixel is Some ==> pixel->0 == self@.pixel(x as int, y as int),
    {
        if x < self.width && y < self.height {
            let at = self.offset_of(x, y);
            Some(
                SerializableColor {
                    r: self.pixels[at],
                    g: self.pixels[at + 1],
                    b: self.pixels[at + 2],
                    a: self.pixels[at + 3],
                },
            )
        } else {
            None
        }
    }
}

/// The key under which the icon of a hazard is kept for a class.
pub open spec fn spec_icon_key(class: ClassType, hazard: Hazard) -> u64 {
    (class.spec_ordinal() * HAZARD_COUNT + hazard.spec_ordinal()) as u64
}

/// The key under which the icon of a hazard is kept for a class. No two
/// pairs of class and hazard share a key.
pub fn icon_key(class: &ClassType, hazard: &Hazard) -> (key: u64)
    ensures
        key == spec_icon_key(*class, *hazard),
        forall|other_class: ClassType, other_hazard: Hazard|
            spec_icon_key(other_class, other_hazard) == key ==> other_class == *class
                && other_hazard == *hazard,
{
    class.ordinal() * HAZARD_COUNT + hazard.ordinal()
}

/// The images a label is composed from: for each class its template in
/// both styles, the hazard icons of each class, one texture, and the
/// placeholder that stands in for whatever is missing. Every image it
/// holds is well formed.
pub struct AssetManager {
    templates: HashMap<u64, (SerializableRgbaImage, SerializableRgbaImage)>,
    hazard_icons: HashMap<u64, SerializableRgbaImage>,
    texture_overlay: SerializableRgbaImage,
    placeholder: SerializableRgbaImage,
}

impl AssetManager {
    #[verifier::type_invariant]
    closed spec fn inv(self) -> bool {
        &&& self.placeholder.wf()
        &&& self.placeholder@ == Raster::transparent_pixel()
        &&& self.texture_overlay.wf()
        &&& forall|key: u64| #[trigger]
            self.templates@.contains_key(key) ==> self.templates@[key].0.wf()
                && self.templates@[key].1.wf()
        &&& forall|key: u64| #[trigger]
            self.hazard_icons@.contains_key(key) ==> self.hazard_icons@[key].wf()
    }

    /// Whether templates are held for a class.
    pub closed spec fn has_template(self, class: ClassType) -> bool {
        self.templates@.contains_key(class.spec_ordinal())
    }

    /// The template held for a class in one of the two styles.
    pub closed spec fn stored_template(self, class: ClassType, alternate: bool) -> Raster {
        if alternate {
            self.templates@[class.spec_ordinal()].1@
        } else {
            self.templates@[class.spec_ordinal()].0@
        }
    }

    /// Whether an icon is held for a hazard of a class.
    pub closed spec fn has_hazard_icon(self, class: ClassType, hazard: Hazard) -> bool {
        self.hazard_icons@.contains_key(spec_icon_key(class, hazard))
    }

    /// The icon held for a hazard of a class.
    pub closed spec fn stored_hazard_icon(self, class: ClassType, hazard: Hazard) -> Raster {
        self.hazard_icons@[spec_icon_key(class, hazard)]@
    }

    /// The placeholder: a single transparent pixel, in every manager.
    pub open spec fn spec_placeholder(self) -> Raster {
        Raster::transparent_pixel()
    }

    /// The texture.
    pub closed spec fn spec_texture(self) -> Raster {
        self.texture_overlay@
    }

    /// The template that a label of a class and style starts from: the
    /// one held, or the placeholder where none is.
    pub open spec fn spec_template(self, class: ClassType, alternate: bool) -> Raster {
        if self.has_template(class) {
            self.stored_template(class, alternate)
        } else {
            self.spec_placeholder()
        }
    }

    /// The icon shown for a hazard of a class: the one held, or the
    /// placeholder where none is.
    pub open spec fn spec_hazard_icon(self, class: ClassType, hazard: Hazard) -> Raster {
        if self.has_hazard_icon(class, hazard) {
            self.stored_hazard_icon(class, hazard)
        } else {
            self.spec_placeholder()
        }
    }

    /// A manager that holds no template and no icon. Its placeholder is
    /// one transparent pixel, and so is its texture.
    pub fn new() -> (assets: Self)
        ensures
            assets.spec_placeholder() == Raster::filled(
                1,
                1,
                SerializableColor::spec_transparent(),
            ),
            assets.spec_texture() == assets.spec_placeholder(),
            forall|class: ClassType| !assets.has_template(class),
            forall|class: ClassType, hazard: Hazard| !assets.has_hazard_icon(class, hazard),
    {
        AssetManager {
            templates: HashMap::new(),
            hazard_icons: HashMap::new(),
            texture_overlay: SerializableRgbaImage::placeholder(),
            placeholder: SerializableRgbaImage::placeholder(),
        }
    }

    /// Brings an asset to the size of a label where that is asked for and
    /// it has another size, by resampling it; otherwise hands it back as
    /// it is.
    pub fn finalize_image(image: SerializableRgbaImage, should_resize: bool) -> (finished:
        SerializableRgbaImage)
        requires
            image.wf(),
            should_resize ==> resamplable(image.width, image.height, LABEL_SIZE, LABEL_SIZE),
        ensures
            should_resize ==> is_resampling_of(finished@, image@, LABEL_SIZE, LABEL_SIZE),
            finished.wf(),
            should_resize ==> finished.width == LABEL_SIZE && finished.height == LABEL_SIZE,
            !should_resize || (image.width == LABEL_SIZE && image.height == LABEL_SIZE)
                ==> finished@ == image@,
    {
        if should_resize && (image.width != LABEL_SIZE || image.height != LABEL_SIZE) {
            resize_lanczos3(&image, LABEL_SIZE, LABEL_SIZE)
        } else {
            image
        }
    }

    /// Both managers hold the same templates, but perhaps for one class.
    pub open spec fn same_templates_but(
        self,
        other: AssetManager,
        skipped: Option<ClassType>,
    ) -> bool {
        forall|class: ClassType, alternate: bool|
            Some(class) != skipped ==> self.has_template(class) == other.has_template(class)
                && #[trigger] self.stored_template(class, alternate) == other.stored_template(
                class,
                alternate,
            )
    }

    /// Both managers hold the same templates.
    pub open spec fn same_templates(self, other: AssetManager) -> bool {
        self.same_templates_but(other, None)
    }

    /// Both managers hold the same hazard icons, but perhaps for one
    /// hazard of one class.
    pub open spec fn same_hazard_icons_but(
        self,
        other: AssetManager,
        skipped: Option<(ClassType, Hazard)>,
    ) -> bool {
        forall|class: ClassType, hazard: Hazard|
            Some((class, hazard)) != skipped ==> #[trigger] self.has_hazard_icon(class, hazard)
                == other.has_hazard_icon(class, hazard) && self.stored_hazard_icon(class, hazard)
                == other.stored_hazard_icon(class, hazard)
    }

    /// Both managers hold the same hazard icons.
    pub open spec fn same_hazard_icons(self, other: AssetManager) -> bool {
        self.same_hazard_icons_but(other, None)
    }

    /// Stores the templates of a class. Where no alternate template is
    /// given, the primary one serves for both styles. Everything else the
    /// manager holds stays as it is.
    pub fn insert_template(
        &mut self,
        class: ClassType,
        primary: SerializableRgbaImage,
        alternate: Option<SerializableRgbaImage>,
    )
        requires
            primary.wf(),
            alternate is Some ==> alternate->0.wf(),
        ensures
            final(self).has_template(class),
            final(self).stored_template(class, false) == primary@,
            final(self).stored_template(class, true) == (if alternate is Some {
                alternate->0@
            } else {
                primary@
            }),
            final(self).same_templates_but(*old(self), Some(class)),
            final(self).same_hazard_icons(*old(self)),
            final(self).spec_texture() == old(self).spec_texture(),
            final(self).spec_placeholder() == old(self).spec_placeholder(),
    {
        proof {
            use_type_invariant(&*self);
        }
        broadcast use group_hash_axioms;

        let second = match alternate {
            Some(image) => image,
            None => primary.clone(),
        };
        let mut templates = HashMap::new();
        std::mem::swap(&mut self.templates, &mut templates);
        templates.insert(class.ordinal(), (primary, second));
        std::mem::swap(&mut self.templates, &mut templates);
    }

    /// Stores the icon of a hazard for a class. Everything else the
    /// manager holds stays as it is.
    pub fn insert_hazard_icon(
        &mut self,
        class: ClassType,
        hazard: Hazard,
        icon: SerializableRgbaImage,
    )
        requires
            icon.wf(),
        ensures
            final(self).has_hazard_icon(class, hazard),
            final(self).stored_hazard_icon(class, hazard) == icon@,
            final(self).same_hazard_icons_but(*old(self), Some((class, hazard))),
            final(self).same_templates(*old(self)),
            final(self).spec_texture() == old(self).spec_texture(),
            final(self).spec_placeholder() == old(self).spec_placeholder(),
    {
        proof {
            use_type_invariant(&*self);
        }
        broadcast use group_hash_axioms;

        let key = icon_key(&class, &hazard);
        let mut icons = HashMap::new();
        std::mem::swap(&mut self.hazard_icons, &mut icons);
        icons.insert(key, icon);
        std::mem::swap(&mut self.hazard_icons, &mut icons);
    }

    /// Sets the texture; where none is given, the placeholder serves.
    /// Everything else the manager holds stays as it is.
    pub fn set_texture(&mut self, texture: Option<SerializableRgbaImage>)
        requires
            texture is Some ==> texture->0.wf(),
        ensures
            final(self).spec_texture() == (if texture is Some {
                texture->0@
            } else {
                old(self).spec_placeholder()
            }),
            final(self).spec_placeholder() == old(self).spec_placeholder(),
            final(self).same_templates(*old(self)),
            final(self).same_hazard_icons(*old(self)),
    {
        proof {
            use_type_invariant(&*self);
        }
        self.texture_overlay = match texture {
            Some(image) => image,
            None => self.placeholder.clone(),
        };
    }

    /// The template that a label of a class and style starts from.
    pub fn get_template(&self, class: &ClassType, alternate: bool) -> (image:
        &SerializableRgbaImage)
        ensures
            image@ == self.spec_template(*class, alternate),
            image.wf(),
    {
        proof {
            use_type_invariant(self);
        }
        broadcast use group_hash_axioms;

        let key = class.ordinal();
        match self.templates.get(&key) {
            Some(pair) => if alternate {
                &pair.1
            } else {
                &pair.0
            },
            None => &self.placeholder,
        }
    }

    /// The icon shown for a hazard of a class: the one held, or the
    /// placeholder, a single transparent pixel, where none is.
    pub fn get_hazard_icon(&self, class: &ClassType, hazard: &Hazard) -> (image:
        &SerializableRgbaImage)
        ensures
            image@ == self.spec_hazard_icon(*class, *hazard),
            image.wf(),
            !self.has_hazard_icon(*class, *hazard) ==> image@ == Raster::transparent_pixel(),
    {
        proof {
            use_type_invariant(self);
        }
        broadcast use group_hash_axioms;

        let key = icon_key(class, hazard);
        match self.hazard_icons.get(&key) {
            Some(icon) => icon,
            None => &self.placeholder,
        }
    }

    /// The texture.
    pub fn get_texture(&self) -> (image: &SerializableRgbaImage)
        ensures
            image@ == self.spec_texture(),
            image.wf(),
    {
        proof {
            use_type_invariant(self);
        }
        &self.texture_overlay
    }

    /// The placeholder.
    pub fn get_placeholder(&self) -> (image: &SerializableRgbaImage)
        ensures
            image@ == self.spec_placeholder(),
            image@ == Raster::transparent_pixel(),
            image.wf(),
    {
        proof {
            use_type_invariant(self);
        }
        &self.placeholder
    }
}


} // verus!
