use scp_label_maker::models::label_config::{LabelConfig, ResizeMethod, SerializableColor};
use scp_label_maker::models::{ClassType, Hazard};
use scp_label_maker::render::{AssetManager, BurnMask, LabelComposer, SerializableRgbaImage};
use scp_label_maker::utils::LabelError;

/// A font of 316 bytes: every printable ASCII character is drawn as one
/// upright rectangle, 500 by 700 units on an em of 1000.
fn font_bytes() -> Vec<u8> {
    vec![
        0, 1, 0, 0, 0, 7, 0, 64, 0, 2, 0, 48, 99, 109, 97, 112,
        0, 0, 0, 0, 0, 0, 0, 124, 0, 0, 0, 40, 103, 108, 121, 102,
        0, 0, 0, 0, 0, 0, 0, 164, 0, 0, 0, 34, 104, 101, 97, 100,
        0, 0, 0, 0, 0, 0, 0, 200, 0, 0, 0, 54, 104, 104, 101, 97,
        0, 0, 0, 0, 0, 0, 1, 0, 0, 0, 0, 36, 104, 109, 116, 120,
        0, 0, 0, 0, 0, 0, 1, 36, 0, 0, 0, 8, 108, 111, 99, 97,
        0, 0, 0, 0, 0, 0, 1, 44, 0, 0, 0, 6, 109, 97, 120, 112,
        0, 0, 0, 0, 0, 0, 1, 52, 0, 0, 0, 6, 0, 0, 0, 1,
        0, 0, 0, 4, 0, 0, 0, 12, 0, 13, 0, 0, 0, 0, 0, 28,
        0, 0, 0, 0, 0, 0, 0, 1, 0, 0, 0, 32, 0, 0, 0, 126,
        0, 0, 0, 1, 0, 1, 0, 100, 0, 0, 2, 88, 2, 188, 0, 3,
        0, 0, 1, 1, 1, 1, 0, 100, 0, 0, 1, 244, 0, 0, 0, 0,
        2, 188, 0, 0, 253, 68, 0, 0, 0, 1, 0, 0, 0, 1, 0, 0,
        0, 0, 0, 0, 95, 15, 60, 245, 0, 0, 3, 232, 0, 0, 0, 0,
        0, 0, 0, 0, 0, 0, 0, 0, 0, 0, 0, 0, 0, 0, 0, 0,
        2, 88, 2, 188, 0, 0, 0, 8, 0, 2, 0, 0, 0, 0, 0, 0,
        0, 1, 0, 0, 3, 32, 255, 56, 0, 0, 2, 188, 0, 0, 0, 0,
        2, 88, 0, 1, 0, 0, 0, 0, 0, 0, 0, 0, 0, 0, 0, 0,
        0, 0, 0, 2, 2, 188, 0, 0, 2, 188, 0, 100, 0, 0, 0, 0,
        0, 17, 0, 0, 0, 0, 80, 0, 0, 2, 0, 0,
    ]
}

const RED: SerializableColor = SerializableColor { r: 255, g: 0, b: 0, a: 255 };
const BLUE: SerializableColor = SerializableColor { r: 0, g: 0, b: 255, a: 255 };

fn template() -> SerializableRgbaImage {
    let mut pixels = Vec::new();
    for y in 0..512u32 {
        for x in 0..512u32 {
            pixels.extend_from_slice(&[(100 + x % 100) as u8, (120 + y % 100) as u8, ((x + y) % 200 + 50) as u8, 255]);
        }
    }
    SerializableRgbaImage::from_raw(512, 512, pixels).unwrap()
}

fn texture() -> SerializableRgbaImage {
    let mut pixels = Vec::new();
    for y in 0..512u32 {
        for x in 0..512u32 {
            pixels.extend_from_slice(&[(x % 7 * 30) as u8, (y % 5 * 40) as u8, ((x * y) % 256) as u8, (x % 256) as u8]);
        }
    }
    SerializableRgbaImage::from_raw(512, 512, pixels).unwrap()
}

fn assets() -> AssetManager {
    let mut assets = AssetManager::new();
    assets.insert_template(ClassType::Safe, template(), None);
    assets.set_texture(Some(texture()));
    assets.insert_hazard_icon(ClassType::Safe, Hazard::MemeticHazard, SerializableRgbaImage::from_pixel(10, 10, BLUE));
    assets
}

fn composer() -> LabelComposer {
    LabelComposer::new(font_bytes()).unwrap()
}

fn silent() -> LabelConfig {
    let mut config = LabelConfig::with_scp_number(173);
    config.scp_number = String::new();
    config.object_class_text = String::new();
    config
}

#[test]
fn composer_needs_a_font() {
    match LabelComposer::new(vec![0, 1, 2, 3]) {
        Err(LabelError::TextRendering(detail)) => assert_eq!(detail, "Failed to load font"),
        _ => panic!("the data was accepted"),
    }
    assert!(LabelComposer::new(font_bytes()).is_ok());
}

#[test]
fn minimal_label_is_the_template_with_its_texts() {
    let label = composer().compose(&LabelConfig::with_scp_number(173), &assets(), None, None).unwrap();
    assert_eq!((label.width, label.height), (512, 512));
    let template = template();
    let mut same = 0;
    for i in 0..512 * 512 {
        let pixel = &label.pixels[i * 4..i * 4 + 4];
        assert_eq!(pixel[3], 255);
        if pixel == &template.pixels[i * 4..i * 4 + 4] {
            same += 1;
        } else {
            assert_eq!(pixel, [0, 0, 0, 255]);
        }
    }
    assert!(same < 512 * 512);
    assert!(same > 512 * 512 * 9 / 10);
    for (x, y) in [(0, 0), (511, 511), (10, 400), (400, 400), (250, 60)] {
        assert_eq!(label.get_pixel_checked(x, y), template.get_pixel_checked(x, y));
    }
}

#[test]
fn label_without_texts_is_the_template() {
    let label = composer().compose(&silent(), &assets(), None, None).unwrap();
    assert_eq!((label.width, label.height), (512, 512));
    assert_eq!(label.pixels, template().pixels);
}

#[test]
fn label_has_the_configured_resolution() {
    for resolution in [64u32, 256, 512, 1024] {
        let mut config = LabelConfig::with_scp_number(173);
        config.output_resolution = resolution;
        let label = composer().compose(&config, &assets(), None, None).unwrap();
        assert_eq!((label.width, label.height), (resolution, resolution));
        assert_eq!(label.pixels.len() as u32, resolution * resolution * 4);
    }
}

#[test]
fn missing_template_gives_the_placeholder() {
    let mut config = silent();
    config.class_type = ClassType::Keter;
    let label = composer().compose(&config, &assets(), None, None).unwrap();
    assert_eq!((label.width, label.height), (1, 1));
    assert_eq!(label.pixels, vec![0, 0, 0, 0]);
    config.output_resolution = 32;
    let scaled = composer().compose(&config, &assets(), None, None).unwrap();
    assert_eq!((scaled.width, scaled.height), (32, 32));
}

#[test]
fn texture_of_no_opacity_is_like_no_texture() {
    let mut without = LabelConfig::with_scp_number(173);
    without.selected_hazard = Some(Hazard::MemeticHazard);
    let mut with = without.clone();
    with.apply_texture = true;
    with.texture_alpha = 0;
    let photo = SerializableRgbaImage::from_pixel(40, 30, RED);
    let plain = composer().compose(&without, &assets(), Some(&photo), None).unwrap();
    let textured = composer().compose(&with, &assets(), Some(&photo), None).unwrap();
    assert_eq!(textured.pixels, plain.pixels);
}

#[test]
fn texture_of_full_opacity_shows_the_textures_colours() {
    let mut config = LabelConfig::with_scp_number(173);
    config.apply_texture = true;
    config.texture_alpha = 255;
    let label = composer().compose(&config, &assets(), None, None).unwrap();
    let texture = texture();
    for i in 0..512 * 512 {
        assert_eq!(label.pixels[i * 4..i * 4 + 3], texture.pixels[i * 4..i * 4 + 3]);
        assert_eq!(label.pixels[i * 4 + 3], 255);
    }
}

#[test]
fn texture_is_blended_over_the_label() {
    let mut config = silent();
    config.apply_texture = true;
    config.texture_alpha = 76;
    let label = composer().compose(&config, &assets(), None, None).unwrap();
    let template = template();
    let texture = texture();
    for i in [0usize, 1000, 512 * 300 + 17, 512 * 512 - 1] {
        for c in 0..3 {
            let base = template.pixels[i * 4 + c] as u32;
            let over = texture.pixels[i * 4 + c] as u32;
            assert_eq!(label.pixels[i * 4 + c] as u32, (base * 179 + over * 76) / 255);
        }
        assert_eq!(label.pixels[i * 4 + 3], 255);
    }
}

#[test]
fn burn_of_no_weight_leaves_the_label() {
    let mut config = LabelConfig::with_scp_number(173);
    let plain = composer().compose(&config, &assets(), None, None).unwrap();
    config.apply_burn = true;
    let mask = BurnMask::uniform(512, 512, 0);
    let burned = composer().compose(&config, &assets(), None, Some(&mask)).unwrap();
    assert_eq!(burned.pixels, plain.pixels);
    let unburned = composer().compose(&config, &assets(), None, None).unwrap();
    assert_eq!(unburned.pixels, plain.pixels);
}

#[test]
fn burn_is_applied_only_when_switched_on() {
    let mut config = silent();
    let mask = BurnMask::uniform(512, 512, 255);
    let off = composer().compose(&config, &assets(), None, Some(&mask)).unwrap();
    assert_eq!(off.pixels, template().pixels);
    config.apply_burn = true;
    let on = composer().compose(&config, &assets(), None, Some(&mask)).unwrap();
    assert!(on.pixels.chunks(4).all(|p| p == [0, 0, 0, 255]));
}

#[test]
fn burn_comes_after_the_texture() {
    let mut config = silent();
    config.apply_texture = true;
    config.texture_alpha = 255;
    config.apply_burn = true;
    let mask = BurnMask::uniform(512, 512, 128);
    let label = composer().compose(&config, &assets(), None, Some(&mask)).unwrap();
    let texture = texture();
    for i in [0usize, 77, 512 * 100 + 3] {
        for c in 0..3 {
            assert_eq!(label.pixels[i * 4 + c] as u32, texture.pixels[i * 4 + c] as u32 * 127 / 255);
        }
    }
}

#[test]
fn photo_fills_its_slot_in_the_normal_style() {
    let config = silent();
    let photo = SerializableRgbaImage::from_pixel(40, 30, RED);
    let label = composer().compose(&config, &assets(), Some(&photo), None).unwrap();
    let template = template();
    for y in 0..512 {
        for x in 0..512 {
            let inside = 264 <= x && x < 497 && 256 <= y && y < 496;
            let expected = if inside { Some(RED) } else { template.get_pixel_checked(x, y) };
            assert_eq!(label.get_pixel_checked(x, y), expected);
        }
    }
}

#[test]
fn photo_is_fitted_by_the_configured_policy() {
    let mut config = silent();
    config.resize_method = ResizeMethod::Letterbox;
    let photo = SerializableRgbaImage::from_pixel(466, 120, RED);
    let label = composer().compose(&config, &assets(), Some(&photo), None).unwrap();
    assert_eq!(label.get_pixel_checked(264, 256), Some(SerializableColor::white()));
    assert_eq!(label.get_pixel_checked(380, 376), Some(RED));
    assert_eq!(label.get_pixel_checked(496, 495), Some(SerializableColor::white()));
    assert_eq!(label.get_pixel_checked(263, 256), template().get_pixel_checked(263, 256));
}

#[test]
fn alternate_style_shows_no_photo() {
    let mut config = silent();
    config.use_alternate_style = true;
    let photo = SerializableRgbaImage::from_pixel(40, 30, RED);
    let label = composer().compose(&config, &assets(), Some(&photo), None).unwrap();
    assert_eq!(label.pixels, template().pixels);
    let empty = SerializableRgbaImage::from_pixel(0, 0, RED);
    assert!(composer().compose(&config, &assets(), Some(&empty), None).is_ok());
}

#[test]
fn empty_photo_is_refused() {
    let empty = SerializableRgbaImage::from_pixel(0, 0, RED);
    match composer().compose(&silent(), &assets(), Some(&empty), None) {
        Err(LabelError::ImageProcessing(detail)) => assert_eq!(detail, "User image is empty or too large"),
        _ => panic!("the photo was accepted"),
    }
}

#[test]
fn output_too_large_to_hold_is_refused() {
    let mut config = silent();
    config.output_resolution = 4294967295;
    match composer().compose(&config, &assets(), None, None) {
        Err(LabelError::ImageProcessing(detail)) => assert_eq!(detail, "Output resolution is too large"),
        _ => panic!("the resolution was accepted"),
    }
}

#[test]
fn hazard_icon_fills_its_slot() {
    let mut config = silent();
    config.selected_hazard = Some(Hazard::MemeticHazard);
    let label = composer().compose(&config, &assets(), None, None).unwrap();
    let template = template();
    for y in 0..512 {
        for x in 0..512 {
            let inside = 15 <= x && x < 248 && 256 <= y && y < 496;
            let expected = if inside { Some(BLUE) } else { template.get_pixel_checked(x, y) };
            assert_eq!(label.get_pixel_checked(x, y), expected);
        }
    }
    config.use_alternate_style = true;
    let moved = composer().compose(&config, &assets(), None, None).unwrap();
    assert_eq!(moved.get_pixel_checked(137, 256), Some(BLUE));
    assert_eq!(moved.get_pixel_checked(369, 495), Some(BLUE));
    assert_eq!(moved.get_pixel_checked(136, 256), template.get_pixel_checked(136, 256));
    assert_eq!(moved.get_pixel_checked(20, 300), template.get_pixel_checked(20, 300));
}

#[test]
fn missing_hazard_icon_leaves_the_label() {
    let mut config = silent();
    config.selected_hazard = Some(Hazard::Cognitohazard);
    let label = composer().compose(&config, &assets(), None, None).unwrap();
    assert_eq!(label.pixels, template().pixels);
}

#[test]
fn composing_twice_gives_the_same_label() {
    let mut config = LabelConfig::with_scp_number(173);
    config.selected_hazard = Some(Hazard::MemeticHazard);
    config.apply_texture = true;
    config.apply_burn = true;
    config.output_resolution = 300;
    let photo = SerializableRgbaImage::from_pixel(64, 64, RED);
    let mask = BurnMask::uniform(512, 512, 40);
    let first = composer().compose(&config, &assets(), Some(&photo), Some(&mask)).unwrap();
    let second = composer().compose(&config, &assets(), Some(&photo), Some(&mask)).unwrap();
    assert_eq!(first.pixels, second.pixels);
}

#[test]
fn texts_are_written_in_their_regions() {
    let mut config = silent();
    config.scp_number = String::from("1");
    let label = composer().compose(&config, &assets(), None, None).unwrap();
    let template = template();
    assert_eq!(label.get_pixel_checked(130, 158), Some(SerializableColor::black()));
    assert_eq!(label.get_pixel_checked(320, 220), template.get_pixel_checked(320, 220));
    config.scp_number = String::new();
    config.object_class_text = String::from("K");
    config.class_text_color = RED;
    let label = composer().compose(&config, &assets(), None, None).unwrap();
    assert_eq!(label.get_pixel_checked(320, 220), Some(RED));
    assert_eq!(label.get_pixel_checked(130, 158), template.get_pixel_checked(130, 158));
}

#[test]
fn label_is_the_working_canvas_finished() {
    let mut config = LabelConfig::with_scp_number(173);
    config.selected_hazard = Some(Hazard::MemeticHazard);
    config.apply_texture = true;
    config.texture_alpha = 90;
    config.apply_burn = true;
    let photo = SerializableRgbaImage::from_pixel(64, 48, RED);
    let mask = BurnMask::uniform(512, 512, 40);
    let assets = assets();
    let composer = composer();
    let label = composer.compose(&config, &assets, Some(&photo), Some(&mask)).unwrap();
    let mut canvas = composer.render_base(&config, &assets, Some(&photo));
    let base = canvas.clone();
    LabelComposer::finish(&mut canvas, &config, assets.get_texture(), Some(&mask));
    assert_eq!(canvas.pixels, label.pixels);
    let mut by_hand = base.clone();
    LabelComposer::apply_texture(&mut by_hand, assets.get_texture(), 90);
    LabelComposer::apply_burn(&mut by_hand, &mask);
    assert_eq!(by_hand.pixels, label.pixels);
    let mut untouched = base.clone();
    config.apply_texture = false;
    config.apply_burn = false;
    LabelComposer::finish(&mut untouched, &config, assets.get_texture(), Some(&mask));
    assert_eq!(untouched.pixels, base.pixels);
}

#[test]
fn unsettable_text_leaves_the_label_without_it() {
    let mut config = silent();
    config.scp_number = "1".repeat(100000);
    let label = composer().compose(&config, &assets(), None, None).unwrap();
    assert_eq!(label.pixels, template().pixels);
}

#[test]
fn missing_icon_leaves_the_canvas_where_it_is_placed() {
    let assets = assets();
    let mut config = silent();
    config.selected_hazard = Some(Hazard::Cognitohazard);
    let before = template();
    let mut canvas = before.clone();
    LabelComposer::place_hazards(&mut canvas, &config, &assets);
    assert_eq!(canvas.pixels, before.pixels);
    config.use_alternate_style = true;
    LabelComposer::place_hazards(&mut canvas, &config, &assets);
    assert_eq!(canvas.pixels, before.pixels);
    let placeholder = assets.get_hazard_icon(&ClassType::Keter, &Hazard::Cognitohazard);
    assert_eq!((placeholder.width, placeholder.height), (1, 1));
    assert_eq!(placeholder.pixels, vec![0, 0, 0, 0]);
}
