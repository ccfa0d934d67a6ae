use scp_label_maker::models::{Alignment, CommonLayout, TextRegion};
use scp_label_maker::models::label_config::SerializableColor;
use scp_label_maker::render::text_renderer::{
    char_is_whitespace, count_retained, layout_lines, line_is_blank, split_text, stroke_offsets,
    PlacedLine, SerializableTextRenderer, TextRenderer,
};
use scp_label_maker::render::SerializableRgbaImage;
use scp_label_maker::utils::LabelError;

/// A font of 316 bytes: every printable ASCII character is drawn as one
/// upright rectangle, 500 by 700 units on an em of 1000.
fn font_bytes() -> Vec<u8> {
    vec![
        0, 1, 0, 0, 0, 7, 0, 64, 0, 2, 0, 48, 99, 109, 97, 112,
        0, 0, 0, 0, 0, 0, 0, 124, 0, 0, 0, 40, 103, 108, 121, 102,
        0, 0, 0, 0, 0, 0, 0, 164, 0, 0, 0, 34, 104, 101, 97, 100,
        0, 0, 0, 0, 0, 0, 0, 200, 0, 0, 0, 54, 104, 104, 101, 97,
        0, 0, 0, 0, 0, 0, 1, 0, 0, 0, 0, 36, 104, 109, 116, 120,
        0, 0, 0, 0, 0, 0, 1, 36, 0, 0, 0, 8, 108, 111, 99, 97,
        0, 0, 0, 0, 0, 0, 1, 44, 0, 0, 0, 6, 109, 97, 120, 112,
        0, 0, 0, 0, 0, 0, 1, 52, 0, 0, 0, 6, 0, 0, 0, 1,
        0, 0, 0, 4, 0, 0, 0, 12, 0, 13, 0, 0, 0, 0, 0, 28,
        0, 0, 0, 0, 0, 0, 0, 1, 0, 0, 0, 32, 0, 0, 0, 126,
        0, 0, 0, 1, 0, 1, 0, 100, 0, 0, 2, 88, 2, 188, 0, 3,
        0, 0, 1, 1, 1, 1, 0, 100, 0, 0, 1, 244, 0, 0, 0, 0,
        2, 188, 0, 0, 253, 68, 0, 0, 0, 1, 0, 0, 0, 1, 0, 0,
        0, 0, 0, 0, 95, 15, 60, 245, 0, 0, 3, 232, 0, 0, 0, 0,
        0, 0, 0, 0, 0, 0, 0, 0, 0, 0, 0, 0, 0, 0, 0, 0,
        2, 88, 2, 188, 0, 0, 0, 8, 0, 2, 0, 0, 0, 0, 0, 0,
        0, 1, 0, 0, 3, 32, 255, 56, 0, 0, 2, 188, 0, 0, 0, 0,
        2, 88, 0, 1, 0, 0, 0, 0, 0, 0, 0, 0, 0, 0, 0, 0,
        0, 0, 0, 2, 2, 188, 0, 0, 2, 188, 0, 100, 0, 0, 0, 0,
        0, 17, 0, 0, 0, 0, 80, 0, 0, 2, 0, 0,
    ]
}

fn region(alignment: Alignment) -> TextRegion {
    TextRegion { x: 100, y: 200, max_width: 200, alignment }
}

fn white_canvas() -> SerializableRgbaImage {
    SerializableRgbaImage::from_pixel(512, 512, SerializableColor::white())
}

fn count_changed(a: &SerializableRgbaImage, b: &SerializableRgbaImage) -> usize {
    let mut changed = 0;
    for i in 0..a.pixels.len() / 4 {
        if a.pixels[i * 4..i * 4 + 4] != b.pixels[i * 4..i * 4 + 4] {
            changed += 1;
        }
    }
    changed
}

#[test]
fn text_without_a_break_is_one_line() {
    assert_eq!(split_text("SAFE"), vec!["SAFE"]);
    assert_eq!(split_text(""), vec![""]);
    assert_eq!(split_text("a b"), vec!["a b"]);
}

#[test]
fn typed_break_marker_splits_lines() {
    assert_eq!(split_text("A\\nB"), vec!["A", "B"]);
    assert_eq!(split_text("EUCLID\\nKETER\\nSAFE"), vec!["EUCLID", "KETER", "SAFE"]);
    assert_eq!(split_text("\\n"), vec!["", ""]);
    assert_eq!(split_text("\\\\n"), vec!["\\", ""]);
    assert_eq!(split_text("a\\"), vec!["a\\"]);
    assert_eq!(split_text("a\\x"), vec!["a\\x"]);
    assert_eq!(split_text("é\\nü"), vec!["é", "ü"]);
}

#[test]
fn line_feed_splits_lines_too() {
    assert_eq!(split_text("A\nB"), vec!["A", "B"]);
    assert_eq!(split_text("A\n\\nB"), vec!["A", "", "B"]);
}

#[test]
fn trailing_break_gives_an_empty_last_line() {
    assert_eq!(split_text("A\\n"), vec!["A", ""]);
}

#[test]
fn splitting_agrees_with_replace_and_split() {
    for text in ["", "A", "A\\nB", "\\n\\n", "x\\\\ny", "a\nb\\nc", "end\\", "\\nstart", "n\\n\\"] {
        let replaced = text.replace("\\n", "\n");
        let expected: Vec<&str> = replaced.split('\n').collect();
        assert_eq!(split_text(text), expected);
    }
}

#[test]
fn blank_lines_are_those_of_white_space_only() {
    assert!(line_is_blank(""));
    assert!(line_is_blank("   "));
    assert!(line_is_blank(" \t\u{a0}\u{3000}"));
    assert!(!line_is_blank(" a "));
    assert!(!line_is_blank("\u{200b}"));
    for code in 0..0x3100u32 {
        if let Some(c) = char::from_u32(code) {
            assert_eq!(char_is_whitespace(c), c.is_whitespace());
        }
    }
}

#[test]
fn blank_lines_count_only_in_a_text_of_one_line() {
    assert_eq!(count_retained(&vec!["A"]), 1);
    assert_eq!(count_retained(&vec![" "]), 1);
    assert_eq!(count_retained(&vec![""]), 1);
    assert_eq!(count_retained(&vec!["A", ""]), 1);
    assert_eq!(count_retained(&vec!["", ""]), 0);
    assert_eq!(count_retained(&vec!["A", " ", "B"]), 2);
}

#[test]
fn one_line_is_centred_on_the_anchor_height() {
    let placed = layout_lines(&vec!["A"], &vec![30], 48, CommonLayout::scp_number(), (2, -7), 120);
    assert_eq!(placed, vec![PlacedLine { line: 0, x: 115, y: 134 }]);
}

#[test]
fn lines_are_stacked_a_line_height_apart() {
    let placed = layout_lines(
        &vec!["A", "B"],
        &vec![30, 30],
        48,
        CommonLayout::scp_number(),
        (2, -7),
        120,
    );
    assert_eq!(
        placed,
        vec![PlacedLine { line: 0, x: 115, y: 106 }, PlacedLine { line: 1, x: 115, y: 163 }]
    );
    let three = layout_lines(&vec!["A", "B", "C"], &vec![1, 1, 1], 10, region(Alignment::Left), (0, 0), 150);
    assert_eq!(
        three,
        vec![
            PlacedLine { line: 0, x: 100, y: 180 },
            PlacedLine { line: 1, x: 100, y: 195 },
            PlacedLine { line: 2, x: 100, y: 210 },
        ]
    );
}

#[test]
fn line_height_is_truncated() {
    let placed = layout_lines(&vec!["A", "B"], &vec![0, 0], 49, region(Alignment::Left), (0, 0), 120);
    assert_eq!(placed[0].y, 200 - (58 + 49) / 2);
    assert_eq!(placed[1].y, placed[0].y + 58);
}

#[test]
fn alignment_sets_the_start_of_a_line() {
    let widths = vec![31];
    let lines = vec!["A"];
    assert_eq!(layout_lines(&lines, &widths, 10, region(Alignment::Left), (0, 0), 100)[0].x, 100);
    assert_eq!(layout_lines(&lines, &widths, 10, region(Alignment::CenterLeft), (0, 0), 100)[0].x, 100);
    assert_eq!(layout_lines(&lines, &widths, 10, region(Alignment::Center), (0, 0), 100)[0].x, 185);
    assert_eq!(layout_lines(&lines, &widths, 10, region(Alignment::Right), (0, 0), 100)[0].x, 269);
    assert_eq!(layout_lines(&lines, &widths, 10, region(Alignment::Right), (-300, 5), 100)[0].x, -31);
    assert_eq!(layout_lines(&lines, &widths, 10, region(Alignment::Right), (-300, 5), 100)[0].y, 200);
}

#[test]
fn empty_second_line_takes_no_room() {
    let alone = layout_lines(&vec!["A"], &vec![30], 48, CommonLayout::scp_number(), (2, -7), 120);
    let with_blank = layout_lines(
        &vec!["A", ""],
        &vec![30, 0],
        48,
        CommonLayout::scp_number(),
        (2, -7),
        120,
    );
    assert_eq!(with_blank, alone);
    assert_eq!(with_blank, vec![PlacedLine { line: 0, x: 115, y: 134 }]);
}

#[test]
fn blank_line_between_two_lines_takes_no_room() {
    let placed = layout_lines(
        &vec!["A", "  ", "B"],
        &vec![30, 99, 30],
        48,
        CommonLayout::scp_number(),
        (2, -7),
        120,
    );
    assert_eq!(
        placed,
        vec![PlacedLine { line: 0, x: 115, y: 106 }, PlacedLine { line: 2, x: 115, y: 163 }]
    );
}

#[test]
fn single_blank_line_is_still_placed() {
    let placed = layout_lines(&vec![" "], &vec![5], 48, CommonLayout::scp_number(), (0, 0), 120);
    assert_eq!(placed, vec![PlacedLine { line: 0, x: 113, y: 141 }]);
    let none = layout_lines(&vec![" ", ""], &vec![5, 0], 48, CommonLayout::scp_number(), (0, 0), 120);
    assert_eq!(none, vec![]);
}

#[test]
fn places_far_off_are_held_at_the_ends_of_the_range() {
    let far = TextRegion { x: 4294967295, y: 4294967295, max_width: 4294967295, alignment: Alignment::Right };
    let placed = layout_lines(&vec!["A"], &vec![0], 0, far, (2147483647, 2147483647), 100);
    assert_eq!(placed, vec![PlacedLine { line: 0, x: 2147483647, y: 2147483647 }]);
    let low = TextRegion { x: 0, y: 0, max_width: 0, alignment: Alignment::Right };
    let placed = layout_lines(
        &vec!["A", "B"],
        &vec![4294967295, 0],
        4294967295,
        low,
        (-2147483648, -2147483648),
        4294967295,
    );
    assert_eq!(placed[0].x, -2147483648);
    assert_eq!(placed[0].y, -2147483648);
    assert_eq!(placed[1].y, 2147483647);
}

#[test]
fn outline_is_drawn_at_24_offsets() {
    let offsets = stroke_offsets();
    assert_eq!(offsets.len(), 24);
    assert_eq!(offsets[0], (-2, -2));
    assert_eq!(offsets[11], (0, -1));
    assert_eq!(offsets[12], (0, 1));
    assert_eq!(offsets[23], (2, 2));
    let mut expected = Vec::new();
    for dx in -2..=2 {
        for dy in -2..=2 {
            if dx != 0 || dy != 0 {
                expected.push((dx, dy));
            }
        }
    }
    assert_eq!(offsets, expected);
}

#[test]
fn font_data_that_is_no_font_is_refused() {
    match TextRenderer::from_font_data(vec![1, 2, 3]) {
        Err(LabelError::TextRendering(detail)) => assert_eq!(detail, "Failed to load font"),
        _ => panic!("the data was accepted"),
    }
    assert!(TextRenderer::new(Vec::new()).is_err());
    assert!(SerializableTextRenderer::new(vec![0; 64]).to_text_renderer().is_err());
}

#[test]
fn font_data_of_a_font_is_accepted() {
    assert!(TextRenderer::from_font_data(font_bytes()).is_ok());
    assert!(TextRenderer::new(font_bytes()).is_ok());
    assert!(SerializableTextRenderer::new(font_bytes()).to_text_renderer().is_ok());
}

#[test]
fn empty_text_changes_no_pixel() {
    let renderer = TextRenderer::new(font_bytes()).unwrap();
    let before = white_canvas();
    let mut canvas = before.clone();
    renderer.render_text(&mut canvas, "", CommonLayout::scp_number(), SerializableColor::black(), 60, (2, -7), 120);
    assert_eq!(canvas.pixels, before.pixels);
    renderer.render_text_with_stroke(
        &mut canvas,
        "",
        CommonLayout::scp_number(),
        SerializableColor::black(),
        SerializableColor::white(),
        60,
        (2, -7),
    );
    assert_eq!(canvas.pixels, before.pixels);
    assert_eq!((canvas.width, canvas.height), (512, 512));
}

#[test]
fn text_of_blank_lines_changes_no_pixel() {
    let renderer = TextRenderer::new(font_bytes()).unwrap();
    let before = white_canvas();
    let mut canvas = before.clone();
    renderer.render_text(&mut canvas, " \\n\\n  ", CommonLayout::scp_number(), SerializableColor::black(), 60, (0, 0), 120);
    assert_eq!(canvas.pixels, before.pixels);
}

#[test]
fn text_is_drawn_in_its_colour_inside_the_canvas() {
    let renderer = TextRenderer::new(font_bytes()).unwrap();
    let before = white_canvas();
    let mut canvas = before.clone();
    renderer.render_text(&mut canvas, "A", region(Alignment::Left), SerializableColor::black(), 60, (0, 0), 120);
    assert_eq!((canvas.width, canvas.height), (512, 512));
    assert_eq!(canvas.pixels.len(), before.pixels.len());
    assert!(count_changed(&canvas, &before) > 500);
    let ink = canvas.get_pixel_checked(120, 200).unwrap();
    assert_eq!(ink, SerializableColor::black());
    assert_eq!(canvas.get_pixel_checked(90, 200).unwrap(), SerializableColor::white());
    assert_eq!(canvas.get_pixel_checked(120, 100).unwrap(), SerializableColor::white());
    assert_eq!(canvas.get_pixel_checked(120, 300).unwrap(), SerializableColor::white());
}

#[test]
fn text_off_the_canvas_is_clipped() {
    let renderer = TextRenderer::new(font_bytes()).unwrap();
    let before = SerializableRgbaImage::from_pixel(20, 20, SerializableColor::white());
    let mut canvas = before.clone();
    renderer.render_text(&mut canvas, "AAAA", region(Alignment::Right), SerializableColor::black(), 72, (0, 0), 120);
    assert_eq!(canvas.pixels, before.pixels);
    let mut small = before.clone();
    let corner = TextRegion { x: 0, y: 0, max_width: 10, alignment: Alignment::Left };
    renderer.render_text(&mut small, "A", corner, SerializableColor::black(), 72, (-5, 0), 120);
    assert_eq!((small.width, small.height), (20, 20));
    assert_eq!(small.pixels.len(), 1600);
    assert!(count_changed(&small, &before) > 0);
}

#[test]
fn empty_second_line_is_rendered_like_the_first_line_alone() {
    let renderer = TextRenderer::new(font_bytes()).unwrap();
    let mut alone = white_canvas();
    renderer.render_text(&mut alone, "A", region(Alignment::Center), SerializableColor::black(), 60, (2, -7), 120);
    let mut with_blank = white_canvas();
    renderer.render_text(&mut with_blank, "A\\n", region(Alignment::Center), SerializableColor::black(), 60, (2, -7), 120);
    assert_eq!(with_blank.pixels, alone.pixels);
    assert!(count_changed(&alone, &white_canvas()) > 0);
}

#[test]
fn two_lines_are_drawn_one_below_the_other() {
    let renderer = TextRenderer::new(font_bytes()).unwrap();
    let mut one = white_canvas();
    renderer.render_text(&mut one, "A", region(Alignment::Left), SerializableColor::black(), 60, (0, 0), 120);
    let mut two = white_canvas();
    renderer.render_text(&mut two, "A\\nA", region(Alignment::Left), SerializableColor::black(), 60, (0, 0), 120);
    let single = count_changed(&one, &white_canvas());
    assert_eq!(count_changed(&two, &white_canvas()), 2 * single);
}

#[test]
fn outline_is_drawn_beneath_the_text() {
    let renderer = TextRenderer::new(font_bytes()).unwrap();
    let before = white_canvas();
    let mut plain = before.clone();
    renderer.render_text(&mut plain, "A", region(Alignment::Left), SerializableColor::black(), 60, (0, 0), 120);
    let mut outlined = before.clone();
    let red = SerializableColor { r: 255, g: 0, b: 0, a: 255 };
    renderer.render_text_with_stroke(&mut outlined, "A", region(Alignment::Left), SerializableColor::black(), red, 60, (0, 0));
    assert!(count_changed(&outlined, &before) > count_changed(&plain, &before));
    assert!(outlined.pixels.chunks(4).any(|p| p == [255, 0, 0, 255]));
    assert!(outlined.pixels.chunks(4).any(|p| p == [0, 0, 0, 255]));
}

/// The same font without its table of horizontal metrics: the parser
/// accepts it, and no character can be set in it.
fn font_without_metrics() -> Vec<u8> {
    vec![
        0, 1, 0, 0, 0, 6, 0, 64, 0, 2, 0, 32, 99, 109, 97, 112,
        0, 0, 0, 0, 0, 0, 0, 108, 0, 0, 0, 40, 103, 108, 121, 102,
        0, 0, 0, 0, 0, 0, 0, 148, 0, 0, 0, 34, 104, 101, 97, 100,
        0, 0, 0, 0, 0, 0, 0, 184, 0, 0, 0, 54, 104, 104, 101, 97,
        0, 0, 0, 0, 0, 0, 0, 240, 0, 0, 0, 36, 108, 111, 99, 97,
        0, 0, 0, 0, 0, 0, 1, 20, 0, 0, 0, 6, 109, 97, 120, 112,
        0, 0, 0, 0, 0, 0, 1, 28, 0, 0, 0, 6, 0, 0, 0, 1,
        0, 0, 0, 4, 0, 0, 0, 12, 0, 13, 0, 0, 0, 0, 0, 28,
        0, 0, 0, 0, 0, 0, 0, 1, 0, 0, 0, 32, 0, 0, 0, 126,
        0, 0, 0, 1, 0, 1, 0, 100, 0, 0, 2, 88, 2, 188, 0, 3,
        0, 0, 1, 1, 1, 1, 0, 100, 0, 0, 1, 244, 0, 0, 0, 0,
        2, 188, 0, 0, 253, 68, 0, 0, 0, 1, 0, 0, 0, 1, 0, 0,
        0, 0, 0, 0, 95, 15, 60, 245, 0, 0, 3, 232, 0, 0, 0, 0,
        0, 0, 0, 0, 0, 0, 0, 0, 0, 0, 0, 0, 0, 0, 0, 0,
        2, 88, 2, 188, 0, 0, 0, 8, 0, 2, 0, 0, 0, 0, 0, 0,
        0, 1, 0, 0, 3, 32, 255, 56, 0, 0, 2, 188, 0, 0, 0, 0,
        2, 88, 0, 1, 0, 0, 0, 0, 0, 0, 0, 0, 0, 0, 0, 0,
        0, 0, 0, 2, 0, 0, 0, 0, 0, 17, 0, 0, 0, 0, 80, 0,
        0, 2, 0, 0,
    ]
}

/// The same font with a character map that names a glyph the font does
/// not hold.
fn font_with_stray_glyph() -> Vec<u8> {
    vec![
        0, 1, 0, 0, 0, 7, 0, 64, 0, 2, 0, 48, 99, 109, 97, 112,
        0, 0, 0, 0, 0, 0, 0, 124, 0, 0, 0, 40, 103, 108, 121, 102,
        0, 0, 0, 0, 0, 0, 0, 164, 0, 0, 0, 34, 104, 101, 97, 100,
        0, 0, 0, 0, 0, 0, 0, 200, 0, 0, 0, 54, 104, 104, 101, 97,
        0, 0, 0, 0, 0, 0, 1, 0, 0, 0, 0, 36, 104, 109, 116, 120,
        0, 0, 0, 0, 0, 0, 1, 36, 0, 0, 0, 8, 108, 111, 99, 97,
        0, 0, 0, 0, 0, 0, 1, 44, 0, 0, 0, 6, 109, 97, 120, 112,
        0, 0, 0, 0, 0, 0, 1, 52, 0, 0, 0, 6, 0, 0, 0, 1,
        0, 0, 0, 4, 0, 0, 0, 12, 0, 13, 0, 0, 0, 0, 0, 28,
        0, 0, 0, 0, 0, 0, 0, 1, 0, 0, 0, 32, 0, 0, 0, 126,
        0, 0, 0, 5, 0, 1, 0, 100, 0, 0, 2, 88, 2, 188, 0, 3,
        0, 0, 1, 1, 1, 1, 0, 100, 0, 0, 1, 244, 0, 0, 0, 0,
        2, 188, 0, 0, 253, 68, 0, 0, 0, 1, 0, 0, 0, 1, 0, 0,
        0, 0, 0, 0, 95, 15, 60, 245, 0, 0, 3, 232, 0, 0, 0, 0,
        0, 0, 0, 0, 0, 0, 0, 0, 0, 0, 0, 0, 0, 0, 0, 0,
        2, 88, 2, 188, 0, 0, 0, 8, 0, 2, 0, 0, 0, 0, 0, 0,
        0, 1, 0, 0, 3, 32, 255, 56, 0, 0, 2, 188, 0, 0, 0, 0,
        2, 88, 0, 1, 0, 0, 0, 0, 0, 0, 0, 0, 0, 0, 0, 0,
        0, 0, 0, 2, 2, 188, 0, 0, 2, 188, 0, 100, 0, 0, 0, 0,
        0, 17, 0, 0, 0, 0, 80, 0, 0, 2, 0, 0,
    ]
}

#[test]
fn text_can_be_set_in_a_font_with_metrics() {
    let renderer = TextRenderer::new(font_bytes()).unwrap();
    assert!(renderer.can_set(60, "SAFE"));
    assert!(renderer.can_set(60, ""));
    assert!(renderer.can_set(72, "A\\nB"));
    assert!(renderer.can_set(24, "\u{e9}"));
    assert!(renderer.reaches(60, 4));
}

#[test]
fn text_cannot_be_set_beyond_reach() {
    let renderer = TextRenderer::new(font_bytes()).unwrap();
    assert!(!renderer.can_set(0, "A"));
    assert!(renderer.can_set(250, "A"));
    assert!(!renderer.can_set(251, "A"));
    assert!(renderer.reaches(72, 75850));
    assert!(!renderer.reaches(72, 75851));
    let long = "A".repeat(80000);
    assert!(!renderer.can_set(72, &long));
    assert!(renderer.can_set(24, &long));
    assert!(!renderer.reaches(1, usize::MAX));
}

#[test]
fn font_without_metrics_sets_no_text() {
    let renderer = TextRenderer::new(font_without_metrics()).unwrap();
    assert!(renderer.can_set(60, ""));
    assert!(!renderer.can_set(60, "A"));
    let before = white_canvas();
    let mut canvas = before.clone();
    renderer.render_text(&mut canvas, "SAFE", region(Alignment::Left), SerializableColor::black(), 60, (0, 0), 120);
    assert_eq!(canvas.pixels, before.pixels);
    renderer.render_text_with_stroke(
        &mut canvas,
        "SAFE",
        region(Alignment::Left),
        SerializableColor::black(),
        SerializableColor::white(),
        60,
        (0, 0),
    );
    assert_eq!(canvas.pixels, before.pixels);
}

#[test]
fn font_with_a_stray_glyph_sets_only_what_it_holds() {
    let renderer = TextRenderer::new(font_with_stray_glyph()).unwrap();
    assert!(!renderer.can_set(60, "A"));
    assert!(renderer.can_set(60, "\u{e9}"));
    let before = white_canvas();
    let mut canvas = before.clone();
    renderer.render_text(&mut canvas, "A", region(Alignment::Left), SerializableColor::black(), 60, (0, 0), 120);
    assert_eq!(canvas.pixels, before.pixels);
}

#[test]
fn text_too_large_for_the_font_is_not_drawn() {
    let renderer = TextRenderer::new(font_bytes()).unwrap();
    let before = white_canvas();
    let mut canvas = before.clone();
    renderer.render_text(&mut canvas, "A", region(Alignment::Left), SerializableColor::black(), 251, (0, 0), 120);
    assert_eq!(canvas.pixels, before.pixels);
    renderer.render_text(&mut canvas, "A", region(Alignment::Left), SerializableColor::black(), 250, (0, 0), 120);
    assert!(count_changed(&canvas, &before) > 0);
}

/// The same font with its glyph drawn below the baseline, one corner at
/// the least height a font can name.
fn font_with_low_point() -> Vec<u8> {
    vec![
        0, 1, 0, 0, 0, 7, 0, 64, 0, 2, 0, 48, 99, 109, 97, 112,
        0, 0, 0, 0, 0, 0, 0, 124, 0, 0, 0, 40, 103, 108, 121, 102,
        0, 0, 0, 0, 0, 0, 0, 164, 0, 0, 0, 34, 104, 101, 97, 100,
        0, 0, 0, 0, 0, 0, 0, 200, 0, 0, 0, 54, 104, 104, 101, 97,
        0, 0, 0, 0, 0, 0, 1, 0, 0, 0, 0, 36, 104, 109, 116, 120,
        0, 0, 0, 0, 0, 0, 1, 36, 0, 0, 0, 8, 108, 111, 99, 97,
        0, 0, 0, 0, 0, 0, 1, 44, 0, 0, 0, 6, 109, 97, 120, 112,
        0, 0, 0, 0, 0, 0, 1, 52, 0, 0, 0, 6, 0, 0, 0, 1,
        0, 0, 0, 4, 0, 0, 0, 12, 0, 13, 0, 0, 0, 0, 0, 28,
        0, 0, 0, 0, 0, 0, 0, 1, 0, 0, 0, 32, 0, 0, 0, 126,
        0, 0, 0, 1, 0, 1, 0, 100, 128, 0, 2, 88, 255, 255, 0, 3,
        0, 0, 1, 1, 1, 1, 0, 100, 0, 0, 1, 244, 0, 0, 128, 0,
        127, 255, 0, 0, 128, 1, 0, 0, 0, 1, 0, 0, 0, 1, 0, 0,
        0, 0, 0, 0, 95, 15, 60, 245, 0, 0, 3, 232, 0, 0, 0, 0,
        0, 0, 0, 0, 0, 0, 0, 0, 0, 0, 0, 0, 0, 0, 0, 0,
        2, 88, 2, 188, 0, 0, 0, 8, 0, 2, 0, 0, 0, 0, 0, 0,
        0, 1, 0, 0, 3, 32, 255, 56, 0, 0, 2, 188, 0, 0, 0, 0,
        2, 88, 0, 1, 0, 0, 0, 0, 0, 0, 0, 0, 0, 0, 0, 0,
        0, 0, 0, 2, 2, 188, 0, 0, 2, 188, 0, 100, 0, 0, 0, 0,
        0, 17, 0, 0, 0, 0, 80, 0, 0, 2, 0, 0,
    ]
}

/// The same font with a character map that names a glyph the font does
/// not hold for the backslash and for the letter n, and no other.
fn font_without_break_characters() -> Vec<u8> {
    vec![
        0, 1, 0, 0, 0, 7, 0, 64, 0, 2, 0, 48, 99, 109, 97, 112,
        0, 0, 0, 0, 0, 0, 0, 124, 0, 0, 0, 88, 103, 108, 121, 102,
        0, 0, 0, 0, 0, 0, 0, 212, 0, 0, 0, 34, 104, 101, 97, 100,
        0, 0, 0, 0, 0, 0, 0, 248, 0, 0, 0, 54, 104, 104, 101, 97,
        0, 0, 0, 0, 0, 0, 1, 48, 0, 0, 0, 36, 104, 109, 116, 120,
        0, 0, 0, 0, 0, 0, 1, 84, 0, 0, 0, 8, 108, 111, 99, 97,
        0, 0, 0, 0, 0, 0, 1, 92, 0, 0, 0, 6, 109, 97, 120, 112,
        0, 0, 0, 0, 0, 0, 1, 100, 0, 0, 0, 6, 0, 0, 0, 1,
        0, 0, 0, 4, 0, 0, 0, 12, 0, 13, 0, 0, 0, 0, 0, 76,
        0, 0, 0, 0, 0, 0, 0, 5, 0, 0, 0, 32, 0, 0, 0, 91,
        0, 0, 0, 1, 0, 0, 0, 92, 0, 0, 0, 92, 0, 0, 0, 5,
        0, 0, 0, 93, 0, 0, 0, 109, 0, 0, 0, 1, 0, 0, 0, 110,
        0, 0, 0, 110, 0, 0, 0, 5, 0, 0, 0, 111, 0, 0, 0, 126,
        0, 0, 0, 1, 0, 1, 0, 100, 0, 0, 2, 88, 2, 188, 0, 3,
        0, 0, 1, 1, 1, 1, 0, 100, 0, 0, 1, 244, 0, 0, 0, 0,
        2, 188, 0, 0, 253, 68, 0, 0, 0, 1, 0, 0, 0, 1, 0, 0,
        0, 0, 0, 0, 95, 15, 60, 245, 0, 0, 3, 232, 0, 0, 0, 0,
        0, 0, 0, 0, 0, 0, 0, 0, 0, 0, 0, 0, 0, 0, 0, 0,
        2, 88, 2, 188, 0, 0, 0, 8, 0, 2, 0, 0, 0, 0, 0, 0,
        0, 1, 0, 0, 3, 32, 255, 56, 0, 0, 2, 188, 0, 0, 0, 0,
        2, 88, 0, 1, 0, 0, 0, 0, 0, 0, 0, 0, 0, 0, 0, 0,
        0, 0, 0, 2, 2, 188, 0, 0, 2, 188, 0, 100, 0, 0, 0, 0,
        0, 17, 0, 0, 0, 0, 80, 0, 0, 2, 0, 0,
    ]
}

#[test]
fn glyph_at_the_least_height_is_not_set() {
    let renderer = TextRenderer::new(font_with_low_point()).unwrap();
    assert!(!renderer.can_set(60, "A"));
    assert!(renderer.can_set(60, "\u{e9}"));
    let before = white_canvas();
    let mut canvas = before.clone();
    renderer.render_text(&mut canvas, "A", region(Alignment::Left), SerializableColor::black(), 60, (0, 0), 120);
    assert_eq!(canvas.pixels, before.pixels);
}

#[test]
fn break_marker_is_not_asked_of_the_font() {
    let renderer = TextRenderer::new(font_without_break_characters()).unwrap();
    assert!(renderer.can_set(60, "A"));
    assert!(!renderer.can_set(60, "\\"));
    assert!(!renderer.can_set(60, "n"));
    assert!(!renderer.can_set(60, "A\\nB"));
    let good = TextRenderer::new(font_bytes()).unwrap();
    for text in ["A\\n", "A\\nB", "\\nA"] {
        let mut expected = white_canvas();
        good.render_text(&mut expected, text, region(Alignment::Center), SerializableColor::black(), 60, (2, -7), 120);
        let mut canvas = white_canvas();
        renderer.render_text(&mut canvas, text, region(Alignment::Center), SerializableColor::black(), 60, (2, -7), 120);
        assert_eq!(canvas.pixels, expected.pixels);
        assert!(count_changed(&canvas, &white_canvas()) > 0);
    }
    let mut alone = white_canvas();
    renderer.render_text(&mut alone, "A", region(Alignment::Center), SerializableColor::black(), 60, (2, -7), 120);
    let mut with_break = white_canvas();
    renderer.render_text(&mut with_break, "A\\n", region(Alignment::Center), SerializableColor::black(), 60, (2, -7), 120);
    assert_eq!(with_break.pixels, alone.pixels);
}

#[test]
fn line_with_an_unusable_character_stops_the_whole_text() {
    let renderer = TextRenderer::new(font_without_break_characters()).unwrap();
    let before = white_canvas();
    for text in ["n", "A\\x", "A\\nBn", "Bn\\nA"] {
        let mut canvas = before.clone();
        renderer.render_text(&mut canvas, text, region(Alignment::Left), SerializableColor::black(), 60, (0, 0), 120);
        assert_eq!(canvas.pixels, before.pixels);
    }
    let mut canvas = before.clone();
    renderer.render_text(&mut canvas, "A\\n \\nB", region(Alignment::Left), SerializableColor::black(), 60, (0, 0), 120);
    assert!(count_changed(&canvas, &before) > 0);
}

#[test]
fn pixels_beyond_a_line_stay() {
    let renderer = TextRenderer::new(font_bytes()).unwrap();
    let before = white_canvas();
    let mut canvas = before.clone();
    renderer.render_text(&mut canvas, "AA", region(Alignment::Left), SerializableColor::black(), 60, (0, 0), 120);
    let mut right = 0;
    let mut bottom = 0;
    for y in 0..512u32 {
        for x in 0..512u32 {
            if canvas.get_pixel_checked(x, y) != before.get_pixel_checked(x, y) {
                right = right.max(x);
                bottom = bottom.max(y);
            }
        }
    }
    assert_eq!(right, 100 + 78 - 1);
    assert_eq!(bottom, 200 - 24 + 48 - 1);
}
