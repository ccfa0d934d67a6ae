use scp_label_maker::models::label_config::SerializableColor;
use scp_label_maker::render::animation::{
    clamp_frame_delay, export_delay, frame_delay_ms, next_frame, tick_interval,
};
use scp_label_maker::utils::parse::{
    failure_message, format_hex_color, parse_hex_color, parse_non_empty_string, parse_u8_range,
    ParseFailure,
};

#[test]
fn colours_are_read_from_six_hex_digits() {
    assert_eq!(parse_hex_color("#000000"), Some(SerializableColor { r: 0, g: 0, b: 0, a: 255 }));
    assert_eq!(parse_hex_color("#ff8000"), Some(SerializableColor { r: 255, g: 128, b: 0, a: 255 }));
    assert_eq!(parse_hex_color("1A2b3C"), Some(SerializableColor { r: 26, g: 43, b: 60, a: 255 }));
    assert_eq!(parse_hex_color("##ffffff"), Some(SerializableColor { r: 255, g: 255, b: 255, a: 255 }));
    assert_eq!(parse_hex_color("+f+0+a"), Some(SerializableColor { r: 15, g: 0, b: 10, a: 255 }));
}

#[test]
fn texts_that_spell_no_colour_are_turned_down() {
    for text in ["", "#", "#fff", "#fffffff", "#gggggg", "#12345", "ff ff ff", "#-10000", "#ff#fff", "#f+0000", "#ééé", "#++0000"] {
        assert_eq!(parse_hex_color(text), None);
    }
}

#[test]
fn colours_are_written_as_they_are_read() {
    assert_eq!(format_hex_color(SerializableColor { r: 0, g: 0, b: 0, a: 255 }), "#000000");
    assert_eq!(format_hex_color(SerializableColor { r: 255, g: 128, b: 10, a: 7 }), "#ff800a");
    for value in 0..=255u8 {
        let color = SerializableColor { r: value, g: 255 - value, b: value / 2, a: 0 };
        assert_eq!(format_hex_color(color), format!("#{:02x}{:02x}{:02x}", color.r, color.g, color.b));
        assert_eq!(
            parse_hex_color(&format_hex_color(color)),
            Some(SerializableColor { r: color.r, g: color.g, b: color.b, a: 255 })
        );
    }
}

#[test]
fn bytes_are_read_within_their_range() {
    assert_eq!(parse_u8_range("95", 0, 100), Ok(95));
    assert_eq!(parse_u8_range("0", 0, 100), Ok(0));
    assert_eq!(parse_u8_range("100", 0, 100), Ok(100));
    assert_eq!(parse_u8_range("+7", 0, 100), Ok(7));
    assert_eq!(parse_u8_range("007", 0, 100), Ok(7));
    assert_eq!(parse_u8_range("255", 0, 255), Ok(255));
    assert_eq!(parse_u8_range("000000000000000000000255", 0, 255), Ok(255));
}

#[test]
fn bytes_outside_their_range_are_turned_down() {
    assert_eq!(parse_u8_range("101", 0, 100), Err(ParseFailure::OutOfRange));
    assert_eq!(parse_u8_range("4", 5, 100), Err(ParseFailure::OutOfRange));
    assert_eq!(parse_u8_range("50", 60, 40), Err(ParseFailure::OutOfRange));
    assert_eq!(failure_message(ParseFailure::OutOfRange, 0, 100), "value not in range 0-100");
    assert_eq!(failure_message(ParseFailure::OutOfRange, 5, 255), "value not in range 5-255");
}

#[test]
fn texts_that_spell_no_byte_are_turned_down() {
    assert_eq!(parse_u8_range("", 0, 100), Err(ParseFailure::Empty));
    for text in ["+", "-", "-1", "256", "1000", "99999999999999999999", "1 ", " 1", "1.0", "abc", "1+", "++1", "٣"] {
        assert_eq!(parse_u8_range(text, 0, 255), Err(ParseFailure::NotANumber));
        assert!(text.parse::<u8>().is_err());
    }
    for value in 0..=255u8 {
        assert_eq!(parse_u8_range(&value.to_string(), 0, 255), Ok(value));
    }
    assert_eq!(failure_message(ParseFailure::Empty, 0, 1), "value cannot be empty");
    assert_eq!(failure_message(ParseFailure::NotANumber, 0, 1), "value is not a number");
}

#[test]
fn empty_texts_are_turned_down() {
    assert_eq!(parse_non_empty_string(""), Err(ParseFailure::Empty));
    assert_eq!(parse_non_empty_string("173"), Ok(String::from("173")));
    assert_eq!(parse_non_empty_string(" "), Ok(String::from(" ")));
}

#[test]
fn frame_delays_are_held_in_milliseconds() {
    assert_eq!(frame_delay_ms(0), 0);
    assert_eq!(frame_delay_ms(7), 70);
    assert_eq!(frame_delay_ms(65535), 655350);
}

#[test]
fn frame_delays_are_exported_in_hundredths() {
    let delays = vec![70, 5, 0, 655350, 4000000000];
    assert_eq!(export_delay(&delays, 0), 7);
    assert_eq!(export_delay(&delays, 1), 1);
    assert_eq!(export_delay(&delays, 2), 1);
    assert_eq!(export_delay(&delays, 3), 65535);
    assert_eq!(export_delay(&delays, 4), 65535);
    assert_eq!(export_delay(&delays, 5), 10);
    assert_eq!(export_delay(&Vec::new(), 0), 10);
}

#[test]
fn typed_frame_delays_are_brought_into_range() {
    assert_eq!(clamp_frame_delay(0), 10);
    assert_eq!(clamp_frame_delay(10), 10);
    assert_eq!(clamp_frame_delay(250), 250);
    assert_eq!(clamp_frame_delay(5000), 5000);
    assert_eq!(clamp_frame_delay(5001), 5000);
}

#[test]
fn frames_follow_each_other_in_a_ring() {
    assert_eq!(next_frame(0, 3), 1);
    assert_eq!(next_frame(1, 3), 2);
    assert_eq!(next_frame(2, 3), 0);
    assert_eq!(next_frame(0, 1), 0);
    assert_eq!(next_frame(7, 3), 2);
    assert_eq!(next_frame(usize::MAX, 2), 0);
}

#[test]
fn ticks_wait_for_the_frames_delay() {
    let delays = vec![70, 5, 200];
    assert_eq!(tick_interval(&delays, 0), 70);
    assert_eq!(tick_interval(&delays, 1), 10);
    assert_eq!(tick_interval(&delays, 2), 200);
    assert_eq!(tick_interval(&delays, 3), 100);
}
