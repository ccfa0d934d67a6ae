use scp_label_maker::models::label_config::{
    clamp_font_size, clamp_line_spacing, LabelConfig, OutputFormat, ResizeMethod,
    SerializableColor, MAX_FONT_SIZE, MAX_LINE_SPACING, MIN_FONT_SIZE, MIN_LINE_SPACING,
};
use scp_label_maker::models::{
    Alignment, AlternateLayout, ClassType, CommonLayout, Hazard, NormalLayout, LABEL_SIZE,
};
use scp_label_maker::utils::text::{decimal_string, zero_padded_string};
use scp_label_maker::utils::validation::{has_target_ratio, validate_user_image};
use scp_label_maker::utils::{CliExitCode, LabelError};
use scp_label_maker::render::SerializableRgbaImage;
use scp_label_maker::models::label_config::ValidationStatus;

#[test]
fn class_all_lists_every_class_in_order() {
    let all = ClassType::all();
    assert_eq!(all.len(), 8);
    assert_eq!(all[0], ClassType::Safe);
    assert_eq!(all[2], ClassType::EuclidPotentialKeter);
    assert_eq!(all[7], ClassType::Explained);
    for (index, class) in all.iter().enumerate() {
        assert_eq!(class.ordinal(), index as u64);
    }
}

#[test]
fn class_names_and_folders() {
    assert_eq!(ClassType::Safe.as_str(), "SAFE");
    assert_eq!(ClassType::EuclidPotentialKeter.as_str(), "EUCLID / POTENTIAL KETER");
    assert_eq!(ClassType::Thaumiel.as_str(), "THAUMIEL");
    assert_eq!(ClassType::EuclidPotentialKeter.folder_name(), "euclid_potential_keter");
    for class in ClassType::all() {
        if class != ClassType::EuclidPotentialKeter {
            assert_eq!(class.folder_name(), class.as_str().to_lowercase());
        }
    }
}

#[test]
fn class_paths_follow_the_folder() {
    assert_eq!(ClassType::Safe.label_path(false), "resources/materials/safe/label.jpg");
    assert_eq!(ClassType::Keter.label_path(true), "resources/materials/keter/label_2.jpg");
    assert_eq!(
        ClassType::EuclidPotentialKeter.label_path(true),
        "resources/materials/euclid_potential_keter/label_2.jpg"
    );
}

#[test]
fn class_default_is_safe() {
    assert_eq!(ClassType::default(), ClassType::Safe);
}

#[test]
fn hazard_all_lists_every_hazard_in_order() {
    let all = Hazard::all();
    assert_eq!(all.len(), 14);
    assert_eq!(all[0], Hazard::AutonomousObject);
    assert_eq!(all[10], Hazard::RadioactivityHazard);
    assert_eq!(all[13], Hazard::SentientObject);
    for (index, hazard) in all.iter().enumerate() {
        assert_eq!(hazard.ordinal(), index as u64);
    }
}

#[test]
fn hazard_names() {
    assert_eq!(Hazard::SentientViolent.display_name(), "Sentient and Violent");
    assert_eq!(Hazard::SentientViolent.file_name(), "sentient_violent");
    assert_eq!(Hazard::Cognitohazard.display_name(), "Cognitohazard");
    assert_eq!(Hazard::IndirectInjuryHazard.file_name(), "indirect_injury_hazard");
}

#[test]
fn hazard_icon_path_names_class_and_hazard() {
    assert_eq!(
        Hazard::MemeticHazard.icon_path(&ClassType::Keter),
        "resources/materials/keter/warnings/memetic_hazard.png"
    );
    assert_eq!(
        Hazard::ElectricShock.icon_path(&ClassType::EuclidPotentialKeter),
        "resources/materials/euclid_potential_keter/warnings/electric_shock.png"
    );
}

#[test]
fn layout_regions_have_their_places() {
    assert_eq!(LABEL_SIZE, 512);
    let banner = CommonLayout::banner();
    assert_eq!((banner.x, banner.y, banner.width, banner.height), (0, 0, 512, 128));
    let number = CommonLayout::scp_number();
    assert_eq!((number.x, number.y, number.max_width), (113, 165, 240));
    assert_eq!(number.alignment, Alignment::Left);
    let label = CommonLayout::object_class_label();
    assert_eq!((label.x, label.y, label.max_width), (25, 195, 240));
    let class = CommonLayout::object_class_text();
    assert_eq!((class.x, class.y, class.max_width), (304, 226, 150));
    let photo = NormalLayout::user_image();
    assert_eq!((photo.x, photo.y, photo.width, photo.height), (264, 256, 233, 240));
    let icon = NormalLayout::hazard_icon();
    assert_eq!((icon.x, icon.y, icon.width, icon.height), (15, 256, 233, 240));
    let other_icon = AlternateLayout::hazard_icon();
    assert_eq!((other_icon.x, other_icon.y, other_icon.width, other_icon.height), (137, 256, 233, 240));
    let other_number = AlternateLayout::scp_number();
    assert_eq!((other_number.x, other_number.y, other_number.max_width), (268, 167, 150));
    let other_class = AlternateLayout::object_class_text();
    assert_eq!((other_class.x, other_class.y, other_class.max_width), (347, 226, 150));
}

#[test]
fn errors_map_to_exit_codes() {
    let detail = String::from("x");
    assert_eq!(LabelError::ImageLoading(detail.clone()).to_exit_code(), CliExitCode::ImageProcessingFailure);
    assert_eq!(LabelError::ImageProcessing(detail.clone()).to_exit_code(), CliExitCode::ImageProcessingFailure);
    assert_eq!(LabelError::ImageSaving(detail.clone()).to_exit_code(), CliExitCode::ImageProcessingFailure);
    assert_eq!(LabelError::AssetLoading(detail.clone()).to_exit_code(), CliExitCode::AssetLoadFailure);
    assert_eq!(LabelError::TextRendering(detail.clone()).to_exit_code(), CliExitCode::GenericError);
    assert_eq!(LabelError::Io(detail.clone()).to_exit_code(), CliExitCode::IoError);
    assert_eq!(LabelError::NoImageSelected.to_exit_code(), CliExitCode::InvalidInput);
    assert_eq!(LabelError::ConfigLoading(detail).to_exit_code(), CliExitCode::ConfigError);
    assert_eq!(LabelError::InvalidImageFormat.to_exit_code(), CliExitCode::InvalidInput);
}

#[test]
fn exit_codes_have_their_numbers() {
    assert_eq!(CliExitCode::Success.code(), 0);
    assert_eq!(CliExitCode::GenericError.code(), 1);
    assert_eq!(CliExitCode::InvalidInput.code(), 2);
    assert_eq!(CliExitCode::AssetLoadFailure.code(), 3);
    assert_eq!(CliExitCode::ImageProcessingFailure.code(), 4);
    assert_eq!(CliExitCode::IoError.code(), 5);
    assert_eq!(CliExitCode::ConfigError.code(), 6);
}

#[test]
fn error_messages_carry_the_detail() {
    assert_eq!(LabelError::ImageLoading(String::from("no file")).message(), "Failed to load image: no file");
    assert_eq!(LabelError::ImageProcessing(String::from("p")).message(), "Failed to process image: p");
    assert_eq!(LabelError::ImageSaving(String::from("s")).message(), "Failed to save image: s");
    assert_eq!(LabelError::AssetLoading(String::from("a")).message(), "Failed to load asset: a");
    assert_eq!(LabelError::TextRendering(String::from("t")).message(), "Failed to render text: t");
    assert_eq!(LabelError::Io(String::from("i")).message(), "IO error: i");
    assert_eq!(LabelError::NoImageSelected.message(), "No image selected");
    assert_eq!(LabelError::ConfigLoading(String::from("c")).message(), "Invalid configuration: c");
    assert_eq!(LabelError::InvalidImageFormat.message(), "Invalid image format");
}

#[test]
fn numbers_are_written_in_decimal() {
    assert_eq!(decimal_string(0), "0");
    assert_eq!(decimal_string(7), "7");
    assert_eq!(decimal_string(512), "512");
    assert_eq!(decimal_string(4294967295), "4294967295");
    assert_eq!(zero_padded_string(7, 3), "007");
    assert_eq!(zero_padded_string(42, 3), "042");
    assert_eq!(zero_padded_string(999, 3), "999");
    assert_eq!(zero_padded_string(1000, 3), "1000");
    assert_eq!(zero_padded_string(0, 0), "0");
}

#[test]
fn new_configuration_has_the_starting_settings() {
    let config = LabelConfig::with_scp_number(7);
    assert_eq!(config.scp_number, "007");
    assert_eq!(config.object_class_text, "SAFE");
    assert_eq!(config.class_type, ClassType::Safe);
    assert!(!config.use_alternate_style);
    assert_eq!(config.resize_method, ResizeMethod::CropToFit);
    assert_eq!(config.selected_hazard, None);
    assert!(!config.apply_texture);
    assert_eq!(config.texture_alpha, 76);
    assert_eq!(config.output_resolution, 512);
    assert_eq!(config.output_format, OutputFormat::Png);
    assert_eq!(config.output_quality, 95);
    assert_eq!(config.scp_number_font_size, 60);
    assert_eq!(config.object_class_font_size, 60);
    assert_eq!(config.scp_text_offset, (2, -7));
    assert_eq!(config.class_text_offset, (2, -7));
    assert_eq!(config.scp_text_color, SerializableColor { r: 0, g: 0, b: 0, a: 255 });
    assert_eq!(config.class_text_color, SerializableColor::black());
    assert_eq!(config.scp_line_spacing, 120);
    assert_eq!(config.class_line_spacing, 120);
    assert!(!config.apply_burn);
    assert!(config.is_in_range());
}

#[test]
fn default_configuration_draws_a_number_from_1_to_1000() {
    for _ in 0..50 {
        let config = LabelConfig::default();
        let number: u32 = config.scp_number.parse().unwrap();
        assert!(1 <= number && number <= 1000);
        assert!(config.scp_number.len() >= 3);
        assert_eq!(config.scp_number, format!("{:03}", number));
        assert_eq!(config.object_class_text, "SAFE");
        assert!(config.is_in_range());
    }
}

#[test]
fn clamping_brings_settings_into_range() {
    assert_eq!(clamp_font_size(10), MIN_FONT_SIZE);
    assert_eq!(clamp_font_size(24), 24);
    assert_eq!(clamp_font_size(60), 60);
    assert_eq!(clamp_font_size(72), 72);
    assert_eq!(clamp_font_size(200), MAX_FONT_SIZE);
    assert_eq!(clamp_line_spacing(0), MIN_LINE_SPACING);
    assert_eq!(clamp_line_spacing(120), 120);
    assert_eq!(clamp_line_spacing(1000), MAX_LINE_SPACING);
    let mut config = LabelConfig::with_scp_number(1);
    config.scp_number_font_size = 5;
    config.object_class_font_size = 500;
    config.scp_line_spacing = 10;
    config.class_line_spacing = 301;
    config.output_quality = 250;
    config.texture_alpha = 200;
    assert!(!config.is_in_range());
    config.clamp_to_ranges();
    assert!(config.is_in_range());
    assert_eq!(config.scp_number_font_size, 24);
    assert_eq!(config.object_class_font_size, 72);
    assert_eq!(config.scp_line_spacing, 50);
    assert_eq!(config.class_line_spacing, 300);
    assert_eq!(config.output_quality, 100);
    assert_eq!(config.texture_alpha, 200);
    assert_eq!(config.scp_number, "001");
}

#[test]
fn clamping_leaves_settings_in_range_alone() {
    let mut config = LabelConfig::with_scp_number(12);
    config.scp_number_font_size = 30;
    config.class_line_spacing = 250;
    let before = config.clone();
    config.clamp_to_ranges();
    assert_eq!(config.scp_number_font_size, before.scp_number_font_size);
    assert_eq!(config.class_line_spacing, before.class_line_spacing);
    assert_eq!(config.output_quality, before.output_quality);
    assert_eq!(config.scp_number, before.scp_number);
}

#[test]
fn colours_have_their_channels() {
    assert_eq!(SerializableColor::white(), SerializableColor { r: 255, g: 255, b: 255, a: 255 });
    assert_eq!(SerializableColor::transparent(), SerializableColor { r: 0, g: 0, b: 0, a: 0 });
}

#[test]
fn photo_of_the_slots_proportions_is_a_perfect_fit() {
    let photo = SerializableRgbaImage::from_pixel(466, 480, SerializableColor::white());
    let validation = validate_user_image(&photo);
    assert_eq!(validation.status, ValidationStatus::PerfectFit);
    assert_eq!(validation.source_dimensions, (466, 480));
    assert_eq!(validation.target_dimensions, (233, 240));
    assert_eq!(validation.message, "OK: Image is perfect (466×480)");
}

#[test]
fn photo_of_other_proportions_will_be_cropped() {
    let photo = SerializableRgbaImage::from_pixel(100, 50, SerializableColor::white());
    let validation = validate_user_image(&photo);
    assert_eq!(validation.status, ValidationStatus::WillCrop);
    assert_eq!(validation.source_dimensions, (100, 50));
    assert_eq!(validation.target_dimensions, (233, 240));
    assert_eq!(validation.message, "Warning: Image will be cropped (100×50 → 233×240)");
    let tall = SerializableRgbaImage::from_pixel(10, 100, SerializableColor::white());
    assert_eq!(validate_user_image(&tall).status, ValidationStatus::WillCrop);
}

#[test]
fn ratio_check_allows_less_than_a_fiftieth() {
    assert!(has_target_ratio(233, 240, 233, 240));
    assert!(has_target_ratio(100, 100, 99, 100));
    assert!(!has_target_ratio(102, 100, 100, 100));
    assert!(has_target_ratio(101, 100, 100, 100));
    assert!(!has_target_ratio(100, 0, 233, 240));
    assert!(!has_target_ratio(100, 100, 233, 0));
}
