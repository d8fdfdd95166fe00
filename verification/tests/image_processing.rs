use wallpaper_desktop::error::AppError;
use wallpaper_desktop::image_processing::{
    calculate_adaptation_plan, dimensions_text, greatest_common_divisor, inspect_image,
    mul_div_ceil, mul_div_floor, processed_file_name, reduced_aspect_ratio, thumbnail_bounds,
    supported_format, thumbnail_file_name, validate_output_dimensions, validate_source_dimensions, FitMode,
    ImageProcessor,
};

fn png_bytes(width: u32, height: u32) -> Vec<u8> {
    let mut output = std::io::Cursor::new(Vec::new());
    image::DynamicImage::ImageRgb8(image::RgbImage::from_pixel(width, height, image::Rgb([10, 20, 30])))
        .write_to(&mut output, image::ImageFormat::Png)
        .expect("encode png");
    output.into_inner()
}

#[test]
fn calculates_fill_and_fit_for_ultrawide_display() {
    let fill = calculate_adaptation_plan(3840, 2160, 3440, 1440, FitMode::Fill).expect("fill");
    assert_eq!((fill.resized_width, fill.resized_height), (3440, 1935));
    assert_eq!((fill.crop_x, fill.crop_y), (0, 247));
    let fit = calculate_adaptation_plan(3840, 2160, 3440, 1440, FitMode::Fit).expect("fit");
    assert_eq!((fit.resized_width, fit.resized_height), (2560, 1440));
    assert_eq!((fit.destination_x, fit.destination_y), (440, 0));
}

#[test]
fn calculates_center_and_stretch_without_implicit_center_scaling() {
    let center = calculate_adaptation_plan(3000, 1000, 1920, 1080, FitMode::Center).expect("center");
    assert_eq!((center.resized_width, center.resized_height), (3000, 1000));
    assert_eq!((center.crop_x, center.destination_y), (540, 40));
    let stretch = calculate_adaptation_plan(800, 1200, 1920, 1080, FitMode::Stretch).expect("stretch");
    assert_eq!((stretch.resized_width, stretch.resized_height), (1920, 1080));
}

#[test]
fn reports_reduced_ratios_for_required_shapes() {
    assert_eq!(reduced_aspect_ratio(1920, 1080), "16:9");
    assert_eq!(reduced_aspect_ratio(2560, 1600), "8:5");
    assert_eq!(reduced_aspect_ratio(3440, 1440), "43:18");
    assert_eq!(reduced_aspect_ratio(5120, 1440), "32:9");
}

#[test]
fn plans_every_required_source_shape_for_all_modes() {
    let sources = [
        (1920, 1080),
        (2560, 1440),
        (3840, 2160),
        (5120, 2880),
        (7680, 4320),
        (2560, 1600),
        (3440, 1440),
        (5120, 1440),
        (1080, 1920),
    ];
    for (source_width, source_height) in sources {
        for mode in [FitMode::Fill, FitMode::Fit, FitMode::Center, FitMode::Stretch] {
            let plan = calculate_adaptation_plan(source_width, source_height, 2560, 1600, mode)
                .expect("plan");
            assert!(plan.crop_width > 0 && plan.crop_height > 0);
            assert!(plan.crop_x + plan.crop_width <= plan.resized_width);
            assert!(plan.crop_y + plan.crop_height <= plan.resized_height);
            assert!(plan.destination_x + plan.crop_width <= 2560);
            assert!(plan.destination_y + plan.crop_height <= 1600);
        }
    }
}

#[test]
fn reads_content_format_and_rejects_invalid_images() {
    let metadata = inspect_image(&png_bytes(64, 32)).expect("png inspects");
    assert_eq!(metadata.format, "png");
    assert_eq!(metadata.aspect_ratio, "2:1");
    assert!(inspect_image(b"not an image").is_err());
}

#[test]
fn inspection_reports_content_metadata() {
    let bytes = png_bytes(48, 27);
    let processor = ImageProcessor::new("thumbs".to_string(), "processed".to_string());
    let metadata = processor.inspect(&bytes).expect("inspects");
    assert_eq!((metadata.width, metadata.height), (48, 27));
    assert_eq!(metadata.mime_type, "image/png");
    assert_eq!(metadata.file_size, bytes.len() as u64);
    assert_eq!(metadata.sha256.len(), 64);
    assert_eq!(metadata.aspect_ratio, "16:9");
}

#[test]
fn empty_input_is_an_image_error() {
    match inspect_image(&[]) {
        Err(AppError::Image(message)) => {
            assert_eq!(message, "image file size must be between 1 byte and 268435456 bytes")
        }
        other => panic!("unexpected {other:?}"),
    }
}

#[test]
fn oversized_sources_and_outputs_are_rejected() {
    assert!(validate_source_dimensions(16385, 10).is_err());
    assert!(validate_source_dimensions(0, 10).is_err());
    assert!(validate_source_dimensions(3840, 2160).is_ok());
    assert!(validate_output_dimensions(0, 1).is_err());
    assert!(calculate_adaptation_plan(20000, 100, 1920, 1080, FitMode::Fill).is_err());
}

#[test]
fn integer_helpers_round_as_documented() {
    assert_eq!(greatest_common_divisor(3840, 2160), 240);
    assert_eq!(greatest_common_divisor(0, 0), 1);
    assert_eq!(mul_div_ceil(10, 3, 4).expect("ceil"), 8);
    assert_eq!(mul_div_floor(10, 3, 4).expect("floor"), 7);
    assert_eq!(dimensions_text(3840, 2160), "3840x2160");
}

#[test]
fn fit_mode_names_round_trip() {
    for mode in [FitMode::Fill, FitMode::Fit, FitMode::Center, FitMode::Stretch] {
        assert_eq!(FitMode::from_name(mode.as_str()).expect("known"), mode);
    }
    assert!(FitMode::from_name("tile").is_err());
}

#[test]
fn cache_names_include_content_and_geometry() {
    assert_eq!(thumbnail_file_name("abc", 480, 270), "generated-abc-480x270.jpg");
    assert_eq!(processed_file_name("abc", 10, 10, FitMode::Fill), "abc-10x10-fill.jpg");
    let (w, h) = thumbnail_bounds(None, None).expect("defaults");
    assert_eq!((w, h), (480, 270));
}

#[test]
fn supported_formats_are_the_four_v1_decoders() {
    assert_eq!(supported_format("Jpeg").expect("jpeg"), ("jpeg", "image/jpeg"));
    assert_eq!(supported_format("Png").expect("png"), ("png", "image/png"));
    assert_eq!(supported_format("WebP").expect("webp"), ("webp", "image/webp"));
    assert_eq!(supported_format("Bmp").expect("bmp"), ("bmp", "image/bmp"));
    match supported_format("Gif") {
        Err(AppError::Image(message)) => assert_eq!(message, "unsupported V1 image format: Gif"),
        other => panic!("unexpected {other:?}"),
    }
}
