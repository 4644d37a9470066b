use media_pipeline::models::error::ErrorKind;
use media_pipeline::repos::offline::offline_thumbnails_repo::{
    OfflineThumbnailsRepo, ProbeReport, ProbeStream, THUMBNAIL_MAX_HEIGHT, THUMBNAIL_MAX_WIDTH,
};

fn png_of(width: u32, height: u32) -> Vec<u8> {
    let picture = image::DynamicImage::new_rgb8(width, height);
    let mut buffer = std::io::Cursor::new(Vec::new());
    picture.write_to(&mut buffer, image::ImageFormat::Png).unwrap();
    buffer.into_inner()
}

fn jpeg_of(width: u32, height: u32) -> Vec<u8> {
    let picture = image::DynamicImage::new_rgb8(width, height);
    let mut buffer = std::io::Cursor::new(Vec::new());
    picture.write_to(&mut buffer, image::ImageFormat::Jpeg).unwrap();
    buffer.into_inner()
}

fn size_of_png(bytes: &[u8]) -> (u32, u32) {
    let picture = image::load_from_memory_with_format(bytes, image::ImageFormat::Png).unwrap();
    (picture.width(), picture.height())
}

fn stream(codec_type: &str, duration: Option<&str>) -> ProbeStream {
    ProbeStream { codec_type: codec_type.to_string(), duration: duration.map(|d| d.to_string()) }
}

#[test]
fn the_bounds_are_256_by_256() {
    assert_eq!(THUMBNAIL_MAX_WIDTH, 256);
    assert_eq!(THUMBNAIL_MAX_HEIGHT, 256);
}

#[test]
fn a_small_picture_keeps_its_size() {
    assert_eq!(OfflineThumbnailsRepo::thumbnail_dimensions(100, 50), (100, 50));
    assert_eq!(OfflineThumbnailsRepo::thumbnail_dimensions(256, 256), (256, 256));
    assert_eq!(OfflineThumbnailsRepo::thumbnail_dimensions(1, 1), (1, 1));
    assert_eq!(OfflineThumbnailsRepo::thumbnail_dimensions(0, 0), (0, 0));
}

#[test]
fn a_wide_picture_is_scaled_to_the_width() {
    assert_eq!(OfflineThumbnailsRepo::thumbnail_dimensions(512, 256), (256, 128));
    assert_eq!(OfflineThumbnailsRepo::thumbnail_dimensions(1920, 1080), (256, 144));
    assert_eq!(OfflineThumbnailsRepo::thumbnail_dimensions(257, 256), (256, 255));
    assert_eq!(OfflineThumbnailsRepo::thumbnail_dimensions(1000, 10), (256, 2));
}

#[test]
fn a_high_picture_is_scaled_to_the_height() {
    assert_eq!(OfflineThumbnailsRepo::thumbnail_dimensions(256, 512), (128, 256));
    assert_eq!(OfflineThumbnailsRepo::thumbnail_dimensions(1080, 1920), (144, 256));
    assert_eq!(OfflineThumbnailsRepo::thumbnail_dimensions(1000, 3000), (85, 256));
    assert_eq!(OfflineThumbnailsRepo::thumbnail_dimensions(100, 300), (85, 256));
}

#[test]
fn a_square_picture_is_scaled_to_the_bounds() {
    assert_eq!(OfflineThumbnailsRepo::thumbnail_dimensions(4000, 4000), (256, 256));
}

#[test]
fn the_largest_picture_does_not_overflow() {
    assert_eq!(OfflineThumbnailsRepo::thumbnail_dimensions(u32::MAX, u32::MAX), (256, 256));
    assert_eq!(OfflineThumbnailsRepo::thumbnail_dimensions(u32::MAX, 1), (256, 1));
    assert_eq!(OfflineThumbnailsRepo::thumbnail_dimensions(1, u32::MAX), (1, 256));
}

#[test]
fn a_large_picture_becomes_a_png_within_the_bounds() {
    let thumbnail =
        OfflineThumbnailsRepo::get_image_thumbnail("/data/wide.png", &png_of(512, 256)).unwrap();
    assert_eq!(size_of_png(&thumbnail), (256, 128));
    let thumbnail =
        OfflineThumbnailsRepo::get_image_thumbnail("/data/high.PNG", &png_of(256, 512)).unwrap();
    assert_eq!(size_of_png(&thumbnail), (128, 256));
    // the scaler keeps the proportions inside the box that it is given
    let thumbnail =
        OfflineThumbnailsRepo::get_image_thumbnail("/data/high.PNG", &png_of(300, 900)).unwrap();
    let (width, height) = size_of_png(&thumbnail);
    assert_eq!(width, 85);
    assert!(height == 255 || height == 256);
}

#[test]
fn a_small_picture_becomes_a_png_of_its_size() {
    let thumbnail =
        OfflineThumbnailsRepo::get_image_thumbnail("small.png", &png_of(40, 30)).unwrap();
    assert_eq!(size_of_png(&thumbnail), (40, 30));
}

#[test]
fn a_jpeg_becomes_a_png() {
    let thumbnail =
        OfflineThumbnailsRepo::get_image_thumbnail("/tmp/frame.jpg", &jpeg_of(640, 480)).unwrap();
    assert_eq!(&thumbnail[..8], &[0x89, b'P', b'N', b'G', 0x0d, 0x0a, 0x1a, 0x0a]);
    assert_eq!(size_of_png(&thumbnail), (256, 192));
}

#[test]
fn the_format_goes_by_the_extension() {
    // a picture in one format under the extension of another does not decode
    let error =
        OfflineThumbnailsRepo::get_image_thumbnail("/data/x.jpg", &png_of(10, 10)).unwrap_err();
    assert_eq!(error.kind, ErrorKind::ResourceError);
    assert!(error.message.starts_with("打开图片失败: "));
}

#[test]
fn bytes_that_are_no_picture_are_a_resource_error() {
    let error =
        OfflineThumbnailsRepo::get_image_thumbnail("/data/x.png", &[1, 2, 3, 4]).unwrap_err();
    assert_eq!(error.kind, ErrorKind::ResourceError);
    assert!(error.message.starts_with("打开图片失败: "));
    assert!(error.message.len() > "打开图片失败: ".len());
    let error = OfflineThumbnailsRepo::get_image_thumbnail("/data/x.png", &[]).unwrap_err();
    assert_eq!(error.kind, ErrorKind::ResourceError);
}

#[test]
fn an_extension_without_decoder_is_a_resource_error() {
    let error =
        OfflineThumbnailsRepo::get_image_thumbnail("/data/drawing.svg", b"<svg/>").unwrap_err();
    assert_eq!(error.kind, ErrorKind::ResourceError);
    assert!(error.message.starts_with("打开图片失败: "));
    let error = OfflineThumbnailsRepo::get_image_thumbnail("/data/none", b"").unwrap_err();
    assert_eq!(error.kind, ErrorKind::ResourceError);
}

#[test]
fn the_inspection_tool_is_asked_for_json() {
    assert_eq!(
        OfflineThumbnailsRepo::probe_arguments("/data/clip.mp4"),
        vec![
            "-v",
            "quiet",
            "-print_format",
            "json",
            "-show_format",
            "-show_streams",
            "/data/clip.mp4"
        ]
    );
}

#[test]
fn a_tool_that_failed_is_a_resource_error_with_its_output() {
    assert!(OfflineThumbnailsRepo::check_tool_exit(true, "ffprobe错误: ", "ignored").is_ok());
    let error = OfflineThumbnailsRepo::check_tool_exit(false, "ffprobe错误: ", "no such file")
        .unwrap_err();
    assert_eq!(error.kind, ErrorKind::ResourceError);
    assert_eq!(error.message, "ffprobe错误: no such file");
    let error =
        OfflineThumbnailsRepo::check_tool_exit(false, "ffmpeg错误: ", "").unwrap_err();
    assert_eq!(error.message, "ffmpeg错误: ");
}

#[test]
fn the_duration_of_the_container_comes_first() {
    let report = ProbeReport {
        format_duration: Some("90.050000".to_string()),
        streams: Some(vec![stream("video", Some("12.0"))]),
    };
    assert_eq!(OfflineThumbnailsRepo::get_video_duration(&report).unwrap(), 90_050_000);
}

#[test]
fn the_first_video_stream_stands_in_for_the_container() {
    let report = ProbeReport {
        format_duration: None,
        streams: Some(vec![
            stream("audio", Some("99.0")),
            stream("video", Some("12.5")),
            stream("video", Some("77.0")),
        ]),
    };
    assert_eq!(OfflineThumbnailsRepo::get_video_duration(&report).unwrap(), 12_500_000);
    let report = ProbeReport {
        format_duration: Some("N/A".to_string()),
        streams: Some(vec![stream("video", Some("3"))]),
    };
    assert_eq!(OfflineThumbnailsRepo::get_video_duration(&report).unwrap(), 3_000_000);
}

#[test]
fn only_the_first_video_stream_is_asked() {
    let report = ProbeReport {
        format_duration: None,
        streams: Some(vec![stream("video", None), stream("video", Some("77.0"))]),
    };
    let error = OfflineThumbnailsRepo::get_video_duration(&report).unwrap_err();
    assert_eq!(error.kind, ErrorKind::ResourceError);
    assert_eq!(error.message, "无法获取视频时长");
}

#[test]
fn a_report_without_duration_is_a_resource_error() {
    for report in [
        ProbeReport { format_duration: None, streams: None },
        ProbeReport { format_duration: None, streams: Some(Vec::new()) },
        ProbeReport {
            format_duration: Some("soon".to_string()),
            streams: Some(vec![stream("audio", Some("5.0"))]),
        },
        ProbeReport {
            format_duration: Some("".to_string()),
            streams: Some(vec![stream("video", Some("-5.0"))]),
        },
    ] {
        let error = OfflineThumbnailsRepo::get_video_duration(&report).unwrap_err();
        assert_eq!(error.kind, ErrorKind::ResourceError);
        assert_eq!(error.message, "无法获取视频时长");
    }
}

#[test]
fn a_duration_of_zero_is_told_as_zero() {
    let report = ProbeReport { format_duration: Some("0.000000".to_string()), streams: None };
    assert_eq!(OfflineThumbnailsRepo::get_video_duration(&report).unwrap(), 0);
}

#[test]
fn a_video_without_duration_yields_no_frame() {
    let error = OfflineThumbnailsRepo::get_video_thumbnail("/data/clip.mp4", "/tmp", 0)
        .unwrap_err();
    assert_eq!(error.kind, ErrorKind::ResourceError);
    assert_eq!(error.message, "视频时长无效");
    let error = OfflineThumbnailsRepo::frame_grab_at("/data/clip.mp4", "/tmp", 0, 0, 1)
        .unwrap_err();
    assert_eq!(error.kind, ErrorKind::ResourceError);
    assert_eq!(error.message, "视频时长无效");
}

#[test]
fn the_frame_is_taken_between_a_tenth_and_nine_tenths() {
    assert_eq!(OfflineThumbnailsRepo::seek_window(100), (10, 90));
    assert_eq!(OfflineThumbnailsRepo::seek_window(90_050_000), (9_005_000, 81_045_000));
    assert_eq!(OfflineThumbnailsRepo::seek_window(0), (0, 0));
    assert_eq!(OfflineThumbnailsRepo::seek_window(1), (0, 0));
    assert_eq!(OfflineThumbnailsRepo::seek_window(19), (1, 17));
    assert_eq!(
        OfflineThumbnailsRepo::seek_window(u64::MAX),
        (u64::MAX / 10, (u64::MAX as u128 * 9 / 10) as u64)
    );
}

#[test]
fn the_frame_grab_is_planned_to_the_letter() {
    let grab =
        OfflineThumbnailsRepo::frame_grab_at("/data/clip.mp4", "/tmp", 60_000_000, 12_345_678, 42)
            .unwrap();
    assert_eq!(grab.seek_micros, 12_345_678);
    assert_eq!(grab.output_path, "/tmp/thumbnail_42.jpg");
    assert_eq!(
        grab.args,
        vec![
            "-ss",
            "12.345678",
            "-i",
            "/data/clip.mp4",
            "-vframes",
            "1",
            "-q:v",
            "2",
            "-y",
            "/tmp/thumbnail_42.jpg"
        ]
    );
}

#[test]
fn a_random_frame_lies_in_the_middle_of_the_video() {
    let duration = 90_000_000u64;
    let mut seeks = Vec::new();
    for _ in 0..64 {
        let grab =
            OfflineThumbnailsRepo::get_video_thumbnail("/data/clip.mp4", "/tmp", duration).unwrap();
        assert!(grab.seek_micros >= 9_000_000);
        assert!(grab.seek_micros < 81_000_000);
        assert!(grab.output_path.starts_with("/tmp/thumbnail_"));
        assert!(grab.output_path.ends_with(".jpg"));
        assert_eq!(grab.args.len(), 10);
        assert_eq!(grab.args[0], "-ss");
        assert_eq!(grab.args[3], "/data/clip.mp4");
        assert_eq!(grab.args[9], grab.output_path);
        seeks.push(grab.seek_micros);
    }
    // the point is drawn anew each time
    seeks.sort();
    seeks.dedup();
    assert!(seeks.len() > 1);
}

#[test]
fn a_very_short_video_is_sought_at_its_start() {
    let grab = OfflineThumbnailsRepo::get_video_thumbnail("/data/clip.mp4", "/tmp", 1).unwrap();
    assert_eq!(grab.seek_micros, 0);
    assert_eq!(grab.args[1], "0.000000");
}

#[test]
fn a_thumbnail_is_a_png_stream() {
    let signature = [137u8, 80, 78, 71, 13, 10, 26, 10];
    for (extension, bytes) in [
        ("png", png_of(300, 200)),
        ("PNG", png_of(3, 2)),
        ("jpg", jpeg_of(300, 200)),
        ("jpeg", jpeg_of(30, 20)),
    ] {
        let thumbnail = OfflineThumbnailsRepo::thumbnail_from_bytes(extension, &bytes).unwrap();
        assert_eq!(&thumbnail[..8], &signature);
    }
    let thumbnail = OfflineThumbnailsRepo::get_image_thumbnail("/a/b.c/d.PnG", &png_of(9, 9)).unwrap();
    assert_eq!(&thumbnail[..8], &signature);
}

#[test]
fn the_thumbnail_is_made_from_the_bytes_in_the_format_of_the_extension() {
    let thumbnail = OfflineThumbnailsRepo::thumbnail_from_bytes("png", &png_of(512, 256)).unwrap();
    assert_eq!(size_of_png(&thumbnail), (256, 128));
    let thumbnail = OfflineThumbnailsRepo::thumbnail_from_bytes("jpg", &jpeg_of(100, 400)).unwrap();
    assert_eq!(size_of_png(&thumbnail), (64, 256));
}

#[test]
fn what_does_not_decode_fails_at_opening() {
    for (extension, bytes) in [
        ("png", vec![1u8, 2, 3]),
        ("png", Vec::new()),
        ("jpg", png_of(4, 4)),
        ("svg", b"<svg/>".to_vec()),
        ("", png_of(4, 4)),
        ("txt", png_of(4, 4)),
    ] {
        let error = OfflineThumbnailsRepo::thumbnail_from_bytes(extension, &bytes).unwrap_err();
        assert_eq!(error.kind, ErrorKind::ResourceError);
        assert!(error.message.starts_with("打开图片失败: "), "{}", error.message);
        assert!(error.message.len() > "打开图片失败: ".len());
    }
    let error = OfflineThumbnailsRepo::get_image_thumbnail("/data/none", &png_of(4, 4)).unwrap_err();
    assert!(error.message.starts_with("打开图片失败: "));
}

#[test]
fn no_side_of_a_thumbnail_vanishes() {
    assert_eq!(OfflineThumbnailsRepo::thumbnail_dimensions(10_000, 1), (256, 1));
    assert_eq!(OfflineThumbnailsRepo::thumbnail_dimensions(1, 10_000), (1, 256));
    assert_eq!(OfflineThumbnailsRepo::thumbnail_dimensions(257, 1), (256, 1));
    assert_eq!(OfflineThumbnailsRepo::thumbnail_dimensions(1000, 3), (256, 1));
    assert_eq!(OfflineThumbnailsRepo::thumbnail_dimensions(1000, 4), (256, 1));
    assert_eq!(OfflineThumbnailsRepo::thumbnail_dimensions(1000, 8), (256, 2));
    // a side that the picture does not have stays away
    assert_eq!(OfflineThumbnailsRepo::thumbnail_dimensions(1000, 0), (256, 0));
    assert_eq!(OfflineThumbnailsRepo::thumbnail_dimensions(0, 1000), (0, 256));
    let thumbnail = OfflineThumbnailsRepo::thumbnail_from_bytes("png", &png_of(2000, 1)).unwrap();
    assert_eq!(size_of_png(&thumbnail), (256, 1));
}

#[test]
fn thumbnails_keep_within_the_bounds_and_the_proportions() {
    for (width, height) in [(1u32, 1u32), (256, 256), (300, 200), (200, 300), (1024, 768), (7, 900)] {
        let thumbnail =
            OfflineThumbnailsRepo::thumbnail_from_bytes("png", &png_of(width, height)).unwrap();
        let (w, h) = size_of_png(&thumbnail);
        assert!(1 <= w && w <= 256 && 1 <= h && h <= 256);
        assert!(w <= width && h <= height);
        if width <= 256 && height <= 256 {
            assert_eq!((w, h), (width, height));
        } else {
            let off = (w as i64 * height as i64 - h as i64 * width as i64).abs();
            assert!(off <= width.max(height) as i64);
        }
    }
}

#[test]
fn the_same_bytes_give_the_same_thumbnail() {
    let bytes = png_of(640, 360);
    let first = OfflineThumbnailsRepo::thumbnail_from_bytes("png", &bytes).unwrap();
    let second = OfflineThumbnailsRepo::get_image_thumbnail("/data/x.png", &bytes).unwrap();
    assert_eq!(first, second);
}

#[test]
fn a_file_without_extension_is_not_opened() {
    for path in ["/data/none", "", "/data.d/none", ".hidden"] {
        let error = OfflineThumbnailsRepo::get_image_thumbnail(path, &png_of(4, 4)).unwrap_err();
        assert_eq!(error.kind, ErrorKind::ResourceError);
        assert!(error.message.starts_with("打开图片失败: "));
    }
}
