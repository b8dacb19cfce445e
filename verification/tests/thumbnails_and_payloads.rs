use base64::Engine;
use connected::fs_provider::{thumbnail_of_file, FsProviderError};
use connected::mms::{base64_error_message, mms_image_bytes, Base64Error, MmsInlineImage};
use connected::transfers::check_disk_space;
use std::io::Cursor;

fn png_bytes(width: u32, height: u32) -> Vec<u8> {
    let img = image::RgbImage::from_pixel(width, height, image::Rgb([200, 30, 30]));
    let mut out = Cursor::new(Vec::new());
    image::DynamicImage::ImageRgb8(img)
        .write_to(&mut out, image::ImageFormat::Png)
        .unwrap();
    out.into_inner()
}

fn failure_text(e: FsProviderError) -> String {
    match e {
        FsProviderError::Filesystem(m) => m,
    }
}

#[test]
fn pictures_get_small_jpeg_thumbnails() {
    let png = png_bytes(200, 100);
    let thumb = thumbnail_of_file("/home/u/pics/red.PNG", &png).unwrap();
    let decoded = image::load_from_memory_with_format(&thumb, image::ImageFormat::Jpeg).unwrap();
    assert_eq!((decoded.width(), decoded.height()), (96, 48));
}

#[test]
fn other_files_get_no_thumbnail() {
    assert!(thumbnail_of_file("/home/u/notes.txt", b"hello").unwrap().is_empty());
    assert!(thumbnail_of_file("/home/u/README", b"hello").unwrap().is_empty());
}

#[test]
fn broken_and_huge_pictures_are_refused() {
    let err = failure_text(thumbnail_of_file("/p/x.png", b"not a png").unwrap_err());
    assert!(err.starts_with("Thumbnail generation failed: "));
    let huge = png_bytes(16385, 1);
    let err = failure_text(thumbnail_of_file("/p/huge.png", &huge).unwrap_err());
    assert_eq!(
        err,
        "Thumbnail generation failed: Image too large for thumbnail: 16385x1 (max 16384x16384)"
    );
}

#[test]
fn disk_space_is_checked_before_accepting() {
    assert!(check_disk_space(10, Some(10), "/d").is_ok());
    assert!(check_disk_space(10, None, "/d").is_ok());
    let m = check_disk_space(5 * 1048576, Some(2621440), "/home/u/Downloads").unwrap_err();
    assert_eq!(m, "Not enough disk space. Need 5 MB but only 2 MB available in /home/u/Downloads");
    for (size, avail) in [(3_700_000u64, 1_572_864u64), (1_048_576 * 7 + 524_288, 524_288), (999_999_999, 12_345)] {
        let expected = format!(
            "Not enough disk space. Need {:.0} MB but only {:.0} MB available in /x",
            size as f64 / 1_048_576.0,
            avail as f64 / 1_048_576.0
        );
        assert_eq!(check_disk_space(size, Some(avail), "/x").unwrap_err(), expected);
    }
}

#[test]
fn payload_errors_read_as_the_decoder_says() {
    let img = |data: &str| MmsInlineImage {
        data_url: String::new(),
        base64_data: data.to_string(),
        content_type: "image/png".to_string(),
        filename: None,
    };
    assert_eq!(mms_image_bytes(&img("AQID")).unwrap(), vec![1, 2, 3]);
    assert_eq!(
        mms_image_bytes(&img("A!ID")).unwrap_err(),
        "Invalid image payload: Invalid symbol 33, offset 1."
    );
    assert_eq!(base64_error_message(Base64Error::InvalidLength(5)), "Invalid input length: 5");
    assert_eq!(base64_error_message(Base64Error::InvalidPadding), "Invalid padding");
    for bad in ["A", "AQ=", "AR==", "A!", "AQID="] {
        let expected = base64::engine::general_purpose::STANDARD.decode(bad).unwrap_err().to_string();
        assert_eq!(mms_image_bytes(&img(bad)).unwrap_err(), format!("Invalid image payload: {}", expected));
    }
}
