use imgzip::codec::{convert_image, ConvertError};
use imgzip::convert::{
    conversion_result, output_filename, ConversionResult, ConversionTask, UploadedImage,
};
use imgzip::format::Format;
use std::io::Cursor;

fn sample(width: u32, height: u32, format: image::ImageOutputFormat) -> Vec<u8> {
    let mut picture = image::RgbImage::new(width, height);
    for (x, y, pixel) in picture.enumerate_pixels_mut() {
        *pixel = image::Rgb([(x * 40) as u8, (y * 60) as u8, 128]);
    }
    let mut out = Cursor::new(Vec::new());
    image::DynamicImage::ImageRgb8(picture).write_to(&mut out, format).unwrap();
    out.into_inner()
}

fn deep_sample() -> Vec<u8> {
    let picture = image::ImageBuffer::<image::Rgb<u16>, Vec<u16>>::new(3, 2);
    let mut out = Cursor::new(Vec::new());
    image::DynamicImage::ImageRgb16(picture)
        .write_to(&mut out, image::ImageOutputFormat::Png)
        .unwrap();
    out.into_inner()
}

#[test]
fn file_name_is_stem_dot_extension() {
    assert_eq!(output_filename("cat", Format::PNG), "cat.png");
    assert_eq!(output_filename("cat", Format::JPEG), "cat.jpeg");
    assert_eq!(output_filename("cat", Format::GIF), "cat.gif");
}

#[test]
fn file_name_keeps_the_stem_as_it_is() {
    assert_eq!(output_filename("", Format::PNG), ".png");
    assert_eq!(output_filename("a.b", Format::GIF), "a.b.gif");
    assert_eq!(output_filename("Holiday Photo", Format::JPEG), "Holiday Photo.jpeg");
    assert_eq!(output_filename("caf\u{e9}", Format::PNG), "caf\u{e9}.png");
    assert_eq!(output_filename("x.png", Format::PNG), "x.png.png");
}

#[test]
fn file_names_of_different_formats_differ() {
    let formats = [Format::JPEG, Format::PNG, Format::GIF];
    let stems = ["a", "a.", "a.png", "a.j", "", ".gif"];
    for (i, f) in formats.iter().enumerate() {
        for (j, g) in formats.iter().enumerate() {
            for s in stems {
                for t in stems {
                    if i != j || s != t {
                        assert_ne!(output_filename(s, *f), output_filename(t, *g));
                    }
                }
            }
        }
    }
}

#[test]
fn encoded_bytes_are_named() {
    let named = conversion_result("dog", Format::GIF, Ok(vec![1, 2, 3]));
    assert_eq!(
        named,
        Ok(ConversionResult { filename: "dog.gif".to_string(), bytes: vec![1, 2, 3] })
    );
}

#[test]
fn failures_are_passed_on() {
    assert_eq!(
        conversion_result("dog", Format::GIF, Err(ConvertError::Decode)),
        Err(ConvertError::Decode)
    );
    assert_eq!(
        conversion_result("dog", Format::PNG, Err(ConvertError::Encode)),
        Err(ConvertError::Encode)
    );
}

#[test]
fn converts_png_to_jpeg() {
    let source = sample(5, 4, image::ImageOutputFormat::Png);
    let out = convert_image(&source, Format::JPEG).unwrap();
    assert_ne!(out, source);
    assert_eq!(image::guess_format(&out).unwrap(), image::ImageFormat::Jpeg);
    let picture = image::load_from_memory_with_format(&out, image::ImageFormat::Jpeg).unwrap();
    assert_eq!((picture.width(), picture.height()), (5, 4));
}

#[test]
fn converts_bmp_to_png_without_loss() {
    let source = sample(3, 7, image::ImageOutputFormat::Bmp);
    let out = convert_image(&source, Format::PNG).unwrap();
    assert_eq!(image::guess_format(&out).unwrap(), image::ImageFormat::Png);
    let before = image::load_from_memory(&source).unwrap().to_rgb8();
    let after = image::load_from_memory(&out).unwrap().to_rgb8();
    assert_eq!(before, after);
}

#[test]
fn converts_jpeg_to_gif() {
    let source = sample(6, 6, image::ImageOutputFormat::Jpeg(90));
    let out = convert_image(&source, Format::GIF).unwrap();
    assert_eq!(image::guess_format(&out).unwrap(), image::ImageFormat::Gif);
    let picture = image::load_from_memory(&out).unwrap();
    assert_eq!((picture.width(), picture.height()), (6, 6));
}

#[test]
fn jpeg_is_written_at_full_quality() {
    let source = sample(8, 8, image::ImageOutputFormat::Png);
    let picture = image::load_from_memory(&source).unwrap();
    let mut expected = Cursor::new(Vec::new());
    picture.write_to(&mut expected, image::ImageOutputFormat::Jpeg(100)).unwrap();
    assert_eq!(convert_image(&source, Format::JPEG).unwrap(), expected.into_inner());
}

#[test]
fn conversion_is_repeatable() {
    let source = sample(9, 5, image::ImageOutputFormat::Png);
    for format in [Format::JPEG, Format::PNG, Format::GIF] {
        assert_eq!(convert_image(&source, format), convert_image(&source, format));
    }
}

#[test]
fn unrecognised_bytes_are_a_decode_failure() {
    assert_eq!(convert_image(b"certainly not an image", Format::PNG), Err(ConvertError::Decode));
    assert_eq!(convert_image(&[], Format::GIF), Err(ConvertError::Decode));
}

#[test]
fn truncated_image_is_a_decode_failure() {
    let source = sample(5, 4, image::ImageOutputFormat::Png);
    assert_eq!(convert_image(&source[..20], Format::JPEG), Err(ConvertError::Decode));
}

#[test]
fn unsupported_pixel_layout_is_an_encode_failure() {
    let source = deep_sample();
    assert_eq!(convert_image(&source, Format::JPEG), Err(ConvertError::Encode));
    assert!(convert_image(&source, Format::PNG).is_ok());
}

#[test]
fn task_converts_and_names_its_image() {
    let source = sample(2, 2, image::ImageOutputFormat::Png);
    let task = ConversionTask::new(
        UploadedImage { name: "tiny".to_string(), bytes: source.clone() },
        Format::GIF,
    );
    assert_eq!(task.format, Format::GIF);
    assert_eq!(task.image.name, "tiny");
    let result = task.run().unwrap();
    assert_eq!(result.filename, "tiny.gif");
    assert_eq!(result.bytes, convert_image(&source, Format::GIF).unwrap());
}

#[test]
fn task_reports_the_failure_of_its_image() {
    let task = ConversionTask::new(
        UploadedImage { name: "broken".to_string(), bytes: vec![0, 1, 2, 3] },
        Format::PNG,
    );
    assert_eq!(task.run(), Err(ConvertError::Decode));
}
