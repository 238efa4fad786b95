use imgzip::format::{Format, UnknownFormat};

#[test]
fn accepts_png_in_any_casing() {
    assert_eq!(Format::try_from("PNG"), Ok(Format::PNG));
    assert_eq!(Format::try_from("png"), Ok(Format::PNG));
    assert_eq!(Format::try_from("PnG"), Ok(Format::PNG));
}

#[test]
fn accepts_jpeg_in_any_casing() {
    assert_eq!(Format::try_from("JPEG"), Ok(Format::JPEG));
    assert_eq!(Format::try_from("jpeg"), Ok(Format::JPEG));
    assert_eq!(Format::try_from("JpEg"), Ok(Format::JPEG));
}

#[test]
fn accepts_gif_in_any_casing() {
    assert_eq!(Format::try_from("GIF"), Ok(Format::GIF));
    assert_eq!(Format::try_from("gif"), Ok(Format::GIF));
    assert_eq!(Format::try_from("gIf"), Ok(Format::GIF));
}

#[test]
fn every_casing_of_every_name_selects_its_format() {
    for format in [Format::JPEG, Format::PNG, Format::GIF] {
        let name: Vec<char> = format.name().chars().collect();
        for mask in 0u32..(1u32 << name.len()) {
            let mut spelled = String::new();
            for (i, c) in name.iter().enumerate() {
                if mask & (1 << i) != 0 {
                    spelled.push(c.to_ascii_lowercase());
                } else {
                    spelled.push(*c);
                }
            }
            assert_eq!(Format::try_from(&spelled), Ok(format));
        }
    }
}

#[test]
fn rejects_bmp_and_empty() {
    assert_eq!(Format::try_from("bmp"), Err(UnknownFormat));
    assert_eq!(Format::try_from(""), Err(UnknownFormat));
}

#[test]
fn rejects_near_misses() {
    assert_eq!(Format::try_from("jpg"), Err(UnknownFormat));
    assert_eq!(Format::try_from(" png"), Err(UnknownFormat));
    assert_eq!(Format::try_from("png "), Err(UnknownFormat));
    assert_eq!(Format::try_from("pngx"), Err(UnknownFormat));
    assert_eq!(Format::try_from("pn"), Err(UnknownFormat));
    assert_eq!(Format::try_from(".gif"), Err(UnknownFormat));
    assert_eq!(Format::try_from("image/png"), Err(UnknownFormat));
}

#[test]
fn folds_ascii_letters_only() {
    // U+212A KELVIN SIGN lower-cases to `k` under Unicode rules, U+0130 to
    // `i`; neither is an ASCII letter.
    assert_eq!(Format::try_from("g\u{0130}f"), Err(UnknownFormat));
    assert_eq!(Format::try_from("\u{ff30}NG"), Err(UnknownFormat));
    assert_eq!(Format::try_from("p\u{00f1}g"), Err(UnknownFormat));
}

#[test]
fn names_and_extensions() {
    assert_eq!(Format::JPEG.name(), "JPEG");
    assert_eq!(Format::PNG.name(), "PNG");
    assert_eq!(Format::GIF.name(), "GIF");
    assert_eq!(Format::JPEG.extension(), "jpeg");
    assert_eq!(Format::PNG.extension(), "png");
    assert_eq!(Format::GIF.extension(), "gif");
}

#[test]
fn name_and_extension_select_the_format() {
    for format in [Format::JPEG, Format::PNG, Format::GIF] {
        assert_eq!(Format::try_from(format.name()), Ok(format));
        assert_eq!(Format::try_from(format.extension()), Ok(format));
    }
}
