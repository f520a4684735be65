use nhentai_archivist::image_type::{image_type_from_path, path_extension, ImageType};

fn all_types() -> Vec<ImageType> {
    vec![ImageType::Gif, ImageType::Jpg, ImageType::Png, ImageType::Webp]
}

#[test]
fn from_str_short_forms() {
    assert!(ImageType::from_str("g") == Ok(ImageType::Gif));
    assert!(ImageType::from_str("j") == Ok(ImageType::Jpg));
    assert!(ImageType::from_str("p") == Ok(ImageType::Png));
    assert!(ImageType::from_str("w") == Ok(ImageType::Webp));
}

#[test]
fn from_str_long_forms() {
    assert!(ImageType::from_str("gif") == Ok(ImageType::Gif));
    assert!(ImageType::from_str("jpg") == Ok(ImageType::Jpg));
    assert!(ImageType::from_str("jpeg") == Ok(ImageType::Jpg));
    assert!(ImageType::from_str("png") == Ok(ImageType::Png));
    assert!(ImageType::from_str("webp") == Ok(ImageType::Webp));
}

#[test]
fn from_str_ignores_case_and_whitespace() {
    assert!(ImageType::from_str("GIF") == Ok(ImageType::Gif));
    assert!(ImageType::from_str(" JpEg\n") == Ok(ImageType::Jpg));
    assert!(ImageType::from_str("\tW ") == Ok(ImageType::Webp));
    assert!(ImageType::from_str("\u{3000}png\u{00A0}") == Ok(ImageType::Png));
}

#[test]
fn from_str_refuses_other_names() {
    assert!(ImageType::from_str("bmp") == Err("Invalid image type: \"bmp\"".to_owned()));
    assert!(ImageType::from_str("-g") == Err("Invalid image type: \"-g\"".to_owned()));
}

#[test]
fn from_str_error_messages() {
    let cases = ["bmp", "", " ", "jp g", "gifs", "İgif", "\u{212A}"];
    for case in cases {
        match ImageType::from_str(case) {
            Ok(_) => panic!("{case:?} was accepted"),
            Err(m) => assert_eq!(m, format!("Invalid image type: \"{case}\"")),
        }
    }
}

#[test]
fn from_str_trait_agrees() {
    let r: Result<ImageType, String> = "PNG".parse();
    assert!(r == Ok(ImageType::Png));
    let r: Result<ImageType, String> = "tiff".parse();
    assert!(r == Err("Invalid image type: \"tiff\"".to_owned()));
}

#[test]
fn short_and_long_forms() {
    let short: Vec<String> = all_types().iter().map(|t| t.short_form()).collect();
    let long: Vec<String> = all_types().iter().map(|t| t.long_form()).collect();
    assert_eq!(short, vec!["g", "j", "p", "w"]);
    assert_eq!(long, vec!["gif", "jpg", "png", "webp"]);
}

#[test]
fn forms_read_back() {
    for t in all_types() {
        assert!(ImageType::from_str(&t.short_form()) == Ok(t.clone()));
        assert!(ImageType::from_str(&t.long_form()) == Ok(t.clone()));
        assert!(ImageType::from_str(&t.long_form().to_uppercase()) == Ok(t.clone()));
    }
}

#[test]
fn from_normalized_is_exact() {
    assert!(ImageType::from_normalized("gif") == Some(ImageType::Gif));
    assert!(ImageType::from_normalized("jpeg") == Some(ImageType::Jpg));
    assert!(ImageType::from_normalized("GIF") == None);
    assert!(ImageType::from_normalized(" gif") == None);
}

#[test]
fn extension_after_last_dot() {
    assert_eq!(path_extension("galleries/123/1.jpg"), "jpg");
    assert_eq!(path_extension("a.b/c.tar.gz"), "gz");
    assert_eq!(path_extension("noext"), "noext");
    assert_eq!(path_extension("file."), "");
    assert_eq!(path_extension(""), "");
    assert_eq!(path_extension("dir.d/name"), "d/name");
}

#[test]
fn image_type_from_path_examples() {
    assert!(image_type_from_path("galleries/123/1.jpg") == Ok(ImageType::Jpg));
    assert!(image_type_from_path("galleries/123/cover.WEBP") == Ok(ImageType::Webp));
    assert!(image_type_from_path("x/y/2.png") == Ok(ImageType::Png));
    assert!(image_type_from_path("3.gif") == Ok(ImageType::Gif));
    assert!(image_type_from_path("galleries/123/1.jpg.bmp") == Err("Invalid image type: \"bmp\"".to_owned()));
    assert!(image_type_from_path("noext") == Err("Invalid image type: \"noext\"".to_owned()));
    assert!(image_type_from_path("file.") == Err("Invalid image type: \"\"".to_owned()));
}

#[test]
fn from_str_ignores_ascii_case() {
    let names = ["g", "Gif", "jPeG", "J", "png", "WebP", "bmp", " w ", "x.y"];
    for name in names {
        let r = ImageType::from_str(name).ok();
        assert!(ImageType::from_str(&name.to_ascii_uppercase()).ok() == r, "{name:?}");
        assert!(ImageType::from_str(&name.to_ascii_lowercase()).ok() == r, "{name:?}");
    }
}
