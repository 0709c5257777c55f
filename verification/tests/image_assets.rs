use neolove::color::{Color4, ColorArg, ColorError};
use neolove::image::{ImageAsset, ImageError, TextureUpload};

const RED: Color4 = Color4 { r: 255, g: 0, b: 0, a: 255 };
const BLUE: Color4 = Color4 { r: 0, g: 0, b: 255, a: 128 };

fn rgb(r: i64, g: i64, b: i64) -> Vec<ColorArg> {
    vec![ColorArg::Number(r), ColorArg::Number(g), ColorArg::Number(b)]
}

#[test]
fn a_new_image_is_of_one_colour_and_not_uploaded() {
    let img = ImageAsset::new(3, 2, RED);
    assert_eq!(img.width(), Ok(3));
    assert_eq!(img.height(), Ok(2));
    assert_eq!(img.size(), Ok((3, 2)));
    for y in 0..2 {
        for x in 0..3 {
            assert_eq!(img.get_pixel(x, y), Ok(RED));
        }
    }
    assert!(!img.is_dirty());
    assert!(!img.is_unloaded());
    assert!(!img.is_uploaded());
}

#[test]
fn an_image_may_be_empty() {
    let img = ImageAsset::new(0, 5, RED);
    assert_eq!(img.size(), Ok((0, 5)));
    assert_eq!(img.get_pixel(0, 0), Err(ImageError::OutOfBounds));
}

#[test]
fn decoded_pixels_are_taken_row_by_row() {
    let a = Color4 { r: 1, g: 1, b: 1, a: 1 };
    let b = Color4 { r: 2, g: 2, b: 2, a: 2 };
    let c = Color4 { r: 3, g: 3, b: 3, a: 3 };
    let img = ImageAsset::from_pixels(3, 2, vec![a, b, c, c, b, a]).unwrap();
    assert_eq!(img.get_pixel(0, 0), Ok(a));
    assert_eq!(img.get_pixel(2, 0), Ok(c));
    assert_eq!(img.get_pixel(0, 1), Ok(c));
    assert_eq!(img.get_pixel(2, 1), Ok(a));
    assert!(!img.is_dirty());
    assert!(ImageAsset::from_pixels(3, 2, vec![a, b, c]).is_none());
    assert!(ImageAsset::from_pixels(0, 0, vec![a]).is_none());
    assert!(ImageAsset::from_pixels(0, 0, vec![]).is_some());
}

#[test]
fn reading_beyond_the_image_is_refused() {
    let img = ImageAsset::new(3, 2, RED);
    assert_eq!(img.get_pixel(3, 0), Err(ImageError::OutOfBounds));
    assert_eq!(img.get_pixel(0, 2), Err(ImageError::OutOfBounds));
    assert_eq!(img.get_pixel(u32::MAX, u32::MAX), Err(ImageError::OutOfBounds));
}

#[test]
fn setting_a_pixel_changes_that_pixel_and_marks_the_image_dirty() {
    let mut img = ImageAsset::new(3, 2, RED);
    assert_eq!(img.set_pixel(2, 1, BLUE), Ok(()));
    assert!(img.is_dirty());
    assert_eq!(img.get_pixel(2, 1), Ok(BLUE));
    assert_eq!(img.get_pixel(1, 1), Ok(RED));
    assert_eq!(img.get_pixel(2, 0), Ok(RED));
    assert!(!img.is_uploaded());
}

#[test]
fn writing_beyond_the_image_is_refused_and_leaves_it_clean() {
    let mut img = ImageAsset::new(3, 2, RED);
    assert_eq!(img.set_pixel(3, 0, BLUE), Err(ImageError::OutOfBounds));
    assert_eq!(img.set_pixel(0, 2, BLUE), Err(ImageError::OutOfBounds));
    assert_eq!(img.set_pixel(-1, 0, BLUE), Err(ImageError::OutOfBounds));
    assert_eq!(img.set_pixel(0, -1, BLUE), Err(ImageError::OutOfBounds));
    assert_eq!(img.set_pixel(1 << 32, 0, BLUE), Err(ImageError::OutOfBounds));
    assert_eq!(img.set_pixel(i64::MAX, i64::MAX, BLUE), Err(ImageError::OutOfBounds));
    assert!(!img.is_dirty());
}

#[test]
fn script_arguments_are_checked_in_order() {
    let mut img = ImageAsset::new(2, 2, RED);
    let bad = vec![ColorArg::Other, ColorArg::Number(0), ColorArg::Number(0)];
    assert_eq!(img.set_pixel_args(-1, 0, &bad), Err(ImageError::OutOfBounds));
    assert_eq!(img.set_pixel_args(0, 0, &bad), Err(ImageError::Color(ColorError::InvalidR)));
    assert_eq!(img.set_pixel_args(9, 9, &bad), Err(ImageError::Color(ColorError::InvalidR)));
    assert_eq!(img.set_pixel_args(9, 9, &rgb(1, 2, 3)), Err(ImageError::OutOfBounds));
    assert_eq!(img.set_pixel_args(1, 1, &rgb(1, 2, 300)), Ok(()));
    assert_eq!(img.get_pixel(1, 1), Ok(Color4 { r: 1, g: 2, b: 255, a: 255 }));
    img.unload();
    assert_eq!(img.set_pixel_args(0, 0, &bad), Err(ImageError::Color(ColorError::InvalidR)));
    assert_eq!(img.set_pixel_args(0, 0, &rgb(1, 2, 3)), Err(ImageError::Unloaded));
    assert_eq!(img.set_pixel_args(-1, 0, &rgb(1, 2, 3)), Err(ImageError::OutOfBounds));
}

#[test]
fn fill_paints_every_pixel_and_marks_the_image_dirty() {
    let mut img = ImageAsset::new(2, 2, RED);
    assert_eq!(img.fill(BLUE), Ok(()));
    assert!(img.is_dirty());
    for y in 0..2 {
        for x in 0..2 {
            assert_eq!(img.get_pixel(x, y), Ok(BLUE));
        }
    }
    assert_eq!(img.fill_args(&rgb(9, 8, 7)), Ok(()));
    assert_eq!(img.get_pixel(1, 0), Ok(Color4 { r: 9, g: 8, b: 7, a: 255 }));
    assert_eq!(img.fill_args(&vec![]), Err(ImageError::Color(ColorError::BadArity(0))));
}

#[test]
fn the_first_use_uploads_and_the_next_does_nothing() {
    let mut img = ImageAsset::new(2, 2, RED);
    assert_eq!(img.ensure_uploaded(), Ok(TextureUpload::Create));
    assert!(img.is_uploaded());
    assert!(!img.is_dirty());
    assert_eq!(img.ensure_uploaded(), Ok(TextureUpload::Nothing));
    assert_eq!(img.ensure_uploaded(), Ok(TextureUpload::Nothing));
}

#[test]
fn a_write_is_uploaded_once() {
    let mut img = ImageAsset::new(2, 2, RED);
    img.ensure_uploaded().unwrap();
    img.set_pixel(0, 0, BLUE).unwrap();
    assert!(img.is_dirty());
    assert_eq!(img.ensure_uploaded(), Ok(TextureUpload::Refresh));
    assert!(!img.is_dirty());
    assert_eq!(img.ensure_uploaded(), Ok(TextureUpload::Nothing));
}

#[test]
fn a_write_before_the_first_use_is_part_of_the_first_upload() {
    let mut img = ImageAsset::new(2, 2, RED);
    img.set_pixel(0, 0, BLUE).unwrap();
    assert_eq!(img.ensure_uploaded(), Ok(TextureUpload::Create));
    assert!(!img.is_dirty());
    assert_eq!(img.ensure_uploaded(), Ok(TextureUpload::Nothing));
}

#[test]
fn an_unloaded_image_is_inert() {
    let mut img = ImageAsset::new(2, 2, RED);
    img.set_pixel(0, 0, BLUE).unwrap();
    img.ensure_uploaded().unwrap();
    img.unload();
    assert!(img.is_unloaded());
    assert!(!img.is_dirty());
    assert!(!img.is_uploaded());
    assert_eq!(img.width(), Err(ImageError::Unloaded));
    assert_eq!(img.height(), Err(ImageError::Unloaded));
    assert_eq!(img.size(), Err(ImageError::Unloaded));
    assert_eq!(img.get_pixel(0, 0), Err(ImageError::Unloaded));
    assert_eq!(img.set_pixel(0, 0, RED), Err(ImageError::Unloaded));
    assert_eq!(img.fill(RED), Err(ImageError::Unloaded));
    assert_eq!(img.ensure_uploaded(), Err(ImageError::Unloaded));
}

#[test]
fn a_reload_brings_an_unloaded_image_back() {
    let mut img = ImageAsset::new(2, 2, RED);
    img.unload();
    assert!(!img.reload(1, 2, vec![BLUE]));
    assert!(img.is_unloaded());
    assert!(img.reload(1, 2, vec![BLUE, RED]));
    assert!(!img.is_unloaded());
    assert!(!img.is_dirty());
    assert_eq!(img.size(), Ok((1, 2)));
    assert_eq!(img.get_pixel(0, 1), Ok(RED));
    assert_eq!(img.ensure_uploaded(), Ok(TextureUpload::Create));
}
