use neolove::color::{clamp_channel, color4, parse_color_args, white, Color4, ColorArg, ColorError};

#[test]
fn channels_are_clamped_into_range() {
    assert_eq!(clamp_channel(-1), 0);
    assert_eq!(clamp_channel(0), 0);
    assert_eq!(clamp_channel(128), 128);
    assert_eq!(clamp_channel(255), 255);
    assert_eq!(clamp_channel(256), 255);
    assert_eq!(clamp_channel(i64::MAX), 255);
    assert_eq!(clamp_channel(i64::MIN), 0);
}

#[test]
fn opacity_is_full_unless_given() {
    assert_eq!(color4(1, 2, 3, None), Color4 { r: 1, g: 2, b: 3, a: 255 });
    assert_eq!(color4(1, 2, 3, Some(4)), Color4 { r: 1, g: 2, b: 3, a: 4 });
    assert_eq!(color4(300, -5, 255, Some(999)), Color4 { r: 255, g: 0, b: 255, a: 255 });
    assert_eq!(white(), Color4 { r: 255, g: 255, b: 255, a: 255 });
}

#[test]
fn a_colour_table_is_read_channel_by_channel() {
    let args = vec![ColorArg::Table { r: 10, g: 20, b: 300, a: -4 }];
    assert_eq!(parse_color_args(&args), Ok(Color4 { r: 10, g: 20, b: 255, a: 0 }));
}

#[test]
fn three_numbers_make_an_opaque_colour() {
    let args = vec![ColorArg::Number(1), ColorArg::Number(2), ColorArg::Number(3)];
    assert_eq!(parse_color_args(&args), Ok(Color4 { r: 1, g: 2, b: 3, a: 255 }));
}

#[test]
fn four_numbers_make_a_colour_with_opacity() {
    let args = vec![ColorArg::Number(1), ColorArg::Number(2), ColorArg::Number(3), ColorArg::Number(4)];
    assert_eq!(parse_color_args(&args), Ok(Color4 { r: 1, g: 2, b: 3, a: 4 }));
}

#[test]
fn the_first_channel_that_is_no_number_is_named() {
    let n = ColorArg::Number(1);
    let o = ColorArg::Other;
    let t = ColorArg::Table { r: 0, g: 0, b: 0, a: 0 };
    assert_eq!(parse_color_args(&vec![o, o, o]), Err(ColorError::InvalidR));
    assert_eq!(parse_color_args(&vec![t, n, n]), Err(ColorError::InvalidR));
    assert_eq!(parse_color_args(&vec![n, o, o]), Err(ColorError::InvalidG));
    assert_eq!(parse_color_args(&vec![n, n, o]), Err(ColorError::InvalidB));
    assert_eq!(parse_color_args(&vec![n, n, o, o]), Err(ColorError::InvalidB));
    assert_eq!(parse_color_args(&vec![n, n, n, o]), Err(ColorError::InvalidA));
    assert_eq!(parse_color_args(&vec![n, n, n, t]), Err(ColorError::InvalidA));
}

#[test]
fn any_other_count_of_arguments_is_refused_with_the_count() {
    let n = ColorArg::Number(1);
    assert_eq!(parse_color_args(&vec![]), Err(ColorError::BadArity(0)));
    assert_eq!(parse_color_args(&vec![n]), Err(ColorError::BadArity(1)));
    assert_eq!(parse_color_args(&vec![ColorArg::Other]), Err(ColorError::BadArity(1)));
    assert_eq!(parse_color_args(&vec![n, n]), Err(ColorError::BadArity(2)));
    assert_eq!(parse_color_args(&vec![n, n, n, n, n]), Err(ColorError::BadArity(5)));
    let t = ColorArg::Table { r: 0, g: 0, b: 0, a: 0 };
    assert_eq!(parse_color_args(&vec![t, t]), Err(ColorError::BadArity(2)));
}
