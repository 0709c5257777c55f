//! Colours with four 8-bit channels, and the forms in which a script may
//! write one.

use vstd::prelude::*;

verus! {

/// A colour: red, green, blue and opacity, each from 0 to 255.
#[derive(Clone, Copy, Debug, PartialEq, Eq, Structural)]
pub struct Color4 {
    pub r: u8,
    pub g: u8,
    pub b: u8,
    pub a: u8,
}

/// One argument of a script call, as far as colours are concerned.
#[derive(Clone, Copy, Debug, PartialEq, Eq, Structural)]
pub enum ColorArg {
    /// A colour table with its four channels as written.
    Table { r: i64, g: i64, b: i64, a: i64 },
    /// A number.
    Number(i64),
    /// Anything else.
    Other,
}

/// Why a list of arguments names no colour.
#[derive(Clone, Copy, Debug, PartialEq, Eq, Structural)]
pub enum ColorError {
    /// The red channel is no number.
    InvalidR,
    /// The green channel is no number.
    InvalidG,
    /// The blue channel is no number.
    InvalidB,
    /// The opacity is no number.
    InvalidA,
    /// Neither one colour table nor three or four numbers: the count given.
    BadArity(usize),
}

/// The channel value nearest to `v`.
pub open spec fn clamped(v: i64) -> u8 {
    if v < 0 {
        0u8
    } else if v > 255 {
        255u8
    } else {
        v as u8
    }
}

/// The colour with each channel clamped into range.
pub open spec fn clamped_color(r: i64, g: i64, b: i64, a: i64) -> Color4 {
    Color4 { r: clamped(r), g: clamped(g), b: clamped(b), a: clamped(a) }
}

/// The colour that a list of arguments names: one colour table, or red,
/// green and blue with the opacity optional and full when absent. Channels
/// out of range are clamped. Numbers are checked in the order red, green,
/// blue, opacity.
pub open spec fn color_of_args(args: Seq<ColorArg>) -> Result<Color4, ColorError> {
    if args.len() == 1 && args[0] is Table {
        Ok(clamped_color(args[0]->r, args[0]->g, args[0]->b, args[0]->a))
    } else if args.len() == 3 || args.len() == 4 {
        if !(args[0] is Number) {
            Err(ColorError::InvalidR)
        } else if !(args[1] is Number) {
            Err(ColorError::InvalidG)
        } else if !(args[2] is Number) {
            Err(ColorError::InvalidB)
        } else if args.len() == 4 && !(args[3] is Number) {
            Err(ColorError::InvalidA)
        } else {
            Ok(clamped_color(args[0]->0, args[1]->0, args[2]->0, if args.len() == 4 { args[3]->0 } else { 255i64 }))
        }
    } else {
        Err(ColorError::BadArity(args.len() as usize))
    }
}

/// Opaque white, the colour of a new image when none is given.
pub fn white() -> (c: Color4)
    ensures
        c == (Color4 { r: 255, g: 255, b: 255, a: 255 }),
{
    Color4 { r: 255, g: 255, b: 255, a: 255 }
}

/// Clamps a channel into range.
pub fn clamp_channel(v: i64) -> (c: u8)
    ensures
        c == clamped(v),
{
    if v < 0 {
        0
    } else if v > 255 {
        255
    } else {
        v as u8
    }
}

/// The colour with the given channels, each clamped into range; the opacity
/// is full when absent.
pub fn color4(r: i64, g: i64, b: i64, a: Option<i64>) -> (c: Color4)
    ensures
        c == clamped_color(r, g, b, if a is Some { a->0 } else { 255i64 }),
{
    let alpha = match a {
        Some(v) => v,
        None => 255,
    };
    Color4 { r: clamp_channel(r), g: clamp_channel(g), b: clamp_channel(b), a: clamp_channel(alpha) }
}

fn number(arg: &ColorArg) -> (v: Option<i64>)
    ensures
        v is Some <==> *arg is Number,
        v matches Some(n) ==> n == arg->0,
{
    match arg {
        ColorArg::Number(n) => Some(*n),
        _ => None,
    }
}

/// Reads a colour from the arguments of a script call.
pub fn parse_color_args(args: &Vec<ColorArg>) -> (r: Result<Color4, ColorError>)
    ensures
        r == color_of_args(args@),
{
    let n = args.len();
    if n == 1 {
        match args[0] {
            ColorArg::Table { r, g, b, a } => {
                return Ok(color4(r, g, b, Some(a)));
            },
            _ => {},
        }
    }
    if n == 3 || n == 4 {
        let r = match number(&args[0]) {
            Some(v) => v,
            None => {
                return Err(ColorError::InvalidR);
            },
        };
        let g = match number(&args[1]) {
            Some(v) => v,
            None => {
                return Err(ColorError::InvalidG);
            },
        };
        let b = match number(&args[2]) {
            Some(v) => v,
            None => {
                return Err(ColorError::InvalidB);
            },
        };
        if n == 4 {
            match number(&args[3]) {
                Some(a) => Ok(color4(r, g, b, Some(a))),
                None => Err(ColorError::InvalidA),
            }
        } else {
            Ok(color4(r, g, b, None))
        }
    } else {
        Err(ColorError::BadArity(n))
    }
}

} // verus!
