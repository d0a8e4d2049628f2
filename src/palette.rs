use embedded_graphics::pixelcolor::{Rgb565, Rgb888};
use embedded_graphics::prelude::IntoStorage;
use vstd::prelude::*;

verus! {

/// The hottest intensity level; levels run from 0 (coolest) to this value.
pub const MAX_LEVEL: u8 = 36;

/// The RGBA color of an intensity level: 0 is near-black, `MAX_LEVEL` is white.
/// Levels above `MAX_LEVEL` do not occur in a well-formed grid.
pub open spec fn pallet_spec(level: u8) -> Seq<u8> {
    match level {
        0 => seq![0x07, 0x07, 0x07, 0xFF],
        1 => seq![0x1F, 0x07, 0x07, 0xFF],
        2 => seq![0x2F, 0x0F, 0x07, 0xFF],
        3 => seq![0x47, 0x0F, 0x07, 0xFF],
        4 => seq![0x57, 0x17, 0x07, 0xFF],
        5 => seq![0x67, 0x1F, 0x07, 0xFF],
        6 => seq![0x77, 0x1F, 0x07, 0xFF],
        7 => seq![0x8F, 0x27, 0x07, 0xFF],
        8 => seq![0x9F, 0x2F, 0x07, 0xFF],
        9 => seq![0xAF, 0x3F, 0x07, 0xFF],
        10 => seq![0xBF, 0x47, 0x07, 0xFF],
        11 => seq![0xC7, 0x47, 0x07, 0xFF],
        12 => seq![0xDF, 0x4F, 0x07, 0xFF],
        13 => seq![0xDF, 0x57, 0x07, 0xFF],
        14 => seq![0xDF, 0x57, 0x07, 0xFF],
        15 => seq![0xD7, 0x5F, 0x07, 0xFF],
        16 => seq![0xD7, 0x5F, 0x07, 0xFF],
        17 => seq![0xD7, 0x67, 0x0F, 0xFF],
        18 => seq![0xCF, 0x6F, 0x0F, 0xFF],
        19 => seq![0xCF, 0x77, 0x0F, 0xFF],
        20 => seq![0xCF, 0x7F, 0x0F, 0xFF],
        21 => seq![0xCF, 0x87, 0x17, 0xFF],
        22 => seq![0xC7, 0x87, 0x17, 0xFF],
        23 => seq![0xC7, 0x8F, 0x17, 0xFF],
        24 => seq![0xC7, 0x97, 0x1F, 0xFF],
        25 => seq![0xBF, 0x9F, 0x1F, 0xFF],
        26 => seq![0xBF, 0x9F, 0x1F, 0xFF],
        27 => seq![0xBF, 0xA7, 0x27, 0xFF],
        28 => seq![0xBF, 0xA7, 0x27, 0xFF],
        29 => seq![0xBF, 0xAF, 0x2F, 0xFF],
        30 => seq![0xB7, 0xAF, 0x2F, 0xFF],
        31 => seq![0xB7, 0xB7, 0x2F, 0xFF],
        32 => seq![0xB7, 0xB7, 0x37, 0xFF],
        33 => seq![0xCF, 0xCF, 0x6F, 0xFF],
        34 => seq![0xDF, 0xDF, 0x9F, 0xFF],
        35 => seq![0xEF, 0xEF, 0xC7, 0xFF],
        _ => seq![0xFF, 0xFF, 0xFF, 0xFF],
    }
}

/// Looks up the RGBA color of an intensity level.
pub fn pallet(level: u8) -> (c: [u8; 4])
    requires
        level <= MAX_LEVEL,
    ensures
        c@ == pallet_spec(level),
{
    match level {
        0 => [0x07, 0x07, 0x07, 0xFF],
        1 => [0x1F, 0x07, 0x07, 0xFF],
        2 => [0x2F, 0x0F, 0x07, 0xFF],
        3 => [0x47, 0x0F, 0x07, 0xFF],
        4 => [0x57, 0x17, 0x07, 0xFF],
        5 => [0x67, 0x1F, 0x07, 0xFF],
        6 => [0x77, 0x1F, 0x07, 0xFF],
        7 => [0x8F, 0x27, 0x07, 0xFF],
        8 => [0x9F, 0x2F, 0x07, 0xFF],
        9 => [0xAF, 0x3F, 0x07, 0xFF],
        10 => [0xBF, 0x47, 0x07, 0xFF],
        11 => [0xC7, 0x47, 0x07, 0xFF],
        12 => [0xDF, 0x4F, 0x07, 0xFF],
        13 => [0xDF, 0x57, 0x07, 0xFF],
        14 => [0xDF, 0x57, 0x07, 0xFF],
        15 => [0xD7, 0x5F, 0x07, 0xFF],
        16 => [0xD7, 0x5F, 0x07, 0xFF],
        17 => [0xD7, 0x67, 0x0F, 0xFF],
        18 => [0xCF, 0x6F, 0x0F, 0xFF],
        19 => [0xCF, 0x77, 0x0F, 0xFF],
        20 => [0xCF, 0x7F, 0x0F, 0xFF],
        21 => [0xCF, 0x87, 0x17, 0xFF],
        22 => [0xC7, 0x87, 0x17, 0xFF],
        23 => [0xC7, 0x8F, 0x17, 0xFF],
        24 => [0xC7, 0x97, 0x1F, 0xFF],
        25 => [0xBF, 0x9F, 0x1F, 0xFF],
        26 => [0xBF, 0x9F, 0x1F, 0xFF],
        27 => [0xBF, 0xA7, 0x27, 0xFF],
        28 => [0xBF, 0xA7, 0x27, 0xFF],
        29 => [0xBF, 0xAF, 0x2F, 0xFF],
        30 => [0xB7, 0xAF, 0x2F, 0xFF],
        31 => [0xB7, 0xB7, 0x2F, 0xFF],
        32 => [0xB7, 0xB7, 0x37, 0xFF],
        33 => [0xCF, 0xCF, 0x6F, 0xFF],
        34 => [0xDF, 0xDF, 0x9F, 0xFF],
        35 => [0xEF, 0xEF, 0xC7, 0xFF],
        _ => [0xFF, 0xFF, 0xFF, 0xFF],
    }
}

/// One 8-bit color channel rescaled to the range `0..=max`, rounded to the nearest
/// step, as computed in 24-bit fixed point by embedded-graphics.
pub open spec fn channel_from_8bit(v: u8, max: int) -> int {
    (v * ((max * 0x100_0000) / 255) + 0x80_0000) / 0x100_0000
}

/// The 16-bit RGB565 storage value of an RGB888 color: red in the top 5 bits,
/// green in the middle 6, blue in the low 5.
pub open spec fn rgb565_spec(r: u8, g: u8, b: u8) -> u16 {
    (channel_from_8bit(r, 31) * 0x800 + channel_from_8bit(g, 63) * 0x20 + channel_from_8bit(
        b,
        31,
    )) as u16
}

/// Relies on embedded-graphics' `From<Rgb888> for Rgb565`, which rescales each
/// channel with `convert_channel`, and on `IntoStorage::into_storage`, which packs
/// the channels of an `Rgb565` as 5:6:5 bits.
#[verifier::external_body]
pub(crate) fn rgb565_raw(r: u8, g: u8, b: u8) -> (c: u16)
    ensures
        c == rgb565_spec(r, g, b),
{
    Rgb565::from(Rgb888::new(r, g, b)).into_storage()
}

} // verus!
