use vstd::prelude::*;

verus! {

/// Color of one intensity level as (red, green, blue, alpha) bytes.
///
/// Level 0 is near-black, the ramp climbs through dark red, orange and
/// yellow, and level 36 is pure white. Levels below 0 or above 36 are
/// mapped to the two ends so the function is total; `palette` only ever
/// samples it on 0..=36.
pub open spec fn color_spec(level: int) -> (u8, u8, u8, u8) {
    if level <= 0 { (0x07, 0x07, 0x07, 0xFF) }
    else if level == 1 { (0x1F, 0x07, 0x07, 0xFF) }
    else if level == 2 { (0x2F, 0x0F, 0x07, 0xFF) }
    else if level == 3 { (0x47, 0x0F, 0x07, 0xFF) }
    else if level == 4 { (0x57, 0x17, 0x07, 0xFF) }
    else if level == 5 { (0x67, 0x1F, 0x07, 0xFF) }
    else if level == 6 { (0x77, 0x1F, 0x07, 0xFF) }
    else if level == 7 { (0x8F, 0x27, 0x07, 0xFF) }
    else if level == 8 { (0x9F, 0x2F, 0x07, 0xFF) }
    else if level == 9 { (0xAF, 0x3F, 0x07, 0xFF) }
    else if level == 10 { (0xBF, 0x47, 0x07, 0xFF) }
    else if level == 11 { (0xC7, 0x47, 0x07, 0xFF) }
    else if level == 12 { (0xDF, 0x4F, 0x07, 0xFF) }
    else if level == 13 { (0xDF, 0x57, 0x07, 0xFF) }
    else if level == 14 { (0xDF, 0x57, 0x07, 0xFF) }
    else if level == 15 { (0xD7, 0x5F, 0x07, 0xFF) }
    else if level == 16 { (0xD7, 0x5F, 0x07, 0xFF) }
    else if level == 17 { (0xD7, 0x67, 0x0F, 0xFF) }
    else if level == 18 { (0xCF, 0x6F, 0x0F, 0xFF) }
    else if level == 19 { (0xCF, 0x77, 0x0F, 0xFF) }
    else if level == 20 { (0xCF, 0x7F, 0x0F, 0xFF) }
    else if level == 21 { (0xCF, 0x87, 0x17, 0xFF) }
    else if level == 22 { (0xC7, 0x87, 0x17, 0xFF) }
    else if level == 23 { (0xC7, 0x8F, 0x17, 0xFF) }
    else if level == 24 { (0xC7, 0x97, 0x1F, 0xFF) }
    else if level == 25 { (0xBF, 0x9F, 0x1F, 0xFF) }
    else if level == 26 { (0xBF, 0x9F, 0x1F, 0xFF) }
    else if level == 27 { (0xBF, 0xA7, 0x27, 0xFF) }
    else if level == 28 { (0xBF, 0xA7, 0x27, 0xFF) }
    else if level == 29 { (0xBF, 0xAF, 0x2F, 0xFF) }
    else if level == 30 { (0xB7, 0xAF, 0x2F, 0xFF) }
    else if level == 31 { (0xB7, 0xB7, 0x2F, 0xFF) }
    else if level == 32 { (0xB7, 0xB7, 0x37, 0xFF) }
    else if level == 33 { (0xCF, 0xCF, 0x6F, 0xFF) }
    else if level == 34 { (0xDF, 0xDF, 0x9F, 0xFF) }
    else if level == 35 { (0xEF, 0xEF, 0xC7, 0xFF) }
    else { (0xFF, 0xFF, 0xFF, 0xFF) }
}

/// The fixed fire palette: an ordered sequence of exactly 37 RGBA colors,
/// indexed by intensity level, never mutated.
pub open spec fn palette() -> Seq<(u8, u8, u8, u8)> {
    Seq::new(37, |i: int| color_spec(i))
}

/// One byte of a palette color: component 0 is red, 1 green, 2 blue, and
/// anything else alpha.
pub open spec fn color_component(level: usize, k: int) -> u8 {
    let c = color_spec(level as int);
    if k == 0 {
        c.0
    } else if k == 1 {
        c.1
    } else if k == 2 {
        c.2
    } else {
        c.3
    }
}

/// Looks the color of an intensity level up in the palette.
pub fn color_of(level: usize) -> (c: (u8, u8, u8, u8))
    requires
        level < 37,
    ensures
        c == palette()[level as int],
{
    match level {
        0 => (0x07, 0x07, 0x07, 0xFF),
        1 => (0x1F, 0x07, 0x07, 0xFF),
        2 => (0x2F, 0x0F, 0x07, 0xFF),
        3 => (0x47, 0x0F, 0x07, 0xFF),
        4 => (0x57, 0x17, 0x07, 0xFF),
        5 => (0x67, 0x1F, 0x07, 0xFF),
        6 => (0x77, 0x1F, 0x07, 0xFF),
        7 => (0x8F, 0x27, 0x07, 0xFF),
        8 => (0x9F, 0x2F, 0x07, 0xFF),
        9 => (0xAF, 0x3F, 0x07, 0xFF),
        10 => (0xBF, 0x47, 0x07, 0xFF),
        11 => (0xC7, 0x47, 0x07, 0xFF),
        12 => (0xDF, 0x4F, 0x07, 0xFF),
        13 => (0xDF, 0x57, 0x07, 0xFF),
        14 => (0xDF, 0x57, 0x07, 0xFF),
        15 => (0xD7, 0x5F, 0x07, 0xFF),
        16 => (0xD7, 0x5F, 0x07, 0xFF),
        17 => (0xD7, 0x67, 0x0F, 0xFF),
        18 => (0xCF, 0x6F, 0x0F, 0xFF),
        19 => (0xCF, 0x77, 0x0F, 0xFF),
        20 => (0xCF, 0x7F, 0x0F, 0xFF),
        21 => (0xCF, 0x87, 0x17, 0xFF),
        22 => (0xC7, 0x87, 0x17, 0xFF),
        23 => (0xC7, 0x8F, 0x17, 0xFF),
        24 => (0xC7, 0x97, 0x1F, 0xFF),
        25 => (0xBF, 0x9F, 0x1F, 0xFF),
        26 => (0xBF, 0x9F, 0x1F, 0xFF),
        27 => (0xBF, 0xA7, 0x27, 0xFF),
        28 => (0xBF, 0xA7, 0x27, 0xFF),
        29 => (0xBF, 0xAF, 0x2F, 0xFF),
        30 => (0xB7, 0xAF, 0x2F, 0xFF),
        31 => (0xB7, 0xB7, 0x2F, 0xFF),
        32 => (0xB7, 0xB7, 0x37, 0xFF),
        33 => (0xCF, 0xCF, 0x6F, 0xFF),
        34 => (0xDF, 0xDF, 0x9F, 0xFF),
        35 => (0xEF, 0xEF, 0xC7, 0xFF),
        _ => (0xFF, 0xFF, 0xFF, 0xFF),
    }
}

/// The palette holds exactly 37 colors, near-black at the cold end and pure
/// white at the hot end.
pub proof fn lemma_palette_fixture()
    ensures
        palette().len() == 37,
        palette()[0] == (0x07u8, 0x07u8, 0x07u8, 0xFFu8),
        palette()[36] == (0xFFu8, 0xFFu8, 0xFFu8, 0xFFu8),
{
}

} // verus!
