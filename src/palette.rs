use vstd::prelude::*;
use crate::types::Rgb;

verus! {

/// Number of entries in the ANSI palette.
pub const PALETTE_SIZE: usize = 256;

/// A neutral color with all three channels at `v`.
pub open spec fn gray(v: int) -> Rgb {
    Rgb { r: v as u8, g: v as u8, b: v as u8 }
}

/// The sixteen system colors, in their canonical order.
pub open spec fn system_color(i: int) -> Rgb {
    if i == 0 {
        Rgb { r: 0, g: 0, b: 0 }
    } else if i == 1 {
        Rgb { r: 128, g: 0, b: 0 }
    } else if i == 2 {
        Rgb { r: 0, g: 128, b: 0 }
    } else if i == 3 {
        Rgb { r: 128, g: 128, b: 0 }
    } else if i == 4 {
        Rgb { r: 0, g: 0, b: 128 }
    } else if i == 5 {
        Rgb { r: 128, g: 0, b: 128 }
    } else if i == 6 {
        Rgb { r: 0, g: 128, b: 128 }
    } else if i == 7 {
        Rgb { r: 192, g: 192, b: 192 }
    } else if i == 8 {
        Rgb { r: 128, g: 128, b: 128 }
    } else if i == 9 {
        Rgb { r: 255, g: 0, b: 0 }
    } else if i == 10 {
        Rgb { r: 0, g: 255, b: 0 }
    } else if i == 11 {
        Rgb { r: 255, g: 255, b: 0 }
    } else if i == 12 {
        Rgb { r: 0, g: 0, b: 255 }
    } else if i == 13 {
        Rgb { r: 255, g: 0, b: 255 }
    } else if i == 14 {
        Rgb { r: 0, g: 255, b: 255 }
    } else {
        Rgb { r: 255, g: 255, b: 255 }
    }
}

/// Channel value of a color-cube level in 0..6.
pub open spec fn cube_level(l: int) -> int {
    if l == 0 {
        0
    } else {
        55 + 40 * l
    }
}

/// Entry `i` of the ANSI-256 palette: system colors, then the 6x6x6 cube
/// (red major, blue minor), then the 24-step gray ramp.
pub open spec fn palette_entry(i: int) -> Rgb {
    if i < 16 {
        system_color(i)
    } else if i < 232 {
        let k = i - 16;
        Rgb {
            r: cube_level(k / 36) as u8,
            g: cube_level((k / 6) % 6) as u8,
            b: cube_level(k % 6) as u8,
        }
    } else {
        gray(8 + 10 * (i - 232))
    }
}

/// The palette as a sequence.
pub open spec fn palette_spec() -> Seq<Rgb> {
    Seq::new(256, |i: int| palette_entry(i))
}

fn cube_channel(l: usize) -> (v: u8)
    requires
        l < 6,
    ensures
        v == cube_level(l as int),
{
    if l == 0 {
        0
    } else {
        (55 + 40 * l) as u8
    }
}

/// Builds the 256-entry ANSI palette.
pub fn generate_ansi_palette() -> (p: Vec<Rgb>)
    ensures
        p@ == palette_spec(),
{
    let mut p: Vec<Rgb> = Vec::with_capacity(PALETTE_SIZE);
    p.push(Rgb::new(0, 0, 0));
    p.push(Rgb::new(128, 0, 0));
    p.push(Rgb::new(0, 128, 0));
    p.push(Rgb::new(128, 128, 0));
    p.push(Rgb::new(0, 0, 128));
    p.push(Rgb::new(128, 0, 128));
    p.push(Rgb::new(0, 128, 128));
    p.push(Rgb::new(192, 192, 192));
    p.push(Rgb::new(128, 128, 128));
    p.push(Rgb::new(255, 0, 0));
    p.push(Rgb::new(0, 255, 0));
    p.push(Rgb::new(255, 255, 0));
    p.push(Rgb::new(0, 0, 255));
    p.push(Rgb::new(255, 0, 255));
    p.push(Rgb::new(0, 255, 255));
    p.push(Rgb::new(255, 255, 255));
    assert(forall|j: int| 0 <= j < 16 ==> p@[j] == palette_entry(j));
    let mut k: usize = 0;
    while k < 216
        invariant
            k <= 216,
            p@.len() == 16 + k,
            forall|j: int| 0 <= j < 16 + k ==> p@[j] == palette_entry(j),
        decreases 216 - k,
    {
        let c = Rgb::new(cube_channel(k / 36), cube_channel((k / 6) % 6), cube_channel(k % 6));
        p.push(c);
        k = k + 1;
    }
    let mut i: usize = 0;
    while i < 24
        invariant
            i <= 24,
            p@.len() == 232 + i,
            forall|j: int| 0 <= j < 232 + i ==> p@[j] == palette_entry(j),
        decreases 24 - i,
    {
        let v = (8 + 10 * i) as u8;
        p.push(Rgb::new(v, v, v));
        i = i + 1;
    }
    assert(p@ =~= palette_spec());
    p
}

} // verus!
