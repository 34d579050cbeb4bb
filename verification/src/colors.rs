//! The fixed terminal color palette and the resolver from color tokens to
//! sRGB triples.
//!
//! The palette has 269 entries: 16 named colors (Solarized Dark), a 6x6x6
//! color cube, a 24-step gray ramp, and 13 special named entries (default
//! foreground, default background, cursor, the dim and bright variants).

use vstd::prelude::*;

verus! {

/// A color in the sRGB color space.
#[derive(Clone, Copy, Debug, PartialEq, Eq, Structural)]
pub struct Rgb {
    pub r: u8,
    pub g: u8,
    pub b: u8,
}

/// A color token as produced by the terminal emulator: either one of the
/// named palette entries, an indexed palette entry, or a direct sRGB value.
#[derive(Clone, Copy, Debug, PartialEq, Eq, Structural)]
pub enum Color {
    /// A named palette entry; the index is the conventional code of the name
    /// (0..=15 for the base colors, 256..=268 for the special entries).
    Named(u16),
    /// One of the 256 indexed palette entries.
    Indexed(u8),
    /// A direct 24-bit sRGB color.
    Direct(Rgb),
}

/// The 16 base named colors (Solarized Dark) and, for indices 256..=268, the
/// special named entries.
pub open spec fn named_entry(i: int) -> Rgb {
    if i == 0 {
        Rgb { r: 0x07, g: 0x36, b: 0x42 }
    } else if i == 1 {
        Rgb { r: 0xdc, g: 0x32, b: 0x2f }
    } else if i == 2 {
        Rgb { r: 0x85, g: 0x99, b: 0x00 }
    } else if i == 3 {
        Rgb { r: 0xb5, g: 0x89, b: 0x00 }
    } else if i == 4 {
        Rgb { r: 0x26, g: 0x8b, b: 0xd2 }
    } else if i == 5 {
        Rgb { r: 0xd3, g: 0x36, b: 0x82 }
    } else if i == 6 {
        Rgb { r: 0x2a, g: 0xa1, b: 0x98 }
    } else if i == 7 {
        Rgb { r: 0xee, g: 0xe8, b: 0xd5 }
    } else if i == 8 {
        Rgb { r: 0x00, g: 0x2b, b: 0x36 }
    } else if i == 9 {
        Rgb { r: 0xcb, g: 0x4b, b: 0x16 }
    } else if i == 10 {
        Rgb { r: 0x58, g: 0x6e, b: 0x75 }
    } else if i == 11 {
        Rgb { r: 0x65, g: 0x7b, b: 0x83 }
    } else if i == 12 {
        Rgb { r: 0x83, g: 0x94, b: 0x96 }
    } else if i == 13 {
        Rgb { r: 0x6c, g: 0x71, b: 0xc4 }
    } else if i == 14 {
        Rgb { r: 0x93, g: 0xa1, b: 0xa1 }
    } else if i == 15 {
        Rgb { r: 0xfd, g: 0xf6, b: 0xe3 }
    } else if i == 256 {
        // default foreground
        Rgb { r: 0x83, g: 0x94, b: 0x96 }
    } else if i == 257 {
        // default background
        Rgb { r: 0x00, g: 0x2b, b: 0x36 }
    } else if i == 258 {
        // cursor
        Rgb { r: 0x83, g: 0x94, b: 0x96 }
    } else if i == 259 {
        // dim black
        Rgb { r: 0x07, g: 0x36, b: 0x42 }
    } else if i == 260 {
        // dim red
        Rgb { r: 0xdc, g: 0x32, b: 0x2f }
    } else if i == 261 {
        // dim green
        Rgb { r: 0x85, g: 0x99, b: 0x00 }
    } else if i == 262 {
        // dim yellow
        Rgb { r: 0xb5, g: 0x89, b: 0x00 }
    } else if i == 263 {
        // dim blue
        Rgb { r: 0x26, g: 0x8b, b: 0xd2 }
    } else if i == 264 {
        // dim magenta
        Rgb { r: 0xd3, g: 0x36, b: 0x82 }
    } else if i == 265 {
        // dim cyan
        Rgb { r: 0x2a, g: 0xa1, b: 0x98 }
    } else if i == 266 {
        // dim white
        Rgb { r: 0xee, g: 0xe8, b: 0xd5 }
    } else if i == 267 {
        // bright foreground
        Rgb { r: 0x83, g: 0x94, b: 0x96 }
    } else {
        // dim foreground
        Rgb { r: 0x83, g: 0x94, b: 0x96 }
    }
}

/// One axis value of the 6x6x6 color cube.
pub open spec fn cube_axis(a: int) -> u8 {
    if a == 0 {
        0u8
    } else {
        (40 * a + 55) as u8
    }
}

/// Entry `k` (0..=215) of the 6x6x6 color cube.
pub open spec fn cube_entry(k: int) -> Rgb {
    Rgb { r: cube_axis(k / 36), g: cube_axis((k / 6) % 6), b: cube_axis(k % 6) }
}

/// Entry `j` (0..=23) of the gray ramp.
pub open spec fn gray_entry(j: int) -> Rgb {
    Rgb { r: (10 * j + 8) as u8, g: (10 * j + 8) as u8, b: (10 * j + 8) as u8 }
}

/// The full 269-entry palette.
pub open spec fn palette_spec(i: int) -> Rgb {
    if 0 <= i < 16 {
        named_entry(i)
    } else if 16 <= i < 232 {
        cube_entry(i - 16)
    } else if 232 <= i < 256 {
        gray_entry(i - 232)
    } else {
        named_entry(i)
    }
}

/// What a color token resolves to under the fixed palette. A named token
/// outside the palette range resolves to black; the emulator never produces
/// one.
pub open spec fn resolve_spec(c: Color) -> Rgb {
    match c {
        Color::Named(n) => if n < 269 {
            palette_spec(n as int)
        } else {
            Rgb { r: 0, g: 0, b: 0 }
        },
        Color::Indexed(i) => palette_spec(i as int),
        Color::Direct(rgb) => rgb,
    }
}

/// The terminal color table: palette entries indexed by color code.
pub struct Colors {
    table: Vec<Rgb>,
}

impl Colors {
    /// The table holds exactly the fixed palette.
    pub closed spec fn wf(&self) -> bool {
        &&& self.table@.len() == 269
    &&& forall|i: int| 0 <= i < 269 ==> self.table@[i] == palette_spec(i)
    }

    /// Generate the terminal color table.
    pub fn new() -> (r: Colors)
        ensures
            r.wf(),
    {
        let mut table: Vec<Rgb> = Vec::new();
        let mut i: usize = 0;
        while i < 269
            invariant
                table@.len() == i,
                i <= 269,
            decreases 269 - i,
        {
            table.push(Rgb { r: 0, g: 0, b: 0 });
            i = i + 1;
        }
        fill_named(&mut table);
        fill_cube(&mut table);
        fill_gray_ramp(&mut table);
        Colors { table }
    }

    /// Resolve a color token to its sRGB value.
    pub fn to_rgb(&self, color: Color) -> (r: Rgb)
        requires
            self.wf(),
        ensures
            r == resolve_spec(color),
    {
        match color {
            Color::Named(n) => if n < 269 {
                self.table[n as usize]
            } else {
                Rgb { r: 0, g: 0, b: 0 }
            },
            Color::Indexed(i) => self.table[i as usize],
            Color::Direct(rgb) => rgb,
        }
    }
}

impl Default for Colors {
    /// Generate the terminal color table.
    fn default() -> (r: Colors)
        ensures
            r.wf(),
    {
        Colors::new()
    }
}

/// Fill the named terminal colors (Solarized Dark theme) and the special
/// named entries.
fn fill_named(table: &mut Vec<Rgb>)
    requires
        old(table)@.len() == 269,
    ensures
        final(table)@.len() == 269,
        forall|i: int| 0 <= i < 16 ==> final(table)@[i] == named_entry(i),
        forall|i: int| 256 <= i < 269 ==> final(table)@[i] == named_entry(i),
        forall|i: int| 16 <= i < 256 ==> final(table)@[i] == old(table)@[i],
{
    table.set(0, Rgb { r: 0x07, g: 0x36, b: 0x42 });
    table.set(1, Rgb { r: 0xdc, g: 0x32, b: 0x2f });
    table.set(2, Rgb { r: 0x85, g: 0x99, b: 0x00 });
    table.set(3, Rgb { r: 0xb5, g: 0x89, b: 0x00 });
    table.set(4, Rgb { r: 0x26, g: 0x8b, b: 0xd2 });
    table.set(5, Rgb { r: 0xd3, g: 0x36, b: 0x82 });
    table.set(6, Rgb { r: 0x2a, g: 0xa1, b: 0x98 });
    table.set(7, Rgb { r: 0xee, g: 0xe8, b: 0xd5 });
    table.set(8, Rgb { r: 0x00, g: 0x2b, b: 0x36 });
    table.set(9, Rgb { r: 0xcb, g: 0x4b, b: 0x16 });
    table.set(10, Rgb { r: 0x58, g: 0x6e, b: 0x75 });
    table.set(11, Rgb { r: 0x65, g: 0x7b, b: 0x83 });
    table.set(12, Rgb { r: 0x83, g: 0x94, b: 0x96 });
    table.set(13, Rgb { r: 0x6c, g: 0x71, b: 0xc4 });
    table.set(14, Rgb { r: 0x93, g: 0xa1, b: 0xa1 });
    table.set(15, Rgb { r: 0xfd, g: 0xf6, b: 0xe3 });
    table.set(256, Rgb { r: 0x83, g: 0x94, b: 0x96 });
    table.set(257, Rgb { r: 0x00, g: 0x2b, b: 0x36 });
    table.set(258, Rgb { r: 0x83, g: 0x94, b: 0x96 });
    table.set(259, Rgb { r: 0x07, g: 0x36, b: 0x42 });
    table.set(260, Rgb { r: 0xdc, g: 0x32, b: 0x2f });
    table.set(261, Rgb { r: 0x85, g: 0x99, b: 0x00 });
    table.set(262, Rgb { r: 0xb5, g: 0x89, b: 0x00 });
    table.set(263, Rgb { r: 0x26, g: 0x8b, b: 0xd2 });
    table.set(264, Rgb { r: 0xd3, g: 0x36, b: 0x82 });
    table.set(265, Rgb { r: 0x2a, g: 0xa1, b: 0x98 });
    table.set(266, Rgb { r: 0xee, g: 0xe8, b: 0xd5 });
    table.set(267, Rgb { r: 0x83, g: 0x94, b: 0x96 });
    table.set(268, Rgb { r: 0x83, g: 0x94, b: 0x96 });
}

/// Fill the 6x6x6 color cube (entries 16..=231).
fn fill_cube(table: &mut Vec<Rgb>)
    requires
        old(table)@.len() == 269,
    ensures
        final(table)@.len() == 269,
        forall|i: int| 16 <= i < 232 ==> final(table)@[i] == cube_entry(i - 16),
        forall|i: int| 0 <= i < 16 ==> final(table)@[i] == old(table)@[i],
        forall|i: int| 232 <= i < 269 ==> final(table)@[i] == old(table)@[i],
{
    let mut k: usize = 0;
    while k < 216
        invariant
            table@.len() == 269,
            k <= 216,
            forall|i: int| 16 <= i < 16 + k ==> table@[i] == cube_entry(i - 16),
            forall|i: int| 0 <= i < 16 ==> table@[i] == old(table)@[i],
            forall|i: int| 16 + k <= i < 269 ==> table@[i] == old(table)@[i],
        decreases 216 - k,
    {
        let ra: usize = k / 36;
        let ga: usize = (k / 6) % 6;
        let ba: usize = k % 6;
        let r: u8 = if ra == 0 { 0 } else { (40 * ra + 55) as u8 };
        let g: u8 = if ga == 0 { 0 } else { (40 * ga + 55) as u8 };
        let b: u8 = if ba == 0 { 0 } else { (40 * ba + 55) as u8 };
        table.set(16 + k, Rgb { r, g, b });
        k = k + 1;
    }
}

/// Fill the 24-step gray ramp (entries 232..=255).
fn fill_gray_ramp(table: &mut Vec<Rgb>)
    requires
        old(table)@.len() == 269,
    ensures
        final(table)@.len() == 269,
        forall|i: int| 232 <= i < 256 ==> final(table)@[i] == gray_entry(i - 232),
        forall|i: int| 0 <= i < 232 ==> final(table)@[i] == old(table)@[i],
        forall|i: int| 256 <= i < 269 ==> final(table)@[i] == old(table)@[i],
{
    let mut j: usize = 0;
    while j < 24
        invariant
            table@.len() == 269,
            j <= 24,
            forall|i: int| 232 <= i < 232 + j ==> table@[i] == gray_entry(i - 232),
            forall|i: int| 0 <= i < 232 ==> table@[i] == old(table)@[i],
            forall|i: int| 232 + j <= i < 269 ==> table@[i] == old(table)@[i],
        decreases 24 - j,
    {
        let v: u8 = (10 * j + 8) as u8;
        table.set(232 + j, Rgb { r: v, g: v, b: v });
        j = j + 1;
    }
}

} // verus!
