use vstd::prelude::*;

use crate::gfx::color::max3;
use crate::gfx::Color;

verus! {

/// The level (0 to 5) of a channel on the 6x6x6 color cube:
/// `round(max(0, (c - 55) / 40))`, which is `(c - 35) / 40` on bytes.
pub open spec fn cube_level(c: u8) -> int {
    if c < 35 {
        0
    } else {
        (c - 35) / 40
    }
}

/// The gray ramp entry for a red channel value.
pub open spec fn gray_code(r: u8) -> u8 {
    if r <= 4 {
        16
    } else if r <= 8 {
        232
    } else if 238 <= r <= 246 {
        255
    } else if r >= 247 {
        231
    } else {
        (232 + (r - 8) / 10) as u8
    }
}

/// The xterm 256-color palette index of a color: near-black colors (all
/// channels below 8) go to the gray ramp by their red channel, the others to
/// the 6x6x6 color cube.
pub open spec fn xterm_code(c: Color) -> u8 {
    if max3(c.r, c.g, c.b) < 8 {
        gray_code(c.r)
    } else {
        (16 + 36 * cube_level(c.r) + 6 * cube_level(c.g) + cube_level(c.b)) as u8
    }
}

fn cube_level_exec(c: u8) -> (l: u8)
    ensures
        l == cube_level(c),
        l <= 5,
{
    if c < 35 {
        0
    } else {
        (c - 35) / 40
    }
}

impl Color {
    /// The closest entry of the xterm 256-color palette.
    pub fn to_xterm(&self) -> (code: u8)
        ensures
            code == xterm_code(*self),
            16 <= code,
    {
        if self.max_val() - self.min_val() < 8 {
            let r = self.r;
            if r <= 4 {
                16
            } else if r <= 8 {
                232
            } else if 238 <= r && r <= 246 {
                255
            } else if r >= 247 {
                231
            } else {
                232 + (r - 8) / 10
            }
        } else {
            16 + 36 * cube_level_exec(self.r) + 6 * cube_level_exec(self.g) + cube_level_exec(
                self.b,
            )
        }
    }
}

} // verus!
