use vstd::prelude::*;

use crate::gfx::color::spec_avg_with;
use crate::gfx::Color;
use crate::utils::FourBits;

verus! {

/// The glyph and the two colors that draw a quadrant of four pixels
/// (top left, top right, bottom right, bottom left), given which of them
/// are bright (`B` abcd, in that order). The foreground covers the
/// glyph's filled part.
pub open spec fn quadrant_glyph(bits: FourBits, x: Color, y: Color, z: Color, w: Color) -> (
    char,
    Color,
    Color,
) {
    let avg = |a: Color, b: Color| spec_avg_with(a, b);
    match bits {
        FourBits::B0000 => ('\u{2584}', avg(x, y), avg(z, w)),
        FourBits::B0001 => ('\u{2596}', avg(avg(x, y), z), w),
        FourBits::B0010 => ('\u{2597}', avg(avg(x, y), w), z),
        FourBits::B0011 => ('\u{2584}', avg(x, y), avg(z, w)),
        FourBits::B0100 => ('\u{259d}', avg(avg(x, z), w), y),
        FourBits::B0101 => ('\u{259e}', avg(x, z), avg(y, w)),
        FourBits::B0110 => ('\u{2590}', avg(x, w), avg(y, z)),
        FourBits::B0111 => ('\u{2598}', avg(avg(y, z), w), x),
        FourBits::B1000 => ('\u{2598}', avg(avg(y, z), w), x),
        FourBits::B1001 => ('\u{258c}', avg(y, z), avg(x, w)),
        FourBits::B1010 => ('\u{259a}', avg(y, w), avg(x, z)),
        FourBits::B1011 => ('\u{259d}', avg(avg(x, z), w), y),
        FourBits::B1100 => ('\u{2584}', avg(x, y), avg(z, w)),
        FourBits::B1101 => ('\u{2597}', avg(avg(x, y), w), z),
        FourBits::B1110 => ('\u{2596}', avg(avg(x, y), z), w),
        FourBits::B1111 => ('\u{2584}', avg(x, y), avg(z, w)),
    }
}

fn glyph(c: &'static str, ch: char, bg: Color, fg: Color) -> (r: (&'static str, Color, Color))
    requires
        c@ == seq![ch],
    ensures
        r.0@ == seq![ch],
        r.1 == bg,
        r.2 == fg,
{
    (c, bg, fg)
}

/// Draws a quadrant of four colors (top left, top right, bottom right,
/// bottom left) as a quadrant character and two colors, given which pixels
/// are bright.
pub fn binarize_with_mask(bits: FourBits, quadrant: (Color, Color, Color, Color)) -> (r: (
    &'static str,
    Color,
    Color,
))
    ensures
        ({
            let (ch, bg, fg) = quadrant_glyph(bits, quadrant.0, quadrant.1, quadrant.2, quadrant.3);
            r.0@ == seq![ch] && r.1 == bg && r.2 == fg
        }),
{
    let (x, y, z, w) = quadrant;
    proof {
        reveal_strlit("\u{2584}");
        reveal_strlit("\u{2596}");
        reveal_strlit("\u{2597}");
        reveal_strlit("\u{259d}");
        reveal_strlit("\u{259e}");
        reveal_strlit("\u{2590}");
        reveal_strlit("\u{2598}");
        reveal_strlit("\u{258c}");
        reveal_strlit("\u{259a}");
        assert("\u{2584}"@ =~= seq!['\u{2584}']);
        assert("\u{2596}"@ =~= seq!['\u{2596}']);
        assert("\u{2597}"@ =~= seq!['\u{2597}']);
        assert("\u{259d}"@ =~= seq!['\u{259d}']);
        assert("\u{259e}"@ =~= seq!['\u{259e}']);
        assert("\u{2590}"@ =~= seq!['\u{2590}']);
        assert("\u{2598}"@ =~= seq!['\u{2598}']);
        assert("\u{258c}"@ =~= seq!['\u{258c}']);
        assert("\u{259a}"@ =~= seq!['\u{259a}']);
    }
    match bits {
        FourBits::B0000 => glyph("\u{2584}", '\u{2584}', x.avg_with(y), z.avg_with(w)),
        FourBits::B0001 => glyph("\u{2596}", '\u{2596}', x.avg_with(y).avg_with(z), w),
        FourBits::B0010 => glyph("\u{2597}", '\u{2597}', x.avg_with(y).avg_with(w), z),
        FourBits::B0011 => glyph("\u{2584}", '\u{2584}', x.avg_with(y), z.avg_with(w)),
        FourBits::B0100 => glyph("\u{259d}", '\u{259d}', x.avg_with(z).avg_with(w), y),
        FourBits::B0101 => glyph("\u{259e}", '\u{259e}', x.avg_with(z), y.avg_with(w)),
        FourBits::B0110 => glyph("\u{2590}", '\u{2590}', x.avg_with(w), y.avg_with(z)),
        FourBits::B0111 => glyph("\u{2598}", '\u{2598}', y.avg_with(z).avg_with(w), x),
        FourBits::B1000 => glyph("\u{2598}", '\u{2598}', y.avg_with(z).avg_with(w), x),
        FourBits::B1001 => glyph("\u{258c}", '\u{258c}', y.avg_with(z), x.avg_with(w)),
        FourBits::B1010 => glyph("\u{259a}", '\u{259a}', y.avg_with(w), x.avg_with(z)),
        FourBits::B1011 => glyph("\u{259d}", '\u{259d}', x.avg_with(z).avg_with(w), y),
        FourBits::B1100 => glyph("\u{2584}", '\u{2584}', x.avg_with(y), z.avg_with(w)),
        FourBits::B1101 => glyph("\u{2597}", '\u{2597}', x.avg_with(y).avg_with(w), z),
        FourBits::B1110 => glyph("\u{2596}", '\u{2596}', x.avg_with(y).avg_with(z), w),
        FourBits::B1111 => glyph("\u{2584}", '\u{2584}', x.avg_with(y), z.avg_with(w)),
    }
}

/// A quadrant whose top pixels are equal and whose bottom pixels are equal
/// (a terminal cell of two pixels), lit by a pattern of whole rows, is
/// drawn as a lower half block over the top color, in the bottom color.
pub proof fn lemma_two_pixel_quadrant(bits: FourBits, top: Color, bottom: Color)
    requires
        bits is B0000 || bits is B0011 || bits is B1100 || bits is B1111,
    ensures
        quadrant_glyph(bits, top, top, bottom, bottom) == ('\u{2584}', top, bottom),
{
}

} // verus!
