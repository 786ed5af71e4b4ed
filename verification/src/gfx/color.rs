use vstd::prelude::*;

use super::Vector3;

verus! {

/// An RGB color.
#[derive(Clone, Copy, Debug, PartialEq, Eq, Structural)]
pub struct Color<T: Copy = u8> {
    pub r: T,
    pub g: T,
    pub b: T,
}

impl<T: Copy> Color<T> {
    pub fn new(r: T, g: T, b: T) -> (c: Color<T>)
        ensures
            c == (Color { r, g, b }),
    {
        Color { r, g, b }
    }

    pub fn splat(value: T) -> (c: Color<T>)
        ensures
            c == (Color { r: value, g: value, b: value }),
    {
        Color::new(value, value, value)
    }
}

/// The floor of the mean of two channel values.
pub open spec fn avg(a: u8, b: u8) -> u8 {
    ((a + b) / 2) as u8
}

/// Component-wise floor average of two colors.
pub open spec fn spec_avg_with(a: Color, b: Color) -> Color {
    Color { r: avg(a.r, b.r), g: avg(a.g, b.g), b: avg(a.b, b.b) }
}

pub open spec fn max3(a: u8, b: u8, c: u8) -> u8 {
    if a >= b && a >= c {
        a
    } else if b >= c {
        b
    } else {
        c
    }
}

fn avg_channel(a: u8, b: u8) -> (r: u8)
    ensures
        r == avg(a, b),
{
    assert((a & b) as int + ((a ^ b) / 2) as int == (a + b) / 2) by (bit_vector);
    (a & b) + (a ^ b) / 2
}

impl Color {
    /// The black color.
    pub fn black() -> (c: Color)
        ensures
            c == (Color { r: 0u8, g: 0u8, b: 0u8 }),
    {
        Color::<u8>::new(0, 0, 0)
    }

    /// Reads one BGRA pixel from `bytes` starting at `*pos`, the way four
    /// calls of `next` on a byte iterator would: the position advances by
    /// four, or to the end of the bytes, and the color is produced when the
    /// blue, green and red bytes were all there.
    pub fn from_iter(bytes: &[u8], pos: &mut usize) -> (c: Option<Color>)
        requires
            *old(pos) <= bytes.len(),
        ensures
            *final(pos) == if *old(pos) + 4 <= bytes.len() {
                *old(pos) + 4
            } else {
                bytes.len() as int
            },
            c == if *old(pos) + 3 <= bytes.len() {
                Some(
                    Color {
                        r: bytes@[*old(pos) + 2],
                        g: bytes@[*old(pos) + 1],
                        b: bytes@[*old(pos) as int],
                    },
                )
            } else {
                None
            },
    {
        let b = next_byte(bytes, pos);
        let g = next_byte(bytes, pos);
        let r = next_byte(bytes, pos);
        let _ = next_byte(bytes, pos);
        match (r, g, b) {
            (Some(r), Some(g), Some(b)) => Some(Color::<u8>::new(r, g, b)),
            _ => None,
        }
    }

    /// Component-wise average, computed without overflow.
    pub fn avg_with(&self, rhs: Color) -> (c: Color)
        ensures
            c == spec_avg_with(*self, rhs),
    {
        Color::<u8>::new(
            avg_channel(self.r, rhs.r),
            avg_channel(self.g, rhs.g),
            avg_channel(self.b, rhs.b),
        )
    }

    /// Folds the channels with `min`, starting from the default value `0`.
    pub fn min_val(&self) -> (v: u8)
        ensures
            v == 0,
    {
        let mut acc: u8 = 0;
        if self.r < acc {
            acc = self.r;
        }
        if self.g < acc {
            acc = self.g;
        }
        if self.b < acc {
            acc = self.b;
        }
        acc
    }

    /// Folds the channels with `max`, starting from the default value `0`.
    pub fn max_val(&self) -> (v: u8)
        ensures
            v == max3(self.r, self.g, self.b),
    {
        let mut acc: u8 = 0;
        if self.r > acc {
            acc = self.r;
        }
        if self.g > acc {
            acc = self.g;
        }
        if self.b > acc {
            acc = self.b;
        }
        acc
    }
}

/// The next byte of `bytes` at `*pos`, advancing past it.
fn next_byte(bytes: &[u8], pos: &mut usize) -> (v: Option<u8>)
    requires
        *old(pos) <= bytes.len(),
    ensures
        *old(pos) < bytes.len() ==> v == Some(bytes@[*old(pos) as int]) && *final(pos) == *old(
            pos,
        ) + 1,
        *old(pos) >= bytes.len() ==> v is None && *final(pos) == *old(pos),
{
    if *pos < bytes.len() {
        let v = bytes[*pos];
        *pos = *pos + 1;
        Some(v)
    } else {
        None
    }
}

impl<T: Copy> Vector3<T> for Color<T> {
    fn x(&self) -> (v: T)
        ensures
            v == self.r,
    {
        self.r
    }

    fn y(&self) -> (v: T)
        ensures
            v == self.g,
    {
        self.g
    }

    fn z(&self) -> (v: T)
        ensures
            v == self.b,
    {
        self.b
    }
}

/// Averaging a color with itself gives it back, and averaging is symmetric.
pub proof fn lemma_avg_with(a: Color, b: Color)
    ensures
        spec_avg_with(a, a) == a,
        spec_avg_with(a, b) == spec_avg_with(b, a),
{
}

} // verus!
