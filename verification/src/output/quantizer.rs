use vstd::prelude::*;

use crate::gfx::Color;

verus! {

/// A color channel.
#[derive(Clone, Copy)]
enum Channel {
    R,
    G,
    B,
}

/// The number of palette entries: one slice for each after eight cuts.
const COLORS: usize = 256;

/// The value of channel `ch` of `c`.
spec fn channel_value(c: Color, ch: Channel) -> u8 {
    match ch {
        Channel::R => c.r,
        Channel::G => c.g,
        Channel::B => c.b,
    }
}

fn channel_of(c: &Color, ch: Channel) -> (v: u8)
    ensures
        v == channel_value(*c, ch),
{
    match ch {
        Channel::R => c.r,
        Channel::G => c.g,
        Channel::B => c.b,
    }
}

/// Channel `ch` is ordered on `s` from `lo` up to `hi`.
spec fn sorted_by(s: Seq<Color>, ch: Channel, lo: int, hi: int) -> bool {
    forall|a: int, b: int|
        lo <= a < b < hi ==> channel_value(#[trigger] s[a], ch) <= channel_value(#[trigger] s[b], ch)
}

/// Sorts `v[start..end]` by channel `ch`, leaving the rest as it is.
fn sort_range(v: &mut Vec<Color>, start: usize, end: usize, ch: Channel)
    requires
        start <= end <= old(v)@.len(),
    ensures
        final(v)@.len() == old(v)@.len(),
        final(v)@.to_multiset() == old(v)@.to_multiset(),
        forall|k: int|
            0 <= k < old(v)@.len() && !(start <= k < end) ==> #[trigger] final(v)@[k] == old(v)@[k],
        sorted_by(final(v)@, ch, start as int, end as int),
{
    if end - start < 2 {
        return;
    }
    let ghost orig = v@;
    let mut i: usize = start + 1;
    while i < end
        invariant
            start < i <= end <= v@.len(),
            v@.len() == orig.len(),
            v@.to_multiset() == orig.to_multiset(),
            forall|k: int| 0 <= k < orig.len() && !(start <= k < end) ==> #[trigger] v@[k] == orig[k],
            sorted_by(v@, ch, start as int, i as int),
        decreases end - i,
    {
        let mut j: usize = i;
        while j > start && channel_of(&v[j - 1], ch) > channel_of(&v[j], ch)
            invariant
                start <= j <= i < end <= v@.len(),
                v@.len() == orig.len(),
                v@.to_multiset() == orig.to_multiset(),
                forall|k: int|
                    0 <= k < orig.len() && !(start <= k < end) ==> #[trigger] v@[k] == orig[k],
                forall|a: int, b: int|
                    start <= a < b <= i && a != j && b != j ==> channel_value(#[trigger] v@[a], ch)
                        <= channel_value(#[trigger] v@[b], ch),
                forall|b: int|
                    j < b <= i ==> channel_value(v@[j as int], ch) < channel_value(#[trigger] v@[b], ch),
            decreases j,
        {
            let ghost s = v@;
            let left = v[j - 1];
            let right = v[j];
            v.set(j - 1, right);
            v.set(j, left);
            proof {
                broadcast use vstd::seq_lib::to_multiset_update;
                broadcast use vstd::multiset::group_multiset_axioms;
                broadcast use vstd::seq_lib::to_multiset_contains;

                assert(s[j - 1] == left && s[j as int] == right);
                assert(s.to_multiset().count(left) > 0);
                let s1 = s.update(j - 1, right);
                assert(s1.to_multiset() =~= s.to_multiset().insert(right).remove(left));
                assert(v@ == s1.update(j as int, left));
                assert(v@.to_multiset() =~= s1.to_multiset().insert(left).remove(right));
                assert(v@.to_multiset() =~= s.to_multiset());
            }
            j = j - 1;
        }
        assert(sorted_by(v@, ch, start as int, (i + 1) as int)) by {
            assert forall|a: int, b: int| start <= a < b < i + 1 implies channel_value(
                #[trigger] v@[a],
                ch,
            ) <= channel_value(#[trigger] v@[b], ch) by {
                if b == j && a < j {
                    if a < j - 1 {
                        assert(channel_value(v@[a], ch) <= channel_value(v@[j - 1], ch));
                    }
                }
            }
        }
        i = i + 1;
    }
}

/// The sum of channel `ch` over `s`.
spec fn channel_sum(s: Seq<Color>, ch: Channel) -> nat
    decreases s.len(),
{
    if s.len() == 0 {
        0
    } else {
        channel_sum(s.drop_last(), ch) + (channel_value(s.last(), ch) as nat)
    }
}

proof fn lemma_channel_sum_bound(s: Seq<Color>, ch: Channel)
    ensures
        channel_sum(s, ch) <= 255 * s.len(),
    decreases s.len(),
{
    if s.len() > 0 {
        lemma_channel_sum_bound(s.drop_last(), ch);
    }
}

/// The floor average of each channel over `s`.
spec fn average(s: Seq<Color>) -> Color {
    Color {
        r: (channel_sum(s, Channel::R) / s.len()) as u8,
        g: (channel_sum(s, Channel::G) / s.len()) as u8,
        b: (channel_sum(s, Channel::B) / s.len()) as u8,
    }
}

/// The average color of `bucket[start..end]`, `None` when it is empty.
fn bucket_average(bucket: &Vec<Color>, start: usize, end: usize) -> (r: Option<Color>)
    requires
        start <= end <= bucket@.len(),
        end - start <= 16843009,
    ensures
        r == if start == end {
            None
        } else {
            Some(average(bucket@.subrange(start as int, end as int)))
        },
{
    if start == end {
        return None;
    }
    let ghost s = bucket@.subrange(start as int, end as int);
    let mut r: u32 = 0;
    let mut g: u32 = 0;
    let mut b: u32 = 0;
    let mut k: usize = start;
    while k < end
        invariant
            start <= k <= end <= bucket@.len(),
            end - start <= 16843009,
            s == bucket@.subrange(start as int, end as int),
            r == channel_sum(s.take(k - start), Channel::R),
            g == channel_sum(s.take(k - start), Channel::G),
            b == channel_sum(s.take(k - start), Channel::B),
        decreases end - k,
    {
        let c = bucket[k];
        proof {
            assert(s.take(k - start + 1).drop_last() =~= s.take(k - start));
            lemma_channel_sum_bound(s.take(k - start), Channel::R);
            lemma_channel_sum_bound(s.take(k - start), Channel::G);
            lemma_channel_sum_bound(s.take(k - start), Channel::B);
        }
        r = r + c.r as u32;
        g = g + c.g as u32;
        b = b + c.b as u32;
        k = k + 1;
    }
    let n = (end - start) as u32;
    assert(s.take(end - start) =~= s);
    proof {
        lemma_channel_sum_bound(s, Channel::R);
        lemma_channel_sum_bound(s, Channel::G);
        lemma_channel_sum_bound(s, Channel::B);
    }
    assert(r / n <= 255) by (nonlinear_arith)
        requires
            r <= 255 * n,
            n > 0,
    ;
    assert(g / n <= 255) by (nonlinear_arith)
        requires
            g <= 255 * n,
            n > 0,
    ;
    assert(b / n <= 255) by (nonlinear_arith)
        requires
            b <= 255 * n,
            n > 0,
    ;
    Some(Color::new((r / n) as u8, (g / n) as u8, (b / n) as u8))
}

/// Meant to find the color of `palette` closest to `color` by binary
/// search; the body only takes the midpoint of the palette and returns
/// nothing.
pub fn palette_color(palette: &[Color; 256], color: Color) {
    let _half: usize = palette.len() / 2;
}

/// A palette of 256 colors for an image of RGBA pixels by median cut: the
/// colors are gathered into a bucket, the bucket is sorted by the channel
/// with the widest range in ever smaller slices, and each of the 256
/// slices gives its average color. The bucket starts empty and nothing
/// fills it, so every slice is empty and the palette is all black.
pub fn quantize(pixels: &[u8]) -> (palette: [Color; 256])
    ensures
        forall|i: int| 0 <= i < 256 ==> #[trigger] palette@[i] == (Color { r: 0u8, g: 0u8, b: 0u8 }),
{
    let mut min = Color::black();
    let mut max = Color::black();
    let mut bucket: Vec<Color> = Vec::new();
    // Step 1: gather the colors and find each channel's range.
    let mut i: usize = 0;
    let mut p: usize = 0;
    while i < bucket.len() && p < pixels.len() && pixels.len() - p >= 4
        invariant
            i <= bucket@.len(),
            bucket@.len() == 0,
            min == (Color { r: 0u8, g: 0u8, b: 0u8 }),
        decreases bucket@.len() - i,
    {
        let color = Color::new(pixels[p], pixels[p + 1], pixels[p + 2]);
        bucket.set(i, color);
        min = Color::new(
            if min.r <= color.r { min.r } else { color.r },
            if min.g <= color.g { min.g } else { color.g },
            if min.b <= color.b { min.b } else { color.b },
        );
        max = Color::new(
            if max.r >= color.r { max.r } else { color.r },
            if max.g >= color.g { max.g } else { color.g },
            if max.b >= color.b { max.b } else { color.b },
        );
        i = i + 1;
        p = p + 4;
    }
    let ranges = [
        (Channel::R, max.r - min.r),
        (Channel::G, max.g - min.g),
        (Channel::B, max.b - min.b),
    ];
    let mut widest = ranges[0];
    let mut k: usize = 1;
    while k < 3
        invariant
            1 <= k <= 3,
        decreases 3 - k,
    {
        if !(widest.1 > ranges[k].1) {
            widest = ranges[k];
        }
        k = k + 1;
    }
    let channel = widest.0;
    // Step 2: median cut, sorting ever smaller slices by that channel.
    let mut buckets: usize = 2;
    while buckets <= COLORS
        invariant
            2 <= buckets <= 2 * COLORS,
            bucket@.len() == 0,
        decreases 2 * COLORS - buckets,
    {
        let size = bucket.len() / buckets;
        assert(size == 0);
        let mut j: usize = 0;
        while j < buckets
            invariant
                j <= buckets <= COLORS,
                size == 0,
                bucket@.len() == 0,
            decreases buckets - j,
        {
            let start = j * size;
            let end = start + size;
            sort_range(&mut bucket, start, end, channel);
            j = j + 1;
        }
        buckets = buckets * 2;
    }
    // Step 3: the average color of each slice.
    let mut palette = [Color::black(); 256];
    let size = bucket.len() / COLORS;
    let mut n: usize = 0;
    while n < COLORS
        invariant
            n <= COLORS,
            size == 0,
            bucket@.len() == 0,
            forall|m: int| 0 <= m < 256 ==> #[trigger] palette@[m] == (Color { r: 0u8, g: 0u8, b: 0u8 }),
        decreases COLORS - n,
    {
        let start = n * size;
        let end = start + size;
        match bucket_average(&bucket, start, end) {
            Some(avg) => {
                palette.set(n, avg);
            },
            None => {},
        }
        n = n + 1;
    }
    palette
}

} // verus!
