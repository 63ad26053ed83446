//! Resampling of square images by area averaging, in single precision.
//!
//! A place of the new image covers an area of the old one. Its channels are
//! the averages of that area's channels, each pixel counted by the part of it
//! that is covered.

use vstd::prelude::*;

use crate::icon::single::{
    difference, greater, held_at, lesser, not_above, one, product, products_keep_the_order,
    quotient, quotients_keep_the_order, results_are_normal, single_of, sum, sums_keep_the_order,
    whole, whole_numbers_keep_their_order, whole_parts_keep_the_order, whole_up, zero,
    zero_is_least, Dyadic, Single, LEAST,
};
use crate::icon::{alpha_of, blue_of, channels, from_channels, green_of, pixel_of, red_of};
use crate::icon::{clamp, lemma_channels, lemma_place, Image, Pixel};

verus! {

/// How many places of the old image a place of the new one covers in each
/// direction.
pub open spec fn scale(from: int, to: int) -> Dyadic {
    quotient(single_of(from), single_of(to))
}

/// Where place `t` of the new image begins in the old one.
pub open spec fn edge(t: int, from: int, to: int) -> Dyadic {
    product(single_of(t), scale(from, to))
}

/// How much of place `s` of the old image lies between two edges.
pub open spec fn overlap(s: int, low: Dyadic, high: Dyadic) -> Dyadic {
    let start = single_of(s);
    difference(lesser(sum(start, one()), high), greater(start, low))
}

/// The first place of the old image that is counted for place `t`.
pub open spec fn first_covered(t: int, from: int, to: int) -> int {
    whole(edge(t, from, to))
}

/// The place of the old image behind the last one that is counted for place
/// `t`.
pub open spec fn end_covered(t: int, from: int, to: int) -> int {
    held_at(whole_up(edge(t + 1, from, to)), from)
}

/// What place `t` of the new image covers of place `s` of the old one.
pub open spec fn covered(s: int, t: int, from: int, to: int) -> Dyadic {
    overlap(s, edge(t, from, to), edge(t + 1, from, to))
}

/// A channel of a pixel: alpha, red, green, blue.
pub open spec fn channel_of(p: Pixel, which: int) -> int {
    if which == 0 {
        alpha_of(p)
    } else if which == 1 {
        red_of(p)
    } else if which == 2 {
        green_of(p)
    } else {
        blue_of(p)
    }
}

/// What a pixel counts for in a total: a channel by how much of the pixel is
/// covered, or that alone where no channel is asked for.
pub open spec fn counted(pixel: Pixel, which: Option<int>, part: Dyadic) -> Dyadic {
    match which {
        Some(which) => product(single_of(channel_of(pixel, which)), part),
        None => part,
    }
}

/// `total` with what the place in column `x` of row `y` covers of row `sy` of
/// the image, as far as column `end`.
pub open spec fn row_total(
    image: Image,
    which: Option<int>,
    x: int,
    y: int,
    size: int,
    sy: int,
    total: Dyadic,
    end: int,
) -> Dyadic
    decreases end - first_covered(x, image.size as int, size),
{
    let from = image.size as int;
    if end <= first_covered(x, from, size) {
        total
    } else {
        let sx = end - 1;
        let part = product(covered(sy, y, from, size), covered(sx, x, from, size));
        sum(
            row_total(image, which, x, y, size, sy, total, sx),
            counted(image.at(sx, sy), which, part),
        )
    }
}

/// What the place in column `x` of row `y` covers of the image, as far as row
/// `end`.
pub open spec fn area_total(
    image: Image,
    which: Option<int>,
    x: int,
    y: int,
    size: int,
    end: int,
) -> Dyadic
    decreases end - first_covered(y, image.size as int, size),
{
    let from = image.size as int;
    if end <= first_covered(y, from, size) {
        zero()
    } else {
        row_total(
            image,
            which,
            x,
            y,
            size,
            end - 1,
            area_total(image, which, x, y, size, end - 1),
            end_covered(x, from, size),
        )
    }
}

/// The least weight that a channel is divided by.
pub open spec fn least_weight() -> Dyadic {
    Dyadic { mantissa: LEAST as int, exponent: -46 }
}

/// One half.
pub open spec fn half() -> Dyadic {
    Dyadic { mantissa: LEAST as int, exponent: -24 }
}

/// A channel of the area that a place covers, averaged and rounded to the
/// nearest value.
pub open spec fn area_average(image: Image, which: int, x: int, y: int, size: int) -> int {
    let end = end_covered(y, image.size as int, size);
    let weight = greater(area_total(image, None, x, y, size, end), least_weight());
    whole(sum(quotient(area_total(image, Some(which), x, y, size, end), weight), half()))
}

/// The pixel at column `x` of row `y` after resampling to `size`.
pub open spec fn resampled_pixel(image: Image, x: int, y: int, size: int) -> Pixel {
    pixel_of(
        area_average(image, 0, x, y, size),
        area_average(image, 1, x, y, size),
        area_average(image, 2, x, y, size),
        area_average(image, 3, x, y, size),
    )
}

/// Whether the exponent of a number that is not zero lies in a range.
pub open spec fn ranges(x: Single, low: int, high: int) -> bool {
    x@.normal() && (x.mantissa == 0 || low <= x.exponent <= high)
}

/// Where the place that is covered begins and ends in the old image, in one
/// direction.
#[derive(Debug, Clone, Copy, PartialEq, Eq)]
struct Span {
    low: Single,
    high: Single,
    first: usize,
    end: usize,
}

impl Span {
    /// Whether this is what place `t` covers.
    spec fn of(self, t: int, from: int, to: int) -> bool {
        &&& self.low@ == edge(t, from, to)
        &&& self.high@ == edge(t + 1, from, to)
        &&& ranges(self.low, -300, 300)
        &&& ranges(self.high, -300, 300)
        &&& self.first == held_at(first_covered(t, from, to), from)
        &&& self.end == end_covered(t, from, to)
        &&& self.end <= from
    }

    /// What place `t` covers.
    fn new(t: usize, from: usize, to: usize) -> (span: Self)
        requires
            t < to < 0x1_0000_0000,
            0 < from < 0x1_0000_0000,
        ensures
            span.of(t as int, from as int, to as int),
    {
        let scale = Single::of(from as u64).over(Single::of(to as u64));
        let low = Single::of(t as u64).times(scale);
        let high = Single::of(t as u64 + 1).times(scale);
        let first: u64 = low.floor(from as u64);
        let end: u64 = high.ceil(from as u64);
        Span { low, high, first: first as usize, end: end as usize }
    }

    /// How much of place `s` of the old image is covered.
    fn covers(&self, s: usize) -> (part: Single)
        requires
            ranges(self.low, -300, 300),
            ranges(self.high, -300, 300),
            s < 0x1_0000_0000,
        ensures
            part@ == overlap(s as int, self.low@, self.high@),
            ranges(part, -400, 400),
    {
        let start = Single::of(s as u64);
        let next = start.plus(Single { mantissa: LEAST, exponent: -23 });
        next.min(self.high).minus(start.max(self.low))
    }
}

/// Exponents that a pixel counts for lie in this range.
spec fn counts(x: Single) -> bool {
    ranges(x, -1000, 1000)
}

/// Exponents of totals lie in this range.
spec fn totals(x: Single) -> bool {
    ranges(x, -1100, 1030)
}

/// `total` with one more number.
fn add_counted(total: Single, more: Single) -> (after: Single)
    requires
        totals(total),
        counts(more),
    ensures
        after@ == sum(total@, more@),
        totals(after),
{
    total.plus(more)
}

impl Image {
    /// What a pixel counts for in a total.
    fn count(&self, which: Option<usize>, sx: usize, sy: usize, part: Single) -> (counted: Single)
        requires
            self.square(),
            sx < self.size,
            sy < self.size,
            which matches Some(which) ==> which < 4,
            ranges(part, -850, 850),
        ensures
            counted@ == self::counted(self.at(sx as int, sy as int), channel(which), part@),
            counts(counted),
    {
        match which {
            Some(which) => {
                proof {
                    lemma_place(*self, sx as int, sy as int);
                }
                let parts = channels(self.get(sx, sy));
                Single::of(parts[which] as u64).times(part)
            },
            None => part,
        }
    }

    /// `total` with what the place in column `x` covers of row `sy`.
    fn total_row(
        &self,
        which: Option<usize>,
        Ghost(x): Ghost<int>,
        Ghost(y): Ghost<int>,
        Ghost(size): Ghost<int>,
        columns: &Span,
        sy: usize,
        height: Single,
        total: Single,
    ) -> (after: Single)
        requires
            self.square(),
            self.size < 0x1_0000_0000,
            sy < self.size,
            which matches Some(which) ==> which < 4,
            columns.of(x, self.size as int, size),
            height@ == covered(sy as int, y, self.size as int, size),
            ranges(height, -400, 400),
            totals(total),
        ensures
            after@ == row_total(
                *self,
                channel(which),
                x,
                y,
                size,
                sy as int,
                total@,
                end_covered(x, self.size as int, size),
            ),
            totals(after),
    {
        let ghost from = self.size as int;
        let ghost asked = channel(which);
        let mut after = total;
        let mut sx: usize = columns.first;
        if sx >= columns.end {
            assert(end_covered(x, from, size) <= first_covered(x, from, size));
            return after;
        }
        while sx < columns.end
            invariant
                self.square(),
                self.size < 0x1_0000_0000,
                from == self.size,
                sy < self.size,
                which matches Some(which) ==> which < 4,
                asked == channel(which),
                columns.of(x, from, size),
                height@ == covered(sy as int, y, from, size),
                ranges(height, -400, 400),
                columns.first == first_covered(x, from, size),
                columns.first <= sx <= columns.end,
                after@ == row_total(*self, asked, x, y, size, sy as int, total@, sx as int),
                totals(after),
            decreases columns.end - sx,
        {
            let width = columns.covers(sx);
            let part = height.times(width);
            let counted = self.count(which, sx, sy, part);
            after = add_counted(after, counted);
            sx = sx + 1;
        }
        after
    }

    /// What the place covers of the image.
    fn total_area(
        &self,
        which: Option<usize>,
        Ghost(x): Ghost<int>,
        Ghost(y): Ghost<int>,
        Ghost(size): Ghost<int>,
        columns: &Span,
        rows: &Span,
    ) -> (total: Single)
        requires
            self.square(),
            self.size < 0x1_0000_0000,
            which matches Some(which) ==> which < 4,
            columns.of(x, self.size as int, size),
            rows.of(y, self.size as int, size),
        ensures
            total@ == area_total(
                *self,
                channel(which),
                x,
                y,
                size,
                end_covered(y, self.size as int, size),
            ),
            totals(total),
    {
        let ghost from = self.size as int;
        let ghost asked = channel(which);
        let mut total = Single::zero();
        let mut sy: usize = rows.first;
        if sy >= rows.end {
            assert(end_covered(y, from, size) <= first_covered(y, from, size));
            return total;
        }
        while sy < rows.end
            invariant
                self.square(),
                self.size < 0x1_0000_0000,
                from == self.size,
                which matches Some(which) ==> which < 4,
                asked == channel(which),
                columns.of(x, from, size),
                rows.of(y, from, size),
                rows.first == first_covered(y, from, size),
                rows.first <= sy <= rows.end,
                total@ == area_total(*self, asked, x, y, size, sy as int),
                totals(total),
            decreases rows.end - sy,
        {
            let height = rows.covers(sy);
            total =
            self.total_row(
                which,
                Ghost(x),
                Ghost(y),
                Ghost(size),
                columns,
                sy,
                height,
                total,
            );
            sy = sy + 1;
        }
        total
    }

    /// The pixel at column `x` of row `y` after resampling to `size`.
    fn resample_pixel(&self, x: usize, y: usize, size: usize) -> (pixel: Pixel)
        requires
            self.square(),
            0 < self.size < 0x1_0000_0000,
            x < size < 0x1_0000_0000,
            y < size,
        ensures
            pixel == resampled_pixel(*self, x as int, y as int, size as int),
    {
        let columns = Span::new(x, self.size, size);
        let rows = Span::new(y, self.size, size);
        let weight = self.total_area(
            None,
            Ghost(x as int),
            Ghost(y as int),
            Ghost(size as int),
            &columns,
            &rows,
        );
        let weight = weight.max(Single { mantissa: LEAST, exponent: -46 });
        let mut parts: [u32; 4] = [0, 0, 0, 0];
        let mut which: usize = 0;
        while which < 4
            invariant
                self.square(),
                0 < self.size < 0x1_0000_0000,
                which <= 4,
                columns.of(x as int, self.size as int, size as int),
                rows.of(y as int, self.size as int, size as int),
                ranges(weight, -1100, 1030),
                weight.mantissa > 0,
                weight@ == greater(
                    area_total(
                        *self,
                        None,
                        x as int,
                        y as int,
                        size as int,
                        end_covered(y as int, self.size as int, size as int),
                    ),
                    least_weight(),
                ),
                forall|i: int|
                    0 <= i < which ==> #[trigger] parts@[i] == held_at(
                        area_average(*self, i, x as int, y as int, size as int),
                        0x1_0000,
                    ),
            decreases 4 - which,
        {
            let total = self.total_area(
                Some(which),
                Ghost(x as int),
                Ghost(y as int),
                Ghost(size as int),
                &columns,
                &rows,
            );
            let average = total.over(weight).plus(Single { mantissa: LEAST, exponent: -24 });
            let value: u64 = average.floor(0x1_0000);
            parts[which] = value as u32;
            which = which + 1;
        }
        from_channels(parts)
    }

    /// Resizes by area averaging; premultiplied pixels average correctly.
    pub fn resample(&self, size: usize) -> (image: Image)
        requires
            self.square(),
            size * size <= usize::MAX,
        ensures
            image.size == size,
            image.square(),
            size == self.size ==> image.pixels@ == self.pixels@,
            size != self.size && self.size == 0 ==> forall|i: int|
                0 <= i < image.pixels@.len() ==> #[trigger] image.pixels@[i] == 0,
            size != self.size && self.size > 0 ==> forall|x: int, y: int|
                0 <= x < size && 0 <= y < size ==> #[trigger] image.at(x, y) == resampled_pixel(
                    *self,
                    x,
                    y,
                    size as int,
                ),
    {
        if size == self.size {
            let copy = Image { size, pixels: self.pixels.clone() };
            assert(copy.pixels@ == self.pixels@);
            return copy;
        }
        if self.size == 0 {
            return Image::blank(size);
        }
        let count: usize = self.pixels.len();
        proof {
            lemma_side(self.size, count);
            lemma_side(size, (size * size) as usize);
        }
        let mut pixels: Vec<Pixel> = Vec::new();
        let mut y: usize = 0;
        while y < size
            invariant
                self.square(),
                size * size <= usize::MAX,
                0 < self.size < 0x1_0000_0000,
                size < 0x1_0000_0000,
                y <= size,
                pixels@.len() == y * size,
                forall|a: int, b: int|
                    0 <= a < size && 0 <= b < y ==> #[trigger] pixel_at(pixels@, a, b, size as int)
                        == resampled_pixel(*self, a, b, size as int),
            decreases size - y,
        {
            let mut x: usize = 0;
            while x < size
                invariant
                    self.square(),
                    size * size <= usize::MAX,
                    0 < self.size < 0x1_0000_0000,
                    size < 0x1_0000_0000,
                    y < size,
                    x <= size,
                    pixels@.len() == y * size + x,
                    forall|a: int, b: int|
                        0 <= a < size && 0 <= b < y || 0 <= a < x && b == y
                            ==> #[trigger] pixel_at(pixels@, a, b, size as int) == resampled_pixel(
                            *self,
                            a,
                            b,
                            size as int,
                        ),
                decreases size - x,
            {
                let pixel = self.resample_pixel(x, y, size);
                let ghost before = pixels@;
                pixels.push(pixel);
                proof {
                    assert forall|a: int, b: int|
                        0 <= a < size && 0 <= b < y || 0 <= a < x + 1 && b
                            == y implies #[trigger] pixel_at(pixels@, a, b, size as int)
                        == resampled_pixel(*self, a, b, size as int) by {
                        if b == y && a == x {
                            assert(pixel_at(pixels@, a, b, size as int) == pixel);
                        } else {
                            assert(0 <= b * size + a < y * size + x) by (nonlinear_arith)
                                requires
                                    0 <= a < size,
                                    0 <= b,
                                    b < y || (b == y && a < x),
                                    0 <= x,
                            ;
                            assert(pixel_at(pixels@, a, b, size as int) == pixel_at(
                                before,
                                a,
                                b,
                                size as int,
                            ));
                        }
                    }
                }
                x = x + 1;
            }
            assert((y + 1) * size == y * size + size) by (nonlinear_arith);
            y = y + 1;
        }
        let image = Image { size, pixels };
        proof {
            assert forall|a: int, b: int|
                0 <= a < size && 0 <= b < size implies #[trigger] image.at(a, b) == resampled_pixel(
                *self,
                a,
                b,
                size as int,
            ) by {
                assert(image.at(a, b) == pixel_at(pixels@, a, b, size as int));
            }
        }
        image
    }
}

/// The side of a square that can be counted.
proof fn lemma_side(side: usize, count: usize)
    requires
        side * side == count,
    ensures
        side < 0x1_0000_0000,
{
    assert(side < 0x1_0000_0000) by (nonlinear_arith)
        requires
            side * side <= 0xffff_ffff_ffff_ffff,
    ;
}

/// The pixel at column `x` of row `y` of an image of this size.
pub open spec fn pixel_at(pixels: Seq<Pixel>, x: int, y: int, size: int) -> Pixel {
    pixels[y * size + x]
}

/// Which channel is asked for, if one is.
spec fn channel(which: Option<usize>) -> Option<int> {
    match which {
        Some(which) => Some(which as int),
        None => None,
    }
}

// ---------------------------------------------------------------------------
// Laws.
// ---------------------------------------------------------------------------

/// Whether none of a pixel's colours exceeds its alpha.
pub open spec fn within_alpha(p: Pixel) -> bool {
    red_of(p) <= alpha_of(p) && green_of(p) <= alpha_of(p) && blue_of(p) <= alpha_of(p)
}

proof fn lemma_edge_normal(t: int, from: int, to: int)
    requires
        0 <= t,
        0 <= from,
        0 < to,
    ensures
        edge(t, from, to).normal(),
        first_covered(t, from, to) >= 0,
{
    whole_numbers_keep_their_order(t, t);
    whole_numbers_keep_their_order(from, from);
    whole_numbers_keep_their_order(to, to);
    results_are_normal(single_of(from), single_of(to));
    results_are_normal(single_of(t), scale(from, to));
    whole_parts_keep_the_order(edge(t, from, to), edge(t, from, to));
}

proof fn lemma_covered_normal(s: int, t: int, from: int, to: int)
    requires
        0 <= s,
        0 <= t,
        0 <= from,
        0 < to,
    ensures
        covered(s, t, from, to).normal(),
{
    let low = edge(t, from, to);
    let high = edge(t + 1, from, to);
    let start = single_of(s);
    lemma_edge_normal(t, from, to);
    lemma_edge_normal(t + 1, from, to);
    whole_numbers_keep_their_order(s, s);
    results_are_normal(start, one());
    results_are_normal(lesser(sum(start, one()), high), greater(start, low));
}

/// What a row adds keeps a colour's total from exceeding the alpha's.
proof fn lemma_row_total_order(
    image: Image,
    which: int,
    x: int,
    y: int,
    size: int,
    sy: int,
    colour: Dyadic,
    alpha: Dyadic,
    end: int,
)
    requires
        image.square(),
        forall|i: int| 0 <= i < image.pixels@.len() ==> within_alpha(#[trigger] image.pixels@[i]),
        0 <= x < size,
        0 <= y < size,
        0 <= sy < image.size,
        end <= image.size,
        colour.normal(),
        alpha.normal(),
        not_above(colour, alpha),
    ensures
        row_total(image, Some(which), x, y, size, sy, colour, end).normal(),
        row_total(image, Some(0), x, y, size, sy, alpha, end).normal(),
        not_above(
            row_total(image, Some(which), x, y, size, sy, colour, end),
            row_total(image, Some(0), x, y, size, sy, alpha, end),
        ),
    decreases end - first_covered(x, image.size as int, size),
{
    let from = image.size as int;
    lemma_edge_normal(x, from, size);
    if end > first_covered(x, from, size) {
        let sx = end - 1;
        lemma_row_total_order(image, which, x, y, size, sy, colour, alpha, sx);
        lemma_covered_normal(sy, y, from, size);
        lemma_covered_normal(sx, x, from, size);
        let height = covered(sy, y, from, size);
        let width = covered(sx, x, from, size);
        let part = product(height, width);
        results_are_normal(height, width);
        lemma_place(image, sx, sy);
        let pixel = image.at(sx, sy);
        let less = single_of(channel_of(pixel, which));
        let more = single_of(channel_of(pixel, 0));
        whole_numbers_keep_their_order(channel_of(pixel, which), channel_of(pixel, 0));
        products_keep_the_order(less, more, part);
        results_are_normal(less, part);
        results_are_normal(more, part);
        let before = row_total(image, Some(which), x, y, size, sy, colour, sx);
        let above = row_total(image, Some(0), x, y, size, sy, alpha, sx);
        results_are_normal(before, product(less, part));
        results_are_normal(above, product(more, part));
        sums_keep_the_order(before, product(less, part), above, product(more, part));
    }
}

proof fn lemma_area_total_order(image: Image, which: int, x: int, y: int, size: int, end: int)
    requires
        image.square(),
        forall|i: int| 0 <= i < image.pixels@.len() ==> within_alpha(#[trigger] image.pixels@[i]),
        0 <= x < size,
        0 <= y < size,
        end <= image.size,
    ensures
        area_total(image, Some(which), x, y, size, end).normal(),
        area_total(image, Some(0), x, y, size, end).normal(),
        not_above(
            area_total(image, Some(which), x, y, size, end),
            area_total(image, Some(0), x, y, size, end),
        ),
    decreases end - first_covered(y, image.size as int, size),
{
    let from = image.size as int;
    lemma_edge_normal(y, from, size);
    if end <= first_covered(y, from, size) {
        zero_is_least(zero(), zero());
    } else {
        lemma_area_total_order(image, which, x, y, size, end - 1);
        lemma_row_total_order(
            image,
            which,
            x,
            y,
            size,
            end - 1,
            area_total(image, Some(which), x, y, size, end - 1),
            area_total(image, Some(0), x, y, size, end - 1),
            end_covered(x, from, size),
        );
    }
}

proof fn lemma_row_weight_normal(
    image: Image,
    x: int,
    y: int,
    size: int,
    sy: int,
    total: Dyadic,
    end: int,
)
    requires
        0 <= x < size,
        0 <= y < size,
        0 <= sy,
        total.normal(),
    ensures
        row_total(image, None, x, y, size, sy, total, end).normal(),
    decreases end - first_covered(x, image.size as int, size),
{
    let from = image.size as int;
    lemma_edge_normal(x, from, size);
    if end > first_covered(x, from, size) {
        let sx = end - 1;
        lemma_row_weight_normal(image, x, y, size, sy, total, sx);
        lemma_covered_normal(sy, y, from, size);
        lemma_covered_normal(sx, x, from, size);
        results_are_normal(covered(sy, y, from, size), covered(sx, x, from, size));
        results_are_normal(
            row_total(image, None, x, y, size, sy, total, sx),
            product(covered(sy, y, from, size), covered(sx, x, from, size)),
        );
    }
}

proof fn lemma_weight_normal(image: Image, x: int, y: int, size: int, end: int)
    requires
        0 <= x < size,
        0 <= y < size,
    ensures
        area_total(image, None, x, y, size, end).normal(),
    decreases end - first_covered(y, image.size as int, size),
{
    let from = image.size as int;
    lemma_edge_normal(y, from, size);
    if end > first_covered(y, from, size) {
        lemma_weight_normal(image, x, y, size, end - 1);
        lemma_row_weight_normal(
            image,
            x,
            y,
            size,
            end - 1,
            area_total(image, None, x, y, size, end - 1),
            end_covered(x, from, size),
        );
    }
}

/// An averaged colour does not exceed the averaged alpha.
proof fn lemma_average_order(image: Image, which: int, x: int, y: int, size: int)
    requires
        image.square(),
        forall|i: int| 0 <= i < image.pixels@.len() ==> within_alpha(#[trigger] image.pixels@[i]),
        0 <= x < size,
        0 <= y < size,
    ensures
        0 <= area_average(image, which, x, y, size) <= area_average(image, 0, x, y, size),
{
    let end = end_covered(y, image.size as int, size);
    let total = area_total(image, None, x, y, size, end);
    let weight = greater(total, least_weight());
    lemma_weight_normal(image, x, y, size, end);
    zero_is_least(total, least_weight());
    let colour = area_total(image, Some(which), x, y, size, end);
    let alpha = area_total(image, Some(0), x, y, size, end);
    lemma_area_total_order(image, which, x, y, size, end);
    quotients_keep_the_order(colour, alpha, weight);
    results_are_normal(colour, weight);
    results_are_normal(alpha, weight);
    results_are_normal(quotient(colour, weight), half());
    results_are_normal(quotient(alpha, weight), half());
    sums_keep_the_order(quotient(colour, weight), half(), quotient(alpha, weight), half());
    whole_parts_keep_the_order(
        sum(quotient(colour, weight), half()),
        sum(quotient(alpha, weight), half()),
    );
}

/// Resampling keeps colours within their alpha, as premultiplied pixels have
/// them.
pub proof fn resampling_keeps_pixels_premultiplied(image: Image, x: int, y: int, size: int)
    requires
        image.square(),
        forall|i: int| 0 <= i < image.pixels@.len() ==> within_alpha(#[trigger] image.pixels@[i]),
        0 <= x < size,
        0 <= y < size,
    ensures
        within_alpha(resampled_pixel(image, x, y, size)),
{
    lemma_average_order(image, 1, x, y, size);
    lemma_average_order(image, 2, x, y, size);
    lemma_average_order(image, 3, x, y, size);
    lemma_channels(
        clamp(area_average(image, 0, x, y, size)),
        area_average(image, 1, x, y, size),
        area_average(image, 2, x, y, size),
        area_average(image, 3, x, y, size),
    );
}

} // verus!
