//! The program's icon as pixels. Everything here is plain arithmetic on
//! premultiplied `0xAARRGGBB` pixels, so it runs anywhere.

pub mod file;
pub mod resample;
pub mod single;

use vstd::prelude::*;

verus! {

/// One premultiplied pixel: alpha in the top byte, then red, green, blue.
pub type Pixel = u32;

/// Side of the embedded artwork.
pub const EMBEDDED_SIZE: usize = 64;

/// A square image in row-major order.
#[derive(Debug, Clone, PartialEq, Eq)]
pub struct Image {
    pub size: usize,
    pub pixels: Vec<Pixel>,
}

// ---------------------------------------------------------------------------
// Pixels.
// ---------------------------------------------------------------------------

/// The alpha of a pixel.
pub open spec fn alpha_of(p: Pixel) -> int {
    p as int / 0x100_0000
}

/// The red of a pixel.
pub open spec fn red_of(p: Pixel) -> int {
    p as int / 0x1_0000 % 0x100
}

/// The green of a pixel.
pub open spec fn green_of(p: Pixel) -> int {
    p as int / 0x100 % 0x100
}

/// The blue of a pixel.
pub open spec fn blue_of(p: Pixel) -> int {
    p as int % 0x100
}

/// A channel held at its largest value.
pub open spec fn clamp(c: int) -> int {
    if c > 255 {
        255
    } else {
        c
    }
}

/// The pixel with these channels, each held at its largest value.
pub open spec fn pixel_of(a: int, r: int, g: int, b: int) -> Pixel {
    (clamp(a) * 0x100_0000 + clamp(r) * 0x1_0000 + clamp(g) * 0x100 + clamp(b)) as u32
}

/// A channel scaled by `a`, rounded to the nearest.
pub open spec fn scaled_by(c: int, a: int) -> int {
    (c * a + 127) / 255
}

/// A channel divided by `a` again, rounded to the nearest.
pub open spec fn unscaled_by(c: int, a: int) -> int {
    (c * 255 + a / 2) / a
}

/// What [`premultiply`] gives.
pub open spec fn premultiplied(p: Pixel) -> Pixel {
    let a = alpha_of(p);
    pixel_of(a, scaled_by(red_of(p), a), scaled_by(green_of(p), a), scaled_by(blue_of(p), a))
}

/// What [`unpremultiply`] gives.
pub open spec fn unpremultiplied(p: Pixel) -> Pixel {
    let a = alpha_of(p);
    if a == 0 {
        0
    } else {
        pixel_of(
            a,
            unscaled_by(red_of(p), a),
            unscaled_by(green_of(p), a),
            unscaled_by(blue_of(p), a),
        )
    }
}

/// A fully opaque pixel.
pub fn opaque(r: u8, g: u8, b: u8) -> (pixel: Pixel)
    ensures
        pixel == pixel_of(255, r as int, g as int, b as int),
{
    255 * 0x100_0000 + r as u32 * 0x1_0000 + g as u32 * 0x100 + b as u32
}

/// The alpha byte of a pixel.
pub fn alpha(pixel: Pixel) -> (a: u8)
    ensures
        a == alpha_of(pixel),
{
    (pixel / 0x100_0000) as u8
}

/// The channels of a pixel: alpha, red, green, blue.
pub fn channels(pixel: Pixel) -> (channels: [u32; 4])
    ensures
        channels@ == seq![
            alpha_of(pixel) as u32,
            red_of(pixel) as u32,
            green_of(pixel) as u32,
            blue_of(pixel) as u32,
        ],
{
    let channels = [
        pixel / 0x100_0000,
        pixel / 0x1_0000 % 0x100,
        pixel / 0x100 % 0x100,
        pixel % 0x100,
    ];
    assert(channels@ == seq![
        alpha_of(pixel) as u32,
        red_of(pixel) as u32,
        green_of(pixel) as u32,
        blue_of(pixel) as u32,
    ]);
    channels
}

/// A channel held at its largest value.
fn clamped(c: u32) -> (held: u32)
    ensures
        held == clamp(c as int),
{
    if c > 255 {
        255
    } else {
        c
    }
}

/// The pixel with these channels, each held at its largest value.
pub fn from_channels(channels: [u32; 4]) -> (pixel: Pixel)
    ensures
        pixel == pixel_of(
            channels@[0] as int,
            channels@[1] as int,
            channels@[2] as int,
            channels@[3] as int,
        ),
{
    clamped(channels[0]) * 0x100_0000 + clamped(channels[1]) * 0x1_0000 + clamped(channels[2])
        * 0x100 + clamped(channels[3])
}

/// One channel on the way to premultiplied form.
fn scale_channel(c: u32, a: u32) -> (scaled: u32)
    requires
        c < 0x100,
        a < 0x100,
    ensures
        scaled == scaled_by(c as int, a as int),
{
    assert(c * a <= 255 * 255) by (nonlinear_arith)
        requires
            c <= 255,
            a <= 255,
    ;
    (c * a + 127) / 255
}

/// One channel on the way back to straight alpha.
fn unscale_channel(c: u32, a: u32) -> (unscaled: u32)
    requires
        c < 0x100,
        0 < a < 0x100,
    ensures
        unscaled == unscaled_by(c as int, a as int),
{
    (c * 255 + a / 2) / a
}

/// Converts a straight-alpha pixel to premultiplied form.
pub fn premultiply(straight: Pixel) -> (pixel: Pixel)
    ensures
        pixel == premultiplied(straight),
{
    let parts = channels(straight);
    let a: u32 = parts[0];
    from_channels(
        [a, scale_channel(parts[1], a), scale_channel(parts[2], a), scale_channel(parts[3], a)],
    )
}

/// Converts a premultiplied pixel back to straight alpha, as icon files
/// store it.
pub fn unpremultiply(premultiplied: Pixel) -> (pixel: Pixel)
    ensures
        pixel == unpremultiplied(premultiplied),
{
    let parts = channels(premultiplied);
    let a: u32 = parts[0];
    if a == 0 {
        return 0;
    }
    from_channels(
        [
            a,
            unscale_channel(parts[1], a),
            unscale_channel(parts[2], a),
            unscale_channel(parts[3], a),
        ],
    )
}

// ---------------------------------------------------------------------------
// Images.
// ---------------------------------------------------------------------------

impl Image {
    /// Whether the image has one pixel for each place.
    pub open spec fn square(&self) -> bool {
        self.pixels@.len() == self.size * self.size
    }

    /// The pixel at column `x` of row `y`.
    pub open spec fn at(&self, x: int, y: int) -> Pixel {
        self.pixels@[y * self.size + x]
    }

    /// A transparent image.
    pub fn blank(size: usize) -> (image: Self)
        requires
            size * size <= usize::MAX,
        ensures
            image.size == size,
            image.square(),
            forall|i: int| 0 <= i < image.pixels@.len() ==> #[trigger] image.pixels@[i] == 0,
    {
        let pixels: Vec<Pixel> = vec![0; size * size];
        Image { size, pixels }
    }

    /// Wraps existing pixels; their count must be `size` squared.
    pub fn from_pixels(size: usize, pixels: Vec<Pixel>) -> (image: Option<Self>)
        ensures
            image is Some <==> pixels@.len() == size * size,
            image matches Some(image) ==> image.size == size && image.pixels == pixels,
    {
        let given: usize = pixels.len();
        match size.checked_mul(size) {
            Some(count) => if given == count {
                Some(Image { size, pixels })
            } else {
                None
            },
            None => None,
        }
    }

    /// The pixel at column `x` of row `y`.
    pub fn get(&self, x: usize, y: usize) -> (pixel: Pixel)
        requires
            y * self.size + x < self.pixels@.len(),
        ensures
            pixel == self.at(x as int, y as int),
    {
        let ghost count = self.pixels.len();
        assert(y * self.size >= 0) by (nonlinear_arith)
            requires
                y >= 0,
                self.size >= 0,
        ;
        self.pixels[y * self.size + x]
    }

    /// Whether any pixel has a non-zero alpha.
    pub fn has_alpha(&self) -> (any: bool)
        ensures
            any == exists|i: int|
                0 <= i < self.pixels@.len() && alpha_of(#[trigger] self.pixels@[i]) != 0,
    {
        let mut i: usize = 0;
        while i < self.pixels.len()
            invariant
                i <= self.pixels@.len(),
                forall|j: int| 0 <= j < i ==> alpha_of(#[trigger] self.pixels@[j]) == 0,
            decreases self.pixels@.len() - i,
        {
            if alpha(self.pixels[i]) != 0 {
                assert(alpha_of(self.pixels@[i as int]) != 0);
                return true;
            }
            i = i + 1;
        }
        false
    }
}

// ---------------------------------------------------------------------------
// Icon files.
// ---------------------------------------------------------------------------

/// The two bytes of `n`, least significant first.
pub open spec fn le16(n: nat) -> Seq<u8> {
    seq![(n % 256) as u8, (n / 256 % 256) as u8]
}

/// Bytes in one row of the mask: a bit for each pixel, in units of four bytes.
pub open spec fn mask_row_len(size: nat) -> nat {
    (size + 31) / 32 * 4
}

/// Bytes of pixels in an icon file.
pub open spec fn pixel_len(size: nat) -> nat {
    size * size * 4
}

/// Bytes of mask in an icon file.
pub open spec fn mask_len(size: nat) -> nat {
    mask_row_len(size) * size
}

/// The directory of an icon file with one entry, the entry, and the header of
/// its bitmap. A side of zero means 256; the bitmap's height is doubled for the
/// mask.
pub open spec fn ico_header(size: nat) -> Seq<u8> {
    let side = if size >= 256 {
        0u8
    } else {
        size as u8
    };
    let body = pixel_len(size) + mask_len(size);
    le16(0) + le16(1) + le16(1) + seq![side, side, 0u8, 0u8] + le16(1) + le16(32)
        + crate::frame::le_bytes(40 + body) + crate::frame::le_bytes(22) + crate::frame::le_bytes(
        40,
    ) + crate::frame::le_bytes(size) + crate::frame::le_bytes(size * 2) + le16(1) + le16(32)
        + crate::frame::le_bytes(0) + crate::frame::le_bytes(body) + Seq::new(16, |i: int| 0u8)
}

/// The first `count` pixels of row `y`, with straight alpha.
pub open spec fn pixel_row(image: Image, y: int, count: nat) -> Seq<u8>
    decreases count,
{
    if count == 0 {
        Seq::empty()
    } else {
        pixel_row(image, y, (count - 1) as nat) + crate::frame::le_bytes(
            unpremultiplied(image.at(count - 1, y)) as nat,
        )
    }
}

/// The last `rows` rows of pixels, the last one first.
pub open spec fn pixel_rows(image: Image, rows: nat) -> Seq<u8>
    decreases rows,
{
    if rows == 0 {
        Seq::empty()
    } else {
        pixel_rows(image, (rows - 1) as nat) + pixel_row(
            image,
            image.size - rows,
            image.size as nat,
        )
    }
}

/// Whether the mask covers column `x` of row `y`: the pixel is fully
/// transparent.
pub open spec fn masked(image: Image, x: int, y: int) -> bool {
    x < image.size && alpha_of(image.at(x, y)) == 0
}

/// The mask of the `count` pixels from column `x` on as a number, the first
/// pixel in the highest bit.
pub open spec fn mask_bits(image: Image, x: int, y: int, count: nat) -> nat
    decreases count,
{
    if count == 0 {
        0
    } else {
        2 * mask_bits(image, x, y, (count - 1) as nat) + if masked(image, x + count - 1, y) {
            1nat
        } else {
            0
        }
    }
}

/// The mask of row `y`, eight pixels in a byte.
pub open spec fn mask_row(image: Image, y: int) -> Seq<u8> {
    Seq::new(mask_row_len(image.size as nat), |k: int| mask_bits(image, k * 8, y, 8) as u8)
}

/// The mask of the last `rows` rows, the last one first.
pub open spec fn mask_rows(image: Image, rows: nat) -> Seq<u8>
    decreases rows,
{
    if rows == 0 {
        Seq::empty()
    } else {
        mask_rows(image, (rows - 1) as nat) + mask_row(image, image.size - rows)
    }
}

/// The icon file that holds `image`.
pub open spec fn ico_of(image: Image) -> Seq<u8> {
    ico_header(image.size as nat) + pixel_rows(image, image.size as nat) + mask_rows(
        image,
        image.size as nat,
    )
}

/// Appends the two bytes of `n`.
fn put16(out: &mut Vec<u8>, n: u16)
    ensures
        final(out)@ == old(out)@ + le16(n as nat),
{
    out.push((n % 256) as u8);
    out.push((n / 256 % 256) as u8);
    assert(out@ == old(out)@ + le16(n as nat));
}

/// Appends the four bytes of `n`.
fn put32(out: &mut Vec<u8>, n: u32)
    ensures
        final(out)@ == old(out)@ + crate::frame::le_bytes(n as nat),
{
    out.push((n % 256) as u8);
    out.push((n / 256 % 256) as u8);
    out.push((n / 65_536 % 256) as u8);
    out.push((n / 16_777_216 % 256) as u8);
    assert(out@ == old(out)@ + crate::frame::le_bytes(n as nat));
}

/// The header of an icon file.
fn ico_start(size: u32, pixel_bytes: u32, mask_bytes: u32) -> (out: Vec<u8>)
    requires
        pixel_bytes == pixel_len(size as nat),
        mask_bytes == mask_len(size as nat),
        40 + pixel_bytes + mask_bytes <= u32::MAX,
        size <= 0xffff,
    ensures
        out@ == ico_header(size as nat),
{
    let mut out: Vec<u8> = Vec::new();
    put16(&mut out, 0);
    put16(&mut out, 1);
    put16(&mut out, 1);
    let side: u8 = if size >= 256 {
        0
    } else {
        size as u8
    };
    out.push(side);
    out.push(side);
    out.push(0);
    out.push(0);
    assert(out@ == le16(0) + le16(1) + le16(1) + seq![side, side, 0u8, 0u8]);
    put16(&mut out, 1);
    put16(&mut out, 32);
    put32(&mut out, 40 + (pixel_bytes + mask_bytes));
    put32(&mut out, 22);
    put32(&mut out, 40);
    put32(&mut out, size);
    put32(&mut out, size * 2);
    put16(&mut out, 1);
    put16(&mut out, 32);
    put32(&mut out, 0);
    put32(&mut out, pixel_bytes + mask_bytes);
    let ghost before = out@;
    put32(&mut out, 0);
    put32(&mut out, 0);
    put32(&mut out, 0);
    put32(&mut out, 0);
    assert(out@ == before + Seq::new(16, |i: int| 0u8));
    out
}

/// A place in row `y` of a square image.
proof fn lemma_place(image: Image, x: int, y: int)
    requires
        image.square(),
        0 <= x < image.size,
        0 <= y < image.size,
    ensures
        0 <= y * image.size + x < image.pixels@.len(),
{
    assert(y * image.size + x < image.size * image.size && y * image.size >= 0)
        by (nonlinear_arith)
        requires
            0 <= x < image.size,
            0 <= y < image.size,
    ;
}

/// Appends row `y` of the pixels.
fn put_pixel_row(out: &mut Vec<u8>, image: &Image, y: usize)
    requires
        image.square(),
        y < image.size,
    ensures
        final(out)@ == old(out)@ + pixel_row(*image, y as int, image.size as nat),
{
    let ghost start = out@;
    let mut x: usize = 0;
    assert(start + pixel_row(*image, y as int, 0) == start);
    while x < image.size
        invariant
            image.square(),
            y < image.size,
            x <= image.size,
            out@ == start + pixel_row(*image, y as int, x as nat),
        decreases image.size - x,
    {
        proof {
            lemma_place(*image, x as int, y as int);
        }
        put32(out, unpremultiply(image.get(x, y)));
        x = x + 1;
        assert(out@ == start + pixel_row(*image, y as int, x as nat));
    }
}

/// The mask of the eight pixels from column `x` on.
fn mask_byte(image: &Image, x: usize, y: usize) -> (byte: u8)
    requires
        image.square(),
        y < image.size,
        x + 8 <= usize::MAX,
    ensures
        byte == mask_bits(*image, x as int, y as int, 8),
{
    let mut byte: u32 = 0;
    let mut count: usize = 0;
    while count < 8
        invariant
            image.square(),
            y < image.size,
            x + 8 <= usize::MAX,
            count <= 8,
            byte == mask_bits(*image, x as int, y as int, count as nat),
            count == 0 ==> byte == 0,
            count == 1 ==> byte < 2,
            count == 2 ==> byte < 4,
            count == 3 ==> byte < 8,
            count == 4 ==> byte < 16,
            count == 5 ==> byte < 32,
            count == 6 ==> byte < 64,
            count == 7 ==> byte < 128,
            count == 8 ==> byte < 256,
        decreases 8 - count,
    {
        let column: usize = x + count;
        let covered = if column < image.size {
            proof {
                lemma_place(*image, column as int, y as int);
            }
            alpha(image.get(column, y)) == 0
        } else {
            false
        };
        assert(covered == masked(*image, column as int, y as int));
        byte = 2 * byte + if covered {
            1
        } else {
            0
        };
        count = count + 1;
    }
    byte as u8
}

/// Appends the mask of row `y`.
fn put_mask_row(out: &mut Vec<u8>, image: &Image, y: usize, row_len: usize)
    requires
        image.square(),
        y < image.size,
        image.size <= 0xffff,
        row_len == mask_row_len(image.size as nat),
    ensures
        final(out)@ == old(out)@ + mask_row(*image, y as int),
{
    let ghost start = out@;
    let mut k: usize = 0;
    while k < row_len
        invariant
            image.square(),
            y < image.size,
            image.size <= 0xffff,
            row_len == mask_row_len(image.size as nat),
            k <= row_len,
            out@ == start + mask_row(*image, y as int).take(k as int),
        decreases row_len - k,
    {
        out.push(mask_byte(image, k * 8, y));
        k = k + 1;
        assert(mask_row(*image, y as int).take(k as int) == mask_row(*image, y as int).take(
            k - 1,
        ).push(mask_row(*image, y as int)[k - 1]));
    }
    assert(mask_row(*image, y as int).take(k as int) == mask_row(*image, y as int));
}

/// Bytes of an icon file holding `image` as its one entry: 32-bit pixels
/// with straight alpha, bottom-up, followed by a 1-bit mask that is set
/// wherever the pixel is fully transparent. The file's length fields hold 32
/// bits.
pub fn ico_bytes(image: &Image) -> (bytes: Vec<u8>)
    requires
        image.square(),
        40 + pixel_len(image.size as nat) + mask_len(image.size as nat) <= u32::MAX,
    ensures
        bytes@ == ico_of(*image),
{
    let size: usize = image.size;
    proof {
        let n = size as int;
        assert(mask_len(n as nat) >= 0);
        assert(n <= 0xffff) by (nonlinear_arith)
            requires
                n * n * 4 <= u32::MAX,
                n >= 0,
        ;
        assert(n * n >= 0 && mask_row_len(n as nat) * n >= 0) by (nonlinear_arith)
            requires
                n >= 0,
        ;
    }
    let row_len: usize = (size + 31) / 32 * 4;
    let mut out = ico_start(size as u32, (size * size * 4) as u32, (row_len * size) as u32);
    let ghost header = out@;
    let mut rows: usize = 0;
    assert(header + pixel_rows(*image, 0) == header);
    while rows < size
        invariant
            image.square(),
            size == image.size,
            rows <= size,
            out@ == header + pixel_rows(*image, rows as nat),
        decreases size - rows,
    {
        put_pixel_row(&mut out, image, size - 1 - rows);
        rows = rows + 1;
        assert(out@ == header + pixel_rows(*image, rows as nat));
    }
    let ghost pixels = out@;
    rows = 0;
    assert(pixels + mask_rows(*image, 0) == pixels);
    while rows < size
        invariant
            image.square(),
            size == image.size,
            size <= 0xffff,
            row_len == mask_row_len(size as nat),
            rows <= size,
            out@ == pixels + mask_rows(*image, rows as nat),
        decreases size - rows,
    {
        put_mask_row(&mut out, image, size - 1 - rows, row_len);
        rows = rows + 1;
        assert(out@ == pixels + mask_rows(*image, rows as nat));
    }
    out
}

impl Image {
    /// The artwork: [`EMBEDDED_SIZE`] rows of premultiplied pixels, one
    /// little-endian pixel after another. `None` when the bytes are not those
    /// of a square of that size.
    pub fn embedded(artwork: &[u8]) -> (image: Option<Self>)
        ensures
            image is Some <==> artwork@.len() / 4 == EMBEDDED_SIZE * EMBEDDED_SIZE,
            image matches Some(image) ==> {
                &&& image.size == EMBEDDED_SIZE
                &&& image.square()
                &&& forall|i: int|
                    0 <= i < image.pixels@.len() ==> #[trigger] image.pixels@[i] == crate::pb::le32(
                        artwork@.skip(i * 4),
                    )
            },
    {
        let mut pixels: Vec<Pixel> = Vec::new();
        let mut at: usize = 0;
        while artwork.len() - at >= 4
            invariant
                at <= artwork@.len(),
                at == pixels@.len() * 4,
                forall|i: int|
                    0 <= i < pixels@.len() ==> #[trigger] pixels@[i] == crate::pb::le32(
                        artwork@.skip(i * 4),
                    ),
            decreases artwork@.len() - at,
        {
            let pixel: u32 = artwork[at] as u32 + artwork[at + 1] as u32 * 0x100 + artwork[at
                + 2] as u32 * 0x1_0000 + artwork[at + 3] as u32 * 0x100_0000;
            assert(pixel == crate::pb::le32(artwork@.skip(at as int)));
            pixels.push(pixel);
            at = at + 4;
        }
        Image::from_pixels(EMBEDDED_SIZE, pixels)
    }
}

/// A pixel of an icon that has no alpha channel: transparent where its mask is
/// set, opaque elsewhere.
pub open spec fn masked_pixel(pixel: Pixel, mask: Pixel) -> Pixel {
    if mask % 0x100_0000 != 0 {
        0
    } else {
        (0xff00_0000 + pixel % 0x100_0000) as Pixel
    }
}

impl Image {
    /// The image with an alpha channel from its mask: transparent where the
    /// mask is set, opaque elsewhere.
    pub fn with_mask(&self, mask: &Image) -> (image: Self)
        requires
            mask.pixels@.len() == self.pixels@.len(),
        ensures
            image.size == self.size,
            image.pixels@.len() == self.pixels@.len(),
            forall|i: int|
                0 <= i < image.pixels@.len() ==> #[trigger] image.pixels@[i] == masked_pixel(
                    self.pixels@[i],
                    mask.pixels@[i],
                ),
    {
        let mut pixels: Vec<Pixel> = Vec::new();
        let mut i: usize = 0;
        while i < self.pixels.len()
            invariant
                i <= self.pixels@.len(),
                i == pixels@.len(),
                mask.pixels@.len() == self.pixels@.len(),
                forall|j: int|
                    0 <= j < i ==> #[trigger] pixels@[j] == masked_pixel(
                        self.pixels@[j],
                        mask.pixels@[j],
                    ),
            decreases self.pixels@.len() - i,
        {
            if mask.pixels[i] % 0x100_0000 != 0 {
                pixels.push(0);
            } else {
                pixels.push(0xff00_0000 + self.pixels[i] % 0x100_0000);
            }
            i = i + 1;
        }
        Image { size: self.size, pixels }
    }
}

// ---------------------------------------------------------------------------
// Laws.
// ---------------------------------------------------------------------------

proof fn lemma_channels(a: int, r: int, g: int, b: int)
    requires
        0 <= a <= 255,
        0 <= r,
        0 <= g,
        0 <= b,
    ensures
        alpha_of(pixel_of(a, r, g, b)) == a,
        red_of(pixel_of(a, r, g, b)) == clamp(r),
        green_of(pixel_of(a, r, g, b)) == clamp(g),
        blue_of(pixel_of(a, r, g, b)) == clamp(b),
{
    let (r, g, b) = (clamp(r), clamp(g), clamp(b));
    let p = a * 0x100_0000 + r * 0x1_0000 + g * 0x100 + b;
    assert(0 <= p <= u32::MAX);
    vstd::arithmetic::div_mod::lemma_fundamental_div_mod_converse(
        p,
        0x100_0000,
        a,
        r * 0x1_0000 + g * 0x100 + b,
    );
    vstd::arithmetic::div_mod::lemma_fundamental_div_mod_converse(
        p,
        0x1_0000,
        a * 0x100 + r,
        g * 0x100 + b,
    );
    vstd::arithmetic::div_mod::lemma_fundamental_div_mod_converse(a * 0x100 + r, 0x100, a, r);
    vstd::arithmetic::div_mod::lemma_fundamental_div_mod_converse(
        p,
        0x100,
        a * 0x1_0000 + r * 0x100 + g,
        b,
    );
    vstd::arithmetic::div_mod::lemma_fundamental_div_mod_converse(
        a * 0x1_0000 + r * 0x100 + g,
        0x100,
        a * 0x100 + r,
        g,
    );
}

/// A channel that is scaled down and up again comes back to within one step
/// for each unit of alpha that fits into 255, and one more.
proof fn lemma_channel_round_trip(c: int, a: int)
    requires
        0 <= c <= 255,
        0 < a <= 255,
    ensures
        0 <= scaled_by(c, a) <= a,
        -(255int / a + 1) <= unscaled_by(scaled_by(c, a), a) - c <= 255int / a + 1,
        unscaled_by(scaled_by(c, a), a) >= 0,
        a == 255 ==> unscaled_by(scaled_by(c, a), a) == c,
{
    let product = c * a;
    assert(0 <= product <= 255 * a) by (nonlinear_arith)
        requires
            product == c * a,
            0 <= c <= 255,
            0 < a,
    ;
    let scaled = scaled_by(c, a);
    let error = scaled * 255 - product;
    assert(-127 <= error <= 127);
    let total = scaled * 255 + a / 2;
    let back = total / a;
    let quotient = 255int / a;
    assert(quotient * a <= 255 < (quotient + 1) * a) by (nonlinear_arith)
        requires
            quotient == 255int / a,
            a > 0,
    ;
    assert(back * a <= total < (back + 1) * a) by (nonlinear_arith)
        requires
            back == total / a,
            a > 0,
    ;
    assert(back <= c + quotient + 1) by (nonlinear_arith)
        requires
            back * a <= total,
            total <= c * a + 127 + a / 2,
            255 < (quotient + 1) * a,
            a > 0,
    ;
    assert(c - quotient - 1 <= back) by (nonlinear_arith)
        requires
            total < (back + 1) * a,
            total >= c * a - 127,
            255 < (quotient + 1) * a,
            a > 0,
    ;
    assert(back >= 0) by (nonlinear_arith)
        requires
            total < (back + 1) * a,
            total >= 0,
            a > 0,
    ;
}

/// Whether two channel values lie within the rounding of an alpha of `a`.
pub open spec fn close(x: int, y: int, a: int) -> bool {
    -(255int / a + 1) <= x - y <= 255int / a + 1
}

/// Going to premultiplied form and back keeps the alpha, and each channel to
/// within the rounding that the alpha allows.
pub proof fn unpremultiplication_undoes_premultiplication(p: Pixel)
    requires
        alpha_of(p) > 0,
    ensures
        ({
            let back = unpremultiplied(premultiplied(p));
            let a = alpha_of(p);
            &&& alpha_of(back) == a
            &&& close(red_of(back), red_of(p), a)
            &&& close(green_of(back), green_of(p), a)
            &&& close(blue_of(back), blue_of(p), a)
        }),
{
    let a = alpha_of(p);
    let r = red_of(p);
    let g = green_of(p);
    let b = blue_of(p);
    lemma_channel_round_trip(r, a);
    lemma_channel_round_trip(g, a);
    lemma_channel_round_trip(b, a);
    lemma_channels(a, scaled_by(r, a), scaled_by(g, a), scaled_by(b, a));
    lemma_channels(
        a,
        unscaled_by(scaled_by(r, a), a),
        unscaled_by(scaled_by(g, a), a),
        unscaled_by(scaled_by(b, a), a),
    );
}

/// A channel that is not above the alpha comes back when it is scaled up and
/// down again.
proof fn lemma_channel_comes_back(c: int, a: int)
    requires
        0 <= c <= a,
        0 < a <= 255,
    ensures
        0 <= unscaled_by(c, a) <= 255,
        scaled_by(unscaled_by(c, a), a) == c,
{
    let total = c * 255 + a / 2;
    let up = total / a;
    assert(up * a <= total < up * a + a) by (nonlinear_arith)
        requires
            up == total / a,
            a > 0,
    ;
    assert(0 <= up <= 255) by (nonlinear_arith)
        requires
            up * a <= total,
            total < up * a + a,
            0 <= total < 256 * a,
            a > 0,
    ;
    let product = up * a;
    assert(c * 255 <= product + 127 < c * 255 + 255);
}

/// Leaving premultiplied form and going back gives the pixel, if none of its
/// colours is above its alpha.
#[verifier::spinoff_prover]
pub proof fn premultiplication_undoes_unpremultiplication(p: Pixel)
    requires
        red_of(p) <= alpha_of(p),
        green_of(p) <= alpha_of(p),
        blue_of(p) <= alpha_of(p),
    ensures
        premultiplied(unpremultiplied(p)) == p,
{
    let a = alpha_of(p);
    let r = red_of(p);
    let g = green_of(p);
    let b = blue_of(p);
    assert(p as int == a * 0x100_0000 + r * 0x1_0000 + g * 0x100 + b);
    if a == 0 {
        opaque_pixels_stay(p);
        opaque_pixels_stay(0);
    } else {
        lemma_channel_comes_back(r, a);
        lemma_channel_comes_back(g, a);
        lemma_channel_comes_back(b, a);
        lemma_channels(a, unscaled_by(r, a), unscaled_by(g, a), unscaled_by(b, a));
    }
}

/// An opaque pixel is the same in both forms, and a fully transparent one is
/// nothing in either.
pub proof fn opaque_pixels_stay(p: Pixel)
    ensures
        alpha_of(p) == 255 ==> premultiplied(p) == p && unpremultiplied(p) == p,
        alpha_of(p) == 0 ==> premultiplied(p) == 0 && unpremultiplied(p) == 0,
{
    assert(p as int == alpha_of(p) * 0x100_0000 + red_of(p) * 0x1_0000 + green_of(p) * 0x100
        + blue_of(p));
}

/// A premultiplied pixel's colours never exceed its alpha.
pub proof fn colours_stay_below_the_alpha(p: Pixel)
    ensures
        ({
            let q = premultiplied(p);
            red_of(q) <= alpha_of(q) && green_of(q) <= alpha_of(q) && blue_of(q) <= alpha_of(q)
        }),
{
    let a = alpha_of(p);
    if a > 0 {
        lemma_channel_round_trip(red_of(p), a);
        lemma_channel_round_trip(green_of(p), a);
        lemma_channel_round_trip(blue_of(p), a);
    } else {
        opaque_pixels_stay(p);
    }
    lemma_channels(
        a,
        scaled_by(red_of(p), a),
        scaled_by(green_of(p), a),
        scaled_by(blue_of(p), a),
    );
}

proof fn lemma_pixel_row_len(image: Image, y: int, count: nat)
    ensures
        pixel_row(image, y, count).len() == count * 4,
    decreases count,
{
    if count > 0 {
        lemma_pixel_row_len(image, y, (count - 1) as nat);
    }
}

proof fn lemma_rows_len(image: Image, rows: nat)
    ensures
        pixel_rows(image, rows).len() == rows * (image.size * 4),
        mask_rows(image, rows).len() == rows * mask_row_len(image.size as nat),
    decreases rows,
{
    if rows == 0 {
        assert(0 * (image.size * 4) == 0 && 0 * mask_row_len(image.size as nat) == 0)
            by (nonlinear_arith);
    }
    if rows > 0 {
        let less = (rows - 1) as nat;
        lemma_rows_len(image, less);
        lemma_pixel_row_len(image, image.size - rows, image.size as nat);
        let a = image.size as int * 4;
        let b = mask_row_len(image.size as nat) as int;
        assert(less * a + a == rows * a && less * b + b == rows * b) by (nonlinear_arith)
            requires
                less == rows - 1,
        ;
    }
}

/// The length that an icon file states for its one entry is the length of
/// everything behind the directory.
pub proof fn icon_files_state_their_length(image: Image)
    ensures
        ico_of(image).len() == 22 + (40 + pixel_len(image.size as nat) + mask_len(
            image.size as nat,
        )),
{
    let size = image.size as nat;
    lemma_rows_len(image, size);
    assert(ico_header(size).len() == 62);
    assert(size * (size * 4) == size * size * 4 && size * mask_row_len(size) == mask_row_len(size)
        * size) by (nonlinear_arith);
}

} // verus!
