//! What an icon file holds, place by place.

use vstd::prelude::*;

use crate::icon::{
    alpha_of, ico_header, ico_of, lemma_pixel_row_len, lemma_rows_len, mask_bits, mask_row,
    mask_row_len, mask_rows, masked, pixel_row, pixel_rows, unpremultiplied, Image,
};

verus! {

/// Where the pixel at column `x` of row `y` stands in an icon file.
pub open spec fn pixel_place(size: int, x: int, y: int) -> int {
    62 + ((size - 1 - y) * size + x) * 4
}

/// Where the mask bit for column `x` of row `y` stands in an icon file: in which
/// byte.
pub open spec fn mask_place(size: int, x: int, y: int) -> int {
    62 + size * size * 4 + (size - 1 - y) * mask_row_len(size as nat) + x / 8
}

/// The bit for a column in its byte of the mask, the leftmost being the highest.
pub open spec fn mask_bit(byte: u8, x: int) -> int {
    let bit = x % 8;
    if bit == 0 {
        byte as int / 128
    } else if bit == 1 {
        byte as int / 64 % 2
    } else if bit == 2 {
        byte as int / 32 % 2
    } else if bit == 3 {
        byte as int / 16 % 2
    } else if bit == 4 {
        byte as int / 8 % 2
    } else if bit == 5 {
        byte as int / 4 % 2
    } else if bit == 6 {
        byte as int / 2 % 2
    } else {
        byte as int % 2
    }
}

proof fn lemma_row_pixel(image: Image, y: int, count: nat, x: int)
    requires
        0 <= x < count,
    ensures
        pixel_row(image, y, count).subrange(x * 4, x * 4 + 4) == crate::frame::le_bytes(
            unpremultiplied(image.at(x, y)) as nat,
        ),
    decreases count,
{
    let before = pixel_row(image, y, (count - 1) as nat);
    let last = crate::frame::le_bytes(unpremultiplied(image.at(count - 1, y)) as nat);
    lemma_pixel_row_len(image, y, count);
    lemma_pixel_row_len(image, y, (count - 1) as nat);
    if x < count - 1 {
        lemma_row_pixel(image, y, (count - 1) as nat, x);
        assert((before + last).subrange(x * 4, x * 4 + 4) == before.subrange(x * 4, x * 4 + 4));
    } else {
        assert((before + last).subrange(x * 4, x * 4 + 4) == last);
    }
}

proof fn lemma_stored_row(image: Image, rows: nat, b: int)
    requires
        0 <= b < rows <= image.size,
    ensures
        pixel_rows(image, rows).subrange(b * (image.size * 4), b * (image.size * 4) + image.size * 4)
            == pixel_row(image, image.size - 1 - b, image.size as nat),
        b * (image.size * 4) + image.size * 4 <= pixel_rows(image, rows).len(),
        mask_rows(image, rows).subrange(
            b * mask_row_len(image.size as nat),
            b * mask_row_len(image.size as nat) + mask_row_len(image.size as nat),
        ) == mask_row(image, image.size - 1 - b),
        b * mask_row_len(image.size as nat) + mask_row_len(image.size as nat) <= mask_rows(
            image,
            rows,
        ).len(),
        b * (image.size * 4) >= 0,
        b * mask_row_len(image.size as nat) >= 0,
    decreases rows,
{
    let w = image.size as int * 4;
    let m = mask_row_len(image.size as nat) as int;
    let less = (rows - 1) as nat;
    lemma_rows_len(image, rows);
    lemma_rows_len(image, less);
    lemma_pixel_row_len(image, image.size - rows, image.size as nat);
    let before = pixel_rows(image, less);
    let row = pixel_row(image, image.size - rows, image.size as nat);
    let covered = mask_rows(image, less);
    let mask = mask_row(image, image.size - rows);
    assert(b * w >= 0 && b * m >= 0 && less * w + w == rows * w && less * m + m == rows * m)
        by (nonlinear_arith)
        requires
            b >= 0,
            w >= 0,
            m >= 0,
            less == rows - 1,
    ;
    if b < less {
        lemma_stored_row(image, less, b);
        assert((before + row).subrange(b * w, b * w + w) == before.subrange(b * w, b * w + w));
        assert((covered + mask).subrange(b * m, b * m + m) == covered.subrange(b * m, b * m + m));
    } else {
        assert((before + row).subrange(b * w, b * w + w) == row);
        assert((covered + mask).subrange(b * m, b * m + m) == mask);
    }
}

proof fn lemma_mask_byte(image: Image, x: int, y: int)
    requires
        0 <= x,
    ensures
        mask_bits(image, x - x % 8, y, 8) < 256,
        mask_bit(mask_bits(image, x - x % 8, y, 8) as u8, x) == if masked(image, x, y) {
            1int
        } else {
            0
        },
{
    reveal_with_fuel(mask_bits, 9);
}

/// An icon file holds every pixel, with straight alpha, in rows from the bottom
/// up, and its mask covers exactly the pixels that are fully transparent.
pub proof fn icon_files_hold_every_pixel(image: Image, x: int, y: int)
    requires
        image.square(),
        0 <= x < image.size,
        0 <= y < image.size,
    ensures
        ({
            let file = ico_of(image);
            let at = pixel_place(image.size as int, x, y);
            let bit = mask_place(image.size as int, x, y);
            &&& 62 <= at && at + 4 <= 62 + image.size * image.size * 4
            &&& file.subrange(at, at + 4) == crate::frame::le_bytes(
                unpremultiplied(image.at(x, y)) as nat,
            )
            &&& 0 <= bit < file.len()
            &&& mask_bit(file[bit], x) == 1 <==> alpha_of(image.at(x, y)) == 0
        }),
{
    let size = image.size as int;
    let w = size * 4;
    let m = mask_row_len(image.size as nat) as int;
    let b = size - 1 - y;
    let header = ico_header(image.size as nat);
    let pixels = pixel_rows(image, image.size as nat);
    let mask = mask_rows(image, image.size as nat);
    let file = ico_of(image);
    assert(header.len() == 62);
    lemma_rows_len(image, image.size as nat);
    lemma_stored_row(image, image.size as nat, b);
    lemma_row_pixel(image, y, image.size as nat, x);
    lemma_pixel_row_len(image, y, image.size as nat);
    let at = pixel_place(size, x, y);
    assert(at == 62 + b * w + x * 4 && size * w == size * size * 4 && b * w + w <= size * w)
        by (nonlinear_arith)
        requires
            w == size * 4,
            at == 62 + (b * size + x) * 4,
            0 <= b < size,
            0 <= x < size,
    ;
    let row = pixel_row(image, y, image.size as nat);
    assert(pixels.subrange(b * w, b * w + w) == row);
    assert(file.subrange(at, at + 4) == row.subrange(x * 4, x * 4 + 4)) by {
        assert forall|k: int| 0 <= k < 4 implies #[trigger] file.subrange(at, at + 4)[k]
            == row.subrange(x * 4, x * 4 + 4)[k] by {
            assert(file[at + k] == pixels[b * w + x * 4 + k]);
            assert(row[x * 4 + k] == pixels.subrange(b * w, b * w + w)[x * 4 + k]);
        }
    }
    let bit = mask_place(size, x, y);
    assert(bit == 62 + size * w + b * m + x / 8);
    assert(x / 8 < m);
    assert(file[bit] == mask[b * m + x / 8]);
    assert(mask[b * m + x / 8] == mask.subrange(b * m, b * m + m)[x / 8]);
    assert(mask_row(image, y)[x / 8] == mask_bits(image, x / 8 * 8, y, 8) as u8);
    assert(x / 8 * 8 == x - x % 8);
    lemma_mask_byte(image, x, y);
}

} // verus!
