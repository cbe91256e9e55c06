//! The block deinterleaver: pixels that were stored tile by tile are put
//! back in row-major raster order.
//!
//! Tiles are 32 pixels wide and 32 high and are visited left to right, top
//! to bottom; inside a tile the pixels run row by row. Tiles at the right
//! and bottom edge are clipped to the image.

use vstd::prelude::*;

verus! {

/// The side of a tile, in pixels.
pub const BLOCK_SIZE: usize = 32;

/// Where the pixel of raster position `(x, y)` stands in the tile-ordered
/// sequence of a `width` by `height` image.
///
/// Before it come the full bands of tiles above, the tiles to its left in
/// its own band, the rows above it in its own tile, and the pixels to its
/// left in its own row of the tile.
pub open spec fn tile_index(x: int, y: int, width: int, height: int) -> int {
    let top = (y / 32) * 32;
    let left = (x / 32) * 32;
    let rows = if height - top < 32 {
        height - top
    } else {
        32
    };
    let cols = if width - left < 32 {
        width - left
    } else {
        32
    };
    top * width + left * rows + (y - top) * cols + (x - left)
}

/// The row-major raster of a `width` by `height` image whose pixels `flat`
/// holds in tile order.
pub open spec fn deinterleaved(flat: Seq<[u8; 4]>, width: int, height: int) -> Seq<[u8; 4]> {
    Seq::new(
        (width * height) as nat,
        |j: int| flat[tile_index(j % width, j / width, width, height)],
    )
}

/// The raster position `(x, y)` of the pixel that stands at index `k` of
/// the tile-ordered sequence: the inverse of `tile_index`.
pub open spec fn tile_position(k: int, width: int, height: int) -> (int, int) {
    let top = (k / (32 * width)) * 32;
    let rows = if height - top < 32 {
        height - top
    } else {
        32
    };
    let in_band = k - top * width;
    let left = (in_band / (32 * rows)) * 32;
    let cols = if width - left < 32 {
        width - left
    } else {
        32
    };
    let in_tile = in_band - left * rows;
    (left + in_tile % cols, top + in_tile / cols)
}

/// Whether raster position `(x, y)` comes before the scan position that
/// stands in the tile with corner `(left, top)`, at row `row` and column
/// `col`.
spec fn placed(x: int, y: int, top: int, left: int, row: int, col: int) -> bool {
    y < top || (y < top + 32 && (x < left || (x < left + 32 && (y < row || (y == row && x
        < col)))))
}

/// The pixel that a row-major sequence holds for raster position `(x, y)`.
spec fn raster_at(s: Seq<[u8; 4]>, x: int, y: int, width: int) -> [u8; 4] {
    s[y * width + x]
}

/// Every position before the scan position holds the pixel that the tile
/// order gives it.
spec fn placed_right(
    out: Seq<[u8; 4]>,
    pixels: Seq<[u8; 4]>,
    width: int,
    height: int,
    top: int,
    left: int,
    row: int,
    col: int,
) -> bool {
    forall|x: int, y: int|
        0 <= x < width && 0 <= y < height && placed(x, y, top, left, row, col)
            ==> #[trigger] raster_at(out, x, y, width) == pixels[tile_index(x, y, width, height)]
}

/// A raster position inside the image has an index inside the row-major
/// sequence.
proof fn lemma_raster_index(x: int, y: int, width: int, height: int)
    requires
        0 <= x < width,
        0 <= y < height,
    ensures
        0 <= y * width + x < width * height,
{
    assert(0 <= y * width + x < width * height) by (nonlinear_arith)
        requires
            0 <= x < width,
            0 <= y < height,
    ;
}

/// A row-major index inside the sequence is the index of the raster
/// position at its remainder and quotient by the width.
proof fn lemma_raster_position(j: int, width: int, height: int)
    requires
        0 <= j < width * height,
        0 <= width,
        0 <= height,
    ensures
        0 <= j % width < width,
        0 <= j / width < height,
        (j / width) * width + j % width == j,
{
    assert(width > 0) by (nonlinear_arith)
        requires
            0 <= j < width * height,
            0 <= width,
    ;
    vstd::arithmetic::div_mod::lemma_fundamental_div_mod(j, width);
    vstd::arithmetic::div_mod::lemma_mod_bound(j, width);
    vstd::arithmetic::div_mod::lemma_div_pos_is_pos(j, width);
    let q = j / width;
    let r = j % width;
    assert(q < height) by (nonlinear_arith)
        requires
            width * q + r == j,
            0 <= r,
            j < width * height,
            0 < width,
    ;
    assert(q * width == width * q) by (nonlinear_arith);
}

/// Two different raster positions have different row-major indices.
proof fn lemma_raster_distinct(x: int, y: int, x2: int, y2: int, width: int)
    requires
        0 <= x < width,
        0 <= x2 < width,
        0 <= y,
        0 <= y2,
        x2 != x || y2 != y,
    ensures
        y2 * width + x2 != y * width + x,
{
    if y2 < y {
        assert(y2 * width + width <= y * width) by (nonlinear_arith)
            requires
                0 <= y2 < y,
                0 < width,
        ;
    } else if y2 > y {
        assert(y * width + width <= y2 * width) by (nonlinear_arith)
            requires
                0 <= y < y2,
                0 < width,
        ;
    }
}

/// The scan position of a pixel inside the tile with corner `(left, top)`
/// is what `tile_index` says, and lies inside the sequence.
proof fn lemma_scan_position(
    x: int,
    y: int,
    width: int,
    height: int,
    top: int,
    left: int,
    rows: int,
    cols: int,
)
    requires
        0 <= top,
        0 <= left,
        top % 32 == 0,
        left % 32 == 0,
        top <= y < top + rows,
        left <= x < left + cols,
        rows == (if height - top < 32 {
            height - top
        } else {
            32
        }),
        cols == (if width - left < 32 {
            width - left
        } else {
            32
        }),
    ensures
        tile_index(x, y, width, height) == top * width + left * rows + (y - top) * cols + (x
            - left),
        0 <= tile_index(x, y, width, height) < width * height,
{
    assert((y / 32) * 32 == top);
    assert((x / 32) * 32 == left);
    let i = top * width + left * rows + (y - top) * cols + (x - left);
    assert(0 <= i < width * height) by (nonlinear_arith)
        requires
            i == top * width + left * rows + (y - top) * cols + (x - left),
            0 <= top <= y < top + rows,
            0 <= left <= x < left + cols,
            top + rows <= height,
            left + cols <= width,
    {
        // the pixel lies in its tile, the tile in its band, the band in the image
        assert((y - top) * cols + (x - left) < rows * cols);
        assert(left * rows + rows * cols == rows * (left + cols));
        assert(rows * (left + cols) <= rows * width);
        assert(top * width + rows * width == (top + rows) * width);
        assert((top + rows) * width <= height * width);
    }
}

/// Puts a tile-ordered pixel sequence in row-major raster order.
///
/// `pixels` holds the `width * height` pixels of an image in the order in
/// which the tiles store them. The result holds the same pixels row by
/// row, the top row first.
pub fn adjust_pixels(pixels: &Vec<[u8; 4]>, height: u16, width: u16) -> (out: Vec<[u8; 4]>)
    requires
        pixels@.len() == width * height,
    ensures
        out@.len() == width * height,
        forall|x: int, y: int|
            0 <= x < width && 0 <= y < height ==> out@[y * width + x] == pixels@[#[trigger] tile_index(
                x,
                y,
                width as int,
                height as int,
            )],
        out@ == deinterleaved(pixels@, width as int, height as int),
{
    let w = width as usize;
    let h = height as usize;
    assert(w * h <= 0xFFFF * 0xFFFF) by (nonlinear_arith)
        requires
            0 <= w <= 0xFFFF,
            0 <= h <= 0xFFFF,
    ;
    let mut out: Vec<[u8; 4]> = vec![[0u8, 0u8, 0u8, 0u8]; w * h];
    let mut i: usize = 0;
    let mut top: usize = 0;
    assert(top * w == 0) by (nonlinear_arith)
        requires
            top == 0,
    ;
    while top < h
        invariant
            w == width,
            h == height,
            w * h <= 0xFFFF * 0xFFFF,
            top <= h,
            top < h ==> top % 32 == 0,
            pixels@.len() == w * h,
            out@.len() == w * h,
            i == top * w,
            placed_right(out@, pixels@, w as int, h as int, top as int, 0, top as int, 0),
        decreases h - top,
    {
        let band_end = if h - top < BLOCK_SIZE {
            h
        } else {
            top + BLOCK_SIZE
        };
        let ghost rows = band_end - top;
        let mut left: usize = 0;
        assert(left * rows == 0) by (nonlinear_arith)
            requires
                left == 0,
        ;
        while left < w
            invariant
                w == width,
                h == height,
                w * h <= 0xFFFF * 0xFFFF,
                top < h,
                top % 32 == 0,
                band_end == (if h - top < 32 {
                    h as int
                } else {
                    top + 32
                }),
                rows == band_end - top,
                left <= w,
                left < w ==> left % 32 == 0,
                pixels@.len() == w * h,
                out@.len() == w * h,
                i == top * w + left * rows,
                placed_right(
                    out@,
                    pixels@,
                    w as int,
                    h as int,
                    top as int,
                    left as int,
                    top as int,
                    0,
                ),
            decreases w - left,
        {
            let tile_end = if w - left < BLOCK_SIZE {
                w
            } else {
                left + BLOCK_SIZE
            };
            let ghost cols = tile_end - left;
            let mut y = top;
            assert((y - top) * cols == 0) by (nonlinear_arith)
                requires
                    y == top,
            ;
            while y < band_end
                invariant
                    w == width,
                    h == height,
                    w * h <= 0xFFFF * 0xFFFF,
                    top % 32 == 0,
                    left % 32 == 0,
                    top <= y <= band_end <= h,
                    left < w,
                    band_end == (if h - top < 32 {
                        h as int
                    } else {
                        top + 32
                    }),
                    tile_end == (if w - left < 32 {
                        w as int
                    } else {
                        left + 32
                    }),
                    rows == band_end - top,
                    cols == tile_end - left,
                    pixels@.len() == w * h,
                    out@.len() == w * h,
                    i == top * w + left * rows + (y - top) * cols,
                    placed_right(
                        out@,
                        pixels@,
                        w as int,
                        h as int,
                        top as int,
                        left as int,
                        y as int,
                        left as int,
                    ),
                decreases band_end - y,
            {
                let mut x = left;
                while x < tile_end
                    invariant
                        w == width,
                        h == height,
                        w * h <= 0xFFFF * 0xFFFF,
                        top % 32 == 0,
                        left % 32 == 0,
                        top <= y < band_end <= h,
                        left <= x <= tile_end <= w,
                        band_end == (if h - top < 32 {
                            h as int
                        } else {
                            top + 32
                        }),
                        tile_end == (if w - left < 32 {
                            w as int
                        } else {
                            left + 32
                        }),
                        rows == band_end - top,
                        cols == tile_end - left,
                        pixels@.len() == w * h,
                        out@.len() == w * h,
                        i == top * w + left * rows + (y - top) * cols + (x - left),
                        placed_right(
                            out@,
                            pixels@,
                            w as int,
                            h as int,
                            top as int,
                            left as int,
                            y as int,
                            x as int,
                        ),
                    decreases tile_end - x,
                {
                    proof {
                        lemma_scan_position(
                            x as int,
                            y as int,
                            w as int,
                            h as int,
                            top as int,
                            left as int,
                            rows,
                            cols,
                        );
                        lemma_raster_index(x as int, y as int, w as int, h as int);
                        assert(0 <= y * w) by (nonlinear_arith)
                            requires
                                0 <= y,
                                0 <= w,
                        ;
                    }
                    let ghost before = out@;
                    out.set(y * w + x, pixels[i]);
                    proof {
                        assert forall|x2: int, y2: int|
                            0 <= x2 < w && 0 <= y2 < h && placed(
                                x2,
                                y2,
                                top as int,
                                left as int,
                                y as int,
                                x + 1,
                            ) implies #[trigger] raster_at(out@, x2, y2, w as int) == pixels@[tile_index(
                            x2,
                            y2,
                            w as int,
                            h as int,
                        )] by {
                            if x2 == x && y2 == y {
                            } else {
                                assert(raster_at(before, x2, y2, w as int) == pixels@[tile_index(
                                    x2,
                                    y2,
                                    w as int,
                                    h as int,
                                )]);
                                lemma_raster_index(x2, y2, w as int, h as int);
                                lemma_raster_distinct(x as int, y as int, x2, y2, w as int);
                            }
                        }
                    }
                    i += 1;
                    x += 1;
                }
                proof {
                    assert((y - top) * cols + cols == (y + 1 - top) * cols) by (nonlinear_arith);
                }
                y += 1;
            }
            proof {
                assert(left * rows + rows * cols == (left + cols) * rows) by (nonlinear_arith);
            }
            left = tile_end;
        }
        proof {
            assert(top * w + w * rows == (top + rows) * w) by (nonlinear_arith);
        }
        top = band_end;
    }
    proof {
        assert forall|x: int, y: int| 0 <= x < width && 0 <= y < height implies out@[y * width + x]
            == pixels@[#[trigger] tile_index(x, y, width as int, height as int)] by {
            assert(raster_at(out@, x, y, w as int) == pixels@[tile_index(x, y, w as int, h as int)]);
        }
        assert forall|j: int| 0 <= j < w * h implies out@[j] == deinterleaved(
            pixels@,
            w as int,
            h as int,
        )[j] by {
            lemma_raster_position(j, w as int, h as int);
        }
    }
    out
}

/// Quotient and remainder are what they have to be: a number that is
/// `q` times `d` and a rest below `d` has quotient `q` and that rest.
proof fn lemma_quotient(a: int, d: int, q: int, r: int)
    requires
        0 < d,
        0 <= r < d,
        a == q * d + r,
    ensures
        a / d == q,
        a % d == r,
{
    vstd::arithmetic::div_mod::lemma_fundamental_div_mod_converse(a, d, q, r);
}

/// Each raster position of an image has its own index in the tile order,
/// inside the sequence, and `tile_position` leads back from it.
pub proof fn lemma_tile_index_has_inverse(x: int, y: int, width: int, height: int)
    requires
        0 <= x < width,
        0 <= y < height,
    ensures
        0 <= tile_index(x, y, width, height) < width * height,
        tile_position(tile_index(x, y, width, height), width, height) == (x, y),
{
    let top = (y / 32) * 32;
    let left = (x / 32) * 32;
    let rows = if height - top < 32 {
        height - top
    } else {
        32
    };
    let cols = if width - left < 32 {
        width - left
    } else {
        32
    };
    lemma_scan_position(x, y, width, height, top, left, rows, cols);
    let k = tile_index(x, y, width, height);
    let in_tile = (y - top) * cols + (x - left);
    let in_band = left * rows + in_tile;
    assert(0 <= in_tile < rows * cols) by (nonlinear_arith)
        requires
            in_tile == (y - top) * cols + (x - left),
            0 <= y - top < rows,
            0 <= x - left < cols,
    ;
    assert(0 <= in_band < rows * width && in_tile < 32 * rows) by (nonlinear_arith)
        requires
            in_band == left * rows + in_tile,
            0 <= in_tile < rows * cols,
            0 <= left,
            0 < rows,
            0 < cols <= 32,
            left + cols <= width,
    ;
    assert(in_band < 32 * width) by (nonlinear_arith)
        requires
            in_band < rows * width,
            0 < rows <= 32,
            0 < width,
    ;
    assert(k == (y / 32) * (32 * width) + in_band) by (nonlinear_arith)
        requires
            k == top * width + in_band,
            top == (y / 32) * 32,
    ;
    lemma_quotient(k, 32 * width, y / 32, in_band);
    assert(in_band == (x / 32) * (32 * rows) + in_tile) by (nonlinear_arith)
        requires
            in_band == left * rows + in_tile,
            left == (x / 32) * 32,
    ;
    lemma_quotient(in_band, 32 * rows, x / 32, in_tile);
    lemma_quotient(in_tile, cols, y - top, x - left);
}

/// Each index of the tile-ordered sequence belongs to one raster position
/// inside the image, and `tile_index` leads back from it. With
/// `lemma_tile_index_has_inverse` this makes the tile order a
/// rearrangement of the raster: no pixel is lost and none is repeated.
pub proof fn lemma_tile_position_has_inverse(k: int, width: int, height: int)
    requires
        0 <= width,
        0 <= height,
        0 <= k < width * height,
    ensures
        0 <= tile_position(k, width, height).0 < width,
        0 <= tile_position(k, width, height).1 < height,
        tile_index(
            tile_position(k, width, height).0,
            tile_position(k, width, height).1,
            width,
            height,
        ) == k,
{
    assert(0 < width && 0 < height) by (nonlinear_arith)
        requires
            0 <= width,
            0 <= height,
            0 <= k < width * height,
    ;
    let band = k / (32 * width);
    let top = band * 32;
    vstd::arithmetic::div_mod::lemma_fundamental_div_mod(k, 32 * width);
    vstd::arithmetic::div_mod::lemma_mod_bound(k, 32 * width);
    vstd::arithmetic::div_mod::lemma_div_pos_is_pos(k, 32 * width);
    let in_band = k - top * width;
    assert(in_band == k % (32 * width)) by (nonlinear_arith)
        requires
            k == (32 * width) * band + k % (32 * width),
            in_band == k - top * width,
            top == band * 32,
    ;
    assert(top < height) by (nonlinear_arith)
        requires
            k < width * height,
            k == top * width + in_band,
            0 <= in_band,
            0 < width,
    ;
    let rows = if height - top < 32 {
        height - top
    } else {
        32
    };
    assert(in_band < rows * width) by (nonlinear_arith)
        requires
            k < width * height,
            k == top * width + in_band,
            in_band < 32 * width,
            rows == 32 || rows == height - top,
    ;
    let tile = in_band / (32 * rows);
    let left = tile * 32;
    vstd::arithmetic::div_mod::lemma_fundamental_div_mod(in_band, 32 * rows);
    vstd::arithmetic::div_mod::lemma_mod_bound(in_band, 32 * rows);
    vstd::arithmetic::div_mod::lemma_div_pos_is_pos(in_band, 32 * rows);
    let in_tile = in_band - left * rows;
    assert(in_tile == in_band % (32 * rows)) by (nonlinear_arith)
        requires
            in_band == (32 * rows) * tile + in_band % (32 * rows),
            in_tile == in_band - left * rows,
            left == tile * 32,
    ;
    assert(left < width) by (nonlinear_arith)
        requires
            in_band < rows * width,
            in_band == left * rows + in_tile,
            0 <= in_tile,
            0 < rows,
    ;
    let cols = if width - left < 32 {
        width - left
    } else {
        32
    };
    assert(in_tile < rows * cols) by (nonlinear_arith)
        requires
            in_band < rows * width,
            in_band == left * rows + in_tile,
            in_tile < 32 * rows,
            cols == 32 || cols == width - left,
    ;
    vstd::arithmetic::div_mod::lemma_fundamental_div_mod(in_tile, cols);
    vstd::arithmetic::div_mod::lemma_mod_bound(in_tile, cols);
    vstd::arithmetic::div_mod::lemma_div_pos_is_pos(in_tile, cols);
    let dy = in_tile / cols;
    let dx = in_tile % cols;
    assert(dy < rows) by (nonlinear_arith)
        requires
            in_tile == cols * dy + dx,
            0 <= dx,
            in_tile < rows * cols,
            0 < cols,
    ;
    let x = left + dx;
    let y = top + dy;
    lemma_scan_position(x, y, width, height, top, left, rows, cols);
    assert(dy * cols + dx == in_tile) by (nonlinear_arith)
        requires
            in_tile == cols * dy + dx,
    ;
}

} // verus!
