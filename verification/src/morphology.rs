//! Erosion and dilation of a binary mask with a three-by-three square.

use vstd::prelude::*;
use crate::bytes::clear_bytes;
use crate::grid::{
    column, interior, lemma_coordinates, lemma_index_in_grid, lemma_pixel, row, touching,
};

verus! {

/// The pixel survives erosion: it is an interior pixel and neither it nor a
/// pixel that touches it is zero.
pub open spec fn eroded(width: int, height: int, input: Seq<u8>, i: int) -> bool {
    &&& interior(width, height, i)
    &&& forall|j: int|
        0 <= j < width * height && touching(width, i, j) ==> #[trigger] input[j] != 0
}

/// The pixel is set by dilation: it is an interior pixel and it, or a pixel
/// that touches it, is one.
pub open spec fn dilated(width: int, height: int, input: Seq<u8>, i: int) -> bool {
    &&& interior(width, height, i)
    &&& exists|j: int|
        0 <= j < width * height && touching(width, i, j) && #[trigger] input[j] == 1
}

/// Result of eroding a whole grid into a buffer of `len` bytes.
pub open spec fn erosion(width: int, height: int, input: Seq<u8>, len: nat) -> Seq<u8> {
    Seq::new(
        len,
        |i: int|
            if i < width * height && eroded(width, height, input, i) {
                1u8
            } else {
                0u8
            },
    )
}

/// Result of dilating a whole grid into a buffer of `len` bytes.
pub open spec fn dilation(width: int, height: int, input: Seq<u8>, len: nat) -> Seq<u8> {
    Seq::new(
        len,
        |i: int|
            if i < width * height && dilated(width, height, input, i) {
                1u8
            } else {
                0u8
            },
    )
}

/// The buffers hold every pixel that the sweep over the interior reads and
/// writes. A grid without interior pixels asks nothing of them.
pub open spec fn sweep_fits(width: int, height: int, input_len: nat, output_len: nat) -> bool {
    width >= 3 && height >= 3 ==> {
        &&& width * height <= input_len
        &&& (height - 1) * width - 1 <= output_len
    }
}

/// Whether the pixel at column `x` and row `y` and all pixels around it are
/// non-zero.
fn all_set_around(width: usize, height: usize, input: &[u8], x: usize, y: usize) -> (all: bool)
    requires
        1 <= x < width - 1,
        1 <= y < height - 1,
        width * height <= input@.len(),
    ensures
        all == eroded(width as int, height as int, input@, y * width + x),
{
    let ghost w = width as int;
    let ghost h = height as int;
    let ghost i: int = y * w + x;
    assert(input@.len() == input.len());
    proof {
        lemma_pixel(w, x as int, y as int);
    }
    let mut ny: usize = y - 1;
    while ny <= y + 1
        invariant
            w == width,
            h == height,
            1 <= x < width - 1,
            1 <= y < height - 1,
            width * height <= input@.len(),
            w * h <= usize::MAX,
            i == y * w + x,
            column(w, i) == x,
            row(w, i) == y,
            y - 1 <= ny <= y + 2,
            forall|j: int|
                0 <= j < w * h && touching(w, i, j) && row(w, j) < ny ==> #[trigger] input@[j] != 0,
        decreases y + 2 - ny,
    {
        let mut nx: usize = x - 1;
        while nx <= x + 1
            invariant
                w == width,
                h == height,
                1 <= x < width - 1,
                1 <= y < height - 1,
                width * height <= input@.len(),
                w * h <= usize::MAX,
                i == y * w + x,
                column(w, i) == x,
                row(w, i) == y,
                y - 1 <= ny <= y + 1,
                x - 1 <= nx <= x + 2,
                forall|j: int|
                    0 <= j < w * h && touching(w, i, j) && row(w, j) < ny ==> #[trigger] input@[j]
                        != 0,
                forall|j: int|
                    0 <= j < w * h && touching(w, i, j) && row(w, j) == ny && column(w, j) < nx
                        ==> #[trigger] input@[j] != 0,
            decreases x + 2 - nx,
        {
            proof {
                lemma_index_in_grid(w, h, nx as int, ny as int);
                lemma_pixel(w, nx as int, ny as int);
            }
            let next: usize = ny * width + nx;
            if input[next] == 0 {
                assert(touching(w, i, next as int));
                return false;
            }
            assert forall|j: int|
                0 <= j < w * h && touching(w, i, j) && row(w, j) == ny && column(w, j)
                    < nx + 1 implies #[trigger] input@[j] != 0 by {
                lemma_coordinates(w, j);
            }
            nx += 1;
        }
        ny += 1;
    }
    true
}

/// Whether the pixel at column `x` and row `y`, or a pixel around it, is one.
fn any_one_around(width: usize, height: usize, input: &[u8], x: usize, y: usize) -> (any: bool)
    requires
        1 <= x < width - 1,
        1 <= y < height - 1,
        width * height <= input@.len(),
    ensures
        any == dilated(width as int, height as int, input@, y * width + x),
{
    let ghost w = width as int;
    let ghost h = height as int;
    let ghost i: int = y * w + x;
    assert(input@.len() == input.len());
    proof {
        lemma_pixel(w, x as int, y as int);
    }
    let mut ny: usize = y - 1;
    while ny <= y + 1
        invariant
            w == width,
            h == height,
            1 <= x < width - 1,
            1 <= y < height - 1,
            width * height <= input@.len(),
            w * h <= usize::MAX,
            i == y * w + x,
            column(w, i) == x,
            row(w, i) == y,
            y - 1 <= ny <= y + 2,
            forall|j: int|
                0 <= j < w * h && touching(w, i, j) && row(w, j) < ny ==> #[trigger] input@[j] != 1,
        decreases y + 2 - ny,
    {
        let mut nx: usize = x - 1;
        while nx <= x + 1
            invariant
                w == width,
                h == height,
                1 <= x < width - 1,
                1 <= y < height - 1,
                width * height <= input@.len(),
                w * h <= usize::MAX,
                i == y * w + x,
                column(w, i) == x,
                row(w, i) == y,
                y - 1 <= ny <= y + 1,
                x - 1 <= nx <= x + 2,
                forall|j: int|
                    0 <= j < w * h && touching(w, i, j) && row(w, j) < ny ==> #[trigger] input@[j]
                        != 1,
                forall|j: int|
                    0 <= j < w * h && touching(w, i, j) && row(w, j) == ny && column(w, j) < nx
                        ==> #[trigger] input@[j] != 1,
            decreases x + 2 - nx,
        {
            proof {
                lemma_index_in_grid(w, h, nx as int, ny as int);
                lemma_pixel(w, nx as int, ny as int);
            }
            let next: usize = ny * width + nx;
            if input[next] == 1 {
                assert(touching(w, i, next as int));
                return true;
            }
            assert forall|j: int|
                0 <= j < w * h && touching(w, i, j) && row(w, j) == ny && column(w, j)
                    < nx + 1 implies #[trigger] input@[j] != 1 by {
                lemma_coordinates(w, j);
            }
            nx += 1;
        }
        ny += 1;
    }
    false
}

/// The interior pixel at column `x` of row `y` is the only one with those
/// coordinates, and it lies within the output of a sweep.
proof fn lemma_interior_index(width: int, height: int, x: int, y: int)
    requires
        1 <= x < width - 1,
        1 <= y < height - 1,
    ensures
        0 <= y * width + x < (height - 1) * width - 1,
        y * width + x < width * height,
        interior(width, height, y * width + x),
{
    lemma_pixel(width, x, y);
    lemma_index_in_grid(width, height, x, y);
    assert(y * width + width <= (height - 1) * width) by (nonlinear_arith)
        requires
            y < height - 1,
            width > 0,
    ;
}

/// Erodes `input` into `output`: an interior pixel becomes one when it and all
/// eight pixels around it are non-zero, every other byte becomes zero.
pub fn erode(width: usize, height: usize, input: &[u8], output: &mut [u8])
    requires
        sweep_fits(width as int, height as int, input@.len(), old(output)@.len()),
    ensures
        final(output)@ == erosion(width as int, height as int, input@, old(output)@.len()),
{
    let ghost w = width as int;
    let ghost h = height as int;
    clear_bytes(output);
    if width < 3 || height < 3 {
        return;
    }
    let ghost len = output@.len();
    assert(input@.len() == input.len());
    let mut y: usize = 1;
    while y < height - 1
        invariant
            w == width,
            h == height,
            width >= 3,
            height >= 3,
            1 <= y <= height - 1,
            output@.len() == len,
            w * h <= input@.len(),
            w * h <= usize::MAX,
            (h - 1) * w - 1 <= len,
            forall|i: int|
                0 <= i < len ==> #[trigger] output@[i] == if i < w * h && row(w, i) < y && eroded(
                    w,
                    h,
                    input@,
                    i,
                ) {
                    1u8
                } else {
                    0u8
                },
        decreases height - y,
    {
        let mut x: usize = 1;
        while x < width - 1
            invariant
                w == width,
                h == height,
                width >= 3,
                height >= 3,
                1 <= y < height - 1,
                1 <= x <= width - 1,
                output@.len() == len,
                w * h <= input@.len(),
                w * h <= usize::MAX,
                (h - 1) * w - 1 <= len,
                forall|i: int|
                    0 <= i < len ==> #[trigger] output@[i] == if i < w * h && (row(w, i) < y || (
                    row(w, i) == y && column(w, i) < x)) && eroded(w, h, input@, i) {
                        1u8
                    } else {
                        0u8
                    },
            decreases width - x,
        {
            proof {
                lemma_interior_index(w, h, x as int, y as int);
                lemma_pixel(w, x as int, y as int);
                lemma_index_in_grid(w, h, x as int, y as int);
            }
            let idx: usize = y * width + x;
            let keep = all_set_around(width, height, input, x, y);
            output[idx] = if keep {
                1
            } else {
                0
            };
            assert forall|i: int| 0 <= i < len implies #[trigger] output@[i] == if i < w * h && (
            row(w, i) < y || (row(w, i) == y && column(w, i) < x + 1)) && eroded(w, h, input@, i) {
                1u8
            } else {
                0u8
            } by {
                lemma_coordinates(w, i);
            }
            x += 1;
        }
        y += 1;
    }
    assert forall|i: int| 0 <= i < len implies #[trigger] output@[i] == erosion(
        w,
        h,
        input@,
        len,
    )[i] by {
        if eroded(w, h, input@, i) {
            assert(row(w, i) < h - 1);
        }
    }
}

/// Dilates `input` into `output`: an interior pixel becomes one when it or one
/// of the eight pixels around it is one, every other byte becomes zero.
pub fn dilate(width: usize, height: usize, input: &[u8], output: &mut [u8])
    requires
        sweep_fits(width as int, height as int, input@.len(), old(output)@.len()),
    ensures
        final(output)@ == dilation(width as int, height as int, input@, old(output)@.len()),
{
    let ghost w = width as int;
    let ghost h = height as int;
    clear_bytes(output);
    if width < 3 || height < 3 {
        return;
    }
    let ghost len = output@.len();
    assert(input@.len() == input.len());
    let mut y: usize = 1;
    while y < height - 1
        invariant
            w == width,
            h == height,
            width >= 3,
            height >= 3,
            1 <= y <= height - 1,
            output@.len() == len,
            w * h <= input@.len(),
            w * h <= usize::MAX,
            (h - 1) * w - 1 <= len,
            forall|i: int|
                0 <= i < len ==> #[trigger] output@[i] == if i < w * h && row(w, i) < y && dilated(
                    w,
                    h,
                    input@,
                    i,
                ) {
                    1u8
                } else {
                    0u8
                },
        decreases height - y,
    {
        let mut x: usize = 1;
        while x < width - 1
            invariant
                w == width,
                h == height,
                width >= 3,
                height >= 3,
                1 <= y < height - 1,
                1 <= x <= width - 1,
                output@.len() == len,
                w * h <= input@.len(),
                w * h <= usize::MAX,
                (h - 1) * w - 1 <= len,
                forall|i: int|
                    0 <= i < len ==> #[trigger] output@[i] == if i < w * h && (row(w, i) < y || (
                    row(w, i) == y && column(w, i) < x)) && dilated(w, h, input@, i) {
                        1u8
                    } else {
                        0u8
                    },
            decreases width - x,
        {
            proof {
                lemma_interior_index(w, h, x as int, y as int);
                lemma_pixel(w, x as int, y as int);
                lemma_index_in_grid(w, h, x as int, y as int);
            }
            let idx: usize = y * width + x;
            let set = any_one_around(width, height, input, x, y);
            output[idx] = if set {
                1
            } else {
                0
            };
            assert forall|i: int| 0 <= i < len implies #[trigger] output@[i] == if i < w * h && (
            row(w, i) < y || (row(w, i) == y && column(w, i) < x + 1)) && dilated(w, h, input@, i) {
                1u8
            } else {
                0u8
            } by {
                lemma_coordinates(w, i);
            }
            x += 1;
        }
        y += 1;
    }
    assert forall|i: int| 0 <= i < len implies #[trigger] output@[i] == dilation(
        w,
        h,
        input@,
        len,
    )[i] by {
        if dilated(w, h, input@, i) {
            assert(row(w, i) < h - 1);
        }
    }
}

/// The pixel at column `x` and row `y`.
pub open spec fn pixel(width: int, input: Seq<u8>, x: int, y: int) -> u8 {
    input[y * width + x]
}

/// All pixels of the three-by-three block around column `x` and row `y` are set.
pub open spec fn block_is_full(width: int, input: Seq<u8>, x: int, y: int) -> bool {
    forall|nx: int, ny: int|
        x - 1 <= nx <= x + 1 && y - 1 <= ny <= y + 1 ==> #[trigger] pixel(width, input, nx, ny) != 0
}

/// A pixel of the three-by-three block around column `x` and row `y` is one.
pub open spec fn block_has_one(width: int, input: Seq<u8>, x: int, y: int) -> bool {
    exists|nx: int, ny: int|
        x - 1 <= nx <= x + 1 && y - 1 <= ny <= y + 1 && #[trigger] pixel(width, input, nx, ny) == 1
}

proof fn lemma_full_block(width: int, height: int, input: Seq<u8>, x: int, y: int)
    requires
        1 <= x < width - 1,
        1 <= y < height - 1,
    ensures
        eroded(width, height, input, y * width + x) <==> block_is_full(width, input, x, y),
{
    let i = y * width + x;
    lemma_interior_index(width, height, x, y);
    lemma_pixel(width, x, y);
    if eroded(width, height, input, i) {
        assert forall|nx: int, ny: int|
            x - 1 <= nx <= x + 1 && y - 1 <= ny <= y + 1 implies #[trigger] pixel(
            width,
            input,
            nx,
            ny,
        ) != 0 by {
            lemma_pixel(width, nx, ny);
            lemma_index_in_grid(width, height, nx, ny);
            assert(touching(width, i, ny * width + nx));
        }
    }
    if block_is_full(width, input, x, y) {
        assert forall|j: int|
            0 <= j < width * height && touching(width, i, j) implies #[trigger] input[j] != 0 by {
            lemma_coordinates(width, j);
            assert(pixel(width, input, column(width, j), row(width, j)) != 0);
        }
    }
}

proof fn lemma_block_with_one(width: int, height: int, input: Seq<u8>, x: int, y: int)
    requires
        1 <= x < width - 1,
        1 <= y < height - 1,
    ensures
        dilated(width, height, input, y * width + x) <==> block_has_one(width, input, x, y),
{
    let i = y * width + x;
    lemma_interior_index(width, height, x, y);
    lemma_pixel(width, x, y);
    if dilated(width, height, input, i) {
        let j = choose|j: int|
            0 <= j < width * height && touching(width, i, j) && #[trigger] input[j] == 1;
        lemma_coordinates(width, j);
        assert(pixel(width, input, column(width, j), row(width, j)) == 1);
    }
    if block_has_one(width, input, x, y) {
        let (nx, ny) = choose|nx: int, ny: int|
            x - 1 <= nx <= x + 1 && y - 1 <= ny <= y + 1 && #[trigger] pixel(width, input, nx, ny)
                == 1;
        lemma_pixel(width, nx, ny);
        lemma_index_in_grid(width, height, nx, ny);
        assert(touching(width, i, ny * width + nx));
        assert(input[ny * width + nx] == 1);
    }
}

/// Seen by columns and rows: erosion sets a pixel exactly if the three-by-three block
/// around it lies on the grid and is full, dilation exactly if that block lies on the
/// grid and holds a one; every other byte is zero.
pub proof fn law_blocks_by_coordinates(
    width: int,
    height: int,
    input: Seq<u8>,
    len: nat,
    x: int,
    y: int,
)
    requires
        0 <= x < width,
        0 <= y < height,
        y * width + x < len,
    ensures
        ({
            let on_grid = 1 <= x <= width - 2 && 1 <= y <= height - 2;
            let kept = erosion(width, height, input, len)[y * width + x];
            let grown = dilation(width, height, input, len)[y * width + x];
            &&& kept == 1 <==> on_grid && block_is_full(width, input, x, y)
            &&& kept != 1 ==> kept == 0
            &&& grown == 1 <==> on_grid && block_has_one(width, input, x, y)
            &&& grown != 1 ==> grown == 0
        }),
{
    lemma_pixel(width, x, y);
    lemma_index_in_grid(width, height, x, y);
    if 1 <= x <= width - 2 && 1 <= y <= height - 2 {
        lemma_full_block(width, height, input, x, y);
        lemma_block_with_one(width, height, input, x, y);
    }
}

/// Mask left by an erosion followed by a dilation of the same grid.
pub open spec fn opening(width: int, height: int, input: Seq<u8>) -> Seq<u8> {
    let len = (width * height) as nat;
    dilation(width, height, erosion(width, height, input, len), len)
}

/// Erosion only removes: a pixel that it keeps was set, and so were all pixels
/// around it.
pub proof fn law_erosion_removes(width: int, height: int, input: Seq<u8>, len: nat, i: int)
    requires
        0 <= i < len,
        erosion(width, height, input, len)[i] == 1,
    ensures
        input[i] != 0,
        forall|j: int|
            0 <= j < width * height && touching(width, i, j) ==> #[trigger] input[j] != 0,
{
    assert(touching(width, i, i));
}

/// What is left after erosion and dilation are the interior pixels of the
/// three-by-three blocks that were set throughout, so a speck smaller than such
/// a block leaves no trace.
pub proof fn law_opening_keeps_full_blocks(width: int, height: int, input: Seq<u8>, i: int)
    requires
        0 <= i < width * height,
    ensures
        opening(width, height, input)[i] == 1 <==> interior(width, height, i) && exists|centre: int|
            0 <= centre < width * height && touching(width, i, centre) && #[trigger] eroded(
                width,
                height,
                input,
                centre,
            ),
        opening(width, height, input)[i] != 1 ==> opening(width, height, input)[i] == 0,
{
    let len = (width * height) as nat;
    let inner = erosion(width, height, input, len);
    if opening(width, height, input)[i] == 1 {
        let centre = choose|j: int|
            0 <= j < width * height && touching(width, i, j) && #[trigger] inner[j] == 1;
        assert(eroded(width, height, input, centre));
    }
    if interior(width, height, i) && exists|centre: int|
        0 <= centre < width * height && touching(width, i, centre) && #[trigger] eroded(
            width,
            height,
            input,
            centre,
        ) {
        let centre = choose|centre: int|
            0 <= centre < width * height && touching(width, i, centre) && #[trigger] eroded(
                width,
                height,
                input,
                centre,
            );
        assert(inner[centre] == 1);
    }
}

/// The cleaned mask never shows a pixel that the raw mask did not.
pub proof fn law_opening_removes(width: int, height: int, input: Seq<u8>, i: int)
    requires
        0 <= i < width * height,
        opening(width, height, input)[i] == 1,
    ensures
        input[i] != 0,
{
    law_opening_keeps_full_blocks(width, height, input, i);
    let centre = choose|centre: int|
        0 <= centre < width * height && touching(width, i, centre) && #[trigger] eroded(
            width,
            height,
            input,
            centre,
        );
    assert(touching(width, centre, i));
}

} // verus!
