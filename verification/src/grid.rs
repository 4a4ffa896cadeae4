//! The grid driver: sample an N-by-N square of the complex plane and run
//! the lane kernel over it.
//!
//! The requested size is rounded down to a multiple of the lane width
//! eight. With `inv = 2.0 / size`, column `i` samples the real coordinate
//! `i * inv - 1.5` and row `y` the imaginary coordinate `y * inv - 1.0`.
//! The x-coordinate table is built once and shared by all rows; each row
//! yields `size / 8` packed bytes, and the rows are laid out one after the
//! other in the flat output buffer. Rows are independent, so they may be
//! computed concurrently; the concurrent driver and the sequential one
//! promise byte-for-byte the same buffer.

use rayon::iter::IndexedParallelIterator;
use rayon::iter::IntoParallelIterator;
use rayon::iter::ParallelIterator;
use vstd::prelude::*;

use crate::fbits::{
    div_bits, f64_div, f64_mul, f64_sub, mul_bits, sub_bits, usize_to_f64, usize_to_f64_bits,
    F64_ONE, F64_ONE_POINT_FIVE, F64_TWO, F64_ZERO,
};
use crate::kernel::{mbrot8, mbrot8_spec};

verus! {

/// The requested grid size rounded down to a multiple of the lane width.
pub open spec fn rounded_size(size: usize) -> usize {
    ((size / 8) * 8) as usize
}

/// Bit pattern of the grid's coordinate step `2.0 / size`.
pub open spec fn inv_bits(size: usize) -> u64 {
    div_bits(F64_TWO, usize_to_f64_bits(size))
}

/// Bit pattern of the real coordinate of column `i`: `i * inv - 1.5`.
pub open spec fn x_coord_bits(i: usize, size: usize) -> u64 {
    sub_bits(mul_bits(usize_to_f64_bits(i), inv_bits(size)), F64_ONE_POINT_FIVE)
}

/// Bit pattern of the imaginary coordinate of row `y`: `y * inv - 1.0`.
pub open spec fn y_coord_bits(y: usize, size: usize) -> u64 {
    sub_bits(mul_bits(usize_to_f64_bits(y), inv_bits(size)), F64_ONE)
}

/// The eight real coordinates of lane `j`: columns `j*8` through `j*8+7`.
pub open spec fn lane_coords(size: usize, j: int) -> Seq<u64> {
    Seq::new(8, |k: int| x_coord_bits((j * 8 + k) as usize, size))
}

/// The byte the kernel packs for lane `j` of row `y`, starting from the
/// zero the buffer is initialized with.
pub open spec fn grid_byte(size: usize, y: int, j: int) -> u8 {
    mbrot8_spec(0u8, lane_coords(size, j), y_coord_bits(y as usize, size))
}

/// What the finished buffer of a grid of (already rounded) `size` holds:
/// `size * size / 8` bytes, row-major, byte `y * (size/8) + j` packed by
/// the kernel for lane `j` of row `y`.
pub open spec fn is_grid_output(s: Seq<u8>, size: usize) -> bool {
    &&& s.len() == (size as int) * ((size / 8) as int)
    &&& forall|y: int, j: int|
        0 <= y < size && 0 <= j < size / 8 ==> s[y * ((size / 8) as int) + j] == #[trigger] grid_byte(
            size,
            y,
            j,
        )
}

/// Build the shared x-coordinate table: `size / 8` lanes of eight columns.
fn build_xloc(size: usize) -> (xloc: Vec<[u64; 8]>)
    ensures
        xloc@.len() == size / 8,
        forall|j: int, k: int|
            0 <= j < size / 8 && 0 <= k < 8 ==> #[trigger] xloc@[j][k] == x_coord_bits(
                (j * 8 + k) as usize,
                size,
            ),
{
    let inv = f64_div(F64_TWO, usize_to_f64(size));
    let lanes = size / 8;
    let mut xloc: Vec<[u64; 8]> = Vec::new();
    let mut j: usize = 0;
    while j < lanes
        invariant
            lanes == size / 8,
            j <= lanes,
            inv == inv_bits(size),
            xloc@.len() == j,
            forall|jj: int, k: int|
                0 <= jj < j && 0 <= k < 8 ==> #[trigger] xloc@[jj][k] == x_coord_bits(
                    (jj * 8 + k) as usize,
                    size,
                ),
        decreases lanes - j,
    {
        let mut lane: [u64; 8] = [F64_ZERO; 8];
        let mut k: usize = 0;
        while k < 8
            invariant
                k <= 8,
                j < lanes,
                lanes == size / 8,
                inv == inv_bits(size),
                forall|kk: int|
                    0 <= kk < k ==> #[trigger] lane@[kk] == x_coord_bits(
                        (j * 8 + kk) as usize,
                        size,
                    ),
            decreases 8 - k,
        {
            assert(j * 8 + k < size) by {
                vstd::arithmetic::mul::lemma_mul_inequality(j + 1, (size / 8) as int, 8);
                assert((size / 8) * 8 <= size) by (nonlinear_arith);
            }
            let i = j * 8 + k;
            lane[k] = f64_sub(f64_mul(usize_to_f64(i), inv), F64_ONE_POINT_FIVE);
            k += 1;
        }
        xloc.push(lane);
        j += 1;
    }
    xloc
}

/// Compute one row: the shared imaginary coordinate of row `y`, then one
/// kernel call per lane of the x-coordinate table.
fn compute_row(y: usize, xloc: &Vec<[u64; 8]>, size: usize) -> (row: Vec<u8>)
    requires
        y < size,
        xloc@.len() == size / 8,
        forall|j: int, k: int|
            0 <= j < size / 8 && 0 <= k < 8 ==> #[trigger] xloc@[j][k] == x_coord_bits(
                (j * 8 + k) as usize,
                size,
            ),
    ensures
        row@.len() == size / 8,
        forall|j: int| 0 <= j < size / 8 ==> row@[j] == #[trigger] grid_byte(size, y as int, j),
{
    let inv = f64_div(F64_TWO, usize_to_f64(size));
    let ci = f64_sub(f64_mul(usize_to_f64(y), inv), F64_ONE);
    let lanes = size / 8;
    let mut row: Vec<u8> = Vec::new();
    let mut j: usize = 0;
    while j < lanes
        invariant
            lanes == size / 8,
            j <= lanes,
            y < size,
            ci == y_coord_bits(y, size),
            xloc@.len() == lanes,
            forall|jj: int, k: int|
                0 <= jj < lanes && 0 <= k < 8 ==> #[trigger] xloc@[jj][k] == x_coord_bits(
                    (jj * 8 + k) as usize,
                    size,
                ),
            row@.len() == j,
            forall|jj: int| 0 <= jj < j ==> row@[jj] == #[trigger] grid_byte(size, y as int, jj),
        decreases lanes - j,
    {
        let mut b: u8 = 0;
        mbrot8(&mut b, &xloc[j], ci);
        proof {
            assert(xloc@[j as int]@ =~= lane_coords(size, j as int));
        }
        row.push(b);
        j += 1;
    }
    row
}

/// Append each row's bytes to one flat row-major buffer.
fn flatten_rows(rows: &Vec<Vec<u8>>, size: usize) -> (buf: Vec<u8>)
    requires
        rows@.len() == size,
        (size as int) * ((size / 8) as int) <= usize::MAX as int,
        forall|y: int| 0 <= y < size ==> (#[trigger] rows@[y])@.len() == size / 8,
        forall|y: int, j: int|
            0 <= y < size && 0 <= j < size / 8 ==> rows@[y]@[j] == #[trigger] grid_byte(size, y, j),
    ensures
        is_grid_output(buf@, size),
{
    let lanes = size / 8;
    let ghost lanesi: int = lanes as int;
    let mut buf: Vec<u8> = Vec::new();
    let mut y: usize = 0;
    while y < size
        invariant
            lanes == size / 8,
            lanesi == lanes as int,
            y <= size,
            rows@.len() == size,
            (size as int) * lanesi <= usize::MAX as int,
            forall|yy: int| 0 <= yy < size ==> (#[trigger] rows@[yy])@.len() == lanes,
            forall|yy: int, jj: int|
                0 <= yy < size && 0 <= jj < lanes ==> rows@[yy]@[jj] == #[trigger] grid_byte(
                    size,
                    yy,
                    jj,
                ),
            buf@.len() == y * lanesi,
            forall|yy: int, jj: int|
                0 <= yy < y && 0 <= jj < lanes ==> buf@[yy * lanesi + jj] == #[trigger] grid_byte(
                    size,
                    yy,
                    jj,
                ),
        decreases size - y,
    {
        let row = &rows[y];
        let mut j: usize = 0;
        while j < lanes
            invariant
                lanes == size / 8,
                lanesi == lanes as int,
                y < size,
                rows@.len() == size,
                (size as int) * lanesi <= usize::MAX as int,
                row@ == rows@[y as int]@,
                row@.len() == lanes,
                j <= lanes,
                forall|yy: int, jj: int|
                    0 <= yy < size && 0 <= jj < lanes ==> rows@[yy]@[jj] == #[trigger] grid_byte(
                        size,
                        yy,
                        jj,
                    ),
                buf@.len() == y * lanesi + j,
                forall|yy: int, jj: int|
                    0 <= yy < y && 0 <= jj < lanes ==> buf@[yy * lanesi + jj]
                        == #[trigger] grid_byte(size, yy, jj),
                forall|jj: int|
                    0 <= jj < j ==> buf@[y * lanesi + jj] == #[trigger] grid_byte(
                        size,
                        y as int,
                        jj,
                    ),
            decreases lanes - j,
        {
            proof {
                assert(buf@.len() < (size as int) * lanesi) by {
                    vstd::arithmetic::mul::lemma_mul_inequality(y + 1, size as int, lanesi);
                    vstd::arithmetic::mul::lemma_mul_is_distributive_add_other_way(
                        lanesi,
                        y as int,
                        1,
                    );
                }
            }
            buf.push(row[j]);
            proof {
                assert forall|yy: int, jj: int|
                    0 <= yy < y && 0 <= jj < lanes implies buf@[yy * lanesi + jj]
                    == #[trigger] grid_byte(size, yy, jj) by {
                    vstd::arithmetic::mul::lemma_mul_inequality(yy + 1, y as int, lanesi);
                    vstd::arithmetic::mul::lemma_mul_is_distributive_add_other_way(lanesi, yy, 1);
                    assert(yy * lanesi + jj < y * lanesi + j + 1);
                }
            }
            j += 1;
        }
        proof {
            vstd::arithmetic::mul::lemma_mul_is_distributive_add_other_way(lanesi, y as int, 1);
        }
        y += 1;
    }
    buf
}

/// Relies on rayon's indexed parallel iterator over `0..size`, mapped and
/// collected to a `Vec`: the verified row function is applied once to each
/// row index, and the results are collected in index order.
#[verifier::external_body]
fn rows_parallel(xloc: &Vec<[u64; 8]>, size: usize) -> (rows: Vec<Vec<u8>>)
    requires
        xloc@.len() == size / 8,
        forall|j: int, k: int|
            0 <= j < size / 8 && 0 <= k < 8 ==> #[trigger] xloc@[j][k] == x_coord_bits(
                (j * 8 + k) as usize,
                size,
            ),
    ensures
        rows@.len() == size,
        forall|y: int| 0 <= y < size ==> (#[trigger] rows@[y])@.len() == size / 8,
        forall|y: int, j: int|
            0 <= y < size && 0 <= j < size / 8 ==> rows@[y]@[j] == #[trigger] grid_byte(size, y, j),
{
    (0..size).into_par_iter().map(|y| compute_row(y, xloc, size)).collect()
}

/// Compute the grid of the given size, rounded down to a multiple of
/// eight, with the rows computed concurrently.
pub fn mandelbrot_grid(size: usize) -> (buf: Vec<u8>)
    requires
        (rounded_size(size) as int) * ((size / 8) as int) <= usize::MAX as int,
    ensures
        is_grid_output(buf@, rounded_size(size)),
{
    let s = size / 8 * 8;
    proof {
        vstd::arithmetic::div_mod::lemma_mod_multiples_basic((size / 8) as int, 8);
        assert(s / 8 == size / 8) by (nonlinear_arith)
            requires s == (size / 8) * 8;
    }
    let xloc = build_xloc(s);
    let rows = rows_parallel(&xloc, s);
    flatten_rows(&rows, s)
}

/// Compute the grid of the given size, rounded down to a multiple of
/// eight, row by row in order.
pub fn mandelbrot_grid_sequential(size: usize) -> (buf: Vec<u8>)
    requires
        (rounded_size(size) as int) * ((size / 8) as int) <= usize::MAX as int,
    ensures
        is_grid_output(buf@, rounded_size(size)),
{
    let s = size / 8 * 8;
    proof {
        vstd::arithmetic::div_mod::lemma_mod_multiples_basic((size / 8) as int, 8);
        assert(s / 8 == size / 8) by (nonlinear_arith)
            requires s == (size / 8) * 8;
    }
    let xloc = build_xloc(s);
    let mut rows: Vec<Vec<u8>> = Vec::new();
    let mut y: usize = 0;
    while y < s
        invariant
            s == rounded_size(size),
            s / 8 == size / 8,
            y <= s,
            xloc@.len() == s / 8,
            forall|j: int, k: int|
                0 <= j < s / 8 && 0 <= k < 8 ==> #[trigger] xloc@[j][k] == x_coord_bits(
                    (j * 8 + k) as usize,
                    s,
                ),
            rows@.len() == y,
            forall|yy: int| 0 <= yy < y ==> (#[trigger] rows@[yy])@.len() == s / 8,
            forall|yy: int, j: int|
                0 <= yy < y && 0 <= j < s / 8 ==> rows@[yy]@[j] == #[trigger] grid_byte(s, yy, j),
        decreases s - y,
    {
        let row = compute_row(y, &xloc, s);
        rows.push(row);
        y += 1;
    }
    flatten_rows(&rows, s)
}

/// The one boundary operation: compute the fixed 16000-by-16000 grid with
/// the fixed iteration bound, yielding `16000 * 16000 / 8` packed bytes.
pub fn compute_mandelbrot_grid() -> (buf: Vec<u8>)
    ensures
        is_grid_output(buf@, 16000),
        buf@.len() == 32000000,
{
    proof {
        assert((2000 as int) * 8 == 16000 && (16000 as int) * (2000 as int) == 32000000)
            by (nonlinear_arith);
        assert(16000usize / 8 == 2000);
        assert(rounded_size(16000) == 16000);
    }
    mandelbrot_grid(16000)
}

/// A grid whose size is a multiple of the lane width holds exactly
/// `size * size / 8` bytes.
pub proof fn lemma_grid_output_len(s: Seq<u8>, size: usize)
    requires
        is_grid_output(s, size),
        size % 8 == 0,
    ensures
        s.len() == (size as int) * (size as int) / 8,
{
    assert((size as int) * ((size / 8) as int) == (size as int) * (size as int) / 8)
        by (nonlinear_arith)
        requires
            size % 8 == 0,
    ;
}

/// Rows computed one by one and rows computed concurrently agree byte for
/// byte: any two buffers that satisfy the grid contract are equal.
pub proof fn lemma_parallel_sequential_agree(a: Seq<u8>, b: Seq<u8>, size: usize)
    requires
        is_grid_output(a, size),
        is_grid_output(b, size),
    ensures
        a == b,
{
    let lanes = (size / 8) as int;
    if lanes == 0 {
        assert(a.len() == 0);
        assert(a =~= b);
    } else {
        assert forall|i: int| 0 <= i < a.len() implies a[i] == b[i] by {
            let y = i / lanes;
            let j = i % lanes;
            vstd::arithmetic::div_mod::lemma_fundamental_div_mod(i, lanes);
            vstd::arithmetic::div_mod::lemma_mod_bound(i, lanes);
            assert(0 <= y) by {
                vstd::arithmetic::div_mod::lemma_div_is_ordered(0, i, lanes);
            }
            assert(y < size) by {
                if y >= size {
                    vstd::arithmetic::mul::lemma_mul_inequality(size as int, y, lanes);
                    assert(y * lanes + j >= (size as int) * lanes);
                }
            }
            assert(i == y * lanes + j);
            assert(a[y * lanes + j] == grid_byte(size, y, j));
            assert(b[y * lanes + j] == grid_byte(size, y, j));
        }
        assert(a =~= b);
    }
}

} // verus!
