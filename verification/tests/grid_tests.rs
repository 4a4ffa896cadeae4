use mandelbrot::grid::mandelbrot_grid;
use mandelbrot::grid::mandelbrot_grid_sequential;
use mandelbrot::kernel::mbrot8;

#[test]
fn grid_byte_count_for_lane_multiples() {
    // A grid of size N, N a multiple of the lane width, holds N*N/8 bytes.
    let sizes = [8usize, 16, 24, 32];
    let mut i = 0;
    while i < sizes.len() {
        let n = sizes[i];
        let buf = mandelbrot_grid(n);
        assert_eq!(buf.len(), n * n / 8);
        i += 1;
    }
}

#[test]
fn grid_size_rounds_down_to_lane_width() {
    // A size that is not a multiple of eight is rounded down.
    let buf = mandelbrot_grid(13);
    assert_eq!(buf.len(), 8 * 8 / 8);
    let empty = mandelbrot_grid(7);
    assert_eq!(empty.len(), 0);
    let degenerate = mandelbrot_grid(0);
    assert_eq!(degenerate.len(), 0);
}

#[test]
fn one_lane_wide_grid_has_one_byte_per_row() {
    // Size 8 is exactly one lane wide: one byte per row, eight rows.
    let buf = mandelbrot_grid(8);
    assert_eq!(buf.len(), 8);
}

#[test]
fn parallel_and_sequential_grids_agree() {
    // Concurrent rows and sequential rows give byte-for-byte equal output.
    let concurrent = mandelbrot_grid(32);
    let sequential = mandelbrot_grid_sequential(32);
    assert_eq!(concurrent, sequential);
}

#[test]
fn grid_rows_match_kernel_calls() {
    // Every byte of the driver's output equals a direct kernel call on the
    // row's coordinates, built here with hardware doubles.
    let sizes = [8usize, 16];
    let mut i = 0;
    while i < sizes.len() {
        let size = sizes[i];
        let buf = mandelbrot_grid(size);
        let lanes = size / 8;
        let inv = 2.0f64 / size as f64;
        let mut y = 0;
        while y < size {
            let ci = (y as f64 * inv - 1.0).to_bits();
            let mut j = 0;
            while j < lanes {
                let mut cr = [0u64; 8];
                let mut k = 0;
                while k < 8 {
                    cr[k] = ((j * 8 + k) as f64 * inv - 1.5).to_bits();
                    k += 1;
                }
                let mut expected: u8 = 0;
                mbrot8(&mut expected, &cr, ci);
                assert_eq!(buf[y * lanes + j], expected);
                j += 1;
            }
            y += 1;
        }
        i += 1;
    }
}

#[test]
fn small_grid_has_some_bounded_and_some_escaped_points() {
    // The sampled square contains the cardioid, so a 16-wide grid has set
    // bits, and its corners escape, so it has cleared bits too.
    let buf = mandelbrot_grid(16);
    let mut any_set = false;
    let mut any_clear = false;
    let mut i = 0;
    while i < buf.len() {
        if buf[i] != 0 {
            any_set = true;
        }
        if buf[i] != 0xFF {
            any_clear = true;
        }
        i += 1;
    }
    assert!(any_set);
    assert!(any_clear);
}
