use mandelbrot::kernel::mbrot8;

fn lane_bits(vals: [f64; 8]) -> [u64; 8] {
    let mut out = [0u64; 8];
    let mut k = 0;
    while k < 8 {
        out[k] = vals[k].to_bits();
        k += 1;
    }
    out
}

#[test]
fn origin_never_escapes() {
    // c = 0 + 0i stays at the origin forever: every bit set.
    let cr = lane_bits([0.0; 8]);
    let mut out: u8 = 0;
    mbrot8(&mut out, &cr, 0.0f64.to_bits());
    assert_eq!(out, 0xFF);
}

#[test]
fn far_point_escapes_immediately() {
    // |c| > 2 before the first iteration: |z1| = |c| = 3, so every lane
    // escapes and the pre-zeroed byte stays zero.
    let cr = lane_bits([3.0; 8]);
    let mut out: u8 = 0;
    mbrot8(&mut out, &cr, 0.0f64.to_bits());
    assert_eq!(out, 0);
}

#[test]
fn universal_escape_leaves_byte_untouched() {
    // When every lane escapes, the kernel returns without writing.
    let cr = lane_bits([3.0; 8]);
    let mut out: u8 = 0x55;
    mbrot8(&mut out, &cr, 0.0f64.to_bits());
    assert_eq!(out, 0x55);
}

#[test]
fn classical_periodic_point_stays_bounded() {
    // c = -1 + 0i has the periodic orbit 0, -1, 0, -1, ...: its bit stays
    // set while the seven escaping companions clear theirs.
    let cr = lane_bits([-1.0, 3.0, 3.0, 3.0, 3.0, 3.0, 3.0, 3.0]);
    let mut out: u8 = 0;
    mbrot8(&mut out, &cr, 0.0f64.to_bits());
    assert_eq!(out, 0x80);
}

#[test]
fn known_escape_by_second_iteration() {
    // c = 1 + 1i: z1 = 1+i has squared magnitude 2, z2 = 1+3i has squared
    // magnitude 10 > 4, so every lane escapes and the byte stays zero.
    let cr = lane_bits([1.0; 8]);
    let mut out: u8 = 0;
    mbrot8(&mut out, &cr, 1.0f64.to_bits());
    assert_eq!(out, 0);
}

#[test]
fn mixed_lane_packs_msb_first() {
    // Lane 0 holds c = 0 + 1i, which is bounded; lanes 1..7 hold escaping
    // points with the same imaginary coordinate. Bit 0x80 >> 0 survives.
    let cr = lane_bits([0.0, 1.0, 1.0, 1.0, 1.0, 1.0, 1.0, 1.0]);
    let mut out: u8 = 0;
    mbrot8(&mut out, &cr, 1.0f64.to_bits());
    assert_eq!(out, 0x80);
}

#[test]
fn kernel_is_idempotent() {
    // Two calls with identical inputs produce identical bytes.
    let cr = lane_bits([-1.5, -1.0, -0.5, 0.0, 0.25, 0.5, 1.0, 3.0]);
    let ci = 0.25f64.to_bits();
    let mut first: u8 = 0;
    mbrot8(&mut first, &cr, ci);
    let mut second: u8 = 0;
    mbrot8(&mut second, &cr, ci);
    assert_eq!(first, second);
}

#[test]
fn kernel_matches_plain_float_recurrence() {
    // An independent evaluation of the same lagged recurrence with
    // hardware doubles must agree with the kernel's soft-float path.
    let vals = [-1.5, -1.25, -1.0, -0.75, -0.5, -0.25, 0.0, 0.25];
    let ci = -0.5f64;
    let mut zr = [0.0f64; 8];
    let mut zi = [0.0f64; 8];
    let mut tr = [0.0f64; 8];
    let mut ti = [0.0f64; 8];
    let mut absz = [0.0f64; 8];
    let mut expected: u8 = 0;
    let mut rounds = 0;
    let mut escaped_early = false;
    while rounds < 10 {
        let mut s = 0;
        while s < 5 {
            let mut k = 0;
            while k < 8 {
                let new_zi = (zr[k] + zr[k]) * zi[k] + ci;
                let new_zr = tr[k] - ti[k] + vals[k];
                zr[k] = new_zr;
                zi[k] = new_zi;
                tr[k] = new_zr * new_zr;
                ti[k] = new_zi * new_zi;
                k += 1;
            }
            s += 1;
        }
        let mut k = 0;
        let mut all_gt = true;
        while k < 8 {
            absz[k] = tr[k] + ti[k];
            if !(absz[k] > 4.0) {
                all_gt = false;
            }
            k += 1;
        }
        if all_gt {
            escaped_early = true;
            break;
        }
        rounds += 1;
    }
    if !escaped_early {
        let mut k = 0;
        while k < 8 {
            if absz[k] <= 4.0 {
                expected |= 0x80 >> k;
            }
            k += 1;
        }
    }
    let cr = lane_bits(vals);
    let mut out: u8 = 0;
    mbrot8(&mut out, &cr, ci.to_bits());
    assert_eq!(out, expected);
}
