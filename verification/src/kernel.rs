//! The lane kernel: the escape-time test for eight points at once.
//!
//! Eight points share one imaginary coordinate `ci` and carry distinct real
//! coordinates `cr`. Each orbit starts at zero and follows `z <- z*z + c`,
//! written in the one-step-lagged form of the recurrence: the squares
//! `tr = zr*zr` and `ti = zi*zi` of one iteration feed the next, so
//! `tr + ti` is the squared magnitude of the previous iterate for free.
//! Every fifth iteration the kernel checks whether all eight lanes have
//! left the bailout disk; if so it returns at once, leaving the output
//! byte as it was. Otherwise, after fifty iterations, it packs one bit per
//! lane into the byte: bit `0x80 >> k` is set when lane `k` is still
//! bounded (squared magnitude at most four).

use vstd::prelude::*;

use crate::fbits::{
    add_bits, f64_add, f64_gt, f64_le, f64_mul, f64_sub, gt_bits, le_bits, mul_bits, sub_bits,
    F64_FOUR, F64_ZERO,
};

verus! {

/// One point's iteration state in the lagged formulation: the current
/// iterate `(zr, zi)` and the squares `(tr, ti)` of its components, all as
/// bit patterns of IEEE-754 doubles.
pub struct Orbit {
    pub zr: u64,
    pub zi: u64,
    pub tr: u64,
    pub ti: u64,
}

/// The state of one point's orbit after `n` iterations of the lagged
/// recurrence, starting from zero.
pub open spec fn orbit_at(cr: u64, ci: u64, n: nat) -> Orbit
    decreases n,
{
    if n == 0 {
        Orbit { zr: F64_ZERO, zi: F64_ZERO, tr: F64_ZERO, ti: F64_ZERO }
    } else {
        let p = orbit_at(cr, ci, (n - 1) as nat);
        let zi = add_bits(mul_bits(add_bits(p.zr, p.zr), p.zi), ci);
        let zr = add_bits(sub_bits(p.tr, p.ti), cr);
        Orbit { zr, zi, tr: mul_bits(zr, zr), ti: mul_bits(zi, zi) }
    }
}

/// The squared magnitude of the iterate after `n` iterations, as a bit
/// pattern.
pub open spec fn absz_at(cr: u64, ci: u64, n: nat) -> u64 {
    let p = orbit_at(cr, ci, n);
    add_bits(p.tr, p.ti)
}

/// Whether the point is still bounded after `n` iterations: its squared
/// magnitude compares at most four.
pub open spec fn bounded_at(cr: u64, ci: u64, n: nat) -> bool {
    le_bits(absz_at(cr, ci, n), F64_FOUR)
}

/// Whether the point has certainly escaped after `n` iterations: its
/// squared magnitude compares greater than four.
pub open spec fn escaped_gt_at(cr: u64, ci: u64, n: nat) -> bool {
    gt_bits(absz_at(cr, ci, n), F64_FOUR)
}

/// Whether, at the checkpoint after `m` blocks of five iterations, every
/// one of the eight lanes has escaped.
pub open spec fn all_escaped_at(cr: Seq<u64>, ci: u64, m: nat) -> bool {
    forall|k: int| 0 <= k < 8 ==> escaped_gt_at(cr[k], ci, (m * 5) as nat)
}

/// Whether some checkpoint within the iteration bound sees all eight lanes
/// escaped at once; the kernel then returns without writing its byte.
pub open spec fn universal_escape(cr: Seq<u64>, ci: u64) -> bool {
    exists|m: int| 1 <= m <= 10 && #[trigger] all_escaped_at(cr, ci, m as nat)
}

/// The packed byte restricted to the first `k` lanes: bit `0x80 >> j` is
/// set when lane `j` is still bounded after the full fifty iterations.
pub open spec fn packed_prefix(cr: Seq<u64>, ci: u64, k: nat) -> u8
    decreases k,
{
    if k == 0 {
        0u8
    } else {
        let prev = packed_prefix(cr, ci, (k - 1) as nat);
        if bounded_at(cr[k - 1], ci, 50) {
            prev | (0x80u8 >> ((k - 1) as usize))
        } else {
            prev
        }
    }
}

/// The byte of escape flags for the eight lanes, most significant bit
/// first.
pub open spec fn packed_byte(cr: Seq<u64>, ci: u64) -> u8 {
    packed_prefix(cr, ci, 8)
}

/// What the lane kernel leaves in its output slot: the packed escape
/// flags, except that a run in which every checkpoint saw all lanes
/// escaped leaves the slot untouched. The result is a function of the
/// inputs alone.
pub open spec fn mbrot8_spec(out0: u8, cr: Seq<u64>, ci: u64) -> u8 {
    if universal_escape(cr, ci) {
        out0
    } else {
        packed_byte(cr, ci)
    }
}

/// The lane kernel: run eight orbits for fifty iterations, checking every
/// fifth for universal escape, and pack the escape flags into `*out`.
pub fn mbrot8(out: &mut u8, cr: &[u64; 8], ci: u64)
    ensures
        *final(out) == mbrot8_spec(*old(out), cr@, ci),
{
    let mut zr: [u64; 8] = [F64_ZERO; 8];
    let mut zi: [u64; 8] = [F64_ZERO; 8];
    let mut tr: [u64; 8] = [F64_ZERO; 8];
    let mut ti: [u64; 8] = [F64_ZERO; 8];
    let mut absz: [u64; 8] = [F64_ZERO; 8];

    let mut m: usize = 0;
    while m < 10
        invariant
            m <= 10,
            forall|q: int| 0 <= q < 8 ==> #[trigger] zr@[q] == orbit_at(cr@[q], ci, (m * 5) as nat).zr,
            forall|q: int| 0 <= q < 8 ==> #[trigger] zi@[q] == orbit_at(cr@[q], ci, (m * 5) as nat).zi,
            forall|q: int| 0 <= q < 8 ==> #[trigger] tr@[q] == orbit_at(cr@[q], ci, (m * 5) as nat).tr,
            forall|q: int| 0 <= q < 8 ==> #[trigger] ti@[q] == orbit_at(cr@[q], ci, (m * 5) as nat).ti,
            forall|j: int| 1 <= j <= m ==> !#[trigger] all_escaped_at(cr@, ci, j as nat),
            m >= 1 ==> forall|q: int| 0 <= q < 8 ==> #[trigger] absz@[q] == absz_at(
                cr@[q],
                ci,
                (m * 5) as nat,
            ),
            *out == *old(out),
        decreases 10 - m,
    {
        let mut s: usize = 0;
        while s < 5
            invariant
                s <= 5,
                m < 10,
                forall|q: int| 0 <= q < 8 ==> #[trigger] zr@[q] == orbit_at(
                    cr@[q],
                    ci,
                    (m * 5 + s) as nat,
                ).zr,
                forall|q: int| 0 <= q < 8 ==> #[trigger] zi@[q] == orbit_at(
                    cr@[q],
                    ci,
                    (m * 5 + s) as nat,
                ).zi,
                forall|q: int| 0 <= q < 8 ==> #[trigger] tr@[q] == orbit_at(
                    cr@[q],
                    ci,
                    (m * 5 + s) as nat,
                ).tr,
                forall|q: int| 0 <= q < 8 ==> #[trigger] ti@[q] == orbit_at(
                    cr@[q],
                    ci,
                    (m * 5 + s) as nat,
                ).ti,
            decreases 5 - s,
        {
            let ghost n: nat = (m * 5 + s) as nat;
            let mut k: usize = 0;
            while k < 8
                invariant
                    k <= 8,
                    n == (m * 5 + s) as nat,
                    m < 10,
                    s < 5,
                    forall|q: int| 0 <= q < k ==> #[trigger] zr@[q] == orbit_at(
                        cr@[q],
                        ci,
                        (n + 1) as nat,
                    ).zr,
                    forall|q: int| 0 <= q < k ==> #[trigger] zi@[q] == orbit_at(
                        cr@[q],
                        ci,
                        (n + 1) as nat,
                    ).zi,
                    forall|q: int| 0 <= q < k ==> #[trigger] tr@[q] == orbit_at(
                        cr@[q],
                        ci,
                        (n + 1) as nat,
                    ).tr,
                    forall|q: int| 0 <= q < k ==> #[trigger] ti@[q] == orbit_at(
                        cr@[q],
                        ci,
                        (n + 1) as nat,
                    ).ti,
                    forall|q: int| k <= q < 8 ==> #[trigger] zr@[q] == orbit_at(cr@[q], ci, n).zr,
                    forall|q: int| k <= q < 8 ==> #[trigger] zi@[q] == orbit_at(cr@[q], ci, n).zi,
                    forall|q: int| k <= q < 8 ==> #[trigger] tr@[q] == orbit_at(cr@[q], ci, n).tr,
                    forall|q: int| k <= q < 8 ==> #[trigger] ti@[q] == orbit_at(cr@[q], ci, n).ti,
                decreases 8 - k,
            {
                let new_zi = f64_add(f64_mul(f64_add(zr[k], zr[k]), zi[k]), ci);
                let new_zr = f64_add(f64_sub(tr[k], ti[k]), cr[k]);
                zr[k] = new_zr;
                zi[k] = new_zi;
                tr[k] = f64_mul(new_zr, new_zr);
                ti[k] = f64_mul(new_zi, new_zi);
                proof {
                    assert(orbit_at(cr@[k as int], ci, (n + 1) as nat) == Orbit {
                        zr: new_zr,
                        zi: new_zi,
                        tr: mul_bits(new_zr, new_zr),
                        ti: mul_bits(new_zi, new_zi),
                    });
                }
                k += 1;
            }
            s += 1;
        }

        let ghost nc: nat = ((m + 1) * 5) as nat;
        assert((m * 5 + 5) as nat == nc);

        let mut k: usize = 0;
        let mut all_gt = true;
        while k < 8
            invariant
                k <= 8,
                nc == ((m + 1) * 5) as nat,
                m < 10,
                forall|q: int| 0 <= q < 8 ==> #[trigger] tr@[q] == orbit_at(cr@[q], ci, nc).tr,
                forall|q: int| 0 <= q < 8 ==> #[trigger] ti@[q] == orbit_at(cr@[q], ci, nc).ti,
                forall|q: int| 0 <= q < k ==> #[trigger] absz@[q] == absz_at(cr@[q], ci, nc),
                all_gt ==> forall|q: int| 0 <= q < k ==> escaped_gt_at(cr@[q], ci, nc),
                !all_gt ==> exists|q: int| 0 <= q < k && !escaped_gt_at(cr@[q], ci, nc),
            decreases 8 - k,
        {
            absz[k] = f64_add(tr[k], ti[k]);
            if !f64_gt(absz[k], F64_FOUR) {
                all_gt = false;
            }
            k += 1;
        }

        if all_gt {
            proof {
                assert(all_escaped_at(cr@, ci, ((m + 1)) as nat)) by {
                    assert(forall|q: int| 0 <= q < 8 ==> escaped_gt_at(
                        cr@[q],
                        ci,
                        (((m + 1) as nat) * 5) as nat,
                    ));
                }
                assert(1 <= (m + 1) as int <= 10 && all_escaped_at(cr@, ci, (m + 1) as nat));
            }
            return ;
        }

        proof {
            assert(!all_escaped_at(cr@, ci, (m + 1) as nat));
        }
        m += 1;
    }

    let mut accu: u8 = 0;
    let mut k: usize = 0;
    while k < 8
        invariant
            k <= 8,
            forall|q: int| 0 <= q < 8 ==> #[trigger] absz@[q] == absz_at(cr@[q], ci, 50),
            accu == packed_prefix(cr@, ci, k as nat),
        decreases 8 - k,
    {
        if f64_le(absz[k], F64_FOUR) {
            accu = accu | (0x80u8 >> k);
        }
        k += 1;
    }

    proof {
        assert(!universal_escape(cr@, ci));
    }
    *out = accu;
}

/// The kernel's output depends on its inputs alone: two calls with the
/// same output slot, lane coordinates and imaginary coordinate leave the
/// same byte.
pub proof fn lemma_mbrot8_deterministic(
    o1: u8,
    o2: u8,
    cr1: Seq<u64>,
    cr2: Seq<u64>,
    ci1: u64,
    ci2: u64,
)
    requires
        o1 == o2,
        cr1 == cr2,
        ci1 == ci2,
    ensures
        mbrot8_spec(o1, cr1, ci1) == mbrot8_spec(o2, cr2, ci2),
{
}

} // verus!
