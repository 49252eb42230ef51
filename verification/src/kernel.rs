use vstd::prelude::*;

use crate::lane::{ComplexLane, LaneValue, lane_map2};

verus! {

/// One escape-time update `z <- z*z + c` on a single scalar complex pair,
/// spelled out as the exact chain of caller operations the kernel performs:
/// the four products, the real difference, and the two left-associated sums.
/// `rr, ii, ri, ir, d, s` are the intermediate scalars of that chain.
pub open spec fn complex_step_parts<
    F1: Fn(u32, u32) -> u32,
    F2: Fn(u32, u32) -> u32,
    F3: Fn(u32, u32) -> u32,
>(
    add_op: F1,
    sub_op: F2,
    mul_op: F3,
    z: (u32, u32),
    c: (u32, u32),
    rr: u32,
    ii: u32,
    ri: u32,
    ir: u32,
    d: u32,
    s: u32,
    z2: (u32, u32),
) -> bool {
    &&& call_ensures(mul_op, (z.0, z.0), rr)
    &&& call_ensures(mul_op, (z.1, z.1), ii)
    &&& call_ensures(mul_op, (z.0, z.1), ri)
    &&& call_ensures(mul_op, (z.1, z.0), ir)
    &&& call_ensures(sub_op, (rr, ii), d)
    &&& call_ensures(add_op, (d, c.0), z2.0)
    &&& call_ensures(add_op, (ri, ir), s)
    &&& call_ensures(add_op, (s, c.1), z2.1)
}

/// `z2` is a possible outcome of one escape-time update of `z` for the
/// point `c`, under the caller's three scalar operations.
pub open spec fn complex_step_rel<
    F1: Fn(u32, u32) -> u32,
    F2: Fn(u32, u32) -> u32,
    F3: Fn(u32, u32) -> u32,
>(add_op: F1, sub_op: F2, mul_op: F3, z: (u32, u32), c: (u32, u32), z2: (u32, u32)) -> bool {
    exists|rr: u32, ii: u32, ri: u32, ir: u32, d: u32, s: u32|
        complex_step_parts(add_op, sub_op, mul_op, z, c, rr, ii, ri, ir, d, s, z2)
}

/// `z` is a possible final state of `n` escape-time updates for the point
/// `c`, starting from the all-zeros pair (the caller's zero): exactly `n`
/// steps, no early exit.
pub open spec fn mandel_rel<
    F1: Fn(u32, u32) -> u32,
    F2: Fn(u32, u32) -> u32,
    F3: Fn(u32, u32) -> u32,
>(add_op: F1, sub_op: F2, mul_op: F3, n: nat, c: (u32, u32), z: (u32, u32)) -> bool
    decreases n,
{
    if n == 0 {
        z == (0u32, 0u32)
    } else {
        exists|zp: (u32, u32)|
            mandel_rel(add_op, sub_op, mul_op, (n - 1) as nat, c, zp) && complex_step_rel(
                add_op,
                sub_op,
                mul_op,
                zp,
                c,
                z,
            )
    }
}

/// The fractal escape-time kernel. Starting from zero in every lane, applies
/// the update `z <- z*z + c` exactly `iters` times, with the caller's add,
/// subtract and multiply taken lane by lane. One definition serves every
/// width: the body never asks how many lanes it is driving, so no
/// width-specific behaviour can creep in. Lane `j` of the result is related
/// to lane `j` of `c` alone.
pub fn mandel<
    F1: Fn(u32, u32) -> u32,
    F2: Fn(u32, u32) -> u32,
    F3: Fn(u32, u32) -> u32,
>(c: &ComplexLane, iters: usize, add_op: &F1, sub_op: &F2, mul_op: &F3) -> (z: ComplexLane)
    requires
        c.wf(),
        forall|x: u32, y: u32| #[trigger] call_requires(*add_op, (x, y)),
        forall|x: u32, y: u32| #[trigger] call_requires(*sub_op, (x, y)),
        forall|x: u32, y: u32| #[trigger] call_requires(*mul_op, (x, y)),
    ensures
        z.wf(),
        z.width_spec() == c.width_spec(),
        forall|j: int|
            0 <= j < c.width_spec() ==> mandel_rel(
                *add_op,
                *sub_op,
                *mul_op,
                iters as nat,
                c.point(j),
                #[trigger] z.point(j),
            ),
{
    let width: usize = c.real.bits.len();
    let mut zr: LaneValue = LaneValue::zeroed(width);
    let mut zi: LaneValue = LaneValue::zeroed(width);
    let mut k: usize = 0;
    while k < iters
        invariant
            k <= iters,
            c.wf(),
            width == c.width_spec(),
            zr@.len() == width,
            zi@.len() == width,
            forall|x: u32, y: u32| #[trigger] call_requires(*add_op, (x, y)),
            forall|x: u32, y: u32| #[trigger] call_requires(*sub_op, (x, y)),
            forall|x: u32, y: u32| #[trigger] call_requires(*mul_op, (x, y)),
            forall|j: int|
                0 <= j < width ==> mandel_rel(
                    *add_op,
                    *sub_op,
                    *mul_op,
                    k as nat,
                    c.point(j),
                    (#[trigger] zr@[j], zi@[j]),
                ),
        decreases iters - k,
    {
        let rr = lane_map2(mul_op, &zr, &zr);
        let ii = lane_map2(mul_op, &zi, &zi);
        let ri = lane_map2(mul_op, &zr, &zi);
        let ir = lane_map2(mul_op, &zi, &zr);
        let d = lane_map2(sub_op, &rr, &ii);
        let new_r = lane_map2(add_op, &d, &c.real);
        let s = lane_map2(add_op, &ri, &ir);
        let new_i = lane_map2(add_op, &s, &c.imag);
        proof {
            assert forall|j: int|
                0 <= j < width implies mandel_rel(
                *add_op,
                *sub_op,
                *mul_op,
                (k + 1) as nat,
                c.point(j),
                (#[trigger] new_r@[j], new_i@[j]),
            ) by {
                assert(complex_step_parts(
                    *add_op,
                    *sub_op,
                    *mul_op,
                    (zr@[j], zi@[j]),
                    c.point(j),
                    rr@[j],
                    ii@[j],
                    ri@[j],
                    ir@[j],
                    d@[j],
                    s@[j],
                    (new_r@[j], new_i@[j]),
                ));
                assert(complex_step_rel(
                    *add_op,
                    *sub_op,
                    *mul_op,
                    (zr@[j], zi@[j]),
                    c.point(j),
                    (new_r@[j], new_i@[j]),
                ));
                assert(mandel_rel(
                    *add_op,
                    *sub_op,
                    *mul_op,
                    k as nat,
                    c.point(j),
                    (zr@[j], zi@[j]),
                ));
            }
        }
        zr = new_r;
        zi = new_i;
        k += 1;
    }
    ComplexLane { real: zr, imag: zi }
}

/// The elementwise square-root kernel: applies the caller's scalar
/// square-root operation to each lane of `v` independently. A lane holding a
/// value outside the operation's numeric domain yields whatever the
/// operation yields for it (for IEEE-754 square root, a quiet NaN) without
/// disturbing the other lanes.
pub fn sqrt_lanes<F: Fn(u32) -> u32>(v: &LaneValue, sqrt_op: &F) -> (r: LaneValue)
    requires
        forall|x: u32| #[trigger] call_requires(*sqrt_op, (x,)),
    ensures
        r@.len() == v@.len(),
        forall|j: int| 0 <= j < v@.len() ==> call_ensures(*sqrt_op, (v@[j],), #[trigger] r@[j]),
{
    let mut bits: Vec<u32> = Vec::new();
    let mut j: usize = 0;
    let width: usize = v.bits.len();
    while j < width
        invariant
            j <= width,
            width == v@.len(),
            bits@.len() == j,
            forall|x: u32| #[trigger] call_requires(*sqrt_op, (x,)),
            forall|t: int| 0 <= t < j ==> call_ensures(*sqrt_op, (v@[t],), #[trigger] bits@[t]),
        decreases width - j,
    {
        let x: u32 = sqrt_op(v.bits[j]);
        bits.push(x);
        j += 1;
    }
    LaneValue { bits }
}

} // verus!
