use vstd::prelude::*;

use crate::kernel::{complex_step_parts, complex_step_rel, mandel_rel};

verus! {

/// The caller's binary scalar operation behaves as a function: any two
/// outcomes it admits for one pair of arguments are the same scalar.
pub open spec fn deterministic2<F: Fn(u32, u32) -> u32>(op: F) -> bool {
    forall|x: u32, y: u32, r1: u32, r2: u32|
        #[trigger] call_ensures(op, (x, y), r1) && #[trigger] call_ensures(op, (x, y), r2)
            ==> r1 == r2
}

/// The caller's unary scalar operation behaves as a function: any two
/// outcomes it admits for one argument are the same scalar.
pub open spec fn deterministic1<F: Fn(u32) -> u32>(op: F) -> bool {
    forall|x: u32, r1: u32, r2: u32|
        #[trigger] call_ensures(op, (x,), r1) && #[trigger] call_ensures(op, (x,), r2)
            ==> r1 == r2
}

/// The caller's binary scalar operation computes exactly the mathematical
/// function `m` on bit patterns.
pub open spec fn computes2<F: Fn(u32, u32) -> u32>(op: F, m: spec_fn(u32, u32) -> u32) -> bool {
    forall|x: u32, y: u32, r: u32| #[trigger] call_ensures(op, (x, y), r) ==> r == m(x, y)
}

/// With deterministic operations, one escape-time update has exactly one
/// outcome.
proof fn lemma_step_unique<
    F1: Fn(u32, u32) -> u32,
    F2: Fn(u32, u32) -> u32,
    F3: Fn(u32, u32) -> u32,
>(
    add_op: F1,
    sub_op: F2,
    mul_op: F3,
    z: (u32, u32),
    c: (u32, u32),
    z1: (u32, u32),
    z2: (u32, u32),
)
    requires
        deterministic2(add_op),
        deterministic2(sub_op),
        deterministic2(mul_op),
        complex_step_rel(add_op, sub_op, mul_op, z, c, z1),
        complex_step_rel(add_op, sub_op, mul_op, z, c, z2),
    ensures
        z1 == z2,
{
    let (rr1, ii1, ri1, ir1, d1, s1) = choose|rr: u32, ii: u32, ri: u32, ir: u32, d: u32, s: u32|
        complex_step_parts(add_op, sub_op, mul_op, z, c, rr, ii, ri, ir, d, s, z1);
    let (rr2, ii2, ri2, ir2, d2, s2) = choose|rr: u32, ii: u32, ri: u32, ir: u32, d: u32, s: u32|
        complex_step_parts(add_op, sub_op, mul_op, z, c, rr, ii, ri, ir, d, s, z2);
    assert(rr1 == rr2 && ii1 == ii2 && ri1 == ri2 && ir1 == ir2);
    assert(d1 == d2 && s1 == s2);
    assert(z1.0 == z2.0 && z1.1 == z2.1);
    assert(z1 == (z1.0, z1.1) && z2 == (z2.0, z2.1));
}

/// With deterministic scalar operations, the
/// escape-time relation admits exactly one final state for a given point and
/// iteration count. Lane width never appears: every lane of every width
/// satisfies the same relation, so any two lanes fed the same point agree
/// bit for bit.
pub proof fn lemma_mandel_rel_deterministic<
    F1: Fn(u32, u32) -> u32,
    F2: Fn(u32, u32) -> u32,
    F3: Fn(u32, u32) -> u32,
>(
    add_op: F1,
    sub_op: F2,
    mul_op: F3,
    n: nat,
    c: (u32, u32),
    z1: (u32, u32),
    z2: (u32, u32),
)
    requires
        deterministic2(add_op),
        deterministic2(sub_op),
        deterministic2(mul_op),
        mandel_rel(add_op, sub_op, mul_op, n, c, z1),
        mandel_rel(add_op, sub_op, mul_op, n, c, z2),
    ensures
        z1 == z2,
    decreases n,
{
    if n == 0 {
    } else {
        let zp1 = choose|zp: (u32, u32)|
            mandel_rel(add_op, sub_op, mul_op, (n - 1) as nat, c, zp) && complex_step_rel(
                add_op,
                sub_op,
                mul_op,
                zp,
                c,
                z1,
            );
        let zp2 = choose|zp: (u32, u32)|
            mandel_rel(add_op, sub_op, mul_op, (n - 1) as nat, c, zp) && complex_step_rel(
                add_op,
                sub_op,
                mul_op,
                zp,
                c,
                z2,
            );
        lemma_mandel_rel_deterministic(add_op, sub_op, mul_op, (n - 1) as nat, c, zp1, zp2);
        lemma_step_unique(add_op, sub_op, mul_op, zp1, c, z1, z2);
    }
}

/// Lane-width independence of the fractal pipeline: any two full escape-time runs
/// over the same points with the same deterministic operations produce the
/// same flat result, element for element. The two output sequences may come
/// from dispatches at different lane widths: the run contract relates entry
/// `i` to point `i` alone, with no mention of the width, so the width is a
/// performance knob and never an observable one.
pub proof fn lemma_mandel_width_independence<
    F1: Fn(u32, u32) -> u32,
    F2: Fn(u32, u32) -> u32,
    F3: Fn(u32, u32) -> u32,
>(
    add_op: F1,
    sub_op: F2,
    mul_op: F3,
    iters: nat,
    points: Seq<(u32, u32)>,
    out1: Seq<(u32, u32)>,
    out2: Seq<(u32, u32)>,
)
    requires
        deterministic2(add_op),
        deterministic2(sub_op),
        deterministic2(mul_op),
        out1.len() == points.len(),
        out2.len() == points.len(),
        forall|i: int|
            0 <= i < points.len() ==> mandel_rel(
                add_op,
                sub_op,
                mul_op,
                iters,
                points[i],
                #[trigger] out1[i],
            ),
        forall|i: int|
            0 <= i < points.len() ==> mandel_rel(
                add_op,
                sub_op,
                mul_op,
                iters,
                points[i],
                #[trigger] out2[i],
            ),
    ensures
        out1 == out2,
{
    assert forall|i: int| 0 <= i < points.len() implies out1[i] == out2[i] by {
        lemma_mandel_rel_deterministic(add_op, sub_op, mul_op, iters, points[i], out1[i], out2[i]);
    }
    assert(out1 =~= out2);
}

/// Lane-width independence of the square-root pipeline: any two full square-root
/// runs over the same scalars with the same deterministic operation produce
/// the same flat result, element for element, whatever lane widths the two
/// dispatches used.
pub proof fn lemma_sqrt_width_independence<F: Fn(u32) -> u32>(
    sqrt_op: F,
    values: Seq<u32>,
    out1: Seq<u32>,
    out2: Seq<u32>,
)
    requires
        deterministic1(sqrt_op),
        out1.len() == values.len(),
        out2.len() == values.len(),
        forall|i: int|
            0 <= i < values.len() ==> call_ensures(sqrt_op, (values[i],), #[trigger] out1[i]),
        forall|i: int|
            0 <= i < values.len() ==> call_ensures(sqrt_op, (values[i],), #[trigger] out2[i]),
    ensures
        out1 == out2,
{
    assert(out1 =~= out2);
}

/// The unique final state of `n` escape-time updates of the point `c`,
/// starting from the all-zeros pair, when the scalar operations compute the
/// mathematical functions `am`, `sm` and `mm`: the new real part is
/// `am(sm(mm(zr,zr), mm(zi,zi)), cr)`, the new imaginary part is
/// `am(am(mm(zr,zi), mm(zi,zr)), ci)`.
pub open spec fn mandel_model(
    am: spec_fn(u32, u32) -> u32,
    sm: spec_fn(u32, u32) -> u32,
    mm: spec_fn(u32, u32) -> u32,
    n: nat,
    c: (u32, u32),
) -> (u32, u32)
    decreases n,
{
    if n == 0 {
        (0u32, 0u32)
    } else {
        let z = mandel_model(am, sm, mm, (n - 1) as nat, c);
        (am(sm(mm(z.0, z.0), mm(z.1, z.1)), c.0), am(am(mm(z.0, z.1), mm(z.1, z.0)), c.1))
    }
}

/// Kernel exactness: when the scalar operations compute the
/// mathematical functions `am`, `sm` and `mm`, the final state the kernel
/// relates to a point is exactly the `n`-fold iterate `mandel_model`: the
/// update `z <- z*z + c` applied `n` times to zero, with no early exit and
/// no width-dependent deviation.
pub proof fn lemma_mandel_matches_model<
    F1: Fn(u32, u32) -> u32,
    F2: Fn(u32, u32) -> u32,
    F3: Fn(u32, u32) -> u32,
>(
    add_op: F1,
    sub_op: F2,
    mul_op: F3,
    am: spec_fn(u32, u32) -> u32,
    sm: spec_fn(u32, u32) -> u32,
    mm: spec_fn(u32, u32) -> u32,
    n: nat,
    c: (u32, u32),
    z: (u32, u32),
)
    requires
        computes2(add_op, am),
        computes2(sub_op, sm),
        computes2(mul_op, mm),
        mandel_rel(add_op, sub_op, mul_op, n, c, z),
    ensures
        z == mandel_model(am, sm, mm, n, c),
    decreases n,
{
    if n == 0 {
    } else {
        let zp = choose|zp: (u32, u32)|
            mandel_rel(add_op, sub_op, mul_op, (n - 1) as nat, c, zp) && complex_step_rel(
                add_op,
                sub_op,
                mul_op,
                zp,
                c,
                z,
            );
        lemma_mandel_matches_model(add_op, sub_op, mul_op, am, sm, mm, (n - 1) as nat, c, zp);
        let (rr, ii, ri, ir, d, s) = choose|rr: u32, ii: u32, ri: u32, ir: u32, d: u32, s: u32|
            complex_step_parts(add_op, sub_op, mul_op, zp, c, rr, ii, ri, ir, d, s, z);
        assert(rr == mm(zp.0, zp.0) && ii == mm(zp.1, zp.1) && ri == mm(zp.0, zp.1) && ir == mm(
            zp.1,
            zp.0,
        ));
        assert(d == sm(rr, ii) && s == am(ri, ir));
        assert(z.0 == am(d, c.0) && z.1 == am(s, c.1));
        assert(z == (z.0, z.1));
    }
}

/// Pipeline exactness: when the scalar operations compute the mathematical
/// functions `am`, `sm` and `mm`, a full escape-time run returns, at every
/// index, exactly the `iters`-fold iterate of the model on the point at that
/// index — at every lane width, since the run contract never mentions the
/// width.
pub proof fn lemma_run_mandel_matches_model<
    F1: Fn(u32, u32) -> u32,
    F2: Fn(u32, u32) -> u32,
    F3: Fn(u32, u32) -> u32,
>(
    add_op: F1,
    sub_op: F2,
    mul_op: F3,
    am: spec_fn(u32, u32) -> u32,
    sm: spec_fn(u32, u32) -> u32,
    mm: spec_fn(u32, u32) -> u32,
    iters: nat,
    points: Seq<(u32, u32)>,
    out: Seq<(u32, u32)>,
)
    requires
        computes2(add_op, am),
        computes2(sub_op, sm),
        computes2(mul_op, mm),
        out.len() == points.len(),
        forall|i: int|
            0 <= i < points.len() ==> mandel_rel(
                add_op,
                sub_op,
                mul_op,
                iters,
                points[i],
                #[trigger] out[i],
            ),
    ensures
        forall|i: int|
            0 <= i < points.len() ==> #[trigger] out[i] == mandel_model(
                am,
                sm,
                mm,
                iters,
                points[i],
            ),
{
    assert forall|i: int| 0 <= i < points.len() implies #[trigger] out[i] == mandel_model(
        am,
        sm,
        mm,
        iters,
        points[i],
    ) by {
        lemma_mandel_matches_model(add_op, sub_op, mul_op, am, sm, mm, iters, points[i], out[i]);
    }
}

} // verus!
