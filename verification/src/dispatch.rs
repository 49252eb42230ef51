use vstd::prelude::*;

use crate::kernel::{mandel, mandel_rel, sqrt_lanes};
use crate::lane::{ComplexLane, LaneValue, LaneWidth, SizingError, lane_map2};

verus! {

/// Decomposes a flat index `i` of a sequence of `n` chunks of `w` elements
/// into its chunk number `i / w` and its lane `i % w`.
proof fn lemma_flat_index(i: int, w: int, n: int)
    requires
        w >= 1,
        0 <= i < n * w,
    ensures
        0 <= i % w < w,
        0 <= i / w < n,
        (i / w) * w + (i % w) == i,
{
    vstd::arithmetic::div_mod::lemma_mod_bound(i, w);
    vstd::arithmetic::div_mod::lemma_fundamental_div_mod(i, w);
    assert((i / w) * w == w * (i / w)) by (nonlinear_arith);
    assert(i / w < n) by (nonlinear_arith)
        requires
            i < n * w,
            w >= 1,
            i == w * (i / w) + i % w,
            0 <= i % w < w,
    ;
    assert(i / w >= 0) by (nonlinear_arith)
        requires
            0 <= i,
            w >= 1,
            i == w * (i / w) + i % w,
            0 <= i % w < w,
    ;
}

/// The plane coordinates of pixel `i` in a row-major raster of the given
/// width: column `i mod width`, row `i div width`. This is the index half of
/// input generation; scaling the pair to viewport coordinates is the
/// caller's numeric business.
pub fn pixel_coords(i: usize, width: usize) -> (p: (usize, usize))
    requires
        width >= 1,
    ensures
        p.0 as int == i as int % width as int,
        p.1 as int == i as int / width as int,
{
    (i % width, i / width)
}

/// The row-major pixel index of column `x`, row `y` in a raster of the given
/// width: the inverse of `pixel_coords` on in-range pairs.
pub fn pixel_index(x: usize, y: usize, width: usize) -> (i: usize)
    requires
        width >= 1,
        x < width,
        y as int * width as int + x as int <= usize::MAX as int,
    ensures
        i as int == y as int * width as int + x as int,
        i as int % width as int == x as int,
        i as int / width as int == y as int,
{
    proof {
        let wi = width as int;
        let xi = x as int;
        let yi = y as int;
        assert((yi * wi + xi) % wi == xi && (yi * wi + xi) / wi == yi) by (nonlinear_arith)
            requires
                wi >= 1,
                0 <= xi < wi,
                0 <= yi,
        ;
        assert(y as int * width as int >= 0) by (nonlinear_arith)
            requires
                y as int >= 0,
                width as int >= 0,
        ;
    }
    y * width + x
}

/// Partitions the points into contiguous chunks of exactly `width` lanes, in
/// order, and runs the escape-time kernel once per chunk. Succeeds exactly
/// when the input length is evenly divisible by the lane width; otherwise no
/// element is processed and a `SizingError` reports the offending pair.
/// Chunk `k`, lane `j` of the result is related to input point
/// `k * width + j` alone.
pub fn dispatch_mandel<
    F1: Fn(u32, u32) -> u32,
    F2: Fn(u32, u32) -> u32,
    F3: Fn(u32, u32) -> u32,
>(
    points: &Vec<(u32, u32)>,
    width: LaneWidth,
    iters: usize,
    add_op: &F1,
    sub_op: &F2,
    mul_op: &F3,
) -> (r: Result<Vec<ComplexLane>, SizingError>)
    requires
        forall|x: u32, y: u32| #[trigger] call_requires(*add_op, (x, y)),
        forall|x: u32, y: u32| #[trigger] call_requires(*sub_op, (x, y)),
        forall|x: u32, y: u32| #[trigger] call_requires(*mul_op, (x, y)),
    ensures
        r is Ok <==> points@.len() as int % width.lane_count() == 0,
        r matches Err(e) ==> e.len as int == points@.len() && e.width as int == width.lane_count(),
        r matches Ok(chunks) ==> chunks@.len() * width.lane_count() == points@.len()
            && (forall|k: int|
                0 <= k < chunks@.len() ==> (#[trigger] chunks@[k]).wf() && chunks@[k].width_spec()
                    == width.lane_count())
            && (forall|k: int, j: int|
                0 <= k < chunks@.len() && 0 <= j < width.lane_count() ==> mandel_rel(
                    *add_op,
                    *sub_op,
                    *mul_op,
                    iters as nat,
                    points@[k * width.lane_count() + j],
                    #[trigger] chunks@[k].point(j),
                )),
{
    let w: usize = width.lanes();
    let total: usize = points.len();
    if total % w != 0 {
        return Err(SizingError { len: total, width: w });
    }
    let n_chunks: usize = total / w;
    proof {
        vstd::arithmetic::div_mod::lemma_fundamental_div_mod(points@.len() as int, w as int);
        assert(points@.len() == n_chunks as int * w as int);
    }
    let mut chunks: Vec<ComplexLane> = Vec::new();
    let mut k: usize = 0;
    while k < n_chunks
        invariant
            k <= n_chunks,
            w as int == width.lane_count(),
            1 <= w,
            total == points@.len(),
            points@.len() == n_chunks as int * w as int,
            chunks@.len() == k,
            forall|x: u32, y: u32| #[trigger] call_requires(*add_op, (x, y)),
            forall|x: u32, y: u32| #[trigger] call_requires(*sub_op, (x, y)),
            forall|x: u32, y: u32| #[trigger] call_requires(*mul_op, (x, y)),
            forall|k2: int|
                0 <= k2 < chunks@.len() ==> (#[trigger] chunks@[k2]).wf()
                    && chunks@[k2].width_spec() == w as int,
            forall|k2: int, j: int|
                0 <= k2 < chunks@.len() && 0 <= j < w as int ==> mandel_rel(
                    *add_op,
                    *sub_op,
                    *mul_op,
                    iters as nat,
                    points@[k2 * w as int + j],
                    #[trigger] chunks@[k2].point(j),
                ),
        decreases n_chunks - k,
    {
        proof {
            assert(k as int * w as int + w as int <= points@.len()) by (nonlinear_arith)
                requires
                    (k as int) < (n_chunks as int),
                    points@.len() == n_chunks as int * w as int,
                    w as int >= 1,
            ;
        }
        let base: usize = k * w;
        let mut re: Vec<u32> = Vec::new();
        let mut im: Vec<u32> = Vec::new();
        let mut j: usize = 0;
        while j < w
            invariant
                j <= w,
                base as int == k as int * w as int,
                total == points@.len(),
                base as int + w as int <= total,
                re@.len() == j,
                im@.len() == j,
                forall|t: int|
                    0 <= t < j ==> #[trigger] re@[t] == points@[base as int + t].0 && im@[t]
                        == points@[base as int + t].1,
            decreases w - j,
        {
            let p: (u32, u32) = points[base + j];
            re.push(p.0);
            im.push(p.1);
            j += 1;
        }
        let lane_c = ComplexLane { real: LaneValue { bits: re }, imag: LaneValue { bits: im } };
        let z = mandel(&lane_c, iters, add_op, sub_op, mul_op);
        chunks.push(z);
        proof {
            assert forall|j2: int| 0 <= j2 < w as int implies lane_c.point(j2) == points@[k as int
                * w as int + j2] by {
                let q = points@[k as int * w as int + j2];
                assert(q == (q.0, q.1));
            }
        }
        k += 1;
    }
    Ok(chunks)
}

/// Flattens the ordered per-chunk results of the escape-time kernel back
/// into one flat sequence in original input order: output index
/// `k * width + j` is chunk `k`, lane `j`, so output index `i` is chunk
/// `i / width`, lane `i % width`, whatever the width was.
pub fn reassemble(chunks: &Vec<ComplexLane>, width: usize) -> (r: Vec<(u32, u32)>)
    requires
        width >= 1,
        forall|k: int|
            0 <= k < chunks@.len() ==> (#[trigger] chunks@[k]).wf() && chunks@[k].width_spec()
                == width,
    ensures
        r@.len() == chunks@.len() * width,
        forall|k: int, j: int|
            0 <= k < chunks@.len() && 0 <= j < width ==> r@[k * width + j]
                == #[trigger] chunks@[k].point(j),
        forall|i: int|
            0 <= i < r@.len() ==> #[trigger] r@[i] == chunks@[i / width as int].point(
                i % width as int,
            ),
{
    let mut r: Vec<(u32, u32)> = Vec::new();
    let mut k: usize = 0;
    while k < chunks.len()
        invariant
            k <= chunks@.len(),
            width >= 1,
            r@.len() == k as int * width as int,
            forall|k2: int|
                0 <= k2 < chunks@.len() ==> (#[trigger] chunks@[k2]).wf()
                    && chunks@[k2].width_spec() == width,
            forall|i: int|
                0 <= i < r@.len() ==> #[trigger] r@[i] == chunks@[i / width as int].point(
                    i % width as int,
                ),
        decreases chunks@.len() - k,
    {
        let mut j: usize = 0;
        while j < width
            invariant
                j <= width,
                k < chunks@.len(),
                width >= 1,
                r@.len() == k as int * width as int + j as int,
                forall|k2: int|
                    0 <= k2 < chunks@.len() ==> (#[trigger] chunks@[k2]).wf()
                        && chunks@[k2].width_spec() == width,
                forall|i: int|
                    0 <= i < r@.len() ==> #[trigger] r@[i] == chunks@[i / width as int].point(
                        i % width as int,
                    ),
            decreases width - j,
        {
            proof {
                let i0 = r@.len() as int;
                assert(i0 / width as int == k as int && i0 % width as int == j as int)
                    by (nonlinear_arith)
                    requires
                        i0 == k as int * width as int + j as int,
                        0 <= j as int && (j as int) < width as int,
                        width as int >= 1,
                        k as int >= 0,
                ;
            }
            let ch: &ComplexLane = &chunks[k];
            let pair: (u32, u32) = (ch.real.bits[j], ch.imag.bits[j]);
            r.push(pair);
            j += 1;
        }
        proof {
            assert((k as int + 1) * width as int == k as int * width as int + width as int)
                by (nonlinear_arith);
        }
        k += 1;
    }
    proof {
        assert forall|k2: int, j2: int|
            0 <= k2 < chunks@.len() && 0 <= j2 < width implies r@[k2 * width as int + j2]
            == #[trigger] chunks@[k2].point(j2) by {
            assert(0 <= k2 * width as int + j2 < chunks@.len() * width as int && (k2
                * width as int + j2) / width as int == k2 && (k2 * width as int + j2)
                % width as int == j2) by (nonlinear_arith)
                requires
                    0 <= k2 < chunks@.len(),
                    0 <= j2 < width as int,
                    width as int >= 1,
            ;
        }
    }
    r
}

/// One full escape-time run at the chosen lane width: dispatch, kernel,
/// reassemble. Succeeds exactly when the lane width divides the number of
/// points; the result then has one final state per input point, and entry
/// `i` is related to point `i` alone — the lane width is not observable in
/// the contract.
pub fn run_mandel<
    F1: Fn(u32, u32) -> u32,
    F2: Fn(u32, u32) -> u32,
    F3: Fn(u32, u32) -> u32,
>(
    points: &Vec<(u32, u32)>,
    width: LaneWidth,
    iters: usize,
    add_op: &F1,
    sub_op: &F2,
    mul_op: &F3,
) -> (r: Result<Vec<(u32, u32)>, SizingError>)
    requires
        forall|x: u32, y: u32| #[trigger] call_requires(*add_op, (x, y)),
        forall|x: u32, y: u32| #[trigger] call_requires(*sub_op, (x, y)),
        forall|x: u32, y: u32| #[trigger] call_requires(*mul_op, (x, y)),
    ensures
        r is Ok <==> points@.len() as int % width.lane_count() == 0,
        r matches Err(e) ==> e.len as int == points@.len() && e.width as int == width.lane_count(),
        r matches Ok(out) ==> out@.len() == points@.len() && (forall|i: int|
            0 <= i < points@.len() ==> mandel_rel(
                *add_op,
                *sub_op,
                *mul_op,
                iters as nat,
                points@[i],
                #[trigger] out@[i],
            )),
{
    let w: usize = width.lanes();
    match dispatch_mandel(points, width, iters, add_op, sub_op, mul_op) {
        Err(e) => Err(e),
        Ok(chunks) => {
            let out = reassemble(&chunks, w);
            proof {
                assert forall|i: int| 0 <= i < points@.len() implies mandel_rel(
                    *add_op,
                    *sub_op,
                    *mul_op,
                    iters as nat,
                    points@[i],
                    #[trigger] out@[i],
                ) by {
                    lemma_flat_index(i, w as int, chunks@.len() as int);
                    let ki = i / w as int;
                    let ji = i % w as int;
                    assert(out@[ki * w as int + ji] == chunks@[ki].point(ji));
                }
            }
            Ok(out)
        },
    }
}

/// Partitions the scalars into contiguous chunks of exactly `width` lanes
/// and runs the square-root kernel once per chunk. Succeeds exactly when the
/// input length is evenly divisible by the lane width. Chunk `k`, lane `j`
/// of the result is related to input scalar `k * width + j` alone.
pub fn dispatch_sqrt<F: Fn(u32) -> u32>(
    values: &Vec<u32>,
    width: LaneWidth,
    sqrt_op: &F,
) -> (r: Result<Vec<LaneValue>, SizingError>)
    requires
        forall|x: u32| #[trigger] call_requires(*sqrt_op, (x,)),
    ensures
        r is Ok <==> values@.len() as int % width.lane_count() == 0,
        r matches Err(e) ==> e.len as int == values@.len() && e.width as int == width.lane_count(),
        r matches Ok(chunks) ==> chunks@.len() * width.lane_count() == values@.len()
            && (forall|k: int|
                0 <= k < chunks@.len() ==> (#[trigger] chunks@[k])@.len() == width.lane_count())
            && (forall|k: int, j: int|
                0 <= k < chunks@.len() && 0 <= j < width.lane_count() ==> call_ensures(
                    *sqrt_op,
                    (values@[k * width.lane_count() + j],),
                    #[trigger] chunks@[k]@[j],
                )),
{
    let w: usize = width.lanes();
    let total: usize = values.len();
    if total % w != 0 {
        return Err(SizingError { len: total, width: w });
    }
    let n_chunks: usize = total / w;
    proof {
        vstd::arithmetic::div_mod::lemma_fundamental_div_mod(values@.len() as int, w as int);
        assert(values@.len() == n_chunks as int * w as int);
    }
    let mut chunks: Vec<LaneValue> = Vec::new();
    let mut k: usize = 0;
    while k < n_chunks
        invariant
            k <= n_chunks,
            w as int == width.lane_count(),
            1 <= w,
            total == values@.len(),
            values@.len() == n_chunks as int * w as int,
            chunks@.len() == k,
            forall|x: u32| #[trigger] call_requires(*sqrt_op, (x,)),
            forall|k2: int| 0 <= k2 < chunks@.len() ==> (#[trigger] chunks@[k2])@.len() == w as int,
            forall|k2: int, j: int|
                0 <= k2 < chunks@.len() && 0 <= j < w as int ==> call_ensures(
                    *sqrt_op,
                    (values@[k2 * w as int + j],),
                    #[trigger] chunks@[k2]@[j],
                ),
        decreases n_chunks - k,
    {
        proof {
            assert(k as int * w as int + w as int <= values@.len()) by (nonlinear_arith)
                requires
                    (k as int) < (n_chunks as int),
                    values@.len() == n_chunks as int * w as int,
                    w as int >= 1,
            ;
        }
        let base: usize = k * w;
        let mut lane_bits: Vec<u32> = Vec::new();
        let mut j: usize = 0;
        while j < w
            invariant
                j <= w,
                base as int == k as int * w as int,
                total == values@.len(),
                base as int + w as int <= total,
                lane_bits@.len() == j,
                forall|t: int| 0 <= t < j ==> #[trigger] lane_bits@[t] == values@[base as int + t],
            decreases w - j,
        {
            lane_bits.push(values[base + j]);
            j += 1;
        }
        let lane_in = LaneValue { bits: lane_bits };
        let lane_out = sqrt_lanes(&lane_in, sqrt_op);
        chunks.push(lane_out);
        k += 1;
    }
    Ok(chunks)
}

/// Flattens the ordered per-chunk results of the square-root kernel back
/// into one flat sequence in original input order: output index `i` is
/// chunk `i / width`, lane `i % width`, whatever the width was.
pub fn reassemble_scalars(chunks: &Vec<LaneValue>, width: usize) -> (r: Vec<u32>)
    requires
        width >= 1,
        forall|k: int| 0 <= k < chunks@.len() ==> (#[trigger] chunks@[k])@.len() == width,
    ensures
        r@.len() == chunks@.len() * width,
        forall|k: int, j: int|
            0 <= k < chunks@.len() && 0 <= j < width ==> r@[k * width + j]
                == #[trigger] chunks@[k]@[j],
        forall|i: int|
            0 <= i < r@.len() ==> #[trigger] r@[i] == chunks@[i / width as int]@[i % width as int],
{
    let mut r: Vec<u32> = Vec::new();
    let mut k: usize = 0;
    while k < chunks.len()
        invariant
            k <= chunks@.len(),
            width >= 1,
            r@.len() == k as int * width as int,
            forall|k2: int| 0 <= k2 < chunks@.len() ==> (#[trigger] chunks@[k2])@.len() == width,
            forall|i: int|
                0 <= i < r@.len() ==> #[trigger] r@[i] == chunks@[i / width as int]@[i
                    % width as int],
        decreases chunks@.len() - k,
    {
        let mut j: usize = 0;
        while j < width
            invariant
                j <= width,
                k < chunks@.len(),
                width >= 1,
                r@.len() == k as int * width as int + j as int,
                forall|k2: int| 0 <= k2 < chunks@.len() ==> (#[trigger] chunks@[k2])@.len() == width,
                forall|i: int|
                    0 <= i < r@.len() ==> #[trigger] r@[i] == chunks@[i / width as int]@[i
                        % width as int],
            decreases width - j,
        {
            proof {
                let i0 = r@.len() as int;
                assert(i0 / width as int == k as int && i0 % width as int == j as int)
                    by (nonlinear_arith)
                    requires
                        i0 == k as int * width as int + j as int,
                        0 <= j as int && (j as int) < width as int,
                        width as int >= 1,
                        k as int >= 0,
                ;
            }
            let x: u32 = chunks[k].bits[j];
            r.push(x);
            j += 1;
        }
        proof {
            assert((k as int + 1) * width as int == k as int * width as int + width as int)
                by (nonlinear_arith);
        }
        k += 1;
    }
    proof {
        assert forall|k2: int, j2: int|
            0 <= k2 < chunks@.len() && 0 <= j2 < width implies r@[k2 * width as int + j2]
            == #[trigger] chunks@[k2]@[j2] by {
            assert(0 <= k2 * width as int + j2 < chunks@.len() * width as int && (k2
                * width as int + j2) / width as int == k2 && (k2 * width as int + j2)
                % width as int == j2) by (nonlinear_arith)
                requires
                    0 <= k2 < chunks@.len(),
                    0 <= j2 < width as int,
                    width as int >= 1,
            ;
        }
    }
    r
}

/// One full square-root run at the chosen lane width: dispatch, kernel,
/// reassemble. Succeeds exactly when the lane width divides the number of
/// scalars; the result then has one scalar per input scalar, and entry `i`
/// is related to input `i` alone — the lane width is not observable in the
/// contract.
pub fn run_sqrt<F: Fn(u32) -> u32>(
    values: &Vec<u32>,
    width: LaneWidth,
    sqrt_op: &F,
) -> (r: Result<Vec<u32>, SizingError>)
    requires
        forall|x: u32| #[trigger] call_requires(*sqrt_op, (x,)),
    ensures
        r is Ok <==> values@.len() as int % width.lane_count() == 0,
        r matches Err(e) ==> e.len as int == values@.len() && e.width as int == width.lane_count(),
        r matches Ok(out) ==> out@.len() == values@.len() && (forall|i: int|
            0 <= i < values@.len() ==> call_ensures(*sqrt_op, (values@[i],), #[trigger] out@[i])),
{
    let w: usize = width.lanes();
    match dispatch_sqrt(values, width, sqrt_op) {
        Err(e) => Err(e),
        Ok(chunks) => {
            let out = reassemble_scalars(&chunks, w);
            proof {
                assert forall|i: int| 0 <= i < values@.len() implies call_ensures(
                    *sqrt_op,
                    (values@[i],),
                    #[trigger] out@[i],
                ) by {
                    lemma_flat_index(i, w as int, chunks@.len() as int);
                    let ki = i / w as int;
                    let ji = i % w as int;
                    assert(out@[ki * w as int + ji] == chunks@[ki]@[ji]);
                }
            }
            Ok(out)
        },
    }
}

} // verus!
