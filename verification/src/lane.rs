use vstd::prelude::*;

verus! {

/// A lane-width choice. Widths are fixed at 1, 2, 4 or 8 and picked by the
/// caller before a run; a width is never changed while a run is in flight.
#[derive(Debug, Clone, Copy, PartialEq, Eq, Structural)]
pub enum LaneWidth {
    W1,
    W2,
    W4,
    W8,
}

impl LaneWidth {
    /// How many scalar lanes a value of this width carries.
    pub open spec fn lane_count(self) -> int {
        match self {
            LaneWidth::W1 => 1,
            LaneWidth::W2 => 2,
            LaneWidth::W4 => 4,
            LaneWidth::W8 => 8,
        }
    }

    /// Executable form of `lane_count`.
    pub fn lanes(&self) -> (n: usize)
        ensures
            n as int == self.lane_count(),
            1 <= n <= 8,
    {
        match self {
            LaneWidth::W1 => 1,
            LaneWidth::W2 => 2,
            LaneWidth::W4 => 4,
            LaneWidth::W8 => 8,
        }
    }
}

/// Raised when an input length is not evenly divisible by the chosen lane
/// width: the dispatcher fails fast rather than pad or drop elements.
#[derive(Debug, Clone, Copy, PartialEq, Eq, Structural)]
pub struct SizingError {
    /// The length of the input that was handed to the dispatcher.
    pub len: usize,
    /// The lane count that does not divide `len`.
    pub width: usize,
}

/// An opaque numeric carrier: one scalar per lane, each held as its 32-bit
/// pattern. The library moves these bits and never interprets them; the
/// caller's operations give them their numeric meaning.
#[derive(Debug, PartialEq, Eq)]
pub struct LaneValue {
    /// The per-lane scalar bit patterns, in lane order.
    pub bits: Vec<u32>,
}

impl View for LaneValue {
    type V = Seq<u32>;

    open spec fn view(&self) -> Seq<u32> {
        self.bits@
    }
}

impl LaneValue {
    /// A lane value whose every lane holds the all-zeros bit pattern (the
    /// canonical zero of the caller's scalar type).
    pub fn zeroed(width: usize) -> (r: LaneValue)
        ensures
            r@.len() == width,
            forall|j: int| 0 <= j < width ==> r@[j] == 0u32,
    {
        let mut bits: Vec<u32> = Vec::new();
        let mut j: usize = 0;
        while j < width
            invariant
                j <= width,
                bits@.len() == j,
                forall|t: int| 0 <= t < j ==> bits@[t] == 0u32,
            decreases width - j,
        {
            bits.push(0u32);
            j += 1;
        }
        LaneValue { bits }
    }
}

/// Applies a caller-supplied binary scalar operation lane by lane to two
/// values of one width. Every arithmetic step of a kernel goes through here,
/// so an operation is applied to each lane in isolation by construction:
/// lane `j` of the result depends only on lane `j` of the inputs.
pub fn lane_map2<F: Fn(u32, u32) -> u32>(op: &F, a: &LaneValue, b: &LaneValue) -> (r: LaneValue)
    requires
        a@.len() == b@.len(),
        forall|x: u32, y: u32| #[trigger] call_requires(*op, (x, y)),
    ensures
        r@.len() == a@.len(),
        forall|j: int| 0 <= j < a@.len() ==> call_ensures(*op, (a@[j], b@[j]), #[trigger] r@[j]),
{
    let mut bits: Vec<u32> = Vec::new();
    let mut j: usize = 0;
    let width: usize = a.bits.len();
    while j < width
        invariant
            j <= width,
            width == a@.len(),
            a@.len() == b@.len(),
            bits@.len() == j,
            forall|x: u32, y: u32| #[trigger] call_requires(*op, (x, y)),
            forall|t: int| 0 <= t < j ==> call_ensures(*op, (a@[t], b@[t]), #[trigger] bits@[t]),
        decreases width - j,
    {
        let v: u32 = op(a.bits[j], b.bits[j]);
        bits.push(v);
        j += 1;
    }
    LaneValue { bits }
}

/// A pair of lane values of one width, holding the real and imaginary parts
/// of one or more simultaneous points of the complex plane.
#[derive(Debug, PartialEq, Eq)]
pub struct ComplexLane {
    /// Real parts, one per lane.
    pub real: LaneValue,
    /// Imaginary parts, one per lane.
    pub imag: LaneValue,
}

impl ComplexLane {
    /// Well-formed: the two parts carry the same number of lanes.
    pub open spec fn wf(self) -> bool {
        self.real@.len() == self.imag@.len()
    }

    /// The number of lanes.
    pub open spec fn width_spec(self) -> int {
        self.real@.len() as int
    }

    /// The scalar complex pair held by lane `j`, as (real bits, imaginary bits).
    pub open spec fn point(self, j: int) -> (u32, u32) {
        (self.real@[j], self.imag@[j])
    }
}

} // verus!
