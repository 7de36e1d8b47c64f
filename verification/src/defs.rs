use vstd::prelude::*;

verus! {

/// Immutable table of sampled lunar angles: the instant of the first sample,
/// the fixed sampling period, and one raw sample sequence per angle kind.
pub struct MoonEphemeris {
    // starting unix timestamp
    pub start: u64,
    // time between each entry in seconds
    pub period: u32,
    // moon shadow angles in decidegrees
    pub shadow: &'static [u16],
    // moon elevation angle in degrees
    pub elevation: &'static [i8],
}

/// A raw table sample: a fixed-point angle, stored at one tenth of the
/// centidegree working resolution of the interpolator.
pub trait AngleSample: Copy + Sized {
    /// The sample's raw value as a mathematical integer.
    spec fn raw(self) -> int;

    /// The raw value, bounded so that scaling and blending stay within `i32`.
    fn raw_value(self) -> (r: i32)
        ensures
            r as int == self.raw(),
            -100_000_000 <= r <= 100_000_000,
    ;
}

impl AngleSample for u16 {
    open spec fn raw(self) -> int {
        self as int
    }

    fn raw_value(self) -> i32 {
        self as i32
    }
}

impl AngleSample for i8 {
    open spec fn raw(self) -> int {
        self as int
    }

    fn raw_value(self) -> i32 {
        self as i32
    }
}

/// The raw values of a sample sequence, as mathematical integers.
pub open spec fn raw_values<T: AngleSample>(angles: Seq<T>) -> Seq<int> {
    angles.map_values(|t: T| t.raw())
}

impl MoonEphemeris {
    /// What every consumer of the table must guarantee at construction:
    /// a meaningful (positive) sampling period, and a start instant that
    /// fits the signed 64-bit timestamps queries are made with.
    pub open spec fn valid(self) -> bool {
        &&& self.period > 0
        &&& self.start <= i64::MAX
    }

    /// The shadow-angle samples as mathematical integers.
    pub open spec fn shadow_raw(self) -> Seq<int> {
        raw_values(self.shadow@)
    }

    /// The elevation samples as mathematical integers.
    pub open spec fn elevation_raw(self) -> Seq<int> {
        raw_values(self.elevation@)
    }
}

} // verus!
