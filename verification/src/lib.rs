//! Lunar-position interpolator: estimates a shadow/phase angle and an
//! elevation angle at an arbitrary instant from a static table of samples,
//! using shortest-path circular interpolation on integer angles.

use vstd::prelude::*;

mod defs;
mod every;
pub mod laws;

pub use defs::AngleSample;
pub use defs::MoonEphemeris;
pub use defs::raw_values;
pub use every::CallEvery;

verus! {

use vstd::arithmetic::div_mod::{
    lemma_small_mod, lemma_mod_add_multiples_vanish, lemma_mod_sub_multiples_vanish,
    lemma_fundamental_div_mod, lemma_mod_multiples_basic, lemma_div_multiples_vanish,
    lemma_div_is_ordered,
};
use vstd::arithmetic::mul::{lemma_mul_nonnegative, lemma_mul_inequality, lemma_mul_upper_bound};

/// Canonical representative of `a` in `[0, 36000)`, congruent to `a`
/// modulo a full turn (angles in centidegrees).
pub open spec fn norm_full(a: int) -> int {
    a % 36000
}

/// Canonical representative of `a` in `[-18000, 18000)`, congruent to `a`
/// modulo a full turn: the shortest signed path to `a` (centidegrees).
pub open spec fn norm_signed(a: int) -> int {
    (a + 18000) % 36000 - 18000
}

/// Compute full modulo [0;+36000[ of provided angle in centidegrees
pub fn modulo_full(a: i32) -> (r: i32)
    ensures
        r as int == norm_full(a as int),
        0 <= r < 36000,
        (a as int - r as int) % 36000 == 0,
{
    let mut x: i32 = a;
    while x < 0 || x >= 36000
        invariant
            x as int % 36000 == a as int % 36000,
        decreases (if x < 0 { 36000 - x as int } else { x as int }),
    {
        if x < 0 {
            proof {
                lemma_mod_add_multiples_vanish(x as int, 36000);
            }
            x = x + 36000;
        } else {
            proof {
                lemma_mod_sub_multiples_vanish(x as int, 36000);
            }
            x = x - 36000;
        }
    }
    proof {
        lemma_small_mod(x as nat, 36000nat);
        lemma_fundamental_div_mod(a as int, 36000);
        lemma_mod_multiples_basic(a as int / 36000, 36000);
    }
    x
}

/// Compute symmetric modulo [-18000;+18000[ of provided angle in centidegrees
pub fn modulo_half_half(a: i32) -> (r: i32)
    ensures
        r as int == norm_signed(a as int),
        -18000 <= r < 18000,
        (a as int - r as int) % 36000 == 0,
{
    let mut x: i32 = a;
    while x < -18000 || x >= 18000
        invariant
            (x + 18000) as int % 36000 == (a + 18000) as int % 36000,
        decreases (if x < -18000 { 18000 - x as int } else { x as int + 18000 }),
    {
        if x < -18000 {
            proof {
                lemma_mod_add_multiples_vanish((x + 18000) as int, 36000);
            }
            x = x + 36000;
        } else {
            proof {
                lemma_mod_sub_multiples_vanish((x + 18000) as int, 36000);
            }
            x = x - 36000;
        }
    }
    proof {
        lemma_small_mod((x + 18000) as nat, 36000nat);
        lemma_fundamental_div_mod((a + 18000) as int, 36000);
        lemma_mod_multiples_basic((a + 18000) as int / 36000, 36000);
    }
    x
}

/// Truncating division of `a` by a positive `b`, as Rust's `/` computes it
/// on signed operands.
pub open spec fn div_trunc(a: int, b: int) -> int {
    if a >= 0 {
        a / b
    } else {
        -((-a) / b)
    }
}

/// Linear blend from scaled sample `pa` toward scaled sample `na` along the
/// shortest angular path, `elapsed` seconds into a sampling interval of
/// `period` seconds.
pub open spec fn blend(pa: int, na: int, elapsed: int, period: int) -> int {
    pa + div_trunc(elapsed * norm_signed(na - pa), period)
}

/// The estimated angle, in tenths of the stored unit, for a query `unix`
/// against a table that starts at `start`, samples every `period` seconds
/// and holds the raw values `raw`; `None` when the query falls outside the
/// covered span.
pub open spec fn estimate(start: int, period: int, raw: Seq<int>, unix: int) -> Option<int> {
    if unix < start {
        None
    } else {
        let offset = unix - start;
        let index = offset / period;
        let elapsed = offset % period;
        if index >= raw.len() {
            None
        } else if elapsed == 0 {
            Some(10 * raw[index])
        } else if index + 1 >= raw.len() {
            None
        } else {
            Some(blend(10 * raw[index], 10 * raw[index + 1], elapsed, period))
        }
    }
}

/// Approximate angle at provided timestamp
/// Returned value is 10x stored unit
pub fn approx_angle_from_unix_timestamp<T: AngleSample>(
    data: &MoonEphemeris,
    angles: &[T],
    unix: i64,
) -> (r: Option<i32>)
    requires
        data.valid(),
    ensures
        match r {
            Some(v) => estimate(
                data.start as int,
                data.period as int,
                raw_values(angles@),
                unix as int,
            ) == Some(v as int),
            None => estimate(
                data.start as int,
                data.period as int,
                raw_values(angles@),
                unix as int,
            ) is None,
        },
{
    // if provided timestamp predates the table there is no sample to read
    if unix < data.start as i64 {
        return None;
    }

    // offset timestamp by starting date in ephemeris
    let offset_s: u64 = (unix - data.start as i64) as u64;
    let period: u64 = data.period as u64;

    // divide offset by period to get angle index in array
    let index: u64 = offset_s / period;
    // compute elapsed seconds since that entry's timestamp
    let elapsed_s: u64 = offset_s % period;

    if index >= angles.len() as u64 {
        return None;
    }
    // get previous angle in centidegrees
    let pa: i32 = 10 * angles[index as usize].raw_value();
    proof {
        assert(raw_values(angles@)[index as int] == angles@[index as int].raw());
    }

    // return previous angle if offset is zero
    if elapsed_s == 0 {
        return Some(pa);
    }

    // get next angle in centidegrees
    let next_index: u64 = index + 1;
    if next_index >= angles.len() as u64 {
        return None;
    }
    let na: i32 = 10 * angles[next_index as usize].raw_value();
    proof {
        assert(raw_values(angles@)[next_index as int] == angles@[next_index as int].raw());
    }

    // compute angle delta, get [-pi;pi[ equivalent angle
    let delta: i32 = modulo_half_half(na - pa);

    // use a linear ratio between previous and next angle using elapsed time
    let offset_angle: i32 = if delta >= 0 {
        proof {
            lemma_mul_nonnegative(elapsed_s as int, delta as int);
            lemma_mul_upper_bound(elapsed_s as int, u32::MAX as int, delta as int, 18000);
            lemma_mul_inequality(elapsed_s as int, period as int, delta as int);
            lemma_div_multiples_vanish(delta as int, period as int);
            lemma_div_is_ordered(
                elapsed_s as int * delta as int,
                period as int * delta as int,
                period as int,
            );
        }
        ((elapsed_s * (delta as u64)) / period) as i32
    } else {
        let magnitude: i32 = -delta;
        proof {
            lemma_mul_nonnegative(elapsed_s as int, magnitude as int);
            lemma_mul_upper_bound(elapsed_s as int, u32::MAX as int, magnitude as int, 18000);
            lemma_mul_inequality(elapsed_s as int, period as int, magnitude as int);
            lemma_div_multiples_vanish(magnitude as int, period as int);
            lemma_div_is_ordered(
                elapsed_s as int * magnitude as int,
                period as int * magnitude as int,
                period as int,
            );
            assert(elapsed_s as int * magnitude as int == -(elapsed_s as int * delta as int))
                by (nonlinear_arith)
                requires magnitude as int == -(delta as int);
        }
        -(((elapsed_s * (magnitude as u64)) / period) as i32)
    };

    Some(pa + offset_angle)
}

/// The estimate on a shadow-angle sequence, wrapped to a compass-style
/// bearing in `[0, 36000)` centidegrees; `None` outside the covered span.
pub open spec fn shadow_estimate(start: int, period: int, raw: Seq<int>, unix: int) -> Option<int> {
    match estimate(start, period, raw, unix) {
        Some(v) => Some(norm_full(v)),
        None => None,
    }
}

/// Return moon shadow angle in centidegrees ranging [0,360[ at provided timestamp
pub fn shadow_angle_from_unix_timestamp(data: &MoonEphemeris, unix: i64) -> (r: Option<u32>)
    requires
        data.valid(),
    ensures
        match r {
            Some(v) => Some(v as int) == shadow_estimate(
                data.start as int,
                data.period as int,
                data.shadow_raw(),
                unix as int,
            ) && v < 36000,
            None => shadow_estimate(
                data.start as int,
                data.period as int,
                data.shadow_raw(),
                unix as int,
            ) is None,
        },
{
    match approx_angle_from_unix_timestamp(data, data.shadow, unix) {
        // returned angle is in centidegrees ranging [0..360deg[
        Some(angle) => Some(modulo_full(angle) as u32),
        None => None,
    }
}

/// Return moon elevation angle in decidegrees ranging [-90,90[ at provided timestamp
pub fn elevation_from_unix_timestamp(data: &MoonEphemeris, unix: i64) -> (r: Option<i32>)
    requires
        data.valid(),
    ensures
        match r {
            Some(v) => Some(v as int) == estimate(
                data.start as int,
                data.period as int,
                data.elevation_raw(),
                unix as int,
            ),
            None => estimate(
                data.start as int,
                data.period as int,
                data.elevation_raw(),
                unix as int,
            ) is None,
        },
{
    approx_angle_from_unix_timestamp(data, data.elevation, unix)
}

} // verus!
