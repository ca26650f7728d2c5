//! Figures computed from the request metrics.

use vstd::prelude::*;

verus! {

/// The median and 95th-percentile latency of a provider on a day, in
/// milliseconds.
#[derive(Clone, Copy, Debug)]
pub struct LatencyPercentiles {
    pub p50: i64,
    pub p95: i64,
}

/// The position of the `pct`-th percentile among `n` sorted values: the
/// smallest value at or above that share, `ceil(n * pct / 100) - 1`.
pub open spec fn percentile_index(n: int, pct: int) -> int {
    (n * pct + 99) / 100 - 1
}

/// The median and 95th percentile of latencies sorted in ascending order
/// (nearest-rank), or `None` for no latencies. The ranks are those the
/// metrics store computes with `f64` products, which are exact for fewer
/// than 2^53 values.
pub fn latency_percentiles(latencies: &Vec<i64>) -> (r: Option<LatencyPercentiles>)
    requires
        latencies@.len() < 0x20_0000_0000_0000,
    ensures
        latencies@.len() == 0 <==> r is None,
        r matches Some(p) ==> p.p50 == latencies@[percentile_index(latencies@.len() as int, 50)]
            && p.p95 == latencies@[percentile_index(latencies@.len() as int, 95)],
        latencies@.len() > 0 ==> 0 <= percentile_index(latencies@.len() as int, 50) < latencies@.len()
            && 0 <= percentile_index(latencies@.len() as int, 95) < latencies@.len(),
{
    let n = latencies.len();
    if n == 0 {
        return None;
    }
    let m = n as u64;
    assert(m * 95 + 99 <= u64::MAX) by (nonlinear_arith)
        requires
            m < 0x20_0000_0000_0000,
    ;
    assert(0 <= percentile_index(m as int, 95) < m) by (nonlinear_arith)
        requires
            m >= 1,
    ;
    assert(0 <= percentile_index(m as int, 50) < m) by (nonlinear_arith)
        requires
            m >= 1,
    ;
    let i50 = ((m * 50 + 99) / 100 - 1) as usize;
    let i95 = ((m * 95 + 99) / 100 - 1) as usize;
    Some(LatencyPercentiles { p50: latencies[i50], p95: latencies[i95] })
}

} // verus!
