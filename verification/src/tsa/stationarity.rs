//! Stationarity testing: the KPSS regression choice, its truncation lag,
//! and the search for differencing orders driven by the test outcomes.
use vstd::prelude::*;

verus! {

/// Deterministic regressor removed before the KPSS test.
#[derive(Debug, Clone, Copy, PartialEq, Eq, Structural)]
pub enum KpssRegression {
    /// Stationarity around a constant.
    Constant,
    /// Stationarity around a linear trend.
    ConstantTrend,
}

/// `l` is Schwert's truncation lag `floor(12 * (n / 100)^(1/4))`, that is
/// the largest `l >= 0` with `100 * l^4 <= 20736 * n`.
pub open spec fn is_schwert_lag(l: int, n: int) -> bool {
    &&& l >= 0
    &&& 100 * (l * l * l * l) <= 20736 * n
    &&& 100 * ((l + 1) * (l + 1) * (l + 1) * (l + 1)) > 20736 * n
}

/// The KPSS truncation lag for `n` observations: Schwert's rule, at least
/// 1, and at most `n - 1` (zero when `n == 0`).
pub fn kpss_lag(n: usize) -> (r: usize)
    ensures
        exists|l: int| is_schwert_lag(l, n as int)
            && r == (if n == 0 { 0 } else if l < 1 { if n - 1 < 1 { n - 1 } else { 1 } }
                     else if l > n - 1 { n - 1 } else { l }),
{
    let bound: u128 = 20736u128 * (n as u128);
    let mut l: u128 = 0;
    loop
        invariant
            bound == 20736 * (n as int),
            100 * (l * l * l * l) <= bound,
            l < 0x80000,
        ensures
            100 * (l * l * l * l) <= bound,
            100 * ((l + 1) * (l + 1) * (l + 1) * (l + 1)) > bound,
        decreases bound + 1 - l,
    {
        let l1: u128 = l + 1;
        proof {
            assert(l1 * l1 <= 0x80000 * 0x80000) by (nonlinear_arith) requires l1 <= 0x80000;
            assert(l1 * l1 * l1 <= 0x80000 * 0x80000 * 0x80000) by (nonlinear_arith)
                requires l1 <= 0x80000, l1 * l1 <= 0x80000 * 0x80000;
            assert(l1 * l1 * l1 * l1 <= 0x80000 * 0x80000 * 0x80000 * 0x80000) by (nonlinear_arith)
                requires l1 <= 0x80000, l1 * l1 * l1 <= 0x80000 * 0x80000 * 0x80000;
            assert(l <= l * l * l * l) by (nonlinear_arith) requires l >= 0;
        }
        let p2: u128 = l1 * l1;
        let p3: u128 = p2 * l1;
        let p4: u128 = p3 * l1;
        if 100 * p4 > bound {
            break;
        }
        proof {
            assert(l1 < 0x80000) by (nonlinear_arith)
                requires 100 * (l1 * l1 * l1 * l1) <= 20736 * (n as int), n <= usize::MAX, l1 >= 1,
                    usize::MAX <= 0xffff_ffff_ffff_ffff;
        }
        l = l1;
    }
    let lag: usize = l as usize;
    proof {
        assert(is_schwert_lag(l as int, n as int));
    }
    if n == 0 {
        0
    } else if lag < 1 {
        if n - 1 < 1 { n - 1 } else { 1 }
    } else if lag > n - 1 {
        n - 1
    } else {
        lag
    }
}


/// What the caller does next in a differencing-order search.
#[derive(Debug, Clone, Copy, PartialEq, Eq, Structural)]
pub enum DiffAction {
    /// Test the current series (differenced `order` times) and call
    /// `report` with whether it needs another difference; if so, difference
    /// it once more.
    Test,
    /// The search is over; this is the chosen order.
    Stop(u32),
}

/// The search for a differencing order: difference while the test asks
/// for it, up to `max_order` times, and only while the series keeps at
/// least `min_len` values.
pub struct DiffSearch {
    order: u32,
    max_order: u32,
    start_len: usize,
    len: usize,
    min_len: u64,
    lag: usize,
    done: bool,
}

/// The search state as mathematical values.
pub struct DiffView {
    pub order: int,
    pub max_order: int,
    pub start_len: int,
    /// Length of the series differenced `order` times.
    pub len: int,
    pub min_len: int,
    /// Values lost by one difference (1, or the seasonal period).
    pub lag: int,
    pub done: bool,
}

impl View for DiffSearch {
    type V = DiffView;

    closed spec fn view(&self) -> DiffView {
        DiffView {
            order: self.order as int,
            max_order: self.max_order as int,
            start_len: self.start_len as int,
            len: self.len as int,
            min_len: self.min_len as int,
            lag: self.lag as int,
            done: self.done,
        }
    }
}

/// The next step: stop when the test said the series is stationary, when
/// `max_order` differences were taken, or when the series is shorter than
/// `min_len`; test otherwise.
pub open spec fn spec_diff_next(v: DiffView) -> DiffAction {
    if v.done || v.order >= v.max_order || v.len < v.min_len {
        DiffAction::Stop(v.order as u32)
    } else {
        DiffAction::Test
    }
}

/// The state after the caller reports the test: one more difference when
/// `needs_more`, the end of the search otherwise. Nothing changes unless a
/// test was due.
pub open spec fn spec_diff_report(v: DiffView, needs_more: bool) -> DiffView {
    if spec_diff_next(v) == DiffAction::Test {
        if needs_more {
            DiffView { order: v.order + 1, len: v.len - v.lag, ..v }
        } else {
            DiffView { done: true, ..v }
        }
    } else {
        v
    }
}

/// The invariant of a differencing-order search: the order never exceeds
/// its cap and the series length is the starting length less `lag` per
/// difference taken.
pub open spec fn diff_inv(v: DiffView) -> bool {
    &&& 0 <= v.order <= v.max_order
    &&& 0 <= v.lag <= v.min_len
    &&& v.len >= 0
    &&& v.len + v.order * v.lag == v.start_len
}

impl DiffSearch {
    /// The search keeps `diff_inv`.
    pub closed spec fn wf(&self) -> bool {
        diff_inv(self@)
    }

    /// The search for the ordinary differencing order `d` of a series of
    /// `len` values: KPSS is applied while at least 8 values remain, up to
    /// `max_d` differences.
    pub fn ndiffs(len: usize, max_d: u32) -> (r: Self)
        ensures
            r.wf(),
            r@ == (DiffView { order: 0, max_order: max_d as int, start_len: len as int, len: len as int,
                min_len: 8, lag: 1, done: false }),
    {
        DiffSearch { order: 0, max_order: max_d, start_len: len, len, min_len: 8, lag: 1, done: false }
    }

    /// The search for the seasonal differencing order `D` of a series of
    /// `len` values with period `period`: the strength of seasonality is
    /// measured while at least two periods remain, up to `max_big_d`
    /// seasonal differences. Without a seasonal period (`period < 2`) or
    /// with `max_big_d == 0` the order is zero.
    pub fn nsdiffs(len: usize, period: u32, max_big_d: u32) -> (r: Self)
        ensures
            r.wf(),
            period < 2 || max_big_d == 0 ==> spec_diff_next(r@) == DiffAction::Stop(0),
            !(period < 2 || max_big_d == 0) ==> r@ == (DiffView { order: 0, max_order: max_big_d as int,
                start_len: len as int, len: len as int, min_len: 2 * period, lag: period as int, done: false }),
    {
        if period < 2 || max_big_d == 0 {
            DiffSearch { order: 0, max_order: 0, start_len: len, len, min_len: 0, lag: 0, done: true }
        } else {
            DiffSearch {
                order: 0,
                max_order: max_big_d,
                start_len: len,
                len,
                min_len: 2 * (period as u64),
                lag: period as usize,
                done: false,
            }
        }
    }

    /// The next step of the search (see `spec_diff_next`).
    pub fn next(&self) -> (r: DiffAction)
        requires
            self.wf(),
        ensures
            r == spec_diff_next(self@),
    {
        if self.done || self.order >= self.max_order || (self.len as u64) < self.min_len {
            DiffAction::Stop(self.order)
        } else {
            DiffAction::Test
        }
    }

    /// Report the outcome of the test (see `spec_diff_report`).
    pub fn report(&mut self, needs_more: bool)
        requires
            old(self).wf(),
        ensures
            final(self).wf(),
            final(self)@ == spec_diff_report(old(self)@, needs_more),
    {
        if !(self.done || self.order >= self.max_order || (self.len as u64) < self.min_len) {
            if needs_more {
                proof {
                    assert((self.order + 1) * self.lag == self.order * self.lag + self.lag) by (nonlinear_arith);
                }
                self.order = self.order + 1;
                self.len = self.len - self.lag;
            } else {
                self.done = true;
            }
        }
    }
}

/// Each reported test either ends the search or takes one more difference,
/// within the cap, so a search takes at most `max_order + 1` tests. The
/// invariant is kept.
pub proof fn lemma_diff_progress(v: DiffView, needs_more: bool)
    requires
        diff_inv(v),
        spec_diff_next(v) == DiffAction::Test,
    ensures
        diff_inv(spec_diff_report(v, needs_more)),
        spec_diff_report(v, needs_more).done
            || (spec_diff_report(v, needs_more).order == v.order + 1
                && spec_diff_report(v, needs_more).order <= v.max_order),
        spec_diff_report(v, needs_more).done ==> spec_diff_next(spec_diff_report(v, needs_more)) == DiffAction::Stop(v.order as u32),
{
    assert((v.order + 1) * v.lag == v.order * v.lag + v.lag) by (nonlinear_arith);
}

} // verus!
