use vstd::prelude::*;
use movavg::MovAvg;

verus! {

/// Number of logical ultrasound result slots.
pub const ULTRASOUND_CHANNELS: usize = 6;

/// Number of successful samples that each channel's moving average spans.
pub const AVERAGE_WINDOW: usize = 12;

/// Deadline for each edge of the echo pulse, in milliseconds.
pub const ECHO_TIMEOUT_MS: u64 = 10;

/// Width of the trigger pulse, in microseconds.
pub const TRIGGER_PULSE_US: u64 = 10;

/// Largest distance that a channel accepts, so that the window's sum stays
/// within the accumulator.
pub const MAX_SAMPLE_MM: u64 = 768614336404564650;

/// Outcome of one ultrasound measurement.
#[derive(Clone, Copy, Debug, PartialEq, Eq, Structural)]
pub enum UltrasoundResult {
    /// No complete echo arrived in time.
    Fail,
    /// Distance in millimetres.
    Measurement(u64),
}

#[verifier::external_type_specification]
#[verifier::external_body]
#[verifier::reject_recursive_types(T)]
#[verifier::reject_recursive_types(A)]
pub struct ExMovAvg<T, A, const WINDOW_SIZE: usize>(MovAvg<T, A, WINDOW_SIZE>);

/// The samples that a moving average currently holds, oldest first.
pub uninterp spec fn window_of(avg: MovAvg<u64, i64, 12>) -> Seq<u64>;

pub open spec fn sample_sum(s: Seq<u64>) -> int
    decreases s.len(),
{
    if s.len() == 0 {
        0
    } else {
        sample_sum(s.drop_last()) + s.last()
    }
}

/// The window after `v` has been fed: `v` appended, the oldest sample dropped
/// once the window is full.
pub open spec fn window_after(w: Seq<u64>, v: u64) -> Seq<u64> {
    if w.len() < AVERAGE_WINDOW {
        w.push(v)
    } else {
        w.drop_first().push(v)
    }
}

/// Mean of a non-empty window, rounded down.
pub open spec fn mean(w: Seq<u64>) -> u64 {
    (sample_sum(w) / (w.len() as int)) as u64
}

/// Relies on movavg::MovAvg::new: a moving average that holds no sample.
#[verifier::external_body]
fn new_average() -> (r: MovAvg<u64, i64, 12>)
    ensures
        window_of(r) == Seq::<u64>::empty(),
{
    MovAvg::new()
}

/// Relies on movavg::MovAvg::feed: the sample enters the window (the oldest
/// leaves a full one) and the mean of the new window is returned. It panics
/// when a sample or the window's sum does not fit the `i64` accumulator.
#[verifier::external_body]
fn feed_average(avg: &mut MovAvg<u64, i64, 12>, v: u64) -> (r: u64)
    requires
        window_of(*old(avg)).len() <= AVERAGE_WINDOW,
        v <= i64::MAX,
        sample_sum(window_after(window_of(*old(avg)), v)) <= i64::MAX,
    ensures
        window_of(*final(avg)) == window_after(window_of(*old(avg)), v),
        r == mean(window_after(window_of(*old(avg)), v)),
{
    avg.feed(v)
}

/// Relies on movavg::MovAvg::try_get: the mean of the window, or nothing
/// while the window is empty.
#[verifier::external_body]
fn current_average(avg: &MovAvg<u64, i64, 12>) -> (r: Option<u64>)
    ensures
        window_of(*avg).len() == 0 ==> r is None,
        window_of(*avg).len() > 0 ==> r == Some(mean(window_of(*avg))),
{
    avg.try_get().ok()
}

/// Distance for an echo pulse of `elapsed_us` microseconds:
/// `elapsed_us / 57.5 * 10` millimetres, rounded down.
pub open spec fn distance_of_echo(elapsed_us: u64) -> u64 {
    (elapsed_us * 4 / 23) as u64
}

pub fn echo_distance_mm(elapsed_us: u64) -> (r: u64)
    ensures
        r == distance_of_echo(elapsed_us),
        r <= elapsed_us,
{
    ((elapsed_us as u128) * 4 / 23) as u64
}

/// Result of one measurement from the echo timing: `None` when either edge of
/// the echo missed its deadline, else the pulse width in microseconds.
pub fn measurement_from_echo(echo: Option<u64>) -> (r: UltrasoundResult)
    ensures
        r == (match echo {
            None => UltrasoundResult::Fail,
            Some(us) => UltrasoundResult::Measurement(distance_of_echo(us)),
        }),
{
    match echo {
        None => UltrasoundResult::Fail,
        Some(us) => UltrasoundResult::Measurement(echo_distance_mm(us)),
    }
}

/// Window after one measurement: a distance is fed, a failure leaves it as it is.
pub open spec fn window_with(w: Seq<u64>, m: UltrasoundResult) -> Seq<u64> {
    match m {
        UltrasoundResult::Measurement(v) => window_after(w, v),
        UltrasoundResult::Fail => w,
    }
}

/// Result reported for measurement `m` on a channel whose window was `w`: the
/// mean of the updated window while it holds a sample, else `Fail`.
pub open spec fn reported(w: Seq<u64>, m: UltrasoundResult) -> UltrasoundResult {
    let next = window_with(w, m);
    if next.len() > 0 {
        UltrasoundResult::Measurement(mean(next))
    } else {
        UltrasoundResult::Fail
    }
}

pub open spec fn sample_in_range(m: UltrasoundResult) -> bool {
    match m {
        UltrasoundResult::Measurement(v) => v <= MAX_SAMPLE_MM,
        UltrasoundResult::Fail => true,
    }
}

pub open spec fn window_wf(w: Seq<u64>) -> bool {
    &&& w.len() <= AVERAGE_WINDOW
    &&& forall|i: int| 0 <= i < w.len() ==> #[trigger] w[i] <= MAX_SAMPLE_MM
}

proof fn lemma_sum_bounded(w: Seq<u64>)
    requires
        forall|i: int| 0 <= i < w.len() ==> #[trigger] w[i] <= MAX_SAMPLE_MM,
    ensures
        0 <= sample_sum(w) <= w.len() * MAX_SAMPLE_MM,
    decreases w.len(),
{
    if w.len() > 0 {
        let prefix = w.drop_last();
        assert forall|i: int| 0 <= i < prefix.len() implies #[trigger] prefix[i] <= MAX_SAMPLE_MM by {
            assert(prefix[i] == w[i]);
        }
        lemma_sum_bounded(prefix);
        assert(w.last() == w[w.len() - 1]);
    }
}

proof fn lemma_window_with_wf(w: Seq<u64>, m: UltrasoundResult)
    requires
        window_wf(w),
        sample_in_range(m),
    ensures
        window_wf(window_with(w, m)),
        sample_sum(window_with(w, m)) <= i64::MAX,
{
    let next = window_with(w, m);
    if let UltrasoundResult::Measurement(v) = m {
        if w.len() < AVERAGE_WINDOW {
            assert forall|i: int| 0 <= i < next.len() implies #[trigger] next[i] <= MAX_SAMPLE_MM by {
                if i < w.len() {
                    assert(next[i] == w[i]);
                }
            }
        } else {
            assert forall|i: int| 0 <= i < next.len() implies #[trigger] next[i] <= MAX_SAMPLE_MM by {
                if i < w.len() - 1 {
                    assert(next[i] == w[i + 1]);
                }
            }
        }
    }
    lemma_sum_bounded(next);
    assert(next.len() * MAX_SAMPLE_MM <= 12 * MAX_SAMPLE_MM) by (nonlinear_arith)
        requires
            next.len() <= 12,
    ;
}

/// Window after `v` has been fed `n` times in a row.
pub open spec fn window_fed(w: Seq<u64>, v: u64, n: nat) -> Seq<u64>
    decreases n,
{
    if n == 0 {
        w
    } else {
        window_after(window_fed(w, v, (n - 1) as nat), v)
    }
}

proof fn lemma_window_fed_shape(w: Seq<u64>, v: u64, n: nat)
    requires
        w.len() <= AVERAGE_WINDOW,
    ensures
        window_fed(w, v, n).len() == if w.len() + n < AVERAGE_WINDOW {
            (w.len() + n) as int
        } else {
            AVERAGE_WINDOW as int
        },
        forall|i: int|
            0 <= i && window_fed(w, v, n).len() - n <= i < window_fed(w, v, n).len() ==> #[trigger] window_fed(
                w,
                v,
                n,
            )[i] == v,
    decreases n,
{
    if n > 0 {
        lemma_window_fed_shape(w, v, (n - 1) as nat);
        let p = window_fed(w, v, (n - 1) as nat);
        let q = window_fed(w, v, n);
        assert forall|i: int| 0 <= i && q.len() - n <= i < q.len() implies #[trigger] q[i] == v by {
            if i < q.len() - 1 {
                if p.len() < AVERAGE_WINDOW {
                    assert(q[i] == p[i]);
                } else {
                    assert(q[i] == p[i + 1]);
                }
            }
        }
    }
}

proof fn lemma_constant_sum(s: Seq<u64>, v: u64)
    requires
        forall|i: int| 0 <= i < s.len() ==> #[trigger] s[i] == v,
    ensures
        sample_sum(s) == s.len() * v,
    decreases s.len(),
{
    if s.len() > 0 {
        let prefix = s.drop_last();
        assert forall|i: int| 0 <= i < prefix.len() implies #[trigger] prefix[i] == v by {
            assert(prefix[i] == s[i]);
        }
        lemma_constant_sum(prefix, v);
        assert(s.last() == s[s.len() - 1]);
        assert(prefix.len() * v + v == s.len() * v) by (nonlinear_arith)
            requires
                prefix.len() + 1 == s.len(),
        ;
    }
}

/// Once the same distance has been measured at least a window's worth of times
/// in a row, the window holds nothing else and the reported value is exactly
/// that distance.
pub proof fn lemma_constant_input_settles(w: Seq<u64>, v: u64, n: nat)
    requires
        w.len() <= AVERAGE_WINDOW,
        n >= AVERAGE_WINDOW,
    ensures
        window_fed(w, v, n) == Seq::new(AVERAGE_WINDOW as nat, |i: int| v),
        mean(window_fed(w, v, n)) == v,
        reported(window_fed(w, v, (n - 1) as nat), UltrasoundResult::Measurement(v))
            == UltrasoundResult::Measurement(v),
{
    lemma_window_fed_shape(w, v, n);
    let full = window_fed(w, v, n);
    assert(full =~= Seq::new(AVERAGE_WINDOW as nat, |i: int| v));
    lemma_constant_sum(full, v);
    vstd::arithmetic::div_mod::lemma_div_by_multiple(v as int, 12);
    assert(12 * v == v * 12) by (nonlinear_arith);
}

/// A window that holds a window's worth of one distance reports that distance
/// whether the next measurement repeats it or fails, and keeps holding only it.
pub proof fn lemma_settled_window_reports(v: u64)
    ensures
        window_with(Seq::new(AVERAGE_WINDOW as nat, |i: int| v), UltrasoundResult::Measurement(v))
            == Seq::new(AVERAGE_WINDOW as nat, |i: int| v),
        reported(Seq::new(AVERAGE_WINDOW as nat, |i: int| v), UltrasoundResult::Measurement(v))
            == UltrasoundResult::Measurement(v),
        reported(Seq::new(AVERAGE_WINDOW as nat, |i: int| v), UltrasoundResult::Fail)
            == UltrasoundResult::Measurement(v),
{
    let full = Seq::new(AVERAGE_WINDOW as nat, |i: int| v);
    assert(window_after(full, v) =~= full);
    lemma_constant_sum(full, v);
    vstd::arithmetic::div_mod::lemma_div_by_multiple(v as int, 12);
    assert(12 * v == v * 12) by (nonlinear_arith);
}

/// A failed measurement leaves a channel's window untouched, so the average
/// that follows is computed from the successful samples alone; while the
/// window holds a sample the failure reports the last average.
pub proof fn lemma_fail_leaves_average(w: Seq<u64>, a: u64, b: u64)
    ensures
        window_with(w, UltrasoundResult::Fail) == w,
        w.len() > 0 ==> reported(w, UltrasoundResult::Fail) == UltrasoundResult::Measurement(mean(w)),
        window_with(
            window_with(window_with(w, UltrasoundResult::Measurement(a)), UltrasoundResult::Fail),
            UltrasoundResult::Measurement(b),
        ) == window_with(
            window_with(w, UltrasoundResult::Measurement(a)),
            UltrasoundResult::Measurement(b),
        ),
{
}

/// Smoothing state of one ultrasound channel.
pub struct UltrasoundChannel {
    avg: MovAvg<u64, i64, 12>,
}

impl UltrasoundChannel {
    /// The successful distances that the channel's average spans, oldest first.
    pub closed spec fn window(&self) -> Seq<u64> {
        window_of(self.avg)
    }

    pub open spec fn wf(&self) -> bool {
        window_wf(self.window())
    }

    pub fn new() -> (r: Self)
        ensures
            r.wf(),
            r.window() == Seq::<u64>::empty(),
    {
        UltrasoundChannel { avg: new_average() }
    }

    /// Feeds a successful measurement into the average and reports the
    /// smoothed distance; a failure leaves the average alone and reports the
    /// last average if there is one.
    pub fn record(&mut self, m: UltrasoundResult) -> (r: UltrasoundResult)
        requires
            old(self).wf(),
            sample_in_range(m),
        ensures
            final(self).wf(),
            final(self).window() == window_with(old(self).window(), m),
            r == reported(old(self).window(), m),
    {
        proof {
            lemma_window_with_wf(self.window(), m);
        }
        if let UltrasoundResult::Measurement(v) = m {
            feed_average(&mut self.avg, v);
        }
        match current_average(&self.avg) {
            Some(avg) => UltrasoundResult::Measurement(avg),
            None => UltrasoundResult::Fail,
        }
    }
}

/// The six ultrasound channels, each smoothed on its own.
pub struct UltrasoundArray {
    channels: Vec<UltrasoundChannel>,
}

impl UltrasoundArray {
    /// Window of each channel, by channel index.
    pub closed spec fn windows(&self) -> Seq<Seq<u64>> {
        self.channels@.map_values(|c: UltrasoundChannel| c.window())
    }

    pub open spec fn wf(&self) -> bool {
        &&& self.windows().len() == ULTRASOUND_CHANNELS
        &&& forall|i: int| 0 <= i < ULTRASOUND_CHANNELS ==> window_wf(#[trigger] self.windows()[i])
    }

    pub fn new() -> (r: Self)
        ensures
            r.wf(),
            forall|i: int| 0 <= i < ULTRASOUND_CHANNELS ==> #[trigger] r.windows()[i].len() == 0,
    {
        let mut channels: Vec<UltrasoundChannel> = Vec::new();
        let mut k: usize = 0;
        while k < ULTRASOUND_CHANNELS
            invariant
                k <= ULTRASOUND_CHANNELS,
                channels@.len() == k,
                forall|i: int| 0 <= i < k ==> (#[trigger] channels@[i]).window().len() == 0,
            decreases ULTRASOUND_CHANNELS - k,
        {
            channels.push(UltrasoundChannel::new());
            k = k + 1;
        }
        let r = UltrasoundArray { channels };
        assert forall|i: int| 0 <= i < ULTRASOUND_CHANNELS implies window_wf(#[trigger] r.windows()[i]) by {
            assert(r.windows()[i] == channels@[i].window());
        }
        r
    }

    /// Takes one sweep's measurements, channel by channel, and returns the
    /// result array to publish.
    pub fn sweep(&mut self, measurements: &[UltrasoundResult]) -> (r: Vec<UltrasoundResult>)
        requires
            old(self).wf(),
            measurements@.len() == ULTRASOUND_CHANNELS,
            forall|i: int| 0 <= i < ULTRASOUND_CHANNELS ==> sample_in_range(#[trigger] measurements@[i]),
        ensures
            final(self).wf(),
            r@.len() == ULTRASOUND_CHANNELS,
            forall|i: int| 0 <= i < ULTRASOUND_CHANNELS ==> {
                &&& #[trigger] final(self).windows()[i] == window_with(old(self).windows()[i], measurements@[i])
                &&& r@[i] == reported(old(self).windows()[i], measurements@[i])
            },
    {
        let mut results: Vec<UltrasoundResult> = Vec::new();
        let mut k: usize = 0;
        assert forall|i: int| 0 <= i < ULTRASOUND_CHANNELS implies (#[trigger] self.channels@[i]).wf()
            && self.channels@[i].window() == old(self).windows()[i] by {
            assert(old(self).windows()[i] == self.channels@[i].window());
        }
        while k < ULTRASOUND_CHANNELS
            invariant
                k <= ULTRASOUND_CHANNELS,
                results@.len() == k,
                self.channels@.len() == ULTRASOUND_CHANNELS,
                measurements@.len() == ULTRASOUND_CHANNELS,
                forall|i: int| 0 <= i < ULTRASOUND_CHANNELS ==> sample_in_range(#[trigger] measurements@[i]),
                forall|i: int| 0 <= i < ULTRASOUND_CHANNELS ==> (#[trigger] self.channels@[i]).wf(),
                forall|i: int| 0 <= i < k ==> {
                    &&& (#[trigger] self.channels@[i]).window() == window_with(old(self).windows()[i], measurements@[i])
                    &&& results@[i] == reported(old(self).windows()[i], measurements@[i])
                },
                forall|i: int| k <= i < ULTRASOUND_CHANNELS ==> (#[trigger] self.channels@[i]).window() == old(self).windows()[i],
            decreases ULTRASOUND_CHANNELS - k,
        {
            let m = measurements[k];
            let res = self.channels[k].record(m);
            results.push(res);
            k = k + 1;
        }
        assert forall|i: int| 0 <= i < ULTRASOUND_CHANNELS implies window_wf(#[trigger] self.windows()[i]) by {
            assert(self.windows()[i] == self.channels@[i].window());
        }
        assert forall|i: int| 0 <= i < ULTRASOUND_CHANNELS implies #[trigger] self.windows()[i]
            == window_with(old(self).windows()[i], measurements@[i]) by {
            assert(self.windows()[i] == self.channels@[i].window());
        }
        results
    }
}

} // verus!
