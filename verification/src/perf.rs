//! Performance measurement: a rolling window of frame times with its percentiles,
//! scoped timers with an optional budget, and memory growth since start-up.

use vstd::prelude::*;
use crate::sort::{insertion_sort, sort_by};
use core::time::Duration;
use std::time::Instant;

verus! {

#[verifier::external_type_specification]
#[verifier::external_body]
pub struct ExInstant(std::time::Instant);

/// Number of frame times kept (two seconds at 60 frames per second).
pub const FRAME_WINDOW: usize = 120;

/// What a frame timer holds: the window of frame times in microseconds (0 for a slot
/// never written), the slot written next, and the timestamp of the last frame start.
pub struct FrameView {
    /// Frame times, one per slot
    pub times: Seq<u64>,
    /// The slot written next
    pub position: nat,
    /// Timestamp of the last frame start, in microseconds since the Unix epoch (0: none yet)
    pub last: u64,
}

/// Frame time tracker for UI performance.
#[derive(Debug, Clone)]
pub struct FrameTimer {
    frame_times: Vec<u64>,
    position: usize,
    last_frame: u64,
}

impl View for FrameTimer {
    type V = FrameView;

    closed spec fn view(&self) -> FrameView {
        FrameView { times: self.frame_times@, position: self.position as nat, last: self.last_frame }
    }
}

/// A frame start at `now`: the time since the previous start, when there was one and the
/// clock moved forward, is written to the current slot and the slot advances round the
/// window; the start is remembered in any case.
pub open spec fn frame_step(v: FrameView, now: u64) -> FrameView {
    if v.last > 0 && now > v.last {
        FrameView {
            times: v.times.update(v.position as int, (now - v.last) as u64),
            position: ((v.position + 1) % (FRAME_WINDOW as nat)) as nat,
            last: now,
        }
    } else {
        FrameView { times: v.times, position: v.position, last: now }
    }
}

/// The frame times that were recorded (the non-zero ones), in slot order.
pub open spec fn recorded(s: Seq<u64>) -> Seq<u64>
    decreases s.len(),
{
    if s.len() == 0 {
        Seq::empty()
    } else if s.last() > 0 {
        recorded(s.drop_last()).push(s.last())
    } else {
        recorded(s.drop_last())
    }
}

/// The sum of a sequence of times.
pub open spec fn total(s: Seq<u64>) -> int
    decreases s.len(),
{
    if s.len() == 0 {
        0
    } else {
        total(s.drop_last()) + s.last()
    }
}

/// Strict order of times.
pub open spec fn time_lt(a: u64, b: u64) -> bool {
    a < b
}

/// The recorded frame times in ascending order.
pub open spec fn sorted_times(times: Seq<u64>) -> Seq<u64> {
    sort_by(recorded(times), |a: u64, b: u64| time_lt(a, b))
}

/// Frame timing statistics in microseconds; all zero when no frame time was recorded.
#[derive(Debug, Clone, Copy, PartialEq, Eq, Structural)]
pub struct FrameSummary {
    /// Number of recorded frame times
    pub count: usize,
    /// Sum of the recorded frame times
    pub total_micros: u128,
    /// Median frame time (the element at `count / 2` in ascending order)
    pub p50_micros: u64,
    /// 95th percentile (the element at `count * 95 / 100`)
    pub p95_micros: u64,
    /// 99th percentile (the element at `count * 99 / 100`)
    pub p99_micros: u64,
    /// Longest frame time
    pub max_micros: u64,
}

/// The statistics of a window of frame times.
pub open spec fn summary_of(times: Seq<u64>) -> FrameSummary {
    let s = sorted_times(times);
    let n: int = s.len() as int;
    if n == 0 {
        FrameSummary { count: 0, total_micros: 0, p50_micros: 0, p95_micros: 0, p99_micros: 0, max_micros: 0 }
    } else {
        FrameSummary {
            count: n as usize,
            total_micros: total(s) as u128,
            p50_micros: s[n / 2],
            p95_micros: s[n * 95 / 100],
            p99_micros: s[n * 99 / 100],
            max_micros: s[n - 1],
        }
    }
}

/// Microseconds since the Unix epoch, from `std::time::SystemTime::now`; 0 where the clock
/// is before the epoch and `u64::MAX` where the count does not fit. Nothing is stated of
/// the value: it is the time.
#[verifier::external_body]
fn unix_micros() -> (r: u64) {
    std::time::SystemTime::now()
        .duration_since(std::time::UNIX_EPOCH)
        .unwrap_or(Duration::ZERO)
        .as_micros()
        .try_into()
        .unwrap_or(u64::MAX)
}

fn time_less(a: &u64, b: &u64) -> (r: bool)
    ensures
        r == time_lt(*a, *b),
{
    *a < *b
}

proof fn lemma_recorded_len(s: Seq<u64>)
    ensures
        recorded(s).len() <= s.len(),
    decreases s.len(),
{
    if s.len() > 0 {
        lemma_recorded_len(s.drop_last());
    }
}

proof fn lemma_insert_len<T>(s: Seq<T>, x: T, lt: spec_fn(T, T) -> bool)
    ensures
        crate::sort::insert_by(s, x, lt).len() == s.len() + 1,
    decreases s.len(),
{
    if s.len() > 0 {
        lemma_insert_len(s.drop_last(), x, lt);
    }
}

proof fn lemma_sort_len<T>(s: Seq<T>, lt: spec_fn(T, T) -> bool)
    ensures
        sort_by(s, lt).len() == s.len(),
    decreases s.len(),
{
    if s.len() > 0 {
        lemma_sort_len(s.drop_last(), lt);
        lemma_insert_len(sort_by(s.drop_last(), lt), s.last(), lt);
    }
}

/// Whether a sequence of times is in ascending order.
pub open spec fn ascending(s: Seq<u64>) -> bool {
    forall|i: int, j: int| 0 <= i <= j < s.len() ==> s[i] <= s[j]
}

proof fn lemma_insert_ascending(s: Seq<u64>, x: u64)
    requires
        ascending(s),
    ensures
        ascending(crate::sort::insert_by(s, x, |a: u64, b: u64| time_lt(a, b))),
        crate::sort::insert_by(s, x, |a: u64, b: u64| time_lt(a, b)).len() == s.len() + 1,
        crate::sort::insert_by(s, x, |a: u64, b: u64| time_lt(a, b)).last() == (if s.len() == 0 {
            x
        } else if x < s.last() {
            s.last()
        } else {
            x
        }),
    decreases s.len(),
{
    let lt = |a: u64, b: u64| time_lt(a, b);
    let r = crate::sort::insert_by(s, x, lt);
    if s.len() == 0 {
        assert(r =~= seq![x]);
    } else if x < s.last() {
        let d = s.drop_last();
        assert(ascending(d));
        lemma_insert_ascending(d, x);
        let r1 = crate::sort::insert_by(d, x, lt);
        assert(r == r1.push(s.last()));
        if d.len() > 0 {
            assert(d.last() == s[s.len() - 2]);
        }
        assert(r1.last() <= s.last());
        assert forall|i: int, j: int| 0 <= i <= j < r.len() implies r[i] <= r[j] by {
            if j == r.len() - 1 {
                if i < r.len() - 1 {
                    assert(r1[i] <= r1[r1.len() - 1]);
                }
            } else {
                assert(r[i] == r1[i] && r[j] == r1[j]);
            }
        }
    } else {
        assert(r == s.push(x));
        assert forall|i: int, j: int| 0 <= i <= j < r.len() implies r[i] <= r[j] by {
            if j == r.len() - 1 && i < j {
                assert(s[i] <= s[s.len() - 1]);
            }
        }
    }
}

proof fn lemma_sort_ascending(s: Seq<u64>)
    ensures
        ascending(sort_by(s, |a: u64, b: u64| time_lt(a, b))),
        sort_by(s, |a: u64, b: u64| time_lt(a, b)).len() == s.len(),
    decreases s.len(),
{
    if s.len() > 0 {
        lemma_sort_ascending(s.drop_last());
        lemma_insert_ascending(sort_by(s.drop_last(), |a: u64, b: u64| time_lt(a, b)), s.last());
    }
}

/// The frame statistics are ordered: the median is at most the 95th percentile, which is
/// at most the 99th, which is at most the longest frame time; and no more frame times are
/// counted than the window holds.
pub proof fn law_summary_ordered(times: Seq<u64>)
    ensures
        summary_of(times).p50_micros <= summary_of(times).p95_micros,
        summary_of(times).p95_micros <= summary_of(times).p99_micros,
        summary_of(times).p99_micros <= summary_of(times).max_micros,
        summary_of(times).count <= times.len(),
{
    let s = sorted_times(times);
    lemma_sort_ascending(recorded(times));
    lemma_recorded_len(times);
    let n = s.len() as int;
    if n > 0 {
        assert(n / 2 <= n * 95 / 100) by (nonlinear_arith)
            requires
                n >= 1,
        ;
        assert(n * 95 / 100 <= n * 99 / 100) by (nonlinear_arith)
            requires
                n >= 1,
        ;
        assert(n * 99 / 100 <= n - 1) by (nonlinear_arith)
            requires
                n >= 1,
        ;
    }
}

impl FrameTimer {
    /// Well-formed: one slot per frame of the window, and the next slot inside it.
    pub closed spec fn wf(&self) -> bool {
        self.frame_times@.len() == FRAME_WINDOW && self.position < FRAME_WINDOW
    }

    /// Records the start of a new frame at the current time.
    pub fn frame_start(&mut self)
        requires
            old(self).wf(),
        ensures
            final(self).wf(),
            exists|now: u64| final(self)@ == frame_step(old(self)@, now),
    {
        let now = unix_micros();
        self.record_frame(now);
    }

    /// Records the start of a new frame at `now` (microseconds since the Unix epoch).
    pub fn record_frame(&mut self, now: u64)
        requires
            old(self).wf(),
        ensures
            final(self).wf(),
            final(self)@ == frame_step(old(self)@, now),
    {
        let last = self.last_frame;
        self.last_frame = now;
        if last > 0 && now > last {
            let pos = self.position;
            self.frame_times.set(pos, now - last);
            self.position = (pos + 1) % FRAME_WINDOW;
        }
    }

    /// Frame time statistics over the recorded frame times.
    pub fn stats(&self) -> (r: FrameSummary)
        requires
            self.wf(),
        ensures
            r == summary_of(self@.times),
    {
        let mut times: Vec<u64> = Vec::new();
        for i in 0..self.frame_times.len()
            invariant
                times@ == recorded(self.frame_times@.take(i as int)),
        {
            assert(self.frame_times@.take(i + 1).drop_last() =~= self.frame_times@.take(i as int));
            if self.frame_times[i] > 0 {
                times.push(self.frame_times[i]);
            }
        }
        assert(self.frame_times@.take(self.frame_times@.len() as int) =~= self.frame_times@);
        proof {
            lemma_recorded_len(self.frame_times@);
        }
        let ghost lt = |a: u64, b: u64| time_lt(a, b);
        let ghost unsorted = times@;
        let sorted = insertion_sort(times, time_less, Ghost(lt));
        proof {
            lemma_sort_len(unsorted, lt);
        }
        let count = sorted.len();
        if count == 0 {
            return FrameSummary {
                count: 0,
                total_micros: 0,
                p50_micros: 0,
                p95_micros: 0,
                p99_micros: 0,
                max_micros: 0,
            };
        }
        let mut sum: u128 = 0;
        for i in 0..count
            invariant
                count == sorted@.len(),
                count <= FRAME_WINDOW,
                sum == total(sorted@.take(i as int)),
                sum <= i * 18446744073709551615,
        {
            assert(sorted@.take(i + 1).drop_last() =~= sorted@.take(i as int));
            sum = sum + sorted[i] as u128;
        }
        assert(sorted@.take(count as int) =~= sorted@);
        assert(count * 95 / 100 < count) by (nonlinear_arith)
            requires
                count >= 1,
        ;
        assert(count * 99 / 100 < count) by (nonlinear_arith)
            requires
                count >= 1,
        ;
        FrameSummary {
            count,
            total_micros: sum,
            p50_micros: sorted[count / 2],
            p95_micros: sorted[count * 95 / 100],
            p99_micros: sorted[count * 99 / 100],
            max_micros: sorted[count - 1],
        }
    }
}

impl Default for FrameTimer {
    fn default() -> (r: Self)
        ensures
            r.wf(),
            r@.times == Seq::new(FRAME_WINDOW as nat, |i: int| 0u64),
            r@.position == 0,
            r@.last == 0,
    {
        let mut frame_times: Vec<u64> = Vec::new();
        for i in 0..FRAME_WINDOW
            invariant
                frame_times@ == Seq::new(i as nat, |j: int| 0u64),
        {
            frame_times.push(0);
            assert(frame_times@ =~= Seq::new((i + 1) as nat, |j: int| 0u64));
        }
        FrameTimer { frame_times, position: 0, last_frame: 0 }
    }
}

/// `std::time::Instant::now`: the current instant. Nothing is stated of it: it is the time.
#[verifier::external_body]
pub(crate) fn instant_now() -> (r: Instant) {
    Instant::now()
}

/// Timer for one operation, with an optional budget that the operation should stay within.
#[derive(Debug)]
pub struct ScopedTimer<'a> {
    name: &'a str,
    start: Instant,
    budget: Option<Duration>,
}

impl<'a> ScopedTimer<'a> {
    /// The name of the operation.
    pub closed spec fn label(&self) -> Seq<char> {
        self.name@
    }

    /// The budget of the operation, if any.
    pub closed spec fn limit(&self) -> Option<Duration> {
        self.budget
    }

    /// The instant the timer was started.
    pub closed spec fn started(&self) -> Instant {
        self.start
    }

    /// Starts a timer without a budget.
    pub fn new(name: &'a str) -> (r: Self)
        ensures
            r.label() == name@,
            r.limit() is None,
    {
        ScopedTimer { name, start: instant_now(), budget: None }
    }

    /// Starts a timer with a budget.
    pub fn with_budget(name: &'a str, budget: Duration) -> (r: Self)
        ensures
            r.label() == name@,
            r.limit() == Some(budget),
    {
        ScopedTimer { name, start: instant_now(), budget: Some(budget) }
    }

    /// The name of the operation.
    pub fn name(&self) -> (r: &'a str)
        ensures
            r@ == self.label(),
    {
        self.name
    }

    /// The instant the timer was started.
    pub fn start(&self) -> (r: &Instant)
        ensures
            *r == self.started(),
    {
        &self.start
    }

    /// The budget of the operation, if any.
    pub fn budget(&self) -> (r: Option<Duration>)
        ensures
            r == self.limit(),
    {
        self.budget
    }
}

/// Whether an operation that took `elapsed_nanos` overran its budget of `budget_nanos`:
/// strictly longer than the budget, as the timer's warning is given.
pub fn over_budget(elapsed_nanos: u128, budget_nanos: u128) -> (r: bool)
    ensures
        r == (elapsed_nanos > budget_nanos),
{
    elapsed_nanos > budget_nanos
}

/// Memory usage tracker: the resident set size when tracking started.
#[derive(Debug)]
pub struct MemoryTracker {
    initial_rss: usize,
}

impl MemoryTracker {
    /// The resident set size, in bytes, when tracking started.
    pub closed spec fn initial(&self) -> nat {
        self.initial_rss as nat
    }

    /// Starts tracking from the given resident set size in bytes.
    pub fn new(initial_rss: usize) -> (r: Self)
        ensures
            r.initial() == initial_rss,
    {
        MemoryTracker { initial_rss }
    }

    /// Growth in bytes from the initial resident set size to `current_rss` (0 if it shrank).
    pub fn growth_bytes(&self, current_rss: usize) -> (r: usize)
        ensures
            r == (if current_rss >= self.initial() { current_rss - self.initial() } else { 0 }),
    {
        current_rss.saturating_sub(self.initial_rss)
    }
}

/// Performance overlay state: frame timing, memory growth and whether it is shown.
#[derive(Debug)]
pub struct PerfOverlay {
    frame_timer: FrameTimer,
    memory_tracker: MemoryTracker,
    show: bool,
}

impl PerfOverlay {
    /// The frame timer's state.
    pub closed spec fn frames(&self) -> FrameView {
        self.frame_timer@
    }

    /// Whether the overlay is shown.
    pub closed spec fn shown(&self) -> bool {
        self.show
    }

    /// The resident set size memory growth is measured from.
    pub closed spec fn initial_rss(&self) -> nat {
        self.memory_tracker.initial()
    }

    /// Well-formed: the frame timer is.
    pub closed spec fn wf(&self) -> bool {
        self.frame_timer.wf()
    }

    /// A new overlay with an empty frame window, tracking memory from `initial_rss`.
    pub fn new(initial_rss: usize, show: bool) -> (r: Self)
        ensures
            r.wf(),
            r.frames().times == Seq::new(FRAME_WINDOW as nat, |i: int| 0u64),
            r.frames().position == 0,
            r.frames().last == 0,
            r.shown() == show,
            r.initial_rss() == initial_rss,
    {
        PerfOverlay { frame_timer: FrameTimer::default(), memory_tracker: MemoryTracker::new(initial_rss), show }
    }

    /// Toggles overlay visibility.
    pub fn toggle(&mut self)
        requires
            old(self).wf(),
        ensures
            final(self).wf(),
            final(self).shown() == !old(self).shown(),
            final(self).frames() == old(self).frames(),
            final(self).initial_rss() == old(self).initial_rss(),
    {
        self.show = !self.show;
    }

    /// Records the start of a frame.
    pub fn frame_start(&mut self)
        requires
            old(self).wf(),
        ensures
            final(self).wf(),
            final(self).shown() == old(self).shown(),
            final(self).initial_rss() == old(self).initial_rss(),
            exists|now: u64| final(self).frames() == frame_step(old(self).frames(), now),
    {
        let ghost before = self.frame_timer@;
        self.frame_timer.frame_start();
        proof {
            let now = choose|now: u64| self.frame_timer@ == frame_step(before, now);
            assert(self.frames() == frame_step(old(self).frames(), now));
        }
    }

    /// Whether the overlay is shown.
    pub fn is_shown(&self) -> (r: bool)
        ensures
            r == self.shown(),
    {
        self.show
    }

    /// The frame timer.
    pub fn frame_timer(&self) -> (r: &FrameTimer)
        ensures
            r@ == self.frames(),
            self.wf() ==> r.wf(),
    {
        &self.frame_timer
    }

    /// The memory tracker.
    pub fn memory_tracker(&self) -> (r: &MemoryTracker)
        ensures
            r.initial() == self.initial_rss(),
    {
        &self.memory_tracker
    }
}

} // verus!
