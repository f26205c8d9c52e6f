//! The collector of operation outcomes: a latency histogram and counts of
//! successes and attempts for the current reporting window.
use hdrhistogram::{CreationError, Histogram, RecordError};
use vstd::prelude::*;

verus! {

/// A latency histogram of hdrhistogram, held opaque: what the logic knows
/// of it is how many values it has recorded and up to which value it is sure
/// to record, through the functions below.
#[verifier::external_body]
pub struct LatencyHistogram {
    pub inner: Histogram<u64>,
}

#[verifier::external_type_specification]
#[verifier::external_body]
pub struct ExCreationError(hdrhistogram::CreationError);

#[verifier::external_type_specification]
#[verifier::external_body]
pub struct ExRecordError(hdrhistogram::RecordError);

/// How many values a histogram has recorded since it was made or last
/// cleared (its `len`).
pub uninterp spec fn recorded_count(h: LatencyHistogram) -> nat;

/// The highest value a histogram is sure to record.
pub uninterp spec fn trackable_max(h: LatencyHistogram) -> u64;

/// Relies on hdrhistogram's `Histogram::new_with_bounds`: a histogram it
/// returns holds no value yet and tracks values up to `high`. With a lowest
/// value of 1, a `high` of at least 2 and at most 5 significant digits every
/// argument check passes and the counts array is small, so it succeeds.
#[verifier::external_body]
fn histogram_with_bounds(low: u64, high: u64, sigfig: u8) -> (r: Result<
    LatencyHistogram,
    CreationError,
>)
    ensures
        r matches Ok(h) ==> recorded_count(h) == 0 && trackable_max(h) >= high,
        low == 1 && high >= 2 && sigfig <= 5 ==> r is Ok,
{
    Histogram::<u64>::new_with_bounds(low, high, sigfig).map(|inner| LatencyHistogram { inner })
}

/// Relies on hdrhistogram's `Histogram::record`: on success one more value
/// is counted (the count saturates at `u64::MAX`, which `requires` keeps
/// away); on failure (a value out of range) nothing changes. A value up
/// to the highest trackable value always has a bucket, so it is recorded;
/// that bound never shrinks.
#[verifier::external_body]
fn histogram_record(h: &mut LatencyHistogram, value: u64) -> (r: Result<(), RecordError>)
    requires
        recorded_count(*old(h)) < u64::MAX,
    ensures
        r is Ok ==> recorded_count(*final(h)) == recorded_count(*old(h)) + 1,
        r is Err ==> recorded_count(*final(h)) == recorded_count(*old(h)),
        value <= trackable_max(*old(h)) ==> r is Ok,
        trackable_max(*final(h)) >= trackable_max(*old(h)),
{
    h.inner.record(value)
}

/// Relies on hdrhistogram's `Histogram::clear`: every recorded value is
/// dropped; the configuration, and so the trackable range, stays.
#[verifier::external_body]
fn histogram_clear(h: &mut LatencyHistogram)
    ensures
        recorded_count(*final(h)) == 0,
        trackable_max(*final(h)) == trackable_max(*old(h)),
{
    h.inner.clear()
}

/// The lowest latency the histogram tells apart from zero, in milliseconds.
pub const LATENCY_LOW_MS: u64 = 1;

/// The highest latency the histogram tracks: one hour, in milliseconds.
pub const LATENCY_HIGH_MS: u64 = 3600000;

/// Significant decimal digits the histogram keeps.
pub const LATENCY_SIGFIG: u8 = 2;

/// How often a report is due, in milliseconds.
pub const REPORT_INTERVAL_MS: u64 = 100;

/// Whether a window that has run for `elapsed_ms` is to be reported.
pub fn report_due(elapsed_ms: u64) -> (r: bool)
    ensures
        r == (elapsed_ms >= REPORT_INTERVAL_MS),
{
    elapsed_ms >= REPORT_INTERVAL_MS
}

/// The outcome of one operation attempt.
#[derive(Clone, Copy, Debug, PartialEq, Eq)]
pub struct Request {
    /// How long the attempt took, in milliseconds.
    pub latency: u64,
    pub success: bool,
}

/// Why the collector could not be made or could not take an outcome.
#[derive(Clone, Copy, Debug, PartialEq, Eq)]
pub enum StatsError {
    /// The histogram could not be built.
    Creation,
    /// The latency lies beyond what the histogram tracks.
    LatencyOutOfRange,
    /// The window already counts `u64::MAX` outcomes.
    WindowFull,
}

/// The counts of one reporting window.
#[derive(Clone, Copy, Debug, PartialEq, Eq)]
pub struct WindowCounts {
    pub successes: u64,
    pub total: u64,
}

/// Outcomes of the current window: every latency in the histogram, and how
/// many of the outcomes were successes.
pub struct StatsCollector {
    pub histogram: LatencyHistogram,
    pub successes: u64,
    pub total: u64,
}

impl StatsCollector {
    pub open spec fn wf(&self) -> bool {
        &&& self.successes <= self.total
        &&& recorded_count(self.histogram) == self.total
        &&& trackable_max(self.histogram) >= LATENCY_HIGH_MS
    }

    /// An empty window over latencies of 1 ms to one hour.
    pub fn new() -> (r: Result<Self, StatsError>)
        ensures
            r is Ok,
            r matches Ok(c) ==> c.wf() && c.total == 0 && c.successes == 0,
    {
        match histogram_with_bounds(LATENCY_LOW_MS, LATENCY_HIGH_MS, LATENCY_SIGFIG) {
            Ok(histogram) => Ok(StatsCollector { histogram, successes: 0, total: 0 }),
            Err(_) => Err(StatsError::Creation),
        }
    }

    /// Counts one outcome and records its latency. Nothing is counted when
    /// the latency cannot be recorded.
    pub fn record(&mut self, request: Request) -> (r: Result<(), StatsError>)
        requires
            old(self).wf(),
        ensures
            final(self).wf(),
            r is Err ==> final(self).total == old(self).total && final(self).successes == old(
                self,
            ).successes && recorded_count(final(self).histogram) == recorded_count(
                old(self).histogram,
            ),
            r == Err::<(), StatsError>(StatsError::WindowFull) <==> old(self).total == u64::MAX,
            r == Err::<(), StatsError>(StatsError::LatencyOutOfRange) ==> request.latency
                > LATENCY_HIGH_MS,
            old(self).total < u64::MAX && request.latency <= LATENCY_HIGH_MS ==> r is Ok,
            r is Ok ==> {
                &&& final(self).total == old(self).total + 1
                &&& final(self).successes == old(self).successes + if request.success {
                    1int
                } else {
                    0int
                }
                &&& recorded_count(final(self).histogram) == recorded_count(old(self).histogram) + 1
            },
    {
        if self.total == u64::MAX {
            return Err(StatsError::WindowFull);
        }
        match histogram_record(&mut self.histogram, request.latency) {
            Ok(()) => {
                self.total = self.total + 1;
                if request.success {
                    self.successes = self.successes + 1;
                }
                Ok(())
            },
            Err(_) => Err(StatsError::LatencyOutOfRange),
        }
    }

    /// The counts of the window so far.
    pub fn counts(&self) -> (r: WindowCounts)
        ensures
            r.successes == self.successes,
            r.total == self.total,
    {
        WindowCounts { successes: self.successes, total: self.total }
    }

    /// The latencies of the window so far.
    pub fn histogram(&self) -> (r: &LatencyHistogram)
        ensures
            r == &self.histogram,
    {
        &self.histogram
    }

    /// Closes the window: returns its counts and starts a new, empty one.
    pub fn finish_window(&mut self) -> (r: WindowCounts)
        requires
            old(self).wf(),
        ensures
            r.successes == old(self).successes,
            r.total == old(self).total,
            final(self).wf(),
            final(self).total == 0,
            final(self).successes == 0,
            recorded_count(final(self).histogram) == 0,
    {
        let counts = WindowCounts { successes: self.successes, total: self.total };
        self.reset();
        counts
    }

    /// Starts a new window: no latency, no outcome.
    pub fn reset(&mut self)
        requires
            old(self).wf(),
        ensures
            final(self).wf(),
            final(self).total == 0,
            final(self).successes == 0,
            recorded_count(final(self).histogram) == 0,
    {
        histogram_clear(&mut self.histogram);
        self.successes = 0;
        self.total = 0;
    }
}

} // verus!
