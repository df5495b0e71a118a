//! Clocks.
//!
//! The room takes timestamps as arguments. Production code reads them from a
//! [`SystemClock`], tests from a [`MockClock`].

use vstd::prelude::*;

verus! {

/// A point in time of the system clock.
#[verifier::external_type_specification]
#[verifier::external_body]
pub struct ExSystemTime(std::time::SystemTime);

/// How many milliseconds after the UNIX epoch a point in time lies. `None` if
/// it lies before the epoch.
pub uninterp spec fn epoch_millis(t: std::time::SystemTime) -> Option<nat>;

/// How many milliseconds a span of time lasts.
pub uninterp spec fn duration_millis(d: std::time::Duration) -> nat;

/// `std::time::SystemTime::now` reads the system clock. Nothing is said of the
/// result: it depends on the moment and the machine.
#[verifier::external_body]
fn read_system_clock() -> std::time::SystemTime {
    std::time::SystemTime::now()
}

/// `std::time::SystemTime::duration_since`, from the UNIX epoch, gives the span
/// up to a point in time. There is none if the time lies before the epoch.
#[verifier::external_body]
fn since_epoch(t: &std::time::SystemTime) -> (r: Option<std::time::Duration>)
    ensures
        match r {
            Some(d) => epoch_millis(*t) == Some(duration_millis(d)),
            None => epoch_millis(*t) is None,
        },
{
    t.duration_since(std::time::UNIX_EPOCH).ok()
}

/// `std::time::Duration::as_millis` gives the whole milliseconds of a span.
#[verifier::external_body]
pub(crate) fn whole_millis(d: &std::time::Duration) -> (r: u128)
    ensures
        r == duration_millis(*d),
{
    d.as_millis()
}

/// `n`, or the largest `u64`.
pub open spec fn clamp_to_u64(n: nat) -> u64 {
    if n <= u64::MAX {
        n as u64
    } else {
        u64::MAX
    }
}

/// The timestamp for a time since the epoch: zero if the clock is set to before
/// the epoch.
pub fn timestamp_ms(since_epoch_ms: Option<u128>) -> (r: u64)
    ensures
        r == match since_epoch_ms {
            Some(ms) => clamp_to_u64(ms as nat),
            None => 0,
        },
{
    match since_epoch_ms {
        Some(ms) => if ms <= u64::MAX as u128 {
            ms as u64
        } else {
            u64::MAX
        },
        None => 0,
    }
}

/// `n`, or the largest `u32`.
pub open spec fn clamp_to_u32(n: nat) -> u32 {
    if n <= u32::MAX {
        n as u32
    } else {
        u32::MAX
    }
}

/// The round-trip sample for a measured span: its whole milliseconds, or the
/// largest `u32`.
pub fn rtt_sample_ms(rtt: &std::time::Duration) -> (r: u32)
    ensures
        r == clamp_to_u32(duration_millis(*rtt)),
{
    clamp_rtt(whole_millis(rtt))
}

/// Milliseconds as a round-trip sample.
pub fn clamp_rtt(millis: u128) -> (r: u32)
    ensures
        r == clamp_to_u32(millis as nat),
{
    if millis <= u32::MAX as u128 {
        millis as u32
    } else {
        u32::MAX
    }
}

/// The timestamp of a point in time: whole milliseconds since the epoch, zero
/// before it, and never past the largest `u64`.
pub open spec fn timestamp_of(t: std::time::SystemTime) -> u64 {
    match epoch_millis(t) {
        Some(ms) => clamp_to_u64(ms),
        None => 0,
    }
}

/// The timestamp of a point in time.
pub fn time_to_ms(t: &std::time::SystemTime) -> (r: u64)
    ensures
        r == timestamp_of(*t),
{
    match since_epoch(t) {
        Some(d) => timestamp_ms(Some(whole_millis(&d))),
        None => timestamp_ms(None),
    }
}

/// The current wall-clock time in milliseconds since the UNIX epoch: the
/// timestamp of the point in time that the system clock gave. Which one that is
/// rests with the clock.
pub fn now_ms() -> (r: u64)
    ensures
        exists|t: std::time::SystemTime| r == #[trigger] timestamp_of(t),
{
    let t = read_system_clock();
    time_to_ms(&t)
}

/// Reads the current wall-clock time as milliseconds since the UNIX epoch.
pub trait Clock: Send + Sync {
    fn now_ms(&self) -> u64;
}

/// Real-time clock.
#[derive(Debug, Default, Clone, Copy)]
pub struct SystemClock;

impl Clock for SystemClock {
    /// The timestamp of the point in time that the system clock gave.
    fn now_ms(&self) -> (r: u64)
        ensures
            exists|t: std::time::SystemTime| r == #[trigger] timestamp_of(t),
    {
        now_ms()
    }
}

/// Deterministic clock for tests. Advances only when asked.
#[derive(Debug, Default)]
pub struct MockClock {
    now: u64,
}

impl View for MockClock {
    type V = u64;

    closed spec fn view(&self) -> u64 {
        self.now
    }
}

impl MockClock {
    pub fn new(start_ms: u64) -> (r: Self)
        ensures
            r@ == start_ms,
    {
        MockClock { now: start_ms }
    }

    /// Advance the clock by `ms` milliseconds. Past the largest `u64` it starts
    /// over from zero.
    pub fn advance(&mut self, ms: u64)
        ensures
            final(self)@ == (old(self)@ + ms) % 0x1_0000_0000_0000_0000,
    {
        self.now = self.now.wrapping_add(ms);
    }

    /// Set the clock to an exact value.
    pub fn set(&mut self, ms: u64)
        ensures
            final(self)@ == ms,
    {
        self.now = ms;
    }
}

impl Clock for MockClock {
    fn now_ms(&self) -> (r: u64)
        ensures
            r == self@,
    {
        self.now
    }
}

/// The timestamp counts the whole milliseconds since the epoch; before it there
/// are none, and what is too large counts as the largest.
pub proof fn law_timestamps_count_from_the_epoch(t: std::time::SystemTime)
    ensures
        epoch_millis(t) is None ==> timestamp_of(t) == 0,
        epoch_millis(t) is Some && epoch_millis(t)->0 <= u64::MAX ==> timestamp_of(t)
            == epoch_millis(t)->0,
        epoch_millis(t) is Some && epoch_millis(t)->0 > u64::MAX ==> timestamp_of(t) == u64::MAX,
{
}

/// A measured span counts in whole milliseconds, and what is too long as the
/// longest.
pub proof fn law_long_spans_are_capped(millis: nat)
    ensures
        millis <= 0xffff_ffff ==> clamp_to_u32(millis) == millis,
        millis > 0xffff_ffff ==> clamp_to_u32(millis) == 0xffff_ffff,
        millis <= u64::MAX ==> clamp_to_u64(millis) == millis,
        millis > u64::MAX ==> clamp_to_u64(millis) == u64::MAX,
{
}

} // verus!
