use vstd::prelude::*;

verus! {

/// `(a + b) mod 2^64`, the result of a wrapping `u64` addition.
pub open spec fn wrap_add_u64(a: u64, b: u64) -> u64 {
    ((a as int + b as int) % 0x1_0000_0000_0000_0000) as u64
}

/// `(a - b) mod 2^64`, the result of a wrapping `u64` subtraction.
pub open spec fn wrap_sub_u64(a: u64, b: u64) -> u64 {
    ((a as int - b as int) % 0x1_0000_0000_0000_0000) as u64
}

/// A monotonically increasing event counter (wraps around at `u64::MAX`).
#[derive(Debug)]
pub struct Counter(u64);

impl View for Counter {
    type V = u64;

    closed spec fn view(&self) -> u64 {
        self.0
    }
}

impl Default for Counter {
    fn default() -> (r: Self)
        ensures
            r@ == 0,
    {
        Counter(0)
    }
}

impl Counter {
    /// Adds one.
    pub fn inc(&mut self)
        ensures
            final(self)@ == wrap_add_u64(old(self)@, 1),
    {
        self.add(1);
    }

    /// Adds `n`.
    pub fn add(&mut self, n: u64)
        ensures
            final(self)@ == wrap_add_u64(old(self)@, n),
    {
        self.0 = self.0.wrapping_add(n);
    }

    /// Current value.
    pub fn get(&self) -> (r: u64)
        ensures
            r == self@,
    {
        self.0
    }
}

/// A gauge that goes up and down (wrapping, like the counter).
#[derive(Debug)]
pub struct GaugeU64(u64);

impl View for GaugeU64 {
    type V = u64;

    closed spec fn view(&self) -> u64 {
        self.0
    }
}

impl Default for GaugeU64 {
    fn default() -> (r: Self)
        ensures
            r@ == 0,
    {
        GaugeU64(0)
    }
}

/// Proof that a gauge was raised once; handing it back lowers the gauge again.
pub struct GaugeGuard {
    _private: (),
}

impl GaugeU64 {
    /// Adds one.
    pub fn inc(&mut self)
        ensures
            final(self)@ == wrap_add_u64(old(self)@, 1),
    {
        self.0 = self.0.wrapping_add(1);
    }

    /// Subtracts one.
    pub fn dec(&mut self)
        ensures
            final(self)@ == wrap_sub_u64(old(self)@, 1),
    {
        self.0 = self.0.wrapping_sub(1);
    }

    /// Current value.
    pub fn get(&self) -> (r: u64)
        ensures
            r == self@,
    {
        self.0
    }

    /// Raises the gauge by one and returns the guard that lowers it again.
    pub fn guard_inc(&mut self) -> (g: GaugeGuard)
        ensures
            final(self)@ == wrap_add_u64(old(self)@, 1),
    {
        self.inc();
        GaugeGuard { _private: () }
    }
}

impl GaugeGuard {
    /// Ends the guarded span: lowers the gauge by one.
    pub fn release(self, gauge: &mut GaugeU64)
        ensures
            final(gauge)@ == wrap_sub_u64(old(gauge)@, 1),
    {
        gauge.dec();
    }
}

/// Duration statistics in whole milliseconds: sample count, total and maximum.
#[derive(Debug)]
pub struct Timer {
    count: u64,
    total_ms: u64,
    max_ms: u64,
}

/// The millisecond value recorded for a duration of `dur_ms` milliseconds (saturated to `u64`).
pub open spec fn clamp_ms(dur_ms: u128) -> u64 {
    if dur_ms > u64::MAX as u128 { u64::MAX } else { dur_ms as u64 }
}

impl Default for Timer {
    fn default() -> (r: Self)
        ensures
            r.spec_count() == 0,
            r.spec_total_ms() == 0,
            r.spec_max_ms() == 0,
    {
        Timer { count: 0, total_ms: 0, max_ms: 0 }
    }
}

impl Timer {
    pub closed spec fn spec_count(&self) -> u64 {
        self.count
    }

    pub closed spec fn spec_total_ms(&self) -> u64 {
        self.total_ms
    }

    pub closed spec fn spec_max_ms(&self) -> u64 {
        self.max_ms
    }

    /// `after` is `before` with one more sample of `ms` milliseconds.
    pub open spec fn recorded_once(before: Timer, after: Timer, ms: u64) -> bool {
        &&& after.spec_count() == wrap_add_u64(before.spec_count(), 1)
        &&& after.spec_total_ms() == wrap_add_u64(before.spec_total_ms(), ms)
        &&& after.spec_max_ms() == (if ms > before.spec_max_ms() { ms } else { before.spec_max_ms() })
    }

    /// Records one sample lasting `dur_ms` milliseconds.
    pub fn record(&mut self, dur_ms: u128)
        ensures
            Timer::recorded_once(*old(self), *final(self), clamp_ms(dur_ms)),
            final(self).spec_count() == wrap_add_u64(old(self).spec_count(), 1),
            final(self).spec_total_ms() == wrap_add_u64(old(self).spec_total_ms(), clamp_ms(dur_ms)),
            final(self).spec_max_ms() == (if clamp_ms(dur_ms) > old(self).spec_max_ms() {
                clamp_ms(dur_ms)
            } else {
                old(self).spec_max_ms()
            }),
    {
        let ms: u64 = if dur_ms > u64::MAX as u128 { u64::MAX } else { dur_ms as u64 };
        self.count = self.count.wrapping_add(1);
        self.total_ms = self.total_ms.wrapping_add(ms);
        if ms > self.max_ms {
            self.max_ms = ms;
        }
    }

    /// Number of samples recorded.
    pub fn count(&self) -> (r: u64)
        ensures
            r == self.spec_count(),
    {
        self.count
    }

    /// Sum of all samples, in milliseconds.
    pub fn total_ms(&self) -> (r: u64)
        ensures
            r == self.spec_total_ms(),
    {
        self.total_ms
    }

    /// Largest sample, in milliseconds.
    pub fn max_ms(&self) -> (r: u64)
        ensures
            r == self.spec_max_ms(),
    {
        self.max_ms
    }
}

} // verus!
