//! The slideshow timer: whether it runs, how long each image stays, and
//! when the next one is due.
//!
//! Times are nanoseconds of a monotonic clock that the caller reads (the
//! same clock for every call); durations are nanoseconds too.
use vstd::prelude::*;

verus! {

/// One second in nanoseconds.
pub const SECOND_NS: u64 = 1_000_000_000;

/// The step of the `[` and `]` keys: half a second.
pub const STEP_NS: u64 = 500_000_000;

/// The shortest interval the `[` key goes down to: one second.
pub const MIN_INTERVAL_NS: u64 = 1_000_000_000;

/// The longest interval the `]` key goes up to: thirty seconds.
pub const MAX_INTERVAL_NS: u64 = 30_000_000_000;

/// The interval of a new slideshow: three seconds.
pub const DEFAULT_INTERVAL_NS: u64 = 3_000_000_000;

/// Slideshow state.
#[derive(Debug, Clone, Copy, PartialEq, Eq, Structural)]
pub struct Slideshow {
    /// The slideshow runs.
    pub active: bool,
    /// How long each image stays.
    pub interval_ns: u64,
    /// When the current image came up.
    pub last_advance_ns: u64,
}

/// The interval after the `[` key: half a second less, at least a second.
pub open spec fn shorter_interval(i: u64) -> u64 {
    if i >= MIN_INTERVAL_NS + STEP_NS {
        (i - STEP_NS) as u64
    } else {
        MIN_INTERVAL_NS
    }
}

/// The interval after the `]` key: half a second more, at most thirty
/// seconds.
pub open spec fn longer_interval(i: u64) -> u64 {
    if i + STEP_NS <= MAX_INTERVAL_NS {
        (i + STEP_NS) as u64
    } else {
        MAX_INTERVAL_NS
    }
}

/// The time from `from` to `to`, 0 when the clock went backwards.
pub open spec fn elapsed(from: u64, to: u64) -> nat {
    if to >= from {
        (to - from) as nat
    } else {
        0
    }
}

impl Slideshow {
    /// Whether the next image is due at `now_ns`: the slideshow runs, the
    /// current image is ready, and it has been up for the interval.
    pub open spec fn is_due(&self, now_ns: u64, ready: bool) -> bool {
        self.active && ready && elapsed(self.last_advance_ns, now_ns) >= self.interval_ns
    }

    /// A slideshow that runs (`active`) or not, at the default interval,
    /// with its current image up since `now_ns`.
    pub fn new(active: bool, now_ns: u64) -> (s: Self)
        ensures
            s.active == active,
            s.interval_ns == DEFAULT_INTERVAL_NS,
            s.last_advance_ns == now_ns,
    {
        Slideshow { active, interval_ns: DEFAULT_INTERVAL_NS, last_advance_ns: now_ns }
    }

    /// Starts or stops the slideshow (the `s` key); a started slideshow
    /// counts from `now_ns`.
    pub fn toggle(&mut self, now_ns: u64)
        ensures
            final(self).active == !old(self).active,
            final(self).interval_ns == old(self).interval_ns,
            final(self).last_advance_ns == if final(self).active {
                now_ns
            } else {
                old(self).last_advance_ns
            },
    {
        self.active = !self.active;
        if self.active {
            self.last_advance_ns = now_ns;
        }
    }

    /// Starts the slideshow, counting from `now_ns`.
    pub fn start(&mut self, now_ns: u64)
        ensures
            *final(self) == (Slideshow { active: true, last_advance_ns: now_ns, ..*old(self) }),
    {
        self.active = true;
        self.last_advance_ns = now_ns;
    }

    /// Stops the slideshow.
    pub fn stop(&mut self)
        ensures
            *final(self) == (Slideshow { active: false, ..*old(self) }),
    {
        self.active = false;
    }

    /// Half a second less per image, down to a second.
    pub fn shorter(&mut self)
        ensures
            *final(self) == (Slideshow {
                interval_ns: shorter_interval(old(self).interval_ns),
                ..*old(self)
            }),
    {
        if self.interval_ns >= MIN_INTERVAL_NS + STEP_NS {
            self.interval_ns = self.interval_ns - STEP_NS;
        } else {
            self.interval_ns = MIN_INTERVAL_NS;
        }
    }

    /// Half a second more per image, up to thirty seconds.
    pub fn longer(&mut self)
        ensures
            *final(self) == (Slideshow {
                interval_ns: longer_interval(old(self).interval_ns),
                ..*old(self)
            }),
    {
        if self.interval_ns <= MAX_INTERVAL_NS - STEP_NS {
            self.interval_ns = self.interval_ns + STEP_NS;
        } else {
            self.interval_ns = MAX_INTERVAL_NS;
        }
    }

    /// Sets the time each image stays.
    pub fn set_interval(&mut self, interval_ns: u64)
        ensures
            *final(self) == (Slideshow { interval_ns, ..*old(self) }),
    {
        self.interval_ns = interval_ns;
    }

    /// A new image came up at `now_ns`: a running slideshow counts from
    /// there.
    pub fn image_shown(&mut self, now_ns: u64)
        ensures
            *final(self) == if old(self).active {
                Slideshow { last_advance_ns: now_ns, ..*old(self) }
            } else {
                *old(self)
            },
    {
        if self.active {
            self.last_advance_ns = now_ns;
        }
    }

    /// Whether the next image is due at `now_ns` (see `is_due`).
    pub fn due(&self, now_ns: u64, ready: bool) -> (b: bool)
        ensures
            b == self.is_due(now_ns, ready),
    {
        let gone = if now_ns >= self.last_advance_ns {
            now_ns - self.last_advance_ns
        } else {
            0
        };
        self.active && ready && gone >= self.interval_ns
    }

    /// The next image was shown at `now_ns` by the slideshow.
    pub fn advanced(&mut self, now_ns: u64)
        ensures
            *final(self) == (Slideshow { last_advance_ns: now_ns, ..*old(self) }),
    {
        self.last_advance_ns = now_ns;
    }
}

/// After `[` the interval is at least a second, after `]` at most thirty
/// seconds; and between a second and twenty-nine and a half seconds, `]`
/// then `[` gives the interval back.
pub proof fn lemma_interval_bounds(i: u64)
    ensures
        shorter_interval(i) >= MIN_INTERVAL_NS,
        longer_interval(i) <= MAX_INTERVAL_NS,
        MIN_INTERVAL_NS <= i <= MAX_INTERVAL_NS - STEP_NS ==> shorter_interval(longer_interval(i))
            == i,
{
}

/// In nanoseconds: `[` takes half a second (500000000) off an interval of at
/// least one and a half seconds and otherwise gives one second; `]` adds half
/// a second up to thirty seconds (30000000000) and otherwise gives thirty.
pub proof fn lemma_interval_steps(i: u64)
    ensures
        i >= 1_500_000_000 ==> shorter_interval(i) == i - 500_000_000,
        i < 1_500_000_000 ==> shorter_interval(i) == 1_000_000_000,
        i <= 29_500_000_000 ==> longer_interval(i) == i + 500_000_000,
        i > 29_500_000_000 ==> longer_interval(i) == 30_000_000_000,
{
}

/// Once the slideshow shows an image, the next is not due before a full
/// interval has gone by.
pub proof fn lemma_not_due_right_after_advance(
    s: Slideshow,
    now_ns: u64,
    later_ns: u64,
    ready: bool,
)
    requires
        now_ns <= later_ns,
        later_ns - now_ns < s.interval_ns,
    ensures
        !(Slideshow { last_advance_ns: now_ns, ..s }).is_due(later_ns, ready),
{
}

} // verus!
