//! Transient toast notifications: they slide in, hold, slide out and expire.
//! Time is tracked in nanoseconds.
use vstd::prelude::*;

verus! {

/// How long a notification lives.
pub const TTL_NANOS: u128 = 3_000_000_000;
/// Duration of the slide-in animation.
pub const ENTER_NANOS: u128 = 180_000_000;
/// Duration of the slide-out animation at the end of the lifetime.
pub const EXIT_NANOS: u128 = 300_000_000;

#[derive(Debug, Clone, Copy, PartialEq, Eq, Structural)]
pub enum NotificationKind {
    Success,
    Error,
}

#[derive(Debug, Clone, PartialEq, Eq)]
pub struct Notification {
    kind: NotificationKind,
    title: String,
    message: String,
    elapsed: u128,
}

/// The total nanoseconds a `Duration` holds, as `Duration::as_nanos` gives
/// them.
pub uninterp spec fn duration_nanos(d: std::time::Duration) -> u128;

/// Total nanoseconds of a `Duration` (`Duration::as_nanos`): whole seconds
/// times a billion plus the sub-second nanoseconds, so at most
/// `u64::MAX` seconds and 999,999,999 nanoseconds.
#[verifier::external_body]
pub(crate) fn duration_as_nanos(d: std::time::Duration) -> (r: u128)
    ensures
        r == duration_nanos(d),
        r <= u64::MAX as u128 * 1_000_000_000 + 999_999_999,
{
    d.as_nanos()
}

/// `ceil(num / den)` for a positive denominator.
pub open spec fn ceil_div(num: int, den: int) -> int {
    (num + den - 1) / den
}

/// Horizontal offset, in cells, of a notification `elapsed` nanoseconds old
/// sliding over `width` cells: cubic ease-out while entering, cubic ease-in
/// while leaving, and zero while it holds.
pub open spec fn slide_offset_spec(elapsed: int, width: int) -> int {
    let travel = if width + 2 > u16::MAX { u16::MAX as int } else { width + 2 };
    if elapsed < ENTER_NANOS {
        let rest = ENTER_NANOS - elapsed;
        ceil_div(rest * rest * rest * travel, ENTER_NANOS * ENTER_NANOS * ENTER_NANOS)
    } else if TTL_NANOS - elapsed <= EXIT_NANOS {
        let gone = EXIT_NANOS - (TTL_NANOS - elapsed);
        ceil_div(gone * gone * gone * travel, EXIT_NANOS * EXIT_NANOS * EXIT_NANOS)
    } else {
        0
    }
}

proof fn lemma_cube_scale(a: int, b: int, t: int)
    requires
        0 <= a <= b,
        0 < b,
        0 <= t,
    ensures
        0 <= a * a <= b * b,
        0 <= a * a * a <= b * b * b,
        0 <= a * a * a * t <= b * b * b * t,
        b * b * b > 0,
        0 <= ceil_div(a * a * a * t, b * b * b) <= t,
{
    assert(0 <= a * a <= b * b) by (nonlinear_arith)
        requires
            0 <= a <= b,
    ;
    assert(0 <= a * a * a <= b * b * b) by (nonlinear_arith)
        requires
            0 <= a <= b,
            0 <= a * a <= b * b,
    ;
    assert(0 <= a * a * a * t <= b * b * b * t) by (nonlinear_arith)
        requires
            0 <= a * a * a <= b * b * b,
            0 <= t,
    ;
    assert(b * b * b > 0) by (nonlinear_arith)
        requires
            b > 0,
    ;
    assert(b * b * b * t == (b * b * b) * t) by (nonlinear_arith);
    lemma_ceil_div_bound(a * a * a * t, b * b * b, t);
}

proof fn lemma_ceil_div_bound(num: int, den: int, t: int)
    requires
        0 <= num <= den * t,
        den > 0,
    ensures
        0 <= ceil_div(num, den) <= t,
{
    assert((num + den - 1) / den <= t) by (nonlinear_arith)
        requires
            num <= den * t,
            den > 0,
    ;
    assert((num + den - 1) / den >= 0) by (nonlinear_arith)
        requires
            num >= 0,
            den > 0,
    ;
}

impl Notification {
    pub closed spec fn spec_kind(&self) -> NotificationKind {
        self.kind
    }

    pub closed spec fn spec_title(&self) -> Seq<char> {
        self.title@
    }

    pub closed spec fn spec_message(&self) -> Seq<char> {
        self.message@
    }

    /// Nanoseconds since the notification appeared, capped at the lifetime.
    pub closed spec fn spec_elapsed(&self) -> nat {
        self.elapsed as nat
    }

    pub closed spec fn wf(&self) -> bool {
        self.elapsed <= TTL_NANOS
    }

    pub fn success(title: &str, message: &str) -> (r: Self)
        ensures
            r.spec_kind() == NotificationKind::Success,
            r.spec_title() == title@,
            r.spec_message() == message@,
            r.spec_elapsed() == 0,
            r.wf(),
    {
        Self::new(NotificationKind::Success, title, message)
    }

    pub fn error(title: &str, message: &str) -> (r: Self)
        ensures
            r.spec_kind() == NotificationKind::Error,
            r.spec_title() == title@,
            r.spec_message() == message@,
            r.spec_elapsed() == 0,
            r.wf(),
    {
        Self::new(NotificationKind::Error, title, message)
    }

    pub fn kind(&self) -> (r: NotificationKind)
        ensures
            r == self.spec_kind(),
    {
        self.kind
    }

    pub fn title(&self) -> (r: &str)
        ensures
            r@ == self.spec_title(),
    {
        self.title.as_str()
    }

    pub fn message(&self) -> (r: &str)
        ensures
            r@ == self.spec_message(),
    {
        self.message.as_str()
    }

    /// Advances the clock by `dt`, never past the lifetime.
    pub fn tick(&mut self, dt: std::time::Duration)
        requires
            old(self).wf(),
        ensures
            final(self).wf(),
            final(self).spec_kind() == old(self).spec_kind(),
            final(self).spec_title() == old(self).spec_title(),
            final(self).spec_message() == old(self).spec_message(),
            final(self).spec_elapsed() == if old(self).spec_elapsed() + duration_nanos(dt)
                < TTL_NANOS {
                old(self).spec_elapsed() + duration_nanos(dt)
            } else {
                TTL_NANOS as int
            },
    {
        let nanos = duration_as_nanos(dt);
        self.tick_nanos(nanos);
    }

    /// Advances the clock by `dt` nanoseconds, never past the lifetime.
    pub fn tick_nanos(&mut self, dt: u128)
        requires
            old(self).wf(),
            dt <= u128::MAX - TTL_NANOS,
        ensures
            final(self).wf(),
            final(self).spec_elapsed() == if old(self).spec_elapsed() + dt < TTL_NANOS {
                old(self).spec_elapsed() + dt
            } else {
                TTL_NANOS as int
            },
            final(self).spec_kind() == old(self).spec_kind(),
            final(self).spec_title() == old(self).spec_title(),
            final(self).spec_message() == old(self).spec_message(),
    {
        let next = self.elapsed + dt;
        self.elapsed = if next < TTL_NANOS { next } else { TTL_NANOS };
    }

    pub fn is_expired(&self) -> (r: bool)
        ensures
            r == (self.spec_elapsed() >= TTL_NANOS),
    {
        self.elapsed >= TTL_NANOS
    }

    /// Whether the notification is sliding in or out.
    pub fn is_animating(&self) -> (r: bool)
        ensures
            r == (self.spec_elapsed() < ENTER_NANOS || (if self.spec_elapsed() < TTL_NANOS {
                TTL_NANOS - self.spec_elapsed()
            } else {
                0
            }) <= EXIT_NANOS),
    {
        let remaining = if self.elapsed < TTL_NANOS { TTL_NANOS - self.elapsed } else { 0 };
        self.elapsed < ENTER_NANOS || remaining <= EXIT_NANOS
    }

    /// How far, in cells, the notification is shifted off its resting place.
    pub fn slide_offset(&self, width: u16) -> (r: u16)
        requires
            self.wf(),
        ensures
            r == slide_offset_spec(self.spec_elapsed() as int, width as int),
    {
        let travel: u16 = if width > u16::MAX - 2 { u16::MAX } else { width + 2 };
        let t = travel as u128;
        if self.elapsed < ENTER_NANOS {
            let rest = ENTER_NANOS - self.elapsed;
            proof {
                lemma_cube_scale(rest as int, ENTER_NANOS as int, t as int);
                assert(ENTER_NANOS * ENTER_NANOS * ENTER_NANOS * 65535 < u128::MAX);
                assert(ENTER_NANOS * ENTER_NANOS * ENTER_NANOS * t <= ENTER_NANOS * ENTER_NANOS
                    * ENTER_NANOS * 65535) by (nonlinear_arith)
                    requires
                        t <= 65535,
                ;
            }
            let num = rest * rest * rest * t;
            let den = ENTER_NANOS * ENTER_NANOS * ENTER_NANOS;
            let r = (num + den - 1) / den;
            r as u16
        } else if TTL_NANOS - self.elapsed <= EXIT_NANOS {
            let gone = EXIT_NANOS - (TTL_NANOS - self.elapsed);
            proof {
                lemma_cube_scale(gone as int, EXIT_NANOS as int, t as int);
                assert(EXIT_NANOS * EXIT_NANOS * EXIT_NANOS * 65535 < u128::MAX);
                assert(EXIT_NANOS * EXIT_NANOS * EXIT_NANOS * t <= EXIT_NANOS * EXIT_NANOS
                    * EXIT_NANOS * 65535) by (nonlinear_arith)
                    requires
                        t <= 65535,
                ;
            }
            let num = gone * gone * gone * t;
            let den = EXIT_NANOS * EXIT_NANOS * EXIT_NANOS;
            let r = (num + den - 1) / den;
            r as u16
        } else {
            0
        }
    }

    fn new(kind: NotificationKind, title: &str, message: &str) -> (r: Self)
        ensures
            r.kind == kind,
            r.title@ == title@,
            r.message@ == message@,
            r.elapsed == 0,
    {
        Notification {
            kind,
            title: title.to_owned(),
            message: message.to_owned(),
            elapsed: 0,
        }
    }
}

} // verus!
