//! Sidebar slide/fade animations: their running state and start times.
//! Progress curves come from the easing engine and are not modelled here.

use vstd::prelude::*;

verus! {

/// `std::time::Instant`, carried as an opaque value.
#[verifier::external_type_specification]
#[verifier::external_body]
pub struct ExInstant(std::time::Instant);

/// `Instant::now`: the current time. Nothing is known of the value.
#[verifier::external_body]
pub(crate) fn instant_now() -> std::time::Instant {
    std::time::Instant::now()
}

/// `Instant::elapsed`: time since `start`. Nothing is known of the value.
#[verifier::external_body]
pub(crate) fn instant_elapsed(start: &std::time::Instant) -> std::time::Duration {
    start.elapsed()
}

/// What `Duration::as_nanos` gives for `d`: its length in nanoseconds.
pub uninterp spec fn nanos_of(d: std::time::Duration) -> u128;

/// `Duration::as_nanos`: the length of `d` in nanoseconds, a function of `d`
/// alone.
#[verifier::external_body]
pub(crate) fn duration_nanos(d: &std::time::Duration) -> (n: u128)
    ensures
        n == nanos_of(*d),
{
    d.as_nanos()
}

/// What `Duration::as_millis` gives for `d`: its length in whole
/// milliseconds.
pub uninterp spec fn millis_of(d: std::time::Duration) -> u128;

/// `Duration::as_millis`: the length of `d` in whole milliseconds, a
/// function of `d` alone.
#[verifier::external_body]
pub(crate) fn duration_millis(d: &std::time::Duration) -> (n: u128)
    ensures
        n == millis_of(*d),
{
    d.as_millis()
}

/// What `<` gives on two instants: whether `a` is earlier than `b`.
pub uninterp spec fn instant_before(a: std::time::Instant, b: std::time::Instant) -> bool;

/// `Instant`'s `<`: whether `a` is earlier than `b`, a function of the two
/// alone.
#[verifier::external_body]
pub(crate) fn instant_lt(a: &std::time::Instant, b: &std::time::Instant) -> (r: bool)
    ensures
        r == instant_before(*a, *b),
{
    a < b
}

/// Easing curves that an animation can use.
#[derive(Debug, Clone, Copy, PartialEq, Eq, Structural)]
pub enum EasingFunction {
    Linear,
    Ease,
    EaseIn,
    EaseInOut,
    EaseOut,
    Constant,
}

/// Something that can be started and stopped and reports whether it runs.
pub trait Animate {
    /// Whether the animation is running.
    spec fn running(&self) -> bool;

    /// Starts the animation in the given direction.
    fn start(&mut self, forward: bool)
        ensures
            final(self).running(),
    ;

    /// Stops the animation.
    fn stop(&mut self)
        ensures
            !final(self).running(),
    ;

    /// Whether the animation is running.
    fn is_animating(&self) -> (b: bool)
        ensures
            b == self.running(),
    ;
}

/// Animation state for sidebars.
pub struct SidebarAnimation {
    in_duration_ms: u64,
    in_function: EasingFunction,
    out_duration_ms: u64,
    out_function: EasingFunction,
    /// Whether we're animating in (true) or out (false)
    animating_in: bool,
    /// The animation start time
    start_time: Option<std::time::Instant>,
}

impl SidebarAnimation {
    pub closed spec fn in_duration_spec(&self) -> u64 {
        self.in_duration_ms
    }

    pub closed spec fn out_duration_spec(&self) -> u64 {
        self.out_duration_ms
    }

    pub closed spec fn in_function_spec(&self) -> EasingFunction {
        self.in_function
    }

    pub closed spec fn out_function_spec(&self) -> EasingFunction {
        self.out_function
    }

    pub closed spec fn animating_in_spec(&self) -> bool {
        self.animating_in
    }

    pub closed spec fn started(&self) -> bool {
        self.start_time is Some
    }

    /// Durations and curves are as in `other`.
    pub open spec fn same_timing(&self, other: &Self) -> bool {
        &&& self.in_duration_spec() == other.in_duration_spec()
        &&& self.out_duration_spec() == other.out_duration_spec()
        &&& self.in_function_spec() == other.in_function_spec()
        &&& self.out_function_spec() == other.out_function_spec()
    }

    /// Eases out over `duration_ms` when showing and in over the same time
    /// when hiding; not running yet.
    pub fn new(duration_ms: u64) -> (a: Self)
        ensures
            a.in_duration_spec() == duration_ms,
            a.out_duration_spec() == duration_ms,
            a.in_function_spec() == EasingFunction::EaseOut,
            a.out_function_spec() == EasingFunction::EaseIn,
            a.animating_in_spec(),
            !a.started(),
    {
        SidebarAnimation {
            in_duration_ms: duration_ms,
            in_function: EasingFunction::EaseOut,
            out_duration_ms: duration_ms,
            out_function: EasingFunction::EaseIn,
            animating_in: true,
            start_time: None,
        }
    }

    /// An animation with its own durations and curves; not running yet.
    pub fn with_easing(
        in_duration_ms: u64,
        in_function: EasingFunction,
        out_duration_ms: u64,
        out_function: EasingFunction,
    ) -> (a: Self)
        ensures
            a.in_duration_spec() == in_duration_ms,
            a.out_duration_spec() == out_duration_ms,
            a.in_function_spec() == in_function,
            a.out_function_spec() == out_function,
            a.animating_in_spec(),
            !a.started(),
    {
        SidebarAnimation {
            in_duration_ms,
            in_function,
            out_duration_ms,
            out_function,
            animating_in: true,
            start_time: None,
        }
    }

    /// Starts (or restarts) the animation in the given direction, now.
    pub fn start(&mut self, animating_in: bool)
        ensures
            final(self).started(),
            final(self).animating_in_spec() == animating_in,
            final(self).same_timing(old(self)),
    {
        self.animating_in = animating_in;
        self.start_time = Some(instant_now());
    }

    /// Whether the animation is running.
    pub fn is_animating(&self) -> (b: bool)
        ensures
            b == self.started(),
    {
        self.start_time.is_some()
    }

    /// When the next frame is due: never while the animation is not
    /// running; while it runs, `eased_next_frame`, the frame time that the
    /// easing engine reports for its curve (none once the curve is done).
    pub fn get_next_frame_time(&self, eased_next_frame: Option<std::time::Instant>) -> (t: Option<
        std::time::Instant,
    >)
        ensures
            !self.started() ==> t is None,
            self.started() ==> t == eased_next_frame,
    {
        if self.start_time.is_none() {
            return None;
        }
        eased_next_frame
    }

    /// Reading the progress, as far as it does not rest on the easing
    /// curve's value: a running animation whose curve is done (the easing
    /// engine reports no more intensity) stops. Returns whether there is a
    /// progress to read, which is so while the animation runs and its curve
    /// is not done.
    pub fn track_progress(&mut self, curve_done: bool) -> (has_progress: bool)
        ensures
            has_progress == (old(self).started() && !curve_done),
            old(self).started() && curve_done ==> !final(self).started()
                && final(self).animating_in_spec() == old(self).animating_in_spec()
                && final(self).same_timing(old(self)),
            !(old(self).started() && curve_done) ==> *final(self) == *old(self),
    {
        if self.start_time.is_none() {
            return false;
        }
        if curve_done {
            self.start_time = None;
            return false;
        }
        true
    }

    /// Forces the animation to stop.
    pub fn stop(&mut self)
        ensures
            !final(self).started(),
            final(self).animating_in_spec() == old(self).animating_in_spec(),
            final(self).same_timing(old(self)),
    {
        self.start_time = None;
    }
}

impl Animate for SidebarAnimation {
    open spec fn running(&self) -> bool {
        self.started()
    }

    fn start(&mut self, forward: bool) {
        SidebarAnimation::start(self, forward);
    }

    fn stop(&mut self) {
        SidebarAnimation::stop(self);
    }

    fn is_animating(&self) -> (b: bool) {
        SidebarAnimation::is_animating(self)
    }
}

/// Opacity animation for fade effects.
pub struct SidebarOpacityAnimation {
    pub animation: SidebarAnimation,
}

impl SidebarOpacityAnimation {
    pub fn new(fade_duration_ms: u64) -> (a: Self)
        ensures
            a.animation.in_duration_spec() == fade_duration_ms,
            a.animation.out_duration_spec() == fade_duration_ms,
            a.animation.in_function_spec() == EasingFunction::EaseOut,
            a.animation.out_function_spec() == EasingFunction::EaseIn,
            !a.animation.started(),
    {
        SidebarOpacityAnimation { animation: SidebarAnimation::new(fade_duration_ms) }
    }

    /// Starts fading in or out.
    pub fn start_fade(&mut self, fade_in: bool)
        ensures
            final(self).animation.started(),
            final(self).animation.animating_in_spec() == fade_in,
            final(self).animation.same_timing(&old(self).animation),
    {
        self.animation.start(fade_in);
    }

    /// Whether a fade is in progress.
    pub fn is_fading(&self) -> (b: bool)
        ensures
            b == self.animation.started(),
    {
        self.animation.is_animating()
    }
}

impl Animate for SidebarOpacityAnimation {
    open spec fn running(&self) -> bool {
        self.animation.started()
    }

    fn start(&mut self, forward: bool) {
        self.start_fade(forward);
    }

    fn stop(&mut self) {
        self.animation.stop();
    }

    fn is_animating(&self) -> (b: bool) {
        self.is_fading()
    }
}

/// The kinds of animation the scheduler runs.
pub enum AnimationType {
    Opacity(SidebarOpacityAnimation),
    Generic(SidebarAnimation),
}

impl AnimationType {
    /// Whether the animation is running.
    pub fn is_animating(&self) -> (b: bool)
        ensures
            b == self.running(),
    {
        match self {
            AnimationType::Opacity(a) => a.is_fading(),
            AnimationType::Generic(a) => a.is_animating(),
        }
    }
}

impl Animate for AnimationType {
    open spec fn running(&self) -> bool {
        match self {
            AnimationType::Opacity(a) => a.running(),
            AnimationType::Generic(a) => a.running(),
        }
    }

    fn start(&mut self, forward: bool) {
        match self {
            AnimationType::Opacity(a) => a.start_fade(forward),
            AnimationType::Generic(a) => SidebarAnimation::start(a, forward),
        }
    }

    fn stop(&mut self) {
        match self {
            AnimationType::Opacity(a) => a.animation.stop(),
            AnimationType::Generic(a) => SidebarAnimation::stop(a),
        }
    }

    fn is_animating(&self) -> (b: bool) {
        AnimationType::is_animating(self)
    }
}

/// Direction of a scrollbar fade.
#[derive(Debug, Clone, Copy, PartialEq, Eq, Structural)]
pub enum FadeDirection {
    In,
    Out,
}

/// A timed fade of the scrollbar.
pub struct FadeAnimation {
    start_time: std::time::Instant,
    duration: std::time::Duration,
    /// The duration's length in nanoseconds.
    duration_ns: u128,
    direction: FadeDirection,
}

impl FadeAnimation {
    pub closed spec fn direction_spec(&self) -> FadeDirection {
        self.direction
    }

    pub closed spec fn duration_spec(&self) -> std::time::Duration {
        self.duration
    }

    pub closed spec fn start_spec(&self) -> std::time::Instant {
        self.start_time
    }

    /// The fade's length in nanoseconds.
    pub closed spec fn duration_nanos_spec(&self) -> u128 {
        self.duration_ns
    }

    /// A fade in `direction` lasting `duration`, starting now.
    pub fn new(direction: FadeDirection, duration: std::time::Duration) -> (f: Self)
        ensures
            f.direction_spec() == direction,
            f.duration_spec() == duration,
            f.duration_nanos_spec() == nanos_of(duration),
    {
        let duration_ns = duration_nanos(&duration);
        FadeAnimation { start_time: instant_now(), duration, duration_ns, direction }
    }

    /// The direction of the fade.
    pub fn direction(&self) -> (d: FadeDirection)
        ensures
            d == self.direction_spec(),
    {
        self.direction
    }

    /// When the fade started.
    pub fn start_time(&self) -> (t: &std::time::Instant)
        ensures
            *t == self.start_spec(),
    {
        &self.start_time
    }

    /// How long the fade lasts.
    pub fn duration(&self) -> (d: &std::time::Duration)
        ensures
            *d == self.duration_spec(),
    {
        &self.duration
    }

    /// Whether the time since the start has reached the fade's length. The
    /// time since the start is read from the clock: whatever it is, the
    /// answer compares it with the length, so a fade of no length is always
    /// complete.
    pub fn is_complete(&self) -> (r: bool)
        ensures
            self.duration_nanos_spec() == 0 ==> r,
            exists|e: u128| r == #[trigger] reached(e, self.duration_nanos_spec()),
    {
        let elapsed = instant_elapsed(&self.start_time);
        let e = duration_nanos(&elapsed);
        let r = fade_completed(e, self.duration_ns);
        assert(r == reached(e, self.duration_nanos_spec()));
        r
    }
}

/// Whether `elapsed_nanos` has reached a length of `duration_nanos`.
pub open spec fn reached(elapsed_nanos: u128, duration_nanos: u128) -> bool {
    elapsed_nanos >= duration_nanos
}

/// Whether a fade lasting `duration_nanos` is complete `elapsed_nanos` after
/// its start.
pub fn fade_completed(elapsed_nanos: u128, duration_nanos: u128) -> (b: bool)
    ensures
        b == reached(elapsed_nanos, duration_nanos),
{
    elapsed_nanos >= duration_nanos
}

} // verus!
