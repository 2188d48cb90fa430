//! Intrusive high resolution timers.
//!
//! # Vocabulary
//!
//! States:
//!
//! * Stopped
//! * Running
//!
//! Operations:
//!
//! * Start
//! * Cancel
//! * Stop
//! * Restart
//!
//! Events:
//!
//! * Expire
//!
//! ## State Diagram
//!
//! ```text
//!                  <-- Stop ----
//!                  <-- Cancel --
//!                  --- Start -->
//!        +---------+        +---------+
//!   O--->| Stopped |        | Running |---o
//!        +---------+        +---------+   |
//!                                  ^      |
//!                  <- Expire --    |      |
//!                                  o------o
//!                                   Restart
//! ```
//!
//! A timer is initialized in the **stopped** state. A stopped timer can be **started** with an
//! **expiry** time. After the timer is started, it is **running**. When the timer **expires**, the
//! timer handler is executed. After the handler has executed, the timer may be **restarted** or
//! **stopped**. A running timer can be **canceled** before its handler is executed. A timer that is
//! cancelled enters the **stopped** state.

use super::Ktime;
use core::marker::PhantomData;
use vstd::prelude::*;
use vstd::std_specs::convert::FromSpecImpl;

pub mod laws;
pub mod pin;

verus! {

/// The timer is not to be restarted.
pub const HRTIMER_NORESTART: u32 = 0;

/// The timer is to be restarted.
pub const HRTIMER_RESTART: u32 = 1;

/// Restart policy for timers.
#[derive(Clone, Copy, Debug, PartialEq, Eq, Structural)]
pub enum HrTimerRestart {
    /// Timer should not be restarted.
    NoRestart,
    /// Timer should be restarted.
    Restart,
}

impl HrTimerRestart {
    /// The policy as a word.
    pub open spec fn word(self) -> u32 {
        match self {
            HrTimerRestart::NoRestart => HRTIMER_NORESTART,
            HrTimerRestart::Restart => HRTIMER_RESTART,
        }
    }
}

impl From<u32> for HrTimerRestart {
    fn from(value: u32) -> (r: HrTimerRestart) {
        match value {
            HRTIMER_NORESTART => HrTimerRestart::NoRestart,
            _ => HrTimerRestart::Restart,
        }
    }
}

impl FromSpecImpl<u32> for HrTimerRestart {
    open spec fn obeys_from_spec() -> bool {
        true
    }

    open spec fn from_spec(value: u32) -> HrTimerRestart {
        if value == HRTIMER_NORESTART {
            HrTimerRestart::NoRestart
        } else {
            HrTimerRestart::Restart
        }
    }
}

impl From<HrTimerRestart> for u32 {
    fn from(value: HrTimerRestart) -> (r: u32) {
        match value {
            HrTimerRestart::NoRestart => HRTIMER_NORESTART,
            HrTimerRestart::Restart => HRTIMER_RESTART,
        }
    }
}

impl FromSpecImpl<HrTimerRestart> for u32 {
    open spec fn obeys_from_spec() -> bool {
        true
    }

    open spec fn from_spec(value: HrTimerRestart) -> u32 {
        value.word()
    }
}

/// Operational mode of [`HrTimer`].
#[derive(Clone, Copy, Debug, PartialEq, Eq, Structural)]
pub enum HrTimerMode {
    /// Timer expires at the given expiration time.
    Absolute,
    /// Timer expires after the given expiration time interpreted as a duration from now.
    Relative,
    /// Timer does not move between CPU cores.
    Pinned,
    /// Timer handler is executed in soft irq context.
    Soft,
    /// Timer handler is executed in hard irq context.
    Hard,
    /// Timer expires at the given expiration time.
    /// Timer does not move between CPU cores.
    AbsolutePinned,
    /// Timer expires after the given expiration time interpreted as a duration from now.
    /// Timer does not move between CPU cores.
    RelativePinned,
    /// Timer expires at the given expiration time.
    /// Timer handler is executed in soft irq context.
    AbsoluteSoft,
    /// Timer expires after the given expiration time interpreted as a duration from now.
    /// Timer handler is executed in soft irq context.
    RelativeSoft,
    /// Timer expires at the given expiration time.
    /// Timer does not move between CPU cores.
    /// Timer handler is executed in soft irq context.
    AbsolutePinnedSoft,
    /// Timer expires after the given expiration time interpreted as a duration from now.
    /// Timer does not move between CPU cores.
    /// Timer handler is executed in soft irq context.
    RelativePinnedSoft,
    /// Timer expires at the given expiration time.
    /// Timer handler is executed in hard irq context.
    AbsoluteHard,
    /// Timer expires after the given expiration time interpreted as a duration from now.
    /// Timer handler is executed in hard irq context.
    RelativeHard,
    /// Timer expires at the given expiration time.
    /// Timer does not move between CPU cores.
    /// Timer handler is executed in hard irq context.
    AbsolutePinnedHard,
    /// Timer expires after the given expiration time interpreted as a duration from now.
    /// Timer does not move between CPU cores.
    /// Timer handler is executed in hard irq context.
    RelativePinnedHard,
}

/// The expiry time is a duration from now; without this bit it is a point in time.
pub const HRTIMER_MODE_REL: u32 = 1;

/// The timer does not move between CPU cores.
pub const HRTIMER_MODE_PINNED: u32 = 2;

/// The handler is executed in soft irq context.
pub const HRTIMER_MODE_SOFT: u32 = 4;

/// The handler is executed in hard irq context.
pub const HRTIMER_MODE_HARD: u32 = 8;

impl HrTimerMode {
    /// The expiry time is a duration from now.
    pub open spec fn is_relative(self) -> bool {
        self is Relative || self is RelativePinned || self is RelativeSoft
            || self is RelativePinnedSoft || self is RelativeHard || self is RelativePinnedHard
    }

    /// The timer does not move between CPU cores.
    pub open spec fn is_pinned(self) -> bool {
        self is Pinned || self is AbsolutePinned || self is RelativePinned
            || self is AbsolutePinnedSoft || self is RelativePinnedSoft
            || self is AbsolutePinnedHard || self is RelativePinnedHard
    }

    /// The handler is executed in soft irq context.
    pub open spec fn is_soft(self) -> bool {
        self is Soft || self is AbsoluteSoft || self is RelativeSoft || self is AbsolutePinnedSoft
            || self is RelativePinnedSoft
    }

    /// The handler is executed in hard irq context.
    pub open spec fn is_hard(self) -> bool {
        self is Hard || self is AbsoluteHard || self is RelativeHard || self is AbsolutePinnedHard
            || self is RelativePinnedHard
    }

    /// The mode as a word: one bit for each of its properties.
    pub open spec fn word(self) -> u32 {
        (if self.is_relative() {
            HRTIMER_MODE_REL as int
        } else {
            0
        } + if self.is_pinned() {
            HRTIMER_MODE_PINNED as int
        } else {
            0
        } + if self.is_soft() {
            HRTIMER_MODE_SOFT as int
        } else {
            0
        } + if self.is_hard() {
            HRTIMER_MODE_HARD as int
        } else {
            0
        }) as u32
    }
}

impl HrTimerMode {
    /// The mode as a word.
    pub fn to_word(self) -> (r: u32)
        ensures
            r == self.word(),
    {
        match self {
            HrTimerMode::Absolute => 0,
            HrTimerMode::Relative => HRTIMER_MODE_REL,
            HrTimerMode::Pinned => HRTIMER_MODE_PINNED,
            HrTimerMode::Soft => HRTIMER_MODE_SOFT,
            HrTimerMode::Hard => HRTIMER_MODE_HARD,
            HrTimerMode::AbsolutePinned => HRTIMER_MODE_PINNED,
            HrTimerMode::RelativePinned => HRTIMER_MODE_REL + HRTIMER_MODE_PINNED,
            HrTimerMode::AbsoluteSoft => HRTIMER_MODE_SOFT,
            HrTimerMode::RelativeSoft => HRTIMER_MODE_REL + HRTIMER_MODE_SOFT,
            HrTimerMode::AbsolutePinnedSoft => HRTIMER_MODE_PINNED + HRTIMER_MODE_SOFT,
            HrTimerMode::RelativePinnedSoft => HRTIMER_MODE_REL + HRTIMER_MODE_PINNED
                + HRTIMER_MODE_SOFT,
            HrTimerMode::AbsoluteHard => HRTIMER_MODE_HARD,
            HrTimerMode::RelativeHard => HRTIMER_MODE_REL + HRTIMER_MODE_HARD,
            HrTimerMode::AbsolutePinnedHard => HRTIMER_MODE_PINNED + HRTIMER_MODE_HARD,
            HrTimerMode::RelativePinnedHard => HRTIMER_MODE_REL + HRTIMER_MODE_PINNED
                + HRTIMER_MODE_HARD,
        }
    }
}

impl From<HrTimerMode> for u32 {
    fn from(value: HrTimerMode) -> (r: u32) {
        value.to_word()
    }
}

impl FromSpecImpl<HrTimerMode> for u32 {
    open spec fn obeys_from_spec() -> bool {
        true
    }

    open spec fn from_spec(value: HrTimerMode) -> u32 {
        value.word()
    }
}

impl From<HrTimerMode> for u64 {
    fn from(value: HrTimerMode) -> (r: u64) {
        let word: u32 = value.into();
        word as u64
    }
}

impl FromSpecImpl<HrTimerMode> for u64 {
    open spec fn obeys_from_spec() -> bool {
        true
    }

    open spec fn from_spec(value: HrTimerMode) -> u64 {
        value.word() as u64
    }
}

/// The clock source to use for a [`HrTimer`].
#[derive(Clone, Copy, Debug, PartialEq, Eq, Structural)]
pub enum ClockSource {
    /// A settable system-wide clock that measures real (i.e., wall-clock) time.
    RealTime,
    /// A nonsettable system-wide clock that represents monotonic time since some unspecified point
    /// in the past. It does not count time that the system is suspended.
    Monotonic,
    /// A clock that is identical to the monotonic one, except that it also includes any time that
    /// the system is suspended.
    BootTime,
    /// A nonsettable system-wide clock derived from wall-clock time but counting leap seconds.
    TAI,
}

pub const CLOCK_REALTIME: i32 = 0;

pub const CLOCK_MONOTONIC: i32 = 1;

pub const CLOCK_BOOTTIME: i32 = 7;

pub const CLOCK_TAI: i32 = 11;

impl From<ClockSource> for i32 {
    fn from(value: ClockSource) -> (r: i32) {
        match value {
            ClockSource::RealTime => CLOCK_REALTIME,
            ClockSource::Monotonic => CLOCK_MONOTONIC,
            ClockSource::BootTime => CLOCK_BOOTTIME,
            ClockSource::TAI => CLOCK_TAI,
        }
    }
}

impl FromSpecImpl<ClockSource> for i32 {
    open spec fn obeys_from_spec() -> bool {
        true
    }

    open spec fn from_spec(value: ClockSource) -> i32 {
        match value {
            ClockSource::RealTime => CLOCK_REALTIME,
            ClockSource::Monotonic => CLOCK_MONOTONIC,
            ClockSource::BootTime => CLOCK_BOOTTIME,
            ClockSource::TAI => CLOCK_TAI,
        }
    }
}

/// What a timer is started with.
#[derive(Clone, Copy, Debug, PartialEq, Eq, Structural)]
pub struct Expiry {
    /// The expiry time in nanoseconds.
    pub tim: i64,
    /// How much later the timer may expire, in nanoseconds.
    pub delta_ns: u64,
    /// The mode.
    pub mode: u32,
}

/// The timer as the timer subsystem keeps it.
#[derive(Clone, Copy, Debug, PartialEq, Eq, Structural)]
pub struct RawTimer {
    pub clock: i32,
    pub mode: u32,
    /// What the timer was started with, while it is running; `None` while it is stopped.
    pub expiry: Option<Expiry>,
}

/// A timer.
pub struct HrTimer<T> {
    pub timer: RawTimer,
    pub mode: HrTimerMode,
    pub _t: PhantomData<T>,
}

impl<T> HrTimer<T> {
    pub open spec fn is_running(self) -> bool {
        self.timer.expiry is Some
    }

    /// This timer, running since it was started with `expires`.
    pub open spec fn started(self, expires: Ktime) -> HrTimer<T> {
        HrTimer {
            timer: RawTimer {
                expiry: Some(Expiry { tim: expires.ns, delta_ns: 0, mode: self.mode.word() }),
                ..self.timer
            },
            ..self
        }
    }

    /// This timer, stopped.
    pub open spec fn stopped(self) -> HrTimer<T> {
        HrTimer { timer: RawTimer { expiry: None, ..self.timer }, ..self }
    }

    /// This timer after its handler has executed: it is restarted, with the `expiry` that it had,
    /// where the handler asks for that. A timer that the handler has started stays as it is.
    pub open spec fn resumed(self, restart: HrTimerRestart, expiry: Option<Expiry>) -> HrTimer<T> {
        if restart is Restart && !self.is_running() {
            HrTimer { timer: RawTimer { expiry, ..self.timer }, ..self }
        } else {
            self
        }
    }

    /// A new timer. It is stopped. When it expires, its [`handler`](HrTimer::handler) is called.
    pub fn new(mode: HrTimerMode, clock: ClockSource) -> (r: HrTimer<T>) where T: HrTimerMarker
        ensures
            r.timer.clock == <i32 as vstd::std_specs::convert::FromSpec<ClockSource>>::from_spec(
                clock,
            ),
            r.timer.mode == mode.word(),
            r.mode == mode,
            !r.is_running(),
    {
        HrTimer {
            timer: RawTimer { clock: clock.into(), mode: mode.to_word(), expiry: None },
            mode,
            _t: PhantomData,
        }
    }

    /// The address of the timer that the timer subsystem keeps, within the timer at address `ptr`. It
    /// comes first.
    pub fn raw_get(ptr: usize) -> (r: usize)
        ensures
            r == ptr,
    {
        ptr
    }

    /// The handler of the timer: what is called with the address of the timer when it expires. It is
    /// the [`RawHrTimerCallback::run`] of the callback target of the struct that embeds the timer.
    pub fn handler(
        ptr: usize,
        layout: <Handler<T> as RawHrTimerCallback>::Layout,
        target: &mut <Handler<T> as RawHrTimerCallback>::Target,
    ) -> (r: u32) where T: HrTimerMarker
        requires
            <Handler<T> as RawHrTimerCallback>::callable(ptr, layout, *old(target)),
        ensures
            <Handler<T> as RawHrTimerCallback>::called(*old(target), *final(target), r),
    {
        <Handler<T> as RawHrTimerCallback>::run(ptr, layout, target)
    }

    /// The timer expires: it stops, and its handler is to be executed.
    ///
    /// Returns what the timer was started with.
    pub fn expire(&mut self) -> (r: Option<Expiry>)
        ensures
            r == old(self).timer.expiry,
            *final(self) == old(self).stopped(),
    {
        let expiry = self.timer.expiry;
        self.timer.expiry = None;
        expiry
    }

    /// The handler has executed, after the timer expired with `expiry`: the timer is restarted if the
    /// handler asks for that.
    pub fn resume(&mut self, restart: HrTimerRestart, expiry: Option<Expiry>)
        ensures
            *final(self) == old(self).resumed(restart, expiry),
    {
        match restart {
            HrTimerRestart::NoRestart => {},
            HrTimerRestart::Restart => {
                if self.timer.expiry.is_none() {
                    self.timer.expiry = expiry;
                }
            },
        }
    }

    /// Cancel an initialized and potentially running timer.
    ///
    /// Returns whether the timer was running. A timer that can be cancelled here is not in the midst
    /// of its handler, so there is none to wait for.
    pub fn raw_cancel(&mut self) -> (r: bool)
        ensures
            r == old(self).is_running(),
            *final(self) == old(self).stopped(),
    {
        let active = self.timer.expiry.is_some();
        self.timer.expiry = None;
        active
    }
}

/// A handle representing a potentially running timer.
///
/// More than one handle representing the same timer might exist. The timer is embedded in a target,
/// which is handed over with each call.
pub trait HrTimerHandle: Sized {
    /// What embeds the timer.
    type Target;

    /// This handle is one for the timer in `target`.
    spec fn is_for(self, target: Self::Target) -> bool;

    /// The timer in `target` is running.
    spec fn is_running(target: Self::Target) -> bool;

    /// `target` with its timer cancelled.
    spec fn cancelled(target: Self::Target) -> Self::Target;

    /// `target` with its timer cancelled, and without what this handle held of it.
    spec fn released(self, target: Self::Target) -> Self::Target;

    /// Cancel the timer, if it is running.
    ///
    /// Returns whether it was running.
    fn cancel(&mut self, target: &mut Self::Target) -> (r: bool)
        requires
            old(self).is_for(*old(target)),
        ensures
            r == Self::is_running(*old(target)),
            *final(target) == Self::cancelled(*old(target)),
            !Self::is_running(*final(target)),
            *final(self) == *old(self),
            final(self).is_for(*final(target)),
    ;

    /// Drop the handle. If the timer is running it is cancelled.
    fn release(self, target: &mut Self::Target)
        requires
            self.is_for(*old(target)),
        ensures
            *final(target) == self.released(*old(target)),
            !Self::is_running(*final(target)),
    ;
}

/// Implemented by pointer types that point to structs that embed a [`HrTimer`].
///
/// Starting a timer returns a [`HrTimerHandle`] that can be used to manipulate the timer. Note that
/// it is OK to call the start function repeatedly, and that more than one [`HrTimerHandle`]
/// associated with a [`HrTimerPointer`] may exist. A timer can be manipulated through any of the
/// handles, and a handle may represent a cancelled timer.
pub trait HrTimerPointer: Sized {
    /// A handle representing a started or restarted timer.
    type TimerHandle: HrTimerHandle;

    /// This pointer is one to `target`.
    spec fn points_to(self, target: <Self::TimerHandle as HrTimerHandle>::Target) -> bool;

    /// `target` after its timer was started with `expires`.
    spec fn started(
        target: <Self::TimerHandle as HrTimerHandle>::Target,
        expires: Ktime,
    ) -> <Self::TimerHandle as HrTimerHandle>::Target;

    /// Start the timer with expiry after `expires` time units. If the timer was already running, it
    /// is restarted with the new expiry time.
    fn start(
        self,
        target: &mut <Self::TimerHandle as HrTimerHandle>::Target,
        expires: Ktime,
    ) -> (r: Self::TimerHandle)
        requires
            self.points_to(*old(target)),
        ensures
            r.is_for(*final(target)),
            *final(target) == Self::started(*old(target), expires),
            Self::TimerHandle::is_running(*final(target)),
    ;
}

/// Version of [`HrTimerPointer`] for situations where the [`HrTimerHandle`] returned by `start` must
/// not be leaked. This is the case for stack allocated timers.
///
/// Instances of types implementing [`UnsafeHrTimerPointer`] outlive any associated handles.
pub trait UnsafeHrTimerPointer: Sized {
    /// A handle representing a running timer.
    type TimerHandle: HrTimerHandle;

    /// This pointer is one to `target`.
    spec fn points_to(self, target: <Self::TimerHandle as HrTimerHandle>::Target) -> bool;

    /// The handle that starting the timer through this pointer gives.
    spec fn handle(self) -> Self::TimerHandle;

    /// `target` after its timer was started with `expires`.
    spec fn started(
        target: <Self::TimerHandle as HrTimerHandle>::Target,
        expires: Ktime,
    ) -> <Self::TimerHandle as HrTimerHandle>::Target;

    /// Start the timer after `expires` time units. If the timer was already running, it is restarted
    /// at the new expiry time.
    fn start(
        self,
        target: &mut <Self::TimerHandle as HrTimerHandle>::Target,
        expires: Ktime,
    ) -> (r: Self::TimerHandle)
        requires
            self.points_to(*old(target)),
        ensures
            r == self.handle(),
            r.is_for(*final(target)),
            *final(target) == Self::started(*old(target), expires),
            Self::TimerHandle::is_running(*final(target)),
    ;
}

/// A trait for stack allocated timers.
///
/// `start_scoped` does not return until the timer is dead.
pub trait ScopedHrTimerPointer: UnsafeHrTimerPointer {
    /// Start the timer to run after `expires` time units and immediately after call `f`, with the
    /// target whose timer runs. When `f` returns, the timer is cancelled.
    fn start_scoped<U, F: FnOnce(&<Self::TimerHandle as HrTimerHandle>::Target) -> U>(
        self,
        target: &mut <Self::TimerHandle as HrTimerHandle>::Target,
        expires: Ktime,
        f: F,
    ) -> (r: U)
        requires
            self.points_to(*old(target)),
            call_requires(f, (&Self::started(*old(target), expires),)),
        ensures
            call_ensures(f, (&Self::started(*old(target), expires),), r),
            *final(target) == self.handle().released(Self::started(*old(target), expires)),
            !Self::TimerHandle::is_running(*final(target)),
    ;
}

impl<T: UnsafeHrTimerPointer> ScopedHrTimerPointer for T {
    fn start_scoped<U, F: FnOnce(&<Self::TimerHandle as HrTimerHandle>::Target) -> U>(
        self,
        target: &mut <Self::TimerHandle as HrTimerHandle>::Target,
        expires: Ktime,
        f: F,
    ) -> (r: U) {
        let handle = UnsafeHrTimerPointer::start(self, target, expires);
        let t = f(&*target);
        handle.release(target);
        t
    }
}

/// Implemented by [`HrTimerPointer`] implementers to give the timer subsystem a function to call.
pub trait RawHrTimerCallback: Sized {
    /// What the pointer points to.
    type Target;

    /// How the timer is placed in memory, relative to the target.
    type Layout;

    /// `ptr` is the address of the timer in `target`, which is ready for its callback.
    spec fn callable(ptr: usize, layout: Self::Layout, target: Self::Target) -> bool;

    /// What the callback does to the target, and the restart code that it returns.
    spec fn called(before: Self::Target, after: Self::Target, code: u32) -> bool;

    /// Callback to be called when the timer fires. `ptr` is the address of the timer that was
    /// started. The timer expires, its handler is executed, and the timer is restarted if the handler
    /// asks for that.
    fn run(ptr: usize, layout: Self::Layout, target: &mut Self::Target) -> (r: u32)
        requires
            Self::callable(ptr, layout, *old(target)),
        ensures
            Self::called(*old(target), *final(target), r),
    ;
}

/// Implemented by structs that can be the target of a timer callback.
pub trait HrTimerCallback: Sized {
    /// The type whose [`RawHrTimerCallback::run`] is invoked when the timer expires.
    type CallbackTarget: RawHrTimerCallback;

    /// What is passed to the callback: a pointer to what embeds the timer.
    type CallbackTargetParameter;

    /// What embeds the timer.
    type Target;

    /// The callback may be called.
    spec fn callable(this: Self::CallbackTargetParameter, target: Self::Target) -> bool;

    /// What the callback does to the target, and what it returns.
    spec fn called(before: Self::Target, after: Self::Target, r: HrTimerRestart) -> bool;

    /// Called by the timer logic when the timer fires.
    fn run(this: Self::CallbackTargetParameter, target: &mut Self::Target) -> (r: HrTimerRestart)
        requires
            Self::callable(this, *old(target)),
        ensures
            Self::called(*old(target), *final(target), r),
    ;
}

/// Implemented by types that stand for a struct in the type of the timer that the struct embeds, where
/// the struct itself cannot stand.
pub trait HrTimerMarker: Sized {
    /// The struct that embeds the timer. It is the target of the timer's callback.
    type Struct: HasHrTimer<Self> + HrTimerCallback;
}

/// The type whose [`RawHrTimerCallback::run`] is the handler of a timer.
pub type Handler<T> = <<T as HrTimerMarker>::Struct as HrTimerCallback>::CallbackTarget;

/// Implemented by structs that contain timer nodes.
pub trait HasHrTimer<T>: Sized {
    /// Offset of the [`HrTimer`] field within `Self`, in bytes.
    spec fn timer_offset() -> int;

    /// The timer within `Self`.
    spec fn timer(self) -> HrTimer<T>;

    /// `Self` with another timer.
    spec fn with_timer(self, timer: HrTimer<T>) -> Self;

    /// The timer is found where it was put.
    proof fn lemma_with_timer(self, timer: HrTimer<T>)
        ensures
            self.with_timer(timer).timer() == timer,
    ;

    /// Offset of the [`HrTimer`] field within `Self`, in bytes.
    fn offset() -> (r: usize)
        ensures
            r == Self::timer_offset(),
    ;

    /// The timer within `Self`, to be changed.
    fn timer_mut(&mut self) -> (r: &mut HrTimer<T>)
        ensures
            *r == old(self).timer(),
            *final(self) == old(self).with_timer(*final(r)),
    ;

    /// Return the address of the [`HrTimer`] within the `Self` at address `ptr`.
    fn raw_get_timer(ptr: usize) -> (r: usize)
        requires
            ptr + Self::timer_offset() <= usize::MAX,
        ensures
            r == ptr + Self::timer_offset(),
    {
        ptr + Self::offset()
    }

    /// Return the address of the struct that is embedding the [`HrTimer`] at address `ptr`.
    fn timer_container_of(ptr: usize) -> (r: usize)
        requires
            Self::timer_offset() <= ptr,
        ensures
            r == ptr - Self::timer_offset(),
    {
        ptr - Self::offset()
    }

    /// Get the address of the timer that the timer subsystem keeps, within the `Self` at address
    /// `self_ptr`.
    fn c_timer_ptr(self_ptr: usize) -> (r: usize)
        requires
            self_ptr + Self::timer_offset() <= usize::MAX,
        ensures
            r == self_ptr + Self::timer_offset(),
    {
        let timer_ptr = Self::raw_get_timer(self_ptr);
        HrTimer::<T>::raw_get(timer_ptr)
    }

    /// Start the timer contained in `self`. If it is already running it is removed and inserted.
    fn start(&mut self, expires: Ktime)
        ensures
            *final(self) == old(self).with_timer(old(self).timer().started(expires)),
            final(self).timer() == old(self).timer().started(expires),
            final(self).timer().timer.expiry == Some(
                Expiry { tim: expires.ns, delta_ns: 0, mode: old(self).timer().mode.word() },
            ),
    {
        proof {
            self.lemma_with_timer(self.timer().started(expires));
        }
        let timer = self.timer_mut();
        let mode = timer.mode.to_word();
        timer.timer.expiry = Some(Expiry { tim: expires.to_ns(), delta_ns: 0, mode });
    }
}

/// A new timer is stopped, starting it makes it run, and cancelling it stops it, whether or not it
/// was running. Starting it again replaces what it was started with.
pub proof fn law_timer_states<T>(timer: HrTimer<T>, first: Ktime, second: Ktime)
    ensures
        timer.started(first).is_running(),
        !timer.stopped().is_running(),
        timer.started(first).started(second) == timer.started(second),
        timer.started(first).stopped() == timer.stopped(),
        timer.stopped().started(second) == timer.started(second),
{
}

/// A timer that expires is stopped, and stays stopped unless its handler starts it or asks for a
/// restart. A restart makes it run with the expiry that it had. There is nothing left to cancel after
/// an expiry without a restart.
pub proof fn law_timer_expiry<T>(timer: HrTimer<T>)
    ensures
        !timer.stopped().is_running(),
        timer.stopped().resumed(HrTimerRestart::NoRestart, timer.timer.expiry) == timer.stopped(),
        timer.stopped().resumed(HrTimerRestart::Restart, timer.timer.expiry) == timer,
        forall|started: Ktime, restart: HrTimerRestart| #[trigger]
            timer.stopped().started(started).resumed(restart, timer.timer.expiry)
                == timer.started(started),
{
}

/// The word for a mode has exactly the bits for the properties of the mode.
pub proof fn law_mode_word(mode: HrTimerMode)
    ensures
        mode.word() & HRTIMER_MODE_REL == if mode.is_relative() {
            HRTIMER_MODE_REL
        } else {
            0
        },
        mode.word() & HRTIMER_MODE_PINNED == if mode.is_pinned() {
            HRTIMER_MODE_PINNED
        } else {
            0
        },
        mode.word() & HRTIMER_MODE_SOFT == if mode.is_soft() {
            HRTIMER_MODE_SOFT
        } else {
            0
        },
        mode.word() & HRTIMER_MODE_HARD == if mode.is_hard() {
            HRTIMER_MODE_HARD
        } else {
            0
        },
        mode.word() < 16,
{
    let w = mode.word();
    assert(forall|w: u32|
        #![trigger w & 1]
        w < 16 ==> w & 1 == w % 2 && w & 2 == w / 2 % 2 * 2 && w & 4 == w / 4 % 2 * 4 && w & 8 == w
            / 8 % 2 * 8) by (bit_vector);
    assert(w & 1 == w % 2);
}

/// The restart policies and their words stand for each other.
pub proof fn law_restart_word(restart: HrTimerRestart)
    ensures
        <HrTimerRestart as vstd::std_specs::convert::FromSpec<u32>>::from_spec(restart.word())
            == restart,
{
}

} // verus!
