//! What holds of timers, their modes and their clocks.

use super::pin::{PinHrTimerHandle, Pinned};
use super::{ClockSource, Expiry, HasHrTimer, HrTimer, HrTimerHandle, HrTimerMode, HrTimerRestart};
use super::{UnsafeHrTimerPointer, CLOCK_BOOTTIME, CLOCK_MONOTONIC, CLOCK_REALTIME, CLOCK_TAI};
use super::{HRTIMER_MODE_HARD, HRTIMER_MODE_PINNED, HRTIMER_MODE_REL, HRTIMER_MODE_SOFT};
use super::{HRTIMER_NORESTART, HRTIMER_RESTART};
use crate::time::Ktime;
use vstd::prelude::*;
use vstd::std_specs::convert::FromSpec;

verus! {

/// A timer that was started runs with an expiry of exactly the time that it was started with, without
/// slack and in its own mode. Timers that are started with different times expire at different times.
pub proof fn law_started_with_its_time<T>(timer: HrTimer<T>, expires: Ktime, other: Ktime)
    ensures
        timer.started(expires).timer.expiry == Some(
            Expiry { tim: expires.ns, delta_ns: 0, mode: timer.mode.word() },
        ),
        expires.ns != other.ns ==> timer.started(expires).timer.expiry != timer.started(
            other,
        ).timer.expiry,
        timer.started(expires).timer.clock == timer.timer.clock,
        timer.started(expires).timer.mode == timer.timer.mode,
        timer.started(expires).mode == timer.mode,
{
}

/// A timer is running exactly where it has an expiry. Stopping it takes that away and leaves its clock
/// and its mode.
pub proof fn law_stopped<T>(timer: HrTimer<T>)
    ensures
        timer.is_running() <==> timer.timer.expiry is Some,
        timer.stopped().timer.expiry is None,
        timer.stopped().timer.clock == timer.timer.clock,
        timer.stopped().timer.mode == timer.timer.mode,
        timer.stopped().mode == timer.mode,
{
}

/// After its handler a timer has the expiry that it had before it fired, if the handler asks for a
/// restart and has not started the timer itself. Otherwise it is as the handler left it.
pub proof fn law_resumed<T>(timer: HrTimer<T>, restart: HrTimerRestart, expiry: Option<Expiry>)
    ensures
        ({
            let r = timer.resumed(restart, expiry);
            &&& timer.timer.expiry is Some ==> r.timer.expiry == timer.timer.expiry
            &&& timer.timer.expiry is None && restart == HrTimerRestart::Restart
                ==> r.timer.expiry == expiry
            &&& timer.timer.expiry is None && restart == HrTimerRestart::NoRestart
                ==> r.timer.expiry is None
            &&& r.timer.clock == timer.timer.clock
            &&& r.timer.mode == timer.timer.mode
            &&& r.mode == timer.mode
        }),
{
}

/// Starting, cancelling and letting go through a pinned pointer act on the timer of the target.
pub proof fn law_pinned<T: HasHrTimer<U>, U>(
    target: T,
    pointer: Pinned<T, U>,
    handle: PinHrTimerHandle<T, U>,
    expires: Ktime,
)
    ensures
        pointer.points_to(target),
        handle.is_for(target),
        pointer.handle().inner == pointer,
        PinHrTimerHandle::<T, U>::is_running(target) <==> target.timer().timer.expiry is Some,
        ({
            let r = Pinned::<T, U>::started(target, expires);
            &&& r.timer().timer.expiry == Some(
                Expiry { tim: expires.ns, delta_ns: 0, mode: target.timer().mode.word() },
            )
            &&& r == target.with_timer(r.timer())
        }),
        ({
            let r = PinHrTimerHandle::<T, U>::cancelled(target);
            &&& r.timer().timer.expiry is None
            &&& r.timer().timer.clock == target.timer().timer.clock
            &&& r.timer().mode == target.timer().mode
            &&& r == target.with_timer(r.timer())
            &&& handle.released(target) == r
        }),
{
    target.lemma_with_timer(target.timer().started(expires));
    target.lemma_with_timer(target.timer().stopped());
}

/// The words for the plain modes, and that the word for a mode with several properties is made of those
/// for each of them.
pub proof fn law_modes_combine()
    ensures
        HRTIMER_MODE_REL == 1,
        HRTIMER_MODE_PINNED == 2,
        HRTIMER_MODE_SOFT == 4,
        HRTIMER_MODE_HARD == 8,
        HrTimerMode::Absolute.word() == 0,
        HrTimerMode::Relative.word() == 1,
        HrTimerMode::Pinned.word() == 2,
        HrTimerMode::Soft.word() == 4,
        HrTimerMode::Hard.word() == 8,
        HrTimerMode::AbsolutePinned.word() == HrTimerMode::Pinned.word(),
        HrTimerMode::AbsoluteSoft.word() == HrTimerMode::Soft.word(),
        HrTimerMode::AbsoluteHard.word() == HrTimerMode::Hard.word(),
        HrTimerMode::RelativePinned.word() == HrTimerMode::Relative.word()
            + HrTimerMode::Pinned.word(),
        HrTimerMode::RelativeSoft.word() == HrTimerMode::Relative.word() + HrTimerMode::Soft.word(),
        HrTimerMode::RelativeHard.word() == HrTimerMode::Relative.word() + HrTimerMode::Hard.word(),
        HrTimerMode::AbsolutePinnedSoft.word() == HrTimerMode::Pinned.word()
            + HrTimerMode::Soft.word(),
        HrTimerMode::AbsolutePinnedHard.word() == HrTimerMode::Pinned.word()
            + HrTimerMode::Hard.word(),
        HrTimerMode::RelativePinnedSoft.word() == HrTimerMode::RelativePinned.word()
            + HrTimerMode::Soft.word(),
        HrTimerMode::RelativePinnedHard.word() == HrTimerMode::RelativePinned.word()
            + HrTimerMode::Hard.word(),
{
}

/// A mode has the same word in 32 and in 64 bits.
pub proof fn law_mode_widths(mode: HrTimerMode)
    ensures
        <u32 as FromSpec<HrTimerMode>>::from_spec(mode) == mode.word(),
        <u64 as FromSpec<HrTimerMode>>::from_spec(mode) == mode.word(),
{
}

/// A word asks for a restart exactly where it is not 0, and the policies have the words 0 and 1.
pub proof fn law_restart_words(word: u32, restart: HrTimerRestart)
    ensures
        <HrTimerRestart as FromSpec<u32>>::from_spec(word) == HrTimerRestart::NoRestart <==> word
            == 0,
        <u32 as FromSpec<HrTimerRestart>>::from_spec(restart) == restart.word(),
        restart.word() == 0 <==> restart == HrTimerRestart::NoRestart,
        restart.word() <= 1,
        HRTIMER_NORESTART == 0,
        HRTIMER_RESTART == 1,
{
}

/// The numbers of the clocks, which tell them apart.
pub proof fn law_clocks(a: ClockSource, b: ClockSource)
    ensures
        <i32 as FromSpec<ClockSource>>::from_spec(ClockSource::RealTime) == 0,
        <i32 as FromSpec<ClockSource>>::from_spec(ClockSource::Monotonic) == 1,
        <i32 as FromSpec<ClockSource>>::from_spec(ClockSource::BootTime) == 7,
        <i32 as FromSpec<ClockSource>>::from_spec(ClockSource::TAI) == 11,
        <i32 as FromSpec<ClockSource>>::from_spec(a) == <i32 as FromSpec<ClockSource>>::from_spec(b)
            ==> a == b,
        CLOCK_REALTIME == 0,
        CLOCK_MONOTONIC == 1,
        CLOCK_BOOTTIME == 7,
        CLOCK_TAI == 11,
{
}

} // verus!
