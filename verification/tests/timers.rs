use core::marker::PhantomData;
use rnull::rnull::{NullBlkDevice, Pdu};
use rnull::time::hrtimer::pin::Pinned;
use rnull::time::hrtimer::{ClockSource, HasHrTimer, HrTimer, HrTimerHandle, HrTimerMode};
use rnull::time::hrtimer::{HrTimerRestart, ScopedHrTimerPointer, UnsafeHrTimerPointer};
use rnull::time::Ktime;

#[test]
fn modes_as_words() {
    let words: Vec<u32> = vec![
        HrTimerMode::Absolute,
        HrTimerMode::Relative,
        HrTimerMode::Pinned,
        HrTimerMode::Soft,
        HrTimerMode::Hard,
        HrTimerMode::AbsolutePinned,
        HrTimerMode::RelativePinned,
        HrTimerMode::AbsoluteSoft,
        HrTimerMode::RelativeSoft,
        HrTimerMode::AbsolutePinnedSoft,
        HrTimerMode::RelativePinnedSoft,
        HrTimerMode::AbsoluteHard,
        HrTimerMode::RelativeHard,
        HrTimerMode::AbsolutePinnedHard,
        HrTimerMode::RelativePinnedHard,
    ]
    .into_iter()
    .map(u32::from)
    .collect();
    assert_eq!(words, vec![0, 1, 2, 4, 8, 2, 3, 4, 5, 6, 7, 8, 9, 10, 11]);
    assert_eq!(u64::from(HrTimerMode::RelativePinnedHard), 11u64);
    assert_eq!(HrTimerMode::RelativeSoft.to_word(), 5);
}

#[test]
fn restart_policies_as_words() {
    assert_eq!(u32::from(HrTimerRestart::NoRestart), 0);
    assert_eq!(u32::from(HrTimerRestart::Restart), 1);
    assert_eq!(HrTimerRestart::from(0), HrTimerRestart::NoRestart);
    assert_eq!(HrTimerRestart::from(1), HrTimerRestart::Restart);
    assert_eq!(HrTimerRestart::from(7), HrTimerRestart::Restart);
}

#[test]
fn clocks_as_numbers() {
    assert_eq!(i32::from(ClockSource::RealTime), 0);
    assert_eq!(i32::from(ClockSource::Monotonic), 1);
    assert_eq!(i32::from(ClockSource::BootTime), 7);
    assert_eq!(i32::from(ClockSource::TAI), 11);
}

#[test]
fn ktime_keeps_nanoseconds() {
    assert_eq!(Ktime::from_nanos(-5).to_ns(), -5);
}

fn pdu() -> Pdu {
    Pdu { timer: HrTimer::new(HrTimerMode::AbsolutePinned, ClockSource::BootTime) }
}

fn pinned() -> Pinned<Pdu, NullBlkDevice> {
    Pinned { _p: PhantomData }
}

#[test]
fn a_timer_goes_through_its_states() {
    let mut p = pdu();
    assert_eq!((p.timer.timer.clock, p.timer.timer.mode), (7, 2));
    assert!(p.timer.timer.expiry.is_none());
    assert!(!p.timer.raw_cancel());
    HasHrTimer::start(&mut p, Ktime::from_nanos(40));
    HasHrTimer::start(&mut p, Ktime::from_nanos(50));
    assert_eq!(p.timer.timer.expiry.map(|e| (e.tim, e.delta_ns, e.mode)), Some((50, 0, 2)));
    assert!(p.timer.raw_cancel());
    assert!(!p.timer.raw_cancel());
    assert!(p.timer.timer.expiry.is_none());
}

#[test]
fn a_timer_expires_and_restarts() {
    let mut p = pdu();
    HasHrTimer::start(&mut p, Ktime::from_nanos(40));
    let expiry = p.timer.expire();
    assert_eq!(expiry.map(|e| e.tim), Some(40));
    assert!(p.timer.timer.expiry.is_none());
    p.timer.resume(HrTimerRestart::NoRestart, expiry);
    assert!(p.timer.timer.expiry.is_none());
    assert!(!p.timer.raw_cancel());
    p.timer.resume(HrTimerRestart::Restart, expiry);
    assert_eq!(p.timer.timer.expiry, expiry);
    let expiry = p.timer.expire();
    HasHrTimer::start(&mut p, Ktime::from_nanos(70));
    p.timer.resume(HrTimerRestart::Restart, expiry);
    assert_eq!(p.timer.timer.expiry.map(|e| e.tim), Some(70));
    assert!(p.timer.raw_cancel());
}

#[test]
fn addresses_of_timers() {
    assert_eq!(<Pdu as HasHrTimer<NullBlkDevice>>::raw_get_timer(100), 100);
    assert_eq!(<Pdu as HasHrTimer<NullBlkDevice>>::c_timer_ptr(100), 100);
    assert_eq!(<Pdu as HasHrTimer<NullBlkDevice>>::timer_container_of(100), 100);
}

#[test]
fn a_handle_on_the_stack_cancels_the_timer() {
    let mut p = pdu();
    let mut handle = UnsafeHrTimerPointer::start(pinned(), &mut p, Ktime::from_nanos(8));
    assert_eq!(p.timer.timer.expiry.map(|e| e.tim), Some(8));
    assert!(handle.cancel(&mut p));
    assert!(!handle.cancel(&mut p));
    handle.release(&mut p);
    assert!(p.timer.timer.expiry.is_none());
}

#[test]
fn a_scoped_timer_runs_during_the_function_and_is_cancelled_after_it() {
    let mut p = pdu();
    let r = pinned().start_scoped(&mut p, Ktime::from_nanos(9), |p: &Pdu| p.timer.timer.expiry);
    assert_eq!(r.map(|e| e.tim), Some(9));
    assert!(p.timer.timer.expiry.is_none());
}
