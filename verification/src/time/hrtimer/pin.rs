//! Timers in structs that stay in their place on the stack.

use super::{HasHrTimer, HrTimerHandle, UnsafeHrTimerPointer};
use crate::time::Ktime;
use core::marker::PhantomData;
use vstd::prelude::*;

verus! {

/// A pointer to a struct of type `T` that stays in its place and embeds a timer of type `U`.
pub struct Pinned<T, U> {
    pub _p: PhantomData<(T, U)>,
}

/// A handle for the timer that was started through a [`Pinned`] pointer.
pub struct PinHrTimerHandle<T, U> {
    pub inner: Pinned<T, U>,
}

impl<T: HasHrTimer<U>, U> HrTimerHandle for PinHrTimerHandle<T, U> {
    type Target = T;

    open spec fn is_for(self, target: T) -> bool {
        true
    }

    open spec fn is_running(target: T) -> bool {
        target.timer().is_running()
    }

    open spec fn cancelled(target: T) -> T {
        target.with_timer(target.timer().stopped())
    }

    open spec fn released(self, target: T) -> T {
        Self::cancelled(target)
    }

    fn cancel(&mut self, target: &mut T) -> (r: bool) {
        proof {
            target.lemma_with_timer(target.timer().stopped());
        }
        target.timer_mut().raw_cancel()
    }

    fn release(self, target: &mut T) {
        let mut this = self;
        let _ = this.cancel(target);
    }
}

impl<T: HasHrTimer<U>, U> UnsafeHrTimerPointer for Pinned<T, U> {
    type TimerHandle = PinHrTimerHandle<T, U>;

    open spec fn points_to(self, target: T) -> bool {
        true
    }

    open spec fn handle(self) -> PinHrTimerHandle<T, U> {
        PinHrTimerHandle { inner: self }
    }

    open spec fn started(target: T, expires: Ktime) -> T {
        target.with_timer(target.timer().started(expires))
    }

    fn start(self, target: &mut T, expires: Ktime) -> (r: PinHrTimerHandle<T, U>) {
        HasHrTimer::start(target, expires);
        PinHrTimerHandle { inner: self }
    }
}

} // verus!
