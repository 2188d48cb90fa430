//! What the reference count of a request says about who refers to it.

use super::request::{unique_or_dropped, DropStep};
use crate::types::Refcount;
use vstd::prelude::*;

verus! {

/// Who holds a request.
pub enum Holders {
    /// The block layer owns it.
    BlockLayer,
    /// A unique reference to it exists.
    Unique,
    /// The driver owns it, and this many shared references to it exist.
    Shared(nat),
}

impl Holders {
    /// The count of a request that is held like this.
    pub open spec fn count(self) -> int {
        match self {
            Holders::BlockLayer => 0,
            Holders::Unique => 0,
            Holders::Shared(n) => n as int + 1,
        }
    }
}

/// What can be done with a reference to a request.
pub enum RefOp {
    /// `unique_to_shared`.
    Share,
    /// `inc_ref`.
    Add,
    /// `dec_ref` of a shared reference.
    Drop,
    /// `try_shared_to_unique`.
    TryUnique,
    /// `into_unique_or_drop`.
    UniqueOrDrop,
    /// `dec_ref` of a unique reference.
    DropUnique,
    /// `end`.
    End,
}

impl RefOp {
    /// There is a reference of the kind that it takes. A further one can be had of any request that
    /// the driver owns.
    pub open spec fn possible(self, h: Holders) -> bool {
        match self {
            RefOp::Share | RefOp::DropUnique | RefOp::End => h is Unique,
            RefOp::Add => h is Shared,
            RefOp::Drop | RefOp::TryUnique | RefOp::UniqueOrDrop => h matches Holders::Shared(n)
                && n > 0,
        }
    }

    /// Who holds the request afterwards.
    pub open spec fn holders(self, h: Holders) -> Holders {
        match self {
            RefOp::Share => Holders::Shared(1),
            RefOp::Add => Holders::Shared((h->Shared_0 + 1) as nat),
            RefOp::Drop => Holders::Shared((h->Shared_0 - 1) as nat),
            RefOp::TryUnique => if h == Holders::Shared(1) {
                Holders::Unique
            } else {
                h
            },
            RefOp::UniqueOrDrop => if h == Holders::Shared(1) {
                Holders::Unique
            } else {
                Holders::Shared((h->Shared_0 - 1) as nat)
            },
            RefOp::DropUnique => Holders::Shared(0),
            RefOp::End => Holders::BlockLayer,
        }
    }

    /// The count afterwards, as each of the operations ensures it.
    pub open spec fn count(self, count: i32) -> i32 {
        match self {
            RefOp::Share => count.wrapping_add(2),
            RefOp::Add => count.wrapping_add(1),
            RefOp::Drop => count.wrapping_sub(1),
            RefOp::TryUnique => if count == 2 {
                0
            } else {
                count
            },
            RefOp::UniqueOrDrop => unique_or_dropped(count),
            RefOp::DropUnique => 1,
            RefOp::End => count,
        }
    }
}

/// Each step is possible where it is taken.
pub open spec fn all_possible(h: Holders, ops: Seq<RefOp>) -> bool
    decreases ops.len(),
{
    ops.len() > 0 ==> ops[0].possible(h) && all_possible(ops[0].holders(h), ops.drop_first())
}

/// Who holds the request after some steps.
pub open spec fn holders_after(h: Holders, ops: Seq<RefOp>) -> Holders
    decreases ops.len(),
{
    if ops.len() == 0 {
        h
    } else {
        holders_after(ops[0].holders(h), ops.drop_first())
    }
}

/// The count after some steps.
pub open spec fn count_after(count: i32, ops: Seq<RefOp>) -> i32
    decreases ops.len(),
{
    if ops.len() == 0 {
        count
    } else {
        count_after(ops[0].count(count), ops.drop_first())
    }
}

/// Whatever is done with the references to a request, its count tells who holds it: it is 0 where
/// the block layer owns the request or a unique reference exists, and one more than the number of
/// shared references otherwise.
pub proof fn law_count_tells_holders(h: Holders, count: i32, ops: Seq<RefOp>)
    requires
        count == h.count(),
        all_possible(h, ops),
        count + 2 * ops.len() <= i32::MAX,
    ensures
        count_after(count, ops) == holders_after(h, ops).count(),
    decreases ops.len(),
{
    if ops.len() > 0 {
        law_count_tells_holders(ops[0].holders(h), ops[0].count(count), ops.drop_first());
    }
}

/// One of several that turn their references to a request into a unique one, or drop them, at the
/// same time.
pub enum Dropper {
    /// It has not read the count yet.
    Fresh,
    /// It has read the count, and this is its next step.
    At(DropStep),
}

impl Dropper {
    pub open spec fn is_done(self) -> bool {
        self matches Dropper::At(DropStep::Done { .. })
    }

    /// It is done, and has the unique reference.
    pub open spec fn is_unique(self) -> bool {
        self == Dropper::At(DropStep::Done { unique: true })
    }

    /// If it attempts an exchange, it is the one for the count that it has seen.
    pub open spec fn is_good(self) -> bool {
        self matches Dropper::At(DropStep::Exchange { current, new }) ==> new == unique_or_dropped(
            current,
        )
    }
}

/// The number of droppers that are not done.
pub open spec fn undone(droppers: Seq<Dropper>) -> int
    decreases droppers.len(),
{
    if droppers.len() == 0 {
        0
    } else {
        undone(droppers.drop_last()) + if droppers.last().is_done() {
            0int
        } else {
            1
        }
    }
}

/// The count of a request, and those that drop their references to it.
pub struct Race {
    pub count: i32,
    pub droppers: Seq<Dropper>,
}

impl Race {
    /// `n` shared references, none of which is dropped yet.
    pub open spec fn start(n: int) -> Race {
        Race { count: (n + 1) as i32, droppers: Seq::new(n as nat, |i: int| Dropper::Fresh) }
    }

    /// Dropper `i` takes its next step: it reads the count, or attempts its exchange.
    pub open spec fn step(self, i: int) -> Race {
        match self.droppers[i] {
            Dropper::Fresh => Race {
                droppers: self.droppers.update(i, Dropper::At(DropStep::attempt(self.count))),
                ..self
            },
            Dropper::At(DropStep::Exchange { current, new }) => {
                let (count, outcome) = Refcount::exchanged(self.count, current, new);
                let next = DropStep::following(current, outcome);
                Race { count, droppers: self.droppers.update(i, Dropper::At(next)) }
            },
            Dropper::At(DropStep::Done { .. }) => self,
        }
    }

    /// The droppers take steps in this order.
    pub open spec fn run(self, schedule: Seq<int>) -> Race
        decreases schedule.len(),
    {
        if schedule.len() == 0 {
            self
        } else {
            self.run(schedule.drop_last()).step(schedule.last())
        }
    }

    pub open spec fn all_done(self) -> bool {
        forall|i: int| 0 <= i < self.droppers.len() ==> (#[trigger] self.droppers[i]).is_done()
    }

    /// Dropper `i` has the unique reference.
    pub open spec fn has_unique(self, i: int) -> bool {
        0 <= i < self.droppers.len() && self.droppers[i].is_unique()
    }
}

proof fn lemma_undone(droppers: Seq<Dropper>)
    ensures
        0 <= undone(droppers) <= droppers.len(),
        undone(droppers) == 0 <==> forall|i: int|
            0 <= i < droppers.len() ==> (#[trigger] droppers[i]).is_done(),
    decreases droppers.len(),
{
    if droppers.len() > 0 {
        let rest = droppers.drop_last();
        lemma_undone(rest);
        assert forall|i: int| 0 <= i < rest.len() implies #[trigger] rest[i] == droppers[i] by {}
        if undone(droppers) == 0 {
            assert forall|i: int| 0 <= i < droppers.len() implies (
            #[trigger] droppers[i]).is_done() by {
                if i < rest.len() {
                    assert(rest[i].is_done());
                }
            }
        }
        if forall|i: int| 0 <= i < droppers.len() ==> (#[trigger] droppers[i]).is_done() {
            assert(droppers[droppers.len() - 1].is_done());
        }
    }
}

proof fn lemma_undone_update(droppers: Seq<Dropper>, i: int, d: Dropper)
    requires
        0 <= i < droppers.len(),
        !droppers[i].is_done(),
    ensures
        undone(droppers.update(i, d)) == undone(droppers) - if d.is_done() {
            1int
        } else {
            0
        },
    decreases droppers.len(),
{
    let after = droppers.update(i, d);
    if i < droppers.len() - 1 {
        lemma_undone_update(droppers.drop_last(), i, d);
        assert(after.drop_last() =~= droppers.drop_last().update(i, d));
    } else {
        assert(after.drop_last() =~= droppers.drop_last());
    }
}

/// However the reads and exchanges of `n` droppers interleave, the unique reference goes to exactly
/// one of them, and not before all the others are done: that is, to the last whose exchange
/// succeeds. Until then the count is one more than the number of references that are left, and from
/// then on it is 0.
pub proof fn law_last_dropper_is_unique(n: int, schedule: Seq<int>)
    requires
        1 <= n < i32::MAX,
        forall|k: int| 0 <= k < schedule.len() ==> 0 <= #[trigger] schedule[k] < n,
    ensures
        ({
            let r = Race::start(n).run(schedule);
            &&& r.droppers.len() == n
            &&& r.all_done() <==> exists|i: int| r.has_unique(i)
            &&& forall|i: int, j: int| r.has_unique(i) && r.has_unique(j) ==> i == j
            &&& r.count == if r.all_done() {
                0
            } else {
                undone(r.droppers) + 1
            }
        }),
{
    lemma_race(n, schedule);
    lemma_undone(Race::start(n).run(schedule).droppers);
}

/// What holds of a race at all times.
proof fn lemma_race(n: int, schedule: Seq<int>)
    requires
        1 <= n < i32::MAX,
        forall|k: int| 0 <= k < schedule.len() ==> 0 <= #[trigger] schedule[k] < n,
    ensures
        ({
            let r = Race::start(n).run(schedule);
            &&& r.droppers.len() == n
            &&& forall|i: int| 0 <= i < n ==> (#[trigger] r.droppers[i]).is_good()
            &&& r.count == if undone(r.droppers) == 0 {
                0
            } else {
                undone(r.droppers) + 1
            }
            &&& undone(r.droppers) == 0 <==> exists|i: int| r.has_unique(i)
            &&& forall|i: int, j: int| r.has_unique(i) && r.has_unique(j) ==> i == j
        }),
    decreases schedule.len(),
{
    let r = Race::start(n).run(schedule);
    lemma_undone(r.droppers);
    if schedule.len() == 0 {
        lemma_all_fresh(r.droppers);
        assert(!r.droppers[0].is_done());
    } else {
        let before = Race::start(n).run(schedule.drop_last());
        let i = schedule.last();
        lemma_race(n, schedule.drop_last());
        lemma_undone(before.droppers);
        if !before.droppers[i].is_done() {
            lemma_undone_update(before.droppers, i, r.droppers[i]);
            assert(!exists|j: int| before.has_unique(j));
            assert forall|j: int| r.has_unique(j) implies j == i by {
                if j != i {
                    assert(before.has_unique(j));
                }
            }
            if undone(r.droppers) == 0 {
                assert(r.has_unique(i));
            }
        }
    }
}

proof fn lemma_all_fresh(droppers: Seq<Dropper>)
    requires
        forall|i: int| 0 <= i < droppers.len() ==> #[trigger] droppers[i] == Dropper::Fresh,
    ensures
        undone(droppers) == droppers.len(),
    decreases droppers.len(),
{
    if droppers.len() > 0 {
        lemma_all_fresh(droppers.drop_last());
    }
}

/// A dropper that takes two steps with nothing in between is done: the first reads the count, or finds
/// that it has changed, and the exchange that follows succeeds.
pub proof fn law_dropper_left_alone_ends(race: Race, i: int)
    requires
        0 <= i < race.droppers.len(),
    ensures
        race.step(i).step(i).droppers[i].is_done(),
{
}

} // verus!
