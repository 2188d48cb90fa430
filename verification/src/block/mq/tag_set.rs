//! Tag sets.

use vstd::prelude::*;

verus! {

/// What a tag set is made with.
#[derive(Clone, Copy, Debug, PartialEq, Eq, Structural)]
pub struct TagSet {
    /// The number of hardware queues.
    pub nr_hw_queues: u32,
    /// The number of tags of each queue.
    pub num_tags: u32,
    /// The number of queue maps.
    pub num_maps: u32,
    /// The NUMA node to allocate on. A negative number means any.
    pub home_node: i32,
}

impl TagSet {
    /// A new tag set.
    pub fn new(nr_hw_queues: u32, num_tags: u32, num_maps: u32, home_node: i32) -> (r: TagSet)
        ensures
            r == (TagSet { nr_hw_queues, num_tags, num_maps, home_node }),
    {
        TagSet { nr_hw_queues, num_tags, num_maps, home_node }
    }
}

} // verus!
