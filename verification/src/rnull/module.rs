//! The driver module and its parameters.

use super::configfs::{subsystem, IRQMode, Subsystem};
use super::{device_outcome, sectors_of_mib, NullBlkDevice, Outcome};
use crate::block::mq::gen_disk::{valid_block_size, GenDisk};
use crate::block::mq::tag_set::TagSet;
use crate::error::{Error, Result, EINVAL};
use crate::grants::Grants;
use crate::text::{decimal, lemma_ascii, lemma_decimal, push_decimal, push_text};
use crate::time::Ktime;
use vstd::prelude::*;
use vstd::std_specs::convert::TryFromSpec;
use vstd::utf8::{encode_utf8, encode_utf8_valid_utf8, valid_utf8, valid_utf8_concat};

verus! {

/// Stands for no NUMA node in particular.
pub const NUMA_NO_NODE: i32 = -1;

/// The parameters of the module.
#[derive(Clone, Copy, Debug, PartialEq, Eq, Structural)]
pub struct ModuleParameters {
    /// Device capacity in GiB.
    pub gb: u64,
    /// Set the rotational feature for the device (0 for false, 1 for true).
    pub rotational: u8,
    /// Block size (in bytes).
    pub bs: u32,
    /// Number of devices to register.
    pub nr_devices: u64,
    /// IRQ completion handler. 0-none, 1-softirq, 2-timer.
    pub irqmode: u8,
    /// Time in ns to complete a request in hardware.
    pub completion_nsec: u64,
    /// Create a memory-backed block device. 0-false, 1-true.
    pub memory_backed: u8,
    /// Number of submission queues.
    pub submit_queues: u32,
    /// Use per-node allocation for hardware context queues. 0-false, 1-true.
    pub use_per_node_hctx: u8,
    /// Home node for the device. -1 means no node.
    pub home_node: i32,
}

impl Default for ModuleParameters {
    fn default() -> (r: ModuleParameters)
        ensures
            r == (ModuleParameters {
                gb: 4096,
                rotational: 0,
                bs: 4096,
                nr_devices: 1,
                irqmode: 0,
                completion_nsec: 10_000,
                memory_backed: 0,
                submit_queues: 1,
                use_per_node_hctx: 0,
                home_node: NUMA_NO_NODE,
            }),
    {
        ModuleParameters {
            gb: 4096,
            rotational: 0,
            bs: 4096,
            nr_devices: 1,
            irqmode: 0,
            completion_nsec: 10_000,
            memory_backed: 0,
            submit_queues: 1,
            use_per_node_hctx: 0,
            home_node: NUMA_NO_NODE,
        }
    }
}

/// The name of the device with number `i` among those that the parameters ask for.
pub open spec fn device_name(i: int) -> Seq<u8> {
    encode_utf8("rnullb"@) + decimal(i)
}

/// What the creation of the device with number `i` comes to. Its name is allocated first; then the
/// interrupt mode is checked; then the device is created; then it is put into the list.
pub open spec fn param_outcome(
    params: ModuleParameters,
    nodes: u32,
    i: int,
    left: int,
    refusal: Error,
) -> Outcome {
    if left < 1 {
        Outcome { error: Some(refusal), left: 0 }
    } else if params.irqmode > 2 {
        Outcome { error: Some(Error(EINVAL)), left: left - 1 }
    } else {
        let o = device_outcome(
            device_name(i),
            params.bs,
            params.home_node,
            nodes,
            left - 1,
            refusal,
        );
        if o.error is None && o.left < 1 {
            Outcome { error: Some(refusal), left: 0 }
        } else if o.error is None {
            Outcome { error: None, left: o.left - 1 }
        } else {
            o
        }
    }
}

/// What the creation of the devices from number `i` on comes to. It ends at the first error.
pub open spec fn params_outcome(
    params: ModuleParameters,
    nodes: u32,
    i: int,
    left: int,
    refusal: Error,
) -> Outcome
    decreases params.nr_devices - i,
{
    if i >= params.nr_devices {
        Outcome { error: None, left }
    } else {
        let o = param_outcome(params, nodes, i, left, refusal);
        if o.error is Some {
            o
        } else {
            params_outcome(params, nodes, i + 1, o.left, refusal)
        }
    }
}

/// `disk` is the one that the parameters ask for, with number `i`.
pub open spec fn is_param_disk(
    params: ModuleParameters,
    nodes: u32,
    i: int,
    disk: GenDisk<NullBlkDevice>,
) -> bool {
    &&& disk.name@ == device_name(i)
    &&& disk.rotational == (params.rotational != 0)
    &&& disk.logical_block_size == params.bs
    &&& disk.physical_block_size == params.bs
    &&& disk.capacity_sectors == sectors_of_mib((params.gb * 1024) as u64)
    &&& disk.tagset == (TagSet {
        nr_hw_queues: if params.use_per_node_hctx != 0 {
            nodes
        } else {
            params.submit_queues
        },
        num_tags: 256,
        num_maps: 1,
        home_node: params.home_node,
    })
    &&& disk.queue_data.tree.tree@ == Map::<int, Seq<u8>>::empty()
    &&& <IRQMode as TryFromSpec<u8>>::try_from_spec(params.irqmode) == Ok::<IRQMode, Error>(
        disk.queue_data.irq_mode,
    )
    &&& disk.queue_data.completion_time.ns == params.completion_nsec
    &&& disk.queue_data.memory_backed == (params.memory_backed != 0)
}

/// The driver module.
pub struct NullBlkModule {
    pub configfs_subsystem: Subsystem,
    pub param_disks: Vec<GenDisk<NullBlkDevice>>,
}

impl NullBlkModule {
    /// Loads the module: registers the configuration subsystem, and creates the devices that the
    /// parameters ask for. `nodes` is the number of NUMA nodes that are online.
    pub fn init(params: &ModuleParameters, nodes: u32, grants: &mut Grants) -> (r: Result<
        NullBlkModule,
    >)
        requires
            params.nr_devices > 0 && params.completion_nsec <= i64::MAX && old(grants).left >= 2
                ==> params.gb * 1024 <= u64::MAX,
        ensures
            ({
                let left = old(grants).left as int;
                let refusal = old(grants).refusal;
                let o = if left < 1 {
                    Outcome { error: Some(refusal), left: 0 }
                } else if params.completion_nsec > i64::MAX {
                    Outcome { error: Some(Error(EINVAL)), left: left - 1 }
                } else {
                    params_outcome(*params, nodes, 0, left - 1, refusal)
                };
                &&& final(grants).left == o.left
                &&& match o.error {
                    Some(e) => r == Err::<NullBlkModule, Error>(e),
                    None => r is Ok,
                }
            }),
            final(grants).refusal == old(grants).refusal,
            r matches Ok(module) ==> {
                &&& module.configfs_subsystem.is_rnull()
                &&& module.param_disks@.len() == params.nr_devices
                &&& forall|i: int|
                    0 <= i < params.nr_devices ==> is_param_disk(
                        *params,
                        nodes,
                        i,
                        #[trigger] module.param_disks@[i],
                    )
            },
    {
        let configfs_subsystem = match subsystem(grants) {
            Ok(s) => s,
            Err(e) => {
                return Err(e);
            },
        };
        if params.completion_nsec > i64::MAX as u64 {
            return Err(Error(EINVAL));
        }
        let completion_time = params.completion_nsec as i64;
        let mut disks: Vec<GenDisk<NullBlkDevice>> = Vec::new();
        let mut i: u64 = 0;
        let ghost all = params_outcome(*params, nodes, 0, grants.left as int, grants.refusal);
        while i < params.nr_devices
            invariant
                i <= params.nr_devices,
                disks@.len() == i,
                completion_time == params.completion_nsec,
                params.nr_devices > 0 && old(grants).left >= 2 ==> params.gb * 1024 <= u64::MAX,
                old(grants).left >= 1,
                grants.left < old(grants).left,
                all == params_outcome(
                    *params,
                    nodes,
                    0,
                    old(grants).left - 1,
                    old(grants).refusal,
                ),
                all == params_outcome(
                    *params,
                    nodes,
                    i as int,
                    grants.left as int,
                    old(grants).refusal,
                ),
                grants.refusal == old(grants).refusal,
                forall|j: int|
                    0 <= j < i ==> is_param_disk(*params, nodes, j, #[trigger] disks@[j]),
            decreases params.nr_devices - i,
        {
            match grants.take() {
                Ok(()) => {},
                Err(e) => {
                    return Err(e);
                },
            }
            let mut name: Vec<u8> = Vec::new();
            push_text(&mut name, "rnullb");
            push_decimal(&mut name, i);
            assert(name@ =~= device_name(i as int));
            let submit_queues = if params.use_per_node_hctx != 0 {
                nodes
            } else {
                params.submit_queues
            };
            let capacity_mib = params.gb * 1024;
            let irq_mode = match IRQMode::try_from(params.irqmode) {
                Ok(mode) => mode,
                Err(e) => {
                    return Err(e);
                },
            };
            let disk = match NullBlkDevice::new(
                name.as_slice(),
                params.bs,
                params.rotational != 0,
                capacity_mib,
                irq_mode,
                Ktime::from_nanos(completion_time),
                params.memory_backed != 0,
                submit_queues,
                params.home_node,
                nodes,
                grants,
            ) {
                Ok(disk) => disk,
                Err(e) => {
                    return Err(e);
                },
            };
            match grants.take() {
                Ok(()) => {},
                Err(e) => {
                    return Err(e);
                },
            }
            disks.push(disk);
            i = i + 1;
        }
        Ok(NullBlkModule { configfs_subsystem, param_disks: disks })
    }
}

/// The names of the devices are valid UTF-8.
pub proof fn lemma_device_name(i: int)
    requires
        0 <= i,
    ensures
        valid_utf8(device_name(i)),
{
    lemma_decimal(i);
    lemma_ascii(decimal(i));
    encode_utf8_valid_utf8("rnullb"@);
    valid_utf8_concat(encode_utf8("rnullb"@), decimal(i));
}

/// The parameters can be used where `nodes` NUMA nodes are online.
pub open spec fn usable(params: ModuleParameters, nodes: u32) -> bool {
    &&& params.irqmode <= 2
    &&& valid_block_size(params.bs as int)
    &&& nodes <= i32::MAX
    &&& params.home_node <= nodes
}

/// All the devices are created where the parameters can be used and the rest of the kernel grants
/// enough: five requests for each device.
pub proof fn law_devices_are_created(
    params: ModuleParameters,
    nodes: u32,
    i: int,
    left: int,
    refusal: Error,
)
    requires
        usable(params, nodes),
        0 <= i <= params.nr_devices,
        5 * (params.nr_devices - i) <= left,
    ensures
        params_outcome(params, nodes, i, left, refusal) == (Outcome {
            error: None,
            left: left - 5 * (params.nr_devices - i),
        }),
    decreases params.nr_devices - i,
{
    if i < params.nr_devices {
        lemma_device_name(i);
        law_devices_are_created(params, nodes, i + 1, left - 5, refusal);
    }
}

/// Where at least one device is asked for and the parameters cannot be used, no device is created,
/// and enough memory makes the error the one for an invalid argument.
pub proof fn law_unusable_parameters_are_refused(
    params: ModuleParameters,
    nodes: u32,
    left: int,
    refusal: Error,
)
    requires
        !usable(params, nodes),
        params.nr_devices > 0,
        left >= 3,
    ensures
        params_outcome(params, nodes, 0, left, refusal).error == Some(Error(EINVAL)),
{
    lemma_device_name(0);
}

} // verus!
