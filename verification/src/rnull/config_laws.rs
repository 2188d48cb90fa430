//! What holds of the configuration of devices: what its attributes take and show, and which disks it
//! gives.

use super::configfs::{stored, Attribute, DeviceConfig, Group, IRQMode, Subsystem, SUBMIT_QUEUES};
use super::module::{device_name, is_param_disk, param_outcome, params_outcome, usable};
use super::module::{lemma_device_name, ModuleParameters, NUMA_NO_NODE};
use super::request_laws::law_capacity;
use super::{device_outcome, NullBlkDevice, Outcome};
use crate::block::mq::gen_disk::GenDisk;
use crate::block::mq::laws::law_block_sizes;
use crate::error::{Error, Result, EBUSY, EINVAL};
use crate::grants::Grants;
use crate::text::{chars, decimal, lemma_decimal, text_value};
use vstd::prelude::*;
use vstd::std_specs::convert::TryFromSpec;
use vstd::utf8::{encode_utf8, is_ascii_chars, is_ascii_chars_encode_utf8};

verus! {

/// The numbers of the interrupt modes, and what stands for none of them or for no node.
pub proof fn law_config_numbers(n: int)
    ensures
        IRQMode::Direct.number() == 0,
        IRQMode::Soft.number() == 1,
        IRQMode::Timer.number() == 2,
        0 <= n <= 2 ==> IRQMode::from_number(n).number() == n,
        <IRQMode as TryFromSpec<u8>>::try_from_spec(0) == Ok::<IRQMode, Error>(IRQMode::Direct),
        <IRQMode as TryFromSpec<u8>>::try_from_spec(1) == Ok::<IRQMode, Error>(IRQMode::Soft),
        <IRQMode as TryFromSpec<u8>>::try_from_spec(2) == Ok::<IRQMode, Error>(IRQMode::Timer),
        2 < n <= 255 ==> <IRQMode as TryFromSpec<u8>>::try_from_spec(n as u8) == Err::<
            IRQMode,
            Error,
        >(Error(EINVAL)),
        NUMA_NO_NODE == -1,
        SUBMIT_QUEUES == 1,
{
}

/// Which numbers each attribute takes.
pub proof fn law_attribute_takes(n: int)
    requires
        0 <= n,
    ensures
        Attribute::Power.limit() == 255,
        Attribute::BlockSize.limit() == 0xffff_ffff,
        Attribute::Rotational.limit() == 255,
        Attribute::Size.limit() == 0xffff_ffff_ffff_ffff,
        Attribute::IrqMode.limit() == 255,
        Attribute::CompletionNsec.limit() == 0xffff_ffff_ffff_ffff,
        Attribute::Power.takes(n),
        Attribute::BlockSize.takes(n) <==> 512 <= n && 4096int % n == 0,
        Attribute::Rotational.takes(n),
        Attribute::Size.takes(n),
        Attribute::IrqMode.takes(n) <==> n <= 2,
        Attribute::CompletionNsec.takes(n) <==> n <= 0x7fff_ffff_ffff_ffff,
        stored(true) == Ok::<(), Error>(()),
        stored(false) == Err::<(), Error>(Error(EINVAL)),
{
    law_block_sizes(n);
}

/// What each attribute shows: its number in decimal, and a newline.
pub proof fn law_attribute_shows(config: DeviceConfig)
    ensures
        ({
            let data = config.data;
            let truth = |on: bool|
                if on {
                    seq![49u8, 10u8]
                } else {
                    seq![48u8, 10u8]
                };
            &&& config.shown(Attribute::Power) == truth(data.powered)
            &&& config.shown(Attribute::Rotational) == truth(data.rotational)
            &&& config.shown(Attribute::BlockSize) == decimal(data.block_size as int) + seq![10u8]
            &&& config.shown(Attribute::Size) == decimal(data.capacity_mib as int) + seq![10u8]
            &&& config.shown(Attribute::IrqMode) == decimal(data.irq_mode.number()) + seq![10u8]
            &&& data.completion_time.ns >= 0 ==> config.shown(Attribute::CompletionNsec) == decimal(
                data.completion_time.ns as int,
            ) + seq![10u8]
            &&& data.completion_time.ns < 0 ==> config.shown(Attribute::CompletionNsec) == seq![45u8]
                + decimal(-data.completion_time.ns) + seq![10u8]
            &&& config.value(Attribute::Power) == if data.powered {
                1int
            } else {
                0
            }
            &&& config.value(Attribute::Rotational) == if data.rotational {
                1int
            } else {
                0
            }
            &&& config.value(Attribute::BlockSize) == data.block_size
            &&& config.value(Attribute::Size) == data.capacity_mib
            &&& config.value(Attribute::IrqMode) == data.irq_mode.number()
            &&& config.value(Attribute::CompletionNsec) == data.completion_time.ns
        }),
{
    let data = config.data;
    assert(config.shown(Attribute::Power) =~= if data.powered {
        seq![49u8, 10u8]
    } else {
        seq![48u8, 10u8]
    });
    assert(config.shown(Attribute::Rotational) =~= if data.rotational {
        seq![49u8, 10u8]
    } else {
        seq![48u8, 10u8]
    });
    assert(config.shown(Attribute::BlockSize) =~= decimal(data.block_size as int) + seq![10u8]);
    assert(config.shown(Attribute::Size) =~= decimal(data.capacity_mib as int) + seq![10u8]);
    assert(config.shown(Attribute::IrqMode) =~= decimal(data.irq_mode.number()) + seq![10u8]);
    if data.completion_time.ns >= 0 {
        assert(config.shown(Attribute::CompletionNsec) =~= decimal(data.completion_time.ns as int)
            + seq![10u8]);
    } else {
        assert(config.shown(Attribute::CompletionNsec) =~= seq![45u8] + decimal(
            -data.completion_time.ns,
        ) + seq![10u8]);
    }
}

/// Two configurations that differ in nothing but what an attribute is about.
pub open spec fn same_but(a: DeviceConfig, b: DeviceConfig, attribute: Attribute) -> bool {
    let x = a.data;
    let y = b.data;
    &&& x.name == y.name
    &&& x.powered == y.powered
    &&& x.disk == y.disk
    &&& attribute == Attribute::BlockSize || x.block_size == y.block_size
    &&& attribute == Attribute::Rotational || x.rotational == y.rotational
    &&& attribute == Attribute::Size || x.capacity_mib == y.capacity_mib
    &&& attribute == Attribute::IrqMode || x.irq_mode == y.irq_mode
    &&& attribute == Attribute::CompletionNsec || x.completion_time == y.completion_time
}

/// Storing in an attribute other than `power`. A device that is switched on is busy, and nothing
/// changes. Otherwise a number that the attribute takes is put into it and nothing else changes, and
/// anything else is invalid and changes nothing.
pub proof fn law_store_setting(
    config: DeviceConfig,
    after: DeviceConfig,
    attribute: Attribute,
    page: Seq<u8>,
    r: Result<()>,
)
    requires
        config.set(after, attribute, page, r),
        !(attribute is Power),
    ensures
        config.data.powered ==> r == Err::<(), Error>(Error(EBUSY)) && after == config,
        ({
            let value = text_value(page, attribute.limit());
            &&& !config.data.powered && (value is None || !attribute.takes(value->0)) ==> r == Err::<
                (),
                Error,
            >(Error(EINVAL)) && after == config
            &&& !config.data.powered && value is Some && attribute.takes(value->0) ==> {
                let n = value->0;
                &&& r == Ok::<(), Error>(())
                &&& same_but(after, config, attribute)
                &&& after.value(attribute) == if attribute == Attribute::Rotational && n != 0 {
                    1
                } else {
                    n
                }
            }
        }),
{
    crate::text::lemma_text_value(page, attribute.limit());
}

/// Putting a number into an attribute changes nothing else, and the number is in it then.
pub proof fn law_with(config: DeviceConfig, attribute: Attribute, n: int)
    requires
        !(attribute is Power),
        0 <= n <= attribute.limit(),
        attribute.takes(n),
    ensures
        same_but(config.with(attribute, n), config, attribute),
        config.with(attribute, n).value(attribute) == if attribute == Attribute::Rotational && n
            != 0 {
            1
        } else {
            n
        },
{
}

/// A disk that is the one that a configuration asks for has its name, its block size, its capacity in
/// bytes, its interrupt mode and its completion time. It has one queue with 256 tags on any node, and
/// keeps no data.
pub proof fn law_configured_disk(config: DeviceConfig, disk: GenDisk<NullBlkDevice>)
    requires
        config.describes(disk),
    ensures
        disk.name@ == config.data.name@,
        disk.rotational == config.data.rotational,
        disk.logical_block_size == config.data.block_size,
        disk.physical_block_size == config.data.block_size,
        config.data.capacity_mib * 2048 <= u64::MAX ==> disk.capacity_sectors * 512
            == config.data.capacity_mib * 1024 * 1024,
        disk.tagset.nr_hw_queues == 1,
        disk.tagset.num_tags == 256,
        disk.tagset.num_maps == 1,
        disk.tagset.home_node == -1,
        disk.queue_data.irq_mode == config.data.irq_mode,
        disk.queue_data.completion_time == config.data.completion_time,
        !disk.queue_data.memory_backed,
{
    law_capacity(config.data.capacity_mib);
}

/// Storing in `power`. Text that is no number is invalid. A number other than 0 switches on a device
/// that is off: that creates the disk that the configuration asks for, or fails as the creation does
/// and changes nothing. The number 0 switches off a device that is on, and its disk is gone. Otherwise
/// nothing changes. The settings stay as they are in every case.
pub proof fn law_store_power(
    config: DeviceConfig,
    after: DeviceConfig,
    page: Seq<u8>,
    nodes: u32,
    grants_before: Grants,
    grants_after: Grants,
    r: Result<()>,
)
    requires
        config.switched(after, page, nodes, grants_before, grants_after, r),
    ensures
        same_but(
            DeviceConfig {
                data: super::configfs::DeviceConfigInner {
                    powered: config.data.powered,
                    disk: config.data.disk,
                    ..after.data
                },
            },
            config,
            Attribute::Power,
        ),
        grants_after.refusal == grants_before.refusal,
        ({
            let value = text_value(page, 255);
            let o = device_outcome(
                config.data.name@,
                config.data.block_size,
                NUMA_NO_NODE,
                nodes,
                grants_before.left as int,
                grants_before.refusal,
            );
            &&& value is None ==> {
                &&& r == Err::<(), Error>(Error(EINVAL))
                &&& after == config
                &&& grants_after.left == grants_before.left
            }
            &&& value is Some && (value->0 != 0) == config.data.powered ==> {
                &&& r == Ok::<(), Error>(())
                &&& after == config
                &&& grants_after.left == grants_before.left
            }
            &&& value == Some(0int) && config.data.powered ==> {
                &&& r == Ok::<(), Error>(())
                &&& !after.data.powered
                &&& after.data.disk is None
                &&& grants_after.left == grants_before.left
            }
            &&& value is Some && value->0 != 0 && !config.data.powered ==> {
                &&& grants_after.left == o.left
                &&& o.error is Some ==> r == Err::<(), Error>(o.error->0) && after == config
                &&& o.error is None ==> {
                    &&& r == Ok::<(), Error>(())
                    &&& after.data.powered
                    &&& after.data.disk is Some
                    &&& config.describes(after.data.disk->0)
                    &&& after.data.disk->0.queue_data.tree.tree@.len() == 0
                }
            }
        }),
{
}

/// A configuration is good exactly where it has a disk while it is switched on, that disk is the one
/// that it asks for, its block size can be used, and its completion time is not negative.
pub proof fn law_good_config(config: DeviceConfig)
    ensures
        config.wf() <==> {
            &&& config.data.powered <==> config.data.disk is Some
            &&& config.data.disk is Some ==> config.describes(config.data.disk->0)
            &&& 512 <= config.data.block_size && 4096int % (config.data.block_size as int) == 0
            &&& 0 <= config.data.completion_time.ns
        },
{
    law_block_sizes(config.data.block_size as int);
}

/// The configuration of a new device has the name that was asked for and the defaults.
pub proof fn law_new_group(group: Group, name: Seq<u8>)
    requires
        group.is_new(name),
    ensures
        group.name@ == name,
        group.data.data.name@ == name,
        group.attributes@.len() == 6,
        !group.data.data.powered,
        group.data.data.disk is None,
        group.data.data.block_size == 4096,
        !group.data.data.rotational,
        group.data.data.capacity_mib == 4096,
        group.data.data.irq_mode == IRQMode::Direct,
        group.data.data.completion_time.ns == 0,
        group.attributes@[0]@ == encode_utf8("power"@),
        group.attributes@[1]@ == encode_utf8("blocksize"@),
        group.attributes@[2]@ == encode_utf8("rotational"@),
        group.attributes@[3]@ == encode_utf8("size"@),
        group.attributes@[4]@ == encode_utf8("irqmode"@),
        group.attributes@[5]@ == encode_utf8("completion_nsec"@),
{
}

/// The subsystem is named `rnull` and has the attribute `features`.
pub proof fn law_subsystem(subsystem: Subsystem)
    requires
        subsystem.is_rnull(),
    ensures
        subsystem.name@ == encode_utf8("rnull"@),
        subsystem.attributes@.len() == 1,
        subsystem.attributes@[0]@ == encode_utf8("features"@),
{
}

/// The name of a device is `rnullb` and its number in decimal, and no two devices have the same name.
pub proof fn law_device_names(i: int, j: int)
    requires
        0 <= i,
        0 <= j,
    ensures
        device_name(i) == seq![114u8, 110u8, 117u8, 108u8, 108u8, 98u8] + decimal(i),
        device_name(i) == device_name(j) ==> i == j,
{
    reveal_strlit("rnullb");
    assert(is_ascii_chars("rnullb"@));
    is_ascii_chars_encode_utf8("rnullb"@);
    let prefix = seq![114u8, 110u8, 117u8, 108u8, 108u8, 98u8];
    assert(encode_utf8("rnullb"@) =~= prefix);
    lemma_decimal(i);
    lemma_decimal(j);
    if device_name(i) == device_name(j) {
        assert(device_name(i).skip(6) =~= decimal(i));
        assert(device_name(j).skip(6) =~= decimal(j));
        assert(chars(decimal(i)) == chars(decimal(j)));
    }
}

/// A disk that the parameters ask for has so many GiB, the block size, the interrupt mode, the
/// completion time, the queues and the home node that they say.
pub proof fn law_parameter_disk(
    params: ModuleParameters,
    nodes: u32,
    i: int,
    disk: GenDisk<NullBlkDevice>,
)
    requires
        is_param_disk(params, nodes, i, disk),
        params.gb * 1024 <= u64::MAX,
    ensures
        disk.name@ == device_name(i),
        disk.rotational <==> params.rotational != 0,
        disk.logical_block_size == params.bs,
        disk.physical_block_size == params.bs,
        params.gb * 1024 * 2048 <= u64::MAX ==> disk.capacity_sectors * 512 == params.gb * 1024 * 1024
            * 1024,
        params.use_per_node_hctx == 0 ==> disk.tagset.nr_hw_queues == params.submit_queues,
        params.use_per_node_hctx != 0 ==> disk.tagset.nr_hw_queues == nodes,
        disk.tagset.num_tags == 256,
        disk.tagset.num_maps == 1,
        disk.tagset.home_node == params.home_node,
        disk.queue_data.irq_mode.number() == params.irqmode,
        disk.queue_data.completion_time.ns == params.completion_nsec,
        disk.queue_data.memory_backed <==> params.memory_backed != 0,
        disk.queue_data.tree.tree@ == Map::<int, Seq<u8>>::empty(),
{
    law_capacity((params.gb * 1024) as u64);
}

/// The parameters can be used exactly where the interrupt mode and the block size are valid and the
/// home node is online.
pub proof fn law_usable(params: ModuleParameters, nodes: u32)
    ensures
        usable(params, nodes) <==> {
            &&& params.irqmode <= 2
            &&& 512 <= params.bs && 4096int % (params.bs as int) == 0
            &&& nodes <= 0x7fff_ffff
            &&& params.home_node <= nodes
        },
{
    law_block_sizes(params.bs as int);
}

/// The devices are created one after another, up to the first that fails. Each takes a request for its
/// name before it is created and one for its place in the list after that.
pub proof fn law_devices_in_order(
    params: ModuleParameters,
    nodes: u32,
    i: int,
    left: int,
    refusal: Error,
)
    requires
        0 <= left,
    ensures
        ({
            let one = param_outcome(params, nodes, i, left, refusal);
            let all = params_outcome(params, nodes, i, left, refusal);
            let o = device_outcome(
                device_name(i),
                params.bs,
                params.home_node,
                nodes,
                left - 1,
                refusal,
            );
            &&& i >= params.nr_devices ==> all == (Outcome { error: None, left })
            &&& i < params.nr_devices && one.error is Some ==> all == one
            &&& i < params.nr_devices && one.error is None ==> all == params_outcome(
                params,
                nodes,
                i + 1,
                one.left,
                refusal,
            )
            &&& left == 0 ==> one == (Outcome { error: Some(refusal), left: 0 })
            &&& left > 0 && params.irqmode > 2 ==> one == (Outcome {
                error: Some(Error(EINVAL)),
                left: left - 1,
            })
            &&& left > 0 && params.irqmode <= 2 && o.error is Some ==> one == o
            &&& left > 0 && params.irqmode <= 2 && o.error is None && o.left == 0 ==> one == (
            Outcome { error: Some(refusal), left: 0 })
            &&& left > 0 && params.irqmode <= 2 && o.error is None && o.left > 0 ==> one == (
            Outcome { error: None, left: o.left - 1 })
        }),
{
}

/// Parameters that can be used fail only for want of what the rest of the kernel grants: exactly where
/// that is fewer than five requests for each device.
pub proof fn law_devices_need_grants(
    params: ModuleParameters,
    nodes: u32,
    i: int,
    left: int,
    refusal: Error,
)
    requires
        usable(params, nodes),
        0 <= i <= params.nr_devices,
        0 <= left < 5 * (params.nr_devices - i),
    ensures
        params_outcome(params, nodes, i, left, refusal) == (Outcome {
            error: Some(refusal),
            left: 0,
        }),
    decreases params.nr_devices - i,
{
    lemma_device_name(i);
    if left >= 5 {
        law_devices_need_grants(params, nodes, i + 1, left - 5, refusal);
    }
}

} // verus!
