//! The configuration of null block devices.

use super::module::NUMA_NO_NODE;
use super::{device_outcome, sectors_of_mib, NullBlkDevice};
use crate::block::mq::gen_disk::{valid_block_size, GenDisk, GenDiskBuilder};
use crate::block::mq::tag_set::TagSet;
use crate::error::{Error, Result, EBUSY, EINVAL};
use crate::grants::Grants;
use crate::page::PAGE_SIZE;
use crate::text::{decimal, law_decimal_is_read_back, lemma_decimal_len, lemma_text_value};
use crate::text::{power_of_ten, signed_decimal, text_value};
use crate::text::{parse_text, push_decimal, push_signed_decimal, push_text};
use crate::time::Ktime;
use vstd::prelude::*;
use vstd::slice::slice_to_vec;
use vstd::std_specs::convert::{TryFromSpec, TryFromSpecImpl};
use vstd::utf8::encode_utf8;

verus! {

/// How the completion of a request is delivered.
#[derive(Clone, Copy, Debug, PartialEq, Eq, Structural)]
pub enum IRQMode {
    /// At once.
    Direct,
    /// In a soft irq.
    Soft,
    /// When a timer expires.
    Timer,
}

impl TryFrom<u8> for IRQMode {
    type Error = Error;

    fn try_from(value: u8) -> (r: Result<Self>) {
        match value {
            0 => Ok(IRQMode::Direct),
            1 => Ok(IRQMode::Soft),
            2 => Ok(IRQMode::Timer),
            _ => Err(Error(EINVAL)),
        }
    }
}

impl TryFromSpecImpl<u8> for IRQMode {
    open spec fn obeys_try_from_spec() -> bool {
        true
    }

    open spec fn try_from_spec(value: u8) -> Result<Self> {
        if value == 0 {
            Ok(IRQMode::Direct)
        } else if value == 1 {
            Ok(IRQMode::Soft)
        } else if value == 2 {
            Ok(IRQMode::Timer)
        } else {
            Err(Error(EINVAL))
        }
    }
}

/// The configuration subsystem, as it is registered: its name, and the names of its attributes by
/// their numbers.
pub struct Subsystem {
    pub name: Vec<u8>,
    pub attributes: Vec<Vec<u8>>,
}

impl Subsystem {
    /// This is the subsystem of the driver.
    pub open spec fn is_rnull(self) -> bool {
        &&& self.name@ == encode_utf8("rnull"@)
        &&& self.attributes@.len() == 1
        &&& self.attributes@[0]@ == encode_utf8("features"@)
    }
}

/// Some text as bytes.
fn text(s: &str) -> (r: Vec<u8>)
    ensures
        r@ == encode_utf8(s@),
{
    let mut r: Vec<u8> = Vec::new();
    push_text(&mut r, s);
    assert(r@ =~= encode_utf8(s@));
    r
}

/// Registers the configuration subsystem.
pub fn subsystem(grants: &mut Grants) -> (r: Result<Subsystem>)
    ensures
        final(grants).refusal == old(grants).refusal,
        old(grants).left == 0 ==> {
            &&& r == Err::<Subsystem, Error>(old(grants).refusal)
            &&& final(grants).left == 0
        },
        old(grants).left > 0 ==> {
            &&& r is Ok
            &&& r->Ok_0.is_rnull()
            &&& final(grants).left == old(grants).left - 1
        },
{
    match grants.take() {
        Ok(()) => Ok(Subsystem { name: text("rnull"), attributes: vec![text("features")] }),
        Err(e) => Err(e),
    }
}

/// The number of queues of a device that is created through its configuration.
pub const SUBMIT_QUEUES: u32 = 1;

impl IRQMode {
    /// The number that stands for the mode.
    pub open spec fn number(self) -> int {
        match self {
            IRQMode::Direct => 0,
            IRQMode::Soft => 1,
            IRQMode::Timer => 2,
        }
    }

    /// The mode that a number stands for.
    pub open spec fn from_number(n: int) -> IRQMode {
        if n == 0 {
            IRQMode::Direct
        } else if n == 1 {
            IRQMode::Soft
        } else {
            IRQMode::Timer
        }
    }

    /// Appends the number that stands for the mode.
    pub fn fmt(&self, out: &mut Vec<u8>)
        ensures
            final(out)@ == old(out)@ + decimal(self.number()),
    {
        match self {
            IRQMode::Direct => push_decimal(out, 0),
            IRQMode::Soft => push_decimal(out, 1),
            IRQMode::Timer => push_decimal(out, 2),
        }
    }
}

/// The root of the configuration.
pub struct Config {}

impl Config {
    /// The names of the features.
    pub fn show(&self) -> (r: Vec<u8>)
        ensures
            r@ == encode_utf8("blocksize,size,rotational,irqmode,completion_nsec\n"@),
    {
        text("blocksize,size,rotational,irqmode,completion_nsec\n")
    }

    /// Makes the configuration of a new device with this name.
    pub fn make_group(&self, name: &[u8], grants: &mut Grants) -> (r: Result<Group>)
        ensures
            final(grants).refusal == old(grants).refusal,
            old(grants).left < 2 ==> {
                &&& r == Err::<Group, Error>(old(grants).refusal)
                &&& final(grants).left == 0
            },
            old(grants).left >= 2 ==> {
                &&& r is Ok
                &&& r->Ok_0.is_new(name@)
                &&& final(grants).left == old(grants).left - 2
            },
    {
        match grants.take() {
            Ok(()) => {},
            Err(e) => {
                return Err(e);
            },
        }
        let group_name = slice_to_vec(name);
        match grants.take() {
            Ok(()) => {},
            Err(e) => {
                return Err(e);
            },
        }
        let data = DeviceConfigInner {
            powered: false,
            block_size: 4096,
            rotational: false,
            disk: None,
            capacity_mib: 4096,
            irq_mode: IRQMode::Direct,
            completion_time: Ktime::from_nanos(0),
            name: slice_to_vec(name),
        };
        // Named for compatibility with C null_blk
        let attributes = vec![
            text("power"),
            text("blocksize"),
            text("rotational"),
            text("size"),
            text("irqmode"),
            text("completion_nsec"),
        ];
        Ok(Group { name: group_name, attributes, data: DeviceConfig { data } })
    }
}

/// The configuration of a device, as it is registered: its name, the names of its attributes by
/// their numbers, and what it holds.
pub struct Group {
    pub name: Vec<u8>,
    pub attributes: Vec<Vec<u8>>,
    pub data: DeviceConfig,
}

impl Group {
    /// This is the configuration of a new device: switched off, with blocks of 4096 bytes, not
    /// rotational, with a capacity of 4096 MiB, completing requests at once.
    pub open spec fn is_new(self, name: Seq<u8>) -> bool {
        let data = self.data.data;
        &&& self.name@ == name
        &&& self.attributes@.len() == 6
        &&& self.attributes@[0]@ == encode_utf8("power"@)
        &&& self.attributes@[1]@ == encode_utf8("blocksize"@)
        &&& self.attributes@[2]@ == encode_utf8("rotational"@)
        &&& self.attributes@[3]@ == encode_utf8("size"@)
        &&& self.attributes@[4]@ == encode_utf8("irqmode"@)
        &&& self.attributes@[5]@ == encode_utf8("completion_nsec"@)
        &&& !data.powered
        &&& data.name@ == name
        &&& data.block_size == 4096
        &&& !data.rotational
        &&& data.capacity_mib == 4096
        &&& data.irq_mode == IRQMode::Direct
        &&& data.completion_time.ns == 0
        &&& data.disk is None
    }
}

/// The configuration of a device.
pub struct DeviceConfig {
    pub data: DeviceConfigInner,
}

/// What the configuration of a device holds.
pub struct DeviceConfigInner {
    pub powered: bool,
    pub name: Vec<u8>,
    pub block_size: u32,
    pub rotational: bool,
    pub capacity_mib: u64,
    pub irq_mode: IRQMode,
    pub completion_time: Ktime,
    pub disk: Option<GenDisk<NullBlkDevice>>,
}

impl DeviceConfig {
    /// There is a disk exactly where the device is switched on, and it is the one that this
    /// configuration asks for. The block size is one that can be used, and the completion time is
    /// not negative.
    pub open spec fn wf(self) -> bool {
        &&& self.data.powered == (self.data.disk is Some)
        &&& self.data.disk matches Some(disk) ==> self.describes(disk)
        &&& valid_block_size(self.data.block_size as int)
        &&& 0 <= self.data.completion_time.ns
    }

    /// `disk` is the one that this configuration asks for.
    pub open spec fn describes(self, disk: GenDisk<NullBlkDevice>) -> bool {
        &&& disk.name@ == self.data.name@
        &&& disk.rotational == self.data.rotational
        &&& disk.logical_block_size == self.data.block_size
        &&& disk.physical_block_size == self.data.block_size
        &&& disk.capacity_sectors == sectors_of_mib(self.data.capacity_mib)
        &&& disk.tagset == (TagSet {
            nr_hw_queues: SUBMIT_QUEUES,
            num_tags: 256,
            num_maps: 1,
            home_node: NUMA_NO_NODE,
        })
        &&& disk.queue_data.irq_mode == self.data.irq_mode
        &&& disk.queue_data.completion_time == self.data.completion_time
        &&& !disk.queue_data.memory_backed
    }
}

/// The result of storing a number in an attribute: `Ok` where it is one that the attribute takes.
pub open spec fn stored(taken: bool) -> Result<()> {
    if taken {
        Ok(())
    } else {
        Err(Error(EINVAL))
    }
}

/// A truth value as an attribute shows it.
pub open spec fn flag(on: bool) -> Seq<u8> {
    seq![
        if on {
            49u8
        } else {
            48u8
        },
        10u8,
    ]
}

fn show_flag(on: bool) -> (r: Vec<u8>)
    ensures
        r@ == flag(on),
{
    let r = if on {
        vec![49u8, 10u8]
    } else {
        vec![48u8, 10u8]
    };
    assert(r@ =~= flag(on));
    r
}

/// The attributes of the configuration of a device, in the order of their numbers.
#[derive(Clone, Copy, Debug, PartialEq, Eq, Structural)]
pub enum Attribute {
    /// `power`: whether the device is switched on.
    Power,
    /// `blocksize`: the block size in bytes.
    BlockSize,
    /// `rotational`: whether the device rotates.
    Rotational,
    /// `size`: the capacity in MiB.
    Size,
    /// `irqmode`: how the completion of a request is delivered.
    IrqMode,
    /// `completion_nsec`: the time in nanoseconds to complete a request.
    CompletionNsec,
}

impl Attribute {
    /// The largest number that can be read for the attribute.
    pub open spec fn limit(self) -> int {
        match self {
            Attribute::Power | Attribute::Rotational | Attribute::IrqMode => u8::MAX as int,
            Attribute::BlockSize => u32::MAX as int,
            Attribute::Size | Attribute::CompletionNsec => u64::MAX as int,
        }
    }

    /// The attribute takes the number `n`.
    pub open spec fn takes(self, n: int) -> bool {
        match self {
            Attribute::BlockSize => valid_block_size(n),
            Attribute::IrqMode => n <= 2,
            Attribute::CompletionNsec => n <= i64::MAX,
            _ => true,
        }
    }
}

impl DeviceConfig {
    /// The text of an attribute.
    pub open spec fn shown(self, attribute: Attribute) -> Seq<u8> {
        match attribute {
            Attribute::Power => flag(self.data.powered),
            Attribute::BlockSize => decimal(self.data.block_size as int).push(10),
            Attribute::Rotational => flag(self.data.rotational),
            Attribute::Size => decimal(self.data.capacity_mib as int).push(10),
            Attribute::IrqMode => decimal(self.data.irq_mode.number()).push(10),
            Attribute::CompletionNsec => signed_decimal(
                self.data.completion_time.ns as int,
            ).push(10),
        }
    }

    /// The number in an attribute.
    pub open spec fn value(self, attribute: Attribute) -> int {
        match attribute {
            Attribute::Power => if self.data.powered {
                1
            } else {
                0
            },
            Attribute::BlockSize => self.data.block_size as int,
            Attribute::Rotational => if self.data.rotational {
                1
            } else {
                0
            },
            Attribute::Size => self.data.capacity_mib as int,
            Attribute::IrqMode => self.data.irq_mode.number(),
            Attribute::CompletionNsec => self.data.completion_time.ns as int,
        }
    }

    /// This configuration with the number `n` in an attribute other than `power`.
    pub open spec fn with(self, attribute: Attribute, n: int) -> DeviceConfig {
        let data = self.data;
        DeviceConfig {
            data: match attribute {
                Attribute::Power => data,
                Attribute::BlockSize => DeviceConfigInner { block_size: n as u32, ..data },
                Attribute::Rotational => DeviceConfigInner { rotational: n != 0, ..data },
                Attribute::Size => DeviceConfigInner { capacity_mib: n as u64, ..data },
                Attribute::IrqMode => DeviceConfigInner {
                    irq_mode: IRQMode::from_number(n),
                    ..data
                },
                Attribute::CompletionNsec => DeviceConfigInner {
                    completion_time: Ktime { ns: n as i64 },
                    ..data
                },
            },
        }
    }

    /// Storing `page` in an attribute other than `power` returns `r`, and makes this configuration
    /// `after`. A device that is switched on is busy; a text that is not a number, or not one that
    /// the attribute takes, is invalid.
    pub open spec fn set(
        self,
        after: DeviceConfig,
        attribute: Attribute,
        page: Seq<u8>,
        r: Result<()>,
    ) -> bool {
        let value = text_value(page, attribute.limit());
        let taken = value is Some && attribute.takes(value->0);
        &&& r == (if self.data.powered {
            Err::<(), Error>(Error(EBUSY))
        } else {
            stored(taken)
        })
        &&& r is Ok ==> after == self.with(attribute, value->0)
        &&& r is Err ==> after == self
    }

    /// Storing `page` in `power` returns `r`, and makes this configuration `after`. A number other
    /// than 0 switches the device on, and 0 switches it off. Where that is no change, nothing
    /// happens.
    pub open spec fn switched(
        self,
        after: DeviceConfig,
        page: Seq<u8>,
        nodes: u32,
        grants_before: Grants,
        grants_after: Grants,
        r: Result<()>,
    ) -> bool {
        let value = text_value(page, Attribute::Power.limit());
        let on = value is Some && value->0 != 0;
        let create = on && !self.data.powered;
        let o = device_outcome(
            self.data.name@,
            self.data.block_size,
            NUMA_NO_NODE,
            nodes,
            grants_before.left as int,
            grants_before.refusal,
        );
        &&& r == (match o.error {
            Some(e) if create => Err::<(), Error>(e),
            _ => stored(value is Some),
        })
        &&& grants_after.refusal == grants_before.refusal
        &&& grants_after.left == (if create {
            o.left
        } else {
            grants_before.left as int
        })
        &&& r is Err ==> after == self
        &&& r is Ok ==> after == (DeviceConfig {
            data: DeviceConfigInner { powered: on, disk: after.data.disk, ..self.data },
        })
        &&& r is Ok && create ==> {
            &&& after.data.disk is Some
            &&& self.describes(after.data.disk->0)
            &&& after.data.disk->0.queue_data.tree.tree@ == Map::<int, Seq<u8>>::empty()
        }
        &&& r is Ok && !on && self.data.powered ==> after.data.disk is None
        &&& r is Ok && on == self.data.powered ==> after == self
    }

    /// Show an attribute.
    pub fn show(&self, attribute: Attribute) -> (r: Vec<u8>)
        ensures
            r@ == self.shown(attribute),
    {
        let mut r: Vec<u8> = Vec::new();
        match attribute {
            Attribute::Power => {
                return show_flag(self.data.powered);
            },
            Attribute::BlockSize => push_decimal(&mut r, self.data.block_size as u64),
            Attribute::Rotational => {
                return show_flag(self.data.rotational);
            },
            Attribute::Size => push_decimal(&mut r, self.data.capacity_mib),
            Attribute::IrqMode => self.data.irq_mode.fmt(&mut r),
            Attribute::CompletionNsec => push_signed_decimal(
                &mut r,
                self.data.completion_time.to_ns(),
            ),
        }
        r.push(10);
        assert(r@ =~= self.shown(attribute));
        r
    }

    /// Store the text of a number in an attribute. `nodes` is the number of NUMA nodes that are
    /// online.
    ///
    /// Storing in `power` switches the device on, which creates its disk, or off, which takes the
    /// disk away. The other attributes can be changed only while the device is switched off.
    pub fn store(&mut self, attribute: Attribute, page: &[u8], nodes: u32, grants: &mut Grants) -> (r:
        Result<()>)
        ensures
            r is Err ==> *final(self) == *old(self),
            old(self).wf() ==> final(self).wf(),
            attribute is Power ==> old(self).switched(
                *final(self),
                page@,
                nodes,
                *old(grants),
                *final(grants),
                r,
            ),
            !(attribute is Power) ==> {
                &&& old(self).set(*final(self), attribute, page@, r)
                &&& *final(grants) == *old(grants)
            },
    {
        proof {
            lemma_text_value(page@, attribute.limit());
        }
        match attribute {
            Attribute::Power => self.store_power(page, nodes, grants),
            Attribute::BlockSize => self.store_blocksize(page),
            Attribute::Rotational => self.store_rotational(page),
            Attribute::Size => self.store_size(page),
            Attribute::IrqMode => self.store_irqmode(page),
            Attribute::CompletionNsec => self.store_completion_nsec(page),
        }
    }

    /// Switches the device on or off.
    fn store_power(&mut self, page: &[u8], nodes: u32, grants: &mut Grants) -> (r: Result<()>)
        ensures
            old(self).switched(*final(self), page@, nodes, *old(grants), *final(grants), r),
    {
        let power_op = match parse_text(page, u8::MAX as u64) {
            Some(n) => n != 0,
            None => {
                return Err(Error(EINVAL));
            },
        };
        if !self.data.powered && power_op {
            let disk = match NullBlkDevice::new(
                self.data.name.as_slice(),
                self.data.block_size,
                self.data.rotational,
                self.data.capacity_mib,
                self.data.irq_mode,
                self.data.completion_time,
                false,
                SUBMIT_QUEUES,
                NUMA_NO_NODE,
                nodes,
                grants,
            ) {
                Ok(disk) => disk,
                Err(e) => {
                    return Err(e);
                },
            };
            self.data.disk = Some(disk);
            self.data.powered = true;
        } else if self.data.powered && !power_op {
            self.data.disk = None;
            self.data.powered = false;
        }
        Ok(())
    }

    /// Sets the block size.
    fn store_blocksize(&mut self, page: &[u8]) -> (r: Result<()>)
        ensures
            old(self).set(*final(self), Attribute::BlockSize, page@, r),
    {
        if self.data.powered {
            return Err(Error(EBUSY));
        }
        let value = match parse_text(page, u32::MAX as u64) {
            Some(n) => n as u32,
            None => {
                return Err(Error(EINVAL));
            },
        };
        match GenDiskBuilder::validate_block_size(value) {
            Ok(()) => {},
            Err(e) => {
                return Err(e);
            },
        }
        self.data.block_size = value;
        Ok(())
    }

    /// Says whether the device rotates.
    fn store_rotational(&mut self, page: &[u8]) -> (r: Result<()>)
        ensures
            old(self).set(*final(self), Attribute::Rotational, page@, r),
    {
        if self.data.powered {
            return Err(Error(EBUSY));
        }
        match parse_text(page, u8::MAX as u64) {
            Some(n) => {
                self.data.rotational = n != 0;
                Ok(())
            },
            None => Err(Error(EINVAL)),
        }
    }

    /// Sets the capacity.
    fn store_size(&mut self, page: &[u8]) -> (r: Result<()>)
        ensures
            old(self).set(*final(self), Attribute::Size, page@, r),
    {
        if self.data.powered {
            return Err(Error(EBUSY));
        }
        match parse_text(page, u64::MAX) {
            Some(n) => {
                self.data.capacity_mib = n;
                Ok(())
            },
            None => Err(Error(EINVAL)),
        }
    }

    /// Sets how the completion of requests is delivered.
    fn store_irqmode(&mut self, page: &[u8]) -> (r: Result<()>)
        ensures
            old(self).set(*final(self), Attribute::IrqMode, page@, r),
    {
        if self.data.powered {
            return Err(Error(EBUSY));
        }
        let value = match parse_text(page, u8::MAX as u64) {
            Some(n) => n as u8,
            None => {
                return Err(Error(EINVAL));
            },
        };
        match IRQMode::try_from(value) {
            Ok(mode) => {
                self.data.irq_mode = mode;
                Ok(())
            },
            Err(e) => Err(e),
        }
    }

    /// Sets the time to complete a request.
    fn store_completion_nsec(&mut self, page: &[u8]) -> (r: Result<()>)
        ensures
            old(self).set(*final(self), Attribute::CompletionNsec, page@, r),
    {
        if self.data.powered {
            return Err(Error(EBUSY));
        }
        let value = match parse_text(page, u64::MAX) {
            Some(n) => n,
            None => {
                return Err(Error(EINVAL));
            },
        };
        if value > i64::MAX as u64 {
            return Err(Error(EINVAL));
        }
        self.data.completion_time = Ktime::from_nanos(value as i64);
        Ok(())
    }
}

/// A new configuration is a good one.
pub proof fn law_new_group_is_good(group: Group, name: Seq<u8>)
    requires
        group.is_new(name),
    ensures
        group.data.wf(),
{
}

/// What an attribute shows fits in the page that it is read through.
pub proof fn law_shown_fits_in_a_page(config: DeviceConfig, attribute: Attribute)
    ensures
        config.shown(attribute).len() <= PAGE_SIZE,
{
    reveal_with_fuel(power_of_ten, 21);
    lemma_decimal_len(config.data.block_size as int, 20);
    lemma_decimal_len(config.data.capacity_mib as int, 20);
    lemma_decimal_len(config.data.irq_mode.number(), 20);
    let ns = config.data.completion_time.ns as int;
    lemma_decimal_len(
        if ns < 0 {
            -ns
        } else {
            ns
        },
        20,
    );
}

/// What an attribute shows can be stored in it again, and that changes nothing.
pub proof fn law_shown_can_be_stored(config: DeviceConfig, attribute: Attribute)
    requires
        config.wf(),
        !(attribute is Power),
    ensures
        ({
            let value = text_value(config.shown(attribute), attribute.limit());
            &&& value is Some
            &&& attribute.takes(value->0)
            &&& config.with(attribute, value->0) == config
        }),
{
    let n = config.value(attribute);
    lemma_flag(config.data.rotational);
    law_decimal_is_read_back(n, attribute.limit());
    assert(config.shown(attribute) == decimal(n).push(10));
}

/// What `power` shows can be stored in it again, and that leaves the device as it is.
pub proof fn law_shown_power_can_be_stored(config: DeviceConfig)
    ensures
        text_value(config.shown(Attribute::Power), Attribute::Power.limit()) == Some(
            config.value(Attribute::Power),
        ),
        (config.value(Attribute::Power) != 0) == config.data.powered,
{
    lemma_flag(config.data.powered);
    law_decimal_is_read_back(config.value(Attribute::Power), Attribute::Power.limit());
}

/// A number that was stored in an attribute is the one that it shows. What says whether the device
/// rotates shows 1 for any number other than 0.
pub proof fn law_stored_is_shown(config: DeviceConfig, attribute: Attribute, n: int)
    requires
        !(attribute is Power),
        0 <= n <= attribute.limit(),
        attribute.takes(n),
    ensures
        config.with(attribute, n).shown(attribute) == decimal(
            if attribute is Rotational && n != 0 {
                1
            } else {
                n
            },
        ).push(10),
{
    lemma_flag(n != 0);
}

/// A truth value shows as the number 1 or 0.
proof fn lemma_flag(on: bool)
    ensures
        flag(on) == decimal(
            if on {
                1
            } else {
                0
            },
        ).push(10),
{
    assert(decimal(1) =~= seq![49u8]);
    assert(decimal(0) =~= seq![48u8]);
    assert(flag(on) =~= decimal(
        if on {
            1
        } else {
            0
        },
    ).push(10));
}

/// The numbers 0, 1 and 2 stand for the interrupt modes, one for one, and no other number does.
pub proof fn law_irq_mode_numbers(mode: IRQMode, n: u8)
    ensures
        IRQMode::from_number(mode.number()) == mode,
        <IRQMode as TryFromSpec<u8>>::try_from_spec(n) == (if n <= 2 {
            Ok::<IRQMode, Error>(IRQMode::from_number(n as int))
        } else {
            Err::<IRQMode, Error>(Error(EINVAL))
        }),
        n <= 2 ==> IRQMode::from_number(n as int).number() == n,
{
}

} // verus!
