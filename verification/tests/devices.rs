use rnull::block::device::{BlockDevice, BlockDeviceType, QueueLimits, RawBlockDevice, RequestQueue};
use rnull::device::{Device, DeviceType, TypedDevice};
use rnull::error::{Error, EINVAL, EIO, ENODEV, ENOENT};
use rnull::subsys::{get_subsys_by_class_name, Class, ClassKset, SubsysPrivate};
use rnull::types::{ARef, RefCounted};

type Block = BlockDeviceType<64>;

fn device(addr: usize, class: &[u8], devt: u32, name: &[u8]) -> Device {
    Device {
        addr,
        refcount: 1,
        class: class.to_vec(),
        devt,
        name: name.to_vec(),
        properties: vec![b"label".to_vec(), b"removable".to_vec()],
    }
}

fn classes() -> Option<ClassKset> {
    Some(ClassKset {
        subsystems: vec![
            SubsysPrivate {
                addr: 0x10,
                refcount: 1,
                class: Class { name: b"net".to_vec() },
                devices: vec![device(0x900, b"net", 5, b"eth0")],
            },
            SubsysPrivate {
                addr: 0x20,
                refcount: 1,
                class: Class { name: b"block".to_vec() },
                devices: vec![
                    device(0x1000, b"block", 3 << 20 | 1, b"sda"),
                    device(0x2000, b"block", 3 << 20 | 2, b"sdb\n"),
                    device(0x3000, b"block", 3 << 20 | 2, b"sdc"),
                ],
            },
        ],
    })
}

fn counts(classes: &Option<ClassKset>) -> Vec<i32> {
    let mut out = Vec::new();
    if let Some(kset) = classes {
        for sp in &kset.subsystems {
            out.push(sp.refcount);
            for d in &sp.devices {
                out.push(d.refcount);
            }
        }
    }
    out
}

fn ptr<T>(r: Result<ARef<T>, Error>) -> Result<usize, Error> {
    r.map(ARef::into_raw)
}

#[test]
fn subsystems_are_found_by_name() {
    let mut c = classes();
    assert_eq!(ptr(get_subsys_by_class_name(&mut c, b"block")), Ok(0x20));
    assert_eq!(counts(&c), vec![1, 1, 2, 1, 1, 1]);
    assert_eq!(ptr(get_subsys_by_class_name(&mut c, b"input")), Err(Error(ENOENT)));
    assert_eq!(ptr(get_subsys_by_class_name(&mut None, b"block")), Err(Error(ENOENT)));
    if let Some(kset) = &mut c {
        assert_eq!(kset.subsystems[1].class().name, b"block".to_vec());
        kset.subsystems[1].dec_ref();
        kset.subsystems[0].inc_ref();
    }
    assert_eq!(counts(&c), vec![2, 1, 1, 1, 1, 1]);
    assert_eq!(ARef::into_raw(SubsysPrivate::from_raw(0x33)), 0x33);
}

#[test]
fn devices_are_found_by_number_and_by_name() {
    let mut c = classes();
    assert_eq!(ptr(Device::from_major_minor(&mut c, b"block", 3, 2)), Ok(0x2000));
    assert_eq!(counts(&c), vec![1, 1, 1, 1, 3, 1]);
    assert_eq!(ptr(Device::from_devt(&mut c, b"net", 5)), Ok(0x900));
    assert_eq!(ptr(Device::from_name(&mut c, b"block", b"sdb")), Ok(0x2000));
    assert_eq!(ptr(Device::from_name(&mut c, b"block", b"sda\n")), Ok(0x1000));
    assert_eq!(counts(&c), vec![1, 3, 1, 3, 5, 1]);
    assert_eq!(ptr(Device::from_devt(&mut c, b"input", 5)), Err(Error(ENOENT)));
    assert_eq!(counts(&c), vec![1, 3, 1, 3, 5, 1]);
}

#[test]
fn devices_that_are_not_there() {
    let mut c = classes();
    assert_eq!(ptr(Device::from_devt(&mut c, b"block", 77)), Err(Error(EINVAL)));
    assert_eq!(ptr(Device::from_major_minor(&mut c, b"block", 8, 1)), Err(Error(EINVAL)));
    assert_eq!(ptr(Device::from_name(&mut c, b"net", b"eth")), Err(Error(EINVAL)));
    assert_eq!(counts(&c), vec![1, 1, 1, 1, 1, 1]);
}

#[test]
fn two_numbers_are_looked_up_as_one() {
    let number = 8 * 1_048_576 + 1;
    let mut c = classes();
    if let Some(kset) = &mut c {
        kset.subsystems[1].devices.push(device(0x4000, b"block", number, b"sdd"));
    }
    assert_eq!(ptr(Device::from_major_minor(&mut c, b"block", 8, 1)), Ok(0x4000));
    assert_eq!(ptr(Device::from_devt(&mut c, b"block", number)), Ok(0x4000));
}

#[test]
fn typed_devices_are_found_by_number_and_by_name() {
    let mut c = classes();
    assert_eq!(ptr(TypedDevice::<Block>::from_devt(&mut c, b"block", 3 << 20 | 1)), Ok(0x1000 - 64));
    assert_eq!(ptr(TypedDevice::<Block>::from_major_minor(&mut c, b"block", 3, 2)), Ok(0x2000 - 64));
    assert_eq!(ptr(TypedDevice::<Block>::from_name(&mut c, b"block", b"sdc")), Ok(0x3000 - 64));
    assert_eq!(counts(&c), vec![1, 1, 1, 3, 3, 3]);
}

#[test]
fn typed_devices_that_cannot_be_had() {
    let mut c = classes();
    let wrong = TypedDevice::<Block>::from_name(&mut c, b"net", b"eth0");
    assert_eq!(ptr(wrong), Err(Error(EINVAL)));
    assert_eq!(counts(&c), vec![1, 2, 1, 1, 1, 1]);
    let missing = TypedDevice::<Block>::from_devt(&mut c, b"block", 77);
    assert_eq!(ptr(missing), Err(Error(EINVAL)));
    let class = TypedDevice::<Block>::from_devt(&mut c, b"input", 77);
    assert_eq!(ptr(class), Err(Error(ENOENT)));
    assert_eq!(counts(&c), vec![1, 2, 1, 1, 1, 1]);
}

#[test]
fn generic_and_typed_references() {
    let mut d = device(0x1000, b"block", 1, b"sda");
    assert_eq!(ptr(TypedDevice::<Block>::from_generic_ptr(None)), Err(Error(ENODEV)));
    assert_eq!(ptr(TypedDevice::<Block>::from_generic_ptr(Some(&mut d))), Ok(0x1000 - 64));
    assert_eq!(d.refcount, 2);
    let typed = TypedDevice::<Block>::try_from(ARef::from_raw(0x1000), &mut d);
    assert_eq!(typed.map(ARef::into_raw).ok(), Some(0x1000 - 64));
    assert_eq!(d.refcount, 2);
    let generic = TypedDevice::<Block>::into_generic(ARef::from_raw(0x1000 - 64), &mut d);
    assert_eq!(ARef::into_raw(generic), 0x1000);
    assert_eq!(d.refcount, 3);
    let mut other = device(0x900, b"net", 5, b"eth0");
    let refused = TypedDevice::<Block>::try_from(ARef::from_raw(0x900), &mut other);
    assert_eq!(refused.map_err(ARef::into_raw).err(), Some(0x900));
    assert_eq!(ptr(TypedDevice::<Block>::from_generic_ptr(Some(&mut other))), Err(Error(EINVAL)));
    assert_eq!(other.refcount, 1);
    assert_eq!(Block::as_generic(Block::as_typed(0x1000)), 0x1000);
}

#[test]
fn paths_lead_to_block_devices() {
    let mut c = classes();
    assert_eq!(ptr(BlockDevice::<64>::from_path(&mut c, 0, 3 << 20 | 1)), Ok(0x1000 - 64));
    assert_eq!(ptr(BlockDevice::<64>::from_path(&mut c, -2, 0)), Err(Error(ENOENT)));
    assert_eq!(ptr(BlockDevice::<64>::from_path(&mut c, 1, 0)), Err(Error(EINVAL)));
    assert_eq!(ptr(BlockDevice::<64>::from_path(&mut c, -5000, 0)), Err(Error(EINVAL)));
    assert_eq!(ptr(BlockDevice::<64>::from_path(&mut c, 0, 9)), Err(Error(EINVAL)));
    assert_eq!(counts(&c), vec![1, 1, 1, 3, 1, 1]);
}

#[test]
fn errors_and_numbers() {
    assert_eq!(Error::from_errno(-5), Error(EIO));
    assert_eq!(Error(EIO).to_errno(), -5);
    assert_eq!(Error::from_errno(-4095), Error(-4095));
    assert_eq!(Error::from_errno(0), Error(EINVAL));
}

#[test]
fn block_devices_tell_their_sizes() {
    let mut b: BlockDevice<64> = TypedDevice {
        ptr: 0x1000 - 64,
        raw: RawBlockDevice {
            bd_device: device(0x1000, b"block", 1, b"sda"),
            bd_nr_sectors: 2048,
            bd_queue: RequestQueue {
                limits: QueueLimits { logical_block_size: 512, physical_block_size: 4096 },
            },
        },
    };
    assert_eq!(b.capacity_sectors(), 2048);
    assert_eq!(b.logical_block_size(), 512);
    assert_eq!(b.physical_block_size(), 4096);
    assert_eq!(b.as_raw(), 0x1000 - 64);
    assert_eq!(b.as_raw_ref().bd_nr_sectors, 2048);
    b.inc_ref();
    b.inc_ref();
    b.dec_ref();
    assert_eq!(b.as_device().refcount, 2);
    assert_eq!(b.as_device().as_raw(), 0x1000);
}

#[test]
fn messages_carry_their_level() {
    let d = device(0x1000, b"block", 1, b"sda");
    let levels = vec![
        d.pr_emerg(b"a").klevel,
        d.pr_alert(b"a").klevel,
        d.pr_crit(b"a").klevel,
        d.pr_err(b"a").klevel,
        d.pr_warn(b"a").klevel,
        d.pr_notice(b"a").klevel,
        d.pr_info(b"a").klevel,
    ];
    assert_eq!(levels, vec![0, 1, 2, 3, 4, 5, 6]);
    let record = d.pr_info(b"hello");
    assert_eq!((record.device, record.message), (0x1000, b"hello".to_vec()));
    assert!(d.pr_dbg(b"a", false).is_none());
    assert_eq!(d.pr_dbg(b"a", true).map(|r| r.klevel), Some(7));
}

#[test]
fn properties_and_references_of_devices() {
    let mut d = device(0x1000, b"block", 1, b"sda");
    assert!(d.property_present(b"removable"));
    assert!(!d.property_present(b"remov"));
    assert_eq!(ARef::into_raw(Device::get_device(&mut d)), 0x1000);
    d.dec_ref();
    d.dec_ref();
    assert_eq!(d.refcount, 0);
}
