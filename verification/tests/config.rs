use rnull::block::mq::gen_disk::GenDiskBuilder;
use rnull::block::mq::tag_set::TagSet;
use rnull::error::{Error, EBUSY, EINVAL, ENOMEM};
use rnull::grants::Grants;
use rnull::rnull::configfs::{subsystem, Attribute, Config, DeviceConfig, IRQMode};
use rnull::rnull::module::{ModuleParameters, NullBlkModule};
use rnull::rnull::NullBlkDevice;
use rnull::text::{parse_text, push_decimal, push_number, push_signed_decimal, push_text, same_bytes};
use rnull::time::Ktime;

fn grants(left: u64) -> Grants {
    Grants { left, refusal: Error(ENOMEM) }
}

fn config() -> DeviceConfig {
    match (Config {}).make_group(b"nullb0", &mut grants(2)) {
        Ok(group) => group.data,
        Err(_) => panic!("no group"),
    }
}

fn store(c: &mut DeviceConfig, attribute: Attribute, text: &[u8]) -> Result<(), Error> {
    c.store(attribute, text, 4, &mut grants(100))
}

const ALL: [Attribute; 6] = [
    Attribute::Power,
    Attribute::BlockSize,
    Attribute::Rotational,
    Attribute::Size,
    Attribute::IrqMode,
    Attribute::CompletionNsec,
];

#[test]
fn the_subsystem_and_its_features() {
    match subsystem(&mut grants(1)) {
        Ok(s) => {
            assert_eq!(s.name, b"rnull".to_vec());
            assert_eq!(s.attributes, vec![b"features".to_vec()]);
        }
        Err(_) => panic!("no subsystem"),
    }
    assert_eq!(subsystem(&mut grants(0)).err(), Some(Error(ENOMEM)));
    assert_eq!(
        Config {}.show(),
        b"blocksize,size,rotational,irqmode,completion_nsec\n".to_vec()
    );
}

#[test]
fn a_new_group_has_the_defaults() {
    let mut g = grants(5);
    match (Config {}).make_group(b"nullb0", &mut g) {
        Ok(group) => {
            assert_eq!(group.name, b"nullb0".to_vec());
            assert_eq!(
                group.attributes,
                vec![
                    b"power".to_vec(),
                    b"blocksize".to_vec(),
                    b"rotational".to_vec(),
                    b"size".to_vec(),
                    b"irqmode".to_vec(),
                    b"completion_nsec".to_vec(),
                ]
            );
        }
        Err(_) => panic!("no group"),
    }
    assert_eq!(g.left, 3);
    let c = config();
    let shown: Vec<Vec<u8>> = ALL.iter().map(|a| c.show(*a)).collect();
    let expected: Vec<&[u8]> = vec![b"0\n", b"4096\n", b"0\n", b"4096\n", b"0\n", b"0\n"];
    assert_eq!(shown, expected);
    assert_eq!(Config {}.make_group(b"x", &mut grants(1)).err(), Some(Error(ENOMEM)));
}

#[test]
fn stored_numbers_are_shown() {
    let mut c = config();
    assert_eq!(store(&mut c, Attribute::BlockSize, b" 512\n"), Ok(()));
    assert_eq!(store(&mut c, Attribute::Rotational, b"+7\n"), Ok(()));
    assert_eq!(store(&mut c, Attribute::Size, b"18446744073709551615"), Ok(()));
    assert_eq!(store(&mut c, Attribute::IrqMode, b"2\n"), Ok(()));
    assert_eq!(store(&mut c, Attribute::CompletionNsec, b"9223372036854775807\n"), Ok(()));
    let shown: Vec<Vec<u8>> = ALL.iter().map(|a| c.show(*a)).collect();
    let expected: Vec<&[u8]> = vec![
        b"0\n",
        b"512\n",
        b"1\n",
        b"18446744073709551615\n",
        b"2\n",
        b"9223372036854775807\n",
    ];
    assert_eq!(shown, expected);
    for a in ALL {
        let text = c.show(a);
        assert_eq!(store(&mut c, a, &text), Ok(()));
        assert_eq!(c.show(a), text);
    }
    assert!(!c.data.powered);
}

#[test]
fn invalid_numbers_are_refused() {
    let mut c = config();
    let cases: Vec<(Attribute, &[u8])> = vec![
        (Attribute::BlockSize, b"513"),
        (Attribute::BlockSize, b"256"),
        (Attribute::BlockSize, b"8192"),
        (Attribute::BlockSize, b"4294967808"),
        (Attribute::BlockSize, b"0"),
        (Attribute::Rotational, b"256"),
        (Attribute::Rotational, b"-1"),
        (Attribute::Size, b"18446744073709551616"),
        (Attribute::Size, b""),
        (Attribute::Size, b"+"),
        (Attribute::Size, b"1 2"),
        (Attribute::Size, b"\xff1"),
        (Attribute::IrqMode, b"3"),
        (Attribute::IrqMode, b"300"),
        (Attribute::CompletionNsec, b"9223372036854775808"),
        (Attribute::CompletionNsec, b"ten"),
        (Attribute::Power, b"on"),
        (Attribute::Power, b"256"),
    ];
    for (a, text) in cases {
        let before = c.show(a);
        assert_eq!(store(&mut c, a, text), Err(Error(EINVAL)));
        assert_eq!(c.show(a), before);
    }
}

#[test]
fn switching_a_device_on_and_off() {
    let mut c = config();
    assert_eq!(store(&mut c, Attribute::BlockSize, b"1024"), Ok(()));
    assert_eq!(store(&mut c, Attribute::Size, b"3"), Ok(()));
    let mut g = grants(3);
    assert_eq!(c.store(Attribute::Power, b"1\n", 4, &mut g), Ok(()));
    assert_eq!(g.left, 0);
    assert!(c.data.powered);
    match &c.data.disk {
        Some(disk) => {
            assert_eq!(disk.name, b"nullb0".to_vec());
            assert_eq!(disk.logical_block_size, 1024);
            assert_eq!(disk.physical_block_size, 1024);
            assert_eq!(disk.capacity_sectors, 3 * 2048);
            assert_eq!(disk.tagset, TagSet::new(1, 256, 1, -1));
            assert!(!disk.queue_data.memory_backed);
        }
        None => panic!("no disk"),
    }
    for a in &ALL[1..] {
        assert_eq!(store(&mut c, *a, b"1"), Err(Error(EBUSY)));
        assert_eq!(store(&mut c, *a, b"nonsense"), Err(Error(EBUSY)));
    }
    assert_eq!(c.store(Attribute::Power, b"2", 4, &mut grants(0)), Ok(()));
    assert!(c.data.powered);
    assert_eq!(c.store(Attribute::Power, b"0", 4, &mut grants(0)), Ok(()));
    assert!(!c.data.powered);
    assert!(c.data.disk.is_none());
    assert_eq!(c.show(Attribute::BlockSize), b"1024\n".to_vec());
}

#[test]
fn a_device_that_cannot_be_created_stays_off() {
    let mut c = config();
    let mut g = grants(2);
    assert_eq!(c.store(Attribute::Power, b"1", 4, &mut g), Err(Error(ENOMEM)));
    assert!(!c.data.powered);
    assert!(c.data.disk.is_none());
    c.data.name = vec![0xff];
    assert_eq!(c.store(Attribute::Power, b"1", 4, &mut grants(9)), Err(Error(EINVAL)));
    assert!(!c.data.powered);
}

#[test]
fn irq_modes_from_numbers() {
    assert_eq!(IRQMode::try_from(0), Ok(IRQMode::Direct));
    assert_eq!(IRQMode::try_from(1), Ok(IRQMode::Soft));
    assert_eq!(IRQMode::try_from(2), Ok(IRQMode::Timer));
    assert_eq!(IRQMode::try_from(3), Err(Error(EINVAL)));
    for (n, mode) in [IRQMode::Direct, IRQMode::Soft, IRQMode::Timer].iter().enumerate() {
        let mut out = Vec::new();
        mode.fmt(&mut out);
        assert_eq!(out, vec![b'0' + n as u8]);
    }
}

#[test]
fn block_sizes() {
    for size in [512, 1024, 2048, 4096] {
        assert_eq!(GenDiskBuilder::validate_block_size(size), Ok(()));
    }
    for size in [0, 1, 256, 511, 513, 1536, 4095, 8192, u32::MAX] {
        assert_eq!(GenDiskBuilder::validate_block_size(size), Err(Error(EINVAL)));
    }
    let b = GenDiskBuilder::new();
    assert_eq!((b.logical_block_size, b.physical_block_size, b.capacity_sectors), (512, 512, 0));
    assert_eq!(b.logical_block_size(3).err(), Some(Error(EINVAL)));
    assert_eq!(b.physical_block_size(3).err(), Some(Error(EINVAL)));
    assert!(b.rotational(true).rotational);
}

fn create(block_size: u32, home_node: i32, nodes: u32, g: &mut Grants) -> Result<u64, Error> {
    NullBlkDevice::new(
        b"d",
        block_size,
        true,
        1 << 53,
        IRQMode::Soft,
        Ktime::from_nanos(7),
        true,
        5,
        home_node,
        nodes,
        g,
    )
    .map(|disk| disk.capacity_sectors)
}

#[test]
fn creating_a_device() {
    let mut g = grants(3);
    let disk = match NullBlkDevice::new(
        b"d",
        512,
        true,
        (1 << 53) + 5,
        IRQMode::Soft,
        Ktime::from_nanos(7),
        true,
        5,
        2,
        2,
        &mut g,
    ) {
        Ok(disk) => disk,
        Err(_) => panic!("no disk"),
    };
    assert_eq!(disk.capacity_sectors, 5 * 2048);
    assert!(disk.rotational);
    assert_eq!(disk.tagset, TagSet::new(5, 256, 1, 2));
    assert_eq!(disk.queue_data.irq_mode, IRQMode::Soft);
    assert_eq!(disk.queue_data.completion_time.to_ns(), 7);
    assert!(disk.queue_data.memory_backed);
    assert_eq!(g.left, 0);
}

#[test]
fn devices_that_cannot_be_created() {
    let mut g = grants(9);
    assert_eq!(create(512, 3, 2, &mut g), Err(Error(EINVAL)));
    assert_eq!(create(512, -1, 0x8000_0000, &mut g), Err(Error(EINVAL)));
    assert_eq!(g.left, 9);
    assert_eq!(create(100, 2, 2, &mut g), Err(Error(EINVAL)));
    assert_eq!(g.left, 7);
    assert_eq!(create(512, 2, 2, &mut grants(0)), Err(Error(ENOMEM)));
    assert_eq!(create(512, 2, 2, &mut grants(1)), Err(Error(ENOMEM)));
    assert_eq!(create(512, 2, 2, &mut grants(2)), Err(Error(ENOMEM)));
    assert_eq!(create(512, 2, 2, &mut grants(3)), Ok(0));
}

#[test]
fn the_module_creates_the_devices_that_are_asked_for() {
    let defaults = ModuleParameters::default();
    assert_eq!(
        (defaults.gb, defaults.bs, defaults.nr_devices, defaults.completion_nsec),
        (4096, 4096, 1, 10_000)
    );
    let params = ModuleParameters {
        nr_devices: 12,
        irqmode: 2,
        use_per_node_hctx: 1,
        memory_backed: 1,
        rotational: 3,
        ..defaults
    };
    let mut g = grants(61);
    let module = match NullBlkModule::init(&params, 4, &mut g) {
        Ok(module) => module,
        Err(_) => panic!("not loaded"),
    };
    assert_eq!(g.left, 0);
    assert_eq!(module.configfs_subsystem.name, b"rnull".to_vec());
    assert_eq!(module.param_disks.len(), 12);
    let last = &module.param_disks[11];
    assert_eq!(last.name, b"rnullb11".to_vec());
    assert_eq!(last.capacity_sectors, 4096 * 1024 * 2048);
    assert_eq!(last.tagset, TagSet::new(4, 256, 1, -1));
    assert_eq!(last.queue_data.irq_mode, IRQMode::Timer);
    assert_eq!(last.queue_data.completion_time.to_ns(), 10_000);
    assert!(last.queue_data.memory_backed);
    assert!(last.rotational);
}

#[test]
fn the_module_refuses_parameters_that_cannot_be_used() {
    let defaults = ModuleParameters::default();
    let err = |params: ModuleParameters| NullBlkModule::init(&params, 4, &mut grants(99)).err();
    assert_eq!(
        err(ModuleParameters { completion_nsec: 1 << 63, ..defaults }),
        Some(Error(EINVAL))
    );
    assert_eq!(err(ModuleParameters { irqmode: 3, ..defaults }), Some(Error(EINVAL)));
    assert_eq!(err(ModuleParameters { bs: 1000, ..defaults }), Some(Error(EINVAL)));
    assert_eq!(err(ModuleParameters { home_node: 5, ..defaults }), Some(Error(EINVAL)));
    assert_eq!(err(ModuleParameters { nr_devices: 0, irqmode: 9, ..defaults }), None);
    for left in 0..6 {
        let r = NullBlkModule::init(&defaults, 4, &mut grants(left)).err();
        assert_eq!(r, Some(Error(ENOMEM)));
    }
    assert!(NullBlkModule::init(&defaults, 4, &mut grants(6)).is_ok());
}

#[test]
fn numbers_as_text() {
    let mut out = Vec::new();
    push_decimal(&mut out, 0);
    push_text(&mut out, " ");
    push_decimal(&mut out, u64::MAX);
    push_text(&mut out, " ");
    push_number(&mut out, 0xdead_beef, 16);
    push_text(&mut out, " ");
    push_signed_decimal(&mut out, i64::MIN);
    assert_eq!(out, b"0 18446744073709551615 deadbeef -9223372036854775808".to_vec());
}

#[test]
fn text_as_numbers() {
    assert_eq!(parse_text(b"0000255", 255), Some(255));
    assert_eq!(parse_text(b"256", 255), None);
    assert_eq!(parse_text("\u{2003}\u{a0}+12\u{3000}\n".as_bytes(), 255), Some(12));
    assert_eq!(parse_text(b"++1", 255), None);
    assert_eq!(parse_text(b"1_0", 255), None);
    assert_eq!(parse_text(b" \t\r\n", 255), None);
    assert_eq!(parse_text("\u{663}".as_bytes(), 255), None);
    assert_eq!(parse_text(b"\xc3\x28", 255), None);
    assert_eq!(parse_text(b"0", 0), Some(0));
    assert!(same_bytes(b"abc", b"abc"));
    assert!(!same_bytes(b"abc", b"abd"));
    assert!(!same_bytes(b"abc", b"ab"));
}
