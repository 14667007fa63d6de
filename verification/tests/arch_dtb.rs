//! Device trees.

use axiomos::arch::boot::BootInfo;
use axiomos::arch::dtb::{is_readable, parse, DeviceTreeInfo, DtbParseError, MemoryRegion};
use axiomos::arch::phys::{boot_regions, reserved_regions, total_memory, PhysRegion};

/// Builds device trees.
struct Tree {
    structure: Vec<u8>,
    strings: Vec<u8>,
}

impl Tree {
    fn new() -> Self {
        Tree { structure: Vec::new(), strings: Vec::new() }
    }

    fn word(&mut self, value: u32) {
        self.structure.extend_from_slice(&value.to_be_bytes());
    }

    fn pad(&mut self) {
        while self.structure.len() % 4 != 0 {
            self.structure.push(0);
        }
    }

    fn begin(&mut self, name: &str) {
        self.word(1);
        self.structure.extend_from_slice(name.as_bytes());
        self.structure.push(0);
        self.pad();
    }

    fn end(&mut self) {
        self.word(2);
    }

    fn prop(&mut self, name: &str, value: &[u8]) {
        let offset = self.strings.len() as u32;
        self.strings.extend_from_slice(name.as_bytes());
        self.strings.push(0);
        self.word(3);
        self.word(value.len() as u32);
        self.word(offset);
        self.structure.extend_from_slice(value);
        self.pad();
    }

    fn blob(&self) -> Vec<u8> {
        let structure_at = 56u32;
        let strings_at = structure_at + self.structure.len() as u32;
        let total = strings_at + self.strings.len() as u32;
        let mut blob = Vec::new();
        for value in [
            0xd00d_feed,
            total,
            structure_at,
            strings_at,
            40,
            17,
            16,
            0,
            self.strings.len() as u32,
            self.structure.len() as u32,
        ] {
            blob.extend_from_slice(&value.to_be_bytes());
        }
        blob.extend_from_slice(&[0; 16]);
        blob.extend_from_slice(&self.structure);
        blob.extend_from_slice(&self.strings);
        blob
    }
}

fn cells(values: &[u64]) -> Vec<u8> {
    let mut bytes = Vec::new();
    for value in values {
        bytes.extend_from_slice(&value.to_be_bytes());
    }
    bytes
}

fn tree_with(reg: &[u8]) -> Vec<u8> {
    let mut tree = Tree::new();
    tree.begin("");
    tree.prop("#address-cells", &2u32.to_be_bytes());
    tree.prop("#size-cells", &2u32.to_be_bytes());
    tree.begin("chosen");
    tree.prop("bootargs", b"quiet\0");
    tree.begin("inner@1");
    tree.end();
    tree.end();
    tree.begin("memory@40000000");
    tree.prop("device_type", b"memory\0");
    tree.prop("reg", reg);
    tree.end();
    tree.end();
    tree.word(9);
    tree.blob()
}

#[test]
fn regions_come_from_the_memory_node() {
    let blob = tree_with(&cells(&[0x4000_0000, 0x1000_0000, 0x8000_0000, 0, 0x9000_0000, 0x2000]));
    assert!(is_readable(&blob));
    let mut info = DeviceTreeInfo::empty();
    assert_eq!(parse(&mut info, 0x4800_0000, &blob), Ok(()));
    assert_eq!(
        info.memory_regions(),
        vec![
            MemoryRegion { base: 0x4000_0000, size: 0x1000_0000 },
            MemoryRegion { base: 0x9000_0000, size: 0x2000 },
        ]
    );
    assert_eq!(total_memory(&info), 0x1000_2000);
    assert_eq!(info.dtb_start, 0x4800_0000);
    assert_eq!(info.dtb_size, blob.len());
    assert_eq!(
        boot_regions(&info),
        vec![
            PhysRegion { base: 0x4000_0000, length: 0x1000_0000 },
            PhysRegion { base: 0x9000_0000, length: 0x2000 },
        ]
    );
    let (tree, kernel) = reserved_regions(&info, 0x8_0000, 0x18_0000);
    assert_eq!(tree, PhysRegion { base: 0x4800_0000, length: blob.len() as u64 });
    assert_eq!(kernel, PhysRegion { base: 0x8_0000, length: 0x10_0000 });
}

#[test]
fn bytes_behind_the_tree_are_not_read() {
    let mut blob = tree_with(&cells(&[0x4000_0000, 0x1000]));
    let size = blob.len();
    blob.extend_from_slice(&[0xAA; 100]);
    let mut info = DeviceTreeInfo::empty();
    assert_eq!(parse(&mut info, 1, &blob), Ok(()));
    assert_eq!(info.dtb_size, size);
    assert_eq!(info.total_memory, 0x1000);
}

#[test]
fn only_eight_regions_are_kept() {
    let mut values = Vec::new();
    for i in 0..12u64 {
        values.push(0x1_0000_0000 * (i + 1));
        values.push(0x1000 + i);
    }
    let blob = tree_with(&cells(&values));
    let mut info = DeviceTreeInfo::empty();
    assert_eq!(parse(&mut info, 1, &blob), Ok(()));
    assert_eq!(info.memory_region_count, 8);
    assert_eq!(info.total_memory, 8 * 0x1000 + 28);
    assert_eq!(info.memory_regions()[7], MemoryRegion { base: 0x8_0000_0000, size: 0x1007 });
}

#[test]
fn total_memory_saturates() {
    let blob = tree_with(&cells(&[0, u64::MAX, 0, 5]));
    let mut info = DeviceTreeInfo::empty();
    assert_eq!(parse(&mut info, 1, &blob), Ok(()));
    assert_eq!(info.total_memory, usize::MAX);
}

#[test]
fn recorded_regions_are_those_with_a_size() {
    let mut info = DeviceTreeInfo::empty();
    info.record(7, 9, &vec![(1, None), (2, Some(0)), (3, Some(4)), (5, Some(6))]);
    assert_eq!(
        info.memory_regions(),
        vec![MemoryRegion { base: 3, size: 4 }, MemoryRegion { base: 5, size: 6 }]
    );
    assert_eq!(info.total_memory, 10);
    assert_eq!((info.dtb_start, info.dtb_size), (7, 9));
}

fn assert_fallback(info: &DeviceTreeInfo, dtb_addr: usize) {
    assert_eq!(
        info.memory_regions(),
        vec![MemoryRegion { base: 0x4000_0000, size: 0x4000_0000 }]
    );
    assert_eq!(info.total_memory, 0x4000_0000);
    assert_eq!(info.dtb_start, dtb_addr);
    assert_eq!(info.dtb_size, 0x10000);
}

#[test]
fn missing_tree_falls_back() {
    let mut info = DeviceTreeInfo::empty();
    assert_eq!(parse(&mut info, 0, &[]), Err(DtbParseError::NullAddress));
    assert_fallback(&info, 0);
}

#[test]
fn wrong_magic_falls_back() {
    let mut blob = tree_with(&cells(&[0x4000_0000, 0x1000]));
    blob[3] = 0xee;
    assert!(!is_readable(&blob));
    let mut info = DeviceTreeInfo::empty();
    assert_eq!(parse(&mut info, 5, &blob), Err(DtbParseError::InvalidMagic));
    assert_fallback(&info, 5);
}

#[test]
fn short_tree_falls_back() {
    let mut blob = tree_with(&cells(&[0x4000_0000, 0x1000]));
    blob[4..8].copy_from_slice(&39u32.to_be_bytes());
    let mut info = DeviceTreeInfo::empty();
    assert_eq!(parse(&mut info, 5, &blob), Err(DtbParseError::InvalidBlob));
    assert_fallback(&info, 5);
}

#[test]
fn trees_without_memory_are_not_readable() {
    let mut tree = Tree::new();
    tree.begin("");
    tree.begin("cpus");
    tree.end();
    tree.end();
    assert!(!is_readable(&tree.blob()));

    let mut tree = Tree::new();
    tree.begin("");
    tree.begin("memory");
    tree.prop("device_type", b"memory\0");
    tree.end();
    tree.end();
    assert!(!is_readable(&tree.blob()));

    let mut tree = Tree::new();
    tree.begin("");
    tree.prop("#address-cells", &3u32.to_be_bytes());
    tree.begin("memory");
    tree.prop("reg", &cells(&[1, 2]));
    tree.end();
    tree.end();
    assert!(!is_readable(&tree.blob()));
}

#[test]
fn last_number_of_cells_counts() {
    let tree_of = |counts: [u32; 2]| {
        let mut tree = Tree::new();
        tree.begin("");
        for count in counts {
            tree.prop("#address-cells", &count.to_be_bytes());
        }
        tree.begin("memory");
        let mut reg = 0x8000_0000u32.to_be_bytes().to_vec();
        reg.extend_from_slice(&0x1234u32.to_be_bytes());
        tree.prop("reg", &reg);
        tree.end();
        tree.end();
        tree.blob()
    };
    let blob = tree_of([3, 1]);
    assert!(is_readable(&blob));
    let mut info = DeviceTreeInfo::empty();
    assert_eq!(parse(&mut info, 5, &blob), Ok(()));
    assert_eq!(info.memory_regions(), vec![MemoryRegion { base: 0x8000_0000, size: 0x1234 }]);
    assert!(!is_readable(&tree_of([1, 3])));
}

#[test]
fn wrong_magic_needs_no_size() {
    let mut info = DeviceTreeInfo::empty();
    assert_eq!(parse(&mut info, 5, &[0; 4]), Err(DtbParseError::InvalidMagic));
    assert_fallback(&info, 5);
    let mut info = DeviceTreeInfo::empty();
    assert_eq!(
        parse(&mut info, 5, &[1, 2, 3, 4, 0xFF, 0xFF, 0xFF, 0xFF]),
        Err(DtbParseError::InvalidMagic)
    );
    assert_fallback(&info, 5);
}

#[test]
fn names_may_be_utf8_and_nodes_deep() {
    let mut tree = Tree::new();
    tree.begin("");
    tree.prop("mod\u{e8}le", b"x\0");
    for _ in 0..100 {
        tree.begin("gr\u{f6}\u{df}e");
    }
    for _ in 0..100 {
        tree.end();
    }
    tree.begin("memory");
    let mut reg = cells(&[0x8000_0000]);
    reg.extend_from_slice(&0x1234u32.to_be_bytes());
    tree.prop("reg", &reg);
    tree.end();
    tree.end();
    let blob = tree.blob();
    assert!(is_readable(&blob));
    let mut info = DeviceTreeInfo::empty();
    assert_eq!(parse(&mut info, 5, &blob), Ok(()));
    assert_eq!(info.memory_regions(), vec![MemoryRegion { base: 0x8000_0000, size: 0x1234 }]);
    // A name that is not UTF-8.
    let at = blob.windows(2).position(|pair| pair == [0xC3, 0xB6]).unwrap();
    let mut broken = blob.clone();
    broken[at + 1] = b'o';
    assert!(!is_readable(&broken));
}

#[test]
fn broken_trees_are_not_readable() {
    let good = tree_with(&cells(&[0x4000_0000, 0x1000]));
    assert!(is_readable(&good));
    // The structure block reaches beyond the blob.
    let mut blob = good.clone();
    blob[36..40].copy_from_slice(&0xFFFF_0000u32.to_be_bytes());
    assert!(!is_readable(&blob));
    // The property names lie outside the strings block.
    let mut blob = good.clone();
    blob[32..36].copy_from_slice(&0u32.to_be_bytes());
    assert!(!is_readable(&blob));
    // The first word opens no node.
    let mut blob = good.clone();
    blob[59] = 7;
    assert!(!is_readable(&blob));
    assert!(!is_readable(&good[..39]));
}

#[test]
fn default_cells_are_two_and_one() {
    let mut tree = Tree::new();
    tree.word(4);
    tree.begin("");
    tree.word(4);
    tree.begin("memory");
    let mut reg = cells(&[0x8000_0000]);
    reg.extend_from_slice(&0x1234u32.to_be_bytes());
    tree.prop("reg", &reg);
    tree.end();
    tree.end();
    let blob = tree.blob();
    assert!(is_readable(&blob));
    let mut info = DeviceTreeInfo::empty();
    assert_eq!(parse(&mut info, BootInfo::new(64).dtb_addr, &blob), Ok(()));
    assert_eq!(info.memory_regions(), vec![MemoryRegion { base: 0x8000_0000, size: 0x1234 }]);
}
