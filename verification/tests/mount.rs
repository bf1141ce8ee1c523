use exfat::cluster::{NewError, ReadError};
use exfat::entries::{ClusterAllocationError, EntryType, FileEntryError, SecondaryFlags};
use exfat::fat::Fat;
use exfat::param::{Params, VolumeFlags};
use exfat::{FileAttributes, Item, MemoryPartition, OpenError, Root};

// ---- image builders -------------------------------------------------------
//
// The canonical test volume: 512-byte sectors, one sector per cluster,
// FAT at sector 1, cluster heap at sector 2, eight clusters, root
// directory in cluster 2 (= sector 2).

fn put_u16(img: &mut [u8], off: usize, v: u16) {
    img[off..off + 2].copy_from_slice(&v.to_le_bytes());
}

fn put_u32(img: &mut [u8], off: usize, v: u32) {
    img[off..off + 4].copy_from_slice(&v.to_le_bytes());
}

fn put_u64(img: &mut [u8], off: usize, v: u64) {
    img[off..off + 8].copy_from_slice(&v.to_le_bytes());
}

fn base_image() -> Vec<u8> {
    let mut img = vec![0u8; 5120];
    img[3..11].copy_from_slice(b"EXFAT   ");
    put_u32(&mut img, 80, 1); // FatOffset
    put_u32(&mut img, 84, 1); // FatLength
    put_u32(&mut img, 88, 2); // ClusterHeapOffset
    put_u32(&mut img, 92, 8); // ClusterCount
    put_u32(&mut img, 96, 2); // FirstClusterOfRootDirectory
    put_u16(&mut img, 106, 0); // VolumeFlags
    img[108] = 9; // BytesPerSectorShift: 512
    img[109] = 0; // SectorsPerClusterShift: 1 sector
    img[110] = 1; // NumberOfFats
    set_fat(&mut img, 2, 0xFFFFFFFF); // root chain: cluster 2 only
    img
}

fn set_fat(img: &mut [u8], cluster: usize, link: u32) {
    put_u32(img, 512 + 4 * cluster, link);
}

fn entry_off(slot: usize) -> usize {
    1024 + 32 * slot
}

fn put_bitmap(img: &mut [u8], slot: usize, flags: u8) {
    let o = entry_off(slot);
    img[o] = 0x81;
    img[o + 1] = flags;
    put_u32(img, o + 20, 3);
    put_u64(img, o + 24, 1);
}

fn put_upcase(img: &mut [u8], slot: usize) {
    let o = entry_off(slot);
    img[o] = 0x82;
    put_u32(img, o + 20, 4);
    put_u64(img, o + 24, 2);
}

fn put_label(img: &mut [u8], slot: usize, units: &[u16]) {
    let o = entry_off(slot);
    img[o] = 0x83;
    img[o + 1] = units.len() as u8;
    for (i, u) in units.iter().enumerate() {
        put_u16(img, o + 2 + 2 * i, *u);
    }
}

#[allow(clippy::too_many_arguments)]
fn put_file_set(
    img: &mut [u8],
    slot: usize,
    units: &[u16],
    secondary_count: u8,
    name_length: u8,
    attrs: u16,
    no_fat_chain: bool,
    fc: u32,
    dl: u64,
    vdl: u64,
) {
    let o = entry_off(slot);
    img[o] = 0x85;
    img[o + 1] = secondary_count;
    put_u16(img, o + 4, attrs);

    let o2 = entry_off(slot + 1);
    img[o2] = 0xC0;
    img[o2 + 1] = if no_fat_chain { 3 } else { 1 };
    img[o2 + 3] = name_length;
    put_u64(img, o2 + 8, vdl);
    put_u32(img, o2 + 20, fc);
    put_u64(img, o2 + 24, dl);

    for (k, chunk) in units.chunks(15).enumerate() {
        let on = entry_off(slot + 2 + k);
        img[on] = 0xC1;
        img[on + 1] = 0;
        for (i, u) in chunk.iter().enumerate() {
            put_u16(img, on + 2 + 2 * i, *u);
        }
    }
}

fn minimal_image() -> Vec<u8> {
    let mut img = base_image();
    put_bitmap(&mut img, 0, 0);
    put_upcase(&mut img, 1);
    img
}

fn mount(img: Vec<u8>) -> Result<Root<MemoryPartition>, OpenError> {
    Root::open(MemoryPartition::new(img))
}

fn units_of(s: &str) -> Vec<u16> {
    s.encode_utf16().collect()
}

// ---- scenarios -------------------------------------------------------------

#[test]
fn minimal_mount() {
    let root = mount(minimal_image()).unwrap();
    assert!(root.volume_label().is_none());
    assert_eq!(root.items().len(), 0);
    assert_eq!(root.params().bytes_per_sector, 512);
    assert_eq!(root.params().sectors_per_cluster, 1);
    assert_eq!(root.params().cluster_size(), 512);
    assert_eq!(root.params().cluster_count, 8);
    assert_eq!(root.params().volume_flags.active_fat(), 0);
}

#[test]
fn volume_label_present() {
    let mut img = minimal_image();
    put_label(&mut img, 2, &[0x54, 0x45, 0x53, 0x54]);
    let root = mount(img).unwrap();
    assert_eq!(root.volume_label(), Some("TEST"));
}

#[test]
fn volume_label_empty_is_present() {
    let mut img = minimal_image();
    put_label(&mut img, 2, &[]);
    let root = mount(img).unwrap();
    assert_eq!(root.volume_label(), Some(""));
}

#[test]
fn volume_label_lossy_replacement() {
    let mut img = minimal_image();
    put_label(&mut img, 2, &[0xD800]);
    let root = mount(img).unwrap();
    assert_eq!(root.volume_label(), Some("\u{FFFD}"));
}

#[test]
fn volume_label_too_long() {
    let mut img = minimal_image();
    let o = entry_off(2);
    img[o] = 0x83;
    img[o + 1] = 12;
    assert!(matches!(mount(img), Err(OpenError::InvalidVolumeLabel)));
}

#[test]
fn multiple_volume_labels() {
    let mut img = minimal_image();
    put_label(&mut img, 2, &[0x41]);
    put_label(&mut img, 3, &[0x42]);
    assert!(matches!(mount(img), Err(OpenError::MultipleVolumeLabel)));
}

#[test]
fn single_file_no_fat_chain() {
    // 18 units stand on disk; NameLength consumes only the first 17.
    let on_disk = units_of("file_with_long.txt");
    assert_eq!(on_disk.len(), 18);
    let units = units_of("file_with_long.tx");
    assert_eq!(units.len(), 17);

    let mut img = minimal_image();
    put_file_set(&mut img, 2, &on_disk, 3, 17, 0x20, true, 5, 64, 40);
    for i in 0..64usize {
        img[5 * 512 + i] = i as u8; // payload in clusters 5 and 6
    }

    let root = mount(img).unwrap();
    let items = root.into_items();
    assert_eq!(items.len(), 1);

    match &items[0] {
        Item::File(f) => {
            assert_eq!(f.name(), &units);
            assert_eq!(f.len(), 40);
            assert!(f.stream().no_fat_chain());
            assert_eq!(f.stream().valid_data_length(), 40);
            assert_eq!(f.stream().allocation().first_cluster(), 5);
            assert_eq!(f.stream().allocation().data_length(), 64);

            let mut reader = f.reader().unwrap().unwrap();
            let mut buf = vec![0u8; 40];
            reader.read_exact(&mut buf).unwrap();
            let expected: Vec<u8> = (0..40u8).collect();
            assert_eq!(buf, expected);

            let mut one = vec![0u8; 1];
            assert_eq!(reader.read_exact(&mut one), Err(ReadError::EndOfStream));
        },
        Item::Directory(_) => panic!("expected a file"),
    }
}

#[test]
fn bad_fat_signature() {
    let mut img = minimal_image();
    img[3..11].copy_from_slice(b"NTFS    ");
    assert!(matches!(mount(img), Err(OpenError::NotExFat)));
}

#[test]
fn boot_zero_region_dirty() {
    let mut img = minimal_image();
    img[40] = 1;
    assert!(matches!(mount(img), Err(OpenError::NotExFat)));
}

#[test]
fn one_fat_but_active_bit_set() {
    let mut img = minimal_image();
    put_u16(&mut img, 106, 1); // VolumeFlags.active_fat = 1
    assert!(matches!(mount(img), Err(OpenError::InvalidNumberOfFats)));
}

#[test]
fn wrong_filename_count() {
    // SecondaryCount 2 declares one filename entry, but a name of 20
    // units needs two.
    let units = units_of("name_of_20_units.txt");
    assert_eq!(units.len(), 20);

    let mut img = minimal_image();
    put_file_set(&mut img, 2, &units[..15], 2, 20, 0x20, true, 5, 64, 64);
    assert!(matches!(
        mount(img),
        Err(OpenError::LoadFileEntryFailed(FileEntryError::WrongFileNames(2, 2)))
    ));
}

#[test]
fn entry_set_interrupted_at_stream() {
    // The entry after the file entry is a filename, not a stream extension.
    let mut img = minimal_image();
    put_file_set(&mut img, 2, &units_of("ab"), 3, 2, 0x20, true, 5, 64, 64);
    let o = entry_off(3);
    img[o] = 0xC1; // filename where the stream extension belongs
    assert!(matches!(
        mount(img),
        Err(OpenError::LoadFileEntryFailed(FileEntryError::NotStreamExtension(3, 2)))
    ));
}

#[test]
fn entry_set_interrupted_at_filename() {
    // The filename slot holds a second stream extension instead.
    let mut img = minimal_image();
    put_file_set(&mut img, 2, &units_of("ab"), 2, 2, 0x20, true, 5, 64, 64);
    let o = entry_off(4);
    img[o] = 0xC0;
    assert!(matches!(
        mount(img),
        Err(OpenError::LoadFileEntryFailed(FileEntryError::NotFileName(4, 2)))
    ));
}

#[test]
fn invalid_bytes_per_sector_shift() {
    let mut img = minimal_image();
    img[108] = 8;
    assert!(matches!(mount(img), Err(OpenError::InvalidBytesPerSectorShift)));
}

#[test]
fn invalid_sectors_per_cluster_shift() {
    let mut img = minimal_image();
    img[109] = 17; // 25 - 9 = 16 is the largest allowed
    assert!(matches!(mount(img), Err(OpenError::InvalidSectorsPerClusterShift)));
}

#[test]
fn invalid_number_of_fats() {
    let mut img = minimal_image();
    img[110] = 3;
    assert!(matches!(mount(img), Err(OpenError::InvalidNumberOfFats)));
}

#[test]
fn boot_sector_unreadable() {
    let img = vec![0u8; 100];
    assert!(matches!(mount(img), Err(OpenError::ReadMainBootFailed(_))));
}

#[test]
fn fat_region_unreadable() {
    let img = minimal_image()[..512].to_vec();
    assert!(matches!(mount(img), Err(OpenError::ReadFatRegionFailed(_))));
}

#[test]
fn root_cluster_reserved() {
    let mut img = minimal_image();
    put_u32(&mut img, 96, 1); // FirstClusterOfRootDirectory
    assert!(matches!(
        mount(img),
        Err(OpenError::CreateClustersReaderFailed(NewError::InvalidFirstCluster))
    ));
}

#[test]
fn root_chain_empty() {
    let mut img = minimal_image();
    set_fat(&mut img, 2, 0xFFFFFFF7); // bad cluster ends the chain at once
    assert!(matches!(
        mount(img),
        Err(OpenError::CreateClustersReaderFailed(NewError::EmptyChain))
    ));
}

#[test]
fn file_without_stream_extension() {
    let mut img = minimal_image();
    let o = entry_off(2);
    img[o] = 0x85; // SecondaryCount 0
    assert!(matches!(
        mount(img),
        Err(OpenError::LoadFileEntryFailed(FileEntryError::NoStreamExtension(2, 2)))
    ));
}

#[test]
fn file_without_file_name() {
    let mut img = minimal_image();
    let o = entry_off(2);
    img[o] = 0x85;
    img[o + 1] = 1; // SecondaryCount 1: a stream extension but no name
    assert!(matches!(
        mount(img),
        Err(OpenError::LoadFileEntryFailed(FileEntryError::NoFileName(2, 2)))
    ));
}

#[test]
fn stream_extension_read_fails_at_chain_end() {
    // The file entry sits in the last slot of the root cluster and the
    // chain ends there: reading its stream extension fails. Slots 2..=14
    // hold a complete file set so that enumeration reaches slot 15.
    let mut img = minimal_image();
    let filler: Vec<u16> = std::iter::repeat(0x61).take(165).collect();
    put_file_set(&mut img, 2, &filler, 12, 165, 0x20, true, 5, 64, 64);
    let o = entry_off(15);
    img[o] = 0x85;
    img[o + 1] = 2;
    assert!(matches!(
        mount(img),
        Err(OpenError::LoadFileEntryFailed(FileEntryError::ReadStreamFailed(_)))
    ));
}

#[test]
fn file_first_cluster_out_of_range() {
    let mut img = minimal_image();
    put_file_set(&mut img, 2, &units_of("ab"), 2, 2, 0x20, true, 100, 64, 64);
    assert!(matches!(mount(img), Err(OpenError::CreateFileObjectFailed(2, 2, _))));
}

#[test]
fn payload_read_past_partition_end() {
    // Cluster 9 exists in the FAT but the image ends one sector short of
    // it, so reading the payload surfaces the block-source error.
    let mut img = minimal_image();
    put_file_set(&mut img, 2, &units_of("ab"), 2, 2, 0x20, true, 9, 512, 512);
    img.truncate(9 * 512);

    let root = mount(img).unwrap();
    let items = root.into_items();
    match &items[0] {
        Item::File(f) => {
            let mut reader = f.reader().unwrap().unwrap();
            let mut buf = vec![0u8; 512];
            assert!(matches!(reader.read_exact(&mut buf), Err(ReadError::Disk(_))));
        },
        Item::Directory(_) => panic!("expected a file"),
    }
}

#[test]
fn missing_allocation_bitmap() {
    let mut img = base_image();
    put_upcase(&mut img, 0);
    assert!(matches!(mount(img), Err(OpenError::NoAllocationBitmap)));
}

#[test]
fn missing_upcase_table() {
    let mut img = base_image();
    put_bitmap(&mut img, 0, 0);
    assert!(matches!(mount(img), Err(OpenError::NoUpcaseTable)));
}

#[test]
fn multiple_upcase_tables() {
    let mut img = minimal_image();
    put_upcase(&mut img, 2);
    assert!(matches!(mount(img), Err(OpenError::MultipleUpcaseTable)));
}

#[test]
fn two_allocation_bitmaps_accepted() {
    let mut img = minimal_image();
    put_bitmap(&mut img, 2, 1);
    assert!(mount(img).is_ok());
}

#[test]
fn three_allocation_bitmaps() {
    let mut img = minimal_image();
    put_bitmap(&mut img, 2, 1);
    put_bitmap(&mut img, 3, 0);
    assert!(matches!(mount(img), Err(OpenError::TooManyAllocationBitmap)));
}

#[test]
fn wrong_allocation_bitmap_index() {
    let mut img = minimal_image();
    put_bitmap(&mut img, 2, 0); // second bitmap must declare index 1
    assert!(matches!(mount(img), Err(OpenError::WrongAllocationBitmap)));
}

#[test]
fn bitmap_allocation_invalid_data_length() {
    let mut img = minimal_image();
    let o = entry_off(0);
    put_u32(&mut img, o + 20, 0);
    put_u64(&mut img, o + 24, 1);
    assert!(matches!(
        mount(img),
        Err(OpenError::ReadClusterAllocationFailed(
            0,
            2,
            ClusterAllocationError::InvalidDataLength
        ))
    ));
}

#[test]
fn bitmap_allocation_reserved_cluster() {
    let mut img = minimal_image();
    let o = entry_off(0);
    put_u32(&mut img, o + 20, 1);
    assert!(matches!(
        mount(img),
        Err(OpenError::ReadClusterAllocationFailed(
            0,
            2,
            ClusterAllocationError::InvalidFirstCluster
        ))
    ));
}

#[test]
fn secondary_entry_at_top_level() {
    let mut img = minimal_image();
    let o = entry_off(2);
    img[o] = 0xC0;
    assert!(matches!(mount(img), Err(OpenError::NotPrimaryEntry(2, 2))));
}

#[test]
fn unknown_primary_entry() {
    let mut img = minimal_image();
    let o = entry_off(2);
    img[o] = 0x84;
    assert!(matches!(mount(img), Err(OpenError::UnknownEntry(2, 2))));
}

#[test]
fn stream_extension_without_allocation_bit() {
    let mut img = minimal_image();
    put_file_set(&mut img, 2, &units_of("ab"), 2, 2, 0x20, true, 5, 64, 64);
    let o = entry_off(3);
    img[o + 1] = 2; // allocation-possible bit cleared
    assert!(matches!(
        mount(img),
        Err(OpenError::LoadFileEntryFailed(FileEntryError::InvalidStreamExtension(3, 2)))
    ));
}

#[test]
fn file_valid_data_length_exceeds_data_length() {
    let mut img = minimal_image();
    put_file_set(&mut img, 2, &units_of("ab"), 2, 2, 0x20, true, 5, 64, 80);
    assert!(matches!(
        mount(img),
        Err(OpenError::LoadFileEntryFailed(FileEntryError::InvalidStreamExtension(3, 2)))
    ));
}

#[test]
fn directory_valid_data_length_must_equal_data_length() {
    let mut img = minimal_image();
    put_file_set(&mut img, 2, &units_of("ab"), 2, 2, 0x10, true, 5, 64, 40);
    assert!(matches!(
        mount(img),
        Err(OpenError::LoadFileEntryFailed(FileEntryError::InvalidStreamExtension(3, 2)))
    ));
}

#[test]
fn filename_entry_with_allocation_bit() {
    let mut img = minimal_image();
    put_file_set(&mut img, 2, &units_of("ab"), 2, 2, 0x20, true, 5, 64, 64);
    let o = entry_off(4);
    img[o + 1] = 1; // filename entries cannot own an allocation
    assert!(matches!(
        mount(img),
        Err(OpenError::LoadFileEntryFailed(FileEntryError::InvalidFileName(4, 2)))
    ));
}

#[test]
fn filename_with_unpaired_surrogate() {
    let mut img = minimal_image();
    put_file_set(&mut img, 2, &[0xD800, 0x0041], 2, 2, 0x20, true, 5, 64, 64);
    assert!(matches!(
        mount(img),
        Err(OpenError::LoadFileEntryFailed(FileEntryError::InvalidFileName(2, 2)))
    ));
}

#[test]
fn filename_with_surrogate_pair() {
    // One astral character: a surrogate pair is two of the four units.
    let units = units_of("a\u{1F600}b");
    assert_eq!(units.len(), 4);

    let mut img = minimal_image();
    put_file_set(&mut img, 2, &units, 2, 4, 0x20, true, 5, 64, 64);
    let root = mount(img).unwrap();
    let items = root.into_items();
    match &items[0] {
        Item::File(f) => assert_eq!(f.name(), &units),
        Item::Directory(_) => panic!("expected a file"),
    }
}

#[test]
fn surrogate_pair_across_filename_entries() {
    // The pair opens in the 15th unit of the first filename entry and
    // closes in the first unit of the second; the name decodes as one
    // sequence, so it is accepted.
    let mut units: Vec<u16> = units_of("only14unitshere".as_ref());
    units.truncate(14);
    units.push(0xD83D);
    units.push(0xDE00);
    units.push(0x0041);
    assert_eq!(units.len(), 17);

    let mut img = minimal_image();
    put_file_set(&mut img, 2, &units, 3, 17, 0x20, true, 5, 64, 64);
    let root = mount(img).unwrap();
    let items = root.into_items();
    match &items[0] {
        Item::File(f) => assert_eq!(f.name(), &units),
        Item::Directory(_) => panic!("expected a file"),
    }
}

#[test]
fn cluster_chain_cycle_is_finite() {
    // Two clusters link to each other; the walk spends its step budget
    // (the FAT's length) and then ends instead of running forever.
    let mut img = minimal_image();
    set_fat(&mut img, 2, 3);
    set_fat(&mut img, 3, 2);
    let fat = Fat::load(&test_params(), &MemoryPartition::new(img), 0).unwrap();
    let mut chain = fat.get_cluster_chain(2);
    let mut yielded: usize = 0;
    while chain.next().is_some() {
        yielded += 1;
        assert!(yielded <= 10);
    }
    assert_eq!(yielded, 10);
    assert_eq!(chain.next(), None);
}

#[test]
fn empty_file_has_no_stream() {
    let mut img = minimal_image();
    put_file_set(&mut img, 2, &units_of("e"), 2, 1, 0x20, false, 0, 0, 0);
    let root = mount(img).unwrap();
    let items = root.into_items();
    match &items[0] {
        Item::File(f) => {
            assert_eq!(f.len(), 0);
            assert!(f.reader().unwrap().is_none());
        },
        Item::Directory(_) => panic!("expected a file"),
    }
}

#[test]
fn subdirectory_enumeration() {
    let mut img = minimal_image();
    // A subdirectory in cluster 5, holding one file whose payload sits in
    // cluster 6. The directory stream is chained, so FAT[5] must end its
    // chain.
    put_file_set(&mut img, 2, &units_of("sub"), 2, 3, 0x10, false, 5, 512, 512);
    set_fat(&mut img, 5, 0xFFFFFFFF);

    let dir_base = 5 * 512;
    // file entry set written by hand at cluster 5, slots 0..2
    img[dir_base] = 0x85;
    img[dir_base + 1] = 2;
    put_u16(&mut img, dir_base + 4, 0x20);
    img[dir_base + 32] = 0xC0;
    img[dir_base + 33] = 3;
    img[dir_base + 35] = 5; // name length
    put_u64(&mut img, dir_base + 40, 3); // valid data length
    put_u32(&mut img, dir_base + 52, 6); // first cluster
    put_u64(&mut img, dir_base + 56, 3); // data length
    img[dir_base + 64] = 0xC1;
    for (i, u) in units_of("a.txt").iter().enumerate() {
        put_u16(&mut img, dir_base + 66 + 2 * i, *u);
    }

    let root = mount(img).unwrap();
    let items = root.into_items();
    assert_eq!(items.len(), 1);

    match &items[0] {
        Item::Directory(d) => {
            assert_eq!(d.name(), &units_of("sub"));
            let children = d.open().unwrap();
            assert_eq!(children.len(), 1);
            match &children[0] {
                Item::File(f) => {
                    assert_eq!(f.name(), &units_of("a.txt"));
                    assert_eq!(f.len(), 3);
                },
                Item::Directory(_) => panic!("expected a file"),
            }
        },
        Item::File(_) => panic!("expected a directory"),
    }
}

#[test]
fn root_without_terminator() {
    // Slots 0..16 filled exactly, no end-of-directory entry: the stream
    // runs out and the mount reports the failed read.
    let mut img = minimal_image();
    let units: Vec<u16> = std::iter::repeat(0x61).take(180).collect();
    put_file_set(&mut img, 2, &units, 13, 180, 0x20, true, 5, 64, 64);
    assert!(matches!(mount(img), Err(OpenError::ReadEntryFailed(_))));
}

#[test]
fn entry_index_resets_at_cluster_boundary() {
    // The root spans clusters 2 and 3; the offending entry is the first
    // of cluster 3, so its position is reported as entry 0 on cluster 3.
    let mut img = minimal_image();
    set_fat(&mut img, 2, 3);
    set_fat(&mut img, 3, 0xFFFFFFFF);
    let units: Vec<u16> = std::iter::repeat(0x61).take(180).collect();
    put_file_set(&mut img, 2, &units, 13, 180, 0x20, true, 5, 64, 64);
    let o = entry_off(16); // first entry of cluster 3
    img[o] = 0xC0;
    assert!(matches!(mount(img), Err(OpenError::NotPrimaryEntry(0, 3))));
}

#[test]
fn second_fat_is_active() {
    // Two FATs; the active bit selects the second. Only the second FAT
    // carries a live root chain, so a successful mount proves the choice.
    let mut img = vec![0u8; 6144];
    img[3..11].copy_from_slice(b"EXFAT   ");
    put_u32(&mut img, 80, 1); // FatOffset
    put_u32(&mut img, 84, 1); // FatLength
    put_u32(&mut img, 88, 3); // ClusterHeapOffset
    put_u32(&mut img, 92, 8); // ClusterCount
    put_u32(&mut img, 96, 2); // FirstClusterOfRootDirectory
    put_u16(&mut img, 106, 1); // VolumeFlags.active_fat = 1
    img[108] = 9;
    img[109] = 0;
    img[110] = 2; // NumberOfFats
    put_u32(&mut img, 512 + 8, 0xFFFFFFF7); // FAT 0 would end the chain
    put_u32(&mut img, 1024 + 8, 0xFFFFFFFF); // FAT 1 carries the root
    let root_base = 3 * 512;
    img[root_base] = 0x81; // first bitmap, for FAT 0
    put_u32(&mut img, root_base + 20, 4);
    put_u64(&mut img, root_base + 24, 1);
    img[root_base + 32] = 0x81; // second bitmap, for FAT 1
    img[root_base + 33] = 1;
    put_u32(&mut img, root_base + 52, 4);
    put_u64(&mut img, root_base + 56, 1);
    img[root_base + 64] = 0x82; // up-case table
    put_u32(&mut img, root_base + 84, 5);
    put_u64(&mut img, root_base + 88, 2);

    let root = mount(img).unwrap();
    assert_eq!(root.params().number_of_fats, 2);
}

#[test]
fn two_fats_need_two_bitmaps() {
    let mut img = minimal_image();
    img[110] = 2;
    assert!(matches!(mount(img), Err(OpenError::NoAllocationBitmap)));
}

// ---- cluster chains --------------------------------------------------------

fn test_params() -> Params {
    Params {
        fat_offset: 1,
        fat_length: 1,
        cluster_heap_offset: 2,
        cluster_count: 8,
        first_cluster_of_root_directory: 2,
        volume_flags: VolumeFlags(0),
        bytes_per_sector: 512,
        sectors_per_cluster: 1,
        number_of_fats: 1,
    }
}

#[test]
fn cluster_chain_follows_links() {
    let mut img = minimal_image();
    set_fat(&mut img, 2, 5);
    set_fat(&mut img, 5, 7);
    set_fat(&mut img, 7, 1); // link below 2 ends the chain
    let fat = Fat::load(&test_params(), &MemoryPartition::new(img), 0).unwrap();
    let mut chain = fat.get_cluster_chain(2);
    assert_eq!(chain.next(), Some(2));
    assert_eq!(chain.next(), Some(5));
    assert_eq!(chain.next(), Some(7));
    assert_eq!(chain.next(), None);
    assert_eq!(chain.next(), None);
}

#[test]
fn cluster_chain_stops_at_bad_cluster() {
    let mut img = minimal_image();
    set_fat(&mut img, 2, 5);
    set_fat(&mut img, 5, 0xFFFFFFF7);
    let fat = Fat::load(&test_params(), &MemoryPartition::new(img), 0).unwrap();
    let mut chain = fat.get_cluster_chain(2);
    assert_eq!(chain.next(), Some(2));
    assert_eq!(chain.next(), None);
}

#[test]
fn cluster_chain_never_yields_reserved() {
    let mut img = minimal_image();
    set_fat(&mut img, 2, 0);
    let fat = Fat::load(&test_params(), &MemoryPartition::new(img), 0).unwrap();
    let mut chain = fat.get_cluster_chain(0);
    assert_eq!(chain.next(), None);
    let mut chain = fat.get_cluster_chain(1);
    assert_eq!(chain.next(), None);
    let mut chain = fat.get_cluster_chain(100);
    assert_eq!(chain.next(), None);
}

#[test]
fn file_payload_crosses_clusters_by_chain() {
    // 600 payload bytes span clusters 5 and 7, linked through the FAT.
    let mut img = minimal_image();
    put_file_set(&mut img, 2, &units_of("big"), 2, 3, 0x20, false, 5, 600, 600);
    set_fat(&mut img, 5, 7);
    set_fat(&mut img, 7, 0xFFFFFFFF);
    for i in 0..512usize {
        img[5 * 512 + i] = (i % 251) as u8;
    }
    for i in 0..88usize {
        img[7 * 512 + i] = ((512 + i) % 251) as u8;
    }

    let root = mount(img).unwrap();
    let items = root.into_items();
    match &items[0] {
        Item::File(f) => {
            let mut reader = f.reader().unwrap().unwrap();
            let mut buf = vec![0u8; 600];
            reader.read_exact(&mut buf).unwrap();
            let expected: Vec<u8> = (0..600usize).map(|i| (i % 251) as u8).collect();
            assert_eq!(buf, expected);
        },
        Item::Directory(_) => panic!("expected a file"),
    }
}

// ---- small value types -----------------------------------------------------

#[test]
fn entry_type_bits() {
    let file = EntryType(0x85);
    assert!(file.is_regular());
    assert_eq!(file.type_code(), 5);
    assert_eq!(file.type_importance(), 0);
    assert_eq!(file.type_category(), 0);

    let stream = EntryType(0xC0);
    assert!(stream.is_critical_secondary(0));
    assert!(!stream.is_critical_secondary(1));

    let name = EntryType(0xC1);
    assert!(name.is_critical_secondary(1));

    let benign = EntryType(0xA0);
    assert_eq!(benign.type_importance(), 1);
    assert!(!benign.is_critical_secondary(0));

    let end = EntryType(0x00);
    assert!(!end.is_regular());
    let deleted = EntryType(0x05);
    assert!(!deleted.is_regular());
}

#[test]
fn secondary_flags_bits() {
    assert!(!SecondaryFlags(0).allocation_possible());
    assert!(SecondaryFlags(1).allocation_possible());
    assert!(!SecondaryFlags(1).no_fat_chain());
    assert!(SecondaryFlags(2).no_fat_chain());
    assert!(SecondaryFlags(3).allocation_possible());
    assert!(SecondaryFlags(3).no_fat_chain());
}

#[test]
fn file_attribute_bits() {
    let a = FileAttributes(0x0001);
    assert!(a.is_read_only());
    assert!(!a.is_hidden());
    let a = FileAttributes(0x0002);
    assert!(a.is_hidden());
    let a = FileAttributes(0x0004);
    assert!(a.is_system());
    let a = FileAttributes(0x0010);
    assert!(a.is_directory());
    let a = FileAttributes(0x0020);
    assert!(a.is_archive());
    assert!(!a.is_directory());
}
