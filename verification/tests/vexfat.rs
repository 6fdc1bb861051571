use udpbd_vexfat::vexfat::{parent_of, BuildError, Parent, StreamError, TreeItem, VexFat};

fn dir(path: &[&str]) -> TreeItem {
    TreeItem { path: path.iter().map(|name| name.to_string()).collect(), is_file: false, size: 0 }
}

fn file(path: &[&str], size: u64) -> TreeItem {
    TreeItem { path: path.iter().map(|name| name.to_string()).collect(), is_file: true, size }
}

fn volume(sector_count: u32) -> VexFat {
    VexFat {
        cluster_count: sector_count / 2048,
        sector_count,
        position: 0,
        block_shift: 0,
        block_size: 0,
        blocks_per_packet: 0,
        blocks_per_socket: 0,
    }
}

#[test]
fn empty_tree_has_no_clusters() {
    let v = VexFat::new(&Vec::new()).unwrap();
    assert_eq!(v.cluster_count, 0);
    assert_eq!(v.sector_count(), 0);
    assert_eq!(v.position, 0);
    assert_eq!((v.block_shift, v.block_size, v.blocks_per_packet, v.blocks_per_socket), (0, 0, 0, 0));
}

#[test]
fn directories_take_three_clusters_each() {
    let items = vec![dir(&["APPS"]), dir(&["ART"]), dir(&["CD"])];
    let v = VexFat::new(&items).unwrap();
    // 3 * 3 = 9 clusters, rounded up to 10.
    assert_eq!(v.cluster_count, 10);
    assert_eq!(v.sector_count(), 20480);
    assert_eq!(v.sector_size(), 512);
}

#[test]
fn file_bytes_round_up_to_clusters() {
    let items = vec![dir(&["DVD"]), file(&["DVD", "a.iso"], 1048576), file(&["DVD", "b.iso"], 1)];
    let v = VexFat::new(&items).unwrap();
    // 1 MiB + 1 byte is two clusters; 3 entries add 9; 11 rounds up to 12.
    assert_eq!(v.cluster_count, 12);
    assert_eq!(v.sector_count(), 12 * 2048);
}

#[test]
fn file_bytes_are_summed_before_rounding() {
    let items = vec![file(&["a"], 524288), file(&["b"], 524288)];
    let v = VexFat::new(&items).unwrap();
    // Together one cluster; 2 entries add 6; 7 rounds up to 8.
    assert_eq!(v.cluster_count, 8);
    let items = vec![file(&["a"], 524288), file(&["b"], 524289)];
    let v = VexFat::new(&items).unwrap();
    assert_eq!(v.cluster_count, 8);
    let items = vec![file(&["a"], 1048576), file(&["b"], 1048576), file(&["c"], 1)];
    let v = VexFat::new(&items).unwrap();
    // 3 clusters of data, 9 of slack: 12.
    assert_eq!(v.cluster_count, 12);
}

#[test]
fn size_of_a_directory_is_not_counted() {
    let items = vec![TreeItem { path: vec!["d".to_string()], is_file: false, size: 1 << 40 }];
    let v = VexFat::new(&items).unwrap();
    assert_eq!(v.cluster_count, 4);
}

#[test]
fn largest_volume_that_fits() {
    // 2097147 clusters of data and 3 of slack: 2097150 clusters.
    let items = vec![file(&["big"], 2097147 * 1048576)];
    let v = VexFat::new(&items).unwrap();
    assert_eq!(v.cluster_count, 2097150);
    assert_eq!(v.sector_count(), 4294963200);
}

#[test]
fn too_large_a_tree_is_refused() {
    let items = vec![file(&["big"], 2097148 * 1048576)];
    // 2097151 clusters round up to 2097152, which is 2^32 sectors.
    assert_eq!(VexFat::new(&items), Err(BuildError::TooLarge));
    let items = vec![file(&["a"], u64::MAX), file(&["b"], u64::MAX)];
    assert_eq!(VexFat::new(&items), Err(BuildError::TooLarge));
}

#[test]
fn seek_moves_the_cursor_to_the_sector() {
    let mut v = volume(4096);
    assert_eq!(v.seek(100), Ok(()));
    assert_eq!(v.position, 51200);
    assert_eq!(v.seek(4095), Ok(()));
    assert_eq!(v.position, 4095 * 512);
    assert_eq!(v.seek(0), Ok(()));
    assert_eq!(v.position, 0);
}

#[test]
fn seek_past_the_end_fails_and_keeps_the_cursor() {
    let mut v = volume(4096);
    v.seek(7).unwrap();
    assert_eq!(v.seek(4096), Err(StreamError::SectorOutOfRange));
    assert_eq!(v.seek(u32::MAX), Err(StreamError::SectorOutOfRange));
    assert_eq!(v.position, 7 * 512);
}

#[test]
fn read_advances_the_cursor() {
    let mut v = volume(4096);
    v.seek(2).unwrap();
    assert_eq!(v.read(1024), Ok(1024));
    assert_eq!(v.position, 2048);
    assert_eq!(v.read(100), Ok(2048));
    assert_eq!(v.position, 2148);
    assert_eq!(v.read(0), Ok(2148));
}

#[test]
fn read_past_the_end_fails_and_keeps_the_cursor() {
    let mut v = volume(2048);
    v.seek(2047).unwrap();
    assert_eq!(v.read(513), Err(StreamError::PastEndOfVolume));
    assert_eq!(v.position, 2047 * 512);
    assert_eq!(v.read(512), Ok(2047 * 512));
    assert_eq!(v.position, 2048 * 512);
    assert_eq!(v.read(1), Err(StreamError::PastEndOfVolume));
    assert_eq!(v.read(0), Ok(2048 * 512));
}

#[test]
fn write_is_dropped() {
    let mut v = volume(2048);
    v.seek(3).unwrap();
    let before = v;
    assert_eq!(v.write(&[1, 2, 3]), Ok(()));
    assert_eq!(v, before);
}

#[test]
fn block_shift_sets_the_derived_sizes() {
    let mut v = volume(2048);
    let expected: [(u8, u16, u16, u16); 8] = [
        (0, 4, 366, 128),
        (1, 8, 183, 64),
        (2, 16, 91, 32),
        (3, 32, 45, 16),
        (4, 64, 22, 8),
        (5, 128, 11, 4),
        (6, 256, 5, 2),
        (7, 512, 2, 1),
    ];
    for (shift, size, per_packet, per_sector) in expected {
        v.set_block_shift(shift);
        assert_eq!(v.block_shift, shift);
        assert_eq!(v.block_size, size);
        assert_eq!(v.blocks_per_packet, per_packet);
        assert_eq!(v.blocks_per_socket, per_sector);
    }
    assert_eq!(v.sector_count, 2048);
}

#[test]
fn block_shift_for_one_sector() {
    let mut v = volume(2048);
    v.set_block_shift_sectors(1);
    assert_eq!(v.block_shift, 7);
    assert_eq!(v.block_size, 512);
}

#[test]
fn block_shift_for_three_sectors() {
    let mut v = volume(2048);
    v.set_block_shift_sectors(3);
    assert_eq!(v.block_shift, 7);
}

#[test]
fn block_shift_for_six_sectors() {
    let mut v = volume(2048);
    v.set_block_shift_sectors(6);
    assert_eq!(v.block_shift, 7);
}

#[test]
fn block_shift_falls_back_to_smaller_blocks() {
    let mut v = volume(2048);
    // 2560 bytes: two packets of 1280 or 1440, three of 1024.
    v.set_block_shift_sectors(5);
    assert_eq!(v.block_shift, 6);
    // 5632 bytes: four packets of 1408 or 1440, five of 1280.
    v.set_block_shift_sectors(11);
    assert_eq!(v.block_shift, 5);
    // 7168 bytes: five packets of 1440, six of 1408.
    v.set_block_shift_sectors(14);
    assert_eq!(v.block_shift, 3);
    assert_eq!(v.block_size, 32);
    assert_eq!(v.blocks_per_packet, 45);
    assert_eq!(v.blocks_per_socket, 16);
    v.set_block_shift_sectors(0);
    assert_eq!(v.block_shift, 7);
    // 33553920 bytes: 23302 packets of 1440, 23831 of 1408.
    v.set_block_shift_sectors(u16::MAX);
    assert_eq!(v.block_shift, 3);
}

#[test]
fn block_shift_takes_fewest_packets_then_largest_blocks() {
    let caps: [(u8, u32); 4] = [(7, 1024), (6, 1280), (5, 1408), (3, 1440)];
    let mut v = volume(2048);
    for sectors in 0u16..=2000 {
        let size = sectors as u32 * 512;
        let packets = |cap: u32| (size + cap - 1) / cap;
        let fewest = caps.iter().map(|&(_, cap)| packets(cap)).min().unwrap();
        let best = caps.iter().filter(|&&(_, cap)| packets(cap) == fewest).map(|&(s, _)| s).max();
        v.set_block_shift_sectors(sectors);
        assert_eq!(Some(v.block_shift), best);
    }
}

#[test]
fn tuning_is_recognised() {
    let mut v = volume(2048);
    assert!(!v.is_tuned());
    v.set_block_shift(0);
    assert!(v.is_tuned());
    v.set_block_shift(7);
    assert!(v.is_tuned());
    v.blocks_per_packet = 3;
    assert!(!v.is_tuned());
    v.blocks_per_packet = 2;
    v.block_shift = 8;
    assert!(!v.is_tuned());
    v.block_shift = 255;
    assert!(!v.is_tuned());
}

#[test]
fn entries_hang_below_the_nearest_directory_before_them() {
    let items = vec![
        dir(&["CD"]),
        file(&["CD", "a.bin"], 10),
        dir(&["DVD"]),
        dir(&["DVD", "sub"]),
        file(&["DVD", "sub", "b.iso"], 20),
        file(&["DVD", "c.iso"], 30),
        file(&["top.txt"], 1),
    ];
    assert_eq!(parent_of(&items, 0), Parent::Root);
    assert_eq!(parent_of(&items, 1), Parent::Item(0));
    assert_eq!(parent_of(&items, 2), Parent::Root);
    assert_eq!(parent_of(&items, 3), Parent::Item(2));
    assert_eq!(parent_of(&items, 4), Parent::Item(3));
    assert_eq!(parent_of(&items, 5), Parent::Item(2));
    assert_eq!(parent_of(&items, 6), Parent::Root);
}

#[test]
fn a_parent_must_be_a_directory_that_comes_before() {
    let items = vec![
        file(&["x"], 1),
        file(&["x", "inside"], 1),
        file(&["late", "inside"], 1),
        dir(&["late"]),
        dir(&["a", "b"]),
        file(&["a", "b", "c"], 1),
        file(&["a", "bb", "c"], 1),
        file(&["b", "c"], 1),
    ];
    assert_eq!(parent_of(&items, 1), Parent::Missing);
    assert_eq!(parent_of(&items, 2), Parent::Missing);
    assert_eq!(parent_of(&items, 4), Parent::Missing);
    assert_eq!(parent_of(&items, 5), Parent::Item(4));
    assert_eq!(parent_of(&items, 6), Parent::Missing);
    assert_eq!(parent_of(&items, 7), Parent::Missing);
}

#[test]
fn of_two_directories_with_one_path_the_later_one_is_the_parent() {
    let items = vec![dir(&["d"]), dir(&["d"]), file(&["d", "f"], 1)];
    assert_eq!(parent_of(&items, 2), Parent::Item(1));
    let empty = vec![TreeItem { path: Vec::new(), is_file: false, size: 0 }];
    assert_eq!(parent_of(&empty, 0), Parent::Root);
}
