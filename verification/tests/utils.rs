use udpbd_vexfat::utils::{
    relative_path_from_common_root, unsigned_align_to, unsigned_rounded_up_div,
};

fn parts(names: &[&str]) -> Vec<String> {
    names.iter().map(|name| name.to_string()).collect()
}

#[test]
fn rounding_up() {
    assert_eq!(unsigned_rounded_up_div(5u64, 1), 5);
    assert_eq!(unsigned_rounded_up_div(5u64, 2), 3);
    assert_eq!(unsigned_rounded_up_div(5u64, 3), 2);
    assert_eq!(unsigned_rounded_up_div(5u64, 4), 2);
    assert_eq!(unsigned_rounded_up_div(5u64, 5), 1);
}

#[test]
fn alignment() {
    assert_eq!(unsigned_align_to(5u64, 8), 8);
    assert_eq!(unsigned_align_to(15u64, 8), 16);
}

#[test]
fn rounding_up_exact_multiples_and_extremes() {
    assert_eq!(unsigned_rounded_up_div(1, 1), 1);
    assert_eq!(unsigned_rounded_up_div(8, 4), 2);
    assert_eq!(unsigned_rounded_up_div(9, 4), 3);
    assert_eq!(unsigned_rounded_up_div(1, u64::MAX), 1);
    assert_eq!(unsigned_rounded_up_div(u64::MAX, 1), u64::MAX);
    assert_eq!(unsigned_rounded_up_div(u64::MAX, u64::MAX), 1);
}

#[test]
fn alignment_keeps_multiples() {
    assert_eq!(unsigned_align_to(16, 8), 16);
    assert_eq!(unsigned_align_to(1, 2), 2);
    assert_eq!(unsigned_align_to(7, 1), 7);
    assert_eq!(unsigned_align_to(1048577, 1048576), 2097152);
}

#[test]
fn relative_path_drops_the_shared_root() {
    let root = parts(&["srv", "opl"]);
    let path = parts(&["srv", "opl", "DVD", "game.iso"]);
    assert_eq!(relative_path_from_common_root(&root, &path), parts(&["DVD", "game.iso"]));
}

#[test]
fn relative_path_of_the_root_itself_is_empty() {
    let root = parts(&["srv", "opl"]);
    assert_eq!(relative_path_from_common_root(&root, &root), Vec::<String>::new());
}

#[test]
fn relative_path_keeps_components_that_differ() {
    let root = parts(&["a", "b", "c"]);
    let path = parts(&["a", "x", "c", "d"]);
    assert_eq!(relative_path_from_common_root(&root, &path), parts(&["x", "d"]));
}

#[test]
fn relative_path_shorter_than_root() {
    let root = parts(&["a", "b", "c"]);
    let path = parts(&["a"]);
    assert_eq!(relative_path_from_common_root(&root, &path), Vec::<String>::new());
    let other = parts(&["z"]);
    assert_eq!(relative_path_from_common_root(&root, &other), parts(&["z"]));
}

#[test]
fn relative_path_from_an_empty_root_is_the_path() {
    let root: Vec<String> = Vec::new();
    let path = parts(&["CD", "disc.bin"]);
    assert_eq!(relative_path_from_common_root(&root, &path), path);
}
