use sentinel::disk::{path_has_drive_marker, path_is_root, primary_disk_usage, primary_volume};
use sentinel::DiskVolume;

fn volume(mount: &str, total: u64, available: u64) -> DiskVolume {
    DiskVolume::new(mount.to_string(), total, available).unwrap()
}

#[test]
fn volume_keeps_what_it_was_given() {
    let v = volume("/home", 1000, 250);
    assert_eq!(v.mount_point(), "/home");
    assert_eq!(v.total_space(), 1000);
    assert_eq!(v.available_space(), 250);
}

#[test]
fn used_space_is_total_less_available() {
    assert_eq!(volume("/", 1000, 250).used_space(), 750);
    assert_eq!(volume("/", 1000, 0).used_space(), 1000);
    assert_eq!(volume("/", 1000, 1000).used_space(), 0);
    assert_eq!(volume("/", u64::MAX, 1).used_space(), u64::MAX - 1);
    assert_eq!(volume("/", 0, 0).used_space(), 0);
}

#[test]
fn volume_with_more_free_space_than_space_is_refused() {
    assert!(DiskVolume::new("/".to_string(), 10, 11).is_none());
    assert!(DiskVolume::new("/".to_string(), 0, 1).is_none());
    assert!(DiskVolume::new("/".to_string(), 0, u64::MAX).is_none());
    assert!(DiskVolume::new("/".to_string(), 10, 10).is_some());
}

#[test]
fn root_is_the_single_slash_only() {
    assert!(path_is_root("/"));
    assert!(!path_is_root(""));
    assert!(!path_is_root("//"));
    assert!(!path_is_root("/home"));
    assert!(!path_is_root("\\"));
    assert!(!path_is_root(" /"));
    assert!(!path_is_root("/ "));
    assert!(!path_is_root("C:\\"));
}

#[test]
fn drive_marker_is_found_anywhere_in_the_path() {
    assert!(path_has_drive_marker("C:"));
    assert!(path_has_drive_marker("C:\\"));
    assert!(path_has_drive_marker("\\\\?\\C:\\"));
    assert!(path_has_drive_marker("/mnt/C:/data"));
    assert!(path_has_drive_marker("CC:"));
    assert!(path_has_drive_marker("xC:"));
    assert!(path_has_drive_marker("C:C:"));
}

#[test]
fn drive_marker_needs_both_characters_side_by_side() {
    assert!(!path_has_drive_marker(""));
    assert!(!path_has_drive_marker("C"));
    assert!(!path_has_drive_marker(":"));
    assert!(!path_has_drive_marker(":C"));
    assert!(!path_has_drive_marker("C :"));
    assert!(!path_has_drive_marker("c:"));
    assert!(!path_has_drive_marker("D:\\"));
    assert!(!path_has_drive_marker("/"));
    assert!(!path_has_drive_marker("C\u{fe55}"));
}

#[test]
fn drive_marker_is_counted_in_characters_not_bytes() {
    assert!(path_has_drive_marker("\u{e9}t\u{e9}/C:/"));
    assert!(path_has_drive_marker("\u{1f4be}C:"));
    assert!(!path_has_drive_marker("\u{1f4be}C\u{1f4be}:"));
}

#[test]
fn no_volumes_no_primary() {
    let disks: Vec<DiskVolume> = Vec::new();
    assert_eq!(primary_volume(&disks), None);
    assert_eq!(primary_disk_usage(&disks), (0, 0));
}

#[test]
fn no_match_no_primary() {
    let disks = vec![volume("/home", 500, 100), volume("D:\\", 900, 1), volume("/boot", 50, 5)];
    assert_eq!(primary_volume(&disks), None);
    assert_eq!(primary_disk_usage(&disks), (0, 0));
}

#[test]
fn root_volume_is_primary() {
    let disks = vec![volume("/boot", 50, 5), volume("/", 1000, 400), volume("/home", 500, 100)];
    assert_eq!(primary_volume(&disks), Some(1));
    assert_eq!(primary_disk_usage(&disks), (1000, 600));
}

#[test]
fn drive_c_is_primary_where_nothing_is_mounted_at_root() {
    let disks = vec![volume("D:\\", 900, 1), volume("C:\\", 2000, 500), volume("E:\\", 7, 7)];
    assert_eq!(primary_volume(&disks), Some(1));
    assert_eq!(primary_disk_usage(&disks), (2000, 1500));
}

#[test]
fn root_wins_over_an_earlier_drive_marker() {
    let disks = vec![volume("/mnt/C:", 900, 100), volume("/", 1000, 400)];
    assert_eq!(primary_volume(&disks), Some(1));
    assert_eq!(primary_disk_usage(&disks), (1000, 600));
}

#[test]
fn root_wins_over_a_later_drive_marker() {
    let disks = vec![volume("/", 1000, 400), volume("C:\\", 900, 100)];
    assert_eq!(primary_volume(&disks), Some(0));
    assert_eq!(primary_disk_usage(&disks), (1000, 600));
}

#[test]
fn first_of_several_roots_is_primary() {
    let disks = vec![volume("/data", 1, 1), volume("/", 10, 4), volume("/", 20, 5)];
    assert_eq!(primary_volume(&disks), Some(1));
    assert_eq!(primary_disk_usage(&disks), (10, 6));
}

#[test]
fn first_of_several_marked_volumes_is_primary() {
    let disks = vec![volume("D:", 1, 1), volume("\\\\?\\C:\\", 10, 4), volume("C:\\", 20, 5)];
    assert_eq!(primary_volume(&disks), Some(1));
    assert_eq!(primary_disk_usage(&disks), (10, 6));
}

#[test]
fn empty_primary_volume_reports_zero_used() {
    let disks = vec![volume("/", 0, 0)];
    assert_eq!(primary_volume(&disks), Some(0));
    assert_eq!(primary_disk_usage(&disks), (0, 0));
}
