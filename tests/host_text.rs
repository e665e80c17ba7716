use ciel::mounts::mount_entry_matches;
use ciel::workspace::{is_legacy_version, parse_version};

#[test]
fn overlay_entry_is_found() {
    let line = "overlay /ws/.ciel/container/instances/x overlay rw,relatime,lowerdir=/a 0 0";
    assert!(mount_entry_matches(line, "/ws/.ciel/container/instances/x", "overlay"));
    assert!(!mount_entry_matches(line, "/ws/.ciel/container/instances/y", "overlay"));
    assert!(!mount_entry_matches(line, "/ws/.ciel/container/instances", "overlay"));
    assert!(!mount_entry_matches(
        "/dev/sda1 /ws/.ciel/container/instances/x ext4 rw 0 0",
        "/ws/.ciel/container/instances/x",
        "overlay"
    ));
}

#[test]
fn escaped_mount_points_are_decoded() {
    let line = "overlay /home/my\\040ws/x overlay rw 0 0";
    assert!(mount_entry_matches(line, "/home/my ws/x", "overlay"));
    assert!(!mount_entry_matches(line, "/home/my\\040ws/x", "overlay"));
    assert!(mount_entry_matches("overlay /a\\134b overlay rw 0 0", "/a\\b", "overlay"));
    assert!(mount_entry_matches("overlay /a\\011b\\012 overlay rw", "/a\tb\n", "overlay"));
    assert!(mount_entry_matches("overlay /a\\041 overlay rw", "/a\\041", "overlay"));
}

#[test]
fn short_lines_match_nothing() {
    assert!(!mount_entry_matches("", "", ""));
    assert!(!mount_entry_matches("overlay /x", "/x", ""));
    assert!(mount_entry_matches("overlay /x overlay", "/x", "overlay"));
}

#[test]
fn version_marker() {
    assert_eq!(parse_version("3\n"), Some(3));
    assert_eq!(parse_version("  12 \t"), Some(12));
    assert_eq!(parse_version("18446744073709551615"), Some(u64::MAX));
    assert_eq!(parse_version("18446744073709551616"), None);
    assert_eq!(parse_version(""), None);
    assert_eq!(parse_version(" \n"), None);
    assert_eq!(parse_version("3a"), None);
    assert_eq!(parse_version("1 2"), None);
    assert_eq!(is_legacy_version("2\n"), Some(true));
    assert_eq!(is_legacy_version("0"), Some(true));
    assert_eq!(is_legacy_version("3\n"), Some(false));
    assert_eq!(is_legacy_version("4"), Some(false));
    assert_eq!(is_legacy_version("v3"), None);
}
