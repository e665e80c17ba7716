use ciel::naming::{
    format_ns_name, get_container_ns_name, legacy_container_name, new_container_name, Layout,
    NameError,
};

#[test]
fn test_container_name() {
    assert_eq!(
        get_container_ns_name("/root", "/tmp/", Layout::Current).unwrap(),
        "tmp-51601b0".to_string()
    );
    println!(
        "{:#?}",
        get_container_ns_name("/root", "/tmp/", Layout::Legacy { key: 0x1a2b }).unwrap()
    );
}

#[test]
fn relative_path_is_joined_onto_current_dir() {
    assert_eq!(
        get_container_ns_name("/", "tmp/", Layout::Current),
        Ok("tmp-51601b0".to_string())
    );
    assert_eq!(
        get_container_ns_name("", "/tmp/", Layout::Current),
        Ok("tmp-51601b0".to_string())
    );
}

#[test]
fn name_is_stable() {
    let a = get_container_ns_name("/home/u/ws/.ciel/container/instances", "main", Layout::Current);
    let b = get_container_ns_name("/home/u/ws/.ciel/container/instances", "main", Layout::Current);
    assert_eq!(a, b);
    assert!(a.unwrap().starts_with("main-"));
}

#[test]
fn name_changes_with_one_byte_of_workspace() {
    let a = new_container_name("/home/u/ws1/main").unwrap();
    let b = new_container_name("/home/u/ws2/main").unwrap();
    assert_ne!(a, b);
    assert!(a.starts_with("main-") && b.starts_with("main-"));
}

#[test]
fn names_in_one_workspace_are_distinct() {
    let a = get_container_ns_name("/ws", "a", Layout::Current).unwrap();
    let b = get_container_ns_name("/ws", "b", Layout::Current).unwrap();
    let c = get_container_ns_name("/ws", "a-1", Layout::Current).unwrap();
    assert_ne!(a, b);
    assert_ne!(a, c);
    assert_ne!(b, c);
}

#[test]
fn path_without_final_component_is_refused() {
    assert_eq!(new_container_name("/"), Err(NameError::InvalidPath));
    assert_eq!(new_container_name("/tmp/.."), Err(NameError::InvalidPath));
    assert_eq!(new_container_name(""), Err(NameError::InvalidPath));
    assert_eq!(legacy_container_name("/", 5), Err(NameError::InvalidPath));
}

#[test]
fn dot_segments_are_skipped() {
    assert_eq!(
        new_container_name("/tmp/./"),
        Ok(format!("tmp-{}", adler32_hex(b"/tmp/./")))
    );
}

fn adler32_hex(b: &[u8]) -> String {
    let mut a: u32 = 1;
    let mut s: u32 = 0;
    for x in b {
        a = (a + *x as u32) % 65521;
        s = (s + a) % 65521;
    }
    format!("{:x}", (s << 16) | a)
}

#[test]
fn legacy_names_use_the_key() {
    assert_eq!(legacy_container_name("/ws/inst", 0x1f), Ok("inst-1f".to_string()));
    assert_eq!(legacy_container_name("/ws/inst", 0), Ok("inst-0".to_string()));
    assert_eq!(legacy_container_name("/ws/inst", -1), Err(NameError::KeyFailed));
    assert_eq!(
        get_container_ns_name("/ws", "inst", Layout::Legacy { key: 0x7fffffff }),
        Ok("inst-7fffffff".to_string())
    );
}

#[test]
fn hex_formatting() {
    assert_eq!(format_ns_name("x", 0), "x-0");
    assert_eq!(format_ns_name("x", 255), "x-ff");
    assert_eq!(format_ns_name("x", 0x51601b0), "x-51601b0");
    assert_eq!(format_ns_name("x", u32::MAX), "x-ffffffff");
}

#[test]
fn checksum_covers_the_whole_path() {
    assert_eq!(new_container_name("/tmp"), Ok("tmp-3660181".to_string()));
    assert_eq!(new_container_name("/tmp/"), Ok("tmp-51601b0".to_string()));
}
