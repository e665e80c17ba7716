use ciel::status::{
    inspect_instance, is_booted, is_no_such_machine, is_running, CielInstance, MachineReport,
    StatusError,
};

#[test]
fn test_inspect_instance() {
    println!(
        "{:#?}",
        inspect_instance("alpine", "alpine", false, MachineReport::Absent)
    );
}

#[test]
fn boot_detection() {
    assert_eq!(is_booted(b"/usr/lib/systemd/systemd\0--switch-root\0"), Ok(true));
    assert_eq!(is_booted(b"/sbin/init\0"), Ok(true));
    assert_eq!(is_booted(b"init\0"), Ok(true));
    assert_eq!(is_booted(b"/sbin/init/\0"), Ok(true));
    assert_eq!(is_booted(b"/bin/bash\0-c\0systemd\0"), Ok(false));
    assert_eq!(is_booted(b"/usr/bin/systemd-nspawn\0"), Ok(false));
    assert_eq!(is_booted(b"/sbin/initd\0"), Ok(false));
    assert_eq!(is_booted(b"\0"), Ok(false));
    assert_eq!(is_booted(b"/\0"), Ok(false));
    assert_eq!(is_booted(b"/usr/lib/systemd/systemd"), Err(StatusError::MalformedCmdline));
    assert_eq!(is_booted(b""), Err(StatusError::MalformedCmdline));
}

#[test]
fn running_states() {
    assert!(is_running("running"));
    assert!(is_running("degraded"));
    assert!(!is_running("opening"));
    assert!(!is_running("closing"));
    assert!(!is_running("runnin"));
}

#[test]
fn no_such_machine_error() {
    assert!(is_no_such_machine("org.freedesktop.machine1.NoSuchMachine"));
    assert!(!is_no_such_machine("org.freedesktop.DBus.Error.AccessDenied"));
}

fn check(i: &CielInstance) {
    assert!(!i.running || i.started);
    assert_eq!(i.booted.is_some(), i.started);
}

#[test]
fn absent_machine_is_not_started() {
    let i = inspect_instance("x", "x-1", true, MachineReport::Absent).unwrap();
    assert_eq!(i.name, "x");
    assert_eq!(i.ns_name, "x-1");
    assert!(i.mounted);
    assert!(!i.started);
    assert!(!i.running);
    assert_eq!(i.booted, None);
    check(&i);
}

#[test]
fn present_machine_status() {
    let i = inspect_instance(
        "x",
        "x-1",
        true,
        MachineReport::Present {
            state: "degraded".to_string(),
            leader_cmdline: Some(b"/sbin/init\0".to_vec()),
        },
    )
    .unwrap();
    assert!(i.started && i.running && i.mounted);
    assert_eq!(i.booted, Some(true));
    check(&i);

    let j = inspect_instance(
        "x",
        "x-1",
        true,
        MachineReport::Present {
            state: "closing".to_string(),
            leader_cmdline: None,
        },
    )
    .unwrap();
    assert!(j.started && !j.running);
    assert_eq!(j.booted, Some(false));
    check(&j);
}

#[test]
fn malformed_cmdline_is_an_error() {
    let r = inspect_instance(
        "x",
        "x-1",
        true,
        MachineReport::Present {
            state: "running".to_string(),
            leader_cmdline: Some(b"/bin/sh".to_vec()),
        },
    );
    assert!(matches!(r, Err(StatusError::MalformedCmdline)));
}
