use ciel::commands::{
    bind_mount_requests, exec_args, exit_code, nspawn_args, nspawn_env, poweroff_args,
    poweroff_outcome,
};
use ciel::listing::{list_instances_simple, DirEntry};

#[test]
fn nspawn_arguments() {
    let extra = vec!["--bind=/a:/b".to_string()];
    assert_eq!(
        nspawn_args("x-1", "/ws/x", &extra),
        vec![
            "-qb",
            "--capability=CAP_IPC_LOCK",
            "--system-call-filter=swapcontext",
            "--bind=/a:/b",
            "-D",
            "/ws/x",
            "-M",
            "x-1",
            "--"
        ]
    );
    assert_eq!(
        nspawn_env(),
        ("SYSTEMD_NSPAWN_TMPFS_TMP".to_string(), "0".to_string())
    );
}

#[test]
fn exec_arguments() {
    let args = vec!["/bin/true".to_string()];
    assert_eq!(
        exec_args("x-1", false, &args),
        vec!["--setenv=HOME=/root", "-M", "x-1", "-qt", "--", "/bin/true"]
    );
    assert_eq!(
        exec_args("x-1", true, &args),
        vec![
            "--setenv=HOME=/root",
            "--setenv=ABSTAGE2=1",
            "-M",
            "x-1",
            "-qt",
            "--",
            "/bin/true"
        ]
    );
}

#[test]
fn poweroff_arguments() {
    assert_eq!(
        poweroff_args("x-1"),
        vec!["-M", "x-1", "-q", "--no-block", "--", "poweroff"]
    );
    assert_eq!(poweroff_outcome(Some(0)), Ok(()));
    assert_eq!(poweroff_outcome(Some(3)), Err(3));
    assert_eq!(poweroff_outcome(None), Err(127));
}

#[test]
fn exit_codes() {
    assert_eq!(exit_code(Some(0)), 0);
    assert_eq!(exit_code(Some(2)), 2);
    assert_eq!(exit_code(None), 127);
}

#[test]
fn bind_mounts_are_best_effort() {
    let mounts = vec![
        (Some("/real/output".to_string()), "/debs".to_string()),
        (None, "/missing".to_string()),
        (Some("/real/tree".to_string()), "/tree".to_string()),
    ];
    let r = bind_mount_requests(&mounts);
    assert_eq!(r.len(), 2);
    assert_eq!(r[0].source, "/real/output");
    assert_eq!(r[0].dest, "/debs");
    assert_eq!(r[1].source, "/real/tree");
    assert_eq!(r[1].dest, "/tree");
    assert!(r.iter().all(|m| !m.read_only && m.mkdir));
}

#[test]
fn instance_names_are_the_subdirectories() {
    let entries = vec![
        DirEntry { name: "a".to_string(), is_dir: true },
        DirEntry { name: "notes.txt".to_string(), is_dir: false },
        DirEntry { name: "b".to_string(), is_dir: true },
    ];
    assert_eq!(list_instances_simple(&entries), vec!["a", "b"]);
    assert!(list_instances_simple(&Vec::new()).is_empty());
}
