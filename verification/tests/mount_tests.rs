use virtme_ng_init::mounts::{mount_cgroupfs, mount_failure_disposition, mount_kernel_filesystems,
    mount_kernel_modules, mount_sys_filesystems, mount_virtme_initmounts, mount_virtme_overlays,
    MountFailure, MountOutcome, MountStep, MountTableModel, MS_BIND, MS_NODEV, MS_NOEXEC,
    MS_NOSUID};

#[test]
fn kernel_table_in_order() {
    let plan = mount_kernel_filesystems(None);
    assert_eq!(plan.len(), 8);
    assert_eq!(plan[0].source, "proc");
    assert_eq!(plan[0].target, "/proc");
    assert_eq!(plan[0].fs_type, "proc");
    assert_eq!(plan[0].flags, MS_NOSUID | MS_NOEXEC | MS_NODEV);
    assert_eq!(plan[0].fsdata, "");
    assert_eq!(plan[1].target, "/sys");
    assert_eq!(plan[2].target, "/run");
    assert_eq!(plan[2].fsdata, "mode=0755");
    assert_eq!(plan[3].target, "/dev");
    assert_eq!(plan[3].flags, MS_NOSUID | MS_NOEXEC);
    assert_eq!(plan[7].target, "/sys/kernel/security");
}

#[test]
fn run_skipped_when_tools_live_under_it() {
    let tools = "/run/virtme/guesttools".to_string();
    let plan = mount_kernel_filesystems(Some(&tools));
    assert_eq!(plan.len(), 7);
    assert!(plan.iter().all(|m| m.target != "/run"));
    assert_eq!(plan[2].target, "/dev");

    let elsewhere = "/opt/tools".to_string();
    let plan = mount_kernel_filesystems(Some(&elsewhere));
    assert_eq!(plan.len(), 8);
    assert_eq!(plan[2].target, "/run");
}

#[test]
fn system_mounts_and_dirs() {
    let plan = mount_sys_filesystems();
    assert_eq!(plan.dirs, vec!["/dev/pts", "/dev/shm", "/run/dbus"]);
    assert_eq!(plan.mounts.len(), 12);
    assert_eq!(plan.mounts[0].source, "devpts");
    assert_eq!(plan.mounts[0].target, "/dev/pts");
    assert_eq!(plan.mounts[0].flags, MS_NOSUID | MS_NOEXEC);
    assert_eq!(plan.mounts[1].target, "/dev/shm");
    assert_eq!(plan.mounts[1].flags, MS_NOSUID | MS_NODEV);
    assert_eq!(plan.mounts[11].target, "/var/lib/snapd/cookie");
}

#[test]
fn cgroup_layouts() {
    let plan = mount_cgroupfs("quiet SYSTEMD_CGROUP_ENABLE_LEGACY_FORCE=1 ro");
    assert_eq!(plan.len(), 13);
    match &plan[0] {
        MountStep::Apply(m) => {
            assert_eq!(m.source, "cgroup");
            assert_eq!(m.target, "/sys/fs/cgroup");
            assert_eq!(m.fs_type, "tmpfs");
        },
        _ => panic!("expected the control-group root mount"),
    }
    match &plan[1] {
        MountStep::Dir(d) => assert_eq!(d, "/sys/fs/cgroup/cpu"),
        _ => panic!("expected a directory step"),
    }
    match &plan[12] {
        MountStep::Apply(m) => {
            assert_eq!(m.source, "pids");
            assert_eq!(m.fsdata, "pids");
        },
        _ => panic!("expected the last subsystem mount"),
    }

    let plan = mount_cgroupfs("quiet ro");
    assert_eq!(plan.len(), 1);
    match &plan[0] {
        MountStep::Apply(m) => {
            assert_eq!(m.source, "cgroup2");
            assert_eq!(m.fs_type, "cgroup2");
        },
        _ => panic!("expected the unified mount"),
    }
}

#[test]
fn kernel_module_branches() {
    // Modules already set up on the root filesystem: nothing beyond the
    // directory guard.
    let plan = mount_kernel_modules("6.1.0", true, None, true);
    assert_eq!(plan.len(), 0);
    let plan = mount_kernel_modules("6.1.0", true, None, false);
    assert_eq!(plan.len(), 1);
    match &plan[0] {
        MountStep::Dir(d) => assert_eq!(d, "/lib/modules"),
        _ => panic!("expected the directory step"),
    }

    // Linked modules: a tmpfs over the module root, then the link.
    let dir = "/tmp/mods".to_string();
    let plan = mount_kernel_modules("6.1.0", false, Some(&dir), true);
    assert_eq!(plan.len(), 2);
    match &plan[1] {
        MountStep::Link { src, dst } => {
            assert_eq!(src, "/tmp/mods");
            assert_eq!(dst, "/lib/modules/6.1.0");
        },
        _ => panic!("expected the link step"),
    }

    // Mismatched modules present: masked off behind a read-only tmpfs.
    let plan = mount_kernel_modules("6.1.0", false, None, true);
    assert_eq!(plan.len(), 1);
    match &plan[0] {
        MountStep::Apply(m) => {
            assert_eq!(m.source, "disallow_kmod");
            assert_eq!(m.target, "/lib/modules/6.1.0");
            assert_eq!(m.fsdata, "ro,mode=0000");
        },
        _ => panic!("expected the masking mount"),
    }

    // No modules anywhere: only the directory guard.
    let plan = mount_kernel_modules("6.1.0", false, None, false);
    assert_eq!(plan.len(), 1);
}

#[test]
fn overlay_requests_from_environment() {
    let env = vec![
        ("virtme_rw_overlay0".to_string(), "/home".to_string()),
        ("OTHER".to_string(), "x".to_string()),
        ("virtme_rw_overlay1".to_string(), "/etc".to_string()),
    ];
    let plan = mount_virtme_overlays(&env);
    assert_eq!(plan.scratch_root, "/run/tmp/");
    assert_eq!(plan.overlays.len(), 2);
    let o = &plan.overlays[0];
    assert_eq!(o.source, "virtme_rw_overlay0");
    assert_eq!(o.target, "/home");
    assert_eq!(o.dir, "/run/tmp/virtme_rw_overlay0");
    assert_eq!(o.upper, "/run/tmp/virtme_rw_overlay0/upper");
    assert_eq!(o.work, "/run/tmp/virtme_rw_overlay0/work");
    assert_eq!(
        o.options,
        "xino=off,lowerdir=/home,upperdir=/run/tmp/virtme_rw_overlay0/upper,workdir=/run/tmp/virtme_rw_overlay0/work"
    );
    assert_eq!(
        o.fallback_options,
        "lowerdir=/home,upperdir=/run/tmp/virtme_rw_overlay0/upper,workdir=/run/tmp/virtme_rw_overlay0/work"
    );
    assert_eq!(plan.overlays[1].target, "/etc");
}

#[test]
fn no_overlay_requests() {
    let env = vec![("PATH".to_string(), "/bin".to_string())];
    let plan = mount_virtme_overlays(&env);
    assert_eq!(plan.overlays.len(), 0);
}

#[test]
fn initmount_requests_from_environment() {
    let env = vec![
        ("virtme_initmount0".to_string(), "/mnt/foo".to_string()),
        ("HOME".to_string(), "/root".to_string()),
    ];
    let plan = mount_virtme_initmounts(&env);
    assert_eq!(plan.len(), 1);
    assert_eq!(plan[0].dir, "/mnt/foo");
    assert_eq!(plan[0].mount.source, "virtme.initmount0");
    assert_eq!(plan[0].mount.target, "/mnt/foo");
    assert_eq!(plan[0].mount.fs_type, "9p");
    assert_eq!(plan[0].mount.fsdata, "version=9p2000.L,trans=virtio,access=any");
}

#[test]
fn failure_disposition() {
    assert!(matches!(mount_failure_disposition(2), MountFailure::Silent));
    assert!(matches!(mount_failure_disposition(13), MountFailure::Logged));
    assert!(matches!(mount_failure_disposition(16), MountFailure::Logged));
}

#[test]
fn applying_kernel_table_twice_is_non_fatal() {
    let plan = mount_kernel_filesystems(None);
    let mut model = MountTableModel::new();
    let first = model.apply_table(&plan);
    assert_eq!(first.len(), plan.len());
    assert!(first.iter().all(|o| matches!(o, MountOutcome::Mounted)));
    // The second application completes, and every attempt fails as
    // already-mounted: a logged, non-fatal outcome.
    let second = model.apply_table(&plan);
    assert_eq!(second.len(), plan.len());
    assert!(second.iter().all(|o| matches!(o, MountOutcome::AlreadyMounted)));
}

#[test]
fn bind_flag_value() {
    assert_eq!(MS_BIND, 4096);
}
