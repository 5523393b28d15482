use virtme_ng_init::services::{collect_network_devices, find_udevd, fix_dpkg_locks,
    fix_packaging_files, get_guest_tools_dir, get_network_devices_step, get_network_handle,
    run_sshd, run_snapd, run_systemd_tmpfiles, run_udevd, setup_network, setup_network_lo,
    setup_socat_console, symlink_fds, DevicePoll, FdLinkPresence, ServiceBarrier};

#[test]
fn tmpfiles_only_with_systemd() {
    let c = run_systemd_tmpfiles(true).expect("expected a command");
    assert_eq!(c.program, "systemd-tmpfiles");
    assert_eq!(c.args, vec!["--create", "--boot", "--exclude-prefix=/dev",
        "--exclude-prefix=/root"]);
    assert!(run_systemd_tmpfiles(false).is_none());
}

#[test]
fn udevd_candidate_order() {
    let c = find_udevd("/bin:/usr/bin");
    assert_eq!(
        c,
        vec![
            "/usr/lib/systemd/systemd-udevd",
            "/lib/systemd/systemd-udevd",
            "/bin/udevd",
            "/usr/bin/udevd",
        ]
    );
}

#[test]
fn udevd_candidates_edge_cases() {
    // An unset search path behaves like the empty string: a bare name.
    let c = find_udevd("");
    assert_eq!(c, vec!["/usr/lib/systemd/systemd-udevd", "/lib/systemd/systemd-udevd", "udevd"]);
    // A trailing separator keeps a single slash.
    let c = find_udevd("/sbin/");
    assert_eq!(c[2], "/sbin/udevd");
}

#[test]
fn udev_bringup_commands() {
    let p = run_udevd("/lib/systemd/systemd-udevd", true);
    assert_eq!(p.helper_write, Some(("/sys/kernel/uevent_helper".to_string(), String::new())));
    assert_eq!(p.commands.len(), 4);
    assert_eq!(p.commands[0].program, "/lib/systemd/systemd-udevd");
    assert_eq!(p.commands[0].args, vec!["--daemon", "--resolve-names=never"]);
    assert_eq!(p.commands[1].program, "udevadm");
    assert_eq!(p.commands[1].args, vec!["trigger", "--type=subsystems", "--action=add"]);
    assert_eq!(p.commands[2].args, vec!["trigger", "--type=devices", "--action=add"]);
    assert_eq!(p.commands[3].args, vec!["settle"]);
    let p = run_udevd("/lib/systemd/systemd-udevd", false);
    assert!(p.helper_write.is_none());
}

#[test]
fn network_device_poll_backoff() {
    assert!(matches!(get_network_devices_step(true), DevicePoll::ReadEntries));
    match get_network_devices_step(false) {
        DevicePoll::RetryAfterMillis(ms) => assert_eq!(ms, 250),
        DevicePoll::ReadEntries => panic!("expected a retry"),
    }
}

#[test]
fn network_device_collection() {
    let entries = vec![Some("eth0".to_string()), None, Some("eth1".to_string())];
    assert_eq!(collect_network_devices(&entries), vec!["eth0", "eth1"]);
}

#[test]
fn loopback_and_dhcp_commands() {
    let lo = setup_network_lo();
    assert_eq!(lo.program, "ip");
    assert_eq!(lo.args, vec!["link", "set", "dev", "lo", "up"]);

    let c = get_network_handle("eth0", "/run/virtme/guesttools");
    assert_eq!(c.program, "busybox");
    assert_eq!(
        c.args,
        vec!["udhcpc", "-i", "eth0", "-n", "-q", "-f", "-s",
            "/run/virtme/guesttools/virtme-udhcpc-script"]
    );
}

#[test]
fn network_plan_with_and_without_dhcp() {
    let tools = "/run/virtme/guesttools".to_string();
    let devices = vec!["eth0".to_string(), "eth1".to_string()];
    let p = setup_network("quiet virtme.dhcp ro", &devices, Some(&tools));
    assert_eq!(
        p.ping_range_write,
        Some(("/proc/sys/net/ipv4/ping_group_range".to_string(), "0 2147483647".to_string()))
    );
    assert_eq!(p.dhcp_clients.len(), 2);
    assert_eq!(p.dhcp_clients[1].args[2], "eth1");

    let p = setup_network("quiet ro", &devices, Some(&tools));
    assert!(p.ping_range_write.is_none());
    assert_eq!(p.dhcp_clients.len(), 0);

    let p = setup_network("quiet virtme.dhcp ro", &devices, None);
    assert!(p.ping_range_write.is_some());
    assert_eq!(p.dhcp_clients.len(), 0);
}

#[test]
fn fd_symlinks_only_where_absent() {
    let none_present = FdLinkPresence {
        dev_fd: false,
        dev_stdin: false,
        dev_stdout: false,
        dev_stderr: false,
    };
    let links = symlink_fds(&none_present);
    assert_eq!(links.len(), 4);
    assert_eq!(links[0], ("/proc/self/fd".to_string(), "/dev/fd".to_string()));
    assert_eq!(links[1], ("/proc/self/fd/0".to_string(), "/dev/stdin".to_string()));
    assert_eq!(links[3], ("/proc/self/fd/2".to_string(), "/dev/stderr".to_string()));

    let some_present = FdLinkPresence {
        dev_fd: true,
        dev_stdin: false,
        dev_stdout: true,
        dev_stderr: false,
    };
    let links = symlink_fds(&some_present);
    assert_eq!(links.len(), 2);
    assert_eq!(links[0].1, "/dev/stdin");
    assert_eq!(links[1].1, "/dev/stderr");
}

#[test]
fn dpkg_lock_stubs() {
    let stubs = fix_dpkg_locks(true);
    assert_eq!(stubs.len(), 3);
    assert_eq!(stubs[0].stub.path, "/run/tmp/lock");
    assert_eq!(stubs[0].stub.mode, 0o640);
    assert_eq!(stubs[0].stub.contents, "");
    assert_eq!(stubs[0].bind.source, "/run/tmp/lock");
    assert_eq!(stubs[0].bind.target, "/var/lib/dpkg/lock");
    assert_eq!(stubs[1].stub.path, "/run/tmp/lock-frontend");
    assert_eq!(stubs[2].stub.path, "/run/tmp/Lock");
    assert_eq!(stubs[2].bind.target, "/var/lib/dpkg/triggers/Lock");
    assert_eq!(fix_dpkg_locks(false).len(), 0);
    assert_eq!(fix_packaging_files(true).len(), 3);
    assert_eq!(fix_packaging_files(false).len(), 0);
}

#[test]
fn sshd_gated_by_parameter_and_tools() {
    let tools = "/run/virtme/guesttools".to_string();
    let c = run_sshd("quiet virtme.ssh", Some(&tools)).expect("expected the script");
    assert_eq!(c.program, "/run/virtme/guesttools/virtme-sshd-script");
    assert_eq!(c.args.len(), 0);
    assert!(run_sshd("quiet", Some(&tools)).is_none());
    assert!(run_sshd("quiet virtme.ssh", None).is_none());
}

#[test]
fn snapd_gated_by_parameter_and_files() {
    let tools = "/run/virtme/guesttools".to_string();
    let p = run_snapd("virtme.snapd", true, true, Some(&tools), true);
    assert_eq!(p.daemon, Some("/usr/lib/snapd/snapd".to_string()));
    let script = p.tools_script.expect("expected the tools script");
    assert_eq!(script.program, "/run/virtme/guesttools/virtme-snapd-script");
    let aa = p.apparmor.expect("expected the confinement helper");
    assert_eq!(aa.program, "/usr/lib/snapd/snapd-apparmor");
    assert_eq!(aa.args, vec!["start"]);

    let p = run_snapd("virtme.snapd", false, true, Some(&tools), true);
    assert!(p.daemon.is_none() && p.tools_script.is_none() && p.apparmor.is_none());
    let p = run_snapd("quiet", true, true, Some(&tools), true);
    assert!(p.daemon.is_none());
    let p = run_snapd("virtme.snapd", true, true, None, false);
    assert!(p.daemon.is_some() && p.tools_script.is_none() && p.apparmor.is_none());
}

#[test]
fn socat_console_plan() {
    let path = "/mnt/vsock".to_string();
    let p = setup_socat_console("virtme.vsockexec=`/bin/sh -l` quiet", Some(&path))
        .expect("expected a proxy plan");
    assert_eq!(p.command.program, "socat");
    assert_eq!(p.command.args[0], "VSOCK-LISTEN:1024,reuseaddr,fork");
    assert_eq!(p.command.args[1], "EXEC:\"/bin/sh -l\",pty,stderr,setsid,sigint,sane,echo=0");
    let m = p.mount.expect("expected the pass-through mount");
    assert_eq!(m.dir, "/mnt/vsock");
    assert_eq!(m.mount.source, "virtme.vsockmount");
    assert_eq!(m.mount.fs_type, "9p");

    let p = setup_socat_console("virtme.vsockexec=`sh` quiet", None).unwrap();
    assert!(p.mount.is_none());
    assert!(setup_socat_console("quiet", Some(&path)).is_none());
}

#[test]
fn barrier_blocks_until_every_task_returns() {
    let mut b = ServiceBarrier::new();
    assert!(b.join_point_reached());
    b.spawn_task();
    b.spawn_task();
    b.spawn_task();
    assert!(!b.join_point_reached());
    b.task_joined();
    b.task_joined();
    assert!(!b.join_point_reached());
    b.task_joined();
    assert!(b.join_point_reached());
}

#[test]
fn guest_tools_dir_from_exe_path() {
    assert_eq!(
        get_guest_tools_dir("/run/virtme/guesttools/bin/virtme-ng-init"),
        Some("/run/virtme/guesttools".to_string())
    );
    assert_eq!(get_guest_tools_dir("/a/b"), Some("/".to_string()));
    assert_eq!(get_guest_tools_dir("/a"), None);
    assert_eq!(get_guest_tools_dir("plain"), None);
}
