//! Service bring-up planning: the concurrent tasks' command lines, the
//! fan-out/join barrier, and the miscellaneous fixups.

use vstd::prelude::*;

use crate::mounts::{InitMount, MountEntry, MountSpec, MS_BIND};
use crate::script::{extract_vsock_exec, payload_after_marker, vsock_marker, FileSpec};
use crate::strfind::{base_name, base_name_of, contains_seq, filtered_map, find_str,
    lemma_filtered_map_extend, path_join, replace_underscores, split_fields, split_on};

verus! {

/// An external command: a program and its arguments.
pub struct CmdSpec {
    pub program: String,
    pub args: Vec<String>,
}

/// The plain value of a command.
pub ghost struct CmdEntry {
    pub program: Seq<char>,
    pub args: Seq<Seq<char>>,
}

impl CmdSpec {
    /// The plain value of this command.
    pub open spec fn entry(self) -> CmdEntry {
        CmdEntry { program: self.program@, args: self.args@.map_values(|a: String| a@) }
    }

    /// A command without arguments.
    pub fn new(program: &str) -> (c: CmdSpec)
        ensures
            c.entry() == (CmdEntry { program: program@, args: Seq::<Seq<char>>::empty() }),
    {
        let c = CmdSpec { program: program.to_owned(), args: Vec::new() };
        proof {
            assert(c.args@.map_values(|a: String| a@) =~= Seq::<Seq<char>>::empty());
        }
        c
    }

    /// A command without arguments whose program name is already owned.
    pub fn new_owned(program: String) -> (c: CmdSpec)
        ensures
            c.entry() == (CmdEntry { program: program@, args: Seq::<Seq<char>>::empty() }),
    {
        let c = CmdSpec { program, args: Vec::new() };
        proof {
            assert(c.args@.map_values(|a: String| a@) =~= Seq::<Seq<char>>::empty());
        }
        c
    }

    /// Appends one argument.
    pub fn arg(&mut self, a: &str)
        ensures
            final(self).entry() == (CmdEntry {
                program: old(self).entry().program,
                args: old(self).entry().args + seq![a@],
            }),
    {
        self.args.push(a.to_owned());
        proof {
            assert(final(self).args@.map_values(|x: String| x@) =~= old(self).args@.map_values(
                |x: String| x@,
            ) + seq![a@]);
        }
    }

    /// Appends one owned argument.
    pub fn arg_owned(&mut self, a: String)
        ensures
            final(self).entry() == (CmdEntry {
                program: old(self).entry().program,
                args: old(self).entry().args + seq![a@],
            }),
    {
        let ghost av = a@;
        self.args.push(a);
        proof {
            assert(final(self).args@.map_values(|x: String| x@) =~= old(self).args@.map_values(
                |x: String| x@,
            ) + seq![av]);
        }
    }
}

/// The fan-out/join barrier of the service orchestrator: tasks are
/// spawned, each is joined exactly once, and the boot sequence advances
/// only when every spawned task has returned.
pub struct ServiceBarrier {
    pub spawned: u64,
    pub joined: u64,
}

impl ServiceBarrier {
    /// The barrier's invariant: no task is joined twice.
    pub open spec fn wf(self) -> bool {
        self.joined <= self.spawned
    }

    /// A barrier with no tasks.
    pub fn new() -> (b: ServiceBarrier)
        ensures
            b.spawned == 0,
            b.joined == 0,
            b.wf(),
    {
        ServiceBarrier { spawned: 0, joined: 0 }
    }

    /// Records one spawned task.
    pub fn spawn_task(&mut self)
        requires
            old(self).wf(),
            old(self).spawned < u64::MAX,
        ensures
            final(self).spawned == old(self).spawned + 1,
            final(self).joined == old(self).joined,
            final(self).wf(),
    {
        self.spawned = self.spawned + 1;
    }

    /// Records one task that returned and was joined.
    pub fn task_joined(&mut self)
        requires
            old(self).wf(),
            old(self).joined < old(self).spawned,
        ensures
            final(self).joined == old(self).joined + 1,
            final(self).spawned == old(self).spawned,
            final(self).wf(),
    {
        self.joined = self.joined + 1;
    }

    /// Whether the join point is reached: true exactly when every spawned
    /// task has returned, so no code after the barrier runs with a task
    /// outstanding.
    pub fn join_point_reached(&self) -> (r: bool)
        requires
            self.wf(),
        ensures
            r <==> self.joined == self.spawned,
    {
        self.joined == self.spawned
    }
}

/// With any task still outstanding, the join point is not reached: the
/// boot sequence cannot advance past the barrier before every spawned
/// task has returned.
pub proof fn lemma_barrier_blocks_until_all_joined(b: ServiceBarrier)
    requires
        b.wf(),
        b.joined < b.spawned,
    ensures
        !(b.joined == b.spawned),
{
}

/// The fixed arguments of the boot-time tmpfiles run.
pub open spec fn tmpfiles_entry() -> CmdEntry {
    CmdEntry {
        program: "systemd-tmpfiles"@,
        args: seq!["--create"@, "--boot"@, "--exclude-prefix=/dev"@, "--exclude-prefix=/root"@],
    }
}

/// Decides the boot-time tmpfiles run: only on systems that carry the
/// systemd configuration directory.
pub fn run_systemd_tmpfiles(etc_systemd_exists: bool) -> (r: Option<CmdSpec>)
    ensures
        (match r {
            Some(c) => etc_systemd_exists && c.entry() == tmpfiles_entry(),
            None => !etc_systemd_exists,
        }),
{
    if etc_systemd_exists {
        let mut c = CmdSpec::new("systemd-tmpfiles");
        c.arg("--create");
        c.arg("--boot");
        c.arg("--exclude-prefix=/dev");
        c.arg("--exclude-prefix=/root");
        proof {
            assert(c.entry().args =~= tmpfiles_entry().args);
        }
        Some(c)
    } else {
        None
    }
}

/// The candidate locations of the device-manager daemon: two well-known
/// absolute paths, then `udevd` under every entry of the search path.
pub open spec fn udevd_candidates(path_var: Seq<char>) -> Seq<Seq<char>> {
    seq!["/usr/lib/systemd/systemd-udevd"@, "/lib/systemd/systemd-udevd"@] + split_on(
        path_var,
        ':',
    ).map_values(|d: Seq<char>| path_join(d, "udevd"@))
}

/// Lists the candidate daemon locations in search order; the caller takes
/// the first that exists.
pub fn find_udevd(path_var: &str) -> (c: Vec<String>)
    ensures
        c@.map_values(|p: String| p@) == udevd_candidates(path_var@),
{
    let mut c: Vec<String> = Vec::new();
    c.push("/usr/lib/systemd/systemd-udevd".to_owned());
    c.push("/lib/systemd/systemd-udevd".to_owned());
    let pieces = split_fields(path_var, ':');
    let n = pieces.len();
    let mut i: usize = 0;
    while i < n
        invariant
            n == pieces@.len(),
            i <= n,
            pieces@.map_values(|t: String| t@) == split_on(path_var@, ':'),
            c@.len() == 2 + i,
            c@[0]@ == "/usr/lib/systemd/systemd-udevd"@,
            c@[1]@ == "/lib/systemd/systemd-udevd"@,
            forall|k: int| 0 <= k < i ==> (#[trigger] c@[2 + k])@ == path_join(
                pieces@[k]@,
                "udevd"@,
            ),
        decreases n - i,
    {
        let d: &String = &pieces[i];
        let dlen = d.as_str().unicode_len();
        proof {
            reveal_strlit("/");
        }
        if dlen == 0 {
            c.push("udevd".to_owned());
        } else if d.as_str().get_char(dlen - 1) == '/' {
            let mut p = d.clone();
            p.append("udevd");
            c.push(p);
        } else {
            let mut p = d.clone();
            p.append("/");
            p.append("udevd");
            c.push(p);
        }
        proof {
            assert(pieces@.map_values(|t: String| t@)[i as int] == pieces@[i as int]@);
        }
        i += 1;
    }
    proof {
        let target = udevd_candidates(path_var@);
        let sp = split_on(path_var@, ':');
        assert(sp.len() == n);
        assert forall|k: int| #![trigger c@[k]] 0 <= k < c@.len() implies c@.map_values(
            |p: String| p@,
        )[k] == target[k] by {
            assert(c@.map_values(|p: String| p@)[k] == c@[k]@);
            if k >= 2 {
                assert(c@[2 + (k - 2)]@ == path_join(pieces@[k - 2]@, "udevd"@));
                assert(sp[k - 2] == pieces@.map_values(|t: String| t@)[k - 2]);
                assert(sp.map_values(|d: Seq<char>| path_join(d, "udevd"@))[k - 2] == path_join(
                    sp[k - 2],
                    "udevd"@,
                ));
            }
        }
        assert(c@.map_values(|p: String| p@) =~= target);
    }
    c
}

/// The command sequence of the device-manager task: run the daemon
/// detached, replay subsystem and device add events, and wait for the
/// event queue to settle.
pub open spec fn udev_commands(udevd_path: Seq<char>) -> Seq<CmdEntry> {
    seq![
        CmdEntry { program: udevd_path, args: seq!["--daemon"@, "--resolve-names=never"@] },
        CmdEntry {
            program: "udevadm"@,
            args: seq!["trigger"@, "--type=subsystems"@, "--action=add"@],
        },
        CmdEntry {
            program: "udevadm"@,
            args: seq!["trigger"@, "--type=devices"@, "--action=add"@],
        },
        CmdEntry { program: "udevadm"@, args: seq!["settle"@] },
    ]
}

/// The device-manager task's plan: first neutralize the event helper
/// when the kernel exposes it (it kills boot performance), then the
/// daemon and coldplug commands in order.
pub struct UdevPlan {
    pub helper_write: Option<(String, String)>,
    pub commands: Vec<CmdSpec>,
}

/// Plans the device-manager bring-up for the daemon found at `udevd_path`.
pub fn run_udevd(udevd_path: &str, uevent_helper_present: bool) -> (p: UdevPlan)
    ensures
        (match p.helper_write {
            Some(w) => uevent_helper_present && w.0@ == "/sys/kernel/uevent_helper"@ && w.1@.len()
                == 0,
            None => !uevent_helper_present,
        }),
        p.commands@.map_values(|c: CmdSpec| c.entry()) == udev_commands(udevd_path@),
{
    let helper_write = if uevent_helper_present {
        Some(("/sys/kernel/uevent_helper".to_owned(), String::new()))
    } else {
        None
    };
    let mut commands: Vec<CmdSpec> = Vec::new();
    let mut c0 = CmdSpec::new(udevd_path);
    c0.arg("--daemon");
    c0.arg("--resolve-names=never");
    commands.push(c0);
    let mut c1 = CmdSpec::new("udevadm");
    c1.arg("trigger");
    c1.arg("--type=subsystems");
    c1.arg("--action=add");
    commands.push(c1);
    let mut c2 = CmdSpec::new("udevadm");
    c2.arg("trigger");
    c2.arg("--type=devices");
    c2.arg("--action=add");
    commands.push(c2);
    let mut c3 = CmdSpec::new("udevadm");
    c3.arg("settle");
    commands.push(c3);
    proof {
        assert(c0.entry().args =~= udev_commands(udevd_path@)[0].args);
        assert(c1.entry().args =~= udev_commands(udevd_path@)[1].args);
        assert(c2.entry().args =~= udev_commands(udevd_path@)[2].args);
        assert(c3.entry().args =~= udev_commands(udevd_path@)[3].args);
        assert(commands@.map_values(|c: CmdSpec| c.entry()) =~= udev_commands(udevd_path@));
    }
    UdevPlan { helper_write, commands }
}

/// One step of the poll for virtual network devices: read the registered
/// devices once the sysfs subtree exists, else wait a fixed backoff and
/// try again, since device registration races with orchestrator startup.
pub enum DevicePoll {
    ReadEntries,
    RetryAfterMillis(u64),
}

/// Decides one iteration of the network-device poll.
pub fn get_network_devices_step(sysfs_ready: bool) -> (d: DevicePoll)
    ensures
        sysfs_ready ==> d is ReadEntries,
        !sysfs_ready ==> (d matches DevicePoll::RetryAfterMillis(ms) && ms == 250),
{
    if sysfs_ready {
        DevicePoll::ReadEntries
    } else {
        DevicePoll::RetryAfterMillis(250)
    }
}

/// The network device names among the scanned directory entries: the
/// first name under each device directory that has one.
pub fn collect_network_devices(entries: &Vec<Option<String>>) -> (devs: Vec<String>)
    ensures
        devs@.map_values(|d: String| d@) == filtered_map(
            entries@.map_values(
                |o: Option<String>|
                    match o {
                        Some(s) => Some(s@),
                        None => None,
                    },
            ),
            |o: Option<Seq<char>>| o,
        ),
{
    let ghost src = entries@.map_values(
        |o: Option<String>|
            match o {
                Some(s) => Some(s@),
                None => None,
            },
    );
    let ghost f = |o: Option<Seq<char>>| o;
    let mut devs: Vec<String> = Vec::new();
    let n = entries.len();
    let mut i: usize = 0;
    proof {
        assert(src.subrange(0, 0) =~= Seq::<Option<Seq<char>>>::empty());
        assert(devs@.map_values(|d: String| d@) =~= Seq::<Seq<char>>::empty());
    }
    while i < n
        invariant
            n == entries@.len(),
            i <= n,
            src == entries@.map_values(
                |o: Option<String>|
                    match o {
                        Some(s) => Some(s@),
                        None => None,
                    },
            ),
            f == (|o: Option<Seq<char>>| o),
            devs@.map_values(|d: String| d@) == filtered_map(src.subrange(0, i as int), f),
        decreases n - i,
    {
        let ghost prev = devs@.map_values(|d: String| d@);
        match &entries[i] {
            Some(name) => {
                devs.push(name.clone());
                proof {
                    assert(devs@.map_values(|d: String| d@) =~= prev + seq![name@]);
                }
            },
            None => {},
        }
        proof {
            lemma_filtered_map_extend(src, i as int, f);
            assert(src[i as int] == (match entries@[i as int] {
                Some(s) => Some(s@),
                None => None,
            }));
        }
        i += 1;
    }
    proof {
        assert(src.subrange(0, n as int) =~= src);
    }
    devs
}

/// The loopback bring-up command.
pub open spec fn loopback_entry() -> CmdEntry {
    CmdEntry { program: "ip"@, args: seq!["link"@, "set"@, "dev"@, "lo"@, "up"@] }
}

/// Plans the unconditional loopback bring-up.
pub fn setup_network_lo() -> (c: CmdSpec)
    ensures
        c.entry() == loopback_entry(),
{
    let mut c = CmdSpec::new("ip");
    c.arg("link");
    c.arg("set");
    c.arg("dev");
    c.arg("lo");
    c.arg("up");
    proof {
        assert(c.entry().args =~= loopback_entry().args);
    }
    c
}

/// The DHCP client command for one discovered device.
pub open spec fn udhcpc_entry(dev: Seq<char>, guest_tools_dir: Seq<char>) -> CmdEntry {
    CmdEntry {
        program: "busybox"@,
        args: seq![
            "udhcpc"@,
            "-i"@,
            dev,
            "-n"@,
            "-q"@,
            "-f"@,
            "-s"@,
            guest_tools_dir + "/virtme-udhcpc-script"@,
        ],
    }
}

/// Plans the DHCP client for one discovered network device.
pub fn get_network_handle(dev: &str, guest_tools_dir: &str) -> (c: CmdSpec)
    ensures
        c.entry() == udhcpc_entry(dev@, guest_tools_dir@),
{
    let mut script = guest_tools_dir.to_owned();
    script.append("/virtme-udhcpc-script");
    let mut c = CmdSpec::new("busybox");
    c.arg("udhcpc");
    c.arg("-i");
    c.arg(dev);
    c.arg("-n");
    c.arg("-q");
    c.arg("-f");
    c.arg("-s");
    c.arg_owned(script);
    proof {
        assert(c.entry().args =~= udhcpc_entry(dev@, guest_tools_dir@).args);
    }
    c
}

/// The boot parameter that enables DHCP.
pub open spec fn dhcp_token() -> Seq<char> {
    "virtme.dhcp"@
}

/// The network task's plan: the loopback bring-up always; with the DHCP
/// parameter present, the write that opens ping sockets to every group,
/// and one DHCP client per discovered device when the tools directory is
/// known.
pub struct NetworkPlan {
    pub loopback: CmdSpec,
    pub ping_range_write: Option<(String, String)>,
    pub dhcp_clients: Vec<CmdSpec>,
}

/// Plans the network bring-up.
pub fn setup_network(cmdline: &str, devices: &Vec<String>, guest_tools_dir: Option<&String>) -> (p:
    NetworkPlan)
    ensures
        p.loopback.entry() == loopback_entry(),
        (match p.ping_range_write {
            Some(w) => contains_seq(cmdline@, dhcp_token()) && w.0@
                == "/proc/sys/net/ipv4/ping_group_range"@ && w.1@ == "0 2147483647"@,
            None => !contains_seq(cmdline@, dhcp_token()),
        }),
        (if contains_seq(cmdline@, dhcp_token()) && guest_tools_dir is Some {
            &&& p.dhcp_clients@.len() == devices@.len()
            &&& forall|i: int|
                0 <= i < devices@.len() ==> (#[trigger] p.dhcp_clients@[i]).entry()
                    == udhcpc_entry(devices@[i]@, guest_tools_dir->Some_0@)
        } else {
            p.dhcp_clients@.len() == 0
        }),
{
    proof {
        reveal_strlit("virtme.dhcp");
    }
    let dhcp = match find_str(cmdline, "virtme.dhcp", 0) {
        Some(_) => true,
        None => false,
    };
    let loopback = setup_network_lo();
    let ping_range_write = if dhcp {
        Some(("/proc/sys/net/ipv4/ping_group_range".to_owned(), "0 2147483647".to_owned()))
    } else {
        None
    };
    let mut dhcp_clients: Vec<CmdSpec> = Vec::new();
    if dhcp {
        if let Some(gtd) = guest_tools_dir {
            let n = devices.len();
            let mut i: usize = 0;
            while i < n
                invariant
                    n == devices@.len(),
                    i <= n,
                    dhcp_clients@.len() == i,
                    forall|k: int|
                        0 <= k < i ==> (#[trigger] dhcp_clients@[k]).entry() == udhcpc_entry(
                            devices@[k]@,
                            gtd@,
                        ),
                decreases n - i,
            {
                let c = get_network_handle(devices[i].as_str(), gtd.as_str());
                dhcp_clients.push(c);
                i += 1;
            }
        }
    }
    NetworkPlan { loopback, ping_range_write, dhcp_clients }
}

/// The guest tools directory derived from the orchestrator's own
/// executable path: two directory levels up.
pub fn get_guest_tools_dir(exe_path: &str) -> (r: Option<String>)
    ensures
        (match crate::strfind::parent_of(exe_path@) {
            None => r is None,
            Some(p1) => (match crate::strfind::parent_of(p1) {
                None => r is None,
                Some(p2) => r matches Some(d) && d@ == p2,
            }),
        }),
{
    match crate::strfind::parent_dir(exe_path) {
        None => None,
        Some(p1) => crate::strfind::parent_dir(p1.as_str()),
    }
}

/// Which of the four file-descriptor symlink destinations already exist.
pub struct FdLinkPresence {
    pub dev_fd: bool,
    pub dev_stdin: bool,
    pub dev_stdout: bool,
    pub dev_stderr: bool,
}

/// The process file-descriptor symlinks to install into `/dev`: each of
/// the four, unless its destination is already present.
pub open spec fn fd_link_pairs(present: FdLinkPresence) -> Seq<(Seq<char>, Seq<char>)> {
    (if !present.dev_fd {
        seq![("/proc/self/fd"@, "/dev/fd"@)]
    } else {
        Seq::empty()
    }) + (if !present.dev_stdin {
        seq![("/proc/self/fd/0"@, "/dev/stdin"@)]
    } else {
        Seq::empty()
    }) + (if !present.dev_stdout {
        seq![("/proc/self/fd/1"@, "/dev/stdout"@)]
    } else {
        Seq::empty()
    }) + (if !present.dev_stderr {
        seq![("/proc/self/fd/2"@, "/dev/stderr"@)]
    } else {
        Seq::empty()
    })
}

/// Plans the `/dev` file-descriptor symlinks: source and destination for
/// each that is not already present.
pub fn symlink_fds(present: &FdLinkPresence) -> (links: Vec<(String, String)>)
    ensures
        links@.map_values(|l: (String, String)| (l.0@, l.1@)) == fd_link_pairs(*present),
{
    let mut links: Vec<(String, String)> = Vec::new();
    if !present.dev_fd {
        links.push(("/proc/self/fd".to_owned(), "/dev/fd".to_owned()));
    }
    if !present.dev_stdin {
        links.push(("/proc/self/fd/0".to_owned(), "/dev/stdin".to_owned()));
    }
    if !present.dev_stdout {
        links.push(("/proc/self/fd/1".to_owned(), "/dev/stdout".to_owned()));
    }
    if !present.dev_stderr {
        links.push(("/proc/self/fd/2".to_owned(), "/dev/stderr".to_owned()));
    }
    proof {
        assert(links@.map_values(|l: (String, String)| (l.0@, l.1@)) =~= fd_link_pairs(*present));
    }
    links
}

/// A packaging lock stub: an empty scratch file bind-mounted over the
/// canonical lock location.
pub struct LockStub {
    pub stub: FileSpec,
    pub bind: MountSpec,
}

/// What the stub for one lock path promises: the scratch copy under the
/// scratch root, named like the lock file, empty, and bind-mounted over
/// the canonical path.
pub open spec fn lock_stub_ok(l: LockStub, path: Seq<char>) -> bool {
    &&& l.stub.path@ == "/run/tmp/"@ + base_name_of(path)
    &&& l.stub.mode == 0o640
    &&& l.stub.contents@.len() == 0
    &&& l.bind.entry() == (MountEntry {
        source: "/run/tmp/"@ + base_name_of(path),
        target: path,
        fs_type: ""@,
        flags: MS_BIND,
        fsdata: ""@,
    })
}

/// Builds the stub for one lock path.
fn mk_lock_stub(path: &str) -> (l: LockStub)
    ensures
        lock_stub_ok(l, path@),
{
    proof {
        reveal_strlit("");
        assert((""@) =~= Seq::<char>::empty());
    }
    let mut stub_path = "/run/tmp/".to_owned();
    stub_path.append(base_name(path).as_str());
    LockStub {
        stub: FileSpec { path: stub_path.clone(), mode: 0o640, contents: String::new() },
        bind: MountSpec {
            source: stub_path,
            target: path.to_owned(),
            fs_type: String::new(),
            flags: MS_BIND,
            fsdata: String::new(),
        },
    }
}

/// Plans the package-manager lock stubs: nothing without the package
/// database directory; with it, one stub per lock file.
pub fn fix_dpkg_locks(dpkg_dir_exists: bool) -> (stubs: Vec<LockStub>)
    ensures
        !dpkg_dir_exists ==> stubs@.len() == 0,
        dpkg_dir_exists ==> {
            &&& stubs@.len() == 3
            &&& lock_stub_ok(stubs@[0], "/var/lib/dpkg/lock"@)
            &&& lock_stub_ok(stubs@[1], "/var/lib/dpkg/lock-frontend"@)
            &&& lock_stub_ok(stubs@[2], "/var/lib/dpkg/triggers/Lock"@)
        },
{
    let mut stubs: Vec<LockStub> = Vec::new();
    if dpkg_dir_exists {
        stubs.push(mk_lock_stub("/var/lib/dpkg/lock"));
        stubs.push(mk_lock_stub("/var/lib/dpkg/lock-frontend"));
        stubs.push(mk_lock_stub("/var/lib/dpkg/triggers/Lock"));
    }
    stubs
}

/// Plans the packaging-file fixups: the package-manager lock stubs.
pub fn fix_packaging_files(dpkg_dir_exists: bool) -> (stubs: Vec<LockStub>)
    ensures
        !dpkg_dir_exists ==> stubs@.len() == 0,
        dpkg_dir_exists ==> {
            &&& stubs@.len() == 3
            &&& lock_stub_ok(stubs@[0], "/var/lib/dpkg/lock"@)
            &&& lock_stub_ok(stubs@[1], "/var/lib/dpkg/lock-frontend"@)
            &&& lock_stub_ok(stubs@[2], "/var/lib/dpkg/triggers/Lock"@)
        },
{
    fix_dpkg_locks(dpkg_dir_exists)
}

/// The boot parameter that enables the remote-shell service.
pub open spec fn ssh_token() -> Seq<char> {
    "virtme.ssh"@
}

/// Plans the remote-shell bring-up: the tools script, only when the boot
/// parameter asks for it and the tools directory is known.
pub fn run_sshd(cmdline: &str, guest_tools_dir: Option<&String>) -> (r: Option<CmdSpec>)
    ensures
        (match r {
            Some(c) => {
                &&& contains_seq(cmdline@, ssh_token())
                &&& (guest_tools_dir matches Some(d) && c.entry() == (CmdEntry {
                    program: d@ + "/virtme-sshd-script"@,
                    args: Seq::<Seq<char>>::empty(),
                }))
            },
            None => !contains_seq(cmdline@, ssh_token()) || guest_tools_dir is None,
        }),
{
    proof {
        reveal_strlit("virtme.ssh");
    }
    if let Some(_) = find_str(cmdline, "virtme.ssh", 0) {
        if let Some(d) = guest_tools_dir {
            let mut program = d.clone();
            program.append("/virtme-sshd-script");
            return Some(CmdSpec::new_owned(program));
        }
    }
    None
}

/// The boot parameter that enables the snapshot-package daemon.
pub open spec fn snapd_token() -> Seq<char> {
    "virtme.snapd"@
}

/// The snapshot-package bring-up: a tools script when the tools directory
/// is known, the daemon started detached, and its confinement helper when
/// present. Everything is empty unless the boot parameter asks for the
/// service and both the daemon binary and its state file exist.
pub struct SnapdPlan {
    pub tools_script: Option<CmdSpec>,
    pub daemon: Option<String>,
    pub apparmor: Option<CmdSpec>,
}

/// Plans the snapshot-package bring-up.
pub fn run_snapd(
    cmdline: &str,
    snapd_bin_exists: bool,
    snapd_state_exists: bool,
    guest_tools_dir: Option<&String>,
    apparmor_bin_exists: bool,
) -> (p: SnapdPlan)
    ensures
        ({
            let enabled = contains_seq(cmdline@, snapd_token()) && snapd_bin_exists
                && snapd_state_exists;
            &&& (match p.tools_script {
                Some(c) => enabled && (guest_tools_dir matches Some(d) && c.entry() == (CmdEntry {
                    program: d@ + "/virtme-snapd-script"@,
                    args: Seq::<Seq<char>>::empty(),
                })),
                None => !enabled || guest_tools_dir is None,
            })
            &&& (match p.daemon {
                Some(d) => enabled && d@ == "/usr/lib/snapd/snapd"@,
                None => !enabled,
            })
            &&& (match p.apparmor {
                Some(c) => enabled && apparmor_bin_exists && c.entry() == (CmdEntry {
                    program: "/usr/lib/snapd/snapd-apparmor"@,
                    args: seq!["start"@],
                }),
                None => !enabled || !apparmor_bin_exists,
            })
        }),
{
    proof {
        reveal_strlit("virtme.snapd");
    }
    let requested = match find_str(cmdline, "virtme.snapd", 0) {
        Some(_) => true,
        None => false,
    };
    let enabled = requested && snapd_bin_exists && snapd_state_exists;
    if !enabled {
        return SnapdPlan { tools_script: None, daemon: None, apparmor: None };
    }
    let tools_script = match guest_tools_dir {
        Some(d) => {
            let mut program = d.clone();
            program.append("/virtme-snapd-script");
            Some(CmdSpec::new_owned(program))
        },
        None => None,
    };
    let apparmor = if apparmor_bin_exists {
        let mut c = CmdSpec::new("/usr/lib/snapd/snapd-apparmor");
        c.arg("start");
        proof {
            assert(c.entry().args =~= seq!["start"@]);
        }
        Some(c)
    } else {
        None
    };
    SnapdPlan { tools_script, daemon: Some("/usr/lib/snapd/snapd".to_owned()), apparmor }
}

/// The vsock proxy command for an extracted command line.
pub open spec fn socat_entry(exec: Seq<char>) -> CmdEntry {
    CmdEntry {
        program: "socat"@,
        args: seq![
            "VSOCK-LISTEN:1024,reuseaddr,fork"@,
            "EXEC:\""@ + exec + "\",pty,stderr,setsid,sigint,sane,echo=0"@,
        ],
    }
}

/// The vsock proxy session: an optional pass-through mount for the
/// configured share, then the proxy command.
pub struct SocatPlan {
    pub mount: Option<InitMount>,
    pub command: CmdSpec,
}

/// Plans the vsock proxy console: nothing without the boot-parameter
/// marker; with it, the configured pass-through mount (when the variable
/// names one) and the proxy that executes the extracted command per
/// connection.
pub fn setup_socat_console(cmdline: &str, vsockmount: Option<&String>) -> (r: Option<SocatPlan>)
    ensures
        (match r {
            Some(p) => {
                &&& payload_after_marker(cmdline@, vsock_marker()) matches Some(exec)
                    && p.command.entry() == socat_entry(exec)
                &&& (match vsockmount {
                    Some(path) => p.mount matches Some(im) && im.entry()
                        == crate::mounts::initmount_of("virtme_vsockmount"@, path@),
                    None => p.mount is None,
                })
            },
            None => payload_after_marker(cmdline@, vsock_marker()) is None,
        }),
{
    let exec = match extract_vsock_exec(cmdline) {
        Some(e) => e,
        None => {
            return None;
        },
    };
    let mount = match vsockmount {
        Some(path) => {
            let source = replace_underscores("virtme_vsockmount");
            Some(InitMount {
                dir: (*path).clone(),
                mount: MountSpec {
                    source,
                    target: (*path).clone(),
                    fs_type: "9p".to_owned(),
                    flags: 0,
                    fsdata: "version=9p2000.L,trans=virtio,access=any".to_owned(),
                },
            })
        },
        None => None,
    };
    let mut to = "EXEC:\"".to_owned();
    to.append(exec.as_str());
    to.append("\",pty,stderr,setsid,sigint,sane,echo=0");
    let mut command = CmdSpec::new("socat");
    command.arg("VSOCK-LISTEN:1024,reuseaddr,fork");
    command.arg_owned(to);
    proof {
        let exec_p = payload_after_marker(cmdline@, vsock_marker())->Some_0;
        assert(command.entry().args =~= socat_entry(exec_p).args);
    }
    Some(SocatPlan { mount, command })
}

} // verus!
