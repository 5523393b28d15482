//! Mount planning: the fixed kernel and system mount tables, the
//! environment-driven overlay and pass-through mounts, and the policy for
//! mount failures.

use vstd::prelude::*;

use crate::strfind::{contains_seq, filtered_map, find_str, has_prefix, lemma_filtered_map_extend,
    replace_underscores, str_has_prefix, underscores_to_dots};

verus! {

/// Mount flag: disallow set-user-id execution (Linux `MS_NOSUID`).
pub const MS_NOSUID: u64 = 2;

/// Mount flag: disallow access to device nodes (Linux `MS_NODEV`).
pub const MS_NODEV: u64 = 4;

/// Mount flag: disallow program execution (Linux `MS_NOEXEC`).
pub const MS_NOEXEC: u64 = 8;

/// Mount flag: bind an existing file or directory (Linux `MS_BIND`).
pub const MS_BIND: u64 = 4096;

/// One mount to apply: source, target, filesystem type, flag bits and the
/// filesystem-specific option string.
pub struct MountSpec {
    pub source: String,
    pub target: String,
    pub fs_type: String,
    pub flags: u64,
    pub fsdata: String,
}

/// The plain value of a mount: what `MountSpec` holds, as sequences.
pub ghost struct MountEntry {
    pub source: Seq<char>,
    pub target: Seq<char>,
    pub fs_type: Seq<char>,
    pub flags: u64,
    pub fsdata: Seq<char>,
}

impl MountSpec {
    /// The plain value of this mount.
    pub open spec fn entry(self) -> MountEntry {
        MountEntry {
            source: self.source@,
            target: self.target@,
            fs_type: self.fs_type@,
            flags: self.flags,
            fsdata: self.fsdata@,
        }
    }
}

/// Builds a `MountSpec` from string slices.
pub(crate) fn mk_mount(source: &str, target: &str, fs_type: &str, flags: u64, fsdata: &str) -> (m:
    MountSpec)
    ensures
        m.entry() == (MountEntry {
            source: source@,
            target: target@,
            fs_type: fs_type@,
            flags: flags,
            fsdata: fsdata@,
        }),
{
    MountSpec {
        source: source.to_owned(),
        target: target.to_owned(),
        fs_type: fs_type.to_owned(),
        flags,
        fsdata: fsdata.to_owned(),
    }
}

/// The ordered kernel-level mount table. Order encodes dependency: the
/// process-information filesystem comes first, and `/run` is mounted before
/// anything is created under it.
pub open spec fn kernel_table() -> Seq<MountEntry> {
    seq![
        MountEntry {
            source: "proc"@,
            target: "/proc"@,
            fs_type: "proc"@,
            flags: MS_NOSUID | MS_NOEXEC | MS_NODEV,
            fsdata: ""@,
        },
        MountEntry {
            source: "sys"@,
            target: "/sys"@,
            fs_type: "sysfs"@,
            flags: MS_NOSUID | MS_NOEXEC | MS_NODEV,
            fsdata: ""@,
        },
        MountEntry {
            source: "run"@,
            target: "/run"@,
            fs_type: "tmpfs"@,
            flags: 0,
            fsdata: "mode=0755"@,
        },
        MountEntry {
            source: "devtmpfs"@,
            target: "/dev"@,
            fs_type: "devtmpfs"@,
            flags: MS_NOSUID | MS_NOEXEC,
            fsdata: ""@,
        },
        MountEntry {
            source: "configfs"@,
            target: "/sys/kernel/config"@,
            fs_type: "configfs"@,
            flags: 0,
            fsdata: ""@,
        },
        MountEntry {
            source: "debugfs"@,
            target: "/sys/kernel/debug"@,
            fs_type: "debugfs"@,
            flags: 0,
            fsdata: ""@,
        },
        MountEntry {
            source: "tracefs"@,
            target: "/sys/kernel/tracing"@,
            fs_type: "tracefs"@,
            flags: 0,
            fsdata: ""@,
        },
        MountEntry {
            source: "securityfs"@,
            target: "/sys/kernel/security"@,
            fs_type: "securityfs"@,
            flags: 0,
            fsdata: ""@,
        },
    ]
}

/// One entry of the ordered system-level table: a no-suid, no-dev tmpfs.
pub open spec fn var_tmpfs(target: Seq<char>) -> MountEntry {
    MountEntry {
        source: "tmpfs"@,
        target: target,
        fs_type: "tmpfs"@,
        flags: MS_NOSUID | MS_NODEV,
        fsdata: ""@,
    }
}

/// The ordered system-level mount table.
pub open spec fn system_table() -> Seq<MountEntry> {
    seq![
        MountEntry {
            source: "devpts"@,
            target: "/dev/pts"@,
            fs_type: "devpts"@,
            flags: MS_NOSUID | MS_NOEXEC,
            fsdata: ""@,
        },
        var_tmpfs("/dev/shm"@),
        var_tmpfs("/var/log"@),
        var_tmpfs("/var/tmp"@),
        var_tmpfs("/var/spool/rsyslog"@),
        var_tmpfs("/var/lib/portables"@),
        var_tmpfs("/var/lib/machines"@),
        var_tmpfs("/var/lib/private"@),
        var_tmpfs("/var/lib/sudo"@),
        var_tmpfs("/var/lib/apt"@),
        var_tmpfs("/var/cache"@),
        var_tmpfs("/var/lib/snapd/cookie"@),
    ]
}

/// The kernel table with `/run` left out: what is applied when an external
/// bootstrapper already populated `/run`.
pub open spec fn kernel_table_without_run() -> Seq<MountEntry> {
    kernel_table().subrange(0, 2) + kernel_table().subrange(3, 8)
}

/// Whether the `/run` mount must be skipped: an external bootstrapper
/// already mounted it, detectable because the derived tools directory
/// lives under `/run`; remounting would orphan its open files.
pub open spec fn skip_run_mount(guest_tools_dir: Option<Seq<char>>) -> bool {
    match guest_tools_dir {
        Some(d) => has_prefix(d, "/run"@),
        None => false,
    }
}

/// Plans the kernel-level mounts, in table order: every entry, except that
/// `/run` is skipped when the guest tools directory already lives under it.
pub fn mount_kernel_filesystems(guest_tools_dir: Option<&String>) -> (plan: Vec<MountSpec>)
    ensures
        plan@.map_values(|m: MountSpec| m.entry()) == (if skip_run_mount(
            match guest_tools_dir {
                Some(d) => Some(d@),
                None => None,
            },
        ) {
            kernel_table_without_run()
        } else {
            kernel_table()
        }),
{
    let skip_run = match guest_tools_dir {
        Some(d) => str_has_prefix(d.as_str(), "/run"),
        None => false,
    };
    let mut plan: Vec<MountSpec> = Vec::new();
    plan.push(mk_mount("proc", "/proc", "proc", MS_NOSUID | MS_NOEXEC | MS_NODEV, ""));
    plan.push(mk_mount("sys", "/sys", "sysfs", MS_NOSUID | MS_NOEXEC | MS_NODEV, ""));
    if !skip_run {
        plan.push(mk_mount("run", "/run", "tmpfs", 0, "mode=0755"));
    }
    plan.push(mk_mount("devtmpfs", "/dev", "devtmpfs", MS_NOSUID | MS_NOEXEC, ""));
    plan.push(mk_mount("configfs", "/sys/kernel/config", "configfs", 0, ""));
    plan.push(mk_mount("debugfs", "/sys/kernel/debug", "debugfs", 0, ""));
    plan.push(mk_mount("tracefs", "/sys/kernel/tracing", "tracefs", 0, ""));
    plan.push(mk_mount("securityfs", "/sys/kernel/security", "securityfs", 0, ""));
    proof {
        if skip_run {
            assert(plan@.map_values(|m: MountSpec| m.entry()) =~= kernel_table_without_run());
        } else {
            assert(plan@.map_values(|m: MountSpec| m.entry()) =~= kernel_table());
        }
    }
    plan
}

/// The directories created before the system-level mounts.
pub open spec fn system_mount_dirs() -> Seq<Seq<char>> {
    seq!["/dev/pts"@, "/dev/shm"@, "/run/dbus"@]
}

/// A system-level plan: directories to create, then mounts to apply.
pub struct SysMountPlan {
    pub dirs: Vec<String>,
    pub mounts: Vec<MountSpec>,
}

/// Plans the system-level mounts: create the pseudo-terminal, shared-memory
/// and message-bus directories, then apply the system table in order.
pub fn mount_sys_filesystems() -> (plan: SysMountPlan)
    ensures
        plan.dirs@.map_values(|d: String| d@) == system_mount_dirs(),
        plan.mounts@.map_values(|m: MountSpec| m.entry()) == system_table(),
{
    let mut dirs: Vec<String> = Vec::new();
    dirs.push("/dev/pts".to_owned());
    dirs.push("/dev/shm".to_owned());
    dirs.push("/run/dbus".to_owned());
    let mut mounts: Vec<MountSpec> = Vec::new();
    mounts.push(mk_mount("devpts", "/dev/pts", "devpts", MS_NOSUID | MS_NOEXEC, ""));
    mounts.push(mk_mount("tmpfs", "/dev/shm", "tmpfs", MS_NOSUID | MS_NODEV, ""));
    mounts.push(mk_mount("tmpfs", "/var/log", "tmpfs", MS_NOSUID | MS_NODEV, ""));
    mounts.push(mk_mount("tmpfs", "/var/tmp", "tmpfs", MS_NOSUID | MS_NODEV, ""));
    mounts.push(mk_mount("tmpfs", "/var/spool/rsyslog", "tmpfs", MS_NOSUID | MS_NODEV, ""));
    mounts.push(mk_mount("tmpfs", "/var/lib/portables", "tmpfs", MS_NOSUID | MS_NODEV, ""));
    mounts.push(mk_mount("tmpfs", "/var/lib/machines", "tmpfs", MS_NOSUID | MS_NODEV, ""));
    mounts.push(mk_mount("tmpfs", "/var/lib/private", "tmpfs", MS_NOSUID | MS_NODEV, ""));
    mounts.push(mk_mount("tmpfs", "/var/lib/sudo", "tmpfs", MS_NOSUID | MS_NODEV, ""));
    mounts.push(mk_mount("tmpfs", "/var/lib/apt", "tmpfs", MS_NOSUID | MS_NODEV, ""));
    mounts.push(mk_mount("tmpfs", "/var/cache", "tmpfs", MS_NOSUID | MS_NODEV, ""));
    mounts.push(mk_mount("tmpfs", "/var/lib/snapd/cookie", "tmpfs", MS_NOSUID | MS_NODEV, ""));
    proof {
        assert(dirs@.map_values(|d: String| d@) =~= system_mount_dirs());
        assert(mounts@.map_values(|m: MountSpec| m.entry()) =~= system_table());
    }
    SysMountPlan { dirs, mounts }
}

/// One step of a conditional mount plan.
pub enum MountStep {
    /// Create a directory.
    Dir(String),
    /// Apply a mount.
    Apply(MountSpec),
    /// Create a symbolic link from `dst` to `src`.
    Link { src: String, dst: String },
}

/// The plain value of a mount step.
pub ghost enum StepEntry {
    DirAt(Seq<char>),
    MountAt(MountEntry),
    LinkAt(Seq<char>, Seq<char>),
}

impl MountStep {
    /// The plain value of this step.
    pub open spec fn entry(self) -> StepEntry {
        match self {
            MountStep::Dir(d) => StepEntry::DirAt(d@),
            MountStep::Apply(m) => StepEntry::MountAt(m.entry()),
            MountStep::Link { src, dst } => StepEntry::LinkAt(src@, dst@),
        }
    }
}

/// The boot parameter that forces the legacy control-group layout.
pub open spec fn legacy_cgroup_token() -> Seq<char> {
    "SYSTEMD_CGROUP_ENABLE_LEGACY_FORCE=1"@
}

/// One legacy control-group subsystem: its directory, then its mount.
pub open spec fn legacy_cgroup_steps_for(name: Seq<char>, target: Seq<char>) -> Seq<StepEntry> {
    seq![
        StepEntry::DirAt(target),
        StepEntry::MountAt(
            MountEntry {
                source: name,
                target: target,
                fs_type: "cgroup"@,
                flags: 0,
                fsdata: name,
            },
        ),
    ]
}

/// The legacy control-group plan: a tmpfs over the control-group root,
/// then one directory and mount per legacy subsystem.
pub open spec fn legacy_cgroup_steps() -> Seq<StepEntry> {
    seq![
        StepEntry::MountAt(
            MountEntry {
                source: "cgroup"@,
                target: "/sys/fs/cgroup"@,
                fs_type: "tmpfs"@,
                flags: 0,
                fsdata: ""@,
            },
        ),
    ] + legacy_cgroup_steps_for("cpu"@, "/sys/fs/cgroup/cpu"@) + legacy_cgroup_steps_for(
        "cpuacct"@,
        "/sys/fs/cgroup/cpuacct"@,
    ) + legacy_cgroup_steps_for("blkio"@, "/sys/fs/cgroup/blkio"@) + legacy_cgroup_steps_for(
        "memory"@,
        "/sys/fs/cgroup/memory"@,
    ) + legacy_cgroup_steps_for("devices"@, "/sys/fs/cgroup/devices"@) + legacy_cgroup_steps_for(
        "pids"@,
        "/sys/fs/cgroup/pids"@,
    )
}

/// The unified control-group plan: one mount.
pub open spec fn unified_cgroup_steps() -> Seq<StepEntry> {
    seq![
        StepEntry::MountAt(
            MountEntry {
                source: "cgroup2"@,
                target: "/sys/fs/cgroup"@,
                fs_type: "cgroup2"@,
                flags: 0,
                fsdata: ""@,
            },
        ),
    ]
}

/// Pushes the directory and mount steps of one legacy subsystem.
fn push_legacy_subsys(plan: &mut Vec<MountStep>, name: &str, target: &str)
    ensures
        final(plan)@.map_values(|s: MountStep| s.entry()) == old(plan)@.map_values(
            |s: MountStep| s.entry(),
        ) + legacy_cgroup_steps_for(name@, target@),
{
    plan.push(MountStep::Dir(target.to_owned()));
    plan.push(MountStep::Apply(mk_mount(name, target, "cgroup", 0, name)));
    proof {
        assert(final(plan)@.map_values(|s: MountStep| s.entry()) =~= old(plan)@.map_values(
            |s: MountStep| s.entry(),
        ) + legacy_cgroup_steps_for(name@, target@));
    }
}

/// Plans the control-group mounts: the legacy per-subsystem layout when
/// the forcing boot parameter is present, the unified hierarchy otherwise.
pub fn mount_cgroupfs(cmdline: &str) -> (plan: Vec<MountStep>)
    ensures
        plan@.map_values(|s: MountStep| s.entry()) == (if contains_seq(
            cmdline@,
            legacy_cgroup_token(),
        ) {
            legacy_cgroup_steps()
        } else {
            unified_cgroup_steps()
        }),
{
    let legacy = match find_str(cmdline, "SYSTEMD_CGROUP_ENABLE_LEGACY_FORCE=1", 0) {
        Some(_) => true,
        None => false,
    };
    proof {
        reveal_strlit("SYSTEMD_CGROUP_ENABLE_LEGACY_FORCE=1");
    }
    let mut plan: Vec<MountStep> = Vec::new();
    if legacy {
        plan.push(MountStep::Apply(mk_mount("cgroup", "/sys/fs/cgroup", "tmpfs", 0, "")));
        push_legacy_subsys(&mut plan, "cpu", "/sys/fs/cgroup/cpu");
        push_legacy_subsys(&mut plan, "cpuacct", "/sys/fs/cgroup/cpuacct");
        push_legacy_subsys(&mut plan, "blkio", "/sys/fs/cgroup/blkio");
        push_legacy_subsys(&mut plan, "memory", "/sys/fs/cgroup/memory");
        push_legacy_subsys(&mut plan, "devices", "/sys/fs/cgroup/devices");
        push_legacy_subsys(&mut plan, "pids", "/sys/fs/cgroup/pids");
        proof {
            assert(plan@.map_values(|s: MountStep| s.entry()) =~= legacy_cgroup_steps());
        }
    } else {
        plan.push(MountStep::Apply(mk_mount("cgroup2", "/sys/fs/cgroup", "cgroup2", 0, "")));
        proof {
            assert(plan@.map_values(|s: MountStep| s.entry()) =~= unified_cgroup_steps());
        }
    }
    plan
}

/// The module directory for a kernel release.
pub open spec fn module_dir_of(kver: Seq<char>) -> Seq<char> {
    "/lib/modules/"@ + kver
}

/// What the kernel-module setup does, given the release, whether the
/// modules of the root filesystem are already in place, an optional
/// directory to link the modules from, and whether the module directory
/// for this release exists.
pub open spec fn kernel_module_steps(
    kver: Seq<char>,
    root_mods: bool,
    link_mods: Option<Seq<char>>,
    mod_dir_exists: bool,
) -> Seq<StepEntry> {
    (if !mod_dir_exists {
        seq![StepEntry::DirAt("/lib/modules"@)]
    } else {
        Seq::empty()
    }) + (if root_mods {
        Seq::empty()
    } else {
        match link_mods {
            Some(dir) => seq![
                StepEntry::MountAt(
                    MountEntry {
                        source: "none"@,
                        target: "/lib/modules/"@,
                        fs_type: "tmpfs"@,
                        flags: 0,
                        fsdata: ""@,
                    },
                ),
                StepEntry::LinkAt(dir, module_dir_of(kver)),
            ],
            None => if mod_dir_exists {
                seq![
                    StepEntry::MountAt(
                        MountEntry {
                            source: "disallow_kmod"@,
                            target: module_dir_of(kver),
                            fs_type: "tmpfs"@,
                            flags: 0,
                            fsdata: "ro,mode=0000"@,
                        },
                    ),
                ]
            } else {
                Seq::empty()
            },
        }
    })
}

/// Plans the kernel-module setup: keep `/lib/modules` present; leave the
/// root modules alone when they are already set up; otherwise link them
/// from the given directory, or mask a mismatched module directory off
/// behind a read-only tmpfs.
pub fn mount_kernel_modules(
    kver: &str,
    root_mods: bool,
    link_mods: Option<&String>,
    mod_dir_exists: bool,
) -> (plan: Vec<MountStep>)
    ensures
        plan@.map_values(|s: MountStep| s.entry()) == kernel_module_steps(
            kver@,
            root_mods,
            match link_mods {
                Some(d) => Some(d@),
                None => None,
            },
            mod_dir_exists,
        ),
{
    let mut mod_dir = "/lib/modules/".to_owned();
    mod_dir.append(kver);
    let mut plan: Vec<MountStep> = Vec::new();
    if !mod_dir_exists {
        plan.push(MountStep::Dir("/lib/modules".to_owned()));
    }
    if root_mods {
        // The root filesystem's modules are already in place.
    } else if let Some(dir) = link_mods {
        plan.push(MountStep::Apply(mk_mount("none", "/lib/modules/", "tmpfs", 0, "")));
        plan.push(MountStep::Link { src: (*dir).clone(), dst: mod_dir });
    } else if mod_dir_exists {
        plan.push(MountStep::Apply(MountSpec {
            source: "disallow_kmod".to_owned(),
            target: mod_dir,
            fs_type: "tmpfs".to_owned(),
            flags: 0,
            fsdata: "ro,mode=0000".to_owned(),
        }));
    }
    proof {
        assert(plan@.map_values(|s: MountStep| s.entry()) =~= kernel_module_steps(
            kver@,
            root_mods,
            match link_mods {
                Some(d) => Some(d@),
                None => None,
            },
            mod_dir_exists,
        ));
    }
    plan
}

/// The environment prefix that requests a read-write overlay.
pub open spec fn overlay_prefix() -> Seq<char> {
    "virtme_rw_overlay"@
}

/// The environment prefix that requests a pass-through mount.
pub open spec fn initmount_prefix() -> Seq<char> {
    "virtme_initmount"@
}

/// A planned overlay: mount `source` (the request key) over `target` with
/// the primary option string; when the kernel rejects the options, retry
/// once with the fallback string, which drops the inode-numbering option
/// older kernels do not know.
pub struct OverlayMount {
    pub source: String,
    pub target: String,
    pub dir: String,
    pub upper: String,
    pub work: String,
    pub options: String,
    pub fallback_options: String,
}

/// The plain value of a planned overlay.
pub ghost struct OverlayEntry {
    pub source: Seq<char>,
    pub target: Seq<char>,
    pub dir: Seq<char>,
    pub upper: Seq<char>,
    pub work: Seq<char>,
    pub options: Seq<char>,
    pub fallback_options: Seq<char>,
}

impl OverlayMount {
    /// The plain value of this overlay.
    pub open spec fn entry(self) -> OverlayEntry {
        OverlayEntry {
            source: self.source@,
            target: self.target@,
            dir: self.dir@,
            upper: self.upper@,
            work: self.work@,
            options: self.options@,
            fallback_options: self.fallback_options@,
        }
    }
}

/// The overlay an environment pair `key = path` asks for: a scratch
/// directory triple under `/run/tmp` named after the key, and option
/// strings naming the lower, upper and work directories.
pub open spec fn overlay_of(key: Seq<char>, path: Seq<char>) -> OverlayEntry {
    let dir = "/run/tmp/"@ + key;
    let upper = dir + "/upper"@;
    let work = dir + "/work"@;
    OverlayEntry {
        source: key,
        target: path,
        dir: dir,
        upper: upper,
        work: work,
        options: "xino=off,lowerdir="@ + path + ",upperdir="@ + upper + ",workdir="@ + work,
        fallback_options: "lowerdir="@ + path + ",upperdir="@ + upper + ",workdir="@ + work,
    }
}

/// The views of an environment snapshot's pairs.
pub open spec fn env_pairs(env: Seq<(String, String)>) -> Seq<(Seq<char>, Seq<char>)> {
    env.map_values(|p: (String, String)| (p.0@, p.1@))
}

/// The overlays an environment snapshot asks for, in snapshot order.
pub open spec fn overlays_of(env: Seq<(Seq<char>, Seq<char>)>) -> Seq<OverlayEntry> {
    filtered_map(
        env,
        |p: (Seq<char>, Seq<char>)|
            if has_prefix(p.0, overlay_prefix()) {
                Some(overlay_of(p.0, p.1))
            } else {
                None
            },
    )
}

/// An overlay plan: the scratch root to create, then the overlays, each
/// preceded by creating its own directory triple.
pub struct OverlayPlan {
    pub scratch_root: String,
    pub overlays: Vec<OverlayMount>,
}

/// Plans the dynamic overlays from an environment snapshot: one overlay
/// per pair whose key carries the overlay prefix, in snapshot order.
pub fn mount_virtme_overlays(env: &Vec<(String, String)>) -> (plan: OverlayPlan)
    ensures
        plan.scratch_root@ == "/run/tmp/"@,
        plan.overlays@.map_values(|o: OverlayMount| o.entry()) == overlays_of(env_pairs(env@)),
{
    let ghost f = |p: (Seq<char>, Seq<char>)|
        if has_prefix(p.0, overlay_prefix()) {
            Some(overlay_of(p.0, p.1))
        } else {
            None
        };
    let mut overlays: Vec<OverlayMount> = Vec::new();
    let n = env.len();
    let mut i: usize = 0;
    proof {
        assert(env_pairs(env@).subrange(0, 0) =~= Seq::<(Seq<char>, Seq<char>)>::empty());
    }
    while i < n
        invariant
            n == env@.len(),
            i <= n,
            overlays@.map_values(|o: OverlayMount| o.entry()) == filtered_map(
                env_pairs(env@).subrange(0, i as int),
                f,
            ),
            f == (|p: (Seq<char>, Seq<char>)|
                if has_prefix(p.0, overlay_prefix()) {
                    Some(overlay_of(p.0, p.1))
                } else {
                    None
                }),
        decreases n - i,
    {
        let key: &String = &env[i].0;
        let path: &String = &env[i].1;
        if str_has_prefix(key.as_str(), "virtme_rw_overlay") {
            let mut dir = "/run/tmp/".to_owned();
            dir.append(key.as_str());
            let mut upper = dir.clone();
            upper.append("/upper");
            let mut work = dir.clone();
            work.append("/work");
            let mut options = "xino=off,lowerdir=".to_owned();
            options.append(path.as_str());
            options.append(",upperdir=");
            options.append(upper.as_str());
            options.append(",workdir=");
            options.append(work.as_str());
            let mut fallback = "lowerdir=".to_owned();
            fallback.append(path.as_str());
            fallback.append(",upperdir=");
            fallback.append(upper.as_str());
            fallback.append(",workdir=");
            fallback.append(work.as_str());
            overlays.push(OverlayMount {
                source: key.clone(),
                target: path.clone(),
                dir,
                upper,
                work,
                options,
                fallback_options: fallback,
            });
        }
        proof {
            lemma_filtered_map_extend(env_pairs(env@), i as int, f);
            assert(env_pairs(env@)[i as int] == (env@[i as int].0@, env@[i as int].1@));
            assert(overlays@.map_values(|o: OverlayMount| o.entry()) =~= filtered_map(
                env_pairs(env@).subrange(0, i + 1),
                f,
            ));
        }
        i += 1;
    }
    proof {
        assert(env_pairs(env@).subrange(0, n as int) =~= env_pairs(env@));
    }
    OverlayPlan { scratch_root: "/run/tmp/".to_owned(), overlays }
}

/// A planned pass-through mount: create the target directory, then mount
/// the 9p share named by the key (underscores read as dots).
pub struct InitMount {
    pub dir: String,
    pub mount: MountSpec,
}

/// The plain value of a planned pass-through mount.
pub ghost struct InitMountEntry {
    pub dir: Seq<char>,
    pub mount: MountEntry,
}

impl InitMount {
    /// The plain value of this pass-through mount.
    pub open spec fn entry(self) -> InitMountEntry {
        InitMountEntry { dir: self.dir@, mount: self.mount.entry() }
    }
}

/// The option string of every pass-through 9p mount.
pub open spec fn ninep_options() -> Seq<char> {
    "version=9p2000.L,trans=virtio,access=any"@
}

/// The pass-through mount an environment pair asks for.
pub open spec fn initmount_of(key: Seq<char>, path: Seq<char>) -> InitMountEntry {
    InitMountEntry {
        dir: path,
        mount: MountEntry {
            source: underscores_to_dots(key),
            target: path,
            fs_type: "9p"@,
            flags: 0,
            fsdata: ninep_options(),
        },
    }
}

/// The pass-through mounts an environment snapshot asks for.
pub open spec fn initmounts_of(env: Seq<(Seq<char>, Seq<char>)>) -> Seq<InitMountEntry> {
    filtered_map(
        env,
        |p: (Seq<char>, Seq<char>)|
            if has_prefix(p.0, initmount_prefix()) {
                Some(initmount_of(p.0, p.1))
            } else {
                None
            },
    )
}

/// Plans the pass-through mounts from an environment snapshot: one 9p
/// mount per pair whose key carries the pass-through prefix, in snapshot
/// order.
pub fn mount_virtme_initmounts(env: &Vec<(String, String)>) -> (plan: Vec<InitMount>)
    ensures
        plan@.map_values(|m: InitMount| m.entry()) == initmounts_of(env_pairs(env@)),
{
    let ghost f = |p: (Seq<char>, Seq<char>)|
        if has_prefix(p.0, initmount_prefix()) {
            Some(initmount_of(p.0, p.1))
        } else {
            None
        };
    let mut plan: Vec<InitMount> = Vec::new();
    let n = env.len();
    let mut i: usize = 0;
    proof {
        assert(env_pairs(env@).subrange(0, 0) =~= Seq::<(Seq<char>, Seq<char>)>::empty());
    }
    while i < n
        invariant
            n == env@.len(),
            i <= n,
            plan@.map_values(|m: InitMount| m.entry()) == filtered_map(
                env_pairs(env@).subrange(0, i as int),
                f,
            ),
            f == (|p: (Seq<char>, Seq<char>)|
                if has_prefix(p.0, initmount_prefix()) {
                    Some(initmount_of(p.0, p.1))
                } else {
                    None
                }),
        decreases n - i,
    {
        let key: &String = &env[i].0;
        let path: &String = &env[i].1;
        if str_has_prefix(key.as_str(), "virtme_initmount") {
            let source = replace_underscores(key.as_str());
            plan.push(InitMount {
                dir: path.clone(),
                mount: MountSpec {
                    source,
                    target: path.clone(),
                    fs_type: "9p".to_owned(),
                    flags: 0,
                    fsdata: "version=9p2000.L,trans=virtio,access=any".to_owned(),
                },
            });
        }
        proof {
            lemma_filtered_map_extend(env_pairs(env@), i as int, f);
            assert(env_pairs(env@)[i as int] == (env@[i as int].0@, env@[i as int].1@));
            assert(plan@.map_values(|m: InitMount| m.entry()) =~= filtered_map(
                env_pairs(env@).subrange(0, i + 1),
                f,
            ));
        }
        i += 1;
    }
    proof {
        assert(env_pairs(env@).subrange(0, n as int) =~= env_pairs(env@));
    }
    plan
}

/// How a failed mount is treated. A single mount failure never aborts the
/// boot sequence: there is no fatal disposition.
pub enum MountFailure {
    /// Suppressed from logging: expected when an optional kernel feature is
    /// absent.
    Silent,
    /// Logged with source, target and the underlying error; execution
    /// continues.
    Logged,
}

/// The errno value for a missing source ("no such file or directory").
pub const ENOENT_CODE: i32 = 2;

/// Classifies a mount failure: a missing source is expected and stays
/// silent; every other failure is logged and the boot continues.
pub fn mount_failure_disposition(errno: i32) -> (d: MountFailure)
    ensures
        (d is Silent) <==> errno == ENOENT_CODE,
{
    if errno == ENOENT_CODE {
        MountFailure::Silent
    } else {
        MountFailure::Logged
    }
}

/// What one attempt against the mount namespace came to.
pub enum MountOutcome {
    /// The target was mounted.
    Mounted,
    /// The target was mounted already: the attempt fails, is logged as
    /// non-fatal, and the application continues.
    AlreadyMounted,
}

/// Whether the mount at index `i` of `table` finds its target taken: it is
/// among the targets mounted before, or an earlier entry of the table
/// mounts it first.
pub open spec fn target_taken(done: Seq<Seq<char>>, table: Seq<Seq<char>>, i: int) -> bool {
    done.contains(table[i]) || exists|j: int| 0 <= j < i && table[j] == table[i]
}

/// The mounted targets after applying every entry of `table` to a
/// namespace that held `done`.
pub open spec fn targets_after(done: Seq<Seq<char>>, table: Seq<Seq<char>>) -> Seq<Seq<char>>
    decreases table.len(),
{
    if table.len() == 0 {
        done
    } else {
        let d = targets_after(done, table.drop_last());
        if d.contains(table.last()) {
            d
        } else {
            d.push(table.last())
        }
    }
}

/// Application only grows the set of mounted targets.
proof fn lemma_targets_after_grow(done: Seq<Seq<char>>, table: Seq<Seq<char>>, t: Seq<char>)
    requires
        done.contains(t) || table.contains(t),
    ensures
        targets_after(done, table).contains(t),
    decreases table.len(),
{
    if table.len() == 0 {
    } else {
        let d = targets_after(done, table.drop_last());
        let last = table.last();
        let res = if d.contains(last) {
            d
        } else {
            d.push(last)
        };
        if done.contains(t) || table.drop_last().contains(t) {
            lemma_targets_after_grow(done, table.drop_last(), t);
            let k = choose|k: int| 0 <= k < d.len() && d[k] == t;
            if !d.contains(last) {
                assert(d.push(last)[k] == t);
            }
            assert(res.contains(t));
        } else {
            let j = choose|j: int| 0 <= j < table.len() && table[j] == t;
            if j < table.len() - 1 {
                assert(table.drop_last()[j] == t);
            }
            assert(last == t);
            if d.contains(last) {
            } else {
                assert(d.push(t)[d.len() as int] == t);
            }
            assert(res.contains(t));
        }
    }
}

/// The model of the kernel's mount namespace the planner is verified
/// against: the sequence of mounted targets.
pub struct MountTableModel {
    pub mounted: Vec<String>,
}

impl MountTableModel {
    /// The mounted targets.
    pub open spec fn targets(self) -> Seq<Seq<char>> {
        self.mounted@.map_values(|t: String| t@)
    }

    /// An empty namespace.
    pub fn new() -> (s: MountTableModel)
        ensures
            s.targets() == Seq::<Seq<char>>::empty(),
    {
        let s = MountTableModel { mounted: Vec::new() };
        proof {
            assert(s.targets() =~= Seq::<Seq<char>>::empty());
        }
        s
    }

    /// Whether `target` is mounted.
    pub fn is_mounted(&self, target: &String) -> (r: bool)
        ensures
            r == self.targets().contains(target@),
    {
        let n = self.mounted.len();
        let mut i: usize = 0;
        while i < n
            invariant
                n == self.mounted@.len(),
                i <= n,
                forall|j: int| 0 <= j < i ==> self.targets()[j] != target@,
            decreases n - i,
        {
            if self.mounted[i].eq(target) {
                assert(self.targets()[i as int] == target@);
                return true;
            }
            i += 1;
        }
        false
    }

    /// One mount attempt: a fresh target is recorded, a taken target
    /// fails as already-mounted and changes nothing.
    pub fn apply(&mut self, m: &MountSpec) -> (o: MountOutcome)
        ensures
            (o is AlreadyMounted) == old(self).targets().contains(m.target@),
            final(self).targets() == (if old(self).targets().contains(m.target@) {
                old(self).targets()
            } else {
                old(self).targets().push(m.target@)
            }),
    {
        if self.is_mounted(&m.target) {
            MountOutcome::AlreadyMounted
        } else {
            self.mounted.push(m.target.clone());
            proof {
                assert(final(self).targets() =~= old(self).targets().push(m.target@));
            }
            MountOutcome::Mounted
        }
    }

    /// Applies a whole table in order. Every entry is attempted — a
    /// failure never cuts the application short — and each outcome says
    /// whether the entry's target was already taken.
    pub fn apply_table(&mut self, table: &Vec<MountSpec>) -> (outs: Vec<MountOutcome>)
        ensures
            outs@.len() == table@.len(),
            forall|i: int|
                0 <= i < outs@.len() ==> ((outs@[i] is AlreadyMounted) == target_taken(
                    old(self).targets(),
                    table@.map_values(|m: MountSpec| m.target@),
                    i,
                )),
            final(self).targets() == targets_after(
                old(self).targets(),
                table@.map_values(|m: MountSpec| m.target@),
            ),
    {
        let ghost tgts = table@.map_values(|m: MountSpec| m.target@);
        let mut outs: Vec<MountOutcome> = Vec::new();
        let n = table.len();
        let mut i: usize = 0;
        proof {
            assert(tgts.subrange(0, 0) =~= Seq::<Seq<char>>::empty());
            assert(targets_after(old(self).targets(), tgts.subrange(0, 0)) == old(self).targets());
        }
        while i < n
            invariant
                n == table@.len(),
                i <= n,
                outs@.len() == i,
                tgts == table@.map_values(|m: MountSpec| m.target@),
                self.targets() == targets_after(old(self).targets(), tgts.subrange(0, i as int)),
                forall|k: int|
                    0 <= k < i ==> ((outs@[k] is AlreadyMounted) == target_taken(
                        old(self).targets(),
                        tgts,
                        k,
                    )),
            decreases n - i,
        {
            let ghost pre = self.targets();
            let o = self.apply(&table[i]);
            proof {
                let p = tgts.subrange(0, i + 1);
                assert(p.drop_last() =~= tgts.subrange(0, i as int));
                assert(p.last() == tgts[i as int]);
                assert(self.targets() == targets_after(old(self).targets(), p));
                lemma_taken_iff_contains(old(self).targets(), tgts, i as int);
            }
            outs.push(o);
            i += 1;
        }
        proof {
            assert(tgts.subrange(0, n as int) =~= tgts);
        }
        outs
    }
}

/// The target of entry `i` is taken after the earlier entries exactly when
/// it was mounted before or an earlier entry mounts the same target.
proof fn lemma_taken_iff_contains(done: Seq<Seq<char>>, table: Seq<Seq<char>>, i: int)
    requires
        0 <= i < table.len(),
    ensures
        targets_after(done, table.subrange(0, i)).contains(table[i]) == target_taken(
            done,
            table,
            i,
        ),
    decreases i,
{
    let pre = table.subrange(0, i);
    if targets_after(done, pre).contains(table[i]) {
        lemma_after_from(done, pre, table[i]);
        assert(target_taken(done, table, i));
    }
    if target_taken(done, table, i) {
        if done.contains(table[i]) {
            lemma_targets_after_grow(done, pre, table[i]);
        } else {
            let j = choose|j: int| 0 <= j < i && table[j] == table[i];
            assert(pre[j] == table[i]);
            assert(pre.contains(table[i]));
            lemma_targets_after_grow(done, pre, table[i]);
        }
    }
}

/// A target mounted after application was mounted before or is in the
/// table.
proof fn lemma_after_from(done: Seq<Seq<char>>, table: Seq<Seq<char>>, t: Seq<char>)
    requires
        targets_after(done, table).contains(t),
    ensures
        done.contains(t) || table.contains(t),
    decreases table.len(),
{
    if table.len() == 0 {
    } else {
        let d = targets_after(done, table.drop_last());
        if d.contains(t) {
            lemma_after_from(done, table.drop_last(), t);
            if table.drop_last().contains(t) {
                let j = choose|j: int| 0 <= j < table.drop_last().len() && table.drop_last()[j]
                    == t;
                assert(table[j] == t);
            }
        } else {
            assert(table.last() == t);
        }
    }
}

/// Applying a mount table a second time never aborts: every second-pass
/// attempt finds its target taken, an already-mounted failure, which is
/// logged as non-fatal while the application continues to the end.
pub proof fn lemma_mount_table_idempotent(done: Seq<Seq<char>>, table: Seq<Seq<char>>)
    ensures
        forall|i: int|
            0 <= i < table.len() ==> target_taken(targets_after(done, table), table, i),
{
    assert forall|i: int| 0 <= i < table.len() implies target_taken(
        targets_after(done, table),
        table,
        i,
    ) by {
        assert(table.contains(table[i]));
        lemma_targets_after_grow(done, table, table[i]);
    }
}

} // verus!
