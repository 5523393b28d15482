//! Substitute system files: scratch copies of the password shadow, the
//! sudoers policy, the filesystem table and the hosts file, generated under
//! the scratch root and bind-mounted over their canonical locations.

use vstd::prelude::*;

use crate::mounts::{mk_mount, MountEntry, MountSpec, MS_BIND};
use crate::script::FileSpec;
use crate::strfind::{find_char, split_lines, split_text_lines};

verus! {

/// A bind mount of a scratch file over its canonical location.
pub open spec fn bind_over(source: Seq<char>, target: Seq<char>) -> MountEntry {
    MountEntry { source: source, target: target, fs_type: ""@, flags: MS_BIND, fsdata: ""@ }
}

/// Plans the filesystem-table stand-in: an empty scratch file bind-mounted
/// over the canonical table.
pub fn generate_fstab() -> (r: (FileSpec, MountSpec))
    ensures
        r.0.path@ == "/run/tmp/fstab"@,
        r.0.mode == 0o664,
        r.0.contents@.len() == 0,
        r.1.entry() == bind_over("/run/tmp/fstab"@, "/etc/fstab"@),
{
    let file = FileSpec { path: "/run/tmp/fstab".to_owned(), mode: 0o664, contents: String::new() };
    let bind = mk_mount("/run/tmp/fstab", "/etc/fstab", "", MS_BIND, "");
    (file, bind)
}

/// The shadow entry one password line contributes: the user name before
/// the first separator, with a locked password and empty ageing fields;
/// a line without a separator contributes nothing.
pub open spec fn shadow_entry(line: Seq<char>) -> Seq<char> {
    if exists|j: int|
        0 <= j < line.len() && line[j] == ':' && (forall|k: int| 0 <= k < j ==> line[k] != ':') {
        let j = choose|j: int|
            0 <= j < line.len() && line[j] == ':' && (forall|k: int|
                0 <= k < j ==> line[k] != ':');
        line.subrange(0, j) + ":!:::::::\n"@
    } else {
        Seq::empty()
    }
}

/// The shadow entries of a list of password lines, in order.
pub open spec fn shadow_entries(ls: Seq<Seq<char>>) -> Seq<char>
    decreases ls.len(),
{
    if ls.len() == 0 {
        Seq::empty()
    } else {
        shadow_entry(ls[0]) + shadow_entries(ls.drop_first())
    }
}

/// The shadow stand-in generated from a password file's text.
pub open spec fn shadow_content(passwd: Seq<char>) -> Seq<char> {
    shadow_entries(split_lines(passwd))
}

/// Plans the password-shadow stand-in: one locked entry per user of the
/// password file, bind-mounted over the canonical shadow file.
pub fn generate_shadow(passwd: &str) -> (r: (FileSpec, MountSpec))
    ensures
        r.0.path@ == "/run/tmp/shadow"@,
        r.0.mode == 0o644,
        r.0.contents@ == shadow_content(passwd@),
        r.1.entry() == bind_over("/run/tmp/shadow"@, "/etc/shadow"@),
{
    let lines = split_text_lines(passwd);
    let ghost lsv = lines@.map_values(|l: String| l@);
    let mut contents = String::new();
    let n = lines.len();
    let mut i: usize = 0;
    proof {
        assert(lsv.subrange(0, n as int) =~= lsv);
    }
    while i < n
        invariant
            n == lines@.len(),
            i <= n,
            lsv == lines@.map_values(|l: String| l@),
            shadow_content(passwd@) == contents@ + shadow_entries(
                lsv.subrange(i as int, n as int),
            ),
        decreases n - i,
    {
        let ghost tail = lsv.subrange(i as int, n as int);
        proof {
            assert(tail[0] == lsv[i as int]);
            assert(tail.drop_first() =~= lsv.subrange(i + 1, n as int));
            assert(lsv[i as int] == lines@[i as int]@);
        }
        let line: &String = &lines[i];
        match find_char(line.as_str(), ':', 0) {
            Some(j) => {
                contents.append(line.as_str().substring_char(0, j));
                contents.append(":!:::::::\n");
                proof {
                    let jj = choose|jj: int|
                        0 <= jj < line@.len() && line@[jj] == ':' && (forall|k: int|
                            0 <= k < jj ==> line@[k] != ':');
                    assert(!(jj < j as int) && !((j as int) < jj));
                }
            },
            None => {
                proof {
                    assert(shadow_entry(lsv[i as int]).len() == 0);
                }
            },
        }
        i += 1;
    }
    proof {
        assert(lsv.subrange(n as int, n as int).len() == 0);
        assert(shadow_entries(lsv.subrange(n as int, n as int)).len() == 0);
    }
    let file = FileSpec { path: "/run/tmp/shadow".to_owned(), mode: 0o644, contents };
    let bind = mk_mount("/run/tmp/shadow", "/etc/shadow", "", MS_BIND, "");
    (file, bind)
}

/// The sudoers stand-in's text: a safe search path, full rights for root,
/// and full rights for the configured user when there is one.
pub open spec fn sudoers_content(user: Option<Seq<char>>) -> Seq<char> {
    "Defaults secure_path=\"/usr/sbin:/usr/bin:/sbin:/bin\"\n"@
        + "root ALL = (ALL) NOPASSWD: ALL\n"@ + (match user {
        Some(u) => u + " ALL = (ALL) NOPASSWD: ALL\n"@,
        None => Seq::empty(),
    })
}

/// The sudoers stand-in: an optional empty canonical file (created only
/// when none exists, so the bind mount has a target), the scratch policy
/// file, and the bind mount.
pub struct SudoersPlan {
    pub touch_etc: Option<FileSpec>,
    pub file: FileSpec,
    pub bind: MountSpec,
}

/// Plans the sudoers stand-in.
pub fn generate_sudoers(user: Option<&String>, etc_sudoers_exists: bool) -> (p: SudoersPlan)
    ensures
        (match p.touch_etc {
            Some(f) => !etc_sudoers_exists && f.path@ == "/etc/sudoers"@ && f.mode == 0o440
                && f.contents@.len() == 0,
            None => etc_sudoers_exists,
        }),
        p.file.path@ == "/run/tmp/sudoers"@,
        p.file.mode == 0o440,
        p.file.contents@ == sudoers_content(
            match user {
                Some(u) => Some(u@),
                None => None,
            },
        ),
        p.bind.entry() == bind_over("/run/tmp/sudoers"@, "/etc/sudoers"@),
{
    let mut contents = "Defaults secure_path=\"/usr/sbin:/usr/bin:/sbin:/bin\"\n".to_owned();
    contents.append("root ALL = (ALL) NOPASSWD: ALL\n");
    if let Some(u) = user {
        contents.append(u.as_str());
        contents.append(" ALL = (ALL) NOPASSWD: ALL\n");
    }
    let touch_etc = if !etc_sudoers_exists {
        Some(FileSpec { path: "/etc/sudoers".to_owned(), mode: 0o440, contents: String::new() })
    } else {
        None
    };
    SudoersPlan {
        touch_etc,
        file: FileSpec { path: "/run/tmp/sudoers".to_owned(), mode: 0o440, contents },
        bind: mk_mount("/run/tmp/sudoers", "/etc/sudoers", "", MS_BIND, ""),
    }
}

/// The loopback names appended to the hosts stand-in for a hostname.
pub open spec fn hosts_append_text(hostname: Seq<char>) -> Seq<char> {
    "\n127.0.0.1 "@ + hostname + "\n::1 "@ + hostname + "\n"@
}

/// The hosts stand-in: copy the canonical file to the scratch copy, append
/// the loopback names, and bind-mount the copy over the original.
pub struct HostsPlan {
    pub copy_from: String,
    pub copy_to: String,
    pub append_text: String,
    pub bind: MountSpec,
}

/// Plans the hosts stand-in: nothing without a configured hostname.
pub fn generate_hosts(hostname: Option<&String>) -> (r: Option<HostsPlan>)
    ensures
        (match hostname {
            Some(h) => {
                &&& r matches Some(p)
                &&& p.copy_from@ == "/etc/hosts"@
                &&& p.copy_to@ == "/run/tmp/hosts"@
                &&& p.append_text@ == hosts_append_text(h@)
                &&& p.bind.entry() == bind_over("/run/tmp/hosts"@, "/etc/hosts"@)
            },
            None => r is None,
        }),
{
    match hostname {
        Some(h) => {
            let mut append_text = "\n127.0.0.1 ".to_owned();
            append_text.append(h.as_str());
            append_text.append("\n::1 ");
            append_text.append(h.as_str());
            append_text.append("\n");
            Some(HostsPlan {
                copy_from: "/etc/hosts".to_owned(),
                copy_to: "/run/tmp/hosts".to_owned(),
                append_text,
                bind: mk_mount("/run/tmp/hosts", "/etc/hosts", "", MS_BIND, ""),
            })
        },
        None => None,
    }
}

/// Plans the volume-manager configuration stand-in: an empty scratch
/// directory bind-mounted over the canonical directory, so rootless users
/// can run the volume tools.
pub fn generate_lvm() -> (r: (String, MountSpec))
    ensures
        r.0@ == "/run/tmp/lvm"@,
        r.1.entry() == bind_over("/run/tmp/lvm"@, "/etc/lvm/"@),
{
    ("/run/tmp/lvm".to_owned(), mk_mount("/run/tmp/lvm", "/etc/lvm/", "", MS_BIND, ""))
}

/// All five substitute system files.
pub struct SystemFilesPlan {
    pub fstab: (FileSpec, MountSpec),
    pub shadow: (FileSpec, MountSpec),
    pub sudoers: SudoersPlan,
    pub hosts: Option<HostsPlan>,
    pub lvm: (String, MountSpec),
}

/// Plans every substitute system file: the filesystem table, the password
/// shadow generated from the password file, the sudoers policy for the
/// configured user, the hosts file for the configured hostname, and the
/// volume-manager scratch directory.
pub fn override_system_files(
    passwd: &str,
    hostname: Option<&String>,
    user: Option<&String>,
    etc_sudoers_exists: bool,
) -> (p: SystemFilesPlan)
    ensures
        p.fstab.0.path@ == "/run/tmp/fstab"@,
        p.fstab.0.mode == 0o664,
        p.fstab.0.contents@.len() == 0,
        p.fstab.1.entry() == bind_over("/run/tmp/fstab"@, "/etc/fstab"@),
        p.shadow.0.path@ == "/run/tmp/shadow"@,
        p.shadow.0.mode == 0o644,
        p.shadow.0.contents@ == shadow_content(passwd@),
        p.shadow.1.entry() == bind_over("/run/tmp/shadow"@, "/etc/shadow"@),
        (match p.sudoers.touch_etc {
            Some(f) => !etc_sudoers_exists && f.path@ == "/etc/sudoers"@ && f.mode == 0o440
                && f.contents@.len() == 0,
            None => etc_sudoers_exists,
        }),
        p.sudoers.file.path@ == "/run/tmp/sudoers"@,
        p.sudoers.file.mode == 0o440,
        p.sudoers.file.contents@ == sudoers_content(
            match user {
                Some(u) => Some(u@),
                None => None,
            },
        ),
        p.sudoers.bind.entry() == bind_over("/run/tmp/sudoers"@, "/etc/sudoers"@),
        (match hostname {
            Some(h) => {
                &&& p.hosts matches Some(hp)
                &&& hp.copy_from@ == "/etc/hosts"@
                &&& hp.copy_to@ == "/run/tmp/hosts"@
                &&& hp.append_text@ == hosts_append_text(h@)
                &&& hp.bind.entry() == bind_over("/run/tmp/hosts"@, "/etc/hosts"@)
            },
            None => p.hosts is None,
        }),
        p.lvm.0@ == "/run/tmp/lvm"@,
        p.lvm.1.entry() == bind_over("/run/tmp/lvm"@, "/etc/lvm/"@),
{
    SystemFilesPlan {
        fstab: generate_fstab(),
        shadow: generate_shadow(passwd),
        sudoers: generate_sudoers(user, etc_sudoers_exists),
        hosts: generate_hosts(hostname),
        lvm: generate_lvm(),
    }
}

} // verus!
