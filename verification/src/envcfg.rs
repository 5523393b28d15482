//! The process-environment contract: the private configuration namespace,
//! its stripping step, and the plans derived from single variables.

use vstd::prelude::*;

use crate::mounts::{env_pairs, MountEntry, MountStep, MountSpec, StepEntry, MS_BIND};
use crate::strfind::{dec_rep, filtered_map, has_prefix, lemma_filtered_map_extend,
    str_has_prefix, u64_to_dec};

verus! {

/// The prefix of every orchestrator-private environment variable.
pub open spec fn private_prefix() -> Seq<char> {
    "virtme_"@
}

/// The keys the stripping step removes: every key of the snapshot that
/// carries the private prefix, in snapshot order.
pub open spec fn private_keys(env: Seq<(Seq<char>, Seq<char>)>) -> Seq<Seq<char>> {
    filtered_map(
        env,
        |p: (Seq<char>, Seq<char>)|
            if has_prefix(p.0, private_prefix()) {
                Some(p.0)
            } else {
                None
            },
    )
}

/// The pairs that survive the stripping step, in snapshot order.
pub open spec fn public_pairs(env: Seq<(Seq<char>, Seq<char>)>) -> Seq<(Seq<char>, Seq<char>)> {
    filtered_map(
        env,
        |p: (Seq<char>, Seq<char>)|
            if has_prefix(p.0, private_prefix()) {
                None
            } else {
                Some(p)
            },
    )
}

/// Lists the keys to strip from the environment: exactly those that carry
/// the private prefix.
pub fn clear_virtme_envs(env: &Vec<(String, String)>) -> (keys: Vec<String>)
    ensures
        keys@.map_values(|k: String| k@) == private_keys(env_pairs(env@)),
{
    let ghost f = |p: (Seq<char>, Seq<char>)|
        if has_prefix(p.0, private_prefix()) {
            Some(p.0)
        } else {
            None
        };
    let mut keys: Vec<String> = Vec::new();
    let n = env.len();
    let mut i: usize = 0;
    proof {
        assert(env_pairs(env@).subrange(0, 0) =~= Seq::<(Seq<char>, Seq<char>)>::empty());
    }
    while i < n
        invariant
            n == env@.len(),
            i <= n,
            keys@.map_values(|k: String| k@) == filtered_map(
                env_pairs(env@).subrange(0, i as int),
                f,
            ),
            f == (|p: (Seq<char>, Seq<char>)|
                if has_prefix(p.0, private_prefix()) {
                    Some(p.0)
                } else {
                    None
                }),
        decreases n - i,
    {
        if str_has_prefix(env[i].0.as_str(), "virtme_") {
            keys.push(env[i].0.clone());
        }
        proof {
            lemma_filtered_map_extend(env_pairs(env@), i as int, f);
            assert(env_pairs(env@)[i as int] == (env@[i as int].0@, env@[i as int].1@));
            assert(keys@.map_values(|k: String| k@) =~= filtered_map(
                env_pairs(env@).subrange(0, i + 1),
                f,
            ));
        }
        i += 1;
    }
    proof {
        assert(env_pairs(env@).subrange(0, n as int) =~= env_pairs(env@));
    }
    keys
}

/// The environment a user-launched process may see: the snapshot with
/// every private variable stripped. No key of the result carries the
/// private prefix, however many private variables the snapshot held —
/// including none.
pub fn strip_private_env(env: &Vec<(String, String)>) -> (out: Vec<(String, String)>)
    ensures
        env_pairs(out@) == public_pairs(env_pairs(env@)),
        forall|i: int|
            0 <= i < out@.len() ==> !has_prefix(#[trigger] out@[i].0@, private_prefix()),
{
    let ghost f = |p: (Seq<char>, Seq<char>)|
        if has_prefix(p.0, private_prefix()) {
            None
        } else {
            Some(p)
        };
    let mut out: Vec<(String, String)> = Vec::new();
    let n = env.len();
    let mut i: usize = 0;
    proof {
        assert(env_pairs(env@).subrange(0, 0) =~= Seq::<(Seq<char>, Seq<char>)>::empty());
        assert(env_pairs(out@) =~= Seq::<(Seq<char>, Seq<char>)>::empty());
    }
    while i < n
        invariant
            n == env@.len(),
            i <= n,
            env_pairs(out@) == filtered_map(env_pairs(env@).subrange(0, i as int), f),
            forall|k: int|
                0 <= k < out@.len() ==> !has_prefix(#[trigger] out@[k].0@, private_prefix()),
            f == (|p: (Seq<char>, Seq<char>)|
                if has_prefix(p.0, private_prefix()) {
                    None
                } else {
                    Some(p)
                }),
        decreases n - i,
    {
        if !str_has_prefix(env[i].0.as_str(), "virtme_") {
            out.push((env[i].0.clone(), env[i].1.clone()));
        }
        proof {
            lemma_filtered_map_extend(env_pairs(env@), i as int, f);
            assert(env_pairs(env@)[i as int] == (env@[i as int].0@, env@[i as int].1@));
            assert(env_pairs(out@) =~= filtered_map(env_pairs(env@).subrange(0, i + 1), f));
        }
        i += 1;
    }
    proof {
        assert(env_pairs(env@).subrange(0, n as int) =~= env_pairs(env@));
    }
    out
}

/// Every key that carries the private prefix is among the stripped keys:
/// stripping leaves no private variable behind.
pub proof fn lemma_strip_removes_every_private_key(env: Seq<(Seq<char>, Seq<char>)>, i: int)
    requires
        0 <= i < env.len(),
        has_prefix(env[i].0, private_prefix()),
    ensures
        private_keys(env).contains(env[i].0),
    decreases env.len(),
{
    let f = |p: (Seq<char>, Seq<char>)|
        if has_prefix(p.0, private_prefix()) {
            Some(p.0)
        } else {
            None
        };
    if i == env.len() - 1 {
        let ks = private_keys(env);
        assert(ks.last() == env[i].0);
        assert(ks.contains(env[i].0));
    } else {
        lemma_strip_removes_every_private_key(env.drop_last(), i);
        let prior = private_keys(env.drop_last());
        let k = choose|k: int| 0 <= k < prior.len() && prior[k] == env[i].0;
        assert(private_keys(env)[k] == env[i].0);
        assert(private_keys(env).contains(env[i].0));
    }
}

/// The search path the orchestrator configures for the whole session.
pub fn configure_environment() -> (kv: (String, String))
    ensures
        kv.0@ == "PATH"@,
        kv.1@ == "/bin:/sbin:/usr/bin:/usr/sbin:/usr/local/bin"@,
{
    ("PATH".to_owned(), "/bin:/sbin:/usr/bin:/usr/sbin:/usr/local/bin".to_owned())
}

/// What to do about the hostname.
pub enum HostnameAction {
    /// The configured name: set it (a failure is logged and ignored).
    SetTo(String),
    /// No name configured: log that it is undefined.
    Undefined,
}

/// Decides the hostname step from the configured variable.
pub fn configure_hostname(hostname: Option<&String>) -> (a: HostnameAction)
    ensures
        (match hostname {
            Some(h) => a matches HostnameAction::SetTo(n) && n@ == h@,
            None => a is Undefined,
        }),
{
    match hostname {
        Some(h) => HostnameAction::SetTo((*h).clone()),
        None => HostnameAction::Undefined,
    }
}

/// Decides the open-file-limit override: when the variable is set, its
/// value is written to the limit file, else nothing happens.
pub fn configure_limits(nr_open: Option<&String>) -> (w: Option<(String, String)>)
    ensures
        (match nr_open {
            Some(v) => {
                &&& w matches Some(p)
                &&& p.0@ == "/proc/sys/fs/nr_open"@
                &&& p.1@ == v@
            },
            None => w is None,
        }),
{
    match nr_open {
        Some(v) => Some(("/proc/sys/fs/nr_open".to_owned(), (*v).clone())),
        None => None,
    }
}

/// Decides the working directory: the configured one, else none.
pub fn set_cwd(chdir: Option<&String>) -> (d: Option<String>)
    ensures
        (match chdir {
            Some(v) => d matches Some(p) && p@ == v@,
            None => d is None,
        }),
{
    match chdir {
        Some(v) => Some((*v).clone()),
        None => None,
    }
}

/// The root home plan: the steps to take and the home directory the
/// session gets.
pub struct RootHomePlan {
    pub steps: Vec<MountStep>,
    pub home: String,
}

/// What the root home setup does when the host user is not root: a scratch
/// home, bind-mounted over `/root`.
pub open spec fn scratch_home_steps() -> Seq<StepEntry> {
    seq![
        StepEntry::DirAt("/run/tmp/roothome"@),
        StepEntry::MountAt(
            MountEntry {
                source: "/run/tmp/roothome"@,
                target: "/root"@,
                fs_type: ""@,
                flags: MS_BIND,
                fsdata: ""@,
            },
        ),
    ]
}

/// Plans the root home: a bind-mounted scratch home unless the host user
/// is root, in which case `/root` is used as it is.
pub fn setup_root_home(host_is_root: bool) -> (plan: RootHomePlan)
    ensures
        !host_is_root ==> plan.steps@.map_values(|s: MountStep| s.entry()) == scratch_home_steps()
            && plan.home@ == "/run/tmp/roothome"@,
        host_is_root ==> plan.steps@.len() == 0 && plan.home@ == "/root"@,
{
    if !host_is_root {
        let mut steps: Vec<MountStep> = Vec::new();
        steps.push(MountStep::Dir("/run/tmp/roothome".to_owned()));
        steps.push(MountStep::Apply(MountSpec {
            source: "/run/tmp/roothome".to_owned(),
            target: "/root".to_owned(),
            fs_type: "".to_owned(),
            flags: MS_BIND,
            fsdata: "".to_owned(),
        }));
        proof {
            assert(steps@.map_values(|s: MountStep| s.entry()) =~= scratch_home_steps());
        }
        RootHomePlan { steps, home: "/run/tmp/roothome".to_owned() }
    } else {
        RootHomePlan { steps: Vec::new(), home: "/root".to_owned() }
    }
}

/// The per-user runtime directory for a user id, to be created, handed to
/// the user, and exported as the runtime-directory variable.
pub fn init_xdg_runtime_dir(uid: u32) -> (dir: String)
    ensures
        dir@ == "/run/user/"@ + dec_rep(uid as nat),
{
    let mut dir = "/run/user/".to_owned();
    dir.append(u64_to_dec(uid as u64).as_str());
    dir
}

} // verus!
