//! Console management: discovering the active terminal device, the fixed
//! terminal-takeover sequence, and the interactive session's command lines.

use vstd::prelude::*;

use crate::script::FileSpec;
use crate::services::{CmdEntry, CmdSpec};
use crate::strfind::{contains_seq, find_char, find_str, split_lines, split_text_lines, split_ws,
    split_whitespace_words};

verus! {

/// Whether a console-status line reports its console active: the fixed
/// status column holds the active flag.
pub open spec fn line_active(line: Seq<char>) -> bool {
    line.len() > 27 && line[27] == 'C'
}

/// The first whitespace-delimited token of a line: everything before the
/// first space, or the whole line without one.
pub open spec fn first_token(line: Seq<char>) -> Seq<char> {
    if exists|j: int|
        0 <= j < line.len() && line[j] == ' ' && (forall|k: int| 0 <= k < j ==> line[k] != ' ') {
        let j = choose|j: int|
            0 <= j < line.len() && line[j] == ' ' && (forall|k: int|
                0 <= k < j ==> line[k] != ' ');
        line.subrange(0, j)
    } else {
        line
    }
}

/// The device path derived from the first line marked active, if any.
pub open spec fn first_active_console(ls: Seq<Seq<char>>) -> Option<Seq<char>>
    decreases ls.len(),
{
    if ls.len() == 0 {
        None
    } else if line_active(ls[0]) {
        Some("/dev/"@ + first_token(ls[0]))
    } else {
        first_active_console(ls.drop_first())
    }
}

/// The console the kernel's status report names active, as a device path.
pub open spec fn legacy_console_of(report: Seq<char>) -> Option<Seq<char>> {
    first_active_console(split_lines(report))
}

/// Parses the kernel's console-status report: the first line whose fixed
/// status column marks it active names the console; its first token gives
/// the device path.
pub fn get_legacy_active_console(report: &str) -> (r: Option<String>)
    ensures
        (match r {
            Some(c) => legacy_console_of(report@) == Some(c@),
            None => legacy_console_of(report@) is None,
        }),
{
    let lines = split_text_lines(report);
    let ghost lsv = lines@.map_values(|l: String| l@);
    let n = lines.len();
    let mut i: usize = 0;
    proof {
        assert(lsv.subrange(0, n as int) =~= lsv);
    }
    while i < n
        invariant
            n == lines@.len(),
            i <= n,
            lsv == lines@.map_values(|l: String| l@),
            legacy_console_of(report@) == first_active_console(lsv.subrange(i as int, n as int)),
        decreases n - i,
    {
        let ghost tail = lsv.subrange(i as int, n as int);
        proof {
            assert(tail[0] == lsv[i as int]);
            assert(tail.drop_first() =~= lsv.subrange(i + 1, n as int));
            assert(lsv[i as int] == lines@[i as int]@);
        }
        let line: &String = &lines[i];
        let llen = line.as_str().unicode_len();
        if llen > 27 && line.as_str().get_char(27) == 'C' {
            let token_end = match find_char(line.as_str(), ' ', 0) {
                Some(j) => {
                    proof {
                        let jj = choose|jj: int|
                            0 <= jj < line@.len() && line@[jj] == ' ' && (forall|k: int|
                                0 <= k < jj ==> line@[k] != ' ');
                        assert(!(jj < j as int) && !((j as int) < jj));
                    }
                    j
                },
                None => llen,
            };
            let mut dev = "/dev/".to_owned();
            dev.append(line.as_str().substring_char(0, token_end));
            proof {
                if token_end == llen {
                    assert(line@.subrange(0, llen as int) =~= line@);
                }
            }
            return Some(dev);
        }
        proof {
            assert(!line_active(lsv[i as int]));
        }
        i += 1;
    }
    proof {
        assert(lsv.subrange(n as int, n as int).len() == 0);
    }
    None
}

/// Picks the console device: the explicitly configured name wins, else
/// the kernel's status report decides, else there is none.
pub fn get_active_console(configured: Option<&String>, report: Option<&String>) -> (r: Option<
    String,
>)
    ensures
        (match configured {
            Some(c) => r matches Some(d) && d@ == "/dev/"@ + c@,
            None => (match report {
                Some(rep) => (match r {
                    Some(c) => legacy_console_of(rep@) == Some(c@),
                    None => legacy_console_of(rep@) is None,
                }),
                None => r is None,
            }),
        }),
{
    match configured {
        Some(c) => {
            let mut dev = "/dev/".to_owned();
            dev.append(c.as_str());
            Some(dev)
        },
        None => match report {
            Some(rep) => get_legacy_active_console(rep.as_str()),
            None => None,
        },
    }
}

/// One step of the controlling-terminal takeover.
pub enum TakeoverStep {
    /// Start a new session, making the process session leader and
    /// detaching any prior controlling terminal.
    NewSession,
    /// Close the three standard descriptors.
    CloseStdio,
    /// Duplicate the terminal descriptor onto standard input.
    DupStdin,
    /// Issue the set-controlling-terminal device request on the new
    /// standard input.
    SetControllingTty,
    /// Duplicate the terminal descriptor onto standard output.
    DupStdout,
    /// Duplicate the terminal descriptor onto standard error.
    DupStderr,
}

/// The fixed takeover sequence. Its order is load-bearing: the
/// controlling-terminal request fails unless the process is already a
/// session leader and the terminal is already on standard input, so the
/// sequence is exposed as one value that callers apply whole.
pub fn detach_from_terminal() -> (steps: Vec<TakeoverStep>)
    ensures
        steps@ == seq![
            TakeoverStep::NewSession,
            TakeoverStep::CloseStdio,
            TakeoverStep::DupStdin,
            TakeoverStep::SetControllingTty,
            TakeoverStep::DupStdout,
            TakeoverStep::DupStderr,
        ],
        steps@[0] is NewSession,
        steps@[2] is DupStdin,
        steps@[3] is SetControllingTty,
{
    let mut steps: Vec<TakeoverStep> = Vec::new();
    steps.push(TakeoverStep::NewSession);
    steps.push(TakeoverStep::CloseStdio);
    steps.push(TakeoverStep::DupStdin);
    steps.push(TakeoverStep::SetControllingTty);
    steps.push(TakeoverStep::DupStdout);
    steps.push(TakeoverStep::DupStderr);
    proof {
        assert(steps@ =~= seq![
            TakeoverStep::NewSession,
            TakeoverStep::CloseStdio,
            TakeoverStep::DupStdin,
            TakeoverStep::SetControllingTty,
            TakeoverStep::DupStdout,
            TakeoverStep::DupStderr,
        ]);
    }
    steps
}

/// The session-leader step comes before the controlling-terminal request,
/// and the terminal is on standard input first: the takeover sequence
/// cannot issue the device request out of order.
pub proof fn lemma_takeover_order(steps: Seq<TakeoverStep>)
    requires
        steps == seq![
            TakeoverStep::NewSession,
            TakeoverStep::CloseStdio,
            TakeoverStep::DupStdin,
            TakeoverStep::SetControllingTty,
            TakeoverStep::DupStdout,
            TakeoverStep::DupStderr,
        ],
    ensures
        forall|i: int, j: int|
            0 <= i < steps.len() && 0 <= j < steps.len() && steps[i] is NewSession
                && steps[j] is SetControllingTty ==> i < j,
        forall|i: int, j: int|
            0 <= i < steps.len() && 0 <= j < steps.len() && steps[i] is DupStdin
                && steps[j] is SetControllingTty ==> i < j,
{
    assert forall|i: int, j: int|
        0 <= i < steps.len() && 0 <= j < steps.len() && steps[i] is NewSession
            && steps[j] is SetControllingTty implies i < j by {
        assert(steps.len() == 6);
    }
    assert forall|i: int, j: int|
        0 <= i < steps.len() && 0 <= j < steps.len() && steps[i] is DupStdin
            && steps[j] is SetControllingTty implies i < j by {
        assert(steps.len() == 6);
    }
}

/// The terminal configuration: hand the console to the session user,
/// redirect the standard output streams onto it, and, when a terminal
/// configuration string is set, run the terminal-settings tool on the
/// console with the string's words as arguments.
pub struct TerminalPlan {
    pub chown_path: String,
    pub chown_uid: u32,
    pub redirect_to: String,
    pub stty: Option<CmdSpec>,
}

/// Plans the terminal configuration for a console device.
pub fn configure_terminal(consdev: &str, uid: u32, stty_params: Option<&String>) -> (p:
    TerminalPlan)
    ensures
        p.chown_path@ == consdev@,
        p.chown_uid == uid,
        p.redirect_to@ == consdev@,
        (match stty_params {
            Some(params) => p.stty matches Some(c) && c.entry() == (CmdEntry {
                program: "stty"@,
                args: split_ws(params@),
            }),
            None => p.stty is None,
        }),
{
    let stty = match stty_params {
        Some(params) => {
            let words = split_whitespace_words(params.as_str());
            let c = CmdSpec { program: "stty".to_owned(), args: words };
            Some(c)
        },
        None => None,
    };
    TerminalPlan {
        chown_path: consdev.to_owned(),
        chown_uid: uid,
        redirect_to: consdev.to_owned(),
        stty,
    }
}

/// The interactive shell's arguments: a login shell, through the
/// privilege-switch helper when a user is configured.
pub fn run_user_shell(user: Option<&String>) -> (args: Vec<String>)
    ensures
        (match user {
            Some(u) => args@.len() == 3 && args@[0]@ == "-l"@ && args@[1]@ == "-c"@ && args@[2]@
                == "su "@ + u@,
            None => args@.len() == 1 && args@[0]@ == "-l"@,
        }),
{
    let mut args: Vec<String> = Vec::new();
    args.push("-l".to_owned());
    if let Some(u) = user {
        args.push("-c".to_owned());
        let mut su = "su ".to_owned();
        su.append(u.as_str());
        args.push(su);
    }
    args
}

/// The graphical session: a minimal session script, permission and state
/// fixups when a user is configured, and the shell arguments that start
/// the display.
pub struct GuiPlan {
    pub xinitrc: FileSpec,
    pub fixups: Vec<CmdSpec>,
    pub shell_args: Vec<String>,
}

/// The contents of the minimal session script: the sound bring-up command
/// when one applies, then the materialized user script under a shell.
pub open spec fn xinitrc_content(sound_cmd: Seq<char>) -> Seq<char> {
    sound_cmd + "\n/bin/bash /run/tmp/.virtme-script"@
}

/// The boot parameter that enables the sound subsystem.
pub open spec fn sound_token() -> Seq<char> {
    "virtme.sound"@
}

/// Plans the graphical session: write the session script (prefixed with
/// the sound bring-up when the boot parameter asks for it and the tools
/// directory is known), fix console-device permissions and stale display
/// state for a configured user, and start the display through a login
/// shell — through the privilege-switch helper when a user is configured.
pub fn run_user_gui(cmdline: &str, guest_tools_dir: Option<&String>, user: Option<&String>) -> (p:
    GuiPlan)
    ensures
        p.xinitrc.path@ == "/run/tmp/.xinitrc"@,
        p.xinitrc.mode == 0o644,
        ({
            let sound = contains_seq(cmdline@, sound_token());
            (match guest_tools_dir {
                Some(d) => p.xinitrc.contents@ == (if sound {
                    xinitrc_content(d@ + "/virtme-sound-script"@)
                } else {
                    xinitrc_content(Seq::empty())
                }),
                None => p.xinitrc.contents@ == xinitrc_content(Seq::empty()),
            })
        }),
        (match user {
            Some(u) => {
                &&& p.fixups@.len() == 2
                &&& p.fixups@[0].entry() == (CmdEntry {
                    program: "bash"@,
                    args: seq!["-c"@, "chown "@ + u@ + " /dev/char/*"@],
                })
                &&& p.fixups@[1].entry() == (CmdEntry {
                    program: "bash"@,
                    args: seq!["-c"@, "rm -f /tmp/.X11*/* /tmp/.X11-lock"@],
                })
                &&& p.shell_args@.len() == 3
                &&& p.shell_args@[0]@ == "-l"@
                &&& p.shell_args@[1]@ == "-c"@
                &&& p.shell_args@[2]@ == "su "@ + u@ + " -c 'xinit /run/tmp/.xinitrc'"@
            },
            None => {
                &&& p.fixups@.len() == 0
                &&& p.shell_args@.len() == 3
                &&& p.shell_args@[0]@ == "-l"@
                &&& p.shell_args@[1]@ == "-c"@
                &&& p.shell_args@[2]@ == "xinit /run/tmp/.xinitrc"@
            },
        }),
{
    proof {
        reveal_strlit("virtme.sound");
        reveal_strlit("");
        assert((""@) =~= Seq::<char>::empty());
    }
    let sound = match find_str(cmdline, "virtme.sound", 0) {
        Some(_) => true,
        None => false,
    };
    let mut contents = String::new();
    if sound {
        if let Some(d) = guest_tools_dir {
            contents.append(d.as_str());
            contents.append("/virtme-sound-script");
        }
    }
    contents.append("\n/bin/bash /run/tmp/.virtme-script");
    let xinitrc = FileSpec { path: "/run/tmp/.xinitrc".to_owned(), mode: 0o644, contents };
    let mut fixups: Vec<CmdSpec> = Vec::new();
    let mut shell_args: Vec<String> = Vec::new();
    shell_args.push("-l".to_owned());
    shell_args.push("-c".to_owned());
    match user {
        Some(u) => {
            let mut chown_arg = "chown ".to_owned();
            chown_arg.append(u.as_str());
            chown_arg.append(" /dev/char/*");
            let mut c0 = CmdSpec::new("bash");
            c0.arg("-c");
            c0.arg_owned(chown_arg);
            fixups.push(c0);
            let mut c1 = CmdSpec::new("bash");
            c1.arg("-c");
            c1.arg("rm -f /tmp/.X11*/* /tmp/.X11-lock");
            fixups.push(c1);
            let mut su = "su ".to_owned();
            su.append(u.as_str());
            su.append(" -c 'xinit /run/tmp/.xinitrc'");
            shell_args.push(su);
            proof {
                assert(fixups@[0].entry().args =~= seq!["-c"@, "chown "@ + u@ + " /dev/char/*"@]);
                assert(fixups@[1].entry().args =~= seq![
                    "-c"@,
                    "rm -f /tmp/.X11*/* /tmp/.X11-lock"@,
                ]);
            }
        },
        None => {
            shell_args.push("xinit /run/tmp/.xinitrc".to_owned());
        },
    }
    GuiPlan { xinitrc, fixups, shell_args }
}

/// Where the session goes after console discovery.
pub enum SessionRoute {
    /// No console could be determined: replace the process image with an
    /// interactive shell, without terminal takeover; the power-off phase
    /// is never reached on this path.
    DegradedShell,
    /// Use the discovered console device.
    Console(String),
}

/// Routes the session: the discovered console when there is one, the
/// degraded shell otherwise.
pub fn session_route(console: Option<String>) -> (r: SessionRoute)
    ensures
        (match console {
            Some(c) => r matches SessionRoute::Console(d) && d@ == c@,
            None => r is DegradedShell,
        }),
{
    match console {
        Some(c) => SessionRoute::Console(c),
        None => SessionRoute::DegradedShell,
    }
}

} // verus!
