//! Formatting for the kernel ring-buffer log and the version banner.

use vstd::prelude::*;

use crate::strfind::{strip_trailing_newlines, trim_newlines};

verus! {

/// Formats one log message: the tagged line for the kernel ring buffer
/// (with its priority prefix and a final newline) and the plain line for
/// standard output before the ring buffer is writable. A message that is
/// empty once its trailing newlines are removed is not logged at all.
pub fn format_log_message(msg: &str) -> (r: Option<(String, String)>)
    ensures
        (match r {
            Some(p) => {
                &&& strip_trailing_newlines(msg@).len() > 0
                &&& p.0@ == "<6>virtme-ng-init: "@ + strip_trailing_newlines(msg@) + "\n"@
                &&& p.1@ == "virtme-ng-init: "@ + strip_trailing_newlines(msg@)
            },
            None => strip_trailing_newlines(msg@).len() == 0,
        }),
{
    let body = trim_newlines(msg);
    if body.as_str().unicode_len() == 0 {
        return None;
    }
    let mut kmsg = "<6>virtme-ng-init: ".to_owned();
    kmsg.append(body.as_str());
    kmsg.append("\n");
    let mut plain = "virtme-ng-init: ".to_owned();
    plain.append(body.as_str());
    Some((kmsg, plain))
}

/// What a finished command contributes to the log: its error output with
/// trailing newlines removed, or nothing when it printed none.
pub fn command_log_text(stderr: &str) -> (r: Option<String>)
    ensures
        (match r {
            Some(t) => stderr@.len() > 0 && t@ == strip_trailing_newlines(stderr@),
            None => stderr@.len() == 0,
        }),
{
    if stderr.unicode_len() == 0 {
        None
    } else {
        Some(trim_newlines(stderr))
    }
}

/// The kernel version line: the release, with the machine name appended
/// when asked for; the fixed placeholder when the kernel gave no name.
pub fn get_kernel_version(uts: Option<(&String, &String)>, show_machine: bool) -> (r: String)
    ensures
        (match uts {
            Some(u) => r@ == (if show_machine {
                u.0@ + " "@ + u.1@
            } else {
                u.0@
            }),
            None => r@ == "None"@,
        }),
{
    match uts {
        Some((release, machine)) => {
            if show_machine {
                let mut r = release.clone();
                r.append(" ");
                r.append(machine.as_str());
                r
            } else {
                release.clone()
            }
        },
        None => "None".to_owned(),
    }
}

} // verus!
