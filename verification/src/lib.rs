//! Verified boot-orchestration library for a lightweight PID-1 init process.
//!
//! The library computes everything the orchestrator decides — mount plans,
//! service command lines, console selection, script extraction and dispatch —
//! as plain values with contracts; an unverified front end performs the
//! system calls that carry the plans out.

pub mod console;
pub mod envcfg;
pub mod logfmt;
pub mod mounts;
pub mod script;
pub mod services;
pub mod strfind;
pub mod sysfiles;

use vstd::prelude::*;

verus! {

/// Returns whether a process id is the one PID-1 requires.
pub fn is_init_pid(pid: u32) -> (r: bool)
    ensures
        r <==> pid == 1,
{
    pid == 1
}

/// The phases of a boot, in the order they are passed through.
pub enum BootPhase {
    /// Before anything has run.
    Init,
    /// The mount tables and dynamic mounts are being applied.
    NamespaceSetup,
    /// The concurrent bring-up tasks run and are joined.
    ServiceBringup,
    /// An embedded command runs over the paravirtual ports.
    ScriptedSession,
    /// An interactive shell runs on the console.
    InteractiveSession,
    /// No console could be determined: the process image is replaced by a
    /// shell, and this process never reaches the power-off phase.
    DegradedShell,
    /// Storage is flushed and the machine powers off: the terminal phase.
    Shutdown,
}

/// Which session the boot settles on after service bring-up.
pub enum SessionKind {
    Scripted,
    Interactive,
    Degraded,
}

/// How far along a phase is: every allowed step strictly increases it.
pub open spec fn phase_rank(p: BootPhase) -> int {
    match p {
        BootPhase::Init => 0,
        BootPhase::NamespaceSetup => 1,
        BootPhase::ServiceBringup => 2,
        BootPhase::ScriptedSession => 3,
        BootPhase::InteractiveSession => 3,
        BootPhase::DegradedShell => 3,
        BootPhase::Shutdown => 4,
    }
}

/// The allowed phase steps: namespace setup, then service bring-up, then
/// exactly one session, then shutdown. Nothing leaves the shutdown phase.
pub open spec fn boot_step_allowed(from: BootPhase, to: BootPhase) -> bool {
    ||| (from is Init && to is NamespaceSetup)
    ||| (from is NamespaceSetup && to is ServiceBringup)
    ||| (from is ServiceBringup && (to is ScriptedSession || to is InteractiveSession
        || to is DegradedShell))
    ||| ((from is ScriptedSession || from is InteractiveSession || from is DegradedShell)
        && to is Shutdown)
}

/// Advances the boot by one phase; the session choice decides which
/// session phase follows service bring-up. The shutdown phase is
/// terminal: nothing follows it.
pub fn next_boot_phase(p: &BootPhase, session: &SessionKind) -> (q: Option<BootPhase>)
    ensures
        (match q {
            Some(n) => boot_step_allowed(*p, n),
            None => p is Shutdown,
        }),
        p is Init ==> (q matches Some(n) && n is NamespaceSetup),
        p is NamespaceSetup ==> (q matches Some(n) && n is ServiceBringup),
        (p is ServiceBringup && session is Scripted) ==> (q matches Some(n)
            && n is ScriptedSession),
        (p is ServiceBringup && session is Interactive) ==> (q matches Some(n)
            && n is InteractiveSession),
        (p is ServiceBringup && session is Degraded) ==> (q matches Some(n) && n is DegradedShell),
        (p is ScriptedSession || p is InteractiveSession || p is DegradedShell) ==> (
        q matches Some(n) && n is Shutdown),
{
    match p {
        BootPhase::Init => Some(BootPhase::NamespaceSetup),
        BootPhase::NamespaceSetup => Some(BootPhase::ServiceBringup),
        BootPhase::ServiceBringup => match session {
            SessionKind::Scripted => Some(BootPhase::ScriptedSession),
            SessionKind::Interactive => Some(BootPhase::InteractiveSession),
            SessionKind::Degraded => Some(BootPhase::DegradedShell),
        },
        BootPhase::ScriptedSession => Some(BootPhase::Shutdown),
        BootPhase::InteractiveSession => Some(BootPhase::Shutdown),
        BootPhase::DegradedShell => Some(BootPhase::Shutdown),
        BootPhase::Shutdown => None,
    }
}

/// Every allowed step strictly increases the phase rank: no phase is ever
/// re-entered.
pub proof fn lemma_boot_never_reenters(from: BootPhase, to: BootPhase)
    requires
        boot_step_allowed(from, to),
    ensures
        phase_rank(to) > phase_rank(from),
{
}

/// Nothing follows the shutdown phase: it is the single terminal state of
/// every code path.
pub proof fn lemma_shutdown_terminal(to: BootPhase)
    ensures
        !boot_step_allowed(BootPhase::Shutdown, to),
{
}

} // verus!
