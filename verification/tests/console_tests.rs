use virtme_ng_init::console::{configure_terminal, detach_from_terminal, get_active_console,
    get_legacy_active_console, run_user_gui, run_user_shell, session_route, SessionRoute,
    TakeoverStep};

// A console-status line whose fixed status column (offset 27) carries the
// given flag character.
fn status_line(name: &str, flag: char) -> String {
    let mut line = name.to_string();
    while line.len() < 27 {
        line.push(' ');
    }
    line.push(flag);
    line.push_str(" (EC p a)    4:64");
    line
}

#[test]
fn active_console_is_first_marked_line() {
    let report = format!(
        "{}\n{}\n{}\n",
        status_line("tty0", '-'),
        status_line("ttyS0", 'C'),
        status_line("hvc0", 'C'),
    );
    assert_eq!(get_legacy_active_console(&report), Some("/dev/ttyS0".to_string()));
}

#[test]
fn no_active_console_in_report() {
    let report = format!("{}\n{}\n", status_line("tty0", '-'), status_line("ttyS0", ' '));
    assert_eq!(get_legacy_active_console(&report), None);
    assert_eq!(get_legacy_active_console(""), None);
    assert_eq!(get_legacy_active_console("short line\n"), None);
}

#[test]
fn configured_console_wins() {
    let name = "hvc0".to_string();
    assert_eq!(get_active_console(Some(&name), None), Some("/dev/hvc0".to_string()));
    let report = format!("{}\n", status_line("ttyS0", 'C'));
    assert_eq!(get_active_console(Some(&name), Some(&report)), Some("/dev/hvc0".to_string()));
    assert_eq!(get_active_console(None, Some(&report)), Some("/dev/ttyS0".to_string()));
    assert_eq!(get_active_console(None, None), None);
}

#[test]
fn takeover_sequence_order() {
    let steps = detach_from_terminal();
    assert_eq!(steps.len(), 6);
    assert!(matches!(steps[0], TakeoverStep::NewSession));
    assert!(matches!(steps[1], TakeoverStep::CloseStdio));
    assert!(matches!(steps[2], TakeoverStep::DupStdin));
    assert!(matches!(steps[3], TakeoverStep::SetControllingTty));
    assert!(matches!(steps[4], TakeoverStep::DupStdout));
    assert!(matches!(steps[5], TakeoverStep::DupStderr));
}

#[test]
fn terminal_configuration() {
    let params = "rows 24  cols 80".to_string();
    let p = configure_terminal("/dev/ttyS0", 1000, Some(&params));
    assert_eq!(p.chown_path, "/dev/ttyS0");
    assert_eq!(p.chown_uid, 1000);
    assert_eq!(p.redirect_to, "/dev/ttyS0");
    let stty = p.stty.expect("expected the terminal-settings command");
    assert_eq!(stty.program, "stty");
    assert_eq!(stty.args, vec!["rows", "24", "cols", "80"]);
    let p = configure_terminal("/dev/ttyS0", 0, None);
    assert!(p.stty.is_none());
}

#[test]
fn interactive_shell_arguments() {
    assert_eq!(run_user_shell(None), vec!["-l"]);
    let user = "bob".to_string();
    assert_eq!(run_user_shell(Some(&user)), vec!["-l", "-c", "su bob"]);
}

#[test]
fn graphical_session_for_named_user() {
    let tools = "/run/virtme/guesttools".to_string();
    let user = "bob".to_string();
    let p = run_user_gui("quiet virtme.sound", Some(&tools), Some(&user));
    assert_eq!(p.xinitrc.path, "/run/tmp/.xinitrc");
    assert_eq!(p.xinitrc.mode, 0o644);
    assert_eq!(
        p.xinitrc.contents,
        "/run/virtme/guesttools/virtme-sound-script\n/bin/bash /run/tmp/.virtme-script"
    );
    assert_eq!(p.fixups.len(), 2);
    assert_eq!(p.fixups[0].program, "bash");
    assert_eq!(p.fixups[0].args, vec!["-c", "chown bob /dev/char/*"]);
    assert_eq!(p.fixups[1].args, vec!["-c", "rm -f /tmp/.X11*/* /tmp/.X11-lock"]);
    assert_eq!(p.shell_args, vec!["-l", "-c", "su bob -c 'xinit /run/tmp/.xinitrc'"]);
}

#[test]
fn graphical_session_without_user_or_sound() {
    let p = run_user_gui("quiet", None, None);
    assert_eq!(p.xinitrc.contents, "\n/bin/bash /run/tmp/.virtme-script");
    assert_eq!(p.fixups.len(), 0);
    assert_eq!(p.shell_args, vec!["-l", "-c", "xinit /run/tmp/.xinitrc"]);
}

#[test]
fn session_routing() {
    match session_route(Some("/dev/ttyS0".to_string())) {
        SessionRoute::Console(d) => assert_eq!(d, "/dev/ttyS0"),
        SessionRoute::DegradedShell => panic!("expected the console route"),
    }
    assert!(matches!(session_route(None), SessionRoute::DegradedShell));
}
