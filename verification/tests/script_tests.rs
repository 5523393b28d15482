use virtme_ng_init::script::{create_user_script, embed_user_script, extract_user_script,
    extract_vsock_exec, run_user_script, script_exit_code_text, setup_user_script, IoLinkStatus,
    LinkStatus, ScriptDispatch, ScriptPorts, ScriptSetup};

#[test]
fn test_extract_user_script() {
    let input = "other=stuff virtme.exec=`SGVsbG8K` is=ignored";
    assert_eq!(extract_user_script(input), Some("Hello\n".to_string()));
}

#[test]
fn round_trip_plain_command() {
    let text = "echo hi; ls -l /";
    let cmdline = embed_user_script(text, "other=stuff ", " is=ignored");
    assert_eq!(extract_user_script(&cmdline), Some(text.to_string()));
}

#[test]
fn round_trip_empty_and_unicode() {
    let text = "";
    let cmdline = embed_user_script(text, "", "");
    assert_eq!(extract_user_script(&cmdline), Some(String::new()));

    let text = "h\u{00e9}llo \u{2200}x\n";
    let cmdline = embed_user_script(text, "quiet ro ", "");
    assert_eq!(extract_user_script(&cmdline), Some(text.to_string()));
}

#[test]
fn round_trip_with_marker_like_prefix() {
    // A prefix that almost spells the marker (it lacks the backtick) must
    // not confuse extraction.
    let text = "true";
    let cmdline = embed_user_script(text, "virtme.exec= decoy ", "");
    assert_eq!(extract_user_script(&cmdline), Some(text.to_string()));
}

#[test]
fn extraction_takes_the_first_marker() {
    // Everything after the first closing backtick is ignored, even a
    // second marker.
    let inner = embed_user_script("echo first", "a=b ", " virtme.exec=`ZGVjb3k=` t");
    assert_eq!(extract_user_script(&inner), Some("echo first".to_string()));
}

#[test]
fn absence_of_marker_is_no_script() {
    assert_eq!(extract_user_script("quiet ro console=ttyS0"), None);
    assert_eq!(extract_user_script(""), None);
}

#[test]
fn missing_closing_backtick_is_no_script() {
    assert_eq!(extract_user_script("virtme.exec=`SGVsbG8K"), None);
}

#[test]
fn ill_formed_base64_is_no_script() {
    assert_eq!(extract_user_script("virtme.exec=`!!!not-base64!!!` x"), None);
}

#[test]
fn non_utf8_payload_is_no_script() {
    // "//4=" decodes to the bytes ff fe, which are not UTF-8.
    assert_eq!(extract_user_script("virtme.exec=`//4=` x"), None);
}

#[test]
fn vsock_exec_extraction() {
    let cmdline = "foo virtme.vsockexec=`socat-cmd --opt` bar";
    assert_eq!(extract_vsock_exec(cmdline), Some("socat-cmd --opt".to_string()));
    assert_eq!(extract_vsock_exec("foo bar"), None);
    assert_eq!(extract_vsock_exec("virtme.vsockexec=`unterminated"), None);
}

#[test]
fn user_script_file() {
    let f = create_user_script("echo done");
    assert_eq!(f.path, "/run/tmp/.virtme-script");
    assert_eq!(f.mode, 0o755);
    assert_eq!(f.contents, "echo done");
}

#[test]
fn setup_user_script_decisions() {
    let cmdline = embed_user_script("uname -a", "quiet ", "");
    match setup_user_script(&cmdline, false) {
        ScriptSetup::Script { file, run_now } => {
            assert_eq!(file.path, "/run/tmp/.virtme-script");
            assert_eq!(file.contents, "uname -a");
            assert!(run_now);
        },
        ScriptSetup::NoScript => panic!("expected a script"),
    }
    match setup_user_script(&cmdline, true) {
        ScriptSetup::Script { run_now, .. } => assert!(!run_now),
        ScriptSetup::NoScript => panic!("expected a script"),
    }
    assert!(matches!(setup_user_script("quiet ro", false), ScriptSetup::NoScript));
}

fn all_ports() -> ScriptPorts {
    ScriptPorts {
        stdin_port: true,
        stdout_port: true,
        stderr_port: true,
        dev_stdout_port: true,
        dev_stderr_port: true,
    }
}

fn all_io() -> IoLinkStatus {
    IoLinkStatus {
        ret: LinkStatus { src_exists: true, dst_exists: false },
        dev_stdin: LinkStatus { src_exists: true, dst_exists: true },
        dev_stdout: LinkStatus { src_exists: true, dst_exists: true },
        dev_stderr: LinkStatus { src_exists: false, dst_exists: true },
    }
}

#[test]
fn missing_port_falls_through_to_console_path() {
    let mut ports = all_ports();
    ports.dev_stderr_port = false;
    let d = run_user_script(&ports, &all_io(), "");
    assert!(matches!(d, ScriptDispatch::PortsMissing));
}

#[test]
fn remote_dispatch_as_root() {
    match run_user_script(&all_ports(), &all_io(), "") {
        ScriptDispatch::Remote(p) => {
            assert_eq!(p.program, "/bin/sh");
            assert_eq!(p.args, vec!["/run/tmp/.virtme-script".to_string()]);
            assert_eq!(p.tty_stdin, "/dev/virtio-ports/virtme.stdin");
            assert_eq!(p.tty_stdout, "/dev/virtio-ports/virtme.stdout");
            assert_eq!(p.tty_stderr, "/dev/virtio-ports/virtme.stderr");
            assert_eq!(p.ret_port, "/dev/virtme.ret");
            // dev_stderr's source port is absent: three links remain.
            assert_eq!(p.links.len(), 3);
            assert_eq!(p.links[0].src, "/dev/virtio-ports/virtme.ret");
            assert_eq!(p.links[0].dst, "/dev/virtme.ret");
            assert!(!p.links[0].unlink_dst);
            assert_eq!(p.links[1].src, "/dev/virtio-ports/virtme.dev_stdin");
            assert_eq!(p.links[1].dst, "/dev/stdin");
            assert!(p.links[1].unlink_dst);
            assert_eq!(p.links[2].dst, "/dev/stdout");
        },
        ScriptDispatch::PortsMissing => panic!("expected a remote session"),
    }
}

#[test]
fn remote_dispatch_as_named_user() {
    match run_user_script(&all_ports(), &all_io(), "bob") {
        ScriptDispatch::Remote(p) => {
            assert_eq!(p.program, "su");
            assert_eq!(
                p.args,
                vec!["bob".to_string(), "-c".to_string(), "/run/tmp/.virtme-script".to_string()]
            );
        },
        ScriptDispatch::PortsMissing => panic!("expected a remote session"),
    }
}

#[test]
fn exit_code_text_values() {
    assert_eq!(script_exit_code_text(Some(0)), "0");
    assert_eq!(script_exit_code_text(Some(137)), "137");
    assert_eq!(script_exit_code_text(Some(-9)), "-9");
    assert_eq!(script_exit_code_text(None), "-1");
}
