use virtme_ng_init::envcfg::{clear_virtme_envs, configure_environment, configure_hostname,
    configure_limits, init_xdg_runtime_dir, set_cwd, setup_root_home, strip_private_env,
    HostnameAction};
use virtme_ng_init::mounts::MountStep;

fn pair(k: &str, v: &str) -> (String, String) {
    (k.to_string(), v.to_string())
}

#[test]
fn stripping_removes_every_private_variable() {
    let env = vec![
        pair("PATH", "/bin"),
        pair("virtme_user", "bob"),
        pair("HOME", "/root"),
        pair("virtme_hostname", "vm"),
        pair("virtme_rw_overlay0", "/home"),
    ];
    let keys = clear_virtme_envs(&env);
    assert_eq!(keys, vec!["virtme_user", "virtme_hostname", "virtme_rw_overlay0"]);
    let out = strip_private_env(&env);
    assert_eq!(out, vec![pair("PATH", "/bin"), pair("HOME", "/root")]);
    assert!(out.iter().all(|kv| !kv.0.starts_with("virtme_")));
}

#[test]
fn stripping_with_no_private_variables() {
    let env = vec![pair("PATH", "/bin"), pair("TERM", "xterm")];
    assert_eq!(clear_virtme_envs(&env).len(), 0);
    assert_eq!(strip_private_env(&env), env);
    let empty: Vec<(String, String)> = Vec::new();
    assert_eq!(clear_virtme_envs(&empty).len(), 0);
    assert_eq!(strip_private_env(&empty).len(), 0);
}

#[test]
fn session_search_path() {
    let (key, value) = configure_environment();
    assert_eq!(key, "PATH");
    assert_eq!(value, "/bin:/sbin:/usr/bin:/usr/sbin:/usr/local/bin");
}

#[test]
fn hostname_decision() {
    let name = "testvm".to_string();
    match configure_hostname(Some(&name)) {
        HostnameAction::SetTo(n) => assert_eq!(n, "testvm"),
        HostnameAction::Undefined => panic!("expected a hostname"),
    }
    assert!(matches!(configure_hostname(None), HostnameAction::Undefined));
}

#[test]
fn limit_override_decision() {
    let v = "1048576".to_string();
    assert_eq!(
        configure_limits(Some(&v)),
        Some(("/proc/sys/fs/nr_open".to_string(), "1048576".to_string()))
    );
    assert_eq!(configure_limits(None), None);
}

#[test]
fn working_directory_decision() {
    let d = "/home/bob".to_string();
    assert_eq!(set_cwd(Some(&d)), Some("/home/bob".to_string()));
    assert_eq!(set_cwd(None), None);
}

#[test]
fn root_home_for_rootless_host() {
    let plan = setup_root_home(false);
    assert_eq!(plan.home, "/run/tmp/roothome");
    assert_eq!(plan.steps.len(), 2);
    match &plan.steps[0] {
        MountStep::Dir(d) => assert_eq!(d, "/run/tmp/roothome"),
        _ => panic!("expected the scratch home directory"),
    }
    match &plan.steps[1] {
        MountStep::Apply(m) => {
            assert_eq!(m.source, "/run/tmp/roothome");
            assert_eq!(m.target, "/root");
        },
        _ => panic!("expected the bind mount"),
    }
}

#[test]
fn root_home_for_root_host() {
    let plan = setup_root_home(true);
    assert_eq!(plan.home, "/root");
    assert_eq!(plan.steps.len(), 0);
}

#[test]
fn runtime_directory_for_uid() {
    assert_eq!(init_xdg_runtime_dir(0), "/run/user/0");
    assert_eq!(init_xdg_runtime_dir(1000), "/run/user/1000");
}
