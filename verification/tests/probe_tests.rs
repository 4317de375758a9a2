//! Environment resolution, command composition and whole-probe scenarios.

use pkg_config::config::Config;
use pkg_config::probe_library;
use pkg_config::Env;
use pkg_config::Error;
use pkg_config::Fs;
use pkg_config::ProcOutput;
use pkg_config::RunOutcome;
use pkg_config::Statik;

fn ran_ok(stdout: &str) -> RunOutcome {
    RunOutcome::Ran(ProcOutput {
        success: true,
        status: "exit status: 0".to_string(),
        stdout: stdout.to_string(),
        stderr: String::new(),
    })
}

fn ran_failed(stderr: &str) -> RunOutcome {
    RunOutcome::Ran(ProcOutput {
        success: false,
        status: "exit status: 1".to_string(),
        stdout: String::new(),
        stderr: stderr.to_string(),
    })
}

#[test]
fn targetted_lookup_plain_base_on_host_build() {
    let host = "x86_64-unknown-linux-gnu";
    let env = Env::new()
        .set("TARGET", host)
        .set("HOST", host)
        .set("PKG_CONFIG_PATH", "/plain");
    let cfg = Config::new();
    let mut log: Vec<String> = Vec::new();
    let got = cfg.targetted_env_var(&env, "PKG_CONFIG_PATH", &mut log);
    assert_eq!(got, Some("/plain".to_string()));
}

#[test]
fn targetted_lookup_target_override_wins() {
    let env = Env::new()
        .set("TARGET", "aarch64-unknown-linux-gnu")
        .set("HOST", "x86_64-unknown-linux-gnu")
        .set("PKG_CONFIG_PATH", "/plain")
        .set("PKG_CONFIG_PATH_aarch64-unknown-linux-gnu", "/for-target");
    let cfg = Config::new();
    let mut log: Vec<String> = Vec::new();
    let got = cfg.targetted_env_var(&env, "PKG_CONFIG_PATH", &mut log);
    assert_eq!(got, Some("/for-target".to_string()));
}

#[test]
fn targetted_lookup_normalised_triple_and_kind_prefix() {
    let env = Env::new()
        .set("TARGET", "aarch64-unknown-linux-gnu")
        .set("HOST", "x86_64-unknown-linux-gnu")
        .set("PKG_CONFIG_PATH_aarch64_unknown_linux_gnu", "/underscored");
    let cfg = Config::new();
    let mut log: Vec<String> = Vec::new();
    let got = cfg.targetted_env_var(&env, "PKG_CONFIG_PATH", &mut log);
    assert_eq!(got, Some("/underscored".to_string()));

    let env = Env::new()
        .set("TARGET", "aarch64-unknown-linux-gnu")
        .set("HOST", "x86_64-unknown-linux-gnu")
        .set("TARGET_PKG_CONFIG_PATH", "/by-kind")
        .set("PKG_CONFIG_PATH", "/plain");
    let got = cfg.targetted_env_var(&env, "PKG_CONFIG_PATH", &mut log);
    assert_eq!(got, Some("/by-kind".to_string()));
}

#[test]
fn command_composition() {
    let env = Env::new();
    let cfg = Config::new().statik(Statik::Force).atleast_version("1.2.3");
    let cfg = cfg.arg("--keep-system-libs");
    let mut log: Vec<String> = Vec::new();
    let args = vec!["--libs".to_string(), "--cflags".to_string()];
    let cmd = cfg.command("foo", &args, &env, &mut log);
    assert_eq!(cmd.program.as_str(), "pkg-config");
    assert_eq!(
        cmd.args,
        vec![
            "--static",
            "--libs",
            "--cflags",
            "--keep-system-libs",
            "foo >= 1.2.3"
        ]
    );
    assert_eq!(
        cmd.env_overrides,
        vec![(
            "PKG_CONFIG_ALLOW_SYSTEM_LIBS".to_string(),
            "1".to_string()
        )]
    );
}

#[test]
fn command_executable_override_and_path_passthrough() {
    let env = Env::new()
        .set("PKG_CONFIG", "my-pkg-config")
        .set("PKG_CONFIG_PATH", "/somewhere");
    let cfg = Config::new().print_system_libs(false);
    let mut log: Vec<String> = Vec::new();
    let args = vec!["--libs".to_string()];
    let cmd = cfg.command("foo", &args, &env, &mut log);
    assert_eq!(cmd.program.as_str(), "my-pkg-config");
    assert_eq!(cmd.args, vec!["--libs", "foo"]);
    assert_eq!(
        cmd.env_overrides,
        vec![("PKG_CONFIG_PATH".to_string(), "/somewhere".to_string())]
    );
}

#[test]
fn env_metadata_records_lookups() {
    let env = Env::new();
    let cfg = Config::new().env_metadata(true);
    let mut log: Vec<String> = Vec::new();
    let got = cfg.env_var(&env, "ZLIB_NO_PKG_CONFIG", &mut log);
    assert_eq!(got, None);
    assert_eq!(log, vec!["rerun-if-env-changed=ZLIB_NO_PKG_CONFIG"]);
}

#[test]
fn probe_zlib_end_to_end() {
    let env = Env::new();
    let fs = Fs::new();
    let runs = vec![ran_ok("-I/usr/include -L/usr/lib -lz"), ran_ok("1.2.11\n")];
    let mut log: Vec<String> = Vec::new();
    let lib = probe_library("zlib", &env, &fs, &runs, &mut log).unwrap();
    assert_eq!(lib.include_paths, vec!["/usr/include"]);
    assert_eq!(lib.link_paths, vec!["/usr/lib"]);
    assert_eq!(lib.libs, vec!["z"]);
    assert_eq!(lib.version.as_str(), "1.2.11");
    assert!(log.contains(&"rustc-link-search=native=/usr/lib".to_string()));
    assert!(log.contains(&"rustc-link-lib=z".to_string()));
}

#[test]
fn probe_aborts_on_disable_variable() {
    let env = Env::new().set("FOO_NO_PKG_CONFIG", "1");
    let fs = Fs::new();
    // the transcript holds successful runs; the abort must win without
    // consuming them
    let runs = vec![ran_ok("-lfoo"), ran_ok("1.0\n")];
    let mut log: Vec<String> = Vec::new();
    match probe_library("foo", &env, &fs, &runs, &mut log) {
        Err(Error::EnvNoPkgConfig(var)) => assert_eq!(var.as_str(), "FOO_NO_PKG_CONFIG"),
        _ => panic!("expected the configuration-abort error"),
    }
}

#[test]
fn probe_refuses_unconfirmed_cross_compile() {
    let env = Env::new()
        .set("TARGET", "aarch64-unknown-linux-gnu")
        .set("HOST", "x86_64-unknown-linux-gnu");
    let fs = Fs::new();
    let runs = vec![ran_ok("-lfoo"), ran_ok("1.0\n")];
    let mut log: Vec<String> = Vec::new();
    match probe_library("foo", &env, &fs, &runs, &mut log) {
        Err(Error::CrossCompilation) => {}
        _ => panic!("expected the cross-compilation error"),
    }
    assert!(pkg_config::target_supported(
        &env.set("PKG_CONFIG_ALLOW_CROSS", "1")
    ));
}

#[test]
fn probe_reports_spawn_failure() {
    let env = Env::new();
    let fs = Fs::new();
    let runs = vec![
        RunOutcome::SpawnFailed("No such file or directory".to_string()),
        ran_ok("1.0\n"),
    ];
    let mut log: Vec<String> = Vec::new();
    match probe_library("foo", &env, &fs, &runs, &mut log) {
        Err(Error::Command { command, cause }) => {
            assert!(command.contains("pkg-config"));
            assert_eq!(cause.as_str(), "No such file or directory");
        }
        _ => panic!("expected the command-start error"),
    }
}

#[test]
fn probe_reports_unsuccessful_exit() {
    let env = Env::new();
    let fs = Fs::new();
    let runs = vec![ran_failed("Package foo was not found"), ran_ok("1.0\n")];
    let mut log: Vec<String> = Vec::new();
    match probe_library("foo", &env, &fs, &runs, &mut log) {
        Err(Error::Failure { command, output }) => {
            assert!(command.contains("\"--libs\" \"--cflags\" \"foo\""));
            assert!(!output.success);
            assert_eq!(output.stderr.as_str(), "Package foo was not found");
        }
        _ => panic!("expected the unsuccessful-exit error"),
    }
}

#[test]
fn error_messages_name_the_trouble() {
    let e = Error::EnvNoPkgConfig("FOO_NO_PKG_CONFIG".to_string());
    assert_eq!(
        e.message().as_str(),
        "Aborted because FOO_NO_PKG_CONFIG is set"
    );
    let e = Error::CrossCompilation;
    assert!(e.message().contains("PKG_CONFIG_ALLOW_CROSS"));
}

#[test]
fn get_variable_trims_trailing_output() {
    let env = Env::new();
    let mut log: Vec<String> = Vec::new();
    let run = ran_ok("/usr/lib/pkgconfig\n");
    let got = pkg_config::get_variable("zlib", "libdir", &env, &run, &mut log).unwrap();
    assert_eq!(got.as_str(), "/usr/lib/pkgconfig");
}

#[test]
fn find_library_renders_the_error() {
    let env = Env::new().set("FOO_NO_PKG_CONFIG", "1");
    let fs = Fs::new();
    let runs = vec![ran_ok(""), ran_ok("")];
    let mut log: Vec<String> = Vec::new();
    let err = pkg_config::find_library("foo", &env, &fs, &runs, &mut log).unwrap_err();
    assert_eq!(err.as_str(), "Aborted because FOO_NO_PKG_CONFIG is set");
}
