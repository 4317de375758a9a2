//! Static-archive availability and linking-policy resolution.

use pkg_config::config::Config;
use pkg_config::is_static_available;
use pkg_config::Env;
use pkg_config::Fs;
use pkg_config::Statik;

fn mac_fs() -> Fs {
    Fs::new().with_system_root("/Library").with_system_root("/System")
}

fn linux_fs() -> Fs {
    Fs::new().with_system_root("/usr")
}

#[test]
fn system_library_mac_test() {
    let fs = mac_fs();
    assert!(!is_static_available(
        "PluginManager",
        &vec!["/Library/Frameworks".to_string()],
        &fs
    ));
    assert!(!is_static_available(
        "python2.7",
        &vec![
            "/System/Library/Frameworks/Python.framework/Versions/2.7/lib/python2.7/config"
                .to_string()
        ],
        &fs
    ));
    assert!(!is_static_available(
        "ffi_convenience",
        &vec![
            "/Library/Ruby/Gems/2.0.0/gems/ffi-1.9.10/ext/ffi_c/libffi-x86_64/.libs".to_string()
        ],
        &fs
    ));

    // Homebrew is in /usr/local, and it's not a part of the OS
    let fs = mac_fs().with_file("/usr/local/lib/libpng16.a");
    assert!(is_static_available(
        "png16",
        &vec!["/usr/local/lib".to_string()],
        &fs
    ));
}

#[test]
fn system_library_linux_test() {
    let fs = linux_fs();
    assert!(!is_static_available(
        "util",
        &vec!["/usr/lib/x86_64-linux-gnu".to_string()],
        &fs
    ));
    assert!(!is_static_available(
        "dialog",
        &vec!["/usr/lib".to_string()],
        &fs
    ));
}

#[test]
fn static_archive_found_outside_system_roots() {
    let fs = linux_fs().with_file("/opt/lib/libfoo.a");
    assert!(is_static_available(
        "foo",
        &vec!["/opt/lib".to_string()],
        &fs
    ));
    // the same directory under a system root is refused
    let fs = linux_fs().with_file("/usr/lib/libfoo.a");
    assert!(!is_static_available(
        "foo",
        &vec!["/usr/lib".to_string()],
        &fs
    ));
}

#[test]
fn blacklist_forces_dynamic() {
    // a library on the static-exception list resolves to dynamic linking
    // even with the global force-static variable set
    let env = Env::new().set("PKG_CONFIG_ALL_STATIC", "1");
    let cfg = Config::new().statik_blacklist(vec!["foo".to_string()]);
    let mut log: Vec<String> = Vec::new();
    assert_eq!(cfg.is_static(&env, "foo", &mut log), Statik::No);
    // and even with an explicit force-static policy
    let cfg = Config::new()
        .statik(Statik::Force)
        .statik_blacklist(vec!["foo".to_string()]);
    assert_eq!(cfg.is_static(&env, "foo", &mut log), Statik::No);
    // a library not on the list follows the environment
    let cfg = Config::new();
    assert_eq!(cfg.is_static(&env, "bar", &mut log), Statik::Yes);
}

#[test]
fn per_library_static_beats_global() {
    let env = Env::new()
        .set("FOO_STATIC", "1")
        .set("PKG_CONFIG_ALL_DYNAMIC", "1");
    let cfg = Config::new();
    let mut log: Vec<String> = Vec::new();
    assert_eq!(cfg.is_static(&env, "foo", &mut log), Statik::Yes);

    let env = Env::new()
        .set("FOO_STATIC", "1")
        .set("PKG_CONFIG_ALL_STATIC", "1");
    assert_eq!(cfg.is_static(&env, "foo", &mut log), Statik::Yes);
}

#[test]
fn per_library_variables_precedence() {
    let cfg = Config::new();
    let mut log: Vec<String> = Vec::new();
    let env = Env::new().set("FOO_STATIC_FORCE", "1").set("FOO_DYNAMIC", "1");
    assert_eq!(cfg.is_static(&env, "foo", &mut log), Statik::Force);
    let env = Env::new().set("FOO_DYNAMIC", "1").set("PKG_CONFIG_ALL_STATIC", "1");
    assert_eq!(cfg.is_static(&env, "foo", &mut log), Statik::No);
    let env = Env::new();
    assert_eq!(cfg.is_static(&env, "foo", &mut log), Statik::No);
}

#[test]
fn dashes_are_envified() {
    // the per-library variable name upper-cases and replaces dashes
    assert_eq!(pkg_config::envify("foo-bar").as_str(), "FOO_BAR");
    assert_eq!(pkg_config::envify("zlib").as_str(), "ZLIB");
    let env = Env::new().set("FOO_BAR_STATIC", "1");
    let cfg = Config::new();
    let mut log: Vec<String> = Vec::new();
    assert_eq!(cfg.is_static(&env, "foo-bar", &mut log), Statik::Yes);
}

#[test]
fn statik_from_bool() {
    assert_eq!(Statik::from_bool(true), Statik::Yes);
    assert_eq!(Statik::from_bool(false), Statik::No);
}
