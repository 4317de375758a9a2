//! Classifying tokenized flag output into the result descriptor.

use pkg_config::config::Config;
use pkg_config::Env;
use pkg_config::Fs;
use pkg_config::Library;
use pkg_config::Statik;

fn classify(output: &str) -> (Library, Vec<String>) {
    let cfg = Config::new();
    let env = Env::new();
    let fs = Fs::new();
    let mut log: Vec<String> = Vec::new();
    let mut lib = Library::new();
    lib.parse_libs_cflags("foo", output, &cfg, &env, &fs, &mut log);
    (lib, log)
}

#[test]
fn search_path_is_recorded_with_metadata() {
    let (lib, log) = classify("-L/usr/local/lib");
    assert_eq!(lib.link_paths, vec!["/usr/local/lib"]);
    assert!(log.contains(&"rustc-link-search=native=/usr/local/lib".to_string()));
}

#[test]
fn dynamic_library_link() {
    let (lib, log) = classify("-lfoo");
    assert_eq!(lib.libs, vec!["foo"]);
    assert!(log.contains(&"rustc-link-lib=foo".to_string()));
}

#[test]
fn static_link_when_archive_is_available() {
    let cfg = Config::new().statik(Statik::Yes);
    let env = Env::new();
    let fs = Fs::new().with_file("/opt/lib/libfoo.a");
    let mut log: Vec<String> = Vec::new();
    let mut lib = Library::new();
    lib.parse_libs_cflags("foo", "-L/opt/lib -lfoo", &cfg, &env, &fs, &mut log);
    assert_eq!(lib.libs, vec!["foo"]);
    assert!(log.contains(&"rustc-link-lib=static=foo".to_string()));
}

#[test]
fn force_static_needs_no_archive() {
    let cfg = Config::new().statik(Statik::Force);
    let env = Env::new();
    let fs = Fs::new();
    let mut log: Vec<String> = Vec::new();
    let mut lib = Library::new();
    lib.parse_libs_cflags("foo", "-lfoo", &cfg, &env, &fs, &mut log);
    assert!(log.contains(&"rustc-link-lib=static=foo".to_string()));
}

#[test]
fn define_with_value() {
    let (lib, _) = classify("-Dkey=value");
    assert_eq!(lib.get_define("key"), Some(Some("value".to_string())));
}

#[test]
fn define_without_value() {
    let (lib, _) = classify("-Dkey");
    assert_eq!(lib.get_define("key"), Some(None));
    assert_eq!(lib.get_define("other"), None);
}

#[test]
fn later_define_supersedes_earlier() {
    let (lib, _) = classify("-Dkey=one -Dkey=two");
    assert_eq!(lib.get_define("key"), Some(Some("two".to_string())));
}

#[test]
fn framework_search_path_and_include_path() {
    let (lib, log) = classify("-F/Library/Frameworks -I/usr/include");
    assert_eq!(lib.framework_paths, vec!["/Library/Frameworks"]);
    assert_eq!(lib.include_paths, vec!["/usr/include"]);
    assert!(log.contains(&"rustc-link-search=framework=/Library/Frameworks".to_string()));
    // include paths yield no linker metadata
    assert!(!log.iter().any(|l| l.contains("/usr/include")));
}

#[test]
fn bare_framework_directive() {
    let (lib, log) = classify("-framework Cocoa");
    assert_eq!(lib.frameworks, vec!["Cocoa"]);
    assert!(log.contains(&"rustc-link-lib=framework=Cocoa".to_string()));
}

#[test]
fn linker_passthrough_framework_directive() {
    let (lib, _) = classify("-Wl,-framework,Cocoa");
    assert_eq!(lib.frameworks, vec!["Cocoa"]);
}

#[test]
fn short_and_unknown_tokens_are_ignored() {
    let (lib, log) = classify("-l -L -x xyz -Xfoo");
    assert!(lib.libs.is_empty());
    assert!(lib.link_paths.is_empty());
    assert!(log.is_empty());
}

#[test]
fn search_paths_keep_order_and_duplicates() {
    let (lib, _) = classify("-L/a -L/b -L/a");
    assert_eq!(lib.link_paths, vec!["/a", "/b", "/a"]);
}

#[test]
fn metadata_can_be_switched_off() {
    let cfg = Config::new().cargo_metadata(false);
    let env = Env::new();
    let fs = Fs::new();
    let mut log: Vec<String> = Vec::new();
    let mut lib = Library::new();
    lib.parse_libs_cflags("foo", "-L/a -lfoo", &cfg, &env, &fs, &mut log);
    assert_eq!(lib.libs, vec!["foo"]);
    assert!(log.is_empty());
}

#[test]
fn msvc_runtime_libraries_are_skipped() {
    let cfg = Config::new();
    let env = Env::new()
        .set("TARGET", "x86_64-pc-windows-msvc")
        .set("HOST", "x86_64-pc-windows-msvc");
    let fs = Fs::new();
    let mut log: Vec<String> = Vec::new();
    let mut lib = Library::new();
    lib.parse_libs_cflags("foo", "-lm -lc -lpthread -lfoo", &cfg, &env, &fs, &mut log);
    assert_eq!(lib.libs, vec!["foo"]);
}

#[test]
fn modversion_is_trimmed() {
    let mut lib = Library::new();
    lib.parse_modversion("  1.2.11 \n");
    assert_eq!(lib.version.as_str(), "1.2.11");
}
