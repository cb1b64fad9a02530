use pkg_config::{
    archive_paths, exit_failure_message, find_library, is_under_system_root, join,
    resolve_output, Config, Directive, DirectiveKind,
};

fn env(pairs: &[(&str, &str)]) -> Vec<(String, String)> {
    pairs.iter().map(|(k, v)| (k.to_string(), v.to_string())).collect()
}

fn strings(v: &[&str]) -> Vec<String> {
    v.iter().map(|s| s.to_string()).collect()
}

fn kinds(d: &[Directive]) -> Vec<(DirectiveKind, String)> {
    d.iter().map(|d| (d.kind, d.value.clone())).collect()
}

#[test]
fn default_probe_is_dynamic() {
    let p = find_library("foo", &env(&[])).unwrap();
    assert_eq!(p.program, "pkg-config");
    assert!(!p.statik);
    assert_eq!(p.args, strings(&["--libs", "--cflags", "foo"]));
    assert_eq!(p.envs, vec![("PKG_CONFIG_ALLOW_SYSTEM_LIBS".to_string(), "1".to_string())]);
}

#[test]
fn end_to_end_dynamic() {
    let p = find_library("foo", &env(&[])).unwrap();
    let out = "-I/usr/local/include -L/usr/local/lib -lfoo";
    assert!(archive_paths(p.statik, out).is_empty());
    let (lib, dirs) = resolve_output(p.statik, out, &Vec::new());
    assert_eq!(lib.include_paths, strings(&["/usr/local/include"]));
    assert_eq!(lib.link_paths, strings(&["/usr/local/lib"]));
    assert_eq!(lib.libs, strings(&["foo"]));
    assert!(lib.frameworks.is_empty());
    assert!(lib.framework_paths.is_empty());
    assert_eq!(
        kinds(&dirs),
        vec![
            (DirectiveKind::SearchNative, "/usr/local/lib".to_string()),
            (DirectiveKind::LinkDynamic, "foo".to_string()),
        ]
    );
    let lines: Vec<String> = dirs.iter().map(|d| d.line()).collect();
    assert_eq!(
        lines,
        strings(&["cargo:rustc-link-search=native=/usr/local/lib", "cargo:rustc-link-lib=foo"])
    );
}

#[test]
fn end_to_end_static() {
    let p = find_library("foo", &env(&[("FOO_STATIC", "1")])).unwrap();
    assert!(p.statik);
    assert_eq!(p.args, strings(&["--static", "--libs", "--cflags", "foo"]));
    let out = "-I/usr/local/include -L/usr/local/lib -lfoo";
    let wanted = archive_paths(p.statik, out);
    assert_eq!(wanted, strings(&["/usr/local/lib/libfoo.a"]));
    let (lib, dirs) = resolve_output(p.statik, out, &wanted);
    assert_eq!(lib.include_paths, strings(&["/usr/local/include"]));
    assert_eq!(lib.link_paths, strings(&["/usr/local/lib"]));
    assert_eq!(lib.libs, strings(&["foo"]));
    assert_eq!(
        kinds(&dirs),
        vec![
            (DirectiveKind::SearchNative, "/usr/local/lib".to_string()),
            (DirectiveKind::LinkStatic, "foo".to_string()),
        ]
    );
    let lines: Vec<String> = dirs.iter().map(|d| d.line()).collect();
    assert_eq!(
        lines,
        strings(&["cargo:rustc-link-search=native=/usr/local/lib", "cargo:rustc-link-lib=static=foo"])
    );
}

#[test]
fn end_to_end_static_elsewhere() {
    let p = find_library("foo", &env(&[("FOO_STATIC", "1")])).unwrap();
    let out = "-L/opt/local/lib -lfoo";
    let wanted = archive_paths(p.statik, out);
    assert_eq!(wanted, strings(&["/opt/local/lib/libfoo.a"]));
    let (_, dirs) = resolve_output(p.statik, out, &wanted);
    assert_eq!(dirs[1].kind, DirectiveKind::LinkStatic);
}

#[test]
fn static_mode_without_archive_links_dynamically() {
    let out = "-L/opt/lib -lfoo";
    let (_, dirs) = resolve_output(true, out, &Vec::new());
    assert_eq!(dirs[1].kind, DirectiveKind::LinkDynamic);
}

#[test]
fn system_root_archive_never_static() {
    let out = "-L/usr/lib -lfoo";
    assert!(archive_paths(true, out).is_empty());
    let (_, dirs) = resolve_output(true, out, &strings(&["/usr/lib/libfoo.a"]));
    assert_eq!(dirs[1].kind, DirectiveKind::LinkDynamic);
    let out = "-L/usr -L/opt/x -lfoo";
    let (_, dirs) = resolve_output(true, out, &strings(&["/opt/x/libfoo.a"]));
    assert_eq!(dirs[2].kind, DirectiveKind::LinkStatic);
    let (_, dirs) = resolve_output(false, out, &strings(&["/opt/x/libfoo.a"]));
    assert_eq!(dirs[2].kind, DirectiveKind::LinkDynamic);
}

#[test]
fn archive_paths_per_library_and_directory() {
    let out = "-L/a -L/usr/lib -L/b/ -lx -ly";
    assert_eq!(
        archive_paths(true, out),
        strings(&["/a/libx.a", "/b/libx.a", "/a/liby.a", "/b/liby.a"])
    );
}

#[test]
fn system_root_test() {
    assert!(is_under_system_root("/usr"));
    assert!(is_under_system_root("/usr/"));
    assert!(is_under_system_root("/usr/lib/x86_64-linux-gnu"));
    assert!(is_under_system_root("/usr/localx/lib"));
    assert!(!is_under_system_root("/usr/local"));
    assert!(!is_under_system_root("/usr/local/"));
    assert!(!is_under_system_root("/usr/local/lib"));
    assert!(!is_under_system_root("/usr2/lib"));
    assert!(!is_under_system_root("/opt/usr"));
    assert!(!is_under_system_root("usr/lib"));
}

#[test]
fn join_puts_one_separator() {
    assert_eq!(join("/a", "b"), "/a/b");
    assert_eq!(join("/a/", "b"), "/a/b");
    assert_eq!(join("", "b"), "b");
}

#[test]
fn frameworks_and_framework_paths() {
    let out = "-F/Library/Frameworks -framework CoreFoundation -lz";
    let (lib, dirs) = resolve_output(false, out, &Vec::new());
    assert_eq!(lib.framework_paths, strings(&["/Library/Frameworks"]));
    assert_eq!(lib.frameworks, strings(&["CoreFoundation"]));
    assert_eq!(lib.libs, strings(&["z"]));
    assert_eq!(
        kinds(&dirs),
        vec![
            (DirectiveKind::SearchFramework, "/Library/Frameworks".to_string()),
            (DirectiveKind::LinkDynamic, "z".to_string()),
            (DirectiveKind::LinkFramework, "CoreFoundation".to_string()),
        ]
    );
    assert_eq!(dirs[0].line(), "cargo:rustc-link-search=framework=/Library/Frameworks");
    assert_eq!(dirs[2].line(), "cargo:rustc-link-lib=framework=CoreFoundation");
}

#[test]
fn cross_compile_refused() {
    let r = find_library("foo", &env(&[("HOST", "x86_64"), ("TARGET", "aarch64")]));
    assert_eq!(
        r.unwrap_err(),
        "pkg-config doesn't handle cross compilation. Use PKG_CONFIG_ALLOW_CROSS=1 to override"
    );
    let r = find_library(
        "foo",
        &env(&[("HOST", "x86_64"), ("TARGET", "aarch64"), ("PKG_CONFIG_ALLOW_CROSS", "1")]),
    );
    assert!(r.is_ok());
}

#[test]
fn disabled_library_refused() {
    let e = env(&[("FOO_NO_PKG_CONFIG", "1"), ("HOST", "a"), ("TARGET", "b")]);
    assert_eq!(find_library("foo", &e).unwrap_err(), "pkg-config requested to be aborted for foo");
}

#[test]
fn explicit_mode_overrides_environment() {
    let e = env(&[("FOO_STATIC", "1")]);
    let p = Config::new().statik(false).find("foo", &e).unwrap();
    assert!(!p.statik);
    assert_eq!(p.args, strings(&["--libs", "--cflags", "foo"]));
    let p = Config::new().statik(true).find("foo", &env(&[])).unwrap();
    assert!(p.statik);
}

#[test]
fn least_version_in_query() {
    let mut c = Config::new();
    c.atleast_version("1.2.3");
    let p = c.find("foo", &env(&[])).unwrap();
    assert_eq!(p.args, strings(&["--libs", "--cflags", "foo >= 1.2.3"]));
}

#[test]
fn exit_failure_message_sections() {
    assert_eq!(exit_failure_message("h", "", ""), "h");
    assert_eq!(exit_failure_message("h", "o", ""), "h\n--- stdout\no");
    assert_eq!(exit_failure_message("h", "", "e"), "h\n--- stderr\ne");
    assert_eq!(exit_failure_message("h", "o", "e"), "h\n--- stdout\no\n--- stderr\ne");
}
