use pkg_config::{disabled, envify, infer_static, target_supported, var};

fn env(pairs: &[(&str, &str)]) -> Vec<(String, String)> {
    pairs.iter().map(|(k, v)| (k.to_string(), v.to_string())).collect()
}

#[test]
fn envify_upper_cases_and_replaces_dashes() {
    assert_eq!(envify("foo-bar"), "FOO_BAR");
    assert_eq!(envify("libFoo2"), "LIBFOO2");
    assert_eq!(envify("abc"), "ABC");
    assert_eq!(envify(""), "");
}

#[test]
fn envify_is_idempotent() {
    for name in ["foo-bar", "x11-xcb", "GL", "z"] {
        let once = envify(name);
        assert_eq!(envify(&once), once);
    }
}

#[test]
fn envify_keeps_other_characters() {
    assert_eq!(envify("a_b.c"), "A_B.C");
    assert_eq!(envify("é-x"), "é_X");
}

#[test]
fn var_reads_first_occurrence() {
    let e = env(&[("A", "1"), ("B", "2"), ("A", "3")]);
    assert_eq!(var(&e, "A"), Some("1".to_string()));
    assert_eq!(var(&e, "B"), Some("2".to_string()));
    assert_eq!(var(&e, "C"), None);
}

#[test]
fn own_static_beats_global_dynamic() {
    let e = env(&[("PKG_CONFIG_ALL_DYNAMIC", "1"), ("FOO_STATIC", "1")]);
    assert!(infer_static(&e, "foo"));
}

#[test]
fn own_static_beats_own_dynamic() {
    let e = env(&[("FOO_DYNAMIC", "1"), ("FOO_STATIC", "1")]);
    assert!(infer_static(&e, "foo"));
}

#[test]
fn own_dynamic_beats_global_static() {
    let e = env(&[("PKG_CONFIG_ALL_STATIC", "1"), ("FOO_DYNAMIC", "1")]);
    assert!(!infer_static(&e, "foo"));
}

#[test]
fn global_static_applies() {
    let e = env(&[("PKG_CONFIG_ALL_STATIC", "1")]);
    assert!(infer_static(&e, "foo"));
    let e = env(&[("PKG_CONFIG_ALL_STATIC", "1"), ("PKG_CONFIG_ALL_DYNAMIC", "1")]);
    assert!(infer_static(&e, "foo"));
}

#[test]
fn dynamic_by_default() {
    assert!(!infer_static(&env(&[]), "foo"));
    assert!(!infer_static(&env(&[("PKG_CONFIG_ALL_DYNAMIC", "1")]), "foo"));
    assert!(!infer_static(&env(&[("BAR_STATIC", "1")]), "foo"));
}

#[test]
fn static_variable_uses_envified_name() {
    let e = env(&[("FOO_BAR_STATIC", "")]);
    assert!(infer_static(&e, "foo-bar"));
}

#[test]
fn target_supported_cases() {
    assert!(target_supported(&env(&[])));
    assert!(target_supported(&env(&[("HOST", "x86"), ("TARGET", "x86")])));
    assert!(!target_supported(&env(&[("HOST", "x86"), ("TARGET", "arm")])));
    assert!(!target_supported(&env(&[("HOST", "x86")])));
    assert!(target_supported(&env(&[
        ("HOST", "x86"),
        ("TARGET", "arm"),
        ("PKG_CONFIG_ALLOW_CROSS", "1"),
    ])));
}

#[test]
fn disabled_by_variable() {
    assert!(disabled(&env(&[("FOO_BAR_NO_PKG_CONFIG", "1")]), "foo-bar"));
    assert!(!disabled(&env(&[("FOO_NO_PKG_CONFIG", "1")]), "foo-bar"));
}
