use pkg_config::{parse_flags, scan_frameworks, split_words};

fn pairs(v: &[(&str, &str)]) -> Vec<(String, String)> {
    v.iter().map(|(a, b)| (a.to_string(), b.to_string())).collect()
}

#[test]
fn parse_keeps_order() {
    let out = "-L/usr/lib -lfoo -I/usr/include";
    let r = parse_flags(out);
    assert_eq!(r, pairs(&[("-L", "/usr/lib"), ("-l", "foo"), ("-I", "/usr/include")]));
    assert_eq!(parse_flags(out), r);
}

#[test]
fn parse_drops_short_tokens() {
    assert_eq!(parse_flags("-l -L/x"), pairs(&[("-L", "/x")]));
    assert_eq!(parse_flags(""), pairs(&[]));
    assert_eq!(parse_flags("ab  -lz"), pairs(&[("-l", "z")]));
}

#[test]
fn parse_keeps_unknown_flags() {
    assert_eq!(parse_flags("-pthread -Wl"), pairs(&[("-p", "thread"), ("-W", "l")]));
}

#[test]
fn split_words_like_split_on_space() {
    assert_eq!(split_words(""), vec![String::new()]);
    assert_eq!(split_words("a  b"), vec!["a".to_string(), String::new(), "b".to_string()]);
    assert_eq!(split_words("x \n"), vec!["x".to_string(), "\n".to_string()]);
}

#[test]
fn frameworks_in_order() {
    assert_eq!(
        scan_frameworks("-framework Foo -framework Bar"),
        vec!["Foo".to_string(), "Bar".to_string()]
    );
}

#[test]
fn framework_at_end_names_nothing() {
    assert_eq!(scan_frameworks("-lz -framework"), Vec::<String>::new());
    assert_eq!(
        scan_frameworks("-framework -framework -framework X"),
        vec!["-framework".to_string(), "X".to_string()]
    );
}
