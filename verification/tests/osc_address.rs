use tpt_av_control::address::OscAddressMatcher;

fn m(pattern: &str) -> OscAddressMatcher {
    OscAddressMatcher::new(pattern)
}

#[test]
fn literal_addresses() {
    assert!(m("/foo").matches("/foo"));
    assert!(!m("/foo").matches("/bar"));
    assert!(!m("/foo").matches("/foo/bar"));
}

#[test]
fn question_mark() {
    assert!(m("/f?o").matches("/foo"));
    assert!(m("/f?o").matches("/f!o"));
    assert!(!m("/f?o").matches("/fo"));
    assert!(!m("/f?o").matches("/fooo"));
    assert!(!m("/?/bar").matches("/a/b/bar"));
}

#[test]
fn star_wildcard() {
    assert!(m("/*").matches("/foo"));
    assert!(m("/*").matches("/"));
    assert!(!m("/*").matches("/foo/bar"), "* does not cross '/'");
    assert!(m("/*/*").matches("/foo/bar"));
    assert!(m("/foo*bar").matches("/fooXbar"));
    assert!(m("/foo*bar").matches("/foobar"));
    assert!(m("/foo*").matches("/foo"));
}

#[test]
fn double_star_parts() {
    assert!(m("/foo//bar").matches("/foo/bar"));
    assert!(m("/foo//bar").matches("/foo/a/b/bar"));
    assert!(m("//bar").matches("/a/b/bar"));
    assert!(m("/foo//").matches("/foo"));
    assert!(m("/foo//").matches("/foo/a/b"));
}

#[test]
fn char_classes() {
    assert!(m("/[fgh]oo").matches("/foo"));
    assert!(!m("/[fgh]oo").matches("/boo"));
    assert!(m("/[a-z]oo").matches("/koo"));
    assert!(!m("/[a-z]oo").matches("/Koo"));
    assert!(m("/[!a-z]oo").matches("/Koo"));
    assert!(!m("/[!a-z]oo").matches("/koo"));
    assert!(m("/[a-cx-z]oo").matches("/xoo"));
    assert!(!m("/[a-cx-z]oo").matches("/doo"));
}

#[test]
fn alternations() {
    assert!(m("/{foo,bar}").matches("/foo"));
    assert!(m("/{foo,bar}").matches("/bar"));
    assert!(!m("/{foo,bar}").matches("/baz"));
    assert!(m("/track/{1,2}/volume").matches("/track/2/volume"));
    assert!(!m("/track/{1,2}/volume").matches("/track/3/volume"));
}

#[test]
fn combined_patterns() {
    assert!(m("/*/[a-z]??").matches("/x/f00"));
    assert!(m("/{foo,bar}/[0-9]/*").matches("/foo/7/anything"));
    assert!(!m("/{foo,bar}/[0-9]/*").matches("/foo/7/anything/here"));
    assert!(!m("/{foo,bar}/[0-9]/*").matches("/baz/7/x"));
}

#[test]
fn pattern_matching_table() {
    let cases: &[(&str, &str, bool)] = &[
        ("/f[!bc]nd/sc/s*d", "/frnd/sc/snd", true),
        ("/f[!bc]nd/sc/s*d", "/fcnd/sc/snd", false),
        ("/f[!bc]nd/sc/s*d", "/frnd/sc/sxx", false),
        ("/??nd/sc/snd", "/frnd/sc/snd", true),
        ("/?nd/sc/snd", "/frnd/sc/snd", false),
        ("/?nd/sc/snd", "/frnd/sc/snx", false),
    ];
    for (pattern, address, expected) in cases {
        assert_eq!(m(pattern).matches(address), *expected, "{pattern} vs {address}");
    }
}

#[test]
fn address_pattern_conformance() {
    let cases: &[(&str, &str, bool)] = &[
        ("/f?o/bar", "/foo/bar", true),
        ("/f?o/bar", "/fo/bar", false),
        ("/f?o/bar", "/fwoo/bar", false),
        ("/f*o/bar", "/foo/bar", true),
        ("/f*o/bar", "/foooooo/bar", true),
        ("/f*o/bar", "/f/bar", false),
        ("/*", "/anything", true),
        ("/*", "/any/thing", false),
        ("/foo/[0-9]bar", "/foo/1bar", true),
        ("/foo/[0-9]bar", "/foo/xbar", false),
        ("/foo/[!0-9]bar", "/foo/xbar", true),
        ("/foo/[!0-9]bar", "/foo/5bar", false),
        ("/foo/{bar,baz}", "/foo/baz", true),
        ("/foo/{bar,baz}", "/foo/quux", false),
        ("/f[a-cx]o", "/fxo", true),
        ("/f[a-cx]o", "/fdo", false),
        ("/", "/", true),
    ];
    for (pattern, address, expected) in cases {
        assert_eq!(
            OscAddressMatcher::new(pattern).matches(address),
            *expected,
            "pattern {pattern} vs address {address}"
        );
    }
}

#[test]
fn matcher_keeps_its_pattern() {
    assert_eq!(m("/a/{b,c}").pattern(), "/a/{b,c}");
}

#[test]
fn unclosed_brackets_do_not_match() {
    assert!(!m("/[abc").matches("/a"));
    assert!(!m("/{a,b").matches("/a"));
}

#[test]
fn track_volume_example() {
    let m = OscAddressMatcher::new("/track/*/volume");
    assert!(m.matches("/track/1/volume"));
    assert!(!m.matches("/track/1/pan"));
}

#[test]
fn overlong_patterns_never_match() {
    let long = format!("/{}", "a".repeat(1100));
    assert!(!OscAddressMatcher::new(&long).matches(&long));
}
