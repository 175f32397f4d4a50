use zed_dl::matcher::{find, AttachmentRef};
use zed_dl::pipeline::{locate, LocateError};
use zed_dl::text::eq_ignore_ascii_case;

fn att(name: &str) -> AttachmentRef {
    AttachmentRef { name: name.to_string(), location: format!("https://example.com/{name}") }
}

#[test]
fn match_is_case_insensitive() {
    let atts = vec![att("Foo.ZIP")];
    let a = find(&atts, "foo.zip", "v1").unwrap();
    assert_eq!(a.name, "Foo.ZIP");
}

#[test]
fn match_is_exact_on_extension() {
    let atts = vec![att("foo.zip"), att("foo.exe")];
    let a = find(&atts, "foo.exe", "v1").unwrap();
    assert_eq!(a.name, "foo.exe");
    assert_eq!(a.location, "https://example.com/foo.exe");
}

#[test]
fn first_match_wins() {
    let atts = vec![att("other"), att("ZED.exe"), att("zed.exe")];
    let a = find(&atts, "zed.exe", "v1").unwrap();
    assert_eq!(a.name, "ZED.exe");
}

#[test]
fn no_match_names_tag_and_file() {
    let atts = vec![att("zed.zip"), att("zed-opengl.exe")];
    let e = find(&atts, "zed.exe", "v0.150.0").unwrap_err();
    assert_eq!(e.tag, "v0.150.0");
    assert_eq!(e.wanted, "zed.exe");
    assert_eq!(e.message(), "No asset found on latest release v0.150.0");
    assert!(find(&Vec::new(), "zed.exe", "t").is_err());
}

#[test]
fn non_ascii_is_not_folded() {
    assert!(eq_ignore_ascii_case("straße", "STRAßE"));
    assert!(!eq_ignore_ascii_case("é", "É"));
    assert!(!eq_ignore_ascii_case("a", "ab"));
    assert!(!eq_ignore_ascii_case("@", "`"));
    assert!(eq_ignore_ascii_case("", ""));
}

#[test]
fn locate_resolves_then_matches() {
    let atts = vec![att("zed.zip"), att("zed.exe")];
    assert_eq!(locate("Vulkan", "v1", &atts).unwrap().name, "zed.exe");
    assert_eq!(locate("zipvulkan", "v1", &atts).unwrap().name, "zed.zip");
    match locate("OpenGl", "v1", &atts) {
        Err(LocateError::NoMatch(e)) => assert_eq!(e.wanted, "zed-opengl.exe"),
        other => panic!("unexpected {other:?}"),
    }
    match locate("Metal", "v1", &atts) {
        Err(LocateError::UnknownAsset(e)) => assert_eq!(e.name, "Metal"),
        other => panic!("unexpected {other:?}"),
    }
}
