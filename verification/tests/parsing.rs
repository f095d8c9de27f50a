use jailpull::{parse_challenge, parse_image};

#[test]
fn image_without_colon_gets_latest_tag() {
    let img = parse_image("alpine").unwrap();
    assert_eq!(img.name.as_str(), "alpine");
    assert_eq!(img.tag.as_str(), "latest");
}

#[test]
fn image_with_colon_splits_at_it() {
    let img = parse_image("alpine:3.18").unwrap();
    assert_eq!(img.name.as_str(), "alpine");
    assert_eq!(img.tag.as_str(), "3.18");
}

#[test]
fn image_splits_only_at_first_colon() {
    let img = parse_image("alpine:3.18:extra").unwrap();
    assert_eq!(img.name.as_str(), "alpine");
    assert_eq!(img.tag.as_str(), "3.18:extra");
}

#[test]
fn image_with_empty_name_is_rejected() {
    assert!(parse_image(":3.18").is_none());
    assert!(parse_image("").is_none());
}

#[test]
fn image_with_empty_tag_keeps_it_empty() {
    let img = parse_image("alpine:").unwrap();
    assert_eq!(img.name.as_str(), "alpine");
    assert_eq!(img.tag.as_str(), "");
}

#[test]
fn well_formed_challenge_parses() {
    let c = parse_challenge(
        "Bearer realm=\"https://auth.example/token\",service=\"registry.example\",scope=\"repository:library/alpine:pull\"",
    )
    .unwrap();
    assert_eq!(c.realm.as_str(), "https://auth.example/token");
    assert_eq!(c.service.as_str(), "registry.example");
    assert_eq!(c.scope.as_str(), "repository:library/alpine:pull");
}

#[test]
fn challenge_with_empty_fields_parses() {
    let c = parse_challenge("Bearer realm=\"\",service=\"\",scope=\"\"").unwrap();
    assert_eq!(c.realm.as_str(), "");
    assert_eq!(c.service.as_str(), "");
    assert_eq!(c.scope.as_str(), "");
}

#[test]
fn challenge_with_wrong_scheme_fails() {
    assert!(parse_challenge("Basic realm=\"x\"").is_none());
}

#[test]
fn challenge_missing_scope_fails() {
    assert!(parse_challenge("Bearer realm=\"r\",service=\"s\"").is_none());
}

#[test]
fn challenge_with_trailing_text_fails() {
    assert!(parse_challenge("Bearer realm=\"r\",service=\"s\",scope=\"c\" extra").is_none());
}

#[test]
fn challenge_with_reordered_fields_fails() {
    assert!(parse_challenge("Bearer service=\"s\",realm=\"r\",scope=\"c\"").is_none());
}

#[test]
fn empty_challenge_fails() {
    assert!(parse_challenge("").is_none());
}
