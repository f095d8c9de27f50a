use jailpull::{decode_manifest, decode_token};

#[test]
fn manifest_layers_come_in_order() {
    let body = "{\"fsLayers\":[{\"blobSum\":\"sha256:aaa\"},{\"blobSum\":\"sha256:bbb\"}]}";
    let layers = decode_manifest(body).unwrap();
    assert_eq!(layers.len(), 2);
    assert_eq!(layers[0].as_str(), "sha256:aaa");
    assert_eq!(layers[1].as_str(), "sha256:bbb");
}

#[test]
fn manifest_unknown_fields_are_skipped() {
    let body = "{\"schemaVersion\": 1, \"name\": \"library/alpine\", \"fsLayers\": [ {\"blobSum\": \"sha256:aaa\", \"extra\": [1, 2]} ], \"history\": [ {\"v1Compatibility\": \"{\\\"id\\\":\\\"x\\\"}\"} ]}";
    let layers = decode_manifest(body).unwrap();
    assert_eq!(layers.len(), 1);
    assert_eq!(layers[0].as_str(), "sha256:aaa");
}

#[test]
fn manifest_without_layer_field_fails() {
    assert!(decode_manifest("{\"name\":\"alpine\"}").is_none());
    assert!(decode_manifest("{}").is_none());
}

#[test]
fn manifest_with_malformed_layer_fails() {
    assert!(decode_manifest("{\"fsLayers\":[{\"digest\":\"sha256:aaa\"}]}").is_none());
    assert!(decode_manifest("{\"fsLayers\":[\"sha256:aaa\"]}").is_none());
    assert!(decode_manifest("{\"fsLayers\":\"sha256:aaa\"}").is_none());
}

#[test]
fn manifest_that_is_not_json_fails() {
    assert!(decode_manifest("").is_none());
    assert!(decode_manifest("fsLayers").is_none());
    assert!(decode_manifest("{\"fsLayers\":[{\"blobSum\":\"sha256:aaa\"}]").is_none());
}

#[test]
fn manifest_with_trailing_text_fails() {
    assert!(decode_manifest("{\"fsLayers\":[{\"blobSum\":\"a\"}]} junk").is_none());
}

#[test]
fn manifest_with_duplicate_layer_field_fails() {
    let body = "{\"fsLayers\":[{\"blobSum\":\"a\"}],\"fsLayers\":[{\"blobSum\":\"b\"}]}";
    assert!(decode_manifest(body).is_none());
}

#[test]
fn manifest_with_empty_layer_list_is_empty() {
    let layers = decode_manifest("{\"fsLayers\":[]}").unwrap();
    assert_eq!(layers.len(), 0);
}

#[test]
fn token_body_decodes() {
    let tok = decode_token("{\"token\": \"abc123\"}").unwrap();
    assert_eq!(tok.as_str(), "abc123");
}

#[test]
fn token_body_with_extra_fields_decodes() {
    let tok = decode_token(
        "{\"access_token\": \"zzz\", \"token\": \"abc123\", \"expires_in\": 300}",
    )
    .unwrap();
    assert_eq!(tok.as_str(), "abc123");
}

#[test]
fn token_body_without_token_fails() {
    assert!(decode_token("{\"access_token\":\"zzz\"}").is_none());
    assert!(decode_token("{}").is_none());
    assert!(decode_token("no json").is_none());
}
