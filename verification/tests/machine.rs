use jailpull::{
    manifest_step, parse_image, start_pull, Action, ApiClient, Event, Phase, RunError,
};

const CHALLENGE: &str = "Bearer realm=\"https://auth.example/token\",service=\"registry.example\",scope=\"repository:library/alpine:pull\"";

fn response(status: u16, auth_header: Option<&str>, body: Option<&str>) -> Event {
    Event::Response {
        status,
        auth_header: auth_header.map(|h| h.to_string()),
        body: body.map(|b| b.to_string()),
    }
}

#[test]
fn initial_request_carries_url_and_accept() {
    let img = parse_image("alpine:latest").unwrap();
    let client = ApiClient::new();
    let (_, action) = start_pull(&client, img);
    match action {
        Action::FetchManifest { url, accept, bearer } => {
            assert_eq!(
                url.as_str(),
                "https://registry.hub.docker.com/v2/library/alpine/manifests/latest"
            );
            assert_eq!(accept.as_str(), "application/vnd.oci.image.index.v1+json");
            assert!(bearer.is_none());
        },
        _ => panic!("expected a manifest fetch"),
    }
}

#[test]
fn handshake_runs_once_and_replays_once() {
    let img = parse_image("alpine:latest").unwrap();
    let mut client = ApiClient::new();
    let (phase, _) = start_pull(&client, img);

    // 401 with a well-formed challenge: exactly one token fetch follows.
    let (phase, action) = manifest_step(
        &mut client,
        phase,
        response(401, Some(CHALLENGE), Some("")),
    );
    match action {
        Action::FetchToken { url } => assert_eq!(
            url.as_str(),
            "https://auth.example/token?service=registry.example&scope=repository:library/alpine:pull"
        ),
        _ => panic!("expected a token fetch"),
    }
    assert!(client.token.is_none());

    // The token response authenticates the session and replays the
    // manifest request exactly once, now with the bearer token.
    let (phase, action) = manifest_step(
        &mut client,
        phase,
        response(200, None, Some("{\"token\":\"tok123\"}")),
    );
    match action {
        Action::FetchManifest { url, bearer, .. } => {
            assert_eq!(
                url.as_str(),
                "https://registry.hub.docker.com/v2/library/alpine/manifests/latest"
            );
            assert_eq!(bearer.unwrap().as_str(), "tok123");
        },
        _ => panic!("expected the replayed manifest fetch"),
    }
    assert_eq!(client.token.as_ref().unwrap().as_str(), "tok123");

    // The replayed 200 delivers the decoded manifest.
    let (_, action) = manifest_step(
        &mut client,
        phase,
        response(
            200,
            None,
            Some("{\"fsLayers\":[{\"blobSum\":\"sha256:aaa\"},{\"blobSum\":\"sha256:bbb\"}]}"),
        ),
    );
    match action {
        Action::Deliver { manifest } => {
            assert_eq!(manifest.layers.len(), 2);
            assert_eq!(manifest.layers[0].as_str(), "sha256:aaa");
            assert_eq!(manifest.layers[1].as_str(), "sha256:bbb");
        },
        _ => panic!("expected the manifest"),
    }
}

#[test]
fn second_401_is_fatal_with_no_retry() {
    let img = parse_image("alpine:latest").unwrap();
    let mut client = ApiClient::new();
    let (phase, _) = start_pull(&client, img);
    let (phase, _) = manifest_step(
        &mut client,
        phase,
        response(401, Some(CHALLENGE), Some("")),
    );
    let (phase, _) = manifest_step(
        &mut client,
        phase,
        response(200, None, Some("{\"token\":\"tok123\"}")),
    );
    // A 401 on the replay: fatal protocol error, and the machine is done.
    let (phase, action) = manifest_step(
        &mut client,
        phase,
        response(401, Some(CHALLENGE), Some("")),
    );
    match action {
        Action::Fail { error } => assert_eq!(error, RunError::Protocol),
        _ => panic!("expected a fatal protocol error"),
    }
    assert!(matches!(phase, Phase::Finished));
}

#[test]
fn malformed_challenge_is_fatal_not_ignored() {
    let img = parse_image("alpine:latest").unwrap();
    let mut client = ApiClient::new();
    let (phase, _) = start_pull(&client, img);
    let (phase, action) = manifest_step(
        &mut client,
        phase,
        response(401, Some("Bearer realm=https://auth.example"), Some("")),
    );
    match action {
        Action::Fail { error } => assert_eq!(error, RunError::Protocol),
        _ => panic!("expected a fatal protocol error"),
    }
    assert!(matches!(phase, Phase::Finished));
}

#[test]
fn missing_challenge_header_is_fatal() {
    let img = parse_image("alpine:latest").unwrap();
    let mut client = ApiClient::new();
    let (phase, _) = start_pull(&client, img);
    let (_, action) = manifest_step(&mut client, phase, response(401, None, Some("")));
    match action {
        Action::Fail { error } => assert_eq!(error, RunError::Protocol),
        _ => panic!("expected a fatal protocol error"),
    }
}

#[test]
fn unexpected_status_is_fatal() {
    let img = parse_image("alpine:latest").unwrap();
    let mut client = ApiClient::new();
    let (phase, _) = start_pull(&client, img);
    let (_, action) = manifest_step(&mut client, phase, response(500, None, Some("")));
    match action {
        Action::Fail { error } => assert_eq!(error, RunError::Protocol),
        _ => panic!("expected a fatal protocol error"),
    }
}

#[test]
fn transport_failure_is_a_network_error() {
    let img = parse_image("alpine:latest").unwrap();
    let mut client = ApiClient::new();
    let (phase, _) = start_pull(&client, img);
    let (_, action) = manifest_step(&mut client, phase, Event::Transport);
    match action {
        Action::Fail { error } => assert_eq!(error, RunError::Network),
        _ => panic!("expected a network error"),
    }
}

#[test]
fn undecodable_manifest_body_is_fatal() {
    let img = parse_image("alpine:latest").unwrap();
    let mut client = ApiClient::new();
    let (phase, _) = start_pull(&client, img);
    let (_, action) = manifest_step(&mut client, phase, response(200, None, Some("not json")));
    match action {
        Action::Fail { error } => assert_eq!(error, RunError::Protocol),
        _ => panic!("expected a protocol error"),
    }
}

#[test]
fn blob_request_needs_a_token() {
    let img = parse_image("alpine:latest").unwrap();
    let client = ApiClient::new();
    let digest = "sha256:aaa".to_string();
    assert_eq!(
        jailpull::blob_request(&client, &img, &digest),
        Err(RunError::Protocol)
    );

    let authed = ApiClient { token: Some("tok123".to_string()) };
    let (url, tok) = jailpull::blob_request(&authed, &img, &digest).unwrap();
    assert_eq!(
        url.as_str(),
        "https://registry.hub.docker.com/v2/library/alpine/blobs/sha256:aaa"
    );
    assert_eq!(tok.as_str(), "tok123");
}
