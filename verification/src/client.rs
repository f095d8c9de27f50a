//! The registry client: session state, request building, and the manifest
//! fetch state machine with its lazy, single-shot bearer handshake. The
//! machine turns each HTTP response into the next request to send, the
//! decoded manifest, or a fatal error; a driver outside the library
//! performs the requests and feeds the responses back.

use vstd::prelude::*;
use vstd::string::*;

use crate::challenge::{parse_challenge, spec_parse_challenge};
use crate::image::Image;
use crate::json::{
    decode_manifest, decode_token, spec_decode_manifest, spec_decode_token, strings_model,
};
use crate::RunError;

verus! {

/// A decoded manifest: the layer digests in registry order.
pub struct Manifest {
    pub layers: Vec<String>,
}

impl Manifest {
    pub open spec fn model(self) -> Seq<Seq<char>> {
        strings_model(self.layers@)
    }
}

/// The registry session. The token starts absent and is set exactly once,
/// by the authentication handshake.
pub struct ApiClient {
    pub token: Option<String>,
}

pub open spec fn spec_token_model(t: Option<String>) -> Option<Seq<char>> {
    match t {
        Some(s) => Some(s@),
        None => None,
    }
}

impl ApiClient {
    pub open spec fn model(self) -> Option<Seq<char>> {
        spec_token_model(self.token)
    }

    /// A fresh, unauthenticated session.
    pub fn new() -> (c: ApiClient)
        ensures
            c.model() is None,
    {
        ApiClient { token: None }
    }
}

/// Where the manifest fetch stands: awaiting the first response, the token
/// response, the replayed response, or done.
pub enum Phase {
    AwaitFirst { image: Image },
    AwaitToken { image: Image },
    AwaitRetry { image: Image },
    Finished,
}

pub enum PhaseModel {
    AwaitFirst { name: Seq<char>, tag: Seq<char> },
    AwaitToken { name: Seq<char>, tag: Seq<char> },
    AwaitRetry { name: Seq<char>, tag: Seq<char> },
    Finished,
}

impl Phase {
    pub open spec fn model(self) -> PhaseModel {
        match self {
            Phase::AwaitFirst { image } => PhaseModel::AwaitFirst {
                name: image.name@,
                tag: image.tag@,
            },
            Phase::AwaitToken { image } => PhaseModel::AwaitToken {
                name: image.name@,
                tag: image.tag@,
            },
            Phase::AwaitRetry { image } => PhaseModel::AwaitRetry {
                name: image.name@,
                tag: image.tag@,
            },
            Phase::Finished => PhaseModel::Finished,
        }
    }
}

/// One observed outcome of a request: a response, or a transport failure.
/// `body` is `None` when the response body was not text.
pub enum Event {
    Response { status: u16, auth_header: Option<String>, body: Option<String> },
    Transport,
}

pub enum EventModel {
    Response { status: u16, auth_header: Option<Seq<char>>, body: Option<Seq<char>> },
    Transport,
}

impl Event {
    pub open spec fn model(self) -> EventModel {
        match self {
            Event::Response { status, auth_header, body } => EventModel::Response {
                status,
                auth_header: spec_token_model(auth_header),
                body: spec_token_model(body),
            },
            Event::Transport => EventModel::Transport,
        }
    }
}

/// What the machine asks the driver to do next.
pub enum Action {
    FetchManifest { url: String, accept: String, bearer: Option<String> },
    FetchToken { url: String },
    Deliver { manifest: Manifest },
    Fail { error: RunError },
}

pub enum ActionModel {
    FetchManifest { url: Seq<char>, accept: Seq<char>, bearer: Option<Seq<char>> },
    FetchToken { url: Seq<char> },
    Deliver { layers: Seq<Seq<char>> },
    Fail { error: RunError },
}

impl Action {
    pub open spec fn model(self) -> ActionModel {
        match self {
            Action::FetchManifest { url, accept, bearer } => ActionModel::FetchManifest {
                url: url@,
                accept: accept@,
                bearer: spec_token_model(bearer),
            },
            Action::FetchToken { url } => ActionModel::FetchToken { url: url@ },
            Action::Deliver { manifest } => ActionModel::Deliver { layers: manifest.model() },
            Action::Fail { error } => ActionModel::Fail { error },
        }
    }
}

pub open spec fn spec_manifest_url(name: Seq<char>, tag: Seq<char>) -> Seq<char> {
    "https://registry.hub.docker.com/v2/library/"@ + name + "/manifests/"@ + tag
}

pub open spec fn spec_blob_url(name: Seq<char>, digest: Seq<char>) -> Seq<char> {
    "https://registry.hub.docker.com/v2/library/"@ + name + "/blobs/"@ + digest
}

pub open spec fn spec_token_url(realm: Seq<char>, service: Seq<char>, scope: Seq<char>) -> Seq<
    char,
> {
    realm + "?service="@ + service + "&scope="@ + scope
}

pub open spec fn spec_accept() -> Seq<char> {
    "application/vnd.oci.image.index.v1+json"@
}

/// The manifest URL for an image.
pub fn manifest_url(image: &Image) -> (u: String)
    ensures
        u@ == spec_manifest_url(image.name@, image.tag@),
{
    let mut u = String::from_str("https://registry.hub.docker.com/v2/library/");
    u.append(image.name.as_str());
    u.append("/manifests/");
    u.append(image.tag.as_str());
    proof {
        assert(u@ =~= spec_manifest_url(image.name@, image.tag@));
    }
    u
}

/// The blob URL for one layer digest of an image.
pub fn blob_url(image: &Image, digest: &String) -> (u: String)
    ensures
        u@ == spec_blob_url(image.name@, digest@),
{
    let mut u = String::from_str("https://registry.hub.docker.com/v2/library/");
    u.append(image.name.as_str());
    u.append("/blobs/");
    u.append(digest.as_str());
    proof {
        assert(u@ =~= spec_blob_url(image.name@, digest@));
    }
    u
}

/// The token endpoint URL formed from a parsed challenge.
pub fn token_url(realm: &String, service: &String, scope: &String) -> (u: String)
    ensures
        u@ == spec_token_url(realm@, service@, scope@),
{
    let mut u = realm.clone();
    u.append("?service=");
    u.append(service.as_str());
    u.append("&scope=");
    u.append(scope.as_str());
    proof {
        assert(u@ =~= spec_token_url(realm@, service@, scope@));
    }
    u
}

pub open spec fn spec_fail(token: Option<Seq<char>>, error: RunError) -> (
    Option<Seq<char>>,
    PhaseModel,
    ActionModel,
) {
    (token, PhaseModel::Finished, ActionModel::Fail { error })
}

/// A 200 body either decodes to the manifest or is a protocol error.
pub open spec fn spec_deliver_or_fail(body: Option<Seq<char>>) -> ActionModel {
    match body {
        Some(b) => match spec_decode_manifest(b) {
            Some(ls) => ActionModel::Deliver { layers: ls },
            None => ActionModel::Fail { error: RunError::Protocol },
        },
        None => ActionModel::Fail { error: RunError::Protocol },
    }
}

/// The transition function of the manifest fetch. A 401 on the first
/// attempt with a well-formed challenge starts the handshake; the token
/// response authenticates the session and triggers the single replay; a
/// 401 on the replay, a malformed challenge, any other unexpected status
/// and any undecodable body are fatal protocol errors; a transport failure
/// is a fatal network error.
pub open spec fn spec_step(
    token: Option<Seq<char>>,
    phase: PhaseModel,
    ev: EventModel,
) -> (Option<Seq<char>>, PhaseModel, ActionModel) {
    match ev {
        EventModel::Transport => spec_fail(token, RunError::Network),
        EventModel::Response { status, auth_header, body } => match phase {
            PhaseModel::AwaitFirst { name, tag } => {
                if status == 200 {
                    (token, PhaseModel::Finished, spec_deliver_or_fail(body))
                } else if status == 401 {
                    match auth_header {
                        Some(h) => match spec_parse_challenge(h) {
                            Some((realm, service, scope)) => (
                                token,
                                PhaseModel::AwaitToken { name, tag },
                                ActionModel::FetchToken {
                                    url: spec_token_url(realm, service, scope),
                                },
                            ),
                            None => spec_fail(token, RunError::Protocol),
                        },
                        None => spec_fail(token, RunError::Protocol),
                    }
                } else {
                    spec_fail(token, RunError::Protocol)
                }
            },
            PhaseModel::AwaitToken { name, tag } => match body {
                Some(b) => match spec_decode_token(b) {
                    Some(t) => (
                        Some(t),
                        PhaseModel::AwaitRetry { name, tag },
                        ActionModel::FetchManifest {
                            url: spec_manifest_url(name, tag),
                            accept: spec_accept(),
                            bearer: Some(t),
                        },
                    ),
                    None => spec_fail(token, RunError::Protocol),
                },
                None => spec_fail(token, RunError::Protocol),
            },
            PhaseModel::AwaitRetry { name, tag } => {
                if status == 200 {
                    (token, PhaseModel::Finished, spec_deliver_or_fail(body))
                } else {
                    spec_fail(token, RunError::Protocol)
                }
            },
            PhaseModel::Finished => spec_fail(token, RunError::Protocol),
        },
    }
}

/// Begins a manifest fetch: the first request, with the session token
/// attached when one is already held.
pub fn start_pull(client: &ApiClient, image: Image) -> (r: (Phase, Action))
    ensures
        r.0.model() == (PhaseModel::AwaitFirst { name: image.name@, tag: image.tag@ }),
        r.1.model() == (ActionModel::FetchManifest {
            url: spec_manifest_url(image.name@, image.tag@),
            accept: spec_accept(),
            bearer: client.model(),
        }),
{
    let url = manifest_url(&image);
    let accept = String::from_str("application/vnd.oci.image.index.v1+json");
    let bearer = match &client.token {
        Some(t) => Some(t.clone()),
        None => None,
    };
    (Phase::AwaitFirst { image }, Action::FetchManifest { url, accept, bearer })
}

/// Feeds one response into the manifest fetch machine: exactly the
/// transition that `spec_step` prescribes.
pub fn manifest_step(client: &mut ApiClient, phase: Phase, ev: Event) -> (r: (Phase, Action))
    ensures
        ({
            let (t2, p2, a2) = spec_step(old(client).model(), phase.model(), ev.model());
            final(client).model() == t2 && r.0.model() == p2 && r.1.model() == a2
        }),
{
    match ev {
        Event::Transport => (Phase::Finished, Action::Fail { error: RunError::Network }),
        Event::Response { status, auth_header, body } => match phase {
            Phase::AwaitFirst { image } => {
                if status == 200 {
                    (Phase::Finished, deliver_or_fail(body))
                } else if status == 401 {
                    match auth_header {
                        Some(h) => match parse_challenge(h.as_str()) {
                            Some(c) => {
                                let url = token_url(&c.realm, &c.service, &c.scope);
                                (Phase::AwaitToken { image }, Action::FetchToken { url })
                            },
                            None => (Phase::Finished, Action::Fail { error: RunError::Protocol }),
                        },
                        None => (Phase::Finished, Action::Fail { error: RunError::Protocol }),
                    }
                } else {
                    (Phase::Finished, Action::Fail { error: RunError::Protocol })
                }
            },
            Phase::AwaitToken { image } => match body {
                Some(b) => match decode_token(b.as_str()) {
                    Some(t) => {
                        let url = manifest_url(&image);
                        let accept = String::from_str("application/vnd.oci.image.index.v1+json");
                        client.token = Some(t.clone());
                        (
                            Phase::AwaitRetry { image },
                            Action::FetchManifest { url, accept, bearer: Some(t) },
                        )
                    },
                    None => (Phase::Finished, Action::Fail { error: RunError::Protocol }),
                },
                None => (Phase::Finished, Action::Fail { error: RunError::Protocol }),
            },
            Phase::AwaitRetry { image: _ } => {
                if status == 200 {
                    (Phase::Finished, deliver_or_fail(body))
                } else {
                    (Phase::Finished, Action::Fail { error: RunError::Protocol })
                }
            },
            Phase::Finished => (Phase::Finished, Action::Fail { error: RunError::Protocol }),
        },
    }
}

fn deliver_or_fail(body: Option<String>) -> (a: Action)
    ensures
        a.model() == spec_deliver_or_fail(spec_token_model(body)),
{
    match body {
        Some(b) => match decode_manifest(b.as_str()) {
            Some(layers) => Action::Deliver { manifest: Manifest { layers } },
            None => Action::Fail { error: RunError::Protocol },
        },
        None => Action::Fail { error: RunError::Protocol },
    }
}

/// The request for one layer blob. The session must already hold a token
/// from the manifest handshake; without one the fetch is refused, a
/// documented limitation of this scope.
pub fn blob_request(client: &ApiClient, image: &Image, digest: &String) -> (r: Result<
    (String, String),
    RunError,
>)
    ensures
        match r {
            Ok((url, tok)) => client.model() == Some(tok@) && url@ == spec_blob_url(
                image.name@,
                digest@,
            ),
            Err(e) => client.model() is None && e == RunError::Protocol,
        },
{
    match &client.token {
        Some(t) => Ok((blob_url(image, digest), t.clone())),
        None => Err(RunError::Protocol),
    }
}

/// How many token fetches the machine requests along a run.
pub open spec fn spec_run_token_fetches(
    token: Option<Seq<char>>,
    phase: PhaseModel,
    evs: Seq<EventModel>,
) -> nat
    decreases evs.len(),
{
    if evs.len() == 0 {
        0
    } else {
        let (t2, p2, a) = spec_step(token, phase, evs[0]);
        (if a is FetchToken {
            1nat
        } else {
            0nat
        }) + spec_run_token_fetches(t2, p2, evs.drop_first())
    }
}

/// How many manifest fetches the machine requests along a run (the
/// initial request is issued before the run and not counted here).
pub open spec fn spec_run_manifest_fetches(
    token: Option<Seq<char>>,
    phase: PhaseModel,
    evs: Seq<EventModel>,
) -> nat
    decreases evs.len(),
{
    if evs.len() == 0 {
        0
    } else {
        let (t2, p2, a) = spec_step(token, phase, evs[0]);
        (if a is FetchManifest {
            1nat
        } else {
            0nat
        }) + spec_run_manifest_fetches(t2, p2, evs.drop_first())
    }
}

pub open spec fn token_fetch_bound(phase: PhaseModel) -> nat {
    match phase {
        PhaseModel::AwaitFirst { .. } => 1,
        _ => 0,
    }
}

pub open spec fn manifest_fetch_bound(phase: PhaseModel) -> nat {
    match phase {
        PhaseModel::AwaitFirst { .. } => 1,
        PhaseModel::AwaitToken { .. } => 1,
        _ => 0,
    }
}

pub proof fn lemma_fetch_bounds(
    token: Option<Seq<char>>,
    phase: PhaseModel,
    evs: Seq<EventModel>,
)
    ensures
        spec_run_token_fetches(token, phase, evs) <= token_fetch_bound(phase),
        spec_run_manifest_fetches(token, phase, evs) <= manifest_fetch_bound(phase),
    decreases evs.len(),
{
    if evs.len() > 0 {
        let (t2, p2, a) = spec_step(token, phase, evs[0]);
        lemma_fetch_bounds(t2, p2, evs.drop_first());
    }
}

/// The handshake happens at most once: however the registry answers, a
/// fetch that begins unauthenticated requests the token endpoint at most
/// once and replays the manifest request at most once.
pub proof fn lemma_single_handshake(
    token: Option<Seq<char>>,
    name: Seq<char>,
    tag: Seq<char>,
    evs: Seq<EventModel>,
)
    ensures
        spec_run_token_fetches(token, PhaseModel::AwaitFirst { name, tag }, evs) <= 1,
        spec_run_manifest_fetches(token, PhaseModel::AwaitFirst { name, tag }, evs) <= 1,
{
    lemma_fetch_bounds(token, PhaseModel::AwaitFirst { name, tag }, evs);
}

/// A 401 on the replayed request is a fatal protocol error, after which
/// the machine never requests anything again.
pub proof fn lemma_replay_401_fatal(
    token: Option<Seq<char>>,
    name: Seq<char>,
    tag: Seq<char>,
    auth_header: Option<Seq<char>>,
    body: Option<Seq<char>>,
    evs: Seq<EventModel>,
)
    ensures
        ({
            let (t2, p2, a) = spec_step(
                token,
                PhaseModel::AwaitRetry { name, tag },
                EventModel::Response { status: 401, auth_header, body },
            );
            p2 == PhaseModel::Finished && a == (ActionModel::Fail { error: RunError::Protocol })
                && spec_run_token_fetches(t2, p2, evs) == 0 && spec_run_manifest_fetches(
                t2,
                p2,
                evs,
            ) == 0
        }),
{
    let (t2, p2, a) = spec_step(
        token,
        PhaseModel::AwaitRetry { name, tag },
        EventModel::Response { status: 401, auth_header, body },
    );
    lemma_fetch_bounds(t2, p2, evs);
}

/// A first 401 bearing a well-formed challenge does trigger the
/// handshake: the token endpoint named by the challenge is fetched, and
/// the session token is untouched until the token response arrives.
pub proof fn lemma_challenge_starts_handshake(
    token: Option<Seq<char>>,
    name: Seq<char>,
    tag: Seq<char>,
    h: Seq<char>,
    body: Option<Seq<char>>,
)
    requires
        spec_parse_challenge(h) is Some,
    ensures
        ({
            let (realm, service, scope) = spec_parse_challenge(h)->Some_0;
            spec_step(
                token,
                PhaseModel::AwaitFirst { name, tag },
                EventModel::Response { status: 401, auth_header: Some(h), body },
            ) == (
                token,
                PhaseModel::AwaitToken { name, tag },
                ActionModel::FetchToken { url: spec_token_url(realm, service, scope) },
            )
        }),
{
}

/// A decodable token response authenticates the session and triggers the
/// single replay of the manifest request, with the fresh token attached.
pub proof fn lemma_token_triggers_replay(
    token: Option<Seq<char>>,
    name: Seq<char>,
    tag: Seq<char>,
    status: u16,
    auth_header: Option<Seq<char>>,
    b: Seq<char>,
)
    requires
        spec_decode_token(b) is Some,
    ensures
        ({
            let t = spec_decode_token(b)->Some_0;
            spec_step(
                token,
                PhaseModel::AwaitToken { name, tag },
                EventModel::Response { status, auth_header, body: Some(b) },
            ) == (
                Some(t),
                PhaseModel::AwaitRetry { name, tag },
                ActionModel::FetchManifest {
                    url: spec_manifest_url(name, tag),
                    accept: spec_accept(),
                    bearer: Some(t),
                },
            )
        }),
{
}

/// A malformed challenge on a first 401 is a fatal protocol error: it is
/// never treated as the absence of a challenge, and no token is fetched.
pub proof fn lemma_bad_challenge_fatal(
    token: Option<Seq<char>>,
    name: Seq<char>,
    tag: Seq<char>,
    h: Seq<char>,
    body: Option<Seq<char>>,
)
    requires
        spec_parse_challenge(h) is None,
    ensures
        spec_step(
            token,
            PhaseModel::AwaitFirst { name, tag },
            EventModel::Response { status: 401, auth_header: Some(h), body },
        ) == spec_fail(token, RunError::Protocol),
{
}

} // verus!
