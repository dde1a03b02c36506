use isobox::acquire::{Acquisition, Action, Event, Phase};
use isobox::error::ErrorKind;
use isobox::reference::parse_image;
use isobox::registry::{LayerDescriptor, Request};

const LAYER_TYPE: &str = "application/vnd.docker.image.rootfs.diff.tar.gzip";

fn layer(d: &str) -> LayerDescriptor {
    LayerDescriptor { media_type: LAYER_TYPE.to_string(), digest: d.to_string() }
}

fn fetched(a: Action) -> Request {
    match a {
        Action::Fetch(r) => r,
        _ => panic!("expected a request"),
    }
}

fn started(reference: &str) -> (Acquisition, Request) {
    Acquisition::start(&parse_image(reference).unwrap())
}

#[test]
fn token_request_is_scoped_to_the_repository() {
    let (a, r) = started("alpine:3.18");
    assert_eq!(
        r.url,
        "https://auth.docker.io/token?service=registry.docker.io&scope=repository:library/alpine:pull"
    );
    assert_eq!(r.accept, None);
    assert_eq!(r.bearer, None);
    assert_eq!(a.phase, Phase::AwaitToken);
}

#[test]
fn full_pull_visits_layers_in_order() {
    let (mut a, _) = started("alpine:3.18");
    let m = fetched(a.step(Event::TokenReceived("tok".to_string())));
    assert_eq!(m.url, "https://registry.hub.docker.com/v2/library/alpine/manifests/3.18");
    assert_eq!(
        m.accept.as_deref(),
        Some("application/vnd.docker.distribution.manifest.v2+json")
    );
    assert_eq!(m.bearer.as_deref(), Some("tok"));

    let b0 = fetched(a.step(Event::ManifestReceived(vec![layer("sha256:aa"), layer("sha256:bb")])));
    assert_eq!(b0.url, "https://registry.hub.docker.com/v2/library/alpine/blobs/sha256:aa");
    assert_eq!(b0.accept.as_deref(), Some(LAYER_TYPE));
    assert_eq!(b0.bearer.as_deref(), Some("tok"));
    assert!(matches!(a.step(Event::BlobReceived), Action::Extract(0)));

    let b1 = fetched(a.step(Event::LayerExtracted));
    assert_eq!(b1.url, "https://registry.hub.docker.com/v2/library/alpine/blobs/sha256:bb");
    assert!(matches!(a.step(Event::BlobReceived), Action::Extract(1)));
    assert!(matches!(a.step(Event::LayerExtracted), Action::Finished));
    assert_eq!(a.phase, Phase::Done);
    assert!(a.is_over());
}

#[test]
fn empty_manifest_finishes_at_once() {
    let (mut a, _) = started("scratchy");
    let _ = a.step(Event::TokenReceived("t".to_string()));
    assert!(matches!(a.step(Event::ManifestReceived(Vec::new())), Action::Finished));
    assert_eq!(a.phase, Phase::Done);
}

#[test]
fn bad_manifest_aborts_before_any_blob() {
    let (mut a, _) = started("alpine");
    let _ = a.step(Event::TokenReceived("t".to_string()));
    assert!(matches!(a.step(Event::ManifestFailed), Action::Abort(ErrorKind::Manifest)));
    assert_eq!(a.phase, Phase::Failed(ErrorKind::Manifest));
    assert!(matches!(a.step(Event::BlobReceived), Action::Idle));
    assert!(matches!(a.step(Event::ManifestReceived(vec![layer("sha256:aa")])), Action::Idle));
    assert!(matches!(a.step(Event::LayerExtracted), Action::Idle));
    assert_eq!(a.phase, Phase::Failed(ErrorKind::Manifest));
}

#[test]
fn token_failure_is_an_auth_error() {
    let (mut a, _) = started("alpine");
    assert!(matches!(a.step(Event::TokenFailed), Action::Abort(ErrorKind::Auth)));
    assert!(a.is_over());
}

#[test]
fn blob_failure_stops_the_pull() {
    let (mut a, _) = started("alpine");
    let _ = a.step(Event::TokenReceived("t".to_string()));
    let _ = a.step(Event::ManifestReceived(vec![layer("sha256:aa"), layer("sha256:bb")]));
    assert!(matches!(a.step(Event::BlobFailed), Action::Abort(ErrorKind::BlobFetch)));
    assert!(matches!(a.step(Event::BlobReceived), Action::Idle));
}

#[test]
fn extraction_failure_stops_the_pull() {
    let (mut a, _) = started("alpine");
    let _ = a.step(Event::TokenReceived("t".to_string()));
    let _ = a.step(Event::ManifestReceived(vec![layer("sha256:aa"), layer("sha256:bb")]));
    let _ = a.step(Event::BlobReceived);
    assert!(matches!(a.step(Event::ExtractionFailed), Action::Abort(ErrorKind::Extraction)));
    assert_eq!(a.phase, Phase::Failed(ErrorKind::Extraction));
}

#[test]
fn events_out_of_turn_change_nothing() {
    let (mut a, _) = started("alpine");
    assert!(matches!(a.step(Event::BlobReceived), Action::Idle));
    assert!(matches!(a.step(Event::ManifestFailed), Action::Idle));
    assert_eq!(a.phase, Phase::AwaitToken);
}
