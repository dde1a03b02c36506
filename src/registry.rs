use vstd::prelude::*;
use vstd::string::StringExecFns;

verus! {

/// One layer of an image as the manifest lists it. The digest only names
/// the blob to fetch; the fetched bytes are not checked against it.
#[derive(Debug)]
pub struct LayerDescriptor {
    pub media_type: String,
    pub digest: String,
}

pub struct LayerView {
    pub media_type: Seq<char>,
    pub digest: Seq<char>,
}

impl View for LayerDescriptor {
    type V = LayerView;

    open spec fn view(&self) -> LayerView {
        LayerView { media_type: self.media_type@, digest: self.digest@ }
    }
}

/// An HTTP `GET` to send to the registry or its token service.
#[derive(Debug)]
pub struct Request {
    pub url: String,
    /// The value of the `Accept` header, if one is sent.
    pub accept: Option<String>,
    /// The bearer token to authenticate with, if any.
    pub bearer: Option<String>,
}

pub struct RequestView {
    pub url: Seq<char>,
    pub accept: Option<Seq<char>>,
    pub bearer: Option<Seq<char>>,
}

impl View for Request {
    type V = RequestView;

    open spec fn view(&self) -> RequestView {
        RequestView {
            url: self.url@,
            accept: match self.accept {
                Some(a) => Some(a@),
                None => None,
            },
            bearer: match self.bearer {
                Some(b) => Some(b@),
                None => None,
            },
        }
    }
}

pub open spec fn token_url(name: Seq<char>) -> Seq<char> {
    "https://auth.docker.io/token?service=registry.docker.io&scope=repository:library/"@ + name
        + ":pull"@
}

pub open spec fn manifest_url(name: Seq<char>, tag: Seq<char>) -> Seq<char> {
    "https://registry.hub.docker.com/v2/library/"@ + name + "/manifests/"@ + tag
}

pub open spec fn blob_url(name: Seq<char>, digest: Seq<char>) -> Seq<char> {
    "https://registry.hub.docker.com/v2/library/"@ + name + "/blobs/"@ + digest
}

pub open spec fn manifest_media_type() -> Seq<char> {
    "application/vnd.docker.distribution.manifest.v2+json"@
}

/// The pull-token request for the repository `library/{name}`: no
/// credentials and no `Accept` header.
pub open spec fn token_request(name: Seq<char>) -> RequestView {
    RequestView { url: token_url(name), accept: None, bearer: None }
}

/// The manifest request for `{name}:{tag}`, asking for the v2 manifest type.
pub open spec fn manifest_request(name: Seq<char>, tag: Seq<char>, token: Seq<char>) -> RequestView {
    RequestView {
        url: manifest_url(name, tag),
        accept: Some(manifest_media_type()),
        bearer: Some(token),
    }
}

/// The blob request for one layer, asking for the layer's own media type.
pub open spec fn blob_request(name: Seq<char>, layer: LayerView, token: Seq<char>) -> RequestView {
    RequestView {
        url: blob_url(name, layer.digest),
        accept: Some(layer.media_type),
        bearer: Some(token),
    }
}

pub fn build_token_request(name: &str) -> (r: Request)
    ensures
        r@ == token_request(name@),
{
    let mut url = String::from_str(
        "https://auth.docker.io/token?service=registry.docker.io&scope=repository:library/",
    );
    url.append(name);
    url.append(":pull");
    Request { url, accept: None, bearer: None }
}

pub fn build_manifest_request(name: &str, tag: &str, token: &str) -> (r: Request)
    ensures
        r@ == manifest_request(name@, tag@, token@),
{
    let mut url = String::from_str("https://registry.hub.docker.com/v2/library/");
    url.append(name);
    url.append("/manifests/");
    url.append(tag);
    let accept = String::from_str("application/vnd.docker.distribution.manifest.v2+json");
    Request { url, accept: Some(accept), bearer: Some(String::from_str(token)) }
}

pub fn build_blob_request(name: &str, layer: &LayerDescriptor, token: &str) -> (r: Request)
    ensures
        r@ == blob_request(name@, layer@, token@),
{
    let mut url = String::from_str("https://registry.hub.docker.com/v2/library/");
    url.append(name);
    url.append("/blobs/");
    url.append(layer.digest.as_str());
    Request {
        url,
        accept: Some(layer.media_type.clone()),
        bearer: Some(String::from_str(token)),
    }
}

} // verus!
