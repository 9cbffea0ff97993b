//! The artifact resolver: versioned binary resources are located in an
//! on-disk cache keyed by (facade version, language code, resource name), or
//! fetched over HTTP and gunzipped, then cached best-effort. The resolver's
//! decisions are pure functions from a request and the outcome of the last
//! I/O action to the next action; a thin driver performs the actions.
use vstd::prelude::*;

use flate2::read::GzDecoder;
use std::io::Read;

use crate::error::Error;
use crate::text::views_of;

verus! {

/// What `flate2` decodes a gzip payload to: `None` when the payload is not a
/// well-formed gzip stream, the decompressed bytes otherwise. The result
/// depends on the payload bytes alone.
pub uninterp spec fn gunzip_of(compressed: Seq<u8>) -> Option<Seq<u8>>;

/// Relies on flate2::read::GzDecoder, driven by std::io::Read::read_to_end:
/// it decodes a gzip payload, and fails exactly on payloads that are not
/// well-formed gzip streams.
#[verifier::external_body]
fn gunzip_bytes(bytes: &Vec<u8>) -> (r: Option<Vec<u8>>)
    ensures
        r is Some <==> gunzip_of(bytes@) is Some,
        r matches Some(b) ==> Some(b@) == gunzip_of(bytes@),
{
    let mut decoder = GzDecoder::new(&bytes[..]);
    let mut buffer = Vec::new();
    match decoder.read_to_end(&mut buffer) {
        Ok(_) => Some(buffer),
        Err(_) => None,
    }
}

/// Gunzips a fetched payload; a payload that does not decode is corrupt.
pub fn decompress(bytes: &Vec<u8>) -> (r: Result<Vec<u8>, Error>)
    ensures
        r is Ok <==> gunzip_of(bytes@) is Some,
        r matches Ok(b) ==> Some(b@) == gunzip_of(bytes@),
        r matches Err(e) ==> e is ResourceCorrupt,
{
    match gunzip_bytes(bytes) {
        Some(buffer) => Ok(buffer),
        None => Err(Error::ResourceCorrupt("gunzipping failed".to_owned())),
    }
}

/// Whether a resource name carries the mandatory `.gz` suffix.
pub open spec fn has_gz_suffix(name: Seq<char>) -> bool {
    name.len() >= 3 && name[name.len() - 3] == '.' && name[name.len() - 2] == 'g' && name[name.len()
        - 1] == 'z'
}

/// The resource name with its `.gz` suffix removed.
pub open spec fn strip_gz(name: Seq<char>) -> Seq<char> {
    name.take(name.len() as int - 3)
}

/// The cache path of an artifact, as segments below the user cache root: the
/// application name, then the facade version, the language code, and the
/// resource name without its `.gz` suffix. The version segment is what forces
/// a re-download whenever the facade version changes.
pub open spec fn cache_segments_spec(version: Seq<char>, code: Seq<char>, name: Seq<char>) -> Seq<
    Seq<char>,
> {
    seq!["nlprule"@, version, code, strip_gz(name)]
}

/// Version-keyed cache: two facade versions never share a cache path, for any
/// code and resource name, so a prior version's cache is never reused.
pub proof fn lemma_version_keyed_cache(
    v1: Seq<char>,
    v2: Seq<char>,
    code: Seq<char>,
    name: Seq<char>,
)
    requires
        v1 != v2,
    ensures
        cache_segments_spec(v1, code, name) != cache_segments_spec(v2, code, name),
{
    assert(cache_segments_spec(v1, code, name)[1] == v1);
    assert(cache_segments_spec(v2, code, name)[1] == v2);
}

/// The fetch URL of an artifact: the upstream storage tree, keyed by the same
/// facade version as the cache path, then the language code and the full
/// resource name.
pub open spec fn resource_url_spec(version: Seq<char>, code: Seq<char>, name: Seq<char>) -> Seq<
    char,
> {
    "https://github.com/bminixhofer/nlprule/raw/"@ + version + "/storage/"@ + code + "/"@ + name
}

/// Builds the cache path segments of an artifact; a resource name without the
/// `.gz` suffix is a configuration error.
pub fn cache_path_segments(version: &str, code: &str, name: &str) -> (r: Result<Vec<String>, Error>)
    ensures
        r is Ok <==> has_gz_suffix(name@),
        r matches Ok(v) ==> views_of(v@) == cache_segments_spec(version@, code@, name@),
        r matches Err(e) ==> e is Configuration,
{
    let n: usize = name.unicode_len();
    if n < 3 || !(name.get_char(n - 3) == '.' && name.get_char(n - 2) == 'g' && name.get_char(
        n - 1,
    ) == 'z') {
        return Err(Error::Configuration("resource name must have .gz ending.".to_owned()));
    }
    let stripped = name.substring_char(0, n - 3).to_owned();
    let mut segments: Vec<String> = Vec::new();
    segments.push("nlprule".to_owned());
    segments.push(version.to_owned());
    segments.push(code.to_owned());
    segments.push(stripped);
    proof {
        assert(name@.take(n as int - 3) =~= strip_gz(name@));
        assert(views_of(segments@) =~= cache_segments_spec(version@, code@, name@));
    }
    Ok(segments)
}

/// Builds the fetch URL of an artifact.
pub fn resource_url(version: &str, code: &str, name: &str) -> (r: String)
    ensures
        r@ == resource_url_spec(version@, code@, name@),
{
    let mut url = "https://github.com/bminixhofer/nlprule/raw/".to_owned();
    url.append(version);
    url.append("/storage/");
    url.append(code);
    url.append("/");
    url.append(name);
    url
}

/// A request for one artifact: the facade version, the language code, the
/// resource name, and whether a user cache root could be determined.
pub struct ArtifactRequest {
    pub version: String,
    pub code: String,
    pub name: String,
    pub cache_available: bool,
}

/// The next action a resolver driver must perform. The driver does the I/O
/// and reports each outcome back; every decision is made here.
pub enum ResolveStep {
    /// Read the cached artifact below the user cache root, at these path
    /// segments.
    ReadCache(Vec<String>),
    /// Fetch this URL.
    Fetch(String),
    /// Write the decompressed payload at these path segments, best-effort.
    StoreCache(Vec<String>, Vec<u8>),
    /// Resolution succeeded with these (decompressed) bytes.
    Finished(Vec<u8>),
    /// Resolution failed.
    Failed(Error),
}

impl ArtifactRequest {
    /// The first resolver step: a name without the `.gz` suffix fails at
    /// once; with a cache root the cache is consulted first, otherwise the
    /// artifact is fetched directly.
    pub fn begin(&self) -> (r: ResolveStep)
        ensures
            !has_gz_suffix(self.name@) ==> (r matches ResolveStep::Failed(e) && e
                is Configuration),
            has_gz_suffix(self.name@) && self.cache_available ==> (r matches ResolveStep::ReadCache(
                segs,
            ) && views_of(segs@) == cache_segments_spec(self.version@, self.code@, self.name@)),
            has_gz_suffix(self.name@) && !self.cache_available ==> (r matches ResolveStep::Fetch(
                url,
            ) && url@ == resource_url_spec(self.version@, self.code@, self.name@)),
    {
        match cache_path_segments(self.version.as_str(), self.code.as_str(), self.name.as_str()) {
            Err(e) => ResolveStep::Failed(e),
            Ok(segments) => {
                if self.cache_available {
                    ResolveStep::ReadCache(segments)
                } else {
                    ResolveStep::Fetch(
                        resource_url(self.version.as_str(), self.code.as_str(), self.name.as_str()),
                    )
                }
            },
        }
    }

    /// The step after the cache read: cached bytes are served as they are —
    /// in particular, no fetch follows a cache hit — and a miss falls back to
    /// fetching.
    pub fn after_cache_read(&self, found: Option<Vec<u8>>) -> (r: ResolveStep)
        ensures
            found matches Some(bytes) ==> (r matches ResolveStep::Finished(b) && b@ == bytes@),
            found is None ==> (r matches ResolveStep::Fetch(url) && url@ == resource_url_spec(
                self.version@,
                self.code@,
                self.name@,
            )),
    {
        match found {
            Some(bytes) => ResolveStep::Finished(bytes),
            None => ResolveStep::Fetch(
                resource_url(self.version.as_str(), self.code.as_str(), self.name.as_str()),
            ),
        }
    }

    /// The step after the fetch: a transport failure surfaces as
    /// `ResourceUnavailable` with the transport's message; a payload that
    /// does not gunzip is `ResourceCorrupt`; a decompressed payload is cached
    /// when a cache root exists, and served directly otherwise.
    pub fn after_fetch(&self, outcome: Result<Vec<u8>, String>) -> (r: ResolveStep)
        ensures
            outcome matches Err(m) ==> (r matches ResolveStep::Failed(e) && e
                is ResourceUnavailable && e.spec_message() == m@),
            outcome matches Ok(payload) && gunzip_of(payload@) is None ==> (r
                matches ResolveStep::Failed(e) && e is ResourceCorrupt),
            outcome matches Ok(payload) ==> (gunzip_of(payload@) matches Some(plain) ==> {
                &&& !self.cache_available ==> (r matches ResolveStep::Finished(b) && b@ == plain)
                &&& self.cache_available && has_gz_suffix(self.name@) ==> (r
                    matches ResolveStep::StoreCache(segs, b) && b@ == plain && views_of(segs@)
                    == cache_segments_spec(self.version@, self.code@, self.name@))
                &&& self.cache_available && !has_gz_suffix(self.name@) ==> (r
                    matches ResolveStep::Failed(e) && e is Configuration)
            }),
    {
        match outcome {
            Err(m) => ResolveStep::Failed(Error::ResourceUnavailable(m)),
            Ok(payload) => {
                match decompress(&payload) {
                    Err(e) => ResolveStep::Failed(e),
                    Ok(plain) => {
                        if self.cache_available {
                            match cache_path_segments(
                                self.version.as_str(),
                                self.code.as_str(),
                                self.name.as_str(),
                            ) {
                                Err(e) => ResolveStep::Failed(e),
                                Ok(segments) => ResolveStep::StoreCache(segments, plain),
                            }
                        } else {
                            ResolveStep::Finished(plain)
                        }
                    },
                }
            },
        }
    }

    /// The step after the best-effort cache write: its outcome is swallowed —
    /// the decompressed payload is served either way.
    pub fn after_cache_write(&self, payload: Vec<u8>, written: bool) -> (r: ResolveStep)
        ensures
            r matches ResolveStep::Finished(b) && b@ == payload@,
    {
        ResolveStep::Finished(payload)
    }
}

} // verus!
