use std::io::Write;

use nlprule::error::Error;
use nlprule::facade_version;
use nlprule::resolver::{cache_path_segments, decompress, resource_url, ArtifactRequest, ResolveStep};

fn request(cache_available: bool) -> ArtifactRequest {
    ArtifactRequest {
        version: facade_version().to_string(),
        code: "en".to_string(),
        name: "tokenizer.bin.gz".to_string(),
        cache_available,
    }
}

fn gzip(bytes: &[u8]) -> Vec<u8> {
    let mut encoder =
        flate2::write::GzEncoder::new(Vec::new(), flate2::Compression::default());
    encoder.write_all(bytes).expect("in-memory write");
    encoder.finish().expect("in-memory finish")
}

#[test]
fn decompress_inverts_gzip() {
    let plain = b"the quick brown fox".to_vec();
    let packed = gzip(&plain);
    assert_ne!(packed, plain);
    assert_eq!(decompress(&packed).expect("valid gzip payload"), plain);
}

#[test]
fn a_payload_that_is_no_gzip_stream_is_corrupt() {
    let r = decompress(&vec![0, 1, 2, 3]);
    assert!(matches!(r, Err(Error::ResourceCorrupt(_))));
}

#[test]
fn cache_path_is_keyed_by_version_code_and_stripped_name() {
    let segs = cache_path_segments("0.9.9", "en", "rules.bin.gz").expect("name ends in .gz");
    assert_eq!(
        segs,
        vec!["nlprule".to_string(), "0.9.9".to_string(), "en".to_string(), "rules.bin".to_string()]
    );
}

#[test]
fn a_name_without_the_gz_suffix_is_a_configuration_error() {
    let r = cache_path_segments("0.9.9", "en", "rules.bin");
    assert!(matches!(r, Err(Error::Configuration(_))));
}

#[test]
fn changing_the_version_changes_the_cache_path() {
    let a = cache_path_segments("1.0.0", "en", "rules.bin.gz").expect("name ends in .gz");
    let b = cache_path_segments("1.0.1", "en", "rules.bin.gz").expect("name ends in .gz");
    assert_ne!(a, b);
}

#[test]
fn the_fetch_url_names_version_code_and_resource() {
    assert_eq!(
        resource_url("0.9.9", "en", "rules.bin.gz"),
        "https://github.com/bminixhofer/nlprule/raw/0.9.9/storage/en/rules.bin.gz"
    );
}

#[test]
fn resolution_consults_the_cache_first_when_one_exists() {
    let req = request(true);
    match req.begin() {
        ResolveStep::ReadCache(segs) => assert_eq!(segs[0], "nlprule"),
        _ => panic!("with a cache root the cache is consulted first"),
    }
}

#[test]
fn a_cache_hit_serves_the_cached_bytes_without_fetching() {
    let req = request(true);
    let cached = vec![9, 8, 7];
    match req.after_cache_read(Some(cached.clone())) {
        ResolveStep::Finished(bytes) => assert_eq!(bytes, cached),
        _ => panic!("a cache hit must finish the resolution as-is"),
    }
}

#[test]
fn a_cache_miss_falls_back_to_the_fetch_url() {
    let req = request(false);
    match req.begin() {
        ResolveStep::Fetch(url) => {
            assert_eq!(
                url,
                format!(
                    "https://github.com/bminixhofer/nlprule/raw/{}/storage/en/tokenizer.bin.gz",
                    facade_version()
                )
            );
        },
        _ => panic!("without a cache root the artifact is fetched directly"),
    }
    let req = request(true);
    match req.after_cache_read(None) {
        ResolveStep::Fetch(_) => {},
        _ => panic!("a cache miss must fall back to fetching"),
    }
}

#[test]
fn a_transport_failure_is_resource_unavailable() {
    let req = request(true);
    match req.after_fetch(Err("connection refused".to_string())) {
        ResolveStep::Failed(Error::ResourceUnavailable(msg)) => {
            assert_eq!(msg, "connection refused");
        },
        _ => panic!("a transport failure must surface as ResourceUnavailable"),
    }
}

#[test]
fn a_fetched_payload_is_gunzipped_then_cached_best_effort() {
    let plain = b"artifact body".to_vec();
    let req = request(true);
    match req.after_fetch(Ok(gzip(&plain))) {
        ResolveStep::StoreCache(segs, bytes) => {
            assert_eq!(bytes, plain);
            assert_eq!(segs[3], "tokenizer.bin");
            match req.after_cache_write(bytes, false) {
                ResolveStep::Finished(served) => assert_eq!(served, plain),
                _ => panic!("a failed cache write is swallowed"),
            }
        },
        _ => panic!("a decompressed payload is cached when a root exists"),
    }
    let req = request(false);
    match req.after_fetch(Ok(gzip(&plain))) {
        ResolveStep::Finished(bytes) => assert_eq!(bytes, plain),
        _ => panic!("without a cache root the payload is served directly"),
    }
}

#[test]
fn a_fetched_payload_that_does_not_gunzip_is_corrupt() {
    let req = request(true);
    match req.after_fetch(Ok(vec![1, 2, 3])) {
        ResolveStep::Failed(Error::ResourceCorrupt(_)) => {},
        _ => panic!("an undecodable payload must surface as ResourceCorrupt"),
    }
}
