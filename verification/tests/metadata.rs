use containerd_manager::client::SharedState;
use containerd_manager::error::{Code, Status};
use containerd_manager::metadata::{MetadataFetch, MetadataSource};
use containerd_manager::{Client, Error};

const CONFIG: &[u8] = br#"{"architecture": "amd64", "os": "linux",
    "rootfs": {"type": "layers", "diff_ids": ["sha256:one"]}}"#;

const MANIFEST: &[u8] = br#"{"config": {"digest": "sha256:cfg"}}"#;

const INDEX: &[u8] = br#"{"manifests": [
    {"digest": "sha256:arm", "platform": {"architecture": "arm64"}},
    {"digest": "sha256:m", "platform": {"architecture": "amd64"}}
]}"#;

fn blob(digest: &str) -> Result<Vec<u8>, Error> {
    match digest {
        "sha256:index" => Ok(INDEX.to_vec()),
        "sha256:m" => Ok(MANIFEST.to_vec()),
        "sha256:cfg" => Ok(CONFIG.to_vec()),
        "sha256:odd" => Ok(b"{}".to_vec()),
        _ => Err(Error::Containerd {
            op: "read_content",
            source: Status { code: Code::NotFound, message: digest.to_string() },
        }),
    }
}

fn run(mut fetch: MetadataFetch, arch: &str) -> (MetadataFetch, Vec<String>) {
    let mut read = vec![];
    while let Some(digest) = fetch.due() {
        fetch = fetch.advance(arch, blob(&digest));
        read.push(digest);
    }
    (fetch, read)
}

#[test]
fn metadata_is_fetched_blob_by_blob() {
    let (fetch, read) = run(MetadataFetch::begin("sha256:index"), "amd64");
    assert_eq!(read, vec!["sha256:index", "sha256:m", "sha256:cfg"]);
    match fetch {
        MetadataFetch::Done(Ok(m)) => {
            assert_eq!(m.chain_id, "sha256:one");
            assert_eq!(m.raw_config, CONFIG.to_vec());
        }
        _ => panic!("no metadata"),
    }
    let (fetch, read) = run(MetadataFetch::begin("sha256:m"), "amd64");
    assert_eq!(read, vec!["sha256:m", "sha256:cfg"]);
    assert!(matches!(fetch, MetadataFetch::Done(Ok(_))));
}

#[test]
fn the_first_error_ends_a_fetch() {
    let (fetch, read) = run(MetadataFetch::begin("sha256:index"), "arm64");
    assert_eq!(read, vec!["sha256:index", "sha256:arm"]);
    assert!(matches!(fetch, MetadataFetch::Done(Err(Error::Containerd { op: "read_content", .. }))));
    let (fetch, read) = run(MetadataFetch::begin("sha256:odd"), "amd64");
    assert_eq!(read, vec!["sha256:odd"]);
    assert!(matches!(fetch, MetadataFetch::Done(Err(Error::InvalidArgument(_)))));
    // Nothing follows the end.
    let fetch = fetch.advance("amd64", Ok(CONFIG.to_vec()));
    assert!(matches!(fetch, MetadataFetch::Done(Err(Error::InvalidArgument(_)))));
}

#[test]
fn metadata_is_fetched_once() {
    let c = Client::new();
    let mut s = SharedState::new();
    let fetch = match c.image_metadata(&s, "sha256:m") {
        MetadataSource::Fetch(fetch) => fetch,
        MetadataSource::Cached(_) => panic!("cached before it was fetched"),
    };
    let out = match run(fetch, "amd64").0 {
        MetadataFetch::Done(out) => out,
        _ => panic!("not done"),
    };
    let kept = c.keep_image_metadata(&mut s, "sha256:m", out).unwrap();
    assert_eq!(kept.chain_id, "sha256:one");
    match c.image_metadata(&s, "sha256:m") {
        MetadataSource::Cached(m) => assert_eq!(m.chain_id, "sha256:one"),
        MetadataSource::Fetch(_) => panic!("fetched again"),
    }
    // A failed fetch is not cached.
    let failed = Err(Error::NotImplemented);
    assert!(c.keep_image_metadata(&mut s, "sha256:x", failed).is_err());
    assert!(matches!(c.image_metadata(&s, "sha256:x"), MetadataSource::Fetch(_)));
    assert_eq!(c.image_cache_len(&s), 1);
}
