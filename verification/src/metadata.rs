//! Finding out what an image holds: its manifest, for an index the manifest for
//! our architecture, and its configuration, read one after the other and then
//! cached.

use std::sync::Arc;

use vstd::prelude::*;

use crate::client::{Client, SharedState};
use crate::container;
use crate::container::{ImageMetadata, ImageMetadataSpec, ManifestStep, ManifestStepSpec};
use crate::error::{ErrorSpec, Result};

verus! {

/// The content of a blob, or why it could not be read.
pub type BlobSpec = core::result::Result<Seq<u8>, ErrorSpec>;

/// What comes of looking for an image's metadata.
pub type MetadataSpec = core::result::Result<ImageMetadataSpec, ErrorSpec>;

/// An ongoing search for the metadata of an image. Until it is done, the blob
/// with the given digest is to be read.
#[derive(Debug)]
pub enum MetadataFetch {
    Manifest { digest: String },
    /// The manifest for our architecture.
    SubManifest { digest: String },
    Config { digest: String },
    Done(Result<ImageMetadata>),
}

#[verifier::ext_equal]
pub enum MetadataFetchSpec {
    Manifest { digest: Seq<char> },
    SubManifest { digest: Seq<char> },
    Config { digest: Seq<char> },
    Done(MetadataSpec),
}

impl View for MetadataFetch {
    type V = MetadataFetchSpec;

    open spec fn view(&self) -> MetadataFetchSpec {
        match *self {
            MetadataFetch::Manifest { digest } => MetadataFetchSpec::Manifest { digest: digest@ },
            MetadataFetch::SubManifest { digest } => MetadataFetchSpec::SubManifest {
                digest: digest@,
            },
            MetadataFetch::Config { digest } => MetadataFetchSpec::Config { digest: digest@ },
            MetadataFetch::Done(Ok(m)) => MetadataFetchSpec::Done(Ok(m@)),
            MetadataFetch::Done(Err(e)) => MetadataFetchSpec::Done(Err(e@)),
        }
    }
}

impl MetadataFetchSpec {
    /// The blob to read next.
    pub open spec fn due(self) -> Option<Seq<char>> {
        match self {
            MetadataFetchSpec::Manifest { digest } => Some(digest),
            MetadataFetchSpec::SubManifest { digest } => Some(digest),
            MetadataFetchSpec::Config { digest } => Some(digest),
            MetadataFetchSpec::Done(_) => None,
        }
    }

    /// What follows the read of the blob that was due.
    pub open spec fn next(self, arch: Seq<char>, blob: BlobSpec) -> MetadataFetchSpec {
        match (self, blob) {
            (MetadataFetchSpec::Done(_), _) => self,
            (_, Err(e)) => MetadataFetchSpec::Done(Err(e)),
            (MetadataFetchSpec::Manifest { .. }, Ok(raw)) => match container::manifest_target(
                raw,
                arch,
            ) {
                Ok(ManifestStepSpec::Config(digest)) => MetadataFetchSpec::Config { digest },
                Ok(ManifestStepSpec::SubManifest(digest)) => MetadataFetchSpec::SubManifest {
                    digest,
                },
                Err(e) => MetadataFetchSpec::Done(Err(e)),
            },
            (MetadataFetchSpec::SubManifest { .. }, Ok(raw)) => match container::sub_manifest_target(
                raw,
            ) {
                Ok(digest) => MetadataFetchSpec::Config { digest },
                Err(e) => MetadataFetchSpec::Done(Err(e)),
            },
            (MetadataFetchSpec::Config { .. }, Ok(raw)) => MetadataFetchSpec::Done(
                container::metadata_in(raw),
            ),
        }
    }

    /// The search after `n` reads, where `blobs` tells what each digest reads
    /// as.
    pub open spec fn run(
        self,
        arch: Seq<char>,
        blobs: spec_fn(Seq<char>) -> BlobSpec,
        n: nat,
    ) -> MetadataFetchSpec
        decreases n,
    {
        if n == 0 {
            self
        } else {
            let before = self.run(arch, blobs, (n - 1) as nat);
            match before.due() {
                Some(digest) => before.next(arch, blobs(digest)),
                None => before,
            }
        }
    }
}

impl MetadataFetch {
    /// Begins with the manifest.
    pub fn begin(manifest_digest: &str) -> (fetch: Self)
        ensures
            fetch@ == (MetadataFetchSpec::Manifest { digest: manifest_digest@ }),
    {
        MetadataFetch::Manifest { digest: String::from_str(manifest_digest) }
    }

    /// The blob to read next.
    pub fn due(&self) -> (digest: Option<String>)
        ensures
            match digest {
                Some(d) => self@.due() == Some(d@),
                None => self@.due() is None,
            },
    {
        match self {
            MetadataFetch::Manifest { digest } => Some(digest.clone()),
            MetadataFetch::SubManifest { digest } => Some(digest.clone()),
            MetadataFetch::Config { digest } => Some(digest.clone()),
            MetadataFetch::Done(_) => None,
        }
    }

    /// Takes in what was read of the blob that was due.
    pub fn advance(self, arch: &str, blob: Result<Vec<u8>>) -> (next: Self)
        ensures
            next@ == self@.next(
                arch@,
                match blob {
                    Ok(raw) => Ok(raw@),
                    Err(e) => Err(e@),
                },
            ),
    {
        let raw = match (&self, blob) {
            (MetadataFetch::Done(_), _) => {
                return self;
            },
            (_, Ok(raw)) => raw,
            (_, Err(e)) => {
                return MetadataFetch::Done(Err(e));
            },
        };
        match self {
            MetadataFetch::Manifest { .. } => match container::read_manifest(raw.as_slice(), arch) {
                Ok(ManifestStep::Config(digest)) => MetadataFetch::Config { digest },
                Ok(ManifestStep::SubManifest(digest)) => MetadataFetch::SubManifest { digest },
                Err(e) => MetadataFetch::Done(Err(e)),
            },
            MetadataFetch::SubManifest { .. } => match container::read_sub_manifest(
                raw.as_slice(),
            ) {
                Ok(digest) => MetadataFetch::Config { digest },
                Err(e) => MetadataFetch::Done(Err(e)),
            },
            MetadataFetch::Config { .. } => MetadataFetch::Done(container::read_image_config(raw)),
            MetadataFetch::Done(_) => self,
        }
    }
}

/// The metadata of the image whose manifest has the given digest, where `blobs`
/// tells what each digest reads as.
pub open spec fn fetched(
    blobs: spec_fn(Seq<char>) -> BlobSpec,
    manifest_digest: Seq<char>,
    arch: Seq<char>,
) -> MetadataSpec {
    match blobs(manifest_digest) {
        Err(e) => Err(e),
        Ok(manifest) => match container::manifest_target(manifest, arch) {
            Err(e) => Err(e),
            Ok(ManifestStepSpec::Config(digest)) => configured(blobs(digest)),
            Ok(ManifestStepSpec::SubManifest(digest)) => match blobs(digest) {
                Err(e) => Err(e),
                Ok(sub) => match container::sub_manifest_target(sub) {
                    Err(e) => Err(e),
                    Ok(config) => configured(blobs(config)),
                },
            },
        },
    }
}

/// The metadata in what was read of a configuration blob.
pub open spec fn configured(blob: BlobSpec) -> MetadataSpec {
    match blob {
        Ok(raw) => container::metadata_in(raw),
        Err(e) => Err(e),
    }
}

/// A search is done after at most three reads, and comes to the metadata that
/// the blobs spell out: that of the configuration that the manifest points to,
/// by way of the manifest for our architecture if it is an index, or the first
/// error on the way.
pub proof fn law_metadata_is_fetched(
    blobs: spec_fn(Seq<char>) -> BlobSpec,
    manifest_digest: Seq<char>,
    arch: Seq<char>,
)
    ensures
        (MetadataFetchSpec::Manifest { digest: manifest_digest }).run(arch, blobs, 3)
            == MetadataFetchSpec::Done(fetched(blobs, manifest_digest, arch)),
{
    reveal_with_fuel(MetadataFetchSpec::run, 4);
}

/// One read of a search: the blob that is due is the one that the search is at,
/// a blob that cannot be read ends it with the reason, and so does what cannot
/// be followed; a search that is done stays so.
pub proof fn law_metadata_step(
    digest: Seq<char>,
    arch: Seq<char>,
    raw: Seq<u8>,
    e: ErrorSpec,
    done: MetadataSpec,
    blob: BlobSpec,
)
    ensures
        ({
            let manifest = MetadataFetchSpec::Manifest { digest };
            let sub = MetadataFetchSpec::SubManifest { digest };
            let config = MetadataFetchSpec::Config { digest };
            let failed = MetadataFetchSpec::Done(Err(e));
            &&& manifest.due() == Some(digest) && sub.due() == Some(digest) && config.due() == Some(
                digest,
            )
            &&& MetadataFetchSpec::Done(done).due() is None
            &&& manifest.next(arch, Err(e)) == failed && sub.next(arch, Err(e)) == failed
                && config.next(arch, Err(e)) == failed
            &&& container::manifest_target(raw, arch) matches Ok(ManifestStepSpec::Config(d))
                ==> manifest.next(arch, Ok(raw)) == (MetadataFetchSpec::Config { digest: d })
            &&& container::manifest_target(raw, arch) matches Ok(ManifestStepSpec::SubManifest(d))
                ==> manifest.next(arch, Ok(raw)) == (MetadataFetchSpec::SubManifest { digest: d })
            &&& container::manifest_target(raw, arch) == Err::<ManifestStepSpec, ErrorSpec>(e)
                ==> manifest.next(arch, Ok(raw)) == failed
            &&& container::sub_manifest_target(raw) matches Ok(d) ==> sub.next(arch, Ok(raw)) == (
            MetadataFetchSpec::Config { digest: d })
            &&& container::sub_manifest_target(raw) == Err::<Seq<char>, ErrorSpec>(e) ==> sub.next(
                arch,
                Ok(raw),
            ) == failed
            &&& config.next(arch, Ok(raw)) == MetadataFetchSpec::Done(container::metadata_in(raw))
            &&& MetadataFetchSpec::Done(done).next(arch, blob) == MetadataFetchSpec::Done(done)
        }),
{
}

/// Where the metadata of an image is to be had.
#[derive(Debug)]
pub enum MetadataSource {
    Cached(Arc<ImageMetadata>),
    /// It is to be fetched, and then kept.
    Fetch(MetadataFetch),
}

impl Client {
    /// Where the metadata of an image is to be had: what is cached is not
    /// fetched again.
    pub fn image_metadata(&self, state: &SharedState, manifest_digest: &str) -> (source:
        MetadataSource)
        ensures
            match source {
                MetadataSource::Cached(m) => state.images().dom().contains(manifest_digest@)
                    && state.images()[manifest_digest@] == *m,
                MetadataSource::Fetch(fetch) => !state.images().dom().contains(manifest_digest@)
                    && fetch@ == (MetadataFetchSpec::Manifest { digest: manifest_digest@ }),
            },
    {
        match self.lookup_image_metadata(state, manifest_digest) {
            Some(m) => MetadataSource::Cached(m),
            None => MetadataSource::Fetch(MetadataFetch::begin(manifest_digest)),
        }
    }

    /// Takes in fetched metadata. It is cached unless the search failed.
    pub fn keep_image_metadata(
        &self,
        state: &mut SharedState,
        manifest_digest: &str,
        fetched: Result<ImageMetadata>,
    ) -> (out: Result<Arc<ImageMetadata>>)
        ensures
            match fetched {
                Ok(m) => {
                    &&& out matches Ok(a) && *a == m
                    &&& final(state).images() == old(state).images().insert(manifest_digest@, m)
                },
                Err(e) => {
                    &&& out matches Err(same) && same == e
                    &&& final(state).images() == old(state).images()
                },
            },
            final(state).starts() == old(state).starts(),
    {
        match fetched {
            Ok(m) => {
                let shared = Arc::new(m);
                self.store_image_metadata(
                    state,
                    String::from_str(manifest_digest),
                    shared.clone(),
                );
                Ok(shared)
            },
            Err(e) => Err(e),
        }
    }
}

} // verus!
