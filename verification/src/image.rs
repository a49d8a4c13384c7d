//! Pull image (content store + snapshotter).

use vstd::prelude::*;

use crate::consts::DEFAULT_SNAPSHOTTER;
use crate::error::{Code, Error, ErrorSpec, Result, Status};
use crate::text;
use crate::util;

verus! {

/// The OCI platform architecture for a Rust target architecture.
pub open spec fn platform_arch(rust_arch: Seq<char>) -> Seq<char> {
    if rust_arch == "x86_64"@ {
        "amd64"@
    } else if rust_arch == "aarch64"@ {
        "arm64"@
    } else {
        rust_arch
    }
}

/// The two architectures that are named differently are renamed, every other
/// keeps its name, and no name is changed twice.
pub proof fn law_platform_arch(arch: Seq<char>)
    ensures
        platform_arch("x86_64"@) == "amd64"@,
        platform_arch("aarch64"@) == "arm64"@,
        arch != "x86_64"@ && arch != "aarch64"@ ==> platform_arch(arch) == arch,
        platform_arch(platform_arch(arch)) == platform_arch(arch),
{
    reveal_strlit("x86_64");
    reveal_strlit("aarch64");
    reveal_strlit("amd64");
    reveal_strlit("arm64");
    assert("x86_64"@.len() == 6 && "aarch64"@.len() == 7);
    assert("amd64"@.len() == 5 && "arm64"@.len() == 5);
}

/// Maps the Rust target architecture to the OCI platform architecture name.
pub fn oci_arch(rust_arch: &str) -> (arch: String)
    ensures
        arch@ == platform_arch(rust_arch@),
{
    if text::str_eq(rust_arch, "x86_64") {
        String::from_str("amd64")
    } else if text::str_eq(rust_arch, "aarch64") {
        String::from_str("arm64")
    } else {
        String::from_str(rust_arch)
    }
}

/// An image in a registry.
#[derive(Debug)]
pub struct OciRegistry {
    pub reference: String,
}

#[derive(Debug)]
pub struct Platform {
    pub os: String,
    pub architecture: String,
}

/// How an image is unpacked into a snapshotter.
#[derive(Debug)]
pub struct UnpackConfiguration {
    pub snapshotter: String,
    pub platform: Option<Platform>,
}

/// An image in the image store.
#[derive(Debug)]
pub struct ImageStore {
    pub name: String,
    pub unpacks: Vec<UnpackConfiguration>,
}

/// A transfer of an image from a registry into the image store.
#[derive(Debug)]
pub struct TransferRequest {
    pub source: OciRegistry,
    pub destination: ImageStore,
}

pub fn build_source(image: &str) -> (source: OciRegistry)
    ensures
        source.reference@ == image@,
{
    OciRegistry { reference: String::from_str(image) }
}

/// Whether `dest` is `image`, unpacked for Linux on `arch` by the default
/// snapshotter.
pub open spec fn is_destination(dest: ImageStore, image: Seq<char>, arch: Seq<char>) -> bool {
    &&& dest.name@ == image
    &&& dest.unpacks@.len() == 1
    &&& dest.unpacks@[0].snapshotter@ == DEFAULT_SNAPSHOTTER@
    &&& dest.unpacks@[0].platform matches Some(p)
    &&& p.os@ == "linux"@
    &&& p.architecture@ == arch
}

/// An image is stored under its own name and unpacked once, for Linux on the
/// asked architecture, into the overlay snapshotter.
pub proof fn law_destination(dest: ImageStore, image: Seq<char>, arch: Seq<char>)
    requires
        is_destination(dest, image, arch),
    ensures
        dest.name@ == image,
        forall|i: int| 0 <= i < dest.unpacks@.len() ==> (#[trigger] dest.unpacks@[i]).snapshotter@
            == "overlayfs"@,
        dest.unpacks@.len() == 1,
        dest.unpacks@[0].platform is Some,
        dest.unpacks@[0].platform->0.os@ == "linux"@,
        dest.unpacks@[0].platform->0.architecture@ == arch,
{
}

pub fn build_destination(image: &str, arch: &str) -> (dest: ImageStore)
    ensures
        is_destination(dest, image@, arch@),
{
    let mut unpacks: Vec<UnpackConfiguration> = Vec::new();
    unpacks.push(
        UnpackConfiguration {
            snapshotter: String::from_str(DEFAULT_SNAPSHOTTER),
            platform: Some(
                Platform {
                    os: String::from_str("linux"),
                    architecture: String::from_str(arch),
                },
            ),
        },
    );
    ImageStore { name: String::from_str(image), unpacks }
}

pub fn build_transfer_request(image: &str, arch: &str) -> (req: TransferRequest)
    ensures
        req.source.reference@ == image@,
        is_destination(req.destination, image@, arch@),
{
    TransferRequest { source: build_source(image), destination: build_destination(image, arch) }
}

/// Whether an image is there, from the reply to its look-up.
pub fn image_exists(reply: core::result::Result<(), Status>) -> (out: Result<bool>)
    ensures
        match reply {
            Ok(_) => out == Ok::<bool, Error>(true),
            Err(status) => if status.code == Code::NotFound {
                out == Ok::<bool, Error>(false)
            } else {
                out matches Err(e) && e@ == (ErrorSpec::Containerd {
                    op: "image_exists"@,
                    source: status@,
                })
            },
        },
{
    match reply {
        Ok(_) => Ok(true),
        Err(status) => if status.code == Code::NotFound {
            Ok(false)
        } else {
            Err(util::into_crate_error(status, "image_exists"))
        },
    }
}

/// What pulling an image does after the image was looked up: nothing if it is
/// there, else the transfer.
pub fn pull_image(
    image: &str,
    arch: &str,
    found: core::result::Result<(), Status>,
) -> (out: Result<Option<TransferRequest>>)
    ensures
        match found {
            Ok(_) => out matches Ok(None),
            Err(status) => if status.code == Code::NotFound {
                out matches Ok(Some(req)) && req.source.reference@ == image@ && is_destination(
                    req.destination,
                    image@,
                    arch@,
                )
            } else {
                out matches Err(e) && e@ == (ErrorSpec::Containerd {
                    op: "image_exists"@,
                    source: status@,
                })
            },
        },
{
    match image_exists(found) {
        Ok(true) => Ok(None),
        Ok(false) => Ok(Some(build_transfer_request(image, arch))),
        Err(e) => Err(e),
    }
}

} // verus!
