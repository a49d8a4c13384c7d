use containerd_manager::consts::DEFAULT_SNAPSHOTTER;
use containerd_manager::error::{Code, Status};
use containerd_manager::image::{
    build_destination, build_source, build_transfer_request, image_exists, oci_arch, pull_image,
};
use containerd_manager::Error;

fn status(code: Code) -> Status {
    Status { code, message: "m".to_string() }
}

#[test]
fn build_source_sets_reference() {
    let image = "docker.io/library/alpine:latest";
    let source = build_source(image);
    assert_eq!(source.reference, image);
}

#[test]
fn build_destination_sets_name_and_unpacks() {
    let image = "docker.io/library/alpine:latest";
    let arch = oci_arch("x86_64");
    let dest = build_destination(image, &arch);

    assert_eq!(dest.name, image);
    assert_eq!(dest.unpacks.len(), 1);

    let unpack = &dest.unpacks[0];
    assert_eq!(unpack.snapshotter, DEFAULT_SNAPSHOTTER);
    assert!(unpack.platform.is_some());

    let platform = unpack.platform.as_ref().unwrap();
    assert_eq!(platform.os, "linux");
    assert_eq!(platform.architecture, arch);
}

#[test]
fn build_transfer_request_has_source_and_destination() {
    let image = "mongodb/mongodb-atlas-local:latest";
    let req = build_transfer_request(image, "arm64");
    assert_eq!(req.source.reference, image);
    assert_eq!(req.destination.name, image);
    let platform = req.destination.unpacks[0].platform.as_ref().unwrap();
    assert_eq!(platform.architecture, "arm64");
}

#[test]
fn build_destination_uses_current_arch() {
    let image = "test:latest";
    for (rust, oci) in [("x86_64", "amd64"), ("aarch64", "arm64")] {
        let dest = build_destination(image, &oci_arch(rust));
        let platform = dest.unpacks[0].platform.as_ref().unwrap();
        // OCI uses `amd64`/`arm64`, not Rust's `x86_64`/`aarch64`.
        assert_eq!(platform.architecture, oci);
    }
}

#[test]
fn oci_arch_maps_rust_names_to_oci_names() {
    assert_eq!(oci_arch("x86_64"), "amd64");
    assert_eq!(oci_arch("aarch64"), "arm64");
    assert_eq!(oci_arch("riscv64"), "riscv64");
    assert_eq!(oci_arch(""), "");
}

#[test]
fn a_missing_image_is_no_error() {
    assert!(image_exists(Ok(())).unwrap());
    assert!(!image_exists(Err(status(Code::NotFound))).unwrap());
    assert!(matches!(
        image_exists(Err(status(Code::Unavailable))),
        Err(Error::Containerd { op: "image_exists", source }) if source.code == Code::Unavailable
    ));
}

#[test]
fn an_image_that_is_there_is_not_pulled() {
    assert!(pull_image("busybox", "amd64", Ok(())).unwrap().is_none());
    let req = pull_image("busybox", "amd64", Err(status(Code::NotFound))).unwrap().unwrap();
    assert_eq!(req.source.reference, "busybox");
    assert_eq!(req.destination.unpacks.len(), 1);
    assert!(pull_image("busybox", "amd64", Err(status(Code::Internal))).is_err());
}
