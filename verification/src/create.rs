//! The steps of creating a container, from a name to a stored record.
//!
//! Each function takes what the step before it brought back from containerd
//! and decides what comes next.

use vstd::prelude::*;

use crate::bridge;
use crate::consts::{
    BRIDGE_IP_LABEL, DEFAULT_RUNTIME, DEFAULT_SNAPSHOTTER, NAME_LABEL, NETWORK_MODE_LABEL,
    PORT_BINDING_LABEL_PREFIX,
};
use crate::container;
use crate::container::{CreateContainerOpts, ImageMetadata, NetworkMode};
use crate::error;
use crate::error::{Code, Error, ErrorSpec, Result, Status};
use crate::inspect;
use crate::inspect::ContainerRecord;
use crate::maps;
use crate::maps::StringMap;
use crate::numeral;
use crate::oci;
use crate::port_forward;
use crate::snapshot_util;
use crate::snapshot_util::{SnapshotCall, SnapshotCallSpec, StepEvent, StepEventSpec};
use crate::text;
use crate::types::{ContainerInfo, TaskInfo};
use crate::util;

verus! {

/// Port that a new container in bridge mode exposes if it declares none.
pub const DEFAULT_CONTAINER_PORT: u16 = 27017;

/// The filter that finds containers by name.
pub open spec fn name_filter(name: Seq<char>) -> Seq<char> {
    "labels.\""@ + NAME_LABEL@ + "\"=="@ + name
}

/// Containers are found by name as they are by any other label.
pub proof fn law_name_filter(name: Seq<char>)
    ensures
        Some(name_filter(name)) == crate::list::label_filter(("containerd-manager.name"@).push('=') + name),
{
    reveal_strlit("containerd-manager.name");
    crate::list::law_label_filter("containerd-manager.name"@, name, name);
}

/// The filter that finds containers that have a name already. Names are unique
/// per namespace.
pub fn filter_by_name(name: &str) -> (filter: String)
    ensures
        filter@ == name_filter(name@),
{
    let mut filter = String::from_str("labels.\"");
    filter.append(NAME_LABEL);
    filter.append("\"==");
    filter.append(name);
    filter
}

/// Rejects a name that containers have already.
pub fn name_is_free(name: &str, taken: core::result::Result<usize, Status>) -> (out: Result<()>)
    ensures
        match taken {
            Ok(n) => if n == 0 {
                out is Ok
            } else {
                out matches Err(e) && e@ == ErrorSpec::ContainerAlreadyExists(name@)
            },
            Err(status) => out matches Err(e) && e@ == (ErrorSpec::Containerd {
                op: "list_containers_for_name_check"@,
                source: status@,
            }),
        },
{
    match taken {
        Ok(n) => if n == 0 {
            Ok(())
        } else {
            Err(Error::ContainerAlreadyExists(String::from_str(name)))
        },
        Err(status) => Err(util::into_crate_error(status, "list_containers_for_name_check")),
    }
}

/// An image as containerd stores it: the digest of its manifest, if it has a
/// target.
#[derive(Debug)]
pub struct ImageRecord {
    pub target: Option<String>,
}

/// The reply to an image look-up.
pub type ImageReply = core::result::Result<Option<ImageRecord>, Status>;

/// The manifest digest of an image that a container is created from.
pub fn image_target(image: &str, reply: ImageReply) -> (out: Result<String>)
    ensures
        match reply {
            Ok(Some(ImageRecord { target: Some(d) })) => out == Ok::<String, Error>(d),
            Ok(Some(ImageRecord { target: None })) => out matches Err(e) && e@
                == ErrorSpec::InvalidArgument("image has no target"@),
            Ok(None) => out matches Err(e) && e@ == ErrorSpec::ImageNotFound(image@),
            Err(status) => out matches Err(e) && e@ == util::image_error(
                "get_image"@,
                image@,
                status@,
            ),
        },
{
    match reply {
        Ok(Some(record)) => match record.target {
            Some(d) => Ok(d),
            None => Err(Error::InvalidArgument(String::from_str("image has no target"))),
        },
        Ok(None) => Err(Error::ImageNotFound(String::from_str(image))),
        Err(status) => Err(util::map_image_status("get_image", image, status)),
    }
}

/// The manifest digest of an image whose raw configuration is wanted.
pub fn raw_config_target(image: &str, reply: ImageReply) -> (out: Result<String>)
    ensures
        match reply {
            Ok(Some(ImageRecord { target: Some(d) })) => out == Ok::<String, Error>(d),
            Ok(Some(ImageRecord { target: None })) => out matches Err(e) && e@
                == ErrorSpec::ImageNotFound(image@ + ": no target descriptor"@),
            Ok(None) => out matches Err(e) && e@ == ErrorSpec::ImageNotFound(image@),
            Err(status) => out matches Err(e) && e@ == util::image_error(
                "get_image"@,
                image@,
                status@,
            ),
        },
{
    match reply {
        Ok(Some(record)) => match record.target {
            Some(d) => Ok(d),
            None => {
                let mut what = String::from_str(image);
                what.append(": no target descriptor");
                Err(Error::ImageNotFound(what))
            },
        },
        Ok(None) => Err(Error::ImageNotFound(String::from_str(image))),
        Err(status) => Err(util::map_image_status("get_image", image, status)),
    }
}

/// The writable layer of a new container: the one that was handed over, or its
/// own.
pub open spec fn layer_key(id: Seq<char>, handed_over: Option<Seq<char>>) -> Seq<char> {
    match handed_over {
        Some(key) => key,
        None => container::snapshot_key(id),
    }
}

/// A layer that was handed over is used as it is; a container without one has a
/// layer that is named after it.
pub proof fn law_layer_key(id: Seq<char>, layer: Seq<char>)
    ensures
        layer_key(id, Some(layer)) == layer,
        layer_key(id, None) == id + "-snapshot"@,
{
}

fn layer_key_for(container_id: &str, opts: &CreateContainerOpts) -> (key: String)
    ensures
        key@ == layer_key(container_id@, opts@.from_existing_snapshot),
{
    match &opts.from_existing_snapshot {
        Some(key) => key.clone(),
        None => container::snapshot_key_for(container_id),
    }
}

/// The container ports that need a host port: in bridge mode those of the
/// bindings, in the other modes none. A container in bridge mode without
/// bindings exposes the default port, unless its writable layer was handed
/// over: then whoever prepared the layer decided on the ports too.
pub open spec fn wanted_ports(
    mode: NetworkMode,
    bindings: Seq<(u16, u16)>,
    handed_over: bool,
) -> Seq<u16> {
    if mode != NetworkMode::Bridge {
        Seq::empty()
    } else if bindings.len() == 0 && !handed_over {
        seq![DEFAULT_CONTAINER_PORT]
    } else {
        bindings.map_values(|b: (u16, u16)| b.1)
    }
}

/// A host port is allocated for the container port of every binding, in order,
/// in bridge mode alone; only a container that has a layer of its own and binds
/// nothing gets a port that it did not ask for.
pub proof fn law_wanted_ports(
    mode: NetworkMode,
    bindings: Seq<(u16, u16)>,
    handed_over: bool,
    i: int,
)
    ensures
        mode != NetworkMode::Bridge ==> wanted_ports(mode, bindings, handed_over).len() == 0,
        mode == NetworkMode::Bridge && bindings.len() > 0 ==> wanted_ports(
            mode,
            bindings,
            handed_over,
        ).len() == bindings.len(),
        mode == NetworkMode::Bridge && 0 <= i < bindings.len() ==> wanted_ports(
            mode,
            bindings,
            handed_over,
        )[i] == bindings[i].1,
        mode == NetworkMode::Bridge && bindings.len() == 0 && handed_over ==> wanted_ports(
            mode,
            bindings,
            handed_over,
        ).len() == 0,
        mode == NetworkMode::Bridge && bindings.len() == 0 && !handed_over ==> wanted_ports(
            mode,
            bindings,
            handed_over,
        ) == seq![27017u16],
{
}

pub fn ports_to_allocate(opts: &CreateContainerOpts) -> (ports: Vec<u16>)
    ensures
        ports@ == wanted_ports(
            opts@.mode,
            opts@.port_bindings,
            opts@.from_existing_snapshot is Some,
        ),
{
    let mut ports: Vec<u16> = Vec::new();
    if opts.network.mode != NetworkMode::Bridge {
        return ports;
    }
    let n: usize = opts.port_bindings.len();
    if n == 0 && opts.from_existing_snapshot.is_none() {
        ports.push(DEFAULT_CONTAINER_PORT);
        return ports;
    }
    for i in 0..n
        invariant
            n == opts.port_bindings@.len(),
            ports@.len() == i,
            forall|j: int| 0 <= j < i ==> #[trigger] ports@[j] == opts.port_bindings@[j].1,
    {
        ports.push(opts.port_bindings[i].1);
    }
    assert(ports@ =~= opts.port_bindings@.map_values(|b: (u16, u16)| b.1));
    ports
}

/// What was allocated for a container in bridge mode: its address, and for
/// each container port a host port.
#[derive(Debug)]
pub struct BridgeConfig {
    pub ip: String,
    /// `(container_port, host_port)` pairs.
    pub ports: Vec<(u16, u16)>,
}

/// Pairs up container ports and the host ports allocated for them.
pub fn pair_ports(container_ports: &Vec<u16>, host_ports: &Vec<u16>) -> (pairs: Vec<(u16, u16)>)
    requires
        container_ports@.len() == host_ports@.len(),
    ensures
        pairs@.len() == container_ports@.len(),
        forall|i: int|
            0 <= i < pairs@.len() ==> #[trigger] pairs@[i] == (container_ports@[i], host_ports@[i]),
{
    let mut pairs: Vec<(u16, u16)> = Vec::new();
    let n: usize = container_ports.len();
    for i in 0..n
        invariant
            n == container_ports@.len(),
            n == host_ports@.len(),
            pairs@.len() == i,
            forall|j: int|
                0 <= j < i ==> #[trigger] pairs@[j] == (container_ports@[j], host_ports@[j]),
    {
        pairs.push((container_ports[i], host_ports[i]));
    }
    pairs
}

/// The `(host_port, container_port)` bindings of the new container.
pub open spec fn final_bindings(
    bridge: Option<Seq<(u16, u16)>>,
    declared: Seq<(u16, u16)>,
) -> Seq<(u16, u16)> {
    match bridge {
        Some(ports) => ports.map_values(|p: (u16, u16)| (p.1, p.0)),
        None => declared,
    }
}

/// A container is bound by the host ports that were allocated for it, each to
/// the container port that it was allocated for, and without any by what it
/// declared.
pub proof fn law_final_bindings(ports: Seq<(u16, u16)>, declared: Seq<(u16, u16)>, i: int)
    ensures
        final_bindings(None, declared) == declared,
        final_bindings(Some(ports), declared).len() == ports.len(),
        0 <= i < ports.len() ==> final_bindings(Some(ports), declared)[i].0 == ports[i].1
            && final_bindings(Some(ports), declared)[i].1 == ports[i].0,
{
}

pub open spec fn bridge_ports(bridge: Option<BridgeConfig>) -> Option<Seq<(u16, u16)>> {
    match bridge {
        Some(b) => Some(b.ports@),
        None => None,
    }
}

pub fn host_container_pairs(bridge: &Option<BridgeConfig>, opts: &CreateContainerOpts) -> (pairs: Vec<
    (u16, u16),
>)
    ensures
        pairs@ == final_bindings(bridge_ports(*bridge), opts@.port_bindings),
{
    let mut pairs: Vec<(u16, u16)> = Vec::new();
    match bridge {
        Some(b) => {
            let n: usize = b.ports.len();
            for i in 0..n
                invariant
                    n == b.ports@.len(),
                    pairs@.len() == i,
                    forall|j: int|
                        0 <= j < i ==> #[trigger] pairs@[j] == (b.ports@[j].1, b.ports@[j].0),
            {
                pairs.push((b.ports[i].1, b.ports[i].0));
            }
            assert(pairs@ =~= final_bindings(bridge_ports(*bridge), opts@.port_bindings));
        },
        None => {
            let n: usize = opts.port_bindings.len();
            for i in 0..n
                invariant
                    n == opts.port_bindings@.len(),
                    pairs@ == opts.port_bindings@.take(i as int),
            {
                pairs.push(opts.port_bindings[i]);
                assert(pairs@ =~= opts.port_bindings@.take(i + 1));
            }
            assert(opts.port_bindings@.take(n as int) =~= opts.port_bindings@);
        },
    }
    pairs
}

/// Labels with one more for each binding.
pub open spec fn with_bindings(
    labels: Map<Seq<char>, Seq<char>>,
    bindings: Seq<(u16, u16)>,
) -> Map<Seq<char>, Seq<char>>
    decreases bindings.len(),
{
    if bindings.len() == 0 {
        labels
    } else {
        with_bindings(labels, bindings.drop_last()).insert(
            port_forward::binding_key(bindings.last().1),
            numeral::decimal(bindings.last().0 as nat),
        )
    }
}

/// The labels of a new container: those of the image, overridden by the
/// user's, overridden by the ones that this crate and nerdctl go by.
pub open spec fn record_labels(
    image: Map<Seq<char>, Seq<char>>,
    user: Map<Seq<char>, Seq<char>>,
    mode: NetworkMode,
    bridge_ip: Option<Seq<char>>,
    bindings: Seq<(u16, u16)>,
    name: Seq<char>,
    namespace: Seq<char>,
) -> Map<Seq<char>, Seq<char>> {
    let base = image.union_prefer_right(user).insert(
        NETWORK_MODE_LABEL@,
        container::mode_label(mode),
    );
    let located = match bridge_ip {
        Some(ip) => base.insert(BRIDGE_IP_LABEL@, ip),
        None => base,
    };
    with_bindings(located, bindings).insert(NAME_LABEL@, name).insert("nerdctl/name"@, name).insert(
        "nerdctl/namespace"@,
        namespace,
    )
}

pub open spec fn bridge_address(bridge: Option<BridgeConfig>) -> Option<Seq<char>> {
    match bridge {
        Some(b) => Some(b.ip@),
        None => None,
    }
}

fn add_bindings(labels: &mut StringMap, bindings: &Vec<(u16, u16)>)
    ensures
        final(labels)@ == with_bindings(old(labels)@, bindings@),
{
    let ghost start = labels@;
    let n: usize = bindings.len();
    assert(bindings@.take(0) =~= Seq::<(u16, u16)>::empty());
    for i in 0..n
        invariant
            n == bindings@.len(),
            labels@ == with_bindings(start, bindings@.take(i as int)),
    {
        assert(bindings@.take(i + 1).drop_last() =~= bindings@.take(i as int));
        let (host_port, container_port) = bindings[i];
        let mut key = String::from_str(PORT_BINDING_LABEL_PREFIX);
        numeral::push_decimal(&mut key, container_port as u64);
        labels.insert(key, numeral::to_decimal(host_port as u64));
    }
    assert(bindings@.take(n as int) =~= bindings@);
}

/// The hooks of a new container.
pub open spec fn record_hooks(id: Seq<char>, bridge: Option<BridgeConfig>) -> Option<
    oci::HooksSpec,
> {
    match bridge {
        Some(b) => Some(container::bridge_hooks(id, b.ip@, b.ports@)),
        None => None,
    }
}

/// A container has hooks, an address and allocated ports exactly if they were
/// allocated for it, and they are those of its own bridge end.
pub proof fn law_bridge_record(id: Seq<char>, bridge: BridgeConfig)
    ensures
        record_hooks(id, None) is None && bridge_address(None) is None && bridge_ports(
            None,
        ) is None,
        record_hooks(id, Some(bridge)) == Some(
            container::bridge_hooks(id, bridge.ip@, bridge.ports@),
        ),
        bridge_address(Some(bridge)) == Some(bridge.ip@),
        bridge_ports(Some(bridge)) == Some(bridge.ports@),
{
}

/// Puts together the record of a new container. `bridge` holds what was
/// allocated for it, in bridge mode alone.
pub fn container_record(
    container_id: &str,
    name: &str,
    namespace: &str,
    image: &str,
    metadata: &ImageMetadata,
    opts: &CreateContainerOpts,
    bridge: &Option<BridgeConfig>,
) -> (out: Result<ContainerRecord>)
    ensures
        out matches Ok(r) && {
            &&& r.id@ == container_id@
            &&& r.image@ == image@
            &&& r.runtime matches Some(rt) && rt@ == DEFAULT_RUNTIME@
            &&& r.snapshotter@ == DEFAULT_SNAPSHOTTER@
            &&& r.snapshot_key@ == layer_key(container_id@, opts@.from_existing_snapshot)
            &&& r.labels@ == record_labels(
                metadata.config@.labels(),
                opts.labels@,
                opts@.mode,
                bridge_address(*bridge),
                final_bindings(bridge_ports(*bridge), opts@.port_bindings),
                name@,
                namespace@,
            )
            &&& r.spec matches Some(any) && container::is_spec(
                any,
                container::runtime_spec(
                    metadata.config@,
                    opts@,
                    record_hooks(container_id@, *bridge),
                ),
            )
        },
{
    let pairs = host_container_pairs(bridge, opts);
    let hooks = match bridge {
        Some(b) => Some(container::build_bridge_hooks(container_id, b.ip.as_str(), &b.ports)),
        None => None,
    };
    let spec = container::build_oci_spec(&metadata.config, opts, hooks);
    let any = match container::spec_to_any(&spec) {
        Ok(any) => any,
        Err(e) => {
            return Err(e);
        },
    };
    let mut labels = container::build_labels(&metadata.config, opts);
    labels.insert(
        String::from_str(NETWORK_MODE_LABEL),
        String::from_str(opts.network.mode.label_value()),
    );
    if let Some(b) = bridge {
        labels.insert(String::from_str(BRIDGE_IP_LABEL), b.ip.clone());
    }
    add_bindings(&mut labels, &pairs);
    labels.insert(String::from_str(NAME_LABEL), String::from_str(name));
    labels.insert(String::from_str("nerdctl/name"), String::from_str(name));
    labels.insert(String::from_str("nerdctl/namespace"), String::from_str(namespace));
    Ok(
        ContainerRecord {
            id: String::from_str(container_id),
            image: String::from_str(image),
            runtime: Some(String::from_str(DEFAULT_RUNTIME)),
            spec: Some(any),
            snapshotter: String::from_str(DEFAULT_SNAPSHOTTER),
            snapshot_key: layer_key_for(container_id, opts),
            labels,
        },
    )
}

/// Where creating a container stands.
#[derive(Debug, Clone, Copy, PartialEq, Eq, Structural)]
pub enum CreatePhase {
    /// Look for containers that have the name already.
    CheckName,
    /// Look the image up.
    GetImage,
    /// Read the image's manifest and configuration.
    ReadMetadata,
    /// Prepare the writable layer on top of the image's layers.
    Prepare,
    /// Allocate a bridge address and host ports.
    Allocate,
    /// Store the record.
    Store,
    /// Remove the writable layer again; otherwise it would leak.
    RollBack,
    Finished,
}

/// An ongoing creation of a container.
#[derive(Debug)]
pub struct CreateOp {
    pub container_id: String,
    pub name: String,
    /// Whether the writable layer was prepared by someone else, who removes it
    /// again.
    pub adopted: bool,
    pub mode: NetworkMode,
    pub phase: CreatePhase,
    /// What the creation fails with, once it failed.
    pub error: Option<Error>,
}

#[verifier::ext_equal]
pub struct CreateOpSpec {
    pub container_id: Seq<char>,
    pub name: Seq<char>,
    pub adopted: bool,
    pub mode: NetworkMode,
    pub phase: CreatePhase,
    pub error: Option<ErrorSpec>,
}

impl View for CreateOp {
    type V = CreateOpSpec;

    open spec fn view(&self) -> CreateOpSpec {
        CreateOpSpec {
            container_id: self.container_id@,
            name: self.name@,
            adopted: self.adopted,
            mode: self.mode,
            phase: self.phase,
            error: error::opt_error(self.error),
        }
    }
}

impl CreateOpSpec {
    pub open spec fn at(self, phase: CreatePhase) -> CreateOpSpec {
        CreateOpSpec { phase, ..self }
    }

    pub open spec fn failed(self, e: ErrorSpec) -> CreateOpSpec {
        CreateOpSpec { phase: CreatePhase::Finished, error: Some(e), ..self }
    }

    /// The phase that follows once there is a writable layer: only bridge mode
    /// takes an allocation.
    pub open spec fn with_layer(self) -> CreateOpSpec {
        self.at(
            if self.mode == NetworkMode::Bridge {
                CreatePhase::Allocate
            } else {
                CreatePhase::Store
            },
        )
    }

    /// What follows what came of the current phase. Only a record that
    /// containerd refuses to store is rolled back, and only by removing a
    /// layer that was prepared here.
    pub open spec fn next(self, ev: StepEventSpec) -> CreateOpSpec {
        match self.phase {
            CreatePhase::CheckName => if ev.ok() {
                self.at(CreatePhase::GetImage)
            } else {
                self.failed(ev.error("list_containers_for_name_check"@))
            },
            CreatePhase::GetImage => if ev.ok() {
                self.at(CreatePhase::ReadMetadata)
            } else {
                self.failed(ev.error("get_image"@))
            },
            CreatePhase::ReadMetadata => if !ev.ok() {
                self.failed(ev.error("read_content"@))
            } else if self.adopted {
                self.with_layer()
            } else {
                self.at(CreatePhase::Prepare)
            },
            CreatePhase::Prepare => if ev.ok() {
                self.with_layer()
            } else if ev.code() == Some(Code::AlreadyExists) {
                self.failed(ErrorSpec::ContainerAlreadyExists(self.name))
            } else {
                self.failed(ev.error("prepare_snapshot"@))
            },
            CreatePhase::Allocate => if ev.ok() {
                self.at(CreatePhase::Store)
            } else {
                self.failed(ev.error("list_containers"@))
            },
            CreatePhase::Store => match ev {
                StepEventSpec::Refused(status) => {
                    let e = if status.code == Code::AlreadyExists {
                        ErrorSpec::ContainerAlreadyExists(self.name)
                    } else {
                        ErrorSpec::Containerd { op: "create_container"@, source: status }
                    };
                    CreateOpSpec {
                        phase: if self.adopted {
                            CreatePhase::Finished
                        } else {
                            CreatePhase::RollBack
                        },
                        ..self.failed(e)
                    }
                },
                StepEventSpec::Failed(e) => self.failed(e),
                _ => self.at(CreatePhase::Finished),
            },
            CreatePhase::RollBack => self.at(CreatePhase::Finished),
            CreatePhase::Finished => self,
        }
    }

    /// The call to the snapshotter that the current phase takes, if the image's
    /// layers are the snapshot `chain_id`.
    pub open spec fn call(self, chain_id: Seq<char>) -> Option<SnapshotCallSpec> {
        let snapshotter = DEFAULT_SNAPSHOTTER@;
        let key = container::snapshot_key(self.container_id);
        match self.phase {
            CreatePhase::Prepare => Some(
                SnapshotCallSpec::Prepare { snapshotter, key, parent: chain_id },
            ),
            CreatePhase::RollBack => Some(SnapshotCallSpec::Remove { snapshotter, key }),
            _ => None,
        }
    }

    /// The creation after all of `evs`.
    pub open spec fn run(self, evs: Seq<StepEventSpec>) -> CreateOpSpec
        decreases evs.len(),
    {
        if evs.len() == 0 {
            self
        } else {
            self.run(evs.drop_last()).next(evs.last())
        }
    }

    /// Whether, in the course of `evs`, `phase` was come to and went well.
    #[verifier::opaque]
    pub open spec fn went_well(self, evs: Seq<StepEventSpec>, phase: CreatePhase) -> bool {
        exists|i: int|
            0 <= i < evs.len() && self.run(evs.take(i)).phase == phase && (#[trigger] evs[i]).ok()
    }

    /// How many phases are left at most.
    pub open spec fn rank(self) -> nat {
        match self.phase {
            CreatePhase::CheckName => 7,
            CreatePhase::GetImage => 6,
            CreatePhase::ReadMetadata => 5,
            CreatePhase::Prepare => 4,
            CreatePhase::Allocate => 3,
            CreatePhase::Store => 2,
            CreatePhase::RollBack => 1,
            CreatePhase::Finished => 0,
        }
    }
}

impl CreateOp {
    /// Begins the creation of a container; its name must be a valid
    /// identifier.
    pub fn begin(container_id: &str, name: &str, opts: &CreateContainerOpts) -> (out: Result<Self>)
        ensures
            match out {
                Ok(op) => util::valid_identifier(text::utf8(name@)) && op@ == (CreateOpSpec {
                    container_id: container_id@,
                    name: name@,
                    adopted: opts@.from_existing_snapshot is Some,
                    mode: opts@.mode,
                    phase: CreatePhase::CheckName,
                    error: None,
                }),
                Err(e) => !util::valid_identifier(text::utf8(name@)) && e@
                    == ErrorSpec::InvalidArgument(util::identifier_complaint(name@)),
            },
    {
        match util::validate_identifier(name) {
            Ok(_) => Ok(
                CreateOp {
                    container_id: String::from_str(container_id),
                    name: String::from_str(name),
                    adopted: opts.from_existing_snapshot.is_some(),
                    mode: opts.network.mode,
                    phase: CreatePhase::CheckName,
                    error: None,
                },
            ),
            Err(e) => Err(e),
        }
    }

    fn fail(&mut self, e: Error)
        ensures
            final(self)@ == old(self)@.failed(e@),
    {
        self.phase = CreatePhase::Finished;
        self.error = Some(e);
    }

    fn with_layer(&mut self)
        ensures
            final(self)@ == old(self)@.with_layer(),
    {
        self.phase = if self.mode == NetworkMode::Bridge {
            CreatePhase::Allocate
        } else {
            CreatePhase::Store
        };
    }

    /// Takes in what came of the current phase.
    pub fn advance(&mut self, ev: StepEvent)
        ensures
            final(self)@ == old(self)@.next(ev@),
    {
        match self.phase {
            CreatePhase::CheckName => {
                if ev.is_ok() {
                    self.phase = CreatePhase::GetImage;
                } else {
                    self.fail(ev.into_error("list_containers_for_name_check"));
                }
            },
            CreatePhase::GetImage => {
                if ev.is_ok() {
                    self.phase = CreatePhase::ReadMetadata;
                } else {
                    self.fail(ev.into_error("get_image"));
                }
            },
            CreatePhase::ReadMetadata => {
                if !ev.is_ok() {
                    self.fail(ev.into_error("read_content"));
                } else if self.adopted {
                    self.with_layer();
                } else {
                    self.phase = CreatePhase::Prepare;
                }
            },
            CreatePhase::Prepare => {
                if ev.is_ok() {
                    self.with_layer();
                } else if ev.refusal() == Some(Code::AlreadyExists) {
                    self.fail(Error::ContainerAlreadyExists(self.name.clone()));
                } else {
                    self.fail(ev.into_error("prepare_snapshot"));
                }
            },
            CreatePhase::Allocate => {
                if ev.is_ok() {
                    self.phase = CreatePhase::Store;
                } else {
                    self.fail(ev.into_error("list_containers"));
                }
            },
            CreatePhase::Store => match ev {
                StepEvent::Refused(status) => {
                    if status.code == Code::AlreadyExists {
                        self.fail(Error::ContainerAlreadyExists(self.name.clone()));
                    } else {
                        self.fail(util::into_crate_error(status, "create_container"));
                    }
                    if !self.adopted {
                        self.phase = CreatePhase::RollBack;
                    }
                },
                StepEvent::Failed(e) => {
                    self.fail(e);
                },
                _ => {
                    self.phase = CreatePhase::Finished;
                },
            },
            CreatePhase::RollBack => {
                self.phase = CreatePhase::Finished;
            },
            CreatePhase::Finished => {},
        }
    }

    /// The call to the snapshotter that the current phase takes.
    pub fn call(&self, chain_id: &str) -> (call: Option<SnapshotCall>)
        ensures
            snapshot_util::opt_call(call) == self@.call(chain_id@),
    {
        let key = container::snapshot_key_for(self.container_id.as_str());
        match self.phase {
            CreatePhase::Prepare => Some(
                SnapshotCall::prepare(DEFAULT_SNAPSHOTTER, key.as_str(), chain_id),
            ),
            CreatePhase::RollBack => Some(SnapshotCall::remove(DEFAULT_SNAPSHOTTER, key.as_str())),
            _ => None,
        }
    }

    /// The result of a finished creation.
    pub fn outcome(self) -> (out: Result<()>)
        ensures
            match out {
                Ok(_) => self@.error is None,
                Err(e) => self@.error == Some(e@),
            },
    {
        match self.error {
            Some(e) => Err(e),
            None => Ok(()),
        }
    }
}

/// What happened before the last event has happened after it, and what the
/// last event tells of has happened too.
proof fn lemma_create_step(begin: CreateOpSpec, evs: Seq<StepEventSpec>, phase: CreatePhase)
    requires
        evs.len() > 0,
    ensures
        begin.went_well(evs.drop_last(), phase) ==> begin.went_well(evs, phase),
        begin.run(evs.drop_last()).phase == phase && evs.last().ok() ==> begin.went_well(evs, phase),
{
    reveal(CreateOpSpec::went_well);
    let less = evs.drop_last();
    let k = less.len() as int;
    assert(evs.take(k) =~= less);
    assert(evs[k] == evs.last());
    if begin.went_well(less, phase) {
        let i = choose|i: int|
            0 <= i < less.len() && begin.run(less.take(i)).phase == phase && (
            #[trigger] less[i]).ok();
        assert(evs.take(i) =~= less.take(i));
        assert(evs[i] == less[i]);
    }
}

/// What has happened once a creation came to a phase.
proof fn lemma_create_run(begin: CreateOpSpec, evs: Seq<StepEventSpec>)
    requires
        begin.phase == CreatePhase::CheckName,
        begin.error is None,
    ensures
        ({
            let op = begin.run(evs);
            let succeeded = op.error is None && op.phase == CreatePhase::Finished;
            let has_layer = op.phase == CreatePhase::Allocate || op.phase == CreatePhase::Store
                || op.phase == CreatePhase::RollBack;
            let name_free = op.phase != CreatePhase::CheckName && op.phase != CreatePhase::Finished;
            &&& op.container_id == begin.container_id
            &&& op.name == begin.name
            &&& op.adopted == begin.adopted
            &&& op.mode == begin.mode
            &&& op.rank() + evs.len() <= 7 || op.phase == CreatePhase::Finished
            &&& op.error is Some ==> op.phase == CreatePhase::RollBack || op.phase
                == CreatePhase::Finished
            &&& op.phase == CreatePhase::RollBack ==> op.error is Some && !op.adopted
            &&& op.phase == CreatePhase::Prepare ==> !op.adopted
            &&& name_free || succeeded ==> begin.went_well(evs, CreatePhase::CheckName)
            &&& (has_layer || succeeded) && !op.adopted ==> begin.went_well(
                evs,
                CreatePhase::Prepare,
            )
            &&& (op.phase == CreatePhase::Store || succeeded) && op.mode == NetworkMode::Bridge
                ==> begin.went_well(evs, CreatePhase::Allocate)
            &&& succeeded ==> begin.went_well(evs, CreatePhase::Store)
        }),
    decreases evs.len(),
{
    if evs.len() > 0 {
        lemma_create_run(begin, evs.drop_last());
        lemma_create_step(begin, evs, CreatePhase::CheckName);
        lemma_create_step(begin, evs, CreatePhase::Prepare);
        lemma_create_step(begin, evs, CreatePhase::Allocate);
        lemma_create_step(begin, evs, CreatePhase::Store);
    }
}

/// Whatever happens, a creation is over after at most seven steps.
pub proof fn law_create_ends(begin: CreateOpSpec, evs: Seq<StepEventSpec>)
    requires
        begin.phase == CreatePhase::CheckName,
        begin.error is None,
        evs.len() >= 7,
    ensures
        begin.run(evs).phase == CreatePhase::Finished,
{
    lemma_create_run(begin, evs);
}

/// A creation that ends without an error found its name free and stored the
/// record: on a writable layer that it prepared, unless one was handed to it,
/// and in bridge mode with an address and ports that were allocated before.
pub proof fn law_create_success(begin: CreateOpSpec, evs: Seq<StepEventSpec>)
    requires
        begin.phase == CreatePhase::CheckName,
        begin.error is None,
        begin.run(evs).phase == CreatePhase::Finished,
        begin.run(evs).error is None,
    ensures
        begin.went_well(evs, CreatePhase::CheckName),
        begin.went_well(evs, CreatePhase::Store),
        !begin.adopted ==> begin.went_well(evs, CreatePhase::Prepare),
        begin.mode == NetworkMode::Bridge ==> begin.went_well(evs, CreatePhase::Allocate),
{
    lemma_create_run(begin, evs);
}

/// A creation touches no writable layer but the container's own, leaves one
/// that was handed to it alone, and removes only what it prepared.
pub proof fn law_create_calls(begin: CreateOpSpec, evs: Seq<StepEventSpec>, chain_id: Seq<char>)
    requires
        begin.phase == CreatePhase::CheckName,
        begin.error is None,
    ensures
        match begin.run(evs).call(chain_id) {
            Some(SnapshotCallSpec::Prepare { key, parent, .. }) => key == container::snapshot_key(
                begin.container_id,
            ) && parent == chain_id && !begin.adopted,
            Some(SnapshotCallSpec::Remove { key, .. }) => key == container::snapshot_key(
                begin.container_id,
            ) && !begin.adopted && begin.went_well(evs, CreatePhase::Prepare),
            Some(_) => false,
            None => true,
        },
{
    lemma_create_run(begin, evs);
}

proof fn lemma_create_all_well(begin: CreateOpSpec, evs: Seq<StepEventSpec>)
    requires
        begin.phase == CreatePhase::CheckName,
        begin.error is None,
        forall|i: int| 0 <= i < evs.len() ==> #[trigger] evs[i] == StepEventSpec::Done,
    ensures
        begin.run(evs).error is None,
    decreases evs.len(),
{
    if evs.len() > 0 {
        let less = evs.drop_last();
        assert forall|i: int| 0 <= i < less.len() implies #[trigger] less[i]
            == StepEventSpec::Done by {
            assert(less[i] == evs[i]);
        }
        lemma_create_all_well(begin, less);
        lemma_create_run(begin, less);
        assert(evs.last() == evs[evs.len() - 1]);
    }
}

/// A creation whose steps all go well succeeds.
pub proof fn law_create_all_well(begin: CreateOpSpec, evs: Seq<StepEventSpec>)
    requires
        begin.phase == CreatePhase::CheckName,
        begin.error is None,
        evs.len() >= 7,
        forall|i: int| 0 <= i < evs.len() ==> #[trigger] evs[i] == StepEventSpec::Done,
    ensures
        begin.run(evs).phase == CreatePhase::Finished,
        begin.run(evs).error is None,
{
    lemma_create_all_well(begin, evs);
    lemma_create_run(begin, evs);
}

/// A step that goes wrong makes the creation fail with what went wrong: an
/// error as it is, a refusal as containerd gave it, or as an existing container
/// if the layer or the record is there already. Nothing more is done, except
/// that a layer that was prepared for a record that is refused is removed
/// again.
pub proof fn law_create_failure(op: CreateOpSpec, e: ErrorSpec, s: crate::error::StatusSpec)
    requires
        op.phase != CreatePhase::RollBack,
        op.phase != CreatePhase::Finished,
    ensures
        ({
            let failed = op.next(StepEventSpec::Failed(e));
            let refused = op.next(StepEventSpec::Refused(s));
            let stored = op.phase == CreatePhase::Store;
            &&& failed.error == Some(e)
            &&& failed.phase == CreatePhase::Finished
            &&& s.code == Code::AlreadyExists && (stored || op.phase == CreatePhase::Prepare)
                ==> refused.error == Some(ErrorSpec::ContainerAlreadyExists(op.name))
            &&& !(s.code == Code::AlreadyExists && (stored || op.phase == CreatePhase::Prepare))
                ==> (refused.error matches Some(ErrorSpec::Containerd { source, .. }) && source
                == s)
            &&& refused.phase == if stored && !op.adopted {
                CreatePhase::RollBack
            } else {
                CreatePhase::Finished
            }
        }),
{
}

/// A layer of its own is prepared for a new container exactly if none was handed
/// over, an address and ports are allocated exactly in bridge mode, and what
/// went wrong before a layer is removed again stays the error.
pub proof fn law_create_steps(op: CreateOpSpec, ev: StepEventSpec)
    ensures
        op.phase == CreatePhase::CheckName && ev == StepEventSpec::Done ==> op.next(ev).phase
            == CreatePhase::GetImage,
        op.phase == CreatePhase::GetImage && ev == StepEventSpec::Done ==> op.next(ev).phase
            == CreatePhase::ReadMetadata,
        op.phase == CreatePhase::ReadMetadata && ev == StepEventSpec::Done && !op.adopted
            ==> op.next(ev).phase == CreatePhase::Prepare,
        ev == StepEventSpec::Done && (op.phase == CreatePhase::Prepare || (op.phase
            == CreatePhase::ReadMetadata && op.adopted)) ==> op.next(ev).phase == if op.mode
            == NetworkMode::Bridge {
            CreatePhase::Allocate
        } else {
            CreatePhase::Store
        },
        op.phase == CreatePhase::Allocate && ev == StepEventSpec::Done ==> op.next(ev).phase
            == CreatePhase::Store,
        op.phase == CreatePhase::RollBack ==> op.next(ev).phase == CreatePhase::Finished
            && op.next(ev).error == op.error,
        op.next(ev).container_id == op.container_id && op.next(ev).name == op.name,
        op.next(ev).adopted == op.adopted && op.next(ev).mode == op.mode,
{
}

/// The layer of a new container, named after it, is prepared on top of the
/// image's layers; to roll back is to remove that layer. No other phase calls
/// the snapshotter.
pub proof fn law_create_call(op: CreateOpSpec, chain_id: Seq<char>)
    ensures
        ({
            let key = op.container_id + "-snapshot"@;
            op.call(chain_id) == match op.phase {
                CreatePhase::Prepare => Some(
                    SnapshotCallSpec::Prepare { snapshotter: "overlayfs"@, key, parent: chain_id },
                ),
                CreatePhase::RollBack => Some(
                    SnapshotCallSpec::Remove { snapshotter: "overlayfs"@, key },
                ),
                _ => None,
            }
        }),
{
}

/// Bindings leave every label alone that is no binding label.
proof fn lemma_bindings_frame(
    labels: Map<Seq<char>, Seq<char>>,
    bindings: Seq<(u16, u16)>,
    key: Seq<char>,
)
    requires
        !PORT_BINDING_LABEL_PREFIX@.is_prefix_of(key),
    ensures
        with_bindings(labels, bindings).dom().contains(key) == labels.dom().contains(key),
        labels.dom().contains(key) ==> with_bindings(labels, bindings)[key] == labels[key],
    decreases bindings.len(),
{
    if bindings.len() > 0 {
        lemma_bindings_frame(labels, bindings.drop_last(), key);
        let own = port_forward::binding_key(bindings.last().1);
        let prefix = PORT_BINDING_LABEL_PREFIX@;
        assert(own.subrange(0, prefix.len() as int) =~= prefix);
        assert(own != key);
    }
}

/// Neither the image nor the user can override the labels that the crate goes
/// by: network mode, bridge address and name are always what was decided.
pub proof fn law_managed_labels_win(
    image: Map<Seq<char>, Seq<char>>,
    user: Map<Seq<char>, Seq<char>>,
    mode: NetworkMode,
    ip: Option<Seq<char>>,
    bindings: Seq<(u16, u16)>,
    name: Seq<char>,
    namespace: Seq<char>,
)
    ensures
        ({
            let labels = record_labels(image, user, mode, ip, bindings, name, namespace);
            &&& labels.dom().contains(NETWORK_MODE_LABEL@) && labels[NETWORK_MODE_LABEL@]
                == container::mode_label(mode)
            &&& ip matches Some(a) ==> labels.dom().contains(BRIDGE_IP_LABEL@)
                && labels[BRIDGE_IP_LABEL@] == a
            &&& labels.dom().contains(NAME_LABEL@) && labels[NAME_LABEL@] == name
        }),
{
    reveal_strlit("containerd-manager.network.mode");
    reveal_strlit("containerd-manager.bridge.ip");
    reveal_strlit("containerd-manager.name");
    reveal_strlit("containerd-manager.port.");
    reveal_strlit("nerdctl/name");
    reveal_strlit("nerdctl/namespace");
    let prefix = PORT_BINDING_LABEL_PREFIX@;
    assert(NETWORK_MODE_LABEL@[19] == 'n' && prefix[19] == 'p');
    assert(BRIDGE_IP_LABEL@[19] == 'b');
    assert(NAME_LABEL@[0] == 'c' && "nerdctl/name"@[0] == 'n' && "nerdctl/namespace"@[0] == 'n');
    assert(NETWORK_MODE_LABEL@[0] == 'c' && BRIDGE_IP_LABEL@[0] == 'c');
    assert(NAME_LABEL@.len() != NETWORK_MODE_LABEL@.len());
    assert(NAME_LABEL@.len() != BRIDGE_IP_LABEL@.len());
    assert(NETWORK_MODE_LABEL@ != BRIDGE_IP_LABEL@);
    let base = image.union_prefer_right(user).insert(
        NETWORK_MODE_LABEL@,
        container::mode_label(mode),
    );
    let located = match ip {
        Some(a) => base.insert(BRIDGE_IP_LABEL@, a),
        None => base,
    };
    lemma_bindings_frame(located, bindings, NETWORK_MODE_LABEL@);
    lemma_bindings_frame(located, bindings, BRIDGE_IP_LABEL@);
}

/// Every other label of a new container comes from the image or the user, and
/// from the user where both have it; none of theirs is lost. Nerdctl finds the
/// container by its name and namespace.
pub proof fn law_other_labels_are_kept(
    image: Map<Seq<char>, Seq<char>>,
    user: Map<Seq<char>, Seq<char>>,
    mode: NetworkMode,
    ip: Option<Seq<char>>,
    bindings: Seq<(u16, u16)>,
    name: Seq<char>,
    namespace: Seq<char>,
    key: Seq<char>,
)
    ensures
        ({
            let labels = record_labels(image, user, mode, ip, bindings, name, namespace);
            let decided = key == "containerd-manager.network.mode"@ || key
                == "containerd-manager.bridge.ip"@ || key == "containerd-manager.name"@ || key
                == "nerdctl/name"@ || key == "nerdctl/namespace"@
                || "containerd-manager.port."@.is_prefix_of(key);
            &&& !decided && user.dom().contains(key) ==> labels.dom().contains(key) && labels[key]
                == user[key]
            &&& !decided && !user.dom().contains(key) && image.dom().contains(key)
                ==> labels.dom().contains(key) && labels[key] == image[key]
            &&& !decided && !user.dom().contains(key) && !image.dom().contains(key)
                ==> !labels.dom().contains(key)
            &&& labels.dom().contains("nerdctl/name"@) && labels["nerdctl/name"@] == name
            &&& labels.dom().contains("nerdctl/namespace"@) && labels["nerdctl/namespace"@]
                == namespace
        }),
{
    reveal_strlit("nerdctl/name");
    reveal_strlit("nerdctl/namespace");
    assert("nerdctl/name"@.len() != "nerdctl/namespace"@.len());
    let base = image.union_prefer_right(user).insert(
        NETWORK_MODE_LABEL@,
        container::mode_label(mode),
    );
    let located = match ip {
        Some(a) => base.insert(BRIDGE_IP_LABEL@, a),
        None => base,
    };
    if !PORT_BINDING_LABEL_PREFIX@.is_prefix_of(key) {
        lemma_bindings_frame(located, bindings, key);
    }
}

/// A container without bindings shows none, unless its image or its user
/// declares some by a label of their own.
pub proof fn law_no_bindings_are_shown(
    info: ContainerInfo,
    record: ContainerRecord,
    task: Option<TaskInfo>,
    image: Map<Seq<char>, Seq<char>>,
    user: Map<Seq<char>, Seq<char>>,
    mode: NetworkMode,
    ip: Option<Seq<char>>,
    name: Seq<char>,
    namespace: Seq<char>,
)
    requires
        inspect::shows(info, record, task),
        record.labels@ == record_labels(image, user, mode, ip, Seq::empty(), name, namespace),
        forall|key: Seq<char>| #[trigger]
            PORT_BINDING_LABEL_PREFIX@.is_prefix_of(key) ==> !image.dom().contains(key)
                && !user.dom().contains(key),
    ensures
        forall|key: Seq<char>| #[trigger]
            PORT_BINDING_LABEL_PREFIX@.is_prefix_of(key) ==> !record.labels@.dom().contains(key),
        info.port_forwards@ == Seq::<(u16, u16)>::empty(),
{
    let prefix = PORT_BINDING_LABEL_PREFIX@;
    let labels = record.labels@;
    let pairs = record.labels.pairs();
    assert forall|key: Seq<char>| #[trigger] prefix.is_prefix_of(key) implies !labels.dom().contains(
        key,
    ) by {
        reveal_strlit("containerd-manager.network.mode");
        reveal_strlit("containerd-manager.bridge.ip");
        reveal_strlit("containerd-manager.name");
        reveal_strlit("containerd-manager.port.");
        reveal_strlit("nerdctl/name");
        reveal_strlit("nerdctl/namespace");
        assert(key[0] == prefix[0] && key[19] == prefix[19]);
        assert(prefix[0] == 'c' && prefix[19] == 'p');
        assert(NETWORK_MODE_LABEL@[19] == 'n');
        assert(BRIDGE_IP_LABEL@[19] == 'b');
        assert(NAME_LABEL@[19] == 'n');
        assert("nerdctl/name"@[0] == 'n' && "nerdctl/namespace"@[0] == 'n');
    }
    if info.port_forwards@.len() > 0 {
        let b = info.port_forwards@[0];
        assert(port_forward::bindings(pairs).contains(b));
        port_forward::law_bindings_are_declared(pairs, b);
        let i = choose|i: int|
            0 <= i < pairs.len() && port_forward::binding((#[trigger] pairs[i]).0, pairs[i].1)
                == Some(b);
        maps::lemma_key_index(pairs, pairs[i].0);
        assert(prefix.is_prefix_of(pairs[i].0));
    }
    assert(info.port_forwards@ =~= Seq::<(u16, u16)>::empty());
}

/// Every binding of a new container is found again in its labels, unless a
/// later binding of the same container port replaced it.
pub proof fn law_bindings_are_recorded(
    labels: Map<Seq<char>, Seq<char>>,
    bindings: Seq<(u16, u16)>,
    i: int,
)
    requires
        0 <= i < bindings.len(),
        forall|j: int| i < j < bindings.len() ==> (#[trigger] bindings[j]).1 != bindings[i].1,
    ensures
        ({
            let key = port_forward::binding_key(bindings[i].1);
            let all = with_bindings(labels, bindings);
            &&& all.dom().contains(key)
            &&& port_forward::binding(key, all[key]) == Some(bindings[i])
        }),
    decreases bindings.len(),
{
    let (host_port, container_port) = bindings[i];
    let front = bindings.drop_last();
    if i == bindings.len() - 1 {
        port_forward::law_binding_label_round_trip(host_port, container_port);
    } else {
        assert forall|j: int| i < j < front.len() implies (#[trigger] front[j]).1
            != front[i].1 by {
            assert(bindings[j].1 != bindings[i].1);
        }
        law_bindings_are_recorded(labels, front, i);
        assert(bindings[bindings.len() - 1].1 != bindings[i].1);
        port_forward::law_binding_label_round_trip(host_port, container_port);
        port_forward::law_binding_label_round_trip(
            bindings.last().0,
            bindings.last().1,
        );
        let own = port_forward::binding_key(bindings.last().1);
        let key = port_forward::binding_key(container_port);
        if own == key {
            assert(port_forward::binding(own, numeral::decimal(0)) == port_forward::binding(
                key,
                numeral::decimal(0),
            ));
            port_forward::law_binding_label_round_trip(0, bindings.last().1);
            port_forward::law_binding_label_round_trip(0, container_port);
        }
    }
}

/// A container shows what it was created with: the merged environment and,
/// where mounts were asked for, exactly those.
pub proof fn law_inspect_shows_what_was_created(
    info: ContainerInfo,
    record: ContainerRecord,
    task: Option<TaskInfo>,
    image: oci::ImageConfigSpec,
    opts: container::CreateOptsSpec,
    hooks: Option<oci::HooksSpec>,
)
    requires
        inspect::shows(info, record, task),
        record.spec matches Some(any) && container::is_spec(
            any,
            container::runtime_spec(image, opts, hooks),
        ),
        container::plain_keys(opts.env),
    ensures
        info.env.pairs() == container::merged_env(image, opts.env),
        opts.mounts.len() > 0 ==> maps::pair_views(info.mounts@) == opts.mounts.map_values(
            |m: container::MountOptSpec| (m.source, m.destination),
        ),
{
    container::law_merged_env_is_read_back(image, opts.env);
    if opts.mounts.len() > 0 {
        let shown = maps::pair_views(info.mounts@);
        let want = opts.mounts.map_values(
            |m: container::MountOptSpec| (m.source, m.destination),
        );
        let raw = (record.spec->0).value@;
        let fields = oci::runtime_document(raw)->Ok_0;
        assert(fields.mounts == Some(container::oci_mounts(opts.mounts)));
        assert(shown == inspect::mount_list(fields.mount_ends()));
        assert(shown.len() == want.len());
        assert forall|i: int| 0 <= i < want.len() implies shown[i] == want[i] by {
            assert(container::oci_mounts(opts.mounts)[i] == container::oci_mount(opts.mounts[i]));
        }
        assert(shown =~= want);
    }
}

/// Every binding of a new container is among the port forwards that it shows,
/// unless a later binding of the same container port replaced it.
pub proof fn law_created_bindings_are_shown(
    info: ContainerInfo,
    record: ContainerRecord,
    task: Option<TaskInfo>,
    image: Map<Seq<char>, Seq<char>>,
    user: Map<Seq<char>, Seq<char>>,
    mode: NetworkMode,
    ip: Option<Seq<char>>,
    bindings: Seq<(u16, u16)>,
    name: Seq<char>,
    namespace: Seq<char>,
    i: int,
)
    requires
        inspect::shows(info, record, task),
        record.labels@ == record_labels(image, user, mode, ip, bindings, name, namespace),
        0 <= i < bindings.len(),
        forall|j: int| i < j < bindings.len() ==> (#[trigger] bindings[j]).1 != bindings[i].1,
    ensures
        info.port_forwards@.contains(bindings[i]),
{
    let base = image.union_prefer_right(user).insert(
        NETWORK_MODE_LABEL@,
        container::mode_label(mode),
    );
    let located = match ip {
        Some(a) => base.insert(BRIDGE_IP_LABEL@, a),
        None => base,
    };
    law_bindings_are_recorded(located, bindings, i);
    let key = port_forward::binding_key(bindings[i].1);
    let prefix = PORT_BINDING_LABEL_PREFIX@;
    reveal_strlit("containerd-manager.port.");
    reveal_strlit("containerd-manager.name");
    reveal_strlit("nerdctl/name");
    reveal_strlit("nerdctl/namespace");
    assert(key[0] == prefix[0] && key[19] == prefix[19]);
    assert(NAME_LABEL@[19] == 'n' && prefix[19] == 'p');
    assert("nerdctl/name"@[0] == 'n' && "nerdctl/namespace"@[0] == 'n' && prefix[0] == 'c');
    let labels = record.labels@;
    assert(labels.dom().contains(key));
    assert(labels[key] == with_bindings(located, bindings)[key]);
    let pairs = record.labels.pairs();
    maps::lemma_key_index(pairs, key);
    let k = maps::key_index(pairs, key)->0;
    assert(port_forward::binding(pairs[k].0, pairs[k].1) == Some(bindings[i]));
    port_forward::law_bindings_are_declared(pairs, bindings[i]);
}

} // verus!
