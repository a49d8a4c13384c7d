//! Named snapshot + restore of container rootfs.
//!
//! - `SnapshotOp`: freezes the writable layer into a named base.
//! - `RestoreOp`: instantiates a new container from a base.
//! - `ResetOp`: rewinds an existing container's rootfs in place, preserving
//!   network identity (bridge IP, host ports) and the OCI spec.
//! - `snapshot_info` / `delete_snapshot`: lifecycle.
//!
//! Snapshots carry [`MANAGED_LABEL`] + [`IMAGE_LABEL`]. Restore, reset, and
//! delete reject snapshots missing these so callers can't accidentally touch
//! image-layer or third-party snapshots.

use vstd::prelude::*;

use crate::consts::{DEFAULT_SNAPSHOTTER, PORT_BINDING_LABEL_PREFIX};
use crate::container;
use crate::container::{CreateContainerOpts, NetworkMode, NetworkOpts};
use crate::create;
use crate::error;
use crate::error::{Code, Error, ErrorSpec, Result, Status};
use crate::inspect;
use crate::inspect::ContainerRecord;
use crate::maps;
use crate::maps::StringMap;
use crate::snapshot_util;
use crate::snapshot_util::{SnapshotCall, SnapshotCallSpec, StepEvent, StepEventSpec};
use crate::text;
use crate::time::{Duration, SystemTime, NANOS_PER_MILLI};
use crate::types::{ContainerInfo, TaskInfo};

verus! {

/// Source image ref. Restore reads this so callers needn't remember it.
pub const IMAGE_LABEL: &'static str = "containerd-manager.snapshot.image";

/// Marker filtering our snapshots from image-layer / runtime / stargz ones.
pub const MANAGED_LABEL: &'static str = "containerd-manager.snapshot.managed";

/// Free-form description surfaced by listing snapshots.
pub const DESCRIPTION_LABEL: &'static str = "containerd-manager.snapshot.description";

/// Attempts to prepare the writable layer of a container that is reset.
pub const RESET_ATTEMPTS: u32 = 5;

#[derive(Debug)]
pub struct SnapshotContainerOpts {
    /// Restart the source after committing its writable layer. Default
    /// `false`: the most common workflow is "prime, snapshot, leave stopped,
    /// restore N times".
    pub restart_src: bool,
    /// Free-form description stored alongside the snapshot.
    pub description: Option<String>,
}

impl Default for SnapshotContainerOpts {
    fn default() -> (o: Self)
        ensures
            !o.restart_src,
            o.description is None,
    {
        SnapshotContainerOpts { restart_src: false, description: None }
    }
}

/// Sets the fields of [`SnapshotContainerOpts`] one by one.
pub struct SnapshotContainerOptsBuilder {
    pub opts: SnapshotContainerOpts,
}

impl SnapshotContainerOptsBuilder {
    pub fn restart_src(self, restart: bool) -> (b: Self)
        ensures
            b.opts == (SnapshotContainerOpts { restart_src: restart, ..self.opts }),
    {
        SnapshotContainerOptsBuilder {
            opts: SnapshotContainerOpts { restart_src: restart, ..self.opts },
        }
    }

    pub fn description(self, text: &str) -> (b: Self)
        ensures
            b.opts.restart_src == self.opts.restart_src,
            b.opts.description matches Some(d) && d@ == text@,
    {
        SnapshotContainerOptsBuilder {
            opts: SnapshotContainerOpts {
                restart_src: self.opts.restart_src,
                description: Some(String::from_str(text)),
            },
        }
    }

    pub fn build(self) -> (o: SnapshotContainerOpts)
        ensures
            o == self.opts,
    {
        self.opts
    }
}

impl SnapshotContainerOpts {
    pub fn builder() -> (b: SnapshotContainerOptsBuilder)
        ensures
            !b.opts.restart_src,
            b.opts.description is None,
    {
        SnapshotContainerOptsBuilder { opts: SnapshotContainerOpts::default() }
    }
}

#[derive(Debug)]
pub struct RestoreContainerOpts {
    pub network: Option<NetworkMode>,
    /// Container ports to expose on the restored container. Host ports are
    /// always allocated fresh. Empty = no port bindings.
    pub port_bindings: Vec<u16>,
    pub env: StringMap,
    pub labels: StringMap,
}

#[verifier::ext_equal]
pub struct RestoreOptsSpec {
    pub network: Option<NetworkMode>,
    pub port_bindings: Seq<u16>,
    pub env: Seq<maps::Pair>,
    pub labels: Seq<maps::Pair>,
}

impl View for RestoreContainerOpts {
    type V = RestoreOptsSpec;

    open spec fn view(&self) -> RestoreOptsSpec {
        RestoreOptsSpec {
            network: self.network,
            port_bindings: self.port_bindings@,
            env: self.env.pairs(),
            labels: self.labels.pairs(),
        }
    }
}

impl RestoreOptsSpec {
    pub open spec fn none() -> RestoreOptsSpec {
        RestoreOptsSpec {
            network: None,
            port_bindings: Seq::empty(),
            env: Seq::empty(),
            labels: Seq::empty(),
        }
    }
}

/// A restore without options sets no network, no ports, no environment and no
/// labels.
pub proof fn law_no_restore_options()
    ensures
        RestoreOptsSpec::none().network is None,
        RestoreOptsSpec::none().port_bindings.len() == 0,
        RestoreOptsSpec::none().env.len() == 0,
        RestoreOptsSpec::none().labels.len() == 0,
{
}

impl Default for RestoreContainerOpts {
    fn default() -> (o: Self)
        ensures
            o@ == RestoreOptsSpec::none(),
    {
        RestoreContainerOpts {
            network: None,
            port_bindings: Vec::new(),
            env: StringMap::new(),
            labels: StringMap::new(),
        }
    }
}

/// Sets the fields of [`RestoreContainerOpts`] one by one.
pub struct RestoreContainerOptsBuilder {
    pub opts: RestoreContainerOpts,
}

impl RestoreContainerOptsBuilder {
    /// Add an env var. May be called repeatedly.
    pub fn env(self, key: &str, value: &str) -> (b: Self)
        ensures
            b.opts@ == (RestoreOptsSpec {
                env: maps::inserted(self.opts@.env, key@, value@),
                ..self.opts@
            }),
    {
        let mut opts = self.opts;
        opts.env.insert(String::from_str(key), String::from_str(value));
        RestoreContainerOptsBuilder { opts }
    }

    /// Add a label. May be called repeatedly.
    pub fn label(self, key: &str, value: &str) -> (b: Self)
        ensures
            b.opts@ == (RestoreOptsSpec {
                labels: maps::inserted(self.opts@.labels, key@, value@),
                ..self.opts@
            }),
    {
        let mut opts = self.opts;
        opts.labels.insert(String::from_str(key), String::from_str(value));
        RestoreContainerOptsBuilder { opts }
    }

    pub fn network(self, mode: NetworkMode) -> (b: Self)
        ensures
            b.opts@ == (RestoreOptsSpec { network: Some(mode), ..self.opts@ }),
    {
        let mut opts = self.opts;
        opts.network = Some(mode);
        RestoreContainerOptsBuilder { opts }
    }

    pub fn port_bindings(self, ports: Vec<u16>) -> (b: Self)
        ensures
            b.opts@ == (RestoreOptsSpec { port_bindings: ports@, ..self.opts@ }),
    {
        let mut opts = self.opts;
        opts.port_bindings = ports;
        RestoreContainerOptsBuilder { opts }
    }

    pub fn build(self) -> (o: RestoreContainerOpts)
        ensures
            o == self.opts,
    {
        self.opts
    }
}

impl RestoreContainerOpts {
    pub fn builder() -> (b: RestoreContainerOptsBuilder)
        ensures
            b.opts@ == RestoreOptsSpec::none(),
    {
        RestoreContainerOptsBuilder { opts: RestoreContainerOpts::default() }
    }
}

#[derive(Debug, Clone, Copy, PartialEq, Eq, Structural)]
pub struct ResetToSnapshotOpts {
    /// Restart the container after re-preparing its writable layer. Default
    /// `false`: the caller drives the next start so they can run
    /// fixture-loading code or change labels between reset and start.
    pub restart: bool,
}

impl Default for ResetToSnapshotOpts {
    fn default() -> (o: Self)
        ensures
            !o.restart,
    {
        ResetToSnapshotOpts { restart: false }
    }
}

/// Sets the fields of [`ResetToSnapshotOpts`] one by one.
pub struct ResetToSnapshotOptsBuilder {
    pub opts: ResetToSnapshotOpts,
}

impl ResetToSnapshotOptsBuilder {
    pub fn restart(self, restart: bool) -> (b: Self)
        ensures
            b.opts.restart == restart,
    {
        ResetToSnapshotOptsBuilder { opts: ResetToSnapshotOpts { restart } }
    }

    pub fn build(self) -> (o: ResetToSnapshotOpts)
        ensures
            o == self.opts,
    {
        self.opts
    }
}

impl ResetToSnapshotOpts {
    pub fn builder() -> (b: ResetToSnapshotOptsBuilder)
        ensures
            !b.opts.restart,
    {
        ResetToSnapshotOptsBuilder { opts: ResetToSnapshotOpts::default() }
    }
}

#[derive(Debug)]
pub struct SnapshotInfo {
    pub name: String,
    pub image: Option<String>,
    pub description: Option<String>,
    pub created_at: Option<SystemTime>,
    pub parent: String,
}

/// A snapshot needs a name.
pub fn check_snapshot_name(name: &str) -> (out: Result<()>)
    ensures
        match out {
            Ok(_) => name@.len() > 0,
            Err(e) => name@.len() == 0 && e@ == ErrorSpec::InvalidArgument(
                "snapshot name must not be empty"@,
            ),
        },
{
    if name.unicode_len() == 0 {
        Err(Error::InvalidArgument(String::from_str("snapshot name must not be empty")))
    } else {
        Ok(())
    }
}

/// The labels of a snapshot of a container with the given image.
pub open spec fn labels_of_snapshot(image: Seq<char>, description: Option<Seq<char>>) -> Map<
    Seq<char>,
    Seq<char>,
> {
    let base = Map::<Seq<char>, Seq<char>>::empty().insert(IMAGE_LABEL@, image).insert(
        MANAGED_LABEL@,
        "1"@,
    );
    match description {
        Some(d) => base.insert(DESCRIPTION_LABEL@, d),
        None => base,
    }
}

pub fn snapshot_labels(image: &str, opts: &SnapshotContainerOpts) -> (labels: StringMap)
    ensures
        labels@ == labels_of_snapshot(image@, opt_text(opts.description)),
{
    let mut labels = StringMap::new();
    labels.insert(String::from_str(IMAGE_LABEL), String::from_str(image));
    labels.insert(String::from_str(MANAGED_LABEL), String::from_str("1"));
    if let Some(d) = &opts.description {
        labels.insert(String::from_str(DESCRIPTION_LABEL), d.clone());
    }
    labels
}

/// The image of a snapshot with these labels, or why it is none of ours.
pub open spec fn managed_image(
    name: Seq<char>,
    labels: Map<Seq<char>, Seq<char>>,
) -> core::result::Result<Seq<char>, ErrorSpec> {
    if !labels.dom().contains(MANAGED_LABEL@) || labels[MANAGED_LABEL@] != "1"@ {
        Err(ErrorSpec::SnapshotNotManaged { name })
    } else if labels.dom().contains(IMAGE_LABEL@) {
        Ok(labels[IMAGE_LABEL@])
    } else {
        Err(
            ErrorSpec::InvalidArgument(
                "managed snapshot '"@ + name + "' missing required "@ + IMAGE_LABEL@ + " label"@,
            ),
        )
    }
}

/// The image of the snapshot in the reply to a look-up, or why there is none.
pub open spec fn looked_up_image(
    name: Seq<char>,
    reply: core::result::Result<Option<StringMap>, Status>,
) -> core::result::Result<Seq<char>, ErrorSpec> {
    match reply {
        Ok(Some(labels)) => managed_image(name, labels@),
        Ok(None) => Err(ErrorSpec::SnapshotNotFound(name)),
        Err(status) => if status.code == Code::NotFound {
            Err(ErrorSpec::SnapshotNotFound(name))
        } else {
            Err(ErrorSpec::Containerd { op: "snapshot_stat"@, source: status@ })
        },
    }
}

/// Verifies that a snapshot carries [`MANAGED_LABEL`] + [`IMAGE_LABEL`], from
/// the reply to its look-up. Returns the image.
pub fn stat_managed_snapshot(
    name: &str,
    reply: core::result::Result<Option<StringMap>, Status>,
) -> (out: Result<String>)
    ensures
        match out {
            Ok(image) => looked_up_image(name@, reply) == Ok::<Seq<char>, ErrorSpec>(image@),
            Err(e) => looked_up_image(name@, reply) == Err::<Seq<char>, ErrorSpec>(e@),
        },
{
    let labels = match reply {
        Ok(Some(labels)) => labels,
        Ok(None) => {
            return Err(Error::SnapshotNotFound(String::from_str(name)));
        },
        Err(status) => {
            return if status.code == Code::NotFound {
                Err(Error::SnapshotNotFound(String::from_str(name)))
            } else {
                Err(Error::Containerd { op: "snapshot_stat", source: status })
            };
        },
    };
    let marked = match labels.get(MANAGED_LABEL) {
        Some(v) => text::str_eq(v.as_str(), "1"),
        None => false,
    };
    if !marked {
        return Err(Error::SnapshotNotManaged { name: String::from_str(name) });
    }
    match labels.get(IMAGE_LABEL) {
        Some(image) => Ok(image.clone()),
        None => {
            let mut message = String::from_str("managed snapshot '");
            message.append(name);
            message.append("' missing required ");
            message.append(IMAGE_LABEL);
            message.append(" label");
            Err(Error::InvalidArgument(message))
        },
    }
}

/// A snapshot is labelled with the image, as one of ours, and with its
/// description if it has one, and with nothing else.
pub proof fn law_snapshot_labels(
    image: Seq<char>,
    description: Option<Seq<char>>,
    key: Seq<char>,
)
    ensures
        ({
            let labels = labels_of_snapshot(image, description);
            let of_image = "containerd-manager.snapshot.image"@;
            let ours = "containerd-manager.snapshot.managed"@;
            let described = "containerd-manager.snapshot.description"@;
            &&& labels.dom().contains(key) <==> key == of_image || key == ours || (key == described
                && description is Some)
            &&& labels[of_image] == image
            &&& labels[ours] == "1"@
            &&& description matches Some(d) ==> labels[described] == d
        }),
{
    reveal_strlit("containerd-manager.snapshot.image");
    reveal_strlit("containerd-manager.snapshot.managed");
    reveal_strlit("containerd-manager.snapshot.description");
    assert(IMAGE_LABEL@.len() != MANAGED_LABEL@.len());
    assert(IMAGE_LABEL@.len() != DESCRIPTION_LABEL@.len());
    assert(MANAGED_LABEL@.len() != DESCRIPTION_LABEL@.len());
}

/// A snapshot is taken for one of ours exactly if it is marked with a 1 and
/// names its image; one without the mark is refused as foreign, whatever else
/// its labels say.
pub proof fn law_managed_image(
    name: Seq<char>,
    labels: Map<Seq<char>, Seq<char>>,
    image: Seq<char>,
)
    ensures
        ({
            let of_image = "containerd-manager.snapshot.image"@;
            let ours = "containerd-manager.snapshot.managed"@;
            let marked = labels.dom().contains(ours) && labels[ours] == "1"@;
            &&& managed_image(name, labels) == Ok::<Seq<char>, ErrorSpec>(image) <==> marked
                && labels.dom().contains(of_image) && labels[of_image] == image
            &&& !marked ==> managed_image(name, labels) == Err::<Seq<char>, ErrorSpec>(
                ErrorSpec::SnapshotNotManaged { name },
            )
            &&& marked && !labels.dom().contains(of_image) ==> (managed_image(
                name,
                labels,
            ) matches Err(e) && e is InvalidArgument)
        }),
{
}

/// A snapshot is reported missing exactly if the look-up found none.
pub proof fn law_looked_up_image(name: Seq<char>, labels: StringMap, status: Status)
    ensures
        looked_up_image(name, Ok(None)) == Err::<Seq<char>, ErrorSpec>(
            ErrorSpec::SnapshotNotFound(name),
        ),
        looked_up_image(name, Ok(Some(labels))) == managed_image(name, labels@),
        status.code == Code::NotFound ==> looked_up_image(name, Err(status)) == Err::<
            Seq<char>,
            ErrorSpec,
        >(ErrorSpec::SnapshotNotFound(name)),
        status.code != Code::NotFound ==> (looked_up_image(name, Err(status)) matches Err(
            ErrorSpec::Containerd { source, .. },
        ) && source == status@),
{
}

/// A snapshot that was labelled as one of ours is recognised as one, with its
/// image, whatever its description.
pub proof fn law_snapshot_labels_round_trip(
    name: Seq<char>,
    image: Seq<char>,
    description: Option<Seq<char>>,
)
    ensures
        managed_image(name, labels_of_snapshot(image, description)) == Ok::<
            Seq<char>,
            ErrorSpec,
        >(image),
{
    reveal_strlit("containerd-manager.snapshot.image");
    reveal_strlit("containerd-manager.snapshot.managed");
    reveal_strlit("containerd-manager.snapshot.description");
    assert(IMAGE_LABEL@.len() != MANAGED_LABEL@.len());
    assert(IMAGE_LABEL@.len() != DESCRIPTION_LABEL@.len());
    assert(MANAGED_LABEL@.len() != DESCRIPTION_LABEL@.len());
}

/// Where snapshotting stands.
#[derive(Debug, Clone, Copy, PartialEq, Eq, Structural)]
pub enum SnapshotPhase {
    /// Inspect the source.
    Inspect,
    Stop,
    DeleteTask,
    /// Fetch the record of the source.
    Fetch,
    /// Commit the source's writable layer to the named snapshot.
    Commit,
    /// Prepare the source's writable layer anew on top of the snapshot.
    Reprepare,
    /// Remove the snapshot again.
    RollBack,
    /// Restart the source; a failure is passed over.
    Restart,
    Finished,
}

/// An ongoing snapshot.
#[derive(Debug)]
pub struct SnapshotOp {
    pub name: String,
    pub restart_src: bool,
    pub was_running: bool,
    pub phase: SnapshotPhase,
    pub error: Option<Error>,
}

#[verifier::ext_equal]
pub struct SnapshotOpSpec {
    pub name: Seq<char>,
    pub restart_src: bool,
    pub was_running: bool,
    pub phase: SnapshotPhase,
    pub error: Option<ErrorSpec>,
}

impl View for SnapshotOp {
    type V = SnapshotOpSpec;

    open spec fn view(&self) -> SnapshotOpSpec {
        SnapshotOpSpec {
            name: self.name@,
            restart_src: self.restart_src,
            was_running: self.was_running,
            phase: self.phase,
            error: error::opt_error(self.error),
        }
    }
}

impl SnapshotOpSpec {
    pub open spec fn at(self, phase: SnapshotPhase) -> SnapshotOpSpec {
        SnapshotOpSpec { phase, ..self }
    }

    pub open spec fn failed(self, e: ErrorSpec) -> SnapshotOpSpec {
        SnapshotOpSpec { error: Some(e), ..self }
    }

    /// The source is restarted if it was running and that is wanted.
    pub open spec fn wind_up(self) -> SnapshotOpSpec {
        self.at(
            if self.was_running && self.restart_src {
                SnapshotPhase::Restart
            } else {
                SnapshotPhase::Finished
            },
        )
    }

    /// What follows what came of the current phase.
    pub open spec fn next(self, ev: StepEventSpec) -> SnapshotOpSpec {
        match self.phase {
            SnapshotPhase::Inspect => match ev {
                StepEventSpec::Seen { running: true } => SnapshotOpSpec {
                    was_running: true,
                    ..self.at(SnapshotPhase::Stop)
                },
                StepEventSpec::Seen { running: false } => SnapshotOpSpec {
                    was_running: false,
                    ..self.at(SnapshotPhase::Fetch)
                },
                _ => self.failed(ev.error("get_container"@)).at(SnapshotPhase::Finished),
            },
            SnapshotPhase::Stop => if ev.ok() {
                self.at(SnapshotPhase::DeleteTask)
            } else {
                self.failed(ev.error("kill_task"@)).at(SnapshotPhase::Finished)
            },
            SnapshotPhase::DeleteTask => if ev.ok() {
                self.at(SnapshotPhase::Fetch)
            } else {
                self.failed(ev.error("delete_task"@)).at(SnapshotPhase::Finished)
            },
            SnapshotPhase::Fetch => if ev.ok() {
                self.at(SnapshotPhase::Commit)
            } else {
                self.failed(ev.error("get_container"@)).at(SnapshotPhase::Finished)
            },
            SnapshotPhase::Commit => if ev.ok() {
                self.at(SnapshotPhase::Reprepare)
            } else if ev.code() == Some(Code::AlreadyExists) {
                self.failed(ErrorSpec::SnapshotAlreadyExists(self.name)).wind_up()
            } else {
                self.failed(ev.error("snapshot_commit"@)).wind_up()
            },
            SnapshotPhase::Reprepare => if ev.ok() {
                self.wind_up()
            } else {
                self.failed(ev.error("snapshot_reprepare_src"@)).at(SnapshotPhase::RollBack)
            },
            SnapshotPhase::RollBack => self.at(SnapshotPhase::Finished),
            SnapshotPhase::Restart => self.at(SnapshotPhase::Finished),
            SnapshotPhase::Finished => self,
        }
    }

    /// The call to the snapshotter that the current phase takes, if the source
    /// has the writable layer `key` and the snapshot is to carry `labels`.
    pub open spec fn call(
        self,
        snapshotter: Seq<char>,
        key: Seq<char>,
        labels: Map<Seq<char>, Seq<char>>,
    ) -> Option<SnapshotCallSpec> {
        match self.phase {
            SnapshotPhase::Commit => Some(
                SnapshotCallSpec::Commit { snapshotter, name: self.name, key, labels },
            ),
            SnapshotPhase::Reprepare => Some(
                SnapshotCallSpec::Prepare { snapshotter, key, parent: self.name },
            ),
            SnapshotPhase::RollBack => Some(
                SnapshotCallSpec::Remove { snapshotter, key: self.name },
            ),
            _ => None,
        }
    }

    /// The snapshot after all of `evs`.
    pub open spec fn run(self, evs: Seq<StepEventSpec>) -> SnapshotOpSpec
        decreases evs.len(),
    {
        if evs.len() == 0 {
            self
        } else {
            self.run(evs.drop_last()).next(evs.last())
        }
    }

    /// Whether, in the course of `evs`, `phase` was come to and went well.
    #[verifier::opaque]
    pub open spec fn went_well(self, evs: Seq<StepEventSpec>, phase: SnapshotPhase) -> bool {
        exists|i: int|
            0 <= i < evs.len() && self.run(evs.take(i)).phase == phase && (#[trigger] evs[i]).ok()
    }

    /// How many phases are left at most.
    pub open spec fn rank(self) -> nat {
        match self.phase {
            SnapshotPhase::Inspect => 7,
            SnapshotPhase::Stop => 6,
            SnapshotPhase::DeleteTask => 5,
            SnapshotPhase::Fetch => 4,
            SnapshotPhase::Commit => 3,
            SnapshotPhase::Reprepare => 2,
            SnapshotPhase::RollBack => 1,
            SnapshotPhase::Restart => 1,
            SnapshotPhase::Finished => 0,
        }
    }

    /// What holds of every snapshot that started with `begin`.
    pub open spec fn inv(self) -> bool {
        &&& self.phase == SnapshotPhase::Restart ==> self.was_running && self.restart_src
        &&& self.phase == SnapshotPhase::RollBack ==> self.error is Some
        &&& self.error is Some ==> self.phase == SnapshotPhase::RollBack || self.phase
            == SnapshotPhase::Restart || self.phase == SnapshotPhase::Finished
    }
}

impl SnapshotOp {
    /// Begins a snapshot; a snapshot needs a name.
    pub fn begin(name: &str, opts: &SnapshotContainerOpts) -> (out: Result<Self>)
        ensures
            match out {
                Ok(op) => name@.len() > 0 && op@ == (SnapshotOpSpec {
                    name: name@,
                    restart_src: opts.restart_src,
                    was_running: false,
                    phase: SnapshotPhase::Inspect,
                    error: None,
                }),
                Err(e) => name@.len() == 0 && e@ == ErrorSpec::InvalidArgument(
                    "snapshot name must not be empty"@,
                ),
            },
    {
        match check_snapshot_name(name) {
            Ok(_) => Ok(
                SnapshotOp {
                    name: String::from_str(name),
                    restart_src: opts.restart_src,
                    was_running: false,
                    phase: SnapshotPhase::Inspect,
                    error: None,
                },
            ),
            Err(e) => Err(e),
        }
    }

    fn wind_up(&mut self)
        ensures
            final(self)@ == old(self)@.wind_up(),
    {
        self.phase = if self.was_running && self.restart_src {
            SnapshotPhase::Restart
        } else {
            SnapshotPhase::Finished
        };
    }

    /// Takes in what came of the current phase.
    pub fn advance(&mut self, ev: StepEvent)
        ensures
            final(self)@ == old(self)@.next(ev@),
    {
        match self.phase {
            SnapshotPhase::Inspect => match ev {
                StepEvent::Seen { running } => {
                    self.was_running = running;
                    self.phase = if running {
                        SnapshotPhase::Stop
                    } else {
                        SnapshotPhase::Fetch
                    };
                },
                _ => {
                    self.error = Some(ev.into_error("get_container"));
                    self.phase = SnapshotPhase::Finished;
                },
            },
            SnapshotPhase::Stop => {
                if ev.is_ok() {
                    self.phase = SnapshotPhase::DeleteTask;
                } else {
                    self.error = Some(ev.into_error("kill_task"));
                    self.phase = SnapshotPhase::Finished;
                }
            },
            SnapshotPhase::DeleteTask => {
                if ev.is_ok() {
                    self.phase = SnapshotPhase::Fetch;
                } else {
                    self.error = Some(ev.into_error("delete_task"));
                    self.phase = SnapshotPhase::Finished;
                }
            },
            SnapshotPhase::Fetch => {
                if ev.is_ok() {
                    self.phase = SnapshotPhase::Commit;
                } else {
                    self.error = Some(ev.into_error("get_container"));
                    self.phase = SnapshotPhase::Finished;
                }
            },
            SnapshotPhase::Commit => {
                if ev.is_ok() {
                    self.phase = SnapshotPhase::Reprepare;
                } else if ev.refusal() == Some(Code::AlreadyExists) {
                    self.error = Some(Error::SnapshotAlreadyExists(self.name.clone()));
                    self.wind_up();
                } else {
                    self.error = Some(ev.into_error("snapshot_commit"));
                    self.wind_up();
                }
            },
            SnapshotPhase::Reprepare => {
                if ev.is_ok() {
                    self.wind_up();
                } else {
                    self.error = Some(ev.into_error("snapshot_reprepare_src"));
                    self.phase = SnapshotPhase::RollBack;
                }
            },
            SnapshotPhase::RollBack => {
                self.phase = SnapshotPhase::Finished;
            },
            SnapshotPhase::Restart => {
                self.phase = SnapshotPhase::Finished;
            },
            SnapshotPhase::Finished => {},
        }
    }

    /// The call to the snapshotter that the current phase takes, if the record
    /// of the source names `snapshotter`, the writable layer `key` and `image`.
    pub fn call(
        &self,
        snapshotter: &str,
        key: &str,
        image: &str,
        opts: &SnapshotContainerOpts,
    ) -> (call: Option<SnapshotCall>)
        ensures
            snapshot_util::opt_call(call) == self@.call(
                snapshotter@,
                key@,
                labels_of_snapshot(image@, opt_text(opts.description)),
            ),
    {
        match self.phase {
            SnapshotPhase::Commit => Some(
                SnapshotCall::commit(
                    snapshotter,
                    self.name.as_str(),
                    key,
                    snapshot_labels(image, opts),
                ),
            ),
            SnapshotPhase::Reprepare => Some(
                SnapshotCall::prepare(snapshotter, key, self.name.as_str()),
            ),
            SnapshotPhase::RollBack => Some(SnapshotCall::remove(snapshotter, self.name.as_str())),
            _ => None,
        }
    }

    /// The result of a finished snapshot.
    pub fn outcome(self) -> (out: Result<()>)
        ensures
            match out {
                Ok(_) => self@.error is None,
                Err(e) => self@.error == Some(e@),
            },
    {
        match self.error {
            Some(e) => Err(e),
            None => Ok(()),
        }
    }
}

/// What holds of a snapshot when it begins holds throughout, and its first
/// failure is what it ends with.
pub proof fn law_snapshot_invariant(op: SnapshotOpSpec, ev: StepEventSpec)
    requires
        op.inv(),
    ensures
        op.next(ev).inv(),
        op.error is Some ==> op.next(ev).error == op.error,
{
}

/// A source whose commit failed is not left stranded: it is restarted if it
/// was running and that is wanted. A source that could not be prepared anew
/// has its snapshot rolled back.
pub proof fn law_snapshot_recovers(op: SnapshotOpSpec, ev: StepEventSpec)
    requires
        op.inv(),
        !ev.ok(),
    ensures
        op.phase == SnapshotPhase::Commit && op.was_running && op.restart_src ==> op.next(ev).phase
            == SnapshotPhase::Restart,
        op.phase == SnapshotPhase::Reprepare ==> op.next(ev).phase == SnapshotPhase::RollBack,
{
}

/// What happened before the last event has happened after it, and what the
/// last event tells of has happened too.
proof fn lemma_snapshot_step(begin: SnapshotOpSpec, evs: Seq<StepEventSpec>, phase: SnapshotPhase)
    requires
        evs.len() > 0,
    ensures
        begin.went_well(evs.drop_last(), phase) ==> begin.went_well(evs, phase),
        begin.run(evs.drop_last()).phase == phase && evs.last().ok() ==> begin.went_well(evs, phase),
{
    reveal(SnapshotOpSpec::went_well);
    let less = evs.drop_last();
    let k = less.len() as int;
    assert(evs.take(k) =~= less);
    assert(evs[k] == evs.last());
    if begin.went_well(less, phase) {
        let i = choose|i: int|
            0 <= i < less.len() && begin.run(less.take(i)).phase == phase && (
            #[trigger] less[i]).ok();
        assert(evs.take(i) =~= less.take(i));
        assert(evs[i] == less[i]);
    }
}

/// What has happened once a snapshot came to a phase.
proof fn lemma_snapshot_run(begin: SnapshotOpSpec, evs: Seq<StepEventSpec>)
    requires
        begin.phase == SnapshotPhase::Inspect,
        begin.error is None,
    ensures
        begin.run(evs).inv(),
        ({
            let op = begin.run(evs);
            let behind_stop = op.phase != SnapshotPhase::Inspect && op.phase != SnapshotPhase::Stop;
            let behind_delete = behind_stop && op.phase != SnapshotPhase::DeleteTask;
            let committed = op.phase == SnapshotPhase::Reprepare || op.phase
                == SnapshotPhase::RollBack;
            let succeeded = op.error is None && (op.phase == SnapshotPhase::Restart || op.phase
                == SnapshotPhase::Finished);
            &&& op.name == begin.name
            &&& op.restart_src == begin.restart_src
            &&& op.rank() + evs.len() <= 7 || op.phase == SnapshotPhase::Finished
            &&& op.phase == SnapshotPhase::Stop || op.phase == SnapshotPhase::DeleteTask
                ==> op.was_running
            &&& behind_stop && op.was_running && op.error is None ==> begin.went_well(
                evs,
                SnapshotPhase::Stop,
            )
            &&& behind_delete && op.was_running && op.error is None ==> begin.went_well(
                evs,
                SnapshotPhase::DeleteTask,
            )
            &&& committed || succeeded ==> begin.went_well(evs, SnapshotPhase::Commit)
            &&& succeeded ==> begin.went_well(evs, SnapshotPhase::Reprepare)
        }),
    decreases evs.len(),
{
    if evs.len() > 0 {
        lemma_snapshot_run(begin, evs.drop_last());
        lemma_snapshot_step(begin, evs, SnapshotPhase::Stop);
        lemma_snapshot_step(begin, evs, SnapshotPhase::DeleteTask);
        lemma_snapshot_step(begin, evs, SnapshotPhase::Commit);
        lemma_snapshot_step(begin, evs, SnapshotPhase::Reprepare);
    }
}

/// Whatever happens, a snapshot is over after at most seven steps.
pub proof fn law_snapshot_ends(begin: SnapshotOpSpec, evs: Seq<StepEventSpec>)
    requires
        begin.phase == SnapshotPhase::Inspect,
        begin.error is None,
        evs.len() >= 7,
    ensures
        begin.run(evs).phase == SnapshotPhase::Finished,
{
    lemma_snapshot_run(begin, evs);
}

/// A snapshot that ends without an error has committed the source's writable
/// layer and prepared a new one for it. A source that was running was stopped
/// first, and its task deleted.
pub proof fn law_snapshot_success(begin: SnapshotOpSpec, evs: Seq<StepEventSpec>)
    requires
        begin.phase == SnapshotPhase::Inspect,
        begin.error is None,
        begin.run(evs).phase == SnapshotPhase::Finished,
        begin.run(evs).error is None,
    ensures
        begin.went_well(evs, SnapshotPhase::Commit),
        begin.went_well(evs, SnapshotPhase::Reprepare),
        begin.run(evs).was_running ==> begin.went_well(evs, SnapshotPhase::Stop)
            && begin.went_well(evs, SnapshotPhase::DeleteTask),
{
    lemma_snapshot_run(begin, evs);
}

/// A snapshot is committed from the source's own layer under its own name; the
/// layer is prepared anew, under the same key, on top of what was committed;
/// and a roll-back removes nothing but what this operation has committed.
pub proof fn law_snapshot_calls(
    begin: SnapshotOpSpec,
    evs: Seq<StepEventSpec>,
    snapshotter: Seq<char>,
    src_key: Seq<char>,
    marks: Map<Seq<char>, Seq<char>>,
)
    requires
        begin.phase == SnapshotPhase::Inspect,
        begin.error is None,
    ensures
        match begin.run(evs).call(snapshotter, src_key, marks) {
            Some(SnapshotCallSpec::Commit { name, key, labels, .. }) => name == begin.name && key
                == src_key && labels == marks,
            Some(SnapshotCallSpec::Prepare { key, parent, .. }) => key == src_key && parent
                == begin.name && begin.went_well(evs, SnapshotPhase::Commit),
            Some(SnapshotCallSpec::Remove { key, .. }) => key == begin.name && begin.went_well(
                evs,
                SnapshotPhase::Commit,
            ),
            _ => true,
        },
{
    lemma_snapshot_run(begin, evs);
}

proof fn lemma_snapshot_all_well(begin: SnapshotOpSpec, evs: Seq<StepEventSpec>)
    requires
        begin.phase == SnapshotPhase::Inspect,
        begin.error is None,
        evs.len() > 0 ==> evs[0] is Seen,
        forall|i: int| 1 <= i < evs.len() ==> #[trigger] evs[i] == StepEventSpec::Done,
    ensures
        begin.run(evs).error is None,
        evs.len() > 0 ==> begin.run(evs).phase != SnapshotPhase::Inspect,
        evs.len() == 0 ==> begin.run(evs).phase == SnapshotPhase::Inspect,
        evs.len() > 0 ==> begin.run(evs).was_running == evs[0]->running,
    decreases evs.len(),
{
    if evs.len() > 0 {
        let less = evs.drop_last();
        assert forall|i: int| 1 <= i < less.len() implies #[trigger] less[i]
            == StepEventSpec::Done by {
            assert(less[i] == evs[i]);
        }
        lemma_snapshot_all_well(begin, less);
        lemma_snapshot_run(begin, less);
        assert(evs.last() == evs[evs.len() - 1]);
    }
}

/// A snapshot whose steps all go well succeeds, be its source running or not.
pub proof fn law_snapshot_all_well(begin: SnapshotOpSpec, evs: Seq<StepEventSpec>)
    requires
        begin.phase == SnapshotPhase::Inspect,
        begin.error is None,
        evs.len() >= 7,
        evs[0] is Seen,
        forall|i: int| 1 <= i < evs.len() ==> #[trigger] evs[i] == StepEventSpec::Done,
    ensures
        begin.run(evs).phase == SnapshotPhase::Finished,
        begin.run(evs).error is None,
        begin.run(evs).was_running == evs[0]->running,
{
    lemma_snapshot_all_well(begin, evs);
    lemma_snapshot_run(begin, evs);
}

/// A step that goes wrong makes the snapshot fail with what went wrong: an error
/// as it is, a refusal as containerd gave it, or as an existing snapshot if one
/// of that name is there already.
pub proof fn law_snapshot_failure(op: SnapshotOpSpec, e: ErrorSpec, s: crate::error::StatusSpec)
    requires
        op.error is None,
        op.phase != SnapshotPhase::RollBack,
        op.phase != SnapshotPhase::Restart,
        op.phase != SnapshotPhase::Finished,
    ensures
        ({
            let failed = op.next(StepEventSpec::Failed(e));
            let refused = op.next(StepEventSpec::Refused(s));
            let taken = op.phase == SnapshotPhase::Commit && s.code == Code::AlreadyExists;
            &&& failed.error == Some(e)
            &&& taken ==> refused.error == Some(ErrorSpec::SnapshotAlreadyExists(op.name))
            &&& !taken ==> (refused.error matches Some(ErrorSpec::Containerd { source, .. })
                && source == s)
            &&& op.phase == SnapshotPhase::Reprepare ==> failed.phase == SnapshotPhase::RollBack
                && refused.phase == SnapshotPhase::RollBack
        }),
{
}

/// A running source is stopped and its task deleted, an idle one is not touched.
/// Once its layer was committed and prepared again, or the commit was refused,
/// the source is restarted exactly if it was running and that is wanted.
pub proof fn law_snapshot_steps(op: SnapshotOpSpec, ev: StepEventSpec)
    ensures
        op.phase == SnapshotPhase::Inspect && ev == (StepEventSpec::Seen { running: true })
            ==> op.next(ev).phase == SnapshotPhase::Stop && op.next(ev).was_running,
        op.phase == SnapshotPhase::Inspect && ev == (StepEventSpec::Seen { running: false })
            ==> op.next(ev).phase == SnapshotPhase::Fetch && !op.next(ev).was_running,
        op.phase == SnapshotPhase::Stop && ev == StepEventSpec::Done ==> op.next(ev).phase
            == SnapshotPhase::DeleteTask,
        op.phase == SnapshotPhase::DeleteTask && ev == StepEventSpec::Done ==> op.next(ev).phase
            == SnapshotPhase::Fetch,
        op.phase == SnapshotPhase::Fetch && ev == StepEventSpec::Done ==> op.next(ev).phase
            == SnapshotPhase::Commit,
        op.phase == SnapshotPhase::Commit && ev == StepEventSpec::Done ==> op.next(ev).phase
            == SnapshotPhase::Reprepare,
        (op.phase == SnapshotPhase::Reprepare && ev == StepEventSpec::Done) || (op.phase
            == SnapshotPhase::Commit && (ev is Failed || ev is Refused)) ==> op.next(ev).phase
            == if op.was_running && op.restart_src {
            SnapshotPhase::Restart
        } else {
            SnapshotPhase::Finished
        },
        op.phase == SnapshotPhase::RollBack || op.phase == SnapshotPhase::Restart
            ==> op.next(ev).phase == SnapshotPhase::Finished && op.next(ev).error == op.error,
        op.next(ev).name == op.name && op.next(ev).restart_src == op.restart_src,
{
}

/// The layer of the source is committed under the snapshot's name and with its
/// labels, and prepared again on top of the snapshot; to roll back is to remove
/// the snapshot. No other phase calls the snapshotter.
pub proof fn law_snapshot_call(
    op: SnapshotOpSpec,
    snapshotter: Seq<char>,
    key: Seq<char>,
    labels: Map<Seq<char>, Seq<char>>,
)
    ensures
        op.call(snapshotter, key, labels) == match op.phase {
            SnapshotPhase::Commit => Some(
                SnapshotCallSpec::Commit { snapshotter, name: op.name, key, labels },
            ),
            SnapshotPhase::Reprepare => Some(
                SnapshotCallSpec::Prepare { snapshotter, key, parent: op.name },
            ),
            SnapshotPhase::RollBack => Some(
                SnapshotCallSpec::Remove { snapshotter, key: op.name },
            ),
            _ => None,
        },
{
}

/// The writable layer is committed only once the task is gone.
pub proof fn law_snapshot_order(op: SnapshotOpSpec, ev: StepEventSpec)
    ensures
        op.next(ev).phase == SnapshotPhase::Commit ==> op.phase == SnapshotPhase::Fetch && ev.ok(),
        op.next(ev).phase == SnapshotPhase::Fetch ==> (op.phase == SnapshotPhase::Inspect && ev
            == (StepEventSpec::Seen { running: false })) || (op.phase == SnapshotPhase::DeleteTask
            && ev.ok()),
{
}

/// How a restored container is created.
pub open spec fn restore_plan(dst_snapshot: Seq<char>, opts: RestoreOptsSpec) ->
    container::CreateOptsSpec {
    container::CreateOptsSpec {
        env: maps::extended(Seq::empty(), opts.env),
        labels: maps::extended(Seq::empty(), opts.labels),
        mounts: Seq::empty(),
        mode: match opts.network {
            Some(m) => m,
            None => NetworkMode::Bridge,
        },
        cmd: None,
        port_bindings: crate::clone::unbound(opts.port_bindings),
        from_existing_snapshot: Some(dst_snapshot),
    }
}

/// Lays out how a restored container is created: image and rootfs come from
/// the snapshot; network, ports and labels from the options.
pub fn restore_create_opts(dst_snapshot_key: &str, opts: &RestoreContainerOpts) -> (create:
    CreateContainerOpts)
    ensures
        create@ == restore_plan(dst_snapshot_key@, opts@),
        create.env@ == opts.env@,
        create.labels@ == opts.labels@,
        create.port_bindings@.len() == opts.port_bindings@.len(),
        forall|i: int|
            0 <= i < create.port_bindings@.len() ==> #[trigger] create.port_bindings@[i] == (
                0u16,
                opts.port_bindings@[i],
            ),
{
    let mode = match opts.network {
        Some(m) => m,
        None => NetworkMode::Bridge,
    };
    let mut env = StringMap::new();
    env.extend(&opts.env);
    let mut labels = StringMap::new();
    labels.extend(&opts.labels);
    proof {
        maps::lemma_extended(Seq::empty(), opts.env.pairs());
        maps::lemma_extended(Seq::empty(), opts.labels.pairs());
        assert(env@ =~= opts.env@);
        assert(labels@ =~= opts.labels@);
    }
    let create = CreateContainerOpts {
        env,
        labels,
        mounts: Vec::new(),
        network: NetworkOpts { mode },
        cmd: None,
        port_bindings: crate::clone::unbound_ports(&opts.port_bindings),
        from_existing_snapshot: Some(String::from_str(dst_snapshot_key)),
    };
    assert(container::mount_opt_views(create.mounts@) =~= Seq::<container::MountOptSpec>::empty());
    create
}

/// A restored container has exactly the variables, the labels and, on host
/// ports that are still to be allocated, the ports that the options name,
/// whatever else they name. Its network mode is that of the options, or bridge;
/// command and mounts are left to the image.
pub proof fn law_restore_takes_its_options(dst_snapshot: Seq<char>, opts: RestoreOptsSpec)
    ensures
        ({
            let plan = restore_plan(dst_snapshot, opts);
            &&& maps::as_map(plan.env) == maps::as_map(opts.env)
            &&& maps::as_map(plan.labels) == maps::as_map(opts.labels)
            &&& plan.port_bindings.len() == opts.port_bindings.len()
            &&& forall|i: int|
                0 <= i < plan.port_bindings.len() ==> #[trigger] plan.port_bindings[i] == (
                    0u16,
                    opts.port_bindings[i],
                )
            &&& opts.network matches Some(m) ==> plan.mode == m
            &&& opts.network is None ==> plan.mode == NetworkMode::Bridge
            &&& plan.cmd is None && plan.mounts.len() == 0
            &&& plan.from_existing_snapshot == Some(dst_snapshot)
        }),
{
    let plan = restore_plan(dst_snapshot, opts);
    maps::lemma_extended(Seq::empty(), opts.env);
    maps::lemma_extended(Seq::empty(), opts.labels);
    assert(maps::as_map(plan.env) =~= maps::as_map(opts.env));
    assert(maps::as_map(plan.labels) =~= maps::as_map(opts.labels));
}

/// A restore that names no ports exposes none: no host port is wanted for the
/// restored container, whatever its network mode.
pub proof fn law_restore_without_ports(dst_snapshot: Seq<char>, opts: RestoreOptsSpec)
    requires
        opts.port_bindings.len() == 0,
    ensures
        ({
            let plan = restore_plan(dst_snapshot, opts);
            create::wanted_ports(
                plan.mode,
                plan.port_bindings,
                plan.from_existing_snapshot is Some,
            ) == Seq::<u16>::empty()
        }),
{
    let plan = restore_plan(dst_snapshot, opts);
    assert(plan.port_bindings.map_values(|b: (u16, u16)| b.1) =~= Seq::<u16>::empty());
}

/// Inspecting a container that was restored without ports shows no port
/// bindings, unless its image or the caller declares some by a label of their
/// own. `bridge` holds one pair for each wanted port, in bridge mode alone.
pub proof fn law_restored_without_ports_shows_none(
    info: ContainerInfo,
    record: ContainerRecord,
    task: Option<TaskInfo>,
    image: Map<Seq<char>, Seq<char>>,
    dst_snapshot: Seq<char>,
    opts: RestoreOptsSpec,
    bridge: Option<Seq<(u16, u16)>>,
    ip: Option<Seq<char>>,
    name: Seq<char>,
    namespace: Seq<char>,
)
    requires
        opts.port_bindings.len() == 0,
        inspect::shows(info, record, task),
        ({
            let plan = restore_plan(dst_snapshot, opts);
            &&& bridge matches Some(ports) ==> ports.len() == create::wanted_ports(
                plan.mode,
                plan.port_bindings,
                plan.from_existing_snapshot is Some,
            ).len()
            &&& record.labels@ == create::record_labels(
                image,
                maps::as_map(plan.labels),
                plan.mode,
                ip,
                create::final_bindings(bridge, plan.port_bindings),
                name,
                namespace,
            )
        }),
        forall|key: Seq<char>| #[trigger]
            PORT_BINDING_LABEL_PREFIX@.is_prefix_of(key) ==> !image.dom().contains(key)
                && !maps::as_map(opts.labels).dom().contains(key),
    ensures
        forall|key: Seq<char>| #[trigger]
            PORT_BINDING_LABEL_PREFIX@.is_prefix_of(key) ==> !record.labels@.dom().contains(key),
        info.port_forwards@ == Seq::<(u16, u16)>::empty(),
{
    let plan = restore_plan(dst_snapshot, opts);
    law_restore_without_ports(dst_snapshot, opts);
    assert(create::final_bindings(bridge, plan.port_bindings) =~= Seq::<(u16, u16)>::empty());
    maps::lemma_extended(Seq::empty(), opts.labels);
    let user = maps::as_map(plan.labels);
    assert(user =~= maps::as_map(opts.labels));
    create::law_no_bindings_are_shown(
        info,
        record,
        task,
        image,
        user,
        plan.mode,
        ip,
        name,
        namespace,
    );
}

/// Where restoring stands.
#[derive(Debug, Clone, Copy, PartialEq, Eq, Structural)]
pub enum RestorePhase {
    /// Look the snapshot up and verify that it is one of ours.
    Stat,
    /// Prepare the new container's writable layer on top of the snapshot.
    PrepareDst,
    /// Create the new container's record.
    CreateDst,
    /// Remove the new container's snapshot again.
    RemoveDst,
    Finished,
}

/// An ongoing restore.
#[derive(Debug)]
pub struct RestoreOp {
    pub dst: String,
    pub phase: RestorePhase,
    pub error: Option<Error>,
}

#[verifier::ext_equal]
pub struct RestoreOpSpec {
    pub dst: Seq<char>,
    pub phase: RestorePhase,
    pub error: Option<ErrorSpec>,
}

impl View for RestoreOp {
    type V = RestoreOpSpec;

    open spec fn view(&self) -> RestoreOpSpec {
        RestoreOpSpec {
            dst: self.dst@,
            phase: self.phase,
            error: error::opt_error(self.error),
        }
    }
}

impl RestoreOpSpec {
    pub open spec fn at(self, phase: RestorePhase) -> RestoreOpSpec {
        RestoreOpSpec { phase, ..self }
    }

    pub open spec fn failed(self, e: ErrorSpec) -> RestoreOpSpec {
        RestoreOpSpec { error: Some(e), ..self }
    }

    /// What follows what came of the current phase.
    pub open spec fn next(self, ev: StepEventSpec) -> RestoreOpSpec {
        match self.phase {
            RestorePhase::Stat => if ev.ok() {
                self.at(RestorePhase::PrepareDst)
            } else {
                self.failed(ev.error("snapshot_stat"@)).at(RestorePhase::Finished)
            },
            RestorePhase::PrepareDst => if ev.ok() {
                self.at(RestorePhase::CreateDst)
            } else if ev.code() == Some(Code::AlreadyExists) {
                self.failed(ErrorSpec::ContainerAlreadyExists(self.dst)).at(RestorePhase::Finished)
            } else {
                self.failed(ev.error("restore_prepare_dst"@)).at(RestorePhase::Finished)
            },
            RestorePhase::CreateDst => if ev.ok() {
                self.at(RestorePhase::Finished)
            } else {
                self.failed(ev.error("create_container"@)).at(RestorePhase::RemoveDst)
            },
            RestorePhase::RemoveDst => self.at(RestorePhase::Finished),
            RestorePhase::Finished => self,
        }
    }

    /// The call to the snapshotter that the current phase takes.
    pub open spec fn call(self, snapshot_name: Seq<char>) -> Option<SnapshotCallSpec> {
        let snapshotter = DEFAULT_SNAPSHOTTER@;
        match self.phase {
            RestorePhase::Stat => Some(SnapshotCallSpec::Stat { snapshotter, key: snapshot_name }),
            RestorePhase::PrepareDst => Some(
                SnapshotCallSpec::Prepare {
                    snapshotter,
                    key: container::snapshot_key(self.dst),
                    parent: snapshot_name,
                },
            ),
            RestorePhase::RemoveDst => Some(
                SnapshotCallSpec::Remove { snapshotter, key: container::snapshot_key(self.dst) },
            ),
            _ => None,
        }
    }

    /// The restore after all of `evs`.
    pub open spec fn run(self, evs: Seq<StepEventSpec>) -> RestoreOpSpec
        decreases evs.len(),
    {
        if evs.len() == 0 {
            self
        } else {
            self.run(evs.drop_last()).next(evs.last())
        }
    }

    /// Whether, in the course of `evs`, `phase` was come to and went well.
    #[verifier::opaque]
    pub open spec fn went_well(self, evs: Seq<StepEventSpec>, phase: RestorePhase) -> bool {
        exists|i: int|
            0 <= i < evs.len() && self.run(evs.take(i)).phase == phase && (#[trigger] evs[i]).ok()
    }

    /// How many phases are left at most.
    pub open spec fn rank(self) -> nat {
        match self.phase {
            RestorePhase::Stat => 4,
            RestorePhase::PrepareDst => 3,
            RestorePhase::CreateDst => 2,
            RestorePhase::RemoveDst => 1,
            RestorePhase::Finished => 0,
        }
    }
}

impl RestoreOp {
    /// Begins a restore; a snapshot has a name.
    pub fn begin(snapshot_name: &str, dst: &str) -> (out: Result<Self>)
        ensures
            match out {
                Ok(op) => snapshot_name@.len() > 0 && op@ == (RestoreOpSpec {
                    dst: dst@,
                    phase: RestorePhase::Stat,
                    error: None,
                }),
                Err(e) => snapshot_name@.len() == 0 && e@ == ErrorSpec::InvalidArgument(
                    "snapshot name must not be empty"@,
                ),
            },
    {
        match check_snapshot_name(snapshot_name) {
            Ok(_) => Ok(
                RestoreOp { dst: String::from_str(dst), phase: RestorePhase::Stat, error: None },
            ),
            Err(e) => Err(e),
        }
    }

    /// Takes in what came of the current phase.
    pub fn advance(&mut self, ev: StepEvent)
        ensures
            final(self)@ == old(self)@.next(ev@),
    {
        match self.phase {
            RestorePhase::Stat => {
                if ev.is_ok() {
                    self.phase = RestorePhase::PrepareDst;
                } else {
                    self.error = Some(ev.into_error("snapshot_stat"));
                    self.phase = RestorePhase::Finished;
                }
            },
            RestorePhase::PrepareDst => {
                if ev.is_ok() {
                    self.phase = RestorePhase::CreateDst;
                } else if ev.refusal() == Some(Code::AlreadyExists) {
                    self.error = Some(Error::ContainerAlreadyExists(self.dst.clone()));
                    self.phase = RestorePhase::Finished;
                } else {
                    self.error = Some(ev.into_error("restore_prepare_dst"));
                    self.phase = RestorePhase::Finished;
                }
            },
            RestorePhase::CreateDst => {
                if ev.is_ok() {
                    self.phase = RestorePhase::Finished;
                } else {
                    self.error = Some(ev.into_error("create_container"));
                    self.phase = RestorePhase::RemoveDst;
                }
            },
            RestorePhase::RemoveDst => {
                self.phase = RestorePhase::Finished;
            },
            RestorePhase::Finished => {},
        }
    }

    /// The call to the snapshotter that the current phase takes.
    pub fn call(&self, snapshot_name: &str) -> (call: Option<SnapshotCall>)
        ensures
            snapshot_util::opt_call(call) == self@.call(snapshot_name@),
    {
        let dst_key = container::snapshot_key_for(self.dst.as_str());
        match self.phase {
            RestorePhase::Stat => Some(SnapshotCall::stat(DEFAULT_SNAPSHOTTER, snapshot_name)),
            RestorePhase::PrepareDst => Some(
                SnapshotCall::prepare(DEFAULT_SNAPSHOTTER, dst_key.as_str(), snapshot_name),
            ),
            RestorePhase::RemoveDst => Some(
                SnapshotCall::remove(DEFAULT_SNAPSHOTTER, dst_key.as_str()),
            ),
            _ => None,
        }
    }

    /// The result of a finished restore.
    pub fn outcome(self) -> (out: Result<()>)
        ensures
            match out {
                Ok(_) => self@.error is None,
                Err(e) => self@.error == Some(e@),
            },
    {
        match self.error {
            Some(e) => Err(e),
            None => Ok(()),
        }
    }
}

/// A writable layer is prepared only on a snapshot that was verified, is
/// removed again if its container could not be created, and is otherwise left
/// in place.
pub proof fn law_restore_order(op: RestoreOpSpec, ev: StepEventSpec)
    ensures
        op.next(ev).phase == RestorePhase::PrepareDst ==> op.phase == RestorePhase::Stat
            && ev.ok(),
        op.next(ev).phase == RestorePhase::RemoveDst <==> op.phase == RestorePhase::CreateDst
            && !ev.ok(),
        op.error is Some && (op.phase == RestorePhase::RemoveDst || op.phase
            == RestorePhase::Finished) ==> op.next(ev).error == op.error,
{
}

/// What happened before the last event has happened after it, and what the
/// last event tells of has happened too.
proof fn lemma_restore_step(begin: RestoreOpSpec, evs: Seq<StepEventSpec>, phase: RestorePhase)
    requires
        evs.len() > 0,
    ensures
        begin.went_well(evs.drop_last(), phase) ==> begin.went_well(evs, phase),
        begin.run(evs.drop_last()).phase == phase && evs.last().ok() ==> begin.went_well(evs, phase),
{
    reveal(RestoreOpSpec::went_well);
    let less = evs.drop_last();
    let k = less.len() as int;
    assert(evs.take(k) =~= less);
    assert(evs[k] == evs.last());
    if begin.went_well(less, phase) {
        let i = choose|i: int|
            0 <= i < less.len() && begin.run(less.take(i)).phase == phase && (
            #[trigger] less[i]).ok();
        assert(evs.take(i) =~= less.take(i));
        assert(evs[i] == less[i]);
    }
}

/// What has happened once a restore came to a phase.
proof fn lemma_restore_run(begin: RestoreOpSpec, evs: Seq<StepEventSpec>)
    requires
        begin.phase == RestorePhase::Stat,
        begin.error is None,
    ensures
        ({
            let op = begin.run(evs);
            let succeeded = op.error is None && op.phase == RestorePhase::Finished;
            let layer_made = op.phase == RestorePhase::CreateDst || op.phase
                == RestorePhase::RemoveDst;
            &&& op.dst == begin.dst
            &&& op.rank() + evs.len() <= 4 || op.phase == RestorePhase::Finished
            &&& op.phase == RestorePhase::RemoveDst ==> op.error is Some
            &&& op.phase == RestorePhase::PrepareDst || layer_made || succeeded
                ==> begin.went_well(evs, RestorePhase::Stat)
            &&& layer_made || succeeded ==> begin.went_well(evs, RestorePhase::PrepareDst)
            &&& succeeded ==> begin.went_well(evs, RestorePhase::CreateDst)
        }),
    decreases evs.len(),
{
    if evs.len() > 0 {
        lemma_restore_run(begin, evs.drop_last());
        lemma_restore_step(begin, evs, RestorePhase::Stat);
        lemma_restore_step(begin, evs, RestorePhase::PrepareDst);
        lemma_restore_step(begin, evs, RestorePhase::CreateDst);
    }
}

/// Whatever happens, a restore is over after at most four steps.
pub proof fn law_restore_ends(begin: RestoreOpSpec, evs: Seq<StepEventSpec>)
    requires
        begin.phase == RestorePhase::Stat,
        begin.error is None,
        evs.len() >= 4,
    ensures
        begin.run(evs).phase == RestorePhase::Finished,
{
    lemma_restore_run(begin, evs);
}

/// A restore that ends without an error has verified the snapshot, prepared a
/// writable layer on it and created the container's record.
pub proof fn law_restore_success(begin: RestoreOpSpec, evs: Seq<StepEventSpec>)
    requires
        begin.phase == RestorePhase::Stat,
        begin.error is None,
        begin.run(evs).phase == RestorePhase::Finished,
        begin.run(evs).error is None,
    ensures
        begin.went_well(evs, RestorePhase::Stat),
        begin.went_well(evs, RestorePhase::PrepareDst),
        begin.went_well(evs, RestorePhase::CreateDst),
{
    lemma_restore_run(begin, evs);
}

/// A restore leaves the snapshot as it is: it adds a layer on top, and removes
/// nothing but that layer, which it prepared itself.
pub proof fn law_restore_calls(
    begin: RestoreOpSpec,
    evs: Seq<StepEventSpec>,
    snapshot_name: Seq<char>,
)
    requires
        begin.phase == RestorePhase::Stat,
        begin.error is None,
    ensures
        match begin.run(evs).call(snapshot_name) {
            Some(SnapshotCallSpec::Stat { key, .. }) => key == snapshot_name,
            Some(SnapshotCallSpec::Prepare { key, parent, .. }) => key == container::snapshot_key(
                begin.dst,
            ) && parent == snapshot_name && begin.went_well(evs, RestorePhase::Stat),
            Some(SnapshotCallSpec::Remove { key, .. }) => key == container::snapshot_key(begin.dst)
                && begin.went_well(evs, RestorePhase::PrepareDst),
            Some(SnapshotCallSpec::Commit { .. }) => false,
            None => true,
        },
{
    lemma_restore_run(begin, evs);
}

proof fn lemma_restore_all_well(begin: RestoreOpSpec, evs: Seq<StepEventSpec>)
    requires
        begin.phase == RestorePhase::Stat,
        begin.error is None,
        forall|i: int| 0 <= i < evs.len() ==> #[trigger] evs[i] == StepEventSpec::Done,
    ensures
        begin.run(evs).error is None,
    decreases evs.len(),
{
    if evs.len() > 0 {
        let less = evs.drop_last();
        assert forall|i: int| 0 <= i < less.len() implies #[trigger] less[i]
            == StepEventSpec::Done by {
            assert(less[i] == evs[i]);
        }
        lemma_restore_all_well(begin, less);
        lemma_restore_run(begin, less);
        assert(evs.last() == evs[evs.len() - 1]);
    }
}

/// A restore whose steps all go well succeeds.
pub proof fn law_restore_all_well(begin: RestoreOpSpec, evs: Seq<StepEventSpec>)
    requires
        begin.phase == RestorePhase::Stat,
        begin.error is None,
        evs.len() >= 4,
        forall|i: int| 0 <= i < evs.len() ==> #[trigger] evs[i] == StepEventSpec::Done,
    ensures
        begin.run(evs).phase == RestorePhase::Finished,
        begin.run(evs).error is None,
{
    lemma_restore_all_well(begin, evs);
    lemma_restore_run(begin, evs);
}

/// A step that goes wrong makes the restore fail with what went wrong: an error
/// as it is, a refusal as containerd gave it, or as an existing container if the
/// new layer is there already. A layer whose container could not be created is
/// removed; what went wrong before stays the error.
pub proof fn law_restore_failure(op: RestoreOpSpec, e: ErrorSpec, s: crate::error::StatusSpec)
    requires
        op.error is None,
        op.phase != RestorePhase::RemoveDst,
        op.phase != RestorePhase::Finished,
    ensures
        ({
            let failed = op.next(StepEventSpec::Failed(e));
            let refused = op.next(StepEventSpec::Refused(s));
            let taken = op.phase == RestorePhase::PrepareDst && s.code == Code::AlreadyExists;
            let after = if op.phase == RestorePhase::CreateDst {
                RestorePhase::RemoveDst
            } else {
                RestorePhase::Finished
            };
            &&& failed.error == Some(e)
            &&& taken ==> refused.error == Some(ErrorSpec::ContainerAlreadyExists(op.dst))
            &&& !taken ==> (refused.error matches Some(ErrorSpec::Containerd { source, .. })
                && source == s)
            &&& failed.phase == after && refused.phase == after
        }),
{
}

/// The snapshot is looked up, then the new layer prepared, then the container
/// created.
pub proof fn law_restore_steps(op: RestoreOpSpec, ev: StepEventSpec)
    ensures
        op.phase == RestorePhase::Stat && ev == StepEventSpec::Done ==> op.next(ev).phase
            == RestorePhase::PrepareDst,
        op.phase == RestorePhase::PrepareDst && ev == StepEventSpec::Done ==> op.next(ev).phase
            == RestorePhase::CreateDst,
        op.phase == RestorePhase::CreateDst && ev == StepEventSpec::Done ==> op.next(ev).phase
            == RestorePhase::Finished,
        op.phase == RestorePhase::RemoveDst ==> op.next(ev).phase == RestorePhase::Finished
            && op.next(ev).error == op.error,
        op.next(ev).dst == op.dst,
{
}

/// The new layer, named after the new container, is prepared on top of the
/// snapshot, and is what is removed where need be. No other phase but the
/// look-up calls the snapshotter.
pub proof fn law_restore_call(op: RestoreOpSpec, snapshot_name: Seq<char>)
    ensures
        ({
            let snapshotter = "overlayfs"@;
            let key = op.dst + "-snapshot"@;
            op.call(snapshot_name) == match op.phase {
                RestorePhase::Stat => Some(
                    SnapshotCallSpec::Stat { snapshotter, key: snapshot_name },
                ),
                RestorePhase::PrepareDst => Some(
                    SnapshotCallSpec::Prepare { snapshotter, key, parent: snapshot_name },
                ),
                RestorePhase::RemoveDst => Some(SnapshotCallSpec::Remove { snapshotter, key }),
                _ => None,
            }
        }),
{
}

/// The error of a reset to a snapshot of another image.
pub open spec fn image_mismatch(snapshot_image: Seq<char>, image: Seq<char>) -> ErrorSpec {
    ErrorSpec::InvalidArgument(
        "snapshot image '"@ + snapshot_image + "' does not match container image '"@ + image
            + "'"@,
    )
}

/// A mismatch names both images, that of the snapshot first.
pub proof fn law_image_mismatch(snapshot_image: Seq<char>, image: Seq<char>)
    ensures
        image_mismatch(snapshot_image, image) matches ErrorSpec::InvalidArgument(said) && said
            == "snapshot image '"@ + snapshot_image + "' does not match container image '"@ + image
            + "'"@,
{
}

/// A container can only be reset to a snapshot of its own image.
pub fn check_reset_image(snapshot_image: &str, image: &str) -> (out: Result<()>)
    ensures
        match out {
            Ok(_) => snapshot_image@ == image@,
            Err(e) => snapshot_image@ != image@ && e@ == image_mismatch(snapshot_image@, image@),
        },
{
    if text::str_eq(snapshot_image, image) {
        return Ok(());
    }
    let mut message = String::from_str("snapshot image '");
    message.append(snapshot_image);
    message.append("' does not match container image '");
    message.append(image);
    message.append("'");
    Err(Error::InvalidArgument(message))
}

/// Verifies that a container with the given image can be reset to a snapshot,
/// from the reply to the look-up of the snapshot: it is one of ours, and of the
/// same image.
pub fn check_reset_target(
    name: &str,
    image: &str,
    reply: core::result::Result<Option<StringMap>, Status>,
) -> (out: Result<()>)
    ensures
        match looked_up_image(name@, reply) {
            Ok(of) => match out {
                Ok(_) => of == image@,
                Err(e) => of != image@ && e@ == image_mismatch(of, image@),
            },
            Err(reason) => out matches Err(e) && e@ == reason,
        },
{
    match stat_managed_snapshot(name, reply) {
        Ok(of) => check_reset_image(of.as_str(), image),
        Err(e) => Err(e),
    }
}

/// Where resetting stands.
#[derive(Debug, Clone, Copy, PartialEq, Eq, Structural)]
pub enum ResetPhase {
    /// Fetch the container's record.
    Fetch,
    /// Look the snapshot up and verify that it is one of ours, and of the same
    /// image.
    Stat,
    /// Stop the container; a failure usually means that it has stopped, and is
    /// passed over.
    Stop,
    DeleteTask,
    /// Stop the port forwards, so that a restart binds fresh ports.
    StopForwards,
    /// Remove the container's writable layer.
    RemoveActive,
    /// Prepare a fresh writable layer, under the same key, on top of the
    /// snapshot. `attempt` counts from 0.
    Prepare { attempt: u32 },
    /// Sleep after a failed attempt.
    Backoff { attempt: u32 },
    Start,
    Finished,
}

/// An ongoing reset.
#[derive(Debug)]
pub struct ResetOp {
    pub restart: bool,
    pub phase: ResetPhase,
    pub error: Option<Error>,
}

#[verifier::ext_equal]
pub struct ResetOpSpec {
    pub restart: bool,
    pub phase: ResetPhase,
    pub error: Option<ErrorSpec>,
}

impl View for ResetOp {
    type V = ResetOpSpec;

    open spec fn view(&self) -> ResetOpSpec {
        ResetOpSpec {
            restart: self.restart,
            phase: self.phase,
            error: error::opt_error(self.error),
        }
    }
}

impl ResetOpSpec {
    pub open spec fn at(self, phase: ResetPhase) -> ResetOpSpec {
        ResetOpSpec { phase, ..self }
    }

    pub open spec fn failed(self, e: ErrorSpec) -> ResetOpSpec {
        ResetOpSpec { error: Some(e), ..self }
    }

    /// What follows what came of the current phase. Removing the old layer and
    /// preparing the new one is not atomic, so preparing is tried several
    /// times; the last error counts, and a late success clears it.
    pub open spec fn next(self, ev: StepEventSpec) -> ResetOpSpec {
        match self.phase {
            ResetPhase::Fetch => if ev.ok() {
                self.at(ResetPhase::Stat)
            } else {
                self.failed(ev.error("get_container"@)).at(ResetPhase::Finished)
            },
            ResetPhase::Stat => if ev.ok() {
                self.at(ResetPhase::Stop)
            } else {
                self.failed(ev.error("snapshot_stat"@)).at(ResetPhase::Finished)
            },
            ResetPhase::Stop => self.at(ResetPhase::DeleteTask),
            ResetPhase::DeleteTask => if ev.ok() {
                self.at(ResetPhase::StopForwards)
            } else {
                self.failed(ev.error("delete_task"@)).at(ResetPhase::Finished)
            },
            ResetPhase::StopForwards => self.at(ResetPhase::RemoveActive),
            ResetPhase::RemoveActive => if ev.ok() || ev.code() == Some(Code::NotFound) {
                self.at(ResetPhase::Prepare { attempt: 0 })
            } else {
                self.failed(ev.error("reset_remove_active"@)).at(ResetPhase::Finished)
            },
            ResetPhase::Prepare { attempt } => if ev.ok() {
                ResetOpSpec {
                    error: None,
                    ..self.at(
                        if self.restart {
                            ResetPhase::Start
                        } else {
                            ResetPhase::Finished
                        },
                    )
                }
            } else {
                self.failed(ev.error("reset_prepare_active"@)).at(ResetPhase::Backoff { attempt })
            },
            ResetPhase::Backoff { attempt } => if attempt + 1 < RESET_ATTEMPTS {
                self.at(ResetPhase::Prepare { attempt: (attempt + 1) as u32 })
            } else {
                self.at(ResetPhase::Finished)
            },
            ResetPhase::Start => if ev.ok() {
                self.at(ResetPhase::Finished)
            } else {
                self.failed(ev.error("start_task"@)).at(ResetPhase::Finished)
            },
            ResetPhase::Finished => self,
        }
    }

    /// The call to the snapshotter that the current phase takes, if the
    /// container has the writable layer `key`.
    pub open spec fn call(
        self,
        snapshotter: Seq<char>,
        key: Seq<char>,
        snapshot_name: Seq<char>,
    ) -> Option<SnapshotCallSpec> {
        match self.phase {
            ResetPhase::Stat => Some(SnapshotCallSpec::Stat { snapshotter, key: snapshot_name }),
            ResetPhase::RemoveActive => Some(SnapshotCallSpec::Remove { snapshotter, key }),
            ResetPhase::Prepare { .. } => Some(
                SnapshotCallSpec::Prepare { snapshotter, key, parent: snapshot_name },
            ),
            _ => None,
        }
    }

    /// The reset after all of `evs`.
    pub open spec fn run(self, evs: Seq<StepEventSpec>) -> ResetOpSpec
        decreases evs.len(),
    {
        if evs.len() == 0 {
            self
        } else {
            self.run(evs.drop_last()).next(evs.last())
        }
    }

    /// Whether, in the course of `evs`, `phase` was come to and went well.
    #[verifier::opaque]
    pub open spec fn went_well(self, evs: Seq<StepEventSpec>, phase: ResetPhase) -> bool {
        exists|i: int|
            0 <= i < evs.len() && self.run(evs.take(i)).phase == phase && (#[trigger] evs[i]).ok()
    }

    /// How many phases are left at most.
    pub open spec fn rank(self) -> int {
        match self.phase {
            ResetPhase::Fetch => 17,
            ResetPhase::Stat => 16,
            ResetPhase::Stop => 15,
            ResetPhase::DeleteTask => 14,
            ResetPhase::StopForwards => 13,
            ResetPhase::RemoveActive => 12,
            ResetPhase::Prepare { attempt } => 2 * (RESET_ATTEMPTS - attempt) + 1,
            ResetPhase::Backoff { attempt } => 2 * (RESET_ATTEMPTS - attempt),
            ResetPhase::Start => 1,
            ResetPhase::Finished => 0,
        }
    }

    /// Whether, in the course of `evs`, an attempt to prepare the new layer
    /// went well.
    #[verifier::opaque]
    pub open spec fn prepared(self, evs: Seq<StepEventSpec>) -> bool {
        exists|i: int|
            0 <= i < evs.len() && self.run(evs.take(i)).phase is Prepare && (
            #[trigger] evs[i]).ok()
    }
}

impl ResetOp {
    /// Begins a reset; a snapshot has a name.
    pub fn begin(snapshot_name: &str, opts: &ResetToSnapshotOpts) -> (out: Result<Self>)
        ensures
            match out {
                Ok(op) => snapshot_name@.len() > 0 && op@ == (ResetOpSpec {
                    restart: opts.restart,
                    phase: ResetPhase::Fetch,
                    error: None,
                }),
                Err(e) => snapshot_name@.len() == 0 && e@ == ErrorSpec::InvalidArgument(
                    "snapshot name must not be empty"@,
                ),
            },
    {
        match check_snapshot_name(snapshot_name) {
            Ok(_) => Ok(ResetOp { restart: opts.restart, phase: ResetPhase::Fetch, error: None }),
            Err(e) => Err(e),
        }
    }

    /// Takes in what came of the current phase.
    pub fn advance(&mut self, ev: StepEvent)
        ensures
            final(self)@ == old(self)@.next(ev@),
    {
        match self.phase {
            ResetPhase::Fetch => {
                if ev.is_ok() {
                    self.phase = ResetPhase::Stat;
                } else {
                    self.error = Some(ev.into_error("get_container"));
                    self.phase = ResetPhase::Finished;
                }
            },
            ResetPhase::Stat => {
                if ev.is_ok() {
                    self.phase = ResetPhase::Stop;
                } else {
                    self.error = Some(ev.into_error("snapshot_stat"));
                    self.phase = ResetPhase::Finished;
                }
            },
            ResetPhase::Stop => {
                self.phase = ResetPhase::DeleteTask;
            },
            ResetPhase::DeleteTask => {
                if ev.is_ok() {
                    self.phase = ResetPhase::StopForwards;
                } else {
                    self.error = Some(ev.into_error("delete_task"));
                    self.phase = ResetPhase::Finished;
                }
            },
            ResetPhase::StopForwards => {
                self.phase = ResetPhase::RemoveActive;
            },
            ResetPhase::RemoveActive => {
                if ev.is_ok() || ev.refusal() == Some(Code::NotFound) {
                    self.phase = ResetPhase::Prepare { attempt: 0 };
                } else {
                    self.error = Some(ev.into_error("reset_remove_active"));
                    self.phase = ResetPhase::Finished;
                }
            },
            ResetPhase::Prepare { attempt } => {
                if ev.is_ok() {
                    self.error = None;
                    self.phase = if self.restart {
                        ResetPhase::Start
                    } else {
                        ResetPhase::Finished
                    };
                } else {
                    self.error = Some(ev.into_error("reset_prepare_active"));
                    self.phase = ResetPhase::Backoff { attempt };
                }
            },
            ResetPhase::Backoff { attempt } => {
                self.phase = if attempt < RESET_ATTEMPTS - 1 {
                    ResetPhase::Prepare { attempt: attempt + 1 }
                } else {
                    ResetPhase::Finished
                };
            },
            ResetPhase::Start => {
                if !ev.is_ok() {
                    self.error = Some(ev.into_error("start_task"));
                }
                self.phase = ResetPhase::Finished;
            },
            ResetPhase::Finished => {},
        }
    }

    /// The call to the snapshotter that the current phase takes, if the record
    /// of the container names `snapshotter` and the writable layer `key`.
    pub fn call(&self, snapshotter: &str, key: &str, snapshot_name: &str) -> (call: Option<
        SnapshotCall,
    >)
        ensures
            snapshot_util::opt_call(call) == self@.call(snapshotter@, key@, snapshot_name@),
    {
        match self.phase {
            ResetPhase::Stat => Some(SnapshotCall::stat(snapshotter, snapshot_name)),
            ResetPhase::RemoveActive => Some(SnapshotCall::remove(snapshotter, key)),
            ResetPhase::Prepare { .. } => Some(
                SnapshotCall::prepare(snapshotter, key, snapshot_name),
            ),
            _ => None,
        }
    }

    /// The result of a finished reset.
    pub fn outcome(self) -> (out: Result<()>)
        ensures
            match out {
                Ok(_) => self@.error is None,
                Err(e) => self@.error == Some(e@),
            },
    {
        match self.error {
            Some(e) => Err(e),
            None => Ok(()),
        }
    }
}

/// How long a reset sleeps after a failed attempt: longer each time.
pub fn reset_backoff(attempt: u32) -> (d: Duration)
    ensures
        d.nanos() == 100 * (attempt + 1) * NANOS_PER_MILLI,
{
    let millis: u64 = 100 * (attempt as u64 + 1);
    Duration::from_millis(millis)
}

/// The container's writable layer is removed only after the snapshot was
/// verified and the task deleted, and at most five attempts are made to
/// prepare a new one.
pub proof fn law_reset_order(op: ResetOpSpec, ev: StepEventSpec)
    ensures
        op.next(ev).phase == ResetPhase::RemoveActive ==> op.phase == ResetPhase::StopForwards,
        op.next(ev).phase == ResetPhase::StopForwards ==> op.phase == ResetPhase::DeleteTask
            && ev.ok(),
        op.next(ev).phase == ResetPhase::Stop ==> op.phase == ResetPhase::Stat && ev.ok(),
        op.next(ev).phase matches ResetPhase::Prepare { attempt } ==> attempt < RESET_ATTEMPTS,
        op.next(ev).phase == ResetPhase::Start ==> op.restart,
{
}

/// An attempt that succeeds makes the reset succeed, however many failed
/// before it.
pub proof fn law_reset_late_success(op: ResetOpSpec, ev: StepEventSpec)
    requires
        op.phase is Prepare,
        ev.ok(),
    ensures
        op.next(ev).error is None,
{
}

/// What happened before the last event has happened after it, and what the
/// last event tells of has happened too.
proof fn lemma_reset_step(begin: ResetOpSpec, evs: Seq<StepEventSpec>, phase: ResetPhase)
    requires
        evs.len() > 0,
    ensures
        begin.went_well(evs.drop_last(), phase) ==> begin.went_well(evs, phase),
        begin.run(evs.drop_last()).phase == phase && evs.last().ok() ==> begin.went_well(evs, phase),
{
    reveal(ResetOpSpec::went_well);
    let less = evs.drop_last();
    let k = less.len() as int;
    assert(evs.take(k) =~= less);
    assert(evs[k] == evs.last());
    if begin.went_well(less, phase) {
        let i = choose|i: int|
            0 <= i < less.len() && begin.run(less.take(i)).phase == phase && (
            #[trigger] less[i]).ok();
        assert(evs.take(i) =~= less.take(i));
        assert(evs[i] == less[i]);
    }
}

proof fn lemma_prepared_step(begin: ResetOpSpec, evs: Seq<StepEventSpec>)
    requires
        evs.len() > 0,
    ensures
        begin.prepared(evs.drop_last()) ==> begin.prepared(evs),
        begin.run(evs.drop_last()).phase is Prepare && evs.last().ok() ==> begin.prepared(evs),
{
    reveal(ResetOpSpec::prepared);
    let less = evs.drop_last();
    let k = less.len() as int;
    assert(evs.take(k) =~= less);
    assert(evs[k] == evs.last());
    if begin.prepared(less) {
        let i = choose|i: int|
            0 <= i < less.len() && begin.run(less.take(i)).phase is Prepare && (
            #[trigger] less[i]).ok();
        assert(evs.take(i) =~= less.take(i));
        assert(evs[i] == less[i]);
    }
}

/// What has happened once a reset came to a phase.
proof fn lemma_reset_run(begin: ResetOpSpec, evs: Seq<StepEventSpec>)
    requires
        begin.phase == ResetPhase::Fetch,
        begin.error is None,
    ensures
        ({
            let op = begin.run(evs);
            let succeeded = op.error is None && op.phase == ResetPhase::Finished;
            let verified = op.phase != ResetPhase::Fetch && op.phase != ResetPhase::Stat
                && op.phase != ResetPhase::Finished;
            let task_gone = verified && op.phase != ResetPhase::Stop && op.phase
                != ResetPhase::DeleteTask;
            &&& op.restart == begin.restart
            &&& op.rank() + evs.len() <= 17 || op.phase == ResetPhase::Finished
            &&& op.phase matches ResetPhase::Prepare { attempt } ==> attempt < RESET_ATTEMPTS
            &&& op.phase matches ResetPhase::Backoff { attempt } ==> attempt < RESET_ATTEMPTS
                && op.error is Some
            &&& op.phase == ResetPhase::Start ==> op.restart && op.error is None
            &&& verified || succeeded ==> begin.went_well(evs, ResetPhase::Stat)
            &&& task_gone || succeeded ==> begin.went_well(evs, ResetPhase::DeleteTask)
            &&& op.phase == ResetPhase::Start || succeeded ==> begin.prepared(evs)
            &&& succeeded && op.restart ==> begin.went_well(evs, ResetPhase::Start)
        }),
    decreases evs.len(),
{
    if evs.len() > 0 {
        lemma_reset_run(begin, evs.drop_last());
        lemma_reset_step(begin, evs, ResetPhase::Stat);
        lemma_reset_step(begin, evs, ResetPhase::DeleteTask);
        lemma_reset_step(begin, evs, ResetPhase::Start);
        lemma_prepared_step(begin, evs);
    }
}

proof fn lemma_reset_all_well(begin: ResetOpSpec, evs: Seq<StepEventSpec>)
    requires
        begin.phase == ResetPhase::Fetch,
        begin.error is None,
        forall|i: int| 0 <= i < evs.len() ==> #[trigger] evs[i] == StepEventSpec::Done,
    ensures
        begin.run(evs).error is None,
    decreases evs.len(),
{
    if evs.len() > 0 {
        let less = evs.drop_last();
        assert forall|i: int| 0 <= i < less.len() implies #[trigger] less[i]
            == StepEventSpec::Done by {
            assert(less[i] == evs[i]);
        }
        lemma_reset_all_well(begin, less);
        lemma_reset_run(begin, less);
        assert(evs.last() == evs[evs.len() - 1]);
    }
}

/// A reset whose steps all go well succeeds.
pub proof fn law_reset_all_well(begin: ResetOpSpec, evs: Seq<StepEventSpec>)
    requires
        begin.phase == ResetPhase::Fetch,
        begin.error is None,
        evs.len() >= 17,
        forall|i: int| 0 <= i < evs.len() ==> #[trigger] evs[i] == StepEventSpec::Done,
    ensures
        begin.run(evs).phase == ResetPhase::Finished,
        begin.run(evs).error is None,
{
    lemma_reset_all_well(begin, evs);
    lemma_reset_run(begin, evs);
}

/// A container that cannot be stopped is reset all the same, and so is one whose
/// old layer is gone. An attempt to prepare the new layer that goes wrong is
/// followed by another, up to the fifth; the error is that of the last. Any
/// other step that goes wrong ends the reset with what went wrong: an error as
/// it is, a refusal as containerd gave it.
pub proof fn law_reset_failure(op: ResetOpSpec, e: ErrorSpec, s: crate::error::StatusSpec)
    ensures
        ({
            let failed = op.next(StepEventSpec::Failed(e));
            let refused = op.next(StepEventSpec::Refused(s));
            let reported = refused.error matches Some(ErrorSpec::Containerd { source, .. })
                && source == s;
            let ends = op.phase == ResetPhase::Fetch || op.phase == ResetPhase::Stat || op.phase
                == ResetPhase::DeleteTask || op.phase == ResetPhase::Start;
            &&& ends ==> failed.error == Some(e) && failed.phase == ResetPhase::Finished
            &&& ends ==> reported && refused.phase == ResetPhase::Finished
            &&& op.phase == ResetPhase::Stop ==> failed.phase == ResetPhase::DeleteTask
                && refused.phase == ResetPhase::DeleteTask && failed.error == op.error
                && refused.error == op.error
            &&& op.phase == ResetPhase::RemoveActive ==> failed.error == Some(e) && failed.phase
                == ResetPhase::Finished
            &&& op.phase == ResetPhase::RemoveActive && s.code == Code::NotFound ==> refused.phase
                == (ResetPhase::Prepare { attempt: 0 }) && refused.error == op.error
            &&& op.phase == ResetPhase::RemoveActive && s.code != Code::NotFound ==> reported
                && refused.phase == ResetPhase::Finished
            &&& op.phase matches ResetPhase::Prepare { attempt } ==> failed.error == Some(e)
                && reported && failed.phase == (ResetPhase::Backoff { attempt }) && refused.phase
                == (ResetPhase::Backoff { attempt })
            &&& op.phase matches ResetPhase::Backoff { attempt } ==> failed.error == op.error
                && failed.phase == if attempt < 4 {
                ResetPhase::Prepare { attempt: (attempt + 1) as u32 }
            } else {
                ResetPhase::Finished
            }
        }),
{
}

/// The steps of a reset that goes well, in order; the container is started
/// exactly if that is wanted.
pub proof fn law_reset_steps(op: ResetOpSpec)
    ensures
        ({
            let next = op.next(StepEventSpec::Done);
            &&& op.phase == ResetPhase::Fetch ==> next.phase == ResetPhase::Stat
            &&& op.phase == ResetPhase::Stat ==> next.phase == ResetPhase::Stop
            &&& op.phase == ResetPhase::Stop ==> next.phase == ResetPhase::DeleteTask
            &&& op.phase == ResetPhase::DeleteTask ==> next.phase == ResetPhase::StopForwards
            &&& op.phase == ResetPhase::StopForwards ==> next.phase == ResetPhase::RemoveActive
            &&& op.phase == ResetPhase::RemoveActive ==> next.phase == (ResetPhase::Prepare {
                attempt: 0,
            })
            &&& op.phase is Prepare ==> next.phase == if op.restart {
                ResetPhase::Start
            } else {
                ResetPhase::Finished
            }
            &&& op.phase matches ResetPhase::Backoff { attempt } ==> next.phase == if attempt < 4 {
                ResetPhase::Prepare { attempt: (attempt + 1) as u32 }
            } else {
                ResetPhase::Finished
            }
            &&& op.phase == ResetPhase::Start ==> next.phase == ResetPhase::Finished
            &&& next.restart == op.restart
            &&& op.phase !is Prepare ==> next.error == op.error
        }),
{
}

/// The snapshot is looked up, the container's layer removed, and a fresh one
/// prepared under the same key on top of the snapshot. No other phase calls the
/// snapshotter.
pub proof fn law_reset_call(
    op: ResetOpSpec,
    snapshotter: Seq<char>,
    key: Seq<char>,
    snapshot_name: Seq<char>,
)
    ensures
        op.call(snapshotter, key, snapshot_name) == match op.phase {
            ResetPhase::Stat => Some(SnapshotCallSpec::Stat { snapshotter, key: snapshot_name }),
            ResetPhase::RemoveActive => Some(SnapshotCallSpec::Remove { snapshotter, key }),
            ResetPhase::Prepare { .. } => Some(
                SnapshotCallSpec::Prepare { snapshotter, key, parent: snapshot_name },
            ),
            _ => None,
        },
{
}

/// Whatever happens, a reset is over after at most 17 steps.
pub proof fn law_reset_ends(begin: ResetOpSpec, evs: Seq<StepEventSpec>)
    requires
        begin.phase == ResetPhase::Fetch,
        begin.error is None,
        evs.len() >= 17,
    ensures
        begin.run(evs).phase == ResetPhase::Finished,
{
    lemma_reset_run(begin, evs);
}

/// A reset that ends without an error has verified the snapshot, deleted the
/// task, prepared the new layer and, if that is wanted, started the container.
pub proof fn law_reset_success(begin: ResetOpSpec, evs: Seq<StepEventSpec>)
    requires
        begin.phase == ResetPhase::Fetch,
        begin.error is None,
        begin.run(evs).phase == ResetPhase::Finished,
        begin.run(evs).error is None,
    ensures
        begin.went_well(evs, ResetPhase::Stat),
        begin.went_well(evs, ResetPhase::DeleteTask),
        begin.prepared(evs),
        begin.restart ==> begin.went_well(evs, ResetPhase::Start),
{
    lemma_reset_run(begin, evs);
}

/// A reset gives the container a fresh layer under the key that its record
/// names, on top of the snapshot. It removes the old layer, and prepares the
/// new one, only once the snapshot was verified and the task deleted.
pub proof fn law_reset_calls(
    begin: ResetOpSpec,
    evs: Seq<StepEventSpec>,
    snapshotter: Seq<char>,
    layer: Seq<char>,
    snapshot_name: Seq<char>,
)
    requires
        begin.phase == ResetPhase::Fetch,
        begin.error is None,
    ensures
        match begin.run(evs).call(snapshotter, layer, snapshot_name) {
            Some(SnapshotCallSpec::Stat { key, .. }) => key == snapshot_name,
            Some(SnapshotCallSpec::Remove { key, .. }) => key == layer && begin.went_well(
                evs,
                ResetPhase::Stat,
            ) && begin.went_well(evs, ResetPhase::DeleteTask),
            Some(SnapshotCallSpec::Prepare { key, parent, .. }) => key == layer && parent
                == snapshot_name && begin.went_well(evs, ResetPhase::Stat) && begin.went_well(
                evs,
                ResetPhase::DeleteTask,
            ),
            Some(SnapshotCallSpec::Commit { .. }) => false,
            None => true,
        },
{
    lemma_reset_run(begin, evs);
}

/// A snapshot as containerd stores it.
#[derive(Debug)]
pub struct SnapshotRecord {
    pub name: String,
    pub parent: String,
    pub labels: StringMap,
    pub created_at: Option<Timestamp>,
}

/// A point in time as containerd sends it.
#[derive(Debug, Clone, Copy, PartialEq, Eq, Structural)]
pub struct Timestamp {
    pub seconds: i64,
    pub nanos: i32,
}

/// The point in time of a timestamp that does not lie before the epoch.
pub open spec fn point_in_time(ts: Timestamp) -> Option<SystemTime> {
    if ts.seconds < 0 || ts.nanos < 0 {
        None
    } else {
        Some(SystemTime { nanos: (ts.seconds * 1_000_000_000 + ts.nanos) as i128 })
    }
}

/// A timestamp before the epoch is no point in time; any other one is as many
/// nanoseconds behind it as its seconds and nanoseconds make together.
pub proof fn law_point_in_time(ts: Timestamp)
    ensures
        ts.seconds < 0 || ts.nanos < 0 ==> point_in_time(ts) is None,
        ts.seconds >= 0 && ts.nanos >= 0 ==> (point_in_time(ts) matches Some(t) && t.nanos
            == ts.seconds * 1_000_000_000 + ts.nanos),
{
}

/// Points in time are counted in 64-bit seconds: what lies beyond those is no
/// timestamp.
pub open spec fn representable(ts: Timestamp) -> bool {
    ts.seconds + ts.nanos / 1_000_000_000 <= i64::MAX
}

pub fn timestamp_to_systemtime(ts: Timestamp) -> (t: Option<SystemTime>)
    requires
        representable(ts),
    ensures
        t == point_in_time(ts),
{
    if ts.seconds < 0 || ts.nanos < 0 {
        return None;
    }
    Some(SystemTime { nanos: ts.seconds as i128 * 1_000_000_000 + ts.nanos as i128 })
}

/// The value of an optional label.
pub open spec fn label(labels: Map<Seq<char>, Seq<char>>, key: Seq<char>) -> Option<Seq<char>> {
    if labels.dom().contains(key) {
        Some(labels[key])
    } else {
        None
    }
}

pub open spec fn opt_text(s: Option<String>) -> Option<Seq<char>> {
    match s {
        Some(t) => Some(t@),
        None => None,
    }
}

fn label_value(labels: &StringMap, key: &str) -> (v: Option<String>)
    ensures
        opt_text(v) == label(labels@, key@),
{
    match labels.get(key) {
        Some(s) => Some(s.clone()),
        None => None,
    }
}

/// Whether `info` is what a listing shows of a snapshot.
pub open spec fn lists(info: SnapshotInfo, record: SnapshotRecord) -> bool {
    &&& info.name == record.name
    &&& info.parent == record.parent
    &&& opt_text(info.image) == label(record.labels@, IMAGE_LABEL@)
    &&& opt_text(info.description) == label(record.labels@, DESCRIPTION_LABEL@)
    &&& info.created_at == match record.created_at {
        Some(ts) => point_in_time(ts),
        None => None,
    }
}

/// What is listed of a snapshot is what its record holds; what the record does
/// not say is left open.
pub proof fn law_lists(info: SnapshotInfo, record: SnapshotRecord)
    requires
        lists(info, record),
    ensures
        info.name@ == record.name@,
        info.parent == record.parent,
        ({
            let of_image = "containerd-manager.snapshot.image"@;
            let described = "containerd-manager.snapshot.description"@;
            &&& info.image is Some <==> record.labels@.dom().contains(of_image)
            &&& info.image matches Some(image) ==> image@ == record.labels@[of_image]
            &&& info.description is Some <==> record.labels@.dom().contains(described)
            &&& info.description matches Some(d) ==> d@ == record.labels@[described]
        }),
        record.created_at is None ==> info.created_at is None,
        record.created_at matches Some(ts) ==> info.created_at == point_in_time(ts),
{
}

/// What is listed of a snapshot that was taken names its image and its
/// description.
pub proof fn law_listing_names_image(
    info: SnapshotInfo,
    record: SnapshotRecord,
    image: Seq<char>,
    description: Option<Seq<char>>,
)
    requires
        lists(info, record),
        record.labels@ == labels_of_snapshot(image, description),
    ensures
        opt_text(info.image) == Some(image),
        opt_text(info.description) == description,
{
    reveal_strlit("containerd-manager.snapshot.image");
    reveal_strlit("containerd-manager.snapshot.managed");
    reveal_strlit("containerd-manager.snapshot.description");
    assert(IMAGE_LABEL@.len() != MANAGED_LABEL@.len());
    assert(IMAGE_LABEL@.len() != DESCRIPTION_LABEL@.len());
    assert(MANAGED_LABEL@.len() != DESCRIPTION_LABEL@.len());
}

pub fn snapshot_info(record: SnapshotRecord) -> (info: SnapshotInfo)
    requires
        record.created_at matches Some(ts) ==> representable(ts),
    ensures
        lists(info, record),
{
    SnapshotInfo {
        image: label_value(&record.labels, IMAGE_LABEL),
        description: label_value(&record.labels, DESCRIPTION_LABEL),
        created_at: match record.created_at {
            Some(ts) => timestamp_to_systemtime(ts),
            None => None,
        },
        name: record.name,
        parent: record.parent,
    }
}

/// How far listing snapshots came before it failed.
#[derive(Debug, Clone, Copy, PartialEq, Eq, Structural)]
pub enum ListStage {
    /// The listing was refused.
    Request,
    /// The stream of snapshots broke off.
    Stream,
}

/// What lists snapshots, from what came of the request: each of them, in the
/// order in which they came.
pub fn list_snapshots(
    reply: core::result::Result<Vec<SnapshotRecord>, (ListStage, Status)>,
) -> (out: Result<Vec<SnapshotInfo>>)
    requires
        reply matches Ok(records) ==> forall|i: int|
            0 <= i < records@.len() ==> ((#[trigger] records@[i]).created_at matches Some(ts)
                ==> representable(ts)),
    ensures
        match reply {
            Ok(records) => {
                &&& out matches Ok(infos)
                &&& infos@.len() == records@.len()
                &&& forall|i: int|
                    0 <= i < infos@.len() ==> lists(#[trigger] infos@[i], records@[i])
            },
            Err((stage, status)) => out matches Err(e) && e@ == (ErrorSpec::Containerd {
                op: if stage == ListStage::Request {
                    "snapshot_list"@
                } else {
                    "snapshot_list_stream"@
                },
                source: status@,
            }),
        },
{
    let records = match reply {
        Ok(records) => records,
        Err((stage, status)) => {
            return match stage {
                ListStage::Request => Err(Error::Containerd { op: "snapshot_list", source: status }),
                ListStage::Stream => Err(
                    Error::Containerd { op: "snapshot_list_stream", source: status },
                ),
            };
        },
    };
    let ghost all = records@;
    let mut rest = records;
    let mut infos: Vec<SnapshotInfo> = Vec::new();
    let n: usize = rest.len();
    for i in 0..n
        invariant
            n == all.len(),
            rest@ == all.skip(i as int),
            infos@.len() == i,
            forall|j: int|
                0 <= j < n ==> ((#[trigger] all[j]).created_at matches Some(ts) ==> representable(
                    ts,
                )),
            forall|j: int| 0 <= j < i ==> lists(#[trigger] infos@[j], all[j]),
    {
        let record = rest.remove(0);
        assert(record == all[i as int]);
        assert(rest@ =~= all.skip(i + 1));
        infos.push(snapshot_info(record));
    }
    Ok(infos)
}

/// The filter that finds our snapshots.
pub fn managed_filter() -> (filter: String)
    ensures
        filter@ == "labels.\""@ + MANAGED_LABEL@ + "\"==1"@,
{
    let mut filter = String::from_str("labels.\"");
    filter.append(MANAGED_LABEL);
    filter.append("\"==1");
    filter
}

/// The call that deletes a snapshot, from the reply to its look-up. A snapshot
/// that is none of ours is not deleted.
pub fn delete_snapshot_call(
    name: &str,
    reply: core::result::Result<Option<StringMap>, Status>,
) -> (out: Result<SnapshotCall>)
    ensures
        match out {
            Ok(call) => {
                &&& reply matches Ok(Some(labels)) && managed_image(name@, labels@) is Ok
                &&& call@ == (SnapshotCallSpec::Remove {
                    snapshotter: DEFAULT_SNAPSHOTTER@,
                    key: name@,
                })
            },
            Err(e) => e@ == match reply {
                Ok(Some(labels)) => managed_image(name@, labels@)->Err_0,
                Ok(None) => ErrorSpec::SnapshotNotFound(name@),
                Err(status) => if status.code == Code::NotFound {
                    ErrorSpec::SnapshotNotFound(name@)
                } else {
                    ErrorSpec::Containerd { op: "snapshot_stat"@, source: status@ }
                },
            } && (reply matches Ok(Some(labels)) ==> managed_image(name@, labels@) is Err),
        },
{
    match stat_managed_snapshot(name, reply) {
        Ok(_) => Ok(SnapshotCall::remove(DEFAULT_SNAPSHOTTER, name)),
        Err(e) => Err(e),
    }
}

/// The outcome of deleting a snapshot that was verified to be one of ours.
pub fn delete_snapshot(name: &str, reply: core::result::Result<(), Status>) -> (out: Result<()>)
    ensures
        match reply {
            Ok(_) => out is Ok,
            Err(status) => out matches Err(e) && e@ == if status.code == Code::NotFound {
                ErrorSpec::SnapshotNotFound(name@)
            } else {
                ErrorSpec::Containerd { op: "snapshot_delete"@, source: status@ }
            },
        },
{
    match reply {
        Ok(_) => Ok(()),
        Err(status) => if status.code == Code::NotFound {
            Err(Error::SnapshotNotFound(String::from_str(name)))
        } else {
            Err(Error::Containerd { op: "snapshot_delete", source: status })
        },
    }
}

} // verus!
