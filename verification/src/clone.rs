//! CoW clone of a container via the containerd snapshotter API.
//!
//! 1. Stop src (snapshotter rejects commit on a mounted active key).
//! 2. First clone: commit src's writable layer to `<src>-clone-base`, then
//!    re-prepare src's active rooted at that base. Later clones reuse it.
//! 3. Prepare dst's active rooted at the base. Sub-second CoW.
//! 4. Build the dst container record from the prepared snapshot, which re-runs
//!    bridge IP + port allocation.

use vstd::prelude::*;

use crate::container;
use crate::container::{CreateContainerOpts, NetworkMode, NetworkOpts};
use crate::create::DEFAULT_CONTAINER_PORT;
use crate::error;
use crate::error::{Code, Error, ErrorSpec, Result};
use crate::maps;
use crate::maps::StringMap;
use crate::snapshot_util;
use crate::snapshot_util::{SnapshotCall, SnapshotCallSpec, StepEvent, StepEventSpec};
use crate::types::ContainerInfo;

verus! {

pub const CLONE_BASE_SUFFIX: &'static str = "-clone-base";

/// The snapshot that clones of a container are based on.
pub open spec fn base_key(src: Seq<char>) -> Seq<char> {
    src + CLONE_BASE_SUFFIX@
}

pub fn clone_base_key(src: &str) -> (key: String)
    ensures
        key@ == base_key(src@),
{
    let mut key = String::from_str(src);
    key.append(CLONE_BASE_SUFFIX);
    key
}

/// Options for cloning a container.
///
/// The default workflow is "prime once, clone N times, run clones in parallel".
/// Set `restart_src(true)` to keep the source running alongside its clones.
#[derive(Debug)]
pub struct CloneContainerOpts {
    /// Restart the source if it was running before the clone.
    pub restart_src: bool,
    /// If true (the default), copy src's container ports onto the clone (with
    /// freshly allocated host ports). Set to false when you want to override
    /// the clone's exposed ports via `port_bindings`.
    pub inherit_src_ports: bool,
    /// Explicit container ports to expose on the clone. Only consulted when
    /// `inherit_src_ports` is false; the clone always gets freshly allocated
    /// host ports.
    pub port_bindings: Vec<u16>,
    /// Override network mode. `None` inherits from src.
    pub network: Option<NetworkMode>,
    /// Env vars to set on the clone *on top of* src's env.
    pub extra_env: StringMap,
    /// Labels to overwrite/add on the clone after src's user labels are
    /// copied. Managed labels (network mode, bridge IP, port bindings) cannot
    /// be overridden.
    pub label_overrides: StringMap,
}

#[verifier::ext_equal]
pub struct CloneOptsSpec {
    pub restart_src: bool,
    pub inherit_src_ports: bool,
    pub port_bindings: Seq<u16>,
    pub network: Option<NetworkMode>,
    pub extra_env: Seq<maps::Pair>,
    pub label_overrides: Seq<maps::Pair>,
}

impl View for CloneContainerOpts {
    type V = CloneOptsSpec;

    open spec fn view(&self) -> CloneOptsSpec {
        CloneOptsSpec {
            restart_src: self.restart_src,
            inherit_src_ports: self.inherit_src_ports,
            port_bindings: self.port_bindings@,
            network: self.network,
            extra_env: self.extra_env.pairs(),
            label_overrides: self.label_overrides.pairs(),
        }
    }
}

impl CloneOptsSpec {
    pub open spec fn initial() -> CloneOptsSpec {
        CloneOptsSpec {
            restart_src: false,
            inherit_src_ports: true,
            port_bindings: Seq::empty(),
            network: None,
            extra_env: Seq::empty(),
            label_overrides: Seq::empty(),
        }
    }
}

/// A clone without options copies the ports and the network of its source, which
/// stays stopped, and changes nothing of its environment and labels.
pub proof fn law_initial_clone_options()
    ensures
        !CloneOptsSpec::initial().restart_src,
        CloneOptsSpec::initial().inherit_src_ports,
        CloneOptsSpec::initial().port_bindings.len() == 0,
        CloneOptsSpec::initial().network is None,
        CloneOptsSpec::initial().extra_env.len() == 0,
        CloneOptsSpec::initial().label_overrides.len() == 0,
{
}

impl Default for CloneContainerOpts {
    fn default() -> (o: Self)
        ensures
            o@ == CloneOptsSpec::initial(),
    {
        CloneContainerOpts {
            restart_src: false,
            inherit_src_ports: true,
            port_bindings: Vec::new(),
            network: None,
            extra_env: StringMap::new(),
            label_overrides: StringMap::new(),
        }
    }
}

/// Sets the fields of [`CloneContainerOpts`] one by one.
pub struct CloneContainerOptsBuilder {
    pub opts: CloneContainerOpts,
}

impl CloneContainerOptsBuilder {
    /// Add an env var on top of src's env. May be called repeatedly.
    pub fn env(self, key: &str, value: &str) -> (b: Self)
        ensures
            b.opts@ == (CloneOptsSpec {
                extra_env: maps::inserted(self.opts@.extra_env, key@, value@),
                ..self.opts@
            }),
    {
        let mut opts = self.opts;
        opts.extra_env.insert(String::from_str(key), String::from_str(value));
        CloneContainerOptsBuilder { opts }
    }

    /// Add a label override. May be called repeatedly. Managed labels (network
    /// mode, bridge IP, port bindings) cannot be overridden and will produce
    /// an error at clone time.
    pub fn label(self, key: &str, value: &str) -> (b: Self)
        ensures
            b.opts@ == (CloneOptsSpec {
                label_overrides: maps::inserted(self.opts@.label_overrides, key@, value@),
                ..self.opts@
            }),
    {
        let mut opts = self.opts;
        opts.label_overrides.insert(String::from_str(key), String::from_str(value));
        CloneContainerOptsBuilder { opts }
    }

    pub fn restart_src(self, restart: bool) -> (b: Self)
        ensures
            b.opts@ == (CloneOptsSpec { restart_src: restart, ..self.opts@ }),
    {
        let mut opts = self.opts;
        opts.restart_src = restart;
        CloneContainerOptsBuilder { opts }
    }

    pub fn inherit_src_ports(self, inherit: bool) -> (b: Self)
        ensures
            b.opts@ == (CloneOptsSpec { inherit_src_ports: inherit, ..self.opts@ }),
    {
        let mut opts = self.opts;
        opts.inherit_src_ports = inherit;
        CloneContainerOptsBuilder { opts }
    }

    pub fn port_bindings(self, ports: Vec<u16>) -> (b: Self)
        ensures
            b.opts@ == (CloneOptsSpec { port_bindings: ports@, ..self.opts@ }),
    {
        let mut opts = self.opts;
        opts.port_bindings = ports;
        CloneContainerOptsBuilder { opts }
    }

    pub fn network(self, mode: NetworkMode) -> (b: Self)
        ensures
            b.opts@ == (CloneOptsSpec { network: Some(mode), ..self.opts@ }),
    {
        let mut opts = self.opts;
        opts.network = Some(mode);
        CloneContainerOptsBuilder { opts }
    }

    pub fn build(self) -> (o: CloneContainerOpts)
        ensures
            o == self.opts,
    {
        self.opts
    }
}

impl CloneContainerOpts {
    pub fn builder() -> (b: CloneContainerOptsBuilder)
        ensures
            b.opts@ == CloneOptsSpec::initial(),
    {
        CloneContainerOptsBuilder { opts: CloneContainerOpts::default() }
    }
}

/// The container ports of a clone in network mode `mode`: a copy of the
/// source's, or those of the options. Options that name none give a clone in
/// bridge mode the default port.
pub open spec fn clone_ports(
    forwards: Seq<(u16, u16)>,
    mode: NetworkMode,
    opts: CloneOptsSpec,
) -> Seq<u16> {
    if opts.inherit_src_ports {
        forwards.map_values(|f: (u16, u16)| f.1)
    } else if opts.port_bindings.len() == 0 && mode == NetworkMode::Bridge {
        seq![DEFAULT_CONTAINER_PORT]
    } else {
        opts.port_bindings
    }
}

/// The network mode of a clone: the options' if they name one, else the
/// source's.
pub open spec fn clone_mode(src: NetworkMode, opts: CloneOptsSpec) -> NetworkMode {
    match opts.network {
        Some(m) => m,
        None => src,
    }
}

/// Container ports whose host ports are still to be allocated.
pub open spec fn unbound(ports: Seq<u16>) -> Seq<(u16, u16)> {
    ports.map_values(|p: u16| (0u16, p))
}

pub(crate) fn unbound_ports(ports: &Vec<u16>) -> (out: Vec<(u16, u16)>)
    ensures
        out@ == unbound(ports@),
{
    let mut out: Vec<(u16, u16)> = Vec::new();
    let n: usize = ports.len();
    for i in 0..n
        invariant
            n == ports@.len(),
            out@.len() == i,
            forall|j: int| 0 <= j < i ==> #[trigger] out@[j] == (0u16, ports@[j]),
    {
        out.push((0, ports[i]));
    }
    assert(out@ =~= unbound(ports@));
    out
}

fn ports_of_clone(
    forwards: &Vec<(u16, u16)>,
    mode: NetworkMode,
    opts: &CloneContainerOpts,
) -> (out: Vec<u16>)
    ensures
        out@ == clone_ports(forwards@, mode, opts@),
{
    let mut out: Vec<u16> = Vec::new();
    if opts.inherit_src_ports {
        let n: usize = forwards.len();
        for i in 0..n
            invariant
                n == forwards@.len(),
                out@.len() == i,
                forall|j: int| 0 <= j < i ==> #[trigger] out@[j] == forwards@[j].1,
        {
            out.push(forwards[i].1);
        }
        assert(out@ =~= clone_ports(forwards@, mode, opts@));
    } else if opts.port_bindings.len() == 0 && mode == NetworkMode::Bridge {
        out.push(DEFAULT_CONTAINER_PORT);
    } else {
        out.extend_from_slice(opts.port_bindings.as_slice());
        assert(out@ =~= opts.port_bindings@);
    }
    out
}

/// The first override of a managed label.
pub open spec fn managed_override(overrides: Seq<maps::Pair>) -> Option<Seq<char>>
    decreases overrides.len(),
{
    if overrides.len() == 0 {
        None
    } else {
        match managed_override(overrides.drop_last()) {
            Some(key) => Some(key),
            None => if snapshot_util::managed(overrides.last().0) {
                Some(overrides.last().0)
            } else {
                None
            },
        }
    }
}

proof fn lemma_managed_override_extends(overrides: Seq<maps::Pair>, k: int)
    requires
        0 <= k <= overrides.len(),
        managed_override(overrides.take(k)) is Some,
    ensures
        managed_override(overrides) == managed_override(overrides.take(k)),
    decreases overrides.len() - k,
{
    if k == overrides.len() {
        assert(overrides.take(k) =~= overrides);
    } else {
        assert(overrides.take(k + 1).drop_last() =~= overrides.take(k));
        lemma_managed_override_extends(overrides, k + 1);
    }
}

fn check_overrides(overrides: &StringMap) -> (out: Result<()>)
    ensures
        match out {
            Ok(_) => managed_override(overrides.pairs()) is None,
            Err(e) => managed_override(overrides.pairs()) matches Some(key) && e@
                == ErrorSpec::InvalidArgument(
                "label '"@ + key + "' is managed by containerd-manager and cannot be overridden"@,
            ),
        },
{
    let ghost all = overrides.pairs();
    let n: usize = overrides.len();
    assert(all.take(0) =~= Seq::<maps::Pair>::empty());
    for i in 0..n
        invariant
            n == all.len(),
            all == overrides.pairs(),
            managed_override(all.take(i as int)) is None,
    {
        assert(all.take(i + 1).drop_last() =~= all.take(i as int));
        assert(all.take(i + 1).last() == all[i as int]);
        if snapshot_util::is_managed_label(overrides.key(i).as_str()) {
            proof {
                lemma_managed_override_extends(all, i + 1);
            }
            let mut message = String::from_str("label '");
            message.append(overrides.key(i).as_str());
            message.append("' is managed by containerd-manager and cannot be overridden");
            return Err(Error::InvalidArgument(message));
        }
    }
    assert(all.take(n as int) =~= all);
    Ok(())
}

/// How the clone of a container is created.
pub open spec fn clone_plan(
    env: Seq<maps::Pair>,
    labels: Seq<maps::Pair>,
    forwards: Seq<(u16, u16)>,
    mode: NetworkMode,
    dst_snapshot: Seq<char>,
    opts: CloneOptsSpec,
) -> container::CreateOptsSpec {
    container::CreateOptsSpec {
        env: maps::extended(maps::extended(Seq::empty(), env), opts.extra_env),
        labels: maps::extended(
            maps::extended(Seq::empty(), snapshot_util::unmanaged(labels)),
            opts.label_overrides,
        ),
        mounts: Seq::empty(),
        mode: clone_mode(mode, opts),
        cmd: None,
        port_bindings: unbound(clone_ports(forwards, clone_mode(mode, opts), opts)),
        from_existing_snapshot: Some(dst_snapshot),
    }
}

/// Lays out how the clone of a container is created: the source's environment
/// and labels, what the options override of them, and fresh ports on the
/// prepared snapshot. Managed labels are neither copied nor overridden.
pub fn clone_create_opts(
    src: &ContainerInfo,
    dst_snapshot_key: &str,
    opts: &CloneContainerOpts,
) -> (out: Result<CreateContainerOpts>)
    ensures
        match out {
            Ok(create) => {
                &&& managed_override(opts@.label_overrides) is None
                &&& create@ == clone_plan(
                    src.env.pairs(),
                    src.labels.pairs(),
                    src.port_forwards@,
                    snapshot_util::recorded_mode(src.labels@),
                    dst_snapshot_key@,
                    opts@,
                )
                &&& create.env@ == src.env@.union_prefer_right(opts.extra_env@)
                &&& create.labels@ == snapshot_util::without_managed(
                    src.labels@,
                ).union_prefer_right(opts.label_overrides@)
            },
            Err(e) => managed_override(opts@.label_overrides) matches Some(key) && e@
                == ErrorSpec::InvalidArgument(
                "label '"@ + key + "' is managed by containerd-manager and cannot be overridden"@,
            ),
        },
{
    match check_overrides(&opts.label_overrides) {
        Ok(_) => {},
        Err(e) => {
            return Err(e);
        },
    }
    let mode = match opts.network {
        Some(m) => m,
        None => snapshot_util::network_from_labels(&src.labels),
    };
    let mut env = StringMap::new();
    env.extend(&src.env);
    env.extend(&opts.extra_env);
    let mut labels = StringMap::new();
    snapshot_util::copy_unmanaged(&src.labels, &mut labels);
    labels.extend(&opts.label_overrides);
    proof {
        snapshot_util::lemma_unmanaged(src.labels.pairs());
        maps::lemma_extended(Seq::empty(), src.env.pairs());
        maps::lemma_extended(Seq::empty(), snapshot_util::unmanaged(src.labels.pairs()));
        maps::lemma_extended(
            maps::extended(Seq::empty(), src.env.pairs()),
            opts.extra_env.pairs(),
        );
        maps::lemma_extended(
            maps::extended(Seq::empty(), snapshot_util::unmanaged(src.labels.pairs())),
            opts.label_overrides.pairs(),
        );
        assert(env@ =~= src.env@.union_prefer_right(opts.extra_env@));
        assert(labels@ =~= snapshot_util::without_managed(src.labels@).union_prefer_right(
            opts.label_overrides@,
        ));
    }
    let ports = ports_of_clone(&src.port_forwards, mode, opts);
    let create = CreateContainerOpts {
        env,
        labels,
        mounts: Vec::new(),
        network: NetworkOpts { mode },
        cmd: None,
        port_bindings: unbound_ports(&ports),
        from_existing_snapshot: Some(String::from_str(dst_snapshot_key)),
    };
    assert(container::mount_opt_views(create.mounts@) =~= Seq::<container::MountOptSpec>::empty());
    Ok(create)
}

/// A clone has every variable of its source with the source's value, but for
/// those that the options set; it has those with the options' value, and no
/// others.
pub proof fn law_clone_env(
    env: Seq<maps::Pair>,
    labels: Seq<maps::Pair>,
    forwards: Seq<(u16, u16)>,
    mode: NetworkMode,
    dst_snapshot: Seq<char>,
    opts: CloneOptsSpec,
)
    ensures
        ({
            let made = maps::as_map(
                clone_plan(env, labels, forwards, mode, dst_snapshot, opts).env,
            );
            let src = maps::as_map(env);
            let extra = maps::as_map(opts.extra_env);
            forall|key: Seq<char>|
                #![trigger made.dom().contains(key)]
                {
                    &&& made.dom().contains(key) <==> src.dom().contains(key)
                        || extra.dom().contains(key)
                    &&& extra.dom().contains(key) ==> made[key] == extra[key]
                    &&& src.dom().contains(key) && !extra.dom().contains(key) ==> made[key]
                        == src[key]
                }
        }),
{
    maps::lemma_extended(Seq::empty(), env);
    maps::lemma_extended(maps::extended(Seq::empty(), env), opts.extra_env);
}

/// A clone has every label of its source but the network mode, the bridge
/// address and the port bindings, which are decided anew; the options override
/// labels and add some, and there are no others.
pub proof fn law_clone_labels(
    env: Seq<maps::Pair>,
    labels: Seq<maps::Pair>,
    forwards: Seq<(u16, u16)>,
    mode: NetworkMode,
    dst_snapshot: Seq<char>,
    opts: CloneOptsSpec,
)
    ensures
        ({
            let made = maps::as_map(
                clone_plan(env, labels, forwards, mode, dst_snapshot, opts).labels,
            );
            let src = maps::as_map(labels);
            let over = maps::as_map(opts.label_overrides);
            forall|key: Seq<char>|
                #![trigger made.dom().contains(key)]
                {
                    let copied = src.dom().contains(key) && key
                        != "containerd-manager.network.mode"@ && key
                        != "containerd-manager.bridge.ip"@ && !(
                    "containerd-manager.port."@.is_prefix_of(key));
                    &&& made.dom().contains(key) <==> copied || over.dom().contains(key)
                    &&& over.dom().contains(key) ==> made[key] == over[key]
                    &&& copied && !over.dom().contains(key) ==> made[key] == src[key]
                }
        }),
{
    let kept = snapshot_util::unmanaged(labels);
    snapshot_util::lemma_unmanaged(labels);
    maps::lemma_extended(Seq::empty(), kept);
    maps::lemma_extended(maps::extended(Seq::empty(), kept), opts.label_overrides);
}

/// The options of a clone are refused exactly if they override the network
/// mode, the bridge address or a port binding.
pub proof fn law_managed_overrides_are_refused(overrides: Seq<maps::Pair>)
    ensures
        managed_override(overrides) is Some <==> exists|i: int|
            0 <= i < overrides.len() && ((#[trigger] overrides[i]).0
                == "containerd-manager.network.mode"@ || overrides[i].0
                == "containerd-manager.bridge.ip"@ || "containerd-manager.port."@.is_prefix_of(
                overrides[i].0,
            )),
    decreases overrides.len(),
{
    if overrides.len() > 0 {
        let front = overrides.drop_last();
        law_managed_overrides_are_refused(front);
        if managed_override(front) is Some {
            let i = choose|i: int|
                0 <= i < front.len() && ((#[trigger] front[i]).0
                    == "containerd-manager.network.mode"@ || front[i].0
                    == "containerd-manager.bridge.ip"@ || "containerd-manager.port."@.is_prefix_of(
                    front[i].0,
                ));
            assert(overrides[i] == front[i]);
        }
        assert forall|i: int| 0 <= i < front.len() implies #[trigger] overrides[i] == front[i] by {}
        assert(overrides[overrides.len() - 1] == overrides.last());
    }
}

/// The ports of a clone: one binding for each port of its source, in order, if
/// it inherits them, else one for each port of the options. Options that name
/// none mean the default port in bridge mode, and no port in the other modes.
/// All host ports are still to be allocated. The network mode is that of the
/// options if they name one, else the source's.
pub proof fn law_clone_ports(
    env: Seq<maps::Pair>,
    labels: Seq<maps::Pair>,
    forwards: Seq<(u16, u16)>,
    mode: NetworkMode,
    dst_snapshot: Seq<char>,
    opts: CloneOptsSpec,
)
    ensures
        ({
            let plan = clone_plan(env, labels, forwards, mode, dst_snapshot, opts);
            let made = plan.port_bindings;
            &&& forall|i: int| 0 <= i < made.len() ==> (#[trigger] made[i]).0 == 0
            &&& opts.inherit_src_ports ==> made.len() == forwards.len() && forall|i: int|
                0 <= i < made.len() ==> (#[trigger] made[i]).1 == forwards[i].1
            &&& !opts.inherit_src_ports && opts.port_bindings.len() > 0 ==> made.len()
                == opts.port_bindings.len() && forall|i: int|
                0 <= i < made.len() ==> (#[trigger] made[i]).1 == opts.port_bindings[i]
            &&& !opts.inherit_src_ports && opts.port_bindings.len() == 0 && plan.mode
                == NetworkMode::Bridge ==> made.len() == 1 && made[0].1 == 27017
            &&& !opts.inherit_src_ports && opts.port_bindings.len() == 0 && plan.mode
                != NetworkMode::Bridge ==> made.len() == 0
            &&& opts.network matches Some(m) ==> plan.mode == m
            &&& opts.network is None ==> plan.mode == mode
            &&& plan.from_existing_snapshot == Some(dst_snapshot)
            &&& plan.cmd is None && plan.mounts.len() == 0
        }),
{
}

/// A clone in bridge mode that inherits its ports exposes those of its source,
/// each on a host port that is still to be allocated, and no other.
pub proof fn law_clone_copies_ports(
    env: Seq<maps::Pair>,
    labels: Seq<maps::Pair>,
    forwards: Seq<(u16, u16)>,
    mode: NetworkMode,
    dst_snapshot: Seq<char>,
    opts: CloneOptsSpec,
)
    requires
        opts.inherit_src_ports,
        clone_mode(mode, opts) == NetworkMode::Bridge,
    ensures
        ({
            let plan = clone_plan(env, labels, forwards, mode, dst_snapshot, opts);
            crate::create::wanted_ports(
                plan.mode,
                plan.port_bindings,
                plan.from_existing_snapshot is Some,
            ) == forwards.map_values(|f: (u16, u16)| f.1)
        }),
{
    let plan = clone_plan(env, labels, forwards, mode, dst_snapshot, opts);
    assert(plan.port_bindings.map_values(|b: (u16, u16)| b.1) =~= forwards.map_values(
        |f: (u16, u16)| f.1,
    ));
}

/// Where cloning stands.
#[derive(Debug, Clone, Copy, PartialEq, Eq, Structural)]
pub enum ClonePhase {
    /// Inspect the source.
    Inspect,
    /// Stop the source.
    Stop,
    /// Drop the task record of the source, so that a restart can recreate it.
    DeleteTask,
    /// Fetch the record of the source.
    Fetch,
    /// Look for the base snapshot.
    StatBase,
    /// Commit the source's writable layer to the base snapshot.
    Commit,
    /// Prepare the source's writable layer anew on top of the base.
    Reprepare,
    /// Prepare the clone's writable layer on top of the base.
    PrepareDst,
    /// Create the clone's record.
    CreateDst,
    /// Remove the clone's snapshot again; otherwise retries would find it in
    /// the way.
    RemoveDst,
    /// Restart the source; a failure is passed over.
    RestartSrc,
    Finished,
}

/// An ongoing clone.
#[derive(Debug)]
pub struct CloneOp {
    pub dst: String,
    pub restart_src: bool,
    pub was_running: bool,
    pub phase: ClonePhase,
    /// What the clone fails with, once it failed.
    pub error: Option<Error>,
}

#[verifier::ext_equal]
pub struct CloneOpSpec {
    pub dst: Seq<char>,
    pub restart_src: bool,
    pub was_running: bool,
    pub phase: ClonePhase,
    pub error: Option<ErrorSpec>,
}

impl View for CloneOp {
    type V = CloneOpSpec;

    open spec fn view(&self) -> CloneOpSpec {
        CloneOpSpec {
            dst: self.dst@,
            restart_src: self.restart_src,
            was_running: self.was_running,
            phase: self.phase,
            error: error::opt_error(self.error),
        }
    }
}

impl CloneOpSpec {
    pub open spec fn at(self, phase: ClonePhase) -> CloneOpSpec {
        CloneOpSpec { phase, ..self }
    }

    /// The phase behind the work on snapshots and records: the source is
    /// restarted if it was running and that is wanted, whatever came of the
    /// clone.
    pub open spec fn wind_up(self) -> CloneOpSpec {
        self.at(
            if self.was_running && self.restart_src {
                ClonePhase::RestartSrc
            } else {
                ClonePhase::Finished
            },
        )
    }

    pub open spec fn failed(self, e: ErrorSpec) -> CloneOpSpec {
        CloneOpSpec { error: Some(e), ..self }
    }

    /// What follows what came of the current phase.
    pub open spec fn next(self, ev: StepEventSpec) -> CloneOpSpec {
        match self.phase {
            ClonePhase::Inspect => match ev {
                StepEventSpec::Seen { running: true } => CloneOpSpec {
                    was_running: true,
                    ..self.at(ClonePhase::Stop)
                },
                StepEventSpec::Seen { running: false } => CloneOpSpec {
                    was_running: false,
                    ..self.at(ClonePhase::Fetch)
                },
                _ => self.failed(ev.error("get_container"@)).at(ClonePhase::Finished),
            },
            ClonePhase::Stop => if ev.ok() {
                self.at(ClonePhase::DeleteTask)
            } else {
                self.failed(ev.error("kill_task"@)).at(ClonePhase::Finished)
            },
            ClonePhase::DeleteTask => if ev.ok() {
                self.at(ClonePhase::Fetch)
            } else {
                self.failed(ev.error("delete_task"@)).at(ClonePhase::Finished)
            },
            ClonePhase::Fetch => if ev.ok() {
                self.at(ClonePhase::StatBase)
            } else {
                self.failed(ev.error("get_container"@)).wind_up()
            },
            ClonePhase::StatBase => if ev.ok() {
                self.at(ClonePhase::PrepareDst)
            } else if ev.code() == Some(Code::NotFound) {
                self.at(ClonePhase::Commit)
            } else {
                self.failed(ev.error("clone_stat_base"@)).wind_up()
            },
            ClonePhase::Commit => if ev.ok() {
                self.at(ClonePhase::Reprepare)
            } else if ev.code() == Some(Code::AlreadyExists) {
                self.at(ClonePhase::PrepareDst)
            } else {
                self.failed(ev.error("clone_commit_src"@)).wind_up()
            },
            ClonePhase::Reprepare => if ev.ok() || ev.code() == Some(Code::AlreadyExists) {
                self.at(ClonePhase::PrepareDst)
            } else {
                self.failed(ev.error("clone_reprepare_src"@)).wind_up()
            },
            ClonePhase::PrepareDst => if ev.ok() {
                self.at(ClonePhase::CreateDst)
            } else if ev.code() == Some(Code::AlreadyExists) {
                self.failed(ErrorSpec::ContainerAlreadyExists(self.dst)).wind_up()
            } else {
                self.failed(ev.error("clone_prepare_dst"@)).wind_up()
            },
            ClonePhase::CreateDst => if ev.ok() {
                self.wind_up()
            } else {
                self.failed(ev.error("create_container"@)).at(ClonePhase::RemoveDst)
            },
            ClonePhase::RemoveDst => self.wind_up(),
            ClonePhase::RestartSrc => self.at(ClonePhase::Finished),
            ClonePhase::Finished => self,
        }
    }

    /// The call to the snapshotter that the current phase takes, if the source
    /// is `src` with the writable layer `src_key`.
    pub open spec fn call(
        self,
        src: Seq<char>,
        snapshotter: Seq<char>,
        src_key: Seq<char>,
    ) -> Option<SnapshotCallSpec> {
        match self.phase {
            ClonePhase::StatBase => Some(
                SnapshotCallSpec::Stat { snapshotter, key: base_key(src) },
            ),
            ClonePhase::Commit => Some(
                SnapshotCallSpec::Commit {
                    snapshotter,
                    name: base_key(src),
                    key: src_key,
                    labels: Map::empty(),
                },
            ),
            ClonePhase::Reprepare => Some(
                SnapshotCallSpec::Prepare { snapshotter, key: src_key, parent: base_key(src) },
            ),
            ClonePhase::PrepareDst => Some(
                SnapshotCallSpec::Prepare {
                    snapshotter,
                    key: container::snapshot_key(self.dst),
                    parent: base_key(src),
                },
            ),
            ClonePhase::RemoveDst => Some(
                SnapshotCallSpec::Remove { snapshotter, key: container::snapshot_key(self.dst) },
            ),
            _ => None,
        }
    }

    /// The clone after all of `evs`.
    pub open spec fn run(self, evs: Seq<StepEventSpec>) -> CloneOpSpec
        decreases evs.len(),
    {
        if evs.len() == 0 {
            self
        } else {
            self.run(evs.drop_last()).next(evs.last())
        }
    }

    /// Whether, in the course of `evs`, `phase` was come to and went well.
    #[verifier::opaque]
    pub open spec fn went_well(self, evs: Seq<StepEventSpec>, phase: ClonePhase) -> bool {
        exists|i: int|
            0 <= i < evs.len() && self.run(evs.take(i)).phase == phase && (#[trigger] evs[i]).ok()
    }

    /// Whether, in the course of `evs`, someone else turned out to have made
    /// the base snapshot first.
    #[verifier::opaque]
    pub open spec fn lost_race(self, evs: Seq<StepEventSpec>) -> bool {
        exists|i: int|
            0 <= i < evs.len() && self.run(evs.take(i)).phase == ClonePhase::Commit && (
            #[trigger] evs[i]).code() == Some(Code::AlreadyExists)
    }

    /// How many phases are left at most.
    pub open spec fn rank(self) -> nat {
        match self.phase {
            ClonePhase::Inspect => 11,
            ClonePhase::Stop => 10,
            ClonePhase::DeleteTask => 9,
            ClonePhase::Fetch => 8,
            ClonePhase::StatBase => 7,
            ClonePhase::Commit => 6,
            ClonePhase::Reprepare => 5,
            ClonePhase::PrepareDst => 4,
            ClonePhase::CreateDst => 3,
            ClonePhase::RemoveDst => 2,
            ClonePhase::RestartSrc => 1,
            ClonePhase::Finished => 0,
        }
    }

    /// What holds of every clone that started with `begin`.
    pub open spec fn inv(self) -> bool {
        &&& self.phase == ClonePhase::RestartSrc ==> self.was_running && self.restart_src
        &&& self.phase == ClonePhase::RemoveDst ==> self.error is Some
        &&& self.error is Some ==> self.phase == ClonePhase::RemoveDst || self.phase
            == ClonePhase::RestartSrc || self.phase == ClonePhase::Finished
        &&& (self.phase == ClonePhase::Stop || self.phase == ClonePhase::DeleteTask)
            ==> self.was_running
    }
}

impl CloneOp {
    pub fn begin(dst: &str, opts: &CloneContainerOpts) -> (op: Self)
        ensures
            op@ == (CloneOpSpec {
                dst: dst@,
                restart_src: opts.restart_src,
                was_running: false,
                phase: ClonePhase::Inspect,
                error: None,
            }),
    {
        CloneOp {
            dst: String::from_str(dst),
            restart_src: opts.restart_src,
            was_running: false,
            phase: ClonePhase::Inspect,
            error: None,
        }
    }

    fn wind_up(&mut self)
        ensures
            final(self)@ == old(self)@.wind_up(),
    {
        self.phase = if self.was_running && self.restart_src {
            ClonePhase::RestartSrc
        } else {
            ClonePhase::Finished
        };
    }

    fn fail(&mut self, e: Error)
        ensures
            final(self)@ == old(self)@.failed(e@),
    {
        self.error = Some(e);
    }

    /// Takes in what came of the current phase.
    pub fn advance(&mut self, ev: StepEvent)
        ensures
            final(self)@ == old(self)@.next(ev@),
    {
        match self.phase {
            ClonePhase::Inspect => match ev {
                StepEvent::Seen { running } => {
                    self.was_running = running;
                    self.phase = if running {
                        ClonePhase::Stop
                    } else {
                        ClonePhase::Fetch
                    };
                },
                _ => {
                    self.fail(ev.into_error("get_container"));
                    self.phase = ClonePhase::Finished;
                },
            },
            ClonePhase::Stop => {
                if ev.is_ok() {
                    self.phase = ClonePhase::DeleteTask;
                } else {
                    self.fail(ev.into_error("kill_task"));
                    self.phase = ClonePhase::Finished;
                }
            },
            ClonePhase::DeleteTask => {
                if ev.is_ok() {
                    self.phase = ClonePhase::Fetch;
                } else {
                    self.fail(ev.into_error("delete_task"));
                    self.phase = ClonePhase::Finished;
                }
            },
            ClonePhase::Fetch => {
                if ev.is_ok() {
                    self.phase = ClonePhase::StatBase;
                } else {
                    self.fail(ev.into_error("get_container"));
                    self.wind_up();
                }
            },
            ClonePhase::StatBase => {
                if ev.is_ok() {
                    self.phase = ClonePhase::PrepareDst;
                } else if ev.refusal() == Some(Code::NotFound) {
                    self.phase = ClonePhase::Commit;
                } else {
                    self.fail(ev.into_error("clone_stat_base"));
                    self.wind_up();
                }
            },
            ClonePhase::Commit => {
                if ev.is_ok() {
                    self.phase = ClonePhase::Reprepare;
                } else if ev.refusal() == Some(Code::AlreadyExists) {
                    self.phase = ClonePhase::PrepareDst;
                } else {
                    self.fail(ev.into_error("clone_commit_src"));
                    self.wind_up();
                }
            },
            ClonePhase::Reprepare => {
                if ev.is_ok() || ev.refusal() == Some(Code::AlreadyExists) {
                    self.phase = ClonePhase::PrepareDst;
                } else {
                    self.fail(ev.into_error("clone_reprepare_src"));
                    self.wind_up();
                }
            },
            ClonePhase::PrepareDst => {
                if ev.is_ok() {
                    self.phase = ClonePhase::CreateDst;
                } else if ev.refusal() == Some(Code::AlreadyExists) {
                    self.fail(Error::ContainerAlreadyExists(self.dst.clone()));
                    self.wind_up();
                } else {
                    self.fail(ev.into_error("clone_prepare_dst"));
                    self.wind_up();
                }
            },
            ClonePhase::CreateDst => {
                if ev.is_ok() {
                    self.wind_up();
                } else {
                    self.fail(ev.into_error("create_container"));
                    self.phase = ClonePhase::RemoveDst;
                }
            },
            ClonePhase::RemoveDst => {
                self.wind_up();
            },
            ClonePhase::RestartSrc => {
                self.phase = ClonePhase::Finished;
            },
            ClonePhase::Finished => {},
        }
    }

    /// The call to the snapshotter that the current phase takes.
    pub fn call(&self, src: &str, snapshotter: &str, src_key: &str) -> (call: Option<SnapshotCall>)
        ensures
            snapshot_util::opt_call(call) == self@.call(src@, snapshotter@, src_key@),
    {
        let base = clone_base_key(src);
        let dst_key = container::snapshot_key_for(self.dst.as_str());
        match self.phase {
            ClonePhase::StatBase => Some(SnapshotCall::stat(snapshotter, base.as_str())),
            ClonePhase::Commit => Some(
                SnapshotCall::commit(snapshotter, base.as_str(), src_key, StringMap::new()),
            ),
            ClonePhase::Reprepare => Some(
                SnapshotCall::prepare(snapshotter, src_key, base.as_str()),
            ),
            ClonePhase::PrepareDst => Some(
                SnapshotCall::prepare(snapshotter, dst_key.as_str(), base.as_str()),
            ),
            ClonePhase::RemoveDst => Some(SnapshotCall::remove(snapshotter, dst_key.as_str())),
            _ => None,
        }
    }

    /// The result of a finished clone.
    pub fn outcome(self) -> (out: Result<()>)
        ensures
            match out {
                Ok(_) => self@.error is None,
                Err(e) => self@.error == Some(e@),
            },
    {
        match self.error {
            Some(e) => Err(e),
            None => Ok(()),
        }
    }
}

/// What holds of a clone when it begins holds throughout.
pub proof fn law_clone_invariant(op: CloneOpSpec, ev: StepEventSpec)
    requires
        op.inv(),
    ensures
        op.next(ev).inv(),
        op.error is Some ==> op.next(ev).error == op.error,
{
}

/// A source that was running is restarted after a failed clone just as after a
/// successful one, if that is wanted, once its record has been fetched: no
/// failure behind that point ends the clone without the restart.
pub proof fn law_clone_restarts_src(op: CloneOpSpec, ev: StepEventSpec)
    requires
        op.inv(),
        op.was_running,
        op.restart_src,
        op.phase != ClonePhase::Inspect,
        op.phase != ClonePhase::Stop,
        op.phase != ClonePhase::DeleteTask,
        op.phase != ClonePhase::RestartSrc,
        op.phase != ClonePhase::Finished,
    ensures
        op.next(ev).phase != ClonePhase::Finished,
{
}

/// What happened before the last event has happened after it, and what the
/// last event tells of has happened too.
proof fn lemma_clone_step(begin: CloneOpSpec, evs: Seq<StepEventSpec>, phase: ClonePhase)
    requires
        evs.len() > 0,
    ensures
        begin.went_well(evs.drop_last(), phase) ==> begin.went_well(evs, phase),
        begin.lost_race(evs.drop_last()) ==> begin.lost_race(evs),
        begin.run(evs.drop_last()).phase == phase && evs.last().ok() ==> begin.went_well(evs, phase),
        begin.run(evs.drop_last()).phase == ClonePhase::Commit && evs.last().code() == Some(
            Code::AlreadyExists,
        ) ==> begin.lost_race(evs),
{
    reveal(CloneOpSpec::went_well);
    reveal(CloneOpSpec::lost_race);
    let less = evs.drop_last();
    let k = less.len() as int;
    assert(evs.take(k) =~= less);
    assert(evs[k] == evs.last());
    if begin.went_well(less, phase) {
        let i = choose|i: int|
            0 <= i < less.len() && begin.run(less.take(i)).phase == phase && (
            #[trigger] less[i]).ok();
        assert(evs.take(i) =~= less.take(i));
        assert(evs[i] == less[i]);
    }
    if begin.lost_race(less) {
        let i = choose|i: int|
            0 <= i < less.len() && begin.run(less.take(i)).phase == ClonePhase::Commit && (
            #[trigger] less[i]).code() == Some(Code::AlreadyExists);
        assert(evs.take(i) =~= less.take(i));
        assert(evs[i] == less[i]);
    }
}

/// What has happened once a clone came to a phase.
proof fn lemma_clone_run(begin: CloneOpSpec, evs: Seq<StepEventSpec>)
    requires
        begin.phase == ClonePhase::Inspect,
        begin.error is None,
    ensures
        begin.run(evs).inv(),
        ({
            let op = begin.run(evs);
            let behind_stop = op.phase != ClonePhase::Inspect && op.phase != ClonePhase::Stop;
            let behind_delete = behind_stop && op.phase != ClonePhase::DeleteTask;
            let layer_made = op.phase == ClonePhase::CreateDst || op.phase == ClonePhase::RemoveDst;
            let succeeded = op.error is None && (op.phase == ClonePhase::RestartSrc || op.phase
                == ClonePhase::Finished);
            let base_made = begin.went_well(evs, ClonePhase::StatBase) || begin.went_well(
                evs,
                ClonePhase::Commit,
            ) || begin.lost_race(evs);
            &&& op.dst == begin.dst
            &&& op.restart_src == begin.restart_src
            &&& op.rank() + evs.len() <= 11 || op.phase == ClonePhase::Finished
            &&& behind_stop && op.was_running && op.error is None ==> begin.went_well(
                evs,
                ClonePhase::Stop,
            )
            &&& behind_delete && op.was_running && op.error is None ==> begin.went_well(
                evs,
                ClonePhase::DeleteTask,
            )
            &&& op.phase == ClonePhase::Reprepare ==> begin.went_well(evs, ClonePhase::Commit)
            &&& (op.phase == ClonePhase::PrepareDst || layer_made || succeeded) ==> base_made
            &&& (layer_made || succeeded) ==> begin.went_well(evs, ClonePhase::PrepareDst)
            &&& succeeded ==> begin.went_well(evs, ClonePhase::CreateDst)
        }),
    decreases evs.len(),
{
    if evs.len() > 0 {
        lemma_clone_run(begin, evs.drop_last());
        lemma_clone_step(begin, evs, ClonePhase::Stop);
        lemma_clone_step(begin, evs, ClonePhase::DeleteTask);
        lemma_clone_step(begin, evs, ClonePhase::StatBase);
        lemma_clone_step(begin, evs, ClonePhase::Commit);
        lemma_clone_step(begin, evs, ClonePhase::PrepareDst);
        lemma_clone_step(begin, evs, ClonePhase::CreateDst);
    }
}

proof fn lemma_clone_all_well(begin: CloneOpSpec, evs: Seq<StepEventSpec>)
    requires
        begin.phase == ClonePhase::Inspect,
        begin.error is None,
        evs.len() > 0 ==> evs[0] is Seen,
        forall|i: int| 1 <= i < evs.len() ==> #[trigger] evs[i] == StepEventSpec::Done,
    ensures
        begin.run(evs).error is None,
        evs.len() > 0 ==> begin.run(evs).phase != ClonePhase::Inspect,
        evs.len() == 0 ==> begin.run(evs).phase == ClonePhase::Inspect,
        evs.len() > 0 ==> begin.run(evs).was_running == evs[0]->running,
    decreases evs.len(),
{
    if evs.len() > 0 {
        let less = evs.drop_last();
        assert forall|i: int| 1 <= i < less.len() implies #[trigger] less[i]
            == StepEventSpec::Done by {
            assert(less[i] == evs[i]);
        }
        lemma_clone_all_well(begin, less);
        lemma_clone_run(begin, less);
        assert(evs.last() == evs[evs.len() - 1]);
    }
}

/// A clone whose steps all go well succeeds, be its source running or not.
pub proof fn law_clone_all_well(begin: CloneOpSpec, evs: Seq<StepEventSpec>)
    requires
        begin.phase == ClonePhase::Inspect,
        begin.error is None,
        evs.len() >= 11,
        evs[0] is Seen,
        forall|i: int| 1 <= i < evs.len() ==> #[trigger] evs[i] == StepEventSpec::Done,
    ensures
        begin.run(evs).phase == ClonePhase::Finished,
        begin.run(evs).error is None,
        begin.run(evs).was_running == evs[0]->running,
{
    lemma_clone_all_well(begin, evs);
    lemma_clone_run(begin, evs);
}

/// A base that is not there yet is made; one that someone else made meanwhile is
/// used, and a source layer that someone else prepared again is left alone. Any
/// other step that goes wrong makes the clone fail with what went wrong: an
/// error as it is, a refusal as containerd gave it, or as an existing container
/// if the clone's layer is there already.
pub proof fn law_clone_failure(op: CloneOpSpec, e: ErrorSpec, s: crate::error::StatusSpec)
    requires
        op.error is None,
        op.phase != ClonePhase::RemoveDst,
        op.phase != ClonePhase::RestartSrc,
        op.phase != ClonePhase::Finished,
    ensures
        ({
            let failed = op.next(StepEventSpec::Failed(e));
            let refused = op.next(StepEventSpec::Refused(s));
            &&& failed.error == Some(e)
            &&& op.phase == ClonePhase::StatBase && s.code == Code::NotFound ==> refused.error
                is None && refused.phase == ClonePhase::Commit
            &&& (op.phase == ClonePhase::Commit || op.phase == ClonePhase::Reprepare) && s.code
                == Code::AlreadyExists ==> refused.error is None && refused.phase
                == ClonePhase::PrepareDst
            &&& op.phase == ClonePhase::PrepareDst && s.code == Code::AlreadyExists
                ==> refused.error == Some(ErrorSpec::ContainerAlreadyExists(op.dst))
            &&& s.code != Code::NotFound && s.code != Code::AlreadyExists ==> (
            refused.error matches Some(ErrorSpec::Containerd { source, .. }) && source == s)
            &&& s.code == Code::NotFound && op.phase != ClonePhase::StatBase ==> (
            refused.error matches Some(ErrorSpec::Containerd { source, .. }) && source == s)
            &&& s.code == Code::AlreadyExists && op.phase != ClonePhase::Commit && op.phase
                != ClonePhase::Reprepare && op.phase != ClonePhase::PrepareDst ==> (
            refused.error matches Some(ErrorSpec::Containerd { source, .. }) && source == s)
        }),
{
}

/// A running source is stopped and its task deleted, an idle one is not touched.
/// Once the clone is made, or could not be, the source is restarted exactly if
/// it was running and that is wanted; whether the restart works does not matter
/// to the clone.
pub proof fn law_clone_steps(op: CloneOpSpec, ev: StepEventSpec)
    ensures
        op.phase == ClonePhase::Inspect && ev == (StepEventSpec::Seen { running: true })
            ==> op.next(ev).phase == ClonePhase::Stop && op.next(ev).was_running,
        op.phase == ClonePhase::Inspect && ev == (StepEventSpec::Seen { running: false })
            ==> op.next(ev).phase == ClonePhase::Fetch && !op.next(ev).was_running,
        op.phase == ClonePhase::Stop && ev == StepEventSpec::Done ==> op.next(ev).phase
            == ClonePhase::DeleteTask,
        op.phase == ClonePhase::DeleteTask && ev == StepEventSpec::Done ==> op.next(ev).phase
            == ClonePhase::Fetch,
        op.phase == ClonePhase::Fetch && ev == StepEventSpec::Done ==> op.next(ev).phase
            == ClonePhase::StatBase,
        op.phase == ClonePhase::StatBase && ev == StepEventSpec::Done ==> op.next(ev).phase
            == ClonePhase::PrepareDst,
        op.phase == ClonePhase::Commit && ev == StepEventSpec::Done ==> op.next(ev).phase
            == ClonePhase::Reprepare,
        op.phase == ClonePhase::Reprepare && ev == StepEventSpec::Done ==> op.next(ev).phase
            == ClonePhase::PrepareDst,
        op.phase == ClonePhase::PrepareDst && ev == StepEventSpec::Done ==> op.next(ev).phase
            == ClonePhase::CreateDst,
        op.phase == ClonePhase::RemoveDst || (op.phase == ClonePhase::CreateDst && ev
            == StepEventSpec::Done) || (op.phase == ClonePhase::PrepareDst && (ev is Failed
            || ev is Refused)) ==> op.next(ev).phase == if op.was_running && op.restart_src {
            ClonePhase::RestartSrc
        } else {
            ClonePhase::Finished
        },
        op.phase == ClonePhase::RemoveDst || op.phase == ClonePhase::RestartSrc
            ==> op.next(ev).error == op.error,
        op.phase == ClonePhase::RestartSrc ==> op.next(ev).phase == ClonePhase::Finished,
        op.next(ev).dst == op.dst && op.next(ev).restart_src == op.restart_src,
{
}

/// The base of a source is named after it. It is looked for, made of the
/// source's layer, and becomes the parent of the source's fresh layer and of the
/// clone's, which is named after the clone. No other phase calls the
/// snapshotter.
pub proof fn law_clone_call(
    op: CloneOpSpec,
    src: Seq<char>,
    snapshotter: Seq<char>,
    src_key: Seq<char>,
)
    ensures
        ({
            let base = src + "-clone-base"@;
            let dst_key = op.dst + "-snapshot"@;
            op.call(src, snapshotter, src_key) == match op.phase {
                ClonePhase::StatBase => Some(SnapshotCallSpec::Stat { snapshotter, key: base }),
                ClonePhase::Commit => Some(
                    SnapshotCallSpec::Commit {
                        snapshotter,
                        name: base,
                        key: src_key,
                        labels: Map::empty(),
                    },
                ),
                ClonePhase::Reprepare => Some(
                    SnapshotCallSpec::Prepare { snapshotter, key: src_key, parent: base },
                ),
                ClonePhase::PrepareDst => Some(
                    SnapshotCallSpec::Prepare { snapshotter, key: dst_key, parent: base },
                ),
                ClonePhase::RemoveDst => Some(
                    SnapshotCallSpec::Remove { snapshotter, key: dst_key },
                ),
                _ => None,
            }
        }),
{
}

/// Whatever happens, a clone is over after at most eleven steps.
pub proof fn law_clone_ends(begin: CloneOpSpec, evs: Seq<StepEventSpec>)
    requires
        begin.phase == ClonePhase::Inspect,
        begin.error is None,
        evs.len() >= 11,
    ensures
        begin.run(evs).phase == ClonePhase::Finished,
{
    lemma_clone_run(begin, evs);
}

/// A clone that ends without an error has created the clone's record, on a
/// writable layer that it prepared on top of an existing base snapshot. A
/// source that was running was stopped first, and its task deleted.
pub proof fn law_clone_success(begin: CloneOpSpec, evs: Seq<StepEventSpec>)
    requires
        begin.phase == ClonePhase::Inspect,
        begin.error is None,
        begin.run(evs).phase == ClonePhase::Finished,
        begin.run(evs).error is None,
    ensures
        begin.went_well(evs, ClonePhase::CreateDst),
        begin.went_well(evs, ClonePhase::PrepareDst),
        begin.went_well(evs, ClonePhase::StatBase) || begin.went_well(evs, ClonePhase::Commit)
            || begin.lost_race(evs),
        begin.run(evs).was_running ==> begin.went_well(evs, ClonePhase::Stop) && begin.went_well(
            evs,
            ClonePhase::DeleteTask,
        ),
{
    lemma_clone_run(begin, evs);
}

/// Every layer that a clone prepares is a copy-on-write child of the base; what
/// it commits is the source's layer, only to the base; and what it removes is
/// the clone's own layer, which it prepared itself before.
pub proof fn law_clone_calls(
    begin: CloneOpSpec,
    evs: Seq<StepEventSpec>,
    src: Seq<char>,
    snapshotter: Seq<char>,
    src_key: Seq<char>,
)
    requires
        begin.phase == ClonePhase::Inspect,
        begin.error is None,
    ensures
        match begin.run(evs).call(src, snapshotter, src_key) {
            Some(SnapshotCallSpec::Prepare { parent, key, .. }) => parent == base_key(src) && (key
                == src_key || key == container::snapshot_key(begin.dst)),
            Some(SnapshotCallSpec::Commit { name, key, .. }) => name == base_key(src) && key
                == src_key,
            Some(SnapshotCallSpec::Remove { key, .. }) => key == container::snapshot_key(begin.dst)
                && begin.went_well(evs, ClonePhase::PrepareDst),
            _ => true,
        },
{
    lemma_clone_run(begin, evs);
}

/// The writable layer of the source is committed only once its task is gone,
/// and the snapshot of a clone whose record could not be created is removed.
pub proof fn law_clone_order(op: CloneOpSpec, ev: StepEventSpec)
    requires
        op.inv(),
    ensures
        op.next(ev).phase == ClonePhase::Fetch ==> (op.phase == ClonePhase::Inspect && ev
            == (StepEventSpec::Seen { running: false })) || (op.phase == ClonePhase::DeleteTask
            && ev.ok()),
        op.next(ev).phase == ClonePhase::Commit ==> op.phase == ClonePhase::StatBase && ev.code()
            == Some(Code::NotFound),
        op.phase == ClonePhase::CreateDst && !ev.ok() ==> op.next(ev).phase
            == ClonePhase::RemoveDst,
{
}

} // verus!
