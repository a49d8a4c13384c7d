//! OCI image configurations and runtime specs as plain values, and their JSON
//! form.

use std::path::PathBuf;

use oci_spec::image as oci_image;
use oci_spec::runtime as oci_runtime;
use oci_spec::runtime::Capability as OciCap;
use vstd::prelude::*;

use crate::maps;
use crate::text;

verus! {

/// The execution parameters of an image.
#[derive(Debug)]
pub struct RunConfig {
    pub labels: Option<Vec<(String, String)>>,
    pub entrypoint: Option<Vec<String>>,
    pub cmd: Option<Vec<String>>,
    pub env: Option<Vec<String>>,
    pub working_dir: Option<String>,
}

/// What the library reads of an image configuration.
#[derive(Debug)]
pub struct ImageConfig {
    pub config: Option<RunConfig>,
    pub diff_ids: Vec<String>,
}

#[verifier::ext_equal]
pub struct RunConfigSpec {
    pub labels: Option<Map<Seq<char>, Seq<char>>>,
    pub entrypoint: Option<Seq<Seq<char>>>,
    pub cmd: Option<Seq<Seq<char>>>,
    pub env: Option<Seq<Seq<char>>>,
    pub working_dir: Option<Seq<char>>,
}

#[verifier::ext_equal]
pub struct ImageConfigSpec {
    pub config: Option<RunConfigSpec>,
    pub diff_ids: Seq<Seq<char>>,
}

/// The strings of an optional list.
pub open spec fn opt_texts(list: Option<Vec<String>>) -> Option<Seq<Seq<char>>> {
    match list {
        Some(v) => Some(text::texts(v@)),
        None => None,
    }
}

impl View for RunConfig {
    type V = RunConfigSpec;

    open spec fn view(&self) -> RunConfigSpec {
        RunConfigSpec {
            labels: match self.labels {
                Some(v) => Some(maps::as_map(maps::pair_views(v@))),
                None => None,
            },
            entrypoint: opt_texts(self.entrypoint),
            cmd: opt_texts(self.cmd),
            env: opt_texts(self.env),
            working_dir: match self.working_dir {
                Some(s) => Some(s@),
                None => None,
            },
        }
    }
}

impl View for ImageConfig {
    type V = ImageConfigSpec;

    open spec fn view(&self) -> ImageConfigSpec {
        ImageConfigSpec {
            config: match self.config {
                Some(c) => Some(c@),
                None => None,
            },
            diff_ids: text::texts(self.diff_ids@),
        }
    }
}

impl ImageConfigSpec {
    /// The labels of the image; none if it has no execution parameters.
    pub open spec fn labels(self) -> Map<Seq<char>, Seq<char>> {
        match self.config {
            Some(RunConfigSpec { labels: Some(m), .. }) => m,
            _ => Map::empty(),
        }
    }

    pub open spec fn entrypoint(self) -> Seq<Seq<char>> {
        match self.config {
            Some(RunConfigSpec { entrypoint: Some(v), .. }) => v,
            _ => Seq::empty(),
        }
    }

    pub open spec fn cmd(self) -> Seq<Seq<char>> {
        match self.config {
            Some(RunConfigSpec { cmd: Some(v), .. }) => v,
            _ => Seq::empty(),
        }
    }

    pub open spec fn env(self) -> Seq<Seq<char>> {
        match self.config {
            Some(RunConfigSpec { env: Some(v), .. }) => v,
            _ => Seq::empty(),
        }
    }

    pub open spec fn working_dir(self) -> Option<Seq<char>> {
        match self.config {
            Some(RunConfigSpec { working_dir: Some(s), .. }) => Some(s),
            _ => None,
        }
    }
}

/// The execution parameters of an image are those that its configuration holds,
/// each under its own name; what it does not hold is empty.
pub proof fn law_image_parameters(image: ImageConfigSpec, config: RunConfigSpec)
    ensures
        image.config is None ==> image.labels() == Map::<Seq<char>, Seq<char>>::empty()
            && image.entrypoint().len() == 0 && image.cmd().len() == 0 && image.env().len() == 0
            && image.working_dir() is None,
        image.config == Some(config) ==> {
            &&& config.labels matches Some(m) ==> image.labels() == m
            &&& config.labels is None ==> image.labels() == Map::<Seq<char>, Seq<char>>::empty()
            &&& config.entrypoint matches Some(v) ==> image.entrypoint() == v
            &&& config.entrypoint is None ==> image.entrypoint().len() == 0
            &&& config.cmd matches Some(v) ==> image.cmd() == v
            &&& config.cmd is None ==> image.cmd().len() == 0
            &&& config.env matches Some(v) ==> image.env() == v
            &&& config.env is None ==> image.env().len() == 0
            &&& image.working_dir() == config.working_dir
        },
{
}

/// `oci_spec::image::Config`: the execution parameters of an image.
#[verifier::external_type_specification]
#[verifier::external_body]
pub struct ExConfig(oci_spec::image::Config);

/// `oci_spec::image::ImageConfiguration`: a parsed image configuration.
#[verifier::external_type_specification]
#[verifier::external_body]
pub struct ExImageConfiguration(oci_spec::image::ImageConfiguration);

/// Moves the fields of an `oci_spec::image::Config` into a [`RunConfig`].
#[verifier::external_body]
fn run_config_from(c: &oci_image::Config) -> RunConfig {
    RunConfig {
        labels: c.labels().clone().map(|m| m.into_iter().collect()),
        entrypoint: c.entrypoint().clone(),
        cmd: c.cmd().clone(),
        env: c.env().clone(),
        working_dir: c.working_dir().clone(),
    }
}

/// Moves the fields of an `oci_spec::image::ImageConfiguration` into an
/// [`ImageConfig`].
#[verifier::external_body]
fn image_config_from(c: oci_image::ImageConfiguration) -> ImageConfig {
    ImageConfig {
        config: c.config().as_ref().map(run_config_from),
        diff_ids: c.rootfs().diff_ids().clone(),
    }
}

/// The image configuration that `raw` spells out, or why it is none.
pub uninterp spec fn image_document(raw: Seq<u8>) -> core::result::Result<
    ImageConfigSpec,
    Seq<char>,
>;

/// `serde_json::from_slice` into an `oci_spec::image::ImageConfiguration`
/// parses `raw`; the outcome, and the text of the error, depend on the bytes
/// alone. The labels come in no particular order, each key once.
#[verifier::external_body]
pub(crate) fn parse_image_config(raw: &[u8]) -> (out: core::result::Result<ImageConfig, String>)
    ensures
        match out {
            Ok(c) => image_document(raw@) == Ok::<ImageConfigSpec, Seq<char>>(c@),
            Err(e) => image_document(raw@) == Err::<ImageConfigSpec, Seq<char>>(e@),
        },
{
    serde_json::from_slice::<oci_image::ImageConfiguration>(raw).map(image_config_from).map_err(
        |e| e.to_string(),
    )
}

/// The kinds of Linux namespaces.
#[derive(Debug, Clone, Copy, PartialEq, Eq, Structural)]
pub enum NamespaceKind {
    Mount,
    Cgroup,
    Uts,
    Ipc,
    User,
    Pid,
    Network,
    Time,
}

/// The Linux capabilities that processes are given.
#[derive(Debug, Clone, Copy, PartialEq, Eq, Structural)]
pub enum CapabilityKind {
    Chown,
    DacOverride,
    Fsetid,
    Fowner,
    Mknod,
    NetRaw,
    Setgid,
    Setuid,
    Setfcap,
    Setpcap,
    NetBindService,
    SysChroot,
    Kill,
    AuditWrite,
}

/// A bind mount as a runtime spec lists it.
#[derive(Debug)]
pub struct OciMount {
    pub source: String,
    pub destination: String,
    pub typ: String,
    pub options: Vec<String>,
}

/// A command that runs at one point of a container's life.
#[derive(Debug)]
pub struct HookPlan {
    pub path: String,
    pub args: Vec<String>,
    pub env: Vec<String>,
}

/// The hooks of a container, one for each point.
#[derive(Debug)]
pub struct HookPlans {
    pub prestart: HookPlan,
    pub poststart: HookPlan,
    pub poststop: HookPlan,
}

/// The process that a container or an exec runs.
#[derive(Debug)]
pub struct ProcessPlan {
    pub terminal: bool,
    pub args: Vec<String>,
    pub env: Vec<String>,
    pub cwd: String,
    pub uid: u32,
    pub gid: u32,
    pub capabilities: CapabilitySets,
}

/// The five capability sets of a process.
#[derive(Debug)]
pub struct CapabilitySets {
    pub bounding: Vec<CapabilityKind>,
    pub effective: Vec<CapabilityKind>,
    pub inheritable: Vec<CapabilityKind>,
    pub permitted: Vec<CapabilityKind>,
    pub ambient: Vec<CapabilityKind>,
}

#[verifier::ext_equal]
pub struct CapabilitySetsSpec {
    pub bounding: Set<CapabilityKind>,
    pub effective: Set<CapabilityKind>,
    pub inheritable: Set<CapabilityKind>,
    pub permitted: Set<CapabilityKind>,
    pub ambient: Set<CapabilityKind>,
}

impl View for CapabilitySets {
    type V = CapabilitySetsSpec;

    open spec fn view(&self) -> CapabilitySetsSpec {
        CapabilitySetsSpec {
            bounding: self.bounding@.to_set(),
            effective: self.effective@.to_set(),
            inheritable: self.inheritable@.to_set(),
            permitted: self.permitted@.to_set(),
            ambient: self.ambient@.to_set(),
        }
    }
}

/// A runtime spec.
#[derive(Debug)]
pub struct RuntimeSpec {
    pub version: String,
    pub process: ProcessPlan,
    pub root_path: String,
    pub root_readonly: bool,
    pub namespaces: Vec<NamespaceKind>,
    /// `None` leaves the mounts to the defaults of the spec format.
    pub mounts: Option<Vec<OciMount>>,
    pub hooks: Option<HookPlans>,
}

#[verifier::ext_equal]
pub struct MountSpec {
    pub source: Option<Seq<char>>,
    pub destination: Seq<char>,
    pub typ: Option<Seq<char>>,
    pub options: Option<Seq<Seq<char>>>,
}

#[verifier::ext_equal]
pub struct HookSpec {
    pub path: Seq<char>,
    pub args: Seq<Seq<char>>,
    pub env: Seq<Seq<char>>,
}

#[verifier::ext_equal]
pub struct HooksSpec {
    pub prestart: HookSpec,
    pub poststart: HookSpec,
    pub poststop: HookSpec,
}

#[verifier::ext_equal]
pub struct ProcessSpec {
    pub terminal: bool,
    pub args: Seq<Seq<char>>,
    pub env: Seq<Seq<char>>,
    pub cwd: Seq<char>,
    pub uid: u32,
    pub gid: u32,
    pub capabilities: CapabilitySetsSpec,
}

#[verifier::ext_equal]
pub struct RuntimeSpecSpec {
    pub version: Seq<char>,
    pub process: ProcessSpec,
    pub root_path: Seq<char>,
    pub root_readonly: bool,
    pub namespaces: Seq<NamespaceKind>,
    pub mounts: Option<Seq<MountSpec>>,
    pub hooks: Option<HooksSpec>,
}

impl View for OciMount {
    type V = MountSpec;

    open spec fn view(&self) -> MountSpec {
        MountSpec {
            source: Some(self.source@),
            destination: self.destination@,
            typ: Some(self.typ@),
            options: Some(text::texts(self.options@)),
        }
    }
}

pub open spec fn mount_views(list: Seq<OciMount>) -> Seq<MountSpec> {
    list.map_values(|m: OciMount| m@)
}

impl View for HookPlan {
    type V = HookSpec;

    open spec fn view(&self) -> HookSpec {
        HookSpec {
            path: self.path@,
            args: text::texts(self.args@),
            env: text::texts(self.env@),
        }
    }
}

impl View for HookPlans {
    type V = HooksSpec;

    open spec fn view(&self) -> HooksSpec {
        HooksSpec {
            prestart: self.prestart@,
            poststart: self.poststart@,
            poststop: self.poststop@,
        }
    }
}

impl View for ProcessPlan {
    type V = ProcessSpec;

    open spec fn view(&self) -> ProcessSpec {
        ProcessSpec {
            terminal: self.terminal,
            args: text::texts(self.args@),
            env: text::texts(self.env@),
            cwd: self.cwd@,
            uid: self.uid,
            gid: self.gid,
            capabilities: self.capabilities@,
        }
    }
}

impl View for RuntimeSpec {
    type V = RuntimeSpecSpec;

    open spec fn view(&self) -> RuntimeSpecSpec {
        RuntimeSpecSpec {
            version: self.version@,
            process: self.process@,
            root_path: self.root_path@,
            root_readonly: self.root_readonly,
            namespaces: self.namespaces@,
            mounts: match self.mounts {
                Some(v) => Some(mount_views(v@)),
                None => None,
            },
            hooks: match self.hooks {
                Some(h) => Some(h@),
                None => None,
            },
        }
    }
}

/// What a reader of a runtime spec finds in it.
#[verifier::ext_equal]
pub struct RuntimeFields {
    pub version: Seq<char>,
    pub process: Option<ProcessFields>,
    pub root: Option<(Seq<char>, Option<bool>)>,
    pub namespaces: Option<Seq<NamespaceKind>>,
    pub mounts: Option<Seq<MountSpec>>,
    pub hooks: Option<HooksSpec>,
}

/// What a reader of a process spec finds in it: among other things the user
/// and group that it runs as, and its five capability sets.
#[verifier::ext_equal]
pub struct ProcessFields {
    pub terminal: Option<bool>,
    pub uid: u32,
    pub gid: u32,
    pub args: Option<Seq<Seq<char>>>,
    pub env: Option<Seq<Seq<char>>>,
    pub cwd: Seq<char>,
    pub bounding: Option<Set<CapabilityKind>>,
    pub effective: Option<Set<CapabilityKind>>,
    pub inheritable: Option<Set<CapabilityKind>>,
    pub permitted: Option<Set<CapabilityKind>>,
    pub ambient: Option<Set<CapabilityKind>>,
}

impl ProcessSpec {
    /// What a reader finds of the process once it is written down.
    pub open spec fn written(self) -> ProcessFields {
        ProcessFields {
            terminal: Some(self.terminal),
            uid: self.uid,
            gid: self.gid,
            args: Some(self.args),
            env: Some(self.env),
            cwd: self.cwd,
            bounding: Some(self.capabilities.bounding),
            effective: Some(self.capabilities.effective),
            inheritable: Some(self.capabilities.inheritable),
            permitted: Some(self.capabilities.permitted),
            ambient: Some(self.capabilities.ambient),
        }
    }
}

impl RuntimeSpecSpec {
    /// Whether `fields` is what a reader finds of the spec once it is written
    /// down. Where the spec lists no mounts a reader finds the defaults of the
    /// spec format.
    pub open spec fn written_as(self, fields: RuntimeFields) -> bool {
        &&& fields.version == self.version
        &&& fields.process == Some(self.process.written())
        &&& fields.root == Some((self.root_path, Some(self.root_readonly)))
        &&& fields.namespaces == Some(self.namespaces)
        &&& self.mounts is Some ==> fields.mounts == self.mounts
        &&& fields.hooks == self.hooks
    }
}

/// A reader finds a process as it was laid out: its words, its environment, its
/// user, its directory and each of its capability sets.
pub proof fn law_written_process(process: ProcessSpec)
    ensures
        ({
            let fields = process.written();
            &&& fields.args == Some(process.args)
            &&& fields.env == Some(process.env)
            &&& fields.cwd == process.cwd
            &&& fields.uid == process.uid && fields.gid == process.gid
            &&& fields.terminal == Some(process.terminal)
            &&& fields.bounding == Some(process.capabilities.bounding)
            &&& fields.effective == Some(process.capabilities.effective)
            &&& fields.inheritable == Some(process.capabilities.inheritable)
            &&& fields.permitted == Some(process.capabilities.permitted)
            &&& fields.ambient == Some(process.capabilities.ambient)
        }),
{
}

/// A reader finds a runtime spec as it was laid out: its process, its root, its
/// namespaces, its hooks, and its mounts where it lists any.
pub proof fn law_written_spec(spec: RuntimeSpecSpec, fields: RuntimeFields)
    requires
        spec.written_as(fields),
    ensures
        fields.version == spec.version,
        fields.process is Some,
        fields.process->0.args == Some(spec.process.args),
        fields.env() == Some(spec.process.env),
        fields.root == Some((spec.root_path, Some(spec.root_readonly))),
        fields.namespaces == Some(spec.namespaces),
        fields.hooks == spec.hooks,
        spec.mounts matches Some(list) ==> fields.mounts == Some(list) && (
        fields.mount_ends() matches Some(ends) && ends.len() == list.len() && forall|i: int|
            0 <= i < list.len() ==> #[trigger] ends[i] == (list[i].source, list[i].destination)),
{
}

/// `oci_spec::runtime::Process`: a process spec.
#[verifier::external_type_specification]
#[verifier::external_body]
pub struct ExProcess(oci_spec::runtime::Process);

/// `oci_spec::runtime::Hooks`: the hooks of a runtime spec.
#[verifier::external_type_specification]
#[verifier::external_body]
pub struct ExHooks(oci_spec::runtime::Hooks);

/// `oci_spec::runtime::Hook`: one hook.
#[verifier::external_type_specification]
#[verifier::external_body]
pub struct ExHook(oci_spec::runtime::Hook);

/// `oci_spec::runtime::SpecBuilder`: a runtime spec in the making.
#[verifier::external_type_specification]
#[verifier::external_body]
pub struct ExSpecBuilder(oci_spec::runtime::SpecBuilder);

/// `oci_spec::runtime::LinuxNamespace`: one namespace.
#[verifier::external_type_specification]
#[verifier::external_body]
pub struct ExLinuxNamespace(oci_spec::runtime::LinuxNamespace);

/// `oci_spec::runtime::LinuxCapabilities`: the capability sets of a process.
#[verifier::external_type_specification]
#[verifier::external_body]
pub struct ExLinuxCapabilities(oci_spec::runtime::LinuxCapabilities);

/// `oci_spec::runtime::Spec`: a runtime spec.
#[verifier::external_type_specification]
#[verifier::external_body]
pub struct ExSpec(oci_spec::runtime::Spec);

/// The namespaces of a container by default.
pub open spec fn default_kinds() -> Seq<NamespaceKind> {
    seq![
        NamespaceKind::Pid,
        NamespaceKind::Network,
        NamespaceKind::Ipc,
        NamespaceKind::Uts,
        NamespaceKind::Mount,
        NamespaceKind::Cgroup,
    ]
}

/// The kind of an `oci_spec::runtime::LinuxNamespace`.
#[verifier::external_body]
fn kind_of(ns: &oci_runtime::LinuxNamespace) -> NamespaceKind {
    match ns.typ() {
        oci_runtime::LinuxNamespaceType::Mount => NamespaceKind::Mount,
        oci_runtime::LinuxNamespaceType::Cgroup => NamespaceKind::Cgroup,
        oci_runtime::LinuxNamespaceType::Uts => NamespaceKind::Uts,
        oci_runtime::LinuxNamespaceType::Ipc => NamespaceKind::Ipc,
        oci_runtime::LinuxNamespaceType::User => NamespaceKind::User,
        oci_runtime::LinuxNamespaceType::Pid => NamespaceKind::Pid,
        oci_runtime::LinuxNamespaceType::Network => NamespaceKind::Network,
        oci_runtime::LinuxNamespaceType::Time => NamespaceKind::Time,
    }
}

/// `oci_spec::runtime::get_default_namespaces` lists pid, network, ipc, uts,
/// mount and cgroup, in this order.
#[verifier::external_body]
pub(crate) fn default_namespaces() -> (kinds: Vec<NamespaceKind>)
    ensures
        kinds@ == default_kinds(),
{
    oci_runtime::get_default_namespaces().iter().map(kind_of).collect()
}

/// An `oci_spec::runtime::LinuxNamespace` of the given kind, without a path.
#[verifier::external_body]
fn oci_namespace(kind: &NamespaceKind) -> oci_runtime::LinuxNamespace {
    let typ = match kind {
        NamespaceKind::Mount => oci_runtime::LinuxNamespaceType::Mount,
        NamespaceKind::Cgroup => oci_runtime::LinuxNamespaceType::Cgroup,
        NamespaceKind::Uts => oci_runtime::LinuxNamespaceType::Uts,
        NamespaceKind::Ipc => oci_runtime::LinuxNamespaceType::Ipc,
        NamespaceKind::User => oci_runtime::LinuxNamespaceType::User,
        NamespaceKind::Pid => oci_runtime::LinuxNamespaceType::Pid,
        NamespaceKind::Network => oci_runtime::LinuxNamespaceType::Network,
        NamespaceKind::Time => oci_runtime::LinuxNamespaceType::Time,
    };
    let mut ns = oci_runtime::LinuxNamespace::default();
    ns.set_typ(typ);
    ns
}

/// Gives an `oci_spec::runtime::SpecBuilder` one `oci_spec::runtime::Mount` for
/// each [`OciMount`].
#[verifier::external_body]
fn with_mounts(
    builder: oci_runtime::SpecBuilder,
    mounts: &Vec<OciMount>,
) -> oci_runtime::SpecBuilder {
    let convert = |m: &OciMount| {
        let mut mount = oci_runtime::Mount::default();
        mount.set_source(Some(PathBuf::from(&m.source)));
        mount.set_destination(PathBuf::from(&m.destination));
        mount.set_typ(Some(m.typ.clone()));
        mount.set_options(Some(m.options.clone()));
        mount
    };
    builder.mounts(mounts.iter().map(convert).collect::<Vec<_>>())
}

/// An `oci_spec::runtime::Hook` with the fields of a [`HookPlan`].
#[verifier::external_body]
fn oci_hook(h: &HookPlan) -> oci_runtime::Hook {
    let mut hook = oci_runtime::Hook::default();
    hook.set_path(PathBuf::from(&h.path));
    hook.set_args(Some(h.args.clone()));
    hook.set_env(Some(h.env.clone()));
    hook
}

/// An `oci_spec::runtime::Hooks` with one hook for each point.
#[verifier::external_body]
#[allow(deprecated)]
fn oci_hooks(h: &HookPlans) -> oci_runtime::Hooks {
    let mut hooks = oci_runtime::Hooks::default();
    hooks.set_prestart(Some(vec![oci_hook(&h.prestart)]));
    hooks.set_poststart(Some(vec![oci_hook(&h.poststart)]));
    hooks.set_poststop(Some(vec![oci_hook(&h.poststop)]));
    hooks
}

/// `oci_spec::runtime::Capability`: one capability.
#[verifier::external_type_specification]
#[verifier::external_body]
pub struct ExCapability(oci_spec::runtime::Capability);

/// The `oci_spec::runtime::Capability` of the given kind.
#[verifier::external_body]
fn oci_capability(kind: &CapabilityKind) -> oci_runtime::Capability {
    match kind {
        CapabilityKind::Chown => OciCap::Chown,
        CapabilityKind::DacOverride => OciCap::DacOverride,
        CapabilityKind::Fsetid => OciCap::Fsetid,
        CapabilityKind::Fowner => OciCap::Fowner,
        CapabilityKind::Mknod => OciCap::Mknod,
        CapabilityKind::NetRaw => OciCap::NetRaw,
        CapabilityKind::Setgid => OciCap::Setgid, CapabilityKind::Setuid => OciCap::Setuid,
        CapabilityKind::Setfcap => OciCap::Setfcap,
        CapabilityKind::Setpcap => OciCap::Setpcap,
        CapabilityKind::NetBindService => OciCap::NetBindService,
        CapabilityKind::SysChroot => OciCap::SysChroot,
        CapabilityKind::Kill => OciCap::Kill,
        CapabilityKind::AuditWrite => OciCap::AuditWrite,
    }
}

/// An `oci_spec::runtime::LinuxCapabilities` with the sets of a
/// [`CapabilitySets`].
#[verifier::external_body]
fn oci_capabilities(from: &CapabilitySets) -> oci_runtime::LinuxCapabilities {
    let mut sets = oci_runtime::LinuxCapabilities::default();
    sets.set_bounding(Some(from.bounding.iter().map(oci_capability).collect()));
    sets.set_effective(Some(from.effective.iter().map(oci_capability).collect()));
    sets.set_inheritable(Some(from.inheritable.iter().map(oci_capability).collect()));
    sets.set_permitted(Some(from.permitted.iter().map(oci_capability).collect()));
    sets.set_ambient(Some(from.ambient.iter().map(oci_capability).collect()));
    sets
}

/// An `oci_spec::runtime::Process` built from the fields of a [`ProcessPlan`].
#[verifier::external_body]
fn oci_process(p: &ProcessPlan) -> core::result::Result<
    oci_runtime::Process,
    oci_spec::OciSpecError,
> {
    oci_runtime::ProcessBuilder::default()
        .terminal(p.terminal)
        .user(oci_runtime::UserBuilder::default().uid(p.uid).gid(p.gid).build()?)
        .args(p.args.clone())
        .env(p.env.clone())
        .cwd(&p.cwd)
        .capabilities(oci_capabilities(&p.capabilities))
        .build()
}

/// An `oci_spec::runtime::SpecBuilder` run over the fields of a
/// [`RuntimeSpec`].
#[verifier::external_body]
fn oci_spec_of(s: &RuntimeSpec) -> core::result::Result<oci_runtime::Spec, oci_spec::OciSpecError> {
    let root = oci_runtime::RootBuilder::default().path(&s.root_path).readonly(s.root_readonly);
    let namespaces: Vec<_> = s.namespaces.iter().map(oci_namespace).collect();
    let linux = oci_runtime::LinuxBuilder::default().namespaces(namespaces).build()?;
    let process = oci_process(&s.process)?;
    let mut spec = oci_runtime::SpecBuilder::default().version(&s.version).process(process);
    spec = spec.root(root.build()?).linux(linux);
    if let Some(mounts) = &s.mounts {
        spec = with_mounts(spec, mounts);
    }
    if let Some(hooks) = &s.hooks {
        spec = spec.hooks(oci_hooks(hooks));
    }
    spec.build()
}

/// `oci_spec::OciSpecError`: why a spec could not be built.
#[verifier::external_type_specification]
#[verifier::external_body]
pub struct ExOciSpecError(oci_spec::OciSpecError);

/// The runtime spec that `raw` spells out, or why it is none.
pub uninterp spec fn runtime_document(raw: Seq<u8>) -> core::result::Result<
    RuntimeFields,
    Seq<char>,
>;

/// The `oci_spec::runtime` builders and `serde_json::to_vec` write a runtime
/// spec down as JSON, in which a reader finds the fields of `spec` again.
/// Neither fails on what they are given: the builders have a default for every
/// field, and each path is a string and so can be written. The bytes
/// themselves are not stated: sets of capabilities are written in no
/// particular order.
#[verifier::external_body]
pub(crate) fn write_runtime_spec(spec: &RuntimeSpec) -> (out: core::result::Result<
    Vec<u8>,
    String,
>)
    ensures
        match out {
            Ok(raw) => runtime_document(raw@) matches Ok(fields) && spec@.written_as(fields),
            Err(_) => false,
        },
{
    let built = oci_spec_of(spec).map_err(|e| e.to_string())?;
    serde_json::to_vec(&built).map_err(|e| e.to_string())
}

/// The environment and the mounts of a runtime spec.
#[derive(Debug)]
pub struct SpecSummary {
    pub env: Option<Vec<String>>,
    /// Source and destination of each mount.
    pub mounts: Option<Vec<(Option<String>, String)>>,
}

/// The sources and destinations of mounts.
pub open spec fn mount_pairs(list: Seq<(Option<String>, String)>) -> Seq<(
    Option<Seq<char>>,
    Seq<char>,
)> {
    list.map_values(
        |m: (Option<String>, String)|
            (
                match m.0 {
                    Some(s) => Some(s@),
                    None => None,
                },
                m.1@,
            ),
    )
}

impl RuntimeFields {
    pub open spec fn env(self) -> Option<Seq<Seq<char>>> {
        match self.process {
            Some(p) => p.env,
            None => None,
        }
    }

    pub open spec fn mount_ends(self) -> Option<Seq<(Option<Seq<char>>, Seq<char>)>> {
        match self.mounts {
            Some(v) => Some(v.map_values(|m: MountSpec| (m.source, m.destination))),
            None => None,
        }
    }
}

/// Environment and mounts of an `oci_spec::runtime::Spec`.
#[verifier::external_body]
fn summary_of(s: oci_runtime::Spec) -> SpecSummary {
    let ends = |m: &oci_runtime::Mount| {
        let source = m.source().as_ref().map(|p| p.display().to_string());
        (source, m.destination().display().to_string())
    };
    SpecSummary {
        env: s.process().as_ref().and_then(|p| p.env().clone()),
        mounts: s.mounts().as_ref().map(|v| v.iter().map(ends).collect()),
    }
}

/// `serde_json::from_slice` into an `oci_spec::runtime::Spec` parses `raw`; of
/// what it finds, the environment and the mounts are handed out.
#[verifier::external_body]
pub(crate) fn read_runtime_spec(raw: &[u8]) -> (out: core::result::Result<SpecSummary, String>)
    ensures
        match out {
            Ok(s) => {
                &&& runtime_document(raw@) matches Ok(fields)
                &&& opt_texts(s.env) == fields.env()
                &&& match s.mounts {
                    Some(v) => fields.mount_ends() == Some(mount_pairs(v@)),
                    None => fields.mount_ends() is None,
                }
            },
            Err(e) => runtime_document(raw@) == Err::<RuntimeFields, Seq<char>>(e@),
        },
{
    serde_json::from_slice::<oci_runtime::Spec>(raw).map(summary_of).map_err(|e| e.to_string())
}

/// The process spec that `raw` spells out, or why it is none.
pub uninterp spec fn process_document(raw: Seq<u8>) -> core::result::Result<
    ProcessFields,
    Seq<char>,
>;

/// `oci_spec::runtime::ProcessBuilder` and `serde_json::to_vec` write a process
/// spec down as JSON, in which a reader finds the fields of `process` again.
/// As for [`write_runtime_spec`], neither fails, and the bytes themselves are
/// not stated.
#[verifier::external_body]
pub(crate) fn write_process(process: &ProcessPlan) -> (out: core::result::Result<Vec<u8>, String>)
    ensures
        match out {
            Ok(raw) => process_document(raw@) == Ok::<ProcessFields, Seq<char>>(
                process@.written(),
            ),
            Err(_) => false,
        },
{
    let built = oci_process(process).map_err(|e| e.to_string())?;
    serde_json::to_vec(&built).map_err(|e| e.to_string())
}

/// What a process spec says of how its process runs.
#[derive(Debug)]
pub struct ProcessSummary {
    pub terminal: Option<bool>,
    pub uid: u32,
    pub gid: u32,
    pub args: Option<Vec<String>>,
    pub env: Option<Vec<String>>,
    pub cwd: String,
}

/// The plain fields of an `oci_spec::runtime::Process`.
#[verifier::external_body]
fn process_summary_of(p: oci_runtime::Process) -> ProcessSummary {
    ProcessSummary {
        terminal: p.terminal(),
        uid: p.user().uid(),
        gid: p.user().gid(),
        args: p.args().clone(),
        env: p.env().clone(),
        cwd: p.cwd().display().to_string(),
    }
}

/// `serde_json::from_slice` into an `oci_spec::runtime::Process` parses `raw`;
/// what it finds, but for the capabilities, is handed out.
#[verifier::external_body]
pub(crate) fn read_process(raw: &[u8]) -> (out: core::result::Result<ProcessSummary, String>)
    ensures
        match out {
            Ok(s) => {
                &&& process_document(raw@) matches Ok(fields)
                &&& s.terminal == fields.terminal
                &&& s.uid == fields.uid
                &&& s.gid == fields.gid
                &&& opt_texts(s.args) == fields.args
                &&& opt_texts(s.env) == fields.env
                &&& s.cwd@ == fields.cwd
            },
            Err(e) => process_document(raw@) == Err::<ProcessFields, Seq<char>>(e@),
        },
{
    let read = serde_json::from_slice::<oci_runtime::Process>(raw);
    read.map(process_summary_of).map_err(|e| e.to_string())
}

} // verus!
