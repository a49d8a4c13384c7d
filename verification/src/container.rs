//! Create containerd containers from an image.

use vstd::prelude::*;

use crate::bridge;
use crate::consts::{HOOK_PATH, OCI_ROOTFS_PATH, OCI_SPEC_TYPE_URL, OCI_SPEC_VERSION};
use crate::error::{Error, ErrorSpec, Result};
use crate::inspect;
use crate::json;
use crate::json::Json;
use crate::maps;
use crate::maps::StringMap;
use crate::oci;
use crate::oci::{
    CapabilityKind, CapabilitySets, HookPlan, HookPlans, ImageConfig, NamespaceKind, OciMount,
    ProcessPlan, RuntimeSpec,
};
use crate::outside;
use crate::text;

verus! {

/// The snapshot key of a container.
pub open spec fn snapshot_key(id: Seq<char>) -> Seq<char> {
    id + "-snapshot"@
}

/// Snapshot key for a container. Must be consistent between creating a
/// container (prepare) and removing it (remove).
pub fn snapshot_key_for(container_id: &str) -> (key: String)
    ensures
        key@ == snapshot_key(container_id@),
{
    let mut key = String::from_str(container_id);
    key.append("-snapshot");
    key
}

#[derive(Debug)]
pub struct Mount {
    pub source: String,
    pub destination: String,
    /// Mount options (e.g., `"ro"`, `"rw"`).
    pub options: Vec<String>,
}

#[verifier::ext_equal]
pub struct MountOptSpec {
    pub source: Seq<char>,
    pub destination: Seq<char>,
    pub options: Seq<Seq<char>>,
}

impl View for Mount {
    type V = MountOptSpec;

    open spec fn view(&self) -> MountOptSpec {
        MountOptSpec {
            source: self.source@,
            destination: self.destination@,
            options: text::texts(self.options@),
        }
    }
}

impl Clone for Mount {
    fn clone(&self) -> (copy: Self)
        ensures
            copy@ == self@,
    {
        Mount {
            source: self.source.clone(),
            destination: self.destination.clone(),
            options: text::clone_strings(&self.options),
        }
    }
}

impl Default for Mount {
    fn default() -> (m: Self)
        ensures
            m@ == (MountOptSpec {
                source: Seq::empty(),
                destination: Seq::empty(),
                options: Seq::empty(),
            }),
    {
        let m = Mount { source: String::new(), destination: String::new(), options: Vec::new() };
        assert(m@ =~= MountOptSpec {
            source: Seq::empty(),
            destination: Seq::empty(),
            options: Seq::empty(),
        });
        m
    }
}

pub open spec fn mount_opt_views(list: Seq<Mount>) -> Seq<MountOptSpec> {
    list.map_values(|m: Mount| m@)
}

#[derive(Debug, Clone, Copy, PartialEq, Eq, Structural)]
pub enum NetworkMode {
    /// No external connectivity.
    Isolated,
    /// Share the host's network namespace.
    Host,
    /// CNI-style bridge via OCI hooks.
    Bridge,
}

impl Default for NetworkMode {
    fn default() -> (m: Self)
        ensures
            m == NetworkMode::Bridge,
    {
        NetworkMode::Bridge
    }
}

/// The text of a network mode in a label.
pub open spec fn mode_label(mode: NetworkMode) -> Seq<char> {
    match mode {
        NetworkMode::Bridge => "bridge"@,
        NetworkMode::Host => "host"@,
        NetworkMode::Isolated => "isolated"@,
    }
}

/// Modes are recorded under three different names.
pub proof fn law_mode_label(a: NetworkMode, b: NetworkMode)
    ensures
        mode_label(NetworkMode::Bridge) == "bridge"@,
        mode_label(NetworkMode::Host) == "host"@,
        mode_label(NetworkMode::Isolated) == "isolated"@,
        mode_label(a) == mode_label(b) ==> a == b,
{
    reveal_strlit("bridge");
    reveal_strlit("host");
    reveal_strlit("isolated");
    assert("bridge"@.len() == 6 && "host"@.len() == 4 && "isolated"@.len() == 8);
}

impl NetworkMode {
    /// String form stored in `NETWORK_MODE_LABEL`.
    pub fn label_value(&self) -> (s: &'static str)
        ensures
            s@ == mode_label(*self),
    {
        match self {
            NetworkMode::Bridge => "bridge",
            NetworkMode::Host => "host",
            NetworkMode::Isolated => "isolated",
        }
    }
}

#[derive(Debug, Clone, Copy, PartialEq, Eq, Structural)]
pub struct NetworkOpts {
    pub mode: NetworkMode,
}

impl Default for NetworkOpts {
    fn default() -> (o: Self)
        ensures
            o == (NetworkOpts { mode: NetworkMode::Bridge }),
    {
        NetworkOpts { mode: NetworkMode::Bridge }
    }
}

/// How a container is created.
#[derive(Debug)]
pub struct CreateContainerOpts {
    pub env: StringMap,
    pub labels: StringMap,
    pub mounts: Vec<Mount>,
    pub network: NetworkOpts,
    /// Replaces image entrypoint + cmd.
    pub cmd: Option<Vec<String>>,
    /// `(host_port, container_port)` pairs.
    pub port_bindings: Vec<(u16, u16)>,
    /// Adopt an existing snapshot key instead of preparing a fresh one from
    /// the image's chain id. The caller is responsible for ensuring that the
    /// snapshot is rooted at a parent that contains the image's layers, and
    /// decides on the ports: without port bindings none is exposed.
    pub from_existing_snapshot: Option<String>,
}

#[verifier::ext_equal]
pub struct CreateOptsSpec {
    pub env: Seq<maps::Pair>,
    pub labels: Seq<maps::Pair>,
    pub mounts: Seq<MountOptSpec>,
    pub mode: NetworkMode,
    pub cmd: Option<Seq<Seq<char>>>,
    pub port_bindings: Seq<(u16, u16)>,
    pub from_existing_snapshot: Option<Seq<char>>,
}

impl View for CreateContainerOpts {
    type V = CreateOptsSpec;

    open spec fn view(&self) -> CreateOptsSpec {
        CreateOptsSpec {
            env: self.env.pairs(),
            labels: self.labels.pairs(),
            mounts: mount_opt_views(self.mounts@),
            mode: self.network.mode,
            cmd: oci::opt_texts(self.cmd),
            port_bindings: self.port_bindings@,
            from_existing_snapshot: match self.from_existing_snapshot {
                Some(s) => Some(s@),
                None => None,
            },
        }
    }
}

impl CreateOptsSpec {
    /// Options that set nothing.
    pub open spec fn none() -> CreateOptsSpec {
        CreateOptsSpec {
            env: Seq::empty(),
            labels: Seq::empty(),
            mounts: Seq::empty(),
            mode: NetworkMode::Bridge,
            cmd: None,
            port_bindings: Seq::empty(),
            from_existing_snapshot: None,
        }
    }
}

/// Options that set nothing ask for bridge mode, the image's own command and a
/// layer of the container's own.
pub proof fn law_no_options()
    ensures
        CreateOptsSpec::none().env.len() == 0,
        CreateOptsSpec::none().labels.len() == 0,
        CreateOptsSpec::none().mounts.len() == 0,
        CreateOptsSpec::none().mode == NetworkMode::Bridge,
        CreateOptsSpec::none().cmd is None,
        CreateOptsSpec::none().port_bindings.len() == 0,
        CreateOptsSpec::none().from_existing_snapshot is None,
{
}

impl Default for CreateContainerOpts {
    fn default() -> (o: Self)
        ensures
            o@ == CreateOptsSpec::none(),
    {
        let o = CreateContainerOpts {
            env: StringMap::new(),
            labels: StringMap::new(),
            mounts: Vec::new(),
            network: NetworkOpts { mode: NetworkMode::Bridge },
            cmd: None,
            port_bindings: Vec::new(),
            from_existing_snapshot: None,
        };
        assert(o@ =~= CreateOptsSpec::none());
        o
    }
}

/// Sets the fields of [`CreateContainerOpts`] one by one.
pub struct CreateContainerOptsBuilder {
    pub opts: CreateContainerOpts,
}

/// A bind mount with the given access.
pub open spec fn bind_mount(source: Seq<char>, destination: Seq<char>, access: Seq<char>) ->
    MountOptSpec {
    MountOptSpec { source, destination, options: seq!["rbind"@, access] }
}

/// A bind mount is recursive and has the access that it was asked with.
pub proof fn law_bind_mount(source: Seq<char>, destination: Seq<char>, access: Seq<char>)
    ensures
        bind_mount(source, destination, access).source == source,
        bind_mount(source, destination, access).destination == destination,
        bind_mount(source, destination, access).options == seq!["rbind"@, access],
{
}

fn new_bind_mount(source: &str, destination: &str, access: &str) -> (m: Mount)
    ensures
        m@ == bind_mount(source@, destination@, access@),
{
    let mut options: Vec<String> = Vec::new();
    options.push(String::from_str("rbind"));
    options.push(String::from_str(access));
    assert(text::texts(options@) =~= seq!["rbind"@, access@]);
    Mount { source: String::from_str(source), destination: String::from_str(destination), options }
}

impl CreateContainerOptsBuilder {
    /// Add an env var. May be called repeatedly.
    pub fn env(self, key: &str, value: &str) -> (b: Self)
        ensures
            b.opts@ == (CreateOptsSpec {
                env: maps::inserted(self.opts@.env, key@, value@),
                ..self.opts@
            }),
    {
        let mut opts = self.opts;
        opts.env.insert(String::from_str(key), String::from_str(value));
        CreateContainerOptsBuilder { opts }
    }

    /// Add a label. May be called repeatedly.
    pub fn label(self, key: &str, value: &str) -> (b: Self)
        ensures
            b.opts@ == (CreateOptsSpec {
                labels: maps::inserted(self.opts@.labels, key@, value@),
                ..self.opts@
            }),
    {
        let mut opts = self.opts;
        opts.labels.insert(String::from_str(key), String::from_str(value));
        CreateContainerOptsBuilder { opts }
    }

    /// Add a read-write bind mount.
    pub fn mount(self, source: &str, destination: &str) -> (b: Self)
        ensures
            b.opts@ == (CreateOptsSpec {
                mounts: self.opts@.mounts.push(bind_mount(source@, destination@, "rw"@)),
                ..self.opts@
            }),
    {
        let mut opts = self.opts;
        opts.mounts.push(new_bind_mount(source, destination, "rw"));
        assert(mount_opt_views(opts.mounts@) =~= self.opts@.mounts.push(
            bind_mount(source@, destination@, "rw"@),
        ));
        CreateContainerOptsBuilder { opts }
    }

    /// Add a read-only bind mount.
    pub fn mount_ro(self, source: &str, destination: &str) -> (b: Self)
        ensures
            b.opts@ == (CreateOptsSpec {
                mounts: self.opts@.mounts.push(bind_mount(source@, destination@, "ro"@)),
                ..self.opts@
            }),
    {
        let mut opts = self.opts;
        opts.mounts.push(new_bind_mount(source, destination, "ro"));
        assert(mount_opt_views(opts.mounts@) =~= self.opts@.mounts.push(
            bind_mount(source@, destination@, "ro"@),
        ));
        CreateContainerOptsBuilder { opts }
    }

    /// Add a port binding. May be called repeatedly. Persisted as container
    /// labels so they survive restarts.
    pub fn port_binding(self, host_port: u16, container_port: u16) -> (b: Self)
        ensures
            b.opts@ == (CreateOptsSpec {
                port_bindings: self.opts@.port_bindings.push((host_port, container_port)),
                ..self.opts@
            }),
    {
        let mut opts = self.opts;
        opts.port_bindings.push((host_port, container_port));
        CreateContainerOptsBuilder { opts }
    }

    pub fn network(self, network: NetworkOpts) -> (b: Self)
        ensures
            b.opts@ == (CreateOptsSpec { mode: network.mode, ..self.opts@ }),
    {
        let mut opts = self.opts;
        opts.network = network;
        CreateContainerOptsBuilder { opts }
    }

    /// Replace image entrypoint + cmd: `.cmd(["sleep", "infinity"])`.
    pub fn cmd<const N: usize>(self, args: [&str; N]) -> (b: Self)
        ensures
            b.opts@ == (CreateOptsSpec { cmd: Some(text::slices(args@)), ..self.opts@ }),
    {
        let mut opts = self.opts;
        opts.cmd = Some(text::own_strings(args.as_slice()));
        CreateContainerOptsBuilder { opts }
    }

    pub fn from_existing_snapshot(self, key: &str) -> (b: Self)
        ensures
            b.opts@ == (CreateOptsSpec { from_existing_snapshot: Some(key@), ..self.opts@ }),
    {
        let mut opts = self.opts;
        opts.from_existing_snapshot = Some(String::from_str(key));
        CreateContainerOptsBuilder { opts }
    }

    pub fn build(self) -> (o: CreateContainerOpts)
        ensures
            o@ == self.opts@,
    {
        self.opts
    }
}

impl CreateContainerOpts {
    pub fn builder() -> (b: CreateContainerOptsBuilder)
        ensures
            b.opts@ == CreateOptsSpec::none(),
    {
        CreateContainerOptsBuilder { opts: CreateContainerOpts::default() }
    }
}

/// The map that a vector of pairs spells out.
fn map_of_pairs(pairs: &Vec<(String, String)>) -> (m: StringMap)
    ensures
        m@ == maps::as_map(maps::pair_views(pairs@)),
{
    let mut m = StringMap::new();
    let n: usize = pairs.len();
    let ghost all = maps::pair_views(pairs@);
    assert(all.take(0) =~= Seq::<maps::Pair>::empty());
    for i in 0..n
        invariant
            n == pairs@.len(),
            all == maps::pair_views(pairs@),
            m@ == maps::as_map(all.take(i as int)),
    {
        assert(all.take(i + 1).drop_last() =~= all.take(i as int));
        m.insert(pairs[i].0.clone(), pairs[i].1.clone());
    }
    assert(all.take(n as int) =~= all);
    m
}

/// Image labels first, then user labels override. Port-binding labels are
/// added once the bridge allocation has run.
pub fn build_labels(image_config: &ImageConfig, opts: &CreateContainerOpts) -> (labels: StringMap)
    ensures
        labels@ == image_config@.labels().union_prefer_right(opts.labels@),
{
    let mut labels = match &image_config.config {
        Some(c) => match &c.labels {
            Some(pairs) => map_of_pairs(pairs),
            None => StringMap::new(),
        },
        None => StringMap::new(),
    };
    labels.extend(&opts.labels);
    labels
}

/// A user's mount as the runtime spec lists it.
pub open spec fn oci_mount(m: MountOptSpec) -> oci::MountSpec {
    oci::MountSpec {
        source: Some(m.source),
        destination: m.destination,
        typ: Some("bind"@),
        options: Some(m.options),
    }
}

pub open spec fn oci_mounts(list: Seq<MountOptSpec>) -> Seq<oci::MountSpec> {
    list.map_values(|m: MountOptSpec| oci_mount(m))
}

/// Every mount that was asked for is listed, in order, as a bind mount of its
/// source at its destination with its options.
pub proof fn law_oci_mounts(list: Seq<MountOptSpec>, i: int)
    ensures
        oci_mounts(list).len() == list.len(),
        0 <= i < list.len() ==> {
            let m = oci_mounts(list)[i];
            &&& m.source == Some(list[i].source)
            &&& m.destination == list[i].destination
            &&& m.typ == Some("bind"@)
            &&& m.options == Some(list[i].options)
        },
{
}

pub fn build_mounts(opts: &CreateContainerOpts) -> (mounts: Vec<OciMount>)
    ensures
        oci::mount_views(mounts@) == oci_mounts(opts@.mounts),
{
    let mut mounts: Vec<OciMount> = Vec::new();
    let n: usize = opts.mounts.len();
    for i in 0..n
        invariant
            n == opts.mounts@.len(),
            mounts@.len() == i,
            forall|j: int|
                0 <= j < i ==> (#[trigger] mounts@[j])@ == oci_mount(opts.mounts@[j]@),
    {
        mounts.push(
            OciMount {
                source: opts.mounts[i].source.clone(),
                destination: opts.mounts[i].destination.clone(),
                typ: String::from_str("bind"),
                options: text::clone_strings(&opts.mounts[i].options),
            },
        );
    }
    assert(oci::mount_views(mounts@) =~= oci_mounts(opts@.mounts));
    mounts
}

/// The command line of a container.
pub open spec fn command_line(
    image: oci::ImageConfigSpec,
    cmd: Option<Seq<Seq<char>>>,
) -> Seq<Seq<char>> {
    match cmd {
        Some(args) => args,
        None => {
            let args = image.entrypoint() + image.cmd();
            if args.len() == 0 {
                seq!["/bin/sh"@]
            } else {
                args
            }
        },
    }
}

fn append_all(list: &mut Vec<String>, more: &Option<Vec<String>>)
    ensures
        text::texts(final(list)@) == text::texts(old(list)@) + match *more {
            Some(v) => text::texts(v@),
            None => Seq::empty(),
        },
{
    match more {
        Some(v) => {
            let mut copy = text::clone_strings(v);
            list.append(&mut copy);
            assert(text::texts(list@) =~= text::texts(old(list)@) + text::texts(v@));
        },
        None => {
            assert(text::texts(list@) =~= text::texts(old(list)@) + Seq::<Seq<char>>::empty());
        },
    }
}

/// `cmd` override replaces image entrypoint+cmd entirely; otherwise we
/// concatenate image entrypoint+cmd and fall back to `/bin/sh`.
pub fn build_args(image_config: &ImageConfig, opts: &CreateContainerOpts) -> (args: Vec<String>)
    ensures
        text::texts(args@) == command_line(image_config@, opts@.cmd),
        opts.cmd matches Some(cmd) ==> text::texts(args@) == text::texts(cmd@),
        opts.cmd is None ==> {
            let all = match image_config.config {
                Some(c) => words(oci::opt_texts(c.entrypoint)) + words(oci::opt_texts(c.cmd)),
                None => Seq::empty(),
            };
            text::texts(args@) == if all.len() == 0 {
                seq!["/bin/sh"@]
            } else {
                all
            }
        },
{
    match &opts.cmd {
        Some(cmd) => text::clone_strings(cmd),
        None => {
            let mut args: Vec<String> = Vec::new();
            assert(text::texts(args@) =~= Seq::<Seq<char>>::empty());
            match &image_config.config {
                Some(c) => {
                    append_all(&mut args, &c.entrypoint);
                    append_all(&mut args, &c.cmd);
                },
                None => {},
            }
            assert(text::texts(args@) =~= image_config@.entrypoint() + image_config@.cmd());
            assert(text::texts(args@).len() == args@.len());
            if args.len() == 0 {
                args.push(String::from_str("/bin/sh"));
                assert(text::texts(args@) =~= seq!["/bin/sh"@]);
            }
            args
        },
    }
}

/// The words that the configuration of an image gives under one of its two
/// command keys.
pub open spec fn words(list: Option<Seq<Seq<char>>>) -> Seq<Seq<char>> {
    match list {
        Some(v) => v,
        None => Seq::empty(),
    }
}

/// A command of the user's runs alone. Without one a container runs the words
/// of the image's entrypoint followed by those of its cmd: an image with one of
/// the two alone runs exactly that. It runs `/bin/sh` exactly if the image
/// names neither.
pub proof fn law_command_line(
    image: oci::ImageConfigSpec,
    entrypoint: Seq<Seq<char>>,
    cmd: Seq<Seq<char>>,
    user: Seq<Seq<char>>,
)
    requires
        image.config matches Some(c) ==> words(c.entrypoint) == entrypoint && words(c.cmd) == cmd,
        image.config is None ==> entrypoint.len() == 0 && cmd.len() == 0,
    ensures
        command_line(image, Some(user)) == user,
        entrypoint.len() == 0 && cmd.len() == 0 ==> command_line(image, None) == seq!["/bin/sh"@],
        entrypoint.len() > 0 && cmd.len() == 0 ==> command_line(image, None) == entrypoint,
        entrypoint.len() == 0 && cmd.len() > 0 ==> command_line(image, None) == cmd,
        entrypoint.len() > 0 && cmd.len() > 0 ==> {
            let line = command_line(image, None);
            &&& line.len() == entrypoint.len() + cmd.len()
            &&& forall|i: int| 0 <= i < entrypoint.len() ==> #[trigger] line[i] == entrypoint[i]
            &&& forall|i: int|
                0 <= i < cmd.len() ==> line[entrypoint.len() + i] == #[trigger] cmd[i]
        },
{
    let line = command_line(image, None);
    let both = image.entrypoint() + image.cmd();
    assert(both =~= entrypoint + cmd);
    if entrypoint.len() > 0 && cmd.len() == 0 {
        assert(line =~= entrypoint);
    }
    if entrypoint.len() == 0 && cmd.len() > 0 {
        assert(line =~= cmd);
    }
}

/// The working directory of a container.
pub open spec fn working_dir(image: oci::ImageConfigSpec) -> Seq<char> {
    match image.working_dir() {
        Some(dir) if dir.len() > 0 => dir,
        _ => "/"@,
    }
}

pub fn build_cwd(image_config: &ImageConfig) -> (cwd: String)
    ensures
        cwd@ == working_dir(image_config@),
{
    if let Some(c) = &image_config.config {
        if let Some(dir) = &c.working_dir {
            if dir.as_str().unicode_len() > 0 {
                return dir.clone();
            }
        }
    }
    String::from_str("/")
}

/// A container works in the directory that its image names, if that is not
/// empty, else in the root directory.
pub proof fn law_working_dir(image: oci::ImageConfigSpec)
    ensures
        image.config is None ==> working_dir(image) == "/"@,
        image.config matches Some(c) ==> match c.working_dir {
            Some(dir) => working_dir(image) == if dir.len() > 0 {
                dir
            } else {
                "/"@
            },
            None => working_dir(image) == "/"@,
        },
{
}

/// Image variables first, then the user's override.
pub open spec fn merged_env(image: oci::ImageConfigSpec, user: Seq<maps::Pair>) -> Seq<
    maps::Pair,
> {
    maps::extended(inspect::env_map(image.env()), user)
}

/// `KEY=value` for each pair.
pub open spec fn env_lines(pairs: Seq<maps::Pair>) -> Seq<Seq<char>> {
    pairs.map_values(|p: maps::Pair| p.0 + "="@ + p.1)
}

/// Whether no key holds a `=`.
pub open spec fn plain_keys(pairs: Seq<maps::Pair>) -> bool {
    forall|i: int| 0 <= i < pairs.len() ==> text::position((#[trigger] pairs[i]).0, '=') is None
}

proof fn lemma_env_pairs(pairs: Seq<maps::Pair>)
    requires
        plain_keys(pairs),
    ensures
        inspect::env_pairs(env_lines(pairs)) == pairs,
    decreases pairs.len(),
{
    let lines = env_lines(pairs);
    if pairs.len() == 0 {
        assert(inspect::env_pairs(lines) =~= pairs);
    } else {
        let front = pairs.drop_last();
        assert forall|i: int| 0 <= i < front.len() implies text::position(
            (#[trigger] front[i]).0,
            '=',
        ) is None by {
            assert(pairs[i] == front[i]);
        }
        lemma_env_pairs(front);
        assert(lines.drop_last() =~= env_lines(front));
        let (key, value) = pairs[pairs.len() - 1];
        reveal_strlit("=");
        let line = lines.last();
        assert(line == key + "="@ + value);
        text::lemma_position(key, '=');
        assert forall|j: int| 0 <= j < key.len() implies line[j] != '=' by {
            assert(line[j] == key[j]);
        }
        assert(line[key.len() as int] == '=');
        text::lemma_position_is(line, '=', key.len() as int);
        assert(line.take(key.len() as int) =~= key);
        assert(line.skip(key.len() as int + 1) =~= value);
        assert(front.push((key, value)) =~= pairs);
    }
}

/// Variables that are written as `KEY=value` strings are read back, in order,
/// unless a key holds a `=`.
pub proof fn law_env_round_trip(pairs: Seq<maps::Pair>)
    requires
        maps::distinct_keys(pairs),
        plain_keys(pairs),
    ensures
        inspect::env_map(env_lines(pairs)) == pairs,
{
    lemma_env_pairs(pairs);
    maps::lemma_extended_empty(pairs);
}

proof fn lemma_plain_extended(pairs: Seq<maps::Pair>, more: Seq<maps::Pair>)
    requires
        plain_keys(pairs),
        plain_keys(more),
    ensures
        plain_keys(maps::extended(pairs, more)),
    decreases more.len(),
{
    if more.len() > 0 {
        let front = more.drop_last();
        assert forall|i: int| 0 <= i < front.len() implies text::position(
            (#[trigger] front[i]).0,
            '=',
        ) is None by {
            assert(more[i] == front[i]);
        }
        lemma_plain_extended(pairs, front);
        let before = maps::extended(pairs, front);
        let key = more[more.len() - 1].0;
        assert(text::position(key, '=') is None);
        assert forall|i: int| 0 <= i < maps::extended(pairs, more).len() implies text::position(
            (#[trigger] maps::extended(pairs, more)[i]).0,
            '=',
        ) is None by {
            maps::lemma_key_index(before, key);
            if i < before.len() {
                assert(text::position(before[i].0, '=') is None);
            }
        }
    }
}

proof fn lemma_plain_env(env: Seq<Seq<char>>)
    ensures
        plain_keys(inspect::env_pairs(env)),
    decreases env.len(),
{
    if env.len() > 0 {
        let front = inspect::env_pairs(env.drop_last());
        lemma_plain_env(env.drop_last());
        let line = env.last();
        text::lemma_position(line, '=');
        match text::position(line, '=') {
            Some(k) => {
                let key = line.take(k);
                text::lemma_position_none(key, '=');
                assert forall|i: int| 0 <= i < inspect::env_pairs(env).len() implies text::position(
                    (#[trigger] inspect::env_pairs(env)[i]).0,
                    '=',
                ) is None by {
                    if i < front.len() {
                        assert(text::position(front[i].0, '=') is None);
                    }
                }
            },
            None => {},
        }
    }
}

/// The environment that a container is created with is what a reader of its
/// spec makes of it: the image's variables, overridden by the user's.
pub proof fn law_merged_env_is_read_back(image: oci::ImageConfigSpec, user: Seq<maps::Pair>)
    requires
        plain_keys(user),
    ensures
        inspect::env_map(env_lines(merged_env(image, user))) == merged_env(image, user),
{
    let base = inspect::env_pairs(image.env());
    lemma_plain_env(image.env());
    lemma_plain_extended(Seq::empty(), base);
    lemma_plain_extended(inspect::env_map(image.env()), user);
    maps::lemma_extended(Seq::empty(), base);
    maps::lemma_extended(inspect::env_map(image.env()), user);
    law_env_round_trip(merged_env(image, user));
}

/// A container has every variable that its image or the user sets, and no
/// other: the user's with the user's value, the rest with the image's.
pub proof fn law_merged_env(image: oci::ImageConfigSpec, env: Seq<Seq<char>>, user: Seq<maps::Pair>)
    requires
        image.config matches Some(c) ==> words(c.env) == env,
        image.config is None ==> env.len() == 0,
    ensures
        ({
            let made = maps::as_map(merged_env(image, user));
            let from_image = maps::as_map(inspect::env_pairs(env));
            let from_user = maps::as_map(user);
            forall|key: Seq<char>|
                #![trigger made.dom().contains(key)]
                {
                    &&& made.dom().contains(key) <==> from_image.dom().contains(key)
                        || from_user.dom().contains(key)
                    &&& from_user.dom().contains(key) ==> made[key] == from_user[key]
                    &&& from_image.dom().contains(key) && !from_user.dom().contains(key)
                        ==> made[key] == from_image[key]
                }
        }),
{
    assert(image.env() =~= env);
    maps::lemma_extended(Seq::empty(), inspect::env_pairs(env));
    maps::lemma_extended(inspect::env_map(env), user);
}

/// Every variable becomes one string, its key and its value with a `=` between
/// them, in order.
pub proof fn law_env_lines(pairs: Seq<maps::Pair>)
    ensures
        env_lines(pairs).len() == pairs.len(),
        forall|i: int|
            0 <= i < pairs.len() ==> #[trigger] env_lines(pairs)[i] == pairs[i].0 + seq!['=']
                + pairs[i].1,
{
    reveal_strlit("=");
    assert("="@ =~= seq!['=']);
}

/// Writes a map as `KEY=value` strings.
pub fn env_strings(env: &StringMap) -> (list: Vec<String>)
    ensures
        text::texts(list@) == env_lines(env.pairs()),
{
    let mut list: Vec<String> = Vec::new();
    let n: usize = env.len();
    for i in 0..n
        invariant
            n == env.pairs().len(),
            list@.len() == i,
            forall|j: int|
                0 <= j < i ==> (#[trigger] list@[j])@ == env_lines(env.pairs())[j],
    {
        let mut line = env.key(i).clone();
        line.append("=");
        line.append(env.value(i).as_str());
        list.push(line);
    }
    assert(text::texts(list@) =~= env_lines(env.pairs()));
    list
}

/// Image env first, then user opts override (last write wins).
pub fn build_merged_env(image_config: &ImageConfig, opts: &CreateContainerOpts) -> (list: Vec<
    String,
>)
    ensures
        text::texts(list@) == env_lines(merged_env(image_config@, opts@.env)),
{
    let mut env = match &image_config.config {
        Some(c) => match &c.env {
            Some(v) => inspect::parse_env_vars(v),
            None => StringMap::new(),
        },
        None => StringMap::new(),
    };
    assert(env.pairs() =~= inspect::env_map(image_config@.env())) by {
        if image_config@.env().len() == 0 {
            assert(image_config@.env() =~= Seq::<Seq<char>>::empty());
        }
    }
    env.extend(&opts.env);
    env_strings(&env)
}

/// The namespaces of a container: the defaults, but for the network namespace
/// in host mode.
pub open spec fn namespaces(mode: NetworkMode) -> Seq<NamespaceKind> {
    if mode == NetworkMode::Host {
        oci::default_kinds().filter(|k: NamespaceKind| k != NamespaceKind::Network)
    } else {
        oci::default_kinds()
    }
}

/// A container has a process, IPC, UTS, mount and cgroup namespace of its own,
/// and a network namespace unless it is in host mode; it has no other.
pub proof fn law_namespaces(mode: NetworkMode, kind: NamespaceKind)
    ensures
        namespaces(mode).contains(kind) <==> {
            ||| kind == NamespaceKind::Pid
            ||| kind == NamespaceKind::Ipc
            ||| kind == NamespaceKind::Uts
            ||| kind == NamespaceKind::Mount
            ||| kind == NamespaceKind::Cgroup
            ||| kind == NamespaceKind::Network && mode != NetworkMode::Host
        },
{
    let all = oci::default_kinds();
    assert(all[0] == NamespaceKind::Pid && all[1] == NamespaceKind::Network && all[2]
        == NamespaceKind::Ipc && all[3] == NamespaceKind::Uts && all[4] == NamespaceKind::Mount
        && all[5] == NamespaceKind::Cgroup);
    assert(all.len() == 6);
    if mode == NetworkMode::Host {
        reveal_with_fuel(Seq::filter, 7);
        let host = seq![all[0], all[2], all[3], all[4], all[5]];
        assert(namespaces(mode) =~= host);
        assert(host[0] == all[0] && host[1] == all[2] && host[2] == all[3] && host[3] == all[4]
            && host[4] == all[5]);
    }
}

/// Host mode shares the host net namespace.
pub fn build_namespaces(network_mode: &NetworkMode) -> (kinds: Vec<NamespaceKind>)
    ensures
        kinds@ == namespaces(*network_mode),
        kinds@.contains(NamespaceKind::Network) <==> *network_mode != NetworkMode::Host,
{
    let all = oci::default_namespaces();
    if *network_mode != NetworkMode::Host {
        assert(all@[1] == NamespaceKind::Network);
        return all;
    }
    let ghost keep = |k: NamespaceKind| k != NamespaceKind::Network;
    let mut kinds: Vec<NamespaceKind> = Vec::new();
    let n: usize = all.len();
    assert(kinds@ =~= all@.take(0).filter(keep)) by {
        reveal(Seq::filter);
    }
    for i in 0..n
        invariant
            n == all@.len(),
            keep == (|k: NamespaceKind| k != NamespaceKind::Network),
            kinds@ == all@.take(i as int).filter(keep),
            !kinds@.contains(NamespaceKind::Network),
    {
        proof {
            reveal(Seq::filter);
        }
        assert(all@.take(i + 1).drop_last() =~= all@.take(i as int));
        if all[i] != NamespaceKind::Network {
            let ghost before = kinds@;
            kinds.push(all[i]);
            assert forall|j: int| 0 <= j < kinds@.len() implies kinds@[j]
                != NamespaceKind::Network by {
                if j < before.len() {
                    assert(before.contains(before[j]));
                }
            }
        }
    }
    assert(all@.take(n as int) =~= all@);
    kinds
}

/// An OCI hook that runs `/bin/sh -c <script>` in the VM.
pub open spec fn shell_hook(script: Seq<char>) -> oci::HookSpec {
    oci::HookSpec {
        path: "/bin/sh"@,
        args: seq!["/bin/sh"@, "-c"@, script],
        env: seq![HOOK_PATH@],
    }
}

pub fn sh_hook(script: &str) -> (hook: HookPlan)
    ensures
        hook@ == shell_hook(script@),
{
    let mut args: Vec<String> = Vec::new();
    args.push(String::from_str("/bin/sh"));
    args.push(String::from_str("-c"));
    args.push(String::from_str(script));
    assert(text::texts(args@) =~= seq!["/bin/sh"@, "-c"@, script@]);
    let mut env: Vec<String> = Vec::new();
    env.push(String::from_str(HOOK_PATH));
    assert(text::texts(env@) =~= seq![HOOK_PATH@]);
    HookPlan { path: String::from_str("/bin/sh"), args, env }
}

/// The hooks of a container in bridge mode, whose `(container_port,
/// host_port)` bindings are `ports`.
pub open spec fn bridge_hooks(
    id: Seq<char>,
    ip: Seq<char>,
    ports: Seq<(u16, u16)>,
) -> oci::HooksSpec {
    oci::HooksSpec {
        prestart: shell_hook(bridge::prestart(ip, id)),
        poststart: shell_hook(bridge::poststart(id, ip, ports)),
        poststop: shell_hook(bridge::poststop(id, ports)),
    }
}

/// prestart = veth+bridge+routes; poststart = socat proxy; poststop = cleanup.
pub fn build_bridge_hooks(container_id: &str, container_ip: &str, ports: &Vec<(u16, u16)>) -> (hooks:
    HookPlans)
    ensures
        hooks@ == bridge_hooks(container_id@, container_ip@, ports@),
{
    HookPlans {
        prestart: sh_hook(bridge::prestart_hook_script(container_ip, container_id).as_str()),
        poststart: sh_hook(
            bridge::poststart_hook_script(container_id, container_ip, ports.as_slice()).as_str(),
        ),
        poststop: sh_hook(bridge::poststop_hook_script(container_id, ports.as_slice()).as_str()),
    }
}

/// The capabilities of a container's processes: Docker's default set.
pub open spec fn default_capabilities() -> Seq<CapabilityKind> {
    seq![
        CapabilityKind::Chown,
        CapabilityKind::DacOverride,
        CapabilityKind::Fsetid,
        CapabilityKind::Fowner,
        CapabilityKind::Mknod,
        CapabilityKind::NetRaw,
        CapabilityKind::Setgid,
        CapabilityKind::Setuid,
        CapabilityKind::Setfcap,
        CapabilityKind::Setpcap,
        CapabilityKind::NetBindService,
        CapabilityKind::SysChroot,
        CapabilityKind::Kill,
        CapabilityKind::AuditWrite,
    ]
}

/// The capability set of a container's primary process, which `exec` processes
/// share.
pub fn default_exec_capabilities() -> (caps: Vec<CapabilityKind>)
    ensures
        caps@ == default_capabilities(),
{
    let caps = vec![
        CapabilityKind::Chown,
        CapabilityKind::DacOverride,
        CapabilityKind::Fsetid,
        CapabilityKind::Fowner,
        CapabilityKind::Mknod,
        CapabilityKind::NetRaw,
        CapabilityKind::Setgid,
        CapabilityKind::Setuid,
        CapabilityKind::Setfcap,
        CapabilityKind::Setpcap,
        CapabilityKind::NetBindService,
        CapabilityKind::SysChroot,
        CapabilityKind::Kill,
        CapabilityKind::AuditWrite,
    ];
    assert(caps@ =~= default_capabilities());
    caps
}

/// The default capabilities in each of the five sets.
pub open spec fn default_capability_sets() -> oci::CapabilitySetsSpec {
    let caps = default_capabilities().to_set();
    oci::CapabilitySetsSpec {
        bounding: caps,
        effective: caps,
        inheritable: caps,
        permitted: caps,
        ambient: caps,
    }
}

pub(crate) fn exec_capability_sets() -> (sets: CapabilitySets)
    ensures
        sets@ == default_capability_sets(),
{
    CapabilitySets {
        bounding: default_exec_capabilities(),
        effective: default_exec_capabilities(),
        inheritable: default_exec_capabilities(),
        permitted: default_exec_capabilities(),
        ambient: default_exec_capabilities(),
    }
}

/// A process has exactly the capabilities that Docker grants by default, in
/// each of its sets.
pub proof fn law_default_capabilities(kind: CapabilityKind)
    ensures
        ({
            let granted = {
                ||| kind == CapabilityKind::Chown
                ||| kind == CapabilityKind::DacOverride
                ||| kind == CapabilityKind::Fsetid
                ||| kind == CapabilityKind::Fowner
                ||| kind == CapabilityKind::Mknod
                ||| kind == CapabilityKind::NetRaw
                ||| kind == CapabilityKind::Setgid
                ||| kind == CapabilityKind::Setuid
                ||| kind == CapabilityKind::Setfcap
                ||| kind == CapabilityKind::Setpcap
                ||| kind == CapabilityKind::NetBindService
                ||| kind == CapabilityKind::SysChroot
                ||| kind == CapabilityKind::Kill
                ||| kind == CapabilityKind::AuditWrite
            };
            let sets = default_capability_sets();
            &&& sets.bounding.contains(kind) <==> granted
            &&& sets.effective.contains(kind) <==> granted
            &&& sets.inheritable.contains(kind) <==> granted
            &&& sets.permitted.contains(kind) <==> granted
            &&& sets.ambient.contains(kind) <==> granted
        }),
{
    let caps = default_capabilities();
    assert(caps[0] == CapabilityKind::Chown && caps[1] == CapabilityKind::DacOverride && caps[2]
        == CapabilityKind::Fsetid && caps[3] == CapabilityKind::Fowner && caps[4]
        == CapabilityKind::Mknod && caps[5] == CapabilityKind::NetRaw && caps[6]
        == CapabilityKind::Setgid && caps[7] == CapabilityKind::Setuid && caps[8]
        == CapabilityKind::Setfcap && caps[9] == CapabilityKind::Setpcap && caps[10]
        == CapabilityKind::NetBindService && caps[11] == CapabilityKind::SysChroot && caps[12]
        == CapabilityKind::Kill && caps[13] == CapabilityKind::AuditWrite);
    assert(caps.len() == 14);
}

/// The hooks of a container in bridge mode each hand a script to the shell: the
/// one that sets the network up before the start, the one that forwards ports
/// behind it, and the one that cleans up after the stop.
pub proof fn law_bridge_hooks(id: Seq<char>, ip: Seq<char>, ports: Seq<(u16, u16)>)
    ensures
        ({
            let hooks = bridge_hooks(id, ip, ports);
            let runs = |hook: oci::HookSpec, script: Seq<char>|
                {
                    &&& hook.path == "/bin/sh"@
                    &&& hook.args == seq!["/bin/sh"@, "-c"@, script]
                    &&& hook.env.len() == 1 && hook.env[0] == HOOK_PATH@
                };
            &&& runs(hooks.prestart, bridge::prestart(ip, id))
            &&& runs(hooks.poststart, bridge::poststart(id, ip, ports))
            &&& runs(hooks.poststop, bridge::poststop(id, ports))
        }),
{
}

/// The runtime spec of a container.
pub open spec fn runtime_spec(
    image: oci::ImageConfigSpec,
    opts: CreateOptsSpec,
    hooks: Option<oci::HooksSpec>,
) -> oci::RuntimeSpecSpec {
    oci::RuntimeSpecSpec {
        version: OCI_SPEC_VERSION@,
        process: oci::ProcessSpec {
            terminal: false,
            args: command_line(image, opts.cmd),
            env: env_lines(merged_env(image, opts.env)),
            cwd: working_dir(image),
            uid: 0,
            gid: 0,
            capabilities: default_capability_sets(),
        },
        root_path: OCI_ROOTFS_PATH@,
        root_readonly: false,
        namespaces: namespaces(opts.mode),
        mounts: if opts.mounts.len() == 0 {
            None
        } else {
            Some(oci_mounts(opts.mounts))
        },
        hooks,
    }
}

/// The process of a container runs its command line, in its environment and
/// working directory, as root and without a terminal, on a writable rootfs. All
/// mounts of the user, and only those, are bind mounts of it, in order and with
/// the user's options; the hooks are the given ones.
pub proof fn law_runtime_spec(
    image: oci::ImageConfigSpec,
    opts: CreateOptsSpec,
    hooks: Option<oci::HooksSpec>,
)
    ensures
        ({
            let spec = runtime_spec(image, opts, hooks);
            &&& spec.version == "1.0.2"@
            &&& spec.process.args == command_line(image, opts.cmd)
            &&& spec.process.env == env_lines(merged_env(image, opts.env))
            &&& spec.process.cwd == working_dir(image)
            &&& spec.process.uid == 0 && spec.process.gid == 0 && !spec.process.terminal
            &&& spec.process.capabilities == default_capability_sets()
            &&& spec.root_path == "rootfs"@ && !spec.root_readonly
            &&& spec.namespaces == namespaces(opts.mode)
            &&& spec.hooks == hooks
            &&& opts.mounts.len() == 0 ==> spec.mounts is None
            &&& opts.mounts.len() > 0 ==> spec.mounts is Some
            &&& spec.mounts matches Some(made) ==> made.len() == opts.mounts.len()
            &&& spec.mounts matches Some(made) ==> forall|i: int|
                0 <= i < made.len() ==> {
                    &&& (#[trigger] made[i]).source == Some(opts.mounts[i].source)
                    &&& made[i].destination == opts.mounts[i].destination
                    &&& made[i].typ == Some("bind"@)
                    &&& made[i].options == Some(opts.mounts[i].options)
                }
        }),
{
}

pub open spec fn opt_hooks(hooks: Option<HookPlans>) -> Option<oci::HooksSpec> {
    match hooks {
        Some(h) => Some(h@),
        None => None,
    }
}

pub fn build_oci_spec(
    image_config: &ImageConfig,
    opts: &CreateContainerOpts,
    hooks: Option<HookPlans>,
) -> (spec: RuntimeSpec)
    ensures
        spec@ == runtime_spec(image_config@, opts@, opt_hooks(hooks)),
{
    let mounts = build_mounts(opts);
    assert(oci::mount_views(mounts@).len() == mounts@.len());
    let process = ProcessPlan {
        terminal: false,
        args: build_args(image_config, opts),
        env: build_merged_env(image_config, opts),
        cwd: build_cwd(image_config),
        uid: 0,
        gid: 0,
        capabilities: exec_capability_sets(),
    };
    RuntimeSpec {
        version: String::from_str(OCI_SPEC_VERSION),
        process,
        root_path: String::from_str(OCI_ROOTFS_PATH),
        root_readonly: false,
        namespaces: build_namespaces(&opts.network.mode),
        mounts: if mounts.len() == 0 {
            None
        } else {
            Some(mounts)
        },
        hooks,
    }
}

/// A value with a type URL, as containerd stores payloads.
#[derive(Debug)]
pub struct Any {
    pub type_url: String,
    pub value: Vec<u8>,
}

/// Whether a payload is a runtime spec written down.
pub open spec fn is_spec(any: Any, spec: oci::RuntimeSpecSpec) -> bool {
    &&& any.type_url@ == OCI_SPEC_TYPE_URL@
    &&& oci::runtime_document(any.value@) matches Ok(fields)
    &&& spec.written_as(fields)
}

/// A payload that is a runtime spec is marked as one, and a reader finds in it
/// what the spec lays out.
pub proof fn law_is_spec(any: Any, spec: oci::RuntimeSpecSpec)
    requires
        is_spec(any, spec),
    ensures
        any.type_url@ == "types.containerd.io/opencontainers/runtime-spec/1/Spec"@,
        oci::runtime_document(any.value@) is Ok,
        spec.written_as(oci::runtime_document(any.value@)->Ok_0),
{
}

/// Writes the OCI spec down for a container record.
pub fn spec_to_any(spec: &RuntimeSpec) -> (out: Result<Any>)
    ensures
        out matches Ok(any) && is_spec(any, spec@),
{
    match oci::write_runtime_spec(spec) {
        Ok(value) => Ok(Any { type_url: String::from_str(OCI_SPEC_TYPE_URL), value }),
        Err(reason) => Err(invalid_argument("serialize OCI spec: ", reason.as_str())),
    }
}

/// The error for something that could not be understood.
pub open spec fn invalid(what: Seq<char>, reason: Seq<char>) -> ErrorSpec {
    ErrorSpec::InvalidArgument(what + reason)
}

pub(crate) fn invalid_argument(what: &str, reason: &str) -> (e: Error)
    ensures
        e@ == invalid(what@, reason@),
{
    let mut message = String::from_str(what);
    message.append(reason);
    Error::InvalidArgument(message)
}

/// The chain id of a stack of layers: for one layer the diff id; for more, the
/// digest of the chain id of the layers below, a space, and the diff id.
pub open spec fn chain_id(diff_ids: Seq<Seq<char>>) -> Seq<char>
    decreases diff_ids.len(),
{
    if diff_ids.len() == 0 {
        Seq::empty()
    } else if diff_ids.len() == 1 {
        diff_ids[0]
    } else {
        "sha256:"@ + outside::hex_text(
            outside::sha256(text::utf8(chain_id(diff_ids.drop_last()) + " "@ + diff_ids.last())),
        )
    }
}

/// The chain id of one layer is its diff id; a layer on top of others makes it
/// the SHA-256 of the chain id of those, a space, and its diff id.
pub proof fn law_chain_id(below: Seq<Seq<char>>, top: Seq<char>)
    ensures
        chain_id(seq![top]) == top,
        below.len() > 0 ==> chain_id(below.push(top)) == "sha256:"@ + outside::hex_text(
            outside::sha256(text::utf8(chain_id(below) + seq![' '] + top)),
        ),
{
    reveal_strlit(" ");
    assert(" "@ =~= seq![' ']);
    assert(below.push(top).drop_last() =~= below);
}

/// For one layer, chain ID = diff ID. For N>1,
/// chain_N = sha256(chain_{N-1} + " " + diff_N).
pub fn compute_chain_id(diff_ids: &Vec<String>) -> (id: String)
    ensures
        id@ == chain_id(text::texts(diff_ids@)),
{
    let n: usize = diff_ids.len();
    let ghost all = text::texts(diff_ids@);
    assert(all.len() == n);
    if n == 0 {
        let empty = String::new();
        assert(empty@ =~= Seq::<char>::empty());
        return empty;
    }
    let mut chain = diff_ids[0].clone();
    assert(all.take(1).len() == 1);
    for i in 1..n
        invariant
            n == diff_ids@.len(),
            all == text::texts(diff_ids@),
            chain@ == chain_id(all.take(i as int)),
    {
        assert(all.take(i + 1).drop_last() =~= all.take(i as int));
        let mut input = chain.clone();
        input.append(" ");
        input.append(diff_ids[i].as_str());
        let digest = outside::sha256_digest(input.as_str().as_bytes());
        let mut next = String::from_str("sha256:");
        next.append(outside::hex_encode(digest.as_slice()).as_str());
        chain = next;
    }
    assert(all.take(n as int) =~= all);
    chain
}

/// What creating a container needs to know of an image.
#[derive(Debug)]
pub struct ImageMetadata {
    pub chain_id: String,
    pub config: ImageConfig,
    pub raw_config: Vec<u8>,
}

#[verifier::ext_equal]
pub struct ImageMetadataSpec {
    pub chain_id: Seq<char>,
    pub config: oci::ImageConfigSpec,
    pub raw_config: Seq<u8>,
}

impl View for ImageMetadata {
    type V = ImageMetadataSpec;

    open spec fn view(&self) -> ImageMetadataSpec {
        ImageMetadataSpec {
            chain_id: self.chain_id@,
            config: self.config@,
            raw_config: self.raw_config@,
        }
    }
}

/// Where the search for an image's configuration goes on.
#[derive(Debug)]
pub enum ManifestStep {
    /// The blob with this digest is the configuration.
    Config(String),
    /// The blob with this digest is the manifest for our architecture.
    SubManifest(String),
}

#[verifier::ext_equal]
pub enum ManifestStepSpec {
    Config(Seq<char>),
    SubManifest(Seq<char>),
}

impl View for ManifestStep {
    type V = ManifestStepSpec;

    open spec fn view(&self) -> ManifestStepSpec {
        match *self {
            ManifestStep::Config(d) => ManifestStepSpec::Config(d@),
            ManifestStep::SubManifest(d) => ManifestStepSpec::SubManifest(d@),
        }
    }
}

/// The first member of an index for an architecture.
pub open spec fn entry_for_arch(list: Seq<json::JsonSpec>, arch: Seq<char>) -> Option<
    json::JsonSpec,
>
    decreases list.len(),
{
    if list.len() == 0 {
        None
    } else if is_for_arch(list[0], arch) {
        Some(list[0])
    } else {
        entry_for_arch(list.drop_first(), arch)
    }
}

pub open spec fn is_for_arch(entry: json::JsonSpec, arch: Seq<char>) -> bool {
    match entry.get("platform"@) {
        Some(p) => p.get_str("architecture"@) == Some(arch),
        None => false,
    }
}

/// A member of an index is for an architecture exactly if its platform says so.
/// The first such member counts; there is none exactly if no member is.
pub proof fn law_entry_for_arch(list: Seq<json::JsonSpec>, arch: Seq<char>, i: int)
    requires
        0 <= i < list.len(),
        forall|j: int| 0 <= j < i ==> !is_for_arch(#[trigger] list[j], arch),
    ensures
        is_for_arch(list[i], arch) <==> list[i].get("platform"@) is Some && list[i].get(
            "platform"@,
        )->0.get_str("architecture"@) == Some(arch),
        is_for_arch(list[i], arch) ==> entry_for_arch(list, arch) == Some(list[i]),
        i == list.len() - 1 && !is_for_arch(list[i], arch) ==> entry_for_arch(list, arch) is None,
    decreases list.len(),
{
    if i > 0 {
        let rest = list.drop_first();
        assert(!is_for_arch(list[0], arch));
        assert(rest[i - 1] == list[i]);
        assert forall|j: int| 0 <= j < i - 1 implies !is_for_arch(#[trigger] rest[j], arch) by {
            assert(rest[j] == list[j + 1]);
        }
        law_entry_for_arch(rest, arch, i - 1);
    } else if list.len() == 1 {
        assert(entry_for_arch(list.drop_first(), arch) is None);
    }
}

/// What a manifest points to: a configuration, or, for an index, the manifest
/// for the architecture.
pub open spec fn manifest_step(manifest: json::JsonSpec, arch: Seq<char>) -> core::result::Result<
    ManifestStepSpec,
    Seq<char>,
> {
    match manifest.get("config"@) {
        Some(config) => match config.get_str("digest"@) {
            Some(d) => Ok(ManifestStepSpec::Config(d)),
            None => Err("manifest missing config digest"@),
        },
        None => match manifest.get("manifests"@) {
            Some(json::JsonSpec::Array(list)) => match entry_for_arch(list, arch) {
                Some(m) => match m.get_str("digest"@) {
                    Some(d) => Ok(ManifestStepSpec::SubManifest(d)),
                    None => Err("no manifest found for architecture "@ + arch),
                },
                None => Err("no manifest found for architecture "@ + arch),
            },
            Some(_) => Err("invalid manifests array"@),
            None => Err("manifest has neither config nor manifests"@),
        },
    }
}

/// A manifest that names a configuration points to it, whatever else it holds
/// and whatever the architecture; one that does not, but lists manifests, points
/// to the first for the architecture; any other points nowhere.
pub proof fn law_manifest_step(
    manifest: json::JsonSpec,
    arch: Seq<char>,
    config: json::JsonSpec,
    list: Seq<json::JsonSpec>,
    entry: json::JsonSpec,
    digest: Seq<char>,
)
    ensures
        manifest.get("config"@) == Some(config) && config.get_str("digest"@) == Some(digest)
            ==> manifest_step(manifest, arch) == Ok::<ManifestStepSpec, Seq<char>>(
            ManifestStepSpec::Config(digest),
        ),
        manifest.get("config"@) == Some(config) && config.get_str("digest"@) is None
            ==> manifest_step(manifest, arch) is Err,
        manifest.get("config"@) is None && manifest.get("manifests"@) == Some(
            json::JsonSpec::Array(list),
        ) && entry_for_arch(list, arch) == Some(entry) && entry.get_str("digest"@) == Some(digest)
            ==> manifest_step(manifest, arch) == Ok::<ManifestStepSpec, Seq<char>>(
            ManifestStepSpec::SubManifest(digest),
        ),
        manifest.get("config"@) is None && manifest.get("manifests"@) == Some(
            json::JsonSpec::Array(list),
        ) && entry_for_arch(list, arch) is None ==> manifest_step(manifest, arch) == Err::<
            ManifestStepSpec,
            Seq<char>,
        >("no manifest found for architecture "@ + arch),
        manifest.get("config"@) is None && !(manifest.get("manifests"@) matches Some(
            json::JsonSpec::Array(_),
        )) ==> manifest_step(manifest, arch) is Err,
{
}

fn is_entry_for(entry: &Json, arch: &str) -> (yes: bool)
    ensures
        yes == is_for_arch(entry@, arch@),
{
    match entry.get("platform") {
        Some(p) => match p.get_str("architecture") {
            Some(a) => text::str_eq(a.as_str(), arch),
            None => false,
        },
        None => false,
    }
}

fn find_entry<'a>(list: &'a Vec<Json>, arch: &str) -> (found: Option<&'a Json>)
    ensures
        ({
            let views = Seq::new(list@.len(), |i: int| list@[i]@);
            match found {
                Some(e) => entry_for_arch(views, arch@) == Some(e@),
                None => entry_for_arch(views, arch@) is None,
            }
        }),
{
    let ghost views = Seq::new(list@.len(), |i: int| list@[i]@);
    let n: usize = list.len();
    assert(views.skip(0) =~= views);
    for i in 0..n
        invariant
            n == list@.len(),
            views == Seq::new(list@.len(), |i: int| list@[i]@),
            entry_for_arch(views.skip(i as int), arch@) == entry_for_arch(views, arch@),
    {
        let ghost here = views.skip(i as int);
        assert(here[0] == list@[i as int]@);
        assert(here.drop_first() =~= views.skip(i + 1));
        if is_entry_for(&list[i], arch) {
            return Some(&list[i]);
        }
    }
    None
}

/// Decides what a parsed manifest points to.
pub fn follow_manifest(manifest: &Json, arch: &str) -> (out: Result<ManifestStep>)
    ensures
        match out {
            Ok(step) => manifest_step(manifest@, arch@) == Ok::<ManifestStepSpec, Seq<char>>(
                step@,
            ),
            Err(e) => manifest_step(manifest@, arch@) matches Err(m) && e@
                == ErrorSpec::InvalidArgument(m),
        },
{
    if let Some(config) = manifest.get("config") {
        return match config.get_str("digest") {
            Some(d) => Ok(ManifestStep::Config(d.clone())),
            None => Err(
                Error::InvalidArgument(String::from_str("manifest missing config digest")),
            ),
        };
    }
    match manifest.get("manifests") {
        Some(Json::Array(list)) => {
            assert(Seq::new(list@.len(), |i: int| list@[i]@) =~= manifest@.get(
                "manifests"@,
            )->0->Array_0);
            match find_entry(list, arch) {
                Some(m) => match m.get_str("digest") {
                    Some(d) => Ok(ManifestStep::SubManifest(d.clone())),
                    None => Err(invalid_argument("no manifest found for architecture ", arch)),
                },
                None => Err(invalid_argument("no manifest found for architecture ", arch)),
            }
        },
        Some(_) => Err(Error::InvalidArgument(String::from_str("invalid manifests array"))),
        None => Err(
            Error::InvalidArgument(String::from_str("manifest has neither config nor manifests")),
        ),
    }
}

/// What a manifest blob points to.
pub open spec fn manifest_target(raw: Seq<u8>, arch: Seq<char>) -> core::result::Result<
    ManifestStepSpec,
    ErrorSpec,
> {
    match json::document(raw) {
        Ok(manifest) => match manifest_step(manifest, arch) {
            Ok(step) => Ok(step),
            Err(m) => Err(ErrorSpec::InvalidArgument(m)),
        },
        Err(reason) => Err(invalid("parse manifest: "@, reason)),
    }
}

/// A manifest blob points to what its document points to, and nowhere if it is
/// none.
pub proof fn law_manifest_target(raw: Seq<u8>, arch: Seq<char>)
    ensures
        json::document(raw) matches Ok(manifest) ==> {
            &&& manifest_target(raw, arch) is Ok <==> manifest_step(manifest, arch) is Ok
            &&& manifest_step(manifest, arch) matches Ok(step) ==> manifest_target(raw, arch)
                == Ok::<ManifestStepSpec, ErrorSpec>(step)
        },
        json::document(raw) matches Err(reason) ==> manifest_target(raw, arch) == Err::<
            ManifestStepSpec,
            ErrorSpec,
        >(ErrorSpec::InvalidArgument("parse manifest: "@ + reason)),
        manifest_target(raw, arch) matches Err(e) ==> e is InvalidArgument,
{
}

/// Reads a manifest blob and decides what it points to.
pub fn read_manifest(raw: &[u8], arch: &str) -> (out: Result<ManifestStep>)
    ensures
        match out {
            Ok(step) => manifest_target(raw@, arch@) == Ok::<ManifestStepSpec, ErrorSpec>(step@),
            Err(e) => manifest_target(raw@, arch@) == Err::<ManifestStepSpec, ErrorSpec>(e@),
        },
{
    match json::parse_json(raw) {
        Ok(manifest) => follow_manifest(&manifest, arch),
        Err(reason) => Err(invalid_argument("parse manifest: ", reason.as_str())),
    }
}

/// The configuration digest of a manifest for one architecture.
pub open spec fn config_digest(manifest: json::JsonSpec) -> Option<Seq<char>> {
    match manifest.get("config"@) {
        Some(c) => c.get_str("digest"@),
        None => None,
    }
}

/// The configuration that a parsed manifest for our architecture points to.
pub fn follow_sub_manifest(manifest: &Json) -> (out: Result<String>)
    ensures
        match out {
            Ok(d) => config_digest(manifest@) == Some(d@),
            Err(e) => config_digest(manifest@) is None && e@
                == ErrorSpec::InvalidArgument("sub-manifest missing config digest"@),
        },
{
    if let Some(config) = manifest.get("config") {
        if let Some(d) = config.get_str("digest") {
            return Ok(d.clone());
        }
    }
    Err(Error::InvalidArgument(String::from_str("sub-manifest missing config digest")))
}

/// The configuration that the manifest blob for our architecture points to.
pub open spec fn sub_manifest_target(raw: Seq<u8>) -> core::result::Result<Seq<char>, ErrorSpec> {
    match json::document(raw) {
        Ok(manifest) => match config_digest(manifest) {
            Some(d) => Ok(d),
            None => Err(ErrorSpec::InvalidArgument("sub-manifest missing config digest"@)),
        },
        Err(reason) => Err(invalid("parse sub-manifest: "@, reason)),
    }
}

/// The manifest for our architecture points to the configuration that it names,
/// and nowhere if it names none.
pub proof fn law_sub_manifest_target(raw: Seq<u8>, digest: Seq<char>)
    ensures
        sub_manifest_target(raw) == Ok::<Seq<char>, ErrorSpec>(digest) <==> match json::document(
            raw,
        ) {
            Ok(manifest) => manifest.get("config"@) is Some && manifest.get(
                "config"@,
            )->0.get_str("digest"@) == Some(digest),
            Err(_) => false,
        },
        sub_manifest_target(raw) matches Err(e) ==> e is InvalidArgument,
{
}

/// Reads the manifest blob for our architecture.
pub fn read_sub_manifest(raw: &[u8]) -> (out: Result<String>)
    ensures
        match out {
            Ok(d) => sub_manifest_target(raw@) == Ok::<Seq<char>, ErrorSpec>(d@),
            Err(e) => sub_manifest_target(raw@) == Err::<Seq<char>, ErrorSpec>(e@),
        },
{
    match json::parse_json(raw) {
        Ok(manifest) => follow_sub_manifest(&manifest),
        Err(reason) => Err(invalid_argument("parse sub-manifest: ", reason.as_str())),
    }
}

/// The metadata of an image with a parsed configuration.
pub fn metadata_of(config: ImageConfig, raw_config: Vec<u8>) -> (out: Result<ImageMetadata>)
    ensures
        match out {
            Ok(m) => {
                &&& config.diff_ids@.len() > 0
                &&& m.chain_id@ == chain_id(config@.diff_ids)
                &&& m.config == config
                &&& m.raw_config == raw_config
            },
            Err(e) => config.diff_ids@.len() == 0 && e@ == ErrorSpec::InvalidArgument(
                "image config has no diff_ids"@,
            ),
        },
{
    if config.diff_ids.len() == 0 {
        return Err(Error::InvalidArgument(String::from_str("image config has no diff_ids")));
    }
    let chain_id = compute_chain_id(&config.diff_ids);
    Ok(ImageMetadata { chain_id, config, raw_config })
}

/// The metadata of an image with this configuration blob.
pub open spec fn metadata_in(raw: Seq<u8>) -> core::result::Result<ImageMetadataSpec, ErrorSpec> {
    match oci::image_document(raw) {
        Ok(config) => if config.diff_ids.len() > 0 {
            Ok(
                ImageMetadataSpec {
                    chain_id: chain_id(config.diff_ids),
                    config,
                    raw_config: raw,
                },
            )
        } else {
            Err(ErrorSpec::InvalidArgument("image config has no diff_ids"@))
        },
        Err(reason) => Err(invalid("parse image config: "@, reason)),
    }
}

/// The metadata of an image is its configuration, the blob that it was read
/// from and the chain id of all its layers; an image without layers has none.
pub proof fn law_metadata_in(raw: Seq<u8>)
    ensures
        metadata_in(raw) matches Ok(m) ==> {
            &&& oci::image_document(raw) == Ok::<oci::ImageConfigSpec, Seq<char>>(m.config)
            &&& m.raw_config == raw
            &&& m.config.diff_ids.len() > 0
            &&& m.chain_id == chain_id(m.config.diff_ids)
        },
        metadata_in(raw) is Ok <==> (oci::image_document(raw) matches Ok(config)
            && config.diff_ids.len() > 0),
        metadata_in(raw) matches Err(e) ==> e is InvalidArgument,
{
}

/// Reads an image's configuration blob.
pub fn read_image_config(raw: Vec<u8>) -> (out: Result<ImageMetadata>)
    ensures
        match out {
            Ok(m) => metadata_in(raw@) == Ok::<ImageMetadataSpec, ErrorSpec>(m@),
            Err(e) => metadata_in(raw@) == Err::<ImageMetadataSpec, ErrorSpec>(e@),
        },
{
    match oci::parse_image_config(raw.as_slice()) {
        Ok(config) => {
            assert(text::texts(config.diff_ids@).len() == config.diff_ids@.len());
            metadata_of(config, raw)
        },
        Err(reason) => Err(invalid_argument("parse image config: ", reason.as_str())),
    }
}

} // verus!
