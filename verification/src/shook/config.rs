use vstd::prelude::*;


use crate::shook::maps::{
    lists_entries, resolve_map, resolved_contents, runner_pairs, runner_refs, EntryMap, PortMap,
    ResolveStrategy, RunnerMap, SecretMap, TextMap,
};

verus! {

/// Turns a configuration as written into the configuration used.
pub trait IResolve<T> {
    fn resolve(self) -> T;
}

/// The code-hosting service the webhooks come from.
#[derive(Debug, Clone, Copy, PartialEq, Eq, Structural)]
pub enum Vendor {
    Bitbucket,
    Forgejo,
    Gitea,
    Github,
    Gitlab,
    Woodpecker,
}

/// The code-hosting account: service, access token, webhook secret and the
/// repositories and users whose jobs are run.
#[derive(Debug, Clone)]
pub struct ConfigDevOp {
    pub vendor: Vendor,
    pub token: String,
    pub webhook_secret: String,
    pub allowed_repositories: Vec<String>,
    pub allowed_users: Vec<String>,
}

/// The job dispatcher: the memory it may hand out and how often a failed
/// job is retried.
#[derive(Debug, Clone, Copy, PartialEq, Eq, Structural)]
pub struct ConfigKioyu {
    pub memory: u32,
    pub max_retries: usize,
}

/// The webhook listener.
#[derive(Debug, Clone, Copy, PartialEq, Eq, Structural)]
pub struct ConfigServer {
    pub port: u16,
}

/// The dispatcher settings used when none are written: 1024 MiB, one
/// retry.
pub fn default_config_kioyu() -> (r: ConfigKioyu)
    ensures
        r == (ConfigKioyu { memory: 1024, max_retries: 1 }),
{
    ConfigKioyu { memory: 1024, max_retries: 1 }
}

/// The listener settings used when none are written: port 8787.
pub fn default_config_server() -> (r: ConfigServer)
    ensures
        r == (ConfigServer { port: 8787 }),
{
    ConfigServer { port: 8787 }
}

/// The number of CPUs a runner gets when none is written.
pub fn default_cpus() -> (r: u8)
    ensures
        r == 1,
{
    1
}

/// The memory (MiB) a runner gets when none is written.
pub fn default_memory() -> (r: u32)
    ensures
        r == 512,
{
    512
}

/// A rule of the runner settings that is broken.
#[derive(Debug, Clone, Copy, PartialEq, Eq, Structural)]
pub enum RunnerViolation {
    /// A CPU count of zero.
    Cpus,
    /// A memory size of zero.
    Memory,
    /// A port forward from or to port zero.
    InvalidPort { local: u16, remote: u16 },
}

/// A rule of the configuration that is broken.
#[derive(Debug, Clone, PartialEq, Eq)]
pub enum ConfigViolation {
    /// The listener port is zero.
    ServerPort,
    /// No repository is allowed.
    NoAllowedRepository,
    /// No user is allowed.
    NoAllowedUser,
    /// A setting shared by all runners breaks a rule.
    Runners(RunnerViolation),
    /// No runner is configured.
    NoRunner,
    /// The runner called `name` breaks a rule.
    InvalidRunner { name: String, violation: RunnerViolation },
    /// A runner runs more than one instance while more than one user is
    /// allowed.
    TooManyUsers,
    /// A runner runs more than one instance while more than one repository
    /// is allowed.
    TooManyRepositories,
}

/// A port forwarding is valid when neither side is port zero.
pub open spec fn ports_valid(m: Map<u16, u16>) -> bool {
    forall|k: u16| #[trigger] m.contains_key(k) ==> k != 0 && m[k] != 0
}

/// Whether `v` names a forward of `m` from or to port zero.
pub open spec fn port_violation(m: Map<u16, u16>, v: RunnerViolation) -> bool {
    v matches RunnerViolation::InvalidPort { local, remote } && m.contains_key(local) && m[local]
        == remote && (local == 0 || remote == 0)
}

/// Checks that no forward uses port zero; names a forward that does.
pub fn validate_ports(ports: &PortMap) -> (r: Result<(), RunnerViolation>)
    ensures
        r is Ok <==> ports_valid(ports@),
        r matches Err(v) ==> port_violation(ports@, v),
{
    let entries = ports.entries();
    let mut i: usize = 0;
    while i < entries.len()
        invariant
            i <= entries@.len(),
            lists_entries(ports@, entries@),
            forall|j: int| 0 <= j < i ==> (#[trigger] entries@[j]).0 != 0 && entries@[j].1 != 0,
        decreases entries.len() - i,
    {
        let (local, remote) = entries[i];
        if local == 0 || remote == 0 {
            return Err(RunnerViolation::InvalidPort { local, remote });
        }
        i = i + 1;
    }
    proof {
        assert forall|k: u16| #[trigger] ports@.contains_key(k) implies k != 0 && ports@[k] != 0 by {
            let j = choose|j: int| 0 <= j < entries@.len() && #[trigger] entries@[j].0 == k;
        }
    }
    Ok(())
}

/// The settings of one runner as written.
pub struct RawRunnerConfigInner {
    pub image: String,
    pub count: usize,
    pub cpus: u8,
    pub memory: u32,
    pub volumes: Option<TextMap>,
    pub volumes_strategy: ResolveStrategy,
    pub ports: Option<PortMap>,
    pub ports_strategy: ResolveStrategy,
    pub envs: Option<TextMap>,
    pub envs_strategy: ResolveStrategy,
    pub secrets: Option<SecretMap>,
    pub secrets_strategy: ResolveStrategy,
}

/// Whether an optional port forwarding is valid.
pub open spec fn opt_ports_valid(p: Option<PortMap>) -> bool {
    match p {
        Some(m) => ports_valid(m@),
        None => true,
    }
}

impl RawRunnerConfigInner {
    /// The runner gets at least one CPU and some memory, and forwards no
    /// port zero.
    pub open spec fn valid(&self) -> bool {
        &&& self.cpus >= 1
        &&& self.memory >= 1
        &&& opt_ports_valid(self.ports)
    }

    /// The rule the runner's check names as broken, checked in order:
    /// the CPU count, the memory size, then the port forwards.
    pub open spec fn violation(&self, v: RunnerViolation) -> bool {
        if self.cpus == 0 {
            v == RunnerViolation::Cpus
        } else if self.memory == 0 {
            v == RunnerViolation::Memory
        } else {
            self.ports matches Some(m) && port_violation(m@, v)
        }
    }

    /// Checks the runner's settings; names the first broken rule.
    pub fn validate(&self) -> (r: Result<(), RunnerViolation>)
        ensures
            r is Ok <==> self.valid(),
            r matches Err(v) ==> self.violation(v),
    {
        if self.cpus < 1 {
            return Err(RunnerViolation::Cpus);
        }
        if self.memory < 1 {
            return Err(RunnerViolation::Memory);
        }
        match &self.ports {
            Some(p) => validate_ports(p),
            None => Ok(()),
        }
    }
}

/// Whether at least one runner is configured and every runner is valid.
pub open spec fn runners_valid(runners: Map<Seq<char>, RawRunnerConfigInner>) -> bool {
    &&& exists|name: Seq<char>| runners.contains_key(name)
    &&& forall|name: Seq<char>| #[trigger] runners.contains_key(name) ==> runners[name].valid()
}

/// The rule the runners' check names as broken: no runner at all, or else
/// a runner that is invalid, with the rule it breaks. Which of several
/// invalid runners is named follows the map's order, which is left open.
pub open spec fn runners_violation(
    runners: Map<Seq<char>, RawRunnerConfigInner>,
    v: ConfigViolation,
) -> bool {
    match v {
        ConfigViolation::NoRunner => !exists|name: Seq<char>| runners.contains_key(name),
        ConfigViolation::InvalidRunner { name, violation } => {
            &&& runners.contains_key(name@)
            &&& !runners[name@].valid()
            &&& runners[name@].violation(violation)
        },
        _ => false,
    }
}

/// Checks that at least one runner is configured and that every runner is
/// valid; names a broken rule.
pub fn validate_runners(runners: &RunnerMap) -> (r: Result<(), ConfigViolation>)
    ensures
        r is Ok <==> runners_valid(runners@),
        r matches Err(v) ==> runners_violation(runners@, v),
{
    let entries = runners.iter();
    let ghost es = runner_refs(entries@);
    if entries.len() == 0 {
        proof {
            assert forall|name: Seq<char>| !runners@.contains_key(name) by {
                if runners@.contains_key(name) {
                    let i = choose|i: int| 0 <= i < es.len() && #[trigger] es[i].0 == name;
                }
            }
        }
        return Err(ConfigViolation::NoRunner);
    }
    proof {
        assert(runners@.contains_key(es[0].0));
    }
    let mut i: usize = 0;
    while i < entries.len()
        invariant
            i <= entries@.len(),
            es == runner_refs(entries@),
            lists_entries(runners@, es),
            forall|j: int| 0 <= j < i ==> (#[trigger] es[j]).1.valid(),
        decreases entries.len() - i,
    {
        let (name, runner) = entries[i];
        assert(es[i as int] == (name@, *runner));
        match runner.validate() {
            Ok(()) => {},
            Err(violation) => {
                proof {
                    assert(runners@.contains_key(es[i as int].0));
                    assert(runners@[name@] == *runner);
                }
                let owned = name.clone();
                return Err(ConfigViolation::InvalidRunner { name: owned, violation });
            },
        }
        i = i + 1;
    }
    proof {
        assert forall|name: Seq<char>| #[trigger] runners@.contains_key(name) implies runners@[name].valid() by {
            let j = choose|j: int| 0 <= j < es.len() && #[trigger] es[j].0 == name;
            assert(es[j].1.valid());
        }
    }
    Ok(())
}

/// The runner settings as written: defaults for every runner and the
/// runners by name.
pub struct RawConfigRunner {
    pub cpus: Option<u32>,
    pub memory: Option<u32>,
    pub volumes: Option<TextMap>,
    pub ports: Option<PortMap>,
    pub envs: Option<TextMap>,
    pub secrets: Option<SecretMap>,
    pub runners: RunnerMap,
}

impl RawConfigRunner {
    /// Shared CPU and memory settings are positive when given, shared port
    /// forwards are valid, and the runners are.
    pub open spec fn valid(&self) -> bool {
        &&& (self.cpus matches Some(c) ==> c >= 1)
        &&& (self.memory matches Some(m) ==> m >= 1)
        &&& opt_ports_valid(self.ports)
        &&& runners_valid(self.runners@)
    }

    /// The rule the check of the runner settings names as broken, checked
    /// in order: the shared CPU count, the shared memory size, the shared
    /// port forwards, then the runners.
    pub open spec fn violation(&self, v: ConfigViolation) -> bool {
        if self.cpus matches Some(c) && c < 1 {
            v == ConfigViolation::Runners(RunnerViolation::Cpus)
        } else if self.memory matches Some(m) && m < 1 {
            v == ConfigViolation::Runners(RunnerViolation::Memory)
        } else if !opt_ports_valid(self.ports) {
            v matches ConfigViolation::Runners(pv) && port_violation(self.ports.unwrap()@, pv)
        } else {
            runners_violation(self.runners@, v)
        }
    }

    /// Checks the runner settings; names the first broken rule.
    pub fn validate(&self) -> (r: Result<(), ConfigViolation>)
        ensures
            r is Ok <==> self.valid(),
            r matches Err(v) ==> self.violation(v),
    {
        if let Some(c) = self.cpus {
            if c < 1 {
                return Err(ConfigViolation::Runners(RunnerViolation::Cpus));
            }
        }
        if let Some(m) = self.memory {
            if m < 1 {
                return Err(ConfigViolation::Runners(RunnerViolation::Memory));
            }
        }
        if let Some(p) = &self.ports {
            if let Err(v) = validate_ports(p) {
                return Err(ConfigViolation::Runners(v));
            }
        }
        validate_runners(&self.runners)
    }
}

/// A runner as used: its name, image, instance count, resources and the
/// maps it ends up with.
pub struct ConfigRunner {
    pub name: String,
    pub image: String,
    pub count: usize,
    pub cpus: u8,
    pub memory: u32,
    pub volumes: TextMap,
    pub ports: PortMap,
    pub envs: TextMap,
    pub secrets: SecretMap,
}

/// A copy of a map, made by merging it into an empty one.
pub fn copy_map<M: EntryMap>(m: &M) -> (r: M)
    ensures
        r.contents() == m.contents(),
{
    let mut c = M::empty();
    c.merge_from(m);
    assert(Map::<M::Key, M::Value>::empty().union_prefer_right(m.contents()) =~= m.contents());
    c
}

/// A copy of an optional map.
fn copy_opt_map<M: EntryMap>(m: &Option<M>) -> (r: Option<M>)
    ensures
        r is Some <==> m is Some,
        r matches Some(c) ==> c.contents() == m->Some_0.contents(),
{
    match m {
        Some(inner) => Some(copy_map(inner)),
        None => None,
    }
}

/// What a written runner resolves to, given the shared maps.
pub open spec fn runner_resolves_to(
    shared: RawConfigRunner,
    name: Seq<char>,
    raw: RawRunnerConfigInner,
    r: ConfigRunner,
) -> bool {
    &&& r.name@ == name
    &&& r.image@ == raw.image@
    &&& r.count == raw.count
    &&& r.cpus == raw.cpus
    &&& r.memory == raw.memory
    &&& r.volumes@ == resolved_contents(shared.volumes, raw.volumes, raw.volumes_strategy)
    &&& r.ports@ == resolved_contents(shared.ports, raw.ports, raw.ports_strategy)
    &&& r.envs@ == resolved_contents(shared.envs, raw.envs, raw.envs_strategy)
    &&& r.secrets@ == resolved_contents(shared.secrets, raw.secrets, raw.secrets_strategy)
}

/// The runners resolved from the runners written in `shared`: one per
/// written runner, each under its name and resolved by
/// [`runner_resolves_to`].
pub open spec fn resolves_all(shared: RawConfigRunner, r: Seq<ConfigRunner>) -> bool {
    let written = shared.runners@;
    &&& forall|i: int|
        0 <= i < r.len() ==> written.contains_key((#[trigger] r[i]).name@) && runner_resolves_to(
            shared,
            r[i].name@,
            written[r[i].name@],
            r[i],
        )
    &&& forall|name: Seq<char>|
        #[trigger] written.contains_key(name) ==> exists|i: int| 0 <= i < r.len() && #[trigger] r[i].name@ == name
    &&& forall|i: int, j: int| 0 <= i < j < r.len() ==> (#[trigger] r[i]).name@ != (#[trigger] r[j]).name@
}

impl IResolve<Vec<ConfigRunner>> for RawConfigRunner {
    /// Every runner, with each of its maps combined with the shared one by
    /// the runner's strategy for it, in the order the map yields them.
    fn resolve(self) -> (r: Vec<ConfigRunner>)
        ensures
            resolves_all(self, r@),
    {
        let ghost shared = self;
        let RawConfigRunner { cpus: _, memory: _, volumes, ports, envs, secrets, runners } = self;
        let entries = runners.into_entries();
        let ghost es = runner_pairs(entries@);
        let mut out: Vec<ConfigRunner> = Vec::new();
        let mut i: usize = 0;
        while i < entries.len()
            invariant
                i <= entries@.len(),
                es == runner_pairs(entries@),
                lists_entries(shared.runners@, es),
                volumes == shared.volumes,
                ports == shared.ports,
                envs == shared.envs,
                secrets == shared.secrets,
                out@.len() == i,
                forall|k: int|
                    0 <= k < i ==> (#[trigger] out@[k]).name@ == es[k].0 && runner_resolves_to(
                        shared,
                        es[k].0,
                        es[k].1,
                        out@[k],
                    ),
            decreases entries.len() - i,
        {
            let name = entries[i].0.clone();
            let raw = &entries[i].1;
            assert(es[i as int] == (name@, *raw));
            let resolved = ConfigRunner {
                name,
                image: raw.image.clone(),
                count: raw.count,
                cpus: raw.cpus,
                memory: raw.memory,
                volumes: resolve_map(copy_opt_map(&volumes), copy_opt_map(&raw.volumes), raw.volumes_strategy),
                ports: resolve_map(copy_opt_map(&ports), copy_opt_map(&raw.ports), raw.ports_strategy),
                envs: resolve_map(copy_opt_map(&envs), copy_opt_map(&raw.envs), raw.envs_strategy),
                secrets: resolve_map(copy_opt_map(&secrets), copy_opt_map(&raw.secrets), raw.secrets_strategy),
            };
            out.push(resolved);
            i = i + 1;
        }
        proof {
            assert forall|name: Seq<char>| #[trigger] shared.runners@.contains_key(name) implies exists|i: int|
                0 <= i < out@.len() && #[trigger] out@[i].name@ == name by {
                let j = choose|j: int| 0 <= j < es.len() && #[trigger] es[j].0 == name;
                assert(out@[j].name@ == name);
            }
        }
        out
    }
}

/// The whole configuration as written.
pub struct RawConfig {
    pub server: ConfigServer,
    pub devop: ConfigDevOp,
    pub kioyu: ConfigKioyu,
    pub runners: RawConfigRunner,
}

/// The whole configuration as used.
pub struct Config {
    pub server: ConfigServer,
    pub devop: ConfigDevOp,
    pub kioyu: ConfigKioyu,
    pub runners: Vec<ConfigRunner>,
}

impl ConfigServer {
    /// The listener port lies in `1..=65535`.
    pub open spec fn valid(&self) -> bool {
        self.port >= 1
    }
}

impl ConfigDevOp {
    /// At least one repository and one user are allowed.
    pub open spec fn valid(&self) -> bool {
        &&& self.allowed_repositories@.len() >= 1
        &&& self.allowed_users@.len() >= 1
    }

    /// Whether jobs of the repository `repo` are run.
    pub open spec fn allows_repository(&self, repo: Seq<char>) -> bool {
        exists|i: int|
            0 <= i < self.allowed_repositories@.len() && #[trigger] self.allowed_repositories@[i]@
                == repo
    }

    /// Whether jobs started by the user `user` are run.
    pub open spec fn allows_user(&self, user: Seq<char>) -> bool {
        exists|i: int| 0 <= i < self.allowed_users@.len() && #[trigger] self.allowed_users@[i]@ == user
    }
}

impl IResolve<ConfigServer> for ConfigServer {
    /// The listener settings are used as written.
    fn resolve(self) -> (r: ConfigServer)
        ensures
            r == self,
    {
        self
    }
}

impl IResolve<ConfigKioyu> for ConfigKioyu {
    /// The dispatcher settings are used as written.
    fn resolve(self) -> (r: ConfigKioyu)
        ensures
            r == self,
    {
        self
    }
}

impl IResolve<ConfigDevOp> for ConfigDevOp {
    /// The account settings are used as written.
    fn resolve(self) -> (r: ConfigDevOp)
        ensures
            r.vendor == self.vendor,
            r.token == self.token,
            r.webhook_secret == self.webhook_secret,
            r.allowed_repositories == self.allowed_repositories,
            r.allowed_users == self.allowed_users,
    {
        self
    }
}

/// The largest of `start` and the memory sizes of the runners `0..n`.
pub open spec fn memory_needed(start: u32, runners: Seq<ConfigRunner>, n: int) -> u32
    decreases n,
{
    if n <= 0 {
        start
    } else {
        let m = memory_needed(start, runners, n - 1);
        if m <= runners[n - 1].memory {
            runners[n - 1].memory
        } else {
            m
        }
    }
}

/// The dispatcher memory never falls short of a runner: it is raised to
/// the largest runner memory when that is larger.
pub proof fn lemma_memory_needed_covers(start: u32, runners: Seq<ConfigRunner>, n: int)
    requires
        0 <= n <= runners.len(),
    ensures
        memory_needed(start, runners, n) >= start,
        forall|i: int| 0 <= i < n ==> memory_needed(start, runners, n) >= (#[trigger] runners[i]).memory,
        memory_needed(start, runners, n) == start || exists|i: int|
            0 <= i < n && memory_needed(start, runners, n) == (#[trigger] runners[i]).memory,
    decreases n,
{
    if n > 0 {
        lemma_memory_needed_covers(start, runners, n - 1);
    }
}

impl IResolve<Config> for RawConfig {
    /// The configuration as used: every part resolved, and the dispatcher
    /// memory raised to the memory of the largest runner.
    fn resolve(self) -> (r: Config)
        ensures
            r.server == self.server,
            r.devop.allowed_repositories == self.devop.allowed_repositories,
            r.devop.allowed_users == self.devop.allowed_users,
            r.devop.token == self.devop.token,
            r.devop.webhook_secret == self.devop.webhook_secret,
            r.devop.vendor == self.devop.vendor,
            r.kioyu.max_retries == self.kioyu.max_retries,
            resolves_all(self.runners, r.runners@),
            r.kioyu.memory == memory_needed(self.kioyu.memory, r.runners@, r.runners@.len() as int),
    {
        let server = self.server.resolve();
        let devop = self.devop.resolve();
        let mut kioyu = self.kioyu.resolve();
        let runners = self.runners.resolve();
        let mut i: usize = 0;
        while i < runners.len()
            invariant
                i <= runners@.len(),
                kioyu.max_retries == self.kioyu.max_retries,
                kioyu.memory == memory_needed(self.kioyu.memory, runners@, i as int),
            decreases runners.len() - i,
        {
            if kioyu.memory <= runners[i].memory {
                kioyu.memory = runners[i].memory;
            }
            i = i + 1;
        }
        Config { server, devop, kioyu, runners }
    }
}

/// Port forwards that each forward no port zero combine into forwards that
/// forward no port zero, whatever the strategy.
proof fn lemma_resolved_ports_valid(
    shared: Option<PortMap>,
    own: Option<PortMap>,
    strategy: ResolveStrategy,
)
    requires
        opt_ports_valid(shared),
        opt_ports_valid(own),
    ensures
        ports_valid(resolved_contents(shared, own, strategy)),
{
    let r = resolved_contents(shared, own, strategy);
    assert forall|k: u16| #[trigger] r.contains_key(k) implies k != 0 && r[k] != 0 by {
        match shared {
            Some(m) => assert(m.contents() == m@),
            None => {},
        }
        match own {
            Some(m) => assert(m.contents() == m@),
            None => {},
        }
    }
}

/// A configuration that passes validation resolves to runners that each get
/// at least one CPU and some memory and forward no port zero, each under a
/// name of its own.
pub proof fn lemma_valid_config_gives_valid_runners(raw: RawConfig, runners: Seq<ConfigRunner>)
    requires
        raw.valid(),
        resolves_all(raw.runners, runners),
    ensures
        forall|i: int|
            0 <= i < runners.len() ==> (#[trigger] runners[i]).cpus >= 1 && runners[i].memory >= 1
                && ports_valid(runners[i].ports@),
        forall|i: int, j: int|
            0 <= i < j < runners.len() ==> (#[trigger] runners[i]).name@ != (#[trigger] runners[j]).name@,
{
    assert forall|i: int| 0 <= i < runners.len() implies (#[trigger] runners[i]).cpus >= 1
        && runners[i].memory >= 1 && ports_valid(runners[i].ports@) by {
        let own = raw.runners.runners@[runners[i].name@];
        assert(own.valid());
        lemma_resolved_ports_valid(raw.runners.ports, own.ports, own.ports_strategy);
    }
}

/// Whether some runner runs more than one instance.
pub open spec fn has_multi_instance_runner(runners: Map<Seq<char>, RawRunnerConfigInner>) -> bool {
    exists|name: Seq<char>| #[trigger] runners.contains_key(name) && runners[name].count > 1
}

impl RawConfig {
    /// The rule across parts: a runner with several instances serves a
    /// single user and a single repository.
    pub open spec fn instances_rule(&self) -> bool {
        has_multi_instance_runner(self.runners.runners@) ==> {
            &&& self.devop.allowed_users@.len() <= 1
            &&& self.devop.allowed_repositories@.len() <= 1
        }
    }

    /// Every part is valid and the rule across parts holds.
    pub open spec fn valid(&self) -> bool {
        &&& self.server.valid()
        &&& self.devop.valid()
        &&& self.runners.valid()
        &&& self.instances_rule()
    }

    /// Checks the rule across parts; names the broken half.
    pub fn validate_config(&self) -> (r: Result<(), ConfigViolation>)
        ensures
            r is Ok <==> self.instances_rule(),
            r matches Err(v) ==> self.cross_violation(v),
    {
        let entries = self.runners.runners.iter();
        let ghost es = runner_refs(entries@);
        let ghost m = self.runners.runners@;
        let mut multi = false;
        let mut i: usize = 0;
        while i < entries.len()
            invariant
                i <= entries@.len(),
                es == runner_refs(entries@),
                lists_entries(m, es),
                multi <==> exists|j: int| 0 <= j < i && (#[trigger] es[j]).1.count > 1,
            decreases entries.len() - i,
        {
            let (_name, runner) = entries[i];
            assert(es[i as int].1 == *runner);
            if runner.count > 1 {
                multi = true;
            }
            i = i + 1;
        }
        proof {
            if multi {
                let j = choose|j: int| 0 <= j < es.len() && (#[trigger] es[j]).1.count > 1;
                assert(m.contains_key(es[j].0));
            }
            if has_multi_instance_runner(m) {
                let name = choose|name: Seq<char>| #[trigger] m.contains_key(name) && m[name].count > 1;
                let j = choose|j: int| 0 <= j < es.len() && #[trigger] es[j].0 == name;
                assert(es[j].1.count > 1);
            }
        }
        if multi {
            if self.devop.allowed_users.len() > 1 {
                return Err(ConfigViolation::TooManyUsers);
            }
            if self.devop.allowed_repositories.len() > 1 {
                return Err(ConfigViolation::TooManyRepositories);
            }
        }
        Ok(())
    }

    /// The rule the check of the whole configuration names as broken,
    /// checked in order: the listener port, the allowed repositories, the
    /// allowed users, the runner settings, then the rule across parts.
    pub open spec fn violation(&self, v: ConfigViolation) -> bool {
        if self.server.port < 1 {
            v == ConfigViolation::ServerPort
        } else if self.devop.allowed_repositories@.len() < 1 {
            v == ConfigViolation::NoAllowedRepository
        } else if self.devop.allowed_users@.len() < 1 {
            v == ConfigViolation::NoAllowedUser
        } else if !self.runners.valid() {
            self.runners.violation(v)
        } else {
            self.cross_violation(v)
        }
    }

    /// The half of the rule across parts that its check names as broken:
    /// first too many users, then too many repositories.
    pub open spec fn cross_violation(&self, v: ConfigViolation) -> bool {
        &&& has_multi_instance_runner(self.runners.runners@)
        &&& match v {
            ConfigViolation::TooManyUsers => self.devop.allowed_users@.len() > 1,
            ConfigViolation::TooManyRepositories => self.devop.allowed_users@.len() <= 1
                && self.devop.allowed_repositories@.len() > 1,
            _ => false,
        }
    }

    /// Checks the whole configuration: first every part, then, when the
    /// parts are valid, the rule across parts; names the first broken rule.
    pub fn validate(&self) -> (r: Result<(), ConfigViolation>)
        ensures
            r is Ok <==> self.valid(),
            r matches Err(v) ==> self.violation(v),
    {
        if self.server.port < 1 {
            return Err(ConfigViolation::ServerPort);
        }
        if self.devop.allowed_repositories.len() < 1 {
            return Err(ConfigViolation::NoAllowedRepository);
        }
        if self.devop.allowed_users.len() < 1 {
            return Err(ConfigViolation::NoAllowedUser);
        }
        match self.runners.validate() {
            Err(v) => Err(v),
            Ok(()) => self.validate_config(),
        }
    }
}

} // verus!
