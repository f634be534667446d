//! The deployment configuration (`shipit.toml`) and its validation.

use vstd::prelude::*;
use crate::text::{push_all, str_eq};

verus! {

#[derive(Clone, Debug)]
pub struct SecretsConfig {
    pub recipients: Vec<String>,
}

#[derive(Clone, Debug)]
pub struct AppConfig {
    pub name: String,
    pub repository: String,
    pub branch: String,
}

#[derive(Clone, Debug)]
pub struct HealthCheckConfig {
    pub path: String,
    pub port: u16,
    pub timeout: u64,
    pub interval: u64,
    pub retries: u32,
    pub cmd: Option<String>,
}

#[derive(Clone, Debug)]
pub struct DeployConfig {
    pub deploy_to: String,
    pub keep_releases: usize,
    /// `remote` or `local`.
    pub build: String,
    pub health_check: HealthCheckConfig,
    pub web_service: Option<String>,
}

#[derive(Clone, Debug)]
pub struct HostConfig {
    pub address: String,
}

#[derive(Clone, Debug)]
pub struct TraefikConfig {
    pub domain: String,
    pub tls: bool,
    pub acme_email: Option<String>,
}

#[derive(Clone, Debug)]
pub struct StageConfig {
    pub user: Option<String>,
    pub port: Option<u16>,
    pub os: Option<String>,
    pub hosts: Vec<HostConfig>,
    /// Environment entries, keys unique.
    pub env: Vec<(String, String)>,
    pub traefik: Option<TraefikConfig>,
    /// A jump host to connect through.
    pub proxy: Option<String>,
}

#[derive(Clone, Debug)]
pub struct AccessoryConfig {
    pub image: String,
    pub host: String,
    pub port: Option<String>,
    pub cmd: Option<String>,
    /// Environment entries, keys unique.
    pub env: Vec<(String, String)>,
    pub volumes: Vec<String>,
}

#[derive(Clone, Debug)]
pub struct ShipitConfig {
    pub app: AppConfig,
    pub deploy: DeployConfig,
    pub secrets: SecretsConfig,
    /// Stages by name.
    pub stages: Vec<(String, StageConfig)>,
    /// Accessories by name.
    pub accessories: Vec<(String, AccessoryConfig)>,
}

pub fn default_branch() -> (r: String)
    ensures
        r@ == "main"@,
{
    String::from_str("main")
}

pub fn default_deploy_to() -> (r: String)
    ensures
        r@ == "/var/deploy"@,
{
    String::from_str("/var/deploy")
}

pub fn default_keep_releases() -> (r: usize)
    ensures
        r == 5,
{
    5
}

pub fn default_build() -> (r: String)
    ensures
        r@ == "remote"@,
{
    String::from_str("remote")
}

pub fn default_health_path() -> (r: String)
    ensures
        r@ == "/health"@,
{
    String::from_str("/health")
}

pub fn default_health_port() -> (r: u16)
    ensures
        r == 8080,
{
    8080
}

pub fn default_health_timeout() -> (r: u64)
    ensures
        r == 60,
{
    60
}

pub fn default_health_interval() -> (r: u64)
    ensures
        r == 2,
{
    2
}

pub fn default_health_retries() -> (r: u32)
    ensures
        r == 15,
{
    15
}

impl Default for HealthCheckConfig {
    fn default() -> (r: HealthCheckConfig)
        ensures
            r.path@ == "/health"@,
            r.port == 8080,
            r.timeout == 60,
            r.interval == 2,
            r.retries == 15,
            r.cmd is None,
    {
        HealthCheckConfig {
            path: default_health_path(),
            port: default_health_port(),
            timeout: default_health_timeout(),
            interval: default_health_interval(),
            retries: default_health_retries(),
            cmd: None,
        }
    }
}

/// What is wrong with a configuration.
#[derive(Debug)]
pub enum ConfigError {
    EmptyAppName,
    EmptyRepository,
    /// `deploy.build` is neither `remote` nor `local`.
    InvalidBuild(String),
    /// A stage names an unsupported OS: stage, OS.
    InvalidOs(String, String),
    /// A stage has no hosts.
    NoHosts(String),
    /// A stage has a host with an empty address.
    EmptyHostAddress(String),
    /// A stage's traefik domain is empty.
    EmptyTraefikDomain(String),
    /// A stage enables TLS without an ACME e-mail address.
    TlsWithoutEmail(String),
    /// An accessory has no image.
    AccessoryWithoutImage(String),
    /// An accessory has no host.
    AccessoryWithoutHost(String),
    /// No stage of that name.
    StageNotFound(String),
}

/// The contents of a `ConfigError`.
pub enum ConfigProblem {
    EmptyAppName,
    EmptyRepository,
    InvalidBuild(Seq<char>),
    InvalidOs(Seq<char>, Seq<char>),
    NoHosts(Seq<char>),
    EmptyHostAddress(Seq<char>),
    EmptyTraefikDomain(Seq<char>),
    TlsWithoutEmail(Seq<char>),
    AccessoryWithoutImage(Seq<char>),
    AccessoryWithoutHost(Seq<char>),
    StageNotFound(Seq<char>),
}

impl View for ConfigError {
    type V = ConfigProblem;

    open spec fn view(&self) -> ConfigProblem {
        match self {
            ConfigError::EmptyAppName => ConfigProblem::EmptyAppName,
            ConfigError::EmptyRepository => ConfigProblem::EmptyRepository,
            ConfigError::InvalidBuild(b) => ConfigProblem::InvalidBuild(b@),
            ConfigError::InvalidOs(s, o) => ConfigProblem::InvalidOs(s@, o@),
            ConfigError::NoHosts(s) => ConfigProblem::NoHosts(s@),
            ConfigError::EmptyHostAddress(s) => ConfigProblem::EmptyHostAddress(s@),
            ConfigError::EmptyTraefikDomain(s) => ConfigProblem::EmptyTraefikDomain(s@),
            ConfigError::TlsWithoutEmail(s) => ConfigProblem::TlsWithoutEmail(s@),
            ConfigError::AccessoryWithoutImage(s) => ConfigProblem::AccessoryWithoutImage(s@),
            ConfigError::AccessoryWithoutHost(s) => ConfigProblem::AccessoryWithoutHost(s@),
            ConfigError::StageNotFound(s) => ConfigProblem::StageNotFound(s@),
        }
    }
}

pub open spec fn is_supported_build(b: Seq<char>) -> bool {
    b == "remote"@ || b == "local"@
}

pub open spec fn is_supported_os(o: Seq<char>) -> bool {
    o == "ubuntu"@ || o == "debian"@ || o == "nixos"@
}

/// The first problem of the `[app]` and `[deploy]` sections.
pub open spec fn app_problem(c: ShipitConfig) -> Option<ConfigProblem> {
    if c.app.name@.len() == 0 {
        Some(ConfigProblem::EmptyAppName)
    } else if c.app.repository@.len() == 0 {
        Some(ConfigProblem::EmptyRepository)
    } else if !is_supported_build(c.deploy.build@) {
        Some(ConfigProblem::InvalidBuild(c.deploy.build@))
    } else {
        None
    }
}

/// The first problem of one stage.
pub open spec fn stage_problem(name: Seq<char>, s: StageConfig) -> Option<ConfigProblem> {
    if s.os matches Some(o) && !is_supported_os(o@) {
        Some(ConfigProblem::InvalidOs(name, s.os->Some_0@))
    } else if s.hosts@.len() == 0 {
        Some(ConfigProblem::NoHosts(name))
    } else if exists|i: int| 0 <= i < s.hosts@.len() && (#[trigger] s.hosts@[i]).address@.len() == 0 {
        Some(ConfigProblem::EmptyHostAddress(name))
    } else if s.traefik matches Some(t) && t.domain@.len() == 0 {
        Some(ConfigProblem::EmptyTraefikDomain(name))
    } else if s.traefik matches Some(t) && t.tls && t.acme_email is None {
        Some(ConfigProblem::TlsWithoutEmail(name))
    } else {
        None
    }
}

/// The first problem among `stages`, in order.
pub open spec fn stages_problem(stages: Seq<(String, StageConfig)>) -> Option<ConfigProblem>
    decreases stages.len(),
{
    if stages.len() == 0 {
        None
    } else {
        match stage_problem(stages[0].0@, stages[0].1) {
            Some(p) => Some(p),
            None => stages_problem(stages.drop_first()),
        }
    }
}

pub open spec fn accessory_problem(name: Seq<char>, a: AccessoryConfig) -> Option<ConfigProblem> {
    if a.image@.len() == 0 {
        Some(ConfigProblem::AccessoryWithoutImage(name))
    } else if a.host@.len() == 0 {
        Some(ConfigProblem::AccessoryWithoutHost(name))
    } else {
        None
    }
}

pub open spec fn accessories_problem(acc: Seq<(String, AccessoryConfig)>) -> Option<ConfigProblem>
    decreases acc.len(),
{
    if acc.len() == 0 {
        None
    } else {
        match accessory_problem(acc[0].0@, acc[0].1) {
            Some(p) => Some(p),
            None => accessories_problem(acc.drop_first()),
        }
    }
}

/// The first problem of a configuration, checking the app, then the
/// stages in order, then the accessories in order.
pub open spec fn config_problem(c: ShipitConfig) -> Option<ConfigProblem> {
    match app_problem(c) {
        Some(p) => Some(p),
        None => match stages_problem(c.stages@) {
            Some(p) => Some(p),
            None => accessories_problem(c.accessories@),
        },
    }
}

fn check_stage(name: &String, s: &StageConfig) -> (r: Result<(), ConfigError>)
    ensures
        match r {
            Ok(()) => stage_problem(name@, *s) is None,
            Err(e) => stage_problem(name@, *s) == Some(e@),
        },
{
    if let Some(o) = &s.os {
        if !(str_eq(o.as_str(), "ubuntu") || str_eq(o.as_str(), "debian") || str_eq(o.as_str(), "nixos")) {
            return Err(ConfigError::InvalidOs(name.clone(), o.clone()));
        }
    }
    if s.hosts.len() == 0 {
        return Err(ConfigError::NoHosts(name.clone()));
    }
    let mut i: usize = 0;
    while i < s.hosts.len()
        invariant
            i <= s.hosts@.len(),
            s.hosts@.len() > 0,
            !(s.os matches Some(o) && !is_supported_os(o@)),
            forall|j: int| 0 <= j < i ==> (#[trigger] s.hosts@[j]).address@.len() != 0,
        decreases s.hosts@.len() - i,
    {
        if s.hosts[i].address.unicode_len() == 0 {
            assert(s.hosts@[i as int].address@.len() == 0);
            return Err(ConfigError::EmptyHostAddress(name.clone()));
        }
        i = i + 1;
    }
    if let Some(t) = &s.traefik {
        if t.domain.unicode_len() == 0 {
            return Err(ConfigError::EmptyTraefikDomain(name.clone()));
        }
        if t.tls && t.acme_email.is_none() {
            return Err(ConfigError::TlsWithoutEmail(name.clone()));
        }
    }
    Ok(())
}

fn check_accessory(name: &String, a: &AccessoryConfig) -> (r: Result<(), ConfigError>)
    ensures
        match r {
            Ok(()) => accessory_problem(name@, *a) is None,
            Err(e) => accessory_problem(name@, *a) == Some(e@),
        },
{
    if a.image.unicode_len() == 0 {
        return Err(ConfigError::AccessoryWithoutImage(name.clone()));
    }
    if a.host.unicode_len() == 0 {
        return Err(ConfigError::AccessoryWithoutHost(name.clone()));
    }
    Ok(())
}

/// Checks a configuration: `Ok` exactly when it has no problem, else the
/// first problem found (app, then stages, then accessories, each in order).
pub fn validate(config: &ShipitConfig) -> (r: Result<(), ConfigError>)
    ensures
        match r {
            Ok(()) => config_problem(*config) is None,
            Err(e) => config_problem(*config) == Some(e@),
        },
{
    if config.app.name.unicode_len() == 0 {
        return Err(ConfigError::EmptyAppName);
    }
    if config.app.repository.unicode_len() == 0 {
        return Err(ConfigError::EmptyRepository);
    }
    let b = config.deploy.build.as_str();
    if !(str_eq(b, "remote") || str_eq(b, "local")) {
        return Err(ConfigError::InvalidBuild(config.deploy.build.clone()));
    }
    let mut i: usize = 0;
    assert(config.stages@.subrange(0, config.stages@.len() as int) =~= config.stages@);
    while i < config.stages.len()
        invariant
            i <= config.stages@.len(),
            app_problem(*config) is None,
            stages_problem(config.stages@) == stages_problem(config.stages@.subrange(i as int, config.stages@.len() as int)),
        decreases config.stages@.len() - i,
    {
        let ghost rest = config.stages@.subrange(i as int, config.stages@.len() as int);
        assert(rest.drop_first() =~= config.stages@.subrange(i + 1, config.stages@.len() as int));
        let (name, s) = &config.stages[i];
        match check_stage(name, s) {
            Ok(()) => {},
            Err(e) => {
                return Err(e);
            },
        }
        i = i + 1;
    }
    assert(config.stages@.subrange(i as int, config.stages@.len() as int) =~= seq![]);
    let mut k: usize = 0;
    assert(config.accessories@.subrange(0, config.accessories@.len() as int) =~= config.accessories@);
    while k < config.accessories.len()
        invariant
            k <= config.accessories@.len(),
            app_problem(*config) is None,
            stages_problem(config.stages@) is None,
            accessories_problem(config.accessories@) == accessories_problem(config.accessories@.subrange(k as int, config.accessories@.len() as int)),
        decreases config.accessories@.len() - k,
    {
        let ghost rest = config.accessories@.subrange(k as int, config.accessories@.len() as int);
        assert(rest.drop_first() =~= config.accessories@.subrange(k + 1, config.accessories@.len() as int));
        let (name, a) = &config.accessories[k];
        match check_accessory(name, a) {
            Ok(()) => {},
            Err(e) => {
                return Err(e);
            },
        }
        k = k + 1;
    }
    assert(config.accessories@.subrange(k as int, config.accessories@.len() as int) =~= seq![]);
    assert(config.stages@.subrange(0, config.stages@.len() as int) =~= config.stages@);
    assert(config.accessories@.subrange(0, config.accessories@.len() as int) =~= config.accessories@);
    Ok(())
}

/// The index of the first stage named `name`, if any.
pub open spec fn stage_index(stages: Seq<(String, StageConfig)>, name: Seq<char>, i: int) -> bool {
    &&& 0 <= i < stages.len()
    &&& stages[i].0@ == name
    &&& forall|j: int| 0 <= j < i ==> (#[trigger] stages[j]).0@ != name
}

impl ShipitConfig {
    /// The stage named `name` (the first, should two share it).
    pub fn stage(&self, name: &str) -> (r: Result<&StageConfig, ConfigError>)
        ensures
            match r {
                Ok(s) => exists|i: int| stage_index(self.stages@, name@, i) && *s == self.stages@[i].1,
                Err(e) => e@ == ConfigProblem::StageNotFound(name@) && forall|i: int|
                    0 <= i < self.stages@.len() ==> (#[trigger] self.stages@[i]).0@ != name@,
            },
    {
        let mut i: usize = 0;
        while i < self.stages.len()
            invariant
                i <= self.stages@.len(),
                forall|j: int| 0 <= j < i ==> (#[trigger] self.stages@[j]).0@ != name@,
            decreases self.stages@.len() - i,
        {
            if str_eq(self.stages[i].0.as_str(), name) {
                assert(stage_index(self.stages@, name@, i as int));
                return Ok(&self.stages[i].1);
            }
            i = i + 1;
        }
        Err(ConfigError::StageNotFound(name.to_owned()))
    }

    /// Where the application lives on each host: `<deploy_to>/<app name>`.
    pub fn app_path(&self) -> (r: String)
        ensures
            r@ == self.deploy.deploy_to@ + "/"@ + self.app.name@,
    {
        let mut r = String::new();
        push_all(&mut r, self.deploy.deploy_to.as_str());
        push_all(&mut r, "/");
        push_all(&mut r, self.app.name.as_str());
        r
    }
}

} // verus!
