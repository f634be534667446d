use shipit::config::{
    default_branch, default_build, default_deploy_to, default_health_interval, default_health_path,
    default_health_port, default_health_retries, default_health_timeout, default_keep_releases, validate,
    AccessoryConfig, AppConfig, ConfigError, DeployConfig, HealthCheckConfig, HostConfig, SecretsConfig,
    ShipitConfig, StageConfig, TraefikConfig,
};
use shipit::context::DeployContext;
use shipit::release::Release;

fn stage(hosts: &[&str]) -> StageConfig {
    StageConfig {
        user: None,
        port: None,
        os: None,
        hosts: hosts.iter().map(|h| HostConfig { address: h.to_string() }).collect(),
        env: Vec::new(),
        traefik: Some(TraefikConfig { domain: "example.com".to_string(), tls: false, acme_email: None }),
        proxy: None,
    }
}

fn config() -> ShipitConfig {
    ShipitConfig {
        app: AppConfig { name: "myapp".to_string(), repository: "git@x:y.git".to_string(), branch: default_branch() },
        deploy: DeployConfig {
            deploy_to: default_deploy_to(),
            keep_releases: default_keep_releases(),
            build: default_build(),
            health_check: HealthCheckConfig::default(),
            web_service: None,
        },
        secrets: SecretsConfig { recipients: Vec::new() },
        stages: vec![("production".to_string(), stage(&["1.2.3.4"]))],
        accessories: Vec::new(),
    }
}

#[test]
fn defaults() {
    assert_eq!(default_branch(), "main");
    assert_eq!(default_deploy_to(), "/var/deploy");
    assert_eq!(default_keep_releases(), 5);
    assert_eq!(default_build(), "remote");
    assert_eq!(default_health_path(), "/health");
    assert_eq!(default_health_port(), 8080);
    assert_eq!(default_health_timeout(), 60);
    assert_eq!(default_health_interval(), 2);
    assert_eq!(default_health_retries(), 15);
    let hc = HealthCheckConfig::default();
    assert_eq!((hc.port, hc.retries, hc.interval), (8080, 15, 2));
}

#[test]
fn valid_config_passes() {
    assert!(validate(&config()).is_ok());
}

#[test]
fn validation_errors() {
    let mut c = config();
    c.app.name = String::new();
    assert!(matches!(validate(&c), Err(ConfigError::EmptyAppName)));
    let mut c = config();
    c.app.repository = String::new();
    assert!(matches!(validate(&c), Err(ConfigError::EmptyRepository)));
    let mut c = config();
    c.deploy.build = "cloud".to_string();
    assert!(matches!(validate(&c), Err(ConfigError::InvalidBuild(b)) if b == "cloud"));
    let mut c = config();
    c.stages[0].1.os = Some("arch".to_string());
    assert!(matches!(validate(&c), Err(ConfigError::InvalidOs(s, o)) if s == "production" && o == "arch"));
    let mut c = config();
    c.stages[0].1.hosts.clear();
    assert!(matches!(validate(&c), Err(ConfigError::NoHosts(s)) if s == "production"));
    let mut c = config();
    c.stages[0].1.hosts.push(HostConfig { address: String::new() });
    assert!(matches!(validate(&c), Err(ConfigError::EmptyHostAddress(_))));
    let mut c = config();
    c.stages[0].1.traefik = Some(TraefikConfig { domain: String::new(), tls: false, acme_email: None });
    assert!(matches!(validate(&c), Err(ConfigError::EmptyTraefikDomain(_))));
    let mut c = config();
    c.stages[0].1.traefik = Some(TraefikConfig { domain: "d".to_string(), tls: true, acme_email: None });
    assert!(matches!(validate(&c), Err(ConfigError::TlsWithoutEmail(_))));
    let mut c = config();
    c.accessories.push((
        "db".to_string(),
        AccessoryConfig { image: String::new(), host: "h".to_string(), port: None, cmd: None, env: Vec::new(), volumes: Vec::new() },
    ));
    assert!(matches!(validate(&c), Err(ConfigError::AccessoryWithoutImage(n)) if n == "db"));
    c.accessories[0].1.image = "postgres".to_string();
    c.accessories[0].1.host = String::new();
    assert!(matches!(validate(&c), Err(ConfigError::AccessoryWithoutHost(_))));
}

#[test]
fn stage_lookup_and_app_path() {
    let c = config();
    assert_eq!(c.stage("production").unwrap().hosts[0].address, "1.2.3.4");
    assert!(matches!(c.stage("staging"), Err(ConfigError::StageNotFound(n)) if n == "staging"));
    assert_eq!(c.app_path(), "/var/deploy/myapp");
}

#[test]
fn context_paths() {
    let c = config();
    let st = stage(&["1.2.3.4"]);
    let ctx = DeployContext::with_release(
        c,
        "production".to_string(),
        st,
        Release { name: "20250310-093000".to_string() },
        "/home/me/app".to_string(),
    );
    assert_eq!(ctx.remote_app_path(), "/var/deploy/myapp");
    assert_eq!(ctx.remote_release_path(), "/var/deploy/myapp/releases/20250310-093000");
    assert_eq!(ctx.remote_current_path(), "/var/deploy/myapp/current");
    assert_eq!(ctx.remote_shared_path(), "/var/deploy/myapp/shared");
    assert_eq!(ctx.remote_repo_path(), "/var/deploy/myapp/repo");
    assert_eq!(ctx.user(), "deploy");
    assert_eq!(ctx.web_service(), "web");
    assert!(!ctx.is_local_build());
    assert_eq!(ctx.image_name_for("worker"), "myapp-worker:20250310-093000");
}
