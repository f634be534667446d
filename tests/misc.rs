use shipit::accessory::{build_run_command, container_name, find_ssh_target, wireguard_host_index};
use shipit::commands::{
    checkout_command, health_status_command, quote_single, remove_release_containers_command, sudo_command,
    symlink_swap_command, write_file_command,
};
use shipit::compose::{built_services, image_services, web_image};
use shipit::config::{
    AccessoryConfig, AppConfig, DeployConfig, HealthCheckConfig, HostConfig, SecretsConfig, ShipitConfig, StageConfig,
};
use shipit::context::DeployContext;
use shipit::local::{local_stage_config, vm_name, LocalState};
use shipit::os::HostOs;
use shipit::release::{release_name_for, LocalTime, Release};
use shipit::secrets::{content_hash, key_path, mask_value, parse_dotenv, secrets_dir, secrets_path, serialize_dotenv, set_from_pair, SecretsError};
use shipit::wireguard::{build_wg_config, wg_ip};

fn time(year: i32) -> LocalTime {
    LocalTime { year, month: 3, day: 7, hour: 9, minute: 5, second: 0, rfc3339: String::new() }
}

#[test]
fn release_name_format() {
    assert_eq!(release_name_for(&time(2025)), "20250307-090500");
    assert_eq!(release_name_for(&time(987)), "09870307-090500");
    assert_eq!(release_name_for(&time(12345)), "+123450307-090500");
    assert_eq!(release_name_for(&time(-44)), "-00440307-090500");
    assert_eq!(Release::at(&time(2025)).name, "20250307-090500");
    let live = Release::new();
    assert_eq!(live.name.len(), 15);
    assert_eq!(&live.name[8..9], "-");
}

#[test]
fn host_os() {
    assert_eq!(HostOs::from_config("ubuntu").ok(), Some(HostOs::Ubuntu));
    assert_eq!(HostOs::from_config("debian").ok(), Some(HostOs::Ubuntu));
    assert_eq!(HostOs::from_config("nixos").ok(), Some(HostOs::NixOs));
    let e = HostOs::from_config("arch").err().unwrap();
    assert_eq!(e.message(), "Unsupported OS: 'arch'. Supported: ubuntu, debian, nixos");
    let text = "NAME=\"NixOS\"\nID=nixos\nVERSION_ID=\"24.05\"\n";
    assert_eq!(HostOs::from_os_release(text).ok(), Some(HostOs::NixOs));
    assert_eq!(HostOs::from_os_release("ID=\"debian\"\n").ok(), Some(HostOs::Ubuntu));
    assert_eq!(HostOs::from_os_release("NAME=x\n").ok(), Some(HostOs::Ubuntu));
    assert!(HostOs::from_os_release("ID=fedora\n").is_err());
    assert_eq!(HostOs::Ubuntu.add_docker_group_cmd("deploy"), "usermod -aG docker deploy");
    assert!(HostOs::NixOs.add_docker_group_cmd("bob").contains("users.users.bob/,/};/"));
    assert_eq!(HostOs::NixOs.install_wireguard_cmd(), "nix-env -iA nixos.wireguard-tools");
    assert_eq!(HostOs::Ubuntu.install_docker_cmd(), "curl -fsSL https://get.docker.com | sh");
}

#[test]
fn secrets_paths_and_hash() {
    assert_eq!(secrets_dir("/p"), "/p/.shipit/secrets");
    assert_eq!(secrets_path("/p", "production"), "/p/.shipit/secrets/production.age");
    assert_eq!(key_path("/home/u/.config", "app"), "/home/u/.config/shipit/keys/app.key");
    assert_eq!(
        content_hash(&b"abc".to_vec()),
        "ba7816bf8f01cfea414140de5dae2223b00361a396177a9cb410ff61f20015ad"
    );
    assert_eq!(content_hash(&Vec::new()), "e3b0c44298fc1c149afbf4c8996fb92427ae41e4649b934ca495991b7852b855");
}

#[test]
fn dotenv_parsing_and_editing() {
    let s = parse_dotenv("# comment\nB = 2\n\nA=1\nnoequals\nB=3=4\n  C  =  x y  \r\n");
    let pairs: Vec<(&str, &str)> = s.entries.iter().map(|(k, v)| (k.as_str(), v.as_str())).collect();
    assert_eq!(pairs, vec![("A", "1"), ("B", "3=4"), ("C", "x y")]);
    assert_eq!(serialize_dotenv(&s), "A=1\nB=3=4\nC=x y");
    let mut s = s;
    assert_eq!(set_from_pair(&mut s, " D = 5 ").unwrap(), "D");
    assert_eq!(set_from_pair(&mut s, "nothing"), Err(SecretsError::ExpectedKeyValue));
    assert!(s.remove("A"));
    assert!(!s.remove("A"));
    assert_eq!(serialize_dotenv(&s), "B=3=4\nC=x y\nD=5");
    assert_eq!(mask_value("abc"), "****");
    assert_eq!(mask_value("abcd"), "****");
    assert_eq!(mask_value("abcdef"), "abcd****");
}

#[test]
fn remote_commands() {
    assert_eq!(symlink_swap_command("/a/releases/r", "/a/current"), "ln -sfn /a/releases/r /a/current_tmp && mv -Tf /a/current_tmp /a/current");
    assert_eq!(checkout_command("/r", "/repo", "main"), "git --work-tree=/r --git-dir=/repo checkout -f main");
    assert_eq!(health_status_command("abc"), "docker inspect --format='{{.State.Health.Status}}' abc");
    assert_eq!(remove_release_containers_command("/r", true), "cd /r && docker compose down --rmi all 2>/dev/null || true");
    assert_eq!(remove_release_containers_command("/r", false), "cd /r && docker compose down --rmi local 2>/dev/null || true");
    assert_eq!(quote_single("it's"), "it'\\''s");
    assert_eq!(sudo_command("echo 'x'"), "sudo bash -c 'echo '\\''x'\\'''");
    assert_eq!(write_file_command("/f", "a'b").unwrap(), "cat > /f << 'SHIPIT_EOF'\na'b\nSHIPIT_EOF");
    assert_eq!(write_file_command("/f", "it's a 'secret'\nx").unwrap(), "cat > /f << 'SHIPIT_EOF'\nit's a 'secret'\nx\nSHIPIT_EOF");
    assert!(write_file_command("/f", "a\nSHIPIT_EOF\nb").is_none());
    assert!(write_file_command("/f", "SHIPIT_EOF").is_none());
    assert!(write_file_command("/f", "SHIPIT_EOF2\nxSHIPIT_EOF").is_some());
    assert_eq!(
        shipit::commands::sudo_write_file_command("/etc/x", "a'b").unwrap(),
        "sudo tee /etc/x > /dev/null << 'SHIPIT_EOF'\na'b\nSHIPIT_EOF"
    );
    assert!(shipit::commands::sudo_write_file_command("/etc/x", "SHIPIT_EOF\n").is_none());
}

#[test]
fn wireguard_config() {
    assert_eq!(wg_ip(0), "10.10.0.1");
    assert_eq!(wg_ip(9), "10.10.0.10");
    let hosts = vec![HostConfig { address: "1.1.1.1".to_string() }, HostConfig { address: "2.2.2.2".to_string() }];
    let keys = vec!["K0".to_string(), "K1".to_string()];
    let conf = build_wg_config(0, "PRIV", &hosts, &keys);
    assert_eq!(
        conf,
        "[Interface]\nPrivateKey = PRIV\nAddress = 10.10.0.1/24\nListenPort = 51820\n\n[Peer]\nPublicKey = K1\nAllowedIPs = 10.10.0.2/32\nEndpoint = 2.2.2.2:51820\nPersistentKeepalive = 25\n"
    );
}

fn accessory() -> AccessoryConfig {
    AccessoryConfig {
        image: "postgres:16".to_string(),
        host: "2.2.2.2".to_string(),
        port: Some("5432:5432".to_string()),
        cmd: Some("-c max_connections=50".to_string()),
        env: vec![("POSTGRES_PASSWORD".to_string(), "pw".to_string())],
        volumes: vec!["pg:/var/lib/postgresql/data".to_string()],
    }
}

fn config() -> ShipitConfig {
    ShipitConfig {
        app: AppConfig { name: "app".to_string(), repository: "r".to_string(), branch: "main".to_string() },
        deploy: DeployConfig {
            deploy_to: "/var/deploy".to_string(),
            keep_releases: 5,
            build: "local".to_string(),
            health_check: HealthCheckConfig::default(),
            web_service: Some("api".to_string()),
        },
        secrets: SecretsConfig { recipients: Vec::new() },
        stages: vec![(
            "production".to_string(),
            StageConfig {
                user: Some("admin".to_string()),
                port: Some(2222),
                os: None,
                hosts: vec![HostConfig { address: "1.1.1.1".to_string() }, HostConfig { address: "2.2.2.2".to_string() }],
                env: Vec::new(),
                traefik: None,
                proxy: None,
            },
        )],
        accessories: vec![("db".to_string(), accessory())],
    }
}

#[test]
fn accessories() {
    assert_eq!(container_name("app", "db"), "app-db");
    assert_eq!(
        build_run_command("app-db", &accessory()),
        "docker run -d --name app-db --restart always -p 5432:5432 -e POSTGRES_PASSWORD=pw -v pg:/var/lib/postgresql/data --network traefik postgres:16 -c max_connections=50"
    );
    let t = find_ssh_target(&config(), "2.2.2.2").unwrap();
    assert_eq!((t.user.as_str(), t.address.as_str(), t.port), ("admin", "2.2.2.2", Some(2222)));
    assert!(find_ssh_target(&config(), "9.9.9.9").is_none());
    assert_eq!(wireguard_host_index("10.10.0.1"), Some(0));
    assert_eq!(wireguard_host_index("10.10.0.3"), Some(2));
    assert_eq!(wireguard_host_index("10.10.0.0"), Some(0));
    assert_eq!(wireguard_host_index("10.10.0.+2"), Some(1));
    assert_eq!(wireguard_host_index("10.10.0.x"), None);
    assert_eq!(wireguard_host_index("10.10.0."), None);
    assert_eq!(wireguard_host_index("10.10.1.1"), None);
    assert_eq!(wireguard_host_index("10.10.0.99999999999999999999999"), None);
}

#[test]
fn local_machine() {
    assert_eq!(vm_name("app"), "shipit-app");
    let st = local_stage_config(&LocalState { vm_name: "shipit-app".to_string(), ip: "10.0.0.5".to_string(), app_name: "app".to_string() });
    assert_eq!(st.user.as_deref(), Some("ubuntu"));
    assert_eq!(st.hosts[0].address, "10.0.0.5");
    assert_eq!(st.traefik.unwrap().domain, "app.local");
}

#[test]
fn locally_built_images() {
    let c = config();
    let st = c.stages[0].1.hosts.len();
    assert_eq!(st, 2);
    let ctx = DeployContext::with_release(
        config(),
        "production".to_string(),
        StageConfig { user: None, port: None, os: None, hosts: Vec::new(), env: Vec::new(), traefik: None, proxy: None },
        Release { name: "R".to_string() },
        "/p".to_string(),
    );
    assert!(ctx.is_local_build());
    assert_eq!(ctx.web_service(), "api");
    let built = built_services(&ctx, &vec!["api".to_string(), "worker".to_string()]);
    assert_eq!(built, vec![("api".to_string(), "app-api:R".to_string()), ("worker".to_string(), "app-worker:R".to_string())]);
    assert_eq!(web_image(&built, "api"), Some("app-api:R".to_string()));
    assert_eq!(web_image(&built, "web"), None);
    let others = image_services(&built, "api");
    assert_eq!(others.len(), 1);
    assert_eq!((others[0].name.as_str(), others[0].image.as_str()), ("worker", "app-worker:R"));
}
