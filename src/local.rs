//! A local virtual machine used as a deploy target for testing.

use vstd::prelude::*;
use crate::config::{HostConfig, StageConfig, TraefikConfig};
use crate::text::push_all;

verus! {

/// What is recorded about the local machine.
pub struct LocalState {
    pub vm_name: String,
    pub ip: String,
    pub app_name: String,
}

/// The name of an application's local machine: `shipit-<app>`.
pub fn vm_name(app_name: &str) -> (r: String)
    ensures
        r@ == "shipit-"@ + app_name@,
{
    let mut r = String::new();
    push_all(&mut r, "shipit-");
    push_all(&mut r, app_name);
    r
}

/// The stage that targets the local machine: user `ubuntu`, its address as
/// the only host, and traefik on `<app>.local` without TLS.
pub fn local_stage_config(state: &LocalState) -> (r: StageConfig)
    ensures
        r.user matches Some(u) && u@ == "ubuntu"@,
        r.port is None,
        r.os is None,
        r.proxy is None,
        r.hosts@.len() == 1 && r.hosts@[0].address@ == state.ip@,
        r.env@.len() == 0,
        r.traefik matches Some(t) && t.domain@ == state.app_name@ + ".local"@ && !t.tls
            && t.acme_email is None,
{
    let mut domain = String::new();
    push_all(&mut domain, state.app_name.as_str());
    push_all(&mut domain, ".local");
    StageConfig {
        user: Some(String::from_str("ubuntu")),
        port: None,
        os: None,
        hosts: vec![HostConfig { address: state.ip.clone() }],
        env: Vec::new(),
        traefik: Some(TraefikConfig { domain, tls: false, acme_email: None }),
        proxy: None,
    }
}

} // verus!
