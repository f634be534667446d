//! The deploy context: configuration, target stage and release of one
//! invocation, and the remote paths derived from them.

use vstd::prelude::*;
use crate::config::{ShipitConfig, StageConfig};
use crate::release::Release;
use crate::text::{push_all, str_eq};

verus! {

pub struct DeployContext {
    pub config: ShipitConfig,
    pub stage_name: String,
    pub stage: StageConfig,
    pub release: Release,
    /// The local project directory.
    pub project_root: String,
}

pub open spec fn app_path_of(c: ShipitConfig) -> Seq<char> {
    c.deploy.deploy_to@ + "/"@ + c.app.name@
}

impl DeployContext {
    /// A context for a new release named after the local time now.
    pub fn new(config: ShipitConfig, stage_name: String, stage: StageConfig, project_root: String) -> (r: Self)
        ensures
            r.config == config,
            r.stage_name == stage_name,
            r.stage == stage,
            r.project_root == project_root,
            exists|t: crate::release::LocalTime| t.wf() && r.release.name@ == crate::release::release_name_spec(t),
    {
        DeployContext { config, stage_name, stage, release: Release::new(), project_root }
    }

    /// A context for the given release.
    pub fn with_release(
        config: ShipitConfig,
        stage_name: String,
        stage: StageConfig,
        release: Release,
        project_root: String,
    ) -> (r: Self)
        ensures
            r.config == config,
            r.stage_name == stage_name,
            r.stage == stage,
            r.release == release,
            r.project_root == project_root,
    {
        DeployContext { config, stage_name, stage, release, project_root }
    }

    /// `<deploy_to>/<app>`.
    pub fn remote_app_path(&self) -> (r: String)
        ensures
            r@ == app_path_of(self.config),
    {
        self.config.app_path()
    }

    /// `<app_path>/releases/<release>`.
    pub fn remote_release_path(&self) -> (r: String)
        ensures
            r@ == app_path_of(self.config) + "/releases/"@ + self.release.name@,
    {
        let mut r = self.remote_app_path();
        push_all(&mut r, "/releases/");
        push_all(&mut r, self.release.name.as_str());
        r
    }

    /// `<app_path>/current`, the link to the live release.
    pub fn remote_current_path(&self) -> (r: String)
        ensures
            r@ == app_path_of(self.config) + "/current"@,
    {
        let mut r = self.remote_app_path();
        push_all(&mut r, "/current");
        r
    }

    /// `<app_path>/shared`, state kept across releases.
    pub fn remote_shared_path(&self) -> (r: String)
        ensures
            r@ == app_path_of(self.config) + "/shared"@,
    {
        let mut r = self.remote_app_path();
        push_all(&mut r, "/shared");
        r
    }

    /// `<app_path>/repo`, the bare repository that code is pushed to.
    pub fn remote_repo_path(&self) -> (r: String)
        ensures
            r@ == app_path_of(self.config) + "/repo"@,
    {
        let mut r = self.remote_app_path();
        push_all(&mut r, "/repo");
        r
    }

    /// The remote user: the stage's, else `deploy`.
    pub fn user(&self) -> (r: &str)
        ensures
            r@ == match self.stage.user {
                Some(u) => u@,
                None => "deploy"@,
            },
    {
        match &self.stage.user {
            Some(u) => u.as_str(),
            None => "deploy",
        }
    }

    /// The primary service: the configured one, else `web`.
    pub fn web_service(&self) -> (r: &str)
        ensures
            r@ == match self.config.deploy.web_service {
                Some(w) => w@,
                None => "web"@,
            },
    {
        match &self.config.deploy.web_service {
            Some(w) => w.as_str(),
            None => "web",
        }
    }

    /// Whether images are built on the operator's machine.
    pub fn is_local_build(&self) -> (r: bool)
        ensures
            r == (self.config.deploy.build@ == "local"@),
    {
        str_eq(self.config.deploy.build.as_str(), "local")
    }

    /// The image tag of a service for this release: `<app>-<service>:<release>`.
    pub fn image_name_for(&self, service: &str) -> (r: String)
        ensures
            r@ == self.config.app.name@ + "-"@ + service@ + ":"@ + self.release.name@,
    {
        let mut r = String::new();
        push_all(&mut r, self.config.app.name.as_str());
        push_all(&mut r, "-");
        push_all(&mut r, service);
        push_all(&mut r, ":");
        push_all(&mut r, self.release.name.as_str());
        r
    }
}

} // verus!
