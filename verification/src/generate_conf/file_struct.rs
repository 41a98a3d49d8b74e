//! Shape of the configuration file and of the repository host's answer.

use crate::text::string_views;
use vstd::prelude::*;

verus! {

/// The latest commit as the repository host reports it.
#[derive(Debug, Clone, PartialEq, Eq)]
pub struct Commit {
    pub sha: String,
}

/// One deployable service.
#[derive(Debug, Clone, PartialEq, Eq)]
pub struct Service {
    /// Name of the directory the build output is deployed under.
    pub name: String,
    /// File name of the unit definition, also the unit's name for the init system.
    pub svc_filename: String,
    /// Directory that holds the deployed output of every build of this service.
    pub build_dir: String,
    /// Sub-directory of the workspace that holds the project, if it is not the root.
    pub custom_dir: Option<String>,
    /// Lines of the unit definition, in order.
    pub svc_file_contents: Vec<String>,
}

/// The whole configuration: loaded once, never changed.
#[derive(Debug, Clone, PartialEq, Eq)]
pub struct ConfigFile {
    pub repository: String,
    pub branch: String,
    pub token: String,
    /// Directory under which every workspace is cloned.
    pub pull_dir: String,
    /// Directory of the init system's unit definitions.
    pub sys_svc_dir: String,
    pub services: Vec<Service>,
}

/// The field values of the example service.
pub open spec fn is_example_service(s: Service) -> bool {
    &&& s.name@ == "service-name"@
    &&& s.svc_filename@ == "service-filename.service"@
    &&& s.build_dir@ == "/var/www/my_service"@
    &&& s.custom_dir is None
    &&& string_views(s.svc_file_contents@) == seq!["[Unit]"@, "Description=Your desc"@]
}

impl Default for Service {
    /// The example service written into a fresh configuration file.
    fn default() -> (s: Self)
        ensures
            is_example_service(s),
    {
        let mut lines: Vec<String> = Vec::new();
        lines.push("[Unit]".to_owned());
        lines.push("Description=Your desc".to_owned());
        assert(string_views(lines@) =~= seq!["[Unit]"@, "Description=Your desc"@]);
        Service {
            name: "service-name".to_owned(),
            svc_filename: "service-filename.service".to_owned(),
            build_dir: "/var/www/my_service".to_owned(),
            custom_dir: None,
            svc_file_contents: lines,
        }
    }
}

impl Default for ConfigFile {
    /// The example configuration: placeholders for repository and token, and
    /// the example service as the only service.
    fn default() -> (c: Self)
        ensures
            c.branch@ == "main"@,
            c.repository@ == "https://github.com/your-repository/link"@,
            c.token@ == "YOUR-GITHUB-TOKEN-HERE"@,
            c.pull_dir@ == "/var/www"@,
            c.sys_svc_dir@ == "/lib/systemd/system"@,
            c.services@.len() == 1,
            is_example_service(c.services@[0]),
    {
        let mut services: Vec<Service> = Vec::new();
        services.push(Service::default());
        ConfigFile {
            branch: "main".to_owned(),
            repository: "https://github.com/your-repository/link".to_owned(),
            token: "YOUR-GITHUB-TOKEN-HERE".to_owned(),
            pull_dir: "/var/www".to_owned(),
            sys_svc_dir: "/lib/systemd/system".to_owned(),
            services,
        }
    }
}

} // verus!
