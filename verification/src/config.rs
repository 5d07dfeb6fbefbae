//! Global and per-project configuration values, and where the project file is looked up.
use vstd::prelude::*;

use crate::text;

verus! {

/// User-wide settings.
#[derive(Debug, Clone)]
pub struct GlobalConfig {
    pub preferred_device_serial: Option<String>,
    pub default_log_level: Option<String>,
}

/// Per-project settings.
#[derive(Debug, Clone)]
pub struct ProjectConfig {
    pub package: Option<String>,
    /// Override inferred application IDs (multiple packages / flavors).
    pub packages: Option<Vec<String>>,
    pub variant: Option<String>,
    pub gradle_tasks: Vec<String>,
    pub log_filters: Vec<String>,
    /// Substrings: a line is dropped if it matches any (same as the runtime exclude filter).
    pub exclude_filters: Vec<String>,
    pub log_level: Option<String>,
    pub assemble_task: Option<String>,
    pub install_task: Option<String>,
    pub scrcpy_args: Vec<String>,
}

/// Global and project settings together.
#[derive(Debug, Clone)]
pub struct MergedConfig {
    pub global: GlobalConfig,
    pub project: ProjectConfig,
    pub project_root: String,
}

impl GlobalConfig {
    /// No preferences set.
    pub fn empty() -> (r: GlobalConfig)
        ensures
            r.preferred_device_serial is None,
            r.default_log_level is None,
    {
        GlobalConfig { preferred_device_serial: None, default_log_level: None }
    }
}

impl ProjectConfig {
    /// No project settings.
    pub fn empty() -> (r: ProjectConfig)
        ensures
            r.package is None,
            r.packages is None,
            r.variant is None,
            r.gradle_tasks@.len() == 0,
            r.log_filters@.len() == 0,
            r.exclude_filters@.len() == 0,
            r.log_level is None,
            r.assemble_task is None,
            r.install_task is None,
            r.scrcpy_args@.len() == 0,
    {
        ProjectConfig {
            package: None,
            packages: None,
            variant: None,
            gradle_tasks: Vec::new(),
            log_filters: Vec::new(),
            exclude_filters: Vec::new(),
            log_level: None,
            assemble_task: None,
            install_task: None,
            scrcpy_args: Vec::new(),
        }
    }
}

/// `Path::join` of a relative file name onto a directory given as text.
pub open spec fn spec_join_path(root: Seq<char>, name: Seq<char>) -> Seq<char> {
    if root.len() == 0 {
        name
    } else if root.last() == '/' {
        root + name
    } else {
        root + "/"@ + name
    }
}

/// A file name joined onto a directory.
pub fn join_path(root: &str, name: &str) -> (r: String)
    ensures
        r@ == spec_join_path(root@, name@),
{
    let rc = text::to_chars(root);
    let nc = text::to_chars(name);
    if rc.len() == 0 {
        text::to_string(&nc)
    } else if rc[rc.len() - 1] == '/' {
        text::to_string(&text::concat(&rc, &nc))
    } else {
        let a = text::concat(&rc, &text::to_chars("/"));
        text::to_string(&text::concat(&a, &nc))
    }
}

/// The project file name that `init` writes; it is preferred over the other two.
pub const PROJECT_CONFIG_FILE: &'static str = ".byedroid.toml";

/// The per-project override file.
pub const LOOPCAT_CONFIG_FILE: &'static str = ".loopcat.toml";

/// The legacy project file name.
pub const LEGACY_PROJECT_CONFIG_FILE: &'static str = ".droid-loop.toml";

/// The project config file to read, given which candidates exist in the project root:
/// `.byedroid.toml` first, then the per-project override file `.loopcat.toml`, then the
/// legacy `.droid-loop.toml`; none when none of them exists.
pub fn project_config_path(
    project_root: &str,
    primary_exists: bool,
    loopcat_exists: bool,
    legacy_exists: bool,
) -> (r: Option<String>)
    ensures
        primary_exists ==> (r matches Some(p) && p@ == spec_join_path(
            project_root@,
            PROJECT_CONFIG_FILE@,
        )),
        !primary_exists && loopcat_exists ==> (r matches Some(p) && p@ == spec_join_path(
            project_root@,
            LOOPCAT_CONFIG_FILE@,
        )),
        !primary_exists && !loopcat_exists && legacy_exists ==> (r matches Some(p) && p@
            == spec_join_path(project_root@, LEGACY_PROJECT_CONFIG_FILE@)),
        !primary_exists && !loopcat_exists && !legacy_exists ==> r is None,
{
    if primary_exists {
        Some(join_path(project_root, PROJECT_CONFIG_FILE))
    } else if loopcat_exists {
        Some(join_path(project_root, LOOPCAT_CONFIG_FILE))
    } else if legacy_exists {
        Some(join_path(project_root, LEGACY_PROJECT_CONFIG_FILE))
    } else {
        None
    }
}

} // verus!

verus! {

/// The level list written by `init`.
pub const INIT_LOG_LEVELS: &'static str = "D,I,W,E,V";

/// A copy of an optional string.
fn clone_opt(o: &Option<String>) -> (r: Option<String>)
    ensures
        text::opt_view(r) == text::opt_view(*o),
{
    match o {
        Some(s) => Some(s.clone()),
        None => None,
    }
}

/// The project settings that `init` writes from the Gradle inference: its packages (when
/// it found any), tasks and variant, and a default level list; nothing else set.
pub fn init_config(inference: &crate::project::ProjectInference) -> (r: ProjectConfig)
    ensures
        r.packages is Some <==> inference.application_ids@.len() > 0,
        r.packages matches Some(p) ==> text::strs(p@) == inference@.application_ids,
        text::opt_view(r.assemble_task) == inference@.assemble_task,
        text::opt_view(r.install_task) == inference@.install_task,
        text::opt_view(r.variant) == Some(inference.variant_summary@),
        text::opt_view(r.log_level) == Some(INIT_LOG_LEVELS@),
        r.package is None,
        r.gradle_tasks@.len() == 0,
        r.log_filters@.len() == 0,
        r.exclude_filters@.len() == 0,
        r.scrcpy_args@.len() == 0,
{
    let mut cfg = ProjectConfig::empty();
    if inference.application_ids.len() > 0 {
        cfg.packages = Some(crate::app::state::clone_vec(&inference.application_ids));
    }
    cfg.assemble_task = clone_opt(&inference.assemble_task);
    cfg.install_task = clone_opt(&inference.install_task);
    cfg.variant = Some(inference.variant_summary.clone());
    cfg.log_level = Some(INIT_LOG_LEVELS.to_owned());
    cfg
}

} // verus!
