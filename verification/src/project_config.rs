//! Project configuration (`.babel42.yaml` in the workspace root).

use vstd::prelude::*;

verus! {

/// Project configuration.
pub struct Babel42Config {
    /// Packages to skip in dependency checks (project-specific overrides).
    pub skip_packages: Vec<String>,
    /// Workspace discovery settings.
    pub workspace: WorkspaceConfig,
}

/// Workspace discovery configuration.
pub struct WorkspaceConfig {
    /// Maximum depth to search for package.xml (default 8).
    pub max_depth: u32,
}

/// The default search depth for package.xml files.
pub fn default_max_depth() -> (r: u32)
    ensures
        r == 8,
{
    8
}

impl Default for WorkspaceConfig {
    fn default() -> (r: Self)
        ensures
            r.max_depth == 8,
    {
        WorkspaceConfig { max_depth: default_max_depth() }
    }
}

impl Default for Babel42Config {
    fn default() -> (r: Self)
        ensures
            r.skip_packages@.len() == 0,
            r.workspace.max_depth == 8,
    {
        Babel42Config { skip_packages: Vec::new(), workspace: WorkspaceConfig::default() }
    }
}

impl Clone for WorkspaceConfig {
    fn clone(&self) -> (r: Self)
        ensures
            r.max_depth == self.max_depth,
    {
        WorkspaceConfig { max_depth: self.max_depth }
    }
}

impl Clone for Babel42Config {
    fn clone(&self) -> (r: Self)
        ensures
            r.skip_packages@ == self.skip_packages@,
            r.workspace.max_depth == self.workspace.max_depth,
    {
        Babel42Config { skip_packages: self.skip_packages.clone(), workspace: self.workspace.clone() }
    }
}

} // verus!
