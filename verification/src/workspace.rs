//! ROS2 workspace layout: which package.xml files make up a workspace.
//!
//! Three layouts are supported: a `src/` directory of packages, package
//! directories directly under the root, and a root that is itself a package
//! (with, possibly, packages below it). Walking the directory tree is the
//! caller's; the walk hands over the package.xml files it met.

use vstd::prelude::*;
use crate::project_config::WorkspaceConfig;
use crate::text::{chars_eq, chars_of, str_views};

verus! {

/// A discovered ROS2 workspace.
pub struct Workspace {
    /// Root path of the workspace.
    pub root: String,
    /// Paths to package.xml files (one per package).
    pub packages: Vec<String>,
}

/// Whether a file of this name makes the walk skip its directory:
/// `COLCON_IGNORE` or `AMENT_IGNORE`.
pub fn is_ignore_marker(name: &str) -> (r: bool)
    ensures
        r == (name@ == "COLCON_IGNORE"@ || name@ == "AMENT_IGNORE"@),
{
    let v = chars_of(name);
    crate::text::chars_eq_str(v.as_slice(), "COLCON_IGNORE") || crate::text::chars_eq_str(
        v.as_slice(),
        "AMENT_IGNORE",
    )
}

/// How deep the walk looks for package.xml files: the configuration's depth,
/// 8 without a configuration.
pub fn max_depth_of(config: Option<&WorkspaceConfig>) -> (r: usize)
    ensures
        r == match config {
            Some(c) => c.max_depth as int,
            None => 8,
        },
{
    match config {
        Some(c) => c.max_depth as usize,
        None => 8,
    }
}

/// The found paths other than `root_manifest`, in order.
pub open spec fn other_manifests(found: Seq<Seq<char>>, root_manifest: Seq<char>) -> Seq<Seq<char>>
    decreases found.len(),
{
    if found.len() == 0 {
        Seq::empty()
    } else {
        let rest = other_manifests(found.drop_last(), root_manifest);
        if found.last() == root_manifest {
            rest
        } else {
            rest.push(found.last())
        }
    }
}

/// The package.xml files of a workspace: the root's own first, where the root
/// is a package (its package.xml exists and the root is not ignored), then the
/// others the walk met, in walk order.
pub open spec fn workspace_manifests(
    root_manifest: Seq<char>,
    root_is_package: bool,
    found: Seq<Seq<char>>,
) -> Seq<Seq<char>> {
    (if root_is_package {
        seq![root_manifest]
    } else {
        Seq::empty()
    }) + other_manifests(found, root_manifest)
}

/// The workspace rooted at `root`: none where no package.xml was found.
/// `root_manifest` is the root's package.xml path, `root_is_package` whether
/// it exists with the root not ignored, and `found` the package.xml files that
/// the walk met outside ignored directories, in walk order.
pub fn workspace_from(root: &str, root_manifest: &str, root_is_package: bool, found: &Vec<String>) -> (r:
    Option<Workspace>)
    ensures
        match r {
            Some(w) => w.root@ == root@ && str_views(w.packages@) == workspace_manifests(
                root_manifest@,
                root_is_package,
                str_views(found@),
            ) && w.packages@.len() > 0,
            None => workspace_manifests(root_manifest@, root_is_package, str_views(found@)).len()
                == 0,
        },
{
    let ghost fv = str_views(found@);
    let mut packages: Vec<String> = Vec::new();
    let rm = chars_of(root_manifest);
    if root_is_package {
        packages.push(root_manifest.to_string());
    }
    let ghost head = str_views(packages@);
    assert(head =~= (if root_is_package {
        seq![root_manifest@]
    } else {
        Seq::empty()
    }));
    let mut i: usize = 0;
    assert(fv.take(0) =~= Seq::<Seq<char>>::empty());
    assert(str_views(packages@) =~= head + other_manifests(fv.take(0), root_manifest@));
    while i < found.len()
        invariant
            i <= found@.len(),
            fv == str_views(found@),
            rm@ == root_manifest@,
            str_views(packages@) == head + other_manifests(fv.take(i as int), root_manifest@),
        decreases found.len() - i,
    {
        assert(fv.take(i + 1).drop_last() =~= fv.take(i as int));
        assert(fv.take(i + 1).last() == found@[i as int]@);
        let ghost before = str_views(packages@);
        let p = chars_of(found[i].as_str());
        if !chars_eq(p.as_slice(), rm.as_slice()) {
            packages.push(found[i].clone());
            assert(str_views(packages@) =~= before.push(found@[i as int]@));
        }
        i += 1;
    }
    assert(fv.take(i as int) =~= fv);
    if packages.len() == 0 {
        None
    } else {
        Some(Workspace { root: root.to_string(), packages })
    }
}

} // verus!
