//! Where the Blueprint of a job is reachable from inside a worker
//! container: under the workspace mount, or under a separate plan mount.
use vstd::prelude::*;
use vstd::string::*;
use crate::path::{parent, path_parent, path_strip_prefix, strip_prefix};

verus! {

/// Container-side mount point for a Blueprint directory that is mounted
/// separately from the workspace (Repo-outside-Plan mode).
pub const PLAN_DIR_MOUNT: &'static str = "/home/agent/plans";

/// Container-side mount point for the workspace.
pub const WORKSPACE_MOUNT: &'static str = "/home/agent/workspace";

/// Where and how the Blueprint is reachable from inside a worker container.
///
/// - `InsideWorkspace`: the Blueprint directory lives under the workspace
///   root, so the Plan is read through the workspace mount.
/// - `OutsideWorkspace`: the Blueprint lives outside any workspace and its
///   directory is mounted read-only at [`PLAN_DIR_MOUNT`].
#[derive(Debug, Clone, PartialEq, Eq)]
pub enum PlanLocation {
    InsideWorkspace {
        /// Absolute host path of the Blueprint directory.
        blueprint_host_dir: String,
        /// Blueprint directory relative to the workspace root (empty when
        /// the Blueprint sits directly at the workspace root).
        blueprint_rel_to_workspace: String,
    },
    OutsideWorkspace {
        /// Absolute host path of the Blueprint directory.
        blueprint_host_dir: String,
    },
}

/// Container-side path of a plan given its path relative to the Blueprint
/// directory.
pub open spec fn container_plan_path_of(loc: PlanLocation, plan_relative: Seq<char>) -> Seq<char> {
    match loc {
        PlanLocation::InsideWorkspace { blueprint_rel_to_workspace, .. } => {
            if blueprint_rel_to_workspace@.len() == 0 {
                WORKSPACE_MOUNT@ + seq!['/'] + plan_relative
            } else {
                WORKSPACE_MOUNT@ + seq!['/'] + blueprint_rel_to_workspace@ + seq!['/'] + plan_relative
            }
        },
        PlanLocation::OutsideWorkspace { .. } => PLAN_DIR_MOUNT@ + seq!['/'] + plan_relative,
    }
}

/// The directory holding the Blueprint file: its parent, or `.` when it
/// has none.
pub open spec fn blueprint_dir_of(blueprint_path: Seq<char>) -> Seq<char> {
    match path_parent(blueprint_path) {
        Some(p) => p,
        None => seq!['.'],
    }
}

impl PlanLocation {
    /// Container-side absolute path to a plan, given its path relative to
    /// the Blueprint directory.
    pub fn container_plan_path(&self, plan_relative: &str) -> (r: String)
        ensures
            r@ == container_plan_path_of(*self, plan_relative@),
    {
        proof {
            reveal_strlit("/home/agent/workspace");
            reveal_strlit("/home/agent/plans");
            reveal_strlit("/");
        }
        match self {
            PlanLocation::InsideWorkspace { blueprint_rel_to_workspace, .. } => {
                if blueprint_rel_to_workspace.as_str().unicode_len() == 0 {
                    String::from_str(WORKSPACE_MOUNT).concat("/").concat(plan_relative)
                } else {
                    String::from_str(WORKSPACE_MOUNT).concat("/").concat(
                        blueprint_rel_to_workspace.as_str(),
                    ).concat("/").concat(plan_relative)
                }
            },
            PlanLocation::OutsideWorkspace { .. } => {
                String::from_str(PLAN_DIR_MOUNT).concat("/").concat(plan_relative)
            },
        }
    }

    /// Host-side Blueprint directory that must be bind-mounted into the
    /// container: `None` for `InsideWorkspace`, where the workspace mount
    /// already carries the Blueprint.
    pub fn plan_dir_host_path(&self) -> (r: Option<&str>)
        ensures
            match *self {
                PlanLocation::InsideWorkspace { .. } => r is None,
                PlanLocation::OutsideWorkspace { blueprint_host_dir } => r matches Some(p) && p@
                    == blueprint_host_dir@,
            },
    {
        match self {
            PlanLocation::InsideWorkspace { .. } => None,
            PlanLocation::OutsideWorkspace { blueprint_host_dir } => Some(blueprint_host_dir.as_str()),
        }
    }
}

/// The directory holding the Blueprint file (see [`blueprint_dir_of`]).
pub fn blueprint_dir(blueprint_path: &str) -> (r: String)
    ensures
        r@ == blueprint_dir_of(blueprint_path@),
{
    match parent(blueprint_path) {
        Some(p) => p,
        None => {
            proof {
                reveal_strlit(".");
            }
            let r = String::from_str(".");
            assert(r@ =~= seq!['.']);
            r
        },
    }
}

/// Decide the [`PlanLocation`] from the canonical Blueprint directory and,
/// when a workspace is given, its canonical root: the Blueprint is inside
/// the workspace exactly when the workspace root is a prefix of its
/// directory.
pub fn resolve_canonical(abs_blueprint_dir: &str, abs_workspace: Option<&str>) -> (r: PlanLocation)
    ensures
        match abs_workspace {
            Some(ws) => match path_strip_prefix(abs_blueprint_dir@, ws@) {
                Some(rel) => r matches PlanLocation::InsideWorkspace {
                    blueprint_host_dir,
                    blueprint_rel_to_workspace,
                } && blueprint_host_dir@ == abs_blueprint_dir@ && blueprint_rel_to_workspace@ == rel,
                None => r matches PlanLocation::OutsideWorkspace { blueprint_host_dir }
                    && blueprint_host_dir@ == abs_blueprint_dir@,
            },
            None => r matches PlanLocation::OutsideWorkspace { blueprint_host_dir }
                && blueprint_host_dir@ == abs_blueprint_dir@,
        },
{
    if let Some(ws) = abs_workspace {
        if let Some(rel) = strip_prefix(abs_blueprint_dir, ws) {
            return PlanLocation::InsideWorkspace {
                blueprint_host_dir: String::from_str(abs_blueprint_dir),
                blueprint_rel_to_workspace: rel,
            };
        }
    }
    PlanLocation::OutsideWorkspace { blueprint_host_dir: String::from_str(abs_blueprint_dir) }
}

} // verus!
