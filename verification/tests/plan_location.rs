use palette_orchestrator::plan_location::{blueprint_dir, resolve_canonical, PlanLocation};

#[test]
fn outside_workspace_uses_plan_dir_mount() {
    let loc = PlanLocation::OutsideWorkspace {
        blueprint_host_dir: "/tmp/bp".to_string(),
    };
    assert_eq!(
        loc.container_plan_path("api/README.md"),
        "/home/agent/plans/api/README.md",
    );
}

#[test]
fn inside_workspace_uses_workspace_mount() {
    let loc = PlanLocation::InsideWorkspace {
        blueprint_host_dir: "/tmp/ws/docs/plans/001".to_string(),
        blueprint_rel_to_workspace: "docs/plans/001".to_string(),
    };
    assert_eq!(
        loc.container_plan_path("README.md"),
        "/home/agent/workspace/docs/plans/001/README.md",
    );
}

#[test]
fn inside_workspace_at_root_omits_leading_rel() {
    let loc = PlanLocation::InsideWorkspace {
        blueprint_host_dir: "/tmp/ws".to_string(),
        blueprint_rel_to_workspace: String::new(),
    };
    assert_eq!(
        loc.container_plan_path("README.md"),
        "/home/agent/workspace/README.md",
    );
}

#[test]
fn plan_dir_host_path_only_for_outside_workspace() {
    let inside = PlanLocation::InsideWorkspace {
        blueprint_host_dir: "/tmp/ws/plans".to_string(),
        blueprint_rel_to_workspace: "plans".to_string(),
    };
    assert!(inside.plan_dir_host_path().is_none());

    let outside = PlanLocation::OutsideWorkspace {
        blueprint_host_dir: "/tmp/bp".to_string(),
    };
    assert_eq!(outside.plan_dir_host_path(), Some("/tmp/bp"));
}

#[test]
fn resolve_detects_inside_workspace() {
    let bp_file = "/tmp/t1/ws/docs/plans/001/README.md";
    let loc = resolve_canonical(&blueprint_dir(bp_file), Some("/tmp/t1/ws"));
    match loc {
        PlanLocation::InsideWorkspace {
            blueprint_rel_to_workspace,
            ..
        } => {
            assert_eq!(blueprint_rel_to_workspace, "docs/plans/001");
        }
        other => panic!("expected InsideWorkspace, got {other:?}"),
    }
}

#[test]
fn resolve_returns_outside_when_blueprint_diverges() {
    let bp_file = "/tmp/t2/plans/002/README.md";
    let loc = resolve_canonical(&blueprint_dir(bp_file), Some("/tmp/t2/ws"));
    match loc {
        PlanLocation::OutsideWorkspace { blueprint_host_dir } => {
            assert_eq!(blueprint_host_dir, "/tmp/t2/plans/002");
        }
        other => panic!("expected OutsideWorkspace, got {other:?}"),
    }
}

#[test]
fn resolve_returns_outside_when_no_workspace_given() {
    let bp_file = "/tmp/t3/plans/003/README.md";
    let loc = resolve_canonical(&blueprint_dir(bp_file), None);
    assert!(matches!(loc, PlanLocation::OutsideWorkspace { .. }));
}

#[test]
fn resolve_detects_blueprint_at_workspace_root() {
    let bp_file = "/tmp/t4/ws/README.md";
    let loc = resolve_canonical(&blueprint_dir(bp_file), Some("/tmp/t4/ws"));
    match loc {
        PlanLocation::InsideWorkspace {
            blueprint_rel_to_workspace,
            ..
        } => {
            assert_eq!(blueprint_rel_to_workspace, "");
        }
        other => panic!("expected InsideWorkspace, got {other:?}"),
    }
}

#[test]
fn sibling_directory_with_common_prefix_is_outside() {
    let loc = resolve_canonical("/tmp/ws-other/plans", Some("/tmp/ws"));
    assert!(matches!(loc, PlanLocation::OutsideWorkspace { .. }));
}

#[test]
fn blueprint_dir_of_bare_file_is_current_dir() {
    assert_eq!(blueprint_dir("README.md"), "");
    assert_eq!(blueprint_dir(""), ".");
    assert_eq!(blueprint_dir("/a/b/c.yaml"), "/a/b");
}

#[test]
fn workspace_joined_with_relative_dir_gives_back_the_dir() {
    let dir = "/srv/ws/docs/plans/007";
    let inside = resolve_canonical(dir, Some("/srv/ws"));
    let outside = resolve_canonical(dir, None);
    match (inside, outside) {
        (
            PlanLocation::InsideWorkspace {
                blueprint_host_dir,
                blueprint_rel_to_workspace,
            },
            PlanLocation::OutsideWorkspace {
                blueprint_host_dir: alone,
            },
        ) => {
            assert!(!blueprint_rel_to_workspace.starts_with('/'));
            assert_eq!(format!("{}/{}", "/srv/ws", blueprint_rel_to_workspace), dir);
            assert_eq!(blueprint_host_dir, dir);
            assert_eq!(alone, dir);
        }
        other => panic!("unexpected locations: {other:?}"),
    }
}
