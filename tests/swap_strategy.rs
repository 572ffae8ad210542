use i3_insert_workspace::insert_workspace_swap::{
    has_workspace_tree_shape, insert_workspace, is_fresh_disposable, is_focused, move_workspace_to_end,
};
use i3_insert_workspace::tree::{NodeKind, TreeNode};
use i3_insert_workspace::util::{InsertionDestination, InsertionError};

fn con(id: i64, focused: bool) -> TreeNode {
    TreeNode {
        id,
        name: None,
        kind: NodeKind::Container,
        focused,
        focus: vec![],
        nodes: vec![],
        floating_nodes: vec![],
    }
}

fn workspace(id: i64, name: Option<&str>, nodes: Vec<TreeNode>, floating: Vec<TreeNode>) -> TreeNode {
    let focus = nodes.iter().chain(floating.iter()).map(|n| n.id).collect();
    TreeNode {
        id,
        name: name.map(|n| n.to_string()),
        kind: NodeKind::Workspace,
        focused: false,
        focus,
        nodes,
        floating_nodes: floating,
    }
}

fn output(id: i64, name: &str, workspaces: Vec<TreeNode>, focus: Vec<i64>) -> TreeNode {
    TreeNode {
        id,
        name: Some(name.to_string()),
        kind: NodeKind::Output,
        focused: false,
        focus,
        nodes: workspaces,
        floating_nodes: vec![],
    }
}

fn root(outputs: Vec<TreeNode>, focus: Vec<i64>) -> TreeNode {
    TreeNode {
        id: 1,
        name: Some("root".to_string()),
        kind: NodeKind::Root,
        focused: false,
        focus,
        nodes: outputs,
        floating_nodes: vec![],
    }
}

/// Output `eDP-1` with workspaces 1, 2 and 3; workspace 2 holds the focused
/// container 55.
fn three_workspaces() -> TreeNode {
    let w1 = workspace(101, Some("1"), vec![con(11, false)], vec![]);
    let w2 = workspace(102, Some("2"), vec![con(55, true)], vec![]);
    let w3 = workspace(103, Some("3"), vec![con(33, false)], vec![]);
    root(vec![output(10, "eDP-1", vec![w1, w2, w3], vec![102])], vec![10])
}

fn strings(v: &[&str]) -> Vec<String> {
    v.iter().map(|s| s.to_string()).collect()
}

#[test]
fn swap_before_focused_pivot_scenario() {
    let dest = InsertionDestination::new("2".to_string(), true);
    let cmds = insert_workspace(&three_workspaces(), &dest, "new", Some(77), "tmp").unwrap();
    assert_eq!(
        cmds,
        strings(&[
            "[con_id=77] move container to workspace new",
            "[con_id=55] move container to workspace tmp",
            "workspace tmp",
            "rename workspace tmp to 2",
            "[con_id=33] move container to workspace tmp",
            "rename workspace tmp to 3",
        ])
    );
    let switch = cmds.iter().position(|c| c == "workspace tmp").unwrap();
    let rename = cmds.iter().position(|c| c == "rename workspace tmp to 2").unwrap();
    assert!(switch < rename);
}

#[test]
fn swap_after_pivot_without_container() {
    let dest = InsertionDestination::new("2".to_string(), false);
    let cmds = insert_workspace(&three_workspaces(), &dest, "new", None, "tmp").unwrap();
    assert_eq!(
        cmds,
        strings(&[
            "workspace new",
            "[con_id=33] move container to workspace tmp",
            "rename workspace tmp to 3",
        ])
    );
}

#[test]
fn swap_without_container_never_switches() {
    let dest = InsertionDestination::new("1".to_string(), false);
    let cmds = insert_workspace(&three_workspaces(), &dest, "new", None, "tmp").unwrap();
    assert!(!cmds.contains(&"workspace tmp".to_string()));
    assert_eq!(cmds.len(), 5);
}

#[test]
fn swap_leaves_relocated_container_in_place() {
    let dest = InsertionDestination::new("1".to_string(), true);
    let cmds = insert_workspace(&three_workspaces(), &dest, "new", Some(55), "tmp").unwrap();
    assert_eq!(
        cmds,
        strings(&[
            "[con_id=55] move container to workspace new",
            "[con_id=11] move container to workspace tmp",
            "rename workspace tmp to 1",
            "[con_id=33] move container to workspace tmp",
            "rename workspace tmp to 3",
        ])
    );
}

#[test]
fn swap_moves_floating_containers_after_tiled_ones() {
    let w1 = workspace(101, Some("1"), vec![con(11, true)], vec![]);
    let w2 = workspace(102, Some("2"), vec![con(21, false)], vec![con(-22, false)]);
    let tree = root(vec![output(10, "eDP-1", vec![w1, w2], vec![101])], vec![10]);
    let dest = InsertionDestination::new("1".to_string(), false);
    let cmds = insert_workspace(&tree, &dest, "new", None, "d").unwrap();
    assert_eq!(
        cmds,
        strings(&[
            "workspace new",
            "[con_id=21] move container to workspace d",
            "[con_id=-22] move container to workspace d",
            "rename workspace d to 2",
        ])
    );
}

#[test]
fn swap_skips_empty_workspace() {
    let w1 = workspace(101, Some("1"), vec![con(11, true)], vec![]);
    let w2 = workspace(102, Some("2"), vec![], vec![]);
    let w3 = workspace(103, Some("3"), vec![con(33, false)], vec![]);
    let tree = root(vec![output(10, "eDP-1", vec![w1, w2, w3], vec![101])], vec![10]);
    let dest = InsertionDestination::new("1".to_string(), false);
    let cmds = insert_workspace(&tree, &dest, "new", Some(11), "d").unwrap();
    assert_eq!(
        cmds,
        strings(&[
            "[con_id=11] move container to workspace new",
            "[con_id=33] move container to workspace d",
            "rename workspace d to 3",
        ])
    );
}

#[test]
fn swap_only_shifts_pivot_output() {
    let a1 = workspace(101, Some("a1"), vec![con(11, true)], vec![]);
    let a2 = workspace(102, Some("a2"), vec![con(12, false)], vec![]);
    let b1 = workspace(201, Some("b1"), vec![con(21, false)], vec![]);
    let b2 = workspace(202, Some("b2"), vec![con(22, false)], vec![]);
    let tree = root(
        vec![output(10, "eDP-1", vec![a1, a2], vec![101]), output(20, "HDMI-1", vec![b1, b2], vec![201])],
        vec![10],
    );
    let dest = InsertionDestination::new("b1".to_string(), false);
    let cmds = insert_workspace(&tree, &dest, "new", None, "d").unwrap();
    assert_eq!(
        cmds,
        strings(&["workspace new", "[con_id=22] move container to workspace d", "rename workspace d to b2"])
    );
}

#[test]
fn swap_missing_pivot_is_an_error() {
    let dest = InsertionDestination::new("9".to_string(), true);
    match insert_workspace(&three_workspaces(), &dest, "new", None, "tmp") {
        Err(InsertionError::NoPivotWorkspace(p)) => assert_eq!(p, "9"),
        other => panic!("unexpected result {:?}", other),
    }
}

#[test]
fn swap_unnamed_shifted_workspace_is_an_error() {
    let w1 = workspace(101, Some("1"), vec![con(11, true)], vec![]);
    let w2 = workspace(102, None, vec![con(21, false)], vec![]);
    let tree = root(vec![output(10, "eDP-1", vec![w1, w2], vec![101])], vec![10]);
    let dest = InsertionDestination::new("1".to_string(), false);
    assert!(matches!(
        insert_workspace(&tree, &dest, "new", None, "d"),
        Err(InsertionError::UnnamedWorkspace)
    ));
}

#[test]
fn swap_unnamed_empty_workspace_is_left_alone() {
    let w1 = workspace(101, Some("1"), vec![con(11, true)], vec![]);
    let w2 = workspace(102, None, vec![], vec![]);
    let tree = root(vec![output(10, "eDP-1", vec![w1, w2], vec![101])], vec![10]);
    let dest = InsertionDestination::new("1".to_string(), false);
    let cmds = insert_workspace(&tree, &dest, "new", None, "d").unwrap();
    assert_eq!(cmds, strings(&["workspace new"]));
}

#[test]
fn swap_focus_followed_through_floating_child() {
    let w1 = workspace(101, Some("1"), vec![con(11, false)], vec![]);
    let mut w2 = workspace(102, Some("2"), vec![con(21, false)], vec![con(23, true)]);
    w2.focus = vec![23, 21];
    let tree = root(vec![output(10, "eDP-1", vec![w1, w2], vec![102])], vec![10]);
    let dest = InsertionDestination::new("1".to_string(), false);
    let cmds = insert_workspace(&tree, &dest, "new", Some(11), "d").unwrap();
    assert_eq!(
        cmds,
        strings(&[
            "[con_id=11] move container to workspace new",
            "[con_id=21] move container to workspace d",
            "[con_id=23] move container to workspace d",
            "workspace d",
            "rename workspace d to 2",
        ])
    );
}

#[test]
fn swap_empty_focused_workspace_gets_no_command() {
    let w1 = workspace(101, Some("1"), vec![con(11, false)], vec![]);
    let mut w2 = workspace(102, Some("2"), vec![], vec![]);
    w2.focused = true;
    let w3 = workspace(103, Some("3"), vec![con(33, false)], vec![]);
    let tree = root(vec![output(10, "eDP-1", vec![w1, w2, w3], vec![102])], vec![10]);
    let dest = InsertionDestination::new("1".to_string(), false);
    let cmds = insert_workspace(&tree, &dest, "new", Some(11), "d").unwrap();
    assert_eq!(
        cmds,
        strings(&[
            "[con_id=11] move container to workspace new",
            "[con_id=33] move container to workspace d",
            "rename workspace d to 3",
        ])
    );
}

#[test]
fn workspace_holding_only_relocated_container_gets_no_command() {
    let w = workspace(102, Some("2"), vec![con(55, true)], vec![]);
    assert!(is_focused(&w));
    assert_eq!(move_workspace_to_end(&w, Some(55), "d").unwrap(), Vec::<String>::new());
    let mut empty = workspace(103, Some("3"), vec![], vec![]);
    empty.focused = true;
    assert_eq!(move_workspace_to_end(&empty, Some(55), "d").unwrap(), Vec::<String>::new());
}

#[test]
fn focused_workspace_switches_before_rename_back() {
    let w = workspace(102, Some("2"), vec![con(55, true), con(56, false)], vec![con(57, false)]);
    let cmds = move_workspace_to_end(&w, Some(99), "d").unwrap();
    assert_eq!(
        cmds,
        strings(&[
            "[con_id=55] move container to workspace d",
            "[con_id=56] move container to workspace d",
            "[con_id=57] move container to workspace d",
            "workspace d",
            "rename workspace d to 2",
        ])
    );
}

#[test]
fn unnamed_workspace_with_moves_is_an_error() {
    let w = workspace(102, None, vec![con(21, false)], vec![]);
    assert!(matches!(move_workspace_to_end(&w, None, "d"), Err(InsertionError::UnnamedWorkspace)));
}

#[test]
fn tree_shape_check() {
    assert!(has_workspace_tree_shape(&three_workspaces()));
    let mut bad = three_workspaces();
    bad.nodes[0].nodes[1].kind = NodeKind::Container;
    assert!(!has_workspace_tree_shape(&bad));
    let mut bad_root = three_workspaces();
    bad_root.kind = NodeKind::Output;
    assert!(!has_workspace_tree_shape(&bad_root));
    let mut bad_output = three_workspaces();
    bad_output.nodes[0].kind = NodeKind::DockArea;
    assert!(!has_workspace_tree_shape(&bad_output));
}

#[test]
fn disposable_name_freshness() {
    let tree = three_workspaces();
    assert!(is_fresh_disposable(&tree, "new", "tmp"));
    assert!(!is_fresh_disposable(&tree, "new", "new"));
    assert!(!is_fresh_disposable(&tree, "new", "3"));
    assert!(!is_fresh_disposable(&tree, "new", "1"));
}
