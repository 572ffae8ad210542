use i3_insert_workspace::command::join_commands;
use i3_insert_workspace::insert_workspace_rename::insert_workspace;
use i3_insert_workspace::tree::{name_in_use, WorkspaceSummary};
use i3_insert_workspace::util::{InsertionDestination, InsertionError};

fn ws(name: &str, output: &str) -> WorkspaceSummary {
    WorkspaceSummary { name: name.to_string(), output: output.to_string() }
}

fn one_output() -> Vec<WorkspaceSummary> {
    vec![ws("1", "eDP-1"), ws("2", "eDP-1"), ws("3", "eDP-1")]
}

#[test]
fn rename_after_pivot_scenario() {
    let dest = InsertionDestination::new("2".to_string(), false);
    let cmds = insert_workspace(&one_output(), &dest, "new", None).unwrap();
    assert_eq!(
        cmds,
        vec![
            "workspace \"new\"".to_string(),
            "move workspace to output eDP-1".to_string(),
            "rename workspace \"3\" to \"3\"".to_string(),
        ]
    );
    assert_eq!(
        join_commands(&cmds),
        "workspace \"new\"; move workspace to output eDP-1; rename workspace \"3\" to \"3\""
    );
}

#[test]
fn rename_before_pivot_renames_pivot_and_rest() {
    let dest = InsertionDestination::new("2".to_string(), true);
    let cmds = insert_workspace(&one_output(), &dest, "new", Some(77)).unwrap();
    assert_eq!(
        cmds,
        vec![
            "[con_id=77] move container to workspace new".to_string(),
            "move workspace to output eDP-1".to_string(),
            "rename workspace \"2\" to \"2\"".to_string(),
            "rename workspace \"3\" to \"3\"".to_string(),
        ]
    );
}

#[test]
fn rename_after_last_renames_nothing() {
    let dest = InsertionDestination::new("3".to_string(), false);
    let cmds = insert_workspace(&one_output(), &dest, "new", None).unwrap();
    assert_eq!(cmds.len(), 2);
}

#[test]
fn rename_stops_at_output_boundary() {
    let list = vec![
        ws("1", "eDP-1"),
        ws("2", "eDP-1"),
        ws("3", "eDP-1"),
        ws("4", "HDMI-1"),
        ws("5", "HDMI-1"),
    ];
    let dest = InsertionDestination::new("1".to_string(), false);
    let cmds = insert_workspace(&list, &dest, "x", None).unwrap();
    assert_eq!(
        cmds,
        vec![
            "workspace \"x\"".to_string(),
            "move workspace to output eDP-1".to_string(),
            "rename workspace \"2\" to \"2\"".to_string(),
            "rename workspace \"3\" to \"3\"".to_string(),
        ]
    );
    let dest = InsertionDestination::new("4".to_string(), true);
    let cmds = insert_workspace(&list, &dest, "x", None).unwrap();
    assert_eq!(
        cmds,
        vec![
            "workspace \"x\"".to_string(),
            "move workspace to output HDMI-1".to_string(),
            "rename workspace \"4\" to \"4\"".to_string(),
            "rename workspace \"5\" to \"5\"".to_string(),
        ]
    );
}

#[test]
fn rename_skips_workspace_with_new_name() {
    let list = vec![ws("1", "eDP-1"), ws("2", "eDP-1"), ws("new", "eDP-1"), ws("3", "eDP-1")];
    let dest = InsertionDestination::new("1".to_string(), false);
    let cmds = insert_workspace(&list, &dest, "new", None).unwrap();
    assert_eq!(
        cmds,
        vec![
            "workspace \"new\"".to_string(),
            "move workspace to output eDP-1".to_string(),
            "rename workspace \"2\" to \"2\"".to_string(),
            "rename workspace \"3\" to \"3\"".to_string(),
        ]
    );
    assert!(!cmds.contains(&"rename workspace \"new\" to \"new\"".to_string()));
}

#[test]
fn rename_missing_pivot_is_an_error() {
    let dest = InsertionDestination::new("9".to_string(), false);
    match insert_workspace(&one_output(), &dest, "new", None) {
        Err(InsertionError::NoPivotWorkspace(p)) => assert_eq!(p, "9"),
        other => panic!("unexpected result {:?}", other),
    }
    match insert_workspace(&Vec::new(), &dest, "new", None) {
        Err(InsertionError::NoPivotWorkspace(p)) => assert_eq!(p, "9"),
        other => panic!("unexpected result {:?}", other),
    }
}

#[test]
fn rename_uses_first_workspace_with_pivot_name() {
    let list = vec![ws("a", "eDP-1"), ws("p", "eDP-1"), ws("b", "eDP-1"), ws("p", "HDMI-1")];
    let dest = InsertionDestination::new("p".to_string(), false);
    let cmds = insert_workspace(&list, &dest, "n", None).unwrap();
    assert_eq!(cmds[1], "move workspace to output eDP-1");
    assert_eq!(cmds[2..].to_vec(), vec!["rename workspace \"b\" to \"b\"".to_string()]);
}

#[test]
fn destination_keeps_pivot() {
    let after = InsertionDestination::new("main".to_string(), false);
    let before = InsertionDestination::new("web".to_string(), true);
    assert_eq!(after.pivot(), "main");
    assert_eq!(before.pivot(), "web");
    assert!(matches!(after, InsertionDestination::After { .. }));
    assert!(matches!(before, InsertionDestination::Before { .. }));
}

#[test]
fn name_in_use_looks_at_every_name() {
    let list = one_output();
    assert!(name_in_use(&list, &"3".to_string()));
    assert!(name_in_use(&list, &"1".to_string()));
    assert!(!name_in_use(&list, &"eDP-1".to_string()));
    assert!(!name_in_use(&Vec::new(), &"1".to_string()));
}
