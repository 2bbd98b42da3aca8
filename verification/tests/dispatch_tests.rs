use sway_action::dispatch::{
    change_dir_target, command_for_selection, get_active_workspace, output_labels,
    quick_window, workspace_exec_plan, workspace_names, ActionError, OutputInfo, QuickAction,
    SelectionCommand, WorkspaceInfo,
};
use sway_action::tree::{Node, NodeKind};

fn leaf(id: u64, name: Option<&str>, kind: NodeKind) -> Node {
    Node {
        id,
        name: name.map(|s| s.to_string()),
        kind,
        marks: Vec::new(),
        nodes: Vec::new(),
        floating_nodes: Vec::new(),
    }
}

fn ws(name: &str, focused: bool) -> WorkspaceInfo {
    WorkspaceInfo {
        name: name.to_string(),
        focused,
    }
}

fn output(name: &str, active: bool) -> OutputInfo {
    OutputInfo {
        name: name.to_string(),
        make: "Make".to_string(),
        model: "Model".to_string(),
        serial: "123".to_string(),
        active,
    }
}

fn quickmap() -> Vec<(String, String)> {
    vec![(
        "quick".to_string(),
        "alacritty -e tmux new-session -A -s quick".to_string(),
    )]
}

fn tree_without_mark() -> Node {
    let term = leaf(2, Some("term"), NodeKind::Con);
    let mut wsn = leaf(1, Some("ws"), NodeKind::Workspace);
    wsn.nodes = vec![term];
    let mut root = leaf(0, None, NodeKind::Root);
    root.nodes = vec![wsn];
    root
}

fn tree_with_mark(mark: &str) -> Node {
    let mut term = leaf(2, Some("term"), NodeKind::Con);
    term.marks = vec![mark.to_string()];
    let mut wsn = leaf(1, Some("ws"), NodeKind::Workspace);
    wsn.floating_nodes = vec![term];
    let mut root = leaf(0, None, NodeKind::Root);
    root.nodes = vec![wsn];
    root
}

/// End to end: selecting "3: Firefox" for the focus flow yields the exact
/// focus command for id 3.
#[test]
fn focus_selection_to_command() {
    let cmd = command_for_selection(SelectionCommand::FocusContainer, "3: Firefox\n");
    assert_eq!(cmd, Some("[con_id=3] focus".to_string()));
}

/// Each selection flow produces its exact command grammar.
#[test]
fn all_selection_commands() {
    assert_eq!(
        command_for_selection(SelectionCommand::StealContainer, "7: Terminal"),
        Some("[con_id=7] move to workspace current".to_string())
    );
    assert_eq!(
        command_for_selection(SelectionCommand::FocusWorkspace, "web\n"),
        Some("workspace web".to_string())
    );
    assert_eq!(
        command_for_selection(SelectionCommand::MoveToWorkspace, "mail"),
        Some("move window to workspace mail".to_string())
    );
    assert_eq!(
        command_for_selection(SelectionCommand::MoveWorkspaceToOutput, "DP-1: Make Model 1\n"),
        Some("move workspace to output DP-1".to_string())
    );
}

/// A cancelled selection aborts every flow: no command is issued.
#[test]
fn cancelled_selection_aborts() {
    assert_eq!(
        command_for_selection(SelectionCommand::FocusContainer, ""),
        None
    );
    assert_eq!(
        command_for_selection(SelectionCommand::FocusWorkspace, "\n"),
        None
    );
    assert_eq!(
        command_for_selection(SelectionCommand::MoveWorkspaceToOutput, "no-colon"),
        None
    );
}

/// The alias is not marked anywhere: the mapped command line is launched,
/// split on spaces, and no command is issued to the manager.
#[test]
fn quick_window_launches_when_unmarked() {
    let tree = tree_without_mark();
    match quick_window(&tree, "quick", &quickmap()) {
        Ok(QuickAction::Launch { argv }) => {
            assert_eq!(
                argv,
                vec!["alacritty", "-e", "tmux", "new-session", "-A", "-s", "quick"]
            );
        }
        _ => panic!("expected a launch"),
    }
}

/// The alias is marked: exactly the scratchpad-show command is issued and
/// nothing is spawned.
#[test]
fn quick_window_shows_when_marked() {
    let tree = tree_with_mark("quick");
    match quick_window(&tree, "quick", &quickmap()) {
        Ok(QuickAction::ScratchpadShow { command }) => {
            assert_eq!(command, "[con_mark=\"quick\"] scratchpad show");
        }
        _ => panic!("expected a scratchpad show"),
    }
}

/// The toggle keeps no state: with the tree unchanged, two invocations in
/// a row decide the same scratchpad-show command twice.
#[test]
fn quick_window_toggle_stateless() {
    let tree = tree_with_mark("quick");
    let map = quickmap();
    let first = quick_window(&tree, "quick", &map);
    let second = quick_window(&tree, "quick", &map);
    match (first, second) {
        (
            Ok(QuickAction::ScratchpadShow { command: c1 }),
            Ok(QuickAction::ScratchpadShow { command: c2 }),
        ) => {
            assert_eq!(c1, c2);
            assert_eq!(c1, "[con_mark=\"quick\"] scratchpad show");
        }
        _ => panic!("expected two scratchpad shows"),
    }
}

/// An alias absent from the quick-window mapping is a hard configuration
/// error.
#[test]
fn quick_window_missing_alias_is_error() {
    let tree = tree_without_mark();
    match quick_window(&tree, "quick", &Vec::new()) {
        Err(ActionError::MissingQuickCommand) => {}
        _ => panic!("expected the configuration error"),
    }
}

/// Exactly one focused workspace resolves; zero or two focused fail.
#[test]
fn active_workspace_needs_single_focus() {
    assert_eq!(
        get_active_workspace(&vec![ws("a", false), ws("b", true)]),
        Some("b".to_string())
    );
    assert_eq!(get_active_workspace(&vec![ws("a", false)]), None);
    assert_eq!(
        get_active_workspace(&vec![ws("a", true), ws("b", true)]),
        None
    );
    assert_eq!(get_active_workspace(&Vec::new()), None);
}

/// Workspace names keep their order.
#[test]
fn workspace_names_in_order() {
    let names = workspace_names(&vec![ws("web", true), ws("mail", false)]);
    assert_eq!(names, vec!["web", "mail"]);
}

/// Output labels: `"{name}: {make} {model} {serial}"`, inactive outputs
/// dropped.
#[test]
fn output_labels_filter_and_format() {
    let labels = output_labels(&vec![output("DP-1", true), output("DP-2", false)]);
    assert_eq!(labels, vec!["DP-1: Make Model 123"]);
}

/// The exec flow: the first argument is the program, the rest its
/// arguments; no arguments is the fatal error.
#[test]
fn exec_plan_splits_program() {
    let plan = workspace_exec_plan(&vec!["vim".to_string(), "notes.txt".to_string()]).unwrap();
    assert_eq!(plan.program, "vim");
    assert_eq!(plan.args, vec!["notes.txt"]);
    match workspace_exec_plan(&Vec::new()) {
        Err(ActionError::NoArgument) => {}
        _ => panic!("expected the no-arguments error"),
    }
}

/// The exec flow's directory decision: without a single focused workspace
/// there is no target; with one, the mapping decides.
#[test]
fn change_dir_target_needs_focus() {
    assert_eq!(change_dir_target("ws: /tmp\n", &vec![ws("ws", false)]), None);
    let dir = change_dir_target("ws: /tmp\n", &vec![ws("ws", true)]);
    assert_eq!(dir, Some("/tmp".to_string()));
}
