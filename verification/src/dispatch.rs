//! The command dispatcher: the per-subcommand decision logic.  Each
//! function here turns already-fetched data (a tree snapshot, workspace or
//! output lists, mapping-file text, the prompt's output) into the exact
//! command to issue or action to take; fetching and issuing stay outside.

use vstd::prelude::*;
use crate::commands::{
    focus_command, move_to_workspace_command, move_workspace_to_output_command,
    scratchpad_show_command, spec_focus_command, spec_move_to_workspace_command,
    spec_move_workspace_to_output_command, spec_scratchpad_show_command, spec_steal_command,
    spec_workspace_command, steal_command, workspace_command,
};
use crate::mapping::{
    lookup, pairs_view, parse_mapping, resolve_from_home, spec_lookup, spec_parse_mapping,
    spec_resolve,
};
use crate::selection::{
    bemenu_get_selection, bemenu_get_selection_id, spec_chosen_line, spec_selection_id,
};
use crate::strings::{spec_split, split_char};
use crate::tree::{search_tree_for_mark, spec_has_mark, Node};

verus! {

/// One workspace as the manager reports it; only the name and the focus
/// flag take part in any decision.
pub struct WorkspaceInfo {
    pub name: String,
    pub focused: bool,
}

/// One output (display) as the manager reports it.
pub struct OutputInfo {
    pub name: String,
    pub make: String,
    pub model: String,
    pub serial: String,
    pub active: bool,
}

/// The selection-driven subcommands: each pulls candidates, lets the user
/// choose one, and issues one command built from the choice.
#[derive(Clone, Copy, Debug, PartialEq, Eq, Structural)]
pub enum SelectionCommand {
    FocusContainer,
    StealContainer,
    FocusWorkspace,
    MoveToWorkspace,
    MoveWorkspaceToOutput,
}

/// The fatal configuration errors of the dispatcher.
#[derive(Clone, Copy, Debug, PartialEq, Eq, Structural)]
pub enum ActionError {
    /// The exec flow was invoked with no program to run.
    NoArgument,
    /// The quick-window alias has no entry in its mapping.
    MissingQuickCommand,
}

/// What the quick-window flow decided to do.
pub enum QuickAction {
    /// Spawn this program with these arguments (the split launch command
    /// line; the window is expected to register the mark itself).
    Launch { argv: Vec<String> },
    /// Issue this command to the manager to toggle the marked window.
    ScratchpadShow { command: String },
}

/// The mathematical value of a `QuickAction`.
pub ghost enum QuickActionView {
    Launch { argv: Seq<Seq<char>> },
    ScratchpadShow { command: Seq<char> },
}

impl View for QuickAction {
    type V = QuickActionView;

    open spec fn view(&self) -> QuickActionView {
        match self {
            QuickAction::Launch { argv } => QuickActionView::Launch {
                argv: argv@.map_values(|s: String| s@),
            },
            QuickAction::ScratchpadShow { command } => QuickActionView::ScratchpadShow {
                command: command@,
            },
        }
    }
}

/// The command a selection subcommand issues for the prompt output `raw`:
/// built from the parsed identifier (container and output flows) or from
/// the chosen line itself (workspace flows).  `None` — nothing is issued —
/// when the selection was cancelled or no identifier can be parsed.
pub open spec fn spec_command_for_selection(cmd: SelectionCommand, raw: Seq<char>) -> Option<
    Seq<char>,
> {
    let line = spec_chosen_line(raw);
    match cmd {
        SelectionCommand::FocusContainer => match spec_selection_id(line) {
            Some(id) => Some(spec_focus_command(id)),
            None => None,
        },
        SelectionCommand::StealContainer => match spec_selection_id(line) {
            Some(id) => Some(spec_steal_command(id)),
            None => None,
        },
        SelectionCommand::FocusWorkspace => if line.len() == 0 {
            None
        } else {
            Some(spec_workspace_command(line))
        },
        SelectionCommand::MoveToWorkspace => if line.len() == 0 {
            None
        } else {
            Some(spec_move_to_workspace_command(line))
        },
        SelectionCommand::MoveWorkspaceToOutput => match spec_selection_id(line) {
            Some(id) => Some(spec_move_workspace_to_output_command(id)),
            None => None,
        },
    }
}

/// Turns the prompt's raw output into the command text for a selection
/// subcommand, or `None` when the action must be aborted (cancelled or
/// unparseable selection).
pub fn command_for_selection(cmd: SelectionCommand, raw: &str) -> (r: Option<String>)
    ensures
        match r {
            Some(s) => spec_command_for_selection(cmd, raw@) == Some(s@),
            None => spec_command_for_selection(cmd, raw@) is None,
        },
{
    match cmd {
        SelectionCommand::FocusContainer => match bemenu_get_selection_id(raw) {
            Some(id) => Some(focus_command(id.as_str())),
            None => None,
        },
        SelectionCommand::StealContainer => match bemenu_get_selection_id(raw) {
            Some(id) => Some(steal_command(id.as_str())),
            None => None,
        },
        SelectionCommand::FocusWorkspace => {
            let line = bemenu_get_selection(raw);
            if line.as_str().unicode_len() == 0 {
                None
            } else {
                Some(workspace_command(line.as_str()))
            }
        },
        SelectionCommand::MoveToWorkspace => {
            let line = bemenu_get_selection(raw);
            if line.as_str().unicode_len() == 0 {
                None
            } else {
                Some(move_to_workspace_command(line.as_str()))
            }
        },
        SelectionCommand::MoveWorkspaceToOutput => match bemenu_get_selection_id(raw) {
            Some(id) => Some(move_workspace_to_output_command(id.as_str())),
            None => None,
        },
    }
}

/// The quick-window decision for a tree snapshot: when the alias is marked
/// somewhere in the tree, issue the scratchpad-show command for it; when it
/// is not, launch the alias's mapped command line, and fail when the
/// mapping has no entry for the alias.
pub open spec fn spec_quick_window(
    tree: Node,
    alias: Seq<char>,
    pairs: Seq<(Seq<char>, Seq<char>)>,
) -> Result<QuickActionView, ActionError> {
    if spec_has_mark(tree, alias) {
        Ok(QuickActionView::ScratchpadShow { command: spec_scratchpad_show_command(alias) })
    } else {
        match spec_lookup(pairs, alias) {
            Some(cmd) => Ok(QuickActionView::Launch { argv: spec_split(cmd, ' ') }),
            None => Err(ActionError::MissingQuickCommand),
        }
    }
}

/// The quick-window toggle, decided from the tree snapshot and the parsed
/// quick-window mapping, exactly as `spec_quick_window` describes.
pub fn quick_window(tree: &Node, alias: &str, quickmap: &Vec<(String, String)>) -> (r: Result<
    QuickAction,
    ActionError,
>)
    ensures
        match r {
            Ok(a) => spec_quick_window(*tree, alias@, pairs_view(quickmap@)) == Ok::<
                QuickActionView,
                ActionError,
            >(a@),
            Err(e) => spec_quick_window(*tree, alias@, pairs_view(quickmap@)) == Err::<
                QuickActionView,
                ActionError,
            >(e),
        },
{
    if search_tree_for_mark(tree, alias) {
        Ok(QuickAction::ScratchpadShow { command: scratchpad_show_command(alias) })
    } else {
        match lookup(quickmap, alias) {
            Some(cmd) => Ok(QuickAction::Launch { argv: split_char(cmd.as_str(), ' ') }),
            None => Err(ActionError::MissingQuickCommand),
        }
    }
}

/// Law: the scratchpad toggle keeps no state of its own.  As long as the
/// tree still carries the alias's mark, every invocation decides the same
/// thing — the identical scratchpad-show command text, with nothing spawned
/// — so two invocations in a row issue that command twice and the show/hide
/// alternation is wholly the window manager's.
pub proof fn lemma_quick_window_toggle_stateless(
    tree: Node,
    alias: Seq<char>,
    pairs: Seq<(Seq<char>, Seq<char>)>,
)
    requires
        spec_has_mark(tree, alias),
    ensures
        spec_quick_window(tree, alias, pairs) == Ok::<QuickActionView, ActionError>(
            QuickActionView::ScratchpadShow { command: spec_scratchpad_show_command(alias) },
        ),
{
}

/// The count of focused workspaces in a list.
pub open spec fn spec_count_focused(ws: Seq<WorkspaceInfo>) -> nat
    decreases ws.len(),
{
    if ws.len() == 0 {
        0
    } else {
        spec_count_focused(ws.drop_last()) + (if ws.last().focused {
            1nat
        } else {
            0nat
        })
    }
}

/// The name of the last focused workspace in the list, if any.
pub open spec fn spec_last_focused_name(ws: Seq<WorkspaceInfo>) -> Option<Seq<char>>
    decreases ws.len(),
{
    if ws.len() == 0 {
        None
    } else if ws.last().focused {
        Some(ws.last().name@)
    } else {
        spec_last_focused_name(ws.drop_last())
    }
}

/// The name of the single focused workspace, or `None` unless exactly one
/// workspace is focused (the manager's invariant; resolution fails
/// otherwise).
pub open spec fn spec_active_workspace(ws: Seq<WorkspaceInfo>) -> Option<Seq<char>> {
    if spec_count_focused(ws) == 1 {
        spec_last_focused_name(ws)
    } else {
        None
    }
}

/// Finds the single focused workspace's name, exactly as
/// `spec_active_workspace` describes.
pub fn get_active_workspace(workspaces: &Vec<WorkspaceInfo>) -> (r: Option<String>)
    ensures
        match r {
            Some(n) => spec_active_workspace(workspaces@) == Some(n@),
            None => spec_active_workspace(workspaces@) is None,
        },
{
    let mut count: usize = 0;
    let mut found: Option<String> = None;
    proof {
        assert(workspaces@.subrange(0, 0) =~= Seq::<WorkspaceInfo>::empty());
    }
    for i in 0..workspaces.len()
        invariant
            count == spec_count_focused(workspaces@.subrange(0, i as int)),
            match found {
                Some(n) => spec_last_focused_name(workspaces@.subrange(0, i as int)) == Some(
                    n@,
                ),
                None => spec_last_focused_name(workspaces@.subrange(0, i as int)) is None,
            },
            count <= i,
        decreases workspaces.len() - i,
    {
        let ghost prefix = workspaces@.subrange(0, i as int);
        if workspaces[i].focused {
            count = count + 1;
            found = Some(workspaces[i].name.clone());
        }
        proof {
            assert(workspaces@.subrange(0, i + 1).drop_last() =~= prefix);
            assert(workspaces@.subrange(0, i + 1).last() == workspaces@[i as int]);
        }
    }
    proof {
        assert(workspaces@.subrange(0, workspaces@.len() as int) =~= workspaces@);
    }
    if count == 1 {
        found
    } else {
        None
    }
}

/// The workspace names, in the order the manager reported them: the
/// candidate lines of the workspace flows.
pub open spec fn spec_workspace_names(ws: Seq<WorkspaceInfo>) -> Seq<Seq<char>> {
    ws.map_values(|w: WorkspaceInfo| w.name@)
}

/// Copies the workspace names out of the list, in order.
pub fn workspace_names(workspaces: &Vec<WorkspaceInfo>) -> (r: Vec<String>)
    ensures
        r@.map_values(|s: String| s@) == spec_workspace_names(workspaces@),
{
    let mut out: Vec<String> = Vec::new();
    for i in 0..workspaces.len()
        invariant
            out@.len() == i as int,
            forall|j: int| 0 <= j < i ==> out@[j]@ == workspaces@[j].name@,
        decreases workspaces.len() - i,
    {
        out.push(workspaces[i].name.clone());
    }
    proof {
        assert(out@.map_values(|s: String| s@) =~= spec_workspace_names(workspaces@));
    }
    out
}

/// The label of one output: `"{name}: {make} {model} {serial}"`.
pub open spec fn spec_output_label(o: OutputInfo) -> Seq<char> {
    o.name@ + seq![':', ' '] + o.make@ + seq![' '] + o.model@ + seq![' '] + o.serial@
}

/// The labels of the active outputs, in order; inactive outputs are
/// dropped.
pub open spec fn spec_output_labels(outs: Seq<OutputInfo>) -> Seq<Seq<char>>
    decreases outs.len(),
{
    if outs.len() == 0 {
        Seq::empty()
    } else {
        spec_output_labels(outs.drop_last()) + (if outs.last().active {
            seq![spec_output_label(outs.last())]
        } else {
            Seq::empty()
        })
    }
}

fn output_label(o: &OutputInfo) -> (r: String)
    ensures
        r@ == spec_output_label(*o),
{
    let mut s = o.name.clone();
    s.append(": ");
    s.append(o.make.as_str());
    s.append(" ");
    s.append(o.model.as_str());
    s.append(" ");
    s.append(o.serial.as_str());
    proof {
        reveal_strlit(": ");
        reveal_strlit(" ");
        assert(": "@ =~= seq![':', ' ']);
        assert(" "@ =~= seq![' ']);
        assert(s@ =~= spec_output_label(*o));
    }
    s
}

/// Builds the selectable labels of the active outputs, in order, exactly
/// as `spec_output_labels` describes.
pub fn output_labels(outputs: &Vec<OutputInfo>) -> (r: Vec<String>)
    ensures
        r@.map_values(|s: String| s@) == spec_output_labels(outputs@),
{
    let mut out: Vec<String> = Vec::new();
    proof {
        assert(outputs@.subrange(0, 0) =~= Seq::<OutputInfo>::empty());
        assert(out@.map_values(|s: String| s@) =~= spec_output_labels(
            outputs@.subrange(0, 0),
        ));
    }
    for i in 0..outputs.len()
        invariant
            out@.map_values(|s: String| s@) == spec_output_labels(
                outputs@.subrange(0, i as int),
            ),
        decreases outputs.len() - i,
    {
        let ghost prefix = outputs@.subrange(0, i as int);
        if outputs[i].active {
            out.push(output_label(&outputs[i]));
        }
        proof {
            assert(outputs@.subrange(0, i + 1).drop_last() =~= prefix);
            assert(outputs@.subrange(0, i + 1).last() == outputs@[i as int]);
            assert(out@.map_values(|s: String| s@) =~= spec_output_labels(
                outputs@.subrange(0, i + 1),
            ));
        }
    }
    proof {
        assert(outputs@.subrange(0, outputs@.len() as int) =~= outputs@);
    }
    out
}

/// The exec flow's working directory: the mapping-file text resolved for
/// the single focused workspace, against the home directory the
/// environment reports.  `None` when no single focused workspace exists;
/// the caller then leaves the working directory unchanged.  (A missing
/// entry for the workspace is the soft miss inside `spec_resolve`: the
/// home directory comes back.)
pub fn change_dir_target(mapping_text: &str, workspaces: &Vec<WorkspaceInfo>) -> (r: Option<
    String,
>)
    ensures
        match r {
            Some(dir) => spec_active_workspace(workspaces@) is Some && (exists|
                home: Seq<char>,
            |
                dir@ == spec_resolve(
                    spec_parse_mapping(mapping_text@),
                    spec_active_workspace(workspaces@).unwrap(),
                    home,
                )),
            None => spec_active_workspace(workspaces@) is None,
        },
{
    match get_active_workspace(workspaces) {
        Some(ws) => {
            let pairs = parse_mapping(mapping_text);
            let dir = resolve_from_home(&pairs, ws.as_str());
            proof {
                let h = choose|h: Seq<char>| dir@ == spec_resolve(pairs_view(pairs@), ws@, h);
                assert(dir@ == spec_resolve(
                    spec_parse_mapping(mapping_text@),
                    spec_active_workspace(workspaces@).unwrap(),
                    h,
                ));
            }
            Some(dir)
        },
        None => None,
    }
}

/// A program to spawn, with its arguments.
pub struct Launch {
    pub program: String,
    pub args: Vec<String>,
}

/// The exec flow's decision on its argument list: the first argument is the
/// program, the rest are its arguments, and an empty list is the fatal
/// no-arguments error, reported before any other work.
pub fn workspace_exec_plan(args: &Vec<String>) -> (r: Result<Launch, ActionError>)
    ensures
        match r {
            Ok(l) => args@.len() > 0 && l.program@ == args@[0]@ && l.args@.map_values(
                |s: String| s@,
            ) == args@.drop_first().map_values(|s: String| s@),
            Err(e) => args@.len() == 0 && e == ActionError::NoArgument,
        },
{
    if args.len() == 0 {
        return Err(ActionError::NoArgument);
    }
    let program = args[0].clone();
    let mut rest: Vec<String> = Vec::new();
    for i in 1..args.len()
        invariant
            args@.len() > 0,
            rest@.len() == i - 1,
            forall|j: int| 0 <= j < i - 1 ==> rest@[j]@ == args@[j + 1]@,
        decreases args.len() - i,
    {
        rest.push(args[i].clone());
    }
    proof {
        assert(rest@.map_values(|s: String| s@) =~= args@.drop_first().map_values(
            |s: String| s@,
        ));
    }
    Ok(Launch { program, args: rest })
}

} // verus!
