//! Builders for the command strings sent to the window manager.  The text
//! grammar is fixed by the manager and reproduced verbatim here.

use vstd::prelude::*;

verus! {

/// `"[con_id={id}] focus"`
pub open spec fn spec_focus_command(id: Seq<char>) -> Seq<char> {
    "[con_id="@ + id + "] focus"@
}

/// `"[con_id={id}] move to workspace current"`
pub open spec fn spec_steal_command(id: Seq<char>) -> Seq<char> {
    "[con_id="@ + id + "] move to workspace current"@
}

/// `"workspace {name}"`
pub open spec fn spec_workspace_command(name: Seq<char>) -> Seq<char> {
    "workspace "@ + name
}

/// `"move window to workspace {name}"`
pub open spec fn spec_move_to_workspace_command(name: Seq<char>) -> Seq<char> {
    "move window to workspace "@ + name
}

/// `"move workspace to output {name}"`
pub open spec fn spec_move_workspace_to_output_command(name: Seq<char>) -> Seq<char> {
    "move workspace to output "@ + name
}

/// `"[con_mark=\"{mark}\"] scratchpad show"`
pub open spec fn spec_scratchpad_show_command(mark: Seq<char>) -> Seq<char> {
    "[con_mark=\""@ + mark + "\"] scratchpad show"@
}

fn surround(prefix: &str, mid: &str, suffix: &str) -> (r: String)
    ensures
        r@ == prefix@ + mid@ + suffix@,
{
    let mut s = prefix.to_owned();
    s.append(mid);
    s.append(suffix);
    s
}

pub fn focus_command(id: &str) -> (r: String)
    ensures
        r@ == spec_focus_command(id@),
{
    surround("[con_id=", id, "] focus")
}

pub fn steal_command(id: &str) -> (r: String)
    ensures
        r@ == spec_steal_command(id@),
{
    surround("[con_id=", id, "] move to workspace current")
}

pub fn workspace_command(name: &str) -> (r: String)
    ensures
        r@ == spec_workspace_command(name@),
{
    let mut s = "workspace ".to_owned();
    s.append(name);
    s
}

pub fn move_to_workspace_command(name: &str) -> (r: String)
    ensures
        r@ == spec_move_to_workspace_command(name@),
{
    let mut s = "move window to workspace ".to_owned();
    s.append(name);
    s
}

pub fn move_workspace_to_output_command(name: &str) -> (r: String)
    ensures
        r@ == spec_move_workspace_to_output_command(name@),
{
    let mut s = "move workspace to output ".to_owned();
    s.append(name);
    s
}

pub fn scratchpad_show_command(mark: &str) -> (r: String)
    ensures
        r@ == spec_scratchpad_show_command(mark@),
{
    surround("[con_mark=\"", mark, "\"] scratchpad show")
}

} // verus!
