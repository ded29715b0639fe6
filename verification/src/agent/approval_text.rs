//! What the user is shown before a gated tool runs.
use vstd::prelude::*;

use crate::text::{copy_text, push_text};

verus! {

pub open spec fn shell_summary_text(
    cwd: Seq<char>,
    reason: Seq<char>,
    command: Seq<char>,
) -> Seq<char> {
    "approval required: run_shell\ncwd: "@ + cwd + "\nreason: "@ + reason + "\ncommand: "@ + command
        + "\nType yes run to approve, n to deny.\n"@
}

pub fn shell_summary(cwd: &str, reason: &str, command: &str) -> (r: String)
    ensures
        r@ == shell_summary_text(cwd@, reason@, command@),
{
    let mut out = copy_text("approval required: run_shell\ncwd: ");
    push_text(&mut out, cwd);
    push_text(&mut out, "\nreason: ");
    push_text(&mut out, reason);
    push_text(&mut out, "\ncommand: ");
    push_text(&mut out, command);
    push_text(&mut out, "\nType yes run to approve, n to deny.\n");
    out
}

pub open spec fn patch_summary_text(
    path: Seq<char>,
    reason: Seq<char>,
    find: Seq<char>,
    replace: Seq<char>,
) -> Seq<char> {
    "approval required: propose_patch\npath: "@ + path + "\nreason: "@ + reason
        + "\n--- find ---\n"@ + find + "\n--- replace ---\n"@ + replace
        + "\nType yes apply to approve, n to deny.\n"@
}

pub fn patch_summary(path: &str, reason: &str, find: &str, replace: &str) -> (r: String)
    ensures
        r@ == patch_summary_text(path@, reason@, find@, replace@),
{
    let mut out = copy_text("approval required: propose_patch\npath: ");
    push_text(&mut out, path);
    push_text(&mut out, "\nreason: ");
    push_text(&mut out, reason);
    push_text(&mut out, "\n--- find ---\n");
    push_text(&mut out, find);
    push_text(&mut out, "\n--- replace ---\n");
    push_text(&mut out, replace);
    push_text(&mut out, "\nType yes apply to approve, n to deny.\n");
    out
}

} // verus!
