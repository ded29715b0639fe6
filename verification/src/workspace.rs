//! The workspace root: how it is chosen, shown and guarded.
use vstd::prelude::*;

use crate::intent::{lowercase, unicode_lower};
use crate::paths::{join_path, parent_of, parent_path, path_join};
use crate::text::{char_count, concat2, concat3, contains, copy_text, ends_with, push_text, same_text, strip_prefix, trim};
use crate::text::{has_suffix, has_text, opt_text, trimmed, without_prefix};

verus! {

pub open spec fn opt_str_text(o: Option<&str>) -> Option<Seq<char>> {
    match o {
        Some(s) => Some(s@),
        None => None,
    }
}

/// The root to work in: the chosen one, else the current directory unless that
/// is the home directory.
pub open spec fn effective_root(
    selected: Option<Seq<char>>,
    cwd: Option<Seq<char>>,
    cwd_is_home: bool,
) -> Option<Seq<char>> {
    match selected {
        Some(root) => Some(root),
        None => if cwd_is_home {
            None
        } else {
            cwd
        },
    }
}

pub fn effective_workspace_root(
    selected_root: Option<&str>,
    cwd: Option<&str>,
    cwd_is_home: bool,
) -> (r: Option<String>)
    ensures
        opt_text(r) == effective_root(
            opt_str_text(selected_root),
            opt_str_text(cwd),
            cwd_is_home,
        ),
{
    match selected_root {
        Some(root) => Some(copy_text(root)),
        None => {
            if cwd_is_home {
                None
            } else {
                match cwd {
                    Some(cwd) => Some(copy_text(cwd)),
                    None => None,
                }
            }
        },
    }
}

/// The prompt speaks of the folder `env`.
pub open spec fn speaks_of_env(lowered: Seq<char>) -> bool {
    has_text(lowered, "env folder"@) || has_text(lowered, "env directory"@) || has_text(
        lowered,
        "my env "@,
    ) || has_suffix(lowered, "my env"@)
}

/// The folder of the home directory that a lower-cased prompt speaks of.
pub open spec fn natural_folder(lowered: Seq<char>) -> Option<Seq<char>> {
    if has_text(lowered, "desktop"@) {
        Some("Desktop"@)
    } else if has_text(lowered, "downloads"@) {
        Some("Downloads"@)
    } else if has_text(lowered, "documents"@) {
        Some("Documents"@)
    } else if speaks_of_env(lowered) {
        Some("env"@)
    } else {
        None
    }
}

pub open spec fn natural_root(lowered: Seq<char>, home: Option<Seq<char>>) -> Option<Seq<char>> {
    match (home, natural_folder(lowered)) {
        (Some(h), Some(f)) => Some(path_join(h, f)),
        _ => None,
    }
}

/// The root that a lower-cased prompt speaks of.
pub fn infer_lowered_root(lowered: &str, home: Option<&str>) -> (r: Option<String>)
    ensures
        opt_text(r) == natural_root(lowered@, opt_str_text(home)),
{
    let home = match home {
        Some(h) => h,
        None => {
            return None;
        },
    };
    if contains(lowered, "desktop") {
        Some(join_path(home, "Desktop"))
    } else if contains(lowered, "downloads") {
        Some(join_path(home, "Downloads"))
    } else if contains(lowered, "documents") {
        Some(join_path(home, "Documents"))
    } else if contains(lowered, "env folder") || contains(lowered, "env directory") || contains(
        lowered,
        "my env ",
    ) || ends_with(lowered, "my env") {
        Some(join_path(home, "env"))
    } else {
        None
    }
}

pub fn infer_natural_root(prompt: &str, home: Option<&str>) -> (r: Option<String>)
    ensures
        opt_text(r) == natural_root(unicode_lower(prompt@), opt_str_text(home)),
{
    infer_lowered_root(lowercase(prompt).as_str(), home)
}

/// What a `/root` command asks for: `None` for no such command, `Some(None)` to
/// show the root, else the argument.
pub open spec fn root_command(prompt: Seq<char>) -> Option<Option<Seq<char>>> {
    if prompt == "/root"@ {
        Some(None)
    } else {
        match without_prefix(prompt, "/root "@) {
            Some(rest) => if trimmed(rest).len() == 0 {
                None
            } else {
                Some(Some(trimmed(rest)))
            },
            None => None,
        }
    }
}

pub fn parse_root_command(prompt: &str) -> (r: Option<Option<String>>)
    ensures
        match r {
            Some(arg) => root_command(prompt@) == Some(opt_text(arg)),
            None => root_command(prompt@) is None,
        },
{
    if same_text(prompt, "/root") {
        return Some(None);
    }
    match strip_prefix(prompt, "/root ") {
        Some(rest) => {
            let value = trim(rest.as_str());
            if char_count(value.as_str()) == 0 {
                None
            } else {
                Some(Some(value))
            }
        },
        None => None,
    }
}

pub open spec fn clears_root(arg: Seq<char>) -> bool {
    arg == "clear"@ || arg == "reset"@ || arg == "cwd"@
}

/// The path that a root argument names; `None` where it gives up the root.
pub open spec fn requested_root(arg: Seq<char>, cwd: Seq<char>) -> Option<Seq<char>> {
    if clears_root(arg) {
        None
    } else {
        Some(path_join(cwd, arg))
    }
}

pub fn root_request(root_arg: &str, cwd: &str) -> (r: Option<String>)
    ensures
        opt_text(r) == requested_root(root_arg@, cwd@),
{
    if same_text(root_arg, "clear") || same_text(root_arg, "reset") || same_text(root_arg, "cwd") {
        return None;
    }
    Some(join_path(cwd, root_arg))
}

pub open spec fn result_texts(r: Result<String, String>) -> Result<Seq<char>, Seq<char>> {
    match r {
        Ok(s) => Ok(s@),
        Err(e) => Err(e@),
    }
}

pub open spec fn unit_result(r: Result<(), String>) -> Result<(), Seq<char>> {
    match r {
        Ok(_) => Ok(()),
        Err(e) => Err(e@),
    }
}

/// The root to take, given what became of making the path canonical, and
/// whether that is a directory.
pub open spec fn accepted_root(
    path: Seq<char>,
    canonical: Result<Seq<char>, Seq<char>>,
    is_dir: bool,
) -> Result<Seq<char>, Seq<char>> {
    match canonical {
        Ok(root) => if is_dir {
            Ok(root)
        } else {
            Err(root + " is not a directory"@)
        },
        Err(err) => Err(path + ": "@ + err),
    }
}

pub fn accept_root(path: &str, canonical: Result<String, String>, is_dir: bool) -> (r: Result<
    String,
    String,
>)
    ensures
        result_texts(r) == accepted_root(path@, result_texts(canonical), is_dir),
{
    match canonical {
        Ok(root) => {
            if is_dir {
                Ok(root)
            } else {
                Err(concat2(root.as_str(), " is not a directory"))
            }
        },
        Err(err) => Err(concat3(path, ": ", err.as_str())),
    }
}

pub open spec fn root_status_text(root: Option<Seq<char>>, explicit: bool) -> Seq<char> {
    match root {
        Some(root) => "root: "@ + root + "\nroot-source: "@ + (if explicit {
            "explicit"@
        } else {
            "cwd"@
        }) + "\n"@,
        None => "root: unset\nroot-source: none\nUse /root <path> before running workspace tasks from $HOME.\n"@,
    }
}

pub fn root_status(root: Option<&str>, explicit: bool) -> (r: String)
    ensures
        r@ == root_status_text(opt_str_text(root), explicit),
{
    match root {
        Some(root) => {
            let mut out = concat3("root: ", root, "\nroot-source: ");
            push_text(&mut out, if explicit { "explicit" } else { "cwd" });
            push_text(&mut out, "\n");
            out
        },
        None => copy_text(
            "root: unset\nroot-source: none\nUse /root <path> before running workspace tasks from $HOME.\n",
        ),
    }
}

pub open spec fn boundary_text(root: Seq<char>, path: Seq<char>) -> Seq<char> {
    let suggested = match parent_path(path) {
        Some(p) => p,
        None => root,
    };
    "route: unclear\nReferenced path is outside the selected workspace root.\nroot: "@ + root
        + "\npath: "@ + path + "\nSuggested root: "@ + suggested + "\nType /root "@ + suggested
        + " to choose that workspace, or /chat to discuss.\n"@
}

pub fn path_boundary_clarify_text(root: &str, path: &str) -> (r: String)
    ensures
        r@ == boundary_text(root@, path@),
{
    let suggested = match parent_of(path) {
        Some(p) => p,
        None => copy_text(root),
    };
    let mut out = concat3(
        "route: unclear\nReferenced path is outside the selected workspace root.\nroot: ",
        root,
        "\npath: ",
    );
    push_text(&mut out, path);
    push_text(&mut out, "\nSuggested root: ");
    push_text(&mut out, suggested.as_str());
    push_text(&mut out, "\nType /root ");
    push_text(&mut out, suggested.as_str());
    push_text(&mut out, " to choose that workspace, or /chat to discuss.\n");
    out
}

} // verus!
