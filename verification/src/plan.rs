//! Planning the creation of a workspace's directories and files: what to
//! create follows from what already exists.

use vstd::prelude::*;
use crate::text::{opt_str_view};
use crate::gitignore::{entries_missing, merge_gitignore, merged_lines};
use crate::text::{render_lines, strs};

verus! {

/// A change to make on disk.
#[derive(Debug)]
pub enum InitAction {
    /// Create a directory, with any missing parents.
    CreateDir(String),
    /// Create or truncate a file and write the given content into it.
    WriteFile(String, String),
}

/// The view of an [`InitAction`].
pub enum ActionView {
    CreateDir(Seq<char>),
    WriteFile(Seq<char>, Seq<char>),
}

impl View for InitAction {
    type V = ActionView;

    open spec fn view(&self) -> ActionView {
        match self {
            InitAction::CreateDir(p) => ActionView::CreateDir(p@),
            InitAction::WriteFile(p, c) => ActionView::WriteFile(p@, c@),
        }
    }
}

pub open spec fn action_views(v: Seq<InitAction>) -> Seq<ActionView> {
    v.map_values(|a: InitAction| a@)
}

/// The actions for a directory that must exist.
pub open spec fn dir_actions(path: Seq<char>, exists: bool) -> Seq<ActionView> {
    if exists {
        seq![]
    } else {
        seq![ActionView::CreateDir(path)]
    }
}

/// The actions for a file that must exist, with `content` when it is new.
pub open spec fn file_actions(path: Seq<char>, exists: bool, content: Seq<char>) -> Seq<ActionView> {
    if exists {
        seq![]
    } else {
        seq![ActionView::WriteFile(path, content)]
    }
}

/// The paths that a directory or file step creates.
pub open spec fn created(path: Seq<char>, exists: bool) -> Seq<Seq<char>> {
    if exists {
        seq![]
    } else {
        seq![path]
    }
}

/// The actions for the `.gitignore` at `path`, whose content is `existing`
/// when it exists: it is written when an entry is missing or there is no file.
pub open spec fn gitignore_actions(path: Seq<char>, existing: Option<Seq<char>>) -> Seq<ActionView> {
    if entries_missing(existing) || existing is None {
        seq![ActionView::WriteFile(path, render_lines(merged_lines(existing)))]
    } else {
        seq![]
    }
}

/// Plans a directory: created when it does not exist.
pub fn plan_dir(
    path: String,
    exists: bool,
    actions: &mut Vec<InitAction>,
    created_paths: &mut Vec<String>,
)
    ensures
        action_views(final(actions)@) == action_views(old(actions)@) + dir_actions(path@, exists),
        strs(final(created_paths)@) == strs(old(created_paths)@) + created(path@, exists),
{
    let ghost a0 = old(actions)@;
    let ghost c0 = old(created_paths)@;
    if !exists {
        let p = path.clone();
        actions.push(InitAction::CreateDir(p));
        created_paths.push(path);
        assert(action_views(actions@) =~= action_views(a0) + dir_actions(path@, exists));
        assert(strs(created_paths@) =~= strs(c0) + created(path@, exists));
    } else {
        assert(action_views(actions@) =~= action_views(a0) + dir_actions(path@, exists));
        assert(strs(created_paths@) =~= strs(c0) + created(path@, exists));
    }
}

/// Plans a file: written with `content` when it does not exist.
pub fn plan_file(
    path: String,
    exists: bool,
    content: &str,
    actions: &mut Vec<InitAction>,
    created_paths: &mut Vec<String>,
)
    ensures
        action_views(final(actions)@) == action_views(old(actions)@) + file_actions(
            path@,
            exists,
            content@,
        ),
        strs(final(created_paths)@) == strs(old(created_paths)@) + created(path@, exists),
{
    let ghost a0 = old(actions)@;
    let ghost c0 = old(created_paths)@;
    if !exists {
        let p = path.clone();
        actions.push(InitAction::WriteFile(p, content.to_string()));
        created_paths.push(path);
    }
    assert(action_views(actions@) =~= action_views(a0) + file_actions(path@, exists, content@));
    assert(strs(created_paths@) =~= strs(c0) + created(path@, exists));
}

/// Plans the `.gitignore` at `path`, whose content is `existing` when it
/// exists; returns whether an entry had to be added.
pub fn plan_gitignore(
    path: String,
    existing: Option<&str>,
    actions: &mut Vec<InitAction>,
    created_paths: &mut Vec<String>,
) -> (updated: bool)
    ensures
        updated == entries_missing(opt_str_view(existing)),
        action_views(final(actions)@) == action_views(old(actions)@) + gitignore_actions(
            path@,
            opt_str_view(existing),
        ),
        strs(final(created_paths)@) == strs(old(created_paths)@) + created(path@, existing is Some),
{
    let ghost a0 = old(actions)@;
    let ghost c0 = old(created_paths)@;
    let merged = merge_gitignore(existing);
    let existed = existing.is_some();
    if merged.updated || !existed {
        let p = path.clone();
        actions.push(InitAction::WriteFile(p, merged.content));
        if !existed {
            created_paths.push(path);
        }
    }
    assert(action_views(actions@) =~= action_views(a0) + gitignore_actions(
        path@,
        opt_str_view(existing),
    ));
    assert(strs(created_paths@) =~= strs(c0) + created(path@, existing is Some));
    merged.updated
}

} // verus!
