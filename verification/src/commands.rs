//! Command entry points.

use vstd::prelude::*;
use crate::text::{opt_view};
use crate::plan::action_views;
use crate::gitignore::entries_missing;
use crate::storage::{init_actions_at, init_created_at, InitPlan, InitProbe, ProjectLayout};
use crate::text::strs;

verus! {

/// Plans the initialization of the workspace at `project_root`, given what
/// exists there.
pub fn init(project_root: &str, probe: &InitProbe) -> (plan: InitPlan)
    ensures
        action_views(plan.actions@) == init_actions_at(project_root@, *probe),
        strs(plan.created_paths@) == init_created_at(project_root@, *probe),
        plan.gitignore_updated == entries_missing(opt_view(probe.gitignore)),
        plan.git_init_needed == !probe.git_dir_exists,
{
    let layout = ProjectLayout::new(project_root);
    layout.init(probe)
}

} // verus!
