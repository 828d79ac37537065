//! The first layout of a Telescope workspace, with `reports` and
//! `.telescope/evals` directories and a config that names a base URL.

use vstd::prelude::*;
use crate::text::{opt_view, opt_str_view};
use crate::gitignore::{entries_missing};
use crate::plan::{
    action_views, created, dir_actions, file_actions, gitignore_actions, plan_dir, plan_file,
    plan_gitignore, ActionView, InitAction,
};
use crate::storage::{gitignore_after_init};
use crate::text::{join_path, join_path_spec, strs};

verus! {

broadcast use vstd::string::group_string_axioms;

pub const DEFAULT_CONFIG: &'static str = "[project]
name = \"my-telescope-project\"
description = \"Describe your evaluation focus here\"

[target]
base_url = \"https://api.openai.com/v1\"
model = \"gpt-4o-mini\"
";

/// Paths of a workspace, relative to its root.
pub struct ProjectLayout<'a> {
    root: &'a str,
}

/// What `init` created and changed.
#[derive(Debug)]
pub struct InitReport {
    pub created_paths: Vec<String>,
    pub gitignore_updated: bool,
}

/// What exists in the workspace before `init`: each flag says whether the
/// path exists, and `gitignore` holds the content of `.gitignore` when it does.
#[derive(Debug)]
pub struct InitProbe {
    pub benchmarks_exists: bool,
    pub metrics_exists: bool,
    pub reports_exists: bool,
    pub runs_exists: bool,
    pub evals_exists: bool,
    pub config_exists: bool,
    pub gitignore: Option<String>,
}

/// What `init` does on disk, in order, and what it reports.
#[derive(Debug)]
pub struct InitPlan {
    pub actions: Vec<InitAction>,
    pub report: InitReport,
}

impl<'a> ProjectLayout<'a> {
    /// The workspace root.
    pub closed spec fn root_view(&self) -> Seq<char> {
        self.root@
    }

    /// `rel` under the workspace root.
    pub open spec fn under(&self, rel: Seq<char>) -> Seq<char> {
        join_path_spec(self.root_view(), rel)
    }

    pub fn new(root: &'a str) -> (layout: Self)
        ensures
            layout.root_view() == root@,
    {
        Self { root }
    }

    fn path(&self, rel: &str) -> (p: String)
        ensures
            p@ == self.under(rel@),
    {
        join_path(self.root, rel)
    }

    /// The actions of `init`, given what exists.
    pub open spec fn init_actions(&self, probe: InitProbe) -> Seq<ActionView> {
        dir_actions(self.under("benchmarks"@), probe.benchmarks_exists) + dir_actions(
            self.under("metrics"@),
            probe.metrics_exists,
        ) + dir_actions(self.under("reports"@), probe.reports_exists) + dir_actions(
            self.under(".telescope/runs"@),
            probe.runs_exists,
        ) + dir_actions(self.under(".telescope/evals"@), probe.evals_exists) + file_actions(
            self.under("telescope.toml"@),
            probe.config_exists,
            DEFAULT_CONFIG@,
        ) + gitignore_actions(self.under(".gitignore"@), opt_view(probe.gitignore))
    }

    /// The paths that `init` creates, given what exists, in creation order.
    pub open spec fn init_created(&self, probe: InitProbe) -> Seq<Seq<char>> {
        created(self.under("benchmarks"@), probe.benchmarks_exists) + created(
            self.under("metrics"@),
            probe.metrics_exists,
        ) + created(self.under("reports"@), probe.reports_exists) + created(
            self.under(".telescope/runs"@),
            probe.runs_exists,
        ) + created(self.under(".telescope/evals"@), probe.evals_exists) + created(
            self.under("telescope.toml"@),
            probe.config_exists,
        ) + created(self.under(".gitignore"@), probe.gitignore is Some)
    }

    /// Plans the scaffolding of the workspace from what already exists: the
    /// `benchmarks`, `metrics`, `reports`, `.telescope/runs` and
    /// `.telescope/evals` directories, the `telescope.toml` config and the
    /// `.gitignore` entries, each only where it is missing.
    pub fn init(&self, probe: &InitProbe) -> (plan: InitPlan)
        ensures
            action_views(plan.actions@) == self.init_actions(*probe),
            strs(plan.report.created_paths@) == self.init_created(*probe),
            plan.report.gitignore_updated == entries_missing(opt_view(probe.gitignore)),
    {
        let mut actions: Vec<InitAction> = Vec::new();
        let mut created_paths: Vec<String> = Vec::new();
        assert(action_views(actions@) =~= Seq::<ActionView>::empty());
        assert(strs(created_paths@) =~= Seq::<Seq<char>>::empty());
        self.ensure_dir("benchmarks", probe.benchmarks_exists, &mut actions, &mut created_paths);
        self.ensure_dir("metrics", probe.metrics_exists, &mut actions, &mut created_paths);
        self.ensure_dir("reports", probe.reports_exists, &mut actions, &mut created_paths);
        self.ensure_dir(".telescope/runs", probe.runs_exists, &mut actions, &mut created_paths);
        self.ensure_dir(".telescope/evals", probe.evals_exists, &mut actions, &mut created_paths);
        self.ensure_config(probe.config_exists, &mut actions, &mut created_paths);
        let existing = match &probe.gitignore {
            Some(content) => Some(content.as_str()),
            None => None,
        };
        assert(opt_str_view(existing) == opt_view(probe.gitignore));
        let gitignore_updated = self.ensure_gitignore(existing, &mut actions, &mut created_paths);
        proof {
            assert(action_views(actions@) =~= self.init_actions(*probe));
            assert(strs(created_paths@) =~= self.init_created(*probe));
        }
        InitPlan { actions, report: InitReport { created_paths, gitignore_updated } }
    }

    /// Initializing a workspace that `init` has set up plans nothing: when
    /// every path that the first `init` ensured exists and `.gitignore` holds
    /// what the first `init` left there, the second creates nothing, writes
    /// nothing and reports the `.gitignore` as not updated.
    pub proof fn lemma_init_idempotent(&self, before: InitProbe, after: InitProbe)
        requires
            after.benchmarks_exists,
            after.metrics_exists,
            after.reports_exists,
            after.runs_exists,
            after.evals_exists,
            after.config_exists,
            opt_view(after.gitignore) == Some(
                gitignore_after_init(opt_view(before.gitignore)),
            ),
        ensures
            self.init_actions(after) == Seq::<ActionView>::empty(),
            self.init_created(after) == Seq::<Seq<char>>::empty(),
            !entries_missing(opt_view(after.gitignore)),
    {
        let g = opt_view(before.gitignore);
        if entries_missing(g) || g is None {
            crate::gitignore::lemma_gitignore_idempotent(g);
        }
        assert(self.init_actions(after) =~= Seq::<ActionView>::empty());
        assert(self.init_created(after) =~= Seq::<Seq<char>>::empty());
    }

    fn ensure_dir(
        &self,
        relative: &str,
        exists: bool,
        actions: &mut Vec<InitAction>,
        created_paths: &mut Vec<String>,
    )
        ensures
            action_views(final(actions)@) == action_views(old(actions)@) + dir_actions(
                self.under(relative@),
                exists,
            ),
            strs(final(created_paths)@) == strs(old(created_paths)@) + created(
                self.under(relative@),
                exists,
            ),
    {
        plan_dir(self.path(relative), exists, actions, created_paths);
    }

    fn ensure_config(&self, exists: bool, actions: &mut Vec<InitAction>, created_paths: &mut Vec<String>)
        ensures
            action_views(final(actions)@) == action_views(old(actions)@) + file_actions(
                self.under("telescope.toml"@),
                exists,
                DEFAULT_CONFIG@,
            ),
            strs(final(created_paths)@) == strs(old(created_paths)@) + created(
                self.under("telescope.toml"@),
                exists,
            ),
    {
        plan_file(self.path("telescope.toml"), exists, DEFAULT_CONFIG, actions, created_paths);
    }

    fn ensure_gitignore(
        &self,
        existing: Option<&str>,
        actions: &mut Vec<InitAction>,
        created_paths: &mut Vec<String>,
    ) -> (updated: bool)
        ensures
            updated == entries_missing(opt_str_view(existing)),
            action_views(final(actions)@) == action_views(old(actions)@) + gitignore_actions(
                self.under(".gitignore"@),
                opt_str_view(existing),
            ),
            strs(final(created_paths)@) == strs(old(created_paths)@) + created(
                self.under(".gitignore"@),
                existing is Some,
            ),
    {
        plan_gitignore(self.path(".gitignore"), existing, actions, created_paths)
    }
}

} // verus!
