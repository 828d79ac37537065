//! The layout of a Telescope workspace: where its directories and logs are,
//! what `init` creates, which block files are loaded, and which run log is
//! the latest.

use vstd::prelude::*;
use crate::text::{opt_view, opt_str_view};
use crate::calendar::{in_stamp_range, is_stamp_of, lemma_lex_between, lemma_stamps_sort_by_time, reading_millis};
use crate::clock::{self, compact_stamp, stamp_char, ClockReading};
use crate::error::{err_view, AppError, ErrorView, IoError};
use crate::gitignore::{entries_missing};
use crate::plan::{
    action_views, created, dir_actions, file_actions, gitignore_actions, plan_dir, plan_file,
    plan_gitignore, InitAction,
};
use crate::text::{
    chars_of, file_name, file_name_spec, is_json_file, join_path, join_path_spec, json_file_spec,
    less_than, lex_lt, string_from_chars, strs,
};

verus! {

broadcast use vstd::string::group_string_axioms;

pub const DEFAULT_CONFIG: &'static str = "[project]
name = \"my-telescope-project\"
description = \"Describe your evaluation focus here\"

[target]
model = \"llama3.2:3b\"
";

pub const EXAMPLE_BENCHMARK: &'static str = "{
  \"metadata\": {
    \"id\": \"example-block\",
    \"description\": \"An example benchmark block\",
    \"version\": \"1.0\",
    \"model\": \"llama3.2:3b\"
  },
  \"prompts\": {
    \"system\": \"You are a helpful assistant.\"
  },
  \"dataset\": [
    {
      \"input\": \"Hello, how are you?\",
      \"expected\": \"I am fine, thank you.\"
    }
  ]
}";

pub const ENV_EXAMPLE_CONTENT: &'static str = "# Telescope Environment Configuration
# 
# Endpoint for OpenAI-compatible LLM API (default: Ollama)
OPENAI_API_COMPATIBLE_LLM_ENDPOINT=http://127.0.0.1:11434

# Optional: API key for the LLM service (not required for local Ollama)
# OPENAI_API_KEY=your-api-key-here
";

/// Paths of a workspace, relative to its root.
pub struct ProjectLayout<'a> {
    root: &'a str,
}

/// What `init` created and changed.
#[derive(Debug)]
pub struct InitReport {
    pub created_paths: Vec<String>,
    pub gitignore_updated: bool,
    pub git_initialized: bool,
}

/// What exists in the workspace before `init`: each flag says whether the
/// path exists, and `gitignore` holds the content of `.gitignore` when it does.
#[derive(Debug)]
pub struct InitProbe {
    pub benchmarks_exists: bool,
    pub metrics_exists: bool,
    pub runs_exists: bool,
    pub config_exists: bool,
    pub example_block_exists: bool,
    pub gitignore: Option<String>,
    pub env_example_exists: bool,
    pub env_exists: bool,
    pub git_dir_exists: bool,
}

/// What `init` does on disk, in order, and what it reports.
#[derive(Debug)]
pub struct InitPlan {
    pub actions: Vec<InitAction>,
    pub created_paths: Vec<String>,
    pub gitignore_updated: bool,
    /// Whether `git init` must run in the root: there is no `.git` yet.
    pub git_init_needed: bool,
}

/// How running `git init` in the root went.
#[derive(Debug)]
pub enum GitOutcome {
    /// The command ran, and exited successfully or not, writing `stderr`.
    Completed { success: bool, stderr: Vec<u8> },
    /// No `git` command was found.
    NotFound,
    /// The command could not be started for another reason.
    Failed(IoError),
}

/// A store of items, each content under an id.
///
/// Each implementation says, by its own spec functions, what its methods do.
pub trait Storage: Sized {
    /// What `add_item(id, content)` does, from `self` to `after`, returning `r`.
    spec fn add_item_post(
        &self,
        after: &Self,
        id: Seq<char>,
        content: Seq<char>,
        r: Result<(), ErrorView>,
    ) -> bool;

    /// What `list_items` returns.
    spec fn list_items_post(&self, r: Result<Seq<Seq<char>>, ErrorView>) -> bool;

    /// What `delete_item(id)` does, from `self` to `after`, returning `r`.
    spec fn delete_item_post(&self, after: &Self, id: Seq<char>, r: Result<(), ErrorView>) -> bool;

    fn add_item(&mut self, id: &str, content: &str) -> (r: Result<(), AppError>)
        ensures
            old(self).add_item_post(final(self), id@, content@, err_view(r)),
    ;

    fn list_items(&self) -> (r: Result<Vec<String>, AppError>)
        ensures
            self.list_items_post(list_view(r)),
    ;

    fn delete_item(&mut self, id: &str) -> (r: Result<(), AppError>)
        ensures
            old(self).delete_item_post(final(self), id@, err_view(r)),
    ;
}

/// A list of items with its error taken by its view.
pub open spec fn list_view(r: Result<Vec<String>, AppError>) -> Result<Seq<Seq<char>>, ErrorView> {
    match r {
        Ok(v) => Ok(strs(v@)),
        Err(e) => Err(e@),
    }
}

/// The actions of `init` in the workspace at `root`, given what exists.
pub open spec fn init_actions_at(root: Seq<char>, probe: InitProbe) -> Seq<crate::plan::ActionView> {
        dir_actions(join_path_spec(root, "benchmarks"@), probe.benchmarks_exists) + dir_actions(
            join_path_spec(root, "metrics"@),
            probe.metrics_exists,
        ) + dir_actions(join_path_spec(root, ".telescope/runs"@), probe.runs_exists) + file_actions(
            join_path_spec(root, "telescope.toml"@),
            probe.config_exists,
            DEFAULT_CONFIG@,
        ) + file_actions(
            join_path_spec(root, "benchmarks/example.json"@),
            probe.example_block_exists,
            EXAMPLE_BENCHMARK@,
        ) + gitignore_actions(join_path_spec(root, ".gitignore"@), opt_view(probe.gitignore))
            + file_actions(join_path_spec(root, ".env.example"@), probe.env_example_exists, ENV_EXAMPLE_CONTENT@)
            + file_actions(join_path_spec(root, ".env"@), probe.env_exists, ENV_EXAMPLE_CONTENT@)
    }

/// The paths that `init` creates in the workspace at `root`, given what exists, in creation order.
pub open spec fn init_created_at(root: Seq<char>, probe: InitProbe) -> Seq<Seq<char>> {
        created(join_path_spec(root, "benchmarks"@), probe.benchmarks_exists) + created(
            join_path_spec(root, "metrics"@),
            probe.metrics_exists,
        ) + created(join_path_spec(root, ".telescope/runs"@), probe.runs_exists) + created(
            join_path_spec(root, "telescope.toml"@),
            probe.config_exists,
        ) + created(join_path_spec(root, "benchmarks/example.json"@), probe.example_block_exists) + created(
            join_path_spec(root, ".gitignore"@),
            probe.gitignore is Some,
        ) + created(join_path_spec(root, ".env.example"@), probe.env_example_exists) + created(
            join_path_spec(root, ".env"@),
            probe.env_exists,
        )
    }

/// The content of `.gitignore` after `init`, from its content before
/// (`None` when there was no file): rewritten when an entry was missing or
/// there was no file, otherwise unchanged.
pub open spec fn gitignore_after_init(before: Option<Seq<char>>) -> Seq<char> {
    if entries_missing(before) || before is None {
        crate::text::render_lines(crate::gitignore::merged_lines(before))
    } else {
        before->0
    }
}

/// After `init`, the `.gitignore` lists both `.telescope/` and `.env` among
/// its trimmed lines, whatever it held before.
pub proof fn lemma_init_gitignore_lists_entries(before: Option<Seq<char>>)
    ensures
        crate::gitignore::existing_lines(Some(gitignore_after_init(before))).contains(
            crate::gitignore::telescope_entry(),
        ),
        crate::gitignore::existing_lines(Some(gitignore_after_init(before))).contains(
            crate::gitignore::env_entry(),
        ),
{
    crate::gitignore::lemma_gitignore_ends_with_entries(before);
}

/// Initializing a workspace that `init` has set up plans nothing: when every
/// path that the first `init` ensured exists and `.gitignore` holds what the
/// first `init` left there, the second creates nothing, writes nothing and
/// reports the `.gitignore` as not updated.
pub proof fn lemma_init_idempotent(root: Seq<char>, before: InitProbe, after: InitProbe)
    requires
        after.benchmarks_exists,
        after.metrics_exists,
        after.runs_exists,
        after.config_exists,
        after.example_block_exists,
        after.env_example_exists,
        after.env_exists,
        opt_view(after.gitignore) == Some(gitignore_after_init(opt_view(before.gitignore))),
    ensures
        init_actions_at(root, after) == Seq::<crate::plan::ActionView>::empty(),
        init_created_at(root, after) == Seq::<Seq<char>>::empty(),
        !entries_missing(opt_view(after.gitignore)),
{
    let g = opt_view(before.gitignore);
    if entries_missing(g) || g is None {
        crate::gitignore::lemma_gitignore_idempotent(g);
    }
    assert(init_actions_at(root, after) =~= Seq::<crate::plan::ActionView>::empty());
    assert(init_created_at(root, after) =~= Seq::<Seq<char>>::empty());
}

/// A relative path joined onto `root` is `root`, a separator that depends on
/// `root` alone, and the path: it starts with `root`, and two different
/// relative paths give two different joined paths.
proof fn lemma_join_relative(root: Seq<char>, r1: Seq<char>, r2: Seq<char>)
    requires
        r1.len() > 0 && r1[0] != '/',
        r2.len() > 0 && r2[0] != '/',
    ensures
        root.is_prefix_of(join_path_spec(root, r1)),
        join_path_spec(root, r1).len() > root.len(),
        join_path_spec(root, r1) == join_path_spec(root, r2) ==> r1 == r2,
{
    let pfx = if root.len() == 0 || root.last() == '/' {
        root
    } else {
        root + seq!['/']
    };
    assert(join_path_spec(root, r1) =~= pfx + r1);
    assert(join_path_spec(root, r2) =~= pfx + r2);
    assert((pfx + r1).subrange(0, root.len() as int) =~= root);
    assert((pfx + r1).skip(pfx.len() as int) =~= r1);
    assert((pfx + r2).skip(pfx.len() as int) =~= r2);
}

/// Appending a create step to paths without duplicates keeps them without
/// duplicates where the step's path is not among them yet.
proof fn lemma_created_extends(acc: Seq<Seq<char>>, path: Seq<char>, exists: bool)
    requires
        acc.no_duplicates(),
        !acc.contains(path),
    ensures
        (acc + created(path, exists)).no_duplicates(),
        forall|x: Seq<char>| #[trigger]
            (acc + created(path, exists)).contains(x) ==> acc.contains(x) || x == path,
{
    let all = acc + created(path, exists);
    assert forall|x: Seq<char>| #[trigger] all.contains(x) implies acc.contains(x) || x == path by {
        let k = choose|k: int| 0 <= k < all.len() && all[k] == x;
        if k < acc.len() {
            assert(acc[k] == x);
        }
    }
    assert forall|i: int, j: int| 0 <= i < all.len() && 0 <= j < all.len() && i != j implies all[i]
        != all[j] by {
        if i < acc.len() && j < acc.len() {
            assert(acc[i] == all[i] && acc[j] == all[j]);
        } else if i < acc.len() {
            assert(acc.contains(all[i]));
        } else if j < acc.len() {
            assert(acc.contains(all[j]));
        }
    }
}

/// `init` creates each path at most once, and only paths under the workspace
/// root: every created path starts with the root and is longer than it.
pub proof fn lemma_init_creates_distinct_paths_under_root(root: Seq<char>, probe: InitProbe)
    ensures
        init_created_at(root, probe).no_duplicates(),
        forall|i: int|
            0 <= i < init_created_at(root, probe).len() ==> root.is_prefix_of(
                #[trigger] init_created_at(root, probe)[i],
            ) && init_created_at(root, probe)[i].len() > root.len(),
{
    reveal_strlit("benchmarks");
    reveal_strlit("metrics");
    reveal_strlit(".telescope/runs");
    reveal_strlit("telescope.toml");
    reveal_strlit("benchmarks/example.json");
    reveal_strlit(".gitignore");
    reveal_strlit(".env.example");
    reveal_strlit(".env");
    let rels = seq![
        "benchmarks"@,
        "metrics"@,
        ".telescope/runs"@,
        "telescope.toml"@,
        "benchmarks/example.json"@,
        ".gitignore"@,
        ".env.example"@,
        ".env"@,
    ];
    let exists = seq![
        probe.benchmarks_exists,
        probe.metrics_exists,
        probe.runs_exists,
        probe.config_exists,
        probe.example_block_exists,
        probe.gitignore is Some,
        probe.env_example_exists,
        probe.env_exists,
    ];
    assert forall|a: int, b: int| 0 <= a < 8 && 0 <= b < 8 implies (a != b ==> rels[a] != rels[b])
        && rels[a].len() > 0 && rels[a][0] != '/' by {
        if a != b && rels[a] == rels[b] {
            assert(rels[a].len() == rels[b].len());
            assert(rels[a][0] == rels[b][0]);
            assert(rels[a][1] == rels[b][1]);
        }
    }
    let paths = Seq::new(8, |k: int| join_path_spec(root, rels[k]));
    assert forall|a: int, b: int| 0 <= a < 8 && 0 <= b < 8 && a != b implies paths[a] != paths[b] by {
        lemma_join_relative(root, rels[a], rels[b]);
    }
    lemma_created_prefix(paths, exists, 8);
    let acc = init_created_prefix(paths, exists, 8);
    assert(init_created_at(root, probe) =~= acc) by {
        reveal_with_fuel(init_created_prefix, 9);
    }
    assert forall|i: int| 0 <= i < acc.len() implies root.is_prefix_of(#[trigger] acc[i]) && acc[i].len()
        > root.len() by {
        assert(acc.contains(acc[i]));
        let m = choose|m: int| 0 <= m < 8 && acc[i] == paths[m];
        lemma_join_relative(root, rels[m], rels[m]);
    }
}

/// The first `k` create steps of steps with distinct paths create each path
/// at most once, and only their own paths.
proof fn lemma_created_prefix(paths: Seq<Seq<char>>, exists: Seq<bool>, k: int)
    requires
        0 <= k <= paths.len(),
        forall|a: int, b: int|
            0 <= a < paths.len() && 0 <= b < paths.len() && a != b ==> paths[a] != paths[b],
    ensures
        init_created_prefix(paths, exists, k).no_duplicates(),
        forall|x: Seq<char>| #[trigger]
            init_created_prefix(paths, exists, k).contains(x) ==> exists|m: int|
                0 <= m < k && x == paths[m],
    decreases k,
{
    if k > 0 {
        let acc = init_created_prefix(paths, exists, k - 1);
        lemma_created_prefix(paths, exists, k - 1);
        if acc.contains(paths[k - 1]) {
            let m = choose|m: int| 0 <= m < k - 1 && paths[k - 1] == #[trigger] paths[m];
            assert(paths[m] != paths[k - 1]);
        }
        lemma_created_extends(acc, paths[k - 1], exists[k - 1]);
        assert forall|x: Seq<char>| #[trigger]
            init_created_prefix(paths, exists, k).contains(x) implies exists|m: int|
                0 <= m < k && x == paths[m] by {
            if x != paths[k - 1] {
                assert(acc.contains(x));
            }
        }
    }
}

/// The paths that the first `k` create steps create: each step's path where
/// it did not exist.
pub open spec fn init_created_prefix(paths: Seq<Seq<char>>, exists: Seq<bool>, k: int) -> Seq<Seq<char>>
    decreases k,
{
    if k <= 0 {
        Seq::empty()
    } else {
        init_created_prefix(paths, exists, k - 1) + created(paths[k - 1], exists[k - 1])
    }
}

/// `path` names an entry directly in the directory `dir`: `dir`, a `'/'`,
/// then a nonempty name without `'/'`.
pub open spec fn lies_directly_in(dir: Seq<char>, path: Seq<char>) -> bool {
    &&& path.len() > dir.len() + 1
    &&& path.subrange(0, dir.len() as int) == dir
    &&& path[dir.len() as int] == '/'
    &&& !path.skip(dir.len() + 1int).contains('/')
}

/// The latest run log is determined by the entries: two paths that both
/// meet the contract of `latest_run_file` for the same entries are equal.
pub proof fn lemma_latest_is_unique(entries: Seq<Seq<char>>, p: Seq<char>, q: Seq<char>)
    requires
        entries.contains(p),
        entries.contains(q),
        forall|i: int| 0 <= i < entries.len() ==> !lex_lt(p, #[trigger] entries[i]),
        forall|i: int| 0 <= i < entries.len() ==> !lex_lt(q, #[trigger] entries[i]),
    ensures
        p == q,
{
    let i = choose|i: int| 0 <= i < entries.len() && entries[i] == p;
    let j = choose|j: int| 0 <= j < entries.len() && entries[j] == q;
    assert(!lex_lt(p, entries[j]));
    assert(!lex_lt(q, entries[i]));
    crate::text::lemma_lex_total(p, q);
}

/// What the result of `git init` maps to.
pub open spec fn init_git_result(outcome: GitOutcome) -> Result<bool, ErrorView> {
    match outcome {
        GitOutcome::Completed { success, stderr } => if success {
            Ok(true)
        } else {
            Err(ErrorView::Config("Failed to initialize git repository: "@ + lossy_utf8(stderr@)))
        },
        GitOutcome::NotFound => Err(
            ErrorView::Config(
                "git command not found. Please install Git to initialize a repository."@,
            ),
        ),
        GitOutcome::Failed(e) => Err(ErrorView::Io(e.kind, e.message@)),
    }
}

/// A name for what `String::from_utf8_lossy` returns for `bytes`.
pub uninterp spec fn lossy_utf8(bytes: Seq<u8>) -> Seq<char>;

/// The text of `bytes`, by `String::from_utf8_lossy`: each invalid sequence
/// becomes U+FFFD.
///
/// Trusted: the result is named by `lossy_utf8`, and is the decoded text
/// when `bytes` is valid UTF-8, as the documentation of `from_utf8_lossy`
/// says.
#[verifier::external_body]
fn utf8_lossy(bytes: &[u8]) -> (s: String)
    ensures
        s@ == lossy_utf8(bytes@),
        vstd::utf8::valid_utf8(bytes@) ==> s@ == vstd::utf8::decode_utf8(bytes@),
{
    String::from_utf8_lossy(bytes).into_owned()
}

impl<'a> ProjectLayout<'a> {
    /// The workspace root.
    pub closed spec fn root_view(&self) -> Seq<char> {
        self.root@
    }

    /// `rel` under the workspace root.
    pub open spec fn under(&self, rel: Seq<char>) -> Seq<char> {
        join_path_spec(self.root_view(), rel)
    }

    pub fn new(root: &'a str) -> (layout: Self)
        ensures
            layout.root_view() == root@,
    {
        Self { root }
    }

    fn path(&self, rel: &str) -> (p: String)
        ensures
            p@ == self.under(rel@),
    {
        join_path(self.root, rel)
    }

    /// Where run logs are written.
    pub fn runs_dir(&self) -> (p: String)
        ensures
            p@ == self.under(".telescope/runs"@),
    {
        self.path(".telescope/runs")
    }

    /// Where benchmark blocks are read from.
    pub fn benchmarks_dir(&self) -> (p: String)
        ensures
            p@ == self.under("benchmarks"@),
    {
        self.path("benchmarks")
    }

    /// Where metric blocks are read from.
    pub fn metrics_dir(&self) -> (p: String)
        ensures
            p@ == self.under("metrics"@),
    {
        self.path("metrics")
    }

    /// Where eval logs are written.
    pub fn evals_dir(&self) -> (p: String)
        ensures
            p@ == self.under(".telescope/evals"@),
    {
        self.path(".telescope/evals")
    }

    /// Where reports are written.
    pub fn reports_dir(&self) -> (p: String)
        ensures
            p@ == self.under("reports"@),
    {
        self.path("reports")
    }

    pub fn config_path(&self) -> (p: String)
        ensures
            p@ == self.under("telescope.toml"@),
    {
        self.path("telescope.toml")
    }

    pub fn example_block_path(&self) -> (p: String)
        ensures
            p@ == self.under("benchmarks/example.json"@),
    {
        self.path("benchmarks/example.json")
    }

    pub fn gitignore_path(&self) -> (p: String)
        ensures
            p@ == self.under(".gitignore"@),
    {
        self.path(".gitignore")
    }

    pub fn env_example_path(&self) -> (p: String)
        ensures
            p@ == self.under(".env.example"@),
    {
        self.path(".env.example")
    }

    pub fn env_path(&self) -> (p: String)
        ensures
            p@ == self.under(".env"@),
    {
        self.path(".env")
    }

    pub fn git_dir_path(&self) -> (p: String)
        ensures
            p@ == self.under(".git"@),
    {
        self.path(".git")
    }

    /// The path of the run log named after the clock reading `stamp`.
    pub open spec fn run_path_spec(&self, stamp: Seq<char>) -> Seq<char> {
        join_path_spec(self.under(".telescope/runs"@), "run_"@ + stamp + ".jsonl"@)
    }

    /// The path of the run log named after the clock reading `stamp`.
    pub fn run_path_for(&self, stamp: &str) -> (p: String)
        ensures
            p@ == self.run_path_spec(stamp@),
    {
        let mut name = chars_of("run_");
        let mut s = chars_of(stamp);
        name.append(&mut s);
        let mut ext = chars_of(".jsonl");
        name.append(&mut ext);
        let name = string_from_chars(name.as_slice());
        join_path(self.runs_dir().as_str(), name.as_str())
    }

    /// A new run log path, named after the clock reading `now`: in the runs
    /// directory, `run_` then the compact stamp of `now` then `.jsonl`;
    /// `None` where `chrono` has no instant for the reading.
    pub fn next_run_path(&self, now: &ClockReading) -> (p: Option<String>)
        ensures
            opt_view(p) == match compact_stamp(now.secs, now.nanos) {
                Some(stamp) => Some(self.run_path_spec(stamp)),
                None => None,
            },
            p is Some ==> forall|i: int|
                0 <= i < compact_stamp(now.secs, now.nanos)->0.len() ==> stamp_char(
                    #[trigger] compact_stamp(now.secs, now.nanos)->0[i],
                ),
            p matches Some(path) ==> lies_directly_in(self.under(".telescope/runs"@), path@),
            in_stamp_range(now.secs as int, now.nanos as int) ==> (p is Some && is_stamp_of(
                compact_stamp(now.secs, now.nanos)->0,
                now.secs as int,
                now.nanos as int,
            )),
    {
        match clock::compact(now) {
            Some(stamp) => {
                let path = self.run_path_for(stamp.as_str());
                proof {
                    self.lemma_run_path_in_runs_dir(stamp@);
                    let dir = self.under(".telescope/runs"@);
                    let name = "run_"@ + stamp@ + ".jsonl"@;
                    reveal_strlit("run_");
                    assert(name.len() > 0);
                    assert(path@.len() == dir.len() + 1 + name.len());
                    assert(path@[dir.len() as int] == '/');
                    assert(path@.subrange(0, dir.len() as int) =~= dir);
                    assert(path@.skip(dir.len() + 1int) =~= name);
                }
                Some(path)
            },
            None => None,
        }
    }

    /// A run log lies directly in the runs directory: when the stamp holds
    /// only stamp characters, the run path is the runs directory, a `'/'`, and
    /// a file name without `'/'`.
    pub proof fn lemma_run_path_in_runs_dir(&self, stamp: Seq<char>)
        requires
            forall|i: int| 0 <= i < stamp.len() ==> stamp_char(#[trigger] stamp[i]),
        ensures
            self.run_path_spec(stamp) == self.under(".telescope/runs"@) + seq!['/'] + ("run_"@ + stamp
                + ".jsonl"@),
            !("run_"@ + stamp + ".jsonl"@).contains('/'),
    {
        reveal_strlit(".telescope/runs");
        reveal_strlit("run_");
        reveal_strlit(".jsonl");
        let rel = ".telescope/runs"@;
        let dir = self.under(rel);
        assert(dir.len() > 0 && dir.last() == 's') by {
            let root = self.root_view();
            if root.len() == 0 || root.last() == '/' {
                assert(dir == root + rel);
            } else {
                assert(dir == root + seq!['/'] + rel);
            }
        }
        let name = "run_"@ + stamp + ".jsonl"@;
        assert(name[0] == 'r');
        if name.contains('/') {
            let k = choose|k: int| 0 <= k < name.len() && name[k] == '/';
            if 4 <= k < 4 + stamp.len() {
                assert(name[k] == stamp[k - 4]);
                assert(stamp_char(stamp[k - 4]));
            }
        }
    }

    /// A later run sorts later: of two clock readings in the years 0 to 9999,
    /// outside leap seconds, the first at least a millisecond before the
    /// second, the run log named after the first comes before the run log
    /// named after the second in the order of characters, so
    /// `latest_run_file` picks the later run.
    pub proof fn lemma_later_run_sorts_later(
        &self,
        stamp1: Seq<char>,
        t1: ClockReading,
        stamp2: Seq<char>,
        t2: ClockReading,
    )
        requires
            is_stamp_of(stamp1, t1.secs as int, t1.nanos as int),
            is_stamp_of(stamp2, t2.secs as int, t2.nanos as int),
            reading_millis(t1.secs as int, t1.nanos as int) < reading_millis(
                t2.secs as int,
                t2.nanos as int,
            ),
        ensures
            lex_lt(self.run_path_spec(stamp1), self.run_path_spec(stamp2)),
    {
        lemma_stamps_sort_by_time(
            stamp1,
            t1.secs as int,
            t1.nanos as int,
            stamp2,
            t2.secs as int,
            t2.nanos as int,
        );
        reveal_strlit("run_");
        let dir = self.under(".telescope/runs"@);
        let pfx = if dir.len() == 0 || dir.last() == '/' {
            dir
        } else {
            dir + seq!['/']
        };
        let head = pfx + "run_"@;
        lemma_lex_between(head, stamp1, stamp2, ".jsonl"@, ".jsonl"@);
        assert(self.run_path_spec(stamp1) =~= head + stamp1 + ".jsonl"@);
        assert(self.run_path_spec(stamp2) =~= head + stamp2 + ".jsonl"@);
    }

    /// The eval log that belongs to the run log at `run_path`: the file of
    /// the same name in the evals directory.
    pub fn eval_path_for(&self, run_path: &str) -> (p: String)
        ensures
            p@ == join_path_spec(self.under(".telescope/evals"@), file_name_spec(run_path@)),
    {
        let name = string_from_chars(file_name(&chars_of(run_path)).as_slice());
        join_path(self.evals_dir().as_str(), name.as_str())
    }

    /// The path of the report named after the clock reading `stamp`.
    pub open spec fn report_path_spec(&self, stamp: Seq<char>) -> Seq<char> {
        join_path_spec(self.under("reports"@), "report_"@ + stamp + ".md"@)
    }

    /// A new report path, named after the clock reading `now`: in the
    /// reports directory, `report_` then the compact stamp of `now` then
    /// `.md`; `None` where `chrono` has no instant for the reading.
    pub fn next_report_path(&self, now: &ClockReading) -> (p: Option<String>)
        ensures
            opt_view(p) == match compact_stamp(now.secs, now.nanos) {
                Some(stamp) => Some(self.report_path_spec(stamp)),
                None => None,
            },
            p is Some ==> forall|i: int|
                0 <= i < compact_stamp(now.secs, now.nanos)->0.len() ==> stamp_char(
                    #[trigger] compact_stamp(now.secs, now.nanos)->0[i],
                ),
            in_stamp_range(now.secs as int, now.nanos as int) ==> (p is Some && is_stamp_of(
                compact_stamp(now.secs, now.nanos)->0,
                now.secs as int,
                now.nanos as int,
            )),
    {
        match clock::compact(now) {
            Some(stamp) => {
                let mut name = chars_of("report_");
                let mut s = chars_of(stamp.as_str());
                name.append(&mut s);
                let mut ext = chars_of(".md");
                name.append(&mut ext);
                let name = string_from_chars(name.as_slice());
                Some(join_path(self.reports_dir().as_str(), name.as_str()))
            },
            None => None,
        }
    }

    /// The actions of `init`, given what exists.
    pub open spec fn init_actions(&self, probe: InitProbe) -> Seq<crate::plan::ActionView> {
        init_actions_at(self.root_view(), probe)
    }

    /// The paths that `init` creates, given what exists, in creation order.
    pub open spec fn init_created(&self, probe: InitProbe) -> Seq<Seq<char>> {
        init_created_at(self.root_view(), probe)
    }

    /// Plans the scaffolding of the workspace from what already exists: the
    /// `benchmarks`, `metrics` and `.telescope/runs` directories, the
    /// `telescope.toml` config, an example block, the `.gitignore` entries,
    /// `.env.example` and `.env`, each only where it is missing; and `git init`
    /// where there is no `.git`.
    pub fn init(&self, probe: &InitProbe) -> (plan: InitPlan)
        ensures
            action_views(plan.actions@) == self.init_actions(*probe),
            strs(plan.created_paths@) == self.init_created(*probe),
            plan.gitignore_updated == entries_missing(opt_view(probe.gitignore)),
            plan.git_init_needed == !probe.git_dir_exists,
    {
        let mut actions: Vec<InitAction> = Vec::new();
        let mut created_paths: Vec<String> = Vec::new();
        assert(action_views(actions@) =~= Seq::<crate::plan::ActionView>::empty());
        assert(strs(created_paths@) =~= Seq::<Seq<char>>::empty());
        self.ensure_dir(self.benchmarks_dir(), probe.benchmarks_exists, &mut actions, &mut created_paths);
        self.ensure_dir(self.metrics_dir(), probe.metrics_exists, &mut actions, &mut created_paths);
        self.ensure_dir(self.runs_dir(), probe.runs_exists, &mut actions, &mut created_paths);
        self.ensure_config(probe.config_exists, &mut actions, &mut created_paths);
        self.ensure_example_block(probe.example_block_exists, &mut actions, &mut created_paths);
        let existing = match &probe.gitignore {
            Some(content) => Some(content.as_str()),
            None => None,
        };
        assert(opt_str_view(existing) == opt_view(probe.gitignore));
        let gitignore_updated = self.ensure_gitignore(existing, &mut actions, &mut created_paths);
        self.ensure_env_files(
            probe.env_example_exists,
            probe.env_exists,
            &mut actions,
            &mut created_paths,
        );
        proof {
            assert(action_views(actions@) =~= self.init_actions(*probe));
            assert(strs(created_paths@) =~= self.init_created(*probe));
        }
        InitPlan { actions, created_paths, gitignore_updated, git_init_needed: !probe.git_dir_exists }
    }

    /// How `init` ends, given its plan and, where `git init` ran, how it went:
    /// the report when git was not needed or succeeded, otherwise the error
    /// that the failure maps to.
    pub fn finish_init(&self, plan: InitPlan, git: Option<GitOutcome>) -> (r: Result<
        InitReport,
        AppError,
    >)
        ensures
            match git {
                None => r matches Ok(report) && !report.git_initialized,
                Some(outcome) => match (err_view(r), init_git_result(outcome)) {
                    (Ok(report), Ok(initialized)) => report.git_initialized == initialized,
                    (Err(e), Err(f)) => e == f,
                    _ => false,
                },
            },
            r matches Ok(report) ==> strs(report.created_paths@) == strs(plan.created_paths@)
                && report.gitignore_updated == plan.gitignore_updated,
    {
        let git_initialized = match git {
            None => false,
            Some(outcome) => match self.init_git_repo(outcome) {
                Ok(b) => b,
                Err(e) => {
                    return Err(e);
                },
            },
        };
        Ok(
            InitReport {
                created_paths: plan.created_paths,
                gitignore_updated: plan.gitignore_updated,
                git_initialized,
            },
        )
    }

    /// The result of `git init`, as `init` reports it.
    fn init_git_repo(&self, outcome: GitOutcome) -> (r: Result<bool, AppError>)
        ensures
            err_view(r) == init_git_result(outcome),
    {
        match outcome {
            GitOutcome::Completed { success, stderr } => {
                if success {
                    Ok(true)
                } else {
                    let mut m = chars_of("Failed to initialize git repository: ");
                    let mut e = chars_of(utf8_lossy(stderr.as_slice()).as_str());
                    m.append(&mut e);
                    let m = string_from_chars(m.as_slice());
                    assert(m@ == "Failed to initialize git repository: "@ + lossy_utf8(stderr@));
                    Err(AppError::ConfigError(m))
                }
            },
            GitOutcome::NotFound => Err(
                AppError::ConfigError(
                    "git command not found. Please install Git to initialize a repository.".to_string(),
                ),
            ),
            GitOutcome::Failed(e) => Err(AppError::Io(e)),
        }
    }

    /// The JSON block files of a directory whose entries are `listing`
    /// (`None` when the directory does not exist), in listing order.
    pub open spec fn block_files(listing: Option<Vec<String>>) -> Seq<Seq<char>> {
        match listing {
            Some(entries) => strs(entries@).filter(|p: Seq<char>| json_file_spec(p)),
            None => seq![],
        }
    }

    /// The benchmark block files to load, from the entries of the
    /// benchmarks directory (`None` when it does not exist).
    pub fn load_benchmarks(&self, listing: Option<Vec<String>>) -> (files: Vec<String>)
        ensures
            strs(files@) == Self::block_files(listing),
    {
        self.load_blocks(listing)
    }

    /// The metric block files to load, from the entries of the metrics
    /// directory (`None` when it does not exist).
    pub fn load_metrics(&self, listing: Option<Vec<String>>) -> (files: Vec<String>)
        ensures
            strs(files@) == Self::block_files(listing),
    {
        self.load_blocks(listing)
    }

    fn load_blocks(&self, listing: Option<Vec<String>>) -> (files: Vec<String>)
        ensures
            strs(files@) == Self::block_files(listing),
    {
        let mut files: Vec<String> = Vec::new();
        match listing {
            None => {
                assert(strs(files@) =~= Seq::<Seq<char>>::empty());
            },
            Some(entries) => {
                let ghost pred = |p: Seq<char>| json_file_spec(p);
                let mut i: usize = 0;
                assert(strs(entries@).take(0) =~= Seq::<Seq<char>>::empty());
                proof {
                    reveal(Seq::filter);
                }
                assert(strs(files@) =~= strs(entries@).take(0).filter(pred));
                while i < entries.len()
                    invariant
                        i <= entries.len(),
                        pred == (|p: Seq<char>| json_file_spec(p)),
                        strs(files@) == strs(entries@).take(i as int).filter(pred),
                    decreases entries.len() - i,
                {
                    let ghost before = files@;
                    let e = &entries[i];
                    let keep = is_json_file(e.as_str());
                    proof {
                        reveal(Seq::filter);
                        let t = strs(entries@).take(i + 1);
                        assert(t.drop_last() =~= strs(entries@).take(i as int));
                        assert(t.last() == e@);
                        assert(pred(e@) == keep);
                        if keep {
                            assert(t.filter(pred) == strs(entries@).take(i as int).filter(pred).push(e@));
                        } else {
                            assert(t.filter(pred) == strs(entries@).take(i as int).filter(pred));
                        }
                    }
                    if keep {
                        files.push(e.clone());
                        assert(strs(files@) =~= strs(before).push(e@));
                    }
                    i += 1;
                }
                assert(strs(entries@).take(entries.len() as int) =~= strs(entries@));
            },
        }
        files
    }

    /// The latest run log among the entries of the runs directory: the
    /// greatest path in the order of their characters, which is the order
    /// in which sorting the paths puts them last.
    pub fn latest_run_file(&self, entries: Vec<String>) -> (latest: Option<String>)
        ensures
            latest is None <==> entries@.len() == 0,
            latest matches Some(p) ==> strs(entries@).contains(p@) && forall|i: int|
                0 <= i < entries@.len() ==> !lex_lt(p@, #[trigger] entries@[i]@),
    {
        self.latest_file(&entries)
    }

    /// The run log that `eval` and `report` read: the latest among the
    /// entries of the runs directory, or a configuration error when there is
    /// none.
    pub fn latest_run_or_error(&self, entries: Vec<String>) -> (r: Result<String, AppError>)
        ensures
            r is Err <==> entries@.len() == 0,
            r matches Err(e) ==> e@ == ErrorView::Config("No run log found"@),
            r matches Ok(p) ==> strs(entries@).contains(p@) && forall|i: int|
                0 <= i < entries@.len() ==> !lex_lt(p@, #[trigger] entries@[i]@),
    {
        match self.latest_run_file(entries) {
            Some(p) => Ok(p),
            None => Err(AppError::ConfigError("No run log found".to_string())),
        }
    }

    fn latest_file(&self, entries: &Vec<String>) -> (latest: Option<String>)
        ensures
            latest is None <==> entries@.len() == 0,
            latest matches Some(p) ==> strs(entries@).contains(p@) && forall|i: int|
                0 <= i < entries@.len() ==> !lex_lt(p@, #[trigger] entries@[i]@),
    {
        if entries.len() == 0 {
            return None;
        }
        let mut best: usize = 0;
        let mut best_chars = chars_of(entries[0].as_str());
        let mut i: usize = 1;
        proof {
            crate::text::lemma_lex_irreflexive(entries@[0]@);
        }
        while i < entries.len()
            invariant
                1 <= i <= entries.len(),
                best < entries.len(),
                best_chars@ == entries@[best as int]@,
                forall|j: int| 0 <= j < i ==> !lex_lt(best_chars@, #[trigger] entries@[j]@),
            decreases entries.len() - i,
        {
            let e = chars_of(entries[i].as_str());
            if less_than(&best_chars, &e) {
                proof {
                    crate::text::lemma_lex_irreflexive(e@);
                    assert forall|j: int| 0 <= j < i + 1 implies !lex_lt(e@, #[trigger] entries@[j]@) by {
                        if j < i && lex_lt(e@, entries@[j]@) {
                            crate::text::lemma_lex_transitive(best_chars@, e@, entries@[j]@);
                        }
                    }
                }
                best = i;
                best_chars = e;
            }
            i += 1;
        }
        let p = entries[best].clone();
        assert(strs(entries@)[best as int] == p@);
        Some(p)
    }

    fn ensure_dir(
        &self,
        path: String,
        exists: bool,
        actions: &mut Vec<InitAction>,
        created_paths: &mut Vec<String>,
    )
        ensures
            action_views(final(actions)@) == action_views(old(actions)@) + dir_actions(path@, exists),
            strs(final(created_paths)@) == strs(old(created_paths)@) + created(path@, exists),
    {
        plan_dir(path, exists, actions, created_paths);
    }

    fn ensure_config(&self, exists: bool, actions: &mut Vec<InitAction>, created_paths: &mut Vec<String>)
        ensures
            action_views(final(actions)@) == action_views(old(actions)@) + file_actions(
                self.under("telescope.toml"@),
                exists,
                DEFAULT_CONFIG@,
            ),
            strs(final(created_paths)@) == strs(old(created_paths)@) + created(
                self.under("telescope.toml"@),
                exists,
            ),
    {
        plan_file(self.config_path(), exists, DEFAULT_CONFIG, actions, created_paths);
    }

    fn ensure_example_block(
        &self,
        exists: bool,
        actions: &mut Vec<InitAction>,
        created_paths: &mut Vec<String>,
    )
        ensures
            action_views(final(actions)@) == action_views(old(actions)@) + file_actions(
                self.under("benchmarks/example.json"@),
                exists,
                EXAMPLE_BENCHMARK@,
            ),
            strs(final(created_paths)@) == strs(old(created_paths)@) + created(
                self.under("benchmarks/example.json"@),
                exists,
            ),
    {
        plan_file(self.example_block_path(), exists, EXAMPLE_BENCHMARK, actions, created_paths);
    }

    fn ensure_gitignore(
        &self,
        existing: Option<&str>,
        actions: &mut Vec<InitAction>,
        created_paths: &mut Vec<String>,
    ) -> (updated: bool)
        ensures
            updated == entries_missing(opt_str_view(existing)),
            action_views(final(actions)@) == action_views(old(actions)@) + gitignore_actions(
                self.under(".gitignore"@),
                opt_str_view(existing),
            ),
            strs(final(created_paths)@) == strs(old(created_paths)@) + created(
                self.under(".gitignore"@),
                existing is Some,
            ),
    {
        plan_gitignore(self.gitignore_path(), existing, actions, created_paths)
    }

    fn ensure_env_files(
        &self,
        example_exists: bool,
        env_exists: bool,
        actions: &mut Vec<InitAction>,
        created_paths: &mut Vec<String>,
    )
        ensures
            action_views(final(actions)@) == action_views(old(actions)@) + file_actions(
                self.under(".env.example"@),
                example_exists,
                ENV_EXAMPLE_CONTENT@,
            ) + file_actions(self.under(".env"@), env_exists, ENV_EXAMPLE_CONTENT@),
            strs(final(created_paths)@) == strs(old(created_paths)@) + created(
                self.under(".env.example"@),
                example_exists,
            ) + created(self.under(".env"@), env_exists),
    {
        plan_file(self.env_example_path(), example_exists, ENV_EXAMPLE_CONTENT, actions, created_paths);
        plan_file(self.env_path(), env_exists, ENV_EXAMPLE_CONTENT, actions, created_paths);
    }
}

} // verus!
