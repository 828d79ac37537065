use tls::clock::{compact, ClockReading};
use tls::error::{ErrorKind, IoError};
use tls::gitignore::merge_gitignore;
use tls::plan::InitAction;
use tls::storage::{GitOutcome, InitPlan, InitProbe, ProjectLayout};

fn fresh_probe() -> InitProbe {
    InitProbe {
        benchmarks_exists: false,
        metrics_exists: false,
        runs_exists: false,
        config_exists: false,
        example_block_exists: false,
        gitignore: None,
        env_example_exists: false,
        env_exists: false,
        git_dir_exists: false,
    }
}

fn written(plan: &InitPlan, path: &str) -> Option<String> {
    plan.actions.iter().find_map(|a| match a {
        InitAction::WriteFile(p, c) if p == path => Some(c.clone()),
        _ => None,
    })
}

fn created_dir(plan: &InitPlan, path: &str) -> bool {
    plan.actions.iter().any(|a| matches!(a, InitAction::CreateDir(p) if p == path))
}

/// The probe of the workspace after `plan` ran on a workspace probed as `before`.
fn probe_after(plan: &InitPlan, before: &InitProbe, gitignore_path: &str) -> InitProbe {
    InitProbe {
        benchmarks_exists: true,
        metrics_exists: true,
        runs_exists: true,
        config_exists: true,
        example_block_exists: true,
        gitignore: written(plan, gitignore_path).or_else(|| before.gitignore.clone()),
        env_example_exists: true,
        env_exists: true,
        git_dir_exists: true,
    }
}

#[test]
fn init_scaffolds_layout_and_config() {
    let layout = ProjectLayout::new("/work");
    let plan = tls::commands::init("/work", &fresh_probe());

    for path in ["benchmarks", "metrics", ".telescope/runs"] {
        assert!(created_dir(&plan, &format!("/work/{path}")), "{path} should be created");
    }
    for path in [
        "benchmarks",
        "metrics",
        ".telescope/runs",
        "telescope.toml",
        ".gitignore",
        ".env",
        ".env.example",
    ] {
        assert!(plan.created_paths.contains(&format!("/work/{path}")), "{path} should be created");
    }
    assert!(plan.git_init_needed, ".git should be initialized");

    let config = written(&plan, &layout.config_path()).expect("config is written");
    assert!(config.contains("[project]"), "config should contain project section");
    assert!(config.contains("[target]"), "config should contain target section");
    assert!(config.contains("llama3.2:3b"), "config should have llama3.2:3b as default model");
    assert!(!config.contains("base_url"), "config should not contain base_url");

    let gitignore = written(&plan, "/work/.gitignore").expect(".gitignore is written");
    assert!(gitignore.lines().any(|line| line.trim() == ".telescope/"));
    assert!(gitignore.lines().any(|line| line.trim() == ".env"));

    let env = written(&plan, "/work/.env").expect(".env is written");
    assert!(env.contains("OPENAI_API_COMPATIBLE_LLM_ENDPOINT"));
    assert!(env.contains("http://127.0.0.1:11434"));

    let env_example = written(&plan, "/work/.env.example").expect(".env.example is written");
    assert!(env_example.contains("OPENAI_API_COMPATIBLE_LLM_ENDPOINT"));

    let example = written(&plan, "/work/benchmarks/example.json").expect("example block is written");
    assert!(example.contains("\"example-block\""));

    let report = layout.finish_init(plan, Some(GitOutcome::Completed { success: true, stderr: vec![] }));
    let report = report.ok().expect("init succeeds");
    assert!(report.git_initialized);
    assert!(report.gitignore_updated);
    assert_eq!(report.created_paths.len(), 8);
}

#[test]
fn init_is_idempotent_and_preserves_gitignore() {
    let layout = ProjectLayout::new("ws");
    let mut probe = fresh_probe();
    probe.gitignore = Some("node_modules/\n.env\n".to_string());

    let first = layout.init(&probe);
    let second_probe = probe_after(&first, &probe, "ws/.gitignore");
    let second = layout.init(&second_probe);
    assert!(second.actions.is_empty(), "a second init changes nothing");
    assert!(second.created_paths.is_empty());
    assert!(!second.gitignore_updated);
    assert!(!second.git_init_needed);

    let gitignore = second_probe.gitignore.expect(".gitignore exists");
    let env_count = gitignore.lines().filter(|line| line.trim() == ".env").count();
    let telescope_count = gitignore.lines().filter(|line| line.trim() == ".telescope/").count();

    assert_eq!(env_count, 1, "`.env` should not be duplicated");
    assert_eq!(telescope_count, 1, "`.telescope/` should be added once");
    assert!(
        gitignore.lines().any(|line| line.trim() == "node_modules/"),
        "Custom gitignore entries should be preserved"
    );
}

#[test]
fn init_skips_existing_paths() {
    let layout = ProjectLayout::new("ws/");
    let probe = InitProbe {
        benchmarks_exists: true,
        metrics_exists: false,
        runs_exists: true,
        config_exists: true,
        example_block_exists: true,
        gitignore: Some(" .telescope/ \r\n.env\n".to_string()),
        env_example_exists: true,
        env_exists: false,
        git_dir_exists: true,
    };
    let plan = layout.init(&probe);
    assert_eq!(plan.created_paths, vec!["ws/metrics".to_string(), "ws/.env".to_string()]);
    assert_eq!(plan.actions.len(), 2);
    assert!(!plan.gitignore_updated);
    assert!(!plan.git_init_needed);
    let report = layout.finish_init(plan, None).ok().expect("no git step");
    assert!(!report.git_initialized);
}

#[test]
fn gitignore_merge_appends_missing_entries_in_order() {
    let m = merge_gitignore(None);
    assert_eq!(m.content, ".telescope/\n.env\n");
    assert!(m.updated);

    let m = merge_gitignore(Some("  target  \n\n.env"));
    assert_eq!(m.content, "target\n\n.env\n.telescope/\n");
    assert!(m.updated);

    let again = merge_gitignore(Some(m.content.as_str()));
    assert_eq!(again.content, m.content);
    assert!(!again.updated);

    let m = merge_gitignore(Some(""));
    assert_eq!(m.content, ".telescope/\n.env\n");
}

#[test]
fn git_failures_map_to_errors() {
    let layout = ProjectLayout::new("ws");
    let plan = layout.init(&fresh_probe());
    let err = layout
        .finish_init(plan, Some(GitOutcome::Completed { success: false, stderr: b"fatal: \xffno".to_vec() }))
        .err()
        .expect("git failed");
    assert_eq!(err.kind(), ErrorKind::InvalidInput);
    assert_eq!(err.message(), "Failed to initialize git repository: fatal: \u{fffd}no");

    let plan = layout.init(&fresh_probe());
    let err = layout.finish_init(plan, Some(GitOutcome::NotFound)).err().expect("no git");
    assert_eq!(
        err.message(),
        "git command not found. Please install Git to initialize a repository."
    );

    let plan = layout.init(&fresh_probe());
    let err = layout
        .finish_init(
            plan,
            Some(GitOutcome::Failed(IoError { kind: ErrorKind::PermissionDenied, message: "denied".to_string() })),
        )
        .err()
        .expect("spawn failed");
    assert_eq!(err.kind(), ErrorKind::PermissionDenied);
    assert_eq!(err.message(), "denied");
}

#[test]
fn layout_paths() {
    let layout = ProjectLayout::new("/p");
    assert_eq!(layout.runs_dir(), "/p/.telescope/runs");
    assert_eq!(layout.benchmarks_dir(), "/p/benchmarks");
    assert_eq!(layout.metrics_dir(), "/p/metrics");
    assert_eq!(ProjectLayout::new("").benchmarks_dir(), "benchmarks");
    assert_eq!(ProjectLayout::new("/p/").metrics_dir(), "/p/metrics");
    assert_eq!(layout.run_path_for("20240101000000.000"), "/p/.telescope/runs/run_20240101000000.000.jsonl");
    assert_eq!(layout.eval_path_for("/p/.telescope/runs/run_1.jsonl"), "/p/.telescope/evals/run_1.jsonl");
}

#[test]
fn next_run_path_is_named_after_the_clock() {
    let layout = ProjectLayout::new("/p");
    let reading = ClockReading { secs: 1704067200, nanos: 123_456_789 };
    assert_eq!(
        layout.next_run_path(&reading).unwrap(),
        "/p/.telescope/runs/run_20240101000000.123.jsonl"
    );
    assert_eq!(layout.next_report_path(&reading).unwrap(), "/p/reports/report_20240101000000.123.md");
    let later = ClockReading { secs: 1709642096, nanos: 5_000_000 };
    assert_eq!(layout.next_run_path(&later).unwrap(), "/p/.telescope/runs/run_20240305123456.005.jsonl");
}

#[test]
fn compact_stamp_of_readings() {
    assert_eq!(compact(&ClockReading { secs: 0, nanos: 0 }).unwrap(), "19700101000000.000");
    assert_eq!(compact(&ClockReading { secs: 1709642096, nanos: 999_999_999 }).unwrap(), "20240305123456.999");
    assert!(compact(&ClockReading { secs: i64::MAX, nanos: 0 }).is_none());
    let layout = ProjectLayout::new("/p");
    assert!(layout.next_run_path(&ClockReading { secs: i64::MAX, nanos: 0 }).is_none());
    assert!(layout.next_report_path(&ClockReading { secs: i64::MIN, nanos: 0 }).is_none());
}

#[test]
fn load_blocks_keeps_json_files_in_order() {
    let layout = ProjectLayout::new("/p");
    assert!(layout.load_benchmarks(None).is_empty());
    let listing = vec![
        "/p/benchmarks/b.json".to_string(),
        "/p/benchmarks/.json".to_string(),
        "/p/benchmarks/notes.txt".to_string(),
        "/p/benchmarks/a.json".to_string(),
        "/p/benchmarks/x.json.bak".to_string(),
        "/p/benchmarks/dir.json/".to_string(),
    ];
    assert_eq!(
        layout.load_metrics(Some(listing)),
        vec![
            "/p/benchmarks/b.json".to_string(),
            "/p/benchmarks/a.json".to_string(),
            "/p/benchmarks/dir.json/".to_string()
        ]
    );
}

#[test]
fn latest_run_file_is_the_greatest_path() {
    let layout = ProjectLayout::new("/p");
    assert_eq!(layout.latest_run_file(vec![]), None);
    let entries = vec![
        "/p/.telescope/runs/run_20240101000000.500.jsonl".to_string(),
        "/p/.telescope/runs/run_20250101000000.000.jsonl".to_string(),
        "/p/.telescope/runs/run_20240101000000.000.jsonl".to_string(),
    ];
    assert_eq!(
        layout.latest_run_file(entries),
        Some("/p/.telescope/runs/run_20250101000000.000.jsonl".to_string())
    );
    let entries = vec!["ab".to_string(), "abc".to_string(), "\u{e9}".to_string(), "z".to_string()];
    assert_eq!(layout.latest_run_file(entries), Some("\u{e9}".to_string()));
}

#[test]
fn scaffold_layout_plans_reports_and_evals() {
    let layout = tls::scaffold::ProjectLayout::new("w");
    let probe = tls::scaffold::InitProbe {
        benchmarks_exists: false,
        metrics_exists: true,
        reports_exists: false,
        runs_exists: true,
        evals_exists: false,
        config_exists: false,
        gitignore: None,
    };
    let plan = layout.init(&probe);
    assert_eq!(
        plan.report.created_paths,
        vec![
            "w/benchmarks".to_string(),
            "w/reports".to_string(),
            "w/.telescope/evals".to_string(),
            "w/telescope.toml".to_string(),
            "w/.gitignore".to_string()
        ]
    );
    assert!(plan.report.gitignore_updated);
    let config = plan
        .actions
        .iter()
        .find_map(|a| match a {
            InitAction::WriteFile(p, c) if p == "w/telescope.toml" => Some(c.clone()),
            _ => None,
        })
        .expect("config written");
    assert!(config.contains("base_url = \"https://api.openai.com/v1\""));
}

#[test]
fn init_creates_distinct_paths_under_the_root() {
    for root in ["/work", "/work/", "ws", ""] {
        let plan = tls::commands::init(root, &fresh_probe());
        assert_eq!(plan.created_paths.len(), 8);
        let mut sorted = plan.created_paths.clone();
        sorted.sort();
        sorted.dedup();
        assert_eq!(sorted.len(), 8, "no path is created twice under {root:?}");
        for path in &plan.created_paths {
            assert!(path.starts_with(root) && path.len() > root.len(), "{path} lies under {root:?}");
        }
    }
}

#[test]
fn later_readings_name_later_run_logs() {
    let layout = ProjectLayout::new("/p");
    let readings = [
        ClockReading { secs: -62167219200, nanos: 0 },
        ClockReading { secs: -1, nanos: 999_000_000 },
        ClockReading { secs: 0, nanos: 0 },
        ClockReading { secs: 0, nanos: 1_000_000 },
        ClockReading { secs: 1709164799, nanos: 0 },
        ClockReading { secs: 1709164800, nanos: 0 },
        ClockReading { secs: 1735689599, nanos: 999_999_999 },
        ClockReading { secs: 1735689600, nanos: 0 },
        ClockReading { secs: 253402300799, nanos: 999_000_000 },
    ];
    let paths: Vec<String> = readings.iter().map(|r| layout.next_run_path(r).unwrap()).collect();
    for pair in paths.windows(2) {
        assert!(pair[0] < pair[1], "{} sorts before {}", pair[0], pair[1]);
    }
    assert_eq!(layout.latest_run_or_error(paths.clone()).unwrap(), paths[paths.len() - 1]);
}

#[test]
fn latest_run_or_error_needs_a_run_log() {
    let layout = ProjectLayout::new("/p");
    let err = layout.latest_run_or_error(vec![]).err().unwrap();
    assert_eq!(err.kind(), ErrorKind::InvalidInput);
    assert_eq!(err.message(), "No run log found");
    let entries = vec![
        "/p/.telescope/runs/run_20240101000000.000.jsonl".to_string(),
        "/p/.telescope/runs/run_20240305123456.005.jsonl".to_string(),
        "/p/.telescope/runs/run_20231231235959.999.jsonl".to_string(),
    ];
    assert_eq!(layout.latest_run_or_error(entries).unwrap(), "/p/.telescope/runs/run_20240305123456.005.jsonl");
}
