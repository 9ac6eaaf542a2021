use asimeow::config::{Config, ConfigError, Root, Rule};
use asimeow::explorer::{
    already_attempted, enqueue_plan, finish_task, is_complete, process_path, record_attempt,
    run_explorer, try_dequeue, try_finish, DirFate, Entry, ExclusionEvent, State, VisitOutcome,
};
use asimeow::oracle::output_marks_excluded;
use asimeow::paths::{basename_of, join_path};

/// An in-memory directory tree: each listed directory with its entries
/// (name, is_dir).
type Tree = Vec<(String, Vec<(String, bool)>)>;

fn dir(path: &str, entries: &[(&str, bool)]) -> (String, Vec<(String, bool)>) {
    (
        path.to_string(),
        entries
            .iter()
            .map(|(n, d)| (n.to_string(), *d))
            .collect(),
    )
}

fn rule(name: &str, file_match: &str, exclusions: &[&str]) -> Rule {
    Rule {
        name: name.to_string(),
        file_match: file_match.to_string(),
        exclusions: exclusions.iter().map(|e| e.to_string()).collect(),
    }
}

fn cfg(roots: &[&str], ignore: &[&str], rules: Vec<Rule>) -> Config {
    Config {
        roots: roots
            .iter()
            .map(|p| Root { path: p.to_string() })
            .collect(),
        ignore: ignore.iter().map(|s| s.to_string()).collect(),
        rules,
    }
}

fn fate_for(tree: &Tree, path: &String) -> DirFate {
    for (p, entries) in tree {
        if p == path {
            let listed: Vec<Entry> = entries
                .iter()
                .map(|(n, d)| Entry {
                    name: n.clone(),
                    is_dir: *d,
                })
                .collect();
            return DirFate::Listed(listed);
        }
    }
    DirFate::Missing
}

fn path_exists(tree: &Tree, path: &String) -> bool {
    for (p, entries) in tree {
        if p == path {
            return true;
        }
        for (n, _) in entries {
            if &format!("{}/{}", p, n) == path {
                return true;
            }
        }
    }
    false
}

/// Process one dequeued path exactly as the worker loop does: classify,
/// run existing unseen candidates through the (simulated) external tool,
/// record the outcomes, enqueue the planned subdirectories.
fn process_one(
    state: &mut State,
    config: &Config,
    tree: &Tree,
    oracle_excluded: &mut Vec<String>,
    mutate_log: &mut Vec<String>,
    events: &mut Vec<ExclusionEvent>,
    path: &String,
) {
    let fate = fate_for(tree, path);
    let outcome = process_path(state, path, &fate, &config.rules, &config.ignore);
    if let VisitOutcome::Planned(plan) = outcome {
        for cand in &plan.candidates {
            if path_exists(tree, &cand.path) && !already_attempted(state, &cand.path) {
                let newly = if oracle_excluded.contains(&cand.path) {
                    false
                } else {
                    mutate_log.push(cand.path.clone());
                    oracle_excluded.push(cand.path.clone());
                    true
                };
                let ev = record_attempt(state, &cand.path, &cand.rule_name, newly);
                events.push(ev);
            }
        }
        enqueue_plan(state, &plan);
    }
    finish_task(state);
}

/// Drive one worker until the termination latch is set.
fn drive(
    state: &mut State,
    config: &Config,
    tree: &Tree,
    oracle_excluded: &mut Vec<String>,
    mutate_log: &mut Vec<String>,
    events: &mut Vec<ExclusionEvent>,
) {
    loop {
        if is_complete(state) {
            break;
        }
        match try_dequeue(state) {
            Some(path) => {
                process_one(state, config, tree, oracle_excluded, mutate_log, events, &path);
            }
            None => {
                if try_finish(state) {
                    break;
                }
            }
        }
    }
}

#[test]
fn join_path_inserts_single_separator() {
    assert_eq!(join_path("/a", "b"), "/a/b");
    assert_eq!(join_path("/a/", "b"), "/a/b");
    assert_eq!(join_path("", "b"), "/b");
}

#[test]
fn basename_cases() {
    assert_eq!(basename_of("/a/b"), Some("b".to_string()));
    assert_eq!(basename_of("/a/b/"), Some("b".to_string()));
    assert_eq!(basename_of("plain"), Some("plain".to_string()));
    assert_eq!(basename_of("/"), None);
    assert_eq!(basename_of(""), None);
}

#[test]
fn excluded_marker_is_detected() {
    assert!(output_marks_excluded("/tmp/x [Excluded]\n"));
    assert!(output_marks_excluded("[Excluded]"));
    assert!(!output_marks_excluded("/tmp/x\n"));
    assert!(!output_marks_excluded("[Exclude"));
    assert!(!output_marks_excluded(""));
}

#[test]
fn fresh_state_has_zero_counters() {
    let state = State::new();
    let stats = state.stats();
    assert_eq!(stats.processed_paths, 0);
    assert_eq!(stats.exclusions_found, 0);
    assert_eq!(stats.newly_excluded, 0);
    assert!(!is_complete(&state));
    assert!(state.folder_queue.is_empty());
}

#[test]
fn record_attempt_counts_and_caches() {
    let mut state = State::new();
    let path = "/tmp/p/node_modules".to_string();
    let name = "node".to_string();
    assert!(!already_attempted(&state, &path));
    let ev = record_attempt(&mut state, &path, &name, true);
    assert_eq!(ev.path, path);
    assert_eq!(ev.rule_name, "node");
    assert!(ev.newly_excluded);
    assert!(already_attempted(&state, &path));
    let stats = state.stats();
    assert_eq!(stats.exclusions_found, 1);
    assert_eq!(stats.newly_excluded, 1);
    let ev2 = record_attempt(&mut state, &path, &name, false);
    assert!(!ev2.newly_excluded);
    let stats2 = state.stats();
    assert_eq!(stats2.exclusions_found, 2);
    assert_eq!(stats2.newly_excluded, 1);
}

#[test]
fn queue_is_fifo_and_tracks_active_tasks() {
    let mut state = State::new();
    state.folder_queue.push("/a".to_string());
    state.folder_queue.push("/b".to_string());
    let first = try_dequeue(&mut state);
    assert_eq!(first, Some("/a".to_string()));
    assert_eq!(state.active_tasks, 1);
    let second = try_dequeue(&mut state);
    assert_eq!(second, Some("/b".to_string()));
    assert_eq!(state.active_tasks, 2);
    assert_eq!(try_dequeue(&mut state), None);
    finish_task(&mut state);
    finish_task(&mut state);
    assert_eq!(state.active_tasks, 0);
}

#[test]
fn termination_latch_is_one_way() {
    let mut state = State::new();
    state.folder_queue.push("/a".to_string());
    assert!(!try_finish(&mut state));
    assert!(!is_complete(&state));
    let _ = try_dequeue(&mut state);
    // queue is empty but a worker is still active: not done yet
    assert!(!try_finish(&mut state));
    finish_task(&mut state);
    assert!(try_finish(&mut state));
    assert!(is_complete(&state));
    // the latch stays set
    assert!(try_finish(&mut state));
    assert!(is_complete(&state));
}

#[test]
fn empty_roots_refuse_to_start() {
    let config = cfg(&[], &[], vec![rule("node", "package.json", &["node_modules"])]);
    match run_explorer(&config) {
        Err(ConfigError::EmptyRoots) => {}
        _ => panic!("expected EmptyRoots"),
    }
    assert_eq!(
        ConfigError::EmptyRoots.describe(),
        "No root paths defined in config file"
    );
}

#[test]
fn run_explorer_seeds_queue_with_roots() {
    let config = cfg(&["/tmp/p", "/srv/x"], &[], vec![]);
    let state = run_explorer(&config).unwrap();
    assert_eq!(
        state.folder_queue,
        vec!["/tmp/p".to_string(), "/srv/x".to_string()]
    );
    assert_eq!(state.stats().processed_paths, 0);
}

#[test]
fn node_project_counts_root_and_src() {
    let config = cfg(
        &["/tmp/p"],
        &[],
        vec![rule("node", "package.json", &["node_modules", "dist"])],
    );
    let tree: Tree = vec![
        dir(
            "/tmp/p",
            &[
                ("package.json", false),
                ("node_modules", true),
                ("src", true),
            ],
        ),
        dir("/tmp/p/node_modules", &[]),
        dir("/tmp/p/src", &[("index.js", false)]),
    ];
    let mut state = run_explorer(&config).unwrap();
    let mut oracle: Vec<String> = Vec::new();
    let mut mutations: Vec<String> = Vec::new();
    let mut events: Vec<ExclusionEvent> = Vec::new();
    drive(&mut state, &config, &tree, &mut oracle, &mut mutations, &mut events);
    let stats = state.stats();
    assert_eq!(stats.processed_paths, 2, "root and src, never node_modules");
    assert_eq!(stats.exclusions_found, 1, "node_modules exists, dist does not");
    assert_eq!(stats.newly_excluded, 1);
    assert_eq!(events.len(), 1);
    assert_eq!(events[0].path, "/tmp/p/node_modules");
    assert_eq!(events[0].rule_name, "node");
    assert!(events[0].newly_excluded);
}

#[test]
fn descendants_of_excluded_dir_are_never_visited() {
    let config = cfg(
        &["/tmp/p"],
        &[],
        vec![rule("node", "package.json", &["node_modules"])],
    );
    let tree: Tree = vec![
        dir("/tmp/p", &[("package.json", false), ("node_modules", true)]),
        dir("/tmp/p/node_modules", &[("a", true)]),
        dir("/tmp/p/node_modules/a", &[("b", true)]),
        dir("/tmp/p/node_modules/a/b", &[("package.json", false)]),
    ];
    let mut state = run_explorer(&config).unwrap();
    let mut oracle: Vec<String> = Vec::new();
    let mut mutations: Vec<String> = Vec::new();
    let mut events: Vec<ExclusionEvent> = Vec::new();
    drive(&mut state, &config, &tree, &mut oracle, &mut mutations, &mut events);
    let stats = state.stats();
    assert_eq!(stats.processed_paths, 1, "only the project root is visited");
    assert_eq!(stats.exclusions_found, 1);
    assert_eq!(mutations, vec!["/tmp/p/node_modules".to_string()]);
}

#[test]
fn mutate_call_happens_exactly_once_per_path() {
    // Two rules matched by two different markers both name the same
    // exclusion directory: the run cache must keep the external tool to a
    // single mutate call for it.
    let config = cfg(
        &["/tmp/p"],
        &[],
        vec![
            rule("node", "package.json", &["build"]),
            rule("bower", "bower.json", &["build"]),
        ],
    );
    let tree: Tree = vec![
        dir(
            "/tmp/p",
            &[
                ("package.json", false),
                ("bower.json", false),
                ("build", true),
            ],
        ),
        dir("/tmp/p/build", &[]),
    ];
    let mut state = run_explorer(&config).unwrap();
    let mut oracle: Vec<String> = Vec::new();
    let mut mutations: Vec<String> = Vec::new();
    let mut events: Vec<ExclusionEvent> = Vec::new();
    drive(&mut state, &config, &tree, &mut oracle, &mut mutations, &mut events);
    assert_eq!(mutations, vec!["/tmp/p/build".to_string()]);
    assert_eq!(events.len(), 1, "second discovery is skipped by the run cache");
    assert_eq!(state.stats().exclusions_found, 1);
}

#[test]
fn ignored_directory_contributes_nothing() {
    let config = cfg(
        &["/tmp/p"],
        &[".git"],
        vec![rule("node", "package.json", &["node_modules"])],
    );
    let tree: Tree = vec![
        dir("/tmp/p", &[("package.json", false), (".git", true)]),
        dir("/tmp/p/.git", &[("package.json", false), ("node_modules", true)]),
        dir("/tmp/p/.git/node_modules", &[]),
    ];
    let mut state = run_explorer(&config).unwrap();
    let mut oracle: Vec<String> = Vec::new();
    let mut mutations: Vec<String> = Vec::new();
    let mut events: Vec<ExclusionEvent> = Vec::new();
    drive(&mut state, &config, &tree, &mut oracle, &mut mutations, &mut events);
    let stats = state.stats();
    assert_eq!(stats.processed_paths, 1, ".git is pruned before counting");
    assert_eq!(stats.exclusions_found, 0, "markers beneath .git are never read");
    assert!(mutations.is_empty());
}

#[test]
fn rerun_over_unchanged_tree_is_idempotent() {
    let config = cfg(
        &["/tmp/p"],
        &[],
        vec![rule("node", "package.json", &["node_modules", "dist"])],
    );
    let tree: Tree = vec![
        dir(
            "/tmp/p",
            &[
                ("package.json", false),
                ("node_modules", true),
                ("dist", true),
            ],
        ),
        dir("/tmp/p/node_modules", &[]),
        dir("/tmp/p/dist", &[]),
    ];
    // first run: the tool has nothing excluded yet
    let mut oracle: Vec<String> = Vec::new();
    let mut state1 = run_explorer(&config).unwrap();
    let mut mutations1: Vec<String> = Vec::new();
    let mut events1: Vec<ExclusionEvent> = Vec::new();
    drive(&mut state1, &config, &tree, &mut oracle, &mut mutations1, &mut events1);
    let first = state1.stats();
    assert_eq!(first.exclusions_found, 2);
    assert_eq!(first.newly_excluded, 2);
    // second run: fresh run state, but the tool now reports both paths as
    // already excluded
    let mut state2 = run_explorer(&config).unwrap();
    let mut mutations2: Vec<String> = Vec::new();
    let mut events2: Vec<ExclusionEvent> = Vec::new();
    drive(&mut state2, &config, &tree, &mut oracle, &mut mutations2, &mut events2);
    let second = state2.stats();
    assert_eq!(second.newly_excluded, 0);
    assert_eq!(second.exclusions_found, first.exclusions_found);
    assert!(mutations2.is_empty());
    assert!(events2.iter().all(|e| !e.newly_excluded));
}

#[test]
fn two_workers_attribute_exclusions_to_their_projects() {
    let config = cfg(
        &["/tmp/r"],
        &[],
        vec![
            rule("node", "package.json", &["node_modules"]),
            rule("rust", "Cargo.toml", &["target"]),
        ],
    );
    let tree: Tree = vec![
        dir("/tmp/r", &[("node-p", true), ("rust-p", true)]),
        dir("/tmp/r/node-p", &[("package.json", false), ("node_modules", true)]),
        dir("/tmp/r/rust-p", &[("Cargo.toml", false), ("target", true)]),
        dir("/tmp/r/node-p/node_modules", &[]),
        dir("/tmp/r/rust-p/target", &[]),
    ];
    let mut state = run_explorer(&config).unwrap();
    let mut oracle: Vec<String> = Vec::new();
    let mut mutations: Vec<String> = Vec::new();
    let mut events: Vec<ExclusionEvent> = Vec::new();
    // two workers: each iteration both try to dequeue, then each processes
    // what it holds
    loop {
        if is_complete(&state) {
            break;
        }
        let a = try_dequeue(&mut state);
        let b = try_dequeue(&mut state);
        if a.is_none() && b.is_none() {
            if try_finish(&mut state) {
                break;
            }
            continue;
        }
        if let Some(pa) = a {
            process_one(&mut state, &config, &tree, &mut oracle, &mut mutations, &mut events, &pa);
        }
        if let Some(pb) = b {
            process_one(&mut state, &config, &tree, &mut oracle, &mut mutations, &mut events, &pb);
        }
    }
    let stats = state.stats();
    assert_eq!(stats.exclusions_found, 2);
    assert_eq!(events.len(), 2);
    for ev in &events {
        if ev.rule_name == "node" {
            assert_eq!(ev.path, "/tmp/r/node-p/node_modules");
        } else {
            assert_eq!(ev.rule_name, "rust");
            assert_eq!(ev.path, "/tmp/r/rust-p/target");
        }
    }
}

#[test]
fn self_marker_stops_descent() {
    let config = cfg(&["/tmp/p"], &[], vec![rule("stopper", "stop.flag", &["."])]);
    let tree: Tree = vec![
        dir("/tmp/p", &[("stop.flag", false), ("child", true)]),
        dir("/tmp/p/child", &[("stop.flag", false)]),
    ];
    let mut state = run_explorer(&config).unwrap();
    let mut oracle: Vec<String> = Vec::new();
    let mut mutations: Vec<String> = Vec::new();
    let mut events: Vec<ExclusionEvent> = Vec::new();
    drive(&mut state, &config, &tree, &mut oracle, &mut mutations, &mut events);
    let stats = state.stats();
    assert_eq!(stats.processed_paths, 1, "children are not enqueued after a stop marker");
}

#[test]
fn parent_marker_stops_descent() {
    let config = cfg(&["/tmp/p"], &[], vec![rule("stopper", "stop.flag", &[".."])]);
    let tree: Tree = vec![
        dir("/tmp/p", &[("sub", true)]),
        dir("/tmp/p/sub", &[("stop.flag", false), ("inner", true)]),
        dir("/tmp/p/sub/inner", &[]),
    ];
    let mut state = run_explorer(&config).unwrap();
    let mut oracle: Vec<String> = Vec::new();
    let mut mutations: Vec<String> = Vec::new();
    let mut events: Vec<ExclusionEvent> = Vec::new();
    drive(&mut state, &config, &tree, &mut oracle, &mut mutations, &mut events);
    let stats = state.stats();
    assert_eq!(
        stats.processed_paths, 2,
        "the marker in sub stops descent below sub, so inner is never visited"
    );
}

#[test]
fn first_matching_rule_wins_per_entry() {
    let config = cfg(
        &["/tmp/p"],
        &[],
        vec![
            rule("anyjson", "*.json", &["xdir"]),
            rule("node", "package.json", &["ydir"]),
        ],
    );
    let tree: Tree = vec![
        dir(
            "/tmp/p",
            &[("package.json", false), ("xdir", true), ("ydir", true)],
        ),
        dir("/tmp/p/xdir", &[]),
        dir("/tmp/p/ydir", &[]),
    ];
    let mut state = run_explorer(&config).unwrap();
    let mut oracle: Vec<String> = Vec::new();
    let mut mutations: Vec<String> = Vec::new();
    let mut events: Vec<ExclusionEvent> = Vec::new();
    drive(&mut state, &config, &tree, &mut oracle, &mut mutations, &mut events);
    assert_eq!(mutations, vec!["/tmp/p/xdir".to_string()]);
    // the matched first rule suppresses only xdir: the root and ydir are visited
    assert_eq!(state.stats().processed_paths, 2);
    assert_eq!(state.stats().exclusions_found, 1);
}

#[test]
fn nested_projects_are_each_visited() {
    let config = cfg(
        &["/tmp/p"],
        &[],
        vec![rule("node", "package.json", &["node_modules"])],
    );
    let tree: Tree = vec![
        dir("/tmp/p", &[("package.json", false), ("nested", true)]),
        dir("/tmp/p/nested", &[("package.json", false), ("deep", true)]),
        dir("/tmp/p/nested/deep", &[("package.json", false)]),
    ];
    let mut state = run_explorer(&config).unwrap();
    let mut oracle: Vec<String> = Vec::new();
    let mut mutations: Vec<String> = Vec::new();
    let mut events: Vec<ExclusionEvent> = Vec::new();
    drive(&mut state, &config, &tree, &mut oracle, &mut mutations, &mut events);
    let stats = state.stats();
    assert_eq!(stats.processed_paths, 3);
    assert_eq!(stats.exclusions_found, 0, "no exclusion directory exists anywhere");
    assert!(mutations.is_empty());
}

#[test]
fn vanished_path_is_skipped_silently() {
    let config = cfg(
        &["/tmp/gone"],
        &[],
        vec![rule("node", "package.json", &["node_modules"])],
    );
    let tree: Tree = Vec::new();
    let mut state = run_explorer(&config).unwrap();
    let mut oracle: Vec<String> = Vec::new();
    let mut mutations: Vec<String> = Vec::new();
    let mut events: Vec<ExclusionEvent> = Vec::new();
    drive(&mut state, &config, &tree, &mut oracle, &mut mutations, &mut events);
    let stats = state.stats();
    assert_eq!(stats.processed_paths, 0);
    assert_eq!(stats.exclusions_found, 0);
}
