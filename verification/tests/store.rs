use std::collections::BTreeMap;

use corpus_core::audit::{log_lines, log_path, tail, AuditRecord, Outcome};
use corpus_core::error::Error;
use corpus_core::json::Json;
use corpus_core::path;
use corpus_core::store::entries::{EntryAccess, MovePlan, OnDisk};
use corpus_core::store::layout::{Scope, Store, AGENT_ENV, PROJECT_ENV, RUN_LOG_ENV, STORE_ENV};
use corpus_core::store::missions::{mission_slug, project_slug_env, Mission};
use corpus_core::store::naming::{fnv1a_hex, slugify, validate_slug};
use corpus_core::store::provision::{
    load_prefs, relink, AppPrefs, LinkAction, LinkState, ProvisionStep,
};
use corpus_core::store::records::Project;
use corpus_core::store::stats::{corpus_stats, mission_logs, parse_log, CorpusFile, CorpusStats};
use corpus_core::store::usage::{doc_usage, file_usage, is_export, merge_reports, UsageCache, UsageReport};
use corpus_core::table::Table;

fn store() -> Store {
    Store::new("/data/store".to_string())
}

fn project(store: &Store, slug: &str) -> Project {
    store
        .create_project(slug, "P", "cdk-regtest", false, 5)
        .unwrap()
}

#[test]
fn validate_slug_rejects_bad_names() {
    for bad in ["", "..", "a/b", "Upper", "under_score", "-lead", "trail-", "a b"] {
        assert!(validate_slug(bad).is_err(), "should reject {bad:?}");
    }
    for good in ["default", "cdk-regtest", "red-alpha-2"] {
        assert!(validate_slug(good).is_ok(), "should accept {good:?}");
    }
}

#[test]
fn names_become_slugs() {
    assert_eq!(slugify("My  Auditor!"), "my-auditor");
    assert_eq!(slugify("ÄRGER 2"), slugify("ärger 2"));
    assert_eq!(slugify("already-a-slug"), "already-a-slug");
    assert_eq!(fnv1a_hex(b""), "cbf29ce484222325");
    assert_eq!(fnv1a_hex(b"a"), "af63dc4c8601ec8c");
}

#[test]
fn a_run_dir_exposes_only_its_own_project() {
    let store = store();
    let steps = store.provision_run_dir("a", "/data/sources", "/res", false);
    let run = store.project_run_dir("a");
    let projects = format!("{run}/store/projects");
    let visible: Vec<(&str, &str)> = steps
        .iter()
        .filter_map(|step| match step {
            ProvisionStep::Link { target, link } if link.starts_with(&projects) => {
                Some((link.as_str(), target.as_str()))
            }
            _ => None,
        })
        .collect();
    assert_eq!(
        visible,
        [(
            format!("{projects}/a").as_str(),
            store.project_dir("a").as_str()
        )],
        "only its own project"
    );
    assert!(!path::within(&run, &store.project_dir("a")));
    for step in &steps {
        let at = match step {
            ProvisionStep::MakeDir(at) => at,
            ProvisionStep::Link { link, .. } => link,
        };
        assert!(!path::within(at, &format!("{run}/benchmarks")), "{at}");
        assert!(!path::within(at, &format!("{run}/plugins")), "{at}");
    }
}

#[test]
fn provisioning_repoints_a_stale_link() {
    let store = store();
    let wrong = LinkState::Points(Some(store.project_dir("b")));
    let right = LinkState::Points(Some(store.project_dir("a")));
    let target = store.project_dir("a");
    assert_eq!(relink(&target, true, "/run/a", &wrong).unwrap(), LinkAction::Replace);
    assert_eq!(relink(&target, true, "/run/a", &right).unwrap(), LinkAction::Keep);
    assert_eq!(
        relink(&target, true, "/run/a", &LinkState::Missing).unwrap(),
        LinkAction::Create
    );
    assert!(relink(&target, true, "/run/a", &LinkState::Real).is_err());
}

#[test]
fn the_run_config_names_its_own_project() {
    let store = store();
    let file = store
        .write_run_opencode_config("a", "cdk-regtest", "/plugins", "/bin/corpus-mcp")
        .unwrap();
    assert!(file.path.ends_with("/.opencode/opencode.json"), "{}", file.path);
    let doc: serde_json::Value = serde_json::from_str(&file.text).unwrap();
    let env = &doc["mcp"]["corpus"]["environment"];
    assert_eq!(env[PROJECT_ENV].as_str(), Some("a"));
    assert_eq!(env[STORE_ENV].as_str(), Some(store.root()));
    assert!(env.get(AGENT_ENV).is_none(), "no per-run identity: {env}");
    assert!(env.get(RUN_LOG_ENV).is_none(), "no per-run identity: {env}");
}

fn files(list: &[(&str, u64)]) -> Vec<CorpusFile> {
    list.iter()
        .map(|(rel, bytes)| CorpusFile {
            rel: rel.to_string(),
            bytes: *bytes,
        })
        .collect()
}

fn is_empty(stats: &CorpusStats) -> bool {
    stats.files == 0
        && stats.bytes == 0
        && stats.categories.is_empty()
        && stats.logs.name == "runs"
        && stats.logs.files == 0
        && stats.logs.bytes == 0
}

#[test]
fn corpus_stats_counts_files_and_bytes() {
    assert!(is_empty(&corpus_stats(&[])));
    let stats = corpus_stats(&files(&[
        ("findings/1.md", 12),
        ("techniques/quote.md", 4),
        ("attacks/attack-a/attack.md", 11),
        ("attacks/attack-a/run.sh", 10),
    ]));
    assert_eq!(stats.files, 4);
    assert_eq!(stats.bytes, 12 + 4 + 11 + 10, "sum of exact byte lengths");
    let names: Vec<&str> = stats.categories.iter().map(|c| c.name.as_str()).collect();
    assert_eq!(names, ["techniques", "findings", "attacks"]);
    assert_eq!(stats.categories[0].files, 1);
    assert_eq!(stats.categories[1].bytes, 12);
    assert_eq!(stats.categories[2].files, 2, "both attack files count");
}

#[test]
fn files_outside_the_categories_share_one_bucket() {
    let stats = corpus_stats(&files(&[
        ("scratch/a.md", 1),
        ("zzz/deep/b.md", 2),
        ("loose.md", 4),
        ("retro/r.md", 8),
        ("other/c.md", 16),
    ]));
    let shares: Vec<(&str, u64, u64)> = stats
        .categories
        .iter()
        .map(|c| (c.name.as_str(), c.files, c.bytes))
        .collect();
    assert_eq!(shares, [("retro", 1, 8), ("other", 4, 23)]);
    assert_eq!((stats.files, stats.bytes), (5, 31));
}

#[test]
fn mission_logs_are_split_out_of_the_categories() {
    let all = files(&[
        ("findings/1.md", 12),
        ("runs/1786891368-verify.raw", 11),
        ("runs/1786856299-discover.json", 2),
        ("triage-report.md", 5),
    ]);
    let stats = corpus_stats(&all);
    assert_eq!(stats.files, 4, "grand total still counts every file");
    assert_eq!(stats.bytes, 30);
    assert_eq!(stats.knowledge_files(), 2, "logs excluded from the corpus count");
    assert_eq!(stats.knowledge_bytes(), 17);
    let names: Vec<&str> = stats.categories.iter().map(|c| c.name.as_str()).collect();
    assert_eq!(names, ["findings", "other"], "runs is never a category");
    assert_eq!(stats.logs.files, 2);
    assert_eq!(stats.logs.bytes, 13);

    let logs = mission_logs(&files(&[
        ("1786856299-discover.json", 2),
        ("1786891368-verify.raw", 11),
    ]));
    assert_eq!(logs.len(), 2);
    assert_eq!(logs[0].name, "1786891368-verify.raw");
    assert_eq!(logs[0].mission, "verify");
    assert_eq!(logs[0].started, 1_786_891_368);
    assert_eq!(logs[0].kind, "raw");
    assert_eq!(logs[0].bytes, 11);
    assert_eq!(logs[1].mission, "discover");
    assert!(mission_logs(&[]).is_empty());
    assert_eq!(parse_log("2fa-probe.log", 1).mission, "2fa-probe");
}

/// What a list of costs comes to.
fn dollars(costs: &[String]) -> f64 {
    costs.iter().map(|c| c.parse::<f64>().unwrap()).sum()
}

fn export(cost: &str, input: u64, model: &str) -> String {
    let total = input + 8;
    format!(
        "{{\"info\": {{}}, \"messages\": [{{\"info\": {{\"role\": \"assistant\", \
         \"providerID\": \"openrouter\", \"modelID\": \"{model}\", \"cost\": {cost}, \
         \"tokens\": {{\"total\": {total}, \"input\": {input}, \"output\": 7, \
         \"reasoning\": 1, \"cache\": {{\"read\": 3, \"write\": 0}}}}}}}}]}}"
    )
}

#[test]
fn corpus_cost_aggregates_exports_per_model() {
    let file = |raw: &str| file_usage(Some(raw));
    assert!(is_export("1-operator.json"));
    assert!(!is_export("4-operator.log"));
    assert!(!is_export(".json"));
    let reports = [
        file(&export("0.5", 100, "deepseek/deepseek-v4-flash")),
        file(&export("0.25", 50, "deepseek/deepseek-v4-flash")),
        file(&export("1.5", 200, "moonshotai/kimi-k3")),
        file("{corrupt"),
    ];
    let report = merge_reports(&reports).unwrap();
    assert_eq!(report.rows.len(), 2);
    let kimi = report.rows.iter().find(|r| r.model == "kimi-k3").unwrap();
    let deepseek = report.rows.iter().find(|r| r.model == "deepseek-v4-flash").unwrap();
    assert_eq!(kimi.provider, "openrouter");
    assert!((dollars(&kimi.costs) - 1.5).abs() < 1e-9);
    assert_eq!(deepseek.messages, 2);
    assert_eq!(deepseek.tokens_input, 150);
    assert_eq!(deepseek.cache_read, 6);
    let all = dollars(&kimi.costs) + dollars(&deepseek.costs);
    assert!((all - 2.25).abs() < 1e-9);
    assert_eq!(report.tokens, 108 + 58 + 208);
    assert!(merge_reports(&[]).unwrap().rows.is_empty());
}

#[test]
fn corpus_cost_reexport_overwrites_not_doubles() {
    let turn = |total: u64, input: u64| {
        let text = format!(
            "{{\"info\": {{}}, \"messages\": [{{\"info\": {{\"role\": \"assistant\", \
             \"providerID\": \"ollama\", \"modelID\": \"qwen/qwen3\", \"cost\": 0.0, \
             \"tokens\": {{\"total\": {total}, \"input\": {input}, \"output\": 0, \
             \"reasoning\": 0, \"cache\": {{\"read\": 0, \"write\": 0}}}}}}}}]}}"
        );
        file_usage(Some(&text))
    };
    let mut cache = UsageCache::new();
    cache.keep("/runs/ses_abc.json", Some(1), 10, turn(100, 100));
    let first = cache.report().unwrap();
    assert_eq!(first.tokens, 100);
    assert_eq!(first.rows.len(), 1);
    assert!(cache.current("/runs/ses_abc.json", Some(1), 10));
    assert!(!cache.current("/runs/ses_abc.json", Some(2), 10));
    assert!(!cache.current("/runs/ses_abc.json", None, 10));
    assert!(!cache.current("/runs/ses_abc.json", Some(1), 11));
    cache.keep("/runs/ses_abc.json", Some(2), 11, turn(250, 250));
    let second = cache.report().unwrap();
    assert_eq!(second.tokens, 250, "re-export overwrote — must not be 100+250");
    assert_eq!(second.rows.len(), 1);
    assert_eq!(second.rows[0].tokens_input, 250);
    cache.keep("/runs/gone.json", None, 1, turn(1, 1));
    cache.retain(&["/runs/ses_abc.json".to_string()]);
    assert_eq!(cache.report().unwrap().tokens, 250);
    cache.retain(&[]);
    assert_eq!(cache.report().unwrap().tokens, 0);
}

#[test]
fn counts_that_do_not_fit_are_not_wrapped() {
    let big = || UsageReport { rows: Vec::new(), tokens: u64::MAX };
    assert!(merge_reports(&[big(), big()]).is_none());
    assert_eq!(merge_reports(&[big()]).unwrap().tokens, u64::MAX);
    let twice = "{\"messages\": [\
         {\"info\": {\"role\": \"assistant\", \"tokens\": {\"total\": 18446744073709551615}}}, \
         {\"info\": {\"role\": \"assistant\", \"tokens\": {\"total\": 1}}}]}";
    assert_eq!(file_usage(Some(twice)).tokens, 0);
    assert!(file_usage(Some(twice)).rows.is_empty());
}

#[test]
fn transcripts_that_say_nothing_count_nothing() {
    for raw in [None, Some(""), Some("{corrupt"), Some("[]"), Some("{\"messages\": 7}")] {
        let report = file_usage(raw);
        assert!(report.rows.is_empty(), "{raw:?}");
        assert_eq!(report.tokens, 0, "{raw:?}");
    }
    assert_eq!(doc_usage(&Json::Null).unwrap().tokens, 0);
    let user = "{\"messages\": [{\"info\": {\"role\": \"user\", \"tokens\": {\"total\": 5}}}]}";
    assert_eq!(file_usage(Some(user)).tokens, 0);
    assert_eq!(file_usage(Some(&export("0.5", 100, "m"))).tokens, 108);
}

#[test]
fn wipe_project_corpus_bumps_generation() {
    let store = store();
    let wiped = store.wipe_project_corpus(Ok(project(&store, "p"))).unwrap();
    assert_eq!(wiped.corpus_generation, 1);
    let dirs = store.corpus_dirs("p");
    assert!(dirs.contains(&"/data/store/projects/p/corpus/findings".to_string()));
    assert!(dirs.iter().all(|d| path::within(d, &store.project_corpus_dir("p"))));
    assert!(store
        .wipe_project_corpus(Err(Error::Store("no".to_string())))
        .is_err());
}

#[test]
fn projects_keep_their_records() {
    let store = store();
    assert!(store.create_project("Bad", "x", "y", false, 1).is_err());
    assert!(store.create_project("p", "x", "y", true, 1).is_err());
    let made = project(&store, "p");
    assert_eq!((made.name.as_str(), made.created), ("P", 5));
    let renamed = store.rename_project("New", Ok(project(&store, "p"))).unwrap();
    assert_eq!(renamed.name, "New");
    let rebound = store.rebind_project("other", Ok(project(&store, "p"))).unwrap();
    assert_eq!(rebound.plugin, "other");
    let mut pins = Table::new();
    pins.insert("cdk".to_string(), "main".to_string());
    let pinned = store.set_project_pins(pins, Ok(project(&store, "p"))).unwrap();
    assert_eq!(pinned.pins.get("cdk").map(|s| s.as_str()), Some("main"));
    let clone = store
        .clone_project(Ok(project(&store, "p")), "p", "q", None, false, 9)
        .unwrap();
    assert_eq!(clone.cloned_from.as_deref(), Some("p"));
    assert!(store.delete_project("ghost", false).is_err());
    let (dir, run) = store.delete_project("p", true).unwrap();
    assert_eq!(dir, store.project_dir("p"));
    assert_eq!(run, store.project_run_dir("p"));
    assert!(Project::load("p", None).is_err());
    assert!(Project::load("p", Some(Err("bad yaml".to_string()))).is_err());
    let listed = store.list_projects(vec![
        ("b".to_string(), Ok(project(&store, "b"))),
        ("x".to_string(), Err(Error::Store("unreadable".to_string()))),
        ("a".to_string(), Ok(project(&store, "a"))),
    ]);
    let slugs: Vec<&str> = listed.iter().map(|p| p.0.as_str()).collect();
    assert_eq!(slugs, ["a", "b"]);
}

// Corpus entries

fn disk(paths: &[(&str, Result<&str, &str>)]) -> Table<OnDisk> {
    let mut out = Table::new();
    for (path, to) in paths {
        let at = match to {
            Ok(to) => OnDisk::At(to.to_string()),
            Err(why) => OnDisk::Absent(why.to_string()),
        };
        out.insert(path.to_string(), at);
    }
    out
}

const CORPUS: &str = "/data/store/projects/p/corpus";

#[test]
fn entries_resolve_inside_their_corpus() {
    let store = store();
    let found = disk(&[
        (CORPUS, Ok(CORPUS)),
        (
            "/data/store/projects/p/corpus/findings/x.md",
            Ok("/data/store/projects/p/corpus/findings/x.md"),
        ),
        (
            "/data/store/projects/p/corpus/findings/link.md",
            Ok("/etc/passwd"),
        ),
        (
            "/data/store/projects/p/corpus/findings",
            Ok("/data/store/projects/p/corpus/findings"),
        ),
        ("/data/store/projects/p/corpus/findings/gone.md", Err("no such file")),
        ("/data/store/projects/p/corpus/findings/2026", Err("no such file")),
        ("/data/store/projects/p/corpus/findings/2026/y.md", Err("no such file")),
    ]);
    let read = |rel: &str| store.resolve_corpus_entry("p", rel, EntryAccess::Read, &found);
    assert_eq!(
        read(" findings/x.md ").unwrap(),
        "/data/store/projects/p/corpus/findings/x.md"
    );
    assert!(read("findings/link.md").unwrap_err().message().contains("resolves outside"));
    assert_eq!(
        read("findings/gone.md").unwrap_err().message(),
        "store error: findings/gone.md: no such file"
    );
    assert_eq!(
        store
            .resolve_corpus_entry("p", "findings/2026/y.md", EntryAccess::Destination, &found)
            .unwrap(),
        "/data/store/projects/p/corpus/findings/2026/y.md"
    );
    let lost = store
        .resolve_corpus_entry("q", "findings/x.md", EntryAccess::Read, &disk(&[]))
        .unwrap_err()
        .message();
    assert!(lost.contains("project q has no corpus directory"), "{lost}");
}

#[test]
fn links_that_lead_nowhere_are_refused() {
    let store = store();
    let mut found = disk(&[
        (CORPUS, Ok(CORPUS)),
        (
            "/data/store/projects/p/corpus/findings",
            Ok("/data/store/projects/p/corpus/findings"),
        ),
        ("/data/store/projects/p/corpus/findings/link/y.md", Err("no such file")),
        ("/data/store/projects/p/corpus/techniques", Ok("/elsewhere")),
        ("/data/store/projects/p/corpus/techniques/y.md", Err("no such file")),
    ]);
    found.insert(
        "/data/store/projects/p/corpus/findings/link".to_string(),
        OnDisk::Broken("no such file".to_string()),
    );
    let to = |rel: &str| {
        store
            .resolve_corpus_entry("p", rel, EntryAccess::Destination, &found)
            .unwrap_err()
            .message()
    };
    assert_eq!(to("findings/link"), "store error: findings/link: no such file");
    assert_eq!(to("findings/link/y.md"), "store error: findings/link/y.md: no such file");
    assert!(to("techniques/y.md").contains("resolves outside"));
    assert!(store
        .resolve_corpus_entry("p", "findings/link", EntryAccess::Read, &found)
        .is_err());
}

#[test]
fn entries_are_refused_for_their_text_first() {
    let store = store();
    let none = disk(&[]);
    let message = |rel: &str, access| {
        store
            .resolve_corpus_entry("p", rel, access, &none)
            .unwrap_err()
            .message()
    };
    assert_eq!(message("  ", EntryAccess::Read), "store error: path is empty");
    assert!(message("/etc/passwd", EntryAccess::Read).contains("must be relative"));
    assert!(message("findings/../x", EntryAccess::Read).contains("ParentDir"));
    assert!(message("notes/x", EntryAccess::Read).contains("\"notes\" is not a corpus category"));
    assert!(message("runs/x.raw", EntryAccess::Mutate).contains("never changed"));
    assert!(message("findings", EntryAccess::Mutate).contains("a whole category"));
    assert!(message("runs/x.raw", EntryAccess::Read).contains("no corpus directory"));
}

#[test]
fn entries_are_removed_moved_and_written_with_care() {
    let store = store();
    let found = disk(&[
        (CORPUS, Ok(CORPUS)),
        (
            "/data/store/projects/p/corpus/findings/x.md",
            Ok("/data/store/projects/p/corpus/findings/x.md"),
        ),
        (
            "/data/store/projects/p/corpus/attacks/a",
            Ok("/data/store/projects/p/corpus/attacks/a"),
        ),
        (
            "/data/store/projects/p/corpus/attacks",
            Ok("/data/store/projects/p/corpus/attacks"),
        ),
        ("/data/store/projects/p/corpus/attacks/b", Err("no such file")),
        ("/data/store/projects/p/corpus/attacks/b/x.md", Err("no such file")),
    ]);
    assert_eq!(
        store.delete_corpus_entry("p", "attacks/a", true, &found, true).unwrap(),
        "/data/store/projects/p/corpus/attacks/a"
    );
    assert!(store
        .delete_corpus_entry("p", "attacks/a", false, &found, true)
        .unwrap_err()
        .message()
        .contains("pass recursive"));
    let moved = store
        .move_corpus_entry("p", "findings/x.md", "attacks/b/x.md", false, &found, false)
        .unwrap();
    assert_eq!(moved.plan, MovePlan::Rename);
    assert_eq!(moved.dst, "/data/store/projects/p/corpus/attacks/b/x.md");
    assert!(store
        .move_corpus_entry("p", "findings/x.md", "attacks/a", false, &found, true)
        .unwrap_err()
        .message()
        .contains("pass overwrite"));
    assert_eq!(
        store
            .move_corpus_entry("p", "findings/x.md", "attacks/a", true, &found, true)
            .unwrap()
            .plan,
        MovePlan::Replace
    );
    assert_eq!(
        store
            .move_corpus_entry("p", "findings/x.md", "findings/x.md", false, &found, true)
            .unwrap()
            .plan,
        MovePlan::Nothing
    );
    let file = store
        .write_corpus_entry("p", "findings/x.md", "new", &found, false)
        .unwrap();
    assert_eq!(file.path, "/data/store/projects/p/corpus/findings/x.md");
    assert_eq!(file.text, "new");
    assert!(store
        .write_corpus_entry("p", "attacks/a", "new", &found, true)
        .unwrap_err()
        .message()
        .contains("entry_write replaces a file"));
}

// Missions

fn mission(agent: &str) -> Mission {
    Mission {
        agent: agent.to_string(),
        pins: Table::new(),
        budget: None,
        created: 1,
        name: None,
        session: None,
        opencode_session: None,
        launch_requested: None,
    }
}

#[test]
fn missions_are_read_back_as_they_were_written() {
    let store = store();
    let file = store
        .write_mission("p", "m", true, &mission("a"), Ok(()), "agent: a\n", "the brief\n")
        .unwrap();
    assert_eq!(file.path, "/data/store/projects/p/missions/m.md");
    assert_eq!(Mission::head("p", "m", Some(&file.text)).unwrap(), "agent: a\n");
    assert_eq!(
        store.mission_brief("p", "m", Some(&file.text)).unwrap(),
        "the brief\n"
    );
    let again = store
        .update_mission("p", "m", Some(&file.text), true, &mission("b"), Ok(()), "agent: b\n")
        .unwrap();
    assert_eq!(
        store.mission_brief("p", "m", Some(&again.text)).unwrap(),
        "the brief\n"
    );
    assert!(store.mission_brief("p", "m", None).is_err());
    assert!(store.mission_brief("p", "m", Some("no head")).is_err());
    assert!(store
        .write_mission("p", "m", false, &mission("a"), Ok(()), "agent: a\n", "x")
        .is_err());
    let loaded = store
        .load_mission("p", "m", Some(&file.text), Ok(mission("a")))
        .unwrap();
    assert_eq!(loaded.agent, "a");
    assert!(store.load_mission("p", "m", None, Ok(mission("a"))).is_err());
    assert_eq!(
        store
            .load_mission("p", "m", Some(&file.text), Ok(mission("")))
            .unwrap_err()
            .message(),
        "store error: mission missing agent ref"
    );
    assert!(store.delete_mission("p", "m", false).is_err());
    assert_eq!(
        store.delete_mission("p", "m", true).unwrap(),
        "/data/store/projects/p/missions/m.md"
    );
    assert_eq!(mission_slug("m.md").as_deref(), Some("m"));
    assert_eq!(mission_slug("m.txt"), None);
}

#[test]
fn missions_need_a_mapping_for_their_record() {
    let store = store();
    for head in ["[\n", "- a\n", "text\n"] {
        let raw = format!("---\n{head}---\n\nthe brief\n");
        assert!(Mission::head("p", "m", Some(&raw)).is_err(), "{head}");
        assert!(store.mission_brief("p", "m", Some(&raw)).is_err(), "{head}");
        assert!(store.load_mission("p", "m", Some(&raw), Ok(mission("a"))).is_err(), "{head}");
        assert!(store
            .update_mission("p", "m", Some(&raw), true, &mission("b"), Ok(()), "agent: b\n")
            .is_err());
    }
    let error = store.mission_brief("p", "m", Some("---\n[\n---\n\nx")).unwrap_err();
    assert!(error.message().starts_with("yaml error: "), "{}", error.message());
}

#[test]
fn updates_write_only_what_is_read_back() {
    let store = store();
    let raw = "---\nagent: a\n---\n\n---\nthe brief\n---\n";
    let update = |head: &str| {
        store.update_mission("p", "m", Some(raw), true, &mission("b"), Ok(()), head)
    };
    let mut text = raw.to_string();
    for agent in ["b", "c", "d"] {
        let head = format!("agent: {agent}\n");
        let file = store
            .update_mission("p", "m", Some(&text), true, &mission(agent), Ok(()), &head)
            .unwrap();
        assert_eq!(Mission::head("p", "m", Some(&file.text)).unwrap(), head);
        text = file.text;
        assert_eq!(
            store.mission_brief("p", "m", Some(&text)).unwrap(),
            "---\nthe brief\n---\n"
        );
    }
    for head in ["agent: b", "agent: b\n---\nname: n\n", "- agent\n"] {
        assert_eq!(
            update(head).unwrap_err().message(),
            "store error: mission m: the record would not be read back",
            "{head}"
        );
    }
}

#[test]
fn scopes_have_no_default() {
    assert!(project_slug_env(None).unwrap_err().contains("CORPUS_PROJECT is unset"));
    assert!(project_slug_env(Some("  ")).is_err());
    assert!(project_slug_env(Some("Bad")).unwrap_err().contains("CORPUS_PROJECT=\"Bad\""));
    assert_eq!(project_slug_env(Some(" p ")).unwrap(), "p");
    assert_eq!(
        Scope::from_env_strict(&store(), Some("p"), true).unwrap().project,
        "p"
    );
    assert!(Scope::from_env_strict(&store(), Some("p"), false).is_err());
}

#[test]
fn preferences_are_never_in_the_way() {
    assert_eq!(load_prefs(None).chat_model, "");
    let prefs = AppPrefs { chat_model: "m".to_string() };
    assert_eq!(load_prefs(Some(prefs)).chat_model, "m");
}

// The audit log

fn record(i: usize) -> AuditRecord {
    AuditRecord::new(
        7,
        "curator:keeper".to_string(),
        "agent_set_role".to_string(),
        format!("agents/a{i}"),
        Outcome::Done,
        "set to tester".to_string(),
    )
}

#[test]
fn the_log_only_ever_grows() {
    let all = tail((0..3).map(record).collect(), 100);
    assert_eq!(all.len(), 3);
    assert_eq!(all[0].target, "agents/a0", "oldest first");
    assert_eq!(all[2].target, "agents/a2");
    assert_eq!(all[0].actor, "curator:keeper");
    let last_two = tail((0..3).map(record).collect(), 2);
    assert_eq!(last_two.len(), 2);
    assert_eq!(last_two[0].target, "agents/a1");
    assert_eq!(log_lines("a\n\n  \nb\n"), ["a", "b"]);
}

#[test]
fn the_log_lives_outside_the_project_it_describes() {
    let store = store();
    let at = log_path(&store, "p");
    assert!(
        !path::within(&at, &store.project_dir("p")),
        "an agent can write its own project; the log must not be in it"
    );
    assert!(path::within(&at, &store.var_dir()));
    assert!(tail(Vec::new(), 10).is_empty());
}

#[test]
fn tables_walk_their_keys_in_order() {
    let mut table = Table::new();
    let mut model = BTreeMap::new();
    for key in ["b", "a", "é", "B", "aa", "b"] {
        table.insert(key.to_string(), key.len());
        model.insert(key.to_string(), key.len());
    }
    let keys: Vec<&String> = (0..table.len()).map(|i| table.key_at(i)).collect();
    assert_eq!(keys, model.keys().collect::<Vec<_>>());
    assert_eq!(table.remove("aa"), Some(2));
    assert_eq!(table.remove("aa"), None);
    assert!(!table.contains_key("aa"));
}

#[test]
fn the_store_is_where_the_settings_say() {
    assert_eq!(Store::from_env(Some("/elsewhere"), "/home/me").root(), "/elsewhere");
    assert_eq!(Store::from_env(None, "/home/me").root(), "/home/me/.corpus/store");
    assert_eq!(store().actor(), "operator");
    assert_eq!(store().with_actor("curator".to_string()).actor(), "curator");
    assert_eq!(store().opencode_agent_dir("p"), "/data/var/run/p/.opencode/agent");
    assert!(path::within(&store().project_chat_dir("p"), &store().var_dir()));
    assert!(path::within(&store().prefs_path(), "/data"));
    let scope = Scope::new("p".to_string());
    assert_eq!(scope.runs_dirs(&store()), ["/data/store/projects/p/corpus/runs"]);
}

#[test]
fn missions_are_listed_by_slug() {
    let listed = store().list_missions(vec![
        ("b".to_string(), Ok(mission("x"))),
        ("broken".to_string(), Err(Error::Store("no".to_string()))),
        ("a".to_string(), Ok(mission("y"))),
    ]);
    let slugs: Vec<&str> = listed.iter().map(|(slug, _)| slug.as_str()).collect();
    assert_eq!(slugs, ["a", "b"]);
}
