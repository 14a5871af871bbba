use corpus_core::error::Error;
use corpus_core::plugin::manifest::{
    PluginDir, PluginManifest, PluginManifestVersion, PluginOrigin, PluginSource,
};
use corpus_core::registry::pins::{
    check_pinned_plugin, check_tree, decide_pin, find_plugin, plugin_sources,
    prepare_source_pins, settle_pin, source_entries_for_plugin, validate_pin, KnownRefs,
    PinAnswer, PinNeed, SourceEntry,
};
use corpus_core::srcrev::fetch::{FetchAction, FetchEvent, FetchStage, SourceTree};
use corpus_core::srcrev::revs::{
    branch, cache_is_fresh, cache_path, cached_refs, is_commit_sha, parse_refs, remote_url,
    resolve_rev, revs_cache_fetched, selectable_revs, RevCache, REV_CACHE_TTL_SECS,
};
use corpus_core::store::layout::Store;
use corpus_core::store::provision::ProvisionStep;
use corpus_core::store::records::Project;
use corpus_core::table::Table;

const ONE: &str = "1111111111111111111111111111111111111111";
const TWO: &str = "2222222222222222222222222222222222222222";
const TAG: &str = "3333333333333333333333333333333333333333";

fn texts(pairs: &[(&str, &str)]) -> Table<String> {
    let mut out = Table::new();
    for (k, v) in pairs {
        out.insert(k.to_string(), v.to_string());
    }
    out
}

fn source(id: &str, repo: &str, rev: &str, sha: &str) -> PluginSource {
    PluginSource {
        id: id.to_string(),
        repo: repo.to_string(),
        default_rev: rev.to_string(),
        default_sha: sha.to_string(),
        mount: format!("/opt/src/{id}"),
    }
}

fn manifest(version: PluginManifestVersion, sources: Vec<PluginSource>) -> PluginManifest {
    PluginManifest {
        manifest_version: version,
        name: "cdk-regtest".to_string(),
        version: Some("1.0.0".to_string()),
        description: None,
        protocol: Some("corpus.environment/1".to_string()),
        executable: "plugin".to_string(),
        capabilities: Vec::new(),
        sources,
    }
}

fn answer(resolved: Result<&str, &str>, fetched: Result<&str, &str>) -> PinAnswer {
    let given = |r: Result<&str, &str>| {
        r.map(|s| s.to_string()).map_err(|e| Error::Store(e.to_string()))
    };
    PinAnswer {
        resolved: given(resolved),
        fetched: given(fetched),
    }
}

fn project(plugin: &str) -> Project {
    Project {
        name: "p".to_string(),
        plugin: plugin.to_string(),
        created: 1,
        cloned_from: None,
        corpus_generation: 0,
        pins: Table::new(),
    }
}

fn catalog(manifests: Vec<PluginManifest>) -> Vec<PluginDir> {
    manifests
        .into_iter()
        .map(|manifest| PluginDir {
            dir: "/plugins/x".to_string(),
            origin: PluginOrigin::Override,
            manifest,
        })
        .collect()
}

fn answers(name: &str, answer: PinAnswer) -> Table<PinAnswer> {
    let mut out = Table::new();
    out.insert(name.to_string(), answer);
    out
}

#[test]
fn commit_sha_is_exactly_40_lowercase_hex() {
    assert!(is_commit_sha("86a7c6cacb362daa67a0d636e303b66faf3965d9"));
    assert!(is_commit_sha(&"a".repeat(40)));
    assert!(!is_commit_sha("86A7C6CACB362DAA67A0D636E303B66FAF3965D9"));
    assert!(!is_commit_sha("86a7c6c"));
    assert!(!is_commit_sha(&"a".repeat(39)));
    assert!(!is_commit_sha(&"a".repeat(41)));
    assert!(!is_commit_sha("v0.18.0-rc.0"));
    assert!(!is_commit_sha("main"));
    assert!(!is_commit_sha(""));
    assert!(!is_commit_sha(&format!("{}g", "a".repeat(39))));
}

/// What git lists of a remote with two tags, one of them annotated.
fn listing(plain: &str, annotated: &str) -> String {
    format!(
        "{TWO}\tHEAD\n{TWO}\trefs/heads/main\n{ONE}\trefs/tags/{plain}\n\
         {TAG}\trefs/tags/{annotated}\n{TWO}\trefs/tags/{annotated}^{{}}\n"
    )
}

#[test]
fn ls_remote_maps_tags_and_heads() {
    let refs = parse_refs(&listing("v0.1.0", "v0.2.0"));
    assert!(refs.contains_key("main"), "main head present: {refs:?}");
    assert!(refs.contains_key("v0.1.0"));
    assert!(refs.contains_key("v0.2.0"));
    assert_eq!(refs.get("v0.2.0"), refs.get("main"));
    assert_eq!(refs.get("v0.1.0").map(|s| s.as_str()), Some(ONE));
}

#[test]
fn selectable_orders_pin_main_tags_desc() {
    let refs = Some(parse_refs(&listing("v9.9.9", "v0.2.0")));
    let revs = selectable_revs(&refs, "v0.1.0");
    assert_eq!(revs, ["main", "v0.1.0", "v9.9.9", "v0.2.0"]);
    let sha = resolve_rev(&refs, "t", "v0.2.0").unwrap();
    assert_eq!(sha.len(), 40);
    assert_eq!(sha, TWO);
    assert!(resolve_rev(&refs, "t", "v8.8.8").is_err());
    assert!(resolve_rev(&None, "t", "main").is_err());
    assert_eq!(selectable_revs(&None, "v0.1.0"), ["v0.1.0", "main"]);
    assert_eq!(selectable_revs(&None, "main"), ["main"]);
}

#[test]
fn tags_of_one_version_are_told_apart_by_their_tails() {
    let refs = Some(texts(&[
        ("v1.0.0-alpha", ONE),
        ("v1.0.0-beta", ONE),
        ("v0.9.2", ONE),
        ("v0.17.0", ONE),
        ("nightly", ONE),
        ("stable", ONE),
    ]));
    assert_eq!(
        selectable_revs(&refs, "v0.9.2"),
        ["v0.9.2", "v1.0.0-beta", "v1.0.0-alpha", "v0.17.0", "stable", "nightly"]
    );
}

#[test]
fn caches_are_used_until_they_are_stale() {
    let cache = |fetched: u64| {
        Some(RevCache {
            fetched,
            refs: texts(&[("main", ONE)]),
        })
    };
    assert!(cache_is_fresh(&cache(100), 100 + REV_CACHE_TTL_SECS - 1));
    assert!(!cache_is_fresh(&cache(100), 100 + REV_CACHE_TTL_SECS));
    assert!(!cache_is_fresh(&None, 0));
    assert_eq!(revs_cache_fetched(&cache(7)), Some(7));
    assert_eq!(revs_cache_fetched(&None), None);

    let fresh = cached_refs(cache(100), Some(texts(&[("main", TWO)])), 101);
    assert_eq!(fresh.refs.unwrap().get("main").map(|s| s.as_str()), Some(ONE));
    assert!(fresh.keep.is_none());
    let later = 100 + REV_CACHE_TTL_SECS;
    let stale = cached_refs(cache(100), Some(texts(&[("main", TWO)])), later);
    assert_eq!(stale.refs.unwrap().get("main").map(|s| s.as_str()), Some(TWO));
    assert_eq!(stale.keep.unwrap().fetched, later);
    let offline = cached_refs(cache(100), None, later);
    assert_eq!(offline.refs.unwrap().get("main").map(|s| s.as_str()), Some(ONE));
    assert!(cached_refs(None, None, later).refs.is_none());
}

#[test]
fn remotes_and_branches_are_told_by_their_shape() {
    assert_eq!(remote_url("cashubtc/cdk"), "https://github.com/cashubtc/cdk.git");
    assert_eq!(remote_url("/srv/repo"), "/srv/repo");
    assert_eq!(remote_url("https://x.org/r"), "https://x.org/r");
    assert!(branch("main"));
    assert!(!branch("v1.0.0"));
    assert!(cache_path("/s", "cdk").starts_with("/s/"));
}

#[test]
fn legacy_plugin_does_not_infer_repository_relative_sources() {
    let legacy = || manifest(PluginManifestVersion::Legacy, Vec::new());
    let entries = source_entries_for_plugin(&legacy());
    let sources = plugin_sources(
        Ok(project("cdk-regtest")),
        Ok(catalog(vec![legacy()])),
        &Table::new(),
    )
    .unwrap();
    assert!(sources.is_empty());
    let pins = texts(&[("cdk", "main")]);
    let got = prepare_source_pins(
        &pins,
        &entries,
        &answers("cdk", answer(Err("offline"), Err("offline"))),
    )
    .unwrap();
    assert_eq!(got.len(), 0);
    assert!(validate_pin(Some(&sources), "cdk", "anything").is_ok());
}

#[test]
fn branch_default_pin_resolves_live_head() {
    let head = TWO;
    let frozen = "deadbeefdeadbeefdeadbeefdeadbeefdeadbeef";
    let entries = source_entries_for_plugin(&manifest(
        PluginManifestVersion::V1,
        vec![source("nuts", "/remote", "main", frozen)],
    ));
    let pins = texts(&[("nuts", "main")]);
    let live = answers("nuts", answer(Ok(head), Ok(head)));
    let resolved = prepare_source_pins(&pins, &entries, &live).unwrap();
    assert_eq!(
        resolved.get("nuts").map(|s| s.as_str()),
        Some(head),
        "branch-valued manifest default resolves the live head, not the freeze"
    );

    let entries = source_entries_for_plugin(&manifest(
        PluginManifestVersion::V1,
        vec![source("nuts", "/nonexistent/corpus-nuts-branch", "main", ONE)],
    ));
    let offline = answers("nuts", answer(Err("offline"), Ok(ONE)));
    let resolved = prepare_source_pins(&pins, &entries, &offline).unwrap();
    assert_eq!(
        resolved.get("nuts").map(|s| s.as_str()),
        Some(ONE),
        "offline default degrades to the audited sha"
    );
    let other = texts(&[("nuts", "push")]);
    assert!(prepare_source_pins(&other, &entries, &offline).is_err());
}

#[test]
fn v1_manifest_owns_source_declarations_and_cache_custody() {
    let declared = || {
        manifest(
            PluginManifestVersion::V1,
            vec![source("target", "/remote", "v1.0.0", TWO)],
        )
    };
    let entries = source_entries_for_plugin(&declared());
    let mut known = Table::new();
    known.insert(
        "target".to_string(),
        KnownRefs {
            refs: Some(parse_refs(&listing("v0.1.0", "v1.0.0"))),
            fetched: Some(9),
        },
    );
    let sources = plugin_sources(
        Ok(project("cdk-regtest")),
        Ok(catalog(vec![declared()])),
        &known,
    )
    .unwrap();
    assert_eq!(sources.len(), 1);
    assert_eq!(sources[0].name, "target");
    assert_eq!(sources[0].pinned, "v1.0.0");
    assert_eq!(sources[0].refs_fetched, Some(9));
    assert_eq!(sources[0].default_rev(), "main");
    assert!(validate_pin(Some(&sources), "target", "v0.1.0").is_ok());
    assert!(validate_pin(Some(&sources), "target", "v7.7.7").is_err());

    let pins = texts(&[("target", "v1.0.0")]);
    let unasked = answers("target", answer(Err("not asked"), Ok(TWO)));
    let resolved = prepare_source_pins(&pins, &entries, &unasked).unwrap();
    assert_eq!(resolved.get("target").map(|s| s.as_str()), Some(TWO));

    let store = Store::new("/data/store".to_string());
    let run = store.project_run_dir("p");
    assert!(store
        .provision_run_dir("p", "/data/sources", "/res", false)
        .contains(&ProvisionStep::Link {
            target: "/data/sources".to_string(),
            link: format!("{run}/sources"),
        }));
}

#[test]
fn projects_without_a_plugin_have_no_sources() {
    let declared = || {
        catalog(vec![manifest(
            PluginManifestVersion::V1,
            vec![
                source("nuts", "/n", "main", ONE),
                source("cdk", "/c", "v1", ONE),
            ],
        )])
    };
    let missing = Error::Store("no project p".to_string());
    assert_eq!(
        plugin_sources(Err(missing), Ok(declared()), &Table::new())
            .unwrap_err()
            .message(),
        "store error: no project p"
    );
    let unread = Error::Io("no catalog".to_string());
    assert!(plugin_sources(Ok(project("cdk-regtest")), Err(unread), &Table::new()).is_err());
    let other = plugin_sources(Ok(project("other")), Ok(declared()), &Table::new()).unwrap();
    assert!(other.is_empty());
    let sources =
        plugin_sources(Ok(project("cdk-regtest")), Ok(declared()), &Table::new()).unwrap();
    let names: Vec<&str> = sources.iter().map(|s| s.name.as_str()).collect();
    assert_eq!(names, ["cdk", "nuts"]);
    for s in &sources {
        assert!(s.revs.contains(&s.pinned));
        assert_eq!(s.refs_fetched, None);
    }
    assert!(find_plugin(declared(), "other").is_none());
    assert_eq!(
        find_plugin(declared(), "cdk-regtest").unwrap().manifest.name,
        "cdk-regtest"
    );
}

#[test]
fn pins_whose_tree_is_elsewhere_are_refused() {
    let entries = source_entries_for_plugin(&manifest(
        PluginManifestVersion::V1,
        vec![source("cdk", "/remote", "v1", ONE)],
    ));
    let pins = texts(&[("cdk", "v2")]);
    let there = answers("cdk", answer(Ok(TWO), Ok(TWO)));
    let got = prepare_source_pins(&pins, &entries, &there).unwrap();
    assert_eq!(got.get("cdk").map(|s| s.as_str()), Some(TWO));
    let elsewhere = answers("cdk", answer(Ok(TWO), Ok(ONE)));
    assert_eq!(
        prepare_source_pins(&pins, &entries, &elsewhere)
            .unwrap_err()
            .message(),
        format!("store error: source pin cdk: the tree is at {ONE}, not at {TWO}")
    );
    let lost = answers("cdk", answer(Ok(TWO), Err("disk full")));
    assert!(prepare_source_pins(&pins, &entries, &lost).is_err());
    assert!(check_tree("cdk", ONE, &Ok(ONE.to_string())).is_ok());
}

#[test]
fn pins_need_what_they_need() {
    let entry = SourceEntry {
        repo: "r".to_string(),
        tag: "v1".to_string(),
        sha: ONE.to_string(),
    };
    assert_eq!(decide_pin("n", "v1", None).unwrap(), PinNeed::Skip);
    assert_eq!(decide_pin("n", " ", Some(&entry)).unwrap(), PinNeed::Skip);
    assert_eq!(
        decide_pin("n", TWO, Some(&entry)).unwrap(),
        PinNeed::Known(TWO.to_string())
    );
    assert_eq!(
        decide_pin("n", "v1", Some(&entry)).unwrap(),
        PinNeed::Known(ONE.to_string())
    );
    assert_eq!(decide_pin("n", "v2", Some(&entry)).unwrap(), PinNeed::Resolve);
    let homeless = SourceEntry {
        repo: String::new(),
        tag: "v1".to_string(),
        sha: ONE.to_string(),
    };
    assert_eq!(
        decide_pin("n", "v1", Some(&homeless)).unwrap_err().message(),
        "store error: source pin n: no repo URL in the plugin manifest"
    );
    let lost = || Err(Error::Store("offline".to_string()));
    assert_eq!(settle_pin("v1", &entry, lost()).unwrap(), ONE);
    assert!(settle_pin("v2", &entry, lost()).is_err());
    assert_eq!(settle_pin("v2", &entry, Ok(TWO.to_string())).unwrap(), TWO);
    assert!(check_pinned_plugin(&texts(&[]), "p", false).is_ok());
    assert!(check_pinned_plugin(&texts(&[("n", "v1")]), "p", true).is_ok());
    assert!(check_pinned_plugin(&texts(&[("n", "v1")]), "p", false).is_err());
}

fn tree() -> SourceTree {
    SourceTree {
        sources_dir: "/s".to_string(),
        name: "cdk".to_string(),
        repo: "/remote".to_string(),
        rev: "v1".to_string(),
        sha: ONE.to_string(),
    }
}

#[test]
fn trees_that_are_there_are_not_fetched_again() {
    let tree = tree();
    assert_eq!(tree.place(), format!("/s/cdk/{ONE}"));
    assert_eq!(
        tree.ask(FetchStage::Present),
        FetchAction::ReadHead(tree.place())
    );
    let (_, action) = tree.next(FetchStage::Present, FetchEvent::Head(Some(ONE.to_string())));
    assert_eq!(action, FetchAction::Done(tree.place()));
}

#[test]
fn trees_are_fetched_into_staging_and_checked() {
    let tree = tree();
    let mut stage = FetchStage::Present;
    let mut event = FetchEvent::Head(None);
    let mut gits: Vec<Vec<String>> = Vec::new();
    for _ in 0..20 {
        let (next, action) = tree.next(stage, event);
        stage = next;
        event = match action {
            FetchAction::MakeDir(dir) => {
                assert_eq!(dir, tree.staging());
                FetchEvent::Did(true)
            }
            FetchAction::Git(args) => {
                gits.push(args);
                FetchEvent::Did(true)
            }
            FetchAction::ReadHead(_) => FetchEvent::Head(Some(ONE.to_string())),
            FetchAction::Install { staged, dest } => {
                assert_eq!(staged, tree.staging());
                assert_eq!(dest, tree.place());
                FetchEvent::Installed(None)
            }
            FetchAction::Done(at) => {
                assert_eq!(at, tree.place());
                assert_eq!(gits.len(), 1);
                assert_eq!(
                    gits[0],
                    [
                        "clone", "--quiet", "--depth", "1", "--branch", "v1", "/remote",
                        &tree.staging(),
                    ]
                );
                return;
            }
            FetchAction::Fail(e) => panic!("failed: {}", e.message()),
        };
    }
    panic!("a fetch must end");
}

#[test]
fn trees_with_another_head_are_never_used() {
    let tree = tree();
    let mut stage = FetchStage::Present;
    let mut event = FetchEvent::Head(None);
    for _ in 0..40 {
        let (next, action) = tree.next(stage, event);
        stage = next;
        event = match action {
            FetchAction::MakeDir(_) | FetchAction::Git(_) => FetchEvent::Did(true),
            FetchAction::ReadHead(_) => FetchEvent::Head(Some(TWO.to_string())),
            FetchAction::Install { .. } => panic!("a tree with another head was installed"),
            FetchAction::Done(_) => panic!("a tree with another head was used"),
            FetchAction::Fail(_) => return,
        };
    }
    panic!("a fetch must end");
}
