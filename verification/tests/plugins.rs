use corpus_core::digest::{looks_like_sha256, plugin_bundle_digest, sha256_hex, BundleFile};
use corpus_core::environment_session::{
    close_environment_session, decide_close, open_environment_session, CloseAction,
    EnvironmentSessionId, EnvironmentSessionState, NextStep, SessionEvent, Stage,
};
use corpus_core::error::Error;
use corpus_core::json::Json;
use corpus_core::plugin::manifest::{
    PluginDir, PluginManifest, PluginManifestVersion, PluginOrigin, PluginSource,
};
use corpus_core::plugin::operation::{decide, Decision, OperationState, OperationStatus};
use corpus_core::plugin::params::{
    call_oracle_v1_params, faucet_params, faucet_v1_params, operation_status_params,
    sandbox_exec_params, sandbox_exec_v1_params, session_params, sources_params,
    wallet_fund_params, wallet_fund_v1_params,
};
use corpus_core::plugin::protocol::{
    call_timeout_ms, check_hello, check_lifecycle, finish_reply, finish_v1_line, lifecycle_step,
    poll_time, receive, request_line, FaucetCall, HelloResult, LifecycleAction, LifecycleEvent,
    LifecycleLine, LifecycleProgress, ProbeResult, ProtocolError, ProtocolV1Reply, Received, Reply,
    ReplyEvent,
};
use corpus_core::plugin_distribution::{
    check_cancelled, check_copied, check_length, curated_plugin, curated_plugins,
    extracted_bundle_root, install_curated_plugin, validate_archive_path, verify_archive_checksum,
    verify_catalog_identity, ArchiveEntry, CuratedInstallPhase, CuratedPlugin,
    CuratedPluginRequirement, CuratedStep, Download, DownloadStep, EntryKind, ExtractStep, Extraction,
    PluginCatalog, TopEntry, MAX_ARCHIVE_BYTES, MAX_ARCHIVE_ENTRIES, MAX_EXPANDED_BYTES,
};
use corpus_core::plugin_install::{
    admit_entry, call_plugin_lifecycle_cancellable, ensure_install_record, install_plugin_bundle,
    installed_record, receipt, select_plugin_version, selected_version, validate_component,
    verify_plugin_installation, BundleEntry, BundleStep, BundleWalk, CallEvent, CallStep, ExecFile,
    InstallRecord, InstallStep,
};
use corpus_core::registry::status::{
    plugin_status, plugin_status_for, read_status, selected_plugin_status, should_probe,
    PluginObservation, PluginPreparedStatus,
    ProbeOutcome,
};
use corpus_core::table::Table;

fn from_value(value: &serde_json::Value) -> Json {
    match value {
        serde_json::Value::Null => Json::Null,
        serde_json::Value::Bool(b) => Json::Bool(*b),
        serde_json::Value::Number(n) => Json::Number(n.to_string()),
        serde_json::Value::String(s) => Json::Text(s.clone()),
        serde_json::Value::Array(v) => Json::Array(v.iter().map(from_value).collect()),
        serde_json::Value::Object(m) => {
            let mut out = Table::new();
            for (k, v) in m {
                out.insert(k.clone(), from_value(v));
            }
            Json::Object(out)
        }
    }
}

fn j(text: &str) -> Json {
    from_value(&serde_json::from_str(text).unwrap())
}

fn manifest(name: &str, version: &str, capabilities: &[&str]) -> PluginManifest {
    PluginManifest {
        manifest_version: PluginManifestVersion::V1,
        name: name.to_string(),
        version: Some(version.to_string()),
        description: None,
        protocol: Some("corpus.environment/1".to_string()),
        executable: "bin/plugin".to_string(),
        capabilities: capabilities.iter().map(|c| c.to_string()).collect(),
        sources: Vec::new(),
    }
}

fn dir(manifest: PluginManifest, origin: PluginOrigin) -> PluginDir {
    PluginDir {
        dir: "/plugins/x".to_string(),
        origin,
        manifest,
    }
}

// Distribution

fn fixture(id: &str, version: &str, bytes: &[u8]) -> CuratedPlugin {
    CuratedPlugin {
        id: id.to_string(),
        name: "Fixture".to_string(),
        description: "Fixture plugin".to_string(),
        version: version.to_string(),
        url: "https://example.invalid/plugin.tar.gz".to_string(),
        sha256: sha256_hex(bytes),
        requirements: vec![CuratedPluginRequirement::Docker],
    }
}

fn catalog() -> PluginCatalog {
    PluginCatalog {
        catalog_version: 1,
        plugins: vec![
            fixture("cdk-regtest", "1.0.0", b"cdk"),
            fixture("nutshell-regtest", "1.0.0", b"nutshell"),
        ],
    }
}

#[test]
fn built_in_catalog_is_valid_and_stably_ordered() {
    let plugins = curated_plugins(Ok(catalog())).unwrap();
    assert_eq!(
        plugins.iter().map(|plugin| plugin.id.as_str()).collect::<Vec<_>>(),
        ["cdk-regtest", "nutshell-regtest"]
    );
    assert!(plugins
        .iter()
        .all(|plugin| plugin.requirements == [CuratedPluginRequirement::Docker]));
    assert_eq!(curated_plugin(&plugins, "cdk-regtest").unwrap().id, "cdk-regtest");
    assert!(curated_plugin(&plugins, "ghost").is_err());
}

#[test]
fn catalog_rejects_duplicate_ids_and_untrusted_metadata() {
    let mut duplicate = catalog();
    duplicate.plugins[1].id = "cdk-regtest".to_string();
    assert!(curated_plugins(Ok(duplicate))
        .unwrap_err()
        .message()
        .contains("duplicate curated plugin id"));
    let mut insecure = catalog();
    insecure.plugins[0].url = "http://example.invalid/plugin.tar.gz".to_string();
    assert!(curated_plugins(Ok(insecure))
        .unwrap_err()
        .message()
        .contains("HTTPS artifact URL"));
    let mut bad_digest = catalog();
    bad_digest.plugins[0].sha256 = "not-a-digest".to_string();
    assert!(curated_plugins(Ok(bad_digest))
        .unwrap_err()
        .message()
        .contains("invalid SHA-256"));
    let mut later = catalog();
    later.catalog_version = 2;
    assert!(curated_plugins(Ok(later)).is_err());
    assert!(curated_plugins(Err("not toml".to_string())).is_err());
}

fn entry(path: &str, kind: EntryKind, size: u64) -> ArchiveEntry {
    ArchiveEntry {
        path: path.to_string(),
        kind,
        size,
        mode: 0o755,
    }
}

#[test]
fn verified_archive_extracts_one_matching_bundle() {
    let bytes = b"an archive";
    let plugin = fixture("fixture-regtest", "1.0.0", bytes);
    verify_archive_checksum(bytes, &plugin.sha256).unwrap();
    let mut extraction = Extraction::new();
    extraction.count(false).unwrap();
    assert_eq!(
        extraction.place("/x", &entry("bundle", EntryKind::Dir, 0)).unwrap(),
        ExtractStep::MakeDir("/x/bundle".to_string())
    );
    extraction.count(false).unwrap();
    let step = extraction
        .place("/x", &entry("bundle/plugin", EntryKind::File, 9))
        .unwrap();
    let ExtractStep::WriteFile { target, mode } = step else {
        panic!("a file is written, not {step:?}");
    };
    assert_eq!(target, "/x/bundle/plugin");
    assert_ne!(mode & 0o111, 0);
    assert_eq!(extraction.expanded, 9);
    let top = vec![TopEntry {
        path: "/x/bundle".to_string(),
        is_dir: true,
        has_manifest: true,
    }];
    assert_eq!(extracted_bundle_root("/x", false, &top).unwrap(), "/x/bundle");
    verify_catalog_identity(&plugin, &manifest("fixture-regtest", "1.0.0", &[])).unwrap();
}

#[test]
fn archive_checksum_and_manifest_identity_fail_closed() {
    let bytes = b"an archive";
    assert!(verify_archive_checksum(bytes, &"0".repeat(64))
        .unwrap_err()
        .message()
        .contains("checksum mismatch"));
    let wrong = fixture("another-plugin", "1.0.0", bytes);
    assert!(verify_catalog_identity(&wrong, &manifest("fixture-regtest", "1.0.0", &[]))
        .unwrap_err()
        .message()
        .contains("expected another-plugin@1.0.0"));
}

#[test]
fn archive_paths_must_remain_relative_and_normal() {
    assert!(validate_archive_path("plugin/plugin.toml").is_ok());
    assert!(validate_archive_path("../plugin.toml").is_err());
    assert!(validate_archive_path("./plugin.toml").is_err());
    assert!(validate_archive_path("/plugin.toml").is_err());
}

#[test]
fn extraction_is_bounded() {
    let mut extraction = Extraction {
        entries: MAX_ARCHIVE_ENTRIES,
        expanded: 0,
    };
    assert!(extraction.count(false).is_err());
    assert!(Extraction::new().count(true).is_err());
    let mut extraction = Extraction::new();
    assert!(extraction
        .place("/x", &entry("a", EntryKind::File, MAX_EXPANDED_BYTES + 1))
        .is_err());
    assert!(Extraction::new().place("/x", &entry("a", EntryKind::Other, 0)).is_err());
    assert_eq!(
        Extraction::new()
            .place("/x", &entry("pax", EntryKind::GlobalAttributes, 0))
            .unwrap(),
        ExtractStep::Skip
    );
    assert!(check_copied(&entry("a", EntryKind::File, 4), 4).is_ok());
    assert!(check_copied(&entry("a", EntryKind::File, 4), 3).is_err());
    assert!(extracted_bundle_root("/x", false, &Vec::new()).is_err());
    assert_eq!(extracted_bundle_root("/x", true, &Vec::new()).unwrap(), "/x");
}

#[test]
fn downloads_are_bounded_and_can_be_cancelled() {
    let plugin = fixture("p", "1.0.0", b"x");
    assert!(check_length(&plugin, None).is_ok());
    assert!(check_length(&plugin, Some(MAX_ARCHIVE_BYTES)).is_ok());
    assert!(check_length(&plugin, Some(MAX_ARCHIVE_BYTES + 1)).is_err());
    let mut download = Download::new();
    assert_eq!(download.take(&plugin, false, 10), DownloadStep::Write);
    assert_eq!(download.total, 10);
    assert_eq!(download.take(&plugin, false, 0), DownloadStep::Complete);
    assert!(matches!(download.take(&plugin, true, 1), DownloadStep::Fail(_)));
    let mut full = Download { total: MAX_ARCHIVE_BYTES };
    assert!(matches!(full.take(&plugin, false, 1), DownloadStep::Fail(_)));
    assert!(check_cancelled(true).is_err());
    assert_eq!(
        CuratedInstallPhase::Downloading.next(),
        Some(CuratedInstallPhase::Verifying)
    );
    assert_eq!(CuratedInstallPhase::Installing.next(), None);
    assert!(!CuratedInstallPhase::Extracting.label().is_empty());
}

// Digests

#[test]
fn digests_are_the_known_ones() {
    assert_eq!(
        sha256_hex(b"abc"),
        "ba7816bf8f01cfea414140de5dae2223b00361a396177a9cb410ff61f20015ad"
    );
    assert!(looks_like_sha256(&sha256_hex(b"")));
    assert!(!looks_like_sha256("abc"));
    let file = |path: &str, bytes: &[u8]| BundleFile {
        path: path.to_string(),
        bytes: bytes.to_vec(),
    };
    let one = plugin_bundle_digest(&vec![file("a", b"xy")]);
    let other = plugin_bundle_digest(&vec![file("a", b"x"), file("y", b"")]);
    assert_ne!(one, other);
    assert_eq!(one, plugin_bundle_digest(&vec![file("a", b"xy")]));
    // Listed by components, in whatever order they were found.
    let listed = plugin_bundle_digest(&vec![file("a/b", b"1"), file("a.txt", b"2")]);
    assert_eq!(listed, "17cc1a00a44cb74a05754443bed7459efa2a0dc0999b5cdc91667a17fb19cbb2");
    assert_eq!(listed, plugin_bundle_digest(&vec![file("a.txt", b"2"), file("a/b", b"1")]));
}

// Installation

#[test]
fn installs_immutable_versions_and_explicitly_rolls_back_selection() {
    let root = "/home/plugins";
    let v1 = manifest("fixture-regtest", "1.0.0", &[]);
    let v2 = manifest("fixture-regtest", "2.0.0", &[]);
    let first = "a".repeat(64);
    let plan =
        install_plugin_bundle(root, "/b", &v1, ExecFile::Runnable, &first, None).unwrap();
    assert_eq!(plan.step, InstallStep::Stage);
    assert_eq!(plan.version, "1.0.0");
    let record = ensure_install_record(None, "f", "fixture-regtest", "1.0.0", &first, 3)
        .unwrap()
        .expect("a first installation is recorded");
    assert_eq!(record.digest, first);
    let selection = select_plugin_version(root, "fixture-regtest", "1.0.0", Ok(&v1)).unwrap();
    assert_eq!(selection.text, "1.0.0\n");
    assert_eq!(
        selected_version("fixture-regtest", Ok(Some(selection.text))).unwrap().as_deref(),
        Some("1.0.0")
    );
    assert_eq!(selected_version("fixture-regtest", Ok(None)).unwrap(), None);
    let read = installed_record(root, "fixture-regtest", "1.0.0", Ok(Ok(record))).unwrap();
    assert_eq!(read.digest, first);
    let got = receipt(root, "fixture-regtest", "2.0.0", &first, Some("1.0.0".to_string()));
    assert_eq!(got.previous.as_deref(), Some("1.0.0"));
    assert!(select_plugin_version(root, "fixture-regtest", "1.0.0", Ok(&v2)).is_err());

    // The same bytes again change nothing; other bytes are refused.
    let again =
        install_plugin_bundle(root, "/b", &v1, ExecFile::Runnable, &first, Some(&first)).unwrap();
    assert_eq!(again.step, InstallStep::Keep);
    assert_eq!(
        ensure_install_record(Some(Ok(read)), "f", "fixture-regtest", "1.0.0", &first, 9).unwrap(),
        None
    );
    let other = "b".repeat(64);
    assert!(
        install_plugin_bundle(root, "/b", &v1, ExecFile::Runnable, &other, Some(&first))
            .unwrap_err()
            .message()
            .contains("immutable versions cannot be overwritten")
    );

    // A damaged bundle is found before it is run.
    let installed = dir(v1, PluginOrigin::Installed);
    let recorded = || {
        Ok(InstallRecord {
            id: "fixture-regtest".to_string(),
            version: "1.0.0".to_string(),
            digest: "a".repeat(64),
            installed_at: 3,
        })
    };
    assert_eq!(
        verify_plugin_installation(&installed, recorded(), None, Ok(first.clone())).unwrap(),
        first
    );
    let error = verify_plugin_installation(&installed, recorded(), None, Ok(other))
        .unwrap_err()
        .message();
    assert!(error.contains("is damaged"), "{error}");
    let rows = plugin_status_for(
        vec![PluginObservation {
            plugin: installed,
            verified: Err(Error::Store(error)),
            probe: ProbeOutcome::NotProbed(Error::Store("unasked".to_string())),
        }],
        Some("fixture-regtest"),
        false,
    );
    assert!(!rows[0].ready);
    assert!(rows[0].notes.contains("bundle verification failed"), "{}", rows[0].notes);
}

#[test]
fn refuses_symlinks_and_non_executable_entrypoints() {
    let m = manifest("fixture-regtest", "1.0.0", &[]);
    let digest = "a".repeat(64);
    let install = |file| install_plugin_bundle("/r", "/b", &m, file, &digest, None);
    assert!(install(ExecFile::Plain).unwrap_err().message().contains("not executable"));
    assert!(install(ExecFile::NoFile).is_err());
    let link = admit_entry("manifest-link", "/b/manifest-link", BundleEntry::Other, BundleWalk::Digest);
    assert!(link.unwrap_err().message().contains("unsupported bundle entry"));
    let copied = admit_entry("a", "/b/a", BundleEntry::Other, BundleWalk::Copy);
    assert!(copied.unwrap_err().message().contains("only directories and regular files: /b/a"));
    assert_eq!(
        admit_entry("bin/plugin", "/b/bin/plugin", BundleEntry::File, BundleWalk::Copy).unwrap(),
        BundleStep::Take
    );
    assert_eq!(
        admit_entry(".git", "/b/.git", BundleEntry::Dir, BundleWalk::Copy).unwrap(),
        BundleStep::Skip
    );
    let mut legacy = manifest("fixture-regtest", "1.0.0", &[]);
    legacy.manifest_version = PluginManifestVersion::Legacy;
    assert!(
        install_plugin_bundle("/r", "/b", &legacy, ExecFile::Runnable, &digest, None).is_err()
    );
    let mut escaping = manifest("fixture-regtest", "1.0.0", &[]);
    escaping.executable = "../plugin".to_string();
    assert!(
        install_plugin_bundle("/r", "/b", &escaping, ExecFile::Runnable, &digest, None)
            .unwrap_err()
            .message()
            .contains("must stay inside its bundle")
    );
    assert!(validate_component("plugin id", "a/b").is_err());
    assert!(validate_component("plugin id", "cdk-regtest").is_ok());
}

#[test]
fn setups_fetch_their_sources_ask_and_call() {
    let mut m = manifest("x", "1.0.0", &[]);
    for id in ["a", "b"] {
        m.sources.push(PluginSource {
            id: id.to_string(),
            repo: "r".to_string(),
            default_rev: "v1".to_string(),
            default_sha: "1".repeat(40),
            mount: "/m".to_string(),
        });
    }
    let plugin = dir(m, PluginOrigin::Override);
    let begin = |method: &str| {
        call_plugin_lifecycle_cancellable(&plugin, method, "/run", "/cache").unwrap()
    };
    let (mut course, first) = begin("setup");
    assert_eq!(first, CallStep::Fetch(0));
    assert_eq!(
        course.params.get_text("idempotency_key"),
        Some("setup:x:1.0.0")
    );
    let m = &plugin.manifest;
    assert_eq!(course.step(m, CallEvent::Fetched(Ok(()))), CallStep::Fetch(1));
    assert_eq!(course.step(m, CallEvent::Fetched(Ok(()))), CallStep::Greet);
    assert_eq!(course.step(m, CallEvent::Greeted(Ok(()))), CallStep::Ask);
    let done = course.step(
        m,
        CallEvent::Status(Ok(status(OperationState::Succeeded, Some("{\"ready\": true}"), None))),
    );
    assert_eq!(done, CallStep::Finish(Ok(j("{\"ready\": true}"))));

    let (mut course, first) = begin("doctor");
    assert_eq!(first, CallStep::Greet);
    assert_eq!(course.params.get("sources"), None);
    assert_eq!(course.step(m, CallEvent::Greeted(Ok(()))), CallStep::Call);
    assert_eq!(
        course.step(m, CallEvent::Called(Ok(Json::Null))),
        CallStep::Finish(Ok(Json::Null))
    );
    let (mut course, _) = begin("setup");
    assert!(matches!(
        course.step(m, CallEvent::Fetched(Err(Error::Store("net".to_string())))),
        CallStep::Finish(Err(_))
    ));
    let mut legacy = manifest("x", "1.0.0", &[]);
    legacy.manifest_version = PluginManifestVersion::Legacy;
    let legacy = dir(legacy, PluginOrigin::Override);
    assert!(call_plugin_lifecycle_cancellable(&legacy, "setup", "/run", "/cache").is_err());
}

#[test]
fn setups_are_done_once() {
    let plugin = dir(manifest("x", "1.0.0", &[]), PluginOrigin::Override);
    let m = &plugin.manifest;
    let asked = |state: OperationState, error: Option<ProtocolError>| {
        let begun = call_plugin_lifecycle_cancellable(&plugin, "setup", "/run", "/cache");
        let (mut course, first) = begun.unwrap();
        assert_eq!(first, CallStep::Greet);
        assert_eq!(course.step(m, CallEvent::Greeted(Ok(()))), CallStep::Ask);
        course.step(m, CallEvent::Status(Ok(status(state, None, error))))
    };
    let refusal = |step: CallStep| match step {
        CallStep::Finish(Err(e)) => e.message(),
        other => panic!("{other:?}"),
    };
    assert_eq!(asked(OperationState::Succeeded, None), CallStep::Finish(Ok(Json::Null)));
    assert!(refusal(asked(OperationState::Running, None)).contains("is already running"));
    assert!(refusal(asked(OperationState::Failed, Some(protocol_error(false))))
        .contains("docker_unavailable: no daemon"));
    assert!(refusal(asked(OperationState::Failed, None))
        .contains("setup operation setup:x:1.0.0 previously failed"));
    assert_eq!(asked(OperationState::Failed, Some(protocol_error(true))), CallStep::Call);
    assert_eq!(asked(OperationState::Unknown, None), CallStep::Call);
}

// Protocol

fn status(
    state: OperationState,
    result: Option<&str>,
    error: Option<ProtocolError>,
) -> OperationStatus {
    OperationStatus {
        idempotency_key: "setup:project:mission:1".to_string(),
        state,
        result: result.map(j),
        error,
    }
}

fn protocol_error(retryable: bool) -> ProtocolError {
    ProtocolError {
        code: "docker_unavailable".to_string(),
        message: "no daemon".to_string(),
        retryable,
        details: None,
    }
}

#[test]
fn sandbox_calls_carry_source_pins() {
    let pins = j("{\"cdk\":\"bbbbbbbbbbbbbbbbbbbbbbbbbbbbbbbbbbbbbbbb\"}");
    let params = sandbox_exec_params("ls", pins.as_object());
    assert_eq!(
        params.get("sources").and_then(|s| s.get_text("cdk")),
        Some("bbbbbbbbbbbbbbbbbbbbbbbbbbbbbbbbbbbbbbbb")
    );
    let plain = sandbox_exec_params("ls", None);
    assert_eq!(plain.get("sources"), None);
    let line = request_line(4, "sandbox_exec", Some(plain));
    let request: serde_json::Value = serde_json::from_str(&line).unwrap();
    assert_eq!(request["id"].as_u64(), Some(4));
    assert_eq!(request["method"].as_str(), Some("sandbox_exec"));
}

#[test]
fn source_calls_carry_source_pins() {
    assert_eq!(sources_params(None).get("sources"), None);
    let pins = j("{\"cdk\": \"cccccccccccccccccccccccccccccccccccccccc\"}");
    assert_eq!(
        sources_params(pins.as_object()).get("sources").and_then(|s| s.get_text("cdk")),
        Some("cccccccccccccccccccccccccccccccccccccccc")
    );
}

#[test]
fn faucet_calls_carry_what_is_set() {
    let call = FaucetCall {
        invoice: None,
        amount_sat: Some(1000),
        memo: Some("test".to_string()),
    };
    let params = faucet_params("invoice", &call);
    assert_eq!(params.get_text("memo"), Some("test"));
    assert_eq!(params.get("amount_sat").and_then(|n| n.as_u64()), Some(1000));
    assert_eq!(params.get("invoice"), None);
    assert_eq!(session_params("s").get_text("session_id"), Some("s"));
}

#[test]
fn protocol_error_round_trips_as_plugin_error() {
    let reply = Reply {
        id: 3,
        ok: false,
        result: None,
        error: Some("unknown method: definitely-not-a-method".to_string()),
    };
    let Err(Error::Plugin { plugin: name, message }) =
        finish_reply("echo-plugin", 3, "{}", Ok(reply))
    else {
        panic!("expected Plugin error");
    };
    assert_eq!(name, "echo-plugin");
    assert!(message.contains("unknown method"));
    let other = Reply {
        id: 4,
        ok: true,
        result: None,
        error: None,
    };
    assert!(finish_reply("echo-plugin", 3, "{}", Ok(other)).is_err());
    assert!(finish_reply("echo-plugin", 3, "junk", Err("bad".to_string())).is_err());
}

#[test]
fn v1_hello_negotiates_the_declared_protocol() {
    let hello = HelloResult {
        protocol: "corpus.environment/1".to_string(),
        capabilities: vec!["lifecycle.setup".to_string()],
    };
    let declared = manifest("v1-echo", "1.0.0", &["lifecycle.setup"]);
    let hello = check_hello(&declared, hello).unwrap();
    assert_eq!(hello.protocol, "corpus.environment/1");
    assert_eq!(hello.capabilities, vec!["lifecycle.setup"]);
}

#[test]
fn v1_hello_refuses_manifest_executable_capability_drift() {
    let hello = HelloResult {
        protocol: "corpus.environment/1".to_string(),
        capabilities: vec!["lifecycle.setup".to_string()],
    };
    let error = check_hello(&manifest("v1-drift", "1.0.0", &["sessions"]), hello)
        .unwrap_err()
        .message();
    assert!(error.contains("do not match manifest"), "{error}");
    let foreign = HelloResult {
        protocol: "corpus.environment/2".to_string(),
        capabilities: vec!["sessions".to_string()],
    };
    assert!(check_hello(&manifest("v1-drift", "1.0.0", &["sessions"]), foreign).is_err());
}

fn progress(phase: &str) -> LifecycleLine {
    LifecycleLine::Progress(LifecycleProgress {
        id: 1,
        event: "progress".to_string(),
        phase: phase.to_string(),
        message: String::new(),
        completed: None,
        total: None,
    })
}

fn line(parsed: LifecycleLine) -> LifecycleEvent {
    LifecycleEvent::Line {
        line: "{}".to_string(),
        parsed: Ok(parsed),
    }
}

fn v1_reply(id: u64, ok: bool, error: Option<ProtocolError>) -> ProtocolV1Reply {
    ProtocolV1Reply {
        id,
        ok,
        result: if ok { Some(j("{\"ready\": true}")) } else { None },
        error,
    }
}

#[test]
fn v1_setup_streams_progress_then_one_terminal_result() {
    let mut phases = Vec::new();
    for event in [
        line(progress("dependency_fetch")),
        LifecycleEvent::Quiet { last: false },
        line(progress("verification")),
    ] {
        match lifecycle_step("v1-echo", "setup", 1, 2, event) {
            LifecycleAction::Report(p) => phases.push(p.phase),
            LifecycleAction::Wait => {}
            other => panic!("unexpected {other:?}"),
        }
    }
    assert_eq!(phases, vec!["dependency_fetch", "verification"]);
    let done = lifecycle_step(
        "v1-echo",
        "setup",
        1,
        2,
        line(LifecycleLine::Reply(v1_reply(1, true, None))),
    );
    assert_eq!(done, LifecycleAction::Done(j("{\"ready\": true}")));
}

fn lifecycle_error(method: &str, event: LifecycleEvent) -> (String, bool) {
    match lifecycle_step("v1-echo", method, 1, 2, event) {
        LifecycleAction::Fail { error, kill } => (error.message(), kill),
        other => panic!("expected a failure, got {other:?}"),
    }
}

#[test]
fn v1_lifecycle_errors_keep_stable_code_and_retryability() {
    let (error, _) = lifecycle_error("doctor", line(LifecycleLine::Reply(v1_reply(
        1,
        false,
        Some(protocol_error(true)),
    ))));
    assert!(error.contains("docker_unavailable"), "{error}");
    assert!(error.contains("retryable: true"), "{error}");
}

#[test]
fn v1_operation_status_makes_retry_decisions_explicit() {
    let done = status(OperationState::Succeeded, Some("{\"ready\": true}"), None);
    assert_eq!(done.idempotency_key, "setup:project:mission:1");
    assert_eq!(decide("p", "before", done), Decision::Use(j("{\"ready\": true}")));
    assert_eq!(
        decide("p", "before", status(OperationState::Unknown, None, None)),
        Decision::Perform
    );
    assert_eq!(
        decide("p", "before", status(OperationState::Running, None, None)),
        Decision::Running
    );
    assert_eq!(
        decide("p", "before", status(OperationState::Failed, None, Some(protocol_error(true)))),
        Decision::Perform
    );
    assert!(matches!(
        decide("p", "before", status(OperationState::Failed, None, Some(protocol_error(false)))),
        Decision::Refuse(_)
    ));
    let params = operation_status_params("key", &j("{\"a\": 1}"));
    assert_eq!(params.get_text("idempotency_key"), Some("key"));
}

#[test]
fn v1_lifecycle_rejects_a_mismatched_reply_id() {
    let (error, _) = lifecycle_error("status", line(LifecycleLine::Reply(v1_reply(9, true, None))));
    assert!(error.contains("does not match request id"), "{error}");
    assert!(finish_v1_line("p", 1, "{}", Ok(v1_reply(9, true, None))).is_err());
    assert!(finish_v1_line("p", 1, "{}", Ok(v1_reply(1, true, None))).is_ok());
    assert!(finish_v1_line("p", 1, "junk", Err("bad".to_string())).is_err());
}

#[test]
fn v1_lifecycle_cancellation_kills_a_silent_child_promptly() {
    let (error, kill) = lifecycle_error("stop", LifecycleEvent::Cancelled);
    assert!(error.contains("cancelled"), "{error}");
    assert!(kill);
}

#[test]
fn v1_lifecycle_outer_deadline_kills_a_silent_child() {
    let (error, kill) = lifecycle_error("stop", LifecycleEvent::Expired);
    assert!(error.contains("timed out"), "{error}");
    assert!(kill);
    let (error, _) = lifecycle_error("stop", LifecycleEvent::Quiet { last: true });
    assert!(error.contains("timed out"), "{error}");
    assert!(lifecycle_error("stop", LifecycleEvent::Closed).0.contains("closed"));
    assert_eq!(poll_time(1_000_000_000, 0), Some((100_000_000, false)));
    assert_eq!(poll_time(1_000_000_000, 950_000_000), Some((50_000_000, true)));
    assert_eq!(poll_time(1_000_000_000, 1_000_000_001), None);
}

#[test]
fn replies_are_waited_for_within_their_time() {
    assert_eq!(
        receive("p", "probe", 30, ReplyEvent::Line("x".to_string())),
        Received::Line("x".to_string())
    );
    assert!(matches!(
        receive("p", "probe", 30, ReplyEvent::Timeout),
        Received::Failed { kill: true, .. }
    ));
    assert!(matches!(
        receive("p", "probe", 30, ReplyEvent::Closed),
        Received::Failed { error: Error::PluginClosed(_), .. }
    ));
    assert_eq!(call_timeout_ms(Some("5000")), 5000);
    assert_eq!(call_timeout_ms(None), call_timeout_ms(Some("nonsense")));
    assert!(check_lifecycle("p", "setup").is_ok());
    assert!(check_lifecycle("p", "sandbox_exec").is_err());
}

// Status

#[test]
fn statuses_say_what_was_found() {
    let (probe, prepared) = read_status(&j(
        "{\"ready\": true, \"notes\": \"up\", \"environment_lock\": \"L\"}",
    ));
    assert!(probe.ready);
    assert_eq!(prepared.environment_lock.as_deref(), Some("L"));
    assert!(should_probe(Some("a"), false, "a"));
    assert!(!should_probe(Some("a"), false, "b"));
    assert!(should_probe(None, true, "b"));
    let observed = |probe| PluginObservation {
        plugin: dir(manifest("a", "1.0.0", &[]), PluginOrigin::Override),
        verified: Ok("d".repeat(64)),
        probe,
    };
    let ready = ProbeResult {
        ready: true,
        notes: "up".to_string(),
        running_version: None,
        expected_tag: None,
    };
    let rows = plugin_status_for(
        vec![observed(ProbeOutcome::Probed(ready, PluginPreparedStatus::default()))],
        Some("a"),
        false,
    );
    assert!(rows[0].ready && rows[0].probed);
    assert_eq!(rows[0].notes, "up");
    assert_eq!(rows[0].bundle_digest.as_deref(), Some("d".repeat(64).as_str()));
    let rows = plugin_status_for(
        vec![observed(ProbeOutcome::NotSpawned(Error::Store("no".to_string())))],
        Some("a"),
        false,
    );
    assert!(!rows[0].ready);
}

// Environment sessions

fn id() -> EnvironmentSessionId {
    EnvironmentSessionId {
        project: "default".to_string(),
        mission: "probe".to_string(),
        generation: 3,
    }
}

fn opening() -> corpus_core::environment_session::SessionCourse {
    let plugin = dir(manifest("env", "1.0.0", &["sessions"]), PluginOrigin::Override);
    open_environment_session(
        id(),
        "env",
        Some(&plugin),
        "digest".to_string(),
        Table::new(),
        "/runtime",
        "/cache",
        10,
    )
    .unwrap()
    .expect("the plugin has sessions")
}

#[test]
fn sessions_are_recorded_before_and_after_they_open() {
    assert_eq!(id().storage_key(), "p7-default-m5-probe-g3");
    let mut course = opening();
    assert_eq!(course.record.state, EnvironmentSessionState::Opening);
    assert_eq!(
        course.params.get_text("idempotency_key"),
        Some("session_open:p7-default-m5-probe-g3")
    );
    assert_eq!(
        course.params.get_text("state_dir"),
        Some("/runtime/state/p7-default-m5-probe-g3")
    );
    assert_eq!(course.step_open(SessionEvent::Saved(Ok(())), 11), NextStep::Greet);
    assert_eq!(course.step_open(SessionEvent::Greeted(Ok(())), 11), NextStep::Ask);
    let unknown = status(OperationState::Unknown, None, None);
    assert_eq!(course.step_open(SessionEvent::Status(Ok(unknown)), 11), NextStep::Call);
    let result = j("{\"environment_lock\": \"L\", \"image_digest\": \"I\"}");
    assert_eq!(course.step_open(SessionEvent::Called(Ok(result)), 12), NextStep::Save);
    assert_eq!(course.stage, Stage::Settling);
    assert_eq!(course.step_open(SessionEvent::Saved(Ok(())), 13), NextStep::Finish);
    let record = course.finish().unwrap();
    assert_eq!(record.state, EnvironmentSessionState::Ready);
    assert_eq!(record.environment_lock.as_deref(), Some("L"));
    assert_eq!(record.image_digest.as_deref(), Some("I"));
    assert_eq!((record.created, record.updated), (10, 12));

    let mut course = close_environment_session(record, true, "/runtime", 20).unwrap();
    assert_eq!(course.record.state, EnvironmentSessionState::Closing);
    assert_eq!(course.step_close(SessionEvent::Saved(Ok(())), 21), NextStep::Greet);
    assert_eq!(course.step_close(SessionEvent::Greeted(Ok(())), 21), NextStep::Ask);
    let unknown = status(OperationState::Unknown, None, None);
    assert_eq!(course.step_close(SessionEvent::Status(Ok(unknown)), 22), NextStep::Call);
    assert_eq!(course.step_close(SessionEvent::Called(Ok(Json::Null)), 22), NextStep::Save);
    assert_eq!(course.step_close(SessionEvent::Saved(Ok(())), 23), NextStep::Finish);
    let record = course.finish().unwrap();
    assert_eq!(record.state, EnvironmentSessionState::Closed);
    assert_eq!(record.cleanup_verified_at, Some(22));
}

#[test]
fn closing_again_cleans_up_again() {
    let mut record = opening().record;
    record.state = EnvironmentSessionState::Closed;
    record.cleanup_verified_at = Some(20);
    let mut course = close_environment_session(record, true, "/runtime", 30).unwrap();
    course.step_close(SessionEvent::Saved(Ok(())), 31);
    course.step_close(SessionEvent::Greeted(Ok(())), 31);
    let done = status(OperationState::Succeeded, None, None);
    assert_eq!(course.step_close(SessionEvent::Status(Ok(done)), 32), NextStep::Call);
    assert_eq!(course.step_close(SessionEvent::Called(Ok(Json::Null)), 33), NextStep::Save);
    assert_eq!(course.record.state, EnvironmentSessionState::Closed);
    assert_eq!(course.record.cleanup_verified_at, Some(33));

    let running = status(OperationState::Running, None, None);
    assert!(matches!(decide_close("env", running), CloseAction::Refuse(_)));
    let failed = status(OperationState::Failed, None, None);
    assert!(matches!(decide_close("env", failed), CloseAction::Refuse(_)));
}

#[test]
fn sessions_that_fail_say_why() {
    let mut course = opening();
    course.step_open(SessionEvent::Saved(Ok(())), 11);
    let failed = Err(Error::Store("spawn".to_string()));
    assert_eq!(course.step_open(SessionEvent::Greeted(failed), 12), NextStep::Save);
    assert_eq!(course.record.state, EnvironmentSessionState::Failed);
    assert_eq!(course.record.error.as_deref(), Some("store error: spawn"));
    assert_eq!(course.step_open(SessionEvent::Saved(Ok(())), 13), NextStep::Finish);
    assert_eq!(course.finish().unwrap_err().message(), "store error: spawn");

    let mut course = opening();
    course.step_open(SessionEvent::Saved(Ok(())), 11);
    course.step_open(SessionEvent::Greeted(Ok(())), 11);
    let running = status(OperationState::Running, None, None);
    assert_eq!(course.step_open(SessionEvent::Status(Ok(running)), 11), NextStep::Probe);
    course.step_open(SessionEvent::Probed(Ok(j("{\"ready\": false}"))), 12);
    assert!(course
        .record
        .error
        .as_deref()
        .unwrap()
        .contains("still running and the session is not ready"));

    let mut unsaved = opening();
    let full = Err(Error::Io("disk full".to_string()));
    assert_eq!(unsaved.step_open(SessionEvent::Saved(full), 11), NextStep::Finish);
    assert_eq!(unsaved.finish().unwrap_err().message(), "io error: disk full");

    let without = dir(manifest("env", "1.0.0", &[]), PluginOrigin::Override);
    let none = open_environment_session(
        id(),
        "env",
        Some(&without),
        String::new(),
        Table::new(),
        "/r",
        "/c",
        1,
    );
    assert_eq!(none.unwrap(), None);
    assert!(open_environment_session(
        id(),
        "env",
        None,
        String::new(),
        Table::new(),
        "/r",
        "/c",
        1
    )
    .unwrap_err()
    .message()
    .contains("plugin not found: env"));
}

#[test]
fn requests_carry_their_session() {
    let session = |params: &Json| params.get_text("session_id").map(|s| s.to_string());
    let exec = sandbox_exec_v1_params("s", "ls");
    assert_eq!(session(&exec).as_deref(), Some("s"));
    assert_eq!(exec.get_text("command"), Some("ls"));
    let oracle = call_oracle_v1_params("s", "001");
    assert_eq!(session(&oracle).as_deref(), Some("s"));
    assert_eq!(oracle.get_text("name"), Some("001"));
    let call = FaucetCall {
        invoice: Some("lnbcrt1".to_string()),
        amount_sat: None,
        memo: None,
    };
    let faucet = faucet_v1_params("s", "pay", &call);
    assert_eq!(session(&faucet).as_deref(), Some("s"));
    assert_eq!(faucet.get_text("op"), Some("pay"));
    assert_eq!(faucet.get("call").and_then(|c| c.get_text("invoice")), Some("lnbcrt1"));
    let fund = wallet_fund_v1_params("s", &j("{\"mint\": \"m\"}"));
    assert_eq!(session(&fund).as_deref(), Some("s"));
    let pins = j("{\"cdk\": \"c\"}");
    let legacy = wallet_fund_params(
        match j("{\"mint\": \"m\"}") {
            Json::Object(fields) => fields,
            _ => panic!("an object"),
        },
        pins.as_object(),
    );
    assert_eq!(legacy.get_text("mint"), Some("m"));
    assert_eq!(legacy.get("sources").and_then(|s| s.get_text("cdk")), Some("c"));
}

#[test]
fn installations_pass_every_phase() {
    let plugins = || curated_plugins(Ok(catalog())).unwrap();
    assert!(install_curated_plugin(plugins(), "ghost").is_err());
    let mut course = install_curated_plugin(plugins(), "nutshell-regtest").unwrap();
    assert_eq!(course.plugin.id, "nutshell-regtest");
    assert_eq!(course.phase, CuratedInstallPhase::Downloading);
    for next in [
        CuratedInstallPhase::Verifying,
        CuratedInstallPhase::Extracting,
        CuratedInstallPhase::Installing,
    ] {
        assert_eq!(course.step(Ok(()), false), CuratedStep::Run(next));
        assert_eq!(course.phase, next);
    }
    assert_eq!(course.step(Ok(()), true), CuratedStep::Done);

    let mut course = install_curated_plugin(plugins(), "cdk-regtest").unwrap();
    assert!(matches!(course.step(Ok(()), true), CuratedStep::Fail(_)));
    assert_eq!(course.step(Ok(()), false), CuratedStep::Run(CuratedInstallPhase::Verifying));
    let broken = Err(Error::Store("checksum mismatch".to_string()));
    assert!(matches!(course.step(broken, false), CuratedStep::Fail(_)));
}

#[test]
fn only_what_is_asked_for_is_probed() {
    let observed = |name: &str| PluginObservation {
        plugin: dir(manifest(name, "1.0.0", &[]), PluginOrigin::Override),
        verified: Ok("d".repeat(64)),
        probe: ProbeOutcome::NotProbed(Error::Store("down".to_string())),
    };
    let both = || vec![observed("a"), observed("b")];
    let probed = |rows: Vec<corpus_core::registry::status::PluginStatus>| {
        rows.iter().map(|row| row.probed).collect::<Vec<bool>>()
    };
    assert_eq!(probed(plugin_status(both())), [true, true]);
    assert_eq!(probed(selected_plugin_status(both(), Some("b"))), [false, true]);
    assert_eq!(probed(selected_plugin_status(both(), None)), [false, false]);
}
