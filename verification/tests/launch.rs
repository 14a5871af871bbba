use corpus_core::agents::sidecar::{AgentConfig, AgentSidecar};
use corpus_core::environment_session::EnvironmentSessionId;
use corpus_core::error::Error;
use corpus_core::json::Json;
use corpus_core::launch::activity::{
    activity_from_idle, live_tui_sessions, mission_run_state, watched_log, MissionActivity,
    WORKING_WINDOW_SECS,
};
use corpus_core::launch::command::{
    opencode_args, shell_quote, tui_script, BackendIdentity, LaunchEnvironment,
};
use corpus_core::launch::executables::{
    opencode_candidates, resolve, resolve_opencode, tmux_available, tmux_candidates,
    tmux_version_supported,
};
use corpus_core::launch::plan::{LaunchMode, LaunchPlan};
use corpus_core::launch::policy::{
    accept_secret, agent_default_model, agent_file_stem, control_file, opencode_agent_handle,
    opencode_control_password, pick_model, resolve_launch_model, secret_of,
};
use corpus_core::launch::process::{
    cleanup_error, missing_stream_error, timeout_error, wait_error, wait_step, Capped,
    CleanupStep, CommandOutput, Polled, WaitAction,
};
use corpus_core::launch::session::{
    close_tui_checked, Backend, ExportNeed, Lookup, RunSession, TuiBackend,
};
use corpus_core::launch::start::{
    execute_plan, name_tui, piped_log, start_piped, start_tui, wants_control, PipedLog, Route,
    TuiInputs,
};
use corpus_core::launch::tmux::{
    attach_argv, capture_command, check_started, external_attach_argv, kill_tmux_session_checked,
    new_session_args, session_setup, tui_attach_command, Killed, Liveness, Started,
};
use corpus_core::launch::transcript::{
    artifact_stem, conversation_since, create_piped, export_record, find_opencode_session,
    select_session, session_conversation, session_raw_log, session_stamp, valid_existing_export, Export, ExportAction,
    ExportEvent, Record, Tail, EXPORT_LIMIT,
};
use corpus_core::models::{ModelEntry, ModelRegistry};
use corpus_core::store::layout::{
    Store, AGENT_ENV, ENVIRONMENT_SESSION_ENV, HANDLE_ENV, MISSION_ENV, RUN_ID_ENV, RUN_LOG_ENV,
    SOURCE_PINS_ENV,
};
use corpus_core::store::missions::Mission;
use corpus_core::table::Table;

fn from_value(value: &serde_json::Value) -> Json {
    match value {
        serde_json::Value::Null => Json::Null,
        serde_json::Value::Bool(b) => Json::Bool(*b),
        serde_json::Value::Number(n) => Json::Number(n.to_string()),
        serde_json::Value::String(s) => Json::Text(s.clone()),
        serde_json::Value::Array(v) => Json::Array(v.iter().map(from_value).collect()),
        serde_json::Value::Object(m) => {
            let mut out = Table::new();
            for (k, v) in m {
                out.insert(k.clone(), from_value(v));
            }
            Json::Object(out)
        }
    }
}

fn j(text: &str) -> Json {
    from_value(&serde_json::from_str(text).unwrap())
}

fn store() -> Store {
    Store::new("/data/store".to_string())
}

fn run_id(project: &str, mission: &str, generation: u64) -> EnvironmentSessionId {
    EnvironmentSessionId {
        project: project.to_string(),
        mission: mission.to_string(),
        generation,
    }
}

fn output(success: bool, stdout: &str, stderr: &str, truncated: bool) -> CommandOutput {
    CommandOutput {
        success,
        stdout: stdout.as_bytes().to_vec(),
        stderr: stderr.to_string(),
        stdout_truncated: truncated,
    }
}

// Commands

#[test]
fn environment_projection_carries_exact_plan_identity() {
    let store = Store::new("/tmp/corpus-command-test/store".to_string());
    let id = run_id("alpha", "curator", 2);
    let plan = LaunchPlan::interactive(
        "alpha",
        "runner",
        "mlx/qwen3.8".to_string(),
        "probe",
        Some("{\"repo\":\"sha\"}"),
        Some("environment-key"),
        Some(&id),
    );
    let environment = LaunchEnvironment::from_plan(
        &store,
        &plan,
        &BackendIdentity {
            opencode: "/bin/opencode".to_string(),
            agent_stem: "runner".to_string(),
            handle: "Runner".to_string(),
            run_log: Some("run.raw".to_string()),
            run_identity: Some("corpus-run-1".to_string()),
            control_password: Some("secret".to_string()),
        },
    );
    let entries: std::collections::BTreeMap<&str, &str> = environment
        .entries
        .iter()
        .map(|(k, v)| (k.as_str(), v.as_str()))
        .collect();
    assert_eq!(entries[AGENT_ENV], "runner");
    assert_eq!(entries[HANDLE_ENV], "Runner");
    assert_eq!(entries[MISSION_ENV], "curator");
    assert_eq!(entries[RUN_ID_ENV], "corpus-run-1");
    assert_eq!(entries[RUN_LOG_ENV], "run.raw");
    assert_eq!(entries[SOURCE_PINS_ENV], "{\"repo\":\"sha\"}");
    assert_eq!(entries[ENVIRONMENT_SESSION_ENV], "environment-key");
    let names: Vec<&str> = environment.entries.iter().map(|e| e.0.as_str()).collect();
    assert_eq!(
        names,
        [
            "CORPUS_OPENCODE_BIN",
            "CORPUS_OPENCODE_AGENT",
            "CORPUS_OPENCODE_HANDLE",
            "CORPUS_PROJECT",
            "CORPUS_STORE",
            "CORPUS_OPENCODE_MODEL",
            "CORPUS_SOURCE_PINS",
            ENVIRONMENT_SESSION_ENV,
            "CORPUS_RUN_LOG",
            "CORPUS_MISSION",
            "CORPUS_RUN_ID",
            "OPENCODE_SERVER_PASSWORD",
        ]
    );
}

#[test]
fn shell_rendering_quotes_every_dynamic_value() {
    let quoted = shell_quote("x'; rm -rf /tmp/nope; #");
    assert_eq!(quoted, "'x'\\''; rm -rf /tmp/nope; #'");
}

#[test]
fn quoting_an_empty_value_keeps_it_a_word() {
    assert_eq!(shell_quote(""), "''");
    assert_eq!(shell_quote("'"), "''\\'''");
}

#[test]
fn tui_script_carries_session_and_prompt_flags() {
    let bare = tui_script(&Vec::new(), None, None, None);
    assert!(bare.contains("--agent \"$CORPUS_OPENCODE_HANDLE\""), "{bare}");
    assert!(!bare.contains("--session"), "a fresh launch resumes nothing: {bare}");
    assert!(!bare.contains("--prompt"), "{bare}");
    assert_eq!(
        bare,
        "#!/bin/sh\nexec \"$CORPUS_OPENCODE_BIN\" --agent \"$CORPUS_OPENCODE_HANDLE\" \
         --model \"$CORPUS_OPENCODE_MODEL\"\n"
    );

    let controlled = tui_script(
        &vec![("OPENCODE_SERVER_PASSWORD".to_string(), "secret".to_string())],
        None,
        None,
        Some(43_210),
    );
    assert!(controlled.contains("--hostname 127.0.0.1 --port 43210"), "{controlled}");
    assert!(controlled.contains("OPENCODE_SERVER_PASSWORD='secret'"));

    let resumed = tui_script(
        &Vec::new(),
        None,
        Some("ses_ff783a74dffeyTn76osPWIUX3L"),
        None,
    );
    assert!(
        resumed.contains("--session 'ses_ff783a74dffeyTn76osPWIUX3L'"),
        "{resumed}"
    );

    let quoted = tui_script(
        &Vec::new(),
        Some("go"),
        Some("x'; rm -rf /tmp/nope; #"),
        None,
    );
    assert!(quoted.contains(r"'x'\''; rm -rf /tmp/nope; #'"), "{quoted}");
    assert!(quoted.contains("--prompt 'go'"), "{quoted}");
}

#[test]
fn both_launch_paths_export_the_agent_identity_and_tui_session() {
    let plan = LaunchPlan::headless(
        "default",
        "discover",
        Some("test/model"),
        "probe",
        None,
        None,
        None,
    );
    let launch = start_piped(&store(), &plan, "/bin/echo", "discover", "/runs/run.log");
    let exported = &launch.environment.entries;
    let agent_env = exported.iter().find(|(k, _)| k == AGENT_ENV);
    assert_eq!(
        agent_env.map(|(_, v)| v.as_str()),
        Some("discover"),
        "the piped path must export {AGENT_ENV}; exported: {exported:?}"
    );

    let body = tui_script(
        &vec![
            (AGENT_ENV.to_string(), "discover".to_string()),
            (
                ENVIRONMENT_SESSION_ENV.to_string(),
                "p7-default-m5-probe-g3".to_string(),
            ),
        ],
        None,
        None,
        None,
    );
    assert!(
        body.contains(&format!("export {AGENT_ENV}='discover'")),
        "the TUI path must export {AGENT_ENV}: {body}"
    );
    assert!(
        body.contains(&format!(
            "export {ENVIRONMENT_SESSION_ENV}='p7-default-m5-probe-g3'"
        )),
        "the TUI path must export the durable environment session: {body}"
    );
}

#[test]
fn piped_arguments_leave_out_what_is_not_there() {
    let full = LaunchPlan::headless("p", "a", Some("m"), "do it", None, None, None);
    assert_eq!(
        opencode_args("A", &full),
        ["run", "--agent", "A", "-m", "m", "do it"]
    );
    let bare = LaunchPlan::headless("p", "a", None, "  \n", None, None, None);
    assert_eq!(opencode_args("A", &bare), ["run", "--agent", "A"]);
}

// Programs

#[test]
fn opencode_resolution_has_explicit_stable_precedence() {
    let candidates = opencode_candidates(Some("/w/path"), Some("/w/home"), Some("/w/resources"));
    assert_eq!(
        candidates,
        [
            "/w/path/opencode",
            "/w/home/.opencode/bin/opencode",
            "/w/resources/.opencode/node_modules/.bin/opencode",
        ]
    );
    assert_eq!(
        resolve(&candidates, &vec![true, true, true]).as_deref(),
        Some("/w/path/opencode")
    );
    assert_eq!(
        resolve(&candidates, &vec![false, true, true]).as_deref(),
        Some("/w/home/.opencode/bin/opencode")
    );
    assert_eq!(
        resolve(&candidates, &vec![false, false, true]).as_deref(),
        Some("/w/resources/.opencode/node_modules/.bin/opencode")
    );
    let err = resolve_opencode(&candidates, &vec![false, false, false])
        .unwrap_err()
        .message();
    assert!(err.contains("opencode binary not found"), "{err}");
    assert!(err.ends_with("Install it or put it on PATH."), "{err}");
}

#[test]
fn search_paths_are_walked_in_their_order() {
    assert_eq!(
        tmux_candidates(Some("/a:/b")),
        [
            "/a/tmux",
            "/b/tmux",
            "/opt/homebrew/bin/tmux",
            "/usr/local/bin/tmux",
            "/opt/local/bin/tmux",
            "/usr/bin/tmux",
        ]
    );
    assert_eq!(tmux_candidates(None).len(), 4);
    assert!(opencode_candidates(None, None, None).is_empty());
}

#[test]
fn tmux_capability_accepts_32_and_newer_release_shapes() {
    assert!(!tmux_version_supported("tmux 3.1c\n"));
    assert!(tmux_version_supported("tmux 3.2\n"));
    assert!(tmux_version_supported("tmux 3.2a\n"));
    assert!(tmux_version_supported("tmux next-3.4\n"));
    assert!(tmux_version_supported("tmux 4.0\n"));
    assert!(!tmux_version_supported("tmux unknown\n"));
    assert!(!tmux_version_supported("broken\n"));
}

#[test]
fn tmux_can_be_opted_out_of() {
    assert!(tmux_available(None, Some("tmux 3.4\n")));
    assert!(tmux_available(Some("0"), Some("tmux 3.4\n")));
    assert!(!tmux_available(Some("1"), Some("tmux 3.4\n")));
    assert!(!tmux_available(None, None));
}

// Plans

#[test]
fn plan_owns_every_launch_identity_input() {
    let mut project = "alpha".to_string();
    let mut prompt = "investigate".to_string();
    let id = run_id(&project, "curator-campaign", 3);
    let plan = LaunchPlan::interactive(
        &project,
        "runner",
        "mlx/qwen3.8".to_string(),
        &prompt,
        Some("{\"repo\":\"sha\"}"),
        Some("environment-key"),
        Some(&id),
    );
    project.clear();
    prompt.clear();
    assert_eq!(plan.project(), "alpha");
    assert_eq!(plan.agent(), "runner");
    assert_eq!(plan.model(), Some("mlx/qwen3.8"));
    assert_eq!(plan.mission(), "investigate");
    assert_eq!(plan.run_id(), Some(&id));
    assert_eq!(plan.mode(), &LaunchMode::Interactive);
    assert_eq!(plan.source_pins_json(), Some("{\"repo\":\"sha\"}"));
    assert_eq!(plan.environment_session(), Some("environment-key"));
}

#[test]
fn backend_specific_inputs_cannot_overlap() {
    let resume = LaunchPlan::resume("p", "a", "m".to_string(), "ses_1", None, None, None);
    assert_eq!(resume.resume_session(), Some("ses_1"));
    assert_eq!(resume.append_to(), None);
    let headless = LaunchPlan::headless(
        "p",
        "a",
        None,
        "prompt",
        Some("runs/existing.log"),
        None,
        None,
    );
    assert_eq!(headless.resume_session(), None);
    assert_eq!(headless.append_to(), Some("runs/existing.log"));
}

// Policy

#[test]
fn agent_names_are_bare() {
    assert_eq!(agent_file_stem("operator"), "operator");
    assert_eq!(agent_file_stem("Flow Agent"), "flow-agent");
    assert_eq!(agent_file_stem("My Auditor"), "my-auditor");
}

#[test]
fn launch_model_precedence_and_loud_failure() {
    assert_eq!(pick_model(Some("inst"), Some("arg")).as_deref(), Some("inst"));
    assert_eq!(pick_model(None, Some("arg")).as_deref(), Some("arg"));
    assert_eq!(pick_model(None, Some("  ")), None);
}

fn config(doc: &str) -> Result<AgentConfig, Error> {
    Ok(AgentConfig {
        meta: AgentSidecar {
            name: "Flow Runner".to_string(),
            created: 0,
            cloned_from: None,
            role: None,
            subagent_roles: Table::new(),
        },
        doc: j(doc),
        files: Table::new(),
    })
}

fn registry() -> Option<ModelRegistry> {
    let entry = |tag: &str, capabilities: Vec<String>| ModelEntry {
        tag: tag.to_string(),
        name: None,
        provider: "ollama".to_string(),
        params_b: None,
        context_k: None,
        capabilities,
        notes: String::new(),
    };
    Some(ModelRegistry {
        models: vec![
            entry("plain", Vec::new()),
            entry("tools", vec!["tool-use".to_string()]),
        ],
    })
}

#[test]
fn models_come_from_the_primary_the_caller_or_the_registry() {
    let with = config("{\"agent\": {\"sub\": {\"mode\": \"subagent\", \"model\": \"no\"}, \"a\": {\"model\": \" own \"}}}");
    let without = config("{\"agent\": {\"a\": {}}}");
    let of = |config: &Result<AgentConfig, Error>, asked: Option<&str>, registry| {
        resolve_launch_model("p", "a", config, asked, &registry)
    };
    assert_eq!(of(&with, Some("asked"), registry()).unwrap(), "own");
    assert_eq!(of(&without, Some("asked"), registry()).unwrap(), "asked");
    assert_eq!(of(&without, None, registry()).unwrap(), "ollama/tools");
    let err = of(&without, Some(" "), None).unwrap_err().message();
    assert!(err.contains("no model configured for agent a on p"), "{err}");
    assert!(err.ends_with("opencode's ambient default is never inherited"), "{err}");
    let broken: Result<AgentConfig, Error> = Err(Error::Store("gone".to_string()));
    assert_eq!(
        of(&broken, Some("asked"), registry()).unwrap_err().message(),
        "store error: agent p/a: store error: gone"
    );
    assert_eq!(agent_default_model(&with, &registry()).as_deref(), Some(" own "));
    assert_eq!(
        agent_default_model(&without, &registry()).as_deref(),
        Some("ollama/tools")
    );
    assert_eq!(agent_default_model(&broken, &registry()), None);
}

#[test]
fn handles_follow_the_display_name() {
    let agents = Some(vec![("runner".to_string(), config("{}").unwrap())]);
    assert_eq!(opencode_agent_handle(&agents, "runner"), "flow-runner");
    assert_eq!(opencode_agent_handle(&agents, "a--b"), "a--b");
    assert_eq!(opencode_agent_handle(&None, "runner"), "runner");
    assert_eq!(opencode_agent_handle(&None, "a--b"), "a--b");
}

#[test]
fn control_password_is_stable_private_and_outside_the_store() {
    let store = store();
    let first = opencode_control_password(&store, "run-a", None).unwrap();
    assert!(first.fresh);
    let kept = format!("{}\n", first.secret);
    let second = opencode_control_password(&store, "run-a", Some(&kept)).unwrap();
    let other = opencode_control_password(&store, "run-b", None).unwrap();
    assert!(!second.fresh);
    assert_eq!(first.secret, second.secret);
    assert_ne!(first.secret, other.secret);
    assert_eq!(first.secret.len(), 64);
    let path = control_file(&store, "run-a");
    assert!(path.starts_with("/data/var/opencode-control/"), "{path}");
    assert!(!path.starts_with(store.root()));
    assert_ne!(path, control_file(&store, "run-b"));
}

#[test]
fn malformed_control_secrets_are_refused() {
    let err = accept_secret("/var/x", "not a secret").unwrap_err().message();
    assert_eq!(err, "store error: OpenCode control token is malformed: /var/x");
    let short = "a".repeat(63);
    assert!(accept_secret("/var/x", &short).is_err());
    let upper = "A".repeat(64);
    assert_eq!(accept_secret("/var/x", &upper).unwrap(), upper);
    assert_eq!(secret_of(&Ok(vec![0, 255])).unwrap(), "00ff");
    assert_eq!(
        secret_of(&Err("no source".to_string())).unwrap_err().message(),
        "store error: cannot generate OpenCode control token: no source"
    );
}

// Processes

#[test]
fn bounded_output_caps_stdout_and_keeps_stderr_separate() {
    let mut stdout = Capped::new(5);
    stdout.take(b"123456789");
    let mut stderr = Capped::new(64 * 1024);
    stderr.take(b"problem");
    assert_eq!(stdout.retained, b"12345");
    assert_eq!(stderr.retained, b"problem");
    assert!(stdout.truncated);
    assert!(!stderr.truncated);
}

#[test]
fn capping_does_not_depend_on_the_chunks() {
    let mut whole = Capped::new(4);
    whole.take(b"abcdef");
    let mut pieces = Capped::new(4);
    pieces.take(b"abc");
    pieces.take(b"");
    pieces.take(b"def");
    assert_eq!(whole.retained, pieces.retained);
    assert_eq!(whole.truncated, pieces.truncated);
    let mut exact = Capped::new(3);
    exact.take(b"abc");
    assert!(!exact.truncated);
}

#[test]
fn children_are_waited_for_until_their_time_is_up() {
    assert_eq!(wait_step(Polled::Exited, 900, 100), WaitAction::Collect);
    assert_eq!(wait_step(Polled::Running, 99, 100), WaitAction::Sleep(20));
    assert_eq!(wait_step(Polled::Running, 100, 100), WaitAction::TimedOut);
    assert_eq!(
        wait_step(Polled::Failed("e".to_string()), 0, 100),
        WaitAction::Lost("e".to_string())
    );
}

#[test]
fn process_errors_name_what_was_left_behind() {
    let none: Vec<String> = Vec::new();
    let two = vec!["a".to_string(), "b".to_string()];
    assert_eq!(
        missing_stream_error("stdout", &none).message(),
        "store error: no stdout from opencode"
    );
    assert_eq!(
        missing_stream_error("stderr", &two).message(),
        "store error: no stderr from opencode; cleanup: a; b"
    );
    assert_eq!(
        timeout_error("opencode export", "10", &none).message(),
        "store error: opencode export timed out after 10s"
    );
    assert_eq!(
        timeout_error("fixture", "0.15", &two).message(),
        "store error: fixture timed out after 0.15s; cleanup: a; b"
    );
    assert_eq!(
        wait_error("fixture", "boom", &two).message(),
        "store error: cannot wait for fixture: boom; cleanup: a; b"
    );
    assert_eq!(
        cleanup_error(CleanupStep::PollBefore, 42, "e"),
        "poll child 42 before process-group cleanup: e"
    );
    assert_eq!(
        cleanup_error(CleanupStep::SignalGroup, 42, "e"),
        "signal process group 42: e"
    );
    assert_eq!(
        cleanup_error(CleanupStep::PollDuring, 42, "e"),
        "poll child 42 during cleanup: e"
    );
    assert_eq!(
        cleanup_error(CleanupStep::KillGroup, 42, "e"),
        "kill process group 42: e"
    );
    assert_eq!(cleanup_error(CleanupStep::KillChild, 42, "e"), "kill child 42: e");
    assert_eq!(cleanup_error(CleanupStep::Reap, 42, "e"), "reap child 42: e");
}

// Sessions by name

#[test]
fn session_raw_log_pairs_with_the_launch_stamp() {
    let store = store();
    let runs = "/data/store/projects/p/corpus/runs";
    assert_eq!(
        session_raw_log(&store, "p", "corpus-discover-1786911614"),
        Some(format!("{runs}/1786911614-discover.raw"))
    );
    assert_eq!(
        session_raw_log(&store, "p", "corpus-web-scanner-1786911614"),
        Some(format!("{runs}/1786911614-web-scanner.raw"))
    );
    assert_eq!(session_raw_log(&store, "p", "my-editor"), None);
    assert_eq!(session_raw_log(&store, "p", "corpus-discover-later"), None);
    assert_eq!(session_raw_log(&store, "p", "corpus-1786911614"), None);
    assert_eq!(session_stamp("corpus-discover-1786911614"), Some(1_786_911_614));
    assert_eq!(session_stamp("corpus--7"), None);
    assert_eq!(
        conversation_since("corpus-discover-1786911614"),
        Some(1_786_911_614_000)
    );
    assert_eq!(
        conversation_since("corpus-a-18446744073709551615"),
        Some(u64::MAX)
    );
}

#[test]
fn run_stems_separate_same_agent_missions() {
    let first = run_id("p", "curator-one", 1);
    let second = run_id("p", "curator-two", 1);
    assert_eq!(
        artifact_stem("shared-agent", Some(&first)),
        "shared-agent-curator-one-g1"
    );
    assert_ne!(
        artifact_stem("shared-agent", Some(&first)),
        artifact_stem("shared-agent", Some(&second))
    );
    assert_eq!(artifact_stem("Shared Agent", None), "shared-agent");
}

#[test]
fn activity_rule_maps_liveness_and_idle_to_state() {
    assert_eq!(activity_from_idle(false, Some(0)), MissionActivity::Idle);
    assert_eq!(activity_from_idle(false, None), MissionActivity::Idle);
    assert_eq!(activity_from_idle(true, Some(0)), MissionActivity::Working);
    assert_eq!(
        activity_from_idle(true, Some(WORKING_WINDOW_SECS - 1)),
        MissionActivity::Working
    );
    assert_eq!(
        activity_from_idle(true, Some(WORKING_WINDOW_SECS)),
        MissionActivity::Waiting
    );
    assert_eq!(activity_from_idle(true, Some(600)), MissionActivity::Waiting);
    assert_eq!(activity_from_idle(true, None), MissionActivity::Waiting);
}

#[test]
fn mission_run_state_is_idle_without_a_live_session() {
    let store = store();
    let mut mission = Mission {
        agent: "recon".to_string(),
        pins: Table::new(),
        budget: None,
        created: 0,
        name: None,
        session: None,
        opencode_session: None,
        launch_requested: None,
    };
    let state = mission_run_state(&mission, &[], Some(0));
    assert_eq!(state.activity, MissionActivity::Idle);
    assert_eq!(state.idle_secs, None);
    mission.session = Some("corpus-recon-1786911614".to_string());
    let state = mission_run_state(&mission, &["corpus-other-1".to_string()], Some(0));
    assert_eq!(state.activity, MissionActivity::Idle);
    assert_eq!(
        watched_log(&store, "p", &mission, &["corpus-other-1".to_string()]),
        None
    );

    let live = ["corpus-recon-1786911614".to_string()];
    let state = mission_run_state(&mission, &live, Some(0));
    assert_eq!(state.activity, MissionActivity::Working);
    assert_eq!(state.idle_secs, Some(0));
    assert_eq!(
        watched_log(&store, "p", &mission, &live).as_deref(),
        Some("/data/store/projects/p/corpus/runs/1786911614-recon.raw")
    );
}

#[test]
fn only_runs_are_listed_as_live() {
    assert_eq!(
        live_tui_sessions(Some("corpus-a-1\nmy-editor\ncorpus-b-2\n")),
        ["corpus-a-1", "corpus-b-2"]
    );
    assert!(live_tui_sessions(None).is_empty());
}

// Terminals

#[test]
fn detached_session_command_keeps_identity_cwd_and_script_separate() {
    assert_eq!(
        new_session_args("corpus-agent-42", "/tmp/project run", "/tmp/run script.sh"),
        [
            "new-session",
            "-d",
            "-s",
            "corpus-agent-42",
            "-c",
            "/tmp/project run",
            "/tmp/run script.sh"
        ]
    );
}

#[test]
fn pane_capture_shell_quotes_the_complete_path() {
    assert_eq!(
        capture_command("/tmp/raw capture's.log"),
        "cat >> '/tmp/raw capture'\\''s.log'"
    );
}

#[test]
fn embedded_attach_keeps_the_session_as_one_argument() {
    assert_eq!(
        attach_argv("/opt/tmux test/bin/tmux", "corpus-agent-42"),
        ["/opt/tmux test/bin/tmux", "attach", "-t", "corpus-agent-42"]
    );
    assert_eq!(tui_attach_command(None, "s"), None);
    assert_eq!(
        tui_attach_command(Some("tmux"), "s").unwrap(),
        ["tmux", "attach", "-t", "s"]
    );
}

#[test]
fn desktop_terminals_are_told_what_to_run() {
    assert_eq!(
        external_attach_argv("tmux", "s", None, Some("iTerm2"))[4],
        "tell application \"iTerm\" to do script \"tmux attach -t s\""
    );
    assert_eq!(
        external_attach_argv("tmux", "s", None, None)[2],
        "tell application \"Terminal\" to activate"
    );
    assert_eq!(
        external_attach_argv("tmux", "s", Some("Kitty"), Some("WezTerm"))[2],
        "tell application \"Kitty\" to activate"
    );
}

#[test]
fn sessions_are_set_up_after_they_started() {
    let environment = LaunchEnvironment {
        entries: vec![("K".to_string(), "v v".to_string())],
    };
    let calls = session_setup("s", &environment, "/r/x.raw");
    assert_eq!(calls.len(), 3);
    assert_eq!(calls[0], ["set-environment", "-t", "s", "K", "v v"]);
    assert_eq!(calls[1], ["set-option", "-t", "s", "mouse", "on"]);
    assert_eq!(calls[2], ["pipe-pane", "-t", "s", "cat >> '/r/x.raw'"]);

    assert!(check_started(Started::Exited { success: true, status: "0".to_string() }).is_ok());
    assert_eq!(
        check_started(Started::Missing).unwrap_err().message(),
        "store error: tmux vanished"
    );
    assert_eq!(
        check_started(Started::Failed("e".to_string())).unwrap_err().message(),
        "store error: failed to spawn tmux: e"
    );
    assert_eq!(
        check_started(Started::Exited { success: false, status: "exit 1".to_string() })
            .unwrap_err()
            .message(),
        "store error: tmux refused the session: exit 1"
    );
}

#[test]
fn a_refused_kill_is_fine_once_the_session_is_gone() {
    let refused = |alive| Killed::Refused { status: "exit 1".to_string(), alive };
    assert!(kill_tmux_session_checked("s", Killed::Done).is_ok());
    assert!(kill_tmux_session_checked("s", refused(Ok(false))).is_ok());
    assert_eq!(
        kill_tmux_session_checked("s", refused(Ok(true))).unwrap_err().message(),
        "store error: tmux kill-session failed for s with exit 1; session is still alive"
    );
    assert_eq!(
        kill_tmux_session_checked("s", refused(Err(Error::Io("x".to_string()))))
            .unwrap_err()
            .message(),
        "io error: x"
    );
    assert_eq!(
        kill_tmux_session_checked("s", Killed::Unavailable).unwrap_err().message(),
        "store error: cannot stop tmux session: tmux is unavailable"
    );
    assert!(kill_tmux_session_checked("s", Killed::Failed(Error::Io("y".to_string()))).is_err());
}

#[test]
fn failed_probes_leave_a_session_live() {
    let mut known = Liveness { asked_at: 1000, live: true };
    assert!(!known.is_stale(1999));
    assert!(known.is_stale(2000));
    assert!(!known.is_stale(10));
    assert!(known.probed(2000, None));
    assert_eq!(known, Liveness { asked_at: 2000, live: true });
    assert!(!known.probed(3000, Some(false)));
    assert_eq!(known, Liveness { asked_at: 3000, live: false });
}

// Transcripts

#[test]
fn discovery_selects_the_oldest_eligible_unclaimed_session() {
    let list = j(
        "[{\"id\": \"before\", \"created\": 99, \"directory\": \"/tmp/project\"}, \
         {\"id\": \"other-dir\", \"created\": 101, \"directory\": \"/tmp/other\"}, \
         {\"id\": \"claimed\", \"created\": 102, \"directory\": \"/tmp/project\"}, \
         {\"id\": \"ours\", \"created\": 103, \"directory\": \"/tmp/project\"}, \
         {\"id\": \"later\", \"created\": 104, \"directory\": \"/tmp/project\"}]",
    );
    let claimed = ["claimed".to_string()];
    assert_eq!(
        select_session(&list, "/tmp/project", 100, &claimed).as_deref(),
        Some("ours")
    );
    assert_eq!(select_session(&j("{}"), "/tmp/project", 0, &[]), None);
    let odd = j(
        "[{\"id\": \"a\", \"created\": -1, \"directory\": \"/d\"}, \
         {\"id\": \"b\", \"created\": 1.5, \"directory\": \"/d\"}, \
         {\"id\": 3, \"created\": 1, \"directory\": \"/d\"}]",
    );
    assert_eq!(select_session(&odd, "/d", 0, &[]), None);
}

#[test]
fn listings_that_cannot_be_trusted_are_errors() {
    let listing = "[{\"id\": \"s\", \"created\": 7, \"directory\": \"/d\"}]";
    assert_eq!(
        find_opencode_session(&output(true, listing, "", false), "/d", 7, &[]).unwrap(),
        Some("s".to_string())
    );
    assert_eq!(
        find_opencode_session(&output(true, "[]", "", false), "/d", 7, &[]).unwrap(),
        None
    );
    let err = |o: CommandOutput| find_opencode_session(&o, "/d", 7, &[]).unwrap_err().message();
    assert_eq!(
        err(output(false, "[]", "", false)),
        "store error: opencode session list reported an error"
    );
    assert_eq!(
        err(output(true, "[]", "", true)),
        "store error: opencode session list exceeded its 1 MiB output cap"
    );
    assert!(err(output(true, "[", "", false))
        .starts_with("store error: opencode session list gave bad JSON: "));
}

#[test]
fn export_retries_a_transient_truncated_document() {
    let (mut export, first) = Export::start();
    assert_eq!(first, ExportAction::Run { delay_ms: 0 });
    let again = export.step(ExportEvent::Output(output(
        true,
        "{\"messages\":[\"partial",
        "",
        false,
    )));
    assert_eq!(again, ExportAction::Run { delay_ms: 50 });
    let done = export.step(ExportEvent::Output(output(true, "{\"messages\":[]}\n", "", false)));
    let ExportAction::Finish(Ok(text)) = done else {
        panic!("expected a document, got {done:?}");
    };
    assert_eq!(
        serde_json::from_str::<serde_json::Value>(&text).unwrap(),
        serde_json::from_str::<serde_json::Value>("{\"messages\": []}").unwrap()
    );
    assert_eq!(text, "{\n  \"messages\": []\n}");
}

fn failure(action: ExportAction) -> String {
    match action {
        ExportAction::Finish(Err(e)) => e.message(),
        other => panic!("expected a failure, got {other:?}"),
    }
}

#[test]
fn exports_fail_for_a_reason() {
    let once = |event| Export { done: 0 }.step(event);
    assert_eq!(
        failure(once(ExportEvent::Output(output(false, "", " \n", false)))),
        "store error: opencode export reported an error"
    );
    assert_eq!(
        failure(once(ExportEvent::Output(output(false, "", "no such session\n", false)))),
        "store error: opencode export reported an error: no such session"
    );
    assert_eq!(
        failure(once(ExportEvent::Output(output(true, "{}", "", true)))),
        "store error: opencode export exceeded its 128 KiB output cap"
    );
    assert!(failure(once(ExportEvent::Output(output(true, "{]", "", false))))
        .starts_with("store error: opencode export gave bad JSON: "));
    let capped = "[".repeat(1) + &" ".repeat(EXPORT_LIMIT - 1);
    assert_eq!(
        failure(once(ExportEvent::Output(output(true, &capped, "", false)))),
        "store error: opencode export hit its 128 KiB output cap"
    );
    assert_eq!(
        failure(once(ExportEvent::OutOfTime { seconds: "10".to_string() })),
        "store error: opencode export timed out after 10s"
    );
    assert_eq!(
        failure(once(ExportEvent::Failed(Error::Store("spawn".to_string())))),
        "store error: spawn"
    );
    let mut export = Export { done: 0 };
    let partial = || ExportEvent::Output(output(true, "{", "", false));
    assert_eq!(export.step(partial()), ExportAction::Run { delay_ms: 50 });
    assert_eq!(export.step(partial()), ExportAction::Run { delay_ms: 150 });
    assert!(failure(export.step(partial()))
        .starts_with("store error: opencode export gave incomplete JSON after 3 attempts: "));
}

#[test]
fn valid_existing_export_survives_a_capped_reexport() {
    let existing = Some(b"{\"info\":{\"id\":\"ses_large\"},\"messages\":[]}".to_vec());
    assert!(valid_existing_export(&existing));
    let zeros = "x".repeat(131_072);
    let failed = Export { done: 0 }.step(ExportEvent::Output(output(true, &zeros, "", false)));
    let ExportAction::Finish(result) = failed else {
        panic!("expected an end, got {failed:?}");
    };
    assert!(result.is_err());
    assert_eq!(
        export_record("/runs", "ses_large", result, &existing).unwrap(),
        Record::Keep("/runs/ses_large.json".to_string())
    );
    let lost = Err(Error::Store("capped".to_string()));
    assert!(export_record("/runs", "ses_large", lost, &None).is_err());
    assert!(!valid_existing_export(&Some(b"{\"messages\": 3}".to_vec())));
    assert!(!valid_existing_export(&Some(b"nope".to_vec())));
    let Record::Write(file) =
        export_record("/runs", "s", Ok("{}".to_string()), &existing).unwrap()
    else {
        panic!("a fresh export is written");
    };
    assert_eq!(file.path, "/runs/s.json");
    assert_eq!(file.text, "{}");
}

#[test]
fn tail_drains_buffered_lines_after_the_writer_goes_idle() {
    let mut tail = Tail::new();
    assert_eq!(tail.take_line(), None);
    assert_eq!(tail.look(13), Some(0));
    assert_eq!(tail.feed(13, "first\nsecond\n"), None);
    assert_eq!(tail.take_line().unwrap().text, "first");
    let consumed_length = tail.position;
    assert_eq!(tail.take_line().unwrap().text, "second");
    assert_eq!(tail.position, consumed_length);
    assert!(tail.take_line().is_none());
    assert_eq!(tail.look(13), None);
}

#[test]
fn tails_know_every_end_of_a_line() {
    let mut tail = Tail::new();
    assert_eq!(tail.feed(9, "a\r\nb\rc\nd"), None);
    assert_eq!(tail.take_line().unwrap().text, "a");
    assert_eq!(tail.take_line().unwrap().text, "b");
    assert_eq!(tail.take_line().unwrap().text, "c");
    assert!(tail.take_line().is_none());
    assert_eq!(tail.pending, "d");

    assert_eq!(tail.look(4), Some(0), "a capture that shrank is read anew");
    assert_eq!(tail.pending, "");

    let long = "é".repeat(8193);
    let line = tail.feed(4, &long).expect("too much waits for the end of its line");
    assert_eq!(line.text, long);
    assert!(!line.stderr);
    assert_eq!(tail.pending, "");
    let mut tail = Tail::new();
    assert_eq!(tail.feed(1, &"x".repeat(16384)), None);
}

#[test]
fn piped_logs_begin_with_what_they_are() {
    let file = create_piped("/runs", 17, "stem", "a", None, "Do THIS: now, and that; yes more words");
    assert_eq!(file.path, "/runs/17-stem-do-this-now-and-that-yes.log");
    assert_eq!(
        file.text,
        "# corpus run\n# agent: a\n# model: (default)\n# started: 17\n\
         # mission: Do THIS: now, and that; yes more words\n\n"
    );
    let file = create_piped("/runs", 17, "stem", "a", Some("m"), "");
    assert_eq!(file.path, "/runs/17-stem-.log");
    assert!(file.text.contains("# model: m\n"));
}

// Starting

#[test]
fn app_mission_launch_exports_exact_mission_and_run_identity() {
    let id = run_id("default", "curator-campaign", 7);
    let plan = LaunchPlan::interactive(
        "default",
        "operator",
        "test/model".to_string(),
        "probe",
        None,
        None,
        Some(&id),
    );
    assert_eq!(execute_plan(&plan, false).unwrap(), Route::Piped);
    let PipedLog::Create(log) = piped_log(&store(), &plan, 5) else {
        panic!("a fresh run begins its own log");
    };
    let launch = start_piped(&store(), &plan, "/bin/opencode", "operator", &log.path);
    let entries = &launch.environment.entries;
    let value = |key: &str| entries.iter().find(|e| e.0 == key).map(|e| e.1.as_str());
    assert_eq!(value("CORPUS_MISSION"), Some("curator-campaign"));
    assert_eq!(
        value("CORPUS_RUN_ID"),
        Some("5-operator-curator-campaign-g7-probe.log")
    );
    assert_eq!(
        launch.session.launch_identity().as_deref(),
        value("CORPUS_RUN_ID")
    );
    assert_eq!(launch.args, ["run", "--agent", "operator", "-m", "test/model", "probe"]);
}

#[test]
fn tui_raw_capture_is_durable_in_project_corpus() {
    let store = store();
    let id = run_id("default", "curator-campaign", 9);
    let plan = LaunchPlan::interactive(
        "default",
        "operator",
        "test/model".to_string(),
        "probe",
        None,
        None,
        Some(&id),
    );
    assert_eq!(execute_plan(&plan, true).unwrap(), Route::Tui);
    assert!(wants_control(&plan));
    let names = name_tui(&store, &plan, 1_786_911_614, "/tmp").unwrap();
    assert_eq!(names.session, "corpus-operator-curator-campaign-g9-1786911614");
    assert_eq!(
        names.raw,
        "/data/store/projects/default/corpus/runs/1786911614-operator-curator-campaign-g9.raw"
    );
    assert_eq!(
        names.script,
        "/tmp/corpus-operator-curator-campaign-g9-1786911614.sh"
    );
    assert_eq!(
        session_raw_log(&store, "default", &names.session).as_deref(),
        Some(names.raw.as_str())
    );
    let raw = names.raw.clone();
    let session = names.session.clone();
    let mut launch = start_tui(
        &store,
        &plan,
        names,
        TuiInputs {
            opencode: "/bin/opencode".to_string(),
            handle: "operator".to_string(),
            control_port: Some(43210),
            control_password: Some("secret".to_string()),
            workspace_id: "w".to_string(),
            repo: "/data/var/run/default".to_string(),
            launched_at_ms: 1_786_911_614_000,
        },
    );
    let script = &launch.script.text;
    assert!(script.contains("export CORPUS_MISSION='curator-campaign'"), "{script}");
    assert!(script.contains(&format!("export CORPUS_RUN_ID='{session}'")), "{script}");
    assert!(script.contains("--port 43210"), "{script}");
    assert!(script.contains("--prompt 'probe'"), "{script}");

    // No conversation was found: the raw capture is the transcript.
    assert_eq!(
        launch.session.export_transcript().unwrap(),
        ExportNeed::Search {
            directory: "/data/var/run/default".to_string(),
            since: 1_786_911_614_000,
        }
    );
    let ExportNeed::Ready(path) = launch.session.searched(None).unwrap() else {
        panic!("nothing is left to export");
    };
    let outcome = launch.session.stop_detailed(Vec::new(), Ok(path));
    assert_eq!(outcome.transcript, raw);
    assert_eq!(outcome.export_error, None);
    assert_eq!(launch.session.try_exit(true, None), Some(130));
}

#[test]
fn plans_find_their_backend() {
    let resume = LaunchPlan::resume("p", "a", "m".to_string(), "ses_1", None, None, None);
    assert_eq!(execute_plan(&resume, true).unwrap(), Route::Tui);
    assert_eq!(
        execute_plan(&resume, false).unwrap_err().message(),
        "store error: resume needs tmux — the piped backend has no session to re-open"
    );
    let headless = LaunchPlan::headless("p", "a", None, "x", Some("/l.log"), None, None);
    assert_eq!(execute_plan(&headless, true).unwrap(), Route::Piped);
    assert_eq!(
        piped_log(&store(), &headless, 1),
        PipedLog::Append("/l.log".to_string())
    );
    assert_eq!(
        name_tui(&store(), &headless, 1, "/tmp").unwrap_err().message(),
        "store error: interactive launch plan has no model"
    );
}

// Runs under way

fn tui(session_id: Option<&str>) -> RunSession {
    RunSession {
        transcript: "/runs/x.json".to_string(),
        backend: Backend::Tui(TuiBackend {
            session: "corpus-a-1".to_string(),
            workspace_id: "w".to_string(),
            control_port: Some(7),
            tui_session_id: session_id.map(|s| s.to_string()),
            launched_at_ms: 1000,
            stopped: false,
            exported: false,
            export_json: "/runs/x.json".to_string(),
            raw: "/runs/x.raw".to_string(),
            script: "/tmp/x.sh".to_string(),
            repo: "/repo".to_string(),
        }),
    }
}

fn piped() -> RunSession {
    RunSession {
        transcript: "/runs/1-a.log".to_string(),
        backend: Backend::Piped,
    }
}

#[test]
fn runs_say_what_they_are_known_by() {
    assert_eq!(tui(None).launch_identity().as_deref(), Some("corpus-a-1"));
    assert_eq!(tui(None).control_port(), Some(7));
    assert_eq!(tui(None).workspace_id().as_deref(), Some("w"));
    assert_eq!(piped().launch_identity().as_deref(), Some("1-a.log"));
    assert_eq!(piped().control_port(), None);
    assert_eq!(piped().workspace_id(), None);
    assert_eq!(piped().pty_attach_command(Some("tmux")), None);
    assert_eq!(
        tui(None).pty_attach_command(Some("tmux")).unwrap(),
        ["tmux", "attach", "-t", "corpus-a-1"]
    );
    assert_eq!(
        tui(None).attach_command(Some("tmux"), false, None, None).unwrap(),
        ["tmux", "attach", "-t", "corpus-a-1"]
    );
    assert_eq!(
        tui(None).attach_command(Some("tmux"), true, None, None).unwrap()[0],
        "osascript"
    );
    assert_eq!(tui(None).attach_command(None, true, None, None), None);
}

#[test]
fn conversations_are_found_once() {
    let mut run = tui(None);
    assert_eq!(run.lookup(999), Lookup::Wait);
    assert_eq!(
        run.lookup(1000),
        Lookup::Search { directory: "/repo".to_string(), since: 1000 }
    );
    assert_eq!(run.opencode_session_id(None), None);
    assert_eq!(
        run.opencode_session_id(Some("ses_1".to_string())).as_deref(),
        Some("ses_1")
    );
    assert_eq!(run.lookup(0), Lookup::Known("ses_1".to_string()));
    assert_eq!(piped().lookup(5000), Lookup::Wait);
    assert_eq!(piped().opencode_session_id(Some("x".to_string())), None);
}

#[test]
fn records_are_exported_once() {
    let mut run = tui(Some("ses_1"));
    assert_eq!(
        run.export_transcript().unwrap(),
        ExportNeed::Export {
            session: "ses_1".to_string(),
            directory: "/repo".to_string(),
            runs: "/runs".to_string(),
        }
    );
    run.record_at("/runs/ses_1.json");
    assert_eq!(
        run.export_transcript().unwrap(),
        ExportNeed::Ready("/runs/ses_1.json".to_string())
    );
    let mut run = tui(None);
    assert_eq!(
        run.searched(Some("ses_2".to_string())).unwrap(),
        ExportNeed::Export {
            session: "ses_2".to_string(),
            directory: "/repo".to_string(),
            runs: "/runs".to_string(),
        }
    );
    assert_eq!(
        piped().export_transcript().unwrap(),
        ExportNeed::Ready("/runs/1-a.log".to_string())
    );
    let mut odd = tui(Some("s"));
    if let Backend::Tui(tui) = &mut odd.backend {
        tui.export_json = String::new();
    }
    assert_eq!(
        odd.export_transcript().unwrap_err().message(),
        "store error: export path has no runs dir"
    );
}

#[test]
fn stopping_always_leaves_a_transcript() {
    let mut run = tui(Some("ses_1"));
    assert_eq!(run.try_exit(true, None), None);
    assert_eq!(run.try_exit(false, None), Some(0));
    let outcome = run.stop_detailed(
        vec!["left".to_string()],
        Err(Error::Store("no export".to_string())),
    );
    assert_eq!(outcome.transcript, "/runs/x.raw");
    assert_eq!(
        outcome.export_error.as_deref(),
        Some("transcript export failed: store error: no export")
    );
    assert_eq!(outcome.cleanup_errors, ["left"]);
    assert_eq!(run.try_exit(true, None), Some(130));

    let mut run = piped();
    assert_eq!(run.try_exit(true, Some(3)), Some(3));
    let outcome = run.stop_detailed(Vec::new(), Ok("ignored".to_string()));
    assert_eq!(outcome.transcript, "/runs/1-a.log");

    assert!(close_tui_checked(&Ok(()), "/tmp/x.sh", None).is_empty());
    assert_eq!(
        close_tui_checked(&Err(Error::Store("alive".to_string())), "/tmp/x.sh", Some("busy")),
        ["store error: alive", "remove run script /tmp/x.sh: busy"]
    );
}

#[test]
fn conversations_are_found_only_for_runs() {
    let listing = "[{\"id\": \"s\", \"created\": 7000, \"directory\": \"/d\"}]";
    let listed = output(true, listing, "", false);
    let found = |session: &str, claimed: &[String]| {
        session_conversation(Some(&listed), "/d", session, claimed)
    };
    assert_eq!(found("corpus-red-7", &[]).as_deref(), Some("s"));
    assert_eq!(found("corpus-red-8", &[]), None);
    assert_eq!(found("corpus-red-7", &["s".to_string()]), None);
    assert_eq!(found("other-red-7", &[]), None);
    assert_eq!(session_conversation(None, "/d", "corpus-red-7", &[]), None);
    let failed = output(false, listing, "", false);
    assert_eq!(session_conversation(Some(&failed), "/d", "corpus-red-7", &[]), None);
}

#[test]
fn exported_numbers_are_printed_as_they_were_read() {
    let mut state: u64 = 0x9e37_79b9_7f4a_7c15;
    for _ in 0..2000 {
        state ^= state << 13;
        state ^= state >> 7;
        state ^= state << 17;
        let float = f64::from_bits(state);
        if !float.is_finite() {
            continue;
        }
        let text = format!("{{\"cost\": {float:e}, \"small\": {}}}", float % 1.0);
        let Ok(value) = serde_json::from_str::<serde_json::Value>(&text) else {
            continue;
        };
        let (mut export, _) = Export::start();
        assert_eq!(
            export.step(ExportEvent::Output(output(true, &text, "", false))),
            ExportAction::Finish(Ok(serde_json::to_string_pretty(&value).unwrap()))
        );
    }
}
