use corpus_core::agents::render::RenderedAgent;
use corpus_core::agents::roles::{AgentRole, RolePrompts};
use corpus_core::agents::sidecar::AgentConfig;
use corpus_core::frontmatter;
use corpus_core::store::layout::Store;
use corpus_core::table::Table;

fn store() -> Store {
    Store::new("/world/store".to_string())
}

fn prompts() -> RolePrompts {
    RolePrompts {
        researcher: "You are the corpus RESEARCHER.".to_string(),
        tester: "You are the corpus TESTER.".to_string(),
        super_agent: "You are the corpus SUPER agent.".to_string(),
    }
}

fn created(role: AgentRole) -> (String, AgentConfig) {
    let slug = role.as_str();
    let write = store()
        .create_agent_with_role("p", slug, role, &prompts(), Ok(()), false, 1)
        .unwrap();
    let text = Ok(write.doc.unwrap().text);
    let config = store()
        .load_agent("p", slug, Some(&text), write.meta, Table::new())
        .unwrap();
    (slug.to_string(), config)
}

fn render(roles: &[AgentRole]) -> Vec<RenderedAgent> {
    let agents: Vec<(String, AgentConfig)> = roles.iter().map(|r| created(*r)).collect();
    store().render_project_agents(&agents, "p", &[]).unwrap()
}

fn render_role(role: AgentRole) -> String {
    render(&[role]).remove(0).body
}

fn head(agent_raw: &str) -> serde_yaml::Mapping {
    let split = frontmatter::split(agent_raw).expect("parse frontmatter");
    serde_yaml::from_str(&split.head.expect("agent file has frontmatter")).unwrap()
}

fn perm(agent_raw: &str) -> serde_yaml::Mapping {
    head(agent_raw)["permission"]
        .as_mapping()
        .cloned()
        .expect("permission is a mapping")
}

fn action(map: &serde_yaml::Mapping, key: &str) -> Option<String> {
    map.get(serde_yaml::Value::String(key.to_string()))
        .and_then(|v| v.as_str())
        .map(str::to_string)
}

fn matches_glob(p: &[u8], t: &[u8]) -> bool {
    match (p.split_first(), t.split_first()) {
        (None, None) => true,
        (Some((b'*', rest)), _) => {
            matches_glob(rest, t) || (!t.is_empty() && matches_glob(p, &t[1..]))
        }
        (Some((b'?', rest)), Some((_, t_rest))) => matches_glob(rest, t_rest),
        (Some((pat, rest)), Some((txt, t_rest))) if pat == txt => matches_glob(rest, t_rest),
        _ => false,
    }
}

fn permission_for(map: &serde_yaml::Mapping, path: &str) -> Option<String> {
    let mut out = None;
    for (k, v) in map {
        let (Some(pattern), Some(act)) = (k.as_str(), v.as_str()) else {
            continue;
        };
        if matches_glob(pattern.as_bytes(), path.as_bytes()) {
            out = Some(act.to_string());
        }
    }
    out
}

#[test]
fn roles_bind_their_trust_domains() {
    let files = render(&[AgentRole::Researcher, AgentRole::Tester]);
    let read_render = |slug: &str| {
        files
            .iter()
            .find(|f| f.file.ends_with(&format!("{slug}.md")))
            .unwrap()
            .body
            .clone()
    };
    let res = perm(&read_render("researcher"));
    for denied in [
        "corpus_sandbox_exec",
        "corpus_oracle_run",
        "corpus_faucet",
        "corpus_wallet_fund",
        "corpus_finding_write",
        "corpus_attack_save",
    ] {
        assert_eq!(action(&res, denied).as_deref(), Some("deny"), "{denied}");
    }
    assert_eq!(action(&res, "corpus_target_info").as_deref(), Some("allow"));
    assert_eq!(action(&res, "corpus_technique_save").as_deref(), Some("allow"));
    assert_eq!(action(&res, "webfetch").as_deref(), Some("allow"));
    assert_eq!(action(&res, "websearch").as_deref(), Some("allow"));
    assert_eq!(action(&res, "bash").as_deref(), Some("deny"));
    assert_eq!(action(&res, "external_directory").as_deref(), Some("deny"));

    let tester = perm(&read_render("tester"));
    for allowed in ["corpus_sandbox_exec", "corpus_oracle_run", "corpus_finding_write"] {
        assert_eq!(action(&tester, allowed).as_deref(), Some("allow"), "{allowed}");
    }
    assert_eq!(action(&tester, "webfetch").as_deref(), Some("deny"));
    assert_eq!(action(&tester, "websearch").as_deref(), Some("deny"));

    for map in [&res, &tester] {
        let task = map
            .get(serde_yaml::Value::String("task".to_string()))
            .and_then(|v| v.as_mapping())
            .expect("task is always written");
        assert_eq!(action(task, "*").as_deref(), Some("deny"));
    }
}

#[test]
fn the_boundary_holds_by_evaluation() {
    let rendered = render_role(AgentRole::Researcher);
    let perms = perm(&rendered);
    let read = perms["read"].as_mapping().cloned().unwrap();
    let write = perms["write"].as_mapping().cloned().unwrap();
    let root = store().root().to_string();

    for (path, expected, why) in [
        ("benchmarks/CDK-BENCH-0001.yaml".to_string(), "deny", "the answer key"),
        ("plugins/cdk-regtest/setup.sh".to_string(), "deny", "harness internals"),
        ("store/projects/p/corpus/hypotheses/x.md".to_string(), "allow", "own corpus"),
        (
            "store/projects/other/corpus/findings/x.md".to_string(),
            "deny",
            "another project",
        ),
        (
            format!("{root}/projects/other/corpus/findings/x.md"),
            "deny",
            "another project, by absolute path",
        ),
    ] {
        assert_eq!(
            permission_for(&read, &path).as_deref(),
            Some(expected),
            "read {why}: {path}"
        );
    }

    for (path, expected, why) in [
        ("store/projects/p/corpus/findings/x.md".to_string(), "allow", "own corpus"),
        (
            "store/projects/p/agents/researcher/agent.yaml".to_string(),
            "deny",
            "own sidecars",
        ),
        (
            "store/projects/other/corpus/findings/x.md".to_string(),
            "deny",
            "another project",
        ),
        (
            "store/hypotheses/legacy-flat-path.md".to_string(),
            "deny",
            "the legacy flat store",
        ),
        (
            "store/projects/p/corpus/runs/1786-x.raw".to_string(),
            "deny",
            "a run transcript",
        ),
        (
            format!("{root}/projects/p/corpus/runs/1786-x.raw"),
            "deny",
            "a run transcript, by absolute path",
        ),
    ] {
        assert_eq!(
            permission_for(&write, &path).as_deref(),
            Some(expected),
            "write {why}: {path}"
        );
    }
    assert_eq!(
        permission_for(&read, "store/projects/p/corpus/runs/1786-x.raw").as_deref(),
        Some("allow"),
        "a transcript stays readable"
    );
}

#[test]
fn every_role_renders_parseable_frontmatter() {
    for role in AgentRole::ALL {
        let rendered = render_role(role);
        let fm = head(&rendered);
        assert_eq!(
            fm["description"].as_str(),
            Some(role.default_description()),
            "{} description must survive the round trip intact",
            role.as_str()
        );
        assert!(
            fm["permission"].as_mapping().is_some(),
            "{}: the permission block must be reachable",
            role.as_str()
        );
    }
}

#[test]
fn every_role_produces_a_bound_agent() {
    for role in AgentRole::ALL {
        let rendered = render_role(role);
        assert!(rendered.contains("## Corpus scope (bound at launch)"), "{role:?}");
        assert!(rendered.contains("You are bound to project `p`"), "{role:?}");
        let prompts = prompts();
        assert!(!role.default_prompt(&prompts).trim().is_empty(), "{role:?}");
        assert!(!role.default_prompt(&prompts).contains("store/projects/"), "{role:?}");
        assert!(rendered.contains(role.default_prompt(&prompts)), "{role:?}");
    }
}

#[test]
fn roles_narrow_and_never_widen() {
    for a in AgentRole::ALL {
        assert!(!a.hint().is_empty());
        for b in AgentRole::ALL {
            let both = a.narrow(b);
            assert_eq!(both, b.narrow(a));
            for tool in both.tools() {
                assert!(a.allows(tool) && b.allows(tool));
            }
        }
    }
    assert!(AgentRole::Researcher.grants_web());
    assert!(!AgentRole::Tester.grants_web());
}
