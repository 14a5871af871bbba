use std::collections::{BTreeMap, BTreeSet};

use corpus_core::agents::binding::{bind_paths, bind_permission, DataRoots, RenderCtx};
use corpus_core::agents::document::FileText;
use corpus_core::agents::handles::{primary_handles, slug_fragment};
use corpus_core::agents::manage::{stored_refs, AgentWrite};
use corpus_core::agents::render::{RenderedAgent, SourcePin};
use corpus_core::agents::roles::{infer_role, AgentRole, RolePrompts, CORPUS_TOOLS};
use corpus_core::agents::sidecar::{entry_role, AgentConfig, AgentSidecar, RoleMigration};
use corpus_core::error::Error;
use corpus_core::json::Json;
use corpus_core::store::layout::Store;
use corpus_core::table::Table;

/// A JSON value out of its text.
fn j(text: &str) -> Json {
    from_value(&serde_json::from_str(text).unwrap())
}

fn from_value(value: &serde_json::Value) -> Json {
    match value {
        serde_json::Value::Null => Json::Null,
        serde_json::Value::Bool(b) => Json::Bool(*b),
        serde_json::Value::Number(n) => Json::Number(n.to_string()),
        serde_json::Value::String(s) => Json::Text(s.clone()),
        serde_json::Value::Array(v) => Json::Array(v.iter().map(from_value).collect()),
        serde_json::Value::Object(m) => {
            let mut out = Table::new();
            for (k, v) in m {
                out.insert(k.clone(), from_value(v));
            }
            Json::Object(out)
        }
    }
}

fn doc(agents: &str) -> Json {
    j(&format!(
        "{{\"$schema\": \"https://opencode.ai/config.json\", \"agent\": {agents}}}"
    ))
}

fn prompts() -> RolePrompts {
    RolePrompts {
        researcher: "You are the corpus RESEARCHER.".to_string(),
        tester: "You are the corpus TESTER.".to_string(),
        super_agent: "You are the corpus SUPER.".to_string(),
    }
}

/// A store whose files are held in memory.
struct World {
    store: Store,
    projects: BTreeSet<String>,
    docs: BTreeMap<(String, String), FileText>,
    metas: BTreeMap<(String, String), AgentSidecar>,
}

fn key(project: &str, slug: &str) -> (String, String) {
    (project.to_string(), slug.to_string())
}

impl World {
    fn new() -> World {
        World {
            store: Store::new("/world/store".to_string()),
            projects: BTreeSet::new(),
            docs: BTreeMap::new(),
            metas: BTreeMap::new(),
        }
    }

    fn create_project(&mut self, slug: &str) {
        self.projects.insert(slug.to_string());
    }

    fn meta(&self, project: &str, slug: &str) -> Option<AgentSidecar> {
        self.metas.get(&key(project, slug)).map(|m| m.copy())
    }

    fn stored(&self, project: &str, slug: &str) -> Option<&FileText> {
        self.docs.get(&key(project, slug))
    }

    fn apply(&mut self, project: &str, slug: &str, write: AgentWrite) {
        if let Some(file) = write.doc {
            assert_eq!(file.path, self.store.agent_doc_path(project, slug));
            self.docs.insert(key(project, slug), Ok(file.text));
        }
        if let Some(meta) = write.meta {
            self.metas.insert(key(project, slug), meta);
        }
    }

    fn create_agent_with_role(
        &mut self,
        project: &str,
        slug: &str,
        role: AgentRole,
    ) -> Result<(), Error> {
        let loaded = if self.projects.contains(project) {
            Ok(())
        } else {
            Err(Error::Store(format!("project not found: {project}")))
        };
        let taken = self.docs.contains_key(&key(project, slug));
        let write = self
            .store
            .create_agent_with_role(project, slug, role, &prompts(), loaded, taken, 1)?;
        self.apply(project, slug, write);
        Ok(())
    }

    fn save_agent(&mut self, project: &str, slug: &str, doc: &Json) -> Result<(), Error> {
        let exists = self.docs.contains_key(&key(project, slug));
        let file = self.store.save_agent(project, slug, exists, doc, &[])?;
        self.docs.insert(key(project, slug), Ok(file.text));
        Ok(())
    }

    fn load_agent(&self, project: &str, slug: &str) -> Result<AgentConfig, Error> {
        self.store.load_agent(
            project,
            slug,
            self.stored(project, slug),
            self.meta(project, slug),
            Table::new(),
        )
    }

    fn list_agents(&self, project: &str) -> Vec<(String, AgentConfig)> {
        let found = self
            .docs
            .keys()
            .filter(|k| k.0 == project)
            .map(|k| (k.1.clone(), self.load_agent(project, &k.1)))
            .collect();
        self.store.list_agents(found)
    }

    fn create_agent(
        &mut self,
        project: &str,
        slug: &str,
        description: &str,
        prompt: &str,
        model: Option<&str>,
        from: Option<&str>,
    ) -> Result<(), Error> {
        let taken = self.docs.contains_key(&key(project, slug));
        let stored = from.and_then(|from| self.stored(project, from));
        let write = self.store.create_agent(
            project, slug, description, prompt, model, from, None, taken, stored, &[], 1,
        )?;
        self.apply(project, slug, write);
        Ok(())
    }

    fn clone_agent(&mut self, project: &str, from: &str, to: &str) -> Result<(), Error> {
        self.copy_within(project, from, project, to, false)
    }

    fn copy_agent(
        &mut self,
        from_project: &str,
        from: &str,
        to_project: &str,
        to: &str,
    ) -> Result<(), Error> {
        self.copy_within(from_project, from, to_project, to, true)
    }

    fn copy_within(
        &mut self,
        from_project: &str,
        from: &str,
        to_project: &str,
        to: &str,
        across: bool,
    ) -> Result<(), Error> {
        let taken = self.docs.contains_key(&key(to_project, to));
        let meta = corpus_core::agents::sidecar::read_sidecar(self.meta(from_project, from), from);
        let stored = self.stored(from_project, from);
        let write = if across {
            let found = self.projects.contains(to_project);
            self.store
                .copy_agent(from_project, from, to_project, to, stored, found, taken, &meta, 1)?
        } else {
            self.store
                .clone_agent(from_project, from, to, stored, taken, &meta, 1)?
        };
        self.apply(to_project, to, write);
        Ok(())
    }

    fn set_agent_field(
        &mut self,
        project: &str,
        slug: &str,
        entry: Option<&str>,
        field: &str,
        value: Json,
    ) -> Result<(), Error> {
        let stored = self.stored(project, slug);
        let file = self
            .store
            .set_agent_field(project, slug, entry, field, value, stored, &[])?;
        self.docs.insert(key(project, slug), Ok(file.text));
        Ok(())
    }

    fn add_subagent(
        &mut self,
        project: &str,
        slug: &str,
        name: &str,
        description: &str,
        prompt: &str,
        model: Option<&str>,
        role: Option<AgentRole>,
    ) -> Result<(), Error> {
        let write = self.store.add_subagent(
            project,
            slug,
            name,
            description,
            prompt,
            model,
            role,
            self.stored(project, slug),
            self.meta(project, slug),
            &[],
        )?;
        self.apply(project, slug, write);
        Ok(())
    }

    fn set_agent_role(&mut self, project: &str, slug: &str, role: AgentRole) -> Result<(), Error> {
        let exists = self.docs.contains_key(&key(project, slug));
        let meta =
            self.store
                .set_agent_role(project, slug, role, exists, self.meta(project, slug))?;
        self.metas.insert(key(project, slug), meta);
        Ok(())
    }

    fn migrate(&mut self, project: &str, apply: bool) -> Vec<RoleMigration> {
        let agents = self.list_agents(project);
        let rows = self.store.migrate_agent_roles(&agents, apply);
        for row in &rows {
            if row.applied {
                let mut meta = self.meta(project, &row.agent).unwrap();
                meta.set_role(row.inferred);
                self.metas.insert(key(project, &row.agent), meta);
            }
        }
        rows
    }

    fn render(&self, project: &str, pinned: &[SourcePin]) -> Result<Vec<RenderedAgent>, Error> {
        self.store
            .render_project_agents(&self.list_agents(project), project, pinned)
    }
}

/// The permission block of a rendered file's frontmatter.
fn rendered_permission(text: &str) -> serde_yaml::Value {
    let head = text.split("---\n").nth(1).unwrap();
    let yaml: serde_yaml::Value = serde_yaml::from_str(head).unwrap();
    yaml["permission"].clone()
}

fn member<'a>(doc: &'a Json, path: &[&str]) -> Option<&'a Json> {
    let mut at = doc;
    for key in path {
        at = at.get(key)?;
    }
    Some(at)
}

fn text_at<'a>(doc: &'a Json, path: &[&str]) -> Option<&'a str> {
    member(doc, path).and_then(|v| v.as_str())
}

#[test]
fn every_corpus_tool_is_classified_by_every_role() {
    for role in AgentRole::ALL {
        for tool in CORPUS_TOOLS {
            let bare = tool.strip_prefix("corpus_").unwrap();
            assert_eq!(
                role.allows(tool),
                role.allows(bare),
                "{role:?} disagrees about {tool} vs {bare}"
            );
        }
        for tool in role.tools() {
            assert!(
                AgentRole::Super.allows(tool),
                "super must cover {tool} held by {role:?}"
            );
        }
    }
    assert!(AgentRole::Researcher.tools().len() < CORPUS_TOOLS.len());
    assert_eq!(AgentRole::Super.tools().len(), CORPUS_TOOLS.len());
    assert!(AgentRole::Researcher.shell_would_defeat_gate());
    assert!(!AgentRole::Super.shell_would_defeat_gate());
    for role in AgentRole::ALL {
        assert_eq!(AgentRole::parse(role.as_str()), Some(role));
    }
    assert_eq!(AgentRole::parse("root"), None);
}

#[test]
fn render_denies_corpus_tools_outside_the_role() {
    let mut world = World::new();
    world.create_project("alpha");
    world
        .create_agent_with_role("alpha", "a", AgentRole::Researcher)
        .unwrap();
    let granted: Vec<String> = CORPUS_TOOLS
        .iter()
        .map(|tool| format!("\"{tool}\": \"allow\""))
        .collect();
    let all = granted.join(", ");
    world
        .save_agent(
            "alpha",
            "a",
            &doc(&format!(
                "{{\"a\": {{\"mode\": \"primary\", \"permission\": {{{all}}}}}}}"
            )),
        )
        .unwrap();
    let written = world.render("alpha", &[]).unwrap();
    let perm = rendered_permission(&written[0].body);
    assert_eq!(perm["corpus_target_info"].as_str(), Some("allow"));
    assert_eq!(perm["corpus_technique_save"].as_str(), Some("allow"));
    for denied in [
        "corpus_sandbox_exec",
        "corpus_oracle_run",
        "corpus_faucet",
        "corpus_wallet_fund",
        "corpus_attack_save",
        "corpus_finding_write",
    ] {
        assert_eq!(
            perm[denied].as_str(),
            Some("deny"),
            "a stored allow must not raise a researcher's ceiling: {denied}"
        );
    }
}

#[test]
fn render_keeps_tightening_and_never_relies_on_omission() {
    let mut world = World::new();
    world.create_project("alpha");
    world
        .create_agent_with_role("alpha", "a", AgentRole::Researcher)
        .unwrap();
    world
        .save_agent(
            "alpha",
            "a",
            &doc("{\"a\": {\"mode\": \"primary\", \"prompt\": \"hi\"}}"),
        )
        .unwrap();
    let written = world.render("alpha", &[]).unwrap();
    let perm = rendered_permission(&written[0].body);
    for tool in CORPUS_TOOLS {
        assert!(
            perm[tool].as_str().is_some(),
            "{tool} must be written explicitly even with no stored block"
        );
    }
}

#[test]
fn red_lines_survive_scalar_permissions() {
    let mut world = World::new();
    world.create_project("alpha");
    world
        .create_agent_with_role("alpha", "a", AgentRole::Researcher)
        .unwrap();
    world
        .save_agent(
            "alpha",
            "a",
            &doc(
                "{\"a\": {\"mode\": \"primary\", \
                 \"permission\": {\"read\": \"allow\", \"write\": \"allow\"}}}",
            ),
        )
        .unwrap();
    let written = world.render("alpha", &[]).unwrap();
    let text = &written[0].body;
    let perm = rendered_permission(text);
    assert_eq!(perm["read"]["benchmarks/**"].as_str(), Some("deny"), "{text}");
    assert_eq!(perm["read"]["plugins/**"].as_str(), Some("deny"), "{text}");
    assert_eq!(
        perm["write"]["store/projects/*/agents/**"].as_str(),
        Some("deny"),
        "no agent may rewrite the sidecars the role gate trusts\n{text}"
    );
}

#[test]
fn infer_role_matches_the_seed_permissions() {
    let researcher = j(
        "{\"permission\": {\"corpus_sandbox_exec\": \"deny\", \"corpus_faucet\": \"deny\", \
         \"corpus_wallet_fund\": \"deny\", \"corpus_oracle_run\": \"deny\", \
         \"corpus_finding_write\": \"deny\", \"corpus_attack_save\": \"deny\", \
         \"corpus_target_info\": \"allow\", \"corpus_technique_save\": \"allow\", \
         \"webfetch\": \"allow\", \"websearch\": \"allow\"}}",
    );
    assert_eq!(
        infer_role(researcher.as_object().unwrap()),
        AgentRole::Researcher
    );
    let operator = j("{\"permission\": {\"bash\": \"deny\", \"read\": \"deny\"}}");
    assert_eq!(infer_role(operator.as_object().unwrap()), AgentRole::Super);
    let bare = j("{\"mode\": \"primary\"}");
    assert_eq!(infer_role(bare.as_object().unwrap()), AgentRole::Super);
}

#[test]
fn subagent_role_is_capped_by_the_primary() {
    let mut meta = AgentSidecar {
        name: "discover".to_string(),
        created: 0,
        cloned_from: None,
        role: Some(AgentRole::Researcher),
        subagent_roles: Table::new(),
    };
    meta.subagent_roles
        .insert("scout".to_string(), AgentRole::Super);
    assert_eq!(
        entry_role(&meta, "scout", "discover"),
        AgentRole::Researcher,
        "a subagent must not exceed its parent"
    );
    meta.role = Some(AgentRole::Super);
    meta.subagent_roles
        .insert("scout".to_string(), AgentRole::Researcher);
    assert_eq!(
        entry_role(&meta, "scout", "discover"),
        AgentRole::Researcher,
        "a narrower subagent stays narrow"
    );
    assert_eq!(entry_role(&meta, "discover", "discover"), AgentRole::Super);
}

#[test]
fn clone_preserves_subagents_and_role() {
    let mut world = World::new();
    world.create_project("alpha");
    world
        .create_agent_with_role("alpha", "src", AgentRole::Researcher)
        .unwrap();
    world
        .save_agent(
            "alpha",
            "src",
            &doc(
                "{\"src\": {\"mode\": \"primary\", \
                 \"permission\": {\"task\": {\"*\": \"deny\", \"src-scout\": \"allow\"}}}, \
                 \"src-scout\": {\"mode\": \"subagent\", \"description\": \"scout\"}}",
            ),
        )
        .unwrap();
    world.clone_agent("alpha", "src", "dst").unwrap();
    let cloned = world.load_agent("alpha", "dst").unwrap();
    assert!(member(&cloned.doc, &["agent", "dst"]).is_some(), "primary renamed");
    assert!(member(&cloned.doc, &["agent", "src"]).is_none(), "old primary removed");
    assert!(
        member(&cloned.doc, &["agent", "src-scout"]).is_some(),
        "subagents must survive a clone"
    );
    assert_eq!(cloned.meta.role(), AgentRole::Researcher);
}

#[test]
fn set_agent_field_is_surgical() {
    let mut world = World::new();
    world.create_project("alpha");
    world
        .create_agent_with_role("alpha", "a", AgentRole::Researcher)
        .unwrap();
    world
        .save_agent(
            "alpha",
            "a",
            &doc(
                "{\"a\": {\"mode\": \"primary\", \"description\": \"before\", \
                 \"prompt\": \"keep me\", \"permission\": {\"bash\": \"deny\"}}, \
                 \"a-scout\": {\"mode\": \"subagent\", \"description\": \"scout\"}}",
            ),
        )
        .unwrap();
    world
        .set_agent_field("alpha", "a", None, "model", Json::text("maple/deepseek-v4-flash"))
        .unwrap();
    world
        .set_agent_field("alpha", "a", None, "description", Json::text("after"))
        .unwrap();
    let after = world.load_agent("alpha", "a").unwrap();
    assert_eq!(
        text_at(&after.doc, &["agent", "a", "model"]),
        Some("maple/deepseek-v4-flash")
    );
    assert_eq!(text_at(&after.doc, &["agent", "a", "description"]), Some("after"));
    assert_eq!(text_at(&after.doc, &["agent", "a", "prompt"]), Some("keep me"));
    assert_eq!(
        text_at(&after.doc, &["agent", "a", "permission", "bash"]),
        Some("deny")
    );
    assert!(
        member(&after.doc, &["agent", "a-scout"]).unwrap().as_object().is_some(),
        "subagent untouched"
    );

    world
        .set_agent_field("alpha", "a", Some("a-scout"), "model", Json::text("ollama/x"))
        .unwrap();
    let after = world.load_agent("alpha", "a").unwrap();
    assert_eq!(
        text_at(&after.doc, &["agent", "a-scout", "model"]),
        Some("ollama/x")
    );

    world
        .set_agent_field("alpha", "a", None, "model", Json::Null)
        .unwrap();
    let after = world.load_agent("alpha", "a").unwrap();
    assert!(member(&after.doc, &["agent", "a", "model"]).is_none());
    let err = world
        .set_agent_field("alpha", "a", None, "mode", Json::text("subagent"))
        .unwrap_err()
        .message();
    assert!(err.contains("not settable"), "{err}");
    let err = world
        .set_agent_field("alpha", "a", Some("ghost"), "model", Json::text("x"))
        .unwrap_err()
        .message();
    assert!(err.contains("no entry named"), "{err}");
}

#[test]
fn permission_patch_merges_and_removes() {
    let mut world = World::new();
    world.create_project("alpha");
    world
        .create_agent_with_role("alpha", "a", AgentRole::Researcher)
        .unwrap();
    world
        .save_agent(
            "alpha",
            "a",
            &doc(
                "{\"a\": {\"mode\": \"primary\", \
                 \"permission\": {\"bash\": \"deny\", \"webfetch\": \"allow\"}}}",
            ),
        )
        .unwrap();
    let file = world
        .store
        .patch_agent_permission(
            "alpha",
            "a",
            None,
            &j("{\"websearch\": \"allow\", \"webfetch\": null}"),
            world.stored("alpha", "a"),
            &[],
        )
        .unwrap();
    world.docs.insert(key("alpha", "a"), Ok(file.text));
    let after = world.load_agent("alpha", "a").unwrap();
    let perm = ["agent", "a", "permission"];
    let perm = member(&after.doc, &perm).unwrap();
    assert_eq!(text_at(perm, &["bash"]), Some("deny"), "untouched key survives");
    assert_eq!(text_at(perm, &["websearch"]), Some("allow"), "added");
    assert!(perm.get("webfetch").is_none(), "null removes");
}

#[test]
fn subagent_add_and_remove_keep_delegation_consistent() {
    let mut world = World::new();
    world.create_project("alpha");
    world
        .create_agent_with_role("alpha", "a", AgentRole::Researcher)
        .unwrap();
    world
        .save_agent("alpha", "a", &doc("{\"a\": {\"mode\": \"primary\"}}"))
        .unwrap();
    world
        .add_subagent(
            "alpha",
            "a",
            "a-scout",
            "scouts ahead",
            "You scout.",
            Some("ollama/x"),
            Some(AgentRole::Researcher),
        )
        .unwrap();
    let after = world.load_agent("alpha", "a").unwrap();
    assert_eq!(
        text_at(&after.doc, &["agent", "a-scout", "mode"]),
        Some("subagent")
    );
    let task = member(&after.doc, &["agent", "a", "permission", "task"]).unwrap();
    assert_eq!(text_at(task, &["a-scout"]), Some("allow"), "delegation wired");
    assert_eq!(text_at(task, &["*"]), Some("deny"), "others still denied");
    assert_eq!(
        after.meta.subagent_roles.get("a-scout"),
        Some(&AgentRole::Researcher)
    );
    assert!(world
        .add_subagent("alpha", "a", "a-scout", "d", "p", None, None)
        .is_err());
    assert!(world
        .add_subagent("alpha", "a", "a", "d", "p", None, None)
        .is_err());

    let write = world
        .store
        .remove_subagent(
            "alpha",
            "a",
            "a-scout",
            world.stored("alpha", "a"),
            world.meta("alpha", "a"),
            &[],
        )
        .unwrap();
    world.apply("alpha", "a", write);
    let after = world.load_agent("alpha", "a").unwrap();
    assert!(member(&after.doc, &["agent", "a-scout"]).is_none(), "entry gone");
    assert!(
        member(&after.doc, &["agent", "a", "permission", "task", "a-scout"]).is_none(),
        "no dangling delegation rule"
    );
    assert_eq!(after.meta.subagent_roles.len(), 0, "sidecar role cleaned up");
}

#[test]
fn subagents_that_come_and_go_leave_the_document_as_it_was() {
    let mut world = World::new();
    world.create_project("alpha");
    world
        .create_agent_with_role("alpha", "a", AgentRole::Researcher)
        .unwrap();
    let given = doc(
        "{\"a\": {\"mode\": \"primary\", \"prompt\": \"p\", \
         \"permission\": {\"bash\": \"deny\", \"task\": {\"*\": \"deny\"}}}}",
    );
    world.save_agent("alpha", "a", &given).unwrap();
    let before = world.load_agent("alpha", "a").unwrap().doc;
    world
        .add_subagent("alpha", "a", "a-scout", "d", "p", None, None)
        .unwrap();
    assert_ne!(world.load_agent("alpha", "a").unwrap().doc, before);
    let write = world
        .store
        .remove_subagent(
            "alpha",
            "a",
            "a-scout",
            world.stored("alpha", "a"),
            world.meta("alpha", "a"),
            &[],
        )
        .unwrap();
    world.apply("alpha", "a", write);
    assert_eq!(world.load_agent("alpha", "a").unwrap().doc, before);
    assert!(world
        .store
        .remove_subagent(
            "alpha",
            "a",
            "a-scout",
            world.stored("alpha", "a"),
            world.meta("alpha", "a"),
            &[],
        )
        .is_err());
}

#[test]
fn files_are_looked_up_for_what_a_document_names() {
    let stored = |raw: &str| stored_refs(Some(&Ok(raw.to_string())));
    let named = "{\"agent\": {\"a\": {\"prompt\": \"{file:./p.md} and {file:q.md}\"}, \
                 \"b\": {\"prompt\": \"none\"}}}";
    let refs = stored(named);
    assert_eq!(refs.len(), 2);
    assert!(refs[0].ends_with("p.md") && refs[1].ends_with("q.md"), "{refs:?}");
    assert!(stored("{corrupt").is_empty());
    assert!(stored("{}").is_empty());
    assert!(stored_refs(None).is_empty());
    assert!(stored_refs(Some(&Err("gone".to_string()))).is_empty());
}

#[test]
fn copy_agent_across_projects_carries_tree_and_role() {
    let mut world = World::new();
    world.create_project("src");
    world.create_project("dst");
    world
        .create_agent_with_role("src", "hunter", AgentRole::Researcher)
        .unwrap();
    world
        .save_agent(
            "src",
            "hunter",
            &doc(
                "{\"hunter\": {\"mode\": \"primary\", \"prompt\": \"hunt\"}, \
                 \"hunter-scout\": {\"mode\": \"subagent\", \"description\": \"s\"}}",
            ),
        )
        .unwrap();
    world
        .set_agent_role("src", "hunter", AgentRole::Tester)
        .unwrap();

    world.copy_agent("src", "hunter", "dst", "hunter").unwrap();
    // The whole tree goes along: where no document is written anew, the copy
    // has that of its source.
    let copied_doc = world
        .stored("dst", "hunter")
        .or_else(|| world.stored("src", "hunter"))
        .unwrap()
        .clone();
    world.docs.insert(key("dst", "hunter"), copied_doc);
    let copied = world.load_agent("dst", "hunter").unwrap();
    assert_eq!(
        text_at(&copied.doc, &["agent", "hunter", "prompt"]),
        Some("hunt")
    );
    assert!(
        member(&copied.doc, &["agent", "hunter-scout"]).unwrap().as_object().is_some(),
        "subagents cross with it"
    );
    assert_eq!(copied.meta.role(), AgentRole::Tester, "role carries over");
    assert_eq!(copied.meta.cloned_from.as_deref(), Some("src/hunter"));
    assert!(world.load_agent("src", "hunter").is_ok());
    assert!(world.copy_agent("src", "hunter", "dst", "hunter").is_err());
    let err = world
        .copy_agent("src", "hunter", "ghost", "hunter")
        .unwrap_err()
        .message();
    assert!(err.contains("project not found"), "{err}");
}

#[test]
fn migrate_roles_is_idempotent_and_never_rewidens() {
    let mut world = World::new();
    world.create_project("alpha");
    world
        .create_agent_with_role("alpha", "a", AgentRole::Researcher)
        .unwrap();
    let granted: Vec<String> = CORPUS_TOOLS
        .iter()
        .map(|tool| format!("\"{tool}\": \"allow\""))
        .collect();
    let all = granted.join(", ");
    world
        .save_agent(
            "alpha",
            "a",
            &doc(&format!(
                "{{\"a\": {{\"mode\": \"primary\", \"permission\": {{{all}}}}}}}"
            )),
        )
        .unwrap();
    world.metas.insert(
        key("alpha", "a"),
        AgentSidecar {
            name: "a".to_string(),
            created: 0,
            cloned_from: None,
            role: None,
            subagent_roles: Table::new(),
        },
    );
    assert!(!world.meta("alpha", "a").unwrap().has_role());

    let preview = world.migrate("alpha", false);
    let row = preview.iter().find(|r| r.agent == "a").unwrap();
    assert_eq!(row.current, None);
    assert_eq!(row.inferred, AgentRole::Super, "permissions grant everything");
    assert!(!row.applied);
    assert!(!world.meta("alpha", "a").unwrap().has_role());

    let applied = world.migrate("alpha", true);
    assert!(applied.iter().find(|r| r.agent == "a").unwrap().applied);
    assert_eq!(world.meta("alpha", "a").unwrap().role(), AgentRole::Super);

    world
        .set_agent_role("alpha", "a", AgentRole::Researcher)
        .unwrap();
    let again = world.migrate("alpha", true);
    let row = again.iter().find(|r| r.agent == "a").unwrap();
    assert!(!row.applied, "an assigned role is never re-inferred");
    assert_eq!(
        world.meta("alpha", "a").unwrap().role(),
        AgentRole::Researcher
    );
}

#[test]
fn render_refuses_colliding_entry_names() {
    let mut world = World::new();
    world.create_project("alpha");
    for slug in ["one", "two"] {
        world
            .create_agent_with_role("alpha", slug, AgentRole::Researcher)
            .unwrap();
        world
            .save_agent(
                "alpha",
                slug,
                &doc(&format!(
                    "{{\"{slug}\": {{\"mode\": \"primary\"}}, \
                     \"shared-scout\": {{\"mode\": \"subagent\", \"description\": \"d\"}}}}"
                )),
            )
            .unwrap();
    }
    let error = world.render("alpha", &[]).unwrap_err().message();
    assert!(error.contains("shared-scout"), "{error}");
    assert!(error.contains("rename one"), "{error}");
}

#[test]
fn render_refuses_dangling_delegation() {
    let mut world = World::new();
    world.create_project("alpha");
    world
        .create_agent_with_role("alpha", "discover", AgentRole::Researcher)
        .unwrap();
    world
        .save_agent(
            "alpha",
            "discover",
            &doc(
                "{\"discover\": {\"mode\": \"primary\", \
                 \"permission\": {\"task\": {\"*\": \"deny\", \"discover-scout\": \"allow\"}}}}",
            ),
        )
        .unwrap();
    let error = world.render("alpha", &[]).unwrap_err().message();
    assert!(error.contains("discover-scout"), "{error}");
    assert!(error.contains("alpha"), "names the project: {error}");
    assert!(error.contains("closed"), "{error}");
    assert!(world
        .store
        .check_project_delegation(&world.list_agents("alpha"), "alpha")
        .is_err());
}

#[test]
fn delegation_across_agents_in_a_project_is_allowed() {
    let mut world = World::new();
    world.create_project("alpha");
    world
        .create_agent_with_role("alpha", "one", AgentRole::Researcher)
        .unwrap();
    world
        .save_agent(
            "alpha",
            "one",
            &doc(
                "{\"one\": {\"mode\": \"primary\", \
                 \"permission\": {\"task\": {\"*\": \"deny\", \"two-scout\": \"allow\"}}}}",
            ),
        )
        .unwrap();
    world
        .create_agent_with_role("alpha", "two", AgentRole::Researcher)
        .unwrap();
    world
        .save_agent(
            "alpha",
            "two",
            &doc(
                "{\"two\": {\"mode\": \"primary\"}, \
                 \"two-scout\": {\"mode\": \"subagent\", \"description\": \"d\"}}",
            ),
        )
        .unwrap();
    world
        .store
        .check_project_delegation(&world.list_agents("alpha"), "alpha")
        .unwrap();
    let written = world.render("alpha", &[]).unwrap();
    assert_eq!(written.len(), 3);
    let one = written.iter().find(|f| f.file.ends_with("one.md")).unwrap();
    assert_eq!(
        rendered_permission(&one.body)["task"]["two-scout"].as_str(),
        Some("allow")
    );
}

fn glob_matches(pattern: &[u8], text: &[u8]) -> bool {
    match (pattern.split_first(), text.split_first()) {
        (None, None) => true,
        (Some((b'*', rest)), _) => {
            glob_matches(rest, text) || (!text.is_empty() && glob_matches(pattern, &text[1..]))
        }
        (Some((b'?', rest)), Some((_, t_rest))) => glob_matches(rest, t_rest),
        (Some((pat, rest)), Some((txt, t_rest))) if pat == txt => glob_matches(rest, t_rest),
        _ => false,
    }
}

/// The last rule that matches wins, in the order the rendered file lists them.
fn evaluate(rules: &serde_yaml::Value, path: &str) -> Option<String> {
    let mut action = None;
    for (k, v) in rules.as_mapping()? {
        let (Some(pattern), Some(act)) = (k.as_str(), v.as_str()) else {
            continue;
        };
        if glob_matches(pattern.as_bytes(), path.as_bytes()) {
            action = Some(act.to_string());
        }
    }
    action
}

#[test]
fn rendered_permissions_deny_other_projects_absolutely() {
    let mut world = World::new();
    world.create_project("alpha");
    world
        .create_agent_with_role("alpha", "a", AgentRole::Researcher)
        .unwrap();
    world
        .save_agent(
            "alpha",
            "a",
            &doc(
                "{\"a\": {\"mode\": \"primary\", \
                 \"permission\": {\"read\": {\"*\": \"allow\"}, \"write\": {\"*\": \"deny\"}}}}",
            ),
        )
        .unwrap();
    let written = world.render("alpha", &[]).unwrap();
    let read = rendered_permission(&written[0].body)["read"].clone();
    let root = world.store.root().to_string();
    let cases = [
        (
            "store/projects/other/corpus/findings/x.md".to_string(),
            "deny",
            "relative, another project",
        ),
        (
            "store/projects/alpha/corpus/findings/x.md".to_string(),
            "allow",
            "relative, own corpus",
        ),
        (
            "store/projects/alpha/agents/a/agent.yaml".to_string(),
            "deny",
            "own sidecars are not material",
        ),
        (
            format!("{root}/projects/other/corpus/findings/x.md"),
            "deny",
            "absolute, another project",
        ),
        (
            format!("{root}/projects/alpha/corpus/findings/x.md"),
            "allow",
            "absolute, own corpus",
        ),
    ];
    for (path, expected, why) in cases {
        assert_eq!(
            evaluate(&read, &path).as_deref(),
            Some(expected),
            "{why}: {path}\nrules: {read:?}"
        );
    }
}

#[test]
fn rendered_entries_deny_task_by_default() {
    let mut world = World::new();
    world.create_project("alpha");
    world
        .create_agent_with_role("alpha", "a", AgentRole::Researcher)
        .unwrap();
    world
        .save_agent("alpha", "a", &doc("{\"a\": {\"mode\": \"primary\"}}"))
        .unwrap();
    let written = world.render("alpha", &[]).unwrap();
    assert_eq!(
        rendered_permission(&written[0].body)["task"]["*"].as_str(),
        Some("deny")
    );

    let known: Table<()> = Table::new();
    let roots = DataRoots {
        data: String::new(),
        store: String::new(),
    };
    let ctx = RenderCtx {
        project: "alpha",
        role: AgentRole::Researcher,
        known_entries: &known,
        roots: &roots,
    };
    let bound = bind_permission(
        &j("{\"task\": {\"*\": \"deny\", \"ghost-scout\": \"allow\"}}"),
        &ctx,
    );
    assert_eq!(
        bound.get("task").and_then(|t| t.get_text("ghost-scout")),
        Some("deny")
    );
}

#[test]
fn render_binds_permission_and_scope_to_project() {
    let mut world = World::new();
    world.create_project("alpha");
    world
        .create_agent_with_role("alpha", "a", AgentRole::Researcher)
        .unwrap();
    world
        .save_agent(
            "alpha",
            "a",
            &doc(
                "{\"one\": {\"mode\": \"primary\", \"prompt\": \"hello\", \"permission\": {\
                 \"read\": {\"*\": \"allow\", \"benchmarks/**\": \"deny\"}, \
                 \"write\": {\"*\": \"deny\", \"store/projects/*/corpus/**\": \"allow\"}, \
                 \"bash\": \"deny\"}}}",
            ),
        )
        .unwrap();
    let written = world.render("alpha", &[]).unwrap();
    let text = &written[0].body;
    assert!(text.contains("store/projects/alpha/corpus/**"), "{text}");
    assert!(!text.contains("store/projects/*/corpus/**"), "{text}");
    let perm = rendered_permission(text);
    let read = &perm["read"];
    assert_eq!(read["store/projects/*"].as_str(), Some("deny"));
    assert_eq!(read["store/projects/alpha/corpus/**"].as_str(), Some("allow"));
    assert_eq!(read["store/projects/alpha/missions/**"].as_str(), Some("allow"));
    assert_eq!(read["store/projects/alpha/**"].as_str(), None);
    assert_eq!(perm["bash"].as_str(), Some("deny"));
    assert!(text.contains("## Corpus scope (bound at launch)"));
    assert!(text.contains("You are bound to project `alpha`"));
    assert!(!text.contains("Pinned sources"), "{text}");

    let pinned = [SourcePin {
        name: "cdk".to_string(),
        rev: "main".to_string(),
        sha: "b2d07815b7cac85b6200b12d813bd5bfda613552".to_string(),
    }];
    let written = world.render("alpha", &pinned).unwrap();
    let text = &written[0].body;
    assert!(text.contains("## Pinned sources (bound at launch)"), "{text}");
    assert!(
        text.contains("`cdk` → `main` at `sources/cdk/b2d07815b7cac85b6200b12d813bd5bfda613552/`"),
        "{text}"
    );
}

#[test]
fn save_agent_refuses_invalid_and_persists_valid() {
    let mut world = World::new();
    world.create_project("p");
    world
        .create_agent_with_role("p", "a", AgentRole::Researcher)
        .unwrap();
    assert!(world.save_agent("p", "a", &j("{\"$schema\": \"x\"}")).is_err());
    assert!(world.save_agent("p", "a", &doc("{}")).is_err());
    assert!(world
        .save_agent(
            "p",
            "a",
            &doc(
                "{\"one\": {\"mode\": \"primary\", \"prompt\": \"x\"}, \
                 \"two\": {\"mode\": \"primary\", \"prompt\": \"y\"}}"
            ),
        )
        .is_err());
    assert!(world
        .save_agent(
            "p",
            "a",
            &doc("{\"one\": {\"mode\": \"primary\", \"prompt\": \"x\", \"permission\": \"hax\"}}"),
        )
        .is_err());
    assert!(world
        .save_agent(
            "p",
            "a",
            &doc("{\"one\": {\"mode\": \"primary\", \"prompt\": \"see {file:nope.md}\"}}"),
        )
        .is_err());
    world
        .save_agent(
            "p",
            "a",
            &doc(
                "{\"one\": {\"mode\": \"primary\", \"prompt\": \"hello\"}, \
                 \"two\": {\"mode\": \"subagent\", \"prompt\": \"hi\", \
                 \"permission\": {\"task\": \"allow\"}}}",
            ),
        )
        .unwrap();
    let agent = world.load_agent("p", "a").unwrap();
    assert!(member(&agent.doc, &["agent", "one"]).is_some());
    assert!(member(&agent.doc, &["agent", "two"]).is_some());
}

#[test]
fn create_agent_builds_a_valid_doc_from_structured_fields() {
    let mut world = World::new();
    world.create_project("p");
    world
        .create_agent("p", "depbot", "scans deps", "you scan deps", None, None)
        .unwrap();
    let agent = world.load_agent("p", "depbot").unwrap();
    let cfg = member(&agent.doc, &["agent", "depbot"]).expect("primary key is the slug");
    assert_eq!(cfg.get_text("description"), Some("scans deps"));
    assert_eq!(cfg.get_text("prompt"), Some("you scan deps"));
    assert_eq!(cfg.get_text("mode"), Some("primary"));
    assert!(cfg.get("permission").is_none(), "blank path has no permission block");
    assert!(world
        .create_agent("p", "depbot", "x", "y", None, None)
        .is_err());
}

#[test]
fn create_agent_from_inherits_and_overlays() {
    let mut world = World::new();
    world.create_project("p");
    world
        .create_agent("p", "base", "base agent", "base prompt", None, None)
        .unwrap();
    world
        .save_agent(
            "p",
            "base",
            &doc(
                "{\"base\": {\"mode\": \"primary\", \"description\": \"base agent\", \
                 \"prompt\": \"base prompt\", \"permission\": {\"bash\": \"deny\"}}}",
            ),
        )
        .unwrap();
    world
        .create_agent("p", "child", "child desc", "child prompt", Some("ollama/x"), Some("base"))
        .unwrap();
    let agent = world.load_agent("p", "child").unwrap();
    assert!(
        member(&agent.doc, &["agent", "base"]).is_none(),
        "the inherited key must be renamed"
    );
    let cfg = member(&agent.doc, &["agent", "child"]).expect("primary key is the new slug");
    assert_eq!(cfg.get_text("description"), Some("child desc"));
    assert_eq!(cfg.get_text("prompt"), Some("child prompt"));
    assert_eq!(cfg.get_text("model"), Some("ollama/x"));
    assert_eq!(text_at(cfg, &["permission", "bash"]), Some("deny"));
    let err = world
        .create_agent("p", "orphan", "d", "p", None, Some("ghost"))
        .unwrap_err()
        .message();
    assert!(err.contains("'from' must name an existing agent"), "{err}");
}

#[test]
fn clone_agent_renames_the_primary_key() {
    let mut world = World::new();
    world.create_project("p");
    world
        .create_agent_with_role("p", "researcher", AgentRole::Researcher)
        .unwrap();
    world
        .save_agent(
            "p",
            "researcher",
            &doc(
                "{\"researcher\": {\"mode\": \"primary\", \"description\": \"r\", \
                 \"prompt\": \"x\"}}",
            ),
        )
        .unwrap();
    world.clone_agent("p", "researcher", "depbot").unwrap();
    let agent = world.load_agent("p", "depbot").unwrap();
    assert!(member(&agent.doc, &["agent", "depbot"]).is_some());
    assert!(member(&agent.doc, &["agent", "researcher"]).is_none());
    let err = world.clone_agent("p", "ghost", "x").unwrap_err().message();
    assert!(err.contains("agent_list"), "{err}");
    let err = world
        .save_agent("p", "ghost", &doc("{\"a\": {\"prompt\": \"x\"}}"))
        .unwrap_err()
        .message();
    assert!(err.contains("agent_new"), "{err}");
}

#[test]
fn materialize_agent_renders_agent_files() {
    let mut world = World::new();
    world.create_project("p");
    world
        .create_agent_with_role("p", "operator", AgentRole::Tester)
        .unwrap();
    let config = world.load_agent("p", "operator").unwrap();
    let written = world
        .store
        .render_agent(&world.list_agents("p"), "operator", &config, "p", &[])
        .unwrap();
    assert!(!written.is_empty());
    assert!(written[0].file.ends_with("operator.md"), "{}", written[0].file);
    assert!(written[0].body.contains("mode: primary"), "{}", written[0].body);
    assert!(
        written[0].body.contains("corpus TESTER"),
        "the role's prompt: {}",
        written[0].body
    );
}

#[test]
fn agents_are_listed_in_slug_order() {
    let mut world = World::new();
    world.create_project("p");
    for slug in ["zeta", "alpha", "mid"] {
        world
            .create_agent_with_role("p", slug, AgentRole::Super)
            .unwrap();
    }
    let slugs: Vec<String> = world.list_agents("p").into_iter().map(|a| a.0).collect();
    assert_eq!(slugs, ["alpha", "mid", "zeta"]);
}

#[test]
fn unreadable_and_invalid_documents_say_why() {
    let store = Store::new("/s".to_string());
    let missing = store
        .load_agent("p", "a", None, None, Table::new())
        .unwrap_err()
        .message();
    assert!(missing.contains("agent not found: p/a"), "{missing}");
    let unreadable: FileText = Err("permission denied".to_string());
    let err = store
        .load_agent("p", "a", Some(&unreadable), None, Table::new())
        .unwrap_err()
        .message();
    assert_eq!(err, "store error: agent p/a: permission denied");
    let broken: FileText = Ok("{not json".to_string());
    assert!(store
        .load_agent("p", "a", Some(&broken), None, Table::new())
        .is_err());
}

#[test]
fn agents_are_renamed_hashed_and_deleted() {
    let mut world = World::new();
    world.create_project("p");
    world.create_agent_with_role("p", "root", AgentRole::Tester).unwrap();
    let meta = world
        .store
        .set_agent_name("p", "root", "Root  Auditor", true, world.meta("p", "root"))
        .unwrap();
    assert_eq!(meta.role(), AgentRole::Tester);
    assert!(world.store.set_agent_name("p", "ghost", "x", false, None).is_err());
    assert_eq!(
        world.store.agent_config_hash("p", "root", Some(b"")).unwrap(),
        "cbf29ce484222325"
    );
    assert!(world.store.agent_config_hash("p", "ghost", None).is_err());
    assert_eq!(
        world.store.delete_agent("p", "root", true).unwrap(),
        world.store.project_agent_dir("p", "root")
    );
    assert!(world.store.delete_agent("p", "ghost", false).is_err());
}

#[test]
fn read_red_lines_overrule_what_is_stored() {
    let known: Table<()> = Table::new();
    let roots = DataRoots {
        data: String::new(),
        store: String::new(),
    };
    let ctx = RenderCtx {
        project: "alpha",
        role: AgentRole::Super,
        known_entries: &known,
        roots: &roots,
    };
    let bound = bind_paths(
        &j("{\"read\": {\"*\": \"allow\", \"benchmarks/**\": \"allow\"}, \"write\": \"allow\"}"),
        &ctx,
    );
    let rule = |key: &str, path: &str| {
        bound.get(key).and_then(|r| r.get_text(path)).map(|s| s.to_string())
    };
    assert_eq!(rule("read", "benchmarks/**").as_deref(), Some("deny"));
    assert_eq!(rule("read", "plugins/**").as_deref(), Some("deny"));
    assert_eq!(rule("read", "*").as_deref(), Some("allow"));
    assert_eq!(rule("write", "*").as_deref(), Some("allow"));
    assert_eq!(rule("write", "store/projects/*/agents/**").as_deref(), Some("deny"));
}

#[test]
fn without_roots_only_relative_patterns_decide() {
    let known: Table<()> = Table::new();
    let roots = DataRoots {
        data: String::new(),
        store: String::new(),
    };
    let ctx = RenderCtx {
        project: "alpha",
        role: AgentRole::Researcher,
        known_entries: &known,
        roots: &roots,
    };
    let bound = bind_permission(&j("{}"), &ctx);
    let rules = |key: &str| {
        let map = bound.get(key).and_then(|v| v.as_object()).unwrap();
        let of = |i: usize| (map.key_at(i).clone(), map.value_at(i).as_str().unwrap().to_string());
        (0..map.len()).map(of).collect::<Vec<_>>()
    };
    let row = |pattern: &str, action: &str| (pattern.to_string(), action.to_string());
    assert_eq!(
        rules("read"),
        [
            row("*", "allow"),
            row("benchmarks/**", "deny"),
            row("plugins/**", "deny"),
            row("store/projects/*", "deny"),
            row("store/projects/alpha/corpus/**", "allow"),
            row("store/projects/alpha/missions/**", "allow"),
        ]
    );
    for key in ["write", "edit"] {
        assert_eq!(
            rules(key),
            [
                row("*", "deny"),
                row("store/projects/*/agents/**", "deny"),
                row("store/projects/alpha/corpus/**", "allow"),
                row("store/projects/alpha/corpus/runs/**", "deny"),
            ]
        );
    }
}

/// Agents with these slugs and display names.
fn named(agents: &[(&str, &str)]) -> Vec<(String, AgentConfig)> {
    agents
        .iter()
        .map(|(slug, name)| {
            let meta = AgentSidecar {
                name: name.to_string(),
                created: 0,
                cloned_from: None,
                role: None,
                subagent_roles: Table::new(),
            };
            (slug.to_string(), AgentConfig { meta, doc: doc("{}"), files: Table::new() })
        })
        .collect()
}

fn handles(agents: &[(&str, &str)]) -> Vec<(String, String)> {
    let all = primary_handles(&named(agents));
    (0..all.len())
        .map(|i| (all.key_at(i).clone(), all.value_at(i).clone()))
        .collect()
}

#[test]
fn handles_are_unique_within_a_project() {
    assert_eq!(slug_fragment("86a7c6ca-cb36-4daa-a7a0-d636e303b66f"), "86a7c6ca");
    assert_eq!(slug_fragment("researcher"), "research");
    assert_eq!(slug_fragment("red-alpha-2"), "red-alph");

    let of = |agents: &[(&str, &str)]| -> Vec<String> {
        handles(agents).into_iter().map(|h| h.1).collect()
    };
    // Unnamed, named alone, and a name that comes to nothing.
    assert_eq!(of(&[("a", ""), ("b", "b"), ("c", "Big C"), ("d", "!!")]), ["a", "b", "big-c", "d"]);
    // A piece of the slug, as long as it takes.
    assert_eq!(of(&[("run-1", "Same"), ("run-2", "Same")]), ["same-run-1", "same-run-2"]);
    assert_eq!(
        of(&[("researcher-1", "R"), ("researcher-2", "R"), ("86a7c6ca-cb36", "R")]),
        ["r-86a7c6ca", "r-researcher-1", "r-researcher-2"]
    );
    assert_eq!(
        of(&[("researcher-1", "R"), ("researcher-10", "R")]),
        ["r-researcher-1", "r-researcher-10"]
    );
    // What tells two apart may be the name of a third.
    assert_eq!(
        of(&[("f", "Run"), ("g", "Run"), ("x", "Run F")]),
        ["run-f-f", "run-g", "run-f"]
    );
    assert_eq!(
        handles(&[("run-2", "Same"), ("run-1", "Same")]),
        handles(&[("run-1", "Same"), ("run-2", "Same")])
    );
}

#[test]
fn a_guess_from_silence_is_flagged_whatever_the_entry_is_called() {
    let store = Store::new("/s".to_string());
    let mut agents = named(&[("a", "a")]);
    agents[0].1.doc = doc("{\"one\": {\"mode\": \"primary\"}}");
    assert_eq!(
        store.migrate_agent_roles(&agents, false),
        [RoleMigration {
            agent: "a".to_string(),
            current: None,
            inferred: AgentRole::Super,
            applied: false,
            needs_review: true,
        }]
    );
}
