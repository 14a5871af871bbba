use corpus_core::frontmatter::{fence, split};
use corpus_core::models::{ModelEntry, ModelRegistry};
use corpus_core::templates::{
    compose_agent_file, compose_agent_template, compose_permission_template,
    compose_prompt_template, permission_resolves, prompt_resolves, resolve_template,
    validate_permission_block,
    AgentTemplate, PermissionTemplate, PromptTemplate, TemplateKind, Templates,
};

const OPERATOR_PERM: &str = "bash: deny\nedit: deny\nwrite: deny\nread: deny\n";

fn indented() -> String {
    OPERATOR_PERM
        .lines()
        .map(|l| format!("  {l}"))
        .collect::<Vec<_>>()
        .join("\n")
}

fn agent(model: Option<&str>) -> AgentTemplate {
    AgentTemplate {
        name: "op".to_string(),
        description: "Test operator".to_string(),
        mode: "primary".to_string(),
        permission_ref: "op-perm".to_string(),
        prompt_ref: "op-prompt".to_string(),
        model: model.map(|m| m.to_string()),
    }
}

#[test]
fn renders_agent_file_with_verbatim_permission_block() {
    let permission = PermissionTemplate::parse(&format!(
        "---\nname: op-perm\ndescription: d\npermission: |\n{}\n---\n\nnotes\n",
        indented()
    ))
    .unwrap();
    let prompt = PromptTemplate::parse(
        "---\nname: op-prompt\ndescription: d\n---\n\nYou are a test.\n",
    )
    .unwrap();
    assert_eq!(permission.permission, OPERATOR_PERM);
    let rendered = compose_agent_file(&agent(None), &permission.permission, &prompt.body, None);
    let indented = indented();
    let expected = format!(
        "---\ndescription: Test operator\nmode: primary\npermission:\n{indented}\n---\n\nYou are a test.\n"
    );
    assert_eq!(rendered, expected);
}

#[test]
fn rejects_malformed_permission_block() {
    let err = PermissionTemplate::parse(
        "---\nname: bad\ndescription: d\npermission: |\n  }]] not yaml\n---\n",
    )
    .unwrap_err();
    assert!(err.message().contains("not valid YAML"), "{}", err.message());
    assert!(validate_permission_block("bash: deny\n").is_ok());
    assert!(validate_permission_block("}]] not yaml").is_err());
}

#[test]
fn composed_templates_are_read_back() {
    let permission = PermissionTemplate {
        name: "p".to_string(),
        description: "what: it does".to_string(),
        permission: OPERATOR_PERM.to_string(),
    };
    let text = compose_permission_template(&permission).unwrap();
    let read = PermissionTemplate::parse(&text).unwrap();
    assert_eq!(read, permission);
    let prompt = PromptTemplate {
        name: "q".to_string(),
        description: "d".to_string(),
        body: "Do it.\n".to_string(),
    };
    let read = PromptTemplate::parse(&compose_prompt_template(&prompt).unwrap()).unwrap();
    assert_eq!(read.name, "q");
    assert_eq!(read.body.trim(), "Do it.");
    let text = compose_agent_template(&agent(Some("m"))).unwrap();
    assert!(text.contains("permission_ref: op-perm"), "{text}");
    assert!(text.contains("model: m"), "{text}");
    assert!(agent(None).check().is_ok());
}

#[test]
fn templates_resolve_in_either_tree() {
    let local = Templates::at("/l");
    let core = Templates::at("/c");
    let files = [
        "/l/permissions/a.md".to_string(),
        "/c/permissions/b.md".to_string(),
        "/c/prompts/c.md".to_string(),
    ];
    assert!(permission_resolves(&local, &core, "a", &files));
    assert!(permission_resolves(&local, &core, "b", &files));
    assert!(!permission_resolves(&local, &core, "c", &files));
    assert!(prompt_resolves(&local, &core, "c", &files));
    assert!(!prompt_resolves(&local, &core, "a", &files));
    assert!(local.has(TemplateKind::Permission, "a", &files));
    assert!(!local.has(TemplateKind::Agent, "a", &files));
    assert_eq!(local.kind_dir(TemplateKind::Agent), "/l/agents");
    assert_eq!(TemplateKind::Prompt.dir_name(), "prompts");
    let names = ["b.md".to_string(), "x.txt".to_string(), "a.md".to_string()];
    assert_eq!(local.list(&names), ["a", "b"]);
}

#[test]
fn frontmatter_is_split_where_it_was_fenced() {
    let text = fence("a: 1\n", "body\n---\nmore\n");
    let parts = split(&text).unwrap();
    assert_eq!(parts.head.as_deref(), Some("a: 1\n"));
    assert_eq!(parts.body, "body\n---\nmore\n");
    let plain = split("no head\n").unwrap();
    assert_eq!(plain.head, None);
    assert_eq!(plain.body, "no head\n");
    assert_eq!(
        split("---\na: 1\n").unwrap_err().message(),
        "store error: frontmatter is never closed"
    );
}

#[test]
fn registries_prefer_models_that_use_tools() {
    let entry = |tag: &str, tools: bool| ModelEntry {
        tag: tag.to_string(),
        name: None,
        provider: "ollama".to_string(),
        params_b: None,
        context_k: None,
        capabilities: if tools { vec!["tool-use".to_string()] } else { Vec::new() },
        notes: String::new(),
    };
    let of = |models| ModelRegistry { models }.launch_default();
    assert_eq!(of(Vec::new()), None);
    assert_eq!(of(vec![entry("a", false)]).as_deref(), Some("ollama/a"));
    assert_eq!(
        of(vec![entry("a", false), entry("b", true)]).as_deref(),
        Some("ollama/b")
    );
}

#[test]
fn agents_are_rendered_out_of_the_projects_own_templates() {
    let (local, core) = (Templates::at("/l"), Templates::at("/c"));
    let files = ["/l/prompts/a.md".to_string(), "/c/prompts/a.md".to_string()];
    let from = |slug: &str| resolve_template(&local, &core, TemplateKind::Prompt, slug, &files);
    assert_eq!(from("a"), "/l/prompts/a.md");
    assert_eq!(from("b"), "/c/prompts/b.md");

    let permission = "---\nname: p\npermission: |\n  bash: deny\n---\n";
    let prompt = "---\nname: q\n---\n\nGo.\n";
    let text = agent(Some("own")).render(permission, prompt, Some(" ")).unwrap();
    assert!(text.contains("model: own\npermission:\n  bash: deny\n---\n"), "{text}");
    assert!(text.ends_with("\nGo.\n"), "{text}");
    let asked = agent(Some("own")).render(permission, prompt, Some("other")).unwrap();
    assert!(asked.contains("model: other\n"), "{asked}");
    assert!(agent(None).render("no head", prompt, None).is_err());
    assert!(agent(None).render(permission, "---\nname: q\n---\n", None).is_err());
}

#[test]
fn mappings_may_have_keys_of_any_kind() {
    let odd = "---\nname: n\n? [a, b]\n: x\n~: y\n1: z\npermission: |\n  ~: deny\n  ? {a: b}\n  : deny\n---\n";
    let permission = PermissionTemplate::parse(odd).unwrap();
    assert_eq!(permission.name, "n");
    assert_eq!(permission.description, "");
    assert_eq!(permission.permission, "~: deny\n? {a: b}\n: deny\n");
    assert!(validate_permission_block("? [a]\n: deny\n").is_ok());
    assert!(validate_permission_block("- a list\n").is_err());
    assert!(validate_permission_block("a: 1\na: 2\n").is_err(), "a key stands once");
    let tagged = PromptTemplate::parse("---\nname: !label op\n---\nYou are.\n").unwrap();
    assert_eq!(tagged.name, "op");
    let number = PromptTemplate::parse("---\nname: 7\n---\nYou are.\n");
    assert_eq!(number.unwrap_err().message(), "store error: prompt template missing name");
}

#[test]
fn agent_templates_are_read_out_of_their_frontmatter() {
    let raw = "---\nname: op\npermission_ref: op-perm\nprompt_ref: op-prompt\n---\n";
    assert_eq!(
        AgentTemplate::head(raw).unwrap(),
        "name: op\npermission_ref: op-perm\nprompt_ref: op-prompt\n"
    );
    assert_eq!(AgentTemplate::parse(raw, Ok(agent(None))).unwrap(), agent(None));
    assert_eq!(
        AgentTemplate::parse(raw, Err("missing field `name`".to_string()))
            .unwrap_err()
            .message(),
        "store error: agent template: missing field `name`"
    );
    for raw in ["no head", "---\nname: op\n", "---\n[\n---\n"] {
        assert!(AgentTemplate::head(raw).is_err(), "{raw}");
        assert!(AgentTemplate::parse(raw, Ok(agent(None))).is_err(), "{raw}");
    }
    assert_eq!(
        AgentTemplate::head("no head").unwrap_err().message(),
        "store error: agent template has no frontmatter"
    );
    let mut empty = agent(None);
    empty.prompt_ref = String::new();
    assert_eq!(
        AgentTemplate::parse(raw, Ok(empty)).unwrap_err().message(),
        "store error: agent template missing prompt_ref"
    );
}
