//! Templates: a role split into a permission, a prompt and an agent that
//! composes the two, and the agent file it renders to.
use vstd::prelude::*;
use crate::error;
use crate::error::{Error, ErrorView};
use crate::frontmatter;
use crate::frontmatter::{Mapping, MappingView};
use crate::order;
use crate::path;
use crate::store::missions;
use crate::text;

verus! {

/// A kind of template.
#[derive(Debug, Clone, Copy, PartialEq, Eq, Structural)]
pub enum TemplateKind {
    Permission,
    Prompt,
    Agent,
}

impl TemplateKind {
    /// The directory name of the kind.
    pub fn dir_name(self) -> (r: &'static str)
        ensures
            r@ == kind_dir_name(self),
    {
        match self {
            TemplateKind::Permission => "permissions",
            TemplateKind::Prompt => "prompts",
            TemplateKind::Agent => "agents",
        }
    }

    /// The label of the kind.
    pub fn label(self) -> (r: &'static str)
        ensures
            r@ == (match self {
                TemplateKind::Permission => "permission"@,
                TemplateKind::Prompt => "prompt"@,
                TemplateKind::Agent => "agent"@,
            }),
    {
        match self {
            TemplateKind::Permission => "permission",
            TemplateKind::Prompt => "prompt",
            TemplateKind::Agent => "agent",
        }
    }
}

/// The directory name of a kind.
pub open spec fn kind_dir_name(kind: TemplateKind) -> Seq<char> {
    match kind {
        TemplateKind::Permission => "permissions"@,
        TemplateKind::Prompt => "prompts"@,
        TemplateKind::Agent => "agents"@,
    }
}

/// The file of a template in a tree's directory for its kind.
pub open spec fn template_path(dir: Seq<char>, slug: Seq<char>) -> Seq<char> {
    path::joined(dir, slug + ".md"@)
}

/// A template tree: one directory for each kind.
#[derive(Debug, PartialEq, Eq)]
pub struct Templates {
    pub permissions: String,
    pub prompts: String,
    pub agents: String,
}

impl Templates {
    /// The tree rooted at `root`.
    pub fn at(root: &str) -> (r: Templates)
        ensures
            r.permissions@ == path::joined(root@, kind_dir_name(TemplateKind::Permission)),
            r.prompts@ == path::joined(root@, kind_dir_name(TemplateKind::Prompt)),
            r.agents@ == path::joined(root@, kind_dir_name(TemplateKind::Agent)),
    {
        Templates {
            permissions: path::join(root, "permissions"),
            prompts: path::join(root, "prompts"),
            agents: path::join(root, "agents"),
        }
    }

    /// The directory of one kind.
    pub open spec fn dir_of(&self, kind: TemplateKind) -> Seq<char> {
        match kind {
            TemplateKind::Permission => self.permissions@,
            TemplateKind::Prompt => self.prompts@,
            TemplateKind::Agent => self.agents@,
        }
    }

    /// The directory of one kind.
    pub fn kind_dir(&self, kind: TemplateKind) -> (r: &str)
        ensures
            r@ == self.dir_of(kind),
    {
        match kind {
            TemplateKind::Permission => self.permissions.as_str(),
            TemplateKind::Prompt => self.prompts.as_str(),
            TemplateKind::Agent => self.agents.as_str(),
        }
    }

    /// The file of the template `slug` of a kind.
    pub fn file(&self, kind: TemplateKind, slug: &str) -> (r: String)
        ensures
            r@ == template_path(self.dir_of(kind), slug@),
    {
        path::join(self.kind_dir(kind), text::cat2(slug, ".md").as_str())
    }

    /// The templates of a kind, in order: the stems of the `.md` files among
    /// the files `names` of its directory.
    pub fn list(&self, names: &[String]) -> (r: Vec<String>)
        ensures
            text::texts(r@) == order::sorted(
                slugs_of(text::texts(names@), names@.len()),
                slugs_of(text::texts(names@), names@.len()).len(),
            ),
    {
        let ghost all = text::texts(names@);
        let mut slugs: Vec<String> = Vec::new();
        let mut i: usize = 0;
        assert(text::texts(slugs@) =~= slugs_of(all, 0));
        while i < names.len()
            invariant
                i <= names@.len(),
                all == text::texts(names@),
                text::texts(slugs@) == slugs_of(all, i as nat),
            decreases names@.len() - i,
        {
            assert(all[i as int] == names@[i as int]@);
            match missions::mission_slug(names[i].as_str()) {
                Some(slug) => {
                    let ghost was = text::texts(slugs@);
                    slugs.push(slug);
                    assert(text::texts(slugs@) =~= was.push(slug@));
                },
                None => {},
            }
            i = i + 1;
        }
        assert(text::texts(slugs@).len() == slugs@.len());
        order::sort_texts(&slugs)
    }

    /// Is the template `slug` of a kind among the files that exist?
    pub fn has(&self, kind: TemplateKind, slug: &str, files: &[String]) -> (r: bool)
        ensures
            r == text::texts(files@).contains(
                template_path(self.dir_of(kind), slug@),
            ),
    {
        text::listed(files, self.file(kind, slug).as_str())
    }
}

/// The file that a template is read from: the project's own where it is among
/// the files that exist, else the shared one.
pub open spec fn resolved_path(
    local: Templates,
    core: Templates,
    kind: TemplateKind,
    slug: Seq<char>,
    files: Seq<Seq<char>>,
) -> Seq<char> {
    let own = template_path(local.dir_of(kind), slug);
    if files.contains(own) {
        own
    } else {
        template_path(core.dir_of(kind), slug)
    }
}

/// The file that the template `slug` of a kind is read from.
pub fn resolve_template(
    local: &Templates,
    core: &Templates,
    kind: TemplateKind,
    slug: &str,
    files: &[String],
) -> (r: String)
    ensures
        r@ == resolved_path(*local, *core, kind, slug@, text::texts(files@)),
{
    if local.has(kind, slug, files) {
        local.file(kind, slug)
    } else {
        core.file(kind, slug)
    }
}

/// Is the permission template `slug` among the files that exist, in the
/// project's tree or the shared one?
pub fn permission_resolves(local: &Templates, core: &Templates, slug: &str, files: &[String]) -> (r:
    bool)
    ensures
        r == (text::texts(files@).contains(template_path(local.permissions@, slug@)) || text::texts(
            files@,
        ).contains(template_path(core.permissions@, slug@))),
{
    local.has(TemplateKind::Permission, slug, files) || core.has(
        TemplateKind::Permission,
        slug,
        files,
    )
}

/// Is the prompt template `slug` among the files that exist, in the project's
/// tree or the shared one?
pub fn prompt_resolves(local: &Templates, core: &Templates, slug: &str, files: &[String]) -> (r:
    bool)
    ensures
        r == (text::texts(files@).contains(template_path(local.prompts@, slug@)) || text::texts(
            files@,
        ).contains(template_path(core.prompts@, slug@))),
{
    local.has(TemplateKind::Prompt, slug, files) || core.has(TemplateKind::Prompt, slug, files)
}

/// The slugs of the templates among the first `n` files.
pub open spec fn slugs_of(names: Seq<Seq<char>>, n: nat) -> Seq<Seq<char>>
    decreases n,
{
    if n == 0 {
        Seq::empty()
    } else {
        let before = slugs_of(names, (n - 1) as nat);
        match missions::mission_slug_of(names[n - 1]) {
            Some(slug) => before.push(slug),
            None => before,
        }
    }
}

/// A permission template: the role's permission block, kept verbatim.
#[derive(Debug, PartialEq, Eq)]
pub struct PermissionTemplate {
    pub name: String,
    pub description: String,
    pub permission: String,
}

/// A prompt template: the role's system prompt.
#[derive(Debug, PartialEq, Eq)]
pub struct PromptTemplate {
    pub name: String,
    pub description: String,
    /// The prompt, with the blank line that follows the frontmatter.
    pub body: String,
}

/// An agent template: a permission, a prompt and a model.
#[derive(Debug, PartialEq, Eq)]
pub struct AgentTemplate {
    pub name: String,
    pub description: String,
    pub mode: String,
    pub permission_ref: String,
    pub prompt_ref: String,
    /// The default model; none or empty is the operator's choice.
    pub model: Option<String>,
}

/// What a permission or prompt template holds: name, description, and block
/// or body.
#[verifier::ext_equal]
pub struct TemplateView {
    pub name: Seq<char>,
    pub description: Seq<char>,
    pub content: Seq<char>,
}

impl View for PermissionTemplate {
    type V = TemplateView;

    open spec fn view(&self) -> TemplateView {
        TemplateView {
            name: self.name@,
            description: self.description@,
            content: self.permission@,
        }
    }
}

impl View for PromptTemplate {
    type V = TemplateView;

    open spec fn view(&self) -> TemplateView {
        TemplateView { name: self.name@, description: self.description@, content: self.body@ }
    }
}

/// What checking a permission block comes to: it must be a YAML mapping, for a
/// permission is not enforced until it parses.
pub open spec fn block_check(block: Seq<char>) -> Result<(), ErrorView> {
    match frontmatter::yaml_mapping(block) {
        Ok(_) => Ok(()),
        Err(e) => Err(ErrorView::Store("permission block is not valid YAML: "@ + e)),
    }
}

/// Check a permission block on its own.
pub fn validate_permission_block(block: &str) -> (r: Result<(), Error>)
    ensures
        error::verdict(r) == block_check(block@),
{
    match frontmatter::parse_mapping(block) {
        Ok(_) => Ok(()),
        Err(e) => Err(Error::Store(text::cat2("permission block is not valid YAML: ", e.as_str()))),
    }
}

/// What reading the frontmatter of a template of the named kind comes to.
pub open spec fn template_head(raw: Seq<char>, kind: Seq<char>) -> Result<
    (MappingView, Seq<char>),
    ErrorView,
> {
    match frontmatter::split_parts(raw) {
        Err(e) => Err(e),
        Ok(parts) => match parts.head {
            None => Err(ErrorView::Store(kind + " template has no frontmatter"@)),
            Some(head) => match frontmatter::yaml_mapping(head) {
                Err(e) => Err(ErrorView::Yaml(e)),
                Ok(fields) => Ok((fields, parts.body)),
            },
        },
    }
}

/// What a result of a head and a body holds.
pub open spec fn head_outcome(r: Result<(Mapping, String), Error>) -> Result<
    (MappingView, Seq<char>),
    ErrorView,
> {
    match r {
        Ok((j, b)) => Ok((j@, b@)),
        Err(e) => Err(e@),
    }
}

/// Read the frontmatter of a template of the named kind.
fn read_head(raw: &str, kind: &str) -> (r: Result<(Mapping, String), Error>)
    ensures
        head_outcome(r) == template_head(raw@, kind@),
{
    let parts = match frontmatter::split(raw) {
        Ok(parts) => parts,
        Err(e) => {
            return Err(e);
        },
    };
    match parts.head {
        None => Err(Error::Store(text::cat2(kind, " template has no frontmatter"))),
        Some(head) => match frontmatter::parse_mapping(head.as_str()) {
            Err(e) => Err(Error::Yaml(e)),
            Ok(fields) => Ok((fields, parts.body)),
        },
    }
}

/// What the fields of a permission template come to, and what checking its
/// block gave.
pub open spec fn permission_fields(fields: MappingView, block: Result<MappingView, Seq<char>>) -> Result<
    TemplateView,
    ErrorView,
> {
    match frontmatter::text_under(fields, "name"@, 0) {
        None => Err(ErrorView::Store("permission template missing name"@)),
        Some(name) => match frontmatter::text_under(fields, "permission"@, 0) {
            None => Err(ErrorView::Store("permission template missing permission block"@)),
            Some(permission) => match block {
                Err(e) => Err(
                    ErrorView::Store(
                        "permission block in "@ + name + " is not valid YAML: "@ + e,
                    ),
                ),
                Ok(_) => Ok(
                    TemplateView {
                        name,
                        description: match frontmatter::text_under(fields, "description"@, 0) {
                            Some(d) => d,
                            None => Seq::empty(),
                        },
                        content: permission,
                    },
                ),
            },
        },
    }
}

/// What parsing a permission template comes to.
pub open spec fn permission_template(raw: Seq<char>) -> Result<TemplateView, ErrorView> {
    match template_head(raw, "permission"@) {
        Err(e) => Err(e),
        Ok((fields, _)) => permission_fields(
            fields,
            frontmatter::yaml_mapping(
                match frontmatter::text_under(fields, "permission"@, 0) {
                    Some(p) => p,
                    None => Seq::empty(),
                },
            ),
        ),
    }
}

/// The permission template out of its fields, given what checking its block as
/// YAML gave.
pub fn build_permission(fields: &Mapping, block: Result<Mapping, String>) -> (r: Result<
    PermissionTemplate,
    Error,
>)
    ensures
        error::outcome(r) == permission_fields(fields@, frontmatter::mapping_result(block)),
{
    let name = match fields.get_str("name") {
        Some(name) => name,
        None => {
            return Err(Error::Store("permission template missing name".to_owned()));
        },
    };
    let permission = match fields.get_str("permission") {
        Some(p) => p,
        None => {
            return Err(Error::Store("permission template missing permission block".to_owned()));
        },
    };
    match block {
        Err(e) => Err(
            Error::Store(
                text::cat4("permission block in ", name, " is not valid YAML: ", e.as_str()),
            ),
        ),
        Ok(_) => Ok(
            PermissionTemplate {
                name: name.to_owned(),
                description: match fields.get_str("description") {
                    Some(d) => d.to_owned(),
                    None => String::new(),
                },
                permission: permission.to_owned(),
            },
        ),
    }
}

impl PermissionTemplate {
    /// Parse a permission template file.
    pub fn parse(raw: &str) -> (r: Result<PermissionTemplate, Error>)
        ensures
            error::outcome(r) == permission_template(raw@),
    {
        let (fields, _) = match read_head(raw, "permission") {
            Ok(head) => head,
            Err(e) => {
                return Err(e);
            },
        };
        let block = match fields.get_str("permission") {
            Some(p) => frontmatter::parse_mapping(p),
            None => frontmatter::parse_mapping(String::new().as_str()),
        };
        build_permission(&fields, block)
    }
}

/// What the fields and body of a prompt template come to.
pub open spec fn prompt_fields(fields: MappingView, body: Seq<char>) -> Result<
    TemplateView,
    ErrorView,
> {
    match frontmatter::text_under(fields, "name"@, 0) {
        None => Err(ErrorView::Store("prompt template missing name"@)),
        Some(name) => if text::trimmed(body).len() == 0 {
            Err(ErrorView::Store("prompt template "@ + name + " has an empty body"@))
        } else {
            Ok(
                TemplateView {
                    name,
                    description: match frontmatter::text_under(fields, "description"@, 0) {
                        Some(d) => d,
                        None => Seq::empty(),
                    },
                    content: body,
                },
            )
        },
    }
}

/// The prompt template out of its fields and body.
pub fn build_prompt(fields: &Mapping, body: &str) -> (r: Result<PromptTemplate, Error>)
    ensures
        error::outcome(r) == prompt_fields(fields@, body@),
{
    let name = match fields.get_str("name") {
        Some(name) => name,
        None => {
            return Err(Error::Store("prompt template missing name".to_owned()));
        },
    };
    if text::trim(body).as_str().is_empty() {
        return Err(Error::Store(text::cat3("prompt template ", name, " has an empty body")));
    }
    Ok(
        PromptTemplate {
            name: name.to_owned(),
            description: match fields.get_str("description") {
                Some(d) => d.to_owned(),
                None => String::new(),
            },
            body: body.to_owned(),
        },
    )
}

/// What a prompt template file comes to.
pub open spec fn prompt_template(raw: Seq<char>) -> Result<TemplateView, ErrorView> {
    match template_head(raw, "prompt"@) {
        Err(e) => Err(e),
        Ok((fields, body)) => prompt_fields(fields, body),
    }
}

impl PromptTemplate {
    /// Parse a prompt template file.
    pub fn parse(raw: &str) -> (r: Result<PromptTemplate, Error>)
        ensures
            error::outcome(r) == prompt_template(raw@),
    {
        match read_head(raw, "prompt") {
            Ok((fields, body)) => build_prompt(&fields, body.as_str()),
            Err(e) => Err(e),
        }
    }
}

/// What checking that an agent template composes something comes to: both
/// references are there.
pub open spec fn refs_check(t: AgentTemplate) -> Result<(), ErrorView> {
    if t.permission_ref@.len() == 0 {
        Err(ErrorView::Store("agent template missing permission_ref"@))
    } else if t.prompt_ref@.len() == 0 {
        Err(ErrorView::Store("agent template missing prompt_ref"@))
    } else {
        Ok(())
    }
}

/// What parsing an agent template comes to, given what reading its
/// frontmatter gave.
pub open spec fn agent_template(raw: Seq<char>, parsed: Result<AgentTemplate, String>) -> Result<
    AgentTemplate,
    ErrorView,
> {
    match template_head(raw, "agent"@) {
        Err(e) => Err(e),
        Ok(_) => match parsed {
            Err(e) => Err(ErrorView::Store("agent template: "@ + e@)),
            Ok(t) => match refs_check(t) {
                Err(e) => Err(e),
                Ok(_) => Ok(t),
            },
        },
    }
}

/// What a result of an agent template holds.
pub open spec fn template_outcome(r: Result<AgentTemplate, Error>) -> Result<
    AgentTemplate,
    ErrorView,
> {
    match r {
        Ok(t) => Ok(t),
        Err(e) => Err(e@),
    }
}

impl AgentTemplate {
    /// The frontmatter of the template file `raw`, which must be a YAML
    /// mapping.
    pub fn head(raw: &str) -> (r: Result<String, Error>)
        ensures
            error::outcome(r) == (match template_head(raw@, "agent"@) {
                Err(e) => Err(e),
                Ok(_) => Ok(frontmatter::split_parts(raw@)->Ok_0.head->Some_0),
            }),
    {
        let parts = match frontmatter::split(raw) {
            Ok(parts) => parts,
            Err(e) => {
                return Err(e);
            },
        };
        match parts.head {
            None => Err(Error::Store(text::cat2("agent", " template has no frontmatter"))),
            Some(head) => match frontmatter::parse_mapping(head.as_str()) {
                Err(e) => Err(Error::Yaml(e)),
                Ok(_) => Ok(head),
            },
        }
    }

    /// The template of the file `raw`, given what reading its frontmatter
    /// gave: it must compose something.
    pub fn parse(raw: &str, parsed: Result<AgentTemplate, String>) -> (r: Result<
        AgentTemplate,
        Error,
    >)
        ensures
            template_outcome(r) == agent_template(raw@, parsed),
    {
        match read_head(raw, "agent") {
            Err(e) => Err(e),
            Ok(_) => match parsed {
                Err(e) => Err(Error::Store(text::cat2("agent template: ", e.as_str()))),
                Ok(t) => match t.check() {
                    Err(e) => Err(e),
                    Ok(_) => Ok(t),
                },
            },
        }
    }

    /// Check that the template composes something: both references are there.
    pub fn check(&self) -> (r: Result<(), Error>)
        ensures
            error::verdict(r) == refs_check(*self),
    {
        if self.permission_ref.as_str().is_empty() {
            Err(Error::Store("agent template missing permission_ref".to_owned()))
        } else if self.prompt_ref.as_str().is_empty() {
            Err(Error::Store("agent template missing prompt_ref".to_owned()))
        } else {
            Ok(())
        }
    }
}

// ---------------------------------------------------------------------
// Composing
// ---------------------------------------------------------------------

/// What composing a template file out of its pairs and body comes to.
pub open spec fn template_file(pairs: Seq<(Seq<char>, Option<Seq<char>>)>, body: Seq<char>) -> Result<
    Seq<char>,
    ErrorView,
> {
    match frontmatter::yaml_pairs(pairs) {
        Err(e) => Err(ErrorView::Store("cannot serialize template: "@ + e)),
        Ok(head) => Ok(frontmatter::fenced(head, body)),
    }
}

/// A template file out of its pairs and body.
fn compose_file(pairs: Vec<(String, Option<String>)>, body: &str) -> (r: Result<String, Error>)
    ensures
        error::outcome(r) == template_file(frontmatter::pair_views(pairs@), body@),
{
    match frontmatter::print_pairs(pairs) {
        Err(e) => Err(Error::Store(text::cat2("cannot serialize template: ", e.as_str()))),
        Ok(head) => Ok(frontmatter::fence(head.as_str(), body)),
    }
}

/// The pair of a key and a text.
fn pair(key: &str, value: &str) -> (r: (String, Option<String>))
    ensures
        r.0@ == key@,
        text::opt_text(r.1) == Some(value@),
{
    (key.to_owned(), Some(value.to_owned()))
}

/// Compose a permission template file.
pub fn compose_permission_template(t: &PermissionTemplate) -> (r: Result<String, Error>)
    ensures
        error::outcome(r) == template_file(
            seq![
                ("name"@, Some(t.name@)),
                ("description"@, Some(t.description@)),
                ("permission"@, Some(t.permission@)),
            ],
            Seq::empty(),
        ),
{
    let mut pairs: Vec<(String, Option<String>)> = Vec::new();
    pairs.push(pair("name", t.name.as_str()));
    pairs.push(pair("description", t.description.as_str()));
    pairs.push(pair("permission", t.permission.as_str()));
    assert(frontmatter::pair_views(pairs@) =~= seq![
        ("name"@, Some(t.name@)),
        ("description"@, Some(t.description@)),
        ("permission"@, Some(t.permission@)),
    ]);
    compose_file(pairs, String::new().as_str())
}

/// Compose a prompt template file: the body follows a blank line.
pub fn compose_prompt_template(t: &PromptTemplate) -> (r: Result<String, Error>)
    ensures
        error::outcome(r) == template_file(
            seq![("name"@, Some(t.name@)), ("description"@, Some(t.description@))],
            "\n"@ + t.body@,
        ),
{
    let mut pairs: Vec<(String, Option<String>)> = Vec::new();
    pairs.push(pair("name", t.name.as_str()));
    pairs.push(pair("description", t.description.as_str()));
    assert(frontmatter::pair_views(pairs@) =~= seq![
        ("name"@, Some(t.name@)),
        ("description"@, Some(t.description@)),
    ]);
    compose_file(pairs, text::cat2("\n", t.body.as_str()).as_str())
}

/// Compose an agent template file; a missing model is written as null.
pub fn compose_agent_template(t: &AgentTemplate) -> (r: Result<String, Error>)
    ensures
        error::outcome(r) == template_file(
            seq![
                ("name"@, Some(t.name@)),
                ("description"@, Some(t.description@)),
                ("mode"@, Some(t.mode@)),
                ("permission_ref"@, Some(t.permission_ref@)),
                ("prompt_ref"@, Some(t.prompt_ref@)),
                ("model"@, text::opt_text(t.model)),
            ],
            Seq::empty(),
        ),
{
    let mut pairs: Vec<(String, Option<String>)> = Vec::new();
    pairs.push(pair("name", t.name.as_str()));
    pairs.push(pair("description", t.description.as_str()));
    pairs.push(pair("mode", t.mode.as_str()));
    pairs.push(pair("permission_ref", t.permission_ref.as_str()));
    pairs.push(pair("prompt_ref", t.prompt_ref.as_str()));
    let model = match &t.model {
        Some(m) => Some(m.clone()),
        None => None,
    };
    pairs.push(("model".to_owned(), model));
    assert(frontmatter::pair_views(pairs@) =~= seq![
        ("name"@, Some(t.name@)),
        ("description"@, Some(t.description@)),
        ("mode"@, Some(t.mode@)),
        ("permission_ref"@, Some(t.permission_ref@)),
        ("prompt_ref"@, Some(t.prompt_ref@)),
        ("model"@, text::opt_text(t.model)),
    ]);
    compose_file(pairs, String::new().as_str())
}

/// The model that an agent file names: the one asked for, else the template's
/// own, each only if it is not blank.
pub open spec fn chosen_model(asked: Option<Seq<char>>, own: Option<Seq<char>>) -> Option<
    Seq<char>,
> {
    let first = match asked {
        Some(m) => if text::trimmed(m).len() > 0 {
            Some(text::trimmed(m))
        } else {
            None
        },
        None => None,
    };
    match first {
        Some(m) => Some(m),
        None => match own {
            Some(m) => if text::trimmed(m).len() > 0 {
                Some(text::trimmed(m))
            } else {
                None
            },
            None => None,
        },
    }
}

/// The agent file that a template composes: the permission block line by line
/// as it is, never printed anew, and the prompt as it is.
pub open spec fn agent_file(
    agent: AgentTemplate,
    block: Seq<char>,
    prompt: Seq<char>,
    model: Option<Seq<char>>,
) -> Seq<char> {
    let head = "---\ndescription: "@ + agent.description@ + "\nmode: "@ + agent.mode@ + "\n"@;
    let modelled = match chosen_model(model, text::opt_text(agent.model)) {
        Some(m) => head + "model: "@ + m + "\n"@,
        None => head,
    };
    modelled + "permission:\n"@ + crate::agents::render::indented(
        text::lines(block),
        text::lines(block).len(),
    ) + "---\n"@ + prompt
}

/// The text without white space at its ends, if anything is left.
fn not_blank(s: &str) -> (r: Option<String>)
    ensures
        text::opt_text(r) == (if text::trimmed(s@).len() > 0 {
            Some(text::trimmed(s@))
        } else {
            None
        }),
{
    let t = text::trim(s);
    if t.as_str().is_empty() {
        None
    } else {
        Some(t)
    }
}

/// Compose the agent file of a template with its permission block and prompt.
pub fn compose_agent_file(
    agent: &AgentTemplate,
    permission_block: &str,
    prompt_body: &str,
    model: Option<&str>,
) -> (r: String)
    ensures
        r@ == agent_file(*agent, permission_block@, prompt_body@, text::opt_str(model)),
{
    let asked = match model {
        Some(m) => not_blank(m),
        None => None,
    };
    let model = match asked {
        Some(m) => Some(m),
        None => match &agent.model {
            Some(m) => not_blank(m.as_str()),
            None => None,
        },
    };
    let mut out = text::cat5(
        "---\ndescription: ",
        agent.description.as_str(),
        "\nmode: ",
        agent.mode.as_str(),
        "\n",
    );
    match model {
        Some(m) => {
            out.append("model: ");
            out.append(m.as_str());
            out.append("\n");
        },
        None => {},
    }
    let lines = text::split_lines(permission_block);
    assert(text::texts(lines@).len() == lines@.len());
    out.append("permission:\n");
    out.append(crate::agents::render::indent(&lines).as_str());
    out.append("---\n");
    out.append(prompt_body);
    out
}

/// What rendering a template comes to, out of its permission and its prompt
/// template.
pub open spec fn rendered(
    agent: AgentTemplate,
    permission: Seq<char>,
    prompt: Seq<char>,
    model: Option<Seq<char>>,
) -> Result<Seq<char>, ErrorView> {
    match permission_template(permission) {
        Err(e) => Err(e),
        Ok(p) => match prompt_template(prompt) {
            Err(e) => Err(e),
            Ok(q) => Ok(agent_file(agent, p.content, q.content, model)),
        },
    }
}

impl AgentTemplate {
    /// The agent file of the template, out of the files of its permission and
    /// its prompt template.
    pub fn render(&self, permission: &str, prompt: &str, model: Option<&str>) -> (r: Result<
        String,
        Error,
    >)
        ensures
            error::outcome(r) == rendered(*self, permission@, prompt@, text::opt_str(model)),
    {
        let permission = match PermissionTemplate::parse(permission) {
            Err(e) => {
                return Err(e);
            },
            Ok(p) => p,
        };
        let prompt = match PromptTemplate::parse(prompt) {
            Err(e) => {
                return Err(e);
            },
            Ok(q) => q,
        };
        Ok(
            compose_agent_file(
                self,
                permission.permission.as_str(),
                prompt.body.as_str(),
                model,
            ),
        )
    }
}

// ---------------------------------------------------------------------
// Laws
// ---------------------------------------------------------------------

/// A project's own template wins over the shared one, and one that resolves
/// is read from a file that exists.
pub proof fn law_own_template_wins(
    local: Templates,
    core: Templates,
    kind: TemplateKind,
    slug: Seq<char>,
    files: Seq<Seq<char>>,
)
    ensures
        files.contains(template_path(local.dir_of(kind), slug)) ==> resolved_path(
            local,
            core,
            kind,
            slug,
            files,
        ) == template_path(local.dir_of(kind), slug),
        files.contains(template_path(local.dir_of(kind), slug)) || files.contains(
            template_path(core.dir_of(kind), slug),
        ) <==> files.contains(resolved_path(local, core, kind, slug, files)),
{
}

/// A model that the launch names wins over the template's own, and a blank one
/// names nothing.
pub proof fn law_asked_model_wins(asked: Option<Seq<char>>, own: Option<Seq<char>>)
    ensures
        asked matches Some(m) && text::trimmed(m).len() > 0 ==> chosen_model(asked, own) == Some(
            text::trimmed(asked->Some_0),
        ),
        !(asked matches Some(m) && text::trimmed(m).len() > 0) ==> chosen_model(asked, own)
            == chosen_model(None, own),
        chosen_model(asked, own) matches Some(m) ==> m.len() > 0,
{
}

/// A template lies in its kind's directory, under its slug, and the kinds have
/// directories of their own.
pub proof fn law_templates_are_filed_by_kind(a: TemplateKind, b: TemplateKind, slug: Seq<char>)
    requires
        crate::store::naming::is_slug(slug),
    ensures
        a != b ==> kind_dir_name(a) != kind_dir_name(b),
        missions::mission_slug_of(slug + ".md"@) == Some(slug),
{
    reveal_strlit("permissions");
    reveal_strlit("prompts");
    reveal_strlit("agents");
    assert("permissions"@.len() == 11 && "prompts"@.len() == 7 && "agents"@.len() == 6);
    crate::store::laws::law_missions_are_filed_under_their_slug(slug, slug, slug);
}

/// Each of the markdown files of a directory is a template, and nothing else
/// is.
pub proof fn law_markdown_files_are_templates(names: Seq<Seq<char>>, n: nat, i: int)
    requires
        0 <= i < n <= names.len(),
    ensures
        missions::mission_slug_of(names[i]) matches Some(slug) ==> slugs_of(names, n).contains(
            slug,
        ),
        slugs_of(names, n).len() <= n,
    decreases n,
{
    let before = slugs_of(names, (n - 1) as nat);
    let all = slugs_of(names, n);
    if i == n - 1 {
        match missions::mission_slug_of(names[i]) {
            Some(slug) => {
                assert(all[before.len() as int] == slug);
            },
            None => {},
        }
        if n > 1 {
            law_markdown_files_are_templates(names, (n - 1) as nat, 0);
        }
    } else {
        law_markdown_files_are_templates(names, (n - 1) as nat, i);
        match missions::mission_slug_of(names[i]) {
            Some(slug) => {
                let k = choose|k: int| 0 <= k < before.len() && before[k] == slug;
                assert(all[k] == slug);
            },
            None => {},
        }
    }
}

/// A permission template needs a name and a block that reads as YAML, and is
/// what its fields say; the block is kept as it is.
pub proof fn law_permission_templates_keep_their_block(
    fields: MappingView,
    block: Result<MappingView, Seq<char>>,
)
    ensures
        permission_fields(fields, block) is Ok <==> frontmatter::text_under(
            fields,
            "name"@,
            0,
        ) is Some && frontmatter::text_under(fields, "permission"@, 0) is Some && block is Ok,
        permission_fields(fields, block) matches Ok(t) ==> {
            &&& frontmatter::text_under(fields, "name"@, 0) == Some(t.name)
            &&& frontmatter::text_under(fields, "permission"@, 0) == Some(t.content)
            &&& frontmatter::text_under(fields, "description"@, 0) matches Some(d)
                ==> t.description == d
        },
{
}

/// A prompt template needs a name and a body that says something, which is kept
/// as it is.
pub proof fn law_prompt_templates_keep_their_body(fields: MappingView, body: Seq<char>)
    ensures
        prompt_fields(fields, body) is Ok <==> frontmatter::text_under(fields, "name"@, 0) is Some
            && !text::all_white(body),
        prompt_fields(fields, body) matches Ok(t) ==> {
            &&& frontmatter::text_under(fields, "name"@, 0) == Some(t.name)
            &&& t.content == body
            &&& frontmatter::text_under(fields, "description"@, 0) matches Some(d)
                ==> t.description == d
        },
{
    text::law_trimming_takes_only_white_space(body);
}

/// An agent template composes a permission and a prompt.
pub proof fn law_agent_templates_compose_both(t: AgentTemplate)
    ensures
        refs_check(t) is Ok <==> t.permission_ref@.len() > 0 && t.prompt_ref@.len() > 0,
{
}

proof fn lemma_indented_line(lines: Seq<Seq<char>>, n: nat, i: int)
    requires
        0 <= i < n <= lines.len(),
    ensures
        text::contains(
            crate::agents::render::indented(lines, n),
            "  "@ + lines[i] + "\n"@,
        ),
    decreases n,
{
    let none = Seq::<char>::empty();
    let before = crate::agents::render::indented(lines, (n - 1) as nat);
    let more = "  "@ + lines[n - 1] + "\n"@;
    assert(before + "  "@ + lines[n - 1] + "\n"@ =~= before + more);
    if i == n - 1 {
        text::lemma_contains_middle(before, more, none);
        assert(before + more + none =~= before + more);
    } else {
        lemma_indented_line(lines, (n - 1) as nat, i);
        text::lemma_contains_wider(none, before, more, "  "@ + lines[i] + "\n"@);
        assert(none + before + more =~= before + more);
    }
}

/// The file that a template composes states the template's description and
/// mode, the model that is chosen, every line of the permission block, and ends
/// in the prompt as it is.
pub proof fn law_agent_files_state_their_template(
    agent: AgentTemplate,
    block: Seq<char>,
    prompt: Seq<char>,
    model: Option<Seq<char>>,
)
    ensures
        ({
            let file = agent_file(agent, block, prompt, model);
            &&& ("---\ndescription: "@ + agent.description@ + "\nmode: "@ + agent.mode@
                + "\n"@).is_prefix_of(file)
            &&& ("---\n"@ + prompt).is_suffix_of(file)
            &&& chosen_model(model, text::opt_text(agent.model)) matches Some(m) ==> text::contains(
                file,
                "model: "@ + m + "\n"@,
            )
            &&& forall|i: int|
                0 <= i < text::lines(block).len() ==> text::contains(
                    file,
                    "  "@ + #[trigger] text::lines(block)[i] + "\n"@,
                )
        }),
{
    let file = agent_file(agent, block, prompt, model);
    let head = "---\ndescription: "@ + agent.description@ + "\nmode: "@ + agent.mode@ + "\n"@;
    let none = Seq::<char>::empty();
    let model_part = match chosen_model(model, text::opt_text(agent.model)) {
        Some(m) => "model: "@ + m + "\n"@,
        None => none,
    };
    let lines = text::lines(block);
    let body = crate::agents::render::indented(lines, lines.len());
    match chosen_model(model, text::opt_text(agent.model)) {
        Some(m) => {
            assert(head + "model: "@ + m + "\n"@ =~= head + model_part);
        },
        None => {
            assert(head + model_part =~= head);
        },
    }
    let modelled = head + model_part;
    assert(file == modelled + "permission:\n"@ + body + "---\n"@ + prompt);
    lemma_composed(head, model_part, "permission:\n"@, body, "---\n"@, prompt);
    assert forall|i: int| 0 <= i < lines.len() implies text::contains(
        file,
        "  "@ + #[trigger] lines[i] + "\n"@,
    ) by {
        lemma_indented_line(lines, lines.len(), i);
        text::lemma_contains_wider(
            modelled + "permission:\n"@,
            body,
            "---\n"@ + prompt,
            "  "@ + lines[i] + "\n"@,
        );
        assert(modelled + "permission:\n"@ + body + ("---\n"@ + prompt) =~= file);
    }
}

proof fn lemma_composed(
    head: Seq<char>,
    model: Seq<char>,
    word: Seq<char>,
    body: Seq<char>,
    fence: Seq<char>,
    prompt: Seq<char>,
)
    ensures
        ({
            let file = head + model + word + body + fence + prompt;
            &&& head.is_prefix_of(file)
            &&& (fence + prompt).is_suffix_of(file)
            &&& text::contains(file, model)
        }),
{
    let file = head + model + word + body + fence + prompt;
    let end = fence + prompt;
    assert(head =~= file.subrange(0, head.len() as int));
    assert(end =~= file.subrange(file.len() - end.len(), file.len() as int));
    text::lemma_contains_middle(head, model, word + body + fence + prompt);
    assert(head + model + (word + body + fence + prompt) =~= file);
}

/// Templates that differ in their mode compose different files.
pub proof fn law_modes_of_templates_are_told_apart(
    a: AgentTemplate,
    b: AgentTemplate,
    block: Seq<char>,
    prompt: Seq<char>,
    model: Option<Seq<char>>,
)
    requires
        a.description@ == b.description@,
        text::opt_text(a.model) == text::opt_text(b.model),
        a.mode@ != b.mode@,
    ensures
        agent_file(a, block, prompt, model) != agent_file(b, block, prompt, model),
{
    let none = Seq::<char>::empty();
    let model_part = match chosen_model(model, text::opt_text(a.model)) {
        Some(m) => "model: "@ + m + "\n"@,
        None => none,
    };
    let begin = "---\ndescription: "@ + a.description@ + "\nmode: "@;
    let lines = text::lines(block);
    let body = crate::agents::render::indented(lines, lines.len());
    let rest = "\n"@ + (model_part + "permission:\n"@ + body + "---\n"@ + prompt);
    text::lemma_middles_differ(begin, a.mode@, b.mode@, rest);
    lemma_moded_file(a, block, prompt, model, begin, model_part);
    lemma_moded_file(b, block, prompt, model, begin, model_part);
}

proof fn lemma_moded_file(
    a: AgentTemplate,
    block: Seq<char>,
    prompt: Seq<char>,
    model: Option<Seq<char>>,
    begin: Seq<char>,
    model_part: Seq<char>,
)
    requires
        begin == "---\ndescription: "@ + a.description@ + "\nmode: "@,
        model_part == (match chosen_model(model, text::opt_text(a.model)) {
            Some(m) => "model: "@ + m + "\n"@,
            None => Seq::empty(),
        }),
    ensures
        ({
            let lines = text::lines(block);
            let body = crate::agents::render::indented(lines, lines.len());
            agent_file(a, block, prompt, model) == begin + a.mode@ + ("\n"@ + (model_part
                + "permission:\n"@ + body + "---\n"@ + prompt))
        }),
{
    let lines = text::lines(block);
    let body = crate::agents::render::indented(lines, lines.len());
    let head = begin + a.mode@ + "\n"@;
    match chosen_model(model, text::opt_text(a.model)) {
        Some(m) => {
            assert(head + "model: "@ + m + "\n"@ =~= head + model_part);
        },
        None => {
            assert(head + model_part =~= head);
        },
    }
    assert((head + model_part) + "permission:\n"@ + body + "---\n"@ + prompt =~= begin + a.mode@ + (
    "\n"@ + (model_part + "permission:\n"@ + body + "---\n"@ + prompt)));
}

/// A rendered template holds the block of its permission template and the body
/// of its prompt template, and comes to nothing where one of them does not
/// read.
pub proof fn law_rendered_templates_hold_both(
    agent: AgentTemplate,
    permission: Seq<char>,
    prompt: Seq<char>,
    model: Option<Seq<char>>,
)
    ensures
        rendered(agent, permission, prompt, model) is Ok <==> permission_template(permission) is Ok
            && prompt_template(prompt) is Ok,
        rendered(agent, permission, prompt, model) matches Ok(file) ==> {
            &&& prompt_template(prompt)->Ok_0.content.is_suffix_of(file)
            &&& forall|i: int|
                0 <= i < text::lines(permission_template(permission)->Ok_0.content).len()
                    ==> text::contains(
                    file,
                    "  "@ + #[trigger] text::lines(
                        permission_template(permission)->Ok_0.content,
                    )[i] + "\n"@,
                )
        },
{
    match rendered(agent, permission, prompt, model) {
        Ok(file) => {
            let body = prompt_template(prompt)->Ok_0.content;
            law_agent_files_state_their_template(
                agent,
                permission_template(permission)->Ok_0.content,
                body,
                model,
            );
            let end = "---\n"@ + body;
            assert(end =~= file.subrange(file.len() - end.len(), file.len() as int));
            let n = "---\n"@.len() as int;
            assert(body =~= end.skip(n));
            assert(body =~= file.subrange(file.len() - body.len(), file.len() as int));
        },
        Err(_) => {},
    }
}

/// A template file that is read has its fields and what follows them; one
/// without frontmatter, or whose frontmatter does not read, is none.
pub proof fn law_template_heads(head: Seq<char>, body: Seq<char>, kind: Seq<char>)
    requires
        head.len() == 0 || head.last() == '\n',
        forall|i: int| 0 <= i <= head.len() - 3 ==> !frontmatter::fence_at(head, i),
    ensures
        frontmatter::yaml_mapping(head) matches Ok(fields) ==> template_head(
            frontmatter::fenced(head, body),
            kind,
        ) == Ok::<(MappingView, Seq<char>), ErrorView>((fields, body)),
        frontmatter::yaml_mapping(head) is Err ==> template_head(
            frontmatter::fenced(head, body),
            kind,
        ) is Err,
{
    frontmatter::law_split_undoes_fence(head, body);
}

/// An agent template is what its frontmatter reads as, where the file has one
/// that is a mapping and both references are there.
pub proof fn law_agent_templates_are_what_they_read_as(
    raw: Seq<char>,
    t: AgentTemplate,
    why: String,
)
    ensures
        agent_template(raw, Ok(t)) is Ok <==> template_head(raw, "agent"@) is Ok
            && t.permission_ref@.len() > 0 && t.prompt_ref@.len() > 0,
        agent_template(raw, Ok(t)) matches Ok(x) ==> x == t,
        agent_template(raw, Err(why)) is Err,
{
}

/// A template file ends in its body and begins with its fields, as they are
/// printed; a block is valid where it reads as a mapping.
pub proof fn law_template_files_hold_their_fields(
    pairs: Seq<(Seq<char>, Option<Seq<char>>)>,
    body: Seq<char>,
    block: Seq<char>,
)
    ensures
        frontmatter::yaml_pairs(pairs) matches Ok(head) ==> (template_file(
            pairs,
            body,
        ) matches Ok(file) && ("---\n"@ + head).is_prefix_of(file) && body.is_suffix_of(file)
            && file.len() == head.len() + body.len() + 2 * "---\n"@.len()),
        frontmatter::yaml_pairs(pairs) is Err ==> template_file(pairs, body) is Err,
        block_check(block) is Ok <==> frontmatter::yaml_mapping(block) is Ok,
{
    match frontmatter::yaml_pairs(pairs) {
        Ok(head) => {
            let file = frontmatter::fenced(head, body);
            let begin = "---\n"@ + head;
            assert(begin =~= file.subrange(0, begin.len() as int));
            assert(body =~= file.subrange(file.len() - body.len(), file.len() as int));
        },
        Err(_) => {},
    }
}

} // verus!
