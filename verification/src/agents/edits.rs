//! Edits of agent documents: permission patches, subagents, clones and new
//! agents.
use vstd::prelude::*;
use crate::agents::document;
use crate::agents::document::Fields;
use crate::agents::roles;
use crate::agents::roles::{AgentRole, RolePrompts};
use crate::error;
use crate::error::{Error, ErrorView};
use crate::json;
use crate::json::{Json, JsonView};
use crate::store::naming;
use crate::table;
use crate::table::Table;
use crate::text;

verus! {

// ---------------------------------------------------------------------
// Permission patches
// ---------------------------------------------------------------------

/// A permission block with a patch merged into it: the patch's keys replace,
/// and its null values remove.
pub open spec fn patched(block: Fields, patch: Fields) -> Fields {
    Map::new(
        |k: Seq<char>|
            if patch.dom().contains(k) {
                patch[k] != JsonView::Null
            } else {
                block.dom().contains(k)
            },
        |k: Seq<char>|
            if patch.dom().contains(k) {
                patch[k]
            } else {
                block[k]
            },
    )
}

/// The permission block of an entry; empty where it has none.
pub open spec fn block_of(cfg: Fields) -> Fields {
    match json::entry_fields(cfg, "permission"@) {
        Some(b) => b,
        None => Map::empty(),
    }
}

/// What merging a permission patch into one entry comes to.
pub open spec fn permission_edit(
    doc: JsonView,
    project: Seq<char>,
    slug: Seq<char>,
    target: Seq<char>,
    patch: JsonView,
    files: Seq<Seq<char>>,
) -> Result<JsonView, ErrorView> {
    match json::as_fields(patch) {
        None => Err(ErrorView::Store("permission patch must be an object"@)),
        Some(p) => match json::member_fields(doc, "agent"@) {
            None => Err(document::no_agent_map(project, slug)),
            Some(m) => match json::entry_fields(m, target) {
                None => Err(document::no_entry(project, slug, target)),
                Some(c) => document::checked(
                    slug,
                    document::with_agents(
                        doc,
                        m.insert(
                            target,
                            JsonView::Object(
                                c.insert(
                                    "permission"@,
                                    JsonView::Object(patched(block_of(c), p)),
                                ),
                            ),
                        ),
                    ),
                    files,
                ),
            },
        },
    }
}

/// A copy of the permission block of an entry; empty where it has none.
fn copy_block(cfg: &Table<Json>) -> (r: Table<Json>)
    ensures
        json::fields(r) == block_of(json::fields(*cfg)),
{
    match json::field_object(cfg, "permission") {
        Some(b) => json::copy_fields(b),
        None => json::no_fields(),
    }
}

/// A copy of `block` with `patch` merged into it.
fn patch_block(block: Table<Json>, patch: &Table<Json>) -> (r: Table<Json>)
    ensures
        json::fields(r) == patched(json::fields(block), json::fields(*patch)),
{
    let ghost base = json::fields(block);
    let ghost over = json::fields(*patch);
    let mut out = block;
    let n: usize = patch.len();
    let ghost ks = table::in_order(patch@.dom());
    proof {
        json::lemma_fields_dom(*patch);
    }
    let mut i: usize = 0;
    while i < n
        invariant
            i <= n,
            n == ks.len(),
            ks == table::in_order(patch@.dom()),
            table::lists(ks, patch@.dom()),
            over == json::fields(*patch),
            over.dom() == patch@.dom(),
            forall|k: Seq<char>|
                #![trigger json::fields(out).dom().contains(k)]
                json::fields(out).dom().contains(k) == (if ks.take(i as int).contains(k) {
                    over[k] != JsonView::Null
                } else {
                    base.dom().contains(k)
                }),
            forall|k: Seq<char>|
                #![trigger json::fields(out)[k]]
                json::fields(out).dom().contains(k) ==> json::fields(out)[k] == (if ks.take(
                    i as int,
                ).contains(k) {
                    over[k]
                } else {
                    base[k]
                }),
        decreases n - i,
    {
        let key = patch.key_at(i);
        let value = patch.value_at(i);
        assert(value@ == over[key@]);
        match value {
            Json::Null => {
                json::drop_field(&mut out, key.as_str());
            },
            _ => {
                json::put(&mut out, key.as_str(), value.copy());
            },
        }
        proof {
            let next = ks.take(i + 1);
            assert(next =~= ks.take(i as int).push(ks[i as int]));
            assert forall|k: Seq<char>| #[trigger] next.contains(k) <==> (ks.take(i as int).contains(k)
                || k == ks[i as int]) by {
                if ks.take(i as int).contains(k) {
                    let j = choose|j: int| 0 <= j < i && ks.take(i as int)[j] == k;
                    assert(next[j] == k);
                }
                if k == ks[i as int] {
                    assert(next[i as int] == k);
                }
                if next.contains(k) && k != ks[i as int] {
                    let j = choose|j: int| 0 <= j < next.len() && next[j] == k;
                    assert(ks.take(i as int)[j] == k);
                }
            }
        }
        i = i + 1;
    }
    proof {
        assert(ks.take(n as int) =~= ks);
        assert forall|k: Seq<char>| over.dom().contains(k) <==> ks.contains(k) by {
            assert(patch@.dom().contains(k) <==> ks.contains(k));
        }
        assert(json::fields(out) =~= patched(base, over));
    }
    out
}

/// Merge a permission patch into the entry named `target`: its keys replace,
/// its null values remove, and every other rule stays.
pub fn edit_permission(
    doc: &Json,
    project: &str,
    slug: &str,
    target: &str,
    patch: &Json,
    files: &[String],
) -> (r: Result<Json, Error>)
    ensures
        error::outcome(r) == permission_edit(
            doc@,
            project@,
            slug@,
            target@,
            patch@,
            text::texts(files@),
        ),
{
    let p = match patch.as_object() {
        Some(p) => p,
        None => {
            return Err(Error::Store("permission patch must be an object".to_owned()));
        },
    };
    let m = match doc.get_object("agent") {
        Some(m) => m,
        None => {
            return Err(document::missing_map(project, slug));
        },
    };
    let c = match json::field_object(m, target) {
        Some(c) => c,
        None => {
            return Err(document::missing_entry(project, slug, target));
        },
    };
    let block = patch_block(copy_block(c), p);
    let mut cfg = json::copy_fields(c);
    json::put(&mut cfg, "permission", Json::Object(block));
    let mut agents = json::copy_fields(m);
    json::put(&mut agents, target, Json::Object(cfg));
    document::check_doc(slug, document::put_agents(doc, agents), files)
}

// ---------------------------------------------------------------------
// Subagents
// ---------------------------------------------------------------------

/// The configuration of an entry built from structured content, over what it
/// starts from.
pub open spec fn entry_cfg(
    base: Fields,
    mode: Seq<char>,
    description: Seq<char>,
    prompt: Seq<char>,
    model: Option<Seq<char>>,
) -> Fields {
    let plain = base.insert("description"@, JsonView::Text(description)).insert(
        "mode"@,
        JsonView::Text(mode),
    );
    let prompted = if prompt.len() > 0 {
        plain.insert("prompt"@, JsonView::Text(prompt))
    } else {
        plain
    };
    match model {
        Some(model) => prompted.insert("model"@, JsonView::Text(model)),
        None => prompted,
    }
}

/// The delegation rules of a permission block as a rule map: a plain action
/// becomes the default rule, and no rules at all deny.
pub open spec fn task_rules(block: Fields) -> Fields {
    match json::entry(block, "task"@) {
        Some(JsonView::Object(rules)) => rules,
        Some(JsonView::Text(action)) => Map::empty().insert("*"@, JsonView::Text(action)),
        _ => Map::empty().insert("*"@, JsonView::Text("deny"@)),
    }
}

/// An entry that may delegate to `name`, its other rules as they are.
pub open spec fn delegating(cfg: Fields, name: Seq<char>) -> Fields {
    let rules = task_rules(block_of(cfg)).insert(name, JsonView::Text("allow"@));
    cfg.insert(
        "permission"@,
        JsonView::Object(block_of(cfg).insert("task"@, JsonView::Object(rules))),
    )
}

/// An agent map with a new subagent that its primary may delegate to.
pub open spec fn with_subagent(m: Fields, slug: Seq<char>, name: Seq<char>, cfg: Fields) -> Fields {
    let added = m.insert(name, JsonView::Object(cfg));
    match json::entry_fields(added, slug) {
        Some(primary) => added.insert(slug, JsonView::Object(delegating(primary, name))),
        None => added,
    }
}

/// What adding a subagent comes to.
pub open spec fn subagent_addition(
    doc: JsonView,
    project: Seq<char>,
    slug: Seq<char>,
    name: Seq<char>,
    cfg: Fields,
    files: Seq<Seq<char>>,
) -> Result<JsonView, ErrorView> {
    match json::member_fields(doc, "agent"@) {
        None => Err(document::no_agent_map(project, slug)),
        Some(m) => if m.dom().contains(name) {
            Err(
                ErrorView::Store(
                    "agent "@ + project + "/"@ + slug + " already has an entry named "@
                        + text::quoted(name),
                ),
            )
        } else {
            document::checked(
                slug,
                document::with_agents(doc, with_subagent(m, slug, name, cfg)),
                files,
            )
        },
    }
}

/// What checking a new subagent's name comes to.
pub open spec fn subagent_name_check(slug: Seq<char>, name: Seq<char>) -> Result<(), ErrorView> {
    match naming::slug_check(name) {
        Err(e) => Err(e),
        Ok(_) => if name == slug {
            Err(
                ErrorView::Store(
                    "subagent "@ + text::quoted(name) + " would collide with its primary"@,
                ),
            )
        } else {
            Ok(())
        },
    }
}

/// Check the name of a new subagent: a slug other than its primary's.
pub fn check_subagent_name(slug: &str, name: &str) -> (r: Result<(), Error>)
    ensures
        error::verdict(r) == subagent_name_check(slug@, name@),
{
    match naming::validate_slug(name) {
        Ok(_) => {},
        Err(e) => {
            return Err(e);
        },
    }
    if text::same(name, slug) {
        return Err(
            Error::Store(
                text::cat3(
                    "subagent ",
                    text::quote(name).as_str(),
                    " would collide with its primary",
                ),
            ),
        );
    }
    Ok(())
}

/// The configuration of an entry built from structured content over `base`.
pub fn build_cfg(
    base: Table<Json>,
    mode: &str,
    description: &str,
    prompt: &str,
    model: Option<&str>,
) -> (r: Table<Json>)
    ensures
        json::fields(r) == entry_cfg(
            json::fields(base),
            mode@,
            description@,
            prompt@,
            text::opt_str(model),
        ),
{
    let mut cfg = base;
    json::put_text(&mut cfg, "description", description);
    json::put_text(&mut cfg, "mode", mode);
    if !prompt.is_empty() {
        json::put_text(&mut cfg, "prompt", prompt);
    }
    match model {
        Some(model) => {
            json::put_text(&mut cfg, "model", model);
        },
        None => {},
    }
    cfg
}

/// A copy of an entry that may delegate to `name`.
fn delegate(cfg: &Table<Json>, name: &str) -> (r: Table<Json>)
    ensures
        json::fields(r) == delegating(json::fields(*cfg), name@),
{
    let mut block = copy_block(cfg);
    let mut rules = match json::field(&block, "task") {
        Some(Json::Object(rules)) => json::copy_fields(rules),
        Some(Json::Text(action)) => {
            let mut rules = json::no_fields();
            json::put_text(&mut rules, "*", action.as_str());
            rules
        },
        _ => {
            let mut rules = json::no_fields();
            json::put_text(&mut rules, "*", "deny");
            rules
        },
    };
    json::put_text(&mut rules, name, "allow");
    json::put(&mut block, "task", Json::Object(rules));
    let mut out = json::copy_fields(cfg);
    json::put(&mut out, "permission", Json::Object(block));
    out
}

/// Add a subagent entry to a document, and let the primary delegate to it: the
/// two halves are useless apart.
pub fn insert_subagent(
    doc: &Json,
    project: &str,
    slug: &str,
    name: &str,
    cfg: Table<Json>,
    files: &[String],
) -> (r: Result<Json, Error>)
    ensures
        error::outcome(r) == subagent_addition(
            doc@,
            project@,
            slug@,
            name@,
            json::fields(cfg),
            text::texts(files@),
        ),
{
    let m = match doc.get_object("agent") {
        Some(m) => m,
        None => {
            return Err(document::missing_map(project, slug));
        },
    };
    proof {
        json::lemma_fields_dom(*m);
    }
    if m.contains_key(name) {
        return Err(
            Error::Store(
                text::cat6(
                    "agent ",
                    project,
                    "/",
                    slug,
                    " already has an entry named ",
                    text::quote(name).as_str(),
                ),
            ),
        );
    }
    let mut agents = json::copy_fields(m);
    json::put(&mut agents, name, Json::Object(cfg));
    let primary = match json::field_object(&agents, slug) {
        Some(primary) => Some(delegate(primary, name)),
        None => None,
    };
    match primary {
        Some(primary) => {
            json::put(&mut agents, slug, Json::Object(primary));
        },
        None => {},
    }
    document::check_doc(slug, document::put_agents(doc, agents), files)
}

/// An entry whose delegation rules no longer name `name`.
pub open spec fn undelegating(cfg: Fields, name: Seq<char>) -> Fields {
    match json::entry_fields(cfg, "permission"@) {
        None => cfg,
        Some(block) => match json::entry_fields(block, "task"@) {
            None => cfg,
            Some(rules) => cfg.insert(
                "permission"@,
                JsonView::Object(block.insert("task"@, JsonView::Object(rules.remove(name)))),
            ),
        },
    }
}

/// An agent map without one entry, and without the primary's rule for it.
pub open spec fn without_subagent(m: Fields, slug: Seq<char>, name: Seq<char>) -> Fields {
    let rest = m.remove(name);
    match json::entry_fields(rest, slug) {
        Some(primary) => rest.insert(slug, JsonView::Object(undelegating(primary, name))),
        None => rest,
    }
}

/// What removing a subagent comes to.
pub open spec fn subagent_removal(
    doc: JsonView,
    project: Seq<char>,
    slug: Seq<char>,
    name: Seq<char>,
    files: Seq<Seq<char>>,
) -> Result<JsonView, ErrorView> {
    match json::member_fields(doc, "agent"@) {
        None => Err(document::no_agent_map(project, slug)),
        Some(m) => if !m.dom().contains(name) {
            Err(document::no_entry(project, slug, name))
        } else {
            document::checked(
                slug,
                document::with_agents(doc, without_subagent(m, slug, name)),
                files,
            )
        },
    }
}

/// A copy of an entry whose delegation rules no longer name `name`.
fn undelegate(cfg: &Table<Json>, name: &str) -> (r: Table<Json>)
    ensures
        json::fields(r) == undelegating(json::fields(*cfg), name@),
{
    let mut out = json::copy_fields(cfg);
    let block = match json::field_object(cfg, "permission") {
        Some(block) => block,
        None => {
            return out;
        },
    };
    let rules = match json::field_object(block, "task") {
        Some(rules) => rules,
        None => {
            return out;
        },
    };
    let mut rules = json::copy_fields(rules);
    json::drop_field(&mut rules, name);
    let mut block = json::copy_fields(block);
    json::put(&mut block, "task", Json::Object(rules));
    json::put(&mut out, "permission", Json::Object(block));
    out
}

/// Remove a subagent entry and the primary's rule for it, leaving no
/// delegation to a missing entry.
pub fn delete_subagent(doc: &Json, project: &str, slug: &str, name: &str, files: &[String]) -> (r:
    Result<Json, Error>)
    ensures
        error::outcome(r) == subagent_removal(
            doc@,
            project@,
            slug@,
            name@,
            text::texts(files@),
        ),
{
    let m = match doc.get_object("agent") {
        Some(m) => m,
        None => {
            return Err(document::missing_map(project, slug));
        },
    };
    let mut agents = json::copy_fields(m);
    if !json::drop_field(&mut agents, name) {
        return Err(document::missing_entry(project, slug, name));
    }
    let primary = match json::field_object(&agents, slug) {
        Some(primary) => Some(undelegate(primary, name)),
        None => None,
    };
    match primary {
        Some(primary) => {
            json::put(&mut agents, slug, Json::Object(primary));
        },
        None => {},
    }
    document::check_doc(slug, document::put_agents(doc, agents), files)
}

// ---------------------------------------------------------------------
// Clones and new agents
// ---------------------------------------------------------------------

/// The configuration of a document's first primary; empty where the entry is
/// no object.
pub open spec fn primary_cfg(m: Fields) -> Fields {
    match json::as_fields(m[document::all_primaries(m)[0]]) {
        Some(c) => c,
        None => Map::empty(),
    }
}

/// What taking the primary's configuration out of a document comes to.
pub open spec fn primary_lookup(doc: JsonView, project: Seq<char>, slug: Seq<char>) -> Result<
    Fields,
    ErrorView,
> {
    match json::member_fields(doc, "agent"@) {
        None => Err(
            ErrorView::Store(
                "agent "@ + project + "/"@ + slug + ": missing \"agent\" map"@,
            ),
        ),
        Some(m) => if document::all_primaries(m).len() == 0 {
            Err(
                ErrorView::Store(
                    "agent "@ + project + "/"@ + slug + ": no primary agent in opencode.json"@,
                ),
            )
        } else {
            Ok(primary_cfg(m))
        },
    }
}

/// What a result of fields or error holds.
pub open spec fn fields_outcome(r: Result<Table<Json>, Error>) -> Result<Fields, ErrorView> {
    match r {
        Ok(t) => Ok(json::fields(t)),
        Err(e) => Err(e@),
    }
}

/// Every primary is an entry, and a primary one.
pub proof fn lemma_primaries_are_entries(m: Fields)
    requires
        table::lists(document::names(m), m.dom()),
    ensures
        forall|k: Seq<char>| #[trigger]
            document::all_primaries(m).contains(k) <==> m.dom().contains(k) && document::is_primary(
                m[k],
            ),
{
    let ks = document::names(m);
    document::lemma_primaries(m, ks.len());
    assert(ks.take(ks.len() as int) =~= ks);
}

/// The primary agent's configuration out of a document.
pub fn primary_agent_cfg(doc: &Json, project: &str, slug: &str) -> (r: Result<Table<Json>, Error>)
    ensures
        fields_outcome(r) == primary_lookup(doc@, project@, slug@),
{
    let m = match doc.get_object("agent") {
        Some(m) => m,
        None => {
            return Err(
                Error::Store(text::cat5("agent ", project, "/", slug, ": missing \"agent\" map")),
            );
        },
    };
    let found = document::primary_names(m);
    assert(text::texts(found@).len() == found@.len());
    if found.len() == 0 {
        return Err(
            Error::Store(
                text::cat5("agent ", project, "/", slug, ": no primary agent in opencode.json"),
            ),
        );
    }
    assert(text::texts(found@)[0] == found@[0]@);
    proof {
        json::lemma_fields_dom(*m);
    }
    let n: usize = m.len();
    proof {
        let view = json::fields(*m);
        lemma_primaries_are_entries(view);
        assert(document::all_primaries(view).contains(found@[0]@));
    }
    match m.get(found[0].as_str()) {
        Some(cfg) => match cfg.as_object() {
            Some(c) => Ok(json::copy_fields(c)),
            None => Ok(json::no_fields()),
        },
        None => Ok(json::no_fields()),
    }
}

/// An agent map without its primaries.
pub open spec fn subagents(m: Fields) -> Fields {
    Map::new(
        |k: Seq<char>| m.dom().contains(k) && !document::is_primary(m[k]),
        |k: Seq<char>| m[k],
    )
}

/// A document whose primary is known under another name, every subagent kept;
/// a document without a primary is left as it is.
pub open spec fn renamed(doc: JsonView, to: Seq<char>) -> JsonView {
    match json::member_fields(doc, "agent"@) {
        None => doc,
        Some(m) => if document::all_primaries(m).len() == 0 {
            doc
        } else {
            document::with_agents(doc, subagents(m).insert(to, JsonView::Object(primary_cfg(m))))
        },
    }
}

/// The document with its primary known under the name `to` and every subagent
/// kept: what a clone of the agent under that slug holds.
pub fn rename_primary(doc: &Json, project: &str, from: &str, to: &str) -> (r: Json)
    ensures
        r@ == renamed(doc@, to@),
{
    let cfg = match primary_agent_cfg(doc, project, from) {
        Ok(cfg) => cfg,
        Err(_) => {
            return doc.copy();
        },
    };
    let m = match doc.get_object("agent") {
        Some(m) => m,
        None => {
            return doc.copy();
        },
    };
    let old = document::primary_names(m);
    let mut agents = json::copy_fields(m);
    let ghost view = json::fields(*m);
    let n: usize = m.len();
    proof {
        json::lemma_fields_dom(*m);
        lemma_primaries_are_entries(view);
    }
    let ghost gone = text::texts(old@);
    let mut i: usize = 0;
    while i < old.len()
        invariant
            i <= old@.len(),
            gone == text::texts(old@),
            forall|k: Seq<char>|
                #![trigger json::fields(agents).dom().contains(k)]
                json::fields(agents).dom().contains(k) <==> view.dom().contains(k) && !gone.take(
                    i as int,
                ).contains(k),
            forall|k: Seq<char>|
                #![trigger json::fields(agents)[k]]
                json::fields(agents).dom().contains(k) ==> json::fields(agents)[k] == view[k],
        decreases old@.len() - i,
    {
        json::drop_field(&mut agents, old[i].as_str());
        proof {
            assert(gone.take(i + 1) =~= gone.take(i as int).push(gone[i as int]));
            assert forall|k: Seq<char>| #[trigger] gone.take(i + 1).contains(k) <==> gone.take(
                i as int,
            ).contains(k) || k == old@[i as int]@ by {
                document::lemma_push_contains(gone.take(i as int), gone[i as int], k);
            }
        }
        i = i + 1;
    }
    proof {
        assert(gone.take(i as int) =~= gone);
        assert(json::fields(agents) =~= subagents(view));
    }
    json::put(&mut agents, to, Json::Object(cfg));
    document::put_agents(doc, agents)
}

/// A document that holds one entry.
pub open spec fn single_entry_doc(slug: Seq<char>, cfg: Fields) -> JsonView {
    JsonView::Object(
        Map::empty().insert("$schema"@, JsonView::Text("https://opencode.ai/config.json"@)).insert(
            "agent"@,
            JsonView::Object(Map::empty().insert(slug, JsonView::Object(cfg))),
        ),
    )
}

/// A document that holds the one entry `cfg` under `slug`.
pub fn new_doc(slug: &str, cfg: Table<Json>) -> (r: Json)
    ensures
        r@ == single_entry_doc(slug@, json::fields(cfg)),
{
    let mut agents = json::no_fields();
    json::put(&mut agents, slug, Json::Object(cfg));
    let mut out = json::no_fields();
    json::put_text(&mut out, "$schema", document::OPENCODE_SCHEMA);
    json::put(&mut out, "agent", Json::Object(agents));
    Json::Object(out)
}

/// The document of a new agent of a role: a description, the mode and the
/// role's prompt, and no permission block, which the role decides.
pub open spec fn role_doc(slug: Seq<char>, role: AgentRole, prompt: Seq<char>) -> JsonView {
    single_entry_doc(
        slug,
        Map::empty().insert("description"@, JsonView::Text(roles::role_description(role))).insert(
            "mode"@,
            JsonView::Text("primary"@),
        ).insert("prompt"@, JsonView::Text(prompt)),
    )
}

/// The document of a new agent of `role` under `slug`.
pub fn new_role_doc(slug: &str, role: AgentRole, prompts: &RolePrompts) -> (r: Json)
    ensures
        r@ == role_doc(slug@, role, roles::role_prompt(*prompts, role)),
{
    let mut cfg = json::no_fields();
    json::put_text(&mut cfg, "description", role.default_description());
    json::put_text(&mut cfg, "mode", "primary");
    json::put_text(&mut cfg, "prompt", role.default_prompt(prompts));
    new_doc(slug, cfg)
}

/// What a new agent starts from: the primary of the document it is made from,
/// or nothing.
pub open spec fn start_cfg(base: Option<JsonView>) -> Fields {
    match base {
        None => Map::empty(),
        Some(doc) => match json::member_fields(doc, "agent"@) {
            None => Map::empty(),
            Some(m) => if document::all_primaries(m).len() == 0 {
                Map::empty()
            } else {
                primary_cfg(m)
            },
        },
    }
}

/// The role of a new agent: the one asked for; else what the inherited
/// permission block grants; else the narrowest.
pub open spec fn start_role(role: Option<AgentRole>, base: Option<JsonView>, cfg: Fields) -> AgentRole {
    match role {
        Some(role) => role,
        None => if base is Some {
            roles::inferred_role(cfg)
        } else {
            AgentRole::Researcher
        },
    }
}

/// What building a new agent comes to: its document and its role.
pub open spec fn agent_creation(
    slug: Seq<char>,
    description: Seq<char>,
    prompt: Seq<char>,
    model: Option<Seq<char>>,
    base: Option<JsonView>,
    role: Option<AgentRole>,
    files: Seq<Seq<char>>,
) -> Result<(JsonView, AgentRole), ErrorView> {
    let cfg = entry_cfg(start_cfg(base), "primary"@, description, prompt, model);
    match document::checked(slug, single_entry_doc(slug, cfg), files) {
        Ok(doc) => Ok((doc, start_role(role, base, cfg))),
        Err(e) => Err(e),
    }
}

/// What a result of a document and its role holds.
pub open spec fn creation_outcome(r: Result<(Json, AgentRole), Error>) -> Result<
    (JsonView, AgentRole),
    ErrorView,
> {
    match r {
        Ok((doc, role)) => Ok((doc@, role)),
        Err(e) => Err(e@),
    }
}

/// Build a new agent from structured content, starting from the primary of
/// `base` where one is given.
pub fn build_agent(
    project: &str,
    slug: &str,
    description: &str,
    prompt: &str,
    model: Option<&str>,
    base: Option<&Json>,
    role: Option<AgentRole>,
    files: &[String],
) -> (r: Result<(Json, AgentRole), Error>)
    ensures
        creation_outcome(r) == agent_creation(
            slug@,
            description@,
            prompt@,
            text::opt_str(model),
            json::opt_json(base),
            role,
            text::texts(files@),
        ),
{
    let start = match base {
        Some(doc) => match primary_agent_cfg(doc, project, slug) {
            Ok(cfg) => cfg,
            Err(_) => json::no_fields(),
        },
        None => json::no_fields(),
    };
    let cfg = build_cfg(start, "primary", description, prompt, model);
    let role = match role {
        Some(role) => role,
        None => if base.is_some() {
            roles::infer_role(&cfg)
        } else {
            AgentRole::Researcher
        },
    };
    match document::check_doc(slug, new_doc(slug, cfg), files) {
        Ok(doc) => Ok((doc, role)),
        Err(e) => Err(e),
    }
}

// ---------------------------------------------------------------------
// Laws
// ---------------------------------------------------------------------

/// The agent map of a document that has one.
pub open spec fn agents_of(doc: JsonView) -> Fields {
    match json::member_fields(doc, "agent"@) {
        Some(m) => m,
        None => Map::empty(),
    }
}

/// Setting a field is surgical: nothing but the field of the one entry
/// changes, and that field then holds the value, or is gone where the value
/// is null.
pub proof fn law_field_edit_is_surgical(
    doc: JsonView,
    project: Seq<char>,
    slug: Seq<char>,
    target: Seq<char>,
    field: Seq<char>,
    value: JsonView,
    files: Seq<Seq<char>>,
    edited: JsonView,
)
    requires
        document::field_edit(doc, project, slug, target, field, value, files) == Ok::<
            JsonView,
            ErrorView,
        >(edited),
    ensures
        forall|k: Seq<char>| k != "agent"@ ==> #[trigger] json::member(edited, k) == json::member(doc, k),
        forall|k: Seq<char>|
            k != target ==> #[trigger] json::entry(agents_of(edited), k) == json::entry(
                agents_of(doc),
                k,
            ),
        forall|k: Seq<char>|
            k != field ==> #[trigger] json::member(agents_of(edited)[target], k) == json::member(
                agents_of(doc)[target],
                k,
            ),
        json::member(agents_of(edited)[target], field) == (if value == JsonView::Null {
            None
        } else {
            Some(value)
        }),
        !document::is_structural(field),
{
}

/// A permission patch merges: a rule that it does not name stays, one that it
/// names holds its value, and one that it nulls is gone.
pub proof fn law_permission_patch_merges(block: Fields, patch: Fields, k: Seq<char>)
    ensures
        !patch.dom().contains(k) ==> json::entry(patched(block, patch), k) == json::entry(block, k),
        patch.dom().contains(k) && patch[k] != JsonView::Null ==> json::entry(
            patched(block, patch),
            k,
        ) == Some(patch[k]),
        patch.dom().contains(k) && patch[k] == JsonView::Null ==> json::entry(
            patched(block, patch),
            k,
        ) is None,
{
}

/// The delegation rule of an agent map's primary for a name.
pub open spec fn delegation_rule(m: Fields, slug: Seq<char>, name: Seq<char>) -> Option<JsonView> {
    match json::entry_fields(m, slug) {
        None => None,
        Some(primary) => json::entry(task_rules(block_of(primary)), name),
    }
}

/// A subagent that was added is an entry, its primary may delegate to it, and
/// every other entry is as it was.
pub proof fn law_added_subagent_is_wired(m: Fields, slug: Seq<char>, name: Seq<char>, cfg: Fields)
    requires
        name != slug,
        json::entry_fields(m, slug) is Some,
    ensures
        with_subagent(m, slug, name, cfg).dom().contains(name),
        with_subagent(m, slug, name, cfg)[name] == JsonView::Object(cfg),
        delegation_rule(with_subagent(m, slug, name, cfg), slug, name) == Some(
            JsonView::Text("allow"@),
        ),
        forall|k: Seq<char>|
            k != name && k != slug ==> #[trigger] json::entry(with_subagent(m, slug, name, cfg), k)
                == json::entry(m, k),
        forall|k: Seq<char>|
            k != name ==> #[trigger] delegation_rule(with_subagent(m, slug, name, cfg), slug, k)
                == delegation_rule(m, slug, k),
{
}

/// Removing a subagent leaves neither the entry nor a rule that names it, and
/// every other entry and rule as it was.
pub proof fn law_removed_subagent_leaves_nothing(m: Fields, slug: Seq<char>, name: Seq<char>)
    requires
        name != slug,
        name != "*"@,
    ensures
        !without_subagent(m, slug, name).dom().contains(name),
        delegation_rule(without_subagent(m, slug, name), slug, name) is None,
        forall|k: Seq<char>|
            k != name && k != slug ==> #[trigger] json::entry(without_subagent(m, slug, name), k)
                == json::entry(m, k),
        forall|k: Seq<char>|
            k != name ==> #[trigger] delegation_rule(without_subagent(m, slug, name), slug, k)
                == delegation_rule(m, slug, k),
{
}

/// What is left of a delegation that was given and taken back.
proof fn lemma_undone_delegation(cfg: Fields, name: Seq<char>)
    ensures
        undelegating(delegating(cfg, name), name) == {
            let block = block_of(cfg);
            let rules = JsonView::Object(task_rules(block).remove(name));
            cfg.insert("permission"@, JsonView::Object(block.insert("task"@, rules)))
        },
        rules_spare(cfg, name) ==> undelegating(delegating(cfg, name), name) == cfg,
{
    let block = block_of(cfg);
    let rules = task_rules(block);
    let given = rules.insert(name, JsonView::Text("allow"@));
    assert(given.remove(name) =~= rules.remove(name));
    let left = JsonView::Object(rules.remove(name));
    assert(block.insert("task"@, JsonView::Object(given)).insert("task"@, left) =~= block.insert(
        "task"@,
        left,
    ));
    assert(undelegating(delegating(cfg, name), name) =~= cfg.insert(
        "permission"@,
        JsonView::Object(block.insert("task"@, left)),
    ));
    if rules_spare(cfg, name) {
        assert(rules.remove(name) =~= rules);
        assert(block.insert("task"@, left) =~= block);
        assert(cfg.insert("permission"@, JsonView::Object(block)) =~= cfg);
    }
}

/// An entry whose delegation rules are a map, and none of them names `name`.
pub open spec fn rules_spare(cfg: Fields, name: Seq<char>) -> bool {
    match json::entry_fields(cfg, "permission"@) {
        None => false,
        Some(block) => match json::entry_fields(block, "task"@) {
            None => false,
            Some(rules) => !rules.dom().contains(name),
        },
    }
}

/// Adding a subagent and removing it again gives back every entry and every
/// delegation rule there was: of the primary, no more has changed than that
/// its rules are written out as a map. Where they were one, and did not name
/// the subagent, the agent map is as it was.
pub proof fn law_add_then_remove_restores(m: Fields, slug: Seq<char>, name: Seq<char>, cfg: Fields)
    requires
        name != slug,
        name != "*"@,
        !m.dom().contains(name),
        json::entry_fields(m, slug) is Some,
    ensures
        ({
            let back = without_subagent(with_subagent(m, slug, name, cfg), slug, name);
            &&& forall|k: Seq<char>|
                k != slug ==> #[trigger] json::entry(back, k) == json::entry(m, k)
            &&& forall|k: Seq<char>|
                k != name ==> #[trigger] delegation_rule(back, slug, k) == delegation_rule(m, slug, k)
            &&& delegation_rule(back, slug, name) is None
            &&& back == {
                let primary = json::entry_fields(m, slug)->Some_0;
                let block = block_of(primary);
                let rules = JsonView::Object(task_rules(block).remove(name));
                m.insert(
                    slug,
                    JsonView::Object(
                        primary.insert("permission"@, JsonView::Object(block.insert("task"@, rules))),
                    ),
                )
            }
            &&& rules_spare(json::entry_fields(m, slug)->Some_0, name) ==> back == m
        }),
{
    let added = with_subagent(m, slug, name, cfg);
    let back = without_subagent(added, slug, name);
    lemma_undone_delegation(json::entry_fields(m, slug)->Some_0, name);
    law_added_subagent_is_wired(m, slug, name, cfg);
    law_removed_subagent_leaves_nothing(added, slug, name);
    assert forall|k: Seq<char>| k != slug implies #[trigger] json::entry(back, k) == json::entry(m, k) by {
        if k != name {
            assert(json::entry(added, k) == json::entry(m, k));
        }
    }
    assert forall|k: Seq<char>| k != name implies #[trigger] delegation_rule(back, slug, k)
        == delegation_rule(m, slug, k) by {
        assert(delegation_rule(added, slug, k) == delegation_rule(m, slug, k));
    }
    let primary = json::entry_fields(m, slug)->Some_0;
    let rest = added.remove(name);
    assert(json::entry_fields(rest, slug) == Some(delegating(primary, name)));
    assert(back =~= m.insert(slug, JsonView::Object(undelegating(delegating(primary, name), name))));
    if rules_spare(primary, name) {
        assert(m[slug] == JsonView::Object(primary));
        assert(back =~= m);
    }
}

/// A clone keeps every subagent, and has exactly one primary, under its new
/// name.
pub proof fn law_clone_keeps_subagents(doc: JsonView, to: Seq<char>)
    requires
        json::member_fields(doc, "agent"@) is Some,
        agents_of(doc).dom().finite(),
        document::all_primaries(agents_of(doc)).len() > 0,
    ensures
        forall|k: Seq<char>|
            #![trigger json::entry(agents_of(renamed(doc, to)), k)]
            k != to && agents_of(doc).dom().contains(k) && !document::is_primary(agents_of(doc)[k])
                ==> json::entry(agents_of(renamed(doc, to)), k) == Some(agents_of(doc)[k]),
        forall|k: Seq<char>| #[trigger]
            agents_of(renamed(doc, to)).dom().contains(k) ==> (document::is_primary(
                agents_of(renamed(doc, to))[k],
            ) <==> k == to),
        agents_of(renamed(doc, to)).dom().contains(to),
        agents_of(renamed(doc, to))[to] == JsonView::Object(primary_cfg(agents_of(doc))),
        forall|k: Seq<char>| k != "agent"@ ==> #[trigger] json::member(renamed(doc, to), k)
            == json::member(doc, k),
{
    let m = agents_of(doc);
    let first = document::all_primaries(m)[0];
    table::lemma_finite_in_order(m.dom());
    lemma_primaries_are_entries(m);
    assert(document::all_primaries(m).contains(first));
    assert(document::is_primary(m[first]));
    assert(document::is_primary(JsonView::Object(primary_cfg(m))));
}

} // verus!
