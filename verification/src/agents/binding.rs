//! Binding a permission block to a project and a role. The bound block, not
//! the stored one, is what an agent runs under.
use vstd::prelude::*;
use crate::agents::document::Fields;
use crate::agents::roles;
use crate::agents::roles::{AgentRole, CORPUS_TOOLS};
use crate::json;
use crate::json::{Json, JsonView};
use crate::table;
use crate::table::Table;
use crate::text;

verus! {

/// The absolute roots that a render denies by path.
#[derive(Debug, PartialEq, Eq)]
pub struct DataRoots {
    /// Everything the operator owns: chat scopes and run directories too.
    pub data: String,
    /// The store root, of which one project's subtree is opened again.
    pub store: String,
}

/// What an entry is bound to, beyond its own configuration.
pub struct RenderCtx<'a> {
    /// The project the rendered agent is bound to.
    pub project: &'a str,
    /// The entry's capability ceiling.
    pub role: AgentRole,
    /// Every entry name the project declares: what may be delegated to.
    pub known_entries: &'a Table<()>,
    /// The absolute data roots.
    pub roots: &'a DataRoots,
}

/// What a rendering context holds.
#[verifier::ext_equal]
pub struct CtxView {
    pub project: Seq<char>,
    pub role: AgentRole,
    pub known: Set<Seq<char>>,
    pub data: Seq<char>,
    pub store: Seq<char>,
}

impl<'a> View for RenderCtx<'a> {
    type V = CtxView;

    open spec fn view(&self) -> CtxView {
        CtxView {
            project: self.project@,
            role: self.role,
            known: self.known_entries@.dom(),
            data: self.roots.data@,
            store: self.roots.store@,
        }
    }
}

/// The rule that allows.
pub open spec fn allow() -> JsonView {
    JsonView::Text("allow"@)
}

/// The rule that denies.
pub open spec fn deny() -> JsonView {
    JsonView::Text("deny"@)
}

/// A map with a value put under a key that is free.
pub open spec fn with_default(m: Fields, key: Seq<char>, value: JsonView) -> Fields {
    if m.dom().contains(key) {
        m
    } else {
        m.insert(key, value)
    }
}

/// Put `value` under `key` unless there is something there.
fn put_default(t: &mut Table<Json>, key: &str, value: Json)
    ensures
        json::fields(*final(t)) == with_default(json::fields(*old(t)), key@, value@),
{
    proof {
        json::lemma_fields_dom(*t);
    }
    if !t.contains_key(key) {
        json::put(t, key, value);
    }
}

// ---------------------------------------------------------------------
// Path rules
// ---------------------------------------------------------------------

/// The pattern of one directory of a project's subtree, as the run directory
/// exposes it.
pub open spec fn project_pattern(project: Seq<char>, dir: Seq<char>) -> Seq<char> {
    "store/projects/"@ + project + "/"@ + dir + "/**"@
}

/// The pattern of one directory of a project's subtree, by absolute path.
pub open spec fn absolute_pattern(store: Seq<char>, project: Seq<char>, dir: Seq<char>) -> Seq<char> {
    text::without_trailing(store, '/') + "/projects/"@ + project + "/"@ + dir + "/**"@
}

/// Rules with the absolute boundary: the management chats denied by name, the
/// store denied, and one project's corpus opened again.
pub open spec fn data_boundary(rules: Fields, ctx: CtxView) -> Fields {
    let chats = if ctx.data.len() == 0 {
        rules
    } else {
        rules.insert(text::without_trailing(ctx.data, '/') + "/var/chat/**"@, deny())
    };
    if ctx.store.len() == 0 {
        chats
    } else {
        chats.insert(text::without_trailing(ctx.store, '/') + "/**"@, deny()).insert(
            absolute_pattern(ctx.store, ctx.project, "corpus"@),
            allow(),
        )
    }
}

/// Some rule names a path of the projects' tree.
pub open spec fn has_boundary(rules: Fields) -> bool {
    exists|k: Seq<char>| #[trigger] rules.dom().contains(k) && "store/projects/"@.is_prefix_of(k)
}

/// Read rules with the red lines, which replace what is stored under their
/// patterns, and with the project boundary where everything may be read.
pub open spec fn read_rules(rules: Fields, ctx: CtxView) -> Fields {
    let red = rules.insert("benchmarks/**"@, deny()).insert("plugins/**"@, deny());
    let scoped = if json::entry_text(red, "*"@) == Some("allow"@) && !has_boundary(red) {
        red.insert("store/projects/*"@, deny()).insert(
            project_pattern(ctx.project, "corpus"@),
            allow(),
        ).insert(project_pattern(ctx.project, "missions"@), allow())
    } else {
        red
    };
    data_boundary(scoped, ctx)
}

/// Edit or write rules with the red lines: no agent tree, which holds the
/// roles, and no run transcript, which is what an operator audits.
pub open spec fn write_rules(rules: Fields, ctx: CtxView) -> Fields {
    let red = rules.insert("store/projects/*/agents/**"@, deny()).insert(
        project_pattern(ctx.project, "corpus/runs"@),
        deny(),
    );
    let bounded = data_boundary(red, ctx);
    if ctx.store.len() == 0 {
        bounded
    } else {
        bounded.insert(absolute_pattern(ctx.store, ctx.project, "corpus/runs"@), deny())
    }
}

/// A key whose rules name paths.
pub open spec fn is_path_key(key: Seq<char>) -> bool {
    key == "read"@ || key == "edit"@ || key == "write"@
}

/// A bound value under its key: for a path key a plain action becomes a rule
/// map, and the rules get the red lines.
pub open spec fn with_red_lines(key: Seq<char>, value: JsonView, ctx: CtxView) -> JsonView {
    let rules = match value {
        JsonView::Text(action) => if is_path_key(key) {
            JsonView::Object(Map::empty().insert("*"@, value))
        } else {
            value
        },
        _ => value,
    };
    match rules {
        JsonView::Object(m) => if key == "read"@ {
            JsonView::Object(read_rules(m, ctx))
        } else if is_path_key(key) {
            JsonView::Object(write_rules(m, ctx))
        } else {
            rules
        },
        _ => rules,
    }
}

/// A rule key with every project's subtree narrowed to the one project.
pub open spec fn bound_key(key: Seq<char>, project: Seq<char>) -> Seq<char> {
    text::replaced(key, "store/projects/*"@, "store/projects/"@ + project)
}

/// A value with its rule keys narrowed to the project and the red lines
/// drawn, at every depth.
pub open spec fn bound_value(v: JsonView, ctx: CtxView) -> JsonView
    decreases v, 1nat, 0nat,
{
    match v {
        JsonView::Object(m) => JsonView::Object(
            bound_entries(v, ctx, table::in_order(m.dom()).len()),
        ),
        _ => v,
    }
}

/// The first `n` entries of an object bound, in key order; where two keys are
/// narrowed to one, the later stands.
pub open spec fn bound_entries(v: JsonView, ctx: CtxView, n: nat) -> Fields
    decreases v, 0nat, n,
{
    match v {
        JsonView::Object(m) => if n == 0 || !m.dom().contains(table::in_order(m.dom())[n - 1]) {
            Map::empty()
        } else {
            let key = table::in_order(m.dom())[n - 1];
            bound_entries(v, ctx, (n - 1) as nat).insert(
                bound_key(key, ctx.project),
                with_red_lines(key, bound_value(m[key], ctx), ctx),
            )
        },
        _ => Map::empty(),
    }
}

/// Does some rule name a path of the projects' tree?
fn names_projects(rules: &Table<Json>) -> (r: bool)
    ensures
        r == has_boundary(json::fields(*rules)),
{
    let n: usize = rules.len();
    let ghost ks = table::in_order(rules@.dom());
    proof {
        json::lemma_fields_dom(*rules);
    }
    let mut i: usize = 0;
    while i < n
        invariant
            i <= n,
            n == ks.len(),
            ks == table::in_order(rules@.dom()),
            table::lists(ks, rules@.dom()),
            json::fields(*rules).dom() == rules@.dom(),
            forall|j: int| 0 <= j < i ==> !"store/projects/"@.is_prefix_of(#[trigger] ks[j]),
        decreases n - i,
    {
        if text::starts_with(rules.key_at(i).as_str(), "store/projects/") {
            assert(json::fields(*rules).dom().contains(ks[i as int]));
            return true;
        }
        i = i + 1;
    }
    proof {
        assert forall|k: Seq<char>| #[trigger]
            json::fields(*rules).dom().contains(k) implies !"store/projects/"@.is_prefix_of(k) by {
            assert(rules@.dom().contains(k));
            assert(ks.contains(k));
        }
    }
    false
}

/// Draw the absolute boundary into `rules`.
fn inject_data_boundary(rules: &mut Table<Json>, ctx: &RenderCtx<'_>)
    ensures
        json::fields(*final(rules)) == data_boundary(json::fields(*old(rules)), ctx@),
{
    if !ctx.roots.data.as_str().is_empty() {
        let data = text::trim_end_char(ctx.roots.data.as_str(), '/');
        json::put_text(rules, text::cat2(data.as_str(), "/var/chat/**").as_str(), "deny");
    }
    if ctx.roots.store.as_str().is_empty() {
        return;
    }
    let store = text::trim_end_char(ctx.roots.store.as_str(), '/');
    json::put_text(rules, text::cat2(store.as_str(), "/**").as_str(), "deny");
    json::put_text(
        rules,
        text::cat6(store.as_str(), "/projects/", ctx.project, "/", "corpus", "/**").as_str(),
        "allow",
    );
}

/// Draw the red lines into read rules.
fn bind_read(rules: &mut Table<Json>, ctx: &RenderCtx<'_>)
    ensures
        json::fields(*final(rules)) == read_rules(json::fields(*old(rules)), ctx@),
{
    json::put_text(rules, "benchmarks/**", "deny");
    json::put_text(rules, "plugins/**", "deny");
    let open = match json::field_text(rules, "*") {
        Some(action) => text::same(action, "allow"),
        None => false,
    };
    if open && !names_projects(rules) {
        json::put_text(rules, "store/projects/*", "deny");
        json::put_text(
            rules,
            text::cat5("store/projects/", ctx.project, "/", "corpus", "/**").as_str(),
            "allow",
        );
        json::put_text(
            rules,
            text::cat5("store/projects/", ctx.project, "/", "missions", "/**").as_str(),
            "allow",
        );
    }
    inject_data_boundary(rules, ctx);
}

/// Draw the red lines into edit or write rules.
fn bind_write(rules: &mut Table<Json>, ctx: &RenderCtx<'_>)
    ensures
        json::fields(*final(rules)) == write_rules(json::fields(*old(rules)), ctx@),
{
    json::put_text(rules, "store/projects/*/agents/**", "deny");
    json::put_text(
        rules,
        text::cat5("store/projects/", ctx.project, "/", "corpus/runs", "/**").as_str(),
        "deny",
    );
    inject_data_boundary(rules, ctx);
    if !ctx.roots.store.as_str().is_empty() {
        let store = text::trim_end_char(ctx.roots.store.as_str(), '/');
        json::put_text(
            rules,
            text::cat6(store.as_str(), "/projects/", ctx.project, "/", "corpus/runs", "/**").as_str(),
            "deny",
        );
    }
}

/// Finish a bound value under its key.
fn draw_red_lines(key: &str, value: Json, ctx: &RenderCtx<'_>) -> (r: Json)
    ensures
        r@ == with_red_lines(key@, value@, ctx@),
{
    let read = text::same(key, "read");
    let path = read || text::same(key, "edit") || text::same(key, "write");
    if !path {
        return value;
    }
    let mut rules = match value {
        Json::Object(rules) => rules,
        Json::Text(action) => {
            let mut rules = json::no_fields();
            json::put(&mut rules, "*", Json::Text(action));
            rules
        },
        other => {
            return other;
        },
    };
    if read {
        bind_read(&mut rules, ctx);
    } else {
        bind_write(&mut rules, ctx);
    }
    Json::Object(rules)
}

/// Narrow the rule keys to the project, make plain path actions rule maps, and
/// draw the red lines.
pub fn bind_paths(permission: &Json, ctx: &RenderCtx<'_>) -> (r: Json)
    ensures
        r@ == bound_value(permission@, ctx@),
    decreases permission, 1int, 0int,
{
    match permission {
        Json::Object(t) => Json::Object(bind_fields(permission, t, ctx)),
        _ => permission.copy(),
    }
}

/// The bound entries of the object `permission`, whose table is `t`.
fn bind_fields(permission: &Json, t: &Table<Json>, ctx: &RenderCtx<'_>) -> (r: Table<Json>)
    requires
        *permission == Json::Object(*t),
    ensures
        JsonView::Object(json::fields(r)) == bound_value(permission@, ctx@),
    decreases permission, 0int, 0int,
{
    let from = text::cat2("store/projects/", ctx.project);
    let mut out = json::no_fields();
    let n: usize = t.len();
    proof {
        json::lemma_fields_dom(*t);
        reveal_strlit("store/projects/*");
    }
    let mut i: usize = 0;
    while i < n
        invariant
            i <= n,
            "store/projects/*"@.len() > 0,
            n == table::in_order(t@.dom()).len(),
            table::lists(table::in_order(t@.dom()), t@.dom()),
            json::fields(*t).dom() == t@.dom(),
            *permission == Json::Object(*t),
            permission@ == JsonView::Object(json::fields(*t)),
            from@ == "store/projects/"@ + ctx.project@,
            json::fields(out) == bound_entries(permission@, ctx@, i as nat),
        decreases n - i,
    {
        let key = t.key_at(i);
        proof {
            crate::table::lemma_table_decreases(*t, table::in_order(t@.dom())[i as int]);
            assert(decreases_to!(permission => t));
        }
        let value = draw_red_lines(key.as_str(), bind_paths(t.value_at(i), ctx), ctx);
        let bound = text::replace(key.as_str(), "store/projects/*", from.as_str());
        json::put(&mut out, bound.as_str(), value);
        i = i + 1;
    }
    out
}

// ---------------------------------------------------------------------
// The whole block
// ---------------------------------------------------------------------

/// The path rules that an entry starts from where it says nothing itself: read
/// everything, write the own corpus alone, no host shell.
pub open spec fn with_path_defaults(m: Fields, project: Seq<char>) -> Fields {
    let writes = JsonView::Object(
        Map::empty().insert("*"@, deny()).insert(project_pattern(project, "corpus"@), allow()),
    );
    let m = with_default(m, "read"@, JsonView::Object(Map::empty().insert("*"@, allow())));
    let m = with_default(m, "edit"@, writes);
    let m = with_default(m, "write"@, writes);
    with_default(m, "bash"@, deny())
}

/// The action on a web key: what the role offers, a stored denial kept.
pub open spec fn web_action(m: Fields, key: Seq<char>, role: AgentRole) -> JsonView {
    if json::entry_text(m, key) == Some("deny"@) || !roles::reaches_web(role) {
        deny()
    } else {
        allow()
    }
}

/// The delegation rules: denied by default, and denied for every name that the
/// project does not declare.
pub open spec fn bound_task(m: Fields, known: Set<Seq<char>>) -> Fields {
    let stored = match json::entry(m, "task"@) {
        Some(JsonView::Object(rules)) => rules,
        Some(JsonView::Text(action)) => Map::empty().insert("*"@, JsonView::Text(action)),
        _ => Map::empty(),
    };
    let rules = with_default(stored, "*"@, deny());
    confined(rules, known)
}

/// Delegation rules with every name that is not known denied.
pub open spec fn confined(rules: Fields, known: Set<Seq<char>>) -> Fields {
    Map::new(
        |k: Seq<char>| rules.dom().contains(k),
        |k: Seq<char>|
            if k != "*"@ && !known.contains(k) {
                deny()
            } else {
                rules[k]
            },
    )
}

/// The action on a tool: denied outside the role; inside it what is stored, or
/// allowed.
pub open spec fn tool_action(m: Fields, tool: Seq<char>, role: AgentRole) -> JsonView {
    if roles::may_call(role, tool) {
        match json::entry_text(m, tool) {
            Some(action) => JsonView::Text(action),
            None => allow(),
        }
    } else {
        deny()
    }
}

/// A block with the actions on the first `n` tools written.
pub open spec fn with_tools(m: Fields, role: AgentRole, n: nat) -> Fields
    decreases n,
{
    if n == 0 {
        m
    } else {
        let before = with_tools(m, role, (n - 1) as nat);
        let tool = roles::corpus_tools()[n - 1];
        before.insert(tool, tool_action(before, tool, role))
    }
}

/// The fields of a bound value.
pub open spec fn bound_fields(v: JsonView, ctx: CtxView) -> Fields {
    match bound_value(v, ctx) {
        JsonView::Object(m) => m,
        _ => Map::empty(),
    }
}

/// A permission block bound to a project and a role.
pub open spec fn bound_permission(permission: JsonView, ctx: CtxView) -> Fields {
    let stored = match permission {
        JsonView::Object(m) => m,
        _ => Map::empty(),
    };
    let paths = bound_fields(JsonView::Object(with_path_defaults(stored, ctx.project)), ctx);
    let web1 = paths.insert("webfetch"@, web_action(paths, "webfetch"@, ctx.role));
    let web2 = web1.insert("websearch"@, web_action(web1, "websearch"@, ctx.role));
    let inside = if ctx.role == AgentRole::Super {
        web2
    } else {
        web2.insert("external_directory"@, deny())
    };
    let tasked = inside.insert("task"@, JsonView::Object(bound_task(inside, ctx.known)));
    with_tools(tasked, ctx.role, 8)
}

/// Fill in the path rules where the entry says nothing itself.
fn put_path_defaults(t: &mut Table<Json>, project: &str)
    ensures
        json::fields(*final(t)) == with_path_defaults(json::fields(*old(t)), project@),
{
    let corpus = text::cat5("store/projects/", project, "/", "corpus", "/**");
    let mut reads = json::no_fields();
    json::put_text(&mut reads, "*", "allow");
    let mut writes = json::no_fields();
    json::put_text(&mut writes, "*", "deny");
    json::put_text(&mut writes, corpus.as_str(), "allow");
    put_default(t, "read", Json::Object(reads));
    put_default(t, "edit", Json::Object(json::copy_fields(&writes)));
    put_default(t, "write", Json::Object(writes));
    put_default(t, "bash", Json::text("deny"));
}

/// Write the action on a web key.
fn bind_web(t: &mut Table<Json>, key: &str, role: AgentRole)
    ensures
        json::fields(*final(t)) == json::fields(*old(t)).insert(
            key@,
            web_action(json::fields(*old(t)), key@, role),
        ),
{
    let denied = match json::field_text(t, key) {
        Some(action) => text::same(action, "deny"),
        None => false,
    };
    if denied || !role.grants_web() {
        json::put_text(t, key, "deny");
    } else {
        json::put_text(t, key, "allow");
    }
}

/// A copy of the delegation rules with every name that is not known denied.
fn confine(rules: &Table<Json>, known: &Table<()>) -> (r: Table<Json>)
    ensures
        json::fields(r) == confined(json::fields(*rules), known@.dom()),
{
    let mut out = json::copy_fields(rules);
    let n: usize = rules.len();
    let ghost ks = table::in_order(rules@.dom());
    let ghost view = json::fields(*rules);
    proof {
        json::lemma_fields_dom(*rules);
    }
    let mut i: usize = 0;
    while i < n
        invariant
            i <= n,
            n == ks.len(),
            ks == table::in_order(rules@.dom()),
            table::lists(ks, rules@.dom()),
            view == json::fields(*rules),
            view.dom() == rules@.dom(),
            json::fields(out).dom() == view.dom(),
            forall|j: int|
                0 <= j < i ==> json::fields(out)[#[trigger] ks[j]] == confined(view, known@.dom())[ks[j]],
            forall|j: int| i <= j < n ==> json::fields(out)[#[trigger] ks[j]] == view[ks[j]],
        decreases n - i,
    {
        let name = rules.key_at(i);
        let ghost was = json::fields(out);
        if !text::same(name.as_str(), "*") && !known.contains_key(name.as_str()) {
            json::put_text(&mut out, name.as_str(), "deny");
            proof {
                assert forall|j: int| 0 <= j < n && j != i implies json::fields(out)[#[trigger] ks[j]]
                    == was[ks[j]] by {
                    table::lemma_ascending_apart(ks, i as int, j);
                }
                assert(json::fields(out).dom() =~= view.dom());
            }
        }
        i = i + 1;
    }
    proof {
        assert forall|k: Seq<char>| #[trigger] view.dom().contains(k) implies json::fields(out)[k]
            == confined(view, known@.dom())[k] by {
            assert(rules@.dom().contains(k));
            assert(ks.contains(k));
            let j = choose|j: int| 0 <= j < ks.len() && ks[j] == k;
            assert(json::fields(out)[ks[j]] == confined(view, known@.dom())[ks[j]]);
        }
        assert(json::fields(out) =~= confined(view, known@.dom()));
    }
    out
}

/// Write the delegation rules.
fn bind_task(t: &mut Table<Json>, known: &Table<()>)
    ensures
        json::fields(*final(t)) == json::fields(*old(t)).insert(
            "task"@,
            JsonView::Object(bound_task(json::fields(*old(t)), known@.dom())),
        ),
{
    let mut rules = match json::field(t, "task") {
        Some(Json::Object(rules)) => json::copy_fields(rules),
        Some(Json::Text(action)) => {
            let mut rules = json::no_fields();
            json::put_text(&mut rules, "*", action.as_str());
            rules
        },
        _ => json::no_fields(),
    };
    put_default(&mut rules, "*", Json::text("deny"));
    let rules = confine(&rules, known);
    json::put(t, "task", Json::Object(rules));
}

/// Write the action on every tool.
fn bind_tools(t: &mut Table<Json>, role: AgentRole)
    ensures
        json::fields(*final(t)) == with_tools(json::fields(*old(t)), role, 8),
{
    let ghost was = json::fields(*t);
    let mut i: usize = 0;
    while i < 8
        invariant
            i <= 8,
            json::fields(*t) == with_tools(was, role, i as nat),
        decreases 8 - i,
    {
        let tool = CORPUS_TOOLS[i];
        assert(tool@ == roles::corpus_tools()[i as int]);
        let action = if role.allows(tool) {
            match json::field_text(t, tool) {
                Some(action) => action.to_owned(),
                None => "allow".to_owned(),
            }
        } else {
            "deny".to_owned()
        };
        json::put_text(t, tool, action.as_str());
        i = i + 1;
    }
}

/// Bind a permission block to a project and a role:
/// - rule keys for every project's subtree name the one project;
/// - plain `read`, `edit` and `write` actions become rule maps, so that the
///   red lines always land;
/// - the red lines are drawn, whatever the stored block says;
/// - delegation is written out, denied by default and for unknown names;
/// - every tool key is written from the role, a stored tightening kept.
pub fn bind_permission(permission: &Json, ctx: &RenderCtx<'_>) -> (r: Table<Json>)
    ensures
        json::fields(r) == bound_permission(permission@, ctx@),
{
    let mut base = match permission {
        Json::Object(t) => json::copy_fields(t),
        _ => json::no_fields(),
    };
    put_path_defaults(&mut base, ctx.project);
    let mut out = match bind_paths(&Json::Object(base), ctx) {
        Json::Object(t) => t,
        _ => json::no_fields(),
    };
    bind_web(&mut out, "webfetch", ctx.role);
    bind_web(&mut out, "websearch", ctx.role);
    match ctx.role {
        AgentRole::Super => {},
        _ => {
            json::put_text(&mut out, "external_directory", "deny");
        },
    }
    bind_task(&mut out, ctx.known_entries);
    bind_tools(&mut out, ctx.role);
    out
}

} // verus!
