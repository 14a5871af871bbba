//! What binding a permission block guarantees, whatever the stored block says.
use vstd::prelude::*;
use crate::agents::binding;
use crate::agents::binding::CtxView;
use crate::agents::document::Fields;
use crate::agents::roles;
use crate::agents::roles::AgentRole;
use crate::json;
use crate::json::JsonView;
use crate::table;
use crate::text;

verus! {

/// The keys that binding decides hold no path separator, and are all
/// different from each other.
pub(crate) proof fn lemma_plain_keys()
    ensures
        forall|i: int| 0 <= i < 8 ==> !(#[trigger] roles::corpus_tools()[i]).contains('/'),
        forall|i: int|
            0 <= i < 8 ==> {
                let tool = #[trigger] roles::corpus_tools()[i];
                &&& tool != "read"@
                &&& tool != "edit"@
                &&& tool != "write"@
                &&& tool != "bash"@
                &&& tool != "task"@
                &&& tool != "webfetch"@
                &&& tool != "websearch"@
                &&& tool != "external_directory"@
            },
        forall|i: int, j: int|
            0 <= i < j < 8 ==> #[trigger] roles::corpus_tools()[i]
                != #[trigger] roles::corpus_tools()[j],
        !"read"@.contains('/'),
        !"edit"@.contains('/'),
        !"write"@.contains('/'),
        !"bash"@.contains('/'),
        !"task"@.contains('/'),
        !"webfetch"@.contains('/'),
        !"websearch"@.contains('/'),
        !"external_directory"@.contains('/'),
        "read"@ != "edit"@,
        "read"@ != "write"@,
        "edit"@ != "write"@,
        "read"@ != "task"@,
        "edit"@ != "task"@,
        "write"@ != "task"@,
        "bash"@ != "task"@,
        "read"@ != "bash"@,
        "edit"@ != "bash"@,
        "write"@ != "bash"@,
        "webfetch"@ != "websearch"@,
        "webfetch"@.len() == 8,
        "websearch"@.len() == 9,
        "external_directory"@.len() == 18,
        "read"@.len() == 4,
        "edit"@.len() == 4,
        "write"@.len() == 5,
        "bash"@.len() == 4,
        "task"@.len() == 4,
{
    reveal_strlit("corpus_target_info");
    reveal_strlit("corpus_technique_save");
    reveal_strlit("corpus_sandbox_exec");
    reveal_strlit("corpus_oracle_run");
    reveal_strlit("corpus_faucet");
    reveal_strlit("corpus_wallet_fund");
    reveal_strlit("corpus_attack_save");
    reveal_strlit("corpus_finding_write");
    reveal_strlit("read");
    reveal_strlit("edit");
    reveal_strlit("write");
    reveal_strlit("bash");
    reveal_strlit("task");
    reveal_strlit("webfetch");
    reveal_strlit("websearch");
    reveal_strlit("external_directory");
    assert("read"@[0] == 'r' && "edit"@[0] == 'e' && "bash"@[0] == 'b' && "task"@[0] == 't');
    assert forall|i: int| 0 <= i < 8 implies !(#[trigger] roles::corpus_tools()[i]).contains('/') by {
        let tool = roles::corpus_tools()[i];
        if tool.contains('/') {
            let j = choose|j: int| 0 <= j < tool.len() && tool[j] == '/';
        }
    }
    assert forall|i: int| 0 <= i < 8 implies (#[trigger] roles::corpus_tools()[i]).len() > 9 && roles::corpus_tools()[i][0]
        == 'c' by {}
    assert("external_directory"@[0] == 'e');
    assert("webfetch"@.len() == 8);
    assert("websearch"@.len() == 9);
    let t = roles::corpus_tools();
    assert(t[0].len() == 18 && t[0][7] == 't');
    assert(t[1].len() == 21);
    assert(t[2].len() == 19);
    assert(t[3].len() == 17);
    assert(t[4].len() == 13);
    assert(t[5].len() == 18 && t[5][7] == 'w');
    assert(t[6].len() == 18 && t[6][7] == 'a');
    assert(t[7].len() == 20);
}

/// A text of plain characters has no separator in it.
proof fn lemma_replaced_has_separator(key: Seq<char>, project: Seq<char>)
    requires
        text::contains(key, "store/projects/*"@),
    ensures
        binding::bound_key(key, project).contains('/'),
{
    let p = "store/projects/*"@;
    let w = "store/projects/"@ + project;
    reveal_strlit("store/projects/*");
    reveal_strlit("store/projects/");
    text::lemma_index_from(key, p, 0);
    let at = choose|i: int| text::occurs_at(key, p, i);
    let i = text::index_from(key, p, 0)->Some_0;
    let head = key.subrange(0, i as int);
    let rest = text::replaced_from(key, p, w, i + p.len());
    let out = head + w + rest;
    assert(text::replaced(key, p, w) == out);
    assert(out[(i + 5) as int] == w[5]);
    assert(w[5] == '/');
}

/// A key without a separator is narrowed from itself alone.
proof fn lemma_plain_key_source(key: Seq<char>, plain: Seq<char>, project: Seq<char>)
    requires
        !plain.contains('/'),
    ensures
        binding::bound_key(key, project) == plain <==> key == plain,
{
    if text::contains(key, "store/projects/*"@) {
        lemma_replaced_has_separator(key, project);
        if key == plain {
            reveal_strlit("store/projects/*");
            let at = choose|i: int| text::occurs_at(key, "store/projects/*"@, i);
            assert(key.subrange(at, at + 16)[5] == '/');
            assert(key[at + 5] == '/');
        }
    } else {
        text::lemma_replaced_absent(key, "store/projects/*"@, "store/projects/"@ + project);
    }
}

/// What the first `n` bound entries hold under a key without a separator.
proof fn lemma_bound_entries_plain(m: Fields, ctx: CtxView, n: nat, plain: Seq<char>)
    requires
        table::lists(table::in_order(m.dom()), m.dom()),
        n <= table::in_order(m.dom()).len(),
        !plain.contains('/'),
    ensures
        ({
            let out = binding::bound_entries(JsonView::Object(m), ctx, n);
            &&& out.dom().contains(plain) <==> table::in_order(m.dom()).take(n as int).contains(plain)
            &&& out.dom().contains(plain) ==> out[plain] == binding::with_red_lines(
                plain,
                binding::bound_value(m[plain], ctx),
                ctx,
            )
        }),
    decreases n,
{
    let v = JsonView::Object(m);
    let ks = table::in_order(m.dom());
    if n == 0 {
        assert(ks.take(0) =~= Seq::<Seq<char>>::empty());
    } else {
        let key = ks[n - 1];
        assert(ks.contains(key));
        assert(m.dom().contains(key));
        lemma_bound_entries_plain(m, ctx, (n - 1) as nat, plain);
        lemma_plain_key_source(key, plain, ctx.project);
        assert(ks.take(n as int) =~= ks.take(n - 1).push(key));
        crate::agents::document::lemma_push_contains(ks.take(n - 1), key, plain);
    }
}

/// Under a key without a separator a bound block holds the bound value of what
/// is stored under that key, and nothing else.
pub(crate) proof fn lemma_bound_plain(m: Fields, ctx: CtxView, plain: Seq<char>)
    requires
        m.dom().finite(),
        !plain.contains('/'),
    ensures
        ({
            let out = binding::bound_fields(JsonView::Object(m), ctx);
            &&& out.dom().contains(plain) <==> m.dom().contains(plain)
            &&& m.dom().contains(plain) ==> out[plain] == binding::with_red_lines(
                plain,
                binding::bound_value(m[plain], ctx),
                ctx,
            )
        }),
{
    table::lemma_finite_in_order(m.dom());
    let ks = table::in_order(m.dom());
    lemma_bound_entries_plain(m, ctx, ks.len(), plain);
    assert(ks.take(ks.len() as int) =~= ks);
}

/// What the stored block holds.
pub open spec fn stored_fields(permission: JsonView) -> Fields {
    match permission {
        JsonView::Object(m) => m,
        _ => Map::empty(),
    }
}

/// The path-bound part of a block.
pub open spec fn path_part(permission: JsonView, ctx: CtxView) -> Fields {
    binding::bound_fields(
        JsonView::Object(binding::with_path_defaults(stored_fields(permission), ctx.project)),
        ctx,
    )
}

/// Writing the tools changes the tools' keys alone, and each tool's action is
/// decided by what was stored under its own key.
pub(crate) proof fn lemma_with_tools(m: Fields, role: AgentRole, n: nat)
    requires
        n <= 8,
    ensures
        forall|k: Seq<char>|
            (forall|i: int| 0 <= i < 8 ==> k != #[trigger] roles::corpus_tools()[i]) ==> {
                &&& #[trigger] binding::with_tools(m, role, n).dom().contains(k) == m.dom().contains(k)
                &&& binding::with_tools(m, role, n)[k] == m[k]
            },
        forall|i: int|
            n <= i < 8 ==> json::entry(
                binding::with_tools(m, role, n),
                #[trigger] roles::corpus_tools()[i],
            ) == json::entry(m, roles::corpus_tools()[i]),
        forall|i: int|
            0 <= i < n ==> json::entry(
                binding::with_tools(m, role, n),
                #[trigger] roles::corpus_tools()[i],
            ) == Some(binding::tool_action(m, roles::corpus_tools()[i], role)),
    decreases n,
{
    lemma_plain_keys();
    if n > 0 {
        lemma_with_tools(m, role, (n - 1) as nat);
        let before = binding::with_tools(m, role, (n - 1) as nat);
        let tool = roles::corpus_tools()[n - 1];
        assert(json::entry(before, tool) == json::entry(m, tool));
        assert(binding::tool_action(before, tool, role) == binding::tool_action(m, tool, role));
        let after = binding::with_tools(m, role, n);
        assert forall|k: Seq<char>|
            (forall|i: int| 0 <= i < 8 ==> k != #[trigger] roles::corpus_tools()[i]) implies {
            &&& #[trigger] after.dom().contains(k) == m.dom().contains(k)
            &&& after[k] == m[k]
        } by {
            assert(before.dom().contains(k) == m.dom().contains(k));
            assert(k != roles::corpus_tools()[n - 1]);
        }
        assert forall|i: int| n <= i < 8 implies json::entry(after, #[trigger] roles::corpus_tools()[i])
            == json::entry(m, roles::corpus_tools()[i]) by {
            assert(roles::corpus_tools()[n - 1] != roles::corpus_tools()[i]);
        }
        assert forall|i: int| 0 <= i < n implies json::entry(after, #[trigger] roles::corpus_tools()[i])
            == Some(binding::tool_action(m, roles::corpus_tools()[i], role)) by {
            if i < n - 1 {
                assert(roles::corpus_tools()[i] != roles::corpus_tools()[n - 1]);
            }
        }
    }
}

/// The part of a bound block before the tools are written.
pub open spec fn before_tools(permission: JsonView, ctx: CtxView) -> Fields {
    let paths = path_part(permission, ctx);
    let web1 = paths.insert("webfetch"@, binding::web_action(paths, "webfetch"@, ctx.role));
    let web2 = web1.insert("websearch"@, binding::web_action(web1, "websearch"@, ctx.role));
    let inside = if ctx.role == AgentRole::Super {
        web2
    } else {
        web2.insert("external_directory"@, binding::deny())
    };
    inside.insert("task"@, JsonView::Object(binding::bound_task(inside, ctx.known)))
}

/// No stored block raises the ceiling: every tool is decided, and a tool
/// outside the role is denied.
pub proof fn law_ceiling_holds(permission: JsonView, ctx: CtxView, i: int)
    requires
        0 <= i < 8,
    ensures
        ({
            let tool = roles::corpus_tools()[i];
            let bound = binding::bound_permission(permission, ctx);
            &&& bound.dom().contains(tool)
            &&& bound[tool] is Text
            &&& !roles::may_call(ctx.role, tool) ==> bound[tool] == binding::deny()
        }),
{
    lemma_with_tools(before_tools(permission, ctx), ctx.role, 8);
    let tool = roles::corpus_tools()[i];
    assert(json::entry(binding::bound_permission(permission, ctx), tool) == Some(
        binding::tool_action(before_tools(permission, ctx), tool, ctx.role),
    ));
}

/// Inside the role a stored action on a tool is kept, so that tightening by
/// hand works; a tool that is not mentioned is allowed.
pub proof fn law_stored_tool_action_kept(permission: JsonView, ctx: CtxView, i: int)
    requires
        0 <= i < 8,
        stored_fields(permission).dom().finite(),
        roles::may_call(ctx.role, roles::corpus_tools()[i]),
    ensures
        ({
            let tool = roles::corpus_tools()[i];
            let stored = stored_fields(permission);
            let bound = binding::bound_permission(permission, ctx);
            &&& json::entry_text(stored, tool) is Some ==> bound[tool] == stored[tool]
            &&& !stored.dom().contains(tool) ==> bound[tool] == binding::allow()
        }),
{
    lemma_plain_keys();
    let tool = roles::corpus_tools()[i];
    let stored = stored_fields(permission);
    let full = binding::with_path_defaults(stored, ctx.project);
    lemma_bound_plain(full, ctx, tool);
    lemma_with_tools(before_tools(permission, ctx), ctx.role, 8);
    assert(json::entry(full, tool) == json::entry(stored, tool));
    let paths = path_part(permission, ctx);
    assert(json::entry(before_tools(permission, ctx), tool) == json::entry(paths, tool));
    assert(json::entry(binding::bound_permission(permission, ctx), tool) == Some(
        binding::tool_action(before_tools(permission, ctx), tool, ctx.role),
    ));
}

/// The open internet is decided for every entry: denied outside the role, and
/// a stored denial stands.
pub proof fn law_web_is_decided(permission: JsonView, ctx: CtxView, key: Seq<char>)
    requires
        stored_fields(permission).dom().finite(),
        key == "webfetch"@ || key == "websearch"@,
    ensures
        binding::bound_permission(permission, ctx).dom().contains(key),
        binding::bound_permission(permission, ctx)[key] == (if !roles::reaches_web(ctx.role)
            || json::entry_text(stored_fields(permission), key) == Some("deny"@) {
            binding::deny()
        } else {
            binding::allow()
        }),
{
    lemma_plain_keys();
    let stored = stored_fields(permission);
    let full = binding::with_path_defaults(stored, ctx.project);
    let m = before_tools(permission, ctx);
    lemma_with_tools(m, ctx.role, 8);
    lemma_bound_plain(full, ctx, key);
    assert(json::entry(full, key) == json::entry(stored, key));
    assert(binding::with_tools(m, ctx.role, 8).dom().contains(key) == m.dom().contains(key));
    if stored.dom().contains(key) {
        match stored[key] {
            JsonView::Text(a) => {},
            JsonView::Object(o) => {},
            _ => {},
        }
    }
}

/// Only the unrestricted role may step outside its run directory.
pub proof fn law_outside_is_denied(permission: JsonView, ctx: CtxView)
    requires
        ctx.role != AgentRole::Super,
    ensures
        binding::bound_permission(permission, ctx).dom().contains("external_directory"@),
        binding::bound_permission(permission, ctx)["external_directory"@] == binding::deny(),
{
    lemma_plain_keys();
    let m = before_tools(permission, ctx);
    lemma_with_tools(m, ctx.role, 8);
    assert(binding::with_tools(m, ctx.role, 8).dom().contains("external_directory"@)
        == m.dom().contains("external_directory"@));
}

/// Delegation is always written out: a default rule is there, and every name
/// that the project does not declare is denied.
pub proof fn law_delegation_is_confined(permission: JsonView, ctx: CtxView)
    ensures
        ({
            let bound = binding::bound_permission(permission, ctx);
            &&& bound.dom().contains("task"@)
            &&& bound["task"@] matches JsonView::Object(rules) && {
                &&& rules.dom().contains("*"@)
                &&& forall|name: Seq<char>| #[trigger]
                    rules.dom().contains(name) && name != "*"@ && !ctx.known.contains(name)
                        ==> rules[name] == binding::deny()
            }
        }),
{
    lemma_plain_keys();
    let m = before_tools(permission, ctx);
    lemma_with_tools(m, ctx.role, 8);
    assert(binding::with_tools(m, ctx.role, 8).dom().contains("task"@) == m.dom().contains("task"@));
}

/// An entry that says nothing about delegation may delegate to nobody.
pub proof fn law_silence_denies_delegation(permission: JsonView, ctx: CtxView)
    requires
        stored_fields(permission).dom().finite(),
        !stored_fields(permission).dom().contains("task"@),
    ensures
        binding::bound_permission(permission, ctx)["task"@] == JsonView::Object(
            Map::empty().insert("*"@, binding::deny()),
        ),
{
    lemma_plain_keys();
    let stored = stored_fields(permission);
    let full = binding::with_path_defaults(stored, ctx.project);
    lemma_bound_plain(full, ctx, "task"@);
    let m = before_tools(permission, ctx);
    lemma_with_tools(m, ctx.role, 8);
    assert(binding::with_tools(m, ctx.role, 8).dom().contains("task"@) == m.dom().contains("task"@));
    let rules = Map::empty().insert("*"@, binding::deny());
    assert(binding::confined(rules, ctx.known) =~= rules);
}

/// The rules that an entry's own words on a path key come to, before the red
/// lines are drawn.
pub open spec fn own_rules(permission: JsonView, ctx: CtxView, key: Seq<char>) -> Fields {
    let value = binding::bound_value(
        binding::with_path_defaults(stored_fields(permission), ctx.project)[key],
        ctx,
    );
    match value {
        JsonView::Object(m) => m,
        _ => Map::empty().insert("*"@, value),
    }
}

/// The stored rules of a path key are an action or a map of actions, if there
/// are any.
pub open spec fn has_path_rules(permission: JsonView, key: Seq<char>) -> bool {
    let stored = stored_fields(permission);
    stored.dom().contains(key) ==> stored[key] is Text || stored[key] is Object
}

/// A bound path key holds its own rules with the red lines drawn.
proof fn lemma_bound_path(permission: JsonView, ctx: CtxView, key: Seq<char>)
    requires
        stored_fields(permission).dom().finite(),
        binding::is_path_key(key),
        has_path_rules(permission, key),
    ensures
        binding::bound_permission(permission, ctx)[key] == JsonView::Object(
            if key == "read"@ {
                binding::read_rules(own_rules(permission, ctx, key), ctx)
            } else {
                binding::write_rules(own_rules(permission, ctx, key), ctx)
            },
        ),
{
    lemma_plain_keys();
    let full = binding::with_path_defaults(stored_fields(permission), ctx.project);
    lemma_bound_plain(full, ctx, key);
    let m = before_tools(permission, ctx);
    lemma_with_tools(m, ctx.role, 8);
    assert(binding::with_tools(m, ctx.role, 8).dom().contains(key) == m.dom().contains(key));
    match full[key] {
        JsonView::Text(_) => {
            assert(binding::bound_value(full[key], ctx) == full[key]);
        },
        JsonView::Object(_) => {
            assert(binding::bound_value(full[key], ctx) is Object);
        },
        _ => {},
    }
}

/// The patterns that the red lines name are different where their rules are.
proof fn lemma_patterns_differ(ctx: CtxView)
    ensures
        ({
            let own = binding::absolute_pattern(ctx.store, ctx.project, "corpus"@);
            &&& own != "store/projects/*/agents/**"@
            &&& own != binding::project_pattern(ctx.project, "corpus/runs"@)
            &&& own != binding::absolute_pattern(ctx.store, ctx.project, "corpus/runs"@)
            &&& own != text::without_trailing(ctx.store, '/') + "/**"@
        }),
{
    let own = binding::absolute_pattern(ctx.store, ctx.project, "corpus"@);
    let runs = binding::project_pattern(ctx.project, "corpus/runs"@);
    let trees = "store/projects/*/agents/**"@;
    let store = text::without_trailing(ctx.store, '/');
    reveal_strlit("store/projects/*/agents/**");
    reveal_strlit("store/projects/");
    reveal_strlit("/projects/");
    reveal_strlit("/**");
    reveal_strlit("corpus");
    reveal_strlit("corpus/runs");
    reveal_strlit("/");
    assert(own.len() == store.len() + ctx.project.len() + 20);
    assert(own[own.len() - 5] == 'u');
    assert(trees[trees.len() - 5] == 't');
    assert(runs[runs.len() - 5] == 'n');
}

/// The agent tree, which holds the roles, and the run transcripts are denied
/// to every write and edit, whatever the stored rules say; a stored plain
/// action does not escape the denial.
pub proof fn law_red_lines_are_drawn(permission: JsonView, ctx: CtxView, key: Seq<char>)
    requires
        stored_fields(permission).dom().finite(),
        key == "write"@ || key == "edit"@,
        has_path_rules(permission, key),
    ensures
        binding::bound_permission(permission, ctx)[key] matches JsonView::Object(rules) && {
            &&& json::entry(rules, "store/projects/*/agents/**"@) == Some(binding::deny())
            &&& json::entry(rules, binding::project_pattern(ctx.project, "corpus/runs"@)) == Some(
                binding::deny(),
            )
        },
{
    lemma_plain_keys();
    lemma_bound_path(permission, ctx, key);
    lemma_patterns_differ(ctx);
}

/// The patterns of the project boundary are none of the answer key or the
/// harness.
proof fn lemma_red_patterns_differ(ctx: CtxView, red: Seq<char>)
    requires
        red == "benchmarks/**"@ || red == "plugins/**"@,
    ensures
        red != "store/projects/*"@,
        red != binding::project_pattern(ctx.project, "corpus"@),
        red != binding::project_pattern(ctx.project, "missions"@),
        red != binding::absolute_pattern(ctx.store, ctx.project, "corpus"@),
{
    let own = binding::absolute_pattern(ctx.store, ctx.project, "corpus"@);
    let corpus = binding::project_pattern(ctx.project, "corpus"@);
    let missions = binding::project_pattern(ctx.project, "missions"@);
    reveal_strlit("benchmarks/**");
    reveal_strlit("plugins/**");
    reveal_strlit("store/projects/*");
    reveal_strlit("store/projects/");
    reveal_strlit("/projects/");
    reveal_strlit("corpus");
    reveal_strlit("missions");
    reveal_strlit("/");
    reveal_strlit("/**");
    assert(red[0] == 'b' || red[0] == 'p');
    assert(corpus[0] == 's' && missions[0] == 's' && "store/projects/*"@[0] == 's');
    assert(own[own.len() - 10] == '/');
    assert(red[red.len() - 10] == 'c' || red[red.len() - 10] == 'p');
}

/// Read rules deny the answer key and the harness, whatever rules they are
/// drawn into.
proof fn lemma_red_reads(rules: Fields, ctx: CtxView, red: Seq<char>)
    requires
        red == "benchmarks/**"@ || red == "plugins/**"@,
    ensures
        json::entry(binding::read_rules(rules, ctx), red) == Some(binding::deny()),
{
    lemma_red_patterns_differ(ctx, red);
    reveal_strlit("benchmarks/**");
    reveal_strlit("plugins/**");
    assert("benchmarks/**"@.len() != "plugins/**"@.len());
}

/// The answer key and the harness are denied to every read, whatever the
/// stored rules say of them: a stored allowance of either is overruled.
pub proof fn law_read_red_lines_are_drawn(permission: JsonView, ctx: CtxView)
    requires
        stored_fields(permission).dom().finite(),
        has_path_rules(permission, "read"@),
    ensures
        binding::bound_permission(permission, ctx)["read"@] matches JsonView::Object(rules) && {
            &&& json::entry(rules, "benchmarks/**"@) == Some(binding::deny())
            &&& json::entry(rules, "plugins/**"@) == Some(binding::deny())
        },
{
    lemma_bound_path(permission, ctx, "read"@);
    let own = own_rules(permission, ctx, "read"@);
    lemma_red_reads(own, ctx, "benchmarks/**"@);
    lemma_red_reads(own, ctx, "plugins/**"@);
}

/// Whatever the stored rules say, no absolute path leads around the boundary:
/// the store is denied but for the project's own corpus, its transcripts are
/// denied to every write and edit, and so are the management chats to
/// everything, unless they are kept in that very corpus.
pub proof fn law_absolute_boundary_is_drawn(permission: JsonView, ctx: CtxView, key: Seq<char>)
    requires
        stored_fields(permission).dom().finite(),
        binding::is_path_key(key),
        has_path_rules(permission, key),
        ctx.store.len() > 0,
    ensures
        binding::bound_permission(permission, ctx)[key] matches JsonView::Object(rules) && {
            let whole = text::without_trailing(ctx.store, '/') + "/**"@;
            let own = binding::absolute_pattern(ctx.store, ctx.project, "corpus"@);
            let runs = binding::absolute_pattern(ctx.store, ctx.project, "corpus/runs"@);
            let chats = text::without_trailing(ctx.data, '/') + "/var/chat/**"@;
            &&& json::entry(rules, whole) == Some(binding::deny())
            &&& json::entry(rules, own) == Some(binding::allow())
            &&& key != "read"@ ==> json::entry(rules, runs) == Some(binding::deny())
            &&& ctx.data.len() > 0 && chats != own ==> json::entry(rules, chats) == Some(
                binding::deny(),
            )
        },
{
    lemma_plain_keys();
    lemma_bound_path(permission, ctx, key);
    lemma_patterns_differ(ctx);
}

} // verus!
