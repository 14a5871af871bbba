//! What adding a subagent and removing it do to each other.
use vstd::prelude::*;
use crate::agents::document;
use crate::agents::document::Fields;
use crate::agents::edits;
use crate::agents::manage;
use crate::agents::roles::AgentRole;
use crate::agents::sidecar::SidecarView;
use crate::error::ErrorView;
use crate::json;
use crate::json::JsonView;
use crate::store::naming;
use crate::table;

verus! {

/// Rules pass from the `i`-th on exactly where each of them does.
proof fn lemma_rules_pass(m: Fields, i: nat)
    requires
        table::lists(table::in_order(m.dom()), m.dom()),
    ensures
        document::rules_check(JsonView::Object(m), i) is Ok <==> forall|j: int|
            i <= j < table::in_order(m.dom()).len() ==> document::permission_check(
                m[#[trigger] table::in_order(m.dom())[j]],
            ) is Ok,
    decreases table::in_order(m.dom()).len() - i,
{
    let ks = table::in_order(m.dom());
    if i < ks.len() {
        lemma_rules_pass(m, i + 1);
        assert(ks.contains(ks[i as int]));
        assert(m.dom().contains(ks[i as int]));
        if document::permission_check(m[ks[i as int]]) is Ok {
            assert(document::rules_check(JsonView::Object(m), i) == document::rules_check(
                JsonView::Object(m),
                i + 1,
            ));
        }
    }
}

/// A block of rules is valid exactly where each of its rules is.
proof fn lemma_block_is_valid(m: Fields)
    requires
        m.dom().finite(),
    ensures
        document::permission_check(JsonView::Object(m)) is Ok <==> forall|k: Seq<char>| #[trigger]
            m.dom().contains(k) ==> document::permission_check(m[k]) is Ok,
{
    let ks = table::in_order(m.dom());
    table::lemma_finite_in_order(m.dom());
    lemma_rules_pass(m, 0);
    if document::permission_check(JsonView::Object(m)) is Ok {
        assert forall|k: Seq<char>| #[trigger] m.dom().contains(k) implies document::permission_check(
            m[k],
        ) is Ok by {
            assert(ks.contains(k));
            let j = choose|j: int| 0 <= j < ks.len() && ks[j] == k;
            assert(document::permission_check(m[ks[j]]) is Ok);
        }
    }
    if forall|k: Seq<char>| #[trigger]
        m.dom().contains(k) ==> document::permission_check(m[k]) is Ok {
        assert forall|j: int| 0 <= j < ks.len() implies document::permission_check(
            m[#[trigger] ks[j]],
        ) is Ok by {
            assert(ks.contains(ks[j]));
            assert(m.dom().contains(ks[j]));
        }
    }
}

/// Entries pass from the `i`-th on exactly where each of them does.
proof fn lemma_entries_pass(m: Fields, i: nat, files: Seq<Seq<char>>)
    ensures
        document::entries_check(m, i, files) is Ok <==> forall|j: int|
            i <= j < document::names(m).len() ==> document::entry_check(
                #[trigger] document::names(m)[j],
                m[document::names(m)[j]],
                files,
            ) is Ok,
    decreases document::names(m).len() - i,
{
    if i < document::names(m).len() {
        lemma_entries_pass(m, i + 1, files);
        let name = document::names(m)[i as int];
        if document::entry_check(name, m[name], files) is Ok {
            assert(document::entries_check(m, i, files) == document::entries_check(m, i + 1, files));
        }
    }
}

/// The entries of an agent map are valid exactly where each of them is.
proof fn lemma_entries_are_valid(m: Fields, files: Seq<Seq<char>>)
    requires
        m.dom().finite(),
    ensures
        document::entries_check(m, 0, files) is Ok <==> forall|k: Seq<char>| #[trigger]
            m.dom().contains(k) ==> document::entry_check(k, m[k], files) is Ok,
{
    let ks = document::names(m);
    table::lemma_finite_in_order(m.dom());
    lemma_entries_pass(m, 0, files);
    if document::entries_check(m, 0, files) is Ok {
        assert forall|k: Seq<char>| #[trigger] m.dom().contains(k) implies document::entry_check(
            k,
            m[k],
            files,
        ) is Ok by {
            assert(ks.contains(k));
            let j = choose|j: int| 0 <= j < ks.len() && ks[j] == k;
            assert(document::entry_check(ks[j], m[ks[j]], files) is Ok);
        }
    }
    if forall|k: Seq<char>| #[trigger]
        m.dom().contains(k) ==> document::entry_check(k, m[k], files) is Ok {
        assert forall|j: int| 0 <= j < ks.len() implies document::entry_check(
            #[trigger] ks[j],
            m[ks[j]],
            files,
        ) is Ok by {
            assert(ks.contains(ks[j]));
            assert(m.dom().contains(ks[j]));
        }
    }
}

/// No primary is named twice.
proof fn lemma_primaries_are_distinct(m: Fields, n: nat)
    requires
        table::lists(document::names(m), m.dom()),
        n <= document::names(m).len(),
    ensures
        document::primaries(m, n).no_duplicates(),
    decreases n,
{
    if n > 0 {
        let ks = document::names(m);
        let before = document::primaries(m, (n - 1) as nat);
        lemma_primaries_are_distinct(m, (n - 1) as nat);
        document::lemma_primaries(m, (n - 1) as nat);
        if before.contains(ks[n - 1]) {
            let fewer = ks.take(n - 1);
            assert(fewer.contains(ks[n - 1]));
            let j = choose|j: int| 0 <= j < fewer.len() && fewer[j] == ks[n - 1];
            assert(table::precedes(ks[j], ks[n - 1]));
            table::lemma_precedes_irreflexive(ks[j]);
        }
        assert forall|i: int, j: int|
            0 <= i < document::primaries(m, n).len() && 0 <= j < document::primaries(m, n).len() && i
                != j implies document::primaries(m, n)[i] != document::primaries(m, n)[j] by {
            if i < before.len() {
                assert(before.contains(before[i]));
            }
            if j < before.len() {
                assert(before.contains(before[j]));
            }
        }
    }
}

/// Two agent maps whose primaries go by the same names have as many.
proof fn lemma_one_primary(a: Fields, b: Fields)
    requires
        a.dom().finite(),
        b.dom().finite(),
        document::all_primaries(a).len() == 1,
        forall|k: Seq<char>|
            #![trigger b.dom().contains(k)]
            b.dom().contains(k) && document::is_primary(b[k]) <==> a.dom().contains(k)
                && document::is_primary(a[k]),
    ensures
        document::all_primaries(b).len() == 1,
{
    table::lemma_finite_in_order(a.dom());
    table::lemma_finite_in_order(b.dom());
    edits::lemma_primaries_are_entries(a);
    edits::lemma_primaries_are_entries(b);
    lemma_primaries_are_distinct(b, document::names(b).len());
    let pa = document::all_primaries(a);
    let pb = document::all_primaries(b);
    assert(pa.contains(pa[0]));
    assert(b.dom().contains(pa[0]));
    assert(pb.contains(pa[0]));
    if pb.len() > 1 {
        assert(pb.contains(pb[0]) && pb.contains(pb[1]));
        assert(b.dom().contains(pb[0]) && b.dom().contains(pb[1]));
        assert(pa.contains(pb[0]) && pa.contains(pb[1]));
        assert(false);
    }
}

/// A primary whose delegation rules spare a name is valid where it is with a
/// rule for that name.
proof fn lemma_delegating_validates(
    slug: Seq<char>,
    cfg: Fields,
    name: Seq<char>,
    files: Seq<Seq<char>>,
)
    requires
        edits::rules_spare(cfg, name),
        edits::block_of(cfg).dom().finite(),
        edits::task_rules(edits::block_of(cfg)).dom().finite(),
        document::entry_check(slug, JsonView::Object(edits::delegating(cfg, name)), files) is Ok,
    ensures
        document::entry_check(slug, JsonView::Object(cfg), files) is Ok,
{
    reveal_strlit("permission");
    reveal_strlit("prompt");
    assert("permission"@.len() != "prompt"@.len());
    let block = edits::block_of(cfg);
    let rules = edits::task_rules(block);
    let more = rules.insert(name, JsonView::Text("allow"@));
    let wider = block.insert("task"@, JsonView::Object(more));
    assert(document::permission_check(JsonView::Object(wider)) is Ok);
    lemma_block_is_valid(wider);
    lemma_block_is_valid(block);
    lemma_block_is_valid(more);
    lemma_block_is_valid(rules);
    assert(wider.dom().contains("task"@));
    assert forall|k: Seq<char>| #[trigger] rules.dom().contains(k) implies document::permission_check(
        rules[k],
    ) is Ok by {
        assert(more.dom().contains(k));
        assert(k != name);
    }
    assert forall|k: Seq<char>| #[trigger] block.dom().contains(k) implies document::permission_check(
        block[k],
    ) is Ok by {
        assert(wider.dom().contains(k));
    }
}

/// Whatever document is valid with a new subagent was valid without it.
pub proof fn law_valid_without_the_subagent(
    doc: JsonView,
    slug: Seq<char>,
    name: Seq<char>,
    cfg: Fields,
    files: Seq<Seq<char>>,
)
    requires
        json::member_fields(doc, "agent"@) is Some,
        ({
            let m = json::member_fields(doc, "agent"@)->Some_0;
            let primary = json::entry_fields(m, slug)->Some_0;
            &&& m.dom().finite()
            &&& !m.dom().contains(name)
            &&& name != slug
            &&& json::entry_fields(m, slug) is Some
            &&& edits::rules_spare(primary, name)
            &&& edits::block_of(primary).dom().finite()
            &&& edits::task_rules(edits::block_of(primary)).dom().finite()
            &&& document::doc_check(
                document::with_agents(doc, edits::with_subagent(m, slug, name, cfg)),
                files,
            ) is Ok
        }),
        !document::is_primary(JsonView::Object(cfg)),
    ensures
        document::doc_check(doc, files) is Ok,
{
    let m = json::member_fields(doc, "agent"@)->Some_0;
    let primary = json::entry_fields(m, slug)->Some_0;
    let added = edits::with_subagent(m, slug, name, cfg);
    let inserted = m.insert(name, JsonView::Object(cfg));
    reveal_strlit("permission");
    reveal_strlit("mode");
    assert("permission"@.len() != "mode"@.len());
    assert(json::entry_fields(inserted, slug) == Some(primary));
    assert(added == inserted.insert(slug, JsonView::Object(edits::delegating(primary, name))));
    assert(m[slug] == JsonView::Object(primary));
    assert(json::member_fields(document::with_agents(doc, added), "agent"@) == Some(added));
    table::lemma_finite_in_order(m.dom());
    assert(document::names(m).contains(slug));
    assert(document::is_primary(added[slug]) == document::is_primary(m[slug]));
    assert forall|k: Seq<char>|
        #![trigger m.dom().contains(k)]
        m.dom().contains(k) && document::is_primary(m[k]) <==> added.dom().contains(k)
            && document::is_primary(added[k]) by {}
    lemma_one_primary(added, m);
    lemma_entries_are_valid(added, files);
    lemma_entries_are_valid(m, files);
    assert forall|k: Seq<char>| #[trigger] m.dom().contains(k) implies document::entry_check(
        k,
        m[k],
        files,
    ) is Ok by {
        assert(added.dom().contains(k));
        if k == slug {
            lemma_delegating_validates(slug, primary, name, files);
        } else {
            assert(added[k] == m[k]);
        }
    }
}

/// A slug is no wildcard.
proof fn lemma_slug_is_no_star(name: Seq<char>)
    requires
        naming::slug_check(name) is Ok,
    ensures
        name != "*"@,
{
    reveal_strlit("*");
    if name == "*"@ {
        assert(naming::is_slug_text(name));
        assert(name[0] == '*');
        assert(false);
    }
}

/// Removing a subagent undoes adding it: the removal is accepted, the
/// document is the one there was, and the entry can not be removed again.
pub proof fn law_removal_undoes_addition(
    doc: JsonView,
    project: Seq<char>,
    slug: Seq<char>,
    name: Seq<char>,
    cfg: Fields,
    files: Seq<Seq<char>>,
)
    requires
        edits::subagent_name_check(slug, name) is Ok,
        !document::is_primary(JsonView::Object(cfg)),
        edits::subagent_addition(doc, project, slug, name, cfg, files) is Ok,
        ({
            let m = json::member_fields(doc, "agent"@)->Some_0;
            let primary = json::entry_fields(m, slug)->Some_0;
            &&& m.dom().finite()
            &&& json::entry_fields(m, slug) is Some
            &&& edits::rules_spare(primary, name)
            &&& edits::block_of(primary).dom().finite()
            &&& edits::task_rules(edits::block_of(primary)).dom().finite()
        }),
    ensures
        ({
            let more = edits::subagent_addition(doc, project, slug, name, cfg, files)->Ok_0;
            &&& edits::subagent_removal(more, project, slug, name, files) == Ok::<
                JsonView,
                ErrorView,
            >(doc)
            &&& edits::subagent_removal(doc, project, slug, name, files) == Err::<
                JsonView,
                ErrorView,
            >(document::no_entry(project, slug, name))
        }),
{
    let m = json::member_fields(doc, "agent"@)->Some_0;
    let added = edits::with_subagent(m, slug, name, cfg);
    let more = document::with_agents(doc, added);
    lemma_slug_is_no_star(name);
    edits::law_add_then_remove_restores(m, slug, name, cfg);
    law_valid_without_the_subagent(doc, slug, name, cfg, files);
    assert(edits::subagent_addition(doc, project, slug, name, cfg, files)->Ok_0 == more);
    assert(json::member_fields(more, "agent"@) == Some(added));
    assert(edits::without_subagent(added, slug, name) == m);
    match doc {
        JsonView::Object(d) => {
            let changed = d.insert("agent"@, JsonView::Object(added));
            assert(changed.insert("agent"@, JsonView::Object(m)) =~= d);
        },
        _ => {},
    }
    assert(document::with_agents(more, m) == doc);
}

/// Adding a subagent and removing it again writes the document there was, and
/// gives back the roles of the sidecar; a second removal is refused and
/// writes nothing. `before` and `after` are the document file as it reads
/// before the addition and after it.
pub proof fn law_remove_subagent_undoes_add(
    root: Seq<char>,
    project: Seq<char>,
    slug: Seq<char>,
    name: Seq<char>,
    description: Seq<char>,
    prompt: Seq<char>,
    model: Option<Seq<char>>,
    role: Option<AgentRole>,
    before: Option<Result<Seq<char>, Seq<char>>>,
    after: Option<Result<Seq<char>, Seq<char>>>,
    meta: SidecarView,
    files: Seq<Seq<char>>,
)
    requires
        ({
            let cfg = edits::entry_cfg(Map::empty(), "subagent"@, description, prompt, model);
            let doc = manage::loaded_doc(project, slug, before)->Ok_0;
            let m = json::member_fields(doc, "agent"@)->Some_0;
            let primary = json::entry_fields(m, slug)->Some_0;
            &&& manage::subagent_added(
                root,
                project,
                slug,
                name,
                cfg,
                role,
                before,
                meta,
                files,
            ) is Ok
            &&& manage::loaded_doc(project, slug, after) == edits::subagent_addition(
                doc,
                project,
                slug,
                name,
                cfg,
                files,
            )
            &&& m.dom().finite()
            &&& json::entry_fields(m, slug) is Some
            &&& edits::rules_spare(primary, name)
            &&& edits::block_of(primary).dom().finite()
            &&& edits::task_rules(edits::block_of(primary)).dom().finite()
        }),
        !meta.subagent_roles.dom().contains(name),
    ensures
        ({
            let doc = manage::loaded_doc(project, slug, before)->Ok_0;
            let roles = match role {
                Some(role) => (SidecarView {
                    subagent_roles: meta.subagent_roles.insert(name, role),
                    ..meta
                }),
                None => meta,
            };
            let removed = manage::subagent_removed(root, project, slug, name, after, roles, files);
            &&& removed == manage::both_written(
                manage::written(manage::doc_file(root, project, slug), Ok(doc)),
                match role {
                    Some(_) => Some(meta),
                    None => None,
                },
            )
            &&& manage::subagent_removed(root, project, slug, name, before, meta, files) is Err
        }),
{
    let cfg = edits::entry_cfg(Map::empty(), "subagent"@, description, prompt, model);
    let doc = manage::loaded_doc(project, slug, before)->Ok_0;
    reveal_strlit("mode");
    reveal_strlit("prompt");
    reveal_strlit("model");
    reveal_strlit("subagent");
    reveal_strlit("primary");
    assert("mode"@.len() != "model"@.len() && "mode"@.len() != "prompt"@.len());
    assert("subagent"@.len() != "primary"@.len());
    assert(json::entry_text(cfg, "mode"@) == Some("subagent"@));
    assert(!document::is_primary(JsonView::Object(cfg)));
    law_removal_undoes_addition(doc, project, slug, name, cfg, files);
    match role {
        Some(role) => {
            let roles = meta.subagent_roles.insert(name, role);
            assert(roles.remove(name) =~= meta.subagent_roles);
        },
        None => {},
    }
}

} // verus!
