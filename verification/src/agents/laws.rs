//! What agent documents, edits, roles and names are for: that what an operator
//! writes is what the agent has.
use vstd::prelude::*;
use crate::agents::binding;
use crate::agents::binding::CtxView;
use crate::agents::boundary;
use crate::agents::document;
use crate::agents::document::{Fields, FileText};
use crate::agents::edits;
use crate::agents::handles;
use crate::agents::manage;
use crate::agents::roles;
use crate::agents::roles::{AgentRole, RolePrompts};
use crate::agents::sidecar;
use crate::agents::sidecar::{AgentSidecar, AgentView, SidecarView};
use crate::error::ErrorView;
use crate::json;
use crate::json::JsonView;
use crate::path;
use crate::store::layout;
use crate::store::naming;
use crate::table;
use crate::text;

verus! {

// ---------------------------------------------------------------------
// Documents
// ---------------------------------------------------------------------

/// An entry is a primary where its mode says so or it states none, and no
/// other mode makes one.
pub proof fn law_modes_make_primaries(cfg: JsonView, mode: Seq<char>)
    ensures
        json::member_text(cfg, "mode"@) is None ==> document::is_primary(cfg),
        json::member_text(cfg, "mode"@) == Some(mode) ==> (document::is_primary(cfg) <==> mode
            == "primary"@),
        json::member_text(cfg, "mode"@) == Some("subagent"@) ==> !document::is_primary(cfg),
{
    reveal_strlit("primary");
    reveal_strlit("subagent");
    assert("primary"@.len() == 7 && "subagent"@.len() == 8);
}

proof fn lemma_rules_pass(m: Fields, i: nat)
    requires
        table::lists(table::in_order(m.dom()), m.dom()),
    ensures
        document::rules_check(JsonView::Object(m), i) is Ok <==> forall|j: int|
            i <= j < table::in_order(m.dom()).len() ==> document::permission_check(
                m[#[trigger] table::in_order(m.dom())[j]],
            ) is Ok,
    decreases table::in_order(m.dom()).len() - i,
{
    let ks = table::in_order(m.dom());
    if i < ks.len() {
        assert(ks.contains(ks[i as int]));
        lemma_rules_pass(m, i + 1);
    }
}

/// A permission block is valid where it is one of the three actions, or rules
/// that are each valid, and nowhere else.
pub proof fn law_valid_permissions(p: JsonView)
    ensures
        p matches JsonView::Text(a) ==> (document::permission_check(p) is Ok <==> a == "ask"@ || a
            == "allow"@ || a == "deny"@),
        p matches JsonView::Object(m) ==> m.dom().finite() ==> (document::permission_check(p) is Ok
            <==> forall|k: Seq<char>| #[trigger]
            m.dom().contains(k) ==> document::permission_check(m[k]) is Ok),
        !(p is Text) && !(p is Object) ==> document::permission_check(p) is Err,
{
    match p {
        JsonView::Object(m) => {
            if m.dom().finite() {
                table::lemma_finite_in_order(m.dom());
                lemma_rules_pass(m, 0);
                let ks = table::in_order(m.dom());
                if document::permission_check(p) is Ok {
                    assert forall|k: Seq<char>| #[trigger]
                        m.dom().contains(k) implies document::permission_check(m[k]) is Ok by {
                        assert(ks.contains(k));
                        let j = choose|j: int| 0 <= j < ks.len() && ks[j] == k;
                        assert(document::permission_check(m[ks[j]]) is Ok);
                    }
                }
                if forall|k: Seq<char>| #[trigger]
                    m.dom().contains(k) ==> document::permission_check(m[k]) is Ok {
                    assert forall|j: int|
                        0 <= j < ks.len() implies document::permission_check(
                        m[#[trigger] ks[j]],
                    ) is Ok by {
                        assert(ks.contains(ks[j]));
                        assert(m.dom().contains(ks[j]));
                    }
                }
            }
        },
        _ => {},
    }
}

proof fn lemma_entries_pass(m: Fields, i: nat, files: Seq<Seq<char>>)
    ensures
        document::entries_check(m, i, files) is Ok <==> forall|j: int|
            i <= j < document::names(m).len() ==> document::entry_check(
                #[trigger] document::names(m)[j],
                m[document::names(m)[j]],
                files,
            ) is Ok,
    decreases document::names(m).len() - i,
{
    if i < document::names(m).len() {
        lemma_entries_pass(m, i + 1, files);
    }
}

/// A document is valid where it has an agent map with one primary and with
/// entries that are all valid, and nowhere else.
pub proof fn law_valid_documents(doc: JsonView, files: Seq<Seq<char>>)
    ensures
        document::doc_check(doc, files) is Ok ==> json::member_fields(doc, "agent"@) is Some,
        json::member_fields(doc, "agent"@) matches Some(m) ==> m.dom().finite() ==> (
        document::doc_check(doc, files) is Ok <==> {
            &&& document::all_primaries(m).len() == 1
            &&& forall|k: Seq<char>| #[trigger]
                m.dom().contains(k) ==> document::entry_check(k, m[k], files) is Ok
        }),
{
    match json::member_fields(doc, "agent"@) {
        Some(m) => {
            if m.dom().finite() {
                table::lemma_finite_in_order(m.dom());
                lemma_entries_pass(m, 0, files);
                let ks = document::names(m);
                if ks.len() == 0 {
                    assert(document::all_primaries(m).len() == 0);
                }
                if document::entries_check(m, 0, files) is Ok {
                    assert forall|k: Seq<char>| #[trigger]
                        m.dom().contains(k) implies document::entry_check(k, m[k], files) is Ok by {
                        assert(ks.contains(k));
                        let j = choose|j: int| 0 <= j < ks.len() && ks[j] == k;
                        assert(document::entry_check(ks[j], m[ks[j]], files) is Ok);
                    }
                }
                if forall|k: Seq<char>| #[trigger]
                    m.dom().contains(k) ==> document::entry_check(k, m[k], files) is Ok {
                    assert forall|j: int| 0 <= j < ks.len() implies document::entry_check(
                        #[trigger] ks[j],
                        m[ks[j]],
                        files,
                    ) is Ok by {
                        assert(ks.contains(ks[j]));
                        assert(m.dom().contains(ks[j]));
                    }
                }
            }
        },
        None => {},
    }
}

/// An entry is valid where it is an object whose permission block, if it has
/// one, is valid and whose prompt, if it has one, refers only to files that
/// are there.
pub proof fn law_valid_entries(name: Seq<char>, cfg: JsonView, files: Seq<Seq<char>>)
    ensures
        document::entry_check(name, cfg, files) is Ok <==> {
            &&& cfg is Object
            &&& json::member(cfg, "permission"@) matches Some(p) ==> document::permission_check(
                p,
            ) is Ok
            &&& json::member_text(cfg, "prompt"@) matches Some(s) ==> document::refs_check(
                name,
                s,
                0,
                files,
            ) is Ok
        },
{
}

/// A prompt passes where all that it refers to is there.
pub proof fn law_passed_prompts_refer_to_files(
    name: Seq<char>,
    s: Seq<char>,
    from: nat,
    files: Seq<Seq<char>>,
)
    ensures
        document::refs_check(name, s, from, files) is Ok ==> forall|i: int|
            0 <= i < document::refs_from(s, from).len() ==> files.contains(
                #[trigger] document::refs_from(s, from)[i],
            ),
        document::next_ref(s, from) is None ==> document::refs_check(name, s, from, files) is Ok
            && document::refs_from(s, from).len() == 0,
        document::next_ref(s, from) matches Some((_, None)) ==> document::refs_check(
            name,
            s,
            from,
            files,
        ) is Err,
    decreases s.len() - from,
{
    match document::next_ref(s, from) {
        Some((open, Some(close))) => {
            if from <= open && open + 6 <= close && close < s.len() {
                law_passed_prompts_refer_to_files(name, s, close + 1, files);
                let rel = s.subrange((open + 6) as int, close as int);
                let rest = document::refs_from(s, close + 1);
                let all = document::refs_from(s, from);
                assert(all =~= seq![rel] + rest);
                if document::refs_check(name, s, from, files) is Ok {
                    assert forall|i: int| 0 <= i < all.len() implies files.contains(
                        #[trigger] all[i],
                    ) by {
                        if i > 0 {
                            assert(all[i] == rest[i - 1]);
                        }
                    }
                }
            }
        },
        _ => {},
    }
}

/// A prompt is rendered with the texts of the files that it refers to: each of
/// them is in it, and so is what stands before the first reference; one
/// without references is rendered as it is.
pub proof fn law_prompts_hold_their_files(
    s: Seq<char>,
    from: nat,
    files: Map<Seq<char>, FileText>,
)
    requires
        from <= s.len(),
    ensures
        document::next_ref(s, from) is None ==> document::inlined_from(s, from, files) == Ok::<
            Seq<char>,
            ErrorView,
        >(s.skip(from as int)),
        document::next_ref(s, from) matches Some((_, None)) ==> document::inlined_from(
            s,
            from,
            files,
        ) is Err,
        document::inlined_from(s, from, files) matches Ok(out) ==> {
            &&& document::next_ref(s, from) matches Some((open, Some(_))) ==> from <= open
                <= s.len() && s.subrange(from as int, open as int).is_prefix_of(out)
            &&& forall|i: int|
                0 <= i < document::refs_from(s, from).len() ==> has_file(
                    out,
                    #[trigger] document::refs_from(s, from)[i],
                    files,
                )
        },
    decreases s.len() - from,
{
    let piece = "{file:"@;
    text::lemma_index_from(s, piece, from);
    reveal_strlit("{file:");
    match document::next_ref(s, from) {
        Some((open, Some(close))) => {
            text::lemma_index_from(s, "}"@, open + 6);
            reveal_strlit("}");
            let rel = s.subrange((open + 6) as int, close as int);
            law_prompts_hold_their_files(s, close + 1, files);
            match document::inlined_from(s, from, files) {
                Ok(out) => {
                    let head = s.subrange(from as int, open as int);
                    let body = files[rel]->Ok_0@;
                    let rest = document::inlined_from(s, close + 1, files)->Ok_0;
                    assert(out == head + body + rest);
                    assert(head =~= out.subrange(0, head.len() as int));
                    text::lemma_contains_middle(head, body, rest);
                    let all = document::refs_from(s, from);
                    let later = document::refs_from(s, close + 1);
                    assert(all =~= seq![rel] + later);
                    assert forall|i: int| 0 <= i < all.len() implies has_file(
                        out,
                        #[trigger] all[i],
                        files,
                    ) by {
                        if i > 0 {
                            assert(all[i] == later[i - 1]);
                            let none = Seq::<char>::empty();
                            text::lemma_contains_wider(
                                head + body,
                                rest,
                                none,
                                files[all[i]]->Ok_0@,
                            );
                            assert(head + body + rest + none =~= out);
                        }
                    }
                },
                Err(_) => {},
            }
        },
        _ => {},
    }
}

/// A text holds what a referenced file reads as.
pub open spec fn has_file(
    out: Seq<char>,
    rel: Seq<char>,
    files: Map<Seq<char>, FileText>,
) -> bool {
    files.dom().contains(rel) && files[rel] is Ok && text::contains(out, files[rel]->Ok_0@)
}

proof fn lemma_map_refs(m: Fields, n: nat, at: int, i: int)
    requires
        n <= document::names(m).len(),
        0 <= at < n,
        json::member_text(m[document::names(m)[at]], "prompt"@) is Some,
        0 <= i < document::refs_from(
            json::member_text(m[document::names(m)[at]], "prompt"@)->Some_0,
            0,
        ).len(),
    ensures
        document::map_refs(m, n).contains(
            document::refs_from(
                json::member_text(m[document::names(m)[at]], "prompt"@)->Some_0,
                0,
            )[i],
        ),
    decreases n,
{
    let before = document::map_refs(m, (n - 1) as nat);
    let all = document::map_refs(m, n);
    let rel = document::refs_from(
        json::member_text(m[document::names(m)[at]], "prompt"@)->Some_0,
        0,
    )[i];
    if at == n - 1 {
        assert(all[before.len() + i] == rel);
    } else {
        lemma_map_refs(m, (n - 1) as nat, at, i);
        let j = choose|j: int| 0 <= j < before.len() && before[j] == rel;
        assert(all[j] == rel);
    }
}

/// What any prompt of a document refers to is looked up.
pub proof fn law_all_references_are_looked_up(doc: JsonView, name: Seq<char>, i: int)
    requires
        json::member_fields(doc, "agent"@) is Some,
        json::member_fields(doc, "agent"@)->Some_0.dom().finite(),
        json::member_fields(doc, "agent"@)->Some_0.dom().contains(name),
        json::member_text(json::member_fields(doc, "agent"@)->Some_0[name], "prompt"@) is Some,
        0 <= i < document::refs_from(
            json::member_text(
                json::member_fields(doc, "agent"@)->Some_0[name],
                "prompt"@,
            )->Some_0,
            0,
        ).len(),
    ensures
        document::all_refs(doc).contains(
            document::refs_from(
                json::member_text(
                    json::member_fields(doc, "agent"@)->Some_0[name],
                    "prompt"@,
                )->Some_0,
                0,
            )[i],
        ),
{
    let m = json::member_fields(doc, "agent"@)->Some_0;
    table::lemma_finite_in_order(m.dom());
    let ks = document::names(m);
    assert(ks.contains(name));
    let at = choose|at: int| 0 <= at < ks.len() && ks[at] == name;
    lemma_map_refs(m, ks.len(), at, i);
}

// ---------------------------------------------------------------------
// Edits
// ---------------------------------------------------------------------

/// Setting a field is refused where the field is fixed by the document's own
/// rules, where there is no such entry, and where the document would not be
/// valid; it succeeds everywhere else.
pub proof fn law_field_edits_are_accepted(
    doc: JsonView,
    project: Seq<char>,
    slug: Seq<char>,
    target: Seq<char>,
    field: Seq<char>,
    value: JsonView,
    files: Seq<Seq<char>>,
)
    ensures
        field == "mode"@ || field == "permission"@ ==> document::field_edit(
            doc,
            project,
            slug,
            target,
            field,
            value,
            files,
        ) is Err,
        json::entry_fields(edits::agents_of(doc), target) is None ==> document::field_edit(
            doc,
            project,
            slug,
            target,
            field,
            value,
            files,
        ) is Err,
        field != "mode"@ && field != "permission"@ && json::entry_fields(
            edits::agents_of(doc),
            target,
        ) is Some ==> ({
            let c = json::entry_fields(edits::agents_of(doc), target)->Some_0;
            let set = if value == JsonView::Null {
                c.remove(field)
            } else {
                c.insert(field, value)
            };
            let edited = document::with_agents(
                doc,
                edits::agents_of(doc).insert(target, JsonView::Object(set)),
            );
            document::field_edit(doc, project, slug, target, field, value, files) is Ok
                <==> document::doc_check(edited, files) is Ok
        }),
{
}

/// Patching permissions changes nothing but the permission block of the one
/// entry, which then is the patched one; it is refused where there is no such
/// entry and where the document would not be valid.
pub proof fn law_permission_edits_are_surgical(
    doc: JsonView,
    project: Seq<char>,
    slug: Seq<char>,
    target: Seq<char>,
    patch: JsonView,
    files: Seq<Seq<char>>,
)
    ensures
        !(patch is Object) ==> edits::permission_edit(
            doc,
            project,
            slug,
            target,
            patch,
            files,
        ) is Err,
        json::entry_fields(edits::agents_of(doc), target) is None ==> edits::permission_edit(
            doc,
            project,
            slug,
            target,
            patch,
            files,
        ) is Err,
        edits::permission_edit(doc, project, slug, target, patch, files) matches Ok(edited) ==> {
            &&& document::doc_check(edited, files) is Ok
            &&& forall|k: Seq<char>|
                k != "agent"@ ==> #[trigger] json::member(edited, k) == json::member(doc, k)
            &&& forall|k: Seq<char>|
                k != target ==> #[trigger] json::entry(edits::agents_of(edited), k) == json::entry(
                    edits::agents_of(doc),
                    k,
                )
            &&& forall|k: Seq<char>|
                k != "permission"@ ==> #[trigger] json::member(
                    edits::agents_of(edited)[target],
                    k,
                ) == json::member(edits::agents_of(doc)[target], k)
            &&& json::member(edits::agents_of(edited)[target], "permission"@) == Some(
                JsonView::Object(
                    edits::patched(
                        edits::block_of(
                            json::as_fields(edits::agents_of(doc)[target])->Some_0,
                        ),
                        json::as_fields(patch)->Some_0,
                    ),
                ),
            )
        },
{
}

/// The keys that make an entry are all different.
proof fn lemma_entry_keys()
    ensures
        "description"@ != "mode"@,
        "description"@ != "prompt"@,
        "description"@ != "model"@,
        "description"@ != "permission"@,
        "mode"@ != "prompt"@,
        "mode"@ != "model"@,
        "mode"@ != "permission"@,
        "prompt"@ != "model"@,
        "prompt"@ != "permission"@,
        "model"@ != "permission"@,
        "$schema"@ != "agent"@,
{
    reveal_strlit("description");
    reveal_strlit("mode");
    reveal_strlit("prompt");
    reveal_strlit("model");
    reveal_strlit("permission");
    reveal_strlit("$schema");
    reveal_strlit("agent");
    assert("description"@.len() == 11 && "mode"@.len() == 4 && "prompt"@.len() == 6
        && "model"@.len() == 5 && "permission"@.len() == 10 && "$schema"@.len() == 7
        && "agent"@.len() == 5);
}

/// An entry that is built states what it was built from: its description, its
/// mode, its prompt where there is one, its model where one is given; all else
/// is as it was.
pub proof fn law_built_entries_state_what_they_were_given(
    base: Fields,
    mode: Seq<char>,
    description: Seq<char>,
    prompt: Seq<char>,
    model: Option<Seq<char>>,
)
    ensures
        ({
            let cfg = edits::entry_cfg(base, mode, description, prompt, model);
            &&& json::entry_text(cfg, "description"@) == Some(description)
            &&& json::entry_text(cfg, "mode"@) == Some(mode)
            &&& prompt.len() > 0 ==> json::entry_text(cfg, "prompt"@) == Some(prompt)
            &&& prompt.len() == 0 ==> json::entry(cfg, "prompt"@) == json::entry(base, "prompt"@)
            &&& model matches Some(m) ==> json::entry_text(cfg, "model"@) == Some(m)
            &&& model is None ==> json::entry(cfg, "model"@) == json::entry(base, "model"@)
            &&& forall|k: Seq<char>|
                k != "description"@ && k != "mode"@ && k != "prompt"@ && k != "model"@
                    ==> #[trigger] json::entry(cfg, k) == json::entry(base, k)
        }),
{
    lemma_entry_keys();
}

/// A document of one entry has just that, under its name.
pub proof fn law_single_entries_are_alone(slug: Seq<char>, cfg: Fields, k: Seq<char>)
    ensures
        json::entry(edits::agents_of(edits::single_entry_doc(slug, cfg)), slug) == Some(
            JsonView::Object(cfg),
        ),
        k != slug ==> json::entry(edits::agents_of(edits::single_entry_doc(slug, cfg)), k) is None,
        json::member_text(edits::single_entry_doc(slug, cfg), "$schema"@) is Some,
{
    lemma_entry_keys();
}

/// A new agent of a role has one entry, the primary under its slug, with the
/// description and the prompt of that role and no permission block of its own.
pub proof fn law_new_roles_start_with_their_prompt(
    slug: Seq<char>,
    role: AgentRole,
    prompts: RolePrompts,
)
    ensures
        ({
            let doc = edits::role_doc(slug, role, roles::role_prompt(prompts, role));
            let cfg = edits::agents_of(doc)[slug];
            &&& edits::agents_of(doc).dom() =~= set![slug]
            &&& document::is_primary(cfg)
            &&& json::member(cfg, "permission"@) is None
            &&& json::member_text(cfg, "description"@) == Some(roles::role_description(role))
            &&& role == AgentRole::Researcher ==> json::member_text(cfg, "prompt"@) == Some(
                prompts.researcher@,
            )
            &&& role == AgentRole::Tester ==> json::member_text(cfg, "prompt"@) == Some(
                prompts.tester@,
            )
            &&& role == AgentRole::Super ==> json::member_text(cfg, "prompt"@) == Some(
                prompts.super_agent@,
            )
        }),
{
    lemma_entry_keys();
    lemma_single(slug, role, roles::role_prompt(prompts, role));
}

proof fn lemma_single(slug: Seq<char>, role: AgentRole, prompt: Seq<char>)
    ensures
        edits::agents_of(edits::role_doc(slug, role, prompt)).dom() =~= set![slug],
        json::member_text(
            edits::agents_of(edits::role_doc(slug, role, prompt))[slug],
            "mode"@,
        ) == Some("primary"@),
{
    lemma_entry_keys();
}

/// Roles are described differently.
pub proof fn law_roles_are_described_apart(a: AgentRole, b: AgentRole)
    requires
        a != b,
    ensures
        roles::role_description(a) != roles::role_description(b),
        roles::role_hint(a) != roles::role_hint(b),
        roles::role_name(a) != roles::role_name(b),
{
    roles::law_role_name_round_trip(a);
    roles::law_role_name_round_trip(b);
    reveal_strlit("Reads the corpus, the pinned source and the open internet; never executes. Produces cited hypotheses and technique cards.");
    reveal_strlit("Runs adversarial missions against sandboxed targets through the corpus tools (sandbox, oracles, faucet, gated findings). No open internet.");
    reveal_strlit("Research and penetration both: the open internet and the sandbox in one agent.");
    reveal_strlit("reads and curates: target_info + technique_save, plus the open internet. No execution — enforced by the corpus server, not just by config.");
    reveal_strlit("acts in the regtest arena: sandbox, oracles, faucet, findings, attacks. No open internet, so an execution turn cannot pull in untrusted text.");
    reveal_strlit("everything: research and penetration both.");
    assert(roles::role_description(AgentRole::Researcher)[2] == 'a');
    assert(roles::role_description(AgentRole::Tester)[1] == 'u');
    assert(roles::role_description(AgentRole::Super)[2] == 's');
    assert(roles::role_description(AgentRole::Researcher)[1] == 'e');
    assert(roles::role_description(AgentRole::Super)[1] == 'e');
    assert(roles::role_hint(AgentRole::Researcher)[0] == 'r');
    assert(roles::role_hint(AgentRole::Tester)[0] == 'a');
    assert(roles::role_hint(AgentRole::Super)[0] == 'e');
}

/// A new agent's document holds one entry, under its slug, that states what
/// was asked for over what it starts from; the role that was asked for is the
/// one it gets, and without one and without a source it gets the narrowest.
pub proof fn law_new_agents_are_what_was_asked_for(
    slug: Seq<char>,
    description: Seq<char>,
    prompt: Seq<char>,
    model: Option<Seq<char>>,
    base: Option<JsonView>,
    role: Option<AgentRole>,
    files: Seq<Seq<char>>,
)
    ensures
        edits::agent_creation(slug, description, prompt, model, base, role, files) matches Ok(made)
            ==> {
            let cfg = edits::agents_of(made.0)[slug];
            &&& document::doc_check(made.0, files) is Ok
            &&& edits::agents_of(made.0).dom() =~= set![slug]
            &&& document::is_primary(cfg)
            &&& json::member_text(cfg, "description"@) == Some(description)
            &&& prompt.len() > 0 ==> json::member_text(cfg, "prompt"@) == Some(prompt)
            &&& model matches Some(m) ==> json::member_text(cfg, "model"@) == Some(m)
            &&& role matches Some(r) ==> made.1 == r
            &&& role is None && base is None ==> made.1 == AgentRole::Researcher
        },
{
    lemma_entry_keys();
    let cfg = edits::entry_cfg(edits::start_cfg(base), "primary"@, description, prompt, model);
    law_built_entries_state_what_they_were_given(
        edits::start_cfg(base),
        "primary"@,
        description,
        prompt,
        model,
    );
    let doc = edits::single_entry_doc(slug, cfg);
    assert(edits::agents_of(doc) =~= Map::<Seq<char>, JsonView>::empty().insert(
        slug,
        JsonView::Object(cfg),
    ));
    assert(json::member_text(JsonView::Object(cfg), "mode"@) == Some("primary"@));
}

/// An agent that is made from another starts from that one's primary, and where
/// no role is asked for it gets the one that its entry already works under.
pub proof fn law_new_agents_inherit(
    doc: JsonView,
    k: Seq<char>,
    cfg: Fields,
    none: Option<AgentRole>,
)
    requires
        edits::agents_of(doc).dom().finite(),
        json::member_fields(doc, "agent"@) is Some,
        json::entry(edits::agents_of(doc), k) == Some(JsonView::Object(cfg)),
        document::is_primary(JsonView::Object(cfg)),
        forall|j: Seq<char>| #[trigger]
            edits::agents_of(doc).dom().contains(j) && document::is_primary(edits::agents_of(doc)[j])
                ==> j == k,
    ensures
        edits::start_cfg(Some(doc)) == cfg,
        edits::start_cfg(None) == Map::<Seq<char>, JsonView>::empty(),
        edits::start_role(None, Some(doc), cfg) == roles::inferred_role(cfg),
        edits::primary_cfg(edits::agents_of(doc)) == cfg,
{
    let m = edits::agents_of(doc);
    table::lemma_finite_in_order(m.dom());
    edits::lemma_primaries_are_entries(m);
    let ps = document::all_primaries(m);
    assert(ps.contains(k));
    assert(ps.contains(ps[0]));
    assert(ps[0] == k);
}

/// A subagent's name is a slug other than its primary's.
pub proof fn law_subagent_names(slug: Seq<char>, name: Seq<char>)
    ensures
        edits::subagent_name_check(slug, name) is Ok <==> naming::is_slug(name) && name != slug,
{
}

/// A subagent is added under a name that is free, and removed where it is
/// there; what is written then is valid, and nothing but the entry and its
/// primary changes.
pub proof fn law_subagents_come_and_go(
    doc: JsonView,
    project: Seq<char>,
    slug: Seq<char>,
    name: Seq<char>,
    cfg: Fields,
    files: Seq<Seq<char>>,
)
    requires
        name != slug,
        name != "*"@,
    ensures
        edits::agents_of(doc).dom().contains(name) ==> edits::subagent_addition(
            doc,
            project,
            slug,
            name,
            cfg,
            files,
        ) is Err,
        !edits::agents_of(doc).dom().contains(name) ==> edits::subagent_removal(
            doc,
            project,
            slug,
            name,
            files,
        ) is Err,
        edits::subagent_addition(doc, project, slug, name, cfg, files) matches Ok(d) ==> {
            &&& document::doc_check(d, files) is Ok
            &&& json::entry(edits::agents_of(d), name) == Some(JsonView::Object(cfg))
            &&& forall|k: Seq<char>|
                k != name && k != slug ==> #[trigger] json::entry(edits::agents_of(d), k)
                    == json::entry(edits::agents_of(doc), k)
            &&& forall|k: Seq<char>|
                k != "agent"@ ==> #[trigger] json::member(d, k) == json::member(doc, k)
        },
        edits::subagent_removal(doc, project, slug, name, files) matches Ok(d) ==> {
            &&& document::doc_check(d, files) is Ok
            &&& json::entry(edits::agents_of(d), name) is None
            &&& forall|k: Seq<char>|
                k != name && k != slug ==> #[trigger] json::entry(edits::agents_of(d), k)
                    == json::entry(edits::agents_of(doc), k)
            &&& forall|k: Seq<char>|
                k != "agent"@ ==> #[trigger] json::member(d, k) == json::member(doc, k)
        },
{
}

// ---------------------------------------------------------------------
// Roles
// ---------------------------------------------------------------------

/// A researcher may read the target and save techniques, and call nothing
/// else; only a tester does without the open internet.
pub proof fn law_researchers_only_read(tool: Seq<char>)
    ensures
        roles::may_call(AgentRole::Researcher, tool) <==> roles::tool_key(tool)
            == "corpus_target_info"@ || roles::tool_key(tool) == "corpus_technique_save"@,
        roles::reaches_web(AgentRole::Researcher),
        roles::reaches_web(AgentRole::Super),
        !roles::reaches_web(AgentRole::Tester),
{
    let tools = roles::role_tools(AgentRole::Researcher);
    let key = roles::tool_key(tool);
    assert(tools[0] == "corpus_target_info"@);
    assert(tools[1] == "corpus_technique_save"@);
    if tools.contains(key) {
        let i = choose|i: int| 0 <= i < tools.len() && tools[i] == key;
        assert(i == 0 || i == 1);
    }
}

/// The narrower of two roles is one of them and no wider than either, in
/// whatever order they are given.
pub proof fn law_narrower_is_a_minimum(a: AgentRole, b: AgentRole)
    ensures
        roles::narrower(a, b) == a || roles::narrower(a, b) == b,
        roles::rank(roles::narrower(a, b)) <= roles::rank(a),
        roles::rank(roles::narrower(a, b)) <= roles::rank(b),
        roles::narrower(a, b) == roles::narrower(b, a),
        roles::narrower(AgentRole::Researcher, a) == AgentRole::Researcher,
        roles::narrower(a, AgentRole::Super) == a,
        roles::narrower(AgentRole::Tester, AgentRole::Super) == AgentRole::Tester,
{
}

/// A role that is read is the one that is named, whatever white space stands
/// around it.
pub proof fn law_named_roles_are_named(raw: Seq<char>)
    ensures
        roles::named_role(raw) matches Some(r) ==> text::ascii_lowered(text::trimmed(raw))
            == roles::role_name(r),
{
}

/// A permission block grants what it does not mention, and nothing that it
/// denies or asks for.
pub proof fn law_silence_grants(perm: Fields, key: Seq<char>)
    ensures
        json::entry(perm, key) is None ==> roles::grants(perm, key),
        json::entry_text(perm, key) == Some("deny"@) ==> !roles::grants(perm, key),
        json::entry_text(perm, key) == Some("ask"@) ==> !roles::grants(perm, key),
        json::entry_text(perm, key) == Some("allow"@) ==> roles::grants(perm, key),
{
    reveal_strlit("deny");
    reveal_strlit("ask");
    reveal_strlit("allow");
    assert("deny"@.len() == 4 && "ask"@.len() == 3 && "allow"@.len() == 5);
}

/// A role that covers what a block grants may call every tool that the block
/// grants, and reaches the web where the block does.
pub proof fn law_covering_roles_lose_nothing(role: AgentRole, perm: Fields, i: int)
    requires
        roles::covers(role, perm),
        0 <= i < 8,
    ensures
        roles::grants(perm, roles::corpus_tools()[i]) ==> roles::may_call(
            role,
            roles::corpus_tools()[i],
        ),
        roles::grants(perm, "webfetch"@) ==> roles::reaches_web(role),
        roles::grants(perm, "websearch"@) ==> roles::reaches_web(role),
{
}

/// A subagent has the role that it was given where that is no wider than its
/// primary's, and its primary's where it is or where it was given none.
pub proof fn law_subagents_have_their_role(
    meta: SidecarView,
    entry: Seq<char>,
    slug: Seq<char>,
)
    requires
        entry != slug,
    ensures
        meta.role matches Some(r) ==> sidecar::effective_role(meta) == r,
        meta.role is None ==> sidecar::effective_role(meta) == AgentRole::Researcher,
        !meta.subagent_roles.dom().contains(entry) ==> sidecar::role_of_entry(meta, entry, slug)
            == sidecar::effective_role(meta),
        meta.subagent_roles.dom().contains(entry) ==> {
            &&& roles::rank(meta.subagent_roles[entry]) <= roles::rank(
                sidecar::effective_role(meta),
            ) ==> sidecar::role_of_entry(meta, entry, slug) == meta.subagent_roles[entry]
            &&& roles::rank(meta.subagent_roles[entry]) >= roles::rank(
                sidecar::effective_role(meta),
            ) ==> sidecar::role_of_entry(meta, entry, slug) == sidecar::effective_role(meta)
        },
{
}

/// A display name is stored as it is given, less the white space around it; a
/// blank one is the slug.
pub proof fn law_display_names(name: Seq<char>, slug: Seq<char>)
    ensures
        text::all_white(name) ==> sidecar::display_name(name, slug) == slug,
        !text::all_white(name) ==> text::is_padded(sidecar::display_name(name, slug), name)
            && sidecar::display_name(name, slug).len() > 0,
{
    text::law_trimming_takes_only_white_space(name);
}

/// Only an entry of the document gets a role.
pub proof fn law_only_entries_get_roles(
    doc: JsonView,
    project: Seq<char>,
    slug: Seq<char>,
    name: Seq<char>,
)
    ensures
        sidecar::subagent_known(doc, project, slug, name) is Ok <==> edits::agents_of(
            doc,
        ).dom().contains(name),
{
}

proof fn lemma_migrated_entry(m: Fields, slug: Seq<char>, i: nat, at: nat)
    requires
        i <= at < document::names(m).len(),
        document::names(m)[at as int] == slug || document::is_primary(
            m[document::names(m)[at as int]],
        ),
        forall|j: int|
            i <= j < at ==> document::names(m)[j] != slug && !document::is_primary(
                m[#[trigger] document::names(m)[j]],
            ),
    ensures
        sidecar::migrated_entry(m, slug, i) == Some(document::names(m)[at as int]),
    decreases at - i,
{
    if i < at {
        assert(document::names(m)[i as int] != slug);
        lemma_migrated_entry(m, slug, i + 1, at);
    }
}

/// A migration reads the role off the primary: what that entry's block grants,
/// whatever other entries grant; it reports the agent as it is, and sets a
/// role just where it is asked to and there is none.
pub proof fn law_migration_reads_the_primary(agent: AgentView, cfg: Fields, apply: bool)
    requires
        json::member_fields(agent.doc, "agent"@) is Some,
        edits::agents_of(agent.doc).dom().finite(),
        json::entry(edits::agents_of(agent.doc), agent.slug) == Some(JsonView::Object(cfg)),
        forall|k: Seq<char>| #[trigger]
            edits::agents_of(agent.doc).dom().contains(k) && k != agent.slug
                ==> !document::is_primary(edits::agents_of(agent.doc)[k]),
    ensures
        sidecar::migration_row(agent, apply).inferred == roles::inferred_role(cfg),
        sidecar::migration_row(agent, apply).agent == agent.slug,
        sidecar::migration_row(agent, apply).current == agent.meta.role,
        sidecar::migration_row(agent, apply).applied <==> apply && agent.meta.role is None,
        json::entry(cfg, "permission"@) is Some ==> !sidecar::migration_row(
            agent,
            apply,
        ).needs_review,
{
    let m = edits::agents_of(agent.doc);
    table::lemma_finite_in_order(m.dom());
    let ks = document::names(m);
    assert(ks.contains(agent.slug));
    let at = choose|at: int| 0 <= at < ks.len() && ks[at] == agent.slug;
    assert forall|j: int| 0 <= j < at implies ks[j] != agent.slug && !document::is_primary(
        m[#[trigger] ks[j]],
    ) by {
        assert(table::precedes(ks[j], ks[at]));
        table::lemma_precedes_irreflexive(agent.slug);
        assert(ks.contains(ks[j]));
        assert(m.dom().contains(ks[j]));
    }
    lemma_migrated_entry(m, agent.slug, 0, at as nat);
}

// ---------------------------------------------------------------------
// Handles
// ---------------------------------------------------------------------

/// An agent that nobody shares a name with is launched under the slug of its
/// display name, and under its own slug where that gives none.
pub proof fn law_handles_come_from_names(name: Seq<char>, slug: Seq<char>)
    ensures
        name.len() == 0 ==> handles::base_handle(name, slug) == slug,
        name == slug ==> handles::base_handle(name, slug) == slug,
        naming::slug_of(name).len() == 0 ==> handles::base_handle(name, slug) == slug,
        name.len() > 0 && name != slug && naming::slug_of(name).len() > 0 ==> handles::base_handle(
            name,
            slug,
        ) == naming::slug_of(name),
        handles::fragment(slug).is_prefix_of(slug),
        slug.len() >= 8 ==> handles::fragment(slug).len() == 8,
        slug.len() < 8 ==> handles::fragment(slug) == slug,
{
    let f = handles::fragment(slug);
    assert(f =~= slug.subrange(0, f.len() as int));
}

/// A primary is rendered under its handle, and every subagent under its own
/// name.
pub proof fn law_entries_are_rendered_under_their_names(
    agents: Seq<AgentView>,
    slug: Seq<char>,
    entry: Seq<char>,
)
    ensures
        handles::handles(agents).dom().contains(slug) ==> handles::entry_name(
            handles::handles(agents),
            slug,
            slug,
        ) == handles::handles(agents)[slug],
        entry != slug ==> handles::entry_name(handles::handles(agents), slug, entry) == entry,
{
}

proof fn lemma_agent_claims(
    hs: Map<Seq<char>, Seq<char>>,
    slug: Seq<char>,
    m: Fields,
    n: nat,
)
    requires
        n <= document::names(m).len(),
    ensures
        handles::agent_claims(hs, slug, m, n).len() == n,
        forall|k: int|
            0 <= k < n ==> #[trigger] handles::agent_claims(hs, slug, m, n)[k] == (
                handles::entry_name(hs, slug, document::names(m)[k]),
                slug,
            ),
    decreases n,
{
    if n > 0 {
        lemma_agent_claims(hs, slug, m, (n - 1) as nat);
    }
}

proof fn lemma_claims(
    hs: Map<Seq<char>, Seq<char>>,
    agents: Seq<AgentView>,
    n: nat,
    i: int,
    k: int,
)
    requires
        n <= agents.len(),
        0 <= i < n,
        json::member_fields(agents[i].doc, "agent"@) is Some,
        0 <= k < document::names(json::member_fields(agents[i].doc, "agent"@)->Some_0).len(),
    ensures
        handles::claims(hs, agents, n).contains(
            (
                handles::entry_name(
                    hs,
                    agents[i].slug,
                    document::names(json::member_fields(agents[i].doc, "agent"@)->Some_0)[k],
                ),
                agents[i].slug,
            ),
        ),
    decreases n,
{
    let m = json::member_fields(agents[i].doc, "agent"@)->Some_0;
    let one = (handles::entry_name(hs, agents[i].slug, document::names(m)[k]), agents[i].slug);
    let before = handles::claims(hs, agents, (n - 1) as nat);
    let all = handles::claims(hs, agents, n);
    if i == n - 1 {
        lemma_agent_claims(hs, agents[i].slug, m, document::names(m).len());
        assert(all[before.len() + k] == one);
    } else {
        lemma_claims(hs, agents, (n - 1) as nat, i, k);
        let j = choose|j: int| 0 <= j < before.len() && before[j] == one;
        assert(all[j] == one);
    }
}

/// In a project whose names are accepted, every entry of every agent owns the
/// name that it is rendered under.
pub proof fn law_every_entry_owns_its_name(
    agents: Seq<AgentView>,
    project: Seq<char>,
    i: int,
    k: int,
)
    requires
        handles::claimed(agents, project) is Ok,
        0 <= i < agents.len(),
        json::member_fields(agents[i].doc, "agent"@) is Some,
        0 <= k < document::names(json::member_fields(agents[i].doc, "agent"@)->Some_0).len(),
    ensures
        ({
            let owners = handles::claimed(agents, project)->Ok_0;
            let name = handles::entry_name(
                handles::handles(agents),
                agents[i].slug,
                document::names(json::member_fields(agents[i].doc, "agent"@)->Some_0)[k],
            );
            owners.dom().contains(name) && owners[name] == agents[i].slug
        }),
{
    let hs = handles::handles(agents);
    lemma_claims(hs, agents, agents.len(), i, k);
    let all = handles::claims(hs, agents, agents.len());
    let m = json::member_fields(agents[i].doc, "agent"@)->Some_0;
    let one = (handles::entry_name(hs, agents[i].slug, document::names(m)[k]), agents[i].slug);
    let j = choose|j: int| 0 <= j < all.len() && all[j] == one;
    handles::law_rendered_names_have_one_owner(all, all.len(), project);
    assert(all[j].0 == one.0);
}

/// Names that are all different are accepted: only a collision is refused.
pub proof fn law_distinct_names_are_accepted(
    all: Seq<(Seq<char>, Seq<char>)>,
    n: nat,
    project: Seq<char>,
)
    requires
        n <= all.len(),
        forall|i: int, j: int|
            #![trigger all[i], all[j]]
            0 <= i < j < n ==> all[i].0 != all[j].0,
    ensures
        handles::owners(all, n, project) is Ok,
    decreases n,
{
    if n > 0 {
        law_distinct_names_are_accepted(all, (n - 1) as nat, project);
        handles::law_rendered_names_have_one_owner(all, (n - 1) as nat, project);
        let m = handles::owners(all, (n - 1) as nat, project)->Ok_0;
        let name = all[n - 1].0;
        if m.dom().contains(name) {
            let i = choose|i: int| 0 <= i < n - 1 && (#[trigger] all[i]).0 == name;
            assert(all[i].0 != all[n - 1].0);
        }
    }
}

proof fn lemma_open_targets(rules: Fields, n: nat, x: Seq<char>)
    requires
        n <= document::names(rules).len(),
    ensures
        handles::open_targets(rules, n).contains(x) <==> document::names(rules).take(
            n as int,
        ).contains(x) && x != "*"@ && json::as_text(rules[x]) != Some("deny"@),
    decreases n,
{
    let names = document::names(rules);
    if n > 0 {
        lemma_open_targets(rules, (n - 1) as nat, x);
        let fewer = names.take(n - 1);
        assert(names.take(n as int) =~= fewer.push(names[n - 1]));
        document::lemma_push_contains(fewer, names[n - 1], x);
        document::lemma_push_contains(
            handles::open_targets(rules, (n - 1) as nat),
            names[n - 1],
            x,
        );
    } else {
        assert(names.take(0) =~= Seq::empty());
    }
}

/// An entry may delegate to those that its rules name and do not deny, and to
/// nobody else.
pub proof fn law_targets_are_what_the_rules_open(cfg: Fields, block: JsonView, rules: Fields, x: Seq<char>)
    requires
        json::entry(cfg, "permission"@) == Some(block),
        json::member_fields(block, "task"@) == Some(rules),
        rules.dom().finite(),
    ensures
        handles::targets(cfg).contains(x) <==> rules.dom().contains(x) && x != "*"@
            && json::as_text(rules[x]) != Some("deny"@),
{
    table::lemma_finite_in_order(rules.dom());
    let names = document::names(rules);
    lemma_open_targets(rules, names.len(), x);
    assert(names.take(names.len() as int) =~= names);
}

proof fn lemma_targets_accepted(
    name: Seq<char>,
    slug: Seq<char>,
    list: Seq<Seq<char>>,
    i: nat,
    known: Set<Seq<char>>,
    project: Seq<char>,
)
    requires
        forall|k: int| i <= k < list.len() ==> known.contains(#[trigger] list[k]),
    ensures
        handles::targets_check(name, slug, list, i, known, project) is Ok,
    decreases list.len() - i,
{
    if i < list.len() {
        assert(known.contains(list[i as int]));
        lemma_targets_accepted(name, slug, list, i + 1, known, project);
    }
}

/// All that the entries of an agent map may delegate to is known.
pub open spec fn delegates_within(m: Fields, known: Set<Seq<char>>) -> bool {
    forall|k: int, t: int|
        #![trigger document::names(m)[k], handles::targets(json::as_fields(m[document::names(m)[k]])->Some_0)[t]]
        0 <= k < document::names(m).len() && json::as_fields(m[document::names(m)[k]]) is Some && 0
            <= t < handles::targets(json::as_fields(m[document::names(m)[k]])->Some_0).len()
            ==> known.contains(
            handles::targets(json::as_fields(m[document::names(m)[k]])->Some_0)[t],
        )
}

proof fn lemma_agent_accepted(
    slug: Seq<char>,
    m: Fields,
    i: nat,
    known: Set<Seq<char>>,
    project: Seq<char>,
)
    requires
        delegates_within(m, known),
    ensures
        handles::agent_closure(slug, m, i, known, project) is Ok,
    decreases document::names(m).len() - i,
{
    if i < document::names(m).len() {
        let name = document::names(m)[i as int];
        match json::as_fields(m[name]) {
            Some(cfg) => {
                let list = handles::targets(cfg);
                assert forall|k: int| 0 <= k < list.len() implies known.contains(
                    #[trigger] list[k],
                ) by {
                    assert(document::names(m)[i as int] == name);
                    assert(handles::targets(
                        json::as_fields(m[document::names(m)[i as int]])->Some_0,
                    )[k] == list[k]);
                }
                lemma_targets_accepted(name, slug, list, 0, known, project);
            },
            None => {},
        }
        lemma_agent_accepted(slug, m, i + 1, known, project);
    }
}

/// A set of agents that delegate only to what is known is accepted.
pub proof fn law_closed_sets_are_accepted(
    agents: Seq<AgentView>,
    i: nat,
    known: Set<Seq<char>>,
    project: Seq<char>,
)
    requires
        forall|k: int|
            i <= k < agents.len() ==> (json::member_fields(
                (#[trigger] agents[k]).doc,
                "agent"@,
            ) matches Some(m) ==> delegates_within(m, known)),
    ensures
        handles::closure(agents, i, known, project) is Ok,
    decreases agents.len() - i,
{
    if i < agents.len() {
        let a = agents[i as int];
        match json::member_fields(a.doc, "agent"@) {
            Some(m) => {
                lemma_agent_accepted(a.slug, m, 0, known, project);
            },
            None => {},
        }
        law_closed_sets_are_accepted(agents, i + 1, known, project);
    }
}

// ---------------------------------------------------------------------
// Managing
// ---------------------------------------------------------------------

/// The document of an agent lies in the agent's own directory: no other
/// agent's, and no other project's, is the same file.
pub proof fn law_documents_have_their_own_file(
    root: Seq<char>,
    project: Seq<char>,
    a: Seq<char>,
    b: Seq<char>,
)
    requires
        naming::is_slug(a),
        naming::is_slug(b),
    ensures
        manage::doc_file(root, project, a) == path::joined(
            path::joined(layout::agents_path(root, project), a),
            "opencode.json"@,
        ),
        a != b ==> manage::doc_file(root, project, a) != manage::doc_file(root, project, b),
{
    reveal_strlit("opencode.json");
    reveal_strlit("/");
    naming::law_slug_stays_in_place(a);
    naming::law_slug_stays_in_place(b);
    let dir = layout::agents_path(root, project);
    if a != b {
        lemma_joined_apart(dir, a, b);
        let x = path::joined(dir, a);
        let y = path::joined(dir, b);
        assert(x.last() == a.last());
        assert(y.last() == b.last());
        assert(naming::is_slug_char(a[a.len() - 1]));
        assert(naming::is_slug_char(b[b.len() - 1]));
        assert(x.last() != '/' && y.last() != '/');
        let none = Seq::<char>::empty();
        text::lemma_middles_differ(none, x, y, "/"@ + "opencode.json"@);
        assert(none + x + ("/"@ + "opencode.json"@) =~= x + "/"@ + "opencode.json"@);
        assert(none + y + ("/"@ + "opencode.json"@) =~= y + "/"@ + "opencode.json"@);
    }
}

/// Two names that are no paths of their own lie apart in a directory.
pub proof fn lemma_joined_apart(dir: Seq<char>, a: Seq<char>, b: Seq<char>)
    requires
        a != b,
        a.len() > 0,
        b.len() > 0,
        a[0] != '/',
        b[0] != '/',
    ensures
        path::joined(dir, a) != path::joined(dir, b),
{
    let none = Seq::<char>::empty();
    text::lemma_middles_differ(dir, a, b, none);
    text::lemma_middles_differ(dir + "/"@, a, b, none);
    assert(dir + a + none =~= dir + a);
    assert(dir + b + none =~= dir + b);
    assert(dir + "/"@ + a + none =~= dir + "/"@ + a);
    assert(dir + "/"@ + b + none =~= dir + "/"@ + b);
}

/// An agent is loaded just where its document reads as one, and then has that
/// document.
pub proof fn law_agents_load_as_they_are_stored(
    project: Seq<char>,
    slug: Seq<char>,
    raw: Seq<char>,
    why: Seq<char>,
)
    ensures
        manage::loaded_doc(project, slug, Some(Ok(raw))) is Ok <==> json::parsed(raw) is Ok,
        json::parsed(raw) matches Ok(doc) ==> manage::loaded_doc(project, slug, Some(Ok(raw)))
            == Ok::<JsonView, ErrorView>(doc),
        manage::loaded_doc(project, slug, Some(Err(why))) is Err,
        manage::loaded_doc(project, slug, None) is Err,
{
}

/// What is written is the document, to the file that is meant, and a refusal
/// is handed on.
pub proof fn law_documents_are_written_as_they_are(
    file: Seq<char>,
    doc: JsonView,
    e: ErrorView,
)
    ensures
        manage::written(file, Err(e)) == Err::<(Seq<char>, Seq<char>), ErrorView>(e),
        json::pretty(doc) matches Ok(body) ==> manage::written(file, Ok(doc)) == Ok::<
            (Seq<char>, Seq<char>),
            ErrorView,
        >((file, body)),
        json::pretty(doc) is Err ==> manage::written(file, Ok(doc)) is Err,
        manage::both_written(Err(e), None) is Err,
{
}

/// An edit is about the entry that is named, and else about the primary.
pub proof fn law_edits_go_to_their_entry(entry: Seq<char>, slug: Seq<char>)
    ensures
        manage::edit_target(Some(entry), slug) == entry,
        manage::edit_target(None, slug) == slug,
{
}

/// A subagent that is added is written into its agent's document, and its role
/// into the sidecar where it is given one; nobody else's role changes.
pub proof fn law_added_subagents_are_written(
    root: Seq<char>,
    project: Seq<char>,
    slug: Seq<char>,
    name: Seq<char>,
    cfg: Fields,
    role: Option<AgentRole>,
    stored: Option<Result<Seq<char>, Seq<char>>>,
    meta: SidecarView,
    files: Seq<Seq<char>>,
)
    ensures
        manage::subagent_added(root, project, slug, name, cfg, role, stored, meta, files) matches Ok(
            w,
        ) ==> {
            &&& naming::is_slug(name) && name != slug
            &&& w.doc matches Some(d) && d.0 == manage::doc_file(root, project, slug)
            &&& role is None ==> w.meta is None
            &&& role matches Some(r) ==> (w.meta matches Some(m) && {
                &&& m.subagent_roles.dom().contains(name) && m.subagent_roles[name] == r
                &&& m.role == meta.role && m.name == meta.name && m.created == meta.created
                &&& m.cloned_from == meta.cloned_from
                &&& forall|k: Seq<char>|
                    k != name ==> (#[trigger] m.subagent_roles.dom().contains(k)
                        == meta.subagent_roles.dom().contains(k)) && (
                    m.subagent_roles.dom().contains(k) ==> m.subagent_roles[k]
                        == meta.subagent_roles[k])
            })
        },
        manage::subagent_removed(root, project, slug, name, stored, meta, files) matches Ok(w) ==> {
            &&& w.doc matches Some(d) && d.0 == manage::doc_file(root, project, slug)
            &&& !meta.subagent_roles.dom().contains(name) ==> w.meta is None
            &&& meta.subagent_roles.dom().contains(name) ==> (w.meta matches Some(m) && {
                &&& !m.subagent_roles.dom().contains(name)
                &&& m.role == meta.role && m.name == meta.name && m.created == meta.created
            })
        },
{
}

/// A clone is made under a slug that is valid and free, out of an agent that is
/// there; it is written to its own file and remembers where it came from and
/// when it was made.
pub proof fn law_clones_remember_their_source(
    root: Seq<char>,
    project: Seq<char>,
    from: Seq<char>,
    to: Seq<char>,
    stored: Option<Result<Seq<char>, Seq<char>>>,
    taken: bool,
    meta: SidecarView,
    now: u64,
)
    ensures
        manage::agent_clone(root, project, from, to, stored, taken, meta, now) matches Ok(w) ==> {
            &&& naming::is_slug(to) && stored is Some && !taken
            &&& w.meta matches Some(m) && m.name == to && m.created == now && m.cloned_from == Some(
                from,
            )
            &&& w.doc matches Some(d) ==> d.0 == manage::doc_file(root, project, to)
        },
        naming::is_slug(to) && taken ==> manage::agent_clone(
            root,
            project,
            from,
            to,
            stored,
            taken,
            meta,
            now,
        ) is Err,
{
}

/// A copy goes to the project that is named, where there is one and the slug
/// is free there, and remembers the project that it came from.
pub proof fn law_copies_remember_their_source(
    root: Seq<char>,
    from_project: Seq<char>,
    from: Seq<char>,
    to_project: Seq<char>,
    to: Seq<char>,
    stored: Option<Result<Seq<char>, Seq<char>>>,
    project_found: bool,
    taken: bool,
    meta: SidecarView,
    now: u64,
)
    ensures
        manage::agent_copy(
            root,
            from_project,
            from,
            to_project,
            to,
            stored,
            project_found,
            taken,
            meta,
            now,
        ) matches Ok(w) ==> {
            &&& naming::is_slug(to) && stored is Some && project_found && !taken
            &&& w.meta matches Some(m) && m.name == to && m.created == now && m.cloned_from == Some(
                from_project + "/"@ + from,
            )
            &&& w.doc matches Some(d) ==> d.0 == manage::doc_file(root, to_project, to)
        },
{
}

/// What a copy writes is the source's document under the new name: where the
/// source has a primary, the copied document has that entry, under the new
/// slug.
pub proof fn law_copies_hold_the_source(
    file: Seq<char>,
    from_project: Seq<char>,
    from: Seq<char>,
    to: Seq<char>,
    provenance: Seq<char>,
    raw: Seq<char>,
    meta: SidecarView,
    now: u64,
)
    requires
        json::parsed(raw) is Ok,
        edits::primary_lookup(json::parsed(raw)->Ok_0, from_project, from) is Ok,
    ensures
        manage::copied(file, from_project, from, to, provenance, Ok(raw), meta, now) matches Ok(w)
            ==> {
            &&& w.doc matches Some(d) && d.0 == file && json::pretty(
                edits::renamed(json::parsed(raw)->Ok_0, to),
            ) == Ok::<Seq<char>, Seq<char>>(d.1)
            &&& edits::agents_of(edits::renamed(json::parsed(raw)->Ok_0, to)).dom().contains(to)
            &&& edits::agents_of(edits::renamed(json::parsed(raw)->Ok_0, to))[to]
                == JsonView::Object(
                edits::primary_lookup(json::parsed(raw)->Ok_0, from_project, from)->Ok_0,
            )
        },
{
}

/// A new agent is written to its own file with a sidecar that states its name,
/// when it was made, from what, and its role.
pub proof fn law_new_agents_state_their_origin(
    file: Seq<char>,
    slug: Seq<char>,
    from: Option<Seq<char>>,
    doc: JsonView,
    role: AgentRole,
    e: ErrorView,
    now: u64,
)
    ensures
        manage::agent_new(file, slug, from, Err(e), now) is Err,
        manage::agent_new(file, slug, from, Ok((doc, role)), now) matches Ok(w) ==> {
            &&& w.doc matches Some(d) && d.0 == file && json::pretty(doc) == Ok::<
                Seq<char>,
                Seq<char>,
            >(d.1)
            &&& w.meta matches Some(m) && m.name == slug && m.created == now && m.cloned_from == from
                && m.role == Some(role) && m.subagent_roles.dom().len() == 0
        },
{
}

/// A new agent starts from the document of the agent that is named, which has
/// to be there and to read as one; without a name it starts from nothing.
pub proof fn law_new_agents_start_from_what_is_named(
    project: Seq<char>,
    from: Seq<char>,
    raw: Seq<char>,
    stored: Option<Result<Seq<char>, Seq<char>>>,
)
    ensures
        manage::base_doc(project, None, stored) == Ok::<Option<JsonView>, ErrorView>(None),
        json::parsed(raw) matches Ok(doc) ==> manage::base_doc(project, Some(from), Some(Ok(raw)))
            == Ok::<Option<JsonView>, ErrorView>(Some(doc)),
        json::parsed(raw) is Err ==> manage::base_doc(project, Some(from), Some(Ok(raw))) is Err,
        manage::base_doc(project, Some(from), None) is Err,
{
}

/// What lies around a store is the directory that the store lies in.
pub proof fn law_data_lies_around_the_store(root: Seq<char>)
    ensures
        path::parent_of(root) matches Some(p) ==> manage::data_root(root) == p,
        path::parent_of(root) is None ==> manage::data_root(root).len() == 0,
{
}

// ---------------------------------------------------------------------
// Permissions
// ---------------------------------------------------------------------

/// What an entry says of its paths and its shell is kept; where it says
/// nothing, it may read everything, write its own corpus alone, and has no
/// shell.
pub proof fn law_path_defaults_fill_gaps(m: Fields, project: Seq<char>, k: Seq<char>)
    ensures
        ({
            let full = binding::with_path_defaults(m, project);
            &&& m.dom().contains(k) ==> json::entry(full, k) == json::entry(m, k)
            &&& !m.dom().contains("bash"@) ==> json::entry_text(full, "bash"@) == Some("deny"@)
            &&& !m.dom().contains("read"@) ==> (json::entry(full, "read"@) matches Some(
                JsonView::Object(r),
            ) && json::entry_text(r, "*"@) == Some("allow"@))
            &&& !m.dom().contains("write"@) ==> (json::entry(full, "write"@) matches Some(
                JsonView::Object(r),
            ) && json::entry_text(r, "*"@) == Some("deny"@))
            &&& !m.dom().contains("edit"@) ==> (json::entry(full, "edit"@) matches Some(
                JsonView::Object(r),
            ) && json::entry_text(r, "*"@) == Some("deny"@))
        }),
{
    boundary::lemma_plain_keys();
    reveal_strlit("*");
    reveal_strlit("store/projects/");
    let p = binding::project_pattern(project, "corpus"@);
    assert(p[0] == 's');
    assert(p != "*"@) by {
        assert("*"@[0] == '*');
    }
}

/// The host shell of an entry that says nothing of it is denied, and what an
/// entry says of it stands.
pub proof fn law_shell_is_denied_by_default(permission: JsonView, ctx: CtxView)
    requires
        boundary::stored_fields(permission).dom().finite(),
    ensures
        !boundary::stored_fields(permission).dom().contains("bash"@) ==> json::entry_text(
            binding::bound_permission(permission, ctx),
            "bash"@,
        ) == Some("deny"@),
        json::entry_text(boundary::stored_fields(permission), "bash"@) matches Some(a)
            ==> json::entry_text(binding::bound_permission(permission, ctx), "bash"@) == Some(a),
{
    boundary::lemma_plain_keys();
    reveal_strlit("bash");
    assert("bash"@.len() == 4);
    let stored = boundary::stored_fields(permission);
    let full = binding::with_path_defaults(stored, ctx.project);
    law_path_defaults_fill_gaps(stored, ctx.project, "bash"@);
    boundary::lemma_bound_plain(full, ctx, "bash"@);
    let m = boundary::before_tools(permission, ctx);
    boundary::lemma_with_tools(m, ctx.role, 8);
    assert(binding::with_tools(m, ctx.role, 8).dom().contains("bash"@) == m.dom().contains(
        "bash"@,
    ));
}

/// Rules on delegation to agents of the project are kept as they are, with the
/// default that the entry states.
pub proof fn law_stored_delegation_is_kept(m: Fields, known: Set<Seq<char>>, rules: Fields, k: Seq<char>)
    requires
        json::entry(m, "task"@) == Some(JsonView::Object(rules)),
    ensures
        rules.dom().contains(k) && (known.contains(k) || k == "*"@) ==> json::entry(
            binding::bound_task(m, known),
            k,
        ) == Some(rules[k]),
        !rules.dom().contains(k) && k != "*"@ ==> json::entry(binding::bound_task(m, known), k) is None,
        !rules.dom().contains("*"@) ==> json::entry_text(binding::bound_task(m, known), "*"@)
            == Some("deny"@),
{
}

/// An action on all delegation is kept as the default.
pub proof fn law_plain_delegation_is_kept(m: Fields, known: Set<Seq<char>>, action: Seq<char>)
    requires
        json::entry(m, "task"@) == Some(JsonView::Text(action)),
    ensures
        json::entry_text(binding::bound_task(m, known), "*"@) == Some(action),
{
}

/// A rule of every project's subtree is narrowed to the one project; any other
/// rule keeps its pattern.
pub proof fn law_patterns_are_narrowed(key: Seq<char>, rest: Seq<char>, project: Seq<char>)
    ensures
        !text::contains(key, "store/projects/*"@) ==> binding::bound_key(key, project) == key,
        !text::contains(rest, "*"@) ==> binding::bound_key("store/projects/*"@ + rest, project)
            == "store/projects/"@ + project + rest,
{
    let p = "store/projects/*"@;
    let with = "store/projects/"@ + project;
    reveal_strlit("store/projects/*");
    reveal_strlit("*");
    if !text::contains(key, p) {
        text::lemma_replaced_absent(key, p, with);
    }
    if !text::contains(rest, "*"@) {
        let s = p + rest;
        text::lemma_index_from(s, p, 0);
        assert(s.subrange(0, p.len() as int) =~= p);
        assert(text::occurs_at(s, p, 0));
        text::lemma_index_from(s, p, p.len());
        assert forall|j: int| p.len() <= j implies !text::occurs_at(s, p, j) by {
            if text::occurs_at(s, p, j) {
                let at = j + 15;
                assert(s.subrange(j, j + p.len())[15] == p[15]);
                assert(s[at] == '*');
                let r = at - p.len();
                assert(rest[r] == '*');
                assert(rest.subrange(r, r + 1) =~= "*"@);
                assert(text::occurs_at(rest, "*"@, r));
            }
        }
        assert(text::index_from(s, p, 0) == Some(0nat));
        assert(text::index_from(s, p, p.len()) is None);
        assert(s.skip(p.len() as int) =~= rest);
        assert(text::replaced_from(s, p, with, p.len()) == rest);
        assert(s.subrange(0, 0) =~= Seq::<char>::empty());
        assert(Seq::<char>::empty() + with + rest =~= with + rest);
    }
}

/// An agent has the sidecar that was read, and without one a sidecar that only
/// names it.
pub proof fn law_agents_have_their_sidecar(meta: AgentSidecar, slug: Seq<char>)
    ensures
        manage::sidecar_of(Some(meta), slug) == meta@,
        manage::sidecar_of(None, slug).name == slug,
        manage::sidecar_of(None, slug).role is None,
        manage::sidecar_of(None, slug).cloned_from is None,
        manage::sidecar_of(None, slug).subagent_roles =~= Map::empty(),
{
}

} // verus!
