//! What the store is for: that what is put in its place is found there, and
//! that what is summed up is what there is.
use vstd::prelude::*;
use crate::audit;
use crate::error::{Error, ErrorView};
use crate::frontmatter;
use crate::frontmatter::MappingView;
use crate::json;
use crate::json::JsonView;
use crate::path;
use crate::path::Part;
use crate::store::entries;
use crate::store::entries::{EntryAccess, MovePlan, OnDisk};
use crate::store::layout;
use crate::store::layout::CATEGORIES;
use crate::store::missions;
use crate::store::missions::Mission;
use crate::store::naming;
use crate::store::provision;
use crate::store::provision::StepView;
use crate::store::records;
use crate::store::records::{Project, ProjectView};
use crate::store::stats;
use crate::store::stats::FileView;
use crate::store::usage;
use crate::store::usage::{CachedUsage, RowView, UsageReport};
use crate::table;
use crate::text;

verus! {

// ---------------------------------------------------------------------
// Places
// ---------------------------------------------------------------------

/// The names of the fixed directories are plain.
proof fn lemma_fixed_names()
    ensures
        path::is_plain_name("projects"@),
        path::is_plain_name("corpus"@),
        path::is_plain_name("agents"@),
        path::is_plain_name("missions"@),
        path::is_plain_name("runs"@),
        path::is_plain_name("var"@),
        path::is_plain_name("run"@),
        path::is_plain_name("audit"@),
        "corpus"@ != "agents"@,
        "corpus"@ != "missions"@,
        "agents"@ != "missions"@,
{
    reveal_strlit("projects");
    reveal_strlit("corpus");
    reveal_strlit("agents");
    reveal_strlit("missions");
    reveal_strlit("runs");
    reveal_strlit("var");
    reveal_strlit("run");
    reveal_strlit("audit");
    reveal_strlit(".");
    reveal_strlit("..");
    assert("corpus"@[0] == 'c' && "agents"@[0] == 'a' && "missions"@[0] == 'm');
}

/// Everything of a project lies in the project's own directory, each part
/// under its own name, and the directory lies among the projects of the store.
pub proof fn law_projects_hold_their_parts(root: Seq<char>, slug: Seq<char>)
    requires
        naming::is_slug(slug),
    ensures
        path::parts(layout::project_path(root, slug)) == path::parts(root).push(
            Part::Normal("projects"@),
        ).push(Part::Normal(slug)),
        path::parts(layout::corpus_path(root, slug)) == path::parts(
            layout::project_path(root, slug),
        ).push(Part::Normal("corpus"@)),
        path::parts(layout::agents_path(root, slug)) == path::parts(
            layout::project_path(root, slug),
        ).push(Part::Normal("agents"@)),
        path::parts(layout::missions_path(root, slug)) == path::parts(
            layout::project_path(root, slug),
        ).push(Part::Normal("missions"@)),
        path::is_within(layout::corpus_path(root, slug), layout::project_path(root, slug)),
        path::is_within(layout::agents_path(root, slug), layout::project_path(root, slug)),
        path::is_within(layout::missions_path(root, slug), layout::project_path(root, slug)),
        layout::corpus_path(root, slug) != layout::agents_path(root, slug),
        layout::corpus_path(root, slug) != layout::missions_path(root, slug),
        layout::agents_path(root, slug) != layout::missions_path(root, slug),
{
    lemma_fixed_names();
    layout::lemma_slug_is_plain(slug);
    let project = layout::project_path(root, slug);
    path::lemma_parts_join_name(root, "projects"@);
    path::lemma_parts_join_name(layout::projects_path(root), slug);
    path::law_joined_names_lie_in_their_directory(project, "corpus"@);
    path::law_joined_names_lie_in_their_directory(project, "agents"@);
    path::law_joined_names_lie_in_their_directory(project, "missions"@);
    path::lemma_parts_join_name(project, "corpus"@);
    path::lemma_parts_join_name(project, "agents"@);
    path::lemma_parts_join_name(project, "missions"@);
    let c = path::parts(layout::corpus_path(root, slug)).last();
    let a = path::parts(layout::agents_path(root, slug)).last();
    let m = path::parts(layout::missions_path(root, slug)).last();
    assert(c == Part::Normal("corpus"@) && a == Part::Normal("agents"@) && m == Part::Normal(
        "missions"@,
    ));
}

/// Two projects share no directory: neither the project's own nor the one that
/// its runs work in.
pub proof fn law_projects_lie_apart(root: Seq<char>, a: Seq<char>, b: Seq<char>)
    requires
        naming::is_slug(a),
        naming::is_slug(b),
        a != b,
    ensures
        !path::is_within(layout::project_path(root, a), layout::project_path(root, b)),
        layout::run_path(root, a) != layout::run_path(root, b),
        layout::corpus_path(root, a) != layout::corpus_path(root, b),
        audit::log_file(root, a) != audit::log_file(root, b),
{
    lemma_fixed_names();
    layout::lemma_slug_is_plain(a);
    layout::lemma_slug_is_plain(b);
    law_projects_hold_their_parts(root, a);
    law_projects_hold_their_parts(root, b);
    let pa = path::parts(layout::project_path(root, a));
    let pb = path::parts(layout::project_path(root, b));
    assert(pa.last() == Part::Normal(a));
    assert(pb.last() == Part::Normal(b));
    assert(pa.len() == pb.len());
    if pb.is_prefix_of(pa) {
        assert(pb[pb.len() - 1] == pa[pb.len() - 1]);
    }
    let runs = path::joined(layout::var_path(root), "run"@);
    path::lemma_parts_join_name(runs, a);
    path::lemma_parts_join_name(runs, b);
    assert(path::parts(layout::run_path(root, a)).last() == Part::Normal(a));
    assert(path::parts(layout::run_path(root, b)).last() == Part::Normal(b));
    let ca = path::parts(layout::corpus_path(root, a));
    let cb = path::parts(layout::corpus_path(root, b));
    if layout::corpus_path(root, a) == layout::corpus_path(root, b) {
        assert(ca.drop_last() =~= pa);
        assert(cb.drop_last() =~= pb);
    }
    let logs = path::joined(layout::var_path(root), "audit"@);
    lemma_file_is_plain(a, ".jsonl"@);
    lemma_file_is_plain(b, ".jsonl"@);
    path::lemma_parts_join_name(logs, a + ".jsonl"@);
    path::lemma_parts_join_name(logs, b + ".jsonl"@);
    if audit::log_file(root, a) == audit::log_file(root, b) {
        assert(path::parts(audit::log_file(root, a)).last() == Part::Normal(a + ".jsonl"@));
        assert(path::parts(audit::log_file(root, b)).last() == Part::Normal(b + ".jsonl"@));
        let none = Seq::<char>::empty();
        text::lemma_middles_differ(none, a, b, ".jsonl"@);
        assert(none + a + ".jsonl"@ =~= a + ".jsonl"@);
        assert(none + b + ".jsonl"@ =~= b + ".jsonl"@);
    }
}

/// A slug with an ending is a plain file name.
proof fn lemma_file_is_plain(slug: Seq<char>, end: Seq<char>)
    requires
        naming::is_slug(slug),
        end == ".jsonl"@ || end == ".md"@,
    ensures
        path::is_plain_name(slug + end),
{
    reveal_strlit(".jsonl");
    reveal_strlit(".md");
    reveal_strlit(".");
    reveal_strlit("..");
    naming::law_slug_stays_in_place(slug);
    let name = slug + end;
    assert(naming::is_slug_char(slug[0]));
    assert(name[0] == slug[0]);
    assert(!name.contains('/')) by {
        if name.contains('/') {
            let i = choose|i: int| 0 <= i < name.len() && name[i] == '/';
            if i < slug.len() {
                assert(slug[i] == '/');
            } else {
                assert(end[i - slug.len()] == '/');
            }
        }
    }
    assert("."@[0] == '.' && ".."@[0] == '.');
}

/// The run directory lies in the store's side tree, under the project's name,
/// and the store lies where the setting says.
pub proof fn law_runs_lie_beside_the_store(root: Seq<char>, slug: Seq<char>, home: Seq<char>)
    requires
        naming::is_slug(slug),
    ensures
        path::is_within(layout::run_path(root, slug), layout::var_path(root)),
        path::file_name_of(layout::run_path(root, slug)) == Some(slug),
        path::file_name_of(layout::var_path(root)) == Some("var"@),
        layout::root_of(Some(root), home) == root,
        layout::root_of(None, home) == path::joined(home, ".corpus/store"@),
        path::parent_of(root) matches Some(up) ==> path::is_within(layout::var_path(root), up),
{
    lemma_fixed_names();
    layout::lemma_slug_is_plain(slug);
    let var = layout::var_path(root);
    let runs = path::joined(var, "run"@);
    path::lemma_parts_join_name(var, "run"@);
    path::lemma_parts_join_name(runs, slug);
    let all = path::parts(layout::run_path(root, slug));
    assert(path::parts(var) =~= all.subrange(0, path::parts(var).len() as int));
    match path::parent_of(root) {
        Some(up) => {
            path::law_joined_names_lie_in_their_directory(up, "var"@);
        },
        None => {
            path::law_joined_names_lie_in_their_directory(root, "var"@);
        },
    }
}

// ---------------------------------------------------------------------
// Entries
// ---------------------------------------------------------------------

proof fn lemma_none_odd(p: Seq<Part>, i: nat)
    requires
        forall|j: int| i <= j < p.len() ==> (#[trigger] p[j]) is Normal,
    ensures
        entries::first_odd(p, i) is None,
    decreases p.len() - i,
{
    if i < p.len() {
        assert(p[i as int] is Normal);
        lemma_none_odd(p, i + 1);
    }
}

/// Every relative path of plain names in a category may be read; and changed
/// too, where it is neither a transcript nor the category as a whole.
pub proof fn law_entries_of_categories_are_accepted(rel: Seq<char>, access: EntryAccess)
    requires
        rel.len() > 0,
        rel[0] != '/',
        path::all_normal(path::parts(rel)),
        path::parts(rel).len() > 0,
        entries::categories().contains(path::parts(rel)[0]->Normal_0),
    ensures
        entries::path_check(rel, EntryAccess::Read) is Ok,
        path::parts(rel)[0] != Part::Normal("runs"@) && path::parts(rel).len() > 1
            ==> entries::path_check(rel, access) is Ok,
{
    lemma_none_odd(path::parts(rel), 0);
    let first = path::parts(rel)[0];
    assert(first is Normal);
    assert(first == Part::Normal(first->Normal_0));
}

/// The categories are those that a corpus has a directory for.
pub proof fn law_categories(name: Seq<char>)
    ensures
        entries::categories().contains(name) <==> name == "hypotheses"@ || name == "techniques"@
            || name == "findings"@ || name == "attacks"@ || name == "retro"@ || name == "runs"@,
{
    let all = entries::categories();
    assert(all[0] == "hypotheses"@ && all[1] == "techniques"@ && all[2] == "findings"@ && all[3]
        == "attacks"@ && all[4] == "retro"@ && all[5] == "runs"@);
    if all.contains(name) {
        let i = choose|i: int| 0 <= i < all.len() && all[i] == name;
        assert(i == 0 || i == 1 || i == 2 || i == 3 || i == 4 || i == 5);
    }
}

/// What is there and lies in the corpus is handed out, as the path that it
/// leads to; what is not there can not be read.
pub proof fn law_entries_that_are_there_are_found(
    root: Seq<char>,
    project: Seq<char>,
    given: Seq<char>,
    access: EntryAccess,
    disk: Map<Seq<char>, OnDisk>,
    corpus: Seq<char>,
    to: Seq<char>,
)
    requires
        entries::path_check(text::trimmed(given), access) is Ok,
        entries::followed(disk, layout::corpus_path(root, project)) == Ok::<Seq<char>, Seq<char>>(
            corpus,
        ),
    ensures
        entries::found_at(disk, path::joined(corpus, text::trimmed(given)))
            == entries::DiskView::At(to) && path::is_within(to, corpus) ==> entries::corpus_entry(
            root,
            project,
            given,
            access,
            disk,
        ) == Ok::<Seq<char>, ErrorView>(to),
        entries::found_at(disk, path::joined(corpus, text::trimmed(given)))
            == entries::DiskView::At(to) && !path::is_within(to, corpus) ==> entries::corpus_entry(
            root,
            project,
            given,
            access,
            disk,
        ) is Err,
        entries::found_at(disk, path::joined(corpus, text::trimmed(given))) is Absent && access
            != EntryAccess::Destination ==> entries::corpus_entry(
            root,
            project,
            given,
            access,
            disk,
        ) is Err,
{
}

/// A directory is removed only where everything under it is meant.
pub proof fn law_directories_need_recursion(rel: Seq<char>, is_dir: bool, recursive: bool)
    ensures
        entries::delete_check(rel, is_dir, recursive) is Ok <==> !is_dir || recursive,
        entries::mutates(EntryAccess::Mutate),
        entries::mutates(EntryAccess::Destination),
        !entries::mutates(EntryAccess::Read),
{
}

/// A move goes from where it starts to where it ends, is refused where
/// something is there that is not to be replaced, and does nothing where both
/// ends are one.
pub proof fn law_moves_replace_only_when_asked(
    src: Seq<char>,
    dst: Seq<char>,
    to: Seq<char>,
    overwrite: bool,
    taken: bool,
    e: ErrorView,
)
    ensures
        entries::entry_move(Ok(src), Ok(dst), to, overwrite, taken) matches Ok(m) ==> m.0 == src
            && m.1 == dst && (m.2 == MovePlan::Replace ==> overwrite && taken) && (m.2
            == MovePlan::Nothing <==> path::parts(src) == path::parts(dst)),
        entries::entry_move(Ok(src), Ok(dst), to, overwrite, taken) is Err <==> path::parts(src)
            != path::parts(dst) && taken && !overwrite,
        entries::entry_move(Err(e), Ok(dst), to, overwrite, taken) is Err,
        entries::entry_move(Ok(src), Err(e), to, overwrite, taken) is Err,
{
}

// ---------------------------------------------------------------------
// Missions
// ---------------------------------------------------------------------

/// A mission lies among its project's missions, under its slug, and the slug
/// is read back off the file.
pub proof fn law_missions_are_filed_under_their_slug(
    root: Seq<char>,
    project: Seq<char>,
    slug: Seq<char>,
)
    requires
        naming::is_slug(slug),
    ensures
        path::file_name_of(missions::mission_file(root, project, slug)) == Some(slug + ".md"@),
        path::is_within(
            missions::mission_file(root, project, slug),
            layout::missions_path(root, project),
        ),
        missions::mission_slug_of(slug + ".md"@) == Some(slug),
{
    lemma_file_is_plain(slug, ".md"@);
    path::law_joined_names_lie_in_their_directory(
        layout::missions_path(root, project),
        slug + ".md"@,
    );
    reveal_strlit(".md");
    reveal_strlit("md");
    reveal_strlit(".");
    assert("md"@[0] == 'm' && "md"@[1] == 'd' && "md"@.len() == 2);
    assert(naming::is_slug_char(slug[0]));
    assert(slug != "."@) by {
        assert("."@[0] == '.');
    }
    path::law_extension_follows_the_last_dot(slug, "md"@);
    let name = slug + ".md"@;
    assert(slug.push('.') + "md"@ =~= name);
    assert(".md"@ =~= name.subrange(name.len() - 3, name.len() as int));
    assert(name.take(name.len() - 3) =~= slug);
}

/// A mission is written where its slug is one, its project is there and its
/// agent loads; its file holds the record and the brief.
pub proof fn law_missions_hold_their_brief(
    root: Seq<char>,
    project: Seq<char>,
    slug: Seq<char>,
    project_found: bool,
    agent: Seq<char>,
    agent_loaded: Result<(), ErrorView>,
    head: Seq<char>,
    brief: Seq<char>,
)
    ensures
        missions::mission_write(
            root,
            project,
            slug,
            project_found,
            agent,
            agent_loaded,
            head,
            brief,
        ) is Ok <==> naming::is_slug(slug) && project_found && agent_loaded is Ok,
        missions::mission_write(
            root,
            project,
            slug,
            project_found,
            agent,
            agent_loaded,
            head,
            brief,
        ) matches Ok(w) ==> {
            &&& w.0 == missions::mission_file(root, project, slug)
            &&& brief.is_suffix_of(w.1)
            &&& ("---\n"@ + head).is_prefix_of(w.1)
        },
{
    let t = missions::mission_text(head, brief);
    assert(brief =~= t.subrange(t.len() - brief.len(), t.len() as int));
    let begin = "---\n"@ + head;
    assert(begin =~= t.subrange(0, begin.len() as int));
}

/// A mission names an agent.
pub proof fn law_missions_name_an_agent(m: Mission, why: String)
    ensures
        missions::mission_check(Ok(m)) is Ok <==> m.agent@.len() > 0,
        missions::mission_check(Ok(m)) matches Ok(x) ==> x == m,
        missions::mission_check(Err(why)) is Err,
{
}

/// The scope is the slug that the setting names, less the white space around
/// it, and nothing where it names none.
pub proof fn law_scope_is_what_is_set(value: Seq<char>)
    ensures
        missions::scope_slug(None) is Err,
        missions::scope_slug(Some(value)) is Ok <==> naming::is_slug(text::trimmed(value)),
        missions::scope_slug(Some(value)) matches Ok(slug) ==> text::is_padded(slug, value)
            && naming::is_slug(slug),
{
    text::law_trimming_takes_only_white_space(value);
}

// ---------------------------------------------------------------------
// Provisioning
// ---------------------------------------------------------------------

/// A run directory links its own project, under the project's name, and the
/// sources; and the skills where there are any.
pub proof fn law_run_dirs_link_what_runs_need(
    root: Seq<char>,
    slug: Seq<char>,
    sources: Seq<char>,
    resources: Seq<char>,
    skills: bool,
)
    ensures
        ({
            let steps = provision::provision_steps(root, slug, sources, resources, skills);
            let run = layout::run_path(root, slug);
            &&& steps.contains(
                StepView::Link {
                    target: layout::project_path(root, slug),
                    link: path::joined(
                        path::joined(path::joined(run, "store"@), "projects"@),
                        slug,
                    ),
                },
            )
            &&& steps.contains(
                StepView::Link { target: sources, link: path::joined(run, "sources"@) },
            )
            &&& steps.contains(
                StepView::MakeDir(path::joined(path::joined(run, ".opencode"@), "agent"@)),
            )
            &&& steps.contains(StepView::MakeDir(sources))
            &&& skills ==> steps.contains(
                StepView::Link {
                    target: path::joined(path::joined(resources, ".opencode"@), "skills"@),
                    link: path::joined(path::joined(run, ".opencode"@), "skills"@),
                },
            )
            &&& steps.len() == (if skills {
                6int
            } else {
                5
            })
        }),
{
    let steps = provision::provision_steps(root, slug, sources, resources, skills);
    assert(steps[0] is MakeDir);
    assert(steps[2] is Link);
    assert(steps[3] is MakeDir);
    assert(steps[4] is Link);
    if skills {
        assert(steps[5] is Link);
    }
}

/// The tool server of a run is the one that is given, with the plugins of the
/// directory that is given.
pub proof fn law_run_config_starts_the_server(
    root: Seq<char>,
    slug: Seq<char>,
    plugin: Seq<char>,
    plugins: Seq<char>,
    server: Seq<char>,
)
    ensures
        ({
            let config = provision::run_config(root, slug, plugin, plugins, server);
            let corpus = json::member(json::member(config, "mcp"@)->Some_0, "corpus"@)->Some_0;
            let environment = json::member(corpus, "environment"@)->Some_0;
            &&& json::member(corpus, "command"@) == Some(
                JsonView::Array(seq![JsonView::Text(server)]),
            )
            &&& json::member(corpus, "enabled"@) == Some(JsonView::Bool(true))
            &&& json::member_text(corpus, "type"@) == Some("local"@)
            &&& json::member_text(environment, "CORPUS_PLUGINS_DIR"@) == Some(plugins)
        }),
{
    reveal_strlit("mcp");
    reveal_strlit("$schema");
    reveal_strlit("command");
    reveal_strlit("environment");
    reveal_strlit("enabled");
    reveal_strlit("timeout");
    reveal_strlit("type");
    reveal_strlit("CORPUS_PLUGINS_DIR");
    reveal_strlit("CORPUS_PLUGIN_DIR");
    assert("mcp"@.len() == 3 && "$schema"@.len() == 7 && "command"@.len() == 7
        && "environment"@.len() == 11 && "enabled"@.len() == 7 && "timeout"@.len() == 7
        && "type"@.len() == 4);
    assert("command"@[0] == 'c' && "enabled"@[0] == 'e' && "timeout"@[0] == 't');
    assert("CORPUS_PLUGINS_DIR"@.len() == 18 && "CORPUS_PLUGIN_DIR"@.len() == 17);
}

// ---------------------------------------------------------------------
// Projects
// ---------------------------------------------------------------------

/// A project is created under a slug that is one and is free, as it was asked
/// for, without pins and from nothing.
pub proof fn law_projects_are_created_as_asked(
    slug: Seq<char>,
    name: Seq<char>,
    plugin: Seq<char>,
    taken: bool,
    now: u64,
)
    ensures
        records::created_project(slug, name, plugin, taken, now) is Ok <==> naming::is_slug(slug)
            && !taken,
        records::created_project(slug, name, plugin, taken, now) matches Ok(p) ==> {
            &&& p.name == name
            &&& p.plugin == plugin
            &&& p.created == now
            &&& p.cloned_from is None
            &&& p.corpus_generation == 0
            &&& p.pins =~= Map::empty()
        },
{
}

/// A project is loaded just where its record reads as one, and then is that.
pub proof fn law_projects_load_as_they_are_stored(slug: Seq<char>, p: Project, why: String)
    ensures
        records::loaded_project(slug, Some(Ok(p))) == Ok::<ProjectView, ErrorView>(p@),
        records::loaded_project(slug, Some(Err(why))) is Err,
        records::loaded_project(slug, None) is Err,
{
}

/// A clone has the name that is asked for, and else its source's.
pub proof fn law_clones_are_named_as_asked(name: Seq<char>, source: ProjectView)
    ensures
        records::clone_name(Some(name), source) == name,
        records::clone_name(None, source) == source.name,
{
}

/// A corpus has a directory for each category.
pub proof fn law_every_category_has_a_directory(root: Seq<char>, slug: Seq<char>, n: nat)
    requires
        n <= 6,
    ensures
        records::category_dirs(root, slug, n).len() == n,
        forall|i: int|
            0 <= i < n ==> #[trigger] records::category_dirs(root, slug, n)[i] == path::joined(
                layout::corpus_path(root, slug),
                CATEGORIES@[i]@,
            ),
    decreases n,
{
    if n > 0 {
        law_every_category_has_a_directory(root, slug, (n - 1) as nat);
    }
}

/// Every record that could be read is listed, and nothing else is.
pub proof fn law_readable_records_are_listed<V>(found: Seq<(String, Result<V, Error>)>, n: nat)
    requires
        n <= found.len(),
    ensures
        forall|i: int|
            0 <= i < n && (#[trigger] found[i]).1 is Ok ==> records::readable(found, n).contains(
                (found[i].0, found[i].1->Ok_0),
            ),
        forall|k: int|
            0 <= k < records::readable(found, n).len() ==> was_read(
                found,
                n,
                #[trigger] records::readable(found, n)[k],
            ),
    decreases n,
{
    if n > 0 {
        law_readable_records_are_listed(found, (n - 1) as nat);
        let before = records::readable(found, (n - 1) as nat);
        let all = records::readable(found, n);
        assert forall|i: int| 0 <= i < n && (#[trigger] found[i]).1 is Ok implies all.contains(
            (found[i].0, found[i].1->Ok_0),
        ) by {
            let one = (found[i].0, found[i].1->Ok_0);
            if i < n - 1 {
                let k = choose|k: int| 0 <= k < before.len() && before[k] == one;
                assert(all[k] == one);
            } else {
                assert(all[all.len() - 1] == one);
            }
        }
        assert forall|k: int| 0 <= k < all.len() implies was_read(found, n, #[trigger] all[k]) by {
            if k < before.len() {
                assert(all[k] == before[k]);
                let i = choose|i: int|
                    0 <= i < n - 1 && (#[trigger] found[i]).0 == before[k].0 && found[i].1 is Ok
                        && found[i].1->Ok_0 == before[k].1;
                assert(found[i].0 == all[k].0);
            } else {
                assert(found[n - 1].0 == all[k].0);
            }
        }
    }
}

/// A listed record is one of the first that were read.
pub open spec fn was_read<V>(
    found: Seq<(String, Result<V, Error>)>,
    n: nat,
    one: (String, V),
) -> bool {
    exists|i: int|
        0 <= i < n && (#[trigger] found[i]).0 == one.0 && found[i].1 is Ok && found[i].1->Ok_0
            == one.1
}

// ---------------------------------------------------------------------
// Summaries
// ---------------------------------------------------------------------

/// A file below a category's directory is of that category; what lies at the
/// root or anywhere else is one of the others.
pub proof fn law_files_are_of_their_category(rel: Seq<char>, name: Seq<char>)
    ensures
        path::parts(rel).len() > 1 && path::parts(rel)[0] == Part::Normal(name)
            && entries::categories().contains(name) ==> stats::category_of(rel) == name,
        path::parts(rel).len() > 1 && path::parts(rel)[0] == Part::Normal(name)
            && !entries::categories().contains(name) ==> stats::category_of(rel) == "other"@,
        path::parts(rel).len() <= 1 ==> stats::category_of(rel) == "other"@,
{
}

/// One file more counts once for its own category, with all its bytes, and for
/// no other.
pub proof fn law_files_count_for_their_category(
    files: Seq<FileView>,
    f: FileView,
    name: Seq<char>,
)
    ensures
        stats::category_of(f.rel) == name ==> stats::share(files.push(f), name).files
            == stats::share(files, name).files + 1 && stats::share(files.push(f), name).bytes
            == stats::share(files, name).bytes + f.bytes,
        stats::category_of(f.rel) != name ==> stats::share(files.push(f), name).files
            == stats::share(files, name).files && stats::share(files.push(f), name).bytes
            == stats::share(files, name).bytes,
        stats::share(files, name).name == name,
        stats::share(Seq::empty(), name).files == 0,
        stats::total_bytes(files.push(f), files.len() + 1) == stats::total_bytes(
            files,
            files.len(),
        ) + f.bytes,
{
    lemma_counts_prefix(files, f, name, files.len());
}

proof fn lemma_counts_prefix(files: Seq<FileView>, f: FileView, name: Seq<char>, n: nat)
    requires
        n <= files.len(),
    ensures
        stats::count_in(files.push(f), name, n) == stats::count_in(files, name, n),
        stats::bytes_in(files.push(f), name, n) == stats::bytes_in(files, name, n),
        stats::total_bytes(files.push(f), n) == stats::total_bytes(files, n),
    decreases n,
{
    if n > 0 {
        lemma_counts_prefix(files, f, name, (n - 1) as nat);
        assert(files.push(f)[n - 1] == files[n - 1]);
    }
}

/// A transcript is listed under the mission and the start that its name tells,
/// with its size and its kind.
pub proof fn law_logs_tell_their_mission(
    started: u64,
    mission: Seq<char>,
    ext: Seq<char>,
    bytes: u64,
)
    requires
        mission.len() > 0,
        !ext.contains('.'),
    ensures
        ({
            let name = text::decimal(started as nat) + "-"@ + mission + "."@ + ext;
            let log = stats::log_of(name, bytes);
            &&& log.name == name
            &&& log.started == started
            &&& log.mission == mission
            &&& log.kind == ext
            &&& log.bytes == bytes
        }),
{
    reveal_strlit("-");
    reveal_strlit(".");
    let at = text::decimal(started as nat);
    let stem = at + "-"@ + mission;
    let name = stem + "."@ + ext;
    text::lemma_decimal_value(started as nat);
    assert(text::is_digit(at[0]));
    assert(stem[0] == at[0]);
    assert(stem != "."@) by {
        assert("."@[0] == '.');
    }
    path::law_extension_follows_the_last_dot(stem, ext);
    assert(stem.push('.') + ext =~= name);
    assert(name.take(name.len() - ext.len() - 1) =~= stem);
    text::lemma_index_from(stem, "-"@, 0);
    assert(stem.subrange(at.len() as int, (at.len() + 1) as int) =~= "-"@);
    assert(text::occurs_at(stem, "-"@, at.len() as int));
    let i = text::index_from(stem, "-"@, 0)->Some_0;
    assert(i <= at.len());
    if i < at.len() {
        assert(stem.subrange(i as int, i as int + 1)[0] == '-');
        assert(stem[i as int] == at[i as int]);
        assert(text::is_digit(at[i as int]));
    }
    assert(stem.take(at.len() as int) =~= at);
    assert(stem.skip((at.len() + 1) as int) =~= mission);
    assert(at[0] != '+');
    assert(text::parsed_u64(at) == Some(started));
}

// ---------------------------------------------------------------------
// Usage
// ---------------------------------------------------------------------

/// A message that an assistant sent is counted once, for the provider and the
/// model that it names, with every number that it states; no other message is
/// counted.
pub proof fn law_messages_are_read_as_they_are(message: JsonView)
    ensures
        ({
            let info = usage::value_at(message, "info"@);
            let tokens = usage::value_at(info, "tokens"@);
            let cache = usage::value_at(tokens, "cache"@);
            &&& json::member_text(info, "role"@) != Some("assistant"@) ==> usage::message_row(
                message,
            ) is None && usage::message_tokens(message) == 0
            &&& json::member_text(info, "role"@) == Some("assistant"@) ==> (usage::message_row(
                message,
            ) matches Some(r) && {
                &&& r.messages == 1
                &&& json::member_text(info, "providerID"@) matches Some(p) ==> r.provider == p
                &&& json::member_text(info, "modelID"@) matches Some(m) ==> r.model.is_suffix_of(m)
                    && !r.model.contains('/')
                &&& json::member_text(info, "modelID"@) matches Some(m) ==> (!m.contains('/')
                    ==> r.model == m)
                &&& r.tokens_input == usage::count_at(tokens, "input"@)
                &&& r.tokens_output == usage::count_at(tokens, "output"@)
                &&& r.tokens_reasoning == usage::count_at(tokens, "reasoning"@)
                &&& r.cache_read == usage::count_at(cache, "read"@)
                &&& r.cache_write == usage::count_at(cache, "write"@)
                &&& json::member(info, "cost"@) matches Some(JsonView::Number(n)) ==> r.costs
                    == seq![n]
                &&& usage::message_tokens(message) == usage::count_at(tokens, "total"@)
            })
        }),
{
    let info = usage::value_at(message, "info"@);
    match json::member_text(info, "modelID"@) {
        Some(m) => {
            text::law_pieces_make_the_text(m, '/');
            lemma_last_piece_ends(m);
            let all = text::pieces(m, '/');
            assert(all[all.len() - 1] == all.last());
            if !m.contains('/') {
                text::law_text_without_separator_is_one_piece(m, '/');
            }
        },
        None => {},
    }
}

proof fn lemma_last_piece_ends(s: Seq<char>)
    ensures
        text::pieces(s, '/').last().is_suffix_of(s),
    decreases s.len(),
{
    let last = text::pieces(s, '/').last();
    if s.len() > 0 && s.last() != '/' {
        lemma_last_piece_ends(s.drop_last());
        let before = text::pieces(s.drop_last(), '/').last();
        assert(last == before.push(s.last()));
        let rest = s.drop_last();
        assert(before =~= rest.subrange(rest.len() - before.len(), rest.len() as int));
        assert(last =~= s.subrange(s.len() - last.len(), s.len() as int));
    } else {
        assert(last =~= s.subrange(s.len() - last.len(), s.len() as int));
    }
}

/// A number under a key is the one that is written there; where there is none,
/// nothing is counted.
pub proof fn law_counts_are_read_as_they_are(v: JsonView, key: Seq<char>, n: u64)
    ensures
        json::member(v, key) == Some(JsonView::Number(text::decimal(n as nat))) ==> usage::count_at(
            v,
            key,
        ) == n,
        json::member(v, key) is None ==> usage::count_at(v, key) == 0,
{
    text::lemma_decimal_value(n as nat);
    let d = text::decimal(n as nat);
    assert(text::is_digit(d[0]));
    assert(d[0] != '+');
    assert(text::parsed_u64(d) == Some(n));
}

proof fn lemma_merged_prefix(
    rows: Seq<RowView>,
    e: RowView,
    n: nat,
    provider: Seq<char>,
    model: Seq<char>,
)
    requires
        n <= rows.len(),
    ensures
        usage::merged(rows.push(e), n, provider, model) == usage::merged(
            rows,
            n,
            provider,
            model,
        ),
    decreases n,
{
    if n > 0 {
        lemma_merged_prefix(rows, e, (n - 1) as nat, provider, model);
        assert(rows.push(e)[n - 1] == rows[n - 1]);
    }
}

/// One entry more raises every count of its own provider and model by what it
/// counts, and leaves every other as it is.
pub proof fn law_entries_add_to_their_own_row(
    rows: Seq<RowView>,
    e: RowView,
    provider: Seq<char>,
    model: Seq<char>,
)
    ensures
        ({
            let before = usage::merged(rows, rows.len(), provider, model);
            let after = usage::merged(rows.push(e), rows.len() + 1, provider, model);
            &&& e.provider != provider || e.model != model ==> after == before
            &&& e.provider == provider && e.model == model ==> (after matches Some(r) && {
                &&& before is None ==> r.messages == e.messages && r.tokens_input == e.tokens_input
                    && r.tokens_output == e.tokens_output && r.tokens_reasoning
                    == e.tokens_reasoning && r.cache_read == e.cache_read && r.cache_write
                    == e.cache_write && r.costs =~= e.costs
                &&& before matches Some(b) ==> r.messages == b.messages + e.messages
                    && r.tokens_input == b.tokens_input + e.tokens_input && r.tokens_output
                    == b.tokens_output + e.tokens_output && r.tokens_reasoning
                    == b.tokens_reasoning + e.tokens_reasoning && r.cache_read == b.cache_read
                    + e.cache_read && r.cache_write == b.cache_write + e.cache_write && r.costs
                    =~= b.costs + e.costs
            })
        }),
        usage::merged(Seq::empty(), 0, provider, model) is None,
{
    lemma_merged_prefix(rows, e, rows.len(), provider, model);
    assert(rows.push(e)[rows.len() as int] == e);
}

proof fn lemma_merged_is_some(rows: Seq<RowView>, n: nat, p: Seq<char>, m: Seq<char>)
    requires
        n <= rows.len(),
    ensures
        usage::merged(rows, n, p, m) is Some <==> exists|i: int|
            0 <= i < n && (#[trigger] rows[i]).provider == p && rows[i].model == m,
        usage::merged(rows, n, p, m) matches Some(r) ==> r.provider == p && r.model == m,
    decreases n,
{
    if n > 0 {
        lemma_merged_is_some(rows, (n - 1) as nat, p, m);
        if rows[n - 1].provider == p && rows[n - 1].model == m {
            assert(usage::merged(rows, n, p, m) is Some);
        }
    }
}

/// The texts of a row, as a set, are finite.
proof fn lemma_sets_finite(rows: Seq<RowView>, p: Seq<char>)
    ensures
        usage::models_of(rows, p).finite(),
        usage::providers_of(rows).finite(),
{
    let ms = Seq::new(rows.len(), |i: int| rows[i].model);
    let ps = Seq::new(rows.len(), |i: int| rows[i].provider);
    vstd::seq_lib::seq_to_set_is_finite(ms);
    vstd::seq_lib::seq_to_set_is_finite(ps);
    assert forall|m: Seq<char>| usage::models_of(rows, p).contains(m) implies ms.to_set().contains(
        m,
    ) by {
        lemma_merged_is_some(rows, rows.len(), p, m);
        let i = choose|i: int|
            0 <= i < rows.len() && (#[trigger] rows[i]).provider == p && rows[i].model == m;
        assert(ms[i] == m);
    }
    assert forall|q: Seq<char>| usage::providers_of(rows).contains(q) implies ps.to_set().contains(
        q,
    ) by {
        let m = choose|m: Seq<char>| #[trigger]
            usage::merged(rows, rows.len(), q, m) is Some;
        lemma_merged_is_some(rows, rows.len(), q, m);
        let i = choose|i: int|
            0 <= i < rows.len() && (#[trigger] rows[i]).provider == q && rows[i].model == m;
        assert(ps[i] == q);
    }
    vstd::set_lib::lemma_set_subset_finite(ms.to_set(), usage::models_of(rows, p));
    vstd::set_lib::lemma_set_subset_finite(ps.to_set(), usage::providers_of(rows));
}

proof fn lemma_model_sums(rows: Seq<RowView>, p: Seq<char>, models: Seq<Seq<char>>, n: nat)
    requires
        n <= models.len(),
    ensures
        usage::model_sums(rows, p, models, n).len() == n,
        forall|i: int|
            0 <= i < n ==> #[trigger] usage::model_sums(rows, p, models, n)[i] == usage::merged(
                rows,
                rows.len(),
                p,
                models[i],
            )->Some_0,
    decreases n,
{
    if n > 0 {
        lemma_model_sums(rows, p, models, (n - 1) as nat);
    }
}

proof fn lemma_provider_sums(
    rows: Seq<RowView>,
    providers: Seq<Seq<char>>,
    n: nat,
    at: int,
    model: Seq<char>,
)
    requires
        0 <= at < n <= providers.len(),
        usage::merged(rows, rows.len(), providers[at], model) is Some,
    ensures
        usage::provider_sums(rows, providers, n).contains(
            usage::merged(rows, rows.len(), providers[at], model)->Some_0,
        ),
    decreases n,
{
    let before = usage::provider_sums(rows, providers, (n - 1) as nat);
    let p = providers[n - 1];
    lemma_sets_finite(rows, p);
    let set = usage::models_of(rows, p);
    table::lemma_finite_in_order(set);
    let models = table::in_order(set);
    let more = usage::model_sums(rows, p, models, models.len());
    lemma_model_sums(rows, p, models, models.len());
    let all = usage::provider_sums(rows, providers, n);
    assert(all == before + more);
    let one = usage::merged(rows, rows.len(), providers[at], model)->Some_0;
    if at == n - 1 {
        assert(set.contains(model));
        assert(models.contains(model));
        let k = choose|k: int| 0 <= k < models.len() && models[k] == model;
        assert(more[k] == one);
        assert(all[before.len() + k] == one);
    } else {
        lemma_provider_sums(rows, providers, (n - 1) as nat, at, model);
        let k = choose|k: int| 0 <= k < before.len() && before[k] == one;
        assert(all[k] == one);
    }
}

/// Whatever any entry counts for is in the report: every provider and model
/// that has an entry has its row there, with its sum.
pub proof fn law_nothing_is_left_out_of_the_report(rows: Seq<RowView>, i: int)
    requires
        0 <= i < rows.len(),
    ensures
        usage::merged(rows, rows.len(), rows[i].provider, rows[i].model) is Some,
        usage::sums(rows).contains(
            usage::merged(rows, rows.len(), rows[i].provider, rows[i].model)->Some_0,
        ),
{
    let p = rows[i].provider;
    let m = rows[i].model;
    lemma_merged_is_some(rows, rows.len(), p, m);
    lemma_sets_finite(rows, p);
    let set = usage::providers_of(rows);
    table::lemma_finite_in_order(set);
    let providers = table::in_order(set);
    assert(set.contains(p));
    assert(providers.contains(p));
    let at = choose|at: int| 0 <= at < providers.len() && providers[at] == p;
    lemma_provider_sums(rows, providers, providers.len(), at, m);
}

/// What is kept of a file is good until the file changes: until its time or
/// its length is another.
pub proof fn law_kept_usage_is_good_until_the_file_changes(
    files: Map<Seq<char>, CachedUsage>,
    path: Seq<char>,
    modified: Option<u64>,
    len: u64,
    report: UsageReport,
    later: Option<u64>,
    longer: u64,
)
    ensures
        usage::is_current(
            files.insert(path, CachedUsage { modified, len, report }),
            path,
            later,
            longer,
        ) <==> later == modified && longer == len,
        !files.dom().contains(path) ==> !usage::is_current(files, path, modified, len),
{
}

/// The reports of all files are added up, one for each file.
pub proof fn law_every_kept_report_is_added_up(files: Map<Seq<char>, CachedUsage>, p: Seq<char>)
    requires
        files.dom().finite(),
        files.dom().contains(p),
    ensures
        usage::kept_reports(files).contains(files[p].report),
        usage::kept_reports(files).len() == table::in_order(files.dom()).len(),
{
    table::lemma_finite_in_order(files.dom());
    let ks = table::in_order(files.dom());
    assert(ks.contains(p));
    let i = choose|i: int| 0 <= i < ks.len() && ks[i] == p;
    assert(usage::kept_reports(files)[i] == files[p].report);
}

/// Reports that are put together count together: the rows of both, and the
/// tokens of both.
pub proof fn law_reports_add_up(reports: Seq<UsageReport>, r: UsageReport)
    ensures
        usage::report_tokens(reports.push(r), reports.len() + 1) == usage::report_tokens(
            reports,
            reports.len(),
        ) + r.tokens,
        usage::report_rows(reports.push(r), reports.len() + 1) == usage::report_rows(
            reports,
            reports.len(),
        ) + usage::row_views(r.rows@),
{
    lemma_reports_prefix(reports, r, reports.len());
    assert(reports.push(r)[reports.len() as int] == r);
}

proof fn lemma_reports_prefix(reports: Seq<UsageReport>, r: UsageReport, n: nat)
    requires
        n <= reports.len(),
    ensures
        usage::report_tokens(reports.push(r), n) == usage::report_tokens(reports, n),
        usage::report_rows(reports.push(r), n) == usage::report_rows(reports, n),
    decreases n,
{
    if n > 0 {
        lemma_reports_prefix(reports, r, (n - 1) as nat);
        assert(reports.push(r)[n - 1] == reports[n - 1]);
    }
}

/// Every message of an assistant is an entry of its transcript, and the
/// transcript's tokens are those of its messages.
pub proof fn law_transcripts_count_their_messages(messages: Seq<JsonView>, message: JsonView)
    ensures
        usage::tokens_of(messages.push(message), messages.len() + 1) == usage::tokens_of(
            messages,
            messages.len(),
        ) + usage::message_tokens(message),
        usage::message_row(message) matches Some(r) ==> usage::message_rows(
            messages.push(message),
            messages.len() + 1,
        ) == usage::message_rows(messages, messages.len()).push(r),
        usage::message_row(message) is None ==> usage::message_rows(
            messages.push(message),
            messages.len() + 1,
        ) == usage::message_rows(messages, messages.len()),
{
    lemma_messages_prefix(messages, message, messages.len());
    assert(messages.push(message)[messages.len() as int] == message);
}

proof fn lemma_messages_prefix(messages: Seq<JsonView>, message: JsonView, n: nat)
    requires
        n <= messages.len(),
    ensures
        usage::tokens_of(messages.push(message), n) == usage::tokens_of(messages, n),
        usage::message_rows(messages.push(message), n) == usage::message_rows(messages, n),
    decreases n,
{
    if n > 0 {
        lemma_messages_prefix(messages, message, (n - 1) as nat);
        assert(messages.push(message)[n - 1] == messages[n - 1]);
    }
}

// ---------------------------------------------------------------------
// Frontmatter and the log
// ---------------------------------------------------------------------

proof fn lemma_text_under(m: MappingView, key: Seq<char>, i: nat, at: nat)
    requires
        i <= at < m.len(),
        m[at as int].0 == Some(key),
        forall|j: int| i <= j < at ==> (#[trigger] m[j]).0 != Some(key),
    ensures
        frontmatter::text_under(m, key, i) == m[at as int].1,
    decreases at - i,
{
    if i < at {
        assert(m[i as int].0 != Some(key));
        lemma_text_under(m, key, i + 1, at);
    }
}

/// What stands under a key is found there; under a key that is not there
/// nothing is.
pub proof fn law_values_are_found_under_their_key(m: MappingView, key: Seq<char>, at: int)
    ensures
        0 <= at < m.len() && m[at].0 == Some(key) && (forall|j: int|
            0 <= j < at ==> (#[trigger] m[j]).0 != Some(key)) ==> frontmatter::text_under(m, key, 0)
            == m[at].1,
        (forall|j: int| 0 <= j < m.len() ==> (#[trigger] m[j]).0 != Some(key))
            ==> frontmatter::text_under(m, key, 0) is None,
{
    if 0 <= at < m.len() && m[at].0 == Some(key) && (forall|j: int|
        0 <= j < at ==> (#[trigger] m[j]).0 != Some(key)) {
        lemma_text_under(m, key, 0, at as nat);
    }
    if forall|j: int| 0 <= j < m.len() ==> (#[trigger] m[j]).0 != Some(key) {
        lemma_nothing_under(m, key, 0);
    }
}

proof fn lemma_nothing_under(m: MappingView, key: Seq<char>, i: nat)
    requires
        forall|j: int| 0 <= j < m.len() ==> (#[trigger] m[j]).0 != Some(key),
    ensures
        frontmatter::text_under(m, key, i) is None,
    decreases m.len() - i,
{
    if i < m.len() {
        assert(m[i as int].0 != Some(key));
        lemma_nothing_under(m, key, i + 1);
    }
}

/// A file without an opening fence is all body; one whose fence is never closed
/// is refused.
pub proof fn law_files_without_a_fence_are_all_body(raw: Seq<char>)
    ensures
        !"---\n"@.is_prefix_of(raw) ==> (frontmatter::split_parts(raw) matches Ok(parts)
            && parts.head is None && parts.body == raw),
        "---\n"@.is_prefix_of(raw) && frontmatter::next_fence(raw.skip(4), 0) is None
            ==> frontmatter::split_parts(raw) is Err,
{
}

/// Every line of a log that says anything is a record, in order.
pub proof fn law_records_are_the_lines_that_say_something(
    lines: Seq<Seq<char>>,
    n: nat,
    x: Seq<char>,
)
    requires
        n <= lines.len(),
    ensures
        audit::record_lines(lines, n).contains(x) <==> lines.take(n as int).contains(x)
            && !text::all_white(x),
    decreases n,
{
    if n > 0 {
        law_records_are_the_lines_that_say_something(lines, (n - 1) as nat, x);
        text::law_trimming_takes_only_white_space(lines[n - 1]);
        let fewer = lines.take(n - 1);
        assert(lines.take(n as int) =~= fewer.push(lines[n - 1]));
        lemma_pushed(fewer, lines[n - 1], x);
        lemma_pushed(audit::record_lines(lines, (n - 1) as nat), lines[n - 1], x);
    } else {
        assert(lines.take(0) =~= Seq::empty());
    }
}

proof fn lemma_pushed(s: Seq<Seq<char>>, last: Seq<char>, x: Seq<char>)
    ensures
        s.push(last).contains(x) <==> s.contains(x) || x == last,
{
    let all = s.push(last);
    if s.contains(x) {
        let i = choose|i: int| 0 <= i < s.len() && s[i] == x;
        assert(all[i] == x);
    }
    if x == last {
        assert(all[s.len() as int] == x);
    }
}

/// The messages of a transcript are those that it lists, and each file is one
/// log.
pub proof fn law_messages_are_those_listed(doc: JsonView, files: Seq<FileView>, i: int)
    requires
        0 <= i < files.len(),
    ensures
        json::member(doc, "messages"@) matches Some(JsonView::Array(items)) ==> usage::messages_of(
            doc,
        ) == items,
        json::member(doc, "messages"@) is None ==> usage::messages_of(doc).len() == 0,
        stats::logs_of(files).len() == files.len(),
        stats::logs_of(files)[i].name == files[i].rel,
        stats::logs_of(files)[i].bytes == files[i].bytes,
{
}

/// Usage is reported where every number of it can be held, and only there.
pub proof fn law_usage_is_reported_where_it_fits(rows: Seq<RowView>, p: Seq<char>, m: Seq<char>)
    ensures
        usage::all_fit(rows) ==> (usage::merged(rows, rows.len(), p, m) matches Some(r)
            ==> r.messages <= u64::MAX && r.tokens_input <= u64::MAX && r.tokens_output <= u64::MAX
            && r.tokens_reasoning <= u64::MAX && r.cache_read <= u64::MAX && r.cache_write
            <= u64::MAX),
        (forall|q: Seq<char>, n: Seq<char>|
            #![trigger usage::merged(rows, rows.len(), q, n)]
            usage::merged(rows, rows.len(), q, n) matches Some(r) ==> r.messages <= u64::MAX
                && r.tokens_input <= u64::MAX && r.tokens_output <= u64::MAX && r.tokens_reasoning
                <= u64::MAX && r.cache_read <= u64::MAX && r.cache_write <= u64::MAX)
            ==> usage::all_fit(rows),
{
}

} // verus!
