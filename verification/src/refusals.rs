//! What is refused is told: every refusal names what it is about, so that
//! whoever reads it knows what to mend.
use vstd::prelude::*;
use crate::agents::document;
use crate::agents::document::Fields;
use crate::agents::edits;
use crate::agents::handles;
use crate::agents::manage;
use crate::agents::sidecar;
use crate::environment_session;
use crate::environment_session::SessionIdView;
use crate::error;
use crate::error::{Error, ErrorView};
use crate::json;
use crate::json::JsonView;
use crate::launch::policy;
use crate::launch::tmux;
use crate::launch::tmux::{Killed, Started};
use crate::path;
use crate::plugin::protocol;
use crate::plugin::protocol::{LifecycleEvent, LifecycleView, ReceivedView, ReplyEvent};
use crate::plugin_distribution;
use crate::plugin_install;
use crate::plugin_install::ExecFile;
use crate::registry::pins;
use crate::registry::pins::{EntryView, SourceRevsView};
use crate::srcrev::fetch;
use crate::srcrev::fetch::TreeView;
use crate::srcrev::revs;
use crate::srcrev::revs::Refs;
use crate::store::entries;
use crate::store::entries::EntryAccess;
use crate::store::missions;
use crate::store::naming;
use crate::store::provision;
use crate::store::provision::LinkState;
use crate::store::records;
use crate::table;
use crate::text;

verus! {

/// An error tells a text.
pub open spec fn tells(e: ErrorView, p: Seq<char>) -> bool {
    text::contains(error::shown(e), p)
}

/// A refusal tells a text.
pub open spec fn refusal_tells<T>(r: Result<T, ErrorView>, p: Seq<char>) -> bool {
    r matches Err(e) && tells(e, p)
}

/// What a message says is told.
proof fn lemma_told(m: Seq<char>, p: Seq<char>)
    requires
        text::contains(m, p),
    ensures
        tells(ErrorView::Store(m), p),
        tells(ErrorView::Io(m), p),
{
    let none = Seq::<char>::empty();
    error::law_errors_are_shown(m, m);
    let s = error::shown(ErrorView::Store(m));
    let i = error::shown(ErrorView::Io(m));
    let a = s.take(s.len() - m.len());
    let b = i.take(i.len() - m.len());
    assert(m =~= s.subrange(s.len() - m.len(), s.len() as int));
    assert(m =~= i.subrange(i.len() - m.len(), i.len() as int));
    assert(a + m + none =~= s);
    assert(b + m + none =~= i);
    text::lemma_contains_wider(a, m, none, p);
    text::lemma_contains_wider(b, m, none, p);
}

proof fn lemma_has(s: Seq<char>, x: Seq<char>, p: Seq<char>)
    requires
        text::contains(s, p) || text::contains(x, p),
    ensures
        text::contains(s + x, p),
{
    let none = Seq::<char>::empty();
    if text::contains(s, p) {
        text::lemma_contains_wider(none, s, x, p);
        assert(none + s + x =~= s + x);
    } else {
        text::lemma_contains_wider(s, x, none, p);
        assert(s + x + none =~= s + x);
    }
}

proof fn lemma_whole(s: Seq<char>)
    ensures
        text::contains(s, s),
{
    let none = Seq::<char>::empty();
    text::lemma_contains_middle(none, s, none);
    assert(none + s + none =~= s);
}

proof fn lemma_parts_2(
    x0: Seq<char>,
    x1: Seq<char>,
)
    ensures
        tells(ErrorView::Store(x0 + x1), x0),
        text::contains(x0 + x1, x0),
        tells(ErrorView::Store(x0 + x1), x1),
        text::contains(x0 + x1, x1),
{
    lemma_whole(x0);
    lemma_whole(x1);
    lemma_has(x0, x1, x0);
    lemma_has(x0, x1, x1);
    lemma_told(x0 + x1, x0);
    lemma_told(x0 + x1, x1);
}

proof fn lemma_parts_3(
    x0: Seq<char>,
    x1: Seq<char>,
    x2: Seq<char>,
)
    ensures
        tells(ErrorView::Store(x0 + x1 + x2), x0),
        text::contains(x0 + x1 + x2, x0),
        tells(ErrorView::Store(x0 + x1 + x2), x1),
        text::contains(x0 + x1 + x2, x1),
        tells(ErrorView::Store(x0 + x1 + x2), x2),
        text::contains(x0 + x1 + x2, x2),
{
    lemma_parts_2(x0, x1);
    lemma_whole(x2);
    lemma_has(x0 + x1, x2, x0);
    lemma_has(x0 + x1, x2, x1);
    lemma_has(x0 + x1, x2, x2);
    lemma_told(x0 + x1 + x2, x0);
    lemma_told(x0 + x1 + x2, x1);
    lemma_told(x0 + x1 + x2, x2);
}

proof fn lemma_parts_4(
    x0: Seq<char>,
    x1: Seq<char>,
    x2: Seq<char>,
    x3: Seq<char>,
)
    ensures
        tells(ErrorView::Store(x0 + x1 + x2 + x3), x0),
        text::contains(x0 + x1 + x2 + x3, x0),
        tells(ErrorView::Store(x0 + x1 + x2 + x3), x1),
        text::contains(x0 + x1 + x2 + x3, x1),
        tells(ErrorView::Store(x0 + x1 + x2 + x3), x2),
        text::contains(x0 + x1 + x2 + x3, x2),
        tells(ErrorView::Store(x0 + x1 + x2 + x3), x3),
        text::contains(x0 + x1 + x2 + x3, x3),
{
    lemma_parts_3(x0, x1, x2);
    lemma_whole(x3);
    lemma_has(x0 + x1 + x2, x3, x0);
    lemma_has(x0 + x1 + x2, x3, x1);
    lemma_has(x0 + x1 + x2, x3, x2);
    lemma_has(x0 + x1 + x2, x3, x3);
    lemma_told(x0 + x1 + x2 + x3, x0);
    lemma_told(x0 + x1 + x2 + x3, x1);
    lemma_told(x0 + x1 + x2 + x3, x2);
    lemma_told(x0 + x1 + x2 + x3, x3);
}

proof fn lemma_parts_5(
    x0: Seq<char>,
    x1: Seq<char>,
    x2: Seq<char>,
    x3: Seq<char>,
    x4: Seq<char>,
)
    ensures
        tells(ErrorView::Store(x0 + x1 + x2 + x3 + x4), x0),
        text::contains(x0 + x1 + x2 + x3 + x4, x0),
        tells(ErrorView::Store(x0 + x1 + x2 + x3 + x4), x1),
        text::contains(x0 + x1 + x2 + x3 + x4, x1),
        tells(ErrorView::Store(x0 + x1 + x2 + x3 + x4), x2),
        text::contains(x0 + x1 + x2 + x3 + x4, x2),
        tells(ErrorView::Store(x0 + x1 + x2 + x3 + x4), x3),
        text::contains(x0 + x1 + x2 + x3 + x4, x3),
        tells(ErrorView::Store(x0 + x1 + x2 + x3 + x4), x4),
        text::contains(x0 + x1 + x2 + x3 + x4, x4),
{
    lemma_parts_4(x0, x1, x2, x3);
    lemma_whole(x4);
    lemma_has(x0 + x1 + x2 + x3, x4, x0);
    lemma_has(x0 + x1 + x2 + x3, x4, x1);
    lemma_has(x0 + x1 + x2 + x3, x4, x2);
    lemma_has(x0 + x1 + x2 + x3, x4, x3);
    lemma_has(x0 + x1 + x2 + x3, x4, x4);
    lemma_told(x0 + x1 + x2 + x3 + x4, x0);
    lemma_told(x0 + x1 + x2 + x3 + x4, x1);
    lemma_told(x0 + x1 + x2 + x3 + x4, x2);
    lemma_told(x0 + x1 + x2 + x3 + x4, x3);
    lemma_told(x0 + x1 + x2 + x3 + x4, x4);
}

proof fn lemma_parts_6(
    x0: Seq<char>,
    x1: Seq<char>,
    x2: Seq<char>,
    x3: Seq<char>,
    x4: Seq<char>,
    x5: Seq<char>,
)
    ensures
        tells(ErrorView::Store(x0 + x1 + x2 + x3 + x4 + x5), x0),
        text::contains(x0 + x1 + x2 + x3 + x4 + x5, x0),
        tells(ErrorView::Store(x0 + x1 + x2 + x3 + x4 + x5), x1),
        text::contains(x0 + x1 + x2 + x3 + x4 + x5, x1),
        tells(ErrorView::Store(x0 + x1 + x2 + x3 + x4 + x5), x2),
        text::contains(x0 + x1 + x2 + x3 + x4 + x5, x2),
        tells(ErrorView::Store(x0 + x1 + x2 + x3 + x4 + x5), x3),
        text::contains(x0 + x1 + x2 + x3 + x4 + x5, x3),
        tells(ErrorView::Store(x0 + x1 + x2 + x3 + x4 + x5), x4),
        text::contains(x0 + x1 + x2 + x3 + x4 + x5, x4),
        tells(ErrorView::Store(x0 + x1 + x2 + x3 + x4 + x5), x5),
        text::contains(x0 + x1 + x2 + x3 + x4 + x5, x5),
{
    lemma_parts_5(x0, x1, x2, x3, x4);
    lemma_whole(x5);
    lemma_has(x0 + x1 + x2 + x3 + x4, x5, x0);
    lemma_has(x0 + x1 + x2 + x3 + x4, x5, x1);
    lemma_has(x0 + x1 + x2 + x3 + x4, x5, x2);
    lemma_has(x0 + x1 + x2 + x3 + x4, x5, x3);
    lemma_has(x0 + x1 + x2 + x3 + x4, x5, x4);
    lemma_has(x0 + x1 + x2 + x3 + x4, x5, x5);
    lemma_told(x0 + x1 + x2 + x3 + x4 + x5, x0);
    lemma_told(x0 + x1 + x2 + x3 + x4 + x5, x1);
    lemma_told(x0 + x1 + x2 + x3 + x4 + x5, x2);
    lemma_told(x0 + x1 + x2 + x3 + x4 + x5, x3);
    lemma_told(x0 + x1 + x2 + x3 + x4 + x5, x4);
    lemma_told(x0 + x1 + x2 + x3 + x4 + x5, x5);
}

proof fn lemma_parts_7(
    x0: Seq<char>,
    x1: Seq<char>,
    x2: Seq<char>,
    x3: Seq<char>,
    x4: Seq<char>,
    x5: Seq<char>,
    x6: Seq<char>,
)
    ensures
        tells(ErrorView::Store(x0 + x1 + x2 + x3 + x4 + x5 + x6), x0),
        text::contains(x0 + x1 + x2 + x3 + x4 + x5 + x6, x0),
        tells(ErrorView::Store(x0 + x1 + x2 + x3 + x4 + x5 + x6), x1),
        text::contains(x0 + x1 + x2 + x3 + x4 + x5 + x6, x1),
        tells(ErrorView::Store(x0 + x1 + x2 + x3 + x4 + x5 + x6), x2),
        text::contains(x0 + x1 + x2 + x3 + x4 + x5 + x6, x2),
        tells(ErrorView::Store(x0 + x1 + x2 + x3 + x4 + x5 + x6), x3),
        text::contains(x0 + x1 + x2 + x3 + x4 + x5 + x6, x3),
        tells(ErrorView::Store(x0 + x1 + x2 + x3 + x4 + x5 + x6), x4),
        text::contains(x0 + x1 + x2 + x3 + x4 + x5 + x6, x4),
        tells(ErrorView::Store(x0 + x1 + x2 + x3 + x4 + x5 + x6), x5),
        text::contains(x0 + x1 + x2 + x3 + x4 + x5 + x6, x5),
        tells(ErrorView::Store(x0 + x1 + x2 + x3 + x4 + x5 + x6), x6),
        text::contains(x0 + x1 + x2 + x3 + x4 + x5 + x6, x6),
{
    lemma_parts_6(x0, x1, x2, x3, x4, x5);
    lemma_whole(x6);
    lemma_has(x0 + x1 + x2 + x3 + x4 + x5, x6, x0);
    lemma_has(x0 + x1 + x2 + x3 + x4 + x5, x6, x1);
    lemma_has(x0 + x1 + x2 + x3 + x4 + x5, x6, x2);
    lemma_has(x0 + x1 + x2 + x3 + x4 + x5, x6, x3);
    lemma_has(x0 + x1 + x2 + x3 + x4 + x5, x6, x4);
    lemma_has(x0 + x1 + x2 + x3 + x4 + x5, x6, x5);
    lemma_has(x0 + x1 + x2 + x3 + x4 + x5, x6, x6);
    lemma_told(x0 + x1 + x2 + x3 + x4 + x5 + x6, x0);
    lemma_told(x0 + x1 + x2 + x3 + x4 + x5 + x6, x1);
    lemma_told(x0 + x1 + x2 + x3 + x4 + x5 + x6, x2);
    lemma_told(x0 + x1 + x2 + x3 + x4 + x5 + x6, x3);
    lemma_told(x0 + x1 + x2 + x3 + x4 + x5 + x6, x4);
    lemma_told(x0 + x1 + x2 + x3 + x4 + x5 + x6, x5);
    lemma_told(x0 + x1 + x2 + x3 + x4 + x5 + x6, x6);
}

proof fn lemma_parts_8(
    x0: Seq<char>,
    x1: Seq<char>,
    x2: Seq<char>,
    x3: Seq<char>,
    x4: Seq<char>,
    x5: Seq<char>,
    x6: Seq<char>,
    x7: Seq<char>,
)
    ensures
        tells(ErrorView::Store(x0 + x1 + x2 + x3 + x4 + x5 + x6 + x7), x0),
        text::contains(x0 + x1 + x2 + x3 + x4 + x5 + x6 + x7, x0),
        tells(ErrorView::Store(x0 + x1 + x2 + x3 + x4 + x5 + x6 + x7), x1),
        text::contains(x0 + x1 + x2 + x3 + x4 + x5 + x6 + x7, x1),
        tells(ErrorView::Store(x0 + x1 + x2 + x3 + x4 + x5 + x6 + x7), x2),
        text::contains(x0 + x1 + x2 + x3 + x4 + x5 + x6 + x7, x2),
        tells(ErrorView::Store(x0 + x1 + x2 + x3 + x4 + x5 + x6 + x7), x3),
        text::contains(x0 + x1 + x2 + x3 + x4 + x5 + x6 + x7, x3),
        tells(ErrorView::Store(x0 + x1 + x2 + x3 + x4 + x5 + x6 + x7), x4),
        text::contains(x0 + x1 + x2 + x3 + x4 + x5 + x6 + x7, x4),
        tells(ErrorView::Store(x0 + x1 + x2 + x3 + x4 + x5 + x6 + x7), x5),
        text::contains(x0 + x1 + x2 + x3 + x4 + x5 + x6 + x7, x5),
        tells(ErrorView::Store(x0 + x1 + x2 + x3 + x4 + x5 + x6 + x7), x6),
        text::contains(x0 + x1 + x2 + x3 + x4 + x5 + x6 + x7, x6),
        tells(ErrorView::Store(x0 + x1 + x2 + x3 + x4 + x5 + x6 + x7), x7),
        text::contains(x0 + x1 + x2 + x3 + x4 + x5 + x6 + x7, x7),
{
    lemma_parts_7(x0, x1, x2, x3, x4, x5, x6);
    lemma_whole(x7);
    lemma_has(x0 + x1 + x2 + x3 + x4 + x5 + x6, x7, x0);
    lemma_has(x0 + x1 + x2 + x3 + x4 + x5 + x6, x7, x1);
    lemma_has(x0 + x1 + x2 + x3 + x4 + x5 + x6, x7, x2);
    lemma_has(x0 + x1 + x2 + x3 + x4 + x5 + x6, x7, x3);
    lemma_has(x0 + x1 + x2 + x3 + x4 + x5 + x6, x7, x4);
    lemma_has(x0 + x1 + x2 + x3 + x4 + x5 + x6, x7, x5);
    lemma_has(x0 + x1 + x2 + x3 + x4 + x5 + x6, x7, x6);
    lemma_has(x0 + x1 + x2 + x3 + x4 + x5 + x6, x7, x7);
    lemma_told(x0 + x1 + x2 + x3 + x4 + x5 + x6 + x7, x0);
    lemma_told(x0 + x1 + x2 + x3 + x4 + x5 + x6 + x7, x1);
    lemma_told(x0 + x1 + x2 + x3 + x4 + x5 + x6 + x7, x2);
    lemma_told(x0 + x1 + x2 + x3 + x4 + x5 + x6 + x7, x3);
    lemma_told(x0 + x1 + x2 + x3 + x4 + x5 + x6 + x7, x4);
    lemma_told(x0 + x1 + x2 + x3 + x4 + x5 + x6 + x7, x5);
    lemma_told(x0 + x1 + x2 + x3 + x4 + x5 + x6 + x7, x6);
    lemma_told(x0 + x1 + x2 + x3 + x4 + x5 + x6 + x7, x7);
}

proof fn lemma_parts_9(
    x0: Seq<char>,
    x1: Seq<char>,
    x2: Seq<char>,
    x3: Seq<char>,
    x4: Seq<char>,
    x5: Seq<char>,
    x6: Seq<char>,
    x7: Seq<char>,
    x8: Seq<char>,
)
    ensures
        tells(ErrorView::Store(x0 + x1 + x2 + x3 + x4 + x5 + x6 + x7 + x8), x0),
        text::contains(x0 + x1 + x2 + x3 + x4 + x5 + x6 + x7 + x8, x0),
        tells(ErrorView::Store(x0 + x1 + x2 + x3 + x4 + x5 + x6 + x7 + x8), x1),
        text::contains(x0 + x1 + x2 + x3 + x4 + x5 + x6 + x7 + x8, x1),
        tells(ErrorView::Store(x0 + x1 + x2 + x3 + x4 + x5 + x6 + x7 + x8), x2),
        text::contains(x0 + x1 + x2 + x3 + x4 + x5 + x6 + x7 + x8, x2),
        tells(ErrorView::Store(x0 + x1 + x2 + x3 + x4 + x5 + x6 + x7 + x8), x3),
        text::contains(x0 + x1 + x2 + x3 + x4 + x5 + x6 + x7 + x8, x3),
        tells(ErrorView::Store(x0 + x1 + x2 + x3 + x4 + x5 + x6 + x7 + x8), x4),
        text::contains(x0 + x1 + x2 + x3 + x4 + x5 + x6 + x7 + x8, x4),
        tells(ErrorView::Store(x0 + x1 + x2 + x3 + x4 + x5 + x6 + x7 + x8), x5),
        text::contains(x0 + x1 + x2 + x3 + x4 + x5 + x6 + x7 + x8, x5),
        tells(ErrorView::Store(x0 + x1 + x2 + x3 + x4 + x5 + x6 + x7 + x8), x6),
        text::contains(x0 + x1 + x2 + x3 + x4 + x5 + x6 + x7 + x8, x6),
        tells(ErrorView::Store(x0 + x1 + x2 + x3 + x4 + x5 + x6 + x7 + x8), x7),
        text::contains(x0 + x1 + x2 + x3 + x4 + x5 + x6 + x7 + x8, x7),
        tells(ErrorView::Store(x0 + x1 + x2 + x3 + x4 + x5 + x6 + x7 + x8), x8),
        text::contains(x0 + x1 + x2 + x3 + x4 + x5 + x6 + x7 + x8, x8),
{
    lemma_parts_8(x0, x1, x2, x3, x4, x5, x6, x7);
    lemma_whole(x8);
    lemma_has(x0 + x1 + x2 + x3 + x4 + x5 + x6 + x7, x8, x0);
    lemma_has(x0 + x1 + x2 + x3 + x4 + x5 + x6 + x7, x8, x1);
    lemma_has(x0 + x1 + x2 + x3 + x4 + x5 + x6 + x7, x8, x2);
    lemma_has(x0 + x1 + x2 + x3 + x4 + x5 + x6 + x7, x8, x3);
    lemma_has(x0 + x1 + x2 + x3 + x4 + x5 + x6 + x7, x8, x4);
    lemma_has(x0 + x1 + x2 + x3 + x4 + x5 + x6 + x7, x8, x5);
    lemma_has(x0 + x1 + x2 + x3 + x4 + x5 + x6 + x7, x8, x6);
    lemma_has(x0 + x1 + x2 + x3 + x4 + x5 + x6 + x7, x8, x7);
    lemma_has(x0 + x1 + x2 + x3 + x4 + x5 + x6 + x7, x8, x8);
    lemma_told(x0 + x1 + x2 + x3 + x4 + x5 + x6 + x7 + x8, x0);
    lemma_told(x0 + x1 + x2 + x3 + x4 + x5 + x6 + x7 + x8, x1);
    lemma_told(x0 + x1 + x2 + x3 + x4 + x5 + x6 + x7 + x8, x2);
    lemma_told(x0 + x1 + x2 + x3 + x4 + x5 + x6 + x7 + x8, x3);
    lemma_told(x0 + x1 + x2 + x3 + x4 + x5 + x6 + x7 + x8, x4);
    lemma_told(x0 + x1 + x2 + x3 + x4 + x5 + x6 + x7 + x8, x5);
    lemma_told(x0 + x1 + x2 + x3 + x4 + x5 + x6 + x7 + x8, x6);
    lemma_told(x0 + x1 + x2 + x3 + x4 + x5 + x6 + x7 + x8, x7);
    lemma_told(x0 + x1 + x2 + x3 + x4 + x5 + x6 + x7 + x8, x8);
}

// ---------------------------------------------------------------------
// Agents
// ---------------------------------------------------------------------

/// What is refused of an agent's document names the agent, by project and
/// slug, and the entry.
pub proof fn law_document_refusals_name_the_agent(
    project: Seq<char>,
    slug: Seq<char>,
    name: Seq<char>,
    why: Seq<char>,
)
    ensures
        tells(document::no_agent_map(project, slug), project),
        tells(document::no_agent_map(project, slug), slug),
        tells(document::no_entry(project, slug, name), project),
        tells(document::no_entry(project, slug, name), slug),
        tells(document::no_entry(project, slug, name), text::quoted(name)),
        tells(document::not_settable(name), text::quoted(name)),
        tells(manage::no_agent(project, slug), project),
        tells(manage::no_agent(project, slug), slug),
        tells(manage::agent_taken(project, slug), project),
        tells(manage::agent_taken(project, slug), slug),
        tells(manage::bad_document(project, slug, why), project),
        tells(manage::bad_document(project, slug, why), slug),
        tells(manage::bad_document(project, slug, why), why),
        refusal_tells(manage::loaded_doc(project, slug, Some(Err(why))), project),
        refusal_tells(manage::loaded_doc(project, slug, Some(Err(why))), slug),
        refusal_tells(manage::loaded_doc(project, slug, Some(Err(why))), why),
        refusal_tells(manage::loaded_doc(project, slug, None), slug),
        refusal_tells(manage::base_doc(project, Some(slug), None), project),
        refusal_tells(manage::base_doc(project, Some(slug), None), slug),
        refusal_tells(manage::base_doc(project, Some(slug), Some(Err(why))), why),
{
    lemma_parts_5("agent "@, project, "/"@, slug, ": missing agent map"@);
    lemma_parts_6("agent "@, project, "/"@, slug, " has no entry named "@, text::quoted(name));
    lemma_parts_2(
        text::quoted(name),
        " is not settable here: use set_agent_role / set_agent_permission (mode is fixed by the entry's position in the document)"@,
    );
    lemma_parts_4("agent not found: "@, project, "/"@, slug);
    lemma_parts_4("agent already exists: "@, project, "/"@, slug);
    lemma_parts_6("agent "@, project, "/"@, slug, ": invalid opencode.json: "@, why);
    lemma_parts_6("agent "@, project, "/"@, slug, ": "@, why);
    lemma_parts_5(
        "agent not found: "@,
        project,
        "/"@,
        slug,
        " — 'from' must name an existing agent in this project"@,
    );
    lemma_whole(why);
    lemma_told(why, why);
}

/// A subagent whose name is taken is refused with that name, and so is one
/// that would collide with its primary; a missing primary names its agent.
pub proof fn law_subagent_refusals_name_the_entry(
    doc: JsonView,
    project: Seq<char>,
    slug: Seq<char>,
    name: Seq<char>,
    cfg: Fields,
    files: Seq<Seq<char>>,
)
    ensures
        edits::agents_of(doc).dom().contains(name) ==> refusal_tells(
            edits::subagent_addition(doc, project, slug, name, cfg, files),
            project,
        ) && refusal_tells(
            edits::subagent_addition(doc, project, slug, name, cfg, files),
            slug,
        ) && refusal_tells(
            edits::subagent_addition(doc, project, slug, name, cfg, files),
            text::quoted(name),
        ),
        naming::is_slug(name) && name == slug ==> refusal_tells(
            edits::subagent_name_check(slug, name),
            text::quoted(name),
        ),
        json::member_fields(doc, "agent"@) is None ==> refusal_tells(
            edits::primary_lookup(doc, project, slug),
            project,
        ) && refusal_tells(edits::primary_lookup(doc, project, slug), slug),
        json::member_fields(doc, "agent"@) is Some && document::all_primaries(
            edits::agents_of(doc),
        ).len() == 0 ==> refusal_tells(edits::primary_lookup(doc, project, slug), project)
            && refusal_tells(edits::primary_lookup(doc, project, slug), slug),
        !edits::agents_of(doc).dom().contains(name) ==> refusal_tells(
            sidecar::subagent_known(doc, project, slug, name),
            project,
        ) && refusal_tells(
            sidecar::subagent_known(doc, project, slug, name),
            text::quoted(name),
        ),
{
    lemma_parts_6(
        "agent "@,
        project,
        "/"@,
        slug,
        " already has an entry named "@,
        text::quoted(name),
    );
    lemma_parts_3("subagent "@, text::quoted(name), " would collide with its primary"@);
    lemma_parts_5("agent "@, project, "/"@, slug, ": missing \"agent\" map"@);
    lemma_parts_5("agent "@, project, "/"@, slug, ": no primary agent in opencode.json"@);
    law_document_refusals_name_the_agent(project, slug, name, name);
}

/// A document that is not valid is refused in the name of its agent, and for
/// the reason that the check gives; an action that is none is named.
pub proof fn law_invalid_documents_are_told(
    slug: Seq<char>,
    doc: JsonView,
    files: Seq<Seq<char>>,
    a: Seq<char>,
)
    ensures
        document::doc_check(doc, files) matches Err(e) ==> refusal_tells(
            document::checked(slug, doc, files),
            slug,
        ) && refusal_tells(document::checked(slug, doc, files), error::shown(e)),
        document::permission_check(JsonView::Text(a)) is Err ==> refusal_tells(
            document::permission_check(JsonView::Text(a)),
            text::quoted(a),
        ),
{
    match document::doc_check(doc, files) {
        Err(e) => {
            lemma_parts_4("agent "@, slug, ": "@, error::shown(e));
        },
        Ok(_) => {},
    }
    lemma_parts_3("invalid permission action "@, text::quoted(a), " (ask|allow|deny)"@);
}

/// A prompt that refers to what is not there is refused with the agent and the
/// reference.
pub proof fn law_missing_references_are_told(
    name: Seq<char>,
    s: Seq<char>,
    from: nat,
    files: Seq<Seq<char>>,
)
    ensures
        document::next_ref(s, from) matches Some((open, Some(close))) ==> from <= open && open + 6
            <= close && close < s.len() && !files.contains(
            s.subrange((open + 6) as int, close as int),
        ) ==> refusal_tells(document::refs_check(name, s, from, files), name) && refusal_tells(
            document::refs_check(name, s, from, files),
            s.subrange((open + 6) as int, close as int),
        ),
        document::next_ref(s, from) matches Some((_, None)) ==> refusal_tells(
            document::refs_check(name, s, from, files),
            name,
        ),
{
    lemma_parts_3("agent "@, name, ": unterminated {file:} ref"@);
    match document::next_ref(s, from) {
        Some((open, Some(close))) => {
            let rel = s.subrange((open + 6) as int, close as int);
            lemma_parts_5("agent "@, name, ": {file:"@, rel, "} does not resolve against the agent dir"@);
        },
        _ => {},
    }
}

/// A delegation to what is not declared is refused with who delegates, to whom
/// and where.
pub proof fn law_open_delegation_is_told(
    name: Seq<char>,
    slug: Seq<char>,
    targets: Seq<Seq<char>>,
    i: nat,
    known: Set<Seq<char>>,
    project: Seq<char>,
)
    requires
        i < targets.len(),
        !known.contains(targets[i as int]),
    ensures
        ({
            let r = handles::targets_check(name, slug, targets, i, known, project);
            &&& refusal_tells(r, text::quoted(name))
            &&& refusal_tells(r, text::quoted(slug))
            &&& refusal_tells(r, text::quoted(targets[i as int]))
            &&& refusal_tells(r, project)
        }),
{
    lemma_parts_9(
        "agent entry "@,
        text::quoted(name),
        " (agent "@,
        text::quoted(slug),
        ") delegates to "@,
        text::quoted(targets[i as int]),
        ", which no agent in project "@,
        project,
        " declares — a rendered agent set must be closed under delegation, or opencode resolves the name from config outside the run dir. Add the subagent or drop the task rule."@,
    );
}

/// A name that two agents claim is refused with the name, both of them and the
/// project.
pub proof fn law_claimed_names_are_told(
    all: Seq<(Seq<char>, Seq<char>)>,
    n: nat,
    project: Seq<char>,
)
    requires
        0 < n <= all.len(),
        handles::owners(all, (n - 1) as nat, project) is Ok,
        handles::owners(all, (n - 1) as nat, project)->Ok_0.dom().contains(all[n - 1].0),
    ensures
        ({
            let r = handles::owners(all, n, project);
            let m = handles::owners(all, (n - 1) as nat, project)->Ok_0;
            &&& refusal_tells(r, text::quoted(all[n - 1].0))
            &&& refusal_tells(r, text::quoted(m[all[n - 1].0]))
            &&& refusal_tells(r, text::quoted(all[n - 1].1))
            &&& refusal_tells(r, project)
        }),
{
    let m = handles::owners(all, (n - 1) as nat, project)->Ok_0;
    lemma_parts_9(
        "agent entry "@,
        text::quoted(all[n - 1].0),
        " is declared by both "@,
        text::quoted(m[all[n - 1].0]),
        " and "@,
        text::quoted(all[n - 1].1),
        " in project "@,
        project,
        " — rendered agent names are flat across a project; rename one"@,
    );
}

// ---------------------------------------------------------------------
// The store
// ---------------------------------------------------------------------

/// What is refused in the store names what it is about: the slug, the mission,
/// the project, the path.
pub proof fn law_store_refusals_name_what_they_are_about(
    root: Seq<char>,
    project: Seq<char>,
    slug: Seq<char>,
    agent: Seq<char>,
    e: ErrorView,
    head: Seq<char>,
    brief: Seq<char>,
    why: String,
)
    ensures
        naming::slug_check(slug) is Err ==> refusal_tells(
            naming::slug_check(slug),
            text::quoted(slug),
        ),
        tells(missions::no_mission(project, slug), project),
        tells(missions::no_mission(project, slug), slug),
        naming::is_slug(slug) ==> {
            &&& refusal_tells(
                missions::mission_write(root, project, slug, false, agent, Err(e), head, brief),
                project,
            )
            &&& refusal_tells(
                missions::mission_write(root, project, slug, true, agent, Err(e), head, brief),
                slug,
            )
            &&& refusal_tells(
                missions::mission_write(root, project, slug, true, agent, Err(e), head, brief),
                text::quoted(agent),
            )
            &&& refusal_tells(
                missions::mission_write(root, project, slug, true, agent, Err(e), head, brief),
                error::shown(e),
            )
        },
        refusal_tells(records::loaded_project(slug, None), slug),
        refusal_tells(records::loaded_project(slug, Some(Err(why))), slug),
        refusal_tells(records::loaded_project(slug, Some(Err(why))), why@),
        naming::is_slug(slug) ==> refusal_tells(
            records::created_project(slug, agent, agent, true, 0),
            slug,
        ),
{
    lemma_parts_3(
        "invalid slug "@,
        text::quoted(slug),
        ": kebab-case alphanumerics only (a-z0-9-)"@,
    );
    lemma_parts_3("invalid slug "@, text::quoted(slug), ": no leading/trailing dashes"@);
    lemma_parts_4("mission not found: "@, project, "/"@, slug);
    lemma_parts_2("project not found: "@, project);
    lemma_parts_2("project not found: "@, slug);
    lemma_parts_2("project already exists: "@, slug);
    lemma_parts_4("project "@, slug, ": "@, why@);
    lemma_parts_6("mission "@, slug, ": agent "@, text::quoted(agent), ": "@, error::shown(e));
}

/// A path of a corpus that is refused is told, and so are the ends of a move
/// or a link.
pub proof fn law_path_refusals_name_the_path(
    root: Seq<char>,
    resolved: Seq<char>,
    rel: Seq<char>,
    target: Seq<char>,
    link: Seq<char>,
    other: Seq<char>,
)
    ensures
        !path::is_within(resolved, root) ==> refusal_tells(
            entries::confinement(root, resolved, rel),
            rel,
        ),
        refusal_tells(entries::delete_check(rel, true, false), rel),
        path::parts(resolved) != path::parts(other) ==> refusal_tells(
            entries::move_plan(resolved, other, true, false, rel),
            rel,
        ),
        refusal_tells(provision::link_action(target, false, link, LinkState::Real), target),
        refusal_tells(provision::link_action(target, true, link, LinkState::Real), target),
        refusal_tells(provision::link_action(target, true, link, LinkState::Real), link),
        rel.len() > 0 && rel[0] == '/' ==> refusal_tells(
            entries::path_check(rel, EntryAccess::Read),
            rel,
        ),
{
    lemma_parts_2(
        rel,
        " resolves outside the project corpus — a link inside a corpus does not widen it"@,
    );
    lemma_parts_2(rel, " is a directory — pass recursive to remove it and everything under it"@);
    lemma_parts_2(rel, " already exists — pass overwrite to replace it"@);
    lemma_parts_3("cannot link "@, target, ": it does not exist"@);
    lemma_parts_4(
        link,
        " is a real path, not a link to "@,
        target,
        " — refusing to provision over it"@,
    );
    lemma_parts_2("path must be relative to the project corpus: "@, rel);
}

// ---------------------------------------------------------------------
// Sources
// ---------------------------------------------------------------------

/// A revision that can not be had is told with its source.
pub proof fn law_revision_refusals_name_the_source(
    refs: Refs,
    name: Seq<char>,
    rev: Seq<char>,
    entry: EntryView,
    sha: Seq<char>,
    at: Seq<char>,
)
    ensures
        refusal_tells(revs::resolved(None, name, rev), name),
        refusal_tells(revs::resolved(None, name, rev), text::quoted(rev)),
        !refs.dom().contains(rev) ==> refusal_tells(revs::resolved(Some(refs), name, rev), name)
            && refusal_tells(revs::resolved(Some(refs), name, rev), text::quoted(rev)),
        entry.repo.len() == 0 && text::trimmed(rev).len() > 0 ==> refusal_tells(
            pins::pin_need(name, rev, Some(entry)),
            name,
        ),
        at != sha ==> refusal_tells(pins::tree_check(name, sha, Ok(at)), name) && refusal_tells(
            pins::tree_check(name, sha, Ok(at)),
            at,
        ) && refusal_tells(pins::tree_check(name, sha, Ok(at)), sha),
        text::trimmed(rev).len() == 0 ==> refusal_tells(pins::pin_check(None, name, rev), name),
{
    lemma_parts_4(
        "no rev data for "@,
        name,
        " (offline and no cache) — cannot resolve "@,
        text::quoted(rev),
    );
    lemma_parts_6(
        "unknown rev "@,
        text::quoted(rev),
        " for "@,
        name,
        " — known: "@,
        text::joined(table::in_order(refs.dom()), ", "@),
    );
    lemma_parts_3("source pin "@, name, ": no repo URL in the plugin manifest"@);
    lemma_parts_6("source pin "@, name, ": the tree is at "@, at, ", not at "@, sha);
    lemma_parts_3("pin "@, name, ": rev is empty"@);
}

/// A pin that is none of the known revisions is refused with the source, the
/// revision and what is known.
pub proof fn law_unknown_pins_are_told(
    sources: Seq<SourceRevsView>,
    source: SourceRevsView,
    name: Seq<char>,
    rev: Seq<char>,
)
    requires
        pins::source_named(sources, name, 0) == Some(source),
        text::trimmed(rev).len() > 0,
        !pins::may_pin(source, text::trimmed(rev)),
    ensures
        ({
            let r = pins::pin_check(Some(sources), name, rev);
            &&& refusal_tells(r, name)
            &&& refusal_tells(r, text::quoted(text::trimmed(rev)))
            &&& refusal_tells(r, text::joined(source.revs, ", "@))
        }),
{
    lemma_parts_6(
        "pin "@,
        name,
        "="@,
        text::quoted(text::trimmed(rev)),
        " is not a known rev, tag, main/master, or a 40-hex commit sha — known: "@,
        text::joined(source.revs, ", "@),
    );
}

/// A tree that could not be fetched is told with its repository and what was
/// asked for; one that moved, with what was found.
pub proof fn law_failed_fetches_are_told(t: TreeView, got: Seq<char>, why: Seq<char>)
    ensures
        tells(fetch::not_fetched(t), t.repo),
        tells(fetch::not_fetched(t), t.sha),
        tells(fetch::not_cloned(t), t.repo),
        tells(fetch::not_cloned(t), t.rev),
        tells(fetch::moved(t, Some(got)), t.name),
        tells(fetch::moved(t, Some(got)), t.rev),
        tells(fetch::moved(t, Some(got)), t.sha),
        tells(fetch::moved(t, Some(got)), got),
        tells(fetch::not_installed(t, why), t.name),
        tells(fetch::not_installed(t, why), t.sha),
        tells(fetch::not_installed(t, why), why),
{
    lemma_parts_5("fetch failed: "@, t.repo, "@"@, t.sha, " (network? sha not on the remote?)"@);
    lemma_parts_5("clone failed: "@, t.repo, "@"@, t.rev, " (network? tag gone?)"@);
    lemma_parts_8(
        t.name,
        "@"@,
        t.rev,
        " moved: expected "@,
        t.sha,
        ", got "@,
        got,
        ", and the sha itself is not fetchable — re-pick the rev"@,
    );
    lemma_parts_6("install sources/"@, t.name, "/"@, t.sha, ": "@, why);
}

// ---------------------------------------------------------------------
// Plugins and terminals
// ---------------------------------------------------------------------

/// A plugin that can not be installed is told with what is wrong: the name, the
/// executable, the version that is there and the one that was to be.
pub proof fn law_install_refusals_name_the_plugin(
    label: Seq<char>,
    value: Seq<char>,
    bundle: Seq<char>,
    id: Seq<char>,
    version: Seq<char>,
    digest: Seq<char>,
    there: Seq<char>,
)
    ensures
        !plugin_install::is_component(value) ==> refusal_tells(
            plugin_install::component_check(label, value),
            label,
        ) && refusal_tells(
            plugin_install::component_check(label, value),
            text::quoted(value),
        ),
        !plugin_distribution::is_catalog_name(value) ==> refusal_tells(
            plugin_distribution::catalog_name_check(label, value),
            label,
        ) && refusal_tells(
            plugin_distribution::catalog_name_check(label, value),
            text::quoted(value),
        ),
        path::all_normal(path::parts(value)) ==> refusal_tells(
            plugin_install::exec_check(bundle, value, ExecFile::NoFile),
            path::joined(bundle, value),
        ) && refusal_tells(
            plugin_install::exec_check(bundle, value, ExecFile::Plain),
            path::joined(bundle, value),
        ),
        !path::all_normal(path::parts(value)) ==> refusal_tells(
            plugin_install::exec_check(bundle, value, ExecFile::Runnable),
            text::quoted(value),
        ),
        there != digest ==> {
            let r = plugin_install::install_step(id, version, digest, Some(there));
            refusal_tells(r, id) && refusal_tells(r, version) && refusal_tells(r, digest)
                && refusal_tells(r, there)
        },
        there != digest ==> refusal_tells(
            plugin_distribution::checksum_check(there, digest),
            there,
        ) && refusal_tells(plugin_distribution::checksum_check(there, digest), digest),
{
    lemma_parts_4("invalid "@, label, " "@, text::quoted(value));
    lemma_parts_4("invalid "@, label, ": "@, text::quoted(value));
    lemma_parts_2("plugin exec is not a file: "@, path::joined(bundle, value));
    lemma_parts_2("plugin exec is not executable: "@, path::joined(bundle, value));
    lemma_parts_2("plugin exec must stay inside its bundle: "@, text::quoted(value));
    lemma_parts_8(
        "plugin "@,
        id,
        " version "@,
        version,
        " is already installed with digest "@,
        there,
        "; immutable versions cannot be overwritten by "@,
        digest,
    );
    lemma_parts_4("plugin archive checksum mismatch: expected "@, digest, ", got "@, there);
}

/// A session of a plugin that is not there is refused with the plugin.
pub proof fn law_missing_plugins_are_told(
    id: SessionIdView,
    name: Seq<char>,
    digest: Seq<char>,
    source_shas: Map<Seq<char>, Seq<char>>,
    now: u64,
)
    ensures
        refusal_tells(
            environment_session::opening(id, name, None, digest, source_shas, now),
            name,
        ),
{
    lemma_parts_2("plugin not found: "@, name);
}

/// A launch without a model is refused with the agent and its project, and one
/// of an agent that does not load, with the reason.
pub proof fn law_launch_refusals_name_the_agent(
    project: Seq<char>,
    agent: Seq<char>,
    doc: JsonView,
    asked: Option<Seq<char>>,
    registry: Option<Seq<char>>,
    e: ErrorView,
)
    ensures
        ({
            let r = policy::launch_model(project, agent, Err(e), asked, registry);
            refusal_tells(r, project) && refusal_tells(r, agent) && refusal_tells(
                r,
                error::shown(e),
            )
        }),
        policy::picked(policy::primary_model(doc), asked) is None ==> {
            let r = policy::launch_model(project, agent, Ok(doc), asked, None);
            refusal_tells(r, project) && refusal_tells(r, agent)
        },
{
    lemma_parts_6("agent "@, project, "/"@, agent, ": "@, error::shown(e));
    lemma_parts_5(
        "no model configured for agent "@,
        agent,
        " on "@,
        project,
        " — set one on the primary agent entry, pass an explicit model, or register a tool-use model in benchmarks/models.yaml; opencode's ambient default is never inherited"@,
    );
}

/// A terminal session that did not start, or did not end, is told with what
/// tmux said of it.
pub proof fn law_terminal_refusals_are_told(
    session: Seq<char>,
    why: String,
    alive: Result<bool, Error>,
)
    requires
        alive == Ok::<bool, Error>(true),
    ensures
        refusal_tells(tmux::start_check(Started::Failed(why)), why@),
        refusal_tells(
            tmux::start_check(Started::Exited { success: false, status: why }),
            why@,
        ),
        refusal_tells(tmux::kill_check(session, Killed::Refused { status: why, alive }), session),
        refusal_tells(tmux::kill_check(session, Killed::Refused { status: why, alive }), why@),
{
    lemma_parts_2("failed to spawn tmux: "@, why@);
    lemma_parts_2("tmux refused the session: "@, why@);
    lemma_parts_5(
        "tmux kill-session failed for "@,
        session,
        " with "@,
        why@,
        "; session is still alive"@,
    );
}

/// An error is that of a plugin.
pub open spec fn is_of_plugin(e: ErrorView, plugin: Seq<char>) -> bool {
    match e {
        ErrorView::Plugin { plugin: p, .. } => p == plugin,
        ErrorView::PluginClosed(p) => p == plugin,
        _ => false,
    }
}

/// What goes wrong with a call of a plugin is told as that plugin's, with the
/// method where it took too long.
pub proof fn law_failed_calls_are_told_as_the_plugins(
    plugin: Seq<char>,
    method: Seq<char>,
    id: u64,
    secs: u64,
    event: LifecycleEvent,
    reply: ReplyEvent,
)
    ensures
        protocol::lifecycle_action(plugin, method, id, secs, event) matches LifecycleView::Fail {
            error,
            ..
        } ==> is_of_plugin(error, plugin),
        protocol::received(plugin, method, secs, reply) matches ReceivedView::Failed { error, .. }
            ==> is_of_plugin(error, plugin),
        protocol::received(plugin, method, secs, ReplyEvent::Timeout) matches ReceivedView::Failed {
            error: ErrorView::Plugin { message, .. },
            ..
        } && text::contains(message, method) && text::contains(message, text::decimal(secs as nat)),
        protocol::lifecycle_action(plugin, method, id, secs, LifecycleEvent::Expired) matches
            LifecycleView::Fail { error: ErrorView::Plugin { message, .. }, .. } && text::contains(
            message,
            method,
        ) && text::contains(message, text::decimal(secs as nat)),
        protocol::lifecycle_action(plugin, method, id, secs, LifecycleEvent::Cancelled) matches
            LifecycleView::Fail { error: ErrorView::Plugin { message, .. }, .. } && text::contains(
            message,
            method,
        ),
{
    lemma_parts_5(
        "call "@,
        method,
        " timed out after "@,
        text::decimal(secs as nat),
        "s — plugin process tree killed"@,
    );
    lemma_parts_5(
        "lifecycle call "@,
        method,
        " timed out after "@,
        text::decimal(secs as nat),
        "s — plugin process tree killed"@,
    );
    lemma_parts_3("lifecycle call "@, method, " cancelled — plugin process tree killed"@);
}

/// A record that does not read is refused with its file and the reason, and a
/// secret that is none, with its file.
pub proof fn law_unreadable_files_are_told(
    root: Seq<char>,
    file: Seq<char>,
    id: Seq<char>,
    version: Seq<char>,
    digest: Seq<char>,
    now: u64,
    why: String,
    stored: Seq<char>,
)
    ensures
        refusal_tells(
            plugin_install::kept_record(Some(Err(why)), file, id, version, digest, now),
            file,
        ),
        refusal_tells(
            plugin_install::kept_record(Some(Err(why)), file, id, version, digest, now),
            why@,
        ),
        plugin_install::is_component(id) && plugin_install::is_component(version) ==> refusal_tells(
            plugin_install::read_record(root, id, version, Ok(Err(why))),
            plugin_install::receipt_path(root, id, version),
        ) && refusal_tells(
            plugin_install::read_record(root, id, version, Ok(Err(why))),
            why@,
        ),
        !policy::is_secret(text::trimmed(stored)) ==> refusal_tells(
            policy::stored_secret(file, stored),
            file,
        ),
{
    lemma_parts_4("invalid install record "@, file, ": "@, why@);
    lemma_parts_4(
        "invalid install record "@,
        plugin_install::receipt_path(root, id, version),
        ": "@,
        why@,
    );
    lemma_parts_2("OpenCode control token is malformed: "@, file);
}

} // verus!
