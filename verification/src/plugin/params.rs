//! The parameters that the protocol's methods take.
use vstd::prelude::*;
use crate::json;
use crate::json::{Json, JsonView};
use crate::path;
use crate::plugin::manifest::PluginSource;
use crate::plugin::protocol::FaucetCall;
use crate::table;
use crate::table::Table;
use crate::text;

verus! {

/// The parameters that name a session.
pub open spec fn of_session(session_id: Seq<char>) -> Map<Seq<char>, JsonView> {
    Map::empty().insert("session_id"@, JsonView::Text(session_id))
}

/// The parameters that name a session: those of `describe`, `session_probe`
/// and `oracles`.
pub fn session_params(session_id: &str) -> (r: Json)
    ensures
        r@ == JsonView::Object(of_session(session_id@)),
{
    let mut out = json::no_fields();
    json::put_text(&mut out, "session_id", session_id);
    Json::Object(out)
}

/// The parameters of a command in a session's sandbox.
pub fn sandbox_exec_v1_params(session_id: &str, command: &str) -> (r: Json)
    ensures
        r@ == JsonView::Object(
            of_session(session_id@).insert("command"@, JsonView::Text(command@)),
        ),
{
    let mut out = json::no_fields();
    json::put_text(&mut out, "session_id", session_id);
    json::put_text(&mut out, "command", command);
    Json::Object(out)
}

/// The parameters of one check in a session.
pub fn call_oracle_v1_params(session_id: &str, name: &str) -> (r: Json)
    ensures
        r@ == JsonView::Object(of_session(session_id@).insert("name"@, JsonView::Text(name@))),
{
    let mut out = json::no_fields();
    json::put_text(&mut out, "session_id", session_id);
    json::put_text(&mut out, "name", name);
    Json::Object(out)
}

/// A text or null.
pub open spec fn text_or_null(v: Option<String>) -> JsonView {
    match v {
        Some(s) => JsonView::Text(s@),
        None => JsonView::Null,
    }
}

/// A number or null.
pub open spec fn number_or_null(v: Option<u64>) -> JsonView {
    match v {
        Some(n) => JsonView::Number(text::decimal(n as nat)),
        None => JsonView::Null,
    }
}

/// The value of an optional text.
fn optional_text(v: &Option<String>) -> (r: Json)
    ensures
        r@ == text_or_null(*v),
{
    match v {
        Some(s) => Json::text(s.as_str()),
        None => Json::Null,
    }
}

/// The parameters of a faucet operation in a session: every argument, null
/// where there is none.
pub fn faucet_v1_params(session_id: &str, op: &str, call: &FaucetCall) -> (r: Json)
    ensures
        r@ == JsonView::Object(
            of_session(session_id@).insert("op"@, JsonView::Text(op@)).insert(
                "call"@,
                JsonView::Object(
                    Map::empty().insert("invoice"@, text_or_null(call.invoice)).insert(
                        "amount_sat"@,
                        number_or_null(call.amount_sat),
                    ).insert("memo"@, text_or_null(call.memo)),
                ),
            ),
        ),
{
    let mut args = json::no_fields();
    json::put(&mut args, "invoice", optional_text(&call.invoice));
    let amount = match call.amount_sat {
        Some(n) => Json::Number(text::decimal_of(n)),
        None => Json::Null,
    };
    json::put(&mut args, "amount_sat", amount);
    json::put(&mut args, "memo", optional_text(&call.memo));
    let mut out = json::no_fields();
    json::put_text(&mut out, "session_id", session_id);
    json::put_text(&mut out, "op", op);
    json::put(&mut out, "call", Json::Object(args));
    Json::Object(out)
}

/// The fields of a value; none where it is no object.
pub open spec fn fields_or_none(v: JsonView) -> Map<Seq<char>, JsonView> {
    match json::as_fields(v) {
        Some(m) => m,
        None => Map::empty(),
    }
}

/// The parameters of funding a session's wallet.
pub fn wallet_fund_v1_params(session_id: &str, params: &Json) -> (r: Json)
    ensures
        r@ == JsonView::Object(
            fields_or_none(params@).insert("session_id"@, JsonView::Text(session_id@)),
        ),
{
    let mut out = match params.as_object() {
        Some(t) => json::copy_fields(t),
        None => json::no_fields(),
    };
    json::put_text(&mut out, "session_id", session_id);
    Json::Object(out)
}

/// Parameters with the mission's source pins, where it has any.
pub open spec fn with_sources(
    params: Map<Seq<char>, JsonView>,
    sources: Option<Map<Seq<char>, JsonView>>,
) -> JsonView {
    match sources {
        Some(m) => JsonView::Object(params.insert("sources"@, JsonView::Object(m))),
        None => JsonView::Object(params),
    }
}

/// Add the mission's source pins, where it has any.
fn put_sources(params: Table<Json>, sources: Option<&Table<Json>>) -> (r: Json)
    ensures
        r@ == with_sources(json::fields(params), json::opt_fields(sources)),
{
    let mut out = params;
    match sources {
        Some(t) => {
            json::put(&mut out, "sources", Json::Object(json::copy_fields(t)));
        },
        None => {},
    }
    Json::Object(out)
}

/// The parameters of `sources`.
pub fn sources_params(sources: Option<&Table<Json>>) -> (r: Json)
    ensures
        r@ == with_sources(Map::empty(), json::opt_fields(sources)),
{
    put_sources(json::no_fields(), sources)
}

/// The parameters of `sandbox_exec`.
pub fn sandbox_exec_params(command: &str, sources: Option<&Table<Json>>) -> (r: Json)
    ensures
        r@ == with_sources(
            Map::empty().insert("command"@, JsonView::Text(command@)),
            json::opt_fields(sources),
        ),
{
    let mut out = json::no_fields();
    json::put_text(&mut out, "command", command);
    put_sources(out, sources)
}

/// The parameters of `wallet_fund`.
pub fn wallet_fund_params(params: Table<Json>, sources: Option<&Table<Json>>) -> (r: Json)
    ensures
        r@ == with_sources(json::fields(params), json::opt_fields(sources)),
{
    put_sources(params, sources)
}

/// Parameters with a text, where there is one.
pub open spec fn with_text(
    params: Map<Seq<char>, JsonView>,
    key: Seq<char>,
    value: Option<String>,
) -> Map<Seq<char>, JsonView> {
    match value {
        Some(s) => params.insert(key, JsonView::Text(s@)),
        None => params,
    }
}

/// The parameters of `faucet`: only the arguments that are there.
pub fn faucet_params(op: &str, call: &FaucetCall) -> (r: Json)
    ensures
        r@ == ({
            let invoiced = with_text(
                Map::empty().insert("op"@, JsonView::Text(op@)),
                "invoice"@,
                call.invoice,
            );
            let amounted = match call.amount_sat {
                Some(n) => invoiced.insert(
                    "amount_sat"@,
                    JsonView::Number(text::decimal(n as nat)),
                ),
                None => invoiced,
            };
            JsonView::Object(with_text(amounted, "memo"@, call.memo))
        }),
{
    let mut out = json::no_fields();
    json::put_text(&mut out, "op", op);
    match &call.invoice {
        Some(s) => {
            json::put_text(&mut out, "invoice", s.as_str());
        },
        None => {},
    }
    match call.amount_sat {
        Some(n) => {
            json::put(&mut out, "amount_sat", Json::Number(text::decimal_of(n)));
        },
        None => {},
    }
    match &call.memo {
        Some(s) => {
            json::put_text(&mut out, "memo", s.as_str());
        },
        None => {},
    }
    Json::Object(out)
}

/// The parameters of `operation_status`: what the operation itself takes, and
/// its key.
pub fn operation_status_params(key: &str, params: &Json) -> (r: Json)
    ensures
        r@ == JsonView::Object(
            fields_or_none(params@).insert("idempotency_key"@, JsonView::Text(key@)),
        ),
{
    let mut out = match params.as_object() {
        Some(t) => json::copy_fields(t),
        None => json::no_fields(),
    };
    json::put_text(&mut out, "idempotency_key", key);
    Json::Object(out)
}

// ---------------------------------------------------------------------
// Sources
// ---------------------------------------------------------------------

/// What a plugin is told of one source: its commit, where it is on the host,
/// and where it belongs in the sandbox.
pub open spec fn source_param(source: PluginSource, sha: Seq<char>, cache: Seq<char>) -> JsonView {
    JsonView::Object(
        Map::empty().insert("id"@, JsonView::Text(source.id@)).insert(
            "sha"@,
            JsonView::Text(sha),
        ).insert(
            "host_path"@,
            JsonView::Text(path::joined(path::joined(cache, source.id@), sha)),
        ).insert("mount"@, JsonView::Text(source.mount@)),
    )
}

/// What a plugin is told of the source at the commit `sha`.
fn build_source(source: &PluginSource, sha: &str, cache: &str) -> (r: Json)
    ensures
        r@ == source_param(*source, sha@, cache@),
{
    let mut out = json::no_fields();
    json::put_text(&mut out, "id", source.id.as_str());
    json::put_text(&mut out, "sha", sha);
    json::put_text(
        &mut out,
        "host_path",
        path::join(path::join(cache, source.id.as_str()).as_str(), sha).as_str(),
    );
    json::put_text(&mut out, "mount", source.mount.as_str());
    Json::Object(out)
}

/// What a plugin is told of its first `n` sources, those that have a chosen
/// commit.
pub open spec fn chosen_sources(
    sources: Seq<PluginSource>,
    shas: Map<Seq<char>, Seq<char>>,
    cache: Seq<char>,
    n: nat,
) -> Seq<JsonView>
    decreases n,
{
    if n == 0 {
        Seq::empty()
    } else {
        let before = chosen_sources(sources, shas, cache, (n - 1) as nat);
        let source = sources[n - 1];
        if shas.dom().contains(source.id@) {
            before.push(source_param(source, shas[source.id@], cache))
        } else {
            before
        }
    }
}

/// What a plugin is told of its sources that have a chosen commit.
pub fn source_params(sources: &Vec<PluginSource>, shas: &Table<String>, cache: &str) -> (r: Vec<
    Json,
>)
    ensures
        json::items(r@) == chosen_sources(
            sources@,
            table::text_values(shas@),
            cache@,
            sources@.len(),
        ),
{
    let ghost view = table::text_values(shas@);
    assert(view.dom() =~= shas@.dom());
    let mut out: Vec<Json> = Vec::new();
    let mut i: usize = 0;
    assert(json::items(out@) =~= Seq::empty());
    while i < sources.len()
        invariant
            i <= sources@.len(),
            view == table::text_values(shas@),
            view.dom() == shas@.dom(),
            json::items(out@) == chosen_sources(sources@, view, cache@, i as nat),
        decreases sources@.len() - i,
    {
        let source = &sources[i];
        match table::text_at(shas, source.id.as_str()) {
            Some(sha) => {
                let ghost was = json::items(out@);
                let param = build_source(source, sha, cache);
                out.push(param);
                assert(json::items(out@) =~= was.push(param@));
            },
            None => {},
        }
        i = i + 1;
    }
    out
}

/// What a plugin is told of its first `n` sources at their default commits.
pub open spec fn default_sources(sources: Seq<PluginSource>, cache: Seq<char>, n: nat) -> Seq<JsonView>
    decreases n,
{
    if n == 0 {
        Seq::empty()
    } else {
        default_sources(sources, cache, (n - 1) as nat).push(
            source_param(sources[n - 1], sources[n - 1].default_sha@, cache),
        )
    }
}

/// What a plugin is told of its sources at their default commits.
pub fn default_source_params(sources: &Vec<PluginSource>, cache: &str) -> (r: Vec<Json>)
    ensures
        json::items(r@) == default_sources(sources@, cache@, sources@.len()),
{
    let mut out: Vec<Json> = Vec::new();
    let mut i: usize = 0;
    assert(json::items(out@) =~= Seq::empty());
    while i < sources.len()
        invariant
            i <= sources@.len(),
            json::items(out@) == default_sources(sources@, cache@, i as nat),
        decreases sources@.len() - i,
    {
        let source = &sources[i];
        let ghost was = json::items(out@);
        let param = build_source(source, source.default_sha.as_str(), cache);
        out.push(param);
        assert(json::items(out@) =~= was.push(param@));
        i = i + 1;
    }
    out
}

// ---------------------------------------------------------------------
// Laws
// ---------------------------------------------------------------------

/// An element tells a plugin of a source at a commit: which one it is, which
/// commit, where that commit's tree is on the host, and where it belongs in
/// the sandbox.
pub open spec fn tells_of(e: JsonView, source: PluginSource, sha: Seq<char>, cache: Seq<char>) -> bool {
    &&& json::member_text(e, "id"@) == Some(source.id@)
    &&& json::member_text(e, "sha"@) == Some(sha)
    &&& json::member_text(e, "host_path"@) == Some(
        path::joined(path::joined(cache, source.id@), sha),
    )
    &&& json::member_text(e, "mount"@) == Some(source.mount@)
}

proof fn lemma_source_param(source: PluginSource, sha: Seq<char>, cache: Seq<char>)
    ensures
        tells_of(source_param(source, sha, cache), source, sha, cache),
{
    reveal_strlit("id");
    reveal_strlit("sha");
    reveal_strlit("host_path");
    reveal_strlit("mount");
    assert("id"@.len() == 2 && "sha"@.len() == 3 && "host_path"@.len() == 9 && "mount"@.len() == 5);
}

/// Elements tell of the sources that a commit was chosen for, each at its
/// commit, and of nothing else.
pub open spec fn tells_all(
    all: Seq<JsonView>,
    sources: Seq<PluginSource>,
    shas: Map<Seq<char>, Seq<char>>,
    cache: Seq<char>,
) -> bool {
    &&& forall|j: int| 0 <= j < all.len() ==> is_told_of(#[trigger] all[j], sources, shas, cache)
    &&& forall|i: int|
        0 <= i < sources.len() && shas.dom().contains((#[trigger] sources[i]).id@) ==> exists|
            j: int,
        |
            0 <= j < all.len() && tells_of(
                #[trigger] all[j],
                sources[i],
                shas[sources[i].id@],
                cache,
            )
}

/// An element tells of some source at the commit that was chosen for it.
pub open spec fn is_told_of(
    e: JsonView,
    sources: Seq<PluginSource>,
    shas: Map<Seq<char>, Seq<char>>,
    cache: Seq<char>,
) -> bool {
    exists|i: int|
        0 <= i < sources.len() && shas.dom().contains((#[trigger] sources[i]).id@) && tells_of(
            e,
            sources[i],
            shas[sources[i].id@],
            cache,
        )
}

/// How many of the first `n` sources have a chosen commit.
pub open spec fn chosen_count(
    sources: Seq<PluginSource>,
    shas: Map<Seq<char>, Seq<char>>,
    n: nat,
) -> nat
    decreases n,
{
    if n == 0 {
        0
    } else if shas.dom().contains(sources[n - 1].id@) {
        chosen_count(sources, shas, (n - 1) as nat) + 1
    } else {
        chosen_count(sources, shas, (n - 1) as nat)
    }
}

/// A plugin is told of every source that a commit was chosen for, at just that
/// commit, and of no other.
pub proof fn law_sources_are_told_at_their_commits(
    sources: Seq<PluginSource>,
    shas: Map<Seq<char>, Seq<char>>,
    cache: Seq<char>,
    n: nat,
)
    requires
        n <= sources.len(),
    ensures
        tells_all(
            chosen_sources(sources, shas, cache, n),
            sources.take(n as int),
            shas,
            cache,
        ),
        n == sources.len() ==> tells_all(
            chosen_sources(sources, shas, cache, n),
            sources,
            shas,
            cache,
        ),
        chosen_sources(sources, shas, cache, n).len() == chosen_count(sources, shas, n),
    decreases n,
{
    if n > 0 {
        law_sources_are_told_at_their_commits(sources, shas, cache, (n - 1) as nat);
        let before = chosen_sources(sources, shas, cache, (n - 1) as nat);
        let all = chosen_sources(sources, shas, cache, n);
        let last = sources[n - 1];
        let fewer = sources.take(n - 1);
        let more = sources.take(n as int);
        if shas.dom().contains(last.id@) {
            lemma_source_param(last, shas[last.id@], cache);
        }
        assert forall|j: int| 0 <= j < all.len() implies is_told_of(
            #[trigger] all[j],
            more,
            shas,
            cache,
        ) by {
            if j < before.len() {
                assert(all[j] == before[j]);
                assert(is_told_of(before[j], fewer, shas, cache));
                let i = choose|i: int|
                    0 <= i < fewer.len() && shas.dom().contains((#[trigger] fewer[i]).id@)
                        && tells_of(before[j], fewer[i], shas[fewer[i].id@], cache);
                assert(more[i] == fewer[i]);
            } else {
                assert(more[n - 1] == last);
            }
        }
        assert forall|i: int|
            0 <= i < more.len() && shas.dom().contains((#[trigger] more[i]).id@) implies exists|j: int|
            0 <= j < all.len() && tells_of(#[trigger] all[j], more[i], shas[more[i].id@], cache) by {
            if i < n - 1 {
                assert(fewer[i] == more[i]);
                let j = choose|j: int|
                    0 <= j < before.len() && tells_of(
                        #[trigger] before[j],
                        fewer[i],
                        shas[fewer[i].id@],
                        cache,
                    );
                assert(all[j] == before[j]);
            } else {
                assert(all[before.len() as int] == source_param(last, shas[last.id@], cache));
            }
        }
    }
    if n == sources.len() {
        assert(sources.take(n as int) =~= sources);
    }
}

/// Where the sources go by different names, no two elements are of one source.
pub proof fn law_sources_are_told_once(
    sources: Seq<PluginSource>,
    shas: Map<Seq<char>, Seq<char>>,
    cache: Seq<char>,
    n: nat,
)
    requires
        n <= sources.len(),
        forall|i: int, j: int|
            0 <= i < j < sources.len() ==> (#[trigger] sources[i]).id@ != (#[trigger] sources[j]).id@,
    ensures
        forall|i: int, j: int|
            0 <= i < j < chosen_sources(sources, shas, cache, n).len() ==> json::member_text(
                #[trigger] chosen_sources(sources, shas, cache, n)[i],
                "id"@,
            ) != json::member_text(#[trigger] chosen_sources(sources, shas, cache, n)[j], "id"@),
    decreases n,
{
    if n > 0 {
        law_sources_are_told_once(sources, shas, cache, (n - 1) as nat);
        law_sources_are_told_at_their_commits(sources, shas, cache, (n - 1) as nat);
        let before = chosen_sources(sources, shas, cache, (n - 1) as nat);
        let all = chosen_sources(sources, shas, cache, n);
        let last = sources[n - 1];
        if shas.dom().contains(last.id@) {
            lemma_source_param(last, shas[last.id@], cache);
            assert forall|i: int, j: int| 0 <= i < j < all.len() implies json::member_text(
                #[trigger] all[i],
                "id"@,
            ) != json::member_text(#[trigger] all[j], "id"@) by {
                assert(all[i] == before[i]);
                if j < before.len() {
                    assert(all[j] == before[j]);
                } else {
                    let fewer = sources.take(n - 1);
                    assert(is_told_of(before[i], fewer, shas, cache));
                    let k = choose|k: int|
                        0 <= k < fewer.len() && shas.dom().contains((#[trigger] fewer[k]).id@)
                            && tells_of(before[i], fewer[k], shas[fewer[k].id@], cache);
                    assert(fewer[k] == sources[k]);
                    assert(sources[k].id@ != sources[n - 1].id@);
                }
            }
        }
    }
}

/// A setup is told of every source of its plugin, in their order, each at its
/// default commit.
pub proof fn law_defaults_are_told_at_their_commits(
    sources: Seq<PluginSource>,
    cache: Seq<char>,
    n: nat,
)
    requires
        n <= sources.len(),
    ensures
        default_sources(sources, cache, n).len() == n,
        forall|i: int|
            0 <= i < n ==> tells_of(
                #[trigger] default_sources(sources, cache, n)[i],
                sources[i],
                sources[i].default_sha@,
                cache,
            ),
    decreases n,
{
    if n > 0 {
        law_defaults_are_told_at_their_commits(sources, cache, (n - 1) as nat);
        lemma_source_param(sources[n - 1], sources[n - 1].default_sha@, cache);
    }
}

/// Parameters keep what they say, and name the session, or the pins of the
/// mission, beside it.
pub proof fn law_parameters_are_kept(
    params: Map<Seq<char>, JsonView>,
    sources: Map<Seq<char>, JsonView>,
    session_id: Seq<char>,
    key: Seq<char>,
)
    ensures
        json::member_fields(with_sources(params, Some(sources)), "sources"@) == Some(sources),
        key != "sources"@ ==> json::member(with_sources(params, Some(sources)), key)
            == json::entry(params, key),
        with_sources(params, None) == JsonView::Object(params),
        json::entry_text(of_session(session_id), "session_id"@) == Some(session_id),
        fields_or_none(JsonView::Object(params)) == params,
{
}

/// Optional arguments are told as what they are, and as null where there are
/// none; a text that there is none of is left out.
pub proof fn law_optional_arguments_are_told(
    given: String,
    n: u64,
    params: Map<Seq<char>, JsonView>,
    key: Seq<char>,
    other: Seq<char>,
)
    ensures
        json::as_text(text_or_null(Some(given))) == Some(given@),
        text_or_null(None) is Null,
        json::as_whole(number_or_null(Some(n))) == Some(n),
        number_or_null(None) is Null,
        json::entry_text(with_text(params, key, Some(given)), key) == Some(given@),
        other != key ==> json::entry(with_text(params, key, Some(given)), other) == json::entry(
            params,
            other,
        ),
        with_text(params, key, None) == params,
{
    text::law_decimal_is_read_back(n as nat);
}

} // verus!
