//! What a project's runs used: tokens by provider and model, read off the
//! exported transcripts. Costs are carried in the notation they were exported
//! in, in the order they are to be added.
use vstd::prelude::*;
use crate::json;
use crate::json::{Json, JsonView};
use crate::path;
use crate::table;
use crate::table::Table;
use crate::text;

verus! {

/// The usage of one model of one provider.
#[derive(Debug, PartialEq, Eq)]
pub struct UsageRow {
    pub provider: String,
    pub model: String,
    /// The assistant messages counted.
    pub messages: u64,
    pub tokens_input: u64,
    pub tokens_output: u64,
    pub tokens_reasoning: u64,
    pub cache_read: u64,
    pub cache_write: u64,
    /// The costs, each as it was exported.
    pub costs: Vec<String>,
}

/// What a usage row holds.
#[verifier::ext_equal]
pub struct RowView {
    pub provider: Seq<char>,
    pub model: Seq<char>,
    pub messages: nat,
    pub tokens_input: nat,
    pub tokens_output: nat,
    pub tokens_reasoning: nat,
    pub cache_read: nat,
    pub cache_write: nat,
    pub costs: Seq<Seq<char>>,
}

impl View for UsageRow {
    type V = RowView;

    open spec fn view(&self) -> RowView {
        RowView {
            provider: self.provider@,
            model: self.model@,
            messages: self.messages as nat,
            tokens_input: self.tokens_input as nat,
            tokens_output: self.tokens_output as nat,
            tokens_reasoning: self.tokens_reasoning as nat,
            cache_read: self.cache_read as nat,
            cache_write: self.cache_write as nat,
            costs: text::texts(self.costs@),
        }
    }
}

/// What a list of usage rows holds.
pub open spec fn row_views(v: Seq<UsageRow>) -> Seq<RowView> {
    Seq::new(v.len(), |i: int| v[i]@)
}

/// The usage of a project: a row for each provider and model in that order,
/// and the tokens in all.
#[derive(Debug, PartialEq, Eq)]
pub struct UsageReport {
    pub rows: Vec<UsageRow>,
    pub tokens: u64,
}

// ---------------------------------------------------------------------
// Adding up
// ---------------------------------------------------------------------

/// A row that counts nothing.
pub open spec fn zero_row(provider: Seq<char>, model: Seq<char>) -> RowView {
    RowView {
        provider,
        model,
        messages: 0,
        tokens_input: 0,
        tokens_output: 0,
        tokens_reasoning: 0,
        cache_read: 0,
        cache_write: 0,
        costs: Seq::empty(),
    }
}

/// A row with another added to it.
pub open spec fn added(a: RowView, b: RowView) -> RowView {
    RowView {
        provider: a.provider,
        model: a.model,
        messages: a.messages + b.messages,
        tokens_input: a.tokens_input + b.tokens_input,
        tokens_output: a.tokens_output + b.tokens_output,
        tokens_reasoning: a.tokens_reasoning + b.tokens_reasoning,
        cache_read: a.cache_read + b.cache_read,
        cache_write: a.cache_write + b.cache_write,
        costs: a.costs + b.costs,
    }
}

/// A count of the row is more than can be held.
pub open spec fn is_over(r: RowView) -> bool {
    ||| r.messages > u64::MAX
    ||| r.tokens_input > u64::MAX
    ||| r.tokens_output > u64::MAX
    ||| r.tokens_reasoning > u64::MAX
    ||| r.cache_read > u64::MAX
    ||| r.cache_write > u64::MAX
}

/// The sum of those of the first `n` entries that are of one provider and
/// model.
pub open spec fn merged(
    entries: Seq<RowView>,
    n: nat,
    provider: Seq<char>,
    model: Seq<char>,
) -> Option<RowView>
    decreases n,
{
    if n == 0 {
        None
    } else {
        let before = merged(entries, (n - 1) as nat, provider, model);
        let e = entries[n - 1];
        if e.provider == provider && e.model == model {
            Some(
                added(
                    match before {
                        Some(r) => r,
                        None => zero_row(provider, model),
                    },
                    e,
                ),
            )
        } else {
            before
        }
    }
}

/// No count of any sum is more than can be held.
pub open spec fn all_fit(entries: Seq<RowView>) -> bool {
    forall|p: Seq<char>, m: Seq<char>|
        #![trigger merged(entries, entries.len(), p, m)]
        merged(entries, entries.len(), p, m) matches Some(r) ==> !is_over(r)
}

/// The models of a provider that have an entry.
pub open spec fn models_of(entries: Seq<RowView>, provider: Seq<char>) -> Set<Seq<char>> {
    Set::new(|m: Seq<char>| merged(entries, entries.len(), provider, m) is Some)
}

/// The providers that have an entry.
pub open spec fn providers_of(entries: Seq<RowView>) -> Set<Seq<char>> {
    Set::new(
        |p: Seq<char>| exists|m: Seq<char>| #[trigger] merged(entries, entries.len(), p, m) is Some,
    )
}

/// The sums of the first `n` of the given models of a provider.
pub open spec fn model_sums(
    entries: Seq<RowView>,
    provider: Seq<char>,
    models: Seq<Seq<char>>,
    n: nat,
) -> Seq<RowView>
    decreases n,
{
    if n == 0 {
        Seq::empty()
    } else {
        model_sums(entries, provider, models, (n - 1) as nat).push(
            merged(entries, entries.len(), provider, models[n - 1])->Some_0,
        )
    }
}

/// The sums of the first `n` of the given providers.
pub open spec fn provider_sums(entries: Seq<RowView>, providers: Seq<Seq<char>>, n: nat) -> Seq<
    RowView,
>
    decreases n,
{
    if n == 0 {
        Seq::empty()
    } else {
        let p = providers[n - 1];
        let models = table::in_order(models_of(entries, p));
        provider_sums(entries, providers, (n - 1) as nat) + model_sums(
            entries,
            p,
            models,
            models.len(),
        )
    }
}

/// The sums of entries by provider and model, in that order.
pub open spec fn sums(entries: Seq<RowView>) -> Seq<RowView> {
    let providers = table::in_order(providers_of(entries));
    provider_sums(entries, providers, providers.len())
}

/// A sum has the provider and the model it is the sum of, and only grows.
proof fn lemma_merged_grows(entries: Seq<RowView>, i: nat, n: nat, p: Seq<char>, m: Seq<char>)
    requires
        i <= n,
        merged(entries, i, p, m) matches Some(r) && is_over(r),
    ensures
        merged(entries, n, p, m) matches Some(r) && is_over(r),
    decreases n,
{
    if i < n {
        lemma_merged_grows(entries, i, (n - 1) as nat, p, m);
    }
}

/// `a` and `b` added, if every count can be held.
fn add_rows(a: UsageRow, b: UsageRow) -> (r: Option<UsageRow>)
    ensures
        match r {
            Some(s) => s@ == added(a@, b@),
            None => is_over(added(a@, b@)),
        },
{
    let messages = a.messages.checked_add(b.messages);
    let tokens_input = a.tokens_input.checked_add(b.tokens_input);
    let tokens_output = a.tokens_output.checked_add(b.tokens_output);
    let tokens_reasoning = a.tokens_reasoning.checked_add(b.tokens_reasoning);
    let cache_read = a.cache_read.checked_add(b.cache_read);
    let cache_write = a.cache_write.checked_add(b.cache_write);
    match (messages, tokens_input, tokens_output, tokens_reasoning, cache_read, cache_write) {
        (
            Some(messages),
            Some(tokens_input),
            Some(tokens_output),
            Some(tokens_reasoning),
            Some(cache_read),
            Some(cache_write),
        ) => {
            let mut costs = a.costs;
            let mut more = b.costs;
            let ghost x = text::texts(costs@);
            let ghost y = text::texts(more@);
            costs.append(&mut more);
            assert(text::texts(costs@) =~= x + y);
            Some(
                UsageRow {
                    provider: a.provider,
                    model: a.model,
                    messages,
                    tokens_input,
                    tokens_output,
                    tokens_reasoning,
                    cache_read,
                    cache_write,
                    costs,
                },
            )
        },
        _ => None,
    }
}

/// What a table of sums holds for a provider and a model.
spec fn held(t: Map<Seq<char>, Table<UsageRow>>, p: Seq<char>, m: Seq<char>) -> Option<RowView> {
    if t.dom().contains(p) && t[p]@.dom().contains(m) {
        Some(t[p]@[m]@)
    } else {
        None
    }
}

/// The sums of the entries by provider and model, if every count can be held.
fn sum_table(entries: Vec<UsageRow>) -> (r: Option<Table<Table<UsageRow>>>)
    ensures
        match r {
            Some(t) => {
                &&& all_fit(row_views(entries@))
                &&& forall|p: Seq<char>, m: Seq<char>|
                    #![trigger held(t@, p, m)]
                    held(t@, p, m) == merged(row_views(entries@), entries@.len(), p, m)
                &&& forall|p: Seq<char>| #[trigger]
                    t@.dom().contains(p) ==> exists|m: Seq<char>| t@[p]@.dom().contains(m)
            },
            None => !all_fit(row_views(entries@)),
        },
{
    let ghost all = row_views(entries@);
    let ghost total = entries@.len();
    let mut rest = entries;
    let mut out: Table<Table<UsageRow>> = Table::new();
    // The entries are taken from the front, so the row is turned round first.
    let mut queue: Vec<UsageRow> = Vec::new();
    let ghost given = rest@;
    while rest.len() > 0
        invariant
            queue@.len() + rest@.len() == given.len(),
            rest@ == given.take(rest@.len() as int),
            forall|i: int| 0 <= i < queue@.len() ==> #[trigger] queue@[i] == given[given.len() - 1 - i],
        decreases rest@.len(),
    {
        let ghost before = rest@;
        match rest.pop() {
            Some(e) => {
                assert(e == before.last());
                assert(e == given[before.len() - 1]);
                queue.push(e);
                assert(rest@ =~= given.take(rest@.len() as int));
            },
            None => {},
        }
    }
    let ghost mut done: nat = 0;
    while queue.len() > 0
        invariant
            all == row_views(given),
            given == entries@,
            total == given.len(),
            done + queue@.len() == total,
            forall|i: int| 0 <= i < queue@.len() ==> #[trigger] queue@[i] == given[given.len() - 1 - i],
            forall|p: Seq<char>, m: Seq<char>|
                #![trigger held(out@, p, m)]
                held(out@, p, m) == merged(all, done, p, m),
            forall|p: Seq<char>| #[trigger]
                out@.dom().contains(p) ==> exists|m: Seq<char>| out@[p]@.dom().contains(m),
        decreases queue@.len(),
    {
        let ghost before = queue@;
        let e = match queue.pop() {
            Some(e) => e,
            None => {
                return None;
            },
        };
        assert(e == before.last());
        assert(e == given[done as int]);
        assert(all[done as int] == e@);
        let ghost p0 = e.provider@;
        let ghost m0 = e.model@;
        let provider = e.provider.clone();
        let model = e.model.clone();
        let ghost was = out@;
        let mut inner = match out.remove(provider.as_str()) {
            Some(inner) => inner,
            None => Table::new(),
        };
        let ghost inner_was = inner@;
        let row = match inner.remove(model.as_str()) {
            Some(row) => row,
            None => {
                let costs: Vec<String> = Vec::new();
                assert(text::texts(costs@) =~= Seq::<Seq<char>>::empty());
                UsageRow {
                    provider: provider.clone(),
                    model: model.clone(),
                    messages: 0,
                    tokens_input: 0,
                    tokens_output: 0,
                    tokens_reasoning: 0,
                    cache_read: 0,
                    cache_write: 0,
                    costs,
                }
            },
        };
        proof {
            assert(held(was, p0, m0) == merged(all, done, p0, m0));
            assert(row@ == (match merged(all, done, p0, m0) {
                Some(r) => r,
                None => zero_row(p0, m0),
            }));
        }
        let ghost sum = added(row@, e@);
        assert(merged(all, done + 1, p0, m0) == Some(sum));
        match add_rows(row, e) {
            Some(row) => {
                inner.insert(model, row);
                out.insert(provider, inner);
                proof {
                    assert forall|p: Seq<char>, m: Seq<char>|
                        #![trigger held(out@, p, m)]
                        held(out@, p, m) == merged(all, done + 1, p, m) by {
                        assert(held(was, p, m) == merged(all, done, p, m));
                        if p == p0 && m != m0 {
                            assert(inner@.dom().contains(m) == inner_was.dom().contains(m));
                        }
                    }
                    assert forall|p: Seq<char>| #[trigger] out@.dom().contains(p) implies exists|
                        m: Seq<char>,
                    | out@[p]@.dom().contains(m) by {
                        if p == p0 {
                            assert(out@[p]@.dom().contains(m0));
                        } else {
                            assert(was.dom().contains(p));
                            let m = choose|m: Seq<char>| was[p]@.dom().contains(m);
                            assert(out@[p]@.dom().contains(m));
                        }
                    }
                    done = done + 1;
                }
            },
            None => {
                proof {
                    lemma_merged_grows(all, done + 1, total, p0, m0);
                    assert(merged(all, all.len(), p0, m0) is Some);
                }
                return None;
            },
        }
    }
    proof {
        assert(done == total);
        assert forall|p: Seq<char>, m: Seq<char>|
            #![trigger merged(all, all.len(), p, m)]
            merged(all, all.len(), p, m) matches Some(r) implies !is_over(
            merged(all, all.len(), p, m)->Some_0,
        ) by {
            assert(held(out@, p, m) == merged(all, done, p, m));
        }
    }
    Some(out)
}

/// The rows of a table of sums, by provider and model.
fn take_rows(t: Table<Table<UsageRow>>, entries: Ghost<Seq<RowView>>) -> (r: Vec<UsageRow>)
    requires
        forall|p: Seq<char>, m: Seq<char>|
            #![trigger held(t@, p, m)]
            held(t@, p, m) == merged(entries@, entries@.len(), p, m),
        forall|p: Seq<char>| #[trigger]
            t@.dom().contains(p) ==> exists|m: Seq<char>| t@[p]@.dom().contains(m),
    ensures
        row_views(r@) == sums(entries@),
{
    let mut out: Vec<UsageRow> = Vec::new();
    let n: usize = t.len();
    let ghost all = entries@;
    let ghost ps = table::in_order(t@.dom());
    proof {
        assert forall|p: Seq<char>| #[trigger] t@.dom().contains(p) <==> providers_of(all).contains(
            p,
        ) by {
            if t@.dom().contains(p) {
                let m = choose|m: Seq<char>| t@[p]@.dom().contains(m);
                assert(held(t@, p, m) is Some);
                assert(merged(all, all.len(), p, m) is Some);
            }
            if providers_of(all).contains(p) {
                let m = choose|m: Seq<char>| #[trigger] merged(all, all.len(), p, m) is Some;
                assert(held(t@, p, m) is Some);
            }
        }
        assert(t@.dom() =~= providers_of(all));
    }
    let mut i: usize = 0;
    assert(row_views(out@) =~= provider_sums(all, ps, 0));
    while i < n
        invariant
            i <= n,
            n == ps.len(),
            all == entries@,
            ps == table::in_order(t@.dom()),
            forall|p: Seq<char>, m: Seq<char>|
                #![trigger held(t@, p, m)]
                held(t@, p, m) == merged(all, all.len(), p, m),
            row_views(out@) == provider_sums(all, ps, i as nat),
        decreases n - i,
    {
        let inner = t.value_at(i);
        let ghost p = ps[i as int];
        let k: usize = inner.len();
        let ghost ms = table::in_order(inner@.dom());
        proof {
            assert forall|m: Seq<char>| #[trigger] inner@.dom().contains(m) <==> models_of(
                all,
                p,
            ).contains(m) by {
                assert(held(t@, p, m) == merged(all, all.len(), p, m));
            }
            assert(inner@.dom() =~= models_of(all, p));
        }
        let ghost before = row_views(out@);
        let mut j: usize = 0;
        assert(before + model_sums(all, p, ms, 0) =~= before);
        while j < k
            invariant
                j <= k,
                i < n,
                n == ps.len(),
                ps == table::in_order(t@.dom()),
                t@.dom().contains(p),
                p == ps[i as int],
                *inner == t@[p],
                k == ms.len(),
                ms == table::in_order(inner@.dom()),
                forall|p: Seq<char>, m: Seq<char>|
                    #![trigger held(t@, p, m)]
                    held(t@, p, m) == merged(all, all.len(), p, m),
                row_views(out@) == before + model_sums(all, p, ms, j as nat),
            decreases k - j,
        {
            let row = inner.value_at(j);
            assert(held(t@, p, ms[j as int]) == Some(row@));
            let ghost was = row_views(out@);
            let copy = copy_row(row);
            out.push(copy);
            assert(row_views(out@) =~= was.push(row@));
            j = j + 1;
            assert(row_views(out@) =~= before + model_sums(all, p, ms, j as nat));
        }
        i = i + 1;
    }
    out
}

/// A copy of a row.
fn copy_row(row: &UsageRow) -> (r: UsageRow)
    ensures
        r@ == row@,
{
    let mut costs: Vec<String> = Vec::new();
    let mut i: usize = 0;
    while i < row.costs.len()
        invariant
            i <= row.costs@.len(),
            costs@ == row.costs@.take(i as int),
        decreases row.costs@.len() - i,
    {
        costs.push(row.costs[i].clone());
        i = i + 1;
    }
    assert(costs@ =~= row.costs@);
    UsageRow {
        provider: row.provider.clone(),
        model: row.model.clone(),
        messages: row.messages,
        tokens_input: row.tokens_input,
        tokens_output: row.tokens_output,
        tokens_reasoning: row.tokens_reasoning,
        cache_read: row.cache_read,
        cache_write: row.cache_write,
        costs,
    }
}

/// The sums of entries by provider and model; none where a count is more than
/// can be held.
pub fn sum_rows(entries: Vec<UsageRow>) -> (r: Option<Vec<UsageRow>>)
    ensures
        match r {
            Some(rows) => all_fit(row_views(entries@)) && row_views(rows@) == sums(
                row_views(entries@),
            ),
            None => !all_fit(row_views(entries@)),
        },
{
    let ghost all = row_views(entries@);
    match sum_table(entries) {
        Some(t) => Some(take_rows(t, Ghost(all))),
        None => None,
    }
}

// ---------------------------------------------------------------------
// Transcripts
// ---------------------------------------------------------------------

/// The natural number under a key, or zero.
pub open spec fn count_at(v: JsonView, key: Seq<char>) -> u64 {
    match json::member(v, key) {
        Some(JsonView::Number(n)) => match text::parsed_u64(n) {
            Some(n) => n,
            None => 0,
        },
        _ => 0,
    }
}

/// The value under a key, or null.
pub open spec fn value_at(v: JsonView, key: Seq<char>) -> JsonView {
    match json::member(v, key) {
        Some(v) => v,
        None => JsonView::Null,
    }
}

/// The usage that an exported message records, if an assistant sent it. A
/// model that carries its provider's path is known by the last part.
pub open spec fn message_row(message: JsonView) -> Option<RowView> {
    let info = value_at(message, "info"@);
    if json::member_text(info, "role"@) != Some("assistant"@) {
        None
    } else {
        let tokens = value_at(info, "tokens"@);
        let cache = value_at(tokens, "cache"@);
        Some(
            RowView {
                provider: match json::member_text(info, "providerID"@) {
                    Some(p) => p,
                    None => "unknown"@,
                },
                model: match json::member_text(info, "modelID"@) {
                    Some(m) => text::pieces(m, '/').last(),
                    None => "unknown"@,
                },
                messages: 1,
                tokens_input: count_at(tokens, "input"@) as nat,
                tokens_output: count_at(tokens, "output"@) as nat,
                tokens_reasoning: count_at(tokens, "reasoning"@) as nat,
                cache_read: count_at(cache, "read"@) as nat,
                cache_write: count_at(cache, "write"@) as nat,
                costs: match json::member(info, "cost"@) {
                    Some(JsonView::Number(n)) => seq![n],
                    _ => Seq::empty(),
                },
            },
        )
    }
}

/// The tokens in all that an exported message records.
pub open spec fn message_tokens(message: JsonView) -> nat {
    let info = value_at(message, "info"@);
    if json::member_text(info, "role"@) != Some("assistant"@) {
        0
    } else {
        count_at(value_at(info, "tokens"@), "total"@) as nat
    }
}

/// The usage that the first `n` messages record.
pub open spec fn message_rows(messages: Seq<JsonView>, n: nat) -> Seq<RowView>
    decreases n,
{
    if n == 0 {
        Seq::empty()
    } else {
        let before = message_rows(messages, (n - 1) as nat);
        match message_row(messages[n - 1]) {
            Some(r) => before.push(r),
            None => before,
        }
    }
}

/// The tokens in all of the first `n` messages.
pub open spec fn tokens_of(messages: Seq<JsonView>, n: nat) -> nat
    decreases n,
{
    if n == 0 {
        0
    } else {
        tokens_of(messages, (n - 1) as nat) + message_tokens(messages[n - 1])
    }
}

/// The messages of an exported transcript.
pub open spec fn messages_of(doc: JsonView) -> Seq<JsonView> {
    match json::member(doc, "messages"@) {
        Some(JsonView::Array(items)) => items,
        _ => Seq::empty(),
    }
}

/// More messages never hold fewer tokens.
proof fn lemma_tokens_grow(messages: Seq<JsonView>, i: nat, n: nat)
    requires
        i <= n,
    ensures
        tokens_of(messages, i) <= tokens_of(messages, n),
    decreases n,
{
    if i < n {
        lemma_tokens_grow(messages, i, (n - 1) as nat);
    }
}

/// The natural number under `key`, or zero.
fn take_count(v: Option<&Json>, key: &str) -> (r: u64)
    ensures
        r == count_at(
            match v {
                Some(v) => v@,
                None => JsonView::Null,
            },
            key@,
        ),
{
    match v {
        Some(v) => match v.get(key) {
            Some(Json::Number(n)) => match text::parse_u64(n.as_str()) {
                Some(n) => n,
                None => 0,
            },
            _ => 0,
        },
        None => 0,
    }
}

/// The usage that an exported message records, and its tokens in all.
fn read_message(message: &Json) -> (r: Option<(UsageRow, u64)>)
    ensures
        match r {
            Some((row, tokens)) => message_row(message@) == Some(row@) && tokens == message_tokens(
                message@,
            ),
            None => message_row(message@) is None && message_tokens(message@) == 0,
        },
{
    let info = match message.get("info") {
        Some(info) => info,
        None => {
            return None;
        },
    };
    let assistant = match info.get_text("role") {
        Some(role) => text::same(role, "assistant"),
        None => false,
    };
    if !assistant {
        return None;
    }
    let provider = match info.get_text("providerID") {
        Some(p) => p.to_owned(),
        None => "unknown".to_owned(),
    };
    let model = match info.get_text("modelID") {
        Some(m) => {
            let parts = text::split(m, '/');
            let last = parts[parts.len() - 1].clone();
            assert(text::texts(parts@).last() == last@);
            last
        },
        None => "unknown".to_owned(),
    };
    let tokens = info.get("tokens");
    let cache = match tokens {
        Some(tokens) => tokens.get("cache"),
        None => None,
    };
    let mut costs: Vec<String> = Vec::new();
    match info.get("cost") {
        Some(Json::Number(n)) => {
            costs.push(n.clone());
            assert(text::texts(costs@) =~= seq![n@]);
        },
        _ => {
            assert(text::texts(costs@) =~= Seq::<Seq<char>>::empty());
        },
    }
    let row = UsageRow {
        provider,
        model,
        messages: 1,
        tokens_input: take_count(tokens, "input"),
        tokens_output: take_count(tokens, "output"),
        tokens_reasoning: take_count(tokens, "reasoning"),
        cache_read: take_count(cache, "read"),
        cache_write: take_count(cache, "write"),
        costs,
    };
    Some((row, take_count(tokens, "total")))
}

/// The usage that an exported transcript records.
pub open spec fn doc_fits(doc: JsonView) -> bool {
    let ms = messages_of(doc);
    tokens_of(ms, ms.len()) <= u64::MAX && all_fit(message_rows(ms, ms.len()))
}

/// The usage that the exported transcript `doc` records; none where a count is
/// more than can be held.
pub fn doc_usage(doc: &Json) -> (r: Option<UsageReport>)
    ensures
        match r {
            Some(report) => {
                &&& doc_fits(doc@)
                &&& row_views(report.rows@) == sums(
                    message_rows(messages_of(doc@), messages_of(doc@).len()),
                )
                &&& report.tokens == tokens_of(messages_of(doc@), messages_of(doc@).len())
            },
            None => !doc_fits(doc@),
        },
{
    let mut entries: Vec<UsageRow> = Vec::new();
    let mut tokens: u64 = 0;
    let ghost ms = messages_of(doc@);
    assert(row_views(entries@) =~= Seq::<RowView>::empty());
    match doc.get("messages") {
        Some(Json::Array(items)) => {
            let mut i: usize = 0;
            while i < items.len()
                invariant
                    i <= items@.len(),
                    ms == messages_of(doc@),
                    ms == json::items(items@),
                    row_views(entries@) == message_rows(ms, i as nat),
                    tokens == tokens_of(ms, i as nat),
                decreases items@.len() - i,
            {
                let message = &items[i];
                assert(ms[i as int] == message@);
                let ghost was = row_views(entries@);
                match read_message(message) {
                    Some((row, total)) => {
                        entries.push(row);
                        assert(row_views(entries@) =~= was.push(row@));
                        match tokens.checked_add(total) {
                            Some(sum) => {
                                tokens = sum;
                            },
                            None => {
                                proof {
                                    lemma_tokens_grow(ms, (i + 1) as nat, ms.len());
                                }
                                return None;
                            },
                        }
                    },
                    None => {},
                }
                i = i + 1;
            }
        },
        _ => {},
    }
    match sum_rows(entries) {
        Some(rows) => Some(UsageReport { rows, tokens }),
        None => None,
    }
}

/// Does the file `name` hold an exported transcript?
pub fn is_export(name: &str) -> (r: bool)
    ensures
        r == (path::extension_of(name@) == Some("json"@)),
{
    match path::extension(name) {
        Some(e) => text::same(e.as_str(), "json"),
        None => false,
    }
}

/// The usage that the text of a transcript file records: nothing where the
/// file cannot be read, where it is no JSON, or where a count is more than can
/// be held.
pub fn file_usage(raw: Option<&str>) -> (r: UsageReport)
    ensures
        match text::opt_str(raw) {
            Some(t) => match json::parsed(t) {
                Ok(doc) => if doc_fits(doc) {
                    &&& row_views(r.rows@) == sums(
                        message_rows(messages_of(doc), messages_of(doc).len()),
                    )
                    &&& r.tokens == tokens_of(messages_of(doc), messages_of(doc).len())
                } else {
                    r.rows@.len() == 0 && r.tokens == 0
                },
                Err(_) => r.rows@.len() == 0 && r.tokens == 0,
            },
            None => r.rows@.len() == 0 && r.tokens == 0,
        },
{
    let nothing = UsageReport { rows: Vec::new(), tokens: 0 };
    match raw {
        None => nothing,
        Some(raw) => match json::parse(raw) {
            Err(_) => nothing,
            Ok(doc) => match doc_usage(&doc) {
                Some(report) => report,
                None => nothing,
            },
        },
    }
}

// ---------------------------------------------------------------------
// Merging
// ---------------------------------------------------------------------

/// The rows of the first `n` reports, one after the other.
pub open spec fn report_rows(reports: Seq<UsageReport>, n: nat) -> Seq<RowView>
    decreases n,
{
    if n == 0 {
        Seq::empty()
    } else {
        report_rows(reports, (n - 1) as nat) + row_views(reports[n - 1].rows@)
    }
}

/// The tokens of the first `n` reports.
pub open spec fn report_tokens(reports: Seq<UsageReport>, n: nat) -> nat
    decreases n,
{
    if n == 0 {
        0
    } else {
        report_tokens(reports, (n - 1) as nat) + reports[n - 1].tokens as nat
    }
}

proof fn lemma_report_tokens_grow(reports: Seq<UsageReport>, i: nat, n: nat)
    requires
        i <= n,
    ensures
        report_tokens(reports, i) <= report_tokens(reports, n),
    decreases n,
{
    if i < n {
        lemma_report_tokens_grow(reports, i, (n - 1) as nat);
    }
}

/// The usage of all reports together; none where a count is more than can be
/// held.
pub fn merge_reports(reports: &[UsageReport]) -> (r: Option<UsageReport>)
    ensures
        match r {
            Some(report) => {
                &&& report_tokens(reports@, reports@.len()) <= u64::MAX
                &&& all_fit(report_rows(reports@, reports@.len()))
                &&& row_views(report.rows@) == sums(report_rows(reports@, reports@.len()))
                &&& report.tokens == report_tokens(reports@, reports@.len())
            },
            None => report_tokens(reports@, reports@.len()) > u64::MAX || !all_fit(
                report_rows(reports@, reports@.len()),
            ),
        },
{
    let mut entries: Vec<UsageRow> = Vec::new();
    let mut tokens: u64 = 0;
    let mut i: usize = 0;
    assert(row_views(entries@) =~= Seq::<RowView>::empty());
    while i < reports.len()
        invariant
            i <= reports@.len(),
            row_views(entries@) == report_rows(reports@, i as nat),
            tokens == report_tokens(reports@, i as nat),
        decreases reports@.len() - i,
    {
        let rows = &reports[i].rows;
        let ghost before = row_views(entries@);
        let mut j: usize = 0;
        assert(before + row_views(rows@).take(0) =~= before);
        while j < rows.len()
            invariant
                j <= rows@.len(),
                row_views(entries@) == before + row_views(rows@).take(j as int),
            decreases rows@.len() - j,
        {
            let ghost was = row_views(entries@);
            let copy = copy_row(&rows[j]);
            entries.push(copy);
            assert(row_views(entries@) =~= was.push(rows@[j as int]@));
            j = j + 1;
            assert(row_views(rows@).take(j as int) =~= row_views(rows@).take(j - 1).push(
                rows@[j - 1]@,
            ));
            assert(row_views(entries@) =~= before + row_views(rows@).take(j as int));
        }
        assert(row_views(rows@).take(j as int) =~= row_views(rows@));
        match tokens.checked_add(reports[i].tokens) {
            Some(sum) => {
                tokens = sum;
            },
            None => {
                proof {
                    lemma_report_tokens_grow(reports@, (i + 1) as nat, reports@.len());
                }
                return None;
            },
        }
        i = i + 1;
    }
    match sum_rows(entries) {
        Some(rows) => Some(UsageReport { rows, tokens }),
        None => None,
    }
}

// ---------------------------------------------------------------------
// Keeping what was read
// ---------------------------------------------------------------------

/// The usage that a file recorded when it was last read.
#[derive(Debug, PartialEq, Eq)]
pub struct CachedUsage {
    /// When the file was changed, in milliseconds, if that is known.
    pub modified: Option<u64>,
    pub len: u64,
    pub report: UsageReport,
}

/// The usage of the files that were read, each under its path.
#[derive(Debug, PartialEq)]
pub struct UsageCache {
    pub files: Table<CachedUsage>,
}

/// What is kept of a file is still what it records.
pub open spec fn is_current(
    files: Map<Seq<char>, CachedUsage>,
    path: Seq<char>,
    modified: Option<u64>,
    len: u64,
) -> bool {
    files.dom().contains(path) && files[path].modified == modified && files[path].len == len
}

/// The reports of files, in the order of their paths.
pub open spec fn kept_reports(files: Map<Seq<char>, CachedUsage>) -> Seq<UsageReport> {
    Seq::new(
        table::in_order(files.dom()).len(),
        |i: int| files[table::in_order(files.dom())[i]].report,
    )
}

impl UsageCache {
    /// Nothing was read yet.
    pub fn new() -> (r: UsageCache)
        ensures
            r.files@ == Map::<Seq<char>, CachedUsage>::empty(),
    {
        UsageCache { files: Table::new() }
    }

    /// Is what is kept of the file still what it records?
    pub fn current(&self, path: &str, modified: Option<u64>, len: u64) -> (r: bool)
        ensures
            r == is_current(self.files@, path@, modified, len),
    {
        match self.files.get(path) {
            Some(kept) => {
                let same = match (kept.modified, modified) {
                    (Some(a), Some(b)) => a == b,
                    (None, None) => true,
                    _ => false,
                };
                same && kept.len == len
            },
            None => false,
        }
    }

    /// Keep what the file records now; what it recorded before is replaced.
    pub fn keep(&mut self, path: &str, modified: Option<u64>, len: u64, report: UsageReport)
        ensures
            final(self).files@ == old(self).files@.insert(
                path@,
                CachedUsage { modified, len, report },
            ),
    {
        self.files.insert(path.to_owned(), CachedUsage { modified, len, report });
    }

    /// Forget the files that are not among `seen`.
    pub fn retain(&mut self, seen: &[String])
        ensures
            final(self).files@ == old(self).files@.restrict(
                Set::new(|p: Seq<char>| text::texts(seen@).contains(p)),
            ),
    {
        let ghost was = self.files@;
        let ghost there = text::texts(seen@);
        let ghost keys = table::in_order(was.dom());
        let mut gone: Vec<String> = Vec::new();
        let mut i: usize = 0;
        let total: usize = self.files.len();
        assert(text::texts(gone@) =~= Seq::<Seq<char>>::empty());
        while i < total
            invariant
                self.files@ == was,
                there == text::texts(seen@),
                keys == table::in_order(was.dom()),
                total == keys.len(),
                i <= total,
                forall|p: Seq<char>| #[trigger]
                    text::texts(gone@).contains(p) ==> was.dom().contains(p) && !there.contains(p),
                forall|j: int|
                    0 <= j < i && !there.contains(#[trigger] keys[j]) ==> text::texts(
                        gone@,
                    ).contains(keys[j]),
            decreases total - i,
        {
            let key = self.files.key_at(i);
            if !text::listed(seen, key.as_str()) {
                let ghost before = text::texts(gone@);
                let ghost name = key@;
                gone.push(key.clone());
                proof {
                    let after = text::texts(gone@);
                    assert(after =~= before.push(name));
                    assert(after[before.len() as int] == name);
                    assert forall|p: Seq<char>| #[trigger] after.contains(p) implies was.dom().contains(
                        p,
                    ) && !there.contains(p) by {
                        let at = choose|k: int| 0 <= k < after.len() && after[k] == p;
                        if at < before.len() {
                            assert(before[at] == p);
                            assert(before.contains(p));
                        }
                    }
                    assert forall|j: int|
                        0 <= j < i + 1 && !there.contains(#[trigger] keys[j]) implies after.contains(
                        keys[j],
                    ) by {
                        if j < i {
                            assert(before.contains(keys[j]));
                            let at = choose|k: int| 0 <= k < before.len() && before[k] == keys[j];
                            assert(after[at] == keys[j]);
                        }
                    }
                }
            }
            i = i + 1;
        }
        let mut k: usize = 0;
        while k < gone.len()
            invariant
                k <= gone@.len(),
                forall|p: Seq<char>| #[trigger]
                    self.files@.dom().contains(p) <==> was.dom().contains(p) && !text::texts(
                        gone@,
                    ).take(k as int).contains(p),
                forall|p: Seq<char>|
                    self.files@.dom().contains(p) ==> #[trigger] self.files@[p] == was[p],
            decreases gone@.len() - k,
        {
            let ghost names = text::texts(gone@);
            let _ = self.files.remove(gone[k].as_str());
            proof {
                assert(names[k as int] == gone@[k as int]@);
                assert(names.take(k + 1) =~= names.take(k as int).push(names[k as int]));
                assert forall|p: Seq<char>| #[trigger] self.files@.dom().contains(p)
                    <==> was.dom().contains(p) && !names.take(k + 1).contains(p) by {
                    let shorter = names.take(k as int);
                    let longer = names.take(k + 1);
                    if longer.contains(p) {
                        let at = choose|x: int| 0 <= x < longer.len() && longer[x] == p;
                        if at < k {
                            assert(shorter[at] == p);
                        }
                    }
                    if shorter.contains(p) {
                        let at = choose|x: int| 0 <= x < shorter.len() && shorter[x] == p;
                        assert(longer[at] == p);
                    }
                    assert(longer[k as int] == names[k as int]);
                }
            }
            k = k + 1;
        }
        proof {
            let names = text::texts(gone@);
            assert(names.take(k as int) =~= names);
            assert forall|p: Seq<char>| #[trigger] self.files@.dom().contains(p)
                <==> was.dom().contains(p) && there.contains(p) by {
                if was.dom().contains(p) && !there.contains(p) {
                    assert(keys.contains(p));
                    let at = choose|x: int| 0 <= x < keys.len() && keys[x] == p;
                    assert(names.contains(keys[at]));
                }
            }
            assert(self.files@ =~= was.restrict(
                Set::new(|p: Seq<char>| text::texts(seen@).contains(p)),
            ));
        }
    }

    /// The usage of all files together; none where a count is more than can be
    /// held.
    pub fn report(&self) -> (r: Option<UsageReport>)
        ensures
            ({
                let reports = kept_reports(self.files@);
                match r {
                    Some(report) => {
                        &&& report_tokens(reports, reports.len()) <= u64::MAX
                        &&& all_fit(report_rows(reports, reports.len()))
                        &&& row_views(report.rows@) == sums(report_rows(reports, reports.len()))
                        &&& report.tokens == report_tokens(reports, reports.len())
                    },
                    None => report_tokens(reports, reports.len()) > u64::MAX || !all_fit(
                        report_rows(reports, reports.len()),
                    ),
                }
            }),
    {
        let ghost keys = table::in_order(self.files@.dom());
        let ghost all = kept_reports(self.files@);
        let mut reports: Vec<UsageReport> = Vec::new();
        let mut i: usize = 0;
        while i < self.files.len()
            invariant
                keys == table::in_order(self.files@.dom()),
                all == kept_reports(self.files@),
                i <= keys.len(),
                reports@.len() == i,
                forall|j: int|
                    0 <= j < i ==> row_views((#[trigger] reports@[j]).rows@) == row_views(
                        all[j].rows@,
                    ) && reports@[j].tokens == all[j].tokens,
            decreases keys.len() - i,
        {
            let kept = self.files.value_at(i);
            let copy = copy_report(&kept.report);
            reports.push(copy);
            i = i + 1;
        }
        proof {
            lemma_same_reports(reports@, all, all.len());
        }
        merge_reports(reports.as_slice())
    }
}

/// A copy of a report.
fn copy_report(report: &UsageReport) -> (r: UsageReport)
    ensures
        row_views(r.rows@) == row_views(report.rows@),
        r.tokens == report.tokens,
{
    let mut rows: Vec<UsageRow> = Vec::new();
    let mut i: usize = 0;
    while i < report.rows.len()
        invariant
            i <= report.rows@.len(),
            rows@.len() == i,
            forall|j: int| 0 <= j < i ==> (#[trigger] rows@[j])@ == report.rows@[j]@,
        decreases report.rows@.len() - i,
    {
        let row = copy_row(&report.rows[i]);
        rows.push(row);
        i = i + 1;
    }
    assert(row_views(rows@) =~= row_views(report.rows@));
    UsageReport { rows, tokens: report.tokens }
}

/// Reports with the same rows and tokens add up to the same.
proof fn lemma_same_reports(a: Seq<UsageReport>, b: Seq<UsageReport>, n: nat)
    requires
        a.len() == b.len(),
        n <= a.len(),
        forall|j: int|
            0 <= j < a.len() ==> row_views((#[trigger] a[j]).rows@) == row_views(b[j].rows@)
                && a[j].tokens == b[j].tokens,
    ensures
        report_rows(a, n) == report_rows(b, n),
        report_tokens(a, n) == report_tokens(b, n),
    decreases n,
{
    if n > 0 {
        lemma_same_reports(a, b, (n - 1) as nat);
        assert(row_views(a[n - 1].rows@) == row_views(b[n - 1].rows@));
    }
}

/// A file that is written anew replaces what it recorded, and is never counted
/// twice: whatever was kept of it before, the same is kept afterwards.
pub proof fn law_rewritten_files_replace(
    files: Map<Seq<char>, CachedUsage>,
    path: Seq<char>,
    first: CachedUsage,
    second: CachedUsage,
)
    ensures
        files.insert(path, first).insert(path, second) == files.insert(path, second),
        files.insert(path, second).dom() == files.insert(path, first).dom(),
{
    assert(files.insert(path, first).insert(path, second) =~= files.insert(path, second));
    assert(files.insert(path, second).dom() =~= files.insert(path, first).dom());
}

/// A row counts each message of its provider and model once.
pub proof fn law_messages_are_counted_once(
    entries: Seq<RowView>,
    n: nat,
    provider: Seq<char>,
    model: Seq<char>,
)
    requires
        n <= entries.len(),
        forall|i: int| 0 <= i < entries.len() ==> (#[trigger] entries[i]).messages == 1,
    ensures
        merged(entries, n, provider, model) matches Some(r) ==> r.messages == count_of(
            entries,
            n,
            provider,
            model,
        ),
        merged(entries, n, provider, model) is None ==> count_of(entries, n, provider, model) == 0,
    decreases n,
{
    if n > 0 {
        law_messages_are_counted_once(entries, (n - 1) as nat, provider, model);
        assert(entries[n - 1].messages == 1);
    }
}

/// How many of the first `n` entries are of one provider and model.
pub open spec fn count_of(
    entries: Seq<RowView>,
    n: nat,
    provider: Seq<char>,
    model: Seq<char>,
) -> nat
    decreases n,
{
    if n == 0 {
        0
    } else {
        count_of(entries, (n - 1) as nat, provider, model) + (if entries[n - 1].provider == provider
            && entries[n - 1].model == model {
            1nat
        } else {
            0
        })
    }
}

} // verus!
