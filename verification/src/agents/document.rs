//! The agent document: `opencode.json`, an object whose `agent` map holds one
//! primary entry and any number of subagents.
use vstd::prelude::*;
use crate::error;
use crate::error::{Error, ErrorView};
use crate::json;
use crate::json::{Json, JsonView};
use crate::table;
use crate::table::Table;
use crate::text;

verus! {

/// The schema reference that agent documents carry.
pub const OPENCODE_SCHEMA: &'static str = "https://opencode.ai/config.json";

/// The placeholder display name a freshly created agent carries until the
/// operator renames it.
pub const DEFAULT_AGENT_NAME: &'static str = "new agent";

/// The fields of an object.
pub type Fields = Map<Seq<char>, JsonView>;

/// What kind of value this is, in the words of an error message.
pub open spec fn kind_name(v: JsonView) -> Seq<char> {
    match v {
        JsonView::Null => "null"@,
        JsonView::Bool(_) => "a boolean"@,
        JsonView::Number(_) => "a number"@,
        JsonView::Text(_) => "a string"@,
        JsonView::Array(_) => "an array"@,
        JsonView::Object(_) => "an object"@,
    }
}

/// What kind of value `v` is, in the words of an error message.
pub fn json_kind(v: &Json) -> (r: &'static str)
    ensures
        r@ == kind_name(v@),
{
    match v {
        Json::Null => "null",
        Json::Bool(_) => "a boolean",
        Json::Number(_) => "a number",
        Json::Text(_) => "a string",
        Json::Array(_) => "an array",
        Json::Object(_) => "an object",
    }
}

/// An agent entry is a primary: its mode says so, or it states no mode.
pub open spec fn is_primary(cfg: JsonView) -> bool {
    match json::member_text(cfg, "mode"@) {
        Some(mode) => mode == "primary"@,
        None => true,
    }
}

/// Is the agent entry a primary?
pub fn primary_entry(cfg: &Json) -> (r: bool)
    ensures
        r == is_primary(cfg@),
{
    match cfg.get_text("mode") {
        Some(mode) => text::same(mode, "primary"),
        None => true,
    }
}

// ---------------------------------------------------------------------
// Permission blocks
// ---------------------------------------------------------------------

/// The actions a permission rule may name.
pub open spec fn is_action(a: Seq<char>) -> bool {
    a == "ask"@ || a == "allow"@ || a == "deny"@
}

/// What checking a permission block comes to: it must be an action, or rules
/// that are each valid; the first rule in key order that is not gives the
/// error.
pub open spec fn permission_check(p: JsonView) -> Result<(), ErrorView>
    decreases p, 1nat, 0nat,
{
    match p {
        JsonView::Text(a) => if is_action(a) {
            Ok(())
        } else {
            Err(
                ErrorView::Store(
                    "invalid permission action "@ + text::quoted(a) + " (ask|allow|deny)"@,
                ),
            )
        },
        JsonView::Object(_) => rules_check(p, 0),
        _ => Err(ErrorView::Store("permission must be an action or a rule map"@)),
    }
}

/// What checking the rules from the `i`-th key on comes to.
pub open spec fn rules_check(p: JsonView, i: nat) -> Result<(), ErrorView>
    decreases p, 0nat, rule_keys(p).len() - i,
{
    match p {
        JsonView::Object(m) => {
            let ks = rule_keys(p);
            if i >= ks.len() || !m.dom().contains(ks[i as int]) {
                Ok(())
            } else {
                match permission_check(m[ks[i as int]]) {
                    Ok(_) => rules_check(p, i + 1),
                    Err(e) => Err(e),
                }
            }
        },
        _ => Ok(()),
    }
}

/// The keys of a rule map in ascending order.
pub open spec fn rule_keys(p: JsonView) -> Seq<Seq<char>> {
    match p {
        JsonView::Object(m) => table::in_order(m.dom()),
        _ => Seq::empty(),
    }
}

/// Check a permission block: a plain action, or rules whose values are all
/// valid.
pub fn validate_permission(p: &Json) -> (r: Result<(), Error>)
    ensures
        error::verdict(r) == permission_check(p@),
    decreases p,
{
    match p {
        Json::Text(a) => {
            if text::same(a.as_str(), "ask") || text::same(a.as_str(), "allow") || text::same(
                a.as_str(),
                "deny",
            ) {
                Ok(())
            } else {
                Err(
                    Error::Store(
                        text::cat3(
                            "invalid permission action ",
                            text::quote(a.as_str()).as_str(),
                            " (ask|allow|deny)",
                        ),
                    ),
                )
            }
        },
        Json::Object(t) => {
            let n: usize = t.len();
            let mut i: usize = 0;
            proof {
                json::lemma_fields_dom(*t);
            }
            while i < n
                invariant
                    i <= n,
                    n == table::in_order(t@.dom()).len(),
                    json::fields(*t).dom() == t@.dom(),
                    p@ == JsonView::Object(json::fields(*t)),
                    decreases_to!(p => t),
                    permission_check(p@) == rules_check(p@, i as nat),
                decreases n - i,
            {
                let v = t.value_at(i);
                proof {
                    crate::table::lemma_table_decreases(*t, table::in_order(t@.dom())[i as int]);
                }
                match validate_permission(v) {
                    Ok(_) => {},
                    Err(e) => {
                        return Err(e);
                    },
                }
                i = i + 1;
            }
            Ok(())
        },
        _ => Err(Error::Store("permission must be an action or a rule map".to_owned())),
    }
}

// ---------------------------------------------------------------------
// Prompt references
// ---------------------------------------------------------------------

/// Where the next `{file:` reference from `from` on opens and closes; the
/// closing brace is missing where it is never closed.
pub open spec fn next_ref(s: Seq<char>, from: nat) -> Option<(nat, Option<nat>)> {
    match text::index_from(s, "{file:"@, from) {
        None => None,
        Some(open) => Some((open, text::index_from(s, "}"@, open + 6))),
    }
}

/// The file references of a prompt from `from` on, up to one that is never
/// closed.
pub open spec fn refs_from(s: Seq<char>, from: nat) -> Seq<Seq<char>>
    decreases s.len() - from,
{
    match next_ref(s, from) {
        Some((open, Some(close))) => if from <= open && open + 6 <= close && close < s.len() {
            seq![s.subrange((open + 6) as int, close as int)] + refs_from(s, close + 1)
        } else {
            Seq::empty()
        },
        _ => Seq::empty(),
    }
}

/// What checking the references of an entry's prompt from `from` on comes to:
/// each must be closed, and name one of `files`.
pub open spec fn refs_check(
    name: Seq<char>,
    s: Seq<char>,
    from: nat,
    files: Seq<Seq<char>>,
) -> Result<(), ErrorView>
    decreases s.len() - from,
{
    match next_ref(s, from) {
        None => Ok(()),
        Some((open, None)) => Err(
            ErrorView::Store("agent "@ + name + ": unterminated {file:} ref"@),
        ),
        Some((open, Some(close))) => if from <= open && open + 6 <= close && close < s.len() {
            let rel = s.subrange((open + 6) as int, close as int);
            if files.contains(rel) {
                refs_check(name, s, close + 1, files)
            } else {
                Err(
                    ErrorView::Store(
                        "agent "@ + name + ": {file:"@ + rel
                            + "} does not resolve against the agent dir"@,
                    ),
                )
            }
        } else {
            Ok(())
        },
    }
}

/// What reading a referenced file gave: its text, or why it could not be
/// read.
pub type FileText = Result<String, String>;

/// The text of a prompt from `from` on with its references replaced by the
/// texts of the files they name.
pub open spec fn inlined_from(s: Seq<char>, from: nat, files: Map<Seq<char>, FileText>) -> Result<
    Seq<char>,
    ErrorView,
>
    decreases s.len() - from,
{
    match next_ref(s, from) {
        None => Ok(s.skip(from as int)),
        Some((open, None)) => Err(ErrorView::Store("unterminated {file:} ref"@)),
        Some((open, Some(close))) => if from <= open && open + 6 <= close && close < s.len() {
            let rel = s.subrange((open + 6) as int, close as int);
            if !files.dom().contains(rel) {
                Err(ErrorView::Store("prompt ref "@ + text::quoted(rel) + ": not read"@))
            } else {
                match files[rel] {
                    Err(why) => Err(
                        ErrorView::Store("prompt ref "@ + text::quoted(rel) + ": "@ + why@),
                    ),
                    Ok(body) => match inlined_from(s, close + 1, files) {
                        Ok(rest) => Ok(s.subrange(from as int, open as int) + body@ + rest),
                        Err(e) => Err(e),
                    },
                }
            }
        } else {
            Ok(s.skip(from as int))
        },
    }
}

/// A reference that is found lies inside the prompt.
proof fn lemma_next_ref(s: Seq<char>, from: nat)
    ensures
        match next_ref(s, from) {
            None => true,
            Some((open, None)) => from <= open && open + 6 <= s.len(),
            Some((open, Some(close))) => from <= open && open + 6 <= close && close < s.len(),
        },
{
    reveal_strlit("{file:");
    reveal_strlit("}");
    text::lemma_index_from(s, "{file:"@, from);
    match text::index_from(s, "{file:"@, from) {
        Some(open) => {
            text::lemma_index_from(s, "}"@, open + 6);
        },
        None => {},
    }
}

/// Where the next reference of the prompt opens and closes.
fn find_ref(s: &[char], from: usize) -> (r: Option<(usize, Option<usize>)>)
    ensures
        match (r, next_ref(s@, from as nat)) {
            (None, None) => true,
            (Some((o, None)), Some((open, None))) => o == open && o + 6 <= s@.len(),
            (Some((o, Some(c))), Some((open, Some(close)))) => {
                &&& o == open
                &&& c == close
                &&& from <= o
                &&& o + 6 <= c < s@.len()
            },
            _ => false,
        },
{
    proof {
        lemma_next_ref(s@, from as nat);
    }
    match text::find(s, text::chars_of("{file:").as_slice(), from) {
        None => None,
        Some(open) => {
            let total: usize = s.len();
            match text::find(s, text::chars_of("}").as_slice(), open + 6) {
                None => Some((open, None)),
                Some(close) => Some((open, Some(close))),
            }
        },
    }
}

/// The file references of a prompt: what must be looked up in the agent's
/// directory before its document is checked or rendered.
pub fn prompt_refs(prompt: &str) -> (r: Vec<String>)
    ensures
        text::texts(r@) == refs_from(prompt@, 0),
{
    let s = text::chars_of(prompt);
    let mut out: Vec<String> = Vec::new();
    let mut from: usize = 0;
    assert(text::texts(out@) + refs_from(prompt@, 0) =~= refs_from(prompt@, 0));
    let total: usize = s.len();
    loop
        invariant
            s@ == prompt@,
            total == s@.len(),
            from <= s@.len(),
            text::texts(out@) + refs_from(prompt@, from as nat) == refs_from(prompt@, 0),
        decreases s@.len() - from,
    {
        match find_ref(s.as_slice(), from) {
            Some((open, Some(close))) => {
                let ghost was = text::texts(out@);
                let rel = text::text_of(s.as_slice(), open + 6, close);
                out.push(rel);
                assert(text::texts(out@) =~= was.push(rel@));
                assert(was + (seq![rel@] + refs_from(prompt@, (close + 1) as nat)) =~= text::texts(
                    out@,
                ) + refs_from(prompt@, (close + 1) as nat));
                from = close + 1;
            },
            _ => {
                assert(text::texts(out@) + Seq::<Seq<char>>::empty() =~= text::texts(out@));
                return out;
            },
        }
    }
}

/// Check that every reference in an entry's prompt is closed and names one of
/// `files`.
fn check_refs(name: &str, prompt: &str, files: &[String]) -> (r: Result<(), Error>)
    ensures
        error::verdict(r) == refs_check(name@, prompt@, 0, text::texts(files@)),
{
    let s = text::chars_of(prompt);
    let mut from: usize = 0;
    let total: usize = s.len();
    loop
        invariant
            s@ == prompt@,
            total == s@.len(),
            from <= s@.len(),
            refs_check(name@, prompt@, from as nat, text::texts(files@)) == refs_check(
                name@,
                prompt@,
                0,
                text::texts(files@),
            ),
        decreases s@.len() - from,
    {
        match find_ref(s.as_slice(), from) {
            None => {
                return Ok(());
            },
            Some((_, None)) => {
                return Err(Error::Store(text::cat3("agent ", name, ": unterminated {file:} ref")));
            },
            Some((open, Some(close))) => {
                let rel = text::text_of(s.as_slice(), open + 6, close);
                if !text::listed(files, rel.as_str()) {
                    return Err(
                        Error::Store(
                            text::cat5(
                                "agent ",
                                name,
                                ": {file:",
                                rel.as_str(),
                                "} does not resolve against the agent dir",
                            ),
                        ),
                    );
                }
                from = close + 1;
            },
        }
    }
}

/// A prompt with every reference replaced by the text of the file it names.
pub fn inline_file_refs(prompt: &str, files: &Table<FileText>) -> (r: Result<String, Error>)
    ensures
        error::outcome(r) == inlined_from(prompt@, 0, files@),
{
    let s = text::chars_of(prompt);
    let mut out = String::new();
    let mut from: usize = 0;
    let total: usize = s.len();
    let ghost whole = inlined_from(prompt@, 0, files@);
    assert(whole is Ok ==> Seq::<char>::empty() + whole->Ok_0 =~= whole->Ok_0);
    loop
        invariant
            s@ == prompt@,
            total == s@.len(),
            from <= s@.len(),
            whole == inlined_from(prompt@, 0, files@),
            match inlined_from(prompt@, from as nat, files@) {
                Ok(rest) => whole == Ok::<Seq<char>, ErrorView>(out@ + rest),
                Err(e) => whole == Err::<Seq<char>, ErrorView>(e),
            },
        decreases s@.len() - from,
    {
        let ghost rest = inlined_from(prompt@, from as nat, files@);
        match find_ref(s.as_slice(), from) {
            None => {
                out.append(text::text_of(s.as_slice(), from, s.len()).as_str());
                assert(s@.subrange(from as int, s@.len() as int) =~= s@.skip(from as int));
                return Ok(out);
            },
            Some((_, None)) => {
                return Err(Error::Store("unterminated {file:} ref".to_owned()));
            },
            Some((open, Some(close))) => {
                let rel = text::text_of(s.as_slice(), open + 6, close);
                match files.get(rel.as_str()) {
                    None => {
                        return Err(
                            Error::Store(
                                text::cat3(
                                    "prompt ref ",
                                    text::quote(rel.as_str()).as_str(),
                                    ": not read",
                                ),
                            ),
                        );
                    },
                    Some(Err(why)) => {
                        return Err(
                            Error::Store(
                                text::cat4(
                                    "prompt ref ",
                                    text::quote(rel.as_str()).as_str(),
                                    ": ",
                                    why.as_str(),
                                ),
                            ),
                        );
                    },
                    Some(Ok(body)) => {
                        let ghost was = out@;
                        out.append(text::text_of(s.as_slice(), from, open).as_str());
                        out.append(body.as_str());
                        from = close + 1;
                        proof {
                            match inlined_from(prompt@, from as nat, files@) {
                                Ok(tail) => {
                                    assert(rest is Ok);
                                    assert(was + rest->Ok_0 =~= out@ + tail);
                                },
                                Err(e) => {},
                            }
                        }
                    },
                }
            },
        }
    }
}

// ---------------------------------------------------------------------
// The whole document
// ---------------------------------------------------------------------

/// The names of an agent map in ascending order.
pub open spec fn names(m: Fields) -> Seq<Seq<char>> {
    table::in_order(m.dom())
}

/// The names of the primaries among the first `n` entries of an agent map.
pub open spec fn primaries(m: Fields, n: nat) -> Seq<Seq<char>>
    decreases n,
{
    if n == 0 {
        Seq::empty()
    } else {
        let before = primaries(m, (n - 1) as nat);
        let name = names(m)[n - 1];
        if is_primary(m[name]) {
            before.push(name)
        } else {
            before
        }
    }
}

/// The names of the primaries of an agent map.
pub open spec fn all_primaries(m: Fields) -> Seq<Seq<char>> {
    primaries(m, names(m).len())
}

/// The primaries are the entries that are primary.
pub proof fn lemma_primaries(m: Fields, n: nat)
    requires
        n <= names(m).len(),
    ensures
        forall|k: Seq<char>| #[trigger]
            primaries(m, n).contains(k) <==> names(m).take(n as int).contains(k) && is_primary(m[k]),
    decreases n,
{
    if n > 0 {
        let before = primaries(m, (n - 1) as nat);
        let name = names(m)[n - 1];
        lemma_primaries(m, (n - 1) as nat);
        assert(names(m).take(n as int) =~= names(m).take(n - 1).push(name));
        assert forall|k: Seq<char>| #[trigger] primaries(m, n).contains(k) <==> names(m).take(
            n as int,
        ).contains(k) && is_primary(m[k]) by {
            lemma_push_contains(names(m).take(n - 1), name, k);
            lemma_push_contains(before, name, k);
            assert(before.contains(k) <==> names(m).take(n - 1).contains(k) && is_primary(m[k]));
        }
    } else {
        assert(names(m).take(0) =~= Seq::<Seq<char>>::empty());
    }
}

/// What a row holds after one more text is put at its end.
pub proof fn lemma_push_contains(s: Seq<Seq<char>>, last: Seq<char>, k: Seq<char>)
    ensures
        s.push(last).contains(k) <==> s.contains(k) || k == last,
{
    let t = s.push(last);
    if s.contains(k) {
        let i = choose|i: int| 0 <= i < s.len() && s[i] == k;
        assert(t[i] == k);
    }
    if k == last {
        assert(t[s.len() as int] == k);
    }
    if t.contains(k) && k != last {
        let i = choose|i: int| 0 <= i < t.len() && t[i] == k;
        assert(s[i] == k);
    }
}

/// What checking one entry comes to: it must be an object, with a valid
/// permission block if it has one, and with prompt references that resolve.
pub open spec fn entry_check(name: Seq<char>, cfg: JsonView, files: Seq<Seq<char>>) -> Result<
    (),
    ErrorView,
> {
    match cfg {
        JsonView::Object(c) => {
            let block = match json::entry(c, "permission"@) {
                Some(p) => permission_check(p),
                None => Ok(()),
            };
            match block {
                Err(e) => Err(ErrorView::Store("agent "@ + name + ": "@ + error::shown(e))),
                Ok(_) => match json::entry_text(c, "prompt"@) {
                    Some(prompt) => refs_check(name, prompt, 0, files),
                    None => Ok(()),
                },
            }
        },
        _ => Err(ErrorView::Store("agent "@ + name + ": must be an object"@)),
    }
}

/// What checking the entries from the `i`-th on comes to.
pub open spec fn entries_check(m: Fields, i: nat, files: Seq<Seq<char>>) -> Result<(), ErrorView>
    decreases names(m).len() - i,
{
    if i >= names(m).len() {
        Ok(())
    } else {
        let name = names(m)[i as int];
        match entry_check(name, m[name], files) {
            Ok(_) => entries_check(m, i + 1, files),
            Err(e) => Err(e),
        }
    }
}

/// What checking an agent document comes to: an object whose `agent` map is
/// not empty, holds exactly one primary, and holds valid entries.
pub open spec fn doc_check(doc: JsonView, files: Seq<Seq<char>>) -> Result<(), ErrorView> {
    match doc {
        JsonView::Object(d) => match json::entry_fields(d, "agent"@) {
            None => Err(ErrorView::Store("missing \"agent\" map"@)),
            Some(m) => if names(m).len() == 0 {
                Err(ErrorView::Store("agent map is empty"@))
            } else if all_primaries(m).len() != 1 {
                Err(ErrorView::Store("exactly one primary agent is required"@))
            } else {
                entries_check(m, 0, files)
            },
        },
        _ => Err(
            ErrorView::Store(
                "opencode.json must be a JSON object, got "@ + kind_name(doc)
                    + " — pass the object itself, not its string serialization"@,
            ),
        ),
    }
}

/// The names of the primaries of an agent map.
pub(crate) fn primary_names(t: &Table<Json>) -> (r: Vec<String>)
    ensures
        text::texts(r@) == all_primaries(json::fields(*t)),
{
    let mut out: Vec<String> = Vec::new();
    let n: usize = t.len();
    let mut i: usize = 0;
    proof {
        json::lemma_fields_dom(*t);
    }
    assert(text::texts(out@) =~= primaries(json::fields(*t), 0));
    while i < n
        invariant
            i <= n,
            n == names(json::fields(*t)).len(),
            json::fields(*t).dom() == t@.dom(),
            text::texts(out@) == primaries(json::fields(*t), i as nat),
        decreases n - i,
    {
        let ghost was = text::texts(out@);
        if primary_entry(t.value_at(i)) {
            let name = t.key_at(i).clone();
            out.push(name);
            assert(text::texts(out@) =~= was.push(name@));
        }
        i = i + 1;
    }
    out
}

/// Check one entry of an agent map.
fn check_entry(name: &str, cfg: &Json, files: &[String]) -> (r: Result<(), Error>)
    ensures
        error::verdict(r) == entry_check(name@, cfg@, text::texts(files@)),
{
    match cfg {
        Json::Object(c) => {
            match json::field(c, "permission") {
                Some(p) => match validate_permission(p) {
                    Ok(_) => {},
                    Err(e) => {
                        return Err(
                            Error::Store(text::cat4("agent ", name, ": ", e.message().as_str())),
                        );
                    },
                },
                None => {},
            }
            match json::field_text(c, "prompt") {
                Some(prompt) => check_refs(name, prompt, files),
                None => Ok(()),
            }
        },
        _ => Err(Error::Store(text::cat3("agent ", name, ": must be an object"))),
    }
}

/// Check an agent document before it is saved. `files` are the prompt
/// references that name a file in the agent's directory.
pub fn validate_agent_doc(doc: &Json, files: &[String]) -> (r: Result<(), Error>)
    ensures
        error::verdict(r) == doc_check(doc@, text::texts(files@)),
{
    let d = match doc {
        Json::Object(d) => d,
        _ => {
            return Err(
                Error::Store(
                    text::cat3(
                        "opencode.json must be a JSON object, got ",
                        json_kind(doc),
                        " — pass the object itself, not its string serialization",
                    ),
                ),
            );
        },
    };
    let m = match json::field_object(d, "agent") {
        Some(m) => m,
        None => {
            return Err(Error::Store("missing \"agent\" map".to_owned()));
        },
    };
    proof {
        json::lemma_fields_dom(*m);
    }
    let n: usize = m.len();
    if n == 0 {
        return Err(Error::Store("agent map is empty".to_owned()));
    }
    let found = primary_names(m);
    assert(text::texts(found@).len() == found@.len());
    if found.len() != 1 {
        return Err(Error::Store("exactly one primary agent is required".to_owned()));
    }
    let mut i: usize = 0;
    while i < n
        invariant
            i <= n,
            n == names(json::fields(*m)).len(),
            json::fields(*m).dom() == m@.dom(),
            doc_check(doc@, text::texts(files@)) == entries_check(
                json::fields(*m),
                i as nat,
                text::texts(files@),
            ),
        decreases n - i,
    {
        match check_entry(m.key_at(i).as_str(), m.value_at(i), files) {
            Ok(_) => {},
            Err(e) => {
                return Err(e);
            },
        }
        i = i + 1;
    }
    Ok(())
}

/// The references of every prompt of an agent map, entry by entry.
pub open spec fn map_refs(m: Fields, n: nat) -> Seq<Seq<char>>
    decreases n,
{
    if n == 0 {
        Seq::empty()
    } else {
        let name = names(m)[n - 1];
        map_refs(m, (n - 1) as nat) + (match json::member_text(m[name], "prompt"@) {
            Some(prompt) => refs_from(prompt, 0),
            None => Seq::empty(),
        })
    }
}

/// The file references of every prompt in a document.
pub open spec fn all_refs(doc: JsonView) -> Seq<Seq<char>> {
    match json::member_fields(doc, "agent"@) {
        Some(m) => map_refs(m, names(m).len()),
        None => Seq::empty(),
    }
}

/// The file references of every prompt in a document: what to look up in the
/// agent's directory before the document is checked or rendered.
pub fn doc_refs(doc: &Json) -> (r: Vec<String>)
    ensures
        text::texts(r@) == all_refs(doc@),
{
    let mut out: Vec<String> = Vec::new();
    let m = match doc.get_object("agent") {
        Some(m) => m,
        None => {
            assert(text::texts(out@) =~= Seq::<Seq<char>>::empty());
            return out;
        },
    };
    proof {
        json::lemma_fields_dom(*m);
    }
    let n: usize = m.len();
    let mut i: usize = 0;
    assert(text::texts(out@) =~= map_refs(json::fields(*m), 0));
    while i < n
        invariant
            i <= n,
            n == names(json::fields(*m)).len(),
            json::fields(*m).dom() == m@.dom(),
            text::texts(out@) == map_refs(json::fields(*m), i as nat),
        decreases n - i,
    {
        let ghost was = text::texts(out@);
        match m.value_at(i).get_text("prompt") {
            Some(prompt) => {
                let mut more = prompt_refs(prompt);
                let ghost added = text::texts(more@);
                out.append(&mut more);
                assert(text::texts(out@) =~= was + added);
            },
            None => {
                assert(was + Seq::<Seq<char>>::empty() =~= was);
            },
        }
        i = i + 1;
    }
    out
}

// ---------------------------------------------------------------------
// Editing
// ---------------------------------------------------------------------

/// A document with its `agent` map replaced.
pub open spec fn with_agents(doc: JsonView, m: Fields) -> JsonView {
    match doc {
        JsonView::Object(d) => JsonView::Object(d.insert("agent"@, JsonView::Object(m))),
        _ => doc,
    }
}

/// The error for a document without an `agent` map.
pub open spec fn no_agent_map(project: Seq<char>, slug: Seq<char>) -> ErrorView {
    ErrorView::Store("agent "@ + project + "/"@ + slug + ": missing agent map"@)
}

/// The error for a name that no entry has.
pub open spec fn no_entry(project: Seq<char>, slug: Seq<char>, name: Seq<char>) -> ErrorView {
    ErrorView::Store(
        "agent "@ + project + "/"@ + slug + " has no entry named "@ + text::quoted(name),
    )
}

/// The document if it is valid; else why not, in the name of the agent.
pub open spec fn checked(slug: Seq<char>, doc: JsonView, files: Seq<Seq<char>>) -> Result<
    JsonView,
    ErrorView,
> {
    match doc_check(doc, files) {
        Ok(_) => Ok(doc),
        Err(e) => Err(ErrorView::Store("agent "@ + slug + ": "@ + error::shown(e))),
    }
}

/// A copy of `doc` with its `agent` map replaced.
pub(crate) fn put_agents(doc: &Json, agents: Table<Json>) -> (r: Json)
    ensures
        r@ == with_agents(doc@, json::fields(agents)),
{
    match doc {
        Json::Object(d) => {
            let mut out = json::copy_fields(d);
            json::put(&mut out, "agent", Json::Object(agents));
            Json::Object(out)
        },
        _ => doc.copy(),
    }
}

/// The error for a document without an `agent` map.
pub(crate) fn missing_map(project: &str, slug: &str) -> (r: Error)
    ensures
        r@ == no_agent_map(project@, slug@),
{
    Error::Store(text::cat5("agent ", project, "/", slug, ": missing agent map"))
}

/// The error for a name that no entry has.
pub(crate) fn missing_entry(project: &str, slug: &str, name: &str) -> (r: Error)
    ensures
        r@ == no_entry(project@, slug@, name@),
{
    Error::Store(
        text::cat6(
            "agent ",
            project,
            "/",
            slug,
            " has no entry named ",
            text::quote(name).as_str(),
        ),
    )
}

/// The document if it is valid; else why not, in the name of the agent.
pub(crate) fn check_doc(slug: &str, doc: Json, files: &[String]) -> (r: Result<Json, Error>)
    ensures
        error::outcome(r) == checked(slug@, doc@, text::texts(files@)),
{
    match validate_agent_doc(&doc, files) {
        Ok(_) => Ok(doc),
        Err(e) => Err(Error::Store(text::cat4("agent ", slug, ": ", e.message().as_str()))),
    }
}

/// A field that is fixed by the document's own rules.
pub open spec fn is_structural(field: Seq<char>) -> bool {
    field == "mode"@ || field == "permission"@
}

/// The error for setting a structural field.
pub open spec fn not_settable(field: Seq<char>) -> ErrorView {
    ErrorView::Store(
        text::quoted(field)
            + " is not settable here: use set_agent_role / set_agent_permission (mode is fixed by the entry's position in the document)"@,
    )
}

/// Fields with one field set, or removed where the value is null.
pub open spec fn with_field(c: Fields, field: Seq<char>, value: JsonView) -> Fields {
    if value == JsonView::Null {
        c.remove(field)
    } else {
        c.insert(field, value)
    }
}

/// What setting one field of one entry comes to.
pub open spec fn field_edit(
    doc: JsonView,
    project: Seq<char>,
    slug: Seq<char>,
    target: Seq<char>,
    field: Seq<char>,
    value: JsonView,
    files: Seq<Seq<char>>,
) -> Result<JsonView, ErrorView> {
    if is_structural(field) {
        Err(not_settable(field))
    } else {
        match json::member_fields(doc, "agent"@) {
            None => Err(no_agent_map(project, slug)),
            Some(m) => match json::entry_fields(m, target) {
                None => Err(no_entry(project, slug, target)),
                Some(c) => checked(
                    slug,
                    with_agents(
                        doc,
                        m.insert(target, JsonView::Object(with_field(c, field, value))),
                    ),
                    files,
                ),
            },
        }
    }
}

/// The error for setting the structural field `field`.
pub(crate) fn structural_field(field: &str) -> (r: Option<Error>)
    ensures
        match r {
            Some(e) => is_structural(field@) && e@ == not_settable(field@),
            None => !is_structural(field@),
        },
{
    if text::same(field, "mode") || text::same(field, "permission") {
        Some(
            Error::Store(
                text::cat2(
                    text::quote(field).as_str(),
                    " is not settable here: use set_agent_role / set_agent_permission (mode is fixed by the entry's position in the document)",
                ),
            ),
        )
    } else {
        None
    }
}

/// Set one field of the entry named `target`, leaving the rest of the
/// document as it is; a null value removes the field. A document that would
/// not be valid is refused.
pub fn edit_field(
    doc: &Json,
    project: &str,
    slug: &str,
    target: &str,
    field: &str,
    value: Json,
    files: &[String],
) -> (r: Result<Json, Error>)
    ensures
        error::outcome(r) == field_edit(
            doc@,
            project@,
            slug@,
            target@,
            field@,
            value@,
            text::texts(files@),
        ),
{
    match structural_field(field) {
        Some(e) => {
            return Err(e);
        },
        None => {},
    }
    let m = match doc.get_object("agent") {
        Some(m) => m,
        None => {
            return Err(missing_map(project, slug));
        },
    };
    let c = match json::field_object(m, target) {
        Some(c) => c,
        None => {
            return Err(missing_entry(project, slug, target));
        },
    };
    let mut cfg = json::copy_fields(c);
    match value {
        Json::Null => {
            json::drop_field(&mut cfg, field);
        },
        v => {
            json::put(&mut cfg, field, v);
        },
    }
    let mut agents = json::copy_fields(m);
    json::put(&mut agents, target, Json::Object(cfg));
    check_doc(slug, put_agents(doc, agents), files)
}

} // verus!
