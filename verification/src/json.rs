//! JSON documents: the value that every agent document, plugin message and
//! permission block is read as, and its text forms.
use vstd::prelude::*;
use crate::table;
use crate::table::Table;
use crate::text;

verus! {

/// A JSON value. Objects are walked in the order of their keys, and a number
/// is held in the notation that `serde_json` prints it in.
#[derive(Debug, PartialEq)]
pub enum Json {
    Null,
    Bool(bool),
    Number(String),
    Text(String),
    Array(Vec<Json>),
    Object(Table<Json>),
}

/// What a JSON value holds.
#[verifier::ext_equal]
pub enum JsonView {
    Null,
    Bool(bool),
    Number(Seq<char>),
    Text(Seq<char>),
    Array(Seq<JsonView>),
    Object(Map<Seq<char>, JsonView>),
}

/// What a JSON value holds.
pub open spec fn json_view(j: Json) -> JsonView
    decreases j,
{
    match j {
        Json::Null => JsonView::Null,
        Json::Bool(b) => JsonView::Bool(b),
        Json::Number(t) => JsonView::Number(t@),
        Json::Text(t) => JsonView::Text(t@),
        Json::Array(v) => JsonView::Array(items(v@)),
        Json::Object(t) => JsonView::Object(fields(t)),
    }
}

/// What the items of an array hold.
pub open spec fn items(v: Seq<Json>) -> Seq<JsonView>
    decreases v,
{
    Seq::new(
        v.len(),
        |i: int|
            if 0 <= i < v.len() {
                json_view(v[i])
            } else {
                JsonView::Null
            },
    )
}

/// What the fields of an object hold.
pub open spec fn fields(t: Table<Json>) -> Map<Seq<char>, JsonView>
    decreases t,
{
    proof {
        broadcast use crate::table::lemma_table_decreases;

    }
    Map::new(
        |k: Seq<char>| t@.dom().contains(k),
        |k: Seq<char>|
            if t@.dom().contains(k) {
                json_view(t@[k])
            } else {
                JsonView::Null
            },
    )
}

impl View for Json {
    type V = JsonView;

    open spec fn view(&self) -> JsonView {
        json_view(*self)
    }
}

/// The fields of a value that is an object.
pub open spec fn as_fields(j: JsonView) -> Option<Map<Seq<char>, JsonView>> {
    match j {
        JsonView::Object(m) => Some(m),
        _ => None,
    }
}

/// The text of a value that is one.
pub open spec fn as_text(j: JsonView) -> Option<Seq<char>> {
    match j {
        JsonView::Text(t) => Some(t),
        _ => None,
    }
}

/// The whole number that a value is, if it is one that a `u64` holds.
pub open spec fn as_whole(j: JsonView) -> Option<u64> {
    match j {
        JsonView::Number(t) => text::parsed_u64(t),
        _ => None,
    }
}

/// The entry of a map under a key.
pub open spec fn entry(m: Map<Seq<char>, JsonView>, key: Seq<char>) -> Option<JsonView> {
    if m.dom().contains(key) {
        Some(m[key])
    } else {
        None
    }
}

/// The field of a value under a key; none where the value is no object.
pub open spec fn member(j: JsonView, key: Seq<char>) -> Option<JsonView> {
    match j {
        JsonView::Object(m) => entry(m, key),
        _ => None,
    }
}

/// The text under a key of a map.
pub open spec fn entry_text(m: Map<Seq<char>, JsonView>, key: Seq<char>) -> Option<Seq<char>> {
    match entry(m, key) {
        Some(v) => as_text(v),
        None => None,
    }
}

/// The text under a key of a value.
pub open spec fn member_text(j: JsonView, key: Seq<char>) -> Option<Seq<char>> {
    match member(j, key) {
        Some(v) => as_text(v),
        None => None,
    }
}

/// The object under a key of a value.
pub open spec fn member_fields(j: JsonView, key: Seq<char>) -> Option<Map<Seq<char>, JsonView>> {
    match member(j, key) {
        Some(v) => as_fields(v),
        None => None,
    }
}

/// The object under a key of a map.
pub open spec fn entry_fields(m: Map<Seq<char>, JsonView>, key: Seq<char>) -> Option<
    Map<Seq<char>, JsonView>,
> {
    match entry(m, key) {
        Some(v) => as_fields(v),
        None => None,
    }
}

/// What an optional JSON value holds.
pub open spec fn opt_json(v: Option<&Json>) -> Option<JsonView> {
    match v {
        Some(j) => Some(j@),
        None => None,
    }
}

/// What an optional object holds.
pub open spec fn opt_fields(v: Option<&Table<Json>>) -> Option<Map<Seq<char>, JsonView>> {
    match v {
        Some(t) => Some(fields(*t)),
        None => None,
    }
}

/// An object has a field exactly where its table has an entry.
pub proof fn lemma_fields_dom(t: Table<Json>)
    ensures
        fields(t).dom() == t@.dom(),
{
    assert(fields(t).dom() =~= t@.dom());
}

/// Put `value` under `key`.
pub fn put(t: &mut Table<Json>, key: &str, value: Json)
    ensures
        fields(*final(t)) == fields(*old(t)).insert(key@, value@),
{
    let ghost was = *t;
    t.insert(key.to_owned(), value);
    assert(fields(*t) =~= fields(was).insert(key@, value@));
}

/// Put the text `value` under `key`.
pub fn put_text(t: &mut Table<Json>, key: &str, value: &str)
    ensures
        fields(*final(t)) == fields(*old(t)).insert(key@, JsonView::Text(value@)),
{
    put(t, key, Json::Text(value.to_owned()));
}

/// Take out the field under `key`.
pub fn drop_field(t: &mut Table<Json>, key: &str) -> (r: bool)
    ensures
        fields(*final(t)) == fields(*old(t)).remove(key@),
        r == fields(*old(t)).dom().contains(key@),
{
    let ghost was = *t;
    let taken = t.remove(key);
    assert(fields(*t) =~= fields(was).remove(key@));
    taken.is_some()
}

/// The field under `key`.
pub fn field<'a>(t: &'a Table<Json>, key: &str) -> (r: Option<&'a Json>)
    ensures
        opt_json(r) == entry(fields(*t), key@),
{
    t.get(key)
}

/// The text under `key`.
pub fn field_text<'a>(t: &'a Table<Json>, key: &str) -> (r: Option<&'a str>)
    ensures
        text::opt_str(r) == entry_text(fields(*t), key@),
{
    match t.get(key) {
        Some(v) => v.as_str(),
        None => None,
    }
}

/// The object under `key`.
pub fn field_object<'a>(t: &'a Table<Json>, key: &str) -> (r: Option<&'a Table<Json>>)
    ensures
        opt_fields(r) == entry_fields(fields(*t), key@),
{
    match t.get(key) {
        Some(v) => v.as_object(),
        None => None,
    }
}

/// An object with no fields.
pub fn no_fields() -> (r: Table<Json>)
    ensures
        fields(r) == Map::<Seq<char>, JsonView>::empty(),
{
    let t: Table<Json> = Table::new();
    assert(fields(t) =~= Map::<Seq<char>, JsonView>::empty());
    t
}

/// A copy of an object's fields.
pub fn copy_fields(t: &Table<Json>) -> (r: Table<Json>)
    ensures
        fields(r) == fields(*t),
    decreases t, 1int, 0int,
{
    let mut out = no_fields();
    let n: usize = t.len();
    let ghost ks = table::in_order(t@.dom());
    let mut i: usize = 0;
    while i < n
        invariant
            i <= n,
            n == ks.len(),
            ks == table::in_order(t@.dom()),
            table::lists(ks, t@.dom()),
            forall|k: Seq<char>|
                #![trigger fields(out).dom().contains(k)]
                fields(out).dom().contains(k) <==> ks.take(i as int).contains(k),
            forall|k: Seq<char>|
                #![trigger fields(out)[k]]
                fields(out).dom().contains(k) ==> fields(*t).dom().contains(k) && fields(out)[k]
                    == fields(*t)[k],
        decreases n - i,
    {
        let ghost was = out;
        proof {
            crate::table::lemma_table_decreases(*t, ks[i as int]);
        }
        let value = t.value_at(i).copy();
        put(&mut out, t.key_at(i).as_str(), value);
        proof {
            let next = ks.take(i + 1);
            assert(next =~= ks.take(i as int).push(ks[i as int]));
            assert forall|k: Seq<char>|
                #![trigger fields(out).dom().contains(k)]
                fields(out).dom().contains(k) <==> next.contains(k) by {
                if next.contains(k) {
                    let j = choose|j: int| 0 <= j < next.len() && next[j] == k;
                    if j < i {
                        assert(ks.take(i as int)[j] == k);
                        assert(fields(was).dom().contains(k));
                    }
                }
                if fields(out).dom().contains(k) {
                    if k == ks[i as int] {
                        assert(next[i as int] == k);
                    } else {
                        assert(fields(was).dom().contains(k));
                        let j = choose|j: int|
                            0 <= j < ks.take(i as int).len() && ks.take(i as int)[j] == k;
                        assert(next[j] == k);
                    }
                }
            }
        }
        i = i + 1;
    }
    proof {
        assert(ks.take(n as int) =~= ks);
        assert forall|k: Seq<char>| fields(out).dom().contains(k) <==> fields(*t).dom().contains(k) by {
            assert(t@.dom().contains(k) <==> ks.contains(k));
        }
        assert(fields(out) =~= fields(*t));
    }
    out
}

/// A copy of a row of values.
pub fn copy_items(v: &Vec<Json>) -> (r: Vec<Json>)
    ensures
        items(r@) == items(v@),
    decreases v, 1int, 0int,
{
    let mut out: Vec<Json> = Vec::new();
    let mut i: usize = 0;
    while i < v.len()
        invariant
            i <= v@.len(),
            out@.len() == i,
            forall|j: int| 0 <= j < i ==> json_view(#[trigger] out@[j]) == json_view(v@[j]),
        decreases v@.len() - i,
    {
        proof {
            assert(decreases_to!(v => v@));
            assert(decreases_to!(v@ => v@[i as int]));
        }
        let item = v[i].copy();
        out.push(item);
        i = i + 1;
    }
    assert(items(out@) =~= items(v@));
    out
}

impl Json {
    /// A copy of the value.
    pub fn copy(&self) -> (r: Json)
        ensures
            r@ == self@,
        decreases self, 0int, 0int,
    {
        match self {
            Json::Null => Json::Null,
            Json::Bool(b) => Json::Bool(*b),
            Json::Number(t) => Json::Number(t.clone()),
            Json::Text(t) => Json::Text(t.clone()),
            Json::Array(v) => Json::Array(copy_items(v)),
            Json::Object(t) => Json::Object(copy_fields(t)),
        }
    }

    /// The text, if the value is one.
    pub fn as_str(&self) -> (r: Option<&str>)
        ensures
            text::opt_str(r) == as_text(self@),
    {
        match self {
            Json::Text(t) => Some(t.as_str()),
            _ => None,
        }
    }

    /// The whole number that the value is, if it is one that a `u64` holds.
    pub fn as_u64(&self) -> (r: Option<u64>)
        ensures
            r == as_whole(self@),
    {
        match self {
            Json::Number(t) => text::parse_u64(t.as_str()),
            _ => None,
        }
    }

    /// The fields, if the value is an object.
    pub fn as_object(&self) -> (r: Option<&Table<Json>>)
        ensures
            opt_fields(r) == as_fields(self@),
    {
        match self {
            Json::Object(t) => Some(t),
            _ => None,
        }
    }

    /// The field under `key`; none where the value is no object.
    pub fn get(&self, key: &str) -> (r: Option<&Json>)
        ensures
            opt_json(r) == member(self@, key@),
    {
        match self {
            Json::Object(t) => field(t, key),
            _ => None,
        }
    }

    /// The text under `key`.
    pub fn get_text(&self, key: &str) -> (r: Option<&str>)
        ensures
            text::opt_str(r) == member_text(self@, key@),
    {
        match self.get(key) {
            Some(v) => v.as_str(),
            None => None,
        }
    }

    /// The object under `key`.
    pub fn get_object(&self, key: &str) -> (r: Option<&Table<Json>>)
        ensures
            opt_fields(r) == member_fields(self@, key@),
    {
        match self.get(key) {
            Some(v) => v.as_object(),
            None => None,
        }
    }

    /// The text value `s`.
    pub fn text(s: &str) -> (r: Json)
        ensures
            r@ == JsonView::Text(s@),
    {
        Json::Text(s.to_owned())
    }
}

impl Clone for Json {
    fn clone(&self) -> (r: Json)
        ensures
            r@ == self@,
    {
        self.copy()
    }
}

// ---------------------------------------------------------------------
// Text forms
// ---------------------------------------------------------------------

/// The outside value type that text is parsed into and printed from.
#[verifier::external_type_specification]
#[verifier::external_body]
pub struct ExValue(serde_json::Value);

/// What `serde_json::from_str` reads out of a text: the value, or the message
/// of its error.
pub uninterp spec fn parsed(text: Seq<char>) -> Result<JsonView, Seq<char>>;

/// What `serde_json::from_slice` reads out of bytes: the value, or whether the
/// bytes ended too soon and the message of its error.
pub uninterp spec fn parsed_bytes(bytes: Seq<u8>) -> Result<JsonView, (bool, Seq<char>)>;

/// What `serde_json::to_string_pretty` prints for a value.
pub uninterp spec fn pretty(value: JsonView) -> Result<Seq<char>, Seq<char>>;

/// What `serde_json::Value::to_string` prints for a value.
pub uninterp spec fn compact(value: JsonView) -> Seq<char>;

/// What `serde_yaml::to_string` prints for a value.
pub uninterp spec fn yaml(value: JsonView) -> Result<Seq<char>, Seq<char>>;

/// What `serde_json::Number::as_f64` and `to_string` make of a number.
pub uninterp spec fn float_notation(number: Seq<char>) -> Option<Seq<char>>;

/// What a result of text or message holds.
pub open spec fn text_result(r: Result<String, String>) -> Result<Seq<char>, Seq<char>> {
    match r {
        Ok(t) => Ok(t@),
        Err(e) => Err(e@),
    }
}

/// What a result of a value or message holds.
pub open spec fn json_result(r: Result<Json, String>) -> Result<JsonView, Seq<char>> {
    match r {
        Ok(j) => Ok(j@),
        Err(e) => Err(e@),
    }
}

/// Converts a `serde_json::Value` into a [`Json`], variant by variant.
#[verifier::external_body]
pub(crate) fn from_value(value: serde_json::Value) -> Json {
    match value {
        serde_json::Value::Null => Json::Null,
        serde_json::Value::Bool(b) => Json::Bool(b),
        serde_json::Value::Number(n) => Json::Number(n.to_string()),
        serde_json::Value::String(s) => Json::Text(s),
        serde_json::Value::Array(v) => Json::Array(v.into_iter().map(from_value).collect()),
        serde_json::Value::Object(m) => {
            let mut out = Table::new();
            m.into_iter().for_each(|(k, v)| out.insert(k, from_value(v)));
            Json::Object(out)
        },
    }
}

/// Converts the notation of a number into a `serde_json::Value`: what std
/// reads it as, an integer or else a float, is what the value holds.
#[verifier::external_body]
fn number_value(notation: &str) -> serde_json::Value {
    let integer = notation.parse().ok().and_then(serde_json::Number::from_i128);
    let number = integer.or_else(|| notation.parse().ok().and_then(serde_json::Number::from_f64));
    number.into()
}

/// Converts a [`Json`] into a `serde_json::Value`, variant by variant.
#[verifier::external_body]
fn to_value(value: &Json) -> serde_json::Value {
    match value {
        Json::Null => serde_json::Value::Null,
        Json::Bool(b) => serde_json::Value::Bool(*b),
        Json::Number(t) => number_value(t),
        Json::Text(t) => serde_json::Value::String(t.clone()),
        Json::Array(v) => serde_json::Value::Array(v.iter().map(to_value).collect()),
        Json::Object(t) => serde_json::Value::Object(
            (0..t.len()).map(|i| (t.key_at(i).clone(), to_value(t.value_at(i)))).collect(),
        ),
    }
}

/// `serde_json::from_str` into a `serde_json::Value`; the result, or the
/// error's message, is named [`parsed`].
#[verifier::external_body]
pub(crate) fn parse(text: &str) -> (r: Result<Json, String>)
    ensures
        json_result(r) == parsed(text@),
{
    match serde_json::from_str::<serde_json::Value>(text) {
        Ok(value) => Ok(from_value(value)),
        Err(error) => Err(error.to_string()),
    }
}

/// Why bytes are no value.
#[derive(Debug, PartialEq, Eq)]
pub struct ParseFailure {
    /// They ended too soon.
    pub ended: bool,
    pub message: String,
}

/// What a result of parsing bytes holds.
pub open spec fn bytes_result(r: Result<Json, ParseFailure>) -> Result<JsonView, (bool, Seq<char>)> {
    match r {
        Ok(j) => Ok(j@),
        Err(f) => Err((f.ended, f.message@)),
    }
}

/// `serde_json::from_slice` into a `serde_json::Value`; the result, or the
/// error's `is_eof` and message, is named [`parsed_bytes`].
#[verifier::external_body]
pub(crate) fn parse_bytes(bytes: &[u8]) -> (r: Result<Json, ParseFailure>)
    ensures
        bytes_result(r) == parsed_bytes(bytes@),
{
    match serde_json::from_slice::<serde_json::Value>(bytes) {
        Ok(value) => Ok(from_value(value)),
        Err(error) => Err(ParseFailure { ended: error.is_eof(), message: error.to_string() }),
    }
}

/// `serde_json::to_string_pretty` on a `serde_json::Value`, named [`pretty`].
#[verifier::external_body]
pub(crate) fn to_pretty(value: &Json) -> (r: Result<String, String>)
    ensures
        text_result(r) == pretty(value@),
{
    serde_json::to_string_pretty(&to_value(value)).map_err(|error| error.to_string())
}

/// `to_string` on a `serde_json::Value`, named [`compact`].
#[verifier::external_body]
pub(crate) fn to_compact(value: &Json) -> (r: String)
    ensures
        r@ == compact(value@),
{
    to_value(value).to_string()
}

/// `serde_yaml::to_string` on a `serde_json::Value`, named [`yaml`].
#[verifier::external_body]
pub(crate) fn to_yaml(value: &Json) -> (r: Result<String, String>)
    ensures
        text_result(r) == yaml(value@),
{
    serde_yaml::to_string(&to_value(value)).map_err(|error| error.to_string())
}

/// `serde_json::Number::as_f64` on a number, printed with `to_string`; named
/// [`float_notation`].
#[verifier::external_body]
pub(crate) fn to_float_notation(number: &str) -> (r: Option<String>)
    ensures
        text::opt_text(r) == float_notation(number@),
{
    number_value(number).as_f64().map(|float| float.to_string())
}

} // verus!
