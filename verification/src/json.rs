//! A JSON document held as plain values, the lookups that the task-state
//! mirror makes in it, and RFC 6902 patching through `json_patch`.

use vstd::prelude::*;
use crate::text::same_text;
use serde_json::Value;

verus! {

/// A JSON number as `serde_json` holds it; a float is held as its decimal
/// text.
#[derive(Debug, Clone, PartialEq)]
pub enum JsonNumber {
    PosInt(u64),
    NegInt(i64),
    Float(String),
}

/// A JSON value; an object keeps its members in the order it was given
/// them.
#[derive(Debug, PartialEq)]
pub enum JsonValue {
    Null,
    Bool(bool),
    Number(JsonNumber),
    Str(String),
    Array(Vec<JsonValue>),
    Object(Vec<(String, JsonValue)>),
}

/// The content of a JSON number.
pub enum NumberView {
    PosInt(u64),
    NegInt(i64),
    Float(Seq<char>),
}

/// The content of a JSON value: what a reader of the document sees.
pub enum JsonView {
    Null,
    Bool(bool),
    Number(NumberView),
    Str(Seq<char>),
    Array(Seq<JsonView>),
    Object(Seq<(Seq<char>, JsonView)>),
}

/// The content of a number.
pub open spec fn number_view(n: JsonNumber) -> NumberView {
    match n {
        JsonNumber::PosInt(u) => NumberView::PosInt(u),
        JsonNumber::NegInt(i) => NumberView::NegInt(i),
        JsonNumber::Float(t) => NumberView::Float(t@),
    }
}

/// The content of a value.
pub open spec fn json_view(v: JsonValue) -> JsonView
    decreases v, 1int,
{
    match v {
        JsonValue::Null => JsonView::Null,
        JsonValue::Bool(b) => JsonView::Bool(b),
        JsonValue::Number(n) => JsonView::Number(number_view(n)),
        JsonValue::Str(s) => JsonView::Str(s@),
        JsonValue::Array(items) => JsonView::Array(json_views(items@)),
        JsonValue::Object(members) => JsonView::Object(members_view(members@)),
    }
}

/// The contents of a sequence of values.
pub open spec fn json_views(s: Seq<JsonValue>) -> Seq<JsonView>
    decreases s, 0int,
{
    if s.len() == 0 {
        Seq::empty()
    } else {
        json_views(s.drop_last()).push(json_view(s.last()))
    }
}

/// The contents of the members of an object.
pub open spec fn members_view(s: Seq<(String, JsonValue)>) -> Seq<(Seq<char>, JsonView)>
    decreases s, 0int,
{
    if s.len() == 0 {
        Seq::empty()
    } else {
        members_view(s.drop_last()).push((s.last().0@, json_view(s.last().1)))
    }
}

impl View for JsonValue {
    type V = JsonView;

    open spec fn view(&self) -> JsonView {
        json_view(*self)
    }
}

/// `json_views` is taken element by element.
pub proof fn lemma_json_views(s: Seq<JsonValue>)
    ensures
        json_views(s).len() == s.len(),
        forall|i: int| 0 <= i < s.len() ==> #[trigger] json_views(s)[i] == json_view(s[i]),
    decreases s.len(),
{
    if s.len() > 0 {
        lemma_json_views(s.drop_last());
    }
}

/// `members_view` is taken member by member.
pub proof fn lemma_members_view(s: Seq<(String, JsonValue)>)
    ensures
        members_view(s).len() == s.len(),
        forall|i: int|
            0 <= i < s.len() ==> #[trigger] members_view(s)[i] == (s[i].0@, json_view(s[i].1)),
    decreases s.len(),
{
    if s.len() > 0 {
        lemma_members_view(s.drop_last());
    }
}

/// The value of the first member named `key` among `members`.
pub open spec fn member(members: Seq<(Seq<char>, JsonView)>, key: Seq<char>) -> Option<JsonView>
    decreases members.len(),
{
    if members.len() == 0 {
        None
    } else if members[0].0 == key {
        Some(members[0].1)
    } else {
        member(members.drop_first(), key)
    }
}

/// `Value::get` with a string key: the member `key` of an object.
pub open spec fn field(v: JsonView, key: Seq<char>) -> Option<JsonView> {
    match v {
        JsonView::Object(members) => member(members, key),
        _ => None,
    }
}

/// `Value::as_str`.
pub open spec fn text_of(v: JsonView) -> Option<Seq<char>> {
    match v {
        JsonView::Str(s) => Some(s),
        _ => None,
    }
}

/// The string member `key` of `v`.
pub open spec fn text_field(v: JsonView, key: Seq<char>) -> Option<Seq<char>> {
    match field(v, key) {
        Some(x) => text_of(x),
        None => None,
    }
}

/// `Value::as_array`.
pub open spec fn items_of(v: JsonView) -> Option<Seq<JsonView>> {
    match v {
        JsonView::Array(items) => Some(items),
        _ => None,
    }
}

/// `Value::as_object` followed by `values`: the member values in order.
pub open spec fn member_values(v: JsonView) -> Option<Seq<JsonView>> {
    match v {
        JsonView::Object(members) => Some(members.map_values(|m: (Seq<char>, JsonView)| m.1)),
        _ => None,
    }
}

/// The first element of `s` that satisfies `p`.
pub open spec fn first_where(s: Seq<JsonView>, p: spec_fn(JsonView) -> bool) -> Option<JsonView>
    decreases s.len(),
{
    if s.len() == 0 {
        None
    } else if p(s[0]) {
        Some(s[0])
    } else {
        first_where(s.drop_first(), p)
    }
}

/// The last element of `s` that satisfies `p`.
pub open spec fn last_where(s: Seq<JsonView>, p: spec_fn(JsonView) -> bool) -> Option<JsonView>
    decreases s.len(),
{
    if s.len() == 0 {
        None
    } else if p(s.last()) {
        Some(s.last())
    } else {
        last_where(s.drop_last(), p)
    }
}

/// `first_where` gives the element at the first position that satisfies
/// the predicate, and nothing when no element does.
pub proof fn lemma_first_where(s: Seq<JsonView>, p: spec_fn(JsonView) -> bool)
    ensures
        first_where(s, p) is None <==> forall|i: int| 0 <= i < s.len() ==> !p(#[trigger] s[i]),
        first_where(s, p) matches Some(x) ==> exists|i: int|
            0 <= i < s.len() && s[i] == x && p(s[i]) && forall|j: int| 0 <= j < i ==> !p(#[trigger] s[j]),
    decreases s.len(),
{
    if s.len() > 0 {
        let t = s.drop_first();
        lemma_first_where(t, p);
        assert forall|i: int| 0 <= i < t.len() implies t[i] == s[i + 1] by {}
        if !p(s[0]) {
            if first_where(t, p) is None {
                assert forall|i: int| 0 <= i < s.len() implies !p(#[trigger] s[i]) by {
                    if i > 0 {
                        assert(s[i] == t[i - 1]);
                    }
                }
            } else {
                let x = first_where(t, p)->Some_0;
                let k = choose|k: int|
                    0 <= k < t.len() && t[k] == x && p(t[k]) && forall|j: int| 0 <= j < k ==> !p(#[trigger] t[j]);
                assert(s[k + 1] == x);
                assert forall|j: int| 0 <= j < k + 1 implies !p(#[trigger] s[j]) by {
                    if j > 0 {
                        assert(s[j] == t[j - 1]);
                    }
                }
            }
        }
    }
}

/// `last_where` gives the element at the last position that satisfies the
/// predicate, and nothing when no element does.
pub proof fn lemma_last_where(s: Seq<JsonView>, p: spec_fn(JsonView) -> bool)
    ensures
        last_where(s, p) is None <==> forall|i: int| 0 <= i < s.len() ==> !p(#[trigger] s[i]),
        last_where(s, p) matches Some(x) ==> exists|i: int|
            0 <= i < s.len() && s[i] == x && p(s[i]) && forall|j: int| i < j < s.len() ==> !p(#[trigger] s[j]),
    decreases s.len(),
{
    if s.len() > 0 {
        let d = s.drop_last();
        lemma_last_where(d, p);
        assert forall|i: int| 0 <= i < d.len() implies d[i] == s[i] by {}
        if !p(s.last()) {
            if last_where(d, p) is None {
                assert forall|i: int| 0 <= i < s.len() implies !p(#[trigger] s[i]) by {
                    if i < d.len() {
                        assert(s[i] == d[i]);
                    }
                }
            } else {
                let x = last_where(d, p)->Some_0;
                let k = choose|k: int|
                    0 <= k < d.len() && d[k] == x && p(d[k]) && forall|j: int| k < j < d.len() ==> !p(#[trigger] d[j]);
                assert(s[k] == x);
                assert forall|j: int| k < j < s.len() implies !p(#[trigger] s[j]) by {
                    if j < d.len() {
                        assert(s[j] == d[j]);
                    }
                }
            }
        } else {
            assert(s[s.len() - 1] == s.last());
        }
    }
}

/// The member `key` of `v`, when `v` is an object that has one.
pub fn get_field<'a>(v: &'a JsonValue, key: &str) -> (r: Option<&'a JsonValue>)
    ensures
        r matches Some(x) ==> field(v@, key@) == Some(x@),
        r is None ==> field(v@, key@) is None,
{
    match v {
        JsonValue::Object(members) => {
            let ghost mv = members_view(members@);
            proof {
                lemma_members_view(members@);
            }
            let n = members.len();
            let mut i: usize = 0;
            assert(mv.skip(0) =~= mv);
            while i < n
                invariant
                    0 <= i <= n == members@.len() == mv.len(),
                    mv == members_view(members@),
                    forall|j: int| 0 <= j < n ==> #[trigger] mv[j] == (members@[j].0@, json_view(members@[j].1)),
                    member(mv, key@) == member(mv.skip(i as int), key@),
                    field(v@, key@) == member(mv, key@),
                decreases n - i,
            {
                assert(mv.skip(i as int)[0] == mv[i as int]);
                if same_text(members[i].0.as_str(), key) {
                    return Some(&members[i].1);
                }
                assert(mv.skip(i as int).drop_first() =~= mv.skip(i + 1));
                i = i + 1;
            }
            None
        },
        _ => None,
    }
}

/// The text of `v`, when it is a string.
pub fn get_text<'a>(v: &'a JsonValue) -> (r: Option<&'a str>)
    ensures
        r matches Some(s) ==> text_of(v@) == Some(s@),
        r is None ==> text_of(v@) is None,
{
    match v {
        JsonValue::Str(s) => Some(s.as_str()),
        _ => None,
    }
}

/// The string member `key` of `v`.
pub fn get_text_field<'a>(v: &'a JsonValue, key: &str) -> (r: Option<&'a str>)
    ensures
        r matches Some(s) ==> text_field(v@, key@) == Some(s@),
        r is None ==> text_field(v@, key@) is None,
{
    match get_field(v, key) {
        Some(x) => get_text(x),
        None => None,
    }
}

/// One RFC 6902 operation with its JSON pointer.
#[derive(Debug, PartialEq)]
pub enum JsonPatchOp {
    Add { path: String, value: JsonValue },
    Replace { path: String, value: JsonValue },
    Remove { path: String },
}

/// The content of a patch operation.
pub enum PatchOpView {
    Add(Seq<char>, JsonView),
    Replace(Seq<char>, JsonView),
    Remove(Seq<char>),
}

impl View for JsonPatchOp {
    type V = PatchOpView;

    open spec fn view(&self) -> PatchOpView {
        match *self {
            JsonPatchOp::Add { path, value } => PatchOpView::Add(path@, value@),
            JsonPatchOp::Replace { path, value } => PatchOpView::Replace(path@, value@),
            JsonPatchOp::Remove { path } => PatchOpView::Remove(path@),
        }
    }
}

/// Why `json_patch` did not patch a document.
#[derive(Debug)]
pub enum JsonPatchError {
    /// The operations did not deserialise as a `json_patch::Patch`; the
    /// deserialiser's message.
    Undecodable(String),
    /// `json_patch::patch` refused them; its error's message.
    Refused(String),
}

/// The content of a patch error.
pub enum PatchErrorView {
    Undecodable(Seq<char>),
    Refused(Seq<char>),
}

impl View for JsonPatchError {
    type V = PatchErrorView;

    open spec fn view(&self) -> PatchErrorView {
        match *self {
            JsonPatchError::Undecodable(m) => PatchErrorView::Undecodable(m@),
            JsonPatchError::Refused(m) => PatchErrorView::Refused(m@),
        }
    }
}

/// What `json_patch` makes of the document `doc` under `ops`: the patched
/// document, or the error that stopped it.
pub uninterp spec fn json_patch_outcome(doc: JsonView, ops: Seq<PatchOpView>) -> Result<
    JsonView,
    PatchErrorView,
>;

/// `json_patch::patch` on a copy of `doc`, which it applies the operations
/// to in order, undoing them all when one fails. The document goes in as a
/// `serde_json::Value` and comes back as a plain value (members of objects
/// then in `serde_json`'s map order); the operations go in as their RFC 6902
/// JSON. The result, patched document or error, is
/// `json_patch_outcome` of the arguments' contents; nothing more is claimed
/// of it.
#[verifier::external_body]
pub(crate) fn apply_json_patch(doc: &JsonValue, ops: &Vec<JsonPatchOp>) -> (r: Result<
    JsonValue,
    JsonPatchError,
>)
    ensures
        match (r, json_patch_outcome(doc@, ops@.map_values(|o: JsonPatchOp| o@))) {
            (Ok(v), Ok(w)) => v@ == w,
            (Err(e), Err(f)) => e@ == f,
            _ => false,
        },
{
    let mut value = to_serde(doc);
    let ops = Value::Array(ops.iter().map(op_to_serde).collect());
    let patch = serde_json::from_value::<json_patch::Patch>(ops)
        .map_err(|e| JsonPatchError::Undecodable(e.to_string()))?;
    match json_patch::patch(&mut value, &patch) {
        Ok(()) => Ok(from_serde(value)),
        Err(e) => Err(JsonPatchError::Refused(e.to_string())),
    }
}

/// `serde_json::Value`, carried through the patch call.
#[verifier::external_type_specification]
#[verifier::external_body]
pub struct ExSerdeValue(Value);

/// The `serde_json` value with the same content as `v`: the conversion of
/// `apply_json_patch`'s argument, value for value.
#[verifier::external_body]
fn to_serde(v: &JsonValue) -> Value {
    match v {
        JsonValue::Null => Value::Null,
        JsonValue::Bool(b) => Value::Bool(*b),
        JsonValue::Number(JsonNumber::PosInt(n)) => Value::from(*n),
        JsonValue::Number(JsonNumber::NegInt(n)) => Value::from(*n),
        JsonValue::Number(JsonNumber::Float(t)) => t.parse().map_or(Value::Null, Value::Number),
        JsonValue::Str(s) => Value::String(s.clone()),
        JsonValue::Array(items) => Value::Array(items.iter().map(to_serde).collect()),
        JsonValue::Object(members) => Value::Object(members.iter().map(|(k, x)| (k.clone(), to_serde(x))).collect()),
    }
}

/// The plain value with the same content as `v`: the conversion of
/// `apply_json_patch`'s result, value for value.
#[verifier::external_body]
fn from_serde(v: Value) -> JsonValue {
    match v {
        Value::Null => JsonValue::Null,
        Value::Bool(b) => JsonValue::Bool(b),
        Value::Number(n) => JsonValue::Number(match (n.as_u64(), n.as_i64()) {
            (Some(u), _) => JsonNumber::PosInt(u),
            (None, Some(i)) => JsonNumber::NegInt(i),
            _ => JsonNumber::Float(n.to_string()),
        }),
        Value::String(s) => JsonValue::Str(s),
        Value::Array(items) => JsonValue::Array(items.into_iter().map(from_serde).collect()),
        Value::Object(members) => JsonValue::Object(members.into_iter().map(|(k, x)| (k, from_serde(x))).collect()),
    }
}

/// The RFC 6902 JSON form of `op`, which `apply_json_patch` hands to
/// `json_patch` to deserialise its operations.
#[verifier::external_body]
fn op_to_serde(op: &JsonPatchOp) -> Value {
    let (name, path, value) = match op {
        JsonPatchOp::Add { path, value } => ("add", path, Some(to_serde(value))),
        JsonPatchOp::Replace { path, value } => ("replace", path, Some(to_serde(value))),
        JsonPatchOp::Remove { path } => ("remove", path, None),
    };
    let mut o = serde_json::Map::new();
    o.insert("op".into(), name.into());
    o.insert("path".into(), path.clone().into());
    if let Some(value) = value {
        o.insert("value".into(), value);
    }
    Value::Object(o)
}

} // verus!
