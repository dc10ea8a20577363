//! A replica of a Desktop conversation state, kept only from snapshots and
//! revision-contiguous patches of one owner.

use vstd::prelude::*;
use vstd::string::*;
use crate::json::{
    JsonValue, JsonView, JsonPatchOp, JsonPatchError, PatchErrorView, PatchOpView, apply_json_patch,
    json_patch_outcome, field,
    text_of, text_field, items_of, member_values, first_where, last_where, lemma_first_where,
    lemma_last_where,
};
use crate::text::{
    chars_of, decimal, decimal_string, push_char, same_text, trim, trimmed,
};

verus! {

/// A Desktop patch operation.
#[derive(Debug, Clone, Copy, PartialEq, Eq, Structural)]
pub enum PatchOperation {
    Add,
    Replace,
    Remove,
}

/// One step of a Desktop patch path: an object key or an array index.
#[derive(Debug)]
pub enum PathSegment {
    Key(String),
    Index(usize),
}

/// A Desktop patch: operation, path and, for add and replace, a value.
#[derive(Debug)]
pub struct DesktopPatch {
    pub op: PatchOperation,
    pub path: Vec<PathSegment>,
    pub value: Option<JsonValue>,
}

/// A state change of a Desktop thread stream.
#[derive(Debug)]
pub enum StateChange {
    Snapshot { revision: u64, conversation_state: JsonValue },
    Patches { base_revision: u64, revision: u64, patches: Vec<DesktopPatch> },
}

/// Why a Desktop patch cannot be turned into an RFC 6902 operation.
#[derive(Debug, Clone, Copy, PartialEq, Eq, Structural)]
pub enum PatchFault {
    /// An add or replace without a value.
    MissingValue(PatchOperation),
    /// A remove of the whole document.
    RootRemove,
}

/// Why a patch change was not applied.
#[derive(Debug)]
pub enum MirrorError {
    /// A Desktop patch was malformed; nothing was applied.
    Invalid(PatchFault),
    /// The operations did not deserialise as a JSON patch, with the
    /// deserialiser's message; nothing was applied.
    Undecodable(String),
    /// `json_patch` refused the operations; the cause is its error text.
    /// Nothing was applied.
    Rejected(String),
}

/// The outcome of applying a change.
#[derive(Debug, Clone, Copy, PartialEq, Eq, Structural)]
pub enum MirrorUpdate {
    Applied,
    NeedsResync,
}

/// The status and final message of a settled turn.
#[derive(Debug)]
pub struct Settlement {
    pub status: String,
    pub result: String,
}

/// A conversation state replica: the document, the revision it is at and
/// the Desktop client that owns the stream.
pub struct Mirror {
    state: JsonValue,
    revision: u64,
    owner: String,
}

/// The content of a mirror.
pub struct MirrorView {
    pub state: JsonView,
    pub revision: u64,
    pub owner: Seq<char>,
}

impl View for Mirror {
    type V = MirrorView;

    closed spec fn view(&self) -> MirrorView {
        MirrorView { state: self.state@, revision: self.revision, owner: self.owner@ }
    }
}

/// RFC 6901 escaping of one key character.
pub open spec fn escaped_char(c: char) -> Seq<char> {
    if c == '~' {
        seq!['~', '0']
    } else if c == '/' {
        seq!['~', '1']
    } else {
        seq![c]
    }
}

/// RFC 6901 escaping of a key: `~` becomes `~0` and `/` becomes `~1`.
pub open spec fn escaped(s: Seq<char>) -> Seq<char>
    decreases s.len(),
{
    if s.len() == 0 {
        Seq::empty()
    } else {
        escaped(s.drop_last()) + escaped_char(s.last())
    }
}

/// The reference token of a path segment.
pub open spec fn segment_text(seg: PathSegment) -> Seq<char> {
    match seg {
        PathSegment::Key(k) => escaped(k@),
        PathSegment::Index(i) => decimal(i as nat),
    }
}

/// The JSON pointer of a Desktop path: each token preceded by `/`.
pub open spec fn pointer_text(path: Seq<PathSegment>) -> Seq<char>
    decreases path.len(),
{
    if path.len() == 0 {
        Seq::empty()
    } else {
        pointer_text(path.drop_last()) + seq!['/'] + segment_text(path.last())
    }
}

/// The RFC 6902 operation of a Desktop patch.
pub open spec fn desktop_op(p: DesktopPatch) -> Result<PatchOpView, PatchFault> {
    match p.op {
        PatchOperation::Add => match p.value {
            Some(v) => Ok(PatchOpView::Add(pointer_text(p.path@), v@)),
            None => Err(PatchFault::MissingValue(PatchOperation::Add)),
        },
        PatchOperation::Replace => match p.value {
            Some(v) => Ok(PatchOpView::Replace(pointer_text(p.path@), v@)),
            None => Err(PatchFault::MissingValue(PatchOperation::Replace)),
        },
        PatchOperation::Remove => if p.path@.len() == 0 {
            Err(PatchFault::RootRemove)
        } else {
            Ok(PatchOpView::Remove(pointer_text(p.path@)))
        },
    }
}

/// The RFC 6902 operations of Desktop patches, or the fault of the first
/// malformed one.
pub open spec fn desktop_ops(ps: Seq<DesktopPatch>) -> Result<Seq<PatchOpView>, PatchFault>
    decreases ps.len(),
{
    if ps.len() == 0 {
        Ok(Seq::empty())
    } else {
        match desktop_ops(ps.drop_last()) {
            Err(f) => Err(f),
            Ok(ops) => match desktop_op(ps.last()) {
                Err(f) => Err(f),
                Ok(op) => Ok(ops.push(op)),
            },
        }
    }
}

/// The terminal turn statuses.
pub open spec fn is_terminal(status: Seq<char>) -> bool {
    ||| status == "completed"@
    ||| status == "interrupted"@
    ||| status == "failed"@
    ||| status == "cancelled"@
}

/// The member `key` of an optional value.
pub open spec fn field_of(v: Option<JsonView>, key: Seq<char>) -> Option<JsonView> {
    match v {
        Some(x) => field(x, key),
        None => None,
    }
}

/// The id that a `turns` entry carries: `turnId` when present, else `id`.
pub open spec fn turn_key(t: JsonView) -> Option<Seq<char>> {
    match field(t, "turnId"@) {
        Some(x) => text_of(x),
        None => text_field(t, "id"@),
    }
}

/// The turn `turn_id` of a conversation state: the first entity of
/// `turnHistory.history.entitiesByKey` whose `turnId` is it, else the
/// first entry of `turns` that carries it; nothing when the entity map is
/// absent.
pub open spec fn find_turn(state: JsonView, turn_id: Seq<char>) -> Option<JsonView> {
    let entities = field_of(field_of(field(state, "turnHistory"@), "history"@), "entitiesByKey"@);
    match entities {
        None => None,
        Some(e) => match member_values(e) {
            None => None,
            Some(values) => match first_where(
                values,
                |t: JsonView| text_field(t, "turnId"@) == Some(turn_id),
            ) {
                Some(t) => Some(t),
                None => match field(state, "turns"@) {
                    None => None,
                    Some(ts) => match items_of(ts) {
                        None => None,
                        Some(items) => first_where(
                            items,
                            |t: JsonView| turn_key(t) == Some(turn_id),
                        ),
                    },
                },
            },
        },
    }
}

/// Whether an item is an agent message.
pub open spec fn is_agent_message(item: JsonView) -> bool {
    text_field(item, "type"@) == Some("agentMessage"@)
}

/// The final message of a turn: the trimmed text of its last agent
/// message item, or empty text.
pub open spec fn final_message(turn: JsonView) -> Seq<char> {
    let text = match field(turn, "items"@) {
        None => Seq::empty(),
        Some(v) => match items_of(v) {
            None => Seq::empty(),
            Some(items) => match last_where(items, |i: JsonView| is_agent_message(i)) {
                None => Seq::empty(),
                Some(item) => match text_field(item, "text"@) {
                    Some(t) => t,
                    None => Seq::empty(),
                },
            },
        },
    };
    trim(text)
}

/// The settlement of turn `turn_id` in `state`: its terminal status and
/// final message, when it has settled.
pub open spec fn settlement_of(state: JsonView, turn_id: Seq<char>) -> Option<(Seq<char>, Seq<char>)> {
    match find_turn(state, turn_id) {
        None => None,
        Some(t) => match text_field(t, "status"@) {
            None => None,
            Some(status) => if is_terminal(status) {
                Some((status, final_message(t)))
            } else {
                None
            },
        },
    }
}

/// The terminal statuses are exactly `completed`, `interrupted`, `failed`
/// and `cancelled`.
pub proof fn lemma_terminal_statuses(status: Seq<char>)
    ensures
        is_terminal(status) <==> (status == "completed"@ || status == "interrupted"@ || status
            == "failed"@ || status == "cancelled"@),
        is_terminal("completed"@),
        is_terminal("interrupted"@),
        is_terminal("failed"@),
        is_terminal("cancelled"@),
{
}

/// A turn that the state shows in a terminal status has settled with that
/// status and its final message; a turn in any other status, or one that
/// is not found, has not.
pub proof fn lemma_settlement(state: JsonView, turn_id: Seq<char>, turn: JsonView, status: Seq<char>)
    requires
        find_turn(state, turn_id) == Some(turn),
        text_field(turn, "status"@) == Some(status),
    ensures
        status == "completed"@ || status == "interrupted"@ || status == "failed"@ || status
            == "cancelled"@ ==> settlement_of(state, turn_id) == Some((status, final_message(turn))),
        !(status == "completed"@ || status == "interrupted"@ || status == "failed"@ || status
            == "cancelled"@) ==> settlement_of(state, turn_id) is None,
{
}

/// The final message of a turn is the trimmed text of its last agent
/// message item (empty text when that item has none), and empty text when
/// no item is an agent message.
pub proof fn lemma_final_message(turn: JsonView, items: Seq<JsonView>, i: int)
    requires
        field(turn, "items"@) matches Some(v) && items_of(v) == Some(items),
    ensures
        (forall|j: int| 0 <= j < items.len() ==> !is_agent_message(#[trigger] items[j]))
            ==> final_message(turn) == trim(Seq::empty()),
        0 <= i < items.len() && is_agent_message(items[i]) && (forall|j: int|
            i < j < items.len() ==> !is_agent_message(#[trigger] items[j])) ==> final_message(turn)
            == trim(
            match text_field(items[i], "text"@) {
                Some(t) => t,
                None => Seq::empty(),
            },
        ),
{
    let p = |x: JsonView| is_agent_message(x);
    lemma_last_where(items, p);
    if 0 <= i < items.len() && is_agent_message(items[i]) && (forall|j: int|
        i < j < items.len() ==> !is_agent_message(#[trigger] items[j])) {
        assert(p(items[i]));
        let x = last_where(items, p)->Some_0;
        let k = choose|k: int|
            0 <= k < items.len() && items[k] == x && p(items[k]) && forall|j: int| k < j < items.len() ==> !p(#[trigger] items[j]);
        if k < i {
            assert(!p(items[i]));
        }
        if i < k {
            assert(!is_agent_message(items[k]));
        }
    }
}

/// The turn found for `turn_id` in the entity map is the first entity whose
/// `turnId` is `turn_id`; a turn found at all carries that id.
pub proof fn lemma_find_turn_entity(state: JsonView, turn_id: Seq<char>, values: Seq<JsonView>, i: int)
    requires
        field_of(field_of(field(state, "turnHistory"@), "history"@), "entitiesByKey"@) matches Some(
            e,
        ) && member_values(e) == Some(values),
    ensures
        0 <= i < values.len() && text_field(values[i], "turnId"@) == Some(turn_id) && (forall|j: int|
            0 <= j < i ==> text_field(#[trigger] values[j], "turnId"@) != Some(turn_id))
            ==> find_turn(state, turn_id) == Some(values[i]),
        find_turn(state, turn_id) matches Some(t) ==> text_field(t, "turnId"@) == Some(turn_id)
            || turn_key(t) == Some(turn_id),
{
    let p = |t: JsonView| text_field(t, "turnId"@) == Some(turn_id);
    lemma_first_where(values, p);
    if 0 <= i < values.len() && text_field(values[i], "turnId"@) == Some(turn_id) && (forall|j: int|
        0 <= j < i ==> text_field(#[trigger] values[j], "turnId"@) != Some(turn_id)) {
        assert(p(values[i]));
        let x = first_where(values, p)->Some_0;
        let k = choose|k: int|
            0 <= k < values.len() && values[k] == x && p(values[k]) && forall|j: int| 0 <= j < k ==> !p(#[trigger] values[j]);
        if k < i {
            assert(text_field(values[k], "turnId"@) != Some(turn_id));
        }
        if i < k {
            assert(!p(values[i]));
        }
    }
    match first_where(values, p) {
        Some(t) => {},
        None => {
            match field(state, "turns"@) {
                None => {},
                Some(ts) => match items_of(ts) {
                    None => {},
                    Some(items) => {
                        let q = |t: JsonView| turn_key(t) == Some(turn_id);
                        lemma_first_where(items, q);
                    },
                },
            }
        },
    }
}

/// A turn that is not found, or that carries no status, has not settled.
pub proof fn lemma_unknown_turn_unsettled(state: JsonView, turn_id: Seq<char>)
    requires
        find_turn(state, turn_id) matches Some(t) ==> text_field(t, "status"@) is None,
    ensures
        settlement_of(state, turn_id) is None,
{
}

/// Each Desktop operation becomes the RFC 6902 operation of the same name
/// at the JSON pointer of its path, carrying its value: add as `add`,
/// replace as `replace`, remove as `remove`. An add or replace without a
/// value, and a remove of the whole document, are refused.
pub proof fn lemma_desktop_op(p: DesktopPatch)
    ensures
        p.op == PatchOperation::Add ==> (p.value matches Some(v) ==> desktop_op(p) == Ok::<
            PatchOpView,
            PatchFault,
        >(PatchOpView::Add(pointer_text(p.path@), v@))),
        p.op == PatchOperation::Replace ==> (p.value matches Some(v) ==> desktop_op(p) == Ok::<
            PatchOpView,
            PatchFault,
        >(PatchOpView::Replace(pointer_text(p.path@), v@))),
        p.op == PatchOperation::Remove && p.path@.len() > 0 ==> desktop_op(p) == Ok::<
            PatchOpView,
            PatchFault,
        >(PatchOpView::Remove(pointer_text(p.path@))),
        p.op == PatchOperation::Remove && p.path@.len() == 0 ==> desktop_op(p) == Err::<
            PatchOpView,
            PatchFault,
        >(PatchFault::RootRemove),
        p.op != PatchOperation::Remove && p.value is None ==> desktop_op(p) == Err::<
            PatchOpView,
            PatchFault,
        >(PatchFault::MissingValue(p.op)),
{
}

/// Desktop patches convert one for one and in order: when they all
/// convert, the `i`-th operation is the conversion of the `i`-th patch;
/// otherwise some patch is malformed and its fault is reported.
pub proof fn lemma_desktop_ops(ps: Seq<DesktopPatch>)
    ensures
        desktop_ops(ps) matches Ok(ops) ==> ops.len() == ps.len() && forall|i: int|
            0 <= i < ps.len() ==> desktop_op(#[trigger] ps[i]) == Ok::<PatchOpView, PatchFault>(
                ops[i],
            ),
        desktop_ops(ps) matches Err(f) ==> exists|i: int|
            0 <= i < ps.len() && desktop_op(#[trigger] ps[i]) == Err::<PatchOpView, PatchFault>(f),
        (forall|i: int| 0 <= i < ps.len() ==> #[trigger] desktop_op(ps[i]) is Ok) ==> desktop_ops(
            ps,
        ) is Ok,
    decreases ps.len(),
{
    if ps.len() > 0 {
        let d = ps.drop_last();
        lemma_desktop_ops(d);
        assert forall|i: int| 0 <= i < d.len() implies d[i] == ps[i] by {}
        if desktop_ops(d) is Err {
            let f = desktop_ops(d)->Err_0;
            let i = choose|i: int| 0 <= i < d.len() && desktop_op(#[trigger] d[i]) == Err::<PatchOpView, PatchFault>(f);
            assert(ps[i] == d[i]);
        } else {
            let ops = desktop_ops(d)->Ok_0;
            if desktop_op(ps.last()) is Ok {
                let all = ops.push(desktop_op(ps.last())->Ok_0);
                assert forall|i: int| 0 <= i < ps.len() implies desktop_op(#[trigger] ps[i]) == Ok::<PatchOpView, PatchFault>(all[i]) by {
                    if i < d.len() {
                        assert(ps[i] == d[i]);
                    }
                }
            } else {
                assert(ps[ps.len() - 1] == ps.last());
            }
        }
        if forall|i: int| 0 <= i < ps.len() ==> #[trigger] desktop_op(ps[i]) is Ok {
            assert forall|i: int| 0 <= i < d.len() implies #[trigger] desktop_op(d[i]) is Ok by {
                assert(ps[i] == d[i]);
            }
            assert(desktop_op(ps[ps.len() - 1]) is Ok);
        }
    }
}

/// RFC 6901 escaping works character by character: the escape of a
/// concatenation is the concatenation of the escapes, `~` becomes `~0`,
/// `/` becomes `~1`, and every other character stays as it is.
pub proof fn lemma_escaped(a: Seq<char>, b: Seq<char>, c: char)
    ensures
        escaped(a + b) == escaped(a) + escaped(b),
        escaped(seq![c]) == if c == '~' {
            seq!['~', '0']
        } else if c == '/' {
            seq!['~', '1']
        } else {
            seq![c]
        },
    decreases b.len(),
{
    assert(seq![c].drop_last() =~= Seq::<char>::empty());
    assert(escaped(Seq::<char>::empty()) =~= Seq::<char>::empty());
    if b.len() == 0 {
        assert(a + b =~= a);
    } else {
        lemma_escaped(a, b.drop_last(), c);
        assert((a + b).drop_last() =~= a + b.drop_last());
        assert((a + b).last() == b.last());
        assert(escaped(a + b) =~= escaped(a) + escaped(b));
    }
}

/// A JSON pointer is built segment by segment: the pointer of a
/// concatenated path is the concatenation of the pointers, and one segment
/// gives `/` and its token, a key escaped and an index in decimal.
pub proof fn lemma_pointer_text(a: Seq<PathSegment>, b: Seq<PathSegment>, seg: PathSegment)
    ensures
        pointer_text(a + b) == pointer_text(a) + pointer_text(b),
        pointer_text(seq![seg]) == seq!['/'] + match seg {
            PathSegment::Key(k) => escaped(k@),
            PathSegment::Index(i) => decimal(i as nat),
        },
    decreases b.len(),
{
    assert(seq![seg].drop_last() =~= Seq::<PathSegment>::empty());
    assert(pointer_text(Seq::<PathSegment>::empty()) == Seq::<char>::empty());
    assert(seq![seg].last() == seg);
    assert(pointer_text(seq![seg]) =~= Seq::<char>::empty() + seq!['/'] + segment_text(seg));
    if b.len() == 0 {
        assert(a + b =~= a);
        assert(pointer_text(a) + pointer_text(b) =~= pointer_text(a));
    } else {
        lemma_pointer_text(a, b.drop_last(), seg);
        assert((a + b).drop_last() =~= a + b.drop_last());
        assert((a + b).last() == b.last());
        assert(pointer_text(a + b) =~= pointer_text(a) + pointer_text(b));
    }
}

/// The key escaped for a JSON pointer.
fn escape_key(key: &str) -> (r: String)
    ensures
        r@ == escaped(key@),
{
    let v = chars_of(key);
    let mut out = String::new();
    let mut i: usize = 0;
    assert(v@.take(0) =~= Seq::<char>::empty());
    while i < v.len()
        invariant
            0 <= i <= v.len(),
            v@ == key@,
            out@ == escaped(v@.take(i as int)),
        decreases v.len() - i,
    {
        let c = v[i];
        assert(v@.take(i + 1).drop_last() =~= v@.take(i as int));
        if c == '~' {
            push_char(&mut out, '~');
            push_char(&mut out, '0');
        } else if c == '/' {
            push_char(&mut out, '~');
            push_char(&mut out, '1');
        } else {
            push_char(&mut out, c);
        }
        assert(out@ =~= escaped(v@.take(i as int)) + escaped_char(c));
        i = i + 1;
    }
    assert(v@.take(v.len() as int) =~= v@);
    out
}

/// The JSON pointer of a Desktop path.
pub fn pointer(path: &Vec<PathSegment>) -> (r: String)
    ensures
        r@ == pointer_text(path@),
{
    let mut out = String::new();
    let mut i: usize = 0;
    assert(path@.take(0) =~= Seq::<PathSegment>::empty());
    while i < path.len()
        invariant
            0 <= i <= path.len(),
            out@ == pointer_text(path@.take(i as int)),
        decreases path.len() - i,
    {
        assert(path@.take(i + 1).drop_last() =~= path@.take(i as int));
        let token = match &path[i] {
            PathSegment::Key(k) => escape_key(k.as_str()),
            PathSegment::Index(n) => decimal_string(*n as u64),
        };
        push_char(&mut out, '/');
        out.append(token.as_str());
        assert(out@ =~= pointer_text(path@.take(i as int)) + seq!['/'] + segment_text(path@[i as int]));
        i = i + 1;
    }
    assert(path@.take(path.len() as int) =~= path@);
    out
}

/// The RFC 6902 operation of one Desktop patch.
fn convert_patch(p: DesktopPatch) -> (r: Result<JsonPatchOp, PatchFault>)
    ensures
        match (r, desktop_op(p)) {
            (Ok(o), Ok(w)) => o@ == w,
            (Err(f), Err(g)) => f == g,
            _ => false,
        },
{
    let path = pointer(&p.path);
    match p.op {
        PatchOperation::Add => match p.value {
            Some(value) => Ok(JsonPatchOp::Add { path, value }),
            None => Err(PatchFault::MissingValue(PatchOperation::Add)),
        },
        PatchOperation::Replace => match p.value {
            Some(value) => Ok(JsonPatchOp::Replace { path, value }),
            None => Err(PatchFault::MissingValue(PatchOperation::Replace)),
        },
        PatchOperation::Remove => if p.path.len() == 0 {
            Err(PatchFault::RootRemove)
        } else {
            Ok(JsonPatchOp::Remove { path })
        },
    }
}

/// The RFC 6902 operations of Desktop patches.
pub fn convert_patches(patches: Vec<DesktopPatch>) -> (r: Result<Vec<JsonPatchOp>, PatchFault>)
    ensures
        match (r, desktop_ops(patches@)) {
            (Ok(o), Ok(w)) => o@.map_values(|x: JsonPatchOp| x@) == w,
            (Err(f), Err(g)) => f == g,
            _ => false,
        },
{
    let ghost all = patches@;
    let mut ops: Vec<JsonPatchOp> = Vec::new();
    assert(all.take(0) =~= Seq::<DesktopPatch>::empty());
    for p in it: patches
        invariant
            it.seq() == all,
            desktop_ops(all.take(it.index() as int)) matches Ok(w) && ops@.map_values(
                |x: JsonPatchOp| x@,
            ) == w,
    {
        let ghost i = it.index() as int;
        assert(p == all[i]);
        assert(all.take(i + 1).drop_last() =~= all.take(i));
        assert(all.take(i + 1).last() == all[i]);
        match convert_patch(p) {
            Ok(op) => {
                ops.push(op);
                proof {
                    let w = desktop_ops(all.take(i))->Ok_0;
                    assert(ops@.map_values(|x: JsonPatchOp| x@) =~= w.push(
                        desktop_op(all[i])->Ok_0,
                    ));
                }
            },
            Err(f) => {
                proof {
                    lemma_ops_error_persists(all, i + 1);
                }
                return Err(f);
            },
        }
    }
    assert(all.take(all.len() as int) =~= all);
    Ok(ops)
}

/// Once a prefix has a malformed patch, every longer prefix reports the
/// same fault.
proof fn lemma_ops_error_persists(all: Seq<DesktopPatch>, k: int)
    requires
        0 <= k <= all.len(),
        desktop_ops(all.take(k)) is Err,
    ensures
        desktop_ops(all) == desktop_ops(all.take(k)),
    decreases all.len() - k,
{
    if k < all.len() {
        assert(all.take(k + 1).drop_last() =~= all.take(k));
        lemma_ops_error_persists(all, k + 1);
    } else {
        assert(all.take(k) =~= all);
    }
}

/// The content of a mirror error.
pub enum MirrorFailure {
    Invalid(PatchFault),
    Undecodable(Seq<char>),
    Rejected(Seq<char>),
}

impl MirrorError {
    /// The content of this error.
    pub open spec fn failure(self) -> MirrorFailure {
        match self {
            MirrorError::Invalid(f) => MirrorFailure::Invalid(f),
            MirrorError::Undecodable(m) => MirrorFailure::Undecodable(m@),
            MirrorError::Rejected(m) => MirrorFailure::Rejected(m@),
        }
    }
}

/// The content of an apply outcome.
pub open spec fn outcome_view(r: Result<MirrorUpdate, MirrorError>) -> Result<MirrorUpdate, MirrorFailure> {
    match r {
        Ok(u) => Ok(u),
        Err(e) => Err(e.failure()),
    }
}

/// What applying `change` from `source` to a mirror `m` gives: the outcome
/// and the mirror afterwards.
pub open spec fn mirror_step(m: MirrorView, source: Seq<char>, change: StateChange) -> (Result<
    MirrorUpdate,
    MirrorFailure,
>, MirrorView) {
    match change {
        StateChange::Snapshot { revision, conversation_state } => (
            Ok(MirrorUpdate::Applied),
            MirrorView { state: conversation_state@, revision, owner: source },
        ),
        StateChange::Patches { base_revision, revision, patches } => if source != m.owner
            || base_revision != m.revision || revision <= base_revision {
            (Ok(MirrorUpdate::NeedsResync), m)
        } else {
            match desktop_ops(patches@) {
                Err(f) => (Err(MirrorFailure::Invalid(f)), m),
                Ok(ops) => match json_patch_outcome(m.state, ops) {
                    Ok(d) => (
                        Ok(MirrorUpdate::Applied),
                        MirrorView { state: d, revision, owner: m.owner },
                    ),
                    Err(PatchErrorView::Undecodable(t)) => (Err(MirrorFailure::Undecodable(t)), m),
                    Err(PatchErrorView::Refused(t)) => (Err(MirrorFailure::Rejected(t)), m),
                },
            }
        },
    }
}

/// A change that asks for a resync leaves the mirror as it was.
pub proof fn lemma_resync_keeps_mirror(m: MirrorView, source: Seq<char>, change: StateChange)
    requires
        mirror_step(m, source, change).0 == Ok::<MirrorUpdate, MirrorFailure>(MirrorUpdate::NeedsResync),
    ensures
        mirror_step(m, source, change).1 == m,
{
}

/// A change that fails leaves the mirror as it was.
pub proof fn lemma_failure_keeps_mirror(m: MirrorView, source: Seq<char>, change: StateChange)
    requires
        mirror_step(m, source, change).0 is Err,
    ensures
        mirror_step(m, source, change).1 == m,
{
}

/// Applied patches move the mirror to a later revision of the same owner.
pub proof fn lemma_patches_advance_revision(m: MirrorView, source: Seq<char>, change: StateChange)
    requires
        change is Patches,
        mirror_step(m, source, change).0 == Ok::<MirrorUpdate, MirrorFailure>(MirrorUpdate::Applied),
    ensures
        mirror_step(m, source, change).1.revision > m.revision,
        mirror_step(m, source, change).1.owner == m.owner,
        source == m.owner,
{
}

/// Patches from another owner, or whose base is not the current revision,
/// are never applied.
pub proof fn lemma_only_contiguous_patches_apply(
    m: MirrorView,
    source: Seq<char>,
    base_revision: u64,
    revision: u64,
    patches: Vec<DesktopPatch>,
)
    requires
        source != m.owner || base_revision != m.revision || revision <= base_revision,
    ensures
        mirror_step(
            m,
            source,
            StateChange::Patches { base_revision, revision, patches },
        ) == (Ok::<MirrorUpdate, MirrorFailure>(MirrorUpdate::NeedsResync), m),
{
}

/// A snapshot is always taken whole, whatever the mirror held.
pub proof fn lemma_snapshot_replaces(
    m: MirrorView,
    source: Seq<char>,
    revision: u64,
    conversation_state: JsonValue,
)
    ensures
        mirror_step(
            m,
            source,
            StateChange::Snapshot { revision, conversation_state },
        ) == (Ok::<MirrorUpdate, MirrorFailure>(MirrorUpdate::Applied), MirrorView {
            state: conversation_state@,
            revision,
            owner: source,
        }),
{
}

impl MirrorError {
    /// The message reported for this error: for a rejected patch the
    /// context only, as `cause` holds what `json_patch` said.
    pub fn message(&self) -> (r: String)
        ensures
            r@ == match *self {
                MirrorError::Invalid(PatchFault::MissingValue(PatchOperation::Add)) =>
                    "Desktop add patch has no value."@,
                MirrorError::Invalid(PatchFault::MissingValue(PatchOperation::Replace)) =>
                    "Desktop replace patch has no value."@,
                MirrorError::Invalid(PatchFault::MissingValue(PatchOperation::Remove)) =>
                    "Desktop remove patch has no value."@,
                MirrorError::Invalid(PatchFault::RootRemove) =>
                    "Desktop state cannot be removed by a root patch."@,
                MirrorError::Undecodable(m) => m@,
                MirrorError::Rejected(_) => "Failed to apply a Desktop state patch."@,
            },
    {
        match self {
            MirrorError::Invalid(PatchFault::MissingValue(PatchOperation::Add)) =>
                String::from_str("Desktop add patch has no value."),
            MirrorError::Invalid(PatchFault::MissingValue(PatchOperation::Replace)) =>
                String::from_str("Desktop replace patch has no value."),
            MirrorError::Invalid(PatchFault::MissingValue(PatchOperation::Remove)) =>
                String::from_str("Desktop remove patch has no value."),
            MirrorError::Invalid(PatchFault::RootRemove) =>
                String::from_str("Desktop state cannot be removed by a root patch."),
            MirrorError::Undecodable(m) => m.clone(),
            MirrorError::Rejected(_) => String::from_str("Failed to apply a Desktop state patch."),
        }
    }

    /// The error under this one: `json_patch`'s message for a rejected
    /// patch, nothing otherwise.
    pub fn cause(&self) -> (r: Option<&str>)
        ensures
            match (*self, r) {
                (MirrorError::Rejected(c), Some(t)) => t@ == c@,
                (MirrorError::Rejected(_), None) => false,
                (_, r) => r is None,
            },
    {
        match self {
            MirrorError::Rejected(c) => Some(c.as_str()),
            _ => None,
        }
    }
}

/// The first value among the members of `v` whose `turnId` is `turn_id`;
/// nothing when `v` is not an object.
fn find_entity<'a>(v: &'a JsonValue, turn_id: &str) -> (r: Option<Option<&'a JsonValue>>)
    ensures
        match (r, member_values(v@)) {
            (None, None) => true,
            (Some(x), Some(values)) => {
                let found = first_where(values, |t: JsonView| text_field(t, "turnId"@) == Some(turn_id@));
                match x {
                    Some(t) => found == Some(t@),
                    None => found is None,
                }
            },
            _ => false,
        },
{
    match v {
        JsonValue::Object(members) => {
            let ghost p = |t: JsonView| text_field(t, "turnId"@) == Some(turn_id@);
            let ghost values = member_values(v@)->0;
            proof {
                crate::json::lemma_members_view(members@);
            }
            assert(values.skip(0) =~= values);
            let n = members.len();
            let mut i: usize = 0;
            while i < n
                invariant
                    0 <= i <= n == members@.len() == values.len(),
                    p == (|t: JsonView| text_field(t, "turnId"@) == Some(turn_id@)),
                    forall|j: int| 0 <= j < n ==> #[trigger] values[j] == members@[j].1@,
                    first_where(values, p) == first_where(values.skip(i as int), p),
                    member_values(v@) == Some(values),
                decreases n - i,
            {
                assert(values.skip(i as int)[0] == values[i as int]);
                let t = &members[i].1;
                let hit = match crate::json::get_text_field(t, "turnId") {
                    Some(id) => same_text(id, turn_id),
                    None => false,
                };
                if hit {
                    return Some(Some(t));
                }
                assert(values.skip(i as int).drop_first() =~= values.skip(i + 1));
                i = i + 1;
            }
            Some(None)
        },
        _ => None,
    }
}

/// The first entry of `items` whose id is `turn_id`.
fn find_listed<'a>(items: &'a Vec<JsonValue>, turn_id: &str) -> (r: Option<&'a JsonValue>)
    ensures
        ({
            let found = first_where(crate::json::json_views(items@), |t: JsonView| turn_key(t) == Some(turn_id@));
            match r {
                Some(t) => found == Some(t@),
                None => found is None,
            }
        }),
{
    let ghost p = |t: JsonView| turn_key(t) == Some(turn_id@);
    let ghost values = crate::json::json_views(items@);
    proof {
        crate::json::lemma_json_views(items@);
    }
    assert(values.skip(0) =~= values);
    let n = items.len();
    let mut i: usize = 0;
    while i < n
        invariant
            0 <= i <= n == items@.len() == values.len(),
            p == (|t: JsonView| turn_key(t) == Some(turn_id@)),
            values == crate::json::json_views(items@),
            forall|j: int| 0 <= j < n ==> #[trigger] values[j] == items@[j]@,
            first_where(values, p) == first_where(values.skip(i as int), p),
        decreases n - i,
    {
        assert(values.skip(i as int)[0] == values[i as int]);
        let t = &items[i];
        let key = match crate::json::get_field(t, "turnId") {
            Some(x) => crate::json::get_text(x),
            None => crate::json::get_text_field(t, "id"),
        };
        let hit = match key {
            Some(id) => same_text(id, turn_id),
            None => false,
        };
        if hit {
            return Some(t);
        }
        assert(values.skip(i as int).drop_first() =~= values.skip(i + 1));
        i = i + 1;
    }
    None
}

/// The trimmed text of the last agent message among the items of `turn`.
fn final_text(turn: &JsonValue) -> (r: String)
    ensures
        r@ == final_message(turn@),
{
    assert(trim(Seq::<char>::empty()) == Seq::<char>::empty());
    let items = match crate::json::get_field(turn, "items") {
        Some(JsonValue::Array(items)) => items,
        _ => {
            return String::new();
        },
    };
    let ghost p = |i: JsonView| is_agent_message(i);
    let ghost values = crate::json::json_views(items@);
    proof {
        crate::json::lemma_json_views(items@);
    }
    assert(values.take(values.len() as int) =~= values);
    let mut j: usize = items.len();
    while j > 0
        invariant
            0 <= j <= items@.len() == values.len(),
            p == (|i: JsonView| is_agent_message(i)),
            values == crate::json::json_views(items@),
            forall|k: int| 0 <= k < values.len() ==> #[trigger] values[k] == items@[k]@,
            last_where(values, p) == last_where(values.take(j as int), p),
            field(turn@, "items"@) == Some(JsonView::Array(values)),
            trim(Seq::<char>::empty()) == Seq::<char>::empty(),
        decreases j,
    {
        assert(values.take(j as int).last() == values[j - 1]);
        let item = &items[j - 1];
        let hit = match crate::json::get_text_field(item, "type") {
            Some(t) => same_text(t, "agentMessage"),
            None => false,
        };
        if hit {
            return match crate::json::get_text_field(item, "text") {
                Some(t) => trimmed(t),
                None => String::new(),
            };
        }
        assert(values.take(j as int).drop_last() =~= values.take(j - 1));
        j = j - 1;
    }
    assert(values.take(0) =~= Seq::<JsonView>::empty());
    String::new()
}

impl Mirror {
    /// A mirror of the snapshot `change` owned by `source`; nothing for a
    /// patch change.
    pub fn from_snapshot(source: String, change: StateChange) -> (r: Option<Self>)
        ensures
            match change {
                StateChange::Snapshot { revision, conversation_state } => r matches Some(m) && m@
                    == (MirrorView { state: conversation_state@, revision, owner: source@ }),
                StateChange::Patches { .. } => r is None,
            },
    {
        match change {
            StateChange::Snapshot { revision, conversation_state } => Some(
                Mirror { state: conversation_state, revision, owner: source },
            ),
            StateChange::Patches { .. } => None,
        }
    }

    /// The document.
    pub fn state(&self) -> (r: &JsonValue)
        ensures
            r@ == self@.state,
    {
        &self.state
    }

    /// The revision the document is at.
    pub fn revision(&self) -> (r: u64)
        ensures
            r == self@.revision,
    {
        self.revision
    }

    /// The Desktop client that owns the stream.
    pub fn owner(&self) -> (r: &str)
        ensures
            r@ == self@.owner,
    {
        self.owner.as_str()
    }

    /// The turn `turn_id` of the document.
    fn turn(&self, turn_id: &str) -> (r: Option<&JsonValue>)
        ensures
            match r {
                Some(t) => find_turn(self@.state, turn_id@) == Some(t@),
                None => find_turn(self@.state, turn_id@) is None,
            },
    {
        let history = match crate::json::get_field(&self.state, "turnHistory") {
            Some(x) => crate::json::get_field(x, "history"),
            None => None,
        };
        let entities = match history {
            Some(x) => crate::json::get_field(x, "entitiesByKey"),
            None => None,
        };
        let entities = match entities {
            Some(e) => e,
            None => return None,
        };
        match find_entity(entities, turn_id) {
            None => None,
            Some(Some(t)) => Some(t),
            Some(None) => match crate::json::get_field(&self.state, "turns") {
                Some(JsonValue::Array(items)) => find_listed(items, turn_id),
                _ => None,
            },
        }
    }

    /// The status and final message of turn `turn_id`, once the document
    /// shows it in a terminal status.
    pub fn settlement(&self, turn_id: &str) -> (r: Option<Settlement>)
        ensures
            match (r, settlement_of(self@.state, turn_id@)) {
                (None, None) => true,
                (Some(s), Some((status, result))) => s.status@ == status && s.result@ == result,
                _ => false,
            },
    {
        let turn = match self.turn(turn_id) {
            Some(t) => t,
            None => return None,
        };
        let status = match crate::json::get_text_field(turn, "status") {
            Some(s) => s,
            None => return None,
        };
        let terminal = same_text(status, "completed") || same_text(status, "interrupted")
            || same_text(status, "failed") || same_text(status, "cancelled");
        if !terminal {
            return None;
        }
        Some(Settlement { status: String::from_str(status), result: final_text(turn) })
    }

    /// Applies Desktop patches to the document, all or none.
    pub fn apply_patches(&mut self, patches: Vec<DesktopPatch>) -> (r: Result<(), MirrorError>)
        ensures
            final(self)@.revision == old(self)@.revision,
            final(self)@.owner == old(self)@.owner,
            match desktop_ops(patches@) {
                Err(f) => r matches Err(MirrorError::Invalid(g)) && g == f && final(self)@ == old(
                    self,
                )@,
                Ok(ops) => match json_patch_outcome(old(self)@.state, ops) {
                    Ok(d) => r is Ok && final(self)@.state == d,
                    Err(e) => r matches Err(x) && x.failure() == match e {
                        PatchErrorView::Undecodable(t) => MirrorFailure::Undecodable(t),
                        PatchErrorView::Refused(t) => MirrorFailure::Rejected(t),
                    } && final(self)@ == old(self)@,
                },
            },
    {
        let ops = match convert_patches(patches) {
            Ok(ops) => ops,
            Err(f) => return Err(MirrorError::Invalid(f)),
        };
        match apply_json_patch(&self.state, &ops) {
            Ok(doc) => {
                self.state = doc;
                Ok(())
            },
            Err(JsonPatchError::Undecodable(e)) => Err(MirrorError::Undecodable(e)),
            Err(JsonPatchError::Refused(e)) => Err(MirrorError::Rejected(e)),
        }
    }

    /// Applies `change` from `source`. A snapshot replaces the mirror. A
    /// patch change applies only when it comes from the owner and carries
    /// the next revision after the current one; otherwise the mirror is left
    /// as it is and a resync is asked for.
    pub fn apply(&mut self, source: String, change: StateChange) -> (r: Result<MirrorUpdate, MirrorError>)
        ensures
            (outcome_view(r), final(self)@) == mirror_step(old(self)@, source@, change),
    {
        match change {
            StateChange::Snapshot { revision, conversation_state } => {
                self.state = conversation_state;
                self.revision = revision;
                self.owner = source;
            },
            StateChange::Patches { base_revision, revision, patches } => {
                if !same_text(source.as_str(), self.owner.as_str()) || base_revision
                    != self.revision || revision <= base_revision {
                    return Ok(MirrorUpdate::NeedsResync);
                }
                self.apply_patches(patches)?;
                self.revision = revision;
            },
        }
        Ok(MirrorUpdate::Applied)
    }
}

} // verus!
