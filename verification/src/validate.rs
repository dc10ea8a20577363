//! Choice of the target Codex task and validation of required text.

use vstd::prelude::*;
use vstd::string::*;
use crate::lookup::{ThreadSummary, thread_label, label_of};
pub use crate::text::normalize;
use crate::text::{chars_of, normalized, string_of, trim, trimmed, is_white_space, lemma_normal_fixed,
    lemma_normalized_is_normal, lemma_prefix_then_word_normal};

verus! {

/// Why no target task could be chosen.
#[derive(Debug)]
pub enum TargetError {
    /// No explicit task id and no usable window title.
    TitleUnavailable,
    /// The title did not match exactly one task.
    NotUnique { cwd: String, title: String, details: String },
}

/// A required value was blank.
#[derive(Debug)]
pub struct RequiredError {
    pub label: String,
}

/// The trimmed text of an optional string.
pub open spec fn trimmed_choice(o: Option<&str>) -> Option<Seq<char>> {
    match o {
        Some(s) => if trim(s@).len() > 0 { Some(trim(s@)) } else { None },
        None => None,
    }
}

/// The normalised text of an optional string, when it is not empty.
pub open spec fn normalized_choice(o: Option<&str>) -> Option<Seq<char>> {
    match o {
        Some(s) => if normalized(s@).len() > 0 { Some(normalized(s@)) } else { None },
        None => None,
    }
}

/// Whether the normalised title of `t` equals `title`.
pub open spec fn title_matches(t: ThreadSummary, title: Seq<char>) -> bool {
    normalized(thread_label(t, Seq::empty())) == title
}

/// The threads whose normalised title equals `title`, in order.
pub open spec fn matching(threads: Seq<ThreadSummary>, title: Seq<char>) -> Seq<ThreadSummary> {
    threads.filter(|t: ThreadSummary| title_matches(t, title))
}

/// `shorten`: the normalised text, cut to `limit` characters with an
/// ellipsis when it is longer.
pub open spec fn shortened(s: Seq<char>, limit: nat) -> Seq<char> {
    let v = normalized(s);
    if v.len() <= limit {
        v
    } else {
        v.take(if limit >= 3 { limit - 3 } else { 0 }) + "..."@
    }
}

/// The pieces joined with `sep` between neighbours.
pub open spec fn joined(pieces: Seq<Seq<char>>, sep: Seq<char>) -> Seq<char>
    decreases pieces.len(),
{
    if pieces.len() == 0 {
        Seq::empty()
    } else if pieces.len() == 1 {
        pieces[0]
    } else {
        joined(pieces.drop_last(), sep) + sep + pieces.last()
    }
}

/// How one matching task is listed in an ambiguity report.
pub open spec fn match_entry(t: ThreadSummary) -> Seq<char> {
    t.id@ + " ("@ + shortened(thread_label(t, "untitled"@), 60) + ")"@
}

/// The list of the first five matches that an ambiguity report carries.
pub open spec fn match_details(ms: Seq<ThreadSummary>) -> Seq<char> {
    if ms.len() == 0 {
        Seq::empty()
    } else {
        " Matches: "@ + joined(ms.take(if ms.len() < 5 { ms.len() as int } else { 5 }).map_values(
            |t: ThreadSummary| match_entry(t),
        ), ", "@) + "."@
    }
}

/// The text of a target error.
pub open spec fn target_error_text(e: TargetError) -> Seq<char> {
    match e {
        TargetError::TitleUnavailable =>
            "CODEX_APP_TITLE is unavailable. Set CODEX_APP_THREAD_ID to the target Codex task id and retry."@,
        TargetError::NotUnique { cwd, title, details } =>
            "CODEX_APP_TITLE did not identify exactly one unarchived Codex task in "@ + cwd@
                + ": "@ + title@ + "."@ + details@
                + " Set CODEX_APP_THREAD_ID to the task id and retry."@,
    }
}

impl TargetError {
    /// The message reported for this error.
    pub fn message(&self) -> (r: String)
        ensures
            r@ == target_error_text(*self),
    {
        match self {
            TargetError::TitleUnavailable => String::from_str(
                "CODEX_APP_TITLE is unavailable. Set CODEX_APP_THREAD_ID to the target Codex task id and retry.",
            ),
            TargetError::NotUnique { cwd, title, details } => {
                let mut m = String::from_str(
                    "CODEX_APP_TITLE did not identify exactly one unarchived Codex task in ",
                );
                m.append(cwd.as_str());
                m.append(": ");
                m.append(title.as_str());
                m.append(".");
                m.append(details.as_str());
                m.append(" Set CODEX_APP_THREAD_ID to the task id and retry.");
                m
            },
        }
    }
}

impl RequiredError {
    /// The message reported for this error.
    pub fn message(&self) -> (r: String)
        ensures
            r@ == self.label@ + " must not be empty."@,
    {
        let mut m = self.label.clone();
        m.append(" must not be empty.");
        m
    }
}

/// The normalised `value`, cut to `limit` characters with a trailing
/// `...` when it is longer.
pub fn shorten(value: &str, limit: usize) -> (r: String)
    ensures
        r@ == shortened(value@, limit as nat),
        r@.len() <= if limit >= 3 { limit as nat } else { 3 },
{
    let v = normalize(value);
    let chars = chars_of(v.as_str());
    let count = chars.len();
    if count <= limit {
        return v;
    }
    let keep = if limit >= 3 { limit - 3 } else { 0 };
    let mut prefix = string_of(&chars, 0, keep);
    prefix.append("...");
    proof {
        reveal_strlit("...");
        assert(chars@.subrange(0, keep as int) =~= v@.take(keep as int));
    }
    prefix
}

/// `value` trimmed; an error naming `label` when nothing is left.
pub fn required(value: String, label: &str) -> (r: Result<String, RequiredError>)
    ensures
        trim(value@).len() > 0 ==> (r matches Ok(v) && v@ == trim(value@)),
        trim(value@).len() == 0 ==> (r matches Err(e) && e.label@ == label@),
{
    let v = trimmed(value.as_str());
    if chars_of(v.as_str()).len() == 0 {
        return Err(RequiredError { label: String::from_str(label) });
    }
    Ok(v)
}

/// A task whose title is the normalised form of the requested title is
/// among the matches: normalising is idempotent.
pub proof fn lemma_normalized_title_matches(t: ThreadSummary, title: Seq<char>)
    requires
        thread_label(t, Seq::empty()) == normalized(title),
    ensures
        title_matches(t, normalized(title)),
{
    crate::text::lemma_normalized_idempotent(title);
}

/// A task is matched by its name: a task named `n` matches every title
/// that normalises to what `n` normalises to, whatever its preview.
pub proof fn lemma_named_task_matches(t: ThreadSummary, title: Seq<char>)
    requires
        t.name matches Some(n) && normalized(n@) == normalized(title),
    ensures
        title_matches(t, normalized(title)),
{
    crate::lookup::lemma_label_prefers_name(t, Seq::empty());
}

/// Titles that differ only in white space select the same tasks.
pub proof fn lemma_white_space_insensitive(threads: Seq<ThreadSummary>, a: Seq<char>, b: Seq<char>)
    requires
        normalized(a) == normalized(b),
    ensures
        matching(threads, normalized(a)) == matching(threads, normalized(b)),
{
}

/// Shortening is idempotent: shortening an already shortened value with
/// the same limit gives it back unchanged.
pub proof fn lemma_shorten_idempotent(s: Seq<char>, limit: nat)
    ensures
        shortened(shortened(s, limit), limit) == shortened(s, limit),
{
    let v = normalized(s);
    lemma_normalized_is_normal(s);
    if v.len() <= limit {
        lemma_normal_fixed(v);
    } else {
        let k: int = if limit >= 3 { limit - 3 } else { 0 };
        let dots = "..."@;
        reveal_strlit("...");
        assert(dots.len() == 3);
        assert forall|i: int| 0 <= i < dots.len() implies !is_white_space(#[trigger] dots[i]) by {
            assert(dots[i] == '.');
        }
        lemma_prefix_then_word_normal(v, k, dots);
        let r = v.take(k) + dots;
        lemma_normal_fixed(r);
        assert(r.len() == k + 3);
        if limit < 3 {
            assert(r.take(0) + dots =~= r);
        }
    }
}

/// Filtering one more element extends the filtered prefix.
proof fn lemma_filter_take_step<A>(s: Seq<A>, pred: spec_fn(A) -> bool, i: int)
    requires
        0 <= i < s.len(),
    ensures
        s.take(i + 1).filter(pred) == if pred(s[i]) {
            s.take(i).filter(pred).push(s[i])
        } else {
            s.take(i).filter(pred)
        },
{
    reveal(Seq::filter);
    assert(s.take(i + 1).drop_last() =~= s.take(i));
}

/// The task that `explicit` names, else the single unarchived task whose
/// normalised title equals the normalised `title`.
pub fn target_thread(
    explicit: Option<&str>,
    title: Option<&str>,
    threads: &[ThreadSummary],
    cwd: &str,
) -> (r: Result<String, TargetError>)
    ensures
        trimmed_choice(explicit) matches Some(id) ==> (r matches Ok(v) && v@ == id),
        trimmed_choice(explicit) is None && normalized_choice(title) is None ==> (
        r matches Err(TargetError::TitleUnavailable)),
        trimmed_choice(explicit) is None && normalized_choice(title) is Some ==> ({
            let t = normalized_choice(title)->0;
            let ms = matching(threads@, t);
            &&& ms.len() == 1 ==> (r matches Ok(v) && v@ == ms[0].id@)
            &&& ms.len() != 1 ==> (r matches Err(TargetError::NotUnique { cwd: c, title: tt, details: d })
                && c@ == cwd@ && tt@ == t && d@ == match_details(ms))
        }),
{
    if let Some(e) = explicit {
        let id = trimmed(e);
        if chars_of(id.as_str()).len() > 0 {
            return Ok(id);
        }
    }
    let title = match title {
        Some(t) => {
            let n = normalize(t);
            if chars_of(n.as_str()).len() == 0 {
                return Err(TargetError::TitleUnavailable);
            }
            n
        },
        None => {
            return Err(TargetError::TitleUnavailable);
        },
    };
    let ghost tv = title@;
    let ghost pred = |t: ThreadSummary| title_matches(t, tv);
    let mut hits: Vec<usize> = Vec::new();
    let n = threads.len();
    let mut i: usize = 0;
    proof {
        reveal(Seq::filter);
        assert(threads@.take(0) =~= Seq::<ThreadSummary>::empty());
    }
    while i < n
        invariant
            0 <= i <= n == threads@.len(),
            title@ == tv,
            pred == (|t: ThreadSummary| title_matches(t, tv)),
            forall|k: int| 0 <= k < hits@.len() ==> hits@[k] < i,
            hits@.map_values(|k: usize| threads@[k as int]) == threads@.take(i as int).filter(pred),
        decreases n - i,
    {
        let label = label_of(&threads[i], "");
        let key = normalize(label);
        proof {
            lemma_filter_take_step(threads@, pred, i as int);
            reveal_strlit("");
            assert(""@ =~= Seq::<char>::empty());
            assert(pred(threads@[i as int]) == (key@ == title@));
        }
        if key == title {
            hits.push(i);
            assert(hits@.map_values(|k: usize| threads@[k as int]) =~= threads@.take(i as int).filter(pred).push(threads@[i as int]));
        }
        i = i + 1;
    }
    assert(threads@.take(n as int) =~= threads@);
    let ghost ms = matching(threads@, tv);
    assert(ms == hits@.map_values(|k: usize| threads@[k as int]));
    if hits.len() == 1 {
        assert(ms[0] == threads@[hits@[0] as int]);
        return Ok(threads[hits[0]].id.clone());
    }
    let details = if hits.len() == 0 {
        String::new()
    } else {
        let shown = if hits.len() < 5 { hits.len() } else { 5 };
        let ghost entries = ms.take(shown as int).map_values(|t: ThreadSummary| match_entry(t));
        let mut list = String::new();
        let mut k: usize = 0;
        while k < shown
            invariant
                0 <= k <= shown <= hits@.len(),
                shown == (if ms.len() < 5 { ms.len() as int } else { 5 }),
                ms == hits@.map_values(|k: usize| threads@[k as int]),
                forall|j: int| 0 <= j < hits@.len() ==> hits@[j] < threads@.len(),
                entries == ms.take(shown as int).map_values(|t: ThreadSummary| match_entry(t)),
                list@ == joined(entries.take(k as int), ", "@),
            decreases shown - k,
        {
            let t = &threads[hits[k]];
            assert(*t == ms[k as int]);
            if k > 0 {
                list.append(", ");
            }
            let mut entry = t.id.clone();
            entry.append(" (");
            let s = shorten(label_of(t, "untitled"), 60);
            entry.append(s.as_str());
            entry.append(")");
            list.append(entry.as_str());
            proof {
                assert(entries.take(k + 1).drop_last() =~= entries.take(k as int));
                assert(entries[k as int] == match_entry(ms[k as int]));
                if k == 0 {
                    assert(list@ =~= entries.take(1)[0]);
                } else {
                    assert(list@ =~= joined(entries.take(k as int), ", "@) + ", "@ + entries.take(k + 1).last());
                }
            }
            k = k + 1;
        }
        assert(entries.take(shown as int) =~= entries);
        let mut d = String::from_str(" Matches: ");
        d.append(list.as_str());
        d.append(".");
        d
    };
    Err(TargetError::NotUnique { cwd: String::from_str(cwd), title, details })
}

} // verus!
