//! The session's ledger of active turns: one entry per thread, naming the
//! command channel of the task that owns it and the turn it runs. Steer
//! and interrupt reach a turn only through its entry here.

use vstd::prelude::*;
use vstd::string::*;
use crate::protocol::TurnReference;
use crate::text::same_text;

verus! {

/// An active entry: the turn it runs, once known, and the identity of
/// the owning task's command channel.
#[derive(Debug)]
pub struct Entry {
    pub turn_id: Option<String>,
    pub channel: u64,
}

/// The content of an entry.
pub struct EntryView {
    pub turn_id: Option<Seq<char>>,
    pub channel: u64,
}

impl View for Entry {
    type V = EntryView;

    open spec fn view(&self) -> EntryView {
        EntryView {
            turn_id: match self.turn_id {
                Some(t) => Some(t@),
                None => None,
            },
            channel: self.channel,
        }
    }
}

/// The active turns, by thread id.
pub struct Registry {
    active: Vec<(String, Entry)>,
}

/// The map that a list of entries stands for.
pub open spec fn map_of(s: Seq<(String, Entry)>) -> Map<Seq<char>, EntryView>
    decreases s.len(),
{
    if s.len() == 0 {
        Map::empty()
    } else {
        map_of(s.drop_last()).insert(s.last().0@, s.last().1@)
    }
}

/// No thread id occurs twice.
pub open spec fn unique_keys(s: Seq<(String, Entry)>) -> bool {
    forall|i: int, j: int| 0 <= i < j < s.len() ==> s[i].0@ != s[j].0@
}

/// The map holds exactly the listed thread ids, each with its entry.
proof fn lemma_map_of(s: Seq<(String, Entry)>)
    requires
        unique_keys(s),
    ensures
        forall|k: Seq<char>| #[trigger] map_of(s).contains_key(k) <==> exists|i: int| 0 <= i < s.len() && s[i].0@ == k,
        forall|i: int| 0 <= i < s.len() ==> #[trigger] map_of(s)[s[i].0@] == s[i].1@,
    decreases s.len(),
{
    if s.len() > 0 {
        let d = s.drop_last();
        lemma_map_of(d);
        assert forall|k: Seq<char>| #[trigger] map_of(s).contains_key(k) <==> exists|i: int| 0 <= i < s.len() && s[i].0@ == k by {
            if map_of(s).contains_key(k) && k != s.last().0@ {
                assert(map_of(d).contains_key(k));
                let i = choose|i: int| 0 <= i < d.len() && d[i].0@ == k;
                assert(s[i].0@ == k);
            }
            if exists|i: int| 0 <= i < s.len() && s[i].0@ == k {
                let i = choose|i: int| 0 <= i < s.len() && s[i].0@ == k;
                if i < s.len() - 1 {
                    assert(d[i].0@ == k);
                    assert(map_of(d).contains_key(k));
                }
            }
        }
        assert forall|i: int| 0 <= i < s.len() implies #[trigger] map_of(s)[s[i].0@] == s[i].1@ by {
            if i < s.len() - 1 {
                assert(d[i] == s[i]);
                assert(s[i].0@ != s[s.len() - 1].0@);
                assert(map_of(d)[d[i].0@] == d[i].1@);
            }
        }
    }
}

/// Removing the entry at `i` removes its thread id from the map.
proof fn lemma_map_of_remove(s: Seq<(String, Entry)>, i: int)
    requires
        unique_keys(s),
        0 <= i < s.len(),
    ensures
        map_of(s.remove(i)) == map_of(s).remove(s[i].0@),
        unique_keys(s.remove(i)),
    decreases s.len(),
{
    let d = s.drop_last();
    let k = s[i].0@;
    lemma_map_of(d);
    if i == s.len() - 1 {
        assert(s.remove(i) =~= d);
        assert(!map_of(d).contains_key(k));
        assert(map_of(s).remove(k) =~= map_of(d));
    } else {
        lemma_map_of_remove(d, i);
        assert(s.remove(i) =~= d.remove(i).push(s.last()));
        assert(s.remove(i).drop_last() =~= d.remove(i));
        assert(s.last().0@ != k);
        assert(map_of(s.remove(i)) =~= map_of(s).remove(k));
    }
}

/// The error of a reference to a turn that is not active here.
#[derive(Debug)]
pub struct NotActive {
    pub thread_id: String,
    pub turn_id: String,
}

impl NotActive {
    /// The message reported for this error.
    pub fn message(&self) -> (r: String)
        ensures
            r@ == "Codex turn "@ + self.turn_id@ + " in thread "@ + self.thread_id@
                + " is not active in this MCP session."@,
    {
        let mut m = String::from_str("Codex turn ");
        m.append(self.turn_id.as_str());
        m.append(" in thread ");
        m.append(self.thread_id.as_str());
        m.append(" is not active in this MCP session.");
        m
    }
}

/// The ledger after `channel` registered `thread_id` running `turn_id`.
pub open spec fn registered(
    m: Map<Seq<char>, EntryView>,
    thread_id: Seq<char>,
    channel: u64,
    turn_id: Option<Seq<char>>,
) -> Map<Seq<char>, EntryView> {
    m.insert(thread_id, EntryView { turn_id, channel })
}

/// The ledger after `channel` recorded that `thread_id` runs `turn_id`:
/// changed only when the entry of the thread belongs to `channel`.
pub open spec fn turn_set(
    m: Map<Seq<char>, EntryView>,
    thread_id: Seq<char>,
    channel: u64,
    turn_id: Seq<char>,
) -> Map<Seq<char>, EntryView> {
    if m.contains_key(thread_id) && m[thread_id].channel == channel {
        m.insert(thread_id, EntryView { turn_id: Some(turn_id), channel })
    } else {
        m
    }
}

/// The ledger after `channel` removed its entry of `thread_id`: changed
/// only when the entry belongs to `channel`.
pub open spec fn removed(m: Map<Seq<char>, EntryView>, thread_id: Seq<char>, channel: u64) -> Map<
    Seq<char>,
    EntryView,
> {
    if m.contains_key(thread_id) && m[thread_id].channel == channel {
        m.remove(thread_id)
    } else {
        m
    }
}

/// Whether the ledger shows exactly the turn `turn_id` active in
/// `thread_id`.
pub open spec fn runs(m: Map<Seq<char>, EntryView>, thread_id: Seq<char>, turn_id: Seq<char>) -> bool {
    m.contains_key(thread_id) && m[thread_id].turn_id == Some(turn_id)
}

/// A task that finishes removes only its own entry: an entry that a later
/// task registered for the same thread stays.
pub proof fn lemma_later_entry_survives(
    m: Map<Seq<char>, EntryView>,
    thread_id: Seq<char>,
    earlier: u64,
    later: u64,
    turn_id: Option<Seq<char>>,
)
    requires
        earlier != later,
    ensures
        removed(registered(m, thread_id, later, turn_id), thread_id, earlier) == registered(
            m,
            thread_id,
            later,
            turn_id,
        ),
{
}

/// A task's own removal leaves no entry for its thread.
pub proof fn lemma_own_entry_removed(
    m: Map<Seq<char>, EntryView>,
    thread_id: Seq<char>,
    channel: u64,
    turn_id: Option<Seq<char>>,
)
    ensures
        !removed(registered(m, thread_id, channel, turn_id), thread_id, channel).contains_key(thread_id),
{
}

/// Once the owning task records a turn, that turn is the one reported
/// active for the thread, and no other.
pub proof fn lemma_recorded_turn_runs(
    m: Map<Seq<char>, EntryView>,
    thread_id: Seq<char>,
    channel: u64,
    turn_id: Seq<char>,
    other: Seq<char>,
)
    requires
        m.contains_key(thread_id),
        m[thread_id].channel == channel,
        other != turn_id,
    ensures
        runs(turn_set(m, thread_id, channel, turn_id), thread_id, turn_id),
        !runs(turn_set(m, thread_id, channel, turn_id), thread_id, other),
{
}

/// Another task cannot change the turn recorded for a thread.
pub proof fn lemma_foreign_turn_ignored(
    m: Map<Seq<char>, EntryView>,
    thread_id: Seq<char>,
    channel: u64,
    turn_id: Seq<char>,
)
    requires
        m.contains_key(thread_id),
        m[thread_id].channel != channel,
    ensures
        turn_set(m, thread_id, channel, turn_id) == m,
{
}

/// Registering a thread with a known turn makes that turn, and no other,
/// the one reported active for the thread, owned by the registering
/// channel; the entries of other threads are untouched.
pub proof fn lemma_registered_turn_runs(
    m: Map<Seq<char>, EntryView>,
    thread_id: Seq<char>,
    channel: u64,
    turn_id: Seq<char>,
    other: Seq<char>,
    other_thread: Seq<char>,
)
    requires
        other != turn_id,
        other_thread != thread_id,
    ensures
        runs(registered(m, thread_id, channel, Some(turn_id)), thread_id, turn_id),
        !runs(registered(m, thread_id, channel, Some(turn_id)), thread_id, other),
        registered(m, thread_id, channel, Some(turn_id))[thread_id].channel == channel,
        registered(m, thread_id, channel, Some(turn_id)).contains_key(other_thread)
            == m.contains_key(other_thread),
        m.contains_key(other_thread) ==> registered(m, thread_id, channel, Some(turn_id))[other_thread]
            == m[other_thread],
{
}

/// A thread registered before its turn is known has no turn that steer,
/// interrupt or status can name.
pub proof fn lemma_pending_entry_runs_nothing(
    m: Map<Seq<char>, EntryView>,
    thread_id: Seq<char>,
    channel: u64,
    turn_id: Seq<char>,
)
    ensures
        !runs(registered(m, thread_id, channel, None), thread_id, turn_id),
{
}

impl View for Registry {
    type V = Map<Seq<char>, EntryView>;

    closed spec fn view(&self) -> Map<Seq<char>, EntryView> {
        map_of(self.active@)
    }
}

impl Registry {
    #[verifier::type_invariant]
    spec fn keys_unique(self) -> bool {
        unique_keys(self.active@)
    }

    /// An empty registry.
    pub fn new() -> (r: Self)
        ensures
            r@ == Map::<Seq<char>, EntryView>::empty(),
    {
        Registry { active: Vec::new() }
    }

    /// The position of the entry of `thread_id`.
    fn position(&self, thread_id: &str) -> (r: Option<usize>)
        ensures
            match r {
                Some(i) => i < self.active@.len() && self.active@[i as int].0@ == thread_id@,
                None => !self@.contains_key(thread_id@),
            },
    {
        proof {
            use_type_invariant(self);
            lemma_map_of(self.active@);
        }
        let mut i: usize = 0;
        while i < self.active.len()
            invariant
                0 <= i <= self.active@.len(),
                forall|j: int| 0 <= j < i ==> self.active@[j].0@ != thread_id@,
            decreases self.active@.len() - i,
        {
            if same_text(self.active[i].0.as_str(), thread_id) {
                return Some(i);
            }
            i = i + 1;
        }
        None
    }

    /// The channel of the active entry of `thread_id`, whatever turn it
    /// runs.
    pub fn find(&self, thread_id: &str) -> (r: Option<u64>)
        ensures
            match r {
                Some(c) => self@.contains_key(thread_id@) && self@[thread_id@].channel == c,
                None => !self@.contains_key(thread_id@),
            },
    {
        proof {
            use_type_invariant(self);
            lemma_map_of(self.active@);
        }
        match self.position(thread_id) {
            Some(i) => Some(self.active[i].1.channel),
            None => None,
        }
    }

    /// The channel of the entry that runs exactly the referenced turn; an
    /// error otherwise.
    pub fn expect(&self, reference: &TurnReference) -> (r: Result<u64, NotActive>)
        ensures
            match r {
                Ok(c) => runs(self@, reference.thread_id@, reference.turn_id@)
                    && self@[reference.thread_id@].channel == c,
                Err(e) => !runs(self@, reference.thread_id@, reference.turn_id@)
                    && e.thread_id@ == reference.thread_id@ && e.turn_id@ == reference.turn_id@,
            },
    {
        proof {
            use_type_invariant(self);
            lemma_map_of(self.active@);
        }
        if let Some(i) = self.position(reference.thread_id.as_str()) {
            let entry = &self.active[i].1;
            if let Some(t) = &entry.turn_id {
                if same_text(t.as_str(), reference.turn_id.as_str()) {
                    return Ok(entry.channel);
                }
            }
        }
        Err(NotActive { thread_id: reference.thread_id.clone(), turn_id: reference.turn_id.clone() })
    }

    /// Removes the entry at `i`.
    fn take_at(&mut self, i: usize)
        requires
            i < old(self).active@.len(),
        ensures
            final(self)@ == old(self)@.remove(old(self).active@[i as int].0@),
    {
        proof {
            use_type_invariant(&*self);
            lemma_map_of_remove(self.active@, i as int);
        }
        let mut active = Vec::new();
        std::mem::swap(&mut active, &mut self.active);
        active.remove(i);
        self.active = active;
    }

    /// Adds `entry` for `thread_id`, which has none.
    fn put(&mut self, thread_id: &str, entry: Entry)
        requires
            !old(self)@.contains_key(thread_id@),
        ensures
            final(self)@ == old(self)@.insert(thread_id@, entry@),
    {
        proof {
            use_type_invariant(&*self);
            lemma_map_of(self.active@);
        }
        let mut active = Vec::new();
        std::mem::swap(&mut active, &mut self.active);
        let ghost before = active@;
        active.push((String::from_str(thread_id), entry));
        proof {
            assert(active@.drop_last() =~= before);
            assert forall|i: int, j: int| 0 <= i < j < active@.len() implies active@[i].0@ != active@[j].0@ by {
                if j == active@.len() - 1 {
                    if active@[i].0@ == thread_id@ {
                        assert(before[i].0@ == thread_id@);
                    }
                }
            }
        }
        self.active = active;
    }

    /// Makes `channel` the owner of `thread_id`, running `turn_id`; an
    /// earlier entry of the thread is replaced.
    pub fn register(&mut self, thread_id: &str, channel: u64, turn_id: Option<String>)
        ensures
            final(self)@ == registered(old(self)@, thread_id@, channel, match turn_id {
                Some(t) => Some(t@),
                None => None,
            }),
    {
        if let Some(i) = self.position(thread_id) {
            self.take_at(i);
        }
        self.put(thread_id, Entry { turn_id, channel });
        assert(final(self)@ =~= old(self)@.insert(thread_id@, EntryView {
            turn_id: match turn_id {
                Some(t) => Some(t@),
                None => None,
            },
            channel,
        }));
    }

    /// Records that the entry of `thread_id` now runs `turn_id`, when that
    /// entry belongs to `channel`; otherwise nothing changes.
    pub fn set_turn(&mut self, thread_id: &str, channel: u64, turn_id: String)
        ensures
            final(self)@ == turn_set(old(self)@, thread_id@, channel, turn_id@),
    {
        proof {
            use_type_invariant(&*self);
            lemma_map_of(self.active@);
        }
        if let Some(i) = self.position(thread_id) {
            if self.active[i].1.channel == channel {
                self.take_at(i);
                self.put(thread_id, Entry { turn_id: Some(turn_id), channel });
                assert(final(self)@ =~= old(self)@.insert(thread_id@, EntryView { turn_id: Some(turn_id@), channel }));
            }
        }
    }

    /// Removes the entry of `thread_id` when it belongs to `channel`; an
    /// entry that a later task registered is kept.
    pub fn remove(&mut self, thread_id: &str, channel: u64)
        ensures
            final(self)@ == removed(old(self)@, thread_id@, channel),
    {
        proof {
            use_type_invariant(&*self);
            lemma_map_of(self.active@);
        }
        if let Some(i) = self.position(thread_id) {
            if self.active[i].1.channel == channel {
                self.take_at(i);
            }
        }
    }
}

} // verus!
