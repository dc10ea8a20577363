//! Following one Desktop thread: the mirror of its state stream, kept
//! revision-contiguous, with a resync asked for at every gap.

use vstd::prelude::*;
use crate::mirror::{
    Mirror, MirrorError, MirrorUpdate, MirrorView, Settlement, mirror_step, settlement_of,
};
use crate::state::{StateChanged, StateError, broadcast_event};
use crate::transport::Message;

verus! {

/// The follower of one thread: its id and its state mirror.
pub struct Follower {
    thread_id: String,
    mirror: Mirror,
}

/// The content of a follower.
pub struct FollowerView {
    pub thread_id: Seq<char>,
    pub mirror: MirrorView,
}

impl View for Follower {
    type V = FollowerView;

    closed spec fn view(&self) -> FollowerView {
        FollowerView { thread_id: self.thread_id@, mirror: self.mirror@ }
    }
}

/// Why a broadcast could not be followed.
#[derive(Debug)]
pub enum FollowerError {
    State(StateError),
    Mirror(MirrorError),
}

/// The mirror that a broadcast received while (re)synchronising thread
/// `thread_id` provides: a snapshot of that thread gives one, any other
/// broadcast of it gives nothing, and a refused broadcast is an error.
pub fn snapshot_from(message: Message<Result<StateChanged, String>>, thread_id: &str) -> (r: Result<
    Option<Mirror>,
    StateError,
>)
    ensures
        match broadcast_event(message, thread_id@) {
            Err(e) => r == Err::<Option<Mirror>, StateError>(e),
            Ok(None) => r matches Ok(None),
            Ok(Some((source, change))) => match change {
                crate::mirror::StateChange::Snapshot { revision, conversation_state } => r matches Ok(Some(m))
                    && m@ == (MirrorView { state: conversation_state@, revision, owner: source@ }),
                crate::mirror::StateChange::Patches { .. } => r matches Ok(None),
            },
        },
{
    match StateChanged::from_broadcast(message, thread_id) {
        Err(e) => Err(e),
        Ok(None) => Ok(None),
        Ok(Some((source, change))) => Ok(Mirror::from_snapshot(source, change)),
    }
}

impl Follower {
    /// A follower of `thread_id` whose mirror is its first snapshot.
    pub fn start(thread_id: String, mirror: Mirror) -> (r: Self)
        ensures
            r@ == (FollowerView { thread_id: thread_id@, mirror: mirror@ }),
    {
        Follower { thread_id, mirror }
    }

    /// The followed thread.
    pub fn thread_id(&self) -> (r: &str)
        ensures
            r@ == self@.thread_id,
    {
        self.thread_id.as_str()
    }

    /// Takes a broadcast in. Broadcasts of other kinds or threads change
    /// nothing; a state change is applied to the mirror. The result tells
    /// whether the mirror needs a new snapshot.
    pub fn observe(&mut self, message: Message<Result<StateChanged, String>>) -> (r: Result<
        bool,
        FollowerError,
    >)
        ensures
            final(self)@.thread_id == old(self)@.thread_id,
            match broadcast_event(message, old(self)@.thread_id) {
                Err(e) => r matches Err(FollowerError::State(x)) && x == e && final(self)@ == old(
                    self,
                )@,
                Ok(None) => r == Ok::<bool, FollowerError>(false) && final(self)@ == old(self)@,
                Ok(Some((source, change))) => {
                    let (outcome, after) = mirror_step(old(self)@.mirror, source@, change);
                    &&& final(self)@.mirror == after
                    &&& match outcome {
                        Ok(u) => r == Ok::<bool, FollowerError>(u == MirrorUpdate::NeedsResync),
                        Err(f) => r matches Err(FollowerError::Mirror(e)) && e.failure() == f,
                    }
                },
            },
    {
        match StateChanged::from_broadcast(message, self.thread_id.as_str()) {
            Err(e) => Err(FollowerError::State(e)),
            Ok(None) => Ok(false),
            Ok(Some((source, change))) => {
                let r = self.mirror.apply(source, change);
                match r {
                    Ok(u) => Ok(u == MirrorUpdate::NeedsResync),
                    Err(e) => Err(FollowerError::Mirror(e)),
                }
            },
        }
    }

    /// Replaces the mirror by a fresh snapshot.
    pub fn resynced(&mut self, mirror: Mirror)
        ensures
            final(self)@ == (FollowerView { thread_id: old(self)@.thread_id, mirror: mirror@ }),
    {
        self.mirror = mirror;
    }

    /// The status and final message of turn `turn_id`, once it has settled.
    pub fn settlement(&self, turn_id: &str) -> (r: Option<Settlement>)
        ensures
            match (r, settlement_of(self@.mirror.state, turn_id@)) {
                (None, None) => true,
                (Some(s), Some((status, result))) => s.status@ == status && s.result@ == result,
                _ => false,
            },
    {
        self.mirror.settlement(turn_id)
    }
}

} // verus!
