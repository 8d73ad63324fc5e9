use vstd::prelude::*;

use std::collections::VecDeque;
use std::sync::Arc;

use rand::rngs::ThreadRng;
use rand::seq::SliceRandom;

use crate::track::{share_track, Track};

verus! {

/// What happens when the current track ends.
#[derive(Debug, Clone, Copy, PartialEq, Eq, Structural)]
pub enum LoopMode {
    /// Go on to the next track, and stop after the last.
    Off,
    /// Play the same track again.
    Track,
    /// Go on to the next track, and start over after the last.
    Queue,
}

impl Default for LoopMode {
    fn default() -> (m: LoopMode)
        ensures
            m == LoopMode::Off,
    {
        LoopMode::Off
    }
}

/// The abstract state of a play queue: the tracks already played (oldest
/// first), the track under the play head, and the tracks still to come
/// (next first).
#[verifier::ext_equal]
pub ghost struct QueueView {
    pub previous: Seq<Arc<Track>>,
    pub current: Option<Arc<Track>>,
    pub upcoming: Seq<Arc<Track>>,
}

/// The track under the play head, as a sequence of zero or one element.
pub open spec fn option_seq<T>(o: Option<T>) -> Seq<T> {
    match o {
        Some(t) => seq![t],
        None => Seq::empty(),
    }
}

impl QueueView {
    /// The whole play list in play order: what was played, what plays, what comes.
    pub open spec fn tracks(self) -> Seq<Arc<Track>> {
        self.previous + option_seq(self.current) + self.upcoming
    }

    /// The state after moving the play head one track forward
    /// (meaningful when `upcoming` is not empty).
    pub open spec fn advanced(self) -> QueueView {
        QueueView {
            previous: self.previous + option_seq(self.current),
            current: Some(self.upcoming[0]),
            upcoming: self.upcoming.drop_first(),
        }
    }

    /// The state after moving the play head one track back
    /// (meaningful when `previous` is not empty).
    pub open spec fn retreated(self) -> QueueView {
        QueueView {
            previous: self.previous.drop_last(),
            current: Some(self.previous.last()),
            upcoming: option_seq(self.current) + self.upcoming,
        }
    }

    /// The state after the whole play list is put back before the play head:
    /// nothing played and nothing playing.
    pub open spec fn restarted(self) -> QueueView {
        QueueView { previous: Seq::empty(), current: None, upcoming: self.tracks() }
    }
}

#[verifier::external_type_specification]
#[verifier::external_body]
pub struct ExThreadRng(ThreadRng);

/// Calls `rand::rng`: a handle to the generator of the current thread.
/// Nothing is claimed of it.
#[verifier::external_body]
fn thread_rng() -> ThreadRng {
    rand::rng()
}

/// Calls `SliceRandom::shuffle` on the elements of `v`. The contract claims
/// only that the result is a rearrangement of the same elements (the crate
/// swaps elements in place); which order comes out rests on chance.
#[verifier::external_body]
fn shuffle_in_place<T>(v: &mut Vec<T>, rng: &mut ThreadRng)
    ensures
        final(v)@.len() == old(v)@.len(),
        final(v)@.to_multiset() == old(v)@.to_multiset(),
{
    v.as_mut_slice().shuffle(rng);
}

/// Moving the play head forward keeps the play list: the same tracks in
/// the same order.
pub proof fn lemma_advance_keeps_play_list(q: QueueView)
    requires
        q.upcoming.len() > 0,
    ensures
        q.advanced().tracks() == q.tracks(),
{
    let a = q.advanced();
    assert(q.upcoming =~= seq![q.upcoming[0]] + q.upcoming.drop_first());
    assert(a.tracks() =~= q.tracks());
}

/// Moving the play head back keeps the play list: the same tracks in the
/// same order.
pub proof fn lemma_retreat_keeps_play_list(q: QueueView)
    requires
        q.previous.len() > 0,
    ensures
        q.retreated().tracks() == q.tracks(),
{
    let r = q.retreated();
    assert(q.previous =~= q.previous.drop_last().push(q.previous.last()));
    assert(r.tracks() =~= q.tracks());
}

/// Going back right after skipping forward, from a track that was
/// playing, returns to the state before the skip.
pub proof fn lemma_prev_undoes_next(q: QueueView)
    requires
        q.current is Some,
        q.upcoming.len() > 0,
    ensures
        q.advanced().previous.len() > 0,
        q.advanced().retreated() == q,
{
    let r = q.advanced().retreated();
    assert(q.upcoming =~= seq![q.upcoming[0]] + q.upcoming.drop_first());
    assert(r.previous =~= q.previous);
    assert(r.upcoming =~= q.upcoming);
    assert(r =~= q);
}

/// Skipping forward right after going back, from a track that was playing,
/// returns to the state before going back.
pub proof fn lemma_next_undoes_prev(q: QueueView)
    requires
        q.current is Some,
        q.previous.len() > 0,
    ensures
        q.retreated().upcoming.len() > 0,
        q.retreated().advanced() == q,
{
    let a = q.retreated().advanced();
    assert(q.previous =~= q.previous.drop_last().push(q.previous.last()));
    assert(a.previous =~= q.previous);
    assert(a.upcoming =~= q.upcoming);
    assert(a =~= q);
}

/// Removing the last track to come right after enqueueing a track gives
/// that track back and leaves the tracks to come as they were; removing
/// the first one right after prepending does the same.
pub proof fn lemma_dequeue_undoes_enqueue(upcoming: Seq<Arc<Track>>, track: Arc<Track>)
    ensures
        upcoming.push(track)[upcoming.len() as int] == track,
        upcoming.push(track).remove(upcoming.len() as int) == upcoming,
        (seq![track] + upcoming)[0] == track,
        (seq![track] + upcoming).remove(0) == upcoming,
{
    assert(upcoming.push(track).remove(upcoming.len() as int) =~= upcoming);
    assert((seq![track] + upcoming).remove(0) =~= upcoming);
}

/// Restarting keeps the play list, and the next skip after a restart plays
/// the first track of the play list.
pub proof fn lemma_restart_plays_from_start(q: QueueView)
    ensures
        q.restarted().tracks() == q.tracks(),
        q.tracks().len() > 0 ==> q.restarted().upcoming.len() > 0
            && q.restarted().advanced().current == Some(q.tracks()[0])
            && q.restarted().advanced().previous.len() == 0,
{
    assert(q.restarted().tracks() =~= q.tracks());
}

/// Whether the queue has played tracks only while a track is under the
/// play head: with no current track, nothing has been played.
pub open spec fn played_only_while_playing(q: QueueView) -> bool {
    q.current is None ==> q.previous.len() == 0
}

/// Every operation on a queue keeps it true that nothing was played while
/// no track is current: skipping forward or back, restarting, clearing, and
/// adding or removing tracks to come.
pub proof fn lemma_operations_keep_played_only_while_playing(
    q: QueueView,
    track: Arc<Track>,
    index: int,
)
    requires
        played_only_while_playing(q),
    ensures
        q.upcoming.len() > 0 ==> played_only_while_playing(q.advanced()),
        q.previous.len() > 0 ==> played_only_while_playing(q.retreated()),
        played_only_while_playing(q.restarted()),
        played_only_while_playing(
            QueueView { previous: Seq::empty(), current: q.current, upcoming: Seq::empty() },
        ),
        played_only_while_playing(QueueView { upcoming: q.upcoming.push(track), ..q }),
        played_only_while_playing(QueueView { upcoming: seq![track] + q.upcoming, ..q }),
        0 <= index < q.upcoming.len() ==> played_only_while_playing(
            QueueView { upcoming: q.upcoming.remove(index), ..q },
        ),
{
}

/// A queue of tracks with a play head.
#[derive(Debug, Clone)]
pub struct Queue {
    current_track: Option<Arc<Track>>,
    previous_tracks: Vec<Arc<Track>>,
    next_tracks: VecDeque<Arc<Track>>,
}

impl View for Queue {
    type V = QueueView;

    closed spec fn view(&self) -> QueueView {
        QueueView {
            previous: self.previous_tracks@,
            current: self.current_track,
            upcoming: self.next_tracks@,
        }
    }
}

impl Default for Queue {
    fn default() -> (q: Queue)
        ensures
            q@ == (QueueView { previous: Seq::empty(), current: None, upcoming: Seq::empty() }),
    {
        Queue { current_track: None, previous_tracks: Vec::new(), next_tracks: VecDeque::new() }
    }
}

impl Queue {
    /// Skip to the next track and push the current track on the stack of
    /// played tracks. Returns whether the play head moved; it moves exactly
    /// when there is a track to come.
    pub fn next(&mut self) -> (changed: bool)
        ensures
            changed == (old(self)@.upcoming.len() > 0),
            changed ==> final(self)@ == old(self)@.advanced(),
            !changed ==> final(self)@ == old(self)@,
    {
        if self.next_tracks.len() > 0 {
            let next = self.next_tracks.pop_front();
            match next {
                Some(next) => {
                    let curr = self.current_track.take();
                    match curr {
                        Some(curr) => self.previous_tracks.push(curr),
                        None => {},
                    }
                    self.current_track = Some(next);
                    assert(self@ =~= old(self)@.advanced());
                    true
                },
                None => false,
            }
        } else {
            false
        }
    }

    /// Go back to the previous track and put the current track in front of
    /// the tracks to come. Returns whether the play head moved; it moves
    /// exactly when a track was played before.
    pub fn prev(&mut self) -> (changed: bool)
        ensures
            changed == (old(self)@.previous.len() > 0),
            changed ==> final(self)@ == old(self)@.retreated(),
            !changed ==> final(self)@ == old(self)@,
    {
        if self.previous_tracks.len() > 0 {
            let prev = self.previous_tracks.pop();
            match prev {
                Some(prev) => {
                    let curr = self.current_track.take();
                    match curr {
                        Some(curr) => self.next_tracks.push_front(curr),
                        None => {},
                    }
                    self.current_track = Some(prev);
                    assert(self@ =~= old(self)@.retreated());
                    true
                },
                None => false,
            }
        } else {
            false
        }
    }

    /// Whether a track is under the play head.
    pub fn has_current(&self) -> (r: bool)
        ensures
            r == (self@.current is Some),
    {
        self.current_track.is_some()
    }

    /// The track under the play head.
    pub fn current(&self) -> (t: Option<Arc<Track>>)
        ensures
            t == self@.current,
    {
        match &self.current_track {
            Some(t) => Some(share_track(t)),
            None => None,
        }
    }

    /// The tracks played before the current one, oldest first.
    pub fn previous(&self) -> (v: &Vec<Arc<Track>>)
        ensures
            v@ == self@.previous,
    {
        &self.previous_tracks
    }

    /// The tracks still to come, next first.
    pub fn upcoming(&self) -> (v: &VecDeque<Arc<Track>>)
        ensures
            v@ == self@.upcoming,
    {
        &self.next_tracks
    }

    /// How many tracks are still to come.
    pub fn upcoming_len(&self) -> (n: usize)
        ensures
            n == self@.upcoming.len(),
    {
        self.next_tracks.len()
    }

    /// How many tracks were played before the current one.
    pub fn previous_len(&self) -> (n: usize)
        ensures
            n == self@.previous.len(),
    {
        self.previous_tracks.len()
    }

    /// Add a track at the end of the tracks to come.
    pub fn enqueue(&mut self, track: Arc<Track>)
        ensures
            final(self)@ == (QueueView { upcoming: old(self)@.upcoming.push(track), ..old(self)@ }),
    {
        self.next_tracks.push_back(track);
    }

    /// Add a track in front of the tracks to come.
    pub fn prepend_queue(&mut self, track: Arc<Track>)
        ensures
            final(self)@ == (QueueView { upcoming: seq![track] + old(self)@.upcoming, ..old(self)@ }),
    {
        self.next_tracks.push_front(track);
    }

    /// Remove and return the track at `index` among the tracks to come;
    /// `None`, with nothing changed, when there is no such track.
    pub fn dequeue(&mut self, index: usize) -> (removed: Option<Arc<Track>>)
        ensures
            index < old(self)@.upcoming.len() ==> {
                &&& removed == Some(old(self)@.upcoming[index as int])
                &&& final(self)@ == (QueueView {
                    upcoming: old(self)@.upcoming.remove(index as int),
                    ..old(self)@
                })
            },
            index >= old(self)@.upcoming.len() ==> removed is None && final(self)@ == old(self)@,
    {
        let r = self.next_tracks.remove(index);
        proof {
            assert(self@ =~= (QueueView { upcoming: self@.upcoming, ..old(self)@ }));
        }
        r
    }

    /// Forget the played tracks and the tracks to come; the current track stays.
    pub fn clear(&mut self)
        ensures
            final(self)@ == (QueueView {
                previous: Seq::empty(),
                current: old(self)@.current,
                upcoming: Seq::empty(),
            }),
    {
        self.previous_tracks.clear();
        self.next_tracks.clear();
    }

    /// Put the tracks to come in a random order; what was played and what
    /// plays stay as they are.
    pub fn shuffle(&mut self)
        ensures
            final(self)@.previous == old(self)@.previous,
            final(self)@.current == old(self)@.current,
            final(self)@.upcoming.len() == old(self)@.upcoming.len(),
            final(self)@.upcoming.to_multiset() == old(self)@.upcoming.to_multiset(),
    {
        let ghost upcoming = self.next_tracks@;
        let mut vec: Vec<Arc<Track>> = Vec::new();
        while self.next_tracks.len() > 0
            invariant
                vec@ + self.next_tracks@ == upcoming,
                self.previous_tracks@ == old(self).previous_tracks@,
                self.current_track == old(self).current_track,
            decreases self.next_tracks@.len(),
        {
            let t = self.next_tracks.pop_front();
            match t {
                Some(t) => {
                    vec.push(t);
                },
                None => {},
            }
            assert(vec@ + self.next_tracks@ =~= upcoming);
        }
        assert(vec@ =~= upcoming);
        let mut rng = thread_rng();
        shuffle_in_place(&mut vec, &mut rng);
        let ghost shuffled = vec@;
        while vec.len() > 0
            invariant
                vec@ + self.next_tracks@ == shuffled,
                self.previous_tracks@ == old(self).previous_tracks@,
                self.current_track == old(self).current_track,
            decreases vec@.len(),
        {
            let t = vec.pop();
            match t {
                Some(t) => {
                    self.next_tracks.push_front(t);
                },
                None => {},
            }
            assert(vec@ + self.next_tracks@ =~= shuffled);
        }
        assert(self.next_tracks@ =~= shuffled);
    }

    /// Put every track back before the play head, in play order, so that
    /// the next skip starts the play list from its first track.
    pub fn restart(&mut self)
        ensures
            final(self)@ == old(self)@.restarted(),
    {
        let curr = self.current_track.take();
        match curr {
            Some(curr) => self.next_tracks.push_front(curr),
            None => {},
        }
        while self.previous_tracks.len() > 0
            invariant
                self.previous_tracks@ + self.next_tracks@ == old(self)@.tracks(),
                self.current_track is None,
            decreases self.previous_tracks@.len(),
        {
            let t = self.previous_tracks.pop();
            match t {
                Some(t) => {
                    self.next_tracks.push_front(t);
                },
                None => {},
            }
            assert(self.previous_tracks@ + self.next_tracks@ =~= old(self)@.tracks());
        }
        assert(self.next_tracks@ =~= old(self)@.tracks());
        assert(self@ =~= old(self)@.restarted());
    }
}

} // verus!
