use vstd::prelude::*;

use std::sync::Arc;

use crate::commands::QueueCommand;
use crate::library::{track_with_id, Library, TrackId};
use crate::queue::{
    lemma_advance_keeps_play_list, lemma_restart_plays_from_start, option_seq, LoopMode, Queue,
    QueueView,
};
use crate::track::Track;

verus! {

/// The abstract state of the daemon's queue logic.
#[verifier::ext_equal]
pub ghost struct OrchestratorView {
    pub queue: QueueView,
    pub library: Seq<Arc<Track>>,
    pub loop_mode: LoopMode,
}

/// What the player must do after the current track has ended.
#[derive(Debug, Clone, Copy, PartialEq, Eq, Structural)]
pub enum TrackEndAction {
    /// The queue moved to another track: load the new current track and play it.
    StartCurrent,
    /// Play the current track again from its start.
    Rewind,
    /// Nothing more to play.
    Idle,
}

/// What a play/pause toggle must do to the player.
#[derive(Debug, Clone, Copy, PartialEq, Eq, Structural)]
pub enum ToggleAction {
    /// The current track has been played out: load it again and play it.
    RestartCurrent,
    /// Resume the held player.
    Resume,
    /// Hold the playing player.
    Pause,
}

/// The queue after `track` is enqueued, and after the queue then skips
/// ahead when `start` holds.
pub open spec fn after_enqueue(q: QueueView, track: Arc<Track>, start: bool) -> QueueView {
    let q1 = QueueView { upcoming: q.upcoming.push(track), ..q };
    if start {
        q1.advanced()
    } else {
        q1
    }
}

/// The queue after the track listed under `id`, if any, is put in front of
/// the tracks to come.
pub open spec fn after_prepend(q: QueueView, library: Seq<Arc<Track>>, id: u64) -> QueueView {
    match track_with_id(library, id) {
        Some(t) => QueueView { upcoming: seq![t] + q.upcoming, ..q },
        None => q,
    }
}

/// The queue after a skip forward: it moves when there is a track to come.
pub open spec fn after_next(q: QueueView) -> QueueView {
    if q.upcoming.len() > 0 {
        q.advanced()
    } else {
        q
    }
}

/// Enqueueing appends: the play list gains the track at its end. When the
/// queue does not start, the played tracks and the current track stay and
/// the track comes last among the tracks to come; when it starts, the old
/// current track joins the played tracks.
pub proof fn lemma_enqueue_appends(q: QueueView, t: Arc<Track>, start: bool)
    ensures
        after_enqueue(q, t, start).tracks() == q.tracks().push(t),
        !start ==> after_enqueue(q, t, start).upcoming == q.upcoming.push(t),
        !start ==> after_enqueue(q, t, start).previous == q.previous,
        !start ==> after_enqueue(q, t, start).current == q.current,
        start ==> after_enqueue(q, t, start).previous == q.previous + option_seq(q.current),
{
    let q1 = QueueView { upcoming: q.upcoming.push(t), ..q };
    assert(q1.tracks() =~= q.tracks().push(t));
    if start {
        lemma_advance_keeps_play_list(q1);
    }
}

/// Prepending changes only the tracks to come: the played tracks and the
/// current track stay, and a listed track comes first among the tracks to
/// come. Playing a track now then keeps the played tracks, adding only the
/// old current track, and leaves the tracks that were to come after it.
pub proof fn lemma_prepend_keeps_history(q: QueueView, library: Seq<Arc<Track>>, id: u64)
    ensures
        after_prepend(q, library, id).previous == q.previous,
        after_prepend(q, library, id).current == q.current,
        track_with_id(library, id) matches Some(t) ==> after_prepend(q, library, id).upcoming == seq![t]
            + q.upcoming,
        track_with_id(library, id) is None ==> after_prepend(q, library, id).upcoming == q.upcoming,
        after_prepend(q, library, id).upcoming.len() > 0 ==> after_next(after_prepend(q, library, id)).previous
            == q.previous + option_seq(q.current),
        track_with_id(library, id) is Some ==> after_next(after_prepend(q, library, id)).upcoming == q.upcoming,
{
    if track_with_id(library, id) is Some {
        let p = after_prepend(q, library, id);
        assert(p.upcoming.drop_first() =~= q.upcoming);
    }
}

/// Enqueueing a listed track while no track is current and none is to come
/// makes it the current track, with nothing left to come and the played
/// tracks kept.
pub proof fn lemma_enqueue_on_idle_queue_plays_track(q: QueueView, t: Arc<Track>)
    requires
        q.current is None,
        q.upcoming.len() == 0,
    ensures
        after_enqueue(q, t, true).current == Some(t),
        after_enqueue(q, t, true).upcoming.len() == 0,
        after_enqueue(q, t, true).previous == q.previous,
{
    assert(q.previous + option_seq(q.current) =~= q.previous);
}

/// Playing a listed track now makes it the current track and keeps the
/// tracks that were to come after it.
pub proof fn lemma_play_now_plays_track(q: QueueView, library: Seq<Arc<Track>>, id: u64)
    requires
        track_with_id(library, id) is Some,
    ensures
        after_next(after_prepend(q, library, id)).current == track_with_id(library, id),
        after_next(after_prepend(q, library, id)).upcoming == q.upcoming,
{
    let p = after_prepend(q, library, id);
    assert(p.upcoming.drop_first() =~= q.upcoming);
}

/// When the current track ends while the whole queue loops, the play list
/// is kept and starts over from its first track.
pub proof fn lemma_queue_loop_starts_over(q: QueueView)
    requires
        q.current is Some,
    ensures
        q.restarted().advanced().tracks() == q.tracks(),
        q.restarted().advanced().current == Some(q.tracks()[0]),
{
    assert(q.tracks().len() > 0) by {
        assert(q.tracks()[q.previous.len() as int] == q.current->Some_0);
    }
    lemma_restart_plays_from_start(q);
    lemma_advance_keeps_play_list(q.restarted());
}

/// The queue logic of the daemon: the play queue, the library it draws
/// tracks from, and the loop mode. The audio player itself stays outside;
/// the methods that move the play head tell the caller what the player
/// must do.
#[derive(Debug)]
pub struct Orchestrator {
    queue: Queue,
    library: Library,
    loop_mode: LoopMode,
}

impl View for Orchestrator {
    type V = OrchestratorView;

    closed spec fn view(&self) -> OrchestratorView {
        OrchestratorView { queue: self.queue@, library: self.library@, loop_mode: self.loop_mode }
    }
}

impl Orchestrator {
    /// An empty queue over an empty library, with looping off.
    pub fn new() -> (o: Orchestrator)
        ensures
            o@.queue == (QueueView { previous: Seq::empty(), current: None, upcoming: Seq::empty() }),
            o@.library == Seq::<Arc<Track>>::empty(),
            o@.loop_mode == LoopMode::Off,
    {
        Orchestrator { queue: Queue::default(), library: Library::default(), loop_mode: LoopMode::Off }
    }

    /// The play queue.
    pub fn queue(&self) -> (q: &Queue)
        ensures
            q@ == self@.queue,
    {
        &self.queue
    }

    /// The library.
    pub fn library(&self) -> (l: &Library)
        ensures
            l@ == self@.library,
    {
        &self.library
    }

    /// Replace the library's tracks by `tracks`, with ids 1, 2, ... in order.
    pub fn load_library(&mut self, tracks: Vec<Track>)
        ensures
            final(self)@.queue == old(self)@.queue,
            final(self)@.loop_mode == old(self)@.loop_mode,
            final(self)@.library.len() == tracks@.len(),
            forall|i: int| 0 <= i < tracks@.len() ==> *(#[trigger] final(self)@.library[i]) == tracks@[i],
    {
        self.library.load(tracks);
    }

    /// Whether starting playback must first load the current track again:
    /// there is a current track and the player has played everything out.
    pub fn needs_rewind(&self, player_empty: bool) -> (r: bool)
        ensures
            r == (self@.queue.current is Some && player_empty),
    {
        self.queue.has_current() && player_empty
    }

    /// What a play/pause toggle does, given whether the player has played
    /// everything out and whether it is held.
    pub fn toggle_action(&self, player_empty: bool, player_paused: bool) -> (a: ToggleAction)
        ensures
            a == (if self@.queue.current is Some && player_empty {
                ToggleAction::RestartCurrent
            } else if player_paused {
                ToggleAction::Resume
            } else {
                ToggleAction::Pause
            }),
    {
        if self.needs_rewind(player_empty) {
            ToggleAction::RestartCurrent
        } else if player_paused {
            ToggleAction::Resume
        } else {
            ToggleAction::Pause
        }
    }

    /// Enqueue the track listed under `id`; an unknown id changes nothing.
    /// When nothing is current or the player has played everything out, the
    /// queue then skips ahead. Returns whether it did: the caller must then
    /// load the new current track and play it.
    pub fn enqueue(&mut self, id: TrackId, player_empty: bool) -> (started: bool)
        ensures
            final(self)@.library == old(self)@.library,
            final(self)@.loop_mode == old(self)@.loop_mode,
            match track_with_id(old(self)@.library, id@) {
                None => !started && final(self)@.queue == old(self)@.queue,
                Some(t) => {
                    &&& started == (old(self)@.queue.current is None || player_empty)
                    &&& final(self)@.queue == after_enqueue(old(self)@.queue, t, started)
                },
            },
    {
        match self.library.get(id) {
            Some(track) => {
                self.queue.enqueue(track);
                if !self.queue.has_current() || player_empty {
                    self.queue.next()
                } else {
                    false
                }
            },
            None => false,
        }
    }

    /// Put the track listed under `id` in front of the tracks to come; an
    /// unknown id changes nothing.
    pub fn prepend(&mut self, id: TrackId)
        ensures
            final(self)@ == (OrchestratorView {
                queue: after_prepend(old(self)@.queue, old(self)@.library, id@),
                ..old(self)@
            }),
    {
        match self.library.get(id) {
            Some(track) => self.queue.prepend_queue(track),
            None => {},
        }
    }

    /// Drop the track at `index` among the tracks to come, if there is one.
    pub fn dequeue(&mut self, index: usize)
        ensures
            final(self)@.library == old(self)@.library,
            final(self)@.loop_mode == old(self)@.loop_mode,
            final(self)@.queue == (if index < old(self)@.queue.upcoming.len() {
                QueueView { upcoming: old(self)@.queue.upcoming.remove(index as int), ..old(self)@.queue }
            } else {
                old(self)@.queue
            }),
    {
        let _ = self.queue.dequeue(index);
    }

    /// Play the track listed under `id` now: put it in front of the tracks
    /// to come and skip to it. Returns whether the queue moved.
    pub fn play_now(&mut self, id: TrackId) -> (started: bool)
        ensures
            final(self)@.library == old(self)@.library,
            final(self)@.loop_mode == old(self)@.loop_mode,
            started == (after_prepend(old(self)@.queue, old(self)@.library, id@).upcoming.len() > 0),
            final(self)@.queue == after_next(after_prepend(old(self)@.queue, old(self)@.library, id@)),
    {
        self.prepend(id);
        self.queue.next()
    }

    /// Whether a skip forward would move.
    pub fn can_go_next(&self) -> (r: bool)
        ensures
            r == (self@.queue.upcoming.len() > 0),
    {
        self.queue.upcoming_len() > 0
    }

    /// Whether a skip back would move.
    pub fn can_go_prev(&self) -> (r: bool)
        ensures
            r == (self@.queue.previous.len() > 0),
    {
        self.queue.previous_len() > 0
    }

    /// Skip to the next track. Returns whether the queue moved.
    pub fn next(&mut self) -> (started: bool)
        ensures
            final(self)@.library == old(self)@.library,
            final(self)@.loop_mode == old(self)@.loop_mode,
            started == (old(self)@.queue.upcoming.len() > 0),
            final(self)@.queue == after_next(old(self)@.queue),
    {
        self.queue.next()
    }

    /// Go back to the previous track. Returns whether the queue moved.
    pub fn prev(&mut self) -> (started: bool)
        ensures
            final(self)@.library == old(self)@.library,
            final(self)@.loop_mode == old(self)@.loop_mode,
            started == (old(self)@.queue.previous.len() > 0),
            started ==> final(self)@.queue == old(self)@.queue.retreated(),
            !started ==> final(self)@.queue == old(self)@.queue,
    {
        self.queue.prev()
    }

    /// Put the tracks to come in a random order.
    pub fn shuffle(&mut self)
        ensures
            final(self)@.library == old(self)@.library,
            final(self)@.loop_mode == old(self)@.loop_mode,
            final(self)@.queue.previous == old(self)@.queue.previous,
            final(self)@.queue.current == old(self)@.queue.current,
            final(self)@.queue.upcoming.to_multiset() == old(self)@.queue.upcoming.to_multiset(),
    {
        self.queue.shuffle();
    }

    /// Forget the played tracks and the tracks to come.
    pub fn clear(&mut self)
        ensures
            final(self)@ == (OrchestratorView {
                queue: QueueView { previous: Seq::empty(), current: old(self)@.queue.current, upcoming: Seq::empty() },
                ..old(self)@
            }),
    {
        self.queue.clear();
    }

    /// Set what happens when a track ends.
    pub fn set_loop_mode(&mut self, loop_mode: LoopMode)
        ensures
            final(self)@ == (OrchestratorView { loop_mode, ..old(self)@ }),
    {
        self.loop_mode = loop_mode;
    }

    /// What happens when a track ends.
    pub fn loop_mode(&self) -> (m: LoopMode)
        ensures
            m == self@.loop_mode,
    {
        self.loop_mode
    }

    /// The track under the play head.
    pub fn current_track(&self) -> (t: Option<Arc<Track>>)
        ensures
            t == self@.queue.current,
    {
        self.queue.current()
    }

    /// Put every track back before the play head.
    pub fn restart_queue(&mut self)
        ensures
            final(self)@ == (OrchestratorView { queue: old(self)@.queue.restarted(), ..old(self)@ }),
    {
        self.queue.restart();
    }

    /// Carry out a client's queue request; a fetch changes nothing, and
    /// setting the loop mode changes only the loop mode. Returns whether the
    /// queue moved to another current track, which the caller must then
    /// load and play. Each request does what the method of the same name
    /// does.
    pub fn handle_queue_command(&mut self, command: QueueCommand, player_empty: bool) -> (started: bool)
        ensures
            final(self)@.library == old(self)@.library,
            final(self)@.loop_mode == (match command {
                QueueCommand::SetLoopMode(m) => m,
                _ => old(self)@.loop_mode,
            }),
            match command {
                QueueCommand::Enqueue { track_id } => match track_with_id(old(self)@.library, track_id@) {
                    None => !started && final(self)@.queue == old(self)@.queue,
                    Some(t) => {
                        &&& started == (old(self)@.queue.current is None || player_empty)
                        &&& final(self)@.queue == after_enqueue(old(self)@.queue, t, started)
                    },
                },
                QueueCommand::Prepend { track_id } => !started
                    && final(self)@.queue == after_prepend(old(self)@.queue, old(self)@.library, track_id@),
                QueueCommand::Dequeue { index } => !started && final(self)@.queue == (
                    if index < old(self)@.queue.upcoming.len() {
                        QueueView { upcoming: old(self)@.queue.upcoming.remove(index as int), ..old(self)@.queue }
                    } else {
                        old(self)@.queue
                    }),
                QueueCommand::PlayNow { track_id } => {
                    &&& started == (after_prepend(old(self)@.queue, old(self)@.library, track_id@).upcoming.len() > 0)
                    &&& final(self)@.queue == after_next(after_prepend(old(self)@.queue, old(self)@.library, track_id@))
                },
                QueueCommand::Next => started == (old(self)@.queue.upcoming.len() > 0)
                    && final(self)@.queue == after_next(old(self)@.queue),
                QueueCommand::Prev => started == (old(self)@.queue.previous.len() > 0)
                    && final(self)@.queue == (if started { old(self)@.queue.retreated() } else { old(self)@.queue }),
                QueueCommand::Shuffle => {
                    &&& !started
                    &&& final(self)@.queue.previous == old(self)@.queue.previous
                    &&& final(self)@.queue.current == old(self)@.queue.current
                    &&& final(self)@.queue.upcoming.to_multiset() == old(self)@.queue.upcoming.to_multiset()
                },
                QueueCommand::Clear => !started && final(self)@.queue == (QueueView {
                    previous: Seq::empty(),
                    current: old(self)@.queue.current,
                    upcoming: Seq::empty(),
                }),
                QueueCommand::SetLoopMode(_) => !started && final(self)@.queue == old(self)@.queue,
                QueueCommand::Fetch => !started && final(self)@.queue == old(self)@.queue,
            },
    {
        match command {
            QueueCommand::Enqueue { track_id } => self.enqueue(track_id, player_empty),
            QueueCommand::Prepend { track_id } => {
                self.prepend(track_id);
                false
            },
            QueueCommand::Dequeue { index } => {
                self.dequeue(index);
                false
            },
            QueueCommand::PlayNow { track_id } => self.play_now(track_id),
            QueueCommand::Next => self.next(),
            QueueCommand::Prev => self.prev(),
            QueueCommand::Shuffle => {
                self.shuffle();
                false
            },
            QueueCommand::Clear => {
                self.clear();
                false
            },
            QueueCommand::SetLoopMode(m) => {
                self.set_loop_mode(m);
                false
            },
            QueueCommand::Fetch => false,
        }
    }

    /// Move the queue on when the current track has ended, as the loop mode
    /// says, and tell what the player must do: with looping off, skip
    /// ahead if there is a track to come; looping the track, play it again;
    /// looping the queue, start the play list over from its first track if
    /// a track was playing.
    pub fn track_ended(&mut self) -> (a: TrackEndAction)
        ensures
            final(self)@.library == old(self)@.library,
            final(self)@.loop_mode == old(self)@.loop_mode,
            match old(self)@.loop_mode {
                LoopMode::Off => if old(self)@.queue.upcoming.len() > 0 {
                    a == TrackEndAction::StartCurrent && final(self)@.queue == old(self)@.queue.advanced()
                } else {
                    a == TrackEndAction::Idle && final(self)@.queue == old(self)@.queue
                },
                LoopMode::Track => a == TrackEndAction::Rewind && final(self)@.queue == old(self)@.queue,
                LoopMode::Queue => if old(self)@.queue.current is Some {
                    a == TrackEndAction::StartCurrent
                        && final(self)@.queue == old(self)@.queue.restarted().advanced()
                } else {
                    a == TrackEndAction::Idle && final(self)@.queue == old(self)@.queue
                },
            },
    {
        match self.loop_mode {
            LoopMode::Off => {
                if self.queue.next() {
                    TrackEndAction::StartCurrent
                } else {
                    TrackEndAction::Idle
                }
            },
            LoopMode::Track => TrackEndAction::Rewind,
            LoopMode::Queue => {
                if self.queue.has_current() {
                    proof {
                        lemma_restart_plays_from_start(self.queue@);
                        assert(self.queue@.tracks().len() > 0);
                    }
                    self.queue.restart();
                    if self.queue.next() {
                        TrackEndAction::StartCurrent
                    } else {
                        TrackEndAction::Idle
                    }
                } else {
                    TrackEndAction::Idle
                }
            },
        }
    }
}

} // verus!
