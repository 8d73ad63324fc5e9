use std::time::Duration;

use ami::commands::QueueCommand;
use ami::library::TrackId;
use ami::orchestrator::{Orchestrator, ToggleAction, TrackEndAction};
use ami::queue::LoopMode;
use ami::track::{Metadata, Properties, Track};

fn track(path: &str) -> Track {
    Track {
        pathbuf: path.to_string(),
        metadata: Metadata::default(),
        properties: Properties {
            bitrate: None,
            bit_depth: None,
            channels: None,
            sample_rate: None,
            duration: Duration::from_secs(1),
        },
    }
}

fn id(n: u64) -> TrackId {
    n.to_string().parse().unwrap()
}

fn loaded() -> Orchestrator {
    let mut o = Orchestrator::new();
    o.load_library(vec![track("a.flac"), track("b.flac"), track("c.flac")]);
    o
}

fn current(o: &Orchestrator) -> Option<String> {
    o.current_track().map(|t| t.pathbuf.clone())
}

#[test]
fn enqueue_on_idle_queue_starts_the_track() {
    let mut o = loaded();
    assert!(o.enqueue(id(2), true));
    assert_eq!(current(&o).as_deref(), Some("b.flac"));
    assert!(!o.can_go_next());
    assert!(!o.enqueue(id(3), false));
    assert!(o.can_go_next());
    assert_eq!(current(&o).as_deref(), Some("b.flac"));
}

#[test]
fn enqueue_when_player_ran_out_moves_on() {
    let mut o = loaded();
    o.enqueue(id(1), false);
    assert!(o.enqueue(id(2), true));
    assert_eq!(current(&o).as_deref(), Some("b.flac"));
    assert!(o.can_go_prev());
}

#[test]
fn unknown_ids_change_nothing() {
    let mut o = loaded();
    assert!(!o.enqueue(id(9), true));
    o.prepend(id(0));
    assert!(current(&o).is_none());
    assert!(!o.can_go_next());
    assert!(!o.play_now(id(4)));
}

#[test]
fn play_now_skips_to_the_track() {
    let mut o = loaded();
    o.enqueue(id(1), true);
    o.enqueue(id(2), false);
    assert!(o.play_now(id(3)));
    assert_eq!(current(&o).as_deref(), Some("c.flac"));
    assert!(o.next());
    assert_eq!(current(&o).as_deref(), Some("b.flac"));
    assert!(o.prev());
    assert_eq!(current(&o).as_deref(), Some("c.flac"));
}

#[test]
fn track_end_follows_the_loop_mode() {
    let mut o = loaded();
    o.enqueue(id(1), true);
    o.enqueue(id(2), false);
    assert_eq!(o.track_ended(), TrackEndAction::StartCurrent);
    assert_eq!(current(&o).as_deref(), Some("b.flac"));
    assert_eq!(o.track_ended(), TrackEndAction::Idle);
    o.set_loop_mode(LoopMode::Track);
    assert_eq!(o.loop_mode(), LoopMode::Track);
    assert_eq!(o.track_ended(), TrackEndAction::Rewind);
    assert_eq!(current(&o).as_deref(), Some("b.flac"));
    o.set_loop_mode(LoopMode::Queue);
    assert_eq!(o.track_ended(), TrackEndAction::StartCurrent);
    assert_eq!(current(&o).as_deref(), Some("a.flac"));
    assert!(o.can_go_next());
    assert!(!o.can_go_prev());
}

#[test]
fn queue_loop_without_current_track_is_idle() {
    let mut o = loaded();
    o.set_loop_mode(LoopMode::Queue);
    assert_eq!(o.track_ended(), TrackEndAction::Idle);
}

#[test]
fn toggle_and_rewind_decisions() {
    let mut o = loaded();
    assert!(!o.needs_rewind(true));
    assert_eq!(o.toggle_action(true, true), ToggleAction::Resume);
    o.enqueue(id(1), true);
    assert!(o.needs_rewind(true));
    assert!(!o.needs_rewind(false));
    assert_eq!(o.toggle_action(true, false), ToggleAction::RestartCurrent);
    assert_eq!(o.toggle_action(false, true), ToggleAction::Resume);
    assert_eq!(o.toggle_action(false, false), ToggleAction::Pause);
}

#[test]
fn queue_commands() {
    let mut o = loaded();
    assert!(o.handle_queue_command(QueueCommand::Enqueue { track_id: id(1) }, true));
    assert!(!o.handle_queue_command(QueueCommand::Enqueue { track_id: id(2) }, false));
    assert!(!o.handle_queue_command(QueueCommand::Prepend { track_id: id(3) }, false));
    assert!(o.handle_queue_command(QueueCommand::Next, false));
    assert_eq!(current(&o).as_deref(), Some("c.flac"));
    assert!(o.handle_queue_command(QueueCommand::Prev, false));
    assert_eq!(current(&o).as_deref(), Some("a.flac"));
    assert!(!o.handle_queue_command(QueueCommand::Dequeue { index: 0 }, false));
    assert!(!o.handle_queue_command(QueueCommand::Fetch, false));
    assert!(o.handle_queue_command(QueueCommand::Next, false));
    assert_eq!(current(&o).as_deref(), Some("b.flac"));
    assert!(!o.handle_queue_command(QueueCommand::Shuffle, false));
    assert!(!o.handle_queue_command(QueueCommand::Clear, false));
    assert!(!o.can_go_prev());
    assert!(!o.can_go_next());
    assert_eq!(current(&o).as_deref(), Some("b.flac"));
}

#[test]
fn restart_queue_puts_everything_back() {
    let mut o = loaded();
    o.enqueue(id(1), true);
    o.enqueue(id(2), false);
    o.next();
    o.restart_queue();
    assert!(current(&o).is_none());
    assert!(o.next());
    assert_eq!(current(&o).as_deref(), Some("a.flac"));
}

#[test]
fn play_now_and_loop_mode_requests() {
    let mut o = loaded();
    assert!(o.handle_queue_command(QueueCommand::Enqueue { track_id: id(1) }, true));
    assert!(!o.handle_queue_command(QueueCommand::Enqueue { track_id: id(2) }, false));
    assert!(o.handle_queue_command(QueueCommand::PlayNow { track_id: id(3) }, false));
    assert_eq!(current(&o).as_deref(), Some("c.flac"));
    assert!(o.can_go_prev());
    assert!(o.can_go_next());
    // An unknown id adds nothing, but the queue still skips ahead.
    assert!(o.handle_queue_command(QueueCommand::PlayNow { track_id: id(9) }, false));
    assert_eq!(current(&o).as_deref(), Some("b.flac"));
    assert!(!o.handle_queue_command(QueueCommand::PlayNow { track_id: id(9) }, false));
    assert_eq!(current(&o).as_deref(), Some("b.flac"));
    assert_eq!(o.loop_mode(), LoopMode::Off);
    assert!(!o.handle_queue_command(QueueCommand::SetLoopMode(LoopMode::Queue), false));
    assert_eq!(o.loop_mode(), LoopMode::Queue);
    assert!(!o.handle_queue_command(QueueCommand::SetLoopMode(LoopMode::Track), true));
    assert_eq!(o.loop_mode(), LoopMode::Track);
}
