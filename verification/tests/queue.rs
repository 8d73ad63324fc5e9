use std::sync::Arc;
use std::time::Duration;

use ami::queue::{LoopMode, Queue};
use ami::track::{Metadata, Properties, Track};

fn track(path: &str) -> Track {
    Track {
        pathbuf: path.to_string(),
        metadata: Metadata::default(),
        properties: Properties {
            bitrate: None,
            bit_depth: None,
            channels: None,
            sample_rate: None,
            duration: Duration::from_secs(0),
        },
    }
}

#[test]
fn next() {
    let mut queue = Queue::default();
    let pathbuf_1 = String::from("../test_assets/test.flac");
    let pathbuf_2 = String::from("../test_assets/test1.flac");

    queue.enqueue(Arc::new(track(&pathbuf_1)));
    queue.enqueue(Arc::new(track(&pathbuf_2)));

    assert!(queue.next());
    assert_eq!(queue.current().unwrap().pathbuf, pathbuf_1);

    assert!(queue.next());
    assert!(queue.current().is_some());
    assert_eq!(queue.current().unwrap().pathbuf, pathbuf_2);

    assert!(!queue.next());
    assert_eq!(queue.current().unwrap().pathbuf, pathbuf_2);
}

#[test]
fn prev() {
    let mut queue = Queue::default();
    let pathbuf_1 = String::from("../test_assets/test.flac");
    let pathbuf_2 = String::from("../test_assets/test1.flac");

    queue.enqueue(Arc::new(track(&pathbuf_1)));
    queue.enqueue(Arc::new(track(&pathbuf_2)));

    assert!(!queue.prev());
    assert!(queue.current().is_none());

    queue.next();
    queue.next();

    assert!(queue.prev());
    assert_eq!(queue.current().unwrap().pathbuf, pathbuf_1);
}

#[test]
fn prepend() {
    let mut queue = Queue::default();
    let pathbuf_1 = String::from("../test_assets/test.flac");
    let pathbuf_2 = String::from("../test_assets/test1.flac");

    queue.enqueue(Arc::new(track(&pathbuf_1)));
    queue.prepend_queue(Arc::new(track(&pathbuf_2)));
    queue.next();
    assert_eq!(queue.current().unwrap().pathbuf, pathbuf_2);
}

fn current_path(queue: &Queue) -> Option<String> {
    queue.current().map(|t| t.pathbuf.clone())
}

#[test]
fn prev_after_next_returns_to_same_track() {
    let mut queue = Queue::default();
    for p in ["a.flac", "b.flac", "c.flac"] {
        queue.enqueue(Arc::new(track(p)));
    }
    assert!(queue.next());
    assert!(queue.next());
    assert_eq!(current_path(&queue).as_deref(), Some("b.flac"));
    assert!(queue.next());
    assert!(queue.prev());
    assert_eq!(current_path(&queue).as_deref(), Some("b.flac"));
    assert_eq!(queue.previous_len(), 1);
    assert_eq!(queue.upcoming_len(), 1);
}

#[test]
fn dequeue_removes_by_index_and_rejects_out_of_range() {
    let mut queue = Queue::default();
    for p in ["a.flac", "b.flac", "c.flac"] {
        queue.enqueue(Arc::new(track(p)));
    }
    let removed = queue.dequeue(1).unwrap();
    assert_eq!(removed.pathbuf, "b.flac");
    assert_eq!(queue.upcoming_len(), 2);
    assert!(queue.dequeue(2).is_none());
    assert_eq!(queue.upcoming_len(), 2);
    assert!(queue.next());
    assert!(queue.next());
    assert_eq!(current_path(&queue).as_deref(), Some("c.flac"));
}

#[test]
fn dequeue_last_undoes_enqueue() {
    let mut queue = Queue::default();
    queue.enqueue(Arc::new(track("a.flac")));
    queue.enqueue(Arc::new(track("b.flac")));
    let removed = queue.dequeue(1).unwrap();
    assert_eq!(removed.pathbuf, "b.flac");
    assert_eq!(queue.upcoming_len(), 1);
    queue.prepend_queue(Arc::new(track("z.flac")));
    assert_eq!(queue.dequeue(0).unwrap().pathbuf, "z.flac");
    assert!(queue.next());
    assert_eq!(current_path(&queue).as_deref(), Some("a.flac"));
}

#[test]
fn clear_keeps_current_track() {
    let mut queue = Queue::default();
    for p in ["a.flac", "b.flac", "c.flac"] {
        queue.enqueue(Arc::new(track(p)));
    }
    queue.next();
    queue.next();
    queue.clear();
    assert_eq!(current_path(&queue).as_deref(), Some("b.flac"));
    assert_eq!(queue.previous_len(), 0);
    assert_eq!(queue.upcoming_len(), 0);
    assert!(!queue.next());
    assert!(!queue.prev());
}

#[test]
fn shuffle_keeps_the_tracks_to_come() {
    let mut queue = Queue::default();
    let names = ["a.flac", "b.flac", "c.flac", "d.flac", "e.flac"];
    for p in names {
        queue.enqueue(Arc::new(track(p)));
    }
    queue.next();
    queue.shuffle();
    assert_eq!(current_path(&queue).as_deref(), Some("a.flac"));
    let mut seen = Vec::new();
    while queue.next() {
        seen.push(current_path(&queue).unwrap());
    }
    seen.sort();
    assert_eq!(seen, vec!["b.flac", "c.flac", "d.flac", "e.flac"]);
}

#[test]
fn restart_plays_from_the_first_track() {
    let mut queue = Queue::default();
    for p in ["a.flac", "b.flac", "c.flac"] {
        queue.enqueue(Arc::new(track(p)));
    }
    queue.next();
    queue.next();
    queue.restart();
    assert!(queue.current().is_none());
    assert_eq!(queue.previous_len(), 0);
    assert_eq!(queue.upcoming_len(), 3);
    assert!(queue.next());
    assert_eq!(current_path(&queue).as_deref(), Some("a.flac"));
}

#[test]
fn loop_mode_defaults_to_off() {
    assert_eq!(LoopMode::default(), LoopMode::Off);
}

#[test]
fn nothing_played_while_nothing_plays() {
    let mut queue = Queue::default();
    for p in ["a.flac", "b.flac"] {
        queue.enqueue(Arc::new(track(p)));
    }
    assert!(queue.current().is_none());
    assert_eq!(queue.previous_len(), 0);
    assert!(!queue.prev());
    queue.next();
    queue.next();
    assert_eq!(queue.previous_len(), 1);
    assert!(queue.current().is_some());
    queue.restart();
    assert!(queue.current().is_none());
    assert_eq!(queue.previous_len(), 0);
}
