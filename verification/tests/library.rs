use std::time::Duration;

use ami::library::{
    is_rodio_supported, is_supported_extension, parse_decimal_u64, same_text, Library,
    ParseTrackIdError, SupportError, TrackId,
};
use ami::track::{Metadata, Properties, Track};

fn track(path: &str, title: &str) -> Track {
    Track {
        pathbuf: path.to_string(),
        metadata: Metadata { title: title.to_string(), ..Metadata::default() },
        properties: Properties {
            bitrate: Some(320),
            bit_depth: None,
            channels: Some(2),
            sample_rate: Some(44100),
            duration: Duration::from_secs(180),
        },
    }
}

fn id(n: u64) -> TrackId {
    n.to_string().parse().unwrap()
}

#[test]
fn track_id_parses_decimal_text() {
    assert_eq!("42".parse::<TrackId>(), Ok(id(42)));
    assert_eq!("+7".parse::<TrackId>(), Ok(id(7)));
    assert_eq!("18446744073709551615".parse::<TrackId>(), Ok(id(u64::MAX)));
    assert_eq!("18446744073709551616".parse::<TrackId>(), Err(ParseTrackIdError));
    assert_eq!("".parse::<TrackId>(), Err(ParseTrackIdError));
    assert_eq!("+".parse::<TrackId>(), Err(ParseTrackIdError));
    assert_eq!("-1".parse::<TrackId>(), Err(ParseTrackIdError));
    assert_eq!("12a".parse::<TrackId>(), Err(ParseTrackIdError));
    assert_eq!(" 1".parse::<TrackId>(), Err(ParseTrackIdError));
}

#[test]
fn decimal_parser_agrees_with_std() {
    for s in ["0", "007", "+0", "99999999999999999999", "1_000", "٣", "+-1", "184467440737095516150"] {
        assert_eq!(parse_decimal_u64(s), s.parse::<u64>().ok(), "{s}");
    }
}

#[test]
fn increment_then_decrement_restores_id() {
    let mut t = TrackId::default();
    t.increment();
    t.increment();
    assert_eq!(t, id(2));
    t.decrement();
    assert_eq!(t, id(1));
}

#[test]
fn supported_extensions() {
    for ext in ["flac", "mp3", "ogg", "wav", "opus", "m4a"] {
        assert!(is_supported_extension(ext));
    }
    assert!(!is_supported_extension("FLAC"));
    assert!(!is_supported_extension("txt"));
    assert!(!is_supported_extension(""));
    assert!(same_text("abc", "abc"));
    assert!(!same_text("abc", "abd"));
    assert!(!same_text("abc", "ab"));
}

#[test]
fn rodio_support_of_paths() {
    assert_eq!(is_rodio_supported("/music/song.flac", true), Ok(true));
    assert_eq!(is_rodio_supported("/music/a.b/song.ogg", true), Ok(true));
    assert_eq!(is_rodio_supported("/music/notes.txt", true), Ok(false));
    assert_eq!(is_rodio_supported("/music/song", true), Err(SupportError::NoExtension));
    assert_eq!(is_rodio_supported("/music/.flac", true), Err(SupportError::NoExtension));
    assert_eq!(is_rodio_supported("/music/song.flac", false), Err(SupportError::NotAFile));
}

#[test]
fn library_lists_tracks_under_ids_from_one() {
    let mut lib = Library::default();
    assert_eq!(lib.len(), 0);
    assert!(lib.get(id(1)).is_none());
    lib.load(vec![track("a.flac", "A"), track("b.flac", "B"), track("c.flac", "C")]);
    assert_eq!(lib.len(), 3);
    assert_eq!(lib.get(id(1)).unwrap().metadata.title, "A");
    assert_eq!(lib.get(id(3)).unwrap().pathbuf, "c.flac");
    assert!(lib.get(id(0)).is_none());
    assert!(lib.get(id(4)).is_none());
    lib.load(vec![track("z.flac", "Z")]);
    assert_eq!(lib.len(), 1);
    assert_eq!(lib.get(id(1)).unwrap().metadata.title, "Z");
    assert!(lib.get(id(2)).is_none());
}

#[test]
fn ids_are_found_by_path() {
    let mut lib = Library::default();
    assert_eq!(lib.id_of_path("a.flac"), None);
    lib.load(vec![track("a.flac", "A"), track("b.flac", "B"), track("b.flac", "B2")]);
    assert_eq!(lib.id_of_path("a.flac"), Some(id(1)));
    assert_eq!(lib.id_of_path("b.flac"), Some(id(2)));
    assert_eq!(lib.id_of_path("c.flac"), None);
    assert_eq!(lib.id_of_path("a.fla"), None);
}

#[test]
fn each_track_is_found_under_its_own_id() {
    let mut lib = Library::default();
    lib.load(vec![track("x/1.flac", "A"), track("x/2.mp3", "B"), track("y/1.flac", "C")]);
    for n in 1..=3u64 {
        let t = lib.get(id(n)).unwrap();
        assert_eq!(lib.id_of_path(&t.pathbuf), Some(id(n)));
    }
}
