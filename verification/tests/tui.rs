use std::sync::Arc;
use std::time::Duration;

use ami::library::TrackId;

use ami::tui::{
    key_event, line_spacing, sort_library_by_title, text_less, now_playing_lines, now_playing_text, position_string, square_crop,
    cover_update, AppEvent, CoverArt, CoverUpdate, InvalidCoverUrl, Key, COVER_URL, DAEMON_URL,
};
use ami::images::Picture;
use ami::track::{Metadata, Properties, Track};
use image::{DynamicImage, GenericImageView, ImageFormat, RgbImage};

fn track(title: &str, artist: Option<&str>, album: Option<&str>, year: Option<u32>) -> Track {
    Track {
        pathbuf: "x.flac".to_string(),
        metadata: Metadata {
            title: title.to_string(),
            artist: artist.map(String::from),
            album: album.map(String::from),
            year,
            ..Metadata::default()
        },
        properties: Properties {
            bitrate: None,
            bit_depth: None,
            channels: None,
            sample_rate: None,
            duration: Duration::from_secs(0),
        },
    }
}

#[test]
fn key_bindings() {
    assert_eq!(key_event(Key::Esc, false), Some(AppEvent::Quit));
    assert_eq!(key_event(Key::Char('q'), false), Some(AppEvent::Quit));
    assert_eq!(key_event(Key::Char('c'), true), Some(AppEvent::Quit));
    assert_eq!(key_event(Key::Char('C'), true), Some(AppEvent::Quit));
    assert_eq!(key_event(Key::Char('c'), false), None);
    assert_eq!(key_event(Key::Enter, false), Some(AppEvent::Enqueue));
    assert_eq!(key_event(Key::Char(' '), false), Some(AppEvent::TogglePlay));
    assert_eq!(key_event(Key::Char('s'), false), Some(AppEvent::Next));
    assert_eq!(key_event(Key::Char('p'), false), Some(AppEvent::Prev));
    assert_eq!(key_event(Key::Up, false), Some(AppEvent::CursorUp));
    assert_eq!(key_event(Key::Down, false), Some(AppEvent::CursorDown));
    assert_eq!(key_event(Key::Right, false), Some(AppEvent::SeekForward));
    assert_eq!(key_event(Key::Left, false), Some(AppEvent::SeekBackward));
    assert_eq!(key_event(Key::Char('x'), false), None);
    assert_eq!(key_event(Key::Other, true), None);
}

#[test]
fn square_crops() {
    assert_eq!(square_crop(100, 100), (0, 0, 100));
    assert_eq!(square_crop(200, 100), (50, 0, 100));
    assert_eq!(square_crop(100, 301), (0, 100, 100));
    assert_eq!(square_crop(0, 7), (0, 3, 0));
}

#[test]
fn positions() {
    assert_eq!(position_string(0), "0:00");
    assert_eq!(position_string(9), "0:09");
    assert_eq!(position_string(75), "1:15");
    assert_eq!(position_string(3600), "60:00");
    assert_eq!(position_string(u64::MAX), format!("{}:{:02}", u64::MAX / 60, u64::MAX % 60));
}

#[test]
fn now_playing_lines_for_each_album_and_year() {
    let t = track("Song", Some("Band"), Some("Record"), Some(1999));
    assert_eq!(now_playing_lines(&t, 61), vec!["Song", "Band", "Record (1999)", "1:01"]);
    let t = track("Song", None, Some("Record"), None);
    assert_eq!(now_playing_lines(&t, 0), vec!["Song", "Unknown Artist", "Record", "0:00"]);
    let t = track("Song", None, None, Some(2024));
    assert_eq!(now_playing_lines(&t, 0), vec!["Song", "Unknown Artist", "2024", "0:00"]);
    let t = track("Song", Some("Band"), None, None);
    assert_eq!(now_playing_lines(&t, 600), vec!["Song", "Band", "10:00"]);
}

#[test]
fn spacing_shrinks_with_the_panel() {
    assert_eq!(line_spacing(100, 4), 5);
    assert_eq!(line_spacing(30, 4), 4);
    assert_eq!(line_spacing(20, 4), 2);
    assert_eq!(line_spacing(10, 4), 1);
    assert_eq!(line_spacing(0, 4), 1);
    assert_eq!(line_spacing(0, 0), 5);
}

#[test]
fn now_playing_text_joins_lines() {
    let t = track("Song", Some("Band"), None, None);
    assert_eq!(now_playing_text(&t, 5, 10), "Song\n\nBand\n\n0:05");
    assert_eq!(now_playing_text(&t, 5, 100), "Song\n\n\n\n\nBand\n\n\n\n\n0:05");
}

#[test]
fn library_listing_is_sorted_by_title_and_stable() {
    let entries: Vec<(TrackId, Arc<Track>)> = [("b", 1), ("a", 2), ("b", 3), ("Z", 4), ("ab", 5), ("", 6)]
        .iter()
        .map(|(title, n)| (n.to_string().parse().unwrap(), Arc::new(track(title, None, None, None))))
        .collect();
    let sorted = sort_library_by_title(entries);
    let got: Vec<(String, String)> = sorted
        .iter()
        .map(|(id, t)| (format!("{:?}", id), t.metadata.title.clone()))
        .collect();
    let titles: Vec<&str> = got.iter().map(|(_, t)| t.as_str()).collect();
    assert_eq!(titles, vec!["", "Z", "a", "ab", "b", "b"]);
    assert_eq!(got[4].0, format!("{:?}", "1".parse::<TrackId>().unwrap()));
    assert_eq!(got[5].0, format!("{:?}", "3".parse::<TrackId>().unwrap()));
    assert!(text_less("a", "b"));
    assert!(text_less("", "a"));
    assert!(text_less("ab", "b"));
    assert!(!text_less("b", "ab"));
    assert!(!text_less("same", "same"));
    assert!(text_less("é", "ê"));
}

#[test]
fn cover_regions() {
    assert_eq!(CoverArt::square_region(100, 100), None);
    assert_eq!(CoverArt::square_region(200, 100), Some((50, 0, 100)));
    assert_eq!(CoverArt::square_region(3, 8), Some((0, 2, 3)));
}

fn png(width: u32, height: u32) -> Vec<u8> {
    let img = DynamicImage::ImageRgb8(RgbImage::new(width, height));
    let mut bytes: Vec<u8> = Vec::new();
    img.write_to(&mut std::io::Cursor::new(&mut bytes), ImageFormat::Png).unwrap();
    bytes
}

#[test]
fn covers_are_decoded_and_cut_square() {
    let square = CoverArt::decode_square(&png(6, 2)).unwrap();
    assert_eq!((square.width(), square.height()), (2, 2));
    assert_eq!(square.image().dimensions(), (2, 2));
    let tall = Picture::decode(&png(3, 7)).unwrap();
    assert_eq!((tall.width(), tall.height()), (3, 7));
    let cropped = CoverArt::crop_to_square(tall);
    assert_eq!((cropped.width(), cropped.height()), (3, 3));
    assert_eq!(cropped.into_image().dimensions(), (3, 3));
    let five = CoverArt::crop_to_square(Picture::decode(&png(5, 5)).unwrap());
    assert_eq!(five.image().dimensions(), (5, 5));
    assert!(CoverArt::decode_square(b"not an image").is_none());
    assert!(Picture::decode(b"not an image").is_none());
}

fn fetches(r: Result<CoverUpdate, InvalidCoverUrl>, url: &str) -> bool {
    match r {
        Ok(CoverUpdate::Fetch(u)) => u.as_str() == url && u.into_url() == url::Url::parse(url).unwrap(),
        _ => false,
    }
}

#[test]
fn cover_updates_when_the_queue_arrives() {
    let mut t = track("Song", None, None, None);
    assert_eq!(cover_update(None, None), Ok(CoverUpdate::Keep));
    assert_eq!(cover_update(None, Some("x.flac")), Ok(CoverUpdate::Keep));
    assert_eq!(cover_update(Some(&t), None), Ok(CoverUpdate::Clear));
    t.metadata.cover_art_path = Some("/cache/covers/Song.jpg".to_string());
    assert!(fetches(cover_update(Some(&t), None), "http://0.0.0.0:7879/Song.jpg"));
    assert!(fetches(cover_update(Some(&t), Some("y.flac")), "http://0.0.0.0:7879/Song.jpg"));
    assert_eq!(cover_update(Some(&t), Some("x.flac")), Ok(CoverUpdate::Keep));
    t.metadata.cover_art_path = Some("/cache/..".to_string());
    assert_eq!(cover_update(Some(&t), None), Ok(CoverUpdate::Keep));
    assert_eq!(COVER_URL, "http://0.0.0.0:7879");
    assert_eq!(DAEMON_URL, "ws://0.0.0.0:7878");
}
