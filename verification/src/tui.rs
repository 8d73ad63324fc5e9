use vstd::prelude::*;
use vstd::string::*;

use std::sync::Arc;


use crate::images::{crop_picture, decoded_size, decodes_as_image, Picture, PictureOrigin, PictureView};
use crate::library::{all_decimal_digits, decimal_u64, digits_value, same_text, TrackId};
use crate::text::{
    append_decimal, decimal_text, digit_char, lemma_decimal_text_digits, lemma_decimal_text_parses_back,
    two_digit_text,
};
use crate::paths::{file_name_of, path_file_name};
use crate::services::{parse_url, parses_as_url, ParsedUrl};
use crate::track::Track;

verus! {

// ---------------------------------------------------------------------------
// Keys

/// Something the terminal client is asked to do.
#[derive(Debug, Clone, Copy, PartialEq, Eq, Structural)]
pub enum AppEvent {
    CursorDown,
    CursorUp,
    Enqueue,
    Next,
    Prev,
    TogglePlay,
    SeekForward,
    SeekBackward,
    Quit,
}

/// A key the terminal client reads.
#[derive(Debug, Clone, Copy, PartialEq, Eq, Structural)]
pub enum Key {
    Esc,
    Enter,
    Up,
    Down,
    Left,
    Right,
    Char(char),
    Other,
}

/// The event bound to `key`: Esc and `q` quit, as does `c` with Control
/// alone; Enter enqueues; space toggles playback; `s` and `p` skip forward
/// and back; the arrows move the cursor and seek.
pub open spec fn key_binding(key: Key, control_only: bool) -> Option<AppEvent> {
    match key {
        Key::Esc => Some(AppEvent::Quit),
        Key::Char(c) => if c == 'q' {
            Some(AppEvent::Quit)
        } else if (c == 'c' || c == 'C') && control_only {
            Some(AppEvent::Quit)
        } else if c == ' ' {
            Some(AppEvent::TogglePlay)
        } else if c == 's' {
            Some(AppEvent::Next)
        } else if c == 'p' {
            Some(AppEvent::Prev)
        } else {
            None
        },
        Key::Enter => Some(AppEvent::Enqueue),
        Key::Up => Some(AppEvent::CursorUp),
        Key::Down => Some(AppEvent::CursorDown),
        Key::Right => Some(AppEvent::SeekForward),
        Key::Left => Some(AppEvent::SeekBackward),
        Key::Other => None,
    }
}

/// The event a key press raises; `control_only` tells whether Control,
/// and no other modifier, was held.
pub fn key_event(key: Key, control_only: bool) -> (e: Option<AppEvent>)
    ensures
        e == key_binding(key, control_only),
{
    match key {
        Key::Esc => Some(AppEvent::Quit),
        Key::Char(c) => if c == 'q' {
            Some(AppEvent::Quit)
        } else if (c == 'c' || c == 'C') && control_only {
            Some(AppEvent::Quit)
        } else if c == ' ' {
            Some(AppEvent::TogglePlay)
        } else if c == 's' {
            Some(AppEvent::Next)
        } else if c == 'p' {
            Some(AppEvent::Prev)
        } else {
            None
        },
        Key::Enter => Some(AppEvent::Enqueue),
        Key::Up => Some(AppEvent::CursorUp),
        Key::Down => Some(AppEvent::CursorDown),
        Key::Right => Some(AppEvent::SeekForward),
        Key::Left => Some(AppEvent::SeekBackward),
        Key::Other => None,
    }
}

// ---------------------------------------------------------------------------
// Cover art

/// The largest centred square of a `width` by `height` image, as the column
/// and row of its top-left corner and its side.
pub fn square_crop(width: u32, height: u32) -> (r: (u32, u32, u32))
    ensures
        r.2 == (if width <= height { width } else { height }),
        r.0 == (width - r.2) / 2,
        r.1 == (height - r.2) / 2,
        r.0 + r.2 <= width,
        r.1 + r.2 <= height,
{
    if width == height {
        return (0, 0, width);
    }
    let size = if width <= height {
        width
    } else {
        height
    };
    ((width - size) / 2, (height - size) / 2, size)
}

/// The largest centred square of a `width` by `height` image, as the
/// column and row of its top-left corner and its side.
pub open spec fn centred_square(width: u32, height: u32) -> (u32, u32, u32) {
    let side = if width <= height { width } else { height };
    (((width - side) / 2) as u32, ((height - side) / 2) as u32, side)
}

/// The picture `v` cut to its largest centred square.
pub open spec fn square_cut_of(v: PictureView) -> PictureView {
    let c = centred_square(v.width, v.height);
    PictureView { width: c.2, height: c.2, origin: PictureOrigin::Cut(Box::new(v.origin), c.0, c.1, c.2, c.2) }
}

/// The picture `v` made square: as it is when square already, else cut to
/// its largest centred square.
pub open spec fn squared(v: PictureView) -> PictureView {
    if v.width == v.height {
        v
    } else {
        square_cut_of(v)
    }
}

/// What decoding `bytes` gives, when they decode.
pub open spec fn decoded_view(bytes: Seq<u8>) -> PictureView {
    PictureView {
        width: decoded_size(bytes).0,
        height: decoded_size(bytes).1,
        origin: PictureOrigin::Decoded(bytes),
    }
}

/// The cover art a client shows next to the playing track.
pub struct CoverArt {}

impl CoverArt {
    /// The region cut out of a `width` by `height` cover to make it square:
    /// `None` when it is square already, else the largest centred square,
    /// as the column and row of its top-left corner and its side.
    pub fn square_region(width: u32, height: u32) -> (r: Option<(u32, u32, u32)>)
        ensures
            width == height ==> r is None,
            width != height ==> (r matches Some(c) && {
                &&& c.2 == (if width <= height { width } else { height })
                &&& c.0 == (width - c.2) / 2
                &&& c.1 == (height - c.2) / 2
            }),
    {
        if width == height {
            None
        } else {
            Some(square_crop(width, height))
        }
    }

    /// The cover cut to the largest centred square; a square cover is
    /// handed back as it is.
    pub fn crop_to_square(img: Picture) -> (r: Picture)
        ensures
            img@.width == img@.height ==> r == img,
            img@.width != img@.height ==> r@ == square_cut_of(img@),
    {
        let width = img.width();
        let height = img.height();
        match Self::square_region(width, height) {
            None => img,
            Some((x, y, size)) => crop_picture(&img, x, y, size, size),
        }
    }

    /// Decode the bytes of a fetched cover and cut it to its largest
    /// centred square; `None` when the bytes hold no image that can be
    /// decoded.
    pub fn decode_square(bytes: &[u8]) -> (r: Option<Picture>)
        ensures
            r is Some <==> decodes_as_image(bytes@),
            r matches Some(p) ==> p@ == squared(decoded_view(bytes@)),
    {
        match Picture::decode(bytes) {
            Some(img) => Some(Self::crop_to_square(img)),
            None => None,
        }
    }
}

/// Where the terminal client reaches the daemon.
pub const DAEMON_URL: &'static str = "ws://0.0.0.0:7878";

/// Where the terminal client fetches cover art from.
pub const COVER_URL: &'static str = "http://0.0.0.0:7879";

/// What the client does with the cover it shows when a new queue arrives.
#[derive(Debug, PartialEq, Eq)]
pub enum CoverUpdate {
    /// Keep the cover shown, if any.
    Keep,
    /// Fetch the cover at this address for the current track.
    Fetch(ParsedUrl),
    /// Show no cover.
    Clear,
}

/// The address the client fetches the cached cover file `name` from.
pub open spec fn cover_fetch_url(name: Seq<char>) -> Seq<char> {
    COVER_URL@ + "/"@ + name
}

/// The address of a cover to fetch does not read as a URL.
#[derive(Debug, Clone, Copy, PartialEq, Eq)]
pub struct InvalidCoverUrl;

/// Whether `r` is what the client does with its cover when the queue's
/// current track is `current` and it shows the cover of the track at path
/// `shown`: nothing when no track is current or its cover is already
/// shown; else fetch the current track's cover when it has one whose path
/// names a file (an error when the address to fetch it from does not read
/// as a URL), keep the cover when that path names no file, and show none
/// when the track has no cover.
pub open spec fn is_cover_update(
    current: Option<Track>,
    shown: Option<Seq<char>>,
    r: Result<CoverUpdate, InvalidCoverUrl>,
) -> bool {
    match current {
        None => r == Ok::<CoverUpdate, InvalidCoverUrl>(CoverUpdate::Keep),
        Some(t) => if shown == Some(t.pathbuf@) {
            r == Ok::<CoverUpdate, InvalidCoverUrl>(CoverUpdate::Keep)
        } else {
            match t.metadata.cover_art_path {
                None => r == Ok::<CoverUpdate, InvalidCoverUrl>(CoverUpdate::Clear),
                Some(p) => match path_file_name(p@) {
                    Some(name) => if parses_as_url(cover_fetch_url(name)) {
                        r matches Ok(CoverUpdate::Fetch(u)) && u@ == cover_fetch_url(name)
                    } else {
                        r == Err::<CoverUpdate, InvalidCoverUrl>(InvalidCoverUrl)
                    },
                    None => r == Ok::<CoverUpdate, InvalidCoverUrl>(CoverUpdate::Keep),
                },
            }
        },
    }
}

/// The cover decisions, read case by case: with no current track, or with
/// the current track's cover already shown, the cover stays; a current
/// track that has no cover art clears whatever cover was shown; one whose
/// cover art names a file is fetched from the cover server under that
/// file name.
pub proof fn lemma_cover_update_cases(
    current: Option<Track>,
    shown: Option<Seq<char>>,
    r: Result<CoverUpdate, InvalidCoverUrl>,
)
    requires
        is_cover_update(current, shown, r),
    ensures
        current is None ==> r == Ok::<CoverUpdate, InvalidCoverUrl>(CoverUpdate::Keep),
        current matches Some(t) && shown == Some(t.pathbuf@) ==> r == Ok::<CoverUpdate, InvalidCoverUrl>(
            CoverUpdate::Keep,
        ),
        current matches Some(t) && shown != Some(t.pathbuf@) && t.metadata.cover_art_path is None ==> r
            == Ok::<CoverUpdate, InvalidCoverUrl>(CoverUpdate::Clear),
        match current {
            Some(t) => shown != Some(t.pathbuf@) ==> match t.metadata.cover_art_path {
                Some(p) => match path_file_name(p@) {
                    Some(name) => parses_as_url(COVER_URL@ + "/"@ + name) ==> (r matches Ok(
                        CoverUpdate::Fetch(u),
                    ) && u@ == COVER_URL@ + "/"@ + name),
                    None => r == Ok::<CoverUpdate, InvalidCoverUrl>(CoverUpdate::Keep),
                },
                None => true,
            },
            None => true,
        },
{
}

/// What the client does with its cover when a queue arrives whose current
/// track is `current`, while it shows the cover of the track at path
/// `shown`.
pub fn cover_update(current: Option<&Track>, shown: Option<&str>) -> (r: Result<CoverUpdate, InvalidCoverUrl>)
    ensures
        is_cover_update(
            match current { Some(t) => Some(*t), None => None },
            match shown { Some(s) => Some(s@), None => None },
            r,
        ),
{
    match current {
        None => Ok(CoverUpdate::Keep),
        Some(t) => {
            let same = match shown {
                Some(s) => same_text(s, t.pathbuf.as_str()),
                None => false,
            };
            if same {
                Ok(CoverUpdate::Keep)
            } else {
                match &t.metadata.cover_art_path {
                    None => Ok(CoverUpdate::Clear),
                    Some(p) => match file_name_of(p.as_str()) {
                        Some(name) => {
                            let mut text = String::from_str(COVER_URL);
                            text.append("/");
                            text.append(name.as_str());
                            match parse_url(text) {
                                Some(url) => Ok(CoverUpdate::Fetch(url)),
                                None => Err(InvalidCoverUrl),
                            }
                        },
                        None => Ok(CoverUpdate::Keep),
                    },
                }
            }
        },
    }
}

// ---------------------------------------------------------------------------
// Playback position

/// A playback position in whole seconds, as minutes, a colon and two
/// digits of seconds.
pub open spec fn position_text(secs: u64) -> Seq<char> {
    decimal_text((secs / 60) as nat) + ":"@ + two_digit_text((secs % 60) as nat)
}

/// The position text is the minutes written in decimal, a colon, and
/// exactly two decimal digits: the minutes read back as `secs / 60` and
/// the two digits as `secs % 60`.
pub proof fn lemma_position_text_reads_back(secs: u64)
    ensures
        ({
            let s = position_text(secs);
            let k = s.len() - 3;
            &&& s.len() >= 4
            &&& s[k] == ':'
            &&& decimal_u64(s.take(k)) == Some(secs / 60)
            &&& s.skip(k + 1).len() == 2
            &&& all_decimal_digits(s.skip(k + 1))
            &&& digits_value(s.skip(k + 1)) == secs % 60
        }),
{
    reveal_strlit(":");
    let m = secs / 60;
    let r = (secs % 60) as nat;
    let minutes = decimal_text(m as nat);
    let tail = two_digit_text(r);
    lemma_decimal_text_parses_back(m);
    lemma_decimal_text_digits(m as nat);
    assert(tail.len() == 2 && all_decimal_digits(tail) && digits_value(tail) == r) by {
        let d = digit_char((r % 10) as int);
        assert((d as int) == (r % 10) + 48);
        if r < 10 {
            assert(decimal_text(r) =~= seq![d]);
            assert(tail =~= seq!['0', d]);
            assert(tail.drop_last() =~= seq!['0']);
            assert(seq!['0'].drop_last() =~= Seq::<char>::empty());
            assert(digits_value(Seq::<char>::empty()) == 0);
            assert(seq!['0'].last() == '0');
            assert(digits_value(seq!['0']) == digits_value(seq!['0'].drop_last()) * 10 + ((seq!['0'].last() as int) - ('0' as int)) as nat);
            assert(digits_value(seq!['0']) == 0);
        } else {
            let t = digit_char((r / 10) as int);
            assert((t as int) == (r / 10) + 48);
            assert(decimal_text(r / 10) =~= seq![t]);
            assert(tail =~= seq![t, d]);
            assert(tail.drop_last() =~= seq![t]);
            assert(seq![t].drop_last() =~= Seq::<char>::empty());
            assert(digits_value(Seq::<char>::empty()) == 0);
            assert(seq![t].last() == t);
            assert(('0' as int) == 48);
            assert(digits_value(seq![t]) == digits_value(seq![t].drop_last()) * 10 + ((seq![t].last() as int) - ('0' as int)) as nat);
            assert(digits_value(seq![t]) == r / 10);
        }
    }
    let s = position_text(secs);
    let k = s.len() - 3;
    assert(s =~= minutes + ":"@ + tail);
    assert(s.take(k) =~= minutes);
    assert(s.skip(k + 1) =~= tail);
}

/// The position line of the now-playing panel.
pub fn position_string(secs: u64) -> (r: String)
    ensures
        r@ == position_text(secs),
{
    let mut s = String::new();
    append_decimal(&mut s, secs / 60);
    s.append(":");
    let rest = secs % 60;
    if rest < 10 {
        s.append("0");
        proof {
            reveal_strlit("0");
        }
    }
    append_decimal(&mut s, rest);
    proof {
        reveal_strlit(":");
    }
    assert(s@ =~= position_text(secs));
    s
}

// ---------------------------------------------------------------------------
// The now-playing panel

/// An optional string, as text.
pub open spec fn opt_text(o: Option<String>) -> Option<Seq<char>> {
    match o {
        Some(s) => Some(s@),
        None => None,
    }
}

/// The album line: album and year, either alone, or nothing.
pub open spec fn album_line(album: Option<Seq<char>>, year: Option<u32>) -> Option<Seq<char>> {
    match (album, year) {
        (Some(a), Some(y)) => Some(a + " ("@ + decimal_text(y as nat) + ")"@),
        (Some(a), None) => Some(a),
        (None, Some(y)) => Some(decimal_text(y as nat)),
        (None, None) => None,
    }
}

/// The artist line: the artist, or a stand-in when the tags name none.
pub open spec fn artist_line(artist: Option<Seq<char>>) -> Seq<char> {
    match artist {
        Some(a) => a,
        None => "Unknown Artist"@,
    }
}

/// A line that is there or not, as a sequence of zero or one line.
pub open spec fn optional_line(o: Option<Seq<char>>) -> Seq<Seq<char>> {
    match o {
        Some(l) => seq![l],
        None => Seq::empty(),
    }
}

/// The lines describing the playing track: title, artist, album line if
/// any, and the playback position.
pub open spec fn now_playing_desc(track: Track, position_secs: u64) -> Seq<Seq<char>> {
    seq![track.metadata.title@, artist_line(opt_text(track.metadata.artist))]
        + optional_line(album_line(opt_text(track.metadata.album), track.metadata.year))
        + seq![position_text(position_secs)]
}

/// The lines describing `track` at playback position `position_secs`.
pub fn now_playing_lines(track: &Track, position_secs: u64) -> (r: Vec<String>)
    ensures
        r@.len() == now_playing_desc(*track, position_secs).len(),
        forall|i: int| 0 <= i < r@.len() ==> (#[trigger] r@[i])@ == now_playing_desc(*track, position_secs)[i],
{
    let ghost desc = now_playing_desc(*track, position_secs);
    let mut lines: Vec<String> = Vec::new();
    lines.push(track.metadata.title.clone());
    let artist = match &track.metadata.artist {
        Some(a) => a.clone(),
        None => String::from_str("Unknown Artist"),
    };
    lines.push(artist);
    match (&track.metadata.album, track.metadata.year) {
        (Some(album), Some(year)) => {
            let mut l = album.clone();
            l.append(" (");
            append_decimal(&mut l, year as u64);
            l.append(")");
            lines.push(l);
        },
        (Some(album), None) => {
            lines.push(album.clone());
        },
        (None, Some(year)) => {
            let mut l = String::new();
            append_decimal(&mut l, year as u64);
            lines.push(l);
        },
        (None, None) => {},
    }
    lines.push(position_string(position_secs));
    assert(lines@.len() == desc.len());
    assert(forall|i: int| 0 <= i < lines@.len() ==> (#[trigger] lines@[i])@ == desc[i]);
    lines
}

/// Whether `spacing` blank-line steps between `lines` lines fit in half of
/// a panel `height` rows high (the length is taken as a `u16`, as the
/// panel does).
pub open spec fn spacing_fits(height: u16, lines: usize, spacing: int) -> bool {
    let needed = if lines * spacing >= 1 {
        lines * spacing - 1
    } else {
        0
    };
    (height / 2) as int >= needed % 0x1_0000
}

/// The widest spacing, from 5 down to 1, whose lines fit; 1 when none does.
pub open spec fn line_spacing_spec(height: u16, lines: usize) -> usize {
    if spacing_fits(height, lines, 5) {
        5
    } else if spacing_fits(height, lines, 4) {
        4
    } else if spacing_fits(height, lines, 3) {
        3
    } else if spacing_fits(height, lines, 2) {
        2
    } else {
        1
    }
}

/// How many line breaks to put between the lines of the now-playing panel.
pub fn line_spacing(height: u16, lines: usize) -> (r: usize)
    requires
        lines <= usize::MAX / 5,
    ensures
        r == line_spacing_spec(height, lines),
{
    let mut x: usize = 5;
    while x > 1
        invariant
            1 <= x <= 5,
            lines <= usize::MAX / 5,
            forall|y: int| x < y <= 5 ==> !spacing_fits(height, lines, y),
        decreases x,
    {
        assert(lines * x <= usize::MAX) by (nonlinear_arith)
            requires
                lines <= usize::MAX / 5,
                x <= 5,
        ;
        let product = lines * x;
        let needed = if product >= 1 {
            product - 1
        } else {
            0
        };
        if (height / 2) as usize >= needed % 0x1_0000 {
            return x;
        }
        x -= 1;
    }
    1
}

/// `lines` joined with `sep` between each two.
pub open spec fn joined(lines: Seq<Seq<char>>, sep: Seq<char>) -> Seq<char>
    decreases lines.len(),
{
    if lines.len() == 0 {
        Seq::empty()
    } else if lines.len() == 1 {
        lines[0]
    } else {
        joined(lines.drop_last(), sep) + sep + lines.last()
    }
}

/// `n` line breaks.
pub open spec fn line_breaks(n: nat) -> Seq<char> {
    Seq::new(n, |i: int| '\n')
}

/// The text of the now-playing panel for a panel `height` rows high.
pub open spec fn now_playing_text_spec(track: Track, position_secs: u64, height: u16) -> Seq<char> {
    let desc = now_playing_desc(track, position_secs);
    joined(desc, line_breaks(line_spacing_spec(height, desc.len() as usize) as nat))
}

/// The text the now-playing panel shows for `track` at `position_secs`, in a
/// panel `height` rows high.
pub fn now_playing_text(track: &Track, position_secs: u64, height: u16) -> (r: String)
    ensures
        r@ == now_playing_text_spec(*track, position_secs, height),
{
    let lines = now_playing_lines(track, position_secs);
    let ghost desc = now_playing_desc(*track, position_secs);
    let spacing = line_spacing(height, lines.len());
    let mut sep = String::new();
    let mut k: usize = 0;
    while k < spacing
        invariant
            k <= spacing,
            sep@ == line_breaks(k as nat),
        decreases spacing - k,
    {
        sep.append("\n");
        proof {
            reveal_strlit("\n");
        }
        assert(sep@ =~= line_breaks((k + 1) as nat));
        k += 1;
    }
    let mut text = String::new();
    let n = lines.len();
    let mut i: usize = 0;
    while i < n
        invariant
            i <= n,
            n == lines@.len(),
            n == desc.len(),
            forall|j: int| 0 <= j < n ==> (#[trigger] lines@[j])@ == desc[j],
            text@ == joined(desc.take(i as int), sep@),
        decreases n - i,
    {
        if i > 0 {
            text.append(sep.as_str());
        }
        text.append(lines[i].as_str());
        assert(desc.take(i + 1).drop_last() =~= desc.take(i as int));
        assert(text@ =~= joined(desc.take(i + 1), sep@));
        i += 1;
    }
    assert(desc.take(n as int) =~= desc);
    text
}

// ---------------------------------------------------------------------------
// The library listing

/// Whether text `a` comes strictly before text `b`: compared character by
/// character by code point, a proper prefix first. For UTF-8 strings this
/// is the order `String::cmp` gives.
pub open spec fn text_lt(a: Seq<char>, b: Seq<char>) -> bool
    decreases a.len(),
{
    if b.len() == 0 {
        false
    } else if a.len() == 0 {
        true
    } else if a[0] != b[0] {
        (a[0] as int) < (b[0] as int)
    } else {
        text_lt(a.drop_first(), b.drop_first())
    }
}

/// Whether `a` comes no later than `b` in the order of `text_lt`.
pub open spec fn text_le(a: Seq<char>, b: Seq<char>) -> bool {
    text_lt(a, b) || a == b
}

proof fn lemma_text_lt_irreflexive(a: Seq<char>)
    ensures
        !text_lt(a, a),
    decreases a.len(),
{
    if a.len() > 0 {
        lemma_text_lt_irreflexive(a.drop_first());
    }
}

proof fn lemma_text_lt_total(a: Seq<char>, b: Seq<char>)
    ensures
        text_lt(a, b) || a == b || text_lt(b, a),
    decreases a.len(),
{
    if a.len() > 0 && b.len() > 0 {
        if a[0] == b[0] {
            lemma_text_lt_total(a.drop_first(), b.drop_first());
            if a.drop_first() == b.drop_first() {
                assert(a =~= seq![a[0]] + a.drop_first());
                assert(b =~= seq![b[0]] + b.drop_first());
            }
        } else {
            assert((a[0] as int) != (b[0] as int));
        }
    } else if a.len() == 0 && b.len() == 0 {
        assert(a =~= b);
    }
}

proof fn lemma_text_lt_asymmetric(a: Seq<char>, b: Seq<char>)
    requires
        text_lt(a, b),
    ensures
        !text_lt(b, a),
        a != b,
    decreases a.len(),
{
    if a.len() > 0 && b.len() > 0 && a[0] == b[0] {
        lemma_text_lt_asymmetric(a.drop_first(), b.drop_first());
    }
}

proof fn lemma_text_lt_transitive(a: Seq<char>, b: Seq<char>, c: Seq<char>)
    requires
        text_lt(a, b),
        text_lt(b, c),
    ensures
        text_lt(a, c),
    decreases a.len(),
{
    if a.len() > 0 && b.len() > 0 && c.len() > 0 && a[0] == b[0] && b[0] == c[0] {
        lemma_text_lt_transitive(a.drop_first(), b.drop_first(), c.drop_first());
    }
}

/// The text order is the order of code points at the first character
/// where two texts differ: when `a` and `b` agree on their first `i`
/// characters and `a`'s next character has the smaller code point, `a`
/// comes first (the order `String::cmp` gives).
pub proof fn lemma_text_lt_first_difference(a: Seq<char>, b: Seq<char>, i: int)
    requires
        0 <= i < a.len(),
        i < b.len(),
        a.take(i) == b.take(i),
        (a[i] as int) < (b[i] as int),
    ensures
        text_lt(a, b),
        !text_lt(b, a),
    decreases i,
{
    if i > 0 {
        assert(a[0] == a.take(i)[0]);
        assert(b[0] == b.take(i)[0]);
        assert(a.drop_first().take(i - 1) =~= a.take(i).drop_first());
        assert(b.drop_first().take(i - 1) =~= b.take(i).drop_first());
        lemma_text_lt_first_difference(a.drop_first(), b.drop_first(), i - 1);
    }
}

/// A text comes after every proper prefix of it.
pub proof fn lemma_text_lt_proper_prefix(a: Seq<char>, b: Seq<char>)
    requires
        a.len() < b.len(),
        b.take(a.len() as int) == a,
    ensures
        text_lt(a, b),
        !text_lt(b, a),
    decreases a.len(),
{
    if a.len() > 0 {
        assert(a[0] == b.take(a.len() as int)[0]);
        assert(b.drop_first().take(a.drop_first().len() as int) =~= a.drop_first());
        lemma_text_lt_proper_prefix(a.drop_first(), b.drop_first());
    }
}

/// Whether `a` comes strictly before `b` in text order.
pub fn text_less(a: &str, b: &str) -> (r: bool)
    ensures
        r == text_lt(a@, b@),
{
    let na = a.unicode_len();
    let nb = b.unicode_len();
    let mut i: usize = 0;
    assert(a@.skip(0) =~= a@);
    assert(b@.skip(0) =~= b@);
    while i < na && i < nb
        invariant
            i <= na,
            i <= nb,
            na == a@.len(),
            nb == b@.len(),
            text_lt(a@, b@) == text_lt(a@.skip(i as int), b@.skip(i as int)),
        decreases na - i,
    {
        let ca = a.get_char(i);
        let cb = b.get_char(i);
        assert(a@.skip(i as int)[0] == ca);
        assert(b@.skip(i as int)[0] == cb);
        if ca != cb {
            return (ca as u32) < (cb as u32);
        }
        assert(a@.skip(i as int).drop_first() =~= a@.skip(i + 1));
        assert(b@.skip(i as int).drop_first() =~= b@.skip(i + 1));
        i += 1;
    }
    assert(i == nb ==> b@.skip(i as int).len() == 0);
    i < nb
}

/// The title of a library entry, by which the listing is ordered.
pub open spec fn entry_title(e: (TrackId, Arc<Track>)) -> Seq<char> {
    e.1.metadata.title@
}

/// `sorted` holds the entries of `entries` ordered by title, entries with
/// equal titles in their original order; `perm[i]` is the place in
/// `entries` of `sorted[i]`.
pub open spec fn is_stable_title_sort(
    sorted: Seq<(TrackId, Arc<Track>)>,
    entries: Seq<(TrackId, Arc<Track>)>,
    perm: Seq<int>,
) -> bool {
    &&& sorted.len() == entries.len()
    &&& perm.len() == entries.len()
    &&& forall|i: int| 0 <= i < perm.len() ==> 0 <= #[trigger] perm[i] < entries.len()
    &&& forall|i: int, j: int| 0 <= i < j < perm.len() ==> perm[i] != perm[j]
    &&& forall|i: int| 0 <= i < sorted.len() ==> #[trigger] sorted[i] == entries[perm[i]]
    &&& forall|i: int, j: int|
        0 <= i < j < sorted.len() ==> text_le(entry_title(#[trigger] sorted[i]), entry_title(#[trigger] sorted[j]))
    &&& forall|i: int, j: int|
        0 <= i < j < sorted.len() && entry_title(#[trigger] sorted[i]) == entry_title(#[trigger] sorted[j])
            ==> perm[i] < perm[j]
}

/// The library listing the terminal client shows: the entries ordered by
/// title, a stable sort.
pub fn sort_library_by_title(entries: Vec<(TrackId, Arc<Track>)>) -> (r: Vec<(TrackId, Arc<Track>)>)
    ensures
        exists|perm: Seq<int>| is_stable_title_sort(r@, entries@, perm),
{
    let ghost all = entries@;
    let mut sorted: Vec<(TrackId, Arc<Track>)> = Vec::new();
    let ghost mut perm: Seq<int> = Seq::empty();
    for e in it: entries
        invariant
            all == it.seq(),
            is_stable_title_sort(sorted@, all.take(it.index() as int), perm),
    {
        let ghost k = it.index() as int;
        assert(all[k] == e);
        let n = sorted.len();
        let mut p: usize = 0;
        while p < n && !text_less(e.1.metadata.title.as_str(), sorted[p].1.metadata.title.as_str())
            invariant
                p <= n,
                n == sorted@.len(),
                forall|i: int| 0 <= i < p ==> text_le(entry_title(#[trigger] sorted@[i]), entry_title(e)),
            decreases n - p,
        {
            proof {
                lemma_text_lt_total(entry_title(e), entry_title(sorted@[p as int]));
            }
            p += 1;
        }
        let ghost old_sorted = sorted@;
        let ghost old_perm = perm;
        proof {
            // Entries from p on come strictly after e.
            assert forall|i: int| p <= i < n implies text_lt(entry_title(e), entry_title(#[trigger] old_sorted[i])) by {
                if p < n {
                    assert(text_lt(entry_title(e), entry_title(old_sorted[p as int])));
                    if i > p {
                        let a = entry_title(old_sorted[p as int]);
                        let b = entry_title(old_sorted[i]);
                        assert(text_le(a, b));
                        if text_lt(a, b) {
                            lemma_text_lt_transitive(entry_title(e), a, b);
                        }
                    }
                }
            }
        }
        sorted.insert(p, e);
        proof {
            perm = old_perm.insert(p as int, k);
            let ns = sorted@;
            let pre = all.take(k + 1);
            assert(pre =~= all.take(k).push(e));
            assert forall|i: int| 0 <= i < perm.len() implies 0 <= #[trigger] perm[i] < pre.len() by {
                if i != p {
                    let oi = if i < p { i } else { i - 1 };
                    assert(perm[i] == old_perm[oi]);
                }
            }
            assert forall|i: int, j: int| 0 <= i < j < perm.len() implies perm[i] != perm[j] by {
                let oi = if i < p { i } else { i - 1 };
                let oj = if j < p { j } else { j - 1 };
                if i != p {
                    assert(perm[i] == old_perm[oi]);
                }
                if j != p {
                    assert(perm[j] == old_perm[oj]);
                }
            }
            assert forall|i: int| 0 <= i < ns.len() implies #[trigger] ns[i] == pre[perm[i]] by {
                if i < p {
                    assert(ns[i] == old_sorted[i]);
                    assert(perm[i] == old_perm[i]);
                } else if i > p {
                    assert(ns[i] == old_sorted[i - 1]);
                    assert(perm[i] == old_perm[i - 1]);
                }
            }
            assert forall|i: int, j: int| 0 <= i < j < ns.len() implies text_le(
                entry_title(#[trigger] ns[i]),
                entry_title(#[trigger] ns[j]),
            ) by {
                if j == p {
                    assert(ns[i] == old_sorted[i]);
                } else if i == p {
                    assert(ns[j] == old_sorted[j - 1]);
                } else {
                    let oi = if i < p { i } else { i - 1 };
                    let oj = if j < p { j } else { j - 1 };
                    assert(ns[i] == old_sorted[oi]);
                    assert(ns[j] == old_sorted[oj]);
                    if i < p && j > p {
                        let a = entry_title(old_sorted[oi]);
                        let b = entry_title(old_sorted[oj]);
                        assert(text_le(a, entry_title(e)));
                        assert(text_lt(entry_title(e), b));
                        if text_lt(a, entry_title(e)) {
                            lemma_text_lt_transitive(a, entry_title(e), b);
                        }
                    }
                }
            }
            assert forall|i: int, j: int|
                0 <= i < j < ns.len() && entry_title(#[trigger] ns[i]) == entry_title(#[trigger] ns[j])
                implies perm[i] < perm[j] by {
                let oi = if i < p { i } else { i - 1 };
                let oj = if j < p { j } else { j - 1 };
                if i == p {
                    assert(ns[j] == old_sorted[oj]);
                    assert(text_lt(entry_title(e), entry_title(old_sorted[oj])));
                    lemma_text_lt_asymmetric(entry_title(e), entry_title(old_sorted[oj]));
                } else if j == p {
                    assert(perm[i] == old_perm[oi]);
                    assert(old_perm[oi] < k);
                } else {
                    assert(ns[i] == old_sorted[oi]);
                    assert(ns[j] == old_sorted[oj]);
                    assert(perm[i] == old_perm[oi]);
                    assert(perm[j] == old_perm[oj]);
                }
            }
            assert(is_stable_title_sort(ns, pre, perm));
        }
    }
    assert(all.take(all.len() as int) =~= all);
    sorted
}

} // verus!
