use vstd::prelude::*;

use std::str::FromStr;
use std::sync::Arc;

use crate::paths::{extension_of, path_extension};
use crate::track::{share_track, Track};

verus! {

// ---------------------------------------------------------------------------
// Track ids

/// The id under which the library lists a track.
#[derive(Debug, Clone, Copy, PartialEq, Eq, Hash, Default)]
pub struct TrackId(u64);

impl View for TrackId {
    type V = u64;

    closed spec fn view(&self) -> u64 {
        self.0
    }
}

impl TrackId {
    /// The id with value `v`.
    pub fn from_u64(v: u64) -> (id: TrackId)
        ensures
            id@ == v,
    {
        TrackId(v)
    }

    /// The id's value.
    pub fn as_u64(&self) -> (v: u64)
        ensures
            v == self@,
    {
        self.0
    }

    /// Move to the next id.
    pub fn increment(&mut self)
        requires
            old(self)@ < u64::MAX,
        ensures
            final(self)@ == old(self)@ + 1,
    {
        self.0 += 1;
    }

    /// Move to the previous id.
    pub fn decrement(&mut self)
        requires
            old(self)@ > 0,
        ensures
            final(self)@ == old(self)@ - 1,
    {
        self.0 -= 1;
    }

    /// The id written as a decimal number, as `str::parse::<u64>` reads it.
    pub fn parse(s: &str) -> (r: Result<TrackId, ParseTrackIdError>)
        ensures
            match decimal_u64(s@) {
                Some(v) => r matches Ok(id) && id@ == v,
                None => r is Err,
            },
    {
        match parse_decimal_u64(s) {
            Some(v) => Ok(TrackId(v)),
            None => Err(ParseTrackIdError),
        }
    }
}

/// The text given for a track id is not a decimal `u64`.
#[derive(Debug, PartialEq, Eq)]
pub struct ParseTrackIdError;

impl FromStr for TrackId {
    type Err = ParseTrackIdError;

    /// The id written as a decimal number, as `TrackId::parse` reads it.
    fn from_str(s: &str) -> (r: Result<Self, Self::Err>)
        ensures
            match decimal_u64(s@) {
                Some(v) => r matches Ok(id) && id@ == v,
                None => r is Err,
            },
    {
        TrackId::parse(s)
    }
}

// ---------------------------------------------------------------------------
// Decimal numbers

/// Whether `c` is one of the ASCII digits `0` to `9`.
pub open spec fn is_decimal_digit(c: char) -> bool {
    '0' <= c && c <= '9'
}

/// Whether every character of `s` is a decimal digit.
pub open spec fn all_decimal_digits(s: Seq<char>) -> bool {
    forall|i: int| 0 <= i < s.len() ==> is_decimal_digit(#[trigger] s[i])
}

/// The value of a string of decimal digits, most significant first.
pub open spec fn digits_value(s: Seq<char>) -> nat
    decreases s.len(),
{
    if s.len() == 0 {
        0
    } else {
        digits_value(s.drop_last()) * 10 + ((s.last() as int) - ('0' as int)) as nat
    }
}

/// The digits of an unsigned decimal number: an optional leading `+` is dropped.
pub open spec fn unsigned_digits(s: Seq<char>) -> Seq<char> {
    if s.len() > 0 && s[0] == '+' {
        s.drop_first()
    } else {
        s
    }
}

/// The `u64` a text denotes as an unsigned decimal number: an optional `+`,
/// then at least one decimal digit, the value not above `u64::MAX`.
pub open spec fn decimal_u64(s: Seq<char>) -> Option<u64> {
    let d = unsigned_digits(s);
    if d.len() > 0 && all_decimal_digits(d) && digits_value(d) <= u64::MAX {
        Some(digits_value(d) as u64)
    } else {
        None
    }
}

proof fn lemma_digits_value_grows(s: Seq<char>, k: int)
    requires
        0 <= k <= s.len(),
        all_decimal_digits(s),
    ensures
        digits_value(s.take(k)) <= digits_value(s),
    decreases s.len() - k,
{
    if k < s.len() {
        lemma_digits_value_grows(s, k + 1);
        assert(s.take(k + 1).drop_last() =~= s.take(k));
        assert(is_decimal_digit(s[k]));
    } else {
        assert(s.take(k) =~= s);
    }
}

/// Read an unsigned decimal `u64`, as `str::parse::<u64>` does.
pub fn parse_decimal_u64(s: &str) -> (r: Option<u64>)
    ensures
        r == decimal_u64(s@),
{
    let n = s.unicode_len();
    let mut start: usize = 0;
    if n > 0 && s.get_char(0) == '+' {
        start = 1;
    }
    let ghost d = unsigned_digits(s@);
    assert(d =~= s@.subrange(start as int, n as int));
    if start >= n {
        return None;
    }
    let mut value: u64 = 0;
    let mut i: usize = start;
    while i < n
        invariant
            start <= i <= n,
            n == s@.len(),
            d == s@.subrange(start as int, n as int),
            d == unsigned_digits(s@),
            all_decimal_digits(d.take(i - start)),
            value == digits_value(d.take(i - start)),
        decreases n - i,
    {
        let c = s.get_char(i);
        if !('0' <= c && c <= '9') {
            assert(d[i - start] == c);
            assert(!all_decimal_digits(d));
            return None;
        }
        let digit: u64 = ((c as u32) - ('0' as u32)) as u64;
        assert(d.take(i - start + 1).drop_last() =~= d.take(i - start));
        assert(d.take(i - start + 1).last() == c);
        if value > (u64::MAX - digit) / 10 {
            proof {
                assert(value * 10 + digit > u64::MAX) by (nonlinear_arith)
                    requires
                        value > (u64::MAX - digit) / 10,
                        digit <= 9,
                ;
                if all_decimal_digits(d) {
                    lemma_digits_value_grows(d, i - start + 1);
                }
            }
            return None;
        }
        value = value * 10 + digit;
        i += 1;
    }
    assert(d.take(n - start) =~= d);
    Some(value)
}

// ---------------------------------------------------------------------------
// Supported audio files

/// Extensions of the audio formats the player decodes.
pub const RODIO_SUPPORTED_FORMATS: [&'static str; 6] = ["flac", "mp3", "ogg", "wav", "opus", "m4a"];

/// Whether `ext` is one of `RODIO_SUPPORTED_FORMATS`, compared exactly.
pub open spec fn supported_extension(ext: Seq<char>) -> bool {
    ||| ext == "flac"@
    ||| ext == "mp3"@
    ||| ext == "ogg"@
    ||| ext == "wav"@
    ||| ext == "opus"@
    ||| ext == "m4a"@
}

/// Whether two strings hold the same characters.
pub fn same_text(a: &str, b: &str) -> (r: bool)
    ensures
        r == (a@ == b@),
{
    let n = a.unicode_len();
    if n != b.unicode_len() {
        return false;
    }
    let mut i: usize = 0;
    while i < n
        invariant
            i <= n,
            n == a@.len(),
            n == b@.len(),
            a@.take(i as int) == b@.take(i as int),
        decreases n - i,
    {
        if a.get_char(i) != b.get_char(i) {
            return false;
        }
        assert(a@.take(i + 1) =~= a@.take(i as int).push(a@[i as int]));
        assert(b@.take(i + 1) =~= b@.take(i as int).push(b@[i as int]));
        i += 1;
    }
    assert(a@ =~= a@.take(n as int));
    assert(b@ =~= b@.take(n as int));
    true
}

/// Whether a file extension names a format the player decodes.
pub fn is_supported_extension(ext: &str) -> (r: bool)
    ensures
        r == supported_extension(ext@),
{
    proof {
        reveal_strlit("flac");
        reveal_strlit("mp3");
        reveal_strlit("ogg");
        reveal_strlit("wav");
        reveal_strlit("opus");
        reveal_strlit("m4a");
    }
    let mut i: usize = 0;
    while i < 6
        invariant
            i <= 6,
            forall|j: int| 0 <= j < i ==> ext@ != (#[trigger] RODIO_SUPPORTED_FORMATS[j])@,
        decreases 6 - i,
    {
        if same_text(ext, RODIO_SUPPORTED_FORMATS[i]) {
            return true;
        }
        i += 1;
    }
    false
}

/// Why a path cannot be checked for a supported format.
#[derive(Debug, Clone, Copy, PartialEq, Eq)]
pub enum SupportError {
    /// The path does not name a regular file.
    NotAFile,
    /// The file name has no extension.
    NoExtension,
}

/// Whether `path`, of which the caller has found whether it is a regular
/// file, is an audio file the player decodes: an error when it is no file
/// or has no extension, else whether its extension is a supported one.
pub fn is_rodio_supported(path: &str, is_file: bool) -> (r: Result<bool, SupportError>)
    ensures
        !is_file ==> r == Err::<bool, SupportError>(SupportError::NotAFile),
        is_file ==> match path_extension(path@) {
            None => r == Err::<bool, SupportError>(SupportError::NoExtension),
            Some(ext) => r == Ok::<bool, SupportError>(supported_extension(ext)),
        },
{
    if is_file {
        match extension_of(path) {
            Some(ext) => Ok(is_supported_extension(ext.as_str())),
            None => Err(SupportError::NoExtension),
        }
    } else {
        Err(SupportError::NotAFile)
    }
}

// ---------------------------------------------------------------------------
// The library

/// The track a library holding `tracks` lists under the id value `id`: ids
/// count from 1, in the order the tracks were loaded.
pub open spec fn track_with_id(tracks: Seq<Arc<Track>>, id: u64) -> Option<Arc<Track>> {
    if 1 <= id && id <= tracks.len() {
        Some(tracks[id - 1])
    } else {
        None
    }
}

/// Whether `r` is the id of the first of `tracks` whose file is `path`,
/// or `None` when no track comes from that file.
pub open spec fn is_first_with_path(tracks: Seq<Arc<Track>>, path: Seq<char>, r: Option<u64>) -> bool {
    match r {
        Some(id) => {
            &&& 1 <= id <= tracks.len()
            &&& tracks[id - 1].pathbuf@ == path
            &&& forall|j: int| 0 <= j < id - 1 ==> (#[trigger] tracks[j]).pathbuf@ != path
        },
        None => forall|j: int| 0 <= j < tracks.len() ==> (#[trigger] tracks[j]).pathbuf@ != path,
    }
}

/// Whether no two of `tracks` come from the same file.
pub open spec fn distinct_paths(tracks: Seq<Arc<Track>>) -> bool {
    forall|i: int, j: int|
        0 <= i < tracks.len() && 0 <= j < tracks.len() && i != j ==> (#[trigger] tracks[i]).pathbuf@
            != (#[trigger] tracks[j]).pathbuf@
}

/// When no two tracks come from the same file, looking up the id of a
/// track's file gives back the id the track is listed under, and a file no
/// track comes from has no id.
pub proof fn lemma_id_of_path_reads_back(tracks: Seq<Arc<Track>>, id: u64, r: Option<u64>)
    requires
        distinct_paths(tracks),
        track_with_id(tracks, id) is Some,
        is_first_with_path(tracks, tracks[id - 1].pathbuf@, r),
    ensures
        r == Some(id),
{
    let path = tracks[id - 1].pathbuf@;
    match r {
        Some(k) => {
            if k != id {
                assert(tracks[k - 1].pathbuf@ == path);
                assert(tracks[k - 1].pathbuf@ != tracks[id - 1].pathbuf@);
            }
        },
        None => {
            assert(tracks[id - 1].pathbuf@ != path);
        },
    }
}

/// After a load, each id from 1 to the number of tracks reads back the
/// track loaded at that place, and every other id reads back nothing.
pub proof fn lemma_loaded_ids_read_back(lib: Seq<Arc<Track>>, tracks: Seq<Track>, id: u64)
    requires
        lib.len() == tracks.len(),
        forall|i: int| 0 <= i < tracks.len() ==> *(#[trigger] lib[i]) == tracks[i],
    ensures
        1 <= id <= tracks.len() ==> (track_with_id(lib, id) matches Some(t) && *t == tracks[id - 1]),
        (id == 0 || id > tracks.len()) ==> track_with_id(lib, id) is None,
{
}

/// Stepping an id forward and then back returns to the same id.
pub proof fn lemma_decrement_undoes_increment(v: u64)
    requires
        v < u64::MAX,
    ensures
        v + 1 > 0,
        (v + 1) - 1 == v,
{
}

/// All tracks the player knows, each under its id.
#[derive(Debug)]
pub struct Library {
    tracks: Vec<Arc<Track>>,
}

impl View for Library {
    type V = Seq<Arc<Track>>;

    /// The tracks in id order: the track with id `k` stands at index `k - 1`.
    closed spec fn view(&self) -> Seq<Arc<Track>> {
        self.tracks@
    }
}

impl Default for Library {
    fn default() -> (l: Library)
        ensures
            l@ == Seq::<Arc<Track>>::empty(),
    {
        Library { tracks: Vec::new() }
    }
}

impl Library {
    /// Replace the library's contents by `tracks`, giving them the ids 1, 2, ...
    /// in order.
    pub fn load(&mut self, tracks: Vec<Track>)
        ensures
            final(self)@.len() == tracks@.len(),
            forall|i: int| 0 <= i < tracks@.len() ==> *(#[trigger] final(self)@[i]) == tracks@[i],
    {
        self.tracks.clear();
        let ghost all = tracks@;
        let mut loaded: Vec<Arc<Track>> = Vec::new();
        for t in it: tracks
            invariant
                all == it.seq(),
                loaded@.len() == it.index(),
                forall|j: int| 0 <= j < loaded@.len() ==> *(#[trigger] loaded@[j]) == all[j],
        {
            loaded.push(Arc::new(t));
        }
        self.tracks = loaded;
    }

    /// The track listed under `id`, if any.
    pub fn get(&self, id: TrackId) -> (r: Option<Arc<Track>>)
        ensures
            r == track_with_id(self@, id@),
    {
        let n = self.tracks.len();
        if id.0 >= 1 && id.0 - 1 < n as u64 {
            let i = (id.0 - 1) as usize;
            Some(share_track(&self.tracks[i]))
        } else {
            None
        }
    }

    /// The id of the first track whose file is `path`; `None` when no
    /// track comes from that file.
    pub fn id_of_path(&self, path: &str) -> (r: Option<TrackId>)
        ensures
            is_first_with_path(self@, path@, match r {
                Some(id) => Some(id@),
                None => None,
            }),
    {
        let n = self.tracks.len();
        let mut i: usize = 0;
        while i < n
            invariant
                i <= n,
                n == self@.len(),
                forall|j: int| 0 <= j < i ==> (#[trigger] self@[j]).pathbuf@ != path@,
            decreases n - i,
        {
            if same_text(self.tracks[i].pathbuf.as_str(), path) {
                return Some(TrackId((i as u64) + 1));
            }
            i += 1;
        }
        None
    }

    /// How many tracks the library lists; their ids are 1 to this number.
    pub fn len(&self) -> (n: usize)
        ensures
            n == self@.len(),
    {
        self.tracks.len()
    }
}

} // verus!
