use vstd::prelude::*;
use vstd::string::*;

use std::sync::Arc;
use std::time::Duration;

use crate::images::{decoded_size, decodes_as_image, is_fitted_size, resize_picture_lanczos3, Picture, PictureOrigin};
use crate::paths::{file_stem_of, join_path, path_file_stem, path_join};

verus! {

/// `Duration` is `Copy`; its `clone` gives back the same value.
pub assume_specification[ <Duration as Clone>::clone ](d: &Duration) -> (res: Duration)
    ensures
        res == *d,
;

/// The side of the square that cached cover art is scaled to fit in.
pub const THUMB_SIZE: u32 = 1000;

/// Tags read from an audio file.
#[derive(Clone, Debug, Default)]
pub struct Metadata {
    pub length: u128,
    pub album: Option<String>,
    pub title: String,
    pub artist: Option<String>,
    pub disc_number: Option<u32>,
    pub genre: Option<String>,
    pub year: Option<u32>,
    pub cover_art_path: Option<String>,
}

/// Technical properties of an audio stream.
#[derive(Clone, Debug)]
pub struct Properties {
    pub bitrate: Option<u32>,
    pub bit_depth: Option<u8>,
    pub channels: Option<u8>,
    pub sample_rate: Option<u32>,
    pub duration: Duration,
}

/// Everything the player keeps about one track.
#[derive(Clone, Debug)]
pub struct Track {
    pub pathbuf: String,
    pub metadata: Metadata,
    pub properties: Properties,
}

/// The name of the cached cover art of an audio file with file stem `stem`:
/// the stem, or `Untitled` when there is none, with the extension `.jpg`.
pub open spec fn cover_art_name(stem: Option<Seq<char>>) -> Seq<char> {
    match stem {
        Some(s) => s + ".jpg"@,
        None => "Untitled"@ + ".jpg"@,
    }
}

/// The picture a tag offers as cover art, given for each of its pictures
/// whether it is a front cover: the first front cover, else the first
/// picture.
pub open spec fn is_cover_choice(front: Seq<bool>, r: Option<usize>) -> bool {
    match r {
        None => front.len() == 0,
        Some(i) => {
            &&& i < front.len()
            &&& forall|j: int| 0 <= j < i ==> !(#[trigger] front[j])
            &&& (front[i as int] || (i == 0 && forall|j: int| 0 <= j < front.len() ==> !(#[trigger] front[j])))
        },
    }
}

impl Metadata {
    /// The file name under which the cover art of a track is cached.
    pub fn cover_art_file_name(stem: Option<String>) -> (r: String)
        ensures
            r@ == cover_art_name(
                match stem {
                    Some(s) => Some(s@),
                    None => None,
                },
            ),
    {
        let mut name = match stem {
            Some(s) => s,
            None => String::from_str("Untitled"),
        };
        name.append(".jpg");
        name
    }

    /// Where the cover art of the audio file at `audio_path` is cached, in
    /// the cache directory `cache_dir`.
    pub fn cover_art_path(cache_dir: &str, audio_path: &str) -> (r: String)
        ensures
            r@ == path_join(cache_dir@, cover_art_name(path_file_stem(audio_path@))),
    {
        let name = Self::cover_art_file_name(file_stem_of(audio_path));
        join_path(cache_dir, name.as_str())
    }

    /// The thumbnail cached for a cover picture: the picture's bytes
    /// decoded and scaled to the largest size that fits in a `THUMB_SIZE`
    /// square, keeping the aspect ratio; `None` when the bytes hold no
    /// image that can be decoded.
    pub fn cover_thumbnail(picture: &[u8]) -> (r: Option<Picture>)
        ensures
            r is Some <==> decodes_as_image(picture@),
            r matches Some(t) ==> {
                &&& is_fitted_size(decoded_size(picture@), (THUMB_SIZE, THUMB_SIZE), (t@.width, t@.height))
                &&& t@.origin == PictureOrigin::Resized(
                    Box::new(PictureOrigin::Decoded(picture@)),
                    THUMB_SIZE,
                    THUMB_SIZE,
                )
            },
    {
        match Picture::decode(picture) {
            Some(img) => Some(resize_picture_lanczos3(&img, THUMB_SIZE, THUMB_SIZE)),
            None => None,
        }
    }

    /// Which of a tag's pictures to cache as cover art; `front[i]` tells
    /// whether picture `i` is a front cover.
    pub fn cover_picture_index(front: &Vec<bool>) -> (r: Option<usize>)
        ensures
            is_cover_choice(front@, r),
    {
        let n = front.len();
        let mut i: usize = 0;
        while i < n
            invariant
                i <= n,
                n == front@.len(),
                forall|j: int| 0 <= j < i ==> !(#[trigger] front@[j]),
            decreases n - i,
        {
            if front[i] {
                return Some(i);
            }
            i += 1;
        }
        if n > 0 {
            Some(0)
        } else {
            None
        }
    }
}

/// Calls `Arc::clone`: a new pointer to the same track, so the same value.
#[verifier::external_body]
pub(crate) fn share_track(t: &Arc<Track>) -> (r: Arc<Track>)
    ensures
        r == *t,
{
    Arc::clone(t)
}

} // verus!
