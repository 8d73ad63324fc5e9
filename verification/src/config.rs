use vstd::prelude::*;
use vstd::string::*;

verus! {

/// The player's settings.
pub struct Config {
    pub library: LibraryConfig,
}

/// Where the library looks for audio files.
pub struct LibraryConfig {
    pub directories: Vec<String>,
}

/// The settings text up to the audio directory.
pub const DEFAULT_CONFIG_HEAD: &'static str = "[library]\n        directories = [\n            \"";

/// The settings text after the audio directory.
pub const DEFAULT_CONFIG_TAIL: &'static str = "\",\n        ]\n            ";

/// The settings written when none exist: a library with the one directory
/// `audio_dir`.
pub open spec fn default_config(audio_dir: Seq<char>) -> Seq<char> {
    DEFAULT_CONFIG_HEAD@ + audio_dir + DEFAULT_CONFIG_TAIL@
}

impl Config {
    /// The text of the settings file written when none exists.
    pub fn default_config_text(audio_dir: &str) -> (r: String)
        ensures
            r@ == default_config(audio_dir@),
    {
        let mut text = String::from_str(DEFAULT_CONFIG_HEAD);
        text.append(audio_dir);
        text.append(DEFAULT_CONFIG_TAIL);
        text
    }
}

} // verus!
