//! Domain model: repositories, tracks and playback state.

use vstd::prelude::*;

use crate::text::{concat_str, lowercase_str, str_equal, str_lowercase};

verus! {

/// Where a repository's tracks come from.
#[derive(Clone, Copy, Debug, PartialEq, Eq, Structural)]
pub enum RepositorySource {
    GitHub,
    WebDav,
}

/// The lower-case name under which a source kind is persisted.
pub open spec fn source_name(source: RepositorySource) -> Seq<char> {
    match source {
        RepositorySource::GitHub => "github"@,
        RepositorySource::WebDav => "webdav"@,
    }
}

/// What parsing a persisted source kind gives: the kind with that name, or
/// an error naming the unknown value.
pub open spec fn parsed_source(value: Seq<char>) -> Result<RepositorySource, Seq<char>> {
    if value == "github"@ {
        Ok(RepositorySource::GitHub)
    } else if value == "webdav"@ {
        Ok(RepositorySource::WebDav)
    } else {
        Err("Unknown repository source type: "@ + value)
    }
}

impl RepositorySource {
    /// Parses a persisted source kind.
    pub fn parse(value: &str) -> (r: Result<Self, String>)
        ensures
            match r {
                Ok(s) => parsed_source(value@) == Ok::<RepositorySource, Seq<char>>(s),
                Err(e) => parsed_source(value@) == Err::<RepositorySource, Seq<char>>(e@),
            },
    {
        if str_equal(value, "github") {
            Ok(RepositorySource::GitHub)
        } else if str_equal(value, "webdav") {
            Ok(RepositorySource::WebDav)
        } else {
            Err(concat_str("Unknown repository source type: ", value))
        }
    }

    /// The persisted name of this source kind.
    pub fn as_str(self) -> (name: &'static str)
        ensures
            name@ == source_name(self),
    {
        match self {
            RepositorySource::GitHub => "github",
            RepositorySource::WebDav => "webdav",
        }
    }
}

impl std::str::FromStr for RepositorySource {
    type Err = String;

    fn from_str(value: &str) -> (r: Result<Self, String>)
        ensures
            match r {
                Ok(v) => parsed_source(value@) == Ok::<RepositorySource, Seq<char>>(v),
                Err(e) => parsed_source(value@) == Err::<RepositorySource, Seq<char>>(e@),
            },
    {
        RepositorySource::parse(value)
    }
}

/// Law: a source kind's persisted name parses back to the kind.
pub proof fn law_source_round_trip(source: RepositorySource)
    ensures
        parsed_source(source_name(source)) == Ok::<RepositorySource, Seq<char>>(source),
{
    reveal_strlit("github");
    reveal_strlit("webdav");
    assert("github"@[0] != "webdav"@[0]);
}

/// The lower-case file extensions of the audio formats the player streams.
pub open spec fn audio_ext(ext: Seq<char>) -> bool {
    ext == "mp3"@ || ext == "flac"@ || ext == "wav"@ || ext == "ogg"@ || ext == "m4a"@
        || ext == "aac"@ || ext == "wma"@
}

/// Whether `ext` is the extension of a supported audio format.
pub fn is_audio_format(ext: &str) -> (b: bool)
    ensures
        b == audio_ext(ext@),
{
    str_equal(ext, "mp3") || str_equal(ext, "flac") || str_equal(ext, "wav") || str_equal(ext, "ogg")
        || str_equal(ext, "m4a") || str_equal(ext, "aac") || str_equal(ext, "wma")
}

/// The extension of a file name, as `Path::extension` reads it.
pub uninterp spec fn path_extension(name: Seq<char>) -> Option<Seq<char>>;

/// `Path::extension` of a file name, taken as text: the part after the last
/// dot, where there is one that does not start the name. Its exact rules
/// are left to the name.
#[verifier::external_body]
pub(crate) fn file_extension(name: &str) -> (r: Option<String>)
    ensures
        match r {
            Some(e) => path_extension(name@) == Some(e@),
            None => path_extension(name@) is None,
        },
{
    std::path::Path::new(name).extension().map(|e| e.to_string_lossy().into_owned())
}

/// A track found under file name `name` with format `format` is an audio
/// file: the format is the lower-cased extension of the name, and one of
/// the audio formats.
pub open spec fn is_audio_file(name: Seq<char>, format: Seq<char>) -> bool {
    audio_format_of(name) == Some(format) && audio_ext(format)
}

/// The lower-cased extension of a file name, when it names an audio format.
pub open spec fn audio_format_of(name: Seq<char>) -> Option<Seq<char>> {
    match path_extension(name) {
        Some(e) => if audio_ext(str_lowercase(e)) {
            Some(str_lowercase(e))
        } else {
            None
        },
        None => None,
    }
}

/// The audio format of a file, by its lower-cased extension.
pub fn audio_format_of_name(name: &str) -> (r: Option<String>)
    ensures
        match r {
            Some(f) => audio_format_of(name@) == Some(f@),
            None => audio_format_of(name@) is None,
        },
{
    match file_extension(name) {
        Some(ext) => {
            let lower = lowercase_str(ext.as_str());
            if is_audio_format(lower.as_str()) {
                Some(lower)
            } else {
                None
            }
        },
        None => None,
    }
}

} // verus!

verus! {

/// File-system paths, carried through unchanged.
#[verifier::external_type_specification]
#[verifier::external_body]
pub struct ExPathBuf(std::path::PathBuf);

/// `Clone` of `std::time::Duration`, a `Copy` type: the clone is the same value.
pub assume_specification[ <std::time::Duration as Clone>::clone ](d: &std::time::Duration) -> (r: std::time::Duration)
    ensures
        r == *d,
;

/// `Clone` of `std::path::PathBuf`: the clone holds the same path.
pub assume_specification[ <std::path::PathBuf as Clone>::clone ](p: &std::path::PathBuf) -> (r: std::path::PathBuf)
    ensures
        r == *p,
;

/// An instant in UTC, as seconds and nanoseconds since the Unix epoch.
#[derive(Debug, Clone, Copy, PartialEq, Eq, Structural)]
pub struct Timestamp {
    pub seconds: i64,
    pub nanoseconds: u32,
}

/// Instants of the system clock, carried through unchanged.
#[verifier::external_type_specification]
#[verifier::external_body]
pub struct ExSystemTime(std::time::SystemTime);

/// `SystemTime::now`: the current time of the system clock. It depends on
/// the machine, so nothing is stated of it.
#[verifier::external_body]
fn system_time_now() -> std::time::SystemTime {
    std::time::SystemTime::now()
}

/// `SystemTime::duration_since(UNIX_EPOCH)`, as whole seconds and the
/// nanoseconds past them; none where the time lies before the epoch. What
/// the documentation of `Duration::subsec_nanos` promises is stated: the
/// nanoseconds are below one second.
#[verifier::external_body]
fn since_unix_epoch(t: &std::time::SystemTime) -> (r: Option<(u64, u32)>)
    ensures
        r matches Some((_, nanos)) ==> nanos < 1_000_000_000,
{
    match t.duration_since(std::time::UNIX_EPOCH) {
        Ok(d) => Some((d.as_secs(), d.subsec_nanos())),
        Err(_) => None,
    }
}

/// The current time in UTC, as seconds and nanoseconds since the Unix
/// epoch; none where the system clock reads a time before the epoch or too
/// far after it for the seconds to fit an `i64`. The current time is not
/// predictable, so only the shape of the result is stated.
pub(crate) fn now_utc() -> (r: Option<Timestamp>)
    ensures
        r matches Some(t) ==> t.seconds >= 0 && t.nanoseconds < 1_000_000_000,
{
    let now = system_time_now();
    match since_unix_epoch(&now) {
        Some((seconds, nanoseconds)) => if seconds <= 9223372036854775807u64 {
            Some(Timestamp { seconds: seconds as i64, nanoseconds })
        } else {
            None
        },
        None => None,
    }
}

/// A music source: a GitHub repository or a WebDAV collection.
#[derive(Debug, Clone)]
pub struct Repository {
    pub id: i64,
    pub owner: String,
    pub name: String,
    pub url: String,
    pub source_type: RepositorySource,
    pub cache_enabled: bool,
    pub username: Option<String>,
    pub password: Option<String>,
    pub added_at: Timestamp,
    pub last_scanned: Option<Timestamp>,
    pub track_count: u32,
    /// Cached ETag of the last successful GitHub Git Trees response.
    pub tree_etag: Option<String>,
}

/// One audio file of a repository.
#[derive(Debug, Clone)]
pub struct Track {
    pub id: i64,
    pub repository_id: i64,
    pub path: String,
    pub name: String,
    pub format: String,
    pub size: u64,
    pub duration: Option<std::time::Duration>,
    pub url: String,
    pub local_path: Option<std::path::PathBuf>,
    pub downloaded: bool,
    pub discovered_at: Timestamp,
    pub favorite: bool,
    pub blacklisted: bool,
}

/// A track can be played from disk when it is marked downloaded, has a local
/// path, and a file exists there.
pub open spec fn playable(track: Track, local_file_exists: bool) -> bool {
    track.downloaded && track.local_path is Some && local_file_exists
}

/// Two tracks hold the same values, field by field.
pub open spec fn same_track(a: Track, b: Track) -> bool {
    &&& a.id == b.id
    &&& a.repository_id == b.repository_id
    &&& a.path@ == b.path@
    &&& a.name@ == b.name@
    &&& a.format@ == b.format@
    &&& a.size == b.size
    &&& a.duration == b.duration
    &&& a.url@ == b.url@
    &&& a.local_path == b.local_path
    &&& a.downloaded == b.downloaded
    &&& a.discovered_at == b.discovered_at
    &&& a.favorite == b.favorite
    &&& a.blacklisted == b.blacklisted
}

impl Track {
    /// A copy of the track.
    pub fn duplicate(&self) -> (t: Track)
        ensures
            same_track(t, *self),
    {
        Track {
            id: self.id,
            repository_id: self.repository_id,
            path: self.path.clone(),
            name: self.name.clone(),
            format: self.format.clone(),
            size: self.size,
            duration: match &self.duration {
                Some(d) => Some(d.clone()),
                None => None,
            },
            url: self.url.clone(),
            local_path: match &self.local_path {
                Some(p) => Some(p.clone()),
                None => None,
            },
            downloaded: self.downloaded,
            discovered_at: self.discovered_at,
            favorite: self.favorite,
            blacklisted: self.blacklisted,
        }
    }

    /// The track once its file is on disk at `path`; it counts as
    /// downloaded when kept in the cache.
    pub fn with_local_file(self, path: std::path::PathBuf, downloaded: bool) -> (t: Track)
        ensures
            t == (Track { local_path: Some(path), downloaded, ..self }),
            t.local_path == Some(path),
            t.downloaded == downloaded,
            t.id == self.id && t.repository_id == self.repository_id && t.path == self.path
                && t.name == self.name && t.format == self.format && t.size == self.size
                && t.duration == self.duration && t.url == self.url && t.discovered_at
                == self.discovered_at && t.favorite == self.favorite && t.blacklisted
                == self.blacklisted,
    {
        Track { local_path: Some(path), downloaded, ..self }
    }

    /// Whether the track can be played from disk; `local_file_exists` tells
    /// whether a file exists at `local_path`.
    pub fn is_playable(&self, local_file_exists: bool) -> (b: bool)
        ensures
            b == playable(*self, local_file_exists),
    {
        self.downloaded && self.local_path.is_some() && local_file_exists
    }
}

/// State of the audio output.
#[derive(Debug, Clone, Copy, PartialEq, Eq, Structural)]
pub enum PlaybackState {
    Stopped,
    Playing,
    Paused,
}

/// Descriptive metadata of an audio file.
#[derive(Debug, Clone)]
pub struct AudioMetadata {
    pub title: String,
    pub artist: Option<String>,
    pub album: Option<String>,
    pub duration: std::time::Duration,
    pub format: String,
}

/// Application settings.
#[derive(Debug, Clone)]
pub struct AppConfig {
    pub cache_dir: std::path::PathBuf,
    /// In bytes.
    pub max_cache_size: u64,
    pub github_api_rate_limit: u32,
    pub audio_buffer_size: u32,
    pub theme: String,
}

} // verus!
