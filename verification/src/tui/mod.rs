//! Terminal UI: its state machine and the pure helpers it is built from.

pub mod app;
pub mod draw;
pub mod util;

use vstd::prelude::*;

use crate::text::{concat_str, str_equal};

verus! {

/// Order in which tracks follow each other during autoplay.
#[derive(Clone, Copy, Debug, PartialEq, Eq, Structural)]
pub enum PlaybackMode {
    Sequential,
    Shuffle,
}

/// The persisted name of a playback mode.
pub open spec fn mode_name(mode: PlaybackMode) -> Seq<char> {
    match mode {
        PlaybackMode::Sequential => "sequential"@,
        PlaybackMode::Shuffle => "shuffle"@,
    }
}

/// The displayed name of a playback mode.
pub open spec fn mode_label(mode: PlaybackMode) -> Seq<char> {
    match mode {
        PlaybackMode::Sequential => "Sequential"@,
        PlaybackMode::Shuffle => "Shuffle"@,
    }
}

/// The other playback mode.
pub open spec fn mode_toggled(mode: PlaybackMode) -> PlaybackMode {
    match mode {
        PlaybackMode::Sequential => PlaybackMode::Shuffle,
        PlaybackMode::Shuffle => PlaybackMode::Sequential,
    }
}

/// What parsing a persisted playback mode gives: the mode with that name, or
/// an error naming the unknown value.
pub open spec fn parsed_mode(value: Seq<char>) -> Result<PlaybackMode, Seq<char>> {
    if value == "sequential"@ {
        Ok(PlaybackMode::Sequential)
    } else if value == "shuffle"@ {
        Ok(PlaybackMode::Shuffle)
    } else {
        Err("unknown playback mode: "@ + value)
    }
}

impl PlaybackMode {
    /// Switches between sequential and shuffle.
    pub fn next(self) -> (m: Self)
        ensures
            m == mode_toggled(self),
    {
        match self {
            PlaybackMode::Sequential => PlaybackMode::Shuffle,
            PlaybackMode::Shuffle => PlaybackMode::Sequential,
        }
    }

    pub fn label(self) -> (l: &'static str)
        ensures
            l@ == mode_label(self),
    {
        match self {
            PlaybackMode::Sequential => "Sequential",
            PlaybackMode::Shuffle => "Shuffle",
        }
    }

    pub fn as_str(self) -> (s: &'static str)
        ensures
            s@ == mode_name(self),
    {
        match self {
            PlaybackMode::Sequential => "sequential",
            PlaybackMode::Shuffle => "shuffle",
        }
    }

    /// Parses a persisted playback mode name.
    pub fn parse(value: &str) -> (r: Result<Self, String>)
        ensures
            match r {
                Ok(m) => parsed_mode(value@) == Ok::<PlaybackMode, Seq<char>>(m),
                Err(e) => parsed_mode(value@) == Err::<PlaybackMode, Seq<char>>(e@),
            },
    {
        if str_equal(value, "sequential") {
            Ok(PlaybackMode::Sequential)
        } else if str_equal(value, "shuffle") {
            Ok(PlaybackMode::Shuffle)
        } else {
            Err(concat_str("unknown playback mode: ", value))
        }
    }
}

impl std::str::FromStr for PlaybackMode {
    type Err = String;

    fn from_str(value: &str) -> (r: Result<Self, String>)
        ensures
            match r {
                Ok(v) => parsed_mode(value@) == Ok::<PlaybackMode, Seq<char>>(v),
                Err(e) => parsed_mode(value@) == Err::<PlaybackMode, Seq<char>>(e@),
            },
    {
        PlaybackMode::parse(value)
    }
}

/// Law: a mode's persisted name parses back to the mode, and toggling twice
/// returns to the mode while toggling once always changes it.
pub proof fn law_playback_mode_round_trip(mode: PlaybackMode)
    ensures
        parsed_mode(mode_name(mode)) == Ok::<PlaybackMode, Seq<char>>(mode),
        mode_toggled(mode_toggled(mode)) == mode,
        mode_toggled(mode) != mode,
{
    reveal_strlit("sequential");
    reveal_strlit("shuffle");
    assert("shuffle"@.len() != "sequential"@.len());
}

/// Law: only the two persisted names parse; anything else is refused.
pub proof fn law_playback_mode_rejects_unknown(value: Seq<char>)
    requires
        value != "sequential"@,
        value != "shuffle"@,
    ensures
        parsed_mode(value) is Err,
{
}

} // verus!
