//! Pure helpers of the terminal UI: track-list filters, search, selection
//! movement, autoplay order and the scrolling status text.

use pinyin::ToPinyin;
use unicode_width::UnicodeWidthChar;
use unicode_width::UnicodeWidthStr;
use vstd::prelude::*;

use crate::models::{playable, PlaybackState, Track};
use crate::text::{
    alphanumeric_only, append_chars, char_lowercase, chars_of, contains_chars, contains_seq, copy_range,
    i64_to_decimal, int_decimal, lowercase_of, normalize_chars, occurs_at, search_normalized, string_of,
};

pub use crate::text::normalize_search_text;

verus! {

pub const INITIAL_STREAM_BUFFER_BYTES: u64 = 256 * 1024;
pub const DEFAULT_TRACKS_PAGE_STEP: usize = 10;
pub const TAB_REPOSITORIES: usize = 0;
pub const TAB_TRACKS: usize = 1;
pub const TAB_FAVORITES: usize = 2;
pub const TAB_BLACKLIST: usize = 3;
pub const TAB_COUNT: usize = 4;

/// Which subset of the library a track tab shows.
#[derive(Clone, Copy, Debug, PartialEq, Eq, Structural)]
pub enum TrackListFilter {
    Tracks,
    Favorites,
    Blacklist,
}

/// Whether a track belongs to the list a filter shows.
pub open spec fn filter_includes(filter: TrackListFilter, track: Track) -> bool {
    match filter {
        TrackListFilter::Tracks => !track.blacklisted,
        TrackListFilter::Favorites => track.favorite && !track.blacklisted,
        TrackListFilter::Blacklist => track.blacklisted,
    }
}

/// How many tracks of `tracks` a filter shows.
pub open spec fn included_count(filter: TrackListFilter, tracks: Seq<Track>) -> nat
    decreases tracks.len(),
{
    if tracks.len() == 0 {
        0
    } else {
        included_count(filter, tracks.drop_last()) + if filter_includes(filter, tracks.last()) {
            1nat
        } else {
            0nat
        }
    }
}

/// Title of a track tab.
pub open spec fn filter_label(filter: TrackListFilter) -> Seq<char> {
    match filter {
        TrackListFilter::Tracks => "Tracks"@,
        TrackListFilter::Favorites => "Favorites"@,
        TrackListFilter::Blacklist => "Blacklist"@,
    }
}

proof fn lemma_included_count_bounded(filter: TrackListFilter, tracks: Seq<Track>)
    ensures
        included_count(filter, tracks) <= tracks.len(),
    decreases tracks.len(),
{
    if tracks.len() > 0 {
        lemma_included_count_bounded(filter, tracks.drop_last());
    }
}

impl TrackListFilter {
    pub fn label(self) -> (l: &'static str)
        ensures
            l@ == filter_label(self),
    {
        match self {
            TrackListFilter::Tracks => "Tracks",
            TrackListFilter::Favorites => "Favorites",
            TrackListFilter::Blacklist => "Blacklist",
        }
    }

    pub fn includes(self, track: &Track) -> (b: bool)
        ensures
            b == filter_includes(self, *track),
    {
        match self {
            TrackListFilter::Tracks => !track.blacklisted,
            TrackListFilter::Favorites => track.favorite && !track.blacklisted,
            TrackListFilter::Blacklist => track.blacklisted,
        }
    }

    /// Tracks of this list may be played (blacklisted ones may not).
    pub fn can_play(self) -> (b: bool)
        ensures
            b == (self != TrackListFilter::Blacklist),
    {
        match self {
            TrackListFilter::Tracks | TrackListFilter::Favorites => true,
            TrackListFilter::Blacklist => false,
        }
    }

    pub fn count(self, tracks: &[Track]) -> (n: usize)
        ensures
            n == included_count(self, tracks@),
    {
        let mut n: usize = 0;
        let mut i: usize = 0;
        while i < tracks.len()
            invariant
                i <= tracks@.len(),
                n == included_count(self, tracks@.take(i as int)),
            decreases tracks@.len() - i,
        {
            assert(tracks@.take(i + 1).drop_last() =~= tracks@.take(i as int));
            proof {
                lemma_included_count_bounded(self, tracks@.take(i as int));
            }
            if self.includes(&tracks[i]) {
                n = n + 1;
            }
            i = i + 1;
        }
        assert(tracks@.take(tracks@.len() as int) =~= tracks@);
        n
    }
}

/// The track list a tab shows: none for the repositories tab and for numbers
/// past the last tab.
pub open spec fn tab_filter(tab: usize) -> Option<TrackListFilter> {
    if tab == TAB_TRACKS {
        Some(TrackListFilter::Tracks)
    } else if tab == TAB_FAVORITES {
        Some(TrackListFilter::Favorites)
    } else if tab == TAB_BLACKLIST {
        Some(TrackListFilter::Blacklist)
    } else {
        None
    }
}

pub fn track_list_filter_for_tab(tab: usize) -> (f: Option<TrackListFilter>)
    ensures
        f == tab_filter(tab),
{
    if tab == TAB_TRACKS {
        Some(TrackListFilter::Tracks)
    } else if tab == TAB_FAVORITES {
        Some(TrackListFilter::Favorites)
    } else if tab == TAB_BLACKLIST {
        Some(TrackListFilter::Blacklist)
    } else {
        None
    }
}

/// Law: the tabs are the repositories tab followed by one tab per track list,
/// with no holes: every tab from the first track tab up to the tab count
/// shows a track list, and the others show none.
pub proof fn law_tabs_cover_track_lists(tab: usize)
    ensures
        (TAB_TRACKS <= tab < TAB_COUNT) <==> tab_filter(tab) is Some,
        tab_filter(TAB_REPOSITORIES) is None,
{
}

/// How many bytes to buffer before streamed playback starts.
pub fn initial_buffer_bytes(track: &Track) -> (n: u64)
    ensures
        n == (if track.size == 0 || track.size > INITIAL_STREAM_BUFFER_BYTES {
            INITIAL_STREAM_BUFFER_BYTES
        } else {
            track.size
        }),
{
    if track.size == 0 {
        INITIAL_STREAM_BUFFER_BYTES
    } else if INITIAL_STREAM_BUFFER_BYTES < track.size {
        INITIAL_STREAM_BUFFER_BYTES
    } else {
        track.size
    }
}

/// Cache column icon: a check mark for a playable local copy, an arrow while
/// caching, nothing otherwise.
pub fn cache_icon(track: &Track, local_file_exists: bool, is_caching: bool) -> (icon: &'static str)
    ensures
        icon@ == (if playable(*track, local_file_exists) {
            "✓"@
        } else if is_caching {
            "↓"@
        } else {
            ""@
        }),
{
    if track.is_playable(local_file_exists) {
        "✓"
    } else if is_caching {
        "↓"
    } else {
        ""
    }
}

/// Cache column label: `Cached` when the local copy is complete, `Caching`
/// while the track is being written, `-` otherwise.
pub fn cache_label(track: &Track, local_file_exists: bool, is_caching: bool) -> (label: &'static str)
    ensures
        label@ == (if playable(*track, local_file_exists) {
            "Cached"@
        } else if is_caching {
            "Caching"@
        } else {
            "-"@
        }),
{
    if track.is_playable(local_file_exists) {
        "Cached"
    } else if is_caching {
        "Caching"
    } else {
        "-"
    }
}

pub fn favorite_icon(track: &Track) -> (icon: &'static str)
    ensures
        icon@ == (if track.favorite {
            "♥"@
        } else {
            ""@
        }),
{
    if track.favorite {
        "♥"
    } else {
        ""
    }
}

/// A rectangle of terminal cells.
#[derive(Clone, Copy, Debug, PartialEq, Eq, Structural)]
pub struct Rect {
    pub x: u16,
    pub y: u16,
    pub width: u16,
    pub height: u16,
}

/// Rows of the tracks table that a page moves by: the table height minus its
/// borders and header row, at least one.
pub fn track_page_step_for_area(area: Rect) -> (step: usize)
    ensures
        step == (if area.height >= 4 {
            area.height - 3
        } else {
            1
        }),
{
    let rows = area.height.saturating_sub(3);
    if rows > 1 {
        rows as usize
    } else {
        1
    }
}

/// Pinyin of a CJK character (`pinyin::ToPinyin`): its plain spelling and
/// its first letter; none for characters without a reading.
pub uninterp spec fn char_pinyin(c: char) -> Option<(Seq<char>, Seq<char>)>;

/// `ToPinyin::to_pinyin` with `Pinyin::plain` and `Pinyin::first_letter`.
/// The reading tables are not restated; the result is named by `char_pinyin`.
#[verifier::external_body]
fn pinyin_of(c: char) -> (r: Option<(String, String)>)
    ensures
        match r {
            Some((plain, first)) => char_pinyin(c) == Some((plain@, first@)),
            None => char_pinyin(c) is None,
        },
{
    match c.to_pinyin() {
        Some(p) => Some((p.plain().to_string(), p.first_letter().to_string())),
        None => None,
    }
}

/// What one character contributes to the pinyin search text: its plain
/// pinyin (or its first letter, for `initials`), and for characters without
/// pinyin their lowercase alphanumeric characters.
pub open spec fn pinyin_part(c: char, initials: bool) -> Seq<char> {
    match char_pinyin(c) {
        Some((plain, first)) => if initials {
            first
        } else {
            plain
        },
        None => alphanumeric_only(char_lowercase(c)),
    }
}

/// The pinyin search text of a string (full spelling or initials).
pub open spec fn pinyin_text(s: Seq<char>, initials: bool) -> Seq<char>
    decreases s.len(),
{
    if s.len() == 0 {
        seq![]
    } else {
        pinyin_text(s.drop_last(), initials) + pinyin_part(s.last(), initials)
    }
}

fn pinyin_chars(value: &[char]) -> (r: (Vec<char>, Vec<char>))
    ensures
        r.0@ == pinyin_text(value@, false),
        r.1@ == pinyin_text(value@, true),
{
    let mut full: Vec<char> = Vec::new();
    let mut initials: Vec<char> = Vec::new();
    let mut i: usize = 0;
    while i < value.len()
        invariant
            i <= value@.len(),
            full@ == pinyin_text(value@.take(i as int), false),
            initials@ == pinyin_text(value@.take(i as int), true),
        decreases value@.len() - i,
    {
        let c = value[i];
        assert(value@.take(i + 1).drop_last() =~= value@.take(i as int));
        match pinyin_of(c) {
            Some((plain, first)) => {
                append_chars(&mut full, &chars_of(plain.as_str()));
                append_chars(&mut initials, &chars_of(first.as_str()));
            },
            None => {
                let lower = lowercase_of(c);
                let mut j: usize = 0;
                let ghost full0 = full@;
                let ghost init0 = initials@;
                while j < lower.len()
                    invariant
                        j <= lower@.len(),
                        lower@ == char_lowercase(c),
                        full@ == full0 + alphanumeric_only(lower@.take(j as int)),
                        initials@ == init0 + alphanumeric_only(lower@.take(j as int)),
                    decreases lower@.len() - j,
                {
                    let l = lower[j];
                    assert(lower@.take(j + 1).drop_last() =~= lower@.take(j as int));
                    if crate::text::is_alphanumeric(l) {
                        full.push(l);
                        initials.push(l);
                    }
                    j = j + 1;
                }
                assert(lower@.take(lower@.len() as int) =~= lower@);
            },
        }
        i = i + 1;
    }
    assert(value@.take(value@.len() as int) =~= value@);
    (full, initials)
}

/// The full pinyin and the pinyin initials of `value`, for search.
pub fn pinyin_search_text(value: &str) -> (r: (String, String))
    ensures
        r.0@ == pinyin_text(value@, false),
        r.1@ == pinyin_text(value@, true),
{
    let cs = chars_of(value);
    let (full, initials) = pinyin_chars(&cs);
    (string_of(&full), string_of(&initials))
}

/// The text a track is searched by: name, path, format and id, separated by
/// spaces.
pub open spec fn searchable_text(track: Track) -> Seq<char> {
    track.name@ + " "@ + track.path@ + " "@ + track.format@ + " "@ + int_decimal(track.id as int)
}

/// A track matches a query when the normalized query is empty, or occurs in
/// the normalized searchable text, its full pinyin, or its pinyin initials.
pub open spec fn matches_search(track: Track, query: Seq<char>) -> bool {
    let q = search_normalized(query);
    let text = searchable_text(track);
    ||| q.len() == 0
    ||| contains_seq(search_normalized(text), q)
    ||| contains_seq(pinyin_text(text, false), q)
    ||| contains_seq(pinyin_text(text, true), q)
}

proof fn lemma_search_normalized_concat(a: Seq<char>, b: Seq<char>)
    ensures
        search_normalized(a + b) == search_normalized(a) + search_normalized(b),
    decreases b.len(),
{
    if b.len() == 0 {
        assert(a + b =~= a);
        assert(search_normalized(a) + search_normalized(b) =~= search_normalized(a));
    } else {
        lemma_search_normalized_concat(a, b.drop_last());
        assert((a + b).drop_last() =~= a + b.drop_last());
        assert((a + b).last() == b.last());
        assert(search_normalized(a + b) =~= search_normalized(a) + search_normalized(b));
    }
}

/// Two texts that differ only in the case of their characters: of the same
/// length, with the same lower-case form at every position.
pub open spec fn same_up_to_case(a: Seq<char>, b: Seq<char>) -> bool {
    &&& a.len() == b.len()
    &&& forall|i: int| 0 <= i < a.len() ==> #[trigger] char_lowercase(a[i]) == char_lowercase(b[i])
}

proof fn lemma_search_normalized_ignores_case(a: Seq<char>, b: Seq<char>)
    requires
        same_up_to_case(a, b),
    ensures
        search_normalized(a) == search_normalized(b),
    decreases a.len(),
{
    if a.len() > 0 {
        let (a0, b0) = (a.drop_last(), b.drop_last());
        assert forall|i: int| 0 <= i < a0.len() implies #[trigger] char_lowercase(a0[i]) == char_lowercase(b0[i]) by {
            assert(a0[i] == a[i] && b0[i] == b[i]);
            assert(char_lowercase(a[i]) == char_lowercase(b[i]));
        }
        lemma_search_normalized_ignores_case(a0, b0);
        assert(char_lowercase(a[a.len() - 1]) == char_lowercase(b[b.len() - 1]));
    }
}

/// Law: search ignores the case of the query: two queries that differ only
/// in the case of their characters match exactly the same tracks.
pub proof fn law_search_ignores_case(track: Track, a: Seq<char>, b: Seq<char>)
    requires
        same_up_to_case(a, b),
    ensures
        matches_search(track, a) == matches_search(track, b),
{
    lemma_search_normalized_ignores_case(a, b);
}

/// Law: every track matches a search for its own name, whatever the case
/// the name is typed in.
pub proof fn law_track_matches_its_own_name(track: Track, query: Seq<char>)
    requires
        same_up_to_case(query, track.name@),
    ensures
        matches_search(track, query),
{
    lemma_search_normalized_ignores_case(query, track.name@);
    let q = search_normalized(track.name@);
    let rest = " "@ + track.path@ + " "@ + track.format@ + " "@ + int_decimal(track.id as int);
    assert(searchable_text(track) =~= track.name@ + rest);
    lemma_search_normalized_concat(track.name@, rest);
    let text = search_normalized(searchable_text(track));
    assert(text.subrange(0, q.len() as int) =~= q);
    assert(occurs_at(text, q, 0));
}

fn searchable_chars(track: &Track) -> (r: Vec<char>)
    ensures
        r@ == searchable_text(*track),
{
    proof {
        reveal_strlit(" ");
    }
    let mut text = chars_of(track.name.as_str());
    text.push(' ');
    append_chars(&mut text, &chars_of(track.path.as_str()));
    text.push(' ');
    append_chars(&mut text, &chars_of(track.format.as_str()));
    text.push(' ');
    append_chars(&mut text, &i64_to_decimal(track.id));
    assert(text@ =~= searchable_text(*track));
    text
}

fn matches_normalized_query(track: &Track, query: &[char]) -> (b: bool)
    requires
        query@.len() > 0,
    ensures
        b == (contains_seq(search_normalized(searchable_text(*track)), query@)
            || contains_seq(pinyin_text(searchable_text(*track), false), query@)
            || contains_seq(pinyin_text(searchable_text(*track), true), query@)),
{
    let text = searchable_chars(track);
    if contains_chars(&normalize_chars(&text), query) {
        return true;
    }
    let (full, initials) = pinyin_chars(&text);
    contains_chars(&full, query) || contains_chars(&initials, query)
}

/// Whether a track matches a search query by text, pinyin or initials.
pub fn track_matches_search(track: &Track, query: &str) -> (b: bool)
    ensures
        b == matches_search(*track, query@),
        same_up_to_case(query@, track.name@) ==> b,
{
    proof {
        if same_up_to_case(query@, track.name@) {
            law_track_matches_its_own_name(*track, query@);
        }
    }
    let q = normalize_chars(&chars_of(query));
    if q.len() == 0 {
        return true;
    }
    matches_normalized_query(track, &q)
}

/// Indices (into `tracks`, ascending) of the tracks a filter shows that match
/// a query.
pub open spec fn filtered_indices(tracks: Seq<Track>, query: Seq<char>, filter: TrackListFilter) -> Seq<usize>
    decreases tracks.len(),
{
    if tracks.len() == 0 {
        seq![]
    } else {
        let rest = filtered_indices(tracks.drop_last(), query, filter);
        let last = tracks.last();
        if filter_includes(filter, last) && matches_search(last, query) {
            rest.push((tracks.len() - 1) as usize)
        } else {
            rest
        }
    }
}

/// Indices of the tracks that a filter shows and that match `query`, in the
/// order of `tracks`.
pub fn filtered_track_indices(tracks: &[Track], query: &str, filter: TrackListFilter) -> (r: Vec<usize>)
    ensures
        r@ == filtered_indices(tracks@, query@, filter),
{
    let q = normalize_chars(&chars_of(query));
    let mut out: Vec<usize> = Vec::new();
    let mut i: usize = 0;
    while i < tracks.len()
        invariant
            i <= tracks@.len(),
            q@ == search_normalized(query@),
            out@ == filtered_indices(tracks@.take(i as int), query@, filter),
        decreases tracks@.len() - i,
    {
        let ghost prefix = tracks@.take(i + 1);
        assert(prefix.drop_last() =~= tracks@.take(i as int));
        assert(prefix.last() == tracks@[i as int]);
        let track = &tracks[i];
        if filter.includes(track) && (q.len() == 0 || matches_normalized_query(track, &q)) {
            out.push(i);
        }
        i = i + 1;
    }
    assert(tracks@.take(tracks@.len() as int) =~= tracks@);
    out
}

/// Law: the filtered indices are strictly ascending positions of `tracks`,
/// and a position is among them exactly when its track is shown by the
/// filter and matches the query.
pub proof fn law_filtered_indices_exact(tracks: Seq<Track>, query: Seq<char>, filter: TrackListFilter)
    requires
        tracks.len() <= usize::MAX,
    ensures
        forall|a: int, b: int|
            0 <= a < b < filtered_indices(tracks, query, filter).len() ==> filtered_indices(tracks, query, filter)[a]
                < filtered_indices(tracks, query, filter)[b],
        forall|k: int|
            0 <= k < filtered_indices(tracks, query, filter).len() ==> filtered_indices(tracks, query, filter)[k]
                < tracks.len(),
        forall|i: int|
            0 <= i < tracks.len() ==> (filtered_indices(tracks, query, filter).contains(i as usize) <==> (
            filter_includes(filter, tracks[i]) && matches_search(tracks[i], query))),
    decreases tracks.len(),
{
    if tracks.len() > 0 {
        let rest = tracks.drop_last();
        law_filtered_indices_exact(rest, query, filter);
        let r = filtered_indices(rest, query, filter);
        let f = filtered_indices(tracks, query, filter);
        let last = (tracks.len() - 1) as usize;
        let keep = filter_includes(filter, tracks.last()) && matches_search(tracks.last(), query);
        assert(f == if keep { r.push(last) } else { r });
        assert forall|a: int, b: int| 0 <= a < b < f.len() implies f[a] < f[b] by {
            if b < r.len() {
                assert(f[a] == r[a] && f[b] == r[b]);
            } else {
                assert(f[a] == r[a]);
            }
        }
        assert forall|k: int| 0 <= k < f.len() implies f[k] < tracks.len() by {
            if k < r.len() {
                assert(f[k] == r[k]);
            }
        }
        assert forall|i: int| 0 <= i < tracks.len() implies (f.contains(i as usize) <==> (
            filter_includes(filter, tracks[i]) && matches_search(tracks[i], query))) by {
            if i < tracks.len() - 1 {
                assert(tracks[i] == rest[i]);
                if f.contains(i as usize) {
                    let k = choose|k: int| 0 <= k < f.len() && f[k] == i as usize;
                    if k < r.len() {
                        assert(r[k] == i as usize);
                        assert(r.contains(i as usize));
                    }
                }
                if r.contains(i as usize) {
                    let k = choose|k: int| 0 <= k < r.len() && r[k] == i as usize;
                    assert(f[k] == i as usize);
                }
            } else {
                assert(i as usize == last);
                if r.contains(last) {
                    let k = choose|k: int| 0 <= k < r.len() && r[k] == last;
                    assert(r[k] < rest.len());
                }
                if f.contains(last) {
                    let k = choose|k: int| 0 <= k < f.len() && f[k] == last;
                    if k < r.len() {
                        assert(r[k] < rest.len());
                    }
                }
                if keep {
                    assert(f[r.len() as int] == last);
                }
            }
        }
    }
}

/// Key-press phases reported by the terminal.
#[derive(Clone, Copy, Debug, PartialEq, Eq, Structural)]
pub enum KeyEventKind {
    Press,
    Repeat,
    Release,
}

/// Only presses and auto-repeats are handled; releases (which some terminals
/// report) are ignored.
pub fn should_handle_key_event(kind: KeyEventKind) -> (b: bool)
    ensures
        b == (kind != KeyEventKind::Release),
{
    match kind {
        KeyEventKind::Press | KeyEventKind::Repeat => true,
        KeyEventKind::Release => false,
    }
}

/// The row after moving down by `step` (at least one) rows, clamped to the
/// last row; the first row when nothing is selected; none for an empty list.
pub open spec fn next_index(current: Option<usize>, len: usize, step: usize) -> Option<usize> {
    if len == 0 {
        None
    } else {
        match current {
            None => Some(0usize),
            Some(c) => {
                let moved = c + if step == 0 { 1 } else { step };
                Some((if moved < len - 1 { moved } else { len - 1 }) as usize)
            },
        }
    }
}

/// The row after moving up by `step` (at least one) rows, clamped to the
/// first row; the first row when nothing is selected; none for an empty list.
pub open spec fn previous_index(current: Option<usize>, len: usize, step: usize) -> Option<usize> {
    if len == 0 {
        None
    } else {
        match current {
            None => Some(0usize),
            Some(c) => {
                let moved = c - if step == 0 { 1 } else { step };
                Some((if moved > 0 { moved } else { 0 }) as usize)
            },
        }
    }
}

pub fn next_track_index(current: Option<usize>, len: usize, step: usize) -> (r: Option<usize>)
    ensures
        r == next_index(current, len, step),
{
    if len == 0 {
        return None;
    }
    match current {
        None => Some(0),
        Some(c) => {
            let step = if step == 0 { 1 } else { step };
            let moved = c.saturating_add(step);
            Some(if moved < len - 1 { moved } else { len - 1 })
        },
    }
}

pub fn previous_track_index(current: Option<usize>, len: usize, step: usize) -> (r: Option<usize>)
    ensures
        r == previous_index(current, len, step),
{
    if len == 0 {
        return None;
    }
    match current {
        None => Some(0),
        Some(c) => {
            let step = if step == 0 { 1 } else { step };
            Some(c.saturating_sub(step))
        },
    }
}

pub fn next_repository_index(current: Option<usize>, len: usize) -> (r: Option<usize>)
    ensures
        r == next_index(current, len, 1),
{
    next_track_index(current, len, 1)
}

pub fn previous_repository_index(current: Option<usize>, len: usize) -> (r: Option<usize>)
    ensures
        r == previous_index(current, len, 1),
{
    previous_track_index(current, len, 1)
}

/// Law: moving the selection always lands on a row of a non-empty list,
/// never moves the wrong way, and moving by a page from a row moves by the
/// page or stops at the end.
pub proof fn law_selection_moves_stay_in_range(current: Option<usize>, len: usize, step: usize)
    ensures
        len == 0 ==> next_index(current, len, step) is None && previous_index(current, len, step) is None,
        len > 0 ==> next_index(current, len, step) is Some && next_index(current, len, step)->0 < len,
        len > 0 && (current is None || current->0 < len) ==> previous_index(current, len, step) is Some
            && previous_index(current, len, step)->0 < len,
        current is Some && current->0 < len ==> next_index(current, len, step)->0 >= current->0
            && previous_index(current, len, step)->0 <= current->0,
{
}

/// The next row in sequential autoplay: the following row, or none after the
/// last one or when nothing is playing.
pub open spec fn sequential_next(current: Option<usize>, len: usize) -> Option<usize> {
    match current {
        None => None,
        Some(c) => if c + 1 < len {
            Some((c + 1) as usize)
        } else {
            None
        },
    }
}

pub fn sequential_autoplay_index(current: Option<usize>, len: usize) -> (r: Option<usize>)
    requires
        current matches Some(c) ==> c < usize::MAX,
    ensures
        r == sequential_next(current, len),
{
    let current = current?;
    if current + 1 < len {
        Some(current + 1)
    } else {
        None
    }
}

/// The multiplier of the linear congruential generator that drives shuffle.
pub const SHUFFLE_MULTIPLIER: u64 = 6364136223846793005;

/// One step of the shuffle generator.
pub open spec fn shuffle_next_seed(seed: u64) -> u64 {
    vstd::wrapping::u64_specs::wrapping_add(vstd::wrapping::u64_specs::wrapping_mul(seed, SHUFFLE_MULTIPLIER), 1)
}

/// The row shuffle picks from an advanced seed: the high half of the seed
/// modulo the length, moved one row on (cyclically) if it is the current row.
pub open spec fn shuffle_pick(seed: u64, current: Option<usize>, len: usize) -> usize {
    let index = ((seed >> 32u64) as nat % len as nat) as usize;
    if current == Some(index) {
        ((index + 1) % (len as int)) as usize
    } else {
        index
    }
}

/// The next row in shuffle autoplay. For one row that row; for none, none;
/// otherwise the seed advances and picks a row, avoiding the current one.
pub fn shuffle_autoplay_index(current: Option<usize>, len: usize, seed: &mut u64) -> (r: Option<usize>)
    ensures
        len == 0 ==> r is None && *final(seed) == *old(seed),
        len == 1 ==> r == Some(0usize) && *final(seed) == *old(seed),
        len > 1 ==> *final(seed) == shuffle_next_seed(*old(seed)) && r == Some(shuffle_pick(*final(seed), current, len)),
{
    if len == 0 {
        return None;
    }
    if len == 1 {
        return Some(0);
    }
    *seed = seed.wrapping_mul(SHUFFLE_MULTIPLIER).wrapping_add(1);
    let high: u64 = *seed >> 32u64;
    assert(high < 0x1_0000_0000) by (bit_vector)
        requires
            high == *seed >> 32u64,
    ;
    let mut index = (high as usize) % len;
    if current == Some(index) {
        index = (index + 1) % len;
    }
    Some(index)
}

/// Law: shuffle always picks a row of the list, and with more than one row
/// it never picks the row that is playing.
pub proof fn law_shuffle_avoids_current(seed: u64, current: Option<usize>, len: usize)
    requires
        len > 1,
    ensures
        shuffle_pick(seed, current, len) < len,
        current is Some && current->0 < len ==> shuffle_pick(seed, current, len) != current->0,
{
    let index = ((seed >> 32u64) as nat % len as nat) as usize;
    assert(index < len);
    if index + 1 < len {
        vstd::arithmetic::div_mod::lemma_small_mod((index + 1) as nat, len as nat);
    } else {
        vstd::arithmetic::div_mod::lemma_mod_self_0(len as int);
    }
}

pub open spec fn playback_symbol(state: PlaybackState) -> Seq<char> {
    match state {
        PlaybackState::Playing => "▶"@,
        PlaybackState::Paused => "⏸"@,
        PlaybackState::Stopped => "⏹"@,
    }
}

pub fn playback_state_symbol(playback_state: &PlaybackState) -> (s: &'static str)
    ensures
        s@ == playback_symbol(*playback_state),
{
    match playback_state {
        PlaybackState::Playing => "▶",
        PlaybackState::Paused => "⏸",
        PlaybackState::Stopped => "⏹",
    }
}

/// Display width of a character (`UnicodeWidthChar::width`); none for
/// control characters.
pub uninterp spec fn char_display_width(c: char) -> Option<usize>;

/// Display width of a string (`UnicodeWidthStr::width`).
pub uninterp spec fn str_display_width(s: Seq<char>) -> usize;

/// `UnicodeWidthChar::width`. Beyond the name, it states what the crate's
/// source gives for ASCII and Latin-1 controls: printable ASCII is one
/// column wide, control characters have no width, and every character from
/// U+00A0 on has one. The Unicode tables for those are not restated.
#[verifier::external_body]
pub(crate) fn char_width(c: char) -> (w: Option<usize>)
    ensures
        w == char_display_width(c),
        (' ' <= c && c < '\u{7f}') ==> w == Some(1usize),
        (c < ' ' || ('\u{7f}' <= c && c < '\u{a0}')) ==> w is None,
        c >= '\u{a0}' ==> w is Some,
{
    UnicodeWidthChar::width(c)
}

/// `UnicodeWidthStr::width`; the Unicode tables are not restated.
#[verifier::external_body]
pub fn display_width(text: &str) -> (w: usize)
    ensures
        w == str_display_width(text@),
{
    UnicodeWidthStr::width(text)
}

/// Columns a character takes in the status line (control characters none).
pub open spec fn width_or_zero(c: char) -> int {
    match char_display_width(c) {
        Some(w) => w as int,
        None => 0,
    }
}

/// Columns a text takes, character by character.
pub open spec fn total_width(s: Seq<char>) -> int
    decreases s.len(),
{
    if s.len() == 0 {
        0
    } else {
        width_or_zero(s[0]) + total_width(s.drop_first())
    }
}

/// Gap shown between the end of a scrolling text and its restart.
pub const MARQUEE_GAP: &'static str = "   ";

/// The visible part of a rotated scrolling text: characters are taken while
/// the used width is below `max` and the next character fits; a character
/// that does not fit is shown as a single space.
pub open spec fn marquee_window(rot: Seq<char>, max: int, width: int) -> Seq<char>
    decreases rot.len(),
{
    if rot.len() == 0 || width >= max {
        seq![]
    } else if width + width_or_zero(rot[0]) > max {
        seq![' ']
    } else {
        seq![rot[0]] + marquee_window(rot.drop_first(), max, width + width_or_zero(rot[0]))
    }
}

/// The text followed by the gap, rotated left by `offset` (cyclically).
pub open spec fn marquee_rotation(text: Seq<char>, offset: usize) -> Seq<char> {
    let cycle = text + "   "@;
    let start = offset as int % cycle.len() as int;
    cycle.skip(start) + cycle.take(start)
}

/// What the status line shows of `text` in `max` columns at scroll offset
/// `offset`: nothing without room, the whole text when it fits, otherwise a
/// window of the rotated text.
pub open spec fn marquee(text: Seq<char>, offset: usize, max: usize) -> Seq<char> {
    if max == 0 {
        seq![]
    } else if total_width(text) <= max {
        text
    } else {
        marquee_window(marquee_rotation(text, offset), max as int, 0)
    }
}

proof fn lemma_total_width_nonneg(s: Seq<char>)
    ensures
        total_width(s) >= 0,
    decreases s.len(),
{
    if s.len() > 0 {
        lemma_total_width_nonneg(s.drop_first());
    }
}

/// Whether `text` fits in `max` columns.
fn fits_width(text: &[char], max: usize) -> (b: bool)
    ensures
        b == (total_width(text@) <= max),
{
    let mut acc: u128 = 0;
    let mut i: usize = 0;
    assert(text@.skip(0) =~= text@);
    while i < text.len()
        invariant
            i <= text@.len(),
            acc <= max,
            acc + total_width(text@.skip(i as int)) == total_width(text@),
        decreases text@.len() - i,
    {
        assert(text@.skip(i as int).drop_first() =~= text@.skip(i + 1));
        let w: u128 = match char_width(text[i]) {
            Some(w) => w as u128,
            None => 0,
        };
        acc = acc + w;
        i = i + 1;
        if acc > max as u128 {
            proof {
                lemma_total_width_nonneg(text@.skip(i as int));
            }
            return false;
        }
    }
    true
}

fn marquee_window_of(rot: &[char], max: usize) -> (r: Vec<char>)
    ensures
        r@ == marquee_window(rot@, max as int, 0),
{
    let mut out: Vec<char> = Vec::new();
    let mut width: u128 = 0;
    let mut k: usize = 0;
    assert(rot@.skip(0) =~= rot@);
    while k < rot.len()
        invariant
            k <= rot@.len(),
            width <= max,
            out@ + marquee_window(rot@.skip(k as int), max as int, width as int) == marquee_window(rot@, max as int, 0),
        decreases rot@.len() - k,
    {
        let ghost rest = rot@.skip(k as int);
        assert(rest[0] == rot@[k as int]);
        assert(rest.drop_first() =~= rot@.skip(k + 1));
        if width >= max as u128 {
            assert(out@ + seq![] =~= out@);
            return out;
        }
        let c = rot[k];
        let w: u128 = match char_width(c) {
            Some(w) => w as u128,
            None => 0,
        };
        if width + w > max as u128 {
            let ghost before = out@;
            out.push(' ');
            assert(out@ =~= before + seq![' ']);
            return out;
        }
        let ghost before = out@;
        out.push(c);
        assert(before + (seq![c] + marquee_window(rest.drop_first(), max as int, width + w)) =~= out@
            + marquee_window(rest.drop_first(), max as int, width + w));
        width = width + w;
        k = k + 1;
    }
    assert(rot@.skip(k as int) =~= Seq::<char>::empty());
    assert(out@ + seq![] =~= out@);
    out
}

/// Returns a window of `text` whose display width fits within `max_width`.
/// If the whole text fits it is returned unchanged; otherwise it scrolls by
/// `offset` (advanced once per tick by the caller).
pub fn marquee_view(text: &str, offset: usize, max_width: usize) -> (r: String)
    ensures
        r@ == marquee(text@, offset, max_width),
{
    if max_width == 0 {
        return String::new();
    }
    let text_chars = chars_of(text);
    if fits_width(&text_chars, max_width) {
        return text.to_string();
    }
    proof {
        reveal_strlit("   ");
    }
    let mut cycle_chars = text_chars;
    append_chars(&mut cycle_chars, &chars_of(MARQUEE_GAP));
    let cycle = cycle_chars.len();
    let start = offset % cycle;
    let mut rot = copy_range(&cycle_chars, start, cycle);
    append_chars(&mut rot, &copy_range(&cycle_chars, 0, start));
    assert(rot@ =~= marquee_rotation(text@, offset));
    string_of(&marquee_window_of(&rot, max_width))
}

/// Law: the status text is shown unchanged whenever it fits, and otherwise
/// the window is a prefix of the rotated text that fits in the columns,
/// possibly followed by one padding space that is only added while columns
/// are still free.
pub proof fn law_marquee_fits_columns(text: Seq<char>, offset: usize, max: usize)
    requires
        max > 0,
    ensures
        total_width(text) <= max ==> marquee(text, offset, max) == text,
        total_width(text) > max ==> exists|p: Seq<char>|
            #![trigger marquee_rotation(text, offset).take(p.len() as int), total_width(p)]
            p.len() <= marquee_rotation(text, offset).len() && p == marquee_rotation(text, offset).take(p.len() as int) && total_width(p) <= max && (marquee(
                text,
                offset,
                max,
            ) == p || (marquee(text, offset, max) == p.push(' ') && total_width(p) < max)),
{
    if total_width(text) > max {
        lemma_window_shape(marquee_rotation(text, offset), max as int, 0);
    }
}

proof fn lemma_window_shape(rot: Seq<char>, max: int, width: int)
    requires
        0 <= width <= max,
    ensures
        exists|p: Seq<char>|
            #![trigger rot.take(p.len() as int), total_width(p)]
            p.len() <= rot.len() && p == rot.take(p.len() as int) && width + total_width(p) <= max && (marquee_window(rot, max, width) == p || (
            marquee_window(rot, max, width) == p.push(' ') && width + total_width(p) < max)),
    decreases rot.len(),
{
    let empty = Seq::<char>::empty();
    assert(rot.take(0) =~= empty);
    if rot.len() == 0 || width >= max {
        assert(marquee_window(rot, max, width) == empty);
        assert(empty.len() <= rot.len() && empty == rot.take(empty.len() as int) && total_width(empty) == 0);
    } else if width + width_or_zero(rot[0]) > max {
        assert(marquee_window(rot, max, width) =~= empty.push(' '));
        assert(empty.len() <= rot.len() && empty == rot.take(empty.len() as int) && total_width(empty) == 0);
    } else {
        let w = width_or_zero(rot[0]);
        assert(w >= 0) by {
            match char_display_width(rot[0]) {
                Some(n) => {},
                None => {},
            }
        }
        lemma_window_shape(rot.drop_first(), max, width + w);
        let q = choose|p: Seq<char>|
            #![trigger rot.drop_first().take(p.len() as int), total_width(p)]
            p.len() <= rot.drop_first().len() && p == rot.drop_first().take(p.len() as int) && width + w + total_width(p) <= max && (marquee_window(
                rot.drop_first(),
                max,
                width + w,
            ) == p || (marquee_window(rot.drop_first(), max, width + w) == p.push(' ') && width + w + total_width(p)
                < max));
        let p = seq![rot[0]] + q;
        assert(p.drop_first() =~= q);
        assert(p =~= rot.take(p.len() as int));
        assert(total_width(p) == w + total_width(q));
        if marquee_window(rot.drop_first(), max, width + w) == q {
            assert(marquee_window(rot, max, width) == p);
        } else {
            assert(marquee_window(rot, max, width) =~= p.push(' '));
        }
    }
}

/// Law: scrolling is periodic: advancing the offset by the length of the text
/// plus the gap shows the same window.
pub proof fn law_marquee_periodic(text: Seq<char>, offset: usize, later: usize, max: usize)
    requires
        later == offset + text.len() + 3,
    ensures
        marquee(text, later, max) == marquee(text, offset, max),
{
    let len = (text + "   "@).len() as int;
    assert(len == text.len() + 3) by {
        reveal_strlit("   ");
    }
    vstd::arithmetic::div_mod::lemma_mod_add_multiples_vanish(offset as int, len);
}

} // verus!
