//! The player's interactive state and how it answers keys, ticks and the
//! results of the work it asks for. The terminal, the audio device, the
//! database and the downloads are driven by the caller, which performs each
//! returned command and reports back.

use vstd::prelude::*;

use crate::models::{same_track, Repository, Track};
use crate::text::{concat_str, nat_decimal, str_lowercase, u64_text};
use crate::tui::util::{
    filter_label, filtered_indices, filtered_track_indices, next_index, next_track_index,
    previous_index, previous_track_index, sequential_next, shuffle_autoplay_index, shuffle_next_seed,
    shuffle_pick, tab_filter, track_list_filter_for_tab, TrackListFilter, DEFAULT_TRACKS_PAGE_STEP,
    TAB_BLACKLIST, TAB_COUNT, TAB_REPOSITORIES,
};
use crate::tui::{mode_label, mode_name, mode_toggled, PlaybackMode};

verus! {

broadcast use {vstd::string::group_string_axioms, vstd::slice::group_slice_axioms};

/// The key a handler sees.
#[derive(Debug, Clone, Copy, PartialEq, Eq, Structural)]
pub enum Key {
    Char(char),
    Esc,
    Enter,
    Backspace,
    Tab,
    BackTab,
    Up,
    Down,
    PageUp,
    PageDown,
    Other,
}

/// A key press and the modifiers held with it.
#[derive(Debug, Clone, Copy, PartialEq, Eq, Structural)]
pub struct KeyInput {
    pub code: Key,
    pub control: bool,
    pub alt: bool,
}

/// The track the audio player has loaded.
#[derive(Debug, Clone, Copy, PartialEq, Eq, Structural)]
pub struct LoadedTrack {
    pub id: i64,
    pub repository_id: i64,
}

/// What the audio player reports when a decision depends on it.
#[derive(Debug, Clone, Copy, PartialEq, Eq, Structural)]
pub struct PlayerView {
    pub is_playing: bool,
    pub is_paused: bool,
    pub current_track: Option<LoadedTrack>,
}

/// How far a streamed track has got.
#[derive(Debug, Clone, Copy, PartialEq, Eq, Structural)]
pub enum PendingStage {
    /// The decoder is being prepared while the download runs.
    Preparing,
    /// The track plays while the download finishes.
    Caching,
}

/// A track being streamed: its row in the library, a copy of it, and the
/// stage reached.
#[derive(Debug)]
pub struct PendingPlayback {
    pub track_index: usize,
    pub track: Track,
    pub stage: PendingStage,
}

/// The player's interactive state.
#[derive(Debug)]
pub struct App {
    pub selected_tab: usize,
    pub repositories: Vec<Repository>,
    pub tracks: Vec<Track>,
    /// Library indices of the rows the current track tab shows.
    pub visible_track_indices: Vec<usize>,
    pub tracks_page_step: usize,
    pub current_repository_index: Option<usize>,
    pub current_track_index: Option<usize>,
    pub current_track_row_index: Option<usize>,
    pub playback_mode: PlaybackMode,
    pub shuffle_seed: u64,
    pub pending_repository_delete: Option<usize>,
    pub pending_playback: Option<PendingPlayback>,
    pub status_message: String,
    pub track_search_query: String,
    pub is_searching_tracks: bool,
    pub show_help: bool,
    pub should_quit: bool,
}

/// The track list a tab shows, the plain track list for the repositories
/// tab.
pub open spec fn filter_for_tab(tab: usize) -> TrackListFilter {
    match tab_filter(tab) {
        Some(f) => f,
        None => TrackListFilter::Tracks,
    }
}

/// Row selection agrees with the visible rows: a selected row is a visible
/// row and names the selected track; no row means no track.
pub open spec fn selection_consistent(
    visible: Seq<usize>,
    row: Option<usize>,
    index: Option<usize>,
) -> bool {
    match row {
        Some(r) => r < visible.len() && index == Some(visible[r as int]),
        None => index is None,
    }
}

/// Every visible row names a track of the library.
pub open spec fn rows_in_library(visible: Seq<usize>, n: nat) -> bool {
    forall|i: int| 0 <= i < visible.len() ==> #[trigger] visible[i] < n
}

/// The first row showing library index `index`, if any.
pub open spec fn row_of(visible: Seq<usize>, index: usize) -> Option<usize>
    decreases visible.len(),
{
    if visible.len() == 0 {
        None
    } else {
        match row_of(visible.drop_last(), index) {
            Some(r) => Some(r),
            None => if visible.last() == index {
                Some((visible.len() - 1) as usize)
            } else {
                None
            },
        }
    }
}

proof fn lemma_row_of(visible: Seq<usize>, index: usize)
    requires
        visible.len() <= usize::MAX,
    ensures
        match row_of(visible, index) {
            Some(r) => r < visible.len() && visible[r as int] == index && forall|j: int|
                0 <= j < r ==> visible[j] != index,
            None => forall|j: int| 0 <= j < visible.len() ==> visible[j] != index,
        },
    decreases visible.len(),
{
    if visible.len() > 0 {
        let d = visible.drop_last();
        lemma_row_of(d, index);
        match row_of(d, index) {
            Some(r) => {
                assert(visible[r as int] == d[r as int]);
                assert forall|j: int| 0 <= j < r implies visible[j] != index by {
                    assert(visible[j] == d[j]);
                }
            },
            None => {
                assert forall|j: int| 0 <= j < d.len() implies visible[j] != index by {
                    assert(visible[j] == d[j]);
                }
            },
        }
    }
}

/// In strictly ascending rows, a row is the first one showing its index.
proof fn lemma_row_of_ascending(visible: Seq<usize>, r: int)
    requires
        visible.len() <= usize::MAX,
        0 <= r < visible.len(),
        forall|a: int, b: int| 0 <= a < b < visible.len() ==> visible[a] < visible[b],
    ensures
        row_of(visible, visible[r]) == Some(r as usize),
{
    lemma_row_of(visible, visible[r]);
    match row_of(visible, visible[r]) {
        Some(x) => {
            if (x as int) < r {
                assert(visible[x as int] < visible[r]);
            } else if (x as int) > r {
                assert(visible[r] != visible[r]);
            }
        },
        None => {
            assert(visible[r] != visible[r]);
        },
    }
}

/// A repository selection clamped to a list of `n` repositories.
pub open spec fn clamped_selection(index: Option<usize>, n: nat) -> Option<usize> {
    match index {
        Some(i) => if n == 0 {
            None
        } else if i < n {
            Some(i)
        } else {
            Some((n - 1) as usize)
        },
        None => None,
    }
}

/// Where the selection lands when the visible rows change: on the row of
/// the selected track while it is still visible, else on the first row; on
/// nothing when no row is visible.
pub open spec fn synced_row(visible: Seq<usize>, index: Option<usize>) -> Option<usize> {
    if visible.len() == 0 {
        None
    } else {
        match index {
            Some(i) => match row_of(visible, i) {
                Some(r) => Some(r),
                None => Some(0usize),
            },
            None => Some(0usize),
        }
    }
}

/// The row showing library index `index`.
fn find_row(visible: &[usize], index: usize) -> (r: Option<usize>)
    ensures
        r == row_of(visible@, index),
{
    let mut i: usize = 0;
    assert(visible@.take(0) =~= Seq::<usize>::empty());
    while i < visible.len()
        invariant
            i <= visible@.len(),
            row_of(visible@.take(i as int), index) is None,
        decreases visible@.len() - i,
    {
        assert(visible@.take(i + 1).drop_last() =~= visible@.take(i as int));
        if visible[i] == index {
            proof {
                lemma_row_of_prefix(visible@, index, i as int + 1);
            }
            return Some(i);
        }
        i = i + 1;
    }
    assert(visible@.take(i as int) =~= visible@);
    None
}

proof fn lemma_row_of_prefix(visible: Seq<usize>, index: usize, k: int)
    requires
        0 <= k <= visible.len(),
        row_of(visible.take(k), index) is Some,
    ensures
        row_of(visible, index) == row_of(visible.take(k), index),
    decreases visible.len() - k,
{
    if k < visible.len() {
        assert(visible.take(k + 1).drop_last() =~= visible.take(k));
        lemma_row_of_prefix(visible, index, k + 1);
    } else {
        assert(visible.take(k) =~= visible);
    }
}

impl App {
    /// The state's invariant.
    pub open spec fn wf(self) -> bool {
        &&& self.selected_tab < TAB_COUNT
        &&& rows_in_library(self.visible_track_indices@, self.tracks@.len())
        &&& selection_consistent(
            self.visible_track_indices@,
            self.current_track_row_index,
            self.current_track_index,
        )
        &&& (self.current_repository_index matches Some(i) ==> i < self.repositories@.len())
    }

    /// The visible rows are exactly the tracks the current tab's filter
    /// shows that match the search.
    pub open spec fn rows_current(self) -> bool {
        self.visible_track_indices@ == filtered_indices(
            self.tracks@,
            self.track_search_query@,
            filter_for_tab(self.selected_tab),
        )
    }

    /// A fresh state: repositories tab, empty library, default page step,
    /// `Ready`.
    pub fn new(playback_mode: PlaybackMode, shuffle_seed: u64) -> (app: Self)
        ensures
            app.wf(),
            app.rows_current(),
            app.selected_tab == 0,
            app.playback_mode == playback_mode,
            app.shuffle_seed == shuffle_seed,
            app.tracks@.len() == 0 && app.repositories@.len() == 0,
            app.tracks_page_step == DEFAULT_TRACKS_PAGE_STEP,
            app.pending_playback is None,
            app.pending_repository_delete is None,
            app.status_message@ == "Ready"@,
            app.track_search_query@.len() == 0,
            !app.is_searching_tracks && !app.show_help && !app.should_quit,
    {
        let app = App {
            selected_tab: 0,
            repositories: Vec::new(),
            tracks: Vec::new(),
            visible_track_indices: Vec::new(),
            tracks_page_step: DEFAULT_TRACKS_PAGE_STEP,
            current_repository_index: None,
            current_track_index: None,
            current_track_row_index: None,
            playback_mode,
            shuffle_seed,
            pending_repository_delete: None,
            pending_playback: None,
            status_message: "Ready".to_string(),
            track_search_query: String::new(),
            is_searching_tracks: false,
            show_help: false,
            should_quit: false,
        };
        assert(app.visible_track_indices@ =~= filtered_indices(
            app.tracks@,
            app.track_search_query@,
            filter_for_tab(app.selected_tab),
        ));
        app
    }

    /// The filter of the current tab.
    pub fn current_track_list_filter(&self) -> (f: TrackListFilter)
        ensures
            f == filter_for_tab(self.selected_tab),
    {
        match track_list_filter_for_tab(self.selected_tab) {
            Some(f) => f,
            None => TrackListFilter::Tracks,
        }
    }

    /// Whether the current tab lists tracks.
    pub fn selected_tab_is_track_list(&self) -> (b: bool)
        ensures
            b == tab_filter(self.selected_tab) is Some,
    {
        track_list_filter_for_tab(self.selected_tab).is_some()
    }

    /// Whether the current tab lists tracks that may be played.
    pub fn selected_tab_can_play_tracks(&self) -> (b: bool)
        ensures
            b == (tab_filter(self.selected_tab) is Some && tab_filter(self.selected_tab)
                != Some(TrackListFilter::Blacklist)),
    {
        match track_list_filter_for_tab(self.selected_tab) {
            Some(f) => f.can_play(),
            None => false,
        }
    }

    /// Keeps the selection on the selected track if it is still visible,
    /// else on the first row, or clears it when nothing is visible.
    pub fn sync_selected_track_with_visible_tracks(&mut self)
        requires
            rows_in_library(old(self).visible_track_indices@, old(self).tracks@.len()),
        ensures
            final(self).current_track_row_index == synced_row(
                old(self).visible_track_indices@,
                old(self).current_track_index,
            ),
            selection_consistent(
                final(self).visible_track_indices@,
                final(self).current_track_row_index,
                final(self).current_track_index,
            ),
            final(self).visible_track_indices == old(self).visible_track_indices,
            final(self).tracks == old(self).tracks,
            final(self).repositories == old(self).repositories,
            final(self).selected_tab == old(self).selected_tab,
            final(self).current_repository_index == old(self).current_repository_index,
            final(self).track_search_query == old(self).track_search_query,
            final(self).status_message == old(self).status_message,
            final(self).pending_playback == old(self).pending_playback,
            final(self).pending_repository_delete == old(self).pending_repository_delete,
            final(self).playback_mode == old(self).playback_mode,
            final(self).shuffle_seed == old(self).shuffle_seed,
            final(self).tracks_page_step == old(self).tracks_page_step,
            final(self).is_searching_tracks == old(self).is_searching_tracks,
            final(self).show_help == old(self).show_help,
            final(self).should_quit == old(self).should_quit,
    {
        if self.visible_track_indices.len() == 0 {
            self.current_track_index = None;
            self.current_track_row_index = None;
            return;
        }
        let row = match self.current_track_index {
            Some(i) => match find_row(&self.visible_track_indices, i) {
                Some(r) => r,
                None => 0,
            },
            None => 0,
        };
        let nv = self.visible_track_indices.len();
        proof {
            assert(self.visible_track_indices@.len() == nv);
            if let Some(i) = old(self).current_track_index {
                lemma_row_of(self.visible_track_indices@, i);
            }
        }
        self.current_track_index = Some(self.visible_track_indices[row]);
        self.current_track_row_index = Some(row);
    }

    /// Recomputes the visible rows for the current tab and search, keeping
    /// the selection where it can.
    pub fn refresh_visible_tracks(&mut self)
        ensures
            final(self).rows_current(),
            rows_in_library(final(self).visible_track_indices@, final(self).tracks@.len()),
            final(self).current_track_row_index == synced_row(
                final(self).visible_track_indices@,
                old(self).current_track_index,
            ),
            selection_consistent(
                final(self).visible_track_indices@,
                final(self).current_track_row_index,
                final(self).current_track_index,
            ),
            final(self).tracks == old(self).tracks,
            final(self).repositories == old(self).repositories,
            final(self).selected_tab == old(self).selected_tab,
            final(self).current_repository_index == old(self).current_repository_index,
            final(self).track_search_query == old(self).track_search_query,
            final(self).status_message == old(self).status_message,
            final(self).pending_playback == old(self).pending_playback,
            final(self).pending_repository_delete == old(self).pending_repository_delete,
            final(self).playback_mode == old(self).playback_mode,
            final(self).shuffle_seed == old(self).shuffle_seed,
            final(self).tracks_page_step == old(self).tracks_page_step,
            final(self).is_searching_tracks == old(self).is_searching_tracks,
            final(self).show_help == old(self).show_help,
            final(self).should_quit == old(self).should_quit,
    {
        let filter = self.current_track_list_filter();
        let n = self.tracks.len();
        assert(self.tracks@.len() == n);
        self.visible_track_indices = filtered_track_indices(
            &self.tracks,
            self.track_search_query.as_str(),
            filter,
        );
        proof {
            crate::tui::util::law_filtered_indices_exact(
                self.tracks@,
                self.track_search_query@,
                filter,
            );
        }
        self.sync_selected_track_with_visible_tracks();
    }

    /// Shows tab `tab` (taken modulo the number of tabs).
    pub fn select_tab(&mut self, tab: usize)
        requires
            old(self).wf(),
        ensures
            final(self).wf(),
            final(self).rows_current(),
            final(self).selected_tab == tab % TAB_COUNT,
            final(self).tracks == old(self).tracks,
            final(self).repositories == old(self).repositories,
            final(self).status_message == old(self).status_message,
            final(self).pending_playback == old(self).pending_playback,
            final(self).track_search_query == old(self).track_search_query,
    {
        self.selected_tab = tab % TAB_COUNT;
        self.refresh_visible_tracks();
    }

    /// Selects the library track `index` (clamped to the library): its row
    /// where it is visible, else no row.
    pub fn select_track_index(&mut self, index: Option<usize>)
        requires
            old(self).wf(),
        ensures
            final(self).wf(),
            match index {
                None => final(self).current_track_index is None,
                Some(i) => if old(self).tracks@.len() == 0 {
                    final(self).current_track_index is None
                } else {
                    final(self).current_track_row_index == row_of(
                        old(self).visible_track_indices@,
                        if i < old(self).tracks@.len() {
                            i
                        } else {
                            (old(self).tracks@.len() - 1) as usize
                        },
                    )
                },
            },
            final(self).visible_track_indices == old(self).visible_track_indices,
            final(self).tracks == old(self).tracks,
            final(self).repositories == old(self).repositories,
            final(self).selected_tab == old(self).selected_tab,
            final(self).current_repository_index == old(self).current_repository_index,
            final(self).track_search_query == old(self).track_search_query,
            final(self).status_message == old(self).status_message,
            final(self).pending_playback == old(self).pending_playback,
            final(self).pending_repository_delete == old(self).pending_repository_delete,
            final(self).playback_mode == old(self).playback_mode,
            final(self).shuffle_seed == old(self).shuffle_seed,
    {
        let index = match index {
            Some(i) => i,
            None => {
                self.current_track_index = None;
                self.current_track_row_index = None;
                return;
            },
        };
        if self.tracks.len() == 0 {
            self.current_track_index = None;
            self.current_track_row_index = None;
            return;
        }
        let index = if index < self.tracks.len() - 1 {
            index
        } else {
            self.tracks.len() - 1
        };
        let row = find_row(&self.visible_track_indices, index);
        let nv = self.visible_track_indices.len();
        proof {
            assert(self.visible_track_indices@.len() == nv);
            lemma_row_of(self.visible_track_indices@, index);
        }
        self.current_track_index = match row {
            Some(_) => Some(index),
            None => None,
        };
        self.current_track_row_index = row;
    }

    /// Selects repository `index`, clamped to the list; nothing when the
    /// list is empty.
    pub fn select_repository_index(&mut self, index: Option<usize>)
        requires
            old(self).wf(),
        ensures
            final(self).wf(),
            final(self).current_repository_index == (match index {
                Some(i) => if old(self).repositories@.len() == 0 {
                    None
                } else if i < old(self).repositories@.len() {
                    Some(i)
                } else {
                    Some((old(self).repositories@.len() - 1) as usize)
                },
                None => None,
            }),
            final(self).visible_track_indices == old(self).visible_track_indices,
            final(self).tracks == old(self).tracks,
            final(self).repositories == old(self).repositories,
            final(self).selected_tab == old(self).selected_tab,
            final(self).current_track_index == old(self).current_track_index,
            final(self).current_track_row_index == old(self).current_track_row_index,
            final(self).track_search_query == old(self).track_search_query,
            final(self).status_message == old(self).status_message,
            final(self).pending_playback == old(self).pending_playback,
            final(self).pending_repository_delete == old(self).pending_repository_delete,
            final(self).playback_mode == old(self).playback_mode,
            final(self).shuffle_seed == old(self).shuffle_seed,
    {
        self.current_repository_index = match index {
            Some(i) => if self.repositories.len() == 0 {
                None
            } else if i < self.repositories.len() {
                Some(i)
            } else {
                Some(self.repositories.len() - 1)
            },
            None => None,
        };
    }

    /// Selects visible row `row` (clamped to the rows); nothing when no
    /// row is visible.
    pub fn select_visible_track_row(&mut self, row: Option<usize>)
        requires
            old(self).wf(),
        ensures
            final(self).wf(),
            final(self).current_track_row_index == (match row {
                Some(r) => if old(self).visible_track_indices@.len() == 0 {
                    None
                } else if r < old(self).visible_track_indices@.len() {
                    Some(r)
                } else {
                    Some((old(self).visible_track_indices@.len() - 1) as usize)
                },
                None => None,
            }),
            final(self).visible_track_indices == old(self).visible_track_indices,
            final(self).tracks == old(self).tracks,
            final(self).repositories == old(self).repositories,
            final(self).selected_tab == old(self).selected_tab,
            final(self).current_repository_index == old(self).current_repository_index,
            final(self).track_search_query == old(self).track_search_query,
            final(self).status_message == old(self).status_message,
            final(self).pending_playback == old(self).pending_playback,
            final(self).pending_repository_delete == old(self).pending_repository_delete,
            final(self).playback_mode == old(self).playback_mode,
            final(self).shuffle_seed == old(self).shuffle_seed,
    {
        let n = self.visible_track_indices.len();
        let row = match row {
            Some(r) => if n == 0 {
                None
            } else if r < n {
                Some(r)
            } else {
                Some(n - 1)
            },
            None => None,
        };
        self.current_track_row_index = row;
        self.current_track_index = match row {
            Some(r) => Some(self.visible_track_indices[r]),
            None => None,
        };
    }

    /// Moves the track selection down by `step` rows.
    pub fn select_next_track(&mut self, step: usize)
        requires
            old(self).wf(),
        ensures
            final(self).wf(),
            final(self).current_track_row_index == next_index(
                old(self).current_track_row_index,
                old(self).visible_track_indices@.len() as usize,
                step,
            ),
            final(self).visible_track_indices == old(self).visible_track_indices,
            final(self).tracks == old(self).tracks,
            final(self).selected_tab == old(self).selected_tab,
            final(self).status_message == old(self).status_message,
    {
        let row = next_track_index(self.current_track_row_index, self.visible_track_indices.len(), step);
        proof {
            crate::tui::util::law_selection_moves_stay_in_range(
                old(self).current_track_row_index,
                old(self).visible_track_indices@.len() as usize,
                step,
            );
        }
        self.select_visible_track_row(row);
    }

    /// Moves the track selection up by `step` rows.
    pub fn select_previous_track(&mut self, step: usize)
        requires
            old(self).wf(),
        ensures
            final(self).wf(),
            final(self).current_track_row_index == previous_index(
                old(self).current_track_row_index,
                old(self).visible_track_indices@.len() as usize,
                step,
            ),
            final(self).visible_track_indices == old(self).visible_track_indices,
            final(self).tracks == old(self).tracks,
            final(self).selected_tab == old(self).selected_tab,
            final(self).status_message == old(self).status_message,
    {
        let row = previous_track_index(
            self.current_track_row_index,
            self.visible_track_indices.len(),
            step,
        );
        proof {
            crate::tui::util::law_selection_moves_stay_in_range(
                old(self).current_track_row_index,
                old(self).visible_track_indices@.len() as usize,
                step,
            );
        }
        self.select_visible_track_row(row);
    }

    /// Moves the repository selection down one row.
    pub fn select_next_repository(&mut self)
        requires
            old(self).wf(),
        ensures
            final(self).wf(),
            final(self).current_repository_index == next_index(
                old(self).current_repository_index,
                old(self).repositories@.len() as usize,
                1,
            ),
            final(self).tracks == old(self).tracks,
            final(self).selected_tab == old(self).selected_tab,
            final(self).visible_track_indices == old(self).visible_track_indices,
    {
        let index = crate::tui::util::next_repository_index(
            self.current_repository_index,
            self.repositories.len(),
        );
        proof {
            crate::tui::util::law_selection_moves_stay_in_range(
                old(self).current_repository_index,
                old(self).repositories@.len() as usize,
                1,
            );
        }
        self.select_repository_index(index);
    }

    /// Moves the repository selection up one row.
    pub fn select_previous_repository(&mut self)
        requires
            old(self).wf(),
        ensures
            final(self).wf(),
            final(self).current_repository_index == previous_index(
                old(self).current_repository_index,
                old(self).repositories@.len() as usize,
                1,
            ),
            final(self).tracks == old(self).tracks,
            final(self).selected_tab == old(self).selected_tab,
            final(self).visible_track_indices == old(self).visible_track_indices,
    {
        let index = crate::tui::util::previous_repository_index(
            self.current_repository_index,
            self.repositories.len(),
        );
        proof {
            crate::tui::util::law_selection_moves_stay_in_range(
                old(self).current_repository_index,
                old(self).repositories@.len() as usize,
                1,
            );
        }
        self.select_repository_index(index);
    }
}

} // verus!

verus! {

/// What the caller does after a key.
#[derive(Debug, Clone, Copy, PartialEq, Eq, Structural)]
pub enum Command {
    Nothing,
    /// Queue library track `index` for playback (see `App::queue_track`).
    Queue(usize),
    /// Persist the playback mode, then report with `App::mode_saved`.
    SaveMode(PlaybackMode),
    /// Persist a track's favorite flag, then report with
    /// `App::favorite_saved`.
    SaveFavorite { index: usize, track_id: i64, favorite: bool },
    /// Persist a track's blacklist flag, then report with
    /// `App::blacklist_saved`.
    SaveBlacklisted { index: usize, track_id: i64, blacklisted: bool },
    /// Delete repository `index` with its tracks and cache entries, after
    /// cancelling the pending download and stopping the player where told;
    /// then report with `App::repository_deleted`.
    DeleteRepository { index: usize, repository_id: i64, cancel_pending: bool, stop_player: bool },
    Pause,
    Resume,
    VolumeUp,
    VolumeDown,
}

/// The message that opens or reports a search of a track list.
pub open spec fn search_message(filter: TrackListFilter, query: Seq<char>, matches: nat) -> Seq<char> {
    if query.len() == 0 {
        "Search "@ + str_lowercase(filter_label(filter))
    } else {
        "Search "@ + str_lowercase(filter_label(filter)) + ": "@ + query + " ("@ + nat_decimal(matches)
            + " matches)"@
    }
}

/// The first position of a library index among playback rows.
pub open spec fn position_in(rows: Seq<usize>, index: Option<usize>) -> Option<usize> {
    match index {
        Some(i) => row_of(rows, i),
        None => None,
    }
}

/// The first library index whose track has the given id.
pub open spec fn index_of_id(tracks: Seq<Track>, id: i64) -> Option<usize>
    decreases tracks.len(),
{
    if tracks.len() == 0 {
        None
    } else {
        match index_of_id(tracks.drop_last(), id) {
            Some(i) => Some(i),
            None => if tracks.last().id == id {
                Some((tracks.len() - 1) as usize)
            } else {
                None
            },
        }
    }
}

fn concat3(a: &str, b: &str, c: &str) -> (r: String)
    ensures
        r@ == a@ + b@ + c@,
{
    let ab = concat_str(a, b);
    concat_str(ab.as_str(), c)
}

impl App {
    /// The search status line for the current tab and query.
    pub fn search_status_message(&self) -> (m: String)
        ensures
            m@ == search_message(
                filter_for_tab(self.selected_tab),
                self.track_search_query@,
                self.visible_track_indices@.len(),
            ),
    {
        let label = crate::text::lowercase_str(self.current_track_list_filter().label());
        if self.track_search_query.as_str().is_empty() {
            concat_str("Search ", label.as_str())
        } else {
            let count = u64_text(self.visible_track_indices.len() as u64);
            let head = concat3("Search ", label.as_str(), ": ");
            let head = concat3(head.as_str(), self.track_search_query.as_str(), " (");
            concat3(head.as_str(), count.as_str(), " matches)")
        }
    }

    /// The library index of the track the player has loaded.
    pub fn playing_track_index(&self, player: PlayerView) -> (r: Option<usize>)
        ensures
            r == (match player.current_track {
                Some(t) => index_of_id(self.tracks@, t.id),
                None => None,
            }),
    {
        let id = match player.current_track {
            Some(t) => t.id,
            None => return None,
        };
        let mut i: usize = 0;
        assert(self.tracks@.take(0) =~= Seq::<Track>::empty());
        while i < self.tracks.len()
            invariant
                i <= self.tracks@.len(),
                player.current_track matches Some(t) && t.id == id,
                index_of_id(self.tracks@.take(i as int), id) is None,
            decreases self.tracks@.len() - i,
        {
            assert(self.tracks@.take(i + 1).drop_last() =~= self.tracks@.take(i as int));
            if self.tracks[i].id == id {
                proof {
                    assert(self.tracks@.take(i + 1).last() == self.tracks@[i as int]);
                    assert(index_of_id(self.tracks@.take(i + 1), id) == Some(i));
                    lemma_index_of_id_prefix(self.tracks@, id, i as int + 1);
                }
                return Some(i);
            }
            i = i + 1;
        }
        assert(self.tracks@.take(i as int) =~= self.tracks@);
        None
    }

    /// The rows autoplay walks: the visible rows of a playable tab, else the
    /// tracks that are not blacklisted and match the search.
    pub fn active_playback_indices(&self) -> (rows: Vec<usize>)
        ensures
            (tab_filter(self.selected_tab) is Some && tab_filter(self.selected_tab) != Some(
                TrackListFilter::Blacklist,
            )) ==> rows@ == self.visible_track_indices@,
            !(tab_filter(self.selected_tab) is Some && tab_filter(self.selected_tab) != Some(
                TrackListFilter::Blacklist,
            )) ==> rows@ == filtered_indices(
                self.tracks@,
                self.track_search_query@,
                TrackListFilter::Tracks,
            ),
    {
        if self.selected_tab_can_play_tracks() {
            self.visible_track_indices.clone()
        } else {
            filtered_track_indices(&self.tracks, self.track_search_query.as_str(), TrackListFilter::Tracks)
        }
    }
}

proof fn lemma_index_of_id_prefix(tracks: Seq<Track>, id: i64, k: int)
    requires
        0 <= k <= tracks.len(),
        index_of_id(tracks.take(k), id) is Some,
    ensures
        index_of_id(tracks, id) == index_of_id(tracks.take(k), id),
    decreases tracks.len() - k,
{
    if k < tracks.len() {
        assert(tracks.take(k + 1).drop_last() =~= tracks.take(k));
        lemma_index_of_id_prefix(tracks, id, k + 1);
    } else {
        assert(tracks.take(k) =~= tracks);
    }
}

proof fn lemma_index_of_id(tracks: Seq<Track>, id: i64)
    requires
        tracks.len() <= usize::MAX,
    ensures
        index_of_id(tracks, id) matches Some(i) ==> i < tracks.len() && tracks[i as int].id == id,
    decreases tracks.len(),
{
    if tracks.len() > 0 {
        lemma_index_of_id(tracks.drop_last(), id);
    }
}

} // verus!

verus! {

/// What queueing a track asks of the caller.
#[derive(Debug, Clone, Copy, PartialEq, Eq, Structural)]
pub enum QueueAction {
    /// No such track.
    Nothing,
    /// The track is blacklisted and was not queued.
    Blocked,
    /// Play the file on disk (after cancelling the pending download where
    /// told).
    PlayLocal { cancel_pending: bool },
    /// Start streaming the track (after cancelling the pending download
    /// where told), then report with `App::streaming_started`.
    Stream { cancel_pending: bool },
}

/// How the decoder of a streamed track is doing.
#[derive(Debug, Clone, PartialEq, Eq)]
pub enum DecoderEvent {
    Waiting,
    Ready,
    Failed(String),
    TaskFailed(String),
}

/// How the download of a playing streamed track is doing.
#[derive(Debug)]
pub enum DownloadEvent {
    Waiting,
    Done(std::path::PathBuf),
    Failed(String),
    TaskFailed(String),
}

/// What a tick of a pending download asks of the caller.
#[derive(Debug, Clone, PartialEq, Eq)]
pub enum PendingAction {
    Nothing,
    /// Load the ready decoder into the player, then report with
    /// `App::decoder_loaded`.
    LoadDecoder,
    /// Record `error` on the download's progress and, where told, abort the
    /// download.
    Abandon { error: String, abort_download: bool },
}

/// The cached share of a track in percent, when its size is known: the
/// bytes on disk times 100 (saturating) over the size, at most 100.
pub open spec fn cache_percent(downloaded: u64, total: u64) -> Option<u64> {
    if total == 0 {
        None
    } else {
        let scaled: int = if downloaded * 100 > u64::MAX {
            u64::MAX as int
        } else {
            downloaded * 100
        };
        let p = scaled / total as int;
        Some((if p > 100 {
            100
        } else {
            p
        }) as u64)
    }
}

/// The status line of a pending download: the cached percentage where the
/// size is known, else the cached mebibytes.
pub open spec fn pending_message(action: Seq<char>, name: Seq<char>, downloaded: u64, total: u64) -> Seq<char> {
    match cache_percent(downloaded, total) {
        Some(p) => action + " "@ + name + " | Caching "@ + nat_decimal(p as nat) + "%"@,
        None => action + " "@ + name + " | Caching "@ + nat_decimal((downloaded / 1024 / 1024) as nat)
            + "MB"@,
    }
}

/// The cached percentage of a pending download.
pub fn pending_cache_percent(downloaded: u64, total: u64) -> (p: Option<u64>)
    ensures
        p == cache_percent(downloaded, total),
{
    if total == 0 {
        return None;
    }
    let scaled: u64 = if downloaded > u64::MAX / 100 {
        u64::MAX
    } else {
        downloaded * 100
    };
    let p = scaled / total;
    Some(if p > 100 { 100 } else { p })
}

/// The status line of a pending download.
pub fn pending_status(action: &str, track_name: &str, downloaded: u64, total: u64) -> (m: String)
    ensures
        m@ == pending_message(action@, track_name@, downloaded, total),
{
    let head = concat3(action, " ", track_name);
    let head = concat_str(head.as_str(), " | Caching ");
    match pending_cache_percent(downloaded, total) {
        Some(p) => {
            let n = u64_text(p);
            concat3(head.as_str(), n.as_str(), "%")
        },
        None => {
            let n = u64_text(downloaded / 1024 / 1024);
            concat3(head.as_str(), n.as_str(), "MB")
        },
    }
}

/// The tracks of `tracks` outside repository `repository_id`, in order.
pub open spec fn tracks_outside(tracks: Seq<Track>, repository_id: i64) -> Seq<Track>
    decreases tracks.len(),
{
    if tracks.len() == 0 {
        Seq::empty()
    } else {
        tracks_outside(tracks.drop_last(), repository_id) + if tracks.last().repository_id
            != repository_id {
            seq![tracks.last()]
        } else {
            Seq::empty()
        }
    }
}

/// The repositories other than `repository_id`, in order.
pub open spec fn repositories_other_than(repositories: Seq<Repository>, repository_id: i64) -> Seq<Repository>
    decreases repositories.len(),
{
    if repositories.len() == 0 {
        Seq::empty()
    } else {
        repositories_other_than(repositories.drop_last(), repository_id) + if repositories.last().id
            != repository_id {
            seq![repositories.last()]
        } else {
            Seq::empty()
        }
    }
}

/// Law: deleting a repository's tracks keeps exactly the other
/// repositories' tracks: every track of another repository stays, every
/// remaining track is one of the old tracks, and none of them belongs to
/// the deleted repository.
pub proof fn law_deletion_keeps_other_tracks(tracks: Seq<Track>, repository_id: i64)
    ensures
        forall|i: int|
            0 <= i < tracks.len() && #[trigger] tracks[i].repository_id != repository_id
                ==> tracks_outside(tracks, repository_id).contains(tracks[i]),
        forall|k: int|
            0 <= k < tracks_outside(tracks, repository_id).len() ==> #[trigger] tracks_outside(
                tracks,
                repository_id,
            )[k].repository_id != repository_id && tracks.contains(tracks_outside(tracks, repository_id)[k]),
    decreases tracks.len(),
{
    if tracks.len() > 0 {
        let init = tracks.drop_last();
        law_deletion_keeps_other_tracks(init, repository_id);
        let before = tracks_outside(init, repository_id);
        let after = tracks_outside(tracks, repository_id);
        let n = tracks.len() - 1;
        assert forall|i: int|
            0 <= i < tracks.len() && #[trigger] tracks[i].repository_id != repository_id implies after.contains(
            tracks[i],
        ) by {
            if i < n {
                assert(init[i] == tracks[i]);
                assert(init[i].repository_id != repository_id);
                assert(before.contains(init[i]));
                let k = choose|k: int| 0 <= k < before.len() && before[k] == init[i];
                assert(after[k] == before[k]);
            } else {
                assert(after[before.len() as int] == tracks[n]);
            }
        }
        assert forall|k: int| 0 <= k < after.len() implies #[trigger] after[k].repository_id != repository_id
            && tracks.contains(after[k]) by {
            if k < before.len() {
                assert(after[k] == before[k]);
                assert(before[k].repository_id != repository_id);
                assert(init.contains(before[k]));
                let j = choose|j: int| 0 <= j < init.len() && init[j] == before[k];
                assert(tracks[j] == init[j]);
            } else {
                assert(after[k] == tracks[n]);
            }
        }
    }
}

fn retain_tracks(tracks: Vec<Track>, repository_id: i64) -> (r: Vec<Track>)
    ensures
        r@ == tracks_outside(tracks@, repository_id),
{
    let mut out: Vec<Track> = Vec::new();
    let ghost all = tracks@;
    for t in iter: tracks
        invariant
            iter.seq() == all,
            out@ == tracks_outside(all.take(iter.index() as int), repository_id),
    {
        assert(all.take(iter.index() + 1).drop_last() =~= all.take(iter.index() as int));
        if t.repository_id != repository_id {
            out.push(t);
        }
    }
    assert(all.take(all.len() as int) =~= all);
    out
}

fn retain_repositories(repositories: Vec<Repository>, repository_id: i64) -> (r: Vec<Repository>)
    ensures
        r@ == repositories_other_than(repositories@, repository_id),
{
    let mut out: Vec<Repository> = Vec::new();
    let ghost all = repositories@;
    for repo in iter: repositories
        invariant
            iter.seq() == all,
            out@ == repositories_other_than(all.take(iter.index() as int), repository_id),
    {
        assert(all.take(iter.index() + 1).drop_last() =~= all.take(iter.index() as int));
        if repo.id != repository_id {
            out.push(repo);
        }
    }
    assert(all.take(all.len() as int) =~= all);
    out
}

/// The row after `row` in sequential order, wrapping to the first row
/// where told.
pub open spec fn sequential_choice(rows: Seq<usize>, row: Option<usize>, wrap: bool) -> Option<usize> {
    match sequential_next(row, rows.len() as usize) {
        Some(r) => Some(rows[r as int]),
        None => if wrap && rows.len() > 0 {
            Some(rows[0])
        } else {
            None
        },
    }
}

impl App {
    /// The rows autoplay walks, as a spec.
    pub open spec fn playback_rows(self) -> Seq<usize> {
        if tab_filter(self.selected_tab) is Some && tab_filter(self.selected_tab) != Some(
            TrackListFilter::Blacklist,
        ) {
            self.visible_track_indices@
        } else {
            filtered_indices(self.tracks@, self.track_search_query@, TrackListFilter::Tracks)
        }
    }

    /// The track autoplay picks after library track `current`, with the
    /// shuffle seed after the pick.
    pub open spec fn next_choice(self, current: Option<usize>, wrap: bool) -> (Option<usize>, u64) {
        let rows = self.playback_rows();
        let row = position_in(rows, current);
        match self.playback_mode {
            PlaybackMode::Sequential => (sequential_choice(rows, row, wrap), self.shuffle_seed),
            PlaybackMode::Shuffle => if rows.len() == 0 {
                (None, self.shuffle_seed)
            } else if rows.len() == 1 {
                (Some(rows[0]), self.shuffle_seed)
            } else {
                let seed = shuffle_next_seed(self.shuffle_seed);
                (Some(rows[shuffle_pick(seed, row, rows.len() as usize) as int]), seed)
            },
        }
    }

    /// The track the skip keys move from: the one playing, else the one
    /// selected.
    pub open spec fn playing_or_selected(self, player: PlayerView) -> Option<usize> {
        match self.playing_track_index_spec(player) {
            Some(i) => Some(i),
            None => self.current_track_index,
        }
    }

    /// The track before the one playing (or selected) among the playback
    /// rows.
    pub open spec fn previous_choice(self, player: PlayerView) -> Option<usize> {
        let rows = self.playback_rows();
        match previous_index(position_in(rows, self.playing_or_selected(player)), rows.len() as usize, 1) {
            Some(r) => Some(rows[r as int]),
            None => None,
        }
    }
}

/// Law: skipping back moves one row up the playback rows: from the row
/// `r > 0` of the track playing (or selected) it queues the track at row
/// `r - 1`; from the first row it stays on the first row; and with no such
/// row it starts from the first row, where there is one. (The rows are
/// held in memory, so there are at most `usize::MAX` of them.)
pub proof fn law_previous_is_one_row_back(app: App, player: PlayerView)
    requires
        app.playback_rows().len() <= usize::MAX,
    ensures
        ({
            let rows = app.playback_rows();
            match position_in(rows, app.playing_or_selected(player)) {
                Some(r) => (r > 0 ==> app.previous_choice(player) == Some(rows[r - 1]))
                    && (r == 0 ==> app.previous_choice(player) == Some(rows[0])),
                None => (rows.len() > 0 ==> app.previous_choice(player) == Some(rows[0]))
                    && (rows.len() == 0 ==> app.previous_choice(player) is None),
            }
        }),
{
    let rows = app.playback_rows();
    let cur = app.playing_or_selected(player);
    match cur {
        Some(i) => {
            if rows.len() == 0 {
                assert(row_of(rows, i) is None);
            }
        },
        None => {},
    }
    match position_in(rows, cur) {
        Some(r) => {
            assert(rows.len() > 0);
            let len = rows.len() as usize;
            if r > 0 {
                assert(previous_index(Some(r), len, 1) == Some((r - 1) as usize));
            } else {
                assert(previous_index(Some(r), len, 1) == Some(0usize));
            }
        },
        None => {},
    }
}

/// The command that queues a track, or does nothing when there is none.
pub open spec fn queue_of(index: Option<usize>) -> Command {
    match index {
        Some(i) => Command::Queue(i),
        None => Command::Nothing,
    }
}

impl App {
    /// What `f` asks for: flipping the selected track's favorite flag,
    /// unless it is blacklisted or nothing is selected.
    pub open spec fn favorite_request(self) -> Command {
        match self.current_track_index {
            Some(i) => {
                let t = self.tracks@[i as int];
                if t.blacklisted {
                    Command::Nothing
                } else {
                    Command::SaveFavorite { index: i, track_id: t.id, favorite: !t.favorite }
                }
            },
            None => Command::Nothing,
        }
    }

    /// What `x` asks for: flipping the selected track's blacklist flag.
    pub open spec fn blacklist_request(self) -> Command {
        match self.current_track_index {
            Some(i) => Command::SaveBlacklisted {
                index: i,
                track_id: self.tracks@[i as int].id,
                blacklisted: !self.tracks@[i as int].blacklisted,
            },
            None => Command::Nothing,
        }
    }

    /// What `d` asks for: deleting the selected repository when the press
    /// confirms an earlier one, else nothing yet.
    pub open spec fn delete_request(self, player: PlayerView) -> Command {
        match self.current_repository_index {
            Some(i) => if self.pending_repository_delete == Some(i) {
                let id = self.repositories@[i as int].id;
                Command::DeleteRepository {
                    index: i,
                    repository_id: id,
                    cancel_pending: pending_repository_is(self.pending_playback, id),
                    stop_player: loaded_repository_is(player, id),
                }
            } else {
                Command::Nothing
            },
            None => Command::Nothing,
        }
    }

    /// The command a key of the main screen yields.
    pub open spec fn key_command(self, key: KeyInput, player: PlayerView) -> Command {
        let track_list = tab_filter(self.selected_tab) is Some;
        let can_play = track_list && tab_filter(self.selected_tab) != Some(TrackListFilter::Blacklist);
        let has_rows = self.visible_track_indices@.len() > 0;
        if self.show_help || self.is_searching_tracks {
            Command::Nothing
        } else {
            match key.code {
                Key::Char('m') => if track_list {
                    Command::SaveMode(mode_toggled(self.playback_mode))
                } else {
                    Command::Nothing
                },
                Key::Char('.') => if can_play && has_rows {
                    queue_of(self.next_choice(self.playing_or_selected(player), true).0)
                } else {
                    Command::Nothing
                },
                Key::Char(',') => if can_play && has_rows {
                    queue_of(self.previous_choice(player))
                } else {
                    Command::Nothing
                },
                Key::Enter => if can_play && has_rows {
                    queue_of(self.current_track_index)
                } else {
                    Command::Nothing
                },
                Key::Char('f') => if track_list && !key.control {
                    self.favorite_request()
                } else {
                    Command::Nothing
                },
                Key::Char('x') => if track_list {
                    self.blacklist_request()
                } else {
                    Command::Nothing
                },
                Key::Char('d') => if self.selected_tab == TAB_REPOSITORIES {
                    self.delete_request(player)
                } else {
                    Command::Nothing
                },
                Key::Char(' ') => if player.is_playing {
                    Command::Pause
                } else if player.is_paused {
                    Command::Resume
                } else if can_play {
                    queue_of(self.current_track_index)
                } else if self.selected_tab == TAB_BLACKLIST {
                    Command::Nothing
                } else {
                    queue_of(self.playing_track_index_spec(player))
                },
                Key::Char('+') => Command::VolumeUp,
                Key::Char('-') => Command::VolumeDown,
                _ => Command::Nothing,
            }
        }
    }
}

impl App {

    /// The track to play after the library track `current`: the next row in
    /// sequential mode (wrapping to the first where told), a random other
    /// row in shuffle mode.
    pub fn next_playback_index_from(&mut self, current: Option<usize>, wrap: bool) -> (r: Option<usize>)
        requires
            old(self).wf(),
        ensures
            final(self).wf(),
            r matches Some(i) ==> i < old(self).tracks@.len(),
            (r, final(self).shuffle_seed) == old(self).next_choice(current, wrap),
            old(self).playback_mode == PlaybackMode::Sequential ==> r == sequential_choice(
                old(self).playback_rows(),
                position_in(old(self).playback_rows(), current),
                wrap,
            ) && final(self).shuffle_seed == old(self).shuffle_seed,
            old(self).playback_mode == PlaybackMode::Shuffle ==> ({
                let rows = old(self).playback_rows();
                let row = position_in(rows, current);
                &&& rows.len() == 0 ==> r is None && final(self).shuffle_seed == old(self).shuffle_seed
                &&& rows.len() == 1 ==> r == Some(rows[0]) && final(self).shuffle_seed == old(
                    self,
                ).shuffle_seed
                &&& rows.len() > 1 ==> final(self).shuffle_seed == shuffle_next_seed(
                    old(self).shuffle_seed,
                ) && r == Some(rows[shuffle_pick(final(self).shuffle_seed, row, rows.len() as usize) as int])
            }),
            final(self).tracks == old(self).tracks,
            final(self).repositories == old(self).repositories,
            final(self).visible_track_indices == old(self).visible_track_indices,
            final(self).selected_tab == old(self).selected_tab,
            final(self).current_track_index == old(self).current_track_index,
            final(self).current_track_row_index == old(self).current_track_row_index,
            final(self).current_repository_index == old(self).current_repository_index,
            final(self).track_search_query == old(self).track_search_query,
            final(self).status_message == old(self).status_message,
            final(self).pending_playback == old(self).pending_playback,
            final(self).pending_repository_delete == old(self).pending_repository_delete,
            final(self).playback_mode == old(self).playback_mode,
    {
        let rows = self.active_playback_indices();
        let n = rows.len();
        let nt = self.tracks.len();
        proof {
            assert(rows@.len() == n);
            assert(self.tracks@.len() == nt);
            crate::tui::util::law_filtered_indices_exact(
                self.tracks@,
                self.track_search_query@,
                TrackListFilter::Tracks,
            );
            assert(rows_in_library(rows@, self.tracks@.len()));
        }
        let row = match current {
            Some(i) => find_row(&rows, i),
            None => None,
        };
        proof {
            if let Some(i) = current {
                lemma_row_of(rows@, i);
            }
        }
        match self.playback_mode {
            PlaybackMode::Sequential => {
                match crate::tui::util::sequential_autoplay_index(row, rows.len()) {
                    Some(r) => Some(rows[r]),
                    None => if wrap && rows.len() > 0 {
                        Some(rows[0])
                    } else {
                        None
                    },
                }
            },
            PlaybackMode::Shuffle => {
                let mut seed = self.shuffle_seed;
                let picked = shuffle_autoplay_index(row, rows.len(), &mut seed);
                self.shuffle_seed = seed;
                proof {
                    if rows@.len() > 1 {
                        crate::tui::util::law_shuffle_avoids_current(seed, row, rows@.len() as usize);
                    }
                }
                match picked {
                    Some(r) => Some(rows[r]),
                    None => None,
                }
            },
        }
    }

    /// Skips to the track after the one playing (or selected), wrapping in
    /// sequential mode.
    pub fn play_next_track(&mut self, player: PlayerView) -> (c: Command)
        requires
            old(self).wf(),
        ensures
            final(self).wf(),
            c matches Command::Queue(i) ==> i < old(self).tracks@.len(),
            c == queue_of(old(self).next_choice(old(self).playing_or_selected(player), true).0),
            final(self).shuffle_seed == old(self).next_choice(old(self).playing_or_selected(player), true).1,
            final(self).tracks == old(self).tracks,
            final(self).repositories == old(self).repositories,
            final(self).visible_track_indices == old(self).visible_track_indices,
            final(self).selected_tab == old(self).selected_tab,
            final(self).current_track_index == old(self).current_track_index,
            final(self).current_track_row_index == old(self).current_track_row_index,
            final(self).current_repository_index == old(self).current_repository_index,
            final(self).track_search_query == old(self).track_search_query,
            final(self).status_message == old(self).status_message,
            final(self).pending_playback == old(self).pending_playback,
            final(self).pending_repository_delete == old(self).pending_repository_delete,
            final(self).playback_mode == old(self).playback_mode,
    {
        let current = match self.playing_track_index(player) {
            Some(i) => Some(i),
            None => self.current_track_index,
        };
        match self.next_playback_index_from(current, true) {
            Some(i) => Command::Queue(i),
            None => Command::Nothing,
        }
    }

    /// Goes back to the track before the one playing (or selected).
    pub fn play_previous_track(&self, player: PlayerView) -> (c: Command)
        requires
            self.wf(),
        ensures
            c matches Command::Queue(i) ==> i < self.tracks@.len(),
            c == queue_of(self.previous_choice(player)),
            forall|r: usize|
                position_in(self.playback_rows(), self.playing_or_selected(player)) == Some(r) && r > 0
                    ==> c == Command::Queue(#[trigger] self.playback_rows()[r - 1]),
    {
        let current = match self.playing_track_index(player) {
            Some(i) => Some(i),
            None => self.current_track_index,
        };
        let rows = self.active_playback_indices();
        let n = rows.len();
        let nt = self.tracks.len();
        proof {
            assert(rows@.len() == n);
            assert(self.tracks@.len() == nt);
            assert(rows@ == self.playback_rows());
            law_previous_is_one_row_back(*self, player);
            crate::tui::util::law_filtered_indices_exact(
                self.tracks@,
                self.track_search_query@,
                TrackListFilter::Tracks,
            );
            crate::tui::util::law_selection_moves_stay_in_range(
                position_in(rows@, current),
                n,
                1,
            );
        }
        let row = match current {
            Some(i) => find_row(&rows, i),
            None => None,
        };
        proof {
            if let Some(i) = current {
                lemma_row_of(rows@, i);
            }
        }
        match previous_track_index(row, rows.len(), 1) {
            Some(r) => Command::Queue(rows[r]),
            None => Command::Nothing,
        }
    }

    /// The library index of the loaded track, as a spec.
    pub open spec fn playing_track_index_spec(self, player: PlayerView) -> Option<usize> {
        match player.current_track {
            Some(t) => index_of_id(self.tracks@, t.id),
            None => None,
        }
    }

    /// Queues library track `index`: selects it, refuses a blacklisted
    /// track, plays it from disk when it is downloaded and its file exists,
    /// and otherwise asks for it to be streamed. Either way a pending
    /// download is given up.
    pub fn queue_track(&mut self, index: usize, local_file_exists: bool) -> (a: QueueAction)
        requires
            old(self).wf(),
        ensures
            final(self).wf(),
            index >= old(self).tracks@.len() ==> a == QueueAction::Nothing && *final(self) == *old(self),
            index < old(self).tracks@.len() ==> ({
                let t = old(self).tracks@[index as int];
                &&& final(self).current_track_row_index == row_of(old(self).visible_track_indices@, index)
                &&& t.blacklisted ==> a == QueueAction::Blocked && final(self).status_message@ == "Restore "@
                    + t.name@ + " before playing"@ && final(self).pending_playback == old(self).pending_playback
                &&& !t.blacklisted && crate::models::playable(t, local_file_exists) ==> a == (QueueAction::PlayLocal {
                    cancel_pending: old(self).pending_playback is Some,
                }) && final(self).status_message@ == "Playing "@ + t.name@ && final(self).pending_playback is None
                &&& !t.blacklisted && !crate::models::playable(t, local_file_exists) ==> a == (QueueAction::Stream {
                    cancel_pending: old(self).pending_playback is Some,
                }) && final(self).status_message == old(self).status_message && final(self).pending_playback is None
            }),
            final(self).tracks == old(self).tracks,
            final(self).visible_track_indices == old(self).visible_track_indices,
            final(self).selected_tab == old(self).selected_tab,
            final(self).repositories == old(self).repositories,
    {
        if index >= self.tracks.len() {
            return QueueAction::Nothing;
        }
        self.select_track_index(Some(index));
        let track = &self.tracks[index];
        if track.blacklisted {
            self.status_message = concat3("Restore ", track.name.as_str(), " before playing");
            return QueueAction::Blocked;
        }
        let cancel_pending = self.pending_playback.is_some();
        if track.is_playable(local_file_exists) {
            self.pending_playback = None;
            self.status_message = concat_str("Playing ", track.name.as_str());
            return QueueAction::PlayLocal { cancel_pending };
        }
        self.pending_playback = None;
        QueueAction::Stream { cancel_pending }
    }

    /// Records that streaming of library track `index` has started.
    pub fn streaming_started(&mut self, index: usize)
        requires
            old(self).wf(),
            index < old(self).tracks@.len(),
        ensures
            final(self).wf(),
            final(self).pending_playback matches Some(p) && p.track_index == index && same_track(
                p.track,
                old(self).tracks@[index as int],
            ) && p.stage == PendingStage::Preparing,
            final(self).status_message@ == "Buffering "@ + old(self).tracks@[index as int].name@,
            final(self).tracks == old(self).tracks,
            final(self).visible_track_indices == old(self).visible_track_indices,
            final(self).current_track_index == old(self).current_track_index,
    {
        let track = self.tracks[index].duplicate();
        self.status_message = concat_str("Buffering ", track.name.as_str());
        self.pending_playback = Some(PendingPlayback { track_index: index, track, stage: PendingStage::Preparing });
    }

    /// A tick while the decoder of the pending track is being prepared.
    pub fn preparing_tick(&mut self, event: DecoderEvent, downloaded_bytes: u64) -> (a: PendingAction)
        requires
            old(self).wf(),
            old(self).pending_playback matches Some(p) && p.stage == PendingStage::Preparing,
        ensures
            final(self).wf(),
            match event {
                DecoderEvent::Waiting => a == PendingAction::Nothing && final(self).pending_playback
                    == old(self).pending_playback && final(self).status_message@ == pending_message(
                    "Buffering"@,
                    old(self).pending_playback->0.track.name@,
                    downloaded_bytes,
                    old(self).pending_playback->0.track.size,
                ),
                DecoderEvent::Ready => a == PendingAction::LoadDecoder && final(self).pending_playback
                    == old(self).pending_playback && final(self).status_message == old(self).status_message,
                DecoderEvent::Failed(e) => (a matches PendingAction::Abandon { error, abort_download }
                    && error@ == e@ && abort_download) && final(self).pending_playback is None
                    && final(self).status_message@ == "Playback failed: "@ + e@,
                DecoderEvent::TaskFailed(e) => (a matches PendingAction::Abandon { error, abort_download }
                    && error@ == e@ && abort_download) && final(self).pending_playback is None
                    && final(self).status_message@ == "Playback task failed: "@ + e@,
            },
            final(self).tracks == old(self).tracks,
            final(self).visible_track_indices == old(self).visible_track_indices,
            final(self).current_track_index == old(self).current_track_index,
    {
        match event {
            DecoderEvent::Waiting => {
                let p = self.pending_playback.as_ref().unwrap();
                self.status_message = pending_status("Buffering", p.track.name.as_str(), downloaded_bytes, p.track.size);
                PendingAction::Nothing
            },
            DecoderEvent::Ready => PendingAction::LoadDecoder,
            DecoderEvent::Failed(e) => {
                self.pending_playback = None;
                self.status_message = concat_str("Playback failed: ", e.as_str());
                PendingAction::Abandon { error: e, abort_download: true }
            },
            DecoderEvent::TaskFailed(e) => {
                self.pending_playback = None;
                self.status_message = concat_str("Playback task failed: ", e.as_str());
                PendingAction::Abandon { error: e, abort_download: true }
            },
        }
    }

    /// Records that the player now plays the pending track from its
    /// decoder: the track is selected and its download goes on caching.
    pub fn decoder_loaded(&mut self, downloaded_bytes: u64)
        requires
            old(self).wf(),
            old(self).pending_playback is Some,
        ensures
            final(self).wf(),
            final(self).pending_playback matches Some(p) && p.stage == PendingStage::Caching
                && p.track_index == old(self).pending_playback->0.track_index,
            final(self).status_message@ == pending_message(
                "Playing"@,
                old(self).pending_playback->0.track.name@,
                downloaded_bytes,
                old(self).pending_playback->0.track.size,
            ),
            final(self).tracks == old(self).tracks,
            final(self).visible_track_indices == old(self).visible_track_indices,
    {
        let p = self.pending_playback.take().unwrap();
        self.select_track_index(Some(p.track_index));
        self.status_message = pending_status("Playing", p.track.name.as_str(), downloaded_bytes, p.track.size);
        self.pending_playback = Some(PendingPlayback { track_index: p.track_index, track: p.track, stage: PendingStage::Caching });
    }

    /// Forgets the pending download without cancelling it.
    pub fn drop_pending(&mut self)
        ensures
            final(self).pending_playback is None,
            final(self).tracks == old(self).tracks,
            final(self).visible_track_indices == old(self).visible_track_indices,
            final(self).selected_tab == old(self).selected_tab,
            final(self).current_track_index == old(self).current_track_index,
            final(self).current_track_row_index == old(self).current_track_row_index,
            final(self).current_repository_index == old(self).current_repository_index,
            final(self).repositories == old(self).repositories,
            final(self).status_message == old(self).status_message,
    {
        self.pending_playback = None;
    }

    /// A tick while the pending track plays and its download finishes. A
    /// finished download stores the cached file on the track's row.
    pub fn caching_tick(&mut self, event: DownloadEvent, downloaded_bytes: u64, player_playing: bool) -> (a: PendingAction)
        requires
            old(self).wf(),
            old(self).pending_playback matches Some(p) && p.stage == PendingStage::Caching,
        ensures
            final(self).wf(),
            final(self).visible_track_indices == old(self).visible_track_indices,
            final(self).tracks@.len() == old(self).tracks@.len(),
            match event {
                DownloadEvent::Waiting => a == PendingAction::Nothing && final(self).pending_playback
                    == old(self).pending_playback && final(self).status_message@ == pending_message(
                    "Playing"@,
                    old(self).pending_playback->0.track.name@,
                    downloaded_bytes,
                    old(self).pending_playback->0.track.size,
                ) && final(self).tracks == old(self).tracks,
                DownloadEvent::Done(path) => {
                    let p = old(self).pending_playback->0;
                    &&& a == PendingAction::Nothing
                    &&& final(self).pending_playback is None
                    &&& (player_playing ==> final(self).status_message@ == "Playing "@ + p.track.name@ + " | Cached"@)
                    &&& (!player_playing ==> final(self).status_message@ == "Cached "@ + p.track.name@)
                    &&& (p.track_index < old(self).tracks@.len() ==> {
                        &&& final(self).tracks@[p.track_index as int] == (Track {
                            local_path: Some(path),
                            downloaded: true,
                            ..p.track
                        })
                        &&& forall|j: int| 0 <= j < old(self).tracks@.len() && j != p.track_index
                            ==> #[trigger] final(self).tracks@[j] == old(self).tracks@[j]
                    })
                    &&& (p.track_index >= old(self).tracks@.len() ==> final(self).tracks == old(self).tracks)
                },
                DownloadEvent::Failed(e) => (a matches PendingAction::Abandon { error, abort_download }
                    && error@ == e@ && !abort_download) && final(self).pending_playback is None
                    && final(self).status_message@ == "Cache failed: "@ + e@ && final(self).tracks == old(self).tracks,
                DownloadEvent::TaskFailed(e) => (a matches PendingAction::Abandon { error, abort_download }
                    && error@ == e@ && !abort_download) && final(self).pending_playback is None
                    && final(self).status_message@ == "Cache task failed: "@ + e@ && final(self).tracks == old(self).tracks,
            },
    {
        match event {
            DownloadEvent::Waiting => {
                let p = self.pending_playback.as_ref().unwrap();
                self.status_message = pending_status("Playing", p.track.name.as_str(), downloaded_bytes, p.track.size);
                PendingAction::Nothing
            },
            DownloadEvent::Done(path) => {
                let p = self.pending_playback.take().unwrap();
                let index = p.track_index;
                let track = p.track.with_local_file(path, true);
                self.status_message = if player_playing {
                    concat3("Playing ", track.name.as_str(), " | Cached")
                } else {
                    concat_str("Cached ", track.name.as_str())
                };
                if index < self.tracks.len() {
                    self.tracks.set(index, track);
                }
                PendingAction::Nothing
            },
            DownloadEvent::Failed(e) => {
                self.pending_playback = None;
                self.status_message = concat_str("Cache failed: ", e.as_str());
                PendingAction::Abandon { error: e, abort_download: false }
            },
            DownloadEvent::TaskFailed(e) => {
                self.pending_playback = None;
                self.status_message = concat_str("Cache task failed: ", e.as_str());
                PendingAction::Abandon { error: e, abort_download: false }
            },
        }
    }
}

} // verus!

verus! {

/// What saving a blacklist flag asks of the caller.
#[derive(Debug, Clone, Copy, PartialEq, Eq, Structural)]
pub struct BlacklistEffects {
    /// Stop the player: it had the newly blacklisted track loaded.
    pub stop_player: bool,
    /// Cancel the pending download: it was of the newly blacklisted track.
    pub cancel_pending: bool,
}

/// Two tracks agree on everything but their favorite and blacklist flags.
pub open spec fn same_but_flags(a: Track, b: Track) -> bool {
    same_track(Track { favorite: b.favorite, blacklisted: b.blacklisted, ..a }, b)
}

/// The player has the track with this id loaded.
pub open spec fn loaded_track_is(player: PlayerView, id: i64) -> bool {
    match player.current_track {
        Some(t) => t.id == id,
        None => false,
    }
}

/// The player has a track of this repository loaded.
pub open spec fn loaded_repository_is(player: PlayerView, repository_id: i64) -> bool {
    match player.current_track {
        Some(t) => t.repository_id == repository_id,
        None => false,
    }
}

/// The pending download is of the track with this id.
pub open spec fn pending_track_is(pending: Option<PendingPlayback>, id: i64) -> bool {
    match pending {
        Some(p) => p.track.id == id,
        None => false,
    }
}

/// The pending download is of a track of this repository.
pub open spec fn pending_repository_is(pending: Option<PendingPlayback>, repository_id: i64) -> bool {
    match pending {
        Some(p) => p.track.repository_id == repository_id,
        None => false,
    }
}

/// `s` without its last character (unchanged when empty).
pub open spec fn drop_last_char(s: Seq<char>) -> Seq<char> {
    if s.len() == 0 {
        s
    } else {
        s.drop_last()
    }
}

fn without_last_char(s: &String) -> (r: String)
    ensures
        r@ == drop_last_char(s@),
{
    let cs = crate::text::chars_of(s.as_str());
    if cs.len() == 0 {
        return crate::text::string_of(&cs);
    }
    let prefix = crate::text::copy_range(&cs, 0, cs.len() - 1);
    assert(prefix@ =~= cs@.drop_last());
    crate::text::string_of(&prefix)
}

impl App {
    /// Shows an error in the status line.
    pub fn show_error(&mut self, error: &str)
        ensures
            final(self).status_message@ == "Error: "@ + error@,
            final(self).tracks == old(self).tracks,
            final(self).repositories == old(self).repositories,
            final(self).visible_track_indices == old(self).visible_track_indices,
            final(self).selected_tab == old(self).selected_tab,
            final(self).current_track_index == old(self).current_track_index,
            final(self).current_track_row_index == old(self).current_track_row_index,
            final(self).current_repository_index == old(self).current_repository_index,
            final(self).pending_playback == old(self).pending_playback,
            final(self).track_search_query == old(self).track_search_query,
    {
        self.status_message = concat_str("Error: ", error);
    }

    /// Shows the track the player is playing.
    pub fn show_playing(&mut self, track_name: &str)
        ensures
            final(self).status_message@ == "Playing "@ + track_name@,
            final(self).tracks == old(self).tracks,
            final(self).repositories == old(self).repositories,
            final(self).visible_track_indices == old(self).visible_track_indices,
            final(self).selected_tab == old(self).selected_tab,
            final(self).current_track_index == old(self).current_track_index,
            final(self).current_track_row_index == old(self).current_track_row_index,
            final(self).current_repository_index == old(self).current_repository_index,
            final(self).pending_playback == old(self).pending_playback,
            final(self).track_search_query == old(self).track_search_query,
    {
        self.status_message = concat_str("Playing ", track_name);
    }

    /// Reports how saving the playback mode went (`error` holds the failure).
    pub fn mode_saved(&mut self, error: Option<String>)
        ensures
            error is None ==> final(self).status_message@ == "Playback mode: "@ + mode_label(
                old(self).playback_mode,
            ),
            error matches Some(e) ==> final(self).status_message@ == "Playback mode: "@ + mode_label(
                old(self).playback_mode,
            ) + " (save failed: "@ + e@ + ")"@,
            final(self).tracks == old(self).tracks,
            final(self).repositories == old(self).repositories,
            final(self).visible_track_indices == old(self).visible_track_indices,
            final(self).selected_tab == old(self).selected_tab,
            final(self).current_track_index == old(self).current_track_index,
            final(self).current_track_row_index == old(self).current_track_row_index,
            final(self).current_repository_index == old(self).current_repository_index,
            final(self).playback_mode == old(self).playback_mode,
            final(self).pending_playback == old(self).pending_playback,
    {
        self.status_message = match &error {
            None => concat_str("Playback mode: ", self.playback_mode.label()),
            Some(e) => {
                let head = concat_str("Playback mode: ", self.playback_mode.label());
                let head = concat3(head.as_str(), " (save failed: ", e.as_str());
                concat_str(head.as_str(), ")")
            },
        };
    }

    /// Replaces the library with what was loaded from the database, keeping
    /// the selections where they still fit.
    pub fn load_data(&mut self, repositories: Vec<Repository>, tracks: Vec<Track>)
        requires
            old(self).wf(),
        ensures
            final(self).wf(),
            final(self).rows_current(),
            final(self).repositories@ == repositories@,
            final(self).tracks@ == tracks@,
            final(self).current_repository_index == clamped_selection(
                old(self).current_repository_index,
                repositories@.len(),
            ),
            final(self).current_track_row_index == synced_row(
                final(self).visible_track_indices@,
                old(self).current_track_index,
            ),
            final(self).selected_tab == old(self).selected_tab,
            final(self).status_message == old(self).status_message,
            final(self).pending_playback == old(self).pending_playback,
            final(self).track_search_query == old(self).track_search_query,
            final(self).playback_mode == old(self).playback_mode,
    {
        self.repositories = repositories;
        self.tracks = tracks;
        self.current_repository_index = match self.current_repository_index {
            Some(i) => if self.repositories.len() == 0 {
                None
            } else if i < self.repositories.len() {
                Some(i)
            } else {
                Some(self.repositories.len() - 1)
            },
            None => None,
        };
        self.refresh_visible_tracks();
        let t = self.current_track_index;
        let nt = self.tracks.len();
        let nv = self.visible_track_indices.len();
        proof {
            assert(self.tracks@.len() == nt && self.visible_track_indices@.len() == nv);
            crate::tui::util::law_filtered_indices_exact(
                self.tracks@,
                self.track_search_query@,
                filter_for_tab(self.selected_tab),
            );
            if let Some(r) = self.current_track_row_index {
                lemma_row_of_ascending(self.visible_track_indices@, r as int);
            }
        }
        self.select_track_index(t);
    }

    /// Asks to flip the favorite flag of the selected track; blacklisted
    /// tracks are refused.
    pub fn toggle_selected_track_favorite(&mut self) -> (c: Command)
        requires
            old(self).wf(),
        ensures
            final(self).wf(),
            c == old(self).favorite_request(),
            favorite_key_effect(*old(self), *final(self)),
            old(self).current_track_index is None ==> c == Command::Nothing
                && final(self).status_message@ == "No track selected"@,
            old(self).current_track_index matches Some(i) ==> ({
                let t = old(self).tracks@[i as int];
                &&& t.blacklisted ==> c == Command::Nothing && final(self).status_message@
                    == "Restore "@ + t.name@ + " before favoriting"@
                &&& !t.blacklisted ==> c == (Command::SaveFavorite {
                    index: i,
                    track_id: t.id,
                    favorite: !t.favorite,
                }) && final(self).status_message == old(self).status_message
            }),
            final(self).tracks == old(self).tracks,
            final(self).visible_track_indices == old(self).visible_track_indices,
            final(self).selected_tab == old(self).selected_tab,
            final(self).pending_playback == old(self).pending_playback,
    {
        let index = match self.current_track_index {
            Some(i) => i,
            None => {
                self.status_message = "No track selected".to_string();
                return Command::Nothing;
            },
        };
        let track = &self.tracks[index];
        if track.blacklisted {
            self.status_message = concat3("Restore ", track.name.as_str(), " before favoriting");
            return Command::Nothing;
        }
        Command::SaveFavorite { index, track_id: track.id, favorite: !track.favorite }
    }

    /// Records a saved favorite flag and shows the change.
    pub fn favorite_saved(&mut self, index: usize, favorite: bool)
        requires
            old(self).wf(),
            index < old(self).tracks@.len(),
        ensures
            final(self).wf(),
            final(self).rows_current(),
            final(self).tracks@ == old(self).tracks@.update(index as int, final(self).tracks@[index as int]),
            final(self).tracks@[index as int].favorite == favorite,
            final(self).tracks@[index as int].blacklisted == old(self).tracks@[index as int].blacklisted,
            same_but_flags(final(self).tracks@[index as int], old(self).tracks@[index as int]),
            favorite ==> final(self).status_message@ == "Favorited "@ + old(self).tracks@[index as int].name@,
            !favorite ==> final(self).status_message@ == "Removed favorite "@ + old(
                self,
            ).tracks@[index as int].name@,
            final(self).selected_tab == old(self).selected_tab,
            final(self).pending_playback == old(self).pending_playback,
    {
        let mut t = self.tracks[index].duplicate();
        t.favorite = favorite;
        self.status_message = if favorite {
            concat_str("Favorited ", t.name.as_str())
        } else {
            concat_str("Removed favorite ", t.name.as_str())
        };
        self.tracks.set(index, t);
        self.refresh_visible_tracks();
    }

    /// Asks to flip the blacklist flag of the selected track.
    pub fn toggle_selected_track_blacklisted(&mut self) -> (c: Command)
        requires
            old(self).wf(),
        ensures
            final(self).wf(),
            c == old(self).blacklist_request(),
            blacklist_key_effect(*old(self), *final(self)),
            old(self).current_track_index is None ==> c == Command::Nothing
                && final(self).status_message@ == "No track selected"@,
            old(self).current_track_index matches Some(i) ==> c == (Command::SaveBlacklisted {
                index: i,
                track_id: old(self).tracks@[i as int].id,
                blacklisted: !old(self).tracks@[i as int].blacklisted,
            }) && final(self).status_message == old(self).status_message,
            final(self).tracks == old(self).tracks,
            final(self).visible_track_indices == old(self).visible_track_indices,
            final(self).selected_tab == old(self).selected_tab,
            final(self).pending_playback == old(self).pending_playback,
    {
        let index = match self.current_track_index {
            Some(i) => i,
            None => {
                self.status_message = "No track selected".to_string();
                return Command::Nothing;
            },
        };
        let track = &self.tracks[index];
        Command::SaveBlacklisted { index, track_id: track.id, blacklisted: !track.blacklisted }
    }

    /// Records a saved blacklist flag: a blacklisted track stops being a
    /// favorite, and stops playing or downloading.
    pub fn blacklist_saved(&mut self, index: usize, blacklisted: bool, player: PlayerView) -> (e: BlacklistEffects)
        requires
            old(self).wf(),
            index < old(self).tracks@.len(),
        ensures
            final(self).wf(),
            final(self).rows_current(),
            final(self).tracks@ == old(self).tracks@.update(index as int, final(self).tracks@[index as int]),
            final(self).tracks@[index as int].blacklisted == blacklisted,
            same_but_flags(final(self).tracks@[index as int], old(self).tracks@[index as int]),
            blacklisted ==> !final(self).tracks@[index as int].favorite,
            !blacklisted ==> final(self).tracks@[index as int].favorite == old(self).tracks@[index as int].favorite,
            e.stop_player == (blacklisted && loaded_track_is(player, old(self).tracks@[index as int].id)),
            e.cancel_pending == (blacklisted && pending_track_is(
                old(self).pending_playback,
                old(self).tracks@[index as int].id,
            )),
            e.cancel_pending ==> final(self).pending_playback is None,
            !e.cancel_pending ==> final(self).pending_playback == old(self).pending_playback,
            blacklisted ==> final(self).status_message@ == "Blacklisted "@ + old(self).tracks@[index as int].name@,
            !blacklisted ==> final(self).status_message@ == "Restored "@ + old(self).tracks@[index as int].name@,
            final(self).selected_tab == old(self).selected_tab,
    {
        let mut t = self.tracks[index].duplicate();
        let id = t.id;
        t.blacklisted = blacklisted;
        if blacklisted {
            t.favorite = false;
        }
        self.status_message = if blacklisted {
            concat_str("Blacklisted ", t.name.as_str())
        } else {
            concat_str("Restored ", t.name.as_str())
        };
        self.tracks.set(index, t);
        let stop_player = blacklisted && match player.current_track {
            Some(c) => c.id == id,
            None => false,
        };
        let cancel_pending = blacklisted && match &self.pending_playback {
            Some(p) => p.track.id == id,
            None => false,
        };
        if cancel_pending {
            self.pending_playback = None;
        }
        self.refresh_visible_tracks();
        BlacklistEffects { stop_player, cancel_pending }
    }

    /// The first press of `d` asks for confirmation; a second press on the
    /// same repository asks to delete it.
    pub fn confirm_or_delete_selected_repository(&mut self, player: PlayerView) -> (c: Command)
        requires
            old(self).wf(),
        ensures
            final(self).wf(),
            c == old(self).delete_request(player),
            delete_key_effect(*old(self), *final(self)),
            old(self).current_repository_index is None ==> c == Command::Nothing
                && final(self).status_message@ == "No repository selected"@,
            match old(self).current_repository_index {
                Some(i) => if old(self).pending_repository_delete != Some(i) {
                    &&& c == Command::Nothing
                    &&& final(self).pending_repository_delete == Some(i)
                    &&& final(self).status_message@ == "Press d again to delete "@ + old(
                        self,
                    ).repositories@[i as int].owner@ + "/"@ + old(self).repositories@[i as int].name@
                        + " and its tracks/cache"@
                } else {
                    let id = old(self).repositories@[i as int].id;
                    let cancel = pending_repository_is(old(self).pending_playback, id);
                    &&& c == (Command::DeleteRepository {
                        index: i,
                        repository_id: id,
                        cancel_pending: cancel,
                        stop_player: loaded_repository_is(player, id),
                    })
                    &&& cancel ==> final(self).pending_playback is None
                    &&& !cancel ==> final(self).pending_playback == old(self).pending_playback
                },
                None => true,
            },
            final(self).tracks == old(self).tracks,
            final(self).repositories == old(self).repositories,
            final(self).visible_track_indices == old(self).visible_track_indices,
            final(self).selected_tab == old(self).selected_tab,
    {
        let index = match self.current_repository_index {
            Some(i) => i,
            None => {
                self.status_message = "No repository selected".to_string();
                return Command::Nothing;
            },
        };
        let repository = &self.repositories[index];
        if self.pending_repository_delete != Some(index) {
            self.pending_repository_delete = Some(index);
            let head = concat3("Press d again to delete ", repository.owner.as_str(), "/");
            self.status_message = concat3(head.as_str(), repository.name.as_str(), " and its tracks/cache");
            return Command::Nothing;
        }
        let id = repository.id;
        let cancel_pending = match &self.pending_playback {
            Some(p) => p.track.repository_id == id,
            None => false,
        };
        if cancel_pending {
            self.pending_playback = None;
        }
        let stop_player = match player.current_track {
            Some(t) => t.repository_id == id,
            None => false,
        };
        Command::DeleteRepository { index, repository_id: id, cancel_pending, stop_player }
    }

    /// Records that repository `index` was deleted with `deleted_tracks`
    /// tracks and cache entries: it and its tracks leave the library.
    pub fn repository_deleted(&mut self, index: usize, deleted_tracks: u64)
        requires
            old(self).wf(),
            index < old(self).repositories@.len(),
        ensures
            final(self).wf(),
            final(self).rows_current(),
            final(self).repositories@ == repositories_other_than(
                old(self).repositories@,
                old(self).repositories@[index as int].id,
            ),
            final(self).tracks@ == tracks_outside(old(self).tracks@, old(self).repositories@[index as int].id),
            forall|i: int|
                0 <= i < old(self).tracks@.len() && #[trigger] old(self).tracks@[i].repository_id
                    != old(self).repositories@[index as int].id ==> final(self).tracks@.contains(
                    old(self).tracks@[i],
                ),
            forall|k: int|
                0 <= k < final(self).tracks@.len() ==> #[trigger] final(self).tracks@[k].repository_id
                    != old(self).repositories@[index as int].id,
            final(self).current_repository_index == clamped_selection(
                old(self).current_repository_index,
                final(self).repositories@.len(),
            ),
            final(self).current_track_row_index == synced_row(
                final(self).visible_track_indices@,
                old(self).current_track_index,
            ),
            final(self).pending_repository_delete is None,
            final(self).status_message@ == "Deleted "@ + old(self).repositories@[index as int].owner@ + "/"@
                + old(self).repositories@[index as int].name@ + " with "@ + nat_decimal(deleted_tracks as nat)
                + " tracks/cache entries"@,
            final(self).selected_tab == old(self).selected_tab,
    {
        let repository = &self.repositories[index];
        let id = repository.id;
        proof {
            law_deletion_keeps_other_tracks(self.tracks@, id);
        }
        let head = concat3("Deleted ", repository.owner.as_str(), "/");
        let head = concat3(head.as_str(), repository.name.as_str(), " with ");
        let count = u64_text(deleted_tracks);
        let message = concat3(head.as_str(), count.as_str(), " tracks/cache entries");
        let mut repositories: Vec<Repository> = Vec::new();
        std::mem::swap(&mut repositories, &mut self.repositories);
        self.repositories = retain_repositories(repositories, id);
        let mut tracks: Vec<Track> = Vec::new();
        std::mem::swap(&mut tracks, &mut self.tracks);
        self.tracks = retain_tracks(tracks, id);
        self.current_repository_index = match self.current_repository_index {
            Some(i) => if self.repositories.len() == 0 {
                None
            } else if i < self.repositories.len() {
                Some(i)
            } else {
                Some(self.repositories.len() - 1)
            },
            None => None,
        };
        self.refresh_visible_tracks();
        let t = self.current_track_index;
        let nt = self.tracks.len();
        let nv = self.visible_track_indices.len();
        proof {
            assert(self.tracks@.len() == nt && self.visible_track_indices@.len() == nv);
            crate::tui::util::law_filtered_indices_exact(
                self.tracks@,
                self.track_search_query@,
                filter_for_tab(self.selected_tab),
            );
            if let Some(r) = self.current_track_row_index {
                lemma_row_of_ascending(self.visible_track_indices@, r as int);
            }
        }
        self.select_track_index(t);
        self.status_message = message;
        self.pending_repository_delete = None;
    }

    /// The player finished a track (and was stopped): queue the next one of
    /// the autoplay order, without wrapping in sequential mode, or report
    /// the end.
    pub fn track_finished(&mut self, player: PlayerView, finished_name: &str) -> (c: Command)
        requires
            old(self).wf(),
        ensures
            final(self).wf(),
            c matches Command::Queue(i) ==> i < old(self).tracks@.len(),
            c == queue_of(old(self).next_choice(old(self).playing_track_index_spec(player), false).0),
            final(self).shuffle_seed == old(self).next_choice(old(self).playing_track_index_spec(player), false).1,
            c is Nothing ==> final(self).status_message@ == finished_name@ + " finished"@,
            c is Queue ==> final(self).status_message == old(self).status_message,
            final(self).tracks == old(self).tracks,
            final(self).repositories == old(self).repositories,
            final(self).visible_track_indices == old(self).visible_track_indices,
            final(self).selected_tab == old(self).selected_tab,
            final(self).current_track_index == old(self).current_track_index,
            final(self).current_track_row_index == old(self).current_track_row_index,
            final(self).pending_playback == old(self).pending_playback,
            final(self).playback_mode == old(self).playback_mode,
    {
        let finished = self.playing_track_index(player);
        match self.next_playback_index_from(finished, false) {
            Some(i) => Command::Queue(i),
            None => {
                self.status_message = concat_str(finished_name, " finished");
                Command::Nothing
            },
        }
    }
}

} // verus!

verus! {

/// What a key does while the search line is edited: `Esc` clears the
/// search and leaves it, `Enter` keeps it and leaves, `Backspace` and
/// plain characters edit it and refresh the rows; other keys change
/// nothing of the search.
pub open spec fn search_key_effect(before: App, after: App, key: KeyInput) -> bool {
    match key.code {
        Key::Esc => {
            &&& !after.is_searching_tracks
            &&& after.pending_repository_delete is None
            &&& after.track_search_query@.len() == 0
            &&& (before.track_search_query@.len() == 0 ==> after.status_message@ == "Ready"@)
            &&& (before.track_search_query@.len() > 0 ==> after.status_message@
                == "Search cleared"@ && after.rows_current())
        },
        Key::Enter => {
            &&& !after.is_searching_tracks
            &&& after.pending_repository_delete is None
            &&& after.track_search_query == before.track_search_query
            &&& (before.track_search_query@.len() == 0 ==> after.status_message@ == "Ready"@)
            &&& (before.track_search_query@.len() > 0 ==> after.status_message@
                == search_message(
                filter_for_tab(before.selected_tab),
                before.track_search_query@,
                before.visible_track_indices@.len(),
            ))
        },
        Key::Backspace => {
            &&& after.is_searching_tracks == before.is_searching_tracks
            &&& after.pending_repository_delete is None
            &&& after.track_search_query@ == drop_last_char(before.track_search_query@)
            &&& after.rows_current()
            &&& after.status_message@ == search_message(
                filter_for_tab(after.selected_tab),
                after.track_search_query@,
                after.visible_track_indices@.len(),
            )
        },
        Key::Char(c) => if !key.control && !key.alt {
            &&& after.is_searching_tracks == before.is_searching_tracks
            &&& after.pending_repository_delete is None
            &&& after.track_search_query@ == before.track_search_query@.push(c)
            &&& after.rows_current()
            &&& after.status_message@ == search_message(
                filter_for_tab(after.selected_tab),
                after.track_search_query@,
                after.visible_track_indices@.len(),
            )
        } else {
            after.track_search_query == before.track_search_query
                && after.status_message == before.status_message
                && after.is_searching_tracks == before.is_searching_tracks
        },
        _ => after.track_search_query == before.track_search_query
            && after.status_message == before.status_message
            && after.is_searching_tracks == before.is_searching_tracks,
    }
}

/// What `f` does to the state besides the command it returns: the message
/// of a refusal, nothing else.
pub open spec fn favorite_key_effect(before: App, after: App) -> bool {
    &&& after.tracks == before.tracks
    &&& after.visible_track_indices == before.visible_track_indices
    &&& after.selected_tab == before.selected_tab
    &&& after.pending_playback == before.pending_playback
    &&& match before.current_track_index {
        None => after.status_message@ == "No track selected"@,
        Some(i) => if before.tracks@[i as int].blacklisted {
            after.status_message@ == "Restore "@ + before.tracks@[i as int].name@ + " before favoriting"@
        } else {
            after.status_message == before.status_message
        },
    }
}

/// What `x` does to the state besides the command it returns.
pub open spec fn blacklist_key_effect(before: App, after: App) -> bool {
    &&& after.tracks == before.tracks
    &&& after.visible_track_indices == before.visible_track_indices
    &&& after.selected_tab == before.selected_tab
    &&& after.pending_playback == before.pending_playback
    &&& match before.current_track_index {
        None => after.status_message@ == "No track selected"@,
        Some(_) => after.status_message == before.status_message,
    }
}

/// What `d` does to the state besides the command it returns: a first
/// press arms the confirmation for the selected repository and says so; a
/// second press keeps it armed and gives up a pending download of that
/// repository.
pub open spec fn delete_key_effect(before: App, after: App) -> bool {
    &&& after.tracks == before.tracks
    &&& after.repositories == before.repositories
    &&& after.visible_track_indices == before.visible_track_indices
    &&& after.selected_tab == before.selected_tab
    &&& match before.current_repository_index {
        None => after.status_message@ == "No repository selected"@
            && after.pending_repository_delete == before.pending_repository_delete
            && after.pending_playback == before.pending_playback,
        Some(i) => if before.pending_repository_delete != Some(i) {
            &&& after.pending_repository_delete == Some(i)
            &&& after.pending_playback == before.pending_playback
            &&& after.status_message@ == "Press d again to delete "@ + before.repositories@[i as int].owner@
                + "/"@ + before.repositories@[i as int].name@ + " and its tracks/cache"@
        } else {
            &&& after.pending_repository_delete == Some(i)
            &&& after.status_message == before.status_message
            &&& (if pending_repository_is(before.pending_playback, before.repositories@[i as int].id) {
                after.pending_playback is None
            } else {
                after.pending_playback == before.pending_playback
            })
        },
    }
}

impl App {
    /// A key while the search line is being edited.
    pub fn handle_track_search_key_event(&mut self, key: KeyInput)
        requires
            old(self).wf(),
        ensures
            final(self).wf(),
            final(self).tracks == old(self).tracks,
            final(self).repositories == old(self).repositories,
            final(self).selected_tab == old(self).selected_tab,
            final(self).pending_playback == old(self).pending_playback,
            final(self).playback_mode == old(self).playback_mode,
            search_key_effect(*old(self), *final(self), key),
    {
        match key.code {
            Key::Esc => {
                self.is_searching_tracks = false;
                if self.track_search_query.as_str().is_empty() {
                    self.status_message = "Ready".to_string();
                } else {
                    self.track_search_query = String::new();
                    self.refresh_visible_tracks();
                    self.status_message = "Search cleared".to_string();
                }
                self.pending_repository_delete = None;
            },
            Key::Enter => {
                self.is_searching_tracks = false;
                self.status_message = if self.track_search_query.as_str().is_empty() {
                    "Ready".to_string()
                } else {
                    self.search_status_message()
                };
                self.pending_repository_delete = None;
            },
            Key::Backspace => {
                self.track_search_query = without_last_char(&self.track_search_query);
                self.refresh_visible_tracks();
                self.status_message = self.search_status_message();
                self.pending_repository_delete = None;
            },
            Key::Char(c) => {
                if !key.control && !key.alt {
                    crate::text::push_char(&mut self.track_search_query, c);
                    self.refresh_visible_tracks();
                    self.status_message = self.search_status_message();
                    self.pending_repository_delete = None;
                }
            },
            _ => {},
        }
    }

    /// A key of the main screen: switches tabs and selections, edits the
    /// search and the library marks, and asks the caller for playback,
    /// persistence and deletion through the returned command. While the
    /// help is shown only `Esc`, `?` and `q` act; while searching, keys edit
    /// the search.
    pub fn handle_key_event(&mut self, key: KeyInput, player: PlayerView) -> (c: Command)
        requires
            old(self).wf(),
        ensures
            final(self).wf(),
            c matches Command::Queue(i) ==> i < old(self).tracks@.len(),
            c == old(self).key_command(key, player),
            old(self).show_help ==> c == Command::Nothing && final(self).tracks == old(self).tracks
                && final(self).selected_tab == old(self).selected_tab && final(self).status_message
                == old(self).status_message && (match key.code {
                Key::Esc | Key::Char('?') => !final(self).show_help && final(self).should_quit == old(self).should_quit,
                Key::Char('q') => final(self).show_help && final(self).should_quit,
                _ => final(self).show_help && final(self).should_quit == old(self).should_quit,
            }),
            !old(self).show_help && old(self).is_searching_tracks ==> c == Command::Nothing
                && final(self).selected_tab == old(self).selected_tab && final(self).tracks == old(self).tracks
                && search_key_effect(*old(self), *final(self), key),
            !old(self).show_help && !old(self).is_searching_tracks ==> match key.code {
                Key::Char('q') => final(self).should_quit && c == Command::Nothing,
                Key::Char('?') => final(self).show_help && c == Command::Nothing
                    && final(self).pending_repository_delete is None,
                Key::Char('n') | Key::Tab => final(self).selected_tab == (old(self).selected_tab + 1) % 4
                    && final(self).rows_current() && c == Command::Nothing
                    && final(self).pending_repository_delete is None,
                Key::Char('p') | Key::BackTab => final(self).selected_tab == (old(self).selected_tab + 3) % 4
                    && final(self).rows_current() && c == Command::Nothing
                    && final(self).pending_repository_delete is None,
                Key::Char('/') => if tab_filter(old(self).selected_tab) is Some {
                    final(self).is_searching_tracks && c == Command::Nothing
                        && final(self).status_message@ == search_message(
                        filter_for_tab(old(self).selected_tab),
                        Seq::empty(),
                        0,
                    )
                } else {
                    c == Command::Nothing && !final(self).is_searching_tracks
                },
                Key::Esc => c == Command::Nothing && final(self).pending_repository_delete is None
                    && final(self).track_search_query@.len() == 0 && (old(self).track_search_query@.len()
                    == 0 ==> final(self).status_message@ == "Ready"@) && (old(self).track_search_query@.len()
                    > 0 ==> final(self).status_message@ == "Search cleared"@),
                Key::Up | Key::Char('k') => c == Command::Nothing && (old(self).selected_tab == TAB_REPOSITORIES
                    ==> final(self).current_repository_index == previous_index(
                    old(self).current_repository_index,
                    old(self).repositories@.len() as usize,
                    1,
                )) && (tab_filter(old(self).selected_tab) is Some ==> final(self).current_track_row_index
                    == previous_index(
                    old(self).current_track_row_index,
                    old(self).visible_track_indices@.len() as usize,
                    1,
                )),
                Key::Down | Key::Char('j') => c == Command::Nothing && (old(self).selected_tab == TAB_REPOSITORIES
                    ==> final(self).current_repository_index == next_index(
                    old(self).current_repository_index,
                    old(self).repositories@.len() as usize,
                    1,
                )) && (tab_filter(old(self).selected_tab) is Some ==> final(self).current_track_row_index
                    == next_index(
                    old(self).current_track_row_index,
                    old(self).visible_track_indices@.len() as usize,
                    1,
                )),
                Key::PageUp => c == Command::Nothing && (tab_filter(old(self).selected_tab) is Some
                    ==> final(self).current_track_row_index == previous_index(
                    old(self).current_track_row_index,
                    old(self).visible_track_indices@.len() as usize,
                    old(self).tracks_page_step,
                )),
                Key::PageDown => c == Command::Nothing && (tab_filter(old(self).selected_tab) is Some
                    ==> final(self).current_track_row_index == next_index(
                    old(self).current_track_row_index,
                    old(self).visible_track_indices@.len() as usize,
                    old(self).tracks_page_step,
                )),
                Key::Char('m') => if tab_filter(old(self).selected_tab) is Some {
                    final(self).playback_mode == mode_toggled(old(self).playback_mode) && c
                        == Command::SaveMode(mode_toggled(old(self).playback_mode))
                } else {
                    c == Command::Nothing && final(self).playback_mode == old(self).playback_mode
                },
                Key::Char(' ') => if player.is_playing {
                    c == Command::Pause && final(self).status_message@ == "Paused"@
                } else if player.is_paused {
                    c == Command::Resume && final(self).status_message@ == "Playing"@
                } else if tab_filter(old(self).selected_tab) == Some(TrackListFilter::Blacklist) {
                    c == Command::Nothing && final(self).status_message@
                        == "Restore a blacklisted track before playing"@
                } else {
                    final(self).status_message == old(self).status_message
                },
                Key::Char('d') => if old(self).selected_tab == TAB_REPOSITORIES {
                    delete_key_effect(*old(self), *final(self))
                } else {
                    *final(self) == *old(self)
                },
                Key::Char('x') => if tab_filter(old(self).selected_tab) is Some {
                    blacklist_key_effect(*old(self), *final(self)) && final(self).pending_repository_delete is None
                } else {
                    *final(self) == *old(self)
                },
                Key::Char('b') => c == Command::Nothing && (key.control && tab_filter(old(self).selected_tab) is Some
                    ==> final(self).current_track_row_index == previous_index(
                    old(self).current_track_row_index,
                    old(self).visible_track_indices@.len() as usize,
                    old(self).tracks_page_step,
                )),
                Key::Char('f') => if tab_filter(old(self).selected_tab) is Some {
                    if key.control {
                        c == Command::Nothing && final(self).current_track_row_index == next_index(
                            old(self).current_track_row_index,
                            old(self).visible_track_indices@.len() as usize,
                            old(self).tracks_page_step,
                        )
                    } else {
                        favorite_key_effect(*old(self), *final(self)) && final(self).pending_repository_delete is None
                    }
                } else {
                    *final(self) == *old(self)
                },
                Key::Char('.') => final(self).shuffle_seed == (if tab_filter(old(self).selected_tab) is Some
                    && tab_filter(old(self).selected_tab) != Some(TrackListFilter::Blacklist)
                    && old(self).visible_track_indices@.len() > 0 {
                    old(self).next_choice(old(self).playing_or_selected(player), true).1
                } else {
                    old(self).shuffle_seed
                }) && final(self).tracks == old(self).tracks
                    && final(self).current_track_index == old(self).current_track_index,
                Key::Char('+') => c == Command::VolumeUp && final(self).pending_repository_delete is None,
                Key::Char('-') => c == Command::VolumeDown && final(self).pending_repository_delete is None,
                _ => true,
            },
    {
        if self.show_help {
            match key.code {
                Key::Esc | Key::Char('?') => {
                    self.show_help = false;
                },
                Key::Char('q') => {
                    self.should_quit = true;
                },
                _ => {},
            }
            return Command::Nothing;
        }
        if self.is_searching_tracks {
            self.handle_track_search_key_event(key);
            return Command::Nothing;
        }
        let track_list = self.selected_tab_is_track_list();
        let can_play = self.selected_tab_can_play_tracks();
        let has_rows = self.visible_track_indices.len() > 0;
        let nt = self.tracks.len();
        proof {
            assert(self.tracks@.len() == nt);
            if let Some(r) = self.current_track_row_index {
                assert(self.visible_track_indices@[r as int] < self.tracks@.len());
            }
            if let Some(t) = player.current_track {
                lemma_index_of_id(self.tracks@, t.id);
            }
        }
        match key.code {
            Key::Esc => {
                if !self.track_search_query.as_str().is_empty() {
                    self.track_search_query = String::new();
                    self.refresh_visible_tracks();
                    self.status_message = "Search cleared".to_string();
                } else {
                    self.status_message = "Ready".to_string();
                }
                self.pending_repository_delete = None;
                Command::Nothing
            },
            Key::Char('?') => {
                self.show_help = true;
                self.pending_repository_delete = None;
                Command::Nothing
            },
            Key::Char('/') if track_list => {
                self.is_searching_tracks = true;
                self.pending_repository_delete = None;
                let label = crate::text::lowercase_str(self.current_track_list_filter().label());
                self.status_message = concat_str("Search ", label.as_str());
                Command::Nothing
            },
            Key::Char('q') => {
                self.should_quit = true;
                Command::Nothing
            },
            Key::Char('n') | Key::Tab => {
                let tab = (self.selected_tab + 1) % TAB_COUNT;
                self.select_tab(tab);
                self.pending_repository_delete = None;
                Command::Nothing
            },
            Key::Char('p') | Key::BackTab => {
                let tab = (self.selected_tab + TAB_COUNT - 1) % TAB_COUNT;
                self.select_tab(tab);
                self.pending_repository_delete = None;
                Command::Nothing
            },
            Key::Up | Key::Char('k') => {
                if self.selected_tab == TAB_REPOSITORIES {
                    self.select_previous_repository();
                } else if track_list {
                    self.select_previous_track(1);
                }
                self.pending_repository_delete = None;
                Command::Nothing
            },
            Key::Down | Key::Char('j') => {
                if self.selected_tab == TAB_REPOSITORIES {
                    self.select_next_repository();
                } else if track_list {
                    self.select_next_track(1);
                }
                self.pending_repository_delete = None;
                Command::Nothing
            },
            Key::PageUp if track_list => {
                let step = self.tracks_page_step;
                self.select_previous_track(step);
                self.pending_repository_delete = None;
                Command::Nothing
            },
            Key::PageDown if track_list => {
                let step = self.tracks_page_step;
                self.select_next_track(step);
                self.pending_repository_delete = None;
                Command::Nothing
            },
            Key::Char('b') if track_list && key.control => {
                let step = self.tracks_page_step;
                self.select_previous_track(step);
                self.pending_repository_delete = None;
                Command::Nothing
            },
            Key::Char('f') if track_list && key.control => {
                let step = self.tracks_page_step;
                self.select_next_track(step);
                self.pending_repository_delete = None;
                Command::Nothing
            },
            Key::Char('m') if track_list => {
                self.playback_mode = self.playback_mode.next();
                self.pending_repository_delete = None;
                Command::SaveMode(self.playback_mode)
            },
            Key::Char('.') if can_play && has_rows => {
                let c = self.play_next_track(player);
                self.pending_repository_delete = None;
                c
            },
            Key::Char(',') if can_play && has_rows => {
                let c = self.play_previous_track(player);
                self.pending_repository_delete = None;
                c
            },
            Key::Enter if can_play && has_rows => {
                self.pending_repository_delete = None;
                match self.current_track_index {
                    Some(i) => Command::Queue(i),
                    None => Command::Nothing,
                }
            },
            Key::Char('f') if track_list => {
                let c = self.toggle_selected_track_favorite();
                self.pending_repository_delete = None;
                c
            },
            Key::Char('x') if track_list => {
                let c = self.toggle_selected_track_blacklisted();
                self.pending_repository_delete = None;
                c
            },
            Key::Char('d') if self.selected_tab == TAB_REPOSITORIES => {
                self.confirm_or_delete_selected_repository(player)
            },
            Key::Char(' ') => {
                self.pending_repository_delete = None;
                if player.is_playing {
                    self.status_message = "Paused".to_string();
                    Command::Pause
                } else if player.is_paused {
                    self.status_message = "Playing".to_string();
                    Command::Resume
                } else if can_play {
                    match self.current_track_index {
                        Some(i) => Command::Queue(i),
                        None => Command::Nothing,
                    }
                } else if self.selected_tab == TAB_BLACKLIST {
                    self.status_message = "Restore a blacklisted track before playing".to_string();
                    Command::Nothing
                } else {
                    match self.playing_track_index(player) {
                        Some(i) => Command::Queue(i),
                        None => Command::Nothing,
                    }
                }
            },
            Key::Char('+') => {
                self.pending_repository_delete = None;
                Command::VolumeUp
            },
            Key::Char('-') => {
                self.pending_repository_delete = None;
                Command::VolumeDown
            },
            _ => Command::Nothing,
        }
    }
}

} // verus!
