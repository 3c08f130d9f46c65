//! The text the screen shows: header, table rows and title, footer, and the
//! shortcuts popup. Widgets and colors are the caller's.

use vstd::prelude::*;

use crate::models::{playable, Repository, Track};
use crate::text::{concat_str, nat_decimal, trim_leading, trim_leading_chars, u64_text};
use crate::tui::util::{
    cache_label, display_width, filter_label, included_count, marquee, marquee_view, Rect,
    TrackListFilter, str_display_width,
};

verus! {

broadcast use {vstd::string::group_string_axioms, vstd::slice::group_slice_axioms};

/// The shortcuts the help popup lists.
pub const HELP_TEXT: &'static str = "?: Close shortcuts\nEsc: Close shortcuts / cancel delete\nTab or n: Next tab\nShift+Tab or p: Previous tab\nUp/Down or k/j: Move selection\nPageUp/PageDown or Ctrl+B/Ctrl+F: Page track lists\n/: Search current track list by name, pinyin, or initials\nBackspace: Delete search text while searching\nEnter: Keep search while searching\nEnter: Play selected track\nf: Toggle favorite on selected track\nx: Toggle blacklist on selected track\nSpace: Play or pause\nm: Toggle playback mode\n, / .: Previous / next track\nd: Delete selected repository (press twice)\n+ / -: Volume\nq: Quit";

/// The text of the shortcuts popup.
pub fn help_text() -> (t: &'static str)
    ensures
        t@ == HELP_TEXT@,
{
    HELP_TEXT
}

/// `a - b`, or 0 when `b` is larger.
pub open spec fn sat_sub(a: int, b: int) -> int {
    if a > b {
        a - b
    } else {
        0
    }
}

/// `min(max(x, lo), hi)` the way `x.min(hi).max(lo)` computes it.
pub open spec fn min_then_max(x: int, hi: int, lo: int) -> int {
    let m = if x < hi {
        x
    } else {
        hi
    };
    if m > lo {
        m
    } else {
        lo
    }
}

/// Where the shortcuts popup goes in `area`: at most 76 by 18 cells,
/// leaving a margin where there is room, at least 20 by 3 where the area
/// allows, centered.
pub open spec fn popup_area(area: Rect) -> Rect {
    let width = min_then_max(sat_sub(area.width as int, 4), 76, if area.width < 20 {
        area.width as int
    } else {
        20
    });
    let height = min_then_max(sat_sub(area.height as int, 2), 18, if area.height < 3 {
        area.height as int
    } else {
        3
    });
    Rect {
        x: (area.x + sat_sub(area.width as int, width) / 2) as u16,
        y: (area.y + sat_sub(area.height as int, height) / 2) as u16,
        width: width as u16,
        height: height as u16,
    }
}

/// The area of the shortcuts popup.
pub fn help_popup_area(area: Rect) -> (r: Rect)
    requires
        area.x + area.width <= u16::MAX,
        area.y + area.height <= u16::MAX,
    ensures
        r == popup_area(area),
        r.x + r.width <= area.x + area.width,
        r.y + r.height <= area.y + area.height,
{
    let w0 = area.width.saturating_sub(4);
    let w1 = if w0 < 76 { w0 } else { 76 };
    let lo_w = if area.width < 20 { area.width } else { 20 };
    let width = if w1 > lo_w { w1 } else { lo_w };
    let h0 = area.height.saturating_sub(2);
    let h1 = if h0 < 18 { h0 } else { 18 };
    let lo_h = if area.height < 3 { area.height } else { 3 };
    let height = if h1 > lo_h { h1 } else { lo_h };
    let x = area.x + area.width.saturating_sub(width) / 2;
    let y = area.y + area.height.saturating_sub(height) / 2;
    Rect { x, y, width, height }
}

/// The line naming a repository in the repositories tab.
pub fn repository_item_text(repository: &Repository) -> (t: String)
    ensures
        t@ == repository.name@ + " - "@ + repository.owner@,
{
    let head = concat_str(repository.name.as_str(), " - ");
    concat_str(head.as_str(), repository.owner.as_str())
}

/// The title of a track table: the list's name, with the search and the
/// shown and total counts while a search is typed or kept.
pub open spec fn table_title(
    filter: TrackListFilter,
    query: Seq<char>,
    searching: bool,
    shown: nat,
    total: nat,
) -> Seq<char> {
    if query.len() == 0 && !searching {
        filter_label(filter)
    } else {
        filter_label(filter) + " | Search: "@ + query + (if searching {
            "_"@
        } else {
            ""@
        }) + " ("@ + nat_decimal(shown) + "/"@ + nat_decimal(total) + ")"@
    }
}

/// The title of the track table.
pub fn track_table_title(
    filter: TrackListFilter,
    query: &str,
    searching: bool,
    shown: usize,
    tracks: &[Track],
) -> (t: String)
    ensures
        t@ == table_title(filter, query@, searching, shown as nat, included_count(filter, tracks@)),
{
    if query.is_empty() && !searching {
        return filter.label().to_string();
    }
    let total = filter.count(tracks);
    let head = concat_str(filter.label(), " | Search: ");
    let head = concat_str(head.as_str(), query);
    let head = concat_str(head.as_str(), if searching { "_" } else { "" });
    let head = concat_str(head.as_str(), " (");
    let n = u64_text(shown as u64);
    let head = concat_str(head.as_str(), n.as_str());
    let head = concat_str(head.as_str(), "/");
    let m = u64_text(total as u64);
    let head = concat_str(head.as_str(), m.as_str());
    concat_str(head.as_str(), ")")
}

/// The cells of a track's table row: favorite mark, name, format, size in
/// mebibytes, and cache state.
pub open spec fn row_cells(track: Track, local_file_exists: bool, is_caching: bool) -> Seq<Seq<char>> {
    seq![
        if track.favorite {
            "*"@
        } else {
            ""@
        },
        track.name@,
        track.format@,
        nat_decimal((track.size / 1024 / 1024) as nat) + "MB"@,
        if playable(track, local_file_exists) {
            "Cached"@
        } else if is_caching {
            "Caching"@
        } else {
            "-"@
        },
    ]
}

/// The cells of a track's table row.
pub fn track_row_cells(track: &Track, local_file_exists: bool, is_caching: bool) -> (cells: Vec<String>)
    ensures
        cells.deep_view() == row_cells(*track, local_file_exists, is_caching),
        cells@.len() == 5,
        cells@[0]@ == (if track.favorite {
            "*"@
        } else {
            ""@
        }),
        cells@[1]@ == track.name@,
        cells@[2]@ == track.format@,
        cells@[3]@ == nat_decimal((track.size / 1024 / 1024) as nat) + "MB"@,
        cells@[4]@ == (if playable(*track, local_file_exists) {
            "Cached"@
        } else if is_caching {
            "Caching"@
        } else {
            "-"@
        }),
{
    let mut cells: Vec<String> = Vec::new();
    cells.push(if track.favorite { "*".to_string() } else { "".to_string() });
    cells.push(track.name.clone());
    cells.push(track.format.clone());
    let size = u64_text(track.size / 1024 / 1024);
    cells.push(concat_str(size.as_str(), "MB"));
    cells.push(cache_label(track, local_file_exists, is_caching).to_string());
    proof {
        reveal_strlit("*");
        reveal_strlit("");
        assert(cells.deep_view() =~= row_cells(*track, local_file_exists, is_caching));
    }
    cells
}

/// A row of the track table: the library index it shows, its cells, and
/// whether it shows the selected track.
#[derive(Debug)]
pub struct TableRow {
    pub track_index: usize,
    pub cells: Vec<String>,
    pub highlighted: bool,
}

/// A table row as plain values.
pub open spec fn table_row_view(row: TableRow) -> (usize, Seq<Seq<char>>, bool) {
    (row.track_index, row.cells.deep_view(), row.highlighted)
}

/// The rows of the track table: one per visible index that names a track
/// of the library, in order, with `local_files` telling for each visible
/// row whether the track's local file exists.
pub open spec fn table_rows(
    tracks: Seq<Track>,
    visible: Seq<usize>,
    local_files: Seq<bool>,
    current: Option<usize>,
    caching: Option<usize>,
) -> Seq<(usize, Seq<Seq<char>>, bool)>
    decreases visible.len(),
{
    if visible.len() == 0 {
        Seq::empty()
    } else {
        let before = table_rows(tracks, visible.drop_last(), local_files.drop_last(), current, caching);
        let i = visible.last();
        if i < tracks.len() {
            before.push((i, row_cells(tracks[i as int], local_files.last(), caching == Some(i)), current == Some(i)))
        } else {
            before
        }
    }
}

/// The rows of the track table.
pub fn track_table_rows(
    tracks: &[Track],
    visible: &[usize],
    local_files: &[bool],
    current: Option<usize>,
    caching: Option<usize>,
) -> (rows: Vec<TableRow>)
    requires
        local_files@.len() == visible@.len(),
    ensures
        rows@.map_values(|r: TableRow| table_row_view(r)) == table_rows(
            tracks@,
            visible@,
            local_files@,
            current,
            caching,
        ),
{
    let mut rows: Vec<TableRow> = Vec::new();
    let mut k: usize = 0;
    while k < visible.len()
        invariant
            k <= visible@.len(),
            local_files@.len() == visible@.len(),
            rows@.map_values(|r: TableRow| table_row_view(r)) == table_rows(
                tracks@,
                visible@.take(k as int),
                local_files@.take(k as int),
                current,
                caching,
            ),
        decreases visible@.len() - k,
    {
        proof {
            assert(visible@.take(k + 1).drop_last() =~= visible@.take(k as int));
            assert(local_files@.take(k + 1).drop_last() =~= local_files@.take(k as int));
        }
        let i = visible[k];
        if i < tracks.len() {
            let row = TableRow {
                track_index: i,
                cells: track_row_cells(&tracks[i], local_files[k], caching == Some(i)),
                highlighted: current == Some(i),
            };
            let ghost before = rows@;
            rows.push(row);
            proof {
                assert(rows@.map_values(|r: TableRow| table_row_view(r)) =~= before.map_values(
                    |r: TableRow| table_row_view(r),
                ).push(table_row_view(row)));
            }
        }
        k = k + 1;
    }
    proof {
        assert(visible@.take(visible@.len() as int) =~= visible@);
        assert(local_files@.take(local_files@.len() as int) =~= local_files@);
    }
    rows
}

/// The header line: repository and list counts, with the searched list's
/// shown and total counts while a search is kept.
pub open spec fn header_line(
    repositories: nat,
    filter: TrackListFilter,
    query: Seq<char>,
    shown: nat,
    tracks: Seq<Track>,
) -> Seq<char> {
    if query.len() == 0 {
        "Repositories: "@ + nat_decimal(repositories) + " | Tracks: "@ + nat_decimal(
            included_count(TrackListFilter::Tracks, tracks),
        ) + " | Favorites: "@ + nat_decimal(included_count(TrackListFilter::Favorites, tracks))
            + " | Blacklist: "@ + nat_decimal(included_count(TrackListFilter::Blacklist, tracks))
    } else {
        "Repositories: "@ + nat_decimal(repositories) + " | "@ + filter_label(filter) + ": "@
            + nat_decimal(shown) + "/"@ + nat_decimal(included_count(filter, tracks))
            + " | Favorites: "@ + nat_decimal(included_count(TrackListFilter::Favorites, tracks))
            + " | Blacklist: "@ + nat_decimal(included_count(TrackListFilter::Blacklist, tracks))
    }
}

/// The header line.
pub fn header_text(
    repositories: usize,
    filter: TrackListFilter,
    query: &str,
    shown: usize,
    tracks: &[Track],
) -> (t: String)
    ensures
        t@ == header_line(repositories as nat, filter, query@, shown as nat, tracks@),
{
    let favorites = u64_text(TrackListFilter::Favorites.count(tracks) as u64);
    let blacklisted = u64_text(TrackListFilter::Blacklist.count(tracks) as u64);
    let repos = u64_text(repositories as u64);
    let head = concat_str("Repositories: ", repos.as_str());
    let head = if query.is_empty() {
        let all = u64_text(TrackListFilter::Tracks.count(tracks) as u64);
        let head = concat_str(head.as_str(), " | Tracks: ");
        concat_str(head.as_str(), all.as_str())
    } else {
        let total = u64_text(filter.count(tracks) as u64);
        let n = u64_text(shown as u64);
        let head = concat_str(head.as_str(), " | ");
        let head = concat_str(head.as_str(), filter.label());
        let head = concat_str(head.as_str(), ": ");
        let head = concat_str(head.as_str(), n.as_str());
        let head = concat_str(head.as_str(), "/");
        concat_str(head.as_str(), total.as_str())
    };
    let head = concat_str(head.as_str(), " | Favorites: ");
    let head = concat_str(head.as_str(), favorites.as_str());
    let head = concat_str(head.as_str(), " | Blacklist: ");
    concat_str(head.as_str(), blacklisted.as_str())
}

/// The right-hand part of the footer: playback state, mode, volume, the
/// shortcuts hint, and the search while one is typed or kept.
pub open spec fn footer_suffix(
    state_symbol: Seq<char>,
    mode_text: Seq<char>,
    volume_percent: u8,
    query: Seq<char>,
    searching: bool,
) -> Seq<char> {
    let search = if searching {
        " │ /"@ + query + "_"@
    } else if query.len() == 0 {
        Seq::empty()
    } else {
        " │ /"@ + query
    };
    " │ "@ + state_symbol + " │ "@ + mode_text + " │ "@ + nat_decimal(volume_percent as nat) + "% │ ?"@
        + search
}

/// The footer line in `max_width` columns: the status message (scrolling
/// when it does not fit in the columns the suffix leaves) followed by the
/// suffix; the bare message, or the bare suffix, when either leaves no room.
pub open spec fn footer_line(
    status: Seq<char>,
    marquee_offset: usize,
    max_width: usize,
    suffix: Seq<char>,
) -> Seq<char> {
    let budget = sat_sub(max_width as int, str_display_width(suffix) as int);
    if budget == 0 || status.len() == 0 {
        if status.len() == 0 {
            trim_leading(suffix, " │ "@)
        } else {
            status
        }
    } else {
        marquee(status, marquee_offset, budget as usize) + "  "@ + trim_leading(suffix, " │ "@)
    }
}

/// The footer line.
pub fn footer_text(
    status: &str,
    marquee_offset: usize,
    max_width: usize,
    state_symbol: &str,
    mode_text: &str,
    volume_percent: u8,
    query: &str,
    searching: bool,
) -> (t: String)
    ensures
        t@ == footer_line(
            status@,
            marquee_offset,
            max_width,
            footer_suffix(state_symbol@, mode_text@, volume_percent, query@, searching),
        ),
{
    let search = if searching {
        let s = concat_str(" │ /", query);
        concat_str(s.as_str(), "_")
    } else if query.is_empty() {
        String::new()
    } else {
        concat_str(" │ /", query)
    };
    let suffix = concat_str(" │ ", state_symbol);
    let suffix = concat_str(suffix.as_str(), " │ ");
    let suffix = concat_str(suffix.as_str(), mode_text);
    let suffix = concat_str(suffix.as_str(), " │ ");
    let pct = u64_text(volume_percent as u64);
    let suffix = concat_str(suffix.as_str(), pct.as_str());
    let suffix = concat_str(suffix.as_str(), "% │ ?");
    let suffix = concat_str(suffix.as_str(), search.as_str());
    let width = display_width(suffix.as_str());
    let budget = if max_width > width { max_width - width } else { 0 };
    let sep = crate::text::chars_of(" │ ");
    let trimmed = crate::text::string_of(&trim_leading_chars(&crate::text::chars_of(suffix.as_str()), &sep));
    if budget == 0 || status.is_empty() {
        if status.is_empty() {
            trimmed
        } else {
            status.to_string()
        }
    } else {
        let shown = marquee_view(status, marquee_offset, budget);
        let head = concat_str(shown.as_str(), "  ");
        concat_str(head.as_str(), trimmed.as_str())
    }
}

} // verus!
