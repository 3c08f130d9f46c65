//! GitHub sources: turning a Git Trees listing into tracks, building raw
//! download URLs, walking the contents API, and the retry policy of API
//! requests.

use vstd::prelude::*;

use crate::errors::{http_status_text, status_text, GitHubError};
use crate::models::{audio_format_of, audio_format_of_name, Timestamp, Track};
use crate::text::{
    append_chars, chars_of, concat_str, contains_chars, contains_seq, joined_by, push_char,
    split_chars, split_pieces, str_equal, string_of,
};
use crate::webdav::{is_new_track, TrackFacts};

verus! {

broadcast use {vstd::string::group_string_axioms, vstd::slice::group_slice_axioms};

/// A character left as it is in a URL path segment: ASCII letters, digits,
/// `-`, `_`, `.`, `~`, and the parentheses, which raw-content URLs accept
/// as they are.
pub open spec fn unreserved(c: char) -> bool {
    ('A' <= c && c <= 'Z') || ('a' <= c && c <= 'z') || ('0' <= c && c <= '9') || c == '-' || c
        == '_' || c == '.' || c == '~' || c == '(' || c == ')'
}

/// An upper-case hexadecimal digit for `d` in `0..16`.
pub open spec fn upper_hex_digit(d: int) -> char {
    if d < 10 {
        (d + 48) as char
    } else {
        (d + 55) as char
    }
}

/// Bytes written as `%XX` escapes with upper-case hex digits.
pub open spec fn percent_escapes(bytes: Seq<u8>) -> Seq<char>
    decreases bytes.len(),
{
    if bytes.len() == 0 {
        Seq::empty()
    } else {
        let b = bytes.last();
        percent_escapes(bytes.drop_last()) + seq![
            '%',
            upper_hex_digit(b as int / 16),
            upper_hex_digit(b as int % 16),
        ]
    }
}

/// One character of a path segment, encoded: unreserved characters stay,
/// others become the `%XX` escapes of their UTF-8 bytes.
pub open spec fn encoded_char(c: char) -> Seq<char> {
    if unreserved(c) {
        seq![c]
    } else {
        percent_escapes(vstd::utf8::encode_utf8(seq![c]))
    }
}

/// A path segment, percent-encoded character by character.
pub open spec fn encoded_segment(s: Seq<char>) -> Seq<char>
    decreases s.len(),
{
    if s.len() == 0 {
        Seq::empty()
    } else {
        encoded_segment(s.drop_last()) + encoded_char(s.last())
    }
}

/// A `/`-separated path with each segment percent-encoded.
pub open spec fn encoded_path(path: Seq<char>) -> Seq<char> {
    joined_by(split_pieces(path, "/"@).map_values(|s: Seq<char>| encoded_segment(s)), '/')
}

/// The raw-content URL of a file on a branch or commit.
pub open spec fn raw_url(owner: Seq<char>, repo: Seq<char>, branch: Seq<char>, path: Seq<char>) -> Seq<char> {
    "https://raw.githubusercontent.com/"@ + owner + "/"@ + repo + "/"@ + branch + "/"@
        + encoded_path(path)
}

fn upper_hex_char(d: u8) -> (c: char)
    requires
        d < 16,
    ensures
        c == upper_hex_digit(d as int),
{
    if d < 10 {
        (d + 48) as char
    } else {
        (d + 55) as char
    }
}

/// The UTF-8 encoding of one character.
fn utf8_bytes(c: char) -> (b: Vec<u8>)
    ensures
        b@ == vstd::utf8::encode_utf8(seq![c]),
{
    let v = c as u32;
    proof {
        vstd::utf8::char_is_scalar(c);
        assert(seq![c].drop_first() =~= Seq::<char>::empty());
        assert(seq![c][0] == c);
        reveal_with_fuel(vstd::utf8::encode_utf8, 2);
        assert(vstd::utf8::encode_utf8(seq![c]) =~= vstd::utf8::encode_scalar(v));
    }
    let mut b: Vec<u8> = Vec::new();
    if v <= 0x7F {
        b.push((v & 0x7F) as u8);
    } else if v <= 0x7FF {
        b.push(0xC0 | ((v >> 6) & 0x1F) as u8);
        b.push(0x80 | (v & 0x3F) as u8);
    } else if v <= 0xFFFF {
        b.push(0xE0 | ((v >> 12) & 0x0F) as u8);
        b.push(0x80 | ((v >> 6) & 0x3F) as u8);
        b.push(0x80 | (v & 0x3F) as u8);
    } else {
        b.push(0xF0 | ((v >> 18) & 0x7) as u8);
        b.push(0x80 | ((v >> 12) & 0x3F) as u8);
        b.push(0x80 | ((v >> 6) & 0x3F) as u8);
        b.push(0x80 | (v & 0x3F) as u8);
    }
    assert(b@ =~= vstd::utf8::encode_scalar(v));
    b
}

/// Percent-encodes one path segment: unreserved characters stay, every
/// other character becomes the `%XX` escapes of its UTF-8 bytes.
pub fn percent_encode_segment(segment: &str) -> (r: String)
    ensures
        r@ == encoded_segment(segment@),
{
    let cs = chars_of(segment);
    let mut out = String::new();
    let mut i: usize = 0;
    while i < cs.len()
        invariant
            i <= cs@.len(),
            cs@ == segment@,
            out@ == encoded_segment(cs@.take(i as int)),
        decreases cs@.len() - i,
    {
        let c = cs[i];
        assert(cs@.take(i + 1).drop_last() =~= cs@.take(i as int));
        assert(cs@.take(i + 1).last() == c);
        if ('A' <= c && c <= 'Z') || ('a' <= c && c <= 'z') || ('0' <= c && c <= '9') || c == '-'
            || c == '_' || c == '.' || c == '~' || c == '(' || c == ')' {
            push_char(&mut out, c);
        } else {
            let bytes = utf8_bytes(c);
            let ghost start = out@;
            let mut k: usize = 0;
            assert(bytes@.take(0) =~= Seq::<u8>::empty());
            while k < bytes.len()
                invariant
                    k <= bytes@.len(),
                    out@ == start + percent_escapes(bytes@.take(k as int)),
                decreases bytes@.len() - k,
            {
                let b = bytes[k];
                assert(bytes@.take(k + 1).drop_last() =~= bytes@.take(k as int));
                assert(bytes@.take(k + 1).last() == b);
                push_char(&mut out, '%');
                push_char(&mut out, upper_hex_char(b / 16));
                push_char(&mut out, upper_hex_char(b % 16));
                assert(out@ =~= start + percent_escapes(bytes@.take(k + 1)));
                k = k + 1;
            }
            assert(bytes@.take(bytes@.len() as int) =~= bytes@);
        }
        i = i + 1;
    }
    assert(cs@.take(cs@.len() as int) =~= cs@);
    out
}

/// The raw-content URL of `path` on `branch_ref` of `owner/repo_name`,
/// with each path segment percent-encoded and the slashes kept.
pub fn raw_download_url(owner: &str, repo_name: &str, branch_ref: &str, path: &str) -> (url: String)
    ensures
        url@ == raw_url(owner@, repo_name@, branch_ref@, path@),
{
    let p = chars_of(path);
    let slash = chars_of("/");
    proof {
        reveal_strlit("/");
    }
    let pieces = split_chars(&p, &slash);
    let ghost ps = pieces.deep_view();
    let ghost encoded = ps.map_values(|s: Seq<char>| encoded_segment(s));
    let mut joined: Vec<char> = Vec::new();
    let mut k: usize = 0;
    assert(encoded.take(0) =~= Seq::<Seq<char>>::empty());
    while k < pieces.len()
        invariant
            k <= pieces@.len(),
            ps == pieces.deep_view(),
            encoded == ps.map_values(|s: Seq<char>| encoded_segment(s)),
            joined@ == joined_by(encoded.take(k as int), '/'),
        decreases pieces@.len() - k,
    {
        let piece = string_of(&pieces[k]);
        let enc = percent_encode_segment(piece.as_str());
        let ec = chars_of(enc.as_str());
        assert(ps[k as int] == pieces@[k as int]@);
        assert(piece@ == ps[k as int]);
        assert(encoded[k as int] == encoded_segment(ps[k as int]));
        assert(encoded[k as int] == ec@);
        assert(encoded.take(k + 1).drop_last() =~= encoded.take(k as int));
        if k > 0 {
            joined.push('/');
        }
        append_chars(&mut joined, &ec);
        proof {
            if k == 0 {
                assert(encoded.take(1) =~= seq![encoded[0]]);
                assert(joined@ =~= encoded[0]);
            }
        }
        k = k + 1;
    }
    assert(encoded.take(pieces@.len() as int) =~= encoded);
    let tail = string_of(&joined);
    let url = concat_str("https://raw.githubusercontent.com/", owner);
    let url = concat_str(url.as_str(), "/");
    let url = concat_str(url.as_str(), repo_name);
    let url = concat_str(url.as_str(), "/");
    let url = concat_str(url.as_str(), branch_ref);
    let url = concat_str(url.as_str(), "/");
    let url = concat_str(url.as_str(), tail.as_str());
    url
}

} // verus!

verus! {

/// One entry of a recursive Git Trees listing.
#[derive(Debug, Clone)]
pub struct TreeEntry {
    pub path: String,
    /// `blob` for a file, `tree` for a directory.
    pub kind: String,
    pub size: Option<u64>,
}

/// A Git Trees API response.
#[derive(Debug, Clone)]
pub struct TreeResponse {
    pub sha: String,
    pub tree: Vec<TreeEntry>,
    /// Set when GitHub cut the recursive listing short.
    pub truncated: bool,
}

/// Repository metadata: the branch a scan reads.
#[derive(Debug, Clone)]
pub struct RepoMeta {
    pub default_branch: String,
}

/// A tree entry as plain values: path, kind, size.
pub open spec fn tree_entry_view(e: TreeEntry) -> (Seq<char>, Seq<char>, Option<u64>) {
    (e.path@, e.kind@, e.size)
}

/// The file name of a tree path: what follows its last `/`.
pub open spec fn last_segment(path: Seq<char>) -> Seq<char> {
    split_pieces(path, "/"@).last()
}

/// The track a tree entry is: a blob whose file name is non-empty and has
/// an audio extension, streamed from the raw-content host.
pub open spec fn tree_track(
    owner: Seq<char>,
    repo: Seq<char>,
    branch: Seq<char>,
    e: (Seq<char>, Seq<char>, Option<u64>),
) -> Option<TrackFacts> {
    let name = last_segment(e.0);
    if e.1 != "blob"@ || name.len() == 0 {
        None
    } else {
        match audio_format_of(name) {
            Some(format) => Some(
                (
                    e.0,
                    name,
                    format,
                    match e.2 {
                        Some(n) => n,
                        None => 0,
                    },
                    raw_url(owner, repo, branch, e.0),
                ),
            ),
            None => None,
        }
    }
}

/// The tracks of a tree listing, in listing order.
pub open spec fn tree_tracks(
    owner: Seq<char>,
    repo: Seq<char>,
    branch: Seq<char>,
    es: Seq<(Seq<char>, Seq<char>, Option<u64>)>,
) -> Seq<TrackFacts>
    decreases es.len(),
{
    if es.len() == 0 {
        Seq::empty()
    } else {
        tree_tracks(owner, repo, branch, es.drop_last()) + match tree_track(
            owner,
            repo,
            branch,
            es.last(),
        ) {
            Some(t) => seq![t],
            None => Seq::empty(),
        }
    }
}

/// Law: every track a Git tree yields is an audio file, its format the
/// lower-cased extension of the last segment of its path.
pub proof fn law_tree_tracks_are_audio(
    owner: Seq<char>,
    repo: Seq<char>,
    branch: Seq<char>,
    es: Seq<(Seq<char>, Seq<char>, Option<u64>)>,
)
    ensures
        forall|i: int|
            0 <= i < tree_tracks(owner, repo, branch, es).len() ==> crate::models::is_audio_file(
                #[trigger] tree_tracks(owner, repo, branch, es)[i].1,
                tree_tracks(owner, repo, branch, es)[i].2,
            ),
    decreases es.len(),
{
    if es.len() > 0 {
        law_tree_tracks_are_audio(owner, repo, branch, es.drop_last());
        let before = tree_tracks(owner, repo, branch, es.drop_last());
        assert forall|i: int| 0 <= i < tree_tracks(owner, repo, branch, es).len() implies crate::models::is_audio_file(
            #[trigger] tree_tracks(owner, repo, branch, es)[i].1,
            tree_tracks(owner, repo, branch, es)[i].2,
        ) by {
            if i < before.len() {
                assert(tree_tracks(owner, repo, branch, es)[i] == before[i]);
            }
        }
    }
}

/// The entries as plain values.
pub open spec fn tree_entry_views(es: Seq<TreeEntry>) -> Seq<(Seq<char>, Seq<char>, Option<u64>)> {
    es.map_values(|e: TreeEntry| tree_entry_view(e))
}

/// The last `/`-separated piece of a path.
fn last_path_segment(path: &str) -> (name: String)
    ensures
        name@ == last_segment(path@),
{
    let p = chars_of(path);
    let slash = chars_of("/");
    proof {
        reveal_strlit("/");
    }
    let pieces = split_chars(&p, &slash);
    proof {
        crate::text::lemma_split_pieces_nonempty(path@, "/"@);
    }
    let last = pieces.len() - 1;
    assert(pieces.deep_view()[last as int] == pieces@[last as int]@);
    string_of(&pieces[last])
}

/// The tracks of a Git Trees listing, discovered at `now`: the blobs with
/// an audio extension, with raw-content URLs on `branch_ref`.
pub fn tree_to_tracks_at(
    entries: &[TreeEntry],
    owner: &str,
    repo_name: &str,
    branch_ref: &str,
    repository_id: i64,
    now: Timestamp,
) -> (tracks: Vec<Track>)
    ensures
        tracks@.len() == tree_tracks(owner@, repo_name@, branch_ref@, tree_entry_views(entries@)).len(),
        forall|i: int|
            0 <= i < tracks@.len() ==> is_new_track(
                #[trigger] tracks@[i],
                repository_id,
                tree_tracks(owner@, repo_name@, branch_ref@, tree_entry_views(entries@))[i],
                now,
            ),
{
    let ghost views = tree_entry_views(entries@);
    let mut tracks: Vec<Track> = Vec::new();
    let mut k: usize = 0;
    assert(views.take(0) =~= Seq::<(Seq<char>, Seq<char>, Option<u64>)>::empty());
    while k < entries.len()
        invariant
            k <= entries@.len(),
            views == tree_entry_views(entries@),
            views.len() == entries@.len(),
            tracks@.len() == tree_tracks(owner@, repo_name@, branch_ref@, views.take(k as int)).len(),
            forall|i: int|
                0 <= i < tracks@.len() ==> is_new_track(
                    #[trigger] tracks@[i],
                    repository_id,
                    tree_tracks(owner@, repo_name@, branch_ref@, views.take(k as int))[i],
                    now,
                ),
        decreases entries@.len() - k,
    {
        let entry = &entries[k];
        assert(views[k as int] == tree_entry_view(*entry));
        assert(views.take(k + 1).drop_last() =~= views.take(k as int));
        assert(views.take(k + 1).last() == views[k as int]);
        let ghost prev = tree_tracks(owner@, repo_name@, branch_ref@, views.take(k as int));
        let ghost fate = tree_track(owner@, repo_name@, branch_ref@, views[k as int]);
        if str_equal(entry.kind.as_str(), "blob") {
            let name = last_path_segment(entry.path.as_str());
            if !name.as_str().is_empty() {
                match audio_format_of_name(name.as_str()) {
                    Some(format) => {
                        let url = raw_download_url(owner, repo_name, branch_ref, entry.path.as_str());
                        let size: u64 = match entry.size {
                            Some(n) => n,
                            None => 0,
                        };
                        tracks.push(
                            Track {
                                id: 0,
                                repository_id,
                                path: entry.path.clone(),
                                name,
                                format,
                                size,
                                duration: None,
                                url,
                                local_path: None,
                                downloaded: false,
                                discovered_at: now,
                                favorite: false,
                                blacklisted: false,
                            },
                        );
                        assert(tree_tracks(owner@, repo_name@, branch_ref@, views.take(k + 1))
                            =~= prev.push(fate.unwrap()));
                    },
                    None => {
                        assert(tree_tracks(owner@, repo_name@, branch_ref@, views.take(k + 1))
                            =~= prev);
                    },
                }
            } else {
                assert(tree_tracks(owner@, repo_name@, branch_ref@, views.take(k + 1)) =~= prev);
            }
        } else {
            assert(tree_tracks(owner@, repo_name@, branch_ref@, views.take(k + 1)) =~= prev);
        }
        k = k + 1;
    }
    assert(views.take(k as int) =~= views);
    tracks
}

/// The tracks of a Git Trees listing, all discovered at the current time;
/// none where the system clock cannot be read as a time after the Unix
/// epoch.
pub fn tree_to_tracks(
    entries: &[TreeEntry],
    owner: &str,
    repo_name: &str,
    branch_ref: &str,
    repository_id: i64,
) -> (r: Option<Vec<Track>>)
    ensures
        r matches Some(tracks) ==> {
            &&& tracks@.len() == tree_tracks(owner@, repo_name@, branch_ref@, tree_entry_views(entries@)).len()
            &&& forall|i: int|
                0 <= i < tracks@.len() ==> is_new_track(
                    #[trigger] tracks@[i],
                    repository_id,
                    tree_tracks(owner@, repo_name@, branch_ref@, tree_entry_views(entries@))[i],
                    tracks@[0].discovered_at,
                )
        },
{
    match crate::models::now_utc() {
        Some(now) => Some(tree_to_tracks_at(entries, owner, repo_name, branch_ref, repository_id, now)),
        None => None,
    }
}

} // verus!

verus! {

/// How many times a GitHub request is attempted before giving up.
pub const MAX_GITHUB_REQUEST_ATTEMPTS: u32 = 3;

/// An HTTP status worth retrying: 408 Request Timeout, 429 Too Many
/// Requests, or a server error.
pub open spec fn retryable_status(status: u16) -> bool {
    status == 408 || status == 429 || (500 <= status && status <= 599)
}

/// Whether a failed status is worth retrying.
pub fn should_retry_status(status: u16) -> (b: bool)
    ensures
        b == retryable_status(status),
{
    status == 408 || status == 429 || (500 <= status && status <= 599)
}

/// The pause before the attempt after attempt `attempt`, in milliseconds:
/// 250 ms, doubling with each attempt.
pub open spec fn retry_delay_ms(attempt: nat) -> nat {
    250 * vstd::arithmetic::power2::pow2((attempt - 1) as nat)
}

/// The pause after attempt `attempt`, in milliseconds.
pub fn retry_delay_millis(attempt: u32) -> (ms: u64)
    requires
        1 <= attempt <= 56,
    ensures
        ms == retry_delay_ms(attempt as nat),
{
    let mut d: u64 = 250;
    let mut i: u32 = 1;
    proof {
        vstd::arithmetic::power2::lemma2_to64();
    }
    while i < attempt
        invariant
            1 <= i <= attempt <= 56,
            d == retry_delay_ms(i as nat),
        decreases attempt - i,
    {
        proof {
            vstd::arithmetic::power2::lemma_pow2_unfold(i as nat);
            vstd::arithmetic::power2::lemma2_to64_rest();
            if i < 55 {
                vstd::arithmetic::power2::lemma_pow2_strictly_increases(i as nat, 55);
            }
        }
        d = d * 2;
        i = i + 1;
    }
    d
}

/// Law: each retry waits twice as long as the one before.
pub proof fn law_retry_delay_doubles(attempt: nat)
    requires
        attempt >= 1,
    ensures
        retry_delay_ms(attempt + 1) == 2 * retry_delay_ms(attempt),
        retry_delay_ms(1) == 250,
{
    vstd::arithmetic::power2::lemma_pow2_unfold(attempt);
    vstd::arithmetic::power2::lemma2_to64();
}

/// How an attempt at a GitHub request failed.
#[derive(Debug, Clone, Copy, PartialEq, Eq, Structural)]
pub enum AttemptFailure {
    /// The request could not be sent or its reply not received.
    Transport,
    /// The reply had this non-success status.
    Status(u16),
    /// The reply was a success but its body could not be read or decoded.
    Body,
}

/// What to do after a failed attempt.
#[derive(Debug, Clone, Copy, PartialEq, Eq, Structural)]
pub enum RetryStep {
    /// Wait this many milliseconds, then attempt again.
    RetryAfter(u64),
    /// Report the failure.
    GiveUp,
}

/// The retry policy: transport and body failures are retried until the
/// last attempt; a failed status only when it is retryable and attempts
/// remain.
pub open spec fn retry_step(attempt: u32, failure: AttemptFailure) -> RetryStep {
    let retry = match failure {
        AttemptFailure::Status(s) => retryable_status(s) && attempt < MAX_GITHUB_REQUEST_ATTEMPTS,
        _ => attempt < MAX_GITHUB_REQUEST_ATTEMPTS,
    };
    if retry {
        RetryStep::RetryAfter(retry_delay_ms(attempt as nat) as u64)
    } else {
        RetryStep::GiveUp
    }
}

/// Decides what follows a failed attempt (`attempt` counts from 1).
pub fn after_failed_attempt(attempt: u32, failure: AttemptFailure) -> (step: RetryStep)
    requires
        1 <= attempt <= MAX_GITHUB_REQUEST_ATTEMPTS,
    ensures
        step == retry_step(attempt, failure),
{
    let retry = match failure {
        AttemptFailure::Status(s) => should_retry_status(s) && attempt < MAX_GITHUB_REQUEST_ATTEMPTS,
        _ => attempt < MAX_GITHUB_REQUEST_ATTEMPTS,
    };
    if retry {
        RetryStep::RetryAfter(retry_delay_millis(attempt))
    } else {
        RetryStep::GiveUp
    }
}

/// Law: no request is attempted more than the maximum number of times, and
/// a status that is not worth retrying is reported at once.
pub proof fn law_retries_are_bounded(attempt: u32, failure: AttemptFailure)
    ensures
        attempt >= MAX_GITHUB_REQUEST_ATTEMPTS ==> retry_step(attempt, failure) == RetryStep::GiveUp,
        (failure matches AttemptFailure::Status(s) && !retryable_status(s)) ==> retry_step(
            attempt,
            failure,
        ) == RetryStep::GiveUp,
{
}

/// The error a 403 reply means: rate limiting where the body says so,
/// otherwise a plain refusal.
pub fn forbidden_error(body: &str) -> (e: GitHubError)
    ensures
        contains_seq(body@, "rate limit"@) ==> e matches GitHubError::RateLimited { reset_at: None },
        !contains_seq(body@, "rate limit"@) ==> e matches GitHubError::Forbidden,
{
    let b = chars_of(body);
    let needle = chars_of("rate limit");
    if contains_chars(&b, &needle) {
        GitHubError::RateLimited { reset_at: None }
    } else {
        GitHubError::Forbidden
    }
}

/// The message of a request that failed with `status`: the prefix, a colon,
/// and the status as displayed.
pub fn status_error_message(prefix: &str, status: u16) -> (m: String)
    requires
        crate::errors::valid_status(status),
    ensures
        m@ == prefix@ + ": "@ + http_status_text(status),
{
    let head = concat_str(prefix, ": ");
    let text = status_text(status);
    concat_str(head.as_str(), text.as_str())
}

/// The web address of a repository.
pub fn repository_web_url(owner: &str, repo_name: &str) -> (url: String)
    ensures
        url@ == "https://github.com/"@ + owner@ + "/"@ + repo_name@,
{
    let u = concat_str("https://github.com/", owner);
    let u = concat_str(u.as_str(), "/");
    concat_str(u.as_str(), repo_name)
}

/// The contents-API address of a directory of a repository (the root when
/// `path` is empty).
pub fn contents_url(owner: &str, repo_name: &str, path: &str) -> (url: String)
    ensures
        path@.len() == 0 ==> url@ == "https://api.github.com/repos/"@ + owner@ + "/"@ + repo_name@
            + "/contents"@,
        path@.len() > 0 ==> url@ == "https://api.github.com/repos/"@ + owner@ + "/"@ + repo_name@
            + "/contents/"@ + path@,
{
    let u = concat_str("https://api.github.com/repos/", owner);
    let u = concat_str(u.as_str(), "/");
    let u = concat_str(u.as_str(), repo_name);
    if path.is_empty() {
        concat_str(u.as_str(), "/contents")
    } else {
        let u = concat_str(u.as_str(), "/contents/");
        concat_str(u.as_str(), path)
    }
}

/// One entry of a contents-API directory listing.
#[derive(Debug, Clone)]
pub struct RepoFile {
    pub name: String,
    pub path: String,
    /// `file` or `dir` (or another kind, which is ignored).
    pub kind: String,
    pub download_url: Option<String>,
    pub size: Option<u64>,
}

/// A listing entry as plain values.
pub open spec fn repo_file_view(f: RepoFile) -> (Seq<char>, Seq<char>, Seq<char>, Option<Seq<char>>, Option<u64>) {
    (f.name@, f.path@, f.kind@, match f.download_url {
        Some(u) => Some(u@),
        None => None,
    }, f.size)
}

/// The track a contents entry is: a file with an audio extension that has
/// a download URL.
pub open spec fn contents_track(f: (Seq<char>, Seq<char>, Seq<char>, Option<Seq<char>>, Option<u64>)) -> Option<TrackFacts> {
    if f.2 == "file"@ {
        match (audio_format_of(f.0), f.3) {
            (Some(format), Some(url)) => Some(
                (
                    f.1,
                    f.0,
                    format,
                    match f.4 {
                        Some(n) => n,
                        None => 0,
                    },
                    url,
                ),
            ),
            _ => None,
        }
    } else {
        None
    }
}

/// The directories a listing leads to, in listing order.
pub open spec fn contents_dirs(fs: Seq<(Seq<char>, Seq<char>, Seq<char>, Option<Seq<char>>, Option<u64>)>) -> Seq<Seq<char>>
    decreases fs.len(),
{
    if fs.len() == 0 {
        Seq::empty()
    } else {
        contents_dirs(fs.drop_last()) + if fs.last().2 == "dir"@ {
            seq![fs.last().1]
        } else {
            Seq::empty()
        }
    }
}

/// `p` is the repository path of a `dir` entry of the listing.
pub open spec fn is_listed_dir_path(
    fs: Seq<(Seq<char>, Seq<char>, Seq<char>, Option<Seq<char>>, Option<u64>)>,
    p: Seq<char>,
) -> bool {
    exists|j: int| #![trigger fs[j]] 0 <= j < fs.len() && fs[j].2 == "dir"@ && fs[j].1 == p
}

/// Law: the contents walk queues exactly the repository paths of the
/// listed directories: every queued directory is the `path` of a `dir`
/// entry of the listing, and every `dir` entry's `path` is queued (so a
/// listing of `Artist` queues `Artist/Album`, not `Album`).
pub proof fn law_contents_dirs_are_dir_paths(
    fs: Seq<(Seq<char>, Seq<char>, Seq<char>, Option<Seq<char>>, Option<u64>)>,
)
    ensures
        forall|i: int|
            0 <= i < contents_dirs(fs).len() ==> is_listed_dir_path(fs, #[trigger] contents_dirs(fs)[i]),
        forall|j: int| 0 <= j < fs.len() && #[trigger] fs[j].2 == "dir"@ ==> contents_dirs(fs).contains(fs[j].1),
    decreases fs.len(),
{
    if fs.len() > 0 {
        let init = fs.drop_last();
        law_contents_dirs_are_dir_paths(init);
        let before = contents_dirs(init);
        let n = fs.len() - 1;
        assert forall|i: int| 0 <= i < contents_dirs(fs).len() implies is_listed_dir_path(
            fs,
            #[trigger] contents_dirs(fs)[i],
        ) by {
            if i < before.len() {
                assert(contents_dirs(fs)[i] == before[i]);
                assert(is_listed_dir_path(init, before[i]));
                let j = choose|j: int| #![trigger init[j]] 0 <= j < init.len() && init[j].2 == "dir"@ && init[j].1 == before[i];
                assert(fs[j] == init[j]);
            } else {
                assert(fs[n].2 == "dir"@ && contents_dirs(fs)[i] == fs[n].1);
            }
        }
        assert forall|j: int| 0 <= j < fs.len() && #[trigger] fs[j].2 == "dir"@ implies contents_dirs(fs).contains(
            fs[j].1,
        ) by {
            if j < n {
                assert(init[j] == fs[j]);
                assert(before.contains(fs[j].1));
                let k = choose|k: int| 0 <= k < before.len() && before[k] == fs[j].1;
                assert(contents_dirs(fs)[k] == before[k]);
            } else {
                assert(contents_dirs(fs)[before.len() as int] == fs[j].1);
            }
        }
    }
}

/// The tracks a listing holds, in listing order.
pub open spec fn contents_tracks(fs: Seq<(Seq<char>, Seq<char>, Seq<char>, Option<Seq<char>>, Option<u64>)>) -> Seq<TrackFacts>
    decreases fs.len(),
{
    if fs.len() == 0 {
        Seq::empty()
    } else {
        contents_tracks(fs.drop_last()) + match contents_track(fs.last()) {
            Some(t) => seq![t],
            None => Seq::empty(),
        }
    }
}

/// Law: every track a contents listing yields is an audio file with a
/// download URL, its format the lower-cased extension of its name.
pub proof fn law_contents_tracks_are_audio(fs: Seq<(Seq<char>, Seq<char>, Seq<char>, Option<Seq<char>>, Option<u64>)>)
    ensures
        forall|i: int|
            0 <= i < contents_tracks(fs).len() ==> crate::models::is_audio_file(
                #[trigger] contents_tracks(fs)[i].1,
                contents_tracks(fs)[i].2,
            ),
    decreases fs.len(),
{
    if fs.len() > 0 {
        law_contents_tracks_are_audio(fs.drop_last());
        let before = contents_tracks(fs.drop_last());
        assert forall|i: int| 0 <= i < contents_tracks(fs).len() implies crate::models::is_audio_file(
            #[trigger] contents_tracks(fs)[i].1,
            contents_tracks(fs)[i].2,
        ) by {
            if i < before.len() {
                assert(contents_tracks(fs)[i] == before[i]);
            }
        }
    }
}

/// The listing entries as plain values.
pub open spec fn repo_file_views(fs: Seq<RepoFile>) -> Seq<(Seq<char>, Seq<char>, Seq<char>, Option<Seq<char>>, Option<u64>)> {
    fs.map_values(|f: RepoFile| repo_file_view(f))
}

/// A walk over a repository with the contents API: the directories still
/// to list and the tracks found so far (not yet tied to a repository).
#[derive(Debug)]
pub struct ContentsScan {
    pub pending: Vec<String>,
    pub tracks: Vec<Track>,
}

impl ContentsScan {
    /// A walk that starts at the repository root.
    pub fn new() -> (s: Self)
        ensures
            s.pending.deep_view() == seq![Seq::<char>::empty()],
            s.tracks@.len() == 0,
    {
        let mut pending: Vec<String> = Vec::new();
        pending.push(String::new());
        assert(pending.deep_view() =~= seq![Seq::<char>::empty()]);
        ContentsScan { pending, tracks: Vec::new() }
    }

    /// The next directory to list, most recently found first.
    pub fn next_path(&mut self) -> (p: Option<String>)
        ensures
            old(self).pending@.len() == 0 ==> p is None && final(self).pending@.len() == 0,
            old(self).pending@.len() > 0 ==> (p matches Some(d) && d@ == old(self).pending@.last()@
                && final(self).pending@ == old(self).pending@.drop_last()),
            final(self).tracks@ == old(self).tracks@,
    {
        self.pending.pop()
    }

    /// Takes in a directory listing: directories join the walk, audio files
    /// with a download URL join the tracks, in listing order.
    pub fn absorb_contents(&mut self, files: &[RepoFile], now: Timestamp)
        ensures
            final(self).pending.deep_view() == old(self).pending.deep_view() + contents_dirs(
                repo_file_views(files@),
            ),
            forall|i: int|
                old(self).pending@.len() <= i < final(self).pending@.len() ==> is_listed_dir_path(
                    repo_file_views(files@),
                    #[trigger] final(self).pending.deep_view()[i],
                ),
            final(self).tracks@.len() == old(self).tracks@.len() + contents_tracks(
                repo_file_views(files@),
            ).len(),
            forall|i: int|
                0 <= i < old(self).tracks@.len() ==> #[trigger] final(self).tracks@[i] == old(
                    self,
                ).tracks@[i],
            forall|i: int|
                0 <= i < contents_tracks(repo_file_views(files@)).len() ==> is_new_track(
                    #[trigger] final(self).tracks@[old(self).tracks@.len() + i],
                    0,
                    contents_tracks(repo_file_views(files@))[i],
                    now,
                ),
    {
        let ghost views = repo_file_views(files@);
        let ghost old_pending = self.pending.deep_view();
        let ghost old_tracks = self.tracks@;
        let mut k: usize = 0;
        assert(views.take(0) =~= Seq::<(Seq<char>, Seq<char>, Seq<char>, Option<Seq<char>>, Option<u64>)>::empty());
        assert(old_pending + Seq::<Seq<char>>::empty() =~= old_pending);
        while k < files.len()
            invariant
                k <= files@.len(),
                views == repo_file_views(files@),
                views.len() == files@.len(),
                self.pending.deep_view() == old_pending + contents_dirs(views.take(k as int)),
                self.tracks@.len() == old_tracks.len() + contents_tracks(views.take(k as int)).len(),
                forall|i: int| 0 <= i < old_tracks.len() ==> #[trigger] self.tracks@[i] == old_tracks[i],
                forall|i: int|
                    0 <= i < contents_tracks(views.take(k as int)).len() ==> is_new_track(
                        #[trigger] self.tracks@[old_tracks.len() + i],
                        0,
                        contents_tracks(views.take(k as int))[i],
                        now,
                    ),
            decreases files@.len() - k,
        {
            let file = &files[k];
            assert(views[k as int] == repo_file_view(*file));
            assert(views.take(k + 1).drop_last() =~= views.take(k as int));
            assert(views.take(k + 1).last() == views[k as int]);
            let ghost prev_dirs = contents_dirs(views.take(k as int));
            let ghost prev_tracks = contents_tracks(views.take(k as int));
            let ghost before_pending = self.pending.deep_view();
            let ghost before_tracks = self.tracks@;
            if str_equal(file.kind.as_str(), "dir") {
                self.pending.push(file.path.clone());
                assert(self.pending.deep_view() =~= before_pending.push(file.path@));
                assert(contents_dirs(views.take(k + 1)) =~= prev_dirs.push(file.path@));
                proof {
                    reveal_strlit("dir");
                    reveal_strlit("file");
                    assert("dir"@.len() != "file"@.len());
                }
                assert(contents_tracks(views.take(k + 1)) =~= prev_tracks);
            } else {
                assert(contents_dirs(views.take(k + 1)) =~= prev_dirs);
                let mut added = false;
                if str_equal(file.kind.as_str(), "file") {
                    if let Some(format) = audio_format_of_name(file.name.as_str()) {
                        if let Some(url) = &file.download_url {
                            let size: u64 = match file.size {
                                Some(n) => n,
                                None => 0,
                            };
                            self.tracks.push(
                                Track {
                                    id: 0,
                                    repository_id: 0,
                                    path: file.path.clone(),
                                    name: file.name.clone(),
                                    format,
                                    size,
                                    duration: None,
                                    url: url.clone(),
                                    local_path: None,
                                    downloaded: false,
                                    discovered_at: now,
                                    favorite: false,
                                    blacklisted: false,
                                },
                            );
                            added = true;
                            assert(contents_tracks(views.take(k + 1)) =~= prev_tracks.push(
                                contents_track(views[k as int]).unwrap(),
                            ));
                        }
                    }
                }
                if !added {
                    assert(contents_tracks(views.take(k + 1)) =~= prev_tracks);
                }
            }
            k = k + 1;
        }
        assert(views.take(k as int) =~= views);
        proof {
            law_contents_dirs_are_dir_paths(views);
            let added = contents_dirs(views);
            assert forall|i: int|
                old_pending.len() <= i < self.pending@.len() implies is_listed_dir_path(
                    views,
                    #[trigger] self.pending.deep_view()[i],
                ) by {
                assert(self.pending.deep_view()[i] == added[i - old_pending.len()]);
            }
        }
    }
}

} // verus!

verus! {

/// A character that can stand in an encoded path segment: an unreserved
/// character or the `%` of an escape.
pub open spec fn url_safe(c: char) -> bool {
    unreserved(c) || c == '%'
}

proof fn lemma_percent_escapes_safe(bytes: Seq<u8>)
    ensures
        forall|i: int| 0 <= i < percent_escapes(bytes).len() ==> url_safe(#[trigger] percent_escapes(bytes)[i]),
    decreases bytes.len(),
{
    if bytes.len() > 0 {
        lemma_percent_escapes_safe(bytes.drop_last());
        let b = bytes.last();
        let tail = seq!['%', upper_hex_digit(b as int / 16), upper_hex_digit(b as int % 16)];
        assert(percent_escapes(bytes) == percent_escapes(bytes.drop_last()) + tail);
        assert forall|i: int| 0 <= i < percent_escapes(bytes).len() implies url_safe(
            #[trigger] percent_escapes(bytes)[i],
        ) by {
            let n = percent_escapes(bytes.drop_last()).len();
            if i >= n {
                let d = if i == n + 1 {
                    b as int / 16
                } else {
                    b as int % 16
                };
                if i > n {
                    assert(0 <= d < 16);
                    assert(percent_escapes(bytes)[i] == upper_hex_digit(d));
                }
            } else {
                assert(percent_escapes(bytes)[i] == percent_escapes(bytes.drop_last())[i]);
            }
        }
    }
}

/// Law: a percent-encoded path segment holds only unreserved characters
/// (ASCII letters, digits, `-`, `_`, `.`, `~`, `(`, `)`) and `%` escapes, so
/// no space, slash or non-ASCII character survives.
pub proof fn law_encoded_segment_is_url_safe(s: Seq<char>)
    ensures
        forall|i: int| 0 <= i < encoded_segment(s).len() ==> url_safe(#[trigger] encoded_segment(s)[i]),
    decreases s.len(),
{
    if s.len() > 0 {
        law_encoded_segment_is_url_safe(s.drop_last());
        let c = s.last();
        if !unreserved(c) {
            lemma_percent_escapes_safe(vstd::utf8::encode_utf8(seq![c]));
        }
        assert forall|i: int| 0 <= i < encoded_segment(s).len() implies url_safe(
            #[trigger] encoded_segment(s)[i],
        ) by {
            let n = encoded_segment(s.drop_last()).len();
            if i < n {
                assert(encoded_segment(s)[i] == encoded_segment(s.drop_last())[i]);
            } else {
                assert(encoded_segment(s)[i] == encoded_char(c)[i - n]);
            }
        }
    }
}

} // verus!
